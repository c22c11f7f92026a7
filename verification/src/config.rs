//! Settings taken from the process environment.

use vstd::prelude::*;

verus! {

/// The settings that the environment supplies.
#[derive(Debug, Clone)]
pub struct Config {
    pub strava_client_id: String,
    pub strava_client_secret: String,
    pub strava_refresh_token: String,
    pub strava_access_token: Option<String>,
    pub data_dir: String,
}

/// The data directory that is used where the environment names none.
pub fn default_data_dir() -> (r: String)
    ensures
        r@ == "data"@,
{
    "data".to_owned()
}

} // verus!
