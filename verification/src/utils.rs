//! Settings of a deployment.

use vstd::prelude::*;
use vstd::string::*;

verus! {

/// Credentials for the activity provider.
#[derive(Debug, Clone)]
pub struct Strava {
    pub client_id: String,
    pub client_secret: String,
    pub refresh_token: Option<String>,
    pub token_path: String,
}

/// Where activities are kept and how many are fetched at a time.
#[derive(Debug, Clone)]
pub struct Storage {
    pub data_dir: String,
    pub download_count: usize,
    pub user: String,
}

/// The settings of one deployment.
#[derive(Debug, Clone)]
pub struct Config {
    pub strava: Strava,
    pub storage: Storage,
    /// The root of the provider's API; `default_base_url` where none is set.
    pub base_url: String,
}

/// The root of the provider's API that is used where the settings name none.
pub fn default_base_url() -> (r: String)
    ensures
        r@ == "https://www.strava.com/api/v3"@,
{
    String::from_str("https://www.strava.com/api/v3")
}

} // verus!
