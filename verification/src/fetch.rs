//! The addresses of the provider's API that a download asks.

use vstd::prelude::*;
use vstd::string::*;
use crate::text::{decimal, decimal_string};

verus! {

/// The address of the list of the athlete's latest `count` activities.
pub open spec fn activities_address(base: Seq<char>, count: nat) -> Seq<char> {
    base + "/athlete/activities?per_page="@ + decimal(count)
}

/// The address of the metadata of the activity `id`.
pub open spec fn activity_address(base: Seq<char>, id: nat) -> Seq<char> {
    base + "/activities/"@ + decimal(id)
}

/// The address of the streams of the activity `id`, keyed by type.
pub open spec fn streams_address(base: Seq<char>, id: nat) -> Seq<char> {
    activity_address(base, id)
        + "/streams?keys=latlng,time,altitude,heartrate,watts&key_by_type=true"@
}

/// The address of the list of the athlete's latest `count` activities.
pub fn activities_url(base_url: &str, count: usize) -> (r: String)
    ensures
        r@ == activities_address(base_url@, count as nat),
{
    let mut out = String::from_str(base_url);
    out.append("/athlete/activities?per_page=");
    out.append(decimal_string(count as u64).as_str());
    out
}

/// The address of the metadata of the activity `id`.
pub fn activity_url(base_url: &str, id: u64) -> (r: String)
    ensures
        r@ == activity_address(base_url@, id as nat),
{
    let mut out = String::from_str(base_url);
    out.append("/activities/");
    out.append(decimal_string(id).as_str());
    out
}

/// The address of the streams of the activity `id`.
pub fn streams_url(base_url: &str, id: u64) -> (r: String)
    ensures
        r@ == streams_address(base_url@, id as nat),
{
    let mut out = activity_url(base_url, id);
    out.append("/streams?keys=latlng,time,altitude,heartrate,watts&key_by_type=true");
    out
}

} // verus!
