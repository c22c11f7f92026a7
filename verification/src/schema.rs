//! Canonical sensor streams and the typed records derived from an activity.

use vstd::prelude::*;
use crate::calendar::{rfc3339_utc_date, CalendarDate};
use crate::json::Json;
use crate::scalar::Scalar;

verus! {

/// The canonical streams of one activity: seconds since the start, power in
/// watts and heart rate in beats per minute. A metric that the activity lacks
/// is an empty sequence.
#[derive(Debug, Clone, PartialEq, Eq)]
pub struct ParsedStreams {
    pub time: Vec<i64>,
    /// Power data in watts if available
    pub power: Vec<i64>,
    /// Heart rate data in bpm if available
    pub heartrate: Vec<i64>,
}

/// What a listing shows of an activity.
#[derive(Debug, Clone)]
pub struct ActivityHeader {
    pub id: u64,
    pub name: String,
    pub start_date: String,
    pub distance: Scalar,
}

/// An activity with its metadata and canonical streams.
#[derive(Debug)]
pub struct ActivityDetail {
    pub meta: Json,
    pub streams: ParsedStreams,
}

/// The typed summary of one activity. A measurement that the activity does
/// not give is absent; none is an error.
#[derive(Debug, Clone)]
pub struct ActivitySummary {
    pub id: u64,
    pub name: String,
    pub start_date: String,
    /// Distance in meters
    pub distance: Scalar,
    /// Total elevation gain in meters if available
    pub total_elevation_gain: Option<Scalar>,
    /// Duration in seconds
    pub duration: i64,
    /// Weighted average power in watts if available
    pub weighted_average_power: Option<Scalar>,
    /// Average speed in kilometers per hour if available
    pub average_speed: Option<Scalar>,
    /// Maximum speed in meters per second if available
    pub max_speed: Option<Scalar>,
    /// Number of personal records from segments if available
    pub pr_count: Option<i64>,
    /// Average heart rate in bpm if available
    pub average_heartrate: Option<Scalar>,
    /// Summary polyline of the activity map if available
    pub summary_polyline: Option<String>,
    /// Normalized power in watts if available
    pub normalized_power: Option<Scalar>,
    /// Intensity factor relative to FTP if available
    pub intensity_factor: Option<Scalar>,
    /// Training stress score if available
    pub training_stress_score: Option<Scalar>,
    /// Activity type such as Ride or Run if available
    pub activity_type: Option<String>,
}

/// One trend label per metric.
#[derive(Debug, Clone, PartialEq, Eq)]
pub struct TrendSummary {
    pub avg_speed: String,
    pub max_speed: String,
    pub tss: String,
    pub intensity: String,
    pub power: String,
}

/// One sample: the item as a signed integer, or 0 where it is none.
pub open spec fn sample(item: Json) -> i64 {
    match item.spec_as_i64() {
        Some(n) => n,
        None => 0,
    }
}

/// The samples of an array of items, in order.
pub open spec fn samples(items: Seq<Json>) -> Seq<i64> {
    Seq::new(items.len(), |i: int| sample(items[i]))
}

/// The samples of a document: those of an array, none of anything else.
pub open spec fn samples_or_empty(data: Option<Json>) -> Seq<i64> {
    match data {
        Some(d) => match d.spec_as_array() {
            Some(items) => samples(items),
            None => Seq::empty(),
        },
        None => Seq::empty(),
    }
}

/// What a channel carries: its `data` member where the channel is an object,
/// the channel itself otherwise.
pub open spec fn channel_data(channel: Json) -> Option<Json> {
    if channel.spec_is_object() {
        channel.spec_get("data"@)
    } else {
        Some(channel)
    }
}

/// The time stream of a raw payload. It is required: a payload without a
/// `time` channel, or whose time data is no array, has no canonical streams.
pub open spec fn time_stream(raw: Json) -> Option<Seq<i64>> {
    match raw.spec_get("time"@) {
        Some(channel) => match channel_data(channel) {
            Some(data) => match data.spec_as_array() {
                Some(items) => Some(samples(items)),
                None => None,
            },
            None => None,
        },
        None => None,
    }
}

/// The power channel of a raw payload: `watts` where present, else `power`.
pub open spec fn power_channel(raw: Json) -> Option<Json> {
    match raw.spec_get("watts"@) {
        Some(channel) => Some(channel),
        None => raw.spec_get("power"@),
    }
}

/// The power stream of a raw payload; empty where it has none.
pub open spec fn power_stream(raw: Json) -> Seq<i64> {
    match power_channel(raw) {
        Some(channel) => samples_or_empty(channel_data(channel)),
        None => Seq::empty(),
    }
}

/// The heart-rate stream of a raw payload: the `data` member of its
/// `heartrate` channel; empty where it has none.
pub open spec fn heartrate_stream(raw: Json) -> Seq<i64> {
    match raw.spec_get("heartrate"@) {
        Some(channel) => samples_or_empty(channel.spec_get("data"@)),
        None => Seq::empty(),
    }
}

impl ParsedStreams {
    /// Whether these are the canonical streams of the raw payload.
    pub open spec fn is_canonical_of(self, raw: Json) -> bool {
        &&& time_stream(raw) == Some(self.time@)
        &&& self.power@ == power_stream(raw)
        &&& self.heartrate@ == heartrate_stream(raw)
    }

    /// Streams without any sample.
    pub fn empty() -> (r: ParsedStreams)
        ensures
            r.time@.len() == 0,
            r.power@.len() == 0,
            r.heartrate@.len() == 0,
    {
        ParsedStreams { time: Vec::new(), power: Vec::new(), heartrate: Vec::new() }
    }
}

/// The samples of an array of items.
fn samples_of(items: &Vec<Json>) -> (r: Vec<i64>)
    ensures
        r@ == samples(items@),
{
    let mut out: Vec<i64> = Vec::new();
    let mut i: usize = 0;
    while i < items.len()
        invariant
            i <= items@.len(),
            out@.len() == i,
            forall|j: int| 0 <= j < i ==> out@[j] == sample(items@[j]),
        decreases items@.len() - i,
    {
        let n: i64 = match items[i].as_i64() {
            Some(n) => n,
            None => 0,
        };
        out.push(n);
        i = i + 1;
    }
    out
}

/// The samples of an optional document.
fn samples_of_data(data: Option<&Json>) -> (r: Vec<i64>)
    ensures
        r@ == samples_or_empty(
            match data {
                Some(d) => Some(*d),
                None => None,
            },
        ),
{
    match data {
        Some(d) => match d.as_array() {
            Some(items) => samples_of(items),
            None => Vec::new(),
        },
        None => Vec::new(),
    }
}

/// What a channel carries.
fn data_of(channel: &Json) -> (r: Option<&Json>)
    ensures
        match r {
            Some(d) => channel_data(*channel) == Some(*d),
            None => channel_data(*channel) is None,
        },
{
    if channel.is_object() {
        channel.get("data")
    } else {
        Some(channel)
    }
}

/// Maps a raw stream payload to canonical streams.
///
/// The payload is an object of channels; a channel is an array of samples or
/// an object whose `data` member is that array. `time` is required; power is
/// read from `watts` or else `power`, heart rate from `heartrate`. A sample
/// that is no integer counts as 0.
pub fn parse_streams(v: &Json) -> (r: Option<ParsedStreams>)
    ensures
        match r {
            Some(streams) => streams.is_canonical_of(*v),
            None => time_stream(*v) is None,
        },
{
    let time_items = match v.get("time") {
        Some(channel) => match data_of(channel) {
            Some(data) => match data.as_array() {
                Some(items) => items,
                None => {
                    return None;
                },
            },
            None => {
                return None;
            },
        },
        None => {
            return None;
        },
    };
    let power_channel = match v.get("watts") {
        Some(channel) => Some(channel),
        None => v.get("power"),
    };
    let power = match power_channel {
        Some(channel) => samples_of_data(data_of(channel)),
        None => Vec::new(),
    };
    let heartrate = match v.get("heartrate") {
        Some(channel) => samples_of_data(channel.get("data")),
        None => Vec::new(),
    };
    Some(ParsedStreams { time: samples_of(time_items), power, heartrate })
}

impl ActivityDetail {
    /// The activity with the given metadata and raw streams: its streams
    /// are the canonical streams of the raw ones, or empty where they have
    /// none.
    pub fn new(meta: Json, raw_streams: &Json) -> (r: ActivityDetail)
        ensures
            r.meta == meta,
            match time_stream(*raw_streams) {
                Some(_) => r.streams.is_canonical_of(*raw_streams),
                None => r.streams.time@.len() == 0 && r.streams.power@.len() == 0
                    && r.streams.heartrate@.len() == 0,
            },
    {
        let streams = match parse_streams(raw_streams) {
            Some(streams) => streams,
            None => ParsedStreams::empty(),
        };
        ActivityDetail { meta, streams }
    }
}

/// The UTC dates on which activities start: for each activity the date of
/// its start, where its start date is an RFC 3339 date-and-time.
pub open spec fn start_dates_of(acts: Seq<ActivitySummary>) -> Seq<Option<CalendarDate>> {
    Seq::new(acts.len(), |i: int| rfc3339_utc_date(acts[i].start_date@))
}

/// The UTC dates on which the activities start.
pub fn start_dates(activities: &[ActivitySummary]) -> (r: Vec<Option<CalendarDate>>)
    ensures
        r@ == start_dates_of(activities@),
{
    let mut out: Vec<Option<CalendarDate>> = Vec::new();
    let mut i: usize = 0;
    while i < activities.len()
        invariant
            i <= activities@.len(),
            out@.len() == i,
            forall|j: int|
                0 <= j < i ==> out@[j] == rfc3339_utc_date(activities@[j].start_date@),
        decreases activities@.len() - i,
    {
        out.push(CalendarDate::parse(activities[i].start_date.as_str()));
        i = i + 1;
    }
    out
}

} // verus!
