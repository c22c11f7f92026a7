//! The summary of an activity: which source each field is taken from.
//!
//! Every field follows a chain of sources and takes the first that is
//! available: a value that the metadata reports, else a value derived from
//! the canonical streams, else nothing. The outline records the choice and
//! the exact integer ingredients of each derived value.

use vstd::prelude::*;
use vstd::string::*;
use crate::json::Json;
use crate::power::{rolling_windows, series_sum, series_total, PowerWindows};
use crate::scalar::Scalar;
use crate::schema::ParsedStreams;

verus! {

/// Seconds in an hour: the stress score relates work to one hour at threshold.
pub const SECONDS_PER_HOUR: i64 = 3600;

/// The stress score of one hour at threshold power.
pub const STRESS_PER_HOUR_AT_THRESHOLD: i64 = 100;

/// Bit pattern of 3.6, the kilometers per hour in one meter per second.
pub const KMH_PER_MPS_BITS: u64 = 0x400C_CCCC_CCCC_CCCD;

/// Where a real-valued field of a summary comes from.
#[derive(Clone, Copy, Debug)]
pub enum Measure {
    /// The metadata reports the value.
    Reported(Scalar),
    /// The value is to be computed from the activity's other data.
    Derived,
    /// The activity gives no value.
    Unknown,
}

/// The member `key` of `meta` as a binary64 value.
pub open spec fn real_field(meta: Json, key: Seq<char>) -> Option<Scalar> {
    match meta.spec_get(key) {
        Some(v) => v.spec_as_f64(),
        None => None,
    }
}

/// The member `key` of `meta` as a signed integer.
pub open spec fn int_field(meta: Json, key: Seq<char>) -> Option<i64> {
    match meta.spec_get(key) {
        Some(v) => v.spec_as_i64(),
        None => None,
    }
}

/// The member `key` of `meta` as an unsigned integer.
pub open spec fn unsigned_field(meta: Json, key: Seq<char>) -> Option<u64> {
    match meta.spec_get(key) {
        Some(v) => v.spec_as_u64(),
        None => None,
    }
}

/// The member `key` of `meta` as text.
pub open spec fn text_field(meta: Json, key: Seq<char>) -> Option<Seq<char>> {
    match meta.spec_get(key) {
        Some(v) => v.spec_as_str(),
        None => None,
    }
}

/// The text of an optional string.
pub open spec fn opt_text(s: Option<String>) -> Option<Seq<char>> {
    match s {
        Some(t) => Some(t@),
        None => None,
    }
}

/// The text of an optional string, empty where there is none.
pub open spec fn text_or_empty(s: Option<Seq<char>>) -> Seq<char> {
    match s {
        Some(t) => t,
        None => Seq::empty(),
    }
}

/// The reported value where there is one, else `fallback`.
pub open spec fn reported_or(value: Option<Scalar>, fallback: Measure) -> Measure {
    match value {
        Some(v) => Measure::Reported(v),
        None => fallback,
    }
}

/// `Derived` where `available`, else `Unknown`.
pub open spec fn derived_if(available: bool) -> Measure {
    if available {
        Measure::Derived
    } else {
        Measure::Unknown
    }
}

/// Duration in seconds: the elapsed time that the metadata reports, else the
/// last time sample, else 0.
pub open spec fn duration_of(meta: Json, time: Seq<i64>) -> i64 {
    match int_field(meta, "elapsed_time"@) {
        Some(d) => d,
        None => if time.len() > 0 {
            time[time.len() - 1]
        } else {
            0
        },
    }
}

/// Weighted average power: the reported weighted average, else the reported
/// average, else derived from the power stream where it has samples.
pub open spec fn weighted_power_of(meta: Json, power: Seq<i64>) -> Measure {
    reported_or(
        real_field(meta, "weighted_average_watts"@),
        reported_or(real_field(meta, "average_watts"@), derived_if(power.len() > 0)),
    )
}

/// Average speed: the reported speed, else derived from distance and a
/// positive duration.
pub open spec fn average_speed_of(meta: Json, duration: i64) -> Measure {
    reported_or(real_field(meta, "average_speed"@), derived_if(duration > 0))
}

/// Average heart rate: derived from the heart-rate stream where it has
/// samples, else the reported average.
pub open spec fn average_heartrate_of(meta: Json, heartrate: Seq<i64>) -> Measure {
    if heartrate.len() > 0 {
        Measure::Derived
    } else {
        reported_or(real_field(meta, "average_heartrate"@), Measure::Unknown)
    }
}

/// Normalized power: the reported value, else derived from the power stream
/// where it has samples.
pub open spec fn normalized_power_of(meta: Json, power: Seq<i64>) -> Measure {
    reported_or(real_field(meta, "normalized_power"@), derived_if(power.len() > 0))
}

/// A field that is reported under `key` or else derived from normalized
/// power, where that is known.
pub open spec fn power_relative_of(meta: Json, key: Seq<char>, power: Seq<i64>) -> Measure {
    reported_or(real_field(meta, key), derived_if(!(normalized_power_of(meta, power) is Unknown)))
}

/// Whether a segment effort is a personal record.
pub open spec fn is_record(effort: Json) -> bool {
    int_field(effort, "pr_rank"@) == Some(1i64)
}

/// The number of personal records among the first `n` efforts.
pub open spec fn records_among(efforts: Seq<Json>, n: int) -> int
    decreases n,
{
    if n <= 0 {
        0
    } else {
        records_among(efforts, n - 1) + if is_record(efforts[n - 1]) {
            1int
        } else {
            0int
        }
    }
}

/// The segment efforts of an activity, where its metadata lists them.
pub open spec fn efforts_of(meta: Json) -> Option<Seq<Json>> {
    match meta.spec_get("segment_efforts"@) {
        Some(v) => v.spec_as_array(),
        None => None,
    }
}

/// Personal records: the efforts of rank 1 where efforts are listed, else the
/// reported count.
pub open spec fn pr_count_of(meta: Json) -> Option<int> {
    match efforts_of(meta) {
        Some(efforts) => Some(records_among(efforts, efforts.len() as int)),
        None => match int_field(meta, "pr_count"@) {
            Some(n) => Some(n as int),
            None => None,
        },
    }
}

/// The map polyline of an activity.
pub open spec fn polyline_of(meta: Json) -> Option<Seq<char>> {
    match meta.spec_get("map"@) {
        Some(m) => text_field(m, "summary_polyline"@),
        None => None,
    }
}

/// The summary of an activity before any real-valued field is computed.
///
/// A `Reported` field holds the metadata's value. A `Derived` field is
/// computed by the caller:
/// - `weighted_average_power` and `normalized_power`: the fourth root of the
///   mean of the fourth powers of the window means of `power_windows`;
/// - `average_speed`: `distance / duration`, in meters per second;
/// - `average_heartrate`: `heartrate_total / heartrate_count`;
/// - `intensity_factor`: normalized power over FTP;
/// - `training_stress_score`: `duration * NP * IF / (FTP * 3600) * 100`.
/// Average speed, reported or derived, is in meters per second and becomes
/// kilometers per hour by the factor 3.6.
#[derive(Debug)]
pub struct SummaryOutline {
    pub id: u64,
    pub name: String,
    pub start_date: String,
    pub distance: Scalar,
    pub total_elevation_gain: Option<Scalar>,
    pub duration: i64,
    pub weighted_average_power: Measure,
    pub average_speed: Measure,
    pub max_speed: Option<Scalar>,
    pub pr_count: Option<i64>,
    pub average_heartrate: Measure,
    pub summary_polyline: Option<String>,
    pub normalized_power: Measure,
    pub intensity_factor: Measure,
    pub training_stress_score: Measure,
    pub activity_type: Option<String>,
    /// The rolling windows of the power stream.
    pub power_windows: PowerWindows,
    /// The sum of the heart-rate samples.
    pub heartrate_total: i128,
    /// The number of heart-rate samples.
    pub heartrate_count: usize,
}

impl SummaryOutline {
    /// Whether this is the outline of the activity with metadata `meta` and
    /// canonical streams `streams`, stored under the id `stored_id`.
    pub open spec fn is_outline_of(
        self,
        meta: Json,
        streams: ParsedStreams,
        stored_id: u64,
    ) -> bool {
        &&& self.id == match unsigned_field(meta, "id"@) {
            Some(id) => id,
            None => stored_id,
        }
        &&& self.name@ == text_or_empty(text_field(meta, "name"@))
        &&& self.start_date@ == text_or_empty(text_field(meta, "start_date"@))
        &&& self.distance == match real_field(meta, "distance"@) {
            Some(d) => d,
            None => Scalar::spec_zero(),
        }
        &&& self.total_elevation_gain == real_field(meta, "total_elevation_gain"@)
        &&& self.duration == duration_of(meta, streams.time@)
        &&& self.weighted_average_power == weighted_power_of(meta, streams.power@)
        &&& self.average_speed == average_speed_of(meta, self.duration)
        &&& self.max_speed == real_field(meta, "max_speed"@)
        &&& match pr_count_of(meta) {
            Some(n) => self.pr_count == Some(
                if n <= i64::MAX {
                    n as i64
                } else {
                    i64::MAX
                },
            ),
            None => self.pr_count is None,
        }
        &&& self.average_heartrate == average_heartrate_of(meta, streams.heartrate@)
        &&& opt_text(self.summary_polyline) == polyline_of(meta)
        &&& self.normalized_power == normalized_power_of(meta, streams.power@)
        &&& self.intensity_factor == power_relative_of(meta, "intensity_factor"@, streams.power@)
        &&& self.training_stress_score == power_relative_of(
            meta,
            "training_stress_score"@,
            streams.power@,
        )
        &&& opt_text(self.activity_type) == text_field(meta, "type"@)
        &&& self.power_windows.is_windows_of(streams.power@)
        &&& self.heartrate_total == series_sum(streams.heartrate@)
        &&& self.heartrate_count == streams.heartrate@.len()
    }
}

/// The member `key` of `meta` as a binary64 value.
pub fn get_real(meta: &Json, key: &str) -> (r: Option<Scalar>)
    ensures
        r == real_field(*meta, key@),
{
    match meta.get(key) {
        Some(v) => v.as_f64(),
        None => None,
    }
}

/// The member `key` of `meta` as a signed integer.
pub fn get_int(meta: &Json, key: &str) -> (r: Option<i64>)
    ensures
        r == int_field(*meta, key@),
{
    match meta.get(key) {
        Some(v) => v.as_i64(),
        None => None,
    }
}

/// The member `key` of `meta` as an unsigned integer.
pub fn get_unsigned(meta: &Json, key: &str) -> (r: Option<u64>)
    ensures
        r == unsigned_field(*meta, key@),
{
    match meta.get(key) {
        Some(v) => v.as_u64(),
        None => None,
    }
}

/// The member `key` of `meta` as text.
pub fn get_text(meta: &Json, key: &str) -> (r: Option<String>)
    ensures
        opt_text(r) == text_field(*meta, key@),
{
    match meta.get(key) {
        Some(v) => match v.as_str() {
            Some(s) => Some(String::from_str(s)),
            None => None,
        },
        None => None,
    }
}

/// The reported value where there is one, else `fallback`.
fn choose_reported(value: Option<Scalar>, fallback: Measure) -> (r: Measure)
    ensures
        r == reported_or(value, fallback),
{
    match value {
        Some(v) => Measure::Reported(v),
        None => fallback,
    }
}

/// `Derived` where `available`, else `Unknown`.
fn choose_derived(available: bool) -> (r: Measure)
    ensures
        r == derived_if(available),
{
    if available {
        Measure::Derived
    } else {
        Measure::Unknown
    }
}

/// Duration in seconds: the reported elapsed time, else the last time
/// sample, else 0.
pub fn duration(meta: &Json, time: &Vec<i64>) -> (r: i64)
    ensures
        r == duration_of(*meta, time@),
{
    match get_int(meta, "elapsed_time") {
        Some(d) => d,
        None => if time.len() > 0 {
            time[time.len() - 1]
        } else {
            0
        },
    }
}

/// The number of personal records among segment efforts.
fn count_records(efforts: &Vec<Json>) -> (r: usize)
    ensures
        r == records_among(efforts@, efforts@.len() as int),
{
    let mut count: usize = 0;
    let mut i: usize = 0;
    while i < efforts.len()
        invariant
            i <= efforts@.len(),
            count <= i,
            count == records_among(efforts@, i as int),
        decreases efforts@.len() - i,
    {
        let rank = get_int(&efforts[i], "pr_rank");
        let hit = match rank {
            Some(n) => n == 1,
            None => false,
        };
        if hit {
            count = count + 1;
        }
        i = i + 1;
    }
    count
}

/// Personal records: the efforts of rank 1 where efforts are listed, else the
/// reported count. A count beyond the largest `i64` is given as that.
pub fn pr_count(meta: &Json) -> (r: Option<i64>)
    ensures
        match pr_count_of(*meta) {
            Some(n) => r == Some(
                if n <= i64::MAX {
                    n as i64
                } else {
                    i64::MAX
                },
            ),
            None => r is None,
        },
{
    let listed = match meta.get("segment_efforts") {
        Some(v) => v.as_array(),
        None => None,
    };
    match listed {
        Some(efforts) => {
            let count: u64 = count_records(efforts) as u64;
            if count <= 0x7FFF_FFFF_FFFF_FFFF {
                Some(count as i64)
            } else {
                Some(i64::MAX)
            }
        },
        None => get_int(meta, "pr_count"),
    }
}

/// Builds the outline of an activity's summary from its metadata and
/// canonical streams. `stored_id` is the id under which the activity is kept;
/// it is used where the metadata carries none.
pub fn outline(meta: &Json, streams: &ParsedStreams, stored_id: u64) -> (r: SummaryOutline)
    ensures
        r.is_outline_of(*meta, *streams, stored_id),
{
    let id = match get_unsigned(meta, "id") {
        Some(id) => id,
        None => stored_id,
    };
    let name = match get_text(meta, "name") {
        Some(s) => s,
        None => String::new(),
    };
    let start_date = match get_text(meta, "start_date") {
        Some(s) => s,
        None => String::new(),
    };
    let distance = match get_real(meta, "distance") {
        Some(d) => d,
        None => Scalar::zero(),
    };
    let seconds = duration(meta, &streams.time);
    let has_power = streams.power.len() > 0;
    let weighted_average_power = choose_reported(
        get_real(meta, "weighted_average_watts"),
        choose_reported(get_real(meta, "average_watts"), choose_derived(has_power)),
    );
    let average_speed = choose_reported(
        get_real(meta, "average_speed"),
        choose_derived(seconds > 0),
    );
    let average_heartrate = if streams.heartrate.len() > 0 {
        Measure::Derived
    } else {
        choose_reported(get_real(meta, "average_heartrate"), Measure::Unknown)
    };
    let normalized_power = choose_reported(
        get_real(meta, "normalized_power"),
        choose_derived(has_power),
    );
    let np_known = match normalized_power {
        Measure::Unknown => false,
        _ => true,
    };
    let intensity_factor = choose_reported(
        get_real(meta, "intensity_factor"),
        choose_derived(np_known),
    );
    let training_stress_score = choose_reported(
        get_real(meta, "training_stress_score"),
        choose_derived(np_known),
    );
    let summary_polyline = match meta.get("map") {
        Some(m) => get_text(m, "summary_polyline"),
        None => None,
    };
    SummaryOutline {
        id,
        name,
        start_date,
        distance,
        total_elevation_gain: get_real(meta, "total_elevation_gain"),
        duration: seconds,
        weighted_average_power,
        average_speed,
        max_speed: get_real(meta, "max_speed"),
        pr_count: pr_count(meta),
        average_heartrate,
        summary_polyline,
        normalized_power,
        intensity_factor,
        training_stress_score,
        activity_type: get_text(meta, "type"),
        power_windows: rolling_windows(streams.power.as_slice()),
        heartrate_total: series_total(streams.heartrate.as_slice()),
        heartrate_count: streams.heartrate.len(),
    }
}

} // verus!
