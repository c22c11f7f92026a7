//! Short-term trends: the most recent activities against those before them.
//!
//! For each metric the mean over the most recent activities is compared with
//! the mean over the same number of activities before them. The relative
//! change `(recent - prior) / prior` falls in one of five bands, set by two
//! thresholds that lie symmetrically around no change.

use vstd::prelude::*;
use vstd::string::*;
use crate::scalar::Scalar;
use crate::schema::{ActivitySummary, TrendSummary};

verus! {

/// The number of activities in each of the two windows.
pub const TREND_WINDOW: usize = 10;

/// Bit pattern of 0.03: a relative change beyond 3 % either way is a trend.
pub const SLIGHT_CHANGE_BITS: u64 = 0x3F9E_B851_EB85_1EB8;

/// Bit pattern of 0.2: a relative change beyond 20 % either way is a strong
/// trend.
pub const STRONG_CHANGE_BITS: u64 = 0x3FC9_9999_9999_999A;

/// How trends are told: the size of the windows and the two thresholds of
/// relative change.
#[derive(Debug, Clone, Copy)]
pub struct TrendConfig {
    pub window: usize,
    pub slight: Scalar,
    pub strong: Scalar,
}

/// The band that a relative change falls in.
#[derive(Debug, Clone, Copy, PartialEq, Eq)]
pub enum Trend {
    VeryLow,
    Low,
    Same,
    High,
    VeryHigh,
}

/// A metric whose trend is told.
#[derive(Debug, Clone, Copy)]
pub enum Metric {
    AverageSpeed,
    MaxSpeed,
    Stress,
    Intensity,
    Power,
}

/// The value of a metric in an activity.
pub open spec fn metric_of(a: ActivitySummary, m: Metric) -> Option<Scalar> {
    match m {
        Metric::AverageSpeed => a.average_speed,
        Metric::MaxSpeed => a.max_speed,
        Metric::Stress => a.training_stress_score,
        Metric::Intensity => a.intensity_factor,
        Metric::Power => a.weighted_average_power,
    }
}

/// The values that the activities at positions `from` up to, not including,
/// `to` have of a metric, in order.
pub open spec fn known_values(acts: Seq<ActivitySummary>, m: Metric, from: int, to: int) -> Seq<
    Scalar,
>
    decreases to - from,
{
    if to <= from {
        Seq::empty()
    } else {
        match metric_of(acts[to - 1], m) {
            Some(v) => known_values(acts, m, from, to - 1).push(v),
            None => known_values(acts, m, from, to - 1),
        }
    }
}

/// Where the window of the most recent activities ends.
pub open spec fn recent_end(len: nat, window: nat) -> int {
    if window < len {
        window as int
    } else {
        len as int
    }
}

/// Where the window before the most recent activities ends.
pub open spec fn prior_end(len: nat, window: nat) -> int {
    if 2 * window < len {
        2 * window as int
    } else {
        len as int
    }
}

/// The values of one metric in the two windows.
#[derive(Debug)]
pub struct MetricWindows {
    /// The values in the most recent activities.
    pub recent: Vec<Scalar>,
    /// The values in the activities before them.
    pub prior: Vec<Scalar>,
}

impl MetricWindows {
    /// Whether these are the windows of metric `m` over activities that are
    /// listed newest first.
    pub open spec fn is_windows_of(
        self,
        acts: Seq<ActivitySummary>,
        m: Metric,
        window: nat,
    ) -> bool {
        &&& self.recent@ == known_values(acts, m, 0, recent_end(acts.len(), window))
        &&& self.prior@ == known_values(
            acts,
            m,
            recent_end(acts.len(), window),
            prior_end(acts.len(), window),
        )
    }
}

/// The band of a relative change: beyond the strong threshold very high or
/// very low, beyond the slight threshold high or low, else the same. A
/// change that is a NaN is in no band but the same.
pub open spec fn band_of(change: Scalar, cfg: TrendConfig) -> Trend {
    if change.spec_gt(cfg.strong) {
        Trend::VeryHigh
    } else if change.spec_gt(cfg.slight) {
        Trend::High
    } else if change.spec_lt(cfg.strong.spec_negated()) {
        Trend::VeryLow
    } else if change.spec_lt(cfg.slight.spec_negated()) {
        Trend::Low
    } else {
        Trend::Same
    }
}

/// The band of a relative change that may be unknown: the same where it is.
pub open spec fn trend_of(change: Option<Scalar>, cfg: TrendConfig) -> Trend {
    match change {
        Some(c) => band_of(c, cfg),
        None => Trend::Same,
    }
}

impl TrendConfig {
    /// Windows of 10 activities, a slight change at 3 %, a strong one at
    /// 20 %.
    pub fn standard() -> (r: TrendConfig)
        ensures
            r.window == TREND_WINDOW,
            r.slight == (Scalar { bits: SLIGHT_CHANGE_BITS }),
            r.strong == (Scalar { bits: STRONG_CHANGE_BITS }),
    {
        TrendConfig {
            window: TREND_WINDOW,
            slight: Scalar { bits: SLIGHT_CHANGE_BITS },
            strong: Scalar { bits: STRONG_CHANGE_BITS },
        }
    }
}

impl Trend {
    /// The label of the band.
    pub open spec fn spec_label(self) -> Seq<char> {
        match self {
            Trend::VeryLow => "very_low"@,
            Trend::Low => "low"@,
            Trend::Same => "same"@,
            Trend::High => "high"@,
            Trend::VeryHigh => "very_high"@,
        }
    }

    /// The label of the band.
    pub fn label(&self) -> (r: String)
        ensures
            r@ == self.spec_label(),
    {
        match self {
            Trend::VeryLow => String::from_str("very_low"),
            Trend::Low => String::from_str("low"),
            Trend::Same => String::from_str("same"),
            Trend::High => String::from_str("high"),
            Trend::VeryHigh => String::from_str("very_high"),
        }
    }
}

/// The band of a relative change.
pub fn classify(change: Scalar, cfg: &TrendConfig) -> (r: Trend)
    ensures
        r == band_of(change, *cfg),
{
    if change.gt(cfg.strong) {
        Trend::VeryHigh
    } else if change.gt(cfg.slight) {
        Trend::High
    } else if change.lt(cfg.strong.negated()) {
        Trend::VeryLow
    } else if change.lt(cfg.slight.negated()) {
        Trend::Low
    } else {
        Trend::Same
    }
}

/// The band of a relative change that is unknown where a window has no
/// value of the metric.
pub fn classify_known(change: Option<Scalar>, cfg: &TrendConfig) -> (r: Trend)
    ensures
        r == trend_of(change, *cfg),
{
    match change {
        Some(c) => classify(c, cfg),
        None => Trend::Same,
    }
}

/// The value of a metric in an activity.
pub fn metric_value(a: &ActivitySummary, m: Metric) -> (r: Option<Scalar>)
    ensures
        r == metric_of(*a, m),
{
    match m {
        Metric::AverageSpeed => a.average_speed,
        Metric::MaxSpeed => a.max_speed,
        Metric::Stress => a.training_stress_score,
        Metric::Intensity => a.intensity_factor,
        Metric::Power => a.weighted_average_power,
    }
}

/// The values of a metric in the activities from `from` up to `to`.
fn values_between(activities: &[ActivitySummary], m: Metric, from: usize, to: usize) -> (r: Vec<
    Scalar,
>)
    requires
        from <= to <= activities@.len(),
    ensures
        r@ == known_values(activities@, m, from as int, to as int),
{
    let mut out: Vec<Scalar> = Vec::new();
    let mut i: usize = from;
    while i < to
        invariant
            from <= i <= to <= activities@.len(),
            out@ == known_values(activities@, m, from as int, i as int),
        decreases to - i,
    {
        match metric_value(&activities[i], m) {
            Some(v) => {
                out.push(v);
            },
            None => {},
        }
        i = i + 1;
    }
    out
}

/// The two windows of a metric over activities that are listed newest first:
/// the first `window` activities, and the `window` activities after them, as
/// far as there are any.
pub fn metric_windows(activities: &[ActivitySummary], m: Metric, window: usize) -> (r:
    MetricWindows)
    ensures
        r.is_windows_of(activities@, m, window as nat),
{
    let len = activities.len();
    let first: usize = if window < len {
        window
    } else {
        len
    };
    let second: usize = if len - first > window {
        first + window
    } else {
        len
    };
    MetricWindows {
        recent: values_between(activities, m, 0, first),
        prior: values_between(activities, m, first, second),
    }
}

/// The trend labels of the five metrics.
pub fn trend_summary(
    avg_speed: Trend,
    max_speed: Trend,
    tss: Trend,
    intensity: Trend,
    power: Trend,
) -> (r: TrendSummary)
    ensures
        r.avg_speed@ == avg_speed.spec_label(),
        r.max_speed@ == max_speed.spec_label(),
        r.tss@ == tss.spec_label(),
        r.intensity@ == intensity.spec_label(),
        r.power@ == power.spec_label(),
{
    TrendSummary {
        avg_speed: avg_speed.label(),
        max_speed: max_speed.label(),
        tss: tss.label(),
        intensity: intensity.label(),
        power: power.label(),
    }
}

/// The bands lie symmetrically around no change: the band of the opposite
/// change is the opposite band, for thresholds that are positive numbers with
/// the slight one below the strong one.
pub proof fn lemma_bands_symmetric(change: Scalar, cfg: TrendConfig)
    requires
        !cfg.slight.spec_is_nan(),
        !cfg.strong.spec_is_nan(),
        0 < cfg.slight.rank() <= cfg.strong.rank(),
    ensures
        band_of(change.spec_negated(), cfg) == match band_of(change, cfg) {
            Trend::VeryLow => Trend::VeryHigh,
            Trend::Low => Trend::High,
            Trend::Same => Trend::Same,
            Trend::High => Trend::Low,
            Trend::VeryHigh => Trend::VeryLow,
        },
{
}

/// A change between the thresholds is no trend; both zeros are no change.
pub proof fn lemma_no_change_is_same(cfg: TrendConfig)
    requires
        !cfg.slight.spec_is_nan(),
        !cfg.strong.spec_is_nan(),
        0 < cfg.slight.rank() <= cfg.strong.rank(),
    ensures
        band_of(Scalar::spec_zero(), cfg) == Trend::Same,
        band_of(Scalar::spec_zero().spec_negated(), cfg) == Trend::Same,
{
}

} // verus!
