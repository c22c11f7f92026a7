use abcy_data::json::{Json, Member, Number};
use abcy_data::power::PowerWindows;
use abcy_data::scalar::Scalar;
use abcy_data::schema::{parse_streams, ActivitySummary, ParsedStreams};
use abcy_data::summary::{
    duration, get_int, get_real, get_text, get_unsigned, outline, pr_count, Measure,
    SummaryOutline, KMH_PER_MPS_BITS, SECONDS_PER_HOUR, STRESS_PER_HOUR_AT_THRESHOLD,
};

fn whole(n: i64) -> Json {
    Json::Number(Number {
        signed: Some(n),
        unsigned: if n >= 0 { Some(n as u64) } else { None },
        real: Scalar { bits: (n as f64).to_bits() },
    })
}

fn fraction(x: f64) -> Json {
    Json::Number(Number { signed: None, unsigned: None, real: Scalar { bits: x.to_bits() } })
}

fn text(s: &str) -> Json {
    Json::Text(s.to_string())
}

fn ints(values: &[i64]) -> Json {
    Json::Array(values.iter().map(|n| whole(*n)).collect())
}

fn object(members: Vec<(&str, Json)>) -> Json {
    Json::Object(
        members.into_iter().map(|(key, value)| Member { key: key.to_string(), value }).collect(),
    )
}

fn data(values: &[i64]) -> Json {
    object(vec![("data", ints(values))])
}

fn value(x: Scalar) -> f64 {
    f64::from_bits(x.to_bits())
}

fn scalar(x: f64) -> Scalar {
    Scalar::from_bits(x.to_bits())
}

fn normalized(windows: &PowerWindows) -> f64 {
    if windows.sums.is_empty() {
        return 0.0;
    }
    let mut fourth_sum = 0.0;
    for sum in &windows.sums {
        fourth_sum += (*sum as f64 / windows.window as f64).powi(4);
    }
    (fourth_sum / windows.sums.len() as f64).powf(0.25)
}

fn resolve(m: Measure, derived: impl FnOnce() -> f64) -> Option<f64> {
    match m {
        Measure::Reported(v) => Some(value(v)),
        Measure::Derived => Some(derived()),
        Measure::Unknown => None,
    }
}

/// Computes the real-valued fields of an outline with the FTP given.
fn evaluate(o: &SummaryOutline, ftp: f64) -> ActivitySummary {
    let distance = value(o.distance);
    let duration = o.duration as f64;
    let weighted = resolve(o.weighted_average_power, || normalized(&o.power_windows));
    let speed = resolve(o.average_speed, || distance / duration)
        .map(|mps| mps * f64::from_bits(KMH_PER_MPS_BITS));
    let heartrate =
        resolve(o.average_heartrate, || o.heartrate_total as f64 / o.heartrate_count as f64);
    let np = resolve(o.normalized_power, || normalized(&o.power_windows));
    let intensity = resolve(o.intensity_factor, || np.unwrap() / ftp);
    let stress = resolve(o.training_stress_score, || {
        (duration * np.unwrap() * (np.unwrap() / ftp)) / (ftp * SECONDS_PER_HOUR as f64)
            * STRESS_PER_HOUR_AT_THRESHOLD as f64
    });
    ActivitySummary {
        id: o.id,
        name: o.name.clone(),
        start_date: o.start_date.clone(),
        distance: o.distance,
        total_elevation_gain: o.total_elevation_gain,
        duration: o.duration,
        weighted_average_power: weighted.map(scalar),
        average_speed: speed.map(scalar),
        max_speed: o.max_speed,
        pr_count: o.pr_count,
        average_heartrate: heartrate.map(scalar),
        summary_polyline: o.summary_polyline.clone(),
        normalized_power: np.map(scalar),
        intensity_factor: intensity.map(scalar),
        training_stress_score: stress.map(scalar),
        activity_type: o.activity_type.clone(),
    }
}

fn reported(m: Measure) -> Option<f64> {
    match m {
        Measure::Reported(v) => Some(value(v)),
        _ => None,
    }
}

#[test]
fn summary_computation() {
    let meta = object(vec![
        ("id", whole(1)),
        ("name", text("ride")),
        ("start_date", text("2024-01-01")),
        ("distance", fraction(1.0)),
        ("total_elevation_gain", fraction(10.0)),
        ("elapsed_time", whole(30)),
        ("average_speed", fraction(0.033)),
        ("pr_count", whole(2)),
        ("average_heartrate", fraction(95.0)),
        ("map", object(vec![("summary_polyline", text("xyz"))])),
    ]);
    let raw = object(vec![
        ("time", data(&[0, 10, 20, 30])),
        ("watts", data(&[100, 150, 200])),
        ("heartrate", data(&[90, 100, 95, 95])),
    ]);
    let streams = parse_streams(&raw).unwrap();
    let summary = evaluate(&outline(&meta, &streams, 1), 240.0);
    assert_eq!(summary.id, 1);
    assert_eq!(summary.duration, 30);
    assert!(value(summary.weighted_average_power.unwrap()) > 0.0);
    assert!(value(summary.average_speed.unwrap()) > 0.0);
    assert_eq!(summary.pr_count, Some(2));
    assert!(value(summary.average_heartrate.unwrap()) > 0.0);
    assert_eq!(summary.summary_polyline, Some("xyz".into()));
    assert_eq!(summary.total_elevation_gain.map(value), Some(10.0));
    // exact values behind the loose assertions above
    assert!((value(summary.weighted_average_power.unwrap()) - 150.0).abs() < 1e-9);
    assert_eq!(value(summary.average_speed.unwrap()), 0.033 * 3.6);
    assert_eq!(value(summary.average_heartrate.unwrap()), 95.0);
    assert_eq!(summary.name, "ride");
    assert_eq!(summary.start_date, "2024-01-01");
    assert_eq!(value(summary.distance), 1.0);
    assert_eq!(summary.activity_type, None);
    assert_eq!(summary.max_speed.map(value), None);
    let np = value(summary.normalized_power.unwrap());
    assert_eq!(value(summary.intensity_factor.unwrap()), np / 240.0);
    assert_eq!(
        value(summary.training_stress_score.unwrap()),
        (30.0 * np * (np / 240.0)) / (240.0 * 3600.0) * 100.0
    );
}

#[test]
fn bare_metadata_gives_defaults_and_unknowns() {
    let o = outline(&object(vec![]), &ParsedStreams::empty(), 77);
    assert_eq!(o.id, 77);
    assert_eq!(o.name, "");
    assert_eq!(o.start_date, "");
    assert_eq!(o.distance.to_bits(), 0.0f64.to_bits());
    assert_eq!(o.duration, 0);
    assert!(matches!(o.weighted_average_power, Measure::Unknown));
    assert!(matches!(o.average_speed, Measure::Unknown));
    assert!(matches!(o.average_heartrate, Measure::Unknown));
    assert!(matches!(o.normalized_power, Measure::Unknown));
    assert!(matches!(o.intensity_factor, Measure::Unknown));
    assert!(matches!(o.training_stress_score, Measure::Unknown));
    assert_eq!(o.pr_count, None);
    assert_eq!(o.summary_polyline, None);
    assert_eq!(o.activity_type, None);
    assert!(o.total_elevation_gain.is_none());
    assert!(o.max_speed.is_none());
    assert!(o.power_windows.sums.is_empty());
    assert_eq!((o.heartrate_total, o.heartrate_count), (0, 0));
    // metadata that is no object reads like empty metadata
    let p = outline(&Json::Null, &ParsedStreams::empty(), 5);
    assert_eq!(p.id, 5);
    assert_eq!(p.duration, 0);
}

#[test]
fn duration_chain() {
    let time = vec![0, 10, 20, 35];
    assert_eq!(duration(&object(vec![("elapsed_time", whole(30))]), &time), 30);
    assert_eq!(duration(&object(vec![]), &time), 35);
    assert_eq!(duration(&object(vec![("elapsed_time", fraction(30.5))]), &time), 35);
    assert_eq!(duration(&object(vec![("elapsed_time", text("30"))]), &vec![]), 0);
    assert_eq!(duration(&object(vec![]), &vec![]), 0);
    assert_eq!(duration(&object(vec![("elapsed_time", whole(-4))]), &time), -4);
}

#[test]
fn weighted_power_chain() {
    let with_power = ParsedStreams { time: vec![0, 1], power: vec![100, 200], heartrate: vec![] };
    let without = ParsedStreams { time: vec![0, 1], power: vec![], heartrate: vec![] };
    let both = object(vec![
        ("average_watts", fraction(180.0)),
        ("weighted_average_watts", whole(190)),
    ]);
    assert_eq!(reported(outline(&both, &with_power, 1).weighted_average_power), Some(190.0));
    let average = object(vec![("average_watts", fraction(180.0))]);
    assert_eq!(reported(outline(&average, &with_power, 1).weighted_average_power), Some(180.0));
    let none = object(vec![("weighted_average_watts", text("190"))]);
    assert!(matches!(outline(&none, &with_power, 1).weighted_average_power, Measure::Derived));
    assert!(matches!(outline(&none, &without, 1).weighted_average_power, Measure::Unknown));
}

#[test]
fn empty_power_is_unknown_in_the_summary_but_zero_in_the_windows() {
    let without = ParsedStreams { time: vec![0, 60], power: vec![], heartrate: vec![] };
    let o = outline(&object(vec![]), &without, 1);
    assert!(matches!(o.normalized_power, Measure::Unknown));
    assert!(matches!(o.weighted_average_power, Measure::Unknown));
    assert_eq!(normalized(&o.power_windows), 0.0);
    let summary = evaluate(&o, 240.0);
    assert!(summary.normalized_power.is_none());
    assert!(summary.intensity_factor.is_none());
    assert!(summary.training_stress_score.is_none());
}

#[test]
fn speed_chain() {
    let streams = ParsedStreams { time: vec![0, 100], power: vec![], heartrate: vec![] };
    let reported_speed = object(vec![("distance", fraction(1000.0)), ("average_speed", whole(5))]);
    let s = evaluate(&outline(&reported_speed, &streams, 1), 240.0);
    assert_eq!(value(s.average_speed.unwrap()), 5.0 * 3.6);
    let derived = object(vec![("distance", fraction(1000.0))]);
    let o = outline(&derived, &streams, 1);
    assert!(matches!(o.average_speed, Measure::Derived));
    assert_eq!(value(evaluate(&o, 240.0).average_speed.unwrap()), 1000.0 / 100.0 * 3.6);
    let still = ParsedStreams { time: vec![0], power: vec![], heartrate: vec![] };
    assert!(matches!(outline(&derived, &still, 1).average_speed, Measure::Unknown));
    let negative = object(vec![("distance", fraction(1000.0)), ("elapsed_time", whole(-5))]);
    assert!(matches!(outline(&negative, &streams, 1).average_speed, Measure::Unknown));
}

#[test]
fn heartrate_prefers_the_stream() {
    let meta = object(vec![("average_heartrate", fraction(120.0))]);
    let with = ParsedStreams { time: vec![0], power: vec![], heartrate: vec![90, 100, 95, 96] };
    let o = outline(&meta, &with, 1);
    assert!(matches!(o.average_heartrate, Measure::Derived));
    assert_eq!((o.heartrate_total, o.heartrate_count), (381, 4));
    assert_eq!(value(evaluate(&o, 240.0).average_heartrate.unwrap()), 381.0 / 4.0);
    let without = ParsedStreams { time: vec![0], power: vec![], heartrate: vec![] };
    assert_eq!(reported(outline(&meta, &without, 1).average_heartrate), Some(120.0));
    assert!(matches!(outline(&object(vec![]), &without, 1).average_heartrate, Measure::Unknown));
}

#[test]
fn records_are_counted_from_efforts() {
    let effort = |rank: Json| object(vec![("pr_rank", rank)]);
    let meta = object(vec![
        ("pr_count", whole(9)),
        (
            "segment_efforts",
            Json::Array(vec![
                effort(whole(1)),
                effort(whole(2)),
                effort(Json::Null),
                effort(whole(1)),
                object(vec![]),
                effort(fraction(1.0)),
                whole(1),
            ]),
        ),
    ]);
    assert_eq!(pr_count(&meta), Some(2));
    let empty = object(vec![("pr_count", whole(9)), ("segment_efforts", Json::Array(vec![]))]);
    assert_eq!(pr_count(&empty), Some(0));
    let no_list = object(vec![("pr_count", whole(9)), ("segment_efforts", Json::Null)]);
    assert_eq!(pr_count(&no_list), Some(9));
    assert_eq!(pr_count(&object(vec![("pr_count", whole(-3))])), Some(-3));
    assert_eq!(pr_count(&object(vec![])), None);
}

#[test]
fn reported_analytics_win_over_derived() {
    let streams = ParsedStreams { time: vec![0, 3600], power: vec![200; 40], heartrate: vec![] };
    let meta = object(vec![
        ("normalized_power", fraction(170.09)),
        ("intensity_factor", fraction(0.7087)),
        ("training_stress_score", fraction(443.18)),
    ]);
    let s = evaluate(&outline(&meta, &streams, 1), 250.0);
    assert_eq!(value(s.normalized_power.unwrap()), 170.09);
    assert_eq!(value(s.intensity_factor.unwrap()), 0.7087);
    assert_eq!(value(s.training_stress_score.unwrap()), 443.18);
}

#[test]
fn derived_analytics_use_the_ftp_given() {
    let streams = ParsedStreams { time: vec![0, 3600], power: vec![200; 40], heartrate: vec![] };
    let o = outline(&object(vec![]), &streams, 1);
    assert!(matches!(o.normalized_power, Measure::Derived));
    assert!(matches!(o.intensity_factor, Measure::Derived));
    assert!(matches!(o.training_stress_score, Measure::Derived));
    let at_200 = evaluate(&o, 200.0);
    assert!((value(at_200.intensity_factor.unwrap()) - 1.0).abs() < 1e-12);
    assert!((value(at_200.training_stress_score.unwrap()) - 100.0).abs() < 1e-9);
    // a later FTP changes what is derived at load time
    let at_250 = evaluate(&o, 250.0);
    assert!((value(at_250.intensity_factor.unwrap()) - 0.8).abs() < 1e-12);
    assert!((value(at_250.training_stress_score.unwrap()) - 64.0).abs() < 1e-9);
    // a reported normalized power is what intensity is derived from
    let reported_np = object(vec![("normalized_power", fraction(100.0))]);
    let r = evaluate(&outline(&reported_np, &streams, 1), 200.0);
    assert_eq!(value(r.intensity_factor.unwrap()), 0.5);
}

#[test]
fn zero_ftp_gives_non_finite_analytics() {
    let streams = ParsedStreams { time: vec![0, 3600], power: vec![200; 40], heartrate: vec![] };
    let s = evaluate(&outline(&object(vec![]), &streams, 1), 0.0);
    assert!(!value(s.intensity_factor.unwrap()).is_finite());
    assert!(!value(s.training_stress_score.unwrap()).is_finite());
}

#[test]
fn field_readers() {
    let meta = object(vec![
        ("id", whole(42)),
        ("type", text("Ride")),
        ("distance", whole(1200)),
        ("offset", whole(-3)),
    ]);
    assert_eq!(get_unsigned(&meta, "id"), Some(42));
    assert_eq!(get_unsigned(&meta, "offset"), None);
    assert_eq!(get_int(&meta, "offset"), Some(-3));
    assert_eq!(get_int(&meta, "type"), None);
    assert_eq!(get_text(&meta, "type"), Some("Ride".to_string()));
    assert_eq!(get_text(&meta, "id"), None);
    assert_eq!(get_real(&meta, "distance").map(value), Some(1200.0));
    assert!(get_real(&meta, "type").is_none());
    assert!(get_real(&meta, "absent").is_none());
    let o = outline(&meta, &ParsedStreams::empty(), 1);
    assert_eq!(o.id, 42);
    assert_eq!(o.activity_type, Some("Ride".to_string()));
    assert_eq!(value(o.distance), 1200.0);
}
