use abcy_data::calendar::CalendarDate;
use abcy_data::scalar::Scalar;
use abcy_data::schema::ActivitySummary;
use abcy_data::schema::start_dates;
use abcy_data::stats::{
    activity_stats, bucket_by_period, id_counts, is_selected, period_key, Period, StatsEntry,
    StatsError,
};
use chrono::{Datelike, NaiveDate};

fn scalar(x: f64) -> Scalar {
    Scalar::from_bits(x.to_bits())
}

fn values(terms: &[Scalar]) -> Vec<f64> {
    terms.iter().map(|t| f64::from_bits(t.to_bits())).collect()
}

fn sum(terms: &[Scalar]) -> f64 {
    values(terms).iter().sum()
}

fn mean(terms: &[Scalar]) -> Option<f64> {
    if terms.is_empty() {
        None
    } else {
        Some(sum(terms) / terms.len() as f64)
    }
}

fn activity(id: u64, start_date: &str, distance: f64, kind: Option<&str>) -> ActivitySummary {
    ActivitySummary {
        id,
        name: format!("r{}", id),
        start_date: start_date.to_string(),
        distance: scalar(distance),
        total_elevation_gain: None,
        duration: 10,
        weighted_average_power: None,
        average_speed: None,
        max_speed: None,
        pr_count: None,
        average_heartrate: None,
        summary_polyline: None,
        normalized_power: None,
        intensity_factor: None,
        training_stress_score: None,
        activity_type: kind.map(|k| k.to_string()),
    }
}

fn date(year: i32, month: u32, day: u32) -> CalendarDate {
    let d = NaiveDate::from_ymd_opt(year, month, day).unwrap();
    CalendarDate {
        year,
        month,
        day,
        iso_year: d.iso_week().year(),
        iso_week: d.iso_week().week(),
        day_number: d.num_days_from_ce(),
    }
}

fn periods(stats: &[StatsEntry]) -> Vec<String> {
    stats.iter().map(|s| s.period.clone()).collect()
}

#[test]
fn stats_aggregation() {
    let acts = vec![
        activity(1, "2024-01-01T00:00:00Z", 10.0, Some("Ride")),
        activity(2, "2024-01-02T00:00:00Z", 5.0, Some("Run")),
    ];
    let stats = activity_stats(Period::Day, None, None, &acts).unwrap();
    assert_eq!(stats.len(), 2);
    assert!(stats.iter().any(|s| sum(&s.distance) > 9.0));

    let filtered = activity_stats(Period::Day, Some(&[1]), None, &acts).unwrap();
    assert_eq!(filtered.len(), 1);
    assert_eq!(filtered[0].rides, 1);

    let type_filtered =
        activity_stats(Period::Day, None, Some(&["Ride".to_string()]), &acts).unwrap();
    assert_eq!(type_filtered.len(), 1);
    assert_eq!(type_filtered[0].rides, 1);

    assert_eq!(periods(&stats), vec!["2024-01-01", "2024-01-02"]);
    assert_eq!(periods(&filtered), vec!["2024-01-01"]);
    assert_eq!(values(&type_filtered[0].distance), vec![10.0]);
}

#[test]
fn period_keys() {
    let d = date(2024, 3, 7);
    assert_eq!(period_key(&d, Period::Day), "2024-03-07");
    assert_eq!(period_key(&d, Period::Week), "2024-W10");
    assert_eq!(period_key(&d, Period::Month), "2024-03");
    assert_eq!(period_key(&d, Period::Year), "2024");
}

#[test]
fn period_keys_follow_the_iso_week_year() {
    let d = date(2021, 1, 3);
    assert_eq!(period_key(&d, Period::Week), "2020-W53");
    assert_eq!(period_key(&d, Period::Month), "2021-01");
    let e = date(2024, 12, 30);
    assert_eq!(period_key(&e, Period::Week), "2025-W01");
    assert_eq!(period_key(&e, Period::Year), "2024");
}

#[test]
fn period_keys_agree_with_formatting() {
    for (y, m, d) in [(2024, 1, 1), (1999, 12, 31), (2020, 2, 29), (-5, 6, 7), (12345, 10, 9), (7, 1, 1)] {
        let n = NaiveDate::from_ymd_opt(y, m, d).unwrap();
        let c = date(y, m, d);
        assert_eq!(period_key(&c, Period::Day), n.to_string());
        assert_eq!(
            period_key(&c, Period::Week),
            format!("{}-W{:02}", n.iso_week().year(), n.iso_week().week())
        );
        assert_eq!(period_key(&c, Period::Month), format!("{}-{:02}", n.year(), n.month()));
        assert_eq!(period_key(&c, Period::Year), format!("{}", n.year()));
    }
}

#[test]
fn buckets_are_ordered_by_key_and_hold_terms_in_input_order() {
    let mut a = activity(1, "2024-02-10T08:00:00Z", 100.0, Some("Ride"));
    a.weighted_average_power = Some(scalar(200.0));
    a.intensity_factor = Some(scalar(0.8));
    a.training_stress_score = Some(scalar(50.0));
    a.average_speed = Some(scalar(30.0));
    let mut b = activity(2, "2024-01-05T08:00:00Z", 40.0, Some("Run"));
    b.training_stress_score = Some(scalar(20.0));
    let mut c = activity(3, "2024-02-20T08:00:00Z", 60.0, None);
    c.weighted_average_power = Some(scalar(100.0));
    c.average_speed = Some(scalar(20.0));
    let d = activity(4, "2023-12-31T23:59:59Z", 1.0, Some("Ride"));
    let acts = vec![a, b, c, d];

    let stats = activity_stats(Period::Month, None, None, &acts).unwrap();
    assert_eq!(periods(&stats), vec!["2023-12", "2024-01", "2024-02"]);
    assert_eq!(stats.iter().map(|s| s.rides).collect::<Vec<_>>(), vec![1, 1, 2]);
    assert_eq!(stats.iter().map(|s| s.rides).sum::<usize>(), acts.len());
    let feb = &stats[2];
    assert_eq!(values(&feb.distance), vec![100.0, 60.0]);
    assert_eq!(sum(&feb.distance), 160.0);
    assert_eq!(mean(&feb.weighted_power), Some(150.0));
    assert_eq!(mean(&feb.intensity_factor), Some(0.8));
    assert_eq!(values(&feb.training_stress), vec![50.0]);
    assert_eq!(mean(&feb.average_speed), Some(25.0));
    let jan = &stats[1];
    assert_eq!(mean(&jan.weighted_power), None);
    assert_eq!(mean(&jan.intensity_factor), None);
    assert_eq!(mean(&jan.average_speed), None);
    assert_eq!(sum(&jan.training_stress), 20.0);
    let dec = &stats[0];
    assert_eq!(sum(&dec.training_stress), 0.0);

    let years = activity_stats(Period::Year, None, None, &acts).unwrap();
    assert_eq!(periods(&years), vec!["2023", "2024"]);
    assert_eq!(years[1].rides, 3);
    assert_eq!(values(&years[1].distance), vec![100.0, 40.0, 60.0]);

    let weeks = activity_stats(Period::Week, None, None, &acts).unwrap();
    assert_eq!(periods(&weeks), vec!["2023-W52", "2024-W01", "2024-W06", "2024-W08"]);
}

#[test]
fn filters_combine() {
    let acts = vec![
        activity(1, "2024-01-01T00:00:00Z", 10.0, Some("Ride")),
        activity(2, "2024-01-01T10:00:00Z", 5.0, Some("Run")),
        activity(3, "2024-01-01T12:00:00Z", 7.0, None),
        activity(4, "2024-01-03T12:00:00Z", 8.0, Some("Ride")),
    ];
    let types = vec!["Ride".to_string(), "Hike".to_string()];
    let by_type = activity_stats(Period::Day, None, Some(&types), &acts).unwrap();
    assert_eq!(periods(&by_type), vec!["2024-01-01", "2024-01-03"]);
    assert_eq!(by_type[0].rides, 1);
    let both = activity_stats(Period::Day, Some(&[2, 3, 4]), Some(&types), &acts).unwrap();
    assert_eq!(periods(&both), vec!["2024-01-03"]);
    let nothing = activity_stats(Period::Day, Some(&[]), None, &acts).unwrap();
    assert!(nothing.is_empty());
    let no_types = activity_stats(Period::Day, None, Some(&[]), &acts).unwrap();
    assert!(no_types.is_empty());
    assert!(is_selected(&acts[0], Some(&[1]), Some(&types)));
    assert!(!is_selected(&acts[1], Some(&[1, 2]), Some(&types)));
    assert!(!is_selected(&acts[2], None, Some(&types)));
    assert!(is_selected(&acts[2], None, None));
}

#[test]
fn no_activities_give_no_buckets() {
    assert!(activity_stats(Period::Week, None, None, &[]).unwrap().is_empty());
}

#[test]
fn a_counted_activity_without_a_date_fails() {
    let acts = vec![
        activity(1, "2024-01-01T00:00:00Z", 10.0, Some("Ride")),
        activity(2, "2024-01-02", 5.0, Some("Run")),
        activity(3, "", 5.0, Some("Run")),
    ];
    let r = activity_stats(Period::Day, None, None, &acts);
    assert!(matches!(r, Err(StatsError::InvalidStartDate { index: 1, id: 2 })));
    // an activity that does not count is not read
    let rides = activity_stats(Period::Day, None, Some(&["Ride".to_string()]), &acts).unwrap();
    assert_eq!(rides.len(), 1);
    let third = activity_stats(Period::Day, Some(&[1, 3]), None, &acts);
    assert!(matches!(third, Err(StatsError::InvalidStartDate { index: 2, id: 3 })));
}

#[test]
fn dates_are_taken_in_utc() {
    let acts = vec![
        activity(1, "2024-01-01T23:30:00-02:00", 10.0, None),
        activity(2, "2024-01-02T00:30:00Z", 5.0, None),
    ];
    let stats = activity_stats(Period::Day, None, None, &acts).unwrap();
    assert_eq!(periods(&stats), vec!["2024-01-02"]);
    assert_eq!(stats[0].rides, 2);
}

#[test]
fn buckets_follow_the_dates_given() {
    let acts = vec![
        activity(1, "", 10.0, Some("Ride")),
        activity(2, "", 5.0, Some("Run")),
        activity(3, "", 2.5, None),
    ];
    let dates = vec![Some(date(2024, 5, 1)), Some(date(2023, 5, 1)), Some(date(2024, 5, 31))];
    let stats = bucket_by_period(Period::Month, None, None, &acts, &dates).unwrap();
    assert_eq!(periods(&stats), vec!["2023-05", "2024-05"]);
    assert_eq!(values(&stats[1].distance), vec![10.0, 2.5]);
    assert_eq!(stats[1].rides, 2);
    // an activity beyond the dates given has none
    let short = bucket_by_period(Period::Month, None, None, &acts, &dates[..2]);
    assert!(matches!(short, Err(StatsError::InvalidStartDate { index: 2, id: 3 })));
    let missing = vec![Some(date(2024, 5, 1)), None, Some(date(2024, 5, 31))];
    let second = bucket_by_period(Period::Month, None, None, &acts, &missing);
    assert!(matches!(second, Err(StatsError::InvalidStartDate { index: 1, id: 2 })));
    let rides = bucket_by_period(Period::Month, Some(&[1, 3]), None, &acts, &missing).unwrap();
    assert_eq!(rides.len(), 1);
    assert_eq!(rides[0].rides, 2);
}

#[test]
fn start_dates_are_read_per_activity() {
    let acts = vec![
        activity(1, "2024-01-01T00:00:00Z", 10.0, None),
        activity(2, "2024-01-02", 5.0, None),
    ];
    let dates = start_dates(&acts);
    assert_eq!(dates, vec![Some(date(2024, 1, 1)), None]);
    assert!(start_dates(&[]).is_empty());
}

#[test]
fn id_filter() {
    assert!(id_counts(None, 7));
    assert!(id_counts(Some(&[1, 7]), 7));
    assert!(!id_counts(Some(&[1, 2]), 7));
    assert!(!id_counts(Some(&[]), 7));
}
