use abcy_data::ledger::{
    current, current_score, recent, record, seed, Ledgers, Quotient, TimeSeriesEntry,
    DEFAULT_FTP_BITS, DEFAULT_WEIGHT_BITS,
};
use abcy_data::scalar::Scalar;

fn scalar(x: f64) -> Scalar {
    Scalar::from_bits(x.to_bits())
}

fn value(x: Scalar) -> f64 {
    f64::from_bits(x.to_bits())
}

fn ratio(q: Quotient) -> Scalar {
    scalar(value(q.dividend) / value(q.divisor))
}

fn fresh() -> Ledgers {
    Ledgers { ftp: Vec::new(), weight: Vec::new(), wkg: Vec::new() }
}

fn values(history: &[TimeSeriesEntry]) -> Vec<f64> {
    history.iter().map(|e| value(e.value)).collect()
}

#[test]
fn ftp_history_update() {
    let mut ledgers = fresh();
    // first call creates default entry
    assert!(ledgers.get_ftp_history("2024-03-10"));
    assert_eq!(ledgers.ftp.len(), 1);
    assert_eq!(value(ledgers.ftp[0].value), 240.0);
    assert_eq!(ledgers.ftp[0].date, "2024-03-10");

    // set new ftp
    let q = ledgers.set_ftp("2024-03-11", scalar(250.0));
    ledgers.record_wkg("2024-03-11", ratio(q));
    let current = ledgers.current_ftp("2024-03-11");
    assert_eq!(value(current), 250.0);

    assert!(!ledgers.get_ftp_history("2024-03-12"));
    assert_eq!(ledgers.ftp.len(), 2);
    assert_eq!(value(ledgers.ftp.last().unwrap().value), 250.0);

    let recent = ledgers.ftp_history("2024-03-12", Some(1));
    assert_eq!(recent.len(), 1);
    assert_eq!(value(recent[0].value), 250.0);
}

#[test]
fn weight_and_wkg_update() {
    let mut ledgers = fresh();
    // default weight entry
    assert!(ledgers.get_weight_history("2024-03-10"));
    assert_eq!(ledgers.weight.len(), 1);
    assert_eq!(value(ledgers.weight[0].value), 75.0);

    let q = ledgers.set_weight("2024-03-10", scalar(83.5));
    ledgers.record_wkg("2024-03-10", ratio(q));
    let current = ledgers.current_weight("2024-03-10");
    assert_eq!(value(current), 83.5);

    assert_eq!(ledgers.weight.len(), 2);
    assert_eq!(value(ledgers.weight.last().unwrap().value), 83.5);

    let wkg = ledgers.current_wkg();
    assert!((value(wkg) - 240.0 / 83.5).abs() < 1e-6);

    let wkg_hist = ledgers.wkg_history(Some(1));
    assert_eq!(wkg_hist.len(), 1);
    assert_eq!(value(wkg_hist[0].value), 240.0 / 83.5);
}

#[test]
fn seeding_happens_once() {
    let mut history: Vec<TimeSeriesEntry> = Vec::new();
    assert!(seed(&mut history, "2024-01-01", scalar(240.0)));
    assert_eq!(history.len(), 1);
    assert_eq!(history[0].date, "2024-01-01");
    assert!(!seed(&mut history, "2024-01-02", scalar(300.0)));
    assert_eq!(history.len(), 1);
    assert_eq!(history[0].date, "2024-01-01");
    assert_eq!(value(history[0].value), 240.0);
}

#[test]
fn defaults_are_240_watts_and_75_kilograms() {
    assert_eq!(f64::from_bits(DEFAULT_FTP_BITS), 240.0);
    assert_eq!(f64::from_bits(DEFAULT_WEIGHT_BITS), 75.0);
    let mut ledgers = fresh();
    let q = ledgers.power_to_weight("2024-03-10");
    assert_eq!((value(q.dividend), value(q.divisor)), (240.0, 75.0));
    assert_eq!(values(&ledgers.ftp), vec![240.0]);
    assert_eq!(values(&ledgers.weight), vec![75.0]);
    assert!(ledgers.wkg_is_empty());
    assert!(ledgers.get_wkg_history("2024-03-10", ratio(q)));
    assert_eq!(values(&ledgers.wkg), vec![3.2]);
    assert!(!ledgers.get_wkg_history("2024-03-11", scalar(9.0)));
    assert_eq!(values(&ledgers.wkg), vec![3.2]);
}

#[test]
fn setting_ftp_records_ftp_over_current_weight() {
    let mut ledgers = fresh();
    let w = ledgers.set_weight("2024-03-01", scalar(80.0));
    ledgers.record_wkg("2024-03-01", ratio(w));
    let q = ledgers.set_ftp("2024-03-02", scalar(300.0));
    assert_eq!((value(q.dividend), value(q.divisor)), (300.0, 80.0));
    ledgers.record_wkg("2024-03-02", ratio(q));
    let newest = ledgers.wkg_history(None);
    assert_eq!(value(newest[0].value), 300.0 / 80.0);
    assert_eq!(newest[0].date, "2024-03-02");
    // the first write to an empty ratio history seeds it and then records
    assert_eq!(values(&ledgers.wkg), vec![3.0, 3.0, 3.75]);
    assert_eq!(values(&ledgers.ftp), vec![240.0, 300.0]);
    assert_eq!(values(&ledgers.weight), vec![75.0, 80.0]);
}

#[test]
fn setting_ftp_on_an_empty_store_seeds_both_histories() {
    let mut ledgers = fresh();
    let q = ledgers.set_ftp("2024-03-02", scalar(260.0));
    assert_eq!((value(q.dividend), value(q.divisor)), (260.0, 75.0));
    assert_eq!(values(&ledgers.ftp), vec![240.0, 260.0]);
    assert_eq!(values(&ledgers.weight), vec![75.0]);
    assert!(ledgers.wkg_is_empty());
}

#[test]
fn histories_only_grow() {
    let mut history: Vec<TimeSeriesEntry> = Vec::new();
    record(&mut history, "2024-01-01", scalar(1.0));
    record(&mut history, "2024-01-01", scalar(2.0));
    record(&mut history, "2024-01-02", scalar(3.0));
    assert_eq!(values(&history), vec![1.0, 2.0, 3.0]);
    assert_eq!(value(current(&history, scalar(0.0))), 3.0);
    assert_eq!(value(current(&Vec::new(), scalar(7.0))), 7.0);
}

#[test]
fn recent_is_newest_first_and_truncated() {
    let mut history: Vec<TimeSeriesEntry> = Vec::new();
    for (i, date) in ["2024-01-01", "2024-01-02", "2024-01-03"].iter().enumerate() {
        record(&mut history, date, scalar(i as f64));
    }
    assert_eq!(values(&recent(&history, None)), vec![2.0, 1.0, 0.0]);
    assert_eq!(values(&recent(&history, Some(2))), vec![2.0, 1.0]);
    assert_eq!(values(&recent(&history, Some(3))), vec![2.0, 1.0, 0.0]);
    assert_eq!(values(&recent(&history, Some(10))), vec![2.0, 1.0, 0.0]);
    assert!(recent(&history, Some(0)).is_empty());
    assert!(recent(&Vec::new(), None).is_empty());
    assert_eq!(recent(&history, Some(1))[0].date, "2024-01-03");
    // the history itself is untouched
    assert_eq!(values(&history), vec![0.0, 1.0, 2.0]);
}

#[test]
fn an_index_that_was_never_computed_is_zero() {
    let mut history: Vec<TimeSeriesEntry> = Vec::new();
    assert_eq!(value(current_score(&history)), 0.0);
    assert!(recent(&history, None).is_empty());
    record(&mut history, "2024-01-01", scalar(12.5));
    assert_eq!(value(current_score(&history)), 12.5);
    let hist = recent(&history, None);
    assert_eq!(hist.len(), 1);
    assert_eq!(value(hist[0].value), 12.5);
}
