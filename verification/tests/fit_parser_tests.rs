use abcy_data::fit_parser::DataPoint;
use abcy_data::scalar::Scalar;

fn scalar(x: f64) -> Scalar {
    Scalar::from_bits(x.to_bits())
}

#[test]
fn fields_fill_the_point() {
    let p = DataPoint::empty()
        .with_field("timestamp", Some(1000), Some(scalar(1000.0)))
        .with_field("power", Some(250), Some(scalar(250.0)))
        .with_field("heart_rate", Some(150), None)
        .with_field("cadence", Some(90), None)
        .with_field("distance", None, Some(scalar(12.5)));
    assert_eq!(p.timestamp, Some(1000));
    assert_eq!(p.power, Some(250));
    assert_eq!(p.heart_rate, Some(150));
    assert_eq!(p.cadence, Some(90));
    assert_eq!(p.distance.map(|d| f64::from_bits(d.to_bits())), Some(12.5));
}

#[test]
fn unknown_fields_and_wrong_kinds_change_nothing() {
    let p = DataPoint::empty()
        .with_field("speed", Some(5), Some(scalar(5.0)))
        .with_field("power", None, Some(scalar(250.0)))
        .with_field("distance", Some(12), None)
        .with_field("Power", Some(1), None)
        .with_field("", Some(1), None);
    assert_eq!(p.timestamp, None);
    assert_eq!(p.power, None);
    assert_eq!(p.heart_rate, None);
    assert_eq!(p.cadence, None);
    assert!(p.distance.is_none());
}

#[test]
fn a_later_field_replaces_an_earlier_one() {
    let p = DataPoint::empty()
        .with_field("power", Some(1), None)
        .with_field("power", Some(2), None)
        .with_field("power", None, None);
    assert_eq!(p.power, Some(2));
}
