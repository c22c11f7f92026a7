use abcy_data::text::{
    contains_text, decimal_string, padded_decimal_string, same_text, signed_decimal_string,
    sorts_before,
};

#[test]
fn decimal_of_unsigned() {
    for n in [0u64, 1, 9, 10, 11, 99, 100, 2024, 123456789, u64::MAX - 1, u64::MAX] {
        assert_eq!(decimal_string(n), format!("{}", n));
    }
}

#[test]
fn decimal_padded() {
    for n in [0u64, 1, 7, 9, 10, 12, 53, 99, 100, 2024, 10000] {
        assert_eq!(padded_decimal_string(n, 2), format!("{:02}", n));
        assert_eq!(padded_decimal_string(n, 4), format!("{:04}", n));
        assert_eq!(padded_decimal_string(n, 0), format!("{}", n));
    }
}

#[test]
fn decimal_of_signed() {
    for n in [0i64, 1, -1, 9, -9, 10, -10, 2024, -2024, i64::MAX, i64::MIN, i64::MIN + 1] {
        assert_eq!(signed_decimal_string(n), format!("{}", n));
    }
}

#[test]
fn order_is_that_of_strings() {
    let words = [
        "", "a", "ab", "b", "2023-12", "2024-01", "2024-01-01", "2024-W01", "2024-W10", "2024",
        "10000", "9999", "-5", "+10000", "é", "z", "日本", "\u{10348}", "\u{7f}", "\u{80}",
    ];
    for a in words {
        for b in words {
            assert_eq!(sorts_before(a, b), a < b, "{a:?} < {b:?}");
            assert_eq!(same_text(a, b), a == b, "{a:?} == {b:?}");
        }
    }
}

#[test]
fn membership_in_a_list() {
    let list = vec!["Ride".to_string(), "Run".to_string()];
    assert!(contains_text(&list, "Ride"));
    assert!(contains_text(&list, "Run"));
    assert!(!contains_text(&list, "ride"));
    assert!(!contains_text(&list, ""));
    assert!(!contains_text(&[], "Ride"));
}
