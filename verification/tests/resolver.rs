//! Tests of the measurement resolver on spools and prints. Measures are in
//! millionths of a gram / metre: 1000 g is 1_000_000_000, 330 m is
//! 330_000_000.

use filament_tracker::clock::get_timestamp;
use filament_tracker::errors::Error;
use filament_tracker::measure::Measure;
use filament_tracker::records::Spool;

fn spool_with(weight: Option<u64>, length: Option<u64>) -> Spool {
    Spool {
        roll_id: uuid::Uuid::new_v4().as_u128(),
        roll_name: String::from("crealtivity"),
        measure: Measure { weight, length },
        timestamp: get_timestamp(),
    }
}

#[test]
fn test_spool_weight_1() {
    let mut test_spool = spool_with(Some(1_000_000_000), None);
    let ans = test_spool.get_weight().unwrap();
    assert_eq!(ans, 1_000_000_000);
}

#[test]
fn test_spool_weight_2() {
    // 330 m at 3.0303 g/m: exactly 999.999 g in fixed point.
    let mut test_spool = spool_with(None, Some(330_000_000));
    let ans = test_spool.get_weight().unwrap();
    assert_eq!(ans, 999_999_000);
}

#[test]
#[should_panic]
fn test_spool_weight_none() {
    let mut test_spool = spool_with(None, None);
    let _ans = test_spool.get_weight().unwrap();
}

#[test]
fn test_spool_length_1() {
    // 1000 g at 0.33 m/g: exactly 330 m.
    let mut test_spool = spool_with(Some(1_000_000_000), None);
    let ans = test_spool.get_length().unwrap();
    assert_eq!(ans, 330_000_000);
}

#[test]
fn test_spool_length_2() {
    let mut test_spool = spool_with(None, Some(330_000_000));
    let ans = test_spool.get_length().unwrap();
    assert_eq!(ans, 330_000_000);
}

#[test]
#[should_panic]
fn test_spool_length_none() {
    let mut test_spool = spool_with(None, None);
    let _ans = test_spool.get_length().unwrap();
}

#[test]
fn test_resolve_weight_ignores_length() {
    // Idempotence: a stored weight is returned unchanged whatever the length.
    let mut m = Measure {
        weight: Some(123_456_789),
        length: Some(999_999_999),
    };
    assert_eq!(m.resolve_weight().unwrap(), 123_456_789);
    assert_eq!(m.weight, Some(123_456_789));
    assert_eq!(m.length, Some(999_999_999));
}

#[test]
fn test_resolve_length_ignores_weight() {
    let mut m = Measure {
        weight: Some(123_456_789),
        length: Some(999_999_999),
    };
    assert_eq!(m.resolve_length().unwrap(), 999_999_999);
    assert_eq!(m.weight, Some(123_456_789));
    assert_eq!(m.length, Some(999_999_999));
}

#[test]
fn test_resolve_round_trip() {
    // 2.31 m derives 2.31 * 3.0303 = 6.999993 g; resolving the length of the
    // result returns the original 2.31 m unchanged.
    let mut m = Measure {
        weight: None,
        length: Some(2_310_000),
    };
    assert_eq!(m.resolve_weight().unwrap(), 6_999_993);
    assert_eq!(m.weight, Some(6_999_993));
    assert_eq!(m.length, Some(2_310_000));
    assert_eq!(m.resolve_length().unwrap(), 2_310_000);
    assert_eq!(m.weight, Some(6_999_993));
    assert_eq!(m.length, Some(2_310_000));
}

#[test]
fn test_resolve_both_absent_fails() {
    let mut m = Measure {
        weight: None,
        length: None,
    };
    assert_eq!(m.resolve_weight(), Err(Error::IncompleteMeasurement));
    assert_eq!(m.weight, None);
    assert_eq!(m.length, None);
    assert_eq!(m.resolve_length(), Err(Error::IncompleteMeasurement));
    assert_eq!(m.weight, None);
    assert_eq!(m.length, None);
}

#[test]
fn test_resolve_derives_from_weight() {
    // 89.6 g derives 89.6 * 0.33 = 29.568 m.
    let mut m = Measure {
        weight: Some(89_600_000),
        length: None,
    };
    assert_eq!(m.resolve_length().unwrap(), 29_568_000);
    assert_eq!(m.weight, Some(89_600_000));
    assert_eq!(m.length, Some(29_568_000));
}
