//! Tests of the tracker: active-spool selection, remaining and lifetime
//! accounting, and the schema decision. Measures are in millionths of a gram
//! / metre.

use filament_tracker::clock::get_timestamp;
use filament_tracker::errors::Error;
use filament_tracker::measure::Measure;
use filament_tracker::records::Filament;
use filament_tracker::records::Spool;
use filament_tracker::schema::interpret_table_count;
use filament_tracker::schema::TableStatus;
use filament_tracker::tracker::Tracker;

fn spool(name: &str, weight: Option<u64>, length: Option<u64>, timestamp: i64) -> Spool {
    Spool {
        roll_id: uuid::Uuid::new_v4().as_u128(),
        roll_name: String::from(name),
        measure: Measure { weight, length },
        timestamp,
    }
}

fn print(weight: Option<u64>, length: Option<u64>, print_time: u64) -> Filament {
    Filament {
        print_id: uuid::Uuid::new_v4().as_u128(),
        measure: Measure { weight, length },
        print_time,
        roll_id: None,
    }
}

#[test]
fn test_create_new_spool() {
    let mut tracker = Tracker::new();
    let test_spool = spool(
        "crealtivity",
        Some(1_000_000_000),
        Some(330_000_000),
        get_timestamp(),
    );
    let expected_id = test_spool.roll_id;
    let rt = tracker.open_new_spool(test_spool).unwrap();
    assert_eq!(rt, 1);
    let stored = &tracker.spools[0];
    assert_eq!(stored.roll_id, expected_id);
    assert_eq!(stored.roll_name, "crealtivity".to_string());
    assert_eq!(stored.measure.weight, Some(1_000_000_000));
    assert_eq!(stored.measure.length, Some(330_000_000));
    assert!(stored.timestamp > 1734209754);
}

#[test]
fn test_create_new_print() {
    let mut tracker = Tracker::new();
    let first = spool(
        "crealtivity",
        Some(1_000_000_000),
        Some(330_000_000),
        get_timestamp(),
    );
    let rt = tracker.open_new_spool(first).unwrap();
    assert_eq!(rt, 1);
    let stored = &tracker.spools[0];
    assert_eq!(stored.roll_name, "crealtivity".to_string());
    assert_eq!(stored.measure.weight, Some(1_000_000_000));
    assert_eq!(stored.measure.length, Some(330_000_000));
    assert!(stored.timestamp > 1734209754);

    let second = spool(
        "crealtivity",
        Some(1_000_000_000),
        Some(330_000_000),
        get_timestamp() + 5,
    );
    let second_id = second.roll_id;
    let rt_second_spool = tracker.open_new_spool(second).unwrap();
    assert_eq!(rt_second_spool, 1);

    let test_print = print(None, Some(2_310_000), 1125);
    let expected_print_id = test_print.print_id;
    let _rt2 = tracker.add_new_print(test_print).unwrap();
    let stored_print = &tracker.prints[0];
    assert_eq!(stored_print.print_id, expected_print_id);
    assert_eq!(stored_print.measure.weight, Some(6_999_993));
    assert_eq!(stored_print.measure.length, Some(2_310_000));
    assert_eq!(stored_print.print_time, 1125);
    assert_eq!(stored_print.roll_id, Some(second_id));
}

#[test]
fn test_create_remaining() {
    let mut tracker = Tracker::new();
    let test_spool = spool(
        "crealtivity",
        Some(1_000_000_000),
        Some(330_000_000),
        get_timestamp(),
    );
    let rt = tracker.open_new_spool(test_spool).unwrap();
    assert_eq!(rt, 1);

    let test_print = print(None, Some(2_310_000), 1125);
    let second_test_print = print(Some(89_600_000), None, 2700);

    let _rt2 = tracker.add_new_print(test_print).unwrap();
    let ans = tracker.check_remaining().unwrap();
    // 1000 - 2.31 * 3.0303 = 993.000007 g; 330 - 2.31 = 327.69 m.
    assert_eq!(ans.0, 993_000_007);
    assert_eq!(ans.1, 327_690_000);

    let _rt3 = tracker.add_new_print(second_test_print).unwrap();
    let ans = tracker.check_remaining().unwrap();
    // 993.000007 - 89.6 = 903.400007 g; 327.69 - 89.6 * 0.33 = 298.122 m.
    assert_eq!(ans.0, 903_400_007);
    assert_eq!(ans.1, 298_122_000);
}

#[test]
fn test_check_lifetime() {
    let mut tracker = Tracker::new();
    let test_spool = spool(
        "crealtivity",
        Some(1_000_000_000),
        Some(330_000_000),
        get_timestamp(),
    );
    let rt = tracker.open_new_spool(test_spool).unwrap();
    assert_eq!(rt, 1);

    let test_print = print(None, Some(2_310_000), 1125);
    let second_test_print = print(Some(89_600_000), None, 2700);
    let _rt2 = tracker.add_new_print(test_print).unwrap();
    let _rt3 = tracker.add_new_print(second_test_print).unwrap();

    let ans = tracker.lifetime_statistics();
    // 6.999993 + 89.6 = 96.599993 g; 2.31 + 29.568 = 31.878 m; 1125 + 2700 s.
    assert_eq!(ans.0, 96_599_993);
    assert_eq!(ans.1, 31_878_000);
    assert_eq!(ans.2, 3825);
}

#[test]
fn test_current_spool_recency() {
    let mut tracker = Tracker::new();
    let older = spool("old", Some(1_000_000), None, 1_000);
    let newer = spool("new", Some(1_000_000), None, 2_000);
    let newer_id = newer.roll_id;
    tracker.open_new_spool(older).unwrap();
    tracker.open_new_spool(newer).unwrap();
    let current = tracker.get_current_spool().unwrap();
    assert_eq!(current.roll_id, newer_id);
}

#[test]
fn test_current_spool_tie_latest_wins() {
    // Two spools created in the same second: the latest-appended one is the
    // active spool.
    let mut tracker = Tracker::new();
    let first = spool("first", Some(1_000_000), None, 1_000);
    let second = spool("second", Some(1_000_000), None, 1_000);
    let second_id = second.roll_id;
    tracker.open_new_spool(first).unwrap();
    tracker.open_new_spool(second).unwrap();
    let current = tracker.get_current_spool().unwrap();
    assert_eq!(current.roll_id, second_id);
}

#[test]
fn test_current_spool_empty() {
    let tracker = Tracker::new();
    assert_eq!(
        tracker.get_current_spool().unwrap_err(),
        Error::NoActiveSpool
    );
}

#[test]
fn test_add_print_without_spool() {
    let mut tracker = Tracker::new();
    let test_print = print(None, Some(2_310_000), 1125);
    assert_eq!(
        tracker.add_new_print(test_print),
        Err(Error::NoActiveSpool)
    );
    assert_eq!(tracker.prints.len(), 0);
}

#[test]
fn test_add_print_incomplete_measurement() {
    let mut tracker = Tracker::new();
    let test_spool = spool("crealtivity", Some(1_000_000_000), None, get_timestamp());
    tracker.open_new_spool(test_spool).unwrap();
    let test_print = print(None, None, 1125);
    assert_eq!(
        tracker.add_new_print(test_print),
        Err(Error::IncompleteMeasurement)
    );
    assert_eq!(tracker.prints.len(), 0);
}

#[test]
fn test_open_spool_incomplete_measurement() {
    let mut tracker = Tracker::new();
    let test_spool = spool("crealtivity", None, None, get_timestamp());
    assert_eq!(
        tracker.open_new_spool(test_spool),
        Err(Error::IncompleteMeasurement)
    );
    assert_eq!(tracker.spools.len(), 0);
}

#[test]
fn test_remaining_without_spool() {
    let tracker = Tracker::new();
    assert_eq!(tracker.check_remaining(), Err(Error::NoActiveSpool));
}

#[test]
fn test_remaining_can_be_negative() {
    // Over-consumption is reported, not clamped.
    let mut tracker = Tracker::new();
    let test_spool = spool("small", Some(1_000_000), None, 1_000);
    tracker.open_new_spool(test_spool).unwrap();
    let big_print = print(Some(2_000_000), None, 60);
    tracker.add_new_print(big_print).unwrap();
    let ans = tracker.check_remaining().unwrap();
    assert_eq!(ans.0, -1_000_000);
}

#[test]
fn test_remaining_ignores_other_spools() {
    // Only prints recorded against the active spool count towards remaining.
    let mut tracker = Tracker::new();
    let first = spool("first", Some(1_000_000_000), None, 1_000);
    tracker.open_new_spool(first).unwrap();
    tracker.add_new_print(print(Some(5_000_000), None, 60)).unwrap();
    let second = spool("second", Some(1_000_000_000), None, 2_000);
    tracker.open_new_spool(second).unwrap();
    tracker.add_new_print(print(Some(7_000_000), None, 60)).unwrap();
    let ans = tracker.check_remaining().unwrap();
    assert_eq!(ans.0, 993_000_000);
}

#[test]
fn test_lifetime_empty() {
    let tracker = Tracker::new();
    assert_eq!(tracker.lifetime_statistics(), (0, 0, 0));
}

#[test]
fn test_interpret_table_count() {
    assert_eq!(interpret_table_count(0), Ok(TableStatus::Missing));
    assert_eq!(interpret_table_count(1), Ok(TableStatus::Present));
    assert_eq!(
        interpret_table_count(2),
        Err(Error::AmbiguousSchemaState)
    );
    assert_eq!(
        interpret_table_count(-1),
        Err(Error::AmbiguousSchemaState)
    );
}

#[test]
fn test_well_formed_log() {
    let mut tracker = Tracker::new();
    assert!(tracker.is_well_formed());
    tracker
        .open_new_spool(spool("crealtivity", Some(1_000_000_000), None, 1_000))
        .unwrap();
    tracker.add_new_print(print(None, Some(2_310_000), 1125)).unwrap();
    assert!(tracker.is_well_formed());
}

#[test]
fn test_ill_formed_log_detected() {
    // A record loaded with a missing measurement is rejected by the
    // well-formedness check.
    let tracker = Tracker {
        spools: vec![Spool {
            roll_id: 1,
            roll_name: String::from("broken"),
            measure: Measure {
                weight: None,
                length: Some(1),
            },
            timestamp: 0,
        }],
        prints: Vec::new(),
    };
    assert!(!tracker.is_well_formed());
}

#[test]
fn test_timestamp_non_negative() {
    assert!(get_timestamp() >= 0);
}
