use dropit::expiration::{NoMatchingThreshold, Threshold, ThresholdError, ThresholdTable};

const DAY: u64 = 24 * 60 * 60;

fn table() -> ThresholdTable {
    ThresholdTable::new(vec![
        Threshold { max_size: 100_000, duration: 7 * DAY },
        Threshold { max_size: 5_000_000, duration: DAY },
    ])
    .unwrap()
}

#[test]
fn small_upload_is_kept_seven_days() {
    let created_at = 1_700_000_000;
    let duration = table().duration_for(50_000).unwrap();
    assert_eq!(duration, 7 * DAY);
    assert_eq!(ThresholdTable::expiry(created_at, duration), created_at + 7 * DAY);
}

#[test]
fn medium_upload_is_kept_one_day() {
    let created_at = 1_700_000_000;
    let duration = table().duration_for(1_000_000).unwrap();
    assert_eq!(duration, DAY);
    assert_eq!(ThresholdTable::expiry(created_at, duration), created_at + DAY);
}

#[test]
fn oversized_upload_has_no_threshold() {
    assert_eq!(table().duration_for(10_000_000), Err(NoMatchingThreshold));
}

#[test]
fn size_at_a_boundary_uses_that_rule() {
    let t = table();
    assert_eq!(t.duration_for(100_000), Ok(7 * DAY));
    assert_eq!(t.duration_for(100_001), Ok(DAY));
    assert_eq!(t.duration_for(5_000_000), Ok(DAY));
    assert_eq!(t.duration_for(5_000_001), Err(NoMatchingThreshold));
    assert_eq!(t.duration_for(0), Ok(7 * DAY));
}

#[test]
fn duration_never_grows_with_size() {
    let t = ThresholdTable::new(vec![
        Threshold { max_size: 10, duration: 300 },
        Threshold { max_size: 20, duration: 200 },
        Threshold { max_size: 30, duration: 200 },
        Threshold { max_size: 40, duration: 1 },
    ])
    .unwrap();
    let mut last = u64::MAX;
    for size in 0..=40u64 {
        let d = t.duration_for(size).unwrap();
        assert!(d <= last);
        last = d;
    }
    assert!(t.duration_for(41).is_err());
}

#[test]
fn empty_table_covers_nothing() {
    let t = ThresholdTable::new(Vec::new()).unwrap();
    assert_eq!(t.len(), 0);
    assert_eq!(t.rule(0), None);
    assert_eq!(t.duration_for(0), Err(NoMatchingThreshold));
}

#[test]
fn table_reports_its_rules() {
    let t = table();
    assert_eq!(t.len(), 2);
    assert_eq!(t.rule(0), Some(Threshold { max_size: 100_000, duration: 7 * DAY }));
    assert_eq!(t.rule(1), Some(Threshold { max_size: 5_000_000, duration: DAY }));
    assert_eq!(t.rule(2), None);
}

#[test]
fn sizes_must_increase() {
    let r = ThresholdTable::new(vec![
        Threshold { max_size: 10, duration: 30 },
        Threshold { max_size: 20, duration: 20 },
        Threshold { max_size: 20, duration: 10 },
    ]);
    assert_eq!(r.err(), Some(ThresholdError::SizeNotIncreasing(2)));
}

#[test]
fn durations_must_not_increase() {
    let r = ThresholdTable::new(vec![
        Threshold { max_size: 10, duration: 30 },
        Threshold { max_size: 20, duration: 31 },
        Threshold { max_size: 15, duration: 10 },
    ]);
    assert_eq!(r.err(), Some(ThresholdError::DurationIncreasing(1)));
}

#[test]
fn size_fault_is_named_before_duration_fault() {
    let r = ThresholdTable::new(vec![
        Threshold { max_size: 10, duration: 30 },
        Threshold { max_size: 5, duration: 40 },
    ]);
    assert_eq!(r.err(), Some(ThresholdError::SizeNotIncreasing(1)));
}

#[test]
fn equal_durations_are_in_order() {
    let r = ThresholdTable::new(vec![
        Threshold { max_size: 10, duration: 30 },
        Threshold { max_size: 20, duration: 30 },
    ]);
    assert!(r.is_ok());
}

#[test]
fn expiry_stops_at_the_last_instant() {
    assert_eq!(ThresholdTable::expiry(u64::MAX - 5, 10), u64::MAX);
    assert_eq!(ThresholdTable::expiry(u64::MAX - 10, 10), u64::MAX);
    assert_eq!(ThresholdTable::expiry(0, 0), 0);
    assert_eq!(ThresholdTable::expiry(100, 23), 123);
}
