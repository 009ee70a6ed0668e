use onion_monitor::timestamp::Timestamp;

#[test]
fn instant_keeps_its_seconds_and_nanoseconds() {
    let t = Timestamp::new(1_431_648_000, 123_456_789).unwrap();
    assert_eq!(t.secs(), 1_431_648_000);
    assert_eq!(t.nanos(), 123_456_789);
}

#[test]
fn instant_agrees_with_chrono() {
    let dt = chrono::DateTime::from_timestamp(1_700_000_000, 5).unwrap();
    let t = Timestamp::new(dt.timestamp(), dt.timestamp_subsec_nanos()).unwrap();
    assert_eq!(chrono::DateTime::from_timestamp(t.secs(), t.nanos()), Some(dt));
}

#[test]
fn label_of_an_instant() {
    assert_eq!(Timestamp::new(1_431_648_000, 0).unwrap().to_label(), "May 15, 2015 00:00 UTC");
    assert_eq!(Timestamp::new(0, 0).unwrap().to_label(), "Jan 01, 1970 00:00 UTC");
    assert_eq!(
        Timestamp::new(1_735_689_599, 999_999_999).unwrap().to_label(),
        "Dec 31, 2024 23:59 UTC"
    );
    assert_eq!(Timestamp::new(-1, 0).unwrap().to_label(), "Dec 31, 1969 23:59 UTC");
}

#[test]
fn instants_that_chrono_lacks_are_refused() {
    assert_eq!(Timestamp::new(i64::MAX, 0), None);
    assert_eq!(Timestamp::new(i64::MIN, 0), None);
    assert_eq!(Timestamp::new(0, 2_000_000_000), None);
    assert_eq!(Timestamp::new(0, 1_000_000_000), None);
    assert!(Timestamp::new(59, 1_500_000_000).is_some());
}

#[test]
fn the_limits_of_chrono_are_instants() {
    let min = chrono::DateTime::<chrono::Utc>::MIN_UTC;
    let max = chrono::DateTime::<chrono::Utc>::MAX_UTC;
    let low = Timestamp::new(min.timestamp(), min.timestamp_subsec_nanos()).unwrap();
    let high = Timestamp::new(max.timestamp(), max.timestamp_subsec_nanos()).unwrap();
    assert!(Timestamp::new(min.timestamp() - 1, 0).is_none());
    assert!(Timestamp::new(max.timestamp() + 1, 0).is_none());
    assert!(!low.to_label().is_empty());
    assert!(!high.to_label().is_empty());
}
