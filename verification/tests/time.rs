use chrono::{DateTime, Duration, Utc};
use emilydotgg_random::time::{Timestamp, FIRST_SECOND, LAST_SECOND};

fn stamp(secs: i64, nanos: u32) -> Timestamp {
    Timestamp { secs, nanos }
}

fn by_calendar(time: Timestamp, seconds: i64) -> Timestamp {
    let left = DateTime::<Utc>::from_timestamp(time.secs, time.nanos).unwrap()
        - Duration::seconds(seconds);
    stamp(left.timestamp(), left.timestamp_subsec_nanos())
}

#[test]
fn bounds_are_those_of_the_calendar() {
    assert_eq!(FIRST_SECOND, DateTime::<Utc>::MIN_UTC.timestamp());
    assert_eq!(LAST_SECOND, DateTime::<Utc>::MAX_UTC.timestamp());
    assert!(DateTime::<Utc>::from_timestamp(FIRST_SECOND, 0).is_some());
    assert!(DateTime::<Utc>::from_timestamp(FIRST_SECOND - 1, 0).is_none());
    assert!(DateTime::<Utc>::from_timestamp(LAST_SECOND, 0).is_some());
    assert!(DateTime::<Utc>::from_timestamp(LAST_SECOND + 1, 0).is_none());
}

#[test]
fn validity_is_that_of_the_calendar() {
    let near = [-61, -1, 0, 1, 58, 59, 60, 119];
    let far = [FIRST_SECOND - 1, FIRST_SECOND, LAST_SECOND, LAST_SECOND + 1];
    for secs in near.into_iter().chain(far) {
        for nanos in [0u32, 1, 999_999_999, 1_000_000_000, 1_999_999_999, 2_000_000_000] {
            assert_eq!(
                stamp(secs, nanos).is_valid(),
                DateTime::<Utc>::from_timestamp(secs, nanos).is_some(),
                "{secs} {nanos}"
            );
        }
    }
}

#[test]
fn earlier_takes_whole_seconds() {
    assert_eq!(stamp(1_700_000_000, 123).earlier(5), stamp(1_699_999_995, 123));
    assert_eq!(stamp(2, 7).earlier(5), stamp(-3, 7));
    assert_eq!(stamp(FIRST_SECOND + 5, 0).earlier(5), stamp(FIRST_SECOND, 0));
}

#[test]
fn earlier_leaves_a_leap_second() {
    assert_eq!(stamp(59, 1_500_000_000).earlier(5), stamp(55, 500_000_000));
    assert_eq!(stamp(59, 1_500_000_000).earlier(1), stamp(59, 500_000_000));
}

#[test]
fn earlier_agrees_with_the_calendar() {
    for secs in [FIRST_SECOND + 100_000, -1, 0, 59, 119, 86_399, 1_700_000_039, LAST_SECOND] {
        for nanos in [0u32, 999_999_999, 1_000_000_000, 1_999_999_999] {
            let time = stamp(secs, nanos);
            if !time.is_valid() {
                continue;
            }
            for seconds in [1i64, 5, 60, 86_400] {
                assert_eq!(time.earlier(seconds), by_calendar(time, seconds));
            }
        }
    }
}

#[test]
fn order_is_that_of_the_calendar() {
    let times = [
        stamp(-5, 3),
        stamp(58, 999_999_999),
        stamp(59, 0),
        stamp(59, 999_999_999),
        stamp(59, 1_000_000_001),
        stamp(60, 0),
        stamp(60, 1),
    ];
    for a in times {
        for b in times {
            let x = DateTime::<Utc>::from_timestamp(a.secs, a.nanos).unwrap();
            let y = DateTime::<Utc>::from_timestamp(b.secs, b.nanos).unwrap();
            assert_eq!(a.after(&b), x > y);
        }
    }
}
