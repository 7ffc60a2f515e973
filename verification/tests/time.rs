use fin::duration::Duration;
use fin::time::{Date, Instant, Moment};

#[test]
fn instants_read_and_write_rfc3339_in_utc() {
    let i = Instant::parse("2026-09-14T11:15:00+02:00").unwrap();
    assert_eq!(i, Instant { second: 1_789_377_300, nanosecond: 0 });
    assert_eq!(i.to_text(), "2026-09-14T09:15:00Z");
    assert!(Instant::parse("yesterday").is_none());
}

#[test]
fn instants_order_and_count_milliseconds() {
    let a = Instant { second: 10, nanosecond: 999_999_999 };
    let b = Instant { second: 11, nanosecond: 0 };
    assert!(a.before(&b));
    assert!(!b.before(&a));
    assert!(!a.before(&a));
    assert_eq!(a.as_millisecond(), 10_999);
    assert_eq!(Instant { second: -1, nanosecond: -500_000_000 }.as_millisecond(), -1_500);
    assert_eq!(a.plus_seconds(5), Some(Instant { second: 15, nanosecond: 999_999_999 }));
    assert_eq!(Instant { second: i64::MAX, nanosecond: 0 }.plus_seconds(1), None);
}

#[test]
fn dates_read_and_find_their_month() {
    let d = Date::parse("2026-09-14").unwrap();
    assert_eq!(d, Date { year: 2026, month: 9, day: 14 });
    assert_eq!(d.first_of_month(), Date { year: 2026, month: 9, day: 1 });
    assert!(Date::parse("2026-02-30").is_none());
}

#[test]
fn moments_format_their_civil_time_and_move_in_their_zone() {
    let m = Moment::parse("2026-10-24T12:00:00+02:00[Europe/Oslo]").unwrap();
    assert_eq!(m.format("%Y-%m-%d %H:%M %:z"), "2026-10-24 12:00 +02:00");
    assert_eq!(m.offset, 7200);
    // A day later the clocks have gone back an hour.
    let later = m.plus_seconds(86_400).unwrap();
    assert_eq!(later.format("%Y-%m-%d %H:%M %:z"), "2026-10-25 11:00 +01:00");
    let copy = m.duplicate();
    assert_eq!(copy, m);
    assert!(Moment::parse("2026-10-24T12:00:00").is_none());
}

#[test]
fn durations_count_whole_seconds() {
    let d = Duration::from_secs(90);
    assert_eq!(d.as_secs(), 90);
    assert_eq!(d.as_millis(), 90_000);
    assert!(!d.is_zero());
    assert!(Duration::zero().is_zero());
    assert_eq!(d.saturating_mul(3), Duration::from_secs(270));
    assert_eq!(Duration::from_secs(u64::MAX).saturating_mul(2), Duration::from_secs(u64::MAX));
}
