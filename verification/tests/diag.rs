use fin::diag::{stamp, Diag};
use fin::time::Moment;

#[test]
fn stamps_carry_milliseconds() {
    let now = Moment::parse("2026-09-15T09:07:03.042+02:00[Europe/Oslo]").unwrap();
    assert_eq!(stamp(&now), "09:07:03.042");
}

#[test]
fn stamps_pad_every_field() {
    let now = Moment::parse("2026-09-15T23:59:59.999+02:00[Europe/Oslo]").unwrap();
    assert_eq!(stamp(&now), "23:59:59.999");
    let midnight = Moment::parse("2026-09-15T00:00:00+02:00[Europe/Oslo]").unwrap();
    assert_eq!(stamp(&midnight), "00:00:00.000");
}

#[test]
fn stamps_truncate_below_the_millisecond() {
    let now = Moment::parse("2026-09-15T09:07:03.0429999+02:00[Europe/Oslo]").unwrap();
    assert_eq!(stamp(&now), "09:07:03.042");
}

#[test]
fn diagnostics_are_on_only_when_asked_for() {
    assert!(Diag::new(true).enabled());
    assert!(!Diag::new(false).enabled());
}
