use fin::period::{
    date_text, explicit, resolve, start_of_week, window_dates, DayName, Period, PeriodError,
};
use fin::time::{Date, Moment};

fn at(s: &str) -> Moment {
    Moment::parse(s).unwrap()
}

fn date(s: &str) -> Date {
    Date::parse(s).unwrap()
}

fn full(m: &Moment) -> String {
    m.format("%Y-%m-%dT%H:%M:%S%:z")
}

#[test]
fn week_starts_on_the_configured_day_and_ends_now() {
    // 2026-09-15 is a Tuesday.
    let now = at("2026-09-15T14:30:00+02:00[Europe/Oslo]");
    let r = resolve(&now, Period::Week, DayName::Mon, false).unwrap();
    assert_eq!(full(&r.start), "2026-09-14T00:00:00+02:00");
    assert!(r.start.zone == now.zone);
    assert_eq!(r.end, now);
    assert!(r.open_ended);
}

#[test]
fn week_queried_on_its_first_day_starts_that_morning() {
    let now = at("2026-09-14T09:00:00+02:00[Europe/Oslo]");
    let r = resolve(&now, Period::Week, DayName::Mon, false).unwrap();
    assert_eq!(full(&r.start), "2026-09-14T00:00:00+02:00");
}

#[test]
fn week_respects_a_non_monday_first_day() {
    let now = at("2026-09-15T14:30:00+02:00[Europe/Oslo]");
    let r = resolve(&now, Period::Week, DayName::Sun, false).unwrap();
    assert_eq!(r.start.date, date("2026-09-13"));
}

#[test]
fn previous_week_is_the_whole_preceding_week() {
    let now = at("2026-09-15T14:30:00+02:00[Europe/Oslo]");
    let r = resolve(&now, Period::Week, DayName::Mon, true).unwrap();
    assert_eq!(r.start.date, date("2026-09-07"));
    assert_eq!(r.end.date, date("2026-09-14"));
    assert!(!r.open_ended);
}

#[test]
fn month_starts_on_the_first() {
    let now = at("2026-09-15T14:30:00+02:00[Europe/Oslo]");
    let r = resolve(&now, Period::Month, DayName::Mon, false).unwrap();
    assert_eq!(full(&r.start), "2026-09-01T00:00:00+02:00");
}

#[test]
fn previous_month_crosses_the_year_boundary() {
    let now = at("2026-01-09T08:00:00+01:00[Europe/Oslo]");
    let r = resolve(&now, Period::Month, DayName::Mon, true).unwrap();
    assert_eq!(r.start.date, date("2025-12-01"));
    assert_eq!(r.end.date, date("2026-01-01"));
}

#[test]
fn week_start_survives_a_spring_forward_transition() {
    // Norway springs forward on 2026-03-29, a Sunday.
    let now = at("2026-03-31T10:00:00+02:00[Europe/Oslo]");
    let r = resolve(&now, Period::Week, DayName::Sun, false).unwrap();
    assert_eq!(r.start.date, date("2026-03-29"));
}

#[test]
fn search_bounds_carry_an_explicit_offset() {
    let now = at("2026-09-15T14:30:00+02:00[Europe/Oslo]");
    let r = resolve(&now, Period::Week, DayName::Mon, false).unwrap();
    let (start, end) = r.as_search_bounds();
    assert_eq!(start, "2026-09-14T00:00:00+02:00");
    assert_eq!(end, "2026-09-15T14:30:00+02:00");
}

#[test]
fn explicit_until_includes_the_whole_named_day() {
    let now = at("2026-09-15T14:30:00+02:00[Europe/Oslo]");
    let r = explicit(&now, date("2026-09-01"), Some(date("2026-09-07"))).unwrap();
    assert_eq!(r.end.date, date("2026-09-08"));
}

#[test]
fn explicit_rejects_an_inverted_range() {
    let now = at("2026-09-15T14:30:00+02:00[Europe/Oslo]");
    assert!(explicit(&now, date("2026-09-10"), Some(date("2026-09-01"))).is_err());
}

#[test]
fn day_and_period_names_parse_from_their_short_forms() {
    assert_eq!(DayName::parse("Mon").unwrap(), DayName::Mon);
    assert_eq!(DayName::parse("sunday").unwrap(), DayName::Sun);
    assert_eq!(Period::parse("month").unwrap(), Period::Month);
    assert!(DayName::parse("noneday").is_err());
}

#[test]
fn a_day_runs_from_midnight_to_now() {
    let now = at("2026-09-15T14:30:00+02:00[Europe/Oslo]");
    let r = resolve(&now, Period::Day, DayName::Mon, false).unwrap();
    assert_eq!(full(&r.start), "2026-09-15T00:00:00+02:00");
    assert_eq!(r.end, now);
    let prev = resolve(&now, Period::Day, DayName::Mon, true).unwrap();
    assert_eq!(prev.start.date, date("2026-09-14"));
    assert_eq!(prev.end.date, date("2026-09-15"));
}

#[test]
fn the_previous_window_ends_where_the_current_one_begins() {
    let now = at("2026-09-15T14:30:00+02:00[Europe/Oslo]");
    for period in [Period::Day, Period::Week, Period::Month] {
        let current = resolve(&now, period, DayName::Wed, false).unwrap();
        let previous = resolve(&now, period, DayName::Wed, true).unwrap();
        assert_eq!(previous.end.instant, current.start.instant);
    }
}

#[test]
fn period_names_and_errors_read_as_words() {
    assert_eq!(Period::parse("D").unwrap(), Period::Day);
    assert_eq!(Period::parse("w").unwrap(), Period::Week);
    assert_eq!(Period::Month.name(), "month");
    let err = Period::parse("Fortnight").unwrap_err();
    assert_eq!(err, PeriodError::UnknownPeriod { text: "fortnight".to_string() });
    assert_eq!(err.message(), "unknown period `fortnight` (expected `day`, `week` or `month`)");
    let err = DayName::parse("Funday").unwrap_err();
    assert_eq!(
        err.message(),
        "unknown day `funday` (expected mon, tue, wed, thu, fri, sat or sun)"
    );
    assert_eq!(PeriodError::Inverted.message(), "--until must not precede --since");
    assert_eq!(
        PeriodError::NoStartOfDay { date: date("2026-03-29") }.message(),
        "no valid start of day for 2026-03-29"
    );
}

#[test]
fn weeks_start_on_the_chosen_day_at_or_before_a_date() {
    // 2026-09-15 is a Tuesday.
    assert_eq!(start_of_week(date("2026-09-15"), DayName::Tue), Some(date("2026-09-15")));
    assert_eq!(start_of_week(date("2026-09-15"), DayName::Wed), Some(date("2026-09-09")));
    assert_eq!(start_of_week(date("2026-09-15"), DayName::Mon), Some(date("2026-09-14")));
}

#[test]
fn window_dates_follow_the_calendar() {
    let w = window_dates(date("2026-03-31"), Period::Month, DayName::Mon, true).unwrap();
    assert_eq!(w.first, date("2026-02-01"));
    assert_eq!(w.last, Some(date("2026-03-01")));
    let open = window_dates(date("2026-03-31"), Period::Week, DayName::Mon, false).unwrap();
    assert_eq!(open.first, date("2026-03-30"));
    assert_eq!(open.last, None);
}

#[test]
fn an_open_explicit_window_ends_now() {
    let now = at("2026-09-15T14:30:00+02:00[Europe/Oslo]");
    let r = explicit(&now, date("2026-09-01"), None).unwrap();
    assert!(r.open_ended);
    assert_eq!(r.end, now);
    assert_eq!(date_text(r.start.date), "2026-09-01");
}

#[test]
fn a_window_labels_its_start_day_and_its_end_minute() {
    let now = at("2026-09-15T14:30:00+02:00[Europe/Oslo]");
    let r = resolve(&now, Period::Week, DayName::Mon, false).unwrap();
    assert_eq!(r.label(), "2026-09-14 .. 2026-09-15 14:30");
}

#[test]
fn an_explicit_window_starting_after_now_is_inverted() {
    let now = at("2026-09-15T14:30:00+02:00[Europe/Oslo]");
    assert_eq!(explicit(&now, date("2026-09-16"), None), Err(PeriodError::Inverted));
    let start = at("2026-09-15T10:00:00+02:00[Europe/Oslo]");
    let end = at("2026-09-15T09:00:00+02:00[Europe/Oslo]");
    assert_eq!(
        fin::period::bounded(start.duplicate(), end.duplicate(), false),
        Err(PeriodError::Inverted)
    );
    let r = fin::period::bounded(end.duplicate(), start.duplicate(), true).unwrap();
    assert_eq!(r.start, end);
    assert_eq!(r.end, start);
    assert!(r.open_ended);
}

#[test]
fn a_window_begins_at_midnight_in_the_zone_of_now() {
    let now = at("2026-09-15T14:30:00+02:00[Europe/Oslo]");
    let r = explicit(&now, date("2026-09-01"), Some(date("2026-09-07"))).unwrap();
    assert_eq!(r.start.zone, now.zone);
    assert_eq!(r.end.zone, now.zone);
    assert_eq!(full(&r.start), "2026-09-01T00:00:00+02:00");
    assert_eq!(full(&r.end), "2026-09-08T00:00:00+02:00");
    assert!(r.start.instant.before(&r.end.instant));
}

#[test]
fn the_previous_month_runs_between_two_midnights() {
    let now = at("2026-01-09T10:00:00+01:00[Europe/Oslo]");
    let r = resolve(&now, Period::Month, DayName::Mon, true).unwrap();
    assert_eq!(full(&r.start), "2025-12-01T00:00:00+01:00");
    assert_eq!(full(&r.end), "2026-01-01T00:00:00+01:00");
    assert!(!r.open_ended);
}

#[test]
fn an_inverted_window_is_refused_as_inverted() {
    let now = at("2026-09-15T14:30:00+02:00[Europe/Oslo]");
    assert_eq!(
        explicit(&now, date("2026-09-10"), Some(date("2026-09-01"))),
        Err(PeriodError::Inverted)
    );
}
