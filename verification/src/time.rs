//! Instants, calendar dates and zoned moments.
//!
//! The calendar and the time-zone database belong to `jiff`; this module
//! holds their results as plain values, so the rest of the library can read
//! and compare them. Conversions that consult the time-zone database depend
//! on the machine, so their results are described only by what holds of
//! every outcome.
use vstd::prelude::*;

use jiff::tz::TimeZone;

verus! {

#[verifier::external_type_specification]
#[verifier::external_body]
pub struct ExTimeZone(jiff::tz::TimeZone);

/// A point on the time line: whole seconds since the Unix epoch, and the
/// nanoseconds within that second (carrying the sign of `second`).
#[derive(Debug, Clone, Copy, PartialEq, Eq, Structural)]
pub struct Instant {
    pub second: i64,
    pub nanosecond: i32,
}

/// A calendar date.
#[derive(Debug, Clone, Copy, PartialEq, Eq, Structural)]
pub struct Date {
    pub year: i16,
    pub month: i8,
    pub day: i8,
}

/// A wall-clock time of day.
#[derive(Debug, Clone, Copy, PartialEq, Eq, Structural)]
pub struct Clock {
    pub hour: i8,
    pub minute: i8,
    pub second: i8,
    pub subsec_nanosecond: i32,
}

/// An instant as seen in a time zone: its civil date and time there, and
/// the offset from UTC in force at that instant.
#[derive(Debug, Clone, PartialEq)]
pub struct Moment {
    pub instant: Instant,
    /// Seconds east of UTC.
    pub offset: i32,
    pub date: Date,
    pub clock: Clock,
    pub zone: TimeZone,
}

impl Instant {
    /// Nanoseconds since the Unix epoch.
    pub open spec fn total(self) -> int {
        self.second * 1_000_000_000 + self.nanosecond
    }

    /// Whole milliseconds since the Unix epoch, the fraction truncated.
    pub open spec fn millis(self) -> int {
        self.second * 1000 + (if self.nanosecond >= 0 {
            self.nanosecond / 1_000_000
        } else {
            -((-self.nanosecond) / 1_000_000)
        })
    }

    pub open spec fn wf(self) -> bool {
        -1_000_000_000 < self.nanosecond < 1_000_000_000
    }

    /// Accepted by `jiff::Timestamp::new`: seconds within the span `jiff`
    /// represents (the years -9999 to 9999), and nanoseconds within a second,
    /// not reaching before the first representable second.
    pub open spec fn representable(self) -> bool {
        &&& self.wf()
        &&& -377705023201 <= self.second <= 253402207200
        &&& !(self.second == -377705023201 && self.nanosecond < 0)
    }

    /// Reads an RFC 3339 timestamp such as `2026-09-14T09:15:00Z`.
    pub fn parse(text: &str) -> (r: Option<Instant>)
        ensures
            r == instant_from_text(text@),
            r matches Some(i) ==> i.representable(),
    {
        parse_instant(text)
    }

    /// The instant as RFC 3339 in UTC, such as `2026-09-13T22:00:00Z`.
    pub fn to_text(&self) -> (r: String)
        ensures
            r@ == instant_text(*self),
    {
        instant_to_text(*self)
    }

    /// Whether `self` comes strictly before `other`.
    pub fn before(&self, other: &Instant) -> (r: bool)
        ensures
            r == (self.total() < other.total()),
    {
        let a = (self.second as i128) * 1_000_000_000 + (self.nanosecond as i128);
        let b = (other.second as i128) * 1_000_000_000 + (other.nanosecond as i128);
        a < b
    }

    /// Whole milliseconds since the Unix epoch, the fraction truncated.
    pub fn as_millisecond(&self) -> (r: i128)
        ensures
            r == self.millis(),
    {
        let frac: i128 = if self.nanosecond >= 0 {
            (self.nanosecond / 1_000_000) as i128
        } else {
            -(((-(self.nanosecond as i64)) / 1_000_000) as i128)
        };
        (self.second as i128) * 1000 + frac
    }

    /// The instant `seconds` later (earlier, when negative), when that is
    /// still representable.
    pub fn plus_seconds(&self, seconds: i64) -> (r: Option<Instant>)
        ensures
            r matches Some(i) ==> i.second == self.second + seconds && i.nanosecond
                == self.nanosecond,
            r is None ==> !(i64::MIN <= self.second + seconds <= i64::MAX),
    {
        match self.second.checked_add(seconds) {
            Some(s) => Some(Instant { second: s, nanosecond: self.nanosecond }),
            None => None,
        }
    }
}

impl Date {
    /// Reads a date such as `2026-09-14`.
    pub fn parse(text: &str) -> (r: Option<Date>)
        ensures
            r == date_from_text(text@),
            r matches Some(d) ==> names_a_date(d),
    {
        parse_date(text)
    }

    pub open spec fn wf(self) -> bool {
        &&& -9999 <= self.year <= 9999
        &&& 1 <= self.month <= 12
        &&& 1 <= self.day <= 31
    }

    /// The first day of the same month.
    pub fn first_of_month(&self) -> (r: Date)
        ensures
            r == (Date { day: 1, ..*self }),
    {
        Date { year: self.year, month: self.month, day: 1 }
    }
}

/// Whether a year is a leap year in the proleptic Gregorian calendar.
pub open spec fn leap_year(year: int) -> bool {
    year % 4 == 0 && (year % 100 != 0 || year % 400 == 0)
}

/// How many days a month has.
pub open spec fn days_in_month(year: int, month: int) -> int {
    if month == 2 {
        if leap_year(year) { 29 } else { 28 }
    } else if month == 4 || month == 6 || month == 9 || month == 11 {
        30
    } else {
        31
    }
}

/// Whether the fields name a date `jiff` represents: a year from -9999 to
/// 9999, a month, and a day of that month.
pub open spec fn names_a_date(d: Date) -> bool {
    &&& -9999 <= d.year <= 9999
    &&& 1 <= d.month <= 12
    &&& 1 <= d.day <= days_in_month(d.year as int, d.month as int)
}

/// A date clear of the ends of the range `jiff` represents, whose midnight
/// is an instant in every time zone.
pub open spec fn ordinary(d: Date) -> bool {
    names_a_date(d) && -9998 <= d.year <= 9998
}

impl Clock {
    pub open spec fn wf(self) -> bool {
        &&& 0 <= self.hour <= 23
        &&& 0 <= self.minute <= 59
        &&& 0 <= self.second <= 59
        &&& 0 <= self.subsec_nanosecond <= 999_999_999
    }
}

/// Nanoseconds from the Unix epoch to a civil date and time read as UTC.
pub open spec fn civil_nanos(date: Date, clock: Clock) -> int {
    (epoch_day(date.year as int, date.month as int, date.day as int) * 86400 + clock.hour * 3600
        + clock.minute * 60 + clock.second) * 1_000_000_000 + clock.subsec_nanosecond
}

/// The midnight opening a date, counted as `civil_nanos` counts.
pub open spec fn midnight_nanos(date: Date) -> int {
    epoch_day(date.year as int, date.month as int, date.day as int) * 86400 * 1_000_000_000
}

/// Whether `m` is where `date` begins in `zone`: a moment of that zone read
/// off the date's midnight with the offset in force just before it. Its
/// civil time is that midnight, unless the zone's clocks skip it; then it
/// is later by the skip, by no more than the distance from the lowest
/// offset `jiff` allows to the moment's own. Which offsets are in force,
/// the zone's rules decide.
pub open spec fn begins_day(m: Moment, date: Date, zone: TimeZone) -> bool {
    &&& m.wf()
    &&& m.zone == zone
    &&& midnight_nanos(date) <= civil_nanos(m.date, m.clock)
    &&& civil_nanos(m.date, m.clock) <= midnight_nanos(date) + (m.offset + 93599) * 1_000_000_000
}

impl Moment {
    /// A representable instant, an offset within the hours `jiff` allows,
    /// and the civil date and time a clock that many seconds east of UTC
    /// reads at that instant.
    pub open spec fn wf(self) -> bool {
        &&& self.instant.representable()
        &&& names_a_date(self.date)
        &&& self.clock.wf()
        &&& -93599 <= self.offset <= 93599
        &&& civil_nanos(self.date, self.clock) == self.instant.total() + self.offset * 1_000_000_000
    }

    /// Reads a zoned timestamp such as
    /// `2026-09-15T14:30:00+02:00[Europe/Oslo]`.
    pub fn parse(text: &str) -> (r: Option<Moment>)
        ensures
            r matches Some(m) ==> m.wf(),
    {
        zoned_from_text(text)
    }

    /// The same instant in another representation: a copy.
    pub fn duplicate(&self) -> (r: Moment)
        ensures
            r == *self,
    {
        Moment {
            instant: self.instant,
            offset: self.offset,
            date: self.date,
            clock: self.clock,
            zone: self.zone.clone(),
        }
    }

    /// This moment, `seconds` later (earlier, when negative), seen in the
    /// same time zone.
    pub fn plus_seconds(&self, seconds: i64) -> (r: Option<Moment>)
        ensures
            r matches Some(m) ==> m.wf() && m.instant.total() == self.instant.total() + seconds
                * 1_000_000_000 && m.zone == self.zone,
            (i64::MIN <= self.instant.second + seconds <= i64::MAX && (Instant {
                second: (self.instant.second + seconds) as i64,
                nanosecond: self.instant.nanosecond,
            }).representable()) ==> r is Some,
    {
        match self.instant.plus_seconds(seconds) {
            Some(i) => moment_at(i, &self.zone),
            None => None,
        }
    }

    /// Formats the civil fields with a `strftime` template.
    pub fn format(&self, template: &str) -> (r: String)
        ensures
            r@ == formatted(template@, self.date, self.clock, self.offset),
    {
        format_civil(template, self.date, self.clock, self.offset)
    }
}

/// `jiff::tz::TimeZone::clone` copies the zone's handle to the same rules,
/// bit for bit: the copy is the same zone.
pub assume_specification[ <jiff::tz::TimeZone as core::clone::Clone>::clone ](zone: &TimeZone) -> (r: TimeZone)
    ensures
        r == *zone,
;

/// Reads a zoned timestamp with `jiff::Zoned::from_str`.
#[verifier::external_body]
fn zoned_from_text(text: &str) -> (r: Option<Moment>)
    ensures
        r matches Some(m) ==> m.wf(),
{
    match text.parse::<jiff::Zoned>() {
        Ok(z) => Some(Moment {
            instant: Instant { second: z.timestamp().as_second(), nanosecond: z.timestamp().subsec_nanosecond() },
            offset: z.offset().seconds(),
            date: Date { year: z.year(), month: z.month(), day: z.day() },
            clock: Clock { hour: z.hour(), minute: z.minute(), second: z.second(), subsec_nanosecond: z.subsec_nanosecond() },
            zone: z.time_zone().clone(),
        }),
        Err(_) => None,
    }
}

/// The moment an instant is in a time zone, by `jiff::Timestamp::new` and
/// `jiff::Timestamp::to_zoned`. The first refuses exactly the instants
/// outside the span `jiff` represents; the second cannot fail, keeps the
/// zone, and reads the civil fields off the instant at the zone's offset.
///
/// Which offset the zone has at the instant comes from its rules, which the
/// machine's time-zone database supplies; that offset is not stated.
#[verifier::external_body]
pub(crate) fn moment_at(instant: Instant, zone: &TimeZone) -> (r: Option<Moment>)
    ensures
        r matches Some(m) ==> m.wf() && m.instant.total() == instant.total() && m.zone == *zone,
        r is Some <==> instant.representable(),
{
    match jiff::Timestamp::new(instant.second, instant.nanosecond) {
        Ok(t) => {
            let z = t.to_zoned(zone.clone());
            Some(Moment {
                instant: Instant { second: z.timestamp().as_second(), nanosecond: z.timestamp().subsec_nanosecond() },
                offset: z.offset().seconds(),
                date: Date { year: z.year(), month: z.month(), day: z.day() },
                clock: Clock { hour: z.hour(), minute: z.minute(), second: z.second(), subsec_nanosecond: z.subsec_nanosecond() },
                zone: z.time_zone().clone(),
            })
        },
        Err(_) => None,
    }
}

/// The first instant of a civil date in a time zone, by
/// `jiff::civil::Date::to_zoned`, which reads the date's midnight in the
/// zone, taking the offset in force before a skip or a repeat of the
/// clocks. The result keeps the zone, and its civil fields are those the
/// instant reads at its offset: the midnight itself, or, when the clocks
/// skip it, the civil time the skip lands on, which may be a later date.
///
/// The offsets come from the zone's rules, which the machine's time-zone
/// database supplies; which instant results is not stated beyond that.
/// `jiff` fails only for fields that name no date, and for dates near the
/// ends of its range, whose midnight may not be a representable instant.
#[verifier::external_body]
pub(crate) fn start_of_day(date: Date, zone: &TimeZone) -> (r: Option<Moment>)
    ensures
        r matches Some(m) ==> begins_day(m, date, *zone),
        ordinary(date) ==> r is Some,
{
    match jiff::civil::Date::new(date.year, date.month, date.day).and_then(|d| d.to_zoned(zone.clone())) {
        Ok(z) => Some(Moment {
            instant: Instant { second: z.timestamp().as_second(), nanosecond: z.timestamp().subsec_nanosecond() },
            offset: z.offset().seconds(),
            date: Date { year: z.year(), month: z.month(), day: z.day() },
            clock: Clock { hour: z.hour(), minute: z.minute(), second: z.second(), subsec_nanosecond: z.subsec_nanosecond() },
            zone: z.time_zone().clone(),
        }),
        Err(_) => None,
    }
}

/// Days from 1970-01-01 to a date of the proleptic Gregorian calendar.
pub open spec fn epoch_day(year: int, month: int, day: int) -> int {
    let y = if month <= 2 { year - 1 } else { year };
    let era = y / 400;
    let yoe = y - era * 400;
    let mp = (month + 9) % 12;
    let doy = (153 * mp + 2) / 5 + day - 1;
    let doe = yoe * 365 + yoe / 4 - yoe / 100 + doy;
    era * 146097 + doe - 719468
}

/// The weekday of a date, counted from Monday as zero (1970-01-01 was a
/// Thursday), as `jiff::civil::Date::weekday` gives it; `None` when the
/// fields name no date.
pub open spec fn weekday_number(date: Date) -> Option<i8> {
    if names_a_date(date) {
        Some(((epoch_day(date.year as int, date.month as int, date.day as int) + 3) % 7) as i8)
    } else {
        None
    }
}

/// The weekday of a date, counted from Monday as zero.
#[verifier::external_body]
pub(crate) fn weekday(date: Date) -> (r: Option<i8>)
    ensures
        r == weekday_number(date),
{
    match jiff::civil::Date::new(date.year, date.month, date.day) {
        Ok(d) => Some(d.weekday().to_monday_zero_offset()),
        Err(_) => None,
    }
}

/// What `jiff::civil::Date::checked_add` gives for a span of whole days.
pub uninterp spec fn days_after(date: Date, days: i64) -> Option<Date>;

/// The date `days` days after `date` (before, when negative), by
/// `jiff::civil::Date::checked_add`, which for a span of whole days counts
/// them off on the days since the Unix epoch.
#[verifier::external_body]
pub(crate) fn add_days(date: Date, days: i64) -> (r: Option<Date>)
    ensures
        r == days_after(date, days),
        r matches Some(d) ==> d.wf() && names_a_date(d) && names_a_date(date) && epoch_day(
            d.year as int,
            d.month as int,
            d.day as int,
        ) == epoch_day(date.year as int, date.month as int, date.day as int) + days,
{
    let span = match jiff::Span::new().try_days(days) {
        Ok(s) => s,
        Err(_) => return None,
    };
    match jiff::civil::Date::new(date.year, date.month, date.day).and_then(|d| d.checked_add(span)) {
        Ok(d) => Some(Date { year: d.year(), month: d.month(), day: d.day() }),
        Err(_) => None,
    }
}

/// What `jiff::civil::Date::checked_add` gives for a span of whole months:
/// the month moved, the day clamped to the length of the month reached; none
/// for fields that name no date, a span beyond the 239976 months `jiff`
/// allows, or a year outside -9999 to 9999.
pub open spec fn months_after(date: Date, months: i64) -> Option<Date> {
    if names_a_date(date) && -239976 <= months <= 239976 {
        let t = date.month - 1 + months;
        let y = date.year + t / 12;
        let m = t % 12 + 1;
        let d = if date.day <= days_in_month(y, m) { date.day as int } else { days_in_month(y, m) };
        if -9999 <= y <= 9999 {
            Some(Date { year: y as i16, month: m as i8, day: d as i8 })
        } else {
            None
        }
    } else {
        None
    }
}

/// The date `months` months after `date` (before, when negative), the day
/// clamped to the length of the month reached.
#[verifier::external_body]
pub(crate) fn add_months(date: Date, months: i64) -> (r: Option<Date>)
    ensures
        r == months_after(date, months),
        r matches Some(d) ==> d.wf() && names_a_date(d),
{
    let span = match jiff::Span::new().try_months(months) {
        Ok(s) => s,
        Err(_) => return None,
    };
    match jiff::civil::Date::new(date.year, date.month, date.day).and_then(|d| d.checked_add(span)) {
        Ok(d) => Some(Date { year: d.year(), month: d.month(), day: d.day() }),
        Err(_) => None,
    }
}

/// What `jiff::civil::Date::from_str` reads from a text.
pub uninterp spec fn date_from_text(text: Seq<char>) -> Option<Date>;

/// Reads a date such as `2026-09-15`.
#[verifier::external_body]
pub(crate) fn parse_date(text: &str) -> (r: Option<Date>)
    ensures
        r == date_from_text(text@),
        r matches Some(d) ==> d.wf() && names_a_date(d),
{
    match text.parse::<jiff::civil::Date>() {
        Ok(d) => Some(Date { year: d.year(), month: d.month(), day: d.day() }),
        Err(_) => None,
    }
}

/// What `jiff::Timestamp::from_str` reads from a text.
pub uninterp spec fn instant_from_text(text: Seq<char>) -> Option<Instant>;

/// Reads an RFC 3339 timestamp such as `2026-09-14T09:15:00Z`.
#[verifier::external_body]
pub(crate) fn parse_instant(text: &str) -> (r: Option<Instant>)
    ensures
        r == instant_from_text(text@),
        r matches Some(i) ==> i.representable(),
{
    match text.parse::<jiff::Timestamp>() {
        Ok(t) => Some(Instant { second: t.as_second(), nanosecond: t.subsec_nanosecond() }),
        Err(_) => None,
    }
}

/// What `jiff::Timestamp::strptime` reads from a text with a template.
pub uninterp spec fn instant_from_template(template: Seq<char>, text: Seq<char>) -> Option<Instant>;

/// Reads a timestamp laid out by a `strptime` template.
#[verifier::external_body]
pub(crate) fn parse_instant_with(template: &str, text: &str) -> (r: Option<Instant>)
    ensures
        r == instant_from_template(template@, text@),
        r matches Some(i) ==> i.representable(),
{
    match jiff::Timestamp::strptime(template, text) {
        Ok(t) => Some(Instant { second: t.as_second(), nanosecond: t.subsec_nanosecond() }),
        Err(_) => None,
    }
}

/// What `jiff::Timestamp`'s `Display` writes: an RFC 3339 instant in UTC.
pub uninterp spec fn instant_text(instant: Instant) -> Seq<char>;

/// Writes an instant as RFC 3339 in UTC, such as `2026-09-13T22:00:00Z`,
/// or nothing when it lies outside the representable range.
#[verifier::external_body]
pub(crate) fn instant_to_text(instant: Instant) -> (r: String)
    ensures
        r@ == instant_text(instant),
{
    match jiff::Timestamp::new(instant.second, instant.nanosecond) {
        Ok(t) => t.to_string(),
        Err(_) => String::new(),
    }
}

/// The civil date and time in UTC at an instant, by
/// `jiff::tz::Offset::to_datetime`.
pub uninterp spec fn utc_civil(instant: Instant) -> Option<(Date, Clock)>;

/// The civil date and time in UTC at an instant, by
/// `jiff::Timestamp::new`, which refuses exactly the instants outside the
/// span `jiff` represents, and `jiff::tz::Offset::to_datetime`, which cannot
/// fail.
#[verifier::external_body]
pub(crate) fn utc_civil_of(instant: Instant) -> (r: Option<(Date, Clock)>)
    ensures
        r == utc_civil(instant),
        r matches Some((d, c)) ==> d.wf() && c.wf(),
        r is Some <==> instant.representable(),
{
    match jiff::Timestamp::new(instant.second, instant.nanosecond) {
        Ok(t) => {
            let dt = jiff::tz::Offset::UTC.to_datetime(t);
            Some((Date { year: dt.year(), month: dt.month(), day: dt.day() }, Clock { hour: dt.hour(), minute: dt.minute(), second: dt.second(), subsec_nanosecond: dt.subsec_nanosecond() }))
        },
        Err(_) => None,
    }
}

/// What `jiff::fmt::strtime::BrokenDownTime::to_string` writes for a
/// template, a civil date and time, and a UTC offset in seconds.
pub uninterp spec fn formatted(template: Seq<char>, date: Date, clock: Clock, offset: i32) -> Seq<char>;

/// Formats a civil date and time, with its UTC offset, by a `strftime`
/// template; nothing when the fields name no valid date and time.
#[verifier::external_body]
pub(crate) fn format_civil(template: &str, date: Date, clock: Clock, offset: i32) -> (r: String)
    ensures
        r@ == formatted(template@, date, clock, offset),
{
    let parts = (jiff::civil::Date::new(date.year, date.month, date.day), jiff::civil::Time::new(clock.hour, clock.minute, clock.second, clock.subsec_nanosecond), jiff::tz::Offset::from_seconds(offset));
    let (Ok(d), Ok(t), Ok(o)) = parts else { return String::new() };
    let mut tm = jiff::fmt::strtime::BrokenDownTime::from(d.to_datetime(t));
    tm.set_offset(Some(o));
    tm.to_string(template).unwrap_or_default()
}

} // verus!
