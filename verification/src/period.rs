//! Resolution of a reporting window from a period name and the current time.
//!
//! The clock and the time zone are supplied by the caller. Which calendar
//! dates bound a window is decided here from the calendar alone; turning a
//! date into its first instant is the time-zone database's business.
use vstd::prelude::*;

use crate::text::{lower, owned, push_str, same, to_lower};
use crate::time::{
    begins_day, epoch_day, ordinary, Clock, Date, Moment, add_days, add_months, days_after, format_civil,
    formatted, months_after, start_of_day, weekday, weekday_number,
};

verus! {

/// A half-open window `[start, end)`.
#[derive(Debug, Clone, PartialEq)]
pub struct TimeRange {
    pub start: Moment,
    pub end: Moment,
    /// True when `end` is the current moment rather than a fixed boundary.
    /// An open-ended window is never cached against its end, which would
    /// otherwise change on every invocation.
    pub open_ended: bool,
}

/// The template GitHub search accepts for a bound: a second-precision local
/// timestamp with an explicit UTC offset.
pub open spec fn search_template() -> Seq<char> {
    "%Y-%m-%dT%H:%M:%S%:z"@
}

pub open spec fn moment_text(template: Seq<char>, m: Moment) -> Seq<char> {
    formatted(template, m.date, m.clock, m.offset)
}

impl TimeRange {
    /// Formats the bounds as GitHub search accepts them: second-precision
    /// local timestamps with an explicit UTC offset.
    pub fn as_search_bounds(&self) -> (r: (String, String))
        ensures
            r.0@ == moment_text(search_template(), self.start),
            r.1@ == moment_text(search_template(), self.end),
    {
        (self.start.format("%Y-%m-%dT%H:%M:%S%:z"), self.end.format("%Y-%m-%dT%H:%M:%S%:z"))
    }

    /// The window as a person reads it, such as `2026-09-14 .. 2026-09-15 14:30`.
    pub fn label(&self) -> (r: String)
        ensures
            r@ == moment_text("%Y-%m-%d"@, self.start) + " .. "@ + moment_text(
                "%Y-%m-%d %H:%M"@,
                self.end,
            ),
    {
        let mut out = self.start.format("%Y-%m-%d");
        push_str(&mut out, " .. ");
        let end = self.end.format("%Y-%m-%d %H:%M");
        push_str(&mut out, end.as_str());
        out
    }
}

/// The length of a reporting window.
#[derive(Debug, Clone, Copy, PartialEq, Eq, Structural, Default)]
pub enum Period {
    Day,
    #[default]
    Week,
    Month,
}

/// Why a window could not be resolved.
#[derive(Debug, Clone, PartialEq, Eq)]
pub enum PeriodError {
    /// A period name that is none of the known ones.
    UnknownPeriod { text: String },
    /// A day name that is none of the seven.
    UnknownDay { text: String },
    /// The calendar could not step back from a date.
    CannotStepBack { date: Date },
    /// The calendar has no day after a date.
    CannotAdvance { date: Date },
    /// A date has no first instant in the time zone.
    NoStartOfDay { date: Date },
    /// An explicit window whose end precedes its start.
    Inverted,
}

pub open spec fn period_from_lower(s: Seq<char>) -> Option<Period> {
    if s == "day"@ || s == "d"@ {
        Some(Period::Day)
    } else if s == "week"@ || s == "w"@ {
        Some(Period::Week)
    } else if s == "month"@ || s == "m"@ {
        Some(Period::Month)
    } else {
        None
    }
}

impl Period {
    /// Reads a period name, ignoring ASCII case: `day`, `week`, `month`, or
    /// their first letters.
    pub fn parse(text: &str) -> (r: Result<Period, PeriodError>)
        ensures
            match period_from_lower(lower(text@)) {
                Some(p) => r == Ok::<Period, PeriodError>(p),
                None => r matches Err(PeriodError::UnknownPeriod { text: t }) && t@ == lower(text@),
            },
    {
        let l = to_lower(text);
        let s = l.as_str();
        if same(s, "day") || same(s, "d") {
            Ok(Period::Day)
        } else if same(s, "week") || same(s, "w") {
            Ok(Period::Week)
        } else if same(s, "month") || same(s, "m") {
            Ok(Period::Month)
        } else {
            Err(PeriodError::UnknownPeriod { text: l })
        }
    }

    /// The period's name.
    pub fn name(&self) -> (r: &'static str)
        ensures
            r@ == match self {
                Period::Day => "day"@,
                Period::Week => "week"@,
                Period::Month => "month"@,
            },
    {
        match self {
            Period::Day => "day",
            Period::Week => "week",
            Period::Month => "month",
        }
    }
}

/// The day a reporting week starts on.
#[derive(Debug, Clone, Copy, PartialEq, Eq, Structural, Default)]
pub enum DayName {
    #[default]
    Mon,
    Tue,
    Wed,
    Thu,
    Fri,
    Sat,
    Sun,
}

pub open spec fn day_from_lower(s: Seq<char>) -> Option<DayName> {
    if s == "mon"@ || s == "monday"@ {
        Some(DayName::Mon)
    } else if s == "tue"@ || s == "tuesday"@ {
        Some(DayName::Tue)
    } else if s == "wed"@ || s == "wednesday"@ {
        Some(DayName::Wed)
    } else if s == "thu"@ || s == "thursday"@ {
        Some(DayName::Thu)
    } else if s == "fri"@ || s == "friday"@ {
        Some(DayName::Fri)
    } else if s == "sat"@ || s == "saturday"@ {
        Some(DayName::Sat)
    } else if s == "sun"@ || s == "sunday"@ {
        Some(DayName::Sun)
    } else {
        None
    }
}

impl DayName {
    /// Days after Monday.
    pub open spec fn offset(self) -> int {
        match self {
            DayName::Mon => 0,
            DayName::Tue => 1,
            DayName::Wed => 2,
            DayName::Thu => 3,
            DayName::Fri => 4,
            DayName::Sat => 5,
            DayName::Sun => 6,
        }
    }

    /// Days after Monday, the numbering `jiff` gives weekdays.
    pub fn monday_offset(&self) -> (r: i8)
        ensures
            r == self.offset(),
    {
        match self {
            DayName::Mon => 0,
            DayName::Tue => 1,
            DayName::Wed => 2,
            DayName::Thu => 3,
            DayName::Fri => 4,
            DayName::Sat => 5,
            DayName::Sun => 6,
        }
    }

    /// Reads a day name, short or long, ignoring ASCII case.
    pub fn parse(text: &str) -> (r: Result<DayName, PeriodError>)
        ensures
            match day_from_lower(lower(text@)) {
                Some(d) => r == Ok::<DayName, PeriodError>(d),
                None => r matches Err(PeriodError::UnknownDay { text: t }) && t@ == lower(text@),
            },
    {
        let l = to_lower(text);
        let s = l.as_str();
        if same(s, "mon") || same(s, "monday") {
            Ok(DayName::Mon)
        } else if same(s, "tue") || same(s, "tuesday") {
            Ok(DayName::Tue)
        } else if same(s, "wed") || same(s, "wednesday") {
            Ok(DayName::Wed)
        } else if same(s, "thu") || same(s, "thursday") {
            Ok(DayName::Thu)
        } else if same(s, "fri") || same(s, "friday") {
            Ok(DayName::Fri)
        } else if same(s, "sat") || same(s, "saturday") {
            Ok(DayName::Sat)
        } else if same(s, "sun") || same(s, "sunday") {
            Ok(DayName::Sun)
        } else {
            Err(PeriodError::UnknownDay { text: l })
        }
    }
}

/// The date a week containing `date` starts on, when it starts on `first`.
pub open spec fn week_start(date: Date, first: DayName) -> Option<Date> {
    match weekday_number(date) {
        Some(w) => days_after(date, (-((w - first.offset()) % 7)) as i64),
        None => None,
    }
}

/// The first date of the period containing `today`.
pub open spec fn period_start(today: Date, period: Period, first: DayName) -> Option<Date> {
    match period {
        Period::Day => Some(today),
        Period::Week => week_start(today, first),
        Period::Month => Some(Date { day: 1, ..today }),
    }
}

/// The first date of the period before the one starting on `start`.
pub open spec fn period_before(start: Date, period: Period) -> Option<Date> {
    match period {
        Period::Day => days_after(start, -1i64),
        Period::Week => days_after(start, -7i64),
        Period::Month => months_after(start, -1i64),
    }
}

/// The dates bounding a window: it starts on `first`, and ends on `last`
/// when it has a fixed end (the day after its last whole day), or at the
/// current moment when `last` is `None`.
#[derive(Debug, Clone, Copy, PartialEq, Eq, Structural)]
pub struct WindowDates {
    pub first: Date,
    pub last: Option<Date>,
}

/// The dates of the window for `period` around `today`.
pub open spec fn window_dates_spec(
    today: Date,
    period: Period,
    first_day: DayName,
    previous: bool,
) -> Option<WindowDates> {
    match period_start(today, period, first_day) {
        None => None,
        Some(current) => if !previous {
            Some(WindowDates { first: current, last: None })
        } else {
            match period_before(current, period) {
                None => None,
                Some(before) => Some(WindowDates { first: before, last: Some(current) }),
            }
        },
    }
}

/// Days from the Unix epoch to a date.
pub open spec fn day_number(d: Date) -> int {
    epoch_day(d.year as int, d.month as int, d.day as int)
}

/// The date a week containing `date` starts on, when it starts on `first`:
/// the last day on or before `date` that is a `first`.
pub fn start_of_week(date: Date, first: DayName) -> (r: Option<Date>)
    ensures
        r == week_start(date, first),
        r matches Some(s) ==> day_number(date) - 6 <= day_number(s) <= day_number(date) && weekday_number(s)
            == Some(first.offset() as i8),
{
    match weekday(date) {
        Some(w) => {
            let offset = w - first.monday_offset();
            let back: i64 = if offset < 0 { (offset + 7) as i64 } else { offset as i64 };
            assert(back == (w - first.offset()) % 7);
            let r = add_days(date, -back);
            proof {
                if r is Some {
                    lemma_back_to_weekday(day_number(date) + 3, w as int, first.offset(), back as int);
                }
            }
            r
        },
        None => None,
    }
}

/// Stepping back from a day of weekday `w` by as many days as `w` is past
/// `f` reaches a day of weekday `f`.
proof fn lemma_back_to_weekday(e: int, w: int, f: int, back: int)
    requires
        w == e % 7,
        0 <= f < 7,
        back == if w >= f {
            w - f
        } else {
            w - f + 7
        },
    ensures
        (e - back) % 7 == f,
{
    assert(e == 7 * (e / 7) + w);
    if w >= f {
        assert(e - back == 7 * (e / 7) + f);
    } else {
        assert(e - back == 7 * (e / 7 - 1) + f);
    }
}

/// How the dates of a window lie on the calendar: the current period
/// starts on `today` for a day, on the last `first_day` on or before it for
/// a week, and on the first of its month for a month; a previous period
/// starts one day, seven days or one month before that and ends there.
pub open spec fn calendar_steps(
    today: Date,
    period: Period,
    first_day: DayName,
    previous: bool,
    d: WindowDates,
) -> bool {
    let current = match d.last {
        Some(l) => l,
        None => d.first,
    };
    &&& d.last is Some == previous
    &&& period == Period::Day ==> current == today
    &&& period == Period::Week ==> day_number(today) - 6 <= day_number(current) <= day_number(today)
        && weekday_number(current) == Some(first_day.offset() as i8)
    &&& period == Period::Month ==> current == (Date { day: 1, ..today })
    &&& previous && period == Period::Day ==> day_number(d.first) == day_number(current) - 1
    &&& previous && period == Period::Week ==> day_number(d.first) == day_number(current) - 7
    &&& previous && period == Period::Month ==> Some(d.first) == months_after(current, -1i64)
}

/// The dates of the window covered by `period` relative to `today`.
///
/// The current period runs from its first day; with `previous`, the window
/// is the whole preceding period instead, ending where the current one
/// begins.
pub fn window_dates(today: Date, period: Period, first_day: DayName, previous: bool) -> (r: Option<
    WindowDates,
>)
    ensures
        r == window_dates_spec(today, period, first_day, previous),
        r matches Some(d) ==> calendar_steps(today, period, first_day, previous, d),
{
    let current = match period {
        Period::Day => today,
        Period::Week => match start_of_week(today, first_day) {
            Some(d) => d,
            None => return None,
        },
        Period::Month => today.first_of_month(),
    };
    if !previous {
        return Some(WindowDates { first: current, last: None });
    }
    let before = match period {
        Period::Day => add_days(current, -1),
        Period::Week => add_days(current, -7),
        Period::Month => add_months(current, -1),
    };
    match before {
        Some(b) => Some(WindowDates { first: b, last: Some(current) }),
        None => None,
    }
}

/// The window `period` names relative to `now`, or why there is none.
pub open spec fn resolve_fails(
    now: Moment,
    period: Period,
    first_day: DayName,
    previous: bool,
    e: PeriodError,
) -> bool {
    match period_start(now.date, period, first_day) {
        None => e == PeriodError::CannotStepBack { date: now.date },
        Some(current) => if previous && period_before(current, period) is None {
            e == PeriodError::CannotStepBack { date: current }
        } else {
            match window_dates_spec(now.date, period, first_day, previous) {
                Some(d) => e matches PeriodError::NoStartOfDay { date } && !ordinary(date) && (date == d.first
                    || d.last == Some(date)),
                None => false,
            }
        },
    }
}

/// What resolving `period` relative to `now` gives: a window from where the
/// first of the dates `window_dates_spec` names begins in `now`'s zone, up
/// to `now`, or, for a previous one, up to where its last date begins; or
/// the reason there is none.
pub open spec fn resolved(
    now: Moment,
    period: Period,
    first_day: DayName,
    previous: bool,
    r: Result<TimeRange, PeriodError>,
) -> bool {
    match r {
        Ok(range) => match window_dates_spec(now.date, period, first_day, previous) {
            Some(d) => {
                &&& calendar_steps(now.date, period, first_day, previous, d)
                &&& range.open_ended == !previous
                &&& begins_day(range.start, d.first, now.zone)
                &&& match d.last {
                    None => range.end == now,
                    Some(last) => begins_day(range.end, last, now.zone),
                }
            },
            None => false,
        },
        Err(e) => resolve_fails(now, period, first_day, previous, e),
    }
}

/// Resolves the window covered by `period` relative to `now`.
///
/// The current period runs from its first instant up to `now`, so a report is
/// meaningful at any point during the period. With `previous`, the window is
/// the whole preceding period instead, ending where the current one begins.
pub fn resolve(now: &Moment, period: Period, first_day: DayName, previous: bool) -> (r: Result<
    TimeRange,
    PeriodError,
>)
    ensures
        resolved(*now, period, first_day, previous, r),
        window_dates_spec(now.date, period, first_day, previous) matches Some(d) ==> (ordinary(d.first) && (
        d.last matches Some(l) ==> ordinary(l)) ==> r is Ok),
{
    let dates = match window_dates(now.date, period, first_day, previous) {
        Some(d) => d,
        None => {
            let current = match period {
                Period::Day => Some(now.date),
                Period::Week => start_of_week(now.date, first_day),
                Period::Month => Some(now.date.first_of_month()),
            };
            return match current {
                None => Err(PeriodError::CannotStepBack { date: now.date }),
                Some(c) => Err(PeriodError::CannotStepBack { date: c }),
            };
        },
    };
    let start = match start_of_day(dates.first, &now.zone) {
        Some(m) => m,
        None => return Err(PeriodError::NoStartOfDay { date: dates.first }),
    };
    match dates.last {
        None => Ok(TimeRange { start, end: now.duplicate(), open_ended: true }),
        Some(last) => match start_of_day(last, &now.zone) {
            Some(end) => Ok(TimeRange { start, end, open_ended: false }),
            None => Err(PeriodError::NoStartOfDay { date: last }),
        },
    }
}

/// Whether `end` comes before `start`.
pub open spec fn precedes(end: Moment, start: Moment) -> bool {
    end.instant.total() < start.instant.total()
}

/// Whether `end` closes an explicit window in `now`'s zone: `now` itself
/// when `until` is absent, else where the day after `until` begins.
pub open spec fn explicit_end(end: Moment, now: Moment, until: Option<Date>) -> bool {
    match until {
        None => end == now,
        Some(u) => days_after(u, 1) matches Some(next) && day_number(next) == day_number(u) + 1 && begins_day(
            end,
            next,
            now.zone,
        ),
    }
}

/// What an explicit window from `since` to `until` gives: one from where
/// `since` begins to its end, `now` when `until` is absent and else where
/// the day after `until` begins; or the reason there is none. The calendar
/// refuses only the last date it has, a date has no first instant only near
/// the ends of the calendar, and otherwise the window is refused exactly
/// when its end precedes its start.
pub open spec fn explicit_window(
    now: Moment,
    since: Date,
    until: Option<Date>,
    r: Result<TimeRange, PeriodError>,
) -> bool {
    match r {
        Ok(range) => {
            &&& range.open_ended == until is None
            &&& begins_day(range.start, since, now.zone)
            &&& explicit_end(range.end, now, until)
            &&& !precedes(range.end, range.start)
        },
        Err(e) => match e {
            PeriodError::CannotAdvance { date } => until == Some(date) && days_after(date, 1) is None,
            PeriodError::NoStartOfDay { date } => !ordinary(date) && (date == since || (until matches Some(u)
                && days_after(u, 1) == Some(date))),
            PeriodError::Inverted => exists|start: Moment, end: Moment|
                #![trigger begins_day(start, since, now.zone), explicit_end(end, now, until)]
                begins_day(start, since, now.zone) && explicit_end(end, now, until) && precedes(end, start),
            _ => false,
        },
    }
}

/// A window from `start` to `end`, refused when it would end before it
/// starts.
pub fn bounded(start: Moment, end: Moment, open_ended: bool) -> (r: Result<TimeRange, PeriodError>)
    ensures
        precedes(end, start) ==> r == Err::<TimeRange, PeriodError>(PeriodError::Inverted),
        !precedes(end, start) ==> r == Ok::<TimeRange, PeriodError>(TimeRange { start, end, open_ended }),
{
    if end.instant.before(&start.instant) {
        Err(PeriodError::Inverted)
    } else {
        Ok(TimeRange { start, end, open_ended })
    }
}

/// Builds a window from explicit dates. `until` defaults to `now`, and is
/// treated as inclusive by extending to the end of that day.
pub fn explicit(now: &Moment, since: Date, until: Option<Date>) -> (r: Result<
    TimeRange,
    PeriodError,
>)
    ensures
        explicit_window(*now, since, until, r),
        ordinary(since) && (until matches Some(u) ==> (days_after(u, 1) matches Some(n) && ordinary(n))) ==> (r is Ok
            || r == Err::<TimeRange, PeriodError>(PeriodError::Inverted)),
{
    let start = match start_of_day(since, &now.zone) {
        Some(m) => m,
        None => return Err(PeriodError::NoStartOfDay { date: since }),
    };
    let open_ended = until.is_none();
    let end = match until {
        None => now.duplicate(),
        Some(date) => {
            let next = match add_days(date, 1) {
                Some(n) => n,
                None => return Err(PeriodError::CannotAdvance { date }),
            };
            match start_of_day(next, &now.zone) {
                Some(m) => m,
                None => return Err(PeriodError::NoStartOfDay { date: next }),
            }
        },
    };
    let ghost (s, e) = (start, end);
    let r = bounded(start, end, open_ended);
    proof {
        assert(begins_day(s, since, now.zone) && explicit_end(e, *now, until));
    }
    r
}

/// A date as `YYYY-MM-DD`.
pub fn date_text(date: Date) -> (r: String)
    ensures
        r@ == formatted("%Y-%m-%d"@, date, Clock { hour: 0, minute: 0, second: 0, subsec_nanosecond: 0 }, 0),
{
    format_civil("%Y-%m-%d", date, Clock { hour: 0, minute: 0, second: 0, subsec_nanosecond: 0 }, 0)
}

/// What a window error says, worded for the person running the report.
pub open spec fn period_error_text(e: PeriodError) -> Seq<char> {
    let day = |d: Date| formatted("%Y-%m-%d"@, d, Clock { hour: 0, minute: 0, second: 0, subsec_nanosecond: 0 }, 0);
    match e {
        PeriodError::UnknownPeriod { text } => "unknown period `"@ + text@
            + "` (expected `day`, `week` or `month`)"@,
        PeriodError::UnknownDay { text } => "unknown day `"@ + text@
            + "` (expected mon, tue, wed, thu, fri, sat or sun)"@,
        PeriodError::CannotStepBack { date } => "cannot step back from "@ + day(date),
        PeriodError::CannotAdvance { date } => "cannot advance past "@ + day(date),
        PeriodError::NoStartOfDay { date } => "no valid start of day for "@ + day(date),
        PeriodError::Inverted => "--until must not precede --since"@,
    }
}

impl PeriodError {
    /// What went wrong, worded for the person running the report.
    pub fn message(&self) -> (r: String)
        ensures
            r@ == period_error_text(*self),
    {
        match self {
            PeriodError::UnknownPeriod { text } => {
                let mut m = owned("unknown period `");
                push_str(&mut m, text.as_str());
                push_str(&mut m, "` (expected `day`, `week` or `month`)");
                m
            },
            PeriodError::UnknownDay { text } => {
                let mut m = owned("unknown day `");
                push_str(&mut m, text.as_str());
                push_str(&mut m, "` (expected mon, tue, wed, thu, fri, sat or sun)");
                m
            },
            PeriodError::CannotStepBack { date } => {
                let mut m = owned("cannot step back from ");
                push_str(&mut m, date_text(*date).as_str());
                m
            },
            PeriodError::CannotAdvance { date } => {
                let mut m = owned("cannot advance past ");
                push_str(&mut m, date_text(*date).as_str());
                m
            },
            PeriodError::NoStartOfDay { date } => {
                let mut m = owned("no valid start of day for ");
                push_str(&mut m, date_text(*date).as_str());
                m
            },
            PeriodError::Inverted => owned("--until must not precede --since"),
        }
    }
}

/// The window that ends where another begins: a previous window ends on the
/// first date of the current one.
pub proof fn lemma_previous_window_meets_current(
    today: Date,
    period: Period,
    first_day: DayName,
)
    requires
        window_dates_spec(today, period, first_day, true) is Some,
    ensures
        window_dates_spec(today, period, first_day, false) is Some,
        window_dates_spec(today, period, first_day, true).unwrap().last == Some(
            window_dates_spec(today, period, first_day, false).unwrap().first,
        ),
        Some(window_dates_spec(today, period, first_day, true).unwrap().first) == period_before(
            window_dates_spec(today, period, first_day, false).unwrap().first,
            period,
        ),
{
}

} // verus!
