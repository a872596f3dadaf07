//! Instants, calendar dates and rebalance calendars.
//!
//! An instant is a count of nanoseconds from midnight, January 1, 1970, UTC.
//! Dates are those of the Gregorian calendar, extended to all years.
use chrono::Datelike;
use vstd::prelude::*;

use crate::text::digit;

verus! {

/// Nanoseconds in a day.
pub const DAY: i64 = 86_400_000_000_000;

/// The greatest number of days whose nanoseconds an `i64` holds.
pub const MAX_DAYS: i64 = 106_751;

/// The number of January 1, 1970 when January 1 of year 1 is day 1.
pub const EPOCH_DAY: i64 = 719_163;

/// How dates are written and read: year, month and day.
pub const DATE_FORMAT: &'static str = "%Y-%m-%d";

/// A span of time, in nanoseconds.
#[derive(Clone, Copy, Debug, PartialEq, Eq, Structural)]
pub struct Duration {
    pub nanos: i64,
}

impl Duration {
    /// A span of whole days.
    pub fn from_days(days: i64) -> (r: Duration)
        requires
            -MAX_DAYS <= days <= MAX_DAYS,
        ensures
            r.nanos == days * DAY,
    {
        Duration { nanos: days * DAY }
    }
}

/// A point in time, in nanoseconds from the epoch.
#[derive(Clone, Copy, Debug, PartialEq, Eq, Structural)]
pub struct Instant {
    pub nanos: i64,
}

/// `n`, held within what an `i64` can say.
pub open spec fn saturated(n: int) -> int {
    if n > i64::MAX {
        i64::MAX as int
    } else if n < i64::MIN {
        i64::MIN as int
    } else {
        n
    }
}

/// Holds `n` within what an `i64` can say.
fn saturate(n: i128) -> (r: i64)
    ensures
        r == saturated(n as int),
{
    if n > i64::MAX as i128 {
        i64::MAX
    } else if n < i64::MIN as i128 {
        i64::MIN
    } else {
        n as i64
    }
}

impl Instant {
    /// The instant `by` later, held at the last one there is.
    pub fn saturating_add(self, by: Duration) -> (r: Instant)
        ensures
            r.nanos == saturated(self.nanos + by.nanos),
    {
        Instant { nanos: saturate(self.nanos as i128 + by.nanos as i128) }
    }

    /// The instant `by` earlier, held at the first one there is.
    pub fn saturating_sub(self, by: Duration) -> (r: Instant)
        ensures
            r.nanos == saturated(self.nanos - by.nanos),
    {
        Instant { nanos: saturate(self.nanos as i128 - by.nanos as i128) }
    }

    /// The number of the day the instant falls on.
    pub open spec fn day(self) -> int {
        self.nanos as int / DAY as int + EPOCH_DAY
    }

    /// Midnight of the day the instant falls on, in nanoseconds.
    pub open spec fn midnight(self) -> int {
        (self.day() - EPOCH_DAY) * DAY
    }
}

/// Whether `year` is a leap year.
pub open spec fn leap(year: int) -> bool {
    year % 4 == 0 && (year % 100 != 0 || year % 400 == 0)
}

/// The number of days in a month of `year`.
pub open spec fn month_days(year: int, month: int) -> int {
    if month == 2 {
        if leap(year) {
            29
        } else {
            28
        }
    } else if month == 4 || month == 6 || month == 9 || month == 11 {
        30
    } else {
        31
    }
}

/// The number of days of `year` before the first of `month`.
pub open spec fn days_before(year: int, month: int) -> int
    decreases month,
{
    if month <= 1 {
        0
    } else {
        days_before(year, month - 1) + month_days(year, month - 1)
    }
}

/// Whether there is such a day.
pub open spec fn is_date(year: int, month: int, day: int) -> bool {
    1 <= month <= 12 && 1 <= day <= month_days(year, month)
}

/// The number of a date, counted from January 1 of year 1 as day 1.
pub open spec fn day_number(year: int, month: int, day: int) -> int {
    365 * (year - 1) + (year - 1) / 4 - (year - 1) / 100 + (year - 1) / 400 + days_before(
        year,
        month,
    ) + day
}

/// A date as `YYYY-MM-DD`.
pub open spec fn date_text(year: int, month: int, day: int) -> Seq<char> {
    seq![
        digit(year / 1000 % 10),
        digit(year / 100 % 10),
        digit(year / 10 % 10),
        digit(year % 10),
        '-',
        digit(month / 10),
        digit(month % 10),
        '-',
        digit(day / 10),
        digit(day % 10),
    ]
}

/// Whether `text` is how the day of that number is written.
pub open spec fn writes_day(text: Seq<char>, number: int) -> bool {
    exists|year: int, month: int, day: int|
        0 <= year <= 9999 && is_date(year, month, day) && #[trigger] day_number(year, month, day)
            == number && text == #[trigger] date_text(year, month, day)
}

/// What `chrono::NaiveDate::parse_from_str` makes of a text under a format:
/// the number of the day it names, or the message of its error.
pub uninterp spec fn date_reading(text: Seq<char>, format: Seq<char>) -> Result<i32, Seq<char>>;

/// A reading, with its message as characters.
pub open spec fn told(r: Result<i32, String>) -> Result<i32, Seq<char>> {
    match r {
        Ok(number) => Ok(number),
        Err(message) => Err(message@),
    }
}

/// If `text` writes a day, the reading is that day.
pub open spec fn reads_plain_dates(text: Seq<char>, reading: Result<i32, Seq<char>>) -> bool {
    forall|number: int| #[trigger]
        writes_day(text, number) ==> (reading matches Ok(n) && n == number)
}

/// Calls `chrono::NaiveDate::parse_from_str` and numbers the day it found by
/// `chrono::Datelike::num_days_from_ce`; an error is given by its message.
/// The result is named [`date_reading`]. Which texts chrono takes beyond the
/// plain ones is not told; of a date written as `YYYY-MM-DD` with a year from
/// 0 to 9999 it is claimed that it reads as that date.
#[verifier::external_body]
fn read_date(text: &str, format: &str) -> (r: Result<i32, String>)
    requires
        format@ == DATE_FORMAT@,
    ensures
        told(r) == date_reading(text@, format@),
        reads_plain_dates(text@, told(r)),
{
    match chrono::NaiveDate::parse_from_str(text, format) {
        Ok(date) => Ok(date.num_days_from_ce()),
        Err(e) => Err(e.to_string()),
    }
}

/// Calls `chrono::DateTime::from_timestamp_nanos` and formats the date of the
/// result. Every `i64` of nanoseconds falls into the years 1677 to 2262, so
/// the text is the date as `YYYY-MM-DD`.
#[verifier::external_body]
fn write_date(nanos: i64, format: &str) -> (r: String)
    requires
        format@ == DATE_FORMAT@,
    ensures
        writes_day(r@, nanos as int / DAY as int + EPOCH_DAY),
{
    chrono::DateTime::from_timestamp_nanos(nanos).date_naive().format(format).to_string()
}

/// Calls `chrono::Utc::now`: the nanoseconds from the epoch to the present,
/// or `None` when an `i64` cannot hold them. Nothing is claimed of the clock.
#[verifier::external_body]
fn read_clock() -> (r: Option<i64>) {
    chrono::Utc::now().timestamp_nanos_opt()
}

/// Whether an instant can name midnight of the day of that number.
pub open spec fn in_range(number: int) -> bool {
    i64::MIN <= (number - EPOCH_DAY) * DAY <= i64::MAX
}

/// Parses a `YYYY-MM-DD` date into its midnight [`Instant`].
///
/// A text that an instant's date is written as reads back as the midnight of
/// that date.
pub fn parse_date(s: &str) -> (r: Result<Instant, String>)
    requires
        date_reading(s@, DATE_FORMAT@) matches Ok(number) ==> in_range(number as int),
    ensures
        match date_reading(s@, DATE_FORMAT@) {
            Ok(number) => r matches Ok(t) && t.nanos == (number - EPOCH_DAY) * DAY,
            Err(message) => r matches Err(e) && e@ == message,
        },
        forall|number: int| #[trigger]
            writes_day(s@, number) ==> (r matches Ok(t) && t.nanos == (number - EPOCH_DAY) * DAY),
{
    match read_date(s, DATE_FORMAT) {
        Ok(number) => Ok(Instant { nanos: (number as i64 - EPOCH_DAY) * DAY }),
        Err(message) => Err(message),
    }
}

/// Parses a `YYYY-MM-DD` date as [`parse_date`] does, or gives `None` for a
/// date whose midnight no [`Instant`] can name.
pub fn parse_any_date(s: &str) -> (r: Option<Result<Instant, String>>)
    ensures
        match date_reading(s@, DATE_FORMAT@) {
            Ok(number) => if in_range(number as int) {
                r matches Some(Ok(t)) && t.nanos == (number - EPOCH_DAY) * DAY
            } else {
                r is None
            },
            Err(message) => r matches Some(Err(e)) && e@ == message,
        },
        forall|number: int| #[trigger]
            writes_day(s@, number) && in_range(number) ==> (r matches Some(Ok(t)) && t.nanos == (
            number - EPOCH_DAY) * DAY),
{
    if let Ok(number) = read_date(s, DATE_FORMAT) {
        let days: i64 = number as i64 - EPOCH_DAY;
        if days < -MAX_DAYS || days > MAX_DAYS {
            return None;
        }
    }
    Some(parse_date(s))
}

/// How the date an instant falls on is written.
pub open spec fn date_of(t: Instant) -> Seq<char> {
    choose|text: Seq<char>| writes_day(text, t.day())
}

/// Formats an [`Instant`] as the `YYYY-MM-DD` date it falls on.
pub fn format_date(t: Instant) -> (r: String)
    ensures
        writes_day(r@, t.day()),
        r@ == date_of(t),
{
    let r = write_date(t.nanos, DATE_FORMAT);
    proof {
        a_day_has_one_text(r@, date_of(t), t.day());
    }
    r
}

/// The instant that a reading of the clock names, in nanoseconds from the
/// epoch; there is none without a reading.
pub fn instant_of(reading: Option<i64>) -> (r: Option<Instant>)
    ensures
        match reading {
            Some(nanos) => r == Some(Instant { nanos }),
            None => r is None,
        },
{
    match reading {
        Some(nanos) => Some(Instant { nanos }),
        None => None,
    }
}

/// The present, or `None` when no [`Instant`] can name it. It is what
/// [`instant_of`] makes of the clock, and nothing is known of the clock.
pub fn now() -> (r: Option<Instant>) {
    instant_of(read_clock())
}

/// The date an instant falls on, or what is written in place of one.
pub open spec fn date_or(t: Option<Instant>, absent: Seq<char>) -> Seq<char> {
    match t {
        Some(t) => date_of(t),
        None => absent,
    }
}

/// Formats the date of an [`Instant`], or gives `absent` in place of one.
pub fn format_date_or(t: Option<Instant>, absent: &str) -> (r: String)
    ensures
        r@ == date_or(t, absent@),
{
    match t {
        Some(t) => format_date(t),
        None => absent.to_string(),
    }
}

/// The instant so many days before `start`, held at the first one there is.
pub open spec fn days_earlier(start: Instant, days: int) -> Instant {
    Instant { nanos: saturated(start.nanos - days * DAY) as i64 }
}

/// Where reading starts so that `days` calendar days come before `start`.
pub fn warm_up_from(start: Instant, days: i64) -> (r: Instant)
    requires
        -MAX_DAYS <= days <= MAX_DAYS,
    ensures
        r == days_earlier(start, days as int),
{
    start.saturating_sub(Duration::from_days(days))
}

/// The instants from `start`, `step` nanoseconds apart, that come before
/// `end`.
pub open spec fn instants_between(start: Instant, end: Instant, step: int) -> Seq<Instant> {
    let count = if start.nanos < end.nanos {
        (end.nanos - start.nanos + step - 1) / step
    } else {
        0
    };
    Seq::new(count as nat, |k: int| Instant { nanos: (start.nanos + k * step) as i64 })
}

/// Every instant a whole number of steps after `start` that comes before
/// `end`.
pub fn calendar(start: Instant, end: Instant, step: Duration) -> (r: Vec<Instant>)
    requires
        start.nanos < end.nanos ==> step.nanos > 0,
    ensures
        r@ == instants_between(start, end, step.nanos as int),
{
    let mut instants: Vec<Instant> = Vec::new();
    let mut t = start;
    let ghost mut at: int = start.nanos as int;
    assert(0 * step.nanos == 0) by (nonlinear_arith);
    while t.nanos < end.nanos
        invariant
            start.nanos < end.nanos ==> step.nanos > 0,
            at == start.nanos + instants@.len() * step.nanos,
            t.nanos == saturated(at),
            at >= start.nanos,
            instants@.len() > 0 ==> at - step.nanos < end.nanos && start.nanos < end.nanos,
            forall|k: int|
                0 <= k < instants@.len() ==> (#[trigger] instants@[k]).nanos == start.nanos + k
                    * step.nanos,
        decreases
            if t.nanos < end.nanos {
                end.nanos - t.nanos
            } else {
                0
            },
    {
        instants.push(t);
        proof {
            let n = instants@.len() as int;
            assert((n - 1) * step.nanos + step.nanos == n * step.nanos) by (nonlinear_arith);
            at = at + step.nanos;
        }
        t = t.saturating_add(step);
    }
    proof {
        let n = instants@.len() as int;
        let s = step.nanos as int;
        let gap = end.nanos - start.nanos;
        if start.nanos < end.nanos {
            assert(n * s >= gap);
            assert((n - 1) * s + s == n * s) by (nonlinear_arith);
            assert((gap + s - 1) / s == n) by (nonlinear_arith)
                requires
                    s > 0,
                    n * s >= gap,
                    n * s - s < gap,
            ;
        }
        assert(instants@ =~= instants_between(start, end, s));
    }
    instants
}

/// The end of a calendar: the given one, or the present when it is open.
pub open spec fn horizon(end: Option<Instant>, now: Instant) -> Instant {
    match end {
        Some(e) => e,
        None => now,
    }
}

/// The end of a calendar, which is the present where none is given.
pub fn horizon_of(end: Option<Instant>, now: Instant) -> (r: Instant)
    ensures
        r == horizon(end, now),
{
    match end {
        Some(e) => e,
        None => now,
    }
}

/// The calendar that steps by whole days from `start` up to the horizon.
pub open spec fn rebalances(
    start: Instant,
    end: Option<Instant>,
    now: Instant,
    every: int,
) -> Seq<Instant> {
    instants_between(start, horizon(end, now), every * DAY)
}

/// Every instant a whole number of `every` days after `start` that comes
/// before the horizon.
pub fn day_calendar(start: Instant, end: Option<Instant>, now: Instant, every: i64) -> (r: Vec<
    Instant,
>)
    requires
        -MAX_DAYS <= every <= MAX_DAYS,
        start.nanos < horizon(end, now).nanos ==> every > 0,
    ensures
        r@ == rebalances(start, end, now, every as int),
{
    calendar(start, horizon_of(end, now), Duration::from_days(every))
}

/// Whether a calendar's own end leaves nothing to list, whatever the present
/// is.
pub open spec fn lists_nothing(start: Instant, end: Option<Instant>) -> bool {
    end matches Some(e) && e.nanos <= start.nanos
}

/// Whether a calendar that steps by `every` days comes to an end whatever the
/// present is: it moves on, or its own end leaves nothing to list.
pub open spec fn ends_anyway(start: Instant, end: Option<Instant>, every: int) -> bool {
    every > 0 || lists_nothing(start, end)
}

/// The calendar as of `reading`, the present where it is known: the present
/// counts only where no end is given.
pub open spec fn calendar_told(
    start: Instant,
    end: Option<Instant>,
    reading: Option<Instant>,
    every: int,
) -> Option<Seq<Instant>> {
    match end {
        Some(e) => Some(instants_between(start, e, every * DAY)),
        None => match reading {
            Some(now) => Some(rebalances(start, None, now, every)),
            None => None,
        },
    }
}

/// The instants of a calendar, where there is one.
pub open spec fn listed(calendar: Option<Vec<Instant>>) -> Option<Seq<Instant>> {
    match calendar {
        Some(v) => Some(v@),
        None => None,
    }
}

/// A calendar whose end is given is the same at every present.
pub proof fn a_given_end_stands(
    start: Instant,
    end: Instant,
    now: Instant,
    later: Instant,
    every: int,
)
    ensures
        rebalances(start, Some(end), now, every) == rebalances(start, Some(end), later, every),
        calendar_told(start, Some(end), Some(now), every) == calendar_told(
            start,
            Some(end),
            None,
            every,
        ),
{
}

/// The calendar as of `reading`, the present where it is known. Without it
/// there is a calendar only where an end is given.
pub fn calendar_as_of(
    start: Instant,
    end: Option<Instant>,
    reading: Option<Instant>,
    every: i64,
) -> (r: Option<Vec<Instant>>)
    requires
        -MAX_DAYS <= every <= MAX_DAYS,
        end matches Some(e) ==> (start.nanos < e.nanos ==> every > 0),
        end is None ==> (reading matches Some(now) ==> (start.nanos < now.nanos ==> every > 0)),
    ensures
        listed(r) == calendar_told(start, end, reading, every as int),
{
    match end {
        Some(e) => Some(calendar(start, e, Duration::from_days(every))),
        None => match reading {
            Some(present) => Some(day_calendar(start, None, present, every)),
            None => None,
        },
    }
}

/// The calendar up to its end, or up to the present when it is open; an open
/// one is `None` when no [`Instant`] can name the present.
pub fn present_calendar(start: Instant, end: Option<Instant>, every: i64) -> (r: Option<
    Vec<Instant>,
>)
    requires
        -MAX_DAYS <= every <= MAX_DAYS,
        ends_anyway(start, end, every as int),
    ensures
        exists|reading: Option<Instant>|
            listed(r) == #[trigger] calendar_told(start, end, reading, every as int),
{
    let reading = if end.is_some() {
        None
    } else {
        now()
    };
    calendar_as_of(start, end, reading, every)
}

/// The end of a calendar that lists only what has passed: the given one, or
/// the present when it is open or lies ahead.
pub open spec fn horizon_so_far(end: Option<Instant>, now: Instant) -> Instant {
    match end {
        Some(e) => if e.nanos < now.nanos {
            e
        } else {
            now
        },
        None => now,
    }
}

/// The calendar that steps by whole days from `start`, as far as it has
/// passed.
pub open spec fn rebalances_so_far(
    start: Instant,
    end: Option<Instant>,
    now: Instant,
    every: int,
) -> Seq<Instant> {
    instants_between(start, horizon_so_far(end, now), every * DAY)
}

/// Every instant a whole number of `every` days after `start` that comes
/// before `end` and has passed.
pub fn day_calendar_so_far(start: Instant, end: Option<Instant>, now: Instant, every: i64) -> (r:
    Vec<Instant>)
    requires
        -MAX_DAYS <= every <= MAX_DAYS,
        start.nanos < horizon_so_far(end, now).nanos ==> every > 0,
    ensures
        r@ == rebalances_so_far(start, end, now, every as int),
{
    let until = match end {
        Some(e) => if e.nanos < now.nanos {
            e
        } else {
            now
        },
        None => now,
    };
    calendar(start, until, Duration::from_days(every))
}

/// The calendar so far as of `reading`, the present where it is known: empty
/// if its own end leaves nothing to list, and otherwise known only with the
/// present.
pub open spec fn told_so_far(
    start: Instant,
    end: Option<Instant>,
    reading: Option<Instant>,
    every: int,
) -> Option<Seq<Instant>> {
    if lists_nothing(start, end) {
        Some(Seq::empty())
    } else {
        match reading {
            Some(now) => Some(rebalances_so_far(start, end, now, every)),
            None => None,
        }
    }
}

/// A calendar so far is the part of the whole one that has passed: the whole
/// one, where its end has passed, and empty where its end leaves nothing to
/// list.
pub proof fn a_passed_calendar_is_whole(
    start: Instant,
    end: Instant,
    now: Instant,
    every: int,
)
    ensures
        end.nanos <= now.nanos ==> rebalances_so_far(start, Some(end), now, every) == rebalances(
            start,
            Some(end),
            now,
            every,
        ),
        lists_nothing(start, Some(end)) ==> rebalances_so_far(start, Some(end), now, every)
            == Seq::<Instant>::empty(),
{
    if end.nanos == now.nanos {
        assert(end == now);
    }
    if lists_nothing(start, Some(end)) {
        assert(rebalances_so_far(start, Some(end), now, every) =~= Seq::<Instant>::empty());
    }
}

/// The calendar so far as of `reading`, the present where it is known.
/// Without it there is a calendar only where nothing is to be listed.
pub fn calendar_so_far_as_of(
    start: Instant,
    end: Option<Instant>,
    reading: Option<Instant>,
    every: i64,
) -> (r: Option<Vec<Instant>>)
    requires
        -MAX_DAYS <= every <= MAX_DAYS,
        reading matches Some(now) ==> (start.nanos < horizon_so_far(end, now).nanos ==> every > 0),
    ensures
        listed(r) == told_so_far(start, end, reading, every as int),
{
    if let Some(e) = end {
        if e.nanos <= start.nanos {
            return Some(Vec::new());
        }
    }
    match reading {
        Some(present) => Some(day_calendar_so_far(start, end, present, every)),
        None => None,
    }
}

/// The calendar as far as it has passed. It is empty if its own end leaves
/// nothing to list; any other is `None` when no [`Instant`] can name the
/// present.
pub fn calendar_so_far(start: Instant, end: Option<Instant>, every: i64) -> (r: Option<
    Vec<Instant>,
>)
    requires
        -MAX_DAYS <= every <= MAX_DAYS,
        ends_anyway(start, end, every as int),
    ensures
        exists|reading: Option<Instant>|
            listed(r) == #[trigger] told_so_far(start, end, reading, every as int),
{
    let reading = now();
    calendar_so_far_as_of(start, end, reading, every)
}

/// A calendar steps evenly from its start, stays before its end, and leaves
/// no step out.
pub proof fn calendar_is_complete(start: Instant, end: Instant, step: int, t: int)
    requires
        step > 0,
    ensures
        ({
            let c = instants_between(start, end, step);
            &&& forall|k: int|
                0 <= k < c.len() ==> start.nanos <= (#[trigger] c[k]).nanos < end.nanos
            &&& forall|j: int, k: int| 0 <= j < k < c.len() ==> c[j].nanos < c[k].nanos
            &&& start.nanos <= t < end.nanos && (t - start.nanos) % step == 0 ==> exists|k: int|
                0 <= k < c.len() && (#[trigger] c[k]).nanos == t
        }),
{
    let c = instants_between(start, end, step);
    let gap = end.nanos - start.nanos;
    if start.nanos < end.nanos {
        let n = (gap + step - 1) / step;
        assert(n * step < gap + step && n * step >= gap) by (nonlinear_arith)
            requires
                step > 0,
                n == (gap + step - 1) / step,
        ;
        assert forall|k: int| 0 <= k < c.len() implies start.nanos <= (#[trigger] c[k]).nanos
            < end.nanos && c[k].nanos == start.nanos + k * step by {
            assert(0 <= k * step <= (n - 1) * step && (n - 1) * step < gap) by (nonlinear_arith)
                requires
                    0 <= k <= n - 1,
                    step > 0,
                    n * step < gap + step,
            ;
        }
        assert forall|j: int, k: int| 0 <= j < k < c.len() implies c[j].nanos < c[k].nanos by {
            assert(j * step < k * step) by (nonlinear_arith)
                requires
                    j < k,
                    step > 0,
            ;
        }
        if start.nanos <= t < end.nanos && (t - start.nanos) % step == 0 {
            let k = (t - start.nanos) / step;
            assert(k * step == t - start.nanos && 0 <= k && k < n) by (nonlinear_arith)
                requires
                    step > 0,
                    0 <= t - start.nanos < gap,
                    (t - start.nanos) % step == 0,
                    k == (t - start.nanos) / step,
                    n * step >= gap,
            ;
            assert(c[k].nanos == t);
        }
    }
}

/// Digits with the same character are the same.
proof fn digit_is_told(a: int, b: int)
    requires
        0 <= a < 10,
        0 <= b < 10,
        digit(a) == digit(b),
    ensures
        a == b,
{
    assert((48 + a) as char as int == 48 + a);
    assert((48 + b) as char as int == 48 + b);
}

/// A number of four digits is told by them.
proof fn four_digits(y: int)
    requires
        0 <= y <= 9999,
    ensures
        y == 1000 * (y / 1000 % 10) + 100 * (y / 100 % 10) + 10 * (y / 10 % 10) + y % 10,
{
    let a = y / 10;
    let b = a / 10;
    let c = b / 10;
    assert(100 * b <= y < 100 * b + 100);
    assert(y / 100 == b);
    assert(1000 * c <= y < 1000 * c + 1000);
    assert(y / 1000 == c);
    assert(c < 10);
}

/// A date is told by its text.
proof fn date_is_told(y1: int, m1: int, d1: int, y2: int, m2: int, d2: int)
    requires
        0 <= y1 <= 9999,
        0 <= y2 <= 9999,
        1 <= m1 <= 12,
        1 <= m2 <= 12,
        1 <= d1 <= 31,
        1 <= d2 <= 31,
        date_text(y1, m1, d1) == date_text(y2, m2, d2),
    ensures
        y1 == y2,
        m1 == m2,
        d1 == d2,
{
    let s = date_text(y1, m1, d1);
    let u = date_text(y2, m2, d2);
    assert(s[0] == u[0] && s[1] == u[1] && s[2] == u[2] && s[3] == u[3]);
    assert(s[5] == u[5] && s[6] == u[6] && s[8] == u[8] && s[9] == u[9]);
    four_digits(y1);
    four_digits(y2);
    digit_is_told(y1 / 1000 % 10, y2 / 1000 % 10);
    digit_is_told(y1 / 100 % 10, y2 / 100 % 10);
    digit_is_told(y1 / 10 % 10, y2 / 10 % 10);
    digit_is_told(y1 % 10, y2 % 10);
    digit_is_told(m1 / 10, m2 / 10);
    digit_is_told(m1 % 10, m2 % 10);
    digit_is_told(d1 / 10, d2 / 10);
    digit_is_told(d1 % 10, d2 % 10);
}

/// No two days are written alike: a text writes at most one day.
pub proof fn a_text_writes_one_day(text: Seq<char>, a: int, b: int)
    requires
        writes_day(text, a),
        writes_day(text, b),
    ensures
        a == b,
{
    let (y1, m1, d1) = choose|year: int, month: int, day: int|
        0 <= year <= 9999 && is_date(year, month, day) && #[trigger] day_number(year, month, day)
            == a && text == #[trigger] date_text(year, month, day);
    let (y2, m2, d2) = choose|year: int, month: int, day: int|
        0 <= year <= 9999 && is_date(year, month, day) && #[trigger] day_number(year, month, day)
            == b && text == #[trigger] date_text(year, month, day);
    date_is_told(y1, m1, d1, y2, m2, d2);
}

/// The days of the years from 1 up to, and not counting, `year`.
pub open spec fn year_start(year: int) -> int {
    365 * (year - 1) + (year - 1) / 4 - (year - 1) / 100 + (year - 1) / 400
}

/// A later year starts after the whole of an earlier one.
proof fn years_do_not_overlap(a: int, b: int)
    requires
        a < b,
    ensures
        year_start(b) >= year_start(a) + 365,
        leap(a) ==> year_start(b) >= year_start(a) + 366,
    decreases b - a,
{
    if a + 1 < b {
        years_do_not_overlap(a, b - 1);
    }
}

/// A later month starts after the whole of an earlier one.
proof fn months_do_not_overlap(year: int, a: int, b: int)
    requires
        1 <= a < b,
    ensures
        days_before(year, b) >= days_before(year, a) + month_days(year, a),
    decreases b - a,
{
    if a + 1 < b {
        months_do_not_overlap(year, a, b - 1);
    }
}

/// The days of a month lie within those of its year.
proof fn months_fit_the_year(year: int, month: int)
    requires
        1 <= month <= 12,
    ensures
        0 <= days_before(year, month),
        days_before(year, month) + month_days(year, month) <= 365 + if leap(year) {
            1int
        } else {
            0
        },
{
    reveal_with_fuel(days_before, 13);
}

/// A day is written in one way only.
pub proof fn a_day_has_one_text(a: Seq<char>, b: Seq<char>, number: int)
    requires
        writes_day(a, number),
        writes_day(b, number),
    ensures
        a == b,
{
    let (y1, m1, d1) = choose|year: int, month: int, day: int|
        0 <= year <= 9999 && is_date(year, month, day) && #[trigger] day_number(year, month, day)
            == number && a == #[trigger] date_text(year, month, day);
    let (y2, m2, d2) = choose|year: int, month: int, day: int|
        0 <= year <= 9999 && is_date(year, month, day) && #[trigger] day_number(year, month, day)
            == number && b == #[trigger] date_text(year, month, day);
    months_fit_the_year(y1, m1);
    months_fit_the_year(y2, m2);
    if y1 < y2 {
        years_do_not_overlap(y1, y2);
    } else if y2 < y1 {
        years_do_not_overlap(y2, y1);
    } else if m1 < m2 {
        months_do_not_overlap(y1, m1, m2);
    } else if m2 < m1 {
        months_do_not_overlap(y1, m2, m1);
    }
}

/// What [`format_date`] writes of an instant, [`parse_date`] reads back as
/// the midnight of the instant's day, which is at most a day earlier.
pub proof fn a_written_date_reads_back(
    t: Instant,
    written: Seq<char>,
    read: Result<Instant, String>,
)
    requires
        in_range(t.day()),
        writes_day(written, t.day()),
        forall|number: int| #[trigger]
            writes_day(written, number) ==> (read matches Ok(u) && u.nanos == (number - EPOCH_DAY)
                * DAY),
    ensures
        read matches Ok(u) && u.nanos == t.midnight() && u.day() == t.day() && u.nanos <= t.nanos
            < u.nanos + DAY,
{
}

/// Going back so many days goes back a day's nanoseconds for each, held at
/// the first instant there is; no days are none.
pub proof fn a_warm_up_takes_whole_days(start: Instant, days: int)
    requires
        days >= 0,
    ensures
        start.nanos - days * 86_400_000_000_000 >= i64::MIN ==> days_earlier(start, days).nanos
            == start.nanos - days * 86_400_000_000_000,
        start.nanos - days * 86_400_000_000_000 < i64::MIN ==> days_earlier(start, days).nanos
            == i64::MIN,
        days_earlier(start, 0) == start,
{
    assert(days * 86_400_000_000_000 >= 0) by (nonlinear_arith)
        requires
            days >= 0,
    ;
}

/// A rebalance calendar starts at its start, steps by whole days, and stays
/// before its end, which is the present where none is given.
pub proof fn a_calendar_steps_by_days(
    start: Instant,
    end: Option<Instant>,
    now: Instant,
    every: int,
    t: int,
)
    requires
        every > 0,
    ensures
        ({
            let until = match end {
                Some(e) => e.nanos,
                None => now.nanos,
            };
            let c = rebalances(start, end, now, every);
            &&& c.len() > 0 <==> start.nanos < until
            &&& c.len() > 0 ==> c[0] == start
            &&& forall|k: int| 0 <= k < c.len() ==> start.nanos <= (#[trigger] c[k]).nanos < until
            &&& forall|k: int|
                0 <= k < c.len() ==> (#[trigger] c[k]).nanos == start.nanos + k * (every
                    * 86_400_000_000_000)
            &&& start.nanos <= t < until && (t - start.nanos) % (every * 86_400_000_000_000) == 0
                ==> exists|k: int| 0 <= k < c.len() && (#[trigger] c[k]).nanos == t
        }),
{
    let step = every * 86_400_000_000_000;
    assert(step > 0) by (nonlinear_arith)
        requires
            step == every * 86_400_000_000_000,
            every > 0,
    ;
    let until = horizon(end, now);
    calendar_is_complete(start, until, step, t);
    calendar_is_complete(start, until, step, start.nanos as int);
    let c = instants_between(start, until, step);
    assert(0 * step == 0);
    let gap = until.nanos - start.nanos;
    if start.nanos < until.nanos {
        let n = (gap + step - 1) / step;
        assert(n >= 1 && (n - 1) * step < gap) by (nonlinear_arith)
            requires
                step > 0,
                gap > 0,
                n == (gap + step - 1) / step,
        ;
        assert forall|k: int| 0 <= k < c.len() implies (#[trigger] c[k]).nanos == start.nanos + k
            * step by {
            assert(0 <= k * step <= (n - 1) * step) by (nonlinear_arith)
                requires
                    0 <= k <= n - 1,
                    step > 0,
            ;
        }
    }
}

/// A calendar so far ends where its own end or the present comes first.
pub proof fn a_calendar_so_far_has_passed(
    start: Instant,
    end: Option<Instant>,
    now: Instant,
    every: int,
    k: int,
)
    requires
        every > 0,
        0 <= k < rebalances_so_far(start, end, now, every).len(),
    ensures
        ({
            let t = rebalances_so_far(start, end, now, every)[k];
            &&& start.nanos <= t.nanos < now.nanos
            &&& end matches Some(e) ==> t.nanos < e.nanos
            &&& rebalances(start, end, now, every).contains(t)
        }),
{
    let step = every * DAY;
    assert(step > 0) by (nonlinear_arith)
        requires
            step == every * DAY,
            every > 0,
            DAY > 0,
    ;
    let until = horizon_so_far(end, now);
    let t = rebalances_so_far(start, end, now, every)[k];
    calendar_is_complete(start, until, step, 0);
    let gap = until.nanos - start.nanos;
    let n = (gap + step - 1) / step;
    assert(gap > 0);
    assert(0 <= k * step && k * step < gap) by (nonlinear_arith)
        requires
            step > 0,
            gap > 0,
            n == (gap + step - 1) / step,
            0 <= k <= n - 1,
    ;
    assert(t.nanos == start.nanos + k * step);
    assert((t.nanos - start.nanos) % step == 0) by (nonlinear_arith)
        requires
            t.nanos - start.nanos == k * step,
            step > 0,
    ;
    calendar_is_complete(start, horizon(end, now), step, t.nanos as int);
    let c = rebalances(start, end, now, every);
    let j = choose|j: int| 0 <= j < c.len() && (#[trigger] c[j]).nanos == t.nanos;
    assert(c[j] == t);
}

} // verus!
