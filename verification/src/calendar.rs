//! Dates and times of day as the timetable reads them: which of the two
//! alternating weeks a date falls in, which weekday it is, and which
//! period an hour belongs to.

use vstd::prelude::*;
use chrono::{Datelike, NaiveDate};
use crate::timetable::{read_error_message, read_error_text};

verus! {

/// The day number of the earliest date chrono represents
/// (1 January of year -262143, that is 262144 BCE; 1 January of year 1
/// is day 1).
pub open spec fn first_day_number() -> int {
    -95746129
}

/// The day number of the latest date chrono represents
/// (31 December 262142).
pub open spec fn last_day_number() -> int {
    95745399
}

/// Whether `n` numbers a date of the proleptic Gregorian calendar that
/// chrono can represent.
pub open spec fn in_calendar(n: int) -> bool {
    first_day_number() <= n <= last_day_number()
}

/// A calendar date, held as its day number in the proleptic Gregorian
/// calendar: 1 January of year 1 is day 1, each later day one more.
#[derive(Debug, Clone, Copy)]
pub struct Date {
    day_number: i32,
}

impl Date {
    #[verifier::type_invariant]
    spec fn representable(self) -> bool {
        in_calendar(self.day_number as int)
    }
}

impl View for Date {
    type V = int;

    closed spec fn view(&self) -> int {
        self.day_number as int
    }
}

impl Date {
    /// The date numbered `n`, when chrono can represent it.
    pub fn from_day_number(n: i32) -> (r: Option<Date>)
        ensures
            r is Some <==> in_calendar(n as int),
            r matches Some(d) ==> d@ == n as int,
    {
        if -95746129 <= n && n <= 95745399 {
            Some(Date { day_number: n })
        } else {
            None
        }
    }

    /// The day number of the date.
    pub fn day_number(&self) -> (n: i32)
        ensures
            n as int == self@,
            in_calendar(n as int),
    {
        proof {
            use_type_invariant(self);
        }
        self.day_number
    }
}

/// The days of the week.
#[derive(Debug, Clone, Copy, PartialEq, Eq, Structural)]
pub enum Weekday {
    Mon,
    Tue,
    Wed,
    Thu,
    Fri,
    Sat,
    Sun,
}

/// The weekday of day number `n`: day 1 (1 January of year 1) is a
/// Monday, and the weekdays repeat every seven days.
pub open spec fn weekday_of_day_number(n: int) -> Weekday {
    let r = (n - 1) % 7;
    if r == 0 {
        Weekday::Mon
    } else if r == 1 {
        Weekday::Tue
    } else if r == 2 {
        Weekday::Wed
    } else if r == 3 {
        Weekday::Thu
    } else if r == 4 {
        Weekday::Fri
    } else if r == 5 {
        Weekday::Sat
    } else {
        Weekday::Sun
    }
}

/// The column of a weekday in the timetable: Monday is 0, Sunday 6.
pub open spec fn weekday_column(w: Weekday) -> int {
    match w {
        Weekday::Mon => 0,
        Weekday::Tue => 1,
        Weekday::Wed => 2,
        Weekday::Thu => 3,
        Weekday::Fri => 4,
        Weekday::Sat => 5,
        Weekday::Sun => 6,
    }
}

/// The number of whole weeks in `days` days, rounded toward zero.
pub open spec fn whole_weeks(days: int) -> int {
    if days >= 0 {
        days / 7
    } else {
        -((-days) / 7)
    }
}

/// The day number of the date that chrono reads from `text` laid out by
/// the strftime-style `format`, or none when it reads no date.
pub uninterp spec fn parsed_day_number(text: Seq<char>, format: Seq<char>) -> Option<int>;

/// The message of the error chrono reports when it reads no date from
/// `text` laid out by `format`.
pub uninterp spec fn parse_failure_text(text: Seq<char>, format: Seq<char>) -> Seq<char>;

/// The layout of the file that records the first day of an A week:
/// year, month and day separated by slashes.
pub open spec fn a_week_format() -> Seq<char> {
    "%Y/%m/%d"@
}

/// Reads a date from `text` laid out by `format` and gives its day number,
/// or the message of the error.
///
/// Calls `chrono::NaiveDate::parse_from_str`; the date is turned into its
/// day number with `num_days_from_ce`, the error into its message with
/// `to_string`. Claimed: the outcome depends on the text and the format
/// alone (as named above), and a date that is read is one that chrono
/// represents. Which texts are read, and to which dates, is left to chrono
/// and not stated.
#[verifier::external_body]
fn parse_date(text: &str, format: &str) -> (r: Result<i32, String>)
    ensures
        match r {
            Ok(n) => parsed_day_number(text@, format@) == Some(n as int) && in_calendar(n as int),
            Err(e) => parsed_day_number(text@, format@) is None && e@ == parse_failure_text(
                text@,
                format@,
            ),
        },
{
    match NaiveDate::parse_from_str(text, format) {
        Ok(date) => Ok(date.num_days_from_ce()),
        Err(e) => Err(e.to_string()),
    }
}

/// The number of whole weeks from the date numbered `from` to the date
/// numbered `to`, rounded toward zero.
///
/// Builds both dates with `chrono::NaiveDate::from_num_days_from_ce_opt`,
/// subtracts them (`Sub` for `NaiveDate`, a `TimeDelta` of `to - from`
/// days) and calls `TimeDelta::num_weeks`, which divides the whole days by
/// seven, truncating. Both day numbers must be dates chrono represents.
#[verifier::external_body]
fn weeks_between(from: i32, to: i32) -> (weeks: i64)
    requires
        in_calendar(from as int),
        in_calendar(to as int),
    ensures
        weeks as int == whole_weeks(to - from),
{
    let from = NaiveDate::from_num_days_from_ce_opt(from).unwrap();
    let to = NaiveDate::from_num_days_from_ce_opt(to).unwrap();
    (to - from).num_weeks()
}

/// The weekday of the date numbered `n`.
///
/// Builds the date with `chrono::NaiveDate::from_num_days_from_ce_opt` and
/// converts what `Datelike::weekday` returns, variant for variant. Claimed:
/// day 1 (1 January of year 1) is a Monday and weekdays repeat every seven
/// days. `n` must be a date chrono represents.
#[verifier::external_body]
fn weekday_of(n: i32) -> (w: Weekday)
    requires
        in_calendar(n as int),
    ensures
        w == weekday_of_day_number(n as int),
{
    match NaiveDate::from_num_days_from_ce_opt(n).unwrap().weekday() {
        chrono::Weekday::Mon => Weekday::Mon,
        chrono::Weekday::Tue => Weekday::Tue,
        chrono::Weekday::Wed => Weekday::Wed,
        chrono::Weekday::Thu => Weekday::Thu,
        chrono::Weekday::Fri => Weekday::Fri,
        chrono::Weekday::Sat => Weekday::Sat,
        chrono::Weekday::Sun => Weekday::Sun,
    }
}

/// Removes the last character of a string, when there is one.
///
/// Calls `String::pop`, which std documents as removing and returning the
/// last character, or returning `None` on an empty string.
#[verifier::external_body]
fn pop_char(s: &mut String) -> (c: Option<char>)
    ensures
        old(s)@.len() == 0 ==> c is None && final(s)@ == old(s)@,
        old(s)@.len() > 0 ==> c == Some(old(s)@.last()) && final(s)@ == old(s)@.drop_last(),
{
    s.pop()
}

/// The text without its last character (the line end of a one-line file);
/// an empty text stays empty.
pub open spec fn without_last(text: Seq<char>) -> Seq<char> {
    if text.len() > 0 {
        text.drop_last()
    } else {
        text
    }
}

/// The first day of an A week from what reading the date gave: the date
/// with that day number, or the reading's error under the heading of a
/// timetable read error.
pub fn a_week_from_reading(reading: Result<i32, String>) -> (r: Result<Date, String>)
    requires
        reading matches Ok(n) ==> in_calendar(n as int),
    ensures
        match reading {
            Ok(n) => r matches Ok(d) && d@ == n as int,
            Err(e) => r matches Err(m) && m@ == read_error_text(e@),
        },
{
    match reading {
        Ok(n) => Ok(Date { day_number: n }),
        Err(e) => Err(read_error_message(e.as_str())),
    }
}

/// The first day of an A week, read from the contents of the file that
/// records it: one line `year/month/day` whose last character is dropped.
/// When no date can be read, the error message names the reason.
pub fn load_last_aweek(file_contents: String) -> (r: Result<Date, String>)
    ensures
        match r {
            Ok(d) => parsed_day_number(without_last(file_contents@), a_week_format()) == Some(d@),
            Err(m) => parsed_day_number(without_last(file_contents@), a_week_format()) is None
                && m@ == read_error_text(
                parse_failure_text(without_last(file_contents@), a_week_format()),
            ),
        },
{
    let mut contents = file_contents;
    let _ = pop_char(&mut contents);
    let reading = parse_date(contents.as_str(), "%Y/%m/%d");
    a_week_from_reading(reading)
}

/// The number of whole weeks from `date_1` to `date_2`, rounded toward
/// zero (negative when `date_2` is earlier).
pub fn num_of_weeks_since(date_1: Date, date_2: Date) -> (weeks: i64)
    ensures
        weeks as int == whole_weeks(date_2@ - date_1@),
{
    let from = date_1.day_number();
    let to = date_2.day_number();
    weeks_between(from, to)
}

/// A time of day: hour, minute and second.
#[derive(Debug, Clone, Copy)]
pub struct TimeOfDay {
    hour: u32,
    minute: u32,
    second: u32,
}

impl TimeOfDay {
    #[verifier::type_invariant]
    spec fn on_the_clock(self) -> bool {
        self.hour < 24 && self.minute < 60 && self.second < 60
    }
}

impl View for TimeOfDay {
    type V = (int, int, int);

    closed spec fn view(&self) -> (int, int, int) {
        (self.hour as int, self.minute as int, self.second as int)
    }
}

impl TimeOfDay {
    /// The time `hour:minute:second`, when it is on a 24-hour clock.
    pub fn new(hour: u32, minute: u32, second: u32) -> (r: Option<TimeOfDay>)
        ensures
            r is Some <==> (hour < 24 && minute < 60 && second < 60),
            r matches Some(t) ==> t@ == (hour as int, minute as int, second as int),
    {
        if hour < 24 && minute < 60 && second < 60 {
            Some(TimeOfDay { hour, minute, second })
        } else {
            None
        }
    }

    /// The hour, 0 to 23.
    pub fn hour(&self) -> (h: u32)
        ensures
            h as int == self@.0,
            h < 24,
    {
        proof {
            use_type_invariant(self);
        }
        self.hour
    }
}

/// The period taught during `hour`: the six periods start at 9, 10, 11,
/// 12, 13 and 14 o'clock; any other hour is outside them (-1).
pub open spec fn period_of_hour(hour: int) -> int {
    if 9 <= hour <= 14 {
        hour - 9
    } else {
        -1
    }
}

/// The periods are the hours from 9 to 14 o'clock, numbered from 0 in
/// order: an hour has a period exactly when it is one of them, its period
/// is then the hour less nine, and every other hour gives -1.
pub proof fn lemma_periods_are_the_school_hours(hour: int)
    ensures
        -1 <= period_of_hour(hour) < 6,
        period_of_hour(hour) >= 0 <==> 9 <= hour <= 14,
        period_of_hour(hour) >= 0 ==> hour == period_of_hour(hour) + 9,
        !(9 <= hour <= 14) ==> period_of_hour(hour) == -1,
{
}

/// The period under way at `time`, or -1 outside the school day.
pub fn get_period_from_time(time: TimeOfDay) -> (period: i8)
    ensures
        period as int == period_of_hour(time@.0),
{
    let hour = time.hour();
    match hour {
        9 => 0,
        10 => 1,
        11 => 2,
        12 => 3,
        13 => 4,
        14 => 5,
        _ => -1,
    }
}

/// The column of a weekday: Monday 0 to Sunday 6.
pub fn weekday_index(w: Weekday) -> (column: i32)
    ensures
        column as int == weekday_column(w),
{
    match w {
        Weekday::Mon => 0,
        Weekday::Tue => 1,
        Weekday::Wed => 2,
        Weekday::Thu => 3,
        Weekday::Fri => 4,
        Weekday::Sat => 5,
        Weekday::Sun => 6,
    }
}

/// Whether `today` falls in an A week, given the first day of an A week:
/// A and B weeks alternate, counted in whole weeks from that day.
pub open spec fn is_a_week_on(a_week: int, today: int) -> bool {
    whole_weeks(today - a_week) % 2 == 0
}

/// What the timetable highlights: whether the week shown is week A, and
/// the cell of the moment as (weekday column, period).
pub fn timetable_focus(a_week: Date, today: Date, now: TimeOfDay) -> (focus: (bool, (i32, i32)))
    ensures
        focus.0 == is_a_week_on(a_week@, today@),
        focus.1.0 as int == weekday_column(weekday_of_day_number(today@)),
        focus.1.1 as int == period_of_hour(now@.0),
{
    let weeks = num_of_weeks_since(a_week, today);
    let is_a_week = weeks % 2 == 0;
    let day = weekday_of(today.day_number());
    let column = weekday_index(day);
    let period = get_period_from_time(now);
    (is_a_week, (column, period as i32))
}

/// Weeks A and B alternate: from the first day of an A week onward, the
/// date seven days later is in the other kind of week.
pub proof fn lemma_weeks_alternate(a_week: int, today: int)
    requires
        a_week <= today,
    ensures
        is_a_week_on(a_week, today + 7) != is_a_week_on(a_week, today),
{
    let d = today - a_week;
    assert(whole_weeks(d) == d / 7);
    assert(whole_weeks(d + 7) == (d + 7) / 7);
    assert((d + 7) / 7 == d / 7 + 1) by (nonlinear_arith)
        requires
            d >= 0,
    ;
}

/// A and B weeks go by whole weeks from the first day of an A week: the
/// seven days from `a_week + 7 * k` (for `k` from 0 on) all get the same
/// answer, A exactly when `k` is even.
pub proof fn lemma_a_weeks_are_whole_weeks(a_week: int, k: int, r: int)
    requires
        k >= 0,
        0 <= r < 7,
    ensures
        is_a_week_on(a_week, a_week + 7 * k + r) == (k % 2 == 0),
{
    assert((7 * k + r) / 7 == k) by (nonlinear_arith)
        requires
            k >= 0,
            0 <= r < 7,
    ;
    assert(a_week + 7 * k + r - a_week == 7 * k + r);
    assert(whole_weeks(7 * k + r) == k);
}

/// Weekdays repeat: the date seven days later is the same weekday.
pub proof fn lemma_weekday_repeats(n: int)
    ensures
        weekday_of_day_number(n + 7) == weekday_of_day_number(n),
{
    assert((n + 7 - 1) % 7 == (n - 1) % 7) by (nonlinear_arith);
}

} // verus!
