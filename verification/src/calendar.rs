//! Dates and times of day. Moments are in seconds since the Unix epoch.
use vstd::prelude::*;
use chrono::{Datelike, Timelike};

use crate::number;
use crate::number::decimal_text;

verus! {

// ---------------------------------------------------------------------
// Moments in UTC
// ---------------------------------------------------------------------

/// The moments that a calendar date in UTC exists for: years -262143 to
/// 262142.
pub open spec fn representable(secs: i64) -> bool {
    -8_334_601_228_800 <= secs <= 8_210_266_876_799
}

/// The moments that an RFC 2822 date exists for: years 0 to 9999.
pub open spec fn rfc2822_representable(secs: i64) -> bool {
    -62_167_219_200 <= secs <= 253_402_300_799
}

/// See [`representable`].
pub fn is_representable(secs: i64) -> (r: bool)
    ensures
        r == representable(secs),
{
    -8_334_601_228_800 <= secs && secs <= 8_210_266_876_799
}

/// See [`rfc2822_representable`].
pub fn is_rfc2822_representable(secs: i64) -> (r: bool)
    ensures
        r == rfc2822_representable(secs),
{
    -62_167_219_200 <= secs && secs <= 253_402_300_799
}

/// `t` is the date and time that a clock in UTC shows at the moment `secs`.
pub open spec fn shows(t: LocalTime, secs: i64) -> bool {
    t.valid() && t.as_utc_seconds() <= secs < t.as_utc_seconds() + 60
}

/// The date and time that a clock in UTC shows at the moment `secs`.
pub open spec fn utc_time(secs: i64) -> LocalTime {
    choose|t: LocalTime| shows(t, secs)
}

/// A year with at least four digits; with its sign where it is none of the
/// years 0 to 9999.
pub open spec fn year_text(year: int) -> Seq<char> {
    let n: nat = if year < 0 {
        (-year) as nat
    } else {
        year as nat
    };
    let digits = if n < 10_000 {
        number::two_digits(n / 100) + number::two_digits(n % 100)
    } else {
        number::decimal(n)
    };
    if year < 0 {
        "-"@ + digits
    } else if year < 10_000 {
        digits
    } else {
        "+"@ + digits
    }
}

/// What the patterns `%Y-%m-%d %H:%M` and `%Y-%m-%d %H:%M %Z` render of a
/// moment: year, month, day, hour and minute in UTC, for the latter followed by
/// the name of the time zone.
pub open spec fn utc_text(secs: i64, pattern: Seq<char>) -> Seq<char> {
    let t = utc_time(secs);
    let text = year_text(t.year as int) + "-"@ + number::two_digits(t.month as nat) + "-"@
        + number::two_digits(t.day as nat) + " "@ + number::two_digits(t.hour as nat) + ":"@
        + number::two_digits(t.minute as nat);
    if pattern == "%Y-%m-%d %H:%M"@ {
        text
    } else {
        text + " UTC"@
    }
}

/// `chrono::DateTime::<Utc>::format`, on the moment `secs`, with one of the
/// patterns `%Y-%m-%d %H:%M` and `%Y-%m-%d %H:%M %Z`. The contract states what
/// the documentation of `chrono::format::strftime` says of their specifiers.
/// Every representable moment has a value for each, so that rendering cannot
/// fail.
#[verifier::external_body]
pub(crate) fn format_utc(secs: i64, pattern: &str) -> (r: String)
    requires
        representable(secs),
        pattern@ == "%Y-%m-%d %H:%M"@ || pattern@ == "%Y-%m-%d %H:%M %Z"@,
    ensures
        r@ == utc_text(secs, pattern@),
{
    chrono::DateTime::<chrono::Utc>::from_timestamp(secs, 0).unwrap().format(pattern).to_string()
}

/// A moment as in `Tue, 1 Jul 2003 10:52:37 +0000`.
pub open spec fn rfc2822_text(secs: i64) -> Seq<char> {
    let t = utc_time(secs);
    weekday_name(t.day_count()) + ", "@ + number::decimal(t.day as nat) + " "@ + month_name(
        t.month as int,
    ) + " "@ + year_text(t.year as int) + " "@ + number::two_digits(t.hour as nat) + ":"@
        + number::two_digits(t.minute as nat) + ":"@ + number::two_digits(
        (secs as int % 60) as nat,
    ) + " +0000"@
}

/// `chrono::DateTime::<Utc>::to_rfc2822`, on the moment `secs`: weekday, day
/// without padding, month, year with four digits, time of day and an offset of
/// zero. Years outside 0 to 9999 have no such text.
#[verifier::external_body]
pub(crate) fn format_rfc2822(secs: i64) -> (r: String)
    requires
        rfc2822_representable(secs),
    ensures
        r@ == rfc2822_text(secs),
{
    chrono::DateTime::<chrono::Utc>::from_timestamp(secs, 0).unwrap().to_rfc2822()
}

// ---------------------------------------------------------------------
// Local calendar dates
// ---------------------------------------------------------------------

/// A calendar date and a time of day, to the minute.
#[derive(Debug, Clone, Copy, PartialEq, Eq, Structural)]
pub struct LocalTime {
    pub year: i32,
    pub month: u32,
    pub day: u32,
    pub hour: u32,
    pub minute: u32,
}

/// `year` has a 29th of February.
pub open spec fn is_leap(year: int) -> bool {
    year % 4 == 0 && (year % 100 != 0 || year % 400 == 0)
}

/// How many days precede the month in a year that is not a leap year.
pub open spec fn days_before_month(month: int) -> int {
    if month <= 1 {
        0
    } else if month == 2 {
        31
    } else if month == 3 {
        59
    } else if month == 4 {
        90
    } else if month == 5 {
        120
    } else if month == 6 {
        151
    } else if month == 7 {
        181
    } else if month == 8 {
        212
    } else if month == 9 {
        243
    } else if month == 10 {
        273
    } else if month == 11 {
        304
    } else if month == 12 {
        334
    } else {
        365
    }
}

/// How many days the month has.
pub open spec fn days_in_month(year: int, month: int) -> int {
    days_before_month(month + 1) - days_before_month(month) + if month == 2 && is_leap(year) {
        1int
    } else {
        0int
    }
}

/// The number of a date in the proleptic Gregorian calendar, in which January
/// 1 of year 1 is day 1.
pub open spec fn day_number(year: int, month: int, day: int) -> int {
    let before = year - 1;
    365 * before + before / 4 - before / 100 + before / 400 + days_before_month(month)
        + if month > 2 && is_leap(year) {
        1int
    } else {
        0int
    } + day
}

/// The date after a date: its year, month and day.
pub open spec fn next_date(year: int, month: int, day: int) -> (int, int, int) {
    if day < days_in_month(year, month) {
        (year, month, day + 1)
    } else if month < 12 {
        (year, month + 1, 1)
    } else {
        (year + 1, 1, 1)
    }
}

/// The number of a date is one more than that of the day before it, across
/// months, years and leap days.
pub proof fn law_days_are_numbered_in_order(year: int, month: int, day: int)
    requires
        1 <= month <= 12,
        1 <= day <= days_in_month(year, month),
    ensures
        ({
            let next = next_date(year, month, day);
            day_number(next.0, next.1, next.2) == day_number(year, month, day) + 1
        }),
{
}

impl LocalTime {
    /// The date exists, in the years that `chrono` knows, and so does the time
    /// of day.
    pub open spec fn valid(self) -> bool {
        &&& -262_143 <= self.year <= 262_142
        &&& 1 <= self.month <= 12
        &&& 1 <= self.day <= days_in_month(self.year as int, self.month as int)
        &&& self.hour < 24
        &&& self.minute < 60
    }

    /// See [`day_number`].
    pub open spec fn day_count(self) -> int {
        day_number(self.year as int, self.month as int, self.day as int)
    }

    /// The moment at which a clock in UTC shows this time.
    pub open spec fn as_utc_seconds(self) -> int {
        (self.day_count() - 719_163) * 86_400 + self.hour * 3600 + self.minute * 60
    }
}

/// In order, the days of a year follow the days of every year before it.
proof fn lemma_years_follow(year: int, month: int, day: int, later: int)
    requires
        1 <= month <= 12,
        1 <= day <= days_in_month(year, month),
        year < later,
    ensures
        day_number(year, 1, 1) <= day_number(year, month, day) < day_number(later, 1, 1),
{
    let a = year;
    let b = later - 1;
    assert(a + 400 * ((b - a) / 400) <= b);
    assert(365 * b + b / 4 - b / 100 + b / 400 >= 365 * a + a / 4 - a / 100 + a / 400);
    law_days_are_numbered_in_order(year, 12, 31);
}

/// Two dates with the same number are the same date.
proof fn lemma_date_of_number(y1: int, m1: int, d1: int, y2: int, m2: int, d2: int)
    requires
        1 <= m1 <= 12,
        1 <= d1 <= days_in_month(y1, m1),
        1 <= m2 <= 12,
        1 <= d2 <= days_in_month(y2, m2),
        day_number(y1, m1, d1) == day_number(y2, m2, d2),
    ensures
        y1 == y2,
        m1 == m2,
        d1 == d2,
{
    if y1 < y2 {
        lemma_years_follow(y1, m1, d1, y2);
        lemma_years_follow(y2, m2, d2, y2 + 1);
    } else if y2 < y1 {
        lemma_years_follow(y2, m2, d2, y1);
        lemma_years_follow(y1, m1, d1, y1 + 1);
    }
}

/// Every number in the range of the calendar is the number of a date.
proof fn lemma_number_has_date(n: int) -> (r: (int, int, int))
    requires
        day_number(-262_143, 1, 1) <= n < day_number(262_143, 1, 1),
    ensures
        -262_143 <= r.0 <= 262_142,
        1 <= r.1 <= 12,
        1 <= r.2 <= days_in_month(r.0, r.1),
        day_number(r.0, r.1, r.2) == n,
    decreases n - day_number(-262_143, 1, 1),
{
    if n == day_number(-262_143, 1, 1) {
        (-262_143, 1, 1)
    } else {
        let before = lemma_number_has_date(n - 1);
        law_days_are_numbered_in_order(before.0, before.1, before.2);
        next_date(before.0, before.1, before.2)
    }
}

/// At every moment of the calendar a clock in UTC shows one date and time.
pub proof fn law_a_moment_has_one_time(secs: i64)
    requires
        representable(secs),
    ensures
        shows(utc_time(secs), secs),
        forall|t: LocalTime| shows(t, secs) ==> t == utc_time(secs),
{
    let days = secs as int / 86_400;
    let rest = secs as int % 86_400;
    let (year, month, day) = lemma_number_has_date(days + 719_163);
    let t = LocalTime {
        year: year as i32,
        month: month as u32,
        day: day as u32,
        hour: (rest / 3600) as u32,
        minute: (rest % 3600 / 60) as u32,
    };
    assert(shows(t, secs));
    let u = utc_time(secs);
    assert forall|t: LocalTime| shows(t, secs) implies t == u by {
        lemma_same_time(t, u, secs);
    }
}

/// Two times that a clock shows at one moment are the same.
proof fn lemma_same_time(t: LocalTime, u: LocalTime, secs: i64)
    requires
        shows(t, secs),
        shows(u, secs),
    ensures
        t == u,
{
    assert(t.day_count() - 719_163 == secs as int / 86_400);
    assert(u.day_count() - 719_163 == secs as int / 86_400);
    lemma_date_of_number(
        t.year as int,
        t.month as int,
        t.day as int,
        u.year as int,
        u.month as int,
        u.day as int,
    );
}

/// The moments that a date on the machine's clock can be shown for, whatever
/// its time zone: a day less at either end than [`representable`].
pub open spec fn locally_representable(secs: i64) -> bool {
    -8_334_601_142_400 <= secs <= 8_210_266_790_399
}

/// See [`locally_representable`].
pub fn is_locally_representable(secs: i64) -> (r: bool)
    ensures
        r == locally_representable(secs),
{
    -8_334_601_142_400 <= secs && secs <= 8_210_266_790_399
}

/// `chrono::DateTime::with_timezone` with `chrono::Local`, on the moment
/// `secs`. Which time zone the machine is in is not known here; its offset
/// from UTC is under a day. The result is a valid date and time.
#[verifier::external_body]
pub(crate) fn local_time(secs: i64) -> (r: LocalTime)
    requires
        locally_representable(secs),
    ensures
        r.valid(),
        secs - 86_460 < r.as_utc_seconds() < secs + 86_400,
{
    let utc = chrono::DateTime::<chrono::Utc>::from_timestamp(secs, 0).unwrap();
    let t = utc.with_timezone(&chrono::Local).naive_local();
    LocalTime {
        year: t.year(),
        month: t.month(),
        day: t.day(),
        hour: t.hour(),
        minute: t.minute(),
    }
}

/// The three-letter name of a month.
pub open spec fn month_name(month: int) -> Seq<char> {
    if month == 1 {
        "Jan"@
    } else if month == 2 {
        "Feb"@
    } else if month == 3 {
        "Mar"@
    } else if month == 4 {
        "Apr"@
    } else if month == 5 {
        "May"@
    } else if month == 6 {
        "Jun"@
    } else if month == 7 {
        "Jul"@
    } else if month == 8 {
        "Aug"@
    } else if month == 9 {
        "Sep"@
    } else if month == 10 {
        "Oct"@
    } else if month == 11 {
        "Nov"@
    } else {
        "Dec"@
    }
}

/// The three-letter name of the weekday of a day number; day 1 is a Monday.
pub open spec fn weekday_name(day_number: int) -> Seq<char> {
    let w = day_number % 7;
    if w == 1 {
        "Mon"@
    } else if w == 2 {
        "Tue"@
    } else if w == 3 {
        "Wed"@
    } else if w == 4 {
        "Thu"@
    } else if w == 5 {
        "Fri"@
    } else if w == 6 {
        "Sat"@
    } else {
        "Sun"@
    }
}

/// What the patterns `%H:%M`, `%a`, `%b %-d` and `%b` render of a time: hour
/// and minute with two digits each, the weekday, the month and the day
/// without padding, the month.
pub open spec fn rendered(t: LocalTime, pattern: Seq<char>) -> Seq<char> {
    if pattern == "%H:%M"@ {
        number::two_digits(t.hour as nat) + ":"@ + number::two_digits(t.minute as nat)
    } else if pattern == "%a"@ {
        weekday_name(t.day_count())
    } else if pattern == "%b %-d"@ {
        month_name(t.month as int) + " "@ + number::decimal(t.day as nat)
    } else {
        month_name(t.month as int)
    }
}

/// `chrono::NaiveDateTime::format`, on a date and time that exist, with one of
/// the patterns `%H:%M`, `%a`, `%b %-d` and `%b`. The contract states what the
/// documentation of `chrono::format::strftime` says of their specifiers.
#[verifier::external_body]
pub(crate) fn format_local(t: &LocalTime, pattern: &str) -> (r: String)
    requires
        t.valid(),
        pattern@ == "%H:%M"@ || pattern@ == "%a"@ || pattern@ == "%b %-d"@ || pattern@ == "%b"@,
    ensures
        r@ == rendered(*t, pattern@),
{
    let date = chrono::NaiveDate::from_ymd_opt(t.year, t.month, t.day).unwrap();
    date.and_hms_opt(t.hour, t.minute, 0).unwrap().format(pattern).to_string()
}

/// 400 years hold 146097 days, so that a shift by 400000 years keeps the place
/// of a year among the leap years.
proof fn lemma_shifted_years(before: int)
    ensures
        (before + 400_000) / 4 == before / 4 + 100_000,
        (before + 400_000) / 100 == before / 100 + 4_000,
        (before + 400_000) / 400 == before / 400 + 1_000,
        (before + 400_000) % 4 == before % 4,
        (before + 400_000) % 100 == before % 100,
        (before + 400_000) % 400 == before % 400,
{
}

/// Does `year` have a 29th of February?
fn leap(year: i64) -> (r: bool)
    requires
        -300_000 <= year <= 300_000,
    ensures
        r == is_leap(year as int),
{
    let y: u64 = (year + 400_000) as u64;
    proof {
        lemma_shifted_years(year as int);
    }
    y % 4 == 0 && (y % 100 != 0 || y % 400 == 0)
}

/// How many days precede the month in a year that is not a leap year.
fn month_start(month: u32) -> (r: i64)
    requires
        1 <= month <= 12,
    ensures
        r == days_before_month(month as int),
{
    if month == 1 {
        0
    } else if month == 2 {
        31
    } else if month == 3 {
        59
    } else if month == 4 {
        90
    } else if month == 5 {
        120
    } else if month == 6 {
        151
    } else if month == 7 {
        181
    } else if month == 8 {
        212
    } else if month == 9 {
        243
    } else if month == 10 {
        273
    } else if month == 11 {
        304
    } else {
        334
    }
}

/// How many days precede the year that follows `before` whole years.
fn year_start(before: i64) -> (r: i64)
    requires
        -300_000 <= before <= 300_000,
    ensures
        r == 365 * before + before as int / 4 - before as int / 100 + before as int / 400,
        -200_000_000 <= r <= 200_000_000,
{
    let b: u64 = (before + 400_000) as u64;
    proof {
        lemma_shifted_years(before as int);
    }
    let days: u64 = 365 * b + b / 4 - b / 100 + b / 400;
    days as i64 - 146_097_000
}

/// See [`day_number`].
pub fn day_count(t: &LocalTime) -> (r: i64)
    requires
        t.valid(),
    ensures
        r == t.day_count(),
        -300_000_000 <= r <= 300_000_000,
{
    let before: i64 = t.year as i64 - 1;
    let whole: i64 = year_start(before);
    let month_days: i64 = month_start(t.month);
    let leap_day: i64 = if t.month > 2 && leap(t.year as i64) {
        1
    } else {
        0
    };
    whole + month_days + leap_day + t.day as i64
}

// ---------------------------------------------------------------------
// The date column
// ---------------------------------------------------------------------

/// The last two digits of a year; a year before year 0 keeps its sign.
pub open spec fn short_year(year: int) -> Seq<char> {
    if year < 0 {
        let r = (-year) % 100;
        if r == 0 {
            number::two_digits(0)
        } else {
            "-"@ + number::decimal(r as nat)
        }
    } else {
        number::two_digits((year % 100) as nat)
    }
}

/// How the date column shows `sent`, seen from `now`: the time of day for
/// today, `yest` for yesterday, the weekday for two to six days ago, month and
/// day within the same year, else the month and the short year.
pub open spec fn relative_date_text(sent: LocalTime, now: LocalTime) -> Seq<char> {
    let days = now.day_count() - sent.day_count();
    if days == 0 {
        rendered(sent, "%H:%M"@)
    } else if days == 1 {
        "yest"@
    } else if 2 <= days < 7 {
        rendered(sent, "%a"@)
    } else if sent.year == now.year {
        rendered(sent, "%b %-d"@)
    } else {
        rendered(sent, "%b"@) + " '"@ + short_year(sent.year as int)
    }
}

/// See [`relative_date_text`].
pub fn relative_date(sent: &LocalTime, now: &LocalTime) -> (r: String)
    requires
        sent.valid(),
        now.valid(),
    ensures
        r@ == relative_date_text(*sent, *now),
{
    let days: i64 = day_count(now) - day_count(sent);
    if days == 0 {
        return format_local(sent, "%H:%M");
    }
    if days == 1 {
        return "yest".to_owned();
    }
    if 2 <= days && days < 7 {
        return format_local(sent, "%a");
    }
    if sent.year == now.year {
        return format_local(sent, "%b %-d");
    }
    let mut r = format_local(sent, "%b");
    r.append(" '");
    let y: i64 = sent.year as i64;
    if y < 0 {
        let m: u64 = ((-y) % 100) as u64;
        if m == 0 {
            r.append("00");
            proof {
                reveal_strlit("00");
                assert("00"@ =~= number::two_digits(0));
            }
        } else {
            r.append("-");
            let d = decimal_text(m);
            r.append(&d);
            assert(r@ =~= rendered(*sent, "%b"@) + " '"@ + short_year(y as int));
        }
    } else {
        let m: u64 = (y % 100) as u64;
        if m < 10 {
            r.push('0');
        }
        let d = decimal_text(m);
        r.append(&d);
        assert(r@ =~= rendered(*sent, "%b"@) + " '"@ + short_year(y as int));
    }
    r
}

/// Renders the moment `sent` for the date column, seen from the moment `now`.
/// Both are read on the machine's own clock and calendar, so that the day
/// changes at the user's midnight.
pub fn format_relative_date(sent: i64, now: i64) -> (r: String)
    requires
        locally_representable(sent),
        locally_representable(now),
    ensures
        exists|w: LocalTime, n: LocalTime|
            #![trigger relative_date_text(w, n)]
            w.valid() && n.valid() && sent - 86_460 < w.as_utc_seconds() < sent + 86_400 && now
                - 86_460 < n.as_utc_seconds() < now + 86_400 && r@ == relative_date_text(w, n),
{
    let w = local_time(sent);
    let n = local_time(now);
    relative_date(&w, &n)
}

// ---------------------------------------------------------------------
// How dates are written
// ---------------------------------------------------------------------

/// The calendar is the Gregorian one: a month has as many days as it has, and
/// every fourth year a leap day, but for the centuries that no four hundred
/// divides. Its first day is January 1 of year 1.
pub proof fn law_the_calendar_is_gregorian(year: int)
    ensures
        day_number(1, 1, 1) == 1,
        day_number(1970, 1, 1) == 719_163,
        days_in_month(year, 1) == 31,
        days_in_month(year, 2) == if year % 400 == 0 || (year % 4 == 0 && year % 100 != 0) {
            29int
        } else {
            28int
        },
        days_in_month(year, 3) == 31,
        days_in_month(year, 4) == 30,
        days_in_month(year, 5) == 31,
        days_in_month(year, 6) == 30,
        days_in_month(year, 7) == 31,
        days_in_month(year, 8) == 31,
        days_in_month(year, 9) == 30,
        days_in_month(year, 10) == 31,
        days_in_month(year, 11) == 30,
        days_in_month(year, 12) == 31,
{
}

/// The weekdays follow each other, and January 1 of year 1 is a Monday.
pub proof fn law_weekdays_follow_each_other(n: int)
    ensures
        weekday_name(n + 7) == weekday_name(n),
        weekday_name(7 * n + 1) == "Mon"@,
        weekday_name(7 * n + 2) == "Tue"@,
        weekday_name(7 * n + 3) == "Wed"@,
        weekday_name(7 * n + 4) == "Thu"@,
        weekday_name(7 * n + 5) == "Fri"@,
        weekday_name(7 * n + 6) == "Sat"@,
        weekday_name(7 * n + 7) == "Sun"@,
{
}

/// Each month has its name.
pub proof fn law_months_have_names()
    ensures
        month_name(1) == "Jan"@,
        month_name(2) == "Feb"@,
        month_name(3) == "Mar"@,
        month_name(4) == "Apr"@,
        month_name(5) == "May"@,
        month_name(6) == "Jun"@,
        month_name(7) == "Jul"@,
        month_name(8) == "Aug"@,
        month_name(9) == "Sep"@,
        month_name(10) == "Oct"@,
        month_name(11) == "Nov"@,
        month_name(12) == "Dec"@,
{
}

/// The date column shows the time of what came today, `yest` for the day
/// before, the weekday within a week, month and day within the year, and else
/// month and year.
pub proof fn law_the_nearer_the_finer(sent: LocalTime, now: LocalTime)
    ensures
        ({
            let days = now.day_count() - sent.day_count();
            let shown = relative_date_text(sent, now);
            &&& days == 0 ==> shown == number::two_digits(sent.hour as nat) + ":"@
                + number::two_digits(sent.minute as nat)
            &&& days == 1 ==> shown == "yest"@
            &&& 2 <= days <= 6 ==> shown == weekday_name(sent.day_count())
            &&& (days < 0 || days > 6) && sent.year == now.year ==> shown == month_name(
                sent.month as int,
            ) + " "@ + number::decimal(sent.day as nat)
            &&& (days < 0 || days > 6) && sent.year != now.year && sent.year >= 0 ==> shown
                == month_name(sent.month as int) + " '"@ + number::two_digits(
                (sent.year % 100) as nat,
            )
        }),
{
    reveal_strlit("%H:%M");
    reveal_strlit("%a");
    reveal_strlit("%b %-d");
    reveal_strlit("%b");
    assert("%H:%M"@[1] == 'H');
    assert("%a"@[1] == 'a');
    assert("%b %-d"@.len() == 6);
    assert("%b"@.len() == 2);
}

/// Years are written with four digits that read back as the year.
pub proof fn law_years_are_written_in_full(year: nat)
    requires
        year < 10_000,
    ensures
        year_text(year as int).len() == 4,
        number::unsigned_value(year_text(year as int)) == Some(year),
{
    let a = number::two_digits(year / 100);
    let b = number::two_digits(year % 100);
    number::law_numerals_read_back(year / 100);
    number::law_numerals_read_back(year % 100);
    let t = a + b;
    assert(year_text(year as int) == t);
    assert(a[0] != '+' && b[0] != '+');
    assert forall|i: int| 0 <= i < t.len() implies '0' <= #[trigger] t[i] <= '9' by {
        if i < 2 {
            assert(t[i] == a[i]);
        } else {
            assert(t[i] == b[i - 2]);
        }
    }
    assert(t.drop_last() =~= a.push(b[0]));
    assert(t.drop_last().drop_last() =~= a);
    assert(b.drop_last() =~= seq![b[0]]);
    assert(b.drop_last().drop_last() =~= Seq::<char>::empty());
    assert(number::digits_value(Seq::<char>::empty()) == 0);
    assert(number::digits_value(b) == number::digits_value(b.drop_last()) * 10 + (b[1] as u32
        - 48) as nat);
    assert(number::digits_value(b.drop_last()) == (b[0] as u32 - 48) as nat);
    assert(number::digits_value(a.push(b[0])) == number::digits_value(a) * 10 + (b[0] as u32
        - 48) as nat);
    assert(number::digits_value(t) == number::digits_value(a) * 100 + number::digits_value(b));
}

/// A moment is written by the date and time that a clock in UTC shows, from the
/// year down to the minute.
pub proof fn law_moments_are_written_in_order(t: LocalTime, secs: i64)
    requires
        representable(secs),
        shows(t, secs),
    ensures
        utc_text(secs, "%Y-%m-%d %H:%M"@) == year_text(t.year as int) + "-"@ + number::two_digits(
            t.month as nat,
        ) + "-"@ + number::two_digits(t.day as nat) + " "@ + number::two_digits(t.hour as nat)
            + ":"@ + number::two_digits(t.minute as nat),
        utc_text(secs, "%Y-%m-%d %H:%M %Z"@) == utc_text(secs, "%Y-%m-%d %H:%M"@) + " UTC"@,
{
    law_a_moment_has_one_time(secs);
    reveal_strlit("%Y-%m-%d %H:%M");
    reveal_strlit("%Y-%m-%d %H:%M %Z");
    assert("%Y-%m-%d %H:%M"@.len() == 14);
    assert("%Y-%m-%d %H:%M %Z"@.len() == 17);
}

} // verus!
