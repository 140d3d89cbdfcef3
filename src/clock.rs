//! Wall-clock arithmetic: times of day, local moments, calendar dates, and
//! their text forms.
//!
//! A moment is a count of milliseconds on the local wall clock, counted from
//! midnight at the start of 1970-01-01; day `0` is that Thursday.

use vstd::prelude::*;
use crate::text::{
    digit_value, digits_at, is_digit, push_two_digits, two_digit_text, two_digit_value, two_digits_at,
};
use crate::weekday::{day_at, day_index, Weekday};
use vstd::string::StrSliceExecFns;

verus! {

/// Milliseconds in a day.
pub const DAY_MS: i64 = 86_400_000;

/// The latest moment handled (the last millisecond of the year 9999); the
/// earliest is its negation.
pub const MAX_MOMENT: i64 = 253_402_300_799_999;

/// Whole weeks of days added to a moment so that day arithmetic works on
/// non-negative numbers.
const SHIFT_DAYS: i64 = 2_999_997;

/// The Julian day number of 1970-01-01.
pub const UNIX_EPOCH_JULIAN_DAY: i64 = 2_440_588;

/// A moment within the handled range.
pub open spec fn moment_ok(ms: int) -> bool {
    -MAX_MOMENT <= ms <= MAX_MOMENT
}

/// The day that holds moment `ms`.
pub open spec fn day_of(ms: int) -> int {
    ms / (DAY_MS as int)
}

/// The milliseconds since midnight at moment `ms`.
pub open spec fn ms_of_day(ms: int) -> int {
    ms % (DAY_MS as int)
}

/// The weekday of day number `d`.
pub open spec fn weekday_of_day(d: int) -> Weekday {
    day_at(d + 3)
}

/// The weekday at moment `ms`.
pub open spec fn weekday_at(ms: int) -> Weekday {
    weekday_of_day(day_of(ms))
}

/// The moment at `time_ms` milliseconds into day `d`.
pub open spec fn moment_of(d: int, time_ms: int) -> int {
    d * DAY_MS + time_ms
}

/// A time of day, to the second.
#[derive(Debug, Clone, Copy, PartialEq, Eq, Structural)]
pub struct TimeOfDay {
    pub hour: u8,
    pub minute: u8,
    pub second: u8,
}

impl TimeOfDay {
    pub open spec fn wf(self) -> bool {
        self.hour < 24 && self.minute < 60 && self.second < 60
    }

    /// Milliseconds since midnight.
    pub open spec fn ms(self) -> int {
        ((self.hour as int * 60 + self.minute) * 60 + self.second) * 1000
    }

    /// The time `hour:minute:second`, if each lies in its range.
    pub fn from_hms(hour: u8, minute: u8, second: u8) -> (r: Option<Self>)
        ensures
            r is Some <==> (hour < 24 && minute < 60 && second < 60),
            r matches Some(t) ==> t.hour == hour && t.minute == minute && t.second == second,
    {
        if hour < 24 && minute < 60 && second < 60 {
            Some(TimeOfDay { hour, minute, second })
        } else {
            None
        }
    }

    /// Whether each field lies in its range, computed.
    pub fn is_valid(&self) -> (r: bool)
        ensures
            r == self.wf(),
    {
        self.hour < 24 && self.minute < 60 && self.second < 60
    }

    /// Milliseconds since midnight, computed.
    pub fn millis(&self) -> (r: i64)
        requires
            self.wf(),
        ensures
            r == self.ms(),
            0 <= r < DAY_MS,
    {
        ((self.hour as i64 * 60 + self.minute as i64) * 60 + self.second as i64) * 1000
    }
}

/// The text `HH:MM:SS` read as a time of day.
pub open spec fn hms_from_text(s: Seq<char>) -> Option<TimeOfDay> {
    if s.len() == 8 && digits_at(s, 0, 2) && s[2] == ':' && digits_at(s, 3, 2) && s[5] == ':'
        && digits_at(s, 6, 2) && two_digit_value(s, 0) < 24 && two_digit_value(s, 3) < 60
        && two_digit_value(s, 6) < 60 {
        Some(
            TimeOfDay {
                hour: two_digit_value(s, 0) as u8,
                minute: two_digit_value(s, 3) as u8,
                second: two_digit_value(s, 6) as u8,
            },
        )
    } else {
        None
    }
}

/// The text `HH:MM` read as a time of day on the whole minute.
pub open spec fn hm_from_text(s: Seq<char>) -> Option<TimeOfDay> {
    if s.len() == 5 && digits_at(s, 0, 2) && s[2] == ':' && digits_at(s, 3, 2)
        && two_digit_value(s, 0) < 24 && two_digit_value(s, 3) < 60 {
        Some(
            TimeOfDay {
                hour: two_digit_value(s, 0) as u8,
                minute: two_digit_value(s, 3) as u8,
                second: 0,
            },
        )
    } else {
        None
    }
}

/// The text `HH:MM:SS` or `HH:MM` read as a time of day.
pub open spec fn time_from_text(s: Seq<char>) -> Option<TimeOfDay> {
    match hms_from_text(s) {
        Some(t) => Some(t),
        None => hm_from_text(s),
    }
}

/// The text `HH:MM:SS` of a time of day.
pub open spec fn time_text(t: TimeOfDay) -> Seq<char> {
    two_digit_text(t.hour as int) + seq![':'] + two_digit_text(t.minute as int) + seq![':']
        + two_digit_text(t.second as int)
}

/// Reads a time of day written `HH:MM:SS`.
pub fn parse_time_seconds(s: &str) -> (r: Option<TimeOfDay>)
    ensures
        r == hms_from_text(s@),
        r matches Some(t) ==> t.wf(),
{
    let n = s.unicode_len();
    if n != 8 {
        return None;
    }
    let h = two_digits_at(s, 0);
    let m = two_digits_at(s, 3);
    let sec = two_digits_at(s, 6);
    if s.get_char(2) != ':' || s.get_char(5) != ':' {
        return None;
    }
    match (h, m, sec) {
        (Some(h), Some(m), Some(sec)) => {
            if h < 24 && m < 60 && sec < 60 {
                Some(TimeOfDay { hour: h, minute: m, second: sec })
            } else {
                None
            }
        },
        _ => None,
    }
}

/// Reads a time of day written `HH:MM:SS` or `HH:MM`.
pub fn parse_time(s: &str) -> (r: Option<TimeOfDay>)
    ensures
        r == time_from_text(s@),
        r matches Some(t) ==> t.wf(),
{
    match parse_time_seconds(s) {
        Some(t) => return Some(t),
        None => {},
    }
    let n = s.unicode_len();
    if n != 5 {
        return None;
    }
    let h = two_digits_at(s, 0);
    let m = two_digits_at(s, 3);
    if s.get_char(2) != ':' {
        return None;
    }
    match (h, m) {
        (Some(h), Some(m)) => {
            if h < 24 && m < 60 {
                Some(TimeOfDay { hour: h, minute: m, second: 0 })
            } else {
                None
            }
        },
        _ => None,
    }
}

/// Writes a time of day as `HH:MM:SS`.
pub fn format_time(t: &TimeOfDay) -> (r: String)
    requires
        t.wf(),
    ensures
        r@ == time_text(*t),
{
    let mut out = String::new();
    push_two_digits(&mut out, t.hour);
    out.append(":");
    push_two_digits(&mut out, t.minute);
    out.append(":");
    push_two_digits(&mut out, t.second);
    proof {
        reveal_strlit(":");
    }
    assert(out@ =~= time_text(*t));
    out
}

/// Writing a time of day and reading it back gives the same time.
pub proof fn lemma_time_text_round_trip(t: TimeOfDay)
    requires
        t.wf(),
    ensures
        hms_from_text(time_text(t)) == Some(t),
{
    let s = time_text(t);
    assert(s[0] == two_digit_text(t.hour as int)[0]);
    assert(s[1] == two_digit_text(t.hour as int)[1]);
    assert(s[3] == two_digit_text(t.minute as int)[0]);
    assert(s[4] == two_digit_text(t.minute as int)[1]);
    assert(s[6] == two_digit_text(t.second as int)[0]);
    assert(s[7] == two_digit_text(t.second as int)[1]);
    assert(digits_at(s, 0, 2));
    assert(digits_at(s, 3, 2));
    assert(digits_at(s, 6, 2));
}

/// A text that reads as a time `HH:MM:SS` is exactly what writing that time
/// gives.
pub proof fn lemma_text_time_round_trip(s: Seq<char>)
    requires
        hms_from_text(s) is Some,
    ensures
        time_text(hms_from_text(s)->0) == s,
{
    let t = hms_from_text(s)->0;
    assert(is_digit(s[0]) && is_digit(s[1]) && is_digit(s[3]) && is_digit(s[4]) && is_digit(s[6])
        && is_digit(s[7]));
    assert(time_text(t) =~= s);
}


/// The clocks that the controller reads on each step: the local wall clock
/// and the Unix clock in milliseconds, and a monotonic millisecond counter.
#[derive(Debug, Clone, Copy, PartialEq, Eq, Structural)]
pub struct Now {
    pub local: i64,
    pub unix: i64,
    pub monotonic: u64,
}

impl Now {
    pub open spec fn wf(self) -> bool {
        moment_ok(self.local as int)
    }

    /// Whether the local clock lies within the handled range, computed.
    pub fn is_valid(&self) -> (r: bool)
        ensures
            r == self.wf(),
    {
        -MAX_MOMENT <= self.local && self.local <= MAX_MOMENT
    }
}

/// The day that holds moment `ms`, computed.
pub fn day_number(ms: i64) -> (r: i64)
    requires
        moment_ok(ms as int),
    ensures
        r == day_of(ms as int),
        -3_000_000 < r < 3_000_000,
{
    let shifted = (ms as i128 + (SHIFT_DAYS as i128) * (DAY_MS as i128)) as u64;
    let d = shifted / (DAY_MS as u64);
    proof {
        assert(shifted as int == ms + SHIFT_DAYS * DAY_MS);
        vstd::arithmetic::div_mod::lemma_fundamental_div_mod(shifted as int, DAY_MS as int);
        vstd::arithmetic::div_mod::lemma_mod_bound(shifted as int, DAY_MS as int);
        vstd::arithmetic::div_mod::lemma_fundamental_div_mod(ms as int, DAY_MS as int);
        vstd::arithmetic::div_mod::lemma_mod_bound(ms as int, DAY_MS as int);
        let q = ms as int / (DAY_MS as int);
        let qs = shifted as int / (DAY_MS as int);
        assert(qs == q + SHIFT_DAYS) by (nonlinear_arith)
            requires
                shifted as int == DAY_MS * qs + shifted as int % (DAY_MS as int),
                ms as int == DAY_MS * q + ms as int % (DAY_MS as int),
                shifted as int == ms + SHIFT_DAYS * DAY_MS,
                0 <= shifted as int % (DAY_MS as int) < DAY_MS,
                0 <= ms as int % (DAY_MS as int) < DAY_MS,
        ;
    }
    d as i64 - SHIFT_DAYS
}

/// The milliseconds since midnight at moment `ms`, computed.
pub fn time_in_day(ms: i64) -> (r: i64)
    requires
        moment_ok(ms as int),
    ensures
        r == ms_of_day(ms as int),
        0 <= r < DAY_MS,
{
    let d = day_number(ms);
    proof {
        vstd::arithmetic::div_mod::lemma_fundamental_div_mod(ms as int, DAY_MS as int);
        vstd::arithmetic::div_mod::lemma_mod_bound(ms as int, DAY_MS as int);
    }
    ms - d * DAY_MS
}

/// The weekday at moment `ms`, computed.
pub fn weekday_of(ms: i64) -> (r: Weekday)
    requires
        moment_ok(ms as int),
    ensures
        r == weekday_at(ms as int),
{
    let d = day_number(ms);
    let i = ((d + SHIFT_DAYS + 3) % 7) as u8;
    proof {
        assert((d + SHIFT_DAYS + 3) % 7 == (d + 3) % 7) by (nonlinear_arith)
            requires SHIFT_DAYS == 7 * 428_571;
    }
    match i {
        0 => Weekday::Mon,
        1 => Weekday::Tue,
        2 => Weekday::Wed,
        3 => Weekday::Thu,
        4 => Weekday::Fri,
        5 => Weekday::Sat,
        _ => Weekday::Sun,
    }
}

/// Whether `y` is a leap year of the Gregorian calendar.
pub open spec fn is_leap_year(y: int) -> bool {
    y % 4 == 0 && (y % 100 != 0 || y % 400 == 0)
}

/// The number of days in month `m` (1 to 12) of year `y`.
pub open spec fn days_in_month(y: int, m: int) -> int {
    if m == 2 {
        if is_leap_year(y) {
            29
        } else {
            28
        }
    } else if m == 4 || m == 6 || m == 9 || m == 11 {
        30
    } else {
        31
    }
}

/// Whether year `y`, month `m`, day `d` is a date of the Gregorian calendar.
pub open spec fn valid_date(y: int, m: int, d: int) -> bool {
    1 <= m <= 12 && 1 <= d <= days_in_month(y, m)
}

/// The Julian day number of a date of the Gregorian calendar (year 0 or
/// later), by Fliegel and Van Flandern's formula; `a` is the usual
/// `(month - 14) / 12` rounded toward zero.
pub open spec fn julian_day_of(year: int, month: int, day: int) -> int {
    let a: int = if month <= 2 {
        -1
    } else {
        0
    };
    1461 * (year + 4800 + a) / 4 + 367 * (month - 2 - 12 * a) / 12 - 3 * ((year + 4900 + a) / 100) / 4 + day
        - 32075
}

/// Relies on `time::Date::from_calendar_date` (with `time::Month::try_from`
/// for the month number), which accepts exactly the dates of the Gregorian
/// calendar in its year range, and on `time::Date::to_julian_day`, which
/// gives the date's Julian day number (2000-01-01 is day 2 451 545).
#[verifier::external_body]
fn julian_day(year: i32, month: u8, day: u8) -> (r: Option<i32>)
    requires
        0 <= year <= 9999,
    ensures
        r is Some <==> valid_date(year as int, month as int, day as int),
        r matches Some(j) ==> j == julian_day_of(year as int, month as int, day as int),
{
    let month = match time::Month::try_from(month) {
        Ok(m) => m,
        Err(_) => return None,
    };
    match time::Date::from_calendar_date(year, month, day) {
        Ok(date) => Some(date.to_julian_day()),
        Err(_) => None,
    }
}

/// The text `YYYY-MM-DD` read as year, month and day numbers (not yet
/// checked against the calendar).
pub open spec fn date_fields_from_text(s: Seq<char>) -> Option<(int, int, int)> {
    if s.len() == 10 && digits_at(s, 0, 4) && s[4] == '-' && digits_at(s, 5, 2) && s[7] == '-'
        && digits_at(s, 8, 2) {
        Some((100 * two_digit_value(s, 0) + two_digit_value(s, 2), two_digit_value(s, 5), two_digit_value(s, 8)))
    } else {
        None
    }
}

/// The text `YYYY-MM-DD` read as a day number, when it names a date.
pub open spec fn day_from_text(s: Seq<char>) -> Option<int> {
    match date_fields_from_text(s) {
        Some((y, m, d)) => if valid_date(y, m, d) {
            Some(julian_day_of(y, m, d) - UNIX_EPOCH_JULIAN_DAY)
        } else {
            None
        },
        None => None,
    }
}

/// Reads a date written `YYYY-MM-DD` as its day number.
pub fn parse_date(s: &str) -> (r: Option<i64>)
    ensures
        r is Some == day_from_text(s@) is Some,
        r matches Some(d) ==> d == day_from_text(s@)->0 && -0x1_0000_0000 <= d <= 0x1_0000_0000,
{
    let n = s.unicode_len();
    if n != 10 {
        return None;
    }
    let hi = two_digits_at(s, 0);
    let lo = two_digits_at(s, 2);
    let m = two_digits_at(s, 5);
    let d = two_digits_at(s, 8);
    if s.get_char(4) != '-' || s.get_char(7) != '-' {
        return None;
    }
    match (hi, lo, m, d) {
        (Some(hi), Some(lo), Some(m), Some(d)) => {
            assert(digits_at(s@, 0, 4));
            let year = 100 * (hi as i32) + (lo as i32);
            match julian_day(year, m, d) {
                Some(j) => Some(j as i64 - UNIX_EPOCH_JULIAN_DAY),
                None => None,
            }
        },
        _ => {
            assert(!digits_at(s@, 0, 4) || !digits_at(s@, 5, 2) || !digits_at(s@, 8, 2));
            None
        },
    }
}

} // verus!
