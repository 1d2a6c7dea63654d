//! Calendar dates as plain values: validity on the proleptic Gregorian
//! calendar, the fixed `YYYY-MM-DD` text form used by the relational
//! backend, and calendar-day addition delegated to an outside calendar
//! implementation.
use chrono::Datelike;
use vstd::prelude::*;

verus! {

/// A civil date held as plain numbers. The engine's own logic reads and
/// writes these fields; only calendar-day addition is delegated outside.
#[derive(Clone, Copy, Debug, PartialEq, Eq, Structural)]
pub struct Date {
    pub year: i32,
    pub month: u8,
    pub day: u8,
}

/// Gregorian leap-year rule.
pub open spec fn is_leap_year(y: int) -> bool {
    (y % 4 == 0 && y % 100 != 0) || y % 400 == 0
}

/// Days in a month of the Gregorian calendar.
pub open spec fn spec_days_in_month(y: int, m: int) -> int {
    if m == 2 {
        if is_leap_year(y) {
            29
        } else {
            28
        }
    } else if m == 4 || m == 6 || m == 9 || m == 11 {
        30
    } else {
        31
    }
}

impl Date {
    /// A date the engine accepts: a real calendar date whose year has
    /// exactly four digits, so that the text form is fixed-width.
    pub open spec fn valid(self) -> bool {
        &&& 1000 <= self.year <= 9999
        &&& 1 <= self.month <= 12
        &&& 1 <= self.day <= spec_days_in_month(self.year as int, self.month as int)
    }

    /// Runtime check of `valid`.
    pub fn is_valid(&self) -> (r: bool)
        ensures
            r == self.valid(),
    {
        1000 <= self.year && self.year <= 9999 && 1 <= self.month && self.month <= 12
            && 1 <= self.day && self.day as u32 <= days_in_month(self.year, self.month)
    }
}

/// Runtime companion of `spec_days_in_month`.
pub fn days_in_month(y: i32, m: u8) -> (r: u32)
    ensures
        r == spec_days_in_month(y as int, m as int),
{
    if m == 2 {
        if (y % 4 == 0 && y % 100 != 0) || y % 400 == 0 {
            29
        } else {
            28
        }
    } else if m == 4 || m == 6 || m == 9 || m == 11 {
        30
    } else {
        31
    }
}

/// The character for one decimal digit.
pub open spec fn digit_char(d: int) -> char {
    if d == 0 {
        '0'
    } else if d == 1 {
        '1'
    } else if d == 2 {
        '2'
    } else if d == 3 {
        '3'
    } else if d == 4 {
        '4'
    } else if d == 5 {
        '5'
    } else if d == 6 {
        '6'
    } else if d == 7 {
        '7'
    } else if d == 8 {
        '8'
    } else {
        '9'
    }
}

/// The numeric value of a digit character.
pub open spec fn digit_val(c: char) -> int {
    c as int - 48
}

/// Whether a character is a decimal digit.
pub open spec fn is_digit(c: char) -> bool {
    48 <= c as int <= 57
}

/// `digit_char` and `digit_val` invert each other on single digits.
pub proof fn lemma_digit_char_val(d: int)
    requires
        0 <= d < 10,
    ensures
        is_digit(digit_char(d)),
        digit_val(digit_char(d)) == d,
{
}

/// One-character string for one decimal digit.
pub(crate) fn digit_str(d: u32) -> (r: &'static str)
    requires
        d < 10,
    ensures
        r@ =~= seq![digit_char(d as int)],
{
    proof {
        reveal_strlit("0");
        reveal_strlit("1");
        reveal_strlit("2");
        reveal_strlit("3");
        reveal_strlit("4");
        reveal_strlit("5");
        reveal_strlit("6");
        reveal_strlit("7");
        reveal_strlit("8");
        reveal_strlit("9");
    }
    match d {
        0 => "0",
        1 => "1",
        2 => "2",
        3 => "3",
        4 => "4",
        5 => "5",
        6 => "6",
        7 => "7",
        8 => "8",
        _ => "9",
    }
}

/// The ten characters of `d` in the fixed `YYYY-MM-DD` form.
pub open spec fn spec_format_date(d: Date) -> Seq<char> {
    let y = d.year as int;
    let m = d.month as int;
    let dd = d.day as int;
    seq![
        digit_char(y / 1000),
        digit_char((y % 1000) / 100),
        digit_char((y % 1000) % 100 / 10),
        digit_char((y % 1000) % 100 % 10),
        '-',
        digit_char(m / 10),
        digit_char(m % 10),
        '-',
        digit_char(dd / 10),
        digit_char(dd % 10),
    ]
}

/// Renders a valid date in the fixed `YYYY-MM-DD` form.
pub fn format_date(d: &Date) -> (r: String)
    requires
        d.valid(),
    ensures
        r@ == spec_format_date(*d),
{
    let y = d.year as u32;
    let m = d.month as u32;
    let dd = d.day as u32;
    let mut s = String::new();
    s.append(digit_str(y / 1000));
    s.append(digit_str((y % 1000) / 100));
    s.append(digit_str((y % 1000) % 100 / 10));
    s.append(digit_str((y % 1000) % 100 % 10));
    s.append("-");
    s.append(digit_str(m / 10));
    s.append(digit_str(m % 10));
    s.append("-");
    s.append(digit_str(dd / 10));
    s.append(digit_str(dd % 10));
    proof {
        reveal_strlit("-");
        assert(s@ =~= spec_format_date(*d));
    }
    s
}

/// What parsing the fixed `YYYY-MM-DD` form yields: `Some` exactly on
/// ten-character texts with digits and dashes in place that name a valid
/// calendar date.
pub open spec fn spec_parse_date(s: Seq<char>) -> Option<Date> {
    if s.len() == 10 && s[4] == '-' && s[7] == '-' && is_digit(s[0]) && is_digit(s[1]) && is_digit(
        s[2],
    ) && is_digit(s[3]) && is_digit(s[5]) && is_digit(s[6]) && is_digit(s[8]) && is_digit(s[9]) {
        let y = digit_val(s[0]) * 1000 + digit_val(s[1]) * 100 + digit_val(s[2]) * 10 + digit_val(
            s[3],
        );
        let m = digit_val(s[5]) * 10 + digit_val(s[6]);
        let dd = digit_val(s[8]) * 10 + digit_val(s[9]);
        let d = Date { year: y as i32, month: m as u8, day: dd as u8 };
        if d.valid() {
            Some(d)
        } else {
            None
        }
    } else {
        None
    }
}

/// Reads a date back from its stored text. Returns `None` exactly where
/// `spec_parse_date` does: a malformed stored date is the caller's fatal
/// or skippable parse failure, never a silent default.
pub fn parse_date(s: &str) -> (r: Option<Date>)
    ensures
        r == spec_parse_date(s@),
{
    let n = s.unicode_len();
    if n != 10 {
        return None;
    }
    let c0 = s.get_char(0);
    let c1 = s.get_char(1);
    let c2 = s.get_char(2);
    let c3 = s.get_char(3);
    let c4 = s.get_char(4);
    let c5 = s.get_char(5);
    let c6 = s.get_char(6);
    let c7 = s.get_char(7);
    let c8 = s.get_char(8);
    let c9 = s.get_char(9);
    if c4 != '-' || c7 != '-' {
        return None;
    }
    if !digit_ok(c0) || !digit_ok(c1) || !digit_ok(c2) || !digit_ok(c3) || !digit_ok(c5)
        || !digit_ok(c6) || !digit_ok(c8) || !digit_ok(c9) {
        return None;
    }
    let y: u32 = dval(c0) * 1000 + dval(c1) * 100 + dval(c2) * 10 + dval(c3);
    let m: u32 = dval(c5) * 10 + dval(c6);
    let dd: u32 = dval(c8) * 10 + dval(c9);
    let d = Date { year: y as i32, month: m as u8, day: dd as u8 };
    if d.is_valid() {
        Some(d)
    } else {
        None
    }
}

/// Runtime check of `is_digit`.
fn digit_ok(c: char) -> (r: bool)
    ensures
        r == is_digit(c),
{
    let v = c as u32;
    48 <= v && v <= 57
}

/// Runtime companion of `digit_val` on digit characters.
fn dval(c: char) -> (r: u32)
    requires
        is_digit(c),
    ensures
        r == digit_val(c),
        r < 10,
{
    c as u32 - 48
}

/// Formatting a valid date and parsing the text back returns the date
/// unchanged: the relational date codec loses nothing.
pub proof fn lemma_date_round_trip(d: Date)
    requires
        d.valid(),
    ensures
        spec_parse_date(spec_format_date(d)) == Some(d),
{
    let s = spec_format_date(d);
    let y = d.year as int;
    let m = d.month as int;
    let dd = d.day as int;
    lemma_digit_char_val(y / 1000);
    lemma_digit_char_val((y % 1000) / 100);
    lemma_digit_char_val((y % 1000) % 100 / 10);
    lemma_digit_char_val((y % 1000) % 100 % 10);
    lemma_digit_char_val(m / 10);
    lemma_digit_char_val(m % 10);
    lemma_digit_char_val(dd / 10);
    lemma_digit_char_val(dd % 10);
    assert(y == (y / 1000) * 1000 + ((y % 1000) / 100) * 100 + ((y % 1000) % 100 / 10) * 10 + (y
        % 1000) % 100 % 10);
    assert(m == (m / 10) * 10 + m % 10);
    assert(dd == (dd / 10) * 10 + dd % 10);
    assert(spec_parse_date(s) == Some(d));
}

/// Strict calendar order: earlier on the calendar, which on dates is
/// lexicographic on year, month and day.
pub open spec fn date_lt(a: Date, b: Date) -> bool {
    ||| a.year < b.year
    ||| (a.year == b.year && a.month < b.month)
    ||| (a.year == b.year && a.month == b.month && a.day < b.day)
}

/// What the outside calendar returns for day addition; a function of the
/// starting date and the day count alone.
pub uninterp spec fn date_plus_days(year: int, month: int, day: int, days: int) -> (int, int, int);

/// Relies on chrono::NaiveDate::{from_ymd_opt, checked_add_days} and the
/// Datelike accessors: addition of whole days on the proleptic Gregorian
/// calendar. The result is again a calendar date, at most 101 years later
/// since every Gregorian year has at least 365 days, and strictly later
/// when at least one day is added, calendar order being lexicographic on
/// year, month and day.
#[verifier::external_body]
pub(crate) fn add_days(d: Date, days: u64) -> (r: Date)
    requires
        d.valid(),
        d.year <= 9800,
        days <= 36500,
    ensures
        (r.year as int, r.month as int, r.day as int) == date_plus_days(
            d.year as int,
            d.month as int,
            d.day as int,
            days as int,
        ),
        1 <= r.month <= 12,
        1 <= r.day <= spec_days_in_month(r.year as int, r.month as int),
        d.year <= r.year <= d.year + 101,
        days >= 1 ==> date_lt(d, r),
{
    let base = chrono::NaiveDate::from_ymd_opt(d.year, d.month as u32, d.day as u32).unwrap();
    let moved = base.checked_add_days(chrono::Days::new(days)).unwrap();
    Date { year: moved.year(), month: moved.month() as u8, day: moved.day() as u8 }
}

/// Relies on chrono::Utc::now and Datelike::year: the current civil year
/// of the system clock. Nothing is promised of the value.
#[verifier::external_body]
pub(crate) fn now_year() -> i32 {
    chrono::Utc::now().year()
}

} // verus!
