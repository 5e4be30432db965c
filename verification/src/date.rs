//! Calendar dates in the proleptic Gregorian calendar, exchanged in
//! `YYYY-MM-DD` form. A `Date` is the key of a day record.

use vstd::prelude::*;
use vstd::string::StrSliceExecFns;

verus! {

/// A calendar date. Valid values satisfy [`Date::valid`]; every public
/// constructor establishes it.
#[derive(Clone, Copy, PartialEq, Eq, Structural, Debug)]
pub struct Date {
    pub year: i32,
    pub month: u8,
    pub day: u8,
}

/// A year is a leap year when divisible by 4, except centuries,
/// which must be divisible by 400.
pub open spec fn spec_is_leap_year(y: int) -> bool {
    y % 4 == 0 && (y % 100 != 0 || y % 400 == 0)
}

/// Number of days in a month of a given year; 0 for an invalid month.
pub open spec fn spec_days_in_month(y: int, m: int) -> int {
    if m == 1 || m == 3 || m == 5 || m == 7 || m == 8 || m == 10 || m == 12 {
        31
    } else if m == 4 || m == 6 || m == 9 || m == 11 {
        30
    } else if m == 2 {
        if spec_is_leap_year(y) {
            29
        } else {
            28
        }
    } else {
        0
    }
}

impl Date {
    /// A date is valid when its month exists and its day fits the month.
    /// Years are limited to four digits, matching the `YYYY-MM-DD` form.
    pub open spec fn valid(self) -> bool {
        &&& 0 <= self.year <= 9999
        &&& 1 <= self.month <= 12
        &&& 1 <= self.day <= spec_days_in_month(self.year as int, self.month as int)
    }
}

pub fn is_leap_year(y: i32) -> (r: bool)
    ensures
        r == spec_is_leap_year(y as int),
{
    y % 4 == 0 && (y % 100 != 0 || y % 400 == 0)
}

pub fn days_in_month(y: i32, m: u8) -> (r: u8)
    ensures
        r as int == spec_days_in_month(y as int, m as int),
{
    if m == 1 || m == 3 || m == 5 || m == 7 || m == 8 || m == 10 || m == 12 {
        31
    } else if m == 4 || m == 6 || m == 9 || m == 11 {
        30
    } else if m == 2 {
        if is_leap_year(y) {
            29
        } else {
            28
        }
    } else {
        0
    }
}

impl Date {
    /// Builds the date `year-month-day` when it names a real calendar day.
    pub fn new(year: i32, month: u8, day: u8) -> (r: Option<Date>)
        ensures
            r is Some <==> (Date { year, month, day }).valid(),
            r is Some ==> r->0 == (Date { year, month, day }),
    {
        if 0 <= year && year <= 9999 && 1 <= month && month <= 12 && 1 <= day && day
            <= days_in_month(year, month) {
            Some(Date { year, month, day })
        } else {
            None
        }
    }
}

/// Whether the character is a decimal digit.
pub open spec fn spec_is_digit(c: char) -> bool {
    48 <= c as u32 <= 57
}

/// Numeric value of a decimal digit character.
pub open spec fn spec_digit(c: char) -> int {
    c as u32 - 48
}

/// Whether the character sequence has the shape `YYYY-MM-DD`.
pub open spec fn spec_iso_form(s: Seq<char>) -> bool {
    &&& s.len() == 10
    &&& spec_is_digit(s[0]) && spec_is_digit(s[1]) && spec_is_digit(s[2]) && spec_is_digit(s[3])
    &&& s[4] == '-'
    &&& spec_is_digit(s[5]) && spec_is_digit(s[6])
    &&& s[7] == '-'
    &&& spec_is_digit(s[8]) && spec_is_digit(s[9])
}

/// The date an `YYYY-MM-DD` sequence spells, read positionally.
pub open spec fn spec_date_of(s: Seq<char>) -> Date {
    Date {
        year: (spec_digit(s[0]) * 1000 + spec_digit(s[1]) * 100 + spec_digit(s[2]) * 10
            + spec_digit(s[3])) as i32,
        month: (spec_digit(s[5]) * 10 + spec_digit(s[6])) as u8,
        day: (spec_digit(s[8]) * 10 + spec_digit(s[9])) as u8,
    }
}

/// What parsing yields: the spelled date when the text has the
/// `YYYY-MM-DD` shape and names a real calendar day, nothing otherwise.
pub open spec fn spec_parse_iso_date(s: Seq<char>) -> Option<Date> {
    if spec_iso_form(s) && spec_date_of(s).valid() {
        Some(spec_date_of(s))
    } else {
        None
    }
}

/// Reads the decimal digit at position `i`, or reports that none is there.
fn digit_at(s: &str, i: usize) -> (r: Option<u32>)
    requires
        i < s@.len(),
    ensures
        r is Some <==> spec_is_digit(s@[i as int]),
        r is Some ==> r->0 == spec_digit(s@[i as int]) && r->0 <= 9,
{
    let c = s.get_char(i);
    let v = c as u32;
    if 48 <= v && v <= 57 {
        Some(v - 48)
    } else {
        None
    }
}

/// Parses a date in strict `YYYY-MM-DD` form: four year digits, two
/// month digits, two day digits. Returns the date exactly when the text
/// has that shape and names a real calendar day.
pub fn parse_iso_date(s: &str) -> (r: Option<Date>)
    ensures
        r == spec_parse_iso_date(s@),
{
    if s.unicode_len() != 10 {
        return None;
    }
    if s.get_char(4) != '-' || s.get_char(7) != '-' {
        return None;
    }
    let (y0, y1, y2, y3) = match (digit_at(s, 0), digit_at(s, 1), digit_at(s, 2), digit_at(s, 3)) {
        (Some(a), Some(b), Some(c), Some(d)) => (a, b, c, d),
        _ => {
            return None;
        },
    };
    let (m0, m1) = match (digit_at(s, 5), digit_at(s, 6)) {
        (Some(a), Some(b)) => (a, b),
        _ => {
            return None;
        },
    };
    let (d0, d1) = match (digit_at(s, 8), digit_at(s, 9)) {
        (Some(a), Some(b)) => (a, b),
        _ => {
            return None;
        },
    };
    let year = (y0 * 1000 + y1 * 100 + y2 * 10 + y3) as i32;
    let month = (m0 * 10 + m1) as u8;
    let day = (d0 * 10 + d1) as u8;
    Date::new(year, month, day)
}

/// The digit character of a value below ten.
pub open spec fn spec_digit_char(d: int) -> char {
    ((48 + d) as u8) as char
}

/// The `YYYY-MM-DD` spelling of a date.
pub open spec fn spec_format_iso(d: Date) -> Seq<char> {
    seq![
        spec_digit_char(d.year as int / 1000 % 10),
        spec_digit_char(d.year as int / 100 % 10),
        spec_digit_char(d.year as int / 10 % 10),
        spec_digit_char(d.year as int % 10),
        '-',
        spec_digit_char(d.month as int / 10),
        spec_digit_char(d.month as int % 10),
        '-',
        spec_digit_char(d.day as int / 10),
        spec_digit_char(d.day as int % 10),
    ]
}

/// The digit character of a value below ten.
fn digit_char(d: u32) -> (c: char)
    requires
        d <= 9,
    ensures
        c == spec_digit_char(d as int),
{
    (48 + d as u8) as char
}

/// A digit character spells a digit, and spells the value it was made of.
pub proof fn lemma_digit_char_value(v: int)
    requires
        0 <= v <= 9,
    ensures
        spec_is_digit(spec_digit_char(v)),
        spec_digit(spec_digit_char(v)) == v,
{
}

/// Writing a valid date in `YYYY-MM-DD` form and parsing the text back
/// yields the same date.
pub proof fn lemma_format_parse_round_trip(d: Date)
    requires
        d.valid(),
    ensures
        spec_parse_iso_date(spec_format_iso(d)) == Some(d),
{
    let s = spec_format_iso(d);
    let y = d.year as int;
    let m = d.month as int;
    let dd = d.day as int;
    assert(y % (1000int * 10) == 1000 * ((y / 1000) % 10) + y % 1000) by {
        vstd::arithmetic::div_mod::lemma_mod_breakdown(y, 1000, 10);
    }
    assert(y % (100int * 10) == 100 * ((y / 100) % 10) + y % 100) by {
        vstd::arithmetic::div_mod::lemma_mod_breakdown(y, 100, 10);
    }
    assert(y % (10int * 10) == 10 * ((y / 10) % 10) + y % 10) by {
        vstd::arithmetic::div_mod::lemma_mod_breakdown(y, 10, 10);
    }
    assert(y % (1000int * 10) == y) by {
        vstd::arithmetic::div_mod::lemma_small_mod(y as nat, 10000);
    }
    assert(y % 1000 == y % (100int * 10));
    assert(y % 100 == y % (10int * 10));
    assert(1000 * ((y / 1000) % 10) + 100 * ((y / 100) % 10) + 10 * ((y / 10) % 10) + y % 10 == y);
    assert(10 * (m / 10) + m % 10 == m) by {
        vstd::arithmetic::div_mod::lemma_fundamental_div_mod(m, 10);
    }
    assert(10 * (dd / 10) + dd % 10 == dd) by {
        vstd::arithmetic::div_mod::lemma_fundamental_div_mod(dd, 10);
    }
    assert(m / 10 <= 9 && dd / 10 <= 9) by {
        vstd::arithmetic::div_mod::lemma_div_is_ordered(m, 99, 10);
        vstd::arithmetic::div_mod::lemma_div_is_ordered(dd, 99, 10);
    }
    lemma_digit_char_value(y / 1000 % 10);
    lemma_digit_char_value(y / 100 % 10);
    lemma_digit_char_value(y / 10 % 10);
    lemma_digit_char_value(y % 10);
    lemma_digit_char_value(m / 10);
    lemma_digit_char_value(m % 10);
    lemma_digit_char_value(dd / 10);
    lemma_digit_char_value(dd % 10);
    assert(spec_iso_form(s));
    assert(spec_date_of(s) == d);
}

impl Date {
    /// Writes the date in `YYYY-MM-DD` form, zero-padded.
    pub fn format_iso(&self) -> (s: String)
        requires
            self.valid(),
        ensures
            s@ == spec_format_iso(*self),
    {
        let y = self.year as u32;
        let mut out: Vec<char> = Vec::new();
        out.push(digit_char(y / 1000 % 10));
        out.push(digit_char(y / 100 % 10));
        out.push(digit_char(y / 10 % 10));
        out.push(digit_char(y % 10));
        out.push('-');
        out.push(digit_char(self.month as u32 / 10));
        out.push(digit_char(self.month as u32 % 10));
        out.push('-');
        out.push(digit_char(self.day as u32 / 10));
        out.push(digit_char(self.day as u32 % 10));
        let s = crate::text::chars_to_string(&out);
        proof {
            assert(s@ =~= spec_format_iso(*self));
        }
        s
    }
}

} // verus!
