//! Calendar dates.
//!
//! A date is a plain (year, month, day) triple in years 1 through 9999,
//! ordered chronologically, with proleptic-Gregorian leap years. Dates are
//! read from and written to "YYYY-MM-DD" text, the shape forecasts carry
//! their days in. The current day comes from the system clock through a
//! single trusted call; everything computed from it is verified.

use vstd::prelude::*;

use crate::text::code_of;

verus! {

/// A calendar date.
#[derive(Clone, Copy, Debug, PartialEq, Eq, Structural)]
pub struct Date {
    pub year: u32,
    pub month: u32,
    pub day: u32,
}

/// Gregorian leap years: every fourth year, except centuries off the
/// four-hundred cycle.
pub open spec fn spec_is_leap_year(y: int) -> bool {
    (y % 4 == 0 && y % 100 != 0) || y % 400 == 0
}

/// How many days the given month of the given year has.
pub open spec fn spec_days_in_month(y: int, m: int) -> int {
    if m == 2 {
        if spec_is_leap_year(y) {
            29
        } else {
            28
        }
    } else if m == 4 || m == 6 || m == 9 || m == 11 {
        30
    } else {
        31
    }
}

/// A date the calendar (and the four-digit year format) admits.
pub open spec fn valid_date(d: Date) -> bool {
    1 <= d.year <= 9999 && 1 <= d.month <= 12 && 1 <= d.day <= spec_days_in_month(
        d.year as int,
        d.month as int,
    )
}

/// Chronological order: by year, then month, then day.
pub open spec fn date_le(a: Date, b: Date) -> bool {
    if a.year != b.year {
        a.year < b.year
    } else if a.month != b.month {
        a.month < b.month
    } else {
        a.day <= b.day
    }
}

/// Strictly earlier.
pub open spec fn date_lt(a: Date, b: Date) -> bool {
    date_le(a, b) && a != b
}

/// The day after `d`, staying put at the last representable day.
pub open spec fn spec_next_day(d: Date) -> Date {
    if d.day < spec_days_in_month(d.year as int, d.month as int) {
        Date { year: d.year, month: d.month, day: (d.day + 1) as u32 }
    } else if d.month < 12 {
        Date { year: d.year, month: (d.month + 1) as u32, day: 1 }
    } else if d.year < 9999 {
        Date { year: (d.year + 1) as u32, month: 1, day: 1 }
    } else {
        d
    }
}

/// `d` moved `n` days forward, one day at a time.
pub open spec fn spec_plus_days(d: Date, n: nat) -> Date
    decreases n,
{
    if n == 0 {
        d
    } else {
        spec_next_day(spec_plus_days(d, (n - 1) as nat))
    }
}

impl Date {
    /// Whether this date is one the calendar admits.
    pub fn is_valid(&self) -> (r: bool)
        ensures
            r == valid_date(*self),
    {
        1 <= self.year && self.year <= 9999 && 1 <= self.month && self.month <= 12 && 1 <= self.day
            && self.day <= days_in_month(self.year, self.month)
    }

    /// Whether this date is no later than `other`.
    pub fn le(&self, other: &Date) -> (r: bool)
        ensures
            r == date_le(*self, *other),
    {
        if self.year != other.year {
            self.year < other.year
        } else if self.month != other.month {
            self.month < other.month
        } else {
            self.day <= other.day
        }
    }

    /// Whether this date is strictly earlier than `other`.
    pub fn lt(&self, other: &Date) -> (r: bool)
        ensures
            r == date_lt(*self, *other),
    {
        self.le(other) && !(self.year == other.year && self.month == other.month && self.day
            == other.day)
    }

    /// The day after this one, staying put at the last representable day.
    pub fn next_day(&self) -> (r: Date)
        requires
            valid_date(*self),
        ensures
            r == spec_next_day(*self),
            valid_date(r),
    {
        if self.day < days_in_month(self.year, self.month) {
            Date { year: self.year, month: self.month, day: self.day + 1 }
        } else if self.month < 12 {
            Date { year: self.year, month: self.month + 1, day: 1 }
        } else if self.year < 9999 {
            Date { year: self.year + 1, month: 1, day: 1 }
        } else {
            *self
        }
    }

    /// This date moved `n` days forward.
    pub fn plus_days(&self, n: u64) -> (r: Date)
        requires
            valid_date(*self),
        ensures
            r == spec_plus_days(*self, n as nat),
            valid_date(r),
    {
        let mut cur = *self;
        let mut i: u64 = 0;
        while i < n
            invariant
                i <= n,
                valid_date(cur),
                cur == spec_plus_days(*self, i as nat),
            decreases n - i,
        {
            cur = cur.next_day();
            i = i + 1;
        }
        cur
    }
}

/// Whether `y` is a leap year.
pub fn is_leap_year(y: u32) -> (r: bool)
    ensures
        r == spec_is_leap_year(y as int),
{
    (y % 4 == 0 && y % 100 != 0) || y % 400 == 0
}

/// How many days the given month has.
pub fn days_in_month(y: u32, m: u32) -> (r: u32)
    ensures
        r as int == spec_days_in_month(y as int, m as int),
{
    if m == 2 {
        if is_leap_year(y) {
            29
        } else {
            28
        }
    } else if m == 4 || m == 6 || m == 9 || m == 11 {
        30
    } else {
        31
    }
}

/// Whether `c` is an ASCII digit.
pub open spec fn is_digit(c: char) -> bool {
    48 <= code_of(c) <= 57
}

/// The value of an ASCII digit.
pub open spec fn digit_val(c: char) -> int {
    code_of(c) - 48
}

/// The digit character for a value 0 through 9.
pub open spec fn digit_char(v: int) -> char {
    if v == 0 {
        '0'
    } else if v == 1 {
        '1'
    } else if v == 2 {
        '2'
    } else if v == 3 {
        '3'
    } else if v == 4 {
        '4'
    } else if v == 5 {
        '5'
    } else if v == 6 {
        '6'
    } else if v == 7 {
        '7'
    } else if v == 8 {
        '8'
    } else {
        '9'
    }
}

/// Whether `s` spells a calendar date as "YYYY-MM-DD".
pub open spec fn is_date_text(s: Seq<char>) -> bool {
    &&& s.len() == 10
    &&& is_digit(s[0])
    &&& is_digit(s[1])
    &&& is_digit(s[2])
    &&& is_digit(s[3])
    &&& s[4] == '-'
    &&& is_digit(s[5])
    &&& is_digit(s[6])
    &&& s[7] == '-'
    &&& is_digit(s[8])
    &&& is_digit(s[9])
    &&& valid_date(date_of_text(s))
}

/// The date "YYYY-MM-DD" text spells; meaningful only on that shape.
pub open spec fn date_of_text(s: Seq<char>) -> Date {
    Date {
        year: (digit_val(s[0]) * 1000 + digit_val(s[1]) * 100 + digit_val(s[2]) * 10 + digit_val(
            s[3],
        )) as u32,
        month: (digit_val(s[5]) * 10 + digit_val(s[6])) as u32,
        day: (digit_val(s[8]) * 10 + digit_val(s[9])) as u32,
    }
}

/// A date as "YYYY-MM-DD" text.
pub open spec fn spec_format_date(d: Date) -> Seq<char> {
    seq![
        digit_char(d.year as int / 1000),
        digit_char((d.year as int / 100) % 10),
        digit_char((d.year as int / 10) % 10),
        digit_char(d.year as int % 10),
        '-',
        digit_char(d.month as int / 10),
        digit_char(d.month as int % 10),
        '-',
        digit_char(d.day as int / 10),
        digit_char(d.day as int % 10),
    ]
}

/// What parsing yields: the spelled date on well-formed text, nothing else.
pub open spec fn spec_parse_date(s: Seq<char>) -> Option<Date> {
    if is_date_text(s) {
        Some(date_of_text(s))
    } else {
        None
    }
}

/// The digit of a character, if it is one.
fn digit_of(c: char) -> (r: Option<u32>)
    ensures
        r matches Some(v) ==> is_digit(c) && v as int == digit_val(c) && v < 10,
        r is None ==> !is_digit(c),
{
    let x = c as u32;
    if 48 <= x && x <= 57 {
        Some(x - 48)
    } else {
        None
    }
}

/// Read a "YYYY-MM-DD" string as a date; `None` when the text is not in
/// that shape or names no calendar day.
pub fn parse_date(s: &str) -> (r: Option<Date>)
    ensures
        r == spec_parse_date(s@),
{
    if s.unicode_len() != 10 {
        return None;
    }
    if s.get_char(4) != '-' || s.get_char(7) != '-' {
        return None;
    }
    let d0 = digit_of(s.get_char(0));
    let d1 = digit_of(s.get_char(1));
    let d2 = digit_of(s.get_char(2));
    let d3 = digit_of(s.get_char(3));
    let d5 = digit_of(s.get_char(5));
    let d6 = digit_of(s.get_char(6));
    let d8 = digit_of(s.get_char(8));
    let d9 = digit_of(s.get_char(9));
    match (d0, d1, d2, d3, d5, d6, d8, d9) {
        (
            Some(y0),
            Some(y1),
            Some(y2),
            Some(y3),
            Some(m0),
            Some(m1),
            Some(a0),
            Some(a1),
        ) => {
            let d = Date {
                year: y0 * 1000 + y1 * 100 + y2 * 10 + y3,
                month: m0 * 10 + m1,
                day: a0 * 10 + a1,
            };
            if d.is_valid() {
                Some(d)
            } else {
                None
            }
        },
        _ => None,
    }
}

/// The one-character string for a digit.
fn digit_str(v: u32) -> (r: &'static str)
    requires
        v < 10,
    ensures
        r@ == seq![digit_char(v as int)],
{
    if v == 0 {
        proof {
            reveal_strlit("0");
            assert("0"@ =~= seq!['0']);
        }
        "0"
    } else if v == 1 {
        proof {
            reveal_strlit("1");
            assert("1"@ =~= seq!['1']);
        }
        "1"
    } else if v == 2 {
        proof {
            reveal_strlit("2");
            assert("2"@ =~= seq!['2']);
        }
        "2"
    } else if v == 3 {
        proof {
            reveal_strlit("3");
            assert("3"@ =~= seq!['3']);
        }
        "3"
    } else if v == 4 {
        proof {
            reveal_strlit("4");
            assert("4"@ =~= seq!['4']);
        }
        "4"
    } else if v == 5 {
        proof {
            reveal_strlit("5");
            assert("5"@ =~= seq!['5']);
        }
        "5"
    } else if v == 6 {
        proof {
            reveal_strlit("6");
            assert("6"@ =~= seq!['6']);
        }
        "6"
    } else if v == 7 {
        proof {
            reveal_strlit("7");
            assert("7"@ =~= seq!['7']);
        }
        "7"
    } else if v == 8 {
        proof {
            reveal_strlit("8");
            assert("8"@ =~= seq!['8']);
        }
        "8"
    } else {
        proof {
            reveal_strlit("9");
            assert("9"@ =~= seq!['9']);
        }
        "9"
    }
}

/// Write a date as "YYYY-MM-DD".
pub fn format_date(d: &Date) -> (r: String)
    requires
        valid_date(*d),
    ensures
        r@ == spec_format_date(*d),
{
    proof {
        reveal_strlit("-");
        assert("-"@ =~= seq!['-']);
    }
    let mut out = String::new();
    out.append(digit_str(d.year / 1000));
    out.append(digit_str((d.year / 100) % 10));
    out.append(digit_str((d.year / 10) % 10));
    out.append(digit_str(d.year % 10));
    out.append("-");
    out.append(digit_str(d.month / 10));
    out.append(digit_str(d.month % 10));
    out.append("-");
    out.append(digit_str(d.day / 10));
    out.append(digit_str(d.day % 10));
    proof {
        assert(out@ =~= spec_format_date(*d));
    }
    out
}

/// A digit's character is a digit character, and spells that digit.
proof fn lemma_digit_round_trip(v: int)
    requires
        0 <= v <= 9,
    ensures
        is_digit(digit_char(v)),
        digit_val(digit_char(v)) == v,
{
}

/// Formatting a valid date and reading the text back lands on the same date.
pub proof fn lemma_format_parse_round_trip(d: Date)
    requires
        valid_date(d),
    ensures
        spec_parse_date(spec_format_date(d)) == Some(d),
{
    let s = spec_format_date(d);
    let y = d.year as int;
    let mo = d.month as int;
    let da = d.day as int;
    lemma_digit_round_trip(y / 1000);
    lemma_digit_round_trip((y / 100) % 10);
    lemma_digit_round_trip((y / 10) % 10);
    lemma_digit_round_trip(y % 10);
    lemma_digit_round_trip(mo / 10);
    lemma_digit_round_trip(mo % 10);
    lemma_digit_round_trip(da / 10);
    lemma_digit_round_trip(da % 10);
    vstd::arithmetic::div_mod::lemma_fundamental_div_mod(mo, 10);
    vstd::arithmetic::div_mod::lemma_fundamental_div_mod(da, 10);
    vstd::arithmetic::div_mod::lemma_fundamental_div_mod(y, 100);
    vstd::arithmetic::div_mod::lemma_fundamental_div_mod(y / 100, 10);
    vstd::arithmetic::div_mod::lemma_div_denominator(y, 100, 10);
    vstd::arithmetic::div_mod::lemma_mod_breakdown(y, 10, 10);
    assert(digit_val(s[0]) * 1000 + digit_val(s[1]) * 100 + digit_val(s[2]) * 10 + digit_val(
        s[3],
    ) == y);
    assert(digit_val(s[5]) * 10 + digit_val(s[6]) == mo);
    assert(digit_val(s[8]) * 10 + digit_val(s[9]) == da);
    assert(date_of_text(s) == d);
    assert(is_date_text(s));
}

/// Relies on chrono's `Local::now` and its `Datelike` accessors for the
/// current local calendar day: `month()` is 1..=12 and `day()` is 1..=31.
#[verifier::external_body]
fn current_local_ymd() -> (r: (i64, u32, u32))
    ensures
        1 <= r.1 <= 12,
        1 <= r.2 <= 31,
{
    let d = chrono::Local::now().date_naive();
    (
        chrono::Datelike::year(&d) as i64,
        chrono::Datelike::month(&d),
        chrono::Datelike::day(&d),
    )
}

/// The current local calendar day, when it falls inside the representable
/// years and names a day its month has.
pub fn today_date() -> (r: Option<Date>)
    ensures
        r matches Some(d) ==> valid_date(d),
{
    let (y, m, dd) = current_local_ymd();
    if 1 <= y && y <= 9999 {
        let d = Date { year: y as u32, month: m, day: dd };
        if d.is_valid() {
            return Some(d);
        }
    }
    None
}

} // verus!
