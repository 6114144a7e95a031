//! Calendar dates, as the date index holds them.

use vstd::prelude::*;

use crate::text::chars_of;

verus! {

/// A day of the proleptic Gregorian calendar.
#[derive(Debug, Clone, Copy, PartialEq, Eq, Structural)]
pub struct Date {
    pub year: u16,
    pub month: u8,
    pub day: u8,
}

pub open spec fn is_leap_year(y: int) -> bool {
    (y % 4 == 0 && y % 100 != 0) || y % 400 == 0
}

pub open spec fn days_in_month(y: int, m: int) -> int {
    if m == 2 {
        if is_leap_year(y) { 29 } else { 28 }
    } else if m == 4 || m == 6 || m == 9 || m == 11 {
        30
    } else {
        31
    }
}

impl Date {
    /// Whether the fields name a day of the calendar.
    pub open spec fn valid(self) -> bool {
        1 <= self.month <= 12 && 1 <= self.day <= days_in_month(self.year as int, self.month as int)
    }

    /// The position of the day in the order of dates.
    pub open spec fn ordinal(self) -> int {
        self.year as int * 65536 + self.month as int * 256 + self.day as int
    }
}

/// The value of a decimal digit character.
pub open spec fn digit_value(c: char) -> Option<nat> {
    if '0' <= c && c <= '9' {
        Some((c as u32 - '0' as u32) as nat)
    } else {
        None
    }
}

/// Whether positions `from` up to `to` of `s` hold decimal digits.
pub open spec fn all_digits(s: Seq<char>, from: int, to: int) -> bool {
    forall|i: int| from <= i < to ==> #[trigger] digit_value(s[i]) is Some
}

/// The number that positions `from` up to `to` of `s` spell in decimal.
pub open spec fn digits_value(s: Seq<char>, from: int, to: int) -> nat
    decreases to - from,
{
    if to <= from {
        0
    } else {
        digits_value(s, from, to - 1) * 10 + digit_value(s[to - 1])->0
    }
}

/// The date that a `YYYY-MM-DD` text names, if it names one.
pub open spec fn parse_date_spec(s: Seq<char>) -> Option<Date> {
    if s.len() == 10 && s[4] == '-' && s[7] == '-' && all_digits(s, 0, 4) && all_digits(s, 5, 7)
        && all_digits(s, 8, 10) {
        let y = digits_value(s, 0, 4);
        let m = digits_value(s, 5, 7);
        let d = digits_value(s, 8, 10);
        if 1 <= m <= 12 && 1 <= d <= days_in_month(y as int, m as int) {
            Some(Date { year: y as u16, month: m as u8, day: d as u8 })
        } else {
            None
        }
    } else {
        None
    }
}

fn digit_at(cs: &Vec<char>, i: usize) -> (r: Option<u16>)
    requires
        i < cs@.len(),
    ensures
        r is Some <==> digit_value(cs@[i as int]) is Some,
        r is Some ==> r->0 as nat == digit_value(cs@[i as int])->0,
{
    let c = cs[i];
    if '0' <= c && c <= '9' {
        Some((c as u32 - '0' as u32) as u16)
    } else {
        None
    }
}

/// The number spelt by the digits at `from` up to `to`, or `None` where a
/// character there is no digit.
fn read_number(cs: &Vec<char>, from: usize, to: usize) -> (r: Option<u16>)
    requires
        from <= to <= cs@.len(),
        to - from <= 4,
    ensures
        r is Some <==> all_digits(cs@, from as int, to as int),
        r is Some ==> r->0 as nat == digits_value(cs@, from as int, to as int),
{
    let mut n: u16 = 0;
    let mut i: usize = from;
    while i < to
        invariant
            from <= i <= to <= cs@.len(),
            to - from <= 4,
            all_digits(cs@, from as int, i as int),
            n as nat == digits_value(cs@, from as int, i as int),
            n < pow10((i - from) as nat),
        decreases to - i,
    {
        match digit_at(cs, i) {
            Some(d) => {
                assert(pow10((i + 1 - from) as nat) == pow10((i - from) as nat) * 10);
                assert(pow10((i - from) as nat) <= 1000) by {
                    assert(pow10(0) == 1);
                    assert(pow10(1) == 10);
                    assert(pow10(2) == 100);
                    assert(pow10(3) == 1000);
                }
                n = n * 10 + d;
                i = i + 1;
            },
            None => {
                return None;
            },
        }
    }
    Some(n)
}

spec fn pow10(k: nat) -> nat
    decreases k,
{
    if k == 0 { 1 } else { pow10((k - 1) as nat) * 10 }
}

fn month_length(y: u16, m: u8) -> (r: u8)
    ensures
        r as int == days_in_month(y as int, m as int),
{
    if m == 2 {
        if (y % 4 == 0 && y % 100 != 0) || y % 400 == 0 { 29 } else { 28 }
    } else if m == 4 || m == 6 || m == 9 || m == 11 {
        30
    } else {
        31
    }
}

/// Reads a `YYYY-MM-DD` date; `None` where the text is not one or names no day.
pub fn parse_date(s: &str) -> (r: Option<Date>)
    ensures
        r == parse_date_spec(s@),
{
    let cs = chars_of(s);
    if cs.len() != 10 || cs[4] != '-' || cs[7] != '-' {
        return None;
    }
    let y = read_number(&cs, 0, 4);
    let m = read_number(&cs, 5, 7);
    let d = read_number(&cs, 8, 10);
    match (y, m, d) {
        (Some(y), Some(m), Some(d)) => {
            if 1 <= m && m <= 12 && 1 <= d && d <= month_length(y, m as u8) as u16 {
                Some(Date { year: y, month: m as u8, day: d as u8 })
            } else {
                None
            }
        },
        _ => None,
    }
}

/// Compares two dates: negative, zero or positive as `a` is before, on or after `b`.
pub fn compare_dates(a: &Date, b: &Date) -> (r: i8)
    ensures
        r < 0 <==> a.ordinal() < b.ordinal(),
        r == 0 <==> a.ordinal() == b.ordinal(),
        r > 0 <==> a.ordinal() > b.ordinal(),
{
    if a.year != b.year {
        if a.year < b.year { -1 } else { 1 }
    } else if a.month != b.month {
        if a.month < b.month { -1 } else { 1 }
    } else if a.day != b.day {
        if a.day < b.day { -1 } else { 1 }
    } else {
        0
    }
}

} // verus!
