//! Calendar dates of historical queries: reading `YYYY-MM-DD`, checking the
//! range order, and writing dates back into requests.

use vstd::prelude::*;
use chrono::Datelike;
use crate::numeric::{nat_text, push_nat};
use crate::text::push_char;

verus! {

/// A date of the proleptic Gregorian calendar.
#[derive(Clone, Copy, Debug, PartialEq, Eq, Structural)]
pub struct CalendarDate {
    pub year: i32,
    pub month: u32,
    pub day: u32,
}

/// The date `chrono::NaiveDate::parse_from_str(input, "%Y-%m-%d")` reads
/// from `input`, as (year, month, day), or `None` where it refuses the text.
pub uninterp spec fn chrono_ymd(input: Seq<char>) -> Option<(i32, u32, u32)>;

/// `chrono::NaiveDate::parse_from_str` with the format `%Y-%m-%d`, the
/// result taken apart into year, month and day. Claimed: the result is the
/// named [`chrono_ymd`] of the input, with the month from 1 to 12 and the
/// day from 1 to 31, the ranges `Datelike::month` and `Datelike::day`
/// document.
#[verifier::external_body]
fn parse_ymd(input: &str) -> (r: Option<(i32, u32, u32)>)
    ensures
        r == chrono_ymd(input@),
        r matches Some((y, m, d)) ==> 1 <= m <= 12 && 1 <= d <= 31,
{
    chrono::NaiveDate::parse_from_str(input, "%Y-%m-%d").ok().map(|d| (d.year(), d.month(), d.day()))
}

/// A date argument that does not read as `YYYY-MM-DD`; `name` says which.
pub struct DateError {
    pub name: String,
}

impl DateError {
    /// "<name> date must use YYYY-MM-DD".
    pub fn message(&self) -> (r: String)
        ensures
            r@ == self.name@ + " date must use YYYY-MM-DD"@,
    {
        let mut m = self.name.clone();
        m.append(" date must use YYYY-MM-DD");
        m
    }
}

/// Reads the date argument `name` from `input`.
pub fn parse_date(input: &str, name: &str) -> (r: Result<CalendarDate, DateError>)
    ensures
        match chrono_ymd(input@) {
            Some((y, m, d)) => r == Ok::<CalendarDate, DateError>(
                CalendarDate { year: y, month: m, day: d },
            ),
            None => r matches Err(e) && e.name@ == name@,
        },
        r matches Ok(d) ==> 1 <= d.month <= 12 && 1 <= d.day <= 31,
{
    match parse_ymd(input) {
        Some((y, m, d)) => Ok(CalendarDate { year: y, month: m, day: d }),
        None => Err(DateError { name: String::from_str(name) }),
    }
}

/// `a` comes strictly before `b`.
pub open spec fn date_before(a: CalendarDate, b: CalendarDate) -> bool {
    a.year < b.year || (a.year == b.year && (a.month < b.month || (a.month == b.month && a.day
        < b.day)))
}

pub fn is_before(a: CalendarDate, b: CalendarDate) -> (r: bool)
    ensures
        r == date_before(a, b),
{
    a.year < b.year || (a.year == b.year && (a.month < b.month || (a.month == b.month && a.day
        < b.day)))
}

/// An end date before the start date.
#[derive(Clone, Copy, Debug, PartialEq, Eq, Structural)]
pub enum DateRangeError {
    EndBeforeStart,
}

impl DateRangeError {
    pub fn message(&self) -> (r: String)
        ensures
            r@ == "end date must be on or after start date"@,
    {
        String::from_str("end date must be on or after start date")
    }
}

/// Accepts a range whose end is on or after its start.
pub fn check_date_range(start: CalendarDate, end: CalendarDate) -> (r: Result<(), DateRangeError>)
    ensures
        r is Err <==> date_before(end, start),
        r is Err ==> r == Err::<(), DateRangeError>(DateRangeError::EndBeforeStart),
{
    if is_before(end, start) {
        return Err(DateRangeError::EndBeforeStart);
    }
    Ok(())
}

/// `n` in decimal, left-padded with zeros to `width` digits.
pub open spec fn padded(n: nat, width: nat) -> Seq<char> {
    let t = nat_text(n);
    if t.len() >= width {
        t
    } else {
        Seq::new((width - t.len()) as nat, |i: int| '0') + t
    }
}

/// The text of a date as `chrono` writes it: a four-digit year for years
/// 0 to 9999, otherwise the signed year with at least four digits; then
/// `-MM-DD`.
pub open spec fn spec_date_text(d: CalendarDate) -> Seq<char> {
    let year = if 0 <= d.year <= 9999 {
        padded(d.year as nat, 4)
    } else if d.year < 0 {
        seq!['-'] + padded((-d.year) as nat, 4)
    } else {
        seq!['+'] + padded(d.year as nat, 4)
    };
    year + seq!['-'] + padded(d.month as nat, 2) + seq!['-'] + padded(d.day as nat, 2)
}

proof fn lemma_nat_text_len(n: nat)
    ensures
        nat_text(n).len() >= 1,
        n < 10 ==> nat_text(n).len() == 1,
        10 <= n < 100 ==> nat_text(n).len() == 2,
        100 <= n < 1000 ==> nat_text(n).len() == 3,
    decreases n,
{
    if n >= 10 {
        lemma_nat_text_len(n / 10);
    }
}

/// Appends `n` left-padded with zeros to `width` digits.
fn push_padded(out: &mut String, n: u64, width: u64)
    requires
        width <= 4,
    ensures
        final(out)@ == old(out)@ + padded(n as nat, width as nat),
{
    let digits: u64 = if n < 10 {
        1
    } else if n < 100 {
        2
    } else if n < 1000 {
        3
    } else {
        4
    };
    proof {
        lemma_nat_text_len(n as nat);
        lemma_nat_text_len_ge(n as nat);
    }
    let ghost len = nat_text(n as nat).len();
    assert(digits == len || (digits == 4 && len >= 4));
    let ghost start = out@;
    let mut k: u64 = digits;
    assert(out@ =~= start + Seq::new(0, |i: int| '0'));
    while k < width
        invariant
            digits <= k <= 4,
            k > digits ==> k <= width,
            width <= 4,
            out@ == start + Seq::new((k - digits) as nat, |i: int| '0'),
        decreases width - k,
    {
        push_char(out, '0');
        assert(out@ =~= start + Seq::new((k + 1 - digits) as nat, |i: int| '0'));
        k = k + 1;
    }
    push_nat(out, n);
    if digits < width {
        assert(len < width);
        assert(out@ =~= start + padded(n as nat, width as nat));
    } else {
        assert(k == digits);
        assert(len >= width);
        assert(out@ =~= start + padded(n as nat, width as nat));
    }
}

proof fn lemma_nat_text_len_ge(n: nat)
    ensures
        n >= 10 ==> nat_text(n).len() >= 2,
        n >= 100 ==> nat_text(n).len() >= 3,
        n >= 1000 ==> nat_text(n).len() >= 4,
    decreases n,
{
    if n >= 10 {
        lemma_nat_text_len_ge(n / 10);
        lemma_nat_text_len(n / 10);
    }
}

/// Writes a date as `chrono` displays it.
pub fn date_text(d: CalendarDate) -> (r: String)
    ensures
        r@ == spec_date_text(d),
{
    let mut out = String::new();
    if 0 <= d.year && d.year <= 9999 {
        push_padded(&mut out, d.year as u64, 4);
    } else if d.year < 0 {
        push_char(&mut out, '-');
        let magnitude: u64 = if d.year == i32::MIN {
            2147483648u64
        } else {
            (-d.year) as u64
        };
        push_padded(&mut out, magnitude, 4);
    } else {
        push_char(&mut out, '+');
        push_padded(&mut out, d.year as u64, 4);
    }
    push_char(&mut out, '-');
    push_padded(&mut out, d.month as u64, 2);
    push_char(&mut out, '-');
    push_padded(&mut out, d.day as u64, 2);
    proof {
        assert(out@ =~= spec_date_text(d));
    }
    out
}

} // verus!
