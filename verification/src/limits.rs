//! Ranges and defaults of the command and tool arguments.

use vstd::prelude::*;
use crate::text::{parse_u64_text, spec_parse_unsigned};

verus! {

/// `--concurrency` accepts whole numbers from 1 to 32.
pub open spec fn concurrency_accepted(input: Seq<char>) -> bool {
    match spec_parse_unsigned(input, usize::MAX as int) {
        Some(v) => 1 <= v <= 32,
        None => false,
    }
}

/// Reads `--concurrency`: a whole number from 1 to 32. The message says
/// whether the text was no number at all or a number out of range.
pub fn parse_batch_concurrency(input: &str) -> (r: Result<usize, String>)
    ensures
        r is Ok <==> concurrency_accepted(input@),
        r matches Ok(v) ==> spec_parse_unsigned(input@, usize::MAX as int) == Some(v as int),
        r matches Err(m) ==> m@ == (if spec_parse_unsigned(input@, usize::MAX as int) is None {
            "concurrency must be an integer between 1 and 32"@
        } else {
            "concurrency must be between 1 and 32"@
        }),
{
    let parsed = parse_u64_text(input);
    let value: usize = match parsed {
        Some(v) => {
            if v > usize::MAX as u64 {
                return Err(String::from_str("concurrency must be an integer between 1 and 32"));
            }
            v as usize
        },
        None => {
            return Err(String::from_str("concurrency must be an integer between 1 and 32"));
        },
    };
    if !(1 <= value && value <= 32) {
        return Err(String::from_str("concurrency must be between 1 and 32"));
    }
    Ok(value)
}

/// Why a tool argument was refused.
#[derive(Clone, Copy, Debug, PartialEq, Eq, Structural)]
pub enum ArgumentError {
    Days,
    Count,
    Hours,
}

pub open spec fn argument_error_text(e: ArgumentError) -> Seq<char> {
    match e {
        ArgumentError::Days => "days must be between 1 and 16"@,
        ArgumentError::Count => "count must be between 1 and 100"@,
        ArgumentError::Hours => "hours must be between 1 and 384"@,
    }
}

impl ArgumentError {
    pub fn message(&self) -> (r: String)
        ensures
            r@ == argument_error_text(*self),
    {
        match self {
            ArgumentError::Days => String::from_str("days must be between 1 and 16"),
            ArgumentError::Count => String::from_str("count must be between 1 and 100"),
            ArgumentError::Hours => String::from_str("hours must be between 1 and 384"),
        }
    }
}

/// The forecast horizon of a tool call: 7 days when absent, else 1 to 16.
pub fn normalize_days(days: Option<u8>) -> (r: Result<u8, ArgumentError>)
    ensures
        ({
            let d = match days {
                Some(d) => d as int,
                None => 7,
            };
            &&& (1 <= d <= 16) ==> r == Ok::<u8, ArgumentError>(d as u8)
            &&& !(1 <= d <= 16) ==> r == Err::<u8, ArgumentError>(ArgumentError::Days)
        }),
{
    let days = match days {
        Some(d) => d,
        None => 7,
    };
    if !(1 <= days && days <= 16) {
        return Err(ArgumentError::Days);
    }
    Ok(days)
}

/// The candidate count of a geocoding call: 5 when absent, else 1 to 100.
pub fn normalize_count(count: Option<u16>) -> (r: Result<u16, ArgumentError>)
    ensures
        ({
            let c = match count {
                Some(c) => c as int,
                None => 5,
            };
            &&& (1 <= c <= 100) ==> r == Ok::<u16, ArgumentError>(c as u16)
            &&& !(1 <= c <= 100) ==> r == Err::<u16, ArgumentError>(ArgumentError::Count)
        }),
{
    let count = match count {
        Some(c) => c,
        None => 5,
    };
    if !(1 <= count && count <= 100) {
        return Err(ArgumentError::Count);
    }
    Ok(count)
}

/// Forecast days fetched for an hourly window: `ceil(hours / 24)`, kept
/// within 1 to 16.
pub open spec fn spec_days_for_hours(hours: int) -> int {
    let d = (hours + 23) / 24;
    if d < 1 {
        1
    } else if d > 16 {
        16
    } else {
        d
    }
}

/// Forecast days fetched for an hourly window.
pub fn days_for_hours(hours: u16) -> (r: u8)
    ensures
        r == spec_days_for_hours(hours as int),
        1 <= r <= 16,
{
    let d: u32 = (hours as u32 + 23) / 24;
    if d < 1 {
        1
    } else if d > 16 {
        16
    } else {
        d as u8
    }
}

/// The hourly window of a tool call: 48 hours when absent, else 1 to 384,
/// with the forecast days it needs.
pub fn hourly_window(hours: Option<u16>) -> (r: Result<(u16, u8), ArgumentError>)
    ensures
        ({
            let h = match hours {
                Some(h) => h as int,
                None => 48,
            };
            &&& (1 <= h <= 384) ==> r == Ok::<(u16, u8), ArgumentError>(
                (h as u16, spec_days_for_hours(h) as u8),
            )
            &&& !(1 <= h <= 384) ==> r == Err::<(u16, u8), ArgumentError>(ArgumentError::Hours)
        }),
{
    let hours = match hours {
        Some(h) => h,
        None => 48,
    };
    if !(1 <= hours && hours <= 384) {
        return Err(ArgumentError::Hours);
    }
    Ok((hours, days_for_hours(hours)))
}

/// An hourly window of 1 to 384 hours always fetches every hour it
/// returns: the fetched days cover the window.
pub proof fn law_hourly_window_is_covered(hours: int)
    requires
        1 <= hours <= 384,
    ensures
        1 <= spec_days_for_hours(hours) <= 16,
        hours <= 24 * spec_days_for_hours(hours),
{
}

/// The first `limit` entries of `s`, or all of them when there are fewer.
pub open spec fn kept<A>(s: Seq<A>, limit: int) -> Seq<A> {
    if limit < s.len() {
        s.take(limit)
    } else {
        s
    }
}

/// Cuts an hourly series to its window: the times and every column keep
/// their first `limit` entries.
pub fn truncate_series<T>(times: &mut Vec<String>, columns: &mut Vec<Vec<T>>, limit: usize)
    ensures
        final(times)@ == kept(old(times)@, limit as int),
        final(columns)@.len() == old(columns)@.len(),
        forall|j: int|
            0 <= j < old(columns)@.len() ==> (#[trigger] final(columns)@[j])@ == kept(
                old(columns)@[j]@,
                limit as int,
            ),
{
    times.truncate(limit);
    let ghost original = columns@;
    let mut rest: Vec<Vec<T>> = Vec::new();
    std::mem::swap(columns, &mut rest);
    let n = rest.len();
    let mut i: usize = 0;
    while i < n
        invariant
            i <= n == original.len(),
            rest@ == original.skip(i as int),
            columns@.len() == i,
            forall|j: int| 0 <= j < i ==> (#[trigger] columns@[j])@ == kept(original[j]@, limit as int),
        decreases n - i,
    {
        assert(rest@[0] == original[i as int]);
        let mut column = rest.remove(0);
        column.truncate(limit);
        columns.push(column);
        assert(rest@ =~= original.skip(i + 1));
        i = i + 1;
    }
}

/// The output format chosen by `--output` and `--table`.
#[derive(Clone, Copy, Debug, PartialEq, Eq, Structural)]
pub enum OutputFormat {
    Json,
    Table,
    Csv,
}

/// `--table` wins over `--output`.
pub fn output_format(table: bool, output: OutputFormat) -> (r: OutputFormat)
    ensures
        r == (if table { OutputFormat::Table } else { output }),
{
    if table {
        OutputFormat::Table
    } else {
        output
    }
}

/// What `humantime::parse_duration` reads from `input`: the whole seconds
/// and the nanoseconds of the duration, or the text of its error.
pub uninterp spec fn humantime_duration(input: Seq<char>) -> Result<(u64, u32), Seq<char>>;

/// The ASCII digits of `s`, counted.
pub open spec fn digit_count(s: Seq<char>) -> nat
    decreases s.len(),
{
    if s.len() == 0 {
        0
    } else {
        digit_count(s.drop_last()) + if '0' <= s.last() && s.last() <= '9' {
            1nat
        } else {
            0nat
        }
    }
}

/// Duration texts with at most this many digits are read by the library.
pub const MAX_DURATION_DIGITS: usize = 11;

/// `humantime::parse_duration`, the duration taken apart into seconds and
/// nanoseconds and an error into its message. Claimed: the result is the
/// named [`humantime_duration`] of the input, and the nanoseconds are a
/// fraction of a second, as `Duration::subsec_nanos` documents.
///
/// The parser panics when a running total of exactly `u64::MAX` seconds
/// meets a carry of exactly one second from the nanoseconds. Every part of
/// a duration begins with a digit and adds less than `2 * 10^k` years of
/// 31,557,600 seconds, `k` being the digits of its whole number; with at
/// most 11 digits in all the total stays below `2 * 10^11 * 31,557,600`,
/// far under `u64::MAX`, so the inputs admitted here never reach it.
#[verifier::external_body]
fn humantime_parse(input: &str) -> (r: Result<(u64, u32), String>)
    requires
        digit_count(input@) <= MAX_DURATION_DIGITS,
    ensures
        match r {
            Ok(d) => humantime_duration(input@) == Ok::<(u64, u32), Seq<char>>(d),
            Err(m) => humantime_duration(input@) == Err::<(u64, u32), Seq<char>>(m@),
        },
        r matches Ok(d) ==> d.1 < 1_000_000_000,
{
    match humantime::parse_duration(input) {
        Ok(d) => Ok((d.as_secs(), d.subsec_nanos())),
        Err(e) => Err(e.to_string()),
    }
}

/// Whether the library reads the duration text `input`: it has at most
/// [`MAX_DURATION_DIGITS`] digits.
pub fn duration_in_reach(input: &str) -> (r: bool)
    ensures
        r == (digit_count(input@) <= MAX_DURATION_DIGITS),
{
    let cs = crate::text::chars_of(input);
    let mut count: usize = 0;
    let mut i: usize = 0;
    while i < cs.len()
        invariant
            i <= cs@.len(),
            cs@ == input@,
            count == digit_count(cs@.take(i as int)),
            count <= i,
        decreases cs.len() - i,
    {
        assert(cs@.take(i + 1).drop_last() =~= cs@.take(i as int));
        if '0' <= cs[i] && cs[i] <= '9' {
            count = count + 1;
        }
        i = i + 1;
    }
    assert(cs@.take(cs@.len() as int) =~= cs@);
    count <= MAX_DURATION_DIGITS
}

/// Reads a duration argument such as `30m`, `1h` or `7d`, as whole
/// seconds and nanoseconds.
pub fn parse_duration(input: &str) -> (r: Result<(u64, u32), String>)
    requires
        digit_count(input@) <= MAX_DURATION_DIGITS,
    ensures
        match r {
            Ok(d) => humantime_duration(input@) == Ok::<(u64, u32), Seq<char>>(d),
            Err(m) => humantime_duration(input@) == Err::<(u64, u32), Seq<char>>(m@),
        },
        r matches Ok(d) ==> d.1 < 1_000_000_000,
{
    humantime_parse(input)
}

} // verus!
