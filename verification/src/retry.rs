//! Request retry policy: which failures are transient, how long to wait,
//! and when to give up.

use vstd::prelude::*;
use crate::text::{chars_of, parse_u64_text, spec_parse_unsigned, string_of, strip_chars, trim};

verus! {

/// A weather request is tried at most this many times.
pub const MAX_REQUEST_ATTEMPTS: usize = 3;

/// How one attempt of a weather request failed.
#[derive(Clone, Copy, Debug, PartialEq, Eq, Structural)]
pub enum RequestFailure {
    /// The transport failed: timed out, could not connect, or could not
    /// send the request.
    Transport { timeout: bool, connect: bool, request: bool },
    /// The API answered with a server error or 429, with the seconds of its
    /// `Retry-After` header when that header held a whole number.
    TransientStatus { status: u16, retry_after_secs: Option<u64> },
    /// Anything else: a client error status, an undecodable body.
    Other,
}

/// Whether a failed attempt is worth another try.
pub open spec fn spec_is_retryable(e: RequestFailure) -> bool {
    match e {
        RequestFailure::Transport { timeout, connect, request } => timeout || connect || request,
        RequestFailure::TransientStatus { .. } => true,
        RequestFailure::Other => false,
    }
}

pub fn is_retryable_error(error: &RequestFailure) -> (r: bool)
    ensures
        r == spec_is_retryable(*error),
{
    match error {
        RequestFailure::Transport { timeout, connect, request } => *timeout || *connect || *request,
        RequestFailure::TransientStatus { .. } => true,
        RequestFailure::Other => false,
    }
}

/// The wait the API asked for, in seconds, if any.
pub open spec fn spec_retry_after(e: RequestFailure) -> Option<u64> {
    match e {
        RequestFailure::TransientStatus { retry_after_secs, .. } => retry_after_secs,
        _ => None,
    }
}

pub fn retry_after(error: &RequestFailure) -> (r: Option<u64>)
    ensures
        r == spec_retry_after(*error),
{
    match error {
        RequestFailure::TransientStatus { retry_after_secs, .. } => *retry_after_secs,
        _ => None,
    }
}

/// `2^n`.
pub open spec fn pow2(n: nat) -> int
    decreases n,
{
    if n == 0 {
        1
    } else {
        2 * pow2((n - 1) as nat)
    }
}

/// Backoff before the next attempt after failed attempt `attempt`:
/// `150 ms * 2^(attempt - 1)`.
pub open spec fn spec_retry_delay_ms(attempt: int) -> int {
    150 * pow2((attempt - 1) as nat)
}

/// The backoff after failed attempt `attempt`, in milliseconds; from
/// attempt 58 on it would not fit in 64 bits.
pub fn retry_delay(attempt: usize) -> (r: u64)
    requires
        1 <= attempt <= 57,
    ensures
        r == spec_retry_delay_ms(attempt as int),
{
    let mut p: u64 = 1;
    let mut i: usize = 1;
    while i < attempt
        invariant
            1 <= i <= attempt <= 57,
            p == pow2((i - 1) as nat),
        decreases attempt - i,
    {
        proof {
            lemma_pow2_monotone((i - 1) as nat, 55);
            reveal_with_fuel(pow2, 57);
        }
        p = p * 2;
        i = i + 1;
    }
    proof {
        lemma_pow2_monotone((attempt - 1) as nat, 56);
        reveal_with_fuel(pow2, 57);
    }
    150 * p
}

proof fn lemma_pow2_monotone(a: nat, b: nat)
    requires
        a <= b,
    ensures
        1 <= pow2(a) <= pow2(b),
    decreases b,
{
    if a == b {
        if b > 0 {
            lemma_pow2_monotone((a - 1) as nat, (b - 1) as nat);
        }
    } else {
        lemma_pow2_monotone(a, (b - 1) as nat);
    }
}

/// The seconds of a `Retry-After` header: the trimmed text as a whole
/// number, capped at 30.
pub open spec fn spec_parse_retry_after(input: Seq<char>) -> Option<u64> {
    match spec_parse_unsigned(trim(input), u64::MAX as int) {
        Some(v) => Some(if v > 30 { 30 } else { v as u64 }),
        None => None,
    }
}

/// Reads a `Retry-After` header in seconds, at most 30.
pub fn parse_retry_after(input: &str) -> (r: Option<u64>)
    ensures
        r == spec_parse_retry_after(input@),
{
    let cs = chars_of(input);
    let t = string_of(&strip_chars(&cs, false));
    match parse_u64_text(t.as_str()) {
        Some(v) => Some(if v > 30 {
            30
        } else {
            v
        }),
        None => None,
    }
}

/// How an HTTP status is treated.
#[derive(Clone, Copy, Debug, PartialEq, Eq, Structural)]
pub enum StatusClass {
    /// Read the body.
    Success,
    /// A server error or 429: worth a retry.
    Transient,
    /// A client error: fail at once.
    Failure,
}

pub open spec fn spec_classify_status(status: u16) -> StatusClass {
    if (500 <= status <= 599) || status == 429 {
        StatusClass::Transient
    } else if 400 <= status <= 499 {
        StatusClass::Failure
    } else {
        StatusClass::Success
    }
}

/// Classifies an HTTP status code.
pub fn classify_status(status: u16) -> (r: StatusClass)
    ensures
        r == spec_classify_status(status),
{
    if (500 <= status && status <= 599) || status == 429 {
        StatusClass::Transient
    } else if 400 <= status && status <= 499 {
        StatusClass::Failure
    } else {
        StatusClass::Success
    }
}

/// What to do after an attempt.
#[derive(Clone, Copy, Debug, PartialEq, Eq, Structural)]
pub enum RetryStep {
    /// The attempt succeeded.
    Done,
    /// Wait this many milliseconds, then make the next attempt.
    RetryAfterMs(u64),
    /// Stop and report the failure after this many attempts.
    GiveUp(usize),
}

pub open spec fn spec_retry_step(attempt: int, outcome: Option<RequestFailure>) -> RetryStep {
    match outcome {
        None => RetryStep::Done,
        Some(e) => if attempt < MAX_REQUEST_ATTEMPTS && spec_is_retryable(e) {
            match spec_retry_after(e) {
                Some(secs) => RetryStep::RetryAfterMs(
                    if secs * 1000 > u64::MAX {
                        u64::MAX
                    } else {
                        (secs * 1000) as u64
                    },
                ),
                None => RetryStep::RetryAfterMs(spec_retry_delay_ms(attempt) as u64),
            }
        } else {
            RetryStep::GiveUp(attempt as usize)
        },
    }
}

/// Decides the next step after attempt `attempt` (counted from 1) ended
/// with `outcome` (`None` for success). The wait the API asked for is
/// honoured as given ([`parse_retry_after`] caps it at 30 seconds).
pub fn retry_step(attempt: usize, outcome: Option<RequestFailure>) -> (r: RetryStep)
    requires
        1 <= attempt,
    ensures
        r == spec_retry_step(attempt as int, outcome),
{
    match outcome {
        None => RetryStep::Done,
        Some(e) => {
            if attempt < MAX_REQUEST_ATTEMPTS && is_retryable_error(&e) {
                match retry_after(&e) {
                    Some(secs) => RetryStep::RetryAfterMs(
                        if secs > u64::MAX / 1000 {
                            u64::MAX
                        } else {
                            secs * 1000
                        },
                    ),
                    None => RetryStep::RetryAfterMs(retry_delay(attempt)),
                }
            } else {
                RetryStep::GiveUp(attempt)
            }
        },
    }
}

/// The retry loop ends by the third attempt, never waits more than 30
/// seconds, retries only transient failures, and gives up on every other
/// failure at once.
pub proof fn law_retry_is_bounded(attempt: int, outcome: Option<RequestFailure>)
    requires
        1 <= attempt <= MAX_REQUEST_ATTEMPTS,
        outcome matches Some(e) ==> (spec_retry_after(e) matches Some(s) ==> s <= 30),
    ensures
        attempt == MAX_REQUEST_ATTEMPTS ==> !(spec_retry_step(attempt, outcome) is RetryAfterMs),
        spec_retry_step(attempt, outcome) matches RetryStep::RetryAfterMs(ms) ==> ms <= 30_000,
        spec_retry_step(attempt, outcome) is RetryAfterMs ==> (outcome matches Some(e)
            && spec_is_retryable(e)),
        outcome matches Some(e) && !spec_is_retryable(e) ==> spec_retry_step(attempt, outcome)
            == RetryStep::GiveUp(attempt as usize),
{
    reveal_with_fuel(pow2, 3);
}

/// Every status that the request treats as transient is one the retry
/// policy retries.
pub proof fn law_transient_status_is_retried(status: u16, retry_after_secs: Option<u64>)
    requires
        spec_classify_status(status) == StatusClass::Transient,
    ensures
        spec_is_retryable(RequestFailure::TransientStatus { status, retry_after_secs }),
        status == 429 || (500 <= status <= 599),
{
}

/// Every server error (500 to 599) and 429 is transient, every other client
/// error (400 to 499) fails at once, and every other status is read as a
/// success.
pub proof fn law_status_classes(status: u16)
    ensures
        spec_classify_status(status) == StatusClass::Transient <==> ((500 <= status <= 599) || status
            == 429),
        spec_classify_status(status) == StatusClass::Failure <==> (400 <= status <= 499 && status
            != 429),
        spec_classify_status(status) == StatusClass::Success <==> (status < 400 || status > 599),
{
}

/// The backoff starts at 150 ms after the first attempt and doubles after
/// each further one; a `Retry-After` header is never read as more than 30
/// seconds.
pub proof fn law_backoff_doubles(attempt: int, input: Seq<char>)
    requires
        attempt >= 1,
    ensures
        spec_retry_delay_ms(1) == 150,
        spec_retry_delay_ms(attempt + 1) == 2 * spec_retry_delay_ms(attempt),
        spec_parse_retry_after(input) matches Some(s) ==> s <= 30,
{
    assert(pow2(0) == 1);
    assert(pow2(attempt as nat) == 2 * pow2((attempt - 1) as nat));
    let body = crate::text::unsigned_body(trim(input));
    if spec_parse_unsigned(trim(input), u64::MAX as int) is Some {
        crate::text::lemma_decimal_value_nonneg_monotone(body, 0);
    }
}

} // verus!
