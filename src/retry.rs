//! The retry policy of outbound catalog and knowledge-base calls: which
//! outcomes are retried, and how long to wait before the next attempt.
use vstd::prelude::*;
use crate::text::{chars_of, is_digit};
use crate::ids::{all_digits, digits_value};

verus! {

/// Attempts made at most, the first included.
pub const MAX_RETRIES: u32 = 3;

/// Longest computed back-off, in milliseconds.
pub const MAX_BACKOFF_MS: u64 = 5000;

pub const BASE_BACKOFF_MS: u64 = 200;

/// How one attempt ended.
#[derive(Clone, Copy, Debug, PartialEq, Eq, Structural)]
pub enum Outcome {
    /// A response with this status code.
    Status(u16),
    /// No response; `transient` for a timeout or a failure to connect or
    /// to send.
    Transport { transient: bool },
}

/// What to do after an attempt.
#[derive(Clone, Copy, Debug, PartialEq, Eq, Structural)]
pub enum RetryDecision {
    /// Hand the response to the caller.
    Done,
    /// Wait and try again.
    Retry,
    /// Give up with the transport error.
    Fail,
}

pub open spec fn retryable_status(s: u16) -> bool {
    s == 429 || (500 <= s && s <= 599)
}

pub open spec fn decide_spec(attempt: u32, outcome: Outcome) -> RetryDecision {
    match outcome {
        Outcome::Status(s) => if retryable_status(s) && attempt < MAX_RETRIES {
            RetryDecision::Retry
        } else {
            RetryDecision::Done
        },
        Outcome::Transport { transient } => if transient && attempt < MAX_RETRIES {
            RetryDecision::Retry
        } else {
            RetryDecision::Fail
        },
    }
}

/// Decides after attempt number `attempt` (counting from 1): a rate limit
/// or server error, or a transient transport failure, is retried until the
/// attempt ceiling; then the response, or the error, is handed on.
pub fn decide(attempt: u32, outcome: Outcome) -> (r: RetryDecision)
    ensures
        r == decide_spec(attempt, outcome),
{
    match outcome {
        Outcome::Status(s) => if (s == 429 || (500 <= s && s <= 599)) && attempt < MAX_RETRIES {
            RetryDecision::Retry
        } else {
            RetryDecision::Done
        },
        Outcome::Transport { transient } => if transient && attempt < MAX_RETRIES {
            RetryDecision::Retry
        } else {
            RetryDecision::Fail
        },
    }
}

/// Calls end after at most `MAX_RETRIES` attempts.
pub proof fn lemma_attempts_are_bounded(attempt: u32, outcome: Outcome)
    requires
        attempt >= MAX_RETRIES,
    ensures
        decide_spec(attempt, outcome) != RetryDecision::Retry,
{
}

/// What `str::parse::<u64>` gives: an optional `+`, then one or more
/// decimal digits, within the range of `u64`.
pub open spec fn parse_u64_spec(s: Seq<char>) -> Option<u64> {
    let body = if s.len() > 0 && s[0] == '+' {
        s.skip(1)
    } else {
        s
    };
    if body.len() == 0 || !all_digits(body) || digits_value(body) > u64::MAX {
        None
    } else {
        Some(digits_value(body) as u64)
    }
}

proof fn lemma_digits_grow(s: Seq<char>, i: int)
    requires
        0 <= i <= s.len(),
        all_digits(s),
    ensures
        digits_value(s.take(i)) <= digits_value(s),
    decreases s.len() - i,
{
    if i < s.len() {
        lemma_digits_grow(s, i + 1);
        assert(s.take(i + 1).drop_last() =~= s.take(i));
    } else {
        assert(s.take(i) =~= s);
    }
}

pub fn parse_u64(s: &[char]) -> (r: Option<u64>)
    ensures
        r == parse_u64_spec(s@),
{
    let n = s.len();
    let start: usize = if n > 0 && s[0] == '+' {
        1
    } else {
        0
    };
    let ghost body = s@.subrange(start as int, n as int);
    assert(body =~= (if s@.len() > 0 && s@[0] == '+' { s@.skip(1) } else { s@ }));
    if start == n {
        return None;
    }
    let mut i: usize = start;
    while i < n
        invariant
            n == s@.len(),
            start <= i <= n,
            body == s@.subrange(start as int, n as int),
            body == (if s@.len() > 0 && s@[0] == '+' { s@.skip(1) } else { s@ }),
            forall|k: int| start <= k < i ==> is_digit(#[trigger] s@[k]),
        decreases n - i,
    {
        if !('0' <= s[i] && s[i] <= '9') {
            assert(!is_digit(body[i - start]));
            return None;
        }
        i = i + 1;
    }
    assert(all_digits(body)) by {
        assert forall|k: int| 0 <= k < body.len() implies is_digit(#[trigger] body[k]) by {
            assert(body[k] == s@[k + start]);
        }
    }
    let mut acc: u128 = 0;
    let mut j: usize = start;
    while j < n
        invariant
            n == s@.len(),
            start <= j <= n,
            body == s@.subrange(start as int, n as int),
            body == (if s@.len() > 0 && s@[0] == '+' { s@.skip(1) } else { s@ }),
            all_digits(body),
            acc == digits_value(body.take(j - start)),
            acc <= u64::MAX,
        decreases n - j,
    {
        assert(body.take(j - start + 1).drop_last() =~= body.take(j - start));
        assert(body.take(j - start + 1).last() == s@[j as int]);
        assert(is_digit(body[j - start]));
        let d: u128 = (s[j] as u32 - 48) as u128;
        acc = acc * 10 + d;
        j = j + 1;
        if acc > u64::MAX as u128 {
            proof {
                lemma_digits_grow(body, j - start);
            }
            return None;
        }
    }
    assert(body.take(n - start) =~= body);
    Some(acc as u64)
}

/// 2 to the power `k`.
pub open spec fn pow2(k: nat) -> nat
    decreases k,
{
    if k == 0 {
        1
    } else {
        2 * pow2((k - 1) as nat)
    }
}

proof fn lemma_pow2_mono(a: nat, b: nat)
    requires
        a <= b,
    ensures
        pow2(a) <= pow2(b),
    decreases b,
{
    if a < b {
        lemma_pow2_mono(a, (b - 1) as nat);
    }
}

/// The computed back-off before attempt `attempt + 1`, in milliseconds:
/// `200 * 2^(attempt-1)` plus the jitter, at most 5 s.
pub open spec fn backoff_spec(attempt: u32, jitter_ms: u64) -> int {
    let b = BASE_BACKOFF_MS * pow2((attempt - 1) as nat) + jitter_ms;
    if b > MAX_BACKOFF_MS {
        MAX_BACKOFF_MS as int
    } else {
        b
    }
}

/// The wait before attempt `attempt + 1`, in milliseconds: the smaller of
/// what a numeric `Retry-After` header asks and the computed back-off, or
/// the back-off alone when there is no such header.
pub open spec fn delay_spec(attempt: u32, retry_after: Option<Seq<char>>, jitter_ms: u64) -> int {
    match retry_after {
        Some(h) if parse_u64_spec(h) is Some => {
            let asked = parse_u64_spec(h)->0 * 1000;
            if asked < backoff_spec(attempt, jitter_ms) {
                asked
            } else {
                backoff_spec(attempt, jitter_ms)
            }
        },
        _ => backoff_spec(attempt, jitter_ms),
    }
}

fn backoff_ms(attempt: u32, jitter_ms: u64) -> (r: u64)
    requires
        attempt >= 1,
    ensures
        r == backoff_spec(attempt, jitter_ms),
{
    let mut p: u64 = 1;
    let mut k: u32 = 1;
    while k < attempt && p < 32
        invariant
            1 <= k <= attempt,
            p == pow2((k - 1) as nat),
            p <= 64,
        decreases attempt - k,
    {
        p = p * 2;
        k = k + 1;
    }
    if k < attempt {
        proof {
            lemma_pow2_mono((k - 1) as nat, (attempt - 1) as nat);
        }
        return MAX_BACKOFF_MS;
    }
    let b: u128 = (BASE_BACKOFF_MS as u128) * (p as u128) + (jitter_ms as u128);
    if b > MAX_BACKOFF_MS as u128 {
        MAX_BACKOFF_MS
    } else {
        b as u64
    }
}

pub fn retry_delay_ms(attempt: u32, retry_after: Option<&str>, jitter_ms: u64) -> (r: u64)
    requires
        attempt >= 1,
    ensures
        r == delay_spec(attempt, crate::signature::opt_view(retry_after), jitter_ms),
{
    let b = backoff_ms(attempt, jitter_ms);
    match retry_after {
        Some(h) => {
            let cs = chars_of(h);
            match parse_u64(cs.as_slice()) {
                Some(secs) => {
                    let asked: u128 = (secs as u128) * 1000;
                    if asked < b as u128 {
                        asked as u64
                    } else {
                        b
                    }
                },
                None => b,
            }
        },
        None => b,
    }
}

/// The jitter added to a computed back-off: the current sub-second
/// milliseconds, modulo 100.
pub fn jitter_ms(subsec_millis: u32) -> (r: u64)
    ensures
        r == subsec_millis % 100,
        r < 100,
{
    (subsec_millis % 100) as u64
}

} // verus!
