//! Requests to the embedding provider: the body sent, how an answer's
//! status is read, how long to wait before trying again, and the decision
//! taken after each attempt.

use rand::Rng;
use vstd::prelude::*;
use vstd::arithmetic::power2::{lemma_pow2_unfold, pow2};
use crate::text::chars_of;

verus! {

// ---------------------------------------------------------------------
// The request
// ---------------------------------------------------------------------

/// How the provider encodes the vectors it answers with.
#[derive(Debug, Clone, Copy, PartialEq, Eq, Structural)]
pub enum EncodingFormat {
    Float,
    Base64,
}

impl EncodingFormat {
    /// The name sent to the provider: `float` or `base64`.
    pub fn as_str(&self) -> (r: &'static str)
        ensures
            r@ == match self {
                EncodingFormat::Float => "float"@,
                EncodingFormat::Base64 => "base64"@,
            },
    {
        match self {
            EncodingFormat::Float => "float",
            EncodingFormat::Base64 => "base64",
        }
    }
}

/// The body of an embedding request.
#[derive(Debug, Clone)]
pub struct RequestBody {
    pub input: Vec<String>,
    pub model: String,
    pub encoding_format: Option<EncodingFormat>,
    pub dimensions: Option<u64>,
}

/// The number of dimensions of the vectors asked for.
pub const EMBEDDING_DIMENSIONS: u64 = 1536;

/// How many times a throttled request is tried again.
pub const MAX_RETRIES: u32 = 5;

/// The request for the embeddings of `input`: the model
/// `text-embedding-3-small`, vectors of floats of 1536 dimensions.
pub fn embedding_request(input: Vec<String>) -> (r: RequestBody)
    ensures
        r.input == input,
        r.model@ == "text-embedding-3-small"@,
        r.encoding_format == Some(EncodingFormat::Float),
        r.dimensions == Some(1536u64),
{
    RequestBody {
        input,
        model: String::from_str("text-embedding-3-small"),
        encoding_format: Some(EncodingFormat::Float),
        dimensions: Some(EMBEDDING_DIMENSIONS),
    }
}

// ---------------------------------------------------------------------
// Reading the answer's status
// ---------------------------------------------------------------------

/// What an answer's status says: success for `200` to `298`, throttling
/// for `429`, `502` and `520`, and failure otherwise.
#[derive(Debug, Clone, Copy, PartialEq, Eq, Structural)]
pub enum StatusClass {
    Success,
    Throttled,
    Failure,
}

/// The class of `status`.
pub open spec fn spec_status_class(status: u16) -> StatusClass {
    if 200 <= status && status < 299 {
        StatusClass::Success
    } else if status == 429 || status == 502 || status == 520 {
        StatusClass::Throttled
    } else {
        StatusClass::Failure
    }
}

/// Reads the class of an answer's status.
pub fn classify_status(status: u16) -> (c: StatusClass)
    ensures
        c == spec_status_class(status),
{
    if 200 <= status && status < 299 {
        StatusClass::Success
    } else if status == 429 || status == 502 || status == 520 {
        StatusClass::Throttled
    } else {
        StatusClass::Failure
    }
}

/// How one attempt ended.
#[derive(Debug, Clone, Copy, PartialEq, Eq, Structural)]
pub enum AttemptResult {
    /// The provider answered with the embeddings.
    Answered,
    /// The provider throttled the request; it may be tried again.
    RateLimit,
    /// The provider throttled the last allowed attempt.
    MaxRetriesExceeded,
    /// The provider refused the request.
    RequestError,
}

/// How attempt number `attempt` ends when the answer has `status`.
pub open spec fn spec_attempt_result(status: u16, attempt: u32, max_retries: u32) -> AttemptResult {
    match spec_status_class(status) {
        StatusClass::Success => AttemptResult::Answered,
        StatusClass::Throttled => if attempt >= max_retries {
            AttemptResult::MaxRetriesExceeded
        } else {
            AttemptResult::RateLimit
        },
        StatusClass::Failure => AttemptResult::RequestError,
    }
}

/// How attempt number `attempt` (counted from 0) ends when the answer has
/// `status`: a throttled answer to an attempt at or past `max_retries`
/// exhausts the retries.
pub fn attempt_result(status: u16, attempt: u32, max_retries: u32) -> (r: AttemptResult)
    ensures
        r == spec_attempt_result(status, attempt, max_retries),
{
    match classify_status(status) {
        StatusClass::Success => AttemptResult::Answered,
        StatusClass::Throttled => if attempt >= max_retries {
            AttemptResult::MaxRetriesExceeded
        } else {
            AttemptResult::RateLimit
        },
        StatusClass::Failure => AttemptResult::RequestError,
    }
}

/// Whether the server's wait asked in `Retry-After` is honoured: only for
/// a throttled attempt that will be tried again.
pub fn honours_retry_after(result: AttemptResult) -> (b: bool)
    ensures
        b <==> result == AttemptResult::RateLimit,
{
    match result {
        AttemptResult::RateLimit => true,
        _ => false,
    }
}

// ---------------------------------------------------------------------
// Decimal numbers in headers
// ---------------------------------------------------------------------

/// Whether `c` is an ASCII digit.
pub open spec fn is_digit(c: char) -> bool {
    48 <= (c as u32) && (c as u32) <= 57
}

/// The value of the decimal digits `s`.
pub open spec fn digits_value(s: Seq<char>) -> nat
    decreases s.len(),
{
    if s.len() == 0 {
        0
    } else {
        digits_value(s.drop_last()) * 10 + ((s.last() as u32) - 48) as nat
    }
}

/// `s` without one leading `+`.
pub open spec fn without_plus(s: Seq<char>) -> Seq<char> {
    if s.len() > 0 && s[0] == '+' {
        s.drop_first()
    } else {
        s
    }
}

/// Every character of `d` is a digit.
pub open spec fn all_digits(d: Seq<char>) -> bool {
    forall|i: int| 0 <= i < d.len() ==> is_digit(#[trigger] d[i])
}

/// What `str::parse::<u64>` gives: an optional `+` then at least one
/// digit and nothing else, with a value that fits in 64 bits.
pub open spec fn spec_parse_u64(s: Seq<char>) -> Option<u64> {
    let d = without_plus(s);
    if d.len() > 0 && all_digits(d) && digits_value(d) <= u64::MAX {
        Some(digits_value(d) as u64)
    } else {
        None
    }
}

/// A longer prefix of digits has at least the value of a shorter one.
proof fn lemma_digits_value_grows(s: Seq<char>, i: int)
    requires
        0 <= i <= s.len(),
        all_digits(s),
    ensures
        digits_value(s.take(i)) <= digits_value(s),
    decreases s.len() - i,
{
    if i < s.len() {
        lemma_digits_value_grows(s, i + 1);
        assert(s.take(i + 1).drop_last() =~= s.take(i));
    } else {
        assert(s.take(i) =~= s);
    }
}

/// Reads a decimal number as `str::parse::<u64>` does.
pub fn parse_u64(s: &str) -> (r: Option<u64>)
    ensures
        r == spec_parse_u64(s@),
{
    let v = chars_of(s);
    let start: usize = if v.len() > 0 && v[0] == '+' { 1 } else { 0 };
    let ghost d = without_plus(v@);
    assert(d =~= v@.subrange(start as int, v@.len() as int));
    if start >= v.len() {
        return None;
    }
    let mut acc: u64 = 0;
    let mut i = start;
    assert(v@.subrange(start as int, start as int) =~= Seq::<char>::empty());
    while i < v.len()
        invariant
            start <= i <= v.len(),
            v@ == s@,
            d == without_plus(v@),
            d == v@.subrange(start as int, v@.len() as int),
            forall|k: int| start <= k < i ==> is_digit(v@[k]),
            acc as nat == digits_value(v@.subrange(start as int, i as int)),
        decreases v.len() - i,
    {
        let c = v[i];
        let code = c as u32;
        if !(48 <= code && code <= 57) {
            assert(d[i - start] == c);
            assert(!is_digit(d[i - start]));
            return None;
        }
        let digit: u64 = (code - 48) as u64;
        assert(v@.subrange(start as int, i + 1).drop_last() =~= v@.subrange(start as int, i as int));
        assert(v@.subrange(start as int, i + 1).last() == c);
        assert(digits_value(v@.subrange(start as int, i + 1)) == acc * 10 + digit);
        match acc.checked_mul(10) {
            Some(m) => match m.checked_add(digit) {
                Some(n) => {
                    acc = n;
                },
                None => {
                    proof {
                        if all_digits(d) {
                            assert(d.take(i + 1 - start) =~= v@.subrange(start as int, i + 1));
                            lemma_digits_value_grows(d, i + 1 - start);
                        }
                    }
                    return None;
                },
            },
            None => {
                proof {
                    if all_digits(d) {
                        assert(d.take(i + 1 - start) =~= v@.subrange(start as int, i + 1));
                        lemma_digits_value_grows(d, i + 1 - start);
                    }
                }
                return None;
            },
        }
        i = i + 1;
    }
    Some(acc)
}

// ---------------------------------------------------------------------
// Waiting between attempts
// ---------------------------------------------------------------------

/// The wait before attempt number `attempt`, before jitter: the base wait
/// doubled once per earlier attempt.
pub open spec fn spec_backoff(time_backoff: u64, attempt: u32) -> int {
    time_backoff * pow2(attempt as nat)
}

/// The wait before attempt number `attempt`, before jitter, in
/// milliseconds. The computation does not overflow.
pub fn backoff_delay(time_backoff: u64, attempt: u32) -> (d: u64)
    requires
        attempt < 64,
        spec_backoff(time_backoff, attempt) <= u64::MAX,
    ensures
        d == spec_backoff(time_backoff, attempt),
{
    let mut p: u64 = 1;
    let mut k: u32 = 0;
    proof {
        assert(pow2(0) == 1) by {
            vstd::arithmetic::power2::lemma2_to64();
        }
    }
    while k < attempt
        invariant
            k <= attempt < 64,
            p == pow2(k as nat),
        decreases attempt - k,
    {
        proof {
            lemma_pow2_unfold((k + 1) as nat);
            vstd::arithmetic::power2::lemma_pow2_strictly_increases((k + 1) as nat, 64);
            vstd::arithmetic::power2::lemma2_to64();
        }
        p = p * 2;
        k = k + 1;
    }
    proof {
        if time_backoff > 0 {
            assert(p <= time_backoff * p) by (nonlinear_arith)
                requires
                    time_backoff > 0,
            ;
        }
    }
    time_backoff * p
}

/// Calls `rand::rng().random_range(0..=max)`: a random number between 0
/// and `max`. Only that bound is claimed; the range is never empty.
#[verifier::external_body]
fn random_up_to(max: u64) -> (r: u64)
    ensures
        r <= max,
{
    rand::rng().random_range(0..=max)
}

/// The wait before attempt number `attempt`: none before the first; then
/// the backoff plus a random jitter of at most half of it.
pub fn retry_delay(time_backoff: u64, attempt: u32) -> (d: Option<u64>)
    requires
        attempt < 64,
        attempt > 0 ==> spec_backoff(time_backoff, attempt) + spec_backoff(time_backoff, attempt) / 2
            <= u64::MAX,
    ensures
        attempt == 0 ==> d is None,
        attempt > 0 ==> d is Some && spec_backoff(time_backoff, attempt) <= d.unwrap()
            <= spec_backoff(time_backoff, attempt) + spec_backoff(time_backoff, attempt) / 2,
{
    if attempt == 0 {
        return None;
    }
    let base = backoff_delay(time_backoff, attempt);
    let jitter = random_up_to(base / 2);
    Some(base + jitter)
}

// ---------------------------------------------------------------------
// Deciding after each attempt
// ---------------------------------------------------------------------

/// What follows an attempt.
#[derive(Debug, Clone, Copy, PartialEq, Eq, Structural)]
pub enum RetryAction {
    /// The answer is read.
    Read,
    /// The request is sent again, as attempt `next`.
    Retry { next: u32 },
    /// The request fails with the attempt's result.
    Fail(AttemptResult),
}

/// What follows attempt number `attempt` that ended with `result`.
pub open spec fn spec_retry_step(attempt: u32, result: AttemptResult) -> RetryAction {
    match result {
        AttemptResult::Answered => RetryAction::Read,
        AttemptResult::RateLimit => RetryAction::Retry { next: (attempt + 1) as u32 },
        _ => RetryAction::Fail(result),
    }
}

/// Decides what follows an attempt: read the answer, try again with the
/// next attempt number, or fail.
pub fn retry_step(attempt: u32, result: AttemptResult) -> (a: RetryAction)
    requires
        attempt < u32::MAX,
    ensures
        a == spec_retry_step(attempt, result),
{
    match result {
        AttemptResult::Answered => RetryAction::Read,
        AttemptResult::RateLimit => RetryAction::Retry { next: attempt + 1 },
        _ => RetryAction::Fail(result),
    }
}

/// The attempt numbers of a run of attempts stay within the retries
/// allowed: an attempt at or past `MAX_RETRIES` that is throttled ends the
/// run, so every attempt that is tried again is below it, and the run
/// never outlives its last allowed attempt.
pub proof fn lemma_retries_bounded(status: u16, attempt: u32)
    requires
        attempt <= MAX_RETRIES,
    ensures
        spec_retry_step(attempt, spec_attempt_result(status, attempt, MAX_RETRIES)) matches RetryAction::Retry { next } ==> next <= MAX_RETRIES,
        attempt == MAX_RETRIES ==> !(spec_retry_step(attempt, spec_attempt_result(status, attempt, MAX_RETRIES)) is Retry),
{
}

/// The smaller of two lengths.
pub open spec fn min_len(a: nat, b: nat) -> nat {
    if a <= b {
        a
    } else {
        b
    }
}

/// Pairs each row index with the embedding returned for it, in order, as
/// far as the shorter of the two lists goes (`zip`).
pub fn pair_with<T>(indices: Vec<u64>, items: Vec<T>) -> (r: Vec<(u64, T)>)
    ensures
        r@.len() == min_len(indices@.len(), items@.len()),
        forall|i: int| 0 <= i < r@.len() ==> #[trigger] r@[i] == (indices@[i], items@[i]),
{
    let ghost orig = items@;
    let n = if indices.len() <= items.len() {
        indices.len()
    } else {
        items.len()
    };
    let mut rest = items;
    let mut r: Vec<(u64, T)> = Vec::new();
    let mut k: usize = 0;
    assert(orig.skip(0) =~= orig);
    while k < n
        invariant
            n == min_len(indices@.len(), orig.len()),
            k <= n,
            rest@ == orig.skip(k as int),
            r@.len() == k,
            forall|i: int| 0 <= i < k ==> #[trigger] r@[i] == (indices@[i], orig[i]),
        decreases n - k,
    {
        assert(rest@[0] == orig[k as int]);
        let item = rest.remove(0);
        assert(rest@ =~= orig.skip(k + 1));
        r.push((indices[k], item));
        k = k + 1;
    }
    r
}

} // verus!
