//! Protection against overload: a token bucket, a limit on requests under way, and timeouts.
//!
//! A request over the rate is answered 429 with `Retry-After`, a request over the limit on
//! requests under way 429, a request that takes too long 504.
//!
//! Rates and capacities are counted in billionths of a token, time in nanoseconds, and the
//! contents of the bucket in units of 10^-18 token, so that a refill is an exact product.

use vstd::prelude::*;

use crate::http::{TextReply, TextReplyView};
use crate::text::{parse_unsigned, parsed_unsigned};

verus! {

/// Requests per second that are let through.
pub const RATE: u64 = 20_000;

/// Requests that are let through at once.
pub const BURST: u64 = 20_000;

/// Requests that may be under way at the same time.
pub const CONCURRENCY_LIMIT: usize = 1024;

/// Billionths in one token.
pub const NANO_TOKENS: u64 = 1_000_000_000;

/// The units in which the contents of a bucket are counted, per token.
pub const TOKEN: u128 = 1_000_000_000_000_000_000;

/// Units per billionth of a token.
pub const UNITS_PER_NANO: u128 = 1_000_000_000;

/// Seconds after which a request to the API is given up.
pub const API_TIMEOUT_SECS: u64 = 30;

/// Seconds after which a forwarded request is given up.
pub const PROXY_TIMEOUT_SECS: u64 = 120;

/// The contents of a token bucket.
#[verifier::ext_equal]
pub struct BucketView {
    /// The tokens in it, in units of 10^-18 token.
    pub tokens: int,
    /// When it was last refilled.
    pub last: u64,
    /// Billionths of a token that come in per second.
    pub rate: u64,
    /// Billionths of a token that it holds at most.
    pub burst: u64,
}

/// What the bucket holds at most, in units.
pub open spec fn capacity(b: BucketView) -> int {
    b.burst * UNITS_PER_NANO
}

/// The bucket after a refill: what has come in since the last one is added, and what does not
/// fit is lost.
pub open spec fn refilled(b: BucketView, now: u64) -> BucketView {
    let elapsed = if now >= b.last {
        now - b.last
    } else {
        0
    };
    let full = b.tokens + elapsed * b.rate;
    BucketView {
        tokens: if full < capacity(b) {
            full
        } else {
            capacity(b)
        },
        last: now,
        ..b
    }
}

/// Whether a request is let through.
pub open spec fn admits(b: BucketView, now: u64) -> bool {
    refilled(b, now).tokens >= TOKEN
}

/// The bucket after a request: it takes a token where there is one.
pub open spec fn after_request(b: BucketView, now: u64) -> BucketView {
    let full = refilled(b, now);
    if admits(b, now) {
        BucketView { tokens: full.tokens - TOKEN, ..full }
    } else {
        full
    }
}

/// What holds of every bucket.
pub open spec fn bucket_ok(b: BucketView) -> bool {
    0 <= b.tokens <= capacity(b)
}

/// Whole seconds, at least one, until enough has come in for one request. Where nothing ever
/// comes in, the greatest number.
pub open spec fn retry_secs(b: BucketView) -> int {
    if b.rate == 0 {
        u64::MAX as int
    } else {
        (TOKEN - b.tokens + b.rate * UNITS_PER_NANO - 1) / (b.rate * UNITS_PER_NANO)
    }
}

/// A token bucket.
pub struct Bucket {
    tokens: u128,
    last: u64,
    rate: u64,
    burst: u64,
}

impl View for Bucket {
    type V = BucketView;

    closed spec fn view(&self) -> BucketView {
        BucketView {
            tokens: self.tokens as int,
            last: self.last,
            rate: self.rate,
            burst: self.burst,
        }
    }
}

impl Bucket {
    /// A full bucket. `burst` and `rate` are billionths of a token. With a rate of 0 it is never
    /// refilled.
    pub fn new(burst: u64, rate: u64, now: u64) -> (r: Bucket)
        ensures
            bucket_ok(r@),
            r@ == (BucketView { tokens: burst * UNITS_PER_NANO, last: now, rate, burst }),
    {
        Bucket { tokens: burst as u128 * UNITS_PER_NANO, last: now, rate, burst }
    }

    /// Decides on a request that comes now.
    pub fn try_take(&mut self, now: u64) -> (r: bool)
        requires
            bucket_ok(old(self)@),
        ensures
            bucket_ok(final(self)@),
            r == admits(old(self)@, now),
            final(self)@ == after_request(old(self)@, now),
    {
        let elapsed: u64 = now.saturating_sub(self.last);
        assert(0 <= elapsed * self.rate <= u64::MAX * u64::MAX) by (nonlinear_arith)
            requires
                0 <= elapsed <= u64::MAX,
                0 <= self.rate <= u64::MAX,
        ;
        let gain: u128 = elapsed as u128 * self.rate as u128;
        let most: u128 = self.burst as u128 * UNITS_PER_NANO;
        self.last = now;
        self.tokens = if most - self.tokens > gain {
            self.tokens + gain
        } else {
            most
        };
        if self.tokens >= TOKEN {
            self.tokens = self.tokens - TOKEN;
            true
        } else {
            false
        }
    }

    /// Whole seconds until enough has come in for one request, where there is not enough now.
    pub fn retry_after(&self) -> (r: u64)
        requires
            bucket_ok(self@),
            self@.tokens < TOKEN,
        ensures
            r == retry_secs(self@),
            r >= 1,
    {
        if self.rate == 0 {
            return u64::MAX;
        }
        let per_sec: u128 = self.rate as u128 * UNITS_PER_NANO;
        let missing: u128 = TOKEN - self.tokens;
        let secs: u128 = (missing + per_sec - 1) / per_sec;
        assert(1 <= secs <= missing) by (nonlinear_arith)
            requires
                secs == (missing + per_sec - 1) / (per_sec as int),
                per_sec >= 1,
                missing >= 1,
        ;
        secs as u64
    }

    /// Decides on a request that comes now: lets it through, or answers it.
    pub fn rate_limit(&mut self, now: u64) -> (r: Option<TextReply>)
        requires
            bucket_ok(old(self)@),
        ensures
            bucket_ok(final(self)@),
            final(self)@ == after_request(old(self)@, now),
            match r {
                None => admits(old(self)@, now),
                Some(reply) => !admits(old(self)@, now) && reply@ == (TextReplyView {
                    status: 429,
                    body: "rate limit exceeded"@,
                    retry_after: Some(retry_secs(final(self)@) as u64),
                }),
            },
    {
        if self.try_take(now) {
            None
        } else {
            Some(
                TextReply {
                    status: 429,
                    body: "rate limit exceeded",
                    retry_after: Some(self.retry_after()),
                },
            )
        }
    }
}

/// The bucket after requests at these times, and how many of them were let through.
pub open spec fn after_requests(b: BucketView, times: Seq<u64>) -> (BucketView, nat)
    decreases times.len(),
{
    if times.len() == 0 {
        (b, 0)
    } else {
        let (c, n) = after_requests(b, times.drop_last());
        (
            after_request(c, times.last()),
            if admits(c, times.last()) {
                n + 1
            } else {
                n
            },
        )
    }
}

/// Times that go forward from `start`.
pub open spec fn forward(start: u64, times: Seq<u64>) -> bool {
    &&& forall|i: int| 0 <= i < times.len() ==> start <= #[trigger] times[i]
    &&& forall|i: int, j: int| 0 <= i <= j < times.len() ==> times[i] <= times[j]
}

/// However the requests come, in any span of time no more of them are let through than the
/// capacity of the bucket and what comes in during the span.
pub proof fn lemma_rate_is_bounded(b: BucketView, times: Seq<u64>)
    requires
        bucket_ok(b),
        forward(b.last, times),
    ensures
        ({
            let (c, admitted) = after_requests(b, times);
            &&& bucket_ok(c)
            &&& c.rate == b.rate && c.burst == b.burst
            &&& c.last == if times.len() == 0 {
                b.last
            } else {
                times.last()
            }
            &&& admitted * TOKEN + c.tokens <= b.tokens + (c.last - b.last) * b.rate
            &&& admitted * TOKEN <= capacity(b) + (c.last - b.last) * b.rate
        }),
    decreases times.len(),
{
    if times.len() > 0 {
        let front = times.drop_last();
        let t = times.last();
        assert(forward(b.last, front));
        lemma_rate_is_bounded(b, front);
        let (c, n) = after_requests(b, front);
        assert(c.last <= t) by {
            if front.len() > 0 {
                assert(front.last() == times[times.len() - 2]);
            }
        }
        assert((t - c.last) * b.rate + (c.last - b.last) * b.rate == (t - b.last) * b.rate)
            by (nonlinear_arith);
        assert((t - c.last) * b.rate >= 0) by (nonlinear_arith)
            requires
                t >= c.last,
        ;
        assert((n + 1) * TOKEN == n * TOKEN + TOKEN) by (nonlinear_arith);
    }
}

/// Who was turned away and comes back after the seconds named is let through, if nobody else
/// came in between, the bucket can hold a token, and it is refilled at all.
pub proof fn lemma_retry_succeeds(b: BucketView, now: u64, later: u64)
    requires
        bucket_ok(b),
        capacity(b) >= TOKEN,
        b.rate > 0,
        !admits(b, now),
        b.last <= now,
        later >= now + retry_secs(after_request(b, now)) * 1_000_000_000,
    ensures
        admits(after_request(b, now), later),
{
    let c = after_request(b, now);
    assert((now - b.last) * b.rate >= 0) by (nonlinear_arith)
        requires
            now >= b.last,
    ;
    let per = b.rate * UNITS_PER_NANO;
    let missing = TOKEN - c.tokens;
    let secs = retry_secs(c);
    assert(secs * per >= missing && secs >= 0) by (nonlinear_arith)
        requires
            secs == (missing + per - 1) / per,
            per >= 1,
            missing >= 1,
    ;
    assert((later - now) * b.rate >= secs * per) by (nonlinear_arith)
        requires
            later - now >= secs * 1_000_000_000,
            per == b.rate * 1_000_000_000,
            b.rate >= 0,
            secs >= 0,
    ;
}

/// A bucket that is never refilled lets no more requests through than it holds tokens.
pub proof fn lemma_never_refilled(b: BucketView, times: Seq<u64>)
    requires
        bucket_ok(b),
        b.rate == 0,
        forward(b.last, times),
    ensures
        after_requests(b, times).1 * TOKEN <= b.tokens,
{
    lemma_rate_is_bounded(b, times);
    let c = after_requests(b, times).0;
    assert((c.last - b.last) * b.rate == 0) by (nonlinear_arith)
        requires
            b.rate == 0,
    ;
}

/// The answer to a request over the limit on requests under way.
pub fn overloaded() -> (r: TextReply)
    ensures
        r@ == (TextReplyView { status: 429, body: "service overloaded"@, retry_after: None }),
{
    TextReply { status: 429, body: "service overloaded", retry_after: None }
}

/// The answer to a request that took too long.
pub fn timed_out() -> (r: TextReply)
    ensures
        r@ == (TextReplyView { status: 504, body: ""@, retry_after: None }),
{
    TextReply { status: 504, body: "", retry_after: None }
}

/// The limit that a setting gives: a number above 0, or else the default.
pub open spec fn limit_of(setting: Option<&str>, default: usize) -> int {
    match setting {
        Some(s) => match parsed_unsigned(s@, usize::MAX as int) {
            Some(n) => if n > 0 {
                n
            } else {
                default as int
            },
            None => default as int,
        },
        None => default as int,
    }
}

/// The limit that a setting gives: a number above 0, or else the default.
pub fn env_usize(setting: Option<&str>, default: usize) -> (r: usize)
    ensures
        r == limit_of(setting, default),
{
    match setting {
        Some(s) => match parse_unsigned(s, usize::MAX as u64) {
            Some(n) => if n > 0 {
                n as usize
            } else {
                default
            },
            None => default,
        },
        None => default,
    }
}

} // verus!
