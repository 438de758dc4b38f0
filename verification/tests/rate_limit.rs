use pnos_runtime::rate_limit::{
    env_usize, overloaded, timed_out, Bucket, API_TIMEOUT_SECS, BURST, CONCURRENCY_LIMIT,
    NANO_TOKENS, PROXY_TIMEOUT_SECS, RATE,
};

const SEC: u64 = 1_000_000_000;

#[test]
fn a_full_bucket_lets_its_burst_through() {
    let mut b = Bucket::new(3 * NANO_TOKENS, NANO_TOKENS, 0);
    assert!(b.try_take(0));
    assert!(b.try_take(0));
    assert!(b.try_take(0));
    assert!(!b.try_take(0));
    assert!(!b.try_take(SEC - 1));
    assert!(b.try_take(SEC));
}

#[test]
fn a_bucket_holds_no_more_than_its_burst() {
    let mut b = Bucket::new(2 * NANO_TOKENS, NANO_TOKENS, 0);
    let mut admitted = 0;
    for _ in 0..10 {
        if b.try_take(1_000_000 * SEC) {
            admitted += 1;
        }
    }
    assert_eq!(admitted, 2);
}

#[test]
fn admitted_requests_are_bounded_by_burst_and_rate() {
    let mut b = Bucket::new(5 * NANO_TOKENS, 10 * NANO_TOKENS, 0);
    let mut admitted = 0;
    for i in 0..1000u64 {
        if b.try_take(i * SEC / 100) {
            admitted += 1;
        }
    }
    assert_eq!(admitted, 104);
}

#[test]
fn who_is_turned_away_is_told_when_to_come_back() {
    let mut b = Bucket::new(NANO_TOKENS, NANO_TOKENS / 4, 0);
    assert!(b.rate_limit(0).is_none());
    let reply = b.rate_limit(0).unwrap();
    assert_eq!(reply.status, 429);
    assert_eq!(reply.body, "rate limit exceeded");
    assert_eq!(reply.retry_after, Some(4));
    assert!(b.rate_limit(4 * SEC).is_none());
}

#[test]
fn a_bucket_without_a_rate_is_never_refilled() {
    let mut b = Bucket::new(2 * NANO_TOKENS, 0, 0);
    assert!(b.rate_limit(0).is_none());
    assert!(b.rate_limit(SEC).is_none());
    let reply = b.rate_limit(u64::MAX).unwrap();
    assert_eq!(reply.status, 429);
    assert_eq!(reply.retry_after, Some(u64::MAX));
}

#[test]
fn a_clock_that_goes_back_adds_nothing() {
    let mut b = Bucket::new(NANO_TOKENS, NANO_TOKENS, 10 * SEC);
    assert!(b.try_take(10 * SEC));
    assert!(!b.try_take(5 * SEC));
}

#[test]
fn fixed_answers_and_limits() {
    assert_eq!(RATE, 20_000);
    assert_eq!(BURST, 20_000);
    assert_eq!(CONCURRENCY_LIMIT, 1024);
    assert_eq!(API_TIMEOUT_SECS, 30);
    assert_eq!(PROXY_TIMEOUT_SECS, 120);
    assert_eq!(overloaded().status, 429);
    assert_eq!(overloaded().body, "service overloaded");
    assert_eq!(timed_out().status, 504);
}

#[test]
fn limits_from_settings() {
    assert_eq!(env_usize(None, 5), 5);
    assert_eq!(env_usize(Some("30"), 5), 30);
    assert_eq!(env_usize(Some("0"), 5), 5);
    assert_eq!(env_usize(Some("-3"), 5), 5);
    assert_eq!(env_usize(Some("x"), 5), 5);
    assert_eq!(env_usize(Some(""), 5), 5);
    assert_eq!(env_usize(Some("+7"), 5), 7);
}
