use load0::access::{HeaderField, TokenVerdict};
use load0::dispatch::{Dispatcher, RequestDecision};
use load0::limiter::RateLimiter;
use load0::access::AccessTier;

#[test]
fn burst_of_three_admits_exactly_three_immediate_requests() {
    let mut limiter = RateLimiter::new(3);
    let key = "caller-1".to_string();
    let now: u64 = 1_000_000;

    assert!(limiter.try_consume(&key, now));
    assert!(limiter.try_consume(&key, now));
    assert!(limiter.try_consume(&key, now));
    assert!(!limiter.try_consume(&key, now));

    // after waiting one second, at least one more request is admitted
    assert!(limiter.try_consume(&key, now + 1000));
}

#[test]
fn distinct_keys_have_independent_buckets() {
    let mut limiter = RateLimiter::new(1);
    let now: u64 = 5_000;
    assert!(limiter.try_consume(&"alpha".to_string(), now));
    assert!(!limiter.try_consume(&"alpha".to_string(), now));
    assert!(limiter.try_consume(&"beta".to_string(), now));
}

#[test]
fn refill_is_capped_at_the_burst_capacity() {
    let mut limiter = RateLimiter::new(2);
    let key = "caller-2".to_string();
    let now: u64 = 10_000;
    assert!(limiter.try_consume(&key, now));
    assert!(limiter.try_consume(&key, now));
    assert!(!limiter.try_consume(&key, now));

    // a very long wait refills only up to the capacity of two tokens
    let later = now + 3_600_000;
    assert!(limiter.try_consume(&key, later));
    assert!(limiter.try_consume(&key, later));
    assert!(!limiter.try_consume(&key, later));
}

fn dispatcher_with_public_burst(burst: u32) -> Dispatcher {
    Dispatcher::new(
        vec!["cloud.load.network".to_string()],
        "top-secret".to_string(),
        burst,
        60,
        999999,
    )
}

#[test]
fn whitelisted_requests_are_never_rate_limited() {
    let mut d = dispatcher_with_public_burst(1);
    let host = "cloud.load.network".to_string();
    let now: u64 = 42_000;
    // far more requests than any burst allows; every one is forwarded and
    // no bucket is ever charged
    for i in 0..10u64 {
        let decision = d.handle_request(
            &host,
            None,
            TokenVerdict::Rejected,
            Some("10.0.0.9".to_string()),
            HeaderField::Missing,
            now + i,
        );
        assert_eq!(decision, RequestDecision::Forward(AccessTier::Whitelisted));
    }
}

#[test]
fn public_requests_hit_the_public_limiter() {
    let mut d = dispatcher_with_public_burst(2);
    let host = "example.com".to_string();
    let now: u64 = 99_000;
    let peer = || Some("10.1.2.3".to_string());

    let first = d.handle_request(
        &host,
        None,
        TokenVerdict::Rejected,
        peer(),
        HeaderField::Missing,
        now,
    );
    assert_eq!(first, RequestDecision::Forward(AccessTier::Public));
    let second = d.handle_request(
        &host,
        None,
        TokenVerdict::Rejected,
        peer(),
        HeaderField::Missing,
        now,
    );
    assert_eq!(second, RequestDecision::Forward(AccessTier::Public));
    let third = d.handle_request(
        &host,
        None,
        TokenVerdict::Rejected,
        peer(),
        HeaderField::Missing,
        now,
    );
    assert_eq!(third, RequestDecision::TooManyRequests(AccessTier::Public));
}

#[test]
fn missing_peer_information_is_an_extraction_error() {
    let mut d = dispatcher_with_public_burst(2);
    let host = "example.com".to_string();
    let decision = d.handle_request(
        &host,
        None,
        TokenVerdict::Rejected,
        None,
        HeaderField::Missing,
        7_000,
    );
    assert_eq!(decision, RequestDecision::KeyUnavailable);
}
