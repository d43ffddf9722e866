use rate_limiter::limiter::ConfigError;
use rate_limiter::token_bucket::Decision;
use rate_limiter::window::{
    counter_decision, counter_key, decide_on_reply, decimal_string, request_counter_key, window_of,
    FailPolicy, FixedWindowLimiter, StoreError, WindowConfig,
};

fn config(max_requests: u32, window_secs: u64) -> WindowConfig {
    WindowConfig {
        max_requests,
        window_secs,
        client_id_header: "ip".to_string(),
        fail_policy: FailPolicy::Closed,
    }
}

#[test]
fn three_per_minute_then_reject_then_new_window() {
    let mut l = FixedWindowLimiter::new(config(3, 60)).unwrap();
    let c = "1.2.3.4".to_string();
    assert_eq!(l.check(&c, 120), Decision::Allow);
    assert_eq!(l.check(&c, 130), Decision::Allow);
    assert_eq!(l.check(&c, 150), Decision::Allow);
    assert_eq!(l.check(&c, 179), Decision::Reject);
    assert_eq!(l.count(&c, 2), 4);
    assert_eq!(l.check(&c, 180), Decision::Allow);
    assert_eq!(l.count(&c, 3), 1);
}

#[test]
fn nth_request_allowed_iff_within_limit() {
    let mut l = FixedWindowLimiter::new(config(5, 10)).unwrap();
    let c = "x".to_string();
    for n in 1..=8u32 {
        let d = l.check(&c, 3);
        assert_eq!(d == Decision::Allow, n <= 5);
    }
    assert_eq!(l.count(&"y".to_string(), 0), 0);
}

#[test]
fn decimal_digits() {
    assert_eq!(decimal_string(0), "0");
    assert_eq!(decimal_string(7), "7");
    assert_eq!(decimal_string(10), "10");
    assert_eq!(decimal_string(29_000_123), "29000123");
    assert_eq!(decimal_string(u64::MAX), "18446744073709551615");
}

#[test]
fn counter_keys_join_client_and_window() {
    assert_eq!(counter_key(&"alice".to_string(), 28_000_000), "alice:28000000");
    assert_eq!(window_of(1_700_000_000, 60), 28_333_333);
    let cfg = WindowConfig { client_id_header: "X-Key".to_string(), ..config(3, 60) };
    assert_eq!(request_counter_key(&cfg, Some("1.1.1.1".to_string()), Some("k".to_string()), 125), "k:2");
    assert_eq!(request_counter_key(&cfg, Some("1.1.1.1".to_string()), None, 59), "unknown:0");
}

#[test]
fn counter_and_store_reply_decisions() {
    assert_eq!(counter_decision(3, 3), Decision::Allow);
    assert_eq!(counter_decision(4, 3), Decision::Reject);
    assert_eq!(decide_on_reply(Ok(1), 1, FailPolicy::Closed), Decision::Allow);
    assert_eq!(decide_on_reply(Ok(2), 1, FailPolicy::Open), Decision::Reject);
    assert_eq!(decide_on_reply(Err(StoreError::Unavailable), 1, FailPolicy::Open), Decision::Allow);
    assert_eq!(decide_on_reply(Err(StoreError::Unavailable), 1, FailPolicy::Closed), Decision::Reject);
}

#[test]
fn invalid_window_configs_are_refused() {
    assert_eq!(FixedWindowLimiter::new(config(0, 60)).err(), Some(ConfigError::ZeroMaxRequests));
    assert_eq!(FixedWindowLimiter::new(config(1, 0)).err(), Some(ConfigError::ZeroWindow));
    let l = FixedWindowLimiter::new(config(2, 30)).unwrap();
    assert_eq!(l.config().window_secs, 30);
}

#[test]
fn unidentified_clients_share_the_unknown_counter() {
    let mut l = FixedWindowLimiter::new(config(1, 60)).unwrap();
    let cfg = WindowConfig { client_id_header: "X-Key".to_string(), ..config(1, 60) };
    let k1 = request_counter_key(&cfg, Some("1.1.1.1".to_string()), None, 0);
    let k2 = request_counter_key(&cfg, Some("2.2.2.2".to_string()), None, 0);
    assert_eq!(k1, k2);
    let unknown = "unknown".to_string();
    assert_eq!(l.check(&unknown, 0), Decision::Allow);
    assert_eq!(l.check(&unknown, 1), Decision::Reject);
}
