use rate_limiter::identity::resolve_client_key;
use rate_limiter::limiter::{
    admission_of, rejection, Admission, ConfigError, RateLimiterConfig, RateLimiterMiddleware,
    TOO_MANY_REQUESTS,
};
use rate_limiter::store::KeyedStore;
use rate_limiter::token_bucket::{Decision, TOKEN};

fn some(s: &str) -> Option<String> {
    Some(s.to_string())
}

fn middleware(header: &str) -> RateLimiterMiddleware {
    RateLimiterMiddleware::new(RateLimiterConfig {
        capacity: TOKEN,
        refill_rate: 1,
        client_id_header: header.to_string(),
    })
    .unwrap()
}

#[test]
fn resolves_peer_address_in_ip_mode() {
    let ip = "ip".to_string();
    assert_eq!(resolve_client_key(&ip, some("1.2.3.4:5"), some("h")), "1.2.3.4:5");
    assert_eq!(resolve_client_key(&ip, None, some("h")), "unknown");
}

#[test]
fn resolves_header_value_otherwise() {
    let h = "X-Client-Id".to_string();
    assert_eq!(resolve_client_key(&h, some("1.2.3.4"), some("alice")), "alice");
    assert_eq!(resolve_client_key(&h, some("1.2.3.4"), None), "unknown");
}

#[test]
fn rejection_is_429_with_fixed_body() {
    let r = rejection();
    assert_eq!(r.status, 429);
    assert_eq!(TOO_MANY_REQUESTS, 429);
    assert_eq!(r.body, "Too many requests: rate limit exceeded");
    assert!(matches!(admission_of(Decision::Allow), Admission::Forward));
    match admission_of(Decision::Reject) {
        Admission::Reject(j) => assert_eq!(j.status, 429),
        Admission::Forward => panic!("a rejected request was forwarded"),
    }
}

#[test]
fn middleware_forwards_then_rejects() {
    let mut m = middleware("ip");
    assert!(matches!(m.handle(some("1.1.1.1"), None, 0), Admission::Forward));
    match m.handle(some("1.1.1.1"), None, 0) {
        Admission::Reject(j) => {
            assert_eq!(j.status, 429);
            assert_eq!(j.body, "Too many requests: rate limit exceeded");
        }
        Admission::Forward => panic!("second request was forwarded"),
    }
    assert!(matches!(m.handle(some("2.2.2.2"), None, 0), Admission::Forward));
    assert!(m.limiter().bucket(&"1.1.1.1".to_string()).is_some());
}

#[test]
fn unidentified_clients_share_the_unknown_bucket() {
    let mut m = middleware("X-Api-Key");
    assert!(matches!(m.handle(some("1.1.1.1"), None, 0), Admission::Forward));
    // another caller, another address, also without the header
    assert!(matches!(m.handle(some("9.9.9.9"), None, 0), Admission::Reject(_)));
    assert_eq!(m.limiter().bucket(&"unknown".to_string()).unwrap().tokens, 0);
    assert!(matches!(m.handle(None, some("k1"), 0), Admission::Forward));

    let mut by_ip = middleware("ip");
    assert!(matches!(by_ip.handle(None, some("a"), 0), Admission::Forward));
    assert!(matches!(by_ip.handle(None, some("b"), 0), Admission::Reject(_)));
}

#[test]
fn middleware_refuses_invalid_config() {
    let r = RateLimiterMiddleware::new(RateLimiterConfig {
        capacity: 0,
        refill_rate: 1,
        client_id_header: "ip".to_string(),
    });
    assert_eq!(r.err(), Some(ConfigError::ZeroCapacity));
}

#[test]
fn keyed_store_get_and_put() {
    let mut s: KeyedStore<u64> = KeyedStore::new();
    let a = "a".to_string();
    assert_eq!(s.get(&a), None);
    s.put(a.clone(), 1);
    s.put("b".to_string(), 2);
    s.put(a.clone(), 3);
    assert_eq!(s.get(&a), Some(3));
    assert_eq!(s.get(&"b".to_string()), Some(2));
}

#[test]
fn keyed_store_keys_and_remove() {
    let mut s: KeyedStore<u64> = KeyedStore::new();
    s.put("a".to_string(), 1);
    s.put("b".to_string(), 2);
    s.put("c".to_string(), 3);
    s.remove(&"b".to_string());
    s.remove(&"zzz".to_string());
    let mut keys = s.keys();
    keys.sort();
    assert_eq!(keys, vec!["a".to_string(), "c".to_string()]);
    assert_eq!(s.get(&"b".to_string()), None);
    assert_eq!(s.get(&"c".to_string()), Some(3));
}
