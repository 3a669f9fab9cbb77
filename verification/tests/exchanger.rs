use oidc_rs::{
    cache_key, cache_ttl, classify_token_status, discovery_url, require_token_endpoint,
    token_request_form, AuthError, CacheLookup, ExchangeCache,
};
use std::time::Duration;

const S: u64 = 1_000_000_000;

fn issued(jwt: &str, expires_in: Option<u64>) -> Result<(String, Option<u64>), AuthError> {
    Ok((jwt.to_string(), expires_in))
}

#[test]
fn cache_serves_successful_exchange() {
    let mut c = ExchangeCache::new(Duration::from_secs(3600));
    let k = cache_key("cid", "sec");
    assert!(matches!(c.lookup(&k, 0), CacheLookup::Miss));
    c.record(k.duplicate(), &issued("jwt-1", Some(3600)), 0);
    match c.lookup(&k, 10 * S) {
        CacheLookup::Fresh(t) => assert_eq!(t, "jwt-1"),
        other => panic!("unexpected {:?}", other),
    }
    // Cached until expires_in - 60 s.
    assert!(matches!(c.lookup(&k, 3540 * S - 1), CacheLookup::Fresh(_)));
    assert!(matches!(c.lookup(&k, 3540 * S), CacheLookup::Miss));
    assert_eq!(c.positive_len(), 0);
}

#[test]
fn queued_callers_share_one_rejection() {
    // Twenty callers miss together; one request is made and rejected; the
    // other nineteen look up again after the lock and are answered from the
    // negative cache, so only one request is ever sent.
    let mut c = ExchangeCache::new(Duration::from_secs(3600));
    let k = cache_key("cid", "bad");
    let mut requests = 0;
    let mut misses = 0;
    for _ in 0..20 {
        if matches!(c.lookup(&k, 0), CacheLookup::Miss) {
            misses += 1;
        }
    }
    assert_eq!(misses, 20);
    let mut answers = Vec::new();
    for i in 0..20u64 {
        match c.lookup(&k, S + i) {
            CacheLookup::Miss => {
                requests += 1;
                c.record(k.duplicate(), &Err(AuthError::IdpRejected), S + i);
                answers.push(Err(AuthError::IdpRejected));
            }
            CacheLookup::Refused(e) => answers.push(Err(e)),
            CacheLookup::Fresh(t) => answers.push(Ok(t)),
        }
    }
    assert_eq!(requests, 1);
    assert_eq!(answers.len(), 20);
    assert!(answers.iter().all(|a| matches!(a, Err(AuthError::IdpRejected))));
}

#[test]
fn queued_callers_share_one_token() {
    let mut c = ExchangeCache::new(Duration::from_secs(3600));
    let k = cache_key("cid", "sec");
    let mut requests = 0;
    for i in 0..20u64 {
        match c.lookup(&k, i) {
            CacheLookup::Miss => {
                requests += 1;
                c.record(k.duplicate(), &issued("jwt-1", Some(3600)), i);
            }
            CacheLookup::Fresh(t) => assert_eq!(t, "jwt-1"),
            CacheLookup::Refused(e) => panic!("unexpected {:?}", e),
        }
    }
    assert_eq!(requests, 1);
}

#[test]
fn repeated_flush_evicts_nothing_more() {
    let mut c = ExchangeCache::new(Duration::from_secs(3600));
    c.record(cache_key("cid", "sec"), &issued("jwt-1", None), 0);
    c.record(cache_key("other", "sec"), &Err(AuthError::IdpRejected), 0);
    assert_eq!(c.flush(Some("cid")), (1, 0));
    assert_eq!(c.flush(Some("cid")), (0, 0));
    assert_eq!(c.flush(None), (0, 1));
    assert_eq!(c.flush(None), (0, 0));
}

#[test]
fn cache_key_depends_on_secret_digest() {
    let a = cache_key("cid", "sec");
    let b = cache_key("cid", "other");
    assert_ne!(a, b);
    assert_eq!(a, cache_key("cid", "sec"));
    assert_ne!(&a.secret_hash[..3], b"sec");
    // SHA-256("sec")
    assert_eq!(a.secret_hash[0], 0xad);
    assert_eq!(a.secret_hash[31], 0x0b);
}

#[test]
fn rejection_is_negative_cached() {
    let mut c = ExchangeCache::new(Duration::from_secs(3600));
    let k = cache_key("cid", "bad");
    assert!(matches!(c.lookup(&k, 0), CacheLookup::Miss));
    c.record(k.duplicate(), &Err(AuthError::IdpRejected), 0);
    assert!(matches!(
        c.lookup(&k, 29 * S),
        CacheLookup::Refused(AuthError::IdpRejected)
    ));
    assert!(matches!(c.lookup(&k, 30 * S), CacheLookup::Miss));
    assert_eq!(c.negative_len(), 0);
}

#[test]
fn transient_failure_is_negative_cached_briefly() {
    let mut c = ExchangeCache::new(Duration::from_secs(3600));
    let k = cache_key("cid", "sec");
    c.record(k.duplicate(), &Err(AuthError::IdpUnreachable("boom".into())), 0);
    match c.lookup(&k, 4 * S) {
        CacheLookup::Refused(AuthError::IdpUnreachable(m)) => {
            assert_eq!(m, "recent transient failure")
        }
        other => panic!("unexpected {:?}", other),
    }
    assert!(matches!(c.lookup(&k, 5 * S), CacheLookup::Miss));
}

#[test]
fn malformed_responses_are_not_cached() {
    let mut c = ExchangeCache::new(Duration::from_secs(3600));
    let k = cache_key("cid", "sec");
    c.record(k.duplicate(), &Err(AuthError::IdpMalformedResponse("x".into())), 0);
    assert_eq!(c.positive_len(), 0);
    assert_eq!(c.negative_len(), 0);
}

#[test]
fn success_clears_refusal() {
    let mut c = ExchangeCache::new(Duration::from_secs(3600));
    let k = cache_key("cid", "sec");
    c.record(k.duplicate(), &Err(AuthError::IdpRejected), 0);
    c.record(k.duplicate(), &issued("jwt", None), 1);
    assert_eq!(c.negative_len(), 0);
    assert!(matches!(c.lookup(&k, 2), CacheLookup::Fresh(_)));
}

#[test]
fn flush_evicts_entries() {
    let mut c = ExchangeCache::new(Duration::from_secs(3600));
    let k = cache_key("cid", "sec");
    c.record(k.duplicate(), &issued("jwt-1", Some(3600)), 0);
    let other = cache_key("other", "sec");
    c.record(other.duplicate(), &Err(AuthError::IdpRejected), 0);
    assert_eq!(c.flush(Some("cid")), (1, 0));
    assert!(matches!(c.lookup(&k, 1), CacheLookup::Miss));
    assert!(matches!(c.lookup(&other, 1), CacheLookup::Refused(_)));
    assert_eq!(c.flush(None), (0, 1));
    assert_eq!(c.positive_len(), 0);
}

#[test]
fn expired_positive_entry_is_replaced_not_accumulated() {
    // hard_ttl = 60 s and expires_in = 61 s give a TTL of 0: already stale.
    let mut c = ExchangeCache::new(Duration::from_secs(60));
    let k = cache_key("cid", "sec");
    assert!(matches!(c.lookup(&k, 0), CacheLookup::Miss));
    c.record(k.duplicate(), &issued("jwt-1", Some(61)), 0);
    assert_eq!(c.positive_len(), 1);
    assert!(matches!(c.lookup(&k, 50), CacheLookup::Miss));
    assert_eq!(c.positive_len(), 0);
    c.record(k.duplicate(), &issued("jwt-1", Some(61)), 50);
    assert_eq!(c.positive_len(), 1);
    let k2 = cache_key("cid", "other-secret");
    assert!(matches!(c.lookup(&k2, 60), CacheLookup::Miss));
    c.record(k2.duplicate(), &issued("jwt-1", Some(61)), 60);
    assert_eq!(c.positive_len(), 2);
    assert!(matches!(c.lookup(&k, 70), CacheLookup::Miss));
    c.record(k.duplicate(), &issued("jwt-1", Some(61)), 70);
    assert_eq!(c.positive_len(), 2);
}

#[test]
fn ttl_values() {
    let h = 3600 * S;
    assert_eq!(cache_ttl(Some(3600), h), 3540 * S);
    assert_eq!(cache_ttl(Some(120), h), 60 * S);
    assert_eq!(cache_ttl(Some(7200), h), 3540 * S);
    assert_eq!(cache_ttl(None, h), 3540 * S);
    assert_eq!(cache_ttl(Some(30), h), 0);
    assert_eq!(cache_ttl(Some(u64::MAX), h), 3540 * S);
    assert_eq!(cache_ttl(Some(61), 60 * S), 0);
}

#[test]
fn discovery_and_form() {
    assert_eq!(
        discovery_url("https://idp.example.com//"),
        "https://idp.example.com/.well-known/openid-configuration"
    );
    assert_eq!(
        discovery_url("https://idp.example.com"),
        "https://idp.example.com/.well-known/openid-configuration"
    );
    let f = token_request_form("cid", "sec", Some("api"), None);
    let expected: Vec<(String, String)> = vec![
        ("grant_type".into(), "client_credentials".into()),
        ("client_id".into(), "cid".into()),
        ("client_secret".into(), "sec".into()),
        ("audience".into(), "api".into()),
    ];
    assert_eq!(f, expected);
    let f = token_request_form("cid", "sec", None, Some("a b"));
    assert_eq!(f.len(), 4);
    assert_eq!(f[3], ("scope".to_string(), "a b".to_string()));
    assert_eq!(token_request_form("c", "s", None, None).len(), 3);
    assert!(require_token_endpoint(Some("https://t".into())).is_ok());
    match require_token_endpoint(None) {
        Err(AuthError::IdpMalformedResponse(m)) => assert_eq!(m, "discovery missing token_endpoint"),
        other => panic!("unexpected {:?}", other),
    }
}

#[test]
fn token_status_classes() {
    for s in [400u16, 401, 403] {
        assert!(matches!(classify_token_status(s, "x"), Err(AuthError::IdpRejected)));
    }
    match classify_token_status(500, "500 Internal Server Error") {
        Err(AuthError::IdpUnreachable(m)) => {
            assert_eq!(m, "token endpoint status 500 Internal Server Error")
        }
        other => panic!("unexpected {:?}", other),
    }
    assert!(matches!(classify_token_status(404, "404"), Err(AuthError::IdpUnreachable(_))));
    assert!(matches!(classify_token_status(302, "302"), Err(AuthError::IdpUnreachable(_))));
    assert!(classify_token_status(200, "200 OK").is_ok());
    assert!(classify_token_status(299, "299").is_ok());
}
