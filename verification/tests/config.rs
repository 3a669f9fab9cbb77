use oidc_rs::{AuthConfig, BuildError};
use std::time::Duration;

#[test]
fn disabled_constructor() {
    assert!(matches!(AuthConfig::disabled(), AuthConfig::Disabled));
}

#[test]
fn builder_requires_issuer_and_audiences() {
    let err = AuthConfig::builder().build().unwrap_err();
    assert!(matches!(err, BuildError::MissingIssuer));

    let err = AuthConfig::builder()
        .issuer("https://idp.example.com")
        .build()
        .unwrap_err();
    assert!(matches!(err, BuildError::EmptyAudiences));
}

#[test]
fn builder_rejects_zero_durations() {
    let err = AuthConfig::builder()
        .issuer("https://idp.example.com")
        .audiences(&["api"])
        .basic_cache_ttl(Duration::ZERO)
        .build()
        .unwrap_err();
    assert!(matches!(err, BuildError::NonPositiveBasicCacheTtl));

    let err = AuthConfig::builder()
        .issuer("https://idp.example.com")
        .audiences(&["api"])
        .jwks_refresh(Duration::ZERO)
        .build()
        .unwrap_err();
    assert!(matches!(err, BuildError::NonPositiveJwksRefresh));
}

#[test]
fn builder_full_round_trip() {
    let cfg = AuthConfig::builder()
        .issuer("https://idp.example.com")
        .audiences(&["api", "dashboard"])
        .basic_audience("api")
        .basic_scope("jobs.read jobs.write")
        .basic_cache_ttl(Duration::from_secs(600))
        .jwks_refresh(Duration::from_secs(120))
        .build()
        .unwrap();
    match cfg {
        AuthConfig::Enabled(c) => {
            assert_eq!(c.issuer, "https://idp.example.com");
            assert_eq!(c.audiences, vec!["api", "dashboard"]);
            assert_eq!(c.basic_audience.as_deref(), Some("api"));
            assert_eq!(c.basic_scope.as_deref(), Some("jobs.read jobs.write"));
            assert_eq!(c.basic_cache_ttl, Duration::from_secs(600));
            assert_eq!(c.jwks_refresh, Duration::from_secs(120));
        }
        _ => panic!("expected Enabled"),
    }
}

#[test]
fn builder_defaults_unset_durations() {
    let cfg = AuthConfig::builder()
        .issuer("https://idp.example.com")
        .audiences(&["api"])
        .build()
        .unwrap();
    match cfg {
        AuthConfig::Enabled(c) => {
            assert_eq!(c.basic_cache_ttl, Duration::from_secs(3600));
            assert_eq!(c.jwks_refresh, Duration::from_secs(300));
            assert_eq!(c.basic_audience, None);
            assert_eq!(c.basic_scope, None);
        }
        _ => panic!("expected Enabled"),
    }
}

#[test]
fn builder_checks_run_in_order() {
    // A missing issuer is reported before empty audiences and zero durations.
    let err = AuthConfig::builder()
        .basic_cache_ttl(Duration::ZERO)
        .jwks_refresh(Duration::ZERO)
        .build()
        .unwrap_err();
    assert_eq!(err, BuildError::MissingIssuer);
    // Empty audiences are reported before zero durations.
    let err = AuthConfig::builder()
        .issuer("i")
        .audiences(&[])
        .basic_cache_ttl(Duration::ZERO)
        .build()
        .unwrap_err();
    assert_eq!(err, BuildError::EmptyAudiences);
    // A zero cache TTL is reported before a zero refresh interval.
    let err = AuthConfig::builder()
        .issuer("i")
        .audiences(&["a"])
        .basic_cache_ttl(Duration::ZERO)
        .jwks_refresh(Duration::ZERO)
        .build()
        .unwrap_err();
    assert_eq!(err, BuildError::NonPositiveBasicCacheTtl);
}

#[test]
fn builder_last_setting_wins() {
    let cfg = AuthConfig::builder()
        .issuer("first")
        .issuer("second")
        .audiences(&["a", "b"])
        .audiences(&["c"])
        .build()
        .unwrap();
    match cfg {
        AuthConfig::Enabled(c) => {
            assert_eq!(c.issuer, "second");
            assert_eq!(c.audiences, vec!["c"]);
        }
        _ => panic!("expected Enabled"),
    }
}

#[test]
fn build_error_messages() {
    assert_eq!(BuildError::MissingIssuer.message(), "issuer is required");
    assert_eq!(
        BuildError::EmptyAudiences.message(),
        "at least one audience is required"
    );
    assert_eq!(
        BuildError::NonPositiveBasicCacheTtl.message(),
        "basic cache TTL must be greater than zero"
    );
    assert_eq!(
        BuildError::NonPositiveJwksRefresh.message(),
        "JWKS refresh interval must be greater than zero"
    );
}

#[test]
fn nonzero_durations_are_accepted() {
    let cfg = AuthConfig::builder()
        .issuer("i")
        .audiences(&["a"])
        .basic_cache_ttl(Duration::from_nanos(1))
        .jwks_refresh(Duration::from_nanos(1))
        .build()
        .unwrap();
    match cfg {
        AuthConfig::Enabled(c) => {
            assert_eq!(c.basic_cache_ttl, Duration::from_nanos(1));
            assert_eq!(c.jwks_refresh, Duration::from_nanos(1));
        }
        _ => panic!("expected Enabled"),
    }
}

#[test]
fn audiences_from_a_list_read_at_run_time() {
    let setting = String::from("api, dashboard ,jobs");
    let owned: Vec<String> = setting.split(',').map(|a| a.trim().to_string()).collect();
    let list: Vec<&str> = owned.iter().map(String::as_str).collect();
    match AuthConfig::builder()
        .issuer("https://idp.example.com")
        .audiences(&list)
        .build()
        .unwrap()
    {
        AuthConfig::Enabled(c) => assert_eq!(c.audiences, vec!["api", "dashboard", "jobs"]),
        _ => panic!("expected Enabled"),
    }
}
