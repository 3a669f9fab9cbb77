use oidc_rs::{code, public_message, response_status, retry_after_secs, AuthError};

#[test]
fn auth_error_display_messages_include_inner_strings() {
    assert_eq!(
        AuthError::MissingHeader.message(),
        "missing Authorization header"
    );
    assert_eq!(
        AuthError::BadIssuer("https://wrong.example.com".into()).message(),
        "token issuer not accepted: https://wrong.example.com"
    );
    assert_eq!(
        AuthError::IdpUnreachable("dns lookup failed".into()).message(),
        "identity provider unreachable: dns lookup failed"
    );
}

#[test]
fn auth_error_messages_of_every_variant() {
    assert_eq!(AuthError::MalformedHeader.message(), "malformed Authorization header");
    assert_eq!(AuthError::Expired.message(), "token expired");
    assert_eq!(AuthError::BadSignature.message(), "token signature invalid");
    assert_eq!(AuthError::BadAudience.message(), "token audience not accepted");
    assert_eq!(AuthError::IdpRejected.message(), "identity provider rejected credentials");
    assert_eq!(
        AuthError::IdpMalformedResponse("x".into()).message(),
        "identity provider returned malformed response: x"
    );
}

fn all_errors() -> Vec<AuthError> {
    vec![
        AuthError::MissingHeader,
        AuthError::MalformedHeader,
        AuthError::Expired,
        AuthError::BadSignature,
        AuthError::BadIssuer("https://secret-issuer.example.com".into()),
        AuthError::BadAudience,
        AuthError::IdpUnreachable("connect refused 10.0.0.1".into()),
        AuthError::IdpRejected,
        AuthError::IdpMalformedResponse("token body: <html>".into()),
    ]
}

#[test]
fn codes_and_public_messages() {
    let expected = [
        ("MISSING_AUTHORIZATION", "missing Authorization header", 401),
        ("MALFORMED_AUTHORIZATION", "malformed Authorization header", 401),
        ("TOKEN_EXPIRED", "token expired", 401),
        ("BAD_SIGNATURE", "token signature invalid", 401),
        ("BAD_ISSUER", "token issuer not accepted", 401),
        ("BAD_AUDIENCE", "token audience not accepted", 401),
        ("IDP_UNREACHABLE", "identity provider unreachable", 503),
        ("INVALID_CREDENTIALS", "invalid credentials", 401),
        (
            "IDP_MALFORMED_RESPONSE",
            "identity provider returned an unexpected response",
            503,
        ),
    ];
    for (err, (c, m, s)) in all_errors().iter().zip(expected.iter()) {
        assert_eq!(code(err), *c);
        assert_eq!(public_message(err), *m);
        assert_eq!(response_status(err), *s);
        assert_eq!(retry_after_secs(err), if *s == 503 { Some(5) } else { None });
    }
}

#[test]
fn public_messages_never_carry_runtime_detail() {
    for err in all_errors() {
        let m = public_message(&err);
        assert!(!m.contains("secret-issuer"));
        assert!(!m.contains("10.0.0.1"));
        assert!(!m.contains("<html>"));
    }
    assert_eq!(
        public_message(&AuthError::BadIssuer("a".into())),
        public_message(&AuthError::BadIssuer("b".into()))
    );
}
