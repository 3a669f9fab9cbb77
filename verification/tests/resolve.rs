use oidc_rs::{parse_authorization, parse_basic_payload, strip_scheme_prefix, AuthError, Credentials};

#[test]
fn strip_scheme_prefix_matches_case_insensitively() {
    assert_eq!(strip_scheme_prefix("Bearer abc", "Bearer"), Some("abc"));
    assert_eq!(strip_scheme_prefix("bearer abc", "Bearer"), Some("abc"));
    assert_eq!(strip_scheme_prefix("BEARER abc", "Bearer"), Some("abc"));
    assert_eq!(
        strip_scheme_prefix("Basic dXNlcjpwYXNz", "Basic"),
        Some("dXNlcjpwYXNz")
    );
}

#[test]
fn strip_scheme_prefix_rejects_no_space_after_scheme() {
    assert_eq!(strip_scheme_prefix("BearerToken abc", "Bearer"), None);
}

#[test]
fn strip_scheme_prefix_rejects_too_short() {
    assert_eq!(strip_scheme_prefix("", "Bearer"), None);
    assert_eq!(strip_scheme_prefix("Bearer", "Bearer"), None);
}

#[test]
fn strip_scheme_prefix_trims_leading_whitespace_after_scheme() {
    assert_eq!(strip_scheme_prefix("Bearer    abc", "Bearer"), Some("abc"));
}

#[test]
fn strip_scheme_prefix_edge_cases() {
    // A tab is not the required space separator.
    assert_eq!(strip_scheme_prefix("Bearer\tabc", "Bearer"), None);
    // Only whitespace after the separator leaves an empty credential.
    assert_eq!(strip_scheme_prefix("Bearer   ", "Bearer"), Some(""));
    // Unicode whitespace after the separator is trimmed too; trailing kept.
    assert_eq!(strip_scheme_prefix("Bearer \u{3000}abc ", "Bearer"), Some("abc "));
    // A different scheme does not match.
    assert_eq!(strip_scheme_prefix("Basic abc", "Bearer"), None);
}

fn basic(id: &str, secret: &str) -> Credentials {
    Credentials::Basic {
        client_id: id.to_string(),
        secret: secret.to_string(),
    }
}

fn same(a: &Result<Credentials, AuthError>, b: &Result<Credentials, AuthError>) -> bool {
    format!("{:?}", a) == format!("{:?}", b)
}

#[test]
fn parse_authorization_bearer_and_basic() {
    let r = parse_authorization(Some("Bearer eyJ.abc.def"));
    assert!(same(&r, &Ok(Credentials::Bearer("eyJ.abc.def".into()))));
    // base64("user:pass") is dXNlcjpwYXNz; the decode must actually happen.
    let r = parse_authorization(Some("Basic dXNlcjpwYXNz"));
    assert!(same(&r, &Ok(basic("user", "pass"))));
    // Scheme in any case, credential trimmed on both sides.
    let r = parse_authorization(Some("bAsIc   dXNlcjpwYXNz  "));
    assert!(same(&r, &Ok(basic("user", "pass"))));
    // Only the first ':' separates: base64("id:pa:ss") = aWQ6cGE6c3M=
    let r = parse_authorization(Some("Basic aWQ6cGE6c3M="));
    assert!(same(&r, &Ok(basic("id", "pa:ss"))));
}

#[test]
fn parse_authorization_errors() {
    assert!(matches!(parse_authorization(None), Err(AuthError::MissingHeader)));
    assert!(matches!(
        parse_authorization(Some("Digest abc")),
        Err(AuthError::MalformedHeader)
    ));
    // Not base64.
    assert!(matches!(
        parse_authorization(Some("Basic !!!")),
        Err(AuthError::MalformedHeader)
    ));
    // base64("nocolon") = bm9jb2xvbg==
    assert!(matches!(
        parse_authorization(Some("Basic bm9jb2xvbg==")),
        Err(AuthError::MalformedHeader)
    ));
    // base64 of the bytes [0xff, 0x3a] is not UTF-8.
    assert!(matches!(
        parse_authorization(Some("Basic /zo=")),
        Err(AuthError::MalformedHeader)
    ));
}

#[test]
fn parse_basic_payload_cases() {
    assert!(same(
        &parse_basic_payload(Some(b"a:b".to_vec())),
        &Ok(basic("a", "b"))
    ));
    assert!(same(&parse_basic_payload(Some(b":".to_vec())), &Ok(basic("", ""))));
    assert!(matches!(
        parse_basic_payload(None),
        Err(AuthError::MalformedHeader)
    ));
    assert!(matches!(
        parse_basic_payload(Some(vec![0xc3, 0x28])),
        Err(AuthError::MalformedHeader)
    ));
}

#[test]
fn multibyte_characters_at_the_scheme_cut_are_refused() {
    // 'é' takes two bytes, so byte 6 falls inside it: no panic, no match.
    assert_eq!(strip_scheme_prefix("Beareé abc", "Bearer"), None);
    assert_eq!(strip_scheme_prefix("Basié abc", "Basic"), None);
    assert_eq!(strip_scheme_prefix("ééé", "Bearer"), None);
    assert!(matches!(
        parse_authorization(Some("Beareé abc")),
        Err(AuthError::MalformedHeader)
    ));
    assert!(matches!(
        parse_authorization(Some("Basié abc")),
        Err(AuthError::MalformedHeader)
    ));
    // A multi-byte credential after the separator is kept whole.
    assert_eq!(strip_scheme_prefix("Bearer é", "Bearer"), Some("é"));
}

#[test]
fn malformed_header_cases_from_the_docs() {
    assert!(matches!(
        parse_authorization(Some("Token abc")),
        Err(AuthError::MalformedHeader)
    ));
    // base64("userpass") has no ':'.
    assert!(matches!(
        parse_authorization(Some("Basic dXNlcnBhc3M=")),
        Err(AuthError::MalformedHeader)
    ));
    assert_eq!(strip_scheme_prefix("Bearer abc ", "Bearer"), Some("abc "));
}
