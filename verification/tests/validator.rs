use base64::Engine;
use oidc_rs::{
    choose_key, claims_from_decoded, derive_algorithm, key_algorithm, parse_algorithm_name, parse_issuer_url, parse_scopes, prepare_verification,
    validation_policy, AuthError, DecodeFailure, JwkDescriptor, KeyFamily, KeyRecord, RawClaims,
    SigningAlgorithm,
};

const RSA_JWK: &str = r#"{"kty":"RSA","kid":"k1","use":"sig","alg":"RS256","n":"sXchDaQebHnPiGvyDOAT4saGEUetSyo9MKLOoWFsueri23bOdgWp4Dy1WlUzewbgBHod5pcM9H95GQRV3JDXboIRROSBigeC5yjU1hGzHHyXss8UDprecbAYxknTcQkhslANGRUZmdTOQ5qTRsLAt6BTYuyvVRdhS8exSZEy_c4gs_7svlJJQ4H9_NxsiIoLwAEk7-Q3UXERGYw_75IDrGA84-lA_-Ct4eTlXHBIY2EaV7t7LjJaynVJCpkv4LKjTTAumiGUIuQhrNhZLuF_RJLqHpM2kgWFLU7-VTdL1VbC2tejvcI2BlMkEpk1BzBZI0KQB0GaDWFLN-aEAw3vRw","e":"AQAB"}"#;
const EC_JWK_NO_ALG: &str = r#"{"kty":"EC","crv":"P-256","x":"f83OJ3D2xF1Bg8vub9tLe1gHMzV76e8Tus9uPHvRVEU","y":"x_FEzRu9m36HLN_tue659LNpXW6pCyStikYjKIWI5a0"}"#;

fn b64url(s: &str) -> String {
    base64::engine::general_purpose::URL_SAFE_NO_PAD.encode(s)
}

fn token_with_header(header: &str) -> String {
    format!("{}.{}.sig", b64url(header), b64url(r#"{"sub":"u1"}"#))
}

fn rec(kid: Option<&str>, encryption_only: bool, json: Option<&str>) -> KeyRecord {
    KeyRecord {
        kid: kid.map(String::from),
        encryption_only,
        jwk_json: json.map(String::from),
    }
}

#[test]
fn algorithm_names() {
    assert_eq!(parse_algorithm_name("RS256"), Some(SigningAlgorithm::RS256));
    assert_eq!(parse_algorithm_name("EdDSA"), Some(SigningAlgorithm::EdDSA));
    assert_eq!(parse_algorithm_name("PS512"), Some(SigningAlgorithm::PS512));
    assert_eq!(parse_algorithm_name("rs256"), None);
    assert_eq!(parse_algorithm_name("RSA_OAEP"), None);
    assert_eq!(parse_algorithm_name(""), None);
}

#[test]
fn derive_algorithm_prefers_declared_algorithm() {
    let d = JwkDescriptor { key_algorithm: Some("PS384".into()), family: KeyFamily::Rsa };
    assert_eq!(derive_algorithm(&d).unwrap(), SigningAlgorithm::PS384);
    let d = JwkDescriptor { key_algorithm: None, family: KeyFamily::Rsa };
    assert_eq!(derive_algorithm(&d).unwrap(), SigningAlgorithm::RS256);
    let d = JwkDescriptor { key_algorithm: None, family: KeyFamily::EllipticCurve };
    assert_eq!(derive_algorithm(&d).unwrap(), SigningAlgorithm::ES256);
    let d = JwkDescriptor { key_algorithm: None, family: KeyFamily::OctetKey };
    assert!(matches!(derive_algorithm(&d), Err(AuthError::BadSignature)));
    // An encryption algorithm declared on a key is refused.
    let d = JwkDescriptor { key_algorithm: Some("RSA_OAEP".into()), family: KeyFamily::Rsa };
    assert!(matches!(derive_algorithm(&d), Err(AuthError::BadSignature)));
}

fn prepared(json: &str, header: &str) -> Result<SigningAlgorithm, AuthError> {
    let keys = vec![rec(Some("k1"), false, Some(json))];
    prepare_verification(Some(&keys), &token_with_header(header)).map(|v| v.algorithm)
}

#[test]
fn header_kid_is_read() {
    let h = r#"{"alg":"RS256","kid":"k1"}"#;
    assert_eq!(prepared(RSA_JWK, h).unwrap(), SigningAlgorithm::RS256);
    // No kid in the header.
    assert!(matches!(
        prepared(RSA_JWK, r#"{"alg":"RS256"}"#),
        Err(AuthError::MalformedHeader)
    ));
    // The header is not a JWT header.
    let keys = vec![rec(Some("k1"), false, Some(RSA_JWK))];
    assert!(matches!(
        prepare_verification(Some(&keys), "not-a-jwt"),
        Err(AuthError::MalformedHeader)
    ));
}

#[test]
fn jwk_is_described() {
    let h = r#"{"alg":"ES256","kid":"k1"}"#;
    // No `alg` on an EC key: ES256.
    let ec = EC_JWK_NO_ALG.replacen('{', r#"{"kid":"k1","#, 1);
    assert_eq!(prepared(&ec, h).unwrap(), SigningAlgorithm::ES256);
    // The declared algorithm wins over the key type.
    let ps = RSA_JWK.replace(r#""alg":"RS256""#, r#""alg":"PS512""#);
    assert_eq!(prepared(&ps, h).unwrap(), SigningAlgorithm::PS512);
    // An encryption algorithm is refused.
    let oaep = RSA_JWK.replace(r#""alg":"RS256""#, r#""alg":"RSA-OAEP""#);
    assert!(matches!(prepared(&oaep, h), Err(AuthError::BadSignature)));
    // Not a JWK at all.
    match prepared("not json", h) {
        Err(AuthError::IdpMalformedResponse(m)) => assert_eq!(m, "jwk deserialize"),
        other => panic!("unexpected {:?}", other.map(|_| ())),
    }
}

#[test]
fn decoding_key_built_from_jwk() {
    let h = r#"{"alg":"RS256","kid":"k1"}"#;
    // A readable RSA JWK whose modulus is not base64url gives no key.
    let bad = RSA_JWK.replace(r#""e":"AQAB""#, r#""e":"***""#);
    assert!(matches!(prepared(&bad, h), Err(AuthError::BadSignature)));
    assert!(prepared(RSA_JWK, h).is_ok());
}

#[test]
fn choose_key_cases() {
    let keys = vec![
        rec(None, false, Some(RSA_JWK)),
        rec(Some("k2"), false, Some(RSA_JWK)),
        rec(Some("k1"), false, Some(RSA_JWK)),
        rec(Some("k1"), true, Some(RSA_JWK)),
    ];
    assert_eq!(choose_key(Some(&keys), Some(Some("k1".into()))).unwrap(), 2);
    assert!(matches!(
        choose_key(Some(&keys), Some(Some("k9".into()))),
        Err(AuthError::BadSignature)
    ));
    assert!(matches!(
        choose_key(Some(&keys), Some(None)),
        Err(AuthError::MalformedHeader)
    ));
    assert!(matches!(choose_key(Some(&keys), None), Err(AuthError::MalformedHeader)));
    match choose_key(None, Some(Some("k1".into()))) {
        Err(AuthError::IdpUnreachable(m)) => assert_eq!(m, "jwks not loaded yet"),
        other => panic!("unexpected {:?}", other),
    }
}

#[test]
fn key_algorithm_cases() {
    let ok = JwkDescriptor { key_algorithm: Some("RS256".into()), family: KeyFamily::Rsa };
    assert_eq!(
        key_algorithm(&rec(Some("k"), false, Some("{}")), Some(ok.clone())).unwrap(),
        SigningAlgorithm::RS256
    );
    match key_algorithm(&rec(Some("k"), false, None), Some(ok.clone())) {
        Err(AuthError::IdpMalformedResponse(m)) => assert_eq!(m, "jwk serialize"),
        other => panic!("unexpected {:?}", other),
    }
    match key_algorithm(&rec(Some("k"), false, Some("{}")), None) {
        Err(AuthError::IdpMalformedResponse(m)) => assert_eq!(m, "jwk deserialize"),
        other => panic!("unexpected {:?}", other),
    }
    assert!(matches!(
        key_algorithm(&rec(Some("k"), true, Some("{}")), Some(ok)),
        Err(AuthError::BadSignature)
    ));
}

#[test]
fn prepare_verification_end_to_end() {
    let keys = vec![rec(Some("k1"), false, Some(RSA_JWK))];
    let t = token_with_header(r#"{"alg":"RS256","kid":"k1"}"#);
    let v = prepare_verification(Some(&keys), &t).unwrap();
    assert_eq!(v.algorithm, SigningAlgorithm::RS256);
    let t = token_with_header(r#"{"alg":"RS256","kid":"other"}"#);
    assert!(matches!(
        prepare_verification(Some(&keys), &t),
        Err(AuthError::BadSignature)
    ));
    assert!(matches!(
        prepare_verification(Some(&keys), "garbage"),
        Err(AuthError::MalformedHeader)
    ));
    assert!(matches!(
        prepare_verification(None, &t),
        Err(AuthError::IdpUnreachable(_))
    ));
    let keys = vec![rec(Some("k1"), false, Some(r#"{"kty":"RSA","kid":"k1"}"#))];
    let t = token_with_header(r#"{"alg":"RS256","kid":"k1"}"#);
    assert!(matches!(
        prepare_verification(Some(&keys), &t),
        Err(AuthError::IdpMalformedResponse(_))
    ));
}

#[test]
fn validation_policy_values() {
    let p = validation_policy(SigningAlgorithm::ES256, "https://idp", &["api".to_string()]);
    assert_eq!(p.algorithm, SigningAlgorithm::ES256);
    assert_eq!(p.issuer, "https://idp");
    assert_eq!(p.audiences, vec!["api".to_string()]);
    assert!(p.validate_nbf);
    assert_eq!(p.leeway_secs, 60);
}

#[test]
fn scopes_normalised() {
    assert_eq!(parse_scopes(Some("a b  c"), None), vec!["a", "b", "c"]);
    assert_eq!(parse_scopes(Some("  jobs.read\tjobs.write \n"), None), vec!["jobs.read", "jobs.write"]);
    let scp = vec!["x".to_string(), "y z".to_string()];
    assert_eq!(parse_scopes(None, Some(&scp)), vec!["x", "y z"]);
    // `scope` wins, even when it holds no words.
    assert_eq!(parse_scopes(Some("s"), Some(&scp)), vec!["s"]);
    assert!(parse_scopes(Some(""), Some(&scp)).is_empty());
    assert!(parse_scopes(None, None).is_empty());
}

fn raw() -> RawClaims {
    RawClaims {
        iss: "https://idp".into(),
        sub: "u1".into(),
        email: Some("alice@example.com".into()),
        name: None,
        scope: None,
        scp: Some(vec!["jobs.read".into()]),
    }
}

#[test]
fn claims_from_decoded_cases() {
    let c = claims_from_decoded(Ok(raw()), "https://idp").unwrap();
    assert_eq!(c.sub, "u1");
    assert_eq!(c.email.as_deref(), Some("alice@example.com"));
    assert_eq!(c.scopes, vec!["jobs.read"]);
    assert!(matches!(
        claims_from_decoded(Err(DecodeFailure::ExpiredSignature), "i"),
        Err(AuthError::Expired)
    ));
    assert!(matches!(
        claims_from_decoded(Err(DecodeFailure::InvalidAudience), "i"),
        Err(AuthError::BadAudience)
    ));
    match claims_from_decoded(Err(DecodeFailure::InvalidIssuer), "https://conf") {
        Err(AuthError::BadIssuer(i)) => assert_eq!(i, "https://conf"),
        other => panic!("unexpected {:?}", other),
    }
    assert!(matches!(
        claims_from_decoded(Err(DecodeFailure::Other), "i"),
        Err(AuthError::BadSignature)
    ));
}

#[test]
fn issuer_url_is_parsed() {
    let u = parse_issuer_url("https://idp.example.com").ok().unwrap();
    assert_eq!(u.as_str(), "https://idp.example.com");
    match parse_issuer_url("not a url") {
        Err(AuthError::IdpMalformedResponse(m)) => {
            assert_eq!(m, "issuer url: relative URL without a base")
        }
        _ => panic!("expected a malformed-response error"),
    }
    assert!(matches!(
        parse_issuer_url(""),
        Err(AuthError::IdpMalformedResponse(_))
    ));
}
