//! The checks that decide whether a JWT is accepted: which published key
//! verifies it, with which algorithm, under which validation policy, and
//! what a successful decode yields as [`Claims`].

use vstd::prelude::*;
use crate::identity::{AuthError, Claims};
use jsonwebtoken::jwk::AlgorithmParameters as P;
use crate::text::{spec_words, split_whitespace, str_eq, string_views};

verus! {

/// Signature algorithms a token can be verified with.
#[derive(Debug, Clone, Copy, PartialEq, Eq)]
pub enum SigningAlgorithm {
    /// HMAC using SHA-256.
    HS256,
    /// HMAC using SHA-384.
    HS384,
    /// HMAC using SHA-512.
    HS512,
    /// ECDSA using SHA-256.
    ES256,
    /// ECDSA using SHA-384.
    ES384,
    /// RSASSA-PKCS1-v1_5 using SHA-256.
    RS256,
    /// RSASSA-PKCS1-v1_5 using SHA-384.
    RS384,
    /// RSASSA-PKCS1-v1_5 using SHA-512.
    RS512,
    /// RSASSA-PSS using SHA-256.
    PS256,
    /// RSASSA-PSS using SHA-384.
    PS384,
    /// RSASSA-PSS using SHA-512.
    PS512,
    /// Edwards-curve Digital Signature Algorithm.
    EdDSA,
}

/// Key type of a published key.
#[derive(Debug, Clone, Copy, PartialEq, Eq)]
pub enum KeyFamily {
    /// Elliptic-curve key.
    EllipticCurve,
    /// RSA key.
    Rsa,
    /// Symmetric (octet) key.
    OctetKey,
    /// Octet key pair (Edwards curves).
    OctetKeyPair,
}

/// What the verification reads of a published key in JWK form: the name of
/// its declared algorithm (`alg`), if any, and its key type.
#[derive(Debug, Clone)]
pub struct JwkDescriptor {
    /// Name of the key's declared algorithm, if the key declares one.
    pub key_algorithm: Option<String>,
    /// Key type.
    pub family: KeyFamily,
}

/// Mathematical content of a [`JwkDescriptor`].
pub struct JwkDescriptorView {
    /// Name of the declared algorithm.
    pub key_algorithm: Option<Seq<char>>,
    /// Key type.
    pub family: KeyFamily,
}

impl View for JwkDescriptor {
    type V = JwkDescriptorView;

    open spec fn view(&self) -> JwkDescriptorView {
        JwkDescriptorView {
            key_algorithm: match self.key_algorithm {
                Some(a) => Some(a@),
                None => None,
            },
            family: self.family,
        }
    }
}

/// One key of the issuer's published key set, as the verification reads it.
#[derive(Debug, Clone)]
pub struct KeyRecord {
    /// The key's `kid`, if it has one.
    pub kid: Option<String>,
    /// The issuer published the key for encryption only.
    pub encryption_only: bool,
    /// The key in JWK JSON form; `None` when it could not be serialised.
    pub jwk_json: Option<String>,
}

/// The signing algorithm whose name is `name`, as `jsonwebtoken::Algorithm`
/// parses names; `None` for any other name.
pub open spec fn algorithm_named(name: Seq<char>) -> Option<SigningAlgorithm> {
    if name == "HS256"@ {
        Some(SigningAlgorithm::HS256)
    } else if name == "HS384"@ {
        Some(SigningAlgorithm::HS384)
    } else if name == "HS512"@ {
        Some(SigningAlgorithm::HS512)
    } else if name == "ES256"@ {
        Some(SigningAlgorithm::ES256)
    } else if name == "ES384"@ {
        Some(SigningAlgorithm::ES384)
    } else if name == "RS256"@ {
        Some(SigningAlgorithm::RS256)
    } else if name == "RS384"@ {
        Some(SigningAlgorithm::RS384)
    } else if name == "RS512"@ {
        Some(SigningAlgorithm::RS512)
    } else if name == "PS256"@ {
        Some(SigningAlgorithm::PS256)
    } else if name == "PS384"@ {
        Some(SigningAlgorithm::PS384)
    } else if name == "PS512"@ {
        Some(SigningAlgorithm::PS512)
    } else if name == "EdDSA"@ {
        Some(SigningAlgorithm::EdDSA)
    } else {
        None
    }
}

/// Parse a signing-algorithm name.
pub fn parse_algorithm_name(name: &str) -> (r: Option<SigningAlgorithm>)
    ensures
        r == algorithm_named(name@),
{
    if str_eq(name, "HS256") {
        Some(SigningAlgorithm::HS256)
    } else if str_eq(name, "HS384") {
        Some(SigningAlgorithm::HS384)
    } else if str_eq(name, "HS512") {
        Some(SigningAlgorithm::HS512)
    } else if str_eq(name, "ES256") {
        Some(SigningAlgorithm::ES256)
    } else if str_eq(name, "ES384") {
        Some(SigningAlgorithm::ES384)
    } else if str_eq(name, "RS256") {
        Some(SigningAlgorithm::RS256)
    } else if str_eq(name, "RS384") {
        Some(SigningAlgorithm::RS384)
    } else if str_eq(name, "RS512") {
        Some(SigningAlgorithm::RS512)
    } else if str_eq(name, "PS256") {
        Some(SigningAlgorithm::PS256)
    } else if str_eq(name, "PS384") {
        Some(SigningAlgorithm::PS384)
    } else if str_eq(name, "PS512") {
        Some(SigningAlgorithm::PS512)
    } else if str_eq(name, "EdDSA") {
        Some(SigningAlgorithm::EdDSA)
    } else {
        None
    }
}

/// The algorithm a key is verified with: its declared algorithm when it
/// declares one (which must name a signing algorithm), otherwise RS256 for
/// RSA keys and ES256 for elliptic-curve keys; any other key is refused.
pub open spec fn spec_derive_algorithm(d: JwkDescriptorView) -> Result<SigningAlgorithm, AuthError> {
    match d.key_algorithm {
        Some(name) => match algorithm_named(name) {
            Some(a) => Ok(a),
            None => Err(AuthError::BadSignature),
        },
        None => match d.family {
            KeyFamily::Rsa => Ok(SigningAlgorithm::RS256),
            KeyFamily::EllipticCurve => Ok(SigningAlgorithm::ES256),
            _ => Err(AuthError::BadSignature),
        },
    }
}

/// Pick the algorithm for verifying with a key.
pub fn derive_algorithm(jwk: &JwkDescriptor) -> (r: Result<SigningAlgorithm, AuthError>)
    ensures
        r == spec_derive_algorithm(jwk@),
{
    match &jwk.key_algorithm {
        Some(name) => match parse_algorithm_name(name.as_str()) {
            Some(a) => Ok(a),
            None => Err(AuthError::BadSignature),
        },
        None => match jwk.family {
            KeyFamily::Rsa => Ok(SigningAlgorithm::RS256),
            KeyFamily::EllipticCurve => Ok(SigningAlgorithm::ES256),
            _ => Err(AuthError::BadSignature),
        },
    }
}

/// The name of what `jsonwebtoken::decode_header` yields as the header's
/// `kid` for `token`: `None` when the header cannot be decoded, `Some(None)`
/// when it has no `kid`.
pub uninterp spec fn jwt_header_kid(token: Seq<char>) -> Option<Option<Seq<char>>>;

/// Decode a JWT's header with `jsonwebtoken::decode_header` and read its
/// `kid`. Trusted: the outcome is the one `jwt_header_kid` names.
#[verifier::external_body]
pub(crate) fn decode_header_kid(token: &str) -> (r: Option<Option<String>>)
    ensures
        match r {
            None => jwt_header_kid(token@) is None,
            Some(None) => jwt_header_kid(token@) == Some(None::<Seq<char>>),
            Some(Some(k)) => jwt_header_kid(token@) == Some(Some(k@)),
        },
{
    jsonwebtoken::decode_header(token).ok().map(|h| h.kid)
}

/// The name of what reading `json` as a `jsonwebtoken::jwk::Jwk` yields as
/// its declared algorithm name and key type; `None` when it is not a JWK.
pub uninterp spec fn jwk_described(json: Seq<char>) -> Option<JwkDescriptorView>;

/// Read a key in JWK JSON form with `serde_json` into a
/// `jsonwebtoken::jwk::Jwk` and report its declared algorithm (by its
/// `Display` name) and key type. Trusted: the outcome is the one
/// `jwk_described` names.
#[verifier::external_body]
pub(crate) fn describe_jwk(json: &str) -> (r: Option<JwkDescriptor>)
    ensures
        match r {
            None => jwk_described(json@) is None,
            Some(d) => jwk_described(json@) == Some(d@),
        },
{
    let jwk: jsonwebtoken::jwk::Jwk = serde_json::from_str(json).ok()?;
    let family = match jwk.algorithm {
        P::EllipticCurve(_) => KeyFamily::EllipticCurve,
        P::RSA(_) => KeyFamily::Rsa,
        P::OctetKey(_) => KeyFamily::OctetKey,
        P::OctetKeyPair(_) => KeyFamily::OctetKeyPair,
    };
    Some(JwkDescriptor { key_algorithm: jwk.common.key_algorithm.map(|a| a.to_string()), family })
}

/// A key usable for signature verification (opaque).
#[verifier::external_type_specification]
#[verifier::external_body]
pub struct ExDecodingKey(jsonwebtoken::DecodingKey);

/// The name of what `jsonwebtoken::DecodingKey::from_jwk` builds from the
/// key whose JWK JSON form is `json`; `None` when it refuses the key.
pub uninterp spec fn jwk_decoding_key(json: Seq<char>) -> Option<jsonwebtoken::DecodingKey>;

/// Build a verification key from a key in JWK JSON form with
/// `jsonwebtoken::DecodingKey::from_jwk`. Trusted: the outcome is the one
/// `jwk_decoding_key` names for `json`.
#[verifier::external_body]
pub(crate) fn decoding_key_from_jwk(json: &str) -> (r: Option<jsonwebtoken::DecodingKey>)
    ensures
        r == jwk_decoding_key(json@),
{
    let jwk: jsonwebtoken::jwk::Jwk = serde_json::from_str(json).ok()?;
    jsonwebtoken::DecodingKey::from_jwk(&jwk).ok()
}

/// An issuer URL as `openidconnect` holds it (opaque).
#[verifier::external_type_specification]
#[verifier::external_body]
pub struct ExIssuerUrl(openidconnect::IssuerUrl);

/// The name of what `openidconnect::IssuerUrl::new` makes of `issuer`: the
/// parsed URL, or the text of the parse error when `issuer` is not a URL.
pub uninterp spec fn issuer_url_parsed(issuer: Seq<char>) -> Result<openidconnect::IssuerUrl, Seq<char>>;

/// Parse an issuer URL with `openidconnect::IssuerUrl::new`, the error
/// given by its `Display` text. Trusted: the outcome is the one
/// `issuer_url_parsed` names for `issuer`.
#[verifier::external_body]
fn issuer_url_new(issuer: &str) -> (r: Result<openidconnect::IssuerUrl, String>)
    ensures
        match r {
            Ok(u) => issuer_url_parsed(issuer@) == Ok::<openidconnect::IssuerUrl, Seq<char>>(u),
            Err(m) => issuer_url_parsed(issuer@) == Err::<openidconnect::IssuerUrl, Seq<char>>(m@),
        },
{
    openidconnect::IssuerUrl::new(issuer.to_string()).map_err(|e| e.to_string())
}

/// Read the configured issuer as a URL for discovery: an issuer that is not
/// a URL is a malformed provider configuration, reported as
/// `IdpMalformedResponse("issuer url: <parse error>")`.
pub fn parse_issuer_url(issuer: &str) -> (r: Result<openidconnect::IssuerUrl, AuthError>)
    ensures
        match issuer_url_parsed(issuer@) {
            Ok(u) => r == Ok::<openidconnect::IssuerUrl, AuthError>(u),
            Err(detail) => r matches Err(AuthError::IdpMalformedResponse(m)) && m@ == "issuer url: "@
                + detail,
        },
{
    match issuer_url_new(issuer) {
        Ok(u) => Ok(u),
        Err(e) => Err(AuthError::IdpMalformedResponse(String::from_str("issuer url: ").concat(e.as_str()))),
    }
}

/// `record` is published under `kid`.
pub open spec fn key_has_kid(record: KeyRecord, kid: Seq<char>) -> bool {
    record.kid matches Some(k) && k@ == kid
}

/// The first key of `keys` whose `kid` is `kid`.
pub open spec fn is_first_key_with_kid(keys: Seq<KeyRecord>, kid: Seq<char>, i: int) -> bool {
    &&& 0 <= i < keys.len()
    &&& key_has_kid(keys[i], kid)
    &&& forall|j: int| 0 <= j < i ==> !key_has_kid(keys[j], kid)
}

/// Some key of `keys` has `kid` as its `kid`.
pub open spec fn has_key_with_kid(keys: Seq<KeyRecord>, kid: Seq<char>) -> bool {
    exists|i: int| 0 <= i < keys.len() && key_has_kid(keys[i], kid)
}

/// The outcome of choosing the key for a token, given the loaded key set
/// and what decoding the token's header yielded (see [`jwt_header_kid`]).
pub open spec fn spec_choose_key(
    keys: Option<Seq<KeyRecord>>,
    header_kid: Option<Option<Seq<char>>>,
) -> Result<int, AuthError> {
    match keys {
        None => Err(AuthError::IdpUnreachable(arbitrary())),
        Some(ks) => match header_kid {
            None => Err(AuthError::MalformedHeader),
            Some(None) => Err(AuthError::MalformedHeader),
            Some(Some(kid)) => if has_key_with_kid(ks, kid) {
                Ok(choose|i: int| is_first_key_with_kid(ks, kid, i))
            } else {
                Err(AuthError::BadSignature)
            },
        },
    }
}

proof fn lemma_first_key_unique(keys: Seq<KeyRecord>, kid: Seq<char>, i: int, j: int)
    requires
        is_first_key_with_kid(keys, kid, i),
        is_first_key_with_kid(keys, kid, j),
    ensures
        i == j,
{
    if i < j {
        assert(key_has_kid(keys[i], kid));
    } else if j < i {
        assert(key_has_kid(keys[j], kid));
    }
}

proof fn lemma_first_key_exists(keys: Seq<KeyRecord>, kid: Seq<char>)
    requires
        has_key_with_kid(keys, kid),
    ensures
        exists|i: int| is_first_key_with_kid(keys, kid, i),
    decreases keys.len(),
{
    if key_has_kid(keys[0], kid) {
        assert(is_first_key_with_kid(keys, kid, 0));
    } else {
        let rest = keys.drop_first();
        let w = choose|i: int| 0 <= i < keys.len() && key_has_kid(keys[i], kid);
        assert(rest[w - 1] == keys[w]);
        lemma_first_key_exists(rest, kid);
        let i = choose|i: int| is_first_key_with_kid(rest, kid, i);
        assert forall|j: int| 0 <= j < i + 1 implies !key_has_kid(keys[j], kid) by {
            if j > 0 {
                assert(keys[j] == rest[j - 1]);
            }
        }
        assert(is_first_key_with_kid(keys, kid, i + 1));
    }
}

fn kid_matches(record: &KeyRecord, kid: &str) -> (r: bool)
    ensures
        r == key_has_kid(*record, kid@),
{
    match &record.kid {
        Some(k) => str_eq(k.as_str(), kid),
        None => false,
    }
}

/// Choose the key that verifies a token: the key set must be loaded, the
/// header must decode and carry a `kid`, and the first key published with
/// that `kid` is chosen. Returns the key's position.
pub fn choose_key(keys: Option<&Vec<KeyRecord>>, header_kid: Option<Option<String>>) -> (r: Result<
    usize,
    AuthError,
>)
    ensures
        match spec_choose_key(
            match keys {
                Some(v) => Some(v@),
                None => None,
            },
            match header_kid {
                None => None,
                Some(None) => Some(None),
                Some(Some(k)) => Some(Some(k@)),
            },
        ) {
            Ok(i) => r matches Ok(j) && j as int == i,
            Err(AuthError::IdpUnreachable(_)) => r matches Err(AuthError::IdpUnreachable(m))
                && m@ == "jwks not loaded yet"@,
            Err(e) => r == Err::<usize, AuthError>(e),
        },
        r matches Ok(i) ==> keys matches Some(v) && i < v@.len(),
{
    let ks = match keys {
        Some(ks) => ks,
        None => return Err(AuthError::IdpUnreachable(String::from_str("jwks not loaded yet"))),
    };
    let kid = match header_kid {
        Some(Some(k)) => k,
        _ => return Err(AuthError::MalformedHeader),
    };
    let n = ks.len();
    let mut i: usize = 0;
    while i < n
        invariant
            keys == Some(ks),
            header_kid == Some(Some(kid)),
            n == ks@.len(),
            0 <= i <= n,
            forall|j: int| 0 <= j < i ==> !key_has_kid(ks@[j], kid@),
        decreases n - i,
    {
        if kid_matches(&ks[i], kid.as_str()) {
            proof {
                assert(is_first_key_with_kid(ks@, kid@, i as int));
                assert(has_key_with_kid(ks@, kid@));
                lemma_first_key_exists(ks@, kid@);
                let c = choose|c: int| is_first_key_with_kid(ks@, kid@, c);
                lemma_first_key_unique(ks@, kid@, c, i as int);
            }
            return Ok(i);
        }
        i = i + 1;
    }
    proof {
        assert(!has_key_with_kid(ks@, kid@));
    }
    Err(AuthError::BadSignature)
}

/// The algorithm for verifying with `record`, given what reading its JWK
/// form yielded (see [`jwk_described`]): an unserialisable or unreadable key
/// is a malformed provider response; an encryption-only key is refused; the
/// algorithm is otherwise the one [`spec_derive_algorithm`] picks.
pub open spec fn spec_key_algorithm(
    record: KeyRecord,
    described: Option<JwkDescriptorView>,
) -> Result<SigningAlgorithm, AuthError> {
    if record.jwk_json is None {
        Err(AuthError::IdpMalformedResponse(arbitrary()))
    } else {
        match described {
            None => Err(AuthError::IdpMalformedResponse(arbitrary())),
            Some(d) => if record.encryption_only {
                Err(AuthError::BadSignature)
            } else {
                spec_derive_algorithm(d)
            },
        }
    }
}

/// Decide the verification algorithm for a chosen key (see
/// [`spec_key_algorithm`]); the two malformed-response errors say
/// `jwk serialize` and `jwk deserialize`.
pub fn key_algorithm(record: &KeyRecord, described: Option<JwkDescriptor>) -> (r: Result<
    SigningAlgorithm,
    AuthError,
>)
    ensures
        match spec_key_algorithm(
            *record,
            match described {
                Some(d) => Some(d@),
                None => None,
            },
        ) {
            Ok(a) => r == Ok::<SigningAlgorithm, AuthError>(a),
            Err(AuthError::IdpMalformedResponse(_)) => r matches Err(
                AuthError::IdpMalformedResponse(m),
            ) && m@ == (if record.jwk_json is None {
                "jwk serialize"@
            } else {
                "jwk deserialize"@
            }),
            Err(e) => r == Err::<SigningAlgorithm, AuthError>(e),
        },
{
    if record.jwk_json.is_none() {
        return Err(AuthError::IdpMalformedResponse(String::from_str("jwk serialize")));
    }
    let d = match described {
        Some(d) => d,
        None => return Err(AuthError::IdpMalformedResponse(String::from_str("jwk deserialize"))),
    };
    if record.encryption_only {
        return Err(AuthError::BadSignature);
    }
    derive_algorithm(&d)
}

/// What a token is verified with: the algorithm and the key.
pub struct VerificationKey {
    /// Signature algorithm.
    pub algorithm: SigningAlgorithm,
    /// Verification key built from the chosen JWK.
    pub key: jsonwebtoken::DecodingKey,
}

/// The JWK JSON of the key chosen for `token` among `keys` (empty when
/// the chosen key has none).
pub open spec fn chosen_json(keys: Seq<KeyRecord>, i: int) -> Seq<char> {
    match keys[i].jwk_json {
        Some(j) => j@,
        None => Seq::empty(),
    }
}

/// The outcome of preparing to verify `token` against `keys`, named in
/// terms of what the header, JWK and key-construction calls yield: the
/// algorithm and the key built from the JWK of the key the token's `kid`
/// chose.
pub open spec fn spec_prepare(keys: Option<Seq<KeyRecord>>, token: Seq<char>) -> Result<
    (SigningAlgorithm, jsonwebtoken::DecodingKey),
    AuthError,
> {
    match spec_choose_key(keys, jwt_header_kid(token)) {
        Err(e) => Err(e),
        Ok(i) => {
            let record = keys->0[i];
            let json = chosen_json(keys->0, i);
            let described = if record.jwk_json is Some {
                jwk_described(json)
            } else {
                None
            };
            match spec_key_algorithm(record, described) {
                Err(e) => Err(e),
                Ok(a) => match jwk_decoding_key(json) {
                    Some(k) => Ok((a, k)),
                    None => Err(AuthError::BadSignature),
                },
            }
        },
    }
}

/// The detail text of the provider error that preparing to verify `token`
/// against `keys` can end in: the key set is not loaded, or the chosen key
/// could not be serialised or read.
pub open spec fn spec_prepare_detail(keys: Option<Seq<KeyRecord>>, token: Seq<char>) -> Seq<char> {
    match spec_choose_key(keys, jwt_header_kid(token)) {
        Ok(i) => if keys->0[i].jwk_json is None {
            "jwk serialize"@
        } else {
            "jwk deserialize"@
        },
        Err(_) => "jwks not loaded yet"@,
    }
}

/// `r` is the outcome `expected` describes, provider errors carrying `detail`.
pub open spec fn prepared_as(
    r: Result<VerificationKey, AuthError>,
    expected: Result<(SigningAlgorithm, jsonwebtoken::DecodingKey), AuthError>,
    detail: Seq<char>,
) -> bool {
    match (r, expected) {
        (Ok(v), Ok((a, k))) => v.algorithm == a && v.key == k,
        (Err(AuthError::IdpUnreachable(m)), Err(AuthError::IdpUnreachable(_))) => m@ == detail,
        (Err(AuthError::IdpMalformedResponse(m)), Err(AuthError::IdpMalformedResponse(_))) => m@
            == detail,
        (Err(e), Err(f)) => e == f && !(e is IdpUnreachable) && !(e is IdpMalformedResponse),
        _ => false,
    }
}

/// Prepare to verify `token`: choose the key by the header's `kid`, read
/// the key's JWK form, pick the algorithm and build the verification key.
pub fn prepare_verification(keys: Option<&Vec<KeyRecord>>, token: &str) -> (r: Result<
    VerificationKey,
    AuthError,
>)
    ensures
        prepared_as(
            r,
            spec_prepare(
                match keys {
                    Some(v) => Some(v@),
                    None => None,
                },
                token@,
            ),
            spec_prepare_detail(
                match keys {
                    Some(v) => Some(v@),
                    None => None,
                },
                token@,
            ),
        ),
        r matches Ok(v) ==> keys matches Some(ks) && jwt_header_kid(token@) matches Some(Some(kid))
            && exists|i: int|
            #![trigger ks@[i]]
            0 <= i < ks@.len() && (ks@[i].kid matches Some(k) && k@ == kid) && (forall|j: int|
                0 <= j < i ==> !(#[trigger] ks@[j].kid matches Some(k2) && k2@ == kid)) && (
            ks@[i].jwk_json matches Some(js) && jwk_decoding_key(js@) == Some(v.key)),
{
    let ghost kv = match keys {
        Some(v) => Some(v@),
        None => None::<Seq<KeyRecord>>,
    };
    let chosen = if keys.is_none() {
        choose_key(keys, None)
    } else {
        let kid = decode_header_kid(token);
        choose_key(keys, kid)
    };
    let i = match chosen {
        Ok(i) => i,
        Err(e) => return Err(e),
    };
    let ks = keys.unwrap();
    let record = &ks[i];
    proof {
        assert(spec_choose_key(kv, jwt_header_kid(token@)) == Ok::<int, AuthError>(i as int));
        assert(kv->0[i as int] == *record);
        let kid = jwt_header_kid(token@)->0->0;
        lemma_first_key_exists(ks@, kid);
        assert(is_first_key_with_kid(ks@, kid, i as int));
    }
    let (described, json) = match &record.jwk_json {
        Some(j) => (describe_jwk(j.as_str()), j.as_str()),
        None => (None, ""),
    };
    let algorithm = match key_algorithm(record, described) {
        Ok(a) => a,
        Err(e) => return Err(e),
    };
    match decoding_key_from_jwk(json) {
        Some(key) => Ok(VerificationKey { algorithm, key }),
        None => Err(AuthError::BadSignature),
    }
}

/// How a decode attempt failed, as far as the mapping to [`AuthError`] cares.
#[derive(Debug, Clone, Copy, PartialEq, Eq)]
pub enum DecodeFailure {
    /// `exp` lies in the past beyond the leeway.
    ExpiredSignature,
    /// `aud` matches none of the accepted audiences.
    InvalidAudience,
    /// `iss` is not the configured issuer.
    InvalidIssuer,
    /// Any other failure (signature, format, algorithm, ...).
    Other,
}

/// The claims a successful decode yields, before scope normalisation.
#[derive(Debug, Clone)]
pub struct RawClaims {
    /// `iss`.
    pub iss: String,
    /// `sub`.
    pub sub: String,
    /// `email`, if present.
    pub email: Option<String>,
    /// `name`, if present.
    pub name: Option<String>,
    /// `scope` (space-separated), if present.
    pub scope: Option<String>,
    /// `scp` (array), if present.
    pub scp: Option<Vec<String>>,
}

/// What the validation of a token checks besides the signature.
#[derive(Debug, Clone)]
pub struct ValidationPolicy {
    /// The only algorithm accepted.
    pub algorithm: SigningAlgorithm,
    /// Required `iss`.
    pub issuer: String,
    /// Accepted `aud` values.
    pub audiences: Vec<String>,
    /// Whether `nbf` is checked.
    pub validate_nbf: bool,
    /// Clock-skew tolerance for `exp` and `nbf`, in seconds.
    pub leeway_secs: u64,
}

fn clone_strings(v: &[String]) -> (r: Vec<String>)
    ensures
        string_views(r@) == string_views(v@),
{
    let mut out: Vec<String> = Vec::new();
    let mut i: usize = 0;
    while i < v.len()
        invariant
            0 <= i <= v@.len(),
            string_views(out@) =~= string_views(v@.take(i as int)),
        decreases v@.len() - i,
    {
        let ghost before = out@;
        out.push(v[i].clone());
        proof {
            assert(v@.take(i + 1) =~= v@.take(i as int).push(v@[i as int]));
            assert(string_views(out@) =~= string_views(before).push(v@[i as int]@));
            assert(string_views(v@.take(i + 1)) =~= string_views(v@.take(i as int)).push(
                v@[i as int]@,
            ));
        }
        i = i + 1;
    }
    proof {
        assert(v@.take(v@.len() as int) =~= v@);
    }
    out
}

/// The validation policy for tokens of `issuer`: only `algorithm`, the
/// issuer and audiences checked, `nbf` checked, 60 seconds of leeway.
pub fn validation_policy(algorithm: SigningAlgorithm, issuer: &str, audiences: &[String]) -> (r:
    ValidationPolicy)
    ensures
        r.algorithm == algorithm,
        r.issuer@ == issuer@,
        string_views(r.audiences@) == string_views(audiences@),
        r.validate_nbf,
        r.leeway_secs == 60,
{
    ValidationPolicy {
        algorithm,
        issuer: issuer.to_owned(),
        audiences: clone_strings(audiences),
        validate_nbf: true,
        leeway_secs: 60,
    }
}

/// The scopes a token asserts: the words of `scope` when present (even if
/// there are none), else the entries of `scp`, else none.
pub open spec fn spec_scopes(scope: Option<Seq<char>>, scp: Option<Seq<Seq<char>>>) -> Seq<Seq<char>> {
    match scope {
        Some(s) => spec_words(s),
        None => match scp {
            Some(a) => a,
            None => Seq::empty(),
        },
    }
}

/// Normalise the `scope` claim (space-separated) or the `scp` claim (array)
/// to a list; `scope` wins when both are present.
pub fn parse_scopes(scope: Option<&str>, scp: Option<&[String]>) -> (r: Vec<String>)
    ensures
        string_views(r@) == spec_scopes(
            match scope {
                Some(s) => Some(s@),
                None => None,
            },
            match scp {
                Some(a) => Some(string_views(a@)),
                None => None,
            },
        ),
{
    if let Some(s) = scope {
        return split_whitespace(s);
    }
    if let Some(arr) = scp {
        return clone_strings(arr);
    }
    let r: Vec<String> = Vec::new();
    proof {
        assert(string_views(r@) =~= Seq::<Seq<char>>::empty());
    }
    r
}

/// Mathematical content of [`Claims`].
pub struct ClaimsView {
    /// `iss`.
    pub iss: Seq<char>,
    /// `sub`.
    pub sub: Seq<char>,
    /// `email`.
    pub email: Option<Seq<char>>,
    /// `name`.
    pub name: Option<Seq<char>>,
    /// Normalised scopes.
    pub scopes: Seq<Seq<char>>,
}

/// View of an optional string.
pub open spec fn opt_view(o: Option<String>) -> Option<Seq<char>> {
    match o {
        Some(s) => Some(s@),
        None => None,
    }
}

impl View for Claims {
    type V = ClaimsView;

    open spec fn view(&self) -> ClaimsView {
        ClaimsView {
            iss: self.iss@,
            sub: self.sub@,
            email: opt_view(self.email),
            name: opt_view(self.name),
            scopes: string_views(self.scopes@),
        }
    }
}

/// The claims a successfully decoded token yields.
pub open spec fn claims_of(raw: RawClaims) -> ClaimsView {
    ClaimsView {
        iss: raw.iss@,
        sub: raw.sub@,
        email: opt_view(raw.email),
        name: opt_view(raw.name),
        scopes: spec_scopes(
            opt_view(raw.scope),
            match raw.scp {
                Some(a) => Some(string_views(a@)),
                None => None,
            },
        ),
    }
}

/// The error a failed decode is reported as.
pub open spec fn spec_decode_error(f: DecodeFailure, issuer: Seq<char>) -> AuthError {
    match f {
        DecodeFailure::ExpiredSignature => AuthError::Expired,
        DecodeFailure::InvalidAudience => AuthError::BadAudience,
        DecodeFailure::InvalidIssuer => AuthError::BadIssuer(arbitrary()),
        DecodeFailure::Other => AuthError::BadSignature,
    }
}

/// Turn the outcome of decoding a token into the result of validation:
/// expired tokens are `Expired`, a wrong audience `BadAudience`, a wrong
/// issuer `BadIssuer` carrying the configured issuer, anything else
/// `BadSignature`; on success, the claims with normalised scopes.
pub fn claims_from_decoded(decoded: Result<RawClaims, DecodeFailure>, issuer: &str) -> (r: Result<
    Claims,
    AuthError,
>)
    ensures
        match decoded {
            Ok(raw) => r matches Ok(c) && c@ == claims_of(raw) && c.iss@ == raw.iss@ && c.sub@
                == raw.sub@ && opt_view(c.email) == opt_view(raw.email) && opt_view(c.name)
                == opt_view(raw.name),
            Err(DecodeFailure::InvalidIssuer) => r matches Err(AuthError::BadIssuer(i)) && i@
                == issuer@,
            Err(f) => r == Err::<Claims, AuthError>(spec_decode_error(f, issuer@)),
        },
{
    match decoded {
        Err(DecodeFailure::ExpiredSignature) => Err(AuthError::Expired),
        Err(DecodeFailure::InvalidAudience) => Err(AuthError::BadAudience),
        Err(DecodeFailure::InvalidIssuer) => Err(AuthError::BadIssuer(issuer.to_owned())),
        Err(DecodeFailure::Other) => Err(AuthError::BadSignature),
        Ok(raw) => {
            let scopes = parse_scopes(
                match &raw.scope {
                    Some(s) => Some(s.as_str()),
                    None => None,
                },
                match &raw.scp {
                    Some(a) => Some(a.as_slice()),
                    None => None,
                },
            );
            Ok(Claims { iss: raw.iss, sub: raw.sub, email: raw.email, name: raw.name, scopes })
        },
    }
}

/// The JWA name of an algorithm.
pub open spec fn jwa_name(a: SigningAlgorithm) -> Seq<char> {
    match a {
        SigningAlgorithm::HS256 => "HS256"@,
        SigningAlgorithm::HS384 => "HS384"@,
        SigningAlgorithm::HS512 => "HS512"@,
        SigningAlgorithm::ES256 => "ES256"@,
        SigningAlgorithm::ES384 => "ES384"@,
        SigningAlgorithm::RS256 => "RS256"@,
        SigningAlgorithm::RS384 => "RS384"@,
        SigningAlgorithm::RS512 => "RS512"@,
        SigningAlgorithm::PS256 => "PS256"@,
        SigningAlgorithm::PS384 => "PS384"@,
        SigningAlgorithm::PS512 => "PS512"@,
        SigningAlgorithm::EdDSA => "EdDSA"@,
    }
}

/// Parsing a JWA name gives the algorithm of that very name, and only the
/// twelve JWA names parse: `parse(name(a)) == a` for every algorithm, and a
/// name that parses to `a` is the name of `a`.
pub proof fn lemma_algorithm_name_round_trip(a: SigningAlgorithm, n: Seq<char>)
    ensures
        algorithm_named(jwa_name(a)) == Some(a),
        algorithm_named(n) == Some(a) ==> n == jwa_name(a),
        algorithm_named("HS256"@) == Some(SigningAlgorithm::HS256),
        algorithm_named("HS384"@) == Some(SigningAlgorithm::HS384),
        algorithm_named("HS512"@) == Some(SigningAlgorithm::HS512),
        algorithm_named("ES256"@) == Some(SigningAlgorithm::ES256),
        algorithm_named("ES384"@) == Some(SigningAlgorithm::ES384),
        algorithm_named("RS256"@) == Some(SigningAlgorithm::RS256),
        algorithm_named("RS384"@) == Some(SigningAlgorithm::RS384),
        algorithm_named("RS512"@) == Some(SigningAlgorithm::RS512),
        algorithm_named("PS256"@) == Some(SigningAlgorithm::PS256),
        algorithm_named("PS384"@) == Some(SigningAlgorithm::PS384),
        algorithm_named("PS512"@) == Some(SigningAlgorithm::PS512),
        algorithm_named("EdDSA"@) == Some(SigningAlgorithm::EdDSA),
{
    reveal_strlit("HS256");
    reveal_strlit("HS384");
    reveal_strlit("HS512");
    reveal_strlit("ES256");
    reveal_strlit("ES384");
    reveal_strlit("RS256");
    reveal_strlit("RS384");
    reveal_strlit("RS512");
    reveal_strlit("PS256");
    reveal_strlit("PS384");
    reveal_strlit("PS512");
    reveal_strlit("EdDSA");
    assert("HS256"@[0] == 'H' && "HS256"@[1] == 'S' && "HS256"@[2] == '2' && "HS256"@[3] == '5' && "HS256"@[4] == '6');
    assert("HS384"@[0] == 'H' && "HS384"@[1] == 'S' && "HS384"@[2] == '3' && "HS384"@[3] == '8' && "HS384"@[4] == '4');
    assert("HS512"@[0] == 'H' && "HS512"@[1] == 'S' && "HS512"@[2] == '5' && "HS512"@[3] == '1' && "HS512"@[4] == '2');
    assert("ES256"@[0] == 'E' && "ES256"@[1] == 'S' && "ES256"@[2] == '2' && "ES256"@[3] == '5' && "ES256"@[4] == '6');
    assert("ES384"@[0] == 'E' && "ES384"@[1] == 'S' && "ES384"@[2] == '3' && "ES384"@[3] == '8' && "ES384"@[4] == '4');
    assert("RS256"@[0] == 'R' && "RS256"@[1] == 'S' && "RS256"@[2] == '2' && "RS256"@[3] == '5' && "RS256"@[4] == '6');
    assert("RS384"@[0] == 'R' && "RS384"@[1] == 'S' && "RS384"@[2] == '3' && "RS384"@[3] == '8' && "RS384"@[4] == '4');
    assert("RS512"@[0] == 'R' && "RS512"@[1] == 'S' && "RS512"@[2] == '5' && "RS512"@[3] == '1' && "RS512"@[4] == '2');
    assert("PS256"@[0] == 'P' && "PS256"@[1] == 'S' && "PS256"@[2] == '2' && "PS256"@[3] == '5' && "PS256"@[4] == '6');
    assert("PS384"@[0] == 'P' && "PS384"@[1] == 'S' && "PS384"@[2] == '3' && "PS384"@[3] == '8' && "PS384"@[4] == '4');
    assert("PS512"@[0] == 'P' && "PS512"@[1] == 'S' && "PS512"@[2] == '5' && "PS512"@[3] == '1' && "PS512"@[4] == '2');
    assert("EdDSA"@[0] == 'E' && "EdDSA"@[1] == 'd' && "EdDSA"@[2] == 'D' && "EdDSA"@[3] == 'S' && "EdDSA"@[4] == 'A');
}

/// A key's declared algorithm is the one it is verified with; a key that
/// declares none is verified with RS256 when it is an RSA key and ES256
/// when it is an elliptic-curve key.
pub proof fn lemma_declared_algorithm_wins(d: JwkDescriptorView, a: SigningAlgorithm)
    ensures
        d.key_algorithm == Some(jwa_name(a)) ==> spec_derive_algorithm(d) == Ok::<
            SigningAlgorithm,
            AuthError,
        >(a),
        d.key_algorithm is None && d.family == KeyFamily::Rsa ==> spec_derive_algorithm(d) == Ok::<
            SigningAlgorithm,
            AuthError,
        >(SigningAlgorithm::RS256),
        d.key_algorithm is None && d.family == KeyFamily::EllipticCurve ==> spec_derive_algorithm(d)
            == Ok::<SigningAlgorithm, AuthError>(SigningAlgorithm::ES256),
{
    lemma_algorithm_name_round_trip(a, jwa_name(a));
}

/// Preparing to verify a token uses the key published under the token's
/// `kid` (the first such key), whatever other keys the set holds: the
/// verification key is the one built from that key's JWK, an
/// encryption-only key is refused, and the algorithm is that key's
/// declared algorithm (else RS256 for RSA, ES256 for elliptic curves).
pub proof fn lemma_prepare_uses_key_of_kid(
    keys: Seq<KeyRecord>,
    token: Seq<char>,
    kid: Seq<char>,
    i: int,
    json: Seq<char>,
    a: SigningAlgorithm,
)
    requires
        jwt_header_kid(token) == Some(Some(kid)),
        0 <= i < keys.len(),
        keys[i].kid matches Some(k) && k@ == kid,
        forall|j: int| 0 <= j < i ==> !(#[trigger] keys[j].kid matches Some(k) && k@ == kid),
        keys[i].jwk_json matches Some(js) && js@ == json,
    ensures
        spec_prepare(Some(keys), token) matches Ok((b, key)) ==> Some(key) == jwk_decoding_key(
            json,
        ),
        keys[i].encryption_only && jwk_described(json) is Some ==> spec_prepare(Some(keys), token)
            == Err::<(SigningAlgorithm, jsonwebtoken::DecodingKey), AuthError>(
            AuthError::BadSignature,
        ),
        jwk_decoding_key(json) is None ==> spec_prepare(Some(keys), token) is Err,
        jwk_described(json) matches Some(d) ==> (jwk_decoding_key(json) matches Some(key) ==> (
        !keys[i].encryption_only && (d.key_algorithm == Some(jwa_name(a)) || (d.key_algorithm is None
            && d.family == KeyFamily::Rsa && a == SigningAlgorithm::RS256) || (d.key_algorithm is None
            && d.family == KeyFamily::EllipticCurve && a == SigningAlgorithm::ES256))
            ==> spec_prepare(Some(keys), token) == Ok::<
            (SigningAlgorithm, jsonwebtoken::DecodingKey),
            AuthError,
        >((a, key)))),
{
    assert(is_first_key_with_kid(keys, kid, i)) by {
        assert forall|j: int| 0 <= j < i implies !key_has_kid(keys[j], kid) by {
            assert(!(keys[j].kid matches Some(k) && k@ == kid));
        }
    }
    assert(has_key_with_kid(keys, kid));
    let c = choose|c: int| is_first_key_with_kid(keys, kid, c);
    lemma_first_key_exists(keys, kid);
    lemma_first_key_unique(keys, kid, c, i);
    assert(spec_choose_key(Some(keys), Some(Some(kid))) == Ok::<int, AuthError>(i));
    assert(chosen_json(keys, i) == json);
    if let Some(d) = jwk_described(json) {
        lemma_declared_algorithm_wins(d, a);
    }
}

/// On a successful decode every claim is carried over unchanged: `iss`,
/// `sub`, `email` and `name` are the token's, and the scopes are the words
/// of `scope` when present, else the entries of `scp`, else none.
pub proof fn lemma_claims_carried_over(raw: RawClaims)
    ensures
        claims_of(raw).iss == raw.iss@,
        claims_of(raw).sub == raw.sub@,
        raw.email matches Some(e) ==> claims_of(raw).email == Some(e@),
        raw.email is None ==> claims_of(raw).email is None,
        raw.name matches Some(n) ==> claims_of(raw).name == Some(n@),
        raw.name is None ==> claims_of(raw).name is None,
        raw.scope matches Some(s) ==> claims_of(raw).scopes == spec_words(s@),
        raw.scp matches Some(v) ==> (raw.scope is None ==> claims_of(raw).scopes == v@.map_values(
            |x: String| x@,
        )),
        raw.scope is None && raw.scp is None ==> claims_of(raw).scopes.len() == 0,
{
}

} // verus!
