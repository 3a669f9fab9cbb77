//! How an [`AuthError`] is presented to an HTTP client: a stable code, a
//! public message that never carries runtime detail, and a status.

use vstd::prelude::*;
use crate::identity::AuthError;

verus! {

/// Stable machine-readable code of an error.
pub open spec fn spec_code(err: AuthError) -> Seq<char> {
    match err {
        AuthError::MissingHeader => "MISSING_AUTHORIZATION"@,
        AuthError::MalformedHeader => "MALFORMED_AUTHORIZATION"@,
        AuthError::IdpRejected => "INVALID_CREDENTIALS"@,
        AuthError::Expired => "TOKEN_EXPIRED"@,
        AuthError::BadSignature => "BAD_SIGNATURE"@,
        AuthError::BadIssuer(_) => "BAD_ISSUER"@,
        AuthError::BadAudience => "BAD_AUDIENCE"@,
        AuthError::IdpUnreachable(_) => "IDP_UNREACHABLE"@,
        AuthError::IdpMalformedResponse(_) => "IDP_MALFORMED_RESPONSE"@,
    }
}

/// Public, code-specific message of an error.
pub open spec fn spec_public_message(err: AuthError) -> Seq<char> {
    match err {
        AuthError::MissingHeader => "missing Authorization header"@,
        AuthError::MalformedHeader => "malformed Authorization header"@,
        AuthError::Expired => "token expired"@,
        AuthError::BadSignature => "token signature invalid"@,
        AuthError::BadIssuer(_) => "token issuer not accepted"@,
        AuthError::BadAudience => "token audience not accepted"@,
        AuthError::IdpRejected => "invalid credentials"@,
        AuthError::IdpUnreachable(_) => "identity provider unreachable"@,
        AuthError::IdpMalformedResponse(_) => "identity provider returned an unexpected response"@,
    }
}

/// Whether the failure lies with the identity provider rather than with the
/// client's credentials.
pub open spec fn is_idp_failure(err: AuthError) -> bool {
    err is IdpUnreachable || err is IdpMalformedResponse
}

/// HTTP status of the error response: 503 for identity-provider failures,
/// 401 for every client-side failure.
pub open spec fn spec_status(err: AuthError) -> u16 {
    if is_idp_failure(err) { 503 } else { 401 }
}

/// Stable code for an error, used in the response body.
pub fn code(err: &AuthError) -> (r: &'static str)
    ensures
        r@ == spec_code(*err),
{
    match err {
        AuthError::MissingHeader => "MISSING_AUTHORIZATION",
        AuthError::MalformedHeader => "MALFORMED_AUTHORIZATION",
        AuthError::IdpRejected => "INVALID_CREDENTIALS",
        AuthError::Expired => "TOKEN_EXPIRED",
        AuthError::BadSignature => "BAD_SIGNATURE",
        AuthError::BadIssuer(_) => "BAD_ISSUER",
        AuthError::BadAudience => "BAD_AUDIENCE",
        AuthError::IdpUnreachable(_) => "IDP_UNREACHABLE",
        AuthError::IdpMalformedResponse(_) => "IDP_MALFORMED_RESPONSE",
    }
}

/// Stable, code-specific public message. Never includes runtime detail
/// (issuer URLs, identity-provider response fragments, decode errors).
pub fn public_message(err: &AuthError) -> (r: &'static str)
    ensures
        r@ == spec_public_message(*err),
{
    match err {
        AuthError::MissingHeader => "missing Authorization header",
        AuthError::MalformedHeader => "malformed Authorization header",
        AuthError::Expired => "token expired",
        AuthError::BadSignature => "token signature invalid",
        AuthError::BadIssuer(_) => "token issuer not accepted",
        AuthError::BadAudience => "token audience not accepted",
        AuthError::IdpRejected => "invalid credentials",
        AuthError::IdpUnreachable(_) => "identity provider unreachable",
        AuthError::IdpMalformedResponse(_) => "identity provider returned an unexpected response",
    }
}

/// HTTP status for the error response.
pub fn response_status(err: &AuthError) -> (r: u16)
    ensures
        r == spec_status(*err),
{
    match err {
        AuthError::IdpUnreachable(_) | AuthError::IdpMalformedResponse(_) => 503,
        _ => 401,
    }
}

/// Seconds a client is asked to wait before retrying (`Retry-After`);
/// present exactly for identity-provider failures.
pub fn retry_after_secs(err: &AuthError) -> (r: Option<u64>)
    ensures
        r == (if is_idp_failure(*err) { Some(5u64) } else { None::<u64> }),
{
    match err {
        AuthError::IdpUnreachable(_) | AuthError::IdpMalformedResponse(_) => Some(5),
        _ => None,
    }
}

/// Distinct kinds of failure get distinct codes, so a client can tell
/// them apart even though no runtime detail is disclosed.
pub proof fn lemma_codes_distinguish_kinds(e1: AuthError, e2: AuthError)
    requires
        spec_code(e1) == spec_code(e2),
    ensures
        (e1 is MissingHeader) == (e2 is MissingHeader),
        (e1 is MalformedHeader) == (e2 is MalformedHeader),
        (e1 is Expired) == (e2 is Expired),
        (e1 is BadSignature) == (e2 is BadSignature),
        (e1 is BadIssuer) == (e2 is BadIssuer),
        (e1 is BadAudience) == (e2 is BadAudience),
        (e1 is IdpUnreachable) == (e2 is IdpUnreachable),
        (e1 is IdpRejected) == (e2 is IdpRejected),
        (e1 is IdpMalformedResponse) == (e2 is IdpMalformedResponse),
{
    reveal_strlit("MISSING_AUTHORIZATION");
    reveal_strlit("MALFORMED_AUTHORIZATION");
    reveal_strlit("INVALID_CREDENTIALS");
    reveal_strlit("TOKEN_EXPIRED");
    reveal_strlit("BAD_SIGNATURE");
    reveal_strlit("BAD_ISSUER");
    reveal_strlit("BAD_AUDIENCE");
    reveal_strlit("IDP_UNREACHABLE");
    reveal_strlit("IDP_MALFORMED_RESPONSE");
    let c1 = spec_code(e1);
    let c2 = spec_code(e2);
    assert(c1.len() == c2.len());
    assert(c1[0] == c2[0]);
    assert(c1[1] == c2[1]);
    assert(c1[2] == c2[2]);
}

/// The public body of an error response depends on the code alone: two
/// errors with the same code get the same public message, whatever runtime
/// detail (issuer URL, provider response) they carry.
pub proof fn lemma_public_message_depends_on_code_only(e1: AuthError, e2: AuthError)
    requires
        spec_code(e1) == spec_code(e2),
    ensures
        spec_public_message(e1) == spec_public_message(e2),
        spec_status(e1) == spec_status(e2),
{
    lemma_codes_distinguish_kinds(e1, e2);
}

/// A response asks the client to retry later exactly when its status is 503.
pub proof fn lemma_retry_exactly_when_unavailable(err: AuthError)
    ensures
        (spec_status(err) == 503) == is_idp_failure(err),
        spec_status(err) == 401 || spec_status(err) == 503,
{
}

} // verus!
