//! Core auth types: the validated [`Claims`] payload, the [`Identity`]
//! variant tag (named after the credential format that produced it), and
//! the [`AuthError`] type returned by the auth pipeline.

use vstd::prelude::*;

verus! {

/// JWT claims extracted from a validated token, regardless of the credential
/// format that produced it.
#[derive(Debug, Clone, PartialEq, Eq)]
pub struct Claims {
    /// `iss`: token issuer.
    pub iss: String,
    /// `sub`: the subject the token was issued to.
    pub sub: String,
    /// `email` (OIDC), if present.
    pub email: Option<String>,
    /// `name` (OIDC), if present.
    pub name: Option<String>,
    /// `scope` (space-separated) or `scp` (array), both normalised to a list.
    /// An empty list means no scopes were asserted by the token.
    pub scopes: Vec<String>,
}

/// The authenticated identity attached to a request, named after the
/// credential format that produced it.
#[derive(Debug, Clone, PartialEq, Eq)]
pub enum Identity {
    /// Auth is disabled (e.g. local development).
    Disabled,
    /// Arrived as `Authorization: Bearer <jwt>`.
    Bearer(Claims),
    /// Arrived as `Authorization: Basic ...`, exchanged for a JWT, then validated.
    Basic(Claims),
}

/// The identity a request handler receives from the auth middleware.
#[derive(Debug, Clone)]
pub struct Authenticated(pub Identity);

/// Errors surfaced by the auth pipeline.
#[derive(Debug, Clone)]
pub enum AuthError {
    /// No `Authorization` header on the request.
    MissingHeader,
    /// `Authorization` header could not be parsed.
    MalformedHeader,
    /// JWT `exp` is in the past (beyond skew tolerance).
    Expired,
    /// JWT signature did not verify against the issuer's key set.
    BadSignature,
    /// JWT `iss` did not match the configured issuer.
    BadIssuer(String),
    /// JWT `aud` did not match any of the configured audiences.
    BadAudience,
    /// The identity provider did not respond, was unreachable or failed.
    IdpUnreachable(String),
    /// The identity provider rejected the credentials during token exchange
    /// (its token endpoint answered 400, 401 or 403).
    IdpRejected,
    /// The identity provider returned a response that could not be parsed.
    IdpMalformedResponse(String),
}

/// The human-readable description of an [`AuthError`], including the
/// runtime detail that some variants carry.
pub open spec fn auth_error_message(err: AuthError) -> Seq<char> {
    match err {
        AuthError::MissingHeader => "missing Authorization header"@,
        AuthError::MalformedHeader => "malformed Authorization header"@,
        AuthError::Expired => "token expired"@,
        AuthError::BadSignature => "token signature invalid"@,
        AuthError::BadIssuer(s) => "token issuer not accepted: "@ + s@,
        AuthError::BadAudience => "token audience not accepted"@,
        AuthError::IdpUnreachable(s) => "identity provider unreachable: "@ + s@,
        AuthError::IdpRejected => "identity provider rejected credentials"@,
        AuthError::IdpMalformedResponse(s) => "identity provider returned malformed response: "@ + s@,
    }
}

impl AuthError {
    /// Describe the error for logs; variants with a payload include it.
    pub fn message(&self) -> (r: String)
        ensures
            r@ == auth_error_message(*self),
    {
        match self {
            AuthError::MissingHeader => String::from_str("missing Authorization header"),
            AuthError::MalformedHeader => String::from_str("malformed Authorization header"),
            AuthError::Expired => String::from_str("token expired"),
            AuthError::BadSignature => String::from_str("token signature invalid"),
            AuthError::BadIssuer(s) => String::from_str("token issuer not accepted: ").concat(s.as_str()),
            AuthError::BadAudience => String::from_str("token audience not accepted"),
            AuthError::IdpUnreachable(s) => String::from_str("identity provider unreachable: ").concat(s.as_str()),
            AuthError::IdpRejected => String::from_str("identity provider rejected credentials"),
            AuthError::IdpMalformedResponse(s) => String::from_str(
                "identity provider returned malformed response: ",
            ).concat(s.as_str()),
        }
    }
}

} // verus!
