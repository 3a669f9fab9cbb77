//! OIDC resource-server primitives: credential parsing, JWT claim checks,
//! the Basic-credential exchange cache and configuration, with their
//! behaviour stated as Verus contracts.

pub mod config;
pub mod exchanger;
pub mod identity;
pub mod resolve;
pub mod response;
pub mod text;
pub mod validator;

pub use config::{AuthConfig, AuthConfigBuilder, BuildError, EnabledConfig};
pub use exchanger::{
    cache_key, cache_ttl, classify_token_status, discovery_url, is_other_client,
    require_token_endpoint, token_request_form, CacheKey, CacheLookup, CachedToken, ExchangeCache,
    NegativeEntry, NegativeReason,
};
pub use identity::{auth_error_message, AuthError, Authenticated, Claims, Identity};
pub use resolve::{parse_authorization, parse_basic_payload, strip_scheme_prefix, Credentials};
pub use response::{code, public_message, response_status, retry_after_secs};
pub use text::{is_whitespace, split_whitespace, trim, trim_end, trim_end_char, trim_start};
pub use validator::{
    choose_key, claims_from_decoded, parse_issuer_url, derive_algorithm, key_algorithm, parse_algorithm_name, parse_scopes, prepare_verification,
    validation_policy, DecodeFailure, JwkDescriptor, KeyFamily, KeyRecord, RawClaims,
    SigningAlgorithm, ValidationPolicy, VerificationKey,
};
