//! Auth configuration. The library exposes a builder; callers decide how to
//! populate it (environment, config file, command-line flags, ...).

use vstd::prelude::*;
use std::time::Duration;

verus! {

/// Nanoseconds in one second.
pub const NANOS_PER_SEC: u64 = 1_000_000_000;

/// Default cap on the lifetime of a cached Basic-credential exchange, in seconds.
pub const DEFAULT_BASIC_CACHE_TTL_SECS: u64 = 3600;

/// Default interval between key-set refreshes, in seconds.
pub const DEFAULT_JWKS_REFRESH_SECS: u64 = 300;

/// The name of what `Duration::as_nanos` returns for `d`: the whole
/// nanoseconds the duration spans.
pub uninterp spec fn duration_nanos(d: Duration) -> nat;

/// `Duration::is_zero`. Trusted: true exactly when the duration spans no
/// time, i.e. zero nanoseconds.
#[verifier::external_body]
pub(crate) fn duration_is_zero(d: &Duration) -> (r: bool)
    ensures
        r == (duration_nanos(*d) == 0),
{
    d.is_zero()
}

/// `Duration::from_secs`. Trusted: the duration spans `secs` whole seconds.
#[verifier::external_body]
pub(crate) fn duration_from_secs(secs: u64) -> (d: Duration)
    ensures
        duration_nanos(d) == secs * NANOS_PER_SEC,
{
    Duration::from_secs(secs)
}

/// `Duration::as_nanos`. Trusted: returns the duration's whole nanoseconds.
#[verifier::external_body]
pub(crate) fn duration_as_nanos(d: &Duration) -> (r: u128)
    ensures
        r == duration_nanos(*d),
{
    d.as_nanos()
}

/// `Clone` of `Duration`, a `Copy` type. Trusted: the clone equals its source.
pub assume_specification[ <Duration as Clone>::clone ](d: &Duration) -> (r: Duration)
    ensures
        r == *d,
;

/// Top-level configuration. Use [`AuthConfig::disabled`] for local-dev /
/// no-auth modes, or [`AuthConfig::builder`] to build an enabled config.
#[derive(Debug, Clone)]
pub enum AuthConfig {
    /// Disable authentication entirely: every request gets the disabled identity.
    Disabled,
    /// Validate inbound JWTs against the configured OIDC issuer.
    Enabled(EnabledConfig),
}

/// Strongly-typed configuration for an enabled auth pipeline.
#[derive(Debug, Clone)]
pub struct EnabledConfig {
    /// OIDC issuer URL. Discovery is performed at `<issuer>/.well-known/openid-configuration`.
    pub issuer: String,
    /// `aud` values accepted on inbound JWTs.
    pub audiences: Vec<String>,
    /// `audience` value to request during the Basic-to-JWT exchange.
    pub basic_audience: Option<String>,
    /// `scope` to request during the Basic-to-JWT exchange.
    pub basic_scope: Option<String>,
    /// Hard cap on the Basic-to-JWT cache lifetime.
    pub basic_cache_ttl: Duration,
    /// Interval at which the key set is refetched in the background.
    pub jwks_refresh: Duration,
}

/// Builder for [`AuthConfig::Enabled`].
#[derive(Debug)]
pub struct AuthConfigBuilder {
    issuer: Option<String>,
    audiences: Vec<String>,
    basic_audience: Option<String>,
    basic_scope: Option<String>,
    basic_cache_ttl: Option<Duration>,
    jwks_refresh: Option<Duration>,
}

/// View of an optional string.
pub open spec fn opt_string_view(o: Option<String>) -> Option<Seq<char>> {
    match o {
        Some(s) => Some(s@),
        None => None,
    }
}

/// Views of a list of strings.
pub open spec fn strings_view(v: Seq<String>) -> Seq<Seq<char>> {
    v.map_values(|x: String| x@)
}

/// What a builder has been given so far.
pub struct BuilderView {
    /// Issuer, if set.
    pub issuer: Option<Seq<char>>,
    /// Accepted audiences (empty until set).
    pub audiences: Seq<Seq<char>>,
    /// Exchange audience, if set.
    pub basic_audience: Option<Seq<char>>,
    /// Exchange scope, if set.
    pub basic_scope: Option<Seq<char>>,
    /// Cache lifetime cap, if set.
    pub basic_cache_ttl: Option<Duration>,
    /// Key-set refresh interval, if set.
    pub jwks_refresh: Option<Duration>,
}

impl View for AuthConfigBuilder {
    type V = BuilderView;

    closed spec fn view(&self) -> BuilderView {
        BuilderView {
            issuer: opt_string_view(self.issuer),
            audiences: strings_view(self.audiences@),
            basic_audience: opt_string_view(self.basic_audience),
            basic_scope: opt_string_view(self.basic_scope),
            basic_cache_ttl: self.basic_cache_ttl,
            jwks_refresh: self.jwks_refresh,
        }
    }
}

/// What an enabled configuration holds.
pub struct EnabledView {
    /// Issuer.
    pub issuer: Seq<char>,
    /// Accepted audiences.
    pub audiences: Seq<Seq<char>>,
    /// Exchange audience.
    pub basic_audience: Option<Seq<char>>,
    /// Exchange scope.
    pub basic_scope: Option<Seq<char>>,
    /// Cache lifetime cap.
    pub basic_cache_ttl: Duration,
    /// Key-set refresh interval.
    pub jwks_refresh: Duration,
}

impl View for EnabledConfig {
    type V = EnabledView;

    open spec fn view(&self) -> EnabledView {
        EnabledView {
            issuer: self.issuer@,
            audiences: strings_view(self.audiences@),
            basic_audience: opt_string_view(self.basic_audience),
            basic_scope: opt_string_view(self.basic_scope),
            basic_cache_ttl: self.basic_cache_ttl,
            jwks_refresh: self.jwks_refresh,
        }
    }
}

/// A builder to which nothing has been given.
pub open spec fn empty_builder() -> BuilderView {
    BuilderView {
        issuer: None,
        audiences: Seq::empty(),
        basic_audience: None,
        basic_scope: None,
        basic_cache_ttl: None,
        jwks_refresh: None,
    }
}

/// The error `build` reports for what the builder was given, if any; the
/// checks run in this order.
pub open spec fn spec_build_error(b: BuilderView) -> Option<BuildError> {
    if b.issuer is None {
        Some(BuildError::MissingIssuer)
    } else if b.audiences.len() == 0 {
        Some(BuildError::EmptyAudiences)
    } else if b.basic_cache_ttl matches Some(t) && duration_nanos(t) == 0 {
        Some(BuildError::NonPositiveBasicCacheTtl)
    } else if b.jwks_refresh matches Some(t) && duration_nanos(t) == 0 {
        Some(BuildError::NonPositiveJwksRefresh)
    } else {
        None
    }
}

/// `d` is the given duration, or one of `default_secs` seconds when none was given.
pub open spec fn duration_or_default(given: Option<Duration>, d: Duration, default_secs: u64) -> bool {
    match given {
        Some(t) => d == t,
        None => duration_nanos(d) == default_secs * NANOS_PER_SEC,
    }
}

/// `c` is the enabled configuration `build` makes from a builder that passed
/// every check: the given values, with defaults for the unset durations.
pub open spec fn built_from(b: BuilderView, c: EnabledView) -> bool {
    &&& b.issuer == Some(c.issuer)
    &&& c.audiences == b.audiences
    &&& c.basic_audience == b.basic_audience
    &&& c.basic_scope == b.basic_scope
    &&& duration_or_default(b.basic_cache_ttl, c.basic_cache_ttl, DEFAULT_BASIC_CACHE_TTL_SECS)
    &&& duration_or_default(b.jwks_refresh, c.jwks_refresh, DEFAULT_JWKS_REFRESH_SECS)
}

impl AuthConfig {
    /// Disabled-mode constructor.
    pub fn disabled() -> (r: Self)
        ensures
            r is Disabled,
    {
        AuthConfig::Disabled
    }

    /// Start an enabled-mode builder.
    pub fn builder() -> (r: AuthConfigBuilder)
        ensures
            r@ == empty_builder(),
    {
        AuthConfigBuilder::default()
    }
}

impl Default for AuthConfigBuilder {
    fn default() -> (r: Self)
        ensures
            r@ == empty_builder(),
    {
        let r = AuthConfigBuilder {
            issuer: None,
            audiences: Vec::new(),
            basic_audience: None,
            basic_scope: None,
            basic_cache_ttl: None,
            jwks_refresh: None,
        };
        proof {
            assert(strings_view(r.audiences@) =~= Seq::<Seq<char>>::empty());
        }
        r
    }
}

impl AuthConfigBuilder {
    /// REQUIRED: set the OIDC issuer URL used for discovery and `iss` validation.
    pub fn issuer(self, issuer: &str) -> (r: Self)
        ensures
            r@ == (BuilderView { issuer: Some(issuer@), ..self@ }),
    {
        AuthConfigBuilder { issuer: Some(issuer.to_owned()), ..self }
    }

    /// REQUIRED: set the accepted `aud` values for inbound JWTs.
    pub fn audiences(self, audiences: &[&str]) -> (r: Self)
        ensures
            r@ == (BuilderView {
                audiences: audiences@.map_values(|a: &str| a@),
                ..self@
            }),
    {
        let n = audiences.len();
        let mut v: Vec<String> = Vec::new();
        let mut i: usize = 0;
        while i < n
            invariant
                0 <= i <= n,
                n == audiences@.len(),
                strings_view(v@) =~= audiences@.take(i as int).map_values(|a: &str| a@),
            decreases n - i,
        {
            let ghost before = v@;
            let a = audiences[i];
            v.push(a.to_owned());
            proof {
                assert(audiences@.take(i + 1) =~= audiences@.take(i as int).push(a));
                assert(strings_view(v@) =~= strings_view(before).push(a@));
                assert(audiences@.take(i + 1).map_values(|a: &str| a@) =~= audiences@.take(
                    i as int,
                ).map_values(|a: &str| a@).push(a@));
            }
            i = i + 1;
        }
        proof {
            assert(audiences@.take(n as int) =~= audiences@);
        }
        AuthConfigBuilder { audiences: v, ..self }
    }

    /// Optional: set the `audience` parameter sent to the token endpoint in
    /// the Basic-to-JWT exchange.
    pub fn basic_audience(self, audience: &str) -> (r: Self)
        ensures
            r@ == (BuilderView { basic_audience: Some(audience@), ..self@ }),
    {
        AuthConfigBuilder { basic_audience: Some(audience.to_owned()), ..self }
    }

    /// Optional: set the space-delimited `scope` sent to the token endpoint
    /// in the Basic-to-JWT exchange.
    pub fn basic_scope(self, scope: &str) -> (r: Self)
        ensures
            r@ == (BuilderView { basic_scope: Some(scope@), ..self@ }),
    {
        AuthConfigBuilder { basic_scope: Some(scope.to_owned()), ..self }
    }

    /// Override the default 1-hour cap on the positive cache lifetime.
    pub fn basic_cache_ttl(self, ttl: Duration) -> (r: Self)
        ensures
            r@ == (BuilderView { basic_cache_ttl: Some(ttl), ..self@ }),
    {
        AuthConfigBuilder { basic_cache_ttl: Some(ttl), ..self }
    }

    /// Override the default 5-minute key-set refresh interval.
    pub fn jwks_refresh(self, interval: Duration) -> (r: Self)
        ensures
            r@ == (BuilderView { jwks_refresh: Some(interval), ..self@ }),
    {
        AuthConfigBuilder { jwks_refresh: Some(interval), ..self }
    }

    /// Finish and validate the builder: `Ok(AuthConfig::Enabled(_))` when the
    /// issuer is set, at least one audience is given and no duration was set
    /// to zero; otherwise the first failing check's error.
    pub fn build(self) -> (r: Result<AuthConfig, BuildError>)
        ensures
            match spec_build_error(self@) {
                Some(e) => r == Err::<AuthConfig, BuildError>(e),
                None => r matches Ok(AuthConfig::Enabled(c)) && built_from(self@, c@),
            },
    {
        let issuer = match self.issuer {
            Some(i) => i,
            None => return Err(BuildError::MissingIssuer),
        };
        if self.audiences.len() == 0 {
            return Err(BuildError::EmptyAudiences);
        }
        if let Some(t) = &self.basic_cache_ttl {
            if duration_is_zero(t) {
                return Err(BuildError::NonPositiveBasicCacheTtl);
            }
        }
        if let Some(t) = &self.jwks_refresh {
            if duration_is_zero(t) {
                return Err(BuildError::NonPositiveJwksRefresh);
            }
        }
        let basic_cache_ttl = match self.basic_cache_ttl {
            Some(t) => t,
            None => duration_from_secs(DEFAULT_BASIC_CACHE_TTL_SECS),
        };
        let jwks_refresh = match self.jwks_refresh {
            Some(t) => t,
            None => duration_from_secs(DEFAULT_JWKS_REFRESH_SECS),
        };
        Ok(
            AuthConfig::Enabled(
                EnabledConfig {
                    issuer,
                    audiences: self.audiences,
                    basic_audience: self.basic_audience,
                    basic_scope: self.basic_scope,
                    basic_cache_ttl,
                    jwks_refresh,
                },
            ),
        )
    }
}

/// Errors returned by [`AuthConfigBuilder::build`].
#[derive(Debug, Clone, Copy, PartialEq, Eq)]
pub enum BuildError {
    /// `issuer` was not set.
    MissingIssuer,
    /// `audiences` was empty or unset.
    EmptyAudiences,
    /// `basic_cache_ttl` was explicitly set to zero.
    NonPositiveBasicCacheTtl,
    /// `jwks_refresh` was explicitly set to zero (a zero interval cannot drive a timer).
    NonPositiveJwksRefresh,
}

/// The description of a [`BuildError`].
pub open spec fn build_error_message(e: BuildError) -> Seq<char> {
    match e {
        BuildError::MissingIssuer => "issuer is required"@,
        BuildError::EmptyAudiences => "at least one audience is required"@,
        BuildError::NonPositiveBasicCacheTtl => "basic cache TTL must be greater than zero"@,
        BuildError::NonPositiveJwksRefresh => "JWKS refresh interval must be greater than zero"@,
    }
}

impl BuildError {
    /// Describe the error.
    pub fn message(&self) -> (r: &'static str)
        ensures
            r@ == build_error_message(*self),
    {
        match self {
            BuildError::MissingIssuer => "issuer is required",
            BuildError::EmptyAudiences => "at least one audience is required",
            BuildError::NonPositiveBasicCacheTtl => "basic cache TTL must be greater than zero",
            BuildError::NonPositiveJwksRefresh => "JWKS refresh interval must be greater than zero",
        }
    }
}

/// What `build` accepts and refuses: a builder is accepted exactly when the
/// issuer is set, at least one audience is given and no duration was set to
/// zero; a missing issuer is reported first, then missing audiences, then a
/// zero cache lifetime, then a zero refresh interval. Unset durations
/// default to one hour (cache lifetime) and five minutes (refresh).
pub proof fn lemma_build_rules(b: BuilderView, c: EnabledView)
    ensures
        spec_build_error(b) is None <==> (b.issuer is Some && b.audiences.len() > 0 && !(
        b.basic_cache_ttl matches Some(t) && duration_nanos(t) == 0) && !(b.jwks_refresh matches Some(
            t,
        ) && duration_nanos(t) == 0)),
        b.issuer is None ==> spec_build_error(b) == Some(BuildError::MissingIssuer),
        b.issuer is Some && b.audiences.len() == 0 ==> spec_build_error(b) == Some(
            BuildError::EmptyAudiences,
        ),
        b.basic_cache_ttl is None && built_from(b, c) ==> duration_nanos(c.basic_cache_ttl) == 3600
            * 1_000_000_000,
        b.jwks_refresh is None && built_from(b, c) ==> duration_nanos(c.jwks_refresh) == 300
            * 1_000_000_000,
        built_from(b, c) ==> b.issuer == Some(c.issuer) && c.audiences == b.audiences
            && c.basic_audience == b.basic_audience && c.basic_scope == b.basic_scope,
{
}

} // verus!
