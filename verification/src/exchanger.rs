//! The decisions of the Basic-credential exchange: the cache of issued
//! tokens and of refusals, keyed by client identifier and secret digest,
//! and the requests made to the identity provider.
//!
//! Tokens are cached until the earlier of `expires_in - 60s` and
//! `hard_ttl - 60s`; identity-provider rejections are remembered for 30 s
//! and transient failures for 5 s. Times are nanoseconds on a monotonic
//! clock chosen by the caller.

use vstd::prelude::*;
use std::time::Duration;
use dashmap::DashMap;
use sha2::Digest;
use vstd::string::StringSliceAdditionalSpecFns;
use crate::config::{duration_as_nanos, duration_nanos, NANOS_PER_SEC};
use crate::identity::AuthError;
use crate::text::{spec_trim_end_char, str_eq, trim_end_char};

verus! {

/// The name of the SHA-256 digest of `data`, as the `sha2` crate computes it.
pub uninterp spec fn sha256_of(data: Seq<u8>) -> Seq<u8>;

/// SHA-256 of `data` with `sha2::Sha256::digest`. Trusted: the result is the
/// digest `sha256_of` names.
#[verifier::external_body]
fn sha256(data: &[u8]) -> (r: [u8; 32])
    ensures
        r@ == sha256_of(data@),
{
    sha2::Sha256::digest(data).into()
}

/// Key of both caches: the client identifier and the digest of the secret
/// (the secret itself is never stored).
#[derive(Debug, PartialEq, Eq, Hash)]
pub struct CacheKey {
    /// Client identifier.
    pub client_id: String,
    /// SHA-256 digest of the client secret.
    pub secret_hash: [u8; 32],
}

/// The mathematical content of a [`CacheKey`].
pub type KeyView = (Seq<char>, Seq<u8>);

/// Issued tokens: key to (token, expiry).
pub type TokenEntries = Map<KeyView, (Seq<char>, u64)>;

/// Remembered refusals: key to (expiry, reason).
pub type RefusalEntries = Map<KeyView, (u64, NegativeReason)>;

impl View for CacheKey {
    type V = KeyView;

    open spec fn view(&self) -> KeyView {
        (self.client_id@, self.secret_hash@)
    }
}

impl CacheKey {
    /// A key equal to this one.
    pub fn duplicate(&self) -> (r: CacheKey)
        ensures
            r@ == self@,
    {
        CacheKey { client_id: self.client_id.clone(), secret_hash: self.secret_hash }
    }
}

/// The cache key for a client identifier and secret.
pub fn cache_key(client_id: &str, secret: &str) -> (r: CacheKey)
    ensures
        r@ == (client_id@, sha256_of(secret.spec_bytes())),
{
    CacheKey { client_id: client_id.to_owned(), secret_hash: sha256(secret.as_bytes()) }
}

/// A cached token and the instant it stops being served.
#[derive(Debug)]
pub struct CachedToken {
    /// The token.
    pub jwt: String,
    /// Instant (nanoseconds) from which the entry is stale.
    pub expires_at: u64,
}

impl View for CachedToken {
    type V = (Seq<char>, u64);

    open spec fn view(&self) -> (Seq<char>, u64) {
        (self.jwt@, self.expires_at)
    }
}

impl CachedToken {
    /// An entry equal to this one.
    pub fn duplicate(&self) -> (r: CachedToken)
        ensures
            r@ == self@,
    {
        CachedToken { jwt: self.jwt.clone(), expires_at: self.expires_at }
    }
}

/// Why an exchange was refused.
#[derive(Debug, Clone, Copy, PartialEq, Eq)]
pub enum NegativeReason {
    /// The identity provider rejected the credentials.
    Rejected,
    /// The identity provider could not be reached or failed.
    Transient,
}

/// A remembered refusal and the instant it is forgotten.
#[derive(Debug, Clone, Copy)]
pub struct NegativeEntry {
    /// Instant (nanoseconds) from which the refusal is stale.
    pub until: u64,
    /// Why the exchange was refused.
    pub error: NegativeReason,
}

impl View for NegativeEntry {
    type V = (u64, NegativeReason);

    open spec fn view(&self) -> (u64, NegativeReason) {
        (self.until, self.error)
    }
}

/// `dashmap::DashMap`, a concurrent hash map (opaque).
#[verifier::external_type_specification]
#[verifier::external_body]
#[verifier::reject_recursive_types(K)]
#[verifier::reject_recursive_types(V)]
#[verifier::reject_recursive_types(S)]
pub struct ExDashMap<K, V, S>(DashMap<K, V, S>);

/// The name of what a map of issued tokens holds: key to (token, expiry).
pub uninterp spec fn positive_entries(m: DashMap<CacheKey, CachedToken>) -> TokenEntries;

/// The name of what a map of refusals holds: key to (expiry, reason).
pub uninterp spec fn negative_entries(m: DashMap<CacheKey, NegativeEntry>) -> RefusalEntries;

/// `DashMap::new` for issued tokens. Trusted: the map is empty.
#[verifier::external_body]
fn positive_new() -> (m: DashMap<CacheKey, CachedToken>)
    ensures
        positive_entries(m) == TokenEntries::empty(),
{
    DashMap::new()
}

/// `DashMap::get` on issued tokens, copying the entry out. Trusted: the
/// entry is the one the map holds for the key, if any.
#[verifier::external_body]
fn positive_get(m: &DashMap<CacheKey, CachedToken>, key: &CacheKey) -> (r: Option<CachedToken>)
    ensures
        match r {
            Some(t) => positive_entries(*m).contains_key(key@) && positive_entries(*m)[key@] == t@,
            None => !positive_entries(*m).contains_key(key@),
        },
{
    m.get(key).map(|e| e.value().duplicate())
}

/// `DashMap::insert` on issued tokens. Trusted: the key now maps to the
/// value, all other entries unchanged.
#[verifier::external_body]
fn positive_insert(m: &mut DashMap<CacheKey, CachedToken>, key: CacheKey, value: CachedToken)
    ensures
        positive_entries(*final(m)) == positive_entries(*old(m)).insert(key@, value@),
{
    m.insert(key, value);
}

/// `DashMap::remove` on issued tokens. Trusted: the key's entry is gone,
/// all other entries unchanged.
#[verifier::external_body]
fn positive_remove(m: &mut DashMap<CacheKey, CachedToken>, key: &CacheKey)
    ensures
        positive_entries(*final(m)) == positive_entries(*old(m)).remove(key@),
{
    m.remove(key);
}

/// `DashMap::len` on issued tokens. Trusted: the number of entries.
#[verifier::external_body]
fn positive_len(m: &DashMap<CacheKey, CachedToken>) -> (r: usize)
    ensures
        r == positive_entries(*m).len(),
{
    m.len()
}

/// `DashMap::retain` on issued tokens, keeping the entries of other
/// clients. Trusted: exactly the entries whose client is not `client_id` remain.
#[verifier::external_body]
fn positive_retain_others(m: &mut DashMap<CacheKey, CachedToken>, client_id: &str)
    ensures
        positive_entries(*final(m)) == keep_other_clients(positive_entries(*old(m)), client_id@),
{
    m.retain(|k, _| is_other_client(k, client_id));
}

/// `DashMap::clear` on issued tokens. Trusted: the map is empty.
#[verifier::external_body]
fn positive_clear(m: &mut DashMap<CacheKey, CachedToken>)
    ensures
        positive_entries(*final(m)) == TokenEntries::empty(),
{
    m.clear();
}

/// `DashMap::new` for refusals. Trusted: the map is empty.
#[verifier::external_body]
fn negative_new() -> (m: DashMap<CacheKey, NegativeEntry>)
    ensures
        negative_entries(m) == RefusalEntries::empty(),
{
    DashMap::new()
}

/// `DashMap::get` on refusals, copying the entry out. Trusted: the entry is
/// the one the map holds for the key, if any.
#[verifier::external_body]
fn negative_get(m: &DashMap<CacheKey, NegativeEntry>, key: &CacheKey) -> (r: Option<NegativeEntry>)
    ensures
        match r {
            Some(t) => negative_entries(*m).contains_key(key@) && negative_entries(*m)[key@] == t@,
            None => !negative_entries(*m).contains_key(key@),
        },
{
    m.get(key).map(|e| *e.value())
}

/// `DashMap::insert` on refusals. Trusted: the key now maps to the value,
/// all other entries unchanged.
#[verifier::external_body]
fn negative_insert(m: &mut DashMap<CacheKey, NegativeEntry>, key: CacheKey, value: NegativeEntry)
    ensures
        negative_entries(*final(m)) == negative_entries(*old(m)).insert(key@, value@),
{
    m.insert(key, value);
}

/// `DashMap::remove` on refusals. Trusted: the key's entry is gone, all
/// other entries unchanged.
#[verifier::external_body]
fn negative_remove(m: &mut DashMap<CacheKey, NegativeEntry>, key: &CacheKey)
    ensures
        negative_entries(*final(m)) == negative_entries(*old(m)).remove(key@),
{
    m.remove(key);
}

/// `DashMap::len` on refusals. Trusted: the number of entries.
#[verifier::external_body]
fn negative_len(m: &DashMap<CacheKey, NegativeEntry>) -> (r: usize)
    ensures
        r == negative_entries(*m).len(),
{
    m.len()
}

/// `DashMap::retain` on refusals, keeping the entries of other clients.
/// Trusted: exactly the entries whose client is not `client_id` remain.
#[verifier::external_body]
fn negative_retain_others(m: &mut DashMap<CacheKey, NegativeEntry>, client_id: &str)
    ensures
        negative_entries(*final(m)) == keep_other_clients(negative_entries(*old(m)), client_id@),
{
    m.retain(|k, _| is_other_client(k, client_id));
}

/// `DashMap::clear` on refusals. Trusted: the map is empty.
#[verifier::external_body]
fn negative_clear(m: &mut DashMap<CacheKey, NegativeEntry>)
    ensures
        negative_entries(*final(m)) == RefusalEntries::empty(),
{
    m.clear();
}

/// Whether `key` belongs to a client other than `client_id`.
pub fn is_other_client(key: &CacheKey, client_id: &str) -> (r: bool)
    ensures
        r == (key@.0 != client_id@),
{
    !str_eq(key.client_id.as_str(), client_id)
}

/// The entries of `m` whose client is not `client_id`.
pub open spec fn keep_other_clients<V>(m: Map<KeyView, V>, client_id: Seq<char>) -> Map<KeyView, V> {
    m.restrict(m.dom().filter(|k: KeyView| k.0 != client_id))
}

/// What the cache holds.
pub struct CacheModel {
    /// Issued tokens: key to (token, expiry).
    pub positive: TokenEntries,
    /// Refusals: key to (expiry, reason).
    pub negative: RefusalEntries,
}

/// The answer of a cache lookup.
pub enum LookupView {
    /// A token still being served.
    Fresh(Seq<char>),
    /// A refusal still being remembered.
    Refused(NegativeReason),
    /// Nothing usable is cached: the identity provider must be asked.
    Miss,
}

/// What the identity provider answered, as the cache records it.
pub enum ExchangeOutcomeView {
    /// A token and the lifetime (seconds) the provider gave it, if any.
    Issued(Seq<char>, Option<u64>),
    /// The provider rejected the credentials.
    Rejected,
    /// The provider could not be reached or failed.
    Unreachable,
    /// Any other failure; nothing is recorded.
    Other,
}

/// How long (nanoseconds) an issued token is served: the earlier of the
/// provider's lifetime and the hard cap (the cap alone when the provider
/// gives none), less 60 seconds, and never less than zero.
pub open spec fn spec_cache_ttl(expires_in: Option<u64>, hard_ttl: nat) -> nat {
    let granted: int = match expires_in {
        Some(s) => s * NANOS_PER_SEC,
        None => hard_ttl as int,
    };
    let capped: int = if granted < hard_ttl {
        granted
    } else {
        hard_ttl as int
    };
    if capped > 60 * NANOS_PER_SEC {
        (capped - 60 * NANOS_PER_SEC) as nat
    } else {
        0
    }
}

/// `now + d`, or the largest instant when that does not fit.
pub open spec fn later(now: u64, d: nat) -> u64 {
    if now + d > u64::MAX {
        u64::MAX
    } else {
        (now + d) as u64
    }
}

/// Nanoseconds a rejection is remembered.
pub open spec fn rejection_ttl() -> nat {
    (30 * NANOS_PER_SEC) as nat
}

/// Nanoseconds a transient failure is remembered.
pub open spec fn transient_ttl() -> nat {
    (5 * NANOS_PER_SEC) as nat
}

/// A lookup at `now`: a token whose expiry is later than `now` is served
/// and nothing changes. Otherwise any stale token entry is evicted, and a
/// refusal whose expiry is later than `now` is answered; a stale refusal is
/// evicted and the lookup misses.
pub open spec fn lookup_step(m: CacheModel, k: KeyView, now: u64) -> (CacheModel, LookupView) {
    if m.positive.contains_key(k) && m.positive[k].1 > now {
        (m, LookupView::Fresh(m.positive[k].0))
    } else {
        let positive = m.positive.remove(k);
        if m.negative.contains_key(k) && m.negative[k].0 > now {
            (CacheModel { positive, negative: m.negative }, LookupView::Refused(m.negative[k].1))
        } else {
            (CacheModel { positive, negative: m.negative.remove(k) }, LookupView::Miss)
        }
    }
}

/// Recording the provider's answer at `now`: an issued token is cached for
/// [`spec_cache_ttl`] and any refusal for the key is forgotten; a rejection
/// is remembered for 30 s, a transient failure for 5 s; any other failure
/// leaves the cache as it is.
pub open spec fn record_step(m: CacheModel, k: KeyView, outcome: ExchangeOutcomeView, now: u64, hard_ttl: nat) -> CacheModel {
    match outcome {
        ExchangeOutcomeView::Issued(jwt, expires_in) => CacheModel {
            positive: m.positive.insert(k, (jwt, later(now, spec_cache_ttl(expires_in, hard_ttl)))),
            negative: m.negative.remove(k),
        },
        ExchangeOutcomeView::Rejected => CacheModel {
            positive: m.positive,
            negative: m.negative.insert(k, (later(now, rejection_ttl()), NegativeReason::Rejected)),
        },
        ExchangeOutcomeView::Unreachable => CacheModel {
            positive: m.positive,
            negative: m.negative.insert(k, (later(now, transient_ttl()), NegativeReason::Transient)),
        },
        ExchangeOutcomeView::Other => m,
    }
}

/// Flushing: the entries of one client, or all entries.
pub open spec fn flush_step(m: CacheModel, client_id: Option<Seq<char>>) -> CacheModel {
    match client_id {
        Some(c) => CacheModel {
            positive: keep_other_clients(m.positive, c),
            negative: keep_other_clients(m.negative, c),
        },
        None => CacheModel { positive: Map::empty(), negative: Map::empty() },
    }
}

/// The provider's answer as the cache records it.
pub open spec fn outcome_view(outcome: Result<(String, Option<u64>), AuthError>) -> ExchangeOutcomeView {
    match outcome {
        Ok((jwt, expires_in)) => ExchangeOutcomeView::Issued(jwt@, expires_in),
        Err(AuthError::IdpRejected) => ExchangeOutcomeView::Rejected,
        Err(AuthError::IdpUnreachable(_)) => ExchangeOutcomeView::Unreachable,
        Err(_) => ExchangeOutcomeView::Other,
    }
}

/// The error a remembered refusal is answered with.
pub open spec fn refusal_error(reason: NegativeReason, e: AuthError) -> bool {
    match reason {
        NegativeReason::Rejected => e is IdpRejected,
        NegativeReason::Transient => e matches AuthError::IdpUnreachable(m) && m@
            == "recent transient failure"@,
    }
}

/// The answer of a cache lookup.
#[derive(Debug)]
pub enum CacheLookup {
    /// A cached token that is still fresh.
    Fresh(String),
    /// A remembered refusal, as the error to return.
    Refused(AuthError),
    /// Nothing usable is cached.
    Miss,
}

/// `r` is the answer `expected` describes.
pub open spec fn lookup_answer(r: CacheLookup, expected: LookupView) -> bool {
    match expected {
        LookupView::Fresh(jwt) => r matches CacheLookup::Fresh(s) && s@ == jwt,
        LookupView::Refused(reason) => r matches CacheLookup::Refused(e) && refusal_error(reason, e),
        LookupView::Miss => r is Miss,
    }
}

/// The two maps of the cache.
struct CacheMaps {
    positive: DashMap<CacheKey, CachedToken>,
    negative: DashMap<CacheKey, NegativeEntry>,
}

/// What a pair of maps holds.
closed spec fn maps_model(m: CacheMaps) -> CacheModel {
    CacheModel { positive: positive_entries(m.positive), negative: negative_entries(m.negative) }
}

/// Both maps hold finitely many entries.
closed spec fn maps_finite(m: CacheMaps) -> bool {
    &&& positive_entries(m.positive).dom().finite()
    &&& negative_entries(m.negative).dom().finite()
}

impl CacheMaps {
    fn new() -> (r: CacheMaps)
        ensures
            maps_model(r) == (CacheModel { positive: Map::empty(), negative: Map::empty() }),
            maps_finite(r),
    {
        CacheMaps { positive: positive_new(), negative: negative_new() }
    }

    fn lookup(&mut self, key: &CacheKey, now: u64) -> (r: CacheLookup)
        requires
            maps_finite(*old(self)),
        ensures
            maps_finite(*final(self)),
            maps_model(*final(self)) == lookup_step(maps_model(*old(self)), key@, now).0,
            lookup_answer(r, lookup_step(maps_model(*old(self)), key@, now).1),
    {
        if let Some(cached) = positive_get(&self.positive, key) {
            if cached.expires_at > now {
                return CacheLookup::Fresh(cached.jwt);
            }
        }
        positive_remove(&mut self.positive, key);
        if let Some(neg) = negative_get(&self.negative, key) {
            if neg.until > now {
                return CacheLookup::Refused(
                    match neg.error {
                        NegativeReason::Rejected => AuthError::IdpRejected,
                        NegativeReason::Transient => AuthError::IdpUnreachable(
                            String::from_str("recent transient failure"),
                        ),
                    },
                );
            }
        }
        negative_remove(&mut self.negative, key);
        CacheLookup::Miss
    }

    fn record(
        &mut self,
        key: CacheKey,
        outcome: &Result<(String, Option<u64>), AuthError>,
        now: u64,
        hard_ttl_nanos: u64,
    )
        requires
            maps_finite(*old(self)),
        ensures
            maps_finite(*final(self)),
            maps_model(*final(self)) == record_step(
                maps_model(*old(self)),
                key@,
                outcome_view(*outcome),
                now,
                hard_ttl_nanos as nat,
            ),
    {
        match outcome {
            Ok((jwt, expires_in)) => {
                let ttl = cache_ttl(*expires_in, hard_ttl_nanos);
                let expires_at = now.saturating_add(ttl);
                negative_remove(&mut self.negative, &key);
                positive_insert(
                    &mut self.positive,
                    key,
                    CachedToken { jwt: jwt.clone(), expires_at },
                );
            },
            Err(AuthError::IdpRejected) => {
                let until = now.saturating_add(30 * NANOS_PER_SEC);
                negative_insert(
                    &mut self.negative,
                    key,
                    NegativeEntry { until, error: NegativeReason::Rejected },
                );
            },
            Err(AuthError::IdpUnreachable(_)) => {
                let until = now.saturating_add(5 * NANOS_PER_SEC);
                negative_insert(
                    &mut self.negative,
                    key,
                    NegativeEntry { until, error: NegativeReason::Transient },
                );
            },
            Err(_) => {},
        }
    }

    fn flush(&mut self, client_id: Option<&str>) -> (r: (usize, usize))
        requires
            maps_finite(*old(self)),
        ensures
            maps_finite(*final(self)),
            maps_model(*final(self)) == flush_step(
                maps_model(*old(self)),
                match client_id {
                    Some(c) => Some(c@),
                    None => None,
                },
            ),
            r.0 == maps_model(*old(self)).positive.len() - maps_model(*final(self)).positive.len(),
            r.1 == maps_model(*old(self)).negative.len() - maps_model(*final(self)).negative.len(),
    {
        let pos_before = positive_len(&self.positive);
        let neg_before = negative_len(&self.negative);
        match client_id {
            Some(cid) => {
                positive_retain_others(&mut self.positive, cid);
                negative_retain_others(&mut self.negative, cid);
            },
            None => {
                positive_clear(&mut self.positive);
                negative_clear(&mut self.negative);
            },
        }
        let ghost p0 = maps_model(*old(self)).positive;
        let ghost n0 = maps_model(*old(self)).negative;
        proof {
            vstd::set_lib::lemma_len_subset(positive_entries(self.positive).dom(), p0.dom());
            vstd::set_lib::lemma_len_subset(negative_entries(self.negative).dom(), n0.dom());
        }
        let pos_after = positive_len(&self.positive);
        let neg_after = negative_len(&self.negative);
        (pos_before - pos_after, neg_before - neg_after)
    }
}

/// Cache of Basic-credential exchanges: issued tokens and remembered
/// refusals, each keyed by client identifier and secret digest.
pub struct ExchangeCache {
    /// The maps; absent only while a method works on them.
    maps: Option<CacheMaps>,
    hard_ttl_nanos: u64,
}

impl ExchangeCache {
    /// What the cache holds.
    pub closed spec fn model(&self) -> CacheModel {
        match self.maps {
            Some(m) => maps_model(m),
            None => CacheModel { positive: Map::empty(), negative: Map::empty() },
        }
    }

    /// Hard cap (nanoseconds) on the lifetime of an issued token.
    pub closed spec fn hard_ttl(&self) -> nat {
        self.hard_ttl_nanos as nat
    }

    /// Both maps hold finitely many entries.
    #[verifier::type_invariant]
    closed spec fn wf(&self) -> bool {
        self.maps matches Some(m) ==> maps_finite(m)
    }

    /// Take the maps out to work on them, leaving none behind.
    fn take_maps(&mut self) -> (m: CacheMaps)
        ensures
            maps_model(m) == old(self).model(),
            maps_finite(m),
            final(self).maps is None,
            final(self).hard_ttl() == old(self).hard_ttl(),
    {
        proof {
            use_type_invariant(&*self);
        }
        let mut slot: Option<CacheMaps> = None;
        std::mem::swap(&mut slot, &mut self.maps);
        match slot {
            Some(m) => m,
            None => CacheMaps::new(),
        }
    }

    /// An empty cache whose issued tokens live at most `hard_ttl` (counted
    /// in nanoseconds, at most `u64::MAX` of them).
    pub fn new(hard_ttl: Duration) -> (r: Self)
        ensures
            r.model().positive == TokenEntries::empty(),
            r.model().negative == RefusalEntries::empty(),
            r.hard_ttl() == if duration_nanos(hard_ttl) > u64::MAX {
                u64::MAX as nat
            } else {
                duration_nanos(hard_ttl)
            },
    {
        let nanos = duration_as_nanos(&hard_ttl);
        let hard_ttl_nanos: u64 = if nanos > u64::MAX as u128 {
            u64::MAX
        } else {
            nanos as u64
        };
        ExchangeCache { maps: Some(CacheMaps::new()), hard_ttl_nanos }
    }

    /// Look `key` up at `now` (see [`lookup_step`]): a fresh token is
    /// served, a remembered refusal answered (`IdpRejected`, or
    /// `IdpUnreachable("recent transient failure")`), stale entries evicted.
    /// Only a `Miss` asks for a request to the identity provider; callers
    /// that waited for another caller's request look up again and are
    /// answered from what it recorded.
    pub fn lookup(&mut self, key: &CacheKey, now: u64) -> (r: CacheLookup)
        ensures
            final(self).hard_ttl() == old(self).hard_ttl(),
            final(self).model() == lookup_step(old(self).model(), key@, now).0,
            lookup_answer(r, lookup_step(old(self).model(), key@, now).1),
    {
        let mut m = self.take_maps();
        let r = m.lookup(key, now);
        self.maps = Some(m);
        r
    }

    /// Record the identity provider's answer for `key` at `now` (see
    /// [`record_step`]).
    pub fn record(
        &mut self,
        key: CacheKey,
        outcome: &Result<(String, Option<u64>), AuthError>,
        now: u64,
    )
        ensures
            final(self).hard_ttl() == old(self).hard_ttl(),
            final(self).model() == record_step(
                old(self).model(),
                key@,
                outcome_view(*outcome),
                now,
                old(self).hard_ttl(),
            ),
    {
        let mut m = self.take_maps();
        m.record(key, outcome, now, self.hard_ttl_nanos);
        self.maps = Some(m);
    }

    /// Number of cached tokens (fresh or stale).
    pub fn positive_len(&self) -> (r: usize)
        ensures
            r == self.model().positive.len(),
    {
        match &self.maps {
            Some(m) => positive_len(&m.positive),
            None => 0,
        }
    }

    /// Number of remembered refusals (fresh or stale).
    pub fn negative_len(&self) -> (r: usize)
        ensures
            r == self.model().negative.len(),
    {
        match &self.maps {
            Some(m) => negative_len(&m.negative),
            None => 0,
        }
    }

    /// Flush the entries of `client_id`, or all entries when `None`.
    /// Returns how many token entries and how many refusals were evicted;
    /// the maps it worked on were finite, so [`lemma_flush_client`] gives
    /// these counts per client.
    pub fn flush(&mut self, client_id: Option<&str>) -> (r: (usize, usize))
        ensures
            old(self).model().positive.dom().finite(),
            old(self).model().negative.dom().finite(),
            final(self).hard_ttl() == old(self).hard_ttl(),
            final(self).model() == flush_step(
                old(self).model(),
                match client_id {
                    Some(c) => Some(c@),
                    None => None,
                },
            ),
            r.0 == old(self).model().positive.len() - final(self).model().positive.len(),
            r.1 == old(self).model().negative.len() - final(self).model().negative.len(),
    {
        let mut m = self.take_maps();
        let r = m.flush(client_id);
        self.maps = Some(m);
        r
    }
}

/// How long (nanoseconds) an issued token is served; see [`spec_cache_ttl`].
pub fn cache_ttl(expires_in: Option<u64>, hard_ttl_nanos: u64) -> (r: u64)
    ensures
        r == spec_cache_ttl(expires_in, hard_ttl_nanos as nat),
{
    let granted: u64 = match expires_in {
        Some(s) => if s > hard_ttl_nanos / NANOS_PER_SEC {
            hard_ttl_nanos
        } else {
            s * NANOS_PER_SEC
        },
        None => hard_ttl_nanos,
    };
    proof {
        if let Some(s) = expires_in {
            if s > hard_ttl_nanos / NANOS_PER_SEC {
                assert(s * NANOS_PER_SEC >= hard_ttl_nanos) by (nonlinear_arith)
                    requires
                        s > hard_ttl_nanos / NANOS_PER_SEC,
                ;
            } else {
                assert(s * NANOS_PER_SEC <= hard_ttl_nanos) by (nonlinear_arith)
                    requires
                        s <= hard_ttl_nanos / NANOS_PER_SEC,
                ;
            }
        }
    }
    if granted > 60 * NANOS_PER_SEC {
        granted - 60 * NANOS_PER_SEC
    } else {
        0
    }
}

/// The discovery document URL of `issuer`: trailing slashes removed, then
/// `/.well-known/openid-configuration` appended.
pub fn discovery_url(issuer: &str) -> (r: String)
    ensures
        r@ == spec_trim_end_char(issuer@, '/') + "/.well-known/openid-configuration"@,
{
    String::from_str(trim_end_char(issuer, '/')).concat("/.well-known/openid-configuration")
}

/// The token endpoint announced by the discovery document, which must
/// announce one.
pub fn require_token_endpoint(found: Option<String>) -> (r: Result<String, AuthError>)
    ensures
        match found {
            Some(e) => r matches Ok(s) && s@ == e@,
            None => r matches Err(AuthError::IdpMalformedResponse(m)) && m@
                == "discovery missing token_endpoint"@,
        },
{
    match found {
        Some(e) => Ok(e),
        None => Err(AuthError::IdpMalformedResponse(String::from_str("discovery missing token_endpoint"))),
    }
}

/// Views of form fields.
pub open spec fn form_view(v: Seq<(String, String)>) -> Seq<(Seq<char>, Seq<char>)> {
    v.map_values(|p: (String, String)| (p.0@, p.1@))
}

/// The fields of a `client_credentials` grant request: grant type, client
/// identifier and secret, then the audience and the scope when configured.
pub open spec fn spec_token_form(
    client_id: Seq<char>,
    secret: Seq<char>,
    audience: Option<Seq<char>>,
    scope: Option<Seq<char>>,
) -> Seq<(Seq<char>, Seq<char>)> {
    let base = seq![
        ("grant_type"@, "client_credentials"@),
        ("client_id"@, client_id),
        ("client_secret"@, secret),
    ];
    let with_audience = match audience {
        Some(a) => base.push(("audience"@, a)),
        None => base,
    };
    match scope {
        Some(s) => with_audience.push(("scope"@, s)),
        None => with_audience,
    }
}

fn pair(k: &str, v: &str) -> (r: (String, String))
    ensures
        r.0@ == k@,
        r.1@ == v@,
{
    (k.to_owned(), v.to_owned())
}

/// The form body of the token request for a client.
pub fn token_request_form(client_id: &str, secret: &str, audience: Option<&str>, scope: Option<&str>) -> (r: Vec<(String, String)>)
    ensures
        form_view(r@) == spec_token_form(
            client_id@,
            secret@,
            match audience {
                Some(a) => Some(a@),
                None => None,
            },
            match scope {
                Some(s) => Some(s@),
                None => None,
            },
        ),
        form_view(r@).len() >= 3,
        form_view(r@)[0] == ("grant_type"@, "client_credentials"@),
        form_view(r@)[1] == ("client_id"@, client_id@),
        form_view(r@)[2] == ("client_secret"@, secret@),
        forall|x: Seq<char>|
            #![trigger form_view(r@).contains(("audience"@, x))]
            form_view(r@).contains(("audience"@, x)) <==> (audience matches Some(a) && a@ == x),
        forall|x: Seq<char>|
            #![trigger form_view(r@).contains(("scope"@, x))]
            form_view(r@).contains(("scope"@, x)) <==> (scope matches Some(s) && s@ == x),
{
    proof {
        lemma_token_form_fields(
            client_id@,
            secret@,
            match audience {
                Some(a) => Some(a@),
                None => None,
            },
            match scope {
                Some(s) => Some(s@),
                None => None,
            },
        );
    }
    let mut form: Vec<(String, String)> = Vec::new();
    form.push(pair("grant_type", "client_credentials"));
    form.push(pair("client_id", client_id));
    form.push(pair("client_secret", secret));
    let ghost base = form@;
    proof {
        assert(form_view(base) =~= seq![
            ("grant_type"@, "client_credentials"@),
            ("client_id"@, client_id@),
            ("client_secret"@, secret@),
        ]);
    }
    if let Some(a) = audience {
        form.push(pair("audience", a));
    }
    let ghost with_audience = form@;
    proof {
        if let Some(a) = audience {
            assert(form_view(with_audience) =~= form_view(base).push(("audience"@, a@)));
        }
    }
    if let Some(sc) = scope {
        form.push(pair("scope", sc));
    }
    proof {
        if let Some(sc) = scope {
            assert(form_view(form@) =~= form_view(with_audience).push(("scope"@, sc@)));
        }
    }
    form
}

/// How the token endpoint's status is read.
pub enum TokenStatus {
    /// 400, 401 or 403: the credentials are rejected.
    Rejected,
    /// Any other status outside 200..=299: the provider failed.
    Failed,
    /// 200..=299.
    Success,
}

/// The reading of a token endpoint status.
pub open spec fn token_status(status: u16) -> TokenStatus {
    if status == 400 || status == 401 || status == 403 {
        TokenStatus::Rejected
    } else if !(200 <= status <= 299) {
        TokenStatus::Failed
    } else {
        TokenStatus::Success
    }
}

/// Classify the token endpoint's status (see [`token_status`]); a provider
/// failure's detail is `token endpoint status <status_text>`.
pub fn classify_token_status(status: u16, status_text: &str) -> (r: Result<(), AuthError>)
    ensures
        match token_status(status) {
            TokenStatus::Rejected => r matches Err(AuthError::IdpRejected),
            TokenStatus::Failed => r matches Err(AuthError::IdpUnreachable(m)) && m@
                == "token endpoint status "@ + status_text@,
            TokenStatus::Success => r is Ok,
        },
{
    if status == 401 || status == 403 || status == 400 {
        return Err(AuthError::IdpRejected);
    }
    if status < 200 || status > 299 {
        return Err(
            AuthError::IdpUnreachable(String::from_str("token endpoint status ").concat(status_text)),
        );
    }
    Ok(())
}

/// A token recorded at `t0` is served by every lookup until its expiry.
pub proof fn lemma_issued_token_served(
    m: CacheModel,
    k: KeyView,
    jwt: Seq<char>,
    expires_in: Option<u64>,
    hard_ttl: nat,
    t0: u64,
    t: u64,
)
    requires
        t0 <= t,
        t < t0 + spec_cache_ttl(expires_in, hard_ttl),
        t0 + spec_cache_ttl(expires_in, hard_ttl) <= u64::MAX,
    ensures
        ({
            let m1 = record_step(m, k, ExchangeOutcomeView::Issued(jwt, expires_in), t0, hard_ttl);
            lookup_step(m1, k, t) == (m1, LookupView::Fresh(jwt))
        }),
{
}

/// A rejection answered for a lookup that missed is remembered: every
/// lookup in the following 30 seconds answers it without consulting the
/// identity provider.
pub proof fn lemma_rejection_remembered(m: CacheModel, k: KeyView, t0: u64, t1: u64, t: u64, hard_ttl: nat)
    requires
        lookup_step(m, k, t0).1 is Miss,
        t1 <= t,
        t < t1 + rejection_ttl(),
        t1 + rejection_ttl() <= u64::MAX,
    ensures
        ({
            let m2 = record_step(lookup_step(m, k, t0).0, k, ExchangeOutcomeView::Rejected, t1, hard_ttl);
            lookup_step(m2, k, t) == (m2, LookupView::Refused(NegativeReason::Rejected))
        }),
{
    let m1 = lookup_step(m, k, t0).0;
    let m2 = record_step(m1, k, ExchangeOutcomeView::Rejected, t1, hard_ttl);
    assert(m2.positive.remove(k) =~= m2.positive);
}

/// A transient failure answered for a lookup that missed is remembered for
/// 5 seconds.
pub proof fn lemma_transient_failure_remembered(m: CacheModel, k: KeyView, t0: u64, t1: u64, t: u64, hard_ttl: nat)
    requires
        lookup_step(m, k, t0).1 is Miss,
        t1 <= t,
        t < t1 + transient_ttl(),
        t1 + transient_ttl() <= u64::MAX,
    ensures
        ({
            let m2 = record_step(lookup_step(m, k, t0).0, k, ExchangeOutcomeView::Unreachable, t1, hard_ttl);
            lookup_step(m2, k, t) == (m2, LookupView::Refused(NegativeReason::Transient))
        }),
{
    let m1 = lookup_step(m, k, t0).0;
    let m2 = record_step(m1, k, ExchangeOutcomeView::Unreachable, t1, hard_ttl);
    assert(m2.positive.remove(k) =~= m2.positive);
}

/// Entries that have gone stale are evicted by the lookup that finds them,
/// which then misses; each map shrinks by the entry it lost.
pub proof fn lemma_stale_entries_evicted_on_read(m: CacheModel, k: KeyView, now: u64)
    requires
        m.positive.dom().finite(),
        m.negative.dom().finite(),
        !(m.positive.contains_key(k) && m.positive[k].1 > now),
        !(m.negative.contains_key(k) && m.negative[k].0 > now),
    ensures
        lookup_step(m, k, now).1 is Miss,
        !lookup_step(m, k, now).0.positive.contains_key(k),
        !lookup_step(m, k, now).0.negative.contains_key(k),
        m.positive.contains_key(k) ==> lookup_step(m, k, now).0.positive.len() + 1 == m.positive.len(),
        m.negative.contains_key(k) ==> lookup_step(m, k, now).0.negative.len() + 1 == m.negative.len(),
{
}

/// Looking the same key up twice at the same instant gives the same answer
/// and leaves the cache as the first lookup left it.
pub proof fn lemma_lookup_idempotent(m: CacheModel, k: KeyView, now: u64)
    ensures
        lookup_step(lookup_step(m, k, now).0, k, now) == lookup_step(m, k, now),
{
    let (m1, a1) = lookup_step(m, k, now);
    if !(m.positive.contains_key(k) && m.positive[k].1 > now) {
        assert(m1.positive.remove(k) =~= m1.positive);
        if !(m.negative.contains_key(k) && m.negative[k].0 > now) {
            assert(m1.negative.remove(k) =~= m1.negative);
        }
    }
}

/// An issued token replaces the key's previous entries: its refusal is
/// forgotten and its token entry is overwritten, never duplicated.
pub proof fn lemma_issue_replaces(
    m: CacheModel,
    k: KeyView,
    jwt: Seq<char>,
    expires_in: Option<u64>,
    now: u64,
    hard_ttl: nat,
)
    requires
        m.positive.dom().finite(),
    ensures
        ({
            let m1 = record_step(m, k, ExchangeOutcomeView::Issued(jwt, expires_in), now, hard_ttl);
            &&& !m1.negative.contains_key(k)
            &&& m1.positive[k].0 == jwt
            &&& m1.positive.len() == if m.positive.contains_key(k) {
                m.positive.len()
            } else {
                m.positive.len() + 1
            }
        }),
{
}

/// Lookups and records about one key leave every other key's entries as
/// they were.
pub proof fn lemma_other_keys_untouched(
    m: CacheModel,
    k: KeyView,
    other: KeyView,
    outcome: ExchangeOutcomeView,
    now: u64,
    hard_ttl: nat,
)
    requires
        other != k,
    ensures
        lookup_step(m, k, now).0.positive.contains_key(other) == m.positive.contains_key(other),
        lookup_step(m, k, now).0.negative.contains_key(other) == m.negative.contains_key(other),
        lookup_step(m, k, now).0.positive[other] == m.positive[other],
        lookup_step(m, k, now).0.negative[other] == m.negative[other],
        record_step(m, k, outcome, now, hard_ttl).positive.contains_key(other) == m.positive.contains_key(other),
        record_step(m, k, outcome, now, hard_ttl).negative.contains_key(other) == m.negative.contains_key(other),
        record_step(m, k, outcome, now, hard_ttl).positive[other] == m.positive[other],
        record_step(m, k, outcome, now, hard_ttl).negative[other] == m.negative[other],
{
}

/// Flushing one client evicts exactly that client's entries, keeps every
/// other entry as it was, and evicts as many token entries as that client
/// had; flushing all empties both maps.
pub proof fn lemma_flush_client(m: CacheModel, c: Seq<char>)
    requires
        m.positive.dom().finite(),
        m.negative.dom().finite(),
    ensures
        forall|k: KeyView| #[trigger] flush_step(m, Some(c)).positive.contains_key(k) <==> (
        m.positive.contains_key(k) && k.0 != c),
        forall|k: KeyView| #[trigger] flush_step(m, Some(c)).negative.contains_key(k) <==> (
        m.negative.contains_key(k) && k.0 != c),
        forall|k: KeyView| #[trigger]
            flush_step(m, Some(c)).positive.contains_key(k) ==> flush_step(m, Some(c)).positive[k]
                == m.positive[k],
        forall|k: KeyView| #[trigger]
            flush_step(m, Some(c)).negative.contains_key(k) ==> flush_step(m, Some(c)).negative[k]
                == m.negative[k],
        m.positive.len() - flush_step(m, Some(c)).positive.len() == m.positive.dom().filter(
            |k: KeyView| k.0 == c,
        ).len(),
        m.negative.len() - flush_step(m, Some(c)).negative.len() == m.negative.dom().filter(
            |k: KeyView| k.0 == c,
        ).len(),
        flush_step(m, None).positive.len() == 0,
        flush_step(m, None).negative.len() == 0,
{
    lemma_filter_split(m.positive.dom(), c);
    lemma_filter_split(m.negative.dom(), c);
    assert(flush_step(m, Some(c)).positive.dom() =~= m.positive.dom().filter(|k: KeyView| k.0 != c));
    assert(flush_step(m, Some(c)).negative.dom() =~= m.negative.dom().filter(|k: KeyView| k.0 != c));
    assert(flush_step(m, None).positive.dom() =~= Set::<KeyView>::empty());
    assert(flush_step(m, None).negative.dom() =~= Set::<KeyView>::empty());
}

proof fn lemma_filter_split(s: Set<KeyView>, c: Seq<char>)
    requires
        s.finite(),
    ensures
        s.len() == s.filter(|k: KeyView| k.0 == c).len() + s.filter(|k: KeyView| k.0 != c).len(),
{
    let a = s.filter(|k: KeyView| k.0 == c);
    let b = s.filter(|k: KeyView| k.0 != c);
    vstd::set_lib::lemma_set_disjoint_lens(a, b);
    assert(a + b =~= s);
}

/// An issued token is never served past the hard cap less 60 seconds, nor
/// past the provider's lifetime less 60 seconds.
pub proof fn lemma_cache_ttl_bounds(expires_in: Option<u64>, hard_ttl: nat)
    ensures
        spec_cache_ttl(expires_in, hard_ttl) + 60 * NANOS_PER_SEC <= hard_ttl
            || spec_cache_ttl(expires_in, hard_ttl) == 0,
        expires_in matches Some(s) ==> (spec_cache_ttl(expires_in, hard_ttl) + 60 * NANOS_PER_SEC
            <= s * NANOS_PER_SEC || spec_cache_ttl(expires_in, hard_ttl) == 0),
{
}

/// Lookups of `k` at the instants `ts`, one after another, starting from
/// `m`: the cache they leave and their answers in order.
pub open spec fn lookup_all(m: CacheModel, k: KeyView, ts: Seq<u64>) -> (CacheModel, Seq<LookupView>)
    decreases ts.len(),
{
    if ts.len() == 0 {
        (m, seq![])
    } else {
        let (m1, a) = lookup_step(m, k, ts[0]);
        let (m2, rest) = lookup_all(m1, k, ts.drop_first());
        (m2, seq![a] + rest)
    }
}

proof fn lemma_stable_lookups(m: CacheModel, k: KeyView, ts: Seq<u64>, a: LookupView)
    requires
        forall|i: int| 0 <= i < ts.len() ==> lookup_step(m, k, #[trigger] ts[i]) == (m, a),
    ensures
        lookup_all(m, k, ts) == (m, Seq::new(ts.len(), |i: int| a)),
    decreases ts.len(),
{
    if ts.len() > 0 {
        let rest = ts.drop_first();
        assert(lookup_step(m, k, ts[0]) == (m, a));
        assert forall|i: int| 0 <= i < rest.len() implies lookup_step(m, k, #[trigger] rest[i]) == (
        m,
        a,
        ) by {
            assert(rest[i] == ts[i + 1]);
        }
        lemma_stable_lookups(m, k, rest, a);
        assert(seq![a] + Seq::new(rest.len(), |i: int| a) =~= Seq::new(ts.len(), |i: int| a));
    }
}

/// Callers that queued behind a request which was rejected share its
/// answer: every lookup they make within the following 30 seconds, in any
/// number, answers the rejection and changes nothing, so none of them
/// sends another request.
pub proof fn lemma_queued_callers_share_rejection(
    m: CacheModel,
    k: KeyView,
    t0: u64,
    t1: u64,
    ts: Seq<u64>,
    hard_ttl: nat,
)
    requires
        lookup_step(m, k, t0).1 is Miss,
        t1 + rejection_ttl() <= u64::MAX,
        forall|i: int| 0 <= i < ts.len() ==> t1 <= #[trigger] ts[i] < t1 + rejection_ttl(),
    ensures
        ({
            let m2 = record_step(lookup_step(m, k, t0).0, k, ExchangeOutcomeView::Rejected, t1, hard_ttl);
            lookup_all(m2, k, ts) == (m2, Seq::new(
                ts.len(),
                |i: int| LookupView::Refused(NegativeReason::Rejected),
            ))
        }),
{
    let m2 = record_step(lookup_step(m, k, t0).0, k, ExchangeOutcomeView::Rejected, t1, hard_ttl);
    assert forall|i: int| 0 <= i < ts.len() implies lookup_step(m2, k, #[trigger] ts[i]) == (
    m2,
    LookupView::Refused(NegativeReason::Rejected),
    ) by {
        lemma_rejection_remembered(m, k, t0, t1, ts[i], hard_ttl);
    }
    lemma_stable_lookups(m2, k, ts, LookupView::Refused(NegativeReason::Rejected));
}

/// Callers that queued behind a request which failed transiently share its
/// answer for 5 seconds, without sending another request.
pub proof fn lemma_queued_callers_share_transient_failure(
    m: CacheModel,
    k: KeyView,
    t0: u64,
    t1: u64,
    ts: Seq<u64>,
    hard_ttl: nat,
)
    requires
        lookup_step(m, k, t0).1 is Miss,
        t1 + transient_ttl() <= u64::MAX,
        forall|i: int| 0 <= i < ts.len() ==> t1 <= #[trigger] ts[i] < t1 + transient_ttl(),
    ensures
        ({
            let m2 = record_step(lookup_step(m, k, t0).0, k, ExchangeOutcomeView::Unreachable, t1, hard_ttl);
            lookup_all(m2, k, ts) == (m2, Seq::new(
                ts.len(),
                |i: int| LookupView::Refused(NegativeReason::Transient),
            ))
        }),
{
    let m2 = record_step(lookup_step(m, k, t0).0, k, ExchangeOutcomeView::Unreachable, t1, hard_ttl);
    assert forall|i: int| 0 <= i < ts.len() implies lookup_step(m2, k, #[trigger] ts[i]) == (
    m2,
    LookupView::Refused(NegativeReason::Transient),
    ) by {
        lemma_transient_failure_remembered(m, k, t0, t1, ts[i], hard_ttl);
    }
    lemma_stable_lookups(m2, k, ts, LookupView::Refused(NegativeReason::Transient));
}

/// Callers that queued behind a request which issued a token are all
/// served that token while it is fresh, without sending another request.
pub proof fn lemma_queued_callers_share_token(
    m: CacheModel,
    k: KeyView,
    jwt: Seq<char>,
    expires_in: Option<u64>,
    hard_ttl: nat,
    t1: u64,
    ts: Seq<u64>,
)
    requires
        t1 + spec_cache_ttl(expires_in, hard_ttl) <= u64::MAX,
        forall|i: int|
            0 <= i < ts.len() ==> t1 <= #[trigger] ts[i] < t1 + spec_cache_ttl(expires_in, hard_ttl),
    ensures
        ({
            let m2 = record_step(m, k, ExchangeOutcomeView::Issued(jwt, expires_in), t1, hard_ttl);
            lookup_all(m2, k, ts) == (m2, Seq::new(ts.len(), |i: int| LookupView::Fresh(jwt)))
        }),
{
    let m2 = record_step(m, k, ExchangeOutcomeView::Issued(jwt, expires_in), t1, hard_ttl);
    assert forall|i: int| 0 <= i < ts.len() implies lookup_step(m2, k, #[trigger] ts[i]) == (
    m2,
    LookupView::Fresh(jwt),
    ) by {
        lemma_issued_token_served(m, k, jwt, expires_in, hard_ttl, t1, ts[i]);
    }
    lemma_stable_lookups(m2, k, ts, LookupView::Fresh(jwt));
}

/// Flushing the same client, or everything, a second time right away
/// evicts nothing more.
pub proof fn lemma_flush_twice(m: CacheModel, c: Option<Seq<char>>)
    ensures
        flush_step(flush_step(m, c), c) == flush_step(m, c),
{
    let m1 = flush_step(m, c);
    if let Some(cid) = c {
        assert(keep_other_clients(m1.positive, cid) =~= m1.positive);
        assert(keep_other_clients(m1.negative, cid) =~= m1.negative);
    }
}

/// The token request always carries the grant type, the client identifier
/// and the secret first; it carries the audience exactly when one is
/// configured, and the scope exactly when one is configured, each
/// independently of the other.
pub proof fn lemma_token_form_fields(
    client_id: Seq<char>,
    secret: Seq<char>,
    audience: Option<Seq<char>>,
    scope: Option<Seq<char>>,
)
    ensures
        ({
            let f = spec_token_form(client_id, secret, audience, scope);
            &&& f.len() == 3 + (if audience is Some { 1int } else { 0 }) + (if scope is Some {
                1int
            } else {
                0
            })
            &&& f[0] == ("grant_type"@, "client_credentials"@)
            &&& f[1] == ("client_id"@, client_id)
            &&& f[2] == ("client_secret"@, secret)
            &&& forall|x: Seq<char>|
                #![trigger f.contains(("audience"@, x))]
                f.contains(("audience"@, x)) <==> audience == Some(x)
            &&& forall|x: Seq<char>|
                #![trigger f.contains(("scope"@, x))]
                f.contains(("scope"@, x)) <==> scope == Some(x)
        }),
{
    reveal_strlit("grant_type");
    reveal_strlit("client_id");
    reveal_strlit("client_secret");
    reveal_strlit("audience");
    reveal_strlit("scope");
    assert("grant_type"@[0] == 'g');
    assert("client_id"@[0] == 'c');
    assert("client_secret"@[0] == 'c');
    assert("audience"@[0] == 'a');
    assert("scope"@[0] == 's');
    let f = spec_token_form(client_id, secret, audience, scope);
    let base = seq![
        ("grant_type"@, "client_credentials"@),
        ("client_id"@, client_id),
        ("client_secret"@, secret),
    ];
    let wa = match audience {
        Some(a) => base.push(("audience"@, a)),
        None => base,
    };
    assert forall|x: Seq<char>| #[trigger] f.contains(("audience"@, x)) <==> audience == Some(x) by {
        if f.contains(("audience"@, x)) {
            let j = choose|j: int| 0 <= j < f.len() && f[j] == ("audience"@, x);
            assert(f[j].0[0] == 'a');
            if audience is Some {
                assert(j == 3);
            } else {
                assert(j >= 3);
                assert(f[j].0 == "scope"@);
            }
        }
        if audience == Some(x) {
            assert(f[3] == ("audience"@, x));
        }
    }
    assert forall|x: Seq<char>| #[trigger] f.contains(("scope"@, x)) <==> scope == Some(x) by {
        if f.contains(("scope"@, x)) {
            let j = choose|j: int| 0 <= j < f.len() && f[j] == ("scope"@, x);
            assert(f[j].0[0] == 's');
            assert(j == wa.len());
        }
        if scope == Some(x) {
            assert(f[wa.len() as int] == ("scope"@, x));
        }
    }
}

/// A token endpoint status is a rejection exactly for 400, 401 and 403, a
/// success exactly for 200 to 299, and a provider failure otherwise.
pub proof fn lemma_token_status_classes(status: u16)
    ensures
        (token_status(status) is Rejected) <==> (status == 400 || status == 401 || status == 403),
        (token_status(status) is Success) <==> (200 <= status <= 299),
        (token_status(status) is Failed) <==> !(status == 400 || status == 401 || status == 403)
            && !(200 <= status <= 299),
{
}

/// An issued token is served for its lifetime less 60 seconds when the
/// provider gives one within the cap, for the cap less 60 seconds when the
/// provider gives none or a longer one; a lifetime of 60 seconds or less
/// is not served at all.
pub proof fn lemma_cache_ttl_exact(expires_in: Option<u64>, hard_ttl: nat)
    ensures
        expires_in matches Some(s) ==> (s * NANOS_PER_SEC <= hard_ttl ==> spec_cache_ttl(
            expires_in,
            hard_ttl,
        ) == (if s * NANOS_PER_SEC > 60 * NANOS_PER_SEC {
            s * NANOS_PER_SEC - 60 * NANOS_PER_SEC
        } else {
            0
        })),
        expires_in matches Some(s) ==> (s * NANOS_PER_SEC > hard_ttl ==> spec_cache_ttl(
            expires_in,
            hard_ttl,
        ) == (if hard_ttl > 60 * NANOS_PER_SEC {
            hard_ttl - 60 * NANOS_PER_SEC
        } else {
            0
        })),
        expires_in is None ==> spec_cache_ttl(expires_in, hard_ttl) == (if hard_ttl > 60
            * NANOS_PER_SEC {
            hard_ttl - 60 * NANOS_PER_SEC
        } else {
            0
        }),
{
}

/// Refusals are remembered for 30 seconds after a rejection and for 5
/// seconds after a transient failure, and 60 seconds are kept off every
/// token's lifetime (times in nanoseconds).
pub proof fn lemma_cache_windows()
    ensures
        rejection_ttl() == 30_000_000_000,
        transient_ttl() == 5_000_000_000,
        spec_cache_ttl(Some(3600), 7200_000_000_000) == 3540_000_000_000,
        NANOS_PER_SEC == 1_000_000_000,
{
}

} // verus!
