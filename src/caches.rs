//! The two expiring caches of the server, held in moka caches that only this module can reach.
//!
//! Each cache is known by what was last inserted under each key. A lookup never invents a
//! value: what it returns is the value last inserted under that key. Whether an entry is still
//! there depends on the clock and on eviction, so a lookup may also come back empty.

use vstd::prelude::*;
use std::time::Duration;
use moka::sync::Cache;
use crate::pipeline::CachedFailure;

verus! {

/// Longest time-to-live or time-to-idle, in seconds, that moka accepts (1000 years).
pub const MAX_EXPIRY_SECS: u64 = 31536000000;

/// Values by cache key.
pub type ArtifactLog = Map<Seq<char>, Seq<char>>;

/// Status and message by cache key.
pub type FailureLog = Map<Seq<char>, (u16, Seq<char>)>;

/// Rendered charts by cache key.
#[verifier::external_body]
pub struct ArtifactCache {
    inner: Cache<String, String>,
}

/// Recorded failures by cache key.
#[verifier::external_body]
pub struct FailureCache {
    inner: Cache<String, CachedFailure>,
}

/// The value last inserted under each key of an artifact cache.
pub uninterp spec fn artifacts_inserted(c: ArtifactCache) -> Map<Seq<char>, Seq<char>>;

/// The status and message last inserted under each key of a failure cache.
pub uninterp spec fn failures_inserted(c: FailureCache) -> Map<Seq<char>, (u16, Seq<char>)>;

impl ArtifactCache {
    /// Relies on moka's `CacheBuilder` (`time_to_live`, `time_to_idle`, `max_capacity`,
    /// `build`): a new, empty cache; `build` panics on an expiry above 1000 years.
    #[verifier::external_body]
    pub fn new(ttl_secs: u64, tti_secs: u64, capacity: u64) -> (r: Self)
        requires
            ttl_secs <= MAX_EXPIRY_SECS,
            tti_secs <= MAX_EXPIRY_SECS,
        ensures
            artifacts_inserted(r) == ArtifactLog::empty(),
    {
        let inner = Cache::builder()
            .time_to_live(Duration::from_secs(ttl_secs))
            .time_to_idle(Duration::from_secs(tti_secs))
            .max_capacity(capacity)
            .build();
        ArtifactCache { inner }
    }

    /// Relies on `moka::sync::Cache::get`: a clone of the value of the live entry under `key`,
    /// which is the value last inserted under it; none once the entry expired or was evicted.
    #[verifier::external_body]
    pub fn get(&self, key: &String) -> (r: Option<String>)
        ensures
            r is Some ==> artifacts_inserted(*self).contains_key(key@) && artifacts_inserted(*self)[key@]
                == r->Some_0@,
    {
        self.inner.get(key)
    }

    /// Relies on `moka::sync::Cache::insert`: stores `value` under `key`, replacing any entry.
    #[verifier::external_body]
    pub fn insert(&mut self, key: String, value: String)
        ensures
            artifacts_inserted(*final(self)) == artifacts_inserted(*old(self)).insert(key@, value@),
    {
        self.inner.insert(key, value)
    }
}

impl FailureCache {
    /// Relies on moka's `CacheBuilder` (`time_to_live`, `time_to_idle`, `max_capacity`,
    /// `build`): a new, empty cache; `build` panics on an expiry above 1000 years.
    #[verifier::external_body]
    pub fn new(ttl_secs: u64, tti_secs: u64, capacity: u64) -> (r: Self)
        requires
            ttl_secs <= MAX_EXPIRY_SECS,
            tti_secs <= MAX_EXPIRY_SECS,
        ensures
            failures_inserted(r) == FailureLog::empty(),
    {
        let inner = Cache::builder()
            .time_to_live(Duration::from_secs(ttl_secs))
            .time_to_idle(Duration::from_secs(tti_secs))
            .max_capacity(capacity)
            .build();
        FailureCache { inner }
    }

    /// Relies on `moka::sync::Cache::get`: a clone of the value of the live entry under `key`,
    /// which is the value last inserted under it; none once the entry expired or was evicted.
    #[verifier::external_body]
    pub fn get(&self, key: &String) -> (r: Option<CachedFailure>)
        ensures
            r is Some ==> failures_inserted(*self).contains_key(key@) && failures_inserted(*self)[key@] == (
            r->Some_0.status,
            r->Some_0.message@,
            ),
    {
        self.inner.get(key)
    }

    /// Relies on `moka::sync::Cache::insert`: stores `value` under `key`, replacing any entry.
    #[verifier::external_body]
    pub fn insert(&mut self, key: String, value: CachedFailure)
        ensures
            failures_inserted(*final(self)) == failures_inserted(*old(self)).insert(
                key@,
                (value.status, value.message@),
            ),
    {
        self.inner.insert(key, value)
    }
}

} // verus!
