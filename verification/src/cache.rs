//! The hot tier: a cache that holds the newest part of the log, the versions from its
//! tail up to, but without, its head.

use vstd::prelude::*;
use std::hash::Hash;

verus! {

/// A cache of key-value pairs whose keys are ordered.
pub trait Cache<K, V>: Send + Sync where
    K: Eq + Hash + Clone + Send + Sync,
    V: Clone + Send + Sync,
 {
    /// The value held for a key, `None` where the cache does not hold the key.
    fn get(&self, key: &K) -> Option<V>;

    /// Puts a key-value pair into the cache.
    fn insert(&mut self, key: K, value: V);

    /// The first key in the cache, `None` where the cache is empty.
    fn first_key(&self) -> Option<K>;

    /// The last key in the cache, `None` where the cache is empty.
    fn last_key(&self) -> Option<K>;
}

/// What the cache can do for a version.
#[derive(Clone, Copy, Debug, PartialEq, Eq)]
pub enum CacheCoverageStatus {
    /// The log has not reached the version yet.
    DataNotReady,
    /// The cache holds the version and this many transactions from it on.
    CacheHit(u64),
    /// The version has left the cache: the file store has it.
    CacheEvicted,
}

/// The versions that the cache holds: `tail`, `tail + 1`, ... up to `head - 1`.
#[derive(Clone, Copy, Debug, PartialEq, Eq)]
pub struct CacheWindow {
    pub tail: u64,
    pub head: u64,
}

impl CacheWindow {
    /// What the window says of `start_version`.
    pub open spec fn spec_coverage(self, start_version: u64) -> CacheCoverageStatus {
        if start_version >= self.head {
            CacheCoverageStatus::DataNotReady
        } else if start_version < self.tail {
            CacheCoverageStatus::CacheEvicted
        } else {
            CacheCoverageStatus::CacheHit((self.head - start_version) as u64)
        }
    }

    /// Tells whether the cache can serve `start_version`: not yet, where it is at or
    /// beyond the head; no more, where it is before the tail; and else with how many
    /// transactions.
    pub fn coverage(&self, start_version: u64) -> (status: CacheCoverageStatus)
        ensures
            status == self.spec_coverage(start_version),
    {
        if start_version >= self.head {
            CacheCoverageStatus::DataNotReady
        } else if start_version < self.tail {
            CacheCoverageStatus::CacheEvicted
        } else {
            CacheCoverageStatus::CacheHit(self.head - start_version)
        }
    }
}

} // verus!
