//! The directory cache: folder path to its listing, bounded in size and in age.
use moka::sync::Cache as MokaCache;
use vstd::prelude::*;

use crate::model::AliyunFile;
use crate::paths::parent_path;
use crate::text::{chars_of, string_from_chars};

verus! {

#[verifier::external_type_specification]
#[verifier::external_body]
#[verifier::reject_recursive_types(K)]
#[verifier::reject_recursive_types(V)]
#[verifier::reject_recursive_types(S)]
pub struct ExMokaCache<K, V, S>(MokaCache<K, V, S>);

/// Relies on `Clone for moka::sync::Cache`: the clone shares the same store.
pub assume_specification<K, V, S>[ <MokaCache<K, V, S> as std::clone::Clone>::clone ](
    c: &MokaCache<K, V, S>,
) -> MokaCache<K, V, S>;

/// The longest time to live a cache accepts: 1000 years of 365 days.
pub const MAX_TTL_SECS: u64 = 31536000000;

/// Listings by folder path. Entries age out and are evicted on their own, and clones share
/// one store, so a look-up promises nothing about what an earlier insert left.
#[derive(Clone)]
pub struct Cache {
    inner: MokaCache<String, Vec<AliyunFile>>,
}

impl Cache {
    /// Relies on `moka::sync::CacheBuilder` (`new`, `time_to_live`, `build`); `build` panics
    /// on a time to live over 1000 years, so that is left out.
    #[verifier::external_body]
    pub fn new(max_capacity: u64, ttl_secs: u64) -> Self
        requires
            ttl_secs <= MAX_TTL_SECS,
    {
        let inner = moka::sync::CacheBuilder::new(max_capacity)
            .time_to_live(std::time::Duration::from_secs(ttl_secs))
            .build();
        Cache { inner }
    }

    /// Relies on `moka::sync::Cache::get`.
    #[verifier::external_body]
    pub fn get(&self, key: &String) -> Option<Vec<AliyunFile>> {
        self.inner.get(key)
    }

    /// Relies on `moka::sync::Cache::insert`.
    #[verifier::external_body]
    pub fn insert(&self, key: String, value: Vec<AliyunFile>) {
        self.inner.insert(key, value)
    }

    /// Relies on `moka::sync::Cache::invalidate`.
    #[verifier::external_body]
    pub fn invalidate(&self, key: &String) {
        self.inner.invalidate(key)
    }

    /// Drops the listing of the folder that holds `path`, if it has one.
    pub fn invalidate_parent(&self, path: &str) {
        let p = chars_of(path);
        match parent_path(&p) {
            Some(parent) => {
                let key = string_from_chars(&parent);
                self.invalidate(&key);
            },
            None => {},
        }
    }

    /// Relies on `moka::sync::Cache::invalidate_all`.
    #[verifier::external_body]
    pub fn invalidate_all(&self) {
        self.inner.invalidate_all()
    }
}

} // verus!
