use vstd::prelude::*;
use vstd::rwlock::RwLock;

use crate::cache::{Cache, CAPACITY};
use crate::clock::now_millis;
use crate::value::Storable;

verus! {

/// A cache shared by any number of threads, behind a reader-writer lock:
/// lookups share it, so they do not wait for each other; changes take it
/// alone. Other threads may change the cache between two calls, so the
/// methods promise nothing of its content from one call to the next; what
/// is proved is that the lock only ever holds a well-formed `Cache` and that
/// no call panics.
pub struct SharedCache {
    data: RwLock<Cache, spec_fn(Cache) -> bool>,
}

impl SharedCache {
    /// The lock only ever holds a well-formed cache.
    #[verifier::type_invariant]
    spec fn holds_wf_cache(&self) -> bool {
        forall|s: Cache| #[trigger] self.data.inv(s) <==> s.wf()
    }

    /// An empty cache.
    pub fn new() -> (r: SharedCache) {
        let data = RwLock::new(Cache::new(), Ghost(|s: Cache| s.wf()));
        SharedCache { data }
    }

    /// The value under `key` at time `now` (milliseconds since the Unix
    /// epoch), if it was stored from `T` and has not expired: the result of
    /// `Cache::get_at` on the cache as the lock hands it over.
    pub fn get_at<T: Storable>(&self, key: &str, now: u64) -> (r: Option<T>) {
        proof {
            use_type_invariant(self);
        }
        let handle = self.data.acquire_read();
        let r = handle.borrow().get_at(key, now);
        handle.release_read();
        r
    }

    /// The value under `key` now, if it was stored from `T` and has not
    /// expired.
    pub fn get<T: Storable>(&self, key: &str) -> (r: Option<T>) {
        let now = now_millis();
        self.get_at(key, now)
    }

    /// Stores `value` under `key` at time `now` to live `ttl` seconds (zero:
    /// for ever), as `Cache::set_at` does, under the lock.
    pub fn set_at<T: Storable>(&self, key: String, value: T, ttl: u64, now: u64) {
        proof {
            use_type_invariant(self);
        }
        let (mut cache, handle) = self.data.acquire_write();
        cache.set_at(key, value, ttl, now);
        handle.release_write(cache);
    }

    /// Stores `value` under `key` now, to live `expire_seconds` seconds
    /// (zero: for ever).
    pub fn set<T: Storable>(&self, key: String, value: T, expire_seconds: u64) {
        let now = now_millis();
        self.set_at(key, value, expire_seconds, now);
    }

    /// Deletes the entry under `key`, if there is one.
    pub fn remove(&self, key: &str) {
        proof {
            use_type_invariant(self);
        }
        let (mut cache, handle) = self.data.acquire_write();
        cache.remove(key);
        handle.release_write(cache);
    }

    /// Deletes every entry that has expired at `now`, as `Cache::clear_expired_entries_at`
    /// does, under the lock.
    pub fn clear_expired_entries_at(&self, now: u64) {
        proof {
            use_type_invariant(self);
        }
        let (mut cache, handle) = self.data.acquire_write();
        cache.clear_expired_entries_at(now);
        handle.release_write(cache);
    }

    /// Deletes every entry that has expired by now.
    pub fn clear_expired_entries(&self) {
        let now = now_millis();
        self.clear_expired_entries_at(now);
    }

    /// The number of entries held now, expired ones not yet swept included.
    pub fn len(&self) -> (r: usize)
        ensures
            r <= CAPACITY + 1,
    {
        proof {
            use_type_invariant(self);
        }
        let handle = self.data.acquire_read();
        let cache = handle.borrow();
        let r = cache.len();
        proof {
            cache.lemma_bounded();
        }
        handle.release_read();
        r
    }
}

} // verus!
