use vstd::hash_map::StringHashMap;
use vstd::prelude::*;

use crate::clock::now_millis;
use crate::value::{Storable, Value, ValueModel};

verus! {

/// When the cache holds more entries than this, the next `set` empties it first.
pub const CAPACITY: usize = 10240;

/// The clock counts milliseconds; a time-to-live counts seconds.
pub const MILLIS_PER_SECOND: u128 = 1000;

/// An entry as mathematical data: the stored value and its deadline, if any,
/// in milliseconds.
pub type EntryModel = (ValueModel, Option<u128>);

/// The deadline of an entry stored at `now` (milliseconds) to live `ttl`
/// seconds. A `ttl` of zero means that the entry never expires.
pub open spec fn deadline(now: u64, ttl: u64) -> Option<u128> {
    if ttl == 0 {
        None
    } else {
        Some((now + ttl * MILLIS_PER_SECOND) as u128)
    }
}

/// An entry with this deadline is dead at `now` once the deadline is reached.
pub open spec fn is_expired(expires_at: Option<u128>, now: u64) -> bool {
    match expires_at {
        Some(t) => t <= now,
        None => false,
    }
}

/// Whether an entry with this deadline is dead at `now`.
fn has_expired(expires_at: Option<u128>, now: u64) -> (r: bool)
    ensures
        r == is_expired(expires_at, now),
{
    match expires_at {
        Some(t) => t <= now as u128,
        None => false,
    }
}

/// The entries of `m` that are still alive at `now`.
pub open spec fn unexpired(m: Map<Seq<char>, EntryModel>, now: u64) -> Map<Seq<char>, EntryModel> {
    m.filter_keys(|k: Seq<char>| !is_expired(m[k].1, now))
}

/// `get` at `now` finds, under key `k` of `m`, the value that `T` stores as `x`.
pub open spec fn finds<T: Storable>(m: Map<Seq<char>, EntryModel>, k: Seq<char>, now: u64, x: T::V) -> bool {
    &&& m.contains_key(k)
    &&& !is_expired(m[k].1, now)
    &&& T::model(x) == m[k].0
}

/// `get` at `now` finds, under key `k` of `m`, no live value stored from `T`.
pub open spec fn misses<T: Storable>(m: Map<Seq<char>, EntryModel>, k: Seq<char>, now: u64) -> bool {
    forall|x: T::V| !finds::<T>(m, k, now, x)
}

/// `r` is what `get` at `now` returns for key `k` of `m`.
pub open spec fn answers<T: Storable>(m: Map<Seq<char>, EntryModel>, k: Seq<char>, now: u64, r: Option<T>) -> bool {
    match r {
        Some(x) => finds::<T>(m, k, now, x@),
        None => misses::<T>(m, k, now),
    }
}

/// What `m` becomes when `set` stores `e` under `k`: emptied first when it
/// holds more than `CAPACITY` entries.
pub open spec fn stored(m: Map<Seq<char>, EntryModel>, k: Seq<char>, e: EntryModel) -> Map<Seq<char>, EntryModel> {
    if m.len() > CAPACITY {
        Map::empty().insert(k, e)
    } else {
        m.insert(k, e)
    }
}

struct Entry {
    value: Value,
    expires_at: Option<u128>,
}

impl View for Entry {
    type V = EntryModel;

    closed spec fn view(&self) -> EntryModel {
        (self.value@, self.expires_at)
    }
}

/// A map from string keys to typed values with deadlines. Changes take
/// `&mut self`, so callers on several threads share it behind a lock of
/// their choice; `SharedCache` is one.
pub struct Cache {
    entries: StringHashMap<Entry>,
    /// Each key of `entries`, once.
    keys: Vec<String>,
}

impl View for Cache {
    type V = Map<Seq<char>, EntryModel>;

    closed spec fn view(&self) -> Map<Seq<char>, EntryModel> {
        self.entries@.map_values(|e: Entry| e@)
    }
}

/// The character sequences of some strings.
spec fn names(v: Seq<String>) -> Seq<Seq<char>> {
    v.map_values(|s: String| s@)
}

proof fn lemma_push_distinct<A>(s: Seq<A>, x: A)
    requires
        s.no_duplicates(),
        !s.contains(x),
    ensures
        s.push(x).no_duplicates(),
        s.push(x).to_set() == s.to_set().insert(x),
{
    assert(s.push(x) == s + seq![x]);
    Seq::lemma_to_set_insert_commutes(s, x);
    assert forall|i: int, j: int| 0 <= i < j < s.push(x).len() implies s.push(x)[i] != s.push(x)[j] by {
        if j == s.len() {
            assert(s[i] == s.push(x)[i]);
        }
    }
}

proof fn lemma_remove_distinct<A>(s: Seq<A>, i: int)
    requires
        s.no_duplicates(),
        0 <= i < s.len(),
    ensures
        s.remove(i).no_duplicates(),
        s.remove(i).to_set() == s.to_set().remove(s[i]),
{
    let r = s.remove(i);
    assert forall|a: int, b: int| 0 <= a < b < r.len() implies r[a] != r[b] by {
        let a0 = if a < i { a } else { a + 1 };
        let b0 = if b < i { b } else { b + 1 };
        assert(r[a] == s[a0] && r[b] == s[b0]);
    }
    assert forall|y: A| r.contains(y) <==> (s.contains(y) && y != s[i]) by {
        if r.contains(y) {
            let a = choose|a: int| 0 <= a < r.len() && #[trigger] r[a] == y;
            let a0 = if a < i { a } else { a + 1 };
            assert(s[a0] == y);
        }
        if s.contains(y) && y != s[i] {
            let a0 = choose|a: int| 0 <= a < s.len() && #[trigger] s[a] == y;
            let a = if a0 < i { a0 } else { a0 - 1 };
            assert(r[a] == y);
        }
    }
    assert(r.to_set() =~= s.to_set().remove(s[i]));
}

/// `s.take(i + 1)` holds what `s.take(i)` holds and `s[i]`.
proof fn lemma_take_step<A>(s: Seq<A>, i: int, y: A)
    requires
        0 <= i < s.len(),
    ensures
        s.take(i + 1).contains(y) <==> (s.take(i).contains(y) || y == s[i]),
{
    if s.take(i + 1).contains(y) {
        let a = choose|a: int| 0 <= a < i + 1 && #[trigger] s.take(i + 1)[a] == y;
        if a < i {
            assert(s.take(i)[a] == y);
        }
    }
    if s.take(i).contains(y) {
        let a = choose|a: int| 0 <= a < i && #[trigger] s.take(i)[a] == y;
        assert(s.take(i + 1)[a] == y);
    }
    if y == s[i] {
        assert(s.take(i + 1)[i] == y);
    }
}

impl Cache {
    spec fn key_seq(&self) -> Seq<Seq<char>> {
        names(self.keys@)
    }

    /// The keys list each key of the map once, and the map never holds
    /// more than one entry past `CAPACITY`.
    pub closed spec fn wf(&self) -> bool {
        &&& self.entries@.dom() == self.key_seq().to_set()
        &&& self.key_seq().no_duplicates()
        &&& self.keys@.len() <= CAPACITY + 1
    }

    proof fn lemma_len(&self)
        requires
            self.wf(),
        ensures
            self@.dom().finite(),
            self@.len() == self.keys@.len(),
            self.entries@.len() == self.keys@.len(),
    {
        self.key_seq().unique_seq_to_set();
        assert(self@.dom() =~= self.entries@.dom());
    }

    /// The number of entries is bounded.
    pub proof fn lemma_bounded(&self)
        requires
            self.wf(),
        ensures
            self@.dom().finite(),
            self@.len() <= CAPACITY + 1,
    {
        self.lemma_len();
    }

    /// An empty cache.
    pub fn new() -> (r: Cache)
        ensures
            r.wf(),
            r@ == Map::<Seq<char>, EntryModel>::empty(),
    {
        let r = Cache { entries: StringHashMap::new(), keys: Vec::new() };
        assert(r.key_seq().to_set() =~= Set::empty());
        assert(r@ =~= Map::<Seq<char>, EntryModel>::empty());
        r
    }

    /// The number of entries, expired ones that are still held included.
    pub fn len(&self) -> (r: usize)
        requires
            self.wf(),
        ensures
            r == self@.len(),
    {
        proof {
            self.lemma_len();
        }
        self.entries.len()
    }

    /// The value under `key` at time `now`, if it is stored from `T` and has
    /// not expired.
    pub fn get_at<T: Storable>(&self, key: &str, now: u64) -> (r: Option<T>)
        ensures
            answers::<T>(self@, key@, now, r),
    {
        match self.entries.get(key) {
            None => None,
            Some(e) => {
                if has_expired(e.expires_at, now) {
                    None
                } else {
                    T::from_value(&e.value)
                }
            },
        }
    }

    /// Stores `value` under `key` at time `now` to live `ttl` seconds (zero:
    /// for ever), replacing what the key held. When the cache holds more than
    /// `CAPACITY` entries, it is emptied first.
    pub fn set_at<T: Storable>(&mut self, key: String, value: T, ttl: u64, now: u64)
        requires
            old(self).wf(),
        ensures
            final(self).wf(),
            final(self)@ == stored(old(self)@, key@, (T::model(value@), deadline(now, ttl))),
    {
        let expires_at = if ttl == 0 {
            None
        } else {
            Some(now as u128 + ttl as u128 * MILLIS_PER_SECOND)
        };
        let entry = Entry { value: value.into_value(), expires_at };
        let ghost e = entry@;
        proof {
            self.lemma_len();
        }
        if self.entries.len() > CAPACITY {
            self.entries.clear();
            self.keys.clear();
            assert(self.key_seq().to_set() =~= Set::empty());
            assert(self@ =~= Map::<Seq<char>, EntryModel>::empty());
        }
        let ghost mid = self@;
        if !self.entries.contains_key(key.as_str()) {
            let ghost ks = self.key_seq();
            proof {
                self.lemma_len();
                assert(!ks.contains(key@));
                lemma_push_distinct(ks, key@);
            }
            self.keys.push(key.clone());
            assert(self.key_seq() =~= ks.push(key@));
        }
        let ghost ks = self.key_seq();
        self.entries.insert(key, entry);
        assert(self.entries@.dom() =~= ks.to_set());
        assert(self@ =~= mid.insert(key@, e));
    }

    /// Deletes the entry under `key`, if there is one.
    pub fn remove(&mut self, key: &str)
        requires
            old(self).wf(),
        ensures
            final(self).wf(),
            final(self)@ == old(self)@.remove(key@),
    {
        if !self.entries.contains_key(key) {
            assert(self@ =~= old(self)@.remove(key@));
            return;
        }
        let target = key.to_owned();
        let ghost ks = self.key_seq();
        let mut i: usize = 0;
        while i < self.keys.len()
            invariant
                self.wf(),
                *self == *old(self),
                ks == self.key_seq(),
                target@ == key@,
                ks.to_set().contains(key@),
                forall|j: int| 0 <= j < i ==> ks[j] != key@,
            decreases self.keys.len() - i,
        {
            if self.keys[i] == target {
                proof {
                    lemma_remove_distinct(ks, i as int);
                }
                self.keys.remove(i);
                assert(self.key_seq() =~= ks.remove(i as int));
                self.entries.remove(key);
                assert(self@ =~= old(self)@.remove(key@));
                return;
            }
            i = i + 1;
        }
        assert(ks.contains(key@));
    }

    /// Deletes every entry that has expired at `now`; the others stay as they
    /// are.
    pub fn clear_expired_entries_at(&mut self, now: u64)
        requires
            old(self).wf(),
        ensures
            final(self).wf(),
            final(self)@ == unexpired(old(self)@, now),
    {
        let ghost m0 = self@;
        let ghost ks = self.key_seq();
        let mut kept: Vec<String> = Vec::new();
        let mut i: usize = 0;
        while i < self.keys.len()
            invariant
                old(self).wf(),
                m0 == old(self)@,
                ks == old(self).key_seq(),
                self.keys == old(self).keys,
                ks == self.key_seq(),
                i <= self.keys.len(),
                kept@.len() <= i,
                names(kept@).no_duplicates(),
                forall|y: Seq<char>| #[trigger] names(kept@).contains(y)
                    <==> (ks.take(i as int).contains(y) && !is_expired(m0[y].1, now)),
                forall|y: Seq<char>| #[trigger] self@.contains_key(y)
                    <==> (m0.contains_key(y) && (ks.take(i as int).contains(y) ==> !is_expired(m0[y].1, now))),
                forall|y: Seq<char>| self@.contains_key(y) ==> #[trigger] self@[y] == m0[y],
                self.entries@.dom() == self@.dom(),
            decreases self.keys.len() - i,
        {
            let ghost y = ks[i as int];
            let ghost ksel = names(kept@);
            assert(m0.contains_key(y) && self@.contains_key(y)) by {
                assert(ks.to_set().contains(y));
                if !ks.take(i as int).contains(y) {
                } else {
                    let a = choose|a: int| 0 <= a < i && #[trigger] ks.take(i as int)[a] == y;
                    assert(ks[a] == ks[i as int]);
                }
            }
            let expired = match self.entries.get(self.keys[i].as_str()) {
                Some(e) => has_expired(e.expires_at, now),
                None => false,
            };
            assert(self.keys@[i as int]@ == y);
            assert(self@[y] == self.entries@[y]@);
            assert(expired == is_expired(m0[y].1, now));
            let ghost before = self@;
            if expired {
                self.entries.remove(self.keys[i].as_str());
                assert(self@ =~= before.remove(y));
            } else {
                proof {
                    assert(!ksel.contains(y)) by {
                        if ksel.contains(y) {
                            let a = choose|a: int| 0 <= a < i && #[trigger] ks.take(i as int)[a] == y;
                            assert(ks[a] == ks[i as int]);
                        }
                    }
                    lemma_push_distinct(ksel, y);
                }
                kept.push(self.keys[i].clone());
                assert(names(kept@) =~= ksel.push(y));
            }
            proof {
                assert forall|z: Seq<char>| ks.take(i + 1).contains(z) <==> (ks.take(i as int).contains(z) || z == y) by {
                    lemma_take_step(ks, i as int, z);
                }
                assert forall|z: Seq<char>| #[trigger] ksel.push(y).contains(z) <==> (ksel.contains(z) || z == y) by {
                    lemma_take_step(ksel.push(y), ksel.len() as int, z);
                    assert(ksel.push(y).take(ksel.len() as int) =~= ksel);
                    assert(ksel.push(y).take(ksel.len() as int + 1) =~= ksel.push(y));
                }
                assert forall|z: Seq<char>| #[trigger] names(kept@).contains(z)
                    <==> (ks.take(i + 1).contains(z) && !is_expired(m0[z].1, now)) by {
                    if !expired {
                        assert(names(kept@) == ksel.push(y));
                        assert(ksel.push(y).contains(z) <==> (ksel.contains(z) || z == y));
                    }
                }
                assert forall|z: Seq<char>| #[trigger] self@.contains_key(z)
                    <==> (m0.contains_key(z) && (ks.take(i + 1).contains(z) ==> !is_expired(m0[z].1, now))) by {
                    assert(ks.take(i + 1).contains(z) <==> (ks.take(i as int).contains(z) || z == y));
                    assert(before.contains_key(z)
                        <==> (m0.contains_key(z) && (ks.take(i as int).contains(z) ==> !is_expired(m0[z].1, now))));
                }
            }
            i = i + 1;
        }
        proof {
            assert(ks.take(i as int) =~= ks);
            names(kept@).unique_seq_to_set();
        }
        self.keys = kept;
        assert(self.entries@.dom() =~= self.key_seq().to_set());
        assert(self@ =~= unexpired(m0, now));
    }

    /// The value under `key` now, if it is stored from `T` and has not
    /// expired.
    pub fn get<T: Storable>(&self, key: &str) -> (r: Option<T>)
        ensures
            exists|now: u64| answers::<T>(self@, key@, now, r),
    {
        let now = now_millis();
        self.get_at(key, now)
    }

    /// Stores `value` under `key` now, to live `expire_seconds` seconds
    /// (zero: for ever), replacing what the key held. When the cache holds
    /// more than `CAPACITY` entries, it is emptied first.
    pub fn set<T: Storable>(&mut self, key: String, value: T, expire_seconds: u64)
        requires
            old(self).wf(),
        ensures
            final(self).wf(),
            exists|now: u64|
                final(self)@ == stored(old(self)@, key@, (T::model(value@), #[trigger] deadline(now, expire_seconds))),
    {
        let now = now_millis();
        self.set_at(key, value, expire_seconds, now);
    }

    /// Deletes every entry that has expired by now.
    pub fn clear_expired_entries(&mut self)
        requires
            old(self).wf(),
        ensures
            final(self).wf(),
            exists|now: u64| final(self)@ == #[trigger] unexpired(old(self)@, now),
    {
        let now = now_millis();
        self.clear_expired_entries_at(now);
    }
}

/// The same cache, for a host that keeps it behind a reader-writer lock:
/// lookups take `&self`, so they run side by side under the read lock;
/// changes take `&mut self`, under the write lock.
pub struct CacheRwLock {
    inner: Cache,
}

impl View for CacheRwLock {
    type V = Map<Seq<char>, EntryModel>;

    closed spec fn view(&self) -> Map<Seq<char>, EntryModel> {
        self.inner@
    }
}

impl CacheRwLock {
    /// As for `Cache`: each key listed once, at most one entry past `CAPACITY`.
    pub closed spec fn wf(&self) -> bool {
        self.inner.wf()
    }

    /// The number of entries is bounded.
    pub proof fn lemma_bounded(&self)
        requires
            self.wf(),
        ensures
            self@.dom().finite(),
            self@.len() <= CAPACITY + 1,
    {
        self.inner.lemma_bounded();
    }

    /// An empty cache.
    pub fn new() -> (r: CacheRwLock)
        ensures
            r.wf(),
            r@ == Map::<Seq<char>, EntryModel>::empty(),
    {
        CacheRwLock { inner: Cache::new() }
    }

    /// The number of entries, expired ones that are still held included.
    pub fn len(&self) -> (r: usize)
        requires
            self.wf(),
        ensures
            r == self@.len(),
    {
        self.inner.len()
    }

    /// The value under `key` at time `now`, if it is stored from `T` and has
    /// not expired.
    pub fn get_at<T: Storable>(&self, key: &str, now: u64) -> (r: Option<T>)
        ensures
            answers::<T>(self@, key@, now, r),
    {
        self.inner.get_at(key, now)
    }

    /// The value under `key` now, if it is stored from `T` and has not
    /// expired.
    pub fn get<T: Storable>(&self, key: &str) -> (r: Option<T>)
        ensures
            exists|now: u64| answers::<T>(self@, key@, now, r),
    {
        let now = now_millis();
        let r = self.inner.get_at(key, now);
        assert(answers::<T>(self@, key@, now, r));
        r
    }

    /// Stores `value` under `key` at time `now` to live `ttl` seconds (zero:
    /// for ever), replacing what the key held. When the cache holds more than
    /// `CAPACITY` entries, it is emptied first.
    pub fn set_at<T: Storable>(&mut self, key: String, value: T, ttl: u64, now: u64)
        requires
            old(self).wf(),
        ensures
            final(self).wf(),
            final(self)@ == stored(old(self)@, key@, (T::model(value@), deadline(now, ttl))),
    {
        self.inner.set_at(key, value, ttl, now);
    }

    /// Stores `value` under `key` now, to live `expire_seconds` seconds
    /// (zero: for ever), replacing what the key held. When the cache holds
    /// more than `CAPACITY` entries, it is emptied first.
    pub fn set<T: Storable>(&mut self, key: String, value: T, expire_seconds: u64)
        requires
            old(self).wf(),
        ensures
            final(self).wf(),
            exists|now: u64|
                final(self)@ == stored(old(self)@, key@, (T::model(value@), #[trigger] deadline(now, expire_seconds))),
    {
        let now = now_millis();
        self.inner.set_at(key, value, expire_seconds, now);
    }

    /// Deletes the entry under `key`, if there is one.
    pub fn remove(&mut self, key: &str)
        requires
            old(self).wf(),
        ensures
            final(self).wf(),
            final(self)@ == old(self)@.remove(key@),
    {
        self.inner.remove(key);
    }

    /// Deletes every entry that has expired at `now`; the others stay as they
    /// are.
    pub fn clear_expired_entries_at(&mut self, now: u64)
        requires
            old(self).wf(),
        ensures
            final(self).wf(),
            final(self)@ == unexpired(old(self)@, now),
    {
        self.inner.clear_expired_entries_at(now);
    }

    /// Deletes every entry that has expired by now.
    pub fn clear_expired_entries(&mut self)
        requires
            old(self).wf(),
        ensures
            final(self).wf(),
            exists|now: u64| final(self)@ == #[trigger] unexpired(old(self)@, now),
    {
        let now = now_millis();
        self.inner.clear_expired_entries_at(now);
        assert(self@ == unexpired(old(self)@, now));
    }
}

} // verus!
