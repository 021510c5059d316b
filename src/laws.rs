//! What holds of every run of the cache's operations, stated over the
//! models that their contracts use.
use vstd::prelude::*;

use crate::cache::{deadline, finds, is_expired, misses, stored, unexpired, EntryModel, CAPACITY, MILLIS_PER_SECOND};
use crate::value::Storable;

verus! {

/// A value stored without a time-to-live is found again at any time under
/// the type it was stored with, and it is the only value found there.
pub proof fn lemma_set_forever_then_get<T: Storable>(
    m: Map<Seq<char>, EntryModel>,
    k: Seq<char>,
    x: T::V,
    set_now: u64,
    now: u64,
)
    ensures
        finds::<T>(stored(m, k, (T::model(x), deadline(set_now, 0))), k, now, x),
        forall|y: T::V| #[trigger] finds::<T>(stored(m, k, (T::model(x), deadline(set_now, 0))), k, now, y) ==> y == x,
{
    assert forall|y: T::V| #[trigger] finds::<T>(stored(m, k, (T::model(x), deadline(set_now, 0))), k, now, y) implies y == x by {
        T::lemma_model_injective(x, y);
    }
}

/// A value stored with a time-to-live of `ttl > 0` seconds is found, and is
/// the only value found, until `ttl` seconds have passed; from then on
/// nothing is found under its key, whatever the type asked for, and without
/// any sweep.
pub proof fn lemma_set_with_ttl_then_get<T: Storable, U: Storable>(
    m: Map<Seq<char>, EntryModel>,
    k: Seq<char>,
    x: T::V,
    ttl: u64,
    set_now: u64,
    now: u64,
)
    requires
        ttl > 0,
    ensures
        now < set_now + ttl * MILLIS_PER_SECOND ==> finds::<T>(stored(m, k, (T::model(x), deadline(set_now, ttl))), k, now, x),
        forall|y: T::V| #[trigger] finds::<T>(stored(m, k, (T::model(x), deadline(set_now, ttl))), k, now, y) ==> y == x,
        now >= set_now + ttl * MILLIS_PER_SECOND ==> misses::<U>(stored(m, k, (T::model(x), deadline(set_now, ttl))), k, now),
{
    assert forall|y: T::V| #[trigger] finds::<T>(stored(m, k, (T::model(x), deadline(set_now, ttl))), k, now, y) implies y == x by {
        T::lemma_model_injective(x, y);
    }
}

/// After `remove(k)` nothing is found under `k`, whatever it held.
pub proof fn lemma_remove_then_get<T: Storable>(m: Map<Seq<char>, EntryModel>, k: Seq<char>, now: u64)
    ensures
        misses::<T>(m.remove(k), k, now),
{
}

/// A `set` on a cache that holds more than `CAPACITY` entries drops all of
/// them first: afterwards the cache holds the new key alone.
pub proof fn lemma_overflow_flushes(m: Map<Seq<char>, EntryModel>, k: Seq<char>, e: EntryModel)
    requires
        m.len() > CAPACITY,
    ensures
        stored(m, k, e) == Map::<Seq<char>, EntryModel>::empty().insert(k, e),
        stored(m, k, e).dom() == Set::<Seq<char>>::empty().insert(k),
{
    assert(stored(m, k, e).dom() =~= Set::<Seq<char>>::empty().insert(k));
}

/// A second sweep at the same time leaves the cache as the first one left
/// it.
pub proof fn lemma_sweep_idempotent(m: Map<Seq<char>, EntryModel>, now: u64)
    ensures
        unexpired(unexpired(m, now), now) == unexpired(m, now),
{
    assert(unexpired(unexpired(m, now), now) =~= unexpired(m, now));
}

/// A sweep keeps every entry that has not expired, unchanged.
pub proof fn lemma_sweep_keeps_live(m: Map<Seq<char>, EntryModel>, now: u64, k: Seq<char>)
    requires
        m.contains_key(k),
        !is_expired(m[k].1, now),
    ensures
        unexpired(m, now).contains_key(k),
        unexpired(m, now)[k] == m[k],
{
}

} // verus!
