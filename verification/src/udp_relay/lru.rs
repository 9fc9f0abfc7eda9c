//! The table that the NAT manager keeps its peers in: a cache that orders its
//! entries by last use and drops those that were idle for too long. The
//! cache is `lru_time_cache::LruCache`; this file says what is relied on.

use crate::endpoint::PeerKey;
use lru_time_cache::LruCache;
use std::time::Duration;
use vstd::prelude::*;

verus! {

/// `lru_time_cache::LruCache`. What is known of a cache is what the
/// functions below say of `lru_entries` and `lru_capacity`.
#[verifier::external_type_specification]
#[verifier::external_body]
#[verifier::reject_recursive_types(Key)]
#[verifier::reject_recursive_types(Value)]
pub struct ExLruCache<Key, Value>(LruCache<Key, Value>);

/// The entries of a cache, least recently used first.
pub uninterp spec fn lru_entries(cache: LruCache<PeerKey, usize>) -> Seq<(PeerKey, usize)>;

/// The number of entries that a cache was made to hold.
pub uninterp spec fn lru_capacity(cache: LruCache<PeerKey, usize>) -> nat;

/// The longest time to live, in seconds, that a cache is made with.
pub const MAX_TIME_TO_LIVE_SECS: u64 = 0xffff_ffff;

/// Whether some entry has this key.
pub open spec fn has_key(entries: Seq<(PeerKey, usize)>, key: PeerKey) -> bool {
    exists|i: int| 0 <= i < entries.len() && (#[trigger] entries[i]).0 == key
}

/// The place of an entry with this key.
pub open spec fn index_of(entries: Seq<(PeerKey, usize)>, key: PeerKey) -> int {
    choose|i: int| 0 <= i < entries.len() && (#[trigger] entries[i]).0 == key
}

/// The value under `key`, if there is one.
pub open spec fn value_of(entries: Seq<(PeerKey, usize)>, key: PeerKey) -> Option<usize> {
    if has_key(entries, key) {
        Some(entries[index_of(entries, key)].1)
    } else {
        None
    }
}

/// The entries without the one under `key`.
pub open spec fn without(entries: Seq<(PeerKey, usize)>, key: PeerKey) -> Seq<(PeerKey, usize)> {
    if has_key(entries, key) {
        entries.remove(index_of(entries, key))
    } else {
        entries
    }
}

/// The entries after `key` was used: its entry, if there is one, has moved
/// to the end.
pub open spec fn touched(entries: Seq<(PeerKey, usize)>, key: PeerKey) -> Seq<(PeerKey, usize)> {
    if has_key(entries, key) {
        without(entries, key).push(entries[index_of(entries, key)])
    } else {
        entries
    }
}

/// `LruCache::with_expiry_duration` on `Duration::from_secs(ttl_secs)`: an
/// empty cache without a limit on the number of its entries.
#[verifier::external_body]
pub(crate) fn lru_with_expiry(ttl_secs: u64) -> (cache: LruCache<PeerKey, usize>)
    requires
        ttl_secs <= MAX_TIME_TO_LIVE_SECS,
    ensures
        lru_entries(cache) == Seq::<(PeerKey, usize)>::empty(),
        lru_capacity(cache) == usize::MAX,
{
    LruCache::with_expiry_duration(Duration::from_secs(ttl_secs))
}

/// `LruCache::notify_get`. The cache first drops the entries that have
/// expired, which are the first so many in order of last use, and hands them
/// out in that order; how many they are depends on the clock. Then it looks
/// `key` up among the rest: an entry that is found moves to the end.
#[verifier::external_body]
pub(crate) fn lru_get(cache: &mut LruCache<PeerKey, usize>, key: &PeerKey) -> (r: (
    Option<usize>,
    Vec<(PeerKey, usize)>,
))
    ensures
        r.1@.len() <= lru_entries(*old(cache)).len(),
        r.1@ == lru_entries(*old(cache)).subrange(0, r.1@.len() as int),
        r.0 == value_of(lru_entries(*old(cache)).skip(r.1@.len() as int), *key),
        lru_entries(*final(cache)) == touched(
            lru_entries(*old(cache)).skip(r.1@.len() as int),
            *key,
        ),
        lru_capacity(*final(cache)) == lru_capacity(*old(cache)),
{
    let (value, expired) = cache.notify_get(key);
    (value.copied(), expired)
}

/// `LruCache::notify_insert`. The cache first drops the entries that have
/// expired, as `notify_get` does, and hands them out. Then it puts `value`
/// under `key` at the end, in place of the entry that `key` had before, whose
/// value it hands out. With room for one more entry nothing else leaves.
#[verifier::external_body]
pub(crate) fn lru_insert(cache: &mut LruCache<PeerKey, usize>, key: PeerKey, value: usize) -> (r:
    (Option<usize>, Vec<(PeerKey, usize)>))
    requires
        lru_entries(*old(cache)).len() < lru_capacity(*old(cache)),
    ensures
        r.1@.len() <= lru_entries(*old(cache)).len(),
        r.1@ == lru_entries(*old(cache)).subrange(0, r.1@.len() as int),
        r.0 == value_of(lru_entries(*old(cache)).skip(r.1@.len() as int), key),
        lru_entries(*final(cache)) == without(
            lru_entries(*old(cache)).skip(r.1@.len() as int),
            key,
        ).push((key, value)),
        lru_capacity(*final(cache)) == lru_capacity(*old(cache)),
{
    cache.notify_insert(key, value)
}

} // verus!
