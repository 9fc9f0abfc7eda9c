//! A map whose entries remember when they were last used, so that the idle
//! ones can be dropped. The entries live in a `dashmap::DashMap`; time comes
//! from the monotonic clock of std.

use crate::endpoint::PeerKey;
use dashmap::DashMap;
use std::collections::hash_map::RandomState;
use std::time::{Duration, Instant};
use vstd::prelude::*;

verus! {

/// `dashmap::DashMap`. What is known of a map is what the functions below
/// say of `dash_entries`.
#[verifier::external_type_specification]
#[verifier::external_body]
#[verifier::reject_recursive_types(K)]
#[verifier::reject_recursive_types(V)]
#[verifier::reject_recursive_types(S)]
pub struct ExDashMap<K, V, S>(DashMap<K, V, S>);

/// `std::time::Instant`, a moment on the monotonic clock. It is only
/// handed on.
#[verifier::external_type_specification]
#[verifier::external_body]
pub struct ExInstant(Instant);

/// Nanoseconds in one second.
pub const NANOS_PER_SEC: u128 = 1_000_000_000;

/// What a map holds: under each key the time of its last use, in nanoseconds
/// of the owner's clock, and a value.
pub uninterp spec fn dash_entries(map: DashMap<PeerKey, (u128, usize), RandomState>) -> Map<
    PeerKey,
    (u128, usize),
>;

/// The map that holds nothing.
pub open spec fn no_entries() -> Map<PeerKey, (u128, usize)> {
    Map::empty()
}

/// Whether `listing` names every entry once, each with what it holds.
pub open spec fn lists(
    entries: Map<PeerKey, (u128, usize)>,
    listing: Seq<(PeerKey, (u128, usize))>,
) -> bool {
    &&& forall|i: int|
        0 <= i < listing.len() ==> entries.contains_key((#[trigger] listing[i]).0)
            && entries[listing[i].0] == listing[i].1
    &&& forall|k: PeerKey| #[trigger]
        entries.contains_key(k) ==> exists|i: int|
            0 <= i < listing.len() && (#[trigger] listing[i]).0 == k
    &&& forall|i: int, j: int|
        0 <= i < j < listing.len() ==> (#[trigger] listing[i]).0 != (#[trigger] listing[j]).0
}

/// `DashMap::new`: an empty map.
#[verifier::external_body]
fn dash_new() -> (made: DashMap<PeerKey, (u128, usize), RandomState>)
    ensures
        dash_entries(made) == no_entries(),
{
    DashMap::new()
}

/// `DashMap::insert`: puts `value` under `key` and hands out what `key` held
/// before.
#[verifier::external_body]
fn dash_insert(
    map: &mut DashMap<PeerKey, (u128, usize), RandomState>,
    key: PeerKey,
    value: (u128, usize),
) -> (before: Option<(u128, usize)>)
    ensures
        dash_entries(*final(map)) == dash_entries(*old(map)).insert(key, value),
        before == if dash_entries(*old(map)).contains_key(key) {
            Some(dash_entries(*old(map))[key])
        } else {
            None
        },
{
    map.insert(key, value)
}

/// `DashMap::get`: a copy of what `key` holds, if it holds anything.
#[verifier::external_body]
fn dash_get(map: &DashMap<PeerKey, (u128, usize), RandomState>, key: &PeerKey) -> (found: Option<
    (u128, usize),
>)
    ensures
        found == if dash_entries(*map).contains_key(*key) {
            Some(dash_entries(*map)[*key])
        } else {
            None
        },
{
    map.get(key).map(|entry| *entry.value())
}

/// `DashMap::remove`: takes the entry under `key` out, if there is one.
#[verifier::external_body]
fn dash_remove(map: &mut DashMap<PeerKey, (u128, usize), RandomState>, key: &PeerKey) -> (taken:
    Option<(PeerKey, (u128, usize))>)
    ensures
        dash_entries(*final(map)) == dash_entries(*old(map)).remove(*key),
        taken == if dash_entries(*old(map)).contains_key(*key) {
            Some((*key, dash_entries(*old(map))[*key]))
        } else {
            None
        },
{
    map.remove(key)
}

/// `DashMap::iter`: a copy of every entry, each once, in the order in which
/// the map is walked, which is not fixed.
#[verifier::external_body]
fn dash_snapshot(map: &DashMap<PeerKey, (u128, usize), RandomState>) -> (listing: Vec<
    (PeerKey, (u128, usize)),
>)
    ensures
        lists(dash_entries(*map), listing@),
{
    map.iter().map(|entry| (*entry.key(), *entry.value())).collect()
}

/// `Instant::now`: this moment on the monotonic clock.
#[verifier::external_body]
fn instant_now() -> Instant {
    Instant::now()
}

/// `Instant::elapsed`: the time that has passed since `origin`.
#[verifier::external_body]
fn instant_elapsed(origin: &Instant) -> Duration {
    origin.elapsed()
}

/// `Duration::as_nanos`: a span of time in nanoseconds.
#[verifier::external_body]
fn duration_nanos(span: &Duration) -> u128 {
    span.as_nanos()
}

/// Whether an entry last used at `last_use` has been idle at `now` for
/// longer than `expiry`.
pub open spec fn is_expired(last_use: u128, now: u128, expiry: u128) -> bool {
    now - last_use > expiry
}

/// The entries that have not expired at `now`.
pub open spec fn fresh_part(entries: Map<PeerKey, (u128, usize)>, now: u128, expiry: u128) -> Map<
    PeerKey,
    (u128, usize),
> {
    Map::new(
        |k: PeerKey| entries.contains_key(k) && !is_expired(entries[k].0, now, expiry),
        |k: PeerKey| entries[k],
    )
}

/// Whether `after` is `before` with `value` put under `key` at some time.
pub open spec fn put_at_some_time(
    before: Map<PeerKey, (u128, usize)>,
    after: Map<PeerKey, (u128, usize)>,
    key: PeerKey,
    value: usize,
) -> bool {
    exists|now: u128| after == #[trigger] before.insert(key, (now, value))
}

/// The entries after `key` was used at `now`: its entry, if there is one,
/// carries that time.
pub open spec fn used_at(before: Map<PeerKey, (u128, usize)>, key: PeerKey, now: u128) -> Map<
    PeerKey,
    (u128, usize),
> {
    if before.contains_key(key) {
        before.insert(key, (now, before[key].1))
    } else {
        before
    }
}

/// Whether `after` is `before` with `key` used at some time.
pub open spec fn used_at_some_time(
    before: Map<PeerKey, (u128, usize)>,
    after: Map<PeerKey, (u128, usize)>,
    key: PeerKey,
) -> bool {
    exists|now: u128| after == #[trigger] used_at(before, key, now)
}

/// Whether `after` is what is left of `before` when the entries that have
/// expired at some time are dropped.
pub open spec fn cleaned_at_some_time(
    before: Map<PeerKey, (u128, usize)>,
    after: Map<PeerKey, (u128, usize)>,
    expiry: u128,
) -> bool {
    exists|now: u128| after == #[trigger] fresh_part(before, now, expiry)
}

/// A map from keys to values in which every entry carries the time of its
/// last use.
pub struct ExpiryMap {
    map: DashMap<PeerKey, (u128, usize), RandomState>,
    expiry_nanos: u128,
    origin: Instant,
}

impl View for ExpiryMap {
    type V = Map<PeerKey, (u128, usize)>;

    /// Under each key the time of its last use and its value.
    closed spec fn view(&self) -> Map<PeerKey, (u128, usize)> {
        dash_entries(self.map)
    }
}

impl ExpiryMap {
    /// Nanoseconds that an entry may stay idle.
    pub closed spec fn expiry_nanos(&self) -> u128 {
        self.expiry_nanos
    }

    /// An empty map whose entries expire after `expiry_secs` seconds
    /// without use.
    pub fn new(expiry_secs: u64) -> (m: ExpiryMap)
        ensures
            m@ == no_entries(),
            m.expiry_nanos() == expiry_secs * NANOS_PER_SEC,
    {
        ExpiryMap {
            map: dash_new(),
            expiry_nanos: (expiry_secs as u128) * NANOS_PER_SEC,
            origin: instant_now(),
        }
    }

    /// Nanoseconds since this map was made.
    pub fn now(&self) -> u128 {
        let span = instant_elapsed(&self.origin);
        duration_nanos(&span)
    }

    /// Puts `value` under `key`, used at `now`.
    pub fn insert_at(&mut self, key: PeerKey, value: usize, now: u128)
        ensures
            final(self)@ == old(self)@.insert(key, (now, value)),
            final(self).expiry_nanos() == old(self).expiry_nanos(),
    {
        let _ = dash_insert(&mut self.map, key, (now, value));
    }

    /// Puts `value` under `key`, used now.
    pub fn insert(&mut self, key: PeerKey, value: usize)
        ensures
            put_at_some_time(old(self)@, final(self)@, key, value),
            final(self).expiry_nanos() == old(self).expiry_nanos(),
    {
        let now = self.now();
        self.insert_at(key, value, now);
        assert(self@ == #[trigger] old(self)@.insert(key, (now, value)));
    }

    /// The value under `key`, which counts as used at `now`. An entry is
    /// found whether or not it has expired, as long as it was not dropped.
    pub fn get_mut_at(&mut self, key: &PeerKey, now: u128) -> (found: Option<usize>)
        ensures
            final(self).expiry_nanos() == old(self).expiry_nanos(),
            found == if old(self)@.contains_key(*key) {
                Some(old(self)@[*key].1)
            } else {
                None
            },
            final(self)@ == used_at(old(self)@, *key, now),
    {
        match dash_get(&self.map, key) {
            Some((_, value)) => {
                let _ = dash_insert(&mut self.map, *key, (now, value));
                Some(value)
            },
            None => None,
        }
    }

    /// The value under `key`, which counts as used now.
    pub fn get_mut(&mut self, key: &PeerKey) -> (found: Option<usize>)
        ensures
            final(self).expiry_nanos() == old(self).expiry_nanos(),
            found == if old(self)@.contains_key(*key) {
                Some(old(self)@[*key].1)
            } else {
                None
            },
            used_at_some_time(old(self)@, final(self)@, *key),
    {
        let now = self.now();
        let found = self.get_mut_at(key, now);
        assert(self@ == #[trigger] used_at(old(self)@, *key, now));
        found
    }

    /// Takes the entry under `key` out.
    pub fn remove(&mut self, key: &PeerKey)
        ensures
            final(self)@ == old(self)@.remove(*key),
            final(self).expiry_nanos() == old(self).expiry_nanos(),
    {
        let _ = dash_remove(&mut self.map, key);
    }

    /// Drops every entry that at `now` has been idle for longer than the
    /// expiry time, and hands out the keys and values of those, each once.
    pub fn cleanup_expired_at(&mut self, now: u128) -> (dropped: Vec<(PeerKey, usize)>)
        ensures
            final(self).expiry_nanos() == old(self).expiry_nanos(),
            final(self)@ == fresh_part(old(self)@, now, old(self).expiry_nanos()),
            forall|i: int|
                0 <= i < dropped@.len() ==> old(self)@.contains_key((#[trigger] dropped@[i]).0)
                    && old(self)@[dropped@[i].0].1 == dropped@[i].1 && is_expired(
                    old(self)@[dropped@[i].0].0,
                    now,
                    old(self).expiry_nanos(),
                ),
            forall|k: PeerKey| #[trigger]
                old(self)@.contains_key(k) && is_expired(
                    old(self)@[k].0,
                    now,
                    old(self).expiry_nanos(),
                ) ==> exists|i: int| 0 <= i < dropped@.len() && (#[trigger] dropped@[i]).0 == k,
            forall|i: int, j: int|
                0 <= i < j < dropped@.len() ==> (#[trigger] dropped@[i]).0 != (
                #[trigger] dropped@[j]).0,
    {
        let listing = dash_snapshot(&self.map);
        let ghost before = self@;
        let expiry = self.expiry_nanos;
        let mut dropped: Vec<(PeerKey, usize)> = Vec::new();
        let mut marks: Ghost<Seq<int>> = Ghost(Seq::empty());
        let mut i: usize = 0;
        while i < listing.len()
            invariant
                i <= listing@.len(),
                lists(before, listing@),
                self.expiry_nanos == expiry,
                before == old(self)@,
                self@ == Map::new(
                    |k: PeerKey|
                        before.contains_key(k) && !(exists|j: int|
                            0 <= j < i && (#[trigger] listing@[j]).0 == k && is_expired(
                                listing@[j].1.0,
                                now,
                                expiry,
                            )),
                    |k: PeerKey| before[k],
                ),
                marks@.len() == dropped@.len(),
                forall|d: int|
                    0 <= d < dropped@.len() ==> 0 <= (#[trigger] marks@[d]) < i && dropped@[d] == (
                        listing@[marks@[d]].0,
                        listing@[marks@[d]].1.1,
                    ) && is_expired(listing@[marks@[d]].1.0, now, expiry),
                forall|c: int, d: int|
                    0 <= c < d < dropped@.len() ==> (#[trigger] marks@[c]) < (#[trigger] marks@[d]),
                forall|j: int|
                    0 <= j < i && is_expired((#[trigger] listing@[j]).1.0, now, expiry)
                        ==> exists|d: int| 0 <= d < dropped@.len() && (#[trigger] marks@[d]) == j,
            decreases listing@.len() - i,
        {
            let (key, (last_use, value)) = listing[i];
            if now > last_use && now - last_use > expiry {
                let _ = dash_remove(&mut self.map, &key);
                dropped.push((key, value));
                proof {
                    let old_marks = marks@;
                    marks@ = marks@.push(i as int);
                    assert forall|j: int|
                        0 <= j < i + 1 && is_expired((#[trigger] listing@[j]).1.0, now, expiry)
                        implies exists|d: int|
                        0 <= d < dropped@.len() && (#[trigger] marks@[d]) == j by {
                        if j < i {
                            let d = choose|d: int|
                                0 <= d < old_marks.len() && (#[trigger] old_marks[d]) == j;
                            assert(marks@[d] == j);
                        } else {
                            assert(marks@[dropped@.len() - 1] == j);
                        }
                    }
                }
            }
            i += 1;
            assert(self@ =~= Map::new(
                |k: PeerKey|
                    before.contains_key(k) && !(exists|j: int|
                        0 <= j < i && (#[trigger] listing@[j]).0 == k && is_expired(
                            listing@[j].1.0,
                            now,
                            expiry,
                        )),
                |k: PeerKey| before[k],
            )) by {
                assert forall|k: PeerKey|
                    (before.contains_key(k) && !(exists|j: int|
                        0 <= j < i && (#[trigger] listing@[j]).0 == k && is_expired(
                            listing@[j].1.0,
                            now,
                            expiry,
                        ))) == #[trigger] self@.contains_key(k) by {
                    if k == key && is_expired(last_use, now, expiry) {
                        assert(listing@[i - 1].0 == k);
                    }
                }
            }
        }
        assert(self@ =~= fresh_part(before, now, expiry)) by {
            assert forall|k: PeerKey|
                #[trigger] self@.contains_key(k) == fresh_part(before, now, expiry).contains_key(
                    k,
                ) by {
                if before.contains_key(k) {
                    let j = choose|j: int| 0 <= j < listing@.len() && (#[trigger] listing@[j]).0 == k;
                    assert(listing@[j].1 == before[k]);
                    if self@.contains_key(k) && is_expired(before[k].0, now, expiry) {
                        assert(false);
                    }
                    if !self@.contains_key(k) {
                        let m = choose|m: int|
                            0 <= m < i && (#[trigger] listing@[m]).0 == k && is_expired(
                                listing@[m].1.0,
                                now,
                                expiry,
                            );
                        assert(listing@[m].1 == before[k]);
                    }
                }
            }
        }
        proof {
            assert forall|d: int| 0 <= d < dropped@.len() implies before.contains_key(
                (#[trigger] dropped@[d]).0,
            ) && before[dropped@[d].0].1 == dropped@[d].1 && is_expired(
                before[dropped@[d].0].0,
                now,
                expiry,
            ) by {
                let m = marks@[d];
                assert(before[listing@[m].0] == listing@[m].1);
            }
            assert forall|k: PeerKey| #[trigger]
                before.contains_key(k) && is_expired(before[k].0, now, expiry) implies exists|
                d: int,
            |
                0 <= d < dropped@.len() && (#[trigger] dropped@[d]).0 == k by {
                let j = choose|j: int| 0 <= j < listing@.len() && (#[trigger] listing@[j]).0 == k;
                assert(listing@[j].1 == before[k]);
                let d = choose|d: int| 0 <= d < dropped@.len() && (#[trigger] marks@[d]) == j;
                assert(dropped@[d].0 == k);
            }
            assert forall|c: int, d: int| 0 <= c < d < dropped@.len() implies (
            #[trigger] dropped@[c]).0 != (#[trigger] dropped@[d]).0 by {
                assert(marks@[c] < marks@[d]);
                assert(listing@[marks@[c]].0 != listing@[marks@[d]].0);
            }
        }
        dropped
    }

    /// Drops every entry that has been idle for longer than the expiry
    /// time, and hands out the keys and values of those.
    pub fn cleanup_expired(&mut self) -> (dropped: Vec<(PeerKey, usize)>)
        ensures
            final(self).expiry_nanos() == old(self).expiry_nanos(),
            cleaned_at_some_time(old(self)@, final(self)@, old(self).expiry_nanos()),
            forall|i: int|
                0 <= i < dropped@.len() ==> old(self)@.contains_key((#[trigger] dropped@[i]).0)
                    && old(self)@[dropped@[i].0].1 == dropped@[i].1 && !final(self)@.contains_key(
                    dropped@[i].0,
                ),
            forall|k: PeerKey| #[trigger]
                old(self)@.contains_key(k) && !final(self)@.contains_key(k) ==> exists|i: int|
                    0 <= i < dropped@.len() && (#[trigger] dropped@[i]).0 == k,
    {
        let now = self.now();
        let dropped = self.cleanup_expired_at(now);
        assert(self@ == #[trigger] fresh_part(old(self)@, now, old(self).expiry_nanos()));
        dropped
    }
}

/// The first cleanup that finds an entry expired, where cleanups run at
/// `start`, one period later, two periods later and so on, and the entry was
/// last used at `last_use`.
pub open spec fn evicting_tick(start: nat, period: nat, last_use: nat) -> nat {
    (start + ((last_use - start) / period as int + 2) * period) as nat
}

/// With a cleanup at the end of every expiry period, an entry that is not
/// used again is dropped more than one and at most two periods after its
/// last use.
pub proof fn lemma_idle_entry_evicted(
    entries: Map<PeerKey, (u128, usize)>,
    key: PeerKey,
    start: nat,
    period: u128,
)
    requires
        entries.contains_key(key),
        period > 0,
        start <= entries[key].0,
        entries[key].0 + 2 * period <= u128::MAX,
    ensures
        ({
            let tick = evicting_tick(start, period as nat, entries[key].0 as nat);
            &&& entries[key].0 + period < tick <= entries[key].0 + 2 * period
            &&& !fresh_part(entries, tick as u128, period).contains_key(key)
            &&& forall|earlier: u128|
                earlier <= entries[key].0 + period ==> fresh_part(
                    entries,
                    earlier,
                    period,
                ).contains_key(key)
        }),
{
    let t = entries[key].0 as int;
    let d = period as int;
    let idle = t - start;
    vstd::arithmetic::div_mod::lemma_fundamental_div_mod(idle, d);
    vstd::arithmetic::div_mod::lemma_mod_bound(idle, d);
    let q = idle / d;
    let r = idle % d;
    assert(idle == d * q + r);
    assert((q + 2) * d == d * q + 2 * d) by (nonlinear_arith);
    vstd::arithmetic::div_mod::lemma_div_pos_is_pos(idle, d);
}

} // verus!
