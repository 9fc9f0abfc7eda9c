//! What holds of the NAT table in every state, and how its operations keep
//! it so.

use crate::endpoint::{is_endpoint_key, PeerKey};
use crate::udp_relay::lru::{has_key, index_of, touched, value_of, without};
use vstd::prelude::*;

verus! {

/// A table is in order when every key is the key of an endpoint, no key and
/// no worker occurs twice, and every worker was numbered before `next`, of
/// which there are at least as many as entries.
pub open spec fn table_ok(entries: Seq<(PeerKey, usize)>, next: nat) -> bool {
    &&& entries.len() <= next
    &&& forall|i: int|
        0 <= i < entries.len() ==> is_endpoint_key((#[trigger] entries[i]).0) && entries[i].1
            < next
    &&& forall|i: int, j: int|
        0 <= i < j < entries.len() ==> (#[trigger] entries[i]).0 != (#[trigger] entries[j]).0
            && entries[i].1 != entries[j].1
}

/// The workers of the entries, in the order of the entries.
pub open spec fn workers_of(entries: Seq<(PeerKey, usize)>) -> Seq<usize> {
    Seq::new(entries.len(), |i: int| entries[i].1)
}

/// Whether `worker` serves some entry.
pub open spec fn has_worker(entries: Seq<(PeerKey, usize)>, worker: usize) -> bool {
    exists|i: int| 0 <= i < entries.len() && (#[trigger] entries[i]).1 == worker
}

/// Every worker of `before` is either still in `after` or among `evicted`,
/// never both; and `after` has no worker besides those and `created`.
pub open spec fn accounted(
    before: Seq<(PeerKey, usize)>,
    after: Seq<(PeerKey, usize)>,
    evicted: Seq<usize>,
    created: Option<usize>,
) -> bool {
    forall|w: usize| #[trigger]
        has_worker(after, w) <==> (has_worker(before, w) && !evicted.contains(w)) || created
            == Some(w)
}

/// In a table in order, the entry under a key is the only one with that key.
pub proof fn lemma_index_unique(entries: Seq<(PeerKey, usize)>, next: nat, key: PeerKey, i: int)
    requires
        table_ok(entries, next),
        0 <= i < entries.len(),
        entries[i].0 == key,
    ensures
        has_key(entries, key),
        index_of(entries, key) == i,
        value_of(entries, key) == Some(entries[i].1),
{
    let j = index_of(entries, key);
    assert(0 <= j < entries.len() && entries[j].0 == key);
    if j < i {
        assert(entries[j].0 != entries[i].0);
    } else if i < j {
        assert(entries[i].0 != entries[j].0);
    }
}

/// What is left of a table in order after its first `k` entries went is in
/// order, and holds the workers that were not among those `k`.
pub proof fn lemma_skip_ok(entries: Seq<(PeerKey, usize)>, next: nat, k: int)
    requires
        table_ok(entries, next),
        0 <= k <= entries.len(),
    ensures
        table_ok(entries.skip(k), next),
        accounted(entries, entries.skip(k), workers_of(entries.subrange(0, k)), None),
{
    let rest = entries.skip(k);
    let gone = workers_of(entries.subrange(0, k));
    assert forall|i: int| 0 <= i < rest.len() implies is_endpoint_key((#[trigger] rest[i]).0)
        && rest[i].1 < next by {
        assert(rest[i] == entries[i + k]);
    }
    assert forall|i: int, j: int| 0 <= i < j < rest.len() implies (#[trigger] rest[i]).0 != (
    #[trigger] rest[j]).0 && rest[i].1 != rest[j].1 by {
        assert(rest[i] == entries[i + k]);
        assert(rest[j] == entries[j + k]);
    }
    assert forall|w: usize| #[trigger]
        has_worker(rest, w) <==> (has_worker(entries, w) && !gone.contains(w)) by {
        if has_worker(rest, w) {
            let i = choose|i: int| 0 <= i < rest.len() && (#[trigger] rest[i]).1 == w;
            assert(entries[i + k].1 == w);
            if gone.contains(w) {
                let j = choose|j: int| 0 <= j < gone.len() && gone[j] == w;
                assert(entries[j].1 == w);
                assert(entries[j].1 != entries[i + k].1);
            }
        }
        if has_worker(entries, w) && !gone.contains(w) {
            let i = choose|i: int| 0 <= i < entries.len() && (#[trigger] entries[i]).1 == w;
            if i < k {
                assert(gone[i] == w);
            }
            assert(rest[i - k].1 == w);
        }
    }
}

/// Using a key keeps a table in order and keeps its workers.
pub proof fn lemma_touched_ok(entries: Seq<(PeerKey, usize)>, next: nat, key: PeerKey)
    requires
        table_ok(entries, next),
    ensures
        table_ok(touched(entries, key), next),
        touched(entries, key).len() == entries.len(),
        accounted(entries, touched(entries, key), Seq::empty(), None),
        value_of(touched(entries, key), key) == value_of(entries, key),
        has_key(entries, key) ==> touched(entries, key).last() == (
            key,
            value_of(entries, key)->Some_0,
        ),
{
    let after = touched(entries, key);
    if has_key(entries, key) {
        let i = index_of(entries, key);
        let n = entries.len() as int;
        assert(0 <= i < n && entries[i].0 == key);
        assert forall|a: int| 0 <= a < n implies #[trigger] after[a] == entries[if a < i {
            a
        } else if a < n - 1 {
            a + 1
        } else {
            i
        }] by {}
        assert forall|a: int, b: int| 0 <= a < b < after.len() implies (#[trigger] after[a]).0
            != (#[trigger] after[b]).0 && after[a].1 != after[b].1 by {
            let x = if a < i { a } else if a < n - 1 { a + 1 } else { i };
            let y = if b < i { b } else if b < n - 1 { b + 1 } else { i };
            assert(x != y);
            if x < y {
                assert(entries[x].0 != entries[y].0);
            } else {
                assert(entries[y].0 != entries[x].0);
            }
        }
        assert forall|w: usize| #[trigger] has_worker(after, w) <==> has_worker(entries, w) by {
            if has_worker(after, w) {
                let a = choose|a: int| 0 <= a < after.len() && (#[trigger] after[a]).1 == w;
                let x = if a < i { a } else if a < n - 1 { a + 1 } else { i };
                assert(entries[x].1 == w);
            }
            if has_worker(entries, w) {
                let x = choose|x: int| 0 <= x < entries.len() && (#[trigger] entries[x]).1 == w;
                let a = if x < i { x } else if x == i { n - 1 } else { x - 1 };
                assert(after[a].1 == w);
            }
        }
        assert(after[n - 1] == entries[i]);
        lemma_index_unique(after, next, key, n - 1);
    } else {
        assert(after == entries);
    }
    assert forall|w: usize| !(#[trigger] Seq::<usize>::empty().contains(w)) by {}
}

/// A key that no endpoint has is not in a table in order.
pub proof fn lemma_foreign_key_absent(entries: Seq<(PeerKey, usize)>, next: nat, key: PeerKey)
    requires
        table_ok(entries, next),
        !is_endpoint_key(key),
    ensures
        !has_key(entries, key),
        touched(entries, key) == entries,
        value_of(entries, key) is None,
{
}

/// Putting a newly numbered worker under a key keeps a table in order; the
/// worker that the key had before is the only one that leaves.
pub proof fn lemma_insert_ok(entries: Seq<(PeerKey, usize)>, next: nat, key: PeerKey)
    requires
        table_ok(entries, next),
        is_endpoint_key(key),
        next <= usize::MAX,
    ensures
        table_ok(without(entries, key).push((key, next as usize)), next + 1),
        value_of(without(entries, key).push((key, next as usize)), key) == Some(next as usize),
        without(entries, key).push((key, next as usize)).last() == (key, next as usize),
        accounted(
            entries,
            without(entries, key).push((key, next as usize)),
            match value_of(entries, key) {
                Some(w) => seq![w],
                None => Seq::empty(),
            },
            Some(next as usize),
        ),
{
    let kept = without(entries, key);
    let after = kept.push((key, next as usize));
    let gone: Seq<usize> = match value_of(entries, key) {
        Some(w) => seq![w],
        None => Seq::empty(),
    };
    let n = entries.len() as int;
    if has_key(entries, key) {
        let i = index_of(entries, key);
        assert(0 <= i < n && entries[i].0 == key);
        assert(gone[0] == entries[i].1);
        assert forall|a: int| 0 <= a < kept.len() implies #[trigger] kept[a] == entries[if a
            < i {
            a
        } else {
            a + 1
        }] by {}
        assert forall|a: int| 0 <= a < kept.len() implies (#[trigger] kept[a]).0 != key by {
            let x = if a < i { a } else { a + 1 };
            if x < i {
                assert(entries[x].0 != entries[i].0);
            } else {
                assert(entries[i].0 != entries[x].0);
            }
        }
        assert forall|a: int, b: int| 0 <= a < b < kept.len() implies (#[trigger] kept[a]).0 != (
        #[trigger] kept[b]).0 && kept[a].1 != kept[b].1 by {
            let x = if a < i { a } else { a + 1 };
            let y = if b < i { b } else { b + 1 };
            assert(entries[x].0 != entries[y].0);
        }
        assert forall|w: usize| #[trigger]
            has_worker(after, w) <==> (has_worker(entries, w) && !gone.contains(w)) || Some(w)
                == Some(next as usize) by {
            if has_worker(after, w) {
                let a = choose|a: int| 0 <= a < after.len() && (#[trigger] after[a]).1 == w;
                if a < kept.len() {
                    let x = if a < i { a } else { a + 1 };
                    assert(entries[x].1 == w);
                    if gone.contains(w) {
                        if x < i {
                            assert(entries[x].1 != entries[i].1);
                        } else {
                            assert(entries[i].1 != entries[x].1);
                        }
                    }
                }
            }
            if has_worker(entries, w) && !gone.contains(w) {
                let x = choose|x: int| 0 <= x < entries.len() && (#[trigger] entries[x]).1 == w;
                if x == i {
                    assert(gone[0] == w);
                }
                let a = if x < i { x } else { x - 1 };
                assert(after[a].1 == w);
            }
            if w == next as usize {
                assert(after[kept.len() as int].1 == w);
            }
        }
    } else {
        assert(kept == entries);
        assert forall|a: int| 0 <= a < kept.len() implies (#[trigger] kept[a]).0 != key by {}
        assert forall|w: usize| #[trigger]
            has_worker(after, w) <==> (has_worker(entries, w) && !gone.contains(w)) || Some(w)
                == Some(next as usize) by {
            if has_worker(after, w) {
                let a = choose|a: int| 0 <= a < after.len() && (#[trigger] after[a]).1 == w;
                if a < kept.len() {
                    assert(entries[a].1 == w);
                }
            }
            if has_worker(entries, w) {
                let x = choose|x: int| 0 <= x < entries.len() && (#[trigger] entries[x]).1 == w;
                assert(after[x].1 == w);
            }
            if w == next as usize {
                assert(after[kept.len() as int].1 == w);
            }
        }
    }
    assert forall|a: int, b: int| 0 <= a < b < after.len() implies (#[trigger] after[a]).0 != (
    #[trigger] after[b]).0 && after[a].1 != after[b].1 by {
        if b < kept.len() {
            assert(kept[a].0 != kept[b].0);
        } else {
            assert(kept[a].0 != key);
            assert(kept[a].1 < next);
        }
    }
    assert(after[kept.len() as int] == (key, next as usize));
    lemma_index_unique(after, next + 1, key, kept.len() as int);
}

/// Workers that are accounted for over each of two steps are accounted for
/// over both, where only the second makes one.
pub proof fn lemma_accounted_compose(
    before: Seq<(PeerKey, usize)>,
    between: Seq<(PeerKey, usize)>,
    after: Seq<(PeerKey, usize)>,
    first: Seq<usize>,
    second: Seq<usize>,
    created: Option<usize>,
)
    requires
        accounted(before, between, first, None),
        accounted(between, after, second, created),
    ensures
        accounted(before, after, first + second, created),
{
    assert forall|w: usize| #[trigger]
        has_worker(after, w) <==> (has_worker(before, w) && !(first + second).contains(w))
            || created == Some(w) by {
        assert(has_worker(between, w) <==> has_worker(before, w) && !first.contains(w));
        if first.contains(w) {
            let i = choose|i: int| 0 <= i < first.len() && first[i] == w;
            assert((first + second)[i] == w);
        }
        if second.contains(w) {
            let i = choose|i: int| 0 <= i < second.len() && second[i] == w;
            assert((first + second)[first.len() + i] == w);
        }
        if (first + second).contains(w) {
            let i = choose|i: int| 0 <= i < (first + second).len() && (first + second)[i] == w;
            if i < first.len() {
                assert(first[i] == w);
            } else {
                assert(second[i - first.len()] == w);
            }
        }
    }
}

} // verus!
