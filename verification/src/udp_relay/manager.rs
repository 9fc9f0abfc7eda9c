//! The NAT table: which worker serves which peer. A peer that was idle for
//! too long loses its worker, and a worker without a peer is dropped, which
//! closes its queue and so ends its dispatcher.

use crate::endpoint::{key_of, Endpoint, PeerKey};
use crate::udp_relay::lru::{
    has_key, index_of, lru_capacity, lru_entries, lru_get, lru_insert, lru_with_expiry, touched,
    value_of,
};
use crate::udp_relay::send::{ForwardError, OutboundSocketKind, UdpSendWorker};
use crate::udp_relay::table::{
    accounted, has_worker, lemma_accounted_compose, lemma_foreign_key_absent, lemma_index_unique,
    lemma_insert_ok, lemma_skip_ok, lemma_touched_ok, table_ok, workers_of,
};
use crate::udp_relay::queue::{clone_sender, new_signal_queue, signal_queue_limit};
use crate::udp_relay::{DEFAULT_UDP_EXPIRY_SECS, UDP_ASSOCIATION_SEND_CHANNEL_SIZE};
use bytes::Bytes;
use lru_time_cache::LruCache;
use std::collections::HashMap;
use tokio::sync::mpsc::{Receiver, Sender};
use vstd::prelude::*;
use vstd::std_specs::hash::*;

verus! {

broadcast use vstd::std_specs::hash::group_hash_axioms;

/// A worker that was just made: the reading end of its queue, for the
/// dispatcher that is to be started for its peer.
pub struct Spawned {
    /// The peer that the dispatcher serves.
    pub peer: Endpoint,
    /// The number of the worker.
    pub worker: usize,
    /// The kind of outbound socket that the dispatcher opens.
    pub kind: OutboundSocketKind,
    /// The queue that the dispatcher takes its packets from.
    pub receiver: Receiver<(Endpoint, Bytes)>,
    /// The queue that the dispatcher puts its keep-alive signals into.
    pub keep_alive_sender: Sender<Endpoint>,
}

/// What became of one packet.
pub struct Relayed {
    /// The peer that sent the packet.
    pub peer: Endpoint,
    /// Where the peer sent it.
    pub target: Endpoint,
    /// The worker whose queue the packet was offered to, if there is one.
    pub worker: Option<usize>,
    /// Whether the queue took the packet.
    pub outcome: Result<(), ForwardError>,
    /// The worker, if it was made for this packet.
    pub spawned: Option<Spawned>,
    /// The workers that were dropped because their peers had expired.
    pub evicted: Vec<usize>,
}

/// The table of peers and their workers.
pub struct UdpNatManager {
    nat_map: LruCache<PeerKey, usize>,
    workers: HashMap<usize, UdpSendWorker>,
    next_worker: usize,
    keep_alive_sender: Sender<Endpoint>,
    proxy_type: OutboundSocketKind,
}

impl View for UdpNatManager {
    type V = Seq<(PeerKey, usize)>;

    /// The peers, each by its key and with the number of its worker, least
    /// recently used first.
    closed spec fn view(&self) -> Seq<(PeerKey, usize)> {
        lru_entries(self.nat_map)
    }
}

/// The workers of the expired entries, in the order of the entries.
fn workers_in(expired: &Vec<(PeerKey, usize)>) -> (out: Vec<usize>)
    ensures
        out@ == workers_of(expired@),
{
    let mut out: Vec<usize> = Vec::with_capacity(expired.len());
    let mut i: usize = 0;
    while i < expired.len()
        invariant
            i <= expired@.len(),
            out@ == workers_of(expired@.subrange(0, i as int)),
        decreases expired@.len() - i,
    {
        out.push(expired[i].1);
        i += 1;
        assert(out@ =~= workers_of(expired@.subrange(0, i as int)));
    }
    assert(expired@.subrange(0, i as int) =~= expired@);
    out
}

impl UdpNatManager {
    /// The number that the next worker gets.
    pub closed spec fn next_worker(&self) -> usize {
        self.next_worker
    }

    /// The kind of outbound socket that the workers open.
    pub closed spec fn spec_proxy_type(&self) -> OutboundSocketKind {
        self.proxy_type
    }

    /// The numbers of the workers that are alive.
    pub closed spec fn live_workers(&self) -> Set<usize> {
        self.workers@.dom()
    }

    /// The number of packets that the queue of a worker that is alive holds
    /// at most.
    pub closed spec fn queue_limit_of(&self, worker: usize) -> nat {
        self.workers@[worker].queue_limit()
    }

    /// The number of keep-alive signals that the queue to this table holds
    /// at most.
    pub closed spec fn keep_alive_limit(&self) -> nat {
        signal_queue_limit(self.keep_alive_sender)
    }

    /// What holds of the table between any two calls: it is in order, the
    /// workers that are alive are those that serve a peer, and every queue
    /// holds up to `UDP_ASSOCIATION_SEND_CHANNEL_SIZE` messages.
    pub closed spec fn inv(&self) -> bool {
        &&& lru_capacity(self.nat_map) == usize::MAX
        &&& table_ok(self@, self.next_worker as nat)
        &&& forall|w: usize| self.workers@.contains_key(w) <==> #[trigger] has_worker(self@, w)
        &&& forall|w: usize|
            self.workers@.contains_key(w) ==> (#[trigger] self.workers@[w]).queue_limit()
                == UDP_ASSOCIATION_SEND_CHANNEL_SIZE
        &&& signal_queue_limit(self.keep_alive_sender) == UDP_ASSOCIATION_SEND_CHANNEL_SIZE
    }

    /// An empty table whose entries expire after the default time, and the
    /// reading end of the queue of keep-alive signals.
    pub fn new(proxy_type: OutboundSocketKind) -> (made: (UdpNatManager, Receiver<Endpoint>))
        ensures
            made.0.inv(),
            made.0@ == Seq::<(PeerKey, usize)>::empty(),
            made.0.next_worker() == 0,
            made.0.spec_proxy_type() == proxy_type,
            made.0.keep_alive_limit() == UDP_ASSOCIATION_SEND_CHANNEL_SIZE,
    {
        UdpNatManager::with_expiry(proxy_type, DEFAULT_UDP_EXPIRY_SECS as u32)
    }

    /// An empty table whose entries expire after `expiry_secs` seconds
    /// without use, and the reading end of the queue of keep-alive signals.
    pub fn with_expiry(proxy_type: OutboundSocketKind, expiry_secs: u32) -> (made: (
        UdpNatManager,
        Receiver<Endpoint>,
    ))
        ensures
            made.0.inv(),
            made.0@ == Seq::<(PeerKey, usize)>::empty(),
            made.0.next_worker() == 0,
            made.0.spec_proxy_type() == proxy_type,
            made.0.keep_alive_limit() == UDP_ASSOCIATION_SEND_CHANNEL_SIZE,
    {
        let (keep_alive_sender, keep_alive_receiver) = new_signal_queue(
            UDP_ASSOCIATION_SEND_CHANNEL_SIZE,
        );
        (
            UdpNatManager {
                nat_map: lru_with_expiry(expiry_secs as u64),
                workers: HashMap::new(),
                next_worker: 0,
                keep_alive_sender,
                proxy_type,
            },
            keep_alive_receiver,
        )
    }

    /// The kind of outbound socket that the workers open.
    #[verifier::when_used_as_spec(spec_proxy_type)]
    pub fn proxy_type(&self) -> (k: OutboundSocketKind)
        ensures
            k == self.spec_proxy_type(),
    {
        self.proxy_type
    }

    /// Drops the workers with the given numbers.
    fn release(&mut self, evicted: &Vec<usize>)
        ensures
            final(self)@ == old(self)@,
            lru_capacity(final(self).nat_map) == lru_capacity(old(self).nat_map),
            final(self).next_worker == old(self).next_worker,
            final(self).proxy_type == old(self).proxy_type,
            final(self).keep_alive_sender == old(self).keep_alive_sender,
            forall|w: usize| #[trigger]
                final(self).workers@.contains_key(w) <==> old(self).workers@.contains_key(w)
                    && !evicted@.contains(w),
            forall|w: usize|
                final(self).workers@.contains_key(w) ==> #[trigger] final(self).workers@[w]
                    == old(self).workers@[w],
    {
        let mut i: usize = 0;
        while i < evicted.len()
            invariant
                i <= evicted@.len(),
                self@ == old(self)@,
                lru_capacity(self.nat_map) == lru_capacity(old(self).nat_map),
                self.next_worker == old(self).next_worker,
                self.proxy_type == old(self).proxy_type,
                self.keep_alive_sender == old(self).keep_alive_sender,
                forall|w: usize|
                    self.workers@.contains_key(w) <==> old(self).workers@.contains_key(w)
                        && !evicted@.subrange(0, i as int).contains(w),
                forall|w: usize|
                    self.workers@.contains_key(w) ==> #[trigger] self.workers@[w] == old(
                        self,
                    ).workers@[w],
            decreases evicted@.len() - i,
        {
            let ghost before = self.workers@;
            let ghost gone = evicted@.subrange(0, i as int);
            let _ = self.workers.remove(&evicted[i]);
            i += 1;
            proof {
                let more = evicted@.subrange(0, i as int);
                assert(more =~= gone.push(evicted@[i - 1]));
                assert forall|w: usize|
                    self.workers@.contains_key(w) <==> old(self).workers@.contains_key(w)
                        && !more.contains(w) by {
                    if gone.contains(w) {
                        let j = choose|j: int| 0 <= j < gone.len() && gone[j] == w;
                        assert(more[j] == w);
                    }
                    if w == evicted@[i - 1] {
                        assert(more[i - 1] == w);
                    }
                    if more.contains(w) {
                        let j = choose|j: int| 0 <= j < more.len() && more[j] == w;
                        if j < i - 1 {
                            assert(gone[j] == w);
                        }
                    }
                }
            }
        }
        assert(evicted@.subrange(0, i as int) =~= evicted@);
    }

    /// What `send_to` does to the table and gives back. The entries that
    /// have expired leave first: they are the first `r.evicted.len()` in
    /// order of last use, and their workers are dropped. A peer that then
    /// has a worker keeps it and becomes the most recently used. A peer that
    /// has none gets a newly numbered one, as the most recently used entry;
    /// only when no number is left it gets none, and the packet is refused.
    /// In every other case the packet is offered to the queue of the peer's
    /// worker, which takes it or not.
    pub open spec fn relays(
        &self,
        after: &UdpNatManager,
        peer_addr: Endpoint,
        target: Endpoint,
        r: Relayed,
    ) -> bool {
        let rest = self@.skip(r.evicted@.len() as int);
        let key = key_of(peer_addr);
        &&& after.inv()
        &&& after.spec_proxy_type() == self.spec_proxy_type()
        &&& r.peer == peer_addr
        &&& r.target == target
        &&& r.evicted@.len() <= self@.len()
        &&& r.evicted@ == workers_of(self@.subrange(0, r.evicted@.len() as int))
        &&& match value_of(rest, key) {
            Some(worker) => {
                &&& r.worker == Some(worker)
                &&& r.spawned is None
                &&& r.outcome != Err::<(), ForwardError>(ForwardError::Exhausted)
                &&& after@ == touched(rest, key)
                &&& after.next_worker() == self.next_worker()
                &&& accounted(self@, after@, r.evicted@, None)
            },
            None => if self.next_worker() == usize::MAX {
                &&& r.worker is None
                &&& r.spawned is None
                &&& r.outcome == Err::<(), ForwardError>(ForwardError::Exhausted)
                &&& after@ == rest
                &&& after.next_worker() == self.next_worker()
                &&& accounted(self@, after@, r.evicted@, None)
            } else {
                &&& r.worker == Some(self.next_worker())
                &&& r.spawned matches Some(s) && s.peer == peer_addr && s.worker
                    == self.next_worker() && s.kind == self.spec_proxy_type()
                &&& r.outcome != Err::<(), ForwardError>(ForwardError::Exhausted)
                &&& after@ == rest.push((key, self.next_worker()))
                &&& after.next_worker() == self.next_worker() + 1
                &&& accounted(self@, after@, r.evicted@, Some(self.next_worker()))
            },
        }
        &&& r.worker matches Some(worker) ==> after@.len() > 0 && after@.last() == (key, worker)
            && after.live_workers().contains(worker) && after.queue_limit_of(worker)
            == UDP_ASSOCIATION_SEND_CHANNEL_SIZE
        &&& r.spawned matches Some(s) ==> signal_queue_limit(s.keep_alive_sender)
            == UDP_ASSOCIATION_SEND_CHANNEL_SIZE
    }

    /// Sends one packet of `peer_addr` on its way to `target`: to the queue
    /// of the worker that serves the peer, which is made first if the peer
    /// has none.
    pub fn send_to(&mut self, peer_addr: Endpoint, target: Endpoint, data: Bytes) -> (r: Relayed)
        requires
            old(self).inv(),
        ensures
            old(self).relays(final(self), peer_addr, target, r),
    {
        let key = peer_addr.key();
        let (hit, expired) = lru_get(&mut self.nat_map, &key);
        let mut evicted = workers_in(&expired);
        self.release(&evicted);
        let ghost k = expired@.len() as int;
        let ghost rest = old(self)@.skip(k);
        proof {
            lemma_skip_ok(old(self)@, self.next_worker as nat, k);
            lemma_touched_ok(rest, self.next_worker as nat, key);
            lemma_accounted_compose(old(self)@, rest, self@, evicted@, Seq::empty(), None);
            assert(evicted@ + Seq::<usize>::empty() =~= evicted@);
            assert forall|w: usize| self.workers@.contains_key(w) <==> #[trigger] has_worker(
                self@,
                w,
            ) by {
                assert(old(self).workers@.contains_key(w) <==> has_worker(old(self)@, w));
            }
        }
        let ghost live = self.workers@;
        match hit {
            Some(worker) => {
                proof {
                    assert(self@.last() == (key, worker));
                    assert(has_worker(self@, worker));
                }
                let queue = self.workers.get(&worker);
                assert(queue is Some);
                let outcome = queue.unwrap().send_to(target, data);
                Relayed {
                    peer: peer_addr,
                    target,
                    worker: Some(worker),
                    outcome,
                    spawned: None,
                    evicted,
                }
            },
            None => {
                assert(self@ == rest);
                if self.next_worker == usize::MAX {
                    return Relayed {
                        peer: peer_addr,
                        target,
                        worker: None,
                        outcome: Err(ForwardError::Exhausted),
                        spawned: None,
                        evicted,
                    };
                }
                let worker = self.next_worker;
                let (queue, receiver) = UdpSendWorker::new();
                let outcome = queue.send_to(target, data);
                let (_displaced, expired_since) = lru_insert(&mut self.nat_map, key, worker);
                let mut evicted_since = workers_in(&expired_since);
                self.release(&evicted_since);
                let ghost first = evicted@;
                evicted.append(&mut evicted_since);
                let _ = self.workers.insert(worker, queue);
                self.next_worker = worker + 1;
                proof {
                    let k2 = expired_since@.len() as int;
                    let rest2 = rest.skip(k2);
                    lemma_skip_ok(rest, worker as nat, k2);
                    lemma_insert_ok(rest2, worker as nat, key);
                    assert(!has_key(rest2, key)) by {
                        if has_key(rest2, key) {
                            let j = index_of(rest2, key);
                            assert(rest2[j] == rest[j + k2]);
                        }
                    }
                    assert(rest2 =~= old(self)@.skip(k + k2));
                    assert(evicted@ =~= workers_of(old(self)@.subrange(0, k + k2))) by {
                        assert(rest.subrange(0, k2) =~= old(self)@.subrange(k, k + k2));
                        assert(first + workers_of(rest.subrange(0, k2)) =~= workers_of(
                            old(self)@.subrange(0, k + k2),
                        ));
                    }
                    lemma_accounted_compose(
                        old(self)@,
                        rest,
                        rest2,
                        first,
                        workers_of(rest.subrange(0, k2)),
                        None,
                    );
                    lemma_accounted_compose(
                        old(self)@,
                        rest2,
                        self@,
                        evicted@,
                        Seq::empty(),
                        Some(worker),
                    );
                    assert(evicted@ + Seq::<usize>::empty() =~= evicted@);
                    assert(has_worker(self@, worker));
                    assert forall|w: usize| self.workers@.contains_key(w) <==> #[trigger] has_worker(
                        self@,
                        w,
                    ) by {
                        assert(live.contains_key(w) <==> has_worker(rest, w));
                        assert(has_worker(rest2, w) <==> has_worker(rest, w) && !workers_of(
                            rest.subrange(0, k2),
                        ).contains(w));
                        assert(has_worker(self@, w) <==> has_worker(rest2, w) || w == worker);
                    }
                }
                Relayed {
                    peer: peer_addr,
                    target,
                    worker: Some(worker),
                    outcome,
                    spawned: Some(
                        Spawned {
                            peer: peer_addr,
                            worker,
                            kind: self.proxy_type,
                            receiver,
                            keep_alive_sender: clone_sender(&self.keep_alive_sender),
                        },
                    ),
                    evicted,
                }
            },
        }
    }

    /// What `keep_alive` does to the table: the entries that have expired
    /// leave and their workers are dropped, and `peer_addr`, if it is still
    /// there, becomes the most recently used. No entry is made.
    pub open spec fn refreshes(
        &self,
        after: &UdpNatManager,
        peer_addr: Endpoint,
        evicted: Vec<usize>,
    ) -> bool {
        &&& after.inv()
        &&& after.next_worker() == self.next_worker()
        &&& after.spec_proxy_type() == self.spec_proxy_type()
        &&& evicted@.len() <= self@.len()
        &&& evicted@ == workers_of(self@.subrange(0, evicted@.len() as int))
        &&& after@ == touched(self@.skip(evicted@.len() as int), key_of(peer_addr))
        &&& has_key(after@, key_of(peer_addr)) ==> after@.last().0 == key_of(peer_addr)
        &&& accounted(self@, after@, evicted@, None)
    }

    /// Marks `peer_addr` as the most recently used, if it is in the table,
    /// after the entries that have expired have left.
    pub fn keep_alive(&mut self, peer_addr: &Endpoint) -> (evicted: Vec<usize>)
        requires
            old(self).inv(),
        ensures
            old(self).refreshes(final(self), *peer_addr, evicted),
    {
        let key = peer_addr.key();
        let (_hit, expired) = lru_get(&mut self.nat_map, &key);
        let evicted = workers_in(&expired);
        self.release(&evicted);
        proof {
            let k = expired@.len() as int;
            let rest = old(self)@.skip(k);
            lemma_skip_ok(old(self)@, self.next_worker as nat, k);
            lemma_touched_ok(rest, self.next_worker as nat, key);
            lemma_accounted_compose(old(self)@, rest, self@, evicted@, Seq::empty(), None);
            assert(evicted@ + Seq::<usize>::empty() =~= evicted@);
            assert(has_key(self@, key) ==> has_key(rest, key)) by {
                if has_key(self@, key) && !has_key(rest, key) {
                    assert(self@ == rest);
                }
            }
            assert forall|w: usize| self.workers@.contains_key(w) <==> #[trigger] has_worker(
                self@,
                w,
            ) by {
                assert(old(self).workers@.contains_key(w) <==> has_worker(old(self)@, w));
            }
        }
        evicted
    }

    /// What `cleanup_expired` does to the table: the entries that have
    /// expired leave, the first `evicted.len()` in order of last use, and
    /// their workers are dropped. The others stay as they are.
    pub open spec fn cleans(&self, after: &UdpNatManager, evicted: Vec<usize>) -> bool {
        &&& after.inv()
        &&& after.next_worker() == self.next_worker()
        &&& after.spec_proxy_type() == self.spec_proxy_type()
        &&& evicted@.len() <= self@.len()
        &&& evicted@ == workers_of(self@.subrange(0, evicted@.len() as int))
        &&& after@ == self@.skip(evicted@.len() as int)
        &&& accounted(self@, after@, evicted@, None)
    }

    /// Drops the entries that have expired, and their workers.
    pub fn cleanup_expired(&mut self) -> (evicted: Vec<usize>)
        requires
            old(self).inv(),
        ensures
            old(self).cleans(final(self), evicted),
    {
        // No endpoint has this key, so the lookup finds nothing and moves
        // nothing: all it does is drop what has expired.
        let key: PeerKey = (0u8, 0u128, 0u16, 0u32, 0u32);
        let (_hit, expired) = lru_get(&mut self.nat_map, &key);
        let evicted = workers_in(&expired);
        self.release(&evicted);
        proof {
            let k = expired@.len() as int;
            let rest = old(self)@.skip(k);
            lemma_skip_ok(old(self)@, self.next_worker as nat, k);
            lemma_foreign_key_absent(rest, self.next_worker as nat, key);
            assert forall|w: usize| self.workers@.contains_key(w) <==> #[trigger] has_worker(
                self@,
                w,
            ) by {
                assert(old(self).workers@.contains_key(w) <==> has_worker(old(self)@, w));
            }
        }
        evicted
    }

    /// Between any two calls the table is in order: every key is the key of
    /// an endpoint, no peer has two entries, no worker serves two peers, and
    /// a worker is alive exactly as long as it serves a peer.
    pub proof fn lemma_table_in_order(&self)
        requires
            self.inv(),
        ensures
            table_ok(self@, self.next_worker() as nat),
            forall|i: int, j: int|
                0 <= i < self@.len() && 0 <= j < self@.len() && i != j ==> (#[trigger] self@[i]).0
                    != (#[trigger] self@[j]).0 && self@[i].1 != self@[j].1,
            forall|w: usize| self.live_workers().contains(w) <==> #[trigger] has_worker(self@, w),
            forall|w: usize|
                self.live_workers().contains(w) ==> #[trigger] self.queue_limit_of(w)
                    == UDP_ASSOCIATION_SEND_CHANNEL_SIZE,
            self.keep_alive_limit() == UDP_ASSOCIATION_SEND_CHANNEL_SIZE,
    {
        assert forall|i: int, j: int|
            0 <= i < self@.len() && 0 <= j < self@.len() && i != j implies (#[trigger] self@[i]).0
            != (#[trigger] self@[j]).0 && self@[i].1 != self@[j].1 by {
            if i < j {
                assert(self@[i].0 != self@[j].0);
            } else {
                assert(self@[j].0 != self@[i].0);
            }
        }
    }

    /// A peer keeps its worker from one packet to the next for as long as
    /// the worker is not evicted: the next packet goes to the same worker,
    /// and no other is made. Once the worker is evicted it is dropped, and
    /// the next packet of the peer gets a new one.
    pub proof fn lemma_one_worker_until_evicted(
        &self,
        after: &UdpNatManager,
        peer_addr: Endpoint,
        target: Endpoint,
        r: Relayed,
        worker: usize,
    )
        requires
            self.inv(),
            self.relays(after, peer_addr, target, r),
            value_of(self@, key_of(peer_addr)) == Some(worker),
        ensures
            !r.evicted@.contains(worker) ==> r.worker == Some(worker) && r.spawned is None
                && value_of(after@, key_of(peer_addr)) == Some(worker)
                && after.live_workers().contains(worker),
            r.evicted@.contains(worker) ==> r.worker != Some(worker)
                && !after.live_workers().contains(worker) && (r.worker is Some
                ==> r.spawned is Some),
    {
        let key = key_of(peer_addr);
        let k = r.evicted@.len() as int;
        let rest = self@.skip(k);
        let i = index_of(self@, key);
        assert(0 <= i < self@.len() && self@[i].0 == key && self@[i].1 == worker);
        lemma_skip_ok(self@, self.next_worker() as nat, k);
        lemma_touched_ok(rest, self.next_worker() as nat, key);
        after.lemma_table_in_order();
        assert(has_worker(self@, worker));
        if i < k {
            assert(r.evicted@[i] == worker);
            if has_key(rest, key) {
                let j = index_of(rest, key);
                assert(rest[j] == self@[j + k]);
                assert(self@[i].0 != self@[j + k].0);
            }
            assert(worker < self.next_worker());
            assert(value_of(rest, key) is None);
            assert(after.live_workers().contains(worker) <==> has_worker(after@, worker));
            if self.next_worker() == usize::MAX {
                assert(accounted(self@, after@, r.evicted@, None));
                assert(!has_worker(after@, worker));
            } else {
                assert(accounted(self@, after@, r.evicted@, Some(self.next_worker())));
                assert(!has_worker(after@, worker));
            }
        } else {
            assert(rest[i - k] == self@[i]);
            lemma_index_unique(rest, self.next_worker() as nat, key, i - k);
            if r.evicted@.contains(worker) {
                let j = choose|j: int| 0 <= j < r.evicted@.len() && r.evicted@[j] == worker;
                assert(self@[j].1 == worker);
                assert(self@[j].1 != self@[i].1);
            }
        }
    }
}

/// No worker outlives its entry: a worker that served a peer before a step
/// and serves none after it is among those that the step dropped, and a
/// worker that was dropped serves no peer.
pub proof fn lemma_no_worker_without_entry(
    before: Seq<(PeerKey, usize)>,
    after: Seq<(PeerKey, usize)>,
    evicted: Seq<usize>,
    created: Option<usize>,
    worker: usize,
)
    requires
        accounted(before, after, evicted, created),
        created != Some(worker),
    ensures
        has_worker(before, worker) && !has_worker(after, worker) ==> evicted.contains(worker),
        evicted.contains(worker) ==> !has_worker(after, worker),
        has_worker(after, worker) ==> has_worker(before, worker),
{
    assert(has_worker(after, worker) <==> (has_worker(before, worker) && !evicted.contains(worker))
        || created == Some(worker));
}

} // verus!
