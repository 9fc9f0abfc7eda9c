//! The sockets through which answers go back to the peers, one for each
//! remote address that answers come from. A socket that was idle for too
//! long is dropped.

use crate::endpoint::{key_of, Endpoint, PeerKey};
use crate::udp_relay::send::Notice;
use crate::udp_relay::DEFAULT_UDP_EXPIRY_SECS;
use crate::utils::expiry_map::{
    cleaned_at_some_time, no_entries, put_at_some_time, used_at_some_time, ExpiryMap,
    NANOS_PER_SEC,
};
use vstd::prelude::*;

verus! {

/// The socket that an answer leaves through.
#[derive(Clone, Copy, Debug, PartialEq, Eq, Structural)]
pub enum ReturnPath {
    /// The socket that is already bound to the remote address.
    Reuse { socket: usize },
    /// None yet: one is to be bound to the remote address and registered.
    Bind { remote_addr: Endpoint },
}

/// Whether `socket` served an entry of `before` that `after` no longer has.
pub open spec fn lost_socket(
    before: Map<PeerKey, (u128, usize)>,
    after: Map<PeerKey, (u128, usize)>,
    socket: usize,
) -> bool {
    exists|k: PeerKey| #[trigger]
        before.contains_key(k) && !after.contains_key(k) && before[k].1 == socket
}

/// The table of return sockets, each under the remote address that it is
/// bound to.
pub struct UdpReceiveManager {
    nat_map: ExpiryMap,
    next_socket: usize,
}

impl View for UdpReceiveManager {
    type V = Map<PeerKey, (u128, usize)>;

    /// Under the key of each remote address the time of its last use and
    /// the number of its socket.
    closed spec fn view(&self) -> Map<PeerKey, (u128, usize)> {
        self.nat_map@
    }
}

impl UdpReceiveManager {
    /// The number that the next socket gets.
    pub closed spec fn next_socket(&self) -> usize {
        self.next_socket
    }

    /// Nanoseconds that a socket may stay idle.
    pub closed spec fn expiry_nanos(&self) -> u128 {
        self.nat_map.expiry_nanos()
    }

    /// An empty table whose sockets expire after the default time.
    pub fn create() -> (m: UdpReceiveManager)
        ensures
            m.expiry_nanos() == DEFAULT_UDP_EXPIRY_SECS * NANOS_PER_SEC,
            m@ == no_entries(),
            m.next_socket() == 0,
    {
        UdpReceiveManager { nat_map: ExpiryMap::new(DEFAULT_UDP_EXPIRY_SECS), next_socket: 0 }
    }

    /// Picks the socket for an answer from `remote_addr`. A socket that is
    /// bound to it counts as used now; without one the table stays as it
    /// is.
    pub fn send_to(&mut self, remote_addr: Endpoint) -> (path: ReturnPath)
        ensures
            final(self).expiry_nanos() == old(self).expiry_nanos(),
            final(self).next_socket() == old(self).next_socket(),
            path == if old(self)@.contains_key(key_of(remote_addr)) {
                ReturnPath::Reuse { socket: old(self)@[key_of(remote_addr)].1 }
            } else {
                ReturnPath::Bind { remote_addr }
            },
            used_at_some_time(old(self)@, final(self)@, key_of(remote_addr)),
    {
        let key = remote_addr.key();
        match self.nat_map.get_mut(&key) {
            Some(socket) => ReturnPath::Reuse { socket },
            None => ReturnPath::Bind { remote_addr },
        }
    }

    /// Registers the socket that was bound to `remote_addr`, used now, under
    /// a new number. Fails, and changes nothing, when no number is left.
    pub fn bound(&mut self, remote_addr: Endpoint) -> (socket: Option<usize>)
        ensures
            final(self).expiry_nanos() == old(self).expiry_nanos(),
            socket is None <==> old(self).next_socket() == usize::MAX,
            socket is None ==> final(self)@ == old(self)@ && final(self).next_socket() == old(
                self,
            ).next_socket(),
            socket matches Some(s) ==> {
                &&& s == old(self).next_socket()
                &&& final(self).next_socket() == s + 1
                &&& put_at_some_time(old(self)@, final(self)@, key_of(remote_addr), s)
            },
    {
        if self.next_socket == usize::MAX {
            return None;
        }
        let socket = self.next_socket;
        self.nat_map.insert(remote_addr.key(), socket);
        self.next_socket = socket + 1;
        Some(socket)
    }

    /// What to put in the log after `sent` of `expected` bytes went back to
    /// the peer: a warning if they were fewer.
    pub fn sent(sent: usize, expected: usize) -> (notice: Notice)
        ensures
            notice == if sent < expected {
                Notice::Mismatch { sent, expected }
            } else {
                Notice::Quiet
            },
    {
        if sent < expected {
            Notice::Mismatch { sent, expected }
        } else {
            Notice::Quiet
        }
    }

    /// Drops the sockets that have been idle for longer than the expiry
    /// time and hands out their numbers, for the caller to close them.
    pub fn cleanup_expired(&mut self) -> (closed: Vec<usize>)
        ensures
            final(self).expiry_nanos() == old(self).expiry_nanos(),
            final(self).next_socket() == old(self).next_socket(),
            cleaned_at_some_time(old(self)@, final(self)@, old(self).expiry_nanos()),
            forall|s: usize| #[trigger]
                lost_socket(old(self)@, final(self)@, s) <==> closed@.contains(s),
    {
        let dropped = self.nat_map.cleanup_expired();
        let mut closed: Vec<usize> = Vec::with_capacity(dropped.len());
        let mut i: usize = 0;
        while i < dropped.len()
            invariant
                i <= dropped@.len(),
                closed@.len() == i,
                forall|j: int| 0 <= j < i ==> #[trigger] closed@[j] == dropped@[j].1,
            decreases dropped@.len() - i,
        {
            closed.push(dropped[i].1);
            i += 1;
        }
        proof {
            assert forall|s: usize| #[trigger]
                lost_socket(old(self)@, self@, s) <==> closed@.contains(s) by {
                if lost_socket(old(self)@, self@, s) {
                    let k = choose|k: PeerKey| #[trigger]
                        old(self)@.contains_key(k) && !self@.contains_key(k) && old(self)@[k].1
                            == s;
                    let j = choose|j: int|
                        0 <= j < dropped@.len() && (#[trigger] dropped@[j]).0 == k;
                    assert(closed@[j] == s);
                }
                if closed@.contains(s) {
                    let j = choose|j: int| 0 <= j < closed@.len() && closed@[j] == s;
                    let k = dropped@[j].0;
                    assert(old(self)@.contains_key(k) && !self@.contains_key(k) && old(self)@[k].1
                        == s);
                }
            }
        }
        closed
    }
}

} // verus!
