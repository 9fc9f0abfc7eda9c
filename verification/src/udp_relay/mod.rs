//! The UDP relay: the table of peers, the per-peer dispatcher and the driver
//! that feeds them.

pub mod checker;
pub mod lru;
pub mod manager;
pub mod payload;
pub mod queue;
pub mod receive;
pub mod send;
pub mod table;

use crate::endpoint::Endpoint;
use crate::udp_relay::manager::{Relayed, UdpNatManager};
use crate::udp_relay::payload::bytes_content;
use bytes::Bytes;
use vstd::prelude::*;
use vstd::slice::slice_subrange;

verus! {

/// Seconds after which an idle UDP association expires.
pub const DEFAULT_UDP_EXPIRY_SECS: u64 = 300;

/// Seconds after which an idle association expires, where nothing else is
/// asked for.
pub const DEFAULT_TIMEOUT_SECS: u64 = 300;

/// The most bytes that one UDP datagram is received into.
pub const MAXIMUM_UDP_PAYLOAD_SIZE: usize = 65536;

/// Packets that the send queue of one UDP association holds.
pub const UDP_ASSOCIATION_SEND_CHANNEL_SIZE: usize = 1024;

/// What became of one receive on the redirect listener.
pub enum Received<E> {
    /// The receive failed; nothing was relayed.
    Failed(E),
    /// The datagram was empty; nothing was relayed.
    Empty,
    /// The datagram is on its way to a worker.
    Relay(Relayed),
}

/// The first `recv_len` bytes of the receive buffer, copied out of it so
/// that the buffer can take the next datagram.
pub fn packet_of(pkt_buf: &[u8], recv_len: usize) -> (pkt: Bytes)
    requires
        recv_len <= pkt_buf@.len(),
    ensures
        bytes_content(pkt) == pkt_buf@.subrange(0, recv_len as int),
{
    Bytes::copy_from_slice(slice_subrange(pkt_buf, 0, recv_len))
}

/// Takes one receive on the redirect listener: `recv_result` holds the
/// number of bytes that were received into `pkt_buf`, the peer that sent
/// them, and the destination that the peer wrote to. A failed receive and an
/// empty datagram leave the table as it is. Any other datagram is copied out
/// of the buffer and sent on its way once.
pub fn handle_recv_result<E>(
    recv_result: Result<(usize, Endpoint, Endpoint), E>,
    pkt_buf: &[u8],
    manager: &mut UdpNatManager,
) -> (out: Received<E>)
    requires
        old(manager).inv(),
        recv_result matches Ok(o) ==> o.0 <= pkt_buf@.len(),
    ensures
        final(manager).inv(),
        match recv_result {
            Err(err) => out == Received::<E>::Failed(err) && *final(manager) == *old(manager),
            Ok((recv_len, peer, dst)) => if recv_len == 0 {
                out is Empty && *final(manager) == *old(manager)
            } else {
                &&& out is Relay
                &&& old(manager).relays(final(manager), peer, dst, out->Relay_0)
            },
        },
{
    let (recv_len, peer, dst) = match recv_result {
        Ok(o) => o,
        Err(err) => {
            return Received::Failed(err);
        },
    };
    if recv_len == 0 {
        return Received::Empty;
    }
    Received::Relay(manager.send_to(peer, dst, packet_of(pkt_buf, recv_len)))
}

/// What wakes the relay's driver.
pub enum DriverEvent<E> {
    /// The cleanup period has passed.
    CleanupTick,
    /// A dispatcher says that its peer is alive.
    KeepAlive(Endpoint),
    /// The redirect listener has received, or failed to.
    Received(Result<(usize, Endpoint, Endpoint), E>),
}

/// What the driver has done, and what is left for its owner to do.
pub enum DriverStep<E> {
    /// The table was cleaned or refreshed: these workers lost their peers.
    Evicted(Vec<usize>),
    /// A receive was handled.
    Received(Received<E>),
}

/// One turn of the relay's driver: a cleanup tick drops what has expired, a
/// keep-alive marks its peer as used, a receive is handled as
/// `handle_recv_result` says.
pub fn run<E>(manager: &mut UdpNatManager, pkt_buf: &[u8], event: DriverEvent<E>) -> (step:
    DriverStep<E>)
    requires
        old(manager).inv(),
        event matches DriverEvent::Received(Ok(o)) ==> o.0 <= pkt_buf@.len(),
    ensures
        final(manager).inv(),
        match event {
            DriverEvent::CleanupTick => {
                &&& step is Evicted
                &&& old(manager).cleans(final(manager), step->Evicted_0)
            },
            DriverEvent::KeepAlive(peer) => {
                &&& step is Evicted
                &&& old(manager).refreshes(final(manager), peer, step->Evicted_0)
            },
            DriverEvent::Received(Err(err)) => {
                &&& step == DriverStep::<E>::Received(Received::<E>::Failed(err))
                &&& *final(manager) == *old(manager)
            },
            DriverEvent::Received(Ok((recv_len, peer, dst))) => if recv_len == 0 {
                &&& step matches DriverStep::Received(Received::Empty)
                &&& *final(manager) == *old(manager)
            } else {
                &&& step matches DriverStep::Received(Received::Relay(r))
                &&& old(manager).relays(final(manager), peer, dst, r)
            },
        },
{
    match event {
        DriverEvent::CleanupTick => DriverStep::Evicted(manager.cleanup_expired()),
        DriverEvent::KeepAlive(peer) => DriverStep::Evicted(manager.keep_alive(&peer)),
        DriverEvent::Received(recv_result) => DriverStep::Received(
            handle_recv_result(recv_result, pkt_buf, manager),
        ),
    }
}

} // verus!
