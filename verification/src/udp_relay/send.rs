//! The dispatcher of one peer: what it does with each thing that reaches it.
//! The sockets are the caller's; the decisions are made here. The worker is
//! the writing end of the queue that feeds the dispatcher.

use crate::endpoint::Endpoint;
use crate::udp_relay::checker::Checker;
use crate::udp_relay::queue::{new_packet_queue, packet_queue_limit, try_send, TrySend};
use crate::udp_relay::UDP_ASSOCIATION_SEND_CHANNEL_SIZE;
use bytes::Bytes;
use tokio::sync::mpsc::{Receiver, Sender};
use vstd::prelude::*;

verus! {

/// Seconds between two keep-alive signals of one dispatcher.
pub const KEEP_ALIVE_PERIOD_SECS: u64 = 1;

/// Outbound sockets that are plain UDP sockets.
#[derive(Clone, Copy, Debug, PartialEq, Eq, Structural)]
pub struct Direct;

/// Outbound sockets that are UDP associations with the SOCKS5 relay at the
/// given endpoint.
#[derive(Clone, Copy, Debug, PartialEq, Eq, Structural)]
pub struct Proxy(pub Endpoint);

/// The kind of socket a dispatcher reaches the remote side through.
#[derive(Clone, Copy, Debug, PartialEq, Eq, Structural)]
pub enum OutboundSocketKind {
    Direct,
    Proxy(Endpoint),
}

impl Direct {
    /// This kind as a value.
    pub fn kind(&self) -> (k: OutboundSocketKind)
        ensures
            k == OutboundSocketKind::Direct,
    {
        OutboundSocketKind::Direct
    }
}

impl Proxy {
    /// This kind as a value.
    pub fn kind(&self) -> (k: OutboundSocketKind)
        ensures
            k == OutboundSocketKind::Proxy(self.0),
    {
        OutboundSocketKind::Proxy(self.0)
    }
}

/// Why a packet did not reach the queue of a worker.
#[derive(Clone, Copy, Debug, PartialEq, Eq, Structural)]
pub enum ForwardError {
    /// The queue is full: the packet is dropped.
    Full,
    /// The dispatcher has gone: the packet is dropped.
    Closed,
    /// The peer has no worker and no worker number is left.
    Exhausted,
}

/// What the NAT table is told about a packet, from how the attempt to queue
/// it ended.
pub fn forward_result(sent: TrySend) -> (r: Result<(), ForwardError>)
    ensures
        r == match sent {
            TrySend::Sent => Ok::<(), ForwardError>(()),
            TrySend::Full => Err::<(), ForwardError>(ForwardError::Full),
            TrySend::Closed => Err::<(), ForwardError>(ForwardError::Closed),
        },
{
    match sent {
        TrySend::Sent => Ok(()),
        TrySend::Full => Err(ForwardError::Full),
        TrySend::Closed => Err(ForwardError::Closed),
    }
}

/// The writing end of the queue of one dispatcher. Dropping it closes the
/// queue.
pub struct UdpSendWorker {
    sender: Sender<(Endpoint, Bytes)>,
}

impl UdpSendWorker {
    /// The number of packets that the queue of this worker holds at most.
    /// One more is dropped.
    pub closed spec fn queue_limit(&self) -> nat {
        packet_queue_limit(self.sender)
    }

    /// A worker with a new queue that holds up to
    /// `UDP_ASSOCIATION_SEND_CHANNEL_SIZE` packets, and the reading end of
    /// that queue.
    pub fn new() -> (made: (UdpSendWorker, Receiver<(Endpoint, Bytes)>))
        ensures
            made.0.queue_limit() == UDP_ASSOCIATION_SEND_CHANNEL_SIZE,
    {
        let (sender, receiver) = new_packet_queue(UDP_ASSOCIATION_SEND_CHANNEL_SIZE);
        (UdpSendWorker { sender }, receiver)
    }

    /// Offers one packet to the queue without waiting. A packet that the
    /// queue does not take is dropped, and the error says why.
    pub fn send_to(&self, target: Endpoint, data: Bytes) -> (r: Result<(), ForwardError>)
        ensures
            r != Err::<(), ForwardError>(ForwardError::Exhausted),
    {
        forward_result(try_send(&self.sender, (target, data)))
    }
}

/// The address `0.0.0.0:0`, to which every outbound socket is bound.
pub open spec fn unspecified_endpoint() -> Endpoint {
    Endpoint::V4 { addr: 0, port: 0 }
}

/// What reaches a dispatcher.
#[derive(Clone, Copy, Debug, PartialEq, Eq, Structural)]
pub enum DispatchEvent {
    /// The queue from the NAT table handed over `len` bytes for `target`.
    ClientPacket { target: Endpoint, len: usize },
    /// The queue from the NAT table has closed.
    QueueClosed,
    /// The outbound socket received `len` bytes from `remote`.
    ServerPacket { remote: Endpoint, len: usize },
    /// Receiving on the outbound socket failed.
    ServerFailed,
    /// A tick of the keep-alive period has passed.
    Tick,
}

/// What the dispatcher's owner does next.
#[derive(Clone, Copy, Debug, PartialEq, Eq, Structural)]
pub enum DispatchAction {
    /// Send the `len` bytes to `target` on the outbound socket; where `bind`
    /// holds an address, open the socket there first.
    SendToServer { bind: Option<Endpoint>, target: Endpoint, len: usize },
    /// Send the `len` received bytes to `dst` through the raw socket, as if
    /// they came from `src`.
    SendToClient { src: Endpoint, dst: Endpoint, len: usize },
    /// Close the outbound socket; the next client packet opens a new one.
    ResetSocket,
    /// Try to tell the NAT table that `peer` is still alive.
    KeepAlive { peer: Endpoint },
    /// Leave the loop and release the socket.
    Stop,
    /// Nothing to do.
    Idle,
}

/// The state of one peer's dispatcher.
#[derive(Clone, Copy, Debug, PartialEq, Eq, Structural)]
pub struct Dispatcher {
    /// The client this dispatcher serves.
    pub peer_addr: Endpoint,
    /// Whether the outbound socket is open.
    pub client_to_server: bool,
    /// The keep-alive throttle.
    pub checker: Checker,
    /// Whether the queue has closed and the dispatcher has stopped.
    pub stopped: bool,
}

/// How an outbound send ended.
#[derive(Clone, Copy, Debug, PartialEq, Eq, Structural)]
pub enum SendOutcome {
    /// The socket could not be opened.
    BindFailed,
    /// The socket is open and the send failed.
    SendFailed,
    /// The socket took so many bytes.
    Sent(usize),
}

/// What to put in the log after a send.
#[derive(Clone, Copy, Debug, PartialEq, Eq, Structural)]
pub enum Notice {
    /// Nothing.
    Quiet,
    /// A warning: fewer or more bytes went out than were handed over.
    Mismatch { sent: usize, expected: usize },
    /// An error: the send failed.
    Failed,
}

/// The notice for a send of `expected` bytes of which `sent` went out.
pub open spec fn notice_for(sent: usize, expected: usize) -> Notice {
    if sent != expected {
        Notice::Mismatch { sent, expected }
    } else {
        Notice::Quiet
    }
}

impl Dispatcher {
    /// The dispatcher after `event`, and what its owner does then.
    pub open spec fn step(self, event: DispatchEvent) -> (Dispatcher, DispatchAction) {
        if self.stopped {
            (self, DispatchAction::Stop)
        } else {
            match event {
                DispatchEvent::ClientPacket { target, len } => (
                    self,
                    DispatchAction::SendToServer {
                        bind: if self.client_to_server {
                            None
                        } else {
                            Some(unspecified_endpoint())
                        },
                        target,
                        len,
                    },
                ),
                DispatchEvent::QueueClosed => (
                    Dispatcher { stopped: true, ..self },
                    DispatchAction::Stop,
                ),
                DispatchEvent::ServerPacket { remote, len } => (
                    Dispatcher { checker: self.checker.armed(), ..self },
                    DispatchAction::SendToClient { src: remote, dst: self.peer_addr, len },
                ),
                DispatchEvent::ServerFailed => (
                    Dispatcher { client_to_server: false, ..self },
                    DispatchAction::ResetSocket,
                ),
                DispatchEvent::Tick => if self.checker.need_check {
                    (
                        Dispatcher { checker: self.checker.disarmed(), ..self },
                        DispatchAction::KeepAlive { peer: self.peer_addr },
                    )
                } else {
                    (self, DispatchAction::Idle)
                },
            }
        }
    }

    /// A dispatcher for `peer_addr` with no socket yet and no keep-alive due.
    pub fn new(peer_addr: Endpoint) -> (d: Dispatcher)
        ensures
            d.peer_addr == peer_addr,
            !d.client_to_server,
            !d.stopped,
            d.checker == (Checker { period_secs: KEEP_ALIVE_PERIOD_SECS, need_check: false }),
    {
        Dispatcher {
            peer_addr,
            client_to_server: false,
            checker: Checker::new(KEEP_ALIVE_PERIOD_SECS),
            stopped: false,
        }
    }

    /// Takes one event and says what to do. A client packet is sent on, on a
    /// socket that is opened first if there is none. A server packet arms the
    /// keep-alive and goes to the client through the raw socket. A failed
    /// receive closes the socket and nothing more. A tick, if the keep-alive
    /// is armed, disarms it and sends the signal. A closed queue stops the
    /// dispatcher for good.
    pub fn dispatch_packet(&mut self, event: DispatchEvent) -> (action: DispatchAction)
        ensures
            (*final(self), action) == old(self).step(event),
    {
        if self.stopped {
            return DispatchAction::Stop;
        }
        match event {
            DispatchEvent::ClientPacket { target, len } => {
                let bind = if self.client_to_server {
                    None
                } else {
                    Some(Endpoint::V4 { addr: 0, port: 0 })
                };
                DispatchAction::SendToServer { bind, target, len }
            },
            DispatchEvent::QueueClosed => {
                self.stopped = true;
                DispatchAction::Stop
            },
            DispatchEvent::ServerPacket { remote, len } => {
                self.checker.activate();
                DispatchAction::SendToClient { src: remote, dst: self.peer_addr, len }
            },
            DispatchEvent::ServerFailed => {
                self.client_to_server = false;
                DispatchAction::ResetSocket
            },
            DispatchEvent::Tick => {
                if self.checker.wait() {
                    DispatchAction::KeepAlive { peer: self.peer_addr }
                } else {
                    DispatchAction::Idle
                }
            },
        }
    }

    /// Takes the end of a send to the server of `expected` bytes. The socket
    /// counts as open unless it could not be opened; a failed send leaves it
    /// open.
    pub fn send_client_packets(&mut self, expected: usize, outcome: SendOutcome) -> (notice: Notice)
        ensures
            final(self).peer_addr == old(self).peer_addr,
            final(self).checker == old(self).checker,
            final(self).stopped == old(self).stopped,
            final(self).client_to_server == match outcome {
                SendOutcome::BindFailed => old(self).client_to_server,
                _ => true,
            },
            notice == match outcome {
                SendOutcome::Sent(n) => notice_for(n, expected),
                _ => Notice::Failed,
            },
    {
        match outcome {
            SendOutcome::BindFailed => Notice::Failed,
            SendOutcome::SendFailed => {
                self.client_to_server = true;
                Notice::Failed
            },
            SendOutcome::Sent(n) => {
                self.client_to_server = true;
                if n != expected {
                    Notice::Mismatch { sent: n, expected }
                } else {
                    Notice::Quiet
                }
            },
        }
    }

    /// Takes the end of a raw send to the client of `recv_len` bytes: `sent`
    /// holds the bytes of payload that went out, or nothing if it failed.
    pub fn send_server_packets(&self, recv_len: usize, sent: Option<usize>) -> (notice: Notice)
        ensures
            notice == match sent {
                Some(n) => notice_for(n, recv_len),
                None => Notice::Failed,
            },
    {
        match sent {
            Some(n) => {
                if n != recv_len {
                    Notice::Mismatch { sent: n, expected: recv_len }
                } else {
                    Notice::Quiet
                }
            },
            None => Notice::Failed,
        }
    }

    /// Offers the keep-alive signal of this dispatcher's peer to the queue of
    /// the NAT table, without waiting, and says whether the queue took it. A
    /// signal that it did not take is due again at the next tick.
    pub fn send_keep_alive(&mut self, keep_alive_sender: &Sender<Endpoint>) -> (delivered: bool)
        ensures
            final(self).peer_addr == old(self).peer_addr,
            final(self).client_to_server == old(self).client_to_server,
            final(self).stopped == old(self).stopped,
            final(self).checker == if delivered {
                old(self).checker
            } else {
                old(self).checker.armed()
            },
    {
        let delivered = match try_send(keep_alive_sender, self.peer_addr) {
            TrySend::Sent => true,
            TrySend::Full => false,
            TrySend::Closed => false,
        };
        self.keep_alive_sent(delivered);
        delivered
    }

    /// Takes the end of a keep-alive signal: one that the NAT table's queue
    /// did not take is due again at the next tick.
    pub fn keep_alive_sent(&mut self, delivered: bool)
        ensures
            final(self).peer_addr == old(self).peer_addr,
            final(self).client_to_server == old(self).client_to_server,
            final(self).stopped == old(self).stopped,
            final(self).checker == if delivered {
                old(self).checker
            } else {
                old(self).checker.armed()
            },
    {
        if !delivered {
            self.checker.activate();
        }
    }
}

/// What a dispatcher that starts as `d` does, action by action, when the
/// events reach it one after the other.
pub open spec fn actions_of(d: Dispatcher, events: Seq<DispatchEvent>) -> Seq<DispatchAction>
    decreases events.len(),
{
    if events.len() == 0 {
        Seq::empty()
    } else {
        seq![d.step(events[0]).1] + actions_of(d.step(events[0]).0, events.drop_first())
    }
}

/// The dispatcher that `d` has become after all the events.
pub open spec fn state_after(d: Dispatcher, events: Seq<DispatchEvent>) -> Dispatcher
    decreases events.len(),
{
    if events.len() == 0 {
        d
    } else {
        state_after(d.step(events[0]).0, events.drop_first())
    }
}

/// The client packets among the events, in the order they came in, up to the
/// moment the queue closed (`stopped` says whether it already has).
pub open spec fn queued(stopped: bool, events: Seq<DispatchEvent>) -> Seq<(Endpoint, usize)>
    decreases events.len(),
{
    if events.len() == 0 || stopped {
        Seq::empty()
    } else {
        match events[0] {
            DispatchEvent::ClientPacket { target, len } => seq![(target, len)] + queued(
                false,
                events.drop_first(),
            ),
            DispatchEvent::QueueClosed => Seq::empty(),
            _ => queued(false, events.drop_first()),
        }
    }
}

/// The sends to the server among the actions, in the order they were asked
/// for.
pub open spec fn server_sends(actions: Seq<DispatchAction>) -> Seq<(Endpoint, usize)>
    decreases actions.len(),
{
    if actions.len() == 0 {
        Seq::empty()
    } else {
        match actions[0] {
            DispatchAction::SendToServer { target, len, .. } => seq![(target, len)] + server_sends(
                actions.drop_first(),
            ),
            _ => server_sends(actions.drop_first()),
        }
    }
}

/// A dispatcher sends to the server exactly the packets that its queue
/// handed over before it closed, each once and in the order of the queue.
pub proof fn lemma_outbound_fifo(d: Dispatcher, events: Seq<DispatchEvent>)
    ensures
        server_sends(actions_of(d, events)) == queued(d.stopped, events),
    decreases events.len(),
{
    if events.len() == 0 {
    } else {
        let next = d.step(events[0]).0;
        let first = d.step(events[0]).1;
        let rest = actions_of(next, events.drop_first());
        lemma_outbound_fifo(next, events.drop_first());
        assert((seq![first] + rest).drop_first() =~= rest);
        if d.stopped {
            lemma_stopped_sends_nothing(next, events.drop_first());
        } else if events[0] is QueueClosed {
            lemma_stopped_sends_nothing(next, events.drop_first());
        }
    }
}

/// A dispatcher that has stopped asks for no send, whatever reaches it.
pub proof fn lemma_stopped_sends_nothing(d: Dispatcher, events: Seq<DispatchEvent>)
    requires
        d.stopped,
    ensures
        server_sends(actions_of(d, events)) == Seq::<(Endpoint, usize)>::empty(),
        state_after(d, events) == d,
        forall|i: int|
            0 <= i < actions_of(d, events).len() ==> actions_of(d, events)[i]
                == DispatchAction::Stop,
    decreases events.len(),
{
    if events.len() > 0 {
        let rest = actions_of(d, events.drop_first());
        lemma_stopped_sends_nothing(d, events.drop_first());
        assert((seq![DispatchAction::Stop] + rest).drop_first() =~= rest);
    }
}

} // verus!
