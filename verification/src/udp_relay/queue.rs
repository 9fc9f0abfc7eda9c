//! The queues between the NAT table and the dispatchers: bounded channels of
//! `tokio::sync::mpsc`, which are never waited on from the writing side.

use crate::endpoint::Endpoint;
use bytes::Bytes;
use tokio::sync::mpsc::error::TrySendError;
use tokio::sync::mpsc::{channel, Receiver, Sender};
use vstd::prelude::*;

verus! {

/// `tokio::sync::mpsc::Sender`, the writing end of a bounded queue. Nothing
/// is known of what the queue holds.
#[verifier::external_type_specification]
#[verifier::external_body]
#[verifier::reject_recursive_types(T)]
pub struct ExSender<T>(Sender<T>);

/// `tokio::sync::mpsc::Receiver`, the reading end of a bounded queue. It is
/// only handed on.
#[verifier::external_type_specification]
#[verifier::external_body]
#[verifier::reject_recursive_types(T)]
pub struct ExReceiver<T>(Receiver<T>);

/// The most messages that a queue is made for.
pub const MAX_QUEUE_SIZE: usize = 0x0fff_ffff;

/// How an attempt to queue a message ended.
#[derive(Clone, Copy, Debug, PartialEq, Eq, Structural)]
pub enum TrySend {
    /// The message is in the queue.
    Sent,
    /// The queue holds as many messages as it may; the message is dropped.
    Full,
    /// Nobody reads the queue any more; the message is dropped.
    Closed,
}

/// What `Sender::max_capacity` gives for the writing end of a queue of
/// packets: the number of packets that the queue was made to hold, which
/// stays the same for as long as the queue lives.
pub uninterp spec fn packet_queue_limit(sender: Sender<(Endpoint, Bytes)>) -> nat;

/// What `Sender::max_capacity` gives for the writing end of a queue of
/// keep-alive signals: the number of signals that the queue was made to
/// hold.
pub uninterp spec fn signal_queue_limit(sender: Sender<Endpoint>) -> nat;

/// `tokio::sync::mpsc::channel` for packets: the two ends of a new queue
/// that holds up to `capacity` of them.
#[verifier::external_body]
pub(crate) fn new_packet_queue(capacity: usize) -> (ends: (
    Sender<(Endpoint, Bytes)>,
    Receiver<(Endpoint, Bytes)>,
))
    requires
        0 < capacity <= MAX_QUEUE_SIZE,
    ensures
        packet_queue_limit(ends.0) == capacity,
{
    channel(capacity)
}

/// `tokio::sync::mpsc::channel` for keep-alive signals: the two ends of a
/// new queue that holds up to `capacity` of them.
#[verifier::external_body]
pub(crate) fn new_signal_queue(capacity: usize) -> (ends: (Sender<Endpoint>, Receiver<Endpoint>))
    requires
        0 < capacity <= MAX_QUEUE_SIZE,
    ensures
        signal_queue_limit(ends.0) == capacity,
{
    channel(capacity)
}

/// `Sender::try_send`: puts the message into the queue if there is room and
/// somebody still reads it, and says which of the three it was. It never
/// waits.
#[verifier::external_body]
pub(crate) fn try_send<T>(sender: &Sender<T>, message: T) -> (r: TrySend) {
    match sender.try_send(message) {
        Ok(()) => TrySend::Sent,
        Err(TrySendError::Full(_)) => TrySend::Full,
        Err(TrySendError::Closed(_)) => TrySend::Closed,
    }
}

/// `Sender::clone`: one more writing end of the same queue, which holds as
/// many signals as before.
#[verifier::external_body]
pub(crate) fn clone_sender(sender: &Sender<Endpoint>) -> (r: Sender<Endpoint>)
    ensures
        signal_queue_limit(r) == signal_queue_limit(*sender),
{
    sender.clone()
}

} // verus!
