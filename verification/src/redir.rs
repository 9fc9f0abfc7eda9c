//! The question that is put to the packet filter for a redirected flow:
//! where did the client mean to go before the filter turned it here?

use crate::endpoint::Endpoint;
use vstd::prelude::*;

verus! {

/// The transport of a redirected flow.
#[derive(Clone, Copy, Debug, PartialEq, Eq, Structural)]
pub enum Protocol {
    Tcp,
    Udp,
}

/// The IP protocol number of TCP.
pub const IPPROTO_TCP: u8 = 6;

/// The IP protocol number of UDP.
pub const IPPROTO_UDP: u8 = 17;

impl Protocol {
    /// The IP protocol number.
    pub fn number(&self) -> (n: u8)
        ensures
            n == match *self {
                Protocol::Tcp => IPPROTO_TCP,
                Protocol::Udp => IPPROTO_UDP,
            },
    {
        match self {
            Protocol::Tcp => IPPROTO_TCP,
            Protocol::Udp => IPPROTO_UDP,
        }
    }
}

/// One lookup in the filter's table of redirections: the flow as the
/// redirected socket sees it.
#[derive(Clone, Copy, Debug, PartialEq, Eq, Structural)]
pub struct NatLook {
    /// Where the flow comes from: the client.
    pub source: Endpoint,
    /// Where the filter has turned the flow to: the local socket.
    pub destination: Endpoint,
    /// The transport.
    pub protocol: Protocol,
}

/// Why a lookup gave no destination.
#[derive(Clone, Copy, Debug, PartialEq, Eq, Structural)]
pub enum LookupError {
    /// The filter knows no redirection of this flow.
    NotFound,
}

/// The lookup for an accepted TCP connection with the given peer and local
/// addresses.
pub fn tcp_lookup(peer_addr: Endpoint, local_addr: Endpoint) -> (look: NatLook)
    ensures
        look == (NatLook { source: peer_addr, destination: local_addr, protocol: Protocol::Tcp }),
{
    NatLook { source: peer_addr, destination: local_addr, protocol: Protocol::Tcp }
}

/// The lookup for a UDP datagram that `peer_addr` sent and the listener
/// bound to `local_addr` received.
pub fn udp_lookup(peer_addr: Endpoint, local_addr: Endpoint) -> (look: NatLook)
    ensures
        look == (NatLook { source: peer_addr, destination: local_addr, protocol: Protocol::Udp }),
{
    NatLook { source: peer_addr, destination: local_addr, protocol: Protocol::Udp }
}

/// The destination that the client wrote to, from what the filter answered;
/// a flow of which the filter holds no entry has none.
pub fn destination_of(answer: Option<Endpoint>) -> (r: Result<Endpoint, LookupError>)
    ensures
        r == match answer {
            Some(endpoint) => Ok::<Endpoint, LookupError>(endpoint),
            None => Err::<Endpoint, LookupError>(LookupError::NotFound),
        },
{
    match answer {
        Some(endpoint) => Ok(endpoint),
        None => Err(LookupError::NotFound),
    }
}

} // verus!
