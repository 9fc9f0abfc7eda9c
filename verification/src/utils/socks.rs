//! What the relay takes from a SOCKS5 UDP association.

use crate::endpoint::Endpoint;
use vstd::prelude::*;

verus! {

/// The sender of a datagram as a SOCKS5 relay names it.
#[derive(Clone, Debug)]
pub enum Address {
    /// A socket address.
    SocketAddress(Endpoint),
    /// A host name and a port.
    DomainNameAddress(String, u16),
}

/// Why a datagram from a SOCKS5 relay is dropped.
#[derive(Clone, Copy, Debug, PartialEq, Eq, Structural)]
pub enum SocksError {
    /// The sender is not named by a socket address.
    InvalidAddressType,
}

/// The sender of `n` received bytes as an endpoint. A sender that the relay
/// names by host name is refused.
pub fn recv_from(n: usize, addr: Address) -> (r: Result<(usize, Endpoint), SocksError>)
    ensures
        r == match addr {
            Address::SocketAddress(endpoint) => Ok::<(usize, Endpoint), SocksError>((n, endpoint)),
            Address::DomainNameAddress(_, _) => Err::<(usize, Endpoint), SocksError>(
                SocksError::InvalidAddressType,
            ),
        },
{
    match addr {
        Address::SocketAddress(endpoint) => Ok((n, endpoint)),
        Address::DomainNameAddress(_, _) => Err(SocksError::InvalidAddressType),
    }
}

} // verus!
