//! Options for the sockets that connections are accepted on.

use crate::endpoint::Endpoint;
use std::time::Duration;
use vstd::prelude::*;

verus! {

/// Options of a TCP socket.
#[derive(Debug, Clone)]
pub struct TcpSocketOpts {
    /// The size of the send buffer, `SO_SNDBUF`.
    pub send_buffer_size: Option<u32>,
    /// The size of the receive buffer, `SO_RCVBUF`.
    pub recv_buffer_size: Option<u32>,
    /// `TCP_NODELAY`.
    pub nodelay: bool,
    /// `TCP_FASTOPEN`.
    pub fastopen: bool,
    /// `SO_KEEPALIVE`, with the time between two probes.
    pub keepalive: Option<Duration>,
    /// Multipath TCP.
    pub mptcp: bool,
}

/// Options of a UDP socket.
#[derive(Debug, Clone)]
pub struct UdpSocketOpts {
    /// The largest datagram to receive, headers included.
    pub mtu: Option<usize>,
    /// Whether outbound datagrams may be fragmented.
    pub allow_fragmentation: bool,
}

/// Options of an inbound connection.
#[derive(Clone, Debug)]
pub struct AcceptOpts {
    /// TCP options.
    pub tcp: TcpSocketOpts,
    /// UDP options.
    pub udp: UdpSocketOpts,
    /// `IPV6_V6ONLY`.
    pub ipv6_only: bool,
}

impl Default for TcpSocketOpts {
    /// Nothing set and nothing switched on.
    fn default() -> (opts: TcpSocketOpts)
        ensures
            opts.send_buffer_size is None,
            opts.recv_buffer_size is None,
            !opts.nodelay,
            !opts.fastopen,
            opts.keepalive is None,
            !opts.mptcp,
    {
        TcpSocketOpts {
            send_buffer_size: None,
            recv_buffer_size: None,
            nodelay: false,
            fastopen: false,
            keepalive: None,
            mptcp: false,
        }
    }
}

impl Default for UdpSocketOpts {
    /// Nothing set and nothing switched on.
    fn default() -> (opts: UdpSocketOpts)
        ensures
            opts.mtu is None,
            !opts.allow_fragmentation,
    {
        UdpSocketOpts { mtu: None, allow_fragmentation: false }
    }
}

impl Default for AcceptOpts {
    /// Nothing set and nothing switched on.
    fn default() -> (opts: AcceptOpts)
        ensures
            opts.tcp.send_buffer_size is None,
            opts.tcp.recv_buffer_size is None,
            !opts.tcp.nodelay,
            !opts.tcp.fastopen,
            opts.tcp.keepalive is None,
            !opts.tcp.mptcp,
            opts.udp.mtu is None,
            !opts.udp.allow_fragmentation,
            !opts.ipv6_only,
    {
        AcceptOpts {
            tcp: TcpSocketOpts::default(),
            udp: UdpSocketOpts::default(),
            ipv6_only: false,
        }
    }
}

/// Whether a socket bound to `addr` can serve both IPv4 and IPv6: `addr` is
/// an IPv6 endpoint whose address is all zero or carries an IPv4 address.
pub open spec fn dual_stack(addr: Endpoint) -> bool {
    match addr {
        Endpoint::V4 { .. } => false,
        Endpoint::V6 { addr, .. } => addr == 0 || addr as nat / 0x1_0000_0000 == 0xffff,
    }
}

/// Whether a socket bound to `addr` can serve both IPv4 and IPv6.
pub fn is_dual_stack_addr(addr: &Endpoint) -> (b: bool)
    ensures
        b == dual_stack(*addr),
{
    match addr {
        Endpoint::V4 { .. } => false,
        Endpoint::V6 { addr, .. } => *addr == 0 || *addr / 0x1_0000_0000 == 0xffff,
    }
}

} // verus!
