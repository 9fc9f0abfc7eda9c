//! Socket addresses as plain integers.

use vstd::arithmetic::div_mod::lemma_fundamental_div_mod_converse;
use vstd::prelude::*;

verus! {

/// What an [`Endpoint`] is ordered and found by: the address family (4 or 6),
/// the address, the port, and for IPv6 the flow label and the scope.
pub type PeerKey = (u8, u128, u16, u32, u32);

/// The family tag of an IPv4 key.
pub const FAMILY_V4: u8 = 4;

/// The family tag of an IPv6 key.
pub const FAMILY_V6: u8 = 6;

/// An IPv4 or IPv6 socket address. `addr` is the address read as one
/// big-endian number, so `1.2.3.4` is `0x01020304`.
#[derive(Clone, Copy, Debug, PartialEq, Eq, Hash, Structural)]
#[allow(inconsistent_fields)]
pub enum Endpoint {
    V4 { addr: u32, port: u16 },
    V6 { addr: u128, port: u16, flowinfo: u32, scope_id: u32 },
}

/// The number whose big-endian bytes are `a.b.c.d`.
pub open spec fn ipv4_bits(a: u8, b: u8, c: u8, d: u8) -> u32 {
    (a as nat * 0x100_0000 + b as nat * 0x1_0000 + c as nat * 0x100 + d as nat) as u32
}

/// The four bytes of `addr`, most significant first.
pub open spec fn ipv4_octets_spec(addr: u32) -> Seq<u8> {
    seq![
        (addr as nat / 0x100_0000) as u8,
        (addr as nat / 0x1_0000 % 0x100) as u8,
        (addr as nat / 0x100 % 0x100) as u8,
        (addr as nat % 0x100) as u8,
    ]
}

/// The key that `key` yields for an endpoint.
pub open spec fn key_of(ep: Endpoint) -> PeerKey {
    match ep {
        Endpoint::V4 { addr, port } => (FAMILY_V4, addr as u128, port, 0u32, 0u32),
        Endpoint::V6 { addr, port, flowinfo, scope_id } => (
            FAMILY_V6,
            addr,
            port,
            flowinfo,
            scope_id,
        ),
    }
}

/// Whether some endpoint has this key.
pub open spec fn is_endpoint_key(key: PeerKey) -> bool {
    ||| key.0 == FAMILY_V4 && key.1 <= u32::MAX && key.3 == 0 && key.4 == 0
    ||| key.0 == FAMILY_V6
}

/// The endpoint that a key stands for, where there is one.
pub open spec fn endpoint_of(key: PeerKey) -> Option<Endpoint> {
    if key.0 == FAMILY_V4 && key.1 <= u32::MAX && key.3 == 0 && key.4 == 0 {
        Some(Endpoint::V4 { addr: key.1 as u32, port: key.2 })
    } else if key.0 == FAMILY_V6 {
        Some(Endpoint::V6 { addr: key.1, port: key.2, flowinfo: key.3, scope_id: key.4 })
    } else {
        None
    }
}

/// Splitting `a.b.c.d` read as one number gives `a`, `b`, `c` and `d` back.
pub proof fn lemma_octets_of_bits(a: u8, b: u8, c: u8, d: u8)
    ensures
        ipv4_octets_spec(ipv4_bits(a, b, c, d)) == seq![a, b, c, d],
        ipv4_bits(a, b, c, d) == a as nat * 0x100_0000 + b as nat * 0x1_0000 + c as nat * 0x100
            + d as nat,
{
    let x: int = a as int * 0x100_0000 + b as int * 0x1_0000 + c as int * 0x100 + d as int;
    lemma_fundamental_div_mod_converse(x, 0x100_0000, a as int, b as int * 0x1_0000 + c as int * 0x100 + d as int);
    lemma_fundamental_div_mod_converse(x, 0x1_0000, a as int * 0x100 + b as int, c as int * 0x100 + d as int);
    lemma_fundamental_div_mod_converse(a as int * 0x100 + b as int, 0x100, a as int, b as int);
    lemma_fundamental_div_mod_converse(x, 0x100, a as int * 0x1_0000 + b as int * 0x100 + c as int, d as int);
    lemma_fundamental_div_mod_converse(a as int * 0x1_0000 + b as int * 0x100 + c as int, 0x100, a as int * 0x100 + b as int, c as int);
    assert(ipv4_octets_spec(ipv4_bits(a, b, c, d)) =~= seq![a, b, c, d]);
}

/// The four bytes of an IPv4 address, most significant first.
pub fn ipv4_octets(addr: u32) -> (out: [u8; 4])
    ensures
        out@ == ipv4_octets_spec(addr),
        ipv4_bits(out[0], out[1], out[2], out[3]) == addr,
{
    let out: [u8; 4] = [
        (addr / 0x100_0000) as u8,
        (addr / 0x1_0000 % 0x100) as u8,
        (addr / 0x100 % 0x100) as u8,
        (addr % 0x100) as u8,
    ];
    assert(out@ =~= ipv4_octets_spec(addr));
    assert(addr / 0x100_0000 * 0x100_0000 + addr / 0x1_0000 % 0x100 * 0x1_0000 + addr / 0x100
        % 0x100 * 0x100 + addr % 0x100 == addr) by (bit_vector);
    out
}

impl Endpoint {
    /// The IPv4 endpoint `a.b.c.d:port`.
    pub fn v4(a: u8, b: u8, c: u8, d: u8, port: u16) -> (ep: Endpoint)
        ensures
            ep == (Endpoint::V4 { addr: ipv4_bits(a, b, c, d), port }),
            ipv4_octets_spec(ipv4_bits(a, b, c, d)) == seq![a, b, c, d],
    {
        let addr: u32 = (a as u32) * 0x100_0000 + (b as u32) * 0x1_0000 + (c as u32) * 0x100 + (
        d as u32);
        proof {
            lemma_octets_of_bits(a, b, c, d);
        }
        Endpoint::V4 { addr, port }
    }

    /// The IPv6 endpoint with the given address, port, flow label and scope.
    pub fn v6(addr: u128, port: u16, flowinfo: u32, scope_id: u32) -> (ep: Endpoint)
        ensures
            ep == (Endpoint::V6 { addr, port, flowinfo, scope_id }),
    {
        Endpoint::V6 { addr, port, flowinfo, scope_id }
    }

    /// Whether this is an IPv4 endpoint.
    pub open spec fn spec_is_ipv4(&self) -> bool {
        *self is V4
    }

    /// Whether this is an IPv4 endpoint.
    #[verifier::when_used_as_spec(spec_is_ipv4)]
    pub fn is_ipv4(&self) -> (b: bool)
        ensures
            b == (*self is V4),
    {
        match self {
            Endpoint::V4 { .. } => true,
            Endpoint::V6 { .. } => false,
        }
    }

    /// The address of an IPv4 endpoint as one big-endian number; zero for an
    /// IPv6 endpoint.
    pub open spec fn spec_ipv4_addr(&self) -> u32 {
        match *self {
            Endpoint::V4 { addr, .. } => addr,
            Endpoint::V6 { .. } => 0,
        }
    }

    /// The address of an IPv4 endpoint as one big-endian number.
    #[verifier::when_used_as_spec(spec_ipv4_addr)]
    pub fn ipv4_addr(&self) -> (a: u32)
        requires
            *self is V4,
        ensures
            a == self.spec_ipv4_addr(),
            *self == (Endpoint::V4 { addr: a, port: self.spec_port() }),
    {
        match self {
            Endpoint::V4 { addr, .. } => *addr,
            Endpoint::V6 { .. } => 0,
        }
    }

    /// The port.
    pub open spec fn spec_port(&self) -> u16 {
        match *self {
            Endpoint::V4 { port, .. } => port,
            Endpoint::V6 { port, .. } => port,
        }
    }

    /// The port.
    #[verifier::when_used_as_spec(spec_port)]
    pub fn port(&self) -> (p: u16)
        ensures
            p == self.spec_port(),
    {
        match self {
            Endpoint::V4 { port, .. } => *port,
            Endpoint::V6 { port, .. } => *port,
        }
    }

    /// The integers by which this endpoint is ordered and found in a table.
    pub fn key(&self) -> (k: PeerKey)
        ensures
            k == key_of(*self),
            is_endpoint_key(k),
            endpoint_of(k) == Some(*self),
    {
        match self {
            Endpoint::V4 { addr, port } => (FAMILY_V4, *addr as u128, *port, 0u32, 0u32),
            Endpoint::V6 { addr, port, flowinfo, scope_id } => (
                FAMILY_V6,
                *addr,
                *port,
                *flowinfo,
                *scope_id,
            ),
        }
    }

    /// The endpoint that `key` stands for; `None` where no endpoint has it.
    pub fn from_key(key: PeerKey) -> (ep: Option<Endpoint>)
        ensures
            ep == endpoint_of(key),
            ep is Some <==> is_endpoint_key(key),
            ep is Some ==> key_of(ep->Some_0) == key,
    {
        if key.0 == FAMILY_V4 && key.1 <= 0xffff_ffff && key.3 == 0 && key.4 == 0 {
            Some(Endpoint::V4 { addr: key.1 as u32, port: key.2 })
        } else if key.0 == FAMILY_V6 {
            Some(Endpoint::V6 { addr: key.1, port: key.2, flowinfo: key.3, scope_id: key.4 })
        } else {
            None
        }
    }
}

/// Two endpoints have the same key exactly when they are the same endpoint.
pub proof fn lemma_key_injective(a: Endpoint, b: Endpoint)
    ensures
        key_of(a) == key_of(b) <==> a == b,
{
}

} // verus!
