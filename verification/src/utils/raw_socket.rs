//! The UDP-in-IPv4 datagram that is handed to a raw socket, so that return
//! traffic reaches the client wearing the address it first wrote to.

use crate::endpoint::{ipv4_octets, ipv4_octets_spec, Endpoint};
use vstd::prelude::*;
use vstd::slice::slice_subrange;

verus! {

/// Bytes of the IPv4 header that is written: no options.
pub const IP_HEADER_LEN: usize = 20;

/// Bytes of the UDP header.
pub const UDP_HEADER_LEN: usize = 8;

/// Bytes in front of the payload.
pub const HEADER_LEN: usize = 28;

/// Version 4, header length 5 words.
pub const IPV4_VERSION_IHL: u8 = 0x45;

/// Hops a synthesized datagram may take.
pub const DEFAULT_TTL: u8 = 64;

/// The IP protocol number of UDP.
pub const IPPROTO_UDP: u8 = crate::redir::IPPROTO_UDP;

/// The largest payload that fits an Ethernet frame with both headers.
pub const MAX_UNFRAGMENTED_PAYLOAD: usize = 1472;

/// The order in which a machine lays out the bytes of a number.
#[derive(Clone, Copy, Debug, PartialEq, Eq, Structural)]
pub enum ByteOrder {
    Little,
    Big,
}

/// The two bytes of `v`, most significant first.
pub open spec fn be16(v: u16) -> Seq<u8> {
    seq![(v as nat / 0x100) as u8, (v as nat % 0x100) as u8]
}

/// The two bytes of `v` in the given order.
pub open spec fn u16_wire(order: ByteOrder, v: u16) -> Seq<u8> {
    match order {
        ByteOrder::Big => be16(v),
        ByteOrder::Little => seq![(v as nat % 0x100) as u8, (v as nat / 0x100) as u8],
    }
}

/// The number whose more significant byte is `hi`.
pub open spec fn u16_of(hi: u8, lo: u8) -> u16 {
    (hi as nat * 0x100 + lo as nat) as u16
}

/// The number that two bytes in the given order stand for.
pub open spec fn u16_read(order: ByteOrder, b0: u8, b1: u8) -> u16 {
    match order {
        ByteOrder::Big => u16_of(b0, b1),
        ByteOrder::Little => u16_of(b1, b0),
    }
}

/// The number whose big-endian bytes are the four given.
pub open spec fn u32_of(b0: u8, b1: u8, b2: u8, b3: u8) -> u32 {
    (b0 as nat * 0x100_0000 + b1 as nat * 0x1_0000 + b2 as nat * 0x100 + b3 as nat) as u32
}

/// `n` zero bytes.
pub open spec fn zeros(n: nat) -> Seq<u8> {
    Seq::new(n, |i: int| 0u8)
}

/// The fields of an IPv4 header without options, each as the number it means.
#[derive(Clone, Copy, Debug, PartialEq, Eq, Structural)]
pub struct IpHeader {
    pub ver_ihl: u8,
    pub tos: u8,
    pub tot_len: u16,
    pub id: u16,
    pub frag_off: u16,
    pub ttl: u8,
    pub protocol: u8,
    pub check: u16,
    pub saddr: u32,
    pub daddr: u32,
}

/// The fields of a UDP header, each as the number it means.
#[derive(Clone, Copy, Debug, PartialEq, Eq, Structural)]
pub struct UdpHeader {
    pub sport: u16,
    pub dport: u16,
    pub len: u16,
    pub check: u16,
}

impl IpHeader {
    /// The twenty bytes of the header. The total length is laid out in
    /// `order`, the order of the sending host; every other field most
    /// significant byte first.
    pub open spec fn wire(self, order: ByteOrder) -> Seq<u8> {
        seq![self.ver_ihl, self.tos] + u16_wire(order, self.tot_len) + be16(self.id) + be16(
            self.frag_off,
        ) + seq![self.ttl, self.protocol] + be16(self.check) + ipv4_octets_spec(self.saddr)
            + ipv4_octets_spec(self.daddr)
    }

    /// The header that the first twenty bytes of `b` stand for.
    pub open spec fn read(order: ByteOrder, b: Seq<u8>) -> IpHeader
        recommends
            b.len() >= IP_HEADER_LEN,
    {
        IpHeader {
            ver_ihl: b[0],
            tos: b[1],
            tot_len: u16_read(order, b[2], b[3]),
            id: u16_of(b[4], b[5]),
            frag_off: u16_of(b[6], b[7]),
            ttl: b[8],
            protocol: b[9],
            check: u16_of(b[10], b[11]),
            saddr: u32_of(b[12], b[13], b[14], b[15]),
            daddr: u32_of(b[16], b[17], b[18], b[19]),
        }
    }
}

impl UdpHeader {
    /// The eight bytes of the header, every field most significant byte first.
    pub open spec fn wire(self) -> Seq<u8> {
        be16(self.sport) + be16(self.dport) + be16(self.len) + be16(self.check)
    }

    /// The header that the first eight bytes of `b` stand for.
    pub open spec fn read(b: Seq<u8>) -> UdpHeader
        recommends
            b.len() >= UDP_HEADER_LEN,
    {
        UdpHeader {
            sport: u16_of(b[0], b[1]),
            dport: u16_of(b[2], b[3]),
            len: u16_of(b[4], b[5]),
            check: u16_of(b[6], b[7]),
        }
    }
}

/// Reading the two bytes of a number in the order they were written in gives
/// the number back.
pub proof fn lemma_u16_roundtrip(order: ByteOrder, v: u16)
    ensures
        u16_wire(order, v).len() == 2,
        u16_read(order, u16_wire(order, v)[0], u16_wire(order, v)[1]) == v,
        u16_of(be16(v)[0], be16(v)[1]) == v,
{
}

/// Reading the four bytes of an address gives the address back.
pub proof fn lemma_u32_roundtrip(v: u32)
    ensures
        ipv4_octets_spec(v).len() == 4,
        u32_of(
            ipv4_octets_spec(v)[0],
            ipv4_octets_spec(v)[1],
            ipv4_octets_spec(v)[2],
            ipv4_octets_spec(v)[3],
        ) == v,
{
}

/// A header that is written and read in the same byte order is unchanged.
pub proof fn lemma_ip_header_roundtrip(order: ByteOrder, h: IpHeader, rest: Seq<u8>)
    ensures
        h.wire(order).len() == IP_HEADER_LEN,
        IpHeader::read(order, h.wire(order) + rest) == h,
{
    lemma_u16_roundtrip(order, h.tot_len);
    lemma_u16_roundtrip(order, h.id);
    lemma_u16_roundtrip(order, h.frag_off);
    lemma_u16_roundtrip(order, h.check);
    lemma_u32_roundtrip(h.saddr);
    lemma_u32_roundtrip(h.daddr);
}

/// A UDP header that is written and read is unchanged.
pub proof fn lemma_udp_header_roundtrip(h: UdpHeader, rest: Seq<u8>)
    ensures
        h.wire().len() == UDP_HEADER_LEN,
        UdpHeader::read(h.wire() + rest) == h,
{
    lemma_u16_roundtrip(ByteOrder::Big, h.sport);
    lemma_u16_roundtrip(ByteOrder::Big, h.dport);
    lemma_u16_roundtrip(ByteOrder::Big, h.len);
    lemma_u16_roundtrip(ByteOrder::Big, h.check);
}

/// The two bytes at `at` and `at + 1`, read most significant byte first.
fn read_be16(data: &Vec<u8>, at: usize) -> (v: u16)
    requires
        at + 1 < data.len(),
    ensures
        v == u16_of(data@[at as int], data@[at + 1]),
{
    (data[at] as u16) * 0x100 + (data[at + 1] as u16)
}

/// The two bytes at `at` and `at + 1`, read in the given order.
fn read_u16(data: &Vec<u8>, at: usize, order: ByteOrder) -> (v: u16)
    requires
        at + 1 < data.len(),
    ensures
        v == u16_read(order, data@[at as int], data@[at + 1]),
{
    match order {
        ByteOrder::Big => (data[at] as u16) * 0x100 + (data[at + 1] as u16),
        ByteOrder::Little => (data[at + 1] as u16) * 0x100 + (data[at] as u16),
    }
}

/// The four bytes from `at` on, read most significant byte first.
fn read_be32(data: &Vec<u8>, at: usize) -> (v: u32)
    requires
        at + 3 < data.len(),
    ensures
        v == u32_of(data@[at as int], data@[at + 1], data@[at + 2], data@[at + 3]),
{
    (data[at] as u32) * 0x100_0000 + (data[at + 1] as u32) * 0x1_0000 + (data[at + 2] as u32)
        * 0x100 + (data[at + 3] as u32)
}

/// Appends the two bytes of `v` in the given order.
fn push_u16(out: &mut Vec<u8>, order: ByteOrder, v: u16)
    ensures
        final(out)@ == old(out)@ + u16_wire(order, v),
{
    let hi: u8 = (v / 0x100) as u8;
    let lo: u8 = (v % 0x100) as u8;
    match order {
        ByteOrder::Big => {
            out.push(hi);
            out.push(lo);
        },
        ByteOrder::Little => {
            out.push(lo);
            out.push(hi);
        },
    }
    assert(out@ =~= old(out)@ + u16_wire(order, v));
}

/// Appends the four bytes of `v`, most significant first.
fn push_be32(out: &mut Vec<u8>, v: u32)
    ensures
        final(out)@ == old(out)@ + ipv4_octets_spec(v),
{
    let b: [u8; 4] = ipv4_octets(v);
    out.push(b[0]);
    out.push(b[1]);
    out.push(b[2]);
    out.push(b[3]);
    assert(out@ =~= old(out)@ + ipv4_octets_spec(v));
}

impl IpHeader {
    /// Appends the twenty bytes of the header to `out`.
    pub fn encode(&self, order: ByteOrder, out: &mut Vec<u8>)
        ensures
            final(out)@ == old(out)@ + self.wire(order),
            self.wire(order).len() == IP_HEADER_LEN,
    {
        out.push(self.ver_ihl);
        out.push(self.tos);
        assert(out@ =~= old(out)@ + seq![self.ver_ihl, self.tos]);
        push_u16(out, order, self.tot_len);
        push_u16(out, ByteOrder::Big, self.id);
        push_u16(out, ByteOrder::Big, self.frag_off);
        let ghost mid = out@;
        out.push(self.ttl);
        out.push(self.protocol);
        assert(out@ =~= mid + seq![self.ttl, self.protocol]);
        push_u16(out, ByteOrder::Big, self.check);
        push_be32(out, self.saddr);
        push_be32(out, self.daddr);
        assert(out@ =~= old(out)@ + self.wire(order));
    }
}

impl UdpHeader {
    /// Appends the eight bytes of the header to `out`.
    pub fn encode(&self, out: &mut Vec<u8>)
        ensures
            final(out)@ == old(out)@ + self.wire(),
            self.wire().len() == UDP_HEADER_LEN,
    {
        push_u16(out, ByteOrder::Big, self.sport);
        push_u16(out, ByteOrder::Big, self.dport);
        push_u16(out, ByteOrder::Big, self.len);
        push_u16(out, ByteOrder::Big, self.check);
        assert(out@ =~= old(out)@ + self.wire());
    }
}

/// Appends a copy of `bytes`.
fn push_bytes(out: &mut Vec<u8>, bytes: &[u8])
    ensures
        final(out)@ == old(out)@ + bytes@,
{
    out.extend_from_slice(bytes);
    assert(out@ =~= old(out)@ + bytes@);
}

/// One datagram in one buffer: an IPv4 header, a UDP header, the payload.
pub struct Packet {
    data: Vec<u8>,
}

impl View for Packet {
    type V = Seq<u8>;

    closed spec fn view(&self) -> Seq<u8> {
        self.data@
    }
}

impl Packet {
    #[verifier::type_invariant]
    spec fn has_headers(&self) -> bool {
        self.data@.len() >= HEADER_LEN
    }

    /// A packet with `buf` as its payload behind headers that are all zero.
    pub fn new(buf: &[u8]) -> (p: Packet)
        requires
            buf@.len() + HEADER_LEN <= usize::MAX,
        ensures
            p@ == zeros(HEADER_LEN as nat) + buf@,
    {
        let mut data: Vec<u8> = Vec::with_capacity(HEADER_LEN + buf.len());
        let mut i: usize = 0;
        while i < HEADER_LEN
            invariant
                i <= HEADER_LEN,
                data@ == zeros(i as nat),
            decreases HEADER_LEN - i,
        {
            data.push(0u8);
            i += 1;
            assert(data@ =~= zeros(i as nat));
        }
        push_bytes(&mut data, buf);
        Packet { data }
    }

    /// Bytes in the packet, headers included.
    pub fn len(&self) -> (n: usize)
        ensures
            n == self@.len(),
            n >= HEADER_LEN,
    {
        proof {
            use_type_invariant(self);
        }
        self.data.len()
    }

    /// The packet as it goes to the socket.
    pub fn as_bytes(&self) -> (b: &[u8])
        ensures
            b@ == self@,
            b@.len() >= HEADER_LEN,
    {
        proof {
            use_type_invariant(self);
        }
        self.data.as_slice()
    }

    /// What follows the two headers.
    pub fn payload(&self) -> (out: &[u8])
        ensures
            out@ == self@.subrange(HEADER_LEN as int, self@.len() as int),
    {
        proof {
            use_type_invariant(self);
        }
        slice_subrange(self.data.as_slice(), HEADER_LEN, self.data.len())
    }

    /// The two headers as the packet holds them, the IPv4 total length read
    /// in `order`.
    pub fn as_headers(&self, order: ByteOrder) -> (h: (IpHeader, UdpHeader))
        ensures
            h.0 == IpHeader::read(order, self@),
            h.1 == UdpHeader::read(self@.subrange(IP_HEADER_LEN as int, HEADER_LEN as int)),
    {
        proof {
            use_type_invariant(self);
        }
        let d = &self.data;
        let ip = IpHeader {
            ver_ihl: d[0],
            tos: d[1],
            tot_len: read_u16(d, 2, order),
            id: read_be16(d, 4),
            frag_off: read_be16(d, 6),
            ttl: d[8],
            protocol: d[9],
            check: read_be16(d, 10),
            saddr: read_be32(d, 12),
            daddr: read_be32(d, 16),
        };
        let udp = UdpHeader {
            sport: read_be16(d, 20),
            dport: read_be16(d, 22),
            len: read_be16(d, 24),
            check: read_be16(d, 26),
        };
        (ip, udp)
    }

    /// A packet of the two headers and `payload`, in one buffer.
    pub fn assemble(order: ByteOrder, ip: &IpHeader, udp: &UdpHeader, payload: &[u8]) -> (p:
        Packet)
        requires
            payload@.len() + HEADER_LEN <= usize::MAX,
        ensures
            p@ == ip.wire(order) + udp.wire() + payload@,
    {
        let mut data: Vec<u8> = Vec::with_capacity(HEADER_LEN + payload.len());
        ip.encode(order, &mut data);
        udp.encode(&mut data);
        push_bytes(&mut data, payload);
        assert(data@ =~= ip.wire(order) + udp.wire() + payload@);
        Packet { data }
    }

    /// The packet with the two headers overwritten and the payload as it was.
    pub fn with_headers(self, order: ByteOrder, ip: &IpHeader, udp: &UdpHeader) -> (p: Packet)
        ensures
            p@ == ip.wire(order) + udp.wire() + self@.subrange(
                HEADER_LEN as int,
                self@.len() as int,
            ),
    {
        proof {
            use_type_invariant(&self);
        }
        let len: usize = self.data.len();
        let payload = self.payload();
        assert(payload@.len() + HEADER_LEN == len);
        Packet::assemble(order, ip, udp, payload)
    }
}

/// Bytes of the socket address that names the receiver to the kernel.
pub const SOCKADDR_IN_LEN: u32 = 16;

/// What one `sendto` on the raw socket takes: the packet, its length, and
/// the receiver's IPv4 address as one big-endian number.
pub struct SendParam {
    pub len: usize,
    pub addr: u32,
    pub addrlen: u32,
    pub packet: Packet,
}

/// The IPv4 header of a datagram from `src` to `dst` with `n` bytes of
/// payload. Identification, fragment offset and checksum stay zero; the total
/// length is the whole size as far as sixteen bits hold it.
pub open spec fn ip_header_for(src: Endpoint, dst: Endpoint, n: nat) -> IpHeader {
    IpHeader {
        ver_ihl: IPV4_VERSION_IHL,
        tos: 0,
        tot_len: ((HEADER_LEN + n) % 0x1_0000) as u16,
        id: 0,
        frag_off: 0,
        ttl: DEFAULT_TTL,
        protocol: IPPROTO_UDP,
        check: 0,
        saddr: src.spec_ipv4_addr(),
        daddr: dst.spec_ipv4_addr(),
    }
}

/// The UDP header of a datagram from `src` to `dst` with `n` bytes of
/// payload. The checksum stays zero, which switches it off.
pub open spec fn udp_header_for(src: Endpoint, dst: Endpoint, n: nat) -> UdpHeader {
    UdpHeader {
        sport: src.spec_port(),
        dport: dst.spec_port(),
        len: ((UDP_HEADER_LEN + n) % 0x1_0000) as u16,
        check: 0,
    }
}

/// The bytes of the datagram that carries `payload` from `src` to `dst`,
/// built on a host of the given byte order.
pub open spec fn datagram(order: ByteOrder, src: Endpoint, dst: Endpoint, payload: Seq<u8>) -> Seq<
    u8,
> {
    ip_header_for(src, dst, payload.len()).wire(order) + udp_header_for(
        src,
        dst,
        payload.len(),
    ).wire() + payload
}

/// `u16::to_ne_bytes`: the two bytes of `v` as this machine lays them out,
/// which is one of the two orders.
#[verifier::external_body]
fn native_bytes(v: u16) -> (b: [u8; 2])
    ensures
        b@ == u16_wire(ByteOrder::Little, v) || b@ == u16_wire(ByteOrder::Big, v),
{
    v.to_ne_bytes()
}

/// The byte order of the machine that runs this.
pub fn host_byte_order() -> ByteOrder {
    let b: [u8; 2] = native_bytes(1);
    if b[0] == 1 {
        ByteOrder::Little
    } else {
        ByteOrder::Big
    }
}

/// Builds the datagram that carries `buf` from `src_addr` to `dst_addr`, for
/// a host of byte order `order`.
pub fn build_packet_in(order: ByteOrder, src_addr: Endpoint, dst_addr: Endpoint, buf: &[u8]) -> (param:
    SendParam)
    requires
        src_addr is V4,
        dst_addr is V4,
        buf@.len() + HEADER_LEN <= usize::MAX,
    ensures
        param.packet@ == datagram(order, src_addr, dst_addr, buf@),
        param.len == HEADER_LEN + buf@.len(),
        param.addr == dst_addr.spec_ipv4_addr(),
        param.addrlen == SOCKADDR_IN_LEN,
{
    let src_ip: u32 = src_addr.ipv4_addr();
    let dst_ip: u32 = dst_addr.ipv4_addr();
    let src_port: u16 = src_addr.port();
    let dst_port: u16 = dst_addr.port();
    let udp_header = UdpHeader {
        sport: src_port,
        dport: dst_port,
        len: ((UDP_HEADER_LEN + buf.len()) % 0x1_0000) as u16,
        check: 0,
    };
    let ip_header = IpHeader {
        ver_ihl: IPV4_VERSION_IHL,
        tos: 0,
        tot_len: ((HEADER_LEN + buf.len()) % 0x1_0000) as u16,
        id: 0,
        frag_off: 0,
        ttl: DEFAULT_TTL,
        protocol: IPPROTO_UDP,
        check: 0,
        saddr: src_ip,
        daddr: dst_ip,
    };
    let packet = Packet::assemble(order, &ip_header, &udp_header, buf);
    SendParam { len: packet.len(), addr: dst_ip, addrlen: SOCKADDR_IN_LEN, packet }
}

/// Builds the datagram that carries `buf` from `src_addr` to `dst_addr`, the
/// IPv4 total length in this machine's own byte order.
pub fn build_packet(src_addr: Endpoint, dst_addr: Endpoint, buf: &[u8]) -> (param: SendParam)
    requires
        src_addr is V4,
        dst_addr is V4,
        buf@.len() + HEADER_LEN <= usize::MAX,
    ensures
        param.packet@ == datagram(ByteOrder::Little, src_addr, dst_addr, buf@) || param.packet@
            == datagram(ByteOrder::Big, src_addr, dst_addr, buf@),
        param.len == HEADER_LEN + buf@.len(),
        param.addr == dst_addr.spec_ipv4_addr(),
        param.addrlen == SOCKADDR_IN_LEN,
{
    build_packet_in(host_byte_order(), src_addr, dst_addr, buf)
}

/// A datagram read back gives what it was built from: both addresses, both
/// ports and the payload, and every other field as it was written.
pub proof fn lemma_datagram_roundtrip(
    order: ByteOrder,
    src: Endpoint,
    dst: Endpoint,
    payload: Seq<u8>,
)
    requires
        src is V4,
        dst is V4,
    ensures
        ({
            let d = datagram(order, src, dst, payload);
            let ip = IpHeader::read(order, d);
            let udp = UdpHeader::read(d.subrange(IP_HEADER_LEN as int, HEADER_LEN as int));
            &&& d.len() == HEADER_LEN + payload.len()
            &&& ip == ip_header_for(src, dst, payload.len())
            &&& udp == udp_header_for(src, dst, payload.len())
            &&& src == (Endpoint::V4 { addr: ip.saddr, port: udp.sport })
            &&& dst == (Endpoint::V4 { addr: ip.daddr, port: udp.dport })
            &&& d.subrange(HEADER_LEN as int, d.len() as int) == payload
        }),
{
    let d = datagram(order, src, dst, payload);
    let ip = ip_header_for(src, dst, payload.len());
    let udp = udp_header_for(src, dst, payload.len());
    lemma_ip_header_roundtrip(order, ip, udp.wire() + payload);
    lemma_udp_header_roundtrip(udp, Seq::<u8>::empty());
    assert(d =~= ip.wire(order) + (udp.wire() + payload));
    assert(d.subrange(IP_HEADER_LEN as int, HEADER_LEN as int) =~= udp.wire() + Seq::<u8>::empty());
    assert(d.subrange(HEADER_LEN as int, d.len() as int) =~= payload);
}

/// A datagram is twenty bytes of IPv4 header, eight of UDP header, then the
/// payload.
pub proof fn lemma_datagram_layout(
    order: ByteOrder,
    src: Endpoint,
    dst: Endpoint,
    payload: Seq<u8>,
)
    ensures
        datagram(order, src, dst, payload).len() == 20 + 8 + payload.len(),
        datagram(order, src, dst, payload).subrange(0, 20) == ip_header_for(
            src,
            dst,
            payload.len(),
        ).wire(order),
        datagram(order, src, dst, payload).subrange(20, 28) == udp_header_for(
            src,
            dst,
            payload.len(),
        ).wire(),
        datagram(order, src, dst, payload).subrange(28, 28 + payload.len() as int) == payload,
{
    let ip = ip_header_for(src, dst, payload.len());
    let udp = udp_header_for(src, dst, payload.len());
    lemma_ip_header_roundtrip(order, ip, Seq::<u8>::empty());
    lemma_udp_header_roundtrip(udp, Seq::<u8>::empty());
    lemma_concat3_parts(ip.wire(order), udp.wire(), payload);
}

/// Where the whole datagram fits sixteen bits, its IPv4 total length is the
/// size of the whole, `20 + 8 + len(payload)`, and its UDP length the size of
/// what follows the IPv4 header, `8 + len(payload)`.
pub proof fn lemma_datagram_lengths(
    order: ByteOrder,
    src: Endpoint,
    dst: Endpoint,
    payload: Seq<u8>,
)
    requires
        src is V4,
        dst is V4,
        HEADER_LEN + payload.len() <= 0xffff,
    ensures
        IpHeader::read(order, datagram(order, src, dst, payload)).tot_len == 20 + 8
            + payload.len(),
        UdpHeader::read(datagram(order, src, dst, payload).subrange(20, 28)).len == 8
            + payload.len(),
{
    lemma_datagram_roundtrip(order, src, dst, payload);
    lemma_header_lengths(src, dst, payload.len());
}

/// The length fields of the headers of a datagram that fits sixteen bits.
proof fn lemma_header_lengths(src: Endpoint, dst: Endpoint, n: nat)
    requires
        HEADER_LEN + n <= 0xffff,
    ensures
        ip_header_for(src, dst, n).tot_len == 28 + n,
        udp_header_for(src, dst, n).len == 8 + n,
{
}

/// The three parts of a sequence that was put together from three.
proof fn lemma_concat3_parts(a: Seq<u8>, b: Seq<u8>, c: Seq<u8>)
    ensures
        (a + b + c).len() == a.len() + b.len() + c.len(),
        (a + b + c).subrange(0, a.len() as int) == a,
        (a + b + c).subrange(a.len() as int, (a.len() + b.len()) as int) == b,
        (a + b + c).subrange((a.len() + b.len()) as int, (a.len() + b.len() + c.len()) as int)
            == c,
{
    let n: int = a.len() as int;
    let m: int = n + b.len();
    let k: int = m + c.len();
    assert((a + b + c).subrange(0, n) =~= a);
    assert((a + b + c).subrange(n, m) =~= b);
    assert((a + b + c).subrange(m, k) =~= c);
}

/// Whether a payload of `len` bytes is too long to leave in one frame. Such a
/// datagram is still sent, unfragmented, and the network may drop it.
pub fn exceeds_mtu(len: usize) -> (b: bool)
    ensures
        b == (len > MAX_UNFRAGMENTED_PAYLOAD),
{
    len > MAX_UNFRAGMENTED_PAYLOAD
}

/// A send that is ready for the socket, and whether the caller should warn
/// that the payload is longer than one frame holds.
pub struct SendPlan {
    pub oversize: bool,
    pub param: SendParam,
}

/// The first half of a raw send: the datagram is built whatever the length of
/// `buf`, and `oversize` says whether it is past what one frame holds.
pub fn prepare_send(order: ByteOrder, src_addr: Endpoint, dst_addr: Endpoint, buf: &[u8]) -> (plan:
    SendPlan)
    requires
        src_addr is V4,
        dst_addr is V4,
        buf@.len() + HEADER_LEN <= usize::MAX,
    ensures
        plan.oversize == (buf@.len() > MAX_UNFRAGMENTED_PAYLOAD),
        plan.param.packet@ == datagram(order, src_addr, dst_addr, buf@),
        plan.param.len == HEADER_LEN + buf@.len(),
        plan.param.addr == dst_addr.spec_ipv4_addr(),
        plan.param.addrlen == SOCKADDR_IN_LEN,
{
    let oversize = exceeds_mtu(buf.len());
    let param = build_packet_in(order, src_addr, dst_addr, buf);
    SendPlan { oversize, param }
}

/// What to do after one `sendto` on the raw socket.
#[derive(Clone, Copy, Debug, PartialEq, Eq, Structural)]
pub enum SendStep {
    /// The kernel took the datagram: so many bytes of payload went out.
    Sent(usize),
    /// The socket was not ready: wait until it is writable and send again.
    Retry,
    /// The kernel refused the datagram: report the error.
    Failed,
}

/// The bytes of payload among `n` bytes that the kernel took.
pub open spec fn payload_sent(n: int) -> int {
    if n >= HEADER_LEN {
        n - HEADER_LEN
    } else {
        0
    }
}

/// The second half of a raw send. `ret` is what `sendto` returned and
/// `would_block` whether its error was that the socket is not ready.
pub fn after_sendto(ret: isize, would_block: bool) -> (step: SendStep)
    ensures
        ret >= 0 ==> step == SendStep::Sent(payload_sent(ret as int) as usize),
        ret < 0 && would_block ==> step == SendStep::Retry,
        ret < 0 && !would_block ==> step == SendStep::Failed,
{
    if ret < 0 {
        if would_block {
            SendStep::Retry
        } else {
            SendStep::Failed
        }
    } else {
        let n: usize = ret as usize;
        if n >= HEADER_LEN {
            SendStep::Sent(n - HEADER_LEN)
        } else {
            SendStep::Sent(0)
        }
    }
}

} // verus!
