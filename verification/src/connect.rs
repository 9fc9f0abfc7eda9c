//! The HTTP CONNECT handshake with the upstream proxy: the request that
//! opens a tunnel to a destination, and the test of the proxy's answer.

use crate::endpoint::{ipv4_octets, ipv4_octets_spec, Endpoint};
use vstd::prelude::*;
use vstd::string::*;

verus! {

/// The bytes of a text that is all ASCII.
pub open spec fn ascii(text: Seq<char>) -> Seq<u8> {
    Seq::new(text.len(), |i: int| text[i] as u8)
}

/// The decimal digits of `n`, without leading zeros.
pub open spec fn decimal(n: nat) -> Seq<u8>
    decreases n,
{
    if n < 10 {
        seq![(0x30 + n) as u8]
    } else {
        decimal(n / 10).push((0x30 + n % 10) as u8)
    }
}

/// An IPv4 address in dotted decimal.
pub open spec fn ipv4_text(addr: u32) -> Seq<u8> {
    let o = ipv4_octets_spec(addr);
    decimal(o[0] as nat) + ascii("."@) + decimal(o[1] as nat) + ascii("."@) + decimal(
        o[2] as nat,
    ) + ascii("."@) + decimal(o[3] as nat)
}

/// The bytes of an ASCII text.
fn text_bytes(text: &str) -> (bytes: &[u8])
    requires
        is_ascii(text),
    ensures
        bytes@ == ascii(text@),
{
    broadcast use is_ascii_spec_bytes;

    let bytes = text.as_bytes();
    assert(bytes@ =~= ascii(text@));
    bytes
}

/// Appends the bytes of an ASCII text.
fn push_text(out: &mut Vec<u8>, text: &str)
    requires
        is_ascii(text),
    ensures
        final(out)@ == old(out)@ + ascii(text@),
{
    let bytes = text_bytes(text);
    out.extend_from_slice(bytes);
    assert(out@ =~= old(out)@ + ascii(text@));
}

/// Appends the decimal digits of `n`.
fn push_decimal(out: &mut Vec<u8>, n: u32)
    ensures
        final(out)@ == old(out)@ + decimal(n as nat),
    decreases n,
{
    if n >= 10 {
        push_decimal(out, n / 10);
    }
    out.push(0x30u8 + (n % 10) as u8);
    assert(out@ =~= old(out)@ + decimal(n as nat));
}

/// Appends an IPv4 address in dotted decimal.
fn push_ipv4(out: &mut Vec<u8>, addr: u32)
    ensures
        final(out)@ == old(out)@ + ipv4_text(addr),
{
    proof {
        reveal_strlit(".");
    }
    let o: [u8; 4] = ipv4_octets(addr);
    push_decimal(out, o[0] as u32);
    push_text(out, ".");
    push_decimal(out, o[1] as u32);
    push_text(out, ".");
    push_decimal(out, o[2] as u32);
    push_text(out, ".");
    push_decimal(out, o[3] as u32);
    assert(out@ =~= old(out)@ + ipv4_text(addr));
}

/// The eight groups of sixteen bits of an IPv6 address, the first in front.
pub open spec fn segments(addr: u128) -> Seq<u16> {
    seq![
        (addr as nat / 0x1_0000_0000_0000_0000_0000_0000_0000 % 0x1_0000) as u16,
        (addr as nat / 0x1_0000_0000_0000_0000_0000_0000 % 0x1_0000) as u16,
        (addr as nat / 0x1_0000_0000_0000_0000_0000 % 0x1_0000) as u16,
        (addr as nat / 0x1_0000_0000_0000_0000 % 0x1_0000) as u16,
        (addr as nat / 0x1_0000_0000_0000 % 0x1_0000) as u16,
        (addr as nat / 0x1_0000_0000 % 0x1_0000) as u16,
        (addr as nat / 0x1_0000 % 0x1_0000) as u16,
        (addr as nat % 0x1_0000) as u16,
    ]
}

/// The hexadecimal digit of `d`, in lower case.
pub open spec fn hex_digit(d: nat) -> u8 {
    if d < 10 {
        (0x30 + d) as u8
    } else {
        (0x61 + d - 10) as u8
    }
}

/// The hexadecimal digits of `n`, in lower case and without leading zeros.
pub open spec fn hex(n: nat) -> Seq<u8>
    decreases n,
{
    if n < 16 {
        seq![hex_digit(n)]
    } else {
        hex(n / 16).push(hex_digit(n % 16))
    }
}

/// The groups in hexadecimal with a colon between every two.
pub open spec fn groups_text(groups: Seq<u16>) -> Seq<u8>
    decreases groups.len(),
{
    if groups.len() == 0 {
        Seq::empty()
    } else if groups.len() == 1 {
        hex(groups[0] as nat)
    } else {
        groups_text(groups.drop_last()) + ascii(":"@) + hex(groups.last() as nat)
    }
}

/// Whether the `len` groups from `start` on are all zero.
pub open spec fn zero_run(groups: Seq<u16>, start: int, len: int) -> bool {
    &&& 0 <= start
    &&& 0 <= len
    &&& start + len <= groups.len()
    &&& forall|i: int| start <= i < start + len ==> groups[i] == 0
}

/// Whether the `len` groups from `start` on are the longest run of zero
/// groups, and of the runs of that length the first.
pub open spec fn longest_zero_run(groups: Seq<u16>, start: int, len: int) -> bool {
    &&& zero_run(groups, start, len)
    &&& forall|s: int, l: int| #[trigger] zero_run(groups, s, l) ==> l <= len
    &&& forall|s: int| #[trigger] zero_run(groups, s, len) ==> start <= s
}

/// Whether the address carries an IPv4 address in its last thirty-two bits
/// behind the mark `::ffff:`.
pub open spec fn is_ipv4_mapped(addr: u128) -> bool {
    addr as nat / 0x1_0000_0000 == 0xffff
}

/// An IPv6 address as text. An address that carries an IPv4 address is
/// `::ffff:` and that address in dotted decimal. In any other, the longest
/// run of two or more zero groups (the first, where two are equally long)
/// shrinks to `::`; the other groups are written in hexadecimal with colons
/// between them.
pub open spec fn ipv6_text(addr: u128) -> Seq<u8> {
    let groups = segments(addr);
    if is_ipv4_mapped(addr) {
        ascii("::ffff:"@) + ipv4_text((addr as nat % 0x1_0000_0000) as u32)
    } else {
        let run = choose|run: (int, int)| longest_zero_run(groups, run.0, run.1);
        if run.1 > 1 {
            groups_text(groups.subrange(0, run.0)) + ascii("::"@) + groups_text(
                groups.subrange(run.0 + run.1, 8),
            )
        } else {
            groups_text(groups)
        }
    }
}

/// No two runs are both the longest and the first.
pub proof fn lemma_longest_zero_run_unique(groups: Seq<u16>, a: (int, int), b: (int, int))
    requires
        longest_zero_run(groups, a.0, a.1),
        longest_zero_run(groups, b.0, b.1),
    ensures
        a == b,
{
    assert(zero_run(groups, a.0, a.1));
    assert(zero_run(groups, b.0, b.1));
}

/// Appends the hexadecimal digits of `n`.
fn push_hex(out: &mut Vec<u8>, n: u16)
    ensures
        final(out)@ == old(out)@ + hex(n as nat),
    decreases n,
{
    if n >= 16 {
        push_hex(out, n / 16);
    }
    let d: u8 = (n % 16) as u8;
    if d < 10 {
        out.push(0x30u8 + d);
    } else {
        out.push(0x61u8 + (d - 10));
    }
    assert(out@ =~= old(out)@ + hex(n as nat));
}

/// Appends the groups from `from` up to `to` in hexadecimal with a colon
/// between every two.
fn push_groups(out: &mut Vec<u8>, groups: &[u16; 8], from: usize, to: usize)
    requires
        from <= to <= 8,
    ensures
        final(out)@ == old(out)@ + groups_text(groups@.subrange(from as int, to as int)),
{
    proof {
        reveal_strlit(":");
    }
    let mut i: usize = from;
    assert(groups@.subrange(from as int, from as int) =~= Seq::<u16>::empty());
    assert(out@ =~= old(out)@ + groups_text(groups@.subrange(from as int, i as int)));
    while i < to
        invariant
            from <= i <= to <= 8,
            is_ascii(":"),
            ":"@.len() == 1,
            out@ == old(out)@ + groups_text(groups@.subrange(from as int, i as int)),
        decreases to - i,
    {
        let ghost done = groups@.subrange(from as int, i as int);
        let ghost more = groups@.subrange(from as int, i + 1);
        if i > from {
            push_text(out, ":");
        }
        push_hex(out, groups[i]);
        i += 1;
        proof {
            assert(more.drop_last() =~= done);
            assert(more.last() == groups@[i - 1]);
            if done.len() == 0 {
                assert(groups_text(more) =~= hex(groups@[i - 1] as nat));
            } else {
                assert(groups_text(more) =~= groups_text(done) + ascii(":"@) + hex(
                    groups@[i - 1] as nat,
                ));
            }
            assert(out@ =~= old(out)@ + groups_text(more));
        }
    }
}

/// The eight groups of an IPv6 address.
fn split_groups(addr: u128) -> (groups: [u16; 8])
    ensures
        groups@ == segments(addr),
{
    let groups: [u16; 8] = [
        (addr / 0x1_0000_0000_0000_0000_0000_0000_0000 % 0x1_0000) as u16,
        (addr / 0x1_0000_0000_0000_0000_0000_0000 % 0x1_0000) as u16,
        (addr / 0x1_0000_0000_0000_0000_0000 % 0x1_0000) as u16,
        (addr / 0x1_0000_0000_0000_0000 % 0x1_0000) as u16,
        (addr / 0x1_0000_0000_0000 % 0x1_0000) as u16,
        (addr / 0x1_0000_0000 % 0x1_0000) as u16,
        (addr / 0x1_0000 % 0x1_0000) as u16,
        (addr % 0x1_0000) as u16,
    ];
    assert(groups@ =~= segments(addr));
    groups
}

/// Where the longest run of zero groups starts and how long it is.
fn find_zero_run(groups: &[u16; 8]) -> (run: (usize, usize))
    ensures
        longest_zero_run(groups@, run.0 as int, run.1 as int),
{
    let mut best_start: usize = 0;
    let mut best_len: usize = 0;
    let mut cur_start: usize = 0;
    let mut cur_len: usize = 0;
    let mut i: usize = 0;
    while i < 8
        invariant
            i <= 8,
            groups@.len() == 8,
            cur_start + cur_len == i,
            best_start + best_len <= i,
            cur_len <= best_len,
            forall|j: int| cur_start <= j < i ==> groups@[j] == 0,
            cur_start > 0 ==> groups@[cur_start - 1] != 0,
            forall|j: int| best_start <= j < best_start + best_len ==> groups@[j] == 0,
            forall|s: int, l: int|
                #[trigger] zero_run(groups@, s, l) && s + l <= i ==> l <= best_len,
            forall|s: int|
                #[trigger] zero_run(groups@, s, best_len as int) && s + best_len <= i
                    ==> best_start <= s,
        decreases 8 - i,
    {
        let ghost before_start = cur_start;
        let ghost before_best = best_len;
        let ghost before_best_start = best_start;
        if groups[i] == 0 {
            if cur_len == 0 {
                cur_start = i;
            }
            cur_len += 1;
            if cur_len > best_len {
                best_start = cur_start;
                best_len = cur_len;
            }
        } else {
            cur_start = i + 1;
            cur_len = 0;
        }
        i += 1;
        proof {
            assert forall|s: int, l: int| #[trigger]
                zero_run(groups@, s, l) && s + l <= i implies l <= best_len by {
                if s + l == i && l > 0 {
                    if groups@[i - 1] != 0 {
                        assert(groups@[i - 1] == 0);
                    } else if s < cur_start {
                        assert(groups@[cur_start - 1] == 0);
                    }
                } else if l > 0 {
                    assert(zero_run(groups@, s, l) && s + l <= i - 1);
                }
            }
            assert forall|s: int| #[trigger]
                zero_run(groups@, s, best_len as int) && s + best_len <= i implies best_start
                <= s by {
                if best_len > 0 {
                    if s + best_len == i {
                        if groups@[i - 1] != 0 {
                            assert(groups@[i - 1] == 0);
                        } else if s < cur_start {
                            assert(groups@[cur_start - 1] == 0);
                        }
                    } else {
                        assert(zero_run(groups@, s, best_len as int) && s + best_len <= i - 1);
                        if before_best < best_len {
                            assert(best_len as int <= before_best);
                        }
                    }
                }
            }
        }
    }
    (best_start, best_len)
}

/// Appends an IPv6 address as text.
fn push_ipv6(out: &mut Vec<u8>, addr: u128)
    ensures
        final(out)@ == old(out)@ + ipv6_text(addr),
{
    proof {
        reveal_strlit("::ffff:");
        reveal_strlit("::");
    }
    if addr / 0x1_0000_0000 == 0xffff {
        push_text(out, "::ffff:");
        push_ipv4(out, (addr % 0x1_0000_0000) as u32);
        assert(out@ =~= old(out)@ + ipv6_text(addr));
    } else {
        let groups = split_groups(addr);
        let (start, len) = find_zero_run(&groups);
        proof {
            let run = choose|run: (int, int)| longest_zero_run(groups@, run.0, run.1);
            assert(longest_zero_run(groups@, (start as int, len as int).0, (start as int, len as int).1));
            lemma_longest_zero_run_unique(groups@, run, (start as int, len as int));
        }
        if len > 1 {
            push_groups(out, &groups, 0, start);
            push_text(out, "::");
            push_groups(out, &groups, start + len, 8);
        } else {
            push_groups(out, &groups, 0, 8);
            assert(groups@.subrange(0, 8) =~= groups@);
        }
        assert(out@ =~= old(out)@ + ipv6_text(addr));
    }
}

/// The most bytes of the proxy's answer that are read.
pub const CONNECT_RESPONSE_LIMIT: usize = 1024;

/// The address of an endpoint as text.
pub open spec fn host_text(target: Endpoint) -> Seq<u8> {
    match target {
        Endpoint::V4 { addr, .. } => ipv4_text(addr),
        Endpoint::V6 { addr, .. } => ipv6_text(addr),
    }
}

/// An endpoint as the request names it: the address, a colon, the port.
pub open spec fn authority(target: Endpoint) -> Seq<u8> {
    host_text(target) + ascii(":"@) + decimal(target.spec_port() as nat)
}

/// The request that asks the proxy for a tunnel to `target`.
pub open spec fn connect_request_bytes(target: Endpoint) -> Seq<u8> {
    ascii("CONNECT "@) + authority(target) + ascii(" HTTP/1.1\r\nHost: "@) + authority(target)
        + ascii("\r\n\r\n"@)
}

/// What the answer of a proxy that has opened the tunnel begins with.
pub open spec fn accepted_prefix() -> Seq<u8> {
    ascii("HTTP/1.1 200"@)
}

/// Whether an answer says that the tunnel is open.
pub open spec fn is_accepted(response: Seq<u8>) -> bool {
    response.len() >= accepted_prefix().len() && response.subrange(
        0,
        accepted_prefix().len() as int,
    ) == accepted_prefix()
}

/// Appends an endpoint as the request names it.
fn push_authority(out: &mut Vec<u8>, target: &Endpoint)
    ensures
        final(out)@ == old(out)@ + authority(*target),
{
    proof {
        reveal_strlit(":");
    }
    match target {
        Endpoint::V4 { addr, .. } => push_ipv4(out, *addr),
        Endpoint::V6 { addr, .. } => push_ipv6(out, *addr),
    }
    push_text(out, ":");
    push_decimal(out, target.port() as u32);
    assert(out@ =~= old(out)@ + authority(*target));
}

/// The bytes to write to the proxy to ask for a tunnel to `target`.
pub fn connect_request(target: &Endpoint) -> (request: Vec<u8>)
    ensures
        request@ == connect_request_bytes(*target),
{
    proof {
        reveal_strlit("CONNECT ");
        reveal_strlit(" HTTP/1.1\r\nHost: ");
        reveal_strlit("\r\n\r\n");
    }
    let mut request: Vec<u8> = Vec::new();
    push_text(&mut request, "CONNECT ");
    push_authority(&mut request, target);
    push_text(&mut request, " HTTP/1.1\r\nHost: ");
    push_authority(&mut request, target);
    push_text(&mut request, "\r\n\r\n");
    assert(request@ =~= connect_request_bytes(*target));
    request
}

/// Whether the first bytes that the proxy answered say that the tunnel is
/// open. An answer of fewer than twelve bytes never does.
pub fn connect_accepted(response: &[u8]) -> (ok: bool)
    ensures
        ok == is_accepted(response@),
        response@.len() < 12 ==> !ok,
{
    proof {
        reveal_strlit("HTTP/1.1 200");
    }
    let prefix = text_bytes("HTTP/1.1 200");
    if response.len() < prefix.len() {
        return false;
    }
    let mut i: usize = 0;
    while i < prefix.len()
        invariant
            i <= prefix@.len() <= response@.len(),
            prefix@ == accepted_prefix(),
            forall|j: int| 0 <= j < i ==> response@[j] == prefix@[j],
        decreases prefix@.len() - i,
    {
        if response[i] != prefix[i] {
            assert(response@.subrange(0, prefix@.len() as int)[i as int] != prefix@[i as int]);
            return false;
        }
        i += 1;
    }
    assert(response@.subrange(0, prefix@.len() as int) =~= prefix@);
    true
}

} // verus!
