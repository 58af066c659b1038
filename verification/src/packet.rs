//! Fixed-offset views into a raw IPv4 packet buffer.
//!
//! A packet is a plain byte sequence; the accessors below read the header
//! fields the forwarding loops care about directly at their wire offsets,
//! so no separate header structure is ever allocated.

use vstd::prelude::*;

verus! {

/// IPv4 protocol number of TCP.
pub const TCP: u8 = 6;

/// An IPv4 address as its four dotted-decimal octets.
#[derive(Clone, Copy, PartialEq, Eq, Structural, Debug)]
pub struct Ipv4Addr {
    pub o0: u8,
    pub o1: u8,
    pub o2: u8,
    pub o3: u8,
}

/// The four octets of an address, in wire order.
pub open spec fn addr_seq(a: Ipv4Addr) -> Seq<u8> {
    seq![a.o0, a.o1, a.o2, a.o3]
}

/// Header length in bytes encoded by the IHL nibble (low nibble of byte 0,
/// counted in 32-bit words).
pub open spec fn ihl_of(s: Seq<u8>) -> int {
    ((s[0] as int) % 16) * 4
}

/// Protocol field, byte 9.
pub open spec fn proto_of(s: Seq<u8>) -> u8 {
    s[9]
}

/// Time-to-live field, byte 8.
pub open spec fn ttl_of(s: Seq<u8>) -> u8 {
    s[8]
}

/// Source address field, bytes 12..16.
pub open spec fn src_of(s: Seq<u8>) -> Seq<u8> {
    s.subrange(12, 16)
}

/// Destination address field, bytes 16..20.
pub open spec fn dst_of(s: Seq<u8>) -> Seq<u8> {
    s.subrange(16, 20)
}

/// Destination address field, as an address value.
pub open spec fn dst_addr_of(s: Seq<u8>) -> Ipv4Addr {
    Ipv4Addr { o0: s[16], o1: s[17], o2: s[18], o3: s[19] }
}

/// Header length in bytes: IHL nibble times four.
pub fn get_ihl(buf: &[u8]) -> (ihl: u8)
    requires
        buf@.len() >= 1,
    ensures
        ihl == ihl_of(buf@),
        ihl <= 60,
{
    let b = buf[0];
    proof {
        assert((b & 0x0F) == b % 16 && b % 16 <= 15) by (bit_vector);
    }
    (b & 0x0F) * 4
}

/// Protocol number of the datagram's payload.
pub fn get_proto(buf: &[u8]) -> (p: u8)
    requires
        buf@.len() >= 10,
    ensures
        p == proto_of(buf@),
{
    buf[9]
}

/// Source address, read from bytes 12..16.
pub fn get_src_addr(buf: &[u8]) -> (a: Ipv4Addr)
    requires
        buf@.len() >= 20,
    ensures
        addr_seq(a) == src_of(buf@),
{
    let a = Ipv4Addr { o0: buf[12], o1: buf[13], o2: buf[14], o3: buf[15] };
    proof {
        assert(addr_seq(a) =~= src_of(buf@));
    }
    a
}

/// Destination address, read from bytes 16..20.
pub fn get_dst_addr(buf: &[u8]) -> (a: Ipv4Addr)
    requires
        buf@.len() >= 20,
    ensures
        a == dst_addr_of(buf@),
        addr_seq(a) == dst_of(buf@),
{
    let a = Ipv4Addr { o0: buf[16], o1: buf[17], o2: buf[18], o3: buf[19] };
    proof {
        assert(addr_seq(a) =~= dst_of(buf@));
    }
    a
}

} // verus!
