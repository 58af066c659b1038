//! Wire framing over the byte-stream transport.
//!
//! The stream carries raw IPv4 datagrams back to back with no added
//! envelope: the receiver reads a 4-byte prefix, reinterprets bytes 2..4
//! as the IPv4 header's own big-endian Total-Length field to learn the
//! datagram length, then reads the rest.  The protocol's native length
//! field is the only delimiter, which ties this framing to the IPv4
//! header layout.

use vstd::prelude::*;

verus! {

/// The IPv4 Total-Length field: bytes 2..4, big-endian.
pub open spec fn total_len_of(s: Seq<u8>) -> int {
    (s[2] as int) * 256 + (s[3] as int)
}

/// Read the Total-Length field from the 4-byte frame prefix.
pub fn frame_total_len(prefix: &[u8]) -> (n: u16)
    requires
        prefix@.len() >= 4,
    ensures
        n == total_len_of(prefix@),
{
    (prefix[2] as u16) * 256 + (prefix[3] as u16)
}

/// Framing round trip: a packet whose Total-Length field equals its
/// buffer length, written as-is to the stream, is exactly recovered by
/// the receive path — the length learned from the first 4 bytes of the
/// stream delimits precisely the packet, whatever follows it.
pub proof fn lemma_frame_round_trip(p: Seq<u8>, rest: Seq<u8>)
    requires
        p.len() >= 4,
        total_len_of(p) == p.len(),
    ensures
        ({
            let stream = p + rest;
            let n = total_len_of(stream.subrange(0, 4));
            n == p.len() && stream.subrange(0, n) == p
        }),
{
    let stream = p + rest;
    assert(stream.subrange(0, 4)[2] == p[2] && stream.subrange(0, 4)[3] == p[3]);
    let n = total_len_of(stream.subrange(0, 4));
    assert(stream.subrange(0, n) =~= p);
}

} // verus!
