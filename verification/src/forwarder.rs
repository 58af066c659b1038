//! Per-packet decisions of the two directional forwarding loops.
//!
//! The outgoing loop (enclave to host) pulls an intercepted packet from
//! the queue endpoint, rewrites its source address unless it already
//! carries the configured local address, sends the buffer over the
//! transport and drops the intercepted original.  The incoming loop
//! reads framed packets off the transport and delivers to the TUN device
//! only those addressed to the configured local address.  Everything
//! here is the pure part; the blocking I/O around it hands buffers in
//! and takes the decisions back.

use vstd::prelude::*;

use crate::packet::Ipv4Addr;
use crate::packet::addr_seq;
use crate::packet::dst_addr_of;
use crate::packet::dst_of;
use crate::packet::get_dst_addr;
use crate::packet::get_src_addr;
use crate::packet::src_of;
use crate::rewrite::modify_packet;
use crate::rewrite::rewrite_spec;

verus! {

/// Equal addresses have equal octet sequences, and conversely.
proof fn lemma_addr_seq_injective(a: Ipv4Addr, b: Ipv4Addr)
    ensures
        (a == b) <==> (addr_seq(a) == addr_seq(b)),
{
    if addr_seq(a) == addr_seq(b) {
        assert(a.o0 == addr_seq(b)[0] && a.o1 == addr_seq(b)[1] && a.o2 == addr_seq(b)[2]
            && a.o3 == addr_seq(b)[3]);
    }
}

/// One outgoing iteration's packet work: if the packet's source address
/// already equals the configured local address the buffer is left
/// byte-for-byte untouched and no rewrite runs; otherwise it is rewritten
/// in place toward its own destination address.  Returns whether the
/// rewrite ran.
pub fn outgoing_step(buf: &mut Vec<u8>, local_addr: Ipv4Addr) -> (rewritten: bool)
    requires
        old(buf)@.len() >= 20,
        old(buf)@.len() <= 0xFFFF,
    ensures
        rewritten == (src_of(old(buf)@) != addr_seq(local_addr)),
        !rewritten ==> final(buf)@ == old(buf)@,
        rewritten ==> final(buf)@ == rewrite_spec(
            old(buf)@,
            local_addr,
            dst_addr_of(old(buf)@),
        ),
        final(buf)@.len() == old(buf)@.len(),
{
    let src = get_src_addr(buf.as_slice());
    proof {
        lemma_addr_seq_injective(src, local_addr);
    }
    if src == local_addr {
        false
    } else {
        let dst = get_dst_addr(buf.as_slice());
        modify_packet(buf, local_addr, dst);
        true
    }
}

/// The incoming filter: deliver the packet to the TUN device only when
/// its destination address equals the configured local address; any
/// other packet is discarded as part of normal operation.
pub fn incoming_deliver(buf: &[u8], local_addr: Ipv4Addr) -> (deliver: bool)
    requires
        buf@.len() >= 20,
    ensures
        deliver == (dst_of(buf@) == addr_seq(local_addr)),
{
    let dst = get_dst_addr(buf);
    proof {
        lemma_addr_seq_injective(dst, local_addr);
    }
    dst == local_addr
}

} // verus!
