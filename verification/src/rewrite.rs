//! In-place packet rewriting: source address substitution, TTL decrement
//! and checksum repair.
//!
//! `rewrite_spec` is the mathematical statement of the whole
//! transformation; `modify_packet` performs it on the buffer and is proved
//! to produce exactly that sequence.  Malformed buffers (header length
//! checks fail) are left byte-for-byte untouched — the caller drops or
//! forwards them unchanged, and no error propagates.

use vstd::prelude::*;

use crate::checksum::checksum_ip4;
use crate::checksum::checksum_of;
use crate::checksum::checksum_tcp4;
use crate::checksum::fold_carry;
use crate::checksum::lemma_checksum_inverts;
use crate::checksum::lemma_fold_carry_bounds;
use crate::checksum::lemma_sum_words_nonneg;
use crate::checksum::pseudo_sum;
use crate::checksum::sum_words;
use crate::checksum::tcp_checksum_of;
use crate::packet::Ipv4Addr;
use crate::packet::TCP;
use crate::packet::dst_of;
use crate::packet::get_ihl;
use crate::packet::get_proto;
use crate::packet::ihl_of;
use crate::packet::proto_of;
use crate::packet::src_of;
use crate::packet::ttl_of;
use crate::packet::addr_seq;
use vstd::slice::slice_subrange;

verus! {

/// A buffer passes the rewriter's header validation: the IHL-encoded
/// header length is at least the 20-byte minimum and fits in the buffer,
/// and for TCP a minimum TCP header fits behind it.
pub open spec fn rewrite_valid(s: Seq<u8>) -> bool {
    &&& 20 <= ihl_of(s) <= s.len()
    &&& (proto_of(s) == TCP ==> ihl_of(s) + 20 <= s.len())
}

/// TTL after one rewrite pass: decremented, floored at 1 (conservative
/// clamp policy — no wraparound, no expiry).
pub open spec fn clamp_ttl(t: u8) -> u8 {
    if t > 1 {
        (t - 1) as u8
    } else {
        1
    }
}

/// The TCP checksum field (16 bytes past the IP header), recomputed over
/// the segment with the field itself zeroed, under the given address pair.
pub open spec fn patch_tcp_checksum(s: Seq<u8>, src: Ipv4Addr, dst: Ipv4Addr) -> Seq<u8> {
    let ihl = ihl_of(s);
    let z = s.update(ihl + 16, 0u8).update(ihl + 17, 0u8);
    let c = tcp_checksum_of(z.subrange(ihl, z.len() as int), src, dst);
    z.update(ihl + 16, (c / 256) as u8).update(ihl + 17, (c % 256) as u8)
}

/// The source address field overwritten with `a`.
pub open spec fn set_src_addr(s: Seq<u8>, a: Ipv4Addr) -> Seq<u8> {
    s.update(12, a.o0).update(13, a.o1).update(14, a.o2).update(15, a.o3)
}

/// The IP header checksum field, recomputed over the IHL-determined
/// header with the field itself zeroed.
pub open spec fn patch_ip_checksum(s: Seq<u8>) -> Seq<u8> {
    let ihl = ihl_of(s);
    let z = s.update(10, 0u8).update(11, 0u8);
    let c = checksum_of(z.subrange(0, ihl));
    z.update(10, (c / 256) as u8).update(11, (c % 256) as u8)
}

/// The complete rewrite: for a malformed buffer, the identity; otherwise
/// the TCP checksum patch (TCP only), the TTL clamp, the source address
/// substitution, and last the IP header checksum patch.
pub open spec fn rewrite_spec(s: Seq<u8>, src: Ipv4Addr, dst: Ipv4Addr) -> Seq<u8> {
    if !rewrite_valid(s) {
        s
    } else {
        let s1 = if proto_of(s) == TCP {
            patch_tcp_checksum(s, src, dst)
        } else {
            s
        };
        let s2 = s1.update(8, clamp_ttl(ttl_of(s)));
        let s3 = set_src_addr(s2, src);
        patch_ip_checksum(s3)
    }
}

/// A rewritten packet's IP header checksum-verifies: summing all the
/// header words of the result, checksum field included, folds to 0xFFFF —
/// the receiver-side validity invariant of the one's-complement checksum.
pub proof fn lemma_rewrite_ip_checksum_verifies(s: Seq<u8>, src: Ipv4Addr, dst: Ipv4Addr)
    requires
        rewrite_valid(s),
    ensures
        ({
            let r = rewrite_spec(s, src, dst);
            fold_carry(sum_words(r.subrange(0, ihl_of(s)))) == 0xFFFF
        }),
{
    let ihl = ihl_of(s);
    let s1 = if proto_of(s) == TCP {
        patch_tcp_checksum(s, src, dst)
    } else {
        s
    };
    let s3 = set_src_addr(s1.update(8, clamp_ttl(ttl_of(s))), src);
    assert(ihl_of(s3) == ihl);
    let z = s3.update(10, 0u8).update(11, 0u8);
    let hz = z.subrange(0, ihl);
    let c = checksum_of(hz);
    let r = rewrite_spec(s, src, dst);
    assert(r == z.update(10, (c / 256) as u8).update(11, (c % 256) as u8));
    assert(hz[10] == 0 && hz[11] == 0);
    lemma_checksum_inverts(0, hz, 10);
    let hp = hz.update(10, (c / 256) as u8).update(11, (c % 256) as u8);
    assert(r.subrange(0, ihl) =~= hp);
}

/// A rewritten TCP packet's TCP checksum verifies: the pseudo-header sum
/// under the new source address and the packet's destination address,
/// plus the word sum of the final segment (checksum field included),
/// folds to 0xFFFF.
pub proof fn lemma_rewrite_tcp_checksum_verifies(s: Seq<u8>, src: Ipv4Addr, dst: Ipv4Addr)
    requires
        rewrite_valid(s),
        proto_of(s) == TCP,
    ensures
        ({
            let r = rewrite_spec(s, src, dst);
            let seg = r.subrange(ihl_of(s), r.len() as int);
            fold_carry(pseudo_sum(src, dst, seg.len() as int) + sum_words(seg)) == 0xFFFF
        }),
{
    let ihl = ihl_of(s);
    let z = s.update(ihl + 16, 0u8).update(ihl + 17, 0u8);
    let segz = z.subrange(ihl, z.len() as int);
    let c = tcp_checksum_of(segz, src, dst);
    let s1 = patch_tcp_checksum(s, src, dst);
    assert(s1 == z.update(ihl + 16, (c / 256) as u8).update(ihl + 17, (c % 256) as u8));
    assert(segz[16] == 0 && segz[17] == 0);
    lemma_checksum_inverts(pseudo_sum(src, dst, segz.len() as int), segz, 16);
    let segp = segz.update(16, (c / 256) as u8).update(17, (c % 256) as u8);
    assert(s1.subrange(ihl, s1.len() as int) =~= segp);

    // the later header edits (TTL, source address, IP checksum) all lie
    // below offset 20 <= ihl, so the segment of the final result is the
    // patched segment
    let r = rewrite_spec(s, src, dst);
    assert(r.len() == s.len());
    assert(r.subrange(ihl, r.len() as int) =~= s1.subrange(ihl, s1.len() as int));
}

/// Rewrite the packet in place: recompute the TCP checksum under the new
/// source address (TCP only), decrement the TTL (floored at 1), overwrite
/// the source address, and recompute the IP header checksum.  A buffer
/// that fails header validation is left untouched.
pub fn modify_packet(buf: &mut Vec<u8>, src_ip: Ipv4Addr, dst_ip: Ipv4Addr)
    requires
        old(buf)@.len() <= 0xFFFF,
    ensures
        final(buf)@ == rewrite_spec(old(buf)@, src_ip, dst_ip),
        final(buf)@.len() == old(buf)@.len(),
        !rewrite_valid(old(buf)@) ==> final(buf)@ == old(buf)@,
        rewrite_valid(old(buf)@) ==> {
            &&& ttl_of(final(buf)@) == clamp_ttl(ttl_of(old(buf)@))
            &&& src_of(final(buf)@) == addr_seq(src_ip)
            &&& dst_of(final(buf)@) == dst_of(old(buf)@)
            &&& ihl_of(final(buf)@) == ihl_of(old(buf)@)
            &&& proto_of(final(buf)@) == proto_of(old(buf)@)
        },
{
    let ghost s = buf@;
    if buf.len() < 20 {
        assert(!rewrite_valid(s));
        return ;
    }
    let ihl_byte = get_ihl(buf.as_slice());
    let ihl = ihl_byte as usize;
    if ihl > buf.len() || ihl < 20 {
        assert(!rewrite_valid(s));
        return ;
    }

    // TCP: validate the segment length, then recompute the checksum over
    // the zeroed field with the pseudo-header of the new address pair
    if get_proto(buf.as_slice()) == TCP {
        if ihl + 20 > buf.len() {
            assert(!rewrite_valid(s));
            return ;
        }
        let coff = ihl + 16;
        buf[coff] = 0;
        buf[coff + 1] = 0;
        let ghost z = s.update(coff as int, 0u8).update(coff as int + 1, 0u8);
        assert(buf@ == z);
        let seg = slice_subrange(buf.as_slice(), ihl, buf.len());
        let cv = checksum_tcp4(seg, src_ip, dst_ip);
        proof {
            lemma_sum_words_nonneg(seg@, 0);
            lemma_fold_carry_bounds(
                pseudo_sum(src_ip, dst_ip, seg@.len() as int) + sum_words(seg@),
            );
            assert(cv >> 8 == cv / 256 && cv & 0xFF == cv % 256) by (bit_vector);
        }
        buf[coff] = (cv >> 8) as u8;
        buf[coff + 1] = (cv & 0xFF) as u8;
        assert(buf@ == patch_tcp_checksum(s, src_ip, dst_ip));
    }
    let ghost s1 = buf@;

    // decrement TTL, floored at 1
    let ttl = buf[8];
    if ttl > 1 {
        buf[8] = ttl - 1;
    } else {
        buf[8] = 1;
    }
    assert(buf@ == s1.update(8, clamp_ttl(ttl_of(s))));

    // overwrite the source address
    buf[12] = src_ip.o0;
    buf[13] = src_ip.o1;
    buf[14] = src_ip.o2;
    buf[15] = src_ip.o3;
    let ghost s3 = set_src_addr(s1.update(8, clamp_ttl(ttl_of(s))), src_ip);
    assert(buf@ == s3);

    // recompute the IP header checksum over the zeroed field
    buf[10] = 0;
    buf[11] = 0;
    let ghost z2 = s3.update(10, 0u8).update(11, 0u8);
    assert(buf@ == z2);
    assert(ihl_of(s3) == ihl_of(s));
    let hdr = slice_subrange(buf.as_slice(), 0, ihl);
    let cv2 = checksum_ip4(hdr);
    proof {
        lemma_sum_words_nonneg(hdr@, 0);
        lemma_fold_carry_bounds(sum_words(hdr@));
        assert(cv2 >> 8 == cv2 / 256 && cv2 & 0xFF == cv2 % 256) by (bit_vector);
    }
    buf[10] = (cv2 >> 8) as u8;
    buf[11] = (cv2 & 0xFF) as u8;
    assert(buf@ == patch_ip_checksum(s3));
    assert(buf@ == rewrite_spec(s, src_ip, dst_ip));

    proof {
        let r = buf@;
        assert(src_of(r) =~= addr_seq(src_ip));
        assert(dst_of(r) =~= dst_of(s));
    }
}

} // verus!
