//! Internet checksum engine (RFC 1071).
//!
//! Both checksums sum the data as 16-bit big-endian words (a trailing lone
//! byte acts as the high byte of a final word), fold the carries back into
//! the low 16 bits, and return the one's complement.  The TCP variant seeds
//! the sum with the pseudo-header words: source address, destination
//! address, the TCP protocol number and the segment length.
//!
//! The key algebraic fact, proved here, is that writing the computed
//! checksum back into a word-aligned field that was zero during the
//! computation makes the whole data sum fold to 0xFFFF — the receiver-side
//! validity invariant of the one's-complement checksum.

use vstd::prelude::*;

use crate::packet::Ipv4Addr;
use crate::packet::TCP;

verus! {

/// Sum of the 16-bit big-endian words of `s[i..]`, as a mathematical
/// integer, for even offsets `i` into the word grid starting at 0.
/// A trailing lone byte is the high byte of its word.
pub open spec fn sum_words_from(s: Seq<u8>, i: int) -> int
    decreases s.len() - i,
{
    if i < 0 || i >= s.len() {
        0
    } else if i + 1 == s.len() {
        (s[i] as int) * 256
    } else {
        (s[i] as int) * 256 + (s[i + 1] as int) + sum_words_from(s, i + 2)
    }
}

/// Sum of all 16-bit big-endian words of `s`.
pub open spec fn sum_words(s: Seq<u8>) -> int {
    sum_words_from(s, 0)
}

/// End-around carry folding: add the high bits back into the low 16 bits
/// until the value fits in 16 bits.
pub open spec fn fold_carry(x: int) -> int
    decreases x,
{
    if x <= 0xFFFF {
        x
    } else {
        fold_carry(x % 0x10000 + x / 0x10000)
    }
}

/// The IP-style checksum of a byte sequence: one's complement of the
/// folded word sum.
pub open spec fn checksum_of(s: Seq<u8>) -> int {
    0xFFFF - fold_carry(sum_words(s))
}

/// The pseudo-header contribution to the TCP checksum: the two address
/// words of each of source and destination, the protocol number, and the
/// TCP segment length.
pub open spec fn pseudo_sum(src: Ipv4Addr, dst: Ipv4Addr, seg_len: int) -> int {
    (src.o0 as int) * 256 + (src.o1 as int) + (src.o2 as int) * 256 + (src.o3 as int)
        + (dst.o0 as int) * 256 + (dst.o1 as int) + (dst.o2 as int) * 256 + (dst.o3 as int)
        + (TCP as int) + seg_len
}

/// The TCP checksum of a segment under a given address pair: one's
/// complement of the folded pseudo-header-seeded word sum.
pub open spec fn tcp_checksum_of(seg: Seq<u8>, src: Ipv4Addr, dst: Ipv4Addr) -> int {
    0xFFFF - fold_carry(pseudo_sum(src, dst, seg.len() as int) + sum_words(seg))
}

/// Word sums are non-negative.
pub proof fn lemma_sum_words_nonneg(s: Seq<u8>, i: int)
    ensures
        sum_words_from(s, i) >= 0,
    decreases s.len() - i,
{
    if i < 0 || i >= s.len() {
    } else if i + 1 == s.len() {
    } else {
        lemma_sum_words_nonneg(s, i + 2);
    }
}

/// Word sums are bounded by 0xFF00 per byte.
pub proof fn lemma_sum_words_bound(s: Seq<u8>, i: int)
    requires
        0 <= i <= s.len(),
    ensures
        sum_words_from(s, i) <= (s.len() - i) * 0xFF00,
    decreases s.len() - i,
{
    if i >= s.len() {
    } else if i + 1 == s.len() {
    } else {
        lemma_sum_words_bound(s, i + 2);
    }
}

/// Folding lands in [0, 0xFFFF] and never folds a positive sum to zero.
pub proof fn lemma_fold_carry_bounds(x: int)
    requires
        x >= 0,
    ensures
        0 <= fold_carry(x) <= 0xFFFF,
        x > 0 ==> fold_carry(x) > 0,
    decreases x,
{
    if x > 0xFFFF {
        lemma_fold_carry_bounds(x % 0x10000 + x / 0x10000);
    }
}

/// Folding subtracts a non-negative multiple of 0xFFFF: the folded value
/// is congruent to the original modulo 0xFFFF.  Returns the multiple.
pub proof fn lemma_fold_carry_congruent(x: int) -> (k: int)
    requires
        x >= 0,
    ensures
        k >= 0,
        x == fold_carry(x) + 0xFFFF * k,
    decreases x,
{
    if x <= 0xFFFF {
        assert(x == fold_carry(x) + 0xFFFF * 0);
        0
    } else {
        let y = x % 0x10000 + x / 0x10000;
        let k0 = lemma_fold_carry_congruent(y);
        assert(x == 0x10000 * (x / 0x10000) + x % 0x10000) by {
            vstd::arithmetic::div_mod::lemma_fundamental_div_mod(x, 0x10000);
        }
        assert(x == y + 0xFFFF * (x / 0x10000));
        assert(x == fold_carry(y) + 0xFFFF * (k0 + x / 0x10000)) by {
            assert(0xFFFF * k0 + 0xFFFF * (x / 0x10000) == 0xFFFF * (k0 + x / 0x10000))
                by (nonlinear_arith);
        }
        k0 + x / 0x10000
    }
}

/// A positive multiple of 0xFFFF folds to exactly 0xFFFF.
pub proof fn lemma_fold_carry_multiple(m: int)
    requires
        m >= 1,
    ensures
        fold_carry(0xFFFF * m) == 0xFFFF,
{
    let x = 0xFFFF * m;
    assert(x >= 0xFFFF) by (nonlinear_arith)
        requires m >= 1, x == 0xFFFF * m;
    lemma_fold_carry_bounds(x);
    let k = lemma_fold_carry_congruent(x);
    assert(fold_carry(x) == 0xFFFF * (m - k)) by {
        assert(0xFFFF * m - 0xFFFF * k == 0xFFFF * (m - k)) by (nonlinear_arith);
    }
    let d = m - k;
    assert(0xFFFF * d > 0);
    assert(d >= 1) by (nonlinear_arith)
        requires 0xFFFF * d > 0;
    assert(0xFFFF * d <= 0xFFFF);
    assert(d <= 1) by (nonlinear_arith)
        requires 0xFFFF * d <= 0xFFFF;
}

/// Updating the two bytes of the word at even offset `j` changes the word
/// sum by exactly that word's difference.
pub proof fn lemma_sum_words_update2(s: Seq<u8>, i: int, j: int, a: u8, b: u8)
    requires
        i >= 0,
        i % 2 == 0,
        j % 2 == 0,
        0 <= j,
        j + 1 < s.len(),
    ensures
        sum_words_from(s.update(j, a).update(j + 1, b), i) == sum_words_from(s, i) + if j >= i {
            (a as int) * 256 + (b as int) - (s[j] as int) * 256 - (s[j + 1] as int)
        } else {
            0
        },
    decreases s.len() - i,
{
    let t = s.update(j, a).update(j + 1, b);
    assert(t.len() == s.len());
    if i >= s.len() {
    } else if i + 1 == s.len() {
        // a lone trailing byte cannot be the updated word, whose low byte
        // would lie past the end
        assert(j != i);
        assert(t[i] == s[i]);
    } else {
        lemma_sum_words_update2(s, i + 2, j, a, b);
        if j == i {
            assert(t[i] == a && t[i + 1] == b);
        } else {
            // i and j are both even, so an untouched word shares no byte
            // with the updated one
            assert(j != i && j != i + 1 && j + 1 != i + 1);
            assert(t[i] == s[i] && t[i + 1] == s[i + 1]);
        }
    }
}

/// The checksum inversion law: take any non-negative seed plus the word
/// sum of `s`, with the word at even offset `j` zeroed; write the
/// one's-complement checksum of that sum back into the word at `j`; then
/// the seeded word sum of the patched bytes folds to 0xFFFF.
pub proof fn lemma_checksum_inverts(base: int, s: Seq<u8>, j: int)
    requires
        base >= 0,
        j % 2 == 0,
        0 <= j,
        j + 1 < s.len(),
        s[j] == 0,
        s[j + 1] == 0,
    ensures
        ({
            let c = 0xFFFF - fold_carry(base + sum_words(s));
            fold_carry(
                base + sum_words(s.update(j, (c / 256) as u8).update(j + 1, (c % 256) as u8)),
            ) == 0xFFFF
        }),
{
    lemma_sum_words_nonneg(s, 0);
    let s0 = base + sum_words(s);
    lemma_fold_carry_bounds(s0);
    let c = 0xFFFF - fold_carry(s0);
    assert(0 <= c <= 0xFFFF);
    let hi = (c / 256) as u8;
    let lo = (c % 256) as u8;
    assert((hi as int) * 256 + (lo as int) == c) by {
        vstd::arithmetic::div_mod::lemma_fundamental_div_mod(c, 256);
    }
    lemma_sum_words_update2(s, 0, j, hi, lo);
    let t = s.update(j, hi).update(j + 1, lo);
    assert(sum_words(t) == sum_words(s) + c);
    let k = lemma_fold_carry_congruent(s0);
    assert(base + sum_words(t) == s0 + c == 0xFFFF * k + 0xFFFF);
    assert(0xFFFF * k + 0xFFFF == 0xFFFF * (k + 1)) by (nonlinear_arith);
    lemma_fold_carry_multiple(k + 1);
}

/// Validity invariant of the IP header checksum: for a header of any
/// length of at least the 20-byte minimum whose checksum field (bytes
/// 10..12) is zero, patching the computed checksum back in makes the sum
/// of all header words, checksum field included, fold to 0xFFFF.
pub proof fn lemma_ip_checksum_verifies(h: Seq<u8>)
    requires
        h.len() >= 20,
        h[10] == 0,
        h[11] == 0,
    ensures
        ({
            let c = checksum_of(h);
            fold_carry(sum_words(h.update(10, (c / 256) as u8).update(11, (c % 256) as u8)))
                == 0xFFFF
        }),
{
    lemma_checksum_inverts(0, h, 10);
}

/// Validity invariant of the TCP checksum: for a segment whose checksum
/// field (bytes 16..18) is zero, patching the computed checksum back in
/// makes the pseudo-header sum plus the sum of all segment words fold to
/// 0xFFFF.
pub proof fn lemma_tcp_checksum_verifies(seg: Seq<u8>, src: Ipv4Addr, dst: Ipv4Addr)
    requires
        seg.len() >= 20,
        seg[16] == 0,
        seg[17] == 0,
    ensures
        ({
            let c = tcp_checksum_of(seg, src, dst);
            fold_carry(
                pseudo_sum(src, dst, seg.len() as int) + sum_words(
                    seg.update(16, (c / 256) as u8).update(17, (c % 256) as u8),
                ),
            ) == 0xFFFF
        }),
{
    lemma_checksum_inverts(pseudo_sum(src, dst, seg.len() as int), seg, 16);
}

/// Internet checksum over a byte range (RFC 1071): fold the sum of the
/// 16-bit big-endian words and return its one's complement.  Used over
/// exactly the IHL-determined IPv4 header.
pub fn checksum_ip4(data: &[u8]) -> (r: u16)
    requires
        data@.len() <= 0xFFFF,
    ensures
        r == checksum_of(data@),
{
    let mut sum: u64 = 0;
    let mut i: usize = 0;
    let n = data.len();
    proof {
        lemma_sum_words_nonneg(data@, 0);
        lemma_sum_words_bound(data@, 0);
    }
    while i < n
        invariant
            n == data@.len() <= 0xFFFF,
            0 <= i <= n,
            sum_words_from(data@, i as int) >= 0,
            sum + sum_words_from(data@, i as int) == sum_words(data@),
            sum_words(data@) <= 0xFFFF_FFFF,
        decreases n - i,
    {
        proof {
            lemma_sum_words_nonneg(data@, i as int + 2);
        }
        let word: u64 = if i + 1 < n {
            (data[i] as u64) * 256 + (data[i + 1] as u64)
        } else {
            (data[i] as u64) * 256
        };
        sum = sum + word;
        i = if i + 1 < n {
            i + 2
        } else {
            i + 1
        };
    }
    fold_and_complement(sum)
}

/// Fold the carries of a running checksum sum and return the one's
/// complement of the 16-bit result.
fn fold_and_complement(sum: u64) -> (r: u16)
    ensures
        r == 0xFFFF - fold_carry(sum as int),
{
    let mut s = sum;
    while s > 0xFFFF
        invariant
            fold_carry(s as int) == fold_carry(sum as int),
            s >= 0,
        decreases s,
    {
        s = s % 0x10000 + s / 0x10000;
    }
    proof {
        lemma_fold_carry_bounds(sum as int);
    }
    0xFFFF - (s as u16)
}

/// TCP checksum over a segment (RFC 1071 folding over the pseudo-header
/// followed by the TCP header and payload).  The segment's own checksum
/// field must already be zero in `tcp_segment`, or the result is wrong.
pub fn checksum_tcp4(tcp_segment: &[u8], src_ip: Ipv4Addr, dst_ip: Ipv4Addr) -> (r: u16)
    requires
        tcp_segment@.len() <= 0xFFFF,
    ensures
        r == tcp_checksum_of(tcp_segment@, src_ip, dst_ip),
{
    let mut sum: u64 = 0;

    // pseudo-header: addresses, protocol, segment length
    sum = sum + (src_ip.o0 as u64) * 256 + (src_ip.o1 as u64);
    sum = sum + (src_ip.o2 as u64) * 256 + (src_ip.o3 as u64);
    sum = sum + (dst_ip.o0 as u64) * 256 + (dst_ip.o1 as u64);
    sum = sum + (dst_ip.o2 as u64) * 256 + (dst_ip.o3 as u64);
    sum = sum + (TCP as u64);
    sum = sum + (tcp_segment.len() as u64);
    assert(sum == pseudo_sum(src_ip, dst_ip, tcp_segment@.len() as int));

    let mut i: usize = 0;
    let n = tcp_segment.len();
    let ghost base = pseudo_sum(src_ip, dst_ip, tcp_segment@.len() as int);
    proof {
        lemma_sum_words_nonneg(tcp_segment@, 0);
        lemma_sum_words_bound(tcp_segment@, 0);
    }
    while i < n
        invariant
            n == tcp_segment@.len() <= 0xFFFF,
            0 <= i <= n,
            base == pseudo_sum(src_ip, dst_ip, n as int),
            0 <= base <= 0x60000,
            sum_words_from(tcp_segment@, i as int) >= 0,
            sum + sum_words_from(tcp_segment@, i as int) == base + sum_words(tcp_segment@),
            sum_words(tcp_segment@) <= 0xFFFF_FFFF,
        decreases n - i,
    {
        proof {
            lemma_sum_words_nonneg(tcp_segment@, i as int + 2);
        }
        let word: u64 = if i + 1 < n {
            (tcp_segment[i] as u64) * 256 + (tcp_segment[i + 1] as u64)
        } else {
            (tcp_segment[i] as u64) * 256
        };
        sum = sum + word;
        i = if i + 1 < n {
            i + 2
        } else {
            i + 1
        };
    }
    fold_and_complement(sum)
}

} // verus!
