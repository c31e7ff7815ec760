//! The one's-complement Internet checksum (RFC 793 / RFC 1071) over an IPv4
//! pseudo-header followed by the bytes of a transport-layer segment.
//!
//! The segment is summed as a sequence of 16-bit big-endian words (an odd
//! trailing byte is padded with a zero low byte), the 96-bit pseudo-header
//! (source address, destination address, zero byte, protocol number, segment
//! length) is added, carries are folded back in, and the result is
//! complemented.  A received segment is valid exactly when the checksum
//! computed over its bytes as received (checksum field included) is zero.

use vstd::prelude::*;
use vstd::arithmetic::div_mod::{lemma_fundamental_div_mod, lemma_mod_multiples_vanish};
use crate::bytes::{be16_at, be16_put};

verus! {

/// An IPv4 address, held as its 32-bit big-endian numeric value.
///
/// Only the four octets are needed here (for the checksum pseudo-header), so
/// the address is modelled as a plain 32-bit value.
#[derive(Clone, Copy, Debug, PartialEq, Eq, Structural)]
pub struct Ipv4Addr {
    bits: u32,
}

impl View for Ipv4Addr {
    type V = u32;

    closed spec fn view(&self) -> u32 {
        self.bits
    }
}

impl Ipv4Addr {
    /// Builds an address from its four dotted-quad octets, highest first.
    pub fn new(a: u8, b: u8, c: u8, d: u8) -> (r: Ipv4Addr)
        ensures
            r@ == a as int * 0x1000000 + b as int * 0x10000 + c as int * 0x100 + d as int,
    {
        Ipv4Addr { bits: a as u32 * 0x1000000 + b as u32 * 0x10000 + c as u32 * 0x100 + d as u32 }
    }
}

/// The transport protocols this checksum engine knows the protocol number of.
#[derive(Clone, Copy, Debug, PartialEq, Eq, Structural)]
pub enum ChecksumProto {
    /// TCP, protocol number 6.
    Tcp,
}

/// The protocol number that goes into the pseudo-header.
pub open spec fn spec_protocol_number(proto: ChecksumProto) -> u8 {
    match proto {
        ChecksumProto::Tcp => 6,
    }
}

/// The 16-bit word formed by bytes `2*i` and `2*i + 1` of `b`; an odd
/// trailing byte is padded with a zero low byte.
pub open spec fn word_at(b: Seq<u8>, i: int) -> int {
    if 2 * i + 1 < b.len() {
        b[2 * i] as int * 256 + b[2 * i + 1] as int
    } else if 2 * i < b.len() {
        b[2 * i] as int * 256
    } else {
        0
    }
}

/// How many 16-bit words `b` holds, the padded odd tail included.
pub open spec fn num_words(b: Seq<u8>) -> int {
    (b.len() + 1) as int / 2
}

/// The plain sum of the first `n` words of `b`.
pub open spec fn words_sum(b: Seq<u8>, n: int) -> int
    decreases n,
{
    if n <= 0 {
        0
    } else {
        words_sum(b, n - 1) + word_at(b, n - 1)
    }
}

/// The plain sum of all the 16-bit words of `b`.
pub open spec fn segment_sum(b: Seq<u8>) -> int {
    words_sum(b, num_words(b))
}

/// The sum of the pseudo-header words: both addresses split into two 16-bit
/// halves, the zero-extended protocol number, and the segment length.
pub open spec fn pseudo_header_sum(src: u32, dst: u32, proto: u8, len: int) -> int {
    src as int / 0x10000 + src as int % 0x10000 + dst as int / 0x10000 + dst as int % 0x10000
        + proto as int + len
}

/// One round of end-around carry folding.
pub open spec fn fold_step(x: int) -> int {
    x / 0x10000 + x % 0x10000
}

/// The checksum of segment bytes `b` between addresses `src` and `dst`:
/// the one's complement of the twice-folded total sum.  Two folding rounds
/// reduce any sum below 2^32 to 16 bits.
pub open spec fn checksum_of(b: Seq<u8>, src: u32, dst: u32, proto: u8) -> u16 {
    (0xffff - fold_step(
        fold_step(segment_sum(b) + pseudo_header_sum(src, dst, proto, b.len() as int)),
    )) as u16
}

/// A segment is wire-valid exactly when the checksum over its bytes as
/// received is zero.
pub open spec fn checksum_valid(b: Seq<u8>, src: u32, dst: u32, proto: u8) -> bool {
    checksum_of(b, src, dst, proto) == 0
}

proof fn lemma_words_sum_nonneg(b: Seq<u8>, n: int)
    ensures
        words_sum(b, n) >= 0,
    decreases n,
{
    if n > 0 {
        lemma_words_sum_nonneg(b, n - 1);
    }
}

proof fn lemma_words_sum_le(b: Seq<u8>, n: int)
    requires
        n >= 0,
    ensures
        words_sum(b, n) <= n * 0xffff,
    decreases n,
{
    if n > 0 {
        lemma_words_sum_le(b, n - 1);
    }
}

/// The total sum that the checksum folds fits in 32 bits whenever the
/// segment length fits the pseudo-header's 16-bit length field.
proof fn lemma_total_sum_bounds(b: Seq<u8>, src: u32, dst: u32, proto: u8)
    requires
        b.len() <= 0xffff,
    ensures
        0 <= segment_sum(b) + pseudo_header_sum(src, dst, proto, b.len() as int)
            < 0x100000000 - 0xffff,
{
    lemma_words_sum_nonneg(b, num_words(b));
    lemma_words_sum_le(b, num_words(b));
    assert(num_words(b) <= 0x8000);
    assert(words_sum(b, num_words(b)) <= 0x8000 * 0xffff) by {
        lemma_words_sum_le(b, num_words(b));
        assert(num_words(b) * 0xffff <= 0x8000 * 0xffff) by (nonlinear_arith)
            requires
                num_words(b) <= 0x8000,
        ;
    }
    assert(src as int / 0x10000 <= 0xffff);
    assert(dst as int / 0x10000 <= 0xffff);
}

/// Folding preserves the value modulo 0xffff.
proof fn lemma_fold_step_mod(x: int)
    requires
        x >= 0,
    ensures
        fold_step(x) % 0xffff == x % 0xffff,
{
    lemma_fundamental_div_mod(x, 0x10000);
    let q = x / 0x10000;
    let r = x % 0x10000;
    assert(x == 0xffff * q + (q + r));
    lemma_mod_multiples_vanish(q, q + r, 0xffff);
}

/// Two folding rounds take any 32-bit sum down to 16 bits, never below zero,
/// and never increase it.
proof fn lemma_fold_twice_bounds(x: int)
    requires
        0 <= x < 0x100000000,
    ensures
        0 <= fold_step(x),
        fold_step(x) <= x,
        0 <= fold_step(fold_step(x)) <= 0xffff,
        fold_step(fold_step(x)) <= x,
        x > 0 ==> fold_step(fold_step(x)) > 0,
{
    lemma_fundamental_div_mod(x, 0x10000);
    let s1 = fold_step(x);
    lemma_fundamental_div_mod(s1, 0x10000);
}

/// Replacing the 16-bit word at even offset `off` changes the segment sum by
/// exactly the difference of the old and new word values.
proof fn lemma_words_sum_update2(b: Seq<u8>, k: int, hi: u8, lo: u8, n: int)
    requires
        0 <= k,
        2 * k + 1 < b.len(),
    ensures
        words_sum(b.update(2 * k, hi).update(2 * k + 1, lo), n) == words_sum(b, n) + if 0 <= k < n {
            (hi as int * 256 + lo as int) - word_at(b, k)
        } else {
            0
        },
    decreases n,
{
    let b2 = b.update(2 * k, hi).update(2 * k + 1, lo);
    if n > 0 {
        lemma_words_sum_update2(b, k, hi, lo, n - 1);
        if n - 1 != k {
            assert(word_at(b2, n - 1) == word_at(b, n - 1));
        } else {
            assert(word_at(b2, k) == hi as int * 256 + lo as int);
        }
    }
}

/// Writing a 16-bit value at an even in-header offset shifts the segment sum
/// by the difference between the new value and the word it replaced.
pub proof fn lemma_segment_sum_put16(b: Seq<u8>, off: int, v: u16)
    requires
        0 <= off,
        off % 2 == 0,
        off + 1 < b.len(),
    ensures
        segment_sum(be16_put(b, off, v)) == segment_sum(b) - be16_at(b, off) + v,
{
    let k = off / 2;
    let hi = (v as int / 256) as u8;
    let lo = (v as int % 256) as u8;
    lemma_fundamental_div_mod(off, 2);
    assert(2 * k == off);
    lemma_words_sum_update2(b, k, hi, lo, num_words(b));
    assert(be16_put(b, off, v) == b.update(2 * k, hi).update(2 * k + 1, lo));
    assert(hi as int * 256 + lo as int == v) by {
        lemma_fundamental_div_mod(v as int, 256);
    }
    assert(word_at(b, k) == be16_at(b, off));
    assert(k < num_words(b));
}

/// The central write-path theorem: take segment bytes whose checksum field
/// word (at even offset `off`) is zero, compute the checksum, and write it
/// into that word; the resulting bytes then verify as wire-valid.
pub proof fn lemma_written_checksum_verifies(b: Seq<u8>, off: int, src: u32, dst: u32, proto: u8)
    requires
        0 <= off,
        off % 2 == 0,
        off + 1 < b.len(),
        b.len() <= 0xffff,
        be16_at(b, off) == 0,
    ensures
        checksum_valid(
            be16_put(b, off, checksum_of(b, src, dst, proto)),
            src,
            dst,
            proto,
        ),
{
    let p = pseudo_header_sum(src, dst, proto, b.len() as int);
    let s = segment_sum(b) + p;
    lemma_total_sum_bounds(b, src, dst, proto);
    lemma_fold_twice_bounds(s);
    let f = fold_step(fold_step(s));
    let v = checksum_of(b, src, dst, proto);
    assert(v == 0xffff - f);
    let b2 = be16_put(b, off, v);
    lemma_segment_sum_put16(b, off, v);
    assert(b2.len() == b.len());
    let s2 = segment_sum(b2) + p;
    assert(s2 == s + v);
    lemma_fold_twice_bounds(s2);
    let f2 = fold_step(fold_step(s2));
    // Both folded values are congruent to their sums modulo 0xffff.
    lemma_fold_step_mod(s);
    lemma_fold_step_mod(fold_step(s));
    lemma_fold_step_mod(s2);
    lemma_fold_step_mod(fold_step(s2));
    // s2 == s + 0xffff - f and f == s mod 0xffff, so s2 == 0 mod 0xffff.
    assert(f % 0xffff == s % 0xffff);
    assert(f2 % 0xffff == s2 % 0xffff);
    assert(s2 == (s - f) + 0xffff);
    assert((s - f) % 0xffff == 0) by {
        lemma_fundamental_div_mod(s, 0xffff);
        lemma_mod_multiples_vanish(s / 0xffff, f, 0xffff);
        // s - f == 0xffff * (s / 0xffff) + (s % 0xffff - f), and f <= 0xffff
        if f == 0xffff {
            assert(s % 0xffff == 0);
            lemma_mod_multiples_vanish(s / 0xffff - 1, 0, 0xffff);
        } else {
            assert(f == s % 0xffff) by {
                vstd::arithmetic::div_mod::lemma_small_mod(f as nat, 0xffff as nat);
            }
            lemma_mod_multiples_vanish(s / 0xffff, 0, 0xffff);
        }
    }
    assert(s2 % 0xffff == 0) by {
        lemma_fundamental_div_mod(s - f, 0xffff);
        lemma_mod_multiples_vanish((s - f) / 0xffff + 1, 0, 0xffff);
    }
    // f2 is in [0, 0xffff] and divisible by 0xffff, and s2 > 0 rules out 0.
    assert(f2 == 0 || f2 == 0xffff) by {
        if f2 < 0xffff {
            vstd::arithmetic::div_mod::lemma_small_mod(f2 as nat, 0xffff as nat);
        }
    }
    assert(s2 > 0);
    assert(f2 == 0xffff);
}

/// Recomputing the checksum over identical bytes and addresses always yields
/// the identical value: the checksum is a function of the bytes and the
/// pseudo-header alone, with no hidden state.
pub proof fn lemma_checksum_deterministic(b1: Seq<u8>, b2: Seq<u8>, src: u32, dst: u32, proto: u8)
    requires
        b1 == b2,
    ensures
        checksum_of(b1, src, dst, proto) == checksum_of(b2, src, dst, proto),
{
}

/// Zeroing the checksum word (at even offset `off`) and recomputing always
/// reproduces one value: whatever the field held before zeroing cannot
/// influence the recomputed checksum.
pub proof fn lemma_checksum_after_zeroing(b: Seq<u8>, off: int, v1: u16, v2: u16, src: u32, dst: u32, proto: u8)
    requires
        0 <= off,
        off % 2 == 0,
        off + 1 < b.len(),
    ensures
        checksum_of(be16_put(be16_put(b, off, v1), off, 0), src, dst, proto) == checksum_of(
            be16_put(be16_put(b, off, v2), off, 0),
            src,
            dst,
            proto,
        ),
{
    assert(be16_put(be16_put(b, off, v1), off, 0) =~= be16_put(be16_put(b, off, v2), off, 0));
}

/// Computes the checksum of the bytes of `buf` between `src_addr` and
/// `dst_addr` for protocol `proto`.
pub fn compute_checksum(buf: &Vec<u8>, src_addr: Ipv4Addr, dst_addr: Ipv4Addr, proto: ChecksumProto) -> (r: u16)
    requires
        buf.len() <= 0xffff,
    ensures
        r == checksum_of(buf@, src_addr@, dst_addr@, spec_protocol_number(proto)),
{
    let len = buf.len();
    let src: u32 = src_addr.bits;
    let dst: u32 = dst_addr.bits;
    let proto_number: u8 = match proto {
        ChecksumProto::Tcp => 6,
    };
    let mut sum: u64 = src as u64 / 0x10000 + src as u64 % 0x10000 + dst as u64 / 0x10000
        + dst as u64 % 0x10000 + proto_number as u64 + len as u64;
    let ghost p = pseudo_header_sum(src, dst, proto_number, len as int);
    assert(sum == p);
    let n_pairs = len / 2;
    let mut i: usize = 0;
    while i < n_pairs
        invariant
            n_pairs == len / 2,
            len == buf.len(),
            len <= 0xffff,
            0 <= i <= n_pairs,
            p <= 0x50005,
            sum == p + words_sum(buf@, i as int),
            sum <= p + i * 0xffff,
        decreases n_pairs - i,
    {
        let w: u64 = buf[2 * i] as u64 * 256 + buf[2 * i + 1] as u64;
        proof {
            assert(word_at(buf@, i as int) == w);
            assert(words_sum(buf@, i as int + 1) == words_sum(buf@, i as int) + word_at(
                buf@,
                i as int,
            ));
        }
        sum = sum + w;
        i = i + 1;
    }
    if len % 2 == 1 {
        let w: u64 = buf[len - 1] as u64 * 256;
        proof {
            lemma_fundamental_div_mod(len as int, 2);
            assert(2 * n_pairs == len - 1);
            assert(word_at(buf@, n_pairs as int) == w);
            assert(num_words(buf@) == n_pairs + 1);
            assert(words_sum(buf@, n_pairs as int + 1) == words_sum(buf@, n_pairs as int)
                + word_at(buf@, n_pairs as int));
        }
        sum = sum + w;
    } else {
        proof {
            lemma_fundamental_div_mod(len as int, 2);
            assert(num_words(buf@) == n_pairs);
        }
    }
    let ghost s = segment_sum(buf@) + p;
    assert(sum == s);
    proof {
        lemma_total_sum_bounds(buf@, src, dst, proto_number);
        lemma_fold_twice_bounds(s);
    }
    let s1: u64 = sum / 0x10000 + sum % 0x10000;
    let s2: u64 = s1 / 0x10000 + s1 % 0x10000;
    assert(s2 == fold_step(fold_step(s)));
    assert(s2 <= 0xffff);
    (0xffff - s2) as u16
}

} // verus!
