//! Big-endian (network order) integer reads and writes over a byte buffer.
//!
//! Every access is bounds-checked by its precondition: callers must have
//! validated the relevant lengths first, so none of these functions can
//! panic or read out of range.

use vstd::prelude::*;

verus! {

/// The 16-bit big-endian value stored at byte offset `off` of `b`.
pub open spec fn be16_at(b: Seq<u8>, off: int) -> u16 {
    (b[off] as int * 256 + b[off + 1] as int) as u16
}

/// The 32-bit big-endian value stored at byte offset `off` of `b`.
pub open spec fn be32_at(b: Seq<u8>, off: int) -> u32 {
    (b[off] as int * 0x1000000 + b[off + 1] as int * 0x10000 + b[off + 2] as int * 0x100
        + b[off + 3] as int) as u32
}

/// `b` with the 16-bit big-endian encoding of `v` written at offset `off`.
pub open spec fn be16_put(b: Seq<u8>, off: int, v: u16) -> Seq<u8> {
    b.update(off, (v as int / 256) as u8).update(off + 1, (v as int % 256) as u8)
}

/// `b` with the 32-bit big-endian encoding of `v` written at offset `off`.
pub open spec fn be32_put(b: Seq<u8>, off: int, v: u32) -> Seq<u8> {
    b.update(off, (v as int / 0x1000000) as u8)
        .update(off + 1, (v as int / 0x10000 % 256) as u8)
        .update(off + 2, (v as int / 0x100 % 256) as u8)
        .update(off + 3, (v as int % 256) as u8)
}

/// Reads the 16-bit big-endian value at offset `off`.
pub fn read_be16(buf: &Vec<u8>, off: usize) -> (r: u16)
    requires
        off + 2 <= buf.len(),
    ensures
        r == be16_at(buf@, off as int),
{
    let hi = buf[off];
    let lo = buf[off + 1];
    hi as u16 * 256 + lo as u16
}

/// Reads the 32-bit big-endian value at offset `off`.
pub fn read_be32(buf: &Vec<u8>, off: usize) -> (r: u32)
    requires
        off + 4 <= buf.len(),
    ensures
        r == be32_at(buf@, off as int),
{
    let b0 = buf[off];
    let b1 = buf[off + 1];
    let b2 = buf[off + 2];
    let b3 = buf[off + 3];
    b0 as u32 * 0x1000000 + b1 as u32 * 0x10000 + b2 as u32 * 0x100 + b3 as u32
}

/// Writes `v` at offset `off` in 16-bit big-endian form.
pub fn write_be16(buf: &mut Vec<u8>, off: usize, v: u16)
    requires
        off + 2 <= old(buf).len(),
    ensures
        final(buf)@ == be16_put(old(buf)@, off as int, v),
{
    buf[off] = (v / 256) as u8;
    buf[off + 1] = (v % 256) as u8;
}

/// Writes `v` at offset `off` in 32-bit big-endian form.
pub fn write_be32(buf: &mut Vec<u8>, off: usize, v: u32)
    requires
        off + 4 <= old(buf).len(),
    ensures
        final(buf)@ == be32_put(old(buf)@, off as int, v),
{
    buf[off] = (v / 0x1000000) as u8;
    buf[off + 1] = (v / 0x10000 % 256) as u8;
    buf[off + 2] = (v / 0x100 % 256) as u8;
    buf[off + 3] = (v % 256) as u8;
}

/// Reading back a just-written 16-bit value yields the value, and bytes
/// outside the written pair are untouched.
pub proof fn lemma_be16_put_at(b: Seq<u8>, off: int, v: u16)
    requires
        0 <= off,
        off + 2 <= b.len(),
    ensures
        be16_at(be16_put(b, off, v), off) == v,
        be16_put(b, off, v).len() == b.len(),
        forall|i: int| 0 <= i < b.len() && i != off && i != off + 1 ==> be16_put(b, off, v)[i] == b[i],
{
}

/// Reading back a just-written 32-bit value yields the value, and bytes
/// outside the written quad are untouched.
pub proof fn lemma_be32_put_at(b: Seq<u8>, off: int, v: u32)
    requires
        0 <= off,
        off + 4 <= b.len(),
    ensures
        be32_at(be32_put(b, off, v), off) == v,
        be32_put(b, off, v).len() == b.len(),
        forall|i: int| 0 <= i < b.len() && !(off <= i < off + 4) ==> be32_put(b, off, v)[i] == b[i],
{
    assert(v as int / 0x1000000 < 256);
}

} // verus!
