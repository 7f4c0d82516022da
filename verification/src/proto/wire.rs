//! Little-endian integer fields inside byte buffers, as used by every wire
//! format of the crate.
use vstd::prelude::*;

verus! {

/// Value of the little-endian `u16` stored at `s[at..at + 2]`.
pub open spec fn le16(s: Seq<u8>, at: int) -> int {
    s[at] + 256 * s[at + 1]
}

/// Value of the little-endian `u32` stored at `s[at..at + 4]`.
pub open spec fn le32(s: Seq<u8>, at: int) -> int {
    s[at] + 256 * s[at + 1] + 65536 * s[at + 2] + 16777216 * s[at + 3]
}

/// Value of the little-endian `u64` stored at `s[at..at + 8]`.
pub open spec fn le64(s: Seq<u8>, at: int) -> int {
    le32(s, at) + 4294967296 * le32(s, at + 4)
}

/// Value of the big-endian `u16` stored at `s[at..at + 2]`.
pub open spec fn be16(s: Seq<u8>, at: int) -> int {
    256 * s[at] + s[at + 1]
}

/// Value of the big-endian `u32` stored at `s[at..at + 4]`.
pub open spec fn be32(s: Seq<u8>, at: int) -> int {
    16777216 * s[at] + 65536 * s[at + 1] + 256 * s[at + 2] + s[at + 3]
}

/// Little-endian bytes of a `u16`.
pub open spec fn u16_le(x: u16) -> Seq<u8> {
    seq![(x % 256) as u8, (x / 256) as u8]
}

/// Little-endian bytes of a `u32`.
pub open spec fn u32_le(x: u32) -> Seq<u8> {
    seq![(x % 256) as u8, ((x / 256) % 256) as u8, ((x / 65536) % 256) as u8, (x / 16777216) as u8]
}

/// Little-endian bytes of a `u64`.
pub open spec fn u64_le(x: u64) -> Seq<u8> {
    u32_le((x % 4294967296) as u32) + u32_le((x / 4294967296) as u32)
}

/// Big-endian bytes of a `u16`.
pub open spec fn u16_be(x: u16) -> Seq<u8> {
    seq![(x / 256) as u8, (x % 256) as u8]
}

/// Big-endian bytes of a `u32`.
pub open spec fn u32_be(x: u32) -> Seq<u8> {
    seq![(x / 16777216) as u8, ((x / 65536) % 256) as u8, ((x / 256) % 256) as u8, (x % 256) as u8]
}

/// Two's-complement bit pattern of an `i16`, as Rust's `as u16` gives it.
pub open spec fn i16_bits(x: i16) -> u16 {
    if x >= 0 { x as u16 } else { (x + 65536) as u16 }
}

/// The `i16` whose two's-complement bit pattern is `v`, as Rust's `as i16` gives it.
pub open spec fn i16_from_bits(v: int) -> i16 {
    if v < 32768 { v as i16 } else { (v - 65536) as i16 }
}

pub proof fn lemma_u16_le(x: u16, s: Seq<u8>, at: int)
    requires
        0 <= at,
        at + 2 <= s.len(),
        s.subrange(at, at + 2) == u16_le(x),
    ensures
        le16(s, at) == x,
{
    assert(s[at] == u16_le(x)[0]);
    assert(s[at + 1] == u16_le(x)[1]);
}

pub proof fn lemma_u32_le(x: u32, s: Seq<u8>, at: int)
    requires
        0 <= at,
        at + 4 <= s.len(),
        s.subrange(at, at + 4) == u32_le(x),
    ensures
        le32(s, at) == x,
{
    assert(s[at] == u32_le(x)[0]);
    assert(s[at + 1] == u32_le(x)[1]);
    assert(s[at + 2] == u32_le(x)[2]);
    assert(s[at + 3] == u32_le(x)[3]);
}

pub proof fn lemma_u64_le(x: u64, s: Seq<u8>, at: int)
    requires
        0 <= at,
        at + 8 <= s.len(),
        s.subrange(at, at + 8) == u64_le(x),
    ensures
        le64(s, at) == x,
{
    let lo = (x % 4294967296) as u32;
    let hi = (x / 4294967296) as u32;
    assert(s.subrange(at, at + 4) =~= s.subrange(at, at + 8).subrange(0, 4));
    assert(s.subrange(at + 4, at + 8) =~= s.subrange(at, at + 8).subrange(4, 8));
    assert(u64_le(x).subrange(0, 4) =~= u32_le(lo));
    assert(u64_le(x).subrange(4, 8) =~= u32_le(hi));
    lemma_u32_le(lo, s, at);
    lemma_u32_le(hi, s, at + 4);
}

pub proof fn lemma_i16_bits(x: i16)
    ensures
        i16_from_bits(i16_bits(x) as int) == x,
{
}

/// Append the little-endian bytes of `x`.
pub fn push_u16_le(out: &mut Vec<u8>, x: u16)
    ensures
        final(out)@ == old(out)@ + u16_le(x),
{
    out.push((x % 256) as u8);
    out.push((x / 256) as u8);
    assert(final(out)@ =~= old(out)@ + u16_le(x));
}

/// Append the little-endian bytes of `x`.
pub fn push_u32_le(out: &mut Vec<u8>, x: u32)
    ensures
        final(out)@ == old(out)@ + u32_le(x),
{
    out.push((x % 256) as u8);
    out.push(((x / 256) % 256) as u8);
    out.push(((x / 65536) % 256) as u8);
    out.push((x / 16777216) as u8);
    assert(final(out)@ =~= old(out)@ + u32_le(x));
}

/// Append the little-endian bytes of `x`.
pub fn push_u64_le(out: &mut Vec<u8>, x: u64)
    ensures
        final(out)@ == old(out)@ + u64_le(x),
{
    push_u32_le(out, (x % 4294967296) as u32);
    push_u32_le(out, (x / 4294967296) as u32);
    assert(final(out)@ =~= old(out)@ + u64_le(x));
}

/// Append the big-endian bytes of `x`.
pub fn push_u16_be(out: &mut Vec<u8>, x: u16)
    ensures
        final(out)@ == old(out)@ + u16_be(x),
{
    out.push((x / 256) as u8);
    out.push((x % 256) as u8);
    assert(final(out)@ =~= old(out)@ + u16_be(x));
}

/// Append the big-endian bytes of `x`.
pub fn push_u32_be(out: &mut Vec<u8>, x: u32)
    ensures
        final(out)@ == old(out)@ + u32_be(x),
{
    out.push((x / 16777216) as u8);
    out.push(((x / 65536) % 256) as u8);
    out.push(((x / 256) % 256) as u8);
    out.push((x % 256) as u8);
    assert(final(out)@ =~= old(out)@ + u32_be(x));
}

/// Two's-complement bits of an `i16`.
pub fn i16_to_bits(x: i16) -> (r: u16)
    ensures
        r == i16_bits(x),
{
    if x >= 0 {
        x as u16
    } else {
        (x as i32 + 65536) as u16
    }
}

/// Read the little-endian `u16` at `buf[at..at + 2]`.
pub fn read_u16_le(buf: &[u8], at: usize) -> (r: u16)
    requires
        at + 2 <= buf.len(),
    ensures
        r == le16(buf@, at as int),
{
    buf[at] as u16 + (buf[at + 1] as u16) * 256
}

/// Read the big-endian `u16` at `buf[at..at + 2]`.
pub fn read_u16_be(buf: &[u8], at: usize) -> (r: u16)
    requires
        at + 2 <= buf.len(),
    ensures
        r == be16(buf@, at as int),
{
    (buf[at] as u16) * 256 + buf[at + 1] as u16
}

/// Read the little-endian `i16` at `buf[at..at + 2]`.
pub fn read_i16_le(buf: &[u8], at: usize) -> (r: i16)
    requires
        at + 2 <= buf.len(),
    ensures
        r == i16_from_bits(le16(buf@, at as int)),
{
    let v = read_u16_le(buf, at);
    if v < 32768 {
        v as i16
    } else {
        (v as i32 - 65536) as i16
    }
}

/// Read the little-endian `u32` at `buf[at..at + 4]`.
pub fn read_u32_le(buf: &[u8], at: usize) -> (r: u32)
    requires
        at + 4 <= buf.len(),
    ensures
        r == le32(buf@, at as int),
{
    buf[at] as u32 + (buf[at + 1] as u32) * 256 + (buf[at + 2] as u32) * 65536 + (buf[at + 3] as u32)
        * 16777216
}

/// Read the big-endian `u32` at `buf[at..at + 4]`.
pub fn read_u32_be(buf: &[u8], at: usize) -> (r: u32)
    requires
        at + 4 <= buf.len(),
    ensures
        r == be32(buf@, at as int),
{
    (buf[at] as u32) * 16777216 + (buf[at + 1] as u32) * 65536 + (buf[at + 2] as u32) * 256
        + buf[at + 3] as u32
}

/// Read the little-endian `u64` at `buf[at..at + 8]`.
pub fn read_u64_le(buf: &[u8], at: usize) -> (r: u64)
    requires
        at + 8 <= buf.len(),
    ensures
        r == le64(buf@, at as int),
{
    let lo = read_u32_le(buf, at) as u64;
    let hi = read_u32_le(buf, at + 4) as u64;
    lo + hi * 4294967296
}

} // verus!
