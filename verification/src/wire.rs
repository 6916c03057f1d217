//! Little-endian integer fields inside byte buffers.
//!
//! The mathematical model of a field is stated here once (`le16`, `le32`,
//! `u16_at`, `u32_at`, `splice`); the reads and writes themselves are done by
//! the `byteorder` crate behind the wrappers at the end of this file.

use byteorder::{ByteOrder, LittleEndian};
use vstd::prelude::*;

verus! {

/// The two bytes of `v`, least significant first.
pub open spec fn le16(v: u16) -> Seq<u8> {
    seq![(v % 0x100) as u8, (v / 0x100) as u8]
}

/// The four bytes of `v`, least significant first.
pub open spec fn le32(v: u32) -> Seq<u8> {
    seq![
        (v % 0x100) as u8,
        ((v / 0x100) % 0x100) as u8,
        ((v / 0x1_0000) % 0x100) as u8,
        (v / 0x100_0000) as u8,
    ]
}

/// The little-endian `u16` stored at `s[p..p + 2]`.
pub open spec fn u16_at(s: Seq<u8>, p: int) -> u16 {
    (s[p] + 0x100 * s[p + 1]) as u16
}

/// The little-endian `u32` stored at `s[p..p + 4]`.
pub open spec fn u32_at(s: Seq<u8>, p: int) -> u32 {
    (s[p] + 0x100 * s[p + 1] + 0x1_0000 * s[p + 2] + 0x100_0000 * s[p + 3]) as u32
}

/// `s` with the bytes at `p..p + b.len()` replaced by `b`.
pub open spec fn splice(s: Seq<u8>, p: int, b: Seq<u8>) -> Seq<u8> {
    Seq::new(s.len(), |k: int| if p <= k < p + b.len() { b[k - p] } else { s[k] })
}

/// Reading back the two bytes of `le16(v)` gives `v`.
pub proof fn lemma_u16_at_le16(s: Seq<u8>, p: int, v: u16)
    requires
        0 <= p,
        p + 2 <= s.len(),
        s.subrange(p, p + 2) == le16(v),
    ensures
        u16_at(s, p) == v,
{
    assert(s[p] == s.subrange(p, p + 2)[0]);
    assert(s[p + 1] == s.subrange(p, p + 2)[1]);
}

/// Reading back the four bytes of `le32(v)` gives `v`.
pub proof fn lemma_u32_at_le32(s: Seq<u8>, p: int, v: u32)
    requires
        0 <= p,
        p + 4 <= s.len(),
        s.subrange(p, p + 4) == le32(v),
    ensures
        u32_at(s, p) == v,
{
    assert(s[p] == s.subrange(p, p + 4)[0]);
    assert(s[p + 1] == s.subrange(p, p + 4)[1]);
    assert(s[p + 2] == s.subrange(p, p + 4)[2]);
    assert(s[p + 3] == s.subrange(p, p + 4)[3]);
    assert(v == (v % 0x100) + 0x100 * ((v / 0x100) % 0x100) + 0x1_0000 * ((v / 0x1_0000)
        % 0x100) + 0x100_0000 * (v / 0x100_0000)) by (nonlinear_arith);
}

/// The bytes of the `u16` stored at `p` are the bytes found there.
pub proof fn lemma_le16_of_u16_at(s: Seq<u8>, p: int)
    requires
        0 <= p,
        p + 2 <= s.len(),
    ensures
        le16(u16_at(s, p)) == s.subrange(p, p + 2),
{
    let v = u16_at(s, p);
    assert(v == s[p] + 0x100 * s[p + 1]);
    assert(le16(v) =~= s.subrange(p, p + 2));
}

/// The bytes of the `u32` stored at `p` are the bytes found there.
pub proof fn lemma_le32_of_u32_at(s: Seq<u8>, p: int)
    requires
        0 <= p,
        p + 4 <= s.len(),
    ensures
        le32(u32_at(s, p)) == s.subrange(p, p + 4),
{
    let (b0, b1, b2, b3) = (s[p] as int, s[p + 1] as int, s[p + 2] as int, s[p + 3] as int);
    let v = u32_at(s, p);
    assert(v == b0 + 0x100 * b1 + 0x1_0000 * b2 + 0x100_0000 * b3);
    assert(0 <= b0 < 0x100 && 0 <= b1 < 0x100 && 0 <= b2 < 0x100 && 0 <= b3 < 0x100);
    assert(v % 0x100 == b0 && (v / 0x100) % 0x100 == b1 && (v / 0x1_0000) % 0x100 == b2 && v
        / 0x100_0000 == b3) by (nonlinear_arith)
        requires
            v == b0 + 0x100 * b1 + 0x1_0000 * b2 + 0x100_0000 * b3,
            0 <= b0 < 0x100,
            0 <= b1 < 0x100,
            0 <= b2 < 0x100,
            0 <= b3 < 0x100,
    ;
    assert(le32(v) =~= s.subrange(p, p + 4));
}

/// `byteorder`'s `LittleEndian::read_u16`, applied to `buf[pos..]`.
/// Claimed: it returns the little-endian value of `buf[pos]`, `buf[pos + 1]`;
/// it panics only when fewer than two bytes are left, which `requires` excludes.
#[verifier::external_body]
pub(crate) fn read_u16_le(buf: &[u8], pos: usize) -> (r: u16)
    requires
        pos + 2 <= buf@.len(),
    ensures
        r == u16_at(buf@, pos as int),
{
    LittleEndian::read_u16(&buf[pos..])
}

/// `byteorder`'s `LittleEndian::read_u32`, applied to `buf[pos..]`.
/// Claimed: it returns the little-endian value of `buf[pos..pos + 4]`;
/// it panics only when fewer than four bytes are left, which `requires` excludes.
#[verifier::external_body]
pub(crate) fn read_u32_le(buf: &[u8], pos: usize) -> (r: u32)
    requires
        pos + 4 <= buf@.len(),
    ensures
        r == u32_at(buf@, pos as int),
{
    LittleEndian::read_u32(&buf[pos..])
}

/// `byteorder`'s `LittleEndian::write_u16`, applied to `buf[pos..]`.
/// Claimed: the two bytes at `pos` become the little-endian bytes of `v` and
/// nothing else changes; it panics only when fewer than two bytes are left.
#[verifier::external_body]
pub(crate) fn write_u16_le(buf: &mut [u8], pos: usize, v: u16)
    requires
        pos + 2 <= old(buf)@.len(),
    ensures
        final(buf)@ == splice(old(buf)@, pos as int, le16(v)),
{
    LittleEndian::write_u16(&mut buf[pos..], v)
}

/// `byteorder`'s `LittleEndian::write_u32`, applied to `buf[pos..]`.
/// Claimed: the four bytes at `pos` become the little-endian bytes of `v` and
/// nothing else changes; it panics only when fewer than four bytes are left.
#[verifier::external_body]
pub(crate) fn write_u32_le(buf: &mut [u8], pos: usize, v: u32)
    requires
        pos + 4 <= old(buf)@.len(),
    ensures
        final(buf)@ == splice(old(buf)@, pos as int, le32(v)),
{
    LittleEndian::write_u32(&mut buf[pos..], v)
}

/// `byteorder`'s `LittleEndian::write_i32`, applied to `buf[pos..]`.
/// Claimed: the four bytes at `pos` become the little-endian bytes of the
/// two's-complement bit pattern of `v` (the source writes `v as u32`) and
/// nothing else changes; it panics only when fewer than four bytes are left.
#[verifier::external_body]
pub(crate) fn write_i32_le(buf: &mut [u8], pos: usize, v: i32)
    requires
        pos + 4 <= old(buf)@.len(),
    ensures
        final(buf)@ == splice(old(buf)@, pos as int, le32(v as u32)),
{
    LittleEndian::write_i32(&mut buf[pos..], v)
}

} // verus!
