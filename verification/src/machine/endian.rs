//! Little-endian byte layouts of fixed-width integers, as Strontium bytecode stores them.
use vstd::prelude::*;
use byteorder::{ByteOrder, LittleEndian};

verus! {

/// The `u16` whose little-endian bytes start `s`.
pub open spec fn le_u16(s: Seq<u8>) -> u16 {
    (s[0] as u16) | ((s[1] as u16) << 8u16)
}

/// The `u32` whose little-endian bytes start `s`.
pub open spec fn le_u32(s: Seq<u8>) -> u32 {
    (s[0] as u32) | ((s[1] as u32) << 8u32) | ((s[2] as u32) << 16u32) | ((s[3] as u32) << 24u32)
}

/// The `u64` whose little-endian bytes start `s`.
pub open spec fn le_u64(s: Seq<u8>) -> u64 {
    (s[0] as u64) | ((s[1] as u64) << 8u64) | ((s[2] as u64) << 16u64) | ((s[3] as u64) << 24u64)
        | ((s[4] as u64) << 32u64) | ((s[5] as u64) << 40u64) | ((s[6] as u64) << 48u64) | ((
    s[7] as u64) << 56u64)
}

/// The two little-endian bytes of a `u16`.
pub open spec fn u16_bytes(v: u16) -> Seq<u8> {
    seq![v as u8, (v >> 8u16) as u8]
}

/// The four little-endian bytes of a `u32`.
pub open spec fn u32_bytes(v: u32) -> Seq<u8> {
    seq![v as u8, (v >> 8u32) as u8, (v >> 16u32) as u8, (v >> 24u32) as u8]
}

/// The eight little-endian bytes of a `u64`.
pub open spec fn u64_bytes(v: u64) -> Seq<u8> {
    seq![
        v as u8,
        (v >> 8u64) as u8,
        (v >> 16u64) as u8,
        (v >> 24u64) as u8,
        (v >> 32u64) as u8,
        (v >> 40u64) as u8,
        (v >> 48u64) as u8,
        (v >> 56u64) as u8,
    ]
}

proof fn lemma_u16_bits(v: u16)
    by (bit_vector)
    ensures
        ((v as u8) as u16) | ((((v >> 8u16) as u8) as u16) << 8u16) == v,
{
}

proof fn lemma_u32_bits(v: u32)
    by (bit_vector)
    ensures
        ((v as u8) as u32) | ((((v >> 8u32) as u8) as u32) << 8u32) | ((((v >> 16u32) as u8) as u32)
            << 16u32) | ((((v >> 24u32) as u8) as u32) << 24u32) == v,
{
}

proof fn lemma_u64_bits(v: u64)
    by (bit_vector)
    ensures
        ((v as u8) as u64) | ((((v >> 8u64) as u8) as u64) << 8u64) | ((((v >> 16u64) as u8) as u64)
            << 16u64) | ((((v >> 24u64) as u8) as u64) << 24u64) | ((((v >> 32u64) as u8) as u64)
            << 32u64) | ((((v >> 40u64) as u8) as u64) << 40u64) | ((((v >> 48u64) as u8) as u64)
            << 48u64) | ((((v >> 56u64) as u8) as u64) << 56u64) == v,
{
}

/// Reading back the little-endian bytes of a `u16` gives the number.
pub proof fn lemma_u16_roundtrip(v: u16)
    ensures
        le_u16(u16_bytes(v)) == v,
{
    lemma_u16_bits(v);
}

/// Reading back the little-endian bytes of a `u32` gives the number.
pub proof fn lemma_u32_roundtrip(v: u32)
    ensures
        le_u32(u32_bytes(v)) == v,
{
    lemma_u32_bits(v);
}

/// Reading back the little-endian bytes of a `u64` gives the number.
pub proof fn lemma_u64_roundtrip(v: u64)
    ensures
        le_u64(u64_bytes(v)) == v,
{
    lemma_u64_bits(v);
}

/// The little-endian bytes of a `u16`.
pub fn u16_to_le(v: u16) -> (r: Vec<u8>)
    ensures
        r@ == u16_bytes(v),
{
    let r = vec![v as u8, (v >> 8u16) as u8];
    assert(r@ =~= u16_bytes(v));
    r
}

/// The little-endian bytes of a `u32`.
pub fn u32_to_le(v: u32) -> (r: Vec<u8>)
    ensures
        r@ == u32_bytes(v),
{
    let r = vec![v as u8, (v >> 8u32) as u8, (v >> 16u32) as u8, (v >> 24u32) as u8];
    assert(r@ =~= u32_bytes(v));
    r
}

/// The little-endian bytes of a `u64`.
pub fn u64_to_le(v: u64) -> (r: Vec<u8>)
    ensures
        r@ == u64_bytes(v),
{
    let r = vec![
        v as u8,
        (v >> 8u64) as u8,
        (v >> 16u64) as u8,
        (v >> 24u64) as u8,
        (v >> 32u64) as u8,
        (v >> 40u64) as u8,
        (v >> 48u64) as u8,
        (v >> 56u64) as u8,
    ];
    assert(r@ =~= u64_bytes(v));
    r
}

/// `byteorder`'s `LittleEndian::read_u16`: the `u16` stored little-endian in the first
/// two bytes of `buf` (it panics on a shorter buffer, which `requires` leaves out).
#[verifier::external_body]
pub(crate) fn read_u16_le(buf: &[u8]) -> (v: u16)
    requires
        buf@.len() >= 2,
    ensures
        v == le_u16(buf@),
{
    LittleEndian::read_u16(buf)
}

/// `byteorder`'s `LittleEndian::read_u32`: the `u32` stored little-endian in the first
/// four bytes of `buf`.
#[verifier::external_body]
pub(crate) fn read_u32_le(buf: &[u8]) -> (v: u32)
    requires
        buf@.len() >= 4,
    ensures
        v == le_u32(buf@),
{
    LittleEndian::read_u32(buf)
}

/// `byteorder`'s `LittleEndian::read_u64`: the `u64` stored little-endian in the first
/// eight bytes of `buf`.
#[verifier::external_body]
pub(crate) fn read_u64_le(buf: &[u8]) -> (v: u64)
    requires
        buf@.len() >= 8,
    ensures
        v == le_u64(buf@),
{
    LittleEndian::read_u64(buf)
}

/// `byteorder`'s `LittleEndian::read_i16`: the two's-complement reading of the first two
/// bytes of `buf` (the source casts `read_u16` to `i16`).
#[verifier::external_body]
pub(crate) fn read_i16_le(buf: &[u8]) -> (v: i16)
    requires
        buf@.len() >= 2,
    ensures
        v == le_u16(buf@) as i16,
{
    LittleEndian::read_i16(buf)
}

/// `byteorder`'s `LittleEndian::read_i32`: the two's-complement reading of the first four
/// bytes of `buf`.
#[verifier::external_body]
pub(crate) fn read_i32_le(buf: &[u8]) -> (v: i32)
    requires
        buf@.len() >= 4,
    ensures
        v == le_u32(buf@) as i32,
{
    LittleEndian::read_i32(buf)
}

/// `byteorder`'s `LittleEndian::read_i64`: the two's-complement reading of the first eight
/// bytes of `buf`.
#[verifier::external_body]
pub(crate) fn read_i64_le(buf: &[u8]) -> (v: i64)
    requires
        buf@.len() >= 8,
    ensures
        v == le_u64(buf@) as i64,
{
    LittleEndian::read_i64(buf)
}

} // verus!
