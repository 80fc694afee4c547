//! Word-level primitives: rotation and the two byte orders.

use byteorder::{BigEndian, ByteOrder, LittleEndian};
use vstd::prelude::*;

verus! {

/// `val` rotated left by the low five bits of `shift`: the bits pushed out at
/// the top come back in at the bottom.
pub open spec fn rotl(val: u32, shift: u32) -> u32 {
    let s: u32 = shift & 0x1f;
    if s == 0 {
        val
    } else {
        (val << s) | (val >> ((32 - s) as u32))
    }
}

/// Rotates `val` left by `shift` positions, taken modulo 32.
pub fn rol(val: u32, shift: u32) -> (r: u32)
    ensures
        r == rotl(val, shift),
{
    let s: u32 = shift & 0x1f;
    assert(s <= 31) by (bit_vector)
        requires
            s == shift & 0x1f,
    ;
    let back: u32 = 0x20 - s;
    assert((val >> (back % 32u32)) | (val << (s % 32u32)) == if s == 0 {
        val
    } else {
        (val << s) | (val >> ((32 - s) as u32))
    }) by (bit_vector)
        requires
            s <= 31,
            back == 32 - s,
    ;
    val.wrapping_shr(back) | val.wrapping_shl(s)
}

/// Rotation moves every bit `shift` places up, modulo the word size.
pub proof fn lemma_rotl_moves_bits(val: u32, shift: u32, bit: u32)
    requires
        bit < 32,
    ensures
        (rotl(val, shift) >> (((bit + (shift & 0x1f)) % 32) as u32)) & 1 == (val >> bit) & 1,
{
    let s: u32 = shift & 0x1f;
    assert(s <= 31) by (bit_vector)
        requires
            s == shift & 0x1f,
    ;
    let to: u32 = ((bit + s) % 32) as u32;
    let r: u32 = rotl(val, shift);
    assert((r >> to) & 1 == (val >> bit) & 1) by (bit_vector)
        requires
            bit < 32,
            s <= 31,
            to == (bit + s) % 32,
            r == if s == 0 {
                val
            } else {
                (val << s) | (val >> ((32 - s) as u32))
            },
    ;
}

/// The four bytes of `word`, least significant first.
pub open spec fn le_bytes(word: u32) -> Seq<u8> {
    seq![
        (word % 0x100) as u8,
        (word / 0x100 % 0x100) as u8,
        (word / 0x1_0000 % 0x100) as u8,
        (word / 0x100_0000) as u8,
    ]
}

/// The four bytes of `word`, most significant first.
pub open spec fn be_bytes(word: u32) -> Seq<u8> {
    seq![
        (word / 0x100_0000) as u8,
        (word / 0x1_0000 % 0x100) as u8,
        (word / 0x100 % 0x100) as u8,
        (word % 0x100) as u8,
    ]
}

/// The word whose little-endian bytes are the first four of `bytes`.
pub open spec fn le_word(bytes: Seq<u8>) -> u32 {
    (bytes[0] + 0x100 * bytes[1] + 0x1_0000 * bytes[2] + 0x100_0000 * bytes[3]) as u32
}

/// Reading back the little-endian bytes of a word gives the word.
pub proof fn lemma_le_round_trip(word: u32)
    ensures
        le_bytes(word).len() == 4,
        le_word(le_bytes(word)) == word,
{
}

/// `byteorder::LittleEndian::read_u32`: decodes the first four bytes of the
/// slice as a little-endian word. It panics on a shorter slice, which the
/// precondition rules out.
#[verifier::external_body]
pub(crate) fn read_u32_le(bytes: &[u8]) -> (word: u32)
    requires
        bytes@.len() >= 4,
    ensures
        word == le_word(bytes@),
{
    LittleEndian::read_u32(bytes)
}

/// `byteorder::LittleEndian::write_u32` into a fresh four-byte array: the
/// array then holds the word's bytes, least significant first.
#[verifier::external_body]
pub(crate) fn write_u32_le(word: u32) -> (bytes: [u8; 4])
    ensures
        bytes@ == le_bytes(word),
{
    let mut bytes = [0u8; 4];
    LittleEndian::write_u32(&mut bytes, word);
    bytes
}

/// `byteorder::BigEndian::write_u32` into a fresh four-byte array: the array
/// then holds the word's bytes, most significant first.
#[verifier::external_body]
pub(crate) fn write_u32_be(word: u32) -> (bytes: [u8; 4])
    ensures
        bytes@ == be_bytes(word),
{
    let mut bytes = [0u8; 4];
    BigEndian::write_u32(&mut bytes, word);
    bytes
}

} // verus!
