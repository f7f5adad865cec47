//! Byte orders and sign conventions shared by the wire formats.

use vstd::prelude::*;

verus! {

/// The two little-endian bytes of `value`.
pub open spec fn le16(value: u16) -> Seq<u8> {
    seq![(value % 256) as u8, (value / 256) as u8]
}

/// The two big-endian bytes of `value`.
pub open spec fn be16(value: u16) -> Seq<u8> {
    seq![(value / 256) as u8, (value % 256) as u8]
}

/// The number whose low byte is `low` and whose high byte is `high`.
pub open spec fn join16(low: u8, high: u8) -> u16 {
    (low + 256 * high) as u16
}

/// The four little-endian bytes of `value`.
pub open spec fn le32(value: u32) -> Seq<u8> {
    le16((value % 0x1_0000) as u16) + le16((value / 0x1_0000) as u16)
}

/// The number with the given little-endian bytes.
pub open spec fn join32(b0: u8, b1: u8, b2: u8, b3: u8) -> u32 {
    (join16(b0, b1) + 0x1_0000 * join16(b2, b3)) as u32
}

/// The unsigned word with the two's-complement bit pattern of `value`.
pub open spec fn twos_complement(value: i16) -> u16 {
    if value < 0 {
        (value + 0x1_0000) as u16
    } else {
        value as u16
    }
}

/// The signed word with the two's-complement bit pattern `bits`.
pub open spec fn from_twos_complement(bits: u16) -> i16 {
    if bits < 0x8000 {
        bits as i16
    } else {
        (bits - 0x1_0000) as i16
    }
}

/// Splits a word into its low and high byte.
pub fn split16(value: u16) -> (bytes: (u8, u8))
    ensures
        seq![bytes.0, bytes.1] == le16(value),
{
    ((value % 256) as u8, (value / 256) as u8)
}

/// Joins a low and a high byte to a word.
pub fn join_bytes(low: u8, high: u8) -> (value: u16)
    ensures
        value == join16(low, high),
{
    low as u16 + 256 * high as u16
}

/// Splits a double word into its four bytes, lowest first.
pub fn split32(value: u32) -> (bytes: [u8; 4])
    ensures
        bytes@ == le32(value),
{
    let low = split16((value % 0x1_0000) as u16);
    let high = split16((value / 0x1_0000) as u16);
    let bytes: [u8; 4] = [low.0, low.1, high.0, high.1];
    proof {
        let low_bytes = seq![low.0, low.1];
        let high_bytes = seq![high.0, high.1];
        assert(low.0 == low_bytes[0] && low.1 == low_bytes[1]);
        assert(high.0 == high_bytes[0] && high.1 == high_bytes[1]);
        assert(bytes@ =~= le32(value));
    }
    bytes
}

/// Joins four bytes, lowest first, to a double word.
pub fn join_word(b0: u8, b1: u8, b2: u8, b3: u8) -> (value: u32)
    ensures
        value == join32(b0, b1, b2, b3),
{
    join_bytes(b0, b1) as u32 + 0x1_0000 * join_bytes(b2, b3) as u32
}

/// The two's-complement bits of a signed word.
pub fn to_bits(value: i16) -> (bits: u16)
    ensures
        bits == twos_complement(value),
{
    if value < 0 {
        (value as i32 + 0x1_0000) as u16
    } else {
        value as u16
    }
}

/// The signed word that two's-complement bits stand for.
pub fn from_bits(bits: u16) -> (value: i16)
    ensures
        value == from_twos_complement(bits),
{
    if bits < 0x8000 {
        bits as i16
    } else {
        (bits as i32 - 0x1_0000) as i16
    }
}

/// Joining the bytes of a word gives the word back, and every pair of bytes is the pair of some
/// word.
pub proof fn words_round_trip(value: u16, low: u8, high: u8)
    ensures
        join16(le16(value)[0], le16(value)[1]) == value,
        le16(join16(low, high)) == seq![low, high],
{
    assert(le16(join16(low, high)) =~= seq![low, high]);
}

/// Joining the bytes of a double word gives it back, and every four bytes are those of some
/// double word.
pub proof fn double_words_round_trip(value: u32, b0: u8, b1: u8, b2: u8, b3: u8)
    ensures
        ({
            let bytes = le32(value);
            join32(bytes[0], bytes[1], bytes[2], bytes[3]) == value
        }),
        le32(join32(b0, b1, b2, b3)) == seq![b0, b1, b2, b3],
{
    assert(le32(join32(b0, b1, b2, b3)) =~= seq![b0, b1, b2, b3]);
}

/// Every signed word survives the way through its two's-complement bits, and every bit pattern
/// the way through its signed word.
pub proof fn signed_words_round_trip(value: i16, bits: u16)
    ensures
        from_twos_complement(twos_complement(value)) == value,
        twos_complement(from_twos_complement(bits)) == bits,
{
}

/// The bytes of a number are its digits to the base 256: least significant first in little-endian
/// order, last in big-endian order.
pub proof fn bytes_are_digits_to_the_base_256(
    word: u16,
    double_word: u32,
    b0: u8,
    b1: u8,
    b2: u8,
    b3: u8,
)
    ensures
        le16(word).len() == 2 && le16(word)[0] + 256 * le16(word)[1] == word,
        be16(word).len() == 2 && be16(word)[1] + 256 * be16(word)[0] == word,
        join16(b0, b1) == b0 + 256 * b1,
        ({
            let bytes = le32(double_word);
            bytes.len() == 4 && bytes[0] + 256 * bytes[1] + 65536 * bytes[2] + 16777216 * bytes[3]
                == double_word
        }),
        join32(b0, b1, b2, b3) == b0 + 256 * b1 + 65536 * b2 + 16777216 * b3,
{
}

/// The bit pattern of a signed word is the word itself, or the word and 65536 where it is negative.
pub proof fn bit_patterns_are_congruent(value: i16, bits: u16)
    ensures
        twos_complement(value) == value || value < 0 && twos_complement(value) == value + 65536,
        from_twos_complement(bits) == bits || bits > 32767 && from_twos_complement(bits) == bits
            - 65536,
{
}

} // verus!
