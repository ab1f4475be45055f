//! Four bytes to a scalar and a packed colour to four bytes, in either byte
//! order.

use vstd::prelude::*;

use crate::rgba::{lemma_unpack_recovers, Rgba};
use crate::scalar::Scalar;

verus! {

/// The number that four bytes spell with the first byte least significant.
pub open spec fn le_word(bytes: [u8; 4]) -> int {
    bytes[0] + bytes[1] * 0x100 + bytes[2] * 0x1_0000 + bytes[3] * 0x100_0000
}

/// The number that four bytes spell with the first byte most significant.
pub open spec fn be_word(bytes: [u8; 4]) -> int {
    bytes[0] * 0x100_0000 + bytes[1] * 0x1_0000 + bytes[2] * 0x100 + bytes[3]
}

/// The four bytes of a 32-bit number, most significant first.
pub open spec fn be_bytes(word: u32) -> [u8; 4] {
    [
        (word / 0x100_0000) as u8,
        (word / 0x1_0000 % 0x100) as u8,
        (word / 0x100 % 0x100) as u8,
        (word % 0x100) as u8,
    ]
}

/// Each byte of a 32-bit number, taken by shifting and masking, is the
/// digit of the number in base 256 at that place.
pub proof fn lemma_shifts_are_quotients(word: u32)
    ensures
        (word >> 24) == word / 0x100_0000,
        (word >> 16) & 0xff == word / 0x1_0000 % 0x100,
        (word >> 8) & 0xff == word / 0x100 % 0x100,
        word & 0xff == word % 0x100,
{
    assert((word >> 24) == word / 0x100_0000 && (word >> 16) & 0xff == word / 0x1_0000 % 0x100 && (
    word >> 8) & 0xff == word / 0x100 % 0x100 && word & 0xff == word % 0x100) by (bit_vector);
}

/// A decoder from one group of four bytes to one scalar.
pub trait BytesToFloat {
    /// The scalar that four bytes decode to.
    spec fn decoded(&self, bytes: [u8; 4]) -> Scalar;

    /// Decodes one group.
    fn decode(&self, bytes: [u8; 4]) -> (f: Scalar)
        ensures
            f == self.decoded(bytes),
    ;
}

/// An encoder from one packed colour to one group of four bytes.
pub trait IntegerToBytes {
    /// The four bytes that a packed colour encodes to.
    spec fn encoded(&self, word: u32) -> [u8; 4];

    /// Encodes one packed colour.
    fn encode(&self, word: u32) -> (bytes: [u8; 4])
        ensures
            bytes == self.encoded(word),
    ;
}

/// The byte order with the least significant byte first.
pub struct LittleEndian;

/// The byte order with the most significant byte first.
pub struct BigEndian;

impl BytesToFloat for LittleEndian {
    open spec fn decoded(&self, bytes: [u8; 4]) -> Scalar {
        Scalar { bits: le_word(bytes) as u32 }
    }

    fn decode(&self, bytes: [u8; 4]) -> (f: Scalar) {
        let b0: u32 = bytes[0] as u32;
        let b1: u32 = bytes[1] as u32;
        let b2: u32 = bytes[2] as u32;
        let b3: u32 = bytes[3] as u32;
        assert((b0 | b1 << 8 | b2 << 16 | b3 << 24) == b0 + b1 * 0x100 + b2 * 0x1_0000 + b3
            * 0x100_0000) by (bit_vector)
            requires
                b0 < 256,
                b1 < 256,
                b2 < 256,
                b3 < 256,
        ;
        Scalar::from_bits(b0 | b1 << 8 | b2 << 16 | b3 << 24)
    }
}

impl BytesToFloat for BigEndian {
    open spec fn decoded(&self, bytes: [u8; 4]) -> Scalar {
        Scalar { bits: be_word(bytes) as u32 }
    }

    fn decode(&self, bytes: [u8; 4]) -> (f: Scalar) {
        let b0: u32 = bytes[0] as u32;
        let b1: u32 = bytes[1] as u32;
        let b2: u32 = bytes[2] as u32;
        let b3: u32 = bytes[3] as u32;
        assert((b0 << 24 | b1 << 16 | b2 << 8 | b3) == b0 * 0x100_0000 + b1 * 0x1_0000 + b2 * 0x100
            + b3) by (bit_vector)
            requires
                b0 < 256,
                b1 < 256,
                b2 < 256,
                b3 < 256,
        ;
        Scalar::from_bits(b0 << 24 | b1 << 16 | b2 << 8 | b3)
    }
}

impl IntegerToBytes for BigEndian {
    open spec fn encoded(&self, word: u32) -> [u8; 4] {
        be_bytes(word)
    }

    fn encode(&self, word: u32) -> (bytes: [u8; 4]) {
        proof {
            lemma_shifts_are_quotients(word);
        }
        let bytes: [u8; 4] = [
            (word >> 24) as u8,
            ((word >> 16) & 0xff) as u8,
            ((word >> 8) & 0xff) as u8,
            (word & 0xff) as u8,
        ];
        assert(bytes =~= be_bytes(word));
        bytes
    }
}

/// In big-endian order a packed colour is the literal byte sequence red,
/// green, blue, alpha.
pub proof fn lemma_packed_be_bytes(rgba: Rgba)
    ensures
        0 <= rgba.packed() <= u32::MAX,
        be_bytes(rgba.packed() as u32) == [rgba.0, rgba.1, rgba.2, rgba.3],
{
    let word = rgba.packed() as u32;
    lemma_unpack_recovers(rgba);
    lemma_shifts_are_quotients(word);
    assert(be_bytes(word) =~= [rgba.0, rgba.1, rgba.2, rgba.3]);
}

} // verus!
