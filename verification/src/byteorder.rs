//! Byte-order policy for multi-byte memory traffic.
//!
//! A 16-bit value occupies two consecutive bytes of a memory space. Which of
//! the two bytes is most significant is a policy selected when the
//! intermediate representation is built, and used uniformly for every 16-bit
//! read and write, so the same interpreter serializes multi-byte values for
//! different target encodings without branching on endianness throughout.

use vstd::prelude::*;

verus! {

/// Which byte of a two-byte cell is most significant.
#[derive(Clone, Copy, PartialEq, Eq, Structural, Debug)]
pub enum ByteOrder {
    /// The first byte is least significant.
    LittleEndian,
    /// The first byte is most significant.
    BigEndian,
}

/// The byte stored first when `value` is written under `order`.
pub open spec fn first_byte(order: ByteOrder, value: u16) -> u8 {
    match order {
        ByteOrder::LittleEndian => (value % 256) as u8,
        ByteOrder::BigEndian => (value / 256) as u8,
    }
}

/// The byte stored second when `value` is written under `order`.
pub open spec fn second_byte(order: ByteOrder, value: u16) -> u8 {
    match order {
        ByteOrder::LittleEndian => (value / 256) as u8,
        ByteOrder::BigEndian => (value % 256) as u8,
    }
}

/// The 16-bit value encoded by two consecutive bytes under `order`:
/// `b0` is the byte at the lower address, `b1` the byte after it.
pub open spec fn combined(order: ByteOrder, b0: u8, b1: u8) -> u16 {
    match order {
        ByteOrder::LittleEndian => (b0 + b1 * 256) as u16,
        ByteOrder::BigEndian => (b0 * 256 + b1) as u16,
    }
}

/// Decoding the two bytes an encoding produced restores the value.
pub proof fn lemma_byteorder_roundtrip(order: ByteOrder, value: u16)
    ensures
        combined(order, first_byte(order, value), second_byte(order, value)) == value,
{
}

impl ByteOrder {
    /// Splits `value` into the byte stored first and the byte stored second.
    pub fn split_u16(self, value: u16) -> (r: (u8, u8))
        ensures
            r.0 == first_byte(self, value),
            r.1 == second_byte(self, value),
    {
        let lo = (value % 256) as u8;
        let hi = (value / 256) as u8;
        match self {
            ByteOrder::LittleEndian => (lo, hi),
            ByteOrder::BigEndian => (hi, lo),
        }
    }

    /// Combines the byte stored first and the byte stored second into the
    /// value they encode.
    pub fn join_u16(self, b0: u8, b1: u8) -> (r: u16)
        ensures
            r == combined(self, b0, b1),
    {
        match self {
            ByteOrder::LittleEndian => (b0 as u16) + (b1 as u16) * 256,
            ByteOrder::BigEndian => (b0 as u16) * 256 + (b1 as u16),
        }
    }
}

} // verus!
