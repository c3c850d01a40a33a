//! Small helpers for reading little-endian integers and bit flags out of
//! command payloads. Missing bytes read as zero, mirroring how a printer
//! treats a truncated parameter block.
use vstd::prelude::*;

verus! {

/// The byte at `index`, or zero when the payload is too short.
pub open spec fn byte_or_zero(bytes: Seq<u8>, index: int) -> u8 {
    if 0 <= index < bytes.len() {
        bytes[index]
    } else {
        0
    }
}

/// Reads a little-endian 16-bit value from two consecutive payload bytes.
pub fn parse_u16(bytes: &Vec<u8>, index: usize) -> (r: u16)
    ensures
        r == byte_or_zero(bytes@, index as int) + 256 * byte_or_zero(bytes@, index + 1),
{
    let low: u8 = if index < bytes.len() {
        bytes[index]
    } else {
        0
    };
    let high: u8 = if index < usize::MAX && index + 1 < bytes.len() {
        bytes[index + 1]
    } else {
        0
    };
    low as u16 + 256 * high as u16
}

/// Reads a little-endian 32-bit value from four consecutive payload bytes.
pub fn parse_u32(bytes: &Vec<u8>, index: usize) -> (r: u32)
    requires
        index + 3 <= usize::MAX,
    ensures
        r == byte_or_zero(bytes@, index as int) + 256 * byte_or_zero(bytes@, index + 1) + 65536
            * byte_or_zero(bytes@, index + 2) + 16777216 * byte_or_zero(bytes@, index + 3),
{
    let b0: u8 = if index < bytes.len() {
        bytes[index]
    } else {
        0
    };
    let b1: u8 = if index + 1 < bytes.len() {
        bytes[index + 1]
    } else {
        0
    };
    let b2: u8 = if index + 2 < bytes.len() {
        bytes[index + 2]
    } else {
        0
    };
    let b3: u8 = if index + 3 < bytes.len() {
        bytes[index + 3]
    } else {
        0
    };
    b0 as u32 + 256 * b1 as u32 + 65536 * b2 as u32 + 16777216 * b3 as u32
}

/// Whether bit `n` (0 = least significant) of `byte` is set.
pub open spec fn bit_of(byte: u8, n: u8) -> bool
    recommends
        n < 8,
{
    (byte >> n) & 1 == 1
}

/// Tests one bit of a flag byte, counting from the least significant bit.
pub fn bit_lsb(byte: u8, n: u8) -> (r: bool)
    requires
        n < 8,
    ensures
        r == bit_of(byte, n),
{
    (byte >> n) & 1 == 1
}

/// The eight bits of `byte` as flags, least significant bit first.
pub fn bitflags_lsb(byte: &u8) -> (r: (bool, bool, bool, bool, bool, bool, bool, bool))
    ensures
        r.0 == bit_of(*byte, 0),
        r.1 == bit_of(*byte, 1),
        r.2 == bit_of(*byte, 2),
        r.3 == bit_of(*byte, 3),
        r.4 == bit_of(*byte, 4),
        r.5 == bit_of(*byte, 5),
        r.6 == bit_of(*byte, 6),
        r.7 == bit_of(*byte, 7),
{
    (
        bit_lsb(*byte, 0),
        bit_lsb(*byte, 1),
        bit_lsb(*byte, 2),
        bit_lsb(*byte, 3),
        bit_lsb(*byte, 4),
        bit_lsb(*byte, 5),
        bit_lsb(*byte, 6),
        bit_lsb(*byte, 7),
    )
}

/// The eight bits of `byte` as flags, most significant bit first.
pub fn bitflags_msb(byte: &u8) -> (r: (bool, bool, bool, bool, bool, bool, bool, bool))
    ensures
        r.0 == bit_of(*byte, 7),
        r.1 == bit_of(*byte, 6),
        r.2 == bit_of(*byte, 5),
        r.3 == bit_of(*byte, 4),
        r.4 == bit_of(*byte, 3),
        r.5 == bit_of(*byte, 2),
        r.6 == bit_of(*byte, 1),
        r.7 == bit_of(*byte, 0),
{
    (
        bit_lsb(*byte, 7),
        bit_lsb(*byte, 6),
        bit_lsb(*byte, 5),
        bit_lsb(*byte, 4),
        bit_lsb(*byte, 3),
        bit_lsb(*byte, 2),
        bit_lsb(*byte, 1),
        bit_lsb(*byte, 0),
    )
}

/// `a - b`, saturating at zero; the coordinate arithmetic used throughout
/// the context never goes negative.
pub open spec fn sat_sub(a: int, b: int) -> int {
    if a >= b {
        a - b
    } else {
        0
    }
}

/// `a + b` clamped to `u32::MAX`.
pub open spec fn sat_add_u32(a: int, b: int) -> int {
    if a + b > u32::MAX {
        u32::MAX as int
    } else {
        a + b
    }
}

} // verus!
