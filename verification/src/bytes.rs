//! Little-endian field readers over byte slices.

use vstd::prelude::*;

verus! {

/// Unsigned 16-bit little-endian value stored at `i`.
pub open spec fn le_u16(s: Seq<u8>, i: int) -> int {
    s[i] + 256 * s[i + 1]
}

/// Unsigned 32-bit little-endian value stored at `i`.
pub open spec fn le_u32(s: Seq<u8>, i: int) -> int {
    s[i] + 256 * s[i + 1] + 65536 * s[i + 2] + 16777216 * s[i + 3]
}

/// Two's-complement 16-bit little-endian value stored at `i`.
pub open spec fn le_i16(s: Seq<u8>, i: int) -> int {
    let u = le_u16(s, i);
    if u >= 0x8000 { u - 0x1_0000 } else { u }
}

/// Two's-complement 32-bit little-endian value stored at `i`.
pub open spec fn le_i32(s: Seq<u8>, i: int) -> int {
    let u = le_u32(s, i);
    if u >= 0x8000_0000 { u - 0x1_0000_0000 } else { u }
}

/// Reads an unsigned 16-bit little-endian value.
pub fn read_u16(data: &[u8], offset: usize) -> (r: u16)
    requires
        offset + 2 <= data@.len(),
    ensures
        r == le_u16(data@, offset as int),
{
    let b0 = data[offset] as u16;
    let b1 = data[offset + 1] as u16;
    b0 + b1 * 256
}

/// Reads an unsigned 32-bit little-endian value.
pub fn read_u32(data: &[u8], offset: usize) -> (r: u32)
    requires
        offset + 4 <= data@.len(),
    ensures
        r == le_u32(data@, offset as int),
{
    let b0 = data[offset] as u32;
    let b1 = data[offset + 1] as u32;
    let b2 = data[offset + 2] as u32;
    let b3 = data[offset + 3] as u32;
    b0 + b1 * 256 + b2 * 65536 + b3 * 16777216
}

/// Reads a two's-complement 16-bit little-endian value.
pub fn read_i16(data: &[u8], offset: usize) -> (r: i16)
    requires
        offset + 2 <= data@.len(),
    ensures
        r == le_i16(data@, offset as int),
{
    let u = read_u16(data, offset);
    if u >= 0x8000 {
        ((u as i32) - 0x1_0000) as i16
    } else {
        u as i16
    }
}

/// Reads a two's-complement 32-bit little-endian value.
pub fn read_i32(data: &[u8], offset: usize) -> (r: i32)
    requires
        offset + 4 <= data@.len(),
    ensures
        r == le_i32(data@, offset as int),
{
    let u = read_u32(data, offset);
    if u >= 0x8000_0000 {
        ((u as i64) - 0x1_0000_0000) as i32
    } else {
        u as i32
    }
}

} // verus!
