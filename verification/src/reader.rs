//! Big-endian accessors over an in-memory font buffer.
//!
//! Every table parser in the crate reads scalars through these functions, so
//! their contracts pin each read to an arithmetic statement over the bytes.

use vstd::prelude::*;

verus! {

/// The big-endian 16-bit unsigned value at byte offset `i`.
pub open spec fn be_u16(s: Seq<u8>, i: int) -> int {
    s[i] * 0x100 + s[i + 1]
}

/// The big-endian 16-bit signed value at byte offset `i`.
pub open spec fn be_i16(s: Seq<u8>, i: int) -> int {
    if be_u16(s, i) >= 0x8000 {
        be_u16(s, i) - 0x10000
    } else {
        be_u16(s, i)
    }
}

/// The big-endian 32-bit unsigned value at byte offset `i`.
pub open spec fn be_u32(s: Seq<u8>, i: int) -> int {
    be_u16(s, i) * 0x10000 + be_u16(s, i + 2)
}

/// The big-endian 32-bit signed value at byte offset `i`.
pub open spec fn be_i32(s: Seq<u8>, i: int) -> int {
    if be_u32(s, i) >= 0x8000_0000 {
        be_u32(s, i) - 0x1_0000_0000
    } else {
        be_u32(s, i)
    }
}

/// The byte at offset `i`.
pub fn read_u8_at(data: &[u8], i: usize) -> (r: u8)
    requires
        i < data@.len(),
    ensures
        r == data@[i as int],
{
    data[i]
}

/// Read a big-endian `u16` at byte offset `i`.
pub fn read_u16_be(data: &[u8], i: usize) -> (r: u16)
    requires
        i + 2 <= data@.len(),
    ensures
        r == be_u16(data@, i as int),
{
    let hi = data[i] as u16;
    let lo = data[i + 1] as u16;
    hi * 0x100 + lo
}

/// Read a big-endian `i16` at byte offset `i`.
pub fn read_i16_be(data: &[u8], i: usize) -> (r: i16)
    requires
        i + 2 <= data@.len(),
    ensures
        r == be_i16(data@, i as int),
{
    let u = read_u16_be(data, i);
    if u >= 0x8000 {
        (u as i32 - 0x10000) as i16
    } else {
        u as i16
    }
}

/// Read a big-endian `u32` at byte offset `i`.
pub fn read_u32_be(data: &[u8], i: usize) -> (r: u32)
    requires
        i + 4 <= data@.len(),
    ensures
        r == be_u32(data@, i as int),
{
    let n: usize = data.len();
    let hi = read_u16_be(data, i) as u32;
    let lo = read_u16_be(data, i + 2) as u32;
    hi * 0x10000 + lo
}

/// Read a big-endian `i32` at byte offset `i`.
pub fn read_i32_be(data: &[u8], i: usize) -> (r: i32)
    requires
        i + 4 <= data@.len(),
    ensures
        r == be_i32(data@, i as int),
{
    let u = read_u32_be(data, i);
    if u >= 0x8000_0000 {
        ((u as i64) - 0x1_0000_0000) as i32
    } else {
        u as i32
    }
}

} // verus!
