//! Little-endian integers in a byte buffer, read through accessors that
//! test the bounds first.

use vstd::prelude::*;

verus! {

/// The 16-bit little-endian integer whose first byte is `b[at]`.
pub open spec fn le_u16(b: Seq<u8>, at: int) -> int {
    b[at] as int + 256 * (b[at + 1] as int)
}

/// The 32-bit little-endian integer whose first byte is `b[at]`.
pub open spec fn le_u32(b: Seq<u8>, at: int) -> int {
    le_u16(b, at) + 65536 * le_u16(b, at + 2)
}

/// The 64-bit little-endian integer whose first byte is `b[at]`.
pub open spec fn le_u64(b: Seq<u8>, at: int) -> int {
    le_u32(b, at) + 4294967296 * le_u32(b, at + 4)
}

/// The `width` bytes from `at` on lie inside a buffer of `len` bytes.
pub open spec fn in_bounds(len: int, at: int, width: int) -> bool {
    0 <= at && at + width <= len
}

/// The two bytes at `at`, which lie inside `buf`.
pub fn u16_at(buf: &[u8], at: usize) -> (value: u16)
    requires
        in_bounds(buf.len() as int, at as int, 2),
    ensures
        value == le_u16(buf@, at as int),
{
    let lo: u16 = buf[at] as u16;
    let hi: u16 = buf[at + 1] as u16;
    lo + 256 * hi
}

/// The four bytes at `at`, which lie inside `buf`.
pub fn u32_at(buf: &[u8], at: usize) -> (value: u32)
    requires
        in_bounds(buf.len() as int, at as int, 4),
    ensures
        value == le_u32(buf@, at as int),
{
    let lo: u32 = u16_at(buf, at) as u32;
    let hi: u32 = u16_at(buf, at + 2) as u32;
    lo + 65536 * hi
}

/// The eight bytes at `at`, which lie inside `buf`.
pub fn u64_at(buf: &[u8], at: usize) -> (value: u64)
    requires
        in_bounds(buf.len() as int, at as int, 8),
    ensures
        value == le_u64(buf@, at as int),
{
    let lo: u64 = u32_at(buf, at) as u64;
    let hi: u64 = u32_at(buf, at + 4) as u64;
    lo + 4294967296 * hi
}

/// Whether the `width` bytes from `at` on lie inside `buf`.
pub fn fits(buf: &[u8], at: usize, width: usize) -> (inside: bool)
    ensures
        inside == in_bounds(buf.len() as int, at as int, width as int),
{
    at <= buf.len() && buf.len() - at >= width
}

/// Reads two bytes at `at`, or nothing where they do not lie inside `buf`.
pub fn read_u16(buf: &[u8], at: usize) -> (value: Option<u16>)
    ensures
        value is Some <==> in_bounds(buf.len() as int, at as int, 2),
        value matches Some(v) ==> v == le_u16(buf@, at as int),
{
    if fits(buf, at, 2) {
        Some(u16_at(buf, at))
    } else {
        None
    }
}

/// Reads four bytes at `at`, or nothing where they do not lie inside `buf`.
pub fn read_u32(buf: &[u8], at: usize) -> (value: Option<u32>)
    ensures
        value is Some <==> in_bounds(buf.len() as int, at as int, 4),
        value matches Some(v) ==> v == le_u32(buf@, at as int),
{
    if fits(buf, at, 4) {
        Some(u32_at(buf, at))
    } else {
        None
    }
}

/// Reads eight bytes at `at`, or nothing where they do not lie inside `buf`.
pub fn read_u64(buf: &[u8], at: usize) -> (value: Option<u64>)
    ensures
        value is Some <==> in_bounds(buf.len() as int, at as int, 8),
        value matches Some(v) ==> v == le_u64(buf@, at as int),
{
    if fits(buf, at, 8) {
        Some(u64_at(buf, at))
    } else {
        None
    }
}

} // verus!
