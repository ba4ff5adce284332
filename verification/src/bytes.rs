//! Little-endian integers and bit fields read out of byte sequences.

use vstd::prelude::*;

verus! {

/// The unsigned value of two bytes in little-endian order.
pub open spec fn le_u16(lo: u8, hi: u8) -> int {
    lo + 256 * hi
}

/// The unsigned value of four bytes in little-endian order.
pub open spec fn le_u32(b0: u8, b1: u8, b2: u8, b3: u8) -> int {
    b0 + 256 * b1 + 65536 * b2 + 16777216 * b3
}

/// The upper four bits of a byte.
pub open spec fn hi_nibble(b: u8) -> u8 {
    b / 16
}

/// The lower four bits of a byte.
pub open spec fn lo_nibble(b: u8) -> u8 {
    b % 16
}

/// Reads a little-endian `u16` at `at`.
pub fn read_le_u16(s: &[u8], at: usize) -> (v: u16)
    requires
        at + 2 <= s@.len(),
    ensures
        v == le_u16(s@[at as int], s@[at + 1]),
{
    s[at] as u16 + (s[at + 1] as u16) * 256
}

/// Reads a little-endian `u32` at `at`.
pub fn read_le_u32(s: &[u8], at: usize) -> (v: u32)
    requires
        at + 4 <= s@.len(),
    ensures
        v == le_u32(s@[at as int], s@[at + 1], s@[at + 2], s@[at + 3]),
{
    s[at] as u32 + (s[at + 1] as u32) * 256 + (s[at + 2] as u32) * 65536 + (s[at + 3] as u32)
        * 16777216
}

/// Copies the 25 bytes that start at `at`.
pub fn copy25(s: &[u8], at: usize) -> (m: [u8; 25])
    requires
        at + 25 <= s@.len(),
    ensures
        m@ == s@.subrange(at as int, at + 25),
{
    let m: [u8; 25] = [
        s[at], s[at + 1], s[at + 2], s[at + 3], s[at + 4], s[at + 5], s[at + 6], s[at + 7],
        s[at + 8], s[at + 9], s[at + 10], s[at + 11], s[at + 12], s[at + 13], s[at + 14],
        s[at + 15], s[at + 16], s[at + 17], s[at + 18], s[at + 19], s[at + 20], s[at + 21],
        s[at + 22], s[at + 23], s[at + 24],
    ];
    assert(m@ =~= s@.subrange(at as int, at + 25));
    m
}

/// Copies the 6 bytes that start at `at`.
pub fn copy6(s: &[u8], at: usize) -> (m: [u8; 6])
    requires
        at + 6 <= s@.len(),
    ensures
        m@ == s@.subrange(at as int, at + 6),
{
    let m: [u8; 6] = [s[at], s[at + 1], s[at + 2], s[at + 3], s[at + 4], s[at + 5]];
    assert(m@ =~= s@.subrange(at as int, at + 6));
    m
}

} // verus!
