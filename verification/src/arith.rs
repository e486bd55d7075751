//! Byte and short helpers shared by the CPU, the stacks and the devices:
//! big-endian pairing of bytes into shorts and modular 16-bit arithmetic.

use vstd::prelude::*;

verus! {

/// High byte of a big-endian short.
pub open spec fn hi_byte(x: u16) -> u8 {
    (x / 0x100) as u8
}

/// Low byte of a big-endian short.
pub open spec fn lo_byte(x: u16) -> u8 {
    (x % 0x100) as u8
}

/// The short encoded big-endian by the byte pair `(hi, lo)`.
pub open spec fn be_short(hi: u8, lo: u8) -> u16 {
    (hi * 0x100 + lo) as u16
}

/// Splits a short into its big-endian byte pair.
pub fn split_short(x: u16) -> (r: (u8, u8))
    ensures
        r.0 == hi_byte(x),
        r.1 == lo_byte(x),
{
    ((x / 0x100) as u8, (x % 0x100) as u8)
}

/// Joins a big-endian byte pair into a short.
pub fn join_short(hi: u8, lo: u8) -> (r: u16)
    ensures
        r == be_short(hi, lo),
{
    hi as u16 * 0x100 + lo as u16
}

/// Splitting a short big-endian and joining the pair gives the short back.
pub proof fn lemma_split_join(x: u16)
    ensures
        be_short(hi_byte(x), lo_byte(x)) == x,
{
}

/// The smaller of two bytes.
pub open spec fn spec_min_u8(a: u8, b: u8) -> u8 {
    if a < b {
        a
    } else {
        b
    }
}

/// The smaller of two bytes.
pub fn min_u8(a: u8, b: u8) -> (r: u8)
    ensures
        r == spec_min_u8(a, b),
{
    if a < b {
        a
    } else {
        b
    }
}

/// A vector of `n` zero bytes.
pub fn zeroed(n: usize) -> (r: Vec<u8>)
    ensures
        r@.len() == n,
        forall|i: int| 0 <= i < n ==> r@[i] == 0u8,
{
    let mut v: Vec<u8> = Vec::new();
    while v.len() < n
        invariant
            v@.len() <= n,
            forall|i: int| 0 <= i < v@.len() ==> v@[i] == 0u8,
        decreases n - v@.len(),
    {
        v.push(0);
    }
    v
}

} // verus!
