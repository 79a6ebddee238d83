//! Byte order.
//!
//! A value "in network order" is the integer whose least significant byte is
//! the first byte on the wire; a value "in host order" is the number itself.
//! One is the byte swap of the other.

use vstd::prelude::*;

verus! {

/// The 16-bit value with its two bytes exchanged.
pub open spec fn spec_swap16(x: u16) -> u16 {
    ((x % 256) * 256 + x / 256) as u16
}

/// The 32-bit value with its four bytes in reverse order.
pub open spec fn spec_swap32(x: u32) -> u32 {
    ((x % 256) * 16777216 + ((x / 256) % 256) * 65536 + ((x / 65536) % 256) * 256 + x
        / 16777216) as u32
}

/// Converts a 16-bit value between host and network order.
pub fn swap16(x: u16) -> (r: u16)
    ensures
        r == spec_swap16(x),
        spec_swap16(r) == x,
{
    (x % 256) * 256 + x / 256
}

/// Converts a 32-bit value between host and network order.
pub fn swap32(x: u32) -> (r: u32)
    ensures
        r == spec_swap32(x),
        spec_swap32(r) == x,
{
    proof {
        lemma_swap_involutive(0, x);
    }
    (x % 256) * 16777216 + ((x / 256) % 256) * 65536 + ((x / 65536) % 256) * 256 + x / 16777216
}

/// Swapping twice gives the value back, so the swap is one-to-one.
pub proof fn lemma_swap_involutive(a: u16, b: u32)
    ensures
        spec_swap16(spec_swap16(a)) == a,
        spec_swap32(spec_swap32(b)) == b,
{
    assert(spec_swap32(spec_swap32(b)) == b) by (bit_vector);
}

/// The network-order word made of two wire bytes, first byte first.
pub open spec fn net16(b0: u8, b1: u8) -> u16 {
    (b0 + 256 * b1) as u16
}

/// The network-order word made of four wire bytes, first byte first.
pub open spec fn net32(b0: u8, b1: u8, b2: u8, b3: u8) -> u32 {
    (b0 + 256 * b1 + 65536 * b2 + 16777216 * b3) as u32
}

} // verus!
