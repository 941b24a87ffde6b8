//! Packing of 8-bit color channels into the 32-bit word the presentation
//! surface expects.

use vstd::prelude::*;

verus! {

/// Packs four 8-bit channels into one 32-bit little-endian word laid out as
/// bytes `[B, G, R, A]` from low to high: byte 0 is blue, byte 3 is alpha.
pub fn pack_bgra(b: u8, g: u8, r: u8, a: u8) -> (word: u32)
    ensures
        word == b + g * 0x100 + r * 0x1_0000 + a * 0x100_0000,
{
    (b as u32) + (g as u32) * 0x100 + (r as u32) * 0x1_0000 + (a as u32) * 0x100_0000
}

} // verus!
