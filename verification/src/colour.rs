//! Colours and the fixed-size palette scaling rule.

use vstd::prelude::*;

verus! {

/// An RGB colour with three independent 8-bit channels.
#[derive(Clone, Copy, Debug, PartialEq, Eq, Structural)]
pub struct Colour {
    pub r: u8,
    pub g: u8,
    pub b: u8,
}

/// Number of entries in every palette.
pub const PALETTE_SIZE: usize = 256;

/// The decoded value of a stored channel byte: the byte times four, keeping
/// the low eight bits.
pub open spec fn scaled(raw: u8) -> u8 {
    ((raw as int * 4) % 256) as u8
}

/// Scales a stored channel byte to its in-memory value by shifting it left
/// two bits.
pub fn scale_channel(raw: u8) -> (c: u8)
    ensures
        c == scaled(raw),
{
    let c: u8 = raw << 2;
    assert(c == ((raw as int * 4) % 256) as u8) by (bit_vector)
        requires
            c == raw << 2,
    ;
    c
}

impl Colour {
    /// The fill colour of a fresh palette.
    pub fn black() -> (c: Colour)
        ensures
            c == (Colour { r: 0, g: 0, b: 0 }),
    {
        Colour { r: 0, g: 0, b: 0 }
    }
}

} // verus!
