//! Flags describing a linear PCM stream, as the host audio subsystem encodes
//! them: one bit per property, packed into a 32-bit word.

use vstd::prelude::*;

verus! {

/// Bit set when the stream carries floating-point samples.
pub const IS_FLOAT: u32 = 0x1;
/// Bit set when the stream carries big-endian samples.
pub const IS_BIG_ENDIAN: u32 = 0x2;
/// Bit set when the stream carries signed-integer samples.
pub const IS_SIGNED_INTEGER: u32 = 0x4;
/// Bit set when sample words are packed with no padding bits.
pub const IS_PACKED: u32 = 0x8;
/// Bit set when padded sample words are aligned high.
pub const IS_ALIGNED_HIGH: u32 = 0x10;
/// Bit set when the buffer layout is planar (one region per channel) rather
/// than interleaved.
pub const IS_NON_INTERLEAVED: u32 = 0x20;
/// Bit set when the stream must not be mixed with others.
pub const IS_NON_MIXABLE: u32 = 0x40;

/// The flag word of a linear PCM stream description.
#[derive(Copy, Clone, Debug, PartialEq, Eq, Structural)]
pub struct LinearPcmFlags {
    pub bits: u32,
}

impl LinearPcmFlags {
    /// True when every bit of `mask` is set in this flag word.
    pub open spec fn spec_contains(self, mask: u32) -> bool {
        self.bits & mask == mask
    }

    /// The flag word with no bit set.
    pub fn empty() -> (r: Self)
        ensures
            r.bits == 0,
    {
        LinearPcmFlags { bits: 0 }
    }

    /// The flag word with exactly the given bits set.
    pub fn from_bits(bits: u32) -> (r: Self)
        ensures
            r.bits == bits,
    {
        LinearPcmFlags { bits }
    }

    /// Whether every bit of `mask` is set.
    pub fn contains(&self, mask: u32) -> (r: bool)
        ensures
            r == self.spec_contains(mask),
    {
        self.bits & mask == mask
    }

    /// This flag word with the bits of `mask` set as well.
    pub fn union(self, mask: u32) -> (r: Self)
        ensures
            r.bits == (self.bits | mask),
    {
        LinearPcmFlags { bits: self.bits | mask }
    }
}

} // verus!
