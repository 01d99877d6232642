//! The output volume, a single-precision number carried as its IEEE-754 bit
//! pattern. Patterns without the sign bit are ordered as the numbers they
//! stand for, so that the range of the volume can be held without computing
//! with floating point.

use vstd::prelude::*;

verus! {

/// The bits of zero, which is also silence.
pub const ZERO_BITS: u32 = 0;

/// The bits of one, full volume.
pub const ONE_BITS: u32 = 0x3f80_0000;

/// The bits of infinity; larger patterns without the sign are not numbers.
pub const INFINITY_BITS: u32 = 0x7f80_0000;

/// The sign bit, alone the pattern of negative zero.
pub const SIGN_BIT: u32 = 0x8000_0000;

/// Whether the pattern stands for a number above one.
pub open spec fn exceeds_one(bits: u32) -> bool {
    ONE_BITS < bits <= INFINITY_BITS
}

/// Whether the pattern stands for a number from zero to one; negative zero
/// is zero.
pub open spec fn in_unit_range(bits: u32) -> bool {
    bits <= ONE_BITS || bits == SIGN_BIT
}

/// The volume that a requested volume leads to: what lies in range stays,
/// what lies above one becomes one, and what lies below zero or is no number
/// becomes zero.
pub open spec fn clamped(bits: u32) -> u32 {
    if in_unit_range(bits) {
        bits
    } else if exceeds_one(bits) {
        ONE_BITS
    } else {
        ZERO_BITS
    }
}

/// Limits a requested volume to the range from zero to one.
pub fn clamp_volume(bits: u32) -> (volume: u32)
    ensures
        volume == clamped(bits),
        in_unit_range(volume),
{
    if bits <= ONE_BITS || bits == SIGN_BIT {
        bits
    } else if bits <= INFINITY_BITS {
        ONE_BITS
    } else {
        ZERO_BITS
    }
}

/// The volume is always from zero to one, whatever was asked for.
pub proof fn law_volume_stays_in_range(bits: u32)
    ensures
        in_unit_range(clamped(bits)),
{
}

/// A volume in range is taken as it is, so that clamping twice is clamping
/// once.
pub proof fn law_volume_in_range_is_kept(bits: u32)
    ensures
        in_unit_range(bits) ==> clamped(bits) == bits,
        clamped(clamped(bits)) == clamped(bits),
{
}

} // verus!
