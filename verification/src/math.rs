use vstd::prelude::*;

verus! {

/// Bit of a binary64 pattern that holds the sign.
pub const SIGN_BIT: u64 = 0x8000_0000_0000_0000;

/// Smallest magnitude pattern whose exponent field is all ones (infinity); every pattern with a
/// magnitude at or above it is infinite or NaN.
pub const EXPONENT_ALL_ONES: u64 = 0x7ff0_0000_0000_0000;

/// Magnitude of a binary64 pattern: the pattern with its sign bit cleared.
pub open spec fn magnitude(bits: u64) -> u64 {
    if bits >= SIGN_BIT {
        (bits - SIGN_BIT) as u64
    } else {
        bits
    }
}

/// A binary64 pattern that is neither infinite nor NaN.
pub open spec fn is_finite_bits(bits: u64) -> bool {
    magnitude(bits) < EXPONENT_ALL_ONES
}

/// A binary64 pattern that encodes `+0.0` or `-0.0`.
pub open spec fn is_zero_bits(bits: u64) -> bool {
    magnitude(bits) == 0
}

/// A binary64 pattern that encodes a value strictly below zero (NaN is not below zero).
pub open spec fn is_negative_bits(bits: u64) -> bool {
    bits >= SIGN_BIT && magnitude(bits) != 0 && magnitude(bits) <= EXPONENT_ALL_ONES
}

/// A binary64 pattern that encodes a value strictly above zero (NaN is not above zero).
pub open spec fn is_positive_bits(bits: u64) -> bool {
    bits < SIGN_BIT && bits != 0 && bits <= EXPONENT_ALL_ONES
}

/// Whether a binary64 pattern is finite.
pub fn finite_bits(bits: u64) -> (finite: bool)
    ensures
        finite == is_finite_bits(bits),
{
    let magnitude_bits = if bits >= SIGN_BIT {
        bits - SIGN_BIT
    } else {
        bits
    };
    magnitude_bits < EXPONENT_ALL_ONES
}

/// Whether a binary64 pattern encodes a zero of either sign.
pub fn zero_bits(bits: u64) -> (zero: bool)
    ensures
        zero == is_zero_bits(bits),
{
    bits == 0 || bits == SIGN_BIT
}

/// Whether a binary64 pattern encodes a value strictly below zero.
pub fn negative_bits(bits: u64) -> (negative: bool)
    ensures
        negative == is_negative_bits(bits),
{
    bits > SIGN_BIT && bits - SIGN_BIT <= EXPONENT_ALL_ONES
}

/// Whether a binary64 pattern encodes a value strictly above zero.
pub fn positive_bits(bits: u64) -> (positive: bool)
    ensures
        positive == is_positive_bits(bits),
{
    bits != 0 && bits <= EXPONENT_ALL_ONES
}

/// Bit of a binary32 pattern that holds the sign.
pub const SIGN_BIT_32: u32 = 0x8000_0000;

/// Smallest binary32 magnitude pattern whose exponent field is all ones (infinity).
pub const EXPONENT_ALL_ONES_32: u32 = 0x7f80_0000;

/// Magnitude of a binary32 pattern: the pattern with its sign bit cleared.
pub open spec fn magnitude_32(bits: u32) -> u32 {
    if bits >= SIGN_BIT_32 {
        (bits - SIGN_BIT_32) as u32
    } else {
        bits
    }
}

/// A binary32 pattern that is neither infinite nor NaN.
pub open spec fn is_finite_bits_32(bits: u32) -> bool {
    magnitude_32(bits) < EXPONENT_ALL_ONES_32
}

/// A binary32 pattern that encodes a value strictly below zero (NaN is not below zero).
pub open spec fn is_negative_bits_32(bits: u32) -> bool {
    bits >= SIGN_BIT_32 && magnitude_32(bits) != 0 && magnitude_32(bits) <= EXPONENT_ALL_ONES_32
}

/// Whether a binary32 pattern is finite.
pub fn finite_bits_32(bits: u32) -> (finite: bool)
    ensures
        finite == is_finite_bits_32(bits),
{
    let magnitude_bits = if bits >= SIGN_BIT_32 {
        bits - SIGN_BIT_32
    } else {
        bits
    };
    magnitude_bits < EXPONENT_ALL_ONES_32
}

/// Whether a binary32 pattern encodes a value strictly below zero.
pub fn negative_bits_32(bits: u32) -> (negative: bool)
    ensures
        negative == is_negative_bits_32(bits),
{
    bits > SIGN_BIT_32 && bits - SIGN_BIT_32 <= EXPONENT_ALL_ONES_32
}

/// How a binary64 pattern's sign and class follow from its number: patterns below `2^63` have the
/// sign bit clear and are `+0.0`, positive numbers, `+inf` or NaNs; `0x7ff0_0000_0000_0000` is
/// `+inf` and everything above it up to `2^63` is NaN; patterns from `2^63` on mirror them with
/// the sign bit set. A value is finite exactly below the infinity pattern of its sign; below zero
/// exactly from `-0.0` (excluded) up to `-inf` (included); above zero exactly from the smallest
/// positive pattern up to `+inf`; zero exactly at `+0.0` and `-0.0`. So a pattern with the sign bit
/// clear is never below zero, and one with the sign bit set is never above zero.
pub proof fn lemma_binary64_sign_and_class(bits: u64)
    ensures
        is_finite_bits(bits) <==> (bits < 0x7ff0_0000_0000_0000 || (0x8000_0000_0000_0000 <= bits
            && bits < 0xfff0_0000_0000_0000)),
        is_negative_bits(bits) <==> (0x8000_0000_0000_0000 < bits && bits
            <= 0xfff0_0000_0000_0000),
        is_positive_bits(bits) <==> (0 < bits && bits <= 0x7ff0_0000_0000_0000),
        is_zero_bits(bits) <==> (bits == 0 || bits == 0x8000_0000_0000_0000),
        bits < 0x8000_0000_0000_0000 ==> !is_negative_bits(bits),
        bits >= 0x8000_0000_0000_0000 ==> !is_positive_bits(bits),
{
}

/// The binary32 counterpart of [`lemma_binary64_sign_and_class`]: finite exactly below the
/// infinity pattern `0x7f80_0000` of either sign, below zero exactly from `-0.0` (excluded) up to
/// `-inf` (`0xff80_0000`, included); a pattern with the sign bit clear is never below zero.
pub proof fn lemma_binary32_sign_and_class(bits: u32)
    ensures
        is_finite_bits_32(bits) <==> (bits < 0x7f80_0000 || (0x8000_0000 <= bits && bits
            < 0xff80_0000)),
        is_negative_bits_32(bits) <==> (0x8000_0000 < bits && bits <= 0xff80_0000),
        bits < 0x8000_0000 ==> !is_negative_bits_32(bits),
{
}

/// A point or displacement in cloth space.
///
/// Each component is the IEEE-754 binary64 bit pattern of the coordinate (what `f64::to_bits`
/// returns). Keeping the exact pattern makes fingerprints and replay comparisons bit-exact.
#[derive(Clone, Copy, Debug, PartialEq, Eq, Structural)]
pub struct Vec3 {
    pub x: u64,
    pub y: u64,
    pub z: u64,
}

impl Vec3 {
    /// Builds a vector from the bit patterns of its three coordinates.
    pub fn new(x: u64, y: u64, z: u64) -> (v: Self)
        ensures
            v == (Vec3 { x, y, z }),
    {
        Vec3 { x, y, z }
    }

    /// All three coordinates are finite.
    pub open spec fn spec_is_finite(self) -> bool {
        is_finite_bits(self.x) && is_finite_bits(self.y) && is_finite_bits(self.z)
    }

    /// Whether all three coordinates are finite.
    #[verifier::when_used_as_spec(spec_is_finite)]
    pub fn is_finite(self) -> (finite: bool)
        ensures
            finite == self.spec_is_finite(),
    {
        finite_bits(self.x) && finite_bits(self.y) && finite_bits(self.z)
    }
}

} // verus!
