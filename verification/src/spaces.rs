//! Coordinate-space tags and the plain value types that canvas geometry is
//! carried in.
//!
//! Conventions:
//! - `CanvasSpace`: canvas world coordinates (an item's `transform.pos` lives here).
//! - `ScreenSpace`: screen pixel coordinates.
//!
//! Single-precision values are carried as [`Scalar`], i.e. by their IEEE-754
//! bit pattern. The scene logic in this crate copies such values but never
//! computes with them; arithmetic on them is done by the caller.

use vstd::prelude::*;

verus! {

/// Canvas world coordinate space.
#[derive(Debug, Clone, Copy, PartialEq, Eq, Default)]
pub struct CanvasSpace;

/// Screen pixel coordinate space.
#[derive(Debug, Clone, Copy, PartialEq, Eq, Default)]
pub struct ScreenSpace;

/// A single-precision floating-point value, held by its IEEE-754 bit pattern.
///
/// `==` is floating-point equality (see [`float_eq`]).
#[derive(Debug, Clone, Copy)]
pub struct Scalar {
    pub bits: u32,
}

/// Bit pattern of `0.0`.
pub const ZERO_BITS: u32 = 0x0000_0000u32;

/// Bit pattern of `1.0`.
pub const ONE_BITS: u32 = 0x3f80_0000u32;

/// The bits of a pattern without its sign bit.
pub open spec fn magnitude_bits(b: u32) -> u32 {
    b & 0x7fff_ffffu32
}

/// Whether a bit pattern is a NaN: every exponent bit set and a non-zero
/// fraction.
pub open spec fn is_nan_bits(b: u32) -> bool {
    magnitude_bits(b) > 0x7f80_0000u32
}

/// IEEE-754 equality of two values given by their bit patterns: a NaN equals
/// nothing, not even itself; `+0.0` equals `-0.0`; any other two values are
/// equal exactly when their bit patterns are.
pub open spec fn float_eq(a: u32, b: u32) -> bool {
    &&& !is_nan_bits(a)
    &&& !is_nan_bits(b)
    &&& (a == b || (magnitude_bits(a) == 0 && magnitude_bits(b) == 0))
}

impl PartialEq for Scalar {
    fn eq(&self, other: &Self) -> (r: bool) {
        let a: u32 = self.bits & 0x7fff_ffffu32;
        let b: u32 = other.bits & 0x7fff_ffffu32;
        a <= 0x7f80_0000u32 && b <= 0x7f80_0000u32 && (self.bits == other.bits || (a == 0 && b == 0))
    }
}

impl vstd::std_specs::cmp::PartialEqSpecImpl for Scalar {
    open spec fn obeys_eq_spec() -> bool {
        true
    }

    open spec fn eq_spec(&self, other: &Self) -> bool {
        float_eq(self.bits, other.bits)
    }
}

impl Scalar {
    /// The value `0.0`.
    pub fn zero() -> (r: Scalar)
        ensures
            r.bits == ZERO_BITS,
    {
        Scalar { bits: ZERO_BITS }
    }

    /// The value `1.0`.
    pub fn one() -> (r: Scalar)
        ensures
            r.bits == ONE_BITS,
    {
        Scalar { bits: ONE_BITS }
    }
}

/// A 2D vector in canvas space. `==` compares the two coordinates with
/// floating-point equality.
#[derive(Debug, Clone, Copy)]
pub struct CanvasVector {
    pub x: Scalar,
    pub y: Scalar,
}

impl PartialEq for CanvasVector {
    fn eq(&self, other: &Self) -> (r: bool) {
        self.x == other.x && self.y == other.y
    }
}

impl vstd::std_specs::cmp::PartialEqSpecImpl for CanvasVector {
    open spec fn obeys_eq_spec() -> bool {
        true
    }

    open spec fn eq_spec(&self, other: &Self) -> bool {
        float_eq(self.x.bits, other.x.bits) && float_eq(self.y.bits, other.y.bits)
    }
}

impl CanvasVector {
    pub fn new(x: Scalar, y: Scalar) -> (r: CanvasVector)
        ensures
            r.x == x,
            r.y == y,
    {
        CanvasVector { x, y }
    }

    /// The zero vector.
    pub fn zero() -> (r: CanvasVector)
        ensures
            r.x.bits == ZERO_BITS,
            r.y.bits == ZERO_BITS,
    {
        CanvasVector { x: Scalar::zero(), y: Scalar::zero() }
    }
}

} // verus!
