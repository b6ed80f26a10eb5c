//! An item's affine transform in canvas space.

use vstd::prelude::*;

use crate::spaces::{float_eq, CanvasVector, Scalar, ONE_BITS, ZERO_BITS};

verus! {

/// An item's affine transform in canvas space: position, per-axis scale,
/// rotation (radians) and the two mirror flags. `==` compares the values
/// with floating-point equality and the flags as they are.
#[derive(Debug, Clone, Copy)]
pub struct Transform {
    pub pos: CanvasVector,
    pub scale: CanvasVector,
    pub rotation: Scalar,
    pub flip_h: bool,
    pub flip_v: bool,
}

impl PartialEq for Transform {
    fn eq(&self, other: &Self) -> (r: bool) {
        self.pos == other.pos && self.scale == other.scale && self.rotation == other.rotation
            && self.flip_h == other.flip_h && self.flip_v == other.flip_v
    }
}

impl vstd::std_specs::cmp::PartialEqSpecImpl for Transform {
    open spec fn obeys_eq_spec() -> bool {
        true
    }

    open spec fn eq_spec(&self, other: &Self) -> bool {
        &&& float_eq(self.pos.x.bits, other.pos.x.bits)
        &&& float_eq(self.pos.y.bits, other.pos.y.bits)
        &&& float_eq(self.scale.x.bits, other.scale.x.bits)
        &&& float_eq(self.scale.y.bits, other.scale.y.bits)
        &&& float_eq(self.rotation.bits, other.rotation.bits)
        &&& self.flip_h == other.flip_h
        &&& self.flip_v == other.flip_v
    }
}

/// The transform that `Transform::new` builds: the given position and scale,
/// no rotation, no flips.
pub open spec fn new_transform(pos_x: Scalar, pos_y: Scalar, scale_x: Scalar, scale_y: Scalar) -> Transform {
    Transform {
        pos: CanvasVector { x: pos_x, y: pos_y },
        scale: CanvasVector { x: scale_x, y: scale_y },
        rotation: Scalar { bits: ZERO_BITS },
        flip_h: false,
        flip_v: false,
    }
}

impl Default for Transform {
    /// Origin position, unit scale, no rotation, no flips.
    fn default() -> (r: Self)
        ensures
            r == new_transform(
                Scalar { bits: ZERO_BITS },
                Scalar { bits: ZERO_BITS },
                Scalar { bits: ONE_BITS },
                Scalar { bits: ONE_BITS },
            ),
    {
        Transform {
            pos: CanvasVector::zero(),
            scale: CanvasVector::new(Scalar::one(), Scalar::one()),
            rotation: Scalar::zero(),
            flip_h: false,
            flip_v: false,
        }
    }
}

impl Transform {
    pub fn new(pos_x: Scalar, pos_y: Scalar, scale_x: Scalar, scale_y: Scalar) -> (r: Self)
        ensures
            r == new_transform(pos_x, pos_y, scale_x, scale_y),
    {
        Transform {
            pos: CanvasVector::new(pos_x, pos_y),
            scale: CanvasVector::new(scale_x, scale_y),
            rotation: Scalar::zero(),
            flip_h: false,
            flip_v: false,
        }
    }

    /// Mirrors horizontally; nothing else changes.
    pub fn flip_horizontal(&mut self)
        ensures
            *final(self) == (Transform { flip_h: !old(self).flip_h, ..*old(self) }),
    {
        self.flip_h = !self.flip_h;
    }

    /// Mirrors vertically; nothing else changes.
    pub fn flip_vertical(&mut self)
        ensures
            *final(self) == (Transform { flip_v: !old(self).flip_v, ..*old(self) }),
    {
        self.flip_v = !self.flip_v;
    }
}

} // verus!
