//! Per-axis scale and offset, and bounding boxes.
//!
//! The real numbers of the format are IEEE 754 binary64 values. This library carries each of
//! them as its bit pattern: it copies them between the raw and the validated header and never
//! computes with them, so the bits are exactly what a file holds.

use vstd::prelude::*;

verus! {

/// One value per axis.
#[derive(Clone, Copy, Debug, PartialEq, Eq, Default)]
pub struct Vector<T> {
    pub x: T,
    pub y: T,
    pub z: T,
}

/// Bit pattern of the binary64 value 0.001, the default scale.
pub const DEFAULT_SCALE_BITS: u64 = 0x3F50_624D_D2F1_A9FC;

/// The scale and offset that map a stored integer coordinate to a physical one:
/// `physical = integer * scale + offset`. Both are binary64 bit patterns.
#[derive(Clone, Copy, Debug, PartialEq, Eq, Structural)]
pub struct Transform {
    pub scale: u64,
    pub offset: u64,
}

impl Transform {
    /// Creates a transform from the bit patterns of its scale and offset.
    pub fn new(scale: u64, offset: u64) -> (r: Transform)
        ensures
            r.scale == scale,
            r.offset == offset,
    {
        Transform { scale, offset }
    }
}

impl Default for Transform {
    /// A scale of 0.001 and an offset of zero.
    fn default() -> (r: Transform)
        ensures
            r.scale == DEFAULT_SCALE_BITS,
            r.offset == 0,
    {
        Transform { scale: DEFAULT_SCALE_BITS, offset: 0 }
    }
}

/// The minimum and maximum corners of a box, as binary64 bit patterns.
#[derive(Clone, Copy, Debug, PartialEq, Eq, Default)]
pub struct Bounds {
    pub min: Vector<u64>,
    pub max: Vector<u64>,
}

/// The transform of each axis, the default one on all three.
pub fn default_transforms() -> (r: Vector<Transform>)
    ensures
        r.x == (Transform { scale: DEFAULT_SCALE_BITS, offset: 0 }),
        r.y == (Transform { scale: DEFAULT_SCALE_BITS, offset: 0 }),
        r.z == (Transform { scale: DEFAULT_SCALE_BITS, offset: 0 }),
{
    Vector { x: Transform::default(), y: Transform::default(), z: Transform::default() }
}

/// The box with both corners at the origin.
pub fn zero_bounds() -> (r: Bounds)
    ensures
        r.min == (Vector::<u64> { x: 0, y: 0, z: 0 }),
        r.max == (Vector::<u64> { x: 0, y: 0, z: 0 }),
{
    Bounds { min: Vector { x: 0, y: 0, z: 0 }, max: Vector { x: 0, y: 0, z: 0 } }
}

} // verus!
