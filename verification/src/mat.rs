//! Vectors of binary32 coordinates.
//!
//! A coordinate is an IEEE 754 binary32 value held by its bit pattern: bit 31
//! is the sign, the low 31 bits are the magnitude. Among the values that are
//! numbers, a larger magnitude pattern is a larger absolute value, which is
//! all this library needs to know of a coordinate.

use vstd::prelude::*;

verus! {

/// The low 31 bits of a pattern: its exponent and fraction.
pub const MAGNITUDE_MASK: u32 = 0x7fff_ffff;

/// The magnitude pattern of infinity; every larger magnitude is not a number.
pub const INFINITY: u32 = 0x7f80_0000;

/// The pattern of zero.
pub const ZERO: u32 = 0;

/// The pattern of one.
pub const ONE: u32 = 0x3f80_0000;

/// A point or direction in space.
#[derive(Copy, Clone, Debug, PartialEq, Eq, Structural)]
pub struct Vec3d {
    pub d0: u32,
    pub d1: u32,
    pub d2: u32,
}

/// A point of the texture plane.
#[derive(Copy, Clone, Debug, PartialEq, Eq, Structural)]
pub struct Vec2d {
    pub d0: u32,
    pub d1: u32,
}

/// A coordinate axis.
#[derive(Copy, Clone, Debug, PartialEq, Eq, Structural)]
pub enum Axis {
    X,
    Y,
    Z,
}

/// The pattern of the absolute value of `bits`.
pub open spec fn magnitude(bits: u32) -> u32 {
    bits & MAGNITUDE_MASK
}

/// Whether `bits` is the pattern of no number.
pub open spec fn is_nan(bits: u32) -> bool {
    magnitude(bits) > INFINITY
}

/// Whether `bits` is the pattern of a finite number: neither an infinity
/// nor no number.
pub open spec fn is_finite(bits: u32) -> bool {
    magnitude(bits) < INFINITY
}

/// Whether `bits` is the pattern of a finite number.
pub fn finite(bits: u32) -> (r: bool)
    ensures
        r == is_finite(bits),
{
    (bits & MAGNITUDE_MASK) < INFINITY
}

/// The magnitude by which `bits` counts towards an extent: that of its
/// absolute value, and nothing where `bits` is no number.
pub open spec fn weight(bits: u32) -> u32 {
    if is_nan(bits) {
        0
    } else {
        magnitude(bits)
    }
}

/// The larger of `extent` and the weight of `bits`.
pub open spec fn raised(extent: u32, bits: u32) -> u32 {
    if weight(bits) > extent {
        weight(bits)
    } else {
        extent
    }
}

/// Raises `extent` to the weight of `bits` where that is larger: the
/// comparison `|x| > extent` of two binary32 values, of which `extent` is
/// neither negative nor not a number.
pub fn raise(extent: u32, bits: u32) -> (r: u32)
    ensures
        r == raised(extent, bits),
        extent <= INFINITY ==> r <= INFINITY,
{
    let m: u32 = bits & MAGNITUDE_MASK;
    if m <= INFINITY && m > extent {
        m
    } else {
        extent
    }
}

impl Vec3d {
    pub fn new(d0: u32, d1: u32, d2: u32) -> (r: Self)
        ensures
            r == (Vec3d { d0, d1, d2 }),
    {
        Self { d0, d1, d2 }
    }

    /// The largest weight among the three coordinates, or `extent` if that
    /// is larger still.
    pub open spec fn raised(self, extent: u32) -> u32 {
        raised(raised(raised(extent, self.d0), self.d1), self.d2)
    }

    /// Whether all three coordinates are finite numbers.
    pub open spec fn is_finite(self) -> bool {
        is_finite(self.d0) && is_finite(self.d1) && is_finite(self.d2)
    }

    /// Whether no coordinate weighs more than `extent`.
    pub open spec fn within(self, extent: u32) -> bool {
        weight(self.d0) <= extent && weight(self.d1) <= extent && weight(self.d2) <= extent
    }

    /// Whether some coordinate weighs exactly `extent`.
    pub open spec fn reaches(self, extent: u32) -> bool {
        weight(self.d0) == extent || weight(self.d1) == extent || weight(self.d2) == extent
    }
}

impl Vec2d {
    pub fn new(d0: u32, d1: u32) -> (r: Self)
        ensures
            r == (Vec2d { d0, d1 }),
    {
        Self { d0, d1 }
    }
}

impl From<(u32, u32, u32)> for Vec3d {
    fn from(other: (u32, u32, u32)) -> (r: Self) {
        Vec3d::new(other.0, other.1, other.2)
    }
}

impl vstd::std_specs::convert::FromSpecImpl<(u32, u32, u32)> for Vec3d {
    open spec fn obeys_from_spec() -> bool {
        true
    }

    open spec fn from_spec(other: (u32, u32, u32)) -> Self {
        Vec3d { d0: other.0, d1: other.1, d2: other.2 }
    }
}

impl From<(u32, u32)> for Vec2d {
    fn from(other: (u32, u32)) -> (r: Self) {
        Vec2d::new(other.0, other.1)
    }
}

impl vstd::std_specs::convert::FromSpecImpl<(u32, u32)> for Vec2d {
    open spec fn obeys_from_spec() -> bool {
        true
    }

    open spec fn from_spec(other: (u32, u32)) -> Self {
        Vec2d { d0: other.0, d1: other.1 }
    }
}

} // verus!
