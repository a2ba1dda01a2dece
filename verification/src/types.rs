use vstd::prelude::*;

verus! {

/// A point of the plane.
///
/// Each coordinate is carried as the bit pattern of an IEEE 754
/// single-precision number, exactly as it travels on the wire. No pattern is
/// rejected: NaN and the infinities are carried like any other value.
#[derive(Clone, Copy, Debug)]
pub struct Vec2 {
    pub x: u32,
    pub y: u32,
}

impl Vec2 {
    /// The point with the given coordinate bit patterns.
    pub fn new(x: u32, y: u32) -> (v: Self)
        ensures
            v.x == x,
            v.y == y,
    {
        Vec2 { x, y }
    }

    /// The origin: both coordinates are positive zero, whose bit pattern is 0.
    pub fn zero() -> (v: Self)
        ensures
            v == Vec2::spec_zero(),
    {
        Vec2::new(0, 0)
    }

    /// The origin as a specification value.
    pub open spec fn spec_zero() -> Self {
        Vec2 { x: 0, y: 0 }
    }
}

} // verus!
