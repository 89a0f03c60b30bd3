//! Plain 2D and 3D integer vectors (16.16 fixed-point components).

use vstd::prelude::*;

verus! {

/// A 2D vector with 16.16 fixed-point components.
#[derive(Clone, Copy, Debug, PartialEq, Eq, Structural)]
pub struct Vec2I {
    pub x: i64,
    pub y: i64,
}

/// A 3D vector with 16.16 fixed-point components.
#[derive(Clone, Copy, Debug, PartialEq, Eq, Structural)]
pub struct Vec3I {
    pub x: i64,
    pub y: i64,
    pub z: i64,
}

/// Component-wise sum of two 2D vectors.
pub fn vec2_add(a: &Vec2I, b: &Vec2I) -> (r: Vec2I)
    requires
        a.x + b.x <= i64::MAX,
        i64::MIN <= a.x + b.x,
        a.y + b.y <= i64::MAX,
        i64::MIN <= a.y + b.y,
    ensures
        r.x == a.x + b.x,
        r.y == a.y + b.y,
{
    Vec2I { x: a.x + b.x, y: a.y + b.y }
}

/// Component-wise difference of two 2D vectors.
pub fn vec2_sub(a: &Vec2I, b: &Vec2I) -> (r: Vec2I)
    requires
        a.x - b.x <= i64::MAX,
        i64::MIN <= a.x - b.x,
        a.y - b.y <= i64::MAX,
        i64::MIN <= a.y - b.y,
    ensures
        r.x == a.x - b.x,
        r.y == a.y - b.y,
{
    Vec2I { x: a.x - b.x, y: a.y - b.y }
}

} // verus!
