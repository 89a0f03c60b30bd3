//! Arcball-style orbit camera core.
//!
//! Pointer and touch input is accumulated into an orbit orientation
//! (a quaternion) and a zoom distance; each frame a world transform
//! (position plus look-at axes) is derived from orientation, distance
//! and the look-at target.
//!
//! All arithmetic is exact: scalars are signed 16.16 fixed-point values
//! (`SCALE` units per 1.0), so every contract states the result of a
//! computation precisely.

use vstd::prelude::*;

pub mod camera;
pub mod math;
pub mod quat;
pub mod stages;
pub mod touch;
pub mod vec;

verus! {

/// Number of fixed-point units per 1.0: scalars are 16.16 fixed point.
pub const SCALE: i64 = 65536;

} // verus!
