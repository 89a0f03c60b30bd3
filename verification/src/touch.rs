//! Per-frame touch accumulation.
//!
//! The active touch points of a frame collapse into a single pan delta
//! (exactly one touch) or pinch delta (exactly two touches); any other
//! count yields zero deltas. Absence of touches is a normal state, not
//! an error.

use vstd::prelude::*;

use crate::math::{isqrt, isqrt_spec, lemma_mul_bound};
use crate::vec::{vec2_sub, Vec2I};

verus! {

/// Largest coordinate magnitude the touch math accepts: 2048 units
/// (logical pixels), beyond any screen, and small enough that squared
/// distances fit in 64 bits.
pub const COORD_MAX: i64 = 134217728;

/// One active touch point: where it is now and where it was last frame.
#[derive(Clone, Copy, Debug, PartialEq, Eq, Structural)]
pub struct TouchPoint {
    pub position: Vec2I,
    pub previous_position: Vec2I,
}

/// The deltas one frame of touch input collapses into.
#[derive(Clone, Copy, Debug, PartialEq, Eq, Structural)]
pub struct TouchDeltas {
    pub pan: Vec2I,
    pub pinch: i64,
}

/// Whether both components of `v` are within `COORD_MAX` in magnitude.
pub open spec fn coord_bounded(v: Vec2I) -> bool {
    -COORD_MAX <= v.x <= COORD_MAX && -COORD_MAX <= v.y <= COORD_MAX
}

/// Whether both positions of `t` are coordinate-bounded.
pub open spec fn touch_bounded(t: TouchPoint) -> bool {
    coord_bounded(t.position) && coord_bounded(t.previous_position)
}

/// Euclidean distance between two points, rounded down to an integer.
pub open spec fn dist_spec(p: Vec2I, q: Vec2I) -> int {
    isqrt_spec((p.x - q.x) * (p.x - q.x) + (p.y - q.y) * (p.y - q.y))
}

/// Euclidean distance (rounded down) between two coordinate-bounded points.
pub fn distance(p: &Vec2I, q: &Vec2I) -> (r: i64)
    requires
        coord_bounded(*p),
        coord_bounded(*q),
    ensures
        r == dist_spec(*p, *q),
        0 <= r <= 4 * COORD_MAX,
{
    let dx: i64 = p.x - q.x;
    let dy: i64 = p.y - q.y;
    proof {
        lemma_mul_bound(dx as int, dx as int, 2 * COORD_MAX as int, 2 * COORD_MAX as int);
        lemma_mul_bound(dy as int, dy as int, 2 * COORD_MAX as int, 2 * COORD_MAX as int);
        assert(dx * dx >= 0) by (nonlinear_arith);
        assert(dy * dy >= 0) by (nonlinear_arith);
    }
    let sq: i64 = dx * dx + dy * dy;
    let r: u64 = isqrt(sq as u64);
    proof {
        let s = 2 * COORD_MAX as int;
        assert(r as int * r as int <= sq as int);
        assert(r as int <= 2 * s) by (nonlinear_arith)
            requires
                r as int >= 0,
                s > 0,
                (r as int) * (r as int) <= 2 * (s * s);
    }
    r as i64
}

/// Collapse the frame's touch points into pan and pinch deltas:
/// one touch pans by its motion, two touches pinch by the change in
/// their separation, any other count leaves both deltas zero.
pub fn accumulate_touches(touches: &Vec<TouchPoint>) -> (r: TouchDeltas)
    requires
        forall|i: int| 0 <= i < touches@.len() ==> touch_bounded(touches@[i]),
    ensures
        touches@.len() == 1 ==> {
            &&& r.pan.x == touches@[0].position.x - touches@[0].previous_position.x
            &&& r.pan.y == touches@[0].position.y - touches@[0].previous_position.y
            &&& r.pinch == 0
        },
        touches@.len() == 2 ==> {
            &&& r.pan.x == 0 && r.pan.y == 0
            &&& r.pinch == dist_spec(touches@[0].position, touches@[1].position) - dist_spec(
                touches@[0].previous_position,
                touches@[1].previous_position,
            )
        },
        (touches@.len() == 0 || touches@.len() >= 3) ==> r.pan.x == 0 && r.pan.y == 0
            && r.pinch == 0,
{
    if touches.len() == 1 {
        let t = touches[0];
        TouchDeltas { pan: vec2_sub(&t.position, &t.previous_position), pinch: 0 }
    } else if touches.len() == 2 {
        let t1 = touches[0];
        let t2 = touches[1];
        let now = distance(&t1.position, &t2.position);
        let before = distance(&t1.previous_position, &t2.previous_position);
        TouchDeltas { pan: Vec2I { x: 0, y: 0 }, pinch: now - before }
    } else {
        TouchDeltas { pan: Vec2I { x: 0, y: 0 }, pinch: 0 }
    }
}

} // verus!
