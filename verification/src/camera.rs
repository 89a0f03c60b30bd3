//! The orbit camera component: enable flags, look-at target, zoom
//! distance and the accumulated orientation quaternion.

use vstd::prelude::*;

use crate::math::{clamp_spec, cos_fp, cos_fp_spec, div_trunc, sin_fp, sin_fp_spec, tdiv};
use crate::quat::{
    lemma_q_identity_scaled_norm, lemma_q_mul_scaled_bound, q_bounded, q_identity_scaled,
    q_mul_scaled, q_norm2, q_renorm_spec, Quat, QuatModel,
};
use crate::vec::Vec3I;

verus! {

/// Orbit camera state. `distance` and the components of `look_at` are
/// 16.16 fixed-point scalars; `rotation` is the accumulated orientation.
#[derive(Clone, Copy, Debug, PartialEq, Eq, Structural)]
pub struct ArcballCamera {
    /// Whether camera zoom responds to user input.
    pub zoom_enabled: bool,
    /// Whether camera orbit responds to user input.
    pub orbit_enabled: bool,
    pub look_at: Vec3I,
    pub distance: i64,
    pub rotation: Quat,
}

/// The state every camera operation preserves: a non-negative distance
/// and an orientation kept component-bounded and non-degenerate by
/// renormalization — its squared norm stays between `(SCALE / 2)^2`
/// and `(2 * SCALE)^2`.
pub open spec fn camera_ok(c: ArcballCamera) -> bool {
    &&& c.distance >= 0
    &&& q_bounded(c.rotation@, 65536)
    &&& 1073741824 <= q_norm2(c.rotation@) <= 17179869184
}

/// The half-angle that a full rotation angle contributes to an axis
/// rotation quaternion, clamped to `pi/4` (an eighth of a turn) so the
/// truncated trigonometric series stays accurate; the full per-call
/// rotation is thus limited to a quarter turn per axis.
pub open spec fn half_angle(a: int) -> int {
    clamp_spec(tdiv(a, 2), -51472, 51472)
}

/// The fixed-point quaternion for a rotation of `a` (16.16 radians,
/// clamped to a quarter turn) about the X axis.
pub open spec fn rot_x_quat(a: int) -> QuatModel {
    QuatModel { x: sin_fp_spec(half_angle(a)), y: 0, z: 0, w: cos_fp_spec(half_angle(a)) }
}

/// The fixed-point quaternion for a rotation of `a` about the Y axis.
pub open spec fn rot_y_quat(a: int) -> QuatModel {
    QuatModel { x: 0, y: sin_fp_spec(half_angle(a)), z: 0, w: cos_fp_spec(half_angle(a)) }
}

/// The orientation after composing a relative X-then-Y rotation onto
/// `rot` and renormalizing.
pub open spec fn rotate_xy_spec(rot: QuatModel, x: int, y: int) -> QuatModel {
    q_renorm_spec(q_mul_scaled(rot, q_mul_scaled(rot_x_quat(x), rot_y_quat(y))))
}

impl ArcballCamera {
    /// A camera at `distance` from the origin, fully enabled, with the
    /// identity orientation.
    pub fn new(distance: i64) -> (c: ArcballCamera)
        requires
            distance >= 0,
        ensures
            c.zoom_enabled,
            c.orbit_enabled,
            c.look_at.x == 0 && c.look_at.y == 0 && c.look_at.z == 0,
            c.distance == distance,
            c.rotation@ == q_identity_scaled(),
            camera_ok(c),
    {
        proof {
            lemma_q_identity_scaled_norm();
        }
        ArcballCamera {
            zoom_enabled: true,
            orbit_enabled: true,
            look_at: Vec3I { x: 0, y: 0, z: 0 },
            distance,
            rotation: Quat::identity(),
        }
    }

    /// Rotate to a position on the orbit sphere that is `x` (16.16
    /// radians) further rotated about the X axis and `y` about the Y
    /// axis; both full angles are clamped to a quarter turn per call.
    pub fn rotate_xy(&mut self, x: i64, y: i64)
        requires
            q_bounded(old(self).rotation@, 65536),
            x > i64::MIN,
            y > i64::MIN,
        ensures
            final(self).rotation@ == rotate_xy_spec(old(self).rotation@, x as int, y as int),
            q_bounded(final(self).rotation@, 65536),
            1073741824 <= q_norm2(final(self).rotation@) <= 17179869184,
            final(self).zoom_enabled == old(self).zoom_enabled,
            final(self).orbit_enabled == old(self).orbit_enabled,
            final(self).look_at == old(self).look_at,
            final(self).distance == old(self).distance,
    {
        let hx: i64 = crate::math::clamp_i64(div_trunc(x, 2), -51472, 51472);
        let hy: i64 = crate::math::clamp_i64(div_trunc(y, 2), -51472, 51472);
        let rx = Quat { x: sin_fp(hx), y: 0, z: 0, w: cos_fp(hx) };
        let ry = Quat { x: 0, y: sin_fp(hy), z: 0, w: cos_fp(hy) };
        proof {
            lemma_q_mul_scaled_bound(rx@, ry@, 66576, 66576, 270550);
        }
        let inc = rx.mul_scaled(&ry);
        self.rotation = self.rotation.mul_scaled(&inc).renormalize();
    }
}

impl Default for ArcballCamera {
    /// A fully enabled camera one unit from the origin.
    fn default() -> (c: Self)
        ensures
            c.zoom_enabled,
            c.orbit_enabled,
            c.look_at.x == 0 && c.look_at.y == 0 && c.look_at.z == 0,
            c.distance == 65536,
            c.rotation@ == q_identity_scaled(),
            camera_ok(c),
    {
        proof {
            lemma_q_identity_scaled_norm();
        }
        ArcballCamera {
            zoom_enabled: true,
            orbit_enabled: true,
            look_at: Vec3I { x: 0, y: 0, z: 0 },
            distance: 65536,
            rotation: Quat::identity(),
        }
    }
}

} // verus!
