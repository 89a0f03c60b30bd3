//! The per-frame stages: zoom, rotate, and transform reconstruction,
//! plus a `frame` driver that runs them in the host's fixed order and
//! gates the transform stage on change detection.
//!
//! Convention: the camera sits at `look_at + rotation * (+Z * distance)`
//! and its forward axis points from that position back at `look_at`.

use vstd::prelude::*;

use crate::camera::{rotate_xy_spec, ArcballCamera};
use crate::math::{div_trunc, isqrt, isqrt_spec, lemma_mul_bound, lemma_tdiv_bound, tdiv};
use crate::quat::{q_bounded, rot_apply_spec};
use crate::touch::TouchDeltas;
use crate::vec::{vec2_add, Vec2I, Vec3I};

verus! {

/// The unit a host reports accumulated wheel scroll in.
#[derive(Clone, Copy, Debug, PartialEq, Eq, Structural)]
pub enum ScrollUnit {
    /// Discrete lines; approximated as 16 pixels each.
    Line,
    /// Continuous pixels, used as-is.
    Pixel,
}

/// Logical (DPI-independent) size of a camera's viewport, 16.16 fixed
/// point.
#[derive(Clone, Copy, Debug, PartialEq, Eq, Structural)]
pub struct Viewport {
    pub width: i64,
    pub height: i64,
}

/// The viewport sizes the fixed-point stages accept: at least one
/// logical pixel (one unit) each way, at most 2048 units.
pub open spec fn viewport_ok(v: Viewport) -> bool {
    &&& 65536 <= v.width <= 134217728
    &&& 65536 <= v.height <= 134217728
}

/// Scroll delta in pixel units: line units count 16 pixels.
pub open spec fn scroll_to_pixels(dy: int, unit: ScrollUnit) -> int {
    match unit {
        ScrollUnit::Line => 16 * dy,
        ScrollUnit::Pixel => dy,
    }
}

/// Convert a scroll delta to pixel units.
pub fn normalize_scroll(dy: i64, unit: ScrollUnit) -> (r: i64)
    requires
        -1099511627776 <= dy <= 1099511627776,
    ensures
        r == scroll_to_pixels(dy as int, unit),
{
    match unit {
        ScrollUnit::Line => 16 * dy,
        ScrollUnit::Pixel => dy,
    }
}

/// Half the viewport diagonal, rounded down; at least 1 for an accepted
/// viewport.
pub open spec fn half_diag_spec(w: int, h: int) -> int {
    tdiv(isqrt_spec(w * w + h * h), 2)
}

/// A zoom delta normalized by half the viewport diagonal: the 16.16
/// representation of the ratio `d / (diagonal / 2)`.
pub open spec fn zoom_norm_spec(d: int, w: int, h: int) -> int {
    tdiv(d * 65536, half_diag_spec(w, h))
}

/// One zoom application: move in by `nd`, clamped at distance zero.
pub open spec fn zoom_apply(dist: int, nd: int) -> int {
    if dist - nd < 0 {
        0
    } else {
        dist - nd
    }
}

/// The distance after one zoom step against a viewport.
pub open spec fn zoom_step_spec(dist: int, d: int, w: int, h: int) -> int {
    zoom_apply(dist, zoom_norm_spec(d, w, h))
}

/// Adjust a camera's distance by the combined scroll-plus-pinch delta
/// `d`. A zero delta, a disabled zoom, or a missing viewport is a no-op
/// that does not mark the camera changed. The distance never goes
/// negative.
pub fn zoom_camera(cam: &mut ArcballCamera, d: i64, viewport: Option<Viewport>) -> (changed:
    bool)
    requires
        old(cam).distance >= 0,
        old(cam).distance <= 1099511627776,
        -1099511627776 <= d <= 1099511627776,
        viewport matches Some(v) ==> viewport_ok(v),
    ensures
        changed <==> (d != 0 && old(cam).zoom_enabled && viewport is Some),
        !changed ==> *final(cam) == *old(cam),
        changed ==> final(cam).distance == zoom_step_spec(
            old(cam).distance as int,
            d as int,
            viewport->Some_0.width as int,
            viewport->Some_0.height as int,
        ),
        final(cam).zoom_enabled == old(cam).zoom_enabled,
        final(cam).orbit_enabled == old(cam).orbit_enabled,
        final(cam).look_at == old(cam).look_at,
        final(cam).rotation == old(cam).rotation,
        final(cam).distance >= 0,
        d >= 0 ==> final(cam).distance <= old(cam).distance + 2 * d,
        d < 0 ==> final(cam).distance <= old(cam).distance - 2 * d,
{
    if d == 0 {
        return false;
    }
    if !cam.zoom_enabled {
        return false;
    }
    match viewport {
        None => false,
        Some(v) => {
            proof {
                lemma_mul_bound(v.width as int, v.width as int, 134217728, 134217728);
                lemma_mul_bound(v.height as int, v.height as int, 134217728, 134217728);
                assert(v.width * v.width >= 4294967296) by (nonlinear_arith)
                    requires
                        v.width >= 65536;
                assert(v.height * v.height >= 4294967296) by (nonlinear_arith)
                    requires
                        v.height >= 65536;
            }
            let sq: i64 = v.width * v.width + v.height * v.height;
            let diag: u64 = isqrt(sq as u64);
            proof {
                assert(diag >= 92681) by (nonlinear_arith)
                    requires
                        diag as int >= 0,
                        ((diag as int) + 1) * ((diag as int) + 1) > 8589934592;
            }
            let half: i64 = (diag / 2) as i64;
            proof {
                let dm: int = if d >= 0 { d as int } else { -(d as int) };
                // half is at least 32768, so the scaled quotient is at
                // most twice the delta in magnitude
                assert(half as int * (2 * dm) >= 65536 * dm) by (nonlinear_arith)
                    requires
                        half >= 32768,
                        dm >= 0;
                lemma_tdiv_bound(65536 * (d as int), half as int, 2 * dm);
            }
            let nd: i64 = div_trunc(d * 65536, half);
            let ndist: i64 = cam.distance - nd;
            cam.distance = if ndist < 0 {
                0
            } else {
                ndist
            };
            true
        },
    }
}

/// The full pitch angle (16.16 radians) a vertical drag of `dy` against
/// a viewport of height `h` orbits by: a quarter turn per half-viewport
/// traversal, negated for "grab and drag" feel.
pub open spec fn pitch_angle_spec(dy: int, h: int) -> int {
    tdiv(-dy * 51472, tdiv(h, 2))
}

/// The full yaw angle for a horizontal drag of `dx` against a viewport
/// of width `w`.
pub open spec fn yaw_angle_spec(dx: int, w: int) -> int {
    tdiv(-dx * 51472, tdiv(w, 2))
}

/// Compose the frame's drag delta into a camera's orientation. A zero
/// delta, a disabled orbit, or a missing viewport is a no-op that does
/// not mark the camera changed.
pub fn rotate_camera(cam: &mut ArcballCamera, delta: Vec2I, viewport: Option<Viewport>) -> (changed:
    bool)
    requires
        q_bounded(old(cam).rotation@, 65536),
        -1073741824 <= delta.x <= 1073741824,
        -1073741824 <= delta.y <= 1073741824,
        viewport matches Some(v) ==> viewport_ok(v),
    ensures
        changed <==> ((delta.x != 0 || delta.y != 0) && old(cam).orbit_enabled
            && viewport is Some),
        !changed ==> *final(cam) == *old(cam),
        changed ==> final(cam).rotation@ == rotate_xy_spec(
            old(cam).rotation@,
            pitch_angle_spec(delta.y as int, viewport->Some_0.height as int),
            yaw_angle_spec(delta.x as int, viewport->Some_0.width as int),
        ),
        q_bounded(final(cam).rotation@, 65536),
        changed ==> 1073741824 <= crate::quat::q_norm2(final(cam).rotation@) <= 17179869184,
        final(cam).zoom_enabled == old(cam).zoom_enabled,
        final(cam).orbit_enabled == old(cam).orbit_enabled,
        final(cam).look_at == old(cam).look_at,
        final(cam).distance == old(cam).distance,
{
    if delta.x == 0 && delta.y == 0 {
        return false;
    }
    if !cam.orbit_enabled {
        return false;
    }
    match viewport {
        None => false,
        Some(v) => {
            let hw: i64 = div_trunc(v.width, 2);
            let hh: i64 = div_trunc(v.height, 2);
            let ax: i64 = div_trunc(-delta.y * 51472, hh);
            let ay: i64 = div_trunc(-delta.x * 51472, hw);
            cam.rotate_xy(ax, ay);
            true
        },
    }
}

/// The world transform derived from a camera: a position and the axes
/// of the look-at rotation (forward toward the target, up from the
/// orientation).
#[derive(Clone, Copy, Debug, PartialEq, Eq, Structural)]
pub struct CameraTransform {
    pub translation: Vec3I,
    pub forward: Vec3I,
    pub up: Vec3I,
}

/// The camera sizes the transform stage accepts: up to 2048 units of
/// distance and look-at offset.
pub open spec fn camera_in_range(c: ArcballCamera) -> bool {
    &&& q_bounded(c.rotation@, 65536)
    &&& 0 <= c.distance <= 134217728
    &&& -134217728 <= c.look_at.x <= 134217728
    &&& -134217728 <= c.look_at.y <= 134217728
    &&& -134217728 <= c.look_at.z <= 134217728
}

/// What the transform stage writes for a camera: the position is the
/// look-at target plus the rotated `+Z * distance` offset, the forward
/// axis points from the position exactly at the target, and the up axis
/// is the rotated `+Y`.
pub open spec fn transform_matches(c: ArcballCamera, t: CameraTransform) -> bool {
    let (fx, fy, fz) = rot_apply_spec(c.rotation@, 0, 0, c.distance as int);
    let (ux, uy, uz) = rot_apply_spec(c.rotation@, 0, 65536, 0);
    &&& t.translation.x == c.look_at.x + fx
    &&& t.translation.y == c.look_at.y + fy
    &&& t.translation.z == c.look_at.z + fz
    &&& t.forward.x == c.look_at.x - t.translation.x
    &&& t.forward.y == c.look_at.y - t.translation.y
    &&& t.forward.z == c.look_at.z - t.translation.z
    &&& t.up.x == ux
    &&& t.up.y == uy
    &&& t.up.z == uz
}

/// Recompute the world transform from (orientation, distance, look-at).
pub fn update_transform(cam: &ArcballCamera) -> (t: CameraTransform)
    requires
        camera_in_range(*cam),
    ensures
        transform_matches(*cam, t),
{
    let fwd = cam.rotation.apply(&Vec3I { x: 0, y: 0, z: cam.distance });
    let translation = Vec3I {
        x: cam.look_at.x + fwd.x,
        y: cam.look_at.y + fwd.y,
        z: cam.look_at.z + fwd.z,
    };
    let forward = Vec3I {
        x: cam.look_at.x - translation.x,
        y: cam.look_at.y - translation.y,
        z: cam.look_at.z - translation.z,
    };
    let up = cam.rotation.apply(&Vec3I { x: 0, y: 65536, z: 0 });
    CameraTransform { translation, forward, up }
}

/// One frame of already-accumulated input, handed to the stages as a
/// plain value so the per-frame resource lifecycle stays outside.
#[derive(Clone, Copy, Debug, PartialEq, Eq, Structural)]
pub struct FrameInput {
    pub scroll_y: i64,
    pub scroll_unit: ScrollUnit,
    pub mouse_held: bool,
    pub mouse_delta: Vec2I,
    pub touch: TouchDeltas,
    pub viewport: Option<Viewport>,
}

/// The combined zoom delta of a frame: scroll in pixels plus pinch.
pub open spec fn frame_zoom_delta(input: FrameInput) -> int {
    scroll_to_pixels(input.scroll_y as int, input.scroll_unit) + input.touch.pinch
}

/// The combined drag delta of a frame: pointer motion while the drag
/// button is held, plus the touch pan.
pub open spec fn frame_drag_x(input: FrameInput) -> int {
    (if input.mouse_held {
        input.mouse_delta.x as int
    } else {
        0
    }) + input.touch.pan.x
}

/// See `frame_drag_x`.
pub open spec fn frame_drag_y(input: FrameInput) -> int {
    (if input.mouse_held {
        input.mouse_delta.y as int
    } else {
        0
    }) + input.touch.pan.y
}

/// The input magnitudes one frame accepts.
pub open spec fn frame_input_ok(input: FrameInput) -> bool {
    &&& -262144 <= input.scroll_y <= 262144
    &&& -4194304 <= input.touch.pinch <= 4194304
    &&& -536870912 <= input.mouse_delta.x <= 536870912
    &&& -536870912 <= input.mouse_delta.y <= 536870912
    &&& -536870912 <= input.touch.pan.x <= 536870912
    &&& -536870912 <= input.touch.pan.y <= 536870912
    &&& (input.viewport matches Some(v) ==> viewport_ok(v))
}

/// Run one frame: zoom, then rotate, then — only if some stage marked
/// the camera changed — recompute the transform. With zero input deltas
/// nothing is written at all.
pub fn frame(cam: &mut ArcballCamera, tr: &mut CameraTransform, input: &FrameInput) -> (changed:
    bool)
    requires
        frame_input_ok(*input),
        q_bounded(old(cam).rotation@, 65536),
        0 <= old(cam).distance <= 117440512,
        -134217728 <= old(cam).look_at.x <= 134217728,
        -134217728 <= old(cam).look_at.y <= 134217728,
        -134217728 <= old(cam).look_at.z <= 134217728,
    ensures
        changed <==> ((frame_zoom_delta(*input) != 0 && old(cam).zoom_enabled && input.viewport
            is Some) || ((frame_drag_x(*input) != 0 || frame_drag_y(*input) != 0) && old(
            cam,
        ).orbit_enabled && input.viewport is Some)),
        !changed ==> *final(cam) == *old(cam) && *final(tr) == *old(tr),
        changed ==> transform_matches(*final(cam), *final(tr)),
        (frame_zoom_delta(*input) == 0 || !old(cam).zoom_enabled || input.viewport is None)
            ==> final(cam).distance == old(cam).distance,
        (frame_zoom_delta(*input) != 0 && old(cam).zoom_enabled && input.viewport is Some)
            ==> final(cam).distance == zoom_step_spec(
            old(cam).distance as int,
            frame_zoom_delta(*input),
            input.viewport->Some_0.width as int,
            input.viewport->Some_0.height as int,
        ),
        ((frame_drag_x(*input) == 0 && frame_drag_y(*input) == 0) || !old(cam).orbit_enabled
            || input.viewport is None) ==> final(cam).rotation == old(cam).rotation,
        ((frame_drag_x(*input) != 0 || frame_drag_y(*input) != 0) && old(cam).orbit_enabled
            && input.viewport is Some) ==> final(cam).rotation@ == rotate_xy_spec(
            old(cam).rotation@,
            pitch_angle_spec(frame_drag_y(*input), input.viewport->Some_0.height as int),
            yaw_angle_spec(frame_drag_x(*input), input.viewport->Some_0.width as int),
        ),
        final(cam).zoom_enabled == old(cam).zoom_enabled,
        final(cam).orbit_enabled == old(cam).orbit_enabled,
        final(cam).look_at == old(cam).look_at,
        final(cam).distance >= 0,
        q_bounded(final(cam).rotation@, 65536),
{
    let d: i64 = normalize_scroll(input.scroll_y, input.scroll_unit) + input.touch.pinch;
    let mx: i64 = if input.mouse_held {
        input.mouse_delta.x
    } else {
        0
    };
    let my: i64 = if input.mouse_held {
        input.mouse_delta.y
    } else {
        0
    };
    let drag = vec2_add(&Vec2I { x: mx, y: my }, &input.touch.pan);
    let zoom_changed = zoom_camera(cam, d, input.viewport);
    let rotate_changed = rotate_camera(cam, drag, input.viewport);
    let changed = zoom_changed || rotate_changed;
    if changed {
        *tr = update_transform(cam);
    }
    changed
}

/// Distance after a whole sequence of normalized zoom deltas, applied
/// in order with the clamp at zero.
pub open spec fn zoom_apply_seq(dist: int, ds: Seq<int>) -> int
    decreases ds.len(),
{
    if ds.len() == 0 {
        dist
    } else {
        zoom_apply_seq(zoom_apply(dist, ds[0]), ds.subrange(1, ds.len() as int))
    }
}

/// Sum of a sequence of deltas.
pub open spec fn seq_sum(ds: Seq<int>) -> int
    decreases ds.len(),
{
    if ds.len() == 0 {
        0
    } else {
        ds[0] + seq_sum(ds.subrange(1, ds.len() as int))
    }
}

/// The distance stays non-negative under any sequence of zoom deltas.
pub proof fn lemma_zoom_seq_nonneg(dist: int, ds: Seq<int>)
    requires
        dist >= 0,
    ensures
        zoom_apply_seq(dist, ds) >= 0,
    decreases ds.len(),
{
    if ds.len() > 0 {
        lemma_zoom_seq_nonneg(zoom_apply(dist, ds[0]), ds.subrange(1, ds.len() as int));
    }
}

/// Zoom accumulation: as long as no prefix of the deltas drives the
/// distance below zero, the final distance is the initial distance
/// minus the sum of the deltas — it depends on the deltas only through
/// their sum.
pub proof fn lemma_zoom_accumulates(dist: int, ds: Seq<int>)
    requires
        dist >= 0,
        forall|i: int| 0 <= i <= ds.len() ==> dist - seq_sum(#[trigger] ds.take(i)) >= 0,
    ensures
        zoom_apply_seq(dist, ds) == dist - seq_sum(ds),
    decreases ds.len(),
{
    if ds.len() == 0 {
    } else {
        let d0 = ds[0];
        let rest = ds.subrange(1, ds.len() as int);
        assert(ds.take(1).subrange(1, 1) =~= Seq::<int>::empty());
        assert(seq_sum(Seq::<int>::empty()) == 0);
        assert(ds.take(1)[0] == d0);
        assert(seq_sum(ds.take(1)) == d0);
        assert(dist - d0 >= 0);
        assert forall|i: int| 0 <= i <= rest.len() implies (dist - d0) - seq_sum(
            #[trigger] rest.take(i),
        ) >= 0 by {
            assert(ds.take(i + 1).subrange(1, i + 1) =~= rest.take(i));
            assert(seq_sum(ds.take(i + 1)) == d0 + seq_sum(rest.take(i)));
            assert(dist - seq_sum(ds.take(i + 1)) >= 0);
        }
        lemma_zoom_accumulates(dist - d0, rest);
        assert(ds.take(ds.len() as int) =~= ds);
    }
}

/// Two delta sequences with equal sums, neither of which ever drives
/// the distance below zero, end at the same distance: accumulation is
/// independent of how the total is split across frames.
pub proof fn lemma_zoom_split_independent(dist: int, ds1: Seq<int>, ds2: Seq<int>)
    requires
        dist >= 0,
        forall|i: int| 0 <= i <= ds1.len() ==> dist - seq_sum(#[trigger] ds1.take(i)) >= 0,
        forall|i: int| 0 <= i <= ds2.len() ==> dist - seq_sum(#[trigger] ds2.take(i)) >= 0,
        seq_sum(ds1) == seq_sum(ds2),
    ensures
        zoom_apply_seq(dist, ds1) == zoom_apply_seq(dist, ds2),
{
    lemma_zoom_accumulates(dist, ds1);
    lemma_zoom_accumulates(dist, ds2);
}

/// With the identity orientation the camera sits on the positive Z
/// axis at `distance` from the look-at target, its forward axis points
/// exactly at the target, and its up axis is `+Y`.
pub proof fn lemma_identity_transform(c: ArcballCamera, t: CameraTransform)
    requires
        transform_matches(c, t),
        c.rotation@ == crate::quat::q_identity_scaled(),
    ensures
        t.translation.x == c.look_at.x,
        t.translation.y == c.look_at.y,
        t.translation.z == c.look_at.z + c.distance,
        t.forward.x == 0,
        t.forward.y == 0,
        t.forward.z == -c.distance,
        t.up.x == 0,
        t.up.y == 65536,
        t.up.z == 0,
{
    let q = c.rotation@;
    let d = c.distance as int;
    lemma_mul_zero(d);
    lemma_mul_zero(q.w);
    lemma_mul_zero(q.w * d);
    lemma_mul_zero(q.w * 65536);
    lemma_mul_zero(0);
    assert(tdiv(0, 4294967296) == 0);
}

/// Multiplication by zero, on either side, gives zero.
proof fn lemma_mul_zero(m: int)
    by (nonlinear_arith)
    ensures
        0 * m == 0,
        m * 0 == 0,
{
}

} // verus!
