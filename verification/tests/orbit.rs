use arcball::camera::ArcballCamera;
use arcball::math::{clamp_i64, cos_fp, div_trunc, isqrt, sin_fp};
use arcball::quat::Quat;
use arcball::stages::{
    frame, normalize_scroll, rotate_camera, update_transform, zoom_camera, CameraTransform,
    FrameInput, ScrollUnit, Viewport,
};
use arcball::touch::{accumulate_touches, distance, TouchDeltas, TouchPoint};
use arcball::vec::{Vec2I, Vec3I};

const S: i64 = 65536;

fn point(x: i64, y: i64) -> Vec2I {
    Vec2I { x, y }
}

fn still_touch(x: i64, y: i64) -> TouchPoint {
    TouchPoint { position: point(x, y), previous_position: point(x, y) }
}

fn default_transform() -> CameraTransform {
    CameraTransform {
        translation: Vec3I { x: 0, y: 0, z: 0 },
        forward: Vec3I { x: 0, y: 0, z: 0 },
        up: Vec3I { x: 0, y: 0, z: 0 },
    }
}

fn quiet_input() -> FrameInput {
    FrameInput {
        scroll_y: 0,
        scroll_unit: ScrollUnit::Pixel,
        mouse_held: false,
        mouse_delta: point(0, 0),
        touch: TouchDeltas { pan: point(0, 0), pinch: 0 },
        viewport: Some(Viewport { width: 2 * S, height: 2 * S }),
    }
}

#[test]
fn no_touches_give_zero_deltas() {
    let deltas = accumulate_touches(&Vec::new());
    assert_eq!(deltas.pan, point(0, 0));
    assert_eq!(deltas.pinch, 0);
}

#[test]
fn one_touch_pans_by_its_motion() {
    let t = TouchPoint { position: point(13, 24), previous_position: point(10, 20) };
    let deltas = accumulate_touches(&vec![t]);
    assert_eq!(deltas.pan, point(3, 4));
    assert_eq!(deltas.pinch, 0);
}

#[test]
fn two_touches_pinch_by_separation_change() {
    let t1 = TouchPoint { position: point(0, 0), previous_position: point(0, 0) };
    let t2 = TouchPoint { position: point(15, 0), previous_position: point(10, 0) };
    let deltas = accumulate_touches(&vec![t1, t2]);
    assert_eq!(deltas.pan, point(0, 0));
    assert_eq!(deltas.pinch, 5);
}

#[test]
fn three_touches_give_zero_deltas() {
    let ts = vec![still_touch(0, 0), still_touch(50, 9), still_touch(7, 7)];
    let moved = TouchPoint { position: point(90, 90), previous_position: point(1, 2) };
    let deltas = accumulate_touches(&ts);
    assert_eq!(deltas.pan, point(0, 0));
    assert_eq!(deltas.pinch, 0);
    let deltas = accumulate_touches(&vec![moved, still_touch(0, 0), still_touch(5, 5)]);
    assert_eq!(deltas.pan, point(0, 0));
    assert_eq!(deltas.pinch, 0);
}

#[test]
fn distance_is_rounded_euclidean() {
    assert_eq!(distance(&point(0, 0), &point(3, 4)), 5);
    assert_eq!(distance(&point(-3, 0), &point(0, -4)), 5);
    assert_eq!(distance(&point(0, 0), &point(1, 1)), 1);
    assert_eq!(distance(&point(2, 2), &point(2, 2)), 0);
}

#[test]
fn isqrt_brackets() {
    assert_eq!(isqrt(0), 0);
    assert_eq!(isqrt(1), 1);
    assert_eq!(isqrt(24), 4);
    assert_eq!(isqrt(25), 5);
    assert_eq!(isqrt(26), 5);
}

#[test]
fn scalar_helpers_are_exact() {
    assert_eq!(div_trunc(7, 2), 3);
    assert_eq!(div_trunc(-7, 2), -3);
    assert_eq!(clamp_i64(10, -3, 3), 3);
    assert_eq!(clamp_i64(-10, -3, 3), -3);
    assert_eq!(clamp_i64(2, -3, 3), 2);
    assert_eq!(sin_fp(0), 0);
    assert_eq!(cos_fp(0), S);
    // the eighth-turn half-angle: a - a^3/6 and 1 - a^2/2 + a^4/24
    assert_eq!(sin_fp(25736), 25736 - 661);
    assert_eq!(cos_fp(25736), 60547);
}

#[test]
fn scroll_lines_count_sixteen_pixels() {
    assert_eq!(normalize_scroll(3, ScrollUnit::Line), 48);
    assert_eq!(normalize_scroll(-2, ScrollUnit::Line), -32);
    assert_eq!(normalize_scroll(7, ScrollUnit::Pixel), 7);
}

#[test]
fn default_camera_values() {
    let c = ArcballCamera::default();
    assert!(c.zoom_enabled);
    assert!(c.orbit_enabled);
    assert_eq!(c.look_at, Vec3I { x: 0, y: 0, z: 0 });
    assert_eq!(c.distance, S);
    assert_eq!(c.rotation, Quat::identity());
    let c = ArcballCamera::new(5 * S);
    assert_eq!(c.distance, 5 * S);
    assert_eq!(c.rotation, Quat::identity());
}

#[test]
fn zoom_moves_distance_by_normalized_delta() {
    // viewport 3.0 x 4.0 units: half-diagonal 2.5 units
    let vp = Some(Viewport { width: 3 * S, height: 4 * S });
    let mut c = ArcballCamera::new(S);
    // zooming by 1.25 units moves the 1.0-unit distance to 0.5 units
    let changed = zoom_camera(&mut c, 81920, vp);
    assert!(changed);
    assert_eq!(c.distance, S / 2);
    // zooming back out by the same amount restores it exactly
    let changed = zoom_camera(&mut c, -81920, vp);
    assert!(changed);
    assert_eq!(c.distance, S);
    // a delta equal to the half-diagonal subtracts exactly one unit
    let changed = zoom_camera(&mut c, 163840, vp);
    assert!(changed);
    assert_eq!(c.distance, 0);
}

#[test]
fn zoom_total_is_independent_of_frame_split() {
    let vp = Some(Viewport { width: 3 * S, height: 4 * S });
    let mut split = ArcballCamera::new(4 * S);
    assert!(zoom_camera(&mut split, 81920, vp));
    assert!(zoom_camera(&mut split, 81920, vp));
    let mut whole = ArcballCamera::new(4 * S);
    assert!(zoom_camera(&mut whole, 163840, vp));
    assert_eq!(split.distance, whole.distance);
    assert_eq!(whole.distance, 3 * S);
}

#[test]
fn zoom_clamps_at_zero() {
    let vp = Some(Viewport { width: 3 * S, height: 4 * S });
    let mut c = ArcballCamera::new(S);
    let changed = zoom_camera(&mut c, 11468800000, vp);
    assert!(changed);
    assert_eq!(c.distance, 0);
}

#[test]
fn zoom_ignores_zero_delta_and_missing_viewport() {
    let vp = Some(Viewport { width: 3 * S, height: 4 * S });
    let mut c = ArcballCamera::new(S);
    assert!(!zoom_camera(&mut c, 0, vp));
    assert_eq!(c.distance, S);
    assert!(!zoom_camera(&mut c, 5 * S, None));
    assert_eq!(c.distance, S);
}

#[test]
fn zoom_disabled_leaves_distance_unchanged() {
    let vp = Some(Viewport { width: 3 * S, height: 4 * S });
    let mut c = ArcballCamera::new(S);
    c.zoom_enabled = false;
    let changed = zoom_camera(&mut c, 5 * S, vp);
    assert!(!changed);
    assert_eq!(c.distance, S);
}

#[test]
fn rotate_composes_expected_quaternion() {
    let vp = Some(Viewport { width: 2 * S, height: 2 * S });
    let mut c = ArcballCamera::new(S);
    // drag one unit to the right: a quarter-turn yaw to the left
    let changed = rotate_camera(&mut c, point(S, 0), vp);
    assert!(changed);
    assert_eq!(c.rotation, Quat { x: 0, y: -25076, z: 0, w: 60549 });
    assert_eq!(c.distance, S);
}

#[test]
fn rotate_ignores_zero_delta_and_missing_viewport() {
    let vp = Some(Viewport { width: 2 * S, height: 2 * S });
    let mut c = ArcballCamera::new(S);
    assert!(!rotate_camera(&mut c, point(0, 0), vp));
    assert!(!rotate_camera(&mut c, point(S, S), None));
    assert_eq!(c.rotation, Quat::identity());
}

#[test]
fn orbit_disabled_leaves_orientation_unchanged() {
    let vp = Some(Viewport { width: 2 * S, height: 2 * S });
    let mut c = ArcballCamera::new(S);
    c.orbit_enabled = false;
    let changed = rotate_camera(&mut c, point(S, 0), vp);
    assert!(!changed);
    assert_eq!(c.rotation, Quat::identity());
}

#[test]
fn rotate_xy_zero_keeps_identity() {
    let mut c = ArcballCamera::new(S);
    c.rotate_xy(0, 0);
    assert_eq!(c.rotation, Quat::identity());
}

#[test]
fn transform_puts_camera_on_positive_z_looking_at_target() {
    let c = ArcballCamera::new(5 * S);
    let t = update_transform(&c);
    assert_eq!(t.translation, Vec3I { x: 0, y: 0, z: 5 * S });
    assert_eq!(t.forward, Vec3I { x: 0, y: 0, z: -5 * S });
    assert_eq!(t.up, Vec3I { x: 0, y: S, z: 0 });
}

#[test]
fn transform_follows_look_at_offset() {
    let mut c = ArcballCamera::new(2 * S);
    c.look_at = Vec3I { x: S, y: -S, z: 3 * S };
    let t = update_transform(&c);
    assert_eq!(t.translation, Vec3I { x: S, y: -S, z: 5 * S });
    assert_eq!(t.forward, Vec3I { x: 0, y: 0, z: -2 * S });
}

#[test]
fn frame_with_zero_input_changes_nothing() {
    let mut c = ArcballCamera::new(S);
    let mut t = default_transform();
    let before_t = t;
    let changed = frame(&mut c, &mut t, &quiet_input());
    assert!(!changed);
    assert_eq!(c, ArcballCamera::new(S));
    assert_eq!(t, before_t);
}

#[test]
fn frame_ignores_motion_without_drag_button() {
    let mut c = ArcballCamera::new(S);
    let mut t = default_transform();
    let mut input = quiet_input();
    input.mouse_delta = point(S, S);
    input.mouse_held = false;
    let changed = frame(&mut c, &mut t, &input);
    assert!(!changed);
    assert_eq!(c.rotation, Quat::identity());
}

#[test]
fn frame_runs_stages_and_updates_transform() {
    let mut c = ArcballCamera::new(5 * S);
    let mut t = default_transform();
    let mut input = quiet_input();
    input.scroll_y = 1;
    input.scroll_unit = ScrollUnit::Line;
    let changed = frame(&mut c, &mut t, &input);
    assert!(changed);
    // one line = 16 raw units, scaled against the 2x2 viewport's
    // half-diagonal of 92681: 16 * 65536 / 92681 = 11
    assert_eq!(c.distance, 5 * S - 11);
    assert_eq!(t.translation, Vec3I { x: 0, y: 0, z: c.distance });
    assert_eq!(t.forward, Vec3I { x: 0, y: 0, z: -c.distance });
}

#[test]
fn pinch_feeds_zoom_through_frame() {
    let mut c = ArcballCamera::new(S);
    let mut t = default_transform();
    let mut input = quiet_input();
    input.viewport = Some(Viewport { width: 3 * S, height: 4 * S });
    input.touch = TouchDeltas { pan: point(0, 0), pinch: 32768 };
    let changed = frame(&mut c, &mut t, &input);
    assert!(changed);
    // 0.5 units of pinch against a 2.5-unit half-diagonal: 0.2 units
    assert_eq!(c.distance, S - 13107);
}
