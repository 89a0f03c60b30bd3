//! Quaternions.
//!
//! The ghost model `QuatModel` has exact integer components; the algebra
//! lemmas (associativity of composition, multiplicativity of the squared
//! norm, hence preservation of unit quaternions) are stated and proved on
//! it. The executable `Quat` carries 16.16 fixed-point components whose
//! view is a `QuatModel`.

use vstd::prelude::*;

use crate::math::{div_trunc, isqrt, isqrt_spec, lemma_mul_bound, lemma_tdiv_bound, tdiv};
use crate::vec::Vec3I;

verus! {

/// Exact (unbounded-integer) quaternion, the mathematical model that all
/// orientation contracts are stated over.
pub ghost struct QuatModel {
    pub x: int,
    pub y: int,
    pub z: int,
    pub w: int,
}

/// Hamilton product of two exact quaternions.
pub open spec fn q_mul(a: QuatModel, b: QuatModel) -> QuatModel {
    QuatModel {
        x: a.w * b.x + a.x * b.w + a.y * b.z - a.z * b.y,
        y: a.w * b.y - a.x * b.z + a.y * b.w + a.z * b.x,
        z: a.w * b.z + a.x * b.y - a.y * b.x + a.z * b.w,
        w: a.w * b.w - a.x * b.x - a.y * b.y - a.z * b.z,
    }
}

/// Squared norm of an exact quaternion.
pub open spec fn q_norm2(a: QuatModel) -> int {
    a.w * a.w + a.x * a.x + a.y * a.y + a.z * a.z
}

/// The identity quaternion of the exact model.
pub open spec fn q_identity() -> QuatModel {
    QuatModel { x: 0, y: 0, z: 0, w: 1 }
}

/// Quaternion composition is associative.
pub proof fn lemma_q_mul_assoc(a: QuatModel, b: QuatModel, c: QuatModel)
    ensures
        q_mul(q_mul(a, b), c) == q_mul(a, q_mul(b, c)),
{
    let ax = a.x; let ay = a.y; let az = a.z; let aw = a.w;
    let bx = b.x; let by = b.y; let bz = b.z; let bw = b.w;
    let cx = c.x; let cy = c.y; let cz = c.z; let cw = c.w;
    // component x
    assert((aw * bw - ax * bx - ay * by - az * bz) * cx == (aw * bw) * cx - (ax * bx) * cx - (ay * by) * cx - (az * bz) * cx) by (nonlinear_arith);
    assert((aw * bx + ax * bw + ay * bz - az * by) * cw == (aw * bx) * cw + (ax * bw) * cw + (ay * bz) * cw - (az * by) * cw) by (nonlinear_arith);
    assert((aw * by - ax * bz + ay * bw + az * bx) * cz == (aw * by) * cz - (ax * bz) * cz + (ay * bw) * cz + (az * bx) * cz) by (nonlinear_arith);
    assert((aw * bz + ax * by - ay * bx + az * bw) * cy == (aw * bz) * cy + (ax * by) * cy - (ay * bx) * cy + (az * bw) * cy) by (nonlinear_arith);
    assert((aw * bw) * cx == aw * (bw * cx)) by (nonlinear_arith);
    assert((ax * bx) * cx == ax * (bx * cx)) by (nonlinear_arith);
    assert((ay * by) * cx == ay * (by * cx)) by (nonlinear_arith);
    assert((az * bz) * cx == az * (bz * cx)) by (nonlinear_arith);
    assert((aw * bx) * cw == aw * (bx * cw)) by (nonlinear_arith);
    assert((ax * bw) * cw == ax * (bw * cw)) by (nonlinear_arith);
    assert((ay * bz) * cw == ay * (bz * cw)) by (nonlinear_arith);
    assert((az * by) * cw == az * (by * cw)) by (nonlinear_arith);
    assert((aw * by) * cz == aw * (by * cz)) by (nonlinear_arith);
    assert((ax * bz) * cz == ax * (bz * cz)) by (nonlinear_arith);
    assert((ay * bw) * cz == ay * (bw * cz)) by (nonlinear_arith);
    assert((az * bx) * cz == az * (bx * cz)) by (nonlinear_arith);
    assert((aw * bz) * cy == aw * (bz * cy)) by (nonlinear_arith);
    assert((ax * by) * cy == ax * (by * cy)) by (nonlinear_arith);
    assert((ay * bx) * cy == ay * (bx * cy)) by (nonlinear_arith);
    assert((az * bw) * cy == az * (bw * cy)) by (nonlinear_arith);
    assert(aw * (bw * cx + bx * cw + by * cz - bz * cy) == aw * (bw * cx) + aw * (bx * cw) + aw * (by * cz) - aw * (bz * cy)) by (nonlinear_arith);
    assert(ax * (bw * cw - bx * cx - by * cy - bz * cz) == ax * (bw * cw) - ax * (bx * cx) - ax * (by * cy) - ax * (bz * cz)) by (nonlinear_arith);
    assert(ay * (bw * cz + bx * cy - by * cx + bz * cw) == ay * (bw * cz) + ay * (bx * cy) - ay * (by * cx) + ay * (bz * cw)) by (nonlinear_arith);
    assert(az * (bw * cy - bx * cz + by * cw + bz * cx) == az * (bw * cy) - az * (bx * cz) + az * (by * cw) + az * (bz * cx)) by (nonlinear_arith);
    assert(q_mul(q_mul(a, b), c).x == q_mul(a, q_mul(b, c)).x);
    // component y
    assert((aw * bw - ax * bx - ay * by - az * bz) * cy == (aw * bw) * cy - (ax * bx) * cy - (ay * by) * cy - (az * bz) * cy) by (nonlinear_arith);
    assert((aw * bx + ax * bw + ay * bz - az * by) * cz == (aw * bx) * cz + (ax * bw) * cz + (ay * bz) * cz - (az * by) * cz) by (nonlinear_arith);
    assert((aw * by - ax * bz + ay * bw + az * bx) * cw == (aw * by) * cw - (ax * bz) * cw + (ay * bw) * cw + (az * bx) * cw) by (nonlinear_arith);
    assert((aw * bz + ax * by - ay * bx + az * bw) * cx == (aw * bz) * cx + (ax * by) * cx - (ay * bx) * cx + (az * bw) * cx) by (nonlinear_arith);
    assert((aw * bw) * cy == aw * (bw * cy)) by (nonlinear_arith);
    assert((ax * bx) * cy == ax * (bx * cy)) by (nonlinear_arith);
    assert((ay * by) * cy == ay * (by * cy)) by (nonlinear_arith);
    assert((az * bz) * cy == az * (bz * cy)) by (nonlinear_arith);
    assert((aw * bx) * cz == aw * (bx * cz)) by (nonlinear_arith);
    assert((ax * bw) * cz == ax * (bw * cz)) by (nonlinear_arith);
    assert((ay * bz) * cz == ay * (bz * cz)) by (nonlinear_arith);
    assert((az * by) * cz == az * (by * cz)) by (nonlinear_arith);
    assert((aw * by) * cw == aw * (by * cw)) by (nonlinear_arith);
    assert((ax * bz) * cw == ax * (bz * cw)) by (nonlinear_arith);
    assert((ay * bw) * cw == ay * (bw * cw)) by (nonlinear_arith);
    assert((az * bx) * cw == az * (bx * cw)) by (nonlinear_arith);
    assert((aw * bz) * cx == aw * (bz * cx)) by (nonlinear_arith);
    assert((ax * by) * cx == ax * (by * cx)) by (nonlinear_arith);
    assert((ay * bx) * cx == ay * (bx * cx)) by (nonlinear_arith);
    assert((az * bw) * cx == az * (bw * cx)) by (nonlinear_arith);
    assert(aw * (bw * cy - bx * cz + by * cw + bz * cx) == aw * (bw * cy) - aw * (bx * cz) + aw * (by * cw) + aw * (bz * cx)) by (nonlinear_arith);
    assert(ax * (bw * cz + bx * cy - by * cx + bz * cw) == ax * (bw * cz) + ax * (bx * cy) - ax * (by * cx) + ax * (bz * cw)) by (nonlinear_arith);
    assert(ay * (bw * cw - bx * cx - by * cy - bz * cz) == ay * (bw * cw) - ay * (bx * cx) - ay * (by * cy) - ay * (bz * cz)) by (nonlinear_arith);
    assert(az * (bw * cx + bx * cw + by * cz - bz * cy) == az * (bw * cx) + az * (bx * cw) + az * (by * cz) - az * (bz * cy)) by (nonlinear_arith);
    assert(q_mul(q_mul(a, b), c).y == q_mul(a, q_mul(b, c)).y);
    // component z
    assert((aw * bw - ax * bx - ay * by - az * bz) * cz == (aw * bw) * cz - (ax * bx) * cz - (ay * by) * cz - (az * bz) * cz) by (nonlinear_arith);
    assert((aw * bx + ax * bw + ay * bz - az * by) * cy == (aw * bx) * cy + (ax * bw) * cy + (ay * bz) * cy - (az * by) * cy) by (nonlinear_arith);
    assert((aw * by - ax * bz + ay * bw + az * bx) * cx == (aw * by) * cx - (ax * bz) * cx + (ay * bw) * cx + (az * bx) * cx) by (nonlinear_arith);
    assert((aw * bz + ax * by - ay * bx + az * bw) * cw == (aw * bz) * cw + (ax * by) * cw - (ay * bx) * cw + (az * bw) * cw) by (nonlinear_arith);
    assert((aw * bw) * cz == aw * (bw * cz)) by (nonlinear_arith);
    assert((ax * bx) * cz == ax * (bx * cz)) by (nonlinear_arith);
    assert((ay * by) * cz == ay * (by * cz)) by (nonlinear_arith);
    assert((az * bz) * cz == az * (bz * cz)) by (nonlinear_arith);
    assert((aw * bx) * cy == aw * (bx * cy)) by (nonlinear_arith);
    assert((ax * bw) * cy == ax * (bw * cy)) by (nonlinear_arith);
    assert((ay * bz) * cy == ay * (bz * cy)) by (nonlinear_arith);
    assert((az * by) * cy == az * (by * cy)) by (nonlinear_arith);
    assert((aw * by) * cx == aw * (by * cx)) by (nonlinear_arith);
    assert((ax * bz) * cx == ax * (bz * cx)) by (nonlinear_arith);
    assert((ay * bw) * cx == ay * (bw * cx)) by (nonlinear_arith);
    assert((az * bx) * cx == az * (bx * cx)) by (nonlinear_arith);
    assert((aw * bz) * cw == aw * (bz * cw)) by (nonlinear_arith);
    assert((ax * by) * cw == ax * (by * cw)) by (nonlinear_arith);
    assert((ay * bx) * cw == ay * (bx * cw)) by (nonlinear_arith);
    assert((az * bw) * cw == az * (bw * cw)) by (nonlinear_arith);
    assert(aw * (bw * cz + bx * cy - by * cx + bz * cw) == aw * (bw * cz) + aw * (bx * cy) - aw * (by * cx) + aw * (bz * cw)) by (nonlinear_arith);
    assert(ax * (bw * cy - bx * cz + by * cw + bz * cx) == ax * (bw * cy) - ax * (bx * cz) + ax * (by * cw) + ax * (bz * cx)) by (nonlinear_arith);
    assert(ay * (bw * cx + bx * cw + by * cz - bz * cy) == ay * (bw * cx) + ay * (bx * cw) + ay * (by * cz) - ay * (bz * cy)) by (nonlinear_arith);
    assert(az * (bw * cw - bx * cx - by * cy - bz * cz) == az * (bw * cw) - az * (bx * cx) - az * (by * cy) - az * (bz * cz)) by (nonlinear_arith);
    assert(q_mul(q_mul(a, b), c).z == q_mul(a, q_mul(b, c)).z);
    // component w
    assert((aw * bw - ax * bx - ay * by - az * bz) * cw == (aw * bw) * cw - (ax * bx) * cw - (ay * by) * cw - (az * bz) * cw) by (nonlinear_arith);
    assert((aw * bx + ax * bw + ay * bz - az * by) * cx == (aw * bx) * cx + (ax * bw) * cx + (ay * bz) * cx - (az * by) * cx) by (nonlinear_arith);
    assert((aw * by - ax * bz + ay * bw + az * bx) * cy == (aw * by) * cy - (ax * bz) * cy + (ay * bw) * cy + (az * bx) * cy) by (nonlinear_arith);
    assert((aw * bz + ax * by - ay * bx + az * bw) * cz == (aw * bz) * cz + (ax * by) * cz - (ay * bx) * cz + (az * bw) * cz) by (nonlinear_arith);
    assert((aw * bw) * cw == aw * (bw * cw)) by (nonlinear_arith);
    assert((ax * bx) * cw == ax * (bx * cw)) by (nonlinear_arith);
    assert((ay * by) * cw == ay * (by * cw)) by (nonlinear_arith);
    assert((az * bz) * cw == az * (bz * cw)) by (nonlinear_arith);
    assert((aw * bx) * cx == aw * (bx * cx)) by (nonlinear_arith);
    assert((ax * bw) * cx == ax * (bw * cx)) by (nonlinear_arith);
    assert((ay * bz) * cx == ay * (bz * cx)) by (nonlinear_arith);
    assert((az * by) * cx == az * (by * cx)) by (nonlinear_arith);
    assert((aw * by) * cy == aw * (by * cy)) by (nonlinear_arith);
    assert((ax * bz) * cy == ax * (bz * cy)) by (nonlinear_arith);
    assert((ay * bw) * cy == ay * (bw * cy)) by (nonlinear_arith);
    assert((az * bx) * cy == az * (bx * cy)) by (nonlinear_arith);
    assert((aw * bz) * cz == aw * (bz * cz)) by (nonlinear_arith);
    assert((ax * by) * cz == ax * (by * cz)) by (nonlinear_arith);
    assert((ay * bx) * cz == ay * (bx * cz)) by (nonlinear_arith);
    assert((az * bw) * cz == az * (bw * cz)) by (nonlinear_arith);
    assert(aw * (bw * cw - bx * cx - by * cy - bz * cz) == aw * (bw * cw) - aw * (bx * cx) - aw * (by * cy) - aw * (bz * cz)) by (nonlinear_arith);
    assert(ax * (bw * cx + bx * cw + by * cz - bz * cy) == ax * (bw * cx) + ax * (bx * cw) + ax * (by * cz) - ax * (bz * cy)) by (nonlinear_arith);
    assert(ay * (bw * cy - bx * cz + by * cw + bz * cx) == ay * (bw * cy) - ay * (bx * cz) + ay * (by * cw) + ay * (bz * cx)) by (nonlinear_arith);
    assert(az * (bw * cz + bx * cy - by * cx + bz * cw) == az * (bw * cz) + az * (bx * cy) - az * (by * cx) + az * (bz * cw)) by (nonlinear_arith);
    assert(q_mul(q_mul(a, b), c).w == q_mul(a, q_mul(b, c)).w);
}

/// The squared norm of a product is the product of the squared norms
/// (Euler's four-square identity).
pub proof fn lemma_q_norm2_mul(a: QuatModel, b: QuatModel)
    ensures
        q_norm2(q_mul(a, b)) == q_norm2(a) * q_norm2(b),
{
    let ax = a.x; let ay = a.y; let az = a.z; let aw = a.w;
    let bx = b.x; let by = b.y; let bz = b.z; let bw = b.w;
    let ux0 = aw * bx; let ux1 = ax * bw; let ux2 = ay * bz; let ux3 = az * by;
    let uy0 = aw * by; let uy1 = ax * bz; let uy2 = ay * bw; let uy3 = az * bx;
    let uz0 = aw * bz; let uz1 = ax * by; let uz2 = ay * bx; let uz3 = az * bw;
    let uw0 = aw * bw; let uw1 = ax * bx; let uw2 = ay * by; let uw3 = az * bz;
    assert((ux0 + ux1 + ux2 - ux3) * (ux0 + ux1 + ux2 - ux3) == ux0 * ux0 + ux1 * ux1 + ux2 * ux2 + ux3 * ux3 + 2 * (ux0 * ux1) + 2 * (ux0 * ux2) - 2 * (ux0 * ux3) + 2 * (ux1 * ux2) - 2 * (ux1 * ux3) - 2 * (ux2 * ux3)) by (nonlinear_arith);
    assert((aw * bx) * (aw * bx) == (aw * aw) * (bx * bx)) by (nonlinear_arith);
    assert((aw * bx) * (ax * bw) == (aw * ax) * (bw * bx)) by (nonlinear_arith);
    assert((aw * bx) * (ay * bz) == (aw * ay) * (bx * bz)) by (nonlinear_arith);
    assert((aw * bx) * (az * by) == (aw * az) * (bx * by)) by (nonlinear_arith);
    assert((ax * bw) * (ax * bw) == (ax * ax) * (bw * bw)) by (nonlinear_arith);
    assert((ax * bw) * (ay * bz) == (ax * ay) * (bw * bz)) by (nonlinear_arith);
    assert((ax * bw) * (az * by) == (ax * az) * (bw * by)) by (nonlinear_arith);
    assert((ay * bz) * (ay * bz) == (ay * ay) * (bz * bz)) by (nonlinear_arith);
    assert((ay * bz) * (az * by) == (ay * az) * (by * bz)) by (nonlinear_arith);
    assert((az * by) * (az * by) == (az * az) * (by * by)) by (nonlinear_arith);
    assert((uy0 - uy1 + uy2 + uy3) * (uy0 - uy1 + uy2 + uy3) == uy0 * uy0 + uy1 * uy1 + uy2 * uy2 + uy3 * uy3 - 2 * (uy0 * uy1) + 2 * (uy0 * uy2) + 2 * (uy0 * uy3) - 2 * (uy1 * uy2) - 2 * (uy1 * uy3) + 2 * (uy2 * uy3)) by (nonlinear_arith);
    assert((aw * by) * (aw * by) == (aw * aw) * (by * by)) by (nonlinear_arith);
    assert((aw * by) * (ax * bz) == (aw * ax) * (by * bz)) by (nonlinear_arith);
    assert((aw * by) * (ay * bw) == (aw * ay) * (bw * by)) by (nonlinear_arith);
    assert((aw * by) * (az * bx) == (aw * az) * (bx * by)) by (nonlinear_arith);
    assert((ax * bz) * (ax * bz) == (ax * ax) * (bz * bz)) by (nonlinear_arith);
    assert((ax * bz) * (ay * bw) == (ax * ay) * (bw * bz)) by (nonlinear_arith);
    assert((ax * bz) * (az * bx) == (ax * az) * (bx * bz)) by (nonlinear_arith);
    assert((ay * bw) * (ay * bw) == (ay * ay) * (bw * bw)) by (nonlinear_arith);
    assert((ay * bw) * (az * bx) == (ay * az) * (bw * bx)) by (nonlinear_arith);
    assert((az * bx) * (az * bx) == (az * az) * (bx * bx)) by (nonlinear_arith);
    assert((uz0 + uz1 - uz2 + uz3) * (uz0 + uz1 - uz2 + uz3) == uz0 * uz0 + uz1 * uz1 + uz2 * uz2 + uz3 * uz3 + 2 * (uz0 * uz1) - 2 * (uz0 * uz2) + 2 * (uz0 * uz3) - 2 * (uz1 * uz2) + 2 * (uz1 * uz3) - 2 * (uz2 * uz3)) by (nonlinear_arith);
    assert((aw * bz) * (aw * bz) == (aw * aw) * (bz * bz)) by (nonlinear_arith);
    assert((aw * bz) * (ax * by) == (aw * ax) * (by * bz)) by (nonlinear_arith);
    assert((aw * bz) * (ay * bx) == (aw * ay) * (bx * bz)) by (nonlinear_arith);
    assert((aw * bz) * (az * bw) == (aw * az) * (bw * bz)) by (nonlinear_arith);
    assert((ax * by) * (ax * by) == (ax * ax) * (by * by)) by (nonlinear_arith);
    assert((ax * by) * (ay * bx) == (ax * ay) * (bx * by)) by (nonlinear_arith);
    assert((ax * by) * (az * bw) == (ax * az) * (bw * by)) by (nonlinear_arith);
    assert((ay * bx) * (ay * bx) == (ay * ay) * (bx * bx)) by (nonlinear_arith);
    assert((ay * bx) * (az * bw) == (ay * az) * (bw * bx)) by (nonlinear_arith);
    assert((az * bw) * (az * bw) == (az * az) * (bw * bw)) by (nonlinear_arith);
    assert((uw0 - uw1 - uw2 - uw3) * (uw0 - uw1 - uw2 - uw3) == uw0 * uw0 + uw1 * uw1 + uw2 * uw2 + uw3 * uw3 - 2 * (uw0 * uw1) - 2 * (uw0 * uw2) - 2 * (uw0 * uw3) + 2 * (uw1 * uw2) + 2 * (uw1 * uw3) + 2 * (uw2 * uw3)) by (nonlinear_arith);
    assert((aw * bw) * (aw * bw) == (aw * aw) * (bw * bw)) by (nonlinear_arith);
    assert((aw * bw) * (ax * bx) == (aw * ax) * (bw * bx)) by (nonlinear_arith);
    assert((aw * bw) * (ay * by) == (aw * ay) * (bw * by)) by (nonlinear_arith);
    assert((aw * bw) * (az * bz) == (aw * az) * (bw * bz)) by (nonlinear_arith);
    assert((ax * bx) * (ax * bx) == (ax * ax) * (bx * bx)) by (nonlinear_arith);
    assert((ax * bx) * (ay * by) == (ax * ay) * (bx * by)) by (nonlinear_arith);
    assert((ax * bx) * (az * bz) == (ax * az) * (bx * bz)) by (nonlinear_arith);
    assert((ay * by) * (ay * by) == (ay * ay) * (by * by)) by (nonlinear_arith);
    assert((ay * by) * (az * bz) == (ay * az) * (by * bz)) by (nonlinear_arith);
    assert((az * bz) * (az * bz) == (az * az) * (bz * bz)) by (nonlinear_arith);
    let pb = bw * bw + bx * bx + by * by + bz * bz;
    assert((aw * aw) * (bw * bw + bx * bx + by * by + bz * bz) == (aw * aw) * (bw * bw) + (aw * aw) * (bx * bx) + (aw * aw) * (by * by) + (aw * aw) * (bz * bz)) by (nonlinear_arith);
    assert((ax * ax) * (bw * bw + bx * bx + by * by + bz * bz) == (ax * ax) * (bw * bw) + (ax * ax) * (bx * bx) + (ax * ax) * (by * by) + (ax * ax) * (bz * bz)) by (nonlinear_arith);
    assert((ay * ay) * (bw * bw + bx * bx + by * by + bz * bz) == (ay * ay) * (bw * bw) + (ay * ay) * (bx * bx) + (ay * ay) * (by * by) + (ay * ay) * (bz * bz)) by (nonlinear_arith);
    assert((az * az) * (bw * bw + bx * bx + by * by + bz * bz) == (az * az) * (bw * bw) + (az * az) * (bx * bx) + (az * az) * (by * by) + (az * az) * (bz * bz)) by (nonlinear_arith);
    assert((aw * aw + ax * ax + ay * ay + az * az) * pb == (aw * aw) * pb + (ax * ax) * pb + (ay * ay) * pb + (az * az) * pb) by (nonlinear_arith);
    assert(q_norm2(q_mul(a, b)) == q_norm2(a) * q_norm2(b));
}

/// The fixed-point identity quaternion is exactly unit: its squared
/// norm is `SCALE * SCALE`.
pub proof fn lemma_q_identity_scaled_norm()
    ensures
        q_norm2(q_identity_scaled()) == 4294967296,
{
    assert(65536int * 65536 == 4294967296) by (nonlinear_arith);
    assert(0int * 0 == 0) by (nonlinear_arith);
}

/// The identity quaternion is a left and right unit for composition.
pub proof fn lemma_q_mul_identity(a: QuatModel)
    ensures
        q_mul(a, q_identity()) == a,
        q_mul(q_identity(), a) == a,
{
}

/// Whether every component of `a` is within `k` in magnitude.
pub open spec fn q_bounded(a: QuatModel, k: int) -> bool {
    &&& -k <= a.x <= k
    &&& -k <= a.y <= k
    &&& -k <= a.z <= k
    &&& -k <= a.w <= k
}

/// The 16.16 fixed-point identity quaternion.
pub open spec fn q_identity_scaled() -> QuatModel {
    QuatModel { x: 0, y: 0, z: 0, w: 65536 }
}

/// Hamilton product of two fixed-point quaternions: the exact product,
/// each component rescaled by `SCALE` with truncating division.
pub open spec fn q_mul_scaled(a: QuatModel, b: QuatModel) -> QuatModel {
    QuatModel {
        x: tdiv(q_mul(a, b).x, 65536),
        y: tdiv(q_mul(a, b).y, 65536),
        z: tdiv(q_mul(a, b).z, 65536),
        w: tdiv(q_mul(a, b).w, 65536),
    }
}

/// Rescale a quaternion so its norm is close to `SCALE` again; the zero
/// quaternion (which no composition of rotations produces from a unit
/// start) renormalizes to the identity.
pub open spec fn q_renorm_spec(a: QuatModel) -> QuatModel {
    let n = isqrt_spec(q_norm2(a));
    if n == 0 {
        q_identity_scaled()
    } else {
        QuatModel {
            x: tdiv(a.x * 65536, n),
            y: tdiv(a.y * 65536, n),
            z: tdiv(a.z * 65536, n),
            w: tdiv(a.w * 65536, n),
        }
    }
}

/// A scaled product of component-bounded quaternions is component-bounded:
/// with `|a| <= ba`, `|b| <= bb` and `4 * ba * bb <= 65536 * k`, every
/// component of the scaled product is within `k`.
pub proof fn lemma_q_mul_scaled_bound(a: QuatModel, b: QuatModel, ba: int, bb: int, k: int)
    requires
        q_bounded(a, ba),
        q_bounded(b, bb),
        ba >= 0,
        bb >= 0,
        k >= 0,
        4 * (ba * bb) <= 65536 * k,
    ensures
        q_bounded(q_mul_scaled(a, b), k),
{
    lemma_mul_bound(a.x, b.x, ba, bb);
    lemma_mul_bound(a.x, b.y, ba, bb);
    lemma_mul_bound(a.x, b.z, ba, bb);
    lemma_mul_bound(a.x, b.w, ba, bb);
    lemma_mul_bound(a.y, b.x, ba, bb);
    lemma_mul_bound(a.y, b.y, ba, bb);
    lemma_mul_bound(a.y, b.z, ba, bb);
    lemma_mul_bound(a.y, b.w, ba, bb);
    lemma_mul_bound(a.z, b.x, ba, bb);
    lemma_mul_bound(a.z, b.y, ba, bb);
    lemma_mul_bound(a.z, b.z, ba, bb);
    lemma_mul_bound(a.z, b.w, ba, bb);
    lemma_mul_bound(a.w, b.x, ba, bb);
    lemma_mul_bound(a.w, b.y, ba, bb);
    lemma_mul_bound(a.w, b.z, ba, bb);
    lemma_mul_bound(a.w, b.w, ba, bb);
    lemma_tdiv_bound(q_mul(a, b).x, 65536, k);
    lemma_tdiv_bound(q_mul(a, b).y, 65536, k);
    lemma_tdiv_bound(q_mul(a, b).z, 65536, k);
    lemma_tdiv_bound(q_mul(a, b).w, 65536, k);
}


/// A square is non-negative.
proof fn lemma_sq_nonneg(a: int)
    by (nonlinear_arith)
    ensures
        a * a >= 0,
{
}

/// Squaring is monotone in magnitude.
proof fn lemma_sq_le(a: int, m: int)
    by (nonlinear_arith)
    requires
        -m <= a <= m,
    ensures
        a * a <= m * m,
{
}

/// A component at least half the norm root in magnitude rescales to at
/// least half of `SCALE` in magnitude.
proof fn lemma_renorm_comp_big(c: int, nn: int)
    requires
        nn >= 1,
        -nn <= c <= nn,
        2 * c >= nn || 0 - 2 * c >= nn,
    ensures
        tdiv(c * 65536, nn) * tdiv(c * 65536, nn) >= 1073741824,
{
    let am: int = if c >= 0 { c } else { -c };
    assert(am * 65536 >= nn * 32768);
    assert(am * 65536 / nn >= 32768) by (nonlinear_arith)
        requires
            nn >= 1,
            am * 65536 >= nn * 32768;
    let r = tdiv(c * 65536, nn);
    assert(r * r >= 1073741824) by (nonlinear_arith)
        requires
            r >= 32768 || r <= -32768;
}

/// An orientation quaternion with 16.16 fixed-point components.
#[derive(Clone, Copy, Debug, PartialEq, Eq, Structural)]
pub struct Quat {
    pub x: i64,
    pub y: i64,
    pub z: i64,
    pub w: i64,
}

impl View for Quat {
    type V = QuatModel;

    open spec fn view(&self) -> QuatModel {
        QuatModel { x: self.x as int, y: self.y as int, z: self.z as int, w: self.w as int }
    }
}

impl Quat {
    /// The fixed-point identity rotation.
    pub fn identity() -> (r: Quat)
        ensures
            r@ == q_identity_scaled(),
    {
        Quat { x: 0, y: 0, z: 0, w: 65536 }
    }

    /// Fixed-point Hamilton product.
    pub fn mul_scaled(&self, o: &Quat) -> (r: Quat)
        requires
            q_bounded(self@, 1048576),
            q_bounded(o@, 1048576),
        ensures
            r@ == q_mul_scaled(self@, o@),
            q_bounded(r@, 67108864),
    {
        proof {
            lemma_mul_bound(self@.x, o@.x, 1048576, 1048576);
            lemma_mul_bound(self@.x, o@.y, 1048576, 1048576);
            lemma_mul_bound(self@.x, o@.z, 1048576, 1048576);
            lemma_mul_bound(self@.x, o@.w, 1048576, 1048576);
            lemma_mul_bound(self@.y, o@.x, 1048576, 1048576);
            lemma_mul_bound(self@.y, o@.y, 1048576, 1048576);
            lemma_mul_bound(self@.y, o@.z, 1048576, 1048576);
            lemma_mul_bound(self@.y, o@.w, 1048576, 1048576);
            lemma_mul_bound(self@.z, o@.x, 1048576, 1048576);
            lemma_mul_bound(self@.z, o@.y, 1048576, 1048576);
            lemma_mul_bound(self@.z, o@.z, 1048576, 1048576);
            lemma_mul_bound(self@.z, o@.w, 1048576, 1048576);
            lemma_mul_bound(self@.w, o@.x, 1048576, 1048576);
            lemma_mul_bound(self@.w, o@.y, 1048576, 1048576);
            lemma_mul_bound(self@.w, o@.z, 1048576, 1048576);
            lemma_mul_bound(self@.w, o@.w, 1048576, 1048576);
            lemma_q_mul_scaled_bound(self@, o@, 1048576, 1048576, 67108864);
        }
        let rx: i64 = div_trunc(self.w * o.x + self.x * o.w + self.y * o.z - self.z * o.y, 65536);
        let ry: i64 = div_trunc(self.w * o.y - self.x * o.z + self.y * o.w + self.z * o.x, 65536);
        let rz: i64 = div_trunc(self.w * o.z + self.x * o.y - self.y * o.x + self.z * o.w, 65536);
        let rw: i64 = div_trunc(self.w * o.w - self.x * o.x - self.y * o.y - self.z * o.z, 65536);
        Quat { x: rx, y: ry, z: rz, w: rw }
    }

    /// Rescale so the norm is close to `SCALE` again: every component
    /// stays within `SCALE` and the squared norm stays between
    /// `(SCALE / 2)^2` and `(2 * SCALE)^2`, which bounds the drift that
    /// repeated fixed-point compositions could otherwise accumulate and
    /// keeps the orientation away from the degenerate zero quaternion.
    pub fn renormalize(&self) -> (r: Quat)
        requires
            q_bounded(self@, 134217728),
        ensures
            r@ == q_renorm_spec(self@),
            q_bounded(r@, 65536),
            1073741824 <= q_norm2(r@) <= 17179869184,
    {
        proof {
            lemma_mul_bound(self@.x, self@.x, 134217728, 134217728);
            lemma_mul_bound(self@.y, self@.y, 134217728, 134217728);
            lemma_mul_bound(self@.z, self@.z, 134217728, 134217728);
            lemma_mul_bound(self@.w, self@.w, 134217728, 134217728);
            assert(self@.x * self@.x >= 0) by (nonlinear_arith);
            assert(self@.y * self@.y >= 0) by (nonlinear_arith);
            assert(self@.z * self@.z >= 0) by (nonlinear_arith);
            assert(self@.w * self@.w >= 0) by (nonlinear_arith);
        }
        let norm2: i64 = self.x * self.x + self.y * self.y + self.z * self.z + self.w * self.w;
        let n: u64 = isqrt(norm2 as u64);
        if n == 0 {
            proof {
                lemma_q_identity_scaled_norm();
            }
            Quat { x: 0, y: 0, z: 0, w: 65536 }
        } else {
            proof {
                let nn = n as int;
                assert(q_norm2(self@) == norm2 as int);
                assert(nn >= -self@.x && nn >= self@.x) by (nonlinear_arith)
                    requires
                        nn >= 0,
                        (nn + 1) * (nn + 1) > self@.x * self@.x;
                assert(nn >= -self@.y && nn >= self@.y) by (nonlinear_arith)
                    requires
                        nn >= 0,
                        (nn + 1) * (nn + 1) > self@.y * self@.y;
                assert(nn >= -self@.z && nn >= self@.z) by (nonlinear_arith)
                    requires
                        nn >= 0,
                        (nn + 1) * (nn + 1) > self@.z * self@.z;
                assert(nn >= -self@.w && nn >= self@.w) by (nonlinear_arith)
                    requires
                        nn >= 0,
                        (nn + 1) * (nn + 1) > self@.w * self@.w;
                lemma_mul_bound(self@.x, 65536, 134217728, 65536);
                lemma_mul_bound(self@.y, 65536, 134217728, 65536);
                lemma_mul_bound(self@.z, 65536, 134217728, 65536);
                lemma_mul_bound(self@.w, 65536, 134217728, 65536);
                assert(-(nn * 65536) <= self@.x * 65536 <= nn * 65536) by (nonlinear_arith)
                    requires
                        -nn <= self@.x <= nn;
                assert(-(nn * 65536) <= self@.y * 65536 <= nn * 65536) by (nonlinear_arith)
                    requires
                        -nn <= self@.y <= nn;
                assert(-(nn * 65536) <= self@.z * 65536 <= nn * 65536) by (nonlinear_arith)
                    requires
                        -nn <= self@.z <= nn;
                assert(-(nn * 65536) <= self@.w * 65536 <= nn * 65536) by (nonlinear_arith)
                    requires
                        -nn <= self@.w <= nn;
                lemma_tdiv_bound(self@.x * 65536, nn, 65536);
                lemma_tdiv_bound(self@.y * 65536, nn, 65536);
                lemma_tdiv_bound(self@.z * 65536, nn, 65536);
                lemma_tdiv_bound(self@.w * 65536, nn, 65536);
            }
            let r = Quat {
                x: div_trunc(self.x * 65536, n as i64),
                y: div_trunc(self.y * 65536, n as i64),
                z: div_trunc(self.z * 65536, n as i64),
                w: div_trunc(self.w * 65536, n as i64),
            };
            proof {
                let nn = n as int;
                let ax: int = if self@.x >= 0 { self@.x } else { -self@.x };
                let ay: int = if self@.y >= 0 { self@.y } else { -self@.y };
                let az: int = if self@.z >= 0 { self@.z } else { -self@.z };
                let aw: int = if self@.w >= 0 { self@.w } else { -self@.w };
                let m1: int = if ax >= ay { ax } else { ay };
                let m2: int = if m1 >= az { m1 } else { az };
                let m: int = if m2 >= aw { m2 } else { aw };
                lemma_sq_le(self@.x, m);
                lemma_sq_le(self@.y, m);
                lemma_sq_le(self@.z, m);
                lemma_sq_le(self@.w, m);
                assert(nn <= 2 * m) by (nonlinear_arith)
                    requires
                        nn >= 0,
                        m >= 0,
                        nn * nn <= 4 * (m * m);
                if m == ax {
                    lemma_renorm_comp_big(self@.x, nn);
                } else if m == ay {
                    lemma_renorm_comp_big(self@.y, nn);
                } else if m == az {
                    lemma_renorm_comp_big(self@.z, nn);
                } else {
                    lemma_renorm_comp_big(self@.w, nn);
                }
                lemma_sq_nonneg(r@.x);
                lemma_sq_nonneg(r@.y);
                lemma_sq_nonneg(r@.z);
                lemma_sq_nonneg(r@.w);
                lemma_sq_le(r@.x, 65536);
                lemma_sq_le(r@.y, 65536);
                lemma_sq_le(r@.z, 65536);
                lemma_sq_le(r@.w, 65536);
                assert(q_norm2(r@) >= 1073741824);
                assert(q_norm2(r@) <= 17179869184);
            }
            r
        }
    }
}

/// Rotate the vector `(vx, vy, vz)` by the fixed-point quaternion `q`:
/// `v + 2 * u x (u x v + w * v) / SCALE^2`, with truncating divisions.
pub open spec fn rot_apply_spec(q: QuatModel, vx: int, vy: int, vz: int) -> (int, int, int) {
    let tx = q.y * vz - q.z * vy + q.w * vx;
    let ty = q.z * vx - q.x * vz + q.w * vy;
    let tz = q.x * vy - q.y * vx + q.w * vz;
    let cx = q.y * tz - q.z * ty;
    let cy = q.z * tx - q.x * tz;
    let cz = q.x * ty - q.y * tx;
    (vx + tdiv(2 * cx, 4294967296), vy + tdiv(2 * cy, 4294967296), vz + tdiv(2 * cz, 4294967296))
}

impl Quat {
    /// Rotate a vector by this quaternion.
    pub fn apply(&self, v: &Vec3I) -> (r: Vec3I)
        requires
            q_bounded(self@, 65536),
            -134217728 <= v.x <= 134217728,
            -134217728 <= v.y <= 134217728,
            -134217728 <= v.z <= 134217728,
        ensures
            ({
                let (rx, ry, rz) = rot_apply_spec(self@, v.x as int, v.y as int, v.z as int);
                r.x == rx && r.y == ry && r.z == rz
            }),
            -1744830464 <= r.x <= 1744830464,
            -1744830464 <= r.y <= 1744830464,
            -1744830464 <= r.z <= 1744830464,
    {
        proof {
            lemma_mul_bound(self@.y, v.z as int, 65536, 134217728);
            lemma_mul_bound(self@.z, v.y as int, 65536, 134217728);
            lemma_mul_bound(self@.w, v.x as int, 65536, 134217728);
            lemma_mul_bound(self@.z, v.x as int, 65536, 134217728);
            lemma_mul_bound(self@.x, v.z as int, 65536, 134217728);
            lemma_mul_bound(self@.w, v.y as int, 65536, 134217728);
            lemma_mul_bound(self@.x, v.y as int, 65536, 134217728);
            lemma_mul_bound(self@.y, v.x as int, 65536, 134217728);
            lemma_mul_bound(self@.w, v.z as int, 65536, 134217728);
        }
        let tx: i64 = self.y * v.z - self.z * v.y + self.w * v.x;
        let ty: i64 = self.z * v.x - self.x * v.z + self.w * v.y;
        let tz: i64 = self.x * v.y - self.y * v.x + self.w * v.z;
        proof {
            lemma_mul_bound(self@.y, tz as int, 65536, 26388279066624);
            lemma_mul_bound(self@.z, ty as int, 65536, 26388279066624);
            lemma_mul_bound(self@.z, tx as int, 65536, 26388279066624);
            lemma_mul_bound(self@.x, tz as int, 65536, 26388279066624);
            lemma_mul_bound(self@.x, ty as int, 65536, 26388279066624);
            lemma_mul_bound(self@.y, tx as int, 65536, 26388279066624);
        }
        let cx: i64 = self.y * tz - self.z * ty;
        let cy: i64 = self.z * tx - self.x * tz;
        let cz: i64 = self.x * ty - self.y * tx;
        proof {
            lemma_tdiv_bound(2 * cx as int, 4294967296, 1610612736);
            lemma_tdiv_bound(2 * cy as int, 4294967296, 1610612736);
            lemma_tdiv_bound(2 * cz as int, 4294967296, 1610612736);
        }
        Vec3I {
            x: v.x + div_trunc(2 * cx, 4294967296),
            y: v.y + div_trunc(2 * cy, 4294967296),
            z: v.z + div_trunc(2 * cz, 4294967296),
        }
    }
}

/// The orientation after composing a whole sequence of rotations, in
/// order, in the exact model.
pub open spec fn q_compose_seq(q: QuatModel, qs: Seq<QuatModel>) -> QuatModel
    decreases qs.len(),
{
    if qs.len() == 0 {
        q
    } else {
        q_compose_seq(q_mul(q, qs[0]), qs.subrange(1, qs.len() as int))
    }
}

/// A unit orientation stays a unit quaternion under any finite sequence
/// of unit rotations.
pub proof fn lemma_compose_seq_unit(q: QuatModel, qs: Seq<QuatModel>)
    requires
        q_norm2(q) == 1,
        forall|i: int| 0 <= i < qs.len() ==> q_norm2(#[trigger] qs[i]) == 1,
    ensures
        q_norm2(q_compose_seq(q, qs)) == 1,
    decreases qs.len(),
{
    if qs.len() > 0 {
        lemma_q_norm2_mul(q, qs[0]);
        lemma_compose_seq_unit(q_mul(q, qs[0]), qs.subrange(1, qs.len() as int));
    }
}

} // verus!
