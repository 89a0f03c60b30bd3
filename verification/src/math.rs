//! Exact scalar helpers: truncating signed division, integer square root,
//! clamping, and the fixed-point sine/cosine used for orbit rotations.

use vstd::prelude::*;

verus! {

/// Truncating (round-toward-zero) division, the convention used for all
/// fixed-point rescaling in this crate.
pub open spec fn tdiv(a: int, b: int) -> int {
    if a >= 0 {
        a / b
    } else {
        -((-a) / b)
    }
}

/// Clamp `v` into `[lo, hi]`.
pub open spec fn clamp_spec(v: int, lo: int, hi: int) -> int {
    if v < lo {
        lo
    } else if v > hi {
        hi
    } else {
        v
    }
}

/// The greatest `r >= 0` with `r * r <= n` (and `0` for negative `n`).
pub open spec fn isqrt_spec(n: int) -> int
    decreases n,
{
    if n <= 0 {
        0
    } else if (isqrt_spec(n - 1) + 1) * (isqrt_spec(n - 1) + 1) <= n {
        isqrt_spec(n - 1) + 1
    } else {
        isqrt_spec(n - 1)
    }
}

/// A product of values bounded in magnitude is bounded by the product of
/// the bounds.
pub proof fn lemma_mul_bound(a: int, b: int, ba: int, bb: int)
    by (nonlinear_arith)
    requires
        -ba <= a <= ba,
        -bb <= b <= bb,
    ensures
        -(ba * bb) <= a * b <= ba * bb,
{
}

/// Truncating division by a positive divisor keeps a magnitude bound:
/// if `|a| <= b * k` then `|tdiv(a, b)| <= k`.
pub proof fn lemma_tdiv_bound(a: int, b: int, k: int)
    requires
        b > 0,
        k >= 0,
        -(b * k) <= a <= b * k,
    ensures
        -k <= tdiv(a, b) <= k,
        a >= 0 ==> tdiv(a, b) >= 0,
{
    if a >= 0 {
        assert(0 <= a / b <= k) by (nonlinear_arith)
            requires
                b > 0,
                k >= 0,
                0 <= a <= b * k;
    } else {
        assert(0 <= (-a) / b <= k) by (nonlinear_arith)
            requires
                b > 0,
                k >= 0,
                0 <= -a <= b * k;
    }
}

/// `isqrt_spec` brackets its argument between consecutive squares.
pub proof fn lemma_isqrt_spec_bracket(n: int)
    requires
        n >= 0,
    ensures
        isqrt_spec(n) >= 0,
        isqrt_spec(n) * isqrt_spec(n) <= n,
        n < (isqrt_spec(n) + 1) * (isqrt_spec(n) + 1),
    decreases n,
{
    if n == 0 {
    } else {
        lemma_isqrt_spec_bracket(n - 1);
        let r = isqrt_spec(n - 1);
        if (r + 1) * (r + 1) <= n {
            assert(n == (r + 1) * (r + 1));
            assert((r + 1) * (r + 1) < (r + 2) * (r + 2)) by (nonlinear_arith)
                requires
                    r >= 0;
        }
    }
}

/// Truncating division of a signed value by a positive divisor.
pub fn div_trunc(a: i64, b: i64) -> (r: i64)
    requires
        b > 0,
        a > i64::MIN,
    ensures
        r == tdiv(a as int, b as int),
{
    if a >= 0 {
        let q: u64 = (a as u64) / (b as u64);
        q as i64
    } else {
        let m: u64 = ((-a) as u64) / (b as u64);
        -(m as i64)
    }
}

/// Clamp `v` into `[lo, hi]`.
pub fn clamp_i64(v: i64, lo: i64, hi: i64) -> (r: i64)
    requires
        lo <= hi,
    ensures
        r == clamp_spec(v as int, lo as int, hi as int),
{
    if v < lo {
        lo
    } else if v > hi {
        hi
    } else {
        v
    }
}

/// Integer square root: the greatest `r` with `r * r <= n`.
pub fn isqrt(n: u64) -> (r: u64)
    ensures
        r * r <= n < (r + 1) * (r + 1),
        r == isqrt_spec(n as int),
        r <= n,
{
    let mut lo: u64 = 0;
    // 2^32 is past the square root of every u64.
    let mut hi: u64 = 4294967296;
    assert(n < hi * hi) by (nonlinear_arith)
        requires
            hi == 4294967296u64,
            n <= u64::MAX;
    while lo + 1 < hi
        invariant
            lo < hi,
            hi <= 4294967296,
            lo * lo <= n,
            n < hi * hi,
        decreases hi - lo,
    {
        let mid: u64 = lo + (hi - lo) / 2;
        proof {
            assert((mid as int) * (mid as int) <= 0x10000000000000000) by (nonlinear_arith)
                requires
                    mid as int <= 0x100000000;
        }
        let sq: u128 = (mid as u128) * (mid as u128);
        if sq <= n as u128 {
            lo = mid;
        } else {
            hi = mid;
        }
    }
    proof {
        lemma_isqrt_spec_bracket(n as int);
        let s = isqrt_spec(n as int);
        assert(lo as int == s) by (nonlinear_arith)
            requires
                lo as int >= 0,
                s >= 0,
                (lo as int) * (lo as int) <= n as int,
                (n as int) < ((lo as int) + 1) * ((lo as int) + 1),
                s * s <= n as int,
                (n as int) < (s + 1) * (s + 1);
        assert(lo <= n) by (nonlinear_arith)
            requires
                lo as int >= 0,
                (lo as int) * (lo as int) <= n as int;
    }
    lo
}

/// Largest half-angle (in 16.16 radians) the fixed-point trig accepts:
/// a quarter turn, `pi/4` scaled by `SCALE`.
pub const HALF_ANGLE_MAX: i64 = 51472;

/// Fixed-point sine of a half-angle: the cubic Taylor truncation
/// `a - a^3 / 6`, evaluated with truncating fixed-point divisions.
pub open spec fn sin_fp_spec(a: int) -> int {
    a - tdiv(tdiv(a * a, 65536) * a, 393216)
}

/// Fixed-point cosine of a half-angle: the quartic Taylor truncation
/// `1 - a^2 / 2 + a^4 / 24`, evaluated with truncating fixed-point
/// divisions.
pub open spec fn cos_fp_spec(a: int) -> int {
    65536 - tdiv(a * a, 131072) + tdiv(tdiv(a * a, 65536) * tdiv(a * a, 65536), 1572864)
}

/// Fixed-point sine of a half-angle in `[-HALF_ANGLE_MAX, HALF_ANGLE_MAX]`.
pub fn sin_fp(a: i64) -> (r: i64)
    requires
        -HALF_ANGLE_MAX <= a <= HALF_ANGLE_MAX,
    ensures
        r == sin_fp_spec(a as int),
        -56766 <= r <= 56766,
{
    proof {
        lemma_mul_bound(a as int, a as int, 51472, 51472);
        assert(a * a >= 0) by (nonlinear_arith);
        lemma_tdiv_bound((a * a) as int, 65536, 40436);
    }
    let s1: i64 = div_trunc(a * a, 65536);
    proof {
        lemma_mul_bound(s1 as int, a as int, 40436, 51472);
        lemma_tdiv_bound((s1 * a) as int, 393216, 5294);
    }
    let s2: i64 = div_trunc(s1 * a, 393216);
    a - s2
}

/// Fixed-point cosine of a half-angle in `[-HALF_ANGLE_MAX, HALF_ANGLE_MAX]`.
pub fn cos_fp(a: i64) -> (r: i64)
    requires
        -HALF_ANGLE_MAX <= a <= HALF_ANGLE_MAX,
    ensures
        r == cos_fp_spec(a as int),
        45318 <= r <= 66576,
{
    proof {
        lemma_mul_bound(a as int, a as int, 51472, 51472);
        assert(a * a >= 0) by (nonlinear_arith);
        lemma_tdiv_bound((a * a) as int, 131072, 20218);
        lemma_tdiv_bound((a * a) as int, 65536, 40436);
    }
    let c1: i64 = div_trunc(a * a, 131072);
    let s1: i64 = div_trunc(a * a, 65536);
    proof {
        lemma_mul_bound(s1 as int, s1 as int, 40436, 40436);
        assert(s1 * s1 >= 0) by (nonlinear_arith);
        lemma_tdiv_bound((s1 * s1) as int, 1572864, 1040);
    }
    let c2: i64 = div_trunc(s1 * s1, 1572864);
    65536 - c1 + c2
}

} // verus!
