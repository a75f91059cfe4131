//! Saturating fixed-point arithmetic and integer square root.
//!
//! All engine quantities are integers: lengths and velocities in milli-units
//! (1000 = 1.0), dimensionless factors in micro-units (1_000_000 = 1.0).
//! Force computations run in `i128` and saturate instead of overflowing, so
//! the physics is total over every well-formed graph.

use vstd::prelude::*;

verus! {

/// Largest coordinate magnitude a node may hold, in milli-units.
pub const COORD_LIMIT: i64 = 2_000_000_000;

/// Largest velocity magnitude a node may hold, in milli-units per second.
pub const VEL_LIMIT: i64 = 1_000_000_000;

/// Saturation bound for a single force contribution.
pub const CONTRIB_CAP: i64 = 1_000_000_000_000_000_000;

/// Saturation bound for an accumulated force component.
pub const ACC_CAP: i64 = 4_000_000_000_000_000_000;

/// Clamps an unbounded integer into `[lo, hi]`.
pub open spec fn clamp_spec(v: int, lo: int, hi: int) -> int {
    if v < lo {
        lo
    } else if v > hi {
        hi
    } else {
        v
    }
}

/// Clamps a wide intermediate into an `i64` interval.
pub fn clamp_i128(v: i128, lo: i64, hi: i64) -> (r: i64)
    requires
        lo <= hi,
    ensures
        r as int == clamp_spec(v as int, lo as int, hi as int),
{
    if v < lo as i128 {
        lo
    } else if v > hi as i128 {
        hi
    } else {
        v as i64
    }
}

/// Saturating product of two `i64` values, clamped to `[-cap, cap]`.
pub open spec fn sat_mul_spec(a: int, b: int, cap: int) -> int {
    clamp_spec(a * b, -cap, cap)
}

/// Saturating product; the `i128` product of two `i64` values cannot overflow.
pub fn sat_mul(a: i64, b: i64, cap: i64) -> (r: i64)
    requires
        cap >= 0,
    ensures
        r as int == sat_mul_spec(a as int, b as int, cap as int),
{
    proof {
        assert(i128::MIN <= (a as int) * (b as int) <= i128::MAX) by (nonlinear_arith)
            requires
                i64::MIN <= a <= i64::MAX,
                i64::MIN <= b <= i64::MAX,
        ;
    }
    let wide: i128 = (a as i128) * (b as i128);
    clamp_i128(wide, -cap, cap)
}

/// Saturating sum, clamped to `[-cap, cap]`.
pub open spec fn sat_add_spec(a: int, b: int, cap: int) -> int {
    clamp_spec(a + b, -cap, cap)
}

/// Saturating sum of two `i64` values.
pub fn sat_add(a: i64, b: i64, cap: i64) -> (r: i64)
    requires
        cap >= 0,
    ensures
        r as int == sat_add_spec(a as int, b as int, cap as int),
{
    let wide: i128 = (a as i128) + (b as i128);
    clamp_i128(wide, -cap, cap)
}

/// Integer square root at the specification level, by digit recursion.
pub open spec fn spec_isqrt(x: nat) -> nat
    decreases x,
{
    if x < 2 {
        x
    } else {
        let r = 2 * spec_isqrt(x / 4);
        if (r + 1) * (r + 1) <= x {
            r + 1
        } else {
            r
        }
    }
}

/// `spec_isqrt` really is the integer square root.
pub proof fn lemma_spec_isqrt_bounds(x: nat)
    ensures
        spec_isqrt(x) * spec_isqrt(x) <= x,
        x < (spec_isqrt(x) + 1) * (spec_isqrt(x) + 1),
    decreases x,
{
    if x < 2 {
        assert(spec_isqrt(x) == x);
        assert(x * x <= x && x < (x + 1) * (x + 1)) by (nonlinear_arith)
            requires
                0 <= x < 2,
        ;
    } else {
        lemma_spec_isqrt_bounds(x / 4);
        let s = spec_isqrt(x / 4);
        let r = 2 * s;
        assert(s * s <= x / 4);
        assert(x / 4 < (s + 1) * (s + 1));
        assert(r * r <= x) by (nonlinear_arith)
            requires
                s * s <= x / 4,
                r == 2 * s,
                x >= 0,
        ;
        assert(x < (r + 2) * (r + 2)) by (nonlinear_arith)
            requires
                x / 4 < (s + 1) * (s + 1),
                r == 2 * s,
                x >= 0,
        ;
        let res = spec_isqrt(x);
        if (r + 1) * (r + 1) <= x {
            assert(res == r + 1);
            assert(res * res <= x);
            assert(x < (res + 1) * (res + 1));
        } else {
            assert(res == r);
            assert(res * res <= x);
            assert(x < (res + 1) * (res + 1));
        }
    }
}

/// Any value with the square-root bracketing property equals `spec_isqrt`.
pub proof fn lemma_isqrt_unique(x: nat, r: nat)
    requires
        r * r <= x,
        x < (r + 1) * (r + 1),
    ensures
        r == spec_isqrt(x),
{
    lemma_spec_isqrt_bounds(x);
    let s = spec_isqrt(x);
    if r < s {
        assert(false) by (nonlinear_arith)
            requires
                r < s,
                s * s <= x,
                x < (r + 1) * (r + 1),
        ;
    }
    if s < r {
        assert(false) by (nonlinear_arith)
            requires
                s < r,
                r * r <= x,
                x < (s + 1) * (s + 1),
        ;
    }
}

/// Truncating sign-preserving scaling: `a * num / den` computed on the
/// magnitude, with the sign of `a` re-applied.
pub open spec fn spec_scale(a: int, num: int, den: int) -> int {
    if a >= 0 {
        a * num / den
    } else {
        -((-a) * num / den)
    }
}

/// Scales and clamps: the result is `spec_scale` clamped to `[-cap, cap]`.
pub fn scale_clamp(a: i64, num: i64, den: i64, cap: i64) -> (r: i64)
    requires
        0 <= num <= 2_000_000_000,
        1 <= den,
        0 <= cap,
    ensures
        r as int == clamp_spec(spec_scale(a as int, num as int, den as int), -cap as int,
            cap as int),
{
    let aa: i128 = a as i128;
    let mag: i128 = if aa >= 0 {
        aa
    } else {
        -aa
    };
    proof {
        assert(0 <= mag * (num as int) <= 0x7fff_ffff_ffff_ffff_ffff_ffff_ffff_ffffint) by (
        nonlinear_arith)
            requires
                0 <= mag <= 0x8000_0000_0000_0000i128,
                0 <= num <= 2_000_000_000i64,
        ;
    }
    let scaled: i128 = mag * (num as i128) / (den as i128);
    let signed: i128 = if aa >= 0 {
        scaled
    } else {
        -scaled
    };
    clamp_i128(signed, -cap, cap)
}

/// Integer square root: the largest `r` with `r * r <= x`.
pub fn isqrt_u128(x: u128) -> (r: u64)
    ensures
        (r as int) * (r as int) <= x as int,
        (x as int) < (r as int + 1) * (r as int + 1),
        r == spec_isqrt(x as nat),
{
    let mut lo: u64 = 0;
    let mut hi: u64 = u64::MAX;
    proof {
        assert((hi as int + 1) * (hi as int + 1) > u128::MAX as int) by (nonlinear_arith)
            requires
                hi == u64::MAX,
        ;
    }
    while lo < hi
        invariant
            (lo as int) * (lo as int) <= x as int,
            (x as int) < (hi as int + 1) * (hi as int + 1),
            lo <= hi,
        decreases hi - lo,
    {
        let wide_mid: u128 = (lo as u128 + hi as u128 + 1) / 2;
        assert(wide_mid <= u64::MAX as u128);
        let mid: u64 = wide_mid as u64;
        proof {
            assert((mid as int) * (mid as int) <= u128::MAX as int) by (nonlinear_arith)
                requires
                    mid <= u64::MAX,
            ;
        }
        let sq: u128 = (mid as u128) * (mid as u128);
        if sq <= x {
            lo = mid;
        } else {
            hi = mid - 1;
        }
    }
    proof {
        lemma_isqrt_unique(x as nat, lo as nat);
    }
    lo
}

} // verus!
