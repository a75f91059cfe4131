//! Initial node placement on a jittered Fibonacci sphere.
//!
//! Azimuths advance by the golden angle, polar angles follow the arccos
//! spacing, and each node's radius carries a small random jitter so that no
//! two nodes start coincident.  All of it runs in fixed point, mirrored by
//! [`spec_place_node`], so every produced position is pinned exactly; a
//! final check inside the computation additionally guarantees that every
//! position lies within ten percent of the nominal radius, falling back to
//! an exact on-sphere point in the (never observed) case that rounding
//! pushed a candidate outside.

use vstd::prelude::*;
use vstd::arithmetic::div_mod::{lemma_fundamental_div_mod, lemma_remainder};
use crate::fixed::{
    clamp_i128, clamp_spec, isqrt_u128, scale_clamp, spec_isqrt, spec_scale, COORD_LIMIT,
};
use crate::node::{Node, NodeData, Vec3};

verus! {

/// One fixed-point unit for the trigonometric scale.
pub const UNIT: i64 = 1_000_000;

/// The fractional part of the inverse golden ratio, in `UNIT`s: successive
/// azimuths advance by this fraction of a full turn.
pub const INV_PHI_UNIT: i64 = 618_034;

/// The initial sphere radius, in milli-units.
pub const INITIAL_RADIUS_MILLI: i64 = 3000;

/// The squared distance from the origin lies within ten percent of the
/// radius on either side.
pub open spec fn placement_norm_ok(p: Vec3, r: int) -> bool {
    &&& 81 * r * r <= 100 * (p.x * p.x + p.y * p.y + p.z * p.z)
    &&& 100 * (p.x * p.x + p.y * p.y + p.z * p.z) <= 121 * r * r
}

/// Rational approximation of `sin` over one half turn: `t` in `[0, UNIT]`
/// stands for `[0, pi]`, the result in `[0, UNIT]` for `[0, 1]`.
pub open spec fn spec_sin_half_turn(t: int) -> int {
    let p = t * (UNIT - t);
    clamp_spec((16 * p * UNIT) / (5 * UNIT * UNIT - 4 * p), 0, UNIT as int)
}

/// `sin` over one full turn: `a` in `[0, UNIT)` stands for `[0, 2*pi)`.
pub open spec fn spec_sin_turn(a: int) -> int {
    if a <= UNIT / 2 {
        spec_sin_half_turn(2 * a)
    } else {
        -spec_sin_half_turn(2 * a - UNIT)
    }
}

/// `cos` over one full turn, via the quarter-turn phase shift.
pub open spec fn spec_cos_turn(a: int) -> int {
    spec_sin_turn((a + UNIT / 4) % (UNIT as int))
}

/// The polar layer of slot `i` of `n`: the fixed-point arccos spacing
/// `1 - 2*(i + 1/2)/n`, in `UNIT`s.
pub open spec fn spec_polar_component(i: u64, n: u64) -> int {
    clamp_spec(
        (UNIT as int) - ((2 * (i as int) + 1) * (UNIT as int)) / (n as int),
        -(UNIT as int),
        UNIT as int,
    )
}

/// The exact position the placement computes for slot `i` of `n` on the
/// sphere of the given radius with the given jitter: golden-angle azimuth,
/// arccos polar layer, unit direction scaled to the jittered radius, and
/// the on-sphere fallback when the rounded candidate leaves the ten-percent
/// bracket.
pub open spec fn spec_place_node(i: u64, n: u64, radius_milli: i64, jitter_permille: u64) -> Vec3 {
    let azimuth = ((i as int) * (INV_PHI_UNIT as int)) % (UNIT as int);
    let s = spec_sin_turn(azimuth);
    let c = spec_cos_turn(azimuth);
    let zf = spec_polar_component(i, n);
    let h = clamp_spec(
        spec_isqrt(((UNIT as int) * (UNIT as int) - zf * zf) as nat) as int,
        0,
        UNIT as int,
    );
    let dx0 = clamp_spec(spec_scale(c, h, UNIT as int), -(UNIT as int), UNIT as int);
    let dy0 = clamp_spec(spec_scale(s, h, UNIT as int), -(UNIT as int), UNIT as int);
    let dx = if dx0 == 0 && dy0 == 0 && zf == 0 {
        UNIT as int
    } else {
        dx0
    };
    let el = dx * dx + dy0 * dy0 + zf * zf;
    let scale = spec_isqrt(el as nat) as int;
    let target = ((radius_milli as int) * (900 + jitter_permille as int)) / 1000;
    let ox = clamp_spec(spec_scale(dx, target, scale), -(COORD_LIMIT as int), COORD_LIMIT as int);
    let oy = clamp_spec(spec_scale(dy0, target, scale), -(COORD_LIMIT as int), COORD_LIMIT as int);
    let oz = clamp_spec(spec_scale(zf, target, scale), -(COORD_LIMIT as int), COORD_LIMIT as int);
    let n2 = ox * ox + oy * oy + oz * oz;
    let r2 = (radius_milli as int) * (radius_milli as int);
    if 81 * r2 <= 100 * n2 && 100 * n2 <= 121 * r2 {
        Vec3 { x: ox as i64, y: oy as i64, z: oz as i64 }
    } else {
        Vec3 { x: radius_milli, y: 0, z: 0 }
    }
}

/// Executable form of [`spec_sin_half_turn`].
fn sin_half_turn(t: i64) -> (r: i64)
    requires
        0 <= t <= UNIT,
    ensures
        r as int == spec_sin_half_turn(t as int),
        0 <= r <= UNIT,
{
    proof {
        assert(0 <= (t as int) * ((UNIT - t) as int) <= 1_000_000_000_000int) by (nonlinear_arith)
            requires
                0 <= t <= 1_000_000i64,
        ;
    }
    let p: i128 = (t as i128) * ((UNIT - t) as i128);
    proof {
        assert(0 <= 16 * (p as int) * (UNIT as int) <= 0x7fff_ffff_ffff_ffff_ffff_ffff_ffff_ffffint)
            by (nonlinear_arith)
            requires
                0 <= p <= 1_000_000_000_000i128,
                UNIT == 1_000_000i64,
        ;
    }
    let num: i128 = 16 * p * (UNIT as i128);
    let den: i128 = 5 * (UNIT as i128) * (UNIT as i128) - 4 * p;
    clamp_i128(num / den, 0, UNIT)
}

/// Executable form of [`spec_sin_turn`].
fn sin_turn(a: i64) -> (r: i64)
    requires
        0 <= a < UNIT,
    ensures
        r as int == spec_sin_turn(a as int),
        -UNIT <= r <= UNIT,
{
    if a <= UNIT / 2 {
        sin_half_turn(2 * a)
    } else {
        -sin_half_turn(2 * a - UNIT)
    }
}

/// Executable form of [`spec_cos_turn`].
fn cos_turn(a: i64) -> (r: i64)
    requires
        0 <= a < UNIT,
    ensures
        r as int == spec_cos_turn(a as int),
        -UNIT <= r <= UNIT,
{
    let shifted = (a + UNIT / 4) % UNIT;
    sin_turn(shifted)
}

/// Places node `i` of `n` on the jittered sphere of the given radius.
///
/// The result is exactly [`spec_place_node`]; in particular its distance
/// from the origin lies in `[0.9 * radius, 1.1 * radius]` and every
/// component respects the engine's coordinate bound.
#[verifier::rlimit(100)]
pub fn place_node(i: u64, n: u64, radius_milli: i64, jitter_permille: u64) -> (p: Vec3)
    requires
        1 <= radius_milli <= 1_000_000_000,
        n >= 1,
        i < n,
        jitter_permille < 200,
    ensures
        p == spec_place_node(i, n, radius_milli, jitter_permille),
        placement_norm_ok(p, radius_milli as int),
        p.bounded(COORD_LIMIT as int),
{
    proof {
        assert((i as int) * (INV_PHI_UNIT as int) <= 0x7fff_ffff_ffff_ffff_ffff_ffff_ffff_ffffint)
            by (nonlinear_arith)
            requires
                i <= u64::MAX,
        ;
        assert((i as int) * (INV_PHI_UNIT as int) >= 0) by (nonlinear_arith)
            requires
                i >= 0,
        ;
    }
    let azimuth: i64 = (((i as i128) * (INV_PHI_UNIT as i128)) % (UNIT as i128)) as i64;
    proof {
        assert(azimuth as int == ((i as int) * (INV_PHI_UNIT as int)) % (UNIT as int));
    }
    let s = sin_turn(azimuth);
    let c = cos_turn(azimuth);

    proof {
        assert((2 * (i as int) + 1) * (UNIT as int) <= 0x7fff_ffff_ffff_ffff_ffff_ffff_ffff_ffffint
            && (2 * (i as int) + 1) * (UNIT as int) >= 0) by (nonlinear_arith)
            requires
                0 <= i <= u64::MAX,
        ;
    }
    let zf_raw: i128 = (UNIT as i128) - ((2 * (i as i128) + 1) * (UNIT as i128)) / (n as i128);
    let zf: i64 = clamp_i128(zf_raw, -UNIT, UNIT);
    proof {
        assert(zf as int == spec_polar_component(i, n));
        assert(0 <= (zf as int) * (zf as int) <= (UNIT as int) * (UNIT as int)) by (
        nonlinear_arith)
            requires
                -1_000_000i64 <= zf <= 1_000_000i64,
                UNIT == 1_000_000i64,
        ;
    }
    let h2: i128 = (UNIT as i128) * (UNIT as i128) - (zf as i128) * (zf as i128);
    let h: i64 = clamp_i128(isqrt_u128(h2 as u128) as i128, 0, UNIT);
    proof {
        assert((h2 as u128) as nat == ((UNIT as int) * (UNIT as int) - (zf as int) * (
        zf as int)) as nat);
        assert(h as int == clamp_spec(
            spec_isqrt(((UNIT as int) * (UNIT as int) - (zf as int) * (zf as int)) as nat) as int,
            0,
            UNIT as int,
        ));
    }
    let dx0: i64 = scale_clamp(c, h, UNIT, UNIT);
    let dy0: i64 = scale_clamp(s, h, UNIT, UNIT);
    let dz: i64 = zf;
    let dx: i64 = if dx0 == 0 && dy0 == 0 && dz == 0 {
        UNIT
    } else {
        dx0
    };
    proof {
        assert(0 <= (dx as int) * (dx as int) <= 1_000_000_000_000int && 0 <= (dy0 as int) * (
        dy0 as int) <= 1_000_000_000_000int && 0 <= (dz as int) * (dz as int)
            <= 1_000_000_000_000int && (dx as int) * (dx as int) + (dy0 as int) * (dy0 as int) + (
        dz as int) * (dz as int) >= 1) by (nonlinear_arith)
            requires
                -1_000_000i64 <= dx <= 1_000_000i64,
                -1_000_000i64 <= dy0 <= 1_000_000i64,
                -1_000_000i64 <= dz <= 1_000_000i64,
                !(dx == 0 && dy0 == 0 && dz == 0),
        ;
    }
    let el: i128 = (dx as i128) * (dx as i128) + (dy0 as i128) * (dy0 as i128) + (dz as i128) * (
    dz as i128);
    let scale: u64 = isqrt_u128(el as u128);
    proof {
        assert(scale as int == spec_isqrt(((dx as int) * (dx as int) + (dy0 as int) * (dy0 as int)
            + (dz as int) * (dz as int)) as nat) as int);
        assert(scale >= 1) by {
            assert((scale as int + 1) * (scale as int + 1) > 1 ==> scale >= 1) by (nonlinear_arith);
        }
        assert(scale <= 2_000_000) by {
            if scale > 2_000_000 {
                assert((scale as int) * (scale as int) > 3_000_000_000_000int) by (nonlinear_arith)
                    requires
                        scale > 2_000_000u64,
                ;
            }
        }
        assert((radius_milli as int) * ((900 + jitter_permille) as int) <= 1_099_000_000_000int
            && (radius_milli as int) * ((900 + jitter_permille) as int) >= 900) by (nonlinear_arith)
            requires
                1 <= radius_milli <= 1_000_000_000i64,
                jitter_permille < 200,
        ;
    }
    let target: i64 = (((radius_milli as i128) * ((900 + jitter_permille) as i128)) / 1000) as i64;
    proof {
        assert(target as int == ((radius_milli as int) * (900 + jitter_permille as int)) / 1000);
        assert(0 <= target <= 1_100_000_000);
    }
    let scale_i: i64 = scale as i64;
    let ox: i64 = scale_clamp(dx, target, scale_i, COORD_LIMIT);
    let oy: i64 = scale_clamp(dy0, target, scale_i, COORD_LIMIT);
    let oz: i64 = scale_clamp(dz, target, scale_i, COORD_LIMIT);
    proof {
        assert(0 <= (ox as int) * (ox as int) <= 4_000_000_000_000_000_000int && 0 <= (oy as int)
            * (oy as int) <= 4_000_000_000_000_000_000int && 0 <= (oz as int) * (oz as int)
            <= 4_000_000_000_000_000_000int) by (nonlinear_arith)
            requires
                -2_000_000_000i64 <= ox <= 2_000_000_000i64,
                -2_000_000_000i64 <= oy <= 2_000_000_000i64,
                -2_000_000_000i64 <= oz <= 2_000_000_000i64,
        ;
        assert((radius_milli as int) * (radius_milli as int) <= 1_000_000_000_000_000_000int
            && (radius_milli as int) * (radius_milli as int) >= 1) by (nonlinear_arith)
            requires
                1 <= radius_milli <= 1_000_000_000i64,
        ;
    }
    let n2: i128 = (ox as i128) * (ox as i128) + (oy as i128) * (oy as i128) + (oz as i128) * (
    oz as i128);
    let r2: i128 = (radius_milli as i128) * (radius_milli as i128);
    if 81 * r2 <= 100 * n2 && 100 * n2 <= 121 * r2 {
        proof {
            let ghost rr = (radius_milli as int) * (radius_milli as int);
            let ghost ss = (ox as int) * (ox as int) + (oy as int) * (oy as int) + (oz as int) * (
            oz as int);
            assert(81 * (radius_milli as int) * (radius_milli as int) <= 100 * ss && 100 * ss
                <= 121 * (radius_milli as int) * (radius_milli as int)) by (nonlinear_arith)
                requires
                    81 * rr <= 100 * ss,
                    100 * ss <= 121 * rr,
                    rr == (radius_milli as int) * (radius_milli as int),
            ;
        }
        let p = Vec3 { x: ox, y: oy, z: oz };
        proof {
            assert(p == spec_place_node(i, n, radius_milli, jitter_permille));
        }
        p
    } else {
        proof {
            assert(81 * (radius_milli as int) * (radius_milli as int) <= 100 * ((
            radius_milli as int) * (radius_milli as int) + 0 * 0 + 0 * 0) && 100 * ((
            radius_milli as int) * (radius_milli as int) + 0 * 0 + 0 * 0) <= 121 * (
            radius_milli as int) * (radius_milli as int)) by (nonlinear_arith)
                requires
                    radius_milli >= 1,
            ;
        }
        let p = Vec3 { x: radius_milli, y: 0, z: 0 };
        proof {
            assert(p == spec_place_node(i, n, radius_milli, jitter_permille));
        }
        p
    }
}

/// Distinct slots get distinct polar layers: the arccos spacing separates
/// every pair of indices whenever the node count stays within the
/// trigonometric scale.  This is the half of the spread that holds for
/// every jitter draw; full positional distinctness additionally depends on
/// the random per-node radius, which scales each direction separately, and
/// is exercised by the runtime tests.
pub proof fn lemma_polar_layers_distinct(i: u64, j: u64, n: u64)
    requires
        (i as int) < (j as int) < (n as int),
        n <= 1_000_000,
    ensures
        spec_polar_component(i, n) != spec_polar_component(j, n),
{
    let u = UNIT as int;
    let nn = n as int;
    let a = (2 * (i as int) + 1) * u;
    let b = (2 * (j as int) + 1) * u;
    let qa = a / nn;
    let qb = b / nn;
    assert(u >= a - 2 * (i as int) * u && a >= u && b - a >= 2 * u && b <= 2 * u * nn - u) by (
    nonlinear_arith)
        requires
            a == (2 * (i as int) + 1) * u,
            b == (2 * (j as int) + 1) * u,
            0 <= i as int,
            (i as int) < (j as int),
            (j as int) <= nn - 1,
            u == 1_000_000int,
            nn <= u,
            1 <= nn,
    ;
    lemma_fundamental_div_mod(a, nn);
    lemma_fundamental_div_mod(b, nn);
    lemma_remainder(a, nn);
    lemma_remainder(b, nn);
    assert(1 <= qa && qa <= 2 * u - 1 && 1 <= qb && qb <= 2 * u - 1 && qb >= qa + 1) by (
    nonlinear_arith)
        requires
            a == nn * qa + (a - a / nn * nn),
            b == nn * qb + (b - b / nn * nn),
            qa == a / nn,
            qb == b / nn,
            0 <= a - a / nn * nn < nn,
            0 <= b - b / nn * nn < nn,
            a >= u,
            b - a >= 2 * u,
            b <= 2 * u * nn - u,
            u >= nn,
            nn >= 1,
            u >= 1,
    ;
    assert(spec_polar_component(i, n) == u - qa);
    assert(spec_polar_component(j, n) == u - qb);
}

/// Assigns every node its initial sphere position — exactly the Fibonacci
/// placement of its slot for some drawn jitter — and a zero velocity,
/// leaving ids, labels, metadata, mass and flags untouched.
pub fn initialize_random_positions(nodes: &mut Vec<Node>)
    requires
        old(nodes)@.len() <= 0x4000_0000,
    ensures
        final(nodes)@.len() == old(nodes)@.len(),
        forall|i: int|
            0 <= i < old(nodes)@.len() ==> {
                &&& final(nodes)@[i] == old(nodes)@[i].with_data_spec(final(nodes)@[i].data)
                &&& (exists|j: u64|
                    2 <= j < 200 && final(nodes)@[i].data.position == #[trigger] spec_place_node(
                        i as u64,
                        old(nodes)@.len() as u64,
                        INITIAL_RADIUS_MILLI,
                        j,
                    ))
                &&& placement_norm_ok(
                    final(nodes)@[i].data.position,
                    INITIAL_RADIUS_MILLI as int,
                )
                &&& final(nodes)@[i].data.velocity == (Vec3 { x: 0, y: 0, z: 0 })
                &&& final(nodes)@[i].data.mass == old(nodes)@[i].data.mass
                &&& final(nodes)@[i].data.flags == old(nodes)@[i].data.flags
                &&& final(nodes)@[i].data.position.bounded(COORD_LIMIT as int)
            },
{
    let ghost orig = nodes@;
    let n = nodes.len();
    let mut i: usize = 0;
    while i < n
        invariant
            i <= n,
            n == nodes@.len(),
            n == orig.len(),
            forall|q: int| i <= q < n ==> nodes@[q] == orig[q],
            forall|q: int|
                0 <= q < i ==> {
                    &&& nodes@[q] == orig[q].with_data_spec(nodes@[q].data)
                    &&& (exists|j: u64|
                        2 <= j < 200 && nodes@[q].data.position == #[trigger] spec_place_node(
                            q as u64,
                            n as u64,
                            INITIAL_RADIUS_MILLI,
                            j,
                        ))
                    &&& placement_norm_ok(nodes@[q].data.position, INITIAL_RADIUS_MILLI as int)
                    &&& nodes@[q].data.velocity == (Vec3 { x: 0, y: 0, z: 0 })
                    &&& nodes@[q].data.mass == orig[q].data.mass
                    &&& nodes@[q].data.flags == orig[q].data.flags
                    &&& nodes@[q].data.position.bounded(COORD_LIMIT as int)
                },
        decreases n - i,
    {
        let drawn = crate::rng::random_jitter_permille();
        // Keep the jitter clear of the window's lower edge so that rounding
        // cannot push a candidate beneath the placement bound.
        let jitter = if drawn < 2 {
            2
        } else {
            drawn
        };
        let pos = place_node(i as u64, n as u64, INITIAL_RADIUS_MILLI, jitter);
        proof {
            assert(2 <= jitter < 200 && pos == spec_place_node(
                i as u64,
                n as u64,
                INITIAL_RADIUS_MILLI,
                jitter,
            ));
        }
        let old_data = nodes[i].data;
        let new_data = NodeData {
            position: pos,
            velocity: Vec3 { x: 0, y: 0, z: 0 },
            mass: old_data.mass,
            flags: old_data.flags,
        };
        let mut tmp = Node {
            id: 0,
            metadata_id: String::new(),
            label: String::new(),
            data: NodeData::at_rest(),
            metadata: Vec::new(),
            file_size: 0,
            size: None,
        };
        nodes.set_and_swap(i, &mut tmp);
        tmp.data = new_data;
        nodes.set_and_swap(i, &mut tmp);
        i = i + 1;
    }
}

} // verus!
