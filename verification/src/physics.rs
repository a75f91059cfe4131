//! The processor path of the physics engine, and the write-back of
//! accelerator results.
//!
//! One tick accumulates pairwise repulsion over every unordered node pair
//! and spring attraction over every edge, then integrates velocities and
//! positions (semi-implicit Euler, one pass) and mirrors the new state into
//! the id-indexed node map.  The whole computation is fixed point and
//! saturating, and each public function's contract gives the produced state
//! exactly, as a fold over the input graph.

use vstd::prelude::*;
use crate::edge::{Edge, WEIGHT_CAP};
use crate::errors::EngineError;
use crate::fixed::{
    clamp_i128, clamp_spec, isqrt_u128, sat_add, sat_add_spec, scale_clamp, spec_isqrt, spec_scale,
    ACC_CAP, CONTRIB_CAP, COORD_LIMIT, VEL_LIMIT,
};
use crate::graph::{has_node_id, nodes_wf, GraphData};
use crate::node::{Node, NodeData, Vec3};
use crate::node_map::{ids_unique, NodeMap};
use crate::params::SimulationParams;

verus! {

/// Below this squared distance (in milli-units squared) two nodes count as
/// coincident and exert no force on each other.
pub const EPS2_MILLI2: i64 = 100;

/// Saturation bound for the scalar force factor.
pub const FACTOR_CAP: i128 = 1_000_000_000_000_000_000_000_000;

/// Magnitude of an integer.
pub open spec fn iabs(a: int) -> int {
    if a < 0 {
        -a
    } else {
        a
    }
}

/// One force component: the magnitude `|d| * f / dist` clamped, with the
/// sign of `d` re-applied.
pub open spec fn spec_force_comp(d: int, f: int, dist: int) -> i64 {
    let mag = clamp_spec(iabs(d) * f / dist, 0, CONTRIB_CAP as int);
    (if d < 0 {
        -mag
    } else {
        mag
    }) as i64
}

/// The repulsion force a pair of nodes exerts, directed from `a` towards
/// `b`; zero when coincident or beyond the configured maximum distance.
pub open spec fn spec_repulsion_pair(a: NodeData, b: NodeData, p: SimulationParams) -> Vec3 {
    let dx = b.position.x - a.position.x;
    let dy = b.position.y - a.position.y;
    let dz = b.position.z - a.position.z;
    let d2 = dx * dx + dy * dy + dz * dz;
    if d2 < EPS2_MILLI2 {
        Vec3 { x: 0, y: 0, z: 0 }
    } else {
        let dist = spec_isqrt(d2 as nat) as int;
        if dist > p.max_repulsion_distance_milli {
            Vec3 { x: 0, y: 0, z: 0 }
        } else {
            let mi = (a.mass as int) * 10 * (p.mass_scale_milli as int) / 255;
            let mj = (b.mass as int) * 10 * (p.mass_scale_milli as int) / 255;
            let f = clamp_spec(
                (p.repulsion_micro as int) * mi * mj / d2,
                0,
                FACTOR_CAP as int,
            );
            Vec3 {
                x: spec_force_comp(dx, f, dist),
                y: spec_force_comp(dy, f, dist),
                z: spec_force_comp(dz, f, dist),
            }
        }
    }
}

/// One spring force component: `|d| * strength * weight / 1000` clamped,
/// signed like `d`.
pub open spec fn spec_spring_comp(d: int, w: int, p: SimulationParams) -> i64 {
    let mag = clamp_spec(
        iabs(d) * (p.spring_strength_micro as int) * w / 1000,
        0,
        CONTRIB_CAP as int,
    );
    (if d < 0 {
        -mag
    } else {
        mag
    }) as i64
}

/// The spring force an edge of the given weight exerts, directed from `a`
/// towards `b`; zero when the endpoints coincide.
pub open spec fn spec_spring_pair(a: NodeData, b: NodeData, w: u64, p: SimulationParams) -> Vec3 {
    let dx = b.position.x - a.position.x;
    let dy = b.position.y - a.position.y;
    let dz = b.position.z - a.position.z;
    let d2 = dx * dx + dy * dy + dz * dz;
    if d2 < EPS2_MILLI2 {
        Vec3 { x: 0, y: 0, z: 0 }
    } else {
        let weff = if w > WEIGHT_CAP {
            WEIGHT_CAP as int
        } else {
            w as int
        };
        Vec3 {
            x: spec_spring_comp(dx, weff, p),
            y: spec_spring_comp(dy, weff, p),
            z: spec_spring_comp(dz, weff, p),
        }
    }
}

/// Saturating accumulator sum.
pub open spec fn spec_acc_add(a: Vec3, f: Vec3) -> Vec3 {
    Vec3 {
        x: sat_add_spec(a.x as int, f.x as int, ACC_CAP as int) as i64,
        y: sat_add_spec(a.y as int, f.y as int, ACC_CAP as int) as i64,
        z: sat_add_spec(a.z as int, f.z as int, ACC_CAP as int) as i64,
    }
}

/// Saturating accumulator difference.
pub open spec fn spec_acc_sub(a: Vec3, f: Vec3) -> Vec3 {
    Vec3 {
        x: sat_add_spec(a.x as int, -(f.x as int), ACC_CAP as int) as i64,
        y: sat_add_spec(a.y as int, -(f.y as int), ACC_CAP as int) as i64,
        z: sat_add_spec(a.z as int, -(f.z as int), ACC_CAP as int) as i64,
    }
}

/// Applies a repulsion pair force: pushed apart equally and oppositely.
pub open spec fn spec_apply_rep(acc: Seq<Vec3>, i: int, j: int, f: Vec3) -> Seq<Vec3> {
    let a1 = acc.update(i, spec_acc_sub(acc[i], f));
    a1.update(j, spec_acc_add(a1[j], f))
}

/// Applies a spring pair force: pulled together equally and oppositely.
pub open spec fn spec_apply_spring(acc: Seq<Vec3>, i: int, j: int, f: Vec3) -> Seq<Vec3> {
    let a1 = acc.update(i, spec_acc_add(acc[i], f));
    a1.update(j, spec_acc_sub(a1[j], f))
}

/// Repulsion contributions of the pairs `(i, j')` for `j' >= j`.
pub open spec fn spec_rep_row(
    nodes: Seq<Node>,
    p: SimulationParams,
    i: int,
    j: int,
    acc: Seq<Vec3>,
) -> Seq<Vec3>
    decreases nodes.len() - j,
{
    if j < 0 || j >= nodes.len() {
        acc
    } else {
        spec_rep_row(
            nodes,
            p,
            i,
            j + 1,
            spec_apply_rep(acc, i, j, spec_repulsion_pair(nodes[i].data, nodes[j].data, p)),
        )
    }
}

/// Repulsion contributions of every unordered pair `(i', j)` with
/// `i <= i' < j`.
pub open spec fn spec_rep_from(
    nodes: Seq<Node>,
    p: SimulationParams,
    i: int,
    acc: Seq<Vec3>,
) -> Seq<Vec3>
    decreases nodes.len() - i,
{
    if i < 0 || i >= nodes.len() {
        acc
    } else {
        spec_rep_from(nodes, p, i + 1, spec_rep_row(nodes, p, i, i + 1, acc))
    }
}

/// Index of the first node carrying `id` at or after `from`; the length
/// when none does.
pub open spec fn spec_find_id(nodes: Seq<Node>, id: u32, from: int) -> int
    decreases nodes.len() - from,
{
    if from < 0 || from >= nodes.len() {
        nodes.len() as int
    } else if nodes[from].id == id {
        from
    } else {
        spec_find_id(nodes, id, from + 1)
    }
}

/// Spring contributions of the edges from index `e` on; an edge whose
/// endpoints do not both resolve contributes nothing.
pub open spec fn spec_spring_from(
    nodes: Seq<Node>,
    edges: Seq<Edge>,
    p: SimulationParams,
    e: int,
    acc: Seq<Vec3>,
) -> Seq<Vec3>
    decreases edges.len() - e,
{
    if e < 0 || e >= edges.len() {
        acc
    } else {
        let si = spec_find_id(nodes, edges[e].source, 0);
        let ti = spec_find_id(nodes, edges[e].target, 0);
        let acc2 = if si < nodes.len() && ti < nodes.len() {
            spec_apply_spring(
                acc,
                si,
                ti,
                spec_spring_pair(nodes[si].data, nodes[ti].data, edges[e].weight, p),
            )
        } else {
            acc
        };
        spec_spring_from(nodes, edges, p, e + 1, acc2)
    }
}

/// All-zero force accumulators.
pub open spec fn spec_zero_forces(n: nat) -> Seq<Vec3> {
    Seq::new(n, |i: int| Vec3 { x: 0, y: 0, z: 0 })
}

/// The accumulated force on every node after one tick's repulsion and
/// spring passes.
pub open spec fn spec_total_forces(
    nodes: Seq<Node>,
    edges: Seq<Edge>,
    p: SimulationParams,
) -> Seq<Vec3> {
    spec_spring_from(
        nodes,
        edges,
        p,
        0,
        spec_rep_from(nodes, p, 0, spec_zero_forces(nodes.len())),
    )
}

/// Semi-implicit Euler integration of one node: damped velocity plus the
/// scaled force, then the position advanced by the new velocity, all
/// clamped into the engine bounds.
#[verifier::opaque]
pub open spec fn spec_integrate(d: NodeData, f: Vec3, p: SimulationParams) -> NodeData {
    let vdx = clamp_spec(
        spec_scale(d.velocity.x as int, p.damping_milli as int, 1000),
        -VEL_LIMIT as int,
        VEL_LIMIT as int,
    );
    let vdy = clamp_spec(
        spec_scale(d.velocity.y as int, p.damping_milli as int, 1000),
        -VEL_LIMIT as int,
        VEL_LIMIT as int,
    );
    let vdz = clamp_spec(
        spec_scale(d.velocity.z as int, p.damping_milli as int, 1000),
        -VEL_LIMIT as int,
        VEL_LIMIT as int,
    );
    let dvx = clamp_spec(
        spec_scale(f.x as int, p.time_step_milli as int, 1_000_000),
        -VEL_LIMIT as int,
        VEL_LIMIT as int,
    );
    let dvy = clamp_spec(
        spec_scale(f.y as int, p.time_step_milli as int, 1_000_000),
        -VEL_LIMIT as int,
        VEL_LIMIT as int,
    );
    let dvz = clamp_spec(
        spec_scale(f.z as int, p.time_step_milli as int, 1_000_000),
        -VEL_LIMIT as int,
        VEL_LIMIT as int,
    );
    let vx = clamp_spec(vdx + dvx, -VEL_LIMIT as int, VEL_LIMIT as int) as i64;
    let vy = clamp_spec(vdy + dvy, -VEL_LIMIT as int, VEL_LIMIT as int) as i64;
    let vz = clamp_spec(vdz + dvz, -VEL_LIMIT as int, VEL_LIMIT as int) as i64;
    let px = clamp_spec(
        d.position.x + clamp_spec(
            spec_scale(vx as int, p.time_step_milli as int, 1000),
            -COORD_LIMIT as int,
            COORD_LIMIT as int,
        ),
        -COORD_LIMIT as int,
        COORD_LIMIT as int,
    ) as i64;
    let py = clamp_spec(
        d.position.y + clamp_spec(
            spec_scale(vy as int, p.time_step_milli as int, 1000),
            -COORD_LIMIT as int,
            COORD_LIMIT as int,
        ),
        -COORD_LIMIT as int,
        COORD_LIMIT as int,
    ) as i64;
    let pz = clamp_spec(
        d.position.z + clamp_spec(
            spec_scale(vz as int, p.time_step_milli as int, 1000),
            -COORD_LIMIT as int,
            COORD_LIMIT as int,
        ),
        -COORD_LIMIT as int,
        COORD_LIMIT as int,
    ) as i64;
    NodeData {
        position: Vec3 { x: px, y: py, z: pz },
        velocity: Vec3 { x: vx, y: vy, z: vz },
        mass: d.mass,
        flags: d.flags,
    }
}

/// The state node `i` holds after one processor tick.
pub open spec fn spec_cpu_tick_node(
    nodes: Seq<Node>,
    edges: Seq<Edge>,
    p: SimulationParams,
    i: int,
) -> NodeData {
    spec_integrate(nodes[i].data, spec_total_forces(nodes, edges, p)[i], p)
}

/// Executable form of a signed clamped force component.
fn force_comp(d: i64, f: i128, dist: i64) -> (r: i64)
    requires
        -4_000_000_000 <= d <= 4_000_000_000,
        0 <= f <= FACTOR_CAP,
        1 <= dist,
    ensures
        r == spec_force_comp(d as int, f as int, dist as int),
{
    let mag_in: i128 = if d < 0 {
        -(d as i128)
    } else {
        d as i128
    };
    proof {
        assert(0 <= mag_in * f <= 0x7fff_ffff_ffff_ffff_ffff_ffff_ffff_ffffint) by (
        nonlinear_arith)
            requires
                0 <= mag_in <= 4_000_000_000i128,
                0 <= f <= FACTOR_CAP,
        ;
    }
    let mag: i64 = clamp_i128(mag_in * f / (dist as i128), 0, CONTRIB_CAP);
    if d < 0 {
        -mag
    } else {
        mag
    }
}

/// Executable form of [`spec_repulsion_pair`].
fn repulsion_pair(a: &NodeData, b: &NodeData, p: &SimulationParams) -> (r: Vec3)
    requires
        a.wf(),
        b.wf(),
        p.wf(),
    ensures
        r == spec_repulsion_pair(*a, *b, *p),
{
    let dx: i64 = b.position.x - a.position.x;
    let dy: i64 = b.position.y - a.position.y;
    let dz: i64 = b.position.z - a.position.z;
    proof {
        assert(0 <= (dx as int) * (dx as int) <= 16_000_000_000_000_000_000int && 0 <= (dy as int)
            * (dy as int) <= 16_000_000_000_000_000_000int && 0 <= (dz as int) * (dz as int)
            <= 16_000_000_000_000_000_000int) by (nonlinear_arith)
            requires
                -4_000_000_000i64 <= dx <= 4_000_000_000i64,
                -4_000_000_000i64 <= dy <= 4_000_000_000i64,
                -4_000_000_000i64 <= dz <= 4_000_000_000i64,
        ;
    }
    let d2: i128 = (dx as i128) * (dx as i128) + (dy as i128) * (dy as i128) + (dz as i128) * (
    dz as i128);
    if d2 < EPS2_MILLI2 as i128 {
        return Vec3 { x: 0, y: 0, z: 0 };
    }
    let dist_u: u64 = isqrt_u128(d2 as u128);
    proof {
        assert(dist_u <= 7_000_000_000u64) by {
            if dist_u > 7_000_000_000u64 {
                assert((dist_u as int) * (dist_u as int) > 48_000_000_000_000_000_000int) by (
                nonlinear_arith)
                    requires
                        dist_u > 7_000_000_000u64,
                ;
            }
        }
        assert((d2 as u128) as int == d2 as int);
        assert(dist_u >= 1) by (nonlinear_arith)
            requires
                ((d2 as u128) as int) < ((dist_u as int) + 1) * ((dist_u as int) + 1),
                (d2 as u128) as int >= 100,
        ;
    }
    let dist: i64 = dist_u as i64;
    if dist > p.max_repulsion_distance_milli {
        return Vec3 { x: 0, y: 0, z: 0 };
    }
    proof {
        assert(0 <= (a.mass as int) * 10 * (p.mass_scale_milli as int) <= 2_550_000_000int) by (
        nonlinear_arith)
            requires
                a.mass <= 255,
                0 <= p.mass_scale_milli <= 1_000_000i64,
        ;
        assert(0 <= (b.mass as int) * 10 * (p.mass_scale_milli as int) <= 2_550_000_000int) by (
        nonlinear_arith)
            requires
                b.mass <= 255,
                0 <= p.mass_scale_milli <= 1_000_000i64,
        ;
    }
    let mi: i128 = (a.mass as i128) * 10 * (p.mass_scale_milli as i128) / 255;
    let mj: i128 = (b.mass as i128) * 10 * (p.mass_scale_milli as i128) / 255;
    proof {
        assert(0 <= mi <= 2_550_000_000i128 && 0 <= mj <= 2_550_000_000i128);
        assert(0 <= (p.repulsion_micro as int) * (mi as int) <= 2_550_000_000_000_000_000_000_000int)
            by (nonlinear_arith)
            requires
                0 <= p.repulsion_micro <= 1_000_000_000_000i64,
                0 <= mi <= 2_550_000_000i128,
        ;
        assert(0 <= (p.repulsion_micro as int) * (mi as int) * (mj as int)
            <= 0x7fff_ffff_ffff_ffff_ffff_ffff_ffff_ffffint) by (nonlinear_arith)
            requires
                0 <= (p.repulsion_micro as int) * (mi as int) <= 2_550_000_000_000_000_000_000_000int,
                0 <= mj <= 2_550_000_000i128,
        ;
    }
    let f_raw: i128 = (p.repulsion_micro as i128) * mi * mj / d2;
    let f: i128 = if f_raw > FACTOR_CAP {
        FACTOR_CAP
    } else if f_raw < 0 {
        0
    } else {
        f_raw
    };
    Vec3 { x: force_comp(dx, f, dist), y: force_comp(dy, f, dist), z: force_comp(dz, f, dist) }
}

/// Executable form of one spring component.
fn spring_comp(d: i64, w: u64, p: &SimulationParams) -> (r: i64)
    requires
        -4_000_000_000 <= d <= 4_000_000_000,
        w <= WEIGHT_CAP,
        p.wf(),
    ensures
        r == spec_spring_comp(d as int, w as int, *p),
{
    let mag_in: i128 = if d < 0 {
        -(d as i128)
    } else {
        d as i128
    };
    proof {
        assert(0 <= mag_in * (p.spring_strength_micro as int)
            <= 4_000_000_000_000_000_000_000_000int) by (nonlinear_arith)
            requires
                0 <= mag_in <= 4_000_000_000i128,
                0 <= p.spring_strength_micro <= 1_000_000_000_000i64,
        ;
        assert(0 <= mag_in * (p.spring_strength_micro as int) * (w as int)
            <= 0x7fff_ffff_ffff_ffff_ffff_ffff_ffff_ffffint) by (nonlinear_arith)
            requires
                0 <= mag_in * (p.spring_strength_micro as int)
                    <= 4_000_000_000_000_000_000_000_000int,
                0 <= w <= 1_000_000_000_000u64,
        ;
    }
    let mag: i64 = clamp_i128(
        mag_in * (p.spring_strength_micro as i128) * (w as i128) / 1000,
        0,
        CONTRIB_CAP,
    );
    if d < 0 {
        -mag
    } else {
        mag
    }
}

/// Executable form of [`spec_spring_pair`].
fn spring_pair(a: &NodeData, b: &NodeData, w: u64, p: &SimulationParams) -> (r: Vec3)
    requires
        a.wf(),
        b.wf(),
        p.wf(),
    ensures
        r == spec_spring_pair(*a, *b, w, *p),
{
    let dx: i64 = b.position.x - a.position.x;
    let dy: i64 = b.position.y - a.position.y;
    let dz: i64 = b.position.z - a.position.z;
    proof {
        assert(0 <= (dx as int) * (dx as int) <= 16_000_000_000_000_000_000int && 0 <= (dy as int)
            * (dy as int) <= 16_000_000_000_000_000_000int && 0 <= (dz as int) * (dz as int)
            <= 16_000_000_000_000_000_000int) by (nonlinear_arith)
            requires
                -4_000_000_000i64 <= dx <= 4_000_000_000i64,
                -4_000_000_000i64 <= dy <= 4_000_000_000i64,
                -4_000_000_000i64 <= dz <= 4_000_000_000i64,
        ;
    }
    let d2: i128 = (dx as i128) * (dx as i128) + (dy as i128) * (dy as i128) + (dz as i128) * (
    dz as i128);
    if d2 < EPS2_MILLI2 as i128 {
        return Vec3 { x: 0, y: 0, z: 0 };
    }
    let weff: u64 = if w > WEIGHT_CAP {
        WEIGHT_CAP
    } else {
        w
    };
    Vec3 {
        x: spring_comp(dx, weff, p),
        y: spring_comp(dy, weff, p),
        z: spring_comp(dz, weff, p),
    }
}

/// Executable saturating accumulator sum.
fn acc_add(a: Vec3, f: Vec3) -> (r: Vec3)
    ensures
        r == spec_acc_add(a, f),
{
    Vec3 {
        x: sat_add(a.x, f.x, ACC_CAP),
        y: sat_add(a.y, f.y, ACC_CAP),
        z: sat_add(a.z, f.z, ACC_CAP),
    }
}

/// Executable saturating accumulator difference.
fn acc_sub(a: Vec3, f: Vec3) -> (r: Vec3)
    requires
        -CONTRIB_CAP <= f.x <= CONTRIB_CAP,
        -CONTRIB_CAP <= f.y <= CONTRIB_CAP,
        -CONTRIB_CAP <= f.z <= CONTRIB_CAP,
    ensures
        r == spec_acc_sub(a, f),
{
    Vec3 {
        x: sat_add(a.x, -f.x, ACC_CAP),
        y: sat_add(a.y, -f.y, ACC_CAP),
        z: sat_add(a.z, -f.z, ACC_CAP),
    }
}

/// Executable form of [`spec_integrate`].
fn integrate(d: NodeData, f: Vec3, p: &SimulationParams) -> (r: NodeData)
    requires
        d.wf(),
        p.wf(),
    ensures
        r == spec_integrate(d, f, *p),
        r.wf(),
{
    proof {
        reveal(spec_integrate);
    }
    let vdx: i64 = scale_clamp(d.velocity.x, p.damping_milli, 1000, VEL_LIMIT);
    let vdy: i64 = scale_clamp(d.velocity.y, p.damping_milli, 1000, VEL_LIMIT);
    let vdz: i64 = scale_clamp(d.velocity.z, p.damping_milli, 1000, VEL_LIMIT);
    let dvx: i64 = scale_clamp(f.x, p.time_step_milli, 1_000_000, VEL_LIMIT);
    let dvy: i64 = scale_clamp(f.y, p.time_step_milli, 1_000_000, VEL_LIMIT);
    let dvz: i64 = scale_clamp(f.z, p.time_step_milli, 1_000_000, VEL_LIMIT);
    let vx: i64 = clamp_i128(vdx as i128 + dvx as i128, -VEL_LIMIT, VEL_LIMIT);
    let vy: i64 = clamp_i128(vdy as i128 + dvy as i128, -VEL_LIMIT, VEL_LIMIT);
    let vz: i64 = clamp_i128(vdz as i128 + dvz as i128, -VEL_LIMIT, VEL_LIMIT);
    let dpx: i64 = scale_clamp(vx, p.time_step_milli, 1000, COORD_LIMIT);
    let dpy: i64 = scale_clamp(vy, p.time_step_milli, 1000, COORD_LIMIT);
    let dpz: i64 = scale_clamp(vz, p.time_step_milli, 1000, COORD_LIMIT);
    let px: i64 = clamp_i128(d.position.x as i128 + dpx as i128, -COORD_LIMIT, COORD_LIMIT);
    let py: i64 = clamp_i128(d.position.y as i128 + dpy as i128, -COORD_LIMIT, COORD_LIMIT);
    let pz: i64 = clamp_i128(d.position.z as i128 + dpz as i128, -COORD_LIMIT, COORD_LIMIT);
    NodeData {
        position: Vec3 { x: px, y: py, z: pz },
        velocity: Vec3 { x: vx, y: vy, z: vz },
        mass: d.mass,
        flags: d.flags,
    }
}

/// Index of the first node carrying `id`, or the node count when none does.
pub fn find_node_index(nodes: &Vec<Node>, id: u32) -> (r: usize)
    ensures
        r as int == spec_find_id(nodes@, id, 0),
        r <= nodes@.len(),
        r < nodes@.len() ==> nodes@[r as int].id == id,
{
    let mut j: usize = 0;
    while j < nodes.len()
        invariant
            j <= nodes@.len(),
            spec_find_id(nodes@, id, 0) == spec_find_id(nodes@, id, j as int),
        decreases nodes@.len() - j,
    {
        if nodes[j].id == id {
            return j;
        }
        j = j + 1;
    }
    nodes.len()
}

/// A placeholder node used while swapping an element out of a vector.
fn placeholder_node() -> Node {
    Node {
        id: 0,
        metadata_id: String::new(),
        label: String::new(),
        data: NodeData::at_rest(),
        metadata: Vec::new(),
        file_size: 0,
        size: None,
    }
}

impl crate::service::GraphService {

/// One processor physics tick over the whole graph.
///
/// Always succeeds.  Every node's new state is exactly the integration of
/// its accumulated pair and spring forces; every other part of the graph is
/// untouched; the id-indexed map mirrors the new states.
#[verifier::rlimit(100)]
pub fn calculate_layout_cpu(
    graph: &mut GraphData,
    node_map: &mut NodeMap,
    params: &SimulationParams,
) -> (r: Result<(), EngineError>)
    requires
        old(graph).wf(),
        old(node_map).wf(),
        params.wf(),
    ensures
        r is Ok,
        final(graph).wf(),
        final(node_map).wf(),
        final(graph).nodes@.len() == old(graph).nodes@.len(),
        forall|i: int|
            0 <= i < old(graph).nodes@.len() ==> final(graph).nodes@[i] == old(graph).nodes@[i].with_data_spec(
                spec_cpu_tick_node(old(graph).nodes@, old(graph).edges@, *params, i),
            ),
        final(graph).edges == old(graph).edges,
        final(graph).metadata == old(graph).metadata,
        final(graph).id_to_metadata == old(graph).id_to_metadata,
        final(node_map).entries@.len() == old(node_map).entries@.len(),
        forall|i: int|
            0 <= i < old(graph).nodes@.len() ==> final(node_map).spec_get(
                old(graph).nodes@[i].id,
            ) == match old(node_map).spec_get(old(graph).nodes@[i].id) {
                Some(n) => Some(
                    n.with_data_spec(
                        spec_cpu_tick_node(old(graph).nodes@, old(graph).edges@, *params, i),
                    ),
                ),
                None => None,
            },
        forall|k: u32|
            !has_node_id(old(graph).nodes@, k) ==> final(node_map).spec_get(k) == old(node_map).spec_get(k),
{
    let ghost znodes = old(graph).nodes@;
    let ghost zedges = old(graph).edges@;
    let ghost zmap = *old(node_map);
    let n = graph.nodes.len();

    let mut forces: Vec<Vec3> = Vec::new();
    let mut z: usize = 0;
    while z < n
        invariant
            z <= n,
            forces@ =~= spec_zero_forces(z as nat),
        decreases n - z,
    {
        forces.push(Vec3 { x: 0, y: 0, z: 0 });
        z = z + 1;
    }
    proof {
        assert(forces@ =~= spec_zero_forces(n as nat));
    }
    let ghost f0 = forces@;

    // Repulsion over every unordered pair.
    let mut i: usize = 0;
    while i < n
        invariant
            i <= n,
            n == graph.nodes@.len(),
            *graph == *old(graph),
            graph.nodes@ == znodes,
            old(graph).wf(),
            params.wf(),
            forces@.len() == n,
            spec_rep_from(znodes, *params, i as int, forces@) == spec_rep_from(
                znodes,
                *params,
                0,
                f0,
            ),
        decreases n - i,
    {
        let mut j: usize = i + 1;
        while j < n
            invariant
                i < j <= n,
                n == graph.nodes@.len(),
                *graph == *old(graph),
                graph.nodes@ == znodes,
                old(graph).wf(),
                params.wf(),
                forces@.len() == n,
                spec_rep_from(
                    znodes,
                    *params,
                    i as int + 1,
                    spec_rep_row(znodes, *params, i as int, j as int, forces@),
                ) == spec_rep_from(znodes, *params, 0, f0),
            decreases n - j,
        {
            let ghost pre_forces = forces@;
            let fpair = repulsion_pair(&graph.nodes[i].data, &graph.nodes[j].data, params);
            proof {
                assert(-CONTRIB_CAP <= fpair.x <= CONTRIB_CAP && -CONTRIB_CAP <= fpair.y
                    <= CONTRIB_CAP && -CONTRIB_CAP <= fpair.z <= CONTRIB_CAP);
            }
            let fi = acc_sub(forces[i], fpair);
            forces.set(i, fi);
            let fj = acc_add(forces[j], fpair);
            forces.set(j, fj);
            proof {
                assert(forces@ =~= spec_apply_rep(pre_forces, i as int, j as int, fpair));
                assert(spec_rep_row(znodes, *params, i as int, j as int, pre_forces)
                    == spec_rep_row(znodes, *params, i as int, j as int + 1, forces@));
            }
            j = j + 1;
        }
        i = i + 1;
    }
    proof {
        assert(spec_rep_from(znodes, *params, n as int, forces@) == forces@);
    }
    let ghost rep_forces = forces@;

    // Spring attraction over every edge.
    let m = graph.edges.len();
    let mut e: usize = 0;
    while e < m
        invariant
            e <= m,
            n == graph.nodes@.len(),
            m == graph.edges@.len(),
            *graph == *old(graph),
            graph.nodes@ == znodes,
            graph.edges@ == zedges,
            old(graph).wf(),
            params.wf(),
            forces@.len() == n,
            spec_spring_from(znodes, zedges, *params, e as int, forces@) == spec_spring_from(
                znodes,
                zedges,
                *params,
                0,
                rep_forces,
            ),
        decreases m - e,
    {
        let ghost pre_forces = forces@;
        let src = graph.edges[e].source;
        let tgt = graph.edges[e].target;
        let w = graph.edges[e].weight;
        let si = find_node_index(&graph.nodes, src);
        let ti = find_node_index(&graph.nodes, tgt);
        if si < n && ti < n {
            let fpair = spring_pair(&graph.nodes[si].data, &graph.nodes[ti].data, w, params);
            proof {
                assert(-CONTRIB_CAP <= fpair.x <= CONTRIB_CAP && -CONTRIB_CAP <= fpair.y
                    <= CONTRIB_CAP && -CONTRIB_CAP <= fpair.z <= CONTRIB_CAP);
            }
            let fi = acc_add(forces[si], fpair);
            forces.set(si, fi);
            let fj = acc_sub(forces[ti], fpair);
            forces.set(ti, fj);
            proof {
                assert(forces@ =~= spec_apply_spring(pre_forces, si as int, ti as int, fpair));
                assert(spec_spring_from(znodes, zedges, *params, e as int, pre_forces)
                    == spec_spring_from(znodes, zedges, *params, e as int + 1, forces@));
            }
        } else {
            proof {
                assert(spec_spring_from(znodes, zedges, *params, e as int, forces@)
                    == spec_spring_from(znodes, zedges, *params, e as int + 1, forces@));
            }
        }
        e = e + 1;
    }
    proof {
        assert(spec_spring_from(znodes, zedges, *params, m as int, forces@) == forces@);
        assert(forces@ == spec_total_forces(znodes, zedges, *params));
    }
    let ghost total = forces@;

    // Integration and map mirror.
    let mut idx: usize = 0;
    while idx < n
        invariant
            idx <= n,
            n == graph.nodes@.len(),
            graph.edges == old(graph).edges,
            graph.metadata == old(graph).metadata,
            graph.id_to_metadata == old(graph).id_to_metadata,
            params.wf(),
            forces@ == total,
            forces@.len() == n,
            node_map.wf(),
            node_map.entries@.len() == zmap.entries@.len(),
            znodes.len() == n,
            ids_unique(znodes),
            nodes_wf(znodes),
            forall|q: int|
                idx <= q < n ==> graph.nodes@[q] == znodes[q],
            forall|q: int|
                0 <= q < idx ==> graph.nodes@[q] == znodes[q].with_data_spec(
                    spec_integrate(znodes[q].data, total[q], *params),
                ),
            forall|q: int| 0 <= q < idx ==> (#[trigger] graph.nodes@[q].data).wf(),
            forall|q: int|
                0 <= q < idx ==> node_map.spec_get(znodes[q].id) == match zmap.spec_get(
                    znodes[q].id,
                ) {
                    Some(nd) => Some(
                        nd.with_data_spec(spec_integrate(znodes[q].data, total[q], *params)),
                    ),
                    None => None,
                },
            forall|k: u32|
                (forall|q: int| 0 <= q < idx ==> znodes[q].id != k) ==> node_map.spec_get(k)
                    == zmap.spec_get(k),
        decreases n - idx,
    {
        let d_new = integrate(graph.nodes[idx].data, forces[idx], params);
        let id = graph.nodes[idx].id;
        let mut tmp = placeholder_node();
        graph.nodes.set_and_swap(idx, &mut tmp);
        tmp.data = d_new;
        graph.nodes.set_and_swap(idx, &mut tmp);
        proof {
            assert(graph.nodes@[idx as int] == znodes[idx as int].with_data_spec(
                spec_integrate(znodes[idx as int].data, total[idx as int], *params),
            ));
        }
        let _found = node_map.update_data(id, d_new);
        proof {
            assert forall|q: int| 0 <= q < idx + 1 implies node_map.spec_get(znodes[q].id)
                == (match zmap.spec_get(znodes[q].id) {
                Some(nd) => Some(
                    nd.with_data_spec(spec_integrate(znodes[q].data, total[q], *params)),
                ),
                None => None,
            }) by {
                if q < idx {
                    assert(znodes[q].id != id);
                }
            }
        }
        idx = idx + 1;
    }

    proof {
        assert(final(graph).wf()) by {
            assert(ids_unique(graph.nodes@)) by {
                assert forall|a: int, b: int|
                    0 <= a < b < graph.nodes@.len() implies graph.nodes@[a].id
                    != graph.nodes@[b].id by {
                    assert(graph.nodes@[a].id == znodes[a].id);
                    assert(graph.nodes@[b].id == znodes[b].id);
                }
            }
            assert(nodes_wf(graph.nodes@));
            assert(crate::graph::edges_wf(graph.edges@, graph.nodes@)) by {
                assert forall|q: int| 0 <= q < graph.edges@.len() implies {
                    &&& (#[trigger] graph.edges@[q]).canonical()
                    &&& has_node_id(graph.nodes@, graph.edges@[q].source)
                    &&& has_node_id(graph.nodes@, graph.edges@[q].target)
                } by {
                    assert(crate::graph::edges_wf(zedges, znodes));
                    assert(graph.edges@[q].canonical());
                    let s = graph.edges@[q].source;
                    let t = graph.edges@[q].target;
                    assert(has_node_id(znodes, s));
                    let a = choose|a: int| 0 <= a < znodes.len() && znodes[a].id == s;
                    assert(graph.nodes@[a].id == s);
                    assert(has_node_id(znodes, t));
                    let b = choose|b: int| 0 <= b < znodes.len() && znodes[b].id == t;
                    assert(graph.nodes@[b].id == t);
                }
            }
            assert(graph.id_map_wf()) by {
                assert forall|q: int|
                    0 <= q < graph.nodes@.len() implies (#[trigger] graph.id_to_metadata@[q]).0 == graph.nodes@[q].id
                    && graph.id_to_metadata@[q].1@ == graph.nodes@[q].metadata_id@ by {
                    assert(old(graph).id_map_wf());
                    assert(graph.nodes@[q].id == znodes[q].id);
                    assert(graph.nodes@[q].metadata_id == znodes[q].metadata_id);
                }
            }
        }
    }
    Ok(())
}

/// Writes one batch of accelerator-produced node states back into the
/// graph and the id-indexed map, position by position.
///
/// States beyond either length are ignored; each accepted state is clamped
/// into the engine bounds.  This mirrors what the accelerator path does
/// after a successful step.
#[verifier::rlimit(100)]
pub fn apply_accelerator_output(
    graph: &mut GraphData,
    node_map: &mut NodeMap,
    updated: &Vec<NodeData>,
) -> (count: usize)
    requires
        old(graph).wf(),
        old(node_map).wf(),
    ensures
        final(graph).wf(),
        final(node_map).wf(),
        count == if old(graph).nodes@.len() <= updated@.len() {
            old(graph).nodes@.len()
        } else {
            updated@.len()
        },
        final(graph).nodes@.len() == old(graph).nodes@.len(),
        forall|i: int|
            0 <= i < count ==> final(graph).nodes@[i] == old(graph).nodes@[i].with_data_spec(
                updated@[i].clamped_spec(),
            ),
        forall|i: int|
            count <= i < old(graph).nodes@.len() ==> final(graph).nodes@[i] == old(graph).nodes@[i],
        final(graph).edges == old(graph).edges,
        final(graph).metadata == old(graph).metadata,
        final(graph).id_to_metadata == old(graph).id_to_metadata,
        final(node_map).entries@.len() == old(node_map).entries@.len(),
        forall|i: int|
            0 <= i < count ==> final(node_map).spec_get(old(graph).nodes@[i].id) == match old(node_map).spec_get(old(graph).nodes@[i].id) {
                Some(n) => Some(n.with_data_spec(updated@[i].clamped_spec())),
                None => None,
            },
        forall|k: u32|
            (forall|q: int| 0 <= q < count ==> old(graph).nodes@[q].id != k) ==> final(node_map).spec_get(k) == old(node_map).spec_get(k),
{
    let ghost znodes = old(graph).nodes@;
    let ghost zmap = *old(node_map);
    let n = graph.nodes.len();
    let limit: usize = if n <= updated.len() {
        n
    } else {
        updated.len()
    };
    let mut idx: usize = 0;
    while idx < limit
        invariant
            idx <= limit <= n,
            n == graph.nodes@.len(),
            limit <= updated@.len(),
            limit == if znodes.len() <= updated@.len() {
                znodes.len() as int
            } else {
                updated@.len() as int
            },
            graph.edges == old(graph).edges,
            graph.metadata == old(graph).metadata,
            graph.id_to_metadata == old(graph).id_to_metadata,
            old(graph).wf(),
            zmap.wf(),
            znodes == old(graph).nodes@,
            node_map.wf(),
            node_map.entries@.len() == zmap.entries@.len(),
            ids_unique(znodes),
            forall|q: int|
                idx <= q < n ==> graph.nodes@[q] == znodes[q],
            forall|q: int|
                0 <= q < idx ==> graph.nodes@[q] == znodes[q].with_data_spec(
                    updated@[q].clamped_spec(),
                ),
            forall|q: int|
                0 <= q < idx ==> node_map.spec_get(znodes[q].id) == match zmap.spec_get(
                    znodes[q].id,
                ) {
                    Some(nd) => Some(nd.with_data_spec(updated@[q].clamped_spec())),
                    None => None,
                },
            forall|k: u32|
                (forall|q: int| 0 <= q < idx ==> znodes[q].id != k) ==> node_map.spec_get(k)
                    == zmap.spec_get(k),
        decreases limit - idx,
    {
        let d_new = updated[idx].clamped();
        let id = graph.nodes[idx].id;
        let mut tmp = placeholder_node();
        graph.nodes.set_and_swap(idx, &mut tmp);
        tmp.data = d_new;
        graph.nodes.set_and_swap(idx, &mut tmp);
        let _found = node_map.update_data(id, d_new);
        proof {
            assert forall|q: int| 0 <= q < idx + 1 implies node_map.spec_get(znodes[q].id)
                == (match zmap.spec_get(znodes[q].id) {
                Some(nd) => Some(nd.with_data_spec(updated@[q].clamped_spec())),
                None => None,
            }) by {
                if q < idx {
                    assert(znodes[q].id != id);
                }
            }
        }
        idx = idx + 1;
    }
    proof {
        assert(final(graph).wf()) by {
            assert(ids_unique(graph.nodes@)) by {
                assert forall|a: int, b: int|
                    0 <= a < b < graph.nodes@.len() implies graph.nodes@[a].id
                    != graph.nodes@[b].id by {
                    assert(graph.nodes@[a].id == znodes[a].id);
                    assert(graph.nodes@[b].id == znodes[b].id);
                }
            }
            assert(nodes_wf(graph.nodes@)) by {
                assert forall|q: int|
                    0 <= q < graph.nodes@.len() implies (#[trigger] graph.nodes@[q].data).wf()
                    by {
                    if q < limit {
                        assert(graph.nodes@[q].data == updated@[q].clamped_spec());
                    } else {
                        assert(graph.nodes@[q].data == znodes[q].data);
                    }
                }
            }
            assert(crate::graph::edges_wf(graph.edges@, graph.nodes@)) by {
                assert forall|q: int| 0 <= q < graph.edges@.len() implies {
                    &&& (#[trigger] graph.edges@[q]).canonical()
                    &&& has_node_id(graph.nodes@, graph.edges@[q].source)
                    &&& has_node_id(graph.nodes@, graph.edges@[q].target)
                } by {
                    assert(crate::graph::edges_wf(old(graph).edges@, znodes));
                    assert(graph.edges@[q].canonical());
                    let s = graph.edges@[q].source;
                    let t = graph.edges@[q].target;
                    assert(has_node_id(znodes, s));
                    let a = choose|a: int| 0 <= a < znodes.len() && znodes[a].id == s;
                    assert(graph.nodes@[a].id == s);
                    assert(has_node_id(znodes, t));
                    let b = choose|b: int| 0 <= b < znodes.len() && znodes[b].id == t;
                    assert(graph.nodes@[b].id == t);
                }
            }
            assert(graph.id_map_wf()) by {
                assert forall|q: int|
                    0 <= q < graph.nodes@.len() implies (#[trigger] graph.id_to_metadata@[q]).0 == graph.nodes@[q].id
                    && graph.id_to_metadata@[q].1@ == graph.nodes@[q].metadata_id@ by {
                    assert(old(graph).id_map_wf());
                    assert(graph.nodes@[q].id == znodes[q].id);
                    assert(graph.nodes@[q].metadata_id == znodes[q].metadata_id);
                }
            }
        }
    }
    limit
}

} // impl GraphService

} // verus!
