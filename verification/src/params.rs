//! Simulation parameters.
//!
//! One `SimulationParams` value is captured when a simulation instance is
//! constructed and stays immutable for that instance's lifetime.  Strengths
//! are micro-units (1_000_000 = 1.0); damping, mass scale and the time step
//! are milli-units (1000 = 1.0); distances are milli-units of length.

use vstd::prelude::*;
use crate::fixed::clamp_i128;

verus! {

/// Upper bound for the spring and repulsion strengths, in micro-units.
pub const STRENGTH_CAP: i64 = 1_000_000_000_000;

/// Upper bound for the mass scale, in milli-units.
pub const MASS_SCALE_CAP: i64 = 1_000_000;

/// Upper bound for a distance parameter, in milli-units.
pub const DISTANCE_CAP: i64 = 4_000_000_000;

/// Which stage of the layout the loop is in.
#[derive(Clone, Copy, Debug, PartialEq, Eq, Structural)]
pub enum SimulationPhase {
    Initial,
    Dynamic,
    Finalize,
}

/// Where the physics runs from the caller's point of view.
#[derive(Clone, Copy, Debug, PartialEq, Eq, Structural)]
pub enum SimulationMode {
    Remote,
    Local,
}

/// Fixed-point physics parameters for one simulation instance.
#[derive(Clone, Copy, Debug, PartialEq, Eq, Structural)]
pub struct SimulationParams {
    pub iterations: u32,
    pub spring_strength_micro: i64,
    pub repulsion_micro: i64,
    pub damping_milli: i64,
    pub max_repulsion_distance_milli: i64,
    pub viewport_bounds_milli: i64,
    pub mass_scale_milli: i64,
    pub boundary_damping_milli: i64,
    pub enable_bounds: bool,
    pub time_step_milli: i64,
    pub phase: SimulationPhase,
    pub mode: SimulationMode,
}

impl SimulationParams {
    /// Well-formed parameters: every field sits inside its documented range.
    pub open spec fn wf(self) -> bool {
        &&& 0 <= self.spring_strength_micro <= STRENGTH_CAP
        &&& 0 <= self.repulsion_micro <= STRENGTH_CAP
        &&& 0 <= self.damping_milli <= 1000
        &&& 0 <= self.max_repulsion_distance_milli <= DISTANCE_CAP
        &&& 0 <= self.viewport_bounds_milli <= DISTANCE_CAP
        &&& 0 <= self.mass_scale_milli <= MASS_SCALE_CAP
        &&& 0 <= self.boundary_damping_milli <= 1000
        &&& 0 < self.time_step_milli <= 1000
    }

    /// Builds well-formed parameters, clamping every numeric field into its
    /// documented range.
    pub fn new(
        iterations: u32,
        spring_strength_micro: i64,
        repulsion_micro: i64,
        damping_milli: i64,
        max_repulsion_distance_milli: i64,
        viewport_bounds_milli: i64,
        mass_scale_milli: i64,
        boundary_damping_milli: i64,
        enable_bounds: bool,
        time_step_milli: i64,
        phase: SimulationPhase,
        mode: SimulationMode,
    ) -> (r: SimulationParams)
        ensures
            r.wf(),
            r.iterations == iterations,
            r.spring_strength_micro as int == crate::fixed::clamp_spec(
                spring_strength_micro as int, 0, STRENGTH_CAP as int),
            r.repulsion_micro as int == crate::fixed::clamp_spec(
                repulsion_micro as int, 0, STRENGTH_CAP as int),
            r.damping_milli as int == crate::fixed::clamp_spec(damping_milli as int, 0, 1000),
            r.max_repulsion_distance_milli as int == crate::fixed::clamp_spec(
                max_repulsion_distance_milli as int, 0, DISTANCE_CAP as int),
            r.viewport_bounds_milli as int == crate::fixed::clamp_spec(
                viewport_bounds_milli as int, 0, DISTANCE_CAP as int),
            r.mass_scale_milli as int == crate::fixed::clamp_spec(
                mass_scale_milli as int, 0, MASS_SCALE_CAP as int),
            r.boundary_damping_milli as int == crate::fixed::clamp_spec(
                boundary_damping_milli as int, 0, 1000),
            r.enable_bounds == enable_bounds,
            r.time_step_milli as int == crate::fixed::clamp_spec(time_step_milli as int, 1, 1000),
            r.phase == phase,
            r.mode == mode,
    {
        SimulationParams {
            iterations,
            spring_strength_micro: clamp_i128(spring_strength_micro as i128, 0, STRENGTH_CAP),
            repulsion_micro: clamp_i128(repulsion_micro as i128, 0, STRENGTH_CAP),
            damping_milli: clamp_i128(damping_milli as i128, 0, 1000),
            max_repulsion_distance_milli: clamp_i128(
                max_repulsion_distance_milli as i128, 0, DISTANCE_CAP),
            viewport_bounds_milli: clamp_i128(viewport_bounds_milli as i128, 0, DISTANCE_CAP),
            mass_scale_milli: clamp_i128(mass_scale_milli as i128, 0, MASS_SCALE_CAP),
            boundary_damping_milli: clamp_i128(boundary_damping_milli as i128, 0, 1000),
            enable_bounds,
            time_step_milli: clamp_i128(time_step_milli as i128, 1, 1000),
            phase,
            mode,
        }
    }
}

} // verus!
