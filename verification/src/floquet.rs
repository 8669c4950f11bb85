//! Mode truncation of the composite Floquet dielectric tensor.
//!
//! Mode truncation: `N_G = 25 × 25 = 625` spatial modes,
//! `N_F = 12 ⇒ N_T = 2N_F + 1 = 25` temporal harmonics, total dimension
//! `N = N_G · N_T = 15 625`.
use vstd::prelude::*;

verus! {

/// Spatial mode count `N_G = 25 × 25`.
pub const NUM_SPATIAL_MODES: usize = 625;
/// Temporal harmonic count `N_T = 2·12 + 1`.
pub const NUM_TEMPORAL_MODES: usize = 25;
/// Full composite matrix dimension `N = N_G · N_T`.
pub const TOTAL_DIM: usize = 15625;

/// Dimensions of the Gauss–Jordan inverter for the Floquet dielectric tensor.
#[derive(Clone, Copy, Debug, PartialEq, Eq)]
pub struct FloquetDielectricSolver {
    /// Spatial (G-vector) modes `N_G` — 625 for the production truncation.
    pub num_spatial_modes: usize,
    /// Temporal Floquet harmonics `N_T` — 25 for the production truncation.
    pub num_temporal_modes: usize,
    /// Composite dimension `N_G · N_T` — 15 625 for the production truncation.
    pub total_dim: usize,
}

impl FloquetDielectricSolver {
    /// The composite dimension is the product of the two mode counts.
    pub open spec fn wf(self) -> bool {
        self.total_dim == self.num_spatial_modes * self.num_temporal_modes
    }

    /// Production truncation: 625 spatial × 25 temporal = 15 625.
    pub fn new() -> (r: FloquetDielectricSolver)
        ensures
            r.num_spatial_modes == 625,
            r.num_temporal_modes == 25,
            r.total_dim == 15625,
            r.wf(),
    {
        FloquetDielectricSolver::with_dimensions(NUM_SPATIAL_MODES, NUM_TEMPORAL_MODES)
    }

    /// Solver for an arbitrary `(N_G, N_T)` truncation. The product of the two
    /// mode counts must fit in `usize`.
    pub fn with_dimensions(num_spatial_modes: usize, num_temporal_modes: usize) -> (r:
        FloquetDielectricSolver)
        requires
            num_spatial_modes * num_temporal_modes <= usize::MAX,
        ensures
            r.num_spatial_modes == num_spatial_modes,
            r.num_temporal_modes == num_temporal_modes,
            r.total_dim == num_spatial_modes * num_temporal_modes,
            r.wf(),
    {
        let total_dim = num_spatial_modes * num_temporal_modes;
        FloquetDielectricSolver { num_spatial_modes, num_temporal_modes, total_dim }
    }

    /// Solver for an arbitrary `(N_G, N_T)` truncation, or `None` when the
    /// product of the two mode counts overflows `usize`.
    pub fn checked_with_dimensions(num_spatial_modes: usize, num_temporal_modes: usize) -> (r:
        Option<FloquetDielectricSolver>)
        ensures
            r is Some <==> num_spatial_modes * num_temporal_modes <= usize::MAX,
            r matches Some(s) ==> s.num_spatial_modes == num_spatial_modes
                && s.num_temporal_modes == num_temporal_modes && s.wf(),
    {
        match num_spatial_modes.checked_mul(num_temporal_modes) {
            Some(total_dim) => Some(
                FloquetDielectricSolver { num_spatial_modes, num_temporal_modes, total_dim },
            ),
            None => None,
        }
    }
}

impl Default for FloquetDielectricSolver {
    fn default() -> (r: FloquetDielectricSolver)
        ensures
            r.num_spatial_modes == 625,
            r.num_temporal_modes == 25,
            r.total_dim == 15625,
    {
        FloquetDielectricSolver::new()
    }
}

} // verus!
