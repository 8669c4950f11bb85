//! Verified core of the SHBT precision-simulation workbench: drift-free
//! fixed-point accumulation, precision-tier selection, harmonic truncations,
//! deterministic random streams, floating-point environment control, and the
//! telemetry ring with its ingestion accounting.
use vstd::prelude::*;

pub mod fixed;
pub mod floquet;
pub mod fpenv;
pub mod kernel;
pub mod montecarlo;
pub mod phase;
pub mod pipeline;
pub mod precision;
pub mod random;
pub mod ring;
pub mod telemetry;
pub mod truncation;

verus! {

/// Identifier of the fixed-point, precision-policy and environment layer.
pub const CORE_MATH_CRATE: &'static str = "shbt-core-math";
/// Identifier of the Floquet dielectric layer.
pub const DIELECTRIC_FLOQUET_CRATE: &'static str = "shbt-dielectric-floquet";
/// Identifier of the RCWA optics layer.
pub const RCWA_OPTICS_CRATE: &'static str = "shbt-rcwa-optics";
/// Identifier of the structural layer.
pub const FEA_STRUCTURAL_CRATE: &'static str = "shbt-fea-structural";
/// Identifier of the metrology layer.
pub const METROLOGY_GUM_CRATE: &'static str = "shbt-metrology-gum";
/// Canonical identifier of the integration layer, used by the workbench for
/// topology reporting.
pub const CRATE_NAME: &'static str = "shbt-fabrication-hil";
/// Identifiers of every upstream layer this integration layer links.
pub const UPSTREAM_CRATES: [&'static str; 5] = [
    CORE_MATH_CRATE,
    DIELECTRIC_FLOQUET_CRATE,
    RCWA_OPTICS_CRATE,
    FEA_STRUCTURAL_CRATE,
    METROLOGY_GUM_CRATE,
];

} // verus!
