//! Configuration of the high-precision checks used by the orchestration layer.
use vstd::prelude::*;

verus! {

/// High-precision checks used by the Python orchestration layer.
#[derive(Debug, Clone, Copy)]
pub struct ShbtNumericalKernel {
    /// Precision used for arbitrary-precision calculations.
    pub precision_bits: u32,
}

impl Default for ShbtNumericalKernel {
    /// 512-bit working precision.
    fn default() -> (r: ShbtNumericalKernel)
        ensures
            r.precision_bits == 512,
    {
        ShbtNumericalKernel { precision_bits: 512 }
    }
}

} // verus!
