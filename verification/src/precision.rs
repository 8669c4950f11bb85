//! Precision-policy model shared by all domain solvers.
//!
//! Three execution tiers: strict binary64, Q64.64 fixed point and
//! arbitrary-precision binary floating point with a chosen mantissa width.
//! Solvers declare which tier a subsystem runs in so that the selection is
//! explicit, auditable and testable.
use vstd::prelude::*;

verus! {

/// Numeric execution tier.
#[derive(Clone, Copy, Debug, PartialEq, Eq, Hash)]
pub enum PrecisionMode {
    /// Strict IEEE 754 binary64 with fast-math disabled.
    StrictF64,
    /// 128-bit signed fixed point (Q64.64).
    FixedQ64x64,
    /// Arbitrary-precision binary floating point with the given mantissa width
    /// in bits.
    Arbitrary {
        /// Mantissa width in bits, clamped to `[MIN_ARBITRARY_BITS, MAX_ARBITRARY_BITS]`.
        mantissa_bits: u32,
    },
}

/// Lower bound of the dynamic arbitrary-precision range.
pub const MIN_ARBITRARY_BITS: u32 = 128;
/// Upper bound of the dynamic arbitrary-precision range.
pub const MAX_ARBITRARY_BITS: u32 = 512;
/// Mantissa width of IEEE 754 binary64, including the implicit bit.
pub const F64_MANTISSA_BITS: u32 = 53;
/// Mantissa bit depth of the 512-bit precision tier used by the Floquet
/// dielectric inversion: a 512-bit register layout carries 440 mantissa bits.
pub const PRECISION_BITS: u32 = 440;

/// `x + y`, saturating at `u32::MAX`.
pub open spec fn sat_add(x: u32, y: u32) -> u32 {
    if x + y > u32::MAX {
        u32::MAX
    } else {
        (x + y) as u32
    }
}

/// `x` clamped to `[lo, hi]` (for `lo <= hi`).
pub open spec fn clamp_spec(x: u32, lo: u32, hi: u32) -> u32 {
    if x < lo {
        lo
    } else if x > hi {
        hi
    } else {
        x
    }
}

/// Significant bits a tier carries.
pub open spec fn bits_of(mode: PrecisionMode) -> u32 {
    match mode {
        PrecisionMode::StrictF64 => 53,
        PrecisionMode::FixedQ64x64 => 128,
        PrecisionMode::Arbitrary { mantissa_bits } => mantissa_bits,
    }
}

/// `x` clamped to `[lo, hi]`.
fn clamp_u32(x: u32, lo: u32, hi: u32) -> (r: u32)
    requires
        lo <= hi,
    ensures
        r == clamp_spec(x, lo, hi),
{
    if x < lo {
        lo
    } else if x > hi {
        hi
    } else {
        x
    }
}

impl PrecisionMode {
    /// Chooses the arbitrary-precision tier for a solve that loses
    /// `bits_lost` significant bits to conditioning (roughly `log2` of the
    /// condition number): the result keeps at least 53 significant bits after
    /// that loss and stays inside the supported range.
    pub fn arbitrary_for_bits_lost(bits_lost: u32) -> (r: PrecisionMode)
        ensures
            r == (PrecisionMode::Arbitrary {
                mantissa_bits: clamp_spec(sat_add(53, bits_lost), 128, 512),
            }),
    {
        let wanted = F64_MANTISSA_BITS.saturating_add(bits_lost);
        PrecisionMode::Arbitrary {
            mantissa_bits: clamp_u32(wanted, MIN_ARBITRARY_BITS, MAX_ARBITRARY_BITS),
        }
    }

    /// Effective number of significant bits carried by this tier.
    pub fn significant_bits(self) -> (r: u32)
        ensures
            r == bits_of(self),
    {
        match self {
            PrecisionMode::StrictF64 => F64_MANTISSA_BITS,
            PrecisionMode::FixedQ64x64 => 128,
            PrecisionMode::Arbitrary { mantissa_bits } => mantissa_bits,
        }
    }
}

/// What an adaptive-precision solve does after a pass at some width.
#[derive(Clone, Copy, Debug, PartialEq, Eq)]
pub enum Escalation {
    /// Stop and report the pass; `converged` says whether the requested number
    /// of trustworthy bits survived.
    Done {
        /// Whether the target accuracy was met.
        converged: bool,
    },
    /// Solve again at the given wider mantissa width.
    Retry {
        /// The next working precision.
        next_bits: u32,
    },
}

/// The escalation decision of the adaptive solver, as a specification: a
/// pass at `prec` bits is enough when `prec` covers the bits lost plus the
/// target; otherwise the next width is the requirement clamped above `prec`,
/// rounded up to whole 64-bit limbs and capped at the 512-bit ceiling.
pub open spec fn escalation_of(prec: u32, bits_lost: u32, target_bits: u32) -> Escalation {
    let required = sat_add(bits_lost, target_bits);
    let converged = prec >= required;
    if converged || prec >= 512 {
        Escalation::Done { converged }
    } else {
        let c = clamp_spec(required, (prec + 1) as u32, 512);
        let rounded = ((c + 63) / 64 * 64) as u32;
        Escalation::Retry { next_bits: if rounded < 512 { rounded } else { 512 } }
    }
}

/// Decides, after a pass at `prec` mantissa bits that lost `bits_lost` bits to
/// conditioning, whether `target_bits` trustworthy bits survived or the solve
/// must be repeated at a wider precision.
pub fn escalate(prec: u32, bits_lost: u32, target_bits: u32) -> (r: Escalation)
    requires
        MIN_ARBITRARY_BITS <= prec <= MAX_ARBITRARY_BITS,
    ensures
        r == escalation_of(prec, bits_lost, target_bits),
        r matches Escalation::Retry { next_bits } ==> prec < next_bits <= MAX_ARBITRARY_BITS,
        r matches Escalation::Retry { next_bits } ==> next_bits % 64 == 0,
        ({
            let req: int = if bits_lost + target_bits > 0xffff_ffff {
                0xffff_ffff
            } else {
                bits_lost + target_bits
            };
            let wanted: int = if req > prec + 1 {
                req
            } else {
                prec + 1
            };
            let limbs: int = (wanted + 63) / 64 * 64;
            &&& r is Done <==> (prec >= req || prec >= 512)
            &&& r matches Escalation::Done { converged } ==> converged == (prec >= req)
            &&& r matches Escalation::Retry { next_bits } ==> next_bits == if limbs < 512 {
                limbs
            } else {
                512
            }
        }),
{
    proof {
        law_escalation_widens_to_requirement(prec, bits_lost, target_bits);
    }
    let required = bits_lost.saturating_add(target_bits);
    let converged = prec >= required;
    if converged || prec >= MAX_ARBITRARY_BITS {
        return Escalation::Done { converged };
    }
    let mut next = clamp_u32(required, prec + 1, MAX_ARBITRARY_BITS);
    // Widen in whole 64-bit limbs so the arithmetic does not pay for odd sizes.
    next = (next + 63) / 64 * 64;
    if next > MAX_ARBITRARY_BITS {
        next = MAX_ARBITRARY_BITS;
    }
    Escalation::Retry { next_bits: next }
}

/// A pass stops exactly when its width covers the bits lost plus the target
/// (the sum saturating at `u32::MAX`) or has reached the 512-bit ceiling, and
/// reports convergence exactly in the first case. A retry widens to the whole
/// requirement: at least one bit above the current width, rounded up to whole
/// 64-bit limbs and capped at 512 bits.
pub proof fn law_escalation_widens_to_requirement(prec: u32, bits_lost: u32, target_bits: u32)
    ensures
        ({
            let req: int = if bits_lost + target_bits > 0xffff_ffff {
                0xffff_ffff
            } else {
                bits_lost + target_bits
            };
            let wanted: int = if req > prec + 1 {
                req
            } else {
                prec + 1
            };
            let limbs: int = (wanted + 63) / 64 * 64;
            let e = escalation_of(prec, bits_lost, target_bits);
            &&& e is Done <==> (prec >= req || prec >= 512)
            &&& e matches Escalation::Done { converged } ==> converged == (prec >= req)
            &&& e matches Escalation::Retry { next_bits } ==> next_bits == if limbs < 512 {
                limbs
            } else {
                512
            }
            &&& e matches Escalation::Retry { next_bits } ==> next_bits >= req || next_bits == 512
        }),
{
    let req: int = if bits_lost + target_bits > 0xffff_ffff {
        0xffff_ffff
    } else {
        bits_lost + target_bits
    };
    let wanted: int = if req > prec + 1 {
        req
    } else {
        prec + 1
    };
    if prec < req && prec < 512 {
        let c: int = if wanted > 512 {
            512
        } else {
            wanted
        };
        assert(clamp_spec(sat_add(bits_lost, target_bits), (prec + 1) as u32, 512) == c);
        assert((c + 63) / 64 * 64 >= c) by (nonlinear_arith)
            requires
                c >= 0,
        ;
        assert(wanted > 512 ==> (wanted + 63) / 64 * 64 >= 512) by (nonlinear_arith);
    }
}

/// The precision an adaptive solve works at after `k` retries, starting from
/// the 128-bit floor, when every pass reports the same conditioning loss.
pub open spec fn working_bits(bits_lost: u32, target_bits: u32, k: nat) -> u32
    decreases k,
{
    if k == 0 {
        128
    } else {
        let prev = working_bits(bits_lost, target_bits, (k - 1) as nat);
        match escalation_of(prev, bits_lost, target_bits) {
            Escalation::Retry { next_bits } => next_bits,
            Escalation::Done { .. } => prev,
        }
    }
}

/// The adaptive solver always stops: the working precision stays within
/// `[128, 512]`, every retry widens it by at least one 64-bit limb, and after
/// six retries (128 to 512 in 64-bit limbs) the decision is `Done`.
pub proof fn law_escalation_terminates(bits_lost: u32, target_bits: u32, k: nat)
    ensures
        128 <= working_bits(bits_lost, target_bits, k) <= 512,
        working_bits(bits_lost, target_bits, k) % 64 == 0,
        k >= 6 ==> escalation_of(working_bits(bits_lost, target_bits, k), bits_lost, target_bits)
            is Done,
        working_bits(bits_lost, target_bits, k) >= 128 + 64 * k || escalation_of(
            working_bits(bits_lost, target_bits, k),
            bits_lost,
            target_bits,
        ) is Done,
    decreases k,
{
    if k > 0 {
        law_escalation_terminates(bits_lost, target_bits, (k - 1) as nat);
    }
}

/// A `Done` pass reports convergence exactly when the working precision
/// covers the conditioning loss plus the target; a pass that did not
/// converge stops only at the 512-bit ceiling.
pub proof fn law_done_means_covered(prec: u32, bits_lost: u32, target_bits: u32)
    requires
        escalation_of(prec, bits_lost, target_bits) is Done,
    ensures
        escalation_of(prec, bits_lost, target_bits) == (Escalation::Done {
            converged: prec >= sat_add(bits_lost, target_bits),
        }),
        prec < sat_add(bits_lost, target_bits) ==> prec >= 512,
{
}

} // verus!
