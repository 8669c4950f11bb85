//! Floating-point environment control: Denormals-Are-Zero / Flush-To-Zero.
//!
//! Subnormal operands trigger microcode assists on most cores, so the
//! simulator flushes subnormals to zero on every worker thread at startup.
//!
//! * x86_64: MXCSR bits 15 (FTZ) and 6 (DAZ).
//! * AArch64: FPCR bit 24 (FZ) and bit 19 (FZ16). AArch64 has a single flush
//!   mode covering inputs and outputs, so DAZ and FTZ are both mapped to FZ.
//!
//! On other targets there is no accessible control register and the mode is
//! reported as `Unsupported`.
//!
//! This module decides what the control register holds and what must be
//! written to it; reading and writing the thread's register is left to the
//! caller, which hands the raw register value in and writes the returned
//! value back.
use vstd::prelude::*;

verus! {

/// Snapshot of the subnormal-handling flags on the calling thread.
#[derive(Clone, Copy, Debug, PartialEq, Eq)]
pub enum FlushMode {
    /// Subnormals are processed at full IEEE 754 semantics.
    Ieee,
    /// Subnormal inputs are treated as zero and subnormal results flushed to zero.
    FlushToZero,
    /// The target has no accessible control register for this.
    Unsupported,
}

/// The floating-point control register layout of the running target.
#[derive(Clone, Copy, Debug, PartialEq, Eq)]
pub enum FpArch {
    /// MXCSR.
    X86_64,
    /// FPCR.
    Aarch64,
    /// No accessible control register.
    Other,
}

/// MXCSR flush-to-zero bit (bit 15).
pub const MXCSR_FTZ: u64 = 0x8000;
/// MXCSR denormals-are-zero bit (bit 6).
pub const MXCSR_DAZ: u64 = 0x40;
/// FPCR flush-to-zero bit (bit 24).
pub const FPCR_FZ: u64 = 0x0100_0000;
/// FPCR half-precision flush-to-zero bit (bit 19).
pub const FPCR_FZ16: u64 = 0x0008_0000;

/// The bits that enabling flush-to-zero sets on a target.
pub open spec fn flush_bits(arch: FpArch) -> u64 {
    match arch {
        FpArch::X86_64 => 0x8040u64,
        FpArch::Aarch64 => 0x0108_0000u64,
        FpArch::Other => 0u64,
    }
}

/// The flush mode a control-register value selects on a target.
pub open spec fn mode_of(arch: FpArch, register: u64) -> FlushMode {
    match arch {
        FpArch::X86_64 => if register & 0x8040u64 == 0x8040u64 {
            FlushMode::FlushToZero
        } else {
            FlushMode::Ieee
        },
        FpArch::Aarch64 => if register & 0x0100_0000u64 != 0 {
            FlushMode::FlushToZero
        } else {
            FlushMode::Ieee
        },
        FpArch::Other => FlushMode::Unsupported,
    }
}

/// The register value with flush-to-zero enabled (unchanged where there is
/// no control register).
pub open spec fn with_flush(arch: FpArch, register: u64) -> u64 {
    match arch {
        FpArch::Other => register,
        _ => register | flush_bits(arch),
    }
}

/// The register value with flush-to-zero cleared (unchanged where there is
/// no control register).
pub open spec fn without_flush(arch: FpArch, register: u64) -> u64 {
    match arch {
        FpArch::Other => register,
        _ => register & !flush_bits(arch),
    }
}

/// Current flush mode selected by the control-register value `register`.
pub fn current_mode(arch: FpArch, register: u64) -> (r: FlushMode)
    ensures
        r == mode_of(arch, register),
        arch == FpArch::X86_64 ==> (r == FlushMode::FlushToZero <==> (register & 0x8000u64 != 0
            && register & 0x40u64 != 0)),
        arch == FpArch::X86_64 ==> (r == FlushMode::Ieee <==> !(register & 0x8000u64 != 0
            && register & 0x40u64 != 0)),
        arch == FpArch::Aarch64 ==> (r == FlushMode::FlushToZero <==> register & 0x0100_0000u64
            != 0),
        arch == FpArch::Aarch64 ==> (r == FlushMode::Ieee <==> register & 0x0100_0000u64 == 0),
        arch == FpArch::Other ==> r == FlushMode::Unsupported,
{
    proof {
        assert(MXCSR_FTZ | MXCSR_DAZ == 0x8040u64) by (bit_vector);
        lemma_register_bits(register);
    }
    match arch {
        FpArch::X86_64 => {
            if register & (MXCSR_FTZ | MXCSR_DAZ) == (MXCSR_FTZ | MXCSR_DAZ) {
                FlushMode::FlushToZero
            } else {
                FlushMode::Ieee
            }
        },
        FpArch::Aarch64 => {
            if register & FPCR_FZ != 0 {
                FlushMode::FlushToZero
            } else {
                FlushMode::Ieee
            }
        },
        FpArch::Other => FlushMode::Unsupported,
    }
}

/// Sets DAZ + FTZ: returns the register value to write and the mode it
/// selects.
pub fn enable_flush_to_zero(arch: FpArch, register: u64) -> (r: (u64, FlushMode))
    ensures
        r.0 == with_flush(arch, register),
        r.1 == mode_of(arch, r.0),
        arch == FpArch::X86_64 ==> r.0 == register | 0x8040u64,
        arch == FpArch::Aarch64 ==> r.0 == register | 0x0108_0000u64,
        arch == FpArch::Other ==> r.0 == register,
        arch != FpArch::Other ==> r.1 == FlushMode::FlushToZero,
        arch == FpArch::Other ==> r.1 == FlushMode::Unsupported,
{
    proof {
        if arch != FpArch::Other {
            law_enable_selects_flush(arch, register);
        }
        lemma_register_bits(register);
    }
    let value = match arch {
        FpArch::X86_64 => register | (MXCSR_FTZ | MXCSR_DAZ),
        FpArch::Aarch64 => register | FPCR_FZ | FPCR_FZ16,
        FpArch::Other => register,
    };
    proof {
        assert(MXCSR_FTZ | MXCSR_DAZ == 0x8040u64) by (bit_vector);
        assert(register | FPCR_FZ | FPCR_FZ16 == register | 0x0108_0000u64) by (bit_vector);
    }
    (value, current_mode(arch, value))
}

/// Clears DAZ + FTZ, restoring full IEEE 754 subnormal handling: returns the
/// register value to write and the mode it selects.
pub fn disable_flush_to_zero(arch: FpArch, register: u64) -> (r: (u64, FlushMode))
    ensures
        r.0 == without_flush(arch, register),
        r.1 == mode_of(arch, r.0),
        arch == FpArch::X86_64 ==> r.0 == register & !0x8040u64,
        arch == FpArch::Aarch64 ==> r.0 == register & !0x0108_0000u64,
        arch == FpArch::Other ==> r.0 == register,
        arch != FpArch::Other ==> r.1 == FlushMode::Ieee,
        arch == FpArch::Other ==> r.1 == FlushMode::Unsupported,
{
    proof {
        if arch != FpArch::Other {
            law_disable_selects_ieee(arch, register);
        }
        lemma_register_bits(register);
    }
    let value = match arch {
        FpArch::X86_64 => register & !(MXCSR_FTZ | MXCSR_DAZ),
        FpArch::Aarch64 => register & !(FPCR_FZ | FPCR_FZ16),
        FpArch::Other => register,
    };
    proof {
        assert(MXCSR_FTZ | MXCSR_DAZ == 0x8040u64) by (bit_vector);
        assert(FPCR_FZ | FPCR_FZ16 == 0x0108_0000u64) by (bit_vector);
    }
    (value, current_mode(arch, value))
}

/// Scope guard: records the register contents from before flushing was
/// enabled so they can be restored when the scope ends.
#[derive(Debug)]
pub struct FlushToZeroGuard {
    saved: u64,
}

impl FlushToZeroGuard {
    /// Enables DAZ/FTZ, remembering the previous register contents. Returns
    /// the guard and the register value to write.
    pub fn new(arch: FpArch, register: u64) -> (r: (FlushToZeroGuard, u64))
        ensures
            r.0.saved_spec() == register,
            r.1 == with_flush(arch, register),
    {
        let (value, _mode) = enable_flush_to_zero(arch, register);
        (FlushToZeroGuard { saved: register }, value)
    }

    /// The register contents captured before the guard enabled flushing.
    pub closed spec fn saved_spec(&self) -> u64 {
        self.saved
    }

    /// Register contents captured before the guard enabled flushing.
    pub fn saved_register(&self) -> (r: u64)
        ensures
            r == self.saved_spec(),
    {
        self.saved
    }

    /// The register value to write back when the guard's scope ends: exactly
    /// the contents captured before flushing was enabled.
    pub fn restore_value(&self) -> (r: u64)
        ensures
            r == self.saved_spec(),
    {
        self.saved
    }
}

/// Enabling flush-to-zero selects the flush mode on every target that has a
/// control register.
pub proof fn law_enable_selects_flush(arch: FpArch, register: u64)
    requires
        arch != FpArch::Other,
    ensures
        mode_of(arch, with_flush(arch, register)) == FlushMode::FlushToZero,
{
    assert((register | 0x8040u64) & 0x8040u64 == 0x8040u64) by (bit_vector);
    assert((register | 0x0108_0000u64) & 0x0100_0000u64 != 0) by (bit_vector);
}

/// Disabling flush-to-zero selects full IEEE handling on every target that
/// has a control register.
pub proof fn law_disable_selects_ieee(arch: FpArch, register: u64)
    requires
        arch != FpArch::Other,
    ensures
        mode_of(arch, without_flush(arch, register)) == FlushMode::Ieee,
{
    assert((register & !0x8040u64) & 0x8040u64 == 0u64) by (bit_vector);
    assert((register & !0x0108_0000u64) & 0x0100_0000u64 == 0) by (bit_vector);
}

/// Enabling and then disabling flush-to-zero leaves every other control bit
/// as it was; on a register that had flushing off, it restores the register
/// exactly.
pub proof fn law_enable_disable_round_trip(arch: FpArch, register: u64)
    ensures
        without_flush(arch, with_flush(arch, register)) == without_flush(arch, register),
        register & flush_bits(arch) == 0 ==> without_flush(arch, with_flush(arch, register))
            == register,
{
    let m = flush_bits(arch);
    assert((register | m) & !m == register & !m) by (bit_vector);
    assert(register & m == 0 ==> register & !m == register) by (bit_vector);
}

/// Bit facts about the two control-register layouts.
proof fn lemma_register_bits(register: u64)
    by (bit_vector)
    ensures
        (register & 0x8040u64 == 0x8040u64) <==> (register & 0x8000u64 != 0 && register & 0x40u64
            != 0),
        (register | 0x8040u64) & 0x8000u64 != 0,
        (register | 0x8040u64) & 0x40u64 != 0,
        (register | 0x8040u64) & !0x8040u64 == register & !0x8040u64,
        (register & !0x8040u64) & 0x8000u64 == 0,
        (register & !0x8040u64) & 0x40u64 == 0,
        (register & !0x8040u64) & !0x8040u64 == register & !0x8040u64,
        (register | 0x0108_0000u64) & 0x0100_0000u64 != 0,
        (register | 0x0108_0000u64) & 0x0008_0000u64 != 0,
        (register | 0x0108_0000u64) & !0x0108_0000u64 == register & !0x0108_0000u64,
        (register & !0x0108_0000u64) & 0x0100_0000u64 == 0,
        (register & !0x0108_0000u64) & 0x0008_0000u64 == 0,
        (register & !0x0108_0000u64) & !0x0108_0000u64 == register & !0x0108_0000u64,
{
}

/// What the control register selects, bit by bit: on x86_64 flushing is on
/// exactly when MXCSR bit 15 (FTZ) and bit 6 (DAZ) are both set; on AArch64
/// exactly when FPCR bit 24 (FZ) is set, whatever bit 19 (FZ16) holds.
/// Enabling sets bits 15 and 6 (MXCSR) or 24 and 19 (FPCR), disabling clears
/// them, and neither touches any other bit.
pub proof fn law_flush_register_bits(register: u64)
    ensures
        mode_of(FpArch::X86_64, register) == FlushMode::FlushToZero <==> (register & 0x8000u64 != 0
            && register & 0x40u64 != 0),
        mode_of(FpArch::X86_64, register) == FlushMode::Ieee <==> !(register & 0x8000u64 != 0
            && register & 0x40u64 != 0),
        mode_of(FpArch::Aarch64, register) == FlushMode::FlushToZero <==> register
            & 0x0100_0000u64 != 0,
        mode_of(FpArch::Aarch64, register) == FlushMode::Ieee <==> register & 0x0100_0000u64 == 0,
        with_flush(FpArch::X86_64, register) & 0x8000u64 != 0,
        with_flush(FpArch::X86_64, register) & 0x40u64 != 0,
        with_flush(FpArch::X86_64, register) & !0x8040u64 == register & !0x8040u64,
        without_flush(FpArch::X86_64, register) & 0x8000u64 == 0,
        without_flush(FpArch::X86_64, register) & 0x40u64 == 0,
        without_flush(FpArch::X86_64, register) & !0x8040u64 == register & !0x8040u64,
        with_flush(FpArch::Aarch64, register) & 0x0100_0000u64 != 0,
        with_flush(FpArch::Aarch64, register) & 0x0008_0000u64 != 0,
        with_flush(FpArch::Aarch64, register) & !0x0108_0000u64 == register & !0x0108_0000u64,
        without_flush(FpArch::Aarch64, register) & 0x0100_0000u64 == 0,
        without_flush(FpArch::Aarch64, register) & 0x0008_0000u64 == 0,
        without_flush(FpArch::Aarch64, register) & !0x0108_0000u64 == register & !0x0108_0000u64,
        with_flush(FpArch::Other, register) == register,
        without_flush(FpArch::Other, register) == register,
{
    lemma_register_bits(register);
}

/// The mode on a target without a control register is always `Unsupported`.
pub proof fn law_other_unsupported(register: u64)
    ensures
        mode_of(FpArch::Other, register) == FlushMode::Unsupported,
{
}

} // verus!
