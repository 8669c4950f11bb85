use shbt_cf::fpenv::{
    current_mode, disable_flush_to_zero, enable_flush_to_zero, FlushMode, FlushToZeroGuard,
    FpArch,
};

/// MXCSR power-on default: all exceptions masked, round to nearest.
const MXCSR_DEFAULT: u64 = 0x1f80;
/// FPCR power-on default.
const FPCR_DEFAULT: u64 = 0;

#[test]
fn flush_mode_round_trip_and_effect() {
    for (arch, before) in [(FpArch::X86_64, MXCSR_DEFAULT), (FpArch::Aarch64, FPCR_DEFAULT)] {
        let (guard, during) = FlushToZeroGuard::new(arch, before);
        assert_eq!(guard.saved_register(), before);
        assert_eq!(current_mode(arch, during), FlushMode::FlushToZero);
        assert_eq!(guard.restore_value(), before);
        assert_eq!(current_mode(arch, guard.restore_value()), FlushMode::Ieee);
    }
}

#[test]
fn explicit_enable_disable() {
    let (on, mode_on) = enable_flush_to_zero(FpArch::X86_64, MXCSR_DEFAULT);
    assert_eq!(on, MXCSR_DEFAULT | 0x8040);
    assert_eq!(mode_on, FlushMode::FlushToZero);
    let (off, mode_off) = disable_flush_to_zero(FpArch::X86_64, on);
    assert_eq!(off, MXCSR_DEFAULT);
    assert_eq!(mode_off, FlushMode::Ieee);

    let (on, mode_on) = enable_flush_to_zero(FpArch::Aarch64, 0x0300_0000);
    assert_eq!(on, 0x0308_0000 | 0x0100_0000);
    assert_eq!(mode_on, FlushMode::FlushToZero);
    let (off, mode_off) = disable_flush_to_zero(FpArch::Aarch64, on);
    assert_eq!(off, 0x0200_0000);
    assert_eq!(mode_off, FlushMode::Ieee);

    // Only one of FTZ/DAZ set on x86 is not a flushing mode.
    assert_eq!(current_mode(FpArch::X86_64, 0x8000), FlushMode::Ieee);
    assert_eq!(enable_flush_to_zero(FpArch::Other, 5), (5, FlushMode::Unsupported));
    assert_eq!(current_mode(FpArch::Other, u64::MAX), FlushMode::Unsupported);
}
