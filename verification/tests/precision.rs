use shbt_cf::precision::{escalate, Escalation, PrecisionMode, PRECISION_BITS};

#[test]
fn condition_loss_scaling() {
    assert_eq!(
        PrecisionMode::arbitrary_for_bits_lost(0),
        PrecisionMode::Arbitrary { mantissa_bits: 128 }
    );
    assert_eq!(
        PrecisionMode::arbitrary_for_bits_lost(100),
        PrecisionMode::Arbitrary { mantissa_bits: 153 }
    );
    assert_eq!(
        PrecisionMode::arbitrary_for_bits_lost(512),
        PrecisionMode::Arbitrary { mantissa_bits: 512 }
    );
    assert_eq!(
        PrecisionMode::arbitrary_for_bits_lost(u32::MAX),
        PrecisionMode::Arbitrary { mantissa_bits: 512 }
    );
    assert_eq!(PrecisionMode::StrictF64.significant_bits(), 53);
    assert_eq!(PrecisionMode::FixedQ64x64.significant_bits(), 128);
    assert_eq!(PrecisionMode::Arbitrary { mantissa_bits: 200 }.significant_bits(), 200);
    assert_eq!(PRECISION_BITS, 440);
}

#[test]
fn escalation_reaches_192_bits_for_a_55_bit_loss() {
    // 55 bits lost, 100 wanted: 128 is too narrow, 155 rounds up to 192.
    assert_eq!(escalate(128, 55, 100), Escalation::Retry { next_bits: 192 });
    assert_eq!(escalate(192, 55, 100), Escalation::Done { converged: true });
}

#[test]
fn escalation_respects_the_ceiling() {
    assert_eq!(escalate(128, 63, 450), Escalation::Retry { next_bits: 512 });
    assert_eq!(escalate(512, 63, 450), Escalation::Done { converged: false });
    assert_eq!(escalate(128, 0, 53), Escalation::Done { converged: true });
    assert_eq!(escalate(128, u32::MAX, u32::MAX), Escalation::Retry { next_bits: 512 });
}
