use shbt_cf::fixed::Q64x64;
use shbt_cf::phase::PhaseAccumulator;

#[test]
fn integer_round_trip() {
    assert_eq!(Q64x64::from_int(42).floor_int(), 42);
    assert_eq!(Q64x64::from_int(-42).floor_int(), -42);
    assert_eq!(Q64x64::from_int(1), Q64x64::one());
}

#[test]
fn overflow_is_reported() {
    assert!(Q64x64::max_value().checked_add(Q64x64::one()).is_none());
    assert!(Q64x64::min_value().checked_sub(Q64x64::one()).is_none());
}

/// Raw pattern of 0.1 truncated to Q64.64 (what the float conversion gives).
const TENTH_BITS: i128 = 0x1999_9999_9999_9a00;

#[test]
fn accumulation_is_exact() {
    let step = Q64x64::from_bits(TENTH_BITS);
    let mut acc = Q64x64::zero();
    for _ in 0..1_000_000 {
        acc = acc + step;
    }
    assert_eq!(acc.to_bits(), step.to_bits() * 1_000_000);
}

#[test]
fn multiplication() {
    let a = Q64x64::from_bits(3_i128 << 63); // 1.5
    let b = Q64x64::from_int(-2);
    assert_eq!(a.checked_mul(b).unwrap(), Q64x64::from_int(-3));
    assert_eq!(Q64x64::one().checked_mul(Q64x64::one()), Some(Q64x64::one()));
    assert!(Q64x64::max_value().checked_mul(Q64x64::from_int(2)).is_none());
}

#[test]
fn multiplication_rounds_toward_negative_infinity() {
    // 2^-64 * 0.5 = 2^-65: positive rounds down to 0, negative down to -2^-64.
    let tiny = Q64x64::from_bits(1);
    let half = Q64x64::from_bits(1_i128 << 63);
    assert_eq!(tiny.checked_mul(half), Some(Q64x64::zero()));
    assert_eq!((-tiny).checked_mul(half), Some(Q64x64::from_bits(-1)));
    assert_eq!(tiny.checked_mul(-half), Some(Q64x64::from_bits(-1)));
    // (-1.5) * 1.25 = -1.875 exactly.
    let a = Q64x64::from_bits(-(3_i128 << 63));
    let b = Q64x64::from_bits(5_i128 << 62);
    assert_eq!(a.checked_mul(b), Some(Q64x64::from_bits(-(15_i128 << 61))));
}

#[test]
fn multiplication_range_edges() {
    // MIN * 1 is MIN; MIN * -1 overflows; MAX * -1 is -MAX.
    assert_eq!(Q64x64::min_value().checked_mul(Q64x64::one()), Some(Q64x64::min_value()));
    assert!(Q64x64::min_value().checked_mul(Q64x64::from_int(-1)).is_none());
    assert_eq!(
        Q64x64::max_value().checked_mul(Q64x64::from_int(-1)),
        Some(Q64x64::from_bits(-i128::MAX))
    );
    // 2^62 * 2 = 2^63 is out of the integer range; 2^62 * 2^0.5... stays in.
    let big = Q64x64::from_int(1_i64 << 62);
    assert!(big.checked_mul(Q64x64::from_int(2)).is_none());
    assert_eq!(
        big.checked_mul(Q64x64::from_int(-2)),
        Some(Q64x64::min_value())
    );
}

#[test]
fn floor_and_fraction_of_negative_values() {
    // -1.25 = -2 + 0.75
    let x = Q64x64::from_bits(-(5_i128 << 62));
    assert_eq!(x.floor_int(), -2);
    assert_eq!(x.frac_bits(), 3_u64 << 62);
    let y = Q64x64::from_bits((7_i128 << 64) + 5);
    assert_eq!(y.floor_int(), 7);
    assert_eq!(y.frac_bits(), 5);
}

#[test]
fn subtraction_undoes_addition() {
    let a = Q64x64::from_bits(123_456_789);
    let b = Q64x64::from_int(-77);
    let c = a.checked_add(b).unwrap();
    assert_eq!(c.checked_sub(b), Some(a));
    assert_eq!(a - b + b, a);
    assert_eq!(-(-a), a);
}

#[test]
fn phase_wraps_in_turns() {
    let mut p = PhaseAccumulator::new();
    p.advance(Q64x64::from_bits(3_i128 << 62)); // 0.75
    p.advance(Q64x64::from_bits(1_i128 << 63)); // 0.5
    assert_eq!(p.turns(), Q64x64::from_bits(1_i128 << 62)); // 0.25
}

#[test]
fn phase_wraps_negative_and_overflowing_advances() {
    let mut p = PhaseAccumulator::new();
    p.advance(Q64x64::from_bits(-(1_i128 << 62))); // -0.25 turn == 0.75 turn
    assert_eq!(p.turns(), Q64x64::from_bits(3_i128 << 62));
    p.advance(Q64x64::from_int(5)); // whole turns vanish
    assert_eq!(p.turns(), Q64x64::from_bits(3_i128 << 62));
    // 0.25 advanced by -0.5 is 0.75.
    let mut q = PhaseAccumulator::new();
    q.advance(Q64x64::from_bits(1_i128 << 62));
    q.advance(Q64x64::from_bits(-(1_i128 << 63)));
    assert_eq!(q.turns(), Q64x64::from_bits(3_i128 << 62));
    // A sum beyond the raw range still advances modulo one turn:
    // 0.5 + MAX, and MAX's fraction is 2^64 - 1 raw steps.
    let mut r = PhaseAccumulator::new();
    r.advance(Q64x64::from_bits(1_i128 << 63));
    r.advance(Q64x64::max_value());
    assert_eq!(r.turns(), Q64x64::from_bits((1_i128 << 63) - 1));
    r.advance(Q64x64::min_value()); // MIN is a whole number of turns
    assert_eq!(r.turns(), Q64x64::from_bits((1_i128 << 63) - 1));
}
