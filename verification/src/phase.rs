//! Drift-free optical phase accumulator in units of turns (1.0 == 2π).
use crate::fixed::{unit, Q64x64};
use vstd::prelude::*;

verus! {

/// The phase reached from `turns` after advancing by `delta`: the exact sum
/// modulo one turn.
pub open spec fn advanced(turns: int, delta: int) -> int {
    (turns + delta) % unit()
}

/// Drift-free optical phase accumulator in units of turns (1.0 == 2π).
#[derive(Clone, Copy, Debug, Default, PartialEq, Eq)]
pub struct PhaseAccumulator {
    turns: Q64x64,
}

impl View for PhaseAccumulator {
    type V = int;

    /// The accumulated phase as a raw Q64.64 value.
    closed spec fn view(&self) -> int {
        self.turns@
    }
}

impl PhaseAccumulator {
    /// A phase is always less than one full turn and never negative.
    pub closed spec fn wf(self) -> bool {
        0 <= self.turns@ < unit()
    }

    /// An accumulator is determined by its phase: accumulators with equal
    /// views are equal.
    pub proof fn lemma_view_injective(self, other: PhaseAccumulator)
        requires
            self@ == other@,
        ensures
            self == other,
    {
        self.turns.lemma_view_injective(other.turns);
    }

    /// Zeroed accumulator.
    pub fn new() -> (r: PhaseAccumulator)
        ensures
            r@ == 0,
            r.wf(),
    {
        PhaseAccumulator { turns: Q64x64::zero() }
    }

    /// Advances the phase by `delta_turns` modulo one turn.
    pub fn advance(&mut self, delta_turns: Q64x64)
        ensures
            final(self)@ == advanced(old(self)@, delta_turns@),
            final(self).wf(),
    {
        // Whole turns carry no information, so the raw sum may wrap around
        // the 128-bit range: that changes it by a multiple of one turn.
        let a = self.turns.to_bits();
        let b = delta_turns.to_bits();
        let raw = a.wrapping_add(b);
        proof {
            lemma_low_turn(raw);
            lemma_wrap_keeps_turn(a, b, raw);
        }
        self.turns = Q64x64::from_bits(raw & 0xffff_ffff_ffff_ffffi128);
    }

    /// Accumulated phase in turns.
    pub fn turns(&self) -> (r: Q64x64)
        ensures
            r@ == self@,
            self.wf() ==> 0 <= r@ < unit(),
    {
        self.turns
    }
}

/// Masking to the low 64 bits keeps the fractional turn: the remainder by one
/// turn.
proof fn lemma_low_turn(x: i128)
    ensures
        (x & 0xffff_ffff_ffff_ffffi128) as int == x as int % unit(),
{
    assert(x & 0xffff_ffff_ffff_ffffi128 == x % 0x1_0000_0000_0000_0000i128) by (bit_vector);
}

/// Wrapping the raw sum around the 128-bit range does not change its
/// fractional turn.
proof fn lemma_wrap_keeps_turn(a: i128, b: i128, raw: i128)
    requires
        raw == a.wrapping_add(b),
    ensures
        raw as int % unit() == (a as int + b as int) % unit(),
{
    let s = a as int + b as int;
    let w: int = unit() * unit();
    if s > i128::MAX {
        assert(raw as int == s - w);
        vstd::arithmetic::div_mod::lemma_mod_multiples_vanish(-unit(), s, unit());
        assert(unit() * -unit() + s == s - w) by (nonlinear_arith)
            requires
                w == unit() * unit(),
        ;
    } else if s < i128::MIN {
        assert(raw as int == s + w);
        vstd::arithmetic::div_mod::lemma_mod_multiples_vanish(unit(), s, unit());
        assert(unit() * unit() + s == s + w) by (nonlinear_arith)
            requires
                w == unit() * unit(),
        ;
    } else {
        assert(raw as int == s);
    }
}

/// Drift-free accumulation: advancing twice is advancing once by the combined
/// amount, modulo one turn, for any phase and any advances.
pub proof fn law_advance_composes(turns: int, d1: int, d2: int)
    ensures
        advanced(advanced(turns, d1), d2) == (turns + d1 + d2) % unit(),
{
    vstd::arithmetic::div_mod::lemma_add_mod_noop(turns + d1, d2, unit());
    vstd::arithmetic::div_mod::lemma_mod_twice(d2, unit());
    vstd::arithmetic::div_mod::lemma_add_mod_noop((turns + d1) % unit(), d2, unit());
}

} // verus!
