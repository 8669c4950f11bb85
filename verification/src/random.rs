//! Deterministic counter-based RNG (SplitMix64 seed expansion + Xoshiro256**)
//! so Monte Carlo batches are reproducible across platforms.
use vstd::prelude::*;

verus! {

/// `x` rotated left by `k` bits, `0 < k < 64`.
pub open spec fn rotl(x: u64, k: u64) -> u64 {
    ((x << k) | (x >> (64 - k))) as u64
}

/// Product modulo `2^64`.
pub open spec fn mul_wrap(x: u64, y: u64) -> u64 {
    ((x as nat * y as nat) % 0x1_0000_0000_0000_0000) as u64
}

/// Sum modulo `2^64`.
pub open spec fn add_wrap(x: u64, y: u64) -> u64 {
    ((x as nat + y as nat) % 0x1_0000_0000_0000_0000) as u64
}

/// SplitMix64 counter increment.
pub open spec fn splitmix_increment() -> u64 {
    0x9E37_79B9_7F4A_7C15
}

/// SplitMix64 output mixing of an (already incremented) counter value.
pub open spec fn splitmix_mix(x: u64) -> u64 {
    let z1 = mul_wrap(x ^ (x >> 30u64), 0xBF58_476D_1CE4_E5B9);
    let z2 = mul_wrap(z1 ^ (z1 >> 27u64), 0x94D0_49BB_1331_11EB);
    z2 ^ (z2 >> 31u64)
}

/// The `k`-th SplitMix64 output (counting from 1) for a seed.
pub open spec fn splitmix_output(seed: u64, k: nat) -> u64 {
    splitmix_mix(((seed as nat + k * splitmix_increment() as nat) % 0x1_0000_0000_0000_0000) as u64)
}

/// The Xoshiro256** state a seed expands to: the first four SplitMix64 outputs.
pub open spec fn seeded_state(seed: u64) -> (u64, u64, u64, u64) {
    (
        splitmix_output(seed, 1),
        splitmix_output(seed, 2),
        splitmix_output(seed, 3),
        splitmix_output(seed, 4),
    )
}

/// The Xoshiro256** output for a state (the `**` scrambler on word 1).
pub open spec fn xoshiro_output(s: (u64, u64, u64, u64)) -> u64 {
    mul_wrap(rotl(mul_wrap(s.1, 5), 7), 9)
}

/// The Xoshiro256** state transition.
pub open spec fn xoshiro_next(s: (u64, u64, u64, u64)) -> (u64, u64, u64, u64) {
    let t = s.1 << 17u64;
    let s2 = s.2 ^ s.0;
    let s3 = s.3 ^ s.1;
    let s1 = s.1 ^ s2;
    let s0 = s.0 ^ s3;
    (s0, s1, s2 ^ t, rotl(s3, 45))
}

/// The state after `n` draws.
pub open spec fn xoshiro_after(s: (u64, u64, u64, u64), n: nat) -> (u64, u64, u64, u64)
    decreases n,
{
    if n == 0 {
        s
    } else {
        xoshiro_next(xoshiro_after(s, (n - 1) as nat))
    }
}

/// Rotates left by `k` bits.
fn rotate_left(x: u64, k: u64) -> (r: u64)
    requires
        0 < k < 64,
    ensures
        r == rotl(x, k),
{
    (x << k) | (x >> (64 - k))
}

/// SplitMix64 used to expand a seed into a Xoshiro state.
fn splitmix64(x: &mut u64) -> (r: u64)
    ensures
        *final(x) == add_wrap(*old(x), splitmix_increment()),
        r == splitmix_mix(*final(x)),
{
    *x = x.wrapping_add(0x9E37_79B9_7F4A_7C15);
    let mut z = *x;
    z = (z ^ (z >> 30u64)).wrapping_mul(0xBF58_476D_1CE4_E5B9);
    z = (z ^ (z >> 27u64)).wrapping_mul(0x94D0_49BB_1331_11EB);
    z ^ (z >> 31u64)
}

/// Xoshiro256** uniform generator.
#[derive(Clone, Debug)]
pub struct Rng {
    s: [u64; 4],
}

impl View for Rng {
    type V = (u64, u64, u64, u64);

    /// The four state words.
    closed spec fn view(&self) -> (u64, u64, u64, u64) {
        (self.s[0], self.s[1], self.s[2], self.s[3])
    }
}

impl Rng {
    /// Seed a generator.
    pub fn new(seed: u64) -> (r: Rng)
        ensures
            r@ == seeded_state(seed),
    {
        let mut x = seed;
        let a = splitmix64(&mut x);
        let b = splitmix64(&mut x);
        let c = splitmix64(&mut x);
        let d = splitmix64(&mut x);
        proof {
            lemma_counter(seed, 1);
            lemma_counter(seed, 2);
            lemma_counter(seed, 3);
        }
        Rng { s: [a, b, c, d] }
    }

    /// Uniform `u64`.
    pub fn next_u64(&mut self) -> (r: u64)
        ensures
            r == xoshiro_output(old(self)@),
            final(self)@ == xoshiro_next(old(self)@),
            ({
                let (s0, s1, s2, s3) = old(self)@;
                let m = ((s1 as nat * 5) % 0x1_0000_0000_0000_0000) as u64;
                &&& r == (((m << 7u64) | (m >> 57u64)) as nat * 9) % 0x1_0000_0000_0000_0000
                &&& final(self)@.0 == s0 ^ (s3 ^ s1)
                &&& final(self)@.1 == s1 ^ (s2 ^ s0)
                &&& final(self)@.2 == (s2 ^ s0) ^ (s1 << 17u64)
                &&& final(self)@.3 == ((s3 ^ s1) << 45u64) | ((s3 ^ s1) >> 19u64)
            }),
    {
        proof {
            law_xoshiro_step_words(old(self)@);
        }
        let s0 = self.s[0];
        let s1 = self.s[1];
        let s2 = self.s[2];
        let s3 = self.s[3];
        let result = rotate_left(s1.wrapping_mul(5), 7).wrapping_mul(9);
        let t = s1 << 17u64;
        let n2 = s2 ^ s0;
        let n3 = s3 ^ s1;
        let n1 = s1 ^ n2;
        let n0 = s0 ^ n3;
        self.s = [n0, n1, n2 ^ t, rotate_left(n3, 45)];
        result
    }
}

/// The SplitMix64 counter after `k + 1` increments of a seed.
proof fn lemma_counter(seed: u64, k: nat)
    ensures
        add_wrap(
            ((seed as nat + k * splitmix_increment() as nat) % 0x1_0000_0000_0000_0000) as u64,
            splitmix_increment(),
        ) == ((seed as nat + (k + 1) * splitmix_increment() as nat) % 0x1_0000_0000_0000_0000) as u64,
{
    let m: int = 0x1_0000_0000_0000_0000;
    let g = splitmix_increment() as int;
    let base = seed as int + k * g;
    assert((k + 1) * g == k * g + g) by (nonlinear_arith);
    assert(base >= 0) by (nonlinear_arith)
        requires
            base == seed as int + k * g,
            seed >= 0,
            k >= 0,
            g >= 0,
    ;
    vstd::arithmetic::div_mod::lemma_add_mod_noop(base, g, m);
    vstd::arithmetic::div_mod::lemma_mod_twice(g, m);
    vstd::arithmetic::div_mod::lemma_small_mod(g as nat, m as nat);
}

/// One Xoshiro256** draw, word by word: the output is word 1 times 5,
/// rotated left by 7 bits, times 9 (all modulo `2^64`); the next state is
/// `s0 ^ s3 ^ s1`, `s1 ^ s2 ^ s0`, `s2 ^ s0 ^ (s1 << 17)` and `s3 ^ s1`
/// rotated left by 45 bits.
pub proof fn law_xoshiro_step_words(s: (u64, u64, u64, u64))
    ensures
        ({
            let (s0, s1, s2, s3) = s;
            let m = ((s1 as nat * 5) % 0x1_0000_0000_0000_0000) as u64;
            &&& xoshiro_output(s) == (((m << 7u64) | (m >> 57u64)) as nat * 9)
                % 0x1_0000_0000_0000_0000
            &&& xoshiro_next(s).0 == s0 ^ (s3 ^ s1)
            &&& xoshiro_next(s).1 == s1 ^ (s2 ^ s0)
            &&& xoshiro_next(s).2 == (s2 ^ s0) ^ (s1 << 17u64)
            &&& xoshiro_next(s).3 == ((s3 ^ s1) << 45u64) | ((s3 ^ s1) >> 19u64)
        }),
{
}

/// The Xoshiro256** transition is injective: two states that step to the same
/// state were the same state.
pub proof fn law_next_injective(s: (u64, u64, u64, u64), u: (u64, u64, u64, u64))
    requires
        xoshiro_next(s) == xoshiro_next(u),
    ensures
        s == u,
{
    let (s0, s1, s2, s3) = s;
    let (u0, u1, u2, u3) = u;
    let x3 = s3 ^ s1;
    let y3 = u3 ^ u1;
    assert(rotl(x3, 45) == rotl(y3, 45));
    assert(x3 == y3) by (bit_vector)
        requires
            ((x3 << 45u64) | (x3 >> 19u64)) == ((y3 << 45u64) | (y3 >> 19u64)),
    ;
    assert(s1 ^ (s2 ^ s0) == u1 ^ (u2 ^ u0));
    assert((s2 ^ s0) ^ (s1 << 17u64) == (u2 ^ u0) ^ (u1 << 17u64));
    assert(s1 == u1) by (bit_vector)
        requires
            s1 ^ (s2 ^ s0) == u1 ^ (u2 ^ u0),
            (s2 ^ s0) ^ (s1 << 17u64) == (u2 ^ u0) ^ (u1 << 17u64),
    ;
    assert(s3 == u3) by (bit_vector)
        requires
            s3 ^ s1 == u3 ^ u1,
            s1 == u1,
    ;
    assert(s0 ^ (s3 ^ s1) == u0 ^ (u3 ^ u1));
    assert(s0 == u0) by (bit_vector)
        requires
            s0 ^ (s3 ^ s1) == u0 ^ (u3 ^ u1),
            s3 ^ s1 == u3 ^ u1,
    ;
    assert(s2 == u2) by (bit_vector)
        requires
            s1 ^ (s2 ^ s0) == u1 ^ (u2 ^ u0),
            s1 == u1,
            s0 == u0,
    ;
}

/// The all-zero state is the only state the transition maps to zero: a
/// generator that does not start at zero never reaches it, however many
/// values it draws.
pub proof fn law_nonzero_state_stays_nonzero(s: (u64, u64, u64, u64), n: nat)
    requires
        s != (0u64, 0u64, 0u64, 0u64),
    ensures
        xoshiro_after(s, n) != (0u64, 0u64, 0u64, 0u64),
    decreases n,
{
    if n > 0 {
        let m = (n - 1) as nat;
        law_nonzero_state_stays_nonzero(s, m);
        let z = (0u64, 0u64, 0u64, 0u64);
        assert(xoshiro_next(z) == z) by {
            assert(0u64 << 17u64 == 0u64) by (bit_vector);
            assert(0u64 ^ 0u64 == 0u64) by (bit_vector);
            assert(rotl(0u64, 45u64) == 0u64) by (bit_vector);
        }
        if xoshiro_after(s, n) == z {
            law_next_injective(xoshiro_after(s, m), z);
        }
    }
}

/// Multiplying by an odd constant that has an inverse modulo `2^64` is
/// injective modulo `2^64`.
pub(crate) proof fn lemma_mul_wrap_injective(x: u64, y: u64, c: u64, inv: u64, k: int)
    requires
        c as int * inv as int == 1 + k * 0x1_0000_0000_0000_0000,
        mul_wrap(x, c) == mul_wrap(y, c),
    ensures
        x == y,
{
    let m: int = 0x1_0000_0000_0000_0000;
    assert forall|z: u64| #[trigger] mul_wrap(mul_wrap(z, c), inv) == z by {
        vstd::arithmetic::div_mod::lemma_mul_mod_noop_left(z as int * c as int, inv as int, m);
        assert(z as int * c as int * inv as int == z as int + (z as int * k) * m) by (
        nonlinear_arith)
            requires
                c as int * inv as int == 1 + k * m,
        ;
        vstd::arithmetic::div_mod::lemma_mod_multiples_vanish(z as int * k, z as int, m);
        assert(m * (z as int * k) + z as int == z as int + (z as int * k) * m) by (
        nonlinear_arith);
        vstd::arithmetic::div_mod::lemma_small_mod(z as nat, m as nat);
    }
    assert(mul_wrap(mul_wrap(x, c), inv) == x);
    assert(mul_wrap(mul_wrap(y, c), inv) == y);
}

/// SplitMix64's output mixing is injective.
proof fn lemma_splitmix_mix_injective(x: u64, y: u64)
    requires
        splitmix_mix(x) == splitmix_mix(y),
    ensures
        x == y,
{
    let x1 = mul_wrap(x ^ (x >> 30u64), 0xBF58_476D_1CE4_E5B9);
    let y1 = mul_wrap(y ^ (y >> 30u64), 0xBF58_476D_1CE4_E5B9);
    let x2 = mul_wrap(x1 ^ (x1 >> 27u64), 0x94D0_49BB_1331_11EB);
    let y2 = mul_wrap(y1 ^ (y1 >> 27u64), 0x94D0_49BB_1331_11EB);
    assert(x2 == y2) by (bit_vector)
        requires
            x2 ^ (x2 >> 31u64) == y2 ^ (y2 >> 31u64),
    ;
    lemma_mul_wrap_injective(
        x1 ^ (x1 >> 27u64),
        y1 ^ (y1 >> 27u64),
        0x94D0_49BB_1331_11EB,
        0x3196_42b2_d24d_8ec3,
        2077064247507883091,
    );
    assert(x1 == y1) by (bit_vector)
        requires
            x1 ^ (x1 >> 27u64) == y1 ^ (y1 >> 27u64),
    ;
    lemma_mul_wrap_injective(
        x ^ (x >> 30u64),
        y ^ (y >> 30u64),
        0xBF58_476D_1CE4_E5B9,
        0x96de_1b17_3f11_9089,
        8125545580553827436,
    );
    assert(x == y) by (bit_vector)
        requires
            x ^ (x >> 30u64) == y ^ (y >> 30u64),
    ;
}

/// The first four SplitMix64 counter values of a seed are pairwise distinct.
proof fn lemma_counters_distinct(seed: u64, i: nat, j: nat)
    requires
        1 <= i < j <= 4,
    ensures
        (seed as nat + i * splitmix_increment() as nat) % 0x1_0000_0000_0000_0000 != (seed as nat
            + j * splitmix_increment() as nat) % 0x1_0000_0000_0000_0000,
{
    let m: int = 0x1_0000_0000_0000_0000;
    let g = splitmix_increment() as int;
    let a = seed as int + i * g;
    let b = seed as int + j * g;
    let d = (j - i) as int;
    assert(b == a + d * g) by (nonlinear_arith)
        requires
            a == seed as int + i * g,
            b == seed as int + j * g,
            d == j - i,
    ;
    assert(d * g % m != 0) by {
        if d == 1 {
            assert(1 * g % m == 0x9e37_79b9_7f4a_7c15);
        } else if d == 2 {
            assert(2 * g % m == 0x3c6e_f372_fe94_f82a);
        } else {
            assert(d == 3);
            assert(3 * g % m == 0xdaa6_6d2c_7ddf_743f);
        }
    }
    if a % m == b % m {
        vstd::arithmetic::div_mod::lemma_fundamental_div_mod(a, m);
        vstd::arithmetic::div_mod::lemma_fundamental_div_mod(b, m);
        let q = b / m - a / m;
        assert(d * g == q * m) by (nonlinear_arith)
            requires
                a == m * (a / m) + a % m,
                b == m * (b / m) + b % m,
                a % m == b % m,
                b == a + d * g,
                q == b / m - a / m,
        ;
        vstd::arithmetic::div_mod::lemma_mod_multiples_basic(q, m);
    }
}

/// A seeded generator never starts in the all-zero state, so it never
/// degenerates into a stream of zeros: the four seed words come from
/// distinct SplitMix64 counters through an injective mix, so at most one of
/// them is zero.
pub proof fn law_seeded_state_nonzero(seed: u64, n: nat)
    ensures
        seeded_state(seed) != (0u64, 0u64, 0u64, 0u64),
        xoshiro_after(seeded_state(seed), n) != (0u64, 0u64, 0u64, 0u64),
{
    let c1 = ((seed as nat + 1 * splitmix_increment() as nat) % 0x1_0000_0000_0000_0000) as u64;
    let c2 = ((seed as nat + 2 * splitmix_increment() as nat) % 0x1_0000_0000_0000_0000) as u64;
    if seeded_state(seed) == (0u64, 0u64, 0u64, 0u64) {
        assert(splitmix_mix(c1) == splitmix_mix(c2));
        lemma_splitmix_mix_injective(c1, c2);
        lemma_counters_distinct(seed, 1, 2);
    }
    law_nonzero_state_stays_nonzero(seeded_state(seed), n);
}

} // verus!
