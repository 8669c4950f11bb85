//! Q64.64 signed fixed-point arithmetic.
//!
//! The representation is a two's-complement `i128` whose lower 64 bits are the
//! fractional part. Addition and subtraction are exact (no exponent shifting),
//! so accumulators built on this type exhibit zero rounding drift over any
//! number of steps until the ±2^63 integer range is exceeded, at which point
//! the operation reports overflow instead of silently wrapping.
use vstd::arithmetic::div_mod::lemma_fundamental_div_mod_converse;
use vstd::arithmetic::mul::{lemma_mul_is_distributive_add, lemma_mul_is_distributive_add_other_way};
use vstd::prelude::*;

verus! {

/// Number of fractional bits in the representation.
pub const FRAC_BITS: u32 = 64;

/// The scale of the representation: one whole unit is `2^64` raw steps.
pub open spec fn unit() -> int {
    0x1_0000_0000_0000_0000
}

/// Whether a mathematical integer fits the raw `i128` representation.
pub open spec fn fits_i128(x: int) -> bool {
    i128::MIN <= x <= i128::MAX
}

/// The exact fixed-point product of two raw values, rounded toward negative
/// infinity: `floor(a * b / 2^64)`.
pub open spec fn mul_floor(a: int, b: int) -> int {
    (a * b) / unit()
}

/// Q64.64 fixed-point value.
#[derive(Clone, Copy, Debug, PartialEq, Eq, PartialOrd, Ord, Hash, Default)]
pub struct Q64x64(i128);

impl View for Q64x64 {
    type V = int;

    /// The raw value as a mathematical integer; the represented real number
    /// is `self@ / 2^64`.
    closed spec fn view(&self) -> int {
        self.0 as int
    }
}

impl Q64x64 {
    /// Zero.
    pub fn zero() -> (r: Q64x64)
        ensures
            r@ == 0,
    {
        Q64x64(0)
    }

    /// One.
    pub fn one() -> (r: Q64x64)
        ensures
            r@ == unit(),
    {
        Q64x64(0x1_0000_0000_0000_0000)
    }

    /// Largest representable value.
    pub fn max_value() -> (r: Q64x64)
        ensures
            r@ == i128::MAX,
    {
        Q64x64(i128::MAX)
    }

    /// Smallest representable value.
    pub fn min_value() -> (r: Q64x64)
        ensures
            r@ == i128::MIN,
    {
        Q64x64(i128::MIN)
    }

    /// The value whose raw representation is `x` (meaningful when `x` fits
    /// in an `i128`).
    pub closed spec fn from_raw(x: int) -> Q64x64 {
        Q64x64(x as i128)
    }

    /// A representable raw value round-trips through [`Q64x64::from_raw`].
    pub broadcast proof fn lemma_from_raw(x: int)
        requires
            fits_i128(x),
        ensures
            (#[trigger] Q64x64::from_raw(x))@ == x,
    {
    }

    /// The raw value lies in the `i128` range.
    pub proof fn lemma_view_bounds(self)
        ensures
            fits_i128(self@),
    {
    }

    /// A value is determined by its raw value: values with equal views are
    /// equal.
    pub proof fn lemma_view_injective(self, other: Q64x64)
        requires
            self@ == other@,
        ensures
            self == other,
    {
    }

    /// Builds a value from its raw two's-complement bit pattern.
    pub fn from_bits(bits: i128) -> (r: Q64x64)
        ensures
            r@ == bits as int,
    {
        Q64x64(bits)
    }

    /// Returns the raw two's-complement bit pattern.
    pub fn to_bits(self) -> (r: i128)
        ensures
            r as int == self@,
    {
        self.0
    }

    /// Builds a value from an integer, with no fractional part.
    pub fn from_int(value: i64) -> (r: Q64x64)
        ensures
            r@ == value as int * unit(),
    {
        Q64x64((value as i128) * 0x1_0000_0000_0000_0000i128)
    }

    /// Checked addition; `None` on overflow.
    pub fn checked_add(self, rhs: Q64x64) -> (r: Option<Q64x64>)
        ensures
            match r {
                Some(v) => v@ == self@ + rhs@,
                None => !fits_i128(self@ + rhs@),
            },
    {
        match self.0.checked_add(rhs.0) {
            Some(v) => Some(Q64x64(v)),
            None => None,
        }
    }

    /// Checked subtraction; `None` on overflow.
    pub fn checked_sub(self, rhs: Q64x64) -> (r: Option<Q64x64>)
        ensures
            match r {
                Some(v) => v@ == self@ - rhs@,
                None => !fits_i128(self@ - rhs@),
            },
    {
        match self.0.checked_sub(rhs.0) {
            Some(v) => Some(Q64x64(v)),
            None => None,
        }
    }

    /// Fixed-point multiplication with the intermediate carried at 256 bits so
    /// the result is correctly truncated toward negative infinity. Returns
    /// `None` if the product leaves the representable range.
    pub fn checked_mul(self, rhs: Q64x64) -> (r: Option<Q64x64>)
        ensures
            match r {
                Some(v) => v@ == mul_floor(self@, rhs@),
                None => !fits_i128(mul_floor(self@, rhs@)),
            },
    {
        let (a_neg, a) = split_sign(self.0);
        let (b_neg, b) = split_sign(rhs.0);
        let (hi, lo) = mul_u128(a, b);
        let result_hi = hi >> 64u32;
        let remainder = lo & 0xffff_ffff_ffff_ffffu128;
        proof {
            lemma_low_high_u128(lo);
            lemma_low_high_u128(hi);
        }
        if result_hi != 0 {
            proof {
                lemma_mul_too_large(self@, rhs@, a as int, b as int, hi as int, lo as int);
            }
            return None;
        }
        let magnitude = (hi << 64u32) | (lo >> 64u32);
        proof {
            lemma_join_u128(hi, lo);
            lemma_magnitude(a as int, b as int, hi as int, lo as int);
        }
        let ghost p = a as int * b as int;
        if a_neg != b_neg {
            proof {
                assert(self@ * rhs@ == -p) by (nonlinear_arith)
                    requires
                        (self@ < 0 && rhs@ >= 0) || (self@ >= 0 && rhs@ < 0),
                        a as int == if self@ < 0 { -self@ } else { self@ },
                        b as int == if rhs@ < 0 { -rhs@ } else { rhs@ },
                        p == a as int * b as int,
                ;
                lemma_floor_of_negated(p, magnitude as int, remainder as int);
            }
            if remainder == 0 {
                if magnitude > 0x8000_0000_0000_0000_0000_0000_0000_0000u128 {
                    return None;
                }
                if magnitude == 0x8000_0000_0000_0000_0000_0000_0000_0000u128 {
                    Some(Q64x64(i128::MIN))
                } else {
                    Some(Q64x64(-(magnitude as i128)))
                }
            } else {
                if magnitude >= 0x8000_0000_0000_0000_0000_0000_0000_0000u128 {
                    return None;
                }
                Some(Q64x64(-(magnitude as i128) - 1))
            }
        } else {
            proof {
                assert(self@ * rhs@ == p) by (nonlinear_arith)
                    requires
                        (self@ < 0 && rhs@ < 0) || (self@ >= 0 && rhs@ >= 0),
                        a as int == if self@ < 0 { -self@ } else { self@ },
                        b as int == if rhs@ < 0 { -rhs@ } else { rhs@ },
                        p == a as int * b as int,
                ;
            }
            if magnitude > 0x7fff_ffff_ffff_ffff_ffff_ffff_ffff_ffffu128 {
                return None;
            }
            Some(Q64x64(magnitude as i128))
        }
    }

    /// Integer part, rounded toward negative infinity.
    pub fn floor_int(self) -> (r: i64)
        ensures
            r as int == self@ / unit(),
    {
        let x = self.0;
        let q = x >> 64u32;
        proof {
            lemma_shr_floor(x);
        }
        q as i64
    }

    /// Fractional part in `[0, 1)` as raw 64-bit fraction.
    pub fn frac_bits(self) -> (r: u64)
        ensures
            r as int == self@ % unit(),
    {
        let x = self.0;
        proof {
            lemma_low_bits_i128(x);
        }
        x as u64
    }
}

impl core::ops::Add for Q64x64 {
    type Output = Q64x64;

    /// Exact sum; the sum must be representable (it panics on overflow in
    /// debug builds; use [`Q64x64::checked_add`] in hot loops).
    fn add(self, rhs: Q64x64) -> (r: Q64x64) {
        Q64x64(self.0 + rhs.0)
    }
}

impl vstd::std_specs::ops::AddSpecImpl for Q64x64 {
    open spec fn obeys_add_spec() -> bool {
        true
    }

    open spec fn add_req(self, rhs: Q64x64) -> bool {
        fits_i128(self@ + rhs@)
    }

    open spec fn add_spec(self, rhs: Q64x64) -> Q64x64 {
        Q64x64::from_raw((self@ + rhs@))
    }
}

impl core::ops::Sub for Q64x64 {
    type Output = Q64x64;

    /// Exact difference; the difference must be representable (it panics on
    /// overflow in debug builds; use [`Q64x64::checked_sub`] in hot loops).
    fn sub(self, rhs: Q64x64) -> (r: Q64x64) {
        Q64x64(self.0 - rhs.0)
    }
}

impl vstd::std_specs::ops::SubSpecImpl for Q64x64 {
    open spec fn obeys_sub_spec() -> bool {
        true
    }

    open spec fn sub_req(self, rhs: Q64x64) -> bool {
        fits_i128(self@ - rhs@)
    }

    open spec fn sub_spec(self, rhs: Q64x64) -> Q64x64 {
        Q64x64::from_raw((self@ - rhs@))
    }
}

impl core::ops::Neg for Q64x64 {
    type Output = Q64x64;

    /// Exact negation; `MIN` has no negation (it panics in debug builds).
    fn neg(self) -> (r: Q64x64) {
        Q64x64(-self.0)
    }
}

impl vstd::std_specs::ops::NegSpecImpl for Q64x64 {
    open spec fn obeys_neg_spec() -> bool {
        true
    }

    open spec fn neg_req(self) -> bool {
        fits_i128(-self@)
    }

    open spec fn neg_spec(self) -> Q64x64 {
        Q64x64::from_raw((-self@))
    }
}

/// The raw value reached after `n` checked additions of `step` starting at
/// `start`, each addition behaving as [`Q64x64::checked_add`] states: the
/// exact sum while it is representable, and overflow (`None`) from the first
/// addition that leaves the range on.
pub open spec fn accumulate(start: int, step: int, n: nat) -> Option<int>
    decreases n,
{
    if n == 0 {
        Some(start)
    } else {
        match accumulate(start, step, (n - 1) as nat) {
            Some(x) => if fits_i128(x + step) {
                Some(x + step)
            } else {
                None
            },
            None => None,
        }
    }
}

/// Zero drift: accumulating `n` copies of a step from zero gives exactly
/// `n * step` whenever that is representable, and reports overflow otherwise.
pub proof fn law_accumulation_is_exact(step: int, n: nat)
    requires
        fits_i128(step),
    ensures
        accumulate(0, step, n) == if fits_i128(n * step) {
            Some(n * step)
        } else {
            None::<int>
        },
    decreases n,
{
    if n == 0 {
        assert(n * step == 0) by (nonlinear_arith)
            requires
                n == 0,
        ;
    } else {
        let m = (n - 1) as nat;
        law_accumulation_is_exact(step, m);
        assert(n * step == m * step + step) by (nonlinear_arith)
            requires
                n == m + 1,
        ;
        if !fits_i128(m * step) {
            if step >= 0 {
                assert(m * step >= 0) by (nonlinear_arith)
                    requires
                        step >= 0,
                ;
            } else {
                assert(m * step <= 0) by (nonlinear_arith)
                    requires
                        step < 0,
                ;
            }
        }
    }
}

/// Subtraction undoes addition: when `a + b` is representable, subtracting
/// `b` again is representable and gives back `a`.
pub proof fn law_sub_undoes_add(a: Q64x64, b: Q64x64)
    requires
        fits_i128(a@ + b@),
    ensures
        fits_i128((a@ + b@) - b@),
        (a@ + b@) - b@ == a@,
{
    a.lemma_view_bounds();
}

/// One is the identity of fixed-point multiplication, on either side.
pub proof fn law_mul_identity(x: int)
    ensures
        mul_floor(x, unit()) == x,
        mul_floor(unit(), x) == x,
{
    assert(x * unit() == x * unit() + 0);
    lemma_fundamental_div_mod_converse(x * unit(), unit(), x, 0);
}

/// Fixed-point multiplication is commutative.
pub proof fn law_mul_commutative(x: int, y: int)
    ensures
        mul_floor(x, y) == mul_floor(y, x),
{
    assert(x * y == y * x) by (nonlinear_arith);
}

/// An integer converted to fixed point has that integer as its floor and no
/// fractional bits.
pub proof fn law_int_round_trip(n: i64)
    ensures
        (n as int * unit()) / unit() == n as int,
        (n as int * unit()) % unit() == 0,
{
    lemma_fundamental_div_mod_converse(n as int * unit(), unit(), n as int, 0);
}

/// Every value splits into its floor and its fraction:
/// `x == floor_int * 2^64 + frac_bits` with `0 <= frac_bits < 2^64`.
pub proof fn law_floor_frac_decomposition(x: Q64x64)
    ensures
        x@ == (x@ / unit()) * unit() + x@ % unit(),
        0 <= x@ % unit() < unit(),
{
    vstd::arithmetic::div_mod::lemma_fundamental_div_mod(x@, unit());
}

/// Sign and magnitude of a raw value.
fn split_sign(v: i128) -> (r: (bool, u128))
    ensures
        r.0 == (v < 0),
        r.1 as int == if v < 0 { -(v as int) } else { v as int },
{
    if v < 0 {
        if v == i128::MIN {
            (true, 0x8000_0000_0000_0000_0000_0000_0000_0000u128)
        } else {
            (true, (-v) as u128)
        }
    } else {
        (false, v as u128)
    }
}

/// Full 128x128 -> 256-bit unsigned multiply, returned as (hi, lo).
fn mul_u128(a: u128, b: u128) -> (r: (u128, u128))
    ensures
        r.0 as int * 0x1_0000_0000_0000_0000_0000_0000_0000_0000 + r.1 as int == a as int
            * b as int,
{
    let a_lo = a & 0xffff_ffff_ffff_ffffu128;
    let a_hi = a >> 64u32;
    let b_lo = b & 0xffff_ffff_ffff_ffffu128;
    let b_hi = b >> 64u32;
    proof {
        lemma_low_high_u128(a);
        lemma_low_high_u128(b);
        lemma_limb_product(a_lo as int, b_lo as int);
        lemma_limb_product(a_lo as int, b_hi as int);
        lemma_limb_product(a_hi as int, b_lo as int);
        lemma_limb_product(a_hi as int, b_hi as int);
    }
    let ll = a_lo * b_lo;
    let lh = a_lo * b_hi;
    let hl = a_hi * b_lo;
    let hh = a_hi * b_hi;
    proof {
        lemma_low_high_u128(ll);
        lemma_low_high_u128(lh);
        lemma_low_high_u128(hl);
    }
    // Each term is < 2^64, so the sum of three fits in u128 without overflow.
    let mid = (ll >> 64u32) + (lh & 0xffff_ffff_ffff_ffffu128) + (hl & 0xffff_ffff_ffff_ffffu128);
    proof {
        lemma_low_high_u128(mid);
        lemma_join_u128(mid, ll);
        lemma_product_split(
            a as int,
            b as int,
            a_hi as int,
            a_lo as int,
            b_hi as int,
            b_lo as int,
            ll as int,
            lh as int,
            hl as int,
            hh as int,
            mid as int,
        );
    }
    let lo = (ll & 0xffff_ffff_ffff_ffffu128) | (mid << 64u32);
    proof {
        lemma_or_shl(ll & 0xffff_ffff_ffff_ffffu128, mid);
    }
    let hi = hh + (lh >> 64u32) + (hl >> 64u32) + (mid >> 64u32);
    (hi, lo)
}

/// Low and high 64-bit halves of a `u128` are its remainder and quotient by
/// `2^64`.
proof fn lemma_low_high_u128(x: u128)
    ensures
        x & 0xffff_ffff_ffff_ffffu128 == x % 0x1_0000_0000_0000_0000u128,
        x >> 64u32 == x / 0x1_0000_0000_0000_0000u128,
        (x & 0xffff_ffff_ffff_ffffu128) < 0x1_0000_0000_0000_0000u128,
        (x >> 64u32) < 0x1_0000_0000_0000_0000u128,
{
    assert(x & 0xffff_ffff_ffff_ffffu128 == x % 0x1_0000_0000_0000_0000u128) by (bit_vector);
    assert(x >> 64u32 == x / 0x1_0000_0000_0000_0000u128) by (bit_vector);
    assert((x & 0xffff_ffff_ffff_ffffu128) < 0x1_0000_0000_0000_0000u128) by (bit_vector);
    assert((x >> 64u32) < 0x1_0000_0000_0000_0000u128) by (bit_vector);
}

/// Placing `y`'s low half above a 64-bit `x` is `x + (y mod 2^64) * 2^64`; when
/// `y < 2^64` the join of `y` with the high half of `z` is `y * 2^64 + z / 2^64`.
proof fn lemma_or_shl(x: u128, y: u128)
    requires
        x < 0x1_0000_0000_0000_0000u128,
    ensures
        (x | (y << 64u32)) as int == x as int + (y % 0x1_0000_0000_0000_0000u128) as int
            * 0x1_0000_0000_0000_0000,
{
    assert((x | (y << 64u32)) == x + (y % 0x1_0000_0000_0000_0000u128)
        * 0x1_0000_0000_0000_0000u128) by (bit_vector)
        requires
            x < 0x1_0000_0000_0000_0000u128,
    ;
}

/// The join used by `checked_mul`: for `hi < 2^64`,
/// `(hi << 64) | (lo >> 64) == hi * 2^64 + lo / 2^64`.
proof fn lemma_join_u128(hi: u128, lo: u128)
    ensures
        hi < 0x1_0000_0000_0000_0000u128 ==> ((hi << 64u32) | (lo >> 64u32)) as int == hi as int
            * 0x1_0000_0000_0000_0000 + (lo / 0x1_0000_0000_0000_0000u128) as int,
{
    if hi < 0x1_0000_0000_0000_0000u128 {
        assert(((hi << 64u32) | (lo >> 64u32)) == hi * 0x1_0000_0000_0000_0000u128 + lo
            / 0x1_0000_0000_0000_0000u128) by (bit_vector)
            requires
                hi < 0x1_0000_0000_0000_0000u128,
        ;
    }
}

/// The product of two 64-bit limbs fits in 128 bits.
proof fn lemma_limb_product(x: int, y: int)
    requires
        0 <= x < 0x1_0000_0000_0000_0000,
        0 <= y < 0x1_0000_0000_0000_0000,
    ensures
        0 <= x * y <= 0xffff_ffff_ffff_fffe_0000_0000_0000_0001,
{
    assert(0 <= x * y <= 0xffff_ffff_ffff_fffe_0000_0000_0000_0001) by (nonlinear_arith)
        requires
            0 <= x < 0x1_0000_0000_0000_0000,
            0 <= y < 0x1_0000_0000_0000_0000,
    ;
}

/// Schoolbook decomposition of the 256-bit product into 64-bit limbs.
proof fn lemma_product_split(
    a: int,
    b: int,
    a_hi: int,
    a_lo: int,
    b_hi: int,
    b_lo: int,
    ll: int,
    lh: int,
    hl: int,
    hh: int,
    mid: int,
)
    requires
        a == a_hi * 0x1_0000_0000_0000_0000 + a_lo,
        b == b_hi * 0x1_0000_0000_0000_0000 + b_lo,
        0 <= a < 0x1_0000_0000_0000_0000_0000_0000_0000_0000,
        0 <= b < 0x1_0000_0000_0000_0000_0000_0000_0000_0000,
        0 <= a_lo,
        0 <= b_lo,
        0 <= a_hi,
        0 <= b_hi,
        ll == a_lo * b_lo,
        lh == a_lo * b_hi,
        hl == a_hi * b_lo,
        hh == a_hi * b_hi,
        mid == ll / 0x1_0000_0000_0000_0000 + lh % 0x1_0000_0000_0000_0000 + hl
            % 0x1_0000_0000_0000_0000,
    ensures
        a * b == (hh + lh / 0x1_0000_0000_0000_0000 + hl / 0x1_0000_0000_0000_0000 + mid
            / 0x1_0000_0000_0000_0000) * 0x1_0000_0000_0000_0000_0000_0000_0000_0000 + (mid
            % 0x1_0000_0000_0000_0000) * 0x1_0000_0000_0000_0000 + ll % 0x1_0000_0000_0000_0000,
        hh + lh / 0x1_0000_0000_0000_0000 + hl / 0x1_0000_0000_0000_0000 + mid
            / 0x1_0000_0000_0000_0000 < 0x1_0000_0000_0000_0000_0000_0000_0000_0000,
{
    let s: int = 0x1_0000_0000_0000_0000;
    let ll1 = ll / s;
    let ll0 = ll % s;
    let lh1 = lh / s;
    let lh0 = lh % s;
    let hl1 = hl / s;
    let hl0 = hl % s;
    let m1 = mid / s;
    let m0 = mid % s;
    assert(ll == ll1 * s + ll0) by (nonlinear_arith)
        requires
            ll1 == ll / s,
            ll0 == ll % s,
            s > 0,
    ;
    assert(lh == lh1 * s + lh0) by (nonlinear_arith)
        requires
            lh1 == lh / s,
            lh0 == lh % s,
            s > 0,
    ;
    assert(hl == hl1 * s + hl0) by (nonlinear_arith)
        requires
            hl1 == hl / s,
            hl0 == hl % s,
            s > 0,
    ;
    assert(mid == m1 * s + m0) by (nonlinear_arith)
        requires
            m1 == mid / s,
            m0 == mid % s,
            s > 0,
    ;
    lemma_ring_expand(a_hi, a_lo, b_hi, b_lo, s);
    assert(a * b == hh * (s * s) + (lh + hl) * s + ll);
    let h = hh + lh1 + hl1 + m1;
    assert(a * b == h * (s * s) + m0 * s + ll0) by (nonlinear_arith)
        requires
            a * b == hh * (s * s) + (lh + hl) * s + ll,
            ll == ll1 * s + ll0,
            lh == lh1 * s + lh0,
            hl == hl1 * s + hl0,
            mid == ll1 + lh0 + hl0,
            mid == m1 * s + m0,
            h == hh + lh1 + hl1 + m1,
    ;
    assert(0 <= m0 < s && 0 <= ll0 < s);
    assert(0 <= m0 * s + ll0 < s * s) by (nonlinear_arith)
        requires
            0 <= m0 < s,
            0 <= ll0 < s,
            s > 0,
    ;
    assert(a * b < (s * s) * (s * s)) by (nonlinear_arith)
        requires
            0 <= a < s * s,
            0 <= b < s * s,
    ;
    assert(h < s * s) by (nonlinear_arith)
        requires
            a * b == h * (s * s) + m0 * s + ll0,
            0 <= m0 * s + ll0,
            a * b < (s * s) * (s * s),
            s > 0,
    ;
}

/// `(x1 s + x0)(y1 s + y0) = x1 y1 s^2 + (x0 y1 + x1 y0) s + x0 y0`.
proof fn lemma_ring_expand(x1: int, x0: int, y1: int, y0: int, s: int)
    ensures
        (x1 * s + x0) * (y1 * s + y0) == (x1 * y1) * (s * s) + (x0 * y1 + x1 * y0) * s + x0 * y0,
{
    let xa = x1 * s;
    let yb = y1 * s;
    lemma_mul_is_distributive_add_other_way(y1 * s + y0, xa, x0);
    lemma_mul_is_distributive_add(xa, yb, y0);
    lemma_mul_is_distributive_add(x0, yb, y0);
    assert(xa * yb == (x1 * y1) * (s * s)) by (nonlinear_arith)
        requires
            xa == x1 * s,
            yb == y1 * s,
    ;
    assert(xa * y0 == (x1 * y0) * s) by (nonlinear_arith)
        requires
            xa == x1 * s,
    ;
    assert(x0 * yb == (x0 * y1) * s) by (nonlinear_arith)
        requires
            yb == y1 * s,
    ;
    lemma_mul_is_distributive_add_other_way(s, x0 * y1, x1 * y0);
}

/// A high half of at least `2^64` puts the scaled product out of range.
proof fn lemma_mul_too_large(x: int, y: int, a: int, b: int, hi: int, lo: int)
    requires
        a == if x < 0 { -x } else { x },
        b == if y < 0 { -y } else { y },
        hi * 0x1_0000_0000_0000_0000_0000_0000_0000_0000 + lo == a * b,
        0 <= lo,
        hi >= 0x1_0000_0000_0000_0000,
    ensures
        !fits_i128(mul_floor(x, y)),
{
    let s: int = 0x1_0000_0000_0000_0000;
    let p = a * b;
    assert(p >= s * (s * s)) by (nonlinear_arith)
        requires
            hi * (s * s) + lo == p,
            0 <= lo,
            hi >= s,
            s > 0,
    ;
    assert(x * y == p || x * y == -p) by (nonlinear_arith)
        requires
            a == if x < 0 { -x } else { x },
            b == if y < 0 { -y } else { y },
            p == a * b,
    ;
    if x * y == p {
        assert((x * y) / s >= s * s) by (nonlinear_arith)
            requires
                x * y >= s * (s * s),
                s > 0,
        ;
    } else {
        assert((x * y) / s <= -(s * s)) by (nonlinear_arith)
            requires
                x * y <= -(s * (s * s)),
                s > 0,
        ;
    }
}

/// For the non-overflowing case, the joined magnitude and remainder are the
/// quotient and remainder of the magnitude product by `2^64`.
proof fn lemma_magnitude(a: int, b: int, hi: int, lo: int)
    requires
        hi * 0x1_0000_0000_0000_0000_0000_0000_0000_0000 + lo == a * b,
        0 <= lo < 0x1_0000_0000_0000_0000_0000_0000_0000_0000,
        0 <= hi < 0x1_0000_0000_0000_0000,
    ensures
        (a * b) / 0x1_0000_0000_0000_0000 == hi * 0x1_0000_0000_0000_0000 + lo
            / 0x1_0000_0000_0000_0000,
        (a * b) % 0x1_0000_0000_0000_0000 == lo % 0x1_0000_0000_0000_0000,
{
    let s: int = 0x1_0000_0000_0000_0000;
    let q = hi * s + lo / s;
    let r = lo % s;
    assert(a * b == q * s + r) by (nonlinear_arith)
        requires
            hi * (s * s) + lo == a * b,
            q == hi * s + lo / s,
            r == lo % s,
            s > 0,
    ;
    lemma_fundamental_div_mod_converse(a * b, s, q, r);
}

/// `floor(-p / 2^64)` in terms of the quotient and remainder of `p`.
proof fn lemma_floor_of_negated(p: int, q: int, r: int)
    requires
        p >= 0,
        p / 0x1_0000_0000_0000_0000 == q,
        p % 0x1_0000_0000_0000_0000 == r,
    ensures
        r == 0 ==> (-p) / 0x1_0000_0000_0000_0000 == -q,
        r != 0 ==> (-p) / 0x1_0000_0000_0000_0000 == -q - 1,
{
    let s: int = 0x1_0000_0000_0000_0000;
    vstd::arithmetic::div_mod::lemma_fundamental_div_mod(p, s);
    assert(p == q * s + r) by (nonlinear_arith)
        requires
            p == s * (p / s) + p % s,
            q == p / s,
            r == p % s,
    ;
    if r == 0 {
        assert(-p == (-q) * s + 0) by (nonlinear_arith)
            requires
                p == q * s + r,
                r == 0,
        ;
        lemma_fundamental_div_mod_converse(-p, s, -q, 0);
    } else {
        assert(-p == (-q - 1) * s + (s - r)) by (nonlinear_arith)
            requires
                p == q * s + r,
        ;
        lemma_fundamental_div_mod_converse(-p, s, -q - 1, s - r);
    }
}

/// Arithmetic right shift by 64 is floor division by `2^64`.
proof fn lemma_shr_floor(x: i128)
    ensures
        (x >> 64u32) as int == x as int / unit(),
        i64::MIN <= (x >> 64u32) <= i64::MAX,
{
    assert(x >> 64u32 == x / 0x1_0000_0000_0000_0000i128) by (bit_vector);
    assert(i64::MIN <= (x >> 64u32) <= i64::MAX) by (bit_vector);
}

/// Truncating a raw value to its low 64 bits is the remainder by `2^64`.
proof fn lemma_low_bits_i128(x: i128)
    ensures
        (x as u64) as int == x as int % unit(),
{
    assert((x as u64) == (x % 0x1_0000_0000_0000_0000i128) as u64) by (bit_vector);
    assert(0 <= x as int % unit() < unit());
}

} // verus!
