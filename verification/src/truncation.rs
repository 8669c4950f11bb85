//! Harmonic truncations of the RCWA and space-time Floquet solvers.
use vstd::prelude::*;

verus! {

/// Fourier-order truncation of a crossed grating: orders `-m..=m` along `x`
/// and `-n..=n` along `y`.
#[derive(Clone, Copy, Debug, PartialEq, Eq)]
pub struct Truncation {
    /// Highest retained order along `x`.
    pub m: usize,
    /// Highest retained order along `y` (0 for `y`-invariant gratings).
    pub n: usize,
}

impl Truncation {
    /// The harmonic count fits in `usize`.
    pub open spec fn count_fits(self) -> bool {
        (2 * self.m + 1) * (2 * self.n + 1) <= usize::MAX
    }

    /// The truncation's sizes fit the machine: the harmonic count fits in
    /// `usize` and every order, and twice it, fits in `i64`.
    pub open spec fn fits(self) -> bool {
        &&& self.count_fits()
        &&& 2 * self.m <= i64::MAX
        &&& 2 * self.n <= i64::MAX
    }

    /// Number of retained harmonics `(2M+1)(2N+1)`.
    pub open spec fn count_spec(self) -> int {
        (2 * self.m + 1) * (2 * self.n + 1)
    }

    /// Whether `(m, n)` is a retained harmonic.
    pub open spec fn retains(self, m: int, n: int) -> bool {
        -(self.m as int) <= m <= self.m && -(self.n as int) <= n <= self.n
    }

    /// Row-major position of harmonic `(m, n)`: `x` order outer, `y` inner.
    pub open spec fn index_spec(self, m: int, n: int) -> int {
        (m + self.m) * (2 * self.n + 1) + (n + self.n)
    }

    /// Total number of retained harmonics `(2M+1)(2N+1)`.
    pub fn count(self) -> (r: usize)
        requires
            self.count_fits(),
        ensures
            r == self.count_spec(),
    {
        proof {
            lemma_factors_fit((2 * self.m + 1) as int, (2 * self.n + 1) as int);
        }
        (2 * self.m + 1) * (2 * self.n + 1)
    }

    /// Row/column index of a retained harmonic `(m, n)`.
    pub fn index(self, m: i64, n: i64) -> (r: usize)
        requires
            self.fits(),
            self.retains(m as int, n as int),
        ensures
            r == self.index_spec(m as int, n as int),
            r < self.count_spec(),
    {
        proof {
            lemma_factors_fit((2 * self.m + 1) as int, (2 * self.n + 1) as int);
        }
        let mi = (m + self.m as i64) as usize;
        let ni = (n + self.n as i64) as usize;
        let ny = 2 * self.n + 1;
        proof {
            lemma_index_bound(mi as int, ni as int, (2 * self.m + 1) as int, ny as int);
        }
        mi * ny + ni
    }

    /// Harmonic `(m, n)` of a row/column index.
    pub fn orders(self, p: usize) -> (r: (i64, i64))
        requires
            self.fits(),
            p <= i64::MAX,
        ensures
            r.0 == p as int / (2 * self.n + 1) - self.m,
            r.1 == p as int % (2 * self.n + 1) - self.n,
    {
        proof {
            lemma_factors_fit((2 * self.m + 1) as int, (2 * self.n + 1) as int);
        }
        let ny = 2 * self.n + 1;
        ((p / ny) as i64 - self.m as i64, (p % ny) as i64 - self.n as i64)
    }
}

/// Both factors of a product of positive numbers that fits in `usize` fit too.
proof fn lemma_factors_fit(a: int, b: int)
    requires
        a >= 1,
        b >= 1,
        a * b <= usize::MAX,
    ensures
        a <= usize::MAX,
        b <= usize::MAX,
{
    assert(a <= a * b && b <= a * b) by (nonlinear_arith)
        requires
            a >= 1,
            b >= 1,
    ;
}

/// A position in a row-major grid lies below the grid size.
proof fn lemma_index_bound(i: int, j: int, rows: int, cols: int)
    requires
        0 <= i < rows,
        0 <= j < cols,
    ensures
        i * cols + j < rows * cols,
        0 <= i * cols + j,
{
    assert(i * cols + j < rows * cols) by (nonlinear_arith)
        requires
            0 <= i < rows,
            0 <= j < cols,
    ;
    assert(0 <= i * cols) by (nonlinear_arith)
        requires
            0 <= i,
            0 <= cols,
    ;
}

/// Indexing is a bijection between the retained harmonics and
/// `0..count`: the orders of a harmonic's index are that harmonic, and the
/// index of an in-range position's orders is that position.
pub proof fn law_index_orders_bijection(t: Truncation, m: int, n: int, p: int)
    ensures
        t.retains(m, n) ==> 0 <= t.index_spec(m, n) < t.count_spec()
            && t.index_spec(m, n) / (2 * t.n + 1) - t.m == m
            && t.index_spec(m, n) % (2 * t.n + 1) - t.n == n,
        0 <= p < t.count_spec() ==> t.retains(p / (2 * t.n + 1) - t.m, p % (2 * t.n + 1) - t.n)
            && t.index_spec(p / (2 * t.n + 1) - t.m, p % (2 * t.n + 1) - t.n) == p,
{
    let ny = 2 * t.n + 1;
    if t.retains(m, n) {
        lemma_index_bound(m + t.m, n + t.n, (2 * t.m + 1) as int, ny);
        vstd::arithmetic::div_mod::lemma_fundamental_div_mod_converse(
            t.index_spec(m, n),
            ny,
            m + t.m,
            n + t.n,
        );
    }
    if 0 <= p < t.count_spec() {
        let q = p / ny;
        let r = p % ny;
        vstd::arithmetic::div_mod::lemma_fundamental_div_mod(p, ny);
        assert(p == q * ny + r) by (nonlinear_arith)
            requires
                p == ny * (p / ny) + p % ny,
                q == p / ny,
                r == p % ny,
        ;
        assert(0 <= r < ny);
        assert(0 <= q < 2 * t.m + 1) by (nonlinear_arith)
            requires
                0 <= p < (2 * t.m + 1) * ny,
                p == q * ny + r,
                0 <= r < ny,
                ny > 0,
        ;
        assert(t.index_spec(q - t.m, r - t.n) == q * ny + r);
    }
}

/// Space-time Floquet truncation: spatial orders along `x` and `y` and
/// temporal sidebands.
#[derive(Clone, Copy, Debug, PartialEq, Eq)]
pub struct FloquetTruncation {
    /// Number of spatial orders along x.
    pub spatial_x: usize,
    /// Number of spatial orders along y.
    pub spatial_y: usize,
    /// Number of retained temporal sidebands.
    pub temporal: usize,
}

impl FloquetTruncation {
    /// The production truncation: 25 x 25 spatial orders and 15 temporal
    /// sidebands.
    pub fn update_8() -> (r: FloquetTruncation)
        ensures
            r.spatial_x == 25,
            r.spatial_y == 25,
            r.temporal == 15,
    {
        FloquetTruncation { spatial_x: 25, spatial_y: 25, temporal: 15 }
    }

    /// Number of composite harmonics.
    pub open spec fn harmonics_spec(self) -> int {
        self.spatial_x * self.spatial_y * self.temporal
    }

    /// Number of composite harmonics. The products must fit in `usize`.
    pub fn harmonics(self) -> (r: usize)
        requires
            self.spatial_x * self.spatial_y <= usize::MAX,
            self.harmonics_spec() <= usize::MAX,
        ensures
            r == self.harmonics_spec(),
    {
        self.spatial_x * self.spatial_y * self.temporal
    }

    /// Number of transverse field unknowns in the first-order system.
    pub fn system_dimension(self) -> (r: usize)
        requires
            self.spatial_x * self.spatial_y <= usize::MAX,
            4 * self.harmonics_spec() <= usize::MAX,
        ensures
            r == 4 * self.harmonics_spec(),
    {
        4 * self.harmonics()
    }
}

} // verus!
