//! Deterministic partition of a Monte Carlo run over worker threads: worker
//! `t` of `T` owns the contiguous batch `[t·n/T, (t+1)·n/T)` and draws from a
//! private generator seeded with `seed ^ γ·(t+1)`, so results are
//! reproducible for a given seed whatever the scheduling.
use crate::random::{lemma_mul_wrap_injective, mul_wrap};
use vstd::prelude::*;

verus! {

/// The golden-ratio stride `γ` between worker seeds.
pub const WORKER_SEED_STRIDE: u64 = 0x9E37_79B9_7F4A_7C15;

/// Number of workers actually used: at least one, and no more than there are
/// evaluations (one when there are none).
pub open spec fn workers_for(threads: int, n: int) -> int {
    let t = if threads < 1 { 1 } else { threads };
    let m = if n < 1 { 1 } else { n };
    if t < m { t } else { m }
}

/// First evaluation of worker `t`'s batch; worker `t`'s batch ends where
/// worker `t + 1`'s begins.
pub open spec fn batch_begin(t: int, n: int, threads: int) -> int {
    (t * n) / threads
}

/// The seed of worker `t`'s generator.
pub open spec fn worker_seed_spec(seed: u64, t: int) -> u64 {
    seed ^ mul_wrap(0x9E37_79B9_7F4A_7C15, (t + 1) as u64)
}

/// Number of workers for `n` evaluations on `threads` threads.
pub fn worker_count(threads: usize, n: usize) -> (r: usize)
    ensures
        r == workers_for(threads as int, n as int),
        1 <= r,
        r <= threads || threads == 0,
        r <= n || n == 0,
        r == threads || r == n || r == 1,
        1 <= threads <= n ==> r == threads,
        1 <= n <= threads ==> r == n,
        threads == 0 || n == 0 ==> r == 1,
{
    proof {
        law_worker_count(threads as int, n as int);
    }
    let t = if threads < 1 {
        1
    } else {
        threads
    };
    let m = if n < 1 {
        1
    } else {
        n
    };
    if t < m {
        t
    } else {
        m
    }
}

/// The evaluations `[begin, end)` owned by worker `t` of `threads`. The
/// products `(t + 1) · n` must fit in `usize`.
pub fn batch_bounds(t: usize, n: usize, threads: usize) -> (r: (usize, usize))
    requires
        0 < threads,
        t < threads,
        (t + 1) * n <= usize::MAX,
    ensures
        r.0 == batch_begin(t as int, n as int, threads as int),
        r.1 == batch_begin(t + 1, n as int, threads as int),
        r.0 <= r.1 <= n,
{
    proof {
        assert(t * n <= (t + 1) * n) by (nonlinear_arith);
        law_batches_partition(n as int, threads as int, t as int);
    }
    (t * n / threads, (t + 1) * n / threads)
}

/// The seed of worker `t`'s private generator.
pub fn worker_seed(seed: u64, t: usize) -> (r: u64)
    requires
        t < u64::MAX,
    ensures
        r == worker_seed_spec(seed, t as int),
{
    seed ^ WORKER_SEED_STRIDE.wrapping_mul(t as u64 + 1)
}

/// The worker count is `min(max(threads, 1), max(n, 1))`: every thread gets
/// a worker while there are at least as many evaluations as threads, there
/// are never more workers than evaluations, and there is always at least one.
pub proof fn law_worker_count(threads: int, n: int)
    ensures
        1 <= workers_for(threads, n),
        workers_for(threads, n) <= threads || threads < 1,
        workers_for(threads, n) <= n || n < 1,
        1 <= threads <= n ==> workers_for(threads, n) == threads,
        1 <= n <= threads ==> workers_for(threads, n) == n,
        threads < 1 || n < 1 ==> workers_for(threads, n) == 1,
{
}

/// The batches partition the run: the first begins at 0, the last ends at
/// `n`, each ends where the next begins, and each holds `floor(n/T)` or
/// `floor(n/T) + 1` evaluations.
pub proof fn law_batches_partition(n: int, threads: int, t: int)
    requires
        0 <= n,
        0 < threads,
        0 <= t < threads,
    ensures
        batch_begin(0, n, threads) == 0,
        batch_begin(threads, n, threads) == n,
        0 <= batch_begin(t, n, threads) <= batch_begin(t + 1, n, threads) <= n,
        n / threads <= batch_begin(t + 1, n, threads) - batch_begin(t, n, threads) <= n
            / threads + 1,
{
    let a = t * n;
    let b = (t + 1) * n;
    assert(b == a + n) by (nonlinear_arith)
        requires
            a == t * n,
            b == (t + 1) * n,
    ;
    assert(0 * n == 0) by (nonlinear_arith);
    vstd::arithmetic::div_mod::lemma_div_multiples_vanish(n, threads);
    assert(threads * n == n * threads) by (nonlinear_arith);
    assert(0 <= a) by (nonlinear_arith)
        requires
            a == t * n,
            0 <= t,
            0 <= n,
    ;
    assert(b <= threads * n) by (nonlinear_arith)
        requires
            b == (t + 1) * n,
            t + 1 <= threads,
            0 <= n,
    ;
    vstd::arithmetic::div_mod::lemma_div_is_ordered(a, b, threads);
    vstd::arithmetic::div_mod::lemma_div_is_ordered(b, threads * n, threads);
    vstd::arithmetic::div_mod::lemma_div_pos_is_pos(a, threads);
    vstd::arithmetic::div_mod::lemma_fundamental_div_mod(a, threads);
    vstd::arithmetic::div_mod::lemma_fundamental_div_mod(b, threads);
    vstd::arithmetic::div_mod::lemma_fundamental_div_mod(n, threads);
    let qa = a / threads;
    let ra = a % threads;
    let qb = b / threads;
    let rb = b % threads;
    let qn = n / threads;
    let rn = n % threads;
    assert(threads * (qb - qa - qn) == ra + rn - rb) by (nonlinear_arith)
        requires
            a == threads * qa + ra,
            b == threads * qb + rb,
            n == threads * qn + rn,
            b == a + n,
    ;
    assert(0 <= qb - qa - qn <= 1) by (nonlinear_arith)
        requires
            threads * (qb - qa - qn) == ra + rn - rb,
            0 <= ra < threads,
            0 <= rb < threads,
            0 <= rn < threads,
    ;
}

/// Distinct workers draw from distinct seeds.
pub proof fn law_worker_seeds_distinct(seed: u64, t1: int, t2: int)
    requires
        0 <= t1 < u64::MAX,
        0 <= t2 < u64::MAX,
        t1 != t2,
    ensures
        worker_seed_spec(seed, t1) != worker_seed_spec(seed, t2),
{
    let x = mul_wrap(0x9E37_79B9_7F4A_7C15, (t1 + 1) as u64);
    let y = mul_wrap(0x9E37_79B9_7F4A_7C15, (t2 + 1) as u64);
    if seed ^ x == seed ^ y {
        assert(x == y) by (bit_vector)
            requires
                seed ^ x == seed ^ y,
        ;
        assert(mul_wrap((t1 + 1) as u64, 0x9E37_79B9_7F4A_7C15) == x);
        assert(mul_wrap((t2 + 1) as u64, 0x9E37_79B9_7F4A_7C15) == y);
        assert((t1 + 1) * 0x9E37_79B9_7F4A_7C15 == 0x9E37_79B9_7F4A_7C15 * (t1 + 1)) by (
        nonlinear_arith);
        assert((t2 + 1) * 0x9E37_79B9_7F4A_7C15 == 0x9E37_79B9_7F4A_7C15 * (t2 + 1)) by (
        nonlinear_arith);
        lemma_mul_wrap_injective(
            (t1 + 1) as u64,
            (t2 + 1) as u64,
            0x9E37_79B9_7F4A_7C15,
            0xf1de_83e1_9937_733d,
            10771413168148108919,
        );
    }
}

} // verus!
