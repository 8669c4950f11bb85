use shbt_cf::montecarlo::{batch_bounds, worker_count, worker_seed, WORKER_SEED_STRIDE};

#[test]
fn batches_partition_the_run() {
    let n = 1_000_003usize;
    let threads = worker_count(4, n);
    assert_eq!(threads, 4);
    let mut next = 0;
    for t in 0..threads {
        let (begin, end) = batch_bounds(t, n, threads);
        assert_eq!(begin, next);
        let len = end - begin;
        assert!(len == n / threads || len == n / threads + 1);
        next = end;
    }
    assert_eq!(next, n);
    assert_eq!(batch_bounds(1, 10, 4), (2, 5));
}

#[test]
fn worker_count_is_clamped() {
    assert_eq!(worker_count(0, 100), 1);
    assert_eq!(worker_count(8, 3), 3);
    assert_eq!(worker_count(8, 0), 1);
    assert_eq!(worker_count(2, 100), 2);
}

#[test]
fn worker_seeds_are_distinct_and_documented() {
    assert_eq!(worker_seed(42, 0), 42 ^ WORKER_SEED_STRIDE);
    assert_eq!(worker_seed(42, 1), 42 ^ WORKER_SEED_STRIDE.wrapping_mul(2));
    let seeds: Vec<u64> = (0..16).map(|t| worker_seed(7, t)).collect();
    for i in 0..seeds.len() {
        for j in 0..i {
            assert_ne!(seeds[i], seeds[j]);
        }
    }
}
