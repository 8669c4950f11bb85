use shbt_cf::pipeline::{PipelineStats, SeqTracker, LATENCY_BUCKETS};

#[test]
fn fresh_counters_are_zero() {
    let stats = PipelineStats::new();
    assert_eq!(stats.received(), 0);
    assert_eq!(stats.dropped, 0);
    assert_eq!(stats.lock_count, 0);
    assert_eq!(stats.mlock_count, 0);
    assert_eq!(stats.seq_gaps.len(), 256);
    assert_eq!(stats.latency_hist.len(), LATENCY_BUCKETS);
    assert!(stats.p99_bucket().is_none());
}

#[test]
fn sequence_gaps_are_counted_per_channel() {
    let mut stats = PipelineStats::default();
    let mut tracker = SeqTracker::new();
    stats.record_frame(&mut tracker, 1, 0, 10);
    stats.record_frame(&mut tracker, 1, 1, 10);
    stats.record_frame(&mut tracker, 2, 5, 11);
    stats.record_frame(&mut tracker, 1, 3, 10); // gap on channel 1
    stats.record_frame(&mut tracker, 2, 6, 11);
    assert_eq!(stats.received(), 5);
    assert_eq!(stats.seq_gaps[1], 1);
    assert_eq!(stats.seq_gaps[2], 0);
    assert_eq!(stats.latency_hist[10], 3);
    assert_eq!(stats.latency_hist[11], 2);
    stats.set_dropped(4);
    assert_eq!(stats.dropped, 4);
}

#[test]
fn p99_bucket_is_first_bucket_past_99_percent() {
    let mut stats = PipelineStats::default();
    let mut tracker = SeqTracker::new();
    for i in 0..99u64 {
        stats.record_frame(&mut tracker, 3, i, 5);
    }
    stats.record_frame(&mut tracker, 3, 99, 20);
    // total 100, target 99: running totals 99 at bucket 5, 100 at bucket 20.
    assert_eq!(stats.p99_bucket(), Some(20));
    stats.record_frame(&mut tracker, 3, 100, 5);
    // total 101, target 99: bucket 5 already holds 100.
    assert_eq!(stats.p99_bucket(), Some(5));
}
