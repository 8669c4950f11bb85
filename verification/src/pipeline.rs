//! Ingestion statistics and the per-frame accounting of the drain loop: the
//! loop drains the SPSC ring, scores each frame, and records what it saw here.
use std::sync::Arc;
use vstd::prelude::*;

verus! {

/// Number of latency histogram buckets (log₂-seconds per frame, `2⁻³²…` up).
pub const LATENCY_BUCKETS: usize = 33;

/// Number of channel tags tracked for sequence gaps.
pub const CHANNEL_SLOTS: usize = 256;

/// Sum modulo `2^64`, as the shared counters count.
pub open spec fn bump(x: u64) -> u64 {
    ((x as nat + 1) % 0x1_0000_0000_0000_0000) as u64
}

/// Sum of a histogram.
pub open spec fn total_of(h: Seq<u64>) -> nat
    decreases h.len(),
{
    if h.len() == 0 {
        0
    } else {
        total_of(h.drop_last()) + h.last() as nat
    }
}

/// The 99th-percentile bucket: the first bucket whose running total exceeds
/// `floor(99 · total / 100)`.
pub open spec fn is_p99_bucket(h: Seq<u64>, b: int) -> bool {
    &&& 0 <= b < h.len()
    &&& total_of(h.take(b + 1)) > (99 * total_of(h)) / 100
    &&& total_of(h.take(b)) <= (99 * total_of(h)) / 100
}

/// Ingestion statistics.
pub struct PipelineStats {
    /// Frames consumed.
    pub received: u64,
    /// Frames the producer dropped (ring full).
    pub dropped: u64,
    /// Sequence gaps per channel tag.
    pub seq_gaps: Vec<u64>,
    /// Mutex acquisitions performed by the pipeline.
    pub lock_count: u64,
    /// `mlock`/`mlockall` calls — always 0.
    pub mlock_count: u64,
    /// Log₂-bucketed per-frame processing latency histogram.
    pub latency_hist: Vec<u64>,
}

/// Last sequence number seen per channel tag; `u64::MAX` marks a channel not
/// seen yet.
pub struct SeqTracker {
    /// Last sequence number per channel tag.
    pub last_seq: Vec<u64>,
}

/// A vector of `n` zeros.
fn zeros(n: usize) -> (r: Vec<u64>)
    ensures
        r@ == Seq::new(n as nat, |i: int| 0u64),
{
    let mut v: Vec<u64> = Vec::new();
    while v.len() < n
        invariant
            v@.len() <= n,
            forall|i: int| 0 <= i < v@.len() ==> v@[i] == 0,
        decreases n - v@.len(),
    {
        v.push(0);
    }
    assert(v@ =~= Seq::new(n as nat, |i: int| 0u64));
    v
}

impl SeqTracker {
    /// A tracker that has seen no channel yet.
    pub fn new() -> (r: SeqTracker)
        ensures
            r.last_seq@ == Seq::new(256, |i: int| u64::MAX),
    {
        let mut v: Vec<u64> = Vec::new();
        while v.len() < CHANNEL_SLOTS
            invariant
                v@.len() <= 256,
                forall|i: int| 0 <= i < v@.len() ==> v@[i] == u64::MAX,
            decreases 256 - v@.len(),
        {
            v.push(u64::MAX);
        }
        assert(v@ =~= Seq::new(256, |i: int| u64::MAX));
        SeqTracker { last_seq: v }
    }
}

impl PipelineStats {
    /// The counter vectors have one slot per channel tag and per latency
    /// bucket.
    pub open spec fn wf(&self) -> bool {
        self.seq_gaps@.len() == 256 && self.latency_hist@.len() == 33
    }

    /// Zeroed counters.
    pub fn counters() -> (r: PipelineStats)
        ensures
            r.wf(),
            r.received == 0,
            r.dropped == 0,
            r.lock_count == 0,
            r.mlock_count == 0,
            forall|i: int| 0 <= i < 256 ==> r.seq_gaps@[i] == 0,
            forall|i: int| 0 <= i < 33 ==> r.latency_hist@[i] == 0,
    {
        PipelineStats {
            received: 0,
            dropped: 0,
            seq_gaps: zeros(CHANNEL_SLOTS),
            lock_count: 0,
            mlock_count: 0,
            latency_hist: zeros(LATENCY_BUCKETS),
        }
    }

    /// Fresh counters, shareable.
    pub fn new() -> (r: Arc<PipelineStats>)
        ensures
            r.wf(),
            r.received == 0,
            r.dropped == 0,
            r.lock_count == 0,
            r.mlock_count == 0,
            forall|i: int| 0 <= i < 256 ==> r.seq_gaps@[i] == 0,
            forall|i: int| 0 <= i < 33 ==> r.latency_hist@[i] == 0,
    {
        Arc::new(PipelineStats::counters())
    }

    /// Frames received.
    pub fn received(&self) -> (r: u64)
        ensures
            r == self.received,
    {
        self.received
    }

    /// Records the producer's drop count as last observed.
    pub fn set_dropped(&mut self, dropped: u64)
        ensures
            final(self).dropped == dropped,
            final(self).received == old(self).received,
            final(self).seq_gaps@ == old(self).seq_gaps@,
            final(self).latency_hist@ == old(self).latency_hist@,
            final(self).lock_count == old(self).lock_count,
            final(self).mlock_count == old(self).mlock_count,
    {
        self.dropped = dropped;
    }

    /// Accounts one consumed frame of channel `channel_tag` with sequence
    /// number `seq`, processed with a latency that fell in histogram bucket
    /// `bucket`. A sequence gap is counted when the channel was seen before
    /// and `seq` does not follow its last sequence number.
    pub fn record_frame(
        &mut self,
        tracker: &mut SeqTracker,
        channel_tag: u8,
        seq: u64,
        bucket: usize,
    )
        requires
            old(self).wf(),
            old(tracker).last_seq@.len() == 256,
            bucket < 33,
        ensures
            final(self).wf(),
            final(tracker).last_seq@ == old(tracker).last_seq@.update(channel_tag as int, seq),
            final(self).received == bump(old(self).received),
            final(self).latency_hist@ == old(self).latency_hist@.update(
                bucket as int,
                bump(old(self).latency_hist@[bucket as int]),
            ),
            ({
                let last = old(tracker).last_seq@[channel_tag as int];
                let gap = last != u64::MAX && seq != last + 1;
                final(self).seq_gaps@ == if gap {
                    old(self).seq_gaps@.update(
                        channel_tag as int,
                        bump(old(self).seq_gaps@[channel_tag as int]),
                    )
                } else {
                    old(self).seq_gaps@
                }
            }),
            final(self).dropped == old(self).dropped,
            final(self).lock_count == old(self).lock_count,
            final(self).mlock_count == old(self).mlock_count,
    {
        let ch = channel_tag as usize;
        let last = tracker.last_seq[ch];
        if last != u64::MAX && seq != last + 1 {
            let g = self.seq_gaps[ch];
            self.seq_gaps.set(ch, g.wrapping_add(1));
        }
        tracker.last_seq.set(ch, seq);
        self.received = self.received.wrapping_add(1);
        let h = self.latency_hist[bucket];
        self.latency_hist.set(bucket, h.wrapping_add(1));
    }

    /// The 99th-percentile latency bucket, or `None` when nothing was
    /// recorded. The histogram total (times 99) must fit in 64 bits.
    pub fn p99_bucket(&self) -> (r: Option<usize>)
        requires
            99 * total_of(self.latency_hist@) <= u64::MAX,
        ensures
            r is None <==> total_of(self.latency_hist@) == 0,
            r matches Some(b) ==> is_p99_bucket(self.latency_hist@, b as int),
    {
        let h = &self.latency_hist;
        let mut total: u64 = 0;
        let mut i: usize = 0;
        while i < h.len()
            invariant
                i <= h@.len(),
                h@ == self.latency_hist@,
                total == total_of(h@.take(i as int)),
                99 * total_of(h@) <= u64::MAX,
            decreases h@.len() - i,
        {
            proof {
                lemma_total_prefix_le(h@, (i + 1) as int);
                assert(h@.take((i + 1) as int).drop_last() =~= h@.take(i as int));
            }
            total = total + h[i];
            i = i + 1;
        }
        proof {
            assert(h@.take(h@.len() as int) =~= h@);
        }
        if total == 0 {
            return None;
        }
        let target = (99 * total) / 100;
        let mut run: u64 = 0;
        let mut b: usize = 0;
        while b < h.len()
            invariant
                b <= h@.len(),
                h@ == self.latency_hist@,
                run == total_of(h@.take(b as int)),
                run <= target,
                total == total_of(h@),
                total > 0,
                target == (99 * total) / 100,
                99 * total <= u64::MAX,
            decreases h@.len() - b,
        {
            proof {
                lemma_total_prefix_le(h@, (b + 1) as int);
                assert(h@.take((b + 1) as int).drop_last() =~= h@.take(b as int));
            }
            run = run + h[b];
            if run > target {
                return Some(b);
            }
            b = b + 1;
        }
        proof {
            assert(h@.take(h@.len() as int) =~= h@);
            assert(false);
        }
        None
    }
}

/// A prefix of a histogram sums to no more than the whole.
proof fn lemma_total_prefix_le(h: Seq<u64>, k: int)
    requires
        0 <= k <= h.len(),
    ensures
        total_of(h.take(k)) <= total_of(h),
    decreases h.len(),
{
    if k < h.len() {
        lemma_total_prefix_le(h.drop_last(), k);
        assert(h.drop_last().take(k) =~= h.take(k));
    } else {
        assert(h.take(k) =~= h);
    }
}

impl Default for PipelineStats {
    fn default() -> (r: PipelineStats)
        ensures
            r.wf(),
            r.received == 0,
            r.dropped == 0,
    {
        PipelineStats::counters()
    }
}

} // verus!
