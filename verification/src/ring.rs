//! Single-producer single-consumer ring buffer of telemetry frames.
//!
//! The control block holds monotonic write and read counters (`head`,
//! `tail`) that wrap around the machine word; frame `i` lives in slot
//! `i mod capacity`, and the capacity is a power of two so that slot
//! numbering stays continuous across the wrap. A full ring refuses new frames
//! (and, with [`Producer::push`], counts them as dropped) instead of
//! overwriting unread ones.
use crate::telemetry::{Frame, FRAME_BYTES};
use vstd::arithmetic::div_mod::{
    lemma_fundamental_div_mod, lemma_mod_multiples_vanish, lemma_small_mod,
};
use vstd::arithmetic::power2::{lemma_pow2_adds, lemma_pow2_strictly_increases, pow2};
use vstd::prelude::*;

verus! {

/// `0x5348_4254_5249_4e47` = "SHBTRING".
pub const RING_MAGIC: u64 = 0x5348_4254_5249_4e47;

/// Bytes of the control block that precedes the frame slots.
pub const HEADER_BYTES: usize = 64;

/// The number of distinct machine-word values, `2^usize::BITS`.
pub open spec fn word() -> int {
    usize::MAX as int + 1
}

/// Whether `c` is a power of two.
pub open spec fn is_pow2(c: int) -> bool {
    exists|k: nat| c == pow2(k)
}

/// Total bytes of a region holding `capacity` frames.
pub open spec fn region_len_spec(capacity: int) -> int {
    64 + capacity * 64
}

/// Number of frames between the read and write counters, modulo the word.
pub open spec fn pending_of(head: usize, tail: usize) -> int {
    (head as int - tail as int) % word()
}

/// Total bytes of a region holding `capacity` frames.
pub fn region_len(capacity: usize) -> (r: usize)
    requires
        region_len_spec(capacity as int) <= usize::MAX,
    ensures
        r == region_len_spec(capacity as int),
{
    HEADER_BYTES + capacity * FRAME_BYTES
}

/// The smallest power of two at least `x` (one for zero). The result must fit
/// in a word.
pub fn next_power_of_two(x: usize) -> (r: usize)
    requires
        x <= usize::MAX / 2 + 1,
    ensures
        is_pow2(r as int),
        r >= x,
        r == 1 || r / 2 < x,
{
    let mut p: usize = 1;
    let ghost mut k: nat = 0;
    proof {
        vstd::arithmetic::power2::lemma2_to64();
    }
    while p < x
        invariant
            p == pow2(k),
            p >= 1,
            p == 1 || p / 2 < x,
            x <= usize::MAX / 2 + 1,
        decreases usize::MAX - p,
    {
        proof {
            vstd::arithmetic::power2::lemma_pow2_adds(k, 1);
            vstd::arithmetic::power2::lemma2_to64();
        }
        p = p * 2;
        proof {
            k = k + 1;
        }
    }
    proof {
        lemma_pow2_witness(p as int, k);
    }
    p
}

/// `p == pow2(k)` witnesses that `p` is a power of two.
proof fn lemma_pow2_witness(p: int, k: nat)
    requires
        p == pow2(k),
    ensures
        is_pow2(p),
{
}

/// Ring control block shared between producer and consumer.
#[derive(Clone, Copy, Debug, PartialEq, Eq)]
pub struct RingHeader {
    /// Monotonic write index (slot = `head % capacity`). Producer-owned.
    pub head: usize,
    /// Monotonic read index. Consumer-owned.
    pub tail: usize,
    /// Frames dropped by the producer because the ring was full.
    pub dropped: usize,
    /// Number of frame slots (power of two).
    pub capacity: usize,
    /// Magic/version tag for handshakes.
    pub magic: u64,
}

/// Abstract state of a ring.
pub struct RingView {
    /// Raw write counter.
    pub head: usize,
    /// Raw read counter.
    pub tail: usize,
    /// Unread frames, oldest first.
    pub contents: Seq<Frame>,
    /// Number of frame slots.
    pub capacity: nat,
    /// Frames discarded because the ring was full.
    pub dropped: usize,
    /// Region length in bytes.
    pub bytes: nat,
}

/// A ring region: control block followed by `capacity` frame slots.
pub struct Region {
    header: RingHeader,
    slots: Vec<Frame>,
    len: usize,
}

impl View for Region {
    type V = RingView;

    closed spec fn view(&self) -> RingView {
        RingView {
            head: self.header.head,
            tail: self.header.tail,
            contents: Seq::new(
                pending_of(self.header.head, self.header.tail) as nat,
                |k: int| self.slots@[(self.header.tail + k) % (self.header.capacity as int)],
            ),
            capacity: self.header.capacity as nat,
            dropped: self.header.dropped,
            bytes: self.len as nat,
        }
    }
}

/// The outcome of offering `frame` to a ring in state `v`: whether it was
/// accepted, and the state after.
pub open spec fn push_outcome(v: RingView, frame: Frame) -> (bool, RingView) {
    if v.contents.len() < v.capacity {
        (
            true,
            RingView {
                head: ((v.head + 1) % word()) as usize,
                contents: v.contents.push(frame),
                ..v
            },
        )
    } else {
        (false, v)
    }
}

/// The outcome of taking the oldest frame from a ring in state `v`.
pub open spec fn pop_outcome(v: RingView) -> (Option<Frame>, RingView) {
    if v.contents.len() == 0 {
        (None, v)
    } else {
        (
            Some(v.contents[0]),
            RingView {
                tail: ((v.tail + 1) % word()) as usize,
                contents: v.contents.drop_first(),
                ..v
            },
        )
    }
}

impl Region {
    /// Well-formedness: a power-of-two number of slots, never more unread
    /// frames than slots, the region length matching the capacity, and the
    /// handshake tag in place.
    pub closed spec fn wf(&self) -> bool {
        &&& self.header.capacity > 0
        &&& is_pow2(self.header.capacity as int)
        &&& self.slots@.len() == self.header.capacity
        &&& pending_of(self.header.head, self.header.tail) <= self.header.capacity
        &&& self.len as int == region_len_spec(self.header.capacity as int)
        &&& self.header.magic == RING_MAGIC
    }

    /// Process-local region with `capacity` (a power of two) zeroed slots.
    pub fn heap(capacity: usize) -> (r: Region)
        requires
            is_pow2(capacity as int),
            region_len_spec(capacity as int) <= usize::MAX,
        ensures
            r.wf(),
            r@.contents.len() == 0,
            r@.capacity == capacity,
            r@.dropped == 0,
            r@.head == 0,
            r@.tail == 0,
            r@.bytes == region_len_spec(capacity as int),
            r.header_spec().magic == RING_MAGIC,
    {
        proof {
            lemma_pow2_positive_divides_word(capacity as int);
        }
        let len = region_len(capacity);
        let mut slots: Vec<Frame> = Vec::new();
        while slots.len() < capacity
            invariant
                slots@.len() <= capacity,
            decreases capacity - slots@.len(),
        {
            slots.push(Frame::zero());
        }
        let header = RingHeader { head: 0, tail: 0, dropped: 0, capacity, magic: RING_MAGIC };
        let r = Region { header, slots, len };
        proof {
            lemma_small_mod(0, word() as nat);
            assert(pending_of(0, 0) == 0);
            assert(r@.contents =~= Seq::<Frame>::empty());
        }
        r
    }

    /// The control block.
    pub closed spec fn header_spec(&self) -> RingHeader {
        self.header
    }

    /// A copy of the control block.
    pub fn header(&self) -> (r: RingHeader)
        ensures
            r == self.header_spec(),
            r.head == self@.head,
            r.tail == self@.tail,
            r.dropped == self@.dropped,
            r.capacity == self@.capacity,
    {
        self.header
    }

    /// Number of frame slots.
    pub fn capacity(&self) -> (r: usize)
        ensures
            r == self@.capacity,
    {
        self.header.capacity
    }

    /// Region length in bytes.
    pub fn len(&self) -> (r: usize)
        ensures
            r == self@.bytes,
            self.wf() ==> r == region_len_spec(self@.capacity as int),
    {
        self.len
    }

    /// Whether the region is empty (never for a well-formed region — kept
    /// for API completeness).
    pub fn is_empty(&self) -> (r: bool)
        ensures
            r == (self@.bytes == 0),
            self.wf() ==> !r,
    {
        self.len == 0
    }

    /// Non-blocking push; returns `false` when the ring is full. Does not
    /// account the frame as dropped.
    pub fn try_push(&mut self, frame: Frame) -> (r: bool)
        requires
            old(self).wf(),
        ensures
            final(self).wf(),
            final(self).header_spec().magic == old(self).header_spec().magic,
            (r, final(self)@) == push_outcome(old(self)@, frame),
    {
        let head = self.header.head;
        let tail = self.header.tail;
        let cap = self.header.capacity;
        proof {
            lemma_pow2_positive_divides_word(cap as int);
            lemma_wrapping_sub(head, tail);
        }
        if head.wrapping_sub(tail) >= cap {
            return false;
        }
        let ghost old_self = *self;
        let ghost p = pending_of(head, tail);
        let slot = head % cap;
        proof {
            lemma_counter_slot(head, tail, cap as int);
        }
        self.slots.set(slot, frame);
        self.header.head = head.wrapping_add(1);
        proof {
            let new_head = self.header.head;
            lemma_counter_advance(head, tail, cap as int);
            let nv = self@;
            let ov = old_self@;
            let expect = ov.contents.push(frame);
            assert(nv.contents.len() == expect.len());
            assert forall|k: int| 0 <= k < nv.contents.len() implies nv.contents[k] == expect[k] by {
                if k < p {
                    lemma_slots_distinct(tail as int, k, p, cap as int);
                }
            }
            assert(nv.contents =~= expect);
        }
        true
    }

    /// Pops the oldest frame, or `None` when empty.
    pub fn pop(&mut self) -> (r: Option<Frame>)
        requires
            old(self).wf(),
        ensures
            final(self).wf(),
            final(self).header_spec().magic == old(self).header_spec().magic,
            (r, final(self)@) == pop_outcome(old(self)@),
    {
        let head = self.header.head;
        let tail = self.header.tail;
        let cap = self.header.capacity;
        proof {
            lemma_pow2_positive_divides_word(cap as int);
            lemma_wrapping_sub(head, tail);
        }
        if tail == head {
            return None;
        }
        let ghost old_self = *self;
        proof {
            assert(pending_of(head, tail) != 0) by {
                if pending_of(head, tail) == 0 {
                    lemma_small_mod(0, word() as nat);
                }
            }
        }
        let frame = self.slots[tail % cap];
        self.header.tail = tail.wrapping_add(1);
        proof {
            lemma_counter_retire(head, tail, cap as int);
            let nv = self@;
            let ov = old_self@;
            assert(frame == ov.contents[0]);
            assert(nv.contents =~= ov.contents.drop_first());
        }
        Some(frame)
    }

    /// Unread frames currently buffered: the distance from the read counter
    /// to the write counter, across the wrap of the word.
    pub fn pending(&self) -> (r: usize)
        requires
            self.wf(),
        ensures
            r == self@.contents.len(),
            r <= self@.capacity,
    {
        proof {
            lemma_wrapping_sub(self.header.head, self.header.tail);
        }
        self.header.head.wrapping_sub(self.header.tail)
    }

    /// Frames dropped due to back-pressure.
    pub fn dropped(&self) -> (r: usize)
        ensures
            r == self@.dropped,
    {
        self.header.dropped
    }

    /// Counts one frame as dropped (the counter wraps around the word).
    fn note_drop(&mut self)
        requires
            old(self).wf(),
        ensures
            final(self).wf(),
            final(self).header_spec().magic == old(self).header_spec().magic,
            final(self)@ == (RingView {
                dropped: ((old(self)@.dropped + 1) % word()) as usize,
                ..old(self)@
            }),
    {
        let ghost d = self.header.dropped;
        self.header.dropped = self.header.dropped.wrapping_add(1);
        proof {
            if d == usize::MAX {
                vstd::arithmetic::div_mod::lemma_mod_self_0(word());
            } else {
                lemma_small_mod((d + 1) as nat, word() as nat);
            }
            assert(self@.contents =~= old(self)@.contents);
        }
    }
}

/// A power of two that fits in a word divides the word size.
proof fn lemma_pow2_positive_divides_word(c: int)
    requires
        is_pow2(c),
        c <= usize::MAX,
    ensures
        c > 0,
        word() % c == 0,
{
    let k = choose|k: nat| c == pow2(k);
    vstd::arithmetic::power2::lemma_pow2_pos(k);
    vstd::arithmetic::power2::lemma2_to64();
    let bits: nat = if usize::MAX == 0xffff_ffff { 32 } else { 64 };
    assert(word() == pow2(bits));
    if k >= bits {
        if k > bits {
            lemma_pow2_strictly_increases(bits, k);
        }
        assert(false);
    }
    let rest = (bits - k) as nat;
    lemma_pow2_adds(k, rest);
    assert(word() == c * pow2(rest));
    vstd::arithmetic::div_mod::lemma_mod_multiples_basic(pow2(rest) as int, c);
    assert(pow2(rest) * c == c * pow2(rest)) by (nonlinear_arith);
}

/// `wrapping_sub` of the counters is the pending count.
proof fn lemma_wrapping_sub(head: usize, tail: usize)
    ensures
        head.wrapping_sub(tail) as int == pending_of(head, tail),
        0 <= pending_of(head, tail) < word(),
{
    if head as int - tail as int >= 0 {
        lemma_small_mod((head - tail) as nat, word() as nat);
    } else {
        lemma_mod_multiples_vanish(1, head as int - tail as int, word());
        lemma_small_mod((head as int - tail as int + word()) as nat, word() as nat);
    }
}

/// Adding a multiple of the word does not change a residue modulo a divisor
/// of the word.
proof fn lemma_mod_word(x: int, t: int, c: int)
    requires
        c > 0,
        word() % c == 0,
    ensures
        (x + t * word()) % c == x % c,
{
    let q = word() / c;
    lemma_fundamental_div_mod(word(), c);
    assert(t * word() == c * (t * q)) by (nonlinear_arith)
        requires
            word() == c * q,
    ;
    lemma_mod_multiples_vanish(t * q, x, c);
}

/// The write counter's slot is the one just past the unread frames.
proof fn lemma_counter_slot(head: usize, tail: usize, c: int)
    requires
        c > 0,
        word() % c == 0,
    ensures
        head as int % c == (tail as int + pending_of(head, tail)) % c,
{
    let p = pending_of(head, tail);
    lemma_fundamental_div_mod(head as int - tail as int, word());
    let t = (head as int - tail as int) / word();
    assert(head as int == tail as int + p + t * word()) by (nonlinear_arith)
        requires
            head as int - tail as int == word() * t + p,
    ;
    lemma_mod_word(tail as int + p, t, c);
}

/// Advancing the write counter grows the pending count by one.
proof fn lemma_counter_advance(head: usize, tail: usize, c: int)
    requires
        c > 0,
        c <= usize::MAX,
        word() % c == 0,
        pending_of(head, tail) < c,
    ensures
        pending_of(head.wrapping_add(1), tail) == pending_of(head, tail) + 1,
{
    lemma_wrapping_sub(head, tail);
    let p = pending_of(head, tail);
    let h2 = head.wrapping_add(1);
    lemma_wrapping_sub(h2, tail);
    lemma_fundamental_div_mod(head as int - tail as int, word());
    let t = (head as int - tail as int) / word();
    assert(head as int - tail as int == p + t * word()) by (nonlinear_arith)
        requires
            head as int - tail as int == word() * t + p,
    ;
    if head == usize::MAX {
        assert(h2 == 0);
        assert(h2 as int - tail as int == p + 1 + (t - 1) * word()) by (nonlinear_arith)
            requires
                head as int - tail as int == p + t * word(),
                head as int == word() - 1,
                h2 == 0,
        ;
        lemma_mod_multiples_vanish(t - 1, p + 1, word());
        assert((word() * (t - 1) + (p + 1)) == p + 1 + (t - 1) * word()) by (nonlinear_arith);
    } else {
        assert(h2 as int == head as int + 1);
        lemma_mod_multiples_vanish(t, p + 1, word());
        assert((word() * t + (p + 1)) == p + 1 + t * word()) by (nonlinear_arith);
    }
    lemma_small_mod((p + 1) as nat, word() as nat);
}

/// Advancing the read counter shrinks the pending count by one and moves
/// every remaining frame one position forward.
proof fn lemma_counter_retire(head: usize, tail: usize, c: int)
    requires
        c > 0,
        word() % c == 0,
        0 < pending_of(head, tail),
    ensures
        pending_of(head, tail.wrapping_add(1)) == pending_of(head, tail) - 1,
        forall|k: int|
            0 <= k ==> #[trigger] ((tail.wrapping_add(1) as int + k) % c) == (tail as int + 1
                + k) % c,
{
    lemma_wrapping_sub(head, tail);
    let p = pending_of(head, tail);
    let t2 = tail.wrapping_add(1);
    lemma_fundamental_div_mod(head as int - tail as int, word());
    let t = (head as int - tail as int) / word();
    assert(head as int - tail as int == p + t * word()) by (nonlinear_arith)
        requires
            head as int - tail as int == word() * t + p,
    ;
    if tail == usize::MAX {
        assert(t2 == 0);
        assert(head as int - t2 as int == (p - 1) + (t + 1) * word()) by (nonlinear_arith)
            requires
                head as int - tail as int == p + t * word(),
                tail as int == word() - 1,
                t2 == 0,
        ;
        lemma_mod_multiples_vanish(t + 1, p - 1, word());
        assert(word() * (t + 1) + (p - 1) == (p - 1) + (t + 1) * word()) by (nonlinear_arith);
        assert forall|k: int| 0 <= k implies #[trigger] ((t2 as int + k) % c) == (tail as int + 1
            + k) % c by {
            lemma_mod_word(t2 as int + k, 1, c);
        }
    } else {
        assert(t2 as int == tail as int + 1);
        lemma_mod_multiples_vanish(t, p - 1, word());
        assert(word() * t + (p - 1) == (p - 1) + t * word()) by (nonlinear_arith);
    }
    lemma_small_mod((p - 1) as nat, word() as nat);
}

/// Distinct positions among fewer than `c` consecutive counters occupy
/// distinct slots.
proof fn lemma_slots_distinct(base: int, k: int, p: int, c: int)
    requires
        0 <= k < p < c,
        c > 0,
    ensures
        (base + k) % c != (base + p) % c,
{
    let i = base + k;
    let j = base + p;
    lemma_fundamental_div_mod(i, c);
    lemma_fundamental_div_mod(j, c);
    if i % c == j % c {
        assert(j - i == c * (j / c - i / c)) by (nonlinear_arith)
            requires
                i == c * (i / c) + i % c,
                j == c * (j / c) + j % c,
                i % c == j % c,
        ;
        let d = j / c - i / c;
        assert(false) by (nonlinear_arith)
            requires
                j - i == c * d,
                0 < j - i < c,
                c > 0,
        ;
    }
}

/// The state after offering each of `frames` in turn.
pub open spec fn push_all(v: RingView, frames: Seq<Frame>) -> RingView
    decreases frames.len(),
{
    if frames.len() == 0 {
        v
    } else {
        push_outcome(push_all(v, frames.drop_last()), frames.last()).1
    }
}

/// The frames returned, and the state after, taking `n` times.
pub open spec fn pop_n(v: RingView, n: nat) -> (Seq<Frame>, RingView)
    decreases n,
{
    if n == 0 {
        (Seq::empty(), v)
    } else {
        let (out, w) = pop_n(v, (n - 1) as nat);
        let (f, w2) = pop_outcome(w);
        (
            match f {
                Some(x) => out.push(x),
                None => out,
            },
            w2,
        )
    }
}

/// A well-formed ring never holds more unread frames than it has slots.
pub proof fn law_capacity_bound(r: &Region)
    requires
        r.wf(),
    ensures
        r@.contents.len() <= r@.capacity,
        r@.capacity > 0,
{
}

/// A well-formed ring never holds more unread frames than it has slots, at
/// every point between operations.
pub proof fn law_ring_capacity_bound(r: &SpscRing)
    requires
        r.wf(),
    ensures
        r@.contents.len() <= r@.capacity,
        r@.capacity > 0,
{
}

/// The unread count is accepted frames minus taken frames: an accepted push
/// adds exactly one, a refused push adds none, a pop that returns a frame
/// removes exactly one, and a pop on an empty ring leaves it empty.
pub proof fn law_pending_accounting(v: RingView, frame: Frame)
    ensures
        push_outcome(v, frame).0 ==> push_outcome(v, frame).1.contents.len() == v.contents.len()
            + 1,
        !push_outcome(v, frame).0 ==> push_outcome(v, frame).1.contents.len()
            == v.contents.len(),
        pop_outcome(v).0 is Some ==> pop_outcome(v).1.contents.len() == v.contents.len() - 1,
        pop_outcome(v).0 is None ==> v.contents.len() == 0 && pop_outcome(v).1 == v,
{
}

/// Offering frames to a ring with room for all of them appends them, in
/// order, after the unread frames.
pub proof fn law_push_appends(v: RingView, frames: Seq<Frame>)
    requires
        v.contents.len() + frames.len() <= v.capacity,
    ensures
        push_all(v, frames).contents == v.contents + frames,
        push_all(v, frames).capacity == v.capacity,
    decreases frames.len(),
{
    if frames.len() > 0 {
        let init = frames.drop_last();
        law_push_appends(v, init);
        assert(v.contents + init.push(frames.last()) =~= v.contents + frames);
        assert((v.contents + init).push(frames.last()) =~= v.contents + init.push(frames.last()));
    }
}

/// Taking `n` frames from a ring holding at least `n` returns its oldest
/// `n` frames, oldest first, and leaves the rest.
pub proof fn law_pop_takes_oldest(v: RingView, n: nat)
    requires
        n <= v.contents.len(),
    ensures
        pop_n(v, n).0 == v.contents.take(n as int),
        pop_n(v, n).1.contents == v.contents.skip(n as int),
    decreases n,
{
    if n > 0 {
        let m = (n - 1) as nat;
        law_pop_takes_oldest(v, m);
        let w = pop_n(v, m).1;
        assert(w.contents.len() > 0);
        assert(v.contents.take(m as int).push(w.contents[0]) =~= v.contents.take(n as int));
        assert(w.contents.drop_first() =~= v.contents.skip(n as int));
    }
}

/// First in, first out: frames offered to a ring with room for all of them
/// come back out after the already-unread frames, in the order offered, and
/// the ring is empty again afterwards.
pub proof fn law_fifo(v: RingView, frames: Seq<Frame>)
    requires
        v.contents.len() + frames.len() <= v.capacity,
    ensures
        pop_n(push_all(v, frames), (v.contents.len() + frames.len()) as nat).0 == v.contents
            + frames,
        pop_n(push_all(v, frames), (v.contents.len() + frames.len()) as nat).1.contents.len() == 0,
{
    law_push_appends(v, frames);
    let n = (v.contents.len() + frames.len()) as nat;
    law_pop_takes_oldest(push_all(v, frames), n);
    assert((v.contents + frames).take(n as int) =~= v.contents + frames);
}

/// A full ring refuses a frame and leaves its unread frames untouched; with
/// drop accounting the refusal is counted.
pub proof fn law_full_ring_refuses(v: RingView, frame: Frame)
    requires
        v.contents.len() >= v.capacity,
    ensures
        !push_outcome(v, frame).0,
        push_outcome(v, frame).1 == v,
{
}

/// Lock-free safety on the producer side, a property of the index protocol
/// for transports that share the counters between threads (the ring in this
/// crate is single-owner and does not itself run concurrently): a producer
/// that saw a stale read
/// counter `tail_seen` and found room writes a slot that holds none of the
/// frames still unread, wherever the consumer has advanced to since
/// (`tail_now`, between `tail_seen` and `head`).
pub proof fn law_stale_read_counter_is_safe(
    head: usize,
    tail_seen: usize,
    tail_now: usize,
    cap: usize,
    k: int,
)
    requires
        is_pow2(cap as int),
        pending_of(head, tail_seen) < cap,
        pending_of(head, tail_now) <= pending_of(head, tail_seen),
        0 <= k < pending_of(head, tail_now),
    ensures
        head as int % cap as int != (tail_now as int + k) % cap as int,
{
    lemma_pow2_positive_divides_word(cap as int);
    lemma_wrapping_sub(head, tail_now);
    lemma_counter_slot(head, tail_now, cap as int);
    lemma_slots_distinct(tail_now as int, k, pending_of(head, tail_now), cap as int);
}

/// Lock-free safety on the consumer side, a property of the index protocol
/// for transports that share the counters between threads (the ring in this
/// crate is single-owner and does not itself run concurrently): a consumer
/// that saw a stale write
/// counter `head_seen` ahead of its read counter reads a slot that the
/// producer's next write (at `head_now`, no further than a full ring ahead)
/// does not touch.
pub proof fn law_stale_write_counter_is_safe(
    head_seen: usize,
    head_now: usize,
    tail: usize,
    cap: usize,
)
    requires
        is_pow2(cap as int),
        0 < pending_of(head_seen, tail),
        pending_of(head_seen, tail) <= pending_of(head_now, tail),
        pending_of(head_now, tail) < cap,
    ensures
        head_now as int % cap as int != tail as int % cap as int,
{
    lemma_pow2_positive_divides_word(cap as int);
    lemma_wrapping_sub(head_now, tail);
    lemma_counter_slot(head_now, tail, cap as int);
    lemma_slots_distinct(tail as int, 0, pending_of(head_now, tail), cap as int);
}

/// Producer endpoint of an SPSC ring: the side that writes frames and
/// advances the write counter.
#[derive(Clone, Copy, Debug)]
pub struct Producer {}

/// Consumer endpoint of an SPSC ring: the side that reads frames and advances
/// the read counter.
#[derive(Clone, Copy, Debug)]
pub struct Consumer {}

/// An SPSC ring.
pub struct SpscRing {
    region: Region,
}

impl View for SpscRing {
    type V = RingView;

    closed spec fn view(&self) -> RingView {
        self.region@
    }
}

impl SpscRing {
    /// The ring's region is well formed.
    pub closed spec fn wf(&self) -> bool {
        self.region.wf()
    }

    /// The ring's region.
    pub closed spec fn region_spec(&self) -> Region {
        self.region
    }

    /// Creates a ring over an existing region.
    pub fn new(region: Region) -> (r: SpscRing)
        ensures
            r.region_spec() == region,
            r@ == region@,
            region.wf() ==> r.wf(),
    {
        SpscRing { region }
    }

    /// Heap-backed ring with `capacity` (power of two) frame slots.
    pub fn heap(capacity: usize) -> (r: SpscRing)
        requires
            is_pow2(capacity as int),
            region_len_spec(capacity as int) <= usize::MAX,
        ensures
            r.wf(),
            r@.contents.len() == 0,
            r@.capacity == capacity,
            r@.dropped == 0,
            r@.head == 0,
            r@.tail == 0,
            r@.bytes == region_len_spec(capacity as int),
            r.region_spec().header_spec().magic == RING_MAGIC,
    {
        SpscRing::new(Region::heap(capacity))
    }

    /// The ring's region.
    pub fn region(&self) -> (r: &Region)
        ensures
            *r == self.region_spec(),
            r@ == self@,
    {
        &self.region
    }

    /// The producer and consumer endpoints.
    pub fn split(&self) -> (r: (Producer, Consumer)) {
        (Producer {  }, Consumer {  })
    }
}

impl Producer {
    /// Non-blocking push; returns `false` when the ring is full. Does not
    /// account the frame as dropped — the caller decides (see [`Self::push`]).
    pub fn try_push(&self, ring: &mut SpscRing, frame: Frame) -> (r: bool)
        requires
            old(ring).wf(),
        ensures
            final(ring).wf(),
            final(ring).region_spec().header_spec().magic == old(
                ring,
            ).region_spec().header_spec().magic,
            (r, final(ring)@) == push_outcome(old(ring)@, frame),
    {
        ring.region.try_push(frame)
    }

    /// Push with drop accounting: on a full ring the frame is discarded and
    /// `dropped` is incremented (real-time producers may not wait).
    pub fn push(&self, ring: &mut SpscRing, frame: Frame) -> (r: bool)
        requires
            old(ring).wf(),
        ensures
            final(ring).wf(),
            final(ring).region_spec().header_spec().magic == old(
                ring,
            ).region_spec().header_spec().magic,
            r == push_outcome(old(ring)@, frame).0,
            r ==> final(ring)@ == push_outcome(old(ring)@, frame).1,
            !r ==> final(ring)@ == (RingView {
                dropped: ((old(ring)@.dropped + 1) % word()) as usize,
                ..old(ring)@
            }),
    {
        if !ring.region.try_push(frame) {
            ring.region.note_drop();
            return false;
        }
        true
    }

    /// Waiting push, never dropping. A single-threaded caller must offer it a
    /// ring with room, since nothing else can drain the ring while it waits.
    pub fn send(&self, ring: &mut SpscRing, frame: Frame)
        requires
            old(ring).wf(),
            old(ring)@.contents.len() < old(ring)@.capacity,
        ensures
            final(ring).wf(),
            final(ring).region_spec().header_spec().magic == old(
                ring,
            ).region_spec().header_spec().magic,
            final(ring)@ == push_outcome(old(ring)@, frame).1,
    {
        let accepted = ring.region.try_push(frame);
        assert(accepted);
    }

    /// Frames dropped due to back-pressure.
    pub fn dropped(&self, ring: &SpscRing) -> (r: usize)
        ensures
            r == ring@.dropped,
    {
        ring.region.dropped()
    }

    /// Unread frames currently buffered; never more than the ring's
    /// capacity.
    pub fn pending(&self, ring: &SpscRing) -> (r: usize)
        requires
            ring.wf(),
        ensures
            r == ring@.contents.len(),
            r <= ring@.capacity,
    {
        ring.region.pending()
    }
}

impl Consumer {
    /// Pops the oldest frame, or `None` when empty.
    pub fn pop(&self, ring: &mut SpscRing) -> (r: Option<Frame>)
        requires
            old(ring).wf(),
        ensures
            final(ring).wf(),
            final(ring).region_spec().header_spec().magic == old(
                ring,
            ).region_spec().header_spec().magic,
            (r, final(ring)@) == pop_outcome(old(ring)@),
    {
        ring.region.pop()
    }

    /// Takes every unread frame, oldest first, leaving the ring empty.
    pub fn drain(&self, ring: &mut SpscRing) -> (r: Vec<Frame>)
        requires
            old(ring).wf(),
        ensures
            final(ring).wf(),
            final(ring).region_spec().header_spec().magic == old(
                ring,
            ).region_spec().header_spec().magic,
            r@ == old(ring)@.contents,
            final(ring)@.contents.len() == 0,
            final(ring)@.head == old(ring)@.head,
            final(ring)@.dropped == old(ring)@.dropped,
            final(ring)@.capacity == old(ring)@.capacity,
    {
        let mut out: Vec<Frame> = Vec::new();
        loop
            invariant
                ring.wf(),
                ring.region_spec().header_spec().magic == old(
                    ring,
                ).region_spec().header_spec().magic,
                out@ + ring@.contents == old(ring)@.contents,
                ring@.head == old(ring)@.head,
                ring@.dropped == old(ring)@.dropped,
                ring@.capacity == old(ring)@.capacity,
            decreases ring@.contents.len(),
        {
            let ghost before = ring@.contents;
            match ring.region.pop() {
                Some(f) => {
                    out.push(f);
                    proof {
                        assert(out@ + ring@.contents =~= old(ring)@.contents) by {
                            assert(before =~= seq![f] + before.drop_first());
                        }
                    }
                },
                None => {
                    assert(out@ =~= old(ring)@.contents);
                    return out;
                },
            }
        }
    }

    /// Frames dropped by the producer (visible to the consumer too).
    pub fn dropped(&self, ring: &SpscRing) -> (r: usize)
        ensures
            r == ring@.dropped,
    {
        ring.region.dropped()
    }
}

} // verus!
