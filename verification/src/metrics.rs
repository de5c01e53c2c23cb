//! Frame-level performance metrics for the wgpu backend.
use vstd::prelude::*;

verus! {

/// Metrics for a single frame, captured and reset each frame.
#[derive(Debug, Clone, Default)]
pub struct FrameMetrics {
    /// Number of bind group cache hits this frame.
    pub bind_group_cache_hits: u64,
    /// Number of bind group cache misses this frame.
    pub bind_group_cache_misses: u64,
    /// Number of draw calls this frame.
    pub draw_call_count: u64,
}

/// Accumulator for bind group cache metrics.
///
/// The counters are plain integers owned by the accumulator; recording takes
/// `&mut self`, so exclusive access is enforced by the borrow checker.
#[derive(Debug)]
pub struct BindGroupMetrics {
    hits: u64,
    misses: u64,
}

impl Default for BindGroupMetrics {
    /// Creates an accumulator with both counters at zero.
    fn default() -> (m: Self)
        ensures
            m.hits() == 0,
            m.misses() == 0,
    {
        BindGroupMetrics { hits: 0, misses: 0 }
    }
}

impl BindGroupMetrics {
    /// Number of hits recorded since the last snapshot.
    pub closed spec fn hits(&self) -> u64 {
        self.hits
    }

    /// Number of misses recorded since the last snapshot.
    pub closed spec fn misses(&self) -> u64 {
        self.misses
    }

    /// Records a cache hit. The counter wraps around on overflow.
    pub fn record_hit(&mut self)
        ensures
            final(self).hits() == old(self).hits().wrapping_add(1),
            final(self).misses() == old(self).misses(),
    {
        self.hits = self.hits.wrapping_add(1);
    }

    /// Records a cache miss. The counter wraps around on overflow.
    pub fn record_miss(&mut self)
        ensures
            final(self).misses() == old(self).misses().wrapping_add(1),
            final(self).hits() == old(self).hits(),
    {
        self.misses = self.misses.wrapping_add(1);
    }

    /// Snapshots the current counters as `(hits, misses)` and resets them to zero.
    pub fn snapshot_and_reset(&mut self) -> (r: (u64, u64))
        ensures
            r == (old(self).hits(), old(self).misses()),
            final(self).hits() == 0,
            final(self).misses() == 0,
    {
        let hits = self.hits;
        let misses = self.misses;
        self.hits = 0;
        self.misses = 0;
        (hits, misses)
    }
}

/// The counters `(hits, misses)` after recording `events` in order from
/// `(h, k)`: `true` is a `record_hit`, `false` a `record_miss`, each adding
/// one with wrap-around, as their contracts say.
pub open spec fn recorded(h: u64, k: u64, events: Seq<bool>) -> (u64, u64)
    decreases events.len(),
{
    if events.len() == 0 {
        (h, k)
    } else {
        let (a, b) = recorded(h, k, events.drop_last());
        if events.last() {
            (a.wrapping_add(1), b)
        } else {
            (a, b.wrapping_add(1))
        }
    }
}

/// How many of `events` are `v`.
pub open spec fn event_count(events: Seq<bool>, v: bool) -> nat
    decreases events.len(),
{
    if events.len() == 0 {
        0
    } else {
        event_count(events.drop_last(), v) + if events.last() == v { 1nat } else { 0nat }
    }
}

proof fn lemma_wrap_step(a: u64, c: nat)
    requires
        a == c % 0x1_0000_0000_0000_0000,
    ensures
        a.wrapping_add(1) == (c + 1) % 0x1_0000_0000_0000_0000,
{
    let m: int = 0x1_0000_0000_0000_0000;
    let ci: int = c as int;
    assert(ci == (ci / m) * m + a) by (nonlinear_arith)
        requires a == ci % m, m > 0;
    assert((ci + 1) % m == (a + 1) % m) by (nonlinear_arith)
        requires ci == (ci / m) * m + a, m > 0, 0 <= a < m;
    if a + 1 == m {
        assert((a + 1) % m == 0) by (nonlinear_arith)
            requires a + 1 == m, m > 0;
    } else {
        assert((a + 1) % m == a + 1) by (nonlinear_arith)
            requires 0 <= a + 1 < m;
    }
}

/// Law: after `h` hits and `k` misses recorded since the accumulator was
/// created or last snapshotted (both counters zero), the snapshot is
/// `(h, k)`, each taken modulo 2^64; the snapshot then leaves both at zero
/// (`snapshot_and_reset`'s contract).
pub proof fn lemma_snapshot_counts(events: Seq<bool>)
    ensures
        recorded(0, 0, events) == (
            (event_count(events, true) % 0x1_0000_0000_0000_0000) as u64,
            (event_count(events, false) % 0x1_0000_0000_0000_0000) as u64,
        ),
    decreases events.len(),
{
    if events.len() > 0 {
        lemma_snapshot_counts(events.drop_last());
        let (a, b) = recorded(0, 0, events.drop_last());
        let ch = event_count(events.drop_last(), true);
        let ck = event_count(events.drop_last(), false);
        if events.last() {
            lemma_wrap_step(a, ch);
        } else {
            lemma_wrap_step(b, ck);
        }
    }
}

} // verus!
