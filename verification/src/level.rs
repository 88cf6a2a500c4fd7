//! The microphone level the settings show: the peak of the latest frame, and
//! how many samples clipped over the last second.

use crate::controller::{level_status, sample_level, spec_level_status, spec_sample_level, LevelStatus};
use vstd::prelude::*;

verus! {

/// A sample at or above this level counts as clipped.
pub const CLIP_LEVEL: i16 = 32_000;

/// How long the clip count looks back, in milliseconds.
pub const CLIP_WINDOW_MS: u64 = 1000;

/// The largest level among the samples, or 0 for none.
pub open spec fn peak_of(s: Seq<i16>) -> i16
    decreases s.len(),
{
    if s.len() == 0 {
        0
    } else {
        let p = peak_of(s.drop_last());
        let l = spec_sample_level(s.last());
        if l > p {
            l
        } else {
            p
        }
    }
}

/// How many of the samples clipped.
pub open spec fn clipped_count(s: Seq<i16>) -> nat
    decreases s.len(),
{
    if s.len() == 0 {
        0
    } else {
        clipped_count(s.drop_last()) + if spec_sample_level(s.last()) >= CLIP_LEVEL {
            1nat
        } else {
            0nat
        }
    }
}

/// One frame's record: when it came, how many of its samples clipped, and
/// how many it had.
#[derive(Clone, Copy, Debug, PartialEq, Eq, Structural)]
pub struct FrameCount {
    pub at_ms: u64,
    pub clipped: u64,
    pub total: u64,
}

/// Records older than the window at `now` (by how long ago they came, none
/// in the future) leave from the front, oldest first.
pub open spec fn pruned(w: Seq<FrameCount>, now: u64) -> Seq<FrameCount>
    decreases w.len(),
{
    if w.len() > 0 && now >= w[0].at_ms && now - w[0].at_ms > CLIP_WINDOW_MS {
        pruned(w.drop_first(), now)
    } else {
        w
    }
}

/// The clipped samples over the records, stopping at `u64::MAX`.
pub open spec fn sum_clipped(w: Seq<FrameCount>) -> nat
    decreases w.len(),
{
    if w.len() == 0 {
        0
    } else {
        let s = sum_clipped(w.drop_last()) + w.last().clipped;
        if s > u64::MAX {
            u64::MAX as nat
        } else {
            s as nat
        }
    }
}

/// The samples over the records, stopping at `u64::MAX`.
pub open spec fn sum_total(w: Seq<FrameCount>) -> nat
    decreases w.len(),
{
    if w.len() == 0 {
        0
    } else {
        let s = sum_total(w.drop_last()) + w.last().total;
        if s > u64::MAX {
            u64::MAX as nat
        } else {
            s as nat
        }
    }
}

/// The level meter: the latest frame's peak and the clip counts of the last
/// second.
pub struct LevelMeter {
    pub peak: i16,
    pub window: Vec<FrameCount>,
}

pub struct LevelView {
    pub peak: i16,
    pub window: Seq<FrameCount>,
}

impl View for LevelMeter {
    type V = LevelView;

    open spec fn view(&self) -> LevelView {
        LevelView { peak: self.peak, window: self.window@ }
    }
}

fn frame_stats(samples: &[i16]) -> (r: (i16, u64))
    ensures
        r.0 == peak_of(samples@),
        r.1 == clipped_count(samples@),
        r.1 <= samples@.len(),
{
    let mut peak: i16 = 0;
    let mut clipped: u64 = 0;
    let mut i: usize = 0;
    while i < samples.len()
        invariant
            0 <= i <= samples@.len(),
            peak == peak_of(samples@.take(i as int)),
            clipped == clipped_count(samples@.take(i as int)),
            clipped <= i,
        decreases samples.len() - i,
    {
        let ghost t = samples@.take(i + 1);
        assert(t.drop_last() =~= samples@.take(i as int));
        let l = sample_level(samples[i]);
        if l > peak {
            peak = l;
        }
        if l >= CLIP_LEVEL {
            clipped = clipped + 1;
        }
        i = i + 1;
    }
    assert(samples@.take(i as int) =~= samples@);
    (peak, clipped)
}

fn too_old(f: FrameCount, now_ms: u64) -> (r: bool)
    ensures
        r == (now_ms >= f.at_ms && now_ms - f.at_ms > CLIP_WINDOW_MS),
{
    now_ms >= f.at_ms && now_ms - f.at_ms > CLIP_WINDOW_MS
}

impl LevelMeter {
    pub fn new() -> (r: Self)
        ensures
            r@.peak == 0,
            r@.window == Seq::<FrameCount>::empty(),
    {
        LevelMeter { peak: 0, window: Vec::new() }
    }

    /// Drops the records that left the window at `now`.
    pub fn prune(&mut self, now_ms: u64)
        ensures
            final(self)@.window == pruned(old(self)@.window, now_ms),
            final(self)@.peak == old(self)@.peak,
    {
        let ghost w = self.window@;
        let mut k: usize = 0;
        assert(w.skip(0) =~= w);
        while k < self.window.len() && too_old(self.window[k], now_ms)
            invariant
                0 <= k <= w.len(),
                self.window@ == w,
                pruned(w, now_ms) == pruned(w.skip(k as int), now_ms),
            decreases self.window.len() - k,
        {
            assert(w.skip(k as int).drop_first() =~= w.skip(k + 1));
            k = k + 1;
        }
        if k < self.window.len() {
            assert(w.skip(k as int)[0] == w[k as int]);
        } else {
            assert(w.skip(k as int) =~= Seq::<FrameCount>::empty());
        }
        let mut kept: Vec<FrameCount> = Vec::new();
        let mut j: usize = k;
        while j < self.window.len()
            invariant
                k <= j <= w.len(),
                self.window@ == w,
                kept@ == w.subrange(k as int, j as int),
            decreases self.window.len() - j,
        {
            kept.push(self.window[j]);
            assert(w.subrange(k as int, j + 1) =~= w.subrange(k as int, j as int).push(w[j as int]));
            j = j + 1;
        }
        assert(kept@ =~= w.skip(k as int));
        self.window = kept;
    }

    /// A frame came: its peak is the peak now, and its clip count joins the
    /// window, which then drops what is too old.
    pub fn record_frame(&mut self, samples: &[i16], now_ms: u64)
        ensures
            final(self)@.peak == peak_of(samples@),
            final(self)@.window == pruned(
                old(self)@.window.push(
                    FrameCount {
                        at_ms: now_ms,
                        clipped: clipped_count(samples@) as u64,
                        total: samples@.len() as u64,
                    },
                ),
                now_ms,
            ),
    {
        let (peak, clipped) = frame_stats(samples);
        self.peak = peak;
        self.window.push(FrameCount { at_ms: now_ms, clipped, total: samples.len() as u64 });
        self.prune(now_ms);
    }

    fn sums(&self) -> (r: (u64, u64))
        ensures
            r.0 == sum_clipped(self@.window),
            r.1 == sum_total(self@.window),
    {
        let mut clipped: u64 = 0;
        let mut total: u64 = 0;
        let mut i: usize = 0;
        while i < self.window.len()
            invariant
                0 <= i <= self.window@.len(),
                clipped == sum_clipped(self@.window.take(i as int)),
                total == sum_total(self@.window.take(i as int)),
            decreases self.window.len() - i,
        {
            let ghost t = self@.window.take(i + 1);
            assert(t.drop_last() =~= self@.window.take(i as int));
            let f = self.window[i];
            clipped = clipped.saturating_add(f.clipped);
            total = total.saturating_add(f.total);
            i = i + 1;
        }
        assert(self@.window.take(i as int) =~= self@.window);
        (clipped, total)
    }

    /// The level to show at `now`: the latest peak and the advice from the
    /// last second's clip count. The peak starts over.
    pub fn report(&mut self, now_ms: u64) -> (r: (i16, LevelStatus))
        ensures
            r.0 == old(self)@.peak,
            r.1 == spec_level_status(
                old(self)@.peak,
                sum_clipped(pruned(old(self)@.window, now_ms)),
                sum_total(pruned(old(self)@.window, now_ms)),
            ),
            final(self)@.peak == 0,
            final(self)@.window == pruned(old(self)@.window, now_ms),
    {
        self.prune(now_ms);
        let (clipped, total) = self.sums();
        let status = level_status(self.peak, clipped, total);
        let peak = self.peak;
        self.peak = 0;
        (peak, status)
    }

    /// Listening stopped: the clip counts are forgotten.
    pub fn clear(&mut self)
        ensures
            final(self)@.window == Seq::<FrameCount>::empty(),
            final(self)@.peak == old(self)@.peak,
    {
        self.window = Vec::new();
    }
}

/// Once pruned at `now`, every record left came within the last second (or
/// later than `now`), and pruning again changes nothing.
pub proof fn law_pruning_keeps_the_last_second(w: Seq<FrameCount>, now: u64)
    ensures
        pruned(w, now).len() > 0 ==> !(now >= pruned(w, now)[0].at_ms && now - pruned(w, now)[0].at_ms
            > CLIP_WINDOW_MS),
        pruned(pruned(w, now), now) == pruned(w, now),
        pruned(w, now).len() <= w.len(),
    decreases w.len(),
{
    if w.len() > 0 && now >= w[0].at_ms && now - w[0].at_ms > CLIP_WINDOW_MS {
        law_pruning_keeps_the_last_second(w.drop_first(), now);
    }
}

} // verus!
