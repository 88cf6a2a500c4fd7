//! Turns per-frame "speech or not" decisions into speech start and end events,
//! requiring a run of frames before either change.

use vstd::prelude::*;

verus! {

#[derive(Debug, Clone, Copy, PartialEq, Eq, Structural)]
pub enum GateEvent {
    SpeechStarted,
    SpeechEnded,
}

/// What a speech gate remembers between frames.
pub struct GateView {
    pub min_speech_frames: nat,
    pub min_silence_frames: nat,
    pub speaking: bool,
    pub run: nat,
}

/// One frame: `over` says whether the frame's speech probability reached the
/// threshold. Returns the state after the frame and the event it raised.
pub open spec fn gate_step(g: GateView, over: bool) -> (GateView, Option<GateEvent>) {
    if !g.speaking {
        let run = if over { g.run + 1 } else { 0nat };
        if run >= g.min_speech_frames {
            (GateView { speaking: true, run: 0, ..g }, Some(GateEvent::SpeechStarted))
        } else {
            (GateView { run: run, ..g }, None)
        }
    } else if over {
        (GateView { run: 0, ..g }, None)
    } else if g.run + 1 >= g.min_silence_frames {
        (GateView { speaking: false, run: 0, ..g }, Some(GateEvent::SpeechEnded))
    } else {
        (GateView { run: g.run + 1, ..g }, None)
    }
}

/// Detects speech starts, and re-arms after a run of silence so that the next
/// utterance is detected too.
pub struct SpeechGate {
    min_speech_frames: usize,
    min_silence_frames: usize,
    speaking: bool,
    run: usize,
}

impl View for SpeechGate {
    type V = GateView;

    closed spec fn view(&self) -> GateView {
        GateView {
            min_speech_frames: self.min_speech_frames as nat,
            min_silence_frames: self.min_silence_frames as nat,
            speaking: self.speaking,
            run: self.run as nat,
        }
    }
}

impl SpeechGate {
    /// The counters stay below the limits that end a run.
    pub closed spec fn wf(self) -> bool {
        &&& self.min_silence_frames >= 1
        &&& !self.speaking ==> (self.run < self.min_speech_frames || self.run == 0)
        &&& self.speaking ==> self.run < self.min_silence_frames
    }

    /// `min_silence_frames` below one counts as one.
    pub fn new(min_speech_frames: usize, min_silence_frames: usize) -> (r: Self)
        ensures
            r.wf(),
            r@ == (GateView {
                min_speech_frames: min_speech_frames as nat,
                min_silence_frames: if min_silence_frames >= 1 {
                    min_silence_frames as nat
                } else {
                    1nat
                },
                speaking: false,
                run: 0,
            }),
    {
        SpeechGate {
            min_speech_frames,
            min_silence_frames: if min_silence_frames >= 1 {
                min_silence_frames
            } else {
                1
            },
            speaking: false,
            run: 0,
        }
    }

    /// Feeds one frame; returns an event only when the speaking state changes.
    pub fn push(&mut self, over: bool) -> (r: Option<GateEvent>)
        requires
            old(self).wf(),
        ensures
            final(self).wf(),
            (final(self)@, r) == gate_step(old(self)@, over),
    {
        if !self.speaking {
            if over {
                self.run = self.run + 1;
            } else {
                self.run = 0;
            }
            if self.run >= self.min_speech_frames {
                self.speaking = true;
                self.run = 0;
                return Some(GateEvent::SpeechStarted);
            }
            return None;
        }
        if over {
            self.run = 0;
        } else {
            self.run = self.run + 1;
            if self.run >= self.min_silence_frames {
                self.speaking = false;
                self.run = 0;
                return Some(GateEvent::SpeechEnded);
            }
        }
        None
    }

    pub fn is_speaking(&self) -> (r: bool)
        ensures
            r == self@.speaking,
    {
        self.speaking
    }

    pub fn reset(&mut self)
        requires
            old(self).wf(),
        ensures
            final(self).wf(),
            final(self)@ == (GateView { speaking: false, run: 0, ..old(self)@ }),
    {
        self.speaking = false;
        self.run = 0;
    }
}

/// Events alternate: a start only ever comes while silent and leaves it
/// speaking, an end only while speaking and leaves it silent, and a frame
/// without an event never changes whether it is speaking.
pub proof fn law_events_alternate(g: GateView, over: bool)
    ensures
        gate_step(g, over).1 == Some(GateEvent::SpeechStarted) ==> !g.speaking && gate_step(
            g,
            over,
        ).0.speaking,
        gate_step(g, over).1 == Some(GateEvent::SpeechEnded) ==> g.speaking && !gate_step(
            g,
            over,
        ).0.speaking,
        gate_step(g, over).1 is None ==> gate_step(g, over).0.speaking == g.speaking,
{
}

/// Feeds a run of frames, returning the final state and the events raised.
pub open spec fn gate_run(g: GateView, frames: Seq<bool>) -> (GateView, Seq<GateEvent>)
    decreases frames.len(),
{
    if frames.len() == 0 {
        (g, Seq::empty())
    } else {
        let (h, e) = gate_step(g, frames[0]);
        let (last, rest) = gate_run(h, frames.drop_first());
        (
            last,
            match e {
                Some(ev) => seq![ev] + rest,
                None => rest,
            },
        )
    }
}

/// From silence with no run in progress, `n >= 1` frames over the threshold,
/// with `n` equal to the required run, start speech exactly once, on the last frame.
pub proof fn law_a_full_run_starts_speech(g: GateView, n: nat)
    requires
        !g.speaking,
        g.run == 0,
        g.min_speech_frames == n,
        n >= 1,
    ensures
        gate_run(g, Seq::new(n, |i: int| true)) == (
            GateView { speaking: true, run: 0, ..g },
            seq![GateEvent::SpeechStarted],
        ),
{
    lemma_run_of_speech(g, n, 0);
}

proof fn lemma_run_of_speech(g: GateView, n: nat, k: nat)
    requires
        !g.speaking,
        g.min_speech_frames == n,
        k < n,
        g.run == k,
    ensures
        gate_run(g, Seq::new((n - k) as nat, |i: int| true)) == (
            GateView { speaking: true, run: 0, ..g },
            seq![GateEvent::SpeechStarted],
        ),
    decreases n - k,
{
    let frames = Seq::new((n - k) as nat, |i: int| true);
    assert(frames[0] == true);
    let (h, e) = gate_step(g, frames[0]);
    if k + 1 == n {
        assert(h == GateView { speaking: true, run: 0, ..g });
        assert(e == Some(GateEvent::SpeechStarted));
        assert(gate_run(h, Seq::<bool>::empty()) == (h, Seq::<GateEvent>::empty()));
        assert(frames.drop_first() =~= Seq::<bool>::empty());
        assert(seq![GateEvent::SpeechStarted] + Seq::<GateEvent>::empty() =~= seq![
            GateEvent::SpeechStarted,
        ]);
    } else {
        assert(h == GateView { run: k + 1, ..g });
        assert(e is None);
        assert(frames.drop_first() =~= Seq::new((n - (k + 1)) as nat, |i: int| true));
        lemma_run_of_speech(h, n, k + 1);
    }
}

/// Silence of the required length ends speech: it re-arms, so the next
/// utterance can be detected.
pub proof fn law_a_full_silence_rearms(g: GateView, n: nat)
    requires
        g.speaking,
        g.run == 0,
        g.min_silence_frames == n,
        n >= 1,
    ensures
        gate_run(g, Seq::new(n, |i: int| false)) == (
            GateView { speaking: false, run: 0, ..g },
            seq![GateEvent::SpeechEnded],
        ),
{
    lemma_run_of_silence(g, n, 0);
}

proof fn lemma_run_of_silence(g: GateView, n: nat, k: nat)
    requires
        g.speaking,
        g.min_silence_frames == n,
        k < n,
        g.run == k,
    ensures
        gate_run(g, Seq::new((n - k) as nat, |i: int| false)) == (
            GateView { speaking: false, run: 0, ..g },
            seq![GateEvent::SpeechEnded],
        ),
    decreases n - k,
{
    let frames = Seq::new((n - k) as nat, |i: int| false);
    assert(frames[0] == false);
    let (h, e) = gate_step(g, frames[0]);
    if k + 1 == n {
        assert(h == GateView { speaking: false, run: 0, ..g });
        assert(e == Some(GateEvent::SpeechEnded));
        assert(gate_run(h, Seq::<bool>::empty()) == (h, Seq::<GateEvent>::empty()));
        assert(frames.drop_first() =~= Seq::<bool>::empty());
        assert(seq![GateEvent::SpeechEnded] + Seq::<GateEvent>::empty() =~= seq![
            GateEvent::SpeechEnded,
        ]);
    } else {
        assert(h == GateView { run: k + 1, ..g });
        assert(e is None);
        assert(frames.drop_first() =~= Seq::new((n - (k + 1)) as nat, |i: int| false));
        lemma_run_of_silence(h, n, k + 1);
    }
}

} // verus!
