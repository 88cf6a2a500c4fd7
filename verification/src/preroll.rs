//! A fixed-capacity ring of the most recent audio samples, kept so that the
//! beginning of an utterance can be replayed once speech is detected.

use std::collections::VecDeque;
use vstd::prelude::*;

verus! {

/// The newest `n` elements of `s` (all of `s` when it is shorter).
pub open spec fn newest(s: Seq<i16>, n: nat) -> Seq<i16> {
    if s.len() <= n {
        s
    } else {
        s.subrange(s.len() - n, s.len() as int)
    }
}

/// Keeps only the most recent `capacity` samples.
pub struct PreRoll {
    capacity: usize,
    buf: VecDeque<i16>,
}

impl View for PreRoll {
    type V = Seq<i16>;

    closed spec fn view(&self) -> Seq<i16> {
        self.buf@
    }
}

impl PreRoll {
    /// Well-formed: never more samples than the capacity.
    pub closed spec fn wf(self) -> bool {
        self.buf@.len() <= self.capacity
    }

    /// The number of samples this buffer retains at most.
    pub closed spec fn spec_capacity(self) -> nat {
        self.capacity as nat
    }

    pub fn new(capacity_samples: usize) -> (r: Self)
        ensures
            r.wf(),
            r@ == Seq::<i16>::empty(),
            r.spec_capacity() == capacity_samples,
    {
        PreRoll { capacity: capacity_samples, buf: VecDeque::with_capacity(capacity_samples) }
    }

    /// Appends `samples`; what exceeds the capacity is dropped from the oldest end.
    pub fn push(&mut self, samples: &[i16])
        requires
            old(self).wf(),
        ensures
            final(self).wf(),
            final(self)@ == newest(old(self)@ + samples@, old(self).spec_capacity()),
            final(self).spec_capacity() == old(self).spec_capacity(),
    {
        let ghost start = self.buf@;
        let cap = self.capacity;
        let mut i: usize = 0;
        while i < samples.len()
            invariant
                0 <= i <= samples.len(),
                self.capacity == cap,
                self.buf@.len() <= cap,
                self.buf@ == newest(start + samples@.take(i as int), cap as nat),
            decreases samples.len() - i,
        {
            let sample = samples[i];
            let ghost before = self.buf@;
            proof {
                lemma_newest_push(start + samples@.take(i as int), sample, cap as nat);
                assert(start + samples@.take(i + 1) == (start + samples@.take(i as int)).push(
                    sample,
                ));
            }
            if cap > 0 {
                if self.buf.len() == cap {
                    let _ = self.buf.pop_front();
                }
                self.buf.push_back(sample);
            }
            i = i + 1;
        }
        proof {
            assert(samples@.take(samples@.len() as int) == samples@);
        }
    }

    /// Removes every sample and returns them, oldest first.
    pub fn take(&mut self) -> (r: Vec<i16>)
        requires
            old(self).wf(),
        ensures
            final(self).wf(),
            r@ == old(self)@,
            final(self)@ == Seq::<i16>::empty(),
            final(self).spec_capacity() == old(self).spec_capacity(),
    {
        let mut out: Vec<i16> = Vec::new();
        let ghost start = self.buf@;
        while self.buf.len() > 0
            invariant
                start == out@ + self.buf@,
                self.buf@.len() <= self.capacity,
                self.capacity == old(self).capacity,
            decreases self.buf@.len(),
        {
            let ghost before = self.buf@;
            match self.buf.pop_front() {
                Some(sample) => {
                    out.push(sample);
                    proof {
                        assert(before == seq![sample] + self.buf@);
                    }
                },
                None => {},
            }
        }
        out
    }

    pub fn clear(&mut self)
        requires
            old(self).wf(),
        ensures
            final(self).wf(),
            final(self)@ == Seq::<i16>::empty(),
            final(self).spec_capacity() == old(self).spec_capacity(),
    {
        self.buf.clear();
    }

    pub fn len(&self) -> (r: usize)
        ensures
            r == self@.len(),
    {
        self.buf.len()
    }

    pub fn is_empty(&self) -> (r: bool)
        ensures
            r == (self@.len() == 0),
    {
        self.buf.len() == 0
    }
}

/// Retaining the newest `n` after one more element equals pushing that element
/// onto the newest `n` and retaining the newest `n` again.
proof fn lemma_newest_push(s: Seq<i16>, x: i16, n: nat)
    ensures
        newest(s.push(x), n) == if n == 0 {
            Seq::<i16>::empty()
        } else if newest(s, n).len() == n {
            newest(s, n).subrange(1, n as int).push(x)
        } else {
            newest(s, n).push(x)
        },
{
    if n == 0 {
        assert(newest(s.push(x), n) =~= Seq::<i16>::empty());
    } else if s.len() < n {
        assert(newest(s.push(x), n) =~= s.push(x));
    } else {
        assert(newest(s.push(x), n) =~= newest(s, n).subrange(1, n as int).push(x));
    }
}

/// Pushing `a` and then `b` keeps the same samples as pushing `a + b` at once.
pub proof fn law_push_in_parts(s: Seq<i16>, a: Seq<i16>, b: Seq<i16>, n: nat)
    ensures
        newest(newest(s + a, n) + b, n) == newest(s + a + b, n),
{
    let t = s + a;
    if t.len() <= n {
    } else {
        let u = t.subrange(t.len() - n, t.len() as int);
        if (u + b).len() <= n {
            assert(b.len() == 0);
            assert(t + b =~= t);
            assert(u + b =~= u);
        } else {
            assert(newest(u + b, n) =~= newest(t + b, n));
        }
    }
}

} // verus!
