//! Stabilises partial results. The recognizer re-decodes the whole utterance
//! at every interval, so consecutive hypotheses rewrite one another; only the
//! prefix on which two consecutive hypotheses agree, less a tail margin, is
//! shown. Text already shown may still be corrected, but it is never pulled
//! back merely because a hypothesis came out shorter for a moment.

use crate::text::{chars_have_prefix, chars_of, has_prefix, string_of};
use vstd::prelude::*;

verus! {

/// Counting from index `k`, how far `a` and `b` agree.
pub open spec fn agree_from(a: Seq<char>, b: Seq<char>, k: nat) -> nat
    decreases a.len() - k,
{
    if k < a.len() && k < b.len() && a[k as int] == b[k as int] {
        agree_from(a, b, k + 1)
    } else {
        k
    }
}

/// The length of the longest common prefix of `a` and `b`.
pub open spec fn common_prefix_len(a: Seq<char>, b: Seq<char>) -> nat {
    agree_from(a, b, 0)
}

/// What an agreement keeps between hypotheses.
pub struct AgreementView {
    pub tail_margin_chars: nat,
    pub previous: Seq<char>,
    pub confirmed: Seq<char>,
}

/// The part of `hypothesis` that the previous hypothesis agrees with, less
/// the tail margin.
pub open spec fn candidate(a: AgreementView, hypothesis: Seq<char>) -> Seq<char> {
    let agreed = common_prefix_len(a.previous, hypothesis);
    let keep = if agreed >= a.tail_margin_chars {
        (agreed - a.tail_margin_chars) as nat
    } else {
        0nat
    };
    hypothesis.take(keep as int)
}

/// `c` is shorter than the shown text and a prefix of it.
pub open spec fn is_true_prefix(c: Seq<char>, confirmed: Seq<char>) -> bool {
    c.len() < confirmed.len() && has_prefix(confirmed, c)
}

/// One observation: the next state; the text to show is its `confirmed`.
pub open spec fn observe_step(a: AgreementView, hypothesis: Seq<char>) -> AgreementView {
    let c = candidate(a, hypothesis);
    AgreementView {
        tail_margin_chars: a.tail_margin_chars,
        previous: hypothesis,
        confirmed: if is_true_prefix(c, a.confirmed) {
            a.confirmed
        } else {
            c
        },
    }
}

pub struct Agreement {
    tail_margin_chars: usize,
    previous: Vec<char>,
    confirmed: Vec<char>,
}

impl View for Agreement {
    type V = AgreementView;

    closed spec fn view(&self) -> AgreementView {
        AgreementView {
            tail_margin_chars: self.tail_margin_chars as nat,
            previous: self.previous@,
            confirmed: self.confirmed@,
        }
    }
}

fn common_prefix(a: &[char], b: &[char]) -> (r: usize)
    ensures
        r == common_prefix_len(a@, b@),
        r <= a@.len(),
        r <= b@.len(),
{
    let mut i: usize = 0;
    while i < a.len() && i < b.len() && a[i] == b[i]
        invariant
            i <= a@.len(),
            i <= b@.len(),
            agree_from(a@, b@, 0) == agree_from(a@, b@, i as nat),
        decreases a.len() - i,
    {
        i = i + 1;
    }
    i
}

impl Agreement {
    pub fn new(tail_margin_chars: usize) -> (r: Self)
        ensures
            r@ == (AgreementView {
                tail_margin_chars: tail_margin_chars as nat,
                previous: Seq::empty(),
                confirmed: Seq::empty(),
            }),
    {
        Agreement { tail_margin_chars, previous: Vec::new(), confirmed: Vec::new() }
    }

    /// Takes a new hypothesis and returns the text that may be shown: an
    /// agreed prefix only, never the unsettled tail.
    pub fn observe(&mut self, hypothesis: &str) -> (r: String)
        ensures
            final(self)@ == observe_step(old(self)@, hypothesis@),
            r@ == final(self)@.confirmed,
    {
        let hyp = chars_of(hypothesis);
        let agreed = common_prefix(self.previous.as_slice(), hyp.as_slice());
        let keep = if agreed >= self.tail_margin_chars {
            agreed - self.tail_margin_chars
        } else {
            0
        };
        let mut candidate: Vec<char> = Vec::new();
        let mut i: usize = 0;
        while i < keep
            invariant
                keep <= hyp@.len(),
                0 <= i <= keep,
                candidate@ == hyp@.take(i as int),
            decreases keep - i,
        {
            candidate.push(hyp[i]);
            proof {
                assert(hyp@.take(i + 1) == hyp@.take(i as int).push(hyp@[i as int]));
            }
            i = i + 1;
        }
        let is_true_prefix = candidate.len() < self.confirmed.len() && chars_have_prefix(
            self.confirmed.as_slice(),
            candidate.as_slice(),
        );
        if !is_true_prefix {
            self.confirmed = candidate;
        }
        self.previous = hyp;
        string_of(self.confirmed.as_slice())
    }

    /// Call when the utterance changes.
    pub fn reset(&mut self)
        ensures
            final(self)@ == (AgreementView {
                tail_margin_chars: old(self)@.tail_margin_chars,
                previous: Seq::empty(),
                confirmed: Seq::empty(),
            }),
    {
        self.previous = Vec::new();
        self.confirmed = Vec::new();
    }
}

proof fn lemma_agree_from_bounds(a: Seq<char>, b: Seq<char>, k: nat)
    requires
        k <= a.len(),
        k <= b.len(),
    ensures
        k <= agree_from(a, b, k) <= a.len(),
        agree_from(a, b, k) <= b.len(),
        forall|j: int| k <= j < agree_from(a, b, k) ==> a[j] == b[j],
    decreases a.len() - k,
{
    if k < a.len() && k < b.len() && a[k as int] == b[k as int] {
        lemma_agree_from_bounds(a, b, k + 1);
    }
}

/// The candidate is a prefix of both the previous and the new hypothesis.
proof fn lemma_candidate_is_agreed(a: AgreementView, hypothesis: Seq<char>)
    ensures
        has_prefix(hypothesis, candidate(a, hypothesis)),
        has_prefix(a.previous, candidate(a, hypothesis)),
{
    lemma_agree_from_bounds(a.previous, hypothesis, 0);
    let c = candidate(a, hypothesis);
    assert(hypothesis.subrange(0, c.len() as int) =~= c);
    assert(a.previous.subrange(0, c.len() as int) =~= c);
}

/// What is shown after an observation is either the text shown before, or a
/// prefix on which the previous and the new hypothesis agree.
pub proof fn law_shown_text_is_agreed_or_kept(a: AgreementView, hypothesis: Seq<char>)
    ensures
        observe_step(a, hypothesis).confirmed == a.confirmed || (has_prefix(
            hypothesis,
            observe_step(a, hypothesis).confirmed,
        ) && has_prefix(a.previous, observe_step(a, hypothesis).confirmed)),
{
    lemma_candidate_is_agreed(a, hypothesis);
}

/// Shown text is never pulled back to a shorter prefix of itself: a
/// hypothesis that merely came out shorter leaves the display as it was.
pub proof fn law_shown_text_never_shrinks_to_its_own_prefix(
    a: AgreementView,
    hypothesis: Seq<char>,
)
    ensures
        !is_true_prefix(observe_step(a, hypothesis).confirmed, a.confirmed),
{
}

/// Right after a reset nothing is shown, whatever the first hypothesis is.
pub proof fn law_first_hypothesis_shows_nothing(margin: nat, hypothesis: Seq<char>)
    ensures
        observe_step(
            AgreementView { tail_margin_chars: margin, previous: Seq::empty(), confirmed: Seq::empty() },
            hypothesis,
        ).confirmed == Seq::<char>::empty(),
{
    assert(agree_from(Seq::<char>::empty(), hypothesis, 0) == 0);
    assert(hypothesis.take(0) =~= Seq::<char>::empty());
}

/// With no tail margin, a hypothesis repeated unchanged is shown in full,
/// unless a longer text that it is a prefix of is already shown.
pub proof fn law_repeated_hypothesis_settles(a: AgreementView, hypothesis: Seq<char>)
    requires
        a.tail_margin_chars == 0,
        a.previous == hypothesis,
    ensures
        observe_step(a, hypothesis).confirmed == hypothesis || (is_true_prefix(
            hypothesis,
            a.confirmed,
        ) && observe_step(a, hypothesis).confirmed == a.confirmed),
{
    lemma_agree_from_bounds(hypothesis, hypothesis, 0);
    lemma_agree_all(hypothesis, 0);
    assert(hypothesis.take(hypothesis.len() as int) =~= hypothesis);
}

proof fn lemma_agree_all(s: Seq<char>, k: nat)
    requires
        k <= s.len(),
    ensures
        agree_from(s, s, k) == s.len(),
    decreases s.len() - k,
{
    if k < s.len() {
        lemma_agree_all(s, k + 1);
    }
}

} // verus!
