//! 16-bit little-endian PCM: samples to bytes, and bytes (arriving in chunks
//! of any size) back to samples.

use vstd::prelude::*;

verus! {

/// The sample that two little-endian bytes encode.
pub open spec fn le_sample(lo: u8, hi: u8) -> i16 {
    let v = hi as int * 256 + lo as int;
    (if v >= 32768 {
        v - 65536
    } else {
        v
    }) as i16
}

/// The two little-endian bytes of a sample.
pub open spec fn le_bytes(s: i16) -> Seq<u8> {
    let v: int = if s < 0 {
        s + 65536
    } else {
        s as int
    };
    seq![(v % 256) as u8, (v / 256) as u8]
}

/// The samples in `b`, two bytes each; an odd last byte is not a sample.
pub open spec fn pcm_samples(b: Seq<u8>) -> Seq<i16> {
    Seq::new(b.len() / 2, |i: int| le_sample(b[2 * i], b[2 * i + 1]))
}

/// The bytes of a run of samples.
pub open spec fn pcm_bytes(s: Seq<i16>) -> Seq<u8>
    decreases s.len(),
{
    if s.len() == 0 {
        Seq::empty()
    } else {
        pcm_bytes(s.drop_last()) + le_bytes(s.last())
    }
}

/// Encoding gives two bytes per sample.
pub proof fn lemma_pcm_bytes_len(s: Seq<i16>)
    ensures
        pcm_bytes(s).len() == 2 * s.len(),
    decreases s.len(),
{
    if s.len() > 0 {
        lemma_pcm_bytes_len(s.drop_last());
    }
}

proof fn lemma_pcm_bytes_index(s: Seq<i16>, i: int)
    requires
        0 <= i < s.len(),
    ensures
        pcm_bytes(s)[2 * i] == le_bytes(s[i])[0],
        pcm_bytes(s)[2 * i + 1] == le_bytes(s[i])[1],
    decreases s.len(),
{
    lemma_pcm_bytes_len(s);
    lemma_pcm_bytes_len(s.drop_last());
    if i < s.len() - 1 {
        lemma_pcm_bytes_index(s.drop_last(), i);
    }
}

/// Encoding samples and decoding the bytes gives the samples back.
pub proof fn law_samples_round_trip(s: Seq<i16>)
    ensures
        pcm_samples(pcm_bytes(s)) == s,
{
    lemma_pcm_bytes_len(s);
    assert forall|i: int| 0 <= i < s.len() implies #[trigger] pcm_samples(pcm_bytes(s))[i] == s[i] by {
        lemma_pcm_bytes_index(s, i);
        let x = s[i];
        let v: int = if x < 0 {
            x + 65536
        } else {
            x as int
        };
        assert(v == (v / 256) * 256 + v % 256);
    }
    assert(pcm_samples(pcm_bytes(s)) =~= s);
}

fn sample_from(lo: u8, hi: u8) -> (r: i16)
    ensures
        r == le_sample(lo, hi),
{
    let v: u32 = (hi as u32) * 256 + (lo as u32);
    if v >= 32768 {
        (v as i32 - 65536) as i16
    } else {
        v as i16
    }
}

/// The little-endian bytes of the samples.
pub fn samples_to_bytes(samples: &[i16]) -> (r: Vec<u8>)
    ensures
        r@ == pcm_bytes(samples@),
{
    let mut r: Vec<u8> = Vec::new();
    let mut i: usize = 0;
    while i < samples.len()
        invariant
            0 <= i <= samples@.len(),
            r@ == pcm_bytes(samples@.take(i as int)),
        decreases samples.len() - i,
    {
        let s = samples[i];
        let v: u32 = if s < 0 {
            (s as i32 + 65536) as u32
        } else {
            s as u32
        };
        r.push((v % 256) as u8);
        r.push((v / 256) as u8);
        proof {
            let t = samples@.take(i + 1);
            assert(t.drop_last() == samples@.take(i as int));
            assert(t.last() == s);
            assert(r@ =~= pcm_bytes(t));
        }
        i = i + 1;
    }
    proof {
        assert(samples@.take(samples@.len() as int) == samples@);
    }
    r
}

/// Frames PCM bytes that arrive in messages of any length: a byte left over
/// from one message is the low byte of the first sample of the next.
#[derive(Debug)]
pub struct Pcm16Buffer {
    pending_byte: Option<u8>,
}

/// The held-over byte as a sequence (empty or one byte).
pub open spec fn pending_seq(p: Option<u8>) -> Seq<u8> {
    match p {
        Some(b) => seq![b],
        None => Seq::empty(),
    }
}

/// The byte left over from `b` once its samples are taken.
pub open spec fn leftover(b: Seq<u8>) -> Option<u8> {
    if b.len() % 2 == 1 {
        Some(b.last())
    } else {
        None
    }
}

impl View for Pcm16Buffer {
    type V = Option<u8>;

    closed spec fn view(&self) -> Option<u8> {
        self.pending_byte
    }
}

impl Pcm16Buffer {
    pub fn new() -> (r: Self)
        ensures
            r@ is None,
    {
        Pcm16Buffer { pending_byte: None }
    }

    /// The samples completed by `bytes`, in order; an odd byte at the end is
    /// held for the next call.
    pub fn feed(&mut self, bytes: &[u8]) -> (r: Vec<i16>)
        ensures
            r@ == pcm_samples(pending_seq(old(self)@) + bytes@),
            final(self)@ == leftover(pending_seq(old(self)@) + bytes@),
    {
        let ghost all = pending_seq(self.pending_byte) + bytes@;
        let mut samples: Vec<i16> = Vec::new();
        let mut offset: usize = 0;
        match self.pending_byte {
            Some(low) => {
                if bytes.len() == 0 {
                    assert(all =~= seq![low]);
                    assert(pcm_samples(all) =~= Seq::<i16>::empty());
                    return samples;
                }
                samples.push(sample_from(low, bytes[0]));
                offset = 1;
                self.pending_byte = None;
            },
            None => {},
        }
        let ghost shift: int = if offset == 1 {
            1
        } else {
            0
        };
        assert(all.len() == bytes@.len() + shift);
        assert(samples@ =~= pcm_samples(all).take(samples@.len() as int));
        while offset < bytes.len() && bytes.len() - offset >= 2
            invariant
                offset <= bytes@.len(),
                all.len() == bytes@.len() + shift,
                shift == 0 || shift == 1,
                forall|k: int| 0 <= k < bytes@.len() ==> all[k + shift] == bytes@[k],
                (offset + shift) % 2 == 0,
                samples@.len() == (offset + shift) / 2,
                samples@ =~= pcm_samples(all).take(samples@.len() as int),
            decreases bytes.len() - offset,
        {
            let s = sample_from(bytes[offset], bytes[offset + 1]);
            proof {
                let j = samples@.len() as int;
                assert(all[2 * j] == bytes@[offset as int]);
                assert(all[2 * j + 1] == bytes@[offset + 1]);
            }
            samples.push(s);
            offset = offset + 2;
        }
        if offset < bytes.len() {
            self.pending_byte = Some(bytes[offset]);
            assert(all.last() == bytes@[offset as int]);
        } else {
            self.pending_byte = None;
        }
        assert(samples@ =~= pcm_samples(all));
        samples
    }

    /// A byte is held over, waiting for its partner.
    pub fn has_pending(&self) -> (r: bool)
        ensures
            r == self@ is Some,
    {
        self.pending_byte.is_some()
    }
}

/// Feeding a byte stream in two pieces yields the same samples, and leaves
/// the same byte over, as feeding it at once.
pub proof fn law_chunking_does_not_matter(p: Option<u8>, a: Seq<u8>, b: Seq<u8>)
    ensures
        pcm_samples(pending_seq(p) + a) + pcm_samples(
            pending_seq(leftover(pending_seq(p) + a)) + b,
        ) == pcm_samples(pending_seq(p) + a + b),
        leftover(pending_seq(leftover(pending_seq(p) + a)) + b) == leftover(pending_seq(p) + a
            + b),
{
    let x = pending_seq(p) + a;
    let y = pending_seq(leftover(x)) + b;
    let z = x + b;
    let n = x.len() / 2;
    assert forall|k: int| 0 <= k < y.len() implies y[k] == #[trigger] z[2 * n + k] by {
        if x.len() % 2 == 1 {
            if k == 0 {
                assert(y[0] == x.last());
            } else {
                assert(y[k] == b[k - 1]);
            }
        } else {
            assert(y[k] == b[k]);
        }
    }
    assert(y.len() + 2 * n == z.len());
    let lhs = pcm_samples(x) + pcm_samples(y);
    assert forall|i: int| 0 <= i < lhs.len() implies #[trigger] lhs[i] == pcm_samples(z)[i] by {
        if i < n {
        } else {
            let j = i - n;
            assert(y[2 * j] == z[2 * n + 2 * j]);
            assert(y[2 * j + 1] == z[2 * n + 2 * j + 1]);
            assert(2 * i == 2 * n + 2 * j);
        }
    }
    assert(lhs =~= pcm_samples(z));
    if y.len() % 2 == 1 {
        assert(y.last() == z[2 * n + y.len() - 1]);
    }
}


/// The bytes of `chunks`, one after another.
pub open spec fn joined_chunks(chunks: Seq<Seq<u8>>) -> Seq<u8>
    decreases chunks.len(),
{
    if chunks.len() == 0 {
        Seq::empty()
    } else {
        joined_chunks(chunks.drop_last()) + chunks.last()
    }
}

/// The byte a buffer holding `p` holds after `feed` took each of `chunks`.
pub open spec fn fed_state(p: Option<u8>, chunks: Seq<Seq<u8>>) -> Option<u8>
    decreases chunks.len(),
{
    if chunks.len() == 0 {
        p
    } else {
        leftover(pending_seq(fed_state(p, chunks.drop_last())) + chunks.last())
    }
}

/// The samples those `feed` calls return, one call's after another's.
pub open spec fn fed_samples(p: Option<u8>, chunks: Seq<Seq<u8>>) -> Seq<i16>
    decreases chunks.len(),
{
    if chunks.len() == 0 {
        Seq::empty()
    } else {
        fed_samples(p, chunks.drop_last()) + pcm_samples(
            pending_seq(fed_state(p, chunks.drop_last())) + chunks.last(),
        )
    }
}

/// However a byte stream is cut into `feed` calls, the samples returned are
/// those of the whole stream and the byte held over is its odd last byte;
/// so a fresh buffer holds a byte exactly when an odd number of bytes went in.
pub proof fn law_any_chunking_is_the_same(p: Option<u8>, chunks: Seq<Seq<u8>>)
    ensures
        fed_samples(p, chunks) == pcm_samples(pending_seq(p) + joined_chunks(chunks)),
        fed_state(p, chunks) == leftover(pending_seq(p) + joined_chunks(chunks)),
        p is None ==> (fed_state(p, chunks) is Some <==> joined_chunks(chunks).len() % 2 == 1),
    decreases chunks.len(),
{
    if chunks.len() == 0 {
        assert(pending_seq(p) + joined_chunks(chunks) =~= pending_seq(p));
        if p is Some {
            assert(pending_seq(p).len() == 1);
        }
        assert(pcm_samples(pending_seq(p)) =~= Seq::<i16>::empty());
    } else {
        let rest = chunks.drop_last();
        law_any_chunking_is_the_same(p, rest);
        law_chunking_does_not_matter(p, joined_chunks(rest), chunks.last());
        assert(pending_seq(p) + joined_chunks(rest) + chunks.last() =~= pending_seq(p) + joined_chunks(
            chunks,
        ));
    }
    if p is None {
        assert(pending_seq(p) + joined_chunks(chunks) =~= joined_chunks(chunks));
    }
}

} // verus!
