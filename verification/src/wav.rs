//! The WAV file an utterance is dumped to: a 44-byte RIFF header for 16-bit
//! mono PCM at the session's sample rate, then the samples.

use crate::asr_session::SAMPLE_RATE;
use crate::pcm::{pcm_bytes, samples_to_bytes};
use vstd::prelude::*;

verus! {

/// The two little-endian bytes of a 16-bit field.
pub open spec fn le16(n: nat) -> Seq<u8> {
    seq![(n % 256) as u8, ((n / 256) % 256) as u8]
}

/// The four little-endian bytes of a 32-bit field.
pub open spec fn le32(n: nat) -> Seq<u8> {
    seq![(n % 256) as u8, ((n / 256) % 256) as u8, ((n / 65536) % 256) as u8, ((n / 16777216) % 256) as u8]
}

/// `RIFF`, `WAVE`, `fmt ` and `data` in ASCII.
pub open spec fn riff_tag() -> Seq<u8> {
    seq![0x52u8, 0x49, 0x46, 0x46]
}

pub open spec fn wave_fmt_tag() -> Seq<u8> {
    seq![0x57u8, 0x41, 0x56, 0x45, 0x66, 0x6d, 0x74, 0x20]
}

pub open spec fn data_tag() -> Seq<u8> {
    seq![0x64u8, 0x61, 0x74, 0x61]
}

/// The header of a PCM WAV file holding `data_len` bytes of 16-bit mono
/// samples at `rate` samples a second: the RIFF size, the 16-byte `fmt `
/// chunk (PCM, one channel, the rate, two bytes per sample, 16 bits), and
/// the size of the data.
pub open spec fn wav_header(rate: nat, data_len: nat) -> Seq<u8> {
    riff_tag() + le32(36 + data_len) + wave_fmt_tag() + le32(16) + le16(1) + le16(1) + le32(rate) + le32(
        rate * 2,
    ) + le16(2) + le16(16) + data_tag() + le32(data_len)
}

fn push_le16(out: &mut Vec<u8>, n: u16)
    ensures
        final(out)@ == old(out)@ + le16(n as nat),
{
    out.push((n % 256) as u8);
    out.push((n / 256) as u8);
    assert(final(out)@ =~= old(out)@ + le16(n as nat));
}

fn push_le32(out: &mut Vec<u8>, n: u32)
    ensures
        final(out)@ == old(out)@ + le32(n as nat),
{
    out.push((n % 256) as u8);
    out.push(((n / 256) % 256) as u8);
    out.push(((n / 65536) % 256) as u8);
    out.push((n / 16777216) as u8);
    assert(final(out)@ =~= old(out)@ + le32(n as nat));
}

fn push_bytes(out: &mut Vec<u8>, bytes: &[u8])
    ensures
        final(out)@ == old(out)@ + bytes@,
{
    let ghost start = out@;
    let mut i: usize = 0;
    while i < bytes.len()
        invariant
            0 <= i <= bytes@.len(),
            out@ == start + bytes@.take(i as int),
        decreases bytes.len() - i,
    {
        out.push(bytes[i]);
        assert(bytes@.take(i + 1) =~= bytes@.take(i as int).push(bytes@[i as int]));
        i = i + 1;
    }
    assert(bytes@.take(i as int) =~= bytes@);
}

/// The WAV file of the samples (see `wav_header`). The sizes must fit the
/// header's 32-bit fields.
pub fn wav_bytes(samples: &[i16]) -> (r: Vec<u8>)
    requires
        36 + 2 * samples@.len() <= u32::MAX,
    ensures
        r@ == wav_header(SAMPLE_RATE as nat, 2 * samples@.len()) + pcm_bytes(samples@),
        r@.len() == 44 + 2 * samples@.len(),
{
    let data_len: u32 = (samples.len() * 2) as u32;
    let mut bytes: Vec<u8> = Vec::new();
    push_bytes(&mut bytes, &[0x52u8, 0x49, 0x46, 0x46]);
    push_le32(&mut bytes, 36 + data_len);
    push_bytes(&mut bytes, &[0x57u8, 0x41, 0x56, 0x45, 0x66, 0x6d, 0x74, 0x20]);
    push_le32(&mut bytes, 16);
    push_le16(&mut bytes, 1);
    push_le16(&mut bytes, 1);
    push_le32(&mut bytes, SAMPLE_RATE);
    push_le32(&mut bytes, SAMPLE_RATE * 2);
    push_le16(&mut bytes, 2);
    push_le16(&mut bytes, 16);
    push_bytes(&mut bytes, &[0x64u8, 0x61, 0x74, 0x61]);
    push_le32(&mut bytes, data_len);
    let ghost header = bytes@;
    assert(header =~= wav_header(SAMPLE_RATE as nat, 2 * samples@.len()));
    let data = samples_to_bytes(samples);
    push_bytes(&mut bytes, data.as_slice());
    proof {
        crate::pcm::lemma_pcm_bytes_len(samples@);
    }
    bytes
}

} // verus!
