use otoa_input::asr_session::SAMPLE_RATE;
use otoa_input::wav::wav_bytes;

#[test]
fn header_describes_16bit_mono_at_the_session_sample_rate() {
    // The samples 0.0, 1.0 and -1.0, scaled to 16 bits.
    let bytes = wav_bytes(&[0, 32_767, -32_767]);
    assert_eq!(&bytes[0..4], b"RIFF");
    assert_eq!(&bytes[8..12], b"WAVE");
    assert_eq!(u16::from_le_bytes([bytes[22], bytes[23]]), 1);
    assert_eq!(
        u32::from_le_bytes([bytes[24], bytes[25], bytes[26], bytes[27]]),
        SAMPLE_RATE
    );
    assert_eq!(u16::from_le_bytes([bytes[34], bytes[35]]), 16);
    assert_eq!(bytes.len(), 44 + 3 * 2);
}

#[test]
fn sizes_and_samples_follow_the_header() {
    let bytes = wav_bytes(&[0, 32_767, -32_768]);
    assert_eq!(u32::from_le_bytes([bytes[4], bytes[5], bytes[6], bytes[7]]), 36 + 6);
    assert_eq!(&bytes[12..16], b"fmt ");
    assert_eq!(u32::from_le_bytes([bytes[16], bytes[17], bytes[18], bytes[19]]), 16);
    assert_eq!(u16::from_le_bytes([bytes[20], bytes[21]]), 1);
    assert_eq!(u32::from_le_bytes([bytes[28], bytes[29], bytes[30], bytes[31]]), 32_000);
    assert_eq!(u16::from_le_bytes([bytes[32], bytes[33]]), 2);
    assert_eq!(&bytes[36..40], b"data");
    assert_eq!(u32::from_le_bytes([bytes[40], bytes[41], bytes[42], bytes[43]]), 6);
    assert_eq!(i16::from_le_bytes([bytes[44], bytes[45]]), 0);
    assert_eq!(i16::from_le_bytes([bytes[46], bytes[47]]), 32_767);
    assert_eq!(i16::from_le_bytes([bytes[48], bytes[49]]), -32_768);
}

#[test]
fn no_samples_make_a_bare_header() {
    assert_eq!(wav_bytes(&[]).len(), 44);
}
