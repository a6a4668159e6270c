use chat_inference::audio::{write_pcm_as_ogg, Sample};

#[test]
fn stream_is_header_then_samples() {
    let samples: [i16; 3] = [1, -2, 0x1234];
    let bytes = write_pcm_as_ogg(&samples, 24_000).unwrap();
    let mut expected: Vec<u8> = Vec::new();
    expected.extend_from_slice(b"RIFF");
    expected.extend_from_slice(&42u32.to_le_bytes());
    expected.extend_from_slice(b"WAVE");
    expected.extend_from_slice(b"fmt ");
    expected.extend_from_slice(&16u32.to_le_bytes());
    expected.extend_from_slice(&1u16.to_le_bytes());
    expected.extend_from_slice(&1u16.to_le_bytes());
    expected.extend_from_slice(&24_000u32.to_le_bytes());
    expected.extend_from_slice(&48_000u32.to_le_bytes());
    expected.extend_from_slice(&2u16.to_le_bytes());
    expected.extend_from_slice(&16u16.to_le_bytes());
    expected.extend_from_slice(b"data");
    expected.extend_from_slice(&6u32.to_le_bytes());
    expected.extend_from_slice(&[0x01, 0x00, 0xfe, 0xff, 0x34, 0x12]);
    assert_eq!(bytes, expected);
    assert_eq!(bytes.len(), 44 + 2 * samples.len());
}

#[test]
fn an_empty_stream_is_only_the_header() {
    let none: [i16; 0] = [];
    let bytes = write_pcm_as_ogg(&none, 44_100).unwrap();
    assert_eq!(bytes.len(), 44);
    assert_eq!(&bytes[4..8], &36u32.to_le_bytes());
    assert_eq!(&bytes[24..28], &44_100u32.to_le_bytes());
    assert_eq!(&bytes[28..32], &88_200u32.to_le_bytes());
    assert_eq!(&bytes[40..44], &0u32.to_le_bytes());
}

#[test]
fn extreme_samples_keep_their_two_complement_bytes() {
    let samples = [i16::MIN, i16::MAX, -1, 0];
    let bytes = write_pcm_as_ogg(&samples, 1).unwrap();
    assert_eq!(&bytes[44..], &[0x00, 0x80, 0xff, 0x7f, 0xff, 0xff, 0x00, 0x00]);
    for s in samples {
        assert_eq!(s.to_i16(), s);
    }
}

#[test]
fn a_rate_whose_double_does_not_fit_gives_no_stream() {
    let samples: [i16; 1] = [0];
    assert!(write_pcm_as_ogg(&samples, 2_147_483_647).is_some());
    assert!(write_pcm_as_ogg(&samples, 2_147_483_648).is_none());
    assert!(write_pcm_as_ogg(&samples, u32::MAX).is_none());
}
