use audio_pipeline::util::{convert_to_mono, convert_to_stereo, Channels, FormatError};
use audio_pipeline::util::{FromChannels, IntoChannels};

fn float_to_i16(value: f32) -> i16 {
    (value * (i16::MAX as f32 + 1.0)) as i16
}

#[test]
fn test_float_to_i16_conversion() {
    assert_eq!(
        float_to_i16(-1.0),
        i16::MIN,
        "Expected -1.0 to map to i16::MIN"
    );
    assert_eq!(float_to_i16(0.0), 0, "Expected 0.0 to map to 0");
    assert_eq!(
        float_to_i16(1.0),
        i16::MAX,
        "Expected 1.0 to map to i16::MAX"
    );

    // Additional sanity checks
    assert!(float_to_i16(-0.5) < 0, "Expected -0.5 to be negative");
    assert!(float_to_i16(0.5) > 0, "Expected 0.5 to be positive");
}

#[test]
fn stereo_duplicates_every_sample() {
    let mono: Vec<i16> = vec![3, -7, 0, 32767, -32768];
    let stereo = convert_to_stereo(&mono);
    assert_eq!(stereo, vec![3, 3, -7, -7, 0, 0, 32767, 32767, -32768, -32768]);
    assert_eq!(stereo.len(), 2 * mono.len());
}

#[test]
fn stereo_of_empty_is_empty() {
    let mono: Vec<u8> = Vec::new();
    assert!(convert_to_stereo(&mono).is_empty());
}

#[test]
fn stereo_works_for_any_copy_type() {
    assert_eq!(convert_to_stereo(&['a', 'b']), vec!['a', 'a', 'b', 'b']);
}

#[test]
fn mono_averages_pairs_toward_zero() {
    assert_eq!(convert_to_mono(&[10, 20, -10, -20]), Ok(vec![15, -15]));
    assert_eq!(convert_to_mono(&[1, 2, -1, -2, 1, -2]), Ok(vec![1, -1, 0]));
    assert_eq!(
        convert_to_mono(&[32767, 32767, -32768, -32768, 32767, -32768]),
        Ok(vec![32767, -32768, 0])
    );
    assert_eq!(convert_to_mono(&[]), Ok(Vec::new()));
}

#[test]
fn mono_rejects_odd_length() {
    assert_eq!(convert_to_mono(&[1, 2, 3]), Err(FormatError::OddLength));
    assert_eq!(convert_to_mono(&[5]), Err(FormatError::OddLength));
}

#[test]
fn stereo_then_mono_round_trips() {
    let mono: Vec<i16> = vec![0, 1, -1, 12345, -12345, i16::MAX, i16::MIN];
    assert_eq!(convert_to_mono(&convert_to_stereo(&mono)), Ok(mono));
}

#[test]
fn channel_counts_map_to_layouts() {
    assert_eq!(1u16.into_channels(), Channels::Mono);
    assert_eq!(2u16.into_channels(), Channels::Stereo);
    assert_eq!(0u16.into_channels(), Channels::Stereo);
    assert_eq!(6u16.into_channels(), Channels::Stereo);
    assert_eq!(Channels::Mono.from_channels(), 1);
    assert_eq!(Channels::Stereo.from_channels(), 2);
}

#[test]
fn stereo_round_trips_on_float_samples() {
    let mono: Vec<f32> = vec![0.0, 1.0, -1.0, 0.25, -0.333, 0.999_999];
    let stereo = convert_to_stereo(&mono);
    assert_eq!(stereo.len(), 2 * mono.len());
    for (i, sample) in mono.iter().enumerate() {
        assert_eq!(stereo[2 * i], *sample);
        assert_eq!(stereo[2 * i + 1], *sample);
        let mean = (stereo[2 * i] + stereo[2 * i + 1]) * 0.5;
        assert!((mean - sample).abs() < 1e-6);
    }
}
