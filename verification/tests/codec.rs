use audio_pipeline::codec::{
    CodecFault, DecodeError, DecodeRequest, DecodeStage, EncodeError, EncodeStage,
};
use audio_pipeline::config::{negotiate, ConfigurationError};
use audio_pipeline::frame::{frame_byte_len, frame_len};
use audio_pipeline::util::Channels;

#[test]
fn frame_geometry_is_fixed() {
    assert_eq!(frame_len(Channels::Mono), 960);
    assert_eq!(frame_len(Channels::Stereo), 1920);
    assert_eq!(frame_byte_len(Channels::Mono), 1920);
    assert_eq!(frame_byte_len(Channels::Stereo), 3840);
}

#[test]
fn packet_limit_is_checked_at_start() {
    assert!(EncodeStage::new(Channels::Stereo, 1920).is_ok());
    assert!(EncodeStage::new(Channels::Stereo, 3840).is_ok());
    assert!(EncodeStage::new(Channels::Stereo, 1).is_ok());
    assert_eq!(
        EncodeStage::new(Channels::Stereo, 0).err(),
        Some(ConfigurationError::PacketLimit)
    );
    assert_eq!(
        EncodeStage::new(Channels::Stereo, 3841).err(),
        Some(ConfigurationError::PacketLimit)
    );
    assert_eq!(
        EncodeStage::new(Channels::Mono, 1921).err(),
        Some(ConfigurationError::PacketLimit)
    );
    assert!(DecodeStage::new(Channels::Mono, 1920).is_ok());
    assert_eq!(
        DecodeStage::new(Channels::Mono, 0).err(),
        Some(ConfigurationError::PacketLimit)
    );
    assert_eq!(
        DecodeStage::new(Channels::Stereo, 4000).err(),
        Some(ConfigurationError::PacketLimit)
    );
}

#[test]
fn encode_stage_accepts_only_whole_frames() {
    let mut stage = EncodeStage::new(Channels::Stereo, 1920).unwrap();
    assert_eq!(stage.packet_limit(), 1920);
    assert_eq!(stage.check_frame(&vec![0i16; 1920]), Ok(()));
    assert_eq!(stage.loss_count(), 0);
    assert_eq!(stage.check_frame(&vec![0i16; 1919]), Err(EncodeError::FrameSizeMismatch));
    assert_eq!(stage.check_frame(&vec![0i16; 960]), Err(EncodeError::FrameSizeMismatch));
    assert_eq!(stage.check_frame(&[]), Err(EncodeError::FrameSizeMismatch));
    assert_eq!(stage.loss_count(), 3);
    let mut mono = EncodeStage::new(Channels::Mono, 960).unwrap();
    assert_eq!(mono.check_frame(&vec![0i16; 960]), Ok(()));
    assert_eq!(mono.check_frame(&vec![0i16; 1920]), Err(EncodeError::FrameSizeMismatch));
}

#[test]
fn encode_stage_bounds_packets() {
    let mut stage = EncodeStage::new(Channels::Stereo, 4).unwrap();
    assert_eq!(stage.finish(Ok(vec![9, 8, 7])), Ok(vec![9, 8, 7]));
    assert_eq!(stage.finish(Ok(vec![1, 2, 3, 4])), Ok(vec![1, 2, 3, 4]));
    assert_eq!(stage.loss_count(), 0);
    assert_eq!(stage.finish(Ok(vec![1, 2, 3, 4, 5])), Err(EncodeError::PacketTooLarge));
    assert_eq!(stage.loss_count(), 1);
    assert_eq!(
        stage.finish(Err(CodecFault::BadArg)),
        Err(EncodeError::Codec(CodecFault::BadArg))
    );
    assert_eq!(
        stage.finish(Err(CodecFault::BufferTooSmall)),
        Err(EncodeError::Codec(CodecFault::BufferTooSmall))
    );
    assert_eq!(stage.loss_count(), 3);
}

#[test]
fn decode_stage_plans_concealment_for_missing_packets() {
    let mut stage = DecodeStage::new(Channels::Stereo, 8).unwrap();
    assert_eq!(stage.frame_len(), 1920);
    assert_eq!(stage.plan(None), Ok(DecodeRequest::Conceal));
    assert_eq!(stage.concealed_count(), 1);
    assert_eq!(stage.loss_count(), 0);
    assert_eq!(stage.plan(Some(&[1, 2, 3])), Ok(DecodeRequest::Packet));
    assert_eq!(stage.plan(Some(&[0; 8])), Ok(DecodeRequest::Packet));
    assert_eq!(stage.concealed_count(), 1);
    assert_eq!(stage.loss_count(), 0);
}

#[test]
fn decode_stage_refuses_malformed_packets() {
    let mut stage = DecodeStage::new(Channels::Stereo, 8).unwrap();
    assert_eq!(stage.plan(Some(&[])), Err(DecodeError::EmptyPacket));
    assert_eq!(stage.plan(Some(&[0; 9])), Err(DecodeError::PacketTooLarge));
    assert_eq!(stage.loss_count(), 2);
    assert_eq!(stage.concealed_count(), 0);
}

#[test]
fn decode_stage_accepts_exactly_one_frame() {
    let mut stage = DecodeStage::new(Channels::Stereo, 1920).unwrap();
    let frame: Vec<i16> = (0..1920).map(|i| i as i16).collect();
    assert_eq!(stage.finish(Ok(frame.clone())), Ok(frame));
    assert_eq!(stage.loss_count(), 0);
    assert_eq!(stage.finish(Ok(vec![0i16; 960])), Err(DecodeError::FrameSizeMismatch));
    assert_eq!(stage.finish(Ok(vec![0i16; 1921])), Err(DecodeError::FrameSizeMismatch));
    assert_eq!(
        stage.finish(Err(CodecFault::InvalidPacket)),
        Err(DecodeError::Codec(CodecFault::InvalidPacket))
    );
    assert_eq!(stage.loss_count(), 3);
    let mut mono = DecodeStage::new(Channels::Mono, 960).unwrap();
    assert_eq!(mono.finish(Ok(vec![7i16; 960])), Ok(vec![7i16; 960]));
}

#[test]
fn encode_passes_whole_frames_to_the_codec() {
    let mut stage = EncodeStage::new(Channels::Stereo, 1920).unwrap();
    let frame: Vec<i16> = (0..1920).map(|i| i as i16).collect();
    let mut seen: Vec<(usize, usize)> = Vec::new();
    let packet = stage.encode(&frame, |pcm, limit| {
        seen.push((pcm.len(), limit));
        Ok(vec![pcm[1] as u8, pcm[2] as u8, pcm[3] as u8])
    });
    assert_eq!(packet, Ok(vec![1, 2, 3]));
    assert_eq!(seen, vec![(1920, 1920)]);
    assert_eq!(stage.loss_count(), 0);
}

#[test]
fn encode_refuses_wrong_length_before_the_codec() {
    let mut stage = EncodeStage::new(Channels::Stereo, 1920).unwrap();
    let mut calls = 0;
    let result = stage.encode(&vec![0i16; 960], |_, _| {
        calls += 1;
        Ok(vec![0u8; 10])
    });
    assert_eq!(result, Err(EncodeError::FrameSizeMismatch));
    assert_eq!(calls, 0);
    assert_eq!(stage.loss_count(), 1);
}

#[test]
fn encode_reports_codec_faults_and_oversized_packets() {
    let mut stage = EncodeStage::new(Channels::Mono, 16).unwrap();
    let frame = vec![0i16; 960];
    assert_eq!(
        stage.encode(&frame, |_, _| Err(CodecFault::InternalError)),
        Err(EncodeError::Codec(CodecFault::InternalError))
    );
    assert_eq!(
        stage.encode(&frame, |_, limit| Ok(vec![0u8; limit + 1])),
        Err(EncodeError::PacketTooLarge)
    );
    assert_eq!(
        stage.encode(&frame, |_, limit| Ok(vec![7u8; limit])),
        Ok(vec![7u8; 16])
    );
    assert_eq!(stage.loss_count(), 2);
}

#[test]
fn decode_passes_packets_and_gaps_to_the_codec() {
    let mut stage = DecodeStage::new(Channels::Mono, 8).unwrap();
    let decoded = stage.decode(Some(&[5, 6]), |packet, len| {
        assert_eq!(packet, Some(&[5u8, 6u8][..]));
        Ok(vec![11i16; len])
    });
    assert_eq!(decoded, Ok(vec![11i16; 960]));
    let concealed = stage.decode(None, |packet, len| {
        assert_eq!(packet, None);
        Ok(vec![-3i16; len])
    });
    assert_eq!(concealed, Ok(vec![-3i16; 960]));
    assert_eq!(stage.concealed_count(), 1);
    assert_eq!(stage.loss_count(), 0);
}

#[test]
fn decode_refuses_bad_packets_before_the_codec() {
    let mut stage = DecodeStage::new(Channels::Mono, 8).unwrap();
    let mut calls = 0;
    assert_eq!(
        stage.decode(Some(&[]), |_, len| {
            calls += 1;
            Ok(vec![0i16; len])
        }),
        Err(DecodeError::EmptyPacket)
    );
    assert_eq!(
        stage.decode(Some(&[0u8; 9]), |_, len| {
            calls += 1;
            Ok(vec![0i16; len])
        }),
        Err(DecodeError::PacketTooLarge)
    );
    assert_eq!(calls, 0);
    assert_eq!(stage.loss_count(), 2);
}

#[test]
fn decode_reports_codec_faults_and_short_frames() {
    let mut stage = DecodeStage::new(Channels::Stereo, 8).unwrap();
    assert_eq!(
        stage.decode(Some(&[1]), |_, _| Err(CodecFault::InvalidPacket)),
        Err(DecodeError::Codec(CodecFault::InvalidPacket))
    );
    assert_eq!(
        stage.decode(Some(&[1]), |_, len| Ok(vec![0i16; len / 2])),
        Err(DecodeError::FrameSizeMismatch)
    );
    assert_eq!(stage.loss_count(), 2);
}

#[test]
fn device_must_run_at_the_fixed_rate() {
    assert_eq!(negotiate(48_000, 1), Ok(Channels::Mono));
    assert_eq!(negotiate(48_000, 2), Ok(Channels::Stereo));
    assert_eq!(negotiate(48_000, 6), Ok(Channels::Stereo));
    assert_eq!(negotiate(44_100, 2), Err(ConfigurationError::SampleRate));
    assert_eq!(negotiate(0, 1), Err(ConfigurationError::SampleRate));
}
