use cms_video_recorder::audio::{
    append_capped, deliver, int_sample_at, padding_frames, silence_bytes, AudioFormat, SampleKind, SourceFormat,
    WAVE_FORMAT_EXTENSIBLE, WAVE_FORMAT_IEEE_FLOAT,
};
use cms_video_recorder::recorder::Error;

#[test]
fn block_align_is_two_bytes_per_channel() {
    let format = AudioFormat { sample_rate: 48_000, channels: 2, bits_per_sample: 16 };
    assert_eq!(format.block_align(), 4);
}

#[test]
fn source_format_from_mix_format() {
    let float = SourceFormat::from_fields(WAVE_FORMAT_EXTENSIBLE, true, 32, 2, 48_000, 8).unwrap();
    assert_eq!(float, SourceFormat { sample_rate: 48_000, channels: 2, block_align: 8, kind: SampleKind::F32 });
    let plain_float = SourceFormat::from_fields(WAVE_FORMAT_IEEE_FLOAT, false, 32, 1, 44_100, 4).unwrap();
    assert_eq!(plain_float.kind, SampleKind::F32);
    let pcm = SourceFormat::from_fields(1, false, 24, 6, 48_000, 18).unwrap();
    assert_eq!(pcm.kind, SampleKind::Int(3));
    assert_eq!(pcm.channels, 6);
    // An extensible format with an integer sub-format is integer PCM.
    let ext_pcm = SourceFormat::from_fields(WAVE_FORMAT_EXTENSIBLE, false, 16, 2, 48_000, 4).unwrap();
    assert_eq!(ext_pcm.kind, SampleKind::Int(2));
}

#[test]
fn source_format_rejections() {
    match SourceFormat::from_fields(1, false, 4, 2, 48_000, 1) {
        Err(Error::Audio(msg)) => assert_eq!(msg, "音频格式无效"),
        other => panic!("unexpected {other:?}"),
    }
    match SourceFormat::from_fields(1, false, 16, 0, 48_000, 1) {
        Err(Error::Audio(msg)) => assert_eq!(msg, "音频格式无效"),
        other => panic!("unexpected {other:?}"),
    }
    match SourceFormat::from_fields(WAVE_FORMAT_IEEE_FLOAT, false, 64, 2, 48_000, 16) {
        Err(Error::Audio(msg)) => assert_eq!(msg, "不支持的浮点位深: 8"),
        other => panic!("unexpected {other:?}"),
    }
}

#[test]
fn integer_samples_scale_to_i16() {
    // 8-bit is unsigned and re-centred.
    assert_eq!(int_sample_at(&[0x80], 0, 1, 0, 1), 0);
    assert_eq!(int_sample_at(&[0xFF], 0, 1, 0, 1), 127 * 256);
    assert_eq!(int_sample_at(&[0x00], 0, 1, 0, 1), -128 * 256);
    // 16-bit little endian.
    assert_eq!(int_sample_at(&[0x34, 0x12], 0, 2, 0, 2), 0x1234);
    assert_eq!(int_sample_at(&[0xFF, 0xFF], 0, 2, 0, 2), -1);
    // 24- and 32-bit keep the top two bytes.
    assert_eq!(int_sample_at(&[0x99, 0x34, 0x12], 0, 3, 0, 3), 0x1234);
    assert_eq!(int_sample_at(&[0x01, 0x02, 0x00, 0x80], 0, 4, 0, 4), i16::MIN);
    // A channel beyond the frame is silence.
    assert_eq!(int_sample_at(&[1, 2, 3, 4], 0, 4, 2, 2), 0);
    // The frame may start further in.
    assert_eq!(int_sample_at(&[9, 9, 0x02, 0x01, 0x04, 0x03], 2, 4, 1, 2), 0x0304);
}

#[test]
fn mono_feeds_both_channels() {
    let source = SourceFormat { sample_rate: 48_000, channels: 1, block_align: 2, kind: SampleKind::Int(2) };
    let mut out = vec![7u8];
    source.convert_into(&[0x34, 0x12, 0xFF, 0xFF, 0x55], &mut out);
    assert_eq!(out, vec![7, 0x34, 0x12, 0x34, 0x12, 0xFF, 0xFF, 0xFF, 0xFF]);
}

#[test]
fn surround_keeps_the_front_pair() {
    let source = SourceFormat { sample_rate: 48_000, channels: 3, block_align: 6, kind: SampleKind::Int(2) };
    let mut out = Vec::new();
    source.convert_into(&[1, 0, 2, 0, 3, 0], &mut out);
    assert_eq!(out, vec![1, 0, 2, 0]);
}

#[test]
fn eight_bit_stereo_converts() {
    let source = SourceFormat { sample_rate: 8_000, channels: 2, block_align: 2, kind: SampleKind::Int(1) };
    let mut out = Vec::new();
    source.convert_into(&[0x80, 0x81], &mut out);
    assert_eq!(out, vec![0, 0, 0, 1]);
}

#[test]
fn zero_block_align_converts_nothing() {
    let source = SourceFormat { sample_rate: 8_000, channels: 2, block_align: 0, kind: SampleKind::Int(2) };
    let mut out = vec![1];
    source.convert_into(&[1, 2, 3, 4], &mut out);
    assert_eq!(out, vec![1]);
}

#[test]
fn silence_padding_only_for_real_gaps() {
    // 48 kHz: a gap of up to 480 frames is jitter.
    assert_eq!(padding_frames(1_000, 600, 48_000), 0);
    assert_eq!(padding_frames(1_000, 519, 48_000), 481);
    assert_eq!(padding_frames(100, 200, 48_000), 0);
    assert_eq!(padding_frames(5, 0, 0), 5);
    assert_eq!(silence_bytes(10), 40);
}

#[test]
fn buffer_keeps_the_newest_audio() {
    let mut buffer = vec![1, 2, 3];
    append_capped(&mut buffer, &[4, 5], 10);
    assert_eq!(buffer, vec![1, 2, 3, 4, 5]);
    append_capped(&mut buffer, &[6, 7, 8], 4);
    assert_eq!(buffer, vec![5, 6, 7, 8]);
    append_capped(&mut buffer, &[], 0);
    assert!(buffer.is_empty());
}

#[test]
fn nothing_is_delivered_before_arming() {
    let mut buffer: Vec<u8> = vec![1, 2, 3, 4];
    deliver(&mut buffer, &[5, 6, 7, 8], false, 8);
    assert_eq!(buffer, vec![1, 2, 3, 4]);
    deliver(&mut buffer, &[5, 6, 7, 8], true, 8);
    assert_eq!(buffer, vec![1, 2, 3, 4, 5, 6, 7, 8]);
    deliver(&mut buffer, &[9, 10, 11, 12], true, 8);
    assert_eq!(buffer, vec![5, 6, 7, 8, 9, 10, 11, 12]);
    deliver(&mut buffer, &[], true, 4);
    assert_eq!(buffer, vec![5, 6, 7, 8, 9, 10, 11, 12]);
    assert_eq!(buffer.len() % 4, 0);
}

#[test]
fn a_run_of_deliveries_stays_within_the_cap() {
    let max = 12;
    let mut buffer: Vec<u8> = Vec::new();
    let mut next: u8 = 0;
    for poll in 0..10u8 {
        let staging: Vec<u8> = (0..4).map(|k| next.wrapping_add(k)).collect();
        next = next.wrapping_add(4);
        deliver(&mut buffer, &staging, poll >= 3, max);
        assert!(buffer.len() <= max);
        assert_eq!(buffer.len() % 4, 0);
        if poll < 3 {
            assert!(buffer.is_empty());
        }
    }
    assert_eq!(buffer, vec![28, 29, 30, 31, 32, 33, 34, 35, 36, 37, 38, 39]);
}
