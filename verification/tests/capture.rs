use gemini_live_transcribe::capture::{
    available_sources, debug_metadata, decode_core_audio_samples, duration_from_samples,
    ensure_sources_supported, has_source, interleaved_frames, interleaved_offset, planar_frames,
    raw_sample, recording_file_name, sample_width, signed_sample, unsupported_source_message,
    write_wav_header, AudioChunkBatcher, BufferShape, CapturedBuffer, DebugAudioDump,
    DebugCaptureConfig, LayoutError, RecordingError, SampleCoding, SourceKind, StreamLayout,
    UnsupportedSource, TARGET_BATCH_DURATION_MS, TARGET_SAMPLE_RATE,
};
use gemini_live_transcribe::paths::Platform;
use gemini_live_transcribe::tap::create_audio_aggregate_device_properties;

fn batch_samples() -> usize {
    (TARGET_SAMPLE_RATE as u64 * TARGET_BATCH_DURATION_MS / 1000) as usize
}

#[test]
fn audio_chunk_batcher_groups_small_inputs_into_target_size() {
    let mut batcher = AudioChunkBatcher::new(TARGET_SAMPLE_RATE, TARGET_BATCH_DURATION_MS);
    let base: i64 = 1_000_000_000;
    let half_batch = batch_samples() / 2;
    assert!(batcher.push(&vec![0.25f32; half_batch], base).is_empty());

    let batches = batcher.push(
        &vec![0.25f32; half_batch],
        base + TARGET_BATCH_DURATION_MS as i64 / 2 * 1_000_000,
    );
    assert_eq!(batches.len(), 1);
    assert_eq!(batches[0].samples.len(), batch_samples());
    assert!(batches[0].samples.iter().all(|sample| *sample == 0.25));
}

#[test]
fn audio_chunk_batcher_flushes_remainder() {
    let mut batcher = AudioChunkBatcher::new(TARGET_SAMPLE_RATE, TARGET_BATCH_DURATION_MS);
    assert!(batcher.push(&vec![0.25f32; 400], 0).is_empty());

    let tail = batcher.flush_audio().expect("tail should be present");
    assert_eq!(tail.samples.len(), 400);
    assert_eq!(tail.duration, 25_000_000);
    assert!(batcher.flush_audio().is_none());
}

#[test]
fn audio_chunk_batcher_tracks_chunk_start_from_audio_clock() {
    let mut batcher = AudioChunkBatcher::new(TARGET_SAMPLE_RATE, TARGET_BATCH_DURATION_MS);
    let received_at: i64 = 7_000_000_000;

    let batches = batcher.push(&vec![0.25f32; batch_samples()], received_at);

    assert_eq!(batches.len(), 1);
    assert_eq!(
        batches[0].started_at + TARGET_BATCH_DURATION_MS as i128 * 1_000_000,
        received_at as i128
    );
}

#[test]
fn batches_follow_each_other_and_keep_every_sample() {
    let mut batcher = AudioChunkBatcher::new(1_000, 10);
    let first: Vec<i16> = (0..25).collect();
    let second: Vec<i16> = (25..32).collect();
    let mut batches = batcher.push(&first, 25_000_000);
    batches.extend(batcher.push(&second, 999));
    assert!(batcher.push(&Vec::new(), 5).is_empty());
    batches.extend(batcher.flush_audio());
    let starts: Vec<i128> = batches.iter().map(|batch| batch.started_at).collect();
    assert_eq!(starts, vec![0, 10_000_000, 20_000_000, 30_000_000]);
    let lengths: Vec<u64> = batches.iter().map(|batch| batch.duration).collect();
    assert_eq!(lengths, vec![10_000_000, 10_000_000, 10_000_000, 2_000_000]);
    let samples: Vec<i16> = batches.iter().flat_map(|batch| batch.samples.clone()).collect();
    assert_eq!(samples, (0..32).collect::<Vec<i16>>());
}

#[test]
fn batching_keeps_the_audio_however_it_comes_in() {
    for sizes in [vec![400, 1, 0, 900, 2_000, 639], vec![640, 1_280], vec![], vec![1; 641]] {
        let mut batcher = AudioChunkBatcher::new(16_000, 40);
        let total: usize = sizes.iter().sum();
        let all: Vec<u32> = (0..total as u32).collect();
        let mut taken = 0;
        let mut batches = Vec::new();
        for (i, size) in sizes.iter().enumerate() {
            batches.extend(batcher.push(&all[taken..taken + size].to_vec(), i as i64));
            taken += size;
        }
        assert!(batches.iter().all(|batch| batch.samples.len() == 640));
        assert!(batches.iter().all(|batch| batch.duration == 40_000_000));
        let last = batcher.flush_audio();
        assert_eq!(last.as_ref().map_or(0, |batch| batch.samples.len()), total % 640);
        assert_eq!(last.is_none(), total % 640 == 0);
        assert!(batcher.flush_audio().is_none());
        batches.extend(last);
        let samples: Vec<u32> = batches.iter().flat_map(|batch| batch.samples.clone()).collect();
        assert_eq!(samples, all);
    }
}

#[test]
fn a_batch_holds_at_least_one_sample() {
    let mut batcher = AudioChunkBatcher::new(0, 0);
    let batches = batcher.push(&vec![1u8, 2], 0);
    assert_eq!(batches.len(), 2);
    let chunk = batcher.push(&vec![3u8], 0).pop().expect("a batch").with_activity(true);
    assert!(chunk.has_activity);
    assert_eq!(chunk.samples, vec![3]);
}

#[test]
fn sample_counts_are_lengths() {
    assert_eq!(duration_from_samples(0, 16_000), 0);
    assert_eq!(duration_from_samples(640, 16_000), 40_000_000);
    assert_eq!(duration_from_samples(1, 44_100), 22_675);
    assert_eq!(duration_from_samples(3, 0), 3_000_000_000);
    assert_eq!(duration_from_samples(u64::MAX, 1), u64::MAX);
}

#[test]
fn rejects_sources_that_are_not_supported_on_this_platform() {
    for platform in [Platform::MacOs, Platform::Linux, Platform::Windows] {
        let supported = available_sources(platform);
        ensure_sources_supported(platform, &supported).expect("supported sources should validate");
    }
    for platform in [Platform::Linux, Platform::Windows] {
        let error = ensure_sources_supported(platform, &vec![SourceKind::SystemAudio])
            .expect_err("unsupported source should be rejected");
        assert!(error.message().contains("only supported on macOS"));
    }
}

#[test]
fn the_first_unsupported_source_is_named() {
    assert_eq!(
        available_sources(Platform::MacOs),
        vec![SourceKind::Microphone, SourceKind::SystemAudio]
    );
    assert_eq!(available_sources(Platform::Linux), vec![SourceKind::Microphone]);
    let sources = vec![SourceKind::Microphone, SourceKind::SystemAudio];
    assert_eq!(ensure_sources_supported(Platform::MacOs, &sources), Ok(()));
    assert_eq!(
        ensure_sources_supported(Platform::Windows, &sources),
        Err(UnsupportedSource { source: SourceKind::SystemAudio })
    );
    assert_eq!(
        unsupported_source_message(SourceKind::Microphone),
        "microphone capture is unavailable on this platform"
    );
    assert!(has_source(&sources, SourceKind::SystemAudio));
    assert!(!has_source(&vec![], SourceKind::SystemAudio));
}

#[test]
fn sources_have_names() {
    assert_eq!(SourceKind::Microphone.title(), "microphone");
    assert_eq!(SourceKind::SystemAudio.title(), "system audio");
    assert_eq!(SourceKind::Microphone.prompt_label(), "Microphone");
    assert_eq!(SourceKind::SystemAudio.prompt_label(), "System audio");
    assert_eq!(SourceKind::Microphone.debug_slug(), "microphone");
    assert_eq!(SourceKind::SystemAudio.debug_slug(), "system-audio");
}

#[test]
fn wav_headers_are_written() {
    let header = write_wav_header(16_000, 1, 320).expect("header");
    assert_eq!(
        header,
        vec![
            82, 73, 70, 70, 100, 1, 0, 0, 87, 65, 86, 69, 102, 109, 116, 32, 16, 0, 0, 0, 1, 0, 1,
            0, 128, 62, 0, 0, 0, 125, 0, 0, 2, 0, 16, 0, 100, 97, 116, 97, 64, 1, 0, 0
        ]
    );
    assert_eq!(write_wav_header(u32::MAX, 1, 0), Err(RecordingError::ByteRate));
    assert_eq!(write_wav_header(1, 40_000, 0), Err(RecordingError::BlockAlign));
    assert_eq!(write_wav_header(1, 1, u32::MAX), Err(RecordingError::RiffSize));
    assert_eq!(RecordingError::ByteRate.message(), "compute wav byte rate");
    assert_eq!(RecordingError::BlockAlign.message(), "compute wav block align");
    assert_eq!(RecordingError::RiffSize.message(), "compute wav riff size");
}

#[test]
fn recordings_count_their_bytes() {
    let mut dump = DebugAudioDump::new();
    let empty = dump.header().expect("header");
    assert_eq!(dump.count_written(320), Ok(()));
    let full = dump.header().expect("header");
    assert_eq!(empty.len(), full.len());
    assert_eq!(full[40..], [64, 1, 0, 0]);
    assert_eq!(dump.count_written(u32::MAX as usize), Err(RecordingError::TooLong));
    assert_eq!(RecordingError::TooLong.message(), "debug wav exceeded 4 GiB");
    assert_eq!(dump.count_written(u32::MAX as usize - 320), Ok(()));
    assert_eq!(dump.header(), Err(RecordingError::RiffSize));
}

#[test]
fn recordings_are_described() {
    let config = DebugCaptureConfig::new("session-1".into());
    assert_eq!(config.session_id(), "session-1");
    assert_eq!(recording_file_name(SourceKind::SystemAudio, "wav"), "system-audio.wav");
    assert_eq!(
        debug_metadata("session-1", SourceKind::Microphone, "/tmp/microphone.wav").to_text(),
        [
            r#"{"channels":1,"sample_format":"pcm_s16le","sample_rate_hz":16000,"#,
            r#""session_id":"session-1","source":"microphone","#,
            r#""stage":"post-resample pre-gemini","wav_path":"/tmp/microphone.wav"}"#,
        ]
        .concat()
    );
}

fn shape(channels: u32, byte_count: u32) -> BufferShape {
    BufferShape { has_data: true, channels, byte_count }
}

#[test]
fn interleaved_buffers_are_counted_in_frames() {
    assert_eq!(interleaved_frames(shape(2, 32), 2, 4), Ok(Some(4)));
    let silent = BufferShape { has_data: false, channels: 2, byte_count: 32 };
    assert_eq!(interleaved_frames(silent, 2, 4), Ok(None));
    assert_eq!(interleaved_frames(shape(2, 32), 0, 4), Ok(None));
    let mismatch = LayoutError::ChannelMismatch { expected: 2, reported: 1 };
    assert_eq!(interleaved_frames(shape(1, 32), 2, 4), Err(mismatch));
    assert_eq!(
        mismatch.message(),
        "system audio channel mismatch: format expects 2, buffer reported 1"
    );
    assert_eq!(interleaved_frames(shape(2, 33), 2, 4), Err(LayoutError::InterleavedSize(33)));
    assert_eq!(
        LayoutError::InterleavedSize(33).message(),
        "invalid interleaved system audio buffer size: 33"
    );
    assert_eq!(interleaved_frames(shape(2, 32), 2, usize::MAX), Err(LayoutError::FrameWidth));
    assert_eq!(LayoutError::FrameWidth.message(), "system audio frame width overflow");
    assert_eq!(interleaved_offset(3, 4, 1, 2, 4), 28);
}

#[test]
fn planar_buffers_are_counted_in_frames() {
    assert_eq!(planar_frames(&vec![shape(1, 16), shape(1, 16)], 2, 4), Ok(Some(4)));
    assert_eq!(planar_frames(&vec![], 0, 4), Ok(None));
    let count = LayoutError::BufferCount { buffers: 1, channels: 2 };
    assert_eq!(planar_frames(&vec![shape(1, 16)], 2, 4), Err(count));
    assert_eq!(
        count.message(),
        "unexpected planar system audio layout: 1 buffers for 2 channels"
    );
    assert_eq!(
        planar_frames(&vec![shape(1, 16), shape(2, 16)], 2, 4),
        Err(LayoutError::PlanarChannels(2))
    );
    assert_eq!(
        LayoutError::PlanarChannels(2).message(),
        "unexpected planar system audio channel count in buffer: 2"
    );
    assert_eq!(
        planar_frames(&vec![shape(1, 16), shape(1, 12)], 2, 4),
        Err(LayoutError::PlanarSize(12))
    );
    assert_eq!(
        LayoutError::PlanarSize(12).message(),
        "mismatched planar system audio buffer size: 12"
    );
}

#[test]
fn samples_are_read_in_both_byte_orders() {
    let data: Vec<u8> = vec![0xff, 0x01, 0x02, 0x80];
    assert_eq!(raw_sample(&data, 0, 4, false), 0x8002_01ff);
    assert_eq!(raw_sample(&data, 0, 4, true), 0xff01_0280);
    assert_eq!(raw_sample(&data, 1, 3, false), 0x80_0201);
    assert_eq!(signed_sample(raw_sample(&data, 0, 1, false), 1), -1);
    assert_eq!(signed_sample(raw_sample(&data, 1, 2, true), 2), 0x0102);
    assert_eq!(signed_sample(raw_sample(&data, 1, 3, false), 3), 0x80_0201 - 0x100_0000);
    assert_eq!(signed_sample(0x8000_0000, 4), i32::MIN);
}

#[test]
fn samples_have_widths() {
    assert_eq!(sample_width(SampleCoding::Float32, true), Ok(4));
    assert_eq!(sample_width(SampleCoding::Int32, false), Ok(4));
    assert_eq!(sample_width(SampleCoding::Int24, true), Ok(3));
    assert_eq!(sample_width(SampleCoding::Int24, false), Err(LayoutError::UnpackedInt24));
    assert_eq!(
        LayoutError::UnpackedInt24.message(),
        "unsupported system audio sample layout: unpacked 24-bit PCM"
    );
    assert_eq!(sample_width(SampleCoding::Int16, true), Ok(2));
    assert_eq!(sample_width(SampleCoding::Int8, true), Ok(1));
}

fn captured(channels: u32, data: &[u8]) -> CapturedBuffer {
    CapturedBuffer { channels, data: Some(data.to_vec()) }
}

fn layout(coding: SampleCoding, interleaved: bool, channel_count: usize) -> StreamLayout {
    StreamLayout { coding, interleaved, packed: true, big_endian: false, channel_count }
}

#[test]
fn interleaved_system_audio_is_decoded() {
    let stereo = layout(SampleCoding::Int16, true, 2);
    let buffers = vec![captured(2, &[1, 0, 2, 0, 3, 0, 255, 255])];
    let frames = decode_core_audio_samples(&buffers, stereo).expect("frames");
    assert_eq!(frames, vec![vec![1, 2], vec![3, 65535]]);
    assert_eq!(decode_core_audio_samples(&vec![], stereo), Ok(vec![]));
    let silent = vec![CapturedBuffer { channels: 2, data: None }];
    assert_eq!(decode_core_audio_samples(&silent, stereo), Ok(vec![]));
    assert_eq!(
        decode_core_audio_samples(&vec![captured(2, &[1, 2, 3])], stereo),
        Err(LayoutError::InterleavedSize(3))
    );
}

#[test]
fn planar_system_audio_is_decoded() {
    let mut planar = layout(SampleCoding::Float32, false, 2);
    planar.big_endian = true;
    let one = 1.0f32.to_be_bytes();
    let half = (-0.5f32).to_be_bytes();
    let buffers = vec![captured(1, &one), captured(1, &half)];
    let frames = decode_core_audio_samples(&buffers, planar).expect("frames");
    let values: Vec<f32> = frames[0].iter().map(|word| f32::from_bits(*word)).collect();
    assert_eq!(values, vec![1.0, -0.5]);
    let lost = vec![captured(1, &one), CapturedBuffer { channels: 1, data: None }];
    assert_eq!(decode_core_audio_samples(&lost, planar), Ok(vec![]));
    let mut unpacked = layout(SampleCoding::Int24, false, 2);
    unpacked.packed = false;
    assert_eq!(
        decode_core_audio_samples(&buffers, unpacked),
        Err(LayoutError::UnpackedInt24)
    );
}

#[test]
fn the_tap_device_is_private() {
    let properties = create_audio_aggregate_device_properties("tap-1", 42);
    assert_eq!(properties.name, "gemini-live-transcribe system audio");
    assert_eq!(properties.uid, "com.jacoblincool.gemini-live-transcribe.system-audio.42");
    assert_eq!(properties.taps.len(), 1);
    assert_eq!(properties.taps[0].uid, "tap-1");
    assert!(properties.taps[0].drift_compensation);
    assert!(!properties.tap_auto_start);
    assert!(properties.is_private && properties.endpoint_is_private);
}
