use voice_tool::level::{downmix_to_mono, meter_level, rms_level, LEVEL_GAIN};
use voice_tool::recorder::{resolve_device, AudioRecorder, DeviceChoice, DEFAULT_SILENCE_THRESHOLD};
use voice_tool::streaming::{encode_pcm_le, AudioBatcher, FLUSH_THRESHOLD};

#[test]
fn capture_and_stream_three_chunks() {
    let device = resolve_device(Some(0), 1, true).unwrap();
    assert_eq!(device, DeviceChoice::Index(0));
    let mut recorder = AudioRecorder::new();
    let generation = recorder.next_stream();
    recorder.start_recording(generation, Ok(48_000)).unwrap();

    let mut batcher = AudioBatcher::new(FLUSH_THRESHOLD);
    let mut flushed: Vec<Vec<u8>> = Vec::new();
    let mut captured: Vec<i16> = Vec::new();
    for k in 0..3i16 {
        let interleaved: Vec<i16> = (0..4000).map(|i| ((i % 200) as i16 - 100) * (k + 1)).collect();
        let chunk = downmix_to_mono(&interleaved, 2);
        assert_eq!(chunk.len(), 2000);
        assert!(meter_level(rms_level(&chunk), LEVEL_GAIN) > 0);
        assert!(recorder.accepts_block(generation));
        assert!(recorder.append_block(generation, &chunk));
        captured.extend_from_slice(&chunk);
        if let Some(bytes) = batcher.push_chunk(&chunk, false) {
            flushed.push(bytes);
            batcher.mark_sent();
        }
    }
    assert_eq!(flushed.len(), 1);
    assert!(flushed[0].len() >= 2 * 4800);
    assert_eq!(flushed[0], encode_pcm_le(&captured));

    let result = recorder.stop_recording(DEFAULT_SILENCE_THRESHOLD);
    assert_eq!(result.audio_data.len(), 6000);
    assert_eq!(result.audio_data, captured);
    assert_eq!(result.sample_rate, 48_000);
    assert_eq!(batcher.finish(), None);
}
