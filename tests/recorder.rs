use voice_tool::recorder::{
    resolve_device, AudioDeviceInfo, AudioRecorder, CaptureError, DeviceChoice,
    DEFAULT_SILENCE_THRESHOLD, INITIAL_SAMPLE_RATE,
};

fn started(rate: u32) -> (AudioRecorder, u64) {
    let mut rec = AudioRecorder::new();
    let g = rec.next_stream();
    rec.start_recording(g, Ok(rate)).unwrap();
    (rec, g)
}

#[test]
fn new_recorder_is_idle() {
    let rec = AudioRecorder::new();
    assert!(!rec.is_recording());
    assert_eq!(rec.get_sample_rate(), INITIAL_SAMPLE_RATE);
    assert_eq!(rec.current_generation(), 0);
}

#[test]
fn stop_without_start_is_empty_and_silent() {
    let mut rec = AudioRecorder::new();
    let r = rec.stop_recording(DEFAULT_SILENCE_THRESHOLD);
    assert!(r.audio_data.is_empty());
    assert_eq!(r.avg_rms, 0);
    assert!(r.is_silent);
    assert_eq!(r.sample_rate, INITIAL_SAMPLE_RATE);
    let again = rec.stop_recording(DEFAULT_SILENCE_THRESHOLD);
    assert!(again.audio_data.is_empty());
}

#[test]
fn capture_three_chunks_then_stop() {
    let (mut rec, g) = started(48_000);
    assert!(rec.is_recording());
    for _ in 0..3 {
        assert!(rec.append_block(g, &vec![1000i16; 2000]));
    }
    let r = rec.stop_recording(DEFAULT_SILENCE_THRESHOLD);
    assert_eq!(r.audio_data.len(), 6000);
    assert_eq!(r.sample_rate, 48_000);
    assert_eq!(r.avg_rms, 3051);
    assert!(!r.is_silent);
    assert!(!rec.is_recording());
}

#[test]
fn superseded_stream_blocks_are_ignored() {
    let mut rec = AudioRecorder::new();
    let g1 = rec.next_stream();
    rec.start_recording(g1, Ok(44_100)).unwrap();
    assert!(rec.append_block(g1, &[1, 2, 3]));
    let g2 = rec.next_stream();
    assert_ne!(g1, g2);
    assert!(!rec.accepts_block(g1));
    rec.start_recording(g2, Ok(48_000)).unwrap();
    assert!(!rec.append_block(g1, &[9, 9]));
    assert!(rec.accepts_block(g2));
    assert!(rec.append_block(g2, &[4, 5]));
    assert!(!rec.append_block(g1, &[9]));
    assert!(rec.append_block(g2, &[6]));
    let r = rec.stop_recording(DEFAULT_SILENCE_THRESHOLD);
    assert_eq!(r.audio_data, vec![4, 5, 6]);
    assert_eq!(r.sample_rate, 48_000);
}

#[test]
fn blocks_before_confirmation_are_dropped() {
    let mut rec = AudioRecorder::new();
    let g = rec.next_stream();
    assert!(!rec.append_block(g, &[7, 7, 7]));
    rec.start_recording(g, Ok(16_000)).unwrap();
    assert!(rec.append_block(g, &[8]));
    assert_eq!(rec.stop_recording(DEFAULT_SILENCE_THRESHOLD).audio_data, vec![8]);
}

#[test]
fn blocks_after_stop_are_dropped() {
    let (mut rec, g) = started(16_000);
    rec.stop_recording(DEFAULT_SILENCE_THRESHOLD);
    assert!(!rec.append_block(g, &[1]));
    assert!(rec.stop_recording(DEFAULT_SILENCE_THRESHOLD).audio_data.is_empty());
}

#[test]
fn failed_open_leaves_engine_idle() {
    let mut rec = AudioRecorder::new();
    let g = rec.next_stream();
    let r = rec.start_recording(g, Err(CaptureError::UnsupportedFormat("I24".to_string())));
    assert_eq!(r, Err(CaptureError::UnsupportedFormat("I24".to_string())));
    assert!(!rec.is_recording());
    assert!(!rec.append_block(g, &[1]));
}

#[test]
fn overtaken_start_is_superseded() {
    let mut rec = AudioRecorder::new();
    let g1 = rec.next_stream();
    let g2 = rec.next_stream();
    assert_eq!(rec.start_recording(g1, Ok(8_000)), Err(CaptureError::Superseded));
    assert!(!rec.is_recording());
    assert_eq!(rec.start_recording(g2, Ok(8_000)), Ok(()));
    assert_eq!(rec.get_sample_rate(), 8_000);
}

#[test]
fn restart_clears_previous_samples() {
    let (mut rec, g) = started(16_000);
    rec.append_block(g, &[5, 5]);
    let g2 = rec.next_stream();
    rec.start_recording(g2, Ok(16_000)).unwrap();
    assert!(rec.stop_recording(DEFAULT_SILENCE_THRESHOLD).audio_data.is_empty());
}

#[test]
fn quiet_recording_is_silent() {
    let (mut rec, g) = started(16_000);
    rec.append_block(g, &[100, -100, 100, -100]);
    let r = rec.stop_recording(DEFAULT_SILENCE_THRESHOLD);
    assert_eq!(r.avg_rms, 305);
    assert!(r.is_silent);
}

#[test]
fn zero_threshold_never_silent() {
    let mut rec = AudioRecorder::new();
    assert!(!rec.stop_recording(0).is_silent);
}

#[test]
fn devices_are_listed_with_default_marked() {
    let names = vec![Some("Mic".to_string()), None, Some("USB".to_string())];
    let devices = AudioRecorder::get_input_devices(&names, &Some("USB".to_string())).unwrap();
    assert_eq!(
        devices,
        vec![
            AudioDeviceInfo { name: "Mic".to_string(), index: 0, is_default: false },
            AudioDeviceInfo { name: "USB".to_string(), index: 2, is_default: true },
        ]
    );
}

#[test]
fn no_readable_device_is_an_error() {
    assert_eq!(AudioRecorder::get_input_devices(&vec![None, None], &None), Err(CaptureError::NoDevicesFound));
    assert_eq!(AudioRecorder::get_input_devices(&vec![], &Some("x".to_string())), Err(CaptureError::NoDevicesFound));
}

#[test]
fn device_selector_is_resolved() {
    assert_eq!(resolve_device(Some(0), 2, false), Ok(DeviceChoice::Index(0)));
    assert_eq!(resolve_device(Some(2), 2, true), Err(CaptureError::InvalidDeviceIndex));
    assert_eq!(resolve_device(None, 2, true), Ok(DeviceChoice::Default));
    assert_eq!(resolve_device(None, 0, false), Err(CaptureError::NoDefaultDevice));
}
