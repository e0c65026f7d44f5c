use voice_tool::connection::{authorization_header, decimal_text, listen_url, signed_decimal_text};
use voice_tool::models::{get_model_filename, model_filename};
use voice_tool::updater::{DownloadProgress, UpdateInfo};
use voice_tool::wav::{encode_wav, WavError};

#[test]
fn listen_url_carries_language_and_rate() {
    assert_eq!(
        listen_url("fr", 48000),
        "wss://api.deepgram.com/v1/listen?language=fr&punctuate=true&interim_results=true&encoding=linear16&sample_rate=48000&channels=1"
    );
    assert!(listen_url("en-US", 0).ends_with("&sample_rate=0&channels=1"));
    assert!(listen_url("en", 4294967295).contains("sample_rate=4294967295&"));
}

#[test]
fn authorization_uses_token_scheme() {
    assert_eq!(authorization_header("abc123"), "Token abc123");
}

#[test]
fn model_file_name_is_lowercase() {
    assert_eq!(get_model_filename("Base"), "ggml-base.bin");
    assert_eq!(get_model_filename("LARGE-V3"), "ggml-large-v3.bin");
    assert_eq!(model_filename("tiny"), "ggml-tiny.bin");
}

#[test]
fn progress_is_percent_of_announced_size() {
    let p = DownloadProgress::new();
    assert_eq!(p.percentage, 0);
    let p = p.record_chunk(50, Some(200));
    assert_eq!((p.downloaded, p.total, p.percentage), (50, Some(200), 25));
    let p = p.record_chunk(149, None);
    assert_eq!((p.downloaded, p.total, p.percentage), (199, Some(200), 99));
    let p = p.record_chunk(500, None);
    assert_eq!(p.percentage, 100);
}

#[test]
fn progress_without_size_is_zero() {
    let p = DownloadProgress::new().record_chunk(1000, None);
    assert_eq!((p.downloaded, p.total, p.percentage), (1000, None, 0));
    let p = DownloadProgress::new().record_chunk(0, Some(0));
    assert_eq!(p.percentage, 100);
}

#[test]
fn progress_count_saturates() {
    let p = DownloadProgress { downloaded: u64::MAX - 1, total: Some(u64::MAX), percentage: 99 };
    let p = p.record_chunk(10, None);
    assert_eq!(p.downloaded, u64::MAX);
    assert_eq!(p.percentage, 100);
}

#[test]
fn no_update_report() {
    let u = UpdateInfo::unavailable();
    assert_eq!(u, UpdateInfo { version: String::new(), date: None, body: None, available: false });
}

#[test]
fn wav_file_has_header_then_samples() {
    let bytes = encode_wav(&[1, -2], 16000).unwrap();
    let mut expected: Vec<u8> = Vec::new();
    expected.extend_from_slice(b"RIFF");
    expected.extend_from_slice(&40u32.to_le_bytes());
    expected.extend_from_slice(b"WAVEfmt ");
    expected.extend_from_slice(&16u32.to_le_bytes());
    expected.extend_from_slice(&1u16.to_le_bytes());
    expected.extend_from_slice(&1u16.to_le_bytes());
    expected.extend_from_slice(&16000u32.to_le_bytes());
    expected.extend_from_slice(&32000u32.to_le_bytes());
    expected.extend_from_slice(&2u16.to_le_bytes());
    expected.extend_from_slice(&16u16.to_le_bytes());
    expected.extend_from_slice(b"data");
    expected.extend_from_slice(&4u32.to_le_bytes());
    expected.extend_from_slice(&[1, 0, 254, 255]);
    assert_eq!(bytes, expected);
}

#[test]
fn wav_refuses_bad_input() {
    assert!(matches!(encode_wav(&[], 16000), Err(WavError::NoSamples)));
    assert!(matches!(encode_wav(&[1], 0), Err(WavError::UnsupportedSampleRate)));
    assert!(matches!(encode_wav(&[1], 0x8000_0000), Err(WavError::UnsupportedSampleRate)));
}

#[test]
fn numbers_are_written_in_decimal() {
    assert_eq!(decimal_text(0), "0");
    assert_eq!(decimal_text(7), "7");
    assert_eq!(decimal_text(10), "10");
    assert_eq!(decimal_text(48000), "48000");
    assert_eq!(decimal_text(u64::MAX), u64::MAX.to_string());
    assert_eq!(signed_decimal_text(-305), "-305");
    assert_eq!(signed_decimal_text(i64::MIN + 1), (i64::MIN + 1).to_string());
    assert_eq!(signed_decimal_text(12), "12");
}
