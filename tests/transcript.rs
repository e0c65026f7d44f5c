use voice_tool::transcript::{
    handle_transcription_response, receive_step, send_failure_event, ClientEvent, DeepgramAlternative,
    DeepgramChannel, DeepgramError, DeepgramResponse, ServerMessage, TranscriptEvent,
};

fn response(text: &str, confidence: Option<f64>, is_final: Option<bool>, speech_final: Option<bool>) -> DeepgramResponse {
    DeepgramResponse {
        message_type: "Results".to_string(),
        channel_index: Some(vec![0, 1]),
        duration_bits: Some(1.5f64.to_bits()),
        start_bits: Some(0.0f64.to_bits()),
        is_final,
        speech_final,
        channel: DeepgramChannel {
            alternatives: vec![DeepgramAlternative {
                transcript: text.to_string(),
                confidence_bits: confidence.map(f64::to_bits),
                words: None,
            }],
        },
        metadata: None,
    }
}

#[test]
fn empty_text_produces_no_event() {
    assert_eq!(handle_transcription_response(&response("", Some(0.9), Some(true), Some(true))), None);
    assert_eq!(handle_transcription_response(&response("", None, None, None)), None);
}

#[test]
fn no_alternative_produces_no_event() {
    let mut r = response("hi", None, Some(true), None);
    r.channel.alternatives.clear();
    assert_eq!(handle_transcription_response(&r), None);
}

#[test]
fn final_result_produces_one_final_event() {
    let ev = handle_transcription_response(&response("bonjour", Some(0.98), Some(true), Some(true)));
    assert_eq!(
        ev,
        Some(TranscriptEvent::Final {
            text: "bonjour".to_string(),
            confidence_bits: Some(0.98f64.to_bits()),
            speech_final: true,
        })
    );
    match ev {
        Some(TranscriptEvent::Final { confidence_bits: Some(bits), .. }) => assert_eq!(f64::from_bits(bits), 0.98),
        _ => panic!("expected a final event"),
    }
}

#[test]
fn missing_speech_final_counts_as_false() {
    assert_eq!(
        handle_transcription_response(&response("a", None, Some(true), None)),
        Some(TranscriptEvent::Final { text: "a".to_string(), confidence_bits: None, speech_final: false })
    );
}

#[test]
fn non_final_result_is_interim() {
    assert_eq!(
        handle_transcription_response(&response("hel", Some(0.5), None, None)),
        Some(TranscriptEvent::Interim { text: "hel".to_string(), confidence_bits: Some(0.5f64.to_bits()) })
    );
    assert!(matches!(
        handle_transcription_response(&response("hel", None, Some(false), Some(true))),
        Some(TranscriptEvent::Interim { .. })
    ));
}

#[test]
fn result_message_reports_transcript() {
    let step = receive_step(ServerMessage::Transcript(response("ok", None, Some(true), Some(false))));
    assert!(!step.stop);
    assert_eq!(
        step.event,
        Some(ClientEvent::Transcript(TranscriptEvent::Final {
            text: "ok".to_string(),
            confidence_bits: None,
            speech_final: false,
        }))
    );
    let quiet = receive_step(ServerMessage::Transcript(response("", None, Some(true), None)));
    assert_eq!(quiet.event, None);
    assert!(!quiet.stop);
}

#[test]
fn error_payload_reports_code_and_message() {
    let err = DeepgramError {
        error_type: "INVALID_AUTH".to_string(),
        description: None,
        message: Some("bad key".to_string()),
        variant: None,
    };
    let step = receive_step(ServerMessage::Error(err.clone()));
    assert!(!step.stop);
    assert_eq!(
        step.event,
        Some(ClientEvent::Error { code: "INVALID_AUTH".to_string(), message: "bad key".to_string() })
    );
    let step = receive_step(ServerMessage::Error(DeepgramError { message: None, ..err }));
    assert_eq!(
        step.event,
        Some(ClientEvent::Error { code: "INVALID_AUTH".to_string(), message: "Unknown error".to_string() })
    );
}

#[test]
fn close_frame_ends_the_loop() {
    let step = receive_step(ServerMessage::Closed);
    assert!(step.stop);
    assert_eq!(step.event, Some(ClientEvent::Disconnected { reason: "Connection closed".to_string() }));
}

#[test]
fn transport_error_ends_the_loop() {
    let step = receive_step(ServerMessage::TransportError("reset".to_string()));
    assert!(step.stop);
    assert_eq!(
        step.event,
        Some(ClientEvent::Error {
            code: "WEBSOCKET_ERROR".to_string(),
            message: "WebSocket error: reset".to_string(),
        })
    );
}

#[test]
fn other_frames_are_ignored() {
    for msg in [ServerMessage::Unrecognized, ServerMessage::Other] {
        let step = receive_step(msg);
        assert!(!step.stop);
        assert_eq!(step.event, None);
    }
}

#[test]
fn send_failure_is_reported() {
    assert_eq!(
        send_failure_event("broken pipe"),
        ClientEvent::Error { code: "SEND_ERROR".to_string(), message: "Failed to send audio: broken pipe".to_string() }
    );
}
