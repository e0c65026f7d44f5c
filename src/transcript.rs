//! The receive side of the streaming transcription client: the shapes of the
//! service's messages, and what the client tells its event sink about each.
//! Numbers the service sends as floating point are carried as their IEEE-754
//! bit patterns (`f64::to_bits`); nothing here reads them.

use vstd::prelude::*;

verus! {

/// A transcription result from the recognition service.
#[derive(Debug, Clone, PartialEq, Eq)]
pub struct DeepgramResponse {
    pub message_type: String,
    pub channel_index: Option<Vec<usize>>,
    pub duration_bits: Option<u64>,
    pub start_bits: Option<u64>,
    pub is_final: Option<bool>,
    pub speech_final: Option<bool>,
    pub channel: DeepgramChannel,
    pub metadata: Option<DeepgramMetadata>,
}

#[derive(Debug, Clone, PartialEq, Eq)]
pub struct DeepgramChannel {
    pub alternatives: Vec<DeepgramAlternative>,
}

#[derive(Debug, Clone, PartialEq, Eq)]
pub struct DeepgramAlternative {
    pub transcript: String,
    pub confidence_bits: Option<u64>,
    pub words: Option<Vec<DeepgramWord>>,
}

#[derive(Debug, Clone, PartialEq, Eq)]
pub struct DeepgramWord {
    pub word: String,
    pub start_bits: Option<u64>,
    pub end_bits: Option<u64>,
    pub confidence_bits: Option<u64>,
    pub punctuated_word: Option<String>,
}

#[derive(Debug, Clone, PartialEq, Eq)]
pub struct DeepgramMetadata {
    pub request_id: Option<String>,
    pub model_info: Option<DeepgramModelInfo>,
    pub model_uuid: Option<String>,
}

#[derive(Debug, Clone, PartialEq, Eq)]
pub struct DeepgramModelInfo {
    pub name: Option<String>,
    pub version: Option<String>,
    pub arch: Option<String>,
}

/// An error payload from the recognition service.
#[derive(Debug, Clone, PartialEq, Eq)]
pub struct DeepgramError {
    pub error_type: String,
    pub description: Option<String>,
    pub message: Option<String>,
    pub variant: Option<String>,
}

/// A transcript for the event sink.
#[derive(Debug, Clone, PartialEq, Eq)]
pub enum TranscriptEvent {
    /// Provisional text, subject to revision.
    Interim { text: String, confidence_bits: Option<u64> },
    /// Settled text for an utterance segment.
    Final { text: String, confidence_bits: Option<u64>, speech_final: bool },
}

/// What the streaming client reports to its event sink.
#[derive(Debug, Clone, PartialEq, Eq)]
pub enum ClientEvent {
    Transcript(TranscriptEvent),
    /// A failure, with a stable machine code and a human message.
    Error { code: String, message: String },
    Disconnected { reason: String },
}

/// One message from the socket, as the receiver task saw it. A text frame is
/// first parsed as a result, then as an error payload.
#[derive(Debug, Clone, PartialEq, Eq)]
pub enum ServerMessage {
    /// A text frame that parsed as a transcription result.
    Transcript(DeepgramResponse),
    /// A text frame that parsed as an error payload.
    Error(DeepgramError),
    /// A text frame of neither shape.
    Unrecognized,
    /// The service closed the connection.
    Closed,
    /// A binary, ping or pong frame.
    Other,
    /// The socket failed; the transport's description.
    TransportError(String),
}

/// The receiver task's reaction to one message.
#[derive(Debug, Clone, PartialEq, Eq)]
pub struct ReceiverStep {
    pub event: Option<ClientEvent>,
    /// The receive loop ends after this message.
    pub stop: bool,
}

/// The event a result produces: none when it has no alternative or its first
/// alternative's text is empty; otherwise a final event when the service
/// marked it final (an absent flag counts as not final), else an interim
/// one, carrying the first alternative's text and confidence.
pub open spec fn transcript_event(r: DeepgramResponse) -> Option<TranscriptEvent> {
    if r.channel.alternatives@.len() == 0 || r.channel.alternatives@[0].transcript@.len() == 0 {
        None
    } else {
        let alt = r.channel.alternatives@[0];
        if r.is_final == Some(true) {
            Some(
                TranscriptEvent::Final {
                    text: alt.transcript,
                    confidence_bits: alt.confidence_bits,
                    speech_final: r.speech_final == Some(true),
                },
            )
        } else {
            Some(TranscriptEvent::Interim { text: alt.transcript, confidence_bits: alt.confidence_bits })
        }
    }
}

/// The transcript event for one transcription result, if any.
pub fn handle_transcription_response(response: &DeepgramResponse) -> (r: Option<TranscriptEvent>)
    ensures
        r == transcript_event(*response),
{
    if response.channel.alternatives.len() == 0 {
        return None;
    }
    let alt = &response.channel.alternatives[0];
    if alt.transcript.as_str().is_empty() {
        return None;
    }
    let is_final = match response.is_final {
        Some(b) => b,
        None => false,
    };
    if is_final {
        let speech_final = match response.speech_final {
            Some(b) => b,
            None => false,
        };
        Some(
            TranscriptEvent::Final {
                text: alt.transcript.clone(),
                confidence_bits: alt.confidence_bits,
                speech_final,
            },
        )
    } else {
        Some(
            TranscriptEvent::Interim {
                text: alt.transcript.clone(),
                confidence_bits: alt.confidence_bits,
            },
        )
    }
}

/// A result with empty text produces no event; one marked final with text
/// produces exactly one final event, with that text and confidence.
pub proof fn lemma_transcript_events(r: DeepgramResponse)
    ensures
        r.channel.alternatives@.len() > 0 && r.channel.alternatives@[0].transcript@.len() == 0
            ==> transcript_event(r) is None,
        r.channel.alternatives@.len() > 0 && r.channel.alternatives@[0].transcript@.len() > 0
            && r.is_final == Some(true) ==> transcript_event(r) == Some(
            TranscriptEvent::Final {
                text: r.channel.alternatives@[0].transcript,
                confidence_bits: r.channel.alternatives@[0].confidence_bits,
                speech_final: r.speech_final == Some(true),
            },
        ),
{
}

/// Machine code of a failure reported by the transport while receiving.
pub const WEBSOCKET_ERROR_CODE: &'static str = "WEBSOCKET_ERROR";

/// Machine code of a failure to send audio.
pub const SEND_ERROR_CODE: &'static str = "SEND_ERROR";

/// What the receiver task reports for one message, and whether its loop
/// ends there. A result reports its transcript event, if any; an error
/// payload reports its type as the code and its message (or "Unknown error");
/// a close frame reports a disconnection and ends the loop; a transport
/// failure reports a WEBSOCKET_ERROR and ends the loop; anything else is
/// ignored.
pub fn receive_step(msg: ServerMessage) -> (r: ReceiverStep)
    ensures
        match msg {
            ServerMessage::Transcript(resp) => {
                &&& !r.stop
                &&& r.event == match transcript_event(resp) {
                    Some(t) => Some(ClientEvent::Transcript(t)),
                    None => None,
                }
            },
            ServerMessage::Error(e) => {
                &&& !r.stop
                &&& r.event matches Some(ClientEvent::Error { code, message })
                &&& code@ == e.error_type@
                &&& message@ == match e.message {
                    Some(m) => m@,
                    None => "Unknown error"@,
                }
            },
            ServerMessage::Closed => {
                &&& r.stop
                &&& r.event matches Some(ClientEvent::Disconnected { reason })
                &&& reason@ == "Connection closed"@
            },
            ServerMessage::TransportError(detail) => {
                &&& r.stop
                &&& r.event matches Some(ClientEvent::Error { code, message })
                &&& code@ == WEBSOCKET_ERROR_CODE@
                &&& message@ == "WebSocket error: "@ + detail@
            },
            _ => !r.stop && r.event is None,
        },
{
    match msg {
        ServerMessage::Transcript(resp) => {
            let event = match handle_transcription_response(&resp) {
                Some(t) => Some(ClientEvent::Transcript(t)),
                None => None,
            };
            ReceiverStep { event, stop: false }
        },
        ServerMessage::Error(e) => {
            let message = match e.message {
                Some(m) => m,
                None => String::from_str("Unknown error"),
            };
            ReceiverStep { event: Some(ClientEvent::Error { code: e.error_type, message }), stop: false }
        },
        ServerMessage::Closed => ReceiverStep {
            event: Some(ClientEvent::Disconnected { reason: String::from_str("Connection closed") }),
            stop: true,
        },
        ServerMessage::TransportError(detail) => {
            let message = String::from_str("WebSocket error: ").concat(detail.as_str());
            ReceiverStep {
                event: Some(
                    ClientEvent::Error { code: String::from_str(WEBSOCKET_ERROR_CODE), message },
                ),
                stop: true,
            }
        },
        ServerMessage::Unrecognized => ReceiverStep { event: None, stop: false },
        ServerMessage::Other => ReceiverStep { event: None, stop: false },
    }
}

/// The event reported when a batch could not be sent; the sender task ends
/// after it.
pub fn send_failure_event(detail: &str) -> (r: ClientEvent)
    ensures
        r matches ClientEvent::Error { code, message } && code@ == SEND_ERROR_CODE@
            && message@ == "Failed to send audio: "@ + detail@,
{
    ClientEvent::Error {
        code: String::from_str(SEND_ERROR_CODE),
        message: String::from_str("Failed to send audio: ").concat(detail),
    }
}

} // verus!
