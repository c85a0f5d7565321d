use cloud_stt::errors::SttError;
use cloud_stt::session::{SessionCommand, SessionInput, SessionState, StreamingSession};
use cloud_stt::stream::TranscriptEvent;

#[test]
fn happy_path_walks_all_states() {
    let mut s = StreamingSession::new();
    assert_eq!(s.state, SessionState::Connecting);
    assert_eq!(s.step(SessionInput::Opened), SessionCommand::SendConfig);
    assert_eq!(s.state, SessionState::Configuring);
    assert_eq!(s.step(SessionInput::ConfigSent), SessionCommand::SendAudio);
    assert_eq!(s.state, SessionState::Streaming);
    assert_eq!(s.step(SessionInput::AudioSent), SessionCommand::AwaitMessage);
    assert_eq!(s.state, SessionState::AwaitingResult);
    assert_eq!(
        s.step(SessionInput::Inbound(TranscriptEvent::Delta("he".to_string()))),
        SessionCommand::AwaitMessage
    );
    assert_eq!(
        s.step(SessionInput::Inbound(TranscriptEvent::Final(" hello ".to_string()))),
        SessionCommand::Close
    );
    assert_eq!(s.state, SessionState::Closed);
    assert_eq!(s.outcome(), Ok("hello".to_string()));
}

#[test]
fn failed_handshake_closes_with_connection_error() {
    let mut s = StreamingSession::new();
    assert_eq!(
        s.step(SessionInput::OpenFailed { detail: "refused".to_string() }),
        SessionCommand::Close
    );
    assert_eq!(s.state, SessionState::Closed);
    assert_eq!(s.outcome(), Err(SttError::Connection { detail: "refused".to_string() }));
}

#[test]
fn timeout_closes_with_stream_timeout() {
    let mut s = StreamingSession::new();
    s.step(SessionInput::Opened);
    s.step(SessionInput::ConfigSent);
    s.step(SessionInput::AudioSent);
    s.step(SessionInput::Inbound(TranscriptEvent::Delta("partial".to_string())));
    assert_eq!(s.step(SessionInput::TimedOut), SessionCommand::Close);
    // The timeout is terminal: the partial transcript never surfaces.
    assert_eq!(s.outcome(), Err(SttError::StreamTimeout));
}

#[test]
fn vendor_error_event_closes_and_fails() {
    let mut s = StreamingSession::new();
    s.step(SessionInput::Opened);
    s.step(SessionInput::ConfigSent);
    s.step(SessionInput::AudioSent);
    let cmd = s.step(SessionInput::Inbound(TranscriptEvent::Error {
        code: "e".to_string(),
        message: "broken".to_string(),
    }));
    assert_eq!(cmd, SessionCommand::Close);
    assert_eq!(
        s.outcome(),
        Err(SttError::VendorStream { code: "e".to_string(), message: "broken".to_string() })
    );
}

#[test]
fn stream_end_falls_back_to_deltas() {
    let mut s = StreamingSession::new();
    s.step(SessionInput::Opened);
    s.step(SessionInput::ConfigSent);
    s.step(SessionInput::AudioSent);
    s.step(SessionInput::Inbound(TranscriptEvent::Delta("hel".to_string())));
    s.step(SessionInput::Inbound(TranscriptEvent::Other));
    s.step(SessionInput::Inbound(TranscriptEvent::Delta("lo".to_string())));
    assert_eq!(s.step(SessionInput::InboundGone), SessionCommand::Close);
    assert_eq!(s.outcome(), Ok("hello".to_string()));
}

#[test]
fn finished_without_text_is_empty_transcript() {
    let mut s = StreamingSession::new();
    s.step(SessionInput::Opened);
    s.step(SessionInput::ConfigSent);
    s.step(SessionInput::AudioSent);
    assert_eq!(
        s.step(SessionInput::Inbound(TranscriptEvent::Finished)),
        SessionCommand::Close
    );
    assert_eq!(s.outcome(), Err(SttError::EmptyTranscript));
}

#[test]
fn send_failure_closes_with_connection_error() {
    let mut s = StreamingSession::new();
    s.step(SessionInput::Opened);
    assert_eq!(
        s.step(SessionInput::SendFailed { detail: "pipe".to_string() }),
        SessionCommand::Close
    );
    assert_eq!(s.outcome(), Err(SttError::Connection { detail: "pipe".to_string() }));
}
