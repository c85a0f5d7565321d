//! The streaming session lifecycle as an explicit state machine.
//!
//! A session moves `Connecting → Configuring → Streaming → AwaitingResult →
//! Closed`; every timeout or error exit from any state is a guarded
//! transition into `Closed`, and the machine commands the close frame on
//! exactly those transitions, so the close-on-every-exit-path rule is
//! structural.  An outside driver owns the socket: it performs each
//! command and reports what happened as the next input.

use vstd::prelude::*;

use crate::chars::spec_trim;
use crate::errors::SttError;
use crate::stream::{StreamStep, TranscriptCollector, TranscriptEvent};

verus! {

/// Where a session stands.
#[derive(Debug, PartialEq, Eq)]
pub enum SessionState {
    /// The connection handshake is in flight.
    Connecting,
    /// The connection is up; the configuration message is owed.
    Configuring,
    /// The configuration went out; audio chunks and the end-of-input signal
    /// are owed, in original order.
    Streaming,
    /// Everything was sent; inbound events are being read.
    AwaitingResult,
    /// The session is over; only the outcome remains.
    Closed,
}

/// What the driver reports into the machine.
pub enum SessionInput {
    /// The handshake succeeded.
    Opened,
    /// The handshake failed.
    OpenFailed { detail: String },
    /// The configuration message went out.
    ConfigSent,
    /// Every audio chunk and the end-of-input signal went out, in order.
    AudioSent,
    /// A send failed.
    SendFailed { detail: String },
    /// One inbound message, already interpreted.
    Inbound(TranscriptEvent),
    /// The peer ended the stream.
    InboundGone,
    /// No message arrived within the read deadline.
    TimedOut,
}

/// What the driver must do next.
#[derive(Debug, PartialEq, Eq)]
pub enum SessionCommand {
    /// Send the configuration message.
    SendConfig,
    /// Send the audio chunks and the end-of-input signal, in order.
    SendAudio,
    /// Read the next inbound message, bounded by the read deadline.
    AwaitMessage,
    /// Send a best-effort close frame; the session is over.
    Close,
}

/// One live streaming session: its state, the transcript collected so far,
/// and the failure that ended it, if one did.
pub struct StreamingSession {
    pub state: SessionState,
    pub collector: TranscriptCollector,
    pub failure: Option<SttError>,
}

impl StreamingSession {
    /// A fresh session, about to connect.
    pub fn new() -> (r: StreamingSession)
        ensures
            r.state is Connecting,
            r.collector.deltas@ == Seq::<char>::empty(),
            r.collector.final_text is None,
            r.failure is None,
    {
        StreamingSession {
            state: SessionState::Connecting,
            collector: TranscriptCollector::new(),
            failure: None,
        }
    }

    /// Drive the session one step.
    ///
    /// The returned command tells the driver what to do next.  The machine
    /// reaches `Closed` exactly when the command is [`SessionCommand::Close`]:
    /// a close frame is attempted on every exit path — success, vendor
    /// error, send failure, or timeout.
    pub fn step(&mut self, input: SessionInput) -> (r: SessionCommand)
        requires
            match old(self).state {
                SessionState::Connecting => (input is Opened || input is OpenFailed),
                SessionState::Configuring => (input is ConfigSent || input is SendFailed),
                SessionState::Streaming => (input is AudioSent || input is SendFailed),
                SessionState::AwaitingResult => (input matches SessionInput::Inbound(_) || input
                    is InboundGone || input is TimedOut),
                SessionState::Closed => false,
            },
        ensures
            (final(self).state is Closed) <==> (r is Close),
            match input {
                SessionInput::Opened => {
                    &&& final(self).state is Configuring
                    &&& r is SendConfig
                    &&& final(self).collector == old(self).collector
                    &&& final(self).failure == old(self).failure
                },
                SessionInput::OpenFailed { detail } => {
                    &&& final(self).state is Closed
                    &&& final(self).collector == old(self).collector
                    &&& (final(self).failure matches Some(SttError::Connection { detail: d })
                        && d@ == detail@)
                },
                SessionInput::ConfigSent => {
                    &&& final(self).state is Streaming
                    &&& r is SendAudio
                    &&& final(self).collector == old(self).collector
                    &&& final(self).failure == old(self).failure
                },
                SessionInput::AudioSent => {
                    &&& final(self).state is AwaitingResult
                    &&& r is AwaitMessage
                    &&& final(self).collector == old(self).collector
                    &&& final(self).failure == old(self).failure
                },
                SessionInput::SendFailed { detail } => {
                    &&& final(self).state is Closed
                    &&& final(self).collector == old(self).collector
                    &&& (final(self).failure matches Some(SttError::Connection { detail: d })
                        && d@ == detail@)
                },
                SessionInput::Inbound(ev) => (match ev {
                    TranscriptEvent::Delta(d) => {
                        &&& final(self).state is AwaitingResult
                        &&& r is AwaitMessage
                        &&& final(self).collector.deltas@ == old(self).collector.deltas@ + d@
                        &&& final(self).collector.final_text == old(self).collector.final_text
                        &&& final(self).failure == old(self).failure
                    },
                    TranscriptEvent::Final(t) => {
                        &&& final(self).state is Closed
                        &&& (final(self).collector.final_text matches Some(x) && x@ == t@)
                        &&& final(self).collector.deltas@ == old(self).collector.deltas@
                        &&& final(self).failure == old(self).failure
                    },
                    TranscriptEvent::Error { code, message } => {
                        &&& final(self).state is Closed
                        &&& final(self).collector == old(self).collector
                        &&& (final(self).failure matches Some(SttError::VendorStream {
                            code: c,
                            message: m,
                        }) && c@ == code@ && m@ == message@)
                    },
                    TranscriptEvent::Finished => {
                        &&& final(self).state is Closed
                        &&& final(self).collector == old(self).collector
                        &&& final(self).failure == old(self).failure
                    },
                    TranscriptEvent::Other => {
                        &&& final(self).state is AwaitingResult
                        &&& r is AwaitMessage
                        &&& final(self).collector == old(self).collector
                        &&& final(self).failure == old(self).failure
                    },
                }),
                SessionInput::InboundGone => {
                    &&& final(self).state is Closed
                    &&& final(self).collector == old(self).collector
                    &&& final(self).failure == old(self).failure
                },
                SessionInput::TimedOut => {
                    &&& final(self).state is Closed
                    &&& final(self).collector == old(self).collector
                    &&& final(self).failure == Some(SttError::StreamTimeout)
                },
            },
    {
        match input {
            SessionInput::Opened => {
                self.state = SessionState::Configuring;
                SessionCommand::SendConfig
            },
            SessionInput::OpenFailed { detail } => {
                self.state = SessionState::Closed;
                self.failure = Some(SttError::Connection { detail });
                SessionCommand::Close
            },
            SessionInput::ConfigSent => {
                self.state = SessionState::Streaming;
                SessionCommand::SendAudio
            },
            SessionInput::AudioSent => {
                self.state = SessionState::AwaitingResult;
                SessionCommand::AwaitMessage
            },
            SessionInput::SendFailed { detail } => {
                self.state = SessionState::Closed;
                self.failure = Some(SttError::Connection { detail });
                SessionCommand::Close
            },
            SessionInput::Inbound(ev) => {
                match self.collector.step(ev) {
                    StreamStep::Continue => {
                        self.state = SessionState::AwaitingResult;
                        SessionCommand::AwaitMessage
                    },
                    StreamStep::Done => {
                        self.state = SessionState::Closed;
                        SessionCommand::Close
                    },
                    StreamStep::Fail(e) => {
                        self.state = SessionState::Closed;
                        self.failure = Some(e);
                        SessionCommand::Close
                    },
                }
            },
            SessionInput::InboundGone => {
                self.state = SessionState::Closed;
                SessionCommand::Close
            },
            SessionInput::TimedOut => {
                self.state = SessionState::Closed;
                self.failure = Some(SttError::StreamTimeout);
                SessionCommand::Close
            },
        }
    }

    /// The closed session's outcome: the failure that ended it, else the
    /// collected transcript — the final text when one arrived, the
    /// concatenated deltas otherwise, trimmed; an error when no usable text
    /// arrived at all.  Partial transcripts never surface as success.
    pub fn outcome(self) -> (r: Result<String, SttError>)
        requires
            self.state is Closed,
        ensures
            self.failure matches Some(e) ==> r == Err::<String, SttError>(e),
            (self.failure is None && self.collector.spec_chosen().len() == 0) ==> r
                == Err::<String, SttError>(SttError::EmptyTranscript),
            (self.failure is None && self.collector.spec_chosen().len() > 0) ==> (r matches Ok(s)
                && s@ == spec_trim(self.collector.spec_chosen())),
    {
        match self.failure {
            Some(e) => Err(e),
            None => self.collector.finish(),
        }
    }
}

} // verus!
