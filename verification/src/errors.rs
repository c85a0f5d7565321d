//! The failure taxonomy shared by every transport.

use vstd::prelude::*;

verus! {

/// Why an audio container was rejected.
#[derive(Debug, Clone, PartialEq, Eq)]
pub enum FormatIssue {
    /// The byte container is not a well-formed PCM WAV file.
    Malformed,
    /// The file carries a channel count other than one.
    NotMono { channels: u16 },
    /// The file carries a bit depth other than sixteen.
    NotSixteenBit { bits: u16 },
    /// A resampling rate was zero.
    ZeroRate,
}

/// Every way a transcription call can fail, as one typed value.
///
/// All errors are surfaced to the caller; none are swallowed, except that
/// best-effort close frames during streaming teardown may fail silently.
#[derive(Debug, Clone, PartialEq, Eq)]
pub enum SttError {
    /// Transport or handshake failure while reaching the vendor.
    Connection { detail: String },
    /// The vendor answered an HTTP request with a non-2xx status.
    Vendor { status: u16, body: String },
    /// An asynchronous transcription job reported the `error` status.
    VendorJob,
    /// A streaming session delivered an in-band error event.
    VendorStream { code: String, message: String },
    /// No terminal event arrived within the read deadline of a stream.
    StreamTimeout,
    /// A response body was malformed JSON or missed an expected field.
    ResponseFormat,
    /// An audio container violated the mono/16-bit assumptions.
    Format { issue: FormatIssue },
    /// A streaming session ended without any usable transcript text.
    EmptyTranscript,
    /// The dispatch layer was handed a provider id it does not know.
    UnknownProvider { id: String },
}

impl SttError {
    /// Short stable label for the error kind, for logging and display.
    pub fn kind(&self) -> (r: &'static str)
        ensures
            r@ == self.spec_kind(),
    {
        match self {
            SttError::Connection { .. } => "connection error",
            SttError::Vendor { .. } => "vendor error",
            SttError::VendorJob => "vendor job error",
            SttError::VendorStream { .. } => "vendor stream error",
            SttError::StreamTimeout => "stream timeout",
            SttError::ResponseFormat => "response format error",
            SttError::Format { .. } => "format error",
            SttError::EmptyTranscript => "empty transcript",
            SttError::UnknownProvider { .. } => "unknown provider",
        }
    }

    /// What `kind` returns, for use in contracts.
    pub open spec fn spec_kind(&self) -> Seq<char> {
        match self {
            SttError::Connection { .. } => "connection error"@,
            SttError::Vendor { .. } => "vendor error"@,
            SttError::VendorJob => "vendor job error"@,
            SttError::VendorStream { .. } => "vendor stream error"@,
            SttError::StreamTimeout => "stream timeout"@,
            SttError::ResponseFormat => "response format error"@,
            SttError::Format { .. } => "format error"@,
            SttError::EmptyTranscript => "empty transcript"@,
            SttError::UnknownProvider { .. } => "unknown provider"@,
        }
    }
}

} // verus!
