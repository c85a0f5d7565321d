//! Provider-agnostic speech-to-text transcription core.
//!
//! The crate normalizes several divergent cloud vendor protocols (single-shot
//! multipart upload, asynchronous upload-then-poll, and bidirectional
//! streaming) behind one contract.  Everything that decides or computes —
//! audio container framing, resampling, request building, option
//! normalization, event interpretation, transcript assembly, and routing —
//! lives here and is verified.  The network drivers that carry the requests
//! live outside the library and only shuttle plain values in and out.

pub mod batch;
pub mod chars;
pub mod dispatch;
pub mod errors;
pub mod extract;
pub mod json;
pub mod options;
pub mod poll;
pub mod registry;
pub mod resample;
pub mod rt_openai;
pub mod rt_soniox;
pub mod session;
pub mod stream;
pub mod wav;

pub use errors::SttError;
