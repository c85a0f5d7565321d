//! The single-shot multipart transport.
//!
//! One POST carries the audio file, the model name, and an optional
//! primary-subtag language field; the response either succeeds with a JSON
//! body holding `text`, or fails with the vendor's status and body.  The
//! request built here is handed to an outside driver that only sends it.

use vstd::prelude::*;

use crate::chars::{primary_subtag, spec_primary, spec_trim_slashes, trim_trailing_slashes};
use crate::errors::SttError;
use crate::extract::{get_str_field, json_str_field};
use crate::wav::{silent_clip_wav, spec_silent_clip, spec_wav_bytes};

verus! {

/// A fully assembled multipart transcription request.
pub struct BatchRequest {
    /// The endpoint URL: the base, slashes trimmed, plus the fixed path.
    pub url: String,
    /// The file name announced for the audio part.
    pub file_name: String,
    /// The model form field.
    pub model: String,
    /// The optional language form field, already reduced to a primary subtag.
    pub language: Option<String>,
    /// The WAV bytes of the audio part.
    pub audio: Vec<u8>,
}

/// The endpoint path appended to every batch base URL.
pub open spec fn spec_batch_url(base: Seq<char>) -> Seq<char> {
    spec_trim_slashes(base) + "/audio/transcriptions"@
}

/// An HTTP status that counts as success.
pub open spec fn spec_is_success(status: u16) -> bool {
    200 <= status < 300
}

fn batch_url(base_url: &str) -> (r: String)
    ensures
        r@ == spec_batch_url(base_url@),
{
    let mut url = trim_trailing_slashes(base_url);
    crate::chars::push_str(&mut url, "/audio/transcriptions");
    url
}

/// Assemble the transcription request: URL, audio, model, and the language
/// reduced to its primary subtag.
pub fn build_transcription_request(
    base_url: &str,
    model: &str,
    audio: Vec<u8>,
    language: Option<&str>,
) -> (r: BatchRequest)
    ensures
        r.url@ == spec_batch_url(base_url@),
        r.file_name@ == "audio.wav"@,
        r.model@ == model@,
        match language {
            Some(l) => r.language matches Some(x) && x@ == spec_primary(l@),
            None => r.language is None,
        },
        r.audio@ == audio@,
{
    let lang: Option<String> = match language {
        Some(l) => Some(primary_subtag(l)),
        None => None,
    };
    BatchRequest {
        url: batch_url(base_url),
        file_name: "audio.wav".to_owned(),
        model: model.to_owned(),
        language: lang,
        audio,
    }
}

/// Assemble the credential-check request: the silent clip, no language.
pub fn build_test_request(base_url: &str, model: &str) -> (r: BatchRequest)
    ensures
        r.url@ == spec_batch_url(base_url@),
        r.file_name@ == "test.wav"@,
        r.model@ == model@,
        r.language is None,
        r.audio@ == spec_wav_bytes(spec_silent_clip()),
{
    let audio = silent_clip_wav();
    BatchRequest {
        url: batch_url(base_url),
        file_name: "test.wav".to_owned(),
        model: model.to_owned(),
        language: None,
        audio,
    }
}

/// Interpret the transcription response: a non-2xx status is the vendor's
/// error, a 2xx body must hold a `text` field.
pub fn parse_transcribe_response(status: u16, body: &str) -> (r: Result<String, SttError>)
    ensures
        !spec_is_success(status) ==> (r matches Err(e) && (e matches SttError::Vendor {
            status: st,
            body: b,
        } && st == status && b@ == body@)),
        spec_is_success(status) ==> (match json_str_field(body@, "text"@) {
            Some(t) => r matches Ok(x) && x@ == t,
            None => r matches Err(e) && e == SttError::ResponseFormat,
        }),
{
    if !(200 <= status && status < 300) {
        return Err(SttError::Vendor { status, body: body.to_owned() });
    }
    match get_str_field(body, "text") {
        Some(t) => Ok(t),
        None => Err(SttError::ResponseFormat),
    }
}

/// Interpret the credential-check response: only the status matters.
pub fn check_test_response(status: u16, body: &str) -> (r: Result<(), SttError>)
    ensures
        r is Ok <==> spec_is_success(status),
        !spec_is_success(status) ==> (r matches Err(e) && (e matches SttError::Vendor {
            status: st,
            body: b,
        } && st == status && b@ == body@)),
{
    if 200 <= status && status < 300 {
        Ok(())
    } else {
        Err(SttError::Vendor { status, body: body.to_owned() })
    }
}

} // verus!
