//! The upload-then-poll transport.
//!
//! Four sequential phases, each one request: upload the audio file, create a
//! transcription job, poll the job status on a fixed interval until it is
//! terminal, and fetch the transcript text.  Everything that decides is
//! here; an outside driver performs the requests and the fixed 500 ms sleep
//! between polls.

use vstd::prelude::*;

use crate::chars::{push_str, spec_trim_slashes, str_eq, trim_trailing_slashes};
use crate::errors::SttError;
use crate::extract::{get_str_field, json_str_field};
use crate::json::{
    lemma_view_of_members_push, view_of, view_of_members, JsonData, JsonValue,
};
use crate::options::{append_soniox_members, spec_soniox_members, TranscriptionOptions};
use crate::wav::{silent_clip_wav, spec_silent_clip, spec_wav_bytes};

verus! {

/// The milliseconds an outside driver waits between two polls.
pub const POLL_INTERVAL_MS: u64 = 500;

/// A fully assembled multipart upload request.
pub struct UploadRequest {
    /// The endpoint URL: the base, slashes trimmed, plus `/files`.
    pub url: String,
    /// The file name announced for the audio part.
    pub file_name: String,
    /// The WAV bytes of the audio part.
    pub audio: Vec<u8>,
}

/// The upload endpoint.
pub open spec fn spec_upload_url(base: Seq<char>) -> Seq<char> {
    spec_trim_slashes(base) + "/files"@
}

/// The job-creation endpoint.
pub open spec fn spec_create_url(base: Seq<char>) -> Seq<char> {
    spec_trim_slashes(base) + "/transcriptions"@
}

/// The status endpoint of one job.
pub open spec fn spec_status_url(base: Seq<char>, id: Seq<char>) -> Seq<char> {
    spec_trim_slashes(base) + "/transcriptions/"@ + id
}

/// The transcript endpoint of one job.
pub open spec fn spec_transcript_url(base: Seq<char>, id: Seq<char>) -> Seq<char> {
    spec_status_url(base, id) + "/transcript"@
}

/// The URL audio is uploaded to.
pub fn upload_url(base_url: &str) -> (r: String)
    ensures
        r@ == spec_upload_url(base_url@),
{
    let mut url = trim_trailing_slashes(base_url);
    push_str(&mut url, "/files");
    url
}

/// The URL a transcription job is created at.
pub fn create_url(base_url: &str) -> (r: String)
    ensures
        r@ == spec_create_url(base_url@),
{
    let mut url = trim_trailing_slashes(base_url);
    push_str(&mut url, "/transcriptions");
    url
}

/// The URL a job's status is polled at.
pub fn status_url(base_url: &str, transcription_id: &str) -> (r: String)
    ensures
        r@ == spec_status_url(base_url@, transcription_id@),
{
    let mut url = trim_trailing_slashes(base_url);
    push_str(&mut url, "/transcriptions/");
    push_str(&mut url, transcription_id);
    url
}

/// The URL a finished job's transcript is fetched from.
pub fn transcript_url(base_url: &str, transcription_id: &str) -> (r: String)
    ensures
        r@ == spec_transcript_url(base_url@, transcription_id@),
{
    let mut url = status_url(base_url, transcription_id);
    push_str(&mut url, "/transcript");
    url
}

/// Assemble the audio upload request.
pub fn build_upload_request(base_url: &str, audio: Vec<u8>) -> (r: UploadRequest)
    ensures
        r.url@ == spec_upload_url(base_url@),
        r.file_name@ == "audio.wav"@,
        r.audio@ == audio@,
{
    UploadRequest { url: upload_url(base_url), file_name: "audio.wav".to_owned(), audio }
}

/// Assemble the credential-check upload: the silent clip.
pub fn build_test_upload_request(base_url: &str) -> (r: UploadRequest)
    ensures
        r.url@ == spec_upload_url(base_url@),
        r.file_name@ == "test.wav"@,
        r.audio@ == spec_wav_bytes(spec_silent_clip()),
{
    UploadRequest {
        url: upload_url(base_url),
        file_name: "test.wav".to_owned(),
        audio: silent_clip_wav(),
    }
}

/// The JSON members every job-creation body starts with.
pub open spec fn spec_create_base(file_id: Seq<char>, model: Seq<char>) -> Seq<
    (Seq<char>, JsonData),
> {
    seq![("file_id"@, JsonData::Str(file_id)), ("model"@, JsonData::Str(model))]
}

/// Build the job-creation body: the file handle, the model, and the mapped
/// options — normalized language hints, nested context, capability flags.
/// The driver serializes it with [`crate::json::json_to_string`].
pub fn build_create_body(
    file_id: &str,
    model: &str,
    options: Option<&TranscriptionOptions>,
) -> (r: JsonValue)
    ensures
        view_of(r) == JsonData::Obj(
            spec_create_base(file_id@, model@) + (match options {
                Some(o) => spec_soniox_members(o.entries@, true),
                None => Seq::<(Seq<char>, JsonData)>::empty(),
            }),
        ),
{
    let mut members: Vec<(String, JsonValue)> = Vec::new();
    proof {
        assert(view_of_members(members@) =~= Seq::<(Seq<char>, JsonData)>::empty());
    }
    let ghost m0 = members@;
    members.push(("file_id".to_owned(), JsonValue::Str(file_id.to_owned())));
    proof {
        lemma_view_of_members_push(m0, members@.last());
    }
    let ghost m1 = members@;
    members.push(("model".to_owned(), JsonValue::Str(model.to_owned())));
    proof {
        lemma_view_of_members_push(m1, members@.last());
    }
    match options {
        Some(opts) => {
            append_soniox_members(&mut members, opts, true);
        },
        None => {},
    }
    let body = JsonValue::Obj(members);
    proof {
        let target = spec_create_base(file_id@, model@) + (match options {
            Some(o) => spec_soniox_members(o.entries@, true),
            None => Seq::<(Seq<char>, JsonData)>::empty(),
        });
        assert(view_of(body) == JsonData::Obj(view_of_members(members@)));
        assert(view_of_members(members@) =~= target);
    }
    body
}

/// Build the credential-check job body: file handle and model only.
pub fn build_test_create_body(file_id: &str, model: &str) -> (r: JsonValue)
    ensures
        view_of(r) == JsonData::Obj(spec_create_base(file_id@, model@)),
{
    let r = build_create_body(file_id, model, None);
    proof {
        assert(spec_create_base(file_id@, model@) + Seq::<(Seq<char>, JsonData)>::empty()
            =~= spec_create_base(file_id@, model@));
    }
    r
}

/// Interpret an upload or job-creation response: a non-2xx status is the
/// vendor's error, a 2xx body must hold the vendor-assigned `id`.
pub fn parse_id_response(status: u16, body: &str) -> (r: Result<String, SttError>)
    ensures
        !crate::batch::spec_is_success(status) ==> (r matches Err(e) && (e
            matches SttError::Vendor { status: st, body: b } && st == status && b@ == body@)),
        crate::batch::spec_is_success(status) ==> (match json_str_field(body@, "id"@) {
            Some(t) => r matches Ok(x) && x@ == t,
            None => r matches Err(e) && e == SttError::ResponseFormat,
        }),
{
    if !(200 <= status && status < 300) {
        return Err(SttError::Vendor { status, body: body.to_owned() });
    }
    match get_str_field(body, "id") {
        Some(t) => Ok(t),
        None => Err(SttError::ResponseFormat),
    }
}

/// What one poll of the job status tells the driver to do next.
#[derive(Debug, PartialEq, Eq)]
pub enum PollStep {
    /// The job is not terminal yet: sleep the interval and poll again.
    Wait,
    /// The job completed: fetch the transcript.
    Fetch,
}

/// A status string that ends the polling loop.
pub open spec fn spec_is_terminal(status: Seq<char>) -> bool {
    status == "completed"@ || status == "error"@
}

/// Interpret one poll response.
///
/// A non-2xx status is a fatal transport error, never retried.  A 2xx body
/// must hold a `status` string: `completed` proceeds to the fetch phase,
/// `error` fails the job, and every other value — including values this
/// library has never seen — is treated as still processing and keeps the
/// driver polling.
pub fn parse_status_response(status: u16, body: &str) -> (r: Result<PollStep, SttError>)
    ensures
        !crate::batch::spec_is_success(status) ==> (r matches Err(e) && (e
            matches SttError::Vendor { status: st, body: b } && st == status && b@ == body@)),
        crate::batch::spec_is_success(status) ==> (match json_str_field(body@, "status"@) {
            Some(s) => {
                if s == "completed"@ {
                    r == Ok::<PollStep, SttError>(PollStep::Fetch)
                } else if s == "error"@ {
                    r == Err::<PollStep, SttError>(SttError::VendorJob)
                } else {
                    r == Ok::<PollStep, SttError>(PollStep::Wait)
                }
            },
            None => r matches Err(e) && e == SttError::ResponseFormat,
        }),
{
    if !(200 <= status && status < 300) {
        return Err(SttError::Vendor { status, body: body.to_owned() });
    }
    match get_str_field(body, "status") {
        Some(s) => {
            if str_eq(s.as_str(), "completed") {
                Ok(PollStep::Fetch)
            } else if str_eq(s.as_str(), "error") {
                Err(SttError::VendorJob)
            } else {
                Ok(PollStep::Wait)
            }
        },
        None => Err(SttError::ResponseFormat),
    }
}

/// Interpret the transcript fetch response: a non-2xx status is the vendor's
/// error, a 2xx body must hold the transcript `text`.
pub fn parse_transcript_response(status: u16, body: &str) -> (r: Result<String, SttError>)
    ensures
        !crate::batch::spec_is_success(status) ==> (r matches Err(e) && (e
            matches SttError::Vendor { status: st, body: b } && st == status && b@ == body@)),
        crate::batch::spec_is_success(status) ==> (match json_str_field(body@, "text"@) {
            Some(t) => r matches Ok(x) && x@ == t,
            None => r matches Err(e) && e == SttError::ResponseFormat,
        }),
{
    if !(200 <= status && status < 300) {
        return Err(SttError::Vendor { status, body: body.to_owned() });
    }
    match get_str_field(body, "text") {
        Some(t) => Ok(t),
        None => Err(SttError::ResponseFormat),
    }
}

/// How many polls a driver makes when the job reports these statuses in
/// order: one per status up to and including the first terminal one.
pub open spec fn spec_polls(statuses: Seq<Seq<char>>) -> int
    decreases statuses.len(),
{
    if statuses.len() == 0 {
        0
    } else if spec_is_terminal(statuses[0]) {
        1
    } else {
        1 + spec_polls(statuses.drop_first())
    }
}

/// Polling stops at the first terminal status and not before: with the first
/// terminal status at position `k`, exactly `k + 1` polls are made.
pub proof fn lemma_polls_stop_at_first_terminal(statuses: Seq<Seq<char>>, k: int)
    requires
        0 <= k < statuses.len(),
        forall|i: int| 0 <= i < k ==> !spec_is_terminal(#[trigger] statuses[i]),
        spec_is_terminal(statuses[k]),
    ensures
        spec_polls(statuses) == k + 1,
    decreases k,
{
    if k == 0 {
    } else {
        assert(!spec_is_terminal(statuses[0]));
        lemma_polls_stop_at_first_terminal(statuses.drop_first(), k - 1);
    }
}

} // verus!
