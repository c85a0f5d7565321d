//! The OpenAI realtime streaming transport.
//!
//! One persistent duplex connection: an authenticated handshake request, a
//! session configuration message with manual commit semantics, the audio
//! pushed as base64 chunks of about 200 ms, a commit message, and then the
//! transcription events read back.  Everything here is assembled or
//! interpreted as plain values; an outside driver owns the socket.

use vstd::prelude::*;

use crate::chars::{
    primary_subtag, push_str, spec_primary, spec_trim_slashes, str_eq, str_starts_with,
    trim_trailing_slashes,
};
use crate::errors::SttError;
use crate::extract::{
    json_has_field, json_str_field, json_str_field2, json_valid, get_str_field, get_str_field2,
    has_field, is_valid_json,
};
use crate::json::{
    json_to_string, lemma_view_of_members_push, spec_json_text, view_of, view_of_members, JsonData,
    JsonValue,
};
use crate::options::{spec_text_option, TranscriptionOptions};
use crate::stream::{chunk_bytes, TranscriptEvent};
use crate::wav::spec_sample_bytes;

verus! {

/// The sample rate the realtime endpoint expects.
pub const OPENAI_RT_SAMPLE_RATE: u32 = 24000;

/// Bytes per audio message: 200 ms of 16-bit mono samples at 24 kHz.
pub const OPENAI_RT_CHUNK_BYTES: usize = 9600;

/// The read deadline for one inbound message, in seconds.
pub const WS_READ_TIMEOUT_SECS: u64 = 30;

/// The deadline for the connection handshake, in seconds.
pub const WS_CONNECT_TIMEOUT_SECS: u64 = 10;

/// The result of percent-encoding a string with the non-alphanumeric set.
pub uninterp spec fn percent_encoded(s: Seq<char>) -> Seq<char>;

/// Relies on percent_encoding's `utf8_percent_encode` with
/// `NON_ALPHANUMERIC`: every non-alphanumeric byte becomes `%XX`; the result
/// depends on the input characters alone.
#[verifier::external_body]
fn percent_encode_component(s: &str) -> (r: String)
    ensures
        r@ == percent_encoded(s@),
{
    percent_encoding::utf8_percent_encode(s, percent_encoding::NON_ALPHANUMERIC).to_string()
}

/// The result of standard base64 encoding with padding.
pub uninterp spec fn base64_of(b: Seq<u8>) -> Seq<char>;

/// Relies on base64's `STANDARD` engine: the encoding is a function of the
/// input bytes alone.  The length bound keeps the engine's internal size
/// computation from overflowing, on which it would panic.
#[verifier::external_body]
fn base64_encode(b: &[u8]) -> (r: String)
    requires
        b@.len() <= usize::MAX / 4,
    ensures
        r@ == base64_of(b@),
{
    base64::Engine::encode(&base64::engine::general_purpose::STANDARD, b)
}

/// The base URL's scheme translated for a persistent connection.
pub open spec fn spec_ws_scheme(s: Seq<char>) -> Seq<char> {
    if "https://"@.is_prefix_of(s) {
        "wss://"@ + s.skip(8)
    } else if "http://"@.is_prefix_of(s) {
        "ws://"@ + s.skip(7)
    } else {
        s
    }
}

/// Translate `https`/`http` to `wss`/`ws`; other schemes pass unchanged.
fn ws_scheme(s: &str) -> (r: String)
    ensures
        r@ == spec_ws_scheme(s@),
{
    proof {
        reveal_strlit("https://");
        reveal_strlit("http://");
        reveal_strlit("wss://");
        reveal_strlit("ws://");
    }
    let n: usize = s.unicode_len();
    if str_starts_with(s, "https://") {
        let mut r = "wss://".to_owned();
        push_str(&mut r, s.substring_char(8, n));
        proof {
            assert(s@.subrange(8, n as int) =~= s@.skip(8));
        }
        r
    } else if str_starts_with(s, "http://") {
        let mut r = "ws://".to_owned();
        push_str(&mut r, s.substring_char(7, n));
        proof {
            assert(s@.subrange(7, n as int) =~= s@.skip(7));
        }
        r
    } else {
        s.to_owned()
    }
}

/// The realtime endpoint URL for a base URL and model.
pub open spec fn spec_rt_url(base: Seq<char>, model: Seq<char>) -> Seq<char> {
    spec_ws_scheme(spec_trim_slashes(base)) + "/realtime?model="@ + percent_encoded(model)
}

/// An authenticated handshake request: the URL and its headers, in order.
pub struct WsRequest {
    pub url: String,
    pub headers: Vec<(String, String)>,
}

/// Build the handshake request: scheme-translated URL with the
/// percent-encoded model, a bearer authorization header, and the beta flag.
pub fn build_ws_request(api_key: &str, base_url: &str, model: &str) -> (r: WsRequest)
    ensures
        r.url@ == spec_rt_url(base_url@, model@),
        r.headers@.len() == 2,
        r.headers@[0].0@ == "Authorization"@,
        r.headers@[0].1@ == "Bearer "@ + api_key@,
        r.headers@[1].0@ == "OpenAI-Beta"@,
        r.headers@[1].1@ == "realtime=v1"@,
{
    let trimmed = trim_trailing_slashes(base_url);
    let mut url = ws_scheme(trimmed.as_str());
    push_str(&mut url, "/realtime?model=");
    let encoded = percent_encode_component(model);
    push_str(&mut url, encoded.as_str());
    let mut auth = "Bearer ".to_owned();
    push_str(&mut auth, api_key);
    let mut headers: Vec<(String, String)> = Vec::new();
    headers.push(("Authorization".to_owned(), auth));
    headers.push(("OpenAI-Beta".to_owned(), "realtime=v1".to_owned()));
    WsRequest { url, headers }
}

/// The members of the transcription block in the session configuration: the
/// model, then the non-empty language reduced to its primary subtag, then
/// the non-empty prompt.
pub open spec fn spec_rt_config_members(
    model: Seq<char>,
    entries: Seq<(String, crate::options::OptionValue)>,
) -> Seq<(Seq<char>, JsonData)> {
    seq![("model"@, JsonData::Str(model))] + (match spec_text_option(entries, "language"@) {
        Some(l) => if l.len() > 0 {
            seq![("language"@, JsonData::Str(spec_primary(l)))]
        } else {
            Seq::<(Seq<char>, JsonData)>::empty()
        },
        None => Seq::<(Seq<char>, JsonData)>::empty(),
    }) + (match spec_text_option(entries, "prompt"@) {
        Some(p) => if p.len() > 0 {
            seq![("prompt"@, JsonData::Str(p))]
        } else {
            Seq::<(Seq<char>, JsonData)>::empty()
        },
        None => Seq::<(Seq<char>, JsonData)>::empty(),
    })
}

/// The whole session configuration message: manual commit semantics
/// (`turn_detection` null), 24 kHz PCM input, and the transcription block.
pub open spec fn spec_session_update_data(
    model: Seq<char>,
    entries: Seq<(String, crate::options::OptionValue)>,
) -> JsonData {
    JsonData::Obj(
        seq![
            ("type"@, JsonData::Str("session.update"@)),
            (
                "session"@,
                JsonData::Obj(
                    seq![
                        (
                            "audio"@,
                            JsonData::Obj(
                                seq![
                                    (
                                        "input"@,
                                        JsonData::Obj(
                                            seq![
                                                (
                                                    "format"@,
                                                    JsonData::Obj(
                                                        seq![
                                                            ("type"@, JsonData::Str("audio/pcm"@)),
                                                            (
                                                                "rate"@,
                                                                JsonData::UInt(24000),
                                                            ),
                                                        ],
                                                    ),
                                                ),
                                                (
                                                    "transcription"@,
                                                    JsonData::Obj(
                                                        spec_rt_config_members(model, entries),
                                                    ),
                                                ),
                                                ("turn_detection"@, JsonData::Null),
                                            ],
                                        ),
                                    ),
                                ],
                            ),
                        ),
                    ],
                ),
            ),
        ],
    )
}

/// The option entries a configuration draws from: none when no options were
/// supplied.
pub open spec fn spec_entries_of(options: Option<&TranscriptionOptions>) -> Seq<
    (String, crate::options::OptionValue),
> {
    match options {
        Some(o) => o.entries@,
        None => Seq::empty(),
    }
}

/// Build the session configuration message.
pub fn build_session_update(model: &str, options: Option<&TranscriptionOptions>) -> (r: JsonValue)
    ensures
        view_of(r) == spec_session_update_data(model@, spec_entries_of(options)),
{
    let ghost e = spec_entries_of(options);
    let mut config: Vec<(String, JsonValue)> = Vec::new();
    proof {
        assert(view_of_members(config@) =~= Seq::<(Seq<char>, JsonData)>::empty());
    }
    let ghost c0 = config@;
    config.push(("model".to_owned(), JsonValue::Str(model.to_owned())));
    proof {
        lemma_view_of_members_push(c0, config@.last());
    }
    match options {
        Some(opts) => {
            match opts.get_text("language") {
                Some(l) => {
                    if l.as_str().unicode_len() > 0 {
                        let ghost c1 = config@;
                        config.push(("language".to_owned(), JsonValue::Str(primary_subtag(
                            l.as_str(),
                        ))));
                        proof {
                            lemma_view_of_members_push(c1, config@.last());
                        }
                    }
                },
                None => {},
            }
            match opts.get_text("prompt") {
                Some(p) => {
                    if p.as_str().unicode_len() > 0 {
                        let ghost c2 = config@;
                        config.push(("prompt".to_owned(), JsonValue::Str(p.clone())));
                        proof {
                            lemma_view_of_members_push(c2, config@.last());
                        }
                    }
                },
                None => {},
            }
        },
        None => {},
    }
    proof {
        assert(view_of_members(config@) =~= spec_rt_config_members(model@, e));
    }
    let ghost cfg_m = view_of_members(config@);
    let mut format: Vec<(String, JsonValue)> = Vec::new();
    let ghost f0 = format@;
    format.push(("type".to_owned(), JsonValue::Str("audio/pcm".to_owned())));
    proof {
        assert(view_of_members(f0) =~= Seq::<(Seq<char>, JsonData)>::empty());
        lemma_view_of_members_push(f0, format@.last());
    }
    let ghost f1 = format@;
    format.push(("rate".to_owned(), JsonValue::UInt(24000)));
    proof {
        lemma_view_of_members_push(f1, format@.last());
    }
    let ghost fmt_m = view_of_members(format@);
    proof {
        assert(fmt_m =~= seq![
            ("type"@, JsonData::Str("audio/pcm"@)),
            ("rate"@, JsonData::UInt(24000)),
        ]);
    }
    let mut input: Vec<(String, JsonValue)> = Vec::new();
    let ghost i0 = input@;
    input.push(("format".to_owned(), JsonValue::Obj(format)));
    proof {
        assert(view_of_members(i0) =~= Seq::<(Seq<char>, JsonData)>::empty());
        lemma_view_of_members_push(i0, input@.last());
    }
    let ghost i1 = input@;
    input.push(("transcription".to_owned(), JsonValue::Obj(config)));
    proof {
        lemma_view_of_members_push(i1, input@.last());
    }
    let ghost i2 = input@;
    input.push(("turn_detection".to_owned(), JsonValue::Null));
    proof {
        lemma_view_of_members_push(i2, input@.last());
    }
    let ghost input_m = view_of_members(input@);
    proof {
        assert(input_m =~= seq![
            ("format"@, JsonData::Obj(fmt_m)),
            ("transcription"@, JsonData::Obj(cfg_m)),
            ("turn_detection"@, JsonData::Null),
        ]);
    }
    let mut audio: Vec<(String, JsonValue)> = Vec::new();
    let ghost a0 = audio@;
    audio.push(("input".to_owned(), JsonValue::Obj(input)));
    proof {
        assert(view_of_members(a0) =~= Seq::<(Seq<char>, JsonData)>::empty());
        lemma_view_of_members_push(a0, audio@.last());
    }
    let ghost audio_m = view_of_members(audio@);
    proof {
        assert(audio_m =~= seq![("input"@, JsonData::Obj(input_m))]);
    }
    let mut session: Vec<(String, JsonValue)> = Vec::new();
    let ghost s0 = session@;
    session.push(("audio".to_owned(), JsonValue::Obj(audio)));
    proof {
        assert(view_of_members(s0) =~= Seq::<(Seq<char>, JsonData)>::empty());
        lemma_view_of_members_push(s0, session@.last());
    }
    let ghost session_m = view_of_members(session@);
    proof {
        assert(session_m =~= seq![("audio"@, JsonData::Obj(audio_m))]);
    }
    let mut top: Vec<(String, JsonValue)> = Vec::new();
    let ghost t0 = top@;
    top.push(("type".to_owned(), JsonValue::Str("session.update".to_owned())));
    proof {
        assert(view_of_members(t0) =~= Seq::<(Seq<char>, JsonData)>::empty());
        lemma_view_of_members_push(t0, top@.last());
    }
    let ghost t1 = top@;
    top.push(("session".to_owned(), JsonValue::Obj(session)));
    proof {
        lemma_view_of_members_push(t1, top@.last());
    }
    let r = JsonValue::Obj(top);
    proof {
        assert(view_of_members(top@) =~= seq![
            ("type"@, JsonData::Str("session.update"@)),
            ("session"@, JsonData::Obj(session_m)),
        ]);
        assert(spec_session_update_data(model@, e) == JsonData::Obj(
            seq![
                ("type"@, JsonData::Str("session.update"@)),
                ("session"@, JsonData::Obj(session_m)),
            ],
        ));
        assert(view_of(r) == spec_session_update_data(model@, e));
    }
    r
}

/// The shape of one audio append message.
pub open spec fn spec_append_event_data(chunk: Seq<u8>) -> JsonData {
    JsonData::Obj(
        seq![
            ("type"@, JsonData::Str("input_audio_buffer.append"@)),
            ("audio"@, JsonData::Str(base64_of(chunk))),
        ],
    )
}

/// The shape of the commit message that ends the audio input.
pub open spec fn spec_commit_data() -> JsonData {
    JsonData::Obj(seq![("type"@, JsonData::Str("input_audio_buffer.commit"@))])
}

/// Build one audio append message around the base64 of `chunk`.
pub fn build_append_event(chunk: &[u8]) -> (r: JsonValue)
    requires
        chunk@.len() <= usize::MAX / 4,
    ensures
        view_of(r) == spec_append_event_data(chunk@),
{
    let encoded = base64_encode(chunk);
    let mut top: Vec<(String, JsonValue)> = Vec::new();
    let ghost t0 = top@;
    top.push(("type".to_owned(), JsonValue::Str("input_audio_buffer.append".to_owned())));
    proof {
        assert(view_of_members(t0) =~= Seq::<(Seq<char>, JsonData)>::empty());
        lemma_view_of_members_push(t0, top@.last());
    }
    let ghost t1 = top@;
    top.push(("audio".to_owned(), JsonValue::Str(encoded)));
    proof {
        lemma_view_of_members_push(t1, top@.last());
    }
    let r = JsonValue::Obj(top);
    proof {
        assert(view_of_members(top@) =~= seq![
            ("type"@, JsonData::Str("input_audio_buffer.append"@)),
            ("audio"@, JsonData::Str(base64_of(chunk@))),
        ]);
        assert(view_of(r) == spec_append_event_data(chunk@));
    }
    r
}

/// Build the commit message.
pub fn build_commit_event() -> (r: JsonValue)
    ensures
        view_of(r) == spec_commit_data(),
{
    let mut top: Vec<(String, JsonValue)> = Vec::new();
    let ghost t0 = top@;
    top.push(("type".to_owned(), JsonValue::Str("input_audio_buffer.commit".to_owned())));
    proof {
        assert(view_of_members(t0) =~= Seq::<(Seq<char>, JsonData)>::empty());
        lemma_view_of_members_push(t0, top@.last());
    }
    let r = JsonValue::Obj(top);
    proof {
        assert(view_of_members(top@) =~= seq![
            ("type"@, JsonData::Str("input_audio_buffer.commit"@)),
        ]);
        assert(view_of(r) == spec_commit_data());
    }
    r
}

/// Samples laid out as consecutive little-endian bytes for the wire.
pub fn pcm_to_le_bytes(pcm: &Vec<i16>) -> (r: Vec<u8>)
    ensures
        r@ == spec_sample_bytes(pcm@),
{
    let n: usize = pcm.len();
    let mut out: Vec<u8> = Vec::new();
    proof {
        assert(pcm@.take(0) =~= Seq::<i16>::empty());
    }
    let mut i: usize = 0;
    while i < n
        invariant
            0 <= i <= n,
            n == pcm@.len(),
            out@ == spec_sample_bytes(pcm@.take(i as int)),
        decreases n - i,
    {
        let s: i16 = pcm[i];
        let mut b = vstd::bytes::u16_to_le_bytes(#[verifier::truncate] (s as u16));
        out.append(&mut b);
        proof {
            crate::wav::lemma_sample_bytes_snoc(pcm@, i as int);
        }
        i = i + 1;
    }
    proof {
        assert(pcm@.take(n as int) =~= pcm@);
    }
    out
}

/// The every-message send plan for one session, in order: the session
/// configuration, one append message per 9600-byte audio chunk in original
/// order, and the commit.  Each element is the exact message text.
pub fn build_stream_messages(
    model: &str,
    options: Option<&TranscriptionOptions>,
    pcm_bytes: &[u8],
) -> (r: Vec<String>)
    ensures
        ({
            let chunks = (pcm_bytes@.len() + OPENAI_RT_CHUNK_BYTES - 1) / (
            OPENAI_RT_CHUNK_BYTES as int);
            &&& r@.len() == 2 + chunks
            &&& r@[0]@ == spec_json_text(
                spec_session_update_data(model@, spec_entries_of(options)),
            )
            &&& forall|i: int|
                0 <= i < chunks ==> #[trigger] r@[i + 1]@ == spec_json_text(
                    spec_append_event_data(
                        pcm_bytes@.subrange(
                            i * OPENAI_RT_CHUNK_BYTES,
                            if (i + 1) * OPENAI_RT_CHUNK_BYTES <= pcm_bytes@.len() {
                                (i + 1) * OPENAI_RT_CHUNK_BYTES
                            } else {
                                pcm_bytes@.len() as int
                            },
                        ),
                    ),
                )
            &&& r@[r@.len() - 1]@ == spec_json_text(spec_commit_data())
        }),
{
    let mut out: Vec<String> = Vec::new();
    let session = build_session_update(model, options);
    out.push(json_to_string(&session));
    let chunks = chunk_bytes(pcm_bytes, OPENAI_RT_CHUNK_BYTES);
    let n: usize = chunks.len();
    proof {
        assert forall|k: int| 0 <= k < chunks@.len() implies chunks@[k]@.len() <= usize::MAX
            / 4 by {
            assert((k + 1) * OPENAI_RT_CHUNK_BYTES == k * OPENAI_RT_CHUNK_BYTES
                + OPENAI_RT_CHUNK_BYTES) by (nonlinear_arith);
        }
    }
    let mut i: usize = 0;
    while i < n
        invariant
            0 <= i <= n,
            n == chunks@.len(),
            out@.len() == i + 1,
            out@[0]@ == spec_json_text(spec_session_update_data(model@, spec_entries_of(options))),
            forall|k: int| 0 <= k < n ==> chunks@[k]@.len() <= usize::MAX / 4,
            forall|k: int|
                0 <= k < i ==> out@[k + 1]@ == spec_json_text(
                    spec_append_event_data(chunks@[k]@),
                ),
        decreases n - i,
    {
        let ev = build_append_event(chunks[i].as_slice());
        out.push(json_to_string(&ev));
        i = i + 1;
    }
    let commit = build_commit_event();
    out.push(json_to_string(&commit));
    proof {
        assert forall|k: int| 0 <= k < chunks@.len() implies #[trigger] out@[k + 1]@
            == spec_json_text(
            spec_append_event_data(
                pcm_bytes@.subrange(
                    k * OPENAI_RT_CHUNK_BYTES,
                    if (k + 1) * OPENAI_RT_CHUNK_BYTES <= pcm_bytes@.len() {
                        (k + 1) * OPENAI_RT_CHUNK_BYTES
                    } else {
                        pcm_bytes@.len() as int
                    },
                ),
            ),
        ) by {
            assert(chunks@[k]@ == pcm_bytes@.subrange(
                k * OPENAI_RT_CHUNK_BYTES,
                if (k + 1) * OPENAI_RT_CHUNK_BYTES <= pcm_bytes@.len() {
                    (k + 1) * OPENAI_RT_CHUNK_BYTES
                } else {
                    pcm_bytes@.len() as int
                },
            ));
        }
    }
    out
}

/// What an in-band error event carries as its message: the nested
/// `error.message` when the event has an `error` object, the top-level
/// `message` otherwise, and a fixed fallback when neither is a string.
pub open spec fn spec_rt_error_message(s: Seq<char>) -> Seq<char> {
    if json_has_field(s, "error"@) {
        match json_str_field2(s, "error"@, "message"@) {
            Some(m) => m,
            None => "unknown error"@,
        }
    } else {
        match json_str_field(s, "message"@) {
            Some(m) => m,
            None => "unknown error"@,
        }
    }
}

/// Interpret one inbound text message as a transcript event.
///
/// Malformed JSON aborts the session.  An `error` event carries the vendor's
/// message; a completed transcription carries the final transcript, or ends
/// the loop without one when the transcript is missing; a delta appends; and
/// every other event — or one without a type — is ignored.
pub fn classify_event(text: &str) -> (r: Result<TranscriptEvent, SttError>)
    ensures
        !json_valid(text@) ==> (r matches Err(e) && e == SttError::ResponseFormat),
        json_valid(text@) ==> (match r {
            Ok(ev) => {
                let ty = json_str_field(text@, "type"@);
                if ty == Some("error"@) {
                    ev matches TranscriptEvent::Error { code, message } && code@ == Seq::<
                        char,
                    >::empty() && message@ == spec_rt_error_message(text@)
                } else if ty == Some("conversation.item.input_audio_transcription.completed"@) {
                    match json_str_field(text@, "transcript"@) {
                        Some(t) => ev matches TranscriptEvent::Final(x) && x@ == t,
                        None => ev is Finished,
                    }
                } else if ty == Some("conversation.item.input_audio_transcription.delta"@) {
                    match json_str_field(text@, "delta"@) {
                        Some(d) => ev matches TranscriptEvent::Delta(x) && x@ == d,
                        None => ev is Other,
                    }
                } else {
                    ev is Other
                }
            },
            Err(_) => false,
        }),
{
    if !is_valid_json(text) {
        return Err(SttError::ResponseFormat);
    }
    let ty: Option<String> = get_str_field(text, "type");
    match ty {
        Some(t) => {
            if str_eq(t.as_str(), "error") {
                let message: String = if has_field(text, "error") {
                    match get_str_field2(text, "error", "message") {
                        Some(m) => m,
                        None => "unknown error".to_owned(),
                    }
                } else {
                    match get_str_field(text, "message") {
                        Some(m) => m,
                        None => "unknown error".to_owned(),
                    }
                };
                Ok(TranscriptEvent::Error { code: String::new(), message })
            } else if str_eq(t.as_str(), "conversation.item.input_audio_transcription.completed") {
                match get_str_field(text, "transcript") {
                    Some(t2) => Ok(TranscriptEvent::Final(t2)),
                    None => Ok(TranscriptEvent::Finished),
                }
            } else if str_eq(t.as_str(), "conversation.item.input_audio_transcription.delta") {
                match get_str_field(text, "delta") {
                    Some(d) => Ok(TranscriptEvent::Delta(d)),
                    None => Ok(TranscriptEvent::Other),
                }
            } else {
                Ok(TranscriptEvent::Other)
            }
        },
        None => Ok(TranscriptEvent::Other),
    }
}

} // verus!
