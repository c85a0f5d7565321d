//! The Soniox realtime streaming transport.
//!
//! One persistent duplex connection to a fixed endpoint: a configuration
//! message carrying the key, model, and mapped options; the audio pushed as
//! raw binary frames; an empty text frame as the end-of-audio signal; and
//! token messages read back, of which the final tokens accumulate into the
//! transcript until the finished sentinel.

use vstd::prelude::*;

use crate::errors::SttError;
use crate::extract::{
    get_bool_field, get_code_field, get_str_field, get_tokens, is_valid_json, json_bool_field,
    json_code_field, json_str_field, json_tokens, json_valid,
};
use crate::json::{
    lemma_view_of_members_push, view_of, view_of_members, JsonData, JsonValue,
};
use crate::options::{append_soniox_members, spec_soniox_members, TranscriptionOptions};
use crate::stream::TranscriptEvent;

verus! {

/// The realtime endpoint: a fixed host, not derived from the REST base URL,
/// which serves a different service.
pub const SONIOX_WS_URL: &'static str = "wss://stt-rt.soniox.com/transcribe-websocket";

/// Bytes per binary audio frame.
pub const SONIOX_CHUNK_BYTES: usize = 3840;

/// The read deadline for one inbound message, in seconds.
pub const WS_READ_TIMEOUT_SECS: u64 = 30;

/// The members every session configuration starts with.
pub open spec fn spec_config_base(api_key: Seq<char>, model: Seq<char>) -> Seq<
    (Seq<char>, JsonData),
> {
    seq![
        ("api_key"@, JsonData::Str(api_key)),
        ("model"@, JsonData::Str(model)),
        ("audio_format"@, JsonData::Str("auto"@)),
    ]
}

/// Build the session configuration message: key, model, automatic audio
/// format detection, and the mapped options (without the strict-hints flag,
/// which this protocol does not accept).
pub fn build_soniox_config(
    api_key: &str,
    model: &str,
    options: Option<&TranscriptionOptions>,
) -> (r: JsonValue)
    ensures
        view_of(r) == JsonData::Obj(
            spec_config_base(api_key@, model@) + (match options {
                Some(o) => spec_soniox_members(o.entries@, false),
                None => Seq::<(Seq<char>, JsonData)>::empty(),
            }),
        ),
{
    let mut members: Vec<(String, JsonValue)> = Vec::new();
    proof {
        assert(view_of_members(members@) =~= Seq::<(Seq<char>, JsonData)>::empty());
    }
    let ghost m0 = members@;
    members.push(("api_key".to_owned(), JsonValue::Str(api_key.to_owned())));
    proof {
        lemma_view_of_members_push(m0, members@.last());
    }
    let ghost m1 = members@;
    members.push(("model".to_owned(), JsonValue::Str(model.to_owned())));
    proof {
        lemma_view_of_members_push(m1, members@.last());
    }
    let ghost m2 = members@;
    members.push(("audio_format".to_owned(), JsonValue::Str("auto".to_owned())));
    proof {
        lemma_view_of_members_push(m2, members@.last());
    }
    match options {
        Some(opts) => {
            append_soniox_members(&mut members, opts, false);
        },
        None => {},
    }
    let r = JsonValue::Obj(members);
    proof {
        let target = spec_config_base(api_key@, model@) + (match options {
            Some(o) => spec_soniox_members(o.entries@, false),
            None => Seq::<(Seq<char>, JsonData)>::empty(),
        });
        assert(view_of_members(members@) =~= target);
    }
    r
}

/// The transcript text one token message contributes: the texts of its final
/// tokens, concatenated in order.
pub open spec fn spec_final_concat(tokens: Seq<(bool, Seq<char>)>) -> Seq<char>
    decreases tokens.len(),
{
    if tokens.len() == 0 {
        Seq::empty()
    } else {
        (if tokens[0].0 {
            tokens[0].1
        } else {
            Seq::<char>::empty()
        }) + spec_final_concat(tokens.drop_first())
    }
}

/// The delta one inbound message contributes: the concatenated final-token
/// texts, or nothing when the message carries no token array.
pub open spec fn spec_soniox_delta(s: Seq<char>) -> Seq<char> {
    match json_tokens(s) {
        Some(toks) => spec_final_concat(toks),
        None => Seq::empty(),
    }
}

/// The message an in-band error event carries.
pub open spec fn spec_soniox_error_message(s: Seq<char>) -> Seq<char> {
    match json_str_field(s, "error_message"@) {
        Some(m) => m,
        None => "unknown"@,
    }
}

/// Interpret one inbound text message as transcript events, in order.
///
/// Malformed JSON aborts the session.  A message with an `error_code` is a
/// single error event.  Otherwise the final-token concatenation, when
/// non-empty, is one delta event, and the finished sentinel, when set, ends
/// the session after it.
pub fn classify_soniox_message(text: &str) -> (r: Result<Vec<TranscriptEvent>, SttError>)
    ensures
        !json_valid(text@) ==> (r matches Err(e) && e == SttError::ResponseFormat),
        json_valid(text@) ==> (match r {
            Ok(evs) => {
                match json_code_field(text@, "error_code"@) {
                    Some(c) => evs@.len() == 1 && (evs@[0] matches TranscriptEvent::Error {
                        code,
                        message,
                    } && code@ == c && message@ == spec_soniox_error_message(text@)),
                    None => {
                        let d = spec_soniox_delta(text@);
                        let fin = json_bool_field(text@, "finished"@) == Some(true);
                        &&& evs@.len() == (if d.len() > 0 {
                            1int
                        } else {
                            0int
                        }) + (if fin {
                            1int
                        } else {
                            0int
                        })
                        &&& (d.len() > 0 ==> (evs@[0] matches TranscriptEvent::Delta(x) && x@
                            == d))
                        &&& (fin ==> evs@[evs@.len() - 1] is Finished)
                    },
                }
            },
            Err(_) => false,
        }),
{
    if !is_valid_json(text) {
        return Err(SttError::ResponseFormat);
    }
    match get_code_field(text, "error_code") {
        Some(code) => {
            let message: String = match get_str_field(text, "error_message") {
                Some(m) => m,
                None => "unknown".to_owned(),
            };
            let mut evs: Vec<TranscriptEvent> = Vec::new();
            evs.push(TranscriptEvent::Error { code, message });
            Ok(evs)
        },
        None => {
            let mut evs: Vec<TranscriptEvent> = Vec::new();
            let delta: String = match get_tokens(text) {
                Some(tokens) => {
                    let ghost tv = tokens@.map_values(|p: (bool, String)| (p.0, p.1@));
                    let n: usize = tokens.len();
                    let mut acc = String::new();
                    proof {
                        assert(tv.skip(0) =~= tv);
                    }
                    let mut i: usize = 0;
                    while i < n
                        invariant
                            0 <= i <= n,
                            n == tokens@.len(),
                            tv == tokens@.map_values(|p: (bool, String)| (p.0, p.1@)),
                            tv.len() == n,
                            spec_final_concat(tv) == acc@ + spec_final_concat(
                                tv.skip(i as int),
                            ),
                        decreases n - i,
                    {
                        proof {
                            assert(tv.skip(i as int)[0] == tv[i as int]);
                            assert(tv[i as int] == (tokens@[i as int].0, tokens@[i as int].1@));
                            assert(tv.skip(i as int).drop_first() =~= tv.skip(i + 1));
                        }
                        if tokens[i].0 {
                            let piece = tokens[i].1.clone();
                            acc.append(piece.as_str());
                        }
                        i = i + 1;
                    }
                    proof {
                        assert(tv.skip(n as int) =~= Seq::<(bool, Seq<char>)>::empty());
                        assert(acc@ + Seq::<char>::empty() =~= acc@);
                    }
                    acc
                },
                None => String::new(),
            };
            if delta.as_str().unicode_len() > 0 {
                evs.push(TranscriptEvent::Delta(delta));
            }
            let finished: bool = match get_bool_field(text, "finished") {
                Some(b) => b,
                None => false,
            };
            if finished {
                evs.push(TranscriptEvent::Finished);
            }
            Ok(evs)
        },
    }
}

} // verus!
