use cloud_stt::batch::{
    build_test_request, build_transcription_request, check_test_response, parse_transcribe_response,
};
use cloud_stt::dispatch::{route, ProviderRoute};
use cloud_stt::errors::SttError;
use cloud_stt::json::json_to_string;
use cloud_stt::options::{OptionValue, TranscriptionOptions};
use cloud_stt::poll::{
    build_create_body, build_test_create_body, build_test_upload_request, build_upload_request,
    create_url, parse_id_response, parse_status_response, parse_transcript_response, status_url,
    transcript_url, PollStep,
};
use cloud_stt::rt_openai::{
    build_append_event, build_commit_event, build_session_update, build_stream_messages,
    build_ws_request, classify_event, pcm_to_le_bytes,
};
use cloud_stt::rt_soniox::{build_soniox_config, classify_soniox_message, SONIOX_WS_URL};
use cloud_stt::stream::{chunk_bytes, StreamStep, TranscriptCollector, TranscriptEvent};
use cloud_stt::wav::silent_clip_wav;

fn soniox_options() -> TranscriptionOptions {
    let mut opts = TranscriptionOptions::new();
    opts.insert(
        "language_hints".to_string(),
        OptionValue::List(vec!["zh-Hans".to_string(), "en-US".to_string()]),
    );
    opts.insert(
        "context_terms".to_string(),
        OptionValue::Text("alpha, beta\n gamma ,".to_string()),
    );
    opts.insert(
        "context_description".to_string(),
        OptionValue::Text("  hello world  ".to_string()),
    );
    opts.insert("language_hints_strict".to_string(), OptionValue::Flag(true));
    opts.insert("enable_speaker_diarization".to_string(), OptionValue::Flag(false));
    opts.insert("enable_language_identification".to_string(), OptionValue::Flag(true));
    opts
}

#[test]
fn batch_request_carries_url_model_language() {
    let req = build_transcription_request(
        "https://api.openai.com/v1/",
        "gpt-4o-mini-transcribe",
        vec![1, 2, 3],
        Some("zh-Hans"),
    );
    assert_eq!(req.url, "https://api.openai.com/v1/audio/transcriptions");
    assert_eq!(req.file_name, "audio.wav");
    assert_eq!(req.model, "gpt-4o-mini-transcribe");
    assert_eq!(req.language.as_deref(), Some("zh"));
    assert_eq!(req.audio, vec![1, 2, 3]);
}

#[test]
fn batch_test_request_sends_silent_clip_and_model() {
    let req = build_test_request("https://api.openai.com/v1", "whisper-1");
    assert_eq!(req.url, "https://api.openai.com/v1/audio/transcriptions");
    assert_eq!(req.file_name, "test.wav");
    assert_eq!(req.model, "whisper-1");
    assert!(req.language.is_none());
    // Exactly the 1600-sample silent clip, byte for byte.
    assert_eq!(req.audio, silent_clip_wav());
    let (samples, rate) = cloud_stt::wav::extract_pcm_from_wav(&req.audio).unwrap();
    assert_eq!(rate, 16000);
    assert_eq!(samples, vec![0i16; 1600]);
}

#[test]
fn batch_response_parsing() {
    assert_eq!(parse_transcribe_response(200, "{\"text\":\"hi there\"}"), Ok("hi there".to_string()));
    assert_eq!(parse_transcribe_response(200, "{\"nope\":1}"), Err(SttError::ResponseFormat));
    assert_eq!(parse_transcribe_response(200, "not json"), Err(SttError::ResponseFormat));
    assert_eq!(
        parse_transcribe_response(404, "missing"),
        Err(SttError::Vendor { status: 404, body: "missing".to_string() })
    );
    assert_eq!(check_test_response(204, ""), Ok(()));
    assert_eq!(
        check_test_response(401, "denied"),
        Err(SttError::Vendor { status: 401, body: "denied".to_string() })
    );
}

#[test]
fn poll_urls_are_derived_from_base() {
    assert_eq!(create_url("https://api.soniox.com/v1/"), "https://api.soniox.com/v1/transcriptions");
    assert_eq!(
        status_url("https://api.soniox.com/v1", "t42"),
        "https://api.soniox.com/v1/transcriptions/t42"
    );
    assert_eq!(
        transcript_url("https://api.soniox.com/v1", "t42"),
        "https://api.soniox.com/v1/transcriptions/t42/transcript"
    );
}

#[test]
fn upload_requests_carry_audio_and_silent_clip() {
    let req = build_upload_request("https://api.soniox.com/v1", vec![9, 9]);
    assert_eq!(req.url, "https://api.soniox.com/v1/files");
    assert_eq!(req.file_name, "audio.wav");
    assert_eq!(req.audio, vec![9, 9]);
    let test_req = build_test_upload_request("https://api.soniox.com/v1");
    assert_eq!(test_req.file_name, "test.wav");
    assert_eq!(test_req.audio, silent_clip_wav());
}

#[test]
fn create_body_maps_options() {
    let opts = soniox_options();
    let body = build_create_body("f1", "m1", Some(&opts));
    assert_eq!(
        json_to_string(&body),
        "{\"file_id\":\"f1\",\"model\":\"m1\",\
         \"language_hints\":[\"zh\",\"en\"],\
         \"context\":{\"terms\":[\"alpha\",\"beta\",\"gamma\"],\"text\":\"hello world\"},\
         \"language_hints_strict\":true,\
         \"enable_language_identification\":true}"
    );
}

#[test]
fn test_create_body_is_minimal() {
    let body = build_test_create_body("f9", "stt-async-v4");
    assert_eq!(json_to_string(&body), "{\"file_id\":\"f9\",\"model\":\"stt-async-v4\"}");
}

#[test]
fn id_and_transcript_responses() {
    assert_eq!(parse_id_response(200, "{\"id\":\"abc\"}"), Ok("abc".to_string()));
    assert_eq!(parse_id_response(200, "{}"), Err(SttError::ResponseFormat));
    assert_eq!(
        parse_id_response(500, "boom"),
        Err(SttError::Vendor { status: 500, body: "boom".to_string() })
    );
    assert_eq!(parse_transcript_response(200, "{\"text\":\"done\"}"), Ok("done".to_string()));
}

#[test]
fn three_statuses_mean_three_polls_then_fetch() {
    let bodies = [
        "{\"status\":\"queued\"}",
        "{\"status\":\"processing\"}",
        "{\"status\":\"completed\"}",
    ];
    let mut polls = 0;
    let mut fetched = false;
    for body in bodies {
        polls += 1;
        match parse_status_response(200, body).unwrap() {
            PollStep::Wait => continue,
            PollStep::Fetch => {
                fetched = true;
                break;
            },
        }
    }
    assert_eq!(polls, 3);
    assert!(fetched);
}

#[test]
fn poll_error_status_fails_job() {
    assert_eq!(parse_status_response(200, "{\"status\":\"error\"}"), Err(SttError::VendorJob));
    assert_eq!(parse_status_response(200, "{\"status\":\"weird\"}"), Ok(PollStep::Wait));
    assert_eq!(parse_status_response(200, "{}"), Err(SttError::ResponseFormat));
    assert_eq!(
        parse_status_response(503, "down"),
        Err(SttError::Vendor { status: 503, body: "down".to_string() })
    );
}

#[test]
fn ws_request_translates_scheme_and_encodes_model() {
    let req = build_ws_request("test-key", "https://api.openai.com/v1/", "gpt 4o");
    assert_eq!(req.url, "wss://api.openai.com/v1/realtime?model=gpt%204o");
    assert_eq!(req.headers.len(), 2);
    assert_eq!(req.headers[0].0, "Authorization");
    assert_eq!(req.headers[0].1, "Bearer test-key");
    assert_eq!(req.headers[1].0, "OpenAI-Beta");
    assert_eq!(req.headers[1].1, "realtime=v1");
    let plain = build_ws_request("k", "http://localhost:8080", "m");
    assert_eq!(plain.url, "ws://localhost:8080/realtime?model=m");
}

#[test]
fn session_update_holds_config() {
    let mut opts = TranscriptionOptions::new();
    opts.insert("language".to_string(), OptionValue::Text("en-US".to_string()));
    opts.insert("prompt".to_string(), OptionValue::Text("Pp".to_string()));
    let body = build_session_update("gpt", Some(&opts));
    assert_eq!(
        json_to_string(&body),
        "{\"type\":\"session.update\",\"session\":{\"audio\":{\"input\":{\
         \"format\":{\"type\":\"audio/pcm\",\"rate\":24000},\
         \"transcription\":{\"model\":\"gpt\",\"language\":\"en\",\"prompt\":\"Pp\"},\
         \"turn_detection\":null}}}}"
    );
    let bare = build_session_update("gpt", None);
    assert_eq!(
        json_to_string(&bare),
        "{\"type\":\"session.update\",\"session\":{\"audio\":{\"input\":{\
         \"format\":{\"type\":\"audio/pcm\",\"rate\":24000},\
         \"transcription\":{\"model\":\"gpt\"},\
         \"turn_detection\":null}}}}"
    );
}

#[test]
fn append_event_base64_encodes_chunk() {
    let ev = build_append_event(&[1, 2, 3]);
    assert_eq!(
        json_to_string(&ev),
        "{\"type\":\"input_audio_buffer.append\",\"audio\":\"AQID\"}"
    );
    assert_eq!(json_to_string(&build_commit_event()), "{\"type\":\"input_audio_buffer.commit\"}");
}

#[test]
fn stream_messages_are_config_chunks_commit_in_order() {
    let pcm_bytes = vec![0u8; 9600 * 2 + 10];
    let msgs = build_stream_messages("gpt", None, &pcm_bytes);
    assert_eq!(msgs.len(), 2 + 3);
    assert!(msgs[0].contains("session.update"));
    for m in &msgs[1..4] {
        assert!(m.contains("input_audio_buffer.append"));
    }
    assert_eq!(msgs[4], "{\"type\":\"input_audio_buffer.commit\"}");
}

#[test]
fn pcm_serializes_little_endian() {
    let bytes = pcm_to_le_bytes(&vec![-1i16, 258]);
    assert_eq!(bytes, vec![0xFF, 0xFF, 0x02, 0x01]);
}

#[test]
fn chunks_preserve_order_and_sizes() {
    let data: Vec<u8> = (1..=10).collect();
    let chunks = chunk_bytes(&data, 4);
    assert_eq!(chunks, vec![vec![1, 2, 3, 4], vec![5, 6, 7, 8], vec![9, 10]]);
    assert_eq!(chunk_bytes(&[], 4), Vec::<Vec<u8>>::new());
}

#[test]
fn classify_openai_events() {
    let err = classify_event("{\"type\":\"error\",\"error\":{\"message\":\"bad key\"}}").unwrap();
    match err {
        TranscriptEvent::Error { code, message } => {
            assert_eq!(code, "");
            assert_eq!(message, "bad key");
        },
        _ => panic!("expected an error event"),
    }
    let bare_err = classify_event("{\"type\":\"error\"}").unwrap();
    match bare_err {
        TranscriptEvent::Error { message, .. } => assert_eq!(message, "unknown error"),
        _ => panic!("expected an error event"),
    }
    let done = classify_event(
        "{\"type\":\"conversation.item.input_audio_transcription.completed\",\"transcript\":\"hi\"}",
    )
    .unwrap();
    match done {
        TranscriptEvent::Final(t) => assert_eq!(t, "hi"),
        _ => panic!("expected a final event"),
    }
    let delta = classify_event(
        "{\"type\":\"conversation.item.input_audio_transcription.delta\",\"delta\":\"he\"}",
    )
    .unwrap();
    match delta {
        TranscriptEvent::Delta(d) => assert_eq!(d, "he"),
        _ => panic!("expected a delta event"),
    }
    assert!(matches!(classify_event("{\"type\":\"other.kind\"}").unwrap(), TranscriptEvent::Other));
    assert!(matches!(classify_event("{}").unwrap(), TranscriptEvent::Other));
    assert_eq!(classify_event("not json").unwrap_err(), SttError::ResponseFormat);
}

#[test]
fn soniox_config_carries_key_model_options() {
    let opts = soniox_options();
    let body = build_soniox_config("sk", "rt-model", Some(&opts));
    // The strict-hints flag is not part of the realtime protocol.
    assert_eq!(
        json_to_string(&body),
        "{\"api_key\":\"sk\",\"model\":\"rt-model\",\"audio_format\":\"auto\",\
         \"language_hints\":[\"zh\",\"en\"],\
         \"context\":{\"terms\":[\"alpha\",\"beta\",\"gamma\"],\"text\":\"hello world\"},\
         \"enable_language_identification\":true}"
    );
    assert_eq!(SONIOX_WS_URL, "wss://stt-rt.soniox.com/transcribe-websocket");
}

#[test]
fn classify_soniox_messages() {
    let evs = classify_soniox_message(
        "{\"tokens\":[{\"text\":\"he\",\"is_final\":true},{\"text\":\"X\",\"is_final\":false},\
         {\"text\":\"llo\",\"is_final\":true}],\"finished\":true}",
    )
    .unwrap();
    assert_eq!(evs.len(), 2);
    match &evs[0] {
        TranscriptEvent::Delta(d) => assert_eq!(d, "hello"),
        _ => panic!("expected a delta event"),
    }
    assert!(matches!(evs[1], TranscriptEvent::Finished));
    let err = classify_soniox_message("{\"error_code\":401,\"error_message\":\"no\"}").unwrap();
    assert_eq!(err.len(), 1);
    match &err[0] {
        TranscriptEvent::Error { code, message } => {
            assert_eq!(code, "401");
            assert_eq!(message, "no");
        },
        _ => panic!("expected an error event"),
    }
    assert_eq!(classify_soniox_message("{}").unwrap().len(), 0);
    assert_eq!(classify_soniox_message("hm").unwrap_err(), SttError::ResponseFormat);
}

#[test]
fn two_deltas_concatenate_to_hello() {
    let mut c = TranscriptCollector::new();
    assert!(matches!(c.step(TranscriptEvent::Delta("hel".to_string())), StreamStep::Continue));
    assert!(matches!(c.step(TranscriptEvent::Delta("lo".to_string())), StreamStep::Continue));
    assert_eq!(c.finish(), Ok("hello".to_string()));
}

#[test]
fn error_event_aborts_without_partial_text() {
    let mut c = TranscriptCollector::new();
    assert!(matches!(c.step(TranscriptEvent::Delta("par".to_string())), StreamStep::Continue));
    let step = c.step(TranscriptEvent::Error {
        code: "e1".to_string(),
        message: "broken".to_string(),
    });
    match step {
        StreamStep::Fail(e) => assert_eq!(
            e,
            SttError::VendorStream { code: "e1".to_string(), message: "broken".to_string() }
        ),
        _ => panic!("expected the session to abort"),
    }
}

#[test]
fn final_text_wins_over_deltas_and_is_trimmed() {
    let mut c = TranscriptCollector::new();
    c.step(TranscriptEvent::Delta("partial".to_string()));
    assert!(matches!(c.step(TranscriptEvent::Final("  the whole text ".to_string())), StreamStep::Done));
    assert_eq!(c.finish(), Ok("the whole text".to_string()));
}

#[test]
fn empty_session_fails_with_empty_transcript() {
    let c = TranscriptCollector::new();
    assert_eq!(c.finish(), Err(SttError::EmptyTranscript));
    let mut c2 = TranscriptCollector::new();
    assert!(matches!(c2.step(TranscriptEvent::Finished), StreamStep::Done));
    assert_eq!(c2.finish(), Err(SttError::EmptyTranscript));
}

#[test]
fn unknown_provider_fails_before_any_request() {
    assert_eq!(route("openai_stt"), Ok(ProviderRoute::OpenAiBatch));
    assert_eq!(route("soniox"), Ok(ProviderRoute::SonioxAsyncPoll));
    assert_eq!(
        route("unknown_vendor"),
        Err(SttError::UnknownProvider { id: "unknown_vendor".to_string() })
    );
}

#[test]
fn error_kinds_have_stable_labels() {
    assert_eq!(SttError::VendorJob.kind(), "vendor job error");
    assert_eq!(SttError::StreamTimeout.kind(), "stream timeout");
    assert_eq!(SttError::EmptyTranscript.kind(), "empty transcript");
    assert_eq!(SttError::ResponseFormat.kind(), "response format error");
    assert_eq!(
        SttError::UnknownProvider { id: "x".to_string() }.kind(),
        "unknown provider"
    );
}
