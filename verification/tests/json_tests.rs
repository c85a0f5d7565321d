use cloud_stt::chars::{primary_subtag, trim, trim_trailing_slashes};
use cloud_stt::json::{json_to_string, JsonValue};
use cloud_stt::options::{split_terms, OptionValue, TranscriptionOptions};
use cloud_stt::registry::{
    cloud_provider_registry, find, find_provider, get_all_stt_providers, ProviderBackend,
    SttProviderInfo,
};

#[test]
fn serializes_scalars() {
    assert_eq!(json_to_string(&JsonValue::Null), "null");
    assert_eq!(json_to_string(&JsonValue::Bool(true)), "true");
    assert_eq!(json_to_string(&JsonValue::Bool(false)), "false");
    assert_eq!(json_to_string(&JsonValue::UInt(0)), "0");
    assert_eq!(json_to_string(&JsonValue::UInt(1234567890)), "1234567890");
    assert_eq!(json_to_string(&JsonValue::Str("hi".to_string())), "\"hi\"");
}

#[test]
fn serializes_escapes() {
    let v = JsonValue::Str("a\"b\\c\nd\te\rf\u{1}g".to_string());
    assert_eq!(json_to_string(&v), "\"a\\\"b\\\\c\\nd\\te\\rf\\u0001g\"");
}

#[test]
fn serializes_arrays_and_objects() {
    let v = JsonValue::Arr(vec![
        JsonValue::UInt(1),
        JsonValue::Str("x".to_string()),
        JsonValue::Null,
    ]);
    assert_eq!(json_to_string(&v), "[1,\"x\",null]");
    let o = JsonValue::Obj(vec![
        ("a".to_string(), JsonValue::UInt(7)),
        ("b".to_string(), JsonValue::Arr(Vec::new())),
        ("c".to_string(), JsonValue::Obj(Vec::new())),
    ]);
    assert_eq!(json_to_string(&o), "{\"a\":7,\"b\":[],\"c\":{}}");
    // The serializer's output parses back to the same document.
    let parsed: serde_json::Value = serde_json::from_str(&json_to_string(&o)).unwrap();
    assert_eq!(parsed["a"], serde_json::Value::from(7));
}

#[test]
fn primary_subtag_strips_region() {
    assert_eq!(primary_subtag("zh-Hans"), "zh");
    assert_eq!(primary_subtag("en-US"), "en");
    assert_eq!(primary_subtag("en"), "en");
    assert_eq!(primary_subtag(""), "");
    assert_eq!(primary_subtag("-Hans"), "");
}

#[test]
fn trim_strips_ascii_whitespace() {
    assert_eq!(trim("  hello \n"), "hello");
    assert_eq!(trim("\t\r\n "), "");
    assert_eq!(trim("a b"), "a b");
}

#[test]
fn trim_trailing_slashes_only_at_end() {
    assert_eq!(trim_trailing_slashes("https://api.example.com/v1/"), "https://api.example.com/v1");
    assert_eq!(trim_trailing_slashes("https://x//"), "https://x");
    assert_eq!(trim_trailing_slashes("no-slash"), "no-slash");
}

#[test]
fn split_terms_on_commas_and_newlines() {
    assert_eq!(split_terms("alpha, beta\n gamma ,"), vec!["alpha", "beta", "gamma"]);
    assert_eq!(split_terms(""), Vec::<String>::new());
    assert_eq!(split_terms(" , \n , "), Vec::<String>::new());
    assert_eq!(split_terms("one"), vec!["one"]);
}

#[test]
fn options_project_by_key() {
    let mut opts = TranscriptionOptions::new();
    opts.insert("language".to_string(), OptionValue::Text("en-US".to_string()));
    opts.insert("flag".to_string(), OptionValue::Flag(true));
    opts.insert(
        "language_hints".to_string(),
        OptionValue::List(vec!["zh-Hans".to_string(), "en".to_string()]),
    );
    assert_eq!(opts.get_text("language").unwrap(), "en-US");
    assert!(opts.get_text("missing").is_none());
    assert!(opts.get_flag("flag"));
    assert!(!opts.get_flag("missing"));
    assert!(!opts.get_flag("language")); // wrong type reads as false
    assert_eq!(opts.get_list("language_hints").unwrap().len(), 2);
}

#[test]
fn registry_holds_two_cloud_providers() {
    let listing = cloud_provider_registry();
    assert_eq!(listing.len(), 2);
    assert_eq!(listing[0].id, "openai_stt");
    assert_eq!(listing[1].id, "soniox");
    assert!(listing[0].supports_translation);
    assert!(!listing[1].supports_translation);
    match &listing[0].backend {
        ProviderBackend::Cloud { base_url, default_model, console_url } => {
            assert_eq!(base_url, "https://api.openai.com/v1");
            assert_eq!(default_model, "gpt-4o-mini-transcribe");
            assert!(console_url.is_some());
        },
        _ => panic!("expected a cloud backend"),
    }
    match &listing[1].backend {
        ProviderBackend::Cloud { base_url, default_model, .. } => {
            assert_eq!(base_url, "https://api.soniox.com/v1");
            assert_eq!(default_model, "stt-async-v4");
        },
        _ => panic!("expected a cloud backend"),
    }
    assert!(listing[0].supported_languages.contains(&"zh-Hans".to_string()));
    assert!(listing[1].supported_languages.contains(&"zh-Hans".to_string()));
    let keys: Vec<&str> = listing[1].available_options.iter().map(|o| o.key.as_str()).collect();
    assert_eq!(
        keys,
        vec![
            "language_hints",
            "language_hints_strict",
            "context_terms",
            "context_description",
            "enable_speaker_diarization",
            "enable_language_identification",
        ]
    );
}

#[test]
fn combined_listing_appends_cloud_entries() {
    let local: Vec<SttProviderInfo> = cloud_provider_registry().into_iter().take(1).collect();
    let listing = get_all_stt_providers(local);
    assert_eq!(listing.len(), 3);
    assert_eq!(listing[0].id, "openai_stt");
    assert_eq!(listing[1].id, "openai_stt"); // duplicates are not rejected
    assert_eq!(listing[2].id, "soniox");
    let empty = get_all_stt_providers(Vec::new());
    assert_eq!(empty.len(), 2);
}

#[test]
fn registry_lookup_by_id() {
    let listing = cloud_provider_registry();
    let p = find_provider(&listing, "soniox").unwrap();
    assert_eq!(p.id, "soniox");
    assert!(find_provider(&listing, "unknown_vendor").is_none());
    assert_eq!(find("openai_stt").unwrap().id, "openai_stt");
    assert!(find("nope").is_none());
}
