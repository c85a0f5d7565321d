//! The static catalog of cloud speech-to-text providers.
//!
//! Two hard-coded cloud entries; locally discovered providers are supplied by
//! an outside collaborator and concatenated by the caller.  The listing
//! enforces no uniqueness beyond what its construction guarantees.

use vstd::prelude::*;

verus! {

/// How a numeric option's bounds are carried: fixed-point thousandths, so a
/// step of one tenth is `100`.
pub enum CloudOptionType {
    Text,
    Number { min_milli: i64, max_milli: i64, step_milli: i64 },
    Boolean,
    Language,
    LanguageMulti,
}

/// One configurable option a provider declares.
pub struct CloudProviderOption {
    pub key: String,
    pub label: String,
    pub option_type: CloudOptionType,
    pub description: String,
}

/// Where a provider runs.
pub enum ProviderBackend {
    /// An on-device model; its lifecycle is owned by an outside collaborator.
    Local,
    /// A cloud endpoint.
    Cloud { base_url: String, default_model: String, console_url: Option<String> },
}

/// One provider descriptor: identity, languages, capabilities, backend, and
/// declared options.  Immutable after construction.
pub struct SttProviderInfo {
    pub id: String,
    pub name: String,
    pub description: String,
    pub supported_languages: Vec<String>,
    pub supports_translation: bool,
    pub is_recommended: bool,
    pub backend: ProviderBackend,
    pub available_options: Vec<CloudProviderOption>,
}

/// The first provider in `list` whose id is `id`.
pub open spec fn spec_find_provider(list: Seq<SttProviderInfo>, id: Seq<char>) -> Option<
    SttProviderInfo,
>
    decreases list.len(),
{
    if list.len() == 0 {
        None
    } else if list[0].id@ == id {
        Some(list[0])
    } else {
        spec_find_provider(list.drop_first(), id)
    }
}

proof fn lemma_find_provider_skip(list: Seq<SttProviderInfo>, id: Seq<char>, i: int)
    requires
        0 <= i <= list.len(),
        forall|k: int| 0 <= k < i ==> list[k].id@ != id,
    ensures
        spec_find_provider(list, id) == spec_find_provider(list.skip(i), id),
    decreases i,
{
    if i == 0 {
        assert(list.skip(0) =~= list);
    } else {
        lemma_find_provider_skip(list.drop_first(), id, i - 1);
        assert(list.drop_first().skip(i - 1) =~= list.skip(i));
    }
}

/// Pure lookup of a provider descriptor by id: the first match in `list`.
pub fn find_provider<'a>(list: &'a Vec<SttProviderInfo>, id: &str) -> (r: Option<
    &'a SttProviderInfo,
>)
    ensures
        match r {
            Some(p) => spec_find_provider(list@, id@) == Some(*p),
            None => spec_find_provider(list@, id@) is None,
        },
{
    let n: usize = list.len();
    let mut i: usize = 0;
    while i < n
        invariant
            0 <= i <= n,
            n == list@.len(),
            forall|k: int| 0 <= k < i ==> list@[k].id@ != id@,
        decreases n - i,
    {
        if crate::chars::str_eq(list[i].id.as_str(), id) {
            proof {
                lemma_find_provider_skip(list@, id@, i as int);
                assert(list@.skip(i as int)[0] == list@[i as int]);
            }
            return Some(&list[i]);
        }
        i = i + 1;
    }
    proof {
        lemma_find_provider_skip(list@, id@, n as int);
        assert(list@.skip(n as int) =~= Seq::<SttProviderInfo>::empty());
    }
    None
}

fn text_option(key: &str, label: &str, description: &str) -> (r: CloudProviderOption)
    ensures
        r.key@ == key@,
        r.option_type is Text,
{
    CloudProviderOption {
        key: key.to_owned(),
        label: label.to_owned(),
        option_type: CloudOptionType::Text,
        description: description.to_owned(),
    }
}

fn bool_option(key: &str, label: &str, description: &str) -> (r: CloudProviderOption)
    ensures
        r.key@ == key@,
        r.option_type is Boolean,
{
    CloudProviderOption {
        key: key.to_owned(),
        label: label.to_owned(),
        option_type: CloudOptionType::Boolean,
        description: description.to_owned(),
    }
}

/// The fixed catalog of cloud providers, in presentation order.
pub fn cloud_provider_registry() -> (r: Vec<SttProviderInfo>)
    ensures
        r@.len() == 2,
        r@[0].id@ == "openai_stt"@,
        r@[1].id@ == "soniox"@,
        r@[0].supports_translation == true,
        r@[1].supports_translation == false,
        (r@[0].backend matches ProviderBackend::Cloud { base_url, default_model, .. }
            && base_url@ == "https://api.openai.com/v1"@ && default_model@
            == "gpt-4o-mini-transcribe"@),
        (r@[1].backend matches ProviderBackend::Cloud { base_url, default_model, .. }
            && base_url@ == "https://api.soniox.com/v1"@ && default_model@ == "stt-async-v4"@),
        r@[0].supported_languages@.len() > 0,
        r@[1].supported_languages@.len() > 0,
        r@[0].available_options@.len() == 3,
        r@[0].available_options@[0].key@ == "language"@,
        r@[0].available_options@[1].key@ == "prompt"@,
        r@[0].available_options@[2].key@ == "temperature"@,
        r@[1].available_options@.len() == 6,
        r@[1].available_options@[0].key@ == "language_hints"@,
        r@[1].available_options@[1].key@ == "language_hints_strict"@,
        r@[1].available_options@[2].key@ == "context_terms"@,
        r@[1].available_options@[3].key@ == "context_description"@,
        r@[1].available_options@[4].key@ == "enable_speaker_diarization"@,
        r@[1].available_options@[5].key@ == "enable_language_identification"@,
{
    let mut openai_langs: Vec<String> = Vec::new();
    let openai_codes: [&str; 57] = [
        "af", "ar", "hy", "az", "be", "bs", "bg", "ca", "zh-Hans", "zh-Hant", "hr", "cs", "da",
        "nl", "en", "et", "fi", "fr", "gl", "de", "el", "he", "hi", "hu", "is", "id", "it", "ja",
        "kn", "kk", "ko", "lv", "lt", "mk", "ms", "mr", "mi", "ne", "no", "fa", "pl", "pt", "ro",
        "ru", "sr", "sk", "sl", "es", "sw", "sv", "tl", "ta", "th", "tr", "uk", "ur", "cy",
    ];
    let mut i: usize = 0;
    while i < 57
        invariant
            openai_langs@.len() == i,
        decreases 57 - i,
    {
        openai_langs.push(openai_codes[i].to_owned());
        i = i + 1;
    }
    let mut soniox_langs: Vec<String> = Vec::new();
    let soniox_codes: [&str; 61] = [
        "af", "sq", "ar", "az", "eu", "be", "bn", "bs", "bg", "ca", "zh-Hans", "zh-Hant", "hr",
        "cs", "da", "nl", "en", "et", "fi", "fr", "gl", "de", "el", "gu", "he", "hi", "hu", "id",
        "it", "ja", "kn", "kk", "ko", "lv", "lt", "mk", "ms", "ml", "mr", "no", "fa", "pl", "pt",
        "pa", "ro", "ru", "sr", "sk", "sl", "es", "sw", "sv", "tl", "ta", "te", "th", "tr", "uk",
        "ur", "vi", "cy",
    ];
    let mut j: usize = 0;
    while j < 61
        invariant
            soniox_langs@.len() == j,
        decreases 61 - j,
    {
        soniox_langs.push(soniox_codes[j].to_owned());
        j = j + 1;
    }

    let mut openai_options: Vec<CloudProviderOption> = Vec::new();
    openai_options.push(
        CloudProviderOption {
            key: "language".to_owned(),
            label: "settings.models.cloudProviders.options.language".to_owned(),
            option_type: CloudOptionType::Language,
            description: String::new(),
        },
    );
    openai_options.push(
        text_option(
            "prompt",
            "settings.models.cloudProviders.options.prompt",
            "settings.models.cloudProviders.options.promptDescription",
        ),
    );
    openai_options.push(
        CloudProviderOption {
            key: "temperature".to_owned(),
            label: "settings.models.cloudProviders.options.temperature".to_owned(),
            option_type: CloudOptionType::Number { min_milli: 0, max_milli: 1000, step_milli: 100 },
            description: "settings.models.cloudProviders.options.temperatureDescription".to_owned(),
        },
    );

    let mut soniox_options: Vec<CloudProviderOption> = Vec::new();
    soniox_options.push(
        CloudProviderOption {
            key: "language_hints".to_owned(),
            label: "settings.models.cloudProviders.options.languageHints".to_owned(),
            option_type: CloudOptionType::LanguageMulti,
            description: String::new(),
        },
    );
    soniox_options.push(
        bool_option(
            "language_hints_strict",
            "settings.models.cloudProviders.options.languageHintsStrict",
            "settings.models.cloudProviders.options.languageHintsStrictDescription",
        ),
    );
    soniox_options.push(
        text_option(
            "context_terms",
            "settings.models.cloudProviders.options.contextTerms",
            "settings.models.cloudProviders.options.contextTermsDescription",
        ),
    );
    soniox_options.push(
        text_option(
            "context_description",
            "settings.models.cloudProviders.options.contextDescription",
            "settings.models.cloudProviders.options.contextDescriptionDescription",
        ),
    );
    soniox_options.push(
        bool_option(
            "enable_speaker_diarization",
            "settings.models.cloudProviders.options.enableSpeakerDiarization",
            "settings.models.cloudProviders.options.enableSpeakerDiarizationDescription",
        ),
    );
    soniox_options.push(
        bool_option(
            "enable_language_identification",
            "settings.models.cloudProviders.options.enableLanguageIdentification",
            "settings.models.cloudProviders.options.enableLanguageIdentificationDescription",
        ),
    );

    let openai = SttProviderInfo {
        id: "openai_stt".to_owned(),
        name: "OpenAI".to_owned(),
        description:
            "OpenAI's cloud speech-to-text API. Fast and accurate with support for 57+ languages.".to_owned(),
        supported_languages: openai_langs,
        supports_translation: true,
        is_recommended: false,
        backend: ProviderBackend::Cloud {
            base_url: "https://api.openai.com/v1".to_owned(),
            default_model: "gpt-4o-mini-transcribe".to_owned(),
            console_url: Some("https://platform.openai.com/api-keys".to_owned()),
        },
        available_options: openai_options,
    };
    let soniox = SttProviderInfo {
        id: "soniox".to_owned(),
        name: "Soniox".to_owned(),
        description: "Soniox cloud speech-to-text. High accuracy with async transcription.".to_owned(),
        supported_languages: soniox_langs,
        supports_translation: false,
        is_recommended: false,
        backend: ProviderBackend::Cloud {
            base_url: "https://api.soniox.com/v1".to_owned(),
            default_model: "stt-async-v4".to_owned(),
            console_url: Some("https://console.soniox.com".to_owned()),
        },
        available_options: soniox_options,
    };
    let mut out: Vec<SttProviderInfo> = Vec::new();
    out.push(openai);
    out.push(soniox);
    out
}

/// The combined provider listing: the locally discovered providers, as the
/// outside collaborator supplied them, followed by the two cloud entries.
/// No uniqueness is enforced beyond what the suppliers guarantee.
pub fn get_all_stt_providers(local: Vec<SttProviderInfo>) -> (r: Vec<SttProviderInfo>)
    ensures
        r@.len() == local@.len() + 2,
        forall|i: int| 0 <= i < local@.len() ==> r@[i] == local@[i],
        r@[local@.len() as int].id@ == "openai_stt"@,
        r@[local@.len() as int + 1].id@ == "soniox"@,
{
    let mut listing = local;
    let mut cloud = cloud_provider_registry();
    let ghost pre = listing@;
    let ghost cloud_view = cloud@;
    listing.append(&mut cloud);
    proof {
        assert(listing@ == pre + cloud_view);
    }
    listing
}

/// Look a provider up in the fixed cloud catalog.
pub fn find(id: &str) -> (r: Option<SttProviderInfo>)
    ensures
        (r is Some) <==> (id@ == "openai_stt"@ || id@ == "soniox"@),
        r matches Some(p) ==> p.id@ == id@,
{
    let mut listing = cloud_provider_registry();
    if crate::chars::str_eq(listing[0].id.as_str(), id) {
        return Some(listing.remove(0));
    }
    if crate::chars::str_eq(listing[1].id.as_str(), id) {
        return Some(listing.remove(1));
    }
    None
}

} // verus!
