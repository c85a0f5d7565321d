//! The open key-value option map that callers hand to a transport.
//!
//! Each transport projects only the keys it recognizes and ignores the rest.
//! The helpers here give the transports exactly what they project: a string
//! option, a boolean capability flag, a language list, a comma/newline term
//! split, and language codes reduced to their primary subtags.

use vstd::prelude::*;

use crate::chars::{primary_subtag, spec_primary, spec_trim, trim};
use crate::json::{
    lemma_view_of_list_push, lemma_view_of_members_push, view_of, view_of_list, view_of_members,
    JsonData, JsonValue,
};

verus! {

/// One value in the option map.
pub enum OptionValue {
    /// Freeform text: a language code, a prompt, context text.
    Text(String),
    /// A boolean capability flag.
    Flag(bool),
    /// A list of strings: language hints.
    List(Vec<String>),
}

/// The options a caller supplies for one transcription, interpreted
/// per provider; unknown keys are ignored, absent keys use vendor defaults.
pub struct TranscriptionOptions {
    pub entries: Vec<(String, OptionValue)>,
}

/// The first value stored under `key`, if any.
pub open spec fn spec_lookup(entries: Seq<(String, OptionValue)>, key: Seq<char>) -> Option<
    OptionValue,
>
    decreases entries.len(),
{
    if entries.len() == 0 {
        None
    } else if entries[0].0@ == key {
        Some(entries[0].1)
    } else {
        spec_lookup(entries.drop_first(), key)
    }
}

/// The text stored under `key`, if the key holds a [`OptionValue::Text`].
pub open spec fn spec_text_option(entries: Seq<(String, OptionValue)>, key: Seq<char>) -> Option<
    Seq<char>,
> {
    match spec_lookup(entries, key) {
        Some(OptionValue::Text(s)) => Some(s@),
        _ => None,
    }
}

/// The flag stored under `key`; an absent or non-flag key means `false`.
pub open spec fn spec_flag_option(entries: Seq<(String, OptionValue)>, key: Seq<char>) -> bool {
    match spec_lookup(entries, key) {
        Some(OptionValue::Flag(b)) => b,
        _ => false,
    }
}

/// The list stored under `key`, if the key holds a [`OptionValue::List`].
pub open spec fn spec_list_option(entries: Seq<(String, OptionValue)>, key: Seq<char>) -> Option<
    Seq<Seq<char>>,
> {
    match spec_lookup(entries, key) {
        Some(OptionValue::List(v)) => Some(v@.map_values(|s: String| s@)),
        _ => None,
    }
}

proof fn lemma_lookup_skip(entries: Seq<(String, OptionValue)>, key: Seq<char>, i: int)
    requires
        0 <= i <= entries.len(),
        forall|k: int| 0 <= k < i ==> entries[k].0@ != key,
    ensures
        spec_lookup(entries, key) == spec_lookup(entries.skip(i), key),
    decreases i,
{
    if i == 0 {
        assert(entries.skip(0) =~= entries);
    } else {
        assert(entries[0].0@ != key);
        lemma_lookup_skip(entries.drop_first(), key, i - 1);
        assert(entries.drop_first().skip(i - 1) =~= entries.skip(i));
    }
}

impl TranscriptionOptions {
    /// An empty option map.
    pub fn new() -> (r: TranscriptionOptions)
        ensures
            r.entries@.len() == 0,
    {
        TranscriptionOptions { entries: Vec::new() }
    }

    /// Add `key` with `value` at the end of the map.
    pub fn insert(&mut self, key: String, value: OptionValue)
        ensures
            final(self).entries@ == old(self).entries@.push((key, value)),
    {
        self.entries.push((key, value));
    }

    /// The first value stored under `key`.
    pub fn get(&self, key: &str) -> (r: Option<&OptionValue>)
        ensures
            match r {
                Some(v) => spec_lookup(self.entries@, key@) == Some(*v),
                None => spec_lookup(self.entries@, key@) is None,
            },
    {
        let n: usize = self.entries.len();
        let mut i: usize = 0;
        while i < n
            invariant
                0 <= i <= n,
                n == self.entries@.len(),
                forall|k: int| 0 <= k < i ==> self.entries@[k].0@ != key@,
            decreases n - i,
        {
            if crate::chars::str_eq(self.entries[i].0.as_str(), key) {
                proof {
                    lemma_lookup_skip(self.entries@, key@, i as int);
                    assert(self.entries@.skip(i as int)[0] == self.entries@[i as int]);
                }
                return Some(&self.entries[i].1);
            }
            i = i + 1;
        }
        proof {
            lemma_lookup_skip(self.entries@, key@, n as int);
            assert(self.entries@.skip(n as int) =~= Seq::<(String, OptionValue)>::empty());
        }
        None
    }

    /// The text stored under `key`, if it is a text option.
    pub fn get_text(&self, key: &str) -> (r: Option<&String>)
        ensures
            match r {
                Some(v) => spec_text_option(self.entries@, key@) == Some(v@),
                None => spec_text_option(self.entries@, key@) is None,
            },
    {
        match self.get(key) {
            Some(OptionValue::Text(s)) => Some(s),
            _ => None,
        }
    }

    /// The flag stored under `key`; absent or non-flag keys read as `false`.
    pub fn get_flag(&self, key: &str) -> (r: bool)
        ensures
            r == spec_flag_option(self.entries@, key@),
    {
        match self.get(key) {
            Some(OptionValue::Flag(b)) => *b,
            _ => false,
        }
    }

    /// The list stored under `key`, if it is a list option.
    pub fn get_list(&self, key: &str) -> (r: Option<&Vec<String>>)
        ensures
            match r {
                Some(v) => spec_list_option(self.entries@, key@) == Some(
                    v@.map_values(|s: String| s@),
                ),
                None => spec_list_option(self.entries@, key@) is None,
            },
    {
        match self.get(key) {
            Some(OptionValue::List(v)) => Some(v),
            _ => None,
        }
    }
}

/// A term separator: comma or newline.
pub open spec fn is_term_sep(c: char) -> bool {
    c == ',' || c == '\n'
}

/// The pieces of `s` between term separators, in order, separators removed.
pub open spec fn spec_split_terms(s: Seq<char>) -> Seq<Seq<char>>
    decreases s.len(),
{
    if s.len() == 0 {
        seq![Seq::<char>::empty()]
    } else if is_term_sep(s[0]) {
        seq![Seq::<char>::empty()] + spec_split_terms(s.drop_first())
    } else {
        let rest = spec_split_terms(s.drop_first());
        rest.update(0, seq![s[0]] + rest[0])
    }
}

/// Pieces trimmed, empty pieces dropped.
pub open spec fn spec_clean_terms(pieces: Seq<Seq<char>>) -> Seq<Seq<char>>
    decreases pieces.len(),
{
    if pieces.len() == 0 {
        Seq::empty()
    } else {
        let t = spec_trim(pieces[0]);
        (if t.len() > 0 {
            seq![t]
        } else {
            Seq::<Seq<char>>::empty()
        }) + spec_clean_terms(pieces.drop_first())
    }
}

/// The context terms of `s`: split on comma/newline, trimmed, empties
/// dropped.
pub open spec fn spec_terms(s: Seq<char>) -> Seq<Seq<char>> {
    spec_clean_terms(spec_split_terms(s))
}

proof fn lemma_split_terms_len(s: Seq<char>)
    ensures
        spec_split_terms(s).len() >= 1,
    decreases s.len(),
{
    if s.len() == 0 {
    } else if is_term_sep(s[0]) {
        lemma_split_terms_len(s.drop_first());
    } else {
        lemma_split_terms_len(s.drop_first());
    }
}

proof fn lemma_clean_terms_concat(a: Seq<Seq<char>>, b: Seq<Seq<char>>)
    ensures
        spec_clean_terms(a + b) == spec_clean_terms(a) + spec_clean_terms(b),
    decreases a.len(),
{
    if a.len() == 0 {
        assert(a + b =~= b);
        assert(spec_clean_terms(a) =~= Seq::<Seq<char>>::empty());
        assert(Seq::<Seq<char>>::empty() + spec_clean_terms(b) =~= spec_clean_terms(b));
    } else {
        lemma_clean_terms_concat(a.drop_first(), b);
        assert((a + b).drop_first() =~= a.drop_first() + b);
        assert((a + b)[0] == a[0]);
        let h = if spec_trim(a[0]).len() > 0 {
            seq![spec_trim(a[0])]
        } else {
            Seq::<Seq<char>>::empty()
        };
        assert(h + (spec_clean_terms(a.drop_first()) + spec_clean_terms(b)) =~= (h
            + spec_clean_terms(a.drop_first())) + spec_clean_terms(b));
    }
}

/// Splitting at the first separator position peels off one piece.
proof fn lemma_split_terms_at_sep(s: Seq<char>, p: int)
    requires
        0 <= p <= s.len(),
        forall|k: int| 0 <= k < p ==> !is_term_sep(s[k]),
        p < s.len() ==> is_term_sep(s[p]),
    ensures
        p == s.len() ==> spec_split_terms(s) == seq![s],
        p < s.len() ==> spec_split_terms(s) == seq![s.take(p)] + spec_split_terms(s.skip(p + 1)),
    decreases p,
{
    lemma_split_terms_len(s.drop_first());
    if p == 0 {
        if s.len() == 0 {
            assert(spec_split_terms(s) =~~= seq![s]);
        } else {
            assert(is_term_sep(s[0]));
            assert(s.take(0) =~= Seq::<char>::empty());
            assert(s.skip(1) =~= s.drop_first());
            assert(spec_split_terms(s) =~~= seq![s.take(0)] + spec_split_terms(s.skip(1)));
        }
    } else {
        lemma_split_terms_at_sep(s.drop_first(), p - 1);
        let rest = spec_split_terms(s.drop_first());
        if p == s.len() {
            assert(rest == seq![s.drop_first()]);
            assert(rest[0] == s.drop_first());
            assert(seq![s[0]] + s.drop_first() =~= s);
            assert(spec_split_terms(s) =~~= seq![s]);
        } else {
            assert(rest == seq![s.drop_first().take(p - 1)] + spec_split_terms(
                s.drop_first().skip(p),
            ));
            assert(rest[0] == s.drop_first().take(p - 1));
            assert(seq![s[0]] + s.drop_first().take(p - 1) =~= s.take(p));
            assert(s.drop_first().skip(p) =~= s.skip(p + 1));
            assert(spec_split_terms(s) =~~= seq![s.take(p)] + spec_split_terms(s.skip(p + 1)));
        }
    }
}

/// Exec twin of [`is_term_sep`].
#[verifier::when_used_as_spec(is_term_sep)]
pub fn is_term_sep_exec(c: char) -> (r: bool)
    ensures
        r == is_term_sep(c),
{
    c == ',' || c == '\n'
}

/// Split `s` on commas and newlines, trim each piece, and drop the empties.
pub fn split_terms(s: &str) -> (r: Vec<String>)
    ensures
        r@.map_values(|t: String| t@) == spec_terms(s@),
{
    let n: usize = s.unicode_len();
    let mut out: Vec<String> = Vec::new();
    let mut start: usize = 0;
    let mut i: usize = 0;
    proof {
        assert(s@.skip(0) =~= s@);
        assert(out@.map_values(|t: String| t@) =~= Seq::<Seq<char>>::empty());
    }
    while i < n
        invariant
            0 <= start <= i <= n,
            n == s@.len(),
            forall|k: int| start <= k < i ==> !is_term_sep(s@[k]),
            spec_terms(s@) == out@.map_values(|t: String| t@) + spec_terms(s@.skip(start as int)),
        decreases n - i,
    {
        let c = s.get_char(i);
        if is_term_sep_exec(c) {
            let piece = s.substring_char(start, i);
            let t = trim(piece);
            proof {
                let tail = s@.skip(start as int);
                assert(tail[i - start] == s@[i as int]);
                assert(forall|k: int| 0 <= k < i - start ==> tail[k] == s@[k + start]);
                lemma_split_terms_at_sep(tail, i - start);
                assert(tail.take(i - start) =~= s@.subrange(start as int, i as int));
                assert(tail.skip(i - start + 1) =~= s@.skip(i + 1));
                lemma_clean_terms_concat(
                    seq![s@.subrange(start as int, i as int)],
                    spec_split_terms(s@.skip(i + 1)),
                );
                assert(spec_clean_terms(Seq::<Seq<char>>::empty()) == Seq::<Seq<char>>::empty());
                assert(seq![s@.subrange(start as int, i as int)].drop_first() =~= Seq::<
                    Seq<char>,
                >::empty());
                assert(spec_clean_terms(seq![s@.subrange(start as int, i as int)]) =~= (if t@.len()
                    > 0 {
                    seq![t@]
                } else {
                    Seq::<Seq<char>>::empty()
                }) + Seq::<Seq<char>>::empty());
            }
            if t.unicode_len() > 0 {
                let ghost pre = out@;
                out.push(t);
                proof {
                    assert(out@.map_values(|q: String| q@) =~= pre.map_values(|q: String| q@)
                        + seq![t@]);
                }
            }
            proof {
                assert(spec_terms(s@) =~= out@.map_values(|q: String| q@) + spec_terms(
                    s@.skip(i + 1),
                ));
            }
            start = i + 1;
        }
        i = i + 1;
    }
    let piece = s.substring_char(start, n);
    let t = trim(piece);
    proof {
        let tail = s@.skip(start as int);
        assert(forall|k: int| 0 <= k < tail.len() ==> tail[k] == s@[k + start]);
        lemma_split_terms_at_sep(tail, n - start);
        assert(tail.take(n - start) =~= tail);
        assert(tail =~= s@.subrange(start as int, n as int));
        assert(spec_clean_terms(Seq::<Seq<char>>::empty()) == Seq::<Seq<char>>::empty());
        assert(seq![tail].drop_first() =~= Seq::<Seq<char>>::empty());
        assert(spec_clean_terms(seq![tail]) =~= (if t@.len() > 0 {
            seq![t@]
        } else {
            Seq::<Seq<char>>::empty()
        }) + Seq::<Seq<char>>::empty());
    }
    if t.unicode_len() > 0 {
        let ghost pre = out@;
        out.push(t);
        proof {
            assert(out@.map_values(|q: String| q@) =~= pre.map_values(|q: String| q@) + seq![t@]);
        }
    }
    proof {
        assert(spec_terms(s@) =~= out@.map_values(|q: String| q@));
    }
    out
}

/// The `language_hints` member: every hint reduced to its primary subtag;
/// omitted when the list option is absent or empty.
pub open spec fn spec_hint_members(entries: Seq<(String, OptionValue)>) -> Seq<
    (Seq<char>, JsonData),
> {
    match spec_list_option(entries, "language_hints"@) {
        Some(hs) => {
            if hs.len() > 0 {
                seq![
                    (
                        "language_hints"@,
                        JsonData::Arr(hs.map_values(|h: Seq<char>| JsonData::Str(spec_primary(h)))),
                    ),
                ]
            } else {
                Seq::empty()
            }
        },
        None => Seq::empty(),
    }
}

/// Any language code with a subtag normalizes to its primary tag before it
/// is placed in the hints field of a vendor request: the emitted array holds
/// exactly the primary subtags of the caller's hints, in order, and none of
/// them contains the `'-'` separator.
pub proof fn lemma_hint_members_normalized(entries: Seq<(String, OptionValue)>)
    ensures
        (match spec_list_option(entries, "language_hints"@) {
            Some(hs) => hs.len() > 0 ==> ({
                let member = spec_hint_members(entries)[0];
                &&& spec_hint_members(entries).len() == 1
                &&& member.0 == "language_hints"@
                &&& member.1 == JsonData::Arr(
                    hs.map_values(|h: Seq<char>| JsonData::Str(spec_primary(h))),
                )
                &&& forall|i: int, k: int|
                    0 <= i < hs.len() && 0 <= k < spec_primary(hs[i]).len()
                        ==> #[trigger] spec_primary(hs[i])[k] != '-'
            }),
            None => spec_hint_members(entries) == Seq::<(Seq<char>, JsonData)>::empty(),
        }),
{
    match spec_list_option(entries, "language_hints"@) {
        Some(hs) => {
            if hs.len() > 0 {
                assert forall|i: int, k: int|
                    0 <= i < hs.len() && 0 <= k < spec_primary(hs[i]).len()
                        implies #[trigger] spec_primary(hs[i])[k] != '-' by {
                    crate::chars::lemma_primary_no_subtag(hs[i]);
                }
            }
        },
        None => {},
    }
}

/// The context terms drawn from the `context_terms` text option.
pub open spec fn spec_context_terms(entries: Seq<(String, OptionValue)>) -> Seq<Seq<char>> {
    match spec_text_option(entries, "context_terms"@) {
        Some(t) => spec_terms(t),
        None => Seq::empty(),
    }
}

/// The trimmed `context_description` text, when it is non-empty.
pub open spec fn spec_context_text(entries: Seq<(String, OptionValue)>) -> Option<Seq<char>> {
    match spec_text_option(entries, "context_description"@) {
        Some(t) => if spec_trim(t).len() > 0 {
            Some(spec_trim(t))
        } else {
            None
        },
        None => None,
    }
}

/// The `context` member: the term list and the free text, nested together;
/// omitted when both are empty.
pub open spec fn spec_context_members(entries: Seq<(String, OptionValue)>) -> Seq<
    (Seq<char>, JsonData),
> {
    let terms = spec_context_terms(entries);
    let text = spec_context_text(entries);
    if terms.len() > 0 || text is Some {
        let inner = (if terms.len() > 0 {
            seq![("terms"@, JsonData::Arr(terms.map_values(|t: Seq<char>| JsonData::Str(t))))]
        } else {
            Seq::<(Seq<char>, JsonData)>::empty()
        }) + (match text {
            Some(t) => seq![("text"@, JsonData::Str(t))],
            None => Seq::<(Seq<char>, JsonData)>::empty(),
        });
        seq![("context"@, JsonData::Obj(inner))]
    } else {
        Seq::empty()
    }
}

/// The member for one capability flag: present only when the flag is set.
pub open spec fn spec_flag_member(entries: Seq<(String, OptionValue)>, key: Seq<char>) -> Seq<
    (Seq<char>, JsonData),
> {
    if spec_flag_option(entries, key) {
        seq![(key, JsonData::Bool(true))]
    } else {
        Seq::empty()
    }
}

/// Every member the Soniox option mapping contributes, in order: language
/// hints, context, then the capability flags.  `include_strict` admits the
/// `language_hints_strict` flag, which only the upload-then-poll protocol
/// accepts.
pub open spec fn spec_soniox_members(
    entries: Seq<(String, OptionValue)>,
    include_strict: bool,
) -> Seq<(Seq<char>, JsonData)> {
    spec_hint_members(entries) + spec_context_members(entries) + (if include_strict {
        spec_flag_member(entries, "language_hints_strict"@)
    } else {
        Seq::empty()
    }) + spec_flag_member(entries, "enable_speaker_diarization"@) + spec_flag_member(
        entries,
        "enable_language_identification"@,
    )
}

/// Build a JSON string array from string values.
fn string_array(items: &Vec<String>) -> (r: JsonValue)
    ensures
        view_of(r) == JsonData::Arr(items@.map_values(|s: String| JsonData::Str(s@))),
{
    let n: usize = items.len();
    let mut arr: Vec<JsonValue> = Vec::new();
    let mut i: usize = 0;
    while i < n
        invariant
            0 <= i <= n,
            n == items@.len(),
            view_of_list(arr@) == items@.take(i as int).map_values(
                |s: String| JsonData::Str(s@),
            ),
        decreases n - i,
    {
        let ghost pre = arr@;
        arr.push(JsonValue::Str(items[i].clone()));
        proof {
            lemma_view_of_list_push(pre, arr@.last());
            assert(arr@ == pre.push(arr@.last()));
            assert(view_of(arr@.last()) == JsonData::Str(items@[i as int]@));
            assert(view_of_list(arr@) == view_of_list(pre) + seq![
                JsonData::Str(items@[i as int]@),
            ]);
            assert(view_of_list(arr@) =~= items@.take(i + 1).map_values(
                |s: String| JsonData::Str(s@),
            ));
        }
        i = i + 1;
    }
    proof {
        assert(items@.take(n as int) =~= items@);
    }
    JsonValue::Arr(arr)
}

/// Append one capability-flag member when the flag is set in `opts`.
fn push_flag_member(members: &mut Vec<(String, JsonValue)>, opts: &TranscriptionOptions, key: &str)
    ensures
        view_of_members(final(members)@) == view_of_members(old(members)@) + spec_flag_member(
            opts.entries@,
            key@,
        ),
{
    let ghost pre = members@;
    if opts.get_flag(key) {
        members.push((key.to_owned(), JsonValue::Bool(true)));
        proof {
            lemma_view_of_members_push(pre, members@.last());
        }
    } else {
        proof {
            assert(view_of_members(members@) =~= view_of_members(pre) + spec_flag_member(
                opts.entries@,
                key@,
            ));
        }
    }
}

/// Append the Soniox option block of `opts` onto `members`: normalized
/// language hints, the nested context object, and the capability flags that
/// are set.
#[verifier::rlimit(60)]
pub fn append_soniox_members(
    members: &mut Vec<(String, JsonValue)>,
    opts: &TranscriptionOptions,
    include_strict: bool,
)
    ensures
        view_of_members(final(members)@) == view_of_members(old(members)@) + spec_soniox_members(
            opts.entries@,
            include_strict,
        ),
{
    let ghost e = opts.entries@;
    let ghost v0 = view_of_members(old(members)@);
    match opts.get_list("language_hints") {
        Some(hints) => {
            if hints.len() > 0 {
                let codes = normalize_hints(hints);
                let arr = string_array(&codes);
                let ghost pre = members@;
                let ghost arr_view = view_of(arr);
                members.push(("language_hints".to_owned(), arr));
                proof {
                    lemma_view_of_members_push(pre, members@.last());
                    assert(codes@.map_values(|s: String| JsonData::Str(s@)) =~= hints@.map_values(
                        |s: String| s@,
                    ).map_values(|h: Seq<char>| JsonData::Str(spec_primary(h))));
                    assert(view_of_members(members@) =~= v0 + spec_hint_members(e));
                }
            } else {
                proof {
                    assert(view_of_members(members@) =~= v0 + spec_hint_members(e));
                }
            }
        },
        None => {
            proof {
                assert(view_of_members(members@) =~= v0 + spec_hint_members(e));
            }
        },
    }
    let ghost v_hints = view_of_members(members@);

    let terms: Vec<String> = match opts.get_text("context_terms") {
        Some(t) => split_terms(t.as_str()),
        None => Vec::new(),
    };
    proof {
        assert(terms@.map_values(|q: String| q@) =~= spec_context_terms(e));
    }
    let ctx_text: Option<String> = match opts.get_text("context_description") {
        Some(t) => {
            let tt = trim(t.as_str());
            if tt.unicode_len() > 0 {
                Some(tt)
            } else {
                None
            }
        },
        None => None,
    };
    proof {
        if ctx_text is Some {
            assert(spec_context_text(e) == Some(ctx_text->Some_0@));
        } else {
            assert(spec_context_text(e) is None);
        }
    }
    if terms.len() > 0 || ctx_text.is_some() {
        let mut inner: Vec<(String, JsonValue)> = Vec::new();
        proof {
            assert(view_of_members(inner@) =~= Seq::<(Seq<char>, JsonData)>::empty());
        }
        if terms.len() > 0 {
            let ghost ipre = inner@;
            inner.push(("terms".to_owned(), string_array(&terms)));
            proof {
                lemma_view_of_members_push(ipre, inner@.last());
                assert(terms@.map_values(|s: String| JsonData::Str(s@)) =~= spec_context_terms(
                    e,
                ).map_values(|t: Seq<char>| JsonData::Str(t)));
            }
        }
        match ctx_text {
            Some(t) => {
                let ghost ipre = inner@;
                inner.push(("text".to_owned(), JsonValue::Str(t)));
                proof {
                    lemma_view_of_members_push(ipre, inner@.last());
                }
            },
            None => {},
        }
        let ghost ipre = members@;
        members.push(("context".to_owned(), JsonValue::Obj(inner)));
        proof {
            lemma_view_of_members_push(ipre, members@.last());
            assert(view_of_members(members@) =~= v_hints + spec_context_members(e));
        }
    } else {
        proof {
            assert(view_of_members(members@) =~= v_hints + spec_context_members(e));
        }
    }
    let ghost v_ctx = view_of_members(members@);

    if include_strict {
        push_flag_member(members, opts, "language_hints_strict");
    }
    proof {
        assert(view_of_members(members@) =~= v_ctx + (if include_strict {
            spec_flag_member(e, "language_hints_strict"@)
        } else {
            Seq::<(Seq<char>, JsonData)>::empty()
        }));
    }
    push_flag_member(members, opts, "enable_speaker_diarization");
    push_flag_member(members, opts, "enable_language_identification");
    proof {
        assert(view_of_members(members@) =~= v0 + spec_soniox_members(e, include_strict));
    }
}

/// Reduce every hint to its primary language subtag, in order.
pub fn normalize_hints(hints: &Vec<String>) -> (r: Vec<String>)
    ensures
        r@.len() == hints@.len(),
        forall|i: int| 0 <= i < r@.len() ==> r@[i]@ == spec_primary(hints@[i]@),
{
    let n: usize = hints.len();
    let mut out: Vec<String> = Vec::new();
    let mut i: usize = 0;
    while i < n
        invariant
            0 <= i <= n,
            n == hints@.len(),
            out@.len() == i,
            forall|k: int| 0 <= k < i ==> out@[k]@ == spec_primary(hints@[k]@),
        decreases n - i,
    {
        out.push(primary_subtag(hints[i].as_str()));
        i = i + 1;
    }
    out
}

} // verus!
