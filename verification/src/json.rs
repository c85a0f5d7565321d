//! The JSON values the transports send, and a verified serializer.
//!
//! Outbound control messages and request bodies are built as [`JsonValue`]
//! trees.  The mathematical shape of a tree is its [`JsonData`] view, and
//! [`json_to_string`] renders exactly [`spec_json_text`] of that view, so a
//! contract that pins a message's view pins its wire text character for
//! character.

use vstd::prelude::*;

use crate::chars::push_char;

verus! {

/// A JSON value assembled by the transports.
///
/// Only what the wire protocols emit is representable: numbers are unsigned
/// integers, which is all any outbound message carries.
pub enum JsonValue {
    Null,
    Bool(bool),
    UInt(u64),
    Str(String),
    Arr(Vec<JsonValue>),
    Obj(Vec<(String, JsonValue)>),
}

/// The mathematical shape of a [`JsonValue`]: strings become character
/// sequences, vectors become sequences.
pub enum JsonData {
    Null,
    Bool(bool),
    UInt(u64),
    Str(Seq<char>),
    Arr(Seq<JsonData>),
    Obj(Seq<(Seq<char>, JsonData)>),
}

/// The [`JsonData`] shape of a [`JsonValue`].
pub open spec fn view_of(v: JsonValue) -> JsonData
    decreases v,
{
    match v {
        JsonValue::Null => JsonData::Null,
        JsonValue::Bool(b) => JsonData::Bool(b),
        JsonValue::UInt(n) => JsonData::UInt(n),
        JsonValue::Str(s) => JsonData::Str(s@),
        JsonValue::Arr(items) => JsonData::Arr(view_of_list(items@)),
        JsonValue::Obj(members) => JsonData::Obj(view_of_members(members@)),
    }
}

/// The shapes of a sequence of values.
pub open spec fn view_of_list(items: Seq<JsonValue>) -> Seq<JsonData>
    decreases items,
{
    if items.len() == 0 {
        Seq::empty()
    } else {
        seq![view_of(items[0])] + view_of_list(items.drop_first())
    }
}

/// The shapes of a sequence of object members.
pub open spec fn view_of_members(members: Seq<(String, JsonValue)>) -> Seq<(Seq<char>, JsonData)>
    decreases members,
{
    if members.len() == 0 {
        Seq::empty()
    } else {
        seq![(members[0].0@, view_of(members[0].1))] + view_of_members(members.drop_first())
    }
}

/// The shape sequence is pointwise the shapes of the values.
pub proof fn lemma_view_of_list_props(items: Seq<JsonValue>)
    ensures
        view_of_list(items).len() == items.len(),
        forall|i: int| 0 <= i < items.len() ==> view_of_list(items)[i] == view_of(items[i]),
    decreases items.len(),
{
    if items.len() > 0 {
        lemma_view_of_list_props(items.drop_first());
    }
}

/// The member-shape sequence is pointwise the shapes of the members.
pub proof fn lemma_view_of_members_props(members: Seq<(String, JsonValue)>)
    ensures
        view_of_members(members).len() == members.len(),
        forall|i: int|
            0 <= i < members.len() ==> view_of_members(members)[i] == (
            members[i].0@,
            view_of(members[i].1),
            ),
    decreases members.len(),
{
    if members.len() > 0 {
        lemma_view_of_members_props(members.drop_first());
    }
}

/// Appending a value extends the shape sequence by its shape.
pub proof fn lemma_view_of_list_push(items: Seq<JsonValue>, v: JsonValue)
    ensures
        view_of_list(items.push(v)) == view_of_list(items) + seq![view_of(v)],
{
    lemma_view_of_list_props(items);
    lemma_view_of_list_props(items.push(v));
    assert(view_of_list(items.push(v)) =~= view_of_list(items) + seq![view_of(v)]);
}

/// Appending a member extends the member-shape sequence by its shape.
pub proof fn lemma_view_of_members_push(members: Seq<(String, JsonValue)>, m: (String, JsonValue))
    ensures
        view_of_members(members.push(m)) == view_of_members(members) + seq![(m.0@, view_of(m.1))],
{
    lemma_view_of_members_props(members);
    lemma_view_of_members_props(members.push(m));
    assert(view_of_members(members.push(m)) =~= view_of_members(members) + seq![
        (m.0@, view_of(m.1)),
    ]);
}

/// The decimal digit character for `n` in `0..=9`.
pub open spec fn spec_digit(n: int) -> char
    recommends
        0 <= n <= 9,
{
    ((0x30 + n) as u8) as char
}

/// The lower-case hexadecimal digit character for `n` in `0..=15`.
pub open spec fn spec_hex_digit(n: int) -> char
    recommends
        0 <= n <= 15,
{
    if n < 10 {
        spec_digit(n)
    } else {
        ((0x57 + n) as u8) as char
    }
}

/// The decimal rendering of a non-negative integer.
pub open spec fn spec_u64_digits(n: int) -> Seq<char>
    recommends
        n >= 0,
    decreases n,
{
    if n < 10 {
        seq![spec_digit(n)]
    } else {
        spec_u64_digits(n / 10) + seq![spec_digit(n % 10)]
    }
}

/// How one character appears inside a JSON string literal.
pub open spec fn spec_escape_char(c: char) -> Seq<char> {
    if c == '"' {
        seq!['\\', '"']
    } else if c == '\\' {
        seq!['\\', '\\']
    } else if c == '\n' {
        seq!['\\', 'n']
    } else if c == '\r' {
        seq!['\\', 'r']
    } else if c == '\t' {
        seq!['\\', 't']
    } else if (c as int) < 0x20 {
        seq!['\\', 'u', '0', '0', spec_hex_digit((c as int) / 16), spec_hex_digit((c as int) % 16)]
    } else {
        seq![c]
    }
}

/// A whole string escaped for a JSON string literal.
pub open spec fn spec_escape(s: Seq<char>) -> Seq<char>
    decreases s.len(),
{
    if s.len() == 0 {
        Seq::empty()
    } else {
        spec_escape_char(s[0]) + spec_escape(s.drop_first())
    }
}

/// A JSON string literal: quotes around the escaped text.
pub open spec fn spec_quoted(s: Seq<char>) -> Seq<char> {
    seq!['"'] + spec_escape(s) + seq!['"']
}

/// The serialized text of a JSON shape.
pub open spec fn spec_json_text(d: JsonData) -> Seq<char>
    decreases d,
{
    match d {
        JsonData::Null => "null"@,
        JsonData::Bool(b) => if b {
            "true"@
        } else {
            "false"@
        },
        JsonData::UInt(n) => spec_u64_digits(n as int),
        JsonData::Str(s) => spec_quoted(s),
        JsonData::Arr(items) => seq!['['] + spec_json_arr_items(items) + seq![']'],
        JsonData::Obj(members) => seq!['{'] + spec_json_obj_items(members) + seq!['}'],
    }
}

/// The comma-separated serialized elements of an array.
pub open spec fn spec_json_arr_items(items: Seq<JsonData>) -> Seq<char>
    decreases items,
{
    if items.len() == 0 {
        Seq::empty()
    } else if items.len() == 1 {
        spec_json_text(items[0])
    } else {
        spec_json_text(items[0]) + seq![','] + spec_json_arr_items(items.drop_first())
    }
}

/// The comma-separated serialized `"key":value` members of an object.
pub open spec fn spec_json_obj_items(members: Seq<(Seq<char>, JsonData)>) -> Seq<char>
    decreases members,
{
    if members.len() == 0 {
        Seq::empty()
    } else {
        let head = spec_quoted(members[0].0) + seq![':'] + spec_json_text(members[0].1);
        if members.len() == 1 {
            head
        } else {
            head + seq![','] + spec_json_obj_items(members.drop_first())
        }
    }
}

/// The digit character for `n` in `0..=9`.
fn digit_char(n: u64) -> (c: char)
    requires
        n <= 9,
    ensures
        c == spec_digit(n as int),
{
    (0x30u8 + (n as u8)) as char
}

/// The lower-case hex digit character for `n` in `0..=15`.
fn hex_digit_char(n: u32) -> (c: char)
    requires
        n <= 15,
    ensures
        c == spec_hex_digit(n as int),
{
    if n < 10 {
        (0x30u8 + (n as u8)) as char
    } else {
        (0x57u8 + (n as u8)) as char
    }
}

/// Append the decimal rendering of `n`.
fn push_u64(out: &mut String, n: u64)
    ensures
        final(out)@ == old(out)@ + spec_u64_digits(n as int),
    decreases n,
{
    if n < 10 {
        push_char(out, digit_char(n));
    } else {
        push_u64(out, n / 10);
        push_char(out, digit_char(n % 10));
    }
}

/// Append one character, escaped for a JSON string literal.
fn push_escaped_char(out: &mut String, c: char)
    ensures
        final(out)@ == old(out)@ + spec_escape_char(c),
{
    if c == '"' {
        push_char(out, '\\');
        push_char(out, '"');
    } else if c == '\\' {
        push_char(out, '\\');
        push_char(out, '\\');
    } else if c == '\n' {
        push_char(out, '\\');
        push_char(out, 'n');
    } else if c == '\r' {
        push_char(out, '\\');
        push_char(out, 'r');
    } else if c == '\t' {
        push_char(out, '\\');
        push_char(out, 't');
    } else if (c as u32) < 0x20 {
        push_char(out, '\\');
        push_char(out, 'u');
        push_char(out, '0');
        push_char(out, '0');
        push_char(out, hex_digit_char((c as u32) / 16));
        push_char(out, hex_digit_char((c as u32) % 16));
    } else {
        push_char(out, c);
    }
    proof {
        assert(final(out)@ =~= old(out)@ + spec_escape_char(c));
    }
}

proof fn lemma_escape_snoc(s: Seq<char>, i: int)
    requires
        0 <= i < s.len(),
    ensures
        spec_escape(s.take(i + 1)) == spec_escape(s.take(i)) + spec_escape_char(s[i]),
    decreases i,
{
    if i == 0 {
        assert(s.take(1) =~= seq![s[0]]);
        assert(s.take(1).drop_first() =~= Seq::<char>::empty());
        assert(s.take(0) =~= Seq::<char>::empty());
        assert(s.take(1)[0] == s[0]);
        assert(spec_escape(Seq::<char>::empty()) == Seq::<char>::empty());
        assert(spec_escape(s.take(1)) == spec_escape_char(s[0]) + Seq::<char>::empty());
        assert(spec_escape_char(s[0]) + Seq::<char>::empty() =~= spec_escape_char(s[0]));
        assert(Seq::<char>::empty() + spec_escape_char(s[0]) =~= spec_escape_char(s[0]));
    } else {
        lemma_escape_snoc(s.drop_first(), i - 1);
        assert(s.take(i + 1).drop_first() =~= s.drop_first().take(i));
        assert(s.take(i).drop_first() =~= s.drop_first().take(i - 1));
        assert(s.take(i + 1)[0] == s[0]);
        assert(s.take(i)[0] == s[0]);
        assert(spec_escape_char(s[0]) + (spec_escape(s.drop_first().take(i - 1))
            + spec_escape_char(s.drop_first()[i - 1])) =~= (spec_escape_char(s[0]) + spec_escape(
            s.drop_first().take(i - 1),
        )) + spec_escape_char(s[i]));
    }
}

/// Append a quoted, escaped JSON string literal.
fn push_quoted(out: &mut String, s: &str)
    ensures
        final(out)@ == old(out)@ + spec_quoted(s@),
{
    push_char(out, '"');
    let n: usize = s.unicode_len();
    proof {
        assert(s@.take(0) =~= Seq::<char>::empty());
    }
    let mut i: usize = 0;
    while i < n
        invariant
            0 <= i <= n,
            n == s@.len(),
            out@ == old(out)@ + seq!['"'] + spec_escape(s@.take(i as int)),
        decreases n - i,
    {
        let c = s.get_char(i);
        push_escaped_char(out, c);
        proof {
            lemma_escape_snoc(s@, i as int);
        }
        i = i + 1;
    }
    push_char(out, '"');
    proof {
        assert(s@.take(n as int) =~= s@);
        assert(final(out)@ =~= old(out)@ + spec_quoted(s@));
    }
}

/// The serialized first `i` elements of an array, with the comma that
/// follows each element that is not the last.
pub open spec fn spec_arr_items_prefix(items: Seq<JsonData>, i: int) -> Seq<char>
    recommends
        0 <= i <= items.len(),
    decreases i,
{
    if i <= 0 {
        Seq::empty()
    } else {
        spec_arr_items_prefix(items, i - 1) + spec_json_text(items[i - 1]) + (if i < items.len() {
            seq![',']
        } else {
            Seq::empty()
        })
    }
}

/// The serialized first `i` members of an object, with trailing commas as in
/// [`spec_arr_items_prefix`].
pub open spec fn spec_obj_items_prefix(members: Seq<(Seq<char>, JsonData)>, i: int) -> Seq<char>
    recommends
        0 <= i <= members.len(),
    decreases i,
{
    if i <= 0 {
        Seq::empty()
    } else {
        spec_obj_items_prefix(members, i - 1) + spec_quoted(members[i - 1].0) + seq![':']
            + spec_json_text(members[i - 1].1) + (if i < members.len() {
            seq![',']
        } else {
            Seq::empty()
        })
    }
}

proof fn lemma_arr_items_prefix_full(items: Seq<JsonData>)
    ensures
        spec_arr_items_prefix(items, items.len() as int) == spec_json_arr_items(items),
    decreases items.len(),
{
    let n = items.len() as int;
    if n == 0 {
        assert(spec_arr_items_prefix(items, 0) =~= spec_json_arr_items(items));
    } else if n == 1 {
        assert(spec_arr_items_prefix(items, 0) == Seq::<char>::empty());
        assert(spec_arr_items_prefix(items, 1) =~= spec_json_text(items[0]));
    } else {
        lemma_arr_items_prefix_full(items.drop_first());
        lemma_arr_items_prefix_shift(items, n);
        assert(spec_json_arr_items(items) == spec_json_text(items[0]) + seq![',']
            + spec_json_arr_items(items.drop_first()));
    }
}

/// Sliding the prefix across `drop_first` keeps the rendered text aligned.
proof fn lemma_arr_items_prefix_shift(items: Seq<JsonData>, i: int)
    requires
        items.len() >= 1,
        1 <= i <= items.len(),
    ensures
        spec_arr_items_prefix(items, i) == spec_json_text(items[0]) + (if items.len() > 1 {
            seq![',']
        } else {
            Seq::<char>::empty()
        }) + spec_arr_items_prefix(items.drop_first(), i - 1),
    decreases i,
{
    if i == 1 {
        assert(spec_arr_items_prefix(items, 0) == Seq::<char>::empty());
        assert(spec_arr_items_prefix(items.drop_first(), 0) =~= Seq::<char>::empty());
        assert(spec_arr_items_prefix(items, 1) =~= spec_json_text(items[0]) + (if items.len()
            > 1 {
            seq![',']
        } else {
            Seq::<char>::empty()
        }) + spec_arr_items_prefix(items.drop_first(), 0));
    } else {
        lemma_arr_items_prefix_shift(items, i - 1);
        assert(items.drop_first()[i - 2] == items[i - 1]);
        assert(items.drop_first().len() == items.len() - 1);
        assert(spec_arr_items_prefix(items, i) =~= spec_json_text(items[0]) + (if items.len()
            > 1 {
            seq![',']
        } else {
            Seq::<char>::empty()
        }) + spec_arr_items_prefix(items.drop_first(), i - 1));
    }
}

proof fn lemma_obj_items_prefix_full(members: Seq<(Seq<char>, JsonData)>)
    ensures
        spec_obj_items_prefix(members, members.len() as int) == spec_json_obj_items(members),
    decreases members.len(),
{
    let n = members.len() as int;
    if n == 0 {
        assert(spec_obj_items_prefix(members, 0) =~= spec_json_obj_items(members));
    } else if n == 1 {
        assert(spec_obj_items_prefix(members, 0) == Seq::<char>::empty());
        assert(spec_obj_items_prefix(members, 1) =~= spec_quoted(members[0].0) + seq![':']
            + spec_json_text(members[0].1));
    } else {
        lemma_obj_items_prefix_full(members.drop_first());
        lemma_obj_items_prefix_shift(members, n);
    }
}

proof fn lemma_obj_items_prefix_shift(members: Seq<(Seq<char>, JsonData)>, i: int)
    requires
        members.len() >= 1,
        1 <= i <= members.len(),
    ensures
        spec_obj_items_prefix(members, i) == spec_quoted(members[0].0) + seq![':']
            + spec_json_text(members[0].1) + (if members.len() > 1 {
            seq![',']
        } else {
            Seq::<char>::empty()
        }) + spec_obj_items_prefix(members.drop_first(), i - 1),
    decreases i,
{
    if i == 1 {
        assert(spec_obj_items_prefix(members, 0) == Seq::<char>::empty());
        assert(spec_obj_items_prefix(members.drop_first(), 0) =~= Seq::<char>::empty());
        assert(spec_obj_items_prefix(members, i) =~= spec_quoted(members[0].0) + seq![':']
            + spec_json_text(members[0].1) + (if members.len() > 1 {
            seq![',']
        } else {
            Seq::<char>::empty()
        }) + spec_obj_items_prefix(members.drop_first(), 0));
    } else {
        lemma_obj_items_prefix_shift(members, i - 1);
        assert(members.drop_first()[i - 2] == members[i - 1]);
        assert(spec_obj_items_prefix(members, i) =~= spec_quoted(members[0].0) + seq![':']
            + spec_json_text(members[0].1) + (if members.len() > 1 {
            seq![',']
        } else {
            Seq::<char>::empty()
        }) + spec_obj_items_prefix(members.drop_first(), i - 1));
    }
}

/// Append the serialized text of `v`.
fn write_json(v: &JsonValue, out: &mut String)
    ensures
        final(out)@ == old(out)@ + spec_json_text(view_of(*v)),
    decreases *v,
{
    match v {
        JsonValue::Null => {
            crate::chars::push_str(out, "null");
        },
        JsonValue::Bool(b) => {
            if *b {
                crate::chars::push_str(out, "true");
            } else {
                crate::chars::push_str(out, "false");
            }
        },
        JsonValue::UInt(n) => {
            push_u64(out, *n);
        },
        JsonValue::Str(s) => {
            push_quoted(out, s.as_str());
        },
        JsonValue::Arr(items) => {
            push_char(out, '[');
            let n: usize = items.len();
            let ghost shapes = view_of_list(items@);
            let ghost pre = out@;
            proof {
                assert(decreases_to!(*v => items@));
                lemma_view_of_list_props(items@);
            }
            let mut i: usize = 0;
            while i < n
                invariant
                    0 <= i <= n,
                    n == items@.len(),
                    shapes == view_of_list(items@),
                    shapes.len() == n,
                    forall|k: int| 0 <= k < n ==> shapes[k] == view_of(items@[k]),
                    out@ == pre + spec_arr_items_prefix(shapes, i as int),
                    decreases_to!(*v => items@),
                decreases n - i,
            {
                proof {
                    assert(decreases_to!(items@ => items@[i as int]));
                    assert(decreases_to!(*v => items@[i as int]));
                }
                write_json(&items[i], out);
                if i + 1 < n {
                    push_char(out, ',');
                }
                i = i + 1;
            }
            push_char(out, ']');
            proof {
                lemma_arr_items_prefix_full(shapes);
                assert(final(out)@ =~= old(out)@ + spec_json_text(view_of(*v)));
            }
        },
        JsonValue::Obj(members) => {
            push_char(out, '{');
            let n: usize = members.len();
            let ghost shapes = view_of_members(members@);
            let ghost pre = out@;
            proof {
                assert(decreases_to!(*v => members@));
                lemma_view_of_members_props(members@);
            }
            let mut i: usize = 0;
            while i < n
                invariant
                    0 <= i <= n,
                    n == members@.len(),
                    shapes == view_of_members(members@),
                    shapes.len() == n,
                    forall|k: int|
                        0 <= k < n ==> shapes[k] == (members@[k].0@, view_of(members@[k].1)),
                    out@ == pre + spec_obj_items_prefix(shapes, i as int),
                    decreases_to!(*v => members@),
                decreases n - i,
            {
                push_quoted(out, members[i].0.as_str());
                push_char(out, ':');
                proof {
                    assert(decreases_to!(members@ => members@[i as int]));
                    assert(decreases_to!(members@[i as int] => members@[i as int].1));
                    assert(decreases_to!(*v => members@[i as int].1));
                }
                write_json(&members[i].1, out);
                if i + 1 < n {
                    push_char(out, ',');
                }
                i = i + 1;
            }
            push_char(out, '}');
            proof {
                lemma_obj_items_prefix_full(shapes);
                assert(final(out)@ =~= old(out)@ + spec_json_text(view_of(*v)));
            }
        },
    }
}

/// Serialize a JSON value: the result is exactly the text of its shape.
pub fn json_to_string(v: &JsonValue) -> (r: String)
    ensures
        r@ == spec_json_text(view_of(*v)),
{
    let mut out = String::new();
    write_json(v, &mut out);
    out
}

} // verus!
