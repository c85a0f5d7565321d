//! Character-level string helpers shared by the transports.
//!
//! All logic here works over `Seq<char>` views.  The only trusted item is a
//! thin wrapper around `String::push`, which vstd does not specify.

use vstd::prelude::*;

verus! {

/// Relies on std's `String::push`: appends exactly one character at the end.
#[verifier::external_body]
pub(crate) fn push_char(s: &mut String, c: char)
    ensures
        final(s)@ == old(s)@.push(c),
{
    s.push(c)
}

/// Append `suffix` onto `s`.
pub fn push_str(s: &mut String, suffix: &str)
    ensures
        final(s)@ == old(s)@ + suffix@,
{
    s.append(suffix)
}

/// Character-for-character equality of two string slices.
pub fn str_eq(a: &str, b: &str) -> (r: bool)
    ensures
        r == (a@ == b@),
{
    let owned_a: String = a.to_owned();
    let owned_b: String = b.to_owned();
    owned_a == owned_b
}

/// The whitespace characters that [`trim`] strips: the ASCII whitespace set.
pub open spec fn is_wspace(c: char) -> bool {
    c == ' ' || c == '\t' || c == '\n' || c == '\r' || c == '\u{0c}'
}

/// `s` without leading whitespace.
pub open spec fn spec_trim_front(s: Seq<char>) -> Seq<char>
    decreases s.len(),
{
    if s.len() > 0 && is_wspace(s[0]) {
        spec_trim_front(s.drop_first())
    } else {
        s
    }
}

/// `s` without trailing whitespace.
pub open spec fn spec_trim_back(s: Seq<char>) -> Seq<char>
    decreases s.len(),
{
    if s.len() > 0 && is_wspace(s.last()) {
        spec_trim_back(s.drop_last())
    } else {
        s
    }
}

/// `s` without leading or trailing whitespace.
pub open spec fn spec_trim(s: Seq<char>) -> Seq<char> {
    spec_trim_back(spec_trim_front(s))
}

proof fn lemma_trim_front_skip(s: Seq<char>, i: int)
    requires
        0 <= i <= s.len(),
        forall|k: int| 0 <= k < i ==> is_wspace(s[k]),
        i < s.len() ==> !is_wspace(s[i]),
    ensures
        spec_trim_front(s) == s.skip(i),
    decreases i,
{
    if i == 0 {
        assert(s.skip(0) == s);
    } else {
        assert(is_wspace(s[0]));
        lemma_trim_front_skip(s.drop_first(), i - 1);
        assert(s.drop_first().skip(i - 1) =~= s.skip(i));
    }
}

proof fn lemma_trim_back_take(s: Seq<char>, j: int)
    requires
        0 <= j <= s.len(),
        forall|k: int| j <= k < s.len() ==> is_wspace(s[k]),
        j > 0 ==> !is_wspace(s[j - 1]),
    ensures
        spec_trim_back(s) == s.take(j),
    decreases s.len() - j,
{
    if j == s.len() {
        assert(s.take(j) == s);
    } else {
        assert(is_wspace(s.last()));
        lemma_trim_back_take(s.drop_last(), j);
        assert(s.drop_last().take(j) =~= s.take(j));
    }
}

/// `s` with leading and trailing whitespace removed.
pub fn trim(s: &str) -> (r: String)
    ensures
        r@ == spec_trim(s@),
{
    let n: usize = s.unicode_len();
    let mut i: usize = 0;
    while i < n && is_wspace_exec(s.get_char(i))
        invariant
            0 <= i <= n,
            n == s@.len(),
            forall|k: int| 0 <= k < i ==> is_wspace(s@[k]),
        decreases n - i,
    {
        i = i + 1;
    }
    proof {
        lemma_trim_front_skip(s@, i as int);
    }
    let mut j: usize = n;
    while j > i && is_wspace_exec(s.get_char(j - 1))
        invariant
            i <= j <= n,
            n == s@.len(),
            forall|k: int| 0 <= k < i ==> is_wspace(s@[k]),
            i < s@.len() ==> !is_wspace(s@[i as int]),
            forall|k: int| j <= k < n ==> is_wspace(s@[k]),
        decreases j,
    {
        j = j - 1;
    }
    proof {
        let front = s@.skip(i as int);
        lemma_trim_back_take(front, j - i);
        assert(front.take(j - i) =~= s@.subrange(i as int, j as int));
    }
    s.substring_char(i, j).to_owned()
}

/// Exec twin of [`is_wspace`].
#[verifier::when_used_as_spec(is_wspace)]
pub fn is_wspace_exec(c: char) -> (r: bool)
    ensures
        r == is_wspace(c),
{
    c == ' ' || c == '\t' || c == '\n' || c == '\r' || c == '\u{0c}'
}

/// Whether `p` is a prefix of `s`, character for character.
pub fn str_starts_with(s: &str, p: &str) -> (r: bool)
    ensures
        r == p@.is_prefix_of(s@),
{
    let np: usize = p.unicode_len();
    let ns: usize = s.unicode_len();
    if np > ns {
        assert(!p@.is_prefix_of(s@));
        return false;
    }
    let mut i: usize = 0;
    while i < np
        invariant
            0 <= i <= np <= ns,
            np == p@.len(),
            ns == s@.len(),
            forall|k: int| 0 <= k < i ==> s@[k] == p@[k],
        decreases np - i,
    {
        if s.get_char(i) != p.get_char(i) {
            assert(s@.subrange(0, np as int)[i as int] != p@[i as int]);
            assert(!p@.is_prefix_of(s@));
            return false;
        }
        i = i + 1;
    }
    proof {
        assert(s@.subrange(0, np as int) =~= p@);
    }
    true
}

/// `s` without trailing `'/'` characters.
pub open spec fn spec_trim_slashes(s: Seq<char>) -> Seq<char>
    decreases s.len(),
{
    if s.len() > 0 && s.last() == '/' {
        spec_trim_slashes(s.drop_last())
    } else {
        s
    }
}

proof fn lemma_trim_slashes_take(s: Seq<char>, j: int)
    requires
        0 <= j <= s.len(),
        forall|k: int| j <= k < s.len() ==> s[k] == '/',
        j > 0 ==> s[j - 1] != '/',
    ensures
        spec_trim_slashes(s) == s.take(j),
    decreases s.len() - j,
{
    if j == s.len() {
        assert(s.take(j) == s);
    } else {
        assert(s.last() == '/');
        lemma_trim_slashes_take(s.drop_last(), j);
        assert(s.drop_last().take(j) =~= s.take(j));
    }
}

/// `s` with every trailing `'/'` removed.
pub fn trim_trailing_slashes(s: &str) -> (r: String)
    ensures
        r@ == spec_trim_slashes(s@),
{
    let n: usize = s.unicode_len();
    let mut j: usize = n;
    while j > 0 && s.get_char(j - 1) == '/'
        invariant
            0 <= j <= n,
            n == s@.len(),
            forall|k: int| j <= k < n ==> s@[k] == '/',
        decreases j,
    {
        j = j - 1;
    }
    proof {
        lemma_trim_slashes_take(s@, j as int);
        assert(s@.take(j as int) =~= s@.subrange(0, j as int));
    }
    s.substring_char(0, j).to_owned()
}

/// The primary language subtag: everything before the first `'-'`.
///
/// `"zh-Hans"` reduces to `"zh"`; a code without a subtag is unchanged.
pub open spec fn spec_primary(s: Seq<char>) -> Seq<char>
    decreases s.len(),
{
    if s.len() == 0 {
        s
    } else if s[0] == '-' {
        Seq::empty()
    } else {
        seq![s[0]] + spec_primary(s.drop_first())
    }
}

proof fn lemma_primary_take(s: Seq<char>, i: int)
    requires
        0 <= i <= s.len(),
        forall|k: int| 0 <= k < i ==> s[k] != '-',
        i < s.len() ==> s[i] == '-',
    ensures
        spec_primary(s) == s.take(i),
    decreases i,
{
    if s.len() == 0 {
        assert(s.take(i) =~= s);
    } else if i == 0 {
        assert(s.take(0) =~= Seq::<char>::empty());
    } else {
        lemma_primary_take(s.drop_first(), i - 1);
        assert(seq![s[0]] + s.drop_first().take(i - 1) =~= s.take(i));
    }
}

/// A reduced language code never carries a region subtag: no character of
/// the primary subtag is the `'-'` separator.
pub proof fn lemma_primary_no_subtag(s: Seq<char>)
    ensures
        forall|k: int| 0 <= k < spec_primary(s).len() ==> spec_primary(s)[k] != '-',
    decreases s.len(),
{
    if s.len() == 0 {
    } else if s[0] == '-' {
    } else {
        lemma_primary_no_subtag(s.drop_first());
        assert forall|k: int| 0 <= k < spec_primary(s).len() implies spec_primary(s)[k]
            != '-' by {
            if k > 0 {
                assert(spec_primary(s)[k] == spec_primary(s.drop_first())[k - 1]);
            }
        }
    }
}

/// The language code reduced to its primary subtag.
pub fn primary_subtag(s: &str) -> (r: String)
    ensures
        r@ == spec_primary(s@),
{
    let n: usize = s.unicode_len();
    let mut i: usize = 0;
    while i < n && s.get_char(i) != '-'
        invariant
            0 <= i <= n,
            n == s@.len(),
            forall|k: int| 0 <= k < i ==> s@[k] != '-',
        decreases n - i,
    {
        i = i + 1;
    }
    proof {
        lemma_primary_take(s@, i as int);
        assert(s@.take(i as int) =~= s@.subrange(0, i as int));
    }
    s.substring_char(0, i).to_owned()
}

} // verus!
