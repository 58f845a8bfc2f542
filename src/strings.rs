//! Character classes and the trimming, matching and case helpers built on them.

use vstd::prelude::*;
use vstd::string::*;

verus! {

/// Sets of characters that trimming and matching work with.
#[derive(Clone, Copy, PartialEq, Eq, Debug)]
pub enum CharClass {
    /// Unicode `White_Space`, as `char::is_whitespace` defines it.
    Whitespace,
    /// The hyphen `-`.
    Hyphen,
    /// The forward slash `/`.
    Slash,
    /// Either `/` or `\`.
    AnySlash,
}

/// The characters with the Unicode `White_Space` property.
pub open spec fn is_space(c: char) -> bool {
    c == ' ' || ('\t' <= c && c <= '\r') || c == '\u{85}' || c == '\u{A0}' || c == '\u{1680}'
        || ('\u{2000}' <= c && c <= '\u{200A}') || c == '\u{2028}' || c == '\u{2029}'
        || c == '\u{202F}' || c == '\u{205F}' || c == '\u{3000}'
}

pub open spec fn in_class(cls: CharClass, c: char) -> bool {
    match cls {
        CharClass::Whitespace => is_space(c),
        CharClass::Hyphen => c == '-',
        CharClass::Slash => c == '/',
        CharClass::AnySlash => c == '/' || c == '\\',
    }
}

pub fn class_contains(cls: CharClass, c: char) -> (r: bool)
    ensures
        r == in_class(cls, c),
{
    match cls {
        CharClass::Whitespace => {
            c == ' ' || ('\t' <= c && c <= '\r') || c == '\u{85}' || c == '\u{A0}' || c
                == '\u{1680}' || ('\u{2000}' <= c && c <= '\u{200A}') || c == '\u{2028}' || c
                == '\u{2029}' || c == '\u{202F}' || c == '\u{205F}' || c == '\u{3000}'
        },
        CharClass::Hyphen => c == '-',
        CharClass::Slash => c == '/',
        CharClass::AnySlash => c == '/' || c == '\\',
    }
}

/// Length of the leading run of class characters.
pub open spec fn lead_len(s: Seq<char>, cls: CharClass) -> nat
    decreases s.len(),
{
    if s.len() > 0 && in_class(cls, s[0]) {
        1 + lead_len(s.drop_first(), cls)
    } else {
        0
    }
}

/// Length of the trailing run of class characters.
pub open spec fn trail_len(s: Seq<char>, cls: CharClass) -> nat
    decreases s.len(),
{
    if s.len() > 0 && in_class(cls, s.last()) {
        1 + trail_len(s.drop_last(), cls)
    } else {
        0
    }
}

pub open spec fn trim_start_spec(s: Seq<char>, cls: CharClass) -> Seq<char> {
    s.subrange(lead_len(s, cls) as int, s.len() as int)
}

pub open spec fn trim_end_spec(s: Seq<char>, cls: CharClass) -> Seq<char> {
    s.subrange(0, s.len() - trail_len(s, cls))
}

/// Both ends trimmed, as `str::trim_matches` does.
pub open spec fn trim_spec(s: Seq<char>, cls: CharClass) -> Seq<char> {
    trim_end_spec(trim_start_spec(s, cls), cls)
}

pub proof fn lemma_lead_len(s: Seq<char>, cls: CharClass, n: nat)
    requires
        n <= s.len(),
        forall|i: int| 0 <= i < n ==> in_class(cls, #[trigger] s[i]),
        n == s.len() || !in_class(cls, s[n as int]),
    ensures
        lead_len(s, cls) == n,
    decreases n,
{
    if n > 0 {
        let t = s.drop_first();
        assert forall|i: int| 0 <= i < n - 1 implies in_class(cls, #[trigger] t[i]) by {
            assert(t[i] == s[i + 1]);
        }
        if n < s.len() {
            assert(t[n - 1] == s[n as int]);
        }
        lemma_lead_len(t, cls, (n - 1) as nat);
    }
}

pub proof fn lemma_trail_len(s: Seq<char>, cls: CharClass, n: nat)
    requires
        n <= s.len(),
        forall|i: int| s.len() - n <= i < s.len() ==> in_class(cls, #[trigger] s[i]),
        n == s.len() || !in_class(cls, s[s.len() - n - 1]),
    ensures
        trail_len(s, cls) == n,
    decreases n,
{
    if n > 0 {
        let t = s.drop_last();
        assert forall|i: int| t.len() - (n - 1) <= i < t.len() implies in_class(
            cls,
            #[trigger] t[i],
        ) by {
            assert(t[i] == s[i]);
        }
        if n < s.len() {
            assert(t[t.len() - (n - 1) - 1] == s[s.len() - n - 1]);
        }
        lemma_trail_len(t, cls, (n - 1) as nat);
    }
}

/// The leading run is made of class characters and is maximal.
pub proof fn lemma_lead_len_shape(s: Seq<char>, cls: CharClass)
    ensures
        lead_len(s, cls) <= s.len(),
        forall|i: int| 0 <= i < lead_len(s, cls) ==> in_class(cls, #[trigger] s[i]),
        lead_len(s, cls) < s.len() ==> !in_class(cls, s[lead_len(s, cls) as int]),
    decreases s.len(),
{
    if s.len() > 0 && in_class(cls, s[0]) {
        let t = s.drop_first();
        lemma_lead_len_shape(t, cls);
        assert forall|i: int| 0 <= i < lead_len(s, cls) implies in_class(cls, #[trigger] s[i]) by {
            if i > 0 {
                assert(s[i] == t[i - 1]);
            }
        }
        if lead_len(s, cls) < s.len() {
            assert(s[lead_len(s, cls) as int] == t[lead_len(t, cls) as int]);
        }
    }
}

/// The trailing run is made of class characters and is maximal.
pub proof fn lemma_trail_len_shape(s: Seq<char>, cls: CharClass)
    ensures
        trail_len(s, cls) <= s.len(),
        forall|i: int|
            s.len() - trail_len(s, cls) <= i < s.len() ==> in_class(cls, #[trigger] s[i]),
        trail_len(s, cls) < s.len() ==> !in_class(cls, s[s.len() - trail_len(s, cls) - 1]),
    decreases s.len(),
{
    if s.len() > 0 && in_class(cls, s.last()) {
        let t = s.drop_last();
        lemma_trail_len_shape(t, cls);
        assert forall|i: int|
            s.len() - trail_len(s, cls) <= i < s.len() implies in_class(cls, #[trigger] s[i]) by {
            if i < s.len() - 1 {
                assert(s[i] == t[i]);
            }
        }
        if trail_len(s, cls) < s.len() {
            assert(s[s.len() - trail_len(s, cls) - 1] == t[t.len() - trail_len(t, cls) - 1]);
        }
    }
}

/// A trimmed text neither starts nor ends with a class character.
pub proof fn lemma_trim_ends(s: Seq<char>, cls: CharClass)
    ensures
        trim_start_spec(s, cls).len() > 0 ==> !in_class(cls, trim_start_spec(s, cls)[0]),
        trim_end_spec(s, cls).len() > 0 ==> !in_class(cls, trim_end_spec(s, cls).last()),
        trim_spec(s, cls).len() > 0 ==> !in_class(cls, trim_spec(s, cls)[0]),
        trim_spec(s, cls).len() > 0 ==> !in_class(cls, trim_spec(s, cls).last()),
{
    lemma_lead_len_shape(s, cls);
    lemma_trail_len_shape(s, cls);
    let t = trim_start_spec(s, cls);
    lemma_trail_len_shape(t, cls);
    lemma_lead_len_shape(t, cls);
}

/// Number of leading characters of `s` in `cls`.
pub fn count_leading(s: &str, cls: CharClass) -> (n: usize)
    ensures
        n == lead_len(s@, cls),
{
    let len = s.unicode_len();
    let mut n: usize = 0;
    while n < len && class_contains(cls, s.get_char(n))
        invariant
            len == s@.len(),
            n <= len,
            forall|i: int| 0 <= i < n ==> in_class(cls, #[trigger] s@[i]),
        decreases len - n,
    {
        n = n + 1;
    }
    proof {
        lemma_lead_len(s@, cls, n as nat);
    }
    n
}

/// Number of trailing characters of `s` in `cls`.
pub fn count_trailing(s: &str, cls: CharClass) -> (n: usize)
    ensures
        n == trail_len(s@, cls),
{
    let len = s.unicode_len();
    let mut n: usize = 0;
    while n < len && class_contains(cls, s.get_char(len - n - 1))
        invariant
            len == s@.len(),
            n <= len,
            forall|i: int| len - n <= i < len ==> in_class(cls, #[trigger] s@[i]),
        decreases len - n,
    {
        n = n + 1;
    }
    proof {
        lemma_trail_len(s@, cls, n as nat);
    }
    n
}

/// `s` without its leading class characters.
pub fn trim_start_class(s: &str, cls: CharClass) -> (r: String)
    ensures
        r@ == trim_start_spec(s@, cls),
{
    let n = count_leading(s, cls);
    proof {
        lemma_lead_len_shape(s@, cls);
    }
    let len = s.unicode_len();
    String::from_str(s.substring_char(n, len))
}

/// `s` without its trailing class characters.
pub fn trim_end_class(s: &str, cls: CharClass) -> (r: String)
    ensures
        r@ == trim_end_spec(s@, cls),
{
    let n = count_trailing(s, cls);
    proof {
        lemma_trail_len_shape(s@, cls);
    }
    let len = s.unicode_len();
    String::from_str(s.substring_char(0, len - n))
}

/// `s` without class characters at either end.
pub fn trim_class(s: &str, cls: CharClass) -> (r: String)
    ensures
        r@ == trim_spec(s@, cls),
{
    let front = trim_start_class(s, cls);
    trim_end_class(front.as_str(), cls)
}

/// `s` without surrounding whitespace, as `str::trim` gives it.
pub fn trim_ws(s: &str) -> (r: String)
    ensures
        r@ == trim_spec(s@, CharClass::Whitespace),
{
    trim_class(s, CharClass::Whitespace)
}

/// Whether `p` is a prefix of `s`.
pub fn starts_with(s: &str, p: &str) -> (r: bool)
    ensures
        r == (p@.len() <= s@.len() && s@.subrange(0, p@.len() as int) == p@),
{
    let sl = s.unicode_len();
    let pl = p.unicode_len();
    if pl > sl {
        return false;
    }
    let mut i: usize = 0;
    while i < pl
        invariant
            sl == s@.len(),
            pl == p@.len(),
            pl <= sl,
            i <= pl,
            forall|j: int| 0 <= j < i ==> s@[j] == p@[j],
        decreases pl - i,
    {
        if s.get_char(i) != p.get_char(i) {
            assert(s@.subrange(0, pl as int)[i as int] != p@[i as int]);
            return false;
        }
        i = i + 1;
    }
    assert(s@.subrange(0, pl as int) =~= p@);
    true
}

/// Whether two texts are equal.
pub fn same_text(a: &str, b: &str) -> (r: bool)
    ensures
        r == (a@ == b@),
{
    let al = a.unicode_len();
    let bl = b.unicode_len();
    if al != bl {
        return false;
    }
    let eq = starts_with(a, b);
    proof {
        if eq {
            assert(a@ =~= a@.subrange(0, al as int));
        } else {
            assert(a@.subrange(0, al as int) =~= a@);
        }
    }
    eq
}

/// Whether `s` ends with the character `c`.
pub fn ends_with_char(s: &str, c: char) -> (r: bool)
    ensures
        r == (s@.len() > 0 && s@.last() == c),
{
    let len = s.unicode_len();
    len > 0 && s.get_char(len - 1) == c
}

/// Each character `from` replaced by the text `to`.
pub open spec fn replace_char_spec(s: Seq<char>, from: char, to: Seq<char>) -> Seq<char>
    decreases s.len(),
{
    if s.len() == 0 {
        s
    } else {
        let rest = replace_char_spec(s.drop_last(), from, to);
        if s.last() == from {
            rest + to
        } else {
            rest.push(s.last())
        }
    }
}

/// `s` with each `from` replaced by `to`, as `str::replace` with a `char` pattern gives it.
pub fn replace_char(s: &str, from: char, to: &str) -> (r: String)
    ensures
        r@ == replace_char_spec(s@, from, to@),
{
    let len = s.unicode_len();
    let mut out = String::new();
    let mut i: usize = 0;
    while i < len
        invariant
            len == s@.len(),
            i <= len,
            out@ == replace_char_spec(s@.subrange(0, i as int), from, to@),
        decreases len - i,
    {
        let c = s.get_char(i);
        if c == from {
            out.append(to);
        } else {
            out.append(s.substring_char(i, i + 1));
        }
        proof {
            let next = s@.subrange(0, i + 1);
            assert(next.drop_last() =~= s@.subrange(0, i as int));
            assert(s@.subrange(i as int, i + 1) =~= seq![c]);
        }
        i = i + 1;
    }
    assert(s@.subrange(0, len as int) =~= s@);
    out
}

pub open spec fn is_ascii_char(c: char) -> bool {
    (c as u32) < 128
}

pub open spec fn is_ascii_text(s: Seq<char>) -> bool {
    forall|i: int| 0 <= i < s.len() ==> is_ascii_char(#[trigger] s[i])
}

pub open spec fn ascii_lower_char(c: char) -> char {
    if 'A' <= c && c <= 'Z' {
        ((c as u32) + 32) as char
    } else {
        c
    }
}

pub open spec fn ascii_upper_char(c: char) -> char {
    if 'a' <= c && c <= 'z' {
        ((c as u32) - 32) as char
    } else {
        c
    }
}

pub open spec fn ascii_lower(s: Seq<char>) -> Seq<char> {
    s.map_values(|c: char| ascii_lower_char(c))
}

pub open spec fn ascii_upper(s: Seq<char>) -> Seq<char> {
    s.map_values(|c: char| ascii_upper_char(c))
}

/// What `str::to_lowercase` returns: Unicode case mapping.
pub uninterp spec fn lower_of(s: Seq<char>) -> Seq<char>;

/// What `str::to_uppercase` returns: Unicode case mapping.
pub uninterp spec fn upper_of(s: Seq<char>) -> Seq<char>;

/// Relies on `str::to_lowercase`: the result depends on the characters alone, and on
/// ASCII text it maps `A`-`Z` to `a`-`z` and keeps every other character.
#[verifier::external_body]
pub(crate) fn to_lowercase(s: &str) -> (r: String)
    ensures
        r@ == lower_of(s@),
        is_ascii_text(s@) ==> r@ == ascii_lower(s@),
{
    s.to_lowercase()
}

/// Relies on `str::to_uppercase`: the result depends on the characters alone, and on
/// ASCII text it maps `a`-`z` to `A`-`Z` and keeps every other character.
#[verifier::external_body]
pub(crate) fn to_uppercase(s: &str) -> (r: String)
    ensures
        r@ == upper_of(s@),
        is_ascii_text(s@) ==> r@ == ascii_upper(s@),
{
    s.to_uppercase()
}

} // verus!
