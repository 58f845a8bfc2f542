//! Pure, deterministic derivation of branch names, worktree directory names,
//! repository slugs and environment-variable prefixes.

use vstd::prelude::*;
use vstd::string::*;
use crate::ids::{hex_char, hex_digits, lemma_hex_digits_len, short_form, short_uuid, simple_form};
use crate::models::ProjectRepository;
use crate::strings::{
    ascii_lower, ascii_upper, ascii_upper_char, is_ascii_char, is_ascii_text, lemma_lead_len, lemma_lead_len_shape, lemma_trail_len,
    lemma_trail_len_shape, lemma_trim_ends, in_class, is_space, lead_len, lower_of, replace_char, replace_char_spec,
    to_lowercase, to_uppercase, trail_len, trim_class, trim_end_class, trim_end_spec, trim_spec,
    trim_start_spec, trim_ws, upper_of, CharClass,
};

verus! {

/// Characters that survive slugging: `a`-`z` and `0`-`9`.
pub open spec fn is_slug_char(c: char) -> bool {
    ('a' <= c && c <= 'z') || ('0' <= c && c <= '9')
}

/// Each maximal run of characters outside `a-z0-9` replaced by a single `-`.
pub open spec fn hyphenate(s: Seq<char>) -> Seq<char>
    decreases s.len(),
{
    if s.len() == 0 {
        s
    } else {
        let p = s.drop_last();
        if is_slug_char(s.last()) {
            hyphenate(p).push(s.last())
        } else if p.len() > 0 && !is_slug_char(p.last()) {
            hyphenate(p)
        } else {
            hyphenate(p).push('-')
        }
    }
}

/// At most the first 16 characters.
pub open spec fn take16(s: Seq<char>) -> Seq<char> {
    if s.len() <= 16 {
        s
    } else {
        s.subrange(0, 16)
    }
}

/// The slug of an already lowercased text.
pub open spec fn slug_of(lowered: Seq<char>) -> Seq<char> {
    trim_end_spec(take16(trim_spec(hyphenate(lowered), CharClass::Hyphen)), CharClass::Hyphen)
}

/// Text made of slug characters and single hyphens between them.
pub open spec fn slug_chars_only(s: Seq<char>) -> bool {
    &&& forall|i: int| 0 <= i < s.len() ==> is_slug_char(#[trigger] s[i]) || s[i] == '-'
    &&& forall|i: int| 0 <= i < s.len() - 1 ==> !(#[trigger] s[i] == '-' && s[i + 1] == '-')
}

/// The form `^[a-z0-9]+(-[a-z0-9]+)*$`.
pub open spec fn is_canonical_slug(s: Seq<char>) -> bool {
    &&& s.len() > 0
    &&& slug_chars_only(s)
    &&& s[0] != '-'
    &&& s.last() != '-'
}

/// Relies on regex's `Regex::replace_all` with the pattern `[^a-z0-9]+` and the
/// replacement `-`: each leftmost, greedy (so maximal) run of characters outside
/// `a-z0-9` is replaced by one `-`; other characters are kept in order.
#[verifier::external_body]
fn hyphenate_runs(s: &str) -> (r: String)
    ensures
        r@ == hyphenate(s@),
{
    regex::Regex::new(r"[^a-z0-9]+").unwrap().replace_all(s, "-").into_owned()
}

proof fn lemma_hyphenate_shape(s: Seq<char>)
    ensures
        slug_chars_only(hyphenate(s)),
        hyphenate(s).len() > 0 ==> (hyphenate(s).last() == '-' <==> !is_slug_char(s.last())),
        hyphenate(s).len() == 0 <==> s.len() == 0,
    decreases s.len(),
{
    if s.len() > 0 {
        let p = s.drop_last();
        lemma_hyphenate_shape(p);
        let h = hyphenate(p);
        if is_slug_char(s.last()) {
            let r = h.push(s.last());
            assert forall|i: int| 0 <= i < r.len() - 1 implies !(#[trigger] r[i] == '-' && r[i
                + 1] == '-') by {
                if i < h.len() - 1 {
                    assert(r[i] == h[i] && r[i + 1] == h[i + 1]);
                }
            }
        } else if p.len() > 0 && !is_slug_char(p.last()) {
        } else {
            let r = h.push('-');
            assert forall|i: int| 0 <= i < r.len() - 1 implies !(#[trigger] r[i] == '-' && r[i
                + 1] == '-') by {
                if i < h.len() - 1 {
                    assert(r[i] == h[i] && r[i + 1] == h[i + 1]);
                }
            }
        }
    }
}

proof fn lemma_hyphenate_fixed(s: Seq<char>)
    requires
        slug_chars_only(s),
    ensures
        hyphenate(s) == s,
    decreases s.len(),
{
    if s.len() > 0 {
        let p = s.drop_last();
        assert(slug_chars_only(p)) by {
            assert forall|i: int| 0 <= i < p.len() - 1 implies !(#[trigger] p[i] == '-' && p[i
                + 1] == '-') by {
                assert(p[i] == s[i] && p[i + 1] == s[i + 1]);
            }
            assert forall|i: int| 0 <= i < p.len() implies is_slug_char(#[trigger] p[i]) || p[i]
                == '-' by {
                assert(p[i] == s[i]);
            }
        }
        lemma_hyphenate_fixed(p);
        if !is_slug_char(s.last()) && p.len() > 0 {
            assert(s[s.len() - 2] == p.last());
        }
        assert(p.push(s.last()) =~= s);
    }
}

proof fn lemma_slug_chars_sub(s: Seq<char>, a: int, b: int)
    requires
        slug_chars_only(s),
        0 <= a <= b <= s.len(),
    ensures
        slug_chars_only(s.subrange(a, b)),
{
    let t = s.subrange(a, b);
    assert forall|i: int| 0 <= i < t.len() - 1 implies !(#[trigger] t[i] == '-' && t[i + 1]
        == '-') by {
        assert(t[i] == s[a + i] && t[i + 1] == s[a + i + 1]);
    }
    assert forall|i: int| 0 <= i < t.len() implies is_slug_char(#[trigger] t[i]) || t[i]
        == '-' by {
        assert(t[i] == s[a + i]);
    }
}

/// Every slug is empty or has the form `^[a-z0-9]+(-[a-z0-9]+)*$`, and has at most 16
/// characters.
pub proof fn lemma_slug_shape(lowered: Seq<char>)
    ensures
        slug_of(lowered).len() <= 16,
        slug_of(lowered).len() == 0 || is_canonical_slug(slug_of(lowered)),
{
    let h = hyphenate(lowered);
    lemma_hyphenate_shape(lowered);
    let cls = CharClass::Hyphen;
    lemma_trim_ends(h, cls);
    lemma_lead_len_shape(h, cls);
    let ts = trim_start_spec(h, cls);
    lemma_trail_len_shape(ts, cls);
    lemma_slug_chars_sub(h, lead_len(h, cls) as int, h.len() as int);
    let t = trim_spec(h, cls);
    lemma_slug_chars_sub(ts, 0, ts.len() - trail_len(ts, cls));
    let k = take16(t);
    if t.len() > 16 {
        lemma_slug_chars_sub(t, 0, 16);
    }
    lemma_trim_ends(k, cls);
    lemma_trail_len_shape(k, cls);
    lemma_slug_chars_sub(k, 0, k.len() - trail_len(k, cls));
    let r = slug_of(lowered);
    if r.len() > 0 {
        assert(r[0] == k[0]);
        assert(k[0] == t[0]);
    }
}

/// A text already in canonical form of at most 16 characters is its own slug.
pub proof fn lemma_slug_canonical_fixed(s: Seq<char>)
    requires
        is_canonical_slug(s),
        s.len() <= 16,
    ensures
        slug_of(s) == s,
{
    lemma_hyphenate_fixed(s);
    let cls = CharClass::Hyphen;
    lemma_lead_len(s, cls, 0);
    assert(trim_start_spec(s, cls) =~= s);
    lemma_trail_len(s, cls, 0);
    assert(trim_end_spec(s, cls) =~= s);
}

/// Canonical text is its own ASCII lowercase form.
pub proof fn lemma_canonical_is_lowercase(s: Seq<char>)
    requires
        is_canonical_slug(s),
    ensures
        is_ascii_text(s),
        ascii_lower(s) == s,
{
    assert(ascii_lower(s) =~= s);
}

/// Slugging is idempotent: the slug of a slug is itself.
pub proof fn lemma_slug_idempotent(lowered: Seq<char>)
    ensures
        slug_of(slug_of(lowered)) == slug_of(lowered),
        ascii_lower(slug_of(lowered)) == slug_of(lowered),
{
    lemma_slug_shape(lowered);
    let r = slug_of(lowered);
    if r.len() > 0 {
        lemma_slug_canonical_fixed(r);
        lemma_canonical_is_lowercase(r);
    } else {
        assert(hyphenate(r) == r);
        lemma_lead_len(r, CharClass::Hyphen, 0);
        lemma_trail_len(r, CharClass::Hyphen, 0);
        assert(ascii_lower(r) =~= r);
    }
}

/// The branch-safe identifier of a text: lowercase, runs of other characters as `-`,
/// hyphens trimmed, cut to 16 characters, trailing hyphens trimmed again.
pub fn git_branch_id(input: &str) -> (r: String)
    ensures
        r@ == slug_of(lower_of(input@)),
        is_ascii_text(input@) ==> r@ == slug_of(ascii_lower(input@)),
{
    let lower = to_lowercase(input);
    let slug = hyphenate_runs(lower.as_str());
    let trimmed = trim_class(slug.as_str(), CharClass::Hyphen);
    let len = trimmed.as_str().unicode_len();
    let cut_len: usize = if len <= 16 { len } else { 16 };
    let cut = trimmed.as_str().substring_char(0, cut_len);
    proof {
        assert(cut@ == take16(trimmed@));
    }
    trim_end_class(cut, CharClass::Hyphen)
}

/// Branch prefix as configured: trimmed; empty stays empty; a prefix that does not
/// already end in `/`, `-` or `_` gets a `/`.
pub open spec fn normalized_prefix(prefix: Seq<char>) -> Seq<char> {
    let t = trim_spec(prefix, CharClass::Whitespace);
    if t.len() == 0 {
        t
    } else if t.last() == '/' || t.last() == '-' || t.last() == '_' {
        t
    } else {
        t.push('/')
    }
}

/// `short-slug` for an attempt and its task title.
pub open spec fn dir_name_spec(attempt_id: u128, title_slug: Seq<char>) -> Seq<char> {
    short_form(attempt_id) + seq!['-'] + title_slug
}

pub open spec fn branch_name_spec(prefix: Seq<char>, attempt_id: u128, title_slug: Seq<char>) -> Seq<
    char,
> {
    normalized_prefix(prefix) + dir_name_spec(attempt_id, title_slug)
}

/// A git branch name: the normalized prefix, then the short attempt id, `-`, and the
/// slug of the task title.
pub fn git_branch_name_with_prefix(branch_prefix: &str, attempt_id: u128, task_title: &str) -> (r:
    String)
    ensures
        r@ == branch_name_spec(branch_prefix@, attempt_id, slug_of(lower_of(task_title@))),
        is_ascii_text(task_title@) ==> r@ == branch_name_spec(
            branch_prefix@,
            attempt_id,
            slug_of(ascii_lower(task_title@)),
        ),
{
    let trimmed = trim_ws(branch_prefix);
    let mut out = String::new();
    let tl = trimmed.as_str().unicode_len();
    if tl > 0 {
        out.append(trimmed.as_str());
        let last = trimmed.as_str().get_char(tl - 1);
        if !(last == '/' || last == '-' || last == '_') {
            out.append("/");
            proof {
                reveal_strlit("/");
            }
        }
    }
    assert(out@ == normalized_prefix(branch_prefix@));
    let dir = dir_name_from_task_attempt(attempt_id, task_title);
    out.append(dir.as_str());
    out
}

/// The worktree directory name of an attempt: short id, `-`, slug of the task title.
pub fn dir_name_from_task_attempt(attempt_id: u128, task_title: &str) -> (r: String)
    ensures
        r@ == dir_name_spec(attempt_id, slug_of(lower_of(task_title@))),
        is_ascii_text(task_title@) ==> r@ == dir_name_spec(
            attempt_id,
            slug_of(ascii_lower(task_title@)),
        ),
{
    let slug = git_branch_id(task_title);
    let mut out = short_uuid(attempt_id);
    out.append("-");
    proof {
        reveal_strlit("-");
    }
    out.append(slug.as_str());
    out
}

/// Slug of a repository: `slug(name)-short(id)`, or `repo-short(id)` when the name has
/// no slug.
pub open spec fn repo_slug_spec(name_slug: Seq<char>, id: u128) -> Seq<char> {
    if name_slug.len() == 0 {
        seq!['r', 'e', 'p', 'o', '-'] + short_form(id)
    } else {
        name_slug + seq!['-'] + short_form(id)
    }
}

/// The slug that names a repository's secondary worktree and its environment prefix.
pub fn repo_slug(name: &str, id: u128) -> (r: String)
    ensures
        r@ == repo_slug_spec(slug_of(lower_of(name@)), id),
{
    let base = git_branch_id(name);
    let suffix = short_uuid(id);
    let mut out = String::new();
    if base.as_str().unicode_len() == 0 {
        out.append("repo-");
        proof {
            reveal_strlit("repo-");
        }
    } else {
        out.append(base.as_str());
        out.append("-");
        proof {
            reveal_strlit("-");
        }
    }
    out.append(suffix.as_str());
    out
}

/// Environment prefix of a slug: `-` becomes `_`, then uppercase; empty gives `REPO`.
pub open spec fn env_prefix_spec(slug: Seq<char>) -> Seq<char> {
    if slug.len() == 0 {
        seq!['R', 'E', 'P', 'O']
    } else {
        upper_of(replace_char_spec(slug, '-', seq!['_']))
    }
}

/// The `VIBE_REPO_<PREFIX>_*` prefix of a repository slug.
pub fn env_prefix_of_slug(slug: &str) -> (r: String)
    ensures
        r@ == env_prefix_spec(slug@),
        slug@.len() > 0 && is_ascii_text(slug@) ==> r@ == ascii_env_prefix(slug@),
{
    if slug.unicode_len() == 0 {
        let r = String::from_str("REPO");
        proof {
            reveal_strlit("REPO");
            assert(r@ =~= seq!['R', 'E', 'P', 'O']);
        }
        return r;
    }
    let replaced = replace_char(slug, '-', "_");
    proof {
        reveal_strlit("_");
        assert("_"@ =~= seq!['_']);
        if is_ascii_text(slug@) {
            lemma_replace_ascii(slug@, '-', seq!['_']);
        }
    }
    to_uppercase(replaced.as_str())
}

/// The `VIBE_REPO_<PREFIX>_*` prefix of a repository: its slug with `-` as `_`, uppercase.
pub fn repo_env_prefix(repo: &ProjectRepository) -> (r: String)
    ensures
        r@ == ascii_env_prefix(repo_slug_spec(slug_of(lower_of(repo.name@)), repo.id)),
        is_env_prefix(r@),
{
    let slug = repo_slug(repo.name.as_str(), repo.id);
    proof {
        lemma_slug_shape(lower_of(repo.name@));
        lemma_repo_slug_shape(slug_of(lower_of(repo.name@)), repo.id);
    }
    env_prefix_of_slug(slug.as_str())
}

/// The prefix of an ASCII slug: `-` as `_`, letters in uppercase.
pub open spec fn ascii_env_prefix(slug: Seq<char>) -> Seq<char> {
    ascii_upper(replace_char_spec(slug, '-', seq!['_']))
}

/// The form `^[A-Z0-9_]+$`.
pub open spec fn is_env_prefix(p: Seq<char>) -> bool {
    p.len() > 0 && forall|i: int|
        0 <= i < p.len() ==> ('A' <= #[trigger] p[i] && p[i] <= 'Z') || ('0' <= p[i] && p[i] <= '9')
            || p[i] == '_'
}

/// Characters of repository slugs: `a`-`z`, `0`-`9` and `-`.
pub open spec fn slug_text(s: Seq<char>) -> bool {
    forall|i: int| 0 <= i < s.len() ==> is_slug_char(#[trigger] s[i]) || s[i] == '-'
}

proof fn lemma_replace_ascii(s: Seq<char>, from: char, to: Seq<char>)
    requires
        is_ascii_text(s),
        is_ascii_text(to),
    ensures
        is_ascii_text(replace_char_spec(s, from, to)),
    decreases s.len(),
{
    if s.len() > 0 {
        let p = s.drop_last();
        assert(is_ascii_text(p)) by {
            assert forall|i: int| 0 <= i < p.len() implies is_ascii_char(#[trigger] p[i]) by {
                assert(p[i] == s[i]);
            }
        }
        lemma_replace_ascii(p, from, to);
        let r = replace_char_spec(p, from, to);
        if s.last() == from {
            assert forall|i: int| 0 <= i < (r + to).len() implies is_ascii_char(#[trigger] (r + to)[i]) by {
                if i < r.len() {
                    assert((r + to)[i] == r[i]);
                } else {
                    assert((r + to)[i] == to[i - r.len()]);
                }
            }
        } else {
            assert(is_ascii_char(s[s.len() - 1]));
            assert forall|i: int| 0 <= i < r.push(s.last()).len() implies is_ascii_char(#[trigger] r.push(s.last())[i]) by {
                if i < r.len() {
                    assert(r.push(s.last())[i] == r[i]);
                }
            }
        }
    }
}

proof fn lemma_replace_slug(s: Seq<char>)
    requires
        slug_text(s),
    ensures
        ({
            let r = replace_char_spec(s, '-', seq!['_']);
            &&& r.len() == s.len()
            &&& forall|i: int| 0 <= i < r.len() ==> (is_slug_char(#[trigger] r[i]) || r[i] == '_')
        }),
    decreases s.len(),
{
    if s.len() > 0 {
        let p = s.drop_last();
        assert(slug_text(p)) by {
            assert forall|i: int| 0 <= i < p.len() implies is_slug_char(#[trigger] p[i]) || p[i] == '-' by {
                assert(p[i] == s[i]);
            }
        }
        lemma_replace_slug(p);
        let r = replace_char_spec(p, '-', seq!['_']);
        let t = replace_char_spec(s, '-', seq!['_']);
        assert(is_slug_char(s[s.len() - 1]) || s[s.len() - 1] == '-');
        assert forall|i: int| 0 <= i < t.len() implies (is_slug_char(#[trigger] t[i]) || t[i] == '_') by {
            if i < r.len() {
                assert(t[i] == r[i]);
            }
        }
    }
}

proof fn lemma_hex_slug(v: nat, n: nat)
    ensures
        slug_text(hex_digits(v, n)),
    decreases n,
{
    if n > 0 {
        lemma_hex_digits_len(v / 16, (n - 1) as nat);
        lemma_hex_slug(v / 16, (n - 1) as nat);
        let d = (v % 16) as int;
        let h = hex_digits(v, n);
        let p = hex_digits(v / 16, (n - 1) as nat);
        assert(is_slug_char(hex_char(d))) by {
            let t = seq!['0', '1', '2', '3', '4', '5', '6', '7', '8', '9', 'a', 'b', 'c', 'd', 'e', 'f'];
            assert(0 <= d < 16);
            assert(forall|k: int| 0 <= k < 16 ==> is_slug_char(#[trigger] t[k]));
        }
        assert forall|i: int| 0 <= i < h.len() implies is_slug_char(#[trigger] h[i]) || h[i] == '-' by {
            if i < p.len() {
                assert(h[i] == p[i]);
            }
        }
    }
}

/// Repository slugs are non-empty text over `a`-`z`, `0`-`9` and `-`, and their prefixes
/// have the form `^[A-Z0-9_]+$`.
pub proof fn lemma_repo_slug_shape(name_slug: Seq<char>, id: u128)
    requires
        name_slug.len() == 0 || is_canonical_slug(name_slug),
    ensures
        slug_text(repo_slug_spec(name_slug, id)),
        repo_slug_spec(name_slug, id).len() > 0,
        is_ascii_text(repo_slug_spec(name_slug, id)),
        is_env_prefix(ascii_env_prefix(repo_slug_spec(name_slug, id))),
{
    lemma_hex_digits_len(id as nat, 32);
    lemma_hex_slug(id as nat, 32);
    let h = short_form(id);
    assert(slug_text(h)) by {
        assert forall|i: int| 0 <= i < h.len() implies is_slug_char(#[trigger] h[i]) || h[i] == '-' by {
            assert(h[i] == simple_form(id)[i]);
        }
    }
    let s = repo_slug_spec(name_slug, id);
    assert(slug_text(s)) by {
        if name_slug.len() == 0 {
            let pre = seq!['r', 'e', 'p', 'o', '-'];
            assert forall|i: int| 0 <= i < s.len() implies is_slug_char(#[trigger] s[i]) || s[i] == '-' by {
                if i < 5 {
                    assert(s[i] == pre[i]);
                } else {
                    assert(s[i] == h[i - 5]);
                }
            }
        } else {
            let pre = name_slug + seq!['-'];
            assert forall|i: int| 0 <= i < s.len() implies is_slug_char(#[trigger] s[i]) || s[i] == '-' by {
                if i < name_slug.len() {
                    assert(s[i] == name_slug[i]);
                } else if i == name_slug.len() {
                    assert(s[i] == '-');
                } else {
                    assert(s[i] == h[i - name_slug.len() - 1]);
                }
            }
        }
    }
    assert forall|i: int| 0 <= i < s.len() implies is_ascii_char(#[trigger] s[i]) by {
        assert(is_slug_char(s[i]) || s[i] == '-');
    }
    lemma_replace_slug(s);
    let r = replace_char_spec(s, '-', seq!['_']);
    let u = ascii_upper(r);
    assert forall|i: int| 0 <= i < u.len() implies ('A' <= #[trigger] u[i] && u[i] <= 'Z') || ('0' <= u[i]
        && u[i] <= '9') || u[i] == '_' by {
        assert(u[i] == ascii_upper_char(r[i]));
        assert(is_slug_char(r[i]) || r[i] == '_');
    }
}

/// Repeatedly: trim whitespace, drop a leading `./`, trim `/` and `\` at both ends,
/// until none of these changes the text.
pub open spec fn root_fix(s: Seq<char>) -> Seq<char>
    decreases s.len(),
{
    let t = trim_spec(s, CharClass::Whitespace);
    if t.len() < s.len() {
        root_fix(t)
    } else if s.len() >= 2 && s[0] == '.' && s[1] == '/' {
        root_fix(s.subrange(2, s.len() as int))
    } else {
        let u = trim_spec(s, CharClass::AnySlash);
        if u.len() < s.len() {
            root_fix(u)
        } else {
            s
        }
    }
}

/// A text none of whose normalization steps applies.
pub open spec fn root_stable(s: Seq<char>) -> bool {
    &&& trim_spec(s, CharClass::Whitespace).len() >= s.len()
    &&& !(s.len() >= 2 && s[0] == '.' && s[1] == '/')
    &&& trim_spec(s, CharClass::AnySlash).len() >= s.len()
}

/// A repository root as stored: normalized as `root_fix` says; `.` means the repository
/// root and becomes empty.
pub open spec fn normalize_root_spec(input: Seq<char>) -> Seq<char> {
    let v = root_fix(input);
    if v == seq!['.'] {
        Seq::empty()
    } else {
        v
    }
}

proof fn lemma_root_fix_stable(s: Seq<char>)
    ensures
        root_stable(root_fix(s)),
    decreases s.len(),
{
    let t = trim_spec(s, CharClass::Whitespace);
    if t.len() < s.len() {
        lemma_root_fix_stable(t);
    } else if s.len() >= 2 && s[0] == '.' && s[1] == '/' {
        lemma_root_fix_stable(s.subrange(2, s.len() as int));
    } else {
        let u = trim_spec(s, CharClass::AnySlash);
        if u.len() < s.len() {
            lemma_root_fix_stable(u);
        }
    }
}

proof fn lemma_trim_full(s: Seq<char>, cls: CharClass)
    requires
        trim_spec(s, cls).len() >= s.len(),
    ensures
        trim_spec(s, cls) == s,
        s.len() > 0 ==> !in_class(cls, s[0]) && !in_class(cls, s.last()),
{
    lemma_lead_len_shape(s, cls);
    let t = trim_start_spec(s, cls);
    lemma_trail_len_shape(t, cls);
    assert(lead_len(s, cls) == 0);
    assert(t =~= s);
    assert(trim_end_spec(t, cls) =~= s);
}

/// A normalized root never is `.`, never starts with `./`, has no `/` or `\` and no
/// whitespace at either end, and normalizing it again changes nothing.
pub proof fn lemma_normalize_root_shape(input: Seq<char>)
    ensures
        ({
            let r = normalize_root_spec(input);
            &&& r != seq!['.']
            &&& !(r.len() >= 2 && r[0] == '.' && r[1] == '/')
            &&& r.len() > 0 ==> !in_class(CharClass::AnySlash, r[0]) && !in_class(
                CharClass::AnySlash,
                r.last(),
            ) && !is_space(r[0]) && !is_space(r.last())
            &&& normalize_root_spec(r) == r
        }),
{
    let v = root_fix(input);
    lemma_root_fix_stable(input);
    lemma_trim_full(v, CharClass::Whitespace);
    lemma_trim_full(v, CharClass::AnySlash);
    assert(root_fix(v) == v);
    let e = Seq::<char>::empty();
    assert(trim_spec(e, CharClass::Whitespace).len() == 0);
    assert(trim_spec(e, CharClass::AnySlash).len() == 0);
    assert(root_fix(e) == e);
    if v == seq!['.'] {
        assert(normalize_root_spec(input) == e);
    }
}

/// Normalizes an optional repository root path.
pub fn normalize_root_path(root_path: Option<&str>) -> (r: String)
    ensures
        r@ == normalize_root_spec(
            match root_path {
                Some(p) => p@,
                None => Seq::empty(),
            },
        ),
{
    let input: &str = match root_path {
        Some(p) => p,
        None => "",
    };
    proof {
        reveal_strlit("");
        assert(""@ =~= Seq::<char>::empty());
    }
    let mut value = String::from_str(input);
    loop
        invariant
            root_fix(value@) == root_fix(input@),
        ensures
            value@ == root_fix(input@),
        decreases value@.len(),
    {
        let t = trim_ws(value.as_str());
        let vl = value.as_str().unicode_len();
        if t.as_str().unicode_len() < vl {
            value = t;
        } else if vl >= 2 && value.as_str().get_char(0) == '.' && value.as_str().get_char(1) == '/' {
            value = String::from_str(value.as_str().substring_char(2, vl));
        } else {
            let u = trim_class(value.as_str(), CharClass::AnySlash);
            if u.as_str().unicode_len() < vl {
                value = u;
            } else {
                assert(root_fix(value@) == value@);
                break;
            }
        }
    }
    if value.as_str().unicode_len() == 1 && value.as_str().get_char(0) == '.' {
        assert(value@ =~= seq!['.']);
        String::new()
    } else {
        assert(value@ != seq!['.']) by {
            if value@.len() == 1 {
                assert(value@[0] != seq!['.'][0]);
            }
        }
        value
    }
}

} // verus!
