//! Repository-aware instructions appended to a coding agent's prompt, read back from the
//! `VIBE_REPO_*` environment that the payload builder writes.

use vstd::prelude::*;
use vstd::string::*;
use crate::env::{decimal, decimal_spec, join, join_spec, pairs_to_map, strings_view, view_pairs, EnvMap};
use crate::strings::{ends_with_char, starts_with, trim_class, trim_spec, trim_ws, CharClass};
use crate::textops::{lex_lt, parse_usize, parse_usize_spec, split_char, split_spec, text_lt};

verus! {

/// The value of `k` in `env`, if any.
pub open spec fn env_get(env: Map<Seq<char>, Seq<char>>, k: Seq<char>) -> Option<Seq<char>> {
    if env.contains_key(k) {
        Some(env[k])
    } else {
        None
    }
}

pub open spec fn opt_str(o: Option<&String>) -> Option<Seq<char>> {
    match o {
        Some(s) => Some(s@),
        None => None,
    }
}

pub open spec fn opt_string(o: Option<String>) -> Option<Seq<char>> {
    match o {
        Some(s) => Some(s@),
        None => None,
    }
}

/// `1`, `true`, `TRUE` or `True`, around whitespace.
pub open spec fn parse_bool_spec(v: Option<Seq<char>>) -> bool {
    match v {
        Some(s) => {
            let t = trim_spec(s, CharClass::Whitespace);
            t == "1"@ || t == "true"@ || t == "TRUE"@ || t == "True"@
        },
        None => false,
    }
}

/// The trimmed value, when it is not blank.
pub open spec fn clean_spec(v: Option<Seq<char>>) -> Option<Seq<char>> {
    match v {
        Some(s) => if trim_spec(s, CharClass::Whitespace).len() > 0 {
            Some(trim_spec(s, CharClass::Whitespace))
        } else {
            None
        },
        None => None,
    }
}

/// The value trimmed of whitespace and then of `/`; empty when absent.
pub open spec fn root_value_spec(v: Option<Seq<char>>) -> Seq<char> {
    match v {
        Some(s) => trim_spec(trim_spec(s, CharClass::Whitespace), CharClass::Slash),
        None => Seq::empty(),
    }
}

/// `path` joined with the relative `root` by one `/`.
pub open spec fn join_path_spec(path: Seq<char>, root: Seq<char>) -> Option<Seq<char>> {
    if path.len() == 0 {
        None
    } else if root.len() == 0 {
        Some(path)
    } else if path.last() == '/' {
        Some(path + root)
    } else {
        Some(path + seq!['/'] + root)
    }
}

pub fn parse_bool(value: Option<&String>) -> (r: bool)
    ensures
        r == parse_bool_spec(opt_str(value)),
{
    match value {
        Some(v) => {
            let t = trim_ws(v.as_str());
            let s = t.as_str();
            same_str(s, "1") || same_str(s, "true") || same_str(s, "TRUE") || same_str(s, "True")
        },
        None => false,
    }
}

fn same_str(a: &str, b: &str) -> (r: bool)
    ensures
        r == (a@ == b@),
{
    crate::strings::same_text(a, b)
}

pub fn clean_string(value: Option<&String>) -> (r: Option<String>)
    ensures
        opt_string(r) == clean_spec(opt_str(value)),
{
    match value {
        Some(v) => {
            let t = trim_ws(v.as_str());
            if t.as_str().unicode_len() > 0 {
                Some(t)
            } else {
                None
            }
        },
        None => None,
    }
}

pub fn normalize_root(value: Option<&String>) -> (r: String)
    ensures
        r@ == root_value_spec(opt_str(value)),
{
    match value {
        Some(v) => {
            let t = trim_ws(v.as_str());
            trim_class(t.as_str(), CharClass::Slash)
        },
        None => String::new(),
    }
}

/// `path` joined with the relative `root`; `None` for an empty path.
pub fn join_path(path: &str, root: &str) -> (r: Option<String>)
    ensures
        opt_string(r) == join_path_spec(path@, root@),
{
    if path.unicode_len() == 0 {
        return None;
    }
    let mut out = String::from_str(path);
    if root.unicode_len() == 0 {
        return Some(out);
    }
    if !ends_with_char(path, '/') {
        out.append("/");
        proof {
            reveal_strlit("/");
            assert("/"@ =~= seq!['/']);
        }
    }
    out.append(root);
    Some(out)
}

/// What the environment says about one repository.
#[derive(Clone, Debug)]
pub struct RepoSummary {
    pub prefix: String,
    pub name: Option<String>,
    pub path: Option<String>,
    pub root: String,
    pub branch: Option<String>,
    pub base_branch: Option<String>,
    pub is_primary: bool,
    pub effective_dir: Option<String>,
}

/// `VIBE_REPO_<prefix>_<suffix>`.
pub open spec fn var(prefix: Seq<char>, suffix: Seq<char>) -> Seq<char> {
    "VIBE_REPO_"@ + prefix + "_"@ + suffix
}

/// The summary of `prefix` that the environment describes.
pub open spec fn summary_of(s: RepoSummary, prefix: Seq<char>, env: Map<Seq<char>, Seq<char>>) -> bool {
    let path = clean_spec(env_get(env, var(prefix, "PATH"@)));
    let root = root_value_spec(env_get(env, var(prefix, "ROOT"@)));
    &&& s.prefix@ == prefix
    &&& opt_string(s.path) == path
    &&& s.root@ == root
    &&& opt_string(s.branch) == clean_spec(env_get(env, var(prefix, "BRANCH"@)))
    &&& opt_string(s.base_branch) == clean_spec(env_get(env, var(prefix, "BASE_BRANCH"@)))
    &&& opt_string(s.name) == clean_spec(env_get(env, var(prefix, "NAME"@)))
    &&& s.is_primary == parse_bool_spec(env_get(env, var(prefix, "IS_PRIMARY"@)))
    &&& opt_string(s.effective_dir) == match path {
        Some(p) => join_path_spec(p, root),
        None => None,
    }
}

fn env_lookup(env: &EnvMap, prefix: &str, suffix: &str) -> (r: Option<String>)
    ensures
        opt_string(r) == env_get(env@, var(prefix@, suffix@)),
{
    let mut k = String::from_str("VIBE_REPO_");
    k.append(prefix);
    k.append("_");
    k.append(suffix);
    env.get(k.as_str())
}

fn as_ref_opt(o: &Option<String>) -> (r: Option<&String>)
    ensures
        opt_str(r) == opt_string(*o),
{
    match o {
        Some(s) => Some(s),
        None => None,
    }
}

/// A value, or a placeholder when it is absent or empty.
pub open spec fn display(v: Option<Seq<char>>, placeholder: Seq<char>) -> Seq<char> {
    match v {
        Some(s) => if s.len() > 0 {
            s
        } else {
            placeholder
        },
        None => placeholder,
    }
}

fn display_of<'a>(v: &'a Option<String>, placeholder: &'a str) -> (r: &'a str)
    ensures
        r@ == display(opt_string(*v), placeholder@),
{
    match v {
        Some(s) => if s.as_str().unicode_len() > 0 {
            s.as_str()
        } else {
            placeholder
        },
        None => placeholder,
    }
}

impl RepoSummary {
    pub fn from_prefix(prefix: &str, env: &EnvMap) -> (r: Option<Self>)
        ensures
            r is Some && summary_of(r.unwrap(), prefix@, env@),
    {
        let path_raw = env_lookup(env, prefix, "PATH");
        let root_raw = env_lookup(env, prefix, "ROOT");
        let branch_raw = env_lookup(env, prefix, "BRANCH");
        let base_raw = env_lookup(env, prefix, "BASE_BRANCH");
        let name_raw = env_lookup(env, prefix, "NAME");
        let primary_raw = env_lookup(env, prefix, "IS_PRIMARY");
        let path = clean_string(as_ref_opt(&path_raw));
        let root = normalize_root(as_ref_opt(&root_raw));
        let branch = clean_string(as_ref_opt(&branch_raw));
        let base_branch = clean_string(as_ref_opt(&base_raw));
        let name = clean_string(as_ref_opt(&name_raw));
        let is_primary = parse_bool(as_ref_opt(&primary_raw));
        let effective_dir = match &path {
            Some(p) => join_path(p.as_str(), root.as_str()),
            None => None,
        };
        Some(RepoSummary {
            prefix: String::from_str(prefix),
            name,
            path,
            root,
            branch,
            base_branch,
            is_primary,
            effective_dir,
        })
    }

    pub fn root_display(&self) -> (r: &str)
        ensures
            r@ == (if self.root@.len() == 0 { "/"@ } else { self.root@ }),
    {
        if self.root.as_str().unicode_len() == 0 {
            "/"
        } else {
            self.root.as_str()
        }
    }

    pub fn branch_display(&self) -> (r: &str)
        ensures
            r@ == display(opt_string(self.branch), "<not yet created>"@),
    {
        display_of(&self.branch, "<not yet created>")
    }

    pub fn base_branch_display(&self) -> (r: &str)
        ensures
            r@ == display(opt_string(self.base_branch), "<inherit project target branch>"@),
    {
        display_of(&self.base_branch, "<inherit project target branch>")
    }

    pub fn name_display(&self) -> (r: &str)
        ensures
            r@ == display(opt_string(self.name), "(unnamed repository)"@),
    {
        display_of(&self.name, "(unnamed repository)")
    }

    pub fn effective_dir_display(&self) -> (r: &str)
        ensures
            r@ == display(opt_string(self.effective_dir), "<path unavailable>"@),
    {
        display_of(&self.effective_dir, "<path unavailable>")
    }
}

/// The non-blank, trimmed entries of a comma-separated list.
pub open spec fn listed_spec(list: Seq<char>) -> Seq<Seq<char>> {
    split_spec(list, ',').map_values(|e: Seq<char>| trim_spec(e, CharClass::Whitespace)).filter(
        |e: Seq<char>| e.len() > 0,
    )
}

/// Each item strictly before the next.
pub open spec fn strictly_sorted(s: Seq<Seq<char>>) -> bool {
    forall|i: int| 0 <= i < s.len() - 1 ==> lex_lt(#[trigger] s[i], s[i + 1])
}

/// The prefixes that have a `VIBE_REPO_<prefix>_PATH` variable.
pub open spec fn path_prefixes(env: Map<Seq<char>, Seq<char>>) -> Set<Seq<char>> {
    Set::new(|p: Seq<char>| env.contains_key(var(p, "PATH"@)))
}

proof fn lemma_lex_total(a: Seq<char>, b: Seq<char>)
    ensures
        a == b || lex_lt(a, b) || lex_lt(b, a),
        !(lex_lt(a, b) && lex_lt(b, a)),
        !lex_lt(a, a),
    decreases a.len(),
{
    if a.len() > 0 && b.len() > 0 {
        if a[0] == b[0] {
            lemma_lex_total(a.drop_first(), b.drop_first());
            if a.drop_first() == b.drop_first() {
                assert(a =~= seq![a[0]] + a.drop_first());
                assert(b =~= seq![b[0]] + b.drop_first());
            }
        }
    } else if a.len() == 0 && b.len() == 0 {
        assert(a =~= b);
    }
    if a.len() > 0 {
        lemma_lex_total(a.drop_first(), a.drop_first());
    }
}

proof fn lemma_pairs_keys(s: Seq<(Seq<char>, Seq<char>)>, k: Seq<char>)
    ensures
        pairs_to_map(s).contains_key(k) <==> exists|i: int| 0 <= i < s.len() && (#[trigger] s[i]).0 == k,
    decreases s.len(),
{
    if s.len() > 0 {
        let p = s.drop_last();
        lemma_pairs_keys(p, k);
        if exists|i: int| 0 <= i < p.len() && (#[trigger] p[i]).0 == k {
            let i = choose|i: int| 0 <= i < p.len() && (#[trigger] p[i]).0 == k;
            assert(s[i] == p[i]);
        }
        if exists|i: int| 0 <= i < s.len() && (#[trigger] s[i]).0 == k {
            let i = choose|i: int| 0 <= i < s.len() && (#[trigger] s[i]).0 == k;
            if i < s.len() - 1 {
                assert(p[i] == s[i]);
            }
        }
    }
}

/// The prefix inside a `VIBE_REPO_<prefix>_PATH` key.
fn path_key_prefix(k: &str) -> (r: Option<String>)
    ensures
        match r {
            Some(p) => k@ == var(p@, "PATH"@),
            None => forall|p: Seq<char>| k@ != #[trigger] var(p, "PATH"@),
        },
{
    proof {
        reveal_strlit("VIBE_REPO_");
        reveal_strlit("_");
        reveal_strlit("PATH");
        reveal_strlit("_PATH");
    }
    let len = k.unicode_len();
    if len < 15 || !starts_with(k, "VIBE_REPO_") {
        proof {
            assert forall|p: Seq<char>| k@ != #[trigger] var(p, "PATH"@) by {
                if k@ == var(p, "PATH"@) {
                    assert(k@.subrange(0, 10) =~= "VIBE_REPO_"@);
                }
            }
        }
        return None;
    }
    let tail = k.substring_char(len - 5, len);
    if !crate::strings::same_text(tail, "_PATH") {
        proof {
            assert forall|p: Seq<char>| k@ != #[trigger] var(p, "PATH"@) by {
                if k@ == var(p, "PATH"@) {
                    assert(tail@ =~= "_PATH"@);
                }
            }
        }
        return None;
    }
    let p = String::from_str(k.substring_char(10, len - 5));
    proof {
        assert("_"@ + "PATH"@ =~= "_PATH"@);
        assert(k@.subrange(len - 5, len as int) == "_PATH"@);
        assert(k@.subrange(0, 10) == "VIBE_REPO_"@);
        assert(k@ =~= k@.subrange(0, 10) + k@.subrange(10, len - 5) + k@.subrange(len - 5, len as int));
        assert(k@ =~= var(p@, "PATH"@));
    }
    Some(p)
}

/// Inserts `x` into a strictly sorted vector unless it is already there.
fn insert_sorted_unique(v: &mut Vec<String>, x: String)
    requires
        strictly_sorted(strings_view(old(v)@)),
    ensures
        strictly_sorted(strings_view(final(v)@)),
        strings_view(final(v)@).to_set() == strings_view(old(v)@).to_set().insert(x@),
{
    let ghost sv = strings_view(v@);
    let mut k: usize = 0;
    while k < v.len() && text_lt(v[k].as_str(), x.as_str())
        invariant
            k <= v@.len(),
            sv == strings_view(v@),
            strictly_sorted(sv),
            forall|j: int| 0 <= j < k ==> lex_lt(#[trigger] sv[j], x@),
        decreases v@.len() - k,
    {
        k = k + 1;
    }
    if k < v.len() && crate::strings::same_text(v[k].as_str(), x.as_str()) {
        proof {
            assert(sv.to_set().insert(x@) =~= sv.to_set()) by {
                assert(sv[k as int] == x@);
            }
        }
        return;
    }
    let ghost xv = x@;
    v.insert(k, x);
    proof {
        let nv = strings_view(v@);
        assert(nv =~= sv.insert(k as int, xv));
        if k < sv.len() {
            lemma_lex_total(sv[k as int], xv);
        }
        if k > 0 {
            assert(lex_lt(sv[k - 1], xv));
        }
        assert forall|i: int| 0 <= i < nv.len() - 1 implies lex_lt(#[trigger] nv[i], nv[i + 1]) by {
            if i < k - 1 {
                assert(nv[i] == sv[i] && nv[i + 1] == sv[i + 1]);
            } else if i == k - 1 {
                assert(nv[i] == sv[i] && nv[i + 1] == xv);
            } else if i == k {
                assert(nv[i] == xv && nv[i + 1] == sv[i]);
            } else {
                assert(nv[i] == sv[i - 1] && nv[i + 1] == sv[i]);
            }
        }
        assert forall|e: Seq<char>| nv.to_set().contains(e) <==> sv.to_set().insert(xv).contains(e) by {
            if nv.contains(e) {
                let i = choose|i: int| 0 <= i < nv.len() && nv[i] == e;
                if i < k {
                    assert(sv[i] == e);
                } else if i > k {
                    assert(sv[i - 1] == e);
                }
            }
            if sv.contains(e) {
                let i = choose|i: int| 0 <= i < sv.len() && sv[i] == e;
                if i < k {
                    assert(nv[i] == e);
                } else {
                    assert(nv[i + 1] == e);
                }
            }
            if e == xv {
                assert(nv[k as int] == e);
            }
        }
        assert(nv.to_set() =~= sv.to_set().insert(xv));
    }
}

/// The repository prefixes: the non-blank entries of `VIBE_REPOSITORIES` when it lists
/// any, else every prefix with a `VIBE_REPO_<prefix>_PATH` variable, sorted, once each.
pub fn collect_prefixes(env: &EnvMap) -> (r: Vec<String>)
    ensures
        ({
            let listed = match env_get(env@, "VIBE_REPOSITORIES"@) {
                Some(l) => listed_spec(l),
                None => Seq::empty(),
            };
            if listed.len() > 0 {
                strings_view(r@) == listed
            } else {
                strictly_sorted(strings_view(r@)) && strings_view(r@).to_set() == path_prefixes(env@)
            }
        }),
{
    let listed_raw = env.get("VIBE_REPOSITORIES");
    let ghost listed = match env_get(env@, "VIBE_REPOSITORIES"@) {
        Some(l) => listed_spec(l),
        None => Seq::empty(),
    };
    match listed_raw {
        Some(list) => {
            let parts = split_char(list.as_str(), ',');
            let ghost pv = parts@.map_values(|x: String| x@);
            let mut out: Vec<String> = Vec::new();
            let mut i: usize = 0;
            while i < parts.len()
                invariant
                    i <= parts@.len(),
                    pv == parts@.map_values(|x: String| x@),
                    strings_view(out@) == pv.subrange(0, i as int).map_values(
                        |e: Seq<char>| trim_spec(e, CharClass::Whitespace),
                    ).filter(|e: Seq<char>| e.len() > 0),
                decreases parts@.len() - i,
            {
                let t = trim_ws(parts[i].as_str());
                let ghost before = strings_view(out@);
                let ghost tv = t@;
                if t.as_str().unicode_len() > 0 {
                    out.push(t);
                }
                proof {
                    reveal(Seq::filter);
                    let f = |e: Seq<char>| trim_spec(e, CharClass::Whitespace);
                    let pre = pv.subrange(0, i as int).map_values(f);
                    let nxt = pv.subrange(0, i + 1).map_values(f);
                    assert(nxt =~= pre.push(tv));
                    assert(pre.push(tv).drop_last() =~= pre);
                    if tv.len() > 0 {
                        assert(strings_view(out@) =~= before.push(tv));
                    }
                }
                i = i + 1;
            }
            assert(pv.subrange(0, i as int) =~= pv);
            if out.len() > 0 {
                return out;
            }
        },
        None => {},
    }
    let pairs = env.to_pairs();
    let ghost ps = view_pairs(pairs@);
    let mut out: Vec<String> = Vec::new();
    let mut i: usize = 0;
    while i < pairs.len()
        invariant
            i <= pairs@.len(),
            ps == view_pairs(pairs@),
            pairs_to_map(ps) == env@,
            strictly_sorted(strings_view(out@)),
            forall|p: Seq<char>| strings_view(out@).to_set().contains(p) <==> exists|j: int|
                0 <= j < i && (#[trigger] ps[j]).0 == var(p, "PATH"@),
        decreases pairs@.len() - i,
    {
        let ghost before = strings_view(out@).to_set();
        match path_key_prefix(pairs[i].0.as_str()) {
            Some(p) => {
                let ghost pvw = p@;
                insert_sorted_unique(&mut out, p);
                proof {
                    assert(ps[i as int].0 == pairs@[i as int].0@);
                    assert forall|q: Seq<char>| strings_view(out@).to_set().contains(q) <==> exists|j: int|
                        0 <= j < i + 1 && (#[trigger] ps[j]).0 == var(q, "PATH"@) by {
                        if q == pvw {
                            assert(ps[i as int].0 == var(q, "PATH"@));
                        } else {
                            if exists|j: int| 0 <= j < i + 1 && (#[trigger] ps[j]).0 == var(q, "PATH"@) {
                                let j = choose|j: int| 0 <= j < i + 1 && (#[trigger] ps[j]).0 == var(q, "PATH"@);
                                if j == i {
                                    assert(var(q, "PATH"@) == var(pvw, "PATH"@));
                                    assert(var(q, "PATH"@).subrange(10, var(q, "PATH"@).len() - 5) =~= q) by {
                                        reveal_strlit("VIBE_REPO_");
                                        reveal_strlit("_");
                                        reveal_strlit("PATH");
                                    }
                                    assert(var(pvw, "PATH"@).subrange(10, var(pvw, "PATH"@).len() - 5) =~= pvw) by {
                                        reveal_strlit("VIBE_REPO_");
                                        reveal_strlit("_");
                                        reveal_strlit("PATH");
                                    }
                                }
                            }
                        }
                    }
                }
            },
            None => {
                proof {
                    assert(ps[i as int].0 == pairs@[i as int].0@);
                    assert forall|q: Seq<char>| strings_view(out@).to_set().contains(q) <==> exists|j: int|
                        0 <= j < i + 1 && (#[trigger] ps[j]).0 == var(q, "PATH"@) by {
                        if exists|j: int| 0 <= j < i + 1 && (#[trigger] ps[j]).0 == var(q, "PATH"@) {
                            let j = choose|j: int| 0 <= j < i + 1 && (#[trigger] ps[j]).0 == var(q, "PATH"@);
                            assert(j != i);
                        }
                    }
                }
            },
        }
        i = i + 1;
    }
    proof {
        assert forall|p: Seq<char>| strings_view(out@).to_set().contains(p) <==> path_prefixes(env@).contains(p) by {
            lemma_pairs_keys(ps, var(p, "PATH"@));
        }
        assert(strings_view(out@).to_set() =~= path_prefixes(env@));
    }
    out
}

/// What `collect_prefixes` returns for `env`.
pub open spec fn collect_ok(env: Map<Seq<char>, Seq<char>>, ps: Seq<Seq<char>>) -> bool {
    let listed = match env_get(env, "VIBE_REPOSITORIES"@) {
        Some(l) => listed_spec(l),
        None => Seq::empty(),
    };
    if listed.len() > 0 {
        ps == listed
    } else {
        strictly_sorted(ps) && ps.to_set() == path_prefixes(env)
    }
}

/// A summary as values.
pub struct SummaryView {
    pub prefix: Seq<char>,
    pub name: Option<Seq<char>>,
    pub path: Option<Seq<char>>,
    pub root: Seq<char>,
    pub branch: Option<Seq<char>>,
    pub base_branch: Option<Seq<char>>,
    pub is_primary: bool,
    pub effective_dir: Option<Seq<char>>,
}

pub open spec fn view_of(prefix: Seq<char>, env: Map<Seq<char>, Seq<char>>) -> SummaryView {
    let path = clean_spec(env_get(env, var(prefix, "PATH"@)));
    let root = root_value_spec(env_get(env, var(prefix, "ROOT"@)));
    SummaryView {
        prefix,
        name: clean_spec(env_get(env, var(prefix, "NAME"@))),
        path,
        root,
        branch: clean_spec(env_get(env, var(prefix, "BRANCH"@))),
        base_branch: clean_spec(env_get(env, var(prefix, "BASE_BRANCH"@))),
        is_primary: parse_bool_spec(env_get(env, var(prefix, "IS_PRIMARY"@))),
        effective_dir: match path {
            Some(p) => join_path_spec(p, root),
            None => None,
        },
    }
}

pub open spec fn summary_view(s: RepoSummary) -> SummaryView {
    SummaryView {
        prefix: s.prefix@,
        name: opt_string(s.name),
        path: opt_string(s.path),
        root: s.root@,
        branch: opt_string(s.branch),
        base_branch: opt_string(s.base_branch),
        is_primary: s.is_primary,
        effective_dir: opt_string(s.effective_dir),
    }
}

pub open spec fn summaries_view(v: Seq<RepoSummary>) -> Seq<SummaryView> {
    v.map_values(|s: RepoSummary| summary_view(s))
}

/// The summaries of the collected prefixes, in their order.
pub fn build_repository_summaries(env: &EnvMap) -> (r: Vec<RepoSummary>)
    ensures
        exists|ps: Seq<Seq<char>>|
            collect_ok(env@, ps) && summaries_view(r@) == ps.map_values(|p: Seq<char>| view_of(p, env@)),
{
    let prefixes = collect_prefixes(env);
    let ghost ps = strings_view(prefixes@);
    let mut out: Vec<RepoSummary> = Vec::new();
    let mut i: usize = 0;
    while i < prefixes.len()
        invariant
            i <= prefixes@.len(),
            ps == strings_view(prefixes@),
            summaries_view(out@) == ps.subrange(0, i as int).map_values(|p: Seq<char>| view_of(p, env@)),
        decreases prefixes@.len() - i,
    {
        match RepoSummary::from_prefix(prefixes[i].as_str(), env) {
            Some(s) => {
                let ghost before = out@;
                out.push(s);
                proof {
                    assert(summary_view(s) == view_of(ps[i as int], env@));
                    assert(summaries_view(out@) =~= summaries_view(before).push(summary_view(s)));
                    assert(ps.subrange(0, i + 1).map_values(|p: Seq<char>| view_of(p, env@)) =~= ps.subrange(
                        0,
                        i as int,
                    ).map_values(|p: Seq<char>| view_of(p, env@)).push(view_of(ps[i as int], env@)));
                }
            },
            None => {},
        }
        i = i + 1;
    }
    assert(ps.subrange(0, i as int) =~= ps);
    assert(collect_ok(env@, ps));
    assert(summaries_view(out@) == ps.map_values(|p: Seq<char>| view_of(p, env@)));
    out
}

/// Order of the instructions: the primary prefix (when named) first, then by prefix.
pub open spec fn before(a: Seq<char>, b: Seq<char>, primary: Option<Seq<char>>) -> bool {
    match primary {
        Some(p) => (a == p && b != p) || ((a == p) == (b == p) && lex_lt(a, b)),
        None => lex_lt(a, b),
    }
}

/// Where a stable insertion puts `x`: before the first item it sorts strictly before.
pub open spec fn insert_pos(s: Seq<SummaryView>, x: SummaryView, primary: Option<Seq<char>>) -> nat
    decreases s.len(),
{
    if s.len() == 0 {
        0
    } else if before(x.prefix, s[0].prefix, primary) {
        0
    } else {
        1 + insert_pos(s.drop_first(), x, primary)
    }
}

/// The stable sort of `s` by `before`.
pub open spec fn sorted_summaries(s: Seq<SummaryView>, primary: Option<Seq<char>>) -> Seq<SummaryView>
    decreases s.len(),
{
    if s.len() == 0 {
        s
    } else {
        let t = sorted_summaries(s.drop_last(), primary);
        t.insert(insert_pos(t, s.last(), primary) as int, s.last())
    }
}

proof fn lemma_insert_pos(s: Seq<SummaryView>, x: SummaryView, primary: Option<Seq<char>>, k: int)
    requires
        0 <= k <= s.len(),
        forall|j: int| 0 <= j < k ==> !before(x.prefix, (#[trigger] s[j]).prefix, primary),
        k == s.len() || before(x.prefix, s[k].prefix, primary),
    ensures
        insert_pos(s, x, primary) == k,
    decreases k,
{
    if k > 0 {
        let t = s.drop_first();
        assert(!before(x.prefix, s[0].prefix, primary));
        assert forall|j: int| 0 <= j < k - 1 implies !before(x.prefix, (#[trigger] t[j]).prefix, primary) by {
            assert(t[j] == s[j + 1]);
        }
        if k < s.len() {
            assert(t[k - 1] == s[k]);
        }
        lemma_insert_pos(t, x, primary, k - 1);
    }
}

fn sorts_before(a: &str, b: &str, primary: &Option<String>) -> (r: bool)
    ensures
        r == before(a@, b@, opt_string(*primary)),
{
    match primary {
        Some(p) => {
            let ap = crate::strings::same_text(a, p.as_str());
            let bp = crate::strings::same_text(b, p.as_str());
            (ap && !bp) || (ap == bp && text_lt(a, b))
        },
        None => text_lt(a, b),
    }
}

/// Sorts summaries stably by `before`.
#[verifier::loop_isolation(false)]
pub fn sort_summaries(v: Vec<RepoSummary>, primary: &Option<String>) -> (r: Vec<RepoSummary>)
    ensures
        summaries_view(r@) == sorted_summaries(summaries_view(v@), opt_string(*primary)),
{
    let ghost pv = opt_string(*primary);
    let ghost input = summaries_view(v@);
    let mut src = v;
    let mut out: Vec<RepoSummary> = Vec::new();
    let mut i: usize = 0;
    let n = src.len();
    while src.len() > 0
        invariant
            i + src@.len() == n,
            n == input.len(),
            summaries_view(src@) == input.subrange(i as int, n as int),
            summaries_view(out@) == sorted_summaries(input.subrange(0, i as int), pv),
        decreases src@.len(),
    {
        let ghost sv = summaries_view(src@);
        let ghost before_src = src@;
        let x = src.remove(0);
        let ghost xv = summary_view(x);
        proof {
            assert(x == before_src[0]);
            assert(sv[0] == xv);
            assert(sv[0] == input[i as int]);
            assert forall|j: int| 0 <= j < src@.len() implies summaries_view(src@)[j] == input.subrange(i + 1, n as int)[j] by {
                assert(src@[j] == before_src[j + 1]);
                assert(sv[j + 1] == input[i + 1 + j]);
            }
            assert(summaries_view(src@) =~= input.subrange(i + 1, n as int));
        }
        let mut k: usize = 0;
        while k < out.len() && !sorts_before(x.prefix.as_str(), out[k].prefix.as_str(), primary)
            invariant
                k <= out@.len(),
                forall|j: int| 0 <= j < k ==> !before(xv.prefix, (#[trigger] summaries_view(out@)[j]).prefix, pv),
            decreases out@.len() - k,
        {
            assert(summaries_view(out@)[k as int].prefix == out@[k as int].prefix@);
            k = k + 1;
        }
        let ghost ov = summaries_view(out@);
        proof {
            if k < out@.len() {
                assert(ov[k as int].prefix == out@[k as int].prefix@);
            }
            lemma_insert_pos(ov, xv, pv, k as int);
        }
        out.insert(k, x);
        proof {
            let pre = input.subrange(0, i as int);
            let nxt = input.subrange(0, i + 1);
            assert(nxt.drop_last() =~= pre);
            assert(summaries_view(out@) =~= ov.insert(k as int, xv));
        }
        i = i + 1;
    }
    assert(input.subrange(0, n as int) =~= input);
    out
}

pub open spec fn eff_display(s: SummaryView) -> Seq<char> {
    display(s.effective_dir, "<path unavailable>"@)
}

pub open spec fn name_display_spec(s: SummaryView) -> Seq<char> {
    display(s.name, "(unnamed repository)"@)
}

/// Index of the first primary summary.
pub open spec fn first_primary_summary(s: Seq<SummaryView>) -> Option<int>
    decreases s.len(),
{
    if s.len() == 0 {
        None
    } else if s[0].is_primary {
        Some(0)
    } else {
        match first_primary_summary(s.drop_first()) {
            Some(i) => Some(i + 1),
            None => None,
        }
    }
}

/// The line naming the primary repository, or the default when none is flagged.
pub open spec fn primary_line(s: Seq<SummaryView>) -> Seq<char> {
    match first_primary_summary(s) {
        Some(i) => "- Primary repository: `"@ + s[i].prefix + "` — "@ + name_display_spec(s[i])
            + " (workdir: `"@ + eff_display(s[i]) + "`)\n"@,
        None => if s.len() > 0 {
            "- No explicit primary repo flagged; default to `"@ + s[0].prefix + "` (workdir: `"@
                + eff_display(s[0]) + "`) unless instructed otherwise\n"@
        } else {
            Seq::empty()
        },
    }
}

pub open spec fn guidance() -> Seq<char> {
    "- Always set `workdir` in commands/tools to the repo you are touching (see effective directories below).\n"@
        + "- When referencing files, prefix paths with the repo name if they are outside the primary repo.\n"@
        + "- Use the `VIBE_REPO_<PREFIX>_*` variables for automation; `VIBE_PRIMARY_REPO_*` mirrors the current primary.\n"@
}

pub open spec fn env_vars_line(p: Seq<char>) -> Seq<char> {
    "  - Env vars: `VIBE_REPO_"@ + p + "_PATH`, `VIBE_REPO_"@ + p + "_ROOT`, `VIBE_REPO_"@ + p
        + "_BRANCH`, `VIBE_REPO_"@ + p + "_BASE_BRANCH`, `VIBE_REPO_"@ + p + "_NAME`, `VIBE_REPO_"@
        + p + "_IS_PRIMARY`\n"@
}

pub open spec fn head_line(s: SummaryView) -> Seq<char> {
    "\n- `"@ + s.prefix + "` — "@ + name_display_spec(s) + (if s.is_primary {
        " (primary)"@
    } else {
        Seq::empty()
    }) + "\n"@
}

pub open spec fn path_line(s: SummaryView) -> Seq<char> {
    match s.path {
        Some(p) => "  - Path: `"@ + p + "`\n"@,
        None => "  - Path: <unavailable>\n"@,
    }
}

pub open spec fn root_line(s: SummaryView) -> Seq<char> {
    "  - Root: `"@ + (if s.root.len() == 0 {
        "/"@
    } else {
        s.root
    }) + "` (effective workdir: `"@ + eff_display(s) + "`)\n"@
}

pub open spec fn branch_line(s: SummaryView) -> Seq<char> {
    "  - Branch: `"@ + display(s.branch, "<not yet created>"@) + "` (base: `"@ + display(
        s.base_branch,
        "<inherit project target branch>"@,
    ) + "`)\n"@
}

pub open spec fn note_line(s: SummaryView) -> Seq<char> {
    if s.root.len() > 0 {
        "  - Note: repo is scoped to a subdirectory; operate relative to the effective workdir.\n"@
    } else {
        Seq::empty()
    }
}

/// The section of one repository.
pub open spec fn section(s: SummaryView) -> Seq<char> {
    head_line(s) + path_line(s) + root_line(s) + branch_line(s) + env_vars_line(s.prefix) + note_line(s)
}

pub open spec fn sections(s: Seq<SummaryView>) -> Seq<char>
    decreases s.len(),
{
    if s.len() == 0 {
        Seq::empty()
    } else {
        sections(s.drop_last()) + section(s.last())
    }
}

/// The whole instructions text for sorted summaries and a repository count.
pub open spec fn instructions_text(s: Seq<SummaryView>, count: nat) -> Seq<char> {
    "## Repository Context\n"@ + "- Repositories available: "@ + decimal_spec(count) + " ("@
        + join_spec(s.map_values(|v: SummaryView| v.prefix), ", "@) + ")\n"@ + primary_line(s)
        + guidance() + sections(s)
}

/// The count the text states: `VIBE_REPOSITORY_COUNT` when it reads as a number, else the
/// number of repositories.
pub open spec fn stated_count(env: Map<Seq<char>, Seq<char>>, n: nat) -> nat {
    match env_get(env, "VIBE_REPOSITORY_COUNT"@) {
        Some(v) => match parse_usize_spec(trim_spec(v, CharClass::Whitespace)) {
            Some(c) => c,
            None => n,
        },
        None => n,
    }
}

proof fn lemma_first_primary_summary(s: Seq<SummaryView>)
    ensures
        match first_primary_summary(s) {
            Some(i) => 0 <= i < s.len() && s[i].is_primary && forall|j: int| 0 <= j < i ==> !(#[trigger] s[j]).is_primary,
            None => forall|j: int| 0 <= j < s.len() ==> !(#[trigger] s[j]).is_primary,
        },
    decreases s.len(),
{
    if s.len() > 0 && !s[0].is_primary {
        let t = s.drop_first();
        lemma_first_primary_summary(t);
        assert forall|j: int| 0 < j < s.len() implies s[j] == t[j - 1] by {}
    }
}

fn text(s: &str) -> (r: String)
    ensures
        r@ == s@,
{
    String::from_str(s)
}

fn head_text(repo: &RepoSummary) -> (r: String)
    ensures
        r@ == head_line(summary_view(*repo)),
{
    let mut out = text("\n- `");
    out.append(repo.prefix.as_str());
    out.append("` — ");
    out.append(repo.name_display());
    if repo.is_primary {
        out.append(" (primary)");
    }
    out.append("\n");
    proof {
        assert(out@ =~= head_line(summary_view(*repo)));
    }
    out
}

fn path_text(repo: &RepoSummary) -> (r: String)
    ensures
        r@ == path_line(summary_view(*repo)),
{
    match &repo.path {
        Some(p) => {
            let mut out = text("  - Path: `");
            out.append(p.as_str());
            out.append("`\n");
            out
        },
        None => text("  - Path: <unavailable>\n"),
    }
}

fn root_text(repo: &RepoSummary) -> (r: String)
    ensures
        r@ == root_line(summary_view(*repo)),
{
    let mut out = text("  - Root: `");
    out.append(repo.root_display());
    out.append("` (effective workdir: `");
    out.append(repo.effective_dir_display());
    out.append("`)\n");
    out
}

fn branch_text(repo: &RepoSummary) -> (r: String)
    ensures
        r@ == branch_line(summary_view(*repo)),
{
    let mut out = text("  - Branch: `");
    out.append(repo.branch_display());
    out.append("` (base: `");
    out.append(repo.base_branch_display());
    out.append("`)\n");
    out
}

fn env_vars_text(p: &str) -> (r: String)
    ensures
        r@ == env_vars_line(p@),
{
    let mut out = text("  - Env vars: `VIBE_REPO_");
    out.append(p);
    out.append("_PATH`, `VIBE_REPO_");
    out.append(p);
    out.append("_ROOT`, `VIBE_REPO_");
    out.append(p);
    out.append("_BRANCH`, `VIBE_REPO_");
    out.append(p);
    out.append("_BASE_BRANCH`, `VIBE_REPO_");
    out.append(p);
    out.append("_NAME`, `VIBE_REPO_");
    out.append(p);
    out.append("_IS_PRIMARY`\n");
    out
}

fn section_text(repo: &RepoSummary) -> (r: String)
    ensures
        r@ == section(summary_view(*repo)),
{
    let mut out = head_text(repo);
    out.append(path_text(repo).as_str());
    out.append(root_text(repo).as_str());
    out.append(branch_text(repo).as_str());
    out.append(env_vars_text(repo.prefix.as_str()).as_str());
    if repo.root.as_str().unicode_len() > 0 {
        out.append("  - Note: repo is scoped to a subdirectory; operate relative to the effective workdir.\n");
    }
    proof {
        assert(out@ =~= section(summary_view(*repo)));
    }
    out
}

/// The instructions for the repositories the environment describes, or `None` when it
/// describes none.
pub fn format_repository_instructions(env: &EnvMap) -> (r: Option<String>)
    ensures
        exists|ps: Seq<Seq<char>>| {
            &&& collect_ok(env@, ps)
            &&& if ps.len() == 0 {
                r.is_none()
            } else {
                let sorted = sorted_summaries(
                    ps.map_values(|p: Seq<char>| view_of(p, env@)),
                    clean_spec(env_get(env@, "VIBE_PRIMARY_REPO_PREFIX"@)),
                );
                r is Some && r.unwrap()@ == instructions_text(sorted, stated_count(env@, ps.len()))
            }
        },
{
    let repos0 = build_repository_summaries(env);
    let ghost ps = choose|ps: Seq<Seq<char>>|
        collect_ok(env@, ps) && summaries_view(repos0@) == ps.map_values(|p: Seq<char>| view_of(p, env@));
    if repos0.len() == 0 {
        assert(ps.len() == 0);
        return None;
    }
    let n = repos0.len();
    let count_raw = env.get("VIBE_REPOSITORY_COUNT");
    let count: usize = match count_raw {
        Some(v) => match parse_usize(trim_ws(v.as_str()).as_str()) {
            Some(c) => c,
            None => n,
        },
        None => n,
    };
    let primary_raw = env.get("VIBE_PRIMARY_REPO_PREFIX");
    let primary = clean_string(as_ref_opt(&primary_raw));
    let repos = sort_summaries(repos0, &primary);
    let ghost sorted = summaries_view(repos@);
    let mut out = text("## Repository Context\n");
    out.append("- Repositories available: ");
    out.append(decimal(count).as_str());
    out.append(" (");
    let mut names: Vec<String> = Vec::new();
    let mut i: usize = 0;
    while i < repos.len()
        invariant
            i <= repos@.len(),
            strings_view(names@) == sorted.subrange(0, i as int).map_values(|v: SummaryView| v.prefix),
            sorted == summaries_view(repos@),
        decreases repos@.len() - i,
    {
        let ghost before = strings_view(names@);
        names.push(repos[i].prefix.clone());
        proof {
            assert(sorted[i as int].prefix == repos@[i as int].prefix@);
            assert(strings_view(names@) =~= before.push(repos@[i as int].prefix@));
            assert(strings_view(names@) =~= sorted.subrange(0, i + 1).map_values(|v: SummaryView| v.prefix));
        }
        i = i + 1;
    }
    assert(sorted.subrange(0, i as int) =~= sorted);
    out.append(join(&names, ", ").as_str());
    out.append(")\n");
    let ghost head = out@;
    // the primary line
    let mut k: usize = 0;
    while k < repos.len() && !repos[k].is_primary
        invariant
            k <= repos@.len(),
            sorted == summaries_view(repos@),
            forall|j: int| 0 <= j < k ==> !(#[trigger] sorted[j]).is_primary,
        decreases repos@.len() - k,
    {
        assert(sorted[k as int].is_primary == repos@[k as int].is_primary);
        k = k + 1;
    }
    proof {
        lemma_first_primary_summary(sorted);
        if k < repos@.len() {
            assert(sorted[k as int].is_primary == repos@[k as int].is_primary);
        }
    }
    if k < repos.len() {
        let p = &repos[k];
        out.append("- Primary repository: `");
        out.append(p.prefix.as_str());
        out.append("` — ");
        out.append(p.name_display());
        out.append(" (workdir: `");
        out.append(p.effective_dir_display());
        out.append("`)\n");
    } else {
        let f = &repos[0];
        out.append("- No explicit primary repo flagged; default to `");
        out.append(f.prefix.as_str());
        out.append("` (workdir: `");
        out.append(f.effective_dir_display());
        out.append("`) unless instructed otherwise\n");
    }
    proof {
        assert(out@ =~= head + primary_line(sorted));
    }
    out.append("- Always set `workdir` in commands/tools to the repo you are touching (see effective directories below).\n");
    out.append("- When referencing files, prefix paths with the repo name if they are outside the primary repo.\n");
    out.append("- Use the `VIBE_REPO_<PREFIX>_*` variables for automation; `VIBE_PRIMARY_REPO_*` mirrors the current primary.\n");
    let ghost body = out@;
    assert(body =~= head + primary_line(sorted) + guidance());
    let mut j: usize = 0;
    while j < repos.len()
        invariant
            j <= repos@.len(),
            sorted == summaries_view(repos@),
            out@ == body + sections(sorted.subrange(0, j as int)),
        decreases repos@.len() - j,
    {
        let sec = section_text(&repos[j]);
        out.append(sec.as_str());
        proof {
            let nxt = sorted.subrange(0, j + 1);
            assert(nxt.drop_last() =~= sorted.subrange(0, j as int));
            assert(out@ =~= body + sections(nxt));
        }
        j = j + 1;
    }
    assert(sorted.subrange(0, j as int) =~= sorted);
    proof {
        assert(ps.len() == n);
        assert(count as nat == stated_count(env@, ps.len()));
        assert(out@ =~= instructions_text(sorted, count as nat));
    }
    Some(out)
}

/// The prompt, followed by the repository instructions when the environment describes
/// repositories: after a blank line, or after one newline when the prompt ends with one.
pub fn augment_prompt_with_repo_context(prompt: &str, env: Option<&EnvMap>) -> (r: String)
    ensures
        env.is_none() ==> r@ == prompt@,
        env.is_some() ==> match env.unwrap() {
            e => exists|ps: Seq<Seq<char>>| collect_ok(e@, ps) && if ps.len() == 0 {
                r@ == prompt@
            } else {
                let sorted = sorted_summaries(
                    ps.map_values(|p: Seq<char>| view_of(p, e@)),
                    clean_spec(env_get(e@, "VIBE_PRIMARY_REPO_PREFIX"@)),
                );
                r@ == prompt@ + (if prompt@.len() > 0 && prompt@.last() == '\n' {
                    "\n"@
                } else {
                    "\n\n"@
                }) + instructions_text(sorted, stated_count(e@, ps.len()))
            },
        },
{
    match env {
        Some(e) => {
            let inst = format_repository_instructions(e);
            match inst {
                Some(text_block) => {
                    let mut combined = String::from_str(prompt);
                    if !ends_with_char(prompt, '\n') {
                        combined.append("\n\n");
                    } else {
                        combined.append("\n");
                    }
                    combined.append(text_block.as_str());
                    combined
                },
                None => String::from_str(prompt),
            }
        },
        None => String::from_str(prompt),
    }
}

} // verus!
