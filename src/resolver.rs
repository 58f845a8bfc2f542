//! Attribution of diffs to the repositories of an attempt: the repository whose root is
//! the longest prefix of the file's path, else the primary.

use vstd::prelude::*;
use vstd::string::*;
use vstd::utf8::encode_utf8;
use crate::diff::Diff;
use crate::models::{ProjectRepository, TaskAttemptRepository};
use crate::payload::find_entry;
use crate::strings::{
    replace_char, replace_char_spec, same_text, starts_with, trim_class, trim_spec,
    trim_start_class, trim_start_spec, CharClass,
};
use crate::payload::{find_attempt_entry, opt_view};

verus! {

/// A repository as the attribution sees it: a normalized root and the primary flag.
#[derive(Clone, Debug)]
pub struct RepositoryInfo {
    pub id: u128,
    pub name: String,
    pub root: String,
    pub is_primary: bool,
}

/// A root as stored, with `\` read as `/` and no `/` at either end.
pub open spec fn repo_root_spec(raw: Seq<char>) -> Seq<char> {
    trim_spec(replace_char_spec(raw, '\\', seq!['/']), CharClass::Slash)
}

pub fn normalize_repo_root(raw: &str) -> (r: String)
    ensures
        r@ == repo_root_spec(raw@),
{
    let replaced = replace_char(raw, '\\', "/");
    proof {
        reveal_strlit("/");
        assert("/"@ =~= seq!['/']);
    }
    trim_class(replaced.as_str(), CharClass::Slash)
}

/// A diff path without one leading `./` and without leading `/`.
pub open spec fn diff_path_spec(path: Seq<char>) -> Seq<char> {
    let p = if path.len() >= 2 && path[0] == '.' && path[1] == '/' {
        path.subrange(2, path.len() as int)
    } else {
        path
    };
    trim_start_spec(p, CharClass::Slash)
}

pub fn normalize_diff_path(path: &str) -> (r: String)
    ensures
        r@ == diff_path_spec(path@),
{
    let len = path.unicode_len();
    if len >= 2 && path.get_char(0) == '.' && path.get_char(1) == '/' {
        trim_start_class(path.substring_char(2, len), CharClass::Slash)
    } else {
        trim_start_class(path, CharClass::Slash)
    }
}

/// The path a diff is known by: its new path, else its old path, else empty.
pub open spec fn source_path(d: Diff) -> Seq<char> {
    match d.new_path {
        Some(p) => p@,
        None => match d.old_path {
            Some(p) => p@,
            None => Seq::empty(),
        },
    }
}

/// The key of a diff: its new path, else its old path.
pub fn diff_path(d: &Diff) -> (r: String)
    ensures
        r@ == source_path(*d),
{
    match &d.new_path {
        Some(p) => p.clone(),
        None => match &d.old_path {
            Some(p) => p.clone(),
            None => String::new(),
        },
    }
}

/// A repository with root `root` holds `path`: an empty root holds everything; else the
/// path is the root or lies below it.
pub open spec fn root_holds(root: Seq<char>, path: Seq<char>) -> bool {
    root.len() == 0 || path == root || (root.len() + 1 <= path.len() && path.subrange(
        0,
        root.len() + 1 as int,
    ) == root.push('/'))
}

impl RepositoryInfo {
    pub fn new(repo: &ProjectRepository, is_primary: bool) -> (r: RepositoryInfo)
        ensures
            r.id == repo.id,
            r.name@ == repo.name@,
            r.root@ == repo_root_spec(repo.root_path@),
            r.is_primary == is_primary,
    {
        RepositoryInfo {
            id: repo.id,
            name: repo.name.clone(),
            root: normalize_repo_root(repo.root_path.as_str()),
            is_primary,
        }
    }

    pub fn matches(&self, path: &str) -> (r: bool)
        ensures
            r == root_holds(self.root@, path@),
    {
        if self.root.as_str().unicode_len() == 0 {
            return true;
        }
        if same_text(path, self.root.as_str()) {
            return true;
        }
        let mut prefix = self.root.clone();
        prefix.append("/");
        proof {
            reveal_strlit("/");
            assert(prefix@ =~= self.root@.push('/'));
        }
        starts_with(path, prefix.as_str())
    }
}

/// Length of a repository's root in bytes.
pub open spec fn root_bytes(r: RepositoryInfo) -> nat {
    (encode_utf8(r.root@).len() as usize) as nat
}

/// `i` is the repository chosen for `path`: it holds the path, no holder has a longer
/// root, and no earlier holder has a root as long.
pub open spec fn is_best_match(repos: Seq<RepositoryInfo>, path: Seq<char>, i: int) -> bool {
    &&& 0 <= i < repos.len()
    &&& root_holds(repos[i].root@, path)
    &&& forall|j: int|
        0 <= j < repos.len() && root_holds((#[trigger] repos[j]).root@, path) ==> root_bytes(repos[j])
            <= root_bytes(repos[i])
    &&& forall|j: int|
        0 <= j < i && root_holds((#[trigger] repos[j]).root@, path) ==> root_bytes(repos[j])
            < root_bytes(repos[i])
}

/// `i` is the primary of the lookup: among primaries (or, without any, among all) the one
/// with the longest root, the first among equals.
pub open spec fn is_primary_choice(repos: Seq<RepositoryInfo>, i: int) -> bool {
    let any_primary = exists|j: int| 0 <= j < repos.len() && (#[trigger] repos[j]).is_primary;
    &&& 0 <= i < repos.len()
    &&& (any_primary ==> repos[i].is_primary)
    &&& forall|j: int|
        0 <= j < repos.len() && (!any_primary || (#[trigger] repos[j]).is_primary) ==> root_bytes(repos[j])
            <= root_bytes(repos[i])
    &&& forall|j: int|
        0 <= j < i && (!any_primary || (#[trigger] repos[j]).is_primary) ==> root_bytes(repos[j])
            < root_bytes(repos[i])
}

/// Repositories of an attempt, for attributing paths.
#[derive(Clone, Debug)]
pub struct RepositoryLookup {
    pub repos: Vec<RepositoryInfo>,
}

/// Whether a project repository takes part in the attempt and with which primary flag.
pub open spec fn member_flag(r: ProjectRepository, entries: Seq<TaskAttemptRepository>) -> Option<bool> {
    if entries.len() == 0 {
        Some(r.is_primary)
    } else {
        match find_entry(entries, r.id) {
            Some(e) => Some(e.is_primary),
            None => None,
        }
    }
}

pub open spec fn info_matches(info: RepositoryInfo, r: ProjectRepository, flag: bool) -> bool {
    info.id == r.id && info.name@ == r.name@ && info.root@ == repo_root_spec(r.root_path@)
        && info.is_primary == flag
}

/// The repositories that take part, in project order, each with its flag.
pub open spec fn members(
    prs: Seq<ProjectRepository>,
    entries: Seq<TaskAttemptRepository>,
) -> Seq<(ProjectRepository, bool)>
    decreases prs.len(),
{
    if prs.len() == 0 {
        Seq::empty()
    } else {
        let rest = members(prs.drop_last(), entries);
        match member_flag(prs.last(), entries) {
            Some(f) => rest.push((prs.last(), f)),
            None => rest,
        }
    }
}

/// The repositories that take part, in project order: those with a membership row (all of
/// the project's when the attempt has none), flagged as primary by their row or else by
/// the project; the project's first repository, as primary, when none takes part.
pub open spec fn members_ok(
    b: Seq<RepositoryInfo>,
    prs: Seq<ProjectRepository>,
    ars: Seq<TaskAttemptRepository>,
) -> bool {
    let m = members(prs, ars);
    if m.len() == 0 && prs.len() > 0 {
        b.len() == 1 && info_matches(b[0], prs[0], true)
    } else {
        b.len() == m.len() && forall|i: int| 0 <= i < m.len() ==> info_matches(#[trigger] b[i], m[i].0, m[i].1)
    }
}

/// The repository chosen for `path`, if any holds it.
pub open spec fn best_match_index(repos: Seq<RepositoryInfo>, path: Seq<char>) -> Option<int> {
    if exists|i: int| is_best_match(repos, path, i) {
        Some(choose|i: int| is_best_match(repos, path, i))
    } else {
        None
    }
}

/// The primary of a lookup, if it has repositories.
pub open spec fn primary_index(repos: Seq<RepositoryInfo>) -> Option<int> {
    if exists|i: int| is_primary_choice(repos, i) {
        Some(choose|i: int| is_primary_choice(repos, i))
    } else {
        None
    }
}

/// The id of the repository that holds a raw path.
pub open spec fn matched_id(repos: Seq<RepositoryInfo>, raw: Seq<char>) -> Option<u128> {
    match best_match_index(repos, diff_path_spec(raw)) {
        Some(i) => Some(repos[i].id),
        None => None,
    }
}

/// A diff tagged with the repository that holds its path, else the primary; untagged when
/// the lookup is empty.
pub open spec fn annotated(repos: Seq<RepositoryInfo>, d: Diff) -> Diff {
    let p = diff_path_spec(diff_path_spec(source_path(d)));
    let chosen = match best_match_index(repos, p) {
        Some(i) => Some(i),
        None => primary_index(repos),
    };
    match chosen {
        Some(i) => Diff {
            repository_id: Some(repos[i].id),
            repository_name: Some(repos[i].name),
            repository_root: if repos[i].root@.len() == 0 {
                None
            } else {
                Some(repos[i].root)
            },
            ..d
        },
        None => Diff { repository_id: None, repository_name: None, repository_root: None, ..d },
    }
}

proof fn lemma_best_unique(repos: Seq<RepositoryInfo>, path: Seq<char>, i: int)
    requires
        is_best_match(repos, path, i),
    ensures
        best_match_index(repos, path) == Some(i),
{
    let j = choose|j: int| is_best_match(repos, path, j);
    if j < i {
        assert(root_bytes(repos[j]) < root_bytes(repos[i]));
    } else if i < j {
        assert(root_bytes(repos[i]) < root_bytes(repos[j]));
    }
}

proof fn lemma_primary_unique(repos: Seq<RepositoryInfo>, i: int)
    requires
        is_primary_choice(repos, i),
    ensures
        primary_index(repos) == Some(i),
{
    let j = choose|j: int| is_primary_choice(repos, j);
    let any_primary = exists|k: int| 0 <= k < repos.len() && (#[trigger] repos[k]).is_primary;
    if j < i {
        assert(!any_primary || repos[j].is_primary);
        assert(root_bytes(repos[j]) < root_bytes(repos[i]));
    } else if i < j {
        assert(!any_primary || repos[i].is_primary);
        assert(root_bytes(repos[i]) < root_bytes(repos[j]));
    }
}

/// Where a stable insertion by descending root length puts `x`: before the first item
/// with a shorter root.
pub open spec fn root_insert_pos(s: Seq<RepositoryInfo>, x: RepositoryInfo) -> nat
    decreases s.len(),
{
    if s.len() == 0 {
        0
    } else if root_bytes(s[0]) < root_bytes(x) {
        0
    } else {
        1 + root_insert_pos(s.drop_first(), x)
    }
}

/// The stable sort of `s` by descending root length.
pub open spec fn sorted_infos(s: Seq<RepositoryInfo>) -> Seq<RepositoryInfo>
    decreases s.len(),
{
    if s.len() == 0 {
        s
    } else {
        let t = sorted_infos(s.drop_last());
        t.insert(root_insert_pos(t, s.last()) as int, s.last())
    }
}

proof fn lemma_root_insert_pos(s: Seq<RepositoryInfo>, x: RepositoryInfo, k: int)
    requires
        0 <= k <= s.len(),
        forall|j: int| 0 <= j < k ==> root_bytes(#[trigger] s[j]) >= root_bytes(x),
        k == s.len() || root_bytes(s[k]) < root_bytes(x),
    ensures
        root_insert_pos(s, x) == k,
    decreases k,
{
    if k > 0 {
        let t = s.drop_first();
        assert(root_bytes(s[0]) >= root_bytes(x));
        assert forall|j: int| 0 <= j < k - 1 implies root_bytes(#[trigger] t[j]) >= root_bytes(x) by {
            assert(t[j] == s[j + 1]);
        }
        if k < s.len() {
            assert(t[k - 1] == s[k]);
        }
        lemma_root_insert_pos(t, x, k - 1);
    }
}

/// Sorts repositories by descending root length, keeping the order of equal lengths.
#[verifier::loop_isolation(false)]
fn sort_by_root(v: Vec<RepositoryInfo>) -> (r: Vec<RepositoryInfo>)
    ensures
        r@ == sorted_infos(v@),
        forall|i: int| 0 <= i < r@.len() - 1 ==> root_bytes(#[trigger] r@[i]) >= root_bytes(r@[i + 1]),
{
    let ghost input = v@;
    let mut src = v;
    let mut out: Vec<RepositoryInfo> = Vec::new();
    let n = src.len();
    let mut i: usize = 0;
    while src.len() > 0
        invariant
            i + src@.len() == n,
            n == input.len(),
            src@ == input.subrange(i as int, n as int),
            out@ == sorted_infos(input.subrange(0, i as int)),
            forall|j: int| 0 <= j < out@.len() - 1 ==> root_bytes(#[trigger] out@[j]) >= root_bytes(out@[j + 1]),
        decreases src@.len(),
    {
        let ghost before_src = src@;
        let x = src.remove(0);
        proof {
            assert(x == input[i as int]);
            assert(src@ =~= input.subrange(i + 1, n as int));
        }
        let xl = x.root.as_str().len();
        let mut k: usize = 0;
        while k < out.len() && out[k].root.as_str().len() >= xl
            invariant
                k <= out@.len(),
                xl as nat == root_bytes(x),
                forall|j: int| 0 <= j < k ==> root_bytes(#[trigger] out@[j]) >= root_bytes(x),
            decreases out@.len() - k,
        {
            k = k + 1;
        }
        let ghost ov = out@;
        proof {
            lemma_root_insert_pos(ov, x, k as int);
        }
        out.insert(k, x);
        proof {
            let pre = input.subrange(0, i as int);
            let nxt = input.subrange(0, i + 1);
            assert(nxt.drop_last() =~= pre);
            assert(out@ =~= ov.insert(k as int, x));
            assert forall|j: int| 0 <= j < out@.len() - 1 implies root_bytes(#[trigger] out@[j]) >= root_bytes(out@[j + 1]) by {
                if j < k - 1 {
                    assert(out@[j] == ov[j] && out@[j + 1] == ov[j + 1]);
                } else if j == k - 1 {
                    assert(out@[j] == ov[j] && out@[j + 1] == x);
                } else if j == k {
                    assert(out@[j] == x && out@[j + 1] == ov[j]);
                } else {
                    assert(out@[j] == ov[j - 1] && out@[j + 1] == ov[j]);
                }
            }
        }
        i = i + 1;
    }
    assert(input.subrange(0, n as int) =~= input);
    out
}

impl RepositoryLookup {
    /// The repositories of an attempt: those with a membership row (all of the project's
    /// when the attempt has no rows), flagged as primary by their row or else by the
    /// project; the project's first repository, as primary, when none takes part.
    pub fn from_project_and_attempt(
        project_repositories: &Vec<ProjectRepository>,
        attempt_repositories: &Vec<TaskAttemptRepository>,
    ) -> (r: RepositoryLookup)
        ensures
            exists|b: Seq<RepositoryInfo>|
                members_ok(b, project_repositories@, attempt_repositories@) && r.repos@
                    == sorted_infos(b),
            forall|i: int|
                0 <= i < r.repos@.len() - 1 ==> root_bytes(#[trigger] r.repos@[i]) >= root_bytes(
                    r.repos@[i + 1],
                ),
    {
        let base = Self::collect_members(project_repositories, attempt_repositories);
        let ghost b = base@;
        let repos = sort_by_root(base);
        RepositoryLookup { repos }
    }

    fn collect_members(
        project_repositories: &Vec<ProjectRepository>,
        attempt_repositories: &Vec<TaskAttemptRepository>,
    ) -> (r: Vec<RepositoryInfo>)
        ensures
            members_ok(r@, project_repositories@, attempt_repositories@),
    {
        let mut repos: Vec<RepositoryInfo> = Vec::new();
        let no_rows = attempt_repositories.len() == 0;
        let mut i: usize = 0;
        while i < project_repositories.len()
            invariant
                i <= project_repositories@.len(),
                no_rows == (attempt_repositories@.len() == 0),
                ({
                    let m = members(project_repositories@.subrange(0, i as int), attempt_repositories@);
                    repos@.len() == m.len() && forall|k: int|
                        0 <= k < m.len() ==> info_matches(#[trigger] repos@[k], m[k].0, m[k].1)
                }),
            decreases project_repositories@.len() - i,
        {
            let repo = &project_repositories[i];
            let ghost pre = project_repositories@.subrange(0, i as int);
            let ghost m0 = members(pre, attempt_repositories@);
            let flag: Option<bool> = if no_rows {
                Some(repo.is_primary)
            } else {
                match find_attempt_entry(attempt_repositories, repo.id) {
                    Some(e) => Some(e.is_primary),
                    None => None,
                }
            };
            match flag {
                Some(f) => {
                    repos.push(RepositoryInfo::new(repo, f));
                },
                None => {},
            }
            proof {
                let nxt = project_repositories@.subrange(0, i + 1);
                assert(nxt.drop_last() =~= pre);
                assert(flag == member_flag(*repo, attempt_repositories@));
                let m1 = members(nxt, attempt_repositories@);
                assert forall|k: int| 0 <= k < m1.len() implies info_matches(#[trigger] repos@[k], m1[k].0, m1[k].1) by {
                    if k < m0.len() {
                        assert(m1[k] == m0[k]);
                    }
                }
            }
            i = i + 1;
        }
        assert(project_repositories@.subrange(0, i as int) =~= project_repositories@);
        if repos.len() == 0 && project_repositories.len() > 0 {
            repos.push(RepositoryInfo::new(&project_repositories[0], true));
        }
        repos
    }

    /// The repository that holds `raw_path` (normalized first), longest root first.
    pub fn match_path(&self, raw_path: &str) -> (r: Option<&RepositoryInfo>)
        ensures
            match r {
                Some(info) => exists|i: int|
                    is_best_match(self.repos@, diff_path_spec(raw_path@), i) && self.repos@[i] == *info,
                None => forall|j: int|
                    0 <= j < self.repos@.len() ==> !root_holds(
                        (#[trigger] self.repos@[j]).root@,
                        diff_path_spec(raw_path@),
                    ),
            },
            match r {
                Some(info) => matched_id(self.repos@, raw_path@) == Some(info.id),
                None => matched_id(self.repos@, raw_path@).is_none(),
            },
    {
        let path = normalize_diff_path(raw_path);
        let ghost p = path@;
        let mut best: Option<usize> = None;
        let mut i: usize = 0;
        while i < self.repos.len()
            invariant
                i <= self.repos@.len(),
                p == diff_path_spec(raw_path@),
                path@ == p,
                match best {
                    Some(b) => is_best_match(self.repos@.subrange(0, i as int), p, b as int),
                    None => forall|j: int| 0 <= j < i ==> !root_holds((#[trigger] self.repos@[j]).root@, p),
                },
            decreases self.repos@.len() - i,
        {
            let ghost pre = self.repos@.subrange(0, i as int);
            let ghost nxt = self.repos@.subrange(0, i + 1);
            if self.repos[i].matches(path.as_str()) {
                match best {
                    Some(b) => {
                        if self.repos[i].root.as_str().len() > self.repos[b].root.as_str().len() {
                            best = Some(i);
                        }
                    },
                    None => {
                        best = Some(i);
                    },
                }
            }
            proof {
                match best {
                    Some(b) => {
                        assert(nxt[b as int] == self.repos@[b as int]);
                        assert forall|j: int|
                            0 <= j < nxt.len() && root_holds((#[trigger] nxt[j]).root@, p) implies root_bytes(nxt[j])
                                <= root_bytes(nxt[b as int]) by {
                            if j < i {
                                assert(nxt[j] == pre[j]);
                            }
                        }
                        assert forall|j: int|
                            0 <= j < b && root_holds((#[trigger] nxt[j]).root@, p) implies root_bytes(nxt[j])
                                < root_bytes(nxt[b as int]) by {
                            assert(nxt[j] == pre[j]);
                        }
                    },
                    None => {},
                }
            }
            i = i + 1;
        }
        assert(self.repos@.subrange(0, i as int) =~= self.repos@);
        proof {
            match best {
                Some(b) => {
                    lemma_best_unique(self.repos@, p, b as int);
                },
                None => {
                    if exists|k: int| is_best_match(self.repos@, p, k) {
                        let k = choose|k: int| is_best_match(self.repos@, p, k);
                        assert(root_holds(self.repos@[k].root@, p));
                    }
                },
            }
        }
        match best {
            Some(b) => Some(&self.repos[b]),
            None => None,
        }
    }

    /// The primary repository of the lookup; `None` only when it is empty.
    pub fn primary(&self) -> (r: Option<&RepositoryInfo>)
        ensures
            match r {
                Some(info) => exists|i: int| is_primary_choice(self.repos@, i) && self.repos@[i] == *info,
                None => self.repos@.len() == 0,
            },
    {
        let mut any = false;
        let mut k: usize = 0;
        while k < self.repos.len()
            invariant
                k <= self.repos@.len(),
                any == exists|j: int| 0 <= j < k && (#[trigger] self.repos@[j]).is_primary,
            decreases self.repos@.len() - k,
        {
            if self.repos[k].is_primary {
                any = true;
            }
            k = k + 1;
        }
        let ghost rs = self.repos@;
        let mut best: Option<usize> = None;
        let mut i: usize = 0;
        while i < self.repos.len()
            invariant
                i <= rs.len(),
                rs == self.repos@,
                any == exists|j: int| 0 <= j < rs.len() && (#[trigger] rs[j]).is_primary,
                match best {
                    Some(b) => b < i && (any ==> rs[b as int].is_primary)
                        && (forall|j: int| 0 <= j < i && (!any || (#[trigger] rs[j]).is_primary) ==> root_bytes(rs[j]) <= root_bytes(rs[b as int]))
                        && (forall|j: int| 0 <= j < b && (!any || (#[trigger] rs[j]).is_primary) ==> root_bytes(rs[j]) < root_bytes(rs[b as int])),
                    None => (!any ==> i == 0) && (any ==> forall|j: int| 0 <= j < i ==> !(#[trigger] rs[j]).is_primary),
                },
            decreases rs.len() - i,
        {
            if !any || self.repos[i].is_primary {
                match best {
                    Some(b) => {
                        if self.repos[i].root.as_str().len() > self.repos[b].root.as_str().len() {
                            best = Some(i);
                        }
                    },
                    None => {
                        best = Some(i);
                    },
                }
            }
            i = i + 1;
        }
        match best {
            Some(b) => Some(&self.repos[b]),
            None => {
                proof {
                    assert(i == rs.len());
                    if rs.len() > 0 {
                        if any {
                            let j = choose|j: int| 0 <= j < rs.len() && (#[trigger] rs[j]).is_primary;
                            assert(!(!any || rs[j].is_primary));
                        }
                    }
                }
                None
            },
        }
    }

    /// Tags a diff with the repository that holds its path (new path, else old path),
    /// falling back to the primary; clears the tags when the lookup is empty. Returns the
    /// repository's id.
    pub fn annotate_diff(&self, diff: &mut Diff) -> (r: Option<u128>)
        ensures
            ({
                let p = diff_path_spec(diff_path_spec(source_path(*old(diff))));
                let holders = exists|j: int| 0 <= j < self.repos@.len() && root_holds((#[trigger] self.repos@[j]).root@, p);
                match r {
                    Some(id) => exists|i: int| {
                        &&& (if holders { is_best_match(self.repos@, p, i) } else { is_primary_choice(self.repos@, i) })
                        &&& #[trigger] self.repos@[i].id == id
                        &&& final(diff).repository_id == Some(id)
                        &&& opt_view(final(diff).repository_name) == Some(self.repos@[i].name@)
                        &&& opt_view(final(diff).repository_root) == if self.repos@[i].root@.len() == 0 {
                            None
                        } else {
                            Some(self.repos@[i].root@)
                        }
                    },
                    None => self.repos@.len() == 0 && final(diff).repository_id.is_none()
                        && final(diff).repository_name.is_none() && final(diff).repository_root.is_none(),
                }
            }),
            final(diff).old_path == old(diff).old_path,
            final(diff).new_path == old(diff).new_path,
            final(diff).old_content == old(diff).old_content,
            final(diff).new_content == old(diff).new_content,
            final(diff).additions == old(diff).additions,
            final(diff).deletions == old(diff).deletions,
            final(diff).content_omitted == old(diff).content_omitted,
            *final(diff) == annotated(self.repos@, *old(diff)),
            r == final(diff).repository_id,
    {
        let raw = diff_path(diff);
        let path = normalize_diff_path(raw.as_str());
        let found = match self.match_path(path.as_str()) {
            Some(info) => Some(info),
            None => self.primary(),
        };
        proof {
            let p = diff_path_spec(diff_path_spec(source_path(*old(diff))));
            match found {
                Some(info) => {
                    let i = choose|i: int| (is_best_match(self.repos@, p, i) || is_primary_choice(self.repos@, i))
                        && self.repos@[i] == *info;
                    if is_best_match(self.repos@, p, i) {
                        lemma_best_unique(self.repos@, p, i);
                    } else {
                        assert(best_match_index(self.repos@, p).is_none()) by {
                            if best_match_index(self.repos@, p).is_some() {
                                let j = choose|j: int| is_best_match(self.repos@, p, j);
                                assert(0 <= j < self.repos@.len() && root_holds(self.repos@[j].root@, p));
                            }
                        }
                        lemma_primary_unique(self.repos@, i);
                    }
                },
                None => {
                    assert(best_match_index(self.repos@, p).is_none());
                    assert(primary_index(self.repos@).is_none());
                },
            }
        }
        match found {
            Some(info) => {
                diff.repository_id = Some(info.id);
                diff.repository_name = Some(info.name.clone());
                diff.repository_root = if info.root.as_str().unicode_len() == 0 {
                    None
                } else {
                    Some(info.root.clone())
                };
                Some(info.id)
            },
            None => {
                diff.repository_id = None;
                diff.repository_name = None;
                diff.repository_root = None;
                None
            },
        }
    }

}

} // verus!
