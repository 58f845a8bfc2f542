//! The repositories a new attempt works on, chosen from the project's repositories and
//! the caller's optional selection, with exactly one of them primary.

use vstd::prelude::*;
use vstd::string::*;
use crate::models::{CreateTaskAttemptRepository, ProjectRepository};
use crate::store::{
    has_repo, ids_unique, lemma_count_one_elim, lemma_count_zero_elim, primary_count,
};
use crate::strings::{trim_spec, trim_ws, CharClass};

verus! {

/// Errors of attempt creation.
#[derive(Clone, Debug)]
pub enum TaskAttemptError {
    ValidationError(String),
    TaskNotFound,
    ProjectNotFound,
    BranchNotFound(String),
}

/// A repository of a new attempt, whether it is the attempt's primary, and its base branch.
#[derive(Clone, Debug)]
pub struct RepositoryAssignment {
    pub project_repository_id: u128,
    pub is_primary: bool,
    pub base_branch: String,
}

/// Number of selections marked primary.
pub open spec fn selected_primary_count(sel: Seq<CreateTaskAttemptRepository>) -> nat
    decreases sel.len(),
{
    if sel.len() == 0 {
        0
    } else {
        selected_primary_count(sel.drop_last()) + if sel.last().is_primary {
            1nat
        } else {
            0nat
        }
    }
}

/// Index of the first primary repository, if any.
pub open spec fn first_primary(repos: Seq<ProjectRepository>) -> Option<int>
    decreases repos.len(),
{
    if repos.len() == 0 {
        None
    } else if repos[0].is_primary {
        Some(0)
    } else {
        match first_primary(repos.drop_first()) {
            Some(i) => Some(i + 1),
            None => None,
        }
    }
}

/// The repository an attempt falls back to as primary: the project's primary, else the
/// first repository.
pub open spec fn fallback_id(repos: Seq<ProjectRepository>) -> u128 {
    match first_primary(repos) {
        Some(i) => repos[i].id,
        None => repos[0].id,
    }
}

/// A caller's selection is acceptable: not empty, every id a repository of the project,
/// no id twice, at most one marked primary.
pub open spec fn selection_valid(repos: Seq<ProjectRepository>, sel: Seq<CreateTaskAttemptRepository>) -> bool {
    &&& sel.len() > 0
    &&& forall|i: int| 0 <= i < sel.len() ==> has_repo(repos, (#[trigger] sel[i]).project_repository_id)
    &&& forall|i: int, j: int|
        0 <= i < sel.len() && 0 <= j < sel.len() && i != j ==> (#[trigger] sel[i]).project_repository_id
            != (#[trigger] sel[j]).project_repository_id
    &&& selected_primary_count(sel) <= 1
}

pub open spec fn exactly_one_primary(v: Seq<RepositoryAssignment>) -> bool {
    &&& exists|i: int| 0 <= i < v.len() && (#[trigger] v[i]).is_primary
    &&& forall|i: int, j: int|
        0 <= i < v.len() && 0 <= j < v.len() && (#[trigger] v[i]).is_primary && (#[trigger] v[j]).is_primary ==> i == j
}

/// Base branch of a selection: its own when not blank, else the attempt's.
pub open spec fn chosen_base(own: Option<String>, base: Seq<char>) -> Seq<char> {
    match own {
        Some(b) => if trim_spec(b@, CharClass::Whitespace).len() > 0 {
            trim_spec(b@, CharClass::Whitespace)
        } else {
            base
        },
        None => base,
    }
}

proof fn lemma_first_primary(repos: Seq<ProjectRepository>)
    ensures
        match first_primary(repos) {
            Some(i) => 0 <= i < repos.len() && repos[i].is_primary && forall|j: int| 0 <= j < i ==> !(#[trigger] repos[j]).is_primary,
            None => forall|j: int| 0 <= j < repos.len() ==> !(#[trigger] repos[j]).is_primary,
        },
    decreases repos.len(),
{
    if repos.len() > 0 && !repos[0].is_primary {
        let t = repos.drop_first();
        lemma_first_primary(t);
        match first_primary(t) {
            Some(i) => {
                assert forall|j: int| 0 <= j < i + 1 implies !(#[trigger] repos[j]).is_primary by {
                    if j > 0 {
                        assert(repos[j] == t[j - 1]);
                    }
                }
            },
            None => {
                assert forall|j: int| 0 <= j < repos.len() implies !(#[trigger] repos[j]).is_primary by {
                    if j > 0 {
                        assert(repos[j] == t[j - 1]);
                    }
                }
            },
        }
    }
}

proof fn lemma_selected_count(sel: Seq<CreateTaskAttemptRepository>)
    ensures
        selected_primary_count(sel) == 0 <==> forall|j: int| 0 <= j < sel.len() ==> !(#[trigger] sel[j]).is_primary,
        selected_primary_count(sel) <= 1 ==> forall|i: int, j: int|
            0 <= i < sel.len() && 0 <= j < sel.len() && (#[trigger] sel[i]).is_primary && (#[trigger] sel[j]).is_primary ==> i == j,
        selected_primary_count(sel) >= 2 ==> exists|i: int, j: int|
            0 <= i < sel.len() && 0 <= j < sel.len() && i != j && (#[trigger] sel[i]).is_primary && (#[trigger] sel[j]).is_primary,
    decreases sel.len(),
{
    if sel.len() > 0 {
        let p = sel.drop_last();
        let n = sel.len() - 1;
        lemma_selected_count(p);
        assert forall|j: int| 0 <= j < n implies sel[j] == p[j] by {}
        if selected_primary_count(sel) >= 2 {
            if sel.last().is_primary {
                if selected_primary_count(p) >= 2 {
                    let (i, j) = choose|i: int, j: int|
                        0 <= i < p.len() && 0 <= j < p.len() && i != j && (#[trigger] p[i]).is_primary && (#[trigger] p[j]).is_primary;
                    assert(sel[i] == p[i] && sel[j] == p[j]);
                } else {
                    assert(selected_primary_count(p) >= 1);
                    if forall|j: int| 0 <= j < p.len() ==> !(#[trigger] p[j]).is_primary {
                        assert(false);
                    }
                    let i = choose|i: int| 0 <= i < p.len() && (#[trigger] p[i]).is_primary;
                    assert(sel[i] == p[i]);
                    assert(sel[n].is_primary);
                }
            } else {
                let (i, j) = choose|i: int, j: int|
                    0 <= i < p.len() && 0 <= j < p.len() && i != j && (#[trigger] p[i]).is_primary && (#[trigger] p[j]).is_primary;
                assert(sel[i] == p[i] && sel[j] == p[j]);
            }
        }
        if selected_primary_count(sel) <= 1 {
            assert forall|i: int, j: int|
                0 <= i < sel.len() && 0 <= j < sel.len() && (#[trigger] sel[i]).is_primary && (#[trigger] sel[j]).is_primary implies i == j by {
                if i < n && j < n {
                    assert(sel[i] == p[i] && sel[j] == p[j]);
                } else if i == n && j < n {
                    assert(sel[j] == p[j]);
                    assert(selected_primary_count(p) >= 1) by {
                        if selected_primary_count(p) == 0 {
                            assert(!p[j].is_primary);
                        }
                    }
                } else if j == n && i < n {
                    assert(sel[i] == p[i]);
                    assert(selected_primary_count(p) >= 1) by {
                        if selected_primary_count(p) == 0 {
                            assert(!p[i].is_primary);
                        }
                    }
                }
            }
        }
        if selected_primary_count(sel) == 0 {
            assert forall|j: int| 0 <= j < sel.len() implies !(#[trigger] sel[j]).is_primary by {
                if j < n {
                    assert(sel[j] == p[j]);
                }
            }
        } else {
            if forall|j: int| 0 <= j < sel.len() ==> !(#[trigger] sel[j]).is_primary {
                assert forall|j: int| 0 <= j < p.len() implies !(#[trigger] p[j]).is_primary by {
                    assert(sel[j] == p[j]);
                }
                assert(!sel[n].is_primary);
            }
        }
    }
}

pub open spec fn selection_view(sel: Option<Vec<CreateTaskAttemptRepository>>) -> Option<Seq<CreateTaskAttemptRepository>> {
    match sel {
        Some(v) => Some(v@),
        None => None,
    }
}

/// The repositories a new attempt gets. Without a selection: every repository of the
/// project in order, with its own primary flag (the first one primary when none is). With
/// a selection: the selected ones in order, each with its base branch; when none is marked
/// primary, the project's primary (else its first repository) becomes primary, appended at
/// the end when it was not selected. Exactly one is primary and no repository is listed
/// twice.
pub open spec fn assignments_spec(
    repos: Seq<ProjectRepository>,
    selection: Option<Seq<CreateTaskAttemptRepository>>,
    base: Seq<char>,
    v: Seq<RepositoryAssignment>,
) -> bool {
    &&& exactly_one_primary(v)
    &&& forall|i: int| 0 <= i < v.len() ==> has_repo(repos, (#[trigger] v[i]).project_repository_id)
    &&& forall|i: int, j: int|
        0 <= i < v.len() && 0 <= j < v.len() && i != j ==> (#[trigger] v[i]).project_repository_id
            != (#[trigger] v[j]).project_repository_id
    &&& match selection {
        None => v.len() == repos.len() && forall|i: int|
            0 <= i < v.len() ==> (#[trigger] v[i]).project_repository_id == repos[i].id
                && v[i].base_branch@ == base
                && v[i].is_primary == (repos[i].is_primary || (primary_count(repos) == 0 && i == 0)),
        Some(sel) => {
            &&& sel.len() <= v.len() <= sel.len() + 1
            &&& forall|i: int|
                0 <= i < sel.len() ==> (#[trigger] v[i]).project_repository_id == sel[i].project_repository_id
                    && v[i].base_branch@ == chosen_base(sel[i].base_branch, base)
                    && v[i].is_primary == (sel[i].is_primary || (selected_primary_count(sel) == 0
                    && sel[i].project_repository_id == fallback_id(repos)))
            &&& (v.len() == sel.len() + 1 <==> (selected_primary_count(sel) == 0 && forall|i: int|
                0 <= i < sel.len() ==> (#[trigger] sel[i]).project_repository_id != fallback_id(repos)))
            &&& v.len() == sel.len() + 1 ==> v.last().project_repository_id == fallback_id(repos)
                && v.last().is_primary && v.last().base_branch@ == base
        },
    }
}

/// Base branch for a selection entry.
fn pick_base(own: &Option<String>, base_branch: &String) -> (r: String)
    ensures
        r@ == chosen_base(*own, base_branch@),
{
    match own {
        Some(b) => {
            let t = trim_ws(b.as_str());
            if t.as_str().unicode_len() > 0 {
                t
            } else {
                base_branch.clone()
            }
        },
        None => base_branch.clone(),
    }
}

/// The repositories of a new attempt. Without a selection, every repository of the project
/// with its own primary flag (the first one primary when none is). With a selection, the
/// selected ones in order; when none is marked primary, the project's primary (else its
/// first repository) becomes the attempt's primary, appended when it was not selected.
#[verifier::loop_isolation(false)]
pub fn resolve_attempt_repositories(
    repos: &Vec<ProjectRepository>,
    selection: &Option<Vec<CreateTaskAttemptRepository>>,
    base_branch: &String,
) -> (r: Result<Vec<RepositoryAssignment>, TaskAttemptError>)
    requires
        ids_unique(repos@),
    ensures
        r is Ok <==> (repos@.len() > 0 && match selection {
            None => primary_count(repos@) <= 1,
            Some(sel) => selection_valid(repos@, sel@),
        }),
        r matches Ok(v) ==> assignments_spec(repos@, selection_view(*selection), base_branch@, v@),
{
    if repos.len() == 0 {
        return Err(TaskAttemptError::ValidationError(String::from_str("Project must have at least one repository")));
    }
    proof {
        lemma_first_primary(repos@);
    }
    let mut out: Vec<RepositoryAssignment> = Vec::new();
    match selection {
        None => {
            let mut count: usize = 0;
            let mut i: usize = 0;
            while i < repos.len()
                invariant
                    i <= repos@.len(),
                    out@.len() == i,
                    count == primary_count(repos@.subrange(0, i as int)),
                    count <= i,
                    forall|k: int| 0 <= k < i ==> (#[trigger] out@[k]).project_repository_id == repos@[k].id
                        && out@[k].base_branch@ == base_branch@ && out@[k].is_primary == repos@[k].is_primary,
                decreases repos@.len() - i,
            {
                let r = &repos[i];
                out.push(RepositoryAssignment { project_repository_id: r.id, is_primary: r.is_primary, base_branch: base_branch.clone() });
                if r.is_primary {
                    count = count + 1;
                }
                proof {
                    assert(repos@.subrange(0, i + 1).drop_last() =~= repos@.subrange(0, i as int));
                }
                i = i + 1;
            }
            assert(repos@.subrange(0, i as int) =~= repos@);
            if count > 1 {
                return Err(TaskAttemptError::ValidationError(String::from_str("Exactly one repository must be marked as primary")));
            }
            if count == 0 {
                let first = RepositoryAssignment { project_repository_id: out[0].project_repository_id, is_primary: true, base_branch: base_branch.clone() };
                out.set(0, first);
            }
            proof {
                if count == 0 {
                    lemma_count_zero_elim(repos@);
                }
                if count == 1 {
                    lemma_count_one_elim(repos@);
                }
                assert forall|i: int, j: int|
                    0 <= i < out@.len() && 0 <= j < out@.len() && i != j implies (#[trigger] out@[i]).project_repository_id
                        != (#[trigger] out@[j]).project_repository_id by {
                    assert(out@[i].project_repository_id == repos@[i].id);
                    assert(out@[j].project_repository_id == repos@[j].id);
                }
                if count == 0 {
                    assert(out@[0].is_primary);
                } else {
                    let p = choose|p: int| 0 <= p < repos@.len() && (#[trigger] repos@[p]).is_primary;
                    assert(out@[p].is_primary);
                }
                assert forall|i: int| 0 <= i < out@.len() implies has_repo(repos@, (#[trigger] out@[i]).project_repository_id) by {
                    assert(repos@[i].id == out@[i].project_repository_id);
                }
                assert(exactly_one_primary(out@));
                assert(out@.len() == repos@.len());
                assert(selection_view(*selection).is_none());
                assert forall|i: int| 0 <= i < out@.len() implies (#[trigger] out@[i]).project_repository_id == repos@[i].id
                    && out@[i].base_branch@ == base_branch@
                    && out@[i].is_primary == (repos@[i].is_primary || (primary_count(repos@) == 0 && i == 0)) by {
                    if count == 0 && i == 0 {
                        assert(out@[0].is_primary);
                    }
                }
                assert(assignments_spec(repos@, None, base_branch@, out@));
                assert(assignments_spec(repos@, selection_view(*selection), base_branch@, out@));
            }
            Ok(out)
        },
        Some(sel) => {
            if sel.len() == 0 {
                return Err(TaskAttemptError::ValidationError(String::from_str("At least one repository must be selected")));
            }
            let ghost s = sel@;
            let mut explicit: usize = 0;
            let mut i: usize = 0;
            while i < sel.len()
                invariant
                    i <= s.len(),
                    s == sel@,
                    out@.len() == i,
                    explicit == selected_primary_count(s.subrange(0, i as int)),
                    explicit <= i,
                    forall|k: int| 0 <= k < i ==> has_repo(repos@, (#[trigger] s[k]).project_repository_id),
                    forall|k: int, l: int|
                        0 <= k < i && 0 <= l < i && k != l ==> (#[trigger] s[k]).project_repository_id
                            != (#[trigger] s[l]).project_repository_id,
                    forall|k: int| 0 <= k < i ==> (#[trigger] out@[k]).project_repository_id == s[k].project_repository_id
                        && out@[k].base_branch@ == chosen_base(s[k].base_branch, base_branch@)
                        && out@[k].is_primary == s[k].is_primary,
                decreases s.len() - i,
            {
                let e = &sel[i];
                let mut known = false;
                let mut j: usize = 0;
                while j < repos.len()
                    invariant
                        j <= repos@.len(),
                        known ==> has_repo(repos@, e.project_repository_id),
                        !known ==> forall|m: int| 0 <= m < j ==> (#[trigger] repos@[m]).id != e.project_repository_id,
                    decreases repos@.len() - j,
                {
                    if repos[j].id == e.project_repository_id {
                        known = true;
                    }
                    j = j + 1;
                }
                if !known {
                    proof {
                        assert(!has_repo(repos@, s[i as int].project_repository_id));
                        assert(!selection_valid(repos@, s));
                        assert(selection.unwrap()@ == s);
                    }
                    return Err(TaskAttemptError::ValidationError(String::from_str("Selected repository does not belong to project")));
                }
                let mut k: usize = 0;
                while k < i
                    invariant
                        k <= i,
                        i < s.len(),
                        s == sel@,
                        e.project_repository_id == s[i as int].project_repository_id,
                        forall|m: int| 0 <= m < k ==> (#[trigger] s[m]).project_repository_id != e.project_repository_id,
                    decreases i - k,
                {
                    if sel[k].project_repository_id == e.project_repository_id {
                        proof {
                            assert(!selection_valid(repos@, s)) by {
                                assert(s[k as int].project_repository_id == s[i as int].project_repository_id);
                            }
                            assert(selection.unwrap()@ == s);
                        }
                        return Err(TaskAttemptError::ValidationError(String::from_str("Duplicate repository selection")));
                    }
                    k = k + 1;
                }
                if e.is_primary {
                    explicit = explicit + 1;
                }
                out.push(RepositoryAssignment {
                    project_repository_id: e.project_repository_id,
                    is_primary: e.is_primary,
                    base_branch: pick_base(&e.base_branch, base_branch),
                });
                proof {
                    assert(s.subrange(0, i + 1).drop_last() =~= s.subrange(0, i as int));
                }
                i = i + 1;
            }
            assert(s.subrange(0, i as int) =~= s);
            proof {
                lemma_selected_count(s);
            }
            if explicit > 1 {
                return Err(TaskAttemptError::ValidationError(String::from_str("Exactly one repository must be marked as primary")));
            }
            let ghost n = s.len();
            if explicit == 0 {
                // the project's primary, else its first repository
                let mut f: usize = 0;
                let mut found = false;
                while f < repos.len() && !found
                    invariant
                        f <= repos@.len(),
                        found ==> f > 0 && first_primary(repos@) == Some((f - 1) as int),
                        !found ==> forall|m: int| 0 <= m < f ==> !(#[trigger] repos@[m]).is_primary,
                    decreases repos@.len() - f + (if found { 0int } else { 1int }),
                {
                    if repos[f].is_primary {
                        found = true;
                        proof {
                            lemma_first_primary(repos@);
                        }
                    }
                    f = f + 1;
                }
                let fid = if found { repos[f - 1].id } else { repos[0].id };
                assert(fid == fallback_id(repos@));
                let mut placed = false;
                let mut k: usize = 0;
                while k < out.len()
                    invariant
                        k <= out@.len(),
                        out@.len() == n,
                        s == sel@,
                        n == s.len(),
                        placed ==> exists|m: int| 0 <= m < k && (#[trigger] out@[m]).project_repository_id == fid,
                        !placed ==> forall|m: int| 0 <= m < k ==> (#[trigger] out@[m]).project_repository_id != fid,
                        forall|m: int| 0 <= m < n ==> (#[trigger] out@[m]).project_repository_id == s[m].project_repository_id
                            && out@[m].base_branch@ == chosen_base(s[m].base_branch, base_branch@)
                            && out@[m].is_primary == (s[m].is_primary || (m < k && s[m].project_repository_id == fid)),
                    decreases out@.len() - k,
                {
                    if out[k].project_repository_id == fid {
                        let a = RepositoryAssignment { project_repository_id: fid, is_primary: true, base_branch: out[k].base_branch.clone() };
                        out.set(k, a);
                        placed = true;
                        assert(out@[k as int].project_repository_id == fid);
                    }
                    proof {
                        if placed {
                            let m = choose|m: int| 0 <= m <= k && (#[trigger] out@[m]).project_repository_id == fid;
                        }
                    }
                    k = k + 1;
                }
                if !placed {
                    out.push(RepositoryAssignment { project_repository_id: fid, is_primary: true, base_branch: base_branch.clone() });
                }
                proof {
                    let v = out@;
                    if placed {
                        let m = choose|m: int| 0 <= m < n && (#[trigger] out@[m]).project_repository_id == fid;
                        assert(s[m].project_repository_id == fid);
                    } else {
                        assert forall|i: int| 0 <= i < s.len() implies (#[trigger] s[i]).project_repository_id != fid by {
                            assert(out@[i].project_repository_id == s[i].project_repository_id);
                        }
                    }
                    assert forall|m: int| 0 <= m < v.len() implies has_repo(repos@, (#[trigger] v[m]).project_repository_id) by {
                        if m < n {
                            assert(v[m].project_repository_id == s[m].project_repository_id);
                        } else {
                            if found {
                                assert(repos@[f - 1].id == fid);
                            } else {
                                assert(repos@[0].id == fid);
                            }
                        }
                    }
                    assert forall|a: int, b: int|
                        0 <= a < v.len() && 0 <= b < v.len() && a != b implies (#[trigger] v[a]).project_repository_id
                            != (#[trigger] v[b]).project_repository_id by {
                        if a < n && b < n {
                            assert(v[a].project_repository_id == s[a].project_repository_id);
                            assert(v[b].project_repository_id == s[b].project_repository_id);
                        } else if a < n {
                            assert(v[a].project_repository_id == s[a].project_repository_id);
                        } else {
                            assert(v[b].project_repository_id == s[b].project_repository_id);
                        }
                    }
                    if placed {
                        let m = choose|m: int| 0 <= m < n && (#[trigger] out@[m]).project_repository_id == fid;
                        assert(v[m].is_primary);
                    } else {
                        assert(v[n as int].is_primary);
                    }
                    assert forall|a: int, b: int|
                        0 <= a < v.len() && 0 <= b < v.len() && (#[trigger] v[a]).is_primary && (#[trigger] v[b]).is_primary implies a == b by {
                        if a != b {
                            assert(v[a].project_repository_id == fid);
                            assert(v[b].project_repository_id == fid);
                        }
                    }
                }
            } else {
                proof {
                    let v = out@;
                    let p = choose|p: int| 0 <= p < s.len() && (#[trigger] s[p]).is_primary;
                    assert(selected_primary_count(s) != 0);
                    assert(v[p].is_primary);
                    assert forall|a: int| 0 <= a < v.len() implies has_repo(repos@, (#[trigger] v[a]).project_repository_id) by {
                        assert(v[a].project_repository_id == s[a].project_repository_id);
                    }
                    assert forall|a: int, b: int|
                        0 <= a < v.len() && 0 <= b < v.len() && a != b implies (#[trigger] v[a]).project_repository_id
                            != (#[trigger] v[b]).project_repository_id by {
                        assert(v[a].project_repository_id == s[a].project_repository_id);
                        assert(v[b].project_repository_id == s[b].project_repository_id);
                    }
                }
            }
            Ok(out)
        },
    }
}


} // verus!
