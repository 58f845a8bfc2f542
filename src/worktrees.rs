//! Where each repository of an attempt gets its worktree and which branch it uses.

use vstd::prelude::*;
use vstd::string::*;
use crate::models::{ProjectRepository, TaskAttempt, TaskAttemptRepository};
use crate::naming::{repo_slug, repo_slug_spec, slug_of};
use crate::payload::{entry_branch, entry_container, find_attempt_entry, find_entry, opt_view};
use crate::repo_context::{join_path, join_path_spec, listed_spec, opt_string};
use crate::strings::{lower_of, same_text, trim_spec, trim_ws, CharClass};
use crate::textops::split_char;

verus! {

/// The branch of a repository's worktree: the membership row's, trimmed, unless blank;
/// else the attempt's.
pub open spec fn branch_to_use(attempt: TaskAttempt, entry: Option<TaskAttemptRepository>) -> Seq<char> {
    match entry_branch(entry) {
        Some(b) => if trim_spec(b, CharClass::Whitespace).len() > 0 {
            trim_spec(b, CharClass::Whitespace)
        } else {
            attempt.branch@
        },
        None => attempt.branch@,
    }
}

/// `base/dir` for the primary, `base/dir--<repo slug>` for the others.
pub open spec fn default_worktree_path(base: Seq<char>, dir: Seq<char>, repo: ProjectRepository) -> Option<Seq<char>> {
    if repo.is_primary {
        join_path_spec(base, dir)
    } else {
        join_path_spec(base, dir + "--"@ + repo_slug_spec(slug_of(lower_of(repo.name@)), repo.id))
    }
}

fn pick_branch(attempt: &TaskAttempt, entry: Option<&TaskAttemptRepository>) -> (r: String)
    ensures
        r@ == branch_to_use(*attempt, match entry {
            Some(e) => Some(*e),
            None => None,
        }),
{
    match entry {
        Some(e) => match &e.branch {
            Some(b) => {
                let t = trim_ws(b.as_str());
                if t.as_str().unicode_len() > 0 {
                    t
                } else {
                    attempt.branch.clone()
                }
            },
            None => attempt.branch.clone(),
        },
        None => attempt.branch.clone(),
    }
}

fn default_path(base_dir: &str, dir_name: &str, repo: &ProjectRepository) -> (r: Option<String>)
    ensures
        opt_string(r) == default_worktree_path(base_dir@, dir_name@, *repo),
{
    if repo.is_primary {
        join_path(base_dir, dir_name)
    } else {
        let mut name = String::from_str(dir_name);
        name.append("--");
        name.append(repo_slug(repo.name.as_str(), repo.id).as_str());
        join_path(base_dir, name.as_str())
    }
}

/// What to materialize for one repository of an attempt.
#[derive(Clone, Debug)]
pub struct WorktreePlan {
    pub repository_id: u128,
    pub path: String,
    pub branch: String,
    pub is_primary: bool,
    /// The attempt's own worktree path must be set to `path`.
    pub update_attempt_ref: bool,
}

/// The worktree of one repository when an attempt's container is ensured: the path kept
/// in its membership row, else (for the attempt's primary) the attempt's path, else the
/// default path under `base_dir`. `None` when `base_dir` is empty.
pub fn plan_repository_container(
    attempt: &TaskAttempt,
    base_dir: &str,
    dir_name: &str,
    repo: &ProjectRepository,
    attempt_repositories: &Vec<TaskAttemptRepository>,
) -> (r: Option<WorktreePlan>)
    ensures
        ({
            let entry = find_entry(attempt_repositories@, repo.id);
            let primary = match entry {
                Some(e) => e.is_primary,
                None => repo.is_primary,
            };
            let chosen = match entry_container(entry) {
                Some(c) => Some(c),
                None => match (if primary { opt_view(attempt.container_ref) } else { None }) {
                    Some(c) => Some(c),
                    None => default_worktree_path(base_dir@, dir_name@, *repo),
                },
            };
            match chosen {
                None => r.is_none(),
                Some(path) => r is Some && {
                    let p = r.unwrap();
                    &&& p.repository_id == repo.id
                    &&& p.path@ == path
                    &&& p.branch@ == branch_to_use(*attempt, entry)
                    &&& p.is_primary == primary
                    &&& p.update_attempt_ref == (primary && opt_view(attempt.container_ref) != Some(path))
                },
            }
        }),
{
    let entry = find_attempt_entry(attempt_repositories, repo.id);
    let branch = pick_branch(attempt, entry);
    let primary = match entry {
        Some(e) => e.is_primary,
        None => repo.is_primary,
    };
    let from_entry: Option<String> = match entry {
        Some(e) => match &e.container_ref {
            Some(c) => Some(c.clone()),
            None => None,
        },
        None => None,
    };
    let path = match from_entry {
        Some(c) => c,
        None => {
            let from_attempt: Option<String> = if primary {
                match &attempt.container_ref {
                    Some(c) => Some(c.clone()),
                    None => None,
                }
            } else {
                None
            };
            match from_attempt {
                Some(c) => c,
                None => match default_path(base_dir, dir_name, repo) {
                    Some(p) => p,
                    None => return None,
                },
            }
        },
    };
    let update = primary && match &attempt.container_ref {
        Some(existing) => !same_text(existing.as_str(), path.as_str()),
        None => true,
    };
    Some(WorktreePlan { repository_id: repo.id, path, branch, is_primary: primary, update_attempt_ref: update })
}

/// An attempt has no repository to work in.
#[derive(Clone, Copy, Debug, PartialEq, Eq, Structural)]
pub struct NoRepositoriesConfigured;

/// The index of the attempt's primary worktree among its plans: the first plan flagged
/// primary (by the attempt's row, else by the project), else the first plan.
pub fn primary_plan(plans: &Vec<WorktreePlan>) -> (r: Result<usize, NoRepositoriesConfigured>)
    ensures
        plans@.len() == 0 <==> r is Err,
        r matches Ok(i) ==> i < plans@.len() && (forall|j: int| 0 <= j < i ==> !(#[trigger] plans@[j]).is_primary)
            && (plans@[i as int].is_primary || (i == 0 && forall|j: int|
                0 <= j < plans@.len() ==> !(#[trigger] plans@[j]).is_primary)),
{
    if plans.len() == 0 {
        return Err(NoRepositoriesConfigured);
    }
    let mut i: usize = 0;
    while i < plans.len()
        invariant
            i <= plans@.len(),
            forall|j: int| 0 <= j < i ==> !(#[trigger] plans@[j]).is_primary,
        decreases plans@.len() - i,
    {
        if plans[i].is_primary {
            return Ok(i);
        }
        i = i + 1;
    }
    Ok(0)
}

/// A worktree to create for a new attempt.
#[derive(Clone, Debug)]
pub struct NewWorktree {
    pub repository_id: u128,
    pub repo_path: String,
    pub path: String,
    pub branch: String,
    pub is_primary: bool,
    /// The branch is created here: no earlier repository of the attempt lives at the same
    /// repository path (later ones reuse the branch).
    pub create_branch: bool,
}

/// The worktrees of a new attempt, in the order of `repositories`: the primary at
/// `base_dir/dir_name`, each other one at the path of its membership row or else at
/// `base_dir/dir_name--<repo slug>`, each on its row's branch or the attempt's. `None` when
/// `base_dir` is empty.
pub fn plan_new_worktrees(
    attempt: &TaskAttempt,
    base_dir: &str,
    dir_name: &str,
    repositories: &Vec<ProjectRepository>,
    attempt_repositories: &Vec<TaskAttemptRepository>,
) -> (r: Option<Vec<NewWorktree>>)
    ensures
        base_dir@.len() > 0 ==> r is Some,
        r matches Some(v) ==> v@.len() == repositories@.len() && forall|i: int|
            0 <= i < v@.len() ==> {
                let repo = repositories@[i];
                let entry = find_entry(attempt_repositories@, repo.id);
                let w = #[trigger] v@[i];
                &&& w.repository_id == repo.id
                &&& w.repo_path@ == repo.git_repo_path@
                &&& w.is_primary == repo.is_primary
                &&& w.branch@ == branch_to_use(*attempt, entry)
                &&& w.create_branch == forall|j: int|
                    0 <= j < i ==> (#[trigger] repositories@[j]).git_repo_path@ != repo.git_repo_path@
                &&& Some(w.path@) == if repo.is_primary {
                    default_worktree_path(base_dir@, dir_name@, repo)
                } else {
                    match entry_container(entry) {
                        Some(c) => Some(c),
                        None => default_worktree_path(base_dir@, dir_name@, repo),
                    }
                }
            },
{
    if base_dir.unicode_len() == 0 {
        return None;
    }
    let mut out: Vec<NewWorktree> = Vec::new();
    let mut i: usize = 0;
    while i < repositories.len()
        invariant
            i <= repositories@.len(),
            base_dir@.len() > 0,
            out@.len() == i,
            forall|k: int|
                0 <= k < i ==> {
                    let repo = repositories@[k];
                    let entry = find_entry(attempt_repositories@, repo.id);
                    let w = #[trigger] out@[k];
                    &&& w.repository_id == repo.id
                    &&& w.repo_path@ == repo.git_repo_path@
                    &&& w.is_primary == repo.is_primary
                    &&& w.branch@ == branch_to_use(*attempt, entry)
                    &&& w.create_branch == forall|j: int|
                        0 <= j < k ==> (#[trigger] repositories@[j]).git_repo_path@ != repo.git_repo_path@
                    &&& Some(w.path@) == if repo.is_primary {
                        default_worktree_path(base_dir@, dir_name@, repo)
                    } else {
                        match entry_container(entry) {
                            Some(c) => Some(c),
                            None => default_worktree_path(base_dir@, dir_name@, repo),
                        }
                    }
                },
        decreases repositories@.len() - i,
    {
        let repo = &repositories[i];
        let entry = find_attempt_entry(attempt_repositories, repo.id);
        let branch = pick_branch(attempt, entry);
        let from_entry: Option<String> = if repo.is_primary {
            None
        } else {
            match entry {
                Some(e) => match &e.container_ref {
                    Some(c) => Some(c.clone()),
                    None => None,
                },
                None => None,
            }
        };
        let path = match from_entry {
            Some(c) => c,
            None => match default_path(base_dir, dir_name, repo) {
                Some(p) => p,
                None => {
                    proof {
                        reveal_strlit("--");
                    }
                    return None;
                },
            },
        };
        let mut seen = false;
        let mut j: usize = 0;
        while j < i
            invariant
                j <= i,
                i < repositories@.len(),
                repo == &repositories@[i as int],
                seen == exists|m: int| 0 <= m < j && (#[trigger] repositories@[m]).git_repo_path@ == repo.git_repo_path@,
            decreases i - j,
        {
            if same_text(repositories[j].git_repo_path.as_str(), repo.git_repo_path.as_str()) {
                seen = true;
            }
            j = j + 1;
        }
        out.push(NewWorktree {
            repository_id: repo.id,
            repo_path: repo.git_repo_path.clone(),
            path,
            branch,
            is_primary: repo.is_primary,
            create_branch: !seen,
        });
        i = i + 1;
    }
    Some(out)
}

/// The relative paths listed in a project's comma-separated `copy_files`.
pub fn copy_file_list(copy_files: &str) -> (r: Vec<String>)
    ensures
        r@.map_values(|x: String| x@) == listed_spec(copy_files@),
{
    let parts = split_char(copy_files, ',');
    let ghost pv = parts@.map_values(|x: String| x@);
    let mut out: Vec<String> = Vec::new();
    let mut i: usize = 0;
    while i < parts.len()
        invariant
            i <= parts@.len(),
            pv == parts@.map_values(|x: String| x@),
            out@.map_values(|x: String| x@) == pv.subrange(0, i as int).map_values(
                |e: Seq<char>| trim_spec(e, CharClass::Whitespace),
            ).filter(|e: Seq<char>| e.len() > 0),
        decreases parts@.len() - i,
    {
        let t = trim_ws(parts[i].as_str());
        let ghost before = out@.map_values(|x: String| x@);
        let ghost tv = t@;
        if t.as_str().unicode_len() > 0 {
            out.push(t);
        }
        proof {
            reveal(Seq::filter);
            let f = |e: Seq<char>| trim_spec(e, CharClass::Whitespace);
            let pre = pv.subrange(0, i as int).map_values(f);
            let nxt = pv.subrange(0, i + 1).map_values(f);
            assert(nxt =~= pre.push(tv));
            assert(pre.push(tv).drop_last() =~= pre);
            if tv.len() > 0 {
                assert(out@.map_values(|x: String| x@) =~= before.push(tv));
            }
        }
        i = i + 1;
    }
    assert(pv.subrange(0, i as int) =~= pv);
    out
}

/// How a diff stream is served.
#[derive(Clone, Copy, Debug, PartialEq, Eq, Structural)]
pub enum DiffStreamMode {
    /// The attempt was merged and nothing changed since: the merge commit's diff, once.
    Merged,
    /// A snapshot of the worktree against its base, then live changes.
    Live,
}

/// Merged mode when the attempt has a merge, its primary worktree is clean and its branch
/// is not ahead of its base; live mode otherwise.
pub fn diff_stream_mode(has_merge: bool, worktree_clean: bool, commits_ahead: usize) -> (r: DiffStreamMode)
    ensures
        (r == DiffStreamMode::Merged) == (has_merge && worktree_clean && commits_ahead == 0),
{
    if has_merge && worktree_clean && commits_ahead == 0 {
        DiffStreamMode::Merged
    } else {
        DiffStreamMode::Live
    }
}

/// `dir/config.json`.
pub fn config_path(asset_dir: &str) -> (r: Option<String>)
    ensures
        opt_string(r) == join_path_spec(asset_dir@, "config.json"@),
{
    join_path(asset_dir, "config.json")
}

/// `dir/profiles.json`.
pub fn profiles_path(asset_dir: &str) -> (r: Option<String>)
    ensures
        opt_string(r) == join_path_spec(asset_dir@, "profiles.json"@),
{
    join_path(asset_dir, "profiles.json")
}

} // verus!
