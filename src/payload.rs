//! The environment contract handed to every spawned child: per-repository
//! `VIBE_REPO_<PREFIX>_*` variables and the `VIBE_PRIMARY_REPO_*` mirror.

use vstd::prelude::*;
use vstd::string::*;
use crate::env::{
    apply_pairs, decimal, decimal_spec, join, join_spec, lemma_pairs_concat, pairs_to_map, strings_view, EnvMap,
};
use crate::models::{Project, ProjectRepository, TaskAttempt, TaskAttemptRepository};
use crate::naming::{ascii_env_prefix, repo_env_prefix, repo_slug, repo_slug_spec, slug_of};
use crate::strings::lower_of;
use crate::ids::{hyphenated_form, id_string};

verus! {

pub type Pairs = Seq<(Seq<char>, Seq<char>)>;

/// `VIBE_REPO_<prefix>_<suffix>`.
pub open spec fn repo_key(prefix: Seq<char>, suffix: Seq<char>) -> Seq<char> {
    "VIBE_REPO_"@ + prefix + "_"@ + suffix
}

/// The environment prefix of a project repository.
pub open spec fn repo_prefix_spec(r: ProjectRepository) -> Seq<char> {
    ascii_env_prefix(repo_slug_spec(slug_of(lower_of(r.name@)), r.id))
}

/// The first membership row of `entries` for the project repository `repo_id`.
pub open spec fn find_entry(entries: Seq<TaskAttemptRepository>, repo_id: u128) -> Option<
    TaskAttemptRepository,
>
    decreases entries.len(),
{
    if entries.len() == 0 {
        None
    } else if entries[0].project_repository_id == repo_id {
        Some(entries[0])
    } else {
        find_entry(entries.drop_first(), repo_id)
    }
}

pub open spec fn opt_view(o: Option<String>) -> Option<Seq<char>> {
    match o {
        Some(s) => Some(s@),
        None => None,
    }
}

pub open spec fn entry_container(entry: Option<TaskAttemptRepository>) -> Option<Seq<char>> {
    match entry {
        Some(e) => opt_view(e.container_ref),
        None => None,
    }
}

pub open spec fn entry_branch(entry: Option<TaskAttemptRepository>) -> Option<Seq<char>> {
    match entry {
        Some(e) => opt_view(e.branch),
        None => None,
    }
}

/// Worktree path of a repository: for the primary, the attempt's own path first; then the
/// membership row's path; then the repository itself.
pub open spec fn repo_path_spec(
    attempt: TaskAttempt,
    r: ProjectRepository,
    entry: Option<TaskAttemptRepository>,
) -> Seq<char> {
    let from_entry = match entry_container(entry) {
        Some(c) => c,
        None => r.git_repo_path@,
    };
    if r.is_primary {
        match attempt.container_ref {
            Some(c) => c@,
            None => from_entry,
        }
    } else {
        from_entry
    }
}

/// Branch of a repository: the membership row's, else the attempt's for the primary,
/// else empty.
pub open spec fn repo_branch_spec(
    attempt: TaskAttempt,
    r: ProjectRepository,
    entry: Option<TaskAttemptRepository>,
) -> Seq<char> {
    match entry_branch(entry) {
        Some(b) => b,
        None => if r.is_primary {
            attempt.branch@
        } else {
            Seq::empty()
        },
    }
}

/// The variables one repository contributes, in order.
pub open spec fn repo_pairs(
    attempt: TaskAttempt,
    r: ProjectRepository,
    entries: Seq<TaskAttemptRepository>,
) -> Pairs {
    let p = repo_prefix_spec(r);
    let entry = find_entry(entries, r.id);
    let path = repo_path_spec(attempt, r, entry);
    let branch = repo_branch_spec(attempt, r, entry);
    let own = seq![
        (repo_key(p, "ID"@), hyphenated_form(r.id)),
        (repo_key(p, "PATH"@), path),
        (repo_key(p, "ROOT"@), r.root_path@),
        (repo_key(p, "BRANCH"@), branch),
        (repo_key(p, "NAME"@), r.name@),
        (repo_key(p, "IS_PRIMARY"@), if r.is_primary { "1"@ } else { "0"@ }),
    ];
    if r.is_primary {
        own + seq![
            ("VIBE_PRIMARY_REPOSITORY_ID"@, hyphenated_form(r.id)),
            ("VIBE_PRIMARY_REPO_PATH"@, path),
            ("VIBE_PRIMARY_REPO_ROOT"@, r.root_path@),
            ("VIBE_PRIMARY_REPO_PREFIX"@, p),
            ("VIBE_PRIMARY_REPO_NAME"@, r.name@),
            ("VIBE_PRIMARY_REPO_BRANCH"@, branch),
        ]
    } else {
        own
    }
}

pub open spec fn all_repo_pairs(
    attempt: TaskAttempt,
    repos: Seq<ProjectRepository>,
    entries: Seq<TaskAttemptRepository>,
) -> Pairs
    decreases repos.len(),
{
    if repos.len() == 0 {
        Seq::empty()
    } else {
        all_repo_pairs(attempt, repos.drop_last(), entries) + repo_pairs(
            attempt,
            repos.last(),
            entries,
        )
    }
}

pub open spec fn has_primary(repos: Seq<ProjectRepository>) -> bool {
    exists|i: int| 0 <= i < repos.len() && (#[trigger] repos[i]).is_primary
}

pub open spec fn prefixes_spec(repos: Seq<ProjectRepository>) -> Seq<Seq<char>> {
    repos.map_values(|r: ProjectRepository| repo_prefix_spec(r))
}

/// The attempt's worktree, else the project's repository.
pub open spec fn fallback_path(attempt: TaskAttempt, project: Project) -> Seq<char> {
    match attempt.container_ref {
        Some(c) => c@,
        None => project.git_repo_path@,
    }
}

/// Variables for a project without repository rows: one repository named `PRIMARY`.
pub open spec fn single_repo_pairs(attempt: TaskAttempt, project: Project) -> Pairs {
    let p = "PRIMARY"@;
    let path = fallback_path(attempt, project);
    seq![
        ("VIBE_EXECUTOR_PAYLOAD_VERSION"@, "1"@),
        ("VIBE_TASK_ATTEMPT_ID"@, hyphenated_form(attempt.id)),
        ("VIBE_REPOSITORY_COUNT"@, "1"@),
        ("VIBE_REPOSITORIES"@, p),
        (repo_key(p, "PATH"@), path),
        (repo_key(p, "ROOT"@), Seq::empty()),
        (repo_key(p, "BRANCH"@), attempt.branch@),
        (repo_key(p, "NAME"@), project.name@),
        (repo_key(p, "IS_PRIMARY"@), "1"@),
        ("VIBE_PRIMARY_REPO_PREFIX"@, p),
        ("VIBE_PRIMARY_REPO_PATH"@, path),
        ("VIBE_PRIMARY_REPO_ROOT"@, Seq::empty()),
        ("VIBE_PRIMARY_REPO_NAME"@, project.name@),
        ("VIBE_PRIMARY_REPO_BRANCH"@, attempt.branch@),
    ]
}

/// Variables set after the repositories: the count, the list of prefixes and, where no
/// repository is primary, the `VIBE_PRIMARY_REPO_*` variables taken from the first one.
pub open spec fn closing_pairs(
    attempt: TaskAttempt,
    project: Project,
    repos: Seq<ProjectRepository>,
) -> Pairs {
    let counts = seq![
        ("VIBE_EXECUTOR_PAYLOAD_VERSION"@, "1"@),
        ("VIBE_TASK_ATTEMPT_ID"@, hyphenated_form(attempt.id)),
        ("VIBE_REPOSITORY_COUNT"@, decimal_spec(repos.len())),
        ("VIBE_REPOSITORIES"@, join_spec(prefixes_spec(repos), ","@)),
    ];
    if has_primary(repos) {
        counts
    } else {
        counts + seq![
            ("VIBE_PRIMARY_REPOSITORY_ID"@, hyphenated_form(repos[0].id)),
            ("VIBE_PRIMARY_REPO_PREFIX"@, repo_prefix_spec(repos[0])),
            ("VIBE_PRIMARY_REPO_PATH"@, fallback_path(attempt, project)),
            ("VIBE_PRIMARY_REPO_ROOT"@, Seq::empty()),
            ("VIBE_PRIMARY_REPO_NAME"@, repos[0].name@),
            ("VIBE_PRIMARY_REPO_BRANCH"@, attempt.branch@),
        ]
    }
}

/// The whole environment, as the list of assignments that produces it.
pub open spec fn env_pairs(
    attempt: TaskAttempt,
    project: Project,
    repos: Seq<ProjectRepository>,
    entries: Seq<TaskAttemptRepository>,
) -> Pairs {
    if repos.len() == 0 {
        single_repo_pairs(attempt, project)
    } else {
        all_repo_pairs(attempt, repos, entries) + closing_pairs(attempt, project, repos)
    }
}

/// The membership row of `entries` for `repo_id`, if any.
pub fn find_attempt_entry(entries: &Vec<TaskAttemptRepository>, repo_id: u128) -> (r: Option<
    &TaskAttemptRepository,
>)
    ensures
        match r {
            Some(e) => find_entry(entries@, repo_id) == Some(*e),
            None => find_entry(entries@, repo_id).is_none(),
        },
{
    let mut i: usize = 0;
    assert(entries@.subrange(0, entries@.len() as int) =~= entries@);
    while i < entries.len()
        invariant
            i <= entries@.len(),
            find_entry(entries@, repo_id) == find_entry(entries@.subrange(i as int, entries@.len() as int), repo_id),
        decreases entries@.len() - i,
    {
        let ghost rest = entries@.subrange(i as int, entries@.len() as int);
        assert(rest.drop_first() =~= entries@.subrange(i + 1, entries@.len() as int));
        if entries[i].project_repository_id == repo_id {
            return Some(&entries[i]);
        }
        i = i + 1;
    }
    None
}

fn text(s: &str) -> (r: String)
    ensures
        r@ == s@,
{
    String::from_str(s)
}

/// `VIBE_REPO_<prefix>_<suffix>` as a string.
fn make_repo_key(prefix: &str, suffix: &str) -> (r: String)
    ensures
        r@ == repo_key(prefix@, suffix@),
{
    let mut k = text("VIBE_REPO_");
    k.append(prefix);
    k.append("_");
    k.append(suffix);
    k
}

fn clone_opt(o: &Option<String>) -> (r: Option<String>)
    ensures
        opt_view(r) == opt_view(*o),
{
    match o {
        Some(s) => Some(s.clone()),
        None => None,
    }
}

proof fn lemma_apply_concat(m: Map<Seq<char>, Seq<char>>, a: Pairs, b: Pairs)
    ensures
        apply_pairs(m, a + b) == apply_pairs(apply_pairs(m, a), b),
    decreases b.len(),
{
    if b.len() == 0 {
        assert(a + b =~= a);
    } else {
        lemma_apply_concat(m, a, b.drop_last());
        assert((a + b).drop_last() =~= a + b.drop_last());
    }
}

/// Adds the variables of one repository to `env`.
fn put_repository(
    env: &mut EnvMap,
    attempt: &TaskAttempt,
    repo: &ProjectRepository,
    entries: &Vec<TaskAttemptRepository>,
) -> (prefix: String)
    ensures
        final(env)@ == apply_pairs(old(env)@, repo_pairs(*attempt, *repo, entries@)),
        prefix@ == repo_prefix_spec(*repo),
{
    let prefix = repo_env_prefix(repo);
    let entry = find_attempt_entry(entries, repo.id);
    let entry_ref: Option<String> = match entry {
        Some(e) => clone_opt(&e.container_ref),
        None => None,
    };
    let from_entry = match entry_ref {
        Some(c) => c,
        None => repo.git_repo_path.clone(),
    };
    let path = if repo.is_primary {
        match &attempt.container_ref {
            Some(c) => c.clone(),
            None => from_entry,
        }
    } else {
        from_entry
    };
    let entry_br: Option<String> = match entry {
        Some(e) => clone_opt(&e.branch),
        None => None,
    };
    let branch = match entry_br {
        Some(b) => b,
        None => if repo.is_primary {
            attempt.branch.clone()
        } else {
            String::new()
        },
    };
    let ghost e = find_entry(entries@, repo.id);
    assert(path@ == repo_path_spec(*attempt, *repo, e));
    assert(branch@ == repo_branch_spec(*attempt, *repo, e));
    let ghost m0 = env@;
    let p = prefix.as_str();
    env.insert(make_repo_key(p, "ID"), id_string(repo.id));
    env.insert(make_repo_key(p, "PATH"), path.clone());
    env.insert(make_repo_key(p, "ROOT"), repo.root_path.clone());
    env.insert(make_repo_key(p, "BRANCH"), branch.clone());
    env.insert(make_repo_key(p, "NAME"), repo.name.clone());
    env.insert(
        make_repo_key(p, "IS_PRIMARY"),
        if repo.is_primary {
            text("1")
        } else {
            text("0")
        },
    );
    let ghost own = seq![
        (repo_key(prefix@, "ID"@), hyphenated_form(repo.id)),
        (repo_key(prefix@, "PATH"@), path@),
        (repo_key(prefix@, "ROOT"@), repo.root_path@),
        (repo_key(prefix@, "BRANCH"@), branch@),
        (repo_key(prefix@, "NAME"@), repo.name@),
        (repo_key(prefix@, "IS_PRIMARY"@), if repo.is_primary { "1"@ } else { "0"@ }),
    ];
    proof {
        reveal_with_fuel(apply_pairs, 7);
    }
    if repo.is_primary {
        let ghost m1 = env@;
        env.insert(text("VIBE_PRIMARY_REPOSITORY_ID"), id_string(repo.id));
        env.insert(text("VIBE_PRIMARY_REPO_PATH"), path);
        env.insert(text("VIBE_PRIMARY_REPO_ROOT"), repo.root_path.clone());
        env.insert(text("VIBE_PRIMARY_REPO_PREFIX"), prefix.clone());
        env.insert(text("VIBE_PRIMARY_REPO_NAME"), repo.name.clone());
        env.insert(text("VIBE_PRIMARY_REPO_BRANCH"), branch);
        proof {
            let extra = seq![
                ("VIBE_PRIMARY_REPOSITORY_ID"@, hyphenated_form(repo.id)),
                ("VIBE_PRIMARY_REPO_PATH"@, path@),
                ("VIBE_PRIMARY_REPO_ROOT"@, repo.root_path@),
                ("VIBE_PRIMARY_REPO_PREFIX"@, prefix@),
                ("VIBE_PRIMARY_REPO_NAME"@, repo.name@),
                ("VIBE_PRIMARY_REPO_BRANCH"@, branch@),
            ];
            reveal_with_fuel(apply_pairs, 7);
            lemma_apply_concat(m0, own, extra);
        }
    }
    prefix
}

/// The environment for an attempt's child process: each repository's variables in the
/// order given, then the count and the prefix list, then the primary fallbacks.
pub fn compute_repository_env_map(
    task_attempt: &TaskAttempt,
    project: &Project,
    repositories: &Vec<ProjectRepository>,
    attempt_repositories: &Vec<TaskAttemptRepository>,
) -> (env: EnvMap)
    ensures
        env@ == pairs_to_map(
            env_pairs(*task_attempt, *project, repositories@, attempt_repositories@),
        ),
{
    let mut env = EnvMap::new();
    let fallback = match &task_attempt.container_ref {
        Some(c) => c.clone(),
        None => project.git_repo_path.clone(),
    };
    assert(fallback@ == fallback_path(*task_attempt, *project));
    if repositories.len() == 0 {
        let p = "PRIMARY";
        env.insert(text("VIBE_EXECUTOR_PAYLOAD_VERSION"), text("1"));
        env.insert(text("VIBE_TASK_ATTEMPT_ID"), id_string(task_attempt.id));
        env.insert(text("VIBE_REPOSITORY_COUNT"), text("1"));
        env.insert(text("VIBE_REPOSITORIES"), text(p));
        env.insert(make_repo_key(p, "PATH"), fallback.clone());
        env.insert(make_repo_key(p, "ROOT"), String::new());
        env.insert(make_repo_key(p, "BRANCH"), task_attempt.branch.clone());
        env.insert(make_repo_key(p, "NAME"), project.name.clone());
        env.insert(make_repo_key(p, "IS_PRIMARY"), text("1"));
        env.insert(text("VIBE_PRIMARY_REPO_PREFIX"), text(p));
        env.insert(text("VIBE_PRIMARY_REPO_PATH"), fallback);
        env.insert(text("VIBE_PRIMARY_REPO_ROOT"), String::new());
        env.insert(text("VIBE_PRIMARY_REPO_NAME"), project.name.clone());
        env.insert(text("VIBE_PRIMARY_REPO_BRANCH"), task_attempt.branch.clone());
        proof {
            reveal_with_fuel(pairs_to_map, 15);
        }
        return env;
    }
    let mut prefixes: Vec<String> = Vec::new();
    let mut primary_seen = false;
    let mut i: usize = 0;
    while i < repositories.len()
        invariant
            i <= repositories@.len(),
            env@ == pairs_to_map(
                all_repo_pairs(
                    *task_attempt,
                    repositories@.subrange(0, i as int),
                    attempt_repositories@,
                ),
            ),
            strings_view(prefixes@) == prefixes_spec(repositories@.subrange(0, i as int)),
            primary_seen == has_primary(repositories@.subrange(0, i as int)),
        decreases repositories@.len() - i,
    {
        let ghost before = all_repo_pairs(
            *task_attempt,
            repositories@.subrange(0, i as int),
            attempt_repositories@,
        );
        let repo = &repositories[i];
        let prefix = put_repository(&mut env, task_attempt, repo, attempt_repositories);
        if repo.is_primary {
            primary_seen = true;
        }
        let ghost pv = prefixes@;
        let ghost pview = prefix@;
        prefixes.push(prefix);
        proof {
            let next = repositories@.subrange(0, i + 1);
            assert(next.drop_last() =~= repositories@.subrange(0, i as int));
            assert(strings_view(prefixes@) =~= strings_view(pv).push(pview));
            assert(prefixes_spec(next) =~= prefixes_spec(repositories@.subrange(0, i as int)).push(
                repo_prefix_spec(next[i as int]),
            ));
            lemma_pairs_concat(before, repo_pairs(*task_attempt, *repo, attempt_repositories@));
            assert(strings_view(prefixes@) =~= prefixes_spec(next));
            if primary_seen {
                if repo.is_primary {
                    assert(next[i as int].is_primary);
                } else {
                    let j = choose|j: int|
                        0 <= j < i && (#[trigger] repositories@.subrange(0, i as int)[j]).is_primary;
                    assert(next[j].is_primary);
                }
            } else {
                assert forall|j: int| 0 <= j < next.len() implies !(#[trigger] next[j]).is_primary by {
                    if j < i {
                        assert(next[j] == repositories@.subrange(0, i as int)[j]);
                    }
                }
            }
        }
        i = i + 1;
    }
    assert(repositories@.subrange(0, i as int) =~= repositories@);
    let ghost body = all_repo_pairs(*task_attempt, repositories@, attempt_repositories@);
    let ghost m0 = env@;
    env.insert(text("VIBE_EXECUTOR_PAYLOAD_VERSION"), text("1"));
    env.insert(text("VIBE_TASK_ATTEMPT_ID"), id_string(task_attempt.id));
    env.insert(text("VIBE_REPOSITORY_COUNT"), decimal(repositories.len()));
    env.insert(text("VIBE_REPOSITORIES"), join(&prefixes, ","));
    if !primary_seen {
        let first = repo_env_prefix(&repositories[0]);
        env.insert(text("VIBE_PRIMARY_REPOSITORY_ID"), id_string(repositories[0].id));
        env.insert(text("VIBE_PRIMARY_REPO_PREFIX"), first);
        env.insert(text("VIBE_PRIMARY_REPO_PATH"), fallback);
        env.insert(text("VIBE_PRIMARY_REPO_ROOT"), String::new());
        env.insert(text("VIBE_PRIMARY_REPO_NAME"), repositories[0].name.clone());
        env.insert(text("VIBE_PRIMARY_REPO_BRANCH"), task_attempt.branch.clone());
    }
    proof {
        let tail = closing_pairs(*task_attempt, *project, repositories@);
        lemma_pairs_concat(body, tail);
        reveal_with_fuel(apply_pairs, 11);
    }
    env
}

/// Version of the payload handed to child processes; raised on breaking changes.
pub const PAYLOAD_VERSION: u32 = 1;

/// A repository as child processes see it.
#[derive(Clone, Debug)]
pub struct ExecutorRepositoryContext {
    pub id: u128,
    pub name: String,
    /// The repository's slug: `slug(name)-short(id)`.
    pub slug: String,
    pub worktree_path: String,
    pub root_path: String,
    pub branch: Option<String>,
    pub is_primary: bool,
}

/// The document handed to every spawned child: per-repository metadata and the flat
/// environment.
#[derive(Clone, Debug)]
pub struct ExecutorPayload {
    pub version: u32,
    pub attempt_id: u128,
    pub primary_repository_id: u128,
    pub repositories: Vec<ExecutorRepositoryContext>,
    pub env: EnvMap,
}

#[derive(Clone, Copy, Debug, PartialEq, Eq, Structural)]
pub enum PayloadError {
    /// No project repository is primary.
    PrimaryMissing,
}

/// The branch a child sees for a repository: its membership row's, else the attempt's
/// for the primary.
pub open spec fn context_branch(
    attempt: TaskAttempt,
    r: ProjectRepository,
    entry: Option<TaskAttemptRepository>,
) -> Option<Seq<char>> {
    match entry_branch(entry) {
        Some(b) => Some(b),
        None => if r.is_primary {
            Some(attempt.branch@)
        } else {
            None
        },
    }
}

pub open spec fn context_matches(
    c: ExecutorRepositoryContext,
    attempt: TaskAttempt,
    r: ProjectRepository,
    entries: Seq<TaskAttemptRepository>,
) -> bool {
    let entry = find_entry(entries, r.id);
    &&& c.id == r.id
    &&& c.name@ == r.name@
    &&& c.slug@ == repo_slug_spec(slug_of(lower_of(r.name@)), r.id)
    &&& c.worktree_path@ == repo_path_spec(attempt, r, entry)
    &&& c.root_path@ == r.root_path@
    &&& opt_view(c.branch) == context_branch(attempt, r, entry)
    &&& c.is_primary == r.is_primary
}

/// Builds the payload of an attempt: one context per repository in order, the primary's
/// id, and the environment of `compute_repository_env_map`. Fails when no repository is
/// primary.
pub fn build_executor_payload(
    task_attempt: &TaskAttempt,
    project: &Project,
    repositories: &Vec<ProjectRepository>,
    attempt_repositories: &Vec<TaskAttemptRepository>,
) -> (r: Result<ExecutorPayload, PayloadError>)
    ensures
        r is Err <==> !has_primary(repositories@),
        r matches Ok(p) ==> {
            &&& p.version == PAYLOAD_VERSION
            &&& p.attempt_id == task_attempt.id
            &&& exists|i: int|
                0 <= i < repositories@.len() && (#[trigger] repositories@[i]).is_primary
                    && repositories@[i].id == p.primary_repository_id
                    && forall|j: int| 0 <= j < i ==> !(#[trigger] repositories@[j]).is_primary
            &&& p.repositories@.len() == repositories@.len()
            &&& forall|i: int|
                0 <= i < repositories@.len() ==> context_matches(
                    #[trigger] p.repositories@[i],
                    *task_attempt,
                    repositories@[i],
                    attempt_repositories@,
                )
            &&& p.env@ == pairs_to_map(
                env_pairs(*task_attempt, *project, repositories@, attempt_repositories@),
            )
        },
{
    let mut primary: Option<u128> = None;
    let mut contexts: Vec<ExecutorRepositoryContext> = Vec::new();
    let mut i: usize = 0;
    while i < repositories.len()
        invariant
            i <= repositories@.len(),
            contexts@.len() == i,
            forall|k: int|
                0 <= k < i ==> context_matches(
                    #[trigger] contexts@[k],
                    *task_attempt,
                    repositories@[k],
                    attempt_repositories@,
                ),
            match primary {
                Some(id) => exists|k: int|
                    0 <= k < i && (#[trigger] repositories@[k]).is_primary && repositories@[k].id == id
                        && forall|j: int| 0 <= j < k ==> !(#[trigger] repositories@[j]).is_primary,
                None => forall|j: int| 0 <= j < i ==> !(#[trigger] repositories@[j]).is_primary,
            },
        decreases repositories@.len() - i,
    {
        let repo = &repositories[i];
        let entry = find_attempt_entry(attempt_repositories, repo.id);
        let from_entry: Option<String> = match entry {
            Some(e) => clone_opt(&e.container_ref),
            None => None,
        };
        let path = match (repo.is_primary, &task_attempt.container_ref, from_entry) {
            (true, Some(c), _) => c.clone(),
            (_, _, Some(c)) => c,
            _ => repo.git_repo_path.clone(),
        };
        let branch: Option<String> = match entry {
            Some(e) => match &e.branch {
                Some(b) => Some(b.clone()),
                None => if repo.is_primary {
                    Some(task_attempt.branch.clone())
                } else {
                    None
                },
            },
            None => if repo.is_primary {
                Some(task_attempt.branch.clone())
            } else {
                None
            },
        };
        if repo.is_primary && primary.is_none() {
            primary = Some(repo.id);
        }
        contexts.push(ExecutorRepositoryContext {
            id: repo.id,
            name: repo.name.clone(),
            slug: repo_slug(repo.name.as_str(), repo.id),
            worktree_path: path,
            root_path: repo.root_path.clone(),
            branch,
            is_primary: repo.is_primary,
        });
        i = i + 1;
    }
    let primary_id = match primary {
        Some(id) => id,
        None => return Err(PayloadError::PrimaryMissing),
    };
    let env = compute_repository_env_map(task_attempt, project, repositories, attempt_repositories);
    Ok(ExecutorPayload {
        version: PAYLOAD_VERSION,
        attempt_id: task_attempt.id,
        primary_repository_id: primary_id,
        repositories: contexts,
        env,
    })
}

} // verus!
