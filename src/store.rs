//! The repositories of one project and the membership rows of its attempts, with the
//! primary-repository rules: exactly one primary per project, and membership rows whose
//! primary flag mirrors their repository's.

use vstd::prelude::*;
use vstd::string::*;
use crate::models::{
    CreateProjectRepository, CreateTaskAttemptRepository, ProjectRepository, UpdateProjectRepository,
};
use crate::naming::{normalize_root_path, normalize_root_spec};
use crate::attempts::{assignments_spec, selection_view, resolve_attempt_repositories, selection_valid, RepositoryAssignment, TaskAttemptError};
use crate::strings::{lower_of, same_text, to_lowercase, trim_spec, trim_ws, CharClass};

verus! {

/// Errors of repository operations.
#[derive(Clone, Debug)]
pub enum ProjectRepositoryError {
    Validation(String),
    DuplicateName,
    DuplicatePath,
    NotFound,
    PrimaryRequired,
}

/// A repository's membership in an attempt: its worktree and branch there.
#[derive(Clone, Debug)]
pub struct AttemptMembership {
    pub attempt_id: u128,
    pub repository_id: u128,
    pub is_primary: bool,
    pub container_ref: Option<String>,
    pub branch: Option<String>,
}

/// Number of primary repositories.
pub open spec fn primary_count(repos: Seq<ProjectRepository>) -> nat
    decreases repos.len(),
{
    if repos.len() == 0 {
        0
    } else {
        primary_count(repos.drop_last()) + if repos.last().is_primary {
            1nat
        } else {
            0nat
        }
    }
}

/// Number of primary membership rows of attempt `a`.
pub open spec fn attempt_primary_count(ms: Seq<AttemptMembership>, a: u128) -> nat
    decreases ms.len(),
{
    if ms.len() == 0 {
        0
    } else {
        attempt_primary_count(ms.drop_last(), a) + if ms.last().attempt_id == a
            && ms.last().is_primary {
            1nat
        } else {
            0nat
        }
    }
}

pub proof fn lemma_count_one_intro(repos: Seq<ProjectRepository>, i: int)
    requires
        0 <= i < repos.len(),
        repos[i].is_primary,
        forall|j: int| 0 <= j < repos.len() && j != i ==> !(#[trigger] repos[j]).is_primary,
    ensures
        primary_count(repos) == 1,
    decreases repos.len(),
{
    let p = repos.drop_last();
    if i == repos.len() - 1 {
        assert forall|j: int| 0 <= j < p.len() implies !(#[trigger] p[j]).is_primary by {
            assert(p[j] == repos[j]);
        }
        lemma_count_zero(p);
    } else {
        assert forall|j: int| 0 <= j < p.len() && j != i implies !(#[trigger] p[j]).is_primary by {
            assert(p[j] == repos[j]);
        }
        assert(p[i] == repos[i]);
        lemma_count_one_intro(p, i);
        assert(!repos[repos.len() - 1].is_primary);
    }
}

pub proof fn lemma_count_zero(repos: Seq<ProjectRepository>)
    requires
        forall|j: int| 0 <= j < repos.len() ==> !(#[trigger] repos[j]).is_primary,
    ensures
        primary_count(repos) == 0,
    decreases repos.len(),
{
    if repos.len() > 0 {
        let p = repos.drop_last();
        assert forall|j: int| 0 <= j < p.len() implies !(#[trigger] p[j]).is_primary by {
            assert(p[j] == repos[j]);
        }
        lemma_count_zero(p);
        assert(!repos[repos.len() - 1].is_primary);
    }
}

/// A count of one means one primary, at a single index.
pub proof fn lemma_count_one_elim(repos: Seq<ProjectRepository>)
    requires
        primary_count(repos) == 1,
    ensures
        exists|i: int| 0 <= i < repos.len() && (#[trigger] repos[i]).is_primary,
        forall|i: int, j: int|
            0 <= i < repos.len() && 0 <= j < repos.len() && (#[trigger] repos[i]).is_primary
                && (#[trigger] repos[j]).is_primary ==> i == j,
    decreases repos.len(),
{
    let p = repos.drop_last();
    let n = repos.len() - 1;
    if repos.last().is_primary {
        assert(primary_count(p) == 0);
        lemma_count_zero_elim(p);
        assert(repos[n].is_primary);
        assert forall|i: int, j: int|
            0 <= i < repos.len() && 0 <= j < repos.len() && (#[trigger] repos[i]).is_primary
                && (#[trigger] repos[j]).is_primary implies i == j by {
            if i < n {
                assert(p[i] == repos[i]);
            }
            if j < n {
                assert(p[j] == repos[j]);
            }
        }
    } else {
        lemma_count_one_elim(p);
        let k = choose|i: int| 0 <= i < p.len() && (#[trigger] p[i]).is_primary;
        assert(repos[k] == p[k]);
        assert forall|i: int, j: int|
            0 <= i < repos.len() && 0 <= j < repos.len() && (#[trigger] repos[i]).is_primary
                && (#[trigger] repos[j]).is_primary implies i == j by {
            assert(i < n && j < n);
            assert(p[i] == repos[i] && p[j] == repos[j]);
        }
    }
}

pub proof fn lemma_count_zero_elim(repos: Seq<ProjectRepository>)
    requires
        primary_count(repos) == 0,
    ensures
        forall|j: int| 0 <= j < repos.len() ==> !(#[trigger] repos[j]).is_primary,
    decreases repos.len(),
{
    if repos.len() > 0 {
        let p = repos.drop_last();
        lemma_count_zero_elim(p);
        assert forall|j: int| 0 <= j < repos.len() implies !(#[trigger] repos[j]).is_primary by {
            if j < repos.len() - 1 {
                assert(p[j] == repos[j]);
            }
        }
    }
}

proof fn lemma_attempt_count_one(ms: Seq<AttemptMembership>, a: u128, k: int)
    requires
        0 <= k < ms.len(),
        ms[k].attempt_id == a && ms[k].is_primary,
        forall|j: int|
            0 <= j < ms.len() && j != k ==> !((#[trigger] ms[j]).attempt_id == a
                && ms[j].is_primary),
    ensures
        attempt_primary_count(ms, a) == 1,
    decreases ms.len(),
{
    let p = ms.drop_last();
    if k == ms.len() - 1 {
        lemma_attempt_count_zero(p, a);
    } else {
        assert forall|j: int| 0 <= j < p.len() && j != k implies !((#[trigger] p[j]).attempt_id
            == a && p[j].is_primary) by {
            assert(p[j] == ms[j]);
        }
        assert(p[k] == ms[k]);
        lemma_attempt_count_one(p, a, k);
        assert(!(ms[ms.len() - 1].attempt_id == a && ms[ms.len() - 1].is_primary));
    }
}

proof fn lemma_attempt_count_zero(ms: Seq<AttemptMembership>, a: u128)
    requires
        forall|j: int| 0 <= j < ms.len() ==> !((#[trigger] ms[j]).attempt_id == a && ms[j].is_primary),
    ensures
        attempt_primary_count(ms, a) == 0,
    decreases ms.len(),
{
    if ms.len() > 0 {
        let p = ms.drop_last();
        assert forall|j: int| 0 <= j < p.len() implies !((#[trigger] p[j]).attempt_id == a
            && p[j].is_primary) by {
            assert(p[j] == ms[j]);
        }
        lemma_attempt_count_zero(p, a);
        assert(!(ms[ms.len() - 1].attempt_id == a && ms[ms.len() - 1].is_primary));
    }
}

/// Every membership row's flag equals the flag of its repository.
pub open spec fn mirrors(ms: Seq<AttemptMembership>, repos: Seq<ProjectRepository>) -> bool {
    forall|k: int, i: int|
        0 <= k < ms.len() && 0 <= i < repos.len() && (#[trigger] ms[k]).repository_id == (
        #[trigger] repos[i]).id ==> ms[k].is_primary == repos[i].is_primary
}

/// Attempt `a` has a row for repository `rid`.
pub open spec fn has_row(ms: Seq<AttemptMembership>, a: u128, rid: u128) -> bool {
    exists|k: int| 0 <= k < ms.len() && (#[trigger] ms[k]).attempt_id == a && ms[k].repository_id == rid
}

/// Every membership row belongs to a repository of the project.
pub open spec fn rows_known(ms: Seq<AttemptMembership>, repos: Seq<ProjectRepository>) -> bool {
    forall|k: int| 0 <= k < ms.len() ==> has_repo(repos, (#[trigger] ms[k]).repository_id)
}

pub open spec fn ids_unique(repos: Seq<ProjectRepository>) -> bool {
    forall|i: int, j: int|
        0 <= i < repos.len() && 0 <= j < repos.len() && i != j ==> (#[trigger] repos[i]).id != (
        #[trigger] repos[j]).id
}

/// At most one row per attempt and repository.
pub open spec fn rows_unique(ms: Seq<AttemptMembership>) -> bool {
    forall|k: int, l: int|
        0 <= k < ms.len() && 0 <= l < ms.len() && k != l ==> !((#[trigger] ms[k]).attempt_id == (
        #[trigger] ms[l]).attempt_id && ms[k].repository_id == ms[l].repository_id)
}

fn copy_text(o: &Option<String>) -> (r: Option<String>)
    ensures
        r == *o,
{
    match o {
        Some(s) => Some(s.clone()),
        None => None,
    }
}

/// A field-by-field copy.
pub fn copy_repo(r: &ProjectRepository) -> (c: ProjectRepository)
    ensures
        c == *r,
{
    ProjectRepository {
        id: r.id,
        project_id: r.project_id,
        name: r.name.clone(),
        git_repo_path: r.git_repo_path.clone(),
        root_path: r.root_path.clone(),
        is_primary: r.is_primary,
        created_at: r.created_at,
        updated_at: r.updated_at,
    }
}

/// A field-by-field copy.
pub fn copy_membership(m: &AttemptMembership) -> (c: AttemptMembership)
    ensures
        c == *m,
{
    AttemptMembership {
        attempt_id: m.attempt_id,
        repository_id: m.repository_id,
        is_primary: m.is_primary,
        container_ref: copy_text(&m.container_ref),
        branch: copy_text(&m.branch),
    }
}

/// `repos` with the primary flag cleared on all but `keep`.
pub open spec fn demoted(repos: Seq<ProjectRepository>, keep: Option<u128>) -> Seq<ProjectRepository> {
    repos.map_values(
        |r: ProjectRepository|
            ProjectRepository { is_primary: r.is_primary && keep == Some(r.id), ..r },
    )
}

pub open spec fn create_blank(data: CreateProjectRepository) -> bool {
    trim_spec(data.name@, CharClass::Whitespace).len() == 0
        || trim_spec(data.git_repo_path@, CharClass::Whitespace).len() == 0
}

pub open spec fn opt_text(o: Option<String>) -> Seq<char> {
    match o {
        Some(s) => s@,
        None => Seq::empty(),
    }
}

pub open spec fn create_name_taken(repos: Seq<ProjectRepository>, data: CreateProjectRepository) -> bool {
    exists|i: int| 0 <= i < repos.len() && lower_of((#[trigger] repos[i]).name@) == lower_of(data.name@)
}

pub open spec fn create_path_taken(repos: Seq<ProjectRepository>, data: CreateProjectRepository) -> bool {
    exists|i: int|
        0 <= i < repos.len() && (#[trigger] repos[i]).git_repo_path@ == data.git_repo_path@
            && repos[i].root_path@ == normalize_root_spec(opt_text(data.root_path))
}

pub open spec fn create_accepted(repos: Seq<ProjectRepository>, data: CreateProjectRepository) -> bool {
    !create_blank(data) && !create_name_taken(repos, data) && !create_path_taken(repos, data)
}

/// The row a successful create inserts.
pub open spec fn is_created_repo(
    repo: ProjectRepository,
    project_id: u128,
    data: CreateProjectRepository,
    id: u128,
    now: i64,
) -> bool {
    &&& repo.id == id
    &&& repo.project_id == project_id
    &&& repo.name@ == data.name@
    &&& repo.git_repo_path@ == data.git_repo_path@
    &&& repo.root_path@ == normalize_root_spec(opt_text(data.root_path))
    &&& repo.is_primary == data.is_primary
    &&& repo.created_at == now
    &&& repo.updated_at == now
}

pub open spec fn has_repo(repos: Seq<ProjectRepository>, id: u128) -> bool {
    exists|i: int| 0 <= i < repos.len() && (#[trigger] repos[i]).id == id
}

/// The kinds of repository error.
#[derive(Clone, Copy, Debug, PartialEq, Eq, Structural)]
pub enum RepoErrorKind {
    Validation,
    DuplicateName,
    DuplicatePath,
    NotFound,
    PrimaryRequired,
}

pub open spec fn kind_of(e: ProjectRepositoryError) -> RepoErrorKind {
    match e {
        ProjectRepositoryError::Validation(_) => RepoErrorKind::Validation,
        ProjectRepositoryError::DuplicateName => RepoErrorKind::DuplicateName,
        ProjectRepositoryError::DuplicatePath => RepoErrorKind::DuplicatePath,
        ProjectRepositoryError::NotFound => RepoErrorKind::NotFound,
        ProjectRepositoryError::PrimaryRequired => RepoErrorKind::PrimaryRequired,
    }
}

pub open spec fn blank(o: Option<String>) -> bool {
    match o {
        Some(s) => trim_spec(s@, CharClass::Whitespace).len() == 0,
        None => false,
    }
}

pub open spec fn resolved_name(e: ProjectRepository, data: UpdateProjectRepository) -> Seq<char> {
    match data.name {
        Some(n) => trim_spec(n@, CharClass::Whitespace),
        None => e.name@,
    }
}

pub open spec fn resolved_path(e: ProjectRepository, data: UpdateProjectRepository) -> Seq<char> {
    match data.git_repo_path {
        Some(p) => trim_spec(p@, CharClass::Whitespace),
        None => e.git_repo_path@,
    }
}

pub open spec fn resolved_root(e: ProjectRepository, data: UpdateProjectRepository) -> Seq<char> {
    match data.root_path {
        Some(r) => normalize_root_spec(r@),
        None => e.root_path@,
    }
}

pub open spec fn resolved_primary(e: ProjectRepository, data: UpdateProjectRepository) -> bool {
    match data.is_primary {
        Some(b) => b,
        None => e.is_primary,
    }
}

/// Why an update of `e` is refused, if it is.
pub open spec fn update_failure(
    repos: Seq<ProjectRepository>,
    e: ProjectRepository,
    data: UpdateProjectRepository,
) -> Option<RepoErrorKind> {
    let name = resolved_name(e, data);
    let path = resolved_path(e, data);
    let root = resolved_root(e, data);
    if blank(data.name) || blank(data.git_repo_path) {
        Some(RepoErrorKind::Validation)
    } else if lower_of(name) != lower_of(e.name@) && exists|i: int|
        0 <= i < repos.len() && (#[trigger] repos[i]).id != e.id && lower_of(repos[i].name@)
            == lower_of(name) {
        Some(RepoErrorKind::DuplicateName)
    } else if (e.git_repo_path@ != path || e.root_path@ != root) && exists|i: int|
        0 <= i < repos.len() && (#[trigger] repos[i]).id != e.id && repos[i].git_repo_path@ == path
            && repos[i].root_path@ == root {
        Some(RepoErrorKind::DuplicatePath)
    } else if e.is_primary && !resolved_primary(e, data) {
        Some(RepoErrorKind::PrimaryRequired)
    } else {
        None
    }
}

/// The row a successful update leaves.
pub open spec fn is_updated_repo(
    repo: ProjectRepository,
    e: ProjectRepository,
    data: UpdateProjectRepository,
    now: i64,
) -> bool {
    &&& repo.id == e.id
    &&& repo.project_id == e.project_id
    &&& repo.name@ == resolved_name(e, data)
    &&& repo.git_repo_path@ == resolved_path(e, data)
    &&& repo.root_path@ == resolved_root(e, data)
    &&& repo.is_primary == resolved_primary(e, data)
    &&& repo.created_at == e.created_at
    &&& repo.updated_at == now
}

/// `j` is the repository that replaces the deleted `i`: the oldest other one, the first
/// among equally old ones.
pub open spec fn is_replacement(repos: Seq<ProjectRepository>, i: int, j: int) -> bool {
    &&& 0 <= j < repos.len()
    &&& j != i
    &&& forall|k: int|
        0 <= k < repos.len() && k != i ==> repos[j].created_at <= (#[trigger] repos[k]).created_at
    &&& forall|k: int| 0 <= k < j && k != i ==> (#[trigger] repos[k]).created_at > repos[j].created_at
}

pub open spec fn promoted(r: ProjectRepository) -> ProjectRepository {
    ProjectRepository { is_primary: true, ..r }
}

proof fn lemma_rows_remove(ms: Seq<AttemptMembership>, repos: Seq<ProjectRepository>, i: int)
    requires
        0 <= i < ms.len(),
        rows_unique(ms),
        rows_known(ms, repos),
    ensures
        rows_unique(ms.remove(i)),
        rows_known(ms.remove(i), repos),
{
    let t = ms.remove(i);
    assert forall|k: int, l: int|
        0 <= k < t.len() && 0 <= l < t.len() && k != l implies !((#[trigger] t[k]).attempt_id == (
        #[trigger] t[l]).attempt_id && t[k].repository_id == t[l].repository_id) by {
        let ok: int = if k < i { k } else { k + 1 };
        let ol: int = if l < i { l } else { l + 1 };
        assert(t[k] == ms[ok] && t[l] == ms[ol]);
    }
    assert forall|k: int| 0 <= k < t.len() implies exists|r: int|
        0 <= r < repos.len() && (#[trigger] t[k]).repository_id == (#[trigger] repos[r]).id by {
        let ok: int = if k < i { k } else { k + 1 };
        assert(t[k] == ms[ok]);
        assert(0 <= ok < ms.len());
        assert(exists|r: int| 0 <= r < repos.len() && (#[trigger] ms[ok]).repository_id == (#[trigger] repos[r]).id);
        let r = choose|r: int| 0 <= r < repos.len() && (#[trigger] ms[ok]).repository_id == (#[trigger] repos[r]).id;
        assert(t[k].repository_id == repos[r].id);
    }
    assert(rows_known(t, repos));
}

/// The membership rows of attempt `a` for the assignments `v`, in order.
pub open spec fn appended_rows(a: u128, v: Seq<RepositoryAssignment>) -> Seq<AttemptMembership> {
    v.map_values(
        |x: RepositoryAssignment|
            AttemptMembership {
                attempt_id: a,
                repository_id: x.project_repository_id,
                is_primary: x.is_primary,
                container_ref: None,
                branch: None,
            },
    )
}

/// Every old row is still there, at its place, for the same attempt and repository.
pub open spec fn kept_rows(old_rows: Seq<AttemptMembership>, new_rows: Seq<AttemptMembership>) -> bool {
    &&& new_rows.len() >= old_rows.len()
    &&& forall|k: int|
        0 <= k < old_rows.len() ==> (#[trigger] new_rows[k]).attempt_id == old_rows[k].attempt_id
            && new_rows[k].repository_id == old_rows[k].repository_id
}

/// The repositories of one project and the attempt memberships that refer to them.
pub struct RepositoryStore {
    project_id: u128,
    repos: Vec<ProjectRepository>,
    attempts: Vec<u128>,
    memberships: Vec<AttemptMembership>,
}

impl RepositoryStore {
    pub closed spec fn project(&self) -> u128 {
        self.project_id
    }

    /// The repositories, in creation order.
    pub closed spec fn repositories(&self) -> Seq<ProjectRepository> {
        self.repos@
    }

    /// The attempts of the project.
    pub closed spec fn attempt_ids(&self) -> Seq<u128> {
        self.attempts@
    }

    /// The membership rows.
    pub closed spec fn rows(&self) -> Seq<AttemptMembership> {
        self.memberships@
    }

    /// The store's invariant: one primary repository, distinct repository ids, rows that
    /// are unique per attempt and repository and refer to known repositories.
    pub open spec fn wf(&self) -> bool {
        &&& primary_count(self.repositories()) == 1
        &&& ids_unique(self.repositories())
        &&& forall|i: int|
            0 <= i < self.repositories().len() ==> (#[trigger] self.repositories()[i]).project_id
                == self.project()
        &&& rows_known(self.rows(), self.repositories())
        &&& rows_unique(self.rows())
    }

    /// A project's store, seeded with its primary repository.
    pub fn new(primary: ProjectRepository) -> (r: RepositoryStore)
        ensures
            r.wf(),
            r.project() == primary.project_id,
            r.repositories() == seq![ProjectRepository { is_primary: true, ..primary }],
            r.rows().len() == 0,
            r.attempt_ids().len() == 0,
    {
        let mut repo = primary;
        repo.is_primary = true;
        let project_id = repo.project_id;
        let mut repos = Vec::new();
        repos.push(repo);
        let r = RepositoryStore { project_id, repos, attempts: Vec::new(), memberships: Vec::new() };
        proof {
            lemma_count_one_intro(r.repos@, 0);
            assert(r.repos@ =~= seq![ProjectRepository { is_primary: true, ..primary }]);
        }
        r
    }

    pub fn repositories_vec(&self) -> (r: &Vec<ProjectRepository>)
        ensures
            r@ == self.repositories(),
    {
        &self.repos
    }

    pub fn memberships_vec(&self) -> (r: &Vec<AttemptMembership>)
        ensures
            r@ == self.rows(),
    {
        &self.memberships
    }

    /// Index of the repository with id `id`.
    pub fn find_index(&self, id: u128) -> (r: Option<usize>)
        ensures
            match r {
                Some(i) => i < self.repositories().len() && self.repositories()[i as int].id == id,
                None => forall|i: int|
                    0 <= i < self.repositories().len() ==> (#[trigger] self.repositories()[i]).id
                        != id,
            },
    {
        let mut i: usize = 0;
        while i < self.repos.len()
            invariant
                i <= self.repos@.len(),
                forall|j: int| 0 <= j < i ==> (#[trigger] self.repos@[j]).id != id,
            decreases self.repos@.len() - i,
        {
            if self.repos[i].id == id {
                return Some(i);
            }
            i = i + 1;
        }
        None
    }

    /// The primary repository.
    pub fn find_primary(&self) -> (r: &ProjectRepository)
        requires
            self.wf(),
        ensures
            r.is_primary,
            exists|i: int| 0 <= i < self.repositories().len() && self.repositories()[i] == *r,
    {
        proof {
            lemma_count_one_elim(self.repos@);
        }
        let mut i: usize = 0;
        while i < self.repos.len()
            invariant
                i <= self.repos@.len(),
                forall|j: int| 0 <= j < i ==> !(#[trigger] self.repos@[j]).is_primary,
                exists|j: int| 0 <= j < self.repos@.len() && (#[trigger] self.repos@[j]).is_primary,
            decreases self.repos@.len() - i,
        {
            if self.repos[i].is_primary {
                assert(self.repositories()[i as int] == self.repos@[i as int]);
                return &self.repos[i];
            }
            i = i + 1;
        }
        proof {
            assert(false);
        }
        &self.repos[0]
    }

    /// Whether another repository (not `except`) has the name, ignoring case.
    pub fn name_taken(&self, name: &str, except: Option<u128>) -> (r: bool)
        ensures
            r == exists|i: int|
                0 <= i < self.repositories().len() && Some((#[trigger] self.repositories()[i]).id)
                    != except && lower_of(self.repositories()[i].name@) == lower_of(name@),
    {
        let wanted = to_lowercase(name);
        let mut i: usize = 0;
        while i < self.repos.len()
            invariant
                i <= self.repos@.len(),
                wanted@ == lower_of(name@),
                forall|j: int|
                    0 <= j < i ==> !(Some((#[trigger] self.repos@[j]).id) != except && lower_of(
                        self.repos@[j].name@,
                    ) == lower_of(name@)),
            decreases self.repos@.len() - i,
        {
            let r = &self.repos[i];
            let other = match except {
                Some(e) => r.id != e,
                None => true,
            };
            if other && same_text(to_lowercase(r.name.as_str()).as_str(), wanted.as_str()) {
                assert(Some(self.repositories()[i as int].id) != except);
                return true;
            }
            i = i + 1;
        }
        false
    }

    /// Whether another repository (not `except`) has the same path and root.
    pub fn path_taken(&self, path: &str, root: &str, except: Option<u128>) -> (r: bool)
        ensures
            r == exists|i: int|
                0 <= i < self.repositories().len() && Some((#[trigger] self.repositories()[i]).id)
                    != except && self.repositories()[i].git_repo_path@ == path@
                    && self.repositories()[i].root_path@ == root@,
    {
        let mut i: usize = 0;
        while i < self.repos.len()
            invariant
                i <= self.repos@.len(),
                forall|j: int|
                    0 <= j < i ==> !(Some((#[trigger] self.repos@[j]).id) != except
                        && self.repos@[j].git_repo_path@ == path@ && self.repos@[j].root_path@
                        == root@),
            decreases self.repos@.len() - i,
        {
            let r = &self.repos[i];
            let other = match except {
                Some(e) => r.id != e,
                None => true,
            };
            if other && same_text(r.git_repo_path.as_str(), path) && same_text(
                r.root_path.as_str(),
                root,
            ) {
                assert(Some(self.repositories()[i as int].id) != except);
                return true;
            }
            i = i + 1;
        }
        false
    }

    /// Clears the primary flag of every repository but `keep`.
    fn demote_others(&mut self, keep: Option<u128>)
        ensures
            final(self).project_id == old(self).project_id,
            final(self).attempts == old(self).attempts,
            final(self).memberships == old(self).memberships,
            final(self).repos@.len() == old(self).repos@.len(),
            forall|i: int|
                0 <= i < final(self).repos@.len() ==> {
                    let n = #[trigger] final(self).repos@[i];
                    let o = old(self).repos@[i];
                    &&& n.id == o.id
                    &&& n.project_id == o.project_id
                    &&& n.name == o.name
                    &&& n.git_repo_path == o.git_repo_path
                    &&& n.root_path == o.root_path
                    &&& n.created_at == o.created_at
                    &&& n.updated_at == o.updated_at
                    &&& n.is_primary == (o.is_primary && keep == Some(o.id))
                },
            final(self).repos@ == demoted(old(self).repos@, keep),
    {
        let ghost before = self.repos@;
        let mut i: usize = 0;
        while i < self.repos.len()
            invariant
                i <= self.repos@.len(),
                self.repos@.len() == before.len(),
                self.project_id == old(self).project_id,
                self.attempts == old(self).attempts,
                self.memberships == old(self).memberships,
                before == old(self).repos@,
                forall|j: int|
                    0 <= j < self.repos@.len() ==> {
                        let n = #[trigger] self.repos@[j];
                        let o = before[j];
                        &&& n.id == o.id
                        &&& n.project_id == o.project_id
                        &&& n.name == o.name
                        &&& n.git_repo_path == o.git_repo_path
                        &&& n.root_path == o.root_path
                        &&& n.created_at == o.created_at
                        &&& n.updated_at == o.updated_at
                        &&& n.is_primary == if j < i {
                            o.is_primary && keep == Some(o.id)
                        } else {
                            o.is_primary
                        }
                    },
            decreases self.repos@.len() - i,
        {
            let id = self.repos[i].id;
            let keep_this = match keep {
                Some(k) => k == id,
                None => false,
            };
            if !keep_this {
                let mut r = copy_repo(&self.repos[i]);
                r.is_primary = false;
                self.repos.set(i, r);
            }
            i = i + 1;
        }
        assert(self.repos@ =~= demoted(before, keep));
    }

    /// Sets every membership row's flag from its repository.
    fn sync_flags(&mut self)
        requires
            rows_known(old(self).memberships@, old(self).repos@),
            ids_unique(old(self).repos@),
        ensures
            final(self).project_id == old(self).project_id,
            final(self).repos == old(self).repos,
            final(self).attempts == old(self).attempts,
            final(self).memberships@.len() == old(self).memberships@.len(),
            forall|k: int|
                0 <= k < final(self).memberships@.len() ==> (#[trigger] final(self).memberships@[k]).attempt_id == old(self).memberships@[k].attempt_id
                    && final(self).memberships@[k].repository_id == old(self).memberships@[k].repository_id,
            mirrors(final(self).memberships@, final(self).repos@),
    {
        let mut k: usize = 0;
        while k < self.memberships.len()
            invariant
                k <= self.memberships@.len(),
                self.memberships@.len() == old(self).memberships@.len(),
                self.project_id == old(self).project_id,
                self.repos == old(self).repos,
                self.attempts == old(self).attempts,
                rows_known(old(self).memberships@, old(self).repos@),
                forall|j: int|
                    0 <= j < self.memberships@.len() ==> (#[trigger] self.memberships@[j]).attempt_id
                        == old(self).memberships@[j].attempt_id && self.memberships@[j].repository_id
                        == old(self).memberships@[j].repository_id,
                ids_unique(self.repos@),
                forall|j: int, i: int|
                    0 <= j < k && 0 <= i < self.repos@.len() && (#[trigger] self.memberships@[j]).repository_id
                            == (#[trigger] self.repos@[i]).id ==> self.memberships@[j].is_primary
                            == self.repos@[i].is_primary,
            decreases self.memberships@.len() - k,
        {
            let rid = self.memberships[k].repository_id;
            match self.find_index(rid) {
                Some(i) => {
                    let flag = self.repos[i].is_primary;
                    let mut m = copy_membership(&self.memberships[k]);
                    m.is_primary = flag;
                    let ghost prev = self.memberships@;
                    self.memberships.set(k, m);
                    proof {
                        assert forall|j: int, i2: int|
                            0 <= j < k + 1 && 0 <= i2 < self.repos@.len() && (#[trigger] self.memberships@[j]).repository_id
                                == (#[trigger] self.repos@[i2]).id implies self.memberships@[j].is_primary
                                == self.repos@[i2].is_primary by {
                            if j == k {
                                if i2 != i {
                                    assert(self.repos@[i2].id != self.repos@[i as int].id);
                                }
                            } else {
                                assert(self.memberships@[j] == prev[j]);
                            }
                        }
                    }
                },
                None => {
                    proof {
                        assert(old(self).memberships@[k as int].repository_id == rid);
                        let i = choose|i: int|
                            0 <= i < old(self).repos@.len() && (#[trigger] old(self).memberships@[k as int]).repository_id == (#[trigger] old(self).repos@[i]).id;
                        assert(self.repos@[i].id == rid);
                        assert(self.repositories()[i].id == rid);
                        assert(false);
                    }
                },
            }
            k = k + 1;
        }
    }

    /// Index of the row for attempt `a` and repository `rid`.
    fn find_row(&self, a: u128, rid: u128) -> (r: Option<usize>)
        ensures
            match r {
                Some(k) => k < self.memberships@.len() && self.memberships@[k as int].attempt_id == a
                    && self.memberships@[k as int].repository_id == rid,
                None => forall|k: int|
                    0 <= k < self.memberships@.len() ==> !((#[trigger] self.memberships@[k]).attempt_id
                        == a && self.memberships@[k].repository_id == rid),
            },
    {
        let mut k: usize = 0;
        while k < self.memberships.len()
            invariant
                k <= self.memberships@.len(),
                forall|j: int|
                    0 <= j < k ==> !((#[trigger] self.memberships@[j]).attempt_id == a
                        && self.memberships@[j].repository_id == rid),
            decreases self.memberships@.len() - k,
        {
            if self.memberships[k].attempt_id == a && self.memberships[k].repository_id == rid {
                return Some(k);
            }
            k = k + 1;
        }
        None
    }

    /// Gives every attempt of the project a row for repository `rid` (kept if present).
    fn ensure_memberships(&mut self, rid: u128, is_primary: bool)
        requires
            rows_unique(old(self).memberships@),
            rows_known(old(self).memberships@, old(self).repos@),
            exists|i: int| 0 <= i < old(self).repos@.len() && (#[trigger] old(self).repos@[i]).id == rid,
        ensures
            final(self).project_id == old(self).project_id,
            final(self).repos == old(self).repos,
            final(self).attempts == old(self).attempts,
            rows_unique(final(self).memberships@),
            rows_known(final(self).memberships@, final(self).repos@),
            final(self).memberships@.len() >= old(self).memberships@.len(),
            forall|k: int| 0 <= k < old(self).memberships@.len() ==> #[trigger] final(self).memberships@[k] == old(self).memberships@[k],
            forall|t: int|
                0 <= t < final(self).attempts@.len() ==> has_row(
                    final(self).memberships@,
                    #[trigger] final(self).attempts@[t],
                    rid,
                ),
    {
        let mut t: usize = 0;
        while t < self.attempts.len()
            invariant
                t <= self.attempts@.len(),
                self.project_id == old(self).project_id,
                self.repos == old(self).repos,
                self.attempts == old(self).attempts,
                rows_unique(self.memberships@),
                rows_known(self.memberships@, self.repos@),
                exists|i: int| 0 <= i < self.repos@.len() && (#[trigger] self.repos@[i]).id == rid,
                self.memberships@.len() >= old(self).memberships@.len(),
                forall|k: int| 0 <= k < old(self).memberships@.len() ==> #[trigger] self.memberships@[k] == old(self).memberships@[k],
                forall|u: int| 0 <= u < t ==> has_row(self.memberships@, #[trigger] self.attempts@[u], rid),
            decreases self.attempts@.len() - t,
        {
            let a = self.attempts[t];
            match self.find_row(a, rid) {
                Some(_) => {},
                None => {
                    let ghost prev = self.memberships@;
                    self.memberships.push(
                        AttemptMembership {
                            attempt_id: a,
                            repository_id: rid,
                            is_primary,
                            container_ref: None,
                            branch: None,
                        },
                    );
                    proof {
                        let ms = self.memberships@;
                        let n = prev.len() as int;
                        assert forall|k: int, l: int|
                            0 <= k < ms.len() && 0 <= l < ms.len() && k != l implies !((
                            #[trigger] ms[k]).attempt_id == (#[trigger] ms[l]).attempt_id
                                && ms[k].repository_id == ms[l].repository_id) by {
                            if k < n && l < n {
                                assert(ms[k] == prev[k] && ms[l] == prev[l]);
                            } else if k < n {
                                assert(ms[k] == prev[k]);
                            } else {
                                assert(ms[l] == prev[l]);
                            }
                        }
                        assert forall|k: int| 0 <= k < ms.len() implies exists|i: int|
                            0 <= i < self.repos@.len() && (#[trigger] ms[k]).repository_id == (
                            #[trigger] self.repos@[i]).id by {
                            if k < n {
                                assert(ms[k] == prev[k]);
                                let i = choose|i: int|
                                    0 <= i < self.repos@.len() && (#[trigger] prev[k]).repository_id == (
                                    #[trigger] self.repos@[i]).id;
                                assert(ms[k].repository_id == self.repos@[i].id);
                            } else {
                                let i = choose|i: int|
                                    0 <= i < self.repos@.len() && (#[trigger] self.repos@[i]).id == rid;
                                assert(ms[k].repository_id == self.repos@[i].id);
                            }
                        }
                        assert forall|u: int| 0 <= u < t + 1 implies has_row(ms, #[trigger] self.attempts@[u], rid) by {
                            if u < t {
                                assert(has_row(prev, self.attempts@[u], rid));
                                let k = choose|k: int|
                                    0 <= k < prev.len() && (#[trigger] prev[k]).attempt_id
                                        == self.attempts@[u] && prev[k].repository_id == rid;
                                assert(ms[k] == prev[k]);
                            } else {
                                assert(ms[n].attempt_id == self.attempts@[u]);
                            }
                        }
                    }
                },
            }
            t = t + 1;
        }
        assert(t == self.attempts@.len());
    }

    /// Adds a repository. A blank name or path is a validation error; a name already used
    /// (ignoring case) or a path and root already used are rejected. A primary repository
    /// takes the flag from all others. Every attempt gets a row for the new repository, and
    /// every row's flag is synced from its repository.
    pub fn create(&mut self, data: &CreateProjectRepository, new_id: u128, now: i64) -> (r: Result<
        ProjectRepository,
        ProjectRepositoryError,
    >)
        requires
            old(self).wf(),
            forall|i: int|
                0 <= i < old(self).repositories().len() ==> (#[trigger] old(
                    self,
                ).repositories()[i]).id != new_id,
        ensures
            final(self).wf(),
            final(self).project() == old(self).project(),
            final(self).attempt_ids() == old(self).attempt_ids(),
            r is Ok <==> create_accepted(old(self).repositories(), *data),
            r is Ok ==> mirrors(final(self).rows(), final(self).repositories()),
            r is Ok ==> kept_rows(old(self).rows(), final(self).rows()),
            (r matches Err(ProjectRepositoryError::Validation(_))) <==> create_blank(*data),
            (r matches Err(ProjectRepositoryError::DuplicateName)) <==> (!create_blank(*data)
                && create_name_taken(old(self).repositories(), *data)),
            (r matches Err(ProjectRepositoryError::DuplicatePath)) <==> (!create_blank(*data)
                && !create_name_taken(old(self).repositories(), *data) && create_path_taken(
                old(self).repositories(),
                *data,
            )),
            r is Err ==> final(self).repositories() == old(self).repositories() && final(self).rows()
                == old(self).rows(),
            r matches Ok(repo) ==> {
                &&& is_created_repo(repo, old(self).project(), *data, new_id, now)
                &&& final(self).repositories() == if data.is_primary {
                    demoted(old(self).repositories(), None).push(repo)
                } else {
                    old(self).repositories().push(repo)
                }
                &&& forall|t: int|
                    0 <= t < final(self).attempt_ids().len() ==> has_row(
                        final(self).rows(),
                        #[trigger] final(self).attempt_ids()[t],
                        new_id,
                    )
            },
    {
        if trim_ws(data.name.as_str()).as_str().unicode_len() == 0 {
            return Err(ProjectRepositoryError::Validation(String::from_str("Repository name cannot be empty")));
        }
        if trim_ws(data.git_repo_path.as_str()).as_str().unicode_len() == 0 {
            return Err(ProjectRepositoryError::Validation(String::from_str("Repository path cannot be empty")));
        }
        let root = match &data.root_path {
            Some(p) => normalize_root_path(Some(p.as_str())),
            None => normalize_root_path(None),
        };
        if self.name_taken(data.name.as_str(), None) {
            return Err(ProjectRepositoryError::DuplicateName);
        }
        if self.path_taken(data.git_repo_path.as_str(), root.as_str(), None) {
            return Err(ProjectRepositoryError::DuplicatePath);
        }
        let ghost old_repos = self.repos@;
        if data.is_primary {
            self.demote_others(None);
        }
        let ghost mid = self.repos@;
        let repo = ProjectRepository {
            id: new_id,
            project_id: self.project_id,
            name: data.name.clone(),
            git_repo_path: data.git_repo_path.clone(),
            root_path: root,
            is_primary: data.is_primary,
            created_at: now,
            updated_at: now,
        };
        self.repos.push(copy_repo(&repo));
        proof {
            let rs = self.repos@;
            let n = mid.len() as int;
            assert(rs.drop_last() =~= mid);
            if data.is_primary {
                assert forall|j: int| 0 <= j < rs.len() && j != n implies !(#[trigger] rs[j]).is_primary by {
                    assert(rs[j] == mid[j]);
                }
                lemma_count_one_intro(rs, n);
            }
            assert forall|i: int, j: int|
                0 <= i < rs.len() && 0 <= j < rs.len() && i != j implies (#[trigger] rs[i]).id != (
                #[trigger] rs[j]).id by {
                if i < n && j < n {
                    assert(rs[i] == mid[i] && rs[j] == mid[j]);
                } else if i < n {
                    assert(rs[i] == mid[i]);
                } else {
                    assert(rs[j] == mid[j]);
                }
            }
            assert forall|i: int| 0 <= i < rs.len() implies (#[trigger] rs[i]).project_id == self.project_id by {
                if i < n {
                    assert(rs[i] == mid[i]);
                }
            }
            assert forall|k: int| 0 <= k < self.memberships@.len() implies exists|i: int|
                0 <= i < rs.len() && (#[trigger] self.memberships@[k]).repository_id == (#[trigger] rs[i]).id by {
                let i = choose|i: int|
                    0 <= i < old_repos.len() && (#[trigger] self.memberships@[k]).repository_id == (#[trigger] old_repos[i]).id;
                assert(rs[i] == mid[i]);
            }
            assert(rs[n].id == new_id);
        }
        self.ensure_memberships(new_id, data.is_primary);
        let ghost pre = self.memberships@;
        self.sync_flags();
        proof {
            assert forall|t: int| 0 <= t < self.attempts@.len() implies has_row(
                self.memberships@,
                #[trigger] self.attempts@[t],
                new_id,
            ) by {
                assert(has_row(pre, self.attempts@[t], new_id));
                let k = choose|k: int|
                    0 <= k < pre.len() && (#[trigger] pre[k]).attempt_id == self.attempts@[t]
                        && pre[k].repository_id == new_id;
                assert(self.memberships@[k].attempt_id == pre[k].attempt_id);
            }
            assert(is_created_repo(repo, self.project_id, *data, new_id, now));
        }
        Ok(repo)
    }


    /// Changes a repository. Given fields replace the stored ones (name and path trimmed,
    /// root normalized); a blank name or path is a validation error; a changed name or
    /// location already used by another repository is rejected; the primary cannot be
    /// demoted (the project would have none); promoting takes the flag from all others.
    pub fn update(&mut self, repository_id: u128, data: &UpdateProjectRepository, now: i64) -> (r:
        Result<ProjectRepository, ProjectRepositoryError>)
        requires
            old(self).wf(),
        ensures
            final(self).wf(),
            final(self).project() == old(self).project(),
            final(self).attempt_ids() == old(self).attempt_ids(),
            r is Err ==> final(self).repositories() == old(self).repositories() && final(self).rows()
                == old(self).rows(),
            !has_repo(old(self).repositories(), repository_id) ==> (r matches Err(
                ProjectRepositoryError::NotFound,
            )),
            r is Ok ==> mirrors(final(self).rows(), final(self).repositories()),
            r is Ok ==> kept_rows(old(self).rows(), final(self).rows()),
            r is Ok ==> forall|t: int|
                0 <= t < final(self).attempt_ids().len() ==> has_row(
                    final(self).rows(),
                    #[trigger] final(self).attempt_ids()[t],
                    repository_id,
                ),
            forall|i: int|
                0 <= i < old(self).repositories().len() && (#[trigger] old(
                    self,
                ).repositories()[i]).id == repository_id ==> match update_failure(
                    old(self).repositories(),
                    old(self).repositories()[i],
                    *data,
                ) {
                    Some(k) => match r {
                        Err(err) => kind_of(err) == k,
                        Ok(_) => false,
                    },
                    None => match r {
                        Ok(repo) => {
                            &&& is_updated_repo(repo, old(self).repositories()[i], *data, now)
                            &&& final(self).repositories() == if repo.is_primary {
                                demoted(old(self).repositories(), Some(repository_id)).update(i, repo)
                            } else {
                                old(self).repositories().update(i, repo)
                            }
                        },
                        Err(_) => false,
                    },
                },
    {
        let idx = match self.find_index(repository_id) {
            Some(i) => i,
            None => return Err(ProjectRepositoryError::NotFound),
        };
        proof {
            assert forall|i: int|
                0 <= i < self.repos@.len() && (#[trigger] self.repos@[i]).id == repository_id implies i
                == idx by {}
        }
        let existing = &self.repos[idx];
        let name = match &data.name {
            Some(n) => {
                let t = trim_ws(n.as_str());
                if t.as_str().unicode_len() == 0 {
                    return Err(ProjectRepositoryError::Validation(String::from_str("Repository name cannot be empty")));
                }
                t
            },
            None => existing.name.clone(),
        };
        let path = match &data.git_repo_path {
            Some(p) => {
                let t = trim_ws(p.as_str());
                if t.as_str().unicode_len() == 0 {
                    return Err(ProjectRepositoryError::Validation(String::from_str("Repository path cannot be empty")));
                }
                t
            },
            None => existing.git_repo_path.clone(),
        };
        let root = match &data.root_path {
            Some(p) => normalize_root_path(Some(p.as_str())),
            None => existing.root_path.clone(),
        };
        let primary = match data.is_primary {
            Some(b) => b,
            None => existing.is_primary,
        };
        let renamed = !same_text(
            to_lowercase(name.as_str()).as_str(),
            to_lowercase(existing.name.as_str()).as_str(),
        );
        if renamed && self.name_taken(name.as_str(), Some(repository_id)) {
            return Err(ProjectRepositoryError::DuplicateName);
        }
        let moved = !same_text(existing.git_repo_path.as_str(), path.as_str()) || !same_text(
            existing.root_path.as_str(),
            root.as_str(),
        );
        if moved && self.path_taken(path.as_str(), root.as_str(), Some(repository_id)) {
            return Err(ProjectRepositoryError::DuplicatePath);
        }
        if existing.is_primary && !primary {
            return Err(ProjectRepositoryError::PrimaryRequired);
        }
        let repo = ProjectRepository {
            id: repository_id,
            project_id: existing.project_id,
            name,
            git_repo_path: path,
            root_path: root,
            is_primary: primary,
            created_at: existing.created_at,
            updated_at: now,
        };
        let ghost old_repos = self.repos@;
        if primary {
            self.demote_others(Some(repository_id));
        }
        let ghost mid = self.repos@;
        self.repos.set(idx, copy_repo(&repo));
        proof {
            let rs = self.repos@;
            assert(rs =~= mid.update(idx as int, repo));
            if primary {
                assert forall|j: int| 0 <= j < rs.len() && j != idx implies !(#[trigger] rs[j]).is_primary by {
                    assert(rs[j] == mid[j]);
                    assert(old_repos[j].id != repository_id);
                }
                lemma_count_one_intro(rs, idx as int);
            } else {
                lemma_count_one_elim(old_repos);
                let p = choose|p: int| 0 <= p < old_repos.len() && (#[trigger] old_repos[p]).is_primary;
                assert(p != idx);
                assert forall|j: int| 0 <= j < rs.len() && j != p implies !(#[trigger] rs[j]).is_primary by {
                    if j != idx {
                        assert(rs[j] == old_repos[j]);
                    }
                }
                assert(rs[p] == old_repos[p]);
                lemma_count_one_intro(rs, p);
            }
            assert forall|i: int, j: int|
                0 <= i < rs.len() && 0 <= j < rs.len() && i != j implies (#[trigger] rs[i]).id != (
                #[trigger] rs[j]).id by {
                assert(rs[i].id == old_repos[i].id && rs[j].id == old_repos[j].id);
            }
            assert forall|i: int| 0 <= i < rs.len() implies (#[trigger] rs[i]).project_id == self.project_id by {
                assert(rs[i].project_id == old_repos[i].project_id);
            }
            assert forall|k: int| 0 <= k < self.memberships@.len() implies exists|i: int|
                0 <= i < rs.len() && (#[trigger] self.memberships@[k]).repository_id == (#[trigger] rs[i]).id by {
                let i = choose|i: int|
                    0 <= i < old_repos.len() && (#[trigger] self.memberships@[k]).repository_id == (#[trigger] old_repos[i]).id;
                assert(rs[i].id == old_repos[i].id);
            }
        }
        assert(self.repos@[idx as int].id == repository_id);
        self.ensure_memberships(repository_id, primary);
        let ghost pre = self.memberships@;
        self.sync_flags();
        proof {
            assert forall|t: int| 0 <= t < self.attempts@.len() implies has_row(
                self.memberships@,
                #[trigger] self.attempts@[t],
                repository_id,
            ) by {
                assert(has_row(pre, self.attempts@[t], repository_id));
                let k = choose|k: int|
                    0 <= k < pre.len() && (#[trigger] pre[k]).attempt_id == self.attempts@[t]
                        && pre[k].repository_id == repository_id;
                assert(self.memberships@[k].attempt_id == pre[k].attempt_id);
            }
        }
        Ok(repo)
    }

    /// Index of the repository that replaces a deleted primary: the oldest of the others,
    /// the first in order among equally old ones.
    fn pick_replacement(&self, removed: usize) -> (r: Option<usize>)
        requires
            removed < self.repos@.len(),
        ensures
            match r {
                Some(j) => is_replacement(self.repos@, removed as int, j as int),
                None => self.repos@.len() == 1,
            },
    {
        let mut best: Option<usize> = None;
        let mut k: usize = 0;
        while k < self.repos.len()
            invariant
                k <= self.repos@.len(),
                removed < self.repos@.len(),
                match best {
                    Some(b) => is_replacement(self.repos@.subrange(0, k as int), removed as int, b as int),
                    None => k == 0 || (k == 1 && removed == 0),
                },
            decreases self.repos@.len() - k,
        {
            let ghost pre = self.repos@.subrange(0, k as int);
            let ghost nxt = self.repos@.subrange(0, k + 1);
            if k != removed {
                match best {
                    Some(b) => {
                        if self.repos[k].created_at < self.repos[b].created_at {
                            best = Some(k);
                        }
                    },
                    None => {
                        best = Some(k);
                    },
                }
            }
            proof {
                match best {
                    Some(b) => {
                        assert forall|m: int| 0 <= m < nxt.len() && m != removed implies nxt[b as int].created_at <= (#[trigger] nxt[m]).created_at by {
                            if m < k {
                                assert(nxt[m] == pre[m]);
                            }
                        }
                        assert forall|m: int| 0 <= m < b && m != removed implies (#[trigger] nxt[m]).created_at > nxt[b as int].created_at by {
                            assert(nxt[m] == pre[m]);
                        }
                    },
                    None => {},
                }
            }
            k = k + 1;
        }
        assert(self.repos@.subrange(0, k as int) =~= self.repos@);
        best
    }

    /// Removes the membership rows of repository `rid`.
    fn remove_rows_of(&mut self, rid: u128)
        requires
            rows_unique(old(self).memberships@),
            rows_known(old(self).memberships@, old(self).repos@),
        ensures
            final(self).project_id == old(self).project_id,
            final(self).repos == old(self).repos,
            final(self).attempts == old(self).attempts,
            rows_unique(final(self).memberships@),
            rows_known(final(self).memberships@, final(self).repos@),
            forall|k: int| 0 <= k < final(self).memberships@.len() ==> (#[trigger] final(self).memberships@[k]).repository_id != rid,
            forall|a: u128, q: u128| q != rid && #[trigger] has_row(old(self).memberships@, a, q) ==> has_row(final(self).memberships@, a, q),
    {
        let mut k: usize = self.memberships.len();
        while k > 0
            invariant
                k <= self.memberships@.len(),
                self.project_id == old(self).project_id,
                self.repos == old(self).repos,
                self.attempts == old(self).attempts,
                rows_unique(self.memberships@),
                rows_known(self.memberships@, self.repos@),
                forall|j: int| k <= j < self.memberships@.len() ==> (#[trigger] self.memberships@[j]).repository_id != rid,
                forall|a: u128, q: u128| q != rid && #[trigger] has_row(old(self).memberships@, a, q) ==> has_row(self.memberships@, a, q),
            decreases k,
        {
            if self.memberships[k - 1].repository_id == rid {
                let ghost prev = self.memberships@;
                self.memberships.remove(k - 1);
                proof {
                    lemma_rows_remove(prev, self.repos@, k - 1);
                    assert forall|a: u128, q: u128| q != rid && #[trigger] has_row(old(self).memberships@, a, q) implies has_row(self.memberships@, a, q) by {
                        assert(has_row(prev, a, q));
                        let j = choose|j: int| 0 <= j < prev.len() && (#[trigger] prev[j]).attempt_id == a && prev[j].repository_id == q;
                        if j < k - 1 {
                            assert(self.memberships@[j] == prev[j]);
                        } else {
                            assert(j != k - 1);
                            assert(self.memberships@[j - 1] == prev[j]);
                        }
                    }
                    assert forall|j: int| k - 1 <= j < self.memberships@.len() implies (#[trigger] self.memberships@[j]).repository_id != rid by {
                        assert(self.memberships@[j] == prev[j + 1]);
                    }
                }
            }
            k = k - 1;
        }
    }

    /// Deletes a repository and its membership rows. Deleting the primary promotes the
    /// oldest remaining repository; when it is the only repository the project would have
    /// no primary, and nothing changes.
    pub fn delete(&mut self, repository_id: u128) -> (r: Result<(), ProjectRepositoryError>)
        requires
            old(self).wf(),
        ensures
            final(self).wf(),
            final(self).project() == old(self).project(),
            final(self).attempt_ids() == old(self).attempt_ids(),
            r is Err ==> final(self).repositories() == old(self).repositories() && final(self).rows()
                == old(self).rows(),
            !has_repo(old(self).repositories(), repository_id) ==> (r matches Err(
                ProjectRepositoryError::NotFound,
            )),
            r is Ok ==> mirrors(final(self).rows(), final(self).repositories()),
            r is Ok ==> forall|a: u128, q: u128| q != repository_id && #[trigger] has_row(old(self).rows(), a, q)
                ==> has_row(final(self).rows(), a, q),
            forall|i: int|
                0 <= i < old(self).repositories().len() && (#[trigger] old(
                    self,
                ).repositories()[i]).id == repository_id ==> if old(self).repositories()[i].is_primary
                    && old(self).repositories().len() == 1 {
                    r matches Err(ProjectRepositoryError::PrimaryRequired)
                } else if old(self).repositories()[i].is_primary {
                    &&& r is Ok
                    &&& exists|j: int|
                        is_replacement(old(self).repositories(), i, j) && final(self).repositories()
                            == old(self).repositories().update(
                            j,
                            promoted(old(self).repositories()[j]),
                        ).remove(i)
                } else {
                    r is Ok && final(self).repositories() == old(self).repositories().remove(i)
                },
            r is Ok ==> forall|k: int|
                0 <= k < final(self).rows().len() ==> (#[trigger] final(self).rows()[k]).repository_id
                    != repository_id,
    {
        let idx = match self.find_index(repository_id) {
            Some(i) => i,
            None => return Err(ProjectRepositoryError::NotFound),
        };
        proof {
            assert forall|i: int|
                0 <= i < self.repos@.len() && (#[trigger] self.repos@[i]).id == repository_id implies i
                == idx by {}
            lemma_count_one_elim(self.repos@);
        }
        let ghost old_repos = self.repos@;
        let replacement = if self.repos[idx].is_primary {
            match self.pick_replacement(idx) {
                Some(j) => Some(j),
                None => return Err(ProjectRepositoryError::PrimaryRequired),
            }
        } else {
            None
        };
        self.remove_rows_of(repository_id);
        match replacement {
            Some(j) => {
                let mut p = copy_repo(&self.repos[j]);
                p.is_primary = true;
                self.repos.set(j, p);
            },
            None => {},
        }
        let ghost mid = self.repos@;
        self.repos.remove(idx);
        proof {
            let rs = self.repos@;
            let n = old_repos.len();
            // the repository that is primary afterwards, and its index after the removal
            let p = choose|p: int| 0 <= p < old_repos.len() && (#[trigger] old_repos[p]).is_primary;
            let keep: int = match replacement {
                Some(j) => j as int,
                None => p,
            };
            assert(keep != idx);
            let pos: int = if keep < idx { keep } else { keep - 1 };
            assert(rs[pos] == mid[keep]);
            assert(mid[keep].is_primary);
            assert forall|j: int| 0 <= j < rs.len() && j != pos implies !(#[trigger] rs[j]).is_primary by {
                let o: int = if j < idx { j } else { j + 1 };
                assert(rs[j] == mid[o]);
                assert(o != keep);
                assert(o != p || replacement.is_some());
            }
            lemma_count_one_intro(rs, pos);
            assert forall|i: int, j: int|
                0 <= i < rs.len() && 0 <= j < rs.len() && i != j implies (#[trigger] rs[i]).id != (
                #[trigger] rs[j]).id by {
                let oi: int = if i < idx { i } else { i + 1 };
                let oj: int = if j < idx { j } else { j + 1 };
                assert(rs[i].id == old_repos[oi].id && rs[j].id == old_repos[oj].id);
            }
            assert forall|i: int| 0 <= i < rs.len() implies (#[trigger] rs[i]).project_id == self.project_id by {
                let oi: int = if i < idx { i } else { i + 1 };
                assert(rs[i].project_id == old_repos[oi].project_id);
            }
            assert forall|k: int| 0 <= k < self.memberships@.len() implies exists|i: int|
                0 <= i < rs.len() && (#[trigger] self.memberships@[k]).repository_id == (#[trigger] rs[i]).id by {
                let i = choose|i: int|
                    0 <= i < old_repos.len() && (#[trigger] self.memberships@[k]).repository_id == (#[trigger] old_repos[i]).id;
                assert(mid[i].id == old_repos[i].id);
                assert(self.memberships@[k].repository_id != repository_id);
                assert(mid[idx as int].id == repository_id);
                assert(i != idx);
                let ni: int = if i < idx { i } else { i - 1 };
                assert(rs[ni] == mid[i]);
            }
            match replacement {
                Some(j) => {
                    assert(rs =~= old_repos.update(j as int, promoted(old_repos[j as int])).remove(idx as int));
                },
                None => {
                    assert(rs =~= old_repos.remove(idx as int));
                },
            }
        }
        let ghost pre = self.memberships@;
        self.sync_flags();
        proof {
            assert forall|k: int| 0 <= k < self.memberships@.len() implies (#[trigger] self.memberships@[k]).repository_id != repository_id by {
                assert(self.memberships@[k].repository_id == pre[k].repository_id);
            }
            assert forall|a: u128, q: u128| q != repository_id && #[trigger] has_row(old(self).memberships@, a, q) implies has_row(self.memberships@, a, q) by {
                assert(has_row(pre, a, q));
                let k = choose|k: int| 0 <= k < pre.len() && (#[trigger] pre[k]).attempt_id == a && pre[k].repository_id == q;
                assert(self.memberships@[k].attempt_id == pre[k].attempt_id);
            }
        }
        Ok(())
    }


    /// Registers a new attempt with the repositories chosen for it (see
    /// `resolve_attempt_repositories`), one row each; exactly one of them is primary.
    pub fn add_attempt(
        &mut self,
        attempt_id: u128,
        selection: &Option<Vec<CreateTaskAttemptRepository>>,
        base_branch: &String,
    ) -> (r: Result<Vec<RepositoryAssignment>, TaskAttemptError>)
        requires
            old(self).wf(),
            forall|k: int| 0 <= k < old(self).rows().len() ==> (#[trigger] old(self).rows()[k]).attempt_id != attempt_id,
        ensures
            final(self).wf(),
            final(self).project() == old(self).project(),
            final(self).repositories() == old(self).repositories(),
            r is Ok <==> match selection {
                None => true,
                Some(sel) => selection_valid(old(self).repositories(), sel@),
            },
            r is Err ==> final(self).rows() == old(self).rows() && final(self).attempt_ids() == old(self).attempt_ids(),
            r matches Ok(v) ==> {
                &&& assignments_spec(old(self).repositories(), selection_view(*selection), base_branch@, v@)
                &&& final(self).rows() == old(self).rows() + appended_rows(attempt_id, v@)
                &&& final(self).attempt_ids() == old(self).attempt_ids().push(attempt_id)
                &&& attempt_primary_count(final(self).rows(), attempt_id) == 1
                &&& forall|i: int| 0 <= i < v@.len() ==> has_row(final(self).rows(), attempt_id, (#[trigger] v@[i]).project_repository_id)
            },
    {
        proof {
            lemma_count_one_elim(self.repos@);
        }
        let v = match resolve_attempt_repositories(&self.repos, selection, base_branch) {
            Ok(v) => v,
            Err(e) => return Err(e),
        };
        let ghost old_ms = self.memberships@;
        let ghost n = old_ms.len();
        let mut i: usize = 0;
        while i < v.len()
            invariant
                i <= v@.len(),
                self.repos == old(self).repos,
                self.project_id == old(self).project_id,
                self.attempts == old(self).attempts,
                self.memberships@.len() == n + i,
                self.memberships@ == old_ms + appended_rows(attempt_id, v@.subrange(0, i as int)),
                forall|k: int| 0 <= k < n ==> self.memberships@[k] == old_ms[k],
                forall|j: int| n <= j < n + i ==> (#[trigger] self.memberships@[j]).attempt_id == attempt_id
                    && self.memberships@[j].repository_id == v@[j - n].project_repository_id
                    && self.memberships@[j].is_primary == v@[j - n].is_primary,
                forall|k: int| 0 <= k < v@.len() ==> has_repo(self.repos@, (#[trigger] v@[k]).project_repository_id),
                forall|a: int, b: int|
                    0 <= a < v@.len() && 0 <= b < v@.len() && a != b ==> (#[trigger] v@[a]).project_repository_id
                        != (#[trigger] v@[b]).project_repository_id,
                rows_unique(self.memberships@),
                rows_known(self.memberships@, self.repos@),
                forall|k: int| 0 <= k < n ==> (#[trigger] old_ms[k]).attempt_id != attempt_id,
            decreases v@.len() - i,
        {
            let ghost prev = self.memberships@;
            self.memberships.push(AttemptMembership {
                attempt_id,
                repository_id: v[i].project_repository_id,
                is_primary: v[i].is_primary,
                container_ref: None,
                branch: None,
            });
            proof {
                let ms = self.memberships@;
                let last = (n + i) as int;
                assert(appended_rows(attempt_id, v@.subrange(0, i + 1)) =~= appended_rows(attempt_id, v@.subrange(0, i as int)).push(ms[last]));
                assert(ms =~= old_ms + appended_rows(attempt_id, v@.subrange(0, i + 1)));
                assert forall|k: int, l: int|
                    0 <= k < ms.len() && 0 <= l < ms.len() && k != l implies !((#[trigger] ms[k]).attempt_id == (
                    #[trigger] ms[l]).attempt_id && ms[k].repository_id == ms[l].repository_id) by {
                    if k < last && l < last {
                        assert(ms[k] == prev[k] && ms[l] == prev[l]);
                    } else if k < last {
                        assert(ms[k] == prev[k]);
                        if k >= n {
                            assert(ms[k].repository_id == v@[k - n].project_repository_id);
                            assert(v@[k - n].project_repository_id != v@[i as int].project_repository_id);
                        } else {
                            assert(old_ms[k].attempt_id != attempt_id);
                        }
                    } else if l < last {
                        assert(ms[l] == prev[l]);
                        if l >= n {
                            assert(ms[l].repository_id == v@[l - n].project_repository_id);
                            assert(v@[l - n].project_repository_id != v@[i as int].project_repository_id);
                        } else {
                            assert(old_ms[l].attempt_id != attempt_id);
                        }
                    }
                }
                assert forall|k: int| 0 <= k < ms.len() implies has_repo(self.repos@, (#[trigger] ms[k]).repository_id) by {
                    if k < last {
                        assert(ms[k] == prev[k]);
                    } else {
                        assert(has_repo(self.repos@, v@[i as int].project_repository_id));
                    }
                }
                assert forall|j: int| n <= j < n + i + 1 implies (#[trigger] ms[j]).attempt_id == attempt_id
                    && ms[j].repository_id == v@[j - n].project_repository_id
                    && ms[j].is_primary == v@[j - n].is_primary by {
                    if j < n + i {
                        assert(ms[j] == prev[j]);
                    }
                }
            }
            i = i + 1;
        }
        self.attempts.push(attempt_id);
        proof {
            assert(v@.subrange(0, v@.len() as int) =~= v@);
            let ms = self.memberships@;
            let p = choose|p: int| 0 <= p < v@.len() && (#[trigger] v@[p]).is_primary;
            assert(ms[n + p].attempt_id == attempt_id && ms[n + p].is_primary);
            assert forall|j: int| 0 <= j < ms.len() && j != n + p implies !((#[trigger] ms[j]).attempt_id == attempt_id
                && ms[j].is_primary) by {
                if j < n {
                    assert(ms[j] == old_ms[j]);
                } else {
                    assert(ms[j].is_primary == v@[j - n].is_primary);
                }
            }
            lemma_attempt_count_one(ms, attempt_id, n + p);
            assert forall|q: int| 0 <= q < v@.len() implies has_row(ms, attempt_id, (#[trigger] v@[q]).project_repository_id) by {
                assert(ms[n + q].attempt_id == attempt_id);
            }
        }
        Ok(v)
    }
}

/// Every project has exactly one primary repository: a single index holds it.
pub proof fn lemma_project_has_one_primary(s: &RepositoryStore)
    requires
        s.wf(),
    ensures
        primary_count(s.repositories()) == 1,
        exists|i: int| 0 <= i < s.repositories().len() && (#[trigger] s.repositories()[i]).is_primary,
        forall|i: int, j: int|
            0 <= i < s.repositories().len() && 0 <= j < s.repositories().len()
                && (#[trigger] s.repositories()[i]).is_primary && (#[trigger] s.repositories()[j]).is_primary ==> i == j,
{
    lemma_count_one_elim(s.repositories());
}

/// While membership rows mirror their repositories (as they do right after any change of
/// the project's repositories), an attempt with a row for the project's primary repository
/// has exactly one primary row.
pub proof fn lemma_attempt_has_one_primary(s: &RepositoryStore, a: u128, p: int)
    requires
        s.wf(),
        mirrors(s.rows(), s.repositories()),
        0 <= p < s.repositories().len(),
        s.repositories()[p].is_primary,
        has_row(s.rows(), a, s.repositories()[p].id),
    ensures
        attempt_primary_count(s.rows(), a) == 1,
{
    let ms = s.rows();
    let repos = s.repositories();
    lemma_count_one_elim(repos);
    let k = choose|k: int| 0 <= k < ms.len() && (#[trigger] ms[k]).attempt_id == a && ms[k].repository_id == repos[p].id;
    assert(ms[k].is_primary);
    assert forall|j: int| 0 <= j < ms.len() && j != k implies !((#[trigger] ms[j]).attempt_id == a && ms[j].is_primary) by {
        if ms[j].attempt_id == a && ms[j].is_primary {
            assert(has_repo(repos, ms[j].repository_id));
            let i = choose|i: int| 0 <= i < repos.len() && (#[trigger] repos[i]).id == ms[j].repository_id;
            assert(repos[i].is_primary);
            assert(i == p);
        }
    }
    lemma_attempt_count_one(ms, a, k);
}

} // verus!
