//! The persistent entities and request values. Identifiers are 128-bit values and
//! timestamps are seconds since the Unix epoch.

use vstd::prelude::*;

verus! {

/// A project: a name, the path of its main repository and its scripts.
#[derive(Clone, Debug)]
pub struct Project {
    pub id: u128,
    pub name: String,
    pub git_repo_path: String,
    pub setup_script: Option<String>,
    pub dev_script: Option<String>,
    pub cleanup_script: Option<String>,
    /// Comma-separated relative paths copied into new worktrees.
    pub copy_files: Option<String>,
    pub created_at: i64,
    pub updated_at: i64,
}

#[derive(Clone, Debug)]
pub struct CreateProject {
    pub name: String,
    pub git_repo_path: String,
    pub use_existing_repo: bool,
    pub setup_script: Option<String>,
    pub dev_script: Option<String>,
    pub cleanup_script: Option<String>,
    pub copy_files: Option<String>,
}

#[derive(Clone, Debug)]
pub struct UpdateProject {
    pub name: Option<String>,
    pub git_repo_path: Option<String>,
    pub setup_script: Option<String>,
    pub dev_script: Option<String>,
    pub cleanup_script: Option<String>,
    pub copy_files: Option<String>,
}

/// One hit of a file search inside a project.
#[derive(Clone, Debug)]
pub struct SearchResult {
    pub path: String,
    pub is_file: bool,
    pub match_type: SearchMatchType,
}

#[derive(Clone, Copy, Debug, PartialEq, Eq, Structural)]
pub enum SearchMatchType {
    FileName,
    DirectoryName,
    FullPath,
}

/// A repository of a project, scoped to `root_path` inside `git_repo_path`.
#[derive(Clone, Debug)]
pub struct ProjectRepository {
    pub id: u128,
    pub project_id: u128,
    pub name: String,
    pub git_repo_path: String,
    pub root_path: String,
    pub is_primary: bool,
    pub created_at: i64,
    pub updated_at: i64,
}

#[derive(Clone, Debug)]
pub struct CreateProjectRepository {
    pub name: String,
    pub git_repo_path: String,
    pub root_path: Option<String>,
    pub is_primary: bool,
}

#[derive(Clone, Debug)]
pub struct UpdateProjectRepository {
    pub name: Option<String>,
    pub git_repo_path: Option<String>,
    pub root_path: Option<String>,
    pub is_primary: Option<bool>,
}

#[derive(Clone, Copy, Debug, PartialEq, Eq, Structural)]
pub enum TaskStatus {
    Todo,
    InProgress,
    InReview,
    Done,
    Cancelled,
}

/// A task of a project; `parent_task_id` makes the tasks a tree.
#[derive(Clone, Debug)]
pub struct Task {
    pub id: u128,
    pub project_id: u128,
    pub title: String,
    pub description: Option<String>,
    pub status: TaskStatus,
    pub parent_task_id: Option<u128>,
}

#[derive(Clone, Copy, Debug, PartialEq, Eq, Structural)]
pub enum TaskAttemptStatus {
    SetupRunning,
    SetupComplete,
    SetupFailed,
    ExecutorRunning,
    ExecutorComplete,
    ExecutorFailed,
}

/// One run of a task against one or more worktrees.
#[derive(Clone, Debug)]
pub struct TaskAttempt {
    pub id: u128,
    pub task_id: u128,
    /// Path of the primary worktree; `None` when not materialized or cleaned up.
    pub container_ref: Option<String>,
    pub branch: String,
    pub target_branch: String,
    pub executor: String,
    pub worktree_deleted: bool,
    pub setup_completed_at: Option<i64>,
    pub created_at: i64,
    pub updated_at: i64,
}

#[derive(Clone, Debug)]
pub struct CreateFollowUpAttempt {
    pub prompt: String,
}

#[derive(Clone, Debug)]
pub struct AttemptResumeContext {
    pub execution_history: String,
    pub cumulative_diffs: String,
}

/// Membership of a project repository in an attempt, with its worktree and branch.
#[derive(Clone, Debug)]
pub struct TaskAttemptRepository {
    pub id: u128,
    pub task_attempt_id: u128,
    pub project_repository_id: u128,
    pub is_primary: bool,
    pub container_ref: Option<String>,
    pub branch: Option<String>,
    pub created_at: i64,
    pub updated_at: i64,
}

/// A repository chosen by the caller when an attempt is created.
#[derive(Clone, Debug)]
pub struct CreateTaskAttemptRepository {
    pub project_repository_id: u128,
    pub is_primary: bool,
    pub base_branch: Option<String>,
}

} // verus!
