use uuid::Uuid;
use vibe_kanban::env::{decimal, join, EnvMap};
use vibe_kanban::models::{Project, ProjectRepository, TaskAttempt, TaskAttemptRepository};
use vibe_kanban::naming::repo_env_prefix;
use vibe_kanban::payload::{build_executor_payload, compute_repository_env_map, PayloadError, PAYLOAD_VERSION};

fn make_project(name: &str, path: &str) -> Project {
    Project {
        id: Uuid::new_v4().as_u128(),
        name: name.to_string(),
        git_repo_path: path.to_string(),
        setup_script: None,
        dev_script: None,
        cleanup_script: None,
        copy_files: None,
        created_at: 0,
        updated_at: 0,
    }
}

fn make_task_attempt(task_id: u128, container: Option<&str>, branch: &str) -> TaskAttempt {
    TaskAttempt {
        id: Uuid::new_v4().as_u128(),
        task_id,
        container_ref: container.map(|p| p.to_string()),
        branch: branch.to_string(),
        target_branch: "main".to_string(),
        executor: "AMP".to_string(),
        worktree_deleted: false,
        setup_completed_at: None,
        created_at: 0,
        updated_at: 0,
    }
}

fn make_repository(project_id: u128, name: &str, path: &str, root: &str, is_primary: bool) -> ProjectRepository {
    ProjectRepository {
        id: Uuid::new_v4().as_u128(),
        project_id,
        name: name.to_string(),
        git_repo_path: path.to_string(),
        root_path: root.to_string(),
        is_primary,
        created_at: 0,
        updated_at: 0,
    }
}

fn make_attempt_repo(
    task_attempt_id: u128,
    project_repository_id: u128,
    container: Option<&str>,
    branch: Option<&str>,
    is_primary: bool,
) -> TaskAttemptRepository {
    TaskAttemptRepository {
        id: Uuid::new_v4().as_u128(),
        task_attempt_id,
        project_repository_id,
        is_primary,
        container_ref: container.map(|p| p.to_string()),
        branch: branch.map(|b| b.to_string()),
        created_at: 0,
        updated_at: 0,
    }
}

#[test]
fn compute_env_single_repository() {
    let project = make_project("App", "/tmp/app");
    let task_attempt =
        make_task_attempt(Uuid::new_v4().as_u128(), Some("/tmp/worktrees/app"), "feature/app");
    let repo = make_repository(project.id, "App", "/tmp/app", "", true);

    let env = compute_repository_env_map(&task_attempt, &project, &vec![repo.clone()], &vec![]);

    let prefix = repo_env_prefix(&repo);
    assert_eq!(env.get("VIBE_REPOSITORY_COUNT"), Some("1".to_string()));
    assert_eq!(env.get("VIBE_REPOSITORIES"), Some(prefix.clone()));
    assert_eq!(
        env.get(&format!("VIBE_REPO_{}_PATH", prefix)),
        Some("/tmp/worktrees/app".to_string())
    );
    assert_eq!(
        env.get(&format!("VIBE_REPO_{}_IS_PRIMARY", prefix)),
        Some("1".to_string())
    );
    assert_eq!(
        env.get("VIBE_PRIMARY_REPO_PATH"),
        Some("/tmp/worktrees/app".to_string())
    );
    assert_eq!(env.get("VIBE_PRIMARY_REPO_ROOT"), Some(String::new()));
    assert_eq!(
        env.get("VIBE_PRIMARY_REPO_BRANCH"),
        Some("feature/app".to_string())
    );
    let repo_id = Uuid::from_u128(repo.id).to_string();
    assert_eq!(env.get(&format!("VIBE_REPO_{}_ID", prefix)), Some(repo_id.clone()));
    assert_eq!(env.get("VIBE_PRIMARY_REPOSITORY_ID"), Some(repo_id));
    assert_eq!(env.get("VIBE_TASK_ATTEMPT_ID"), Some(Uuid::from_u128(task_attempt.id).to_string()));
    assert_eq!(env.get("VIBE_EXECUTOR_PAYLOAD_VERSION"), Some("1".to_string()));
}

#[test]
fn compute_env_multiple_repositories() {
    let project = make_project("Suite", "/tmp/suite");
    let task_attempt =
        make_task_attempt(Uuid::new_v4().as_u128(), Some("/tmp/worktrees/suite"), "feature/main");

    let primary_repo = make_repository(project.id, "Suite", "/tmp/suite", "", true);
    let secondary_repo = make_repository(project.id, "Docs", "/tmp/suite", "docs", false);

    let attempt_map = vec![
        make_attempt_repo(
            task_attempt.id,
            primary_repo.id,
            Some("/tmp/worktrees/suite"),
            Some("feature/main"),
            true,
        ),
        make_attempt_repo(
            task_attempt.id,
            secondary_repo.id,
            Some("/tmp/worktrees/docs"),
            Some("docs-update"),
            false,
        ),
    ];

    let env = compute_repository_env_map(
        &task_attempt,
        &project,
        &vec![primary_repo.clone(), secondary_repo.clone()],
        &attempt_map,
    );

    let primary_prefix = repo_env_prefix(&primary_repo);
    let secondary_prefix = repo_env_prefix(&secondary_repo);
    assert_eq!(env.get("VIBE_REPOSITORY_COUNT"), Some("2".to_string()));
    assert_eq!(
        env.get("VIBE_REPOSITORIES"),
        Some(format!("{},{}", primary_prefix, secondary_prefix))
    );
    assert_eq!(
        env.get(&format!("VIBE_REPO_{}_PATH", secondary_prefix)),
        Some("/tmp/worktrees/docs".to_string())
    );
    assert_eq!(env.get("VIBE_PRIMARY_REPO_PREFIX"), Some(primary_prefix));
    assert_eq!(
        env.get("VIBE_PRIMARY_REPO_PATH"),
        Some("/tmp/worktrees/suite".to_string())
    );
    assert_eq!(
        env.get(&format!("VIBE_REPO_{}_BRANCH", secondary_prefix)),
        Some("docs-update".to_string())
    );
}

#[test]
fn env_without_repositories_uses_primary_block() {
    let project = make_project("Solo", "/tmp/solo");
    let attempt = make_task_attempt(1, None, "vk/abcd-x");
    let env = compute_repository_env_map(&attempt, &project, &vec![], &vec![]);
    assert_eq!(env.get("VIBE_REPOSITORIES"), Some("PRIMARY".to_string()));
    assert_eq!(env.get("VIBE_REPO_PRIMARY_PATH"), Some("/tmp/solo".to_string()));
    assert_eq!(env.get("VIBE_PRIMARY_REPO_NAME"), Some("Solo".to_string()));
    assert_eq!(env.get("VIBE_REPO_PRIMARY_BRANCH"), Some("vk/abcd-x".to_string()));
}

#[test]
fn env_without_flagged_primary_falls_back_to_first() {
    let project = make_project("P", "/tmp/p");
    let attempt = make_task_attempt(1, None, "b");
    let a = make_repository(project.id, "Alpha", "/tmp/a", "", false);
    let b = make_repository(project.id, "Beta", "/tmp/b", "x", false);
    let env = compute_repository_env_map(&attempt, &project, &vec![a.clone(), b.clone()], &vec![]);
    assert_eq!(env.get("VIBE_PRIMARY_REPO_PREFIX"), Some(repo_env_prefix(&a)));
    assert_eq!(env.get("VIBE_PRIMARY_REPO_PATH"), Some("/tmp/p".to_string()));
    assert_eq!(env.get("VIBE_PRIMARY_REPO_NAME"), Some("Alpha".to_string()));
    assert_eq!(env.get(&format!("VIBE_REPO_{}_BRANCH", repo_env_prefix(&b))), Some(String::new()));
    assert_eq!(env.get(&format!("VIBE_REPO_{}_IS_PRIMARY", repo_env_prefix(&b))), Some("0".to_string()));
}

#[test]
fn env_map_later_value_wins() {
    let mut env = EnvMap::new();
    assert!(!env.contains_key("K"));
    env.insert("K".to_string(), "1".to_string());
    env.insert("K".to_string(), "2".to_string());
    env.insert_if_absent("K".to_string(), "3".to_string());
    env.insert_if_absent("L".to_string(), "4".to_string());
    assert_eq!(env.get("K"), Some("2".to_string()));
    assert_eq!(env.get("L"), Some("4".to_string()));
}

#[test]
fn decimal_and_join() {
    assert_eq!(decimal(0), "0");
    assert_eq!(decimal(1200), "1200");
    assert_eq!(decimal(usize::MAX), usize::MAX.to_string());
    assert_eq!(join(&vec!["A".to_string(), "B".to_string()], ","), "A,B");
    assert_eq!(join(&vec![], ","), "");
}

#[test]
fn payload_lists_repositories_and_primary() {
    let project = make_project("Suite", "/tmp/suite");
    let attempt = make_task_attempt(3, Some("/w/suite"), "vk/1234-x");
    let primary = make_repository(project.id, "Suite", "/tmp/suite", "", true);
    let docs = make_repository(project.id, "Docs", "/tmp/suite", "docs", false);
    let rows = vec![make_attempt_repo(attempt.id, docs.id, Some("/w/docs"), None, false)];
    let p = build_executor_payload(&attempt, &project, &vec![primary.clone(), docs.clone()], &rows).unwrap();
    assert_eq!(p.version, PAYLOAD_VERSION);
    assert_eq!(p.primary_repository_id, primary.id);
    assert_eq!(p.repositories.len(), 2);
    assert_eq!(p.repositories[0].worktree_path, "/w/suite");
    assert_eq!(p.repositories[0].branch.as_deref(), Some("vk/1234-x"));
    assert_eq!(p.repositories[1].worktree_path, "/w/docs");
    assert_eq!(p.repositories[1].branch, None);
    assert!(p.repositories[1].slug.starts_with("docs-"));
    assert_eq!(p.env.get("VIBE_REPOSITORY_COUNT"), Some("2".to_string()));
    let none = build_executor_payload(&attempt, &project, &vec![docs], &rows);
    assert!(matches!(none, Err(PayloadError::PrimaryMissing)));
}
