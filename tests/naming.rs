use uuid::Uuid;
use vibe_kanban::ids::{id_string, short_uuid};
use vibe_kanban::models::ProjectRepository;
use vibe_kanban::naming::{
    dir_name_from_task_attempt, git_branch_id, git_branch_name_with_prefix, normalize_root_path,
    repo_env_prefix, repo_slug,
};

fn attempt_id() -> u128 {
    Uuid::parse_str("12345678-1234-1234-1234-123456789abc").unwrap().as_u128()
}

#[test]
fn adds_separator_when_prefix_missing_one() {
    let branch = git_branch_name_with_prefix("greg", attempt_id(), "My Feature!");

    assert_eq!(branch, "greg/1234-my-feature");
}

#[test]
fn omits_prefix_when_empty_after_trim() {
    let branch = git_branch_name_with_prefix("   ", attempt_id(), "My Feature!");

    assert_eq!(branch, "1234-my-feature");
}

#[test]
fn keeps_prefix_that_ends_with_separator() {
    assert_eq!(git_branch_name_with_prefix(" vk/ ", attempt_id(), "Fix"), "vk/1234-fix");
    assert_eq!(git_branch_name_with_prefix("team-", attempt_id(), "Fix"), "team-1234-fix");
    assert_eq!(git_branch_name_with_prefix("x_", attempt_id(), "Fix"), "x_1234-fix");
}

#[test]
fn branch_id_slugs_and_cuts() {
    assert_eq!(git_branch_id("My Feature!"), "my-feature");
    assert_eq!(git_branch_id("  --Hello,   World--  "), "hello-world");
    assert_eq!(git_branch_id("Implement the login page"), "implement-the-lo");
    assert_eq!(git_branch_id("abcdefghijklmno pq"), "abcdefghijklmno");
    assert_eq!(git_branch_id("!!!"), "");
    assert_eq!(git_branch_id(""), "");
    assert_eq!(git_branch_id("Ünïcode Tëst"), "n-code-t-st");
}

#[test]
fn branch_id_is_idempotent_and_canonical() {
    for input in ["My Feature!", "Implement the login page", "a--b", "X_Y_Z 123", "é", "  "] {
        let once = git_branch_id(input);
        assert_eq!(git_branch_id(&once), once);
        assert!(once.len() <= 16);
        assert!(!once.starts_with('-') && !once.ends_with('-'));
        assert!(!once.contains("--"));
        assert!(once.chars().all(|c| c.is_ascii_lowercase() || c.is_ascii_digit() || c == '-'));
    }
}

#[test]
fn short_and_full_ids() {
    assert_eq!(short_uuid(attempt_id()), "1234");
    assert_eq!(id_string(attempt_id()), "12345678-1234-1234-1234-123456789abc");
    assert_eq!(short_uuid(0xabcd_0000_0000_0000_0000_0000_0000_0000), "abcd");
}

#[test]
fn directory_name_and_repo_slug() {
    assert_eq!(dir_name_from_task_attempt(attempt_id(), "My Feature!"), "1234-my-feature");
    assert_eq!(repo_slug("Docs", attempt_id()), "docs-1234");
    assert_eq!(repo_slug("***", attempt_id()), "repo-1234");
}

#[test]
fn env_prefix_of_repository() {
    let repo = ProjectRepository {
        id: attempt_id(),
        project_id: 1,
        name: "Web App".to_string(),
        git_repo_path: "/tmp/web".to_string(),
        root_path: String::new(),
        is_primary: true,
        created_at: 0,
        updated_at: 0,
    };
    assert_eq!(repo_env_prefix(&repo), "WEB_APP_1234");
    let odd = ProjectRepository { name: "Ärger ~ Ü".to_string(), ..repo };
    let prefix = repo_env_prefix(&odd);
    assert!(prefix.chars().all(|c| c.is_ascii_uppercase() || c.is_ascii_digit() || c == '_'));
}

#[test]
fn root_paths_are_normalized() {
    assert_eq!(normalize_root_path(None), "");
    assert_eq!(normalize_root_path(Some("  ./docs/ ")), "docs");
    assert_eq!(normalize_root_path(Some("./ ./packages\\api\\")), "packages\\api");
    assert_eq!(normalize_root_path(Some(".")), "");
    assert_eq!(normalize_root_path(Some("/a/b/")), "a/b");
    assert_eq!(normalize_root_path(Some("/./x")), "x");
    assert_eq!(normalize_root_path(Some(" / ./ y/ ")), "y");
    for input in ["/./x", "./", "  ././/a\\", "x/.", "/ . /"] {
        let once = normalize_root_path(Some(input));
        assert_eq!(normalize_root_path(Some(&once)), once);
        assert!(!once.starts_with("./") && !once.starts_with('/') && once != ".");
    }
}
