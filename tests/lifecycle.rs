use vibe_kanban::models::{ProjectRepository, TaskAttempt, TaskAttemptRepository};
use vibe_kanban::msg_store::{LogMsg, MsgStore};
use vibe_kanban::naming::dir_name_from_task_attempt;
use vibe_kanban::reaper::{expired_attempts, orphaned_worktrees, AttemptActivity, EXPIRY_SECONDS};
use vibe_kanban::textops::{parse_usize, replace_text, split_char};
use vibe_kanban::worktrees::{copy_file_list, config_path, plan_new_worktrees, plan_repository_container, primary_plan, profiles_path, NoRepositoriesConfigured};

fn attempt(container: Option<&str>) -> TaskAttempt {
    TaskAttempt {
        id: 0xabcd0000_0000_0000_0000_000000000001,
        task_id: 2,
        container_ref: container.map(|s| s.to_string()),
        branch: "vk/abcd-task".to_string(),
        target_branch: "main".to_string(),
        executor: "AMP".to_string(),
        worktree_deleted: false,
        setup_completed_at: None,
        created_at: 0,
        updated_at: 0,
    }
}

fn repo(id: u128, name: &str, is_primary: bool) -> ProjectRepository {
    ProjectRepository {
        id,
        project_id: 1,
        name: name.to_string(),
        git_repo_path: format!("/src/{name}"),
        root_path: String::new(),
        is_primary,
        created_at: 0,
        updated_at: 0,
    }
}

#[test]
fn subscription_replays_history_then_follows() {
    let mut store = MsgStore::new();
    store.push_stdout("one".to_string());
    store.push_stderr("two".to_string());
    let mut sub = store.subscribe();
    assert!(matches!(store.next(&mut sub), Some(LogMsg::Stdout(s)) if s == "one"));
    store.push_patch("{}".to_string());
    assert!(matches!(store.next(&mut sub), Some(LogMsg::Stderr(s)) if s == "two"));
    assert!(matches!(store.next(&mut sub), Some(LogMsg::JsonPatch(_))));
    assert!(store.next(&mut sub).is_none());
    store.push_finished();
    store.push_stdout("late".to_string());
    assert!(matches!(store.next(&mut sub), Some(LogMsg::Finished)));
    assert!(store.next(&mut sub).is_none());
    assert_eq!(store.get_history().len(), 5);
}

#[test]
fn orphan_sweep_keeps_recorded_worktrees() {
    let dirs = vec!["/w/a".to_string(), "/w/b".to_string(), "/w/c".to_string()];
    let refs = vec!["/w/b".to_string()];
    assert_eq!(orphaned_worktrees(&dirs, &refs), vec!["/w/a".to_string(), "/w/c".to_string()]);
}

#[test]
fn expiry_after_72_hours_without_running_processes() {
    let now = 1_000_000i64;
    let act = |attempt_id, last_activity, has_running_process, worktree_deleted, has_worktree| AttemptActivity {
        attempt_id,
        last_activity,
        has_running_process,
        worktree_deleted,
        has_worktree,
    };
    let list = vec![
        act(1, now - EXPIRY_SECONDS - 1, false, false, true),
        act(2, now - EXPIRY_SECONDS, false, false, true),
        act(3, 0, true, false, true),
        act(4, i64::MIN, false, false, true),
        act(5, 0, false, true, true),
        act(6, 0, false, false, false),
        act(7, 5, false, false, true),
    ];
    assert_eq!(expired_attempts(&list, now), vec![4, 7, 1]);
    assert_eq!(EXPIRY_SECONDS, 72 * 3600);
}

#[test]
fn multi_repo_worktree_paths() {
    let a = attempt(None);
    let dir = dir_name_from_task_attempt(a.id, "Task");
    assert_eq!(dir, "abcd-task");
    let repos = vec![repo(0x1111 << 112, "Suite", true), repo(0x2222 << 112, "Docs", false)];
    let plans = plan_new_worktrees(&a, "/base", &dir, &repos, &vec![]).unwrap();
    assert_eq!(plans[0].path, "/base/abcd-task");
    assert_eq!(plans[1].path, "/base/abcd-task--docs-2222");
    assert_eq!(plans[1].branch, "vk/abcd-task");
    assert!(plans[0].create_branch);
    assert!(plans[1].create_branch);
    let mut same = repo(0x3333 << 112, "Api", false);
    same.git_repo_path = "/src/Suite".to_string();
    let shared = plan_new_worktrees(&a, "/base", &dir, &vec![repos[0].clone(), same], &vec![]).unwrap();
    assert!(shared[0].create_branch);
    assert!(!shared[1].create_branch);
    assert!(plan_new_worktrees(&a, "", &dir, &repos, &vec![]).is_none());
}

#[test]
fn ensured_container_prefers_recorded_paths() {
    let a = attempt(Some("/old/primary"));
    let primary = repo(1, "Suite", true);
    let docs = repo(2, "Docs", false);
    let rows = vec![TaskAttemptRepository {
        id: 3,
        task_attempt_id: a.id,
        project_repository_id: 2,
        is_primary: false,
        container_ref: Some("/kept/docs".to_string()),
        branch: Some("  ".to_string()),
        created_at: 0,
        updated_at: 0,
    }];
    let p = plan_repository_container(&a, "/base", "abcd-task", &primary, &rows).unwrap();
    assert_eq!(p.path, "/old/primary");
    assert!(!p.update_attempt_ref);
    let d = plan_repository_container(&a, "/base", "abcd-task", &docs, &rows).unwrap();
    assert_eq!(d.path, "/kept/docs");
    assert_eq!(d.branch, "vk/abcd-task");
    let plans = vec![d.clone(), p.clone()];
    assert_eq!(primary_plan(&plans), Ok(1));
    let mut flat = d.clone();
    flat.is_primary = false;
    assert_eq!(primary_plan(&vec![flat.clone(), flat]), Ok(0));
    assert_eq!(primary_plan(&vec![]), Err(NoRepositoriesConfigured));
    let fresh = plan_repository_container(&attempt(None), "/base", "abcd-task", &primary, &vec![]).unwrap();
    assert_eq!(fresh.path, "/base/abcd-task");
    assert!(fresh.update_attempt_ref);
}

#[test]
fn text_helpers() {
    assert_eq!(parse_usize("42"), Some(42));
    assert_eq!(parse_usize("+7"), Some(7));
    assert_eq!(parse_usize(""), None);
    assert_eq!(parse_usize("4x"), None);
    assert_eq!(parse_usize("99999999999999999999999"), None);
    assert_eq!(split_char("a,,b", ','), vec!["a".to_string(), String::new(), "b".to_string()]);
    assert_eq!(replace_text("aaa", "aa", "b"), "ba");
    assert_eq!(copy_file_list(" .env , ,config/local.toml"), vec![".env".to_string(), "config/local.toml".to_string()]);
    assert_eq!(config_path("/assets"), Some("/assets/config.json".to_string()));
    assert_eq!(profiles_path("/assets/"), Some("/assets/profiles.json".to_string()));
}
