use vibe_kanban::linediff::compute_line_change_counts;
use vibe_kanban::diff::{line_counts_of, apply_policy_to_batch, apply_stream_omit_policy, omit_diff_contents, Diff, MAX_CUMULATIVE_DIFF_BYTES};
use vibe_kanban::models::{ProjectRepository, TaskAttemptRepository};
use vibe_kanban::resolver::{normalize_diff_path, normalize_repo_root, RepositoryLookup};
use vibe_kanban::stream::{escape_json_pointer_segment, process_file_changes, DiffPatch};
use vibe_kanban::worktrees::{diff_stream_mode, DiffStreamMode};

fn diff(path: &str, old: Option<String>, new: Option<String>) -> Diff {
    Diff {
        old_path: Some(path.to_string()),
        new_path: Some(path.to_string()),
        old_content: old,
        new_content: new,
        additions: None,
        deletions: None,
        content_omitted: false,
        repository_id: None,
        repository_name: None,
        repository_root: None,
    }
}

fn repo(id: u128, name: &str, root: &str, is_primary: bool, created_at: i64) -> ProjectRepository {
    ProjectRepository {
        id,
        project_id: 1,
        name: name.to_string(),
        git_repo_path: "/tmp/suite".to_string(),
        root_path: root.to_string(),
        is_primary,
        created_at,
        updated_at: created_at,
    }
}

fn lookup() -> RepositoryLookup {
    RepositoryLookup::from_project_and_attempt(
        &vec![repo(1, "Suite", "", true, 1), repo(2, "Docs", "/docs/", false, 2)],
        &vec![],
    )
}

#[test]
fn diff_stream_under_byte_pressure() {
    let big = "x".repeat(30 * 1024 * 1024);
    let mut diffs = Vec::new();
    for i in 0..5 {
        diffs.push(diff(&format!("big{i}"), Some(big.clone()), Some(big.clone())));
        diffs.push(diff(&format!("small{i}"), Some("a\n".to_string()), Some("b\n".to_string())));
    }
    let counts = vec![(1usize, 1usize); diffs.len()];
    let mut sent = 0usize;
    apply_policy_to_batch(&mut diffs, &mut sent, false, &counts);
    let emitted: usize = diffs
        .iter()
        .map(|d| d.old_content.as_ref().map_or(0, |s| s.len()) + d.new_content.as_ref().map_or(0, |s| s.len()))
        .sum();
    assert_eq!(emitted, sent);
    assert!(sent <= MAX_CUMULATIVE_DIFF_BYTES);
    let full_big = diffs.iter().filter(|d| d.old_path.as_deref().unwrap().starts_with("big") && !d.content_omitted).count();
    assert_eq!(full_big, 3);
    for d in &diffs {
        if d.old_path.as_deref().unwrap().starts_with("small") {
            assert!(!d.content_omitted);
        } else if d.content_omitted {
            assert_eq!(d.additions, Some(1));
            assert_eq!(d.deletions, Some(1));
            assert!(d.old_content.is_none() && d.new_content.is_none());
        }
    }
}

#[test]
fn stats_only_omits_everything() {
    let mut d = diff("a", Some("old".to_string()), None);
    d.additions = Some(4);
    let mut sent = 10usize;
    apply_stream_omit_policy(&mut d, &mut sent, true, (9, 9));
    assert!(d.content_omitted);
    assert_eq!(d.additions, Some(4));
    assert_eq!(d.deletions, None);
    assert_eq!(sent, 10);
    let mut e = diff("b", None, None);
    omit_diff_contents(&mut e, (3, 2));
    assert_eq!(e.additions, None);
    let mut f = diff("c", Some("1".to_string()), Some("22".to_string()));
    let mut sent = 0usize;
    apply_stream_omit_policy(&mut f, &mut sent, false, (0, 0));
    assert_eq!(sent, 3);
    assert!(!f.content_omitted);
}

#[test]
fn paths_attributed_by_longest_root() {
    let lk = lookup();
    let mut d = diff("./docs/guide.md", None, None);
    assert_eq!(lk.annotate_diff(&mut d), Some(2));
    assert_eq!(d.repository_name.as_deref(), Some("Docs"));
    assert_eq!(d.repository_root.as_deref(), Some("docs"));
    let mut e = diff("/src/main.rs", None, None);
    assert_eq!(lk.annotate_diff(&mut e), Some(1));
    assert_eq!(e.repository_root, None);
    let mut f = diff("docs", None, None);
    assert_eq!(lk.annotate_diff(&mut f), Some(2));
    let mut g = diff("docsx/a", None, None);
    assert_eq!(lk.annotate_diff(&mut g), Some(1));
    assert_eq!(lk.primary().unwrap().id, 1);
}

#[test]
fn attempt_rows_select_repositories() {
    let rows = vec![TaskAttemptRepository {
        id: 9,
        task_attempt_id: 5,
        project_repository_id: 2,
        is_primary: true,
        container_ref: None,
        branch: None,
        created_at: 0,
        updated_at: 0,
    }];
    let lk = RepositoryLookup::from_project_and_attempt(
        &vec![repo(1, "Suite", "", true, 1), repo(2, "Docs", "docs", false, 2)],
        &rows,
    );
    assert_eq!(lk.repos.len(), 1);
    assert_eq!(lk.primary().unwrap().id, 2);
    let mut d = diff("src/x", None, None);
    assert_eq!(lk.annotate_diff(&mut d), Some(2));
    let empty = RepositoryLookup::from_project_and_attempt(&vec![], &vec![]);
    let mut e = diff("a", None, None);
    e.repository_id = Some(3);
    assert_eq!(empty.annotate_diff(&mut e), None);
    assert_eq!(e.repository_id, None);
}

#[test]
fn file_changes_emit_adds_then_removes() {
    let lk = lookup();
    let current = vec![diff("docs/a.md", Some("x".to_string()), Some("y".to_string())), diff("src/b.rs", None, Some("z".to_string()))];
    let changed = vec!["docs/a.md".to_string(), "src/b.rs".to_string(), "docs/gone.md".to_string()];
    let mut sent = 0usize;
    let mut full = Vec::new();
    let patches = process_file_changes(current, &vec![(1, 1), (1, 0)], &changed, &mut sent, &mut full, false, &lk, None);
    assert_eq!(patches.len(), 3);
    assert!(matches!(&patches[0], DiffPatch::AddDiff { key, .. } if key == "docs~1a.md"));
    assert!(matches!(&patches[2], DiffPatch::RemoveDiff { key } if key == "docs~1gone.md"));
    assert_eq!(sent, 3);
    assert_eq!(full.len(), 2);

    let current = vec![diff("docs/a.md", Some("x".to_string()), None), diff("src/b.rs", None, Some("z".to_string()))];
    let mut sent2 = 0usize;
    let mut full2 = Vec::new();
    let filtered = process_file_changes(current, &vec![(0, 1), (1, 0)], &changed, &mut sent2, &mut full2, false, &lk, Some(2));
    assert_eq!(filtered.len(), 2);
    assert!(matches!(&filtered[1], DiffPatch::RemoveDiff { key } if key == "docs~1gone.md"));
}

#[test]
fn omitted_diff_of_fully_sent_path_is_skipped() {
    let lk = lookup();
    let mut full = vec!["src/b.rs".to_string()];
    let mut sent = 0usize;
    let patches = process_file_changes(vec![diff("src/b.rs", None, Some("z".to_string()))], &vec![(1, 0)], &vec![], &mut sent, &mut full, true, &lk, None);
    assert!(patches.is_empty());
}

#[test]
fn path_helpers() {
    assert_eq!(escape_json_pointer_segment("a/b~c"), "a~1b~0c");
    assert_eq!(normalize_diff_path(".//x/y"), "x/y");
    assert_eq!(normalize_repo_root("\\pkg\\api\\"), "pkg/api");
    assert_eq!(diff_stream_mode(true, true, 0), DiffStreamMode::Merged);
    assert_eq!(diff_stream_mode(true, true, 1), DiffStreamMode::Live);
    assert_eq!(diff_stream_mode(false, true, 0), DiffStreamMode::Live);
}

#[test]
fn line_change_counts() {
    assert_eq!(compute_line_change_counts("a\nb\nc\n", "a\nx\nc\nd\n"), (2, 1));
    assert_eq!(compute_line_change_counts("", "one\ntwo"), (2, 0));
    assert_eq!(compute_line_change_counts("same\n", "same\n"), (0, 0));
    let d = diff("f", Some("1\n2\n".to_string()), None);
    assert_eq!(line_counts_of(&d), (0, 2));
}
