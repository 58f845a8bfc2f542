use vibe_kanban::models::{
    CreateProjectRepository, CreateTaskAttemptRepository, ProjectRepository, UpdateProjectRepository,
};
use vibe_kanban::attempts::{resolve_attempt_repositories, TaskAttemptError};
use vibe_kanban::store::{ProjectRepositoryError, RepositoryStore};

const PROJECT: u128 = 7;
const PRIMARY: u128 = 100;

fn seeded() -> RepositoryStore {
    RepositoryStore::new(ProjectRepository {
        id: PRIMARY,
        project_id: PROJECT,
        name: "Primary".to_string(),
        git_repo_path: "/tmp/app".to_string(),
        root_path: String::new(),
        is_primary: true,
        created_at: 1,
        updated_at: 1,
    })
}

fn create(name: &str, path: &str, root: Option<&str>, is_primary: bool) -> CreateProjectRepository {
    CreateProjectRepository {
        name: name.to_string(),
        git_repo_path: path.to_string(),
        root_path: root.map(|r| r.to_string()),
        is_primary,
    }
}

fn primaries(store: &RepositoryStore) -> Vec<u128> {
    store.repositories_vec().iter().filter(|r| r.is_primary).map(|r| r.id).collect()
}

fn attempt_primaries(store: &RepositoryStore, attempt: u128) -> Vec<u128> {
    store
        .memberships_vec()
        .iter()
        .filter(|m| m.attempt_id == attempt && m.is_primary)
        .map(|m| m.repository_id)
        .collect()
}

#[test]
fn create_repository_sets_primary_and_attempt_metadata() {
    let mut store = seeded();
    store.add_attempt(1, &None, &"main".to_string()).unwrap();
    let repo = store
        .create(&create("Secondary", "/tmp/app", Some("packages/api"), true), 200, 5)
        .expect("create repo");
    assert!(repo.is_primary);
    assert_eq!(repo.root_path, "packages/api");
    assert_eq!(primaries(&store), vec![200]);
    assert_eq!(attempt_primaries(&store, 1), vec![200]);
}

#[test]
fn update_repository_prevents_dropping_last_primary() {
    let mut store = seeded();
    let data = UpdateProjectRepository { name: None, git_repo_path: None, root_path: None, is_primary: Some(false) };
    assert!(matches!(store.update(PRIMARY, &data, 2), Err(ProjectRepositoryError::PrimaryRequired)));
    assert_eq!(primaries(&store), vec![PRIMARY]);
}

#[test]
fn delete_primary_promotes_fallback() {
    let mut store = seeded();
    store.add_attempt(1, &None, &"main".to_string()).unwrap();
    store.create(&create("Secondary", "/tmp/app", Some("apps/client"), false), 200, 5).unwrap();
    store.create(&create("Third", "/tmp/app", Some("apps/other"), false), 300, 9).unwrap();
    store.delete(PRIMARY).expect("delete primary");
    assert_eq!(primaries(&store), vec![200]);
    assert_eq!(store.find_primary().id, 200);
    assert_eq!(attempt_primaries(&store, 1), vec![200]);
    assert!(store.memberships_vec().iter().all(|m| m.repository_id != PRIMARY));
}

#[test]
fn cannot_drop_last_primary_via_delete_in_integration_flow() {
    let mut store = seeded();
    assert!(matches!(store.delete(PRIMARY), Err(ProjectRepositoryError::PrimaryRequired)));
    assert_eq!(store.repositories_vec().len(), 1);
}

#[test]
fn create_rejects_duplicates_and_blanks() {
    let mut store = seeded();
    assert!(matches!(
        store.create(&create("  ", "/x", None, false), 200, 1),
        Err(ProjectRepositoryError::Validation(_))
    ));
    assert!(matches!(
        store.create(&create("n", " ", None, false), 200, 1),
        Err(ProjectRepositoryError::Validation(_))
    ));
    assert!(matches!(
        store.create(&create("PRIMARY", "/x", None, false), 200, 1),
        Err(ProjectRepositoryError::DuplicateName)
    ));
    assert!(matches!(
        store.create(&create("Other", "/tmp/app", Some("./"), false), 200, 1),
        Err(ProjectRepositoryError::DuplicatePath)
    ));
    assert_eq!(store.repositories_vec().len(), 1);
}

#[test]
fn repository_crud_flow_updates_attempt_metadata() {
    let mut store = seeded();
    store.add_attempt(1, &None, &"feature/test".to_string()).unwrap();
    store.create(&create("Docs", "/tmp/app/docs", Some("docs"), false), 200, 5).unwrap();
    assert_eq!(store.memberships_vec().iter().filter(|m| m.attempt_id == 1).count(), 2);
    assert_eq!(attempt_primaries(&store, 1), vec![PRIMARY]);
    let promote = UpdateProjectRepository { name: None, git_repo_path: None, root_path: None, is_primary: Some(true) };
    let updated = store.update(200, &promote, 6).unwrap();
    assert!(updated.is_primary);
    assert_eq!(primaries(&store), vec![200]);
    assert_eq!(attempt_primaries(&store, 1), vec![200]);
    store.delete(PRIMARY).unwrap();
    assert_eq!(store.repositories_vec().len(), 1);
    assert_eq!(primaries(&store), vec![200]);
}

#[test]
fn update_renames_and_checks_duplicates() {
    let mut store = seeded();
    store.create(&create("Docs", "/tmp/docs", None, false), 200, 5).unwrap();
    let rename = UpdateProjectRepository { name: Some(" primary ".to_string()), git_repo_path: None, root_path: None, is_primary: None };
    assert!(matches!(store.update(200, &rename, 6), Err(ProjectRepositoryError::DuplicateName)));
    let moved = UpdateProjectRepository { name: None, git_repo_path: Some("/tmp/app".to_string()), root_path: None, is_primary: None };
    assert!(matches!(store.update(200, &moved, 6), Err(ProjectRepositoryError::DuplicatePath)));
    let ok = UpdateProjectRepository { name: Some(" Guides ".to_string()), git_repo_path: None, root_path: Some("./guides/".to_string()), is_primary: None };
    let repo = store.update(200, &ok, 7).unwrap();
    assert_eq!(repo.name, "Guides");
    assert_eq!(repo.root_path, "guides");
    assert_eq!(repo.updated_at, 7);
    assert!(matches!(store.update(999, &ok, 7), Err(ProjectRepositoryError::NotFound)));
}

#[test]
fn attempt_explicit_repository_selection_respected() {
    let mut store = seeded();
    store.create(&create("Shared utils", "/tmp/shared", Some("shared"), false), 200, 5).unwrap();
    let selection = vec![
        CreateTaskAttemptRepository { project_repository_id: PRIMARY, is_primary: false, base_branch: None },
        CreateTaskAttemptRepository { project_repository_id: 200, is_primary: true, base_branch: Some(" develop ".to_string()) },
    ];
    let assigned = store.add_attempt(1, &Some(selection), &"feature/test".to_string()).unwrap();
    assert_eq!(assigned.len(), 2);
    assert_eq!(assigned[1].base_branch, "develop");
    assert_eq!(assigned[0].base_branch, "feature/test");
    assert_eq!(attempt_primaries(&store, 1), vec![200]);
}

#[test]
fn selection_without_primary_inherits_project_primary() {
    let mut repos = seeded().repositories_vec().clone();
    repos.push(ProjectRepository {
        id: 200,
        project_id: PROJECT,
        name: "Docs".to_string(),
        git_repo_path: "/tmp/docs".to_string(),
        root_path: String::new(),
        is_primary: false,
        created_at: 2,
        updated_at: 2,
    });
    let only_docs = vec![CreateTaskAttemptRepository { project_repository_id: 200, is_primary: false, base_branch: None }];
    let v = resolve_attempt_repositories(&repos, &Some(only_docs), &"main".to_string()).unwrap();
    assert_eq!(v.len(), 2);
    assert!(!v[0].is_primary);
    assert_eq!(v[1].project_repository_id, PRIMARY);
    assert!(v[1].is_primary);
}

#[test]
fn selection_errors() {
    let repos = seeded().repositories_vec().clone();
    let main = "main".to_string();
    assert!(matches!(resolve_attempt_repositories(&vec![], &None, &main), Err(TaskAttemptError::ValidationError(_))));
    assert!(matches!(resolve_attempt_repositories(&repos, &Some(vec![]), &main), Err(TaskAttemptError::ValidationError(_))));
    let unknown = vec![CreateTaskAttemptRepository { project_repository_id: 5, is_primary: false, base_branch: None }];
    assert!(matches!(resolve_attempt_repositories(&repos, &Some(unknown), &main), Err(TaskAttemptError::ValidationError(_))));
    let twice = vec![
        CreateTaskAttemptRepository { project_repository_id: PRIMARY, is_primary: false, base_branch: None },
        CreateTaskAttemptRepository { project_repository_id: PRIMARY, is_primary: false, base_branch: None },
    ];
    assert!(matches!(resolve_attempt_repositories(&repos, &Some(twice), &main), Err(TaskAttemptError::ValidationError(_))));
    let v = resolve_attempt_repositories(&repos, &None, &main).unwrap();
    assert_eq!(v.len(), 1);
    assert!(v[0].is_primary);
}
