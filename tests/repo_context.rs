use vibe_kanban::env::EnvMap;
use vibe_kanban::repo_context::{augment_prompt_with_repo_context, collect_prefixes, join_path};

fn mock_env() -> EnvMap {
    let mut env = EnvMap::new();
    let mut put = |k: &str, v: &str| env.insert(k.to_string(), v.to_string());
    put("VIBE_REPOSITORY_COUNT", "2");
    put("VIBE_REPOSITORIES", "WEB,API");
    put("VIBE_PRIMARY_REPO_PREFIX", "WEB");

    put("VIBE_REPO_WEB_PATH", "/work/web-app");
    put("VIBE_REPO_WEB_ROOT", "frontend");
    put("VIBE_REPO_WEB_BRANCH", "feature/web-ui");
    put("VIBE_REPO_WEB_BASE_BRANCH", "main");
    put("VIBE_REPO_WEB_NAME", "Web Client");
    put("VIBE_REPO_WEB_IS_PRIMARY", "1");

    put("VIBE_REPO_API_PATH", "/work/core-api");
    put("VIBE_REPO_API_ROOT", "");
    put("VIBE_REPO_API_BRANCH", "feature/api");
    put("VIBE_REPO_API_BASE_BRANCH", "develop");
    put("VIBE_REPO_API_NAME", "Core API");
    put("VIBE_REPO_API_IS_PRIMARY", "0");
    env
}

#[test]
fn appends_repository_context_when_env_present() {
    let env = mock_env();
    let prompt = "Implement feature";
    let augmented = augment_prompt_with_repo_context(prompt, Some(&env));

    assert!(augmented.contains("## Repository Context"));
    assert!(augmented.contains("Web Client"));
    assert!(augmented.contains("Core API"));
    assert!(augmented.contains("VIBE_REPO_WEB_PATH"));
    assert!(augmented.contains("VIBE_REPO_API_IS_PRIMARY"));
}

#[test]
fn leaves_prompt_unchanged_without_env() {
    let prompt = "Just do it";
    let augmented = augment_prompt_with_repo_context(prompt, None);
    assert_eq!(augmented, prompt);
}

#[test]
fn instructions_put_primary_first_and_join_root() {
    let env = mock_env();
    let augmented = augment_prompt_with_repo_context("Do it\n", Some(&env));
    assert!(augmented.starts_with("Do it\n\n## Repository Context\n"));
    assert!(augmented.contains("- Repositories available: 2 (WEB, API)\n"));
    assert!(augmented.contains(
        "- Primary repository: `WEB` — Web Client (workdir: `/work/web-app/frontend`)\n"
    ));
    let web = augmented.find("\n- `WEB` — Web Client (primary)\n").unwrap();
    let api = augmented.find("\n- `API` — Core API\n").unwrap();
    assert!(web < api);
    assert!(augmented.contains("  - Root: `/` (effective workdir: `/work/core-api`)\n"));
    assert!(augmented.contains("  - Branch: `feature/api` (base: `develop`)\n"));
    assert!(augmented.contains(
        "  - Note: repo is scoped to a subdirectory; operate relative to the effective workdir.\n"
    ));
}

#[test]
fn empty_environment_leaves_prompt_unchanged() {
    let env = EnvMap::new();
    assert_eq!(augment_prompt_with_repo_context("task", Some(&env)), "task");
}

#[test]
fn prefixes_fall_back_to_path_keys_sorted_once() {
    let mut env = EnvMap::new();
    env.insert("VIBE_REPO_ZED_PATH".to_string(), "/z".to_string());
    env.insert("VIBE_REPO_ALPHA_PATH".to_string(), "/a".to_string());
    env.insert("VIBE_REPO_ALPHA_PATH".to_string(), "/a2".to_string());
    env.insert("VIBE_REPO_MID_ROOT".to_string(), "x".to_string());
    env.insert("VIBE_REPOSITORIES".to_string(), " , ".to_string());
    assert_eq!(collect_prefixes(&env), vec!["ALPHA".to_string(), "ZED".to_string()]);
}

#[test]
fn listed_prefixes_are_trimmed() {
    let mut env = EnvMap::new();
    env.insert("VIBE_REPOSITORIES".to_string(), " B , ,A".to_string());
    assert_eq!(collect_prefixes(&env), vec!["B".to_string(), "A".to_string()]);
}

#[test]
fn default_primary_line_without_flag() {
    let mut env = EnvMap::new();
    env.insert("VIBE_REPO_ONE_PATH".to_string(), "/one/".to_string());
    env.insert("VIBE_REPO_ONE_ROOT".to_string(), "/sub/".to_string());
    env.insert("VIBE_REPOSITORY_COUNT".to_string(), "x".to_string());
    let out = augment_prompt_with_repo_context("p", Some(&env));
    assert!(out.contains("- Repositories available: 1 (ONE)\n"));
    assert!(out.contains(
        "- No explicit primary repo flagged; default to `ONE` (workdir: `/one/sub`) unless instructed otherwise\n"
    ));
    assert!(out.contains("  - Branch: `<not yet created>` (base: `<inherit project target branch>`)\n"));
}

#[test]
fn join_path_handles_empty_parts() {
    assert_eq!(join_path("", "x"), None);
    assert_eq!(join_path("/a", ""), Some("/a".to_string()));
    assert_eq!(join_path("/a", "b"), Some("/a/b".to_string()));
    assert_eq!(join_path("/a/", "b"), Some("/a/b".to_string()));
}
