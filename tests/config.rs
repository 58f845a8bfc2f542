use vibe_kanban::config::{ActivityFeedConfig, GitHubConfig};
use vibe_kanban::priority::{
    calculate_score, task_status_to_string, ActivityEntityType, ActivityFeedScope,
    UrgencyComputationContext, UrgencyLevel,
};
use vibe_kanban::models::TaskStatus;

fn base_config() -> GitHubConfig {
    GitHubConfig {
        branch_prefix: None,
        merge_commit_message_suffix: None,
        ..GitHubConfig::default()
    }
}

#[test]
fn resolved_branch_prefix_uses_default_when_missing() {
    let config = base_config();

    assert_eq!(
        config.resolved_branch_prefix(),
        GitHubConfig::DEFAULT_BRANCH_PREFIX
    );
}

#[test]
fn resolved_branch_prefix_trims_and_preserves_empty() {
    let mut config = base_config();
    config.branch_prefix = Some("  ".into());

    assert_eq!(config.resolved_branch_prefix(), "");

    config.branch_prefix = Some(" greg ".into());
    assert_eq!(config.resolved_branch_prefix(), "greg");
}

#[test]
fn format_merge_commit_suffix_substitutes_placeholders() {
    let mut config = base_config();
    config.merge_commit_message_suffix = Some("(gb {short_id} {TASK_ID})".into());

    let formatted = config
        .format_merge_commit_suffix("abcd", "1234-5678")
        .expect("suffix should be Some");

    assert_eq!(formatted, "(gb abcd 1234-5678)");
}

#[test]
fn format_merge_commit_suffix_returns_none_when_blank() {
    let mut config = base_config();
    config.merge_commit_message_suffix = Some("   ".into());

    assert!(
        config
            .format_merge_commit_suffix("abcd", "1234-5678")
            .is_none()
    );
}

#[test]
fn format_merge_commit_suffix_uppercases_placeholders() {
    let mut config = base_config();
    config.merge_commit_message_suffix = Some("{SHORT_ID}-{task_id}-{SHORT_ID}".into());
    assert_eq!(
        config.format_merge_commit_suffix("ab1f", "t-9x"),
        Some("AB1F-t-9x-AB1F".to_string())
    );
    assert_eq!(base_config().format_merge_commit_suffix("a", "b"), None);
    config.merge_commit_message_suffix = Some("[{TASK_ID}]".into());
    assert_eq!(config.format_merge_commit_suffix("x", "1234-abcd"), Some("[1234-ABCD]".to_string()));
}

#[test]
fn default_config_values() {
    let config = GitHubConfig::default();
    assert_eq!(config.branch_prefix.as_deref(), Some("vk/"));
    assert_eq!(
        config.merge_commit_message_suffix.as_deref(),
        Some("(vibe-kanban {short_id})")
    );
    assert_eq!(config.default_pr_base.as_deref(), Some("main"));
    let feed = ActivityFeedConfig::default();
    assert!(feed.enabled);
    assert_eq!(feed.window_days, 21);
    assert_eq!(ActivityFeedConfig::default_window(), 21);
}

#[test]
fn token_prefers_personal_access_token() {
    let mut config = base_config();
    assert_eq!(config.token(), None);
    config.oauth_token = Some("oauth".into());
    assert_eq!(config.token(), Some("oauth".to_string()));
    config.pat = Some("pat".into());
    assert_eq!(config.token(), Some("pat".to_string()));
}

#[test]
fn scores_respect_level_and_recency() {
    let recent = UrgencyComputationContext {
        level: UrgencyLevel::High,
        recency_hours: 1,
        entity_type: ActivityEntityType::Task,
    };
    let old = UrgencyComputationContext {
        level: UrgencyLevel::High,
        recency_hours: 48,
        entity_type: ActivityEntityType::Task,
    };

    assert!(calculate_score(recent) > calculate_score(old));
}

#[test]
fn deployment_events_get_small_bonus() {
    let ctx = UrgencyComputationContext {
        level: UrgencyLevel::Elevated,
        recency_hours: 0,
        entity_type: ActivityEntityType::Deployment,
    };
    assert!(calculate_score(ctx) >= 60);
}

#[test]
fn score_exact_values() {
    let ctx = |level, hours, entity_type| UrgencyComputationContext {
        level,
        recency_hours: hours,
        entity_type,
    };
    assert_eq!(calculate_score(ctx(UrgencyLevel::High, 48, ActivityEntityType::Task)), 59);
    assert_eq!(calculate_score(ctx(UrgencyLevel::Low, 500, ActivityEntityType::Comment)), 0);
    assert_eq!(calculate_score(ctx(UrgencyLevel::Critical, 0, ActivityEntityType::Deployment)), 100);
    assert_eq!(calculate_score(ctx(UrgencyLevel::Normal, 6, ActivityEntityType::Attempt)), 36);
}

#[test]
fn scope_and_status_names() {
    assert_eq!(ActivityFeedScope::default(), ActivityFeedScope::Mine);
    assert_eq!(ActivityFeedScope::All.as_str(), "all");
    assert_eq!(task_status_to_string(&TaskStatus::InReview), "inreview");
}
