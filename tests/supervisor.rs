use vibe_kanban::actions::{
    CodingAgentInitialRequest, ExecutionProcessRunReason, ExecutorAction, ExecutorActionType,
    ExecutorProfileId, ScriptContext, ScriptRequest, ScriptRequestLanguage,
};
use vibe_kanban::supervisor::{
    any_running, build_followup_action, is_clean_exit, commit_message, exit_plan, exit_record, followup_allowed,
    should_finalize, should_record_exit, stop_plan, Draft, DraftType, ExecutionProcessStatus,
    ExitEvent,
};

fn draft(prompt: &str, queued: bool) -> Draft {
    Draft {
        task_attempt_id: 1,
        draft_type: DraftType::FollowUp,
        prompt: prompt.to_string(),
        queued,
        sending: false,
        variant: Some("fast".to_string()),
        image_ids: None,
    }
}

fn initial() -> ExecutorActionType {
    ExecutorActionType::CodingAgentInitialRequest(CodingAgentInitialRequest {
        prompt: "do".to_string(),
        executor_profile_id: ExecutorProfileId { executor: "AMP".to_string(), variant: None },
    })
}

#[test]
fn exit_statuses() {
    assert_eq!(exit_record(ExitEvent::Exited { code: Some(0) }), (Some(0), ExecutionProcessStatus::Completed));
    assert_eq!(exit_record(ExitEvent::Exited { code: Some(2) }), (Some(2), ExecutionProcessStatus::Failed));
    assert_eq!(exit_record(ExitEvent::Exited { code: None }), (Some(-1), ExecutionProcessStatus::Failed));
    assert_eq!(exit_record(ExitEvent::WaitFailed), (None, ExecutionProcessStatus::Failed));
    assert_eq!(exit_record(ExitEvent::CooperativeDone), (Some(0), ExecutionProcessStatus::Completed));
    assert!(!should_record_exit(ExecutionProcessStatus::Killed));
    assert!(should_record_exit(ExecutionProcessStatus::Running));
    assert!(is_clean_exit(ExecutionProcessStatus::Completed, Some(0)));
    assert!(!is_clean_exit(ExecutionProcessStatus::Completed, None));
    assert!(!is_clean_exit(ExecutionProcessStatus::Failed, Some(0)));
}

#[test]
fn noop_coding_agent_run_skips_next_action_and_finalizes() {
    let plan = exit_plan(ExecutionProcessRunReason::CodingAgent, true, Some(false), true);
    assert!(!plan.start_next);
    assert!(plan.finalize);
    assert!(plan.consume_followup);
    let plan = exit_plan(ExecutionProcessRunReason::CodingAgent, true, Some(false), false);
    assert!(!plan.start_next);
    assert!(plan.finalize);
    assert!(plan.consume_followup);
}

#[test]
fn clean_run_with_changes_starts_next_action() {
    let plan = exit_plan(ExecutionProcessRunReason::CodingAgent, true, Some(true), true);
    assert!(plan.start_next && !plan.finalize);
    let plan = exit_plan(ExecutionProcessRunReason::SetupScript, true, None, true);
    assert!(plan.start_next);
    let plan = exit_plan(ExecutionProcessRunReason::CleanupScript, true, Some(false), false);
    assert!(!plan.start_next && plan.finalize && plan.consume_followup);
    let plan = exit_plan(ExecutionProcessRunReason::DevServer, true, None, false);
    assert!(!plan.finalize && !plan.consume_followup);
    let plan = exit_plan(ExecutionProcessRunReason::CodingAgent, false, None, true);
    assert!(!plan.start_next && !plan.finalize);
}

#[test]
fn commit_messages() {
    let id = 0x12345678_1234_1234_1234_123456789abc;
    assert_eq!(
        commit_message(ExecutionProcessRunReason::CodingAgent, None, id),
        Some("Commit changes from coding agent for task attempt 12345678-1234-1234-1234-123456789abc".to_string())
    );
    assert_eq!(
        commit_message(ExecutionProcessRunReason::CodingAgent, Some("Summary".to_string()), id),
        Some("Summary".to_string())
    );
    assert_eq!(
        commit_message(ExecutionProcessRunReason::CleanupScript, Some("ignored".to_string()), id),
        Some("Cleanup script changes for task attempt 12345678-1234-1234-1234-123456789abc".to_string())
    );
    assert_eq!(commit_message(ExecutionProcessRunReason::DevServer, None, id), None);
}

#[test]
fn stop_marks_killed() {
    let plan = stop_plan(ExecutionProcessRunReason::CodingAgent);
    assert_eq!(plan.status, ExecutionProcessStatus::Killed);
    assert_eq!(plan.exit_code, None);
    assert!(plan.task_to_review);
    assert!(!stop_plan(ExecutionProcessRunReason::DevServer).task_to_review);
}

#[test]
fn queued_followup_consumed_once() {
    let mut d = draft("next step", true);
    assert!(followup_allowed(ExecutionProcessRunReason::CodingAgent, false, Some(&d)));
    let first = d.try_mark_sending();
    let second = d.try_mark_sending();
    assert!(first);
    assert!(!second);
    d.clear_after_send();
    assert!(!d.queued && !d.sending && d.prompt.is_empty());
    assert!(!followup_allowed(ExecutionProcessRunReason::CodingAgent, false, Some(&d)));
}

#[test]
fn followup_conditions() {
    let d = draft("  ", true);
    assert!(!followup_allowed(ExecutionProcessRunReason::CodingAgent, false, Some(&d)));
    let d = draft("go", false);
    assert!(!followup_allowed(ExecutionProcessRunReason::CodingAgent, false, Some(&d)));
    let d = draft("go", true);
    assert!(!followup_allowed(ExecutionProcessRunReason::CodingAgent, true, Some(&d)));
    assert!(!followup_allowed(ExecutionProcessRunReason::DevServer, false, Some(&d)));
    assert!(!followup_allowed(ExecutionProcessRunReason::CodingAgent, false, None));
    assert!(any_running(&vec![ExecutionProcessStatus::Completed, ExecutionProcessStatus::Running]));
    assert!(!any_running(&vec![ExecutionProcessStatus::Completed]));
}

#[test]
fn followup_action_inherits_profile_and_chains_cleanup() {
    let action = build_followup_action(
        &initial(),
        "next".to_string(),
        Some("fast".to_string()),
        "session-1".to_string(),
        Some("make clean".to_string()),
    )
    .unwrap();
    match action.typ() {
        ExecutorActionType::CodingAgentFollowUpRequest(q) => {
            assert_eq!(q.prompt, "next");
            assert_eq!(q.session_id, "session-1");
            assert_eq!(q.executor_profile_id.executor, "AMP");
            assert_eq!(q.executor_profile_id.variant.as_deref(), Some("fast"));
        }
        _ => panic!("expected a follow-up request"),
    }
    let next = action.next_action().unwrap();
    assert_eq!(next.typ().run_reason(), ExecutionProcessRunReason::CleanupScript);
    assert!(!should_finalize(&action, ExecutionProcessRunReason::CodingAgent));
    assert!(should_finalize(next, ExecutionProcessRunReason::CleanupScript));
    let script = ExecutorActionType::ScriptRequest(ScriptRequest {
        script: "x".to_string(),
        language: ScriptRequestLanguage::Bash,
        context: ScriptContext::SetupScript,
    });
    assert!(build_followup_action(&script, "p".to_string(), None, "s".to_string(), None).is_none());
    let plain = build_followup_action(&initial(), "p".to_string(), None, "s".to_string(), None).unwrap();
    assert!(plain.next_action().is_none());
    let chained = ExecutorAction::new(initial(), None);
    assert!(should_finalize(&chained, ExecutionProcessRunReason::CodingAgent));
    assert!(!should_finalize(&chained, ExecutionProcessRunReason::DevServer));
}
