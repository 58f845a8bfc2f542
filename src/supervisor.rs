//! Decisions of the execution supervisor. The runtime around it waits for the child,
//! commits, starts processes and writes rows; these functions say what to do at each
//! step, from the facts it hands them.

use vstd::prelude::*;
use vstd::string::*;
use crate::actions::{
    CodingAgentFollowUpRequest, ExecutionProcessRunReason, ExecutorAction, ExecutorActionType,
    ExecutorProfileId, ScriptContext, ScriptRequest, ScriptRequestLanguage,
};
use crate::ids::{hyphenated_form, id_string};
use crate::strings::{trim_spec, trim_ws, CharClass};

verus! {

/// Persistent status of an execution process.
#[derive(Clone, Copy, Debug, PartialEq, Eq, Structural)]
pub enum ExecutionProcessStatus {
    Running,
    Completed,
    Failed,
    Killed,
}

/// How waiting for a child ended.
#[derive(Clone, Copy, Debug, PartialEq, Eq, Structural)]
pub enum ExitEvent {
    /// The OS reported an exit; `code` is `None` when a signal ended the child.
    Exited { code: Option<i32> },
    /// Waiting for the child failed.
    WaitFailed,
    /// The executor signalled completion; the process group is killed and the run
    /// counts as a success.
    CooperativeDone,
}

/// The terminal status and exit code recorded for an exit.
pub open spec fn exit_record_spec(e: ExitEvent) -> (Option<i64>, ExecutionProcessStatus) {
    match e {
        ExitEvent::Exited { code } => match code {
            Some(c) => (
                Some(c as i64),
                if c == 0 {
                    ExecutionProcessStatus::Completed
                } else {
                    ExecutionProcessStatus::Failed
                },
            ),
            None => (Some(-1i64), ExecutionProcessStatus::Failed),
        },
        ExitEvent::WaitFailed => (None, ExecutionProcessStatus::Failed),
        ExitEvent::CooperativeDone => (Some(0i64), ExecutionProcessStatus::Completed),
    }
}

/// Maps the end of a wait to the exit code and terminal status to record.
pub fn exit_record(e: ExitEvent) -> (r: (Option<i64>, ExecutionProcessStatus))
    ensures
        r == exit_record_spec(e),
{
    match e {
        ExitEvent::Exited { code } => match code {
            Some(c) => (
                Some(c as i64),
                if c == 0 {
                    ExecutionProcessStatus::Completed
                } else {
                    ExecutionProcessStatus::Failed
                },
            ),
            None => (Some(-1i64), ExecutionProcessStatus::Failed),
        },
        ExitEvent::WaitFailed => (None, ExecutionProcessStatus::Failed),
        ExitEvent::CooperativeDone => (Some(0i64), ExecutionProcessStatus::Completed),
    }
}

/// The status is written unless an explicit stop already marked the process.
pub fn should_record_exit(current: ExecutionProcessStatus) -> (r: bool)
    ensures
        r == (current != ExecutionProcessStatus::Killed),
{
    current != ExecutionProcessStatus::Killed
}

/// A run ended cleanly: `Completed` with exit code 0.
pub open spec fn clean_exit(status: ExecutionProcessStatus, exit_code: Option<i64>) -> bool {
    status == ExecutionProcessStatus::Completed && exit_code == Some(0i64)
}

/// Whether a run ended cleanly.
pub fn is_clean_exit(status: ExecutionProcessStatus, exit_code: Option<i64>) -> (r: bool)
    ensures
        r == clean_exit(status, exit_code),
{
    status == ExecutionProcessStatus::Completed && match exit_code {
        Some(c) => c == 0,
        None => false,
    }
}

/// Only coding-agent and cleanup-script runs commit their changes.
pub open spec fn commits_changes(reason: ExecutionProcessRunReason) -> bool {
    reason == ExecutionProcessRunReason::CodingAgent || reason
        == ExecutionProcessRunReason::CleanupScript
}

/// A chain is finalized when it has no next action and is not a dev server.
pub open spec fn should_finalize_spec(has_next: bool, reason: ExecutionProcessRunReason) -> bool {
    !has_next && reason != ExecutionProcessRunReason::DevServer
}

pub fn should_finalize(action: &ExecutorAction, reason: ExecutionProcessRunReason) -> (r: bool)
    ensures
        r == should_finalize_spec(action.next_action.is_some(), reason),
{
    action.next_action.is_none() && reason != ExecutionProcessRunReason::DevServer
}

/// What the exit monitor does after a process ended.
#[derive(Clone, Copy, Debug, PartialEq, Eq, Structural)]
pub struct ExitPlan {
    /// Start the action's next action.
    pub start_next: bool,
    /// Set the task to `InReview` and notify.
    pub finalize: bool,
    /// Look for a queued follow-up draft and start it: whenever the task is finalized.
    pub consume_followup: bool,
}

/// The plan for a finished process. `changes_committed` is the result of the commit that
/// a clean exit asks for: `Some(true)` when a commit was made, also when the commit failed
/// (it is then treated as if changes were made), `Some(false)` when there was nothing to
/// commit, `None` when no commit was attempted.
pub open spec fn exit_plan_spec(
    reason: ExecutionProcessRunReason,
    clean: bool,
    changes_committed: Option<bool>,
    has_next: bool,
) -> ExitPlan {
    let committed = match changes_committed {
        Some(c) => c,
        None => false,
    };
    let proceed = reason != ExecutionProcessRunReason::CodingAgent || committed;
    let skipped = clean && !proceed;
    let finalize_chain = should_finalize_spec(has_next, reason);
    ExitPlan {
        start_next: clean && proceed && has_next,
        finalize: skipped || finalize_chain,
        consume_followup: skipped || finalize_chain,
    }
}

pub fn exit_plan(
    reason: ExecutionProcessRunReason,
    clean: bool,
    changes_committed: Option<bool>,
    has_next: bool,
) -> (r: ExitPlan)
    ensures
        r == exit_plan_spec(reason, clean, changes_committed, has_next),
{
    let committed = match changes_committed {
        Some(c) => c,
        None => false,
    };
    let proceed = reason != ExecutionProcessRunReason::CodingAgent || committed;
    let skipped = clean && !proceed;
    let finalize_chain = !has_next && reason != ExecutionProcessRunReason::DevServer;
    ExitPlan {
        start_next: clean && proceed && has_next,
        finalize: skipped || finalize_chain,
        consume_followup: skipped || finalize_chain,
    }
}

/// A coding agent that exits cleanly without changes starts nothing further, its task is
/// finalized (set to review) and a queued follow-up is looked for, whatever actions were
/// chained after it.
pub proof fn lemma_noop_coding_agent_run(has_next: bool)
    ensures
        !exit_plan_spec(ExecutionProcessRunReason::CodingAgent, true, Some(false), has_next).start_next,
        exit_plan_spec(ExecutionProcessRunReason::CodingAgent, true, Some(false), has_next).finalize,
        exit_plan_spec(ExecutionProcessRunReason::CodingAgent, true, Some(false), has_next).consume_followup,
{
}

/// A finalized task always looks for a queued follow-up.
pub proof fn lemma_finalized_consumes_followup(
    reason: ExecutionProcessRunReason,
    clean: bool,
    changes_committed: Option<bool>,
    has_next: bool,
)
    ensures
        exit_plan_spec(reason, clean, changes_committed, has_next).consume_followup
            == exit_plan_spec(reason, clean, changes_committed, has_next).finalize,
{
}

/// Text of the default coding-agent commit message for an attempt.
pub open spec fn agent_commit_message(attempt_id: u128) -> Seq<char> {
    "Commit changes from coding agent for task attempt "@ + hyphenated_form(attempt_id)
}

/// Text of the cleanup-script commit message for an attempt.
pub open spec fn cleanup_commit_message(attempt_id: u128) -> Seq<char> {
    "Cleanup script changes for task attempt "@ + hyphenated_form(attempt_id)
}

/// The commit message of a run, or `None` for runs that do not commit.
pub open spec fn commit_message_spec(
    reason: ExecutionProcessRunReason,
    summary: Option<Seq<char>>,
    attempt_id: u128,
) -> Option<Seq<char>> {
    match reason {
        ExecutionProcessRunReason::CodingAgent => match summary {
            Some(s) => Some(s),
            None => Some(agent_commit_message(attempt_id)),
        },
        ExecutionProcessRunReason::CleanupScript => Some(cleanup_commit_message(attempt_id)),
        _ => None,
    }
}

/// Message for the commit after a clean run: the session summary of a coding agent when
/// it has one, else a default naming the attempt.
pub fn commit_message(
    reason: ExecutionProcessRunReason,
    summary: Option<String>,
    attempt_id: u128,
) -> (r: Option<String>)
    ensures
        r.is_some() == commits_changes(reason),
        r.is_some() ==> Some(r.unwrap()@) == commit_message_spec(
            reason,
            match summary {
                Some(s) => Some(s@),
                None => None,
            },
            attempt_id,
        ),
{
    match reason {
        ExecutionProcessRunReason::CodingAgent => match summary {
            Some(s) => Some(s),
            None => {
                let mut m = String::from_str("Commit changes from coding agent for task attempt ");
                m.append(id_string(attempt_id).as_str());
                Some(m)
            },
        },
        ExecutionProcessRunReason::CleanupScript => {
            let mut m = String::from_str("Cleanup script changes for task attempt ");
            m.append(id_string(attempt_id).as_str());
            Some(m)
        },
        _ => None,
    }
}

/// What an explicit stop writes and whether the task goes to review.
pub struct StopPlan {
    pub status: ExecutionProcessStatus,
    pub exit_code: Option<i64>,
    pub task_to_review: bool,
}

pub fn stop_plan(reason: ExecutionProcessRunReason) -> (r: StopPlan)
    ensures
        r.status == ExecutionProcessStatus::Killed,
        r.exit_code.is_none(),
        r.task_to_review == (reason != ExecutionProcessRunReason::DevServer),
{
    StopPlan {
        status: ExecutionProcessStatus::Killed,
        exit_code: None,
        task_to_review: reason != ExecutionProcessRunReason::DevServer,
    }
}

/// Kind of a draft.
#[derive(Clone, Copy, Debug, PartialEq, Eq, Structural)]
pub enum DraftType {
    FollowUp,
    Retry,
}

/// A pending prompt of an attempt. `sending` is the lock that one consumer takes.
#[derive(Clone, Debug)]
pub struct Draft {
    pub task_attempt_id: u128,
    pub draft_type: DraftType,
    pub prompt: String,
    pub queued: bool,
    pub sending: bool,
    pub variant: Option<String>,
    pub image_ids: Option<Vec<u128>>,
}

/// Spec of the compare-and-set on `sending`: it succeeds only when not already sending.
pub open spec fn mark_sending_spec(sending: bool) -> (bool, bool) {
    (!sending, true)
}

impl Draft {
    /// Takes the sending lock: true only when no one held it.
    pub fn try_mark_sending(&mut self) -> (r: bool)
        ensures
            (r, final(self).sending) == mark_sending_spec(old(self).sending),
            final(self).prompt == old(self).prompt,
            final(self).queued == old(self).queued,
            final(self).task_attempt_id == old(self).task_attempt_id,
            final(self).draft_type == old(self).draft_type,
    {
        if self.sending {
            false
        } else {
            self.sending = true;
            true
        }
    }

    /// After the follow-up started: empty, no longer queued, lock released.
    pub fn clear_after_send(&mut self)
        ensures
            final(self).prompt@.len() == 0,
            !final(self).queued,
            !final(self).sending,
            final(self).image_ids.is_none(),
            final(self).task_attempt_id == old(self).task_attempt_id,
            final(self).draft_type == old(self).draft_type,
    {
        self.prompt = String::new();
        self.queued = false;
        self.sending = false;
        self.image_ids = None;
    }
}

/// What `n` consumers trying the lock of one draft in turn get back.
pub open spec fn mark_results(sending: bool, n: nat) -> Seq<bool>
    decreases n,
{
    if n == 0 {
        Seq::empty()
    } else {
        let (r, next) = mark_sending_spec(sending);
        seq![r] + mark_results(next, (n - 1) as nat)
    }
}

/// Number of successes.
pub open spec fn successes(rs: Seq<bool>) -> nat
    decreases rs.len(),
{
    if rs.len() == 0 {
        0
    } else {
        successes(rs.drop_first()) + if rs[0] {
            1nat
        } else {
            0nat
        }
    }
}

/// Of any number of consumers that try the lock of one draft before it is cleared, exactly
/// one succeeds when the draft was not being sent, and none when it was.
pub proof fn lemma_sending_taken_once(sending: bool, n: nat)
    ensures
        successes(mark_results(sending, n)) == if !sending && n > 0 {
            1nat
        } else {
            0nat
        },
    decreases n,
{
    if n > 0 {
        lemma_sending_taken_once(true, (n - 1) as nat);
        let rs = mark_results(sending, n);
        assert(rs.drop_first() =~= mark_results(true, (n - 1) as nat));
    }
}

/// A draft is eligible for consumption when it is a queued follow-up with a prompt
/// that is not blank.
pub open spec fn draft_eligible_spec(d: Draft) -> bool {
    d.draft_type == DraftType::FollowUp && d.queued && trim_spec(d.prompt@, CharClass::Whitespace).len() > 0
}

pub open spec fn followup_allowed_spec(
    reason: ExecutionProcessRunReason,
    any_running: bool,
    draft: Option<Draft>,
) -> bool {
    reason != ExecutionProcessRunReason::DevServer && !any_running && match draft {
        Some(d) => draft_eligible_spec(d),
        None => false,
    }
}

/// Whether a queued follow-up may be consumed after a finished run: not after a dev
/// server, nothing else running for the attempt, and an eligible draft.
pub fn followup_allowed(
    reason: ExecutionProcessRunReason,
    any_running: bool,
    draft: Option<&Draft>,
) -> (r: bool)
    ensures
        r == followup_allowed_spec(
            reason,
            any_running,
            match draft {
                Some(d) => Some(*d),
                None => None,
            },
        ),
{
    if reason == ExecutionProcessRunReason::DevServer || any_running {
        return false;
    }
    match draft {
        Some(d) => d.draft_type == DraftType::FollowUp && d.queued && trim_ws(d.prompt.as_str()).as_str().unicode_len() > 0,
        None => false,
    }
}

/// Whether any of the statuses is `Running`.
pub fn any_running(statuses: &Vec<ExecutionProcessStatus>) -> (r: bool)
    ensures
        r == exists|i: int| 0 <= i < statuses@.len() && statuses@[i] == ExecutionProcessStatus::Running,
{
    let mut i: usize = 0;
    while i < statuses.len()
        invariant
            i <= statuses@.len(),
            forall|j: int| 0 <= j < i ==> statuses@[j] != ExecutionProcessStatus::Running,
        decreases statuses@.len() - i,
    {
        if statuses[i] == ExecutionProcessStatus::Running {
            return true;
        }
        i = i + 1;
    }
    false
}

/// The follow-up action built from a consumed draft: it inherits the executor of the
/// latest coding-agent action with the draft's variant, continues `session_id`, and chains
/// the project's cleanup script when there is one. `None` when the latest action is not
/// a coding-agent request.
pub fn build_followup_action(
    latest: &ExecutorActionType,
    prompt: String,
    variant: Option<String>,
    session_id: String,
    cleanup_script: Option<String>,
) -> (r: Option<ExecutorAction>)
    ensures
        r.is_some() == !(latest is ScriptRequest),
        r.is_some() ==> match r.unwrap().typ {
            ExecutorActionType::CodingAgentFollowUpRequest(q) => q.prompt == prompt
                && Some(q.executor_profile_id.executor) == match *latest {
                ExecutorActionType::CodingAgentInitialRequest(l) => Some(l.executor_profile_id.executor),
                ExecutorActionType::CodingAgentFollowUpRequest(l) => Some(l.executor_profile_id.executor),
                ExecutorActionType::ScriptRequest(_) => None,
            }
                && q.session_id == session_id && q.executor_profile_id.variant == variant,
            _ => false,
        },
        r.is_some() ==> (r.unwrap().next_action.is_some() == cleanup_script.is_some()),
        r.is_some() && cleanup_script.is_some() ==> match r.unwrap().next_action {
            Some(n) => match n.typ {
                ExecutorActionType::ScriptRequest(s) => s.script == cleanup_script.unwrap()
                    && s.context == ScriptContext::CleanupScript && n.next_action.is_none(),
                _ => false,
            },
            None => false,
        },
{
    let executor = match latest.coding_agent_profile() {
        Some(p) => p.executor.clone(),
        None => return None,
    };
    let next = match cleanup_script {
        Some(script) => Some(
            Box::new(
                ExecutorAction::new(
                    ExecutorActionType::ScriptRequest(
                        ScriptRequest {
                            script,
                            language: ScriptRequestLanguage::Bash,
                            context: ScriptContext::CleanupScript,
                        },
                    ),
                    None,
                ),
            ),
        ),
        None => None,
    };
    let req = CodingAgentFollowUpRequest {
        prompt,
        session_id,
        executor_profile_id: ExecutorProfileId { executor, variant },
    };
    Some(ExecutorAction::new(ExecutorActionType::CodingAgentFollowUpRequest(req), next))
}

} // verus!
