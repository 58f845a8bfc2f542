//! Executor actions: what to run (an initial or follow-up coding-agent request, or a
//! script), each with an optional next action forming a chain.

use vstd::prelude::*;
use crate::env::EnvMap;

verus! {

/// Which executor profile runs a coding-agent request.
#[derive(Clone, Debug)]
pub struct ExecutorProfileId {
    pub executor: String,
    pub variant: Option<String>,
}

/// The first request of a coding-agent session.
#[derive(Clone, Debug)]
pub struct CodingAgentInitialRequest {
    pub prompt: String,
    pub executor_profile_id: ExecutorProfileId,
}

/// A request that continues an existing coding-agent session.
#[derive(Clone, Debug)]
pub struct CodingAgentFollowUpRequest {
    pub prompt: String,
    pub session_id: String,
    pub executor_profile_id: ExecutorProfileId,
}

#[derive(Clone, Copy, Debug, PartialEq, Eq, Structural)]
pub enum ScriptRequestLanguage {
    Bash,
}

/// Why a script runs.
#[derive(Clone, Copy, Debug, PartialEq, Eq, Structural)]
pub enum ScriptContext {
    SetupScript,
    CleanupScript,
    DevServer,
}

#[derive(Clone, Debug)]
pub struct ScriptRequest {
    pub script: String,
    pub language: ScriptRequestLanguage,
    pub context: ScriptContext,
}

/// The kinds of action.
#[derive(Clone, Debug)]
pub enum ExecutorActionType {
    CodingAgentInitialRequest(CodingAgentInitialRequest),
    CodingAgentFollowUpRequest(CodingAgentFollowUpRequest),
    ScriptRequest(ScriptRequest),
}

/// An action and the action to run after it, if any.
#[derive(Debug)]
pub struct ExecutorAction {
    pub typ: ExecutorActionType,
    pub next_action: Option<Box<ExecutorAction>>,
}

/// Where and with which environment an action's child runs.
#[derive(Clone, Debug)]
pub struct ExecutorSpawnContext {
    pub current_dir: String,
    pub env: Option<EnvMap>,
}

/// Why an execution process runs.
#[derive(Clone, Copy, Debug, PartialEq, Eq, Structural)]
pub enum ExecutionProcessRunReason {
    SetupScript,
    CleanupScript,
    CodingAgent,
    DevServer,
}

/// The run reason of an action of the given kind.
pub open spec fn run_reason_spec(t: ExecutorActionType) -> ExecutionProcessRunReason {
    match t {
        ExecutorActionType::ScriptRequest(s) => match s.context {
            ScriptContext::SetupScript => ExecutionProcessRunReason::SetupScript,
            ScriptContext::CleanupScript => ExecutionProcessRunReason::CleanupScript,
            ScriptContext::DevServer => ExecutionProcessRunReason::DevServer,
        },
        _ => ExecutionProcessRunReason::CodingAgent,
    }
}

impl ExecutorActionType {
    /// The run reason an action of this kind is started with.
    pub fn run_reason(&self) -> (r: ExecutionProcessRunReason)
        ensures
            r == run_reason_spec(*self),
    {
        match self {
            ExecutorActionType::ScriptRequest(s) => match s.context {
                ScriptContext::SetupScript => ExecutionProcessRunReason::SetupScript,
                ScriptContext::CleanupScript => ExecutionProcessRunReason::CleanupScript,
                ScriptContext::DevServer => ExecutionProcessRunReason::DevServer,
            },
            _ => ExecutionProcessRunReason::CodingAgent,
        }
    }

    /// The executor profile of a coding-agent request; `None` for a script.
    pub fn coding_agent_profile(&self) -> (r: Option<&ExecutorProfileId>)
        ensures
            r.is_some() == !(self is ScriptRequest),
            match *self {
                ExecutorActionType::CodingAgentInitialRequest(q) => r == Some(&q.executor_profile_id),
                ExecutorActionType::CodingAgentFollowUpRequest(q) => r == Some(&q.executor_profile_id),
                ExecutorActionType::ScriptRequest(_) => r.is_none(),
            },
    {
        match self {
            ExecutorActionType::CodingAgentInitialRequest(q) => Some(&q.executor_profile_id),
            ExecutorActionType::CodingAgentFollowUpRequest(q) => Some(&q.executor_profile_id),
            ExecutorActionType::ScriptRequest(_) => None,
        }
    }
}

impl ExecutorAction {
    pub fn new(typ: ExecutorActionType, next_action: Option<Box<ExecutorAction>>) -> (r: Self)
        ensures
            r.typ == typ,
            r.next_action == next_action,
    {
        ExecutorAction { typ, next_action }
    }

    pub fn typ(&self) -> (r: &ExecutorActionType)
        ensures
            *r == self.typ,
    {
        &self.typ
    }

    pub fn next_action(&self) -> (r: Option<&ExecutorAction>)
        ensures
            match self.next_action {
                Some(n) => r == Some(&*n),
                None => r.is_none(),
            },
    {
        match &self.next_action {
            Some(n) => Some(&**n),
            None => None,
        }
    }
}

} // verus!
