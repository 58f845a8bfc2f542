//! Urgency scores of activity entries.

use vstd::prelude::*;
use crate::models::TaskStatus;

verus! {

/// The kind of entity an activity entry is about.
#[derive(Clone, Copy, Debug, PartialEq, Eq, Structural)]
pub enum ActivityEntityType {
    Task,
    Attempt,
    Comment,
    Deployment,
}

#[derive(Clone, Copy, Debug, PartialEq, Eq, Structural)]
pub enum UrgencyLevel {
    Low,
    Normal,
    Elevated,
    High,
    Critical,
}

/// The urgency hint stored with an activity row.
#[derive(Clone, Copy, Debug, PartialEq, Eq, Structural)]
pub enum UrgencyHint {
    Low,
    Normal,
    Elevated,
    High,
    Critical,
}

/// The urgency hint carried by a domain event.
#[derive(Clone, Copy, Debug, PartialEq, Eq, Structural)]
pub enum ActivityUrgencyHint {
    Low,
    Normal,
    Elevated,
    High,
    Critical,
}

/// Which activity a feed shows: the caller's own, or everyone's.
#[derive(Clone, Copy, Debug, PartialEq, Eq, Structural)]
pub enum ActivityFeedScope {
    Mine,
    All,
}

impl Default for ActivityFeedScope {
    fn default() -> (r: Self)
        ensures
            r == ActivityFeedScope::Mine,
    {
        ActivityFeedScope::Mine
    }
}

impl ActivityFeedScope {
    /// The scope's name: `mine` or `all`.
    pub fn as_str(&self) -> (r: &'static str)
        ensures
            r@ == (match *self {
                ActivityFeedScope::Mine => "mine"@,
                ActivityFeedScope::All => "all"@,
            }),
    {
        match self {
            ActivityFeedScope::Mine => "mine",
            ActivityFeedScope::All => "all",
        }
    }
}

/// The stored name of a task status.
pub fn task_status_to_string(status: &TaskStatus) -> (r: &'static str)
    ensures
        r@ == (match *status {
            TaskStatus::Todo => "todo"@,
            TaskStatus::InProgress => "inprogress"@,
            TaskStatus::InReview => "inreview"@,
            TaskStatus::Done => "done"@,
            TaskStatus::Cancelled => "cancelled"@,
        }),
{
    match status {
        TaskStatus::Todo => "todo",
        TaskStatus::InProgress => "inprogress",
        TaskStatus::InReview => "inreview",
        TaskStatus::Done => "done",
        TaskStatus::Cancelled => "cancelled",
    }
}

/// The inputs of an urgency score.
#[derive(Clone, Copy, Debug, PartialEq, Eq, Structural)]
pub struct UrgencyComputationContext {
    pub level: UrgencyLevel,
    pub recency_hours: u32,
    pub entity_type: ActivityEntityType,
}

pub open spec fn base_score_spec(level: UrgencyLevel) -> int {
    match level {
        UrgencyLevel::Low => 10,
        UrgencyLevel::Normal => 35,
        UrgencyLevel::Elevated => 55,
        UrgencyLevel::High => 75,
        UrgencyLevel::Critical => 95,
    }
}

impl UrgencyLevel {
    pub fn base_score(self) -> (r: u8)
        ensures
            r as int == base_score_spec(self),
    {
        match self {
            UrgencyLevel::Low => 10,
            UrgencyLevel::Normal => 35,
            UrgencyLevel::Elevated => 55,
            UrgencyLevel::High => 75,
            UrgencyLevel::Critical => 95,
        }
    }
}

/// The score: the level's base, less 2 points per full 6 hours of age (at most 20, never
/// below 0), plus 5 for deployments and 3 for attempts, at most 100.
pub open spec fn score_spec(c: UrgencyComputationContext) -> int {
    let steps = (c.recency_hours as int) / 6;
    let penalty = if 2 * steps < 20 {
        2 * steps
    } else {
        20
    };
    let decayed = if base_score_spec(c.level) > penalty {
        base_score_spec(c.level) - penalty
    } else {
        0
    };
    let bonus: int = match c.entity_type {
        ActivityEntityType::Deployment => 5,
        ActivityEntityType::Attempt => 3,
        _ => 0,
    };
    if decayed + bonus < 100 {
        decayed + bonus
    } else {
        100
    }
}

pub fn calculate_score(context: UrgencyComputationContext) -> (r: u8)
    ensures
        r as int == score_spec(context),
        r <= 100,
{
    let mut score = context.level.base_score();
    let steps: u32 = context.recency_hours / 6;
    let penalty: u8 = if steps < 10 {
        (steps * 2) as u8
    } else {
        20
    };
    score = if score > penalty {
        score - penalty
    } else {
        0
    };
    match context.entity_type {
        ActivityEntityType::Deployment => {
            if score < 100 {
                score = if score + 5 < 100 {
                    score + 5
                } else {
                    100
                };
            }
        },
        ActivityEntityType::Attempt => {
            if score < 100 {
                score = if score + 3 < 100 {
                    score + 3
                } else {
                    100
                };
            }
        },
        _ => {},
    }
    score
}

} // verus!
