//! Task-attempt execution engine: name derivation, repository resolution,
//! executor payloads, live-diff byte budgets, supervision decisions and the
//! primary-repository rules of the store, each with its contract.

pub mod ids;
pub mod strings;
pub mod textops;
pub mod naming;
pub mod models;
pub mod env;
pub mod payload;
pub mod actions;
pub mod supervisor;
pub mod store;
pub mod attempts;
pub mod diff;
pub mod linediff;
pub mod resolver;
pub mod stream;
pub mod msg_store;
pub mod reaper;
pub mod priority;
pub mod config;
pub mod repo_context;
pub mod worktrees;
