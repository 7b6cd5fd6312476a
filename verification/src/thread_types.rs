//! The requests and results of thread context control and turn queries.
use vstd::prelude::*;

use crate::metadata::Metadata;
use crate::router::ChatRouteRef;

verus! {

/// Which turns a filter keeps; every field that is set must match.
#[derive(Debug)]
pub struct TurnQuery {
    pub min_turn_id: Option<u64>,
    pub max_turn_id: Option<u64>,
    pub has_tool_calls: Option<bool>,
    pub limit: Option<usize>,
}

impl Default for TurnQuery {
    fn default() -> (q: TurnQuery)
        ensures
            q.min_turn_id is None,
            q.max_turn_id is None,
            q.has_tool_calls is None,
            q.limit is None,
    {
        TurnQuery { min_turn_id: None, max_turn_id: None, has_tool_calls: None, limit: None }
    }
}

/// A turn found by a query: its id and its position in the thread.
#[derive(Debug, Clone, Copy, PartialEq, Eq, Structural)]
pub struct TurnRef {
    pub turn_id: u64,
    pub index: usize,
}

/// The counts that describe one turn.
#[derive(Debug, Clone, Copy, PartialEq, Eq, Structural)]
pub struct TurnSummary {
    pub turn_id: u64,
    pub message_count: usize,
    pub tool_call_count: usize,
    pub completed: bool,
}

/// Which turns a context rewrite keeps.
#[derive(Debug)]
pub enum TurnRetentionPolicy {
    KeepAll,
    KeepLastTurns { count: usize },
    KeepSelectedTurnIds { turn_ids: Vec<u64> },
    DropAll,
}

/// What a context rewrite does to the system prompt.
#[derive(Debug)]
pub enum SystemPromptAction {
    Keep,
    Clear,
    Replace { prompt: String },
}

/// Why the context of a thread was rewritten.
#[derive(Debug, Clone, Copy, PartialEq, Eq, Structural)]
pub enum ContextControlReason {
    Manual,
    CortexReset,
    ContinuationCleanup,
    Recovery,
}

/// The label under which a reason is reported.
pub open spec fn reason_label(r: ContextControlReason) -> Seq<char> {
    match r {
        ContextControlReason::Manual => "manual"@,
        ContextControlReason::CortexReset => "cortex_reset"@,
        ContextControlReason::ContinuationCleanup => "continuation_cleanup"@,
        ContextControlReason::Recovery => "recovery"@,
    }
}

impl ContextControlReason {
    pub fn as_label(&self) -> (r: &'static str)
        ensures
            r@ == reason_label(*self),
    {
        proof {
            reveal_strlit("manual");
            reveal_strlit("cortex_reset");
            reveal_strlit("continuation_cleanup");
            reveal_strlit("recovery");
        }
        match self {
            ContextControlReason::Manual => "manual",
            ContextControlReason::CortexReset => "cortex_reset",
            ContextControlReason::ContinuationCleanup => "continuation_cleanup",
            ContextControlReason::Recovery => "recovery",
        }
    }
}

/// A request to rewrite or derive the context of a thread.
#[derive(Debug)]
pub struct ThreadContextRequest {
    pub retention: TurnRetentionPolicy,
    pub system_prompt: SystemPromptAction,
    pub drop_unfinished_continuation: bool,
    pub reason: ContextControlReason,
}

/// The turn ids that a context rewrite kept and dropped.
#[derive(Debug)]
pub struct ThreadContextResult {
    pub kept_turn_ids: Vec<u64>,
    pub dropped_turn_ids: Vec<u64>,
    pub continuation_dropped: bool,
}

/// Options of a derived thread: its id, its route and the metadata of the
/// event that reports it.
#[derive(Debug)]
pub struct DeriveContextOptions {
    pub thread_id: Option<String>,
    pub route_ref: Option<ChatRouteRef>,
    pub metadata: Metadata,
}

impl Default for DeriveContextOptions {
    fn default() -> (o: DeriveContextOptions)
        ensures
            o.thread_id is None,
            o.route_ref is None,
            o.metadata.entries().len() == 0,
            o.metadata.wf(),
    {
        DeriveContextOptions { thread_id: None, route_ref: None, metadata: Metadata::new() }
    }
}

/// Options of a context rewrite: the metadata of the event that reports it.
#[derive(Debug)]
pub struct RewriteContextOptions {
    pub metadata: Metadata,
}

impl Default for RewriteContextOptions {
    fn default() -> (o: RewriteContextOptions)
        ensures
            o.metadata.entries().len() == 0,
            o.metadata.wf(),
    {
        RewriteContextOptions { metadata: Metadata::new() }
    }
}

} // verus!
