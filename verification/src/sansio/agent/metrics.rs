//! Counters for the branches that the agent core takes.
use vstd::prelude::*;

use crate::metrics::Counter;

verus! {

/// Cumulative counters of [`AgentCore::handle_event`].
///
/// For every kind of event, exactly one counter of its pair goes up: the one
/// for an event that took effect, or the one for an event that was dropped.
///
/// [`AgentCore::handle_event`]: super::AgentCore::handle_event
#[derive(Debug, Clone, Copy, PartialEq, Eq, Structural)]
pub struct AgentMetrics {
    pub user_messages_accepted: Counter,
    pub user_messages_rejected_while_active: Counter,
    pub cancels_applied: Counter,
    pub cancels_ignored_when_idle: Counter,
    pub content_deltas_appended: Counter,
    pub content_deltas_dropped_as_stale: Counter,
    pub reasoning_deltas_appended: Counter,
    pub reasoning_deltas_dropped_as_stale: Counter,
    pub finishes_committed: Counter,
    pub finishes_dropped_as_stale: Counter,
    pub transport_errors_recorded: Counter,
    pub transport_errors_dropped_as_stale: Counter,
    pub timeouts_applied: Counter,
    pub timeouts_dropped_as_stale: Counter,
    pub tool_call_deltas_appended: Counter,
    pub tool_call_deltas_dropped_as_stale: Counter,
    pub tool_call_arguments_fragments_dropped_over_limit: Counter,
    pub tool_results_committed: Counter,
    pub tool_results_dropped_as_stale: Counter,
    pub tool_calls_executed: Counter,
    pub tool_calls_rejected_by_turn_limit: Counter,
    pub tool_calls_rejected_by_arguments_limit: Counter,
    pub patch_calls_previewed: Counter,
    pub patch_previews_committed: Counter,
    pub patch_previews_dropped_as_stale: Counter,
    pub tool_call_approvals_committed: Counter,
    pub tool_call_approvals_dropped_as_stale: Counter,
    pub tool_call_rejections_committed: Counter,
    pub tool_call_rejections_dropped_as_stale: Counter,
    pub command_calls_dispatched: Counter,
    pub command_executions_started: Counter,
    pub command_output_chunks_appended: Counter,
    pub command_output_chunks_dropped_as_stale: Counter,
}

/// Counters that have counted nothing.
pub open spec fn zero_metrics() -> AgentMetrics {
    AgentMetrics {
        user_messages_accepted: Counter(0),
        user_messages_rejected_while_active: Counter(0),
        cancels_applied: Counter(0),
        cancels_ignored_when_idle: Counter(0),
        content_deltas_appended: Counter(0),
        content_deltas_dropped_as_stale: Counter(0),
        reasoning_deltas_appended: Counter(0),
        reasoning_deltas_dropped_as_stale: Counter(0),
        finishes_committed: Counter(0),
        finishes_dropped_as_stale: Counter(0),
        transport_errors_recorded: Counter(0),
        transport_errors_dropped_as_stale: Counter(0),
        timeouts_applied: Counter(0),
        timeouts_dropped_as_stale: Counter(0),
        tool_call_deltas_appended: Counter(0),
        tool_call_deltas_dropped_as_stale: Counter(0),
        tool_call_arguments_fragments_dropped_over_limit: Counter(0),
        tool_results_committed: Counter(0),
        tool_results_dropped_as_stale: Counter(0),
        tool_calls_executed: Counter(0),
        tool_calls_rejected_by_turn_limit: Counter(0),
        tool_calls_rejected_by_arguments_limit: Counter(0),
        patch_calls_previewed: Counter(0),
        patch_previews_committed: Counter(0),
        patch_previews_dropped_as_stale: Counter(0),
        tool_call_approvals_committed: Counter(0),
        tool_call_approvals_dropped_as_stale: Counter(0),
        tool_call_rejections_committed: Counter(0),
        tool_call_rejections_dropped_as_stale: Counter(0),
        command_calls_dispatched: Counter(0),
        command_executions_started: Counter(0),
        command_output_chunks_appended: Counter(0),
        command_output_chunks_dropped_as_stale: Counter(0),
    }
}

impl Default for AgentMetrics {
    fn default() -> (r: Self)
        ensures
            r == zero_metrics(),
    {
        AgentMetrics {
            user_messages_accepted: Counter(0),
            user_messages_rejected_while_active: Counter(0),
            cancels_applied: Counter(0),
            cancels_ignored_when_idle: Counter(0),
            content_deltas_appended: Counter(0),
            content_deltas_dropped_as_stale: Counter(0),
            reasoning_deltas_appended: Counter(0),
            reasoning_deltas_dropped_as_stale: Counter(0),
            finishes_committed: Counter(0),
            finishes_dropped_as_stale: Counter(0),
            transport_errors_recorded: Counter(0),
            transport_errors_dropped_as_stale: Counter(0),
            timeouts_applied: Counter(0),
            timeouts_dropped_as_stale: Counter(0),
            tool_call_deltas_appended: Counter(0),
            tool_call_deltas_dropped_as_stale: Counter(0),
            tool_call_arguments_fragments_dropped_over_limit: Counter(0),
            tool_results_committed: Counter(0),
            tool_results_dropped_as_stale: Counter(0),
            tool_calls_executed: Counter(0),
            tool_calls_rejected_by_turn_limit: Counter(0),
            tool_calls_rejected_by_arguments_limit: Counter(0),
            patch_calls_previewed: Counter(0),
            patch_previews_committed: Counter(0),
            patch_previews_dropped_as_stale: Counter(0),
            tool_call_approvals_committed: Counter(0),
            tool_call_approvals_dropped_as_stale: Counter(0),
            tool_call_rejections_committed: Counter(0),
            tool_call_rejections_dropped_as_stale: Counter(0),
            command_calls_dispatched: Counter(0),
            command_executions_started: Counter(0),
            command_output_chunks_appended: Counter(0),
            command_output_chunks_dropped_as_stale: Counter(0),
        }
    }
}

} // verus!
