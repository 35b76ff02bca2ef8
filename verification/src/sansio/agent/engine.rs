//! The agent core as code: see [`state`](super::state) for what it does.
use vstd::prelude::*;
use vstd::string::*;

use super::errors::{CommandError, PatchError, ToolErrorModel, ToolExecutionError, ToolOutcome};
use super::metrics::AgentMetrics;
use super::state::{
    admitted, advanced, all_resolved, answer, approval_of, approve, awaits_approval, call_of,
    cancel, cancelled, command_output, content_delta, dispatched, empty_slot, finish, finish_calls,
    finish_turn, invocation_of, merged, new_core, over_limit, patch_preview_ready, proceeded, rank,
    reasoning_delta, refused, reject, requested, result_for, running, settled, slot_for, step,
    streaming, tail_after, timeout, too_much, tool_call_delta, tool_result, transport_error,
    user_message, waiting, wanted, with_slot, CoreModel, DispatchModel, InvocationModel,
    PendingModel, PendingPhase, ResultModel, SlotModel, Want,
};
use super::tools::{CommandInvocation, PatchInvocation, ReadOnlyTool};
use super::types::{
    clone_hashes, Action, ActionModel, ActiveModel, ActiveToolCall, ApprovalState,
    CommandOutputStream, CommandOutputTail, CommandPreview, Event, PatchPreview, PendingResponse,
    PreviewHash, RequestId, Status,
};
use super::{ARGUMENTS_MAX_BYTES, COMMAND_TAIL_CHARS, TURN_TOOL_CALL_LIMIT};
use crate::model::{deep, first_some, lemma_first_at, lemma_first_none, maybe};
use crate::sansio::deepseek::{clone_calls, clone_messages, ChatMessage, ToolCall};
use crate::text::{decimal, decimal_of, lossy, same, tail_of};

verus! {

broadcast use crate::model::group_deep;

/// A tool call that is being put together from fragments.
#[derive(Debug, Clone, PartialEq, Eq)]
struct ToolCallSlot {
    index: u64,
    id: Option<String>,
    function_name: Option<String>,
    arguments: String,
    over_limit: bool,
}

impl View for ToolCallSlot {
    type V = SlotModel;

    closed spec fn view(&self) -> SlotModel {
        SlotModel {
            index: self.index,
            id: maybe(self.id),
            function_name: maybe(self.function_name),
            arguments: self.arguments@,
            over_limit: self.over_limit,
        }
    }
}

/// A tool call that was dispatched, and what has become of it.
#[derive(Debug, Clone, PartialEq, Eq)]
pub struct PendingToolResult {
    call_id: String,
    function_name: String,
    arguments_json: String,
    approval: ApprovalState,
    patch_preview: Option<PatchPreview>,
    preview_hashes: Vec<PreviewHash>,
    command_preview: Option<CommandPreview>,
    command_output_tail: Option<CommandOutputTail>,
    outcome: Option<ToolOutcome>,
}

impl View for PendingToolResult {
    type V = ResultModel;

    closed spec fn view(&self) -> ResultModel {
        ResultModel {
            call_id: self.call_id@,
            function_name: self.function_name@,
            arguments_json: self.arguments_json@,
            approval: self.approval,
            patch_preview: maybe(self.patch_preview),
            preview_hashes: deep(self.preview_hashes@),
            command_preview: maybe(self.command_preview),
            command_output_tail: maybe(self.command_output_tail),
            outcome: maybe(self.outcome),
        }
    }
}

/// The request in flight.
#[derive(Debug, Clone, PartialEq, Eq)]
struct Pending {
    id: RequestId,
    phase: PendingPhase,
    response: PendingResponse,
    slots: Vec<ToolCallSlot>,
    tool_results: Vec<PendingToolResult>,
}

impl View for Pending {
    type V = PendingModel;

    closed spec fn view(&self) -> PendingModel {
        PendingModel {
            id: self.id,
            phase: self.phase,
            response: self.response@,
            slots: deep(self.slots@),
            results: deep(self.tool_results@),
        }
    }
}

impl Pending {
    /// What cancels the request.
    fn cancel(&self) -> (r: Action)
        ensures
            r@ == cancelled(self@),
    {
        if self.phase == PendingPhase::Streaming {
            Action::CancelRequest { id: self.id }
        } else {
            Action::CancelToolExecution { request: self.id }
        }
    }
}

/// The agent core.
#[derive(Debug, Clone)]
pub struct AgentCore {
    conversation: Vec<ChatMessage>,
    pending: Option<Pending>,
    status: Status,
    next_id: u64,
    tool_calls_this_turn: usize,
    workspace_display: String,
    metrics: AgentMetrics,
}

impl View for AgentCore {
    type V = CoreModel;

    closed spec fn view(&self) -> CoreModel {
        CoreModel {
            conversation: deep(self.conversation@),
            pending: maybe(self.pending),
            status: self.status,
            next_id: self.next_id,
            tool_calls_this_turn: self.tool_calls_this_turn,
            workspace_display: self.workspace_display@,
            metrics: self.metrics,
        }
    }
}

/// What a call of any of the tools that the core dispatches asks for.
#[derive(Debug, PartialEq, Eq)]
pub enum Invocation {
    Patch(PatchInvocation),
    Command(CommandInvocation),
    ReadOnly(ReadOnlyTool),
}

impl View for Invocation {
    type V = InvocationModel;

    open spec fn view(&self) -> InvocationModel {
        match self {
            Invocation::Patch(p) => InvocationModel::Patch(p@),
            Invocation::Command(c) => InvocationModel::Command(c@),
            Invocation::ReadOnly(t) => InvocationModel::ReadOnly(t@),
        }
    }
}

/// A result as a mathematical value.
pub open spec fn invocation_view(r: Result<Invocation, ToolExecutionError>) -> Result<
    InvocationModel,
    ToolErrorModel,
> {
    match r {
        Ok(i) => Ok(i@),
        Err(e) => Err(e@),
    }
}

impl Invocation {
    /// Reads a tool call.
    pub fn parse(function_name: &str, arguments_json: &str) -> (r: Result<
        Invocation,
        ToolExecutionError,
    >)
        ensures
            invocation_view(r) == invocation_of(function_name@, arguments_json@),
    {
        if same(function_name, "patch") {
            match PatchInvocation::parse(arguments_json) {
                Ok(p) => Ok(Invocation::Patch(p)),
                Err(e) => Err(e),
            }
        } else if same(function_name, "command") {
            match CommandInvocation::parse(arguments_json) {
                Ok(c) => Ok(Invocation::Command(c)),
                Err(e) => Err(e),
            }
        } else {
            match ReadOnlyTool::parse(function_name, arguments_json) {
                Ok(t) => Ok(Invocation::ReadOnly(t)),
                Err(e) => Err(e),
            }
        }
    }
}

fn one(a: Action) -> (r: Vec<Action>)
    ensures
        deep(r@) == seq![a@],
{
    let mut v: Vec<Action> = Vec::new();
    v.push(a);
    assert(deep(v@) =~= seq![a@]);
    v
}

fn two(a: Action, b: Action) -> (r: Vec<Action>)
    ensures
        deep(r@) == seq![a@, b@],
{
    let mut v: Vec<Action> = Vec::new();
    v.push(a);
    v.push(b);
    assert(deep(v@) =~= seq![a@, b@]);
    v
}

fn none() -> (r: Vec<Action>)
    ensures
        deep(r@) == Seq::<ActionModel>::empty(),
{
    Vec::new()
}

/// What the dispatch of tool calls has led to so far.
#[derive(Debug)]
pub struct Dispatch {
    pub results: Vec<PendingToolResult>,
    pub actions: Vec<Action>,
    pub tool_calls_this_turn: usize,
    pub metrics: AgentMetrics,
}

impl View for Dispatch {
    type V = DispatchModel;

    open spec fn view(&self) -> DispatchModel {
        DispatchModel {
            results: deep(self.results@),
            actions: deep(self.actions@),
            tool_calls_this_turn: self.tool_calls_this_turn,
            metrics: self.metrics,
        }
    }
}

fn waiting_result(
    call: ToolCall,
    approval: ApprovalState,
    command_preview: Option<CommandPreview>,
    outcome: Option<ToolOutcome>,
) -> (r: PendingToolResult)
    ensures
        r@ == (ResultModel {
            outcome: maybe(outcome),
            ..waiting(call@, approval, maybe(command_preview))
        }),
{
    PendingToolResult {
        call_id: call.id,
        function_name: call.function_name,
        arguments_json: call.arguments_json,
        approval,
        patch_preview: None,
        preview_hashes: Vec::new(),
        command_preview,
        command_output_tail: None,
        outcome,
    }
}

fn synthetic_err_result(call: ToolCall, err: ToolExecutionError) -> (r: PendingToolResult)
    ensures
        r@ == refused(call@, err@),
{
    waiting_result(call, ApprovalState::NotRequired, None, Some(ToolOutcome::Failure(err)))
}

impl Dispatch {
    /// Dispatches one more call, given whether its arguments are too large and
    /// what it asks for.
    pub fn add_call(
        &mut self,
        call: ToolCall,
        over: bool,
        invocation: Result<Invocation, ToolExecutionError>,
        request: RequestId,
        workspace: &str,
    )
        ensures
            final(self)@ == admitted(
                old(self)@,
                call@,
                over,
                invocation_view(invocation),
                request,
                workspace@,
            ),
    {
        if over {
            self.results.push(synthetic_err_result(call, ToolExecutionError::ArgumentsTooLarge));
            self.metrics.tool_calls_rejected_by_arguments_limit.inc();
            return ;
        }
        if self.tool_calls_this_turn >= TURN_TOOL_CALL_LIMIT {
            self.results.push(
                synthetic_err_result(call, ToolExecutionError::TurnToolCallLimitExceeded),
            );
            self.metrics.tool_calls_rejected_by_turn_limit.inc();
            return ;
        }
        match invocation {
            Err(e) => {
                self.results.push(synthetic_err_result(call, e));
            },
            Ok(Invocation::Patch(invocation)) => {
                self.actions.push(
                    Action::PreviewPatch { request, call_id: call.id.clone(), invocation },
                );
                self.results.push(waiting_result(call, ApprovalState::NotRequired, None, None));
                self.tool_calls_this_turn = self.tool_calls_this_turn + 1;
                self.metrics.patch_calls_previewed.inc();
            },
            Ok(Invocation::Command(invocation)) => {
                let preview = CommandPreview {
                    argv: invocation.argv,
                    working_directory: workspace.to_owned(),
                };
                self.results.push(
                    waiting_result(call, ApprovalState::Pending, Some(preview), None),
                );
                self.tool_calls_this_turn = self.tool_calls_this_turn + 1;
                self.metrics.command_calls_dispatched.inc();
            },
            Ok(Invocation::ReadOnly(invocation)) => {
                self.actions.push(
                    Action::ExecuteTool { request, call_id: call.id.clone(), invocation },
                );
                self.results.push(waiting_result(call, ApprovalState::NotRequired, None, None));
                self.tool_calls_this_turn = self.tool_calls_this_turn + 1;
                self.metrics.tool_calls_executed.inc();
            },
        }
    }
}

impl ToolCallSlot {
    fn empty(index: u64) -> (r: Self)
        ensures
            r@ == empty_slot(index),
    {
        ToolCallSlot {
            index,
            id: None,
            function_name: None,
            arguments: String::new(),
            over_limit: false,
        }
    }

    /// Merges a fragment; says whether its arguments were left out.
    fn merge(
        &mut self,
        id: Option<String>,
        function_name: Option<String>,
        fragment: Option<String>,
    ) -> (r: bool)
        ensures
            final(self)@ == merged(old(self)@, maybe(id), maybe(function_name), maybe(fragment)),
            r == too_much(old(self)@, maybe(fragment)),
    {
        if self.id.is_none() {
            self.id = id;
        }
        if self.function_name.is_none() {
            self.function_name = function_name;
        }
        match fragment {
            None => false,
            Some(fragment) => {
                if self.over_limit {
                    true
                } else if self.arguments.as_str().len() > ARGUMENTS_MAX_BYTES
                    || fragment.as_str().len() > ARGUMENTS_MAX_BYTES - self.arguments.as_str().len() {
                    self.over_limit = true;
                    true
                } else {
                    self.arguments.append(fragment.as_str());
                    false
                }
            },
        }
    }

    /// The tool call that the slot has become.
    fn call(&self) -> (r: ToolCall)
        ensures
            r@ == call_of(self@),
    {
        let id = match &self.id {
            Some(id) => id.clone(),
            None => {
                let mut id = "__missing_id__".to_owned();
                id.append(decimal_of(self.index).as_str());
                id
            },
        };
        let function_name = match &self.function_name {
            Some(name) => name.clone(),
            None => String::new(),
        };
        ToolCall { id, function_name, arguments_json: self.arguments.clone() }
    }
}

/// How many of the first slots have a smaller index.
fn slot_rank(slots: &Vec<ToolCallSlot>, index: u64) -> (r: usize)
    ensures
        r == rank(deep(slots@), index),
        r <= slots@.len(),
{
    let ghost all = deep(slots@);
    let mut k: usize = 0;
    assert(all.skip(0) =~= all);
    while k < slots.len() && slots[k].index < index
        invariant
            k <= slots@.len(),
            all == deep(slots@),
            rank(all, index) == k + rank(all.skip(k as int), index),
        decreases slots@.len() - k,
    {
        assert(all.skip(k as int)[0] == slots@[k as int]@);
        assert(all.skip(k as int).skip(1) =~= all.skip(k + 1));
        k = k + 1;
    }
    proof {
        if k < slots@.len() {
            assert(all.skip(k as int)[0] == slots@[k as int]@);
        }
    }
    k
}

/// Merges a fragment into the slot with that index; says whether its
/// arguments were left out.
fn merge_delta(
    slots: &mut Vec<ToolCallSlot>,
    index: u64,
    id: Option<String>,
    function_name: Option<String>,
    fragment: Option<String>,
) -> (r: bool)
    ensures
        ({
            let s = slot_for(deep(old(slots)@), index);
            &&& deep(final(slots)@) == with_slot(
                deep(old(slots)@),
                merged(s, maybe(id), maybe(function_name), maybe(fragment)),
            )
            &&& r == too_much(s, maybe(fragment))
        }),
{
    let ghost before = deep(slots@);
    let k = slot_rank(slots, index);
    if k < slots.len() && slots[k].index == index {
        let mut s = slots.remove(k);
        assert(s@ == before[k as int]);
        let r = s.merge(id, function_name, fragment);
        slots.insert(k, s);
        assert(deep(slots@) =~= before.update(k as int, s@));
        r
    } else {
        let mut s = ToolCallSlot::empty(index);
        let r = s.merge(id, function_name, fragment);
        slots.insert(k, s);
        assert(deep(slots@) =~= before.insert(k as int, s@));
        r
    }
}

/// The tool calls that slots have become.
fn finalize_tool_call_slots(slots: &Vec<ToolCallSlot>) -> (r: Vec<ToolCall>)
    ensures
        deep(r@) == deep(slots@).map_values(|s: SlotModel| call_of(s)),
{
    let mut calls: Vec<ToolCall> = Vec::new();
    let mut i: usize = 0;
    while i < slots.len()
        invariant
            i <= slots@.len(),
            calls@.len() == i,
            forall|k: int| 0 <= k < i ==> (#[trigger] calls@[k])@ == call_of(slots@[k]@),
        decreases slots@.len() - i,
    {
        calls.push(slots[i].call());
        i = i + 1;
    }
    assert(deep(calls@) =~= deep(slots@).map_values(|s: SlotModel| call_of(s)));
    calls
}

/// Whether a slot whose call has that id has grown past the limit.
fn is_over_limit(slots: &Vec<ToolCallSlot>, id: &str) -> (r: bool)
    ensures
        r == over_limit(deep(slots@), id@),
{
    let mut j: usize = 0;
    while j < slots.len()
        invariant
            j <= slots@.len(),
            forall|k: int|
                0 <= k < j ==> !((#[trigger] deep(slots@)[k]).over_limit && call_of(
                    deep(slots@)[k],
                ).id == id@),
        decreases slots@.len() - j,
    {
        assert(deep(slots@)[j as int] == slots@[j as int]@);
        if slots[j].over_limit && same(slots[j].call().id.as_str(), id) {
            return true;
        }
        j = j + 1;
    }
    false
}

fn text_is(s: &Option<String>, expected: &str) -> (r: bool)
    ensures
        r == (maybe(*s) == Some(expected@)),
{
    match s {
        Some(s) => same(s.as_str(), expected),
        None => false,
    }
}

impl PendingToolResult {
    fn is_wanted(&self, want: Want) -> (r: bool)
        ensures
            r == wanted(self@, want),
    {
        match want {
            Want::Unresolved => self.outcome.is_none(),
            Want::Preview => self.approval == ApprovalState::NotRequired && self.outcome.is_none()
                && self.patch_preview.is_none() && same(self.function_name.as_str(), "patch"),
            Want::Approval => self.approval == ApprovalState::Pending,
            Want::Output => self.approval == ApprovalState::Approved && self.outcome.is_none()
                && same(self.function_name.as_str(), "command"),
        }
    }

    /// The message that answers the call.
    fn answer(&self) -> (r: ChatMessage)
        ensures
            r@ == answer(self@),
    {
        let content = match &self.outcome {
            Some(ToolOutcome::Success(s)) => s.clone(),
            Some(ToolOutcome::Failure(e)) => e.to_json_string(),
            None => String::new(),
        };
        ChatMessage::Tool { tool_call_id: self.call_id.clone(), content }
    }

    /// What the approved call leads to.
    fn approval_action(&self, request: RequestId) -> (r: Result<Action, ToolExecutionError>)
        ensures
            match r {
                Ok(a) => approval_of(self@, request) == Ok::<ActionModel, ToolErrorModel>(a@),
                Err(e) => approval_of(self@, request) == Err::<ActionModel, ToolErrorModel>(e@),
            },
    {
        if same(self.function_name.as_str(), "patch") {
            match PatchInvocation::parse(self.arguments_json.as_str()) {
                Ok(invocation) => Ok(
                    Action::ApplyPatch {
                        request,
                        call_id: self.call_id.clone(),
                        invocation,
                        preview_hashes: clone_hashes(&self.preview_hashes),
                    },
                ),
                Err(e) => Err(e),
            }
        } else if same(self.function_name.as_str(), "command") {
            match CommandInvocation::parse(self.arguments_json.as_str()) {
                Ok(invocation) => Ok(
                    Action::ExecuteCommand { request, call_id: self.call_id.clone(), invocation },
                ),
                Err(e) => Err(e),
            }
        } else {
            let mut message = "no approval flow for tool ".to_owned();
            message.append(self.function_name.as_str());
            Err(ToolExecutionError::ArgumentsParseFailed(message))
        }
    }

    fn active(&self) -> (r: ActiveToolCall)
        ensures
            r@ == result_active(self@),
    {
        ActiveToolCall {
            call_id: self.call_id.clone(),
            function_name: self.function_name.clone(),
            arguments_json: self.arguments_json.clone(),
            outcome: match &self.outcome {
                Some(o) => Some(o.clone()),
                None => None,
            },
            is_streaming: false,
            approval: self.approval,
            patch_preview: match &self.patch_preview {
                Some(p) => Some(p.clone()),
                None => None,
            },
            preview_hashes: clone_hashes(&self.preview_hashes),
            command_preview: match &self.command_preview {
                Some(p) => Some(p.clone()),
                None => None,
            },
            command_output_tail: match &self.command_output_tail {
                Some(t) => Some(t.clone()),
                None => None,
            },
        }
    }
}

/// The first call with that id that is wanted.
fn find_result(results: &Vec<PendingToolResult>, call_id: &str, want: Want) -> (r: Option<usize>)
    ensures
        match r {
            Some(k) => k < results@.len() && result_for(deep(results@), call_id@, want) == Some(
                k as int,
            ) && results@[k as int]@.call_id == call_id@,
            None => result_for(deep(results@), call_id@, want) is None,
        },
{
    let ghost all = deep(results@);
    let ghost f = |i: int|
        if all[i].call_id == call_id@ && wanted(all[i], want) {
            Some(i)
        } else {
            None
        };
    let mut i: usize = 0;
    while i < results.len()
        invariant
            i <= results@.len(),
            all == deep(results@),
            f == (|i: int|
                if all[i].call_id == call_id@ && wanted(all[i], want) {
                    Some(i)
                } else {
                    None
                }),
            forall|j: int| 0 <= j < i ==> #[trigger] f(j) is None,
        decreases results@.len() - i,
    {
        assert(all[i as int] == results@[i as int]@);
        if same(results[i].call_id.as_str(), call_id) && results[i].is_wanted(want) {
            proof {
                lemma_first_at(all.len() as int, f, i as int);
            }
            return Some(i);
        }
        i = i + 1;
    }
    proof {
        lemma_first_none(all.len() as int, f);
    }
    None
}

fn has_all_outcomes(results: &Vec<PendingToolResult>) -> (r: bool)
    ensures
        r == all_resolved(deep(results@)),
{
    let mut i: usize = 0;
    while i < results.len()
        invariant
            i <= results@.len(),
            forall|j: int| 0 <= j < i ==> (#[trigger] deep(results@)[j]).outcome is Some,
        decreases results@.len() - i,
    {
        assert(deep(results@)[i as int] == results@[i as int]@);
        if results[i].outcome.is_none() {
            return false;
        }
        i = i + 1;
    }
    true
}

fn has_pending_approval(results: &Vec<PendingToolResult>) -> (r: bool)
    ensures
        r == awaits_approval(deep(results@)),
{
    let mut i: usize = 0;
    while i < results.len()
        invariant
            i <= results@.len(),
            forall|j: int|
                0 <= j < i ==> !((#[trigger] deep(results@)[j]).approval is Pending && deep(
                    results@,
                )[j].outcome is None),
        decreases results@.len() - i,
    {
        assert(deep(results@)[i as int] == results@[i as int]@);
        if results[i].approval == ApprovalState::Pending && results[i].outcome.is_none() {
            return true;
        }
        i = i + 1;
    }
    false
}

/// A slot as a user interface shows it.
pub open spec fn slot_active(s: SlotModel) -> ActiveModel {
    ActiveModel {
        call_id: match s.id {
            Some(id) => id,
            None => "__pending_"@ + decimal(s.index as nat),
        },
        function_name: match s.function_name {
            Some(name) => name,
            None => Seq::empty(),
        },
        arguments_json: s.arguments,
        outcome: None,
        is_streaming: true,
        approval: ApprovalState::NotRequired,
        patch_preview: None,
        preview_hashes: Seq::empty(),
        command_preview: None,
        command_output_tail: None,
    }
}

/// A dispatched call as a user interface shows it.
pub open spec fn result_active(r: ResultModel) -> ActiveModel {
    ActiveModel {
        call_id: r.call_id,
        function_name: r.function_name,
        arguments_json: r.arguments_json,
        outcome: r.outcome,
        is_streaming: false,
        approval: r.approval,
        patch_preview: r.patch_preview,
        preview_hashes: r.preview_hashes,
        command_preview: r.command_preview,
        command_output_tail: r.command_output_tail,
    }
}

/// The tool calls of the request in flight, in the order of their indices.
pub open spec fn active_of(c: CoreModel) -> Seq<ActiveModel> {
    match c.pending {
        None => Seq::empty(),
        Some(p) => if p.phase is Streaming {
            p.slots.map_values(|s: SlotModel| slot_active(s))
        } else {
            p.results.map_values(|r: ResultModel| result_active(r))
        },
    }
}

/// The id of the first call that waits for approval: one that has an outcome
/// already waits no more.
pub open spec fn approval_wanted(c: CoreModel) -> Option<Seq<char>> {
    match c.pending {
        None => None,
        Some(p) => first_some(
            p.results.len() as int,
            |i: int|
                if p.results[i].approval is Pending && p.results[i].outcome is None {
                    Some(p.results[i].call_id)
                } else {
                    None
                },
        ),
    }
}

impl ToolCallSlot {
    fn active(&self) -> (r: ActiveToolCall)
        ensures
            r@ == slot_active(self@),
    {
        let call_id = match &self.id {
            Some(id) => id.clone(),
            None => {
                let mut id = "__pending_".to_owned();
                id.append(decimal_of(self.index).as_str());
                id
            },
        };
        let function_name = match &self.function_name {
            Some(name) => name.clone(),
            None => String::new(),
        };
        ActiveToolCall {
            call_id,
            function_name,
            arguments_json: self.arguments.clone(),
            outcome: None,
            is_streaming: true,
            approval: ApprovalState::NotRequired,
            patch_preview: None,
            preview_hashes: Vec::new(),
            command_preview: None,
            command_output_tail: None,
        }
    }
}

impl Default for AgentCore {
    fn default() -> (r: Self)
        ensures
            r@ == new_core(),
    {
        AgentCore {
            conversation: Vec::new(),
            pending: None,
            status: Status::Idle,
            next_id: 0,
            tool_calls_this_turn: 0,
            workspace_display: String::new(),
            metrics: AgentMetrics::default(),
        }
    }
}

impl AgentCore {
    /// A core that has seen nothing.
    pub fn new() -> (r: Self)
        ensures
            r@ == new_core(),
    {
        AgentCore::default()
    }

    /// Records the workspace root that command previews show.
    pub fn set_workspace_display(&mut self, display: String)
        ensures
            final(self)@ == (CoreModel { workspace_display: display@, ..old(self)@ }),
    {
        self.workspace_display = display;
    }

    /// The committed messages.
    pub fn conversation(&self) -> (r: &Vec<ChatMessage>)
        ensures
            deep(r@) == self@.conversation,
    {
        &self.conversation
    }

    /// The response of the request in flight, if there is one.
    pub fn pending_response(&self) -> (r: Option<&PendingResponse>)
        ensures
            match r {
                Some(p) => self@.pending is Some && p@ == self@.pending->0.response,
                None => self@.pending is None,
            },
    {
        match &self.pending {
            Some(p) => Some(&p.response),
            None => None,
        }
    }

    /// The id of the request in flight, if there is one.
    pub fn active_request(&self) -> (r: Option<RequestId>)
        ensures
            r == (match self@.pending {
                Some(p) => Some(p.id),
                None => None,
            }),
    {
        match &self.pending {
            Some(p) => Some(p.id),
            None => None,
        }
    }

    /// The id of the first tool call that waits for approval, if there is one.
    pub fn pending_approval_call_id(&self) -> (r: Option<String>)
        ensures
            maybe(r) == approval_wanted(self@),
    {
        let p = match &self.pending {
            Some(p) => p,
            None => return None,
        };
        let ghost all = deep(p.tool_results@);
        let ghost f = |i: int|
            if all[i].approval is Pending && all[i].outcome is None {
                Some(all[i].call_id)
            } else {
                None
            };
        let mut i: usize = 0;
        while i < p.tool_results.len()
            invariant
                i <= p.tool_results@.len(),
                all == deep(p.tool_results@),
                f == (|i: int|
                    if all[i].approval is Pending && all[i].outcome is None {
                        Some(all[i].call_id)
                    } else {
                        None
                    }),
                forall|j: int| 0 <= j < i ==> #[trigger] f(j) is None,
                approval_wanted(self@) == first_some(all.len() as int, f),
            decreases p.tool_results@.len() - i,
        {
            assert(all[i as int] == p.tool_results@[i as int]@);
            if p.tool_results[i].approval == ApprovalState::Pending
                && p.tool_results[i].outcome.is_none() {
                proof {
                    lemma_first_at(all.len() as int, f, i as int);
                }
                return Some(p.tool_results[i].call_id.clone());
            }
            i = i + 1;
        }
        proof {
            lemma_first_none(all.len() as int, f);
        }
        None
    }

    /// Coarse runtime status.
    pub fn status(&self) -> (r: Status)
        ensures
            r == self@.status,
    {
        self.status
    }

    /// The tool calls of the request in flight.
    pub fn active_tool_calls(&self) -> (r: Vec<ActiveToolCall>)
        ensures
            deep(r@) == active_of(self@),
    {
        let mut out: Vec<ActiveToolCall> = Vec::new();
        let p = match &self.pending {
            Some(p) => p,
            None => return out,
        };
        let mut i: usize = 0;
        if p.phase == PendingPhase::Streaming {
            while i < p.slots.len()
                invariant
                    i <= p.slots@.len(),
                    out@.len() == i,
                    forall|k: int| 0 <= k < i ==> (#[trigger] out@[k])@ == slot_active(p.slots@[k]@),
                decreases p.slots@.len() - i,
            {
                out.push(p.slots[i].active());
                i = i + 1;
            }
            assert(deep(out@) =~= deep(p.slots@).map_values(|s: SlotModel| slot_active(s)));
        } else {
            while i < p.tool_results.len()
                invariant
                    i <= p.tool_results@.len(),
                    out@.len() == i,
                    forall|k: int|
                        0 <= k < i ==> (#[trigger] out@[k])@ == result_active(
                            p.tool_results@[k]@,
                        ),
                decreases p.tool_results@.len() - i,
            {
                out.push(p.tool_results[i].active());
                i = i + 1;
            }
            assert(deep(out@) =~= deep(p.tool_results@).map_values(
                |r: ResultModel| result_active(r),
            ));
        }
        out
    }

    /// What the core has counted.
    pub fn metrics(&self) -> (r: &AgentMetrics)
        ensures
            *r == self@.metrics,
    {
        &self.metrics
    }

    /// Applies an event and returns the actions that it leads to.
    pub fn handle_event(&mut self, event: Event) -> (r: Vec<Action>)
        ensures
            final(self)@ == step(old(self)@, event@).0,
            deep(r@) == step(old(self)@, event@).1,
    {
        match event {
            Event::UserMessage(text) => self.on_user_message(text),
            Event::Cancel => self.on_cancel(),
            Event::ContentDelta { request, text } => self.on_content_delta(request, text),
            Event::ReasoningDelta { request, text } => self.on_reasoning_delta(request, text),
            Event::ToolCallDelta { request, index, id, function_name, arguments_fragment } =>
                self.on_tool_call_delta(request, index, id, function_name, arguments_fragment),
            Event::Finish { request, reason } => self.on_finish(request, reason),
            Event::ToolResult { request, call_id, outcome } => self.on_tool_result(
                request,
                call_id,
                outcome,
            ),
            Event::PatchPreviewReady { request, call_id, preview_hashes, preview } =>
                self.on_patch_preview_ready(request, call_id, preview_hashes, preview),
            Event::ApproveToolCall { call_id } => self.on_approve_tool_call(call_id),
            Event::RejectToolCall { call_id } => self.on_reject_tool_call(call_id),
            Event::CommandOutputChunk { request, call_id, stream, bytes } =>
                self.on_command_output_chunk(request, call_id, stream, bytes),
            Event::TransportError { request, message } => self.on_transport_error(request, message),
            Event::Timeout { request } => self.on_timeout(request),
        }
    }

    /// Issues a request for the conversation as it stands.
    fn start_request(&mut self) -> (r: Vec<Action>)
        ensures
            final(self)@ == requested(old(self)@).0,
            deep(r@) == requested(old(self)@).1,
    {
        let id = RequestId(self.next_id);
        self.next_id = self.next_id.wrapping_add(1);
        self.pending = Some(
            Pending {
                id,
                phase: PendingPhase::Streaming,
                response: PendingResponse::default(),
                slots: Vec::new(),
                tool_results: Vec::new(),
            },
        );
        self.status = Status::AwaitingModel;
        two(
            Action::StartRequest { id, messages: clone_messages(&self.conversation) },
            Action::Redraw,
        )
    }

    fn on_user_message(&mut self, text: String) -> (r: Vec<Action>)
        ensures
            final(self)@ == user_message(old(self)@, text@).0,
            deep(r@) == user_message(old(self)@, text@).1,
    {
        if self.pending.is_some() {
            self.metrics.user_messages_rejected_while_active.inc();
            return none();
        }
        self.conversation.push(ChatMessage::User(text));
        self.tool_calls_this_turn = 0;
        self.metrics.user_messages_accepted.inc();
        self.start_request()
    }

    fn on_cancel(&mut self) -> (r: Vec<Action>)
        ensures
            final(self)@ == cancel(old(self)@).0,
            deep(r@) == cancel(old(self)@).1,
    {
        let pending = match self.pending.take() {
            Some(p) => p,
            None => {
                self.metrics.cancels_ignored_when_idle.inc();
                return none();
            },
        };
        let action = pending.cancel();
        self.status = Status::Idle;
        self.tool_calls_this_turn = 0;
        self.metrics.cancels_applied.inc();
        two(action, Action::Redraw)
    }

    /// Whether the request in flight has that id and is streaming.
    fn is_streaming(&self, request: RequestId) -> (r: bool)
        ensures
            r == (streaming(self@, request) is Some),
            r ==> streaming(self@, request) == self@.pending,
    {
        match &self.pending {
            Some(p) => p.id == request && p.phase == PendingPhase::Streaming,
            None => false,
        }
    }

    /// Whether the request in flight has that id and its tools are running.
    fn is_running(&self, request: RequestId) -> (r: bool)
        ensures
            r == (running(self@, request) is Some),
            r ==> running(self@, request) == self@.pending,
    {
        match &self.pending {
            Some(p) => p.id == request && p.phase != PendingPhase::Streaming,
            None => false,
        }
    }

    fn on_content_delta(&mut self, request: RequestId, text: String) -> (r: Vec<Action>)
        ensures
            final(self)@ == content_delta(old(self)@, request, text@).0,
            deep(r@) == content_delta(old(self)@, request, text@).1,
    {
        if !self.is_streaming(request) {
            self.metrics.content_deltas_dropped_as_stale.inc();
            return none();
        }
        if let Some(mut pending) = self.pending.take() {
            pending.response.content.append(text.as_str());
            self.pending = Some(pending);
        }
        self.status = Status::Streaming;
        self.metrics.content_deltas_appended.inc();
        one(Action::Redraw)
    }

    fn on_reasoning_delta(&mut self, request: RequestId, text: String) -> (r: Vec<Action>)
        ensures
            final(self)@ == reasoning_delta(old(self)@, request, text@).0,
            deep(r@) == reasoning_delta(old(self)@, request, text@).1,
    {
        if !self.is_streaming(request) {
            self.metrics.reasoning_deltas_dropped_as_stale.inc();
            return none();
        }
        if let Some(mut pending) = self.pending.take() {
            pending.response.reasoning.append(text.as_str());
            self.pending = Some(pending);
        }
        self.status = Status::Streaming;
        self.metrics.reasoning_deltas_appended.inc();
        one(Action::Redraw)
    }

    fn on_tool_call_delta(
        &mut self,
        request: RequestId,
        index: u64,
        id: Option<String>,
        function_name: Option<String>,
        arguments_fragment: Option<String>,
    ) -> (r: Vec<Action>)
        ensures
            ({
                let next = tool_call_delta(
                    old(self)@,
                    request,
                    index,
                    maybe(id),
                    maybe(function_name),
                    maybe(arguments_fragment),
                );
                final(self)@ == next.0 && deep(r@) == next.1
            }),
    {
        if !self.is_streaming(request) {
            self.metrics.tool_call_deltas_dropped_as_stale.inc();
            return none();
        }
        if let Some(mut pending) = self.pending.take() {
            let left_out = merge_delta(
                &mut pending.slots,
                index,
                id,
                function_name,
                arguments_fragment,
            );
            self.pending = Some(pending);
            if left_out {
                self.metrics.tool_call_arguments_fragments_dropped_over_limit.inc();
            }
        }
        self.status = Status::Streaming;
        self.metrics.tool_call_deltas_appended.inc();
        one(Action::Redraw)
    }

    fn on_finish(&mut self, request: RequestId, reason: Option<String>) -> (r: Vec<Action>)
        ensures
            final(self)@ == finish(old(self)@, request, maybe(reason)).0,
            deep(r@) == finish(old(self)@, request, maybe(reason)).1,
    {
        if !self.is_streaming(request) {
            self.metrics.finishes_dropped_as_stale.inc();
            return none();
        }
        match self.pending.take() {
            Some(pending) => {
                if text_is(&reason, "tool_calls") && pending.slots.len() > 0 {
                    self.finish_with_calls(pending, reason)
                } else {
                    self.finish_without_calls(pending)
                }
            },
            None => none(),
        }
    }

    fn finish_without_calls(&mut self, pending: Pending) -> (r: Vec<Action>)
        ensures
            final(self)@ == finish_turn(old(self)@, pending@).0,
            deep(r@) == finish_turn(old(self)@, pending@).1,
    {
        let reasoning_content = if pending.response.reasoning.as_str().is_empty() {
            None
        } else {
            Some(pending.response.reasoning)
        };
        self.conversation.push(
            ChatMessage::Assistant {
                content: pending.response.content,
                reasoning_content,
                tool_calls: Vec::new(),
            },
        );
        self.pending = None;
        self.status = Status::Idle;
        self.tool_calls_this_turn = 0;
        self.metrics.finishes_committed.inc();
        one(Action::Redraw)
    }

    fn finish_with_calls(&mut self, pending: Pending, reason: Option<String>) -> (r: Vec<Action>)
        ensures
            final(self)@ == finish_calls(old(self)@, pending@, maybe(reason)).0,
            deep(r@) == finish_calls(old(self)@, pending@, maybe(reason)).1,
    {
        let reasoning_content = if pending.response.reasoning.as_str().is_empty() {
            None
        } else {
            Some(pending.response.reasoning)
        };
        let mut calls = finalize_tool_call_slots(&pending.slots);
        let ghost all = deep(calls@);
        self.conversation.push(
            ChatMessage::Assistant {
                content: pending.response.content,
                reasoning_content,
                tool_calls: clone_calls(&calls),
            },
        );
        self.metrics.finishes_committed.inc();
        let mut dispatch = Dispatch {
            results: Vec::new(),
            actions: Vec::new(),
            tool_calls_this_turn: self.tool_calls_this_turn,
            metrics: self.metrics,
        };
        let ghost start = dispatch@;
        let ghost slots = deep(pending.slots@);
        let ghost workspace = self.workspace_display@;
        let mut i: usize = 0;
        assert(all.take(0) =~= Seq::empty());
        while i < calls.len()
            invariant
                i <= calls@.len(),
                all == deep(calls@),
                slots == deep(pending.slots@),
                workspace == self.workspace_display@,
                dispatch@ == dispatched(start, all.take(i as int), slots, pending.id, workspace),
            decreases calls@.len() - i,
        {
            proof {
                assert(all.take(i + 1).drop_last() =~= all.take(i as int));
                assert(all.take(i + 1).last() == calls@[i as int]@);
            }
            let over = is_over_limit(&pending.slots, calls[i].id.as_str());
            let invocation = Invocation::parse(
                calls[i].function_name.as_str(),
                calls[i].arguments_json.as_str(),
            );
            dispatch.add_call(
                calls[i].clone(),
                over,
                invocation,
                pending.id,
                self.workspace_display.as_str(),
            );
            i = i + 1;
        }
        assert(all.take(all.len() as int) =~= all);
        self.pending = None;
        self.tool_calls_this_turn = dispatch.tool_calls_this_turn;
        self.metrics = dispatch.metrics;
        let mut actions = dispatch.actions;
        if has_all_outcomes(&dispatch.results) {
            let mut more = self.advance_to_next_request(&dispatch.results);
            let ghost a = actions@;
            let ghost b = more@;
            actions.append(&mut more);
            assert(deep(actions@) =~= deep(a) + deep(b));
            return actions;
        }
        self.pending = Some(
            Pending {
                id: pending.id,
                phase: PendingPhase::ToolRunning,
                response: PendingResponse {
                    content: String::new(),
                    reasoning: String::new(),
                    finish_reason: reason,
                },
                slots: Vec::new(),
                tool_results: dispatch.results,
            },
        );
        self.status = Status::ToolRunning;
        self.recompute_phase_and_status();
        actions.push(Action::Redraw);
        actions
    }

    fn on_tool_result(&mut self, request: RequestId, call_id: String, outcome: ToolOutcome) -> (r:
        Vec<Action>)
        ensures
            final(self)@ == tool_result(old(self)@, request, call_id@, outcome@).0,
            deep(r@) == tool_result(old(self)@, request, call_id@, outcome@).1,
    {
        if !self.is_running(request) {
            self.metrics.tool_results_dropped_as_stale.inc();
            return none();
        }
        let mut pending = match self.pending.take() {
            Some(p) => p,
            None => return none(),
        };
        let ghost p = pending@;
        let k: usize = match find_result(
            &pending.tool_results,
            call_id.as_str(),
            Want::Unresolved,
        ) {
            Some(k) => k,
            None => {
                self.pending = Some(pending);
                self.metrics.tool_results_dropped_as_stale.inc();
                return none();
            },
        };
        let mut entry = pending.tool_results.remove(k);
        entry.outcome = Some(outcome);
        pending.tool_results.insert(k, entry);
        assert(deep(pending.tool_results@) =~= p.results.update(k as int, entry@));
        self.pending = Some(pending);
        self.metrics.tool_results_committed.inc();
        self.recompute_phase_and_status();
        self.maybe_advance_to_next_request()
    }

    fn on_patch_preview_ready(
        &mut self,
        request: RequestId,
        call_id: String,
        preview_hashes: Vec<PreviewHash>,
        preview: PatchPreview,
    ) -> (r: Vec<Action>)
        ensures
            ({
                let next = patch_preview_ready(
                    old(self)@,
                    request,
                    call_id@,
                    deep(preview_hashes@),
                    preview@,
                );
                final(self)@ == next.0 && deep(r@) == next.1
            }),
    {
        if !self.is_running(request) {
            self.metrics.patch_previews_dropped_as_stale.inc();
            return none();
        }
        let mut pending = match self.pending.take() {
            Some(p) => p,
            None => return none(),
        };
        let ghost p = pending@;
        let k: usize = match find_result(&pending.tool_results, call_id.as_str(), Want::Preview) {
            Some(k) => k,
            None => {
                self.pending = Some(pending);
                self.metrics.patch_previews_dropped_as_stale.inc();
                return none();
            },
        };
        let mut entry = pending.tool_results.remove(k);
        entry.patch_preview = Some(preview);
        entry.preview_hashes = preview_hashes;
        entry.approval = ApprovalState::Pending;
        pending.tool_results.insert(k, entry);
        assert(deep(pending.tool_results@) =~= p.results.update(k as int, entry@));
        self.pending = Some(pending);
        self.metrics.patch_previews_committed.inc();
        self.recompute_phase_and_status();
        one(Action::Redraw)
    }

    fn on_approve_tool_call(&mut self, call_id: String) -> (r: Vec<Action>)
        ensures
            final(self)@ == approve(old(self)@, call_id@).0,
            deep(r@) == approve(old(self)@, call_id@).1,
    {
        let mut pending = match self.pending.take() {
            Some(p) => p,
            None => {
                self.metrics.tool_call_approvals_dropped_as_stale.inc();
                return none();
            },
        };
        let ghost p = pending@;
        let k: usize = match find_result(&pending.tool_results, call_id.as_str(), Want::Approval) {
            Some(k) => k,
            None => {
                self.pending = Some(pending);
                self.metrics.tool_call_approvals_dropped_as_stale.inc();
                return none();
            },
        };
        let mut entry = pending.tool_results.remove(k);
        entry.approval = ApprovalState::Approved;
        let result = entry.approval_action(pending.id);
        self.metrics.tool_call_approvals_committed.inc();
        match result {
            Ok(action) => {
                pending.tool_results.insert(k, entry);
                assert(deep(pending.tool_results@) =~= p.results.update(k as int, entry@));
                self.pending = Some(pending);
                if let Action::ExecuteCommand { .. } = &action {
                    self.metrics.command_executions_started.inc();
                }
                self.recompute_phase_and_status();
                two(action, Action::Redraw)
            },
            Err(err) => {
                entry.outcome = Some(ToolOutcome::Failure(err));
                pending.tool_results.insert(k, entry);
                assert(deep(pending.tool_results@) =~= p.results.update(k as int, entry@));
                self.pending = Some(pending);
                self.recompute_phase_and_status();
                self.maybe_advance_to_next_request()
            },
        }
    }

    fn on_reject_tool_call(&mut self, call_id: String) -> (r: Vec<Action>)
        ensures
            final(self)@ == reject(old(self)@, call_id@).0,
            deep(r@) == reject(old(self)@, call_id@).1,
    {
        let mut pending = match self.pending.take() {
            Some(p) => p,
            None => {
                self.metrics.tool_call_rejections_dropped_as_stale.inc();
                return none();
            },
        };
        let ghost p = pending@;
        let k: usize = match find_result(&pending.tool_results, call_id.as_str(), Want::Approval) {
            Some(k) => k,
            None => {
                self.pending = Some(pending);
                self.metrics.tool_call_rejections_dropped_as_stale.inc();
                return none();
            },
        };
        let mut entry = pending.tool_results.remove(k);
        entry.approval = ApprovalState::Rejected;
        let err = if same(entry.function_name.as_str(), "command") {
            ToolExecutionError::Command(CommandError::Rejected)
        } else {
            ToolExecutionError::Patch(PatchError::Rejected)
        };
        entry.outcome = Some(ToolOutcome::Failure(err));
        pending.tool_results.insert(k, entry);
        assert(deep(pending.tool_results@) =~= p.results.update(k as int, entry@));
        self.pending = Some(pending);
        self.metrics.tool_call_rejections_committed.inc();
        self.recompute_phase_and_status();
        self.maybe_advance_to_next_request()
    }

    fn on_command_output_chunk(
        &mut self,
        request: RequestId,
        call_id: String,
        stream: CommandOutputStream,
        bytes: Vec<u8>,
    ) -> (r: Vec<Action>)
        ensures
            final(self)@ == command_output(old(self)@, request, call_id@, stream, bytes@).0,
            deep(r@) == command_output(old(self)@, request, call_id@, stream, bytes@).1,
    {
        if !self.is_running(request) {
            self.metrics.command_output_chunks_dropped_as_stale.inc();
            return none();
        }
        let mut pending = match self.pending.take() {
            Some(p) => p,
            None => return none(),
        };
        let ghost p = pending@;
        let k: usize = match find_result(&pending.tool_results, call_id.as_str(), Want::Output) {
            Some(k) => k,
            None => {
                self.pending = Some(pending);
                self.metrics.command_output_chunks_dropped_as_stale.inc();
                return none();
            },
        };
        let mut entry = pending.tool_results.remove(k);
        let tail = match entry.command_output_tail.take() {
            Some(t) => t,
            None => CommandOutputTail::default(),
        };
        entry.command_output_tail = Some(extend_tail(tail, stream, &bytes));
        pending.tool_results.insert(k, entry);
        assert(deep(pending.tool_results@) =~= p.results.update(k as int, entry@));
        self.pending = Some(pending);
        self.metrics.command_output_chunks_appended.inc();
        one(Action::Redraw)
    }

    /// Brings phase and status in line with the calls.
    fn recompute_phase_and_status(&mut self)
        ensures
            final(self)@ == settled(old(self)@),
    {
        if let Some(mut pending) = self.pending.take() {
            if pending.phase != PendingPhase::Streaming {
                if has_pending_approval(&pending.tool_results) {
                    pending.phase = PendingPhase::AwaitingApproval;
                    self.status = Status::AwaitingApproval;
                } else {
                    pending.phase = PendingPhase::ToolRunning;
                    self.status = Status::ToolRunning;
                }
            }
            self.pending = Some(pending);
        }
    }

    /// Goes on to the next request if every call has its outcome.
    fn maybe_advance_to_next_request(&mut self) -> (r: Vec<Action>)
        ensures
            final(self)@ == proceeded(old(self)@).0,
            deep(r@) == proceeded(old(self)@).1,
    {
        match self.pending.take() {
            Some(pending) => {
                if has_all_outcomes(&pending.tool_results) {
                    self.advance_to_next_request(&pending.tool_results)
                } else {
                    self.pending = Some(pending);
                    one(Action::Redraw)
                }
            },
            None => none(),
        }
    }

    fn on_transport_error(&mut self, request: RequestId, message: String) -> (r: Vec<Action>)
        ensures
            final(self)@ == transport_error(old(self)@, request, message@).0,
            deep(r@) == transport_error(old(self)@, request, message@).1,
    {
        if !self.is_streaming(request) {
            self.metrics.transport_errors_dropped_as_stale.inc();
            return none();
        }
        self.pending = None;
        self.status = Status::Idle;
        self.tool_calls_this_turn = 0;
        self.metrics.transport_errors_recorded.inc();
        two(Action::ReportError { message }, Action::Redraw)
    }

    fn on_timeout(&mut self, request: RequestId) -> (r: Vec<Action>)
        ensures
            final(self)@ == timeout(old(self)@, request).0,
            deep(r@) == timeout(old(self)@, request).1,
    {
        let action = match &self.pending {
            Some(p) => if p.id == request {
                p.cancel()
            } else {
                self.metrics.timeouts_dropped_as_stale.inc();
                return none();
            },
            None => {
                self.metrics.timeouts_dropped_as_stale.inc();
                return none();
            },
        };
        self.pending = None;
        self.status = Status::Idle;
        self.tool_calls_this_turn = 0;
        self.metrics.timeouts_applied.inc();
        let mut actions: Vec<Action> = Vec::new();
        actions.push(action);
        actions.push(Action::ReportError { message: "request timed out".to_owned() });
        actions.push(Action::Redraw);
        assert(deep(actions@) =~= timeout(old(self)@, request).1);
        actions
    }

    /// Adds the outcomes of all calls to the conversation and issues a new
    /// request.
    fn advance_to_next_request(&mut self, results: &Vec<PendingToolResult>) -> (r: Vec<Action>)
        ensures
            final(self)@ == advanced(old(self)@, deep(results@)).0,
            deep(r@) == advanced(old(self)@, deep(results@)).1,
    {
        let ghost answers = deep(results@).map_values(|r: ResultModel| answer(r));
        let ghost before = self@;
        let mut i: usize = 0;
        assert(before.conversation + answers.take(0) =~= before.conversation);
        while i < results.len()
            invariant
                i <= results@.len(),
                answers == deep(results@).map_values(|r: ResultModel| answer(r)),
                self@ == (CoreModel {
                    conversation: before.conversation + answers.take(i as int),
                    ..before
                }),
            decreases results@.len() - i,
        {
            let m = results[i].answer();
            assert(answers[i as int] == m@);
            self.conversation.push(m);
            proof {
                assert(before.conversation + answers.take(i + 1) =~= (before.conversation
                    + answers.take(i as int)).push(m@));
            }
            i = i + 1;
        }
        assert(answers.take(answers.len() as int) =~= answers);
        self.start_request()
    }
}

/// The end of the output after one more chunk.
fn extend_tail(tail: CommandOutputTail, stream: CommandOutputStream, bytes: &Vec<u8>) -> (r:
    CommandOutputTail)
    ensures
        r@ == tail_after(tail@, stream, bytes@),
{
    let text = lossy(bytes.as_slice());
    let n: u64 = bytes.len() as u64;
    let mut tail = tail;
    match stream {
        CommandOutputStream::Stdout => {
            tail.stdout_tail.append(text.as_str());
            tail.stdout_tail = tail_of(tail.stdout_tail.as_str(), COMMAND_TAIL_CHARS);
            tail.stdout_bytes_total = tail.stdout_bytes_total.saturating_add(n);
        },
        CommandOutputStream::Stderr => {
            tail.stderr_tail.append(text.as_str());
            tail.stderr_tail = tail_of(tail.stderr_tail.as_str(), COMMAND_TAIL_CHARS);
            tail.stderr_bytes_total = tail.stderr_bytes_total.saturating_add(n);
        },
    }
    tail
}

} // verus!
