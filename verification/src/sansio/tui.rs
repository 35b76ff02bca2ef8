//! What a terminal shows of the agent, and what its keys do.
//!
//! Nothing here touches a terminal. The surrounding shell reads the keys,
//! hands the resulting events to the core, and draws the grid.
use vstd::prelude::*;
use vstd::string::*;

pub mod screens;

use super::agent::debug::{debug_tool_error, tool_error_debug};
use super::agent::engine::{active_of, approval_wanted, AgentCore};
use super::agent::errors::{OutcomeModel, ToolOutcome};
use super::agent::state::CoreModel;
use super::agent::types::{
    ActiveModel, ActiveToolCall, ApprovalState, CommandPreview, CommandPreviewModel, Event,
    EventModel, PatchPreviewModel, PendingResponse, ResponseModel, Status,
};
use super::deepseek::{clone_messages, clone_text, ChatMessage, MessageModel};
use crate::model::{deep, maybe};
use crate::shell::{shell_escape_argv, shell_line};
use crate::text::{
    cat, cat3, chars_of, decimal, decimal_of, join, joined, lines_of, split, split_at, split_lines,
    string_of, trim, trimmed, views,
};

verus! {

broadcast use crate::model::group_deep;

/// What the shell keeps of the user interface.
#[derive(Debug, Clone, PartialEq, Eq)]
pub struct UiState {
    pub model: String,
    pub draft: String,
}

impl Default for UiState {
    fn default() -> (r: Self)
        ensures
            r.model@.len() == 0,
            r.draft@.len() == 0,
    {
        UiState { model: String::new(), draft: String::new() }
    }
}

/// What the keys depend on.
#[derive(Debug, Clone, PartialEq, Eq)]
pub struct AgentView {
    pub has_active_request: bool,
    /// The first call that waits for approval. While there is one, the keys
    /// approve or reject it.
    pub pending_approval_call_id: Option<String>,
}

/// An [`AgentView`] as a mathematical value.
#[verifier::ext_equal]
pub struct ViewModel {
    pub has_active_request: bool,
    pub pending_approval_call_id: Option<Seq<char>>,
}

impl View for AgentView {
    type V = ViewModel;

    open spec fn view(&self) -> ViewModel {
        ViewModel {
            has_active_request: self.has_active_request,
            pending_approval_call_id: maybe(self.pending_approval_call_id),
        }
    }
}

/// What the keys depend on, for a core.
pub open spec fn view_of(core: CoreModel) -> ViewModel {
    ViewModel {
        has_active_request: core.pending is Some,
        pending_approval_call_id: approval_wanted(core),
    }
}

/// What the keys depend on.
pub fn agent_view(agent: &AgentCore) -> (r: AgentView)
    ensures
        r@ == view_of(agent@),
{
    AgentView {
        has_active_request: agent.active_request().is_some(),
        pending_approval_call_id: agent.pending_approval_call_id(),
    }
}

/// Everything that is drawn.
#[derive(Debug, Clone, PartialEq, Eq)]
pub struct RenderState {
    pub model: String,
    pub status: Status,
    pub active: bool,
    /// Whether a call waits for approval.
    pub awaiting_approval: bool,
    pub draft: String,
    pub conversation: Vec<ChatMessage>,
    pub pending: Option<PendingResponse>,
    pub active_tool_calls: Vec<ActiveToolCall>,
    pub error_banner: Option<String>,
}

/// A [`RenderState`] as a mathematical value.
#[verifier::ext_equal]
pub struct RenderModel {
    pub model: Seq<char>,
    pub status: Status,
    pub active: bool,
    pub awaiting_approval: bool,
    pub draft: Seq<char>,
    pub conversation: Seq<MessageModel>,
    pub pending: Option<ResponseModel>,
    pub active_tool_calls: Seq<ActiveModel>,
    pub error_banner: Option<Seq<char>>,
}

impl View for RenderState {
    type V = RenderModel;

    open spec fn view(&self) -> RenderModel {
        RenderModel {
            model: self.model@,
            status: self.status,
            active: self.active,
            awaiting_approval: self.awaiting_approval,
            draft: self.draft@,
            conversation: deep(self.conversation@),
            pending: maybe(self.pending),
            active_tool_calls: deep(self.active_tool_calls@),
            error_banner: maybe(self.error_banner),
        }
    }
}

impl Default for RenderState {
    fn default() -> (r: Self)
        ensures
            r@ == (RenderModel {
                model: Seq::empty(),
                status: Status::Idle,
                active: false,
                awaiting_approval: false,
                draft: Seq::empty(),
                conversation: Seq::empty(),
                pending: None,
                active_tool_calls: Seq::empty(),
                error_banner: None,
            }),
    {
        let r = RenderState {
            model: String::new(),
            status: Status::Idle,
            active: false,
            awaiting_approval: false,
            draft: String::new(),
            conversation: Vec::new(),
            pending: None,
            active_tool_calls: Vec::new(),
            error_banner: None,
        };
        assert(r@.model =~= Seq::empty());
        assert(r@.draft =~= Seq::empty());
        assert(r@.conversation =~= Seq::empty());
        assert(r@.active_tool_calls =~= Seq::empty());
        r
    }
}

/// What a key leads to.
#[derive(Debug, Clone, PartialEq, Eq)]
pub struct KeyOutcome {
    /// Events for the core.
    pub events: Vec<Event>,
    pub effect: KeyEffect,
}

/// What a key leads to besides events.
#[derive(Debug, Clone, Copy, PartialEq, Eq, Structural)]
pub enum KeyEffect {
    Nothing,
    Quit,
}

impl Default for KeyEffect {
    fn default() -> (r: Self)
        ensures
            r is Nothing,
    {
        KeyEffect::Nothing
    }
}

/// A key that was pressed.
#[derive(Debug, Clone, Copy, PartialEq, Eq, Structural)]
pub struct KeyInput {
    pub ctrl: bool,
    pub alt: bool,
    pub code: KeyCode,
}

/// The keys that mean something.
#[derive(Debug, Clone, Copy, PartialEq, Eq, Structural)]
pub enum KeyCode {
    Enter,
    Escape,
    Backspace,
    Char(char),
    Other,
}

/// What is drawn, line by line.
#[derive(Debug, PartialEq, Eq)]
pub struct RenderedGrid {
    /// Rows and columns.
    pub size: (usize, usize),
    pub header: Region,
    pub body: Region,
    pub error: Option<Region>,
    pub prompt: Region,
    pub cursor: Option<(usize, usize)>,
    /// Whether the body did not fit, so that its oldest lines are missing.
    pub body_truncated: bool,
}

/// A [`RenderedGrid`] as a mathematical value.
#[verifier::ext_equal]
pub struct GridModel {
    pub size: (usize, usize),
    pub header: RegionModel,
    pub body: RegionModel,
    pub error: Option<RegionModel>,
    pub prompt: RegionModel,
    pub cursor: Option<(usize, usize)>,
    pub body_truncated: bool,
}

impl View for RenderedGrid {
    type V = GridModel;

    open spec fn view(&self) -> GridModel {
        GridModel {
            size: self.size,
            header: self.header@,
            body: self.body@,
            error: maybe(self.error),
            prompt: self.prompt@,
            cursor: self.cursor,
            body_truncated: self.body_truncated,
        }
    }
}

impl Clone for RenderedGrid {
    fn clone(&self) -> (r: Self)
        ensures
            r@ == self@,
    {
        RenderedGrid {
            size: self.size,
            header: self.header.clone(),
            body: self.body.clone(),
            error: match &self.error {
                Some(region) => Some(region.clone()),
                None => None,
            },
            prompt: self.prompt.clone(),
            cursor: self.cursor,
            body_truncated: self.body_truncated,
        }
    }
}

/// Lines from a row on.
#[derive(Debug, PartialEq, Eq)]
pub struct Region {
    pub top: usize,
    pub lines: Vec<StyledLine>,
}

/// A [`Region`] as a mathematical value.
#[verifier::ext_equal]
pub struct RegionModel {
    pub top: usize,
    pub lines: Seq<Seq<SpanModel>>,
}

impl View for Region {
    type V = RegionModel;

    open spec fn view(&self) -> RegionModel {
        RegionModel { top: self.top, lines: deep(self.lines@) }
    }
}

impl Clone for Region {
    fn clone(&self) -> (r: Self)
        ensures
            r@ == self@,
    {
        let r = Region { top: self.top, lines: self.lines.clone() };
        assert(r@ =~= self@);
        r
    }
}

/// A line.
#[derive(Debug, PartialEq, Eq)]
pub struct StyledLine {
    pub spans: Vec<StyledSpan>,
}

impl View for StyledLine {
    type V = Seq<SpanModel>;

    open spec fn view(&self) -> Seq<SpanModel> {
        deep(self.spans@)
    }
}

impl Clone for StyledLine {
    fn clone(&self) -> (r: Self)
        ensures
            r@ == self@,
    {
        let r = StyledLine { spans: self.spans.clone() };
        assert(r@ =~= self@);
        r
    }
}

impl Default for StyledLine {
    fn default() -> (r: Self)
        ensures
            r@ == Seq::<SpanModel>::empty(),
    {
        let r = StyledLine { spans: Vec::new() };
        assert(r@ =~= Seq::<SpanModel>::empty());
        r
    }
}

/// Characters in one style.
#[derive(Debug, PartialEq, Eq)]
pub struct StyledSpan {
    pub text: String,
    pub style: Style,
}

/// A [`StyledSpan`] as a mathematical value.
#[verifier::ext_equal]
pub struct SpanModel {
    pub text: Seq<char>,
    pub style: Style,
}

impl View for StyledSpan {
    type V = SpanModel;

    open spec fn view(&self) -> SpanModel {
        SpanModel { text: self.text@, style: self.style }
    }
}

impl Clone for StyledSpan {
    fn clone(&self) -> (r: Self)
        ensures
            r@ == self@,
    {
        StyledSpan { text: self.text.clone(), style: self.style }
    }
}

/// How characters look.
#[derive(Debug, Clone, Copy, PartialEq, Eq)]
pub struct Style {
    pub fg: Option<Color>,
    pub bg: Option<Color>,
    pub bold: bool,
    pub dim: bool,
    pub italic: bool,
    pub underline: bool,
}

/// The colours.
#[derive(Debug, Clone, Copy, PartialEq, Eq, Structural)]
pub enum Color {
    Cyan,
    Green,
    Red,
    Yellow,
    BrightBlack,
}

/// Characters as they are.
pub open spec fn plain() -> Style {
    Style { fg: None, bg: None, bold: false, dim: false, italic: false, underline: false }
}

/// A style in a colour.
pub open spec fn coloured(s: Style, c: Color) -> Style {
    Style { fg: Some(c), ..s }
}

/// A style in bold.
pub open spec fn strong(s: Style) -> Style {
    Style { bold: true, ..s }
}

/// A style that is dimmed.
pub open spec fn dimmed(s: Style) -> Style {
    Style { dim: true, ..s }
}

impl Default for Style {
    fn default() -> (r: Self)
        ensures
            r == plain(),
    {
        Style::new()
    }
}

impl Style {
    /// Characters as they are.
    pub fn new() -> (r: Self)
        ensures
            r == plain(),
    {
        Style { fg: None, bg: None, bold: false, dim: false, italic: false, underline: false }
    }

    /// The style in bold.
    pub fn bold(self) -> (r: Self)
        ensures
            r == strong(self),
    {
        Style { bold: true, ..self }
    }

    /// The style, dimmed.
    pub fn dim(self) -> (r: Self)
        ensures
            r == dimmed(self),
    {
        Style { dim: true, ..self }
    }

    /// The style in a colour.
    pub fn fg(self, color: Color) -> (r: Self)
        ensures
            r == coloured(self, color),
    {
        Style { fg: Some(color), ..self }
    }
}

/// Everything that is drawn of a core.
pub open spec fn render_state_of(
    ui: UiState,
    core: CoreModel,
    error_banner: Option<Seq<char>>,
) -> RenderModel {
    RenderModel {
        model: ui.model@,
        status: core.status,
        active: core.pending is Some,
        awaiting_approval: approval_wanted(core) is Some,
        draft: ui.draft@,
        conversation: core.conversation,
        pending: match core.pending {
            Some(p) => Some(p.response),
            None => None,
        },
        active_tool_calls: active_of(core),
        error_banner,
    }
}

/// Puts together everything that is drawn.
pub fn build_render_state(ui: &UiState, agent: &AgentCore, error_banner: Option<&str>) -> (r:
    RenderState)
    ensures
        r@ == render_state_of(
            *ui,
            agent@,
            match error_banner {
                Some(s) => Some(s@),
                None => None,
            },
        ),
{
    let view = agent_view(agent);
    RenderState {
        model: ui.model.clone(),
        status: agent.status(),
        active: view.has_active_request,
        awaiting_approval: view.pending_approval_call_id.is_some(),
        draft: ui.draft.clone(),
        conversation: clone_messages(agent.conversation()),
        pending: match agent.pending_response() {
            Some(p) => Some(
                PendingResponse {
                    content: p.content.clone(),
                    reasoning: p.reasoning.clone(),
                    finish_reason: clone_text(&p.finish_reason),
                },
            ),
            None => None,
        },
        active_tool_calls: agent.active_tool_calls(),
        error_banner: match error_banner {
            Some(s) => Some(s.to_owned()),
            None => None,
        },
    }
}

/// What a key does while a call waits for approval. The draft stays as it
/// is.
pub open spec fn approval_key(key: KeyInput, call_id: Seq<char>) -> (Seq<EventModel>, KeyEffect) {
    if key.ctrl && key.code == KeyCode::Char('c') {
        (seq![EventModel::Cancel], KeyEffect::Nothing)
    } else if key.ctrl && key.code == KeyCode::Char('d') {
        (Seq::empty(), KeyEffect::Quit)
    } else if !key.ctrl && (key.code == KeyCode::Escape || key.code == KeyCode::Char('n')
        || key.code == KeyCode::Char('N')) {
        (seq![EventModel::RejectToolCall { call_id }], KeyEffect::Nothing)
    } else if !key.ctrl && (key.code == KeyCode::Char('y') || key.code == KeyCode::Char('Y')) {
        (seq![EventModel::ApproveToolCall { call_id }], KeyEffect::Nothing)
    } else {
        (Seq::empty(), KeyEffect::Nothing)
    }
}

/// What a key does otherwise: to the draft, and the events that it leads to.
/// While a request is in flight, the draft stays as it is.
pub open spec fn draft_key(key: KeyInput, draft: Seq<char>, busy: bool) -> (
    Seq<char>,
    Seq<EventModel>,
    KeyEffect,
) {
    if key.ctrl {
        if key.code == KeyCode::Char('c') {
            if busy {
                (draft, seq![EventModel::Cancel], KeyEffect::Nothing)
            } else {
                (draft, Seq::empty(), KeyEffect::Quit)
            }
        } else if key.code == KeyCode::Char('d') {
            (draft, Seq::empty(), KeyEffect::Quit)
        } else {
            (draft, Seq::empty(), KeyEffect::Nothing)
        }
    } else {
        match key.code {
            KeyCode::Escape => (draft, if busy {
                seq![EventModel::Cancel]
            } else {
                Seq::empty()
            }, KeyEffect::Nothing),
            KeyCode::Enter => if draft.len() > 0 && !busy {
                (Seq::empty(), seq![EventModel::UserMessage(draft)], KeyEffect::Nothing)
            } else {
                (draft, Seq::empty(), KeyEffect::Nothing)
            },
            KeyCode::Backspace => (if !busy && draft.len() > 0 {
                draft.drop_last()
            } else {
                draft
            }, Seq::empty(), KeyEffect::Nothing),
            KeyCode::Char(c) => (if !key.alt && !busy {
                draft.push(c)
            } else {
                draft
            }, Seq::empty(), KeyEffect::Nothing),
            KeyCode::Other => (draft, Seq::empty(), KeyEffect::Nothing),
        }
    }
}

/// What a key does.
pub open spec fn key_step(key: KeyInput, draft: Seq<char>, view: ViewModel) -> (
    Seq<char>,
    Seq<EventModel>,
    KeyEffect,
) {
    match view.pending_approval_call_id {
        Some(call_id) => {
            let (events, effect) = approval_key(key, call_id);
            (draft, events, effect)
        },
        None => draft_key(key, draft, view.has_active_request),
    }
}

fn without_last(s: &str) -> (r: String)
    ensures
        r@ == if s@.len() > 0 {
            s@.drop_last()
        } else {
            s@
        },
{
    let v = chars_of(s);
    if v.len() == 0 {
        return s.to_owned();
    }
    assert(v@.subrange(0, v@.len() - 1) =~= v@.drop_last());
    string_of(&v, 0, v.len() - 1)
}

fn handle_approval_key(key: KeyInput, call_id: &str) -> (r: KeyOutcome)
    ensures
        (deep(r.events@), r.effect) == approval_key(key, call_id@),
{
    let mut events: Vec<Event> = Vec::new();
    let mut effect = KeyEffect::Nothing;
    if key.ctrl && key.code == KeyCode::Char('c') {
        events.push(Event::Cancel);
        assert(deep(events@) =~= seq![EventModel::Cancel]);
    } else if key.ctrl && key.code == KeyCode::Char('d') {
        effect = KeyEffect::Quit;
    } else if !key.ctrl && (key.code == KeyCode::Escape || key.code == KeyCode::Char('n')
        || key.code == KeyCode::Char('N')) {
        events.push(Event::RejectToolCall { call_id: call_id.to_owned() });
        assert(deep(events@) =~= seq![EventModel::RejectToolCall { call_id: call_id@ }]);
    } else if !key.ctrl && (key.code == KeyCode::Char('y') || key.code == KeyCode::Char('Y')) {
        events.push(Event::ApproveToolCall { call_id: call_id.to_owned() });
        assert(deep(events@) =~= seq![EventModel::ApproveToolCall { call_id: call_id@ }]);
    }
    KeyOutcome { events, effect }
}

/// Takes in a key. Changes the draft, and says what else the key leads to.
pub fn handle_key(key: KeyInput, ui: &mut UiState, view: AgentView) -> (r: KeyOutcome)
    ensures
        (final(ui).draft@, deep(r.events@), r.effect) == key_step(key, old(ui).draft@, view@),
        final(ui).model == old(ui).model,
{
    if let Some(call_id) = &view.pending_approval_call_id {
        return handle_approval_key(key, call_id.as_str());
    }
    let busy = view.has_active_request;
    let mut events: Vec<Event> = Vec::new();
    let mut effect = KeyEffect::Nothing;
    if key.ctrl {
        if key.code == KeyCode::Char('c') {
            if busy {
                events.push(Event::Cancel);
                assert(deep(events@) =~= seq![EventModel::Cancel]);
            } else {
                effect = KeyEffect::Quit;
            }
        } else if key.code == KeyCode::Char('d') {
            effect = KeyEffect::Quit;
        }
        return KeyOutcome { events, effect };
    }
    match key.code {
        KeyCode::Escape => {
            if busy {
                events.push(Event::Cancel);
                assert(deep(events@) =~= seq![EventModel::Cancel]);
            }
        },
        KeyCode::Enter => {
            if !ui.draft.as_str().is_empty() && !busy {
                let text = ui.draft.clone();
                ui.draft = String::new();
                assert(ui.draft@ =~= Seq::empty());
                events.push(Event::UserMessage(text));
                assert(deep(events@) =~= seq![EventModel::UserMessage(text@)]);
            }
        },
        KeyCode::Backspace => {
            if !busy {
                ui.draft = without_last(ui.draft.as_str());
            }
        },
        KeyCode::Char(c) => {
            if !key.alt && !busy {
                ui.draft.push(c);
            }
        },
        KeyCode::Other => {},
    }
    KeyOutcome { events, effect }
}

/// While a request is in flight or a call waits for approval, no key changes
/// the draft or submits it.
pub proof fn law_draft_is_safe_while_busy(key: KeyInput, draft: Seq<char>, view: ViewModel)
    requires
        view.has_active_request || view.pending_approval_call_id is Some,
    ensures
        key_step(key, draft, view).0 == draft,
        forall|i: int|
            0 <= i < key_step(key, draft, view).1.len() ==> !((
            #[trigger] key_step(key, draft, view).1[i]) is UserMessage),
{
}

/// A call is approved by the keys `y` and `Y` alone, and only while it waits:
/// no draft that is left over can approve it.
pub proof fn law_only_y_approves(key: KeyInput, draft: Seq<char>, view: ViewModel, i: int)
    requires
        0 <= i < key_step(key, draft, view).1.len(),
        key_step(key, draft, view).1[i] is ApproveToolCall,
    ensures
        !key.ctrl,
        key.code == KeyCode::Char('y') || key.code == KeyCode::Char('Y'),
        view.pending_approval_call_id is Some,
        key_step(key, draft, view).1[i] == (EventModel::ApproveToolCall {
            call_id: view.pending_approval_call_id->0,
        }),
{
}

/// A text with its style.
pub open spec fn span(text: Seq<char>, style: Style) -> SpanModel {
    SpanModel { text, style }
}

pub open spec fn header_style() -> Style {
    strong(plain())
}

pub open spec fn faint_style() -> Style {
    dimmed(coloured(plain(), Color::BrightBlack))
}

pub open spec fn user_style() -> Style {
    coloured(strong(plain()), Color::Cyan)
}

pub open spec fn assistant_style() -> Style {
    coloured(plain(), Color::Green)
}

pub open spec fn error_style() -> Style {
    coloured(strong(plain()), Color::Red)
}

pub open spec fn label_style() -> Style {
    coloured(strong(plain()), Color::Yellow)
}

pub open spec fn running_style() -> Style {
    coloured(plain(), Color::Yellow)
}

pub open spec fn quiet_style() -> Style {
    coloured(plain(), Color::BrightBlack)
}

pub open spec fn stderr_style() -> Style {
    coloured(plain(), Color::Red)
}

/// What the header says of a status.
pub open spec fn status_label(s: Status) -> Seq<char> {
    match s {
        Status::Idle => "idle"@,
        Status::AwaitingModel => "waiting"@,
        Status::Streaming => "streaming"@,
        Status::ToolRunning => "tool"@,
        Status::AwaitingApproval => "approval"@,
    }
}

/// The header.
pub open spec fn header_line(m: RenderModel) -> Seq<SpanModel> {
    seq![
        span("attini"@, header_style()),
        span("  model="@ + m.model + "  status="@ + status_label(m.status), plain()),
    ]
}

/// What the keys do now.
pub open spec fn key_hint(m: RenderModel) -> Seq<char> {
    if m.awaiting_approval {
        "Y: approve   N/Esc: reject   Ctrl-C: cancel all"@
    } else if m.active {
        "Esc / Ctrl-C: cancel"@
    } else {
        "Enter: send   Ctrl-D: quit"@
    }
}

/// The prompt.
pub open spec fn prompt_line(m: RenderModel) -> Seq<SpanModel> {
    seq![
        span(">"@, header_style()),
        span(" "@ + m.draft + "   "@, plain()),
        span("["@ + key_hint(m) + "]"@, faint_style()),
    ]
}

/// The line that shows an error.
pub open spec fn error_line(message: Seq<char>) -> Seq<SpanModel> {
    seq![span("error:"@, error_style()), span(" "@ + message, plain())]
}

/// The lines of a text with a label before the first.
pub open spec fn labelled(label: Seq<char>, style: Style, content: Seq<char>) -> Seq<
    Seq<SpanModel>,
> {
    let parts = split_at(content, '\n');
    Seq::new(
        parts.len(),
        |i: int|
            if i == 0 {
                seq![span(label + ": "@, style), span(parts[0], plain())]
            } else {
                seq![span(parts[i], plain())]
            },
    )
}

/// The lines of a message.
pub open spec fn message_lines(m: MessageModel) -> Seq<Seq<SpanModel>> {
    match m {
        MessageModel::User(content) => labelled("user"@, user_style(), content),
        MessageModel::Assistant { content, .. } => labelled(
            "assistant"@,
            assistant_style(),
            content,
        ),
        MessageModel::System(content) => labelled("system"@, faint_style(), content),
        MessageModel::Tool { tool_call_id, content } => labelled(
            "tool["@ + tool_call_id + "]"@,
            faint_style(),
            content,
        ),
    }
}

/// The lines of what the model reasons.
pub open spec fn reasoning_lines(text: Seq<char>) -> Seq<Seq<SpanModel>> {
    let parts = split_at(text, '\n');
    Seq::new(
        parts.len(),
        |i: int|
            if i == 0 {
                seq![span("[thinking] "@, quiet_style()), span(parts[0], quiet_style())]
            } else {
                seq![span(parts[i], quiet_style())]
            },
    )
}

/// The lines of the response that is under way.
pub open spec fn pending_lines(p: Option<ResponseModel>) -> Seq<Seq<SpanModel>> {
    match p {
        Some(p) => (if p.reasoning.len() > 0 {
            reasoning_lines(p.reasoning)
        } else {
            Seq::empty()
        }) + (if p.content.len() > 0 {
            labelled("assistant"@, assistant_style(), p.content)
        } else {
            Seq::empty()
        }),
        None => Seq::empty(),
    }
}

/// The start of a text on one line, with an ellipsis where there is more.
pub open spec fn snippet(s: Seq<char>, n: nat) -> Seq<char> {
    let line = s.map_values(
        |c: char|
            if c == '\n' {
                ' '
            } else {
                c
            },
    );
    if s.len() > n {
        line.take(n as int).push('…')
    } else {
        line
    }
}

/// What came of a call, in short.
pub open spec fn outcome_summary(o: Option<OutcomeModel>) -> Option<Seq<char>> {
    match o {
        None => None,
        Some(OutcomeModel::Success(body)) => Some(snippet(body, 60)),
        Some(OutcomeModel::Failure(e)) => Some(tool_error_debug(e)),
    }
}

/// The state of a call, in a word.
pub open spec fn call_state(c: ActiveModel) -> (Seq<char>, Style) {
    if c.is_streaming {
        ("pending"@, running_style())
    } else {
        match c.outcome {
            None => ("running"@, running_style()),
            Some(OutcomeModel::Success(_)) => ("done"@, quiet_style()),
            Some(OutcomeModel::Failure(_)) => ("error"@, error_style()),
        }
    }
}

/// The state of a patch, in a word.
pub open spec fn patch_state(c: ActiveModel) -> (Seq<char>, Style) {
    match c.approval {
        ApprovalState::Pending => ("awaiting"@, running_style()),
        ApprovalState::Approved => match c.outcome {
            None => ("applying"@, running_style()),
            Some(OutcomeModel::Success(_)) => ("applied"@, quiet_style()),
            Some(OutcomeModel::Failure(_)) => ("error"@, error_style()),
        },
        ApprovalState::Rejected => ("rejected"@, error_style()),
        ApprovalState::NotRequired => call_state(c),
    }
}

/// The state of a command, in two words.
pub open spec fn command_state(c: ActiveModel) -> (Seq<char>, Seq<char>, Style) {
    match c.approval {
        ApprovalState::Pending => ("approval"@, "awaiting"@, running_style()),
        ApprovalState::Approved => match c.outcome {
            None => ("running"@, "…"@, running_style()),
            Some(OutcomeModel::Success(_)) => ("done"@, "ok"@, quiet_style()),
            Some(OutcomeModel::Failure(_)) => ("error"@, "error"@, error_style()),
        },
        ApprovalState::Rejected => ("rejected"@, "rejected"@, error_style()),
        ApprovalState::NotRequired => ("done"@, "done"@, quiet_style()),
    }
}

/// The line of a call: its label, its state, and what is to be said besides.
pub open spec fn state_line(
    label: Seq<char>,
    state: Seq<char>,
    style: Style,
    gap: Seq<char>,
    more: Option<Seq<char>>,
) -> Seq<SpanModel> {
    seq![span(label, label_style()), span(" "@ + state, style)] + (match more {
        Some(text) => seq![span(gap + text, quiet_style())],
        None => Seq::empty(),
    })
}

/// The arguments of a call, in short.
pub open spec fn args_summary(args: Seq<char>) -> Seq<char> {
    snippet(trimmed(args), 40)
}

/// The label of a call to a tool that needs no approval.
pub open spec fn tool_label(c: ActiveModel) -> Seq<char> {
    "[tool: "@ + (if c.function_name.len() == 0 {
        "?"@
    } else {
        c.function_name
    }) + " "@ + args_summary(c.arguments_json) + "]"@
}

/// The label of a patch.
pub open spec fn patch_label(p: PatchPreviewModel) -> Seq<char> {
    "[patch approval] "@ + (if p.target_paths.len() == 0 {
        "?"@
    } else {
        snippet(joined(p.target_paths, ", "@), 40)
    }) + " (+"@ + decimal(p.added_lines as nat) + "/-"@ + decimal(p.removed_lines as nat) + ")"@
}

/// What is said of a command besides its state: where it would run, or how
/// much it has printed.
pub open spec fn command_meta(c: ActiveModel, p: CommandPreviewModel) -> Option<Seq<char>> {
    match c.approval {
        ApprovalState::Pending => if p.working_directory.len() == 0 {
            None
        } else {
            Some("cwd="@ + p.working_directory)
        },
        ApprovalState::Approved => match c.command_output_tail {
            Some(t) => Some(
                "stdout="@ + decimal(t.stdout_bytes_total as nat) + "B, stderr="@ + decimal(
                    t.stderr_bytes_total as nat,
                ) + "B"@,
            ),
            None => None,
        },
        _ => None,
    }
}

/// How many of the last lines of a stream are shown.
pub const COMMAND_TAIL_DISPLAY_LINES: usize = 6;

/// A line without its end.
pub open spec fn bare(line: Seq<char>) -> Seq<char> {
    if line.len() > 0 && line.last() == '\n' {
        let t = line.drop_last();
        if t.len() > 0 && t.last() == '\r' {
            t.drop_last()
        } else {
            t
        }
    } else {
        line
    }
}

/// The last lines of a stream.
pub open spec fn tail_lines(text: Seq<char>, prefix: Seq<char>, style: Style) -> Seq<
    Seq<SpanModel>,
> {
    let all = lines_of(text);
    let start: int = if all.len() > COMMAND_TAIL_DISPLAY_LINES {
        all.len() - COMMAND_TAIL_DISPLAY_LINES
    } else {
        0
    };
    all.skip(start).map_values(|l: Seq<char>| seq![span(prefix + bare(l), style)])
}

/// The lines of a command.
pub open spec fn command_lines(c: ActiveModel, p: CommandPreviewModel) -> Seq<Seq<SpanModel>> {
    let (kind, state, style) = command_state(c);
    seq![
        state_line(
            "[command "@ + kind + "] "@ + snippet(shell_line(p.argv), 60),
            state,
            style,
            "   "@,
            command_meta(c, p),
        ),
    ] + (match c.command_output_tail {
        Some(t) => tail_lines(t.stdout_tail, "  | "@, quiet_style()) + tail_lines(
            t.stderr_tail,
            "  ! "@,
            stderr_style(),
        ),
        None => Seq::empty(),
    })
}

/// The lines of a call.
pub open spec fn call_lines(c: ActiveModel) -> Seq<Seq<SpanModel>> {
    match c.patch_preview {
        Some(p) => seq![
            state_line(
                patch_label(p),
                patch_state(c).0,
                patch_state(c).1,
                " — "@,
                outcome_summary(c.outcome),
            ),
        ],
        None => match c.command_preview {
            Some(p) => command_lines(c, p),
            None => seq![
                state_line(
                    tool_label(c),
                    call_state(c).0,
                    call_state(c).1,
                    " — "@,
                    outcome_summary(c.outcome),
                ),
            ],
        },
    }
}

/// The lines of messages, one behind the other.
pub open spec fn conversation_lines(v: Seq<MessageModel>) -> Seq<Seq<SpanModel>>
    decreases v.len(),
{
    if v.len() == 0 {
        Seq::empty()
    } else {
        conversation_lines(v.drop_last()) + message_lines(v.last())
    }
}

/// The lines of calls, one behind the other.
pub open spec fn calls_lines(v: Seq<ActiveModel>) -> Seq<Seq<SpanModel>>
    decreases v.len(),
{
    if v.len() == 0 {
        Seq::empty()
    } else {
        calls_lines(v.drop_last()) + call_lines(v.last())
    }
}

/// The whole body: the conversation, the response under way, and the calls.
pub open spec fn body_lines(m: RenderModel) -> Seq<Seq<SpanModel>> {
    conversation_lines(m.conversation) + pending_lines(m.pending) + calls_lines(
        m.active_tool_calls,
    )
}

/// How many rows an error takes. There is room for one only from three rows
/// on.
pub open spec fn error_rows(m: RenderModel, rows: usize) -> int {
    if m.error_banner is Some && rows >= 3 {
        1
    } else {
        0
    }
}

/// How many rows are left for the body.
pub open spec fn body_rows(m: RenderModel, rows: usize) -> int {
    let reserved = 2 + error_rows(m, rows);
    if rows > reserved {
        rows - reserved
    } else {
        0
    }
}

/// The last lines of the body, as many as there are rows for.
pub open spec fn visible(lines: Seq<Seq<SpanModel>>, rows: int) -> Seq<Seq<SpanModel>> {
    if lines.len() > rows {
        lines.skip(lines.len() - rows)
    } else {
        lines
    }
}

/// What is drawn.
pub open spec fn grid_of(m: RenderModel, size: (usize, usize)) -> GridModel {
    let rows = size.0;
    let lines = body_lines(m);
    GridModel {
        size,
        header: RegionModel { top: 0, lines: seq![header_line(m)] },
        body: RegionModel { top: 1, lines: visible(lines, body_rows(m, rows)) },
        error: if error_rows(m, rows) == 1 {
            Some(
                RegionModel {
                    top: (rows - 2) as usize,
                    lines: seq![error_line(m.error_banner->0)],
                },
            )
        } else {
            None
        },
        prompt: RegionModel {
            top: if rows > 0 {
                (rows - 1) as usize
            } else {
                0
            },
            lines: seq![prompt_line(m)],
        },
        cursor: None,
        body_truncated: lines.len() > body_rows(m, rows),
    }
}

fn text_span(text: String, style: Style) -> (r: StyledSpan)
    ensures
        r@ == span(text@, style),
{
    StyledSpan { text, style }
}

fn one_span(a: StyledSpan) -> (r: StyledLine)
    ensures
        r@ == seq![a@],
{
    let mut spans: Vec<StyledSpan> = Vec::new();
    spans.push(a);
    assert(deep(spans@) =~= seq![a@]);
    StyledLine { spans }
}

fn two_spans(a: StyledSpan, b: StyledSpan) -> (r: StyledLine)
    ensures
        r@ == seq![a@, b@],
{
    let mut spans: Vec<StyledSpan> = Vec::new();
    spans.push(a);
    spans.push(b);
    assert(deep(spans@) =~= seq![a@, b@]);
    StyledLine { spans }
}

fn three_spans(a: StyledSpan, b: StyledSpan, c: StyledSpan) -> (r: StyledLine)
    ensures
        r@ == seq![a@, b@, c@],
{
    let mut spans: Vec<StyledSpan> = Vec::new();
    spans.push(a);
    spans.push(b);
    spans.push(c);
    assert(deep(spans@) =~= seq![a@, b@, c@]);
    StyledLine { spans }
}

fn faint() -> (r: Style)
    ensures
        r == faint_style(),
{
    Style::new().fg(Color::BrightBlack).dim()
}

fn quiet() -> (r: Style)
    ensures
        r == quiet_style(),
{
    Style::new().fg(Color::BrightBlack)
}

fn running() -> (r: Style)
    ensures
        r == running_style(),
{
    Style::new().fg(Color::Yellow)
}

fn alarm() -> (r: Style)
    ensures
        r == error_style(),
{
    Style::new().bold().fg(Color::Red)
}

fn build_header_line(m: &RenderState) -> (r: StyledLine)
    ensures
        r@ == header_line(m@),
{
    let status = match m.status {
        Status::Idle => "idle",
        Status::AwaitingModel => "waiting",
        Status::Streaming => "streaming",
        Status::ToolRunning => "tool",
        Status::AwaitingApproval => "approval",
    };
    let mut text = cat3("  model=", m.model.as_str(), "  status=");
    text.append(status);
    two_spans(
        text_span("attini".to_owned(), Style::new().bold()),
        text_span(text, Style::new()),
    )
}

fn build_prompt_line(m: &RenderState) -> (r: StyledLine)
    ensures
        r@ == prompt_line(m@),
{
    let hint = if m.awaiting_approval {
        "Y: approve   N/Esc: reject   Ctrl-C: cancel all"
    } else if m.active {
        "Esc / Ctrl-C: cancel"
    } else {
        "Enter: send   Ctrl-D: quit"
    };
    three_spans(
        text_span(">".to_owned(), Style::new().bold()),
        text_span(cat3(" ", m.draft.as_str(), "   "), Style::new()),
        text_span(cat3("[", hint, "]"), faint()),
    )
}

fn build_error_line(message: &str) -> (r: StyledLine)
    ensures
        r@ == error_line(message@),
{
    two_spans(
        text_span("error:".to_owned(), alarm()),
        text_span(cat(" ", message), Style::new()),
    )
}

fn push_labelled(lines: &mut Vec<StyledLine>, label: &str, style: Style, content: &str)
    ensures
        deep(final(lines)@) == deep(old(lines)@) + labelled(label@, style, content@),
{
    let parts = split(content, '\n');
    let ghost all = labelled(label@, style, content@);
    let ghost before = deep(lines@);
    assert(all.len() == parts@.len());
    let mut i: usize = 0;
    assert(before + all.take(0) =~= before);
    while i < parts.len()
        invariant
            i <= parts@.len(),
            views(parts@) == split_at(content@, '\n'),
            all == labelled(label@, style, content@),
            all.len() == parts@.len(),
            deep(lines@) == before + all.take(i as int),
        decreases parts@.len() - i,
    {
        let ghost now = deep(lines@);
        assert(views(parts@)[i as int] == parts@[i as int]@);
        let text = text_span(parts[i].clone(), Style::new());
        let line = if i == 0 {
            two_spans(text_span(cat(label, ": "), style), text)
        } else {
            one_span(text)
        };
        assert(line@ == all[i as int]);
        lines.push(line);
        assert(before + all.take(i + 1) =~= now.push(all[i as int]));
        i = i + 1;
    }
    assert(all.take(all.len() as int) =~= all);
}

fn push_reasoning(lines: &mut Vec<StyledLine>, reasoning: &str)
    ensures
        deep(final(lines)@) == deep(old(lines)@) + reasoning_lines(reasoning@),
{
    let parts = split(reasoning, '\n');
    let ghost all = reasoning_lines(reasoning@);
    let ghost before = deep(lines@);
    assert(all.len() == parts@.len());
    let mut i: usize = 0;
    assert(before + all.take(0) =~= before);
    while i < parts.len()
        invariant
            i <= parts@.len(),
            views(parts@) == split_at(reasoning@, '\n'),
            all == reasoning_lines(reasoning@),
            all.len() == parts@.len(),
            deep(lines@) == before + all.take(i as int),
        decreases parts@.len() - i,
    {
        let ghost now = deep(lines@);
        assert(views(parts@)[i as int] == parts@[i as int]@);
        let text = text_span(parts[i].clone(), quiet());
        let line = if i == 0 {
            two_spans(text_span("[thinking] ".to_owned(), quiet()), text)
        } else {
            one_span(text)
        };
        assert(line@ == all[i as int]);
        lines.push(line);
        assert(before + all.take(i + 1) =~= now.push(all[i as int]));
        i = i + 1;
    }
    assert(all.take(all.len() as int) =~= all);
}

fn push_message(lines: &mut Vec<StyledLine>, m: &ChatMessage)
    ensures
        deep(final(lines)@) == deep(old(lines)@) + message_lines(m@),
{
    match m {
        ChatMessage::User(content) => push_labelled(
            lines,
            "user",
            Style::new().bold().fg(Color::Cyan),
            content.as_str(),
        ),
        ChatMessage::Assistant { content, .. } => push_labelled(
            lines,
            "assistant",
            Style::new().fg(Color::Green),
            content.as_str(),
        ),
        ChatMessage::System(content) => push_labelled(lines, "system", faint(), content.as_str()),
        ChatMessage::Tool { tool_call_id, content } => push_labelled(
            lines,
            cat3("tool[", tool_call_id.as_str(), "]").as_str(),
            faint(),
            content.as_str(),
        ),
    }
}

/// Cuts a text to its start, on one line.
pub fn truncate_snippet(s: &str, max_chars: usize) -> (r: String)
    ensures
        r@ == snippet(s@, max_chars as nat),
{
    let v = chars_of(s);
    let n: usize = if v.len() < max_chars {
        v.len()
    } else {
        max_chars
    };
    let ghost line = v@.map_values(
        |c: char|
            if c == '\n' {
                ' '
            } else {
                c
            },
    );
    let mut out = String::new();
    let mut i: usize = 0;
    assert(line.take(0) =~= Seq::empty());
    while i < n
        invariant
            i <= n <= v@.len(),
            line == v@.map_values(
                |c: char|
                    if c == '\n' {
                        ' '
                    } else {
                        c
                    },
            ),
            out@ == line.take(i as int),
        decreases n - i,
    {
        let c = if v[i] == '\n' {
            ' '
        } else {
            v[i]
        };
        out.push(c);
        assert(line.take(i + 1) =~= line.take(i as int).push(c));
        i = i + 1;
    }
    if v.len() > max_chars {
        out.push('…');
    } else {
        assert(line.take(n as int) =~= line);
    }
    out
}

fn write_outcome(o: &Option<ToolOutcome>) -> (r: Option<String>)
    ensures
        maybe(r) == outcome_summary(maybe(*o)),
{
    match o {
        None => None,
        Some(ToolOutcome::Success(body)) => Some(truncate_snippet(body.as_str(), 60)),
        Some(ToolOutcome::Failure(e)) => Some(debug_tool_error(e)),
    }
}

fn tool_call_state(c: &ActiveToolCall) -> (r: (&'static str, Style))
    ensures
        (r.0@, r.1) == call_state(c@),
{
    if c.is_streaming {
        return ("pending", running());
    }
    match &c.outcome {
        None => ("running", running()),
        Some(ToolOutcome::Success(_)) => ("done", quiet()),
        Some(ToolOutcome::Failure(_)) => ("error", alarm()),
    }
}

fn patch_call_state(c: &ActiveToolCall) -> (r: (&'static str, Style))
    ensures
        (r.0@, r.1) == patch_state(c@),
{
    match c.approval {
        ApprovalState::Pending => ("awaiting", running()),
        ApprovalState::Approved => match &c.outcome {
            None => ("applying", running()),
            Some(ToolOutcome::Success(_)) => ("applied", quiet()),
            Some(ToolOutcome::Failure(_)) => ("error", alarm()),
        },
        ApprovalState::Rejected => ("rejected", alarm()),
        ApprovalState::NotRequired => tool_call_state(c),
    }
}

fn command_call_state(c: &ActiveToolCall) -> (r: (&'static str, &'static str, Style))
    ensures
        (r.0@, r.1@, r.2) == command_state(c@),
{
    match c.approval {
        ApprovalState::Pending => ("approval", "awaiting", running()),
        ApprovalState::Approved => match &c.outcome {
            None => ("running", "…", running()),
            Some(ToolOutcome::Success(_)) => ("done", "ok", quiet()),
            Some(ToolOutcome::Failure(_)) => ("error", "error", alarm()),
        },
        ApprovalState::Rejected => ("rejected", "rejected", alarm()),
        ApprovalState::NotRequired => ("done", "done", quiet()),
    }
}

fn write_state_line(label: String, state: &str, style: Style, gap: &str, more: Option<String>) -> (r:
    StyledLine)
    ensures
        r@ == state_line(label@, state@, style, gap@, maybe(more)),
{
    let a = text_span(label, Style::new().bold().fg(Color::Yellow));
    let b = text_span(cat(" ", state), style);
    let ghost head = seq![a@, b@];
    match more {
        Some(text) => {
            let r = three_spans(a, b, text_span(cat(gap, text.as_str()), quiet()));
            assert(r@ =~= head + seq![span(gap@ + text@, quiet_style())]);
            r
        },
        None => {
            let r = two_spans(a, b);
            assert(r@ =~= head + Seq::<SpanModel>::empty());
            r
        },
    }
}

fn write_command_meta(c: &ActiveToolCall, p: &CommandPreview) -> (r: Option<String>)
    ensures
        maybe(r) == command_meta(c@, p@),
{
    match c.approval {
        ApprovalState::Pending => if p.working_directory.as_str().is_empty() {
            None
        } else {
            Some(cat("cwd=", p.working_directory.as_str()))
        },
        ApprovalState::Approved => match &c.command_output_tail {
            Some(t) => {
                let mut out = cat3(
                    "stdout=",
                    decimal_of(t.stdout_bytes_total).as_str(),
                    "B, stderr=",
                );
                out.append(decimal_of(t.stderr_bytes_total).as_str());
                out.append("B");
                Some(out)
            },
            None => None,
        },
        _ => None,
    }
}

fn bare_line(line: &str) -> (r: String)
    ensures
        r@ == bare(line@),
{
    let v = chars_of(line);
    let mut n: usize = v.len();
    if n > 0 && v[n - 1] == '\n' {
        n = n - 1;
        if n > 0 && v[n - 1] == '\r' {
            n = n - 1;
            assert(v@.subrange(0, n as int) =~= v@.drop_last().drop_last());
        } else {
            assert(v@.subrange(0, n as int) =~= v@.drop_last());
        }
        string_of(&v, 0, n)
    } else {
        line.to_owned()
    }
}

fn push_tail_lines(lines: &mut Vec<StyledLine>, text: &str, prefix: &str, style: Style)
    ensures
        deep(final(lines)@) == deep(old(lines)@) + tail_lines(text@, prefix@, style),
{
    let parts = split_lines(text);
    let n: usize = parts.len();
    let start: usize = if n > COMMAND_TAIL_DISPLAY_LINES {
        n - COMMAND_TAIL_DISPLAY_LINES
    } else {
        0
    };
    let ghost all = tail_lines(text@, prefix@, style);
    let ghost before = deep(lines@);
    assert(views(parts@).len() == n);
    let mut i: usize = start;
    assert(before + all.take(0) =~= before);
    while i < n
        invariant
            start <= i <= n,
            n == parts@.len(),
            views(parts@) == lines_of(text@),
            start == if n > COMMAND_TAIL_DISPLAY_LINES {
                n - COMMAND_TAIL_DISPLAY_LINES
            } else {
                0
            },
            all == tail_lines(text@, prefix@, style),
            deep(lines@) == before + all.take(i - start),
        decreases n - i,
    {
        let ghost now = deep(lines@);
        assert(views(parts@)[i as int] == parts@[i as int]@);
        let line = one_span(
            text_span(cat(prefix, bare_line(parts[i].as_str()).as_str()), style),
        );
        assert(line@ =~= all[i - start]);
        lines.push(line);
        assert(before + all.take(i + 1 - start) =~= now.push(all[i - start]));
        i = i + 1;
    }
    assert(all.take(n - start) =~= all);
}

fn push_command(lines: &mut Vec<StyledLine>, c: &ActiveToolCall, p: &CommandPreview)
    ensures
        deep(final(lines)@) == deep(old(lines)@) + command_lines(c@, p@),
{
    let ghost before = deep(lines@);
    let (kind, state, style) = command_call_state(c);
    let mut label = cat3("[command ", kind, "] ");
    label.append(truncate_snippet(shell_escape_argv(&p.argv).as_str(), 60).as_str());
    let line = write_state_line(label, state, style, "   ", write_command_meta(c, p));
    lines.push(line);
    let ghost first = line@;
    if let Some(t) = &c.command_output_tail {
        push_tail_lines(lines, t.stdout_tail.as_str(), "  | ", quiet());
        push_tail_lines(lines, t.stderr_tail.as_str(), "  ! ", Style::new().fg(Color::Red));
    }
    assert(deep(lines@) =~= before + command_lines(c@, p@));
}

fn push_call(lines: &mut Vec<StyledLine>, c: &ActiveToolCall)
    ensures
        deep(final(lines)@) == deep(old(lines)@) + call_lines(c@),
{
    let ghost before = deep(lines@);
    if let Some(p) = &c.patch_preview {
        assert(p@.target_paths.len() == p.target_paths@.len());
        let mut label = "[patch approval] ".to_owned();
        if p.target_paths.len() == 0 {
            label.append("?");
        } else {
            label.append(truncate_snippet(join(&p.target_paths, ", ").as_str(), 40).as_str());
        }
        label.append(" (+");
        label.append(decimal_of(p.added_lines).as_str());
        label.append("/-");
        label.append(decimal_of(p.removed_lines).as_str());
        label.append(")");
        let (state, style) = patch_call_state(c);
        lines.push(write_state_line(label, state, style, " — ", write_outcome(&c.outcome)));
        assert(deep(lines@) =~= before + call_lines(c@));
        return ;
    }
    if let Some(p) = &c.command_preview {
        push_command(lines, c, p);
        return ;
    }
    let mut label = "[tool: ".to_owned();
    if c.function_name.as_str().is_empty() {
        label.append("?");
    } else {
        label.append(c.function_name.as_str());
    }
    label.append(" ");
    label.append(truncate_snippet(trim(c.arguments_json.as_str()).as_str(), 40).as_str());
    label.append("]");
    let (state, style) = tool_call_state(c);
    lines.push(write_state_line(label, state, style, " — ", write_outcome(&c.outcome)));
    assert(deep(lines@) =~= before + call_lines(c@));
}

fn push_conversation(lines: &mut Vec<StyledLine>, v: &Vec<ChatMessage>)
    ensures
        deep(final(lines)@) == deep(old(lines)@) + conversation_lines(deep(v@)),
{
    let ghost before = deep(lines@);
    let ghost all = deep(v@);
    let mut i: usize = 0;
    assert(all.take(0) =~= Seq::empty());
    assert(before + conversation_lines(all.take(0)) =~= before);
    while i < v.len()
        invariant
            i <= v@.len(),
            all == deep(v@),
            deep(lines@) == before + conversation_lines(all.take(i as int)),
        decreases v@.len() - i,
    {
        let ghost so_far = conversation_lines(all.take(i as int));
        proof {
            assert(all.take(i + 1).drop_last() =~= all.take(i as int));
            assert(all.take(i + 1).last() == v@[i as int]@);
        }
        push_message(lines, &v[i]);
        assert(before + so_far + message_lines(v@[i as int]@) =~= before + (so_far + message_lines(
            v@[i as int]@,
        )));
        i = i + 1;
    }
    assert(all.take(all.len() as int) =~= all);
}

fn push_calls(lines: &mut Vec<StyledLine>, v: &Vec<ActiveToolCall>)
    ensures
        deep(final(lines)@) == deep(old(lines)@) + calls_lines(deep(v@)),
{
    let ghost before = deep(lines@);
    let ghost all = deep(v@);
    let mut i: usize = 0;
    assert(all.take(0) =~= Seq::empty());
    assert(before + calls_lines(all.take(0)) =~= before);
    while i < v.len()
        invariant
            i <= v@.len(),
            all == deep(v@),
            deep(lines@) == before + calls_lines(all.take(i as int)),
        decreases v@.len() - i,
    {
        let ghost so_far = calls_lines(all.take(i as int));
        proof {
            assert(all.take(i + 1).drop_last() =~= all.take(i as int));
            assert(all.take(i + 1).last() == v@[i as int]@);
        }
        push_call(lines, &v[i]);
        assert(before + so_far + call_lines(v@[i as int]@) =~= before + (so_far + call_lines(
            v@[i as int]@,
        )));
        i = i + 1;
    }
    assert(all.take(all.len() as int) =~= all);
}

fn build_body_lines(m: &RenderState) -> (r: Vec<StyledLine>)
    ensures
        deep(r@) == body_lines(m@),
{
    let mut lines: Vec<StyledLine> = Vec::new();
    push_conversation(&mut lines, &m.conversation);
    let ghost head = deep(lines@);
    assert(head =~= conversation_lines(m@.conversation));
    if let Some(p) = &m.pending {
        if !p.reasoning.as_str().is_empty() {
            push_reasoning(&mut lines, p.reasoning.as_str());
        }
        if !p.content.as_str().is_empty() {
            push_labelled(
                &mut lines,
                "assistant",
                Style::new().fg(Color::Green),
                p.content.as_str(),
            );
        }
    }
    assert(deep(lines@) =~= head + pending_lines(m@.pending));
    push_calls(&mut lines, &m.active_tool_calls);
    lines
}

fn last_lines(lines: Vec<StyledLine>, rows: usize) -> (r: Vec<StyledLine>)
    ensures
        deep(r@) == visible(deep(lines@), rows as int),
{
    let n: usize = lines.len();
    if n <= rows {
        return lines;
    }
    let mut rest = lines;
    let kept = rest.split_off(n - rows);
    assert(deep(kept@) =~= deep(lines@).skip(n - rows));
    kept
}

fn one_line(line: StyledLine) -> (r: Vec<StyledLine>)
    ensures
        deep(r@) == seq![line@],
{
    let mut v: Vec<StyledLine> = Vec::new();
    v.push(line);
    assert(deep(v@) =~= seq![line@]);
    v
}

/// Lays out what is drawn: the header in the first row, the prompt in the
/// last, an error above it, and the end of the body between.
pub fn render(state: &RenderState, size: (usize, usize)) -> (r: RenderedGrid)
    ensures
        r@ == grid_of(state@, size),
{
    let rows: usize = size.0;
    let mut reserved: usize = 2;
    let error = match &state.error_banner {
        Some(message) => if rows >= 3 {
            reserved = 3;
            Some(Region { top: rows - 2, lines: one_line(build_error_line(message.as_str())) })
        } else {
            None
        },
        None => None,
    };
    let body_rows: usize = if rows > reserved {
        rows - reserved
    } else {
        0
    };
    let lines = build_body_lines(state);
    assert(deep(lines@).len() == lines@.len());
    let body_truncated = lines.len() > body_rows;
    RenderedGrid {
        size,
        header: Region { top: 0, lines: one_line(build_header_line(state)) },
        body: Region { top: 1, lines: last_lines(lines, body_rows) },
        error,
        prompt: Region {
            top: if rows > 0 {
                rows - 1
            } else {
                0
            },
            lines: one_line(build_prompt_line(state)),
        },
        cursor: None,
        body_truncated,
    }
}

/// From three rows on nothing is drawn over anything else: the body starts
/// behind the header and ends before the error and the prompt, and it shows
/// the newest lines.
pub proof fn law_regions_do_not_overlap(m: RenderModel, size: (usize, usize))
    requires
        size.0 >= 3,
    ensures
        ({
            let g = grid_of(m, size);
            &&& g.header.top < g.body.top
            &&& g.body.top + g.body.lines.len() <= (if g.error is Some {
                g.error->0.top
            } else {
                g.prompt.top
            })
            &&& g.error is Some ==> g.error->0.top < g.prompt.top
            &&& g.prompt.top < size.0
            &&& g.body.lines.len() > 0 ==> g.body.lines.last() == body_lines(m).last()
            &&& !g.body_truncated ==> g.body.lines == body_lines(m)
        }),
{
}

} // verus!
