//! What holds of keys and of what is drawn.
use vstd::prelude::*;
use vstd::string::*;

use super::{
    body_lines, build_render_state, call_lines, calls_lines, conversation_lines, handle_key,
    key_hint, message_lines, pending_lines, render, snippet, tail_lines, truncate_snippet,
    AgentView, KeyCode, KeyInput, KeyOutcome, RenderModel, RenderState, RenderedGrid, Style,
    UiState,
};
use crate::agent_cli::telling::holds_text;
use crate::model::{deep, maybe};
use crate::sansio::agent::engine::{active_of, approval_wanted, AgentCore};
use crate::sansio::agent::types::{ActiveModel, EventModel};
use crate::sansio::deepseek::MessageModel;
use crate::shell::shell_line;
use crate::text::{decimal, lines_of, split_at};

verus! {

/// While nothing is under way, a character is put behind the draft, the
/// backspace key takes the last one away, and the enter key submits the draft
/// as it is and empties it, unless it is empty.
pub proof fn law_keys_write_the_draft(
    key: KeyInput,
    ui: &mut UiState,
    view: AgentView,
    r: KeyOutcome,
)
    requires
        call_ensures(handle_key, (key, ui, view), r),
        view.pending_approval_call_id is None,
        !view.has_active_request,
        !key.ctrl,
    ensures
        final(ui).model == old(ui).model,
        r.effect is Nothing,
        key.code matches KeyCode::Char(c) ==> r.events@.len() == 0 && (!key.alt
            ==> final(ui).draft@ == old(ui).draft@.push(c)) && (key.alt ==> final(ui).draft@
            == old(ui).draft@),
        key.code is Backspace ==> r.events@.len() == 0 && (old(ui).draft@.len() > 0
            ==> final(ui).draft@ == old(ui).draft@.drop_last()),
        key.code is Enter && old(ui).draft@.len() > 0 ==> final(ui).draft@.len() == 0
            && r.events@.len() == 1 && r.events@[0]@ == EventModel::UserMessage(old(ui).draft@),
        key.code is Enter && old(ui).draft@.len() == 0 ==> r.events@.len() == 0,
        key.code is Escape ==> r.events@.len() == 0 && final(ui).draft@ == old(ui).draft@,
{
    assert(maybe(view.pending_approval_call_id) is None);
    assert(deep(r.events@).len() == r.events@.len());
    if r.events@.len() > 0 {
        assert(deep(r.events@)[0] == r.events@[0]@);
    }
}

/// While a request is under way, the escape key and ctrl-c cancel it; without
/// one ctrl-c quits. Ctrl-d always quits. No other key does either.
pub proof fn law_keys_cancel_and_quit(
    key: KeyInput,
    ui: &mut UiState,
    view: AgentView,
    r: KeyOutcome,
)
    requires
        call_ensures(handle_key, (key, ui, view), r),
        view.pending_approval_call_id is None,
    ensures
        view.has_active_request ==> final(ui).draft@ == old(ui).draft@,
        view.has_active_request && ((key.ctrl && key.code == KeyCode::Char('c')) || (!key.ctrl
            && key.code is Escape)) ==> r.events@.len() == 1 && r.events@[0]@ is Cancel
            && r.effect is Nothing,
        r.effect is Quit <==> key.ctrl && (key.code == KeyCode::Char('d') || (key.code
            == KeyCode::Char('c') && !view.has_active_request)),
        view.has_active_request && !((key.ctrl && key.code == KeyCode::Char('c')) || (!key.ctrl
            && key.code is Escape)) ==> r.events@.len() == 0,
{
    assert(maybe(view.pending_approval_call_id) is None);
    assert(deep(r.events@).len() == r.events@.len());
    if r.events@.len() > 0 {
        assert(deep(r.events@)[0] == r.events@[0]@);
    }
}

/// While a call waits for approval, `y` approves it, `n` and the escape key
/// reject it, ctrl-c cancels everything and ctrl-d quits. Any other key does
/// nothing, and the draft stays as it is.
pub proof fn law_keys_answer_the_question(
    key: KeyInput,
    ui: &mut UiState,
    view: AgentView,
    r: KeyOutcome,
)
    requires
        call_ensures(handle_key, (key, ui, view), r),
        view.pending_approval_call_id is Some,
    ensures
        final(ui).draft@ == old(ui).draft@,
        !key.ctrl && (key.code == KeyCode::Char('y') || key.code == KeyCode::Char('Y'))
            ==> r.events@.len() == 1 && r.events@[0]@ == (EventModel::ApproveToolCall {
            call_id: view.pending_approval_call_id->0@,
        }),
        !key.ctrl && (key.code == KeyCode::Char('n') || key.code == KeyCode::Char('N')
            || key.code is Escape) ==> r.events@.len() == 1 && r.events@[0]@ == (
        EventModel::RejectToolCall { call_id: view.pending_approval_call_id->0@ }),
        key.ctrl && key.code == KeyCode::Char('c') ==> r.events@.len() == 1
            && r.events@[0]@ is Cancel,
        r.effect is Quit <==> key.ctrl && key.code == KeyCode::Char('d'),
        !(key.ctrl && key.code == KeyCode::Char('c')) && !(!key.ctrl && (key.code == KeyCode::Char(
            'y',
        ) || key.code == KeyCode::Char('Y') || key.code == KeyCode::Char('n') || key.code
            == KeyCode::Char('N') || key.code is Escape)) ==> r.events@.len() == 0,
{
    assert(maybe(view.pending_approval_call_id) == Some(view.pending_approval_call_id->0@));
    assert(deep(r.events@).len() == r.events@.len());
    if r.events@.len() > 0 {
        assert(deep(r.events@)[0] == r.events@[0]@);
    }
}

/// What is drawn is the core as it stands: its conversation, its status, the
/// response under way and the calls under way, with the draft of the user and
/// the error, if there is one.
pub proof fn law_the_core_is_drawn(
    ui: &UiState,
    agent: &AgentCore,
    banner: Option<&str>,
    r: RenderState,
)
    requires
        call_ensures(build_render_state, (ui, agent, banner), r),
    ensures
        r.model@ == ui.model@,
        r.draft@ == ui.draft@,
        r.status == agent@.status,
        r@.conversation == agent@.conversation,
        r.active == (agent@.pending is Some),
        r.awaiting_approval == (approval_wanted(agent@) is Some),
        agent@.pending is Some ==> r@.pending == Some(agent@.pending->0.response),
        agent@.pending is None ==> r@.pending is None,
        r@.active_tool_calls == active_of(agent@),
        banner is Some ==> r@.error_banner == Some(banner->0@),
        banner is None ==> r@.error_banner is None,
{
}

/// Where there is room, the body shows every line; where there is not, it
/// shows the newest, as many as there is room for, and says so. Two rows are
/// for the header and the prompt, and one more for an error.
pub proof fn law_newest_lines_are_drawn(state: &RenderState, size: (usize, usize), r: RenderedGrid)
    requires
        call_ensures(render, (state, size), r),
        size.0 >= 3,
    ensures
        ({
            let all = body_lines(state@);
            let room: int = if state.error_banner is Some {
                size.0 - 3
            } else {
                size.0 - 2
            };
            &&& all.len() <= room ==> r@.body.lines == all && !r@.body_truncated
            &&& all.len() > room ==> r@.body.lines == all.skip(all.len() - room)
                && r@.body_truncated
            &&& r@.error is Some <==> state.error_banner is Some
            &&& r@.header.lines.len() == 1 && r@.header.top == 0
            &&& r@.prompt.lines.len() == 1 && r@.prompt.top == size.0 - 1
        }),
{
    assert(state@.error_banner is Some <==> state.error_banner is Some);
}

/// The body is the conversation, message by message, then the response under
/// way, then the calls under way.
pub proof fn law_the_body_is_drawn_in_order(
    m: RenderModel,
    v: Seq<MessageModel>,
    x: MessageModel,
    calls: Seq<ActiveModel>,
    c: ActiveModel,
)
    ensures
        body_lines(m) == conversation_lines(m.conversation) + pending_lines(m.pending)
            + calls_lines(m.active_tool_calls),
        conversation_lines(Seq::empty()).len() == 0,
        conversation_lines(v.push(x)) == conversation_lines(v) + message_lines(x),
        calls_lines(Seq::empty()).len() == 0,
        calls_lines(calls.push(c)) == calls_lines(calls) + call_lines(c),
        m.pending is None ==> pending_lines(m.pending).len() == 0,
{
    assert(v.push(x).drop_last() =~= v);
    assert(calls.push(c).drop_last() =~= calls);
}

/// A message is drawn line by line, each whole and in order, with a label
/// before the first that says whose it is.
pub proof fn law_messages_are_drawn_whole(m: MessageModel, i: int)
    ensures
        ({
            let text = match m {
                MessageModel::User(s) => s,
                MessageModel::System(s) => s,
                MessageModel::Assistant { content, .. } => content,
                MessageModel::Tool { content, .. } => content,
            };
            let label = match m {
                MessageModel::User(_) => "user"@ + ": "@,
                MessageModel::System(_) => "system"@ + ": "@,
                MessageModel::Assistant { .. } => "assistant"@ + ": "@,
                MessageModel::Tool { tool_call_id, .. } => "tool["@ + tool_call_id + "]"@ + ": "@,
            };
            let parts = split_at(text, '\n');
            &&& message_lines(m).len() == parts.len()
            &&& 0 <= i < parts.len() ==> message_lines(m)[i].last().text == parts[i]
            &&& parts.len() > 0 ==> message_lines(m)[0].len() == 2 && message_lines(m)[0][0].text
                == label
            &&& 0 < i < parts.len() ==> message_lines(m)[i].len() == 1
        }),
{
}

/// The header names the model, and the prompt line holds the draft. The keys
/// that are named are those that do something now.
pub proof fn law_the_draft_is_drawn(state: &RenderState, size: (usize, usize), r: RenderedGrid)
    requires
        call_ensures(render, (state, size), r),
    ensures
        r@.header.lines.len() == 1 && r@.header.lines[0].len() == 2 && holds_text(
            r@.header.lines[0][1].text,
            state.model@,
        ),
        r@.prompt.lines.len() == 1 && r@.prompt.lines[0].len() == 3 && holds_text(
            r@.prompt.lines[0][1].text,
            state.draft@,
        ),
        holds_text(
            r@.prompt.lines[0][2].text,
            if state.awaiting_approval {
                "Y: approve   N/Esc: reject   Ctrl-C: cancel all"@
            } else if state.active {
                "Esc / Ctrl-C: cancel"@
            } else {
                "Enter: send   Ctrl-D: quit"@
            },
        ),
        r@.error is Some ==> r@.error->0.lines.len() == 1 && r@.error->0.lines[0].len() == 2
            && holds_text(r@.error->0.lines[0][1].text, state.error_banner->0@),
{
    let none = Seq::<char>::empty();
    let h = r@.header.lines[0][1].text;
    assert(h =~= ("  model="@ + state.model@) + ("  status="@ + super::status_label(state.status)));
    assert(r@.prompt.lines[0][1].text == (" "@ + state.draft@) + "   "@);
    assert(r@.prompt.lines[0][2].text == ("["@ + key_hint(state@)) + "]"@);
    if r@.error is Some {
        assert(state@.error_banner == Some(state.error_banner->0@));
        assert(r@.error->0.lines[0][1].text =~= (" "@ + state.error_banner->0@) + none);
    }
}

/// A text in short is its start on one line; it ends in an ellipsis exactly
/// if there is more of it.
pub proof fn law_texts_in_short(s: &str, max: usize, r: String)
    requires
        call_ensures(truncate_snippet, (s, max), r),
    ensures
        !r@.contains('\n'),
        s@.len() <= max ==> r@.len() == s@.len(),
        s@.len() > max ==> r@.len() == max + 1 && r@.last() == '…',
        forall|i: int|
            0 <= i < s@.len() && i < max ==> r@[i] == (if #[trigger] s@[i] == '\n' {
                ' '
            } else {
                s@[i]
            }),
{
}

/// What came of a call is drawn beside it: the state of the call and, in
/// short, its result.
pub proof fn law_calls_are_drawn(c: ActiveModel)
    requires
        c.patch_preview is None,
        c.command_preview is None,
    ensures
        call_lines(c).len() == 1,
        call_lines(c)[0].len() >= 2,
        c.function_name.len() > 0 ==> holds_text(call_lines(c)[0][0].text, c.function_name),
        c.is_streaming ==> call_lines(c)[0][1].text == " "@ + "pending"@,
        !c.is_streaming && c.outcome is None ==> call_lines(c)[0][1].text == " "@ + "running"@,
        !c.is_streaming && c.outcome is Some && c.outcome->0 is Success
            ==> call_lines(c)[0][1].text == " "@ + "done"@,
        !c.is_streaming && c.outcome is Some && c.outcome->0 is Failure
            ==> call_lines(c)[0][1].text == " "@ + "error"@,
        c.outcome is Some ==> call_lines(c)[0].len() == 3,
        c.outcome is None ==> call_lines(c)[0].len() == 2,
{
    if c.function_name.len() > 0 {
        let rest = " "@ + super::args_summary(c.arguments_json) + "]"@;
        assert(call_lines(c)[0][0].text =~= ("[tool: "@ + c.function_name) + rest);
    }
}

/// Of a stream of a command the last lines are drawn, six at most, in order
/// and without their ends.
pub proof fn law_last_lines_of_output_are_drawn(text: Seq<char>, prefix: Seq<char>, style: Style, i: int)
    ensures
        ({
            let all = lines_of(text);
            let drawn = tail_lines(text, prefix, style);
            &&& all.len() <= 6 ==> drawn.len() == all.len()
            &&& all.len() > 6 ==> drawn.len() == 6
            &&& 0 <= i < drawn.len() ==> drawn[i].len() == 1 && drawn[i][0].style == style && (!all[
            all.len() - drawn.len() + i].contains('\n') ==> drawn[i][0].text == prefix + all[
            all.len() - drawn.len() + i])
            &&& forall|l: Seq<char>|
                0 <= i < drawn.len() && !l.contains('\r') && all[all.len() - drawn.len() + i]
                    == #[trigger] l.push('\n') ==> drawn[i][0].text == prefix + l
        }),
{
    let all = lines_of(text);
    let drawn = tail_lines(text, prefix, style);
    if 0 <= i < drawn.len() {
        let line = all[all.len() - drawn.len() + i];
        assert(drawn[i] == seq![super::span(prefix + super::bare(line), style)]);
        if !line.contains('\n') {
            if line.len() > 0 {
                assert(line[line.len() - 1] == line.last());
            }
            assert(super::bare(line) == line);
        }
        assert forall|l: Seq<char>|
            !l.contains('\r') && line == #[trigger] l.push('\n') implies drawn[i][0].text == prefix
            + l by {
            assert(l.push('\n').drop_last() =~= l);
            if l.len() > 0 {
                assert(l[l.len() - 1] == l.last());
            }
            assert(super::bare(line) == l);
        }
    }
}

/// A command is drawn with its line in short and with its state: that it
/// waits, runs, is done, failed or was rejected.
pub proof fn law_commands_are_drawn(c: ActiveModel)
    requires
        c.patch_preview is None,
        c.command_preview is Some,
    ensures
        call_lines(c).len() >= 1,
        call_lines(c)[0].len() >= 2,
        holds_text(call_lines(c)[0][0].text, snippet(shell_line(c.command_preview->0.argv), 60)),
        c.approval is Pending ==> call_lines(c)[0][1].text == " "@ + "awaiting"@,
        c.approval is Rejected ==> call_lines(c)[0][1].text == " "@ + "rejected"@,
        c.approval is Approved && c.outcome is None ==> call_lines(c)[0][1].text == " "@ + "…"@,
        c.approval is Approved && c.outcome is Some && c.outcome->0 is Success
            ==> call_lines(c)[0][1].text == " "@ + "ok"@,
        c.approval is Approved && c.outcome is Some && c.outcome->0 is Failure
            ==> call_lines(c)[0][1].text == " "@ + "error"@,
        c.command_output_tail is None ==> call_lines(c).len() == 1,
{
    let p = c.command_preview->0;
    let none = Seq::<char>::empty();
    let (kind, state, style) = super::command_state(c);
    let head = "[command "@ + kind + "] "@;
    let shown = snippet(shell_line(p.argv), 60);
    assert(call_lines(c) == super::command_lines(c, p));
    assert(call_lines(c)[0][0].text =~= (head + shown) + none);
}

/// A patch is drawn with how many lines it adds and removes, and with its
/// state.
pub proof fn law_patches_are_drawn(c: ActiveModel)
    requires
        c.patch_preview is Some,
    ensures
        call_lines(c).len() == 1,
        holds_text(
            call_lines(c)[0][0].text,
            " (+"@ + decimal(c.patch_preview->0.added_lines as nat) + "/-"@ + decimal(
                c.patch_preview->0.removed_lines as nat,
            ) + ")"@,
        ),
        c.approval is Pending ==> call_lines(c)[0][1].text == " "@ + "awaiting"@,
        c.approval is Rejected ==> call_lines(c)[0][1].text == " "@ + "rejected"@,
        c.approval is Approved && c.outcome is None ==> call_lines(c)[0][1].text == " "@
            + "applying"@,
        c.approval is Approved && c.outcome is Some && c.outcome->0 is Success
            ==> call_lines(c)[0][1].text == " "@ + "applied"@,
        c.approval is Approved && c.outcome is Some && c.outcome->0 is Failure
            ==> call_lines(c)[0][1].text == " "@ + "error"@,
{
    let p = c.patch_preview->0;
    let none = Seq::<char>::empty();
    let paths = if p.target_paths.len() == 0 {
        "?"@
    } else {
        snippet(crate::text::joined(p.target_paths, ", "@), 40)
    };
    let count = " (+"@ + decimal(p.added_lines as nat) + "/-"@ + decimal(p.removed_lines as nat)
        + ")"@;
    assert(call_lines(c)[0][0].text =~= (("[patch approval] "@ + paths) + count) + none);
}

} // verus!
