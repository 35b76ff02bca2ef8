//! Keys and screens.
use attini::sansio::agent::{AgentCore, Event, RequestId};
use attini::sansio::tui::{
    agent_view, build_render_state, handle_key, render, truncate_snippet, AgentView, Color,
    KeyCode, KeyEffect, KeyInput, RenderState, Style, StyledLine, UiState,
};

fn ui(draft: &str) -> UiState {
    UiState { model: "m".to_string(), draft: draft.to_string() }
}

fn key(code: KeyCode) -> KeyInput {
    KeyInput { ctrl: false, alt: false, code }
}

fn ctrl(c: char) -> KeyInput {
    KeyInput { ctrl: true, alt: false, code: KeyCode::Char(c) }
}

fn view(busy: bool, waiting: Option<&str>) -> AgentView {
    AgentView {
        has_active_request: busy,
        pending_approval_call_id: waiting.map(|s| s.to_string()),
    }
}

#[test]
fn keys_edit_the_draft() {
    let mut u = ui("");
    for c in ['h', 'é'] {
        let out = handle_key(key(KeyCode::Char(c)), &mut u, view(false, None));
        assert!(out.events.is_empty());
    }
    assert_eq!(u.draft, "hé");
    handle_key(key(KeyCode::Backspace), &mut u, view(false, None));
    assert_eq!(u.draft, "h");
    let out = handle_key(key(KeyCode::Enter), &mut u, view(false, None));
    assert_eq!(out.events, vec![Event::UserMessage("h".to_string())]);
    assert_eq!(u.draft, "");
    assert_eq!(u.model, "m");
}

#[test]
fn drafts_are_safe_while_busy() {
    let mut u = ui("text");
    let out = handle_key(key(KeyCode::Enter), &mut u, view(true, None));
    assert!(out.events.is_empty());
    assert_eq!(u.draft, "text");
}

#[test]
fn only_y_approves() {
    let mut u = ui("d");
    let out = handle_key(key(KeyCode::Char('y')), &mut u, view(true, Some("c1")));
    assert_eq!(out.events, vec![Event::ApproveToolCall { call_id: "c1".to_string() }]);
    for code in [KeyCode::Char('n'), KeyCode::Escape] {
        let out = handle_key(key(code), &mut u, view(true, Some("c1")));
        assert_eq!(out.events, vec![Event::RejectToolCall { call_id: "c1".to_string() }]);
    }
    for code in [KeyCode::Enter, KeyCode::Char('x'), KeyCode::Other, KeyCode::Backspace] {
        let out = handle_key(key(code), &mut u, view(true, Some("c1")));
        assert!(out.events.is_empty());
    }
    assert_eq!(u.draft, "d");
}

#[test]
fn control_keys_cancel_and_quit() {
    let mut u = ui("");
    let out = handle_key(ctrl('c'), &mut u, view(true, None));
    assert_eq!((out.events, out.effect), (vec![Event::Cancel], KeyEffect::Nothing));
    let out = handle_key(ctrl('c'), &mut u, view(false, None));
    assert_eq!(out.effect, KeyEffect::Quit);
    let out = handle_key(ctrl('d'), &mut u, view(true, Some("c1")));
    assert_eq!(out.effect, KeyEffect::Quit);
}

#[test]
fn snippets_are_one_line() {
    assert_eq!(truncate_snippet("a\nb", 3), "a b");
    assert_eq!(truncate_snippet("abcd", 3), "abc…");
    assert_eq!(truncate_snippet("é\néé", 2), "é …");
}

#[test]
fn styles_build_up() {
    let style = Style::new().bold().dim().fg(Color::Cyan);
    assert!(style.bold && style.dim && !style.italic && !style.underline);
    assert_eq!(style.fg, Some(Color::Cyan));
    assert_eq!(style.bg, None);
}

#[test]
fn screens_have_their_regions() {
    let mut agent = AgentCore::new();
    assert!(!agent_view(&agent).has_active_request);
    agent.handle_event(Event::UserMessage("hello".to_string()));
    assert!(agent_view(&agent).has_active_request);
    agent.handle_event(Event::ContentDelta { request: RequestId::new(1), text: "x\ny".to_string() });
    let state = build_render_state(&ui("draft"), &agent, Some("oops"));
    let grid = render(&state, (10, 40));
    assert_eq!(grid.size, (10, 40));
    let text = |lines: &[attini::sansio::tui::StyledLine]| -> String {
        lines
            .iter()
            .map(|l| l.spans.iter().map(|s| s.text.as_str()).collect::<String>() + "\n")
            .collect()
    };
    assert_eq!(grid.header.top, 0);
    assert!(text(&grid.header.lines).contains("m"));
    assert!(text(&grid.body.lines).contains("hello"));
    let error = grid.error.expect("the banner is shown");
    assert!(text(&error.lines).contains("oops"));
    assert!(text(&grid.prompt.lines).contains("draft"));
    assert!(grid.body.top >= grid.header.top + grid.header.lines.len());
    assert!(grid.body.top + grid.body.lines.len() <= error.top);
    assert!(error.top + error.lines.len() <= grid.prompt.top);

    let small = render(&state, (0, 0));
    assert_eq!(small.size, (0, 0));
}

#[test]
fn screens_start_empty_and_can_be_copied() {
    let state = RenderState::default();
    assert_eq!(state.clone(), state);
    assert!(state.conversation.is_empty() && state.pending.is_none());
    assert_eq!(UiState::default(), UiState { model: String::new(), draft: String::new() });
    assert_eq!(KeyEffect::default(), KeyEffect::Nothing);
    assert!(StyledLine::default().spans.is_empty());
    let grid = render(&state, (4, 20));
    assert_eq!(grid.clone(), grid);
}
