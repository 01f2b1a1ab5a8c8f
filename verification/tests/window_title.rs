use herdr_title::fleet::active_tab_agent_terminal_id;
use herdr_title::spinner::strip_leading_spinner;
use herdr_title::state::{
    AgentState, AppState, Layout, PaneId, PaneState, Tab, TerminalId, TerminalState, Workspace,
};
use herdr_title::template::substitute_window_title_tokens;
use herdr_title::window_title::{agent_fallback_title, format_window_title};
use std::collections::HashMap;

fn empty_state() -> AppState {
    AppState {
        workspaces: Vec::new(),
        active: None,
        terminals: HashMap::new(),
        window_title_format: String::new(),
    }
}

fn plain_terminal(id: TerminalId) -> TerminalState {
    TerminalState {
        id,
        agent_name: None,
        manual_label: None,
        effective_agent_label: None,
        effective_title: None,
        state: AgentState::Unknown,
    }
}

/// A workspace with one tab of the given number of panes, the last of them focused. Pane `n` shows
/// terminal `100 + n`.
fn workspace(name: &str, panes: u64) -> Workspace {
    let mut map = HashMap::new();
    for id in 1..=panes {
        map.insert(id, PaneState { attached_terminal_id: 100 + id, seen: true });
    }
    Workspace {
        display_name: name.to_string(),
        tabs: vec![Tab {
            display_name: "1".to_string(),
            layout: Layout { pane_ids: (1..=panes).collect(), focused: panes },
            panes: map,
        }],
        active_tab: 0,
    }
}

/// Build a plain (non-agent) terminal for `pane` and register it in `state`.
fn register_terminal(state: &mut AppState, ws: &Workspace, pane: PaneId) -> TerminalId {
    let tid = ws.tabs[0].panes[&pane].attached_terminal_id;
    state.terminals.insert(tid, plain_terminal(tid));
    tid
}

#[test]
fn no_agents_uses_idle_fallback() {
    assert_eq!(format_window_title(&[], None, "my-project"), "my-project");
}

#[test]
fn empty_fallback_defaults_to_herdr() {
    assert_eq!(format_window_title(&[], None, ""), "herdr");
}

#[test]
fn single_agent_mirrors_live_title_and_strips_leading_spinner() {
    // A working agent's live OSC title already leads with a braille spinner.
    assert_eq!(
        format_window_title(
            &["⠹"],
            Some("⠐ Refactoring… (12s · esc to interrupt)"),
            "my-project",
        ),
        "⠹ Refactoring… (12s · esc to interrupt)"
    );
}

#[test]
fn single_idle_agent_still_shows_its_title_not_the_fallback() {
    // A lone idle agent shows its own title, not the workspace label.
    assert_eq!(
        format_window_title(&["✓"], Some("Ready — /help for commands"), "herdr"),
        "✓ Ready — /help for commands"
    );
}

#[test]
fn single_agent_without_title_falls_back_to_workspace() {
    assert_eq!(
        format_window_title(&["⠹"], None, "my-project"),
        "⠹ my-project"
    );
}

#[test]
fn multiple_agents_show_active_tab_agent_title_with_one_space() {
    assert_eq!(
        format_window_title(
            &["⠹", "⠹", "⠹"],
            Some("⠐ Debugging tests (3s · esc to interrupt)"),
            "my-project",
        ),
        "⠹ ⠹ ⠹ Debugging tests (3s · esc to interrupt)"
    );
}

#[test]
fn fleet_mixes_working_and_done_icons() {
    // Two working agents and one that is done.
    assert_eq!(
        format_window_title(&["⠹", "⠹", "●"], Some("Reviewing diff"), "my-project"),
        "⠹ ⠹ ● Reviewing diff"
    );
}

#[test]
fn multiple_agents_without_active_agent_fall_back_to_workspace() {
    assert_eq!(
        format_window_title(&["●", "●"], None, "my-project"),
        "● ● my-project"
    );
}

#[test]
fn strip_leading_spinner_handles_braille_star_and_plain() {
    assert_eq!(strip_leading_spinner("⠐ Add feature"), "Add feature");
    assert_eq!(strip_leading_spinner("✻ Working"), "Working");
    assert_eq!(strip_leading_spinner("  ⠋   spaced"), "spaced");
    // No leading spinner: unchanged (trimmed).
    assert_eq!(strip_leading_spinner("Plain title"), "Plain title");
    // Does not eat ordinary leading punctuation/text.
    assert_eq!(strip_leading_spinner("* not a spinner"), "* not a spinner");
}

#[test]
fn token_substitution_is_single_pass() {
    assert_eq!(
        substitute_window_title_tokens("{workspace}", "proj", "main"),
        "proj"
    );
    assert_eq!(
        substitute_window_title_tokens("{workspace} — {tab}", "proj", "main"),
        "proj — main"
    );
    // A workspace value that itself contains a token is not re-substituted.
    assert_eq!(
        substitute_window_title_tokens("{workspace}", "{tab}", "main"),
        "{tab}"
    );
    // Unknown tokens are left literal.
    assert_eq!(
        substitute_window_title_tokens("{unknown}", "proj", "main"),
        "{unknown}"
    );
}

#[test]
fn active_tab_agent_returns_the_sole_agent() {
    let mut state = empty_state();
    let ws = workspace("proj", 1);
    let tid = register_terminal(&mut state, &ws, 1);
    state.terminals.get_mut(&tid).expect("terminal").agent_name = Some("pilot".to_string());
    state.workspaces = vec![ws];
    state.active = Some(0);
    assert_eq!(active_tab_agent_terminal_id(&state), Some(tid));
}

#[test]
fn active_tab_agent_none_when_active_tab_has_no_agent() {
    let mut state = empty_state();
    let ws = workspace("proj", 1);
    // A plain terminal (no agent name / label) is not an agent.
    register_terminal(&mut state, &ws, 1);
    state.workspaces = vec![ws];
    state.active = Some(0);
    assert_eq!(active_tab_agent_terminal_id(&state), None);
}

#[test]
fn active_tab_agent_prefers_the_focused_agent() {
    let mut state = empty_state();
    let mut ws = workspace("proj", 2);
    let first_tid = register_terminal(&mut state, &ws, 1);
    let second_tid = register_terminal(&mut state, &ws, 2);
    for tid in [&first_tid, &second_tid] {
        state.terminals.get_mut(tid).expect("terminal").agent_name = Some("pilot".to_string());
    }
    ws.tabs[0].layout.focused = 2;
    state.workspaces = vec![ws];
    state.active = Some(0);
    // Both panes are agents; the focused one wins over the first in order.
    assert_eq!(active_tab_agent_terminal_id(&state), Some(second_tid));
}

#[test]
fn active_tab_agent_uses_tab_agent_when_focused_pane_is_not_an_agent() {
    let mut state = empty_state();
    let mut ws = workspace("proj", 2);
    let agent_tid = register_terminal(&mut state, &ws, 1);
    register_terminal(&mut state, &ws, 2); // plain shell, not an agent
    state.terminals.get_mut(&agent_tid).expect("terminal").agent_name =
        Some("pilot".to_string());
    ws.tabs[0].layout.focused = 2;
    state.workspaces = vec![ws];
    state.active = Some(0);
    // The focused pane isn't an agent, but the tab has one -> show it.
    assert_eq!(active_tab_agent_terminal_id(&state), Some(agent_tid));
}

#[test]
fn agent_fallback_title_uses_agent_name_when_no_osc_title() {
    // A restored agent idling before it emits an OSC title still yields an agent-specific body
    // (its name), never `None`.
    let mut term = plain_terminal(7);
    assert_eq!(
        agent_fallback_title(&term),
        None,
        "plain terminal has no label"
    );
    term.agent_name = Some("pilot".to_string());
    assert_eq!(agent_fallback_title(&term), Some("pilot".to_string()));
}
