use herdr_title::fleet::active_tab_agent_terminal_id;
use herdr_title::glyphs::{Animation, Glyphs, StillGlyphs};
use herdr_title::state::{
    AgentState, AppState, Layout, PaneId, PaneState, Tab, TerminalId, TerminalRuntime,
    TerminalState, Workspace,
};
use herdr_title::window_title::{agent_fallback_title, format_window_title, App, DEFAULT_TITLE};
use std::collections::HashMap;

fn glyphs() -> Glyphs {
    Glyphs {
        spinner: Animation {
            first: "⠋".to_string(),
            rest: vec!["⠙".to_string(), "⠹".to_string()],
        },
        blocked_pulse: Animation {
            first: "◉".to_string(),
            rest: vec!["◎".to_string()],
        },
        idle: StillGlyphs { seen: "✓".to_string(), unseen: "●".to_string() },
        unknown: StillGlyphs { seen: "○".to_string(), unseen: "◌".to_string() },
    }
}

fn empty_app() -> App {
    App {
        state: AppState {
            workspaces: Vec::new(),
            active: None,
            terminals: HashMap::new(),
            window_title_format: String::new(),
        },
        terminal_runtimes: HashMap::new(),
        glyphs: glyphs(),
    }
}

fn terminal(id: TerminalId, name: Option<&str>, state: AgentState) -> TerminalState {
    TerminalState {
        id,
        agent_name: name.map(str::to_string),
        manual_label: None,
        effective_agent_label: None,
        effective_title: None,
        state,
    }
}

/// A tab whose panes show the terminals of the same number and have all been seen.
fn tab(name: &str, panes: &[PaneId], focused: PaneId) -> Tab {
    Tab {
        display_name: name.to_string(),
        layout: Layout { pane_ids: panes.to_vec(), focused },
        panes: panes
            .iter()
            .map(|id| (*id, PaneState { attached_terminal_id: *id, seen: true }))
            .collect(),
    }
}

fn add(app: &mut App, terminal: TerminalState) {
    app.state.terminals.insert(terminal.id, terminal);
}

fn set_live_title(app: &mut App, id: TerminalId, title: &str) {
    app.terminal_runtimes
        .insert(id, TerminalRuntime { agent_osc_title: title.to_string() });
}

/// Two workspaces: `alpha` with the tabs `a` (a shell and a working agent) and `b` (an idle agent),
/// and `beta` with the tab `c` (a blocked agent). Tab `a` of `alpha` is active, its shell focused.
fn fleet() -> App {
    let mut app = empty_app();
    app.state.workspaces = vec![
        Workspace {
            display_name: "alpha".to_string(),
            tabs: vec![tab("a", &[1, 2], 1), tab("b", &[3], 3)],
            active_tab: 0,
        },
        Workspace {
            display_name: "beta".to_string(),
            tabs: vec![tab("c", &[4], 4)],
            active_tab: 0,
        },
    ];
    app.state.active = Some(0);
    add(&mut app, terminal(1, None, AgentState::Unknown));
    add(&mut app, terminal(2, Some("two"), AgentState::Working));
    add(&mut app, terminal(3, Some("three"), AgentState::Idle));
    add(&mut app, terminal(4, Some("four"), AgentState::Blocked));
    app
}

#[test]
fn icons_come_in_sidebar_order_and_body_follows_the_active_tab() {
    let mut app = fleet();
    set_live_title(&mut app, 2, "⠐ Refactoring");
    set_live_title(&mut app, 3, "Elsewhere");
    assert_eq!(app.compute_window_title(0), ("⠋ ✓ ◉ Refactoring".to_string(), true));
    app.state.workspaces[0].active_tab = 1;
    assert_eq!(app.compute_window_title(0).0, "⠋ ✓ ◉ Elsewhere");
    app.state.active = Some(1);
    assert_eq!(app.compute_window_title(0).0, "⠋ ✓ ◉ four");
}

#[test]
fn frames_advance_both_animations_over_and_over() {
    let app = fleet();
    let titles: Vec<String> = (0..6).map(|frame| app.compute_window_title(frame).0).collect();
    assert_eq!(
        titles,
        [
            "⠋ ✓ ◉ two",
            "⠙ ✓ ◎ two",
            "⠹ ✓ ◉ two",
            "⠋ ✓ ◎ two",
            "⠙ ✓ ◉ two",
            "⠹ ✓ ◎ two"
        ]
    );
    assert_eq!(app.compute_window_title(u32::MAX).0, "⠋ ✓ ◎ two");
}

#[test]
fn title_at_rest_is_the_same_in_every_frame() {
    let mut app = fleet();
    add(&mut app, terminal(2, Some("two"), AgentState::Idle));
    add(&mut app, terminal(4, Some("four"), AgentState::Unknown));
    for frame in [0, 1, 2, 7, u32::MAX] {
        assert_eq!(app.compute_window_title(frame), ("✓ ✓ ○ two".to_string(), false));
    }
}

#[test]
fn either_animated_state_reports_animation() {
    for (state, animating) in [
        (AgentState::Working, true),
        (AgentState::Blocked, true),
        (AgentState::Idle, false),
        (AgentState::Unknown, false),
    ] {
        let mut app = fleet();
        add(&mut app, terminal(2, Some("two"), AgentState::Idle));
        add(&mut app, terminal(4, Some("four"), state));
        assert_eq!(app.compute_window_title(0).1, animating);
    }
    // A terminal without an agent does not animate, whatever its state.
    let mut app = fleet();
    for id in 1..=4 {
        add(&mut app, terminal(id, None, AgentState::Working));
    }
    assert_eq!(app.compute_window_title(0), ("alpha".to_string(), false));
}

#[test]
fn unseen_panes_have_icons_of_their_own() {
    let mut app = fleet();
    app.state.workspaces[0].tabs[1].panes.get_mut(&3).expect("pane").seen = false;
    assert_eq!(app.compute_window_title(0).0, "⠋ ● ◉ two");
    add(&mut app, terminal(3, Some("three"), AgentState::Unknown));
    assert_eq!(app.compute_window_title(0).0, "⠋ ◌ ◉ two");
}

#[test]
fn a_label_makes_an_agent_too() {
    let mut app = fleet();
    app.state.terminals.get_mut(&1).expect("terminal").effective_agent_label =
        Some("detected".to_string());
    // The shell pane, which has the focus, is now an agent.
    assert_eq!(active_tab_agent_terminal_id(&app.state), Some(1));
    assert_eq!(app.compute_window_title(0).0, "○ ⠋ ✓ ◉ detected");
    // A title or a label of the terminal alone does not.
    let shell = app.state.terminals.get_mut(&1).expect("terminal");
    shell.effective_agent_label = None;
    shell.effective_title = Some("vim".to_string());
    shell.manual_label = Some("editor".to_string());
    assert_eq!(active_tab_agent_terminal_id(&app.state), Some(2));
}

#[test]
fn panes_without_state_or_terminal_are_passed_over() {
    let mut app = fleet();
    app.state.terminals.remove(&3);
    app.state.workspaces[1].tabs[0].panes.remove(&4);
    assert_eq!(app.compute_window_title(0), ("⠋ two".to_string(), true));
    app.state.workspaces[0].tabs[0].panes.remove(&2);
    assert_eq!(app.compute_window_title(0), ("alpha".to_string(), false));
}

#[test]
fn a_pane_is_found_in_any_tab_of_its_workspace() {
    let mut app = fleet();
    // The layout of the first tab also lists the pane that the second tab holds.
    app.state.workspaces[0].tabs[0].layout.pane_ids.push(3);
    assert_eq!(app.compute_window_title(0).0, "⠋ ✓ ✓ ◉ two");
    // The one of another workspace is not found.
    app.state.workspaces[0].tabs[0].layout.pane_ids.push(4);
    assert_eq!(app.compute_window_title(0).0, "⠋ ✓ ✓ ◉ two");
}

#[test]
fn focus_outside_the_layout_does_not_count() {
    let mut app = fleet();
    app.state.workspaces[0].tabs[0].layout.focused = 3;
    assert_eq!(active_tab_agent_terminal_id(&app.state), Some(2));
}

#[test]
fn body_agent_is_one_of_the_icons() {
    let app = fleet();
    let id = active_tab_agent_terminal_id(&app.state).expect("agent");
    assert!(app.state.workspaces.iter().any(|ws| ws.tabs.iter().any(|tab| tab
        .layout
        .pane_ids
        .iter()
        .any(|pane| match app.state.find_agent(ws, *pane) {
            Some((_, terminal)) => terminal.id == id,
            None => false,
        }))));
}

#[test]
fn missing_or_blank_live_title_shows_the_label() {
    let mut app = fleet();
    for title in ["", "   ", "\t\u{3000}"] {
        set_live_title(&mut app, 2, title);
        assert_eq!(app.compute_window_title(0).0, "⠋ ✓ ◉ two");
    }
    // A title that is only a spinner is not blank, but leaves nothing to show.
    set_live_title(&mut app, 2, "⠐ ");
    assert_eq!(app.compute_window_title(0).0, "⠋ ✓ ◉ alpha");
}

#[test]
fn labels_come_in_order() {
    let mut term = terminal(1, None, AgentState::Idle);
    assert_eq!(agent_fallback_title(&term), None);
    term.effective_agent_label = Some("label".to_string());
    assert_eq!(agent_fallback_title(&term), Some("label".to_string()));
    term.agent_name = Some("name".to_string());
    assert_eq!(agent_fallback_title(&term), Some("name".to_string()));
    term.manual_label = Some("manual".to_string());
    assert_eq!(agent_fallback_title(&term), Some("manual".to_string()));
    term.effective_title = Some("title".to_string());
    assert_eq!(agent_fallback_title(&term), Some("title".to_string()));
}

#[test]
fn a_terminal_registered_under_another_id_has_no_title() {
    let mut app = fleet();
    app.state.terminals.insert(2, terminal(9, Some("two"), AgentState::Idle));
    assert_eq!(active_tab_agent_terminal_id(&app.state), Some(9));
    assert_eq!(app.compute_window_title(0).0, "✓ ✓ ◉ alpha");
}

#[test]
fn idle_fallback_is_the_workspace_or_the_template() {
    let mut app = fleet();
    assert_eq!(app.window_title_idle_fallback(), "alpha");
    app.state.window_title_format = "  ".to_string();
    assert_eq!(app.window_title_idle_fallback(), "alpha");
    app.state.window_title_format = " {workspace} / {tab} ".to_string();
    assert_eq!(app.window_title_idle_fallback(), "alpha / a");
    app.state.workspaces[0].active_tab = 2;
    assert_eq!(app.window_title_idle_fallback(), "alpha / ");
    app.state.active = Some(2);
    assert_eq!(app.window_title_idle_fallback(), "herdr / ");
    app.state.active = None;
    app.state.window_title_format = String::new();
    assert_eq!(app.window_title_idle_fallback(), "herdr");
}

#[test]
fn no_active_tab_means_no_body_agent() {
    let mut app = fleet();
    app.state.workspaces[0].active_tab = 2;
    assert_eq!(active_tab_agent_terminal_id(&app.state), None);
    assert_eq!(app.compute_window_title(0).0, "⠋ ✓ ◉ alpha");
    app.state.active = Some(2);
    assert_eq!(active_tab_agent_terminal_id(&app.state), None);
    assert_eq!(app.compute_window_title(0).0, "⠋ ✓ ◉ herdr");
    app.state.active = None;
    assert_eq!(active_tab_agent_terminal_id(&app.state), None);
}

#[test]
fn an_empty_app_shows_the_default() {
    assert_eq!(DEFAULT_TITLE, "herdr");
    assert_eq!(empty_app().compute_window_title(5), ("herdr".to_string(), false));
}

#[test]
fn the_icons_never_change_the_body() {
    let rows: [&[&str]; 4] = [&[], &["⠹"], &["⠹", "●"], &["●", "●", "●"]];
    for icons in rows {
        assert!(format_window_title(icons, Some("⠐ Body "), "idle").ends_with("Body"));
        assert!(format_window_title(icons, None, " idle ").ends_with("idle"));
        assert!(format_window_title(icons, Some(" ⠐ "), "  ").ends_with("herdr"));
    }
}

#[test]
fn an_empty_icon_row_adds_no_space() {
    assert_eq!(format_window_title(&[""], None, "x"), "x");
    assert_eq!(format_window_title(&["", ""], None, "x"), "  x");
}
