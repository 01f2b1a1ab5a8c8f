//! Compose the outer terminal window/tab title from live agent state.
//!
//! The composed title is a run of per-agent status icons (one per agent pane, in sidebar order,
//! animated while working) followed by a body:
//!
//! - the live OSC title of the agent in the active tab, with its leading spinner glyph stripped
//!   (the icon row already shows a spinner for it). With several agents the body follows the
//!   focused tab; with a single agent it is simply that agent.
//! - when the active tab holds no agent (a plain shell tab, or no agents at all), the idle
//!   fallback: the active workspace label, or the `window_title_format` template when set.

use crate::fleet::active_tab_agent_terminal_id;
use crate::fleet::AgentPane;
use crate::glyphs::Glyphs;
use crate::spinner::strip_leading_spinner;
use crate::state::AgentState;
use crate::state::AppState;
use crate::state::PaneId;
use crate::state::Tab;
use crate::state::TerminalId;
use crate::state::TerminalRuntime;
use crate::state::TerminalState;
use crate::state::Workspace;
use crate::template::substitute_window_title_tokens;
use crate::text::join_spaced;
use crate::text::trim;
use std::collections::HashMap;
use vstd::prelude::*;
use vstd::string::StringExecFns;

verus! {

/// Fallback title when nothing else applies.
pub const DEFAULT_TITLE: &'static str = "herdr";

/// The body of the title: the agent's own title without its spinner if there is anything left of
/// it, else the idle fallback, else the default.
pub open spec fn body_text(active_agent_title: Option<Seq<char>>, idle_fallback: Seq<char>) -> Seq<
    char,
> {
    let own = match active_agent_title {
        Some(title) => crate::text::trimmed(crate::spinner::without_spinner(title)),
        None => Seq::empty(),
    };
    let idle = crate::text::trimmed(idle_fallback);
    if own.len() > 0 {
        own
    } else if idle.len() > 0 {
        idle
    } else {
        DEFAULT_TITLE@
    }
}

/// The icons, one space between each two and one behind them, and the body.
pub open spec fn title_text(icons: Seq<Seq<char>>, body: Seq<char>) -> Seq<char> {
    let row = crate::text::spaced(icons);
    if row.len() == 0 {
        body
    } else {
        row.push(' ') + body
    }
}

/// The text of an optional string slice.
pub open spec fn str_text(s: Option<&str>) -> Option<Seq<char>> {
    match s {
        Some(s) => Some(s@),
        None => None,
    }
}

/// The label of an agent that has set no title of its own: the title that was set for its
/// terminal, else the terminal's label, else the agent's name, else the agent's label.
pub open spec fn fallback_title(term: TerminalState) -> Option<Seq<char>> {
    if term.effective_title is Some {
        Some(term.effective_title->0@)
    } else if term.manual_label is Some {
        Some(term.manual_label->0@)
    } else if term.agent_name is Some {
        Some(term.agent_name->0@)
    } else if term.effective_agent_label is Some {
        Some(term.effective_agent_label->0@)
    } else {
        None
    }
}

/// Pure title composition from the already-resolved per-agent icons and the active tab's agent
/// live title. The body is that active agent's own title (its leading spinner stripped, since the
/// icon row already shows one); when there is no active-agent title it falls back to the idle
/// label. The icon count never changes the body.
pub fn format_window_title(
    icons: &[&str],
    active_agent_title: Option<&str>,
    idle_fallback: &str,
) -> (r: String)
    ensures
        r@ == title_text(
            crate::text::texts(icons@),
            body_text(str_text(active_agent_title), idle_fallback@),
        ),
{
    let own = match active_agent_title {
        Some(title) => trim(strip_leading_spinner(title)),
        None => "",
    };
    proof {
        reveal_strlit("");
        reveal_strlit(" ");
    }
    let body = if !own.is_empty() {
        own
    } else {
        let idle = trim(idle_fallback);
        if !idle.is_empty() {
            idle
        } else {
            DEFAULT_TITLE
        }
    };
    let row = join_spaced(icons);
    if row.as_str().is_empty() {
        body.to_owned()
    } else {
        let mut title = row;
        assert(title@ + " "@ =~= title@.push(' '));
        title.append(" ");
        title.append(body);
        title
    }
}

/// A per-agent label for the window body when the active tab's agent has no live OSC title yet (a
/// freshly (re)started agent idling before it emits one), so that the title stays agent-specific
/// rather than dropping to the workspace label. `Some` for any agent's terminal.
pub fn agent_fallback_title(term: &TerminalState) -> (r: Option<String>)
    ensures
        crate::text::text_of(r) == fallback_title(*term),
        term.agent() ==> r is Some,
{
    match &term.effective_title {
        Some(title) => return Some(title.clone()),
        None => {},
    }
    match &term.manual_label {
        Some(label) => return Some(label.clone()),
        None => {},
    }
    match &term.agent_name {
        Some(name) => return Some(name.clone()),
        None => {},
    }
    match &term.effective_agent_label {
        Some(label) => Some(label.clone()),
        None => None,
    }
}

/// The application: its state, the live terminals behind it, and the glyphs it draws agents with.
pub struct App {
    pub state: AppState,
    pub terminal_runtimes: HashMap<TerminalId, TerminalRuntime>,
    pub glyphs: Glyphs,
}

/// Whether one of `agents` is in the given state.
pub open spec fn any_in(agents: Seq<AgentPane>, state: AgentState) -> bool {
    exists|i: int| 0 <= i < agents.len() && (#[trigger] agents[i]).state == state
}

proof fn lemma_any_in_push(agents: Seq<AgentPane>, agent: AgentPane, state: AgentState)
    ensures
        any_in(agents.push(agent), state) == (any_in(agents, state) || agent.state == state),
{
    let pushed = agents.push(agent);
    assert(pushed[agents.len() as int] == agent);
    if any_in(agents, state) {
        let i = choose|i: int| 0 <= i < agents.len() && (#[trigger] agents[i]).state == state;
        assert(pushed[i].state == state);
    }
    if any_in(pushed, state) && agent.state != state {
        let i = choose|i: int| 0 <= i < pushed.len() && (#[trigger] pushed[i]).state == state;
        assert(agents[i].state == state);
    }
}

impl App {
    /// The icons of the given agents in the given frame.
    pub open spec fn icons_of(&self, agents: Seq<AgentPane>, frame: u32) -> Seq<Seq<char>> {
        let spinner = self.glyphs.spinner.glyph(frame as nat);
        let blocked = self.glyphs.blocked_pulse.glyph(frame as nat);
        agents.map_values(
            |agent: AgentPane|
                self.glyphs.agent_glyph(agent.state, agent.seen, spinner, blocked),
        )
    }

    /// The title of the agent in the terminal `id`: the live one unless that is blank, else the
    /// agent's label.
    pub open spec fn title_of(&self, id: TerminalId) -> Option<Seq<char>> {
        if self.terminal_runtimes@.contains_key(id) && crate::text::trimmed(
            self.terminal_runtimes@[id].agent_osc_title@,
        ).len() > 0 {
            Some(self.terminal_runtimes@[id].agent_osc_title@)
        } else {
            match self.state.terminal(id) {
                Some(terminal) => fallback_title(terminal),
                None => None,
            }
        }
    }

    /// The title of the agent in the active tab, if there is one.
    pub open spec fn active_title(&self) -> Option<Seq<char>> {
        match self.state.active_agent() {
            Some(id) => self.title_of(id),
            None => None,
        }
    }

    /// The idle fallback: the template if it is not blank, with the names of the active workspace
    /// and tab, else the name of the workspace.
    pub open spec fn idle_text(&self) -> Seq<char> {
        let workspace = match self.state.current_workspace() {
            Some(ws) => ws.display_name@,
            None => DEFAULT_TITLE@,
        };
        let tab = match self.state.current_workspace() {
            Some(ws) => match ws.current_tab() {
                Some(tab) => tab.display_name@,
                None => Seq::empty(),
            },
            None => Seq::empty(),
        };
        let format = crate::text::trimmed(self.state.window_title_format@);
        if format.len() == 0 {
            workspace
        } else {
            crate::template::substituted(format, workspace, tab)
        }
    }

    /// The title in the given frame: an icon for each agent, then the body.
    pub open spec fn title(&self, frame: u32) -> Seq<char> {
        title_text(
            self.icons_of(self.state.agents(), frame),
            body_text(self.active_title(), self.idle_text()),
        )
    }

    /// Compose the outer window title for the current agent fleet and report whether the title is
    /// animating (any agent working, which spins, or blocked, which pulses), so that the caller can
    /// arm the animation tick without re-walking the fleet. `frame` advances both animations.
    pub fn compute_window_title(&self, frame: u32) -> (r: (String, bool))
        ensures
            r.0@ == self.title(frame),
            r.1 == (any_in(self.state.agents(), AgentState::Working) || any_in(
                self.state.agents(),
                AgentState::Blocked,
            )),
    {
        let spinner = self.glyphs.spinner.glyph_at(frame);
        let blocked = self.glyphs.blocked_pulse.glyph_at(frame);
        let mut icons: Vec<&str> = Vec::new();
        let mut any_working = false;
        let mut any_blocked = false;
        let ghost mut agents: Seq<AgentPane> = Seq::empty();
        let ghost of_workspace = |ws: Workspace| self.state.workspace_agents(ws);
        let ghost workspaces = self.state.workspaces@;
        let mut i: usize = 0;
        assert(crate::text::texts(icons@) =~= self.icons_of(agents, frame));
        assert(workspaces.take(0).flat_map(of_workspace) =~= Seq::empty());
        while i < self.state.workspaces.len()
            invariant
                i <= workspaces.len(),
                workspaces == self.state.workspaces@,
                of_workspace == (|ws: Workspace| self.state.workspace_agents(ws)),
                spinner@ == self.glyphs.spinner.glyph(frame as nat),
                blocked@ == self.glyphs.blocked_pulse.glyph(frame as nat),
                agents == workspaces.take(i as int).flat_map(of_workspace),
                crate::text::texts(icons@) == self.icons_of(agents, frame),
                any_working == any_in(agents, AgentState::Working),
                any_blocked == any_in(agents, AgentState::Blocked),
            decreases workspaces.len() - i,
        {
            let ws = &self.state.workspaces[i];
            let ghost before_ws = agents;
            let ghost of_tab = |tab: Tab| self.state.tab_agents(*ws, tab);
            let ghost tabs = ws.tabs@;
            let mut j: usize = 0;
            assert(tabs.take(0).flat_map(of_tab) =~= Seq::empty());
            assert(before_ws + Seq::<AgentPane>::empty() =~= before_ws);
            while j < ws.tabs.len()
                invariant
                    j <= tabs.len(),
                    tabs == ws.tabs@,
                    of_tab == (|tab: Tab| self.state.tab_agents(*ws, tab)),
                    spinner@ == self.glyphs.spinner.glyph(frame as nat),
                    blocked@ == self.glyphs.blocked_pulse.glyph(frame as nat),
                    agents == before_ws + tabs.take(j as int).flat_map(of_tab),
                    crate::text::texts(icons@) == self.icons_of(agents, frame),
                    any_working == any_in(agents, AgentState::Working),
                    any_blocked == any_in(agents, AgentState::Blocked),
                decreases tabs.len() - j,
            {
                let tab = &ws.tabs[j];
                let ghost before_tab = agents;
                let ghost pick = |id: PaneId| self.state.agent_pane(*ws, id);
                let ghost ids = tab.layout.pane_ids@;
                let mut k: usize = 0;
                assert(ids.take(0).filter_map(pick) =~= Seq::empty());
                assert(before_tab + Seq::<AgentPane>::empty() =~= before_tab);
                while k < tab.layout.pane_ids.len()
                    invariant
                        k <= ids.len(),
                        ids == tab.layout.pane_ids@,
                        pick == (|id: PaneId| self.state.agent_pane(*ws, id)),
                        spinner@ == self.glyphs.spinner.glyph(frame as nat),
                        blocked@ == self.glyphs.blocked_pulse.glyph(frame as nat),
                        agents == before_tab + ids.take(k as int).filter_map(pick),
                        crate::text::texts(icons@) == self.icons_of(agents, frame),
                        any_working == any_in(agents, AgentState::Working),
                        any_blocked == any_in(agents, AgentState::Blocked),
                    decreases ids.len() - k,
                {
                    let id: PaneId = tab.layout.pane_ids[k];
                    proof {
                        ids.lemma_filter_map_take_succ(pick, k as int);
                    }
                    match self.state.find_agent(ws, id) {
                        Some((pane, terminal)) => {
                            let ghost agent = AgentPane {
                                terminal_id: terminal.id,
                                state: terminal.state,
                                seen: pane.seen,
                            };
                            match terminal.state {
                                AgentState::Working => any_working = true,
                                AgentState::Blocked => any_blocked = true,
                                _ => {},
                            }
                            let icon = self.glyphs.agent_state_glyph(
                                terminal.state,
                                pane.seen,
                                spinner,
                                blocked,
                            );
                            let ghost shown = icons@;
                            icons.push(icon);
                            proof {
                                assert(crate::text::texts(icons@) =~= crate::text::texts(shown).push(
                                    icon@,
                                ));
                                assert(self.icons_of(agents.push(agent), frame) =~= self.icons_of(
                                    agents,
                                    frame,
                                ).push(icon@));
                                lemma_any_in_push(agents, agent, AgentState::Working);
                                lemma_any_in_push(agents, agent, AgentState::Blocked);
                                agents = agents.push(agent);
                                assert(agents =~= before_tab + ids.take(k + 1).filter_map(pick));
                            }
                        },
                        None => {
                            assert(ids.take(k + 1).filter_map(pick) =~= ids.take(
                                k as int,
                            ).filter_map(pick));
                        },
                    }
                    k += 1;
                }
                proof {
                    assert(ids.take(k as int) =~= ids);
                    tabs.lemma_flat_map_take_append(of_tab, j as int);
                    assert(agents =~= before_ws + tabs.take(j + 1).flat_map(of_tab));
                }
                j += 1;
            }
            proof {
                assert(tabs.take(j as int) =~= tabs);
                workspaces.lemma_flat_map_take_append(of_workspace, i as int);
            }
            i += 1;
        }
        assert(workspaces.take(i as int) =~= workspaces);
        let active_title = match active_tab_agent_terminal_id(&self.state) {
            Some(id) => self.agent_title(id),
            None => None,
        };
        let active_str = match &active_title {
            Some(title) => Some(title.as_str()),
            None => None,
        };
        let idle = self.window_title_idle_fallback();
        let title = format_window_title(icons.as_slice(), active_str, idle.as_str());
        (title, any_working || any_blocked)
    }

    /// The title of the agent in the terminal `id`: the live one unless that is blank, else the
    /// agent's label.
    fn agent_title(&self, id: TerminalId) -> (r: Option<String>)
        ensures
            crate::text::text_of(r) == self.title_of(id),
    {
        match self.terminal_runtimes.get(&id) {
            Some(runtime) => {
                let title = runtime.agent_osc_title.as_str();
                if !trim(title).is_empty() {
                    return Some(title.to_owned());
                }
            },
            None => {},
        }
        match self.state.terminals.get(&id) {
            Some(terminal) => agent_fallback_title(terminal),
            None => None,
        }
    }

    /// The body shown when the active tab holds no agent: the active workspace label, or the
    /// `window_title_format` template (tokens `{workspace}`, `{tab}`).
    pub fn window_title_idle_fallback(&self) -> (r: String)
        ensures
            r@ == self.idle_text(),
    {
        let ws = self.state.active_workspace();
        let workspace = match ws {
            Some(ws) => ws.display_name.as_str(),
            None => DEFAULT_TITLE,
        };
        let format = trim(self.state.window_title_format.as_str());
        if format.is_empty() {
            return workspace.to_owned();
        }
        proof {
            reveal_strlit("");
        }
        let tab = match ws {
            Some(ws) => match ws.active_tab() {
                Some(tab) => tab.display_name.as_str(),
                None => "",
            },
            None => "",
        };
        assert(""@ =~= Seq::empty());
        substitute_window_title_tokens(format, workspace, tab)
    }
}

} // verus!
