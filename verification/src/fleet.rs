//! The fleet of agents, in the order in which the sidebar lists their panes.

use crate::state::AgentState;
use crate::state::AppState;
use crate::state::PaneId;
use crate::state::PaneState;
use crate::state::Tab;
use crate::state::TerminalId;
use crate::state::TerminalState;
use crate::state::Workspace;
use vstd::prelude::*;

verus! {

/// A pane that shows an agent.
pub struct AgentPane {
    pub terminal_id: TerminalId,
    pub state: AgentState,
    pub seen: bool,
}

impl AppState {
    /// The agent in the pane `id` of `ws`, if the pane and its terminal exist and the terminal
    /// runs an agent.
    pub open spec fn agent_pane(&self, ws: Workspace, id: PaneId) -> Option<AgentPane> {
        match crate::state::pane_in(ws.tabs@, id) {
            Some(pane) => match self.terminal(pane.attached_terminal_id) {
                Some(terminal) => if terminal.agent() {
                    Some(AgentPane { terminal_id: terminal.id, state: terminal.state, seen: pane.seen })
                } else {
                    None
                },
                None => None,
            },
            None => None,
        }
    }

    /// The agents in a tab of `ws`, in layout order.
    pub open spec fn tab_agents(&self, ws: Workspace, tab: Tab) -> Seq<AgentPane> {
        tab.layout.pane_ids@.filter_map(|id: PaneId| self.agent_pane(ws, id))
    }

    /// The agents in a workspace, tab by tab.
    pub open spec fn workspace_agents(&self, ws: Workspace) -> Seq<AgentPane> {
        ws.tabs@.flat_map(|tab: Tab| self.tab_agents(ws, tab))
    }

    /// All agents, workspace by workspace.
    pub open spec fn agents(&self) -> Seq<AgentPane> {
        self.workspaces@.flat_map(|ws: Workspace| self.workspace_agents(ws))
    }

    /// The terminal of the agent in the active tab: of the focused pane if that shows an agent,
    /// else of the first pane in the tab that does.
    pub open spec fn active_agent(&self) -> Option<TerminalId> {
        match self.current_workspace() {
            Some(ws) => match ws.current_tab() {
                Some(tab) => {
                    let focused = tab.layout.focused;
                    let agents = self.tab_agents(ws, tab);
                    if tab.layout.pane_ids@.contains(focused) && self.agent_pane(ws, focused) is Some {
                        Some(self.agent_pane(ws, focused)->0.terminal_id)
                    } else if agents.len() > 0 {
                        Some(agents[0].terminal_id)
                    } else {
                        None
                    }
                },
                None => None,
            },
            None => None,
        }
    }

    /// The agent in the pane `id` of `ws`, if any, as its pane and its terminal.
    pub fn find_agent<'a>(&'a self, ws: &'a Workspace, id: PaneId) -> (r: Option<
        (&'a PaneState, &'a TerminalState),
    >)
        ensures
            match r {
                Some((pane, terminal)) => {
                    &&& crate::state::pane_in(ws.tabs@, id) == Some(*pane)
                    &&& self.terminal(pane.attached_terminal_id) == Some(*terminal)
                    &&& terminal.agent()
                    &&& terminal.agent_name is Some || terminal.effective_agent_label is Some
                    &&& self.terminals@.contains_key(pane.attached_terminal_id)
                    &&& self.terminals@[pane.attached_terminal_id] == *terminal
                },
                None => self.agent_pane(*ws, id) is None,
            },
    {
        match ws.pane_state(id) {
            Some(pane) => match self.terminals.get(&pane.attached_terminal_id) {
                Some(terminal) => if terminal.is_agent() {
                    Some((pane, terminal))
                } else {
                    None
                },
                None => None,
            },
            None => None,
        }
    }
}

/// Terminal id of the agent whose live title the window body mirrors: the agent pane in the active
/// workspace's active tab. When that tab is split and the focused pane is itself an agent, that
/// focused agent wins; otherwise the first agent pane in the tab is used. `None` when the active
/// tab holds no agent pane. Agent panes are told from others as for the icon row, so the body agent
/// is always one of the rendered icons.
pub fn active_tab_agent_terminal_id(state: &AppState) -> (r: Option<TerminalId>)
    ensures
        r == state.active_agent(),
{
    let ws = match state.active_workspace() {
        Some(ws) => ws,
        None => return None,
    };
    let tab = match ws.active_tab() {
        Some(tab) => tab,
        None => return None,
    };
    let focused: PaneId = tab.layout.focused;
    let ghost pick = |id: PaneId| state.agent_pane(*ws, id);
    let ghost ids = tab.layout.pane_ids@;
    let mut first_agent: Option<TerminalId> = None;
    let mut i: usize = 0;
    while i < tab.layout.pane_ids.len()
        invariant
            i <= tab.layout.pane_ids.len(),
            ids == tab.layout.pane_ids@,
            focused == tab.layout.focused,
            state.current_workspace() == Some(*ws),
            ws.current_tab() == Some(*tab),
            pick == (|id: PaneId| state.agent_pane(*ws, id)),
            state.agent_pane(*ws, focused) is Some ==> !ids.take(i as int).contains(focused),
            ({
                let found = ids.take(i as int).filter_map(pick);
                first_agent == if found.len() > 0 {
                    Some(found[0].terminal_id)
                } else {
                    None
                }
            }),
        decreases tab.layout.pane_ids.len() - i,
    {
        let id: PaneId = tab.layout.pane_ids[i];
        proof {
            ids.lemma_filter_map_take_succ(pick, i as int);
            assert(ids.take(i + 1) =~= ids.take(i as int).push(id));
        }
        match state.find_agent(ws, id) {
            Some((_, terminal)) => {
                if id == focused {
                    assert(ids.contains(focused));
                    return Some(terminal.id);
                }
                if first_agent.is_none() {
                    first_agent = Some(terminal.id);
                }
            },
            None => {},
        }
        i += 1;
    }
    assert(ids.take(i as int) =~= ids);
    first_agent
}

} // verus!
