//! The application state that the window title is composed from.

use std::collections::HashMap;
use vstd::prelude::*;

verus! {

/// Identifies a pane.
pub type PaneId = u64;

/// Identifies a terminal.
pub type TerminalId = u64;

/// What an agent is doing.
#[derive(Clone, Copy, Debug, PartialEq, Eq, Structural)]
pub enum AgentState {
    Idle,
    Working,
    Blocked,
    Unknown,
}

/// A terminal, which may run an agent.
pub struct TerminalState {
    pub id: TerminalId,
    /// The name that the user gave to the agent.
    pub agent_name: Option<String>,
    /// The label that the user gave to the terminal.
    pub manual_label: Option<String>,
    /// The label of the agent that was detected or that a hook reported.
    pub effective_agent_label: Option<String>,
    /// The title that was set for the terminal.
    pub effective_title: Option<String>,
    pub state: AgentState,
}

/// A pane and the terminal that it shows.
pub struct PaneState {
    pub attached_terminal_id: TerminalId,
    /// Whether the user has seen what the pane shows.
    pub seen: bool,
}

/// The panes of a tab in layout order, and the one that has the focus.
pub struct Layout {
    pub pane_ids: Vec<PaneId>,
    pub focused: PaneId,
}

/// A tab.
pub struct Tab {
    pub display_name: String,
    pub layout: Layout,
    pub panes: HashMap<PaneId, PaneState>,
}

/// A workspace and its tabs in order.
pub struct Workspace {
    pub display_name: String,
    pub tabs: Vec<Tab>,
    /// The index of the active tab.
    pub active_tab: usize,
}

/// The whole state, without the terminals' live runtimes.
pub struct AppState {
    pub workspaces: Vec<Workspace>,
    /// The index of the active workspace.
    pub active: Option<usize>,
    pub terminals: HashMap<TerminalId, TerminalState>,
    /// The template for the idle title; blank when unset.
    pub window_title_format: String,
}

/// The live part of a terminal.
pub struct TerminalRuntime {
    /// The title that the terminal's program last set by an OSC sequence; empty if none.
    pub agent_osc_title: String,
}

impl TerminalState {
    /// Whether the terminal runs an agent: a named one, or one with a detected or reported label.
    pub open spec fn agent(&self) -> bool {
        self.agent_name is Some || self.effective_agent_label is Some
    }

    /// Whether the terminal runs an agent: a named one, or one with a detected or reported label.
    pub fn is_agent(&self) -> (r: bool)
        ensures
            r == self.agent(),
            r <==> self.agent_name is Some || self.effective_agent_label is Some,
    {
        self.agent_name.is_some() || self.effective_agent_label.is_some()
    }
}

/// The state of the pane `id` in the first of `tabs` that holds it.
pub open spec fn pane_in(tabs: Seq<Tab>, id: PaneId) -> Option<PaneState>
    decreases tabs.len(),
{
    if tabs.len() == 0 {
        None
    } else if tabs.first().panes@.contains_key(id) {
        Some(tabs.first().panes@[id])
    } else {
        pane_in(tabs.drop_first(), id)
    }
}

impl Workspace {
    /// The tab that is active, if its index is that of a tab.
    pub open spec fn current_tab(&self) -> Option<Tab> {
        if self.active_tab < self.tabs@.len() {
            Some(self.tabs@[self.active_tab as int])
        } else {
            None
        }
    }

    /// The state of the pane `id`, in whichever tab it is.
    pub fn pane_state(&self, id: PaneId) -> (r: Option<&PaneState>)
        ensures
            match r {
                Some(pane) => pane_in(self.tabs@, id) == Some(*pane),
                None => pane_in(self.tabs@, id) is None,
            },
            match r {
                Some(pane) => exists|j: int|
                    {
                        &&& 0 <= j < self.tabs@.len()
                        &&& (#[trigger] self.tabs@[j]).panes@.contains_key(id)
                        &&& self.tabs@[j].panes@[id] == *pane
                        &&& forall|m: int|
                            0 <= m < j ==> !(#[trigger] self.tabs@[m]).panes@.contains_key(id)
                    },
                None => forall|j: int|
                    0 <= j < self.tabs@.len() ==> !(#[trigger] self.tabs@[j]).panes@.contains_key(
                        id,
                    ),
            },
    {
        let mut i: usize = 0;
        assert(self.tabs@.skip(0) =~= self.tabs@);
        while i < self.tabs.len()
            invariant
                i <= self.tabs.len(),
                pane_in(self.tabs@.skip(i as int), id) == pane_in(self.tabs@, id),
                forall|m: int| 0 <= m < i ==> !(#[trigger] self.tabs@[m]).panes@.contains_key(id),
            decreases self.tabs.len() - i,
        {
            assert(self.tabs@.skip(i as int).drop_first() =~= self.tabs@.skip(i + 1));
            let found = self.tabs[i].panes.get(&id);
            if found.is_some() {
                assert(self.tabs@[i as int].panes@.contains_key(id));
                return found;
            }
            i += 1;
        }
        None
    }

    /// The active tab, if any.
    pub fn active_tab(&self) -> (r: Option<&Tab>)
        ensures
            match r {
                Some(tab) => self.current_tab() == Some(*tab),
                None => self.current_tab() is None,
            },
            r is Some <==> self.active_tab < self.tabs@.len(),
            r is Some ==> *r->0 == self.tabs@[self.active_tab as int],
    {
        if self.active_tab < self.tabs.len() {
            Some(&self.tabs[self.active_tab])
        } else {
            None
        }
    }
}

impl AppState {
    /// The workspace that is active, if there is one.
    pub open spec fn current_workspace(&self) -> Option<Workspace> {
        match self.active {
            Some(i) if i < self.workspaces@.len() => Some(self.workspaces@[i as int]),
            _ => None,
        }
    }

    /// The terminal with the given id, if it is registered.
    pub open spec fn terminal(&self, id: TerminalId) -> Option<TerminalState> {
        if self.terminals@.contains_key(id) {
            Some(self.terminals@[id])
        } else {
            None
        }
    }

    /// Every terminal is registered under its own id.
    pub open spec fn well_formed(&self) -> bool {
        forall|id: TerminalId| #[trigger]
            self.terminals@.contains_key(id) ==> self.terminals@[id].id == id
    }

    /// The active workspace, if any.
    pub fn active_workspace(&self) -> (r: Option<&Workspace>)
        ensures
            match r {
                Some(ws) => self.current_workspace() == Some(*ws),
                None => self.current_workspace() is None,
            },
            r is Some <==> self.active is Some && self.active->0 < self.workspaces@.len(),
            r is Some ==> *r->0 == self.workspaces@[self.active->0 as int],
    {
        match self.active {
            Some(i) => if i < self.workspaces.len() {
                Some(&self.workspaces[i])
            } else {
                None
            },
            None => None,
        }
    }
}

} // verus!
