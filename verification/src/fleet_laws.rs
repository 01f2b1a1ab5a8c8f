//! What holds of the fleet: which panes show agents, in what order their icons come, and which of
//! them the body speaks of. The laws speak of the workspaces, tabs, layouts and terminals
//! themselves.

use crate::fleet::AgentPane;
use crate::state::AgentState;
use crate::state::AppState;
use crate::state::PaneId;
use crate::state::PaneState;
use crate::state::Tab;
use crate::state::TerminalState;
use crate::state::Workspace;
use vstd::prelude::*;

verus! {

/// Whether the tab at `j` is the first of `ws` that holds the pane `id`.
pub open spec fn first_holder(ws: Workspace, id: PaneId, j: int) -> bool {
    &&& 0 <= j < ws.tabs@.len()
    &&& ws.tabs@[j].panes@.contains_key(id)
    &&& forall|m: int| 0 <= m < j ==> !(#[trigger] ws.tabs@[m]).panes@.contains_key(id)
}

/// Whether `pane`, attached to a registered terminal with an agent's name or label, makes `agent`.
pub open spec fn makes_agent(state: AppState, pane: PaneState, agent: AgentPane) -> bool {
    let id = pane.attached_terminal_id;
    let terminal = state.terminals@[id];
    &&& state.terminals@.contains_key(id)
    &&& terminal.agent_name is Some || terminal.effective_agent_label is Some
    &&& agent.terminal_id == terminal.id
    &&& agent.state == terminal.state
    &&& agent.seen == pane.seen
}

/// Whether the pane `id` of `ws` shows `agent`.
pub open spec fn shows(state: AppState, ws: Workspace, id: PaneId, agent: AgentPane) -> bool {
    exists|j: int| #[trigger]
        first_holder(ws, id, j) && makes_agent(state, ws.tabs@[j].panes@[id], agent)
}

/// A place in the sidebar: a workspace, a tab in it, and a position in the tab's layout.
pub struct Place {
    pub workspace: int,
    pub tab: int,
    pub position: int,
}

impl Place {
    /// Whether the sidebar lists this place above `other`.
    pub open spec fn above(self, other: Place) -> bool {
        ||| self.workspace < other.workspace
        ||| self.workspace == other.workspace && self.tab < other.tab
        ||| self.workspace == other.workspace && self.tab == other.tab && self.position
            < other.position
    }
}

/// Whether the pane listed at `place` shows `agent`.
pub open spec fn agent_at(state: AppState, place: Place, agent: AgentPane) -> bool {
    let ws = state.workspaces@[place.workspace];
    let ids = ws.tabs@[place.tab].layout.pane_ids@;
    &&& 0 <= place.workspace < state.workspaces@.len()
    &&& 0 <= place.tab < ws.tabs@.len()
    &&& 0 <= place.position < ids.len()
    &&& shows(state, ws, ids[place.position], agent)
}

/// Whether `places` are all the places that show agents, from the top of the sidebar down, and
/// `agents` what they show.
pub open spec fn sidebar(state: AppState, places: Seq<Place>, agents: Seq<AgentPane>) -> bool {
    &&& places.len() == agents.len()
    &&& forall|n: int| 0 <= n < places.len() ==> agent_at(state, #[trigger] places[n], agents[n])
    &&& forall|n: int, m: int|
        0 <= n < m < places.len() ==> (#[trigger] places[n]).above(#[trigger] places[m])
    &&& forall|place: Place, agent: AgentPane| #[trigger]
        agent_at(state, place, agent) ==> places.contains(place)
}

/// A pane's state is that in the first tab that holds the pane.
pub proof fn law_pane_is_in_its_first_tab(tabs: Seq<Tab>, id: PaneId)
    ensures
        forall|j: int|
            0 <= j < tabs.len() && (#[trigger] tabs[j]).panes@.contains_key(id) && (forall|m: int|
                0 <= m < j ==> !(#[trigger] tabs[m]).panes@.contains_key(id))
                ==> crate::state::pane_in(tabs, id) == Some(tabs[j].panes@[id]),
        (forall|j: int| 0 <= j < tabs.len() ==> !(#[trigger] tabs[j]).panes@.contains_key(id))
            ==> crate::state::pane_in(tabs, id) is None,
    decreases tabs.len(),
{
    if tabs.len() > 0 {
        let rest = tabs.drop_first();
        law_pane_is_in_its_first_tab(rest, id);
        assert forall|j: int|
            0 <= j < tabs.len() && (#[trigger] tabs[j]).panes@.contains_key(id) && (forall|m: int|
                0 <= m < j ==> !(#[trigger] tabs[m]).panes@.contains_key(
                    id,
                )) implies crate::state::pane_in(tabs, id) == Some(tabs[j].panes@[id]) by {
            if j > 0 {
                assert(!tabs[0].panes@.contains_key(id));
                assert(rest[j - 1] == tabs[j]);
                assert forall|m: int| 0 <= m < j - 1 implies !(#[trigger] rest[m]).panes@.contains_key(
                    id,
                ) by {
                    assert(rest[m] == tabs[m + 1]);
                }
            }
        }
        if forall|j: int| 0 <= j < tabs.len() ==> !(#[trigger] tabs[j]).panes@.contains_key(id) {
            assert(!tabs[0].panes@.contains_key(id));
            assert forall|m: int| 0 <= m < rest.len() implies !(#[trigger] rest[m]).panes@.contains_key(
                id,
            ) by {
                assert(rest[m] == tabs[m + 1]);
            }
        }
    }
}

proof fn lemma_holder(ws: Workspace, id: PaneId, n: int)
    requires
        0 <= n <= ws.tabs@.len(),
    ensures
        (exists|j: int| 0 <= j < n && #[trigger] first_holder(ws, id, j)) || (forall|m: int|
            0 <= m < n ==> !(#[trigger] ws.tabs@[m]).panes@.contains_key(id)),
    decreases n,
{
    if n > 0 {
        lemma_holder(ws, id, n - 1);
        if forall|m: int| 0 <= m < n - 1 ==> !(#[trigger] ws.tabs@[m]).panes@.contains_key(id) {
            if ws.tabs@[n - 1].panes@.contains_key(id) {
                assert(first_holder(ws, id, n - 1));
            }
        }
    }
}

/// A pane shows an agent exactly when it is held by a tab of its workspace, the terminal it is
/// attached to is registered, and that terminal has an agent's name or label.
pub proof fn law_which_panes_show_agents(state: AppState, ws: Workspace, id: PaneId)
    ensures
        forall|agent: AgentPane|
            state.agent_pane(ws, id) == Some(agent) <==> #[trigger] shows(state, ws, id, agent),
{
    law_pane_is_in_its_first_tab(ws.tabs@, id);
    lemma_holder(ws, id, ws.tabs@.len() as int);
    if exists|j: int| 0 <= j < ws.tabs@.len() && #[trigger] first_holder(ws, id, j) {
        let j = choose|j: int| 0 <= j < ws.tabs@.len() && #[trigger] first_holder(ws, id, j);
        let pane = ws.tabs@[j].panes@[id];
        assert(crate::state::pane_in(ws.tabs@, id) == Some(pane));
        assert forall|agent: AgentPane|
            state.agent_pane(ws, id) == Some(agent) <==> #[trigger] shows(state, ws, id, agent) by {
            if shows(state, ws, id, agent) {
                let m = choose|m: int| #[trigger]
                    first_holder(ws, id, m) && makes_agent(state, ws.tabs@[m].panes@[id], agent);
                assert(m == j) by {
                    if m < j {
                        assert(!ws.tabs@[m].panes@.contains_key(id));
                    }
                    if j < m {
                        assert(!ws.tabs@[j].panes@.contains_key(id));
                    }
                }
            }
            if state.agent_pane(ws, id) == Some(agent) {
                assert(first_holder(ws, id, j) && makes_agent(state, pane, agent));
            }
        }
    } else {
        assert forall|agent: AgentPane| !#[trigger] shows(state, ws, id, agent) by {
            if shows(state, ws, id, agent) {
                let m = choose|m: int| #[trigger]
                    first_holder(ws, id, m) && makes_agent(state, ws.tabs@[m].panes@[id], agent);
                assert(0 <= m < ws.tabs@.len() && first_holder(ws, id, m));
            }
        }
    }
}

/// Whether `end` is a point between the panes of the sidebar.
spec fn scan_point(state: AppState, end: Place) -> bool {
    let ws = state.workspaces@[end.workspace];
    let ids = ws.tabs@[end.tab].layout.pane_ids@;
    &&& 0 <= end.workspace <= state.workspaces@.len()
    &&& if end.workspace == state.workspaces@.len() {
        end.tab == 0 && end.position == 0
    } else {
        &&& 0 <= end.tab <= ws.tabs@.len()
        &&& if end.tab == ws.tabs@.len() {
            end.position == 0
        } else {
            0 <= end.position <= ids.len()
        }
    }
}

/// The agents above `end`.
spec fn agents_above(state: AppState, end: Place) -> Seq<AgentPane> {
    let ws = state.workspaces@[end.workspace];
    let tab = ws.tabs@[end.tab];
    let in_workspaces = state.workspaces@.take(end.workspace).flat_map(
        |ws: Workspace| state.workspace_agents(ws),
    );
    let in_tabs = ws.tabs@.take(end.tab).flat_map(|tab: Tab| state.tab_agents(ws, tab));
    let in_panes = tab.layout.pane_ids@.take(end.position).filter_map(
        |id: PaneId| state.agent_pane(ws, id),
    );
    if end.workspace == state.workspaces@.len() {
        in_workspaces
    } else if end.tab == ws.tabs@.len() {
        in_workspaces + in_tabs
    } else {
        in_workspaces + in_tabs + in_panes
    }
}

/// As [`sidebar`], of the places above `end`.
spec fn sidebar_above(
    state: AppState,
    end: Place,
    places: Seq<Place>,
    agents: Seq<AgentPane>,
) -> bool {
    &&& places.len() == agents.len()
    &&& forall|n: int|
        0 <= n < places.len() ==> agent_at(state, #[trigger] places[n], agents[n])
            && places[n].above(end)
    &&& forall|n: int, m: int|
        0 <= n < m < places.len() ==> (#[trigger] places[n]).above(#[trigger] places[m])
    &&& forall|place: Place, agent: AgentPane| #[trigger]
        agent_at(state, place, agent) && place.above(end) ==> places.contains(place)
}

/// Two points with no agent between them have the same places above them.
proof fn lemma_sidebar_above_moves(
    state: AppState,
    start: Place,
    end: Place,
    places: Seq<Place>,
    agents: Seq<AgentPane>,
)
    requires
        sidebar_above(state, start, places, agents),
        forall|place: Place, agent: AgentPane| #[trigger]
            agent_at(state, place, agent) ==> place.above(start) == place.above(end),
    ensures
        sidebar_above(state, end, places, agents),
{
}

#[verifier::rlimit(40)]
proof fn lemma_scan(state: AppState, end: Place) -> (places: Seq<Place>)
    requires
        scan_point(state, end),
    ensures
        sidebar_above(state, end, places, agents_above(state, end)),
    decreases end.workspace, end.tab, end.position,
{
    let workspaces = state.workspaces@;
    let of_workspace = |ws: Workspace| state.workspace_agents(ws);
    let ws = workspaces[end.workspace];
    let of_tab = |tab: Tab| state.tab_agents(ws, tab);
    let ids = ws.tabs@[end.tab].layout.pane_ids@;
    let pick = |id: PaneId| state.agent_pane(ws, id);
    if end.position > 0 {
        let last = Place { position: end.position - 1, ..end };
        let before = lemma_scan(state, last);
        let id = ids[last.position];
        ids.lemma_filter_map_take_succ(pick, last.position);
        law_which_panes_show_agents(state, ws, id);
        match state.agent_pane(ws, id) {
            Some(agent) => {
                let places = before.push(last);
                let agents = agents_above(state, last).push(agent);
                assert(agents_above(state, end) =~= agents);
                assert(agent_at(state, last, agent));
                assert forall|place: Place, other: AgentPane| #[trigger]
                    agent_at(state, place, other) && place.above(end) implies places.contains(place) by {
                    if place.above(last) {
                        assert(before.contains(place));
                        let n = choose|n: int| 0 <= n < before.len() && before[n] == place;
                        assert(places[n] == place);
                    } else {
                        assert(place == last);
                        assert(places[before.len() as int] == place);
                    }
                }
                assert forall|n: int| 0 <= n < places.len() implies agent_at(
                    state,
                    #[trigger] places[n],
                    agents[n],
                ) && places[n].above(end) by {
                    if n < before.len() {
                        assert(places[n] == before[n]);
                    }
                }
                assert forall|n: int, m: int| 0 <= n < m < places.len() implies (
                #[trigger] places[n]).above(#[trigger] places[m]) by {
                    assert(places[n] == before[n]);
                    if m < before.len() {
                        assert(places[m] == before[m]);
                    }
                }
                places
            },
            None => {
                assert(agents_above(state, end) =~= agents_above(state, last));
                assert forall|place: Place, agent: AgentPane| #[trigger]
                    agent_at(state, place, agent) implies place.above(last) == place.above(end) by {
                    if place.above(end) && !place.above(last) {
                        assert(place == last);
                        assert(shows(state, ws, id, agent));
                    }
                }
                lemma_sidebar_above_moves(state, last, end, before, agents_above(state, last));
                before
            },
        }
    } else if end.tab > 0 {
        let tab = ws.tabs@[end.tab - 1];
        let all = tab.layout.pane_ids@;
        let last = Place { tab: end.tab - 1, position: all.len() as int, ..end };
        let before = lemma_scan(state, last);
        ws.tabs@.lemma_flat_map_take_append(of_tab, end.tab - 1);
        assert(all.take(all.len() as int) =~= all);
        assert(ids.take(0).filter_map(pick) =~= Seq::empty());
        assert(agents_above(state, end) =~= agents_above(state, last));
        lemma_sidebar_above_moves(state, last, end, before, agents_above(state, last));
        before
    } else if end.workspace > 0 {
        let above = workspaces[end.workspace - 1];
        let last = Place { workspace: end.workspace - 1, tab: above.tabs@.len() as int, position: 0 };
        let before = lemma_scan(state, last);
        workspaces.lemma_flat_map_take_append(of_workspace, end.workspace - 1);
        assert(above.tabs@.take(above.tabs@.len() as int) =~= above.tabs@);
        assert(ws.tabs@.take(0).flat_map(of_tab) =~= Seq::empty());
        assert(ids.take(0).filter_map(pick) =~= Seq::empty());
        assert(agents_above(state, end) =~= agents_above(state, last));
        lemma_sidebar_above_moves(state, last, end, before, agents_above(state, last));
        before
    } else {
        assert(workspaces.take(0).flat_map(of_workspace) =~= Seq::empty());
        assert(ws.tabs@.take(0).flat_map(of_tab) =~= Seq::empty());
        assert(ids.take(0).filter_map(pick) =~= Seq::empty());
        assert(agents_above(state, end) =~= Seq::empty());
        Seq::empty()
    }
}

/// The fleet lists the agents from the top of the sidebar down, workspace by workspace, tab by tab,
/// in the order of each tab's layout: one for each place that shows an agent, none left out and
/// none twice.
pub proof fn law_fleet_is_in_sidebar_order(state: AppState) -> (places: Seq<Place>)
    ensures
        sidebar(state, places, state.agents()),
{
    let end = Place { workspace: state.workspaces@.len() as int, tab: 0, position: 0 };
    let places = lemma_scan(state, end);
    assert(state.workspaces@.take(state.workspaces@.len() as int) =~= state.workspaces@);
    assert forall|place: Place, agent: AgentPane| #[trigger]
        agent_at(state, place, agent) implies places.contains(place) by {
        assert(place.above(end));
    }
    places
}

/// Of two agents, the one that the sidebar lists above the other has the earlier icon.
pub proof fn law_agent_above_has_the_earlier_icon(
    state: AppState,
    upper: Place,
    upper_agent: AgentPane,
    lower: Place,
    lower_agent: AgentPane,
)
    requires
        agent_at(state, upper, upper_agent),
        agent_at(state, lower, lower_agent),
        upper.above(lower),
    ensures
        exists|n: int, m: int|
            0 <= n < m < state.agents().len() && #[trigger] state.agents()[n] == upper_agent
                && #[trigger] state.agents()[m] == lower_agent,
{
    let places = law_fleet_is_in_sidebar_order(state);
    let agents = state.agents();
    assert(places.contains(upper));
    assert(places.contains(lower));
    let n = choose|n: int| 0 <= n < places.len() && places[n] == upper;
    let m = choose|m: int| 0 <= m < places.len() && places[m] == lower;
    assert(n < m) by {
        if m < n {
            assert(places[m].above(places[n]));
        }
    }
    lemma_one_agent_at_a_place(state, upper, upper_agent, agents[n]);
    lemma_one_agent_at_a_place(state, lower, lower_agent, agents[m]);
    assert(agents[n] == upper_agent && agents[m] == lower_agent);
}

proof fn lemma_one_agent_at_a_place(state: AppState, place: Place, a: AgentPane, b: AgentPane)
    requires
        agent_at(state, place, a),
        agent_at(state, place, b),
    ensures
        a == b,
{
    let ws = state.workspaces@[place.workspace];
    law_which_panes_show_agents(
        state,
        ws,
        ws.tabs@[place.tab].layout.pane_ids@[place.position],
    );
}

/// Two lists of the places of one state that show agents are the same.
proof fn lemma_sidebar_is_unique(
    state: AppState,
    places: Seq<Place>,
    agents: Seq<AgentPane>,
    other_places: Seq<Place>,
    other_agents: Seq<AgentPane>,
    n: int,
)
    requires
        sidebar(state, places, agents),
        sidebar(state, other_places, other_agents),
        0 <= n <= places.len(),
    ensures
        n <= other_places.len(),
        forall|m: int| 0 <= m < n ==> #[trigger] places[m] == other_places[m],
    decreases n,
{
    if n > 0 {
        lemma_sidebar_is_unique(state, places, agents, other_places, other_agents, n - 1);
        let place = places[n - 1];
        assert(agent_at(state, place, agents[n - 1]));
        assert(other_places.contains(place));
        let o = choose|o: int| 0 <= o < other_places.len() && other_places[o] == place;
        if o < n - 1 {
            assert(places[o] == other_places[o]);
            assert(places[o].above(places[n - 1]));
        } else if o > n - 1 {
            let other = other_places[n - 1];
            assert(agent_at(state, other, other_agents[n - 1]));
            assert(places.contains(other));
            let p = choose|p: int| 0 <= p < places.len() && places[p] == other;
            assert(other_places[n - 1].above(other_places[o]));
            if p < n - 1 {
                assert(places[p] == other_places[p]);
                assert(other_places[p].above(other_places[n - 1]));
            } else if p > n - 1 {
                assert(places[n - 1].above(places[p]));
            }
        }
    }
}

/// The order of the agents is settled by the layouts, panes and terminals: moving the focus, or
/// going to another tab or workspace, leaves the icon row as it is.
pub proof fn law_focus_does_not_move_icons(state: AppState, other: AppState)
    requires
        state.terminals@ == other.terminals@,
        state.workspaces@.len() == other.workspaces@.len(),
        forall|i: int|
            0 <= i < state.workspaces@.len() ==> (#[trigger] state.workspaces@[i]).tabs@.len()
                == other.workspaces@[i].tabs@.len(),
        forall|i: int, j: int|
            0 <= i < state.workspaces@.len() && 0 <= j < state.workspaces@[i].tabs@.len() ==> {
                let tab = #[trigger] state.workspaces@[i].tabs@[j];
                let other_tab = other.workspaces@[i].tabs@[j];
                &&& tab.layout.pane_ids@ == other_tab.layout.pane_ids@
                &&& tab.panes@ == other_tab.panes@
            },
    ensures
        state.agents() == other.agents(),
{
    let places = law_fleet_is_in_sidebar_order(state);
    let other_places = law_fleet_is_in_sidebar_order(other);
    assert forall|place: Place, agent: AgentPane| #[trigger]
        agent_at(state, place, agent) <==> agent_at(other, place, agent) by {
        lemma_same_panes_show_same(state, other, place, agent);
    }
    assert(sidebar(state, other_places, other.agents())) by {
        assert forall|n: int| 0 <= n < other_places.len() implies agent_at(
            state,
            #[trigger] other_places[n],
            other.agents()[n],
        ) by {
            lemma_same_panes_show_same(state, other, other_places[n], other.agents()[n]);
        }
    }
    lemma_sidebar_is_unique(
        state,
        places,
        state.agents(),
        other_places,
        other.agents(),
        places.len() as int,
    );
    lemma_sidebar_is_unique(
        state,
        other_places,
        other.agents(),
        places,
        state.agents(),
        other_places.len() as int,
    );
    assert forall|n: int| 0 <= n < state.agents().len() implies state.agents()[n]
        == other.agents()[n] by {
        assert(places[n] == other_places[n]);
        lemma_one_agent_at_a_place(state, places[n], state.agents()[n], other.agents()[n]);
    }
    assert(state.agents() =~= other.agents());
}

proof fn lemma_same_panes_show_same(
    state: AppState,
    other: AppState,
    place: Place,
    agent: AgentPane,
)
    requires
        state.terminals@ == other.terminals@,
        state.workspaces@.len() == other.workspaces@.len(),
        forall|i: int|
            0 <= i < state.workspaces@.len() ==> (#[trigger] state.workspaces@[i]).tabs@.len()
                == other.workspaces@[i].tabs@.len(),
        forall|i: int, j: int|
            0 <= i < state.workspaces@.len() && 0 <= j < state.workspaces@[i].tabs@.len() ==> {
                let tab = #[trigger] state.workspaces@[i].tabs@[j];
                let other_tab = other.workspaces@[i].tabs@[j];
                &&& tab.layout.pane_ids@ == other_tab.layout.pane_ids@
                &&& tab.panes@ == other_tab.panes@
            },
    ensures
        agent_at(state, place, agent) <==> agent_at(other, place, agent),
{
    let i = place.workspace;
    let j = place.tab;
    if 0 <= i < state.workspaces@.len() && 0 <= j < state.workspaces@[i].tabs@.len() {
        let ws = state.workspaces@[i];
        let other_ws = other.workspaces@[i];
        assert(ws.tabs@.len() == other_ws.tabs@.len());
        assert(ws.tabs@[j].layout.pane_ids@ == other_ws.tabs@[j].layout.pane_ids@);
        let id = ws.tabs@[j].layout.pane_ids@[place.position];
        assert forall|t: int| #[trigger] first_holder(ws, id, t) == first_holder(other_ws, id, t) by {
            assert forall|m: int| 0 <= m < ws.tabs@.len() implies #[trigger] ws.tabs@[m].panes@
                == other_ws.tabs@[m].panes@ by {
                assert(state.workspaces@[i].tabs@[m].panes@ == other.workspaces@[i].tabs@[m].panes@);
            }
            if first_holder(ws, id, t) {
                assert forall|m: int| 0 <= m < t implies !(
                #[trigger] other_ws.tabs@[m]).panes@.contains_key(id) by {
                    assert(!ws.tabs@[m].panes@.contains_key(id));
                }
            }
            if first_holder(other_ws, id, t) {
                assert forall|m: int| 0 <= m < t implies !(
                #[trigger] ws.tabs@[m]).panes@.contains_key(id) by {
                    assert(!other_ws.tabs@[m].panes@.contains_key(id));
                }
            }
        }
        if shows(state, ws, id, agent) {
            let t = choose|t: int| #[trigger]
                first_holder(ws, id, t) && makes_agent(state, ws.tabs@[t].panes@[id], agent);
            assert(state.workspaces@[i].tabs@[t].panes@ == other.workspaces@[i].tabs@[t].panes@);
            assert(first_holder(other_ws, id, t) && makes_agent(
                other,
                other_ws.tabs@[t].panes@[id],
                agent,
            ));
        }
        if shows(other, other_ws, id, agent) {
            let t = choose|t: int| #[trigger]
                first_holder(other_ws, id, t) && makes_agent(
                    other,
                    other_ws.tabs@[t].panes@[id],
                    agent,
                );
            assert(first_holder(ws, id, t));
            assert(state.workspaces@[i].tabs@[t].panes@ == other.workspaces@[i].tabs@[t].panes@);
            assert(makes_agent(state, ws.tabs@[t].panes@[id], agent));
        }
    }
}

proof fn lemma_filter_map_first<A, B>(s: Seq<A>, f: spec_fn(A) -> Option<B>, k: int, n: int)
    requires
        0 <= k < n <= s.len(),
        f(s[k]) is Some,
        forall|m: int| 0 <= m < k ==> f(#[trigger] s[m]) is None,
    ensures
        s.take(n).filter_map(f).len() > 0,
        Some(s.take(n).filter_map(f)[0]) == f(s[k]),
    decreases n,
{
    s.lemma_filter_map_take_succ(f, n - 1);
    if n - 1 > k {
        lemma_filter_map_first(s, f, k, n - 1);
    } else {
        lemma_filter_map_none(s, f, k);
    }
}

proof fn lemma_filter_map_none<A, B>(s: Seq<A>, f: spec_fn(A) -> Option<B>, n: int)
    requires
        0 <= n <= s.len(),
        forall|m: int| 0 <= m < n ==> f(#[trigger] s[m]) is None,
    ensures
        s.take(n).filter_map(f).len() == 0,
    decreases n,
{
    if n > 0 {
        s.lemma_filter_map_take_succ(f, n - 1);
        lemma_filter_map_none(s, f, n - 1);
    } else {
        assert(s.take(0) =~= Seq::empty());
    }
}

/// If the layout of the active tab lists its focused pane and that pane shows an agent, whatever
/// the agent does, the body speaks of that agent.
pub proof fn law_focused_agent_wins(state: AppState, i: usize, agent: AgentPane)
    requires
        state.active == Some(i),
        i < state.workspaces@.len(),
        ({
            let ws = state.workspaces@[i as int];
            let layout = ws.tabs@[ws.active_tab as int].layout;
            &&& ws.active_tab < ws.tabs@.len()
            &&& layout.pane_ids@.contains(layout.focused)
            &&& shows(state, ws, layout.focused, agent)
        }),
    ensures
        state.active_agent() == Some(agent.terminal_id),
{
    let ws = state.workspaces@[i as int];
    law_which_panes_show_agents(state, ws, ws.tabs@[ws.active_tab as int].layout.focused);
}

/// If the focused pane of the active tab is not listed or shows no agent, the body speaks of the
/// agent in the first pane of the layout that shows one.
pub proof fn law_else_the_first_agent(state: AppState, i: usize, k: int, agent: AgentPane)
    requires
        state.active == Some(i),
        i < state.workspaces@.len(),
        ({
            let ws = state.workspaces@[i as int];
            let layout = ws.tabs@[ws.active_tab as int].layout;
            let ids = layout.pane_ids@;
            &&& ws.active_tab < ws.tabs@.len()
            &&& !ids.contains(layout.focused) || (forall|other: AgentPane|
                !#[trigger] shows(state, ws, layout.focused, other))
            &&& 0 <= k < ids.len()
            &&& shows(state, ws, ids[k], agent)
            &&& forall|m: int, other: AgentPane|
                0 <= m < k ==> !#[trigger] shows(state, ws, ids[m], other)
        }),
    ensures
        state.active_agent() == Some(agent.terminal_id),
{
    let ws = state.workspaces@[i as int];
    let layout = ws.tabs@[ws.active_tab as int].layout;
    let ids = layout.pane_ids@;
    let pick = |id: PaneId| state.agent_pane(ws, id);
    law_which_panes_show_agents(state, ws, layout.focused);
    law_which_panes_show_agents(state, ws, ids[k]);
    assert forall|m: int| 0 <= m < k implies pick(#[trigger] ids[m]) is None by {
        law_which_panes_show_agents(state, ws, ids[m]);
        if state.agent_pane(ws, ids[m]) is Some {
            assert(shows(state, ws, ids[m], state.agent_pane(ws, ids[m])->0));
        }
    }
    if state.agent_pane(ws, layout.focused) is Some {
        assert(shows(state, ws, layout.focused, state.agent_pane(ws, layout.focused)->0));
    }
    lemma_filter_map_first(ids, pick, k, ids.len() as int);
    assert(ids.take(ids.len() as int) =~= ids);
}

/// If no pane that the active tab lists shows an agent, the body speaks of none.
pub proof fn law_active_tab_without_agent(state: AppState, i: usize)
    requires
        state.active == Some(i),
        i < state.workspaces@.len(),
        ({
            let ws = state.workspaces@[i as int];
            let ids = ws.tabs@[ws.active_tab as int].layout.pane_ids@;
            &&& ws.active_tab < ws.tabs@.len()
            &&& forall|m: int, other: AgentPane|
                0 <= m < ids.len() ==> !#[trigger] shows(state, ws, ids[m], other)
        }),
    ensures
        state.active_agent() is None,
{
    let ws = state.workspaces@[i as int];
    let layout = ws.tabs@[ws.active_tab as int].layout;
    let ids = layout.pane_ids@;
    let pick = |id: PaneId| state.agent_pane(ws, id);
    assert forall|m: int| 0 <= m < ids.len() implies pick(#[trigger] ids[m]) is None by {
        law_which_panes_show_agents(state, ws, ids[m]);
        if state.agent_pane(ws, ids[m]) is Some {
            assert(shows(state, ws, ids[m], state.agent_pane(ws, ids[m])->0));
        }
    }
    lemma_filter_map_none(ids, pick, ids.len() as int);
    assert(ids.take(ids.len() as int) =~= ids);
}

/// Without an active workspace, or without an active tab in it, the body speaks of no agent.
pub proof fn law_no_active_tab_no_agent(state: AppState)
    requires
        match state.active {
            Some(i) => i >= state.workspaces@.len() || state.workspaces@[i as int].active_tab
                >= state.workspaces@[i as int].tabs@.len(),
            None => true,
        },
    ensures
        state.active_agent() is None,
{
}

/// Some agent of the fleet is in a given state exactly when some place of the sidebar shows one
/// that is.
pub proof fn law_fleet_state_is_that_of_a_shown_agent(state: AppState, what: AgentState)
    ensures
        crate::window_title::any_in(state.agents(), what) <==> exists|place: Place, agent: AgentPane|
            #[trigger] agent_at(state, place, agent) && agent.state == what,
{
    let places = law_fleet_is_in_sidebar_order(state);
    let agents = state.agents();
    if crate::window_title::any_in(agents, what) {
        let n = choose|n: int| 0 <= n < agents.len() && (#[trigger] agents[n]).state == what;
        assert(agent_at(state, places[n], agents[n]) && agents[n].state == what);
    }
    if exists|place: Place, agent: AgentPane| #[trigger]
        agent_at(state, place, agent) && agent.state == what {
        let (place, agent) = choose|place: Place, agent: AgentPane| #[trigger]
            agent_at(state, place, agent) && agent.state == what;
        assert(places.contains(place));
        let n = choose|n: int| 0 <= n < places.len() && places[n] == place;
        lemma_one_agent_at_a_place(state, place, agent, agents[n]);
        assert(agents[n].state == what);
    }
}

} // verus!
