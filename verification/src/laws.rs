//! What holds of the window title as a whole.

use crate::fleet::AgentPane;
use crate::state::AgentState;
use crate::state::AppState;
use crate::state::PaneId;
use crate::state::Tab;
use crate::state::TerminalId;
use crate::state::Workspace;
use crate::window_title::App;
use vstd::prelude::*;

verus! {

/// Exactly one leading spinner glyph is stripped, with the whitespace around it.
pub proof fn law_one_leading_spinner_is_stripped(blank: Seq<char>, glyph: char, rest: Seq<char>)
    requires
        forall|i: int| 0 <= i < blank.len() ==> crate::text::whitespace(#[trigger] blank[i]),
        crate::spinner::spinner_glyph(glyph),
    ensures
        crate::spinner::without_spinner(blank + seq![glyph] + rest) == crate::text::trimmed_start(
            rest,
        ),
{
    let tail = seq![glyph] + rest;
    assert(blank + seq![glyph] + rest =~= blank + tail);
    crate::text::lemma_trimmed_start_skips(blank, tail);
    assert(!crate::text::whitespace(glyph));
    assert(tail.first() == glyph);
    assert(tail.drop_first() =~= rest);
}

/// A title that does not lead with a spinner glyph only loses its leading whitespace.
pub proof fn law_ordinary_title_is_kept(blank: Seq<char>, text: Seq<char>)
    requires
        forall|i: int| 0 <= i < blank.len() ==> crate::text::whitespace(#[trigger] blank[i]),
        text.len() > 0,
        !crate::text::whitespace(text.first()),
        !crate::spinner::spinner_glyph(text.first()),
    ensures
        crate::spinner::without_spinner(blank + text) == text,
{
    crate::text::lemma_trimmed_start_skips(blank, text);
}

/// The body is never empty, and it neither begins nor ends with whitespace.
pub proof fn law_body_is_clean(title: Option<Seq<char>>, idle: Seq<char>)
    ensures
        ({
            let body = crate::window_title::body_text(title, idle);
            &&& body.len() > 0
            &&& !crate::text::whitespace(body.first())
            &&& !crate::text::whitespace(body.last())
        }),
{
    reveal_strlit("herdr");
    if title is Some {
        crate::text::law_trimmed_is_clean(crate::spinner::without_spinner(title->0));
    }
    crate::text::law_trimmed_is_clean(idle);
}

/// Whatever the icons, the title ends with the body, and what stands before the body depends on
/// the icons alone.
pub proof fn law_icons_never_change_the_body(
    icons: Seq<Seq<char>>,
    body: Seq<char>,
    other_body: Seq<char>,
)
    ensures
        ({
            let title = crate::window_title::title_text(icons, body);
            let other = crate::window_title::title_text(icons, other_body);
            &&& title.len() >= body.len()
            &&& title.skip(title.len() - body.len()) == body
            &&& title.take(title.len() - body.len()) == other.take(other.len() - other_body.len())
        }),
{
    let title = crate::window_title::title_text(icons, body);
    let other = crate::window_title::title_text(icons, other_body);
    assert(title.skip(title.len() - body.len()) =~= body);
    assert(title.take(title.len() - body.len()) =~= other.take(other.len() - other_body.len()));
}

/// The title of an agent, if there is anything in it but a spinner, is what the body shows,
/// whatever the idle fallback.
pub proof fn law_agent_title_beats_idle_fallback(title: Seq<char>, idle: Seq<char>)
    requires
        crate::text::trimmed(crate::spinner::without_spinner(title)).len() > 0,
    ensures
        crate::window_title::body_text(Some(title), idle) == crate::text::trimmed(
            crate::spinner::without_spinner(title),
        ),
{
}

/// A title with nothing in it but a spinner counts as none.
pub proof fn law_blank_title_is_no_title(title: Seq<char>, idle: Seq<char>)
    requires
        crate::text::trimmed(crate::spinner::without_spinner(title)).len() == 0,
    ensures
        crate::window_title::body_text(Some(title), idle) == crate::window_title::body_text(
            None,
            idle,
        ),
{
}

/// The spinner that an agent leads its title with does not appear in the body, which is the text
/// behind it.
pub proof fn law_spinner_is_not_doubled(
    blank: Seq<char>,
    glyph: char,
    rest: Seq<char>,
    idle: Seq<char>,
)
    requires
        forall|i: int| 0 <= i < blank.len() ==> crate::text::whitespace(#[trigger] blank[i]),
        crate::spinner::spinner_glyph(glyph),
        crate::text::trimmed(rest).len() > 0,
    ensures
        crate::window_title::body_text(Some(blank + seq![glyph] + rest), idle)
            == crate::text::trimmed(rest),
{
    law_one_leading_spinner_is_stripped(blank, glyph, rest);
    crate::text::lemma_trimmed_start_twice(rest);
}

/// With no agent title and a blank idle fallback the body is the default title.
pub proof fn law_nothing_to_show_is_the_default(idle: Seq<char>)
    requires
        crate::text::trimmed(idle).len() == 0,
    ensures
        crate::window_title::body_text(None, idle) == "herdr"@,
{
}

/// A pane's agent is among the agents of the tab whose layout lists the pane.
proof fn lemma_pane_agent_is_listed(state: AppState, ws: Workspace, tab: Tab, id: PaneId)
    requires
        tab.layout.pane_ids@.contains(id),
        state.agent_pane(ws, id) is Some,
    ensures
        state.tab_agents(ws, tab).contains(state.agent_pane(ws, id)->0),
{
    let pick = |id: PaneId| state.agent_pane(ws, id);
    lemma_filter_map_keeps(tab.layout.pane_ids@, pick, id);
}

proof fn lemma_filter_map_keeps<A, B>(s: Seq<A>, f: spec_fn(A) -> Option<B>, a: A)
    requires
        s.contains(a),
        f(a) is Some,
    ensures
        s.filter_map(f).contains(f(a)->0),
    decreases s.len(),
{
    let rest = s.drop_last();
    let mapped = s.filter_map(f);
    if s.last() == a {
        assert(mapped.last() == f(a)->0);
    } else {
        let i = choose|i: int| 0 <= i < s.len() && s[i] == a;
        assert(rest[i] == a);
        lemma_filter_map_keeps(rest, f, a);
        let before = rest.filter_map(f);
        let j = choose|j: int| 0 <= j < before.len() && before[j] == f(a)->0;
        assert(mapped[j] == before[j]);
    }
}

proof fn lemma_flat_map_keeps<A, B>(s: Seq<A>, f: spec_fn(A) -> Seq<B>, i: int, b: B)
    requires
        0 <= i < s.len(),
        f(s[i]).contains(b),
    ensures
        s.flat_map(f).contains(b),
    decreases s.len(),
{
    let rest = s.drop_last();
    assert(s =~= rest.push(s.last()));
    rest.lemma_flat_map_push(f, s.last());
    let before = rest.flat_map(f);
    let whole = s.flat_map(f);
    if i < rest.len() {
        lemma_flat_map_keeps(rest, f, i, b);
        let j = choose|j: int| 0 <= j < before.len() && before[j] == b;
        assert(whole[j] == b);
    } else {
        let last = f(s[i]);
        let j = choose|j: int| 0 <= j < last.len() && last[j] == b;
        assert(whole[before.len() + j] == b);
    }
}

proof fn lemma_flat_map_source<A, B>(s: Seq<A>, f: spec_fn(A) -> Seq<B>, b: B) -> (i: int)
    requires
        s.flat_map(f).contains(b),
    ensures
        0 <= i < s.len(),
        f(s[i]).contains(b),
    decreases s.len(),
{
    let whole = s.flat_map(f);
    let j = choose|j: int| 0 <= j < whole.len() && whole[j] == b;
    assert(s.len() > 0);
    let rest = s.drop_last();
    assert(s =~= rest.push(s.last()));
    rest.lemma_flat_map_push(f, s.last());
    let before = rest.flat_map(f);
    if j < before.len() {
        assert(before[j] == b);
        lemma_flat_map_source(rest, f, b)
    } else {
        assert(f(s.last())[j - before.len()] == b);
        s.len() - 1
    }
}

/// Whether `agent` is in a pane that the layout of some tab lists.
pub open spec fn shown_somewhere(state: AppState, agent: AgentPane) -> bool {
    exists|i: int, j: int, k: int| #[trigger] shown_at(state, i, j, k, agent)
}

/// Whether `agent` is in the pane that comes at `k` in the tab at `j` in the workspace at `i`.
pub open spec fn shown_at(state: AppState, i: int, j: int, k: int, agent: AgentPane) -> bool {
    &&& 0 <= i < state.workspaces@.len()
    &&& 0 <= j < state.workspaces@[i].tabs@.len()
    &&& 0 <= k < state.workspaces@[i].tabs@[j].layout.pane_ids@.len()
    &&& state.agent_pane(
        state.workspaces@[i],
        state.workspaces@[i].tabs@[j].layout.pane_ids@[k],
    ) == Some(agent)
}

/// Every agent in a pane of any tab of any workspace has an icon, and nothing else has.
pub proof fn law_icons_are_for_the_agents_in_all_tabs(state: AppState, agent: AgentPane)
    ensures
        state.agents().contains(agent) <==> shown_somewhere(state, agent),
{
    let of_workspace = |ws: Workspace| state.workspace_agents(ws);
    if state.agents().contains(agent) {
        let i = lemma_flat_map_source(state.workspaces@, of_workspace, agent);
        let ws = state.workspaces@[i];
        let of_tab = |tab: Tab| state.tab_agents(ws, tab);
        let j = lemma_flat_map_source(ws.tabs@, of_tab, agent);
        let ids = ws.tabs@[j].layout.pane_ids@;
        let pick = |id: PaneId| state.agent_pane(ws, id);
        ids.lemma_filter_map_contains(pick, agent);
        let id = choose|id: PaneId| #[trigger] ids.contains(id) && pick(id) == Some(agent);
        let k = choose|k: int| 0 <= k < ids.len() && ids[k] == id;
        assert(shown_at(state, i, j, k, agent));
    }
    if shown_somewhere(state, agent) {
        let (i, j, k) = choose|i: int, j: int, k: int| #[trigger] shown_at(state, i, j, k, agent);
        let ws = state.workspaces@[i];
        let tab = ws.tabs@[j];
        let id = tab.layout.pane_ids@[k];
        assert(tab.layout.pane_ids@.contains(id));
        lemma_pane_agent_is_listed(state, ws, tab, id);
        let of_tab = |tab: Tab| state.tab_agents(ws, tab);
        lemma_flat_map_keeps(ws.tabs@, of_tab, j, agent);
        lemma_flat_map_keeps(state.workspaces@, of_workspace, i, agent);
    }
}

/// The agent that the body speaks of is one of those in the icon row.
pub proof fn law_body_agent_has_an_icon(state: AppState)
    requires
        state.active_agent() is Some,
    ensures
        exists|i: int|
            0 <= i < state.agents().len() && Some((#[trigger] state.agents()[i]).terminal_id)
                == state.active_agent(),
{
    let ws = state.current_workspace()->0;
    let tab = ws.current_tab()->0;
    let agents = state.tab_agents(ws, tab);
    let focused = tab.layout.focused;
    let agent = if tab.layout.pane_ids@.contains(focused) && state.agent_pane(ws, focused) is Some {
        state.agent_pane(ws, focused)->0
    } else {
        agents[0]
    };
    if tab.layout.pane_ids@.contains(focused) && state.agent_pane(ws, focused) is Some {
        lemma_pane_agent_is_listed(state, ws, tab, focused);
    }
    assert(agents.contains(agent));
    let of_tab = |tab: Tab| state.tab_agents(ws, tab);
    lemma_flat_map_keeps(ws.tabs@, of_tab, ws.active_tab as int, agent);
    let of_workspace = |ws: Workspace| state.workspace_agents(ws);
    lemma_flat_map_keeps(state.workspaces@, of_workspace, state.active->0 as int, agent);
    assert(state.agents().contains(agent));
}

/// There is no body agent exactly when there is no active tab or no agent in it.
pub proof fn law_no_body_agent_means_no_agent_in_the_active_tab(state: AppState)
    ensures
        state.active_agent() is None <==> match state.current_workspace() {
            Some(ws) => match ws.current_tab() {
                Some(tab) => state.tab_agents(ws, tab).len() == 0,
                None => true,
            },
            None => true,
        },
{
    if state.current_workspace() is Some {
        let ws = state.current_workspace()->0;
        if ws.current_tab() is Some {
            let tab = ws.current_tab()->0;
            let focused = tab.layout.focused;
            if tab.layout.pane_ids@.contains(focused) && state.agent_pane(ws, focused) is Some {
                lemma_pane_agent_is_listed(state, ws, tab, focused);
            }
        }
    }
}

proof fn lemma_listed_agent_is_registered(state: AppState, ws: Workspace, tab: Tab, i: int)
    requires
        state.well_formed(),
        0 <= i < state.tab_agents(ws, tab).len(),
    ensures
        ({
            let id = state.tab_agents(ws, tab)[i].terminal_id;
            state.terminal(id) is Some && state.terminal(id)->0.agent()
        }),
{
    let pick = |id: PaneId| state.agent_pane(ws, id);
    let agents = state.tab_agents(ws, tab);
    assert(agents.contains(agents[i]));
    tab.layout.pane_ids@.lemma_filter_map_contains(pick, agents[i]);
}

/// The agent in the active tab always has a title or a label for the body to show: there is none
/// exactly when there is no such agent.
pub proof fn law_active_agent_has_a_title(app: App)
    requires
        app.state.well_formed(),
    ensures
        app.active_title() is Some <==> app.state.active_agent() is Some,
{
    let state = app.state;
    if state.active_agent() is Some {
        let ws = state.current_workspace()->0;
        let tab = ws.current_tab()->0;
        let focused = tab.layout.focused;
        if !(tab.layout.pane_ids@.contains(focused) && state.agent_pane(ws, focused) is Some) {
            lemma_listed_agent_is_registered(state, ws, tab, 0);
        }
    }
}

/// The live title of the agent in the active tab, if there is anything in it but a spinner, is what
/// the body shows.
pub proof fn law_live_title_is_mirrored(app: App, id: TerminalId)
    requires
        app.state.active_agent() == Some(id),
        app.terminal_runtimes@.contains_key(id),
        crate::text::trimmed(
            crate::spinner::without_spinner(app.terminal_runtimes@[id].agent_osc_title@),
        ).len() > 0,
    ensures
        crate::window_title::body_text(app.active_title(), app.idle_text()) == crate::text::trimmed(
            crate::spinner::without_spinner(app.terminal_runtimes@[id].agent_osc_title@),
        ),
{
    let title = app.terminal_runtimes@[id].agent_osc_title@;
    let start = crate::text::trimmed_start(title);
    let cut = crate::text::lemma_trimmed_start(title);
    if start.len() > 0 && crate::spinner::spinner_glyph(start.first()) {
        let behind = crate::text::lemma_trimmed_start(start.drop_first());
        assert(start.drop_first().skip(behind) =~= title.skip(cut + 1 + behind));
        crate::text::lemma_trimmed_not_blank(title, cut + 1 + behind);
    } else {
        crate::text::lemma_trimmed_not_blank(title, cut);
    }
}

/// An agent whose live title is missing or blank is shown by its own label, not by the idle
/// fallback, as long as the label holds more than a spinner.
pub proof fn law_untitled_agent_shows_its_label(app: App, id: TerminalId)
    requires
        app.state.well_formed(),
        app.state.active_agent() == Some(id),
        app.terminal_runtimes@.contains_key(id) ==> crate::text::trimmed(
            app.terminal_runtimes@[id].agent_osc_title@,
        ).len() == 0,
        ({
            let label = crate::window_title::fallback_title(app.state.terminals@[id]);
            crate::text::trimmed(crate::spinner::without_spinner(label->0)).len() > 0
        }),
    ensures
        ({
            let label = crate::window_title::fallback_title(app.state.terminals@[id]);
            &&& label is Some
            &&& crate::window_title::body_text(app.active_title(), app.idle_text())
                == crate::text::trimmed(crate::spinner::without_spinner(label->0))
        }),
{
    law_active_agent_has_a_title(app);
}

/// There is one icon for each agent, and those that animate show the frame's glyph.
pub proof fn law_one_icon_per_agent(app: App, frame: u32)
    ensures
        ({
            let agents = app.state.agents();
            let icons = app.icons_of(agents, frame);
            &&& icons.len() == agents.len()
            &&& forall|i: int|
                0 <= i < agents.len() && (#[trigger] agents[i]).state == AgentState::Working
                    ==> icons[i] == app.glyphs.spinner.glyph(frame as nat)
            &&& forall|i: int|
                0 <= i < agents.len() && (#[trigger] agents[i]).state == AgentState::Blocked
                    ==> icons[i] == app.glyphs.blocked_pulse.glyph(frame as nat)
        }),
{
}

/// While no agent is working or blocked, the icons, and with them the title, are the same in every
/// frame: no animation tick is needed.
pub proof fn law_title_at_rest_does_not_animate(app: App, frame: u32, other: u32)
    requires
        !crate::window_title::any_in(app.state.agents(), AgentState::Working),
        !crate::window_title::any_in(app.state.agents(), AgentState::Blocked),
    ensures
        app.title(frame) == app.title(other),
{
    let agents = app.state.agents();
    assert forall|i: int| 0 <= i < agents.len() implies app.icons_of(agents, frame)[i]
        == app.icons_of(agents, other)[i] by {
        assert(agents[i].state != AgentState::Working);
        assert(agents[i].state != AgentState::Blocked);
    }
    assert(app.icons_of(agents, frame) =~= app.icons_of(agents, other));
}

/// With no agent in the active tab the body is the idle fallback.
pub proof fn law_no_agent_shows_idle_fallback(app: App)
    requires
        app.state.active_agent() is None,
        crate::text::trimmed(app.idle_text()).len() > 0,
    ensures
        crate::window_title::body_text(app.active_title(), app.idle_text()) == crate::text::trimmed(
            app.idle_text(),
        ),
{
}

/// With no agents, no active workspace and no template the whole title is the default.
pub proof fn law_empty_app_shows_the_default(app: App, frame: u32)
    requires
        app.state.agents().len() == 0,
        app.state.current_workspace() is None,
        crate::text::trimmed(app.state.window_title_format@).len() == 0,
    ensures
        app.title(frame) == "herdr"@,
{
    reveal_strlit("herdr");
    let text = "herdr"@;
    assert(crate::text::trimmed_start(text) == text);
    assert(crate::text::trimmed_end(text) == text);
}

/// The title is never empty, and it never ends with whitespace.
pub proof fn law_title_is_never_blank(app: App, frame: u32)
    ensures
        app.title(frame).len() > 0,
        !crate::text::whitespace(app.title(frame).last()),
{
    law_body_is_clean(app.active_title(), app.idle_text());
}

} // verus!
