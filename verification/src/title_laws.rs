//! What holds of the pieces of the title and of their composition. The laws speak of the texts
//! themselves: of whitespace, glyphs and the text between them, of the fields of a terminal, and of
//! the tab and the workspace at the active index.

use crate::fleet_laws::Place;
use crate::fleet::AgentPane;
use crate::glyphs::Animation;
use crate::glyphs::Glyphs;
use crate::state::AgentState;
use crate::state::TerminalId;
use crate::state::TerminalState;
use crate::window_title::App;
use vstd::prelude::*;

verus! {

/// Whether `s` holds nothing but whitespace.
pub open spec fn blank(s: Seq<char>) -> bool {
    forall|i: int| 0 <= i < s.len() ==> crate::text::whitespace(#[trigger] s[i])
}

/// Whether `s` is not empty and has no whitespace at either end.
pub open spec fn clean(s: Seq<char>) -> bool {
    &&& s.len() > 0
    &&& !crate::text::whitespace(s[0])
    &&& !crate::text::whitespace(s[s.len() - 1])
}

/// Trimming the start leaves what follows the leading whitespace.
pub proof fn law_trimming_the_start(before: Seq<char>, text: Seq<char>)
    requires
        blank(before),
        text.len() > 0 ==> !crate::text::whitespace(text[0]),
    ensures
        crate::text::trimmed_start(before + text) == text,
{
    crate::text::lemma_trimmed_start_skips(before, text);
}

/// Trimming leaves the text between leading and trailing whitespace.
pub proof fn law_trimming(before: Seq<char>, text: Seq<char>, after: Seq<char>)
    requires
        blank(before),
        clean(text),
        blank(after),
    ensures
        crate::text::trimmed(before + text + after) == text,
{
    let start = text + after;
    assert(before + text + after =~= before + start);
    law_trimming_the_start(before, start);
    let kept = crate::text::lemma_trimmed_end(start);
    if kept > text.len() {
        assert(start[kept - 1] == after[kept - 1 - text.len()]);
    }
    if kept < text.len() {
        assert(start[text.len() - 1] == text[text.len() - 1]);
    }
    assert(start.take(kept) =~= text);
}

/// Trimming leaves nothing exactly of blank text.
pub proof fn law_only_blank_text_is_trimmed_away(s: Seq<char>)
    ensures
        crate::text::trimmed(s).len() == 0 <==> blank(s),
{
    let cut = crate::text::lemma_trimmed_start(s);
    let start = crate::text::trimmed_start(s);
    let kept = crate::text::lemma_trimmed_end(start);
    if cut < s.len() {
        assert(start[0] == s[cut]);
    }
}

/// Joined by spaces, every part is followed by one space, but for the last.
pub proof fn law_joining(parts: Seq<Seq<char>>)
    ensures
        parts.len() == 0 ==> crate::text::spaced(parts) == Seq::<char>::empty(),
        parts.len() > 0 ==> crate::text::spaced(parts).push(' ') == parts.flat_map(
            |part: Seq<char>| part.push(' '),
        ),
    decreases parts.len(),
{
    let followed = |part: Seq<char>| part.push(' ');
    if parts.len() > 0 {
        let init = parts.drop_last();
        let last = parts.last();
        assert(parts =~= init.push(last));
        init.lemma_flat_map_push(followed, last);
        law_joining(init);
        if parts.len() == 1 {
            assert(init.flat_map(followed) =~= Seq::empty());
            assert(crate::text::spaced(parts).push(' ') =~= parts.flat_map(followed));
        } else {
            assert(crate::text::spaced(parts).push(' ') =~= parts.flat_map(followed));
        }
    }
}

/// The views of strings are their characters.
pub proof fn law_texts_are_the_characters(s: String, part: &str, parts: Seq<&str>)
    ensures
        crate::text::text_of(Some(s)) == Some(s@),
        crate::text::text_of(None) is None,
        crate::window_title::str_text(Some(part)) == Some(part@),
        crate::window_title::str_text(None) is None,
        crate::text::texts(parts).len() == parts.len(),
        forall|i: int|
            0 <= i < parts.len() ==> #[trigger] crate::text::texts(parts)[i] == parts[i]@,
{
}

/// The spinner glyphs are those of the Braille Patterns block and ten stars and sparkles, and no
/// others.
pub proof fn law_spinner_glyphs(c: char)
    ensures
        crate::spinner::spinner_glyph(c) <==> {
            ||| '\u{2800}' as int <= c as int <= '\u{28ff}' as int
            ||| c == '\u{2722}' || c == '\u{2725}' || c == '\u{2726}' || c == '\u{2727}'
            ||| c == '\u{2733}' || c == '\u{2736}' || c == '\u{273b}' || c == '\u{273d}'
            ||| c == '\u{2742}' || c == '\u{274b}'
        },
{
    let stars = seq!['✶', '✳', '✻', '✽', '✢', '✥', '✦', '✧', '❋', '❂'];
    assert(stars[0] == '✶' && stars[1] == '✳' && stars[2] == '✻' && stars[3] == '✽');
    assert(stars[4] == '✢' && stars[5] == '✥' && stars[6] == '✦' && stars[7] == '✧');
    assert(stars[8] == '❋' && stars[9] == '❂');
}

/// Of a blank title nothing is left.
pub proof fn law_blank_title_is_stripped_away(title: Seq<char>)
    requires
        blank(title),
    ensures
        crate::spinner::without_spinner(title) == Seq::<char>::empty(),
{
    assert(title + Seq::empty() =~= title);
    law_trimming_the_start(title, Seq::empty());
}

/// A template without `{` stands for itself.
pub proof fn law_template_without_tokens(
    format: Seq<char>,
    workspace: Seq<char>,
    tab: Seq<char>,
)
    requires
        !format.contains('{'),
    ensures
        crate::template::substituted(format, workspace, tab) == format,
{
    crate::template::law_literal_text_is_kept(format, Seq::empty(), workspace, tab);
    assert(format + Seq::empty() =~= format);
}

/// All icons stand in the title in order, each followed by one space, and then the body. Only a
/// sole icon that is empty leaves no space.
pub proof fn law_every_icon_stands_in_the_title(icons: Seq<Seq<char>>, body: Seq<char>)
    ensures
        crate::window_title::title_text(icons, body) == if icons.len() == 1 && icons[0].len() == 0 {
            body
        } else {
            icons.flat_map(|icon: Seq<char>| icon.push(' ')) + body
        },
{
    let followed = |icon: Seq<char>| icon.push(' ');
    law_joining(icons);
    if icons.len() == 0 {
        assert(icons.flat_map(followed) =~= Seq::empty());
        assert(icons.flat_map(followed) + body =~= body);
    } else if icons.len() >= 2 {
        let init = icons.drop_last();
        assert(icons =~= init.push(icons.last()));
        init.lemma_flat_map_push(followed, icons.last());
        let head = init.drop_last();
        assert(init =~= head.push(init.last()));
        head.lemma_flat_map_push(followed, init.last());
        assert(icons.flat_map(followed).len() >= 2);
    } else {
        assert(Seq::<Seq<char>>::empty().push(icons[0]) =~= icons);
        Seq::<Seq<char>>::empty().lemma_flat_map_push(followed, icons[0]);
        assert(Seq::<Seq<char>>::empty().flat_map(followed) =~= Seq::empty());
    }
}

/// One more agent puts its icon and one space between the other icons and the body.
pub proof fn law_one_more_icon(icons: Seq<Seq<char>>, icon: Seq<char>, body: Seq<char>)
    requires
        exists|i: int| 0 <= i < icons.len() && (#[trigger] icons[i]).len() > 0,
    ensures
        ({
            let title = crate::window_title::title_text(icons, body);
            let row = title.take(title.len() - body.len());
            crate::window_title::title_text(icons.push(icon), body) == row + icon + seq![' '] + body
        }),
        icon.len() > 0 ==> crate::window_title::title_text(seq![icon], body) == icon + seq![' ']
            + body,
        crate::window_title::title_text(Seq::empty(), body) == body,
{
    let followed = |icon: Seq<char>| icon.push(' ');
    law_every_icon_stands_in_the_title(icons, body);
    law_every_icon_stands_in_the_title(icons.push(icon), body);
    law_every_icon_stands_in_the_title(seq![icon], body);
    law_every_icon_stands_in_the_title(Seq::empty(), body);
    icons.lemma_flat_map_push(followed, icon);
    assert(Seq::<Seq<char>>::empty().flat_map(followed) =~= Seq::empty());
    Seq::<Seq<char>>::empty().lemma_flat_map_push(followed, icon);
    assert(Seq::<Seq<char>>::empty().push(icon) =~= seq![icon]);
    let title = crate::window_title::title_text(icons, body);
    let row = title.take(title.len() - body.len());
    assert(row =~= icons.flat_map(followed));
    assert(crate::window_title::title_text(icons.push(icon), body) =~= row + icon + seq![' ']
        + body);
    assert(icon.push(' ') + body =~= icon + seq![' '] + body);
    assert(Seq::<char>::empty() + body =~= body);
}

/// The body of an agent whose title leads with no spinner is the title without the whitespace
/// around it.
pub proof fn law_body_of_a_plain_title(
    before: Seq<char>,
    text: Seq<char>,
    after: Seq<char>,
    idle: Seq<char>,
)
    requires
        blank(before),
        clean(text),
        !crate::spinner::spinner_glyph(text[0]),
        blank(after),
    ensures
        crate::window_title::body_text(Some(before + text + after), idle) == text,
{
    let start = text + after;
    assert(before + text + after =~= before + start);
    law_trimming_the_start(before, start);
    assert(Seq::empty() + text + after =~= start);
    law_trimming(Seq::empty(), text, after);
}

/// The body of an agent whose title leads with a spinner is the text behind it, without the
/// whitespace around that.
pub proof fn law_body_of_a_spinning_title(
    before: Seq<char>,
    glyph: char,
    gap: Seq<char>,
    text: Seq<char>,
    after: Seq<char>,
    idle: Seq<char>,
)
    requires
        blank(before),
        crate::spinner::spinner_glyph(glyph),
        blank(gap),
        clean(text),
        blank(after),
    ensures
        crate::window_title::body_text(Some(before + seq![glyph] + (gap + text + after)), idle)
            == text,
{
    law_trimming(gap, text, after);
    crate::laws::law_spinner_is_not_doubled(before, glyph, gap + text + after, idle);
}

/// Without a title, or with one that is blank but for a spinner, the body is the idle fallback
/// without the whitespace around it; if that is blank too, the default title.
pub proof fn law_body_without_a_title(
    before: Seq<char>,
    glyph: char,
    gap: Seq<char>,
    idle_before: Seq<char>,
    idle: Seq<char>,
    idle_after: Seq<char>,
)
    requires
        blank(before),
        crate::spinner::spinner_glyph(glyph),
        blank(gap),
        blank(idle_before),
        idle.len() > 0 ==> clean(idle),
        blank(idle_after),
    ensures
        ({
            let fallback = idle_before + idle + idle_after;
            let body = if idle.len() > 0 {
                idle
            } else {
                "herdr"@
            };
            &&& crate::window_title::body_text(None, fallback) == body
            &&& crate::window_title::body_text(Some(before), fallback) == body
            &&& crate::window_title::body_text(Some(before + seq![glyph] + gap), fallback) == body
        }),
{
    let fallback = idle_before + idle + idle_after;
    if idle.len() > 0 {
        law_trimming(idle_before, idle, idle_after);
    } else {
        assert(blank(fallback)) by {
            assert forall|i: int| 0 <= i < fallback.len() implies crate::text::whitespace(
                #[trigger] fallback[i],
            ) by {
                if i < idle_before.len() {
                    assert(fallback[i] == idle_before[i]);
                } else {
                    assert(fallback[i] == idle_after[i - idle_before.len()]);
                }
            }
        }
        law_only_blank_text_is_trimmed_away(fallback);
    }
    law_blank_title_is_stripped_away(before);
    law_only_blank_text_is_trimmed_away(Seq::empty());
    crate::laws::law_one_leading_spinner_is_stripped(before, glyph, gap);
    assert(gap + Seq::empty() =~= gap);
    law_trimming_the_start(gap, Seq::empty());
}

/// A title that was set is the label, whatever else is known of the terminal.
pub proof fn law_set_title_is_the_label(term: TerminalState, title: String)
    requires
        term.effective_title == Some(title),
    ensures
        crate::window_title::fallback_title(term) == Some(title@),
{
}

/// Without a title that was set, the label that the user gave is the label, whatever the agent is
/// called.
pub proof fn law_else_the_users_label(term: TerminalState, label: String)
    requires
        term.effective_title is None,
        term.manual_label == Some(label),
    ensures
        crate::window_title::fallback_title(term) == Some(label@),
{
}

/// Without either, the agent's name is the label.
pub proof fn law_else_the_agents_name(term: TerminalState, name: String)
    requires
        term.effective_title is None,
        term.manual_label is None,
        term.agent_name == Some(name),
    ensures
        crate::window_title::fallback_title(term) == Some(name@),
{
}

/// Without any of these, the agent's own label is the label, and without that there is none.
pub proof fn law_else_the_agents_label(term: TerminalState)
    requires
        term.effective_title is None,
        term.manual_label is None,
        term.agent_name is None,
    ensures
        term.effective_agent_label is Some ==> crate::window_title::fallback_title(term) == Some(
            term.effective_agent_label->0@,
        ),
        term.effective_agent_label is None ==> crate::window_title::fallback_title(term) is None,
{
}

/// With a blank template the idle fallback is the name of the workspace at the active index.
pub proof fn law_idle_without_template(app: App, i: usize)
    requires
        app.state.active == Some(i),
        i < app.state.workspaces@.len(),
        blank(app.state.window_title_format@),
    ensures
        app.idle_text() == app.state.workspaces@[i as int].display_name@,
{
    law_only_blank_text_is_trimmed_away(app.state.window_title_format@);
}

/// With a template the idle fallback is the template, without the whitespace around it, with the
/// name of the workspace at the active index and that of the tab at its active index.
pub proof fn law_idle_with_template(
    app: App,
    i: usize,
    before: Seq<char>,
    format: Seq<char>,
    after: Seq<char>,
)
    requires
        app.state.active == Some(i),
        i < app.state.workspaces@.len(),
        app.state.window_title_format@ == before + format + after,
        blank(before),
        clean(format),
        blank(after),
    ensures
        ({
            let ws = app.state.workspaces@[i as int];
            &&& ws.active_tab < ws.tabs@.len() ==> app.idle_text() == crate::template::substituted(
                format,
                ws.display_name@,
                ws.tabs@[ws.active_tab as int].display_name@,
            )
            &&& ws.active_tab >= ws.tabs@.len() ==> app.idle_text() == crate::template::substituted(
                format,
                ws.display_name@,
                Seq::empty(),
            )
        }),
{
    law_trimming(before, format, after);
}

/// Without an active workspace the default title stands for its name, and the tab has none.
pub proof fn law_idle_without_workspace(
    app: App,
    before: Seq<char>,
    format: Seq<char>,
    after: Seq<char>,
)
    requires
        match app.state.active {
            Some(i) => i >= app.state.workspaces@.len(),
            None => true,
        },
        app.state.window_title_format@ == before + format + after,
        blank(before),
        format.len() > 0 ==> clean(format),
        blank(after),
    ensures
        format.len() == 0 ==> app.idle_text() == "herdr"@,
        format.len() > 0 ==> app.idle_text() == crate::template::substituted(
            format,
            "herdr"@,
            Seq::empty(),
        ),
{
    let whole = app.state.window_title_format@;
    if format.len() > 0 {
        law_trimming(before, format, after);
    } else {
        assert forall|i: int| 0 <= i < whole.len() implies crate::text::whitespace(
            #[trigger] whole[i],
        ) by {
            if i < before.len() {
                assert(whole[i] == before[i]);
            } else {
                assert(whole[i] == after[i - before.len()]);
            }
        }
        law_only_blank_text_is_trimmed_away(whole);
    }
}

/// The template `{workspace}` gives the name of the workspace at the active index, and `{tab}` that
/// of the tab at its active index.
pub proof fn law_idle_with_one_token(app: App, i: usize)
    requires
        app.state.active == Some(i),
        i < app.state.workspaces@.len(),
    ensures
        app.state.window_title_format@ == "{workspace}"@ ==> app.idle_text()
            == app.state.workspaces@[i as int].display_name@,
        ({
            let ws = app.state.workspaces@[i as int];
            app.state.window_title_format@ == "{tab}"@ && ws.active_tab < ws.tabs@.len()
                ==> app.idle_text() == ws.tabs@[ws.active_tab as int].display_name@
        }),
{
    reveal_strlit("{workspace}");
    reveal_strlit("{tab}");
    let none = Seq::<char>::empty();
    let ws = app.state.workspaces@[i as int];
    let format = app.state.window_title_format@;
    let name = ws.display_name@;
    let tab = if ws.active_tab < ws.tabs@.len() {
        ws.tabs@[ws.active_tab as int].display_name@
    } else {
        none
    };
    if format == "{workspace}"@ || format == "{tab}"@ {
        assert(none + format + none =~= format);
        law_idle_with_template(app, i, none, format, none);
        crate::template::law_workspace_token(none, name, tab);
        crate::template::law_tab_token(none, name, tab);
        law_template_without_tokens(none, name, tab);
        assert(format + none =~= format);
        assert(name + none =~= name);
        assert(tab + none =~= tab);
    }
}

/// A live title that is not blank is the title of the agent in the active tab.
pub proof fn law_live_title_comes_first(app: App, id: TerminalId)
    requires
        app.state.active_agent() == Some(id),
        app.terminal_runtimes@.contains_key(id),
        !blank(app.terminal_runtimes@[id].agent_osc_title@),
    ensures
        app.active_title() == Some(app.terminal_runtimes@[id].agent_osc_title@),
{
    law_only_blank_text_is_trimmed_away(app.terminal_runtimes@[id].agent_osc_title@);
}

/// Without a live title, or with a blank one, the title of the agent in the active tab is the label
/// of its terminal, if that is registered.
pub proof fn law_else_the_label_of_the_terminal(app: App, id: TerminalId)
    requires
        app.state.active_agent() == Some(id),
        app.terminal_runtimes@.contains_key(id) ==> blank(
            app.terminal_runtimes@[id].agent_osc_title@,
        ),
    ensures
        app.state.terminals@.contains_key(id) ==> app.active_title()
            == crate::window_title::fallback_title(app.state.terminals@[id]),
        !app.state.terminals@.contains_key(id) ==> app.active_title() is None,
{
    law_only_blank_text_is_trimmed_away(app.terminal_runtimes@[id].agent_osc_title@);
}

/// Without an agent in the active tab there is no agent's title.
pub proof fn law_no_agent_no_title(app: App)
    requires
        app.state.active_agent() is None,
    ensures
        app.active_title() is None,
{
}

/// An animation shows its glyphs one after the other and then begins again.
pub proof fn law_animation_cycles(animation: Animation, frame: nat)
    ensures
        animation.glyph(0) == animation.first@,
        forall|n: int|
            0 <= n < animation.rest@.len() ==> animation.glyph((n + 1) as nat)
                == (#[trigger] animation.rest@[n])@,
        animation.glyph(frame + animation.rest@.len() + 1) == animation.glyph(frame),
{
    let period = (1 + animation.rest@.len()) as int;
    assert forall|n: int| 0 <= n < animation.rest@.len() implies animation.glyph((n + 1) as nat)
        == (#[trigger] animation.rest@[n])@ by {
        vstd::arithmetic::div_mod::lemma_small_mod((n + 1) as nat, period as nat);
    }
    vstd::arithmetic::div_mod::lemma_small_mod(0, period as nat);
    vstd::arithmetic::div_mod::lemma_mod_add_multiples_vanish(frame as int, period);
    assert(frame + animation.rest@.len() + 1 == period + frame);
}

/// Work is drawn by the spinner and a block by the pulse, whatever they show and whether the pane
/// was seen or not; other states by their still glyphs.
pub proof fn law_state_glyphs(
    glyphs: Glyphs,
    seen: bool,
    spinner: Seq<char>,
    blocked: Seq<char>,
)
    ensures
        glyphs.agent_glyph(AgentState::Working, seen, spinner, blocked) == spinner,
        glyphs.agent_glyph(AgentState::Blocked, seen, spinner, blocked) == blocked,
        glyphs.agent_glyph(AgentState::Idle, true, spinner, blocked) == glyphs.idle.seen@,
        glyphs.agent_glyph(AgentState::Idle, false, spinner, blocked) == glyphs.idle.unseen@,
        glyphs.agent_glyph(AgentState::Unknown, true, spinner, blocked) == glyphs.unknown.seen@,
        glyphs.agent_glyph(AgentState::Unknown, false, spinner, blocked) == glyphs.unknown.unseen@,
{
}

/// The glyph that a state is drawn with: the animations of this frame for work and for a block, and
/// a still glyph, by whether the pane was seen, for the rest.
pub open spec fn drawn(glyphs: Glyphs, agent: AgentPane, frame: u32, icon: Seq<char>) -> bool {
    &&& agent.state == AgentState::Working ==> icon == glyphs.spinner.glyph(frame as nat)
    &&& agent.state == AgentState::Blocked ==> icon == glyphs.blocked_pulse.glyph(frame as nat)
    &&& agent.state == AgentState::Idle && agent.seen ==> icon == glyphs.idle.seen@
    &&& agent.state == AgentState::Idle && !agent.seen ==> icon == glyphs.idle.unseen@
    &&& agent.state == AgentState::Unknown && agent.seen ==> icon == glyphs.unknown.seen@
    &&& agent.state == AgentState::Unknown && !agent.seen ==> icon == glyphs.unknown.unseen@
}

/// The title is made of one icon for each place of the sidebar that shows an agent, from the top
/// down, each followed by one space, and then the body.
pub proof fn law_title_lists_the_sidebar(app: App, frame: u32) -> (r: (
    Seq<Place>,
    Seq<AgentPane>,
    Seq<Seq<char>>,
))
    ensures
        crate::fleet_laws::sidebar(app.state, r.0, r.1),
        r.2.len() == r.1.len(),
        forall|n: int| 0 <= n < r.1.len() ==> drawn(app.glyphs, #[trigger] r.1[n], frame, r.2[n]),
        ({
            let body = crate::window_title::body_text(app.active_title(), app.idle_text());
            app.title(frame) == if r.2.len() == 1 && r.2[0].len() == 0 {
                body
            } else {
                r.2.flat_map(|icon: Seq<char>| icon.push(' ')) + body
            }
        }),
{
    let places = crate::fleet_laws::law_fleet_is_in_sidebar_order(app.state);
    let agents = app.state.agents();
    let icons = app.icons_of(agents, frame);
    let body = crate::window_title::body_text(app.active_title(), app.idle_text());
    law_every_icon_stands_in_the_title(icons, body);
    (places, agents, icons)
}

} // verus!
