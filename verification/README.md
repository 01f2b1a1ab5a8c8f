# herdr_title

Composes the title of the outer terminal window for a terminal multiplexer that runs coding agents:
a row of status icons, one per agent pane in sidebar order, followed by the title of the agent in
the active tab, or by the workspace label where that tab holds no agent.

- `text`, `spinner`, `template`: trimming and joining, the leading spinner glyph of a title, and the
  `{workspace}` / `{tab}` template.
- `state`, `glyphs`: the state that the title is composed from, and the glyphs that stand for agents.
- `fleet`: which panes show agents, in which order, and which of them the body speaks of.
- `window_title`: the composition itself.
- `laws`: what holds of the title as a whole.

Every function states its result in full over sequences of characters, and Verus proves it. Nothing
is taken on trust beyond what `vstd` states of the standard library.
