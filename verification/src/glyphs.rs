//! The glyphs that stand for agents, as the user interface draws them.

use crate::state::AgentState;
use vstd::prelude::*;

verus! {

/// The glyphs of an animation, one per frame, over and over.
pub struct Animation {
    pub first: String,
    pub rest: Vec<String>,
}

/// The glyphs of a state that is drawn at rest.
pub struct StillGlyphs {
    pub seen: String,
    pub unseen: String,
}

/// The glyphs of all states.
pub struct Glyphs {
    /// Turns while an agent works.
    pub spinner: Animation,
    /// Breathes while an agent is blocked.
    pub blocked_pulse: Animation,
    pub idle: StillGlyphs,
    pub unknown: StillGlyphs,
}

impl Animation {
    /// The number of glyphs.
    pub open spec fn period(&self) -> nat {
        1 + self.rest@.len()
    }

    /// The glyph of the given frame.
    pub open spec fn glyph(&self, frame: nat) -> Seq<char> {
        let index = frame % self.period();
        if index == 0 {
            self.first@
        } else {
            self.rest@[index - 1]@
        }
    }

    /// The glyph of the given frame.
    pub fn glyph_at(&self, frame: u32) -> (r: &str)
        ensures
            r@ == self.glyph(frame as nat),
    {
        let period: u128 = self.rest.len() as u128 + 1;
        let index: u128 = frame as u128 % period;
        if index == 0 {
            self.first.as_str()
        } else {
            self.rest[(index - 1) as usize].as_str()
        }
    }
}

impl StillGlyphs {
    /// The glyph of a pane that was looked at, or of one that was not.
    pub open spec fn glyph(&self, seen: bool) -> Seq<char> {
        if seen {
            self.seen@
        } else {
            self.unseen@
        }
    }

    /// The glyph of a pane that was looked at, or of one that was not.
    pub fn glyph_for(&self, seen: bool) -> (r: &str)
        ensures
            r@ == self.glyph(seen),
            seen ==> r@ == self.seen@,
            !seen ==> r@ == self.unseen@,
    {
        if seen {
            self.seen.as_str()
        } else {
            self.unseen.as_str()
        }
    }
}

impl Glyphs {
    /// The glyph of an agent, given those that the animations show now.
    pub open spec fn agent_glyph(
        &self,
        state: AgentState,
        seen: bool,
        spinner: Seq<char>,
        blocked: Seq<char>,
    ) -> Seq<char> {
        match state {
            AgentState::Working => spinner,
            AgentState::Blocked => blocked,
            AgentState::Idle => self.idle.glyph(seen),
            AgentState::Unknown => self.unknown.glyph(seen),
        }
    }

    /// The glyph of an agent, given those that the animations show now.
    pub fn agent_state_glyph<'a>(
        &'a self,
        state: AgentState,
        seen: bool,
        spinner: &'a str,
        blocked: &'a str,
    ) -> (r: &'a str)
        ensures
            r@ == self.agent_glyph(state, seen, spinner@, blocked@),
    {
        match state {
            AgentState::Working => spinner,
            AgentState::Blocked => blocked,
            AgentState::Idle => self.idle.glyph_for(seen),
            AgentState::Unknown => self.unknown.glyph_for(seen),
        }
    }
}

} // verus!
