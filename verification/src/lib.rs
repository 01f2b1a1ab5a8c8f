//! The title of the outer terminal window, composed from the live state of a fleet of agents.
//!
//! [`window_title::App::compute_window_title`] composes it: an icon for each agent, then a body
//! that follows the agent in the active tab or, where that tab holds none, the workspace. The
//! other modules hold what it is composed from. What holds of the fleet stands in [`fleet_laws`], of
//! the pieces of the title in [`title_laws`], and of the title as a whole in [`laws`].

pub mod fleet;
pub mod fleet_laws;
pub mod glyphs;
pub mod laws;
pub mod spinner;
pub mod state;
pub mod template;
pub mod text;
pub mod title_laws;
pub mod window_title;
