//! The one-way directives the daemon emits towards the presentation layer,
//! and the answers a UI may send back.  The core never waits for a UI
//! acknowledgment; delivery is the embedding program's business.

use vstd::prelude::*;

use crate::windows::WindowInfo;

verus! {

/// Directives from the daemon to the UI.
#[derive(Debug)]
pub enum UiCommand {
    /// Show the window switcher over these candidates, with the highlight
    /// on `initial_index`.
    Show { windows: Vec<WindowInfo>, initial_index: usize },
    /// Move the highlight to this index.
    UpdateSelection { index: usize },
    /// Hide the window switcher.
    Hide,
}

/// Answers a UI may send back to its embedding program.
#[derive(Debug)]
pub enum UiResponse {
    /// The switcher was shown.
    Shown,
    /// The highlight moved to a new index.
    Cycled { new_index: usize },
    /// The switcher was dismissed, possibly with a selection.
    Dismissed { selected_window: Option<WindowInfo> },
}

} // verus!
