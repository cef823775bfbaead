//! The compositor connection as the core sees it: a window-tree query, a
//! workspace query, and a focus command.  The real implementation speaks
//! the compositor's IPC socket and lives outside the library; the core
//! promises nothing about what these calls return, only how it reacts to
//! every possible answer.

use vstd::prelude::*;

use crate::tree::TreeNode;

verus! {

/// The error taxonomy of the daemon core.
#[derive(Debug, Clone, Copy, PartialEq, Eq, Structural)]
pub enum SwitchError {
    /// The compositor's tree or workspace query failed: the refresh aborts
    /// and the previous MRU list is kept untouched.
    CompositorUnavailable,
    /// The compositor rejected a focus command; the MRU list is unchanged.
    CompositorCommandFailed,
    /// An IPC request line did not decode to any command.
    MalformedCommand,
    /// An internal queue disconnected; the orchestrator shuts down.
    ChannelClosed,
}

/// One workspace as reported by the compositor.
#[derive(Debug)]
pub struct WorkspaceInfo {
    pub name: String,
    pub focused: bool,
}

/// Mathematical image of a workspace record.
pub struct WorkspaceView {
    pub name: Seq<char>,
    pub focused: bool,
}

impl View for WorkspaceInfo {
    type V = WorkspaceView;

    open spec fn view(&self) -> WorkspaceView {
        WorkspaceView { name: self.name@, focused: self.focused }
    }
}

impl DeepView for WorkspaceInfo {
    type V = WorkspaceView;

    open spec fn deep_view(&self) -> WorkspaceView {
        self.view()
    }
}

impl Clone for WorkspaceInfo {
    fn clone(&self) -> (r: Self)
        ensures
            r@ == self@,
    {
        WorkspaceInfo { name: self.name.clone(), focused: self.focused }
    }
}

/// Compositor operations the core depends on.  Implementations live
/// outside the library (and in tests); no contract constrains what they
/// return, so everything proved about the core holds for every possible
/// implementation.
pub trait SwayClient {
    /// Query the full window tree.
    fn get_tree(&mut self) -> Result<TreeNode, SwitchError>;

    /// Query the workspace list.
    fn get_workspaces(&mut self) -> Result<Vec<WorkspaceInfo>, SwitchError>;

    /// Ask the compositor to focus the window with this id.
    fn focus_window(&mut self, window_id: i64) -> Result<(), SwitchError>;
}

} // verus!
