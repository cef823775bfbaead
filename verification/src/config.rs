//! Runtime configuration of the daemon: workspace filtering mode and the
//! subcommand to run.  Argument parsing itself is I/O plumbing and stays
//! outside the library; this module only holds the decoded values.

use vstd::prelude::*;

verus! {

/// Which windows the switcher offers.
#[derive(Debug, Clone, Copy, PartialEq, Eq, Structural)]
pub enum WorkspaceMode {
    /// Show windows from the current workspace only.
    Current,
    /// Show windows from all workspaces.
    All,
}

impl Default for WorkspaceMode {
    fn default() -> (r: Self)
        ensures
            r == WorkspaceMode::Current,
    {
        WorkspaceMode::Current
    }
}

/// The subcommand the process was started with.
#[derive(Debug, Clone, Copy)]
pub enum Command {
    /// Run as daemon (the default when no command is given).
    Daemon,
    /// Ask a running daemon to show the window switcher.
    Show,
}

/// Decoded command-line configuration.
#[derive(Debug, Clone, Copy)]
pub struct Config {
    /// Workspace filtering mode (only applies to daemon mode).
    pub mode: WorkspaceMode,
    /// Enable verbose logging.
    pub verbose: bool,
    /// Command to execute.
    pub command: Option<Command>,
}

impl Config {
    /// The command to run, defaulting to `Daemon` if none was given.
    pub fn command(&self) -> (r: Command)
        ensures
            r == match self.command {
                Some(c) => c,
                None => Command::Daemon,
            },
    {
        match self.command {
            Some(c) => c,
            None => Command::Daemon,
        }
    }
}

} // verus!
