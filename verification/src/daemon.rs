//! The daemon orchestrator: a two-state machine — Idle (no session) and
//! Switching (one session) — driven by IPC commands, local input commands
//! and compositor focus events.  Each handler returns the directive the
//! embedding event loop must deliver to the UI next to the outcome of any
//! compositor call, so a failure never loses the directive; the loop
//! itself (sockets, signals, task plumbing) lives outside the library.

use vstd::prelude::*;

use crate::config::Config;
use crate::ipc::{InputCommand, IpcCommand, IpcResponse};
use crate::sway_client::{SwayClient, SwitchError};
use crate::ui_commands::UiCommand;
use crate::window_manager::{filtered_spec, WindowManager};
use crate::window_switcher::{cycle_index, WindowSwitcher};
use crate::windows::{move_to_front, WindowView};

verus! {

/// What the daemon should do next: a pure description of a state
/// transition, separate from performing it.
#[derive(Debug, Clone, Copy, PartialEq, Eq, Structural)]
pub enum DaemonAction {
    /// Start the window switching session.
    StartSwitching,
    /// Cycle to the next window.
    CycleForward,
    /// Cycle to the previous window.
    CycleBackward,
    /// Finalize the selection and focus the chosen window.
    FinalizeSelection,
    /// Cancel switching without selecting.
    Cancel,
    /// Move this window to the front of the MRU order.
    UpdateMru { window_id: i64 },
    /// Nothing to do.
    NoOp,
}

/// The transition table for local input commands: they only steer an
/// active session and are ignored while idle.
pub open spec fn input_action_spec(cmd: InputCommand, is_switching: bool) -> DaemonAction {
    match (cmd, is_switching) {
        (InputCommand::Next, true) => DaemonAction::CycleForward,
        (InputCommand::Prev, true) => DaemonAction::CycleBackward,
        (InputCommand::Select, true) => DaemonAction::FinalizeSelection,
        (InputCommand::Cancel, true) => DaemonAction::Cancel,
        (_, false) => DaemonAction::NoOp,
    }
}

/// The transition for a show request: it opens a session when idle and
/// acts as a forward cycle when one is already running.
pub open spec fn show_action_spec(is_switching: bool) -> DaemonAction {
    if is_switching {
        DaemonAction::CycleForward
    } else {
        DaemonAction::StartSwitching
    }
}

/// The transition for a compositor focus event: it reorders the MRU list
/// while idle and is ignored during a session, so external focus churn
/// cannot disturb a running selection.
pub open spec fn focus_action_spec(window_id: i64, is_switching: bool) -> DaemonAction {
    if is_switching {
        DaemonAction::NoOp
    } else {
        DaemonAction::UpdateMru { window_id }
    }
}

/// Decide what to do with a local input command in the given state.
pub fn determine_input_action(cmd: InputCommand, is_switching: bool) -> (r: DaemonAction)
    ensures
        r == input_action_spec(cmd, is_switching),
{
    match (cmd, is_switching) {
        (InputCommand::Next, true) => DaemonAction::CycleForward,
        (InputCommand::Prev, true) => DaemonAction::CycleBackward,
        (InputCommand::Select, true) => DaemonAction::FinalizeSelection,
        (InputCommand::Cancel, true) => DaemonAction::Cancel,
        (_, false) => DaemonAction::NoOp,
    }
}

/// Decide what to do with a show request in the given state.
pub fn determine_show_action(is_switching: bool) -> (r: DaemonAction)
    ensures
        r == show_action_spec(is_switching),
{
    if is_switching {
        DaemonAction::CycleForward
    } else {
        DaemonAction::StartSwitching
    }
}

/// Decide what to do with a compositor focus event in the given state.
pub fn determine_focus_action(window_id: i64, is_switching: bool) -> (r: DaemonAction)
    ensures
        r == focus_action_spec(window_id, is_switching),
{
    if is_switching {
        DaemonAction::NoOp
    } else {
        DaemonAction::UpdateMru { window_id }
    }
}

/// A compositor event the orchestrator consumes.
#[derive(Debug, Clone, Copy, PartialEq, Eq, Structural)]
pub enum WindowEvent {
    /// This window received focus.
    Focus(i64),
}

/// What one handler produced: at most one directive for the UI, and the
/// outcome of any compositor call it made.  The directive stands on its
/// own, so an error does not lose it.
pub type HandlerResult = (Option<UiCommand>, Result<(), SwitchError>);

/// Everything one IPC dispatch produces: the synchronous answer for the
/// client, at most one directive for the UI, and whether the daemon
/// should stop.
#[derive(Debug)]
pub struct DispatchOutcome {
    pub response: IpcResponse,
    pub directive: Option<UiCommand>,
    pub shutdown: bool,
}

/// Where a fresh session's cursor starts: backward entry lands on the last
/// candidate; forward entry pre-selects the second candidate (the
/// "previous window") when there is one.
pub open spec fn opening_index(len: int, backward: bool) -> int {
    if backward {
        len - 1
    } else if len > 1 {
        1
    } else {
        0
    }
}

/// The daemon: the window manager, the configuration, and at most one
/// switching session.
pub struct Daemon<C: SwayClient> {
    window_manager: WindowManager<C>,
    config: Config,
    switcher: Option<WindowSwitcher>,
}

impl<C: SwayClient> Daemon<C> {
    /// The MRU list as the contracts see it.
    pub closed spec fn mru(&self) -> Seq<WindowView> {
        self.window_manager.mru()
    }

    /// The current workspace name, if one is known.
    pub closed spec fn workspace_name(&self) -> Option<Seq<char>> {
        self.window_manager.workspace_name()
    }

    /// The configured workspace filtering mode.
    pub closed spec fn mode(&self) -> crate::config::WorkspaceMode {
        self.config.mode
    }

    /// The active session, if any.
    pub closed spec fn session(&self) -> Option<WindowSwitcher> {
        self.switcher
    }

    /// Whether a session is active.
    pub open spec fn is_switching_spec(&self) -> bool {
        self.session() is Some
    }

    /// The candidate list of the active session.
    pub open spec fn session_windows(&self) -> Seq<WindowView> {
        self.session()->0.windows_view()
    }

    /// The cursor of the active session.
    pub open spec fn session_index(&self) -> int {
        self.session()->0.index_spec()
    }

    /// The MRU list has no duplicate ids and an active session's cursor is
    /// in range.
    pub closed spec fn wf(&self) -> bool {
        &&& self.window_manager.wf()
        &&& match self.session() {
            Some(sw) => sw.wf(),
            None => true,
        }
    }

    /// Nothing observable about the daemon changed.
    pub open spec fn unchanged(pre: Self, post: Self) -> bool {
        &&& post.mru() == pre.mru()
        &&& post.workspace_name() == pre.workspace_name()
        &&& post.session() == pre.session()
        &&& post.mode() == pre.mode()
    }

    /// What opening a session from Idle means.  After a successful
    /// refresh the candidates are the filtered view of the fresh state:
    /// with no candidate the daemon stays idle and emits nothing;
    /// otherwise a session opens at the entry cursor and a Show directive
    /// carries the candidates.  A failed refresh changes nothing and
    /// emits nothing.
    pub open spec fn session_opened(
        pre: Self,
        post: Self,
        directive: Option<UiCommand>,
        res: Result<(), SwitchError>,
        backward: bool,
    ) -> bool {
        match res {
            Err(e) => {
                &&& e == SwitchError::CompositorUnavailable
                &&& Self::unchanged(pre, post)
                &&& directive is None
            },
            Ok(_) => {
                let candidates = filtered_spec(post.mru(), post.workspace_name(), pre.mode());
                &&& post.mode() == pre.mode()
                &&& if candidates.len() == 0 {
                    post.session() is None && directive is None
                } else {
                    &&& post.session() is Some
                    &&& post.session_windows() == candidates
                    &&& post.session_index() == opening_index(candidates.len() as int, backward)
                    &&& directive matches Some(UiCommand::Show { windows, initial_index })
                        && windows.deep_view() == candidates && initial_index
                        == post.session_index()
                }
            },
        }
    }

    /// What one cycling step means: over an empty or missing session
    /// nothing happens; otherwise only the cursor moves, circularly, and
    /// an update directive reports its new position.  Cycling makes no
    /// compositor call, so it cannot fail.
    pub open spec fn session_cycled(
        pre: Self,
        post: Self,
        directive: Option<UiCommand>,
        res: Result<(), SwitchError>,
        forward: bool,
    ) -> bool {
        &&& res == Ok::<(), SwitchError>(())
        &&& post.mru() == pre.mru()
        &&& post.workspace_name() == pre.workspace_name()
        &&& post.mode() == pre.mode()
        &&& match pre.session() {
            None => post.session() is None && directive is None,
            Some(sw) => if sw.windows_view().len() == 0 {
                post.session() == pre.session() && directive is None
            } else {
                &&& post.session() is Some
                &&& post.session_windows() == sw.windows_view()
                &&& post.session_index() == cycle_index(
                    sw.index_spec(),
                    sw.windows_view().len() as int,
                    forward,
                )
                &&& directive == Some(
                    UiCommand::UpdateSelection { index: post.session_index() as usize },
                )
            },
        }
    }

    /// What finalizing means: an existing session always ends and a Hide
    /// directive always goes out, so the overlay never outlives the
    /// session.  With a selected window the compositor is asked to focus
    /// it and, on success, the window moves to the front of the MRU order
    /// at once — without waiting for the focus event.  A rejected focus
    /// command is reported and leaves the MRU order alone.
    pub open spec fn session_finalized(
        pre: Self,
        post: Self,
        directive: Option<UiCommand>,
        res: Result<(), SwitchError>,
    ) -> bool {
        match pre.session() {
            None => {
                &&& directive is None
                &&& res == Ok::<(), SwitchError>(())
                &&& Self::unchanged(pre, post)
            },
            Some(sw) => {
                &&& post.session() is None
                &&& post.workspace_name() == pre.workspace_name()
                &&& post.mode() == pre.mode()
                &&& directive == Some(UiCommand::Hide)
                &&& if sw.windows_view().len() == 0 {
                    res == Ok::<(), SwitchError>(()) && post.mru() == pre.mru()
                } else {
                    match res {
                        Ok(_) => post.mru() == move_to_front(
                            pre.mru(),
                            sw.windows_view()[sw.index_spec()].id,
                        ),
                        Err(e) => e == SwitchError::CompositorCommandFailed && post.mru()
                            == pre.mru(),
                    }
                }
            },
        }
    }

    /// What cancelling means: the session is discarded, the MRU order is
    /// untouched, and a Hide directive goes out.
    pub open spec fn session_cancelled(
        pre: Self,
        post: Self,
        directive: Option<UiCommand>,
        res: Result<(), SwitchError>,
    ) -> bool {
        &&& post.session() is None
        &&& post.mru() == pre.mru()
        &&& post.workspace_name() == pre.workspace_name()
        &&& post.mode() == pre.mode()
        &&& directive == Some(UiCommand::Hide)
        &&& res == Ok::<(), SwitchError>(())
    }

    /// The status report of a state: session size and cursor while
    /// switching, zeros while idle.
    pub open spec fn status_of(pre: Self) -> IpcResponse {
        match pre.session() {
            Some(sw) => IpcResponse::Status {
                switching: true,
                window_count: sw.windows_view().len() as usize,
                current_index: Some(sw.index_spec() as usize),
            },
            None => IpcResponse::Status {
                switching: false,
                window_count: 0,
                current_index: None,
            },
        }
    }

    /// Create an idle daemon over a compositor connection, populated with
    /// a first refresh.
    pub fn new(config: Config, client: C) -> (r: Result<Self, SwitchError>)
        ensures
            match r {
                Ok(d) => d.wf() && !d.is_switching_spec() && d.mode() == config.mode,
                Err(e) => e == SwitchError::CompositorUnavailable,
            },
    {
        let window_manager = match WindowManager::with_client(client) {
            Ok(m) => m,
            Err(e) => {
                return Err(e);
            },
        };
        Ok(Daemon { window_manager, config, switcher: None })
    }

    /// Whether a switching session is active.
    pub fn is_switching(&self) -> (r: bool)
        ensures
            r == self.is_switching_spec(),
    {
        self.switcher.is_some()
    }

    /// Open a session from Idle: refresh the window list, take the
    /// filtered view as candidates, and — unless it is empty — start the
    /// session and announce it.  `backward` opens at the last candidate
    /// (a backward cycle from the front) instead of the second.
    fn open_session(&mut self, backward: bool) -> (r: HandlerResult)
        requires
            old(self).wf(),
            !old(self).is_switching_spec(),
        ensures
            final(self).wf(),
            Self::session_opened(*old(self), *final(self), r.0, r.1, backward),
    {
        match self.window_manager.refresh() {
            Ok(()) => {},
            Err(e) => {
                return (None, Err(e));
            },
        }
        let windows = self.window_manager.get_filtered_windows(self.config.mode);
        if windows.is_empty() {
            return (None, Ok(()));
        }
        let for_ui = crate::windows::copy_window_list(&windows);
        let mut switcher = WindowSwitcher::new(windows, !backward);
        if backward {
            switcher.cycle(false);
        }
        let initial_index = switcher.current_index();
        self.switcher = Some(switcher);
        (Some(UiCommand::Show { windows: for_ui, initial_index }), Ok(()))
    }

    /// Open a session from Idle at the standard entry point: the second
    /// candidate when there is one.
    fn start_switching(&mut self) -> (r: HandlerResult)
        requires
            old(self).wf(),
            !old(self).is_switching_spec(),
        ensures
            final(self).wf(),
            Self::session_opened(*old(self), *final(self), r.0, r.1, false),
    {
        self.open_session(false)
    }

    /// Cycle the active session one step and report the new cursor; a
    /// no-op while idle or over an empty candidate set.
    fn cycle_windows(&mut self, forward: bool) -> (r: HandlerResult)
        requires
            old(self).wf(),
        ensures
            final(self).wf(),
            Self::session_cycled(*old(self), *final(self), r.0, r.1, forward),
    {
        match &mut self.switcher {
            Some(sw) => {
                if sw.is_empty() {
                    return (None, Ok(()));
                }
                let index = sw.cycle(forward);
                (Some(UiCommand::UpdateSelection { index }), Ok(()))
            },
            None => (None, Ok(())),
        }
    }

    /// End the session on the selected window: ask the compositor to
    /// focus it, move it to the front of the MRU order at once, and hide
    /// the UI.  The session ends and the Hide directive goes out even
    /// when the focus command fails; only the MRU update is skipped then.
    fn finalize_selection(&mut self) -> (r: HandlerResult)
        requires
            old(self).wf(),
        ensures
            final(self).wf(),
            Self::session_finalized(*old(self), *final(self), r.0, r.1),
    {
        let switcher = match self.switcher.take() {
            Some(sw) => sw,
            None => {
                return (None, Ok(()));
            },
        };
        let selected: Option<i64> = match switcher.current() {
            Some(w) => Some(w.id),
            None => None,
        };
        if let Some(window_id) = selected {
            match self.window_manager.focus_window(window_id) {
                Ok(()) => {
                    self.window_manager.on_focus(window_id);
                },
                Err(e) => {
                    return (Some(UiCommand::Hide), Err(e));
                },
            }
        }
        (Some(UiCommand::Hide), Ok(()))
    }

    /// Discard the session without selecting and hide the UI.
    fn cancel_switching(&mut self) -> (r: HandlerResult)
        requires
            old(self).wf(),
        ensures
            final(self).wf(),
            Self::session_cancelled(*old(self), *final(self), r.0, r.1),
    {
        self.switcher = None;
        (Some(UiCommand::Hide), Ok(()))
    }

    /// Handle a show request: open a session while idle, cycle forward
    /// while switching.
    pub fn handle_show(&mut self) -> (r: HandlerResult)
        requires
            old(self).wf(),
        ensures
            final(self).wf(),
            if old(self).is_switching_spec() {
                Self::session_cycled(*old(self), *final(self), r.0, r.1, true)
            } else {
                Self::session_opened(*old(self), *final(self), r.0, r.1, false)
            },
    {
        match determine_show_action(self.is_switching()) {
            DaemonAction::StartSwitching => self.start_switching(),
            _ => self.cycle_windows(true),
        }
    }

    /// Handle a local input command: it steers the active session and is
    /// ignored while idle.
    pub fn handle_input_command(&mut self, cmd: InputCommand) -> (r: HandlerResult)
        requires
            old(self).wf(),
        ensures
            final(self).wf(),
            match input_action_spec(cmd, old(self).is_switching_spec()) {
                DaemonAction::CycleForward => Self::session_cycled(
                    *old(self),
                    *final(self),
                    r.0,
                    r.1,
                    true,
                ),
                DaemonAction::CycleBackward => Self::session_cycled(
                    *old(self),
                    *final(self),
                    r.0,
                    r.1,
                    false,
                ),
                DaemonAction::FinalizeSelection => Self::session_finalized(
                    *old(self),
                    *final(self),
                    r.0,
                    r.1,
                ),
                DaemonAction::Cancel => Self::session_cancelled(*old(self), *final(self), r.0, r.1),
                _ => Self::unchanged(*old(self), *final(self)) && r.0 is None && r.1 == Ok::<
                    (),
                    SwitchError,
                >(()),
            },
    {
        match determine_input_action(cmd, self.is_switching()) {
            DaemonAction::CycleForward => self.cycle_windows(true),
            DaemonAction::CycleBackward => self.cycle_windows(false),
            DaemonAction::FinalizeSelection => self.finalize_selection(),
            DaemonAction::Cancel => self.cancel_switching(),
            _ => (None, Ok(())),
        }
    }

    /// Handle a compositor focus event: while idle the window moves to
    /// the front of the MRU order; during a session the event is ignored,
    /// so the candidate set stays stable under external focus churn.
    pub fn handle_window_event(&mut self, event: WindowEvent)
        requires
            old(self).wf(),
        ensures
            final(self).wf(),
            final(self).session() == old(self).session(),
            final(self).workspace_name() == old(self).workspace_name(),
            final(self).mode() == old(self).mode(),
            match event {
                WindowEvent::Focus(window_id) => final(self).mru() == if old(
                    self,
                ).is_switching_spec() {
                    old(self).mru()
                } else {
                    move_to_front(old(self).mru(), window_id)
                },
            },
    {
        match event {
            WindowEvent::Focus(window_id) => {
                match determine_focus_action(window_id, self.is_switching()) {
                    DaemonAction::UpdateMru { window_id } => {
                        self.window_manager.on_focus(window_id);
                    },
                    _ => {},
                }
            },
        }
    }

    /// The response to a select whose focus command the compositor
    /// rejected.
    fn command_failed_response() -> (r: IpcResponse)
        ensures
            r matches IpcResponse::Error(m) && m@ == ("compositor command failed")@,
    {
        IpcResponse::Error("compositor command failed".to_owned())
    }

    /// Dispatch one IPC command: perform the transition of the state
    /// machine's table and return the synchronous response, the directive
    /// for the UI, and whether the daemon should stop.  Only a failed
    /// refresh surfaces as an error of the dispatch itself; a rejected
    /// focus command on select is answered with an error response while
    /// the session still ends and the Hide directive still goes out.
    pub fn handle_ipc_command(&mut self, cmd: IpcCommand) -> (r: Result<
        DispatchOutcome,
        SwitchError,
    >)
        requires
            old(self).wf(),
        ensures
            final(self).wf(),
            match r {
                Ok(out) => {
                    &&& out.shutdown == (cmd == IpcCommand::Shutdown)
                    &&& match cmd {
                        IpcCommand::Show | IpcCommand::Next => out.response
                            == IpcResponse::Accepted && if old(self).is_switching_spec() {
                            Self::session_cycled(
                                *old(self),
                                *final(self),
                                out.directive,
                                Ok(()),
                                true,
                            )
                        } else {
                            Self::session_opened(
                                *old(self),
                                *final(self),
                                out.directive,
                                Ok(()),
                                false,
                            )
                        },
                        IpcCommand::Prev => out.response == IpcResponse::Accepted && if old(
                            self,
                        ).is_switching_spec() {
                            Self::session_cycled(
                                *old(self),
                                *final(self),
                                out.directive,
                                Ok(()),
                                false,
                            )
                        } else {
                            Self::session_opened(
                                *old(self),
                                *final(self),
                                out.directive,
                                Ok(()),
                                true,
                            )
                        },
                        IpcCommand::Select => if old(self).is_switching_spec() {
                            ||| (out.response == IpcResponse::Accepted && Self::session_finalized(
                                *old(self),
                                *final(self),
                                out.directive,
                                Ok(()),
                            ))
                            ||| ((out.response matches IpcResponse::Error(m) && m@ == (
                            "compositor command failed")@) && Self::session_finalized(
                                *old(self),
                                *final(self),
                                out.directive,
                                Err(SwitchError::CompositorCommandFailed),
                            ))
                        } else {
                            &&& out.response == IpcResponse::Accepted
                            &&& Self::unchanged(*old(self), *final(self))
                            &&& out.directive is None
                        },
                        IpcCommand::Cancel => out.response == IpcResponse::Accepted && if old(
                            self,
                        ).is_switching_spec() {
                            Self::session_cancelled(*old(self), *final(self), out.directive, Ok(()))
                        } else {
                            Self::unchanged(*old(self), *final(self)) && out.directive is None
                        },
                        IpcCommand::Status => out.response == Self::status_of(*old(self))
                            && Self::unchanged(*old(self), *final(self)) && out.directive is None,
                        IpcCommand::Shutdown => out.response == IpcResponse::Accepted
                            && Self::unchanged(*old(self), *final(self)) && out.directive is None,
                    }
                },
                Err(e) => match cmd {
                    IpcCommand::Show | IpcCommand::Next => !old(self).is_switching_spec()
                        && Self::session_opened(*old(self), *final(self), None, Err(e), false),
                    IpcCommand::Prev => !old(self).is_switching_spec() && Self::session_opened(
                        *old(self),
                        *final(self),
                        None,
                        Err(e),
                        true,
                    ),
                    _ => false,
                },
            },
    {
        match cmd {
            IpcCommand::Show | IpcCommand::Next => {
                let (directive, res) = if self.is_switching() {
                    self.cycle_windows(true)
                } else {
                    self.open_session(false)
                };
                match res {
                    Ok(()) => Ok(
                        DispatchOutcome {
                            response: IpcResponse::Accepted,
                            directive,
                            shutdown: false,
                        },
                    ),
                    Err(e) => Err(e),
                }
            },
            IpcCommand::Prev => {
                let (directive, res) = if self.is_switching() {
                    self.cycle_windows(false)
                } else {
                    self.open_session(true)
                };
                match res {
                    Ok(()) => Ok(
                        DispatchOutcome {
                            response: IpcResponse::Accepted,
                            directive,
                            shutdown: false,
                        },
                    ),
                    Err(e) => Err(e),
                }
            },
            IpcCommand::Select => {
                if self.is_switching() {
                    let (directive, res) = self.finalize_selection();
                    let response = match res {
                        Ok(()) => IpcResponse::Accepted,
                        Err(_) => Self::command_failed_response(),
                    };
                    Ok(DispatchOutcome { response, directive, shutdown: false })
                } else {
                    Ok(
                        DispatchOutcome {
                            response: IpcResponse::Accepted,
                            directive: None,
                            shutdown: false,
                        },
                    )
                }
            },
            IpcCommand::Cancel => {
                let directive = if self.is_switching() {
                    let (directive, _) = self.cancel_switching();
                    directive
                } else {
                    None
                };
                Ok(DispatchOutcome { response: IpcResponse::Accepted, directive, shutdown: false })
            },
            IpcCommand::Status => {
                let response = match &self.switcher {
                    Some(sw) => {
                        let window_count = sw.windows().len();
                        IpcResponse::Status {
                            switching: true,
                            window_count,
                            current_index: Some(sw.current_index()),
                        }
                    },
                    None => IpcResponse::Status {
                        switching: false,
                        window_count: 0,
                        current_index: None,
                    },
                };
                Ok(DispatchOutcome { response, directive: None, shutdown: false })
            },
            IpcCommand::Shutdown => {
                Ok(
                    DispatchOutcome {
                        response: IpcResponse::Accepted,
                        directive: None,
                        shutdown: true,
                    },
                )
            },
        }
    }
}

} // verus!
