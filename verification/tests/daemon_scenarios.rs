use std::cell::RefCell;
use std::rc::Rc;

use sway_alttab::config::{Config, WorkspaceMode};
use sway_alttab::daemon::{Daemon, WindowEvent};
use sway_alttab::ipc::{IpcCommand, IpcResponse};
use sway_alttab::sway_client::{SwayClient, SwitchError, WorkspaceInfo};
use sway_alttab::tree::{NodeKind, TreeNode};
use sway_alttab::ui_commands::UiCommand;

/// A compositor stub: serves a fixed set of windows and records the focus
/// commands it receives.
struct MockClient {
    /// (id, title, workspace) of each window, in snapshot order.
    windows: Vec<(i64, String, String)>,
    focused: Option<i64>,
    focus_calls: Rc<RefCell<Vec<i64>>>,
    focus_fails: bool,
}

fn window_node(id: i64, title: &str) -> TreeNode {
    TreeNode {
        id,
        kind: NodeKind::Container,
        name: Some(title.to_string()),
        pid: Some(100 + id as i32),
        focused: false,
        app_id: Some(format!("app-{}", id)),
        window_class: None,
        nodes: vec![],
        floating_nodes: vec![],
    }
}

impl MockClient {
    fn build_tree(&self) -> TreeNode {
        let mut workspaces: Vec<String> = Vec::new();
        for (_, _, ws) in &self.windows {
            if !workspaces.contains(ws) {
                workspaces.push(ws.clone());
            }
        }
        let ws_nodes: Vec<TreeNode> = workspaces
            .iter()
            .enumerate()
            .map(|(k, ws)| TreeNode {
                id: 1000 + k as i64,
                kind: NodeKind::Workspace,
                name: Some(ws.clone()),
                pid: None,
                focused: false,
                app_id: None,
                window_class: None,
                nodes: self
                    .windows
                    .iter()
                    .filter(|(_, _, w)| w == ws)
                    .map(|(id, title, _)| {
                        let mut n = window_node(*id, title);
                        n.focused = self.focused == Some(*id);
                        n
                    })
                    .collect(),
                floating_nodes: vec![],
            })
            .collect();
        TreeNode {
            id: 1,
            kind: NodeKind::Other,
            name: Some("root".to_string()),
            pid: None,
            focused: false,
            app_id: None,
            window_class: None,
            nodes: ws_nodes,
            floating_nodes: vec![],
        }
    }
}

impl SwayClient for MockClient {
    fn get_tree(&mut self) -> Result<TreeNode, SwitchError> {
        Ok(self.build_tree())
    }

    fn get_workspaces(&mut self) -> Result<Vec<WorkspaceInfo>, SwitchError> {
        Ok(vec![])
    }

    fn focus_window(&mut self, window_id: i64) -> Result<(), SwitchError> {
        self.focus_calls.borrow_mut().push(window_id);
        if self.focus_fails {
            Err(SwitchError::CompositorCommandFailed)
        } else {
            Ok(())
        }
    }
}

fn three_window_daemon() -> (Daemon<MockClient>, Rc<RefCell<Vec<i64>>>) {
    let calls = Rc::new(RefCell::new(Vec::new()));
    let client = MockClient {
        windows: vec![
            (1, "A".to_string(), "1".to_string()),
            (2, "B".to_string(), "1".to_string()),
            (3, "C".to_string(), "1".to_string()),
        ],
        focused: None,
        focus_calls: calls.clone(),
        focus_fails: false,
    };
    let config = Config { mode: WorkspaceMode::All, verbose: false, command: None };
    let daemon = Daemon::new(config, client).expect("mock tree query cannot fail");
    (daemon, calls)
}

fn show_candidate_ids(daemon: &mut Daemon<MockClient>) -> Vec<i64> {
    let outcome = daemon.handle_ipc_command(IpcCommand::Show).expect("show");
    match outcome.directive {
        Some(UiCommand::Show { windows, .. }) => windows.iter().map(|w| w.id).collect(),
        other => panic!("expected a Show directive, got {:?}", other),
    }
}

// Scenario: windows [A(1), B(2), C(3)], MRU [1,2,3], no focus.  `show`
// opens a session on B, `next` moves to C, `select` focuses id 3 and the
// MRU order becomes [3,1,2] with the daemon idle again.
#[test]
fn test_show_next_select_scenario() {
    let (mut daemon, calls) = three_window_daemon();

    let outcome = daemon.handle_ipc_command(IpcCommand::Show).expect("show");
    match &outcome.directive {
        Some(UiCommand::Show { windows, initial_index }) => {
            let ids: Vec<i64> = windows.iter().map(|w| w.id).collect();
            assert_eq!(ids, vec![1, 2, 3]);
            assert_eq!(*initial_index, 1);
            assert_eq!(windows[*initial_index].id, 2); // B is pre-selected
        },
        other => panic!("expected a Show directive, got {:?}", other),
    }

    let outcome = daemon.handle_ipc_command(IpcCommand::Next).expect("next");
    match &outcome.directive {
        Some(UiCommand::UpdateSelection { index }) => assert_eq!(*index, 2), // C
        other => panic!("expected an UpdateSelection directive, got {:?}", other),
    }

    let outcome = daemon.handle_ipc_command(IpcCommand::Select).expect("select");
    assert!(matches!(outcome.directive, Some(UiCommand::Hide)));
    assert_eq!(*calls.borrow(), vec![3]); // the compositor was asked to focus C

    // Idle again...
    let status = daemon.handle_ipc_command(IpcCommand::Status).expect("status");
    match status.response {
        IpcResponse::Status { switching, window_count, current_index } => {
            assert!(!switching);
            assert_eq!(window_count, 0);
            assert_eq!(current_index, None);
        },
        other => panic!("expected a status response, got {:?}", other),
    }

    // ...and the MRU order is now [3,1,2], as the next session shows.
    assert_eq!(show_candidate_ids(&mut daemon), vec![3, 1, 2]);
}

// Scenario: a focus-change event for id 2 while Idle moves it to the front
// of the MRU order; the same event while Switching leaves the order alone.
#[test]
fn test_focus_event_idle_vs_switching() {
    let (mut daemon, _) = three_window_daemon();

    // Idle: MRU [1,2,3] becomes [2,1,3].
    daemon.handle_window_event(WindowEvent::Focus(2));
    let ids = show_candidate_ids(&mut daemon); // also opens a session
    assert_eq!(ids, vec![2, 1, 3]);

    // Switching: the same event must not reorder anything.
    daemon.handle_window_event(WindowEvent::Focus(3));
    daemon.handle_ipc_command(IpcCommand::Cancel).expect("cancel");
    assert_eq!(show_candidate_ids(&mut daemon), vec![2, 1, 3]);
}

// Scenario: `show` with zero windows in the filtered view leaves the
// daemon Idle and emits no directive.
#[test]
fn test_show_with_no_windows_stays_idle() {
    let calls = Rc::new(RefCell::new(Vec::new()));
    let client = MockClient { windows: vec![], focused: None, focus_calls: calls, focus_fails: false };
    let config = Config { mode: WorkspaceMode::All, verbose: false, command: None };
    let mut daemon = Daemon::new(config, client).expect("mock tree query cannot fail");

    let outcome = daemon.handle_ipc_command(IpcCommand::Show).expect("show");
    assert!(outcome.directive.is_none());
    assert!(!outcome.shutdown);
    assert!(matches!(outcome.response, IpcResponse::Accepted));

    let status = daemon.handle_ipc_command(IpcCommand::Status).expect("status");
    match status.response {
        IpcResponse::Status { switching, window_count, current_index } => {
            assert!(!switching);
            assert_eq!(window_count, 0);
            assert_eq!(current_index, None);
        },
        other => panic!("expected a status response, got {:?}", other),
    }
}

// `prev` from Idle opens a session and immediately cycles backward,
// landing on the last candidate.
#[test]
fn test_prev_from_idle_lands_on_last() {
    let (mut daemon, _) = three_window_daemon();

    let outcome = daemon.handle_ipc_command(IpcCommand::Prev).expect("prev");
    match &outcome.directive {
        Some(UiCommand::Show { windows, initial_index }) => {
            assert_eq!(windows.len(), 3);
            assert_eq!(*initial_index, 2);
        },
        other => panic!("expected a Show directive, got {:?}", other),
    }
}

// `shutdown` asks the loop to stop without touching any state.
#[test]
fn test_shutdown_outcome() {
    let (mut daemon, _) = three_window_daemon();
    let outcome = daemon.handle_ipc_command(IpcCommand::Shutdown).expect("shutdown");
    assert!(outcome.shutdown);
    assert!(outcome.directive.is_none());
    assert!(matches!(outcome.response, IpcResponse::Accepted));
}

// When the compositor rejects the focus command on select, the session
// still ends, the Hide directive still goes out so the overlay never
// outlives the session, the MRU order is untouched, and the client gets
// an error response.
#[test]
fn test_select_with_rejected_focus_still_hides() {
    let calls = Rc::new(RefCell::new(Vec::new()));
    let client = MockClient {
        windows: vec![
            (1, "A".to_string(), "1".to_string()),
            (2, "B".to_string(), "1".to_string()),
            (3, "C".to_string(), "1".to_string()),
        ],
        focused: None,
        focus_calls: calls,
        focus_fails: true,
    };
    let config = Config { mode: WorkspaceMode::All, verbose: false, command: None };
    let mut daemon = Daemon::new(config, client).expect("mock tree query cannot fail");

    daemon.handle_ipc_command(IpcCommand::Show).expect("show");
    let outcome = daemon.handle_ipc_command(IpcCommand::Select).expect("select");
    assert!(matches!(outcome.directive, Some(UiCommand::Hide)));
    match outcome.response {
        IpcResponse::Error(msg) => assert_eq!(msg, "compositor command failed"),
        other => panic!("expected an error response, got {:?}", other),
    }

    // Idle again, and the MRU order was not touched.
    let status = daemon.handle_ipc_command(IpcCommand::Status).expect("status");
    match status.response {
        IpcResponse::Status { switching, .. } => assert!(!switching),
        other => panic!("expected a status response, got {:?}", other),
    }
    assert_eq!(show_candidate_ids(&mut daemon), vec![1, 2, 3]);
}

// A compositor that reports a focused window floats it to the front of
// the first refresh.
#[test]
fn test_initial_refresh_honours_focus() {
    let calls = Rc::new(RefCell::new(Vec::new()));
    let client = MockClient {
        windows: vec![
            (1, "A".to_string(), "1".to_string()),
            (2, "B".to_string(), "1".to_string()),
            (3, "C".to_string(), "1".to_string()),
        ],
        focused: Some(2),
        focus_calls: calls,
        focus_fails: false,
    };
    let config = Config { mode: WorkspaceMode::All, verbose: false, command: None };
    let mut daemon = Daemon::new(config, client).expect("mock tree query cannot fail");
    assert_eq!(show_candidate_ids(&mut daemon), vec![2, 1, 3]);
}
