use std::cell::Cell;
use std::rc::Rc;

use sway_alttab::config::WorkspaceMode;
use sway_alttab::sway_client::{SwayClient, SwitchError, WorkspaceInfo};
use sway_alttab::tree::{NodeKind, TreeNode};
use sway_alttab::window_manager::WindowManager;

/// A compositor stub with switchable failure modes.
struct FlakyClient {
    tree_fails: Rc<Cell<bool>>,
    focus_fails: bool,
    workspaces: Vec<(String, bool)>,
    windows: Vec<(i64, String, String)>,
}

impl FlakyClient {
    fn build_tree(&self) -> TreeNode {
        let mut names: Vec<String> = Vec::new();
        for (_, _, ws) in &self.windows {
            if !names.contains(ws) {
                names.push(ws.clone());
            }
        }
        let ws_nodes: Vec<TreeNode> = names
            .iter()
            .enumerate()
            .map(|(k, ws)| TreeNode {
                id: 1000 + k as i64,
                kind: NodeKind::Workspace,
                name: Some(ws.clone()),
                pid: None,
                focused: false,
                app_id: None,
                window_class: None,
                nodes: self
                    .windows
                    .iter()
                    .filter(|(_, _, w)| w == ws)
                    .map(|(id, title, _)| TreeNode {
                        id: *id,
                        kind: NodeKind::Container,
                        name: Some(title.clone()),
                        pid: Some(50 + *id as i32),
                        focused: false,
                        app_id: None,
                        window_class: None,
                        nodes: vec![],
                        floating_nodes: vec![],
                    })
                    .collect(),
                floating_nodes: vec![],
            })
            .collect();
        TreeNode {
            id: 1,
            kind: NodeKind::Other,
            name: None,
            pid: None,
            focused: false,
            app_id: None,
            window_class: None,
            nodes: ws_nodes,
            floating_nodes: vec![],
        }
    }
}

impl SwayClient for FlakyClient {
    fn get_tree(&mut self) -> Result<TreeNode, SwitchError> {
        if self.tree_fails.get() {
            Err(SwitchError::CompositorUnavailable)
        } else {
            Ok(self.build_tree())
        }
    }

    fn get_workspaces(&mut self) -> Result<Vec<WorkspaceInfo>, SwitchError> {
        Ok(self
            .workspaces
            .iter()
            .map(|(name, focused)| WorkspaceInfo { name: name.clone(), focused: *focused })
            .collect())
    }

    fn focus_window(&mut self, _window_id: i64) -> Result<(), SwitchError> {
        if self.focus_fails {
            Err(SwitchError::CompositorCommandFailed)
        } else {
            Ok(())
        }
    }
}

fn two_workspace_client() -> FlakyClient {
    FlakyClient {
        tree_fails: Rc::new(Cell::new(false)),
        focus_fails: false,
        workspaces: vec![("1".to_string(), true), ("2".to_string(), false)],
        windows: vec![
            (1, "A".to_string(), "1".to_string()),
            (2, "B".to_string(), "2".to_string()),
            (3, "C".to_string(), "1".to_string()),
        ],
    }
}

// An unavailable compositor fails construction with the matching error.
#[test]
fn test_with_client_compositor_unavailable() {
    let client = FlakyClient {
        tree_fails: Rc::new(Cell::new(true)),
        focus_fails: false,
        workspaces: vec![],
        windows: vec![],
    };
    match WindowManager::with_client(client) {
        Err(e) => assert_eq!(e, SwitchError::CompositorUnavailable),
        Ok(_) => panic!("construction must fail when the tree query fails"),
    }
}

// Current-workspace mode offers only the focused workspace's windows; All
// offers the whole MRU list.
#[test]
fn test_filtered_views() {
    let manager = WindowManager::with_client(two_workspace_client()).unwrap();

    let current: Vec<i64> = manager
        .get_filtered_windows(WorkspaceMode::Current)
        .iter()
        .map(|w| w.id)
        .collect();
    assert_eq!(current, vec![1, 3]);

    let all: Vec<i64> = manager
        .get_filtered_windows(WorkspaceMode::All)
        .iter()
        .map(|w| w.id)
        .collect();
    assert_eq!(all, vec![1, 3, 2]);
}

// A focus update moves the window to the front; an unknown id is a no-op.
#[test]
fn test_on_focus_moves_to_front() {
    let mut manager = WindowManager::with_client(two_workspace_client()).unwrap();

    manager.on_focus(2);
    let ids: Vec<i64> = manager
        .get_filtered_windows(WorkspaceMode::All)
        .iter()
        .map(|w| w.id)
        .collect();
    assert_eq!(ids, vec![2, 1, 3]);

    manager.on_focus(999);
    let ids: Vec<i64> = manager
        .get_filtered_windows(WorkspaceMode::All)
        .iter()
        .map(|w| w.id)
        .collect();
    assert_eq!(ids, vec![2, 1, 3]);
}

// A failing refresh keeps the previous MRU list untouched.
#[test]
fn test_failed_refresh_keeps_previous_list() {
    let client = two_workspace_client();
    let fail_switch = client.tree_fails.clone();
    let mut manager = WindowManager::with_client(client).unwrap();
    manager.on_focus(3);

    fail_switch.set(true);
    assert_eq!(manager.refresh(), Err(SwitchError::CompositorUnavailable));

    // The previous list, with its MRU order, is still there.
    let ids: Vec<i64> = manager
        .get_filtered_windows(WorkspaceMode::All)
        .iter()
        .map(|w| w.id)
        .collect();
    assert_eq!(ids, vec![3, 1, 2]);
}

// A rejected focus command surfaces as CompositorCommandFailed and leaves
// the list alone.
#[test]
fn test_focus_window_failure_surfaces() {
    let mut client = two_workspace_client();
    client.focus_fails = true;
    let mut manager = WindowManager::with_client(client).unwrap();
    assert_eq!(manager.focus_window(1), Err(SwitchError::CompositorCommandFailed));
    let ids: Vec<i64> = manager
        .get_filtered_windows(WorkspaceMode::All)
        .iter()
        .map(|w| w.id)
        .collect();
    assert_eq!(ids, vec![1, 3, 2]);
}
