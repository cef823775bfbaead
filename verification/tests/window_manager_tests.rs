use std::collections::HashSet;

use sway_alttab::reconcile::preserve_mru_order;
use sway_alttab::windows::WindowInfo;

fn make_window(id: i64, title: &str) -> WindowInfo {
    WindowInfo {
        id,
        app_id: Some(format!("app-{}", id)),
        title: title.to_string(),
        workspace: "1".to_string(),
        window_class: None,
    }
}

fn make_window_in_workspace(id: i64, title: &str, workspace: &str) -> WindowInfo {
    WindowInfo {
        id,
        app_id: Some(format!("app-{}", id)),
        title: title.to_string(),
        workspace: workspace.to_string(),
        window_class: None,
    }
}

// ==================== preserve_mru_order tests ====================

#[test]
fn test_preserve_mru_order_empty_lists() {
    let result = preserve_mru_order(vec![], vec![], None);
    assert!(result.is_empty());
}

#[test]
fn test_preserve_mru_order_focused_window_first() {
    let old = vec![make_window(1, "A"), make_window(2, "B")];
    let current = vec![make_window(1, "A"), make_window(2, "B"), make_window(3, "C")];

    let result = preserve_mru_order(old, current, Some(3));

    assert_eq!(result.len(), 3);
    assert_eq!(result[0].id, 3); // Focused window first
    assert_eq!(result[1].id, 1); // Then MRU order
    assert_eq!(result[2].id, 2);
}

#[test]
fn test_preserve_mru_order_removes_closed_windows() {
    let old = vec![make_window(1, "A"), make_window(2, "B"), make_window(3, "C")];
    let current = vec![make_window(1, "A"), make_window(3, "C")]; // Window 2 closed

    let result = preserve_mru_order(old, current, None);

    assert_eq!(result.len(), 2);
    assert_eq!(result[0].id, 1);
    assert_eq!(result[1].id, 3);
}

#[test]
fn test_preserve_mru_order_new_windows_at_end() {
    let old = vec![make_window(1, "A")];
    let current = vec![make_window(1, "A"), make_window(2, "B"), make_window(3, "C")];

    let result = preserve_mru_order(old, current, None);

    assert_eq!(result.len(), 3);
    assert_eq!(result[0].id, 1); // Existing window keeps position
    // New windows at end (order may vary)
    let new_ids: HashSet<_> = result[1..].iter().map(|w| w.id).collect();
    assert!(new_ids.contains(&2));
    assert!(new_ids.contains(&3));
}

#[test]
fn test_preserve_mru_order_focused_already_first() {
    // When focused window is already first in old list
    let old = vec![make_window(1, "A"), make_window(2, "B")];
    let current = vec![make_window(1, "A"), make_window(2, "B")];

    let result = preserve_mru_order(old, current, Some(1));

    assert_eq!(result.len(), 2);
    assert_eq!(result[0].id, 1); // Focused window first
    assert_eq!(result[1].id, 2);
}

#[test]
fn test_preserve_mru_order_focused_window_not_in_current() {
    // Focused window was closed - shouldn't appear in result
    let old = vec![make_window(1, "A"), make_window(2, "B")];
    let current = vec![make_window(1, "A")]; // Window 2 is gone

    let result = preserve_mru_order(old, current, Some(2)); // 2 is focused but gone

    assert_eq!(result.len(), 1);
    assert_eq!(result[0].id, 1);
}

#[test]
fn test_preserve_mru_order_uses_fresh_data() {
    // Ensure titles are updated from current windows
    let old = vec![WindowInfo {
        id: 1,
        app_id: Some("app".to_string()),
        title: "Old Title".to_string(),
        workspace: "1".to_string(),
        window_class: None,
    }];
    let current = vec![WindowInfo {
        id: 1,
        app_id: Some("app".to_string()),
        title: "New Title".to_string(),
        workspace: "1".to_string(),
        window_class: None,
    }];

    let result = preserve_mru_order(old, current, None);

    assert_eq!(result.len(), 1);
    assert_eq!(result[0].title, "New Title"); // Should use fresh data
}

// The reconciliation on identical lists only floats the focused window to
// the front, and doing it again changes nothing.
#[test]
fn test_preserve_mru_order_same_snapshot_floats_focus() {
    let list = vec![make_window(1, "A"), make_window(2, "B"), make_window(3, "C")];
    let once = preserve_mru_order(list.clone(), list.clone(), Some(2));
    let ids: Vec<i64> = once.iter().map(|w| w.id).collect();
    assert_eq!(ids, vec![2, 1, 3]);

    let twice = preserve_mru_order(once.clone(), once.clone(), Some(2));
    let ids_again: Vec<i64> = twice.iter().map(|w| w.id).collect();
    assert_eq!(ids_again, vec![2, 1, 3]);
}

// Shared ids keep their order from the previous list even when the
// snapshot lists them differently.
#[test]
fn test_preserve_mru_order_keeps_previous_order() {
    let old = vec![make_window(3, "C"), make_window(1, "A"), make_window(2, "B")];
    let current = vec![make_window(1, "A"), make_window(2, "B"), make_window(3, "C")];

    let result = preserve_mru_order(old, current, None);
    let ids: Vec<i64> = result.iter().map(|w| w.id).collect();
    assert_eq!(ids, vec![3, 1, 2]);
}

// Even a degenerate previous list with a repeated id yields each id at
// most once: only the first occurrence counts.
#[test]
fn test_preserve_mru_order_duplicate_previous_ids() {
    let old = vec![make_window(1, "A"), make_window(1, "A again")];
    let current = vec![make_window(1, "A")];
    let result = preserve_mru_order(old, current, None);
    assert_eq!(result.len(), 1);
    assert_eq!(result[0].id, 1);

    let old = vec![make_window(1, "A"), make_window(2, "B"), make_window(1, "A again")];
    let current = vec![make_window(1, "A"), make_window(2, "B")];
    let result = preserve_mru_order(old, current, None);
    let ids: Vec<i64> = result.iter().map(|w| w.id).collect();
    assert_eq!(ids, vec![1, 2]);
}

// ==================== WindowInfo tests ====================

#[test]
fn test_window_info_fields() {
    let info = WindowInfo {
        id: 42,
        app_id: Some("alacritty".to_string()),
        title: "Terminal".to_string(),
        workspace: "1".to_string(),
        window_class: Some("Alacritty".to_string()),
    };

    assert_eq!(info.id, 42);
    assert_eq!(info.app_id, Some("alacritty".to_string()));
    assert_eq!(info.title, "Terminal");
    assert_eq!(info.workspace, "1");
    assert_eq!(info.window_class, Some("Alacritty".to_string()));
}

#[test]
fn test_window_info_optional_fields() {
    let info = WindowInfo {
        id: 1,
        app_id: None,
        title: String::new(),
        workspace: "2".to_string(),
        window_class: None,
    };

    assert!(info.app_id.is_none());
    assert!(info.window_class.is_none());
    assert!(info.title.is_empty());
}

// ==================== filtering logic tests ====================

#[test]
fn test_window_info_workspace_filter_logic() {
    // Test the filtering logic directly
    let windows = vec![
        make_window_in_workspace(1, "A", "1"),
        make_window_in_workspace(2, "B", "2"),
        make_window_in_workspace(3, "C", "1"),
    ];

    let current_workspace = "1";

    // Filter for current workspace
    let filtered: Vec<_> = windows
        .iter()
        .filter(|w| w.workspace == current_workspace)
        .collect();

    assert_eq!(filtered.len(), 2);
    assert!(filtered.iter().any(|w| w.id == 1));
    assert!(filtered.iter().any(|w| w.id == 3));
}

#[test]
fn test_window_info_no_filter_all_workspaces() {
    let windows = vec![
        make_window_in_workspace(1, "A", "1"),
        make_window_in_workspace(2, "B", "2"),
        make_window_in_workspace(3, "C", "3"),
    ];

    // No filtering = all windows
    assert_eq!(windows.len(), 3);
}
