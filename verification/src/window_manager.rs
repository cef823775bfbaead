//! The window manager: owns the persistent MRU window list and the current
//! workspace, refreshes them from compositor snapshots, honours focus
//! changes, and offers filtered views of the list.

use vstd::prelude::*;

use crate::config::WorkspaceMode;
use crate::reconcile::{lemma_reconcile_ids, preserve_mru_order, reconcile_spec};
use crate::sway_client::{SwayClient, SwitchError, WorkspaceInfo, WorkspaceView};
use crate::tree::{collect_spec, collect_windows, find_focused_window, focused_spec, TreeNode};
use crate::windows::{
    copy_window_list, distinct_ids, lemma_move_to_front_distinct, move_to_front, WindowInfo,
    WindowView,
};

verus! {

/// The windows whose workspace name is `name`, in order.
pub open spec fn filter_workspace(ws: Seq<WindowView>, name: Seq<char>) -> Seq<WindowView>
    decreases ws.len(),
{
    if ws.len() == 0 {
        Seq::empty()
    } else {
        let rest = filter_workspace(ws.drop_last(), name);
        if ws.last().workspace == name {
            rest.push(ws.last())
        } else {
            rest
        }
    }
}

/// What a filtered view returns: under `Current` with a known workspace,
/// only that workspace's windows; otherwise the whole list.
pub open spec fn filtered_spec(
    ws: Seq<WindowView>,
    cw: Option<Seq<char>>,
    mode: WorkspaceMode,
) -> Seq<WindowView> {
    if mode == WorkspaceMode::Current && cw is Some {
        filter_workspace(ws, cw->0)
    } else {
        ws
    }
}

/// The name of the first workspace marked focused, if any.
pub open spec fn focused_workspace_spec(wss: Seq<WorkspaceView>) -> Option<Seq<char>>
    decreases wss.len(),
{
    if wss.len() == 0 {
        None
    } else if wss[0].focused {
        Some(wss[0].name)
    } else {
        focused_workspace_spec(wss.drop_first())
    }
}

/// Unrolls `filter_workspace` over a one-longer prefix.
proof fn lemma_filter_workspace_snoc(ws: Seq<WindowView>, name: Seq<char>, i: int)
    requires
        0 <= i < ws.len(),
    ensures
        filter_workspace(ws.take(i + 1), name) == if ws[i].workspace == name {
            filter_workspace(ws.take(i), name).push(ws[i])
        } else {
            filter_workspace(ws.take(i), name)
        },
{
    let t = ws.take(i + 1);
    assert(t.drop_last() =~= ws.take(i));
    assert(t.last() == ws[i]);
}

/// The name of the first focused workspace in the list, cloned.
fn focused_workspace_name(wss: &Vec<WorkspaceInfo>) -> (r: Option<String>)
    ensures
        r.deep_view() == focused_workspace_spec(wss.deep_view()),
{
    let ghost all = wss.deep_view();
    proof {
        assert(all.skip(0) =~= all);
    }
    let mut i: usize = 0;
    while i < wss.len()
        invariant
            0 <= i <= wss.len(),
            all == wss.deep_view(),
            all.len() == wss.len(),
            focused_workspace_spec(all) == focused_workspace_spec(all.skip(i as int)),
        decreases wss.len() - i,
    {
        proof {
            assert(all[i as int] == wss@[i as int].deep_view());
            assert(all.skip(i as int)[0] == all[i as int]);
        }
        if wss[i].focused {
            let name = wss[i].name.clone();
            proof {
                assert(focused_workspace_spec(all.skip(i as int)) == Some(all[i as int].name));
            }
            return Some(name);
        }
        proof {
            assert(all.skip(i as int).drop_first() =~= all.skip(i + 1 as int));
        }
        i += 1;
    }
    proof {
        assert(all.skip(all.len() as int) =~= Seq::<WorkspaceView>::empty());
    }
    None
}

/// Manages the window list and its MRU ordering over a compositor
/// connection.
pub struct WindowManager<C: SwayClient> {
    client: C,
    windows: Vec<WindowInfo>,
    current_workspace: Option<String>,
}

impl<C: SwayClient> WindowManager<C> {
    /// The MRU list as the contracts see it: most recently focused first.
    pub closed spec fn mru(&self) -> Seq<WindowView> {
        self.windows.deep_view()
    }

    /// The current workspace name, if one is known.
    pub closed spec fn workspace_name(&self) -> Option<Seq<char>> {
        self.current_workspace.deep_view()
    }

    /// The MRU list never holds two records with the same id.
    pub open spec fn wf(&self) -> bool {
        distinct_ids(self.mru())
    }

    /// Create a manager over a compositor connection and populate it with a
    /// first refresh.  Fails exactly when the tree query fails.
    pub fn with_client(client: C) -> (r: Result<Self, SwitchError>)
        ensures
            match r {
                Ok(m) => m.wf(),
                Err(e) => e == SwitchError::CompositorUnavailable,
            },
    {
        let mut manager = WindowManager { client, windows: Vec::new(), current_workspace: None };
        proof {
            assert(manager.mru() =~= Seq::<WindowView>::empty());
        }
        match manager.refresh() {
            Ok(()) => Ok(manager),
            Err(e) => Err(e),
        }
    }

    /// Fold one window-tree snapshot into the MRU list: reconcile the old
    /// ordering against the windows of the tree, with the tree's focused
    /// window (if any) first.
    pub fn apply_snapshot(&mut self, tree: &TreeNode)
        requires
            old(self).wf(),
        ensures
            final(self).wf(),
            final(self).mru() == reconcile_spec(
                old(self).mru(),
                collect_spec(*tree, Seq::<char>::empty()),
                focused_spec(*tree),
            ),
            final(self).workspace_name() == old(self).workspace_name(),
    {
        let focused_id = find_focused_window(tree);
        let current = collect_windows(tree, "");
        proof {
            reveal_strlit("");
            assert(""@ =~= Seq::<char>::empty());
            lemma_reconcile_ids(
                old(self).mru(),
                collect_spec(*tree, Seq::<char>::empty()),
                focused_spec(*tree),
            );
        }
        let mut old_windows: Vec<WindowInfo> = Vec::new();
        core::mem::swap(&mut old_windows, &mut self.windows);
        self.windows = preserve_mru_order(old_windows, current, focused_id);
    }

    /// Refresh the window list from the compositor, preserving MRU order,
    /// and update the current workspace from the workspace list.  The
    /// workspace update is best-effort: if that query fails the previous
    /// value stays.  If the tree query itself fails, nothing changes and
    /// the previous MRU list is kept untouched.
    pub fn refresh(&mut self) -> (r: Result<(), SwitchError>)
        requires
            old(self).wf(),
        ensures
            final(self).wf(),
            match r {
                Ok(()) => exists|t: TreeNode|
                    final(self).mru() == reconcile_spec(
                        old(self).mru(),
                        collect_spec(t, Seq::<char>::empty()),
                        focused_spec(t),
                    ),
                Err(e) => {
                    &&& e == SwitchError::CompositorUnavailable
                    &&& final(self).mru() == old(self).mru()
                    &&& final(self).workspace_name() == old(self).workspace_name()
                },
            },
    {
        let tree = match self.client.get_tree() {
            Ok(t) => t,
            Err(_) => {
                return Err(SwitchError::CompositorUnavailable);
            },
        };
        self.apply_snapshot(&tree);

        match self.client.get_workspaces() {
            Ok(wss) => {
                self.current_workspace = focused_workspace_name(&wss);
            },
            Err(_) => {
                // Best-effort: keep the previous workspace.
            },
        }
        Ok(())
    }

    /// Move the window with this id to the front of the MRU list; a no-op
    /// when the list does not hold the id.
    pub fn on_focus(&mut self, window_id: i64)
        requires
            old(self).wf(),
        ensures
            final(self).wf(),
            final(self).mru() == move_to_front(old(self).mru(), window_id),
            final(self).workspace_name() == old(self).workspace_name(),
    {
        proof {
            lemma_move_to_front_distinct(self.mru(), window_id);
        }
        if let Some(pos) = crate::reconcile::find_by_id(&self.windows, window_id) {
            proof {
                crate::windows::lemma_index_of_id(self.mru(), window_id);
            }
            let w = self.windows.remove(pos);
            self.windows.insert(0, w);
            proof {
                assert(final(self).mru() =~= move_to_front(old(self).mru(), window_id));
            }
        }
    }

    /// The windows the switcher should offer: under `Current` mode with a
    /// known workspace only that workspace's windows, otherwise the whole
    /// MRU list — in both cases fresh copies, in MRU order.
    pub fn get_filtered_windows(&self, mode: WorkspaceMode) -> (r: Vec<WindowInfo>)
        ensures
            r.deep_view() == filtered_spec(self.mru(), self.workspace_name(), mode),
    {
        match mode {
            WorkspaceMode::Current => {
                match &self.current_workspace {
                    Some(cw) => {
                        let ghost all = self.mru();
                        let ghost name = self.workspace_name()->0;
                        let mut out: Vec<WindowInfo> = Vec::new();
                        let mut i: usize = 0;
                        while i < self.windows.len()
                            invariant
                                0 <= i <= self.windows.len(),
                                all == self.windows.deep_view(),
                                all.len() == self.windows.len(),
                                self.current_workspace.deep_view() == Some(name),
                                cw@ == name,
                                out.deep_view() == filter_workspace(all.take(i as int), name),
                            decreases self.windows.len() - i,
                        {
                            proof {
                                assert(all[i as int] == self.windows@[i as int].deep_view());
                            }
                            let ghost before = out.deep_view();
                            if self.windows[i].workspace == *cw {
                                out.push(self.windows[i].clone());
                                proof {
                                    assert(out.deep_view() =~= before.push(all[i as int]));
                                }
                            }
                            proof {
                                lemma_filter_workspace_snoc(all, name, i as int);
                            }
                            i += 1;
                        }
                        proof {
                            assert(all.take(all.len() as int) =~= all);
                        }
                        out
                    },
                    None => copy_window_list(&self.windows),
                }
            },
            WorkspaceMode::All => copy_window_list(&self.windows),
        }
    }

    /// Ask the compositor to focus this window.  The MRU list itself is
    /// not touched: the ordering update comes from the focus-change event
    /// the compositor sends back, or from the caller.  A rejected command
    /// surfaces as `CompositorCommandFailed`.
    pub fn focus_window(&mut self, window_id: i64) -> (r: Result<(), SwitchError>)
        requires
            old(self).wf(),
        ensures
            final(self).wf(),
            final(self).mru() == old(self).mru(),
            final(self).workspace_name() == old(self).workspace_name(),
            r is Err ==> r == Err::<(), SwitchError>(SwitchError::CompositorCommandFailed),
    {
        match self.client.focus_window(window_id) {
            Ok(()) => Ok(()),
            Err(_) => Err(SwitchError::CompositorCommandFailed),
        }
    }
}

} // verus!
