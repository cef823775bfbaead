//! The window snapshot collector: walks the compositor's window tree,
//! modelled with plain values, and flattens it into window records plus the
//! focused window id.  A node counts as a window when it is a container
//! with a process attached; each window inherits the workspace name of its
//! nearest enclosing workspace node.

use vstd::prelude::*;

use crate::windows::{WindowInfo, WindowView};

verus! {

/// The kinds of tree node the collector tells apart: workspace nodes give
/// their name to the windows below them, containers with a process are the
/// windows themselves, everything else is layout.
#[derive(Debug, Clone, Copy, PartialEq, Eq, Structural)]
pub enum NodeKind {
    Workspace,
    Container,
    Other,
}

/// A node of the compositor's window tree, with the fields the collector
/// reads.
#[derive(Debug)]
pub struct TreeNode {
    pub id: i64,
    pub kind: NodeKind,
    pub name: Option<String>,
    pub pid: Option<i32>,
    pub focused: bool,
    pub app_id: Option<String>,
    pub window_class: Option<String>,
    pub nodes: Vec<TreeNode>,
    pub floating_nodes: Vec<TreeNode>,
}

/// Whether a node stands for an actual window (a view): a container with a
/// process attached.  Layout containers have no process.
pub open spec fn is_window(n: TreeNode) -> bool {
    n.kind == NodeKind::Container && n.pid is Some
}

/// The workspace name the descendants of `n` inherit: the node's own name
/// if it is a named workspace, the inherited one otherwise.
pub open spec fn workspace_below(n: TreeNode, ws: Seq<char>) -> Seq<char> {
    if n.kind == NodeKind::Workspace && n.name is Some {
        n.name->0@
    } else {
        ws
    }
}

/// The window record a qualifying node yields: a missing title becomes the
/// empty string.
pub open spec fn window_of(n: TreeNode, ws: Seq<char>) -> WindowView {
    WindowView {
        id: n.id,
        app_id: n.app_id.deep_view(),
        title: match n.name {
            Some(t) => t@,
            None => Seq::empty(),
        },
        workspace: ws,
        window_class: n.window_class.deep_view(),
    }
}

/// All windows at or below `n`, depth-first, tiled children before
/// floating ones, each labelled with its nearest workspace name.
pub open spec fn collect_spec(n: TreeNode, ws: Seq<char>) -> Seq<WindowView>
    decreases n,
{
    let below = workspace_below(n, ws);
    let own = if is_window(n) {
        seq![window_of(n, below)]
    } else {
        Seq::empty()
    };
    own + collect_list(n.nodes@, below) + collect_list(n.floating_nodes@, below)
}

/// The windows of a list of sibling subtrees, in order.
pub open spec fn collect_list(ns: Seq<TreeNode>, ws: Seq<char>) -> Seq<WindowView>
    decreases ns,
{
    if ns.len() == 0 {
        Seq::empty()
    } else {
        collect_list(ns.drop_last(), ws) + collect_spec(ns.last(), ws)
    }
}

/// The id of the first focused window at or below `n`, depth-first: the
/// node itself, then its tiled children, then its floating children.
/// Focused nodes that are not windows do not count.
pub open spec fn focused_spec(n: TreeNode) -> Option<i64>
    decreases n,
{
    if is_window(n) && n.focused {
        Some(n.id)
    } else {
        match focused_list(n.nodes@) {
            Some(id) => Some(id),
            None => focused_list(n.floating_nodes@),
        }
    }
}

/// The first focused window id found across a list of sibling subtrees.
pub open spec fn focused_list(ns: Seq<TreeNode>) -> Option<i64>
    decreases ns,
{
    if ns.len() == 0 {
        None
    } else {
        match focused_list(ns.drop_last()) {
            Some(id) => Some(id),
            None => focused_spec(ns.last()),
        }
    }
}

/// Unrolls `collect_list` over a one-longer prefix.
proof fn lemma_collect_list_snoc(ns: Seq<TreeNode>, ws: Seq<char>, i: int)
    requires
        0 <= i < ns.len(),
    ensures
        collect_list(ns.take(i + 1), ws) == collect_list(ns.take(i), ws) + collect_spec(ns[i], ws),
{
    let t = ns.take(i + 1);
    assert(t.drop_last() =~= ns.take(i));
    assert(t.last() == ns[i]);
}

/// Unrolls `focused_list` over a one-longer prefix.
proof fn lemma_focused_list_snoc(ns: Seq<TreeNode>, i: int)
    requires
        0 <= i < ns.len(),
    ensures
        focused_list(ns.take(i + 1)) == match focused_list(ns.take(i)) {
            Some(id) => Some(id),
            None => focused_spec(ns[i]),
        },
{
    let t = ns.take(i + 1);
    assert(t.drop_last() =~= ns.take(i));
    assert(t.last() == ns[i]);
}

/// Once a prefix of the sibling list yields a focused id, the whole list
/// yields the same id.
proof fn lemma_focused_list_prefix(ns: Seq<TreeNode>, j: int)
    requires
        0 <= j <= ns.len(),
        focused_list(ns.take(j)) is Some,
    ensures
        focused_list(ns) == focused_list(ns.take(j)),
    decreases ns.len(),
{
    if j == ns.len() {
        assert(ns.take(j) =~= ns);
    } else {
        assert(ns.len() > 0);
        assert(ns.drop_last().take(j) =~= ns.take(j));
        lemma_focused_list_prefix(ns.drop_last(), j);
    }
}

impl WindowInfo {
    /// The window record of a tree node: present exactly when the node is
    /// an actual window — a container with a process attached — and then
    /// labelled with the given workspace name.
    pub fn from_node(node: &TreeNode, workspace: String) -> (r: Option<WindowInfo>)
        ensures
            r.deep_view() == if is_window(*node) {
                Some(window_of(*node, workspace@))
            } else {
                None::<WindowView>
            },
    {
        if node.kind == NodeKind::Container && node.pid.is_some() {
            let title = match &node.name {
                Some(t) => t.clone(),
                None => String::new(),
            };
            Some(
                WindowInfo {
                    id: node.id,
                    app_id: node.app_id.clone(),
                    title,
                    workspace,
                    window_class: node.window_class.clone(),
                },
            )
        } else {
            None
        }
    }
}

/// Flatten the tree below `node` into a list of window records, depth
/// first, labelling each with the nearest workspace name above it.
pub fn collect_windows(node: &TreeNode, current_workspace: &str) -> (r: Vec<WindowInfo>)
    ensures
        r.deep_view() == collect_spec(*node, current_workspace@),
    decreases *node,
{
    let workspace: &str = if node.kind == NodeKind::Workspace {
        match &node.name {
            Some(n) => n.as_str(),
            None => current_workspace,
        }
    } else {
        current_workspace
    };
    let ghost below = workspace_below(*node, current_workspace@);
    proof {
        assert(workspace@ == below);
    }

    let mut windows: Vec<WindowInfo> = Vec::new();
    if let Some(w) = WindowInfo::from_node(node, workspace.to_owned()) {
        windows.push(w);
    }
    let ghost own = if is_window(*node) {
        seq![window_of(*node, below)]
    } else {
        Seq::<WindowView>::empty()
    };
    proof {
        assert(windows.deep_view() =~= own);
    }

    let mut i: usize = 0;
    while i < node.nodes.len()
        invariant
            0 <= i <= node.nodes.len(),
            below == workspace_below(*node, current_workspace@),
            workspace@ == below,
            own == if is_window(*node) {
                seq![window_of(*node, below)]
            } else {
                Seq::<WindowView>::empty()
            },
            windows.deep_view() == own + collect_list(node.nodes@.take(i as int), below),
        decreases node.nodes.len() - i,
    {
        proof {
            assert(decreases_to!(*node => node.nodes@[i as int]));
        }
        let ghost before = windows.deep_view();
        let mut child = collect_windows(&node.nodes[i], workspace);
        let ghost child_dv = child.deep_view();
        proof {
            assert(child_dv == collect_spec(node.nodes@[i as int], below));
        }
        windows.append(&mut child);
        proof {
            assert(windows.deep_view() =~= before + child_dv);
            lemma_collect_list_snoc(node.nodes@, below, i as int);
            assert(windows.deep_view() =~= own + collect_list(
                node.nodes@.take(i + 1 as int),
                below,
            ));
        }
        i += 1;
    }
    proof {
        assert(node.nodes@.take(node.nodes@.len() as int) =~= node.nodes@);
    }

    let mut j: usize = 0;
    while j < node.floating_nodes.len()
        invariant
            0 <= j <= node.floating_nodes.len(),
            below == workspace_below(*node, current_workspace@),
            workspace@ == below,
            own == if is_window(*node) {
                seq![window_of(*node, below)]
            } else {
                Seq::<WindowView>::empty()
            },
            windows.deep_view() == own + collect_list(node.nodes@, below) + collect_list(
                node.floating_nodes@.take(j as int),
                below,
            ),
        decreases node.floating_nodes.len() - j,
    {
        proof {
            assert(decreases_to!(*node => node.floating_nodes@[j as int]));
        }
        let ghost before = windows.deep_view();
        let mut child = collect_windows(&node.floating_nodes[j], workspace);
        let ghost child_dv = child.deep_view();
        proof {
            assert(child_dv == collect_spec(node.floating_nodes@[j as int], below));
        }
        windows.append(&mut child);
        proof {
            assert(windows.deep_view() =~= before + child_dv);
            lemma_collect_list_snoc(node.floating_nodes@, below, j as int);
            assert(windows.deep_view() =~= own + collect_list(node.nodes@, below) + collect_list(
                node.floating_nodes@.take(j + 1 as int),
                below,
            ));
        }
        j += 1;
    }
    proof {
        assert(node.floating_nodes@.take(node.floating_nodes@.len() as int)
            =~= node.floating_nodes@);
    }
    windows
}

/// The id of the currently focused window in the tree below `node`, if
/// any: the first node in depth-first order that is both focused and an
/// actual window.  Focused layout containers are not windows.
pub fn find_focused_window(node: &TreeNode) -> (r: Option<i64>)
    ensures
        r == focused_spec(*node),
    decreases *node,
{
    if node.kind == NodeKind::Container && node.focused && node.pid.is_some() {
        return Some(node.id);
    }

    let mut i: usize = 0;
    while i < node.nodes.len()
        invariant
            0 <= i <= node.nodes.len(),
            !(is_window(*node) && node.focused),
            focused_list(node.nodes@.take(i as int)) is None,
        decreases node.nodes.len() - i,
    {
        proof {
            assert(decreases_to!(*node => node.nodes@[i as int]));
        }
        let found = find_focused_window(&node.nodes[i]);
        proof {
            lemma_focused_list_snoc(node.nodes@, i as int);
        }
        if let Some(id) = found {
            proof {
                lemma_focused_list_prefix(node.nodes@, i + 1 as int);
            }
            return Some(id);
        }
        i += 1;
    }
    proof {
        assert(node.nodes@.take(node.nodes@.len() as int) =~= node.nodes@);
    }

    let mut j: usize = 0;
    while j < node.floating_nodes.len()
        invariant
            0 <= j <= node.floating_nodes.len(),
            !(is_window(*node) && node.focused),
            focused_list(node.nodes@) is None,
            focused_list(node.floating_nodes@.take(j as int)) is None,
        decreases node.floating_nodes.len() - j,
    {
        proof {
            assert(decreases_to!(*node => node.floating_nodes@[j as int]));
        }
        let found = find_focused_window(&node.floating_nodes[j]);
        proof {
            lemma_focused_list_snoc(node.floating_nodes@, j as int);
        }
        if let Some(id) = found {
            proof {
                lemma_focused_list_prefix(node.floating_nodes@, j + 1 as int);
            }
            return Some(id);
        }
        j += 1;
    }
    proof {
        assert(node.floating_nodes@.take(node.floating_nodes@.len() as int)
            =~= node.floating_nodes@);
    }
    None
}

} // verus!
