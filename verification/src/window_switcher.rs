//! The switching session: a frozen snapshot of candidate windows and a
//! cursor that cycles over them.  All operations are total over empty and
//! non-empty candidate sets; the session is never mutated by compositor
//! events while it is alive.

use vstd::prelude::*;
use vstd::arithmetic::div_mod::{lemma_add_mod_noop, lemma_mod_self_0, lemma_small_mod};

use crate::windows::{WindowInfo, WindowView};

verus! {

/// Where the cursor lands after one cycling step over `len` candidates.
/// A step over an empty candidate set stays at index 0.
pub open spec fn cycle_index(idx: int, len: int, forward: bool) -> int {
    if len == 0 {
        0
    } else if forward {
        (idx + 1) % len
    } else if idx == 0 {
        len - 1
    } else {
        idx - 1
    }
}

/// The cursor after `n` forward cycling steps.
pub open spec fn cycle_forward_n(idx: int, len: int, n: nat) -> int
    decreases n,
{
    if n == 0 {
        idx
    } else {
        cycle_index(cycle_forward_n(idx, len, (n - 1) as nat), len, true)
    }
}

/// `n` forward steps land on `(idx + n) % len`.
pub proof fn lemma_cycle_forward_n_mod(idx: int, len: int, n: nat)
    requires
        len > 0,
        0 <= idx < len,
    ensures
        cycle_forward_n(idx, len, n) == (idx + n) % len,
    decreases n,
{
    if n == 0 {
        lemma_small_mod(idx as nat, len as nat);
    } else {
        let m = (n - 1) as nat;
        lemma_cycle_forward_n_mod(idx, len, m);
        lemma_add_mod_noop(idx + m, 1, len);
        if len == 1 {
            lemma_mod_self_0(len);
        } else {
            lemma_small_mod(1nat, len as nat);
        }
    }
}

/// Cycling forward as many times as there are candidates returns the cursor
/// to where it started.
pub proof fn lemma_cycle_full_loop(idx: int, len: int)
    requires
        len > 0,
        0 <= idx < len,
    ensures
        cycle_forward_n(idx, len, len as nat) == idx,
{
    lemma_cycle_forward_n_mod(idx, len, len as nat);
    lemma_add_mod_noop(idx, len, len);
    lemma_mod_self_0(len);
    lemma_small_mod(idx as nat, len as nat);
    assert((idx + len) % len == (idx % len + len % len) % len);
    assert((idx + len) % len == idx);
}

/// One step forward followed by one step backward is the identity on the
/// cursor.
pub proof fn lemma_cycle_there_and_back(idx: int, len: int)
    requires
        len > 0,
        0 <= idx < len,
    ensures
        cycle_index(cycle_index(idx, len, true), len, false) == idx,
{
    if idx + 1 < len {
        lemma_small_mod((idx + 1) as nat, len as nat);
    } else {
        lemma_mod_self_0(len);
    }
}

/// Manages the candidate list and current selection during a switching
/// session.  Created when switching mode begins and destroyed when the user
/// finalizes or cancels the selection.
pub struct WindowSwitcher {
    windows: Vec<WindowInfo>,
    current_index: usize,
}

impl WindowSwitcher {
    /// The candidate list as the contracts see it.
    pub closed spec fn windows_view(&self) -> Seq<WindowView> {
        self.windows.deep_view()
    }

    /// The cursor as the contracts see it.
    pub closed spec fn index_spec(&self) -> int {
        self.current_index as int
    }

    /// The cursor sits at 0 over an empty candidate set and inside the
    /// candidate range otherwise.
    pub open spec fn wf(&self) -> bool {
        &&& self.windows_view().len() == 0 ==> self.index_spec() == 0
        &&& self.windows_view().len() > 0 ==> 0 <= self.index_spec() < self.windows_view().len()
    }

    /// Create a new session over the given candidates.  If `start_at_next`
    /// is true and there is more than one candidate, the initial selection
    /// is the second entry (the "previous window" of the common two-window
    /// swap); otherwise it is the first.
    pub fn new(windows: Vec<WindowInfo>, start_at_next: bool) -> (r: Self)
        ensures
            r.wf(),
            r.windows_view() == windows.deep_view(),
            r.index_spec() == if start_at_next && windows@.len() > 1 {
                1int
            } else {
                0int
            },
    {
        let current_index: usize = if start_at_next && windows.len() > 1 {
            1
        } else {
            0
        };
        WindowSwitcher { windows, current_index }
    }

    /// The candidate list, frozen for the session's duration.
    pub fn windows(&self) -> (r: &[WindowInfo])
        ensures
            r.deep_view() == self.windows_view(),
    {
        self.windows.as_slice()
    }

    /// The current selection index.
    pub fn current_index(&self) -> (r: usize)
        ensures
            r == self.index_spec(),
    {
        self.current_index
    }

    /// The currently selected window, or none if there are no candidates.
    pub fn current(&self) -> (r: Option<&WindowInfo>)
        requires
            self.wf(),
        ensures
            match r {
                Some(w) => self.windows_view().len() > 0 && w@ == self.windows_view()[
                    self.index_spec()
                ],
                None => self.windows_view().len() == 0,
            },
    {
        if self.current_index < self.windows.len() {
            Some(&self.windows[self.current_index])
        } else {
            None
        }
    }

    /// Whether there are no candidates to switch between.
    pub fn is_empty(&self) -> (r: bool)
        ensures
            r == (self.windows_view().len() == 0),
    {
        self.windows.is_empty()
    }

    /// Cycle the cursor one step forward or backward, circularly, and
    /// return its new position.  A step over an empty candidate set is a
    /// no-op returning 0.
    pub fn cycle(&mut self, forward: bool) -> (r: usize)
        requires
            old(self).wf(),
        ensures
            final(self).wf(),
            final(self).windows_view() == old(self).windows_view(),
            final(self).index_spec() == cycle_index(
                old(self).index_spec(),
                old(self).windows_view().len() as int,
                forward,
            ),
            r == final(self).index_spec(),
    {
        if self.windows.is_empty() {
            return 0;
        }
        let len = self.windows.len();
        self.current_index = if forward {
            if self.current_index + 1 == len {
                0
            } else {
                self.current_index + 1
            }
        } else if self.current_index == 0 {
            len - 1
        } else {
            self.current_index - 1
        };
        proof {
            if forward {
                if old(self).index_spec() + 1 < len {
                    lemma_small_mod((old(self).index_spec() + 1) as nat, len as nat);
                } else {
                    lemma_mod_self_0(len as int);
                }
            }
        }
        self.current_index
    }

    /// Finalize the selection, consuming the session and returning the
    /// selected window, or none if there were no candidates.
    pub fn finalize(self) -> (r: Option<WindowInfo>)
        requires
            self.wf(),
        ensures
            match r {
                Some(w) => self.windows_view().len() > 0 && w@ == self.windows_view()[
                    self.index_spec()
                ],
                None => self.windows_view().len() == 0,
            },
    {
        let mut windows = self.windows;
        if self.current_index < windows.len() {
            Some(windows.remove(self.current_index))
        } else {
            None
        }
    }
}

} // verus!
