//! The MRU reconciler: merges the previous MRU ordering with a fresh window
//! snapshot.  The focused window comes first, windows known before keep
//! their relative order (with fresh metadata), newly discovered windows are
//! appended in snapshot order, and closed windows are dropped.

use vstd::prelude::*;

use crate::windows::{
    contains_id, distinct_ids, first_with_id, index_of_id, lemma_first_at, lemma_index_of_id,
    lemma_index_of_id_is, move_to_front, WindowInfo, WindowView,
};

verus! {

/// The focus id that reconciliation honours: the requested id when the
/// snapshot still holds it, nothing otherwise.
pub open spec fn effective_focus(cur: Seq<WindowView>, focused: Option<i64>) -> Option<i64> {
    match focused {
        Some(f) => if contains_id(cur, f) {
            Some(f)
        } else {
            None
        },
        None => None,
    }
}

/// Phase one of reconciliation: the focused window, with its fresh record,
/// when the snapshot holds it.
pub open spec fn head_part(cur: Seq<WindowView>, focused: Option<i64>) -> Seq<WindowView> {
    match effective_focus(cur, focused) {
        Some(f) => seq![first_with_id(cur, f)],
        None => Seq::empty(),
    }
}

/// Phase two of reconciliation: the windows of `prev`, in their order, that
/// the snapshot still holds and that are not the already-placed focus,
/// each replaced by its fresh record from `cur`.  Each id is placed at
/// most once: only its first occurrence in `prev` counts.
pub open spec fn kept_part(
    prev: Seq<WindowView>,
    cur: Seq<WindowView>,
    skip: Option<i64>,
) -> Seq<WindowView>
    decreases prev.len(),
{
    if prev.len() == 0 {
        Seq::empty()
    } else {
        let rest = kept_part(prev.drop_last(), cur, skip);
        let w = prev.last();
        if skip != Some(w.id) && contains_id(cur, w.id) && !contains_id(prev.drop_last(), w.id) {
            rest.push(first_with_id(cur, w.id))
        } else {
            rest
        }
    }
}

/// Phase three of reconciliation: the windows of `cur`, in snapshot order,
/// whose id is new — not the focus, not known from `prev`, and not seen
/// earlier in the snapshot.
pub open spec fn new_part(
    cur: Seq<WindowView>,
    prev: Seq<WindowView>,
    skip: Option<i64>,
) -> Seq<WindowView>
    decreases cur.len(),
{
    if cur.len() == 0 {
        Seq::empty()
    } else {
        let rest = new_part(cur.drop_last(), prev, skip);
        let w = cur.last();
        if skip != Some(w.id) && !contains_id(prev, w.id) && !contains_id(cur.drop_last(), w.id) {
            rest.push(w)
        } else {
            rest
        }
    }
}

/// The reconciled MRU list: focused window first, then the surviving
/// windows of `prev` in their order with fresh records, then the windows
/// new to the snapshot.
pub open spec fn reconcile_spec(
    prev: Seq<WindowView>,
    cur: Seq<WindowView>,
    focused: Option<i64>,
) -> Seq<WindowView> {
    let eff = effective_focus(cur, focused);
    head_part(cur, focused) + kept_part(prev, cur, eff) + new_part(cur, prev, eff)
}

/// Index of the first record with the given id, scanning from the front.
pub fn find_by_id(v: &Vec<WindowInfo>, id: i64) -> (r: Option<usize>)
    ensures
        match r {
            Some(k) => contains_id(v.deep_view(), id) && k == index_of_id(v.deep_view(), id),
            None => !contains_id(v.deep_view(), id),
        },
{
    let ghost s = v.deep_view();
    let mut i: usize = 0;
    while i < v.len()
        invariant
            0 <= i <= v.len(),
            s == v.deep_view(),
            s.len() == v.len(),
            forall|j: int| 0 <= j < i ==> s[j].id != id,
        decreases v.len() - i,
    {
        proof {
            assert(s[i as int] == v@[i as int].deep_view());
        }
        if v[i].id == id {
            proof {
                assert(s[i as int].id == id);
                assert(contains_id(s, id));
                lemma_index_of_id(s, id);
                assert(index_of_id(s, id) == i as int) by {
                    lemma_index_of_id(s, id);
                    let k = index_of_id(s, id);
                    if k < i as int {
                        assert(s[k].id != id);
                    } else if k > i as int {
                        assert(s[i as int].id != id);
                    }
                }
            }
            return Some(i);
        }
        i += 1;
    }
    proof {
        if contains_id(s, id) {
            let w = choose|j: int| 0 <= j < s.len() && s[j].id == id;
            assert(s[w].id != id);
        }
    }
    None
}

/// A prefix holds the id exactly when the first occurrence lies inside it.
proof fn lemma_contains_take(s: Seq<WindowView>, j: int, id: i64)
    requires
        0 <= j <= s.len(),
    ensures
        contains_id(s.take(j), id) <==> (contains_id(s, id) && index_of_id(s, id) < j),
{
    if contains_id(s.take(j), id) {
        let w = choose|i: int| 0 <= i < s.take(j).len() && s.take(j)[i].id == id;
        assert(s[w].id == id);
        assert(contains_id(s, id));
        lemma_index_of_id(s, id);
        let k = index_of_id(s, id);
        if k >= j {
            assert(s[w].id != id);
        }
    }
    if contains_id(s, id) && index_of_id(s, id) < j {
        lemma_index_of_id(s, id);
        let k = index_of_id(s, id);
        assert(s.take(j)[k].id == id);
    }
}

/// Unrolls `kept_part` over a one-longer prefix of `prev`.
proof fn lemma_kept_part_snoc(
    prev: Seq<WindowView>,
    cur: Seq<WindowView>,
    skip: Option<i64>,
    i: int,
)
    requires
        0 <= i < prev.len(),
    ensures
        kept_part(prev.take(i + 1), cur, skip) == if skip != Some(prev[i].id) && contains_id(
            cur,
            prev[i].id,
        ) && !contains_id(prev.take(i), prev[i].id) {
            kept_part(prev.take(i), cur, skip).push(first_with_id(cur, prev[i].id))
        } else {
            kept_part(prev.take(i), cur, skip)
        },
{
    let t = prev.take(i + 1);
    assert(t.len() == i + 1);
    assert(t.drop_last() =~= prev.take(i));
    assert(t.last() == prev[i]);
}

/// Unrolls `new_part` over a one-longer prefix of `cur`.
proof fn lemma_new_part_snoc(
    cur: Seq<WindowView>,
    prev: Seq<WindowView>,
    skip: Option<i64>,
    j: int,
)
    requires
        0 <= j < cur.len(),
    ensures
        new_part(cur.take(j + 1), prev, skip) == if skip != Some(cur[j].id) && !contains_id(
            prev,
            cur[j].id,
        ) && !contains_id(cur.take(j), cur[j].id) {
            new_part(cur.take(j), prev, skip).push(cur[j])
        } else {
            new_part(cur.take(j), prev, skip)
        },
{
    let t = cur.take(j + 1);
    assert(t.len() == j + 1);
    assert(t.drop_last() =~= cur.take(j));
    assert(t.last() == cur[j]);
}

/// Merge the previous MRU ordering with a fresh snapshot: the focused
/// window first, previously known windows next in their old order but with
/// fresh records, newly discovered windows last in snapshot order; windows
/// absent from the snapshot are dropped.  Each id is placed at most once,
/// whatever the inputs hold.
pub fn preserve_mru_order(
    old_windows: Vec<WindowInfo>,
    current_windows: Vec<WindowInfo>,
    focused_id: Option<i64>,
) -> (result: Vec<WindowInfo>)
    ensures
        result.deep_view() == reconcile_spec(
            old_windows.deep_view(),
            current_windows.deep_view(),
            focused_id,
        ),
        distinct_ids(result.deep_view()),
        forall|id: i64|
            #[trigger] contains_id(result.deep_view(), id) <==> contains_id(
                current_windows.deep_view(),
                id,
            ),
{
    proof {
        lemma_reconcile_ids(old_windows.deep_view(), current_windows.deep_view(), focused_id);
    }
    let ghost prev = old_windows.deep_view();
    let ghost cur = current_windows.deep_view();
    let ghost eff = effective_focus(cur, focused_id);

    let mut result: Vec<WindowInfo> = Vec::new();

    // Phase one: the focused window, if the snapshot holds it.
    let eff_id: Option<i64> = match focused_id {
        Some(fid) => match find_by_id(&current_windows, fid) {
            Some(k) => {
                proof {
                    lemma_index_of_id(cur, fid);
                    assert(cur[k as int] == current_windows@[k as int].deep_view());
                }
                let fresh = current_windows[k].clone();
                proof {
                    assert(fresh@ == first_with_id(cur, fid));
                }
                result.push(fresh);
                Some(fid)
            },
            None => None,
        },
        None => None,
    };
    proof {
        assert(eff == match eff_id {
            Some(f) => Some(f),
            None => None::<i64>,
        });
        assert(result.deep_view() =~= head_part(cur, focused_id));
    }

    // Phase two: surviving windows of the old list, fresh records.
    let mut i: usize = 0;
    while i < old_windows.len()
        invariant
            0 <= i <= old_windows.len(),
            prev == old_windows.deep_view(),
            cur == current_windows.deep_view(),
            prev.len() == old_windows.len(),
            eff == effective_focus(cur, focused_id),
            eff == match eff_id {
                Some(f) => Some(f),
                None => None::<i64>,
            },
            result.deep_view() == head_part(cur, focused_id) + kept_part(
                prev.take(i as int),
                cur,
                eff,
            ),
        decreases old_windows.len() - i,
    {
        let w_id = old_windows[i].id;
        proof {
            assert(prev[i as int].id == w_id);
        }
        let skip_it = match eff_id {
            Some(f) => w_id == f,
            None => false,
        };
        let seen_in_prev = match find_by_id(&old_windows, w_id) {
            Some(k) => k < i,
            None => false,
        };
        proof {
            assert(contains_id(prev, w_id)) by {
                assert(prev[i as int].id == w_id);
            }
            lemma_contains_take(prev, i as int, w_id);
            assert(seen_in_prev == contains_id(prev.take(i as int), w_id));
        }
        let ghost before = result.deep_view();
        if !skip_it && !seen_in_prev {
            if let Some(k) = find_by_id(&current_windows, w_id) {
                proof {
                    lemma_index_of_id(cur, w_id);
                    assert(cur[k as int] == current_windows@[k as int].deep_view());
                }
                let fresh = current_windows[k].clone();
                proof {
                    assert(fresh@ == first_with_id(cur, w_id));
                }
                result.push(fresh);
                proof {
                    assert(result.deep_view() =~= before.push(first_with_id(cur, w_id)));
                }
            }
        }
        proof {
            lemma_kept_part_snoc(prev, cur, eff, i as int);
            assert(result.deep_view() =~= head_part(cur, focused_id) + kept_part(
                prev.take(i + 1 as int),
                cur,
                eff,
            ));
        }
        i += 1;
    }
    proof {
        assert(prev.take(prev.len() as int) =~= prev);
    }

    // Phase three: windows new to the snapshot, in snapshot order.
    let mut j: usize = 0;
    while j < current_windows.len()
        invariant
            0 <= j <= current_windows.len(),
            prev == old_windows.deep_view(),
            cur == current_windows.deep_view(),
            cur.len() == current_windows.len(),
            eff == effective_focus(cur, focused_id),
            eff == match eff_id {
                Some(f) => Some(f),
                None => None::<i64>,
            },
            result.deep_view() == head_part(cur, focused_id) + kept_part(prev, cur, eff)
                + new_part(cur.take(j as int), prev, eff),
        decreases current_windows.len() - j,
    {
        let w_id = current_windows[j].id;
        proof {
            assert(cur[j as int].id == w_id);
        }
        let is_focus = match eff_id {
            Some(f) => w_id == f,
            None => false,
        };
        let in_prev = find_by_id(&old_windows, w_id).is_some();
        let seen_before = match find_by_id(&current_windows, w_id) {
            Some(k) => k < j,
            None => false,
        };
        proof {
            assert(contains_id(cur, w_id)) by {
                assert(cur[j as int].id == w_id);
            }
            lemma_contains_take(cur, j as int, w_id);
            assert(seen_before == contains_id(cur.take(j as int), w_id));
        }
        let ghost before = result.deep_view();
        if !is_focus && !in_prev && !seen_before {
            let fresh = current_windows[j].clone();
            proof {
                assert(fresh@ == cur[j as int]);
            }
            result.push(fresh);
            proof {
                assert(result.deep_view() =~= before.push(cur[j as int]));
            }
        }
        proof {
            lemma_new_part_snoc(cur, prev, eff, j as int);
            assert(result.deep_view() =~= head_part(cur, focused_id) + kept_part(prev, cur, eff)
                + new_part(cur.take(j + 1 as int), prev, eff));
        }
        j += 1;
    }
    proof {
        assert(cur.take(cur.len() as int) =~= cur);
    }
    result
}

/// An id found in a sequence is still found after dropping the last record,
/// as long as it was not only at the last position, and vice versa.
proof fn lemma_contains_drop_last(s: Seq<WindowView>, id: i64)
    requires
        s.len() > 0,
    ensures
        contains_id(s, id) <==> (contains_id(s.drop_last(), id) || s.last().id == id),
{
    if contains_id(s, id) {
        let w = choose|i: int| 0 <= i < s.len() && s[i].id == id;
        if w < s.len() - 1 {
            assert(s.drop_last()[w].id == id);
        }
    }
    if contains_id(s.drop_last(), id) {
        let w = choose|i: int| 0 <= i < s.drop_last().len() && s.drop_last()[i].id == id;
        assert(s[w].id == id);
    }
}

/// An id is found in a concatenation exactly when one side holds it.
proof fn lemma_contains_concat(a: Seq<WindowView>, b: Seq<WindowView>, id: i64)
    ensures
        contains_id(a + b, id) <==> (contains_id(a, id) || contains_id(b, id)),
{
    if contains_id(a, id) {
        let w = choose|i: int| 0 <= i < a.len() && a[i].id == id;
        assert((a + b)[w].id == id);
    }
    if contains_id(b, id) {
        let w = choose|i: int| 0 <= i < b.len() && b[i].id == id;
        assert((a + b)[a.len() + w].id == id);
    }
    if contains_id(a + b, id) {
        let w = choose|i: int| 0 <= i < (a + b).len() && (a + b)[i].id == id;
        if w < a.len() {
            assert(a[w].id == id);
        } else {
            assert(b[w - a.len()].id == id);
        }
    }
}

/// Every record of `kept_part` is the fresh record of an id that both
/// `prev` and `cur` hold and that is not the skipped id.
proof fn lemma_kept_part_elems(prev: Seq<WindowView>, cur: Seq<WindowView>, skip: Option<i64>)
    ensures
        forall|i: int|
            0 <= i < kept_part(prev, cur, skip).len() ==> {
                let w = #[trigger] kept_part(prev, cur, skip)[i];
                &&& contains_id(prev, w.id)
                &&& contains_id(cur, w.id)
                &&& skip != Some(w.id)
                &&& w == first_with_id(cur, w.id)
            },
    decreases prev.len(),
{
    if prev.len() > 0 {
        lemma_kept_part_elems(prev.drop_last(), cur, skip);
        let rest = kept_part(prev.drop_last(), cur, skip);
        let w = prev.last();
        assert forall|i: int| 0 <= i < rest.len() implies contains_id(
            prev,
            rest[i].id,
        ) by {
            lemma_contains_drop_last(prev, rest[i].id);
        }
        if skip != Some(w.id) && contains_id(cur, w.id) {
            lemma_index_of_id(cur, w.id);
            assert(first_with_id(cur, w.id).id == w.id);
            assert(contains_id(prev, w.id)) by {
                assert(prev[prev.len() - 1].id == w.id);
            }
        }
    }
}

/// `kept_part` holds an id exactly when `prev` and `cur` both hold it and
/// it is not the skipped id.
proof fn lemma_kept_part_contains(
    prev: Seq<WindowView>,
    cur: Seq<WindowView>,
    skip: Option<i64>,
    id: i64,
)
    ensures
        contains_id(kept_part(prev, cur, skip), id) <==> (contains_id(prev, id) && contains_id(
            cur,
            id,
        ) && skip != Some(id)),
    decreases prev.len(),
{
    lemma_kept_part_elems(prev, cur, skip);
    let k = kept_part(prev, cur, skip);
    if contains_id(k, id) {
        let w = choose|i: int| 0 <= i < k.len() && k[i].id == id;
        assert(k[w].id == id);
    }
    if prev.len() > 0 {
        lemma_kept_part_contains(prev.drop_last(), cur, skip, id);
        let rest = kept_part(prev.drop_last(), cur, skip);
        lemma_contains_drop_last(prev, id);
        if contains_id(prev, id) && contains_id(cur, id) && skip != Some(id) {
            if contains_id(prev.drop_last(), id) {
                assert(contains_id(rest, id));
                let w = choose|i: int| 0 <= i < rest.len() && rest[i].id == id;
                assert(k[w].id == id);
            } else {
                assert(prev.last().id == id);
                lemma_index_of_id(cur, id);
                assert(k[k.len() - 1].id == id);
            }
        }
    }
}

/// `kept_part` never repeats an id, whatever `prev` holds: only the first
/// occurrence of an id in `prev` is taken.
proof fn lemma_kept_part_distinct(prev: Seq<WindowView>, cur: Seq<WindowView>, skip: Option<i64>)
    ensures
        distinct_ids(kept_part(prev, cur, skip)),
    decreases prev.len(),
{
    if prev.len() > 0 {
        let shorter = prev.drop_last();
        lemma_kept_part_distinct(shorter, cur, skip);
        lemma_kept_part_elems(shorter, cur, skip);
        let rest = kept_part(shorter, cur, skip);
        let w = prev.last();
        if skip != Some(w.id) && contains_id(cur, w.id) && !contains_id(shorter, w.id) {
            lemma_index_of_id(cur, w.id);
            assert forall|i: int| 0 <= i < rest.len() implies rest[i].id != w.id by {
                assert(contains_id(shorter, rest[i].id));
            }
        }
    }
}

/// Every record of `new_part` comes from `cur`, carries an id that `prev`
/// does not hold and that is not the skipped id.
proof fn lemma_new_part_elems(cur: Seq<WindowView>, prev: Seq<WindowView>, skip: Option<i64>)
    ensures
        forall|i: int|
            0 <= i < new_part(cur, prev, skip).len() ==> {
                let w = #[trigger] new_part(cur, prev, skip)[i];
                &&& contains_id(cur, w.id)
                &&& !contains_id(prev, w.id)
                &&& skip != Some(w.id)
            },
    decreases cur.len(),
{
    if cur.len() > 0 {
        lemma_new_part_elems(cur.drop_last(), prev, skip);
        let rest = new_part(cur.drop_last(), prev, skip);
        assert forall|i: int| 0 <= i < rest.len() implies contains_id(cur, rest[i].id) by {
            lemma_contains_drop_last(cur, rest[i].id);
        }
        let w = cur.last();
        if skip != Some(w.id) && !contains_id(prev, w.id) && !contains_id(cur.drop_last(), w.id) {
            assert(contains_id(cur, w.id)) by {
                assert(cur[cur.len() - 1].id == w.id);
            }
        }
    }
}

/// `new_part` holds an id exactly when `cur` holds it, `prev` does not,
/// and it is not the skipped id.
proof fn lemma_new_part_contains(
    cur: Seq<WindowView>,
    prev: Seq<WindowView>,
    skip: Option<i64>,
    id: i64,
)
    ensures
        contains_id(new_part(cur, prev, skip), id) <==> (contains_id(cur, id) && !contains_id(
            prev,
            id,
        ) && skip != Some(id)),
    decreases cur.len(),
{
    lemma_new_part_elems(cur, prev, skip);
    let n = new_part(cur, prev, skip);
    if contains_id(n, id) {
        let w = choose|i: int| 0 <= i < n.len() && n[i].id == id;
        assert(n[w].id == id);
    }
    if cur.len() > 0 {
        lemma_new_part_contains(cur.drop_last(), prev, skip, id);
        let rest = new_part(cur.drop_last(), prev, skip);
        lemma_contains_drop_last(cur, id);
        if contains_id(cur, id) && !contains_id(prev, id) && skip != Some(id) {
            if contains_id(cur.drop_last(), id) {
                let w = choose|i: int| 0 <= i < rest.len() && rest[i].id == id;
                assert(n[w].id == id);
            } else {
                assert(cur.last().id == id);
                assert(n[n.len() - 1].id == id);
            }
        }
    }
}

/// `new_part` never repeats an id: only the first occurrence in the
/// snapshot is taken.
proof fn lemma_new_part_distinct(cur: Seq<WindowView>, prev: Seq<WindowView>, skip: Option<i64>)
    ensures
        distinct_ids(new_part(cur, prev, skip)),
    decreases cur.len(),
{
    if cur.len() > 0 {
        lemma_new_part_distinct(cur.drop_last(), prev, skip);
        lemma_new_part_elems(cur.drop_last(), prev, skip);
        let rest = new_part(cur.drop_last(), prev, skip);
        let w = cur.last();
        if skip != Some(w.id) && !contains_id(prev, w.id) && !contains_id(cur.drop_last(), w.id) {
            assert forall|i: int| 0 <= i < rest.len() implies rest[i].id != w.id by {
                assert(contains_id(cur.drop_last(), rest[i].id));
            }
        }
    }
}

/// Reconciliation is complete and duplicate-free, whatever the inputs
/// hold: the result holds exactly the ids of the snapshot, each exactly
/// once, and nothing that the snapshot does not hold.
pub proof fn lemma_reconcile_ids(prev: Seq<WindowView>, cur: Seq<WindowView>, focused: Option<i64>)
    ensures
        distinct_ids(reconcile_spec(prev, cur, focused)),
        forall|id: i64|
            #[trigger] contains_id(reconcile_spec(prev, cur, focused), id) <==> contains_id(
                cur,
                id,
            ),
{
    let eff = effective_focus(cur, focused);
    let h = head_part(cur, focused);
    let k = kept_part(prev, cur, eff);
    let n = new_part(cur, prev, eff);
    let r = reconcile_spec(prev, cur, focused);
    lemma_kept_part_elems(prev, cur, eff);
    lemma_new_part_elems(cur, prev, eff);
    lemma_kept_part_distinct(prev, cur, eff);
    lemma_new_part_distinct(cur, prev, eff);
    if eff is Some {
        lemma_index_of_id(cur, eff->0);
    }
    assert(r =~= h + (k + n));

    // Distinctness across the three phases.
    assert(distinct_ids(r)) by {
        assert forall|i: int, j: int| 0 <= i < j < r.len() implies r[i].id != r[j].id by {
            if i < h.len() {
                assert(r[i] == h[i]);
            } else if i < h.len() + k.len() {
                assert(r[i] == k[i - h.len()]);
            } else {
                assert(r[i] == n[i - h.len() - k.len()]);
            }
            if j < h.len() {
                assert(r[j] == h[j]);
            } else if j < h.len() + k.len() {
                assert(r[j] == k[j - h.len()]);
            } else {
                assert(r[j] == n[j - h.len() - k.len()]);
            }
        }
    }

    // Same ids as the snapshot.
    assert forall|id: i64| #[trigger] contains_id(r, id) <==> contains_id(cur, id) by {
        lemma_contains_concat(h, k + n, id);
        lemma_contains_concat(k, n, id);
        lemma_kept_part_contains(prev, cur, eff, id);
        lemma_new_part_contains(cur, prev, eff, id);
        if contains_id(h, id) {
            assert(h[0].id == id);
        }
        if contains_id(cur, id) && !contains_id(r, id) {
            if eff == Some(id) {
                assert(h[0].id == id);
                assert(contains_id(h, id));
            }
        }
    }
}

/// The focused window always lands at index 0 when the snapshot holds it,
/// wherever it sat before.
pub proof fn lemma_reconcile_focus_first(
    prev: Seq<WindowView>,
    cur: Seq<WindowView>,
    fid: i64,
)
    requires
        contains_id(cur, fid),
    ensures
        reconcile_spec(prev, cur, Some(fid)).len() > 0,
        reconcile_spec(prev, cur, Some(fid))[0].id == fid,
        reconcile_spec(prev, cur, Some(fid))[0] == first_with_id(cur, fid),
{
    let r = reconcile_spec(prev, cur, Some(fid));
    let h = head_part(cur, Some(fid));
    lemma_index_of_id(cur, fid);
    assert(h[0] == first_with_id(cur, fid));
    assert(r[0] == h[0]);
}

/// Whether a record counts for the order-preservation claim: its id is
/// shared between `prev` and `cur` and is not the effective focus.
pub open spec fn shared_here(
    w: WindowView,
    prev: Seq<WindowView>,
    cur: Seq<WindowView>,
    focused: Option<i64>,
) -> bool {
    &&& contains_id(prev, w.id)
    &&& contains_id(cur, w.id)
    &&& effective_focus(cur, focused) != Some(w.id)
}

/// The ids of the records in `list` that both `prev` and `cur` hold,
/// excluding the focused one, in their order in `list`.
pub open spec fn shared_order(
    list: Seq<WindowView>,
    prev: Seq<WindowView>,
    cur: Seq<WindowView>,
    focused: Option<i64>,
) -> Seq<i64>
    decreases list.len(),
{
    if list.len() == 0 {
        Seq::empty()
    } else {
        let rest = shared_order(list.drop_last(), prev, cur, focused);
        if shared_here(list.last(), prev, cur, focused) {
            rest.push(list.last().id)
        } else {
            rest
        }
    }
}

/// Unrolls `shared_order` over a pushed record.
proof fn lemma_shared_order_push(
    list: Seq<WindowView>,
    w: WindowView,
    prev: Seq<WindowView>,
    cur: Seq<WindowView>,
    focused: Option<i64>,
)
    ensures
        shared_order(list.push(w), prev, cur, focused) == if shared_here(w, prev, cur, focused) {
            shared_order(list, prev, cur, focused).push(w.id)
        } else {
            shared_order(list, prev, cur, focused)
        },
{
    assert(list.push(w).drop_last() =~= list);
    assert(list.push(w).last() == w);
}

/// `shared_order` distributes over concatenation.
proof fn lemma_shared_order_add(
    a: Seq<WindowView>,
    b: Seq<WindowView>,
    prev: Seq<WindowView>,
    cur: Seq<WindowView>,
    focused: Option<i64>,
)
    ensures
        shared_order(a + b, prev, cur, focused) == shared_order(a, prev, cur, focused)
            + shared_order(b, prev, cur, focused),
    decreases b.len(),
{
    if b.len() == 0 {
        assert(a + b =~= a);
        assert(shared_order(a, prev, cur, focused) + shared_order(b, prev, cur, focused)
            =~= shared_order(a, prev, cur, focused));
    } else {
        lemma_shared_order_add(a, b.drop_last(), prev, cur, focused);
        assert((a + b).drop_last() =~= a + b.drop_last());
        assert((a + b).last() == b.last());
        if shared_here(b.last(), prev, cur, focused) {
            assert((shared_order(a, prev, cur, focused) + shared_order(
                b.drop_last(),
                prev,
                cur,
                focused,
            )).push(b.last().id) =~= shared_order(a, prev, cur, focused) + shared_order(
                b.drop_last(),
                prev,
                cur,
                focused,
            ).push(b.last().id));
        }
    }
}

/// A list none of whose records count contributes nothing to
/// `shared_order`.
proof fn lemma_shared_order_none(
    list: Seq<WindowView>,
    prev: Seq<WindowView>,
    cur: Seq<WindowView>,
    focused: Option<i64>,
)
    requires
        forall|i: int| 0 <= i < list.len() ==> !shared_here(#[trigger] list[i], prev, cur, focused),
    ensures
        shared_order(list, prev, cur, focused) == Seq::<i64>::empty(),
    decreases list.len(),
{
    if list.len() > 0 {
        lemma_shared_order_none(list.drop_last(), prev, cur, focused);
        assert(!shared_here(list[list.len() - 1], prev, cur, focused));
    }
}

/// The surviving windows of phase two list the shared ids of `p` in their
/// order in `p`: the heart of order preservation.
proof fn lemma_kept_shared(
    p: Seq<WindowView>,
    prev: Seq<WindowView>,
    cur: Seq<WindowView>,
    focused: Option<i64>,
)
    requires
        distinct_ids(p),
        forall|i: int| 0 <= i < p.len() ==> contains_id(prev, #[trigger] p[i].id),
    ensures
        shared_order(
            kept_part(p, cur, effective_focus(cur, focused)),
            prev,
            cur,
            focused,
        ) == shared_order(p, prev, cur, focused),
    decreases p.len(),
{
    let eff = effective_focus(cur, focused);
    if p.len() > 0 {
        let shorter = p.drop_last();
        assert forall|i: int| 0 <= i < shorter.len() implies contains_id(
            prev,
            #[trigger] shorter[i].id,
        ) by {
            assert(shorter[i] == p[i]);
        }
        lemma_kept_shared(shorter, prev, cur, focused);
        let w = p.last();
        assert(contains_id(prev, w.id)) by {
            assert(p[p.len() - 1].id == w.id);
        }
        assert(!contains_id(shorter, w.id)) by {
            if contains_id(shorter, w.id) {
                let j = choose|j: int| 0 <= j < shorter.len() && shorter[j].id == w.id;
                assert(p[j].id == p[p.len() - 1].id);
            }
        }
        if eff != Some(w.id) && contains_id(cur, w.id) {
            lemma_index_of_id(cur, w.id);
            let fresh = first_with_id(cur, w.id);
            assert(fresh.id == w.id);
            lemma_shared_order_push(kept_part(shorter, cur, eff), fresh, prev, cur, focused);
            assert(shared_here(fresh, prev, cur, focused));
        } else {
            assert(!shared_here(w, prev, cur, focused));
        }
    }
}

/// The relative order of ids shared between `prev` and `cur`, excluding
/// the focused one, is preserved by reconciliation exactly as in `prev`.
/// (`prev` is an MRU list, which never repeats an id.)
pub proof fn lemma_reconcile_preserves_order(
    prev: Seq<WindowView>,
    cur: Seq<WindowView>,
    focused: Option<i64>,
)
    requires
        distinct_ids(prev),
    ensures
        shared_order(reconcile_spec(prev, cur, focused), prev, cur, focused) == shared_order(
            prev,
            prev,
            cur,
            focused,
        ),
{
    let eff = effective_focus(cur, focused);
    let h = head_part(cur, focused);
    let k = kept_part(prev, cur, eff);
    let n = new_part(cur, prev, eff);
    lemma_shared_order_add(h + k, n, prev, cur, focused);
    lemma_shared_order_add(h, k, prev, cur, focused);

    assert(shared_order(h, prev, cur, focused) == Seq::<i64>::empty()) by {
        if eff is Some {
            lemma_index_of_id(cur, eff->0);
            assert(h[0].id == eff->0);
        }
        assert forall|i: int| 0 <= i < h.len() implies !shared_here(
            #[trigger] h[i],
            prev,
            cur,
            focused,
        ) by {}
        lemma_shared_order_none(h, prev, cur, focused);
    }

    assert(shared_order(n, prev, cur, focused) == Seq::<i64>::empty()) by {
        lemma_new_part_elems(cur, prev, eff);
        lemma_shared_order_none(n, prev, cur, focused);
    }

    assert(shared_order(k, prev, cur, focused) == shared_order(prev, prev, cur, focused)) by {
        assert forall|i: int| 0 <= i < prev.len() implies contains_id(
            prev,
            #[trigger] prev[i].id,
        ) by {}
        lemma_kept_shared(prev, prev, cur, focused);
    }

    assert(Seq::<i64>::empty() + shared_order(k, prev, cur, focused) + Seq::<i64>::empty()
        =~= shared_order(k, prev, cur, focused));
}

/// Records of `list` that do not carry the skipped id, in order.
pub open spec fn without_id(list: Seq<WindowView>, skip: Option<i64>) -> Seq<WindowView>
    decreases list.len(),
{
    if list.len() == 0 {
        Seq::empty()
    } else {
        let rest = without_id(list.drop_last(), skip);
        if skip != Some(list.last().id) {
            rest.push(list.last())
        } else {
            rest
        }
    }
}

/// A list holding no record with the skipped id passes through
/// `without_id` unchanged.
proof fn lemma_without_id_absent(list: Seq<WindowView>, skip: Option<i64>)
    requires
        match skip {
            Some(f) => !contains_id(list, f),
            None => true,
        },
    ensures
        without_id(list, skip) == list,
    decreases list.len(),
{
    if list.len() > 0 {
        assert(match skip {
            Some(f) => !contains_id(list.drop_last(), f),
            None => true,
        }) by {
            if skip is Some && contains_id(list.drop_last(), skip->0) {
                let w = choose|i: int|
                    0 <= i < list.drop_last().len() && list.drop_last()[i].id == skip->0;
                assert(list[w].id == skip->0);
            }
        }
        lemma_without_id_absent(list.drop_last(), skip);
        assert(skip != Some(list.last().id)) by {
            if skip is Some && list.last().id == skip->0 {
                assert(list[list.len() - 1].id == skip->0);
            }
        }
        assert(list.drop_last().push(list.last()) =~= list);
    }
}

/// On a duplicate-free list, dropping an id is removing its one record.
proof fn lemma_without_id_remove(list: Seq<WindowView>, f: i64)
    requires
        distinct_ids(list),
        contains_id(list, f),
    ensures
        without_id(list, Some(f)) == list.remove(index_of_id(list, f)),
    decreases list.len(),
{
    lemma_index_of_id(list, f);
    let k = index_of_id(list, f);
    if list.last().id == f {
        lemma_first_at(list, list.len() - 1);
        assert(k == list.len() - 1);
        assert(!contains_id(list.drop_last(), f)) by {
            if contains_id(list.drop_last(), f) {
                let w = choose|i: int|
                    0 <= i < list.drop_last().len() && list.drop_last()[i].id == f;
                assert(list[w].id == list[list.len() - 1].id);
            }
        }
        lemma_without_id_absent(list.drop_last(), Some(f));
        assert(list.remove(k) =~= list.drop_last());
    } else {
        assert(list[list.len() - 1].id != f);
        assert(k < list.len() - 1);
        assert(contains_id(list.drop_last(), f)) by {
            assert(list.drop_last()[k].id == f);
        }
        assert(distinct_ids(list.drop_last()));
        lemma_without_id_remove(list.drop_last(), f);
        assert(index_of_id(list.drop_last(), f) == k) by {
            assert(list.drop_last()[k].id == f);
            assert forall|j: int| 0 <= j < k implies list.drop_last()[j].id != f by {
                assert(list[j].id != f);
            }
            lemma_index_of_id_is(list.drop_last(), f, k);
        }
        assert(list.drop_last().remove(k).push(list.last()) =~= list.remove(k));
    }
}

/// Reconciling a snapshot against itself only floats the focused window to
/// the front; with no surviving focus the list is returned unchanged.
pub proof fn lemma_reconcile_refresh(l: Seq<WindowView>, focused: Option<i64>)
    requires
        distinct_ids(l),
    ensures
        reconcile_spec(l, l, focused) == match focused {
            Some(f) => move_to_front(l, f),
            None => l,
        },
{
    let eff = effective_focus(l, focused);
    let h = head_part(l, focused);
    let k = kept_part(l, l, eff);
    let n = new_part(l, l, eff);

    assert(n =~= Seq::<WindowView>::empty()) by {
        lemma_new_part_elems(l, l, eff);
        if n.len() > 0 {
            let w = new_part(l, l, eff)[0];
            assert(contains_id(l, w.id));
            assert(false);
        }
    }

    assert forall|i: int| 0 <= i < l.len() implies contains_id(l, #[trigger] l[i].id)
        && first_with_id(l, l[i].id) == l[i] by {
        lemma_first_at(l, i);
    }
    lemma_kept_part_self(l, l, eff);

    match focused {
        Some(f) => {
            if contains_id(l, f) {
                lemma_index_of_id(l, f);
                let k0 = index_of_id(l, f);
                lemma_without_id_remove(l, f);
                assert(h + k + n =~= seq![l[k0]] + l.remove(k0));
            } else {
                lemma_without_id_absent(l, eff);
                assert(h + k + n =~= l);
            }
        },
        None => {
            lemma_without_id_absent(l, eff);
            assert(h + k + n =~= l);
        },
    }
}

/// Phase two over records that are their own fresh data reduces to
/// dropping the skipped id.
proof fn lemma_kept_part_self(p: Seq<WindowView>, l: Seq<WindowView>, skip: Option<i64>)
    requires
        distinct_ids(p),
        forall|i: int|
            0 <= i < p.len() ==> contains_id(l, #[trigger] p[i].id) && first_with_id(l, p[i].id)
                == p[i],
    ensures
        kept_part(p, l, skip) == without_id(p, skip),
    decreases p.len(),
{
    if p.len() > 0 {
        let shorter = p.drop_last();
        assert forall|i: int| 0 <= i < shorter.len() implies contains_id(
            l,
            #[trigger] shorter[i].id,
        ) && first_with_id(l, shorter[i].id) == shorter[i] by {
            assert(shorter[i] == p[i]);
        }
        lemma_kept_part_self(shorter, l, skip);
        assert(p[p.len() - 1] == p.last());
        assert(!contains_id(shorter, p.last().id)) by {
            if contains_id(shorter, p.last().id) {
                let j = choose|j: int| 0 <= j < shorter.len() && shorter[j].id == p.last().id;
                assert(p[j].id == p[p.len() - 1].id);
            }
        }
    }
}

/// Reconciliation is idempotent: reconciling the reconciled list against
/// itself with the same focus changes nothing.
pub proof fn lemma_reconcile_idempotent(l: Seq<WindowView>, focused: Option<i64>)
    requires
        distinct_ids(l),
    ensures
        reconcile_spec(reconcile_spec(l, l, focused), reconcile_spec(l, l, focused), focused)
            == reconcile_spec(l, l, focused),
{
    let r = reconcile_spec(l, l, focused);
    lemma_reconcile_ids(l, l, focused);
    lemma_reconcile_refresh(r, focused);
    match focused {
        Some(f) => {
            if contains_id(l, f) {
                lemma_reconcile_focus_first(l, l, f);
                assert(r[0].id == f);
                lemma_index_of_id_is(r, f, 0);
                assert(seq![r[0]] + r.remove(0) =~= r);
            } else {
                assert(!contains_id(r, f));
            }
        },
        None => {},
    }
}

} // verus!

