//! The window record and the spec-level vocabulary for lists of windows:
//! membership and distinctness of ids, first occurrence by id, and the
//! move-to-front operation that a focus change performs on the MRU list.

use vstd::prelude::*;

verus! {

/// A single window as reported by the compositor.  Identity is `id`,
/// assigned by the compositor; records are replaced wholesale on every
/// snapshot, never mutated in place.
#[derive(Debug)]
pub struct WindowInfo {
    pub id: i64,
    pub app_id: Option<String>,
    pub title: String,
    pub workspace: String,
    pub window_class: Option<String>,
}

/// Mathematical image of a `WindowInfo`: strings become character
/// sequences, so contracts can speak of their contents.
pub struct WindowView {
    pub id: i64,
    pub app_id: Option<Seq<char>>,
    pub title: Seq<char>,
    pub workspace: Seq<char>,
    pub window_class: Option<Seq<char>>,
}

impl View for WindowInfo {
    type V = WindowView;

    open spec fn view(&self) -> WindowView {
        WindowView {
            id: self.id,
            app_id: self.app_id.deep_view(),
            title: self.title@,
            workspace: self.workspace@,
            window_class: self.window_class.deep_view(),
        }
    }
}

impl DeepView for WindowInfo {
    type V = WindowView;

    open spec fn deep_view(&self) -> WindowView {
        self.view()
    }
}

impl Clone for WindowInfo {
    fn clone(&self) -> (r: Self)
        ensures
            r@ == self@,
    {
        WindowInfo {
            id: self.id,
            app_id: self.app_id.clone(),
            title: self.title.clone(),
            workspace: self.workspace.clone(),
            window_class: self.window_class.clone(),
        }
    }
}

/// A verbatim copy of a window list: the same records, fresh allocations.
pub fn copy_window_list(v: &Vec<WindowInfo>) -> (r: Vec<WindowInfo>)
    ensures
        r.deep_view() == v.deep_view(),
{
    let r = v.clone();
    proof {
        assert forall|i: int| 0 <= i < v@.len() implies r.deep_view()[i] == v.deep_view()[i] by {
            assert(vstd::pervasive::cloned::<WindowInfo>(v@[i], r@[i]));
        }
        assert(r.deep_view() =~= v.deep_view());
    }
    r
}

/// Does some record in `s` carry this id?
pub open spec fn contains_id(s: Seq<WindowView>, id: i64) -> bool {
    exists|i: int| 0 <= i < s.len() && s[i].id == id
}

/// No two records in `s` share an id.
pub open spec fn distinct_ids(s: Seq<WindowView>) -> bool {
    forall|i: int, j: int| 0 <= i < j < s.len() ==> s[i].id != s[j].id
}

/// Index of the first record in `s` with this id (meaningful only when
/// `contains_id(s, id)`).
pub open spec fn index_of_id(s: Seq<WindowView>, id: i64) -> int
    decreases s.len(),
{
    if s.len() == 0 {
        0
    } else if s[0].id == id {
        0
    } else {
        1 + index_of_id(s.drop_first(), id)
    }
}

/// The first record in `s` with this id (meaningful only when
/// `contains_id(s, id)`).
pub open spec fn first_with_id(s: Seq<WindowView>, id: i64) -> WindowView
    decreases s.len(),
{
    if s.len() == 0 {
        arbitrary()
    } else if s[0].id == id {
        s[0]
    } else {
        first_with_id(s.drop_first(), id)
    }
}

/// What a focus change does to the MRU list: the record with the focused id
/// moves to the front; a list that does not hold the id is unchanged.
pub open spec fn move_to_front(s: Seq<WindowView>, id: i64) -> Seq<WindowView> {
    if contains_id(s, id) {
        let k = index_of_id(s, id);
        seq![s[k]] + s.remove(k)
    } else {
        s
    }
}

/// `index_of_id` indeed finds the first record with the id.
pub proof fn lemma_index_of_id(s: Seq<WindowView>, id: i64)
    requires
        contains_id(s, id),
    ensures
        0 <= index_of_id(s, id) < s.len(),
        s[index_of_id(s, id)].id == id,
        first_with_id(s, id) == s[index_of_id(s, id)],
        forall|i: int| 0 <= i < index_of_id(s, id) ==> s[i].id != id,
    decreases s.len(),
{
    if s.len() > 0 && s[0].id != id {
        let t = s.drop_first();
        assert(contains_id(t, id)) by {
            let w = choose|i: int| 0 <= i < s.len() && s[i].id == id;
            assert(t[w - 1].id == id);
        }
        lemma_index_of_id(t, id);
        assert forall|i: int| 0 <= i < index_of_id(s, id) implies s[i].id != id by {
            if i > 0 {
                assert(t[i - 1].id != id);
            }
        }
    }
}

/// Moving a record to the front keeps the list duplicate-free and keeps
/// its length and its ids.
pub proof fn lemma_move_to_front_distinct(s: Seq<WindowView>, id: i64)
    requires
        distinct_ids(s),
    ensures
        distinct_ids(move_to_front(s, id)),
        move_to_front(s, id).len() == s.len(),
        forall|x: i64| contains_id(move_to_front(s, id), x) <==> contains_id(s, x),
{
    if contains_id(s, id) {
        lemma_index_of_id(s, id);
        let k = index_of_id(s, id);
        let m = move_to_front(s, id);
        assert(m.len() == s.len());
        // Each position of the reordered list maps to a distinct position
        // of the list before the move.
        let back = |i: int| if i == 0 { k } else if i <= k { i - 1 } else { i };
        assert forall|i: int| 0 <= i < m.len() implies m[i] == s[back(i)] by {}
        assert forall|i: int, j: int| 0 <= i < j < m.len() implies m[i].id != m[j].id by {
            assert(m[i] == s[back(i)]);
            assert(m[j] == s[back(j)]);
            assert(back(i) != back(j));
        }
        assert forall|x: i64| contains_id(m, x) <==> contains_id(s, x) by {
            if contains_id(m, x) {
                let w = choose|i: int| 0 <= i < m.len() && m[i].id == x;
                assert(m[w] == s[back(w)]);
                assert(s[back(w)].id == x);
            }
            if contains_id(s, x) {
                let w = choose|i: int| 0 <= i < s.len() && s[i].id == x;
                if w == k {
                    assert(m[0] == s[k]);
                } else if w < k {
                    assert(m[w + 1] == s[w]);
                } else {
                    assert(m[w] == s[w]);
                }
            }
        }
    }
}

/// The first index characterises `index_of_id`: a position whose record
/// carries the id, with no earlier such record, is the index.
pub proof fn lemma_index_of_id_is(s: Seq<WindowView>, id: i64, k: int)
    requires
        0 <= k < s.len(),
        s[k].id == id,
        forall|j: int| 0 <= j < k ==> s[j].id != id,
    ensures
        index_of_id(s, id) == k,
        contains_id(s, id),
{
    assert(contains_id(s, id));
    lemma_index_of_id(s, id);
    let m = index_of_id(s, id);
    if m < k {
        assert(s[m].id != id);
    } else if m > k {
        assert(s[k].id != id);
    }
}

/// In a list without duplicate ids, every record is the first record with
/// its own id.
pub proof fn lemma_first_at(s: Seq<WindowView>, i: int)
    requires
        distinct_ids(s),
        0 <= i < s.len(),
    ensures
        contains_id(s, s[i].id),
        index_of_id(s, s[i].id) == i,
        first_with_id(s, s[i].id) == s[i],
{
    assert forall|j: int| 0 <= j < i implies s[j].id != s[i].id by {}
    lemma_index_of_id_is(s, s[i].id, i);
    lemma_index_of_id(s, s[i].id);
}

} // verus!
