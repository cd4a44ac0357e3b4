//! The shape of the two columns that every operation keeps: ids unique
//! across both lists, the active list ordered by position, each task's done
//! flag matching its column, and the deleted tasks held by the undo
//! history neither in the lists nor sharing an id.

use vstd::prelude::*;

use crate::actions::swap_with_next;
use crate::app::UndoView;
use crate::edits::push_bounded_view;
use crate::laws::unique_ids;
use crate::order::{is_sorted_by_position, lemma_sort_by_position, sort_by_position};
use crate::store::lemma_rows_sort_front;
use crate::task::TaskView;
use crate::undo::restore_positions;

verus! {

/// Some task of `s` has the id.
pub open spec fn has_id(s: Seq<TaskView>, id: i64) -> bool {
    exists|k: int| 0 <= k < s.len() && (#[trigger] s[k]).id == id
}

/// Every id of `s2` is an id of `s1`.
pub open spec fn ids_within(s2: Seq<TaskView>, s1: Seq<TaskView>) -> bool {
    forall|id: i64| has_id(s2, id) ==> has_id(s1, id)
}

/// The two lists are in shape: unique ids, the active list ordered by
/// position, done flags matching the columns.
pub open spec fn columns(a: Seq<TaskView>, d: Seq<TaskView>) -> bool {
    &&& unique_ids(a + d)
    &&& is_sorted_by_position(a)
    &&& forall|i: int| 0 <= i < a.len() ==> !(#[trigger] a[i]).done
    &&& forall|i: int| 0 <= i < d.len() ==> (#[trigger] d[i]).done
}

proof fn lemma_columns_parts(a: Seq<TaskView>, d: Seq<TaskView>)
    requires
        columns(a, d),
    ensures
        forall|i: int, j: int| 0 <= i < a.len() && 0 <= j < d.len() ==> a[i].id != d[j].id,
        forall|i: int, j: int| 0 <= i < a.len() && 0 <= j < a.len() && i != j ==> a[i].id != a[j].id,
        forall|i: int, j: int| 0 <= i < d.len() && 0 <= j < d.len() && i != j ==> d[i].id != d[j].id,
{
    assert forall|i: int, j: int| 0 <= i < a.len() && 0 <= j < d.len() implies a[i].id
        != d[j].id by {
        assert((a + d)[i] == a[i] && (a + d)[a.len() + j] == d[j]);
    }
    assert forall|i: int, j: int|
        0 <= i < a.len() && 0 <= j < a.len() && i != j implies a[i].id != a[j].id by {
        assert((a + d)[i] == a[i] && (a + d)[j] == a[j]);
    }
    assert forall|i: int, j: int|
        0 <= i < d.len() && 0 <= j < d.len() && i != j implies d[i].id != d[j].id by {
        assert((a + d)[a.len() + i] == d[i] && (a + d)[a.len() + j] == d[j]);
    }
}

/// `unique_ids(a + d)` from uniqueness within and across the parts.
proof fn lemma_unique_from_parts(a: Seq<TaskView>, d: Seq<TaskView>)
    requires
        forall|i: int, j: int| 0 <= i < a.len() && 0 <= j < d.len() ==> a[i].id != d[j].id,
        forall|i: int, j: int| 0 <= i < a.len() && 0 <= j < a.len() && i != j ==> a[i].id != a[j].id,
        forall|i: int, j: int| 0 <= i < d.len() && 0 <= j < d.len() && i != j ==> d[i].id != d[j].id,
    ensures
        unique_ids(a + d),
{
    let s = a + d;
    assert forall|i: int, j: int|
        0 <= i < s.len() && 0 <= j < s.len() && i != j implies s[i].id != s[j].id by {
        if i < a.len() && j < a.len() {
            assert(s[i] == a[i] && s[j] == a[j]);
        } else if i < a.len() {
            assert(s[i] == a[i] && s[j] == d[j - a.len()]);
        } else if j < a.len() {
            assert(s[j] == a[j] && s[i] == d[i - a.len()]);
        } else {
            assert(s[i] == d[i - a.len()] && s[j] == d[j - a.len()]);
        }
    }
}

proof fn lemma_has_id_concat(a: Seq<TaskView>, d: Seq<TaskView>, id: i64)
    ensures
        has_id(a + d, id) <==> has_id(a, id) || has_id(d, id),
{
    if has_id(a + d, id) {
        let k = choose|k: int| 0 <= k < (a + d).len() && (#[trigger] (a + d)[k]).id == id;
        if k < a.len() {
            assert(a[k] == (a + d)[k]);
        } else {
            assert(d[k - a.len()] == (a + d)[k]);
        }
    }
    if has_id(a, id) {
        let k = choose|k: int| 0 <= k < a.len() && (#[trigger] a[k]).id == id;
        assert((a + d)[k] == a[k]);
    }
    if has_id(d, id) {
        let k = choose|k: int| 0 <= k < d.len() && (#[trigger] d[k]).id == id;
        assert((a + d)[a.len() + k] == d[k]);
    }
}

/// Moving a task up or down keeps the columns and their ids.
pub proof fn lemma_columns_swap(a: Seq<TaskView>, d: Seq<TaskView>, j: int)
    requires
        columns(a, d),
        0 <= j,
        j + 1 < a.len(),
    ensures
        columns(swap_with_next(a, j), d),
        ids_within(swap_with_next(a, j) + d, a + d),
{
    let b = swap_with_next(a, j);
    lemma_columns_parts(a, d);
    assert forall|x: int, y: int| 0 <= x <= y < b.len() implies b[x].position
        <= b[y].position by {
        assert(b[x].position == a[x].position && b[y].position == a[y].position);
    }
    assert forall|i: int| 0 <= i < b.len() implies !(#[trigger] b[i]).done by {
        if i == j {
            assert(!a[j + 1].done);
        } else if i == j + 1 {
            assert(!a[j].done);
        } else {
            assert(b[i] == a[i]);
        }
    }
    let p = |k: int| if k == j { j + 1 } else if k == j + 1 { j } else { k };
    assert forall|i: int, k: int| 0 <= i < b.len() && 0 <= k < d.len() implies b[i].id
        != d[k].id by {
        assert(b[i].id == a[p(i)].id);
    }
    assert forall|x: int, y: int|
        0 <= x < b.len() && 0 <= y < b.len() && x != y implies b[x].id != b[y].id by {
        assert(b[x].id == a[p(x)].id && b[y].id == a[p(y)].id);
    }
    lemma_unique_from_parts(b, d);
    assert forall|id: i64| has_id(b + d, id) implies has_id(a + d, id) by {
        lemma_has_id_concat(b, d, id);
        lemma_has_id_concat(a, d, id);
        if has_id(b, id) {
            let k = choose|k: int| 0 <= k < b.len() && (#[trigger] b[k]).id == id;
            assert(a[p(k)].id == id);
        }
    }
}

/// Completing the active task at `i` keeps the columns and their ids.
pub proof fn lemma_columns_complete(a: Seq<TaskView>, d: Seq<TaskView>, i: int)
    requires
        columns(a, d),
        0 <= i < a.len(),
    ensures
        columns(a.remove(i), seq![a[i].with_done(true)] + d),
        ids_within(a.remove(i) + (seq![a[i].with_done(true)] + d), a + d),
{
    let a2 = a.remove(i);
    let d2 = seq![a[i].with_done(true)] + d;
    lemma_columns_parts(a, d);
    let pa = |k: int| if k < i { k } else { k + 1 };
    assert forall|x: int, y: int| 0 <= x <= y < a2.len() implies a2[x].position
        <= a2[y].position by {
        assert(a2[x] == a[pa(x)] && a2[y] == a[pa(y)]);
    }
    assert forall|k: int| 0 <= k < a2.len() implies !(#[trigger] a2[k]).done by {
        assert(a2[k] == a[pa(k)]);
    }
    assert forall|k: int| 0 <= k < d2.len() implies (#[trigger] d2[k]).done by {
        if k > 0 {
            assert(d2[k] == d[k - 1]);
        }
    }
    let pd = |k: int| if k == 0 { a[i] } else { d[k - 1] };
    assert forall|k: int| 0 <= k < d2.len() implies (#[trigger] d2[k]).id == pd(k).id by {
        if k > 0 {
            assert(d2[k] == d[k - 1]);
        }
    }
    assert forall|x: int, y: int| 0 <= x < a2.len() && 0 <= y < d2.len() implies a2[x].id
        != d2[y].id by {
        assert(a2[x] == a[pa(x)]);
        assert(d2[y].id == pd(y).id);
    }
    assert forall|x: int, y: int|
        0 <= x < a2.len() && 0 <= y < a2.len() && x != y implies a2[x].id != a2[y].id by {
        assert(a2[x] == a[pa(x)] && a2[y] == a[pa(y)]);
    }
    assert forall|x: int, y: int|
        0 <= x < d2.len() && 0 <= y < d2.len() && x != y implies d2[x].id != d2[y].id by {
        assert(d2[x].id == pd(x).id && d2[y].id == pd(y).id);
    }
    lemma_unique_from_parts(a2, d2);
    assert forall|id: i64| has_id(a2 + d2, id) implies has_id(a + d, id) by {
        lemma_has_id_concat(a2, d2, id);
        lemma_has_id_concat(a, d, id);
        if has_id(a2, id) {
            let k = choose|k: int| 0 <= k < a2.len() && (#[trigger] a2[k]).id == id;
            assert(a2[k] == a[pa(k)]);
        }
        if has_id(d2, id) {
            let k = choose|k: int| 0 <= k < d2.len() && (#[trigger] d2[k]).id == id;
            assert(d2[k].id == pd(k).id);
            if k == 0 {
                assert(a[i].id == id);
            } else {
                assert(d[k - 1].id == id);
            }
        }
    }
}

/// Putting `t` into the active list at the end keeps the columns when its
/// position is at least every active position, it is not done, and its id
/// is new.
pub proof fn lemma_columns_append(a: Seq<TaskView>, d: Seq<TaskView>, t: TaskView)
    requires
        columns(a, d),
        !t.done,
        !has_id(a + d, t.id),
        forall|k: int| 0 <= k < a.len() ==> (#[trigger] a[k]).position <= t.position,
    ensures
        columns(a.push(t), d),
        forall|id: i64| has_id(a.push(t) + d, id) ==> has_id(a + d, id) || id == t.id,
{
    let a2 = a.push(t);
    lemma_columns_parts(a, d);
    assert forall|x: int, y: int| 0 <= x <= y < a2.len() implies a2[x].position
        <= a2[y].position by {
        if y == a.len() {
            if x < a.len() {
                assert(a2[x] == a[x]);
            }
        } else {
            assert(a2[x] == a[x] && a2[y] == a[y]);
        }
    }
    assert forall|k: int| 0 <= k < a2.len() implies !(#[trigger] a2[k]).done by {
        if k < a.len() {
            assert(a2[k] == a[k]);
        }
    }
    assert forall|x: int, y: int| 0 <= x < a2.len() && 0 <= y < d.len() implies a2[x].id
        != d[y].id by {
        if x < a.len() {
            assert(a2[x] == a[x]);
        } else {
            assert((a + d)[a.len() + y] == d[y]);
        }
    }
    assert forall|x: int, y: int|
        0 <= x < a2.len() && 0 <= y < a2.len() && x != y implies a2[x].id != a2[y].id by {
        if x == a.len() {
            assert((a + d)[y] == a[y]);
            assert(a2[y] == a[y]);
        } else if y == a.len() {
            assert((a + d)[x] == a[x]);
            assert(a2[x] == a[x]);
        } else {
            assert(a2[x] == a[x] && a2[y] == a[y]);
        }
    }
    lemma_unique_from_parts(a2, d);
    assert forall|id: i64| has_id(a2 + d, id) implies has_id(a + d, id) || id == t.id by {
        lemma_has_id_concat(a2, d, id);
        lemma_has_id_concat(a, d, id);
        if has_id(a2, id) {
            let k = choose|k: int| 0 <= k < a2.len() && (#[trigger] a2[k]).id == id;
            if k < a.len() {
                assert(a2[k] == a[k]);
            }
        }
    }
}

/// Removing the task at `i` of one list keeps the columns, and its id is
/// then in neither list.
pub proof fn lemma_columns_remove(a: Seq<TaskView>, d: Seq<TaskView>, i: int, in_done: bool)
    requires
        columns(a, d),
        0 <= i < (if in_done {
            d.len()
        } else {
            a.len()
        }),
    ensures
        ({
            let t = if in_done {
                d[i]
            } else {
                a[i]
            };
            let a2 = if in_done {
                a
            } else {
                a.remove(i)
            };
            let d2 = if in_done {
                d.remove(i)
            } else {
                d
            };
            &&& columns(a2, d2)
            &&& ids_within(a2 + d2, a + d)
            &&& !has_id(a2 + d2, t.id)
        }),
{
    lemma_columns_parts(a, d);
    let t = if in_done {
        d[i]
    } else {
        a[i]
    };
    let a2 = if in_done {
        a
    } else {
        a.remove(i)
    };
    let d2 = if in_done {
        d.remove(i)
    } else {
        d
    };
    let pa = |k: int| if !in_done && k >= i { k + 1 } else { k };
    let pd = |k: int| if in_done && k >= i { k + 1 } else { k };
    assert forall|k: int| 0 <= k < a2.len() implies a2[k] == a[pa(k)] by {}
    assert forall|k: int| 0 <= k < d2.len() implies d2[k] == d[pd(k)] by {}
    assert forall|x: int, y: int| 0 <= x <= y < a2.len() implies a2[x].position
        <= a2[y].position by {
        assert(a2[x] == a[pa(x)] && a2[y] == a[pa(y)]);
    }
    assert forall|k: int| 0 <= k < a2.len() implies !(#[trigger] a2[k]).done by {
        assert(a2[k] == a[pa(k)]);
    }
    assert forall|k: int| 0 <= k < d2.len() implies (#[trigger] d2[k]).done by {
        assert(d2[k] == d[pd(k)]);
    }
    assert forall|x: int, y: int| 0 <= x < a2.len() && 0 <= y < d2.len() implies a2[x].id
        != d2[y].id by {
        assert(a2[x] == a[pa(x)] && d2[y] == d[pd(y)]);
    }
    assert forall|x: int, y: int|
        0 <= x < a2.len() && 0 <= y < a2.len() && x != y implies a2[x].id != a2[y].id by {
        assert(a2[x] == a[pa(x)] && a2[y] == a[pa(y)]);
    }
    assert forall|x: int, y: int|
        0 <= x < d2.len() && 0 <= y < d2.len() && x != y implies d2[x].id != d2[y].id by {
        assert(d2[x] == d[pd(x)] && d2[y] == d[pd(y)]);
    }
    lemma_unique_from_parts(a2, d2);
    assert forall|id: i64| has_id(a2 + d2, id) implies has_id(a + d, id) && id != t.id by {
        lemma_has_id_concat(a2, d2, id);
        lemma_has_id_concat(a, d, id);
        if has_id(a2, id) {
            let k = choose|k: int| 0 <= k < a2.len() && (#[trigger] a2[k]).id == id;
            assert(a2[k] == a[pa(k)]);
        }
        if has_id(d2, id) {
            let k = choose|k: int| 0 <= k < d2.len() && (#[trigger] d2[k]).id == id;
            assert(d2[k] == d[pd(k)]);
        }
    }
}

/// Replacing a task by one with the same id, position and done flag keeps
/// the columns and their ids.
pub proof fn lemma_columns_update(
    a: Seq<TaskView>,
    d: Seq<TaskView>,
    i: int,
    in_done: bool,
    t: TaskView,
)
    requires
        columns(a, d),
        0 <= i < (if in_done {
            d.len()
        } else {
            a.len()
        }),
        t.id == (if in_done {
            d[i]
        } else {
            a[i]
        }).id,
        t.position == (if in_done {
            d[i]
        } else {
            a[i]
        }).position,
        t.done == (if in_done {
            d[i]
        } else {
            a[i]
        }).done,
    ensures
        in_done ==> columns(a, d.update(i, t)) && ids_within(a + d.update(i, t), a + d),
        !in_done ==> columns(a.update(i, t), d) && ids_within(a.update(i, t) + d, a + d),
{
    lemma_columns_parts(a, d);
    let a2 = if in_done {
        a
    } else {
        a.update(i, t)
    };
    let d2 = if in_done {
        d.update(i, t)
    } else {
        d
    };
    assert forall|k: int| 0 <= k < a2.len() implies a2[k].id == a[k].id && a2[k].position
        == a[k].position && a2[k].done == a[k].done by {}
    assert forall|k: int| 0 <= k < d2.len() implies d2[k].id == d[k].id && d2[k].done
        == d[k].done by {}
    assert forall|x: int, y: int| 0 <= x <= y < a2.len() implies a2[x].position
        <= a2[y].position by {}
    assert forall|k: int| 0 <= k < a2.len() implies !(#[trigger] a2[k]).done by {}
    assert forall|k: int| 0 <= k < d2.len() implies (#[trigger] d2[k]).done by {}
    lemma_unique_from_parts(a2, d2);
    assert forall|id: i64| has_id(a2 + d2, id) implies has_id(a + d, id) by {
        lemma_has_id_concat(a2, d2, id);
        lemma_has_id_concat(a, d, id);
        if has_id(a2, id) {
            let k = choose|k: int| 0 <= k < a2.len() && (#[trigger] a2[k]).id == id;
            assert(a[k].id == id);
        }
        if has_id(d2, id) {
            let k = choose|k: int| 0 <= k < d2.len() && (#[trigger] d2[k]).id == id;
            assert(d[k].id == id);
        }
    }
    if in_done {
        assert(a2 =~= a);
    } else {
        assert(d2 =~= d);
    }
}

/// Sorting the active list keeps the columns and their ids.
pub proof fn lemma_columns_sort(a: Seq<TaskView>, d: Seq<TaskView>)
    requires
        unique_ids(a + d),
        forall|i: int| 0 <= i < a.len() ==> !(#[trigger] a[i]).done,
        forall|i: int| 0 <= i < d.len() ==> (#[trigger] d[i]).done,
    ensures
        columns(sort_by_position(a), d),
        forall|id: i64| has_id(sort_by_position(a) + d, id) <==> has_id(a + d, id),
{
    broadcast use vstd::seq_lib::group_to_multiset_ensures;

    let b = sort_by_position(a);
    lemma_sort_by_position(a);
    lemma_rows_sort_front(a, d);
    assert forall|k: int| 0 <= k < b.len() implies a.contains(b[k]) by {
        assert(b.contains(b[k]));
        assert(b.to_multiset().count(b[k]) > 0);
    }
    assert forall|k: int| 0 <= k < a.len() implies b.contains(a[k]) by {
        assert(a.contains(a[k]));
        assert(a.to_multiset().count(a[k]) > 0);
    }
    assert forall|k: int| 0 <= k < b.len() implies !(#[trigger] b[k]).done by {
        assert(a.contains(b[k]));
    }
    assert forall|id: i64| has_id(b + d, id) <==> has_id(a + d, id) by {
        lemma_has_id_concat(b, d, id);
        lemma_has_id_concat(a, d, id);
        if has_id(b, id) {
            let k = choose|k: int| 0 <= k < b.len() && (#[trigger] b[k]).id == id;
            assert(a.contains(b[k]));
            let j = choose|j: int| 0 <= j < a.len() && a[j] == b[k];
            assert(a[j].id == id);
        }
        if has_id(a, id) {
            let k = choose|k: int| 0 <= k < a.len() && (#[trigger] a[k]).id == id;
            assert(b.contains(a[k]));
            let j = choose|j: int| 0 <= j < b.len() && b[j] == a[k];
            assert(b[j].id == id);
        }
    }
}

/// Resetting positions keeps ids and done flags.
pub proof fn lemma_restore_positions_shape(
    a: Seq<TaskView>,
    id_a: i64,
    pos_a: i64,
    id_b: i64,
    pos_b: i64,
)
    ensures
        restore_positions(a, id_a, pos_a, id_b, pos_b).len() == a.len(),
        forall|k: int|
            0 <= k < a.len() ==> (#[trigger] restore_positions(a, id_a, pos_a, id_b, pos_b)[k]).id
                == a[k].id && restore_positions(a, id_a, pos_a, id_b, pos_b)[k].done == a[k].done,
{
}

/// Some task of `a + d` has the id exactly when one of `a` or of `d` has.
pub proof fn lemma_has_id_concat_pub(a: Seq<TaskView>, d: Seq<TaskView>, id: i64)
    ensures
        has_id(a + d, id) <==> has_id(a, id) || has_id(d, id),
{
    lemma_has_id_concat(a, d, id);
}

/// Adding a task with a new id to the active list keeps ids unique.
pub proof fn lemma_unique_push(a: Seq<TaskView>, d: Seq<TaskView>, t: TaskView)
    requires
        unique_ids(a + d),
        !has_id(a + d, t.id),
    ensures
        unique_ids(a.push(t) + d),
        forall|id: i64| has_id(a.push(t) + d, id) <==> has_id(a + d, id) || id == t.id,
{
    let s = a + d;
    let s2 = a.push(t) + d;
    let p = |k: int| if k < a.len() { k } else { k - 1 };
    assert forall|k: int| 0 <= k < s2.len() && k != a.len() implies s2[k] == s[p(k)] by {
        if k < a.len() {
            assert(s2[k] == a[k] && s[k] == a[k]);
        } else {
            assert(s2[k] == d[k - a.len() - 1] && s[k - 1] == d[k - 1 - a.len()]);
        }
    }
    assert(s2[a.len() as int] == t);
    assert forall|i: int, j: int|
        0 <= i < s2.len() && 0 <= j < s2.len() && i != j implies s2[i].id != s2[j].id by {
        if i == a.len() {
            assert(s[p(j)].id != t.id);
        } else if j == a.len() {
            assert(s[p(i)].id != t.id);
        } else {
            assert(p(i) != p(j));
        }
    }
    assert forall|id: i64| has_id(s2, id) <==> has_id(s, id) || id == t.id by {
        if has_id(s2, id) {
            let k = choose|k: int| 0 <= k < s2.len() && (#[trigger] s2[k]).id == id;
            if k != a.len() {
                assert(s[p(k)].id == id);
            }
        }
        if has_id(s, id) {
            let k = choose|k: int| 0 <= k < s.len() && (#[trigger] s[k]).id == id;
            if k < a.len() {
                assert(s2[k] == s[k]);
            } else {
                assert(s2[k + 1] == s[k]);
            }
        }
        if id == t.id {
            assert(s2[a.len() as int].id == id);
        }
    }
}

/// Putting a completed task with a new id in front of the completed list
/// keeps the columns.
pub proof fn lemma_columns_prepend_done(a: Seq<TaskView>, d: Seq<TaskView>, t: TaskView)
    requires
        columns(a, d),
        t.done,
        !has_id(a + d, t.id),
    ensures
        columns(a, seq![t] + d),
        forall|id: i64| has_id(a + (seq![t] + d), id) ==> has_id(a + d, id) || id == t.id,
{
    let d2 = seq![t] + d;
    lemma_columns_parts(a, d);
    assert forall|k: int| 0 < k < d2.len() implies d2[k] == d[k - 1] by {}
    assert(d2[0] == t);
    assert forall|k: int| 0 <= k < d2.len() implies (#[trigger] d2[k]).done by {
        if k > 0 {
            assert(d2[k] == d[k - 1]);
        }
    }
    assert forall|x: int, y: int| 0 <= x < a.len() && 0 <= y < d2.len() implies a[x].id
        != d2[y].id by {
        if y == 0 {
            assert((a + d)[x] == a[x]);
        } else {
            assert(d2[y] == d[y - 1]);
        }
    }
    assert forall|x: int, y: int|
        0 <= x < d2.len() && 0 <= y < d2.len() && x != y implies d2[x].id != d2[y].id by {
        if x == 0 {
            assert(d2[y] == d[y - 1]);
            assert((a + d)[a.len() + y - 1] == d[y - 1]);
        } else if y == 0 {
            assert(d2[x] == d[x - 1]);
            assert((a + d)[a.len() + x - 1] == d[x - 1]);
        } else {
            assert(d2[x] == d[x - 1] && d2[y] == d[y - 1]);
        }
    }
    lemma_unique_from_parts(a, d2);
    assert forall|id: i64| has_id(a + d2, id) implies has_id(a + d, id) || id == t.id by {
        lemma_has_id_concat(a, d2, id);
        lemma_has_id_concat(a, d, id);
        if has_id(d2, id) {
            let k = choose|k: int| 0 <= k < d2.len() && (#[trigger] d2[k]).id == id;
            if k > 0 {
                assert(d[k - 1].id == id);
            }
        }
    }
}

/// Changing positions only, task by task, keeps ids unique and the same.
pub proof fn lemma_unique_same_ids(a: Seq<TaskView>, b: Seq<TaskView>, d: Seq<TaskView>)
    requires
        unique_ids(a + d),
        a.len() == b.len(),
        forall|k: int| 0 <= k < a.len() ==> (#[trigger] b[k]).id == a[k].id,
    ensures
        unique_ids(b + d),
        forall|id: i64| has_id(b + d, id) <==> has_id(a + d, id),
{
    assert forall|k: int| 0 <= k < (b + d).len() implies (#[trigger] (b + d)[k]).id == (a
        + d)[k].id by {
        if k < a.len() {
            assert((b + d)[k] == b[k] && (a + d)[k] == a[k]);
        } else {
            assert((b + d)[k] == d[k - a.len()] && (a + d)[k] == d[k - a.len()]);
        }
    }
    assert forall|id: i64| has_id(b + d, id) <==> has_id(a + d, id) by {
        if has_id(b + d, id) {
            let k = choose|k: int| 0 <= k < (b + d).len() && (#[trigger] (b + d)[k]).id == id;
            assert((a + d)[k].id == id);
        }
        if has_id(a + d, id) {
            let k = choose|k: int| 0 <= k < (a + d).len() && (#[trigger] (a + d)[k]).id == id;
            assert((b + d)[k].id == id);
        }
    }
}

/// The task a step would put back, if it takes back a delete.
pub open spec fn deleted_task(v: UndoView) -> Option<TaskView> {
    match v {
        UndoView::DeleteTask { task, was_done: _ } => Some(task),
        _ => None,
    }
}

/// A step that takes back a delete holds a task whose done flag names the
/// list it came from and whose id is in neither list.
pub open spec fn entry_ok(v: UndoView, all: Seq<TaskView>) -> bool {
    match v {
        UndoView::DeleteTask { task, was_done } => task.done == was_done && !has_id(all, task.id),
        _ => true,
    }
}

/// Every step of the history is sound against the tasks `all`, and no two
/// deleted tasks it holds share an id.
pub open spec fn history_ok(h: Seq<UndoView>, all: Seq<TaskView>) -> bool {
    &&& forall|k: int| 0 <= k < h.len() ==> entry_ok(#[trigger] h[k], all)
    &&& forall|k: int, l: int|
        0 <= k < h.len() && 0 <= l < h.len() && k != l && (#[trigger] deleted_task(h[k])) is Some
            && (#[trigger] deleted_task(h[l])) is Some ==> deleted_task(h[k])->0.id != deleted_task(
            h[l],
        )->0.id
}

/// The history stays sound when no new id comes into the lists.
pub proof fn lemma_history_shrink(h: Seq<UndoView>, all: Seq<TaskView>, all2: Seq<TaskView>)
    requires
        history_ok(h, all),
        forall|id: i64| has_id(all2, id) ==> has_id(all, id),
    ensures
        history_ok(h, all2),
{
    assert forall|k: int| 0 <= k < h.len() implies entry_ok(#[trigger] h[k], all2) by {
        assert(entry_ok(h[k], all));
    }
}

/// Recording a step keeps the history sound when the step is sound and,
/// if it holds a deleted task, its id differs from those already held.
pub proof fn lemma_history_push(h: Seq<UndoView>, all: Seq<TaskView>, x: UndoView)
    requires
        history_ok(h, all),
        entry_ok(x, all),
        deleted_task(x) is Some ==> forall|k: int|
            0 <= k < h.len() && (#[trigger] deleted_task(h[k])) is Some ==> deleted_task(
                h[k],
            )->0.id != deleted_task(x)->0.id,
    ensures
        history_ok(push_bounded_view(h, x), all),
{
    let h1 = h.push(x);
    assert forall|k: int| 0 <= k < h1.len() implies entry_ok(#[trigger] h1[k], all) by {
        if k < h.len() {
            assert(h1[k] == h[k]);
        }
    }
    assert forall|k: int, l: int|
        0 <= k < h1.len() && 0 <= l < h1.len() && k != l && (#[trigger] deleted_task(h1[k]))
            is Some && (#[trigger] deleted_task(h1[l])) is Some implies deleted_task(h1[k])->0.id
        != deleted_task(h1[l])->0.id by {
        if k < h.len() {
            assert(h1[k] == h[k]);
        }
        if l < h.len() {
            assert(h1[l] == h[l]);
        }
    }
    if h.len() + 1 > crate::app::UNDO_LIMIT {
        let h2 = h1.drop_first();
        assert forall|k: int| 0 <= k < h2.len() implies entry_ok(#[trigger] h2[k], all) by {
            assert(h2[k] == h1[k + 1]);
        }
        assert forall|k: int, l: int|
            0 <= k < h2.len() && 0 <= l < h2.len() && k != l && (#[trigger] deleted_task(h2[k]))
                is Some && (#[trigger] deleted_task(h2[l])) is Some implies deleted_task(
            h2[k],
        )->0.id != deleted_task(h2[l])->0.id by {
            assert(h2[k] == h1[k + 1] && h2[l] == h1[l + 1]);
        }
    }
}

/// Taking the top step off keeps the rest sound when the lists gain at
/// most the id of the task that step held.
pub proof fn lemma_history_pop(h: Seq<UndoView>, all: Seq<TaskView>, all2: Seq<TaskView>)
    requires
        history_ok(h, all),
        h.len() > 0,
        forall|id: i64|
            has_id(all2, id) ==> has_id(all, id) || (deleted_task(h.last()) is Some
                && deleted_task(h.last())->0.id == id),
    ensures
        history_ok(h.drop_last(), all2),
{
    let h2 = h.drop_last();
    assert forall|k: int| 0 <= k < h2.len() implies entry_ok(#[trigger] h2[k], all2) by {
        assert(h2[k] == h[k]);
        assert(entry_ok(h[k], all));
        if deleted_task(h[k]) is Some && deleted_task(h.last()) is Some {
            assert(deleted_task(h[k])->0.id != deleted_task(h[h.len() - 1])->0.id);
        }
    }
    assert forall|k: int, l: int|
        0 <= k < h2.len() && 0 <= l < h2.len() && k != l && (#[trigger] deleted_task(h2[k]))
            is Some && (#[trigger] deleted_task(h2[l])) is Some implies deleted_task(h2[k])->0.id
        != deleted_task(h2[l])->0.id by {
        assert(h2[k] == h[k] && h2[l] == h[l]);
    }
}

} // verus!
