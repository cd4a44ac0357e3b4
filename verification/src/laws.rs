//! Properties that span several operations.

use vstd::prelude::*;

use crate::actions::swap_with_next;
use crate::app::{index_of_id, lemma_index_of_id, lemma_matching, matching, spec_real_idx};
use crate::order::{insert_by_position, insert_index, lemma_insert_index, sort_by_position};
use crate::task::TaskView;
use crate::undo::restore_positions;

verus! {

/// Positions strictly increase along `s`.
pub open spec fn strictly_sorted(s: Seq<TaskView>) -> bool {
    forall|i: int, j: int| 0 <= i < j < s.len() ==> s[i].position < s[j].position
}

/// No two tasks of `s` share an id.
pub open spec fn unique_ids(s: Seq<TaskView>) -> bool {
    forall|i: int, j: int| 0 <= i < s.len() && 0 <= j < s.len() && i != j ==> s[i].id != s[j].id
}

/// Moving a task down and back up (or up and back down) restores the list,
/// positions included.
pub proof fn law_swap_with_next_involutive(s: Seq<TaskView>, j: int)
    requires
        0 <= j,
        j + 1 < s.len(),
    ensures
        swap_with_next(swap_with_next(s, j), j) == s,
{
    assert(swap_with_next(swap_with_next(s, j), j) =~= s);
}

/// A list already in strict position order is left as it is by the sort.
pub proof fn lemma_sort_of_strictly_sorted(s: Seq<TaskView>)
    requires
        strictly_sorted(s),
    ensures
        sort_by_position(s) == s,
    decreases s.len(),
{
    if s.len() > 0 {
        let p = s.drop_last();
        assert(strictly_sorted(p));
        lemma_sort_of_strictly_sorted(p);
        if p.len() > 0 {
            assert(p.last().position <= s.last().position);
        }
        assert(p.push(s.last()) =~= s);
    }
}

/// Putting a task back into the list it was taken from and sorting gives
/// the list back, when positions strictly increase along it.
pub proof fn lemma_sort_after_reinsert(s: Seq<TaskView>, i: int)
    requires
        strictly_sorted(s),
        0 <= i < s.len(),
    ensures
        sort_by_position(s.remove(i).push(s[i])) == s,
{
    let y = s.remove(i);
    let t = s[i];
    assert(strictly_sorted(y)) by {
        assert forall|a: int, b: int| 0 <= a < b < y.len() implies y[a].position
            < y[b].position by {
            let sa = if a < i { a } else { a + 1 };
            let sb = if b < i { b } else { b + 1 };
            assert(y[a] == s[sa] && y[b] == s[sb]);
        }
    }
    assert(y.push(t).drop_last() =~= y);
    lemma_sort_of_strictly_sorted(y);
    lemma_insert_index(y, t);
    let k = insert_index(y, t.position) as int;
    if k > i {
        assert(y[k - 1] == s[k]);
        assert(s[i].position < s[k].position);
    }
    if k < i {
        assert(y[k] == s[k]);
        assert(s[k].position < s[i].position);
    }
    assert(k == i);
    assert(y.insert(i, t) =~= s);
}

/// Taking back a completion puts the task back where it stood in the active
/// list (when positions strictly increase along it), and gives the completed
/// list back as it was.
pub proof fn law_undo_toggle_restores(
    active: Seq<TaskView>,
    done: Seq<TaskView>,
    i: int,
)
    requires
        strictly_sorted(active),
        0 <= i < active.len(),
        !active[i].done,
        done.len() + 1 <= usize::MAX,
    ensures
        ({
            let t = active[i];
            let done1 = seq![t.with_done(true)] + done;
            &&& index_of_id(done1, t.id) == Some(0usize)
            &&& done1.remove(0) == done
            &&& sort_by_position(active.remove(i).push(done1[0].with_done(false))) == active
        }),
{
    let t = active[i];
    let done1 = seq![t.with_done(true)] + done;
    lemma_index_of_id(done1, t.id);
    assert(done1.remove(0) =~= done);
    assert(done1[0].with_done(false) == t);
    lemma_sort_after_reinsert(active, i);
}

/// Taking back the deletion of an active task puts it back where it stood,
/// when positions strictly increase along the active list.
pub proof fn law_undo_delete_restores(active: Seq<TaskView>, i: int)
    requires
        strictly_sorted(active),
        0 <= i < active.len(),
    ensures
        sort_by_position(active.remove(i).push(active[i])) == active,
{
    lemma_sort_after_reinsert(active, i);
}

/// Sorting a strictly ordered list with two neighbours exchanged restores it.
proof fn lemma_sort_adjacent_swap(s: Seq<TaskView>, j: int)
    requires
        strictly_sorted(s),
        0 <= j,
        j + 1 < s.len(),
    ensures
        sort_by_position(s.update(j, s[j + 1]).update(j + 1, s[j])) == s,
    decreases s.len(),
{
    let x = s.update(j, s[j + 1]).update(j + 1, s[j]);
    if s.len() > j + 2 {
        let p = s.drop_last();
        assert(strictly_sorted(p));
        lemma_sort_adjacent_swap(p, j);
        assert(x.drop_last() =~= p.update(j, p[j + 1]).update(j + 1, p[j]));
        assert(p.last().position < s.last().position);
        assert(x.last() == s.last());
        assert(p.push(s.last()) =~= s);
    } else {
        let q = s.take(j).push(s[j + 1]);
        assert(strictly_sorted(q)) by {
            assert forall|a: int, b: int| 0 <= a < b < q.len() implies q[a].position
                < q[b].position by {
                if b == j {
                    assert(q[a] == s[a]);
                    assert(s[a].position < s[j + 1].position);
                } else {
                    assert(q[a] == s[a] && q[b] == s[b]);
                }
            }
        }
        assert(x.drop_last() =~= q);
        lemma_sort_of_strictly_sorted(q);
        let pre = s.take(j);
        assert(strictly_sorted(pre));
        lemma_sort_of_strictly_sorted(pre);
        assert(q.drop_last() =~= pre);
        assert(q.last() == s[j + 1]);
        assert(s[j].position < s[j + 1].position);
        if pre.len() > 0 {
            assert(pre.last().position < s[j].position);
        }
        assert(insert_by_position(pre, s[j]) =~= pre.push(s[j]));
        assert(pre.push(s[j]).push(s[j + 1]) =~= s);
    }
}

/// Taking back a move of a task puts both tasks back at their old places
/// and positions, when positions strictly increase along the active list
/// and ids are unique.
pub proof fn law_undo_reorder_restores(s: Seq<TaskView>, j: int)
    requires
        strictly_sorted(s),
        unique_ids(s),
        0 <= j,
        j + 1 < s.len(),
    ensures
        sort_by_position(
            restore_positions(
                swap_with_next(s, j),
                s[j].id,
                s[j].position,
                s[j + 1].id,
                s[j + 1].position,
            ),
        ) == s,
{
    let r = restore_positions(
        swap_with_next(s, j),
        s[j].id,
        s[j].position,
        s[j + 1].id,
        s[j + 1].position,
    );
    assert forall|k: int| 0 <= k < s.len() && k != j && k != j + 1 implies (#[trigger] s[k]).id != s[j].id
        && s[k].id != s[j + 1].id by {}
    assert(s[j].id != s[j + 1].id);
    assert(r =~= s.update(j, s[j + 1]).update(j + 1, s[j]));
    lemma_sort_adjacent_swap(s, j);
}

/// Taking back an edit gives the task its old value back: with unique ids
/// the edited task is found again by its id, and restoring the old value
/// there gives the list as it was.
pub proof fn law_undo_edit_restores(s: Seq<TaskView>, i: int, edited: TaskView)
    requires
        unique_ids(s),
        0 <= i < s.len(),
        s.len() <= usize::MAX,
        edited.id == s[i].id,
    ensures
        index_of_id(s.update(i, edited), s[i].id) == Some(i as usize),
        s.update(i, edited).update(i, s[i]) == s,
{
    let s1 = s.update(i, edited);
    lemma_index_of_id(s1, s[i].id);
    match index_of_id(s1, s[i].id) {
        Some(k) => {
            if k != i {
                assert(s1[k as int] == s[k as int]);
            }
        },
        None => {
            assert(s1[i].id == s[i].id);
        },
    }
    assert(s.update(i, edited).update(i, s[i]) =~= s);
}

/// Clearing the filter keeps the same task selected: with unique ids, the
/// task behind the selected filtered row is found again by its id, and in
/// the unfiltered view that row is the task's own index.
pub proof fn law_clear_filter_keeps_task(
    tasks: Seq<TaskView>,
    filter: Seq<char>,
    sel: Option<usize>,
)
    requires
        unique_ids(tasks),
        tasks.len() <= usize::MAX,
        spec_real_idx(matching(tasks, filter), sel) is Some,
    ensures
        ({
            let r = spec_real_idx(matching(tasks, filter), sel)->0;
            let new_sel = index_of_id(tasks, tasks[r as int].id);
            &&& new_sel == Some(r)
            &&& spec_real_idx(matching(tasks, Seq::empty()), new_sel) == Some(r)
        }),
{
    lemma_matching(tasks, filter);
    lemma_matching(tasks, Seq::empty());
    let r = spec_real_idx(matching(tasks, filter), sel)->0;
    let k = sel->0;
    assert(matching(tasks, filter)[k as int] == r);
    lemma_index_of_id(tasks, tasks[r as int].id);
    match index_of_id(tasks, tasks[r as int].id) {
        Some(j) => {
            if j != r {
                assert(tasks[j as int].id != tasks[r as int].id);
            }
        },
        None => {},
    }
}

} // verus!
