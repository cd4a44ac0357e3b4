//! Stable ordering of tasks by position.

use vstd::prelude::*;
use vstd::multiset::Multiset;

use crate::task::{Task, TaskView, views};

verus! {

/// `s` with `t` inserted after the last task whose position is at most
/// `t.position`, looking from the back (for a sorted `s`: after every task
/// with a position at most `t.position`).
pub open spec fn insert_by_position(s: Seq<TaskView>, t: TaskView) -> Seq<TaskView>
    decreases s.len(),
{
    if s.len() == 0 {
        seq![t]
    } else if s.last().position <= t.position {
        s.push(t)
    } else {
        insert_by_position(s.drop_last(), t).push(s.last())
    }
}

/// `s` stably sorted by position: tasks with equal positions keep their
/// order (insertion sort, the definition of a stable sort).
pub open spec fn sort_by_position(s: Seq<TaskView>) -> Seq<TaskView>
    decreases s.len(),
{
    if s.len() == 0 {
        s
    } else {
        insert_by_position(sort_by_position(s.drop_last()), s.last())
    }
}

/// Positions never decrease along `s`.
pub open spec fn is_sorted_by_position(s: Seq<TaskView>) -> bool {
    forall|i: int, j: int| 0 <= i <= j < s.len() ==> s[i].position <= s[j].position
}

/// Where the back-to-front scan of `insert_by_position` stops.
pub open spec fn insert_index(s: Seq<TaskView>, p: i64) -> nat
    decreases s.len(),
{
    if s.len() == 0 || s.last().position <= p {
        s.len()
    } else {
        insert_index(s.drop_last(), p)
    }
}

pub proof fn lemma_insert_index(s: Seq<TaskView>, t: TaskView)
    ensures
        insert_index(s, t.position) <= s.len(),
        insert_by_position(s, t) == s.insert(insert_index(s, t.position) as int, t),
        forall|k: int|
            insert_index(s, t.position) <= k < s.len() ==> (#[trigger] s[k]).position > t.position,
        insert_index(s, t.position) > 0 ==> s[insert_index(s, t.position) - 1].position
            <= t.position,
    decreases s.len(),
{
    if s.len() > 0 && s.last().position > t.position {
        lemma_insert_index(s.drop_last(), t);
        let k = insert_index(s, t.position) as int;
        assert(s.drop_last().insert(k, t).push(s.last()) =~= s.insert(k, t));
        assert forall|j: int| k <= j < s.len() implies (#[trigger] s[j]).position > t.position by {
            if j < s.len() - 1 {
                assert(s[j] == s.drop_last()[j]);
            }
        }
    } else if s.len() > 0 {
        assert(s.push(t) =~= s.insert(s.len() as int, t));
    } else {
        assert(seq![t] =~= s.insert(0, t));
    }
}

pub proof fn lemma_insert_keeps_sorted(s: Seq<TaskView>, t: TaskView)
    requires
        is_sorted_by_position(s),
    ensures
        is_sorted_by_position(insert_by_position(s, t)),
        insert_by_position(s, t).to_multiset() == s.to_multiset().insert(t),
{
    lemma_insert_index(s, t);
    let k = insert_index(s, t.position) as int;
    let r = s.insert(k, t);
    assert forall|i: int, j: int| 0 <= i <= j < r.len() implies r[i].position <= r[j].position by {
        if i < k && j > k {
            assert(r[i] == s[i]);
            assert(r[j] == s[j - 1]);
            assert(s[k - 1].position <= t.position);
            assert(s[i].position <= s[k - 1].position);
        } else if i < k && j == k {
            assert(s[i].position <= s[k - 1].position);
        } else if i == k && j > k {
            assert(r[j] == s[j - 1]);
        } else if i > k {
            assert(r[i] == s[i - 1]);
            assert(r[j] == s[j - 1]);
        }
    }
    lemma_insert_to_multiset(s, k, t);
}

pub proof fn lemma_insert_to_multiset(s: Seq<TaskView>, k: int, t: TaskView)
    requires
        0 <= k <= s.len(),
    ensures
        s.insert(k, t).to_multiset() == s.to_multiset().insert(t),
{
    broadcast use vstd::seq_lib::group_to_multiset_ensures;
    broadcast use vstd::multiset::group_multiset_axioms;

    let r = s.insert(k, t);
    assert(r.remove(k) =~= s);
    assert(r[k] == t);
    assert(r.contains(t));
    assert forall|x: TaskView| #[trigger] r.to_multiset().count(x) == s.to_multiset().insert(t).count(x) by {
    }
    assert(r.to_multiset() =~= s.to_multiset().insert(t));
}

/// The sort yields a sorted rearrangement of its input.
pub proof fn lemma_sort_by_position(s: Seq<TaskView>)
    ensures
        is_sorted_by_position(sort_by_position(s)),
        sort_by_position(s).to_multiset() == s.to_multiset(),
        sort_by_position(s).len() == s.len(),
    decreases s.len(),
{
    if s.len() > 0 {
        lemma_sort_by_position(s.drop_last());
        lemma_insert_keeps_sorted(sort_by_position(s.drop_last()), s.last());
        broadcast use vstd::seq_lib::group_to_multiset_ensures;

        assert(s =~= s.drop_last().push(s.last()));
        assert(sort_by_position(s).to_multiset().len() == s.to_multiset().len());
    } else {
        broadcast use vstd::seq_lib::group_to_multiset_ensures;

        assert(s.to_multiset().len() == 0);
        assert(s.to_multiset() =~= Multiset::empty());
    }
}

/// Stably sorts the tasks by position.
pub fn sort_tasks_by_position(tasks: &mut Vec<Task>)
    ensures
        views(final(tasks)@) == sort_by_position(views(old(tasks)@)),
{
    let ghost s = views(tasks@);
    let mut sorted: Vec<Task> = Vec::new();
    std::mem::swap(tasks, &mut sorted);
    let ghost n = s.len();
    proof {
        assert(views(sorted@).len() == sorted.len());
    }
    let mut done: usize = 0;
    proof {
        assert(views(tasks@) =~= sort_by_position(s.take(0)));
    }
    while sorted.len() > 0
        invariant
            views(sorted@) == s.skip(done as int),
            done <= n,
            n == s.len(),
            n <= usize::MAX,
            views(tasks@) == sort_by_position(s.take(done as int)),
        decreases sorted.len(),
    {
        let ghost before = views(sorted@);
        let x = sorted.remove(0);
        proof {
            assert(x@ == before[0]);
            assert(before.len() > 0);
            assert(done < n);
            assert(s.skip(done as int)[0] == s[done as int]);
            assert(views(sorted@) =~= before.drop_first());
            assert(before.drop_first() =~= s.skip(done + 1 as int));
        }
        let ghost cur = views(tasks@);
        let mut k = tasks.len();
        proof {
            assert(cur.take(k as int) =~= cur);
        }
        while k > 0 && tasks[k - 1].position > x.position
            invariant
                k <= tasks.len(),
                cur == views(tasks@),
                insert_index(cur, x.position) == insert_index(cur.take(k as int), x.position),
            decreases k,
        {
            proof {
                assert(cur.take(k as int).drop_last() =~= cur.take(k - 1));
            }
            k = k - 1;
        }
        proof {
            assert(cur.take(k as int).len() == k);
            assert(insert_index(cur, x.position) == k);
            lemma_insert_index(cur, x@);
            assert(s.take(done + 1 as int).drop_last() =~= s.take(done as int));
        }
        tasks.insert(k, x);
        proof {
            assert(views(tasks@) =~= cur.insert(k as int, x@));
        }
        done = done + 1;
    }
    proof {
        assert(s.take(n as int) =~= s);
    }
}

} // verus!
