//! Taking back steps restores the lists as they were before them, newest
//! step first, within the history that is kept.

use vstd::prelude::*;

use crate::actions::push_bounded;
use crate::app::{
    App, DbWrite, Focus, UNDO_LIMIT, UndoAction, UndoView, index_of_id, lemma_index_of_id,
    lemma_matching_vec, matching_upto, undo_views,
};
use crate::edits::push_bounded_view;
use crate::laws::{
    law_undo_delete_restores, law_undo_edit_restores, law_undo_reorder_restores,
    law_undo_toggle_restores, strictly_sorted, unique_ids,
};
use crate::task::{TaskView, views};

verus! {

impl App {
    /// No two tasks of the two lists share an id.
    pub open spec fn ids_unique(&self) -> bool {
        unique_ids(views(self.active@) + views(self.done@))
    }

    /// The id of the task awaiting delete confirmation.
    pub open spec fn pending_id(&self) -> i64 {
        match self.pending_delete {
            Some((id, _)) => id,
            None => 0,
        }
    }
}

proof fn lemma_unique_parts(a: Seq<TaskView>, d: Seq<TaskView>)
    requires
        unique_ids(a + d),
    ensures
        unique_ids(a),
        unique_ids(d),
        forall|i: int, j: int| 0 <= i < a.len() && 0 <= j < d.len() ==> a[i].id != d[j].id,
{
    assert forall|i: int, j: int|
        0 <= i < a.len() && 0 <= j < a.len() && i != j implies a[i].id != a[j].id by {
        assert((a + d)[i] == a[i] && (a + d)[j] == a[j]);
    }
    assert forall|i: int, j: int|
        0 <= i < d.len() && 0 <= j < d.len() && i != j implies d[i].id != d[j].id by {
        assert((a + d)[a.len() + i] == d[i] && (a + d)[a.len() + j] == d[j]);
    }
    assert forall|i: int, j: int| 0 <= i < a.len() && 0 <= j < d.len() implies a[i].id
        != d[j].id by {
        assert((a + d)[i] == a[i] && (a + d)[a.len() + j] == d[j]);
    }
}

proof fn lemma_vec_views_len(v: &Vec<crate::task::Task>)
    ensures
        views(v@).len() == v.len(),
        v.len() <= usize::MAX,
{
    assert(v@.len() == v.len());
}

/// An edit of the selected task followed, from a state `b` with the same
/// lists, by the undo of that edit by id gives both lists back.
proof fn lemma_edit_then_undo(
    a0: &App,
    a1: &App,
    b: &App,
    a2: &App,
    f: spec_fn(TaskView) -> TaskView,
    g: spec_fn(TaskView) -> TaskView,
)
    requires
        a0.wf(),
        a0.ids_unique(),
        a0.focused_idx() is Some,
        App::edited_focused(a0, a1, f),
        views(b.active@) == views(a1.active@),
        views(b.done@) == views(a1.done@),
        App::edited_by_id(b, a2, a0.focused_task().id, g),
        f(a0.focused_task()).id == a0.focused_task().id,
        g(f(a0.focused_task())) == a0.focused_task(),
    ensures
        views(a2.active@) == views(a0.active@),
        views(a2.done@) == views(a0.done@),
{
    let a = views(a0.active@);
    let d = views(a0.done@);
    lemma_unique_parts(a, d);
    lemma_vec_views_len(&a0.active);
    lemma_vec_views_len(&a0.done);
    lemma_vec_views_len(&a1.active);
    lemma_vec_views_len(&a1.done);
    lemma_matching_vec(&a0.active, a0.filter@);
    lemma_matching_vec(&a0.done, a0.filter@);
    let i = a0.focused_idx()->0 as int;
    let t = a0.focused_task();
    let id = t.id;
    match a0.focus {
        Focus::Active => {
            assert(a[i] == t);
            law_undo_edit_restores(a, i, f(t));
            assert(views(a1.active@)[i] == f(t));
            assert(a1.active@[i]@ == views(a1.active@)[i]);
            assert(b.active@[i]@ == views(b.active@)[i]);
        },
        Focus::Done => {
            assert(d[i] == t);
            lemma_index_of_id(views(a1.active@), id);
            if index_of_id(views(a1.active@), id) is Some {
                let k = index_of_id(views(a1.active@), id)->0 as int;
                assert(views(a1.active@)[k] == a[k]);
            }
            law_undo_edit_restores(d, i, f(t));
            assert(views(a1.done@)[i] == f(t));
            assert(a1.done@[i]@ == views(a1.done@)[i]);
            assert(b.done@[i]@ == views(b.done@)[i]);
        },
    }
}

/// The top undo step, after a step was recorded with the views equality.
proof fn lemma_last_recorded(s0: Seq<UndoAction>, s1: Seq<UndoAction>, x: UndoView)
    requires
        undo_views(s1) == push_bounded_view(undo_views(s0), x),
    ensures
        s1.len() > 0,
        s1.last()@ == x,
        s0.len() < UNDO_LIMIT ==> undo_views(s1.drop_last()) == undo_views(s0),
{
    assert(undo_views(s1).len() == s1.len());
    assert(undo_views(s1)[s1.len() - 1] == s1.last()@);
    if s0.len() < UNDO_LIMIT {
        assert(undo_views(s1.drop_last()) =~= undo_views(s1).drop_last());
        assert(undo_views(s0).push(x).drop_last() =~= undo_views(s0));
    }
}

/// Renaming the selected task and then taking that back gives both lists
/// back, when ids are unique.
pub proof fn law_undo_reverts_rename(
    a0: &App,
    a1: &App,
    a2: &App,
    w1: Seq<DbWrite>,
    w2: Seq<DbWrite>,
)
    requires
        a0.wf(),
        a0.ids_unique(),
        App::spec_confirm_edit_title(a0, a1, w1),
        w1.len() > 0,
        App::spec_undo(a1, a2, w2),
    ensures
        views(a2.active@) == views(a0.active@),
        views(a2.done@) == views(a0.done@),
        a0.undo_stack@.len() < UNDO_LIMIT ==> undo_views(a2.undo_stack@) == undo_views(
            a0.undo_stack@,
        ),
{
    let t = a0.focused_task();
    let title = crate::text::spec_trim(a0.input@);
    lemma_last_recorded(
        a0.undo_stack@,
        a1.undo_stack@,
        UndoView::EditTitle { id: t.id, old_title: t.title },
    );
    lemma_edit_then_undo(
        a0,
        a1,
        a1,
        a2,
        |v: TaskView| v.with_title(title),
        |v: TaskView| v.with_title(t.title),
    );
}

/// Editing the selected task's notes and then taking that back gives both
/// lists back, when ids are unique.
pub proof fn law_undo_reverts_notes(
    a0: &App,
    a1: &App,
    a2: &App,
    edited: Seq<String>,
    w1: Seq<DbWrite>,
    w2: Seq<DbWrite>,
)
    requires
        a0.wf(),
        a0.ids_unique(),
        App::spec_confirm_note(a0, a1, edited, w1),
        w1.len() > 0,
        App::spec_undo(a1, a2, w2),
    ensures
        views(a2.active@) == views(a0.active@),
        views(a2.done@) == views(a0.done@),
{
    let t = a0.focused_task();
    let notes = crate::text::spec_join(crate::text::texts(edited), seq!['\n']);
    lemma_last_recorded(
        a0.undo_stack@,
        a1.undo_stack@,
        UndoView::EditNotes { id: t.id, old_notes: t.notes },
    );
    lemma_edit_then_undo(
        a0,
        a1,
        a1,
        a2,
        |v: TaskView| v.with_notes(notes),
        |v: TaskView| v.with_notes(t.notes),
    );
}

/// Editing the selected task's tags and then taking that back gives both
/// lists back, when ids are unique.
pub proof fn law_undo_reverts_tags(
    a0: &App,
    a1: &App,
    a2: &App,
    w1: Seq<DbWrite>,
    w2: Seq<DbWrite>,
)
    requires
        a0.wf(),
        a0.ids_unique(),
        App::spec_confirm_edit_tags(a0, a1, w1),
        a0.focused_idx() is Some,
        App::spec_undo(a1, a2, w2),
    ensures
        views(a2.active@) == views(a0.active@),
        views(a2.done@) == views(a0.done@),
{
    let t = a0.focused_task();
    let tags = crate::text::spec_parse_tags(a0.input@);
    lemma_last_recorded(
        a0.undo_stack@,
        a1.undo_stack@,
        UndoView::EditTags { id: t.id, old_tags: t.tags },
    );
    lemma_edit_then_undo(
        a0,
        a1,
        a1,
        a2,
        |v: TaskView| v.with_tags(tags),
        |v: TaskView| v.with_tags(t.tags),
    );
}

/// Completing the selected active task and then taking that back gives both
/// lists back, when positions strictly increase along the active list.
pub proof fn law_undo_reverts_completion(
    a0: &App,
    a1: &App,
    a2: &App,
    w1: Seq<DbWrite>,
    w2: Seq<DbWrite>,
)
    requires
        a0.wf(),
        a0.focus == Focus::Active,
        a0.spec_active_real_idx() is Some,
        !a0.active@[a0.spec_active_real_idx()->0 as int].done,
        strictly_sorted(views(a0.active@)),
        App::spec_toggle_done(a0, a1, w1),
        App::spec_undo(a1, a2, w2),
    ensures
        views(a2.active@) == views(a0.active@),
        views(a2.done@) == views(a0.done@),
        a0.undo_stack@.len() < UNDO_LIMIT ==> a2.undo_stack@ == a0.undo_stack@,
{
    let a = views(a0.active@);
    let d = views(a0.done@);
    lemma_vec_views_len(&a0.active);
    lemma_vec_views_len(&a1.done);
    lemma_matching_vec(&a0.active, a0.filter@);
    let i = a0.spec_active_real_idx()->0 as int;
    let t = a0.active@[i]@;
    assert(a[i] == t);
    let x = UndoAction::ToggleDone { id: t.id, from_done: false };
    assert(a1.undo_stack@ == push_bounded(a0.undo_stack@, x));
    assert(a1.undo_stack@.last() == x);
    law_undo_toggle_restores(a, d, i);
    assert(a1.done@[0]@ == views(a1.done@)[0]);
    if a0.undo_stack@.len() < UNDO_LIMIT {
        assert(a0.undo_stack@.push(x).drop_last() =~= a0.undo_stack@);
    }
}

/// Deleting an active task and then taking that back gives both lists back,
/// when positions strictly increase along the active list.
pub proof fn law_undo_reverts_delete(
    a0: &App,
    a1: &App,
    a2: &App,
    w1: Seq<DbWrite>,
    w2: Seq<DbWrite>,
)
    requires
        a0.wf(),
        a0.pending_delete is Some,
        index_of_id(views(a0.active@), a0.pending_id()) is Some,
        strictly_sorted(views(a0.active@)),
        App::spec_confirm_delete(a0, a1, w1),
        App::spec_undo(a1, a2, w2),
    ensures
        views(a2.active@) == views(a0.active@),
        views(a2.done@) == views(a0.done@),
        a0.undo_stack@.len() < UNDO_LIMIT ==> a2.undo_stack@ == a0.undo_stack@,
{
    let a = views(a0.active@);
    lemma_vec_views_len(&a0.active);
    let id = a0.pending_id();
    lemma_index_of_id(a, id);
    let i = index_of_id(a, id)->0 as int;
    let x = UndoAction::DeleteTask { task: a0.active@[i], was_done: false };
    assert(a1.undo_stack@.last() == x);
    assert(a[i] == a0.active@[i]@);
    law_undo_delete_restores(a, i);
    if a0.undo_stack@.len() < UNDO_LIMIT {
        assert(a0.undo_stack@.push(x).drop_last() =~= a0.undo_stack@);
    }
}

/// Moving the selected task up and then taking that back gives the active
/// list back, when positions strictly increase along it and ids are unique.
pub proof fn law_undo_reverts_move_up(
    a0: &App,
    a1: &App,
    a2: &App,
    w1: Seq<DbWrite>,
    w2: Seq<DbWrite>,
)
    requires
        a0.wf(),
        a0.can_reorder(),
        a0.active_state matches Some(i) && i > 0,
        strictly_sorted(views(a0.active@)),
        unique_ids(views(a0.active@)),
        App::spec_move_task_up(a0, a1, w1),
        App::spec_undo(a1, a2, w2),
    ensures
        views(a2.active@) == views(a0.active@),
        a2.done == a0.done,
        a0.undo_stack@.len() < UNDO_LIMIT ==> a2.undo_stack@ == a0.undo_stack@,
{
    let a = views(a0.active@);
    lemma_vec_views_len(&a0.active);
    let i = a0.active_state->0 as int;
    let x = UndoAction::Reorder {
        id_a: a0.active@[i - 1].id,
        pos_a: a0.active@[i - 1].position,
        id_b: a0.active@[i].id,
        pos_b: a0.active@[i].position,
    };
    assert(a1.undo_stack@.last() == x);
    assert(a[i - 1] == a0.active@[i - 1]@ && a[i] == a0.active@[i]@);
    law_undo_reorder_restores(a, i - 1);
    if a0.undo_stack@.len() < UNDO_LIMIT {
        assert(a0.undo_stack@.push(x).drop_last() =~= a0.undo_stack@);
    }
}

/// Moving the selected task down and then taking that back gives the
/// active list back, when positions strictly increase along it and ids are
/// unique.
pub proof fn law_undo_reverts_move_down(
    a0: &App,
    a1: &App,
    a2: &App,
    w1: Seq<DbWrite>,
    w2: Seq<DbWrite>,
)
    requires
        a0.wf(),
        a0.can_reorder(),
        a0.active_state matches Some(i) && i + 1 < a0.active.len(),
        strictly_sorted(views(a0.active@)),
        unique_ids(views(a0.active@)),
        App::spec_move_task_down(a0, a1, w1),
        App::spec_undo(a1, a2, w2),
    ensures
        views(a2.active@) == views(a0.active@),
        a2.done == a0.done,
        a0.undo_stack@.len() < UNDO_LIMIT ==> a2.undo_stack@ == a0.undo_stack@,
{
    let a = views(a0.active@);
    lemma_vec_views_len(&a0.active);
    let i = a0.active_state->0 as int;
    let x = UndoAction::Reorder {
        id_a: a0.active@[i].id,
        pos_a: a0.active@[i].position,
        id_b: a0.active@[i + 1].id,
        pos_b: a0.active@[i + 1].position,
    };
    assert(a1.undo_stack@.last() == x);
    assert(a[i] == a0.active@[i]@ && a[i + 1] == a0.active@[i + 1]@);
    law_undo_reorder_restores(a, i);
    if a0.undo_stack@.len() < UNDO_LIMIT {
        assert(a0.undo_stack@.push(x).drop_last() =~= a0.undo_stack@);
    }
}

/// With no filter every task is a row, whatever the tasks hold.
proof fn lemma_matching_no_filter(t1: Seq<TaskView>, t2: Seq<TaskView>, f: Seq<char>, n: nat)
    requires
        f.len() == 0,
    ensures
        matching_upto(t1, f, n) == matching_upto(t2, f, n),
    decreases n,
{
    if n > 0 {
        lemma_matching_no_filter(t1, t2, f, (n - 1) as nat);
    }
}

/// The step below the top one, after recording `x`.
proof fn lemma_below_top(h: Seq<UndoView>, x: UndoView)
    requires
        0 < h.len() <= UNDO_LIMIT,
    ensures
        push_bounded_view(h, x).len() >= 2,
        push_bounded_view(h, x)[push_bounded_view(h, x).len() - 2] == h.last(),
        h.len() < UNDO_LIMIT ==> push_bounded_view(h, x).drop_last() == h,
{
    if h.len() < UNDO_LIMIT {
        assert(h.push(x).drop_last() =~= h);
    }
}

/// The views of the history with its top step taken off.
proof fn lemma_views_drop_last(s: Seq<UndoAction>)
    requires
        s.len() > 0,
    ensures
        undo_views(s.drop_last()) == undo_views(s).drop_last(),
        undo_views(s).len() == s.len(),
        s.last()@ == undo_views(s).last(),
{
    assert(undo_views(s.drop_last()) =~= undo_views(s).drop_last());
}

/// A rename of the selected task, with no filter, keeps the selection on
/// the same task, keeps ids unique and records the old title.
proof fn lemma_rename_step(a0: &App, a1: &App, w: Seq<DbWrite>)
    requires
        a0.wf(),
        a0.ids_unique(),
        a0.filter@.len() == 0,
        a0.focused_idx() is Some,
        crate::text::spec_trim(a0.input@).len() > 0,
        App::spec_confirm_edit_title(a0, a1, w),
    ensures
        a1.wf(),
        a1.ids_unique(),
        a1.filter == a0.filter,
        a1.focus == a0.focus,
        a1.focused_idx() == a0.focused_idx(),
        a1.focused_task().id == a0.focused_task().id,
        a1.focused_task() == a0.focused_task().with_title(crate::text::spec_trim(a0.input@)),
        App::edited_focused(a0, a1, |v: TaskView| v.with_title(crate::text::spec_trim(a0.input@))),
        undo_views(a1.undo_stack@) == push_bounded_view(
            undo_views(a0.undo_stack@),
            UndoView::EditTitle { id: a0.focused_task().id, old_title: a0.focused_task().title },
        ),
{
    let a = views(a0.active@);
    let d = views(a0.done@);
    let t = a0.focused_task();
    let title = crate::text::spec_trim(a0.input@);
    let f1 = |v: TaskView| v.with_title(title);
    lemma_vec_views_len(&a0.active);
    lemma_vec_views_len(&a0.done);
    lemma_vec_views_len(&a1.active);
    lemma_vec_views_len(&a1.done);
    lemma_matching_vec(&a0.active, a0.filter@);
    lemma_matching_vec(&a0.done, a0.filter@);
    lemma_unique_parts(a, d);
    // The rename keeps the selection on the same task.
    lemma_matching_no_filter(a, views(a1.active@), a0.filter@, a.len());
    lemma_matching_no_filter(d, views(a1.done@), a0.filter@, d.len());
    assert(a1.active_rows() == a0.active_rows());
    assert(a1.done_rows() == a0.done_rows());
    assert(a1.focused_idx() == a0.focused_idx());
    let i = a0.focused_idx()->0 as int;
    let a1v = views(a1.active@);
    let d1v = views(a1.done@);
    match a0.focus {
        Focus::Active => {
            assert(a1.active@[i]@ == a1v[i]);
            assert(a[i] == t);
            assert forall|x: int, y: int|
                0 <= x < (a1v + d1v).len() && 0 <= y < (a1v + d1v).len() && x != y implies (a1v
                + d1v)[x].id != (a1v + d1v)[y].id by {
                assert((a1v + d1v)[x].id == (a + d)[x].id);
                assert((a1v + d1v)[y].id == (a + d)[y].id);
            }
        },
        Focus::Done => {
            assert(a1.done@[i]@ == d1v[i]);
            assert(d[i] == t);
            assert forall|x: int, y: int|
                0 <= x < (a1v + d1v).len() && 0 <= y < (a1v + d1v).len() && x != y implies (a1v
                + d1v)[x].id != (a1v + d1v)[y].id by {
                assert((a1v + d1v)[x].id == (a + d)[x].id);
                assert((a1v + d1v)[y].id == (a + d)[y].id);
            }
        },
    }
    let x1 = UndoView::EditTitle { id: t.id, old_title: t.title };
    lemma_last_recorded(a0.undo_stack@, a1.undo_stack@, x1);
    assert(a1.focused_task() == f1(t));
    assert(undo_views(a1.undo_stack@).len() == a1.undo_stack@.len());
    assert(a1.wf());
    assert(a1.ids_unique());
}

/// Renaming the selected task, then editing its tags, then taking back two
/// steps: the first undo takes back only the tag edit, the second the
/// rename, in that order. Shown with no filter (so the selection names the
/// same task throughout) and unique ids; the history is back as it was
/// when it had room for both steps.
pub proof fn law_undo_twice_reverts_rename_then_tags(
    a0: &App,
    a1: &App,
    a2: &App,
    a3: &App,
    a4: &App,
    w1: Seq<DbWrite>,
    w2: Seq<DbWrite>,
    w3: Seq<DbWrite>,
    w4: Seq<DbWrite>,
)
    requires
        a0.wf(),
        a0.ids_unique(),
        a0.filter@.len() == 0,
        App::spec_confirm_edit_title(a0, a1, w1),
        w1.len() > 0,
        App::spec_confirm_edit_tags(a1, a2, w2),
        App::spec_undo(a2, a3, w3),
        App::spec_undo(a3, a4, w4),
    ensures
        views(a3.active@) == views(a1.active@),
        views(a3.done@) == views(a1.done@),
        views(a4.active@) == views(a0.active@),
        views(a4.done@) == views(a0.done@),
        a0.undo_stack@.len() + 2 <= UNDO_LIMIT ==> undo_views(a4.undo_stack@) == undo_views(
            a0.undo_stack@,
        ),
{
    let t = a0.focused_task();
    let title = crate::text::spec_trim(a0.input@);
    let f1 = |v: TaskView| v.with_title(title);
    let g1 = |v: TaskView| v.with_title(t.title);
    lemma_rename_step(a0, a1, w1);
    let t1 = a1.focused_task();
    let x1 = UndoView::EditTitle { id: t.id, old_title: t.title };
    lemma_last_recorded(a0.undo_stack@, a1.undo_stack@, x1);
    // The first undo takes back the tag edit only.
    let tags = crate::text::spec_parse_tags(a1.input@);
    let x2 = UndoView::EditTags { id: t1.id, old_tags: t1.tags };
    lemma_last_recorded(a1.undo_stack@, a2.undo_stack@, x2);
    lemma_edit_then_undo(
        a1,
        a2,
        a2,
        a3,
        |v: TaskView| v.with_tags(tags),
        |v: TaskView| v.with_tags(t1.tags),
    );
    // The step below it is the rename.
    let h1 = undo_views(a1.undo_stack@);
    lemma_views_drop_last(a1.undo_stack@);
    lemma_views_drop_last(a2.undo_stack@);
    lemma_below_top(h1, x2);
    assert(a3.undo_stack@ == a2.undo_stack@.drop_last());
    assert(undo_views(a3.undo_stack@) == push_bounded_view(h1, x2).drop_last());
    lemma_views_drop_last(a3.undo_stack@);
    assert(a3.undo_stack@.last()@ == x1);
    lemma_edit_then_undo(a0, a1, a3, a4, f1, g1);
    if a0.undo_stack@.len() + 2 <= UNDO_LIMIT {
        assert(undo_views(a4.undo_stack@) == undo_views(a3.undo_stack@).drop_last());
    }
}

/// The history after recording the steps `xs`, in order, onto `h`.
pub open spec fn record_all(h: Seq<UndoView>, xs: Seq<UndoView>) -> Seq<UndoView>
    decreases xs.len(),
{
    if xs.len() == 0 {
        h
    } else {
        push_bounded_view(record_all(h, xs.drop_last()), xs.last())
    }
}

/// The steps of `s` that fit in the history: its last `UNDO_LIMIT`.
pub open spec fn last_steps(s: Seq<UndoView>) -> Seq<UndoView> {
    if s.len() > UNDO_LIMIT {
        s.subrange(s.len() - UNDO_LIMIT, s.len() as int)
    } else {
        s
    }
}

/// However many steps are recorded, the history holds exactly the most
/// recent `UNDO_LIMIT` of them (fewer if fewer were recorded), oldest
/// first, so that undo takes them back newest first and the older ones are
/// gone.
pub proof fn law_history_keeps_last_steps(h: Seq<UndoView>, xs: Seq<UndoView>)
    requires
        h.len() <= UNDO_LIMIT,
    ensures
        record_all(h, xs) == last_steps(h + xs),
    decreases xs.len(),
{
    if xs.len() > 0 {
        let ys = xs.drop_last();
        let x = xs.last();
        law_history_keeps_last_steps(h, ys);
        let r = record_all(h, ys);
        let s = h + ys;
        assert(h + xs =~= s.push(x));
        if s.len() + 1 > UNDO_LIMIT {
            assert(r.push(x).drop_first() =~= last_steps(s.push(x)));
        } else {
            assert(r.push(x) =~= last_steps(s.push(x)));
        }
    } else {
        assert(h + xs =~= h);
    }
}

/// The steps a run of renames records: at each state but the last, the
/// old title of the selected task.
pub open spec fn rename_steps(r: Seq<App>, k: int) -> Seq<UndoView> {
    Seq::new(
        k as nat,
        |j: int| UndoView::EditTitle { id: r[0].focused_task().id, old_title: r[j].focused_task().title },
    )
}

/// Each state of `r` but the first comes from the one before by renaming
/// the selected task to a non-blank title.
pub open spec fn renamed_in_turn(r: Seq<App>, wr: Seq<Seq<DbWrite>>) -> bool {
    forall|k: int|
        0 <= k < r.len() - 1 ==> App::spec_confirm_edit_title(&r[k], &r[k + 1], #[trigger] wr[k])
            && crate::text::spec_trim(r[k].input@).len() > 0
}

/// Each state of `u` but the first comes from the one before by an undo.
pub open spec fn undone_in_turn(u: Seq<App>, wu: Seq<Seq<DbWrite>>) -> bool {
    forall|j: int| 0 <= j < u.len() - 1 ==> App::spec_undo(&u[j], &u[j + 1], #[trigger] wu[j])
}

/// How many of `n` recorded steps `j` undos take back: all of them up to
/// the `UNDO_LIMIT` the history keeps.
pub open spec fn steps_taken_back(n: int, j: int) -> int {
    let kept = if n < UNDO_LIMIT {
        n
    } else {
        UNDO_LIMIT as int
    };
    if j < kept {
        j
    } else {
        kept
    }
}

proof fn lemma_renames_upto(r: Seq<App>, wr: Seq<Seq<DbWrite>>, k: int)
    requires
        r.len() >= 1,
        r[0].wf(),
        r[0].ids_unique(),
        r[0].filter@.len() == 0,
        r[0].focused_idx() is Some,
        r[0].undo_stack@.len() == 0,
        renamed_in_turn(r, wr),
        0 <= k < r.len(),
    ensures
        r[k].wf(),
        r[k].ids_unique(),
        r[k].filter == r[0].filter,
        r[k].focus == r[0].focus,
        r[k].focused_idx() == r[0].focused_idx(),
        r[k].focused_task().id == r[0].focused_task().id,
        undo_views(r[k].undo_stack@) == record_all(Seq::empty(), rename_steps(r, k)),
    decreases k,
{
    if k > 0 {
        lemma_renames_upto(r, wr, k - 1);
        assert(App::spec_confirm_edit_title(&r[k - 1], &r[k], wr[k - 1]));
        lemma_rename_step(&r[k - 1], &r[k], wr[k - 1]);
        assert(rename_steps(r, k).drop_last() =~= rename_steps(r, k - 1));
    } else {
        assert(undo_views(r[0].undo_stack@) =~= Seq::<UndoView>::empty());
    }
}

proof fn lemma_undos_upto(
    r: Seq<App>,
    wr: Seq<Seq<DbWrite>>,
    u: Seq<App>,
    wu: Seq<Seq<DbWrite>>,
    j: int,
)
    requires
        r.len() >= 1,
        r[0].wf(),
        r[0].ids_unique(),
        r[0].filter@.len() == 0,
        r[0].focused_idx() is Some,
        r[0].undo_stack@.len() == 0,
        renamed_in_turn(r, wr),
        u.len() >= 1,
        u[0] == r.last(),
        undone_in_turn(u, wu),
        0 <= j < u.len(),
    ensures
        ({
            let n = r.len() - 1;
            let b = steps_taken_back(n, j);
            let kept = last_steps(rename_steps(r, n));
            &&& views(u[j].active@) == views(r[n - b].active@)
            &&& views(u[j].done@) == views(r[n - b].done@)
            &&& undo_views(u[j].undo_stack@) == kept.subrange(0, kept.len() - b)
        }),
    decreases j,
{
    let n = r.len() - 1;
    let e = rename_steps(r, n);
    let kept = last_steps(e);
    let len = kept.len() as int;
    assert(len == steps_taken_back(n, n + UNDO_LIMIT));
    assert forall|i: int| 0 <= i < len implies #[trigger] kept[i] == e[n - len + i] by {}
    if j == 0 {
        lemma_renames_upto(r, wr, n);
        law_history_keeps_last_steps(Seq::empty(), e);
        assert(Seq::<UndoView>::empty() + e =~= e);
        assert(kept.subrange(0, len) =~= kept);
    } else {
        let p = j - 1;
        lemma_undos_upto(r, wr, u, wu, p);
        assert(App::spec_undo(&u[p], &u[j], wu[p]));
        assert(undo_views(u[p].undo_stack@).len() == u[p].undo_stack@.len());
        if p < len {
            assert(steps_taken_back(n, p) == p);
            let k = n - p - 1;
            assert(u[p].undo_stack@.len() == len - p);
            lemma_views_drop_last(u[p].undo_stack@);
            assert(u[p].undo_stack@.last()@ == kept[len - p - 1]);
            assert(kept[len - p - 1] == e[k]);
            lemma_renames_upto(r, wr, k);
            assert(App::spec_confirm_edit_title(&r[k], &r[k + 1], wr[k]));
            lemma_rename_step(&r[k], &r[k + 1], wr[k]);
            let t = r[k].focused_task();
            let title = crate::text::spec_trim(r[k].input@);
            lemma_edit_then_undo(
                &r[k],
                &r[k + 1],
                &u[p],
                &u[j],
                |v: TaskView| v.with_title(title),
                |v: TaskView| v.with_title(t.title),
            );
            assert(undo_views(u[j].undo_stack@) =~= kept.subrange(0, len - j));
        } else {
            assert(steps_taken_back(n, p) == len);
            assert(u[p].undo_stack@.len() == 0);
        }
    }
}

/// Renaming the selected task again and again and then taking back steps
/// one by one walks the lists back through the renames, newest first; the
/// history keeps only the last `UNDO_LIMIT` renames, so after that many
/// undos the oldest kept rename is where the walk stops, and further undos
/// change nothing. Shown from an empty history, with no filter (so the
/// selection names the same task throughout) and unique ids.
pub proof fn law_undo_after_renames(
    r: Seq<App>,
    wr: Seq<Seq<DbWrite>>,
    u: Seq<App>,
    wu: Seq<Seq<DbWrite>>,
)
    requires
        r.len() >= 1,
        r[0].wf(),
        r[0].ids_unique(),
        r[0].filter@.len() == 0,
        r[0].focused_idx() is Some,
        r[0].undo_stack@.len() == 0,
        renamed_in_turn(r, wr),
        u.len() >= 1,
        u[0] == r.last(),
        undone_in_turn(u, wu),
    ensures
        forall|j: int|
            0 <= j < u.len() ==> views((#[trigger] u[j]).active@) == views(
                r[r.len() - 1 - steps_taken_back(r.len() - 1, j)].active@,
            ) && views(u[j].done@) == views(
                r[r.len() - 1 - steps_taken_back(r.len() - 1, j)].done@,
            ),
{
    assert forall|j: int| 0 <= j < u.len() implies views((#[trigger] u[j]).active@) == views(
        r[r.len() - 1 - steps_taken_back(r.len() - 1, j)].active@,
    ) && views(u[j].done@) == views(r[r.len() - 1 - steps_taken_back(r.len() - 1, j)].done@) by {
        lemma_undos_upto(r, wr, u, wu, j);
    }
}

/// Reopening the selected completed task and then taking that back puts
/// the task in front of the completed list again, marked done, and gives
/// the active list back as it was; the task keeps the position reopening
/// gave it. When ids are unique.
pub proof fn law_undo_reverts_reopen(
    a0: &App,
    a1: &App,
    a2: &App,
    w1: Seq<DbWrite>,
    w2: Seq<DbWrite>,
)
    requires
        a0.wf(),
        a0.ids_unique(),
        a0.focus == Focus::Done,
        a0.spec_done_real_idx() is Some,
        crate::task::positions_fit(views(a0.active@)),
        App::spec_toggle_done(a0, a1, w1),
        App::spec_undo(a1, a2, w2),
    ensures
        ({
            let i = a0.spec_done_real_idx()->0 as int;
            let t = views(a0.done@)[i];
            let p = crate::task::next_position(views(a0.active@)) as i64;
            &&& views(a2.active@) == views(a0.active@)
            &&& views(a2.done@) == seq![t.with_done(true).with_position(p)] + views(
                a0.done@,
            ).remove(i)
            &&& crate::app::write_views(w2) == seq![
                crate::app::DbWriteView::SetDone { id: t.id, done: true },
            ]
        }),
        a0.undo_stack@.len() < UNDO_LIMIT ==> a2.undo_stack@ == a0.undo_stack@,
{
    let a = views(a0.active@);
    let d = views(a0.done@);
    lemma_vec_views_len(&a0.active);
    lemma_vec_views_len(&a0.done);
    lemma_vec_views_len(&a1.active);
    lemma_matching_vec(&a0.done, a0.filter@);
    lemma_unique_parts(a, d);
    let i = a0.spec_done_real_idx()->0 as int;
    let t = a0.done@[i]@;
    assert(d[i] == t);
    let p = crate::task::next_position(a) as i64;
    let t2 = t.with_done(false).with_position(p);
    let x = UndoAction::ToggleDone { id: t.id, from_done: true };
    assert(a1.undo_stack@ == push_bounded(a0.undo_stack@, x));
    assert(a1.undo_stack@.last() == x);
    let a1v = views(a1.active@);
    assert(a1v == a.push(t2));
    lemma_index_of_id(a1v, t.id);
    assert forall|k: int| 0 <= k < a.len() implies a1v[k].id != t.id by {
        assert(a1v[k] == a[k]);
    }
    assert(a1v[a.len() as int].id == t.id);
    assert(index_of_id(a1v, t.id) == Some(a.len() as usize));
    assert(a1.active@[a.len() as int]@ == t2);
    assert(a1v.remove(a.len() as int) =~= a);
    assert(t2.with_done(true) == t.with_done(true).with_position(p));
    if a0.undo_stack@.len() < UNDO_LIMIT {
        assert(a0.undo_stack@.push(x).drop_last() =~= a0.undo_stack@);
    }
}

} // verus!
