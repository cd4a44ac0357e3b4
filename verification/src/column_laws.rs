//! Every operation keeps the columns in shape: ids unique across both
//! lists, the active list ordered by position, each done flag matching its
//! column, and the deleted tasks held by the undo history free to come back.

use vstd::prelude::*;

use crate::actions::push_bounded;
use crate::app::{
    App, Focus, UndoAction, UndoView, index_of_id, lemma_index_of_id, lemma_matching_vec,
    undo_views,
};
use crate::columns::{
    columns, deleted_task, entry_ok, has_id, history_ok, ids_within, lemma_columns_complete,
    lemma_columns_prepend_done, lemma_columns_remove, lemma_columns_sort, lemma_columns_update,
    lemma_columns_append, lemma_columns_swap, lemma_history_pop, lemma_history_push,
    lemma_history_shrink, lemma_restore_positions_shape, lemma_unique_push, lemma_unique_same_ids,
};
use crate::edits::{lemma_push_bounded_view, push_bounded_view};
use crate::keys::{Command, KeyPress, Step, spec_command_for};
use crate::task::{TaskView, next_position, positions_fit, views};
use crate::undo::restore_positions;
use crate::DbWrite;

verus! {

impl App {
    /// Both lists are in shape, and every deleted task the undo history
    /// holds could come back without clashing.
    pub open spec fn columns_ok(&self) -> bool {
        &&& columns(views(self.active@), views(self.done@))
        &&& history_ok(undo_views(self.undo_stack@), views(self.active@) + views(self.done@))
    }
}

proof fn lemma_views_len(v: &Vec<crate::task::Task>)
    ensures
        views(v@).len() == v.len(),
        v.len() <= usize::MAX,
        forall|k: int| 0 <= k < v.len() ==> #[trigger] views(v@)[k] == v@[k]@,
{
}

/// A state over lists in shape and with an empty history, as `new` makes
/// from the stored tasks, is where the column laws start.
pub proof fn law_new_columns_ok(app: &App)
    requires
        columns(views(app.active@), views(app.done@)),
        app.undo_stack@.len() == 0,
    ensures
        app.columns_ok(),
{
}

/// Editing the first task with the given id by a function that keeps ids,
/// positions and done flags keeps the columns and their ids.
proof fn lemma_columns_by_id(old: &App, new: &App, id: i64, f: spec_fn(TaskView) -> TaskView)
    requires
        columns(views(old.active@), views(old.done@)),
        App::edited_by_id(old, new, id, f),
        forall|v: TaskView|
            #[trigger] f(v).id == v.id && f(v).position == v.position && f(v).done == v.done,
    ensures
        columns(views(new.active@), views(new.done@)),
        ids_within(views(new.active@) + views(new.done@), views(old.active@) + views(old.done@)),
{
    let a = views(old.active@);
    let d = views(old.done@);
    lemma_views_len(&old.active);
    lemma_views_len(&old.done);
    lemma_index_of_id(a, id);
    lemma_index_of_id(d, id);
    match index_of_id(a, id) {
        Some(i) => {
            let t = f(old.active@[i as int]@);
            assert(f(a[i as int]).id == a[i as int].id);
            lemma_columns_update(a, d, i as int, false, t);
        },
        None => match index_of_id(d, id) {
            Some(i) => {
                let t = f(old.done@[i as int]@);
                assert(f(d[i as int]).id == d[i as int].id);
                lemma_columns_update(a, d, i as int, true, t);
            },
            None => {},
        },
    }
}

/// Taking back a step keeps the columns in shape and the history sound.
pub proof fn law_undo_keeps_columns(a0: &App, a1: &App, w: Seq<DbWrite>)
    requires
        a0.wf(),
        a0.columns_ok(),
        App::spec_undo(a0, a1, w),
    ensures
        a1.columns_ok(),
{
    if a0.undo_stack@.len() > 0 {
        let a = views(a0.active@);
        let d = views(a0.done@);
        let a2 = views(a1.active@);
        let d2 = views(a1.done@);
        let h = undo_views(a0.undo_stack@);
        let x = a0.undo_stack@.last()@;
        lemma_views_len(&a0.active);
        lemma_views_len(&a0.done);
        assert(h[h.len() - 1] == x);
        assert(h.last() == x);
        assert(entry_ok(h[h.len() - 1], a + d));
        assert(undo_views(a1.undo_stack@) =~= h.drop_last());
        assert(App::undone(a0, a1, crate::app::write_views(w), x));
        match x {
            UndoView::DeleteTask { task, was_done } => {
                if was_done {
                    assert(d2 == seq![task] + d);
                    assert(a1.active == a0.active);
                    lemma_columns_prepend_done(a, d, task);
                    assert(a2 == a);
                } else {
                    assert(a1.done == a0.done);
                    lemma_unique_push(a, d, task);
                    assert forall|k: int| 0 <= k < a.push(task).len() implies !(#[trigger] a.push(
                        task,
                    )[k]).done by {
                        if k < a.len() {
                            assert(a.push(task)[k] == a[k]);
                        }
                    }
                    lemma_columns_sort(a.push(task), d);
                    assert(d2 == d);
                    assert forall|id: i64| has_id(a2 + d2, id) implies has_id(a + d, id) || id
                        == task.id by {}
                }
            },
            UndoView::ToggleDone { id, from_done } => {
                if from_done {
                    lemma_index_of_id(a, id);
                    match index_of_id(a, id) {
                        Some(i) => {
                            assert(a[i as int] == a0.active@[i as int]@);
                            lemma_columns_complete(a, d, i as int);
                        },
                        None => {
                            assert(a2 == a && d2 == d);
                        },
                    }
                } else {
                    lemma_index_of_id(d, id);
                    match index_of_id(d, id) {
                        Some(i) => {
                            let t = a0.done@[i as int]@.with_done(false);
                            assert(d[i as int] == a0.done@[i as int]@);
                            lemma_columns_remove(a, d, i as int, true);
                            let dr = d.remove(i as int);
                            assert(t.id == d[i as int].id);
                            lemma_unique_push(a, dr, t);
                            assert forall|k: int| 0 <= k < a.push(t).len() implies !(#[trigger] a.push(
                                t,
                            )[k]).done by {
                                if k < a.len() {
                                    assert(a.push(t)[k] == a[k]);
                                }
                            }
                            lemma_columns_sort(a.push(t), dr);
                            assert forall|id: i64| has_id(a2 + d2, id) implies has_id(a + d, id) by {
                                assert(has_id(a.push(t) + dr, id));
                                if id != t.id {
                                    assert(has_id(a + dr, id));
                                }
                                assert(has_id(a + dr, id) ==> has_id(a + d, id));
                                if id == t.id {
                                    assert(d[i as int].id == id);
                                    crate::columns::lemma_has_id_concat_pub(a, d, id);
                                }
                            }
                        },
                        None => {
                            assert(a2 == a && d2 == d);
                        },
                    }
                }
            },
            UndoView::EditTitle { id, old_title } => {
                lemma_columns_by_id(a0, a1, id, |v: TaskView| v.with_title(old_title));
            },
            UndoView::EditTags { id, old_tags } => {
                lemma_columns_by_id(a0, a1, id, |v: TaskView| v.with_tags(old_tags));
            },
            UndoView::EditNotes { id, old_notes } => {
                lemma_columns_by_id(a0, a1, id, |v: TaskView| v.with_notes(old_notes));
            },
            UndoView::Reorder { id_a, pos_a, id_b, pos_b } => {
                let r = restore_positions(a, id_a, pos_a, id_b, pos_b);
                lemma_restore_positions_shape(a, id_a, pos_a, id_b, pos_b);
                lemma_unique_same_ids(a, r, d);
                assert(a1.done == a0.done);
                lemma_columns_sort(r, d);
                assert(d2 == d);
            },
        }
        assert(h.last() == x);
        lemma_history_pop(h, a + d, a2 + d2);
    }
}

/// Recording a step that holds no deleted task keeps the history sound
/// when the lists gained no id.
proof fn lemma_history_record(
    h0: Seq<UndoView>,
    all0: Seq<TaskView>,
    all1: Seq<TaskView>,
    x: UndoView,
)
    requires
        history_ok(h0, all0),
        ids_within(all1, all0),
        deleted_task(x) is None,
    ensures
        history_ok(push_bounded_view(h0, x), all1),
{
    lemma_history_shrink(h0, all0, all1);
    lemma_history_push(h0, all1, x);
}

/// The history after recording `x`, over the views.
proof fn lemma_recorded_views(s: Seq<UndoAction>, x: UndoAction)
    ensures
        undo_views(push_bounded(s, x)) == push_bounded_view(undo_views(s), x@),
{
    lemma_push_bounded_view(s, x);
}

/// Editing the selected task by a function that keeps ids, positions and
/// done flags keeps the columns and their ids.
proof fn lemma_columns_focused(old: &App, new: &App, f: spec_fn(TaskView) -> TaskView)
    requires
        old.wf(),
        columns(views(old.active@), views(old.done@)),
        old.focused_idx() is Some,
        App::edited_focused(old, new, f),
        forall|v: TaskView|
            #[trigger] f(v).id == v.id && f(v).position == v.position && f(v).done == v.done,
    ensures
        columns(views(new.active@), views(new.done@)),
        ids_within(views(new.active@) + views(new.done@), views(old.active@) + views(old.done@)),
{
    let a = views(old.active@);
    let d = views(old.done@);
    lemma_views_len(&old.active);
    lemma_views_len(&old.done);
    lemma_matching_vec(&old.active, old.filter@);
    lemma_matching_vec(&old.done, old.filter@);
    let i = old.focused_idx()->0 as int;
    match old.focus {
        Focus::Active => {
            assert(f(a[i]).id == a[i].id);
            lemma_columns_update(a, d, i, false, f(old.active@[i]@));
        },
        Focus::Done => {
            assert(f(d[i]).id == d[i].id);
            lemma_columns_update(a, d, i, true, f(old.done@[i]@));
        },
    }
}

/// Moving the selected task up keeps the columns in shape and the history
/// sound.
pub proof fn law_move_task_up_keeps_columns(a0: &App, a1: &App, w: Seq<DbWrite>)
    requires
        a0.wf(),
        a0.columns_ok(),
        App::spec_move_task_up(a0, a1, w),
    ensures
        a1.columns_ok(),
{
    if let Some(i) = a0.active_state {
        if a0.can_reorder() && i > 0 {
            let a = views(a0.active@);
            let d = views(a0.done@);
            lemma_views_len(&a0.active);
            let x = UndoAction::Reorder {
                id_a: a0.active@[i - 1].id,
                pos_a: a0.active@[i - 1].position,
                id_b: a0.active@[i as int].id,
                pos_b: a0.active@[i as int].position,
            };
            lemma_columns_swap(a, d, i - 1);
            lemma_recorded_views(a0.undo_stack@, x);
            lemma_history_record(undo_views(a0.undo_stack@), a + d, views(a1.active@) + views(a1.done@), x@);
        }
    }
}

/// Moving the selected task down keeps the columns in shape and the
/// history sound.
pub proof fn law_move_task_down_keeps_columns(a0: &App, a1: &App, w: Seq<DbWrite>)
    requires
        a0.wf(),
        a0.columns_ok(),
        App::spec_move_task_down(a0, a1, w),
    ensures
        a1.columns_ok(),
{
    if let Some(i) = a0.active_state {
        if a0.can_reorder() && i + 1 < a0.active.len() {
            let a = views(a0.active@);
            let d = views(a0.done@);
            lemma_views_len(&a0.active);
            let x = UndoAction::Reorder {
                id_a: a0.active@[i as int].id,
                pos_a: a0.active@[i as int].position,
                id_b: a0.active@[i + 1].id,
                pos_b: a0.active@[i + 1].position,
            };
            lemma_columns_swap(a, d, i as int);
            lemma_recorded_views(a0.undo_stack@, x);
            lemma_history_record(undo_views(a0.undo_stack@), a + d, views(a1.active@) + views(a1.done@), x@);
        }
    }
}

/// Completing or reopening the selected task keeps the columns in shape
/// and the history sound, and loses or doubles no task.
pub proof fn law_toggle_done_keeps_columns(a0: &App, a1: &App, w: Seq<DbWrite>)
    requires
        a0.wf(),
        a0.columns_ok(),
        a0.focus == Focus::Done && a0.spec_done_real_idx() is Some ==> positions_fit(
            views(a0.active@),
        ),
        App::spec_toggle_done(a0, a1, w),
    ensures
        a1.columns_ok(),
        a1.active.len() + a1.done.len() == a0.active.len() + a0.done.len(),
{
    let a = views(a0.active@);
    let d = views(a0.done@);
    lemma_views_len(&a0.active);
    lemma_views_len(&a0.done);
    lemma_views_len(&a1.active);
    lemma_views_len(&a1.done);
    lemma_matching_vec(&a0.active, a0.filter@);
    lemma_matching_vec(&a0.done, a0.filter@);
    match a0.focus {
        Focus::Active => {
            if let Some(i) = a0.spec_active_real_idx() {
                let t = a0.active@[i as int]@;
                let x = UndoAction::ToggleDone { id: t.id, from_done: false };
                lemma_columns_complete(a, d, i as int);
                lemma_recorded_views(a0.undo_stack@, x);
                lemma_history_record(
                    undo_views(a0.undo_stack@),
                    a + d,
                    views(a1.active@) + views(a1.done@),
                    x@,
                );
            }
        },
        Focus::Done => {
            if let Some(i) = a0.spec_done_real_idx() {
                let t = a0.done@[i as int]@;
                let p = next_position(a) as i64;
                let t2 = t.with_done(false).with_position(p);
                let dr = d.remove(i as int);
                lemma_columns_remove(a, d, i as int, true);
                if a.len() > 0 {
                    crate::task::lemma_max_position_upto(a, a.len());
                }
                assert forall|k: int| 0 <= k < a.len() implies (#[trigger] a[k]).position
                    <= t2.position by {}
                lemma_columns_append(a, dr, t2);
                assert forall|id: i64| has_id(a.push(t2) + dr, id) implies has_id(a + d, id) by {
                    if id == t2.id {
                        assert(d[i as int].id == id);
                        crate::columns::lemma_has_id_concat_pub(a, d, id);
                    }
                }
                let x = UndoAction::ToggleDone { id: t.id, from_done: true };
                lemma_recorded_views(a0.undo_stack@, x);
                lemma_history_record(
                    undo_views(a0.undo_stack@),
                    a + d,
                    views(a1.active@) + views(a1.done@),
                    x@,
                );
            }
        },
    }
}

/// Recording the delete of `t`, which was in the lists `all0` and is in
/// neither of `all1`, keeps the history sound.
proof fn lemma_history_record_delete(
    h0: Seq<UndoView>,
    all0: Seq<TaskView>,
    all1: Seq<TaskView>,
    t: TaskView,
    was_done: bool,
)
    requires
        history_ok(h0, all0),
        ids_within(all1, all0),
        has_id(all0, t.id),
        !has_id(all1, t.id),
        t.done == was_done,
    ensures
        history_ok(push_bounded_view(h0, UndoView::DeleteTask { task: t, was_done }), all1),
{
    let x = UndoView::DeleteTask { task: t, was_done };
    assert forall|k: int| 0 <= k < h0.len() && (#[trigger] deleted_task(h0[k])) is Some implies deleted_task(
        h0[k],
    )->0.id != deleted_task(x)->0.id by {
        assert(entry_ok(h0[k], all0));
    }
    lemma_history_shrink(h0, all0, all1);
    lemma_history_push(h0, all1, x);
}

/// Deleting the task awaiting confirmation keeps the columns in shape and
/// the history sound: the deleted task can come back without clashing.
pub proof fn law_confirm_delete_keeps_columns(a0: &App, a1: &App, w: Seq<DbWrite>)
    requires
        a0.wf(),
        a0.columns_ok(),
        App::spec_confirm_delete(a0, a1, w),
    ensures
        a1.columns_ok(),
{
    let a = views(a0.active@);
    let d = views(a0.done@);
    lemma_views_len(&a0.active);
    lemma_views_len(&a0.done);
    if let Some((id, _)) = a0.pending_delete {
        lemma_index_of_id(a, id);
        lemma_index_of_id(d, id);
        match index_of_id(a, id) {
            Some(i) => {
                let t = a0.active@[i as int];
                lemma_columns_remove(a, d, i as int, false);
                assert((a + d)[i as int] == a[i as int]);
                lemma_recorded_views(a0.undo_stack@, UndoAction::DeleteTask { task: t, was_done: false });
                lemma_history_record_delete(
                    undo_views(a0.undo_stack@),
                    a + d,
                    views(a1.active@) + views(a1.done@),
                    t@,
                    false,
                );
            },
            None => {
                if let Some(i) = index_of_id(d, id) {
                    let t = a0.done@[i as int];
                    lemma_columns_remove(a, d, i as int, true);
                    assert((a + d)[a.len() + i] == d[i as int]);
                    lemma_recorded_views(a0.undo_stack@, UndoAction::DeleteTask { task: t, was_done: true });
                    lemma_history_record_delete(
                        undo_views(a0.undo_stack@),
                        a + d,
                        views(a1.active@) + views(a1.done@),
                        t@,
                        true,
                    );
                }
            },
        }
    }
}

/// Renaming the selected task keeps the columns in shape and the history
/// sound.
pub proof fn law_confirm_edit_title_keeps_columns(a0: &App, a1: &App, w: Seq<DbWrite>)
    requires
        a0.wf(),
        a0.columns_ok(),
        App::spec_confirm_edit_title(a0, a1, w),
    ensures
        a1.columns_ok(),
{
    let t = crate::text::spec_trim(a0.input@);
    if t.len() > 0 && a0.focused_idx() is Some {
        let task = a0.focused_task();
        lemma_columns_focused(a0, a1, |v: TaskView| v.with_title(t));
        lemma_history_record(
            undo_views(a0.undo_stack@),
            views(a0.active@) + views(a0.done@),
            views(a1.active@) + views(a1.done@),
            UndoView::EditTitle { id: task.id, old_title: task.title },
        );
    }
}

/// Editing the selected task's tags keeps the columns in shape and the
/// history sound.
pub proof fn law_confirm_edit_tags_keeps_columns(a0: &App, a1: &App, w: Seq<DbWrite>)
    requires
        a0.wf(),
        a0.columns_ok(),
        App::spec_confirm_edit_tags(a0, a1, w),
    ensures
        a1.columns_ok(),
{
    let tags = crate::text::spec_parse_tags(a0.input@);
    if a0.focused_idx() is Some {
        let task = a0.focused_task();
        lemma_columns_focused(a0, a1, |v: TaskView| v.with_tags(tags));
        lemma_history_record(
            undo_views(a0.undo_stack@),
            views(a0.active@) + views(a0.done@),
            views(a1.active@) + views(a1.done@),
            UndoView::EditTags { id: task.id, old_tags: task.tags },
        );
    }
}

/// Saving the selected task's notes keeps the columns in shape and the
/// history sound.
pub proof fn law_confirm_note_keeps_columns(
    a0: &App,
    a1: &App,
    edited: Seq<String>,
    w: Seq<DbWrite>,
)
    requires
        a0.wf(),
        a0.columns_ok(),
        App::spec_confirm_note(a0, a1, edited, w),
    ensures
        a1.columns_ok(),
{
    let notes = crate::text::spec_join(crate::text::texts(edited), seq!['\n']);
    if a0.note_editor is Some && a0.focused_idx() is Some {
        let task = a0.focused_task();
        lemma_columns_focused(a0, a1, |v: TaskView| v.with_notes(notes));
        lemma_history_record(
            undo_views(a0.undo_stack@),
            views(a0.active@) + views(a0.done@),
            views(a1.active@) + views(a1.done@),
            UndoView::EditNotes { id: task.id, old_notes: task.notes },
        );
    }
}

/// Adding a task keeps the columns in shape and the history sound when its
/// id is new to the lists and to the deleted tasks the history holds, and
/// its position is at least every active position (as `next_position`
/// gives).
pub proof fn law_add_task_keeps_columns(a0: &App, a1: &App, t: TaskView)
    requires
        a0.columns_ok(),
        !has_id(views(a0.active@) + views(a0.done@), t.id),
        forall|k: int|
            0 <= k < a0.undo_stack@.len() && (#[trigger] deleted_task(a0.undo_stack@[k]@)) is Some
                ==> deleted_task(a0.undo_stack@[k]@)->0.id != t.id,
        forall|k: int|
            0 <= k < a0.active@.len() ==> (#[trigger] a0.active@[k]).position <= t.position,
        !t.done,
        views(a1.active@) == views(a0.active@).push(t),
        a1.done == a0.done,
        a1.undo_stack == a0.undo_stack,
    ensures
        a1.columns_ok(),
{
    let a = views(a0.active@);
    let d = views(a0.done@);
    let h = undo_views(a0.undo_stack@);
    lemma_views_len(&a0.active);
    assert forall|k: int| 0 <= k < a.len() implies (#[trigger] a[k]).position <= t.position by {
        assert(a[k] == a0.active@[k]@);
    }
    lemma_columns_append(a, d, t);
    assert forall|k: int| 0 <= k < h.len() implies entry_ok(#[trigger] h[k], a.push(t) + d) by {
        assert(h[k] == a0.undo_stack@[k]@);
        assert(entry_ok(h[k], a + d));
        if deleted_task(h[k]) is Some {
            assert(deleted_task(a0.undo_stack@[k]@)->0.id != t.id);
        }
    }
}

/// Every key press keeps the columns in shape and the history sound, on
/// the inputs `handle_key` accepts.
pub proof fn law_handle_key_keeps_columns(a0: &App, a1: &App, key: KeyPress, step: Step)
    requires
        a0.wf(),
        a0.columns_ok(),
        a0.spec_needs_next_position(key) ==> positions_fit(views(a0.active@)),
        App::spec_handle_key(a0, a1, key, step),
    ensures
        a1.columns_ok(),
{
    let cmd = spec_command_for(a0.mode, key);
    if let Step::Continue(w) = step {
        match cmd {
            Command::Undo => law_undo_keeps_columns(a0, a1, w@),
            Command::MoveTaskUp => law_move_task_up_keeps_columns(a0, a1, w@),
            Command::MoveTaskDown => law_move_task_down_keeps_columns(a0, a1, w@),
            Command::ToggleDone => law_toggle_done_keeps_columns(a0, a1, w@),
            Command::ConfirmDelete => law_confirm_delete_keeps_columns(a0, a1, w@),
            Command::ConfirmEditTitle => law_confirm_edit_title_keeps_columns(a0, a1, w@),
            Command::ConfirmEditTags => law_confirm_edit_tags_keeps_columns(a0, a1, w@),
            _ => {},
        }
    }
}

} // verus!
