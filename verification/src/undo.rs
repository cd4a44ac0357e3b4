//! Taking back the most recent recorded step.

use vstd::prelude::*;

use crate::actions::shifted_down;
use crate::app::{
    App, DbWrite, DbWriteView, UndoAction, UndoView, index_of_id, lemma_matching_vec, matching,
    position_of_id, spec_clamp, write_views,
};
use crate::edits::{lemma_index_of_id_vec, set_notes_at, set_tags_at, set_title_at};
use crate::order::{sort_by_position, sort_tasks_by_position};
use crate::task::{Task, TaskView, views};
use crate::text::{join, spec_join, texts};

verus! {

/// `s` with the task `id_a` at position `pos_a` and the task `id_b` at `pos_b`.
pub open spec fn restore_positions(
    s: Seq<TaskView>,
    id_a: i64,
    pos_a: i64,
    id_b: i64,
    pos_b: i64,
) -> Seq<TaskView> {
    Seq::new(
        s.len(),
        |k: int|
            if s[k].id == id_a {
                s[k].with_position(pos_a)
            } else if s[k].id == id_b {
                s[k].with_position(pos_b)
            } else {
                s[k]
            },
    )
}

/// The first row when nothing is selected.
pub open spec fn or_first(sel: Option<usize>) -> Option<usize> {
    match sel {
        Some(s) => Some(s),
        None => Some(0usize),
    }
}

impl App {
    /// `new` holds the lists of `old` with `f` applied to the first task with
    /// the given id, looked for in the active list first.
    pub open spec fn edited_by_id(
        old: &App,
        new: &App,
        id: i64,
        f: spec_fn(TaskView) -> TaskView,
    ) -> bool {
        match index_of_id(views(old.active@), id) {
            Some(i) => views(new.active@) == views(old.active@).update(
                i as int,
                f(old.active@[i as int]@),
            ) && new.done == old.done,
            None => match index_of_id(views(old.done@), id) {
                Some(i) => views(new.done@) == views(old.done@).update(
                    i as int,
                    f(old.done@[i as int]@),
                ) && new.active == old.active,
                None => new.active == old.active && new.done == old.done,
            },
        }
    }

    /// The focus, mode, input, filter, pending delete and note editor are equal.
    pub open spec fn same_ui(&self, other: &App) -> bool {
        &&& self.focus == other.focus
        &&& self.mode == other.mode
        &&& self.input == other.input
        &&& self.filter == other.filter
        &&& self.pending_delete == other.pending_delete
        &&& self.note_editor == other.note_editor
    }

    /// What taking back the step `a` does to the lists, the selections, and
    /// which writes it asks for.
    pub open spec fn undone(old: &App, new: &App, writes: Seq<DbWriteView>, a: UndoView) -> bool {
        match a {
            UndoView::DeleteTask { task, was_done } => {
                &&& writes == seq![DbWriteView::Restore { task }]
                &&& if was_done {
                    &&& views(new.done@) == seq![task] + views(old.done@)
                    &&& new.done_state == or_first(old.done_state)
                    &&& new.active == old.active
                    &&& new.active_state == old.active_state
                } else {
                    let a2 = sort_by_position(views(old.active@).push(task));
                    &&& views(new.active@) == a2
                    &&& new.active_state == or_first(
                        spec_clamp(old.active_state, matching(a2, old.filter@).len()),
                    )
                    &&& new.done == old.done
                    &&& new.done_state == old.done_state
                }
            },
            UndoView::ToggleDone { id, from_done } => if from_done {
                match index_of_id(views(old.active@), id) {
                    None => {
                        &&& writes.len() == 0
                        &&& new.active == old.active && new.done == old.done
                        &&& new.active_state == old.active_state
                        &&& new.done_state == old.done_state
                    },
                    Some(i) => {
                        &&& views(new.active@) == views(old.active@).remove(i as int)
                        &&& views(new.done@) == seq![old.active@[i as int]@.with_done(true)]
                            + views(old.done@)
                        &&& new.active_state == spec_clamp(
                            old.active_state,
                            matching(views(old.active@).remove(i as int), old.filter@).len(),
                        )
                        &&& new.done_state == shifted_down(old.done_state)
                        &&& writes == seq![DbWriteView::SetDone { id, done: true }]
                    },
                }
            } else {
                match index_of_id(views(old.done@), id) {
                    None => {
                        &&& writes.len() == 0
                        &&& new.active == old.active && new.done == old.done
                        &&& new.active_state == old.active_state
                        &&& new.done_state == old.done_state
                    },
                    Some(i) => {
                        let a2 = sort_by_position(
                            views(old.active@).push(old.done@[i as int]@.with_done(false)),
                        );
                        &&& views(new.done@) == views(old.done@).remove(i as int)
                        &&& new.done_state == spec_clamp(
                            old.done_state,
                            matching(views(old.done@).remove(i as int), old.filter@).len(),
                        )
                        &&& views(new.active@) == a2
                        &&& new.active_state == spec_clamp(
                            old.active_state,
                            matching(a2, old.filter@).len(),
                        )
                        &&& writes == seq![DbWriteView::SetDone { id, done: false }]
                    },
                }
            },
            UndoView::EditTitle { id, old_title } => {
                &&& writes == seq![DbWriteView::UpdateTitle { id, title: old_title }]
                &&& App::edited_by_id(old, new, id, |v: TaskView| v.with_title(old_title))
                &&& new.active_state == old.active_state
                &&& new.done_state == old.done_state
            },
            UndoView::EditTags { id, old_tags } => {
                &&& writes == seq![
                    DbWriteView::SetTags { id, tags: spec_join(old_tags, seq![',']) },
                ]
                &&& App::edited_by_id(old, new, id, |v: TaskView| v.with_tags(old_tags))
                &&& new.active_state == old.active_state
                &&& new.done_state == old.done_state
            },
            UndoView::EditNotes { id, old_notes } => {
                &&& writes == seq![DbWriteView::SetNotes { id, notes: old_notes }]
                &&& App::edited_by_id(old, new, id, |v: TaskView| v.with_notes(old_notes))
                &&& new.active_state == old.active_state
                &&& new.done_state == old.done_state
            },
            UndoView::Reorder { id_a, pos_a, id_b, pos_b } => {
                let a2 = sort_by_position(
                    restore_positions(views(old.active@), id_a, pos_a, id_b, pos_b),
                );
                &&& writes == seq![
                    DbWriteView::SetPosition { id: id_a, position: pos_a },
                    DbWriteView::SetPosition { id: id_b, position: pos_b },
                ]
                &&& views(new.active@) == a2
                &&& new.active_state == spec_clamp(old.active_state, matching(a2, old.filter@).len())
                &&& new.done == old.done
                &&& new.done_state == old.done_state
            },
        }
    }

    /// Puts a deleted task back: a completed one in front of the completed
    /// list, an active one into the active list by position.
    fn undo_delete(&mut self, task: Task, was_done: bool) -> (writes: Vec<DbWrite>)
        requires
            old(self).wf(),
        ensures
            final(self).wf(),
            App::undone(
                old(self),
                final(self),
                write_views(writes@),
                UndoView::DeleteTask { task: task@, was_done },
            ),
            final(self).undo_stack == old(self).undo_stack,
            final(self).same_ui(old(self)),
    {
        let mut writes: Vec<DbWrite> = Vec::new();
        let ghost t = task@;
        writes.push(DbWrite::Restore { task: task.duplicate() });
        proof {
            assert(write_views(writes@) =~= seq![DbWriteView::Restore { task: t }]);
        }
        if was_done {
            let ghost d = views(self.done@);
            self.done.insert(0, task);
            proof {
                assert(views(self.done@) =~= seq![t] + d);
            }
            if self.done_state.is_none() {
                self.done_state = Some(0);
            }
        } else {
            let ghost a = views(self.active@);
            self.active.push(task);
            proof {
                assert(views(self.active@) =~= a.push(t));
            }
            sort_tasks_by_position(&mut self.active);
            proof {
                crate::order::lemma_sort_by_position(a.push(t));
                assert(self.active.len() == views(self.active@).len());
            }
            self.clamp_active_sel();
            if self.active_state.is_none() {
                self.active_state = Some(0);
            }
        }
        writes
    }

    /// Takes back a completion or a reopening of the task `id`.
    fn undo_toggle(&mut self, id: i64, from_done: bool) -> (writes: Vec<DbWrite>)
        requires
            old(self).wf(),
        ensures
            final(self).wf(),
            App::undone(
                old(self),
                final(self),
                write_views(writes@),
                UndoView::ToggleDone { id, from_done },
            ),
            final(self).undo_stack == old(self).undo_stack,
            final(self).same_ui(old(self)),
    {
        let mut writes: Vec<DbWrite> = Vec::new();
        if from_done {
            proof {
                lemma_index_of_id_vec(&self.active, id);
            }
            if let Some(i) = position_of_id(&self.active, id) {
                let w = self.move_active_to_done(i);
                writes.push(w);
                proof {
                    assert(write_views(writes@) =~= seq![w@]);
                }
            }
        } else {
            proof {
                lemma_index_of_id_vec(&self.done, id);
            }
            if let Some(i) = position_of_id(&self.done, id) {
                let ghost a = views(self.active@);
                let ghost d = views(self.done@);
                self.done[i].done = false;
                writes.push(DbWrite::SetDone { id, done: false });
                proof {
                    assert(write_views(writes@) =~= seq![DbWriteView::SetDone { id, done: false }]);
                }
                let task = self.done.remove(i);
                proof {
                    assert(views(self.done@) =~= d.remove(i as int));
                }
                self.clamp_done_sel();
                self.active.push(task);
                proof {
                    assert(views(self.active@) =~= a.push(d[i as int].with_done(false)));
                }
                sort_tasks_by_position(&mut self.active);
                proof {
                    crate::order::lemma_sort_by_position(a.push(d[i as int].with_done(false)));
                    assert(self.active.len() == views(self.active@).len());
                }
                self.clamp_active_sel();
            }
        }
        writes
    }

    /// Gives the task `id` its old title back.
    fn undo_title(&mut self, id: i64, old_title: String) -> (writes: Vec<DbWrite>)
        requires
            old(self).wf(),
        ensures
            final(self).wf(),
            App::undone(
                old(self),
                final(self),
                write_views(writes@),
                UndoView::EditTitle { id, old_title: old_title@ },
            ),
            final(self).undo_stack == old(self).undo_stack,
            final(self).same_ui(old(self)),
    {
        let mut writes: Vec<DbWrite> = Vec::new();
        writes.push(DbWrite::UpdateTitle { id, title: old_title.clone() });
        proof {
            assert(write_views(writes@) =~= seq![
                DbWriteView::UpdateTitle { id, title: old_title@ },
            ]);
            lemma_index_of_id_vec(&self.active, id);
            lemma_index_of_id_vec(&self.done, id);
        }
        if let Some(i) = position_of_id(&self.active, id) {
            set_title_at(&mut self.active, i, old_title);
        } else if let Some(i) = position_of_id(&self.done, id) {
            set_title_at(&mut self.done, i, old_title);
        }
        writes
    }

    /// Gives the task `id` its old tags back.
    fn undo_tags(&mut self, id: i64, old_tags: Vec<String>) -> (writes: Vec<DbWrite>)
        requires
            old(self).wf(),
        ensures
            final(self).wf(),
            App::undone(
                old(self),
                final(self),
                write_views(writes@),
                UndoView::EditTags { id, old_tags: texts(old_tags@) },
            ),
            final(self).undo_stack == old(self).undo_stack,
            final(self).same_ui(old(self)),
    {
        let mut writes: Vec<DbWrite> = Vec::new();
        proof {
            reveal_strlit(",");
            assert(","@ =~= seq![',']);
        }
        let stored = join(&old_tags, ",");
        writes.push(DbWrite::SetTags { id, tags: stored });
        proof {
            assert(write_views(writes@) =~= seq![
                DbWriteView::SetTags { id, tags: spec_join(texts(old_tags@), seq![',']) },
            ]);
            lemma_index_of_id_vec(&self.active, id);
            lemma_index_of_id_vec(&self.done, id);
        }
        if let Some(i) = position_of_id(&self.active, id) {
            set_tags_at(&mut self.active, i, old_tags);
        } else if let Some(i) = position_of_id(&self.done, id) {
            set_tags_at(&mut self.done, i, old_tags);
        }
        writes
    }

    /// Gives the task `id` its old notes back.
    fn undo_notes(&mut self, id: i64, old_notes: String) -> (writes: Vec<DbWrite>)
        requires
            old(self).wf(),
        ensures
            final(self).wf(),
            App::undone(
                old(self),
                final(self),
                write_views(writes@),
                UndoView::EditNotes { id, old_notes: old_notes@ },
            ),
            final(self).undo_stack == old(self).undo_stack,
            final(self).same_ui(old(self)),
    {
        let mut writes: Vec<DbWrite> = Vec::new();
        writes.push(DbWrite::SetNotes { id, notes: old_notes.clone() });
        proof {
            assert(write_views(writes@) =~= seq![DbWriteView::SetNotes { id, notes: old_notes@ }]);
            lemma_index_of_id_vec(&self.active, id);
            lemma_index_of_id_vec(&self.done, id);
        }
        if let Some(i) = position_of_id(&self.active, id) {
            set_notes_at(&mut self.active, i, old_notes);
        } else if let Some(i) = position_of_id(&self.done, id) {
            set_notes_at(&mut self.done, i, old_notes);
        }
        writes
    }

    /// Gives two active tasks their old positions back and reorders the list.
    fn undo_reorder(&mut self, id_a: i64, pos_a: i64, id_b: i64, pos_b: i64) -> (writes: Vec<
        DbWrite,
    >)
        requires
            old(self).wf(),
        ensures
            final(self).wf(),
            App::undone(
                old(self),
                final(self),
                write_views(writes@),
                UndoView::Reorder { id_a, pos_a, id_b, pos_b },
            ),
            final(self).undo_stack == old(self).undo_stack,
            final(self).same_ui(old(self)),
    {
        let mut writes: Vec<DbWrite> = Vec::new();
        writes.push(DbWrite::SetPosition { id: id_a, position: pos_a });
        writes.push(DbWrite::SetPosition { id: id_b, position: pos_b });
        proof {
            assert(write_views(writes@) =~= seq![
                DbWriteView::SetPosition { id: id_a, position: pos_a },
                DbWriteView::SetPosition { id: id_b, position: pos_b },
            ]);
        }
        let ghost a = views(self.active@);
        let ghost target = restore_positions(a, id_a, pos_a, id_b, pos_b);
        let mut k: usize = 0;
        while k < self.active.len()
            invariant
                k <= self.active.len(),
                self.active.len() == a.len(),
                target == restore_positions(a, id_a, pos_a, id_b, pos_b),
                a == views(old(self).active@),
                forall|j: int| 0 <= j < k ==> views(self.active@)[j] == target[j],
                forall|j: int| k <= j < a.len() ==> views(self.active@)[j] == a[j],
                self.wf_but_active_sel(),
                self.done == old(self).done,
                self.done_state == old(self).done_state,
                self.active_state == old(self).active_state,
                self.undo_stack == old(self).undo_stack,
                self.same_ui(old(self)),
            decreases a.len() - k,
        {
            let ghost prev = views(self.active@);
            if self.active[k].id == id_a {
                self.active[k].position = pos_a;
            } else if self.active[k].id == id_b {
                self.active[k].position = pos_b;
            }
            proof {
                assert(target.len() == a.len());
                assert(prev[k as int] == a[k as int]);
                assert(views(self.active@)[k as int] == target[k as int]);
                assert(views(self.active@) =~= prev.update(k as int, target[k as int]));
            }
            k = k + 1;
        }
        proof {
            assert(views(self.active@) =~= target);
        }
        sort_tasks_by_position(&mut self.active);
        proof {
            crate::order::lemma_sort_by_position(target);
            assert(self.active.len() == views(self.active@).len());
        }
        self.clamp_active_sel();
        writes
    }

    /// Takes back the most recent recorded step, if any, and drops it from
    /// the history.
    pub fn undo(&mut self) -> (writes: Vec<DbWrite>)
        requires
            old(self).wf(),
        ensures
            final(self).wf(),
            App::spec_undo(old(self), final(self), writes@),
    {
        if self.undo_stack.len() == 0 {
            return Vec::new();
        }
        let action = match self.undo_stack.pop_back() {
            Some(a) => a,
            None => return Vec::new(),
        };
        match action {
            UndoAction::DeleteTask { task, was_done } => self.undo_delete(task, was_done),
            UndoAction::ToggleDone { id, from_done } => self.undo_toggle(id, from_done),
            UndoAction::EditTitle { id, old_title } => self.undo_title(id, old_title),
            UndoAction::EditTags { id, old_tags } => self.undo_tags(id, old_tags),
            UndoAction::EditNotes { id, old_notes } => self.undo_notes(id, old_notes),
            UndoAction::Reorder { id_a, pos_a, id_b, pos_b } => self.undo_reorder(
                id_a,
                pos_a,
                id_b,
                pos_b,
            ),
        }
    }
}

impl App {
    /// What `undo` does, from the state `old` to the state `new`.
    pub open spec fn spec_undo(old: &App, new: &App, writes: Seq<DbWrite>) -> bool {
        &&& old.undo_stack@.len() == 0 ==> *new == *old && writes.len() == 0
        &&& old.undo_stack@.len() > 0 ==> {
            &&& new.undo_stack@ == old.undo_stack@.drop_last()
            &&& App::undone(
                old,
                new,
                write_views(writes),
                old.undo_stack@.last()@,
            )
            &&& new.same_ui(old)
        }
    }
}

} // verus!
