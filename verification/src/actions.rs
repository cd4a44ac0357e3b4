//! Operations on tasks: reordering, completing, deleting, creating,
//! renaming, tagging and note editing. Each returns the database writes
//! that bring the stored tasks in line with the lists.

use vstd::prelude::*;

use crate::app::{App, matching, spec_clamp, lemma_matching_vec, DbWrite, DbWriteView, Focus, UNDO_LIMIT, UndoAction, write_views};
use crate::task::{TaskView, views, next_position, positions_fit, compute_next_position};

verus! {

/// The undo history after `a` is recorded: `a` goes on top, and the oldest
/// step is dropped once there are more than `UNDO_LIMIT`.
pub open spec fn push_bounded(s: Seq<UndoAction>, a: UndoAction) -> Seq<UndoAction> {
    if s.len() + 1 > UNDO_LIMIT {
        s.push(a).drop_first()
    } else {
        s.push(a)
    }
}

/// `s` with the tasks at `j` and `j + 1` exchanged, each taking over the
/// other's position.
pub open spec fn swap_with_next(s: Seq<TaskView>, j: int) -> Seq<TaskView> {
    s.update(j, s[j + 1].with_position(s[j].position)).update(
        j + 1,
        s[j].with_position(s[j + 1].position),
    )
}

impl App {
    /// Records an undo step, dropping the oldest beyond `UNDO_LIMIT`.
    pub fn push_undo(&mut self, action: UndoAction)
        requires
            old(self).undo_stack@.len() <= UNDO_LIMIT,
        ensures
            final(self).undo_stack@ == push_bounded(old(self).undo_stack@, action),
            final(self).undo_stack@.len() <= UNDO_LIMIT,
            final(self).undo_stack@.last() == action,
            final(self).active == old(self).active,
            final(self).done == old(self).done,
            final(self).active_state == old(self).active_state,
            final(self).done_state == old(self).done_state,
            final(self).pending_delete == old(self).pending_delete,
            final(self).note_editor == old(self).note_editor,
            final(self).focus == old(self).focus,
            final(self).mode == old(self).mode,
            final(self).input == old(self).input,
            final(self).filter == old(self).filter,
    {
        self.undo_stack.push_back(action);
        if self.undo_stack.len() > UNDO_LIMIT {
            self.undo_stack.pop_front();
        }
    }

    /// Exchanges the active tasks at `j` and `j + 1` together with their
    /// positions, recording the step for undo.
    fn swap_active(&mut self, j: usize) -> (writes: Vec<DbWrite>)
        requires
            old(self).wf(),
            j + 1 < old(self).active.len(),
        ensures
            final(self).wf(),
            views(final(self).active@) == swap_with_next(views(old(self).active@), j as int),
            final(self).active.len() == old(self).active.len(),
            final(self).undo_stack@ == push_bounded(
                old(self).undo_stack@,
                UndoAction::Reorder {
                    id_a: old(self).active@[j as int].id,
                    pos_a: old(self).active@[j as int].position,
                    id_b: old(self).active@[j + 1].id,
                    pos_b: old(self).active@[j + 1].position,
                },
            ),
            write_views(writes@) == seq![
                DbWriteView::SetPosition {
                    id: old(self).active@[j as int].id,
                    position: old(self).active@[j + 1].position,
                },
                DbWriteView::SetPosition {
                    id: old(self).active@[j + 1].id,
                    position: old(self).active@[j as int].position,
                },
            ],
            final(self).done == old(self).done,
            final(self).active_state == old(self).active_state,
            final(self).done_state == old(self).done_state,
            final(self).pending_delete == old(self).pending_delete,
            final(self).note_editor == old(self).note_editor,
            final(self).focus == old(self).focus,
            final(self).mode == old(self).mode,
            final(self).input == old(self).input,
            final(self).filter == old(self).filter,
    {
        let ghost s = views(self.active@);
        let pos_a = self.active[j].position;
        let id_a = self.active[j].id;
        let pos_b = self.active[j + 1].position;
        let id_b = self.active[j + 1].id;
        self.push_undo(UndoAction::Reorder { id_a, pos_a, id_b, pos_b });
        let mut writes: Vec<DbWrite> = Vec::new();
        writes.push(DbWrite::SetPosition { id: id_a, position: pos_b });
        writes.push(DbWrite::SetPosition { id: id_b, position: pos_a });
        self.active[j].position = pos_b;
        self.active[j + 1].position = pos_a;
        let t = self.active.remove(j + 1);
        self.active.insert(j, t);
        proof {
            assert(views(self.active@) =~= swap_with_next(s, j as int));
            assert(write_views(writes@) =~= seq![
                DbWriteView::SetPosition { id: id_a, position: pos_b },
                DbWriteView::SetPosition { id: id_b, position: pos_a },
            ]);
        }
        writes
    }

    /// Whether reordering applies: focus on the active list, no filter.
    pub open spec fn can_reorder(&self) -> bool {
        self.focus == Focus::Active && self.filter@.len() == 0
    }

    /// Moves the selected active task one place up (higher priority),
    /// exchanging positions with the task above it. Does nothing while the
    /// completed list has the focus, while a filter is set, or on the first row.
    pub fn move_task_up(&mut self) -> (writes: Vec<DbWrite>)
        requires
            old(self).wf(),
        ensures
            final(self).wf(),
            App::spec_move_task_up(old(self), final(self), writes@),
    {
        if !(self.focus == Focus::Active) || !self.filter.as_str().is_empty() {
            return Vec::new();
        }
        let i = match self.active_state {
            Some(i) => i,
            None => return Vec::new(),
        };
        if i == 0 {
            return Vec::new();
        }
        let writes = self.swap_active(i - 1);
        self.active_state = Some(i - 1);
        writes
    }

    /// Moves the selected active task one place down (lower priority),
    /// exchanging positions with the task below it. Does nothing while the
    /// completed list has the focus, while a filter is set, or on the last row.
    pub fn move_task_down(&mut self) -> (writes: Vec<DbWrite>)
        requires
            old(self).wf(),
        ensures
            final(self).wf(),
            App::spec_move_task_down(old(self), final(self), writes@),
    {
        if !(self.focus == Focus::Active) || !self.filter.as_str().is_empty() {
            return Vec::new();
        }
        let i = match self.active_state {
            Some(i) => i,
            None => return Vec::new(),
        };
        if i + 1 >= self.active.len() {
            return Vec::new();
        }
        let writes = self.swap_active(i);
        self.active_state = Some(i + 1);
        writes
    }
}

/// Selection of the completed list after a task is put in front of it:
/// the same task stays selected, or the new one when none was.
pub open spec fn shifted_down(sel: Option<usize>) -> Option<usize> {
    match sel {
        Some(s) => Some((s + 1) as usize),
        None => Some(0usize),
    }
}

impl App {
    /// Marks the active task at `i` done and moves it to the front of the
    /// completed list.
    pub fn move_active_to_done(&mut self, i: usize) -> (w: DbWrite)
        requires
            old(self).wf(),
            i < old(self).active.len(),
        ensures
            final(self).wf(),
            views(final(self).active@) == views(old(self).active@).remove(i as int),
            views(final(self).done@) == seq![old(self).active@[i as int]@.with_done(true)] + views(
                old(self).done@,
            ),
            final(self).active_state == spec_clamp(
                old(self).active_state,
                matching(views(old(self).active@).remove(i as int), old(self).filter@).len(),
            ),
            final(self).done_state == shifted_down(old(self).done_state),
            w@ == (DbWriteView::SetDone { id: old(self).active@[i as int].id, done: true }),
            final(self).undo_stack == old(self).undo_stack,
            final(self).pending_delete == old(self).pending_delete,
            final(self).note_editor == old(self).note_editor,
            final(self).focus == old(self).focus,
            final(self).mode == old(self).mode,
            final(self).input == old(self).input,
            final(self).filter == old(self).filter,
    {
        let ghost a = views(self.active@);
        let ghost d = views(self.done@);
        let id = self.active[i].id;
        self.active[i].done = true;
        let task = self.active.remove(i);
        proof {
            assert(views(self.active@) =~= a.remove(i as int));
        }
        self.clamp_active_sel();
        let prev_sel = match self.done_state {
            Some(s) => s + 1,
            None => 0,
        };
        self.done.insert(0, task);
        self.done_state = Some(prev_sel);
        proof {
            assert(views(self.done@) =~= seq![a[i as int].with_done(true)] + d);
        }
        DbWrite::SetDone { id, done: true }
    }

    /// Reopens the completed task at `i`: it goes to the end of the active
    /// list with the next free position. If nothing was selected in the
    /// active list, its last filtered row gets selected.
    pub fn reopen_done(&mut self, i: usize) -> (writes: Vec<DbWrite>)
        requires
            old(self).wf(),
            i < old(self).done.len(),
            positions_fit(views(old(self).active@)),
        ensures
            final(self).wf(),
            ({
                let t = old(self).done@[i as int]@;
                let p = next_position(views(old(self).active@)) as i64;
                &&& views(final(self).active@) == views(old(self).active@).push(
                    t.with_done(false).with_position(p),
                )
                &&& write_views(writes@) == seq![
                    DbWriteView::SetDone { id: t.id, done: false },
                    DbWriteView::SetPosition { id: t.id, position: p },
                ]
            }),
            views(final(self).done@) == views(old(self).done@).remove(i as int),
            final(self).done_state == spec_clamp(
                old(self).done_state,
                matching(views(old(self).done@).remove(i as int), old(self).filter@).len(),
            ),
            final(self).active_state == (if old(self).active_state is None {
                let n = final(self).active_rows().len();
                if n > 0 {
                    Some((n - 1) as usize)
                } else {
                    None
                }
            } else {
                old(self).active_state
            }),
            final(self).undo_stack == old(self).undo_stack,
            final(self).pending_delete == old(self).pending_delete,
            final(self).note_editor == old(self).note_editor,
            final(self).focus == old(self).focus,
            final(self).mode == old(self).mode,
            final(self).input == old(self).input,
            final(self).filter == old(self).filter,
    {
        let ghost a = views(self.active@);
        let ghost d = views(self.done@);
        let id = self.done[i].id;
        let new_pos = compute_next_position(&self.active);
        self.done[i].done = false;
        self.done[i].position = new_pos;
        let mut writes: Vec<DbWrite> = Vec::new();
        writes.push(DbWrite::SetDone { id, done: false });
        writes.push(DbWrite::SetPosition { id, position: new_pos });
        let task = self.done.remove(i);
        proof {
            assert(views(self.done@) =~= d.remove(i as int));
        }
        self.clamp_done_sel();
        self.active.push(task);
        proof {
            assert(views(self.active@) =~= a.push(
                d[i as int].with_done(false).with_position(new_pos),
            ));
            assert(write_views(writes@) =~= seq![
                DbWriteView::SetDone { id, done: false },
                DbWriteView::SetPosition { id, position: new_pos },
            ]);
            lemma_matching_vec(&self.active, self.filter@);
        }
        if self.active_state.is_none() {
            let n = self.filtered_active_indices().len();
            if n > 0 {
                self.active_state = Some(n - 1);
            }
        }
        writes
    }

    /// Completes the selected active task, or reopens the selected completed
    /// task, depending on the focus; records the step for undo.
    pub fn toggle_done(&mut self) -> (writes: Vec<DbWrite>)
        requires
            old(self).wf(),
            old(self).focus == Focus::Done && old(self).spec_done_real_idx() is Some ==> positions_fit(
                views(old(self).active@),
            ),
        ensures
            final(self).wf(),
            App::spec_toggle_done(old(self), final(self), writes@),
    {
        match self.focus {
            Focus::Active => {
                let real_i = match self.active_real_idx() {
                    Some(i) => i,
                    None => return Vec::new(),
                };
                let id = self.active[real_i].id;
                self.push_undo(UndoAction::ToggleDone { id, from_done: false });
                let w = self.move_active_to_done(real_i);
                let mut writes: Vec<DbWrite> = Vec::new();
                writes.push(w);
                proof {
                    assert(write_views(writes@) =~= seq![w@]);
                }
                writes
            },
            Focus::Done => {
                let real_i = match self.done_real_idx() {
                    Some(i) => i,
                    None => return Vec::new(),
                };
                let id = self.done[real_i].id;
                self.push_undo(UndoAction::ToggleDone { id, from_done: true });
                self.reopen_done(real_i)
            },
        }
    }
}

impl App {
    /// What `move_task_up` does, from the state `old` to the state `new`.
    pub open spec fn spec_move_task_up(old: &App, new: &App, writes: Seq<DbWrite>) -> bool {
        &&& (match old.active_state {
            Some(i) => old.can_reorder() && i > 0,
            None => false,
        }) ==> {
            let i = old.active_state->0;
            let a = old.active@[i - 1];
            let b = old.active@[i as int];
            &&& views(new.active@) == swap_with_next(views(old.active@), i - 1)
            &&& new.active_state == Some((i - 1) as usize)
            &&& new.undo_stack@ == push_bounded(
                old.undo_stack@,
                UndoAction::Reorder { id_a: a.id, pos_a: a.position, id_b: b.id, pos_b: b.position },
            )
            &&& write_views(writes) == seq![
                DbWriteView::SetPosition { id: a.id, position: b.position },
                DbWriteView::SetPosition { id: b.id, position: a.position },
            ]
            &&& new.done == old.done
            &&& new.done_state == old.done_state
            &&& new.pending_delete == old.pending_delete
            &&& new.note_editor == old.note_editor
            &&& new.focus == old.focus
            &&& new.mode == old.mode
            &&& new.input == old.input
            &&& new.filter == old.filter
        }
        &&& !(match old.active_state {
            Some(i) => old.can_reorder() && i > 0,
            None => false,
        }) ==> *new == *old && writes.len() == 0
    }

    /// What `move_task_down` does, from the state `old` to the state `new`.
    pub open spec fn spec_move_task_down(old: &App, new: &App, writes: Seq<DbWrite>) -> bool {
        &&& (match old.active_state {
            Some(i) => old.can_reorder() && i + 1 < old.active.len(),
            None => false,
        }) ==> {
            let i = old.active_state->0;
            let a = old.active@[i as int];
            let b = old.active@[i + 1];
            &&& views(new.active@) == swap_with_next(views(old.active@), i as int)
            &&& new.active_state == Some((i + 1) as usize)
            &&& new.undo_stack@ == push_bounded(
                old.undo_stack@,
                UndoAction::Reorder { id_a: a.id, pos_a: a.position, id_b: b.id, pos_b: b.position },
            )
            &&& write_views(writes) == seq![
                DbWriteView::SetPosition { id: a.id, position: b.position },
                DbWriteView::SetPosition { id: b.id, position: a.position },
            ]
            &&& new.done == old.done
            &&& new.done_state == old.done_state
            &&& new.pending_delete == old.pending_delete
            &&& new.note_editor == old.note_editor
            &&& new.focus == old.focus
            &&& new.mode == old.mode
            &&& new.input == old.input
            &&& new.filter == old.filter
        }
        &&& !(match old.active_state {
            Some(i) => old.can_reorder() && i + 1 < old.active.len(),
            None => false,
        }) ==> *new == *old && writes.len() == 0
    }

    /// What `toggle_done` does, from the state `old` to the state `new`.
    pub open spec fn spec_toggle_done(old: &App, new: &App, writes: Seq<DbWrite>) -> bool {
        &&& old.focus == Focus::Active ==> match old.spec_active_real_idx() {
            None => *new == *old && writes.len() == 0,
            Some(i) => {
                let t = old.active@[i as int]@;
                &&& views(new.active@) == views(old.active@).remove(i as int)
                &&& views(new.done@) == seq![t.with_done(true)] + views(old.done@)
                &&& new.active_state == spec_clamp(
                    old.active_state,
                    matching(views(old.active@).remove(i as int), old.filter@).len(),
                )
                &&& new.done_state == shifted_down(old.done_state)
                &&& new.undo_stack@ == push_bounded(
                    old.undo_stack@,
                    UndoAction::ToggleDone { id: t.id, from_done: false },
                )
                &&& write_views(writes) == seq![DbWriteView::SetDone { id: t.id, done: true }]
                &&& new.pending_delete == old.pending_delete
                &&& new.note_editor == old.note_editor
                &&& new.focus == old.focus
                &&& new.mode == old.mode
                &&& new.input == old.input
                &&& new.filter == old.filter
            },
        }
        &&& old.focus == Focus::Done ==> match old.spec_done_real_idx() {
            None => *new == *old && writes.len() == 0,
            Some(i) => {
                let t = old.done@[i as int]@;
                let p = next_position(views(old.active@)) as i64;
                &&& views(new.active@) == views(old.active@).push(
                    t.with_done(false).with_position(p),
                )
                &&& views(new.done@) == views(old.done@).remove(i as int)
                &&& new.done_state == spec_clamp(
                    old.done_state,
                    matching(views(old.done@).remove(i as int), old.filter@).len(),
                )
                &&& new.active_state == (if old.active_state is None {
                    let n = new.active_rows().len();
                    if n > 0 {
                        Some((n - 1) as usize)
                    } else {
                        None
                    }
                } else {
                    old.active_state
                })
                &&& new.undo_stack@ == push_bounded(
                    old.undo_stack@,
                    UndoAction::ToggleDone { id: t.id, from_done: true },
                )
                &&& write_views(writes) == seq![
                    DbWriteView::SetDone { id: t.id, done: false },
                    DbWriteView::SetPosition { id: t.id, position: p },
                ]
                &&& new.pending_delete == old.pending_delete
                &&& new.note_editor == old.note_editor
                &&& new.focus == old.focus
                &&& new.mode == old.mode
                &&& new.input == old.input
                &&& new.filter == old.filter
            },
        }
    }
}

} // verus!
