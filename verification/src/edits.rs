//! Deleting, creating, renaming, tagging and note editing.

use vstd::prelude::*;

use crate::actions::push_bounded;
use crate::app::{
    App, DbWrite, DbWriteView, Focus, Mode, UNDO_LIMIT, UndoAction, UndoView, index_of_id,
    lemma_matching_vec, matching, position_of_id, spec_clamp, undo_views, write_views,
};
use crate::task::{
    Task, TaskView, compute_next_position, copy_strings, next_position, positions_fit, views,
};
use crate::text::{
    join, note_lines, parse_tags, spec_join, spec_note_lines, spec_parse_tags, spec_trim, texts,
    trim,
};

verus! {

/// `push_bounded` over the views of the undo steps.
pub open spec fn push_bounded_view(s: Seq<UndoView>, a: UndoView) -> Seq<UndoView> {
    if s.len() + 1 > UNDO_LIMIT {
        s.push(a).drop_first()
    } else {
        s.push(a)
    }
}

pub proof fn lemma_push_bounded_view(s: Seq<UndoAction>, a: UndoAction)
    ensures
        undo_views(push_bounded(s, a)) == push_bounded_view(undo_views(s), a@),
{
    assert(undo_views(s.push(a)) =~= undo_views(s).push(a@));
    assert(undo_views(s.push(a).drop_first()) =~= undo_views(s).push(a@).drop_first());
}

/// Sets the title of the task at `i`, giving back the old one.
pub fn set_title_at(list: &mut Vec<Task>, i: usize, title: String) -> (old_title: String)
    requires
        i < old(list).len(),
    ensures
        views(final(list)@) == views(old(list)@).update(i as int, old(list)@[i as int]@.with_title(title@)),
        final(list).len() == old(list).len(),
        old_title@ == old(list)@[i as int].title@,
{
    let ghost s = views(list@);
    let old_title = list[i].title.clone();
    list[i].title = title;
    proof {
        assert(views(list@) =~= s.update(i as int, s[i as int].with_title(list@[i as int].title@)));
    }
    old_title
}

/// Sets the notes of the task at `i`, giving back the old ones.
pub fn set_notes_at(list: &mut Vec<Task>, i: usize, notes: String) -> (old_notes: String)
    requires
        i < old(list).len(),
    ensures
        views(final(list)@) == views(old(list)@).update(i as int, old(list)@[i as int]@.with_notes(notes@)),
        final(list).len() == old(list).len(),
        old_notes@ == old(list)@[i as int].notes@,
{
    let ghost s = views(list@);
    let old_notes = list[i].notes.clone();
    list[i].notes = notes;
    proof {
        assert(views(list@) =~= s.update(i as int, s[i as int].with_notes(list@[i as int].notes@)));
    }
    old_notes
}

/// Sets the tags of the task at `i`, giving back the old ones.
pub fn set_tags_at(list: &mut Vec<Task>, i: usize, tags: Vec<String>) -> (old_tags: Vec<String>)
    requires
        i < old(list).len(),
    ensures
        views(final(list)@) == views(old(list)@).update(
            i as int,
            old(list)@[i as int]@.with_tags(texts(tags@)),
        ),
        final(list).len() == old(list).len(),
        texts(old_tags@) == old(list)@[i as int]@.tags,
{
    let ghost s = views(list@);
    let old_tags = copy_strings(&list[i].tags);
    list[i].tags = tags;
    proof {
        assert(views(list@) =~= s.update(
            i as int,
            s[i as int].with_tags(texts(list@[i as int].tags@)),
        ));
    }
    old_tags
}

impl App {
    /// The list index of the selected row of the focused list.
    pub open spec fn focused_idx(&self) -> Option<usize> {
        match self.focus {
            Focus::Active => self.spec_active_real_idx(),
            Focus::Done => self.spec_done_real_idx(),
        }
    }

    /// The selected task of the focused list (meaningful when `focused_idx` is some).
    pub open spec fn focused_task(&self) -> TaskView {
        let i = self.focused_idx()->0 as int;
        match self.focus {
            Focus::Active => self.active@[i]@,
            Focus::Done => self.done@[i]@,
        }
    }

    /// `new` holds the lists of `old` with the focused selected task replaced
    /// by `f` of it.
    pub open spec fn edited_focused(
        old: &App,
        new: &App,
        f: spec_fn(TaskView) -> TaskView,
    ) -> bool {
        let i = old.focused_idx()->0 as int;
        match old.focus {
            Focus::Active => views(new.active@) == views(old.active@).update(
                i,
                f(old.active@[i]@),
            ) && new.done == old.done,
            Focus::Done => views(new.done@) == views(old.done@).update(i, f(old.done@[i]@))
                && new.active == old.active,
        }
    }

    /// Everything but the mode, the input and the pending delete is equal.
    pub open spec fn same_but_prompt(&self, other: &App) -> bool {
        &&& self.active == other.active
        &&& self.done == other.done
        &&& self.undo_stack == other.undo_stack
        &&& self.note_editor == other.note_editor
        &&& self.active_state == other.active_state
        &&& self.done_state == other.done_state
        &&& self.focus == other.focus
        &&& self.filter == other.filter
    }

    /// The list index of the selected row of the focused list.
    pub fn focused_real_idx(&self) -> (r: Option<usize>)
        requires
            self.wf(),
        ensures
            r == self.focused_idx(),
            r matches Some(i) ==> i < (match self.focus {
                Focus::Active => self.active.len(),
                Focus::Done => self.done.len(),
            }),
    {
        match self.focus {
            Focus::Active => self.active_real_idx(),
            Focus::Done => self.done_real_idx(),
        }
    }

    /// Asks for confirmation to delete the selected task of the focused list.
    pub fn start_delete(&mut self)
        requires
            old(self).wf(),
        ensures
            final(self).wf(),
            App::spec_start_delete(old(self), final(self)),
    {
        let idx = self.focused_real_idx();
        if let Some(i) = idx {
            let (id, title) = match self.focus {
                Focus::Active => (self.active[i].id, self.active[i].title.clone()),
                Focus::Done => (self.done[i].id, self.done[i].title.clone()),
            };
            self.pending_delete = Some((id, title));
            self.mode = Mode::Confirm;
        }
    }

    /// Deletes the task awaiting confirmation, from whichever list holds it
    /// (the active list is searched first), and records it for undo.
    pub fn confirm_delete(&mut self) -> (writes: Vec<DbWrite>)
        requires
            old(self).wf(),
        ensures
            final(self).wf(),
            App::spec_confirm_delete(old(self), final(self), writes@),
    {
        let mut writes: Vec<DbWrite> = Vec::new();
        let pending = self.pending_delete.take();
        if let Some((id, _)) = pending {
            writes.push(DbWrite::Delete { id });
            proof {
                assert(write_views(writes@) =~= seq![DbWriteView::Delete { id }]);
                lemma_index_of_id_vec(&self.active, id);
                lemma_index_of_id_vec(&self.done, id);
            }
            if let Some(i) = position_of_id(&self.active, id) {
                let ghost a = views(self.active@);
                let task = self.active.remove(i);
                proof {
                    assert(views(self.active@) =~= a.remove(i as int));
                }
                self.push_undo(UndoAction::DeleteTask { task, was_done: false });
                self.clamp_active_sel();
            } else if let Some(i) = position_of_id(&self.done, id) {
                let ghost d = views(self.done@);
                let task = self.done.remove(i);
                proof {
                    assert(views(self.done@) =~= d.remove(i as int));
                }
                self.push_undo(UndoAction::DeleteTask { task, was_done: true });
                self.clamp_done_sel();
            }
        }
        self.mode = Mode::Normal;
        writes
    }

    /// The lists, selections and history of `self` and `other` are equal.
    pub open spec fn same_data_but_prompt(&self, other: &App) -> bool {
        &&& self.active == other.active
        &&& self.done == other.done
        &&& self.undo_stack == other.undo_stack
        &&& self.active_state == other.active_state
        &&& self.done_state == other.done_state
    }

    /// Leaves the delete confirmation without deleting.
    pub fn cancel_confirm(&mut self)
        ensures
            App::spec_cancel_confirm(old(self), final(self)),
    {
        self.pending_delete = None;
        self.mode = Mode::Normal;
    }

    /// Opens the prompt for a new task with an empty input.
    pub fn start_input(&mut self)
        ensures
            App::spec_start_input(old(self), final(self)),
    {
        self.input = String::new();
        self.mode = Mode::Input;
    }

    /// Leaves the new task prompt, discarding the input.
    pub fn cancel_input(&mut self)
        ensures
            App::spec_cancel_input(old(self), final(self)),
    {
        self.input = String::new();
        self.mode = Mode::Normal;
    }

    /// Leaves the rename prompt, discarding the input.
    pub fn cancel_edit_title(&mut self)
        ensures
            App::spec_cancel_edit_title(old(self), final(self)),
    {
        self.input = String::new();
        self.mode = Mode::Normal;
    }

    /// Leaves the tag prompt, discarding the input.
    pub fn cancel_edit_tags(&mut self)
        ensures
            App::spec_cancel_edit_tags(old(self), final(self)),
    {
        self.input = String::new();
        self.mode = Mode::Normal;
    }

    /// Closes the new task prompt. When the trimmed input is not empty, gives
    /// back the title and the position the new task is to be stored with; the
    /// caller stores it and hands the new id to `add_task`.
    pub fn confirm_input(&mut self) -> (r: Option<(String, i64)>)
        requires
            spec_trim(old(self).input@).len() > 0 ==> positions_fit(views(old(self).active@)),
        ensures
            App::spec_confirm_input(old(self), final(self), r),
    {
        let title = trim(self.input.as_str());
        self.input = String::new();
        self.mode = Mode::Normal;
        if title.as_str().is_empty() {
            return None;
        }
        let next_pos = compute_next_position(&self.active);
        Some((title, next_pos))
    }

    /// Appends a freshly stored task to the active list, clears the filter
    /// and selects the new task.
    pub fn add_task(&mut self, id: i64, title: String, position: i64, created_at: String)
        requires
            old(self).wf(),
        ensures
            final(self).wf(),
            views(final(self).active@) == views(old(self).active@).push(
                TaskView {
                    id,
                    title: title@,
                    position,
                    done: false,
                    created_at: created_at@,
                    notes: Seq::empty(),
                    tags: Seq::empty(),
                },
            ),
            final(self).filter@.len() == 0,
            final(self).active_state == Some(old(self).active.len()),
            final(self).done_state == spec_clamp(old(self).done_state, old(self).done.len() as nat),
            final(self).done == old(self).done,
            final(self).undo_stack == old(self).undo_stack,
            final(self).pending_delete == old(self).pending_delete,
            final(self).note_editor == old(self).note_editor,
            final(self).focus == old(self).focus,
            final(self).mode == old(self).mode,
            final(self).input == old(self).input,
    {
        let ghost a = views(self.active@);
        let task = Task {
            id,
            title,
            position,
            done: false,
            created_at,
            notes: String::new(),
            tags: Vec::new(),
        };
        self.active.push(task);
        proof {
            assert(texts(Seq::<String>::empty()) =~= Seq::<Seq<char>>::empty());
            assert(views(self.active@) =~= a.push(task@));
        }
        self.filter = String::new();
        proof {
            lemma_matching_vec(&self.done, self.filter@);
        }
        self.clamp_done_sel();
        self.active_state = Some(self.active.len() - 1);
    }
}

impl App {
    /// Opens the rename prompt holding the selected task's title.
    pub fn start_edit_title(&mut self)
        requires
            old(self).wf(),
        ensures
            final(self).wf(),
            App::spec_start_edit_title(old(self), final(self)),
    {
        if let Some(i) = self.focused_real_idx() {
            let title = match self.focus {
                Focus::Active => self.active[i].title.clone(),
                Focus::Done => self.done[i].title.clone(),
            };
            self.input = title;
            self.mode = Mode::EditTitle;
        }
    }

    /// Renames the selected task of the focused list to the trimmed input,
    /// unless that is empty; records the old title for undo.
    pub fn confirm_edit_title(&mut self) -> (writes: Vec<DbWrite>)
        requires
            old(self).wf(),
        ensures
            final(self).wf(),
            App::spec_confirm_edit_title(old(self), final(self), writes@),
    {
        let new_title = trim(self.input.as_str());
        self.input = String::new();
        self.mode = Mode::Normal;
        if new_title.as_str().is_empty() {
            return Vec::new();
        }
        let i = match self.focused_real_idx() {
            Some(i) => i,
            None => return Vec::new(),
        };
        let (id, old_title) = match self.focus {
            Focus::Active => {
                let id = self.active[i].id;
                (id, set_title_at(&mut self.active, i, new_title.clone()))
            },
            Focus::Done => {
                let id = self.done[i].id;
                (id, set_title_at(&mut self.done, i, new_title.clone()))
            },
        };
        let action = UndoAction::EditTitle { id, old_title };
        proof {
            lemma_push_bounded_view(self.undo_stack@, action);
        }
        self.push_undo(action);
        let mut writes: Vec<DbWrite> = Vec::new();
        writes.push(DbWrite::UpdateTitle { id, title: new_title });
        proof {
            assert(write_views(writes@) =~= seq![writes@[0]@]);
        }
        writes
    }

    /// Opens the tag prompt holding the selected task's tags joined by `", "`.
    pub fn start_edit_tags(&mut self)
        requires
            old(self).wf(),
        ensures
            final(self).wf(),
            App::spec_start_edit_tags(old(self), final(self)),
    {
        if let Some(i) = self.focused_real_idx() {
            proof {
                reveal_strlit(", ");
                assert(", "@ =~= seq![',', ' ']);
            }
            let s = match self.focus {
                Focus::Active => join(&self.active[i].tags, ", "),
                Focus::Done => join(&self.done[i].tags, ", "),
            };
            self.input = s;
            self.mode = Mode::EditTags;
        }
    }

    /// Replaces the tags of the selected task of the focused list by those
    /// written in the input (split at commas, trimmed, empty ones dropped);
    /// records the old tags for undo. The stored form joins them with `,`.
    pub fn confirm_edit_tags(&mut self) -> (writes: Vec<DbWrite>)
        requires
            old(self).wf(),
        ensures
            final(self).wf(),
            App::spec_confirm_edit_tags(old(self), final(self), writes@),
    {
        let new_tags = parse_tags(self.input.as_str());
        self.input = String::new();
        self.mode = Mode::Normal;
        let i = match self.focused_real_idx() {
            Some(i) => i,
            None => return Vec::new(),
        };
        proof {
            reveal_strlit(",");
            assert(","@ =~= seq![',']);
        }
        let stored = join(&new_tags, ",");
        let (id, old_tags) = match self.focus {
            Focus::Active => {
                let id = self.active[i].id;
                (id, set_tags_at(&mut self.active, i, new_tags))
            },
            Focus::Done => {
                let id = self.done[i].id;
                (id, set_tags_at(&mut self.done, i, new_tags))
            },
        };
        let action = UndoAction::EditTags { id, old_tags };
        proof {
            lemma_push_bounded_view(self.undo_stack@, action);
        }
        self.push_undo(action);
        let mut writes: Vec<DbWrite> = Vec::new();
        writes.push(DbWrite::SetTags { id, tags: stored });
        proof {
            assert(write_views(writes@) =~= seq![writes@[0]@]);
        }
        writes
    }

    /// Opens the note editor on the selected task's notes.
    pub fn start_edit_note(&mut self)
        requires
            old(self).wf(),
        ensures
            final(self).wf(),
            App::spec_start_edit_note(old(self), final(self)),
    {
        if let Some(i) = self.focused_real_idx() {
            let lines = match self.focus {
                Focus::Active => note_lines(self.active[i].notes.as_str()),
                Focus::Done => note_lines(self.done[i].notes.as_str()),
            };
            self.note_editor = Some(lines);
            self.mode = Mode::EditNote;
        }
    }

    /// Saves the edited note lines, joined by line breaks, into the selected
    /// task of the focused list and records the old notes for undo; closes
    /// the editor. Does nothing to the tasks when the editor was not open.
    pub fn confirm_note(&mut self, edited: &Vec<String>) -> (writes: Vec<DbWrite>)
        requires
            old(self).wf(),
        ensures
            final(self).wf(),
            App::spec_confirm_note(old(self), final(self), edited@, writes@),
    {
        let editor = self.note_editor.take();
        if editor.is_none() {
            self.mode = Mode::Normal;
            return Vec::new();
        }
        proof {
            reveal_strlit("\n");
            assert("\n"@ =~= seq!['\n']);
        }
        let new_notes = join(edited, "\n");
        let i = match self.focused_real_idx() {
            Some(i) => i,
            None => {
                self.mode = Mode::Normal;
                return Vec::new();
            },
        };
        let (id, old_notes) = match self.focus {
            Focus::Active => {
                let id = self.active[i].id;
                (id, set_notes_at(&mut self.active, i, new_notes.clone()))
            },
            Focus::Done => {
                let id = self.done[i].id;
                (id, set_notes_at(&mut self.done, i, new_notes.clone()))
            },
        };
        let action = UndoAction::EditNotes { id, old_notes };
        proof {
            lemma_push_bounded_view(self.undo_stack@, action);
        }
        self.push_undo(action);
        let mut writes: Vec<DbWrite> = Vec::new();
        writes.push(DbWrite::SetNotes { id, notes: new_notes });
        proof {
            assert(write_views(writes@) =~= seq![writes@[0]@]);
        }
        self.mode = Mode::Normal;
        writes
    }

    /// Closes the note editor without saving.
    pub fn cancel_note(&mut self)
        ensures
            App::spec_cancel_note(old(self), final(self)),
    {
        self.note_editor = None;
        self.mode = Mode::Normal;
    }

    /// The notes of the selected task of the focused list, or nothing.
    pub fn selected_notes(&self) -> (r: &str)
        requires
            self.wf(),
        ensures
            r@ == (if self.focused_idx() is Some {
                self.focused_task().notes
            } else {
                Seq::<char>::empty()
            }),
    {
        match self.focused_real_idx() {
            Some(i) => match self.focus {
                Focus::Active => self.active[i].notes.as_str(),
                Focus::Done => self.done[i].notes.as_str(),
            },
            None => {
                proof {
                    reveal_strlit("");
                }
                ""
            },
        }
    }
}

pub proof fn lemma_index_of_id_vec(v: &Vec<Task>, id: i64)
    ensures
        match index_of_id(views(v@), id) {
            Some(i) => i < v.len() && v@[i as int].id == id,
            None => true,
        },
{
    assert(views(v@).len() == v.len());
    crate::app::lemma_index_of_id(views(v@), id);
}

impl App {
    /// What `start_delete` does, from the state `old` to the state `new`.
    pub open spec fn spec_start_delete(old: &App, new: &App) -> bool {
        &&& new.same_but_prompt(old)
        &&& new.input == old.input
        &&& old.focused_idx() is Some ==> {
            &&& new.mode == Mode::Confirm
            &&& new.pending_delete matches Some((id, title)) && id == old.focused_task().id && title@ == old.focused_task().title
        }
        &&& old.focused_idx() is None ==> new.mode == old.mode
            && new.pending_delete == old.pending_delete
    }

    /// What `confirm_delete` does, from the state `old` to the state `new`.
    pub open spec fn spec_confirm_delete(old: &App, new: &App, writes: Seq<DbWrite>) -> bool {
        &&& new.mode == Mode::Normal
        &&& new.pending_delete is None
        &&& new.note_editor == old.note_editor
        &&& new.focus == old.focus
        &&& new.input == old.input
        &&& new.filter == old.filter
        &&& match old.pending_delete {
            None => {
                &&& writes.len() == 0
                &&& new.same_data_but_prompt(old)
            },
            Some((id, _)) => {
                &&& write_views(writes) == seq![DbWriteView::Delete { id }]
                &&& match index_of_id(views(old.active@), id) {
                    Some(i) => {
                        &&& views(new.active@) == views(old.active@).remove(
                            i as int,
                        )
                        &&& new.active_state == spec_clamp(
                            old.active_state,
                            matching(views(old.active@).remove(i as int), old.filter@).len(),
                        )
                        &&& new.undo_stack@ == push_bounded(
                            old.undo_stack@,
                            UndoAction::DeleteTask { task: old.active@[i as int], was_done: false },
                        )
                        &&& new.done == old.done
                        &&& new.done_state == old.done_state
                    },
                    None => match index_of_id(views(old.done@), id) {
                        Some(i) => {
                            &&& views(new.done@) == views(old.done@).remove(
                                i as int,
                            )
                            &&& new.done_state == spec_clamp(
                                old.done_state,
                                matching(views(old.done@).remove(i as int), old.filter@).len(),
                            )
                            &&& new.undo_stack@ == push_bounded(
                                old.undo_stack@,
                                UndoAction::DeleteTask { task: old.done@[i as int], was_done: true },
                            )
                            &&& new.active == old.active
                            &&& new.active_state == old.active_state
                        },
                        None => new.same_data_but_prompt(old),
                    },
                }
            },
        }
    }

    /// What `cancel_confirm` does, from the state `old` to the state `new`.
    pub open spec fn spec_cancel_confirm(old: &App, new: &App) -> bool {
        &&& new.same_but_prompt(old)
        &&& new.input == old.input
        &&& new.pending_delete is None
        &&& new.mode == Mode::Normal
    }

    /// What `start_input` does, from the state `old` to the state `new`.
    pub open spec fn spec_start_input(old: &App, new: &App) -> bool {
        &&& new.same_but_prompt(old)
        &&& new.pending_delete == old.pending_delete
        &&& new.input@.len() == 0
        &&& new.mode == Mode::Input
    }

    /// What `cancel_input` does, from the state `old` to the state `new`.
    pub open spec fn spec_cancel_input(old: &App, new: &App) -> bool {
        &&& new.same_but_prompt(old)
        &&& new.pending_delete == old.pending_delete
        &&& new.input@.len() == 0
        &&& new.mode == Mode::Normal
    }

    /// What `cancel_edit_title` does, from the state `old` to the state `new`.
    pub open spec fn spec_cancel_edit_title(old: &App, new: &App) -> bool {
        &&& new.same_but_prompt(old)
        &&& new.pending_delete == old.pending_delete
        &&& new.input@.len() == 0
        &&& new.mode == Mode::Normal
    }

    /// What `cancel_edit_tags` does, from the state `old` to the state `new`.
    pub open spec fn spec_cancel_edit_tags(old: &App, new: &App) -> bool {
        &&& new.same_but_prompt(old)
        &&& new.pending_delete == old.pending_delete
        &&& new.input@.len() == 0
        &&& new.mode == Mode::Normal
    }

    /// What `confirm_input` does, from the state `old` to the state `new`.
    pub open spec fn spec_confirm_input(old: &App, new: &App, r: Option<(String, i64)>) -> bool {
        &&& new.same_but_prompt(old)
        &&& new.pending_delete == old.pending_delete
        &&& new.input@.len() == 0
        &&& new.mode == Mode::Normal
        &&& spec_trim(old.input@).len() == 0 ==> r is None
        &&& spec_trim(old.input@).len() > 0 ==> (r matches Some((title, position)) && title@
            == spec_trim(old.input@) && position == next_position(views(old.active@)))
    }

    /// What `start_edit_title` does, from the state `old` to the state `new`.
    pub open spec fn spec_start_edit_title(old: &App, new: &App) -> bool {
        &&& new.same_but_prompt(old)
        &&& new.pending_delete == old.pending_delete
        &&& old.focused_idx() is Some ==> new.input@ == old.focused_task().title
            && new.mode == Mode::EditTitle
        &&& old.focused_idx() is None ==> new.input == old.input
            && new.mode == old.mode
    }

    /// What `confirm_edit_title` does, from the state `old` to the state `new`.
    pub open spec fn spec_confirm_edit_title(old: &App, new: &App, writes: Seq<DbWrite>) -> bool {
        &&& new.input@.len() == 0
        &&& new.mode == Mode::Normal
        &&& new.pending_delete == old.pending_delete
        &&& new.note_editor == old.note_editor
        &&& new.active_state == old.active_state
        &&& new.done_state == old.done_state
        &&& new.focus == old.focus
        &&& new.filter == old.filter
        &&& ({
            let t = spec_trim(old.input@);
            if t.len() == 0 || old.focused_idx() is None {
                &&& writes.len() == 0
                &&& new.active == old.active
                &&& new.done == old.done
                &&& new.undo_stack == old.undo_stack
            } else {
                let task = old.focused_task();
                &&& App::edited_focused(old, new, |v: TaskView| v.with_title(t))
                &&& undo_views(new.undo_stack@) == push_bounded_view(
                    undo_views(old.undo_stack@),
                    UndoView::EditTitle { id: task.id, old_title: task.title },
                )
                &&& write_views(writes) == seq![DbWriteView::UpdateTitle { id: task.id, title: t }]
            }
        })
    }

    /// What `start_edit_tags` does, from the state `old` to the state `new`.
    pub open spec fn spec_start_edit_tags(old: &App, new: &App) -> bool {
        &&& new.same_but_prompt(old)
        &&& new.pending_delete == old.pending_delete
        &&& old.focused_idx() is Some ==> new.input@ == spec_join(
            old.focused_task().tags,
            seq![',', ' '],
        ) && new.mode == Mode::EditTags
        &&& old.focused_idx() is None ==> new.input == old.input
            && new.mode == old.mode
    }

    /// What `confirm_edit_tags` does, from the state `old` to the state `new`.
    pub open spec fn spec_confirm_edit_tags(old: &App, new: &App, writes: Seq<DbWrite>) -> bool {
        &&& new.input@.len() == 0
        &&& new.mode == Mode::Normal
        &&& new.pending_delete == old.pending_delete
        &&& new.note_editor == old.note_editor
        &&& new.active_state == old.active_state
        &&& new.done_state == old.done_state
        &&& new.focus == old.focus
        &&& new.filter == old.filter
        &&& ({
            let tags = spec_parse_tags(old.input@);
            if old.focused_idx() is None {
                &&& writes.len() == 0
                &&& new.active == old.active
                &&& new.done == old.done
                &&& new.undo_stack == old.undo_stack
            } else {
                let task = old.focused_task();
                &&& App::edited_focused(old, new, |v: TaskView| v.with_tags(tags))
                &&& undo_views(new.undo_stack@) == push_bounded_view(
                    undo_views(old.undo_stack@),
                    UndoView::EditTags { id: task.id, old_tags: task.tags },
                )
                &&& write_views(writes) == seq![
                    DbWriteView::SetTags { id: task.id, tags: spec_join(tags, seq![',']) },
                ]
            }
        })
    }

    /// What `start_edit_note` does, from the state `old` to the state `new`.
    pub open spec fn spec_start_edit_note(old: &App, new: &App) -> bool {
        &&& new.active == old.active
        &&& new.done == old.done
        &&& new.undo_stack == old.undo_stack
        &&& new.active_state == old.active_state
        &&& new.done_state == old.done_state
        &&& new.focus == old.focus
        &&& new.filter == old.filter
        &&& new.input == old.input
        &&& new.pending_delete == old.pending_delete
        &&& old.focused_idx() is Some ==> (new.note_editor matches Some(lines)
            && texts(lines@) == spec_note_lines(old.focused_task().notes))
            && new.mode == Mode::EditNote
        &&& old.focused_idx() is None ==> new.note_editor == old.note_editor
            && new.mode == old.mode
    }

    /// What `cancel_note` does, from the state `old` to the state `new`.
    pub open spec fn spec_cancel_note(old: &App, new: &App) -> bool {
        &&& new.note_editor is None
        &&& new.mode == Mode::Normal
        &&& new.active == old.active
        &&& new.done == old.done
        &&& new.undo_stack == old.undo_stack
        &&& new.active_state == old.active_state
        &&& new.done_state == old.done_state
        &&& new.focus == old.focus
        &&& new.filter == old.filter
        &&& new.input == old.input
        &&& new.pending_delete == old.pending_delete
    }
}

impl App {
    /// What `confirm_note` does, from the state `old` to the state `new`.
    pub open spec fn spec_confirm_note(old: &App, new: &App, edited: Seq<String>, writes: Seq<DbWrite>) -> bool {
        &&& new.note_editor is None
        &&& new.mode == Mode::Normal
        &&& new.input == old.input
        &&& new.pending_delete == old.pending_delete
        &&& new.active_state == old.active_state
        &&& new.done_state == old.done_state
        &&& new.focus == old.focus
        &&& new.filter == old.filter
        &&& ({
            let notes = spec_join(texts(edited), seq!['\n']);
            if old.note_editor is None || old.focused_idx() is None {
                &&& writes.len() == 0
                &&& new.active == old.active
                &&& new.done == old.done
                &&& new.undo_stack == old.undo_stack
            } else {
                let task = old.focused_task();
                &&& App::edited_focused(old, new, |v: TaskView| v.with_notes(notes))
                &&& undo_views(new.undo_stack@) == push_bounded_view(
                    undo_views(old.undo_stack@),
                    UndoView::EditNotes { id: task.id, old_notes: task.notes },
                )
                &&& write_views(writes) == seq![DbWriteView::SetNotes { id: task.id, notes }]
            }
        })
    }
}

} // verus!
