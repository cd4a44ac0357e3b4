//! The application state: both task lists, the selection in each, the
//! filter, the current mode and the undo history.

use std::collections::VecDeque;

use vstd::prelude::*;

use crate::task::{Task, TaskView, views};
use crate::text::{contains, lowercase, spec_contains, texts, to_lowercase};

verus! {

/// How many undo steps are kept; the oldest is dropped beyond this.
pub const UNDO_LIMIT: usize = 20;

/// What the keyboard currently drives.
#[derive(Copy, Clone, Debug, PartialEq, Eq, Structural)]
pub enum Mode {
    Normal,
    Input,
    Confirm,
    EditNote,
    Search,
    EditTitle,
    EditTags,
}

/// Which list the selection keys act on.
#[derive(Copy, Clone, Debug, PartialEq, Eq, Structural)]
pub enum Focus {
    Active,
    Done,
}

/// One step that `undo` can take back.
#[derive(Debug, PartialEq, Eq)]
pub enum UndoAction {
    DeleteTask { task: Task, was_done: bool },
    ToggleDone { id: i64, from_done: bool },
    EditTitle { id: i64, old_title: String },
    EditTags { id: i64, old_tags: Vec<String> },
    EditNotes { id: i64, old_notes: String },
    Reorder { id_a: i64, pos_a: i64, id_b: i64, pos_b: i64 },
}

/// What an undo step holds, as mathematical values.
pub enum UndoView {
    DeleteTask { task: TaskView, was_done: bool },
    ToggleDone { id: i64, from_done: bool },
    EditTitle { id: i64, old_title: Seq<char> },
    EditTags { id: i64, old_tags: Seq<Seq<char>> },
    EditNotes { id: i64, old_notes: Seq<char> },
    Reorder { id_a: i64, pos_a: i64, id_b: i64, pos_b: i64 },
}

impl View for UndoAction {
    type V = UndoView;

    open spec fn view(&self) -> UndoView {
        match self {
            UndoAction::DeleteTask { task, was_done } => UndoView::DeleteTask {
                task: task@,
                was_done: *was_done,
            },
            UndoAction::ToggleDone { id, from_done } => UndoView::ToggleDone {
                id: *id,
                from_done: *from_done,
            },
            UndoAction::EditTitle { id, old_title } => UndoView::EditTitle {
                id: *id,
                old_title: old_title@,
            },
            UndoAction::EditTags { id, old_tags } => UndoView::EditTags {
                id: *id,
                old_tags: texts(old_tags@),
            },
            UndoAction::EditNotes { id, old_notes } => UndoView::EditNotes {
                id: *id,
                old_notes: old_notes@,
            },
            UndoAction::Reorder { id_a, pos_a, id_b, pos_b } => UndoView::Reorder {
                id_a: *id_a,
                pos_a: *pos_a,
                id_b: *id_b,
                pos_b: *pos_b,
            },
        }
    }
}

/// One write that keeps the database in step with the lists. The caller
/// performs the writes an operation returns, in order.
#[derive(Debug, PartialEq, Eq)]
pub enum DbWrite {
    SetPosition { id: i64, position: i64 },
    SetDone { id: i64, done: bool },
    UpdateTitle { id: i64, title: String },
    SetNotes { id: i64, notes: String },
    SetTags { id: i64, tags: String },
    Delete { id: i64 },
    Restore { task: Task },
}

/// What a database write holds, as mathematical values.
pub enum DbWriteView {
    SetPosition { id: i64, position: i64 },
    SetDone { id: i64, done: bool },
    UpdateTitle { id: i64, title: Seq<char> },
    SetNotes { id: i64, notes: Seq<char> },
    SetTags { id: i64, tags: Seq<char> },
    Delete { id: i64 },
    Restore { task: TaskView },
}

impl View for DbWrite {
    type V = DbWriteView;

    open spec fn view(&self) -> DbWriteView {
        match self {
            DbWrite::SetPosition { id, position } => DbWriteView::SetPosition {
                id: *id,
                position: *position,
            },
            DbWrite::SetDone { id, done } => DbWriteView::SetDone { id: *id, done: *done },
            DbWrite::UpdateTitle { id, title } => DbWriteView::UpdateTitle {
                id: *id,
                title: title@,
            },
            DbWrite::SetNotes { id, notes } => DbWriteView::SetNotes { id: *id, notes: notes@ },
            DbWrite::SetTags { id, tags } => DbWriteView::SetTags { id: *id, tags: tags@ },
            DbWrite::Delete { id } => DbWriteView::Delete { id: *id },
            DbWrite::Restore { task } => DbWriteView::Restore { task: task@ },
        }
    }
}

/// The views of a list of writes.
pub open spec fn write_views(s: Seq<DbWrite>) -> Seq<DbWriteView> {
    s.map_values(|w: DbWrite| w@)
}

/// The views of a list of undo steps.
pub open spec fn undo_views(s: Seq<UndoAction>) -> Seq<UndoView> {
    s.map_values(|a: UndoAction| a@)
}

#[derive(Debug)]
pub struct App {
    pub active: Vec<Task>,
    pub done: Vec<Task>,
    /// Selected row of the active list, counted in the filtered view.
    pub active_state: Option<usize>,
    /// Selected row of the completed list, counted in the filtered view.
    pub done_state: Option<usize>,
    pub focus: Focus,
    pub mode: Mode,
    /// Shared input buffer for: new task, rename, tags, search.
    pub input: String,
    pub filter: String,
    pub pending_delete: Option<(i64, String)>,
    /// The lines the note editor was opened with, while it is open.
    pub note_editor: Option<Vec<String>>,
    pub undo_stack: VecDeque<UndoAction>,
}

// ----------------------------------------------------------------------------
// Filtering

/// Whether a task passes the filter: an empty filter passes everything;
/// otherwise the lowercased filter must occur in the lowercased title,
/// notes or one of the tags.
pub open spec fn spec_task_matches(filter: Seq<char>, t: TaskView) -> bool {
    filter.len() == 0 || {
        let q = lowercase(filter);
        ||| spec_contains(lowercase(t.title), q)
        ||| spec_contains(lowercase(t.notes), q)
        ||| exists|j: int| 0 <= j < t.tags.len() && spec_contains(lowercase(#[trigger] t.tags[j]), q)
    }
}

/// Indices, in increasing order, of the tasks among the first `n` that pass the filter.
pub open spec fn matching_upto(tasks: Seq<TaskView>, filter: Seq<char>, n: nat) -> Seq<usize>
    decreases n,
{
    if n == 0 {
        Seq::empty()
    } else {
        let prev = matching_upto(tasks, filter, (n - 1) as nat);
        if spec_task_matches(filter, tasks[n - 1]) {
            prev.push((n - 1) as usize)
        } else {
            prev
        }
    }
}

/// Indices, in increasing order, of the tasks that pass the filter.
pub open spec fn matching(tasks: Seq<TaskView>, filter: Seq<char>) -> Seq<usize> {
    matching_upto(tasks, filter, tasks.len())
}

pub proof fn lemma_matching_upto(tasks: Seq<TaskView>, filter: Seq<char>, n: nat)
    requires
        n <= tasks.len(),
        n <= usize::MAX,
    ensures
        matching_upto(tasks, filter, n).len() <= n,
        forall|k: int|
            0 <= k < matching_upto(tasks, filter, n).len() ==> {
                let i = #[trigger] matching_upto(tasks, filter, n)[k];
                &&& i < n
                &&& spec_task_matches(filter, tasks[i as int])
            },
        forall|k1: int, k2: int|
            0 <= k1 < k2 < matching_upto(tasks, filter, n).len() ==> #[trigger] matching_upto(
                tasks,
                filter,
                n,
            )[k1] < #[trigger] matching_upto(tasks, filter, n)[k2],
        forall|i: int|
            0 <= i < n && spec_task_matches(filter, #[trigger] tasks[i]) ==> matching_upto(
                tasks,
                filter,
                n,
            ).contains(i as usize),
        filter.len() == 0 ==> matching_upto(tasks, filter, n) == Seq::new(n, |i: int| i as usize),
    decreases n,
{
    if n > 0 {
        lemma_matching_upto(tasks, filter, (n - 1) as nat);
        let prev = matching_upto(tasks, filter, (n - 1) as nat);
        assert forall|i: int|
            0 <= i < n && spec_task_matches(filter, #[trigger] tasks[i]) implies matching_upto(
            tasks,
            filter,
            n,
        ).contains(i as usize) by {
            if i < n - 1 {
                let k = choose|k: int| 0 <= k < prev.len() && prev[k] == i as usize;
                assert(matching_upto(tasks, filter, n)[k] == i as usize);
            } else {
                assert(matching_upto(tasks, filter, n).last() == i as usize);
            }
        }
        if filter.len() == 0 {
            assert(matching_upto(tasks, filter, n) =~= Seq::new(n, |i: int| i as usize));
        }
    } else {
        assert(matching_upto(tasks, filter, n) =~= Seq::new(n, |i: int| i as usize));
    }
}

pub proof fn lemma_matching(tasks: Seq<TaskView>, filter: Seq<char>)
    requires
        tasks.len() <= usize::MAX,
    ensures
        matching(tasks, filter).len() <= tasks.len(),
        forall|k: int|
            0 <= k < matching(tasks, filter).len() ==> {
                let i = #[trigger] matching(tasks, filter)[k];
                &&& i < tasks.len()
                &&& spec_task_matches(filter, tasks[i as int])
            },
        forall|k1: int, k2: int|
            0 <= k1 < k2 < matching(tasks, filter).len() ==> #[trigger] matching(tasks, filter)[k1]
                < #[trigger] matching(tasks, filter)[k2],
        forall|i: int|
            0 <= i < tasks.len() && spec_task_matches(filter, #[trigger] tasks[i]) ==> matching(
                tasks,
                filter,
            ).contains(i as usize),
        filter.len() == 0 ==> matching(tasks, filter) == Seq::new(tasks.len(), |i: int| i as usize),
{
    lemma_matching_upto(tasks, filter, tasks.len());
}

/// `lemma_matching` for the tasks of a vector.
pub proof fn lemma_matching_vec(v: &Vec<Task>, filter: Seq<char>)
    ensures
        matching(views(v@), filter).len() <= v.len(),
        forall|k: int|
            0 <= k < matching(views(v@), filter).len() ==> {
                let i = #[trigger] matching(views(v@), filter)[k];
                &&& i < v.len()
                &&& spec_task_matches(filter, v@[i as int]@)
            },
        forall|k1: int, k2: int|
            0 <= k1 < k2 < matching(views(v@), filter).len() ==> #[trigger] matching(
                views(v@),
                filter,
            )[k1] < #[trigger] matching(views(v@), filter)[k2],
        forall|i: int|
            0 <= i < v.len() && spec_task_matches(filter, #[trigger] v@[i]@) ==> matching(
                views(v@),
                filter,
            ).contains(i as usize),
        filter.len() == 0 ==> matching(views(v@), filter) == Seq::new(
            v.len() as nat,
            |i: int| i as usize,
        ),
{
    assert(v@.len() == v.len());
    assert(views(v@).len() == v.len());
    lemma_matching(views(v@), filter);
    assert forall|i: int|
        0 <= i < v.len() && spec_task_matches(filter, #[trigger] v@[i]@) implies matching(
        views(v@),
        filter,
    ).contains(i as usize) by {
        assert(views(v@)[i] == v@[i]@);
    }
}

/// The list index behind a selected row of the filtered view, if that row exists.
pub open spec fn spec_real_idx(rows: Seq<usize>, sel: Option<usize>) -> Option<usize> {
    match sel {
        Some(s) => if s < rows.len() {
            Some(rows[s as int])
        } else {
            None
        },
        None => None,
    }
}

/// A selection kept within `n` rows: none when there are no rows, else the
/// old row (the first when there was none) but at most the last row.
pub open spec fn spec_clamp(sel: Option<usize>, n: nat) -> Option<usize> {
    if n == 0 {
        None
    } else {
        let s = match sel {
            Some(s) => s as int,
            None => 0,
        };
        Some((if s < n - 1 {
            s
        } else {
            n - 1
        }) as usize)
    }
}

/// Index of the first task with the given id, counting the first `n` tasks.
pub open spec fn index_of_id_upto(tasks: Seq<TaskView>, id: i64, n: nat) -> Option<usize>
    decreases n,
{
    if n == 0 {
        None
    } else {
        match index_of_id_upto(tasks, id, (n - 1) as nat) {
            Some(i) => Some(i),
            None => if tasks[n - 1].id == id {
                Some((n - 1) as usize)
            } else {
                None
            },
        }
    }
}

/// Index of the first task with the given id.
pub open spec fn index_of_id(tasks: Seq<TaskView>, id: i64) -> Option<usize> {
    index_of_id_upto(tasks, id, tasks.len())
}

pub proof fn lemma_index_of_id_upto(tasks: Seq<TaskView>, id: i64, n: nat)
    requires
        n <= tasks.len(),
        n <= usize::MAX,
    ensures
        match index_of_id_upto(tasks, id, n) {
            Some(i) => i < n && tasks[i as int].id == id && forall|j: int|
                0 <= j < i ==> (#[trigger] tasks[j]).id != id,
            None => forall|j: int| 0 <= j < n ==> (#[trigger] tasks[j]).id != id,
        },
    decreases n,
{
    if n > 0 {
        lemma_index_of_id_upto(tasks, id, (n - 1) as nat);
    }
}

pub proof fn lemma_index_of_id(tasks: Seq<TaskView>, id: i64)
    requires
        tasks.len() <= usize::MAX,
    ensures
        match index_of_id(tasks, id) {
            Some(i) => i < tasks.len() && tasks[i as int].id == id && forall|j: int|
                0 <= j < i ==> (#[trigger] tasks[j]).id != id,
            None => forall|j: int| 0 <= j < tasks.len() ==> (#[trigger] tasks[j]).id != id,
        },
{
    lemma_index_of_id_upto(tasks, id, tasks.len());
}

/// Whether the task passes the filter (as `spec_task_matches` states).
pub fn task_matches(filter: &String, task: &Task) -> (r: bool)
    ensures
        r == spec_task_matches(filter@, task@),
{
    if filter.as_str().is_empty() {
        return true;
    }
    let q = to_lowercase(filter.as_str());
    if contains(to_lowercase(task.title.as_str()).as_str(), q.as_str()) {
        return true;
    }
    if contains(to_lowercase(task.notes.as_str()).as_str(), q.as_str()) {
        return true;
    }
    let mut j: usize = 0;
    while j < task.tags.len()
        invariant
            j <= task.tags.len(),
            q@ == lowercase(filter@),
            forall|k: int| 0 <= k < j ==> !spec_contains(lowercase(task.tags@[k]@), q@),
        decreases task.tags.len() - j,
    {
        if contains(to_lowercase(task.tags[j].as_str()).as_str(), q.as_str()) {
            proof {
                assert(texts(task.tags@)[j as int] == task.tags@[j as int]@);
                assert(task@.tags[j as int] == task.tags@[j as int]@);
                assert(spec_contains(lowercase(task@.tags[j as int]), q@));
            }
            return true;
        }
        j = j + 1;
    }
    proof {
        assert forall|k: int| 0 <= k < task@.tags.len() implies !spec_contains(
            lowercase(#[trigger] task@.tags[k]),
            q@,
        ) by {
            assert(texts(task.tags@)[k] == task.tags@[k]@);
        }
    }
    false
}

/// Indices of the tasks that pass the filter.
pub fn matching_indices(tasks: &Vec<Task>, filter: &String) -> (r: Vec<usize>)
    ensures
        r@ == matching(views(tasks@), filter@),
{
    let mut r: Vec<usize> = Vec::new();
    let mut i: usize = 0;
    while i < tasks.len()
        invariant
            i <= tasks.len(),
            r@ == matching_upto(views(tasks@), filter@, i as nat),
        decreases tasks.len() - i,
    {
        if task_matches(filter, &tasks[i]) {
            r.push(i);
        }
        i = i + 1;
    }
    r
}

pub proof fn lemma_index_of_id_stable(tasks: Seq<TaskView>, id: i64, n: nat, m: nat)
    requires
        n <= m,
        index_of_id_upto(tasks, id, n) is Some,
    ensures
        index_of_id_upto(tasks, id, m) == index_of_id_upto(tasks, id, n),
    decreases m,
{
    if m > n {
        lemma_index_of_id_stable(tasks, id, n, (m - 1) as nat);
    }
}

/// Position of the first task with the given id.
pub fn position_of_id(tasks: &Vec<Task>, id: i64) -> (r: Option<usize>)
    ensures
        r == index_of_id(views(tasks@), id),
{
    let mut i: usize = 0;
    while i < tasks.len()
        invariant
            i <= tasks.len(),
            index_of_id_upto(views(tasks@), id, i as nat) is None,
        decreases tasks.len() - i,
    {
        if tasks[i].id == id {
            proof {
                lemma_index_of_id_stable(views(tasks@), id, (i + 1) as nat, tasks.len() as nat);
            }
            return Some(i);
        }
        i = i + 1;
    }
    None
}

/// `spec_clamp` computed.
pub fn clamp_selection(sel: Option<usize>, n: usize) -> (r: Option<usize>)
    ensures
        r == spec_clamp(sel, n as nat),
{
    if n == 0 {
        None
    } else {
        let s = match sel {
            Some(s) => s,
            None => 0,
        };
        Some(if s < n - 1 {
            s
        } else {
            n - 1
        })
    }
}


// ----------------------------------------------------------------------------
// Construction and selection

impl App {
    /// The selection of each list stays on an existing task, and the undo
    /// history holds at most `UNDO_LIMIT` steps.
    pub open spec fn wf(&self) -> bool {
        &&& (self.active_state matches Some(i) ==> i < self.active.len())
        &&& (self.done_state matches Some(i) ==> i < self.done.len())
        &&& self.undo_stack@.len() <= UNDO_LIMIT
    }

    /// `wf` apart from the active selection.
    pub open spec fn wf_but_active_sel(&self) -> bool {
        &&& (self.done_state matches Some(i) ==> i < self.done.len())
        &&& self.undo_stack@.len() <= UNDO_LIMIT
    }

    /// `wf` apart from the done selection.
    pub open spec fn wf_but_done_sel(&self) -> bool {
        &&& (self.active_state matches Some(i) ==> i < self.active.len())
        &&& self.undo_stack@.len() <= UNDO_LIMIT
    }

    /// Rows of the filtered active list, as indices into `active`.
    pub open spec fn active_rows(&self) -> Seq<usize> {
        matching(views(self.active@), self.filter@)
    }

    /// Rows of the filtered completed list, as indices into `done`.
    pub open spec fn done_rows(&self) -> Seq<usize> {
        matching(views(self.done@), self.filter@)
    }

    pub open spec fn spec_active_real_idx(&self) -> Option<usize> {
        spec_real_idx(self.active_rows(), self.active_state)
    }

    pub open spec fn spec_done_real_idx(&self) -> Option<usize> {
        spec_real_idx(self.done_rows(), self.done_state)
    }

    /// Neither the tasks nor the undo history nor the pending delete nor the
    /// note editor differ between `self` and `other`.
    pub open spec fn same_data(&self, other: &App) -> bool {
        &&& self.active == other.active
        &&& self.done == other.done
        &&& self.undo_stack == other.undo_stack
        &&& self.pending_delete == other.pending_delete
        &&& self.note_editor == other.note_editor
    }

    /// A fresh state over the loaded lists: the first active task selected
    /// if there is one, nothing selected in the completed list, focus on the
    /// active list, normal mode, no filter and no history.
    pub fn new(active: Vec<Task>, done: Vec<Task>) -> (app: App)
        ensures
            app.wf(),
            app.active == active,
            app.done == done,
            app.active_state == (if active.len() > 0 {
                Some(0usize)
            } else {
                None
            }),
            app.done_state is None,
            app.focus == Focus::Active,
            app.mode == Mode::Normal,
            app.input@.len() == 0,
            app.filter@.len() == 0,
            app.pending_delete is None,
            app.note_editor is None,
            app.undo_stack@.len() == 0,
    {
        let active_state = if active.len() > 0 {
            Some(0)
        } else {
            None
        };
        App {
            active,
            done,
            active_state,
            done_state: None,
            focus: Focus::Active,
            mode: Mode::Normal,
            input: String::new(),
            filter: String::new(),
            pending_delete: None,
            note_editor: None,
            undo_stack: VecDeque::new(),
        }
    }

    /// Real (vec) indices of active tasks that pass the current filter.
    pub fn filtered_active_indices(&self) -> (r: Vec<usize>)
        ensures
            r@ == self.active_rows(),
    {
        matching_indices(&self.active, &self.filter)
    }

    /// Real (vec) indices of done tasks that pass the current filter.
    pub fn filtered_done_indices(&self) -> (r: Vec<usize>)
        ensures
            r@ == self.done_rows(),
    {
        matching_indices(&self.done, &self.filter)
    }

    /// Maps the currently selected *filtered* index to the real active vec index.
    pub fn active_real_idx(&self) -> (r: Option<usize>)
        ensures
            r == self.spec_active_real_idx(),
            r matches Some(i) ==> i < self.active.len(),
    {
        proof {
            lemma_matching_vec(&self.active, self.filter@);
        }
        let sel = match self.active_state {
            Some(s) => s,
            None => return None,
        };
        let rows = self.filtered_active_indices();
        if sel < rows.len() {
            Some(rows[sel])
        } else {
            None
        }
    }

    /// Maps the currently selected *filtered* index to the real done vec index.
    pub fn done_real_idx(&self) -> (r: Option<usize>)
        ensures
            r == self.spec_done_real_idx(),
            r matches Some(i) ==> i < self.done.len(),
    {
        proof {
            lemma_matching_vec(&self.done, self.filter@);
        }
        let sel = match self.done_state {
            Some(s) => s,
            None => return None,
        };
        let rows = self.filtered_done_indices();
        if sel < rows.len() {
            Some(rows[sel])
        } else {
            None
        }
    }

    /// Clamps the active selection to the current filtered count.
    pub fn clamp_active_sel(&mut self)
        requires
            old(self).wf_but_active_sel(),
        ensures
            final(self).wf(),
            final(self).active_state == spec_clamp(old(self).active_state, old(self).active_rows().len()),
            final(self).done_state == old(self).done_state,
            final(self).same_data(old(self)),
            final(self).focus == old(self).focus,
            final(self).mode == old(self).mode,
            final(self).input == old(self).input,
            final(self).filter == old(self).filter,
    {
        proof {
            lemma_matching_vec(&self.active, self.filter@);
        }
        let n = self.filtered_active_indices().len();
        self.active_state = clamp_selection(self.active_state, n);
    }

    /// Clamps the done selection to the current filtered count.
    pub fn clamp_done_sel(&mut self)
        requires
            old(self).wf_but_done_sel(),
        ensures
            final(self).wf(),
            final(self).done_state == spec_clamp(old(self).done_state, old(self).done_rows().len()),
            final(self).active_state == old(self).active_state,
            final(self).same_data(old(self)),
            final(self).focus == old(self).focus,
            final(self).mode == old(self).mode,
            final(self).input == old(self).input,
            final(self).filter == old(self).filter,
    {
        proof {
            lemma_matching_vec(&self.done, self.filter@);
        }
        let n = self.filtered_done_indices().len();
        self.done_state = clamp_selection(self.done_state, n);
    }

    /// Re-clamps both selections after the filter string changed.
    pub fn on_filter_changed(&mut self)
        requires
            old(self).wf(),
        ensures
            final(self).wf(),
            final(self).active_state == spec_clamp(old(self).active_state, old(self).active_rows().len()),
            final(self).done_state == spec_clamp(old(self).done_state, old(self).done_rows().len()),
            final(self).same_data(old(self)),
            final(self).focus == old(self).focus,
            final(self).mode == old(self).mode,
            final(self).input == old(self).input,
            final(self).filter == old(self).filter,
    {
        self.clamp_active_sel();
        self.clamp_done_sel();
    }

    /// Opens the search prompt with the current filter in it.
    pub fn start_search(&mut self)
        ensures
            App::spec_start_search(old(self), final(self)),
    {
        self.input = self.filter.clone();
        self.mode = Mode::Search;
    }

    /// Types a character into the search; the filter follows the input.
    pub fn search_push(&mut self, c: char)
        requires
            old(self).wf(),
        ensures
            final(self).wf(),
            App::spec_search_push(old(self), final(self), c),
    {
        self.input.push(c);
        self.filter = self.input.clone();
        self.on_filter_changed();
    }

    /// Deletes the last character of the search; the filter follows the input.
    pub fn search_pop(&mut self)
        requires
            old(self).wf(),
        ensures
            final(self).wf(),
            App::spec_search_pop(old(self), final(self)),
    {
        self.input.pop();
        self.filter = self.input.clone();
        self.on_filter_changed();
    }

    /// Keeps the filter and returns to normal mode.
    pub fn apply_search(&mut self)
        requires
            old(self).wf(),
        ensures
            final(self).wf(),
            App::spec_apply_search(old(self), final(self)),
    {
        self.filter = self.input.clone();
        self.input = String::new();
        self.mode = Mode::Normal;
    }

    /// Clears the filter and returns to normal mode.
    pub fn cancel_search(&mut self)
        requires
            old(self).wf(),
        ensures
            final(self).wf(),
            App::spec_cancel_search(old(self), final(self)),
    {
        self.filter = String::new();
        self.input = String::new();
        self.mode = Mode::Normal;
        proof {
            lemma_matching_vec(&self.active, self.filter@);
            lemma_matching_vec(&self.done, self.filter@);
        }
        self.on_filter_changed();
    }

    /// Clears the filter (Esc in normal mode), keeping the same task selected
    /// in each list where one was selected.
    pub fn clear_filter(&mut self)
        requires
            old(self).wf(),
        ensures
            final(self).wf(),
            App::spec_clear_filter(old(self), final(self)),
    {
        if self.filter.as_str().is_empty() {
            return;
        }
        let active_id = match self.active_real_idx() {
            Some(i) => Some(self.active[i].id),
            None => None,
        };
        let done_id = match self.done_real_idx() {
            Some(i) => Some(self.done[i].id),
            None => None,
        };
        self.filter = String::new();
        if let Some(id) = active_id {
            let idx = position_of_id(&self.active, id);
            proof {
                lemma_index_of_id(views(self.active@), id);
            }
            self.active_state = idx;
        }
        if let Some(id) = done_id {
            let idx = position_of_id(&self.done, id);
            proof {
                lemma_index_of_id(views(self.done@), id);
            }
            self.done_state = idx;
        }
    }

    /// Moves the focus to the other list, selecting its first row if nothing
    /// was selected there and it has rows.
    pub fn switch_focus(&mut self)
        requires
            old(self).wf(),
        ensures
            final(self).wf(),
            App::spec_switch_focus(old(self), final(self)),
    {
        proof {
            lemma_matching_vec(&self.active, self.filter@);
            lemma_matching_vec(&self.done, self.filter@);
        }
        match self.focus {
            Focus::Active => {
                if self.done_state.is_none() {
                    let n = self.filtered_done_indices().len();
                    if n > 0 {
                        self.done_state = Some(0);
                    }
                }
                self.focus = Focus::Done;
            },
            Focus::Done => {
                if self.active_state.is_none() {
                    let n = self.filtered_active_indices().len();
                    if n > 0 {
                        self.active_state = Some(0);
                    }
                }
                self.focus = Focus::Active;
            },
        }
    }

    /// Moves the selection of the focused list one row up, if it is not on the first row.
    pub fn move_selection_up(&mut self)
        requires
            old(self).wf(),
        ensures
            final(self).wf(),
            App::spec_move_selection_up(old(self), final(self)),
    {
        match self.focus {
            Focus::Active => {
                if let Some(i) = self.active_state {
                    if i > 0 {
                        self.active_state = Some(i - 1);
                    }
                }
            },
            Focus::Done => {
                if let Some(i) = self.done_state {
                    if i > 0 {
                        self.done_state = Some(i - 1);
                    }
                }
            },
        }
    }

    /// Moves the selection of the focused list one row down, stopping at the
    /// last filtered row; with nothing selected it selects the first row.
    pub fn move_selection_down(&mut self)
        requires
            old(self).wf(),
        ensures
            final(self).wf(),
            App::spec_move_selection_down(old(self), final(self)),
    {
        proof {
            lemma_matching_vec(&self.active, self.filter@);
            lemma_matching_vec(&self.done, self.filter@);
        }
        match self.focus {
            Focus::Active => {
                let n = self.filtered_active_indices().len();
                if n == 0 {
                    return;
                }
                let i = match self.active_state {
                    Some(i) => if i + 1 < n - 1 {
                        i + 1
                    } else {
                        n - 1
                    },
                    None => 0,
                };
                self.active_state = Some(i);
            },
            Focus::Done => {
                let n = self.filtered_done_indices().len();
                if n == 0 {
                    return;
                }
                let i = match self.done_state {
                    Some(i) => if i + 1 < n - 1 {
                        i + 1
                    } else {
                        n - 1
                    },
                    None => 0,
                };
                self.done_state = Some(i);
            },
        }
    }
}

impl App {
    /// What `start_search` does, from the state `old` to the state `new`.
    pub open spec fn spec_start_search(old: &App, new: &App) -> bool {
        &&& new.input@ == old.filter@
        &&& new.mode == Mode::Search
        &&& new.filter == old.filter
        &&& new.same_data(old)
        &&& new.active_state == old.active_state
        &&& new.done_state == old.done_state
        &&& new.focus == old.focus
    }

    /// What `search_push` does, from the state `old` to the state `new`.
    pub open spec fn spec_search_push(old: &App, new: &App, c: char) -> bool {
        &&& new.input@ == old.input@.push(c)
        &&& new.filter@ == new.input@
        &&& new.active_state == spec_clamp(old.active_state, new.active_rows().len())
        &&& new.done_state == spec_clamp(old.done_state, new.done_rows().len())
        &&& new.same_data(old)
        &&& new.focus == old.focus
        &&& new.mode == old.mode
    }

    /// What `search_pop` does, from the state `old` to the state `new`.
    pub open spec fn spec_search_pop(old: &App, new: &App) -> bool {
        &&& new.input@ == (if old.input@.len() > 0 {
            old.input@.drop_last()
        } else {
            old.input@
        })
        &&& new.filter@ == new.input@
        &&& new.active_state == spec_clamp(old.active_state, new.active_rows().len())
        &&& new.done_state == spec_clamp(old.done_state, new.done_rows().len())
        &&& new.same_data(old)
        &&& new.focus == old.focus
        &&& new.mode == old.mode
    }

    /// What `apply_search` does, from the state `old` to the state `new`.
    pub open spec fn spec_apply_search(old: &App, new: &App) -> bool {
        &&& new.filter@ == old.input@
        &&& new.input@.len() == 0
        &&& new.mode == Mode::Normal
        &&& new.same_data(old)
        &&& new.active_state == old.active_state
        &&& new.done_state == old.done_state
        &&& new.focus == old.focus
    }

    /// What `cancel_search` does, from the state `old` to the state `new`.
    pub open spec fn spec_cancel_search(old: &App, new: &App) -> bool {
        &&& new.filter@.len() == 0
        &&& new.input@.len() == 0
        &&& new.mode == Mode::Normal
        &&& new.active_state == spec_clamp(old.active_state, old.active.len() as nat)
        &&& new.done_state == spec_clamp(old.done_state, old.done.len() as nat)
        &&& new.same_data(old)
        &&& new.focus == old.focus
    }

    /// What `clear_filter` does, from the state `old` to the state `new`.
    pub open spec fn spec_clear_filter(old: &App, new: &App) -> bool {
        &&& old.filter@.len() == 0 ==> *new == *old
        &&& old.filter@.len() > 0 ==> {
            &&& new.filter@.len() == 0
            &&& new.active_state == match old.spec_active_real_idx() {
                Some(i) => index_of_id(views(old.active@), old.active@[i as int].id),
                None => old.active_state,
            }
            &&& new.done_state == match old.spec_done_real_idx() {
                Some(i) => index_of_id(views(old.done@), old.done@[i as int].id),
                None => old.done_state,
            }
            &&& new.same_data(old)
            &&& new.focus == old.focus
            &&& new.mode == old.mode
            &&& new.input == old.input
        }
    }

    /// What `switch_focus` does, from the state `old` to the state `new`.
    pub open spec fn spec_switch_focus(old: &App, new: &App) -> bool {
        &&& old.focus == Focus::Active ==> {
            &&& new.focus == Focus::Done
            &&& new.done_state == (if old.done_state is None && old.done_rows().len() > 0 {
                Some(0usize)
            } else {
                old.done_state
            })
            &&& new.active_state == old.active_state
        }
        &&& old.focus == Focus::Done ==> {
            &&& new.focus == Focus::Active
            &&& new.active_state == (if old.active_state is None && old.active_rows().len() > 0 {
                Some(0usize)
            } else {
                old.active_state
            })
            &&& new.done_state == old.done_state
        }
        &&& new.same_data(old)
        &&& new.mode == old.mode
        &&& new.input == old.input
        &&& new.filter == old.filter
    }

    /// What `move_selection_up` does, from the state `old` to the state `new`.
    pub open spec fn spec_move_selection_up(old: &App, new: &App) -> bool {
        &&& old.focus == Focus::Active ==> new.active_state == match old.active_state {
            Some(i) => if i > 0 {
                Some((i - 1) as usize)
            } else {
                Some(i)
            },
            None => None,
        } && new.done_state == old.done_state
        &&& old.focus == Focus::Done ==> new.done_state == match old.done_state {
            Some(i) => if i > 0 {
                Some((i - 1) as usize)
            } else {
                Some(i)
            },
            None => None,
        } && new.active_state == old.active_state
        &&& new.same_data(old)
        &&& new.focus == old.focus
        &&& new.mode == old.mode
        &&& new.input == old.input
        &&& new.filter == old.filter
    }

    /// What `move_selection_down` does, from the state `old` to the state `new`.
    pub open spec fn spec_move_selection_down(old: &App, new: &App) -> bool {
        &&& old.focus == Focus::Active ==> new.active_state == (if old.active_rows().len() == 0 {
            old.active_state
        } else {
            match old.active_state {
                Some(i) => Some(
                    (if i + 1 < old.active_rows().len() - 1 {
                        i + 1
                    } else {
                        old.active_rows().len() - 1
                    }) as usize,
                ),
                None => Some(0usize),
            }
        }) && new.done_state == old.done_state
        &&& old.focus == Focus::Done ==> new.done_state == (if old.done_rows().len() == 0 {
            old.done_state
        } else {
            match old.done_state {
                Some(i) => Some(
                    (if i + 1 < old.done_rows().len() - 1 {
                        i + 1
                    } else {
                        old.done_rows().len() - 1
                    }) as usize,
                ),
                None => Some(0usize),
            }
        }) && new.active_state == old.active_state
        &&& new.same_data(old)
        &&& new.focus == old.focus
        &&& new.mode == old.mode
        &&& new.input == old.input
        &&& new.filter == old.filter
    }
}

} // verus!
