//! What the selection-driven operations do, stated from their inputs: the
//! filtered rows are the tasks whose text holds the filter, the selection
//! keys step through those rows, and the delete prompt and the note editor
//! act on the task behind the selected row.

use vstd::prelude::*;

use crate::app::{App, DbWrite, Focus, Mode, lemma_matching, matching};
use crate::task::{TaskView, views};
use crate::text::{
    lemma_note_lines_roundtrip, lowercase, spec_contains, spec_join, spec_parse_tags, spec_trim, texts,
};

verus! {

/// A task is a row of the filtered view exactly when the filter is empty
/// or the lowercased filter occurs in its lowercased title, in its
/// lowercased notes, or in any one of its lowercased tags.
pub proof fn law_filter_rows(tasks: Seq<TaskView>, q: Seq<char>, k: int)
    requires
        tasks.len() <= usize::MAX,
        0 <= k < tasks.len(),
    ensures
        matching(tasks, q).contains(k as usize) <==> (q.len() == 0 || spec_contains(
            lowercase(tasks[k].title),
            lowercase(q),
        ) || spec_contains(lowercase(tasks[k].notes), lowercase(q)) || exists|j: int|
            0 <= j < tasks[k].tags.len() && spec_contains(
                lowercase(#[trigger] tasks[k].tags[j]),
                lowercase(q),
            )),
        forall|j: int|
            0 <= j < tasks[k].tags.len() && spec_contains(
                lowercase(#[trigger] tasks[k].tags[j]),
                lowercase(q),
            ) ==> matching(tasks, q).contains(k as usize),
{
    lemma_matching(tasks, q);
    let rows = matching(tasks, q);
    if rows.contains(k as usize) {
        let x = choose|x: int| 0 <= x < rows.len() && rows[x] == k as usize;
        assert(rows[x] == k as usize);
        assert(crate::app::spec_task_matches(q, tasks[k]));
    }
    if crate::app::spec_task_matches(q, tasks[k]) {
        assert(rows.contains(k as usize));
    }
}

/// The list index behind the selected row `sel` of `rows`.
pub open spec fn row_task(rows: Seq<usize>, sel: Option<usize>) -> int {
    rows[sel->0 as int] as int
}

/// Pressing delete asks about the task behind the selected row of the
/// focused column (not the task at that position of the whole list); with
/// no selected row it asks nothing.
pub proof fn law_start_delete_asks_about_selected_row(a0: &App, a1: &App)
    requires
        a0.wf(),
        App::spec_start_delete(a0, a1),
    ensures
        ({
            let rows = matching(views(a0.active@), a0.filter@);
            let sel = a0.active_state;
            a0.focus == Focus::Active && sel is Some && sel->0 < rows.len() ==> {
                let t = a0.active@[row_task(rows, sel)];
                &&& a1.mode == Mode::Confirm
                &&& a1.pending_delete matches Some((id, title)) && id == t.id && title@ == t.title@
            }
        }),
        ({
            let rows = matching(views(a0.done@), a0.filter@);
            let sel = a0.done_state;
            a0.focus == Focus::Done && sel is Some && sel->0 < rows.len() ==> {
                let t = a0.done@[row_task(rows, sel)];
                &&& a1.mode == Mode::Confirm
                &&& a1.pending_delete matches Some((id, title)) && id == t.id && title@ == t.title@
            }
        }),
        ({
            let sel = if a0.focus == Focus::Active {
                a0.active_state
            } else {
                a0.done_state
            };
            let rows = if a0.focus == Focus::Active {
                matching(views(a0.active@), a0.filter@)
            } else {
                matching(views(a0.done@), a0.filter@)
            };
            !(sel is Some && sel->0 < rows.len()) ==> a1.pending_delete == a0.pending_delete
                && a1.mode == a0.mode
        }),
        a1.active == a0.active,
        a1.done == a0.done,
        a1.undo_stack == a0.undo_stack,
{
    crate::app::lemma_matching_vec(&a0.active, a0.filter@);
    crate::app::lemma_matching_vec(&a0.done, a0.filter@);
}

/// Moving the selection down steps one row down the filtered rows of the
/// focused column, stops at the last row, starts at the first row when
/// nothing was selected, and does nothing when the column shows no rows.
pub proof fn law_move_selection_down_steps(a0: &App, a1: &App)
    requires
        a0.wf(),
        App::spec_move_selection_down(a0, a1),
    ensures
        ({
            let n = matching(views(a0.active@), a0.filter@).len();
            let sel = a0.active_state;
            a0.focus == Focus::Active ==> {
                &&& n == 0 ==> a1.active_state == sel
                &&& n > 0 && sel is None ==> a1.active_state == Some(0usize)
                &&& n > 0 && sel is Some && sel->0 + 1 < n ==> a1.active_state == Some(
                    (sel->0 + 1) as usize,
                )
                &&& n > 0 && sel is Some && sel->0 + 1 >= n ==> a1.active_state == Some(
                    (n - 1) as usize,
                )
                &&& a1.done_state == a0.done_state
            }
        }),
        ({
            let n = matching(views(a0.done@), a0.filter@).len();
            let sel = a0.done_state;
            a0.focus == Focus::Done ==> {
                &&& n == 0 ==> a1.done_state == sel
                &&& n > 0 && sel is None ==> a1.done_state == Some(0usize)
                &&& n > 0 && sel is Some && sel->0 + 1 < n ==> a1.done_state == Some(
                    (sel->0 + 1) as usize,
                )
                &&& n > 0 && sel is Some && sel->0 + 1 >= n ==> a1.done_state == Some(
                    (n - 1) as usize,
                )
                &&& a1.active_state == a0.active_state
            }
        }),
{
}

/// Moving the selection up steps one row up, stops at the first row, and
/// leaves an empty selection empty.
pub proof fn law_move_selection_up_steps(a0: &App, a1: &App)
    requires
        a0.wf(),
        App::spec_move_selection_up(a0, a1),
    ensures
        ({
            let sel = if a0.focus == Focus::Active {
                a0.active_state
            } else {
                a0.done_state
            };
            let new_sel = if a0.focus == Focus::Active {
                a1.active_state
            } else {
                a1.done_state
            };
            &&& sel is None ==> new_sel is None
            &&& sel is Some && sel->0 > 0 ==> new_sel == Some((sel->0 - 1) as usize)
            &&& sel == Some(0usize) ==> new_sel == Some(0usize)
        }),
        a0.focus == Focus::Active ==> a1.done_state == a0.done_state,
        a0.focus == Focus::Done ==> a1.active_state == a0.active_state,
{
}

/// Opening the note editor on a selected row of either column fills it
/// with the lines of that task's own notes: joined back with newlines they
/// are the notes, for notes without a carriage return and not ending in a
/// newline.
pub proof fn law_start_edit_note_opens_selected_notes(a0: &App, a1: &App)
    requires
        a0.wf(),
        App::spec_start_edit_note(a0, a1),
    ensures
        ({
            let rows = matching(views(a0.active@), a0.filter@);
            let sel = a0.active_state;
            a0.focus == Focus::Active && sel is Some && sel->0 < rows.len() ==> {
                let notes = a0.active@[row_task(rows, sel)].notes@;
                &&& a1.mode == Mode::EditNote
                &&& a1.note_editor is Some
                &&& (!notes.contains('\r') && (notes.len() > 0 ==> notes.last() != '\n'))
                    ==> spec_join(texts(a1.note_editor->0@), seq!['\n']) == notes
            }
        }),
        ({
            let rows = matching(views(a0.done@), a0.filter@);
            let sel = a0.done_state;
            a0.focus == Focus::Done && sel is Some && sel->0 < rows.len() ==> {
                let notes = a0.done@[row_task(rows, sel)].notes@;
                &&& a1.mode == Mode::EditNote
                &&& a1.note_editor is Some
                &&& (!notes.contains('\r') && (notes.len() > 0 ==> notes.last() != '\n'))
                    ==> spec_join(texts(a1.note_editor->0@), seq!['\n']) == notes
            }
        }),
{
    crate::app::lemma_matching_vec(&a0.active, a0.filter@);
    crate::app::lemma_matching_vec(&a0.done, a0.filter@);
    if a0.focused_idx() is Some {
        let notes = a0.focused_task().notes;
        if !notes.contains('\r') && (notes.len() > 0 ==> notes.last() != '\n') {
            lemma_note_lines_roundtrip(notes);
        }
    }
}

/// The list index behind the selected row of the focused column, if any.
pub open spec fn selected_row_task(a: &App) -> Option<int> {
    let rows = if a.focus == Focus::Active {
        matching(views(a.active@), a.filter@)
    } else {
        matching(views(a.done@), a.filter@)
    };
    let sel = if a.focus == Focus::Active {
        a.active_state
    } else {
        a.done_state
    };
    if sel is Some && sel->0 < rows.len() {
        Some(row_task(rows, sel))
    } else {
        None
    }
}

/// The focused list's task at `k`.
pub open spec fn focused_list_task(a: &App, k: int) -> TaskView {
    if a.focus == Focus::Active {
        a.active@[k]@
    } else {
        a.done@[k]@
    }
}

/// The focused list after replacing its task at `k` by `t`, and the other
/// list unchanged.
pub open spec fn lists_with(a0: &App, a1: &App, k: int, t: TaskView) -> bool {
    if a0.focus == Focus::Active {
        views(a1.active@) == views(a0.active@).update(k, t) && a1.done == a0.done
    } else {
        views(a1.done@) == views(a0.done@).update(k, t) && a1.active == a0.active
    }
}

/// The rename and tags prompts open on the task behind the selected row.
pub proof fn law_edit_prompts_show_selected_row(a0: &App, a1: &App, a2: &App)
    requires
        a0.wf(),
        App::spec_start_edit_title(a0, a1),
        App::spec_start_edit_tags(a0, a2),
    ensures
        selected_row_task(a0) is Some ==> {
            let t = focused_list_task(a0, selected_row_task(a0)->0);
            &&& a1.input@ == t.title
            &&& a2.input@ == spec_join(t.tags, seq![',', ' '])
        },
        selected_row_task(a0) is None ==> a1.input == a0.input && a2.input == a0.input,
{
    crate::app::lemma_matching_vec(&a0.active, a0.filter@);
    crate::app::lemma_matching_vec(&a0.done, a0.filter@);
}

/// Confirming a rename, a tag edit or a note edit changes the task behind
/// the selected row and no other: its title becomes the trimmed input, its
/// tags the parsed input, its notes the editor's lines joined by newlines.
pub proof fn law_edits_change_selected_row(
    a0: &App,
    a1: &App,
    a2: &App,
    a3: &App,
    edited: Seq<String>,
    w1: Seq<DbWrite>,
    w2: Seq<DbWrite>,
    w3: Seq<DbWrite>,
)
    requires
        a0.wf(),
        App::spec_confirm_edit_title(a0, a1, w1),
        App::spec_confirm_edit_tags(a0, a2, w2),
        App::spec_confirm_note(a0, a3, edited, w3),
    ensures
        selected_row_task(a0) is Some ==> {
            let k = selected_row_task(a0)->0;
            let t = focused_list_task(a0, k);
            &&& spec_trim(a0.input@).len() > 0 ==> lists_with(
                a0,
                a1,
                k,
                t.with_title(spec_trim(a0.input@)),
            )
            &&& lists_with(a0, a2, k, t.with_tags(spec_parse_tags(a0.input@)))
            &&& a0.note_editor is Some ==> lists_with(
                a0,
                a3,
                k,
                t.with_notes(spec_join(texts(edited), seq!['\n'])),
            )
        },
        selected_row_task(a0) is None ==> a1.active == a0.active && a1.done == a0.done
            && a2.active == a0.active && a2.done == a0.done && a3.active == a0.active && a3.done
            == a0.done,
{
    crate::app::lemma_matching_vec(&a0.active, a0.filter@);
    crate::app::lemma_matching_vec(&a0.done, a0.filter@);
}

/// Toggling completes the task behind the selected active row (it goes in
/// front of the completed list, marked done) or reopens the task behind
/// the selected completed row (it goes at the end of the active list, not
/// done, after every other position).
pub proof fn law_toggle_done_moves_selected_row(a0: &App, a1: &App, w: Seq<DbWrite>)
    requires
        a0.wf(),
        a0.focus == Focus::Done && a0.spec_done_real_idx() is Some ==> crate::task::positions_fit(
            views(a0.active@),
        ),
        App::spec_toggle_done(a0, a1, w),
    ensures
        selected_row_task(a0) is Some && a0.focus == Focus::Active ==> {
            let k = selected_row_task(a0)->0;
            let t = a0.active@[k]@;
            &&& views(a1.active@) == views(a0.active@).remove(k)
            &&& views(a1.done@) == seq![t.with_done(true)] + views(a0.done@)
        },
        selected_row_task(a0) is Some && a0.focus == Focus::Done ==> {
            let k = selected_row_task(a0)->0;
            let t = a0.done@[k]@;
            let n = a0.active.len() as int;
            &&& views(a1.done@) == views(a0.done@).remove(k)
            &&& views(a1.active@).len() == n + 1
            &&& views(a1.active@).take(n) == views(a0.active@)
            &&& views(a1.active@)[n].id == t.id && !views(a1.active@)[n].done
            &&& views(a1.active@)[n].title == t.title
            &&& forall|j: int| 0 <= j < n ==> (#[trigger] a0.active@[j]).position < views(
                a1.active@,
            )[n].position
        },
        selected_row_task(a0) is None ==> *a1 == *a0,
{
    crate::app::lemma_matching_vec(&a0.active, a0.filter@);
    crate::app::lemma_matching_vec(&a0.done, a0.filter@);
    let a = views(a0.active@);
    assert(a.len() == a0.active.len());
    if selected_row_task(a0) is Some && a0.focus == Focus::Done {
        let n = a0.active.len() as int;
        assert(views(a1.active@).take(n) =~= a);
        if n > 0 {
            crate::task::lemma_max_position_upto(a, a.len());
        }
        assert forall|j: int| 0 <= j < n implies (#[trigger] a0.active@[j]).position < views(
            a1.active@,
        )[n].position by {
            assert(a[j] == a0.active@[j]@);
        }
    }
}

} // verus!
