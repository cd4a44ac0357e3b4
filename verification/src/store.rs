//! The stored tasks, as the database writes leave them, and the laws that
//! keep them equal to the lists.

use vstd::prelude::*;

use crate::actions::swap_with_next;
use crate::app::DbWriteView;
use crate::laws::unique_ids;
use crate::order::{lemma_insert_index, lemma_sort_by_position, insert_index, sort_by_position};
use crate::task::TaskView;
use crate::text::spec_join;
use crate::undo::restore_positions;

verus! {

/// One stored task: what a row of the task table holds besides the id.
/// Tags are stored as one text, joined by commas.
pub struct Row {
    pub title: Seq<char>,
    pub position: i64,
    pub done: bool,
    pub created_at: Seq<char>,
    pub notes: Seq<char>,
    pub tags: Seq<char>,
}

/// The row a task is stored as.
pub open spec fn row_of(t: TaskView) -> Row {
    Row {
        title: t.title,
        position: t.position,
        done: t.done,
        created_at: t.created_at,
        notes: t.notes,
        tags: spec_join(t.tags, seq![',']),
    }
}

/// The store holding exactly the tasks of `s`, by id.
pub open spec fn rows(s: Seq<TaskView>) -> Map<i64, Row>
    decreases s.len(),
{
    if s.len() == 0 {
        Map::empty()
    } else {
        rows(s.drop_last()).insert(s.last().id, row_of(s.last()))
    }
}

/// The store after one write. Updates of an id that is not stored change
/// nothing; a restore stores the task under its id.
pub open spec fn apply_write(db: Map<i64, Row>, w: DbWriteView) -> Map<i64, Row> {
    match w {
        DbWriteView::SetPosition { id, position } => if db.dom().contains(id) {
            db.insert(id, Row { position, ..db[id] })
        } else {
            db
        },
        DbWriteView::SetDone { id, done } => if db.dom().contains(id) {
            db.insert(id, Row { done, ..db[id] })
        } else {
            db
        },
        DbWriteView::UpdateTitle { id, title } => if db.dom().contains(id) {
            db.insert(id, Row { title, ..db[id] })
        } else {
            db
        },
        DbWriteView::SetNotes { id, notes } => if db.dom().contains(id) {
            db.insert(id, Row { notes, ..db[id] })
        } else {
            db
        },
        DbWriteView::SetTags { id, tags } => if db.dom().contains(id) {
            db.insert(id, Row { tags, ..db[id] })
        } else {
            db
        },
        DbWriteView::Delete { id } => db.remove(id),
        DbWriteView::Restore { task } => db.insert(task.id, row_of(task)),
    }
}

/// The store after the writes, in order.
pub open spec fn apply_writes(db: Map<i64, Row>, ws: Seq<DbWriteView>) -> Map<i64, Row>
    decreases ws.len(),
{
    if ws.len() == 0 {
        db
    } else {
        apply_writes(apply_write(db, ws[0]), ws.drop_first())
    }
}

pub proof fn lemma_rows(s: Seq<TaskView>)
    ensures
        forall|id: i64| #[trigger]
            rows(s).dom().contains(id) <==> exists|k: int| 0 <= k < s.len() && s[k].id == id,
        unique_ids(s) ==> forall|k: int|
            0 <= k < s.len() ==> #[trigger] rows(s)[s[k].id] == row_of(s[k]),
    decreases s.len(),
{
    if s.len() > 0 {
        let p = s.drop_last();
        lemma_rows(p);
        assert forall|id: i64| #[trigger]
            rows(s).dom().contains(id) <==> exists|k: int| 0 <= k < s.len() && s[k].id == id by {
            if rows(p).dom().contains(id) {
                let k = choose|k: int| 0 <= k < p.len() && p[k].id == id;
                assert(s[k] == p[k]);
            }
            if exists|k: int| 0 <= k < s.len() && s[k].id == id {
                let k = choose|k: int| 0 <= k < s.len() && s[k].id == id;
                if k < s.len() - 1 {
                    assert(p[k] == s[k]);
                }
            }
        }
        if unique_ids(s) {
            assert(unique_ids(p)) by {
                assert forall|a: int, b: int|
                    0 <= a < p.len() && 0 <= b < p.len() && a != b implies p[a].id != p[b].id by {
                    assert(p[a] == s[a] && p[b] == s[b]);
                }
            }
            assert forall|k: int| 0 <= k < s.len() implies #[trigger] rows(s)[s[k].id] == row_of(
                s[k],
            ) by {
                if k < s.len() - 1 {
                    assert(p[k] == s[k]);
                    assert(s[k].id != s[s.len() - 1].id);
                    assert(rows(p)[p[k].id] == row_of(p[k]));
                }
            }
        }
    }
}

/// Storing a task with a fresh id anywhere in the sequence adds its row.
pub proof fn lemma_rows_insert(s: Seq<TaskView>, k: int, t: TaskView)
    requires
        0 <= k <= s.len(),
        !rows(s).dom().contains(t.id),
    ensures
        rows(s.insert(k, t)) == rows(s).insert(t.id, row_of(t)),
    decreases s.len(),
{
    if k == s.len() {
        assert(s.insert(k, t) =~= s.push(t));
        assert(s.push(t).drop_last() =~= s);
    } else {
        let p = s.drop_last();
        lemma_rows(s);
        lemma_rows(p);
        assert(!rows(p).dom().contains(t.id)) by {
            if rows(p).dom().contains(t.id) {
                let j = choose|j: int| 0 <= j < p.len() && p[j].id == t.id;
                assert(s[j] == p[j]);
            }
        }
        lemma_rows_insert(p, k, t);
        assert(s.insert(k, t).drop_last() =~= p.insert(k, t));
        assert(s.insert(k, t).last() == s.last());
        assert(s.last().id != t.id) by {
            assert(rows(s).dom().contains(s.last().id)) by {
                assert(s[s.len() - 1].id == s.last().id);
            }
        }
        assert(rows(s.insert(k, t)) =~= rows(s).insert(t.id, row_of(t)));
    }
}

/// A task with a fresh id keeps the ids unique.
pub proof fn lemma_unique_insert(s: Seq<TaskView>, k: int, t: TaskView)
    requires
        0 <= k <= s.len(),
        unique_ids(s),
        !rows(s).dom().contains(t.id),
    ensures
        unique_ids(s.insert(k, t)),
{
    lemma_rows(s);
    let r = s.insert(k, t);
    assert forall|a: int, b: int|
        0 <= a < r.len() && 0 <= b < r.len() && a != b implies r[a].id != r[b].id by {
        let sa = if a < k { a } else { a - 1 };
        let sb = if b < k { b } else { b - 1 };
        if a == k {
            assert(r[b] == s[sb]);
        } else if b == k {
            assert(r[a] == s[sa]);
        } else {
            assert(r[a] == s[sa] && r[b] == s[sb]);
        }
    }
}

/// Taking a task out drops its row.
pub proof fn lemma_rows_remove(s: Seq<TaskView>, i: int)
    requires
        0 <= i < s.len(),
        unique_ids(s),
    ensures
        rows(s.remove(i)) == rows(s).remove(s[i].id),
        unique_ids(s.remove(i)),
        !rows(s.remove(i)).dom().contains(s[i].id),
{
    let y = s.remove(i);
    assert(unique_ids(y)) by {
        assert forall|a: int, b: int|
            0 <= a < y.len() && 0 <= b < y.len() && a != b implies y[a].id != y[b].id by {
            let sa = if a < i { a } else { a + 1 };
            let sb = if b < i { b } else { b + 1 };
            assert(y[a] == s[sa] && y[b] == s[sb]);
        }
    }
    lemma_rows(y);
    assert(!rows(y).dom().contains(s[i].id)) by {
        if rows(y).dom().contains(s[i].id) {
            let j = choose|j: int| 0 <= j < y.len() && y[j].id == s[i].id;
            let sj = if j < i { j } else { j + 1 };
            assert(y[j] == s[sj]);
        }
    }
    assert(y.insert(i, s[i]) =~= s);
    lemma_rows_insert(y, i, s[i]);
    assert(rows(s).remove(s[i].id) =~= rows(y));
}

/// Replacing a task by one with the same id replaces its row.
pub proof fn lemma_rows_update(s: Seq<TaskView>, i: int, t: TaskView)
    requires
        0 <= i < s.len(),
        unique_ids(s),
        t.id == s[i].id,
    ensures
        rows(s.update(i, t)) == rows(s).insert(t.id, row_of(t)),
        unique_ids(s.update(i, t)),
{
    lemma_rows_remove(s, i);
    let y = s.remove(i);
    assert(y.insert(i, t) =~= s.update(i, t));
    lemma_rows_insert(y, i, t);
    lemma_unique_insert(y, i, t);
    assert(rows(s).remove(t.id).insert(t.id, row_of(t)) =~= rows(s).insert(t.id, row_of(t)));
}

/// Moving a stored task to another place in the sequence keeps the rows.
pub proof fn lemma_rows_move(s: Seq<TaskView>, i: int, k: int)
    requires
        0 <= i < s.len(),
        0 <= k < s.len(),
        unique_ids(s),
    ensures
        rows(s.remove(i).insert(k, s[i])) == rows(s),
        unique_ids(s.remove(i).insert(k, s[i])),
{
    lemma_rows_remove(s, i);
    lemma_rows_insert(s.remove(i), k, s[i]);
    lemma_unique_insert(s.remove(i), k, s[i]);
    lemma_rows(s);
    assert(rows(s)[s[i].id] == row_of(s[i]));
    assert(rows(s).remove(s[i].id).insert(s[i].id, row_of(s[i])) =~= rows(s));
}

/// Sorting the front part of the sequence keeps the rows.
pub proof fn lemma_rows_sort_front(x: Seq<TaskView>, d: Seq<TaskView>)
    requires
        unique_ids(x + d),
    ensures
        rows(sort_by_position(x) + d) == rows(x + d),
        unique_ids(sort_by_position(x) + d),
    decreases x.len(),
{
    if x.len() > 0 {
        let xp = x.drop_last();
        let t = x.last();
        let n = xp.len() as int;
        assert((x + d).remove(n) =~= xp + d);
        assert((x + d)[n] == t);
        lemma_rows_remove(x + d, n);
        lemma_rows_sort_front(xp, d);
        lemma_sort_by_position(xp);
        let sx = sort_by_position(xp);
        lemma_insert_index(sx, t);
        let k = insert_index(sx, t.position) as int;
        assert(sort_by_position(x) == sx.insert(k, t));
        assert(sort_by_position(x) + d =~= (sx + d).insert(k, t));
        lemma_rows_insert(sx + d, k, t);
        lemma_unique_insert(sx + d, k, t);
        assert(x + d =~= (xp + d).insert(n, t));
        lemma_rows_insert(xp + d, n, t);
    } else {
        assert(sort_by_position(x) == x);
    }
}

/// Setting the position of a stored task stores its new row.
proof fn lemma_set_position(s: Seq<TaskView>, i: int, p: i64)
    requires
        0 <= i < s.len(),
        unique_ids(s),
    ensures
        apply_write(rows(s), DbWriteView::SetPosition { id: s[i].id, position: p }) == rows(
            s.update(i, s[i].with_position(p)),
        ),
        unique_ids(s.update(i, s[i].with_position(p))),
{
    lemma_rows(s);
    assert(rows(s).dom().contains(s[i].id));
    lemma_rows_update(s, i, s[i].with_position(p));
}

/// Setting the done flag of a stored task stores its new row.
proof fn lemma_set_done(s: Seq<TaskView>, i: int, d: bool)
    requires
        0 <= i < s.len(),
        unique_ids(s),
    ensures
        apply_write(rows(s), DbWriteView::SetDone { id: s[i].id, done: d }) == rows(
            s.update(i, s[i].with_done(d)),
        ),
        unique_ids(s.update(i, s[i].with_done(d))),
{
    lemma_rows(s);
    assert(rows(s).dom().contains(s[i].id));
    lemma_rows_update(s, i, s[i].with_done(d));
}

proof fn lemma_apply_one(db: Map<i64, Row>, w: DbWriteView)
    ensures
        apply_writes(db, seq![w]) == apply_write(db, w),
{
    assert(seq![w].drop_first() =~= Seq::<DbWriteView>::empty());
    assert(seq![w][0] == w);
    assert(apply_writes(apply_write(db, w), Seq::<DbWriteView>::empty()) == apply_write(db, w));
}

proof fn lemma_apply_two(db: Map<i64, Row>, w1: DbWriteView, w2: DbWriteView)
    ensures
        apply_writes(db, seq![w1, w2]) == apply_write(apply_write(db, w1), w2),
{
    assert(seq![w1, w2].drop_first() =~= seq![w2]);
    assert(seq![w1, w2][0] == w1);
    lemma_apply_one(apply_write(db, w1), w2);
}

/// Moving a task up or down: the two position writes leave the store
/// holding the reordered lists.
pub proof fn law_store_follows_move(a: Seq<TaskView>, d: Seq<TaskView>, j: int)
    requires
        unique_ids(a + d),
        0 <= j,
        j + 1 < a.len(),
    ensures
        apply_writes(
            rows(a + d),
            seq![
                DbWriteView::SetPosition { id: a[j].id, position: a[j + 1].position },
                DbWriteView::SetPosition { id: a[j + 1].id, position: a[j].position },
            ],
        ) == rows(swap_with_next(a, j) + d),
        unique_ids(swap_with_next(a, j) + d),
{
    let all = a + d;
    assert(all[j] == a[j] && all[j + 1] == a[j + 1]);
    lemma_set_position(all, j, a[j + 1].position);
    let all1 = all.update(j, a[j].with_position(a[j + 1].position));
    assert(all1[j + 1] == a[j + 1]);
    lemma_set_position(all1, j + 1, a[j].position);
    let all2 = all1.update(j + 1, a[j + 1].with_position(a[j].position));
    lemma_apply_two(
        rows(all),
        DbWriteView::SetPosition { id: a[j].id, position: a[j + 1].position },
        DbWriteView::SetPosition { id: a[j + 1].id, position: a[j].position },
    );
    lemma_rows_move(all2, j + 1, j);
    assert(all2.remove(j + 1).insert(j, all2[j + 1]) =~= swap_with_next(a, j) + d);
}

/// Completing a task: the done write leaves the store holding the task at
/// the front of the completed list.
pub proof fn law_store_follows_complete(a: Seq<TaskView>, d: Seq<TaskView>, i: int)
    requires
        unique_ids(a + d),
        0 <= i < a.len(),
    ensures
        apply_writes(rows(a + d), seq![DbWriteView::SetDone { id: a[i].id, done: true }])
            == rows(a.remove(i) + (seq![a[i].with_done(true)] + d)),
        unique_ids(a.remove(i) + (seq![a[i].with_done(true)] + d)),
{
    let all = a + d;
    assert(all[i] == a[i]);
    lemma_apply_one(rows(all), DbWriteView::SetDone { id: a[i].id, done: true });
    lemma_set_done(all, i, true);
    let all1 = all.update(i, a[i].with_done(true));
    lemma_rows_move(all1, i, a.len() - 1);
    assert(all1.remove(i).insert(a.len() - 1, all1[i]) =~= a.remove(i) + (seq![
        a[i].with_done(true),
    ] + d));
}

/// Reopening a completed task: the done and position writes leave the
/// store holding the task at the end of the active list.
pub proof fn law_store_follows_reopen(a: Seq<TaskView>, d: Seq<TaskView>, i: int, p: i64)
    requires
        unique_ids(a + d),
        0 <= i < d.len(),
    ensures
        apply_writes(
            rows(a + d),
            seq![
                DbWriteView::SetDone { id: d[i].id, done: false },
                DbWriteView::SetPosition { id: d[i].id, position: p },
            ],
        ) == rows(a.push(d[i].with_done(false).with_position(p)) + d.remove(i)),
        unique_ids(a.push(d[i].with_done(false).with_position(p)) + d.remove(i)),
{
    let all = a + d;
    let k = a.len() + i;
    assert(all[k] == d[i]);
    lemma_set_done(all, k, false);
    let all1 = all.update(k, d[i].with_done(false));
    assert(all1[k] == d[i].with_done(false));
    lemma_set_position(all1, k, p);
    let all2 = all1.update(k, d[i].with_done(false).with_position(p));
    lemma_apply_two(
        rows(all),
        DbWriteView::SetDone { id: d[i].id, done: false },
        DbWriteView::SetPosition { id: d[i].id, position: p },
    );
    lemma_rows_move(all2, k, a.len() as int);
    assert(all2.remove(k).insert(a.len() as int, all2[k]) =~= a.push(
        d[i].with_done(false).with_position(p),
    ) + d.remove(i));
}

/// Deleting a task: the delete write drops exactly its row.
pub proof fn law_store_follows_delete(a: Seq<TaskView>, d: Seq<TaskView>, i: int, in_done: bool)
    requires
        unique_ids(a + d),
        0 <= i < (if in_done {
            d.len()
        } else {
            a.len()
        }),
    ensures
        ({
            let t = if in_done {
                d[i]
            } else {
                a[i]
            };
            let after = if in_done {
                a + d.remove(i)
            } else {
                a.remove(i) + d
            };
            &&& apply_writes(rows(a + d), seq![DbWriteView::Delete { id: t.id }]) == rows(after)
            &&& unique_ids(after)
        }),
{
    let all = a + d;
    let k = if in_done {
        a.len() + i
    } else {
        i
    };
    assert(all[k] == (if in_done {
        d[i]
    } else {
        a[i]
    }));
    lemma_apply_one(rows(all), DbWriteView::Delete { id: all[k].id });
    lemma_rows_remove(all, k);
    if in_done {
        assert(all.remove(k) =~= a + d.remove(i));
    } else {
        assert(all.remove(k) =~= a.remove(i) + d);
    }
}

/// Renaming a task: the title write stores its new row.
pub proof fn law_store_follows_title(s: Seq<TaskView>, i: int, title: Seq<char>)
    requires
        unique_ids(s),
        0 <= i < s.len(),
    ensures
        apply_writes(rows(s), seq![DbWriteView::UpdateTitle { id: s[i].id, title }]) == rows(
            s.update(i, s[i].with_title(title)),
        ),
{
    lemma_rows(s);
    lemma_apply_one(rows(s), DbWriteView::UpdateTitle { id: s[i].id, title });
    lemma_rows_update(s, i, s[i].with_title(title));
}

/// Editing notes: the notes write stores the new row.
pub proof fn law_store_follows_notes(s: Seq<TaskView>, i: int, notes: Seq<char>)
    requires
        unique_ids(s),
        0 <= i < s.len(),
    ensures
        apply_writes(rows(s), seq![DbWriteView::SetNotes { id: s[i].id, notes }]) == rows(
            s.update(i, s[i].with_notes(notes)),
        ),
{
    lemma_rows(s);
    lemma_apply_one(rows(s), DbWriteView::SetNotes { id: s[i].id, notes });
    lemma_rows_update(s, i, s[i].with_notes(notes));
}

/// Editing tags: the write of the comma-joined tags stores the new row.
pub proof fn law_store_follows_tags(s: Seq<TaskView>, i: int, tags: Seq<Seq<char>>)
    requires
        unique_ids(s),
        0 <= i < s.len(),
    ensures
        apply_writes(
            rows(s),
            seq![DbWriteView::SetTags { id: s[i].id, tags: spec_join(tags, seq![',']) }],
        ) == rows(s.update(i, s[i].with_tags(tags))),
{
    lemma_rows(s);
    lemma_apply_one(
        rows(s),
        DbWriteView::SetTags { id: s[i].id, tags: spec_join(tags, seq![',']) },
    );
    lemma_rows_update(s, i, s[i].with_tags(tags));
}

/// Storing a new task with a fresh id adds its row for the task appended to
/// the active list.
pub proof fn law_store_follows_add(a: Seq<TaskView>, d: Seq<TaskView>, t: TaskView)
    requires
        unique_ids(a + d),
        !rows(a + d).dom().contains(t.id),
    ensures
        rows(a + d).insert(t.id, row_of(t)) == rows(a.push(t) + d),
        unique_ids(a.push(t) + d),
{
    lemma_rows_insert(a + d, a.len() as int, t);
    lemma_unique_insert(a + d, a.len() as int, t);
    assert((a + d).insert(a.len() as int, t) =~= a.push(t) + d);
}

/// Taking back a deletion: the restore write stores the task again, where
/// the lists put it back.
pub proof fn law_store_follows_undo_delete(
    a: Seq<TaskView>,
    d: Seq<TaskView>,
    t: TaskView,
    was_done: bool,
)
    requires
        unique_ids(a + d),
        !rows(a + d).dom().contains(t.id),
    ensures
        ({
            let after = if was_done {
                a + (seq![t] + d)
            } else {
                sort_by_position(a.push(t)) + d
            };
            &&& apply_writes(rows(a + d), seq![DbWriteView::Restore { task: t }]) == rows(after)
            &&& unique_ids(after)
        }),
{
    lemma_apply_one(rows(a + d), DbWriteView::Restore { task: t });
    law_store_follows_add(a, d, t);
    if was_done {
        assert(a + (seq![t] + d) =~= (a + d).insert(a.len() as int, t));
        assert(a.push(t) + d =~= (a + d).insert(a.len() as int, t));
    } else {
        lemma_rows_sort_front(a.push(t), d);
    }
}

/// Taking back a completion: the done write stores the task back in the
/// active list, at its place by position.
pub proof fn law_store_follows_undo_complete(a: Seq<TaskView>, d: Seq<TaskView>, i: int)
    requires
        unique_ids(a + d),
        0 <= i < d.len(),
    ensures
        apply_writes(rows(a + d), seq![DbWriteView::SetDone { id: d[i].id, done: false }])
            == rows(sort_by_position(a.push(d[i].with_done(false))) + d.remove(i)),
        unique_ids(sort_by_position(a.push(d[i].with_done(false))) + d.remove(i)),
{
    let all = a + d;
    let k = a.len() + i;
    assert(all[k] == d[i]);
    lemma_apply_one(rows(all), DbWriteView::SetDone { id: d[i].id, done: false });
    lemma_set_done(all, k, false);
    let all1 = all.update(k, d[i].with_done(false));
    lemma_rows_move(all1, k, a.len() as int);
    assert(all1.remove(k).insert(a.len() as int, all1[k]) =~= a.push(d[i].with_done(false))
        + d.remove(i));
    lemma_rows_sort_front(a.push(d[i].with_done(false)), d.remove(i));
}

/// `s` with every task of the given id at position `p`.
pub open spec fn with_position_of(s: Seq<TaskView>, id: i64, p: i64) -> Seq<TaskView> {
    Seq::new(s.len(), |k: int| if s[k].id == id { s[k].with_position(p) } else { s[k] })
}

/// A position write stores the task of that id at the new position, and
/// changes nothing when no task has that id.
proof fn lemma_set_position_by_id(s: Seq<TaskView>, id: i64, p: i64)
    requires
        unique_ids(s),
    ensures
        apply_write(rows(s), DbWriteView::SetPosition { id, position: p }) == rows(
            with_position_of(s, id, p),
        ),
        unique_ids(with_position_of(s, id, p)),
{
    lemma_rows(s);
    if exists|k: int| 0 <= k < s.len() && s[k].id == id {
        let i = choose|k: int| 0 <= k < s.len() && s[k].id == id;
        lemma_set_position(s, i, p);
        assert forall|k: int| 0 <= k < s.len() && k != i implies s[k].id != id by {}
        assert(s.update(i, s[i].with_position(p)) =~= with_position_of(s, id, p));
    } else {
        assert(with_position_of(s, id, p) =~= s);
    }
}

/// Writes that name an id no task has leave the store as it is.
pub proof fn law_store_ignores_unknown_id(s: Seq<TaskView>, w: DbWriteView)
    requires
        match w {
            DbWriteView::SetPosition { id, .. } => !rows(s).dom().contains(id),
            DbWriteView::SetDone { id, .. } => !rows(s).dom().contains(id),
            DbWriteView::UpdateTitle { id, .. } => !rows(s).dom().contains(id),
            DbWriteView::SetNotes { id, .. } => !rows(s).dom().contains(id),
            DbWriteView::SetTags { id, .. } => !rows(s).dom().contains(id),
            _ => false,
        },
    ensures
        apply_writes(rows(s), seq![w]) == rows(s),
{
    lemma_apply_one(rows(s), w);
}

/// Taking back a move: the two position writes leave the store holding the
/// active list with the old positions, reordered by position, as long as
/// neither task is among the completed ones.
pub proof fn law_store_follows_undo_reorder(
    a: Seq<TaskView>,
    d: Seq<TaskView>,
    id_a: i64,
    pos_a: i64,
    id_b: i64,
    pos_b: i64,
)
    requires
        unique_ids(a + d),
        id_a != id_b,
        forall|k: int| 0 <= k < d.len() ==> (#[trigger] d[k]).id != id_a && d[k].id != id_b,
    ensures
        apply_writes(
            rows(a + d),
            seq![
                DbWriteView::SetPosition { id: id_a, position: pos_a },
                DbWriteView::SetPosition { id: id_b, position: pos_b },
            ],
        ) == rows(sort_by_position(restore_positions(a, id_a, pos_a, id_b, pos_b)) + d),
        unique_ids(sort_by_position(restore_positions(a, id_a, pos_a, id_b, pos_b)) + d),
{
    let all = a + d;
    lemma_apply_two(
        rows(all),
        DbWriteView::SetPosition { id: id_a, position: pos_a },
        DbWriteView::SetPosition { id: id_b, position: pos_b },
    );
    lemma_set_position_by_id(all, id_a, pos_a);
    let all1 = with_position_of(all, id_a, pos_a);
    lemma_set_position_by_id(all1, id_b, pos_b);
    let all2 = with_position_of(all1, id_b, pos_b);
    let r = restore_positions(a, id_a, pos_a, id_b, pos_b);
    assert forall|k: int| 0 <= k < all2.len() implies #[trigger] all2[k] == (r + d)[k] by {
        if k >= a.len() {
            assert(d[k - a.len()].id != id_a);
        }
    }
    assert(all2 =~= r + d);
    lemma_rows_sort_front(r, d);
}

} // verus!
