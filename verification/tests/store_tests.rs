use std::collections::BTreeMap;

use prioritize::{join, parse_tags, App, DbWrite, Task};
use rusqlite::Connection;

type Row = (String, i64, bool, String, String, Vec<String>);

fn open() -> Connection {
    let conn = Connection::open_in_memory().unwrap();
    conn.execute_batch(
        "CREATE TABLE tasks (
            id         INTEGER PRIMARY KEY AUTOINCREMENT,
            title      TEXT    NOT NULL,
            position   INTEGER NOT NULL DEFAULT 0,
            done       INTEGER NOT NULL DEFAULT 0,
            created_at TEXT    NOT NULL DEFAULT '',
            notes      TEXT    NOT NULL DEFAULT '',
            tags       TEXT    NOT NULL DEFAULT ''
        );",
    )
    .unwrap();
    conn
}

fn insert(conn: &Connection, title: &str, position: i64, created_at: &str) -> i64 {
    conn.execute(
        "INSERT INTO tasks (title, position, done, created_at, notes, tags) VALUES (?1, ?2, 0, ?3, '', '')",
        (title, position, created_at),
    )
    .unwrap();
    conn.last_insert_rowid()
}

fn load(conn: &Connection, done: bool) -> Vec<Task> {
    let sql = if done {
        "SELECT id, title, position, done, created_at, notes, tags FROM tasks WHERE done = 1 ORDER BY id DESC"
    } else {
        "SELECT id, title, position, done, created_at, notes, tags FROM tasks WHERE done = 0 ORDER BY position"
    };
    let mut stmt = conn.prepare(sql).unwrap();
    let rows = stmt
        .query_map([], |row| {
            let tags: String = row.get(6)?;
            Ok(Task {
                id: row.get(0)?,
                title: row.get(1)?,
                position: row.get(2)?,
                done: row.get::<_, i32>(3)? != 0,
                created_at: row.get(4)?,
                notes: row.get(5)?,
                tags: parse_tags(&tags),
            })
        })
        .unwrap();
    rows.map(|r| r.unwrap()).collect()
}

fn apply(conn: &Connection, writes: Vec<DbWrite>) {
    for w in writes {
        match w {
            DbWrite::SetPosition { id, position } => {
                conn.execute("UPDATE tasks SET position = ?1 WHERE id = ?2", (position, id)).unwrap();
            }
            DbWrite::SetDone { id, done } => {
                conn.execute("UPDATE tasks SET done = ?1 WHERE id = ?2", (done as i32, id)).unwrap();
            }
            DbWrite::UpdateTitle { id, title } => {
                conn.execute("UPDATE tasks SET title = ?1 WHERE id = ?2", (title, id)).unwrap();
            }
            DbWrite::SetNotes { id, notes } => {
                conn.execute("UPDATE tasks SET notes = ?1 WHERE id = ?2", (notes, id)).unwrap();
            }
            DbWrite::SetTags { id, tags } => {
                conn.execute("UPDATE tasks SET tags = ?1 WHERE id = ?2", (tags, id)).unwrap();
            }
            DbWrite::Delete { id } => {
                conn.execute("DELETE FROM tasks WHERE id = ?1", [id]).unwrap();
            }
            DbWrite::Restore { task } => {
                conn.execute(
                    "INSERT INTO tasks (id, title, position, done, created_at, notes, tags)
                     VALUES (?1, ?2, ?3, ?4, ?5, ?6, ?7)",
                    (
                        task.id,
                        task.title.clone(),
                        task.position,
                        task.done as i32,
                        task.created_at.clone(),
                        task.notes.clone(),
                        join(&task.tags, ","),
                    ),
                )
                .unwrap();
            }
        }
    }
}

fn by_id(tasks: &[Task]) -> BTreeMap<i64, Row> {
    tasks
        .iter()
        .map(|t| {
            (
                t.id,
                (t.title.clone(), t.position, t.done, t.created_at.clone(), t.notes.clone(), t.tags.clone()),
            )
        })
        .collect()
}

fn assert_in_step(conn: &Connection, app: &App) {
    let mut stored = by_id(&load(conn, false));
    stored.extend(by_id(&load(conn, true)));
    let mut lists = by_id(&app.active);
    lists.extend(by_id(&app.done));
    assert_eq!(stored, lists);
    let active_ids: Vec<i64> = load(conn, false).iter().map(|t| t.id).collect();
    let list_ids: Vec<i64> = app.active.iter().map(|t| t.id).collect();
    assert_eq!(active_ids, list_ids);
}

#[test]
fn store_follows_every_operation() {
    let conn = open();
    for (i, title) in ["Write tests", "Fix login bug", "Update deps", "Set up CI"].iter().enumerate() {
        insert(&conn, title, i as i64 + 1, "2024-05-20");
    }
    let mut app = App::new(load(&conn, false), load(&conn, true));
    assert_in_step(&conn, &app);

    app.active_state = Some(2);
    apply(&conn, app.move_task_up());
    assert_in_step(&conn, &app);

    app.start_edit_tags();
    app.input = " work , urgent,,".to_string();
    apply(&conn, app.confirm_edit_tags());
    assert_in_step(&conn, &app);

    app.start_edit_title();
    app.input = "Update all deps".to_string();
    apply(&conn, app.confirm_edit_title());
    assert_in_step(&conn, &app);

    app.start_edit_note();
    apply(&conn, app.confirm_note(&vec!["line one".to_string(), "line two".to_string()]));
    assert_in_step(&conn, &app);

    apply(&conn, app.toggle_done());
    assert_in_step(&conn, &app);
    app.active_state = Some(0);
    apply(&conn, app.toggle_done());
    assert_in_step(&conn, &app);

    app.switch_focus();
    app.move_selection_down();
    apply(&conn, app.toggle_done());
    assert_in_step(&conn, &app);

    app.start_delete();
    apply(&conn, app.confirm_delete());
    assert_in_step(&conn, &app);

    app.start_input();
    for c in "New one".chars() {
        app.type_char(c);
    }
    let (title, position) = app.confirm_input().unwrap();
    let id = insert(&conn, &title, position, "2024-06-01");
    app.add_task(id, title, position, "2024-06-01".to_string());
    assert_in_step(&conn, &app);

    while !app.undo_stack.is_empty() {
        apply(&conn, app.undo());
        assert_in_step(&conn, &app);
    }
}
