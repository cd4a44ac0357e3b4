use prioritize::app::DbWrite;
use prioritize::{App, Focus, Mode, Task, UNDO_LIMIT};

fn task(id: i64, title: &str, position: i64) -> Task {
    Task {
        id,
        title: title.to_string(),
        position,
        done: false,
        created_at: "2024-05-20".to_string(),
        notes: String::new(),
        tags: Vec::new(),
    }
}

fn done_task(id: i64, title: &str, position: i64) -> Task {
    let mut t = task(id, title, position);
    t.done = true;
    t
}

fn sample() -> App {
    App::new(
        vec![task(1, "Write tests", 1), task(2, "Fix login bug", 2), task(3, "Update deps", 3)],
        vec![done_task(4, "Set up CI", 7), done_task(5, "Update docs", 8)],
    )
}

fn titles(list: &[Task]) -> Vec<&str> {
    list.iter().map(|t| t.title.as_str()).collect()
}

#[test]
fn new_selects_first_active_task() {
    let app = sample();
    assert_eq!(app.active_state, Some(0));
    assert_eq!(app.done_state, None);
    assert_eq!(app.focus, Focus::Active);
    assert_eq!(app.mode, Mode::Normal);
    let empty = App::new(Vec::new(), Vec::new());
    assert_eq!(empty.active_state, None);
}

#[test]
fn filter_is_case_insensitive_over_title_notes_and_tags() {
    let mut app = sample();
    app.active[1].notes = "Check the SESSION cookie".to_string();
    app.active[2].tags = vec!["Maintenance".to_string()];
    app.filter = "WRITE".to_string();
    assert_eq!(app.filtered_active_indices(), vec![0]);
    app.filter = "session".to_string();
    assert_eq!(app.filtered_active_indices(), vec![1]);
    app.filter = "mainten".to_string();
    assert_eq!(app.filtered_active_indices(), vec![2]);
    app.filter = "update".to_string();
    assert_eq!(app.filtered_active_indices(), vec![2]);
    assert_eq!(app.filtered_done_indices(), vec![1]);
}

#[test]
fn empty_filter_shows_every_task() {
    let app = sample();
    assert_eq!(app.filtered_active_indices(), vec![0, 1, 2]);
    assert_eq!(app.filtered_done_indices(), vec![0, 1]);
}

#[test]
fn search_typing_clamps_selection() {
    let mut app = sample();
    app.active_state = Some(2);
    app.start_search();
    assert_eq!(app.mode, Mode::Search);
    app.search_push('f');
    app.search_push('i');
    assert_eq!(app.filter, "fi");
    assert_eq!(app.filtered_active_indices(), vec![1]);
    assert_eq!(app.active_state, Some(0));
    assert_eq!(app.active_real_idx(), Some(1));
    app.search_pop();
    assert_eq!(app.filter, "f");
    app.apply_search();
    assert_eq!(app.mode, Mode::Normal);
    assert_eq!(app.filter, "f");
    assert_eq!(app.input, "");
}

#[test]
fn cancel_search_clears_filter() {
    let mut app = sample();
    app.start_search();
    app.search_push('z');
    assert_eq!(app.active_state, None);
    app.cancel_search();
    assert_eq!(app.filter, "");
    assert_eq!(app.mode, Mode::Normal);
    assert_eq!(app.active_state, Some(0));
}

#[test]
fn clear_filter_keeps_the_same_task_selected() {
    let mut app = sample();
    app.filter = "u".to_string();
    // rows: "Fix login bug" (1), "Update deps" (2)
    assert_eq!(app.filtered_active_indices(), vec![1, 2]);
    app.active_state = Some(1);
    assert_eq!(app.active_real_idx(), Some(2));
    app.clear_filter();
    assert_eq!(app.filter, "");
    assert_eq!(app.active_state, Some(2));
    assert_eq!(app.active[app.active_real_idx().unwrap()].id, 3);
}

#[test]
fn switch_focus_and_navigation() {
    let mut app = sample();
    app.switch_focus();
    assert_eq!(app.focus, Focus::Done);
    assert_eq!(app.done_state, Some(0));
    app.move_selection_down();
    app.move_selection_down();
    assert_eq!(app.done_state, Some(1));
    app.move_selection_up();
    app.move_selection_up();
    app.move_selection_up();
    assert_eq!(app.done_state, Some(0));
    app.switch_focus();
    assert_eq!(app.focus, Focus::Active);
    assert_eq!(app.active_state, Some(0));
}

#[test]
fn move_task_up_exchanges_positions() {
    let mut app = sample();
    app.active_state = Some(2);
    let writes = app.move_task_up();
    assert_eq!(titles(&app.active), vec!["Write tests", "Update deps", "Fix login bug"]);
    assert_eq!(app.active[1].position, 2);
    assert_eq!(app.active[2].position, 3);
    assert_eq!(app.active_state, Some(1));
    assert_eq!(
        writes,
        vec![
            DbWrite::SetPosition { id: 2, position: 3 },
            DbWrite::SetPosition { id: 3, position: 2 },
        ]
    );
}

#[test]
fn move_up_then_down_restores_order() {
    let mut app = sample();
    app.active_state = Some(1);
    app.move_task_up();
    app.move_task_down();
    assert_eq!(titles(&app.active), vec!["Write tests", "Fix login bug", "Update deps"]);
    let positions: Vec<i64> = app.active.iter().map(|t| t.position).collect();
    assert_eq!(positions, vec![1, 2, 3]);
    assert_eq!(app.active_state, Some(1));
}

#[test]
fn reordering_is_off_with_a_filter_or_on_the_edges() {
    let mut app = sample();
    assert!(app.move_task_up().is_empty());
    app.active_state = Some(2);
    assert!(app.move_task_down().is_empty());
    app.filter = "e".to_string();
    app.active_state = Some(1);
    assert!(app.move_task_up().is_empty());
    assert_eq!(titles(&app.active), vec!["Write tests", "Fix login bug", "Update deps"]);
}

#[test]
fn toggle_done_moves_task_to_front_of_completed() {
    let mut app = sample();
    app.done_state = Some(0);
    app.active_state = Some(1);
    let writes = app.toggle_done();
    assert_eq!(writes, vec![DbWrite::SetDone { id: 2, done: true }]);
    assert_eq!(titles(&app.active), vec!["Write tests", "Update deps"]);
    assert_eq!(titles(&app.done), vec!["Fix login bug", "Set up CI", "Update docs"]);
    assert!(app.done[0].done);
    assert_eq!(app.done_state, Some(1));
    assert_eq!(app.active_state, Some(1));
}

#[test]
fn reopening_appends_with_next_position() {
    let mut app = sample();
    app.switch_focus();
    app.move_selection_down();
    let writes = app.toggle_done();
    assert_eq!(
        writes,
        vec![
            DbWrite::SetDone { id: 5, done: false },
            DbWrite::SetPosition { id: 5, position: 4 },
        ]
    );
    assert_eq!(titles(&app.active), vec!["Write tests", "Fix login bug", "Update deps", "Update docs"]);
    assert_eq!(app.active[3].position, 4);
    assert!(!app.active[3].done);
    assert_eq!(titles(&app.done), vec!["Set up CI"]);
    assert_eq!(app.done_state, Some(0));
}

#[test]
fn undo_of_completion_restores_both_lists() {
    let mut app = sample();
    app.active_state = Some(1);
    app.toggle_done();
    let writes = app.undo();
    assert_eq!(writes, vec![DbWrite::SetDone { id: 2, done: false }]);
    assert_eq!(titles(&app.active), vec!["Write tests", "Fix login bug", "Update deps"]);
    assert_eq!(titles(&app.done), vec!["Set up CI", "Update docs"]);
    assert!(!app.active[1].done);
}

#[test]
fn delete_asks_then_removes_and_undo_restores() {
    let mut app = sample();
    app.active_state = Some(1);
    app.start_delete();
    assert_eq!(app.mode, Mode::Confirm);
    assert_eq!(app.pending_delete, Some((2, "Fix login bug".to_string())));
    let writes = app.confirm_delete();
    assert_eq!(writes, vec![DbWrite::Delete { id: 2 }]);
    assert_eq!(app.mode, Mode::Normal);
    assert_eq!(titles(&app.active), vec!["Write tests", "Update deps"]);
    let writes = app.undo();
    assert_eq!(writes, vec![DbWrite::Restore { task: task(2, "Fix login bug", 2) }]);
    assert_eq!(titles(&app.active), vec!["Write tests", "Fix login bug", "Update deps"]);
}

#[test]
fn undo_of_deleting_a_completed_task_puts_it_in_front() {
    let mut app = sample();
    app.switch_focus();
    app.move_selection_down();
    app.start_delete();
    app.confirm_delete();
    assert_eq!(titles(&app.done), vec!["Set up CI"]);
    app.undo();
    assert_eq!(titles(&app.done), vec!["Update docs", "Set up CI"]);
}

#[test]
fn cancel_confirm_keeps_the_task() {
    let mut app = sample();
    app.start_delete();
    app.cancel_confirm();
    assert_eq!(app.pending_delete, None);
    assert_eq!(app.mode, Mode::Normal);
    assert_eq!(app.active.len(), 3);
}

#[test]
fn new_task_is_trimmed_positioned_and_selected() {
    let mut app = sample();
    app.filter = "zzz".to_string();
    app.start_input();
    for c in "  Plan trip ".chars() {
        app.type_char(c);
    }
    app.erase_char();
    app.type_char(' ');
    let (title, position) = app.confirm_input().unwrap();
    assert_eq!(title, "Plan trip");
    assert_eq!(position, 4);
    assert_eq!(app.mode, Mode::Normal);
    assert_eq!(app.input, "");
    app.add_task(9, title, position, "2024-06-01".to_string());
    assert_eq!(app.filter, "");
    assert_eq!(app.active_state, Some(3));
    assert_eq!(app.active[3].title, "Plan trip");
    assert_eq!(app.active[3].created_at, "2024-06-01");
    assert!(app.active[3].notes.is_empty() && app.active[3].tags.is_empty());
}

#[test]
fn blank_title_adds_nothing() {
    let mut app = sample();
    app.start_input();
    app.type_char(' ');
    assert_eq!(app.confirm_input(), None);
    let mut empty = App::new(Vec::new(), Vec::new());
    empty.start_input();
    empty.type_char('x');
    assert_eq!(empty.confirm_input(), Some(("x".to_string(), 1)));
}

#[test]
fn rename_and_undo() {
    let mut app = sample();
    app.start_edit_title();
    assert_eq!(app.input, "Write tests");
    assert_eq!(app.mode, Mode::EditTitle);
    app.input = "  Write more tests ".to_string();
    let writes = app.confirm_edit_title();
    assert_eq!(writes, vec![DbWrite::UpdateTitle { id: 1, title: "Write more tests".to_string() }]);
    assert_eq!(app.active[0].title, "Write more tests");
    let writes = app.undo();
    assert_eq!(writes, vec![DbWrite::UpdateTitle { id: 1, title: "Write tests".to_string() }]);
    assert_eq!(app.active[0].title, "Write tests");
}

#[test]
fn blank_rename_is_ignored() {
    let mut app = sample();
    app.start_edit_title();
    app.input = "   ".to_string();
    assert!(app.confirm_edit_title().is_empty());
    assert_eq!(app.active[0].title, "Write tests");
    app.start_edit_title();
    app.cancel_edit_title();
    assert_eq!(app.mode, Mode::Normal);
}

#[test]
fn tags_edit_stores_comma_joined_and_roundtrips() {
    let mut app = sample();
    app.start_edit_tags();
    assert_eq!(app.input, "");
    app.input = " work, urgent ,, home".to_string();
    let writes = app.confirm_edit_tags();
    assert_eq!(writes, vec![DbWrite::SetTags { id: 1, tags: "work,urgent,home".to_string() }]);
    assert_eq!(app.active[0].tags, vec!["work", "urgent", "home"]);
    app.start_edit_tags();
    assert_eq!(app.input, "work, urgent, home");
    assert_eq!(app.mode, Mode::EditTags);
    app.confirm_edit_tags();
    assert_eq!(app.active[0].tags, vec!["work", "urgent", "home"]);
    app.undo();
    assert_eq!(app.active[0].tags, vec!["work", "urgent", "home"]);
    app.undo();
    assert!(app.active[0].tags.is_empty());
    app.start_edit_tags();
    app.cancel_edit_tags();
    assert_eq!(app.input, "");
}

#[test]
fn notes_edit_joins_lines_and_undo_restores() {
    let mut app = sample();
    app.start_edit_note();
    assert_eq!(app.mode, Mode::EditNote);
    assert_eq!(app.note_editor, Some(vec![String::new()]));
    let lines = vec!["Cover auth module".to_string(), "and all API endpoints.".to_string()];
    let writes = app.confirm_note(&lines);
    assert_eq!(
        writes,
        vec![DbWrite::SetNotes {
            id: 1,
            notes: "Cover auth module\nand all API endpoints.".to_string()
        }]
    );
    assert_eq!(app.selected_notes(), "Cover auth module\nand all API endpoints.");
    assert_eq!(app.note_editor, None);
    app.start_edit_note();
    assert_eq!(
        app.note_editor,
        Some(vec!["Cover auth module".to_string(), "and all API endpoints.".to_string()])
    );
    app.cancel_note();
    assert_eq!(app.mode, Mode::Normal);
    app.undo();
    assert_eq!(app.selected_notes(), "");
}

#[test]
fn confirm_note_without_editor_changes_nothing() {
    let mut app = sample();
    app.mode = Mode::EditNote;
    assert!(app.confirm_note(&vec!["x".to_string()]).is_empty());
    assert_eq!(app.mode, Mode::Normal);
    assert_eq!(app.active[0].notes, "");
}

#[test]
fn undo_of_reorder_restores_order() {
    let mut app = sample();
    app.active_state = Some(0);
    app.move_task_down();
    assert_eq!(titles(&app.active), vec!["Fix login bug", "Write tests", "Update deps"]);
    let writes = app.undo();
    assert_eq!(
        writes,
        vec![
            DbWrite::SetPosition { id: 1, position: 1 },
            DbWrite::SetPosition { id: 2, position: 2 },
        ]
    );
    assert_eq!(titles(&app.active), vec!["Write tests", "Fix login bug", "Update deps"]);
    let positions: Vec<i64> = app.active.iter().map(|t| t.position).collect();
    assert_eq!(positions, vec![1, 2, 3]);
}

#[test]
fn undo_history_keeps_the_last_twenty_steps() {
    let mut app = sample();
    for i in 0..25 {
        app.start_edit_title();
        app.input = format!("title {}", i);
        app.confirm_edit_title();
        assert!(app.undo_stack.len() <= UNDO_LIMIT);
    }
    assert_eq!(app.undo_stack.len(), UNDO_LIMIT);
    for _ in 0..UNDO_LIMIT {
        app.undo();
    }
    assert_eq!(app.active[0].title, "title 4");
    assert!(app.undo().is_empty());
    assert_eq!(app.active[0].title, "title 4");
}

#[test]
fn undo_with_empty_history_does_nothing() {
    let mut app = sample();
    assert!(app.undo().is_empty());
    assert_eq!(app.active.len(), 3);
}

fn columns_in_shape(app: &App) -> bool {
    let sorted = app.active.windows(2).all(|w| w[0].position <= w[1].position);
    let flags = app.active.iter().all(|t| !t.done) && app.done.iter().all(|t| t.done);
    let mut ids: Vec<i64> = app.active.iter().chain(app.done.iter()).map(|t| t.id).collect();
    let n = ids.len();
    ids.sort();
    ids.dedup();
    sorted && flags && ids.len() == n
}

#[test]
fn move_down_then_undo_restores_order() {
    let mut app = sample();
    app.active_state = Some(0);
    let writes = app.move_task_down();
    assert_eq!(
        writes,
        vec![
            DbWrite::SetPosition { id: 1, position: 2 },
            DbWrite::SetPosition { id: 2, position: 1 },
        ]
    );
    assert_eq!(titles(&app.active), vec!["Fix login bug", "Write tests", "Update deps"]);
    let writes = app.undo();
    assert_eq!(
        writes,
        vec![
            DbWrite::SetPosition { id: 1, position: 1 },
            DbWrite::SetPosition { id: 2, position: 2 },
        ]
    );
    assert_eq!(titles(&app.active), vec!["Write tests", "Fix login bug", "Update deps"]);
    let positions: Vec<i64> = app.active.iter().map(|t| t.position).collect();
    assert_eq!(positions, vec![1, 2, 3]);
    assert!(app.undo_stack.is_empty());
}

#[test]
fn undo_takes_back_tags_then_rename_in_that_order() {
    let mut app = sample();
    app.start_edit_title();
    app.input = "T1".to_string();
    app.confirm_edit_title();
    app.start_edit_tags();
    app.input = "x, y".to_string();
    app.confirm_edit_tags();
    assert_eq!(app.active[0].title, "T1");
    assert_eq!(app.active[0].tags, vec!["x", "y"]);
    app.undo();
    assert_eq!(app.active[0].title, "T1");
    assert!(app.active[0].tags.is_empty());
    app.undo();
    assert_eq!(app.active[0].title, "Write tests");
    assert!(app.active[0].tags.is_empty());
    assert!(app.undo_stack.is_empty());
}

#[test]
fn twenty_one_renames_keep_twenty_undo_steps() {
    let mut app = sample();
    for k in 1..=21 {
        app.start_edit_title();
        app.input = format!("t{k}");
        app.confirm_edit_title();
    }
    for _ in 0..20 {
        app.undo();
    }
    assert_eq!(app.active[0].title, "t1");
    assert!(app.undo().is_empty());
    assert_eq!(app.active[0].title, "t1");
}

#[test]
fn columns_stay_in_shape_through_every_operation() {
    let mut app = sample();
    assert!(columns_in_shape(&app));
    app.active_state = Some(0);
    app.move_task_down();
    assert!(columns_in_shape(&app));
    app.toggle_done();
    assert!(columns_in_shape(&app));
    app.switch_focus();
    app.toggle_done();
    assert!(columns_in_shape(&app));
    assert_eq!(app.active.len() + app.done.len(), 5);
    app.start_delete();
    app.confirm_delete();
    assert!(columns_in_shape(&app));
    assert_eq!(app.active.len() + app.done.len(), 4);
    app.start_edit_title();
    app.input = "Renamed".to_string();
    app.confirm_edit_title();
    assert!(columns_in_shape(&app));
    while !app.undo_stack.is_empty() {
        app.undo();
        assert!(columns_in_shape(&app));
    }
    assert_eq!(app.active.len() + app.done.len(), 5);
    let position = app.active.iter().map(|t| t.position).max().unwrap_or(0) + 1;
    app.add_task(9, "Fresh".to_string(), position, "2024-06-01".to_string());
    assert!(columns_in_shape(&app));
}
