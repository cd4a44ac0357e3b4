use chrono::{Datelike, NaiveDate};
use prioritize::{App, DbWrite, Step};
use prioritize::{
    centered_area, command_for, delete_prompt, input_line, popup_area, staleness, staleness_of_age,
    status_help, task_label, Area, Command, Key, KeyPress, Mode, Popup, Staleness, Task,
};

fn day(y: i32, m: u32, d: u32) -> i32 {
    NaiveDate::from_ymd_opt(y, m, d).unwrap().num_days_from_ce()
}

fn press(code: Key) -> KeyPress {
    KeyPress { code, ctrl: false }
}

fn ctrl(code: Key) -> KeyPress {
    KeyPress { code, ctrl: true }
}

#[test]
fn row_label_layout() {
    let mut t = Task {
        id: 1,
        title: "Write tests".to_string(),
        position: 1,
        done: false,
        created_at: "2024-05-20".to_string(),
        notes: "cover auth".to_string(),
        tags: Vec::new(),
    };
    assert_eq!(task_label(&t, 0), "   1.  05-20  \u{b7}  Write tests");
    t.notes.clear();
    assert_eq!(task_label(&t, 11), "  12.  05-20     Write tests");
    t.created_at.clear();
    assert_eq!(task_label(&t, 99), format!("  100.{}Write tests", " ".repeat(12)));
    assert_eq!(
        task_label(&t, 2),
        format!("  {:>2}.  {}  {}  {}", 3, "     ", " ", "Write tests")
    );
}

#[test]
fn staleness_thresholds() {
    assert_eq!(staleness_of_age(Some(13)), Staleness::Aging);
    assert_eq!(staleness_of_age(Some(14)), Staleness::Stale);
    assert_eq!(staleness_of_age(Some(7)), Staleness::Aging);
    assert_eq!(staleness_of_age(Some(6)), Staleness::Fresh);
    assert_eq!(staleness_of_age(Some(-3)), Staleness::Fresh);
    assert_eq!(staleness_of_age(None), Staleness::Fresh);
}

#[test]
fn staleness_reads_the_creation_date() {
    let today = day(2024, 6, 3);
    assert_eq!(staleness("2024-05-20", today), Staleness::Stale);
    assert_eq!(staleness("2024-05-27", today), Staleness::Aging);
    assert_eq!(staleness("2024-05-28", today), Staleness::Fresh);
    assert_eq!(staleness("2024-06-03", today), Staleness::Fresh);
    assert_eq!(staleness("", today), Staleness::Fresh);
    assert_eq!(staleness("not a date", today), Staleness::Fresh);
    assert_eq!(staleness("2024-02-30", today), Staleness::Fresh);
    assert_eq!(staleness("2023-12-31", day(2024, 1, 14)), Staleness::Stale);
}

#[test]
fn key_bindings_in_normal_mode() {
    assert_eq!(command_for(Mode::Normal, press(Key::Char('q'))), Command::Quit);
    assert_eq!(command_for(Mode::Normal, press(Key::Char('n'))), Command::StartInput);
    assert_eq!(command_for(Mode::Normal, press(Key::Char('j'))), Command::SelectDown);
    assert_eq!(command_for(Mode::Normal, press(Key::Down)), Command::SelectDown);
    assert_eq!(command_for(Mode::Normal, press(Key::Char('K'))), Command::MoveTaskUp);
    assert_eq!(command_for(Mode::Normal, press(Key::Char(' '))), Command::ToggleDone);
    assert_eq!(command_for(Mode::Normal, press(Key::Char('z'))), Command::Nothing);
    assert_eq!(command_for(Mode::Normal, ctrl(Key::Char('z'))), Command::Undo);
    assert_eq!(command_for(Mode::Normal, press(Key::Esc)), Command::ClearFilter);
    assert_eq!(command_for(Mode::Normal, press(Key::Tab)), Command::SwitchFocus);
    assert_eq!(command_for(Mode::Normal, press(Key::Char('x'))), Command::Nothing);
}

#[test]
fn key_bindings_in_prompts() {
    assert_eq!(command_for(Mode::Input, ctrl(Key::Char('c'))), Command::Quit);
    assert_eq!(command_for(Mode::Input, press(Key::Char('q'))), Command::TypeChar('q'));
    assert_eq!(command_for(Mode::Input, press(Key::Enter)), Command::ConfirmInput);
    assert_eq!(command_for(Mode::EditTitle, press(Key::Backspace)), Command::EraseChar);
    assert_eq!(command_for(Mode::EditTags, press(Key::Esc)), Command::CancelEditTags);
    assert_eq!(command_for(Mode::Search, press(Key::Char('a'))), Command::SearchPush('a'));
    assert_eq!(command_for(Mode::Confirm, press(Key::Char('y'))), Command::ConfirmDelete);
    assert_eq!(command_for(Mode::Confirm, press(Key::Esc)), Command::CancelConfirm);
    assert_eq!(command_for(Mode::EditNote, ctrl(Key::Char('s'))), Command::SaveNote);
    assert_eq!(command_for(Mode::EditNote, press(Key::Char('s'))), Command::EditorInput);
    assert_eq!(command_for(Mode::EditNote, press(Key::Esc)), Command::CancelNote);
}

#[test]
fn popups_are_centred() {
    let screen = Area { x: 0, y: 0, width: 100, height: 40 };
    assert_eq!(centered_area(60, 3, screen), Area { x: 20, y: 18, width: 60, height: 3 });
    assert_eq!(popup_area(Popup::Input, screen), Area { x: 20, y: 18, width: 60, height: 3 });
    assert_eq!(popup_area(Popup::Confirm, screen), Area { x: 23, y: 17, width: 54, height: 5 });
    assert_eq!(popup_area(Popup::NoteEditor, screen), Area { x: 3, y: 8, width: 94, height: 24 });
    let small = Area { x: 2, y: 1, width: 10, height: 6 };
    assert_eq!(popup_area(Popup::Input, small), Area { x: 4, y: 2, width: 6, height: 3 });
    assert_eq!(popup_area(Popup::NoteEditor, small), Area { x: 2, y: 1, width: 10, height: 5 });
}

#[test]
fn texts_of_the_screen() {
    assert_eq!(status_help(Mode::Confirm), " y/Enter:confirm delete  n/Esc:cancel");
    assert_eq!(status_help(Mode::Input), " Enter:confirm  Esc:cancel");
    assert_eq!(status_help(Mode::EditNote), " Ctrl+S:save  Esc:discard");
    assert_eq!(delete_prompt("Fix bug"), "\n  Delete \"Fix bug\"?\n\n      [y] Yes     [n] No");
    assert_eq!(input_line("abc"), " > abc_");
}

#[test]
fn handle_key_runs_the_bound_operation() {
    let t = |id: i64, title: &str, position: i64| Task {
        id,
        title: title.to_string(),
        position,
        done: false,
        created_at: String::new(),
        notes: String::new(),
        tags: Vec::new(),
    };
    let mut app = App::new(vec![t(1, "a", 1), t(2, "b", 2)], Vec::new());
    assert!(matches!(app.handle_key(press(Key::Char('J'))), Step::Continue(w) if w == vec![
        DbWrite::SetPosition { id: 1, position: 2 },
        DbWrite::SetPosition { id: 2, position: 1 },
    ]));
    assert_eq!(app.active[0].title, "b");
    assert!(matches!(app.handle_key(press(Key::Char('n'))), Step::Continue(w) if w.is_empty()));
    assert_eq!(app.mode, Mode::Input);
    app.handle_key(press(Key::Char('c')));
    assert!(!app.needs_next_position(press(Key::Esc)));
    assert!(app.needs_next_position(press(Key::Enter)));
    match app.handle_key(press(Key::Enter)) {
        Step::Insert { title, position } => {
            assert_eq!(title, "c");
            assert_eq!(position, 3);
        }
        _ => panic!("expected an insert"),
    }
    assert_eq!(app.mode, Mode::Normal);
    app.handle_key(press(Key::Char('e')));
    assert_eq!(app.mode, Mode::EditNote);
    assert!(matches!(app.handle_key(press(Key::Char('x'))), Step::EditorInput));
    assert!(matches!(app.handle_key(ctrl(Key::Char('s'))), Step::SaveNote));
    assert!(matches!(app.handle_key(ctrl(Key::Char('c'))), Step::Quit));
}
