//! What each key does in each mode.

use vstd::prelude::*;

use crate::app::{App, DbWrite, Focus, Mode};
use crate::task::{positions_fit, views};
use crate::text::{spec_trim, trim};

verus! {

/// A key, as far as the bindings tell keys apart.
#[derive(Copy, Clone, Debug, PartialEq, Eq, Structural)]
pub enum Key {
    Char(char),
    Enter,
    Esc,
    Tab,
    Up,
    Down,
    Backspace,
    Other,
}

/// A pressed key and whether Ctrl was held.
#[derive(Copy, Clone, Debug, PartialEq, Eq, Structural)]
pub struct KeyPress {
    pub code: Key,
    pub ctrl: bool,
}

/// The operation a key press asks for.
#[derive(Copy, Clone, Debug, PartialEq, Eq, Structural)]
pub enum Command {
    Quit,
    StartInput,
    StartEditTitle,
    StartEditTags,
    StartSearch,
    Undo,
    ClearFilter,
    SwitchFocus,
    SelectDown,
    SelectUp,
    MoveTaskDown,
    MoveTaskUp,
    ToggleDone,
    StartDelete,
    StartEditNote,
    ConfirmDelete,
    CancelConfirm,
    ConfirmInput,
    CancelInput,
    ConfirmEditTitle,
    CancelEditTitle,
    ConfirmEditTags,
    CancelEditTags,
    /// Type a character into the prompt.
    TypeChar(char),
    /// Erase the last character of the prompt.
    EraseChar,
    ApplySearch,
    CancelSearch,
    SearchPush(char),
    SearchPop,
    SaveNote,
    CancelNote,
    /// Hand the key to the note editor.
    EditorInput,
    Nothing,
}

/// The key bindings. Ctrl+C quits in every mode.
pub open spec fn spec_command_for(mode: Mode, key: KeyPress) -> Command {
    if key.code == Key::Char('c') && key.ctrl {
        Command::Quit
    } else {
        match mode {
            Mode::Normal => match key.code {
                Key::Char('q') => Command::Quit,
                Key::Char('n') => Command::StartInput,
                Key::Char('r') => Command::StartEditTitle,
                Key::Char('t') => Command::StartEditTags,
                Key::Char('/') => Command::StartSearch,
                Key::Char('z') => if key.ctrl {
                    Command::Undo
                } else {
                    Command::Nothing
                },
                Key::Esc => Command::ClearFilter,
                Key::Tab => Command::SwitchFocus,
                Key::Down | Key::Char('j') => Command::SelectDown,
                Key::Up | Key::Char('k') => Command::SelectUp,
                Key::Char('J') => Command::MoveTaskDown,
                Key::Char('K') => Command::MoveTaskUp,
                Key::Char(' ') => Command::ToggleDone,
                Key::Char('d') => Command::StartDelete,
                Key::Char('e') => Command::StartEditNote,
                _ => Command::Nothing,
            },
            Mode::Confirm => match key.code {
                Key::Char('y') | Key::Enter => Command::ConfirmDelete,
                Key::Char('n') | Key::Esc => Command::CancelConfirm,
                _ => Command::Nothing,
            },
            Mode::Input => match key.code {
                Key::Enter => Command::ConfirmInput,
                Key::Esc => Command::CancelInput,
                Key::Char(c) => Command::TypeChar(c),
                Key::Backspace => Command::EraseChar,
                _ => Command::Nothing,
            },
            Mode::EditTitle => match key.code {
                Key::Enter => Command::ConfirmEditTitle,
                Key::Esc => Command::CancelEditTitle,
                Key::Char(c) => Command::TypeChar(c),
                Key::Backspace => Command::EraseChar,
                _ => Command::Nothing,
            },
            Mode::EditTags => match key.code {
                Key::Enter => Command::ConfirmEditTags,
                Key::Esc => Command::CancelEditTags,
                Key::Char(c) => Command::TypeChar(c),
                Key::Backspace => Command::EraseChar,
                _ => Command::Nothing,
            },
            Mode::Search => match key.code {
                Key::Enter => Command::ApplySearch,
                Key::Esc => Command::CancelSearch,
                Key::Char(c) => Command::SearchPush(c),
                Key::Backspace => Command::SearchPop,
                _ => Command::Nothing,
            },
            Mode::EditNote => if key.code == Key::Char('s') && key.ctrl {
                Command::SaveNote
            } else if key.code == Key::Esc {
                Command::CancelNote
            } else {
                Command::EditorInput
            },
        }
    }
}

/// The operation a key press asks for in the given mode.
pub fn command_for(mode: Mode, key: KeyPress) -> (c: Command)
    ensures
        c == spec_command_for(mode, key),
{
    if key.code == Key::Char('c') && key.ctrl {
        return Command::Quit;
    }
    match mode {
        Mode::Normal => match key.code {
            Key::Char('q') => Command::Quit,
            Key::Char('n') => Command::StartInput,
            Key::Char('r') => Command::StartEditTitle,
            Key::Char('t') => Command::StartEditTags,
            Key::Char('/') => Command::StartSearch,
            Key::Char('z') => if key.ctrl {
                Command::Undo
            } else {
                Command::Nothing
            },
            Key::Esc => Command::ClearFilter,
            Key::Tab => Command::SwitchFocus,
            Key::Down | Key::Char('j') => Command::SelectDown,
            Key::Up | Key::Char('k') => Command::SelectUp,
            Key::Char('J') => Command::MoveTaskDown,
            Key::Char('K') => Command::MoveTaskUp,
            Key::Char(' ') => Command::ToggleDone,
            Key::Char('d') => Command::StartDelete,
            Key::Char('e') => Command::StartEditNote,
            _ => Command::Nothing,
        },
        Mode::Confirm => match key.code {
            Key::Char('y') | Key::Enter => Command::ConfirmDelete,
            Key::Char('n') | Key::Esc => Command::CancelConfirm,
            _ => Command::Nothing,
        },
        Mode::Input => match key.code {
            Key::Enter => Command::ConfirmInput,
            Key::Esc => Command::CancelInput,
            Key::Char(c) => Command::TypeChar(c),
            Key::Backspace => Command::EraseChar,
            _ => Command::Nothing,
        },
        Mode::EditTitle => match key.code {
            Key::Enter => Command::ConfirmEditTitle,
            Key::Esc => Command::CancelEditTitle,
            Key::Char(c) => Command::TypeChar(c),
            Key::Backspace => Command::EraseChar,
            _ => Command::Nothing,
        },
        Mode::EditTags => match key.code {
            Key::Enter => Command::ConfirmEditTags,
            Key::Esc => Command::CancelEditTags,
            Key::Char(c) => Command::TypeChar(c),
            Key::Backspace => Command::EraseChar,
            _ => Command::Nothing,
        },
        Mode::Search => match key.code {
            Key::Enter => Command::ApplySearch,
            Key::Esc => Command::CancelSearch,
            Key::Char(c) => Command::SearchPush(c),
            Key::Backspace => Command::SearchPop,
            _ => Command::Nothing,
        },
        Mode::EditNote => if key.code == Key::Char('s') && key.ctrl {
            Command::SaveNote
        } else if key.code == Key::Esc {
            Command::CancelNote
        } else {
            Command::EditorInput
        },
    }
}

/// What the caller does after a key was handled.
pub enum Step {
    /// Leave the program.
    Quit,
    /// Go on, after performing these writes in order.
    Continue(Vec<DbWrite>),
    /// Store a new task with this title and position, then hand its id to `add_task`.
    Insert { title: String, position: i64 },
    /// Save the note editor's lines with `confirm_note`.
    SaveNote,
    /// Hand the key to the note editor.
    EditorInput,
}

/// The step says to go on without writes.
pub open spec fn continues(step: &Step) -> bool {
    step matches Step::Continue(w) && w@.len() == 0
}

impl App {
    /// Whether the key leads to giving a task the next free position, which
    /// must then fit an `i64`.
    pub open spec fn spec_needs_next_position(&self, key: KeyPress) -> bool {
        match spec_command_for(self.mode, key) {
            Command::ToggleDone => self.focus == Focus::Done && self.spec_done_real_idx() is Some,
            Command::ConfirmInput => spec_trim(self.input@).len() > 0,
            _ => false,
        }
    }

    /// Whether the key leads to giving a task the next free position.
    pub fn needs_next_position(&self, key: KeyPress) -> (r: bool)
        requires
            self.wf(),
        ensures
            r == self.spec_needs_next_position(key),
    {
        match command_for(self.mode, key) {
            Command::ToggleDone => self.focus == Focus::Done && self.done_real_idx().is_some(),
            Command::ConfirmInput => !trim(self.input.as_str()).as_str().is_empty(),
            _ => false,
        }
    }

    /// What `handle_key` does: the bound command's operation.
    pub open spec fn spec_handle_key(old: &App, new: &App, key: KeyPress, step: Step) -> bool {
        match spec_command_for(old.mode, key) {
            Command::Quit => step is Quit && *new == *old,
            Command::SaveNote => step is SaveNote && *new == *old,
            Command::EditorInput => step is EditorInput && *new == *old,
            Command::Nothing => continues(&step) && *new == *old,
            Command::StartInput => continues(&step) && App::spec_start_input(old, new),
            Command::StartEditTitle => continues(&step) && App::spec_start_edit_title(old, new),
            Command::StartEditTags => continues(&step) && App::spec_start_edit_tags(old, new),
            Command::StartSearch => continues(&step) && App::spec_start_search(old, new),
            Command::Undo => step matches Step::Continue(w) && App::spec_undo(old, new, w@),
            Command::ClearFilter => continues(&step) && App::spec_clear_filter(old, new),
            Command::SwitchFocus => continues(&step) && App::spec_switch_focus(old, new),
            Command::SelectDown => continues(&step) && App::spec_move_selection_down(old, new),
            Command::SelectUp => continues(&step) && App::spec_move_selection_up(old, new),
            Command::MoveTaskDown => step matches Step::Continue(w) && App::spec_move_task_down(
                old,
                new,
                w@,
            ),
            Command::MoveTaskUp => step matches Step::Continue(w) && App::spec_move_task_up(
                old,
                new,
                w@,
            ),
            Command::ToggleDone => step matches Step::Continue(w) && App::spec_toggle_done(
                old,
                new,
                w@,
            ),
            Command::StartDelete => continues(&step) && App::spec_start_delete(old, new),
            Command::StartEditNote => continues(&step) && App::spec_start_edit_note(old, new),
            Command::ConfirmDelete => step matches Step::Continue(w) && App::spec_confirm_delete(
                old,
                new,
                w@,
            ),
            Command::CancelConfirm => continues(&step) && App::spec_cancel_confirm(old, new),
            Command::ConfirmInput => {
                &&& (step is Insert || continues(&step))
                &&& App::spec_confirm_input(
                    old,
                    new,
                    match step {
                        Step::Insert { title, position } => Some((title, position)),
                        _ => None,
                    },
                )
            },
            Command::CancelInput => continues(&step) && App::spec_cancel_input(old, new),
            Command::ConfirmEditTitle => step matches Step::Continue(w)
                && App::spec_confirm_edit_title(old, new, w@),
            Command::CancelEditTitle => continues(&step) && App::spec_cancel_edit_title(old, new),
            Command::ConfirmEditTags => step matches Step::Continue(w)
                && App::spec_confirm_edit_tags(old, new, w@),
            Command::CancelEditTags => continues(&step) && App::spec_cancel_edit_tags(old, new),
            Command::TypeChar(c) => continues(&step) && App::spec_type_char(old, new, c),
            Command::EraseChar => continues(&step) && App::spec_erase_char(old, new),
            Command::ApplySearch => continues(&step) && App::spec_apply_search(old, new),
            Command::CancelSearch => continues(&step) && App::spec_cancel_search(old, new),
            Command::SearchPush(c) => continues(&step) && App::spec_search_push(old, new, c),
            Command::SearchPop => continues(&step) && App::spec_search_pop(old, new),
            Command::CancelNote => continues(&step) && App::spec_cancel_note(old, new),
        }
    }

    /// Handles one key press: looks up the bound command and performs its
    /// operation, telling the caller what is left to do.
    pub fn handle_key(&mut self, key: KeyPress) -> (step: Step)
        requires
            old(self).wf(),
            old(self).spec_needs_next_position(key) ==> positions_fit(views(old(self).active@)),
        ensures
            final(self).wf(),
            App::spec_handle_key(old(self), final(self), key, step),
    {
        let cmd = command_for(self.mode, key);
        match cmd {
            Command::Quit => Step::Quit,
            Command::SaveNote => Step::SaveNote,
            Command::EditorInput => Step::EditorInput,
            Command::Nothing => Step::Continue(Vec::new()),
            Command::StartInput => {
                self.start_input();
                Step::Continue(Vec::new())
            },
            Command::StartEditTitle => {
                self.start_edit_title();
                Step::Continue(Vec::new())
            },
            Command::StartEditTags => {
                self.start_edit_tags();
                Step::Continue(Vec::new())
            },
            Command::StartSearch => {
                self.start_search();
                Step::Continue(Vec::new())
            },
            Command::Undo => Step::Continue(self.undo()),
            Command::ClearFilter => {
                self.clear_filter();
                Step::Continue(Vec::new())
            },
            Command::SwitchFocus => {
                self.switch_focus();
                Step::Continue(Vec::new())
            },
            Command::SelectDown => {
                self.move_selection_down();
                Step::Continue(Vec::new())
            },
            Command::SelectUp => {
                self.move_selection_up();
                Step::Continue(Vec::new())
            },
            Command::MoveTaskDown => Step::Continue(self.move_task_down()),
            Command::MoveTaskUp => Step::Continue(self.move_task_up()),
            Command::ToggleDone => Step::Continue(self.toggle_done()),
            Command::StartDelete => {
                self.start_delete();
                Step::Continue(Vec::new())
            },
            Command::StartEditNote => {
                self.start_edit_note();
                Step::Continue(Vec::new())
            },
            Command::ConfirmDelete => Step::Continue(self.confirm_delete()),
            Command::CancelConfirm => {
                self.cancel_confirm();
                Step::Continue(Vec::new())
            },
            Command::ConfirmInput => match self.confirm_input() {
                Some((title, position)) => Step::Insert { title, position },
                None => Step::Continue(Vec::new()),
            },
            Command::CancelInput => {
                self.cancel_input();
                Step::Continue(Vec::new())
            },
            Command::ConfirmEditTitle => Step::Continue(self.confirm_edit_title()),
            Command::CancelEditTitle => {
                self.cancel_edit_title();
                Step::Continue(Vec::new())
            },
            Command::ConfirmEditTags => Step::Continue(self.confirm_edit_tags()),
            Command::CancelEditTags => {
                self.cancel_edit_tags();
                Step::Continue(Vec::new())
            },
            Command::TypeChar(c) => {
                self.type_char(c);
                Step::Continue(Vec::new())
            },
            Command::EraseChar => {
                self.erase_char();
                Step::Continue(Vec::new())
            },
            Command::ApplySearch => {
                self.apply_search();
                Step::Continue(Vec::new())
            },
            Command::CancelSearch => {
                self.cancel_search();
                Step::Continue(Vec::new())
            },
            Command::SearchPush(c) => {
                self.search_push(c);
                Step::Continue(Vec::new())
            },
            Command::SearchPop => {
                self.search_pop();
                Step::Continue(Vec::new())
            },
            Command::CancelNote => {
                self.cancel_note();
                Step::Continue(Vec::new())
            },
        }
    }

    /// Types a character into the prompt's input.
    pub fn type_char(&mut self, c: char)
        ensures
            App::spec_type_char(old(self), final(self), c),
    {
        self.input.push(c);
    }

    /// Erases the last character of the prompt's input, if any.
    pub fn erase_char(&mut self)
        ensures
            App::spec_erase_char(old(self), final(self)),
    {
        self.input.pop();
    }
}

impl App {
    /// What `type_char` does, from the state `old` to the state `new`.
    pub open spec fn spec_type_char(old: &App, new: &App, c: char) -> bool {
        &&& new.input@ == old.input@.push(c)
        &&& new.same_but_prompt(old)
        &&& new.pending_delete == old.pending_delete
        &&& new.mode == old.mode
    }

    /// What `erase_char` does, from the state `old` to the state `new`.
    pub open spec fn spec_erase_char(old: &App, new: &App) -> bool {
        &&& new.input@ == (if old.input@.len() > 0 {
            old.input@.drop_last()
        } else {
            old.input@
        })
        &&& new.same_but_prompt(old)
        &&& new.pending_delete == old.pending_delete
        &&& new.mode == old.mode
    }
}

} // verus!
