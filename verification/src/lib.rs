//! Core of a terminal task manager: two ordered task lists (active and
//! completed), a filter, selection handling, an undo history, and the
//! planning of the writes that keep the database in step with the lists.

pub mod actions;
pub mod app;
pub mod column_laws;
pub mod columns;
pub mod dates;
pub mod edits;
pub mod keys;
pub mod laws;
pub mod operation_laws;
pub mod order;
pub mod store;
pub mod task;
pub mod text;
pub mod undo;
pub mod undo_laws;
pub mod view;

pub use app::{App, DbWrite, Focus, Mode, UndoAction, UNDO_LIMIT};
pub use dates::{staleness, staleness_of_age, Staleness};
pub use keys::{command_for, Command, Key, KeyPress, Step};
pub use task::Task;
pub use text::{join, lines, note_lines, parse_tags, trim};
pub use view::{
    centered_area, decimal, delete_prompt, input_line, popup_area, short_date, status_help,
    task_label, Area, Popup,
};
