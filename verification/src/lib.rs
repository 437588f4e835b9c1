//! A personal work-session tracker: a session state machine over one open
//! task and a journal of completed tasks, a terminal focus controller, and
//! a command dispatcher, with the session persisted across restarts.

pub mod clock;
pub mod codec;
pub mod command;
pub mod control;
pub mod dispatch;
pub mod errors;
pub mod state;
pub mod strutil;
pub mod tabs;
pub mod task;
pub mod ui;
pub mod utils;
