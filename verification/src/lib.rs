//! Tomato: the timer, task list and focus statistics behind a pomodoro panel,
//! with their rules stated as contracts and proved.

pub mod clock;
pub mod config;
pub mod text;
pub mod stats;
pub mod timer;
pub mod todo;
pub mod ui;
