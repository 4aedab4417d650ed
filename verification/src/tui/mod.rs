//! State of the interactive configuration editor.

pub mod app;
pub mod forms;
pub mod runner;
