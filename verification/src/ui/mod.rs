//! The desktop UI: what the panels show and what the keys do.

pub mod actions;
pub mod automation;
pub mod bars;
pub mod dialog;
pub mod dialog_text;
pub mod dispatch;
pub mod keymap;
pub mod line;
pub mod lists;
pub mod main_view;
pub mod marks;
pub mod moves;
pub mod op;
pub mod overview;
pub mod panel;
pub mod popups;
pub mod repo_actions;
pub mod rows;
pub mod spans;
pub mod staging;
pub mod state;
pub mod sync;
pub mod theme;
pub mod workspace;
