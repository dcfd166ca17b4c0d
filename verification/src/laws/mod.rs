//! What the operations are for, stated of their inputs and results.

pub mod batches;
pub mod commands;
pub mod dispatch;
pub mod keymap;
pub mod keys;
pub mod listings;
pub mod moving;
pub mod running;
pub mod settings;
pub mod showing;
pub mod staging;
pub mod status;
pub mod stores;
pub mod summaries;
pub mod switching;
pub mod text;
pub mod watching;
