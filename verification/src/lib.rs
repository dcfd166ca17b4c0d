//! Git state for many repositories, and the decisions a keyboard-driven view of them makes.

pub mod batch;
pub mod cli;
pub mod config;
pub mod detail;
pub mod discovery;
pub mod gh;
pub mod git;
pub mod laws;
pub mod model;
pub mod ops;
pub mod patch;
pub mod path;
pub mod process;
pub mod store;
pub mod summary;
pub mod text;
pub mod ui;
pub mod watch;
