//! Verified core of a personal note-keeping tool: one markdown note per
//! shell command, kept as a flat directory of files.

pub mod cli;
pub mod command;
pub mod directory;
pub mod dispatch;
pub mod editor;
pub mod error;
pub mod health;
pub mod names;
pub mod store;
pub mod viewer;
