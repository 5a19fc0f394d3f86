//! Tracks the project files of two robotics applications and keeps their
//! history in version-controlled stores.

pub mod archive;
pub mod cli;
pub mod commit;
pub mod config;
pub mod dirs;
pub mod error;
pub mod local;
pub mod project;
pub mod status;
pub mod store;
pub mod track;
pub mod untrack;
pub mod watch;
