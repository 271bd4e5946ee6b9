//! Search through log files: what a request asks for, which files are looked into, which
//! lines are found in them, and what the client is told.
//!
//! The library works on values in memory. Its caller walks the directory tree, reads
//! files and talks to the client; `search::LogSearch` says what to do next.

pub mod calls;
pub mod course;
pub mod decode;
pub mod error;
pub mod found;
pub mod laws;
pub mod matcher;
pub mod model;
pub mod path;
pub mod query;
pub mod reply;
pub mod search;
pub mod settings;
pub mod text;
pub mod time;
