//! Structured commit history from the textual output of a revision-control
//! tool.
//!
//! The library takes the decisions and does the parsing; it reads no file
//! and starts no process. Its caller runs the tool and keeps the cache, as
//! the library tells it to.
//!
//! - [`git_collector`] holds the parameters of a collection request and
//!   what they make of the tool's output.
//! - [`collect`] is a collection request step by step: cache first, then
//!   the tool, then the cache again.
//! - [`records`] parses the history output into commits, [`changes`] the
//!   diff summary into changes per file, [`diffstat`] the statistics of one
//!   line of that summary.
//! - [`patterns`] decides which file names the configured patterns let
//!   through.
//! - [`cache`] derives cache keys and tells fresh entries from stale ones.
//! - [`tool`] says how the tool is invoked and what its outcome means.
//! - [`models`] and [`error`] are the records and failures handed out.
//! - [`text`] and [`numbers`] are the scanning and notation primitives
//!   underneath.

pub mod cache;
pub mod changes;
pub mod collect;
pub mod diffstat;
pub mod error;
pub mod git_collector;
pub mod models;
pub mod numbers;
pub mod patterns;
pub mod records;
pub mod text;
pub mod tool;
