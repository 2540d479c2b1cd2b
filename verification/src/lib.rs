//! Verified core of the ALPS task console: task-id parsing, log tailing,
//! commit-log parsing, pid bookkeeping, date arithmetic and display helpers.

pub mod calendar;
pub mod domain;
pub mod log;
pub mod task_id;
pub mod text;
pub mod fixtures;
pub mod format;
pub mod diff;
pub mod keyed;
pub mod pids;
pub mod orchestrator;
pub mod workdir;
pub mod endpoint;
pub mod forms;
pub mod presentation;
pub mod error;
