//! Tracking of tailed log files: which bytes of which file have already been
//! forwarded, how filesystem notifications change that bookkeeping, and how the
//! next batch of complete lines is cut out of a file.

pub mod event_handler;
pub mod file_reader;
pub mod models;
pub mod positions_manager;
pub mod utils;
