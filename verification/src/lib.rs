//! Verified core of a terminal system monitor: history buffers, tab and
//! sort-column navigation, key handling decisions, configuration
//! resolution, process ordering and filtering, the parsing of kernel files,
//! GPU process-list merging, and the exact text of byte counts, clock times,
//! frequencies, captions and gauges.

pub mod state;
pub mod text;
pub mod util;
pub mod history;
pub mod theme;
pub mod config;
pub mod app;
pub mod collector;
pub mod parse;
pub mod ui;
