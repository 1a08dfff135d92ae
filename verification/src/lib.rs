//! Editor state for one day's schedule of work records: the record store, a
//! bounded undo/redo history, the mode and field state machine with its
//! fixed-width time entry, and the fuzzy-ranked command palette.

pub mod config;
pub mod models;
pub mod text;
pub mod ui;
