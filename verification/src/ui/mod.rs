//! The editor's state machine and what it rests on.

pub mod app_state;
pub mod clock;
pub mod history;
pub mod laws;
pub mod palette;
pub mod transitions;
