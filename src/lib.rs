//! An async-friendly line editor core: the prompt model, its history, the
//! buffer that holds background output while paused, and the decisions of the
//! task that interleaves background output with the user's input.

pub mod history;
pub mod line_state;
pub mod middleware;
pub mod pause_buffer;
pub mod readline;
pub mod terminal;
