//! Client-side core of a text chat application: a compact tagged wire
//! codec for user commands and server events, and a terminal input editor
//! that turns keystrokes into submitted lines of text.

pub mod command;
pub mod event;
pub mod state;
pub mod wire;
