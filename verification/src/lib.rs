//! Pseudo-terminals with an integrated terminal emulator.
//!
//! `terminal` emulates a terminal: bytes that a program writes become a screen of cells with its
//! scrollback. `platform`, `launch`, `command_line`, `winsize` and `errors` hold what is decided
//! around the pseudo-terminals of Unix and Windows: how children are started, watched and ended,
//! and what is said when something fails.
use vstd::prelude::*;

pub mod command_line;
pub mod errors;
pub mod launch;
pub mod platform;
pub mod terminal;
pub mod terminal_api;
pub mod text;
pub mod transfer;
pub mod utf8;
pub mod winsize;

pub use terminal::{Char, Cursor, HistoryScreen, Parser, Screen};
pub use terminal_api::TerminalState;

verus! {

} // verus!
