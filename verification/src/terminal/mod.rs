//! VT100 / VT220 / xterm terminal emulation.
//!
//! `ansi_parser` takes a byte stream apart, `parser` performs what was found on a `screen`, and
//! `history` adds a scrollback. `state` says what a screen is and what each operation makes of
//! it; `soundness` shows that a screen stays in good order. `laws`, `log_laws`, `feed_laws` and
//! `dirty_laws` hold what is promised of the terminal as a whole.
//!
//! What each operation is for is stated cell by cell and field by field: `sequence_laws` for what
//! the parser finds, `text_laws`, `cursor_laws`, `edit_laws`, `style_laws`, `mode_laws` and
//! `request_laws` for what it does to a screen, and `scrollback_laws` for a screen with its
//! scrollback.
use vstd::prelude::*;

pub mod ansi_parser;
pub mod cell;
pub mod charsets;
pub mod control;
pub mod cursor_laws;
pub mod cwd;
pub mod dirty_laws;
pub mod dispatch;
pub mod edit_laws;
pub mod escape;
pub mod events;
pub mod feed_laws;
pub mod graphics;
pub mod grid;
pub mod history;
pub mod laws;
pub mod log_laws;
pub mod mode_laws;
pub mod modes;
pub mod parser;
pub mod request_laws;
pub mod screen;
pub mod scrollback_laws;
pub mod sequence_laws;
pub mod soundness;
pub mod state;
pub mod style_laws;
pub mod text_laws;

pub use cell::Char;
pub use history::HistoryScreen;
pub use parser::{Parser, Stream};
pub use screen::{Cursor, Screen};
pub use state::Margins;

verus! {

} // verus!
