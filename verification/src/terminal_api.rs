//! A terminal with its scrollback, as front-ends use it.
use crate::terminal::ansi_parser;
use crate::terminal::ansi_parser::Machine;
use crate::terminal::events;
use crate::terminal::events::{Happening, TermEvent};
use crate::terminal::feed_laws;
use crate::terminal::grid;
use crate::terminal::history;
use crate::terminal::history::{HistoryScreen, HistoryState};
use crate::terminal::modes;
use crate::terminal::parser::Parser;
use crate::terminal::screen;
use crate::terminal::state::{CursorStyle, ScreenState};
use crate::text;
use vstd::prelude::*;

verus! {

/// A terminal screen with its scrollback, and the parser that feeds it.
pub struct TerminalState {
    screen: HistoryScreen,
    parser: Parser,
}

/// What a terminal is: its screen with the scrollback, and how far its parser has come.
#[verifier::ext_equal]
pub struct Terminal {
    /// The screen with its scrollback.
    pub content: HistoryState,
    /// What the parser has collected of a sequence.
    pub machine: Machine,
    /// The bytes of a character that is not complete yet.
    pub partial: Seq<u8>,
}

impl Terminal {
    /// The screen is in good order, the scrollback within its limit, and the parser within its
    /// bounds.
    pub open spec fn wf(self) -> bool {
        &&& self.content.wf()
        &&& self.machine.wf()
        &&& ansi_parser::holds_a_start(self.machine, self.partial)
    }

    /// With another screen and scrollback.
    pub open spec fn with(self, content: HistoryState) -> Terminal {
        Terminal { content, ..self }
    }

    /// After reading `data`, where the parser left off.
    pub open spec fn feed(self, data: Seq<u8>) -> Terminal {
        let read = ansi_parser::resume(self.machine, self.partial, data);
        Terminal {
            content: self.content.feed_from(self.machine, self.partial, data),
            machine: read.machine,
            partial: read.partial,
        }
    }
}

/// However the input to a terminal is cut in two, the terminal ends in the same state. The
/// exceptions are a C1 control cut between its two bytes, and characters that are passed over
/// behind one that was cut.
pub proof fn a_terminal_may_be_fed_in_pieces(t: Terminal, a: Seq<u8>, b: Seq<u8>)
    requires
        t.wf(),
        ansi_parser::cut_is_harmless(t.machine, t.partial, a, b),
    ensures
        t.feed(a + b) == t.feed(a).feed(b),
{
    ansi_parser::input_may_be_cut(t.machine, t.partial, a, b);
    feed_laws::feeding_with_a_scrollback_may_be_cut(t.machine, t.partial, t.content, a, b);
}

impl View for TerminalState {
    type V = Terminal;

    closed spec fn view(&self) -> Terminal {
        Terminal {
            content: self.screen@,
            machine: self.parser.machine(),
            partial: self.parser.partial(),
        }
    }
}

impl TerminalState {
    /// A blank screen with an empty scrollback of `scrollback_lines` lines, or without a limit
    /// where that is 0.
    pub fn new(columns: usize, lines: usize, scrollback_lines: usize) -> (r: Self)
        ensures
            r@.content == (HistoryState {
                screen: ScreenState::initial(columns as int, lines as int),
                history: seq![],
                limit: scrollback_lines as int,
                grown: 0,
            }),
            r@.machine == Machine::initial(),
            r@.partial == Seq::<u8>::empty(),
            columns > 0 && lines > 0 ==> r@.wf(),
    {
        TerminalState {
            screen: HistoryScreen::new(columns, lines, scrollback_lines),
            parser: Parser::new(),
        }
    }

    /// Reads bytes that came from the pseudo-terminal. A sequence may be cut between two calls.
    pub fn feed(&mut self, data: &[u8])
        requires
            old(self)@.wf(),
        ensures
            final(self)@ == old(self)@.feed(data@),
            final(self)@.wf(),
    {
        self.screen.feed_through(&mut self.parser, data);
    }

    /// The text of all lines: the scrollback, then the screen.
    pub fn display(&self) -> (rows: Vec<String>)
        ensures
            grid::texts(rows@) == grid::rows_text(self@.content.all_lines()),
    {
        self.screen.display()
    }

    /// The text of the screen's lines.
    pub fn visible_display(&self) -> (rows: Vec<String>)
        ensures
            grid::texts(rows@) == grid::rows_text(self@.content.screen.buffer),
    {
        self.screen.visible_display()
    }

    /// The text of the scrollback's lines.
    pub fn history_display(&self) -> (rows: Vec<String>)
        ensures
            grid::texts(rows@) == grid::rows_text(self@.content.history),
    {
        self.screen.history_display()
    }

    /// The rows that changed since they were last drained, in ascending order.
    pub fn dirty(&self) -> (rows: Vec<usize>)
        ensures
            forall|y: usize|
                #[trigger] rows@.contains(y) <==> self@.content.screen.dirty.contains(y),
            forall|i: int, j: int| 0 <= i < j < rows@.len() ==> rows@[i] < rows@[j],
    {
        screen::ascending(self.screen.dirty())
    }

    /// Gives the screen another size.
    pub fn resize(&mut self, lines: usize, columns: usize)
        requires
            old(self)@.wf() || old(self)@.content.can_shrink(),
        ensures
            final(self)@ == old(self)@.with(
                old(self)@.content.resize(lines as int, columns as int),
            ),
            old(self)@.wf() && lines > 0 && columns > 0 ==> final(self)@.wf(),
    {
        self.screen.resize(lines, columns);
    }

    /// Clears the screen and the scrollback, and forgets what was read of a sequence.
    pub fn reset(&mut self)
        ensures
            final(self)@.content == (HistoryState {
                screen: old(self)@.content.screen.reset(),
                history: seq![],
                ..old(self)@.content
            }),
            final(self)@.machine == Machine::initial(),
            final(self)@.partial == Seq::<u8>::empty(),
            old(self)@.content.wf() ==> final(self)@.wf(),
    {
        self.screen.reset();
        self.parser.reset();
    }

    /// The cursor's column.
    pub fn cursor_x(&self) -> (x: usize)
        ensures
            x == self@.content.screen.x,
    {
        self.screen.cursor().x
    }

    /// The cursor's line on the screen.
    pub fn cursor_y(&self) -> (y: usize)
        ensures
            y == self@.content.screen.y,
    {
        self.screen.cursor().y
    }

    /// The window title.
    pub fn title(&self) -> (title: String)
        ensures
            title@ == self@.content.screen.title,
    {
        self.screen.title().to_string()
    }

    /// How many lines the scrollback holds.
    pub fn history_size(&self) -> (n: usize)
        ensures
            n == self@.content.history.len(),
    {
        self.screen.history_size()
    }

    /// How many lines the scrollback keeps; 0 is without limit.
    pub fn scrollback_lines(&self) -> (n: usize)
        ensures
            n == self@.content.limit,
    {
        self.screen.scrollback_lines()
    }

    /// Sets how many lines the scrollback keeps; the oldest ones go where there are more.
    pub fn set_scrollback_lines(&mut self, lines: usize)
        ensures
            final(self)@ == old(self)@.with(
                (HistoryState {
                    limit: lines as int,
                    history: history::trimmed(old(self)@.content.history, lines as int),
                    ..old(self)@.content
                }),
            ),
            old(self)@.wf() ==> final(self)@.wf(),
    {
        self.screen.set_scrollback_lines(lines);
    }

    /// All lines, with colours and attributes.
    pub fn styled_viewport(&self) -> (rows: Vec<Vec<(String, String, String, u8)>>)
        ensures
            history::packed_view(rows@) == history::packed_rows(self@.content.all_lines()),
    {
        self.screen.styled_viewport()
    }

    /// How many lines there are in all.
    pub fn total_lines(&self) -> (n: usize)
        requires
            self@.content.history.len() + self@.content.screen.lines <= usize::MAX,
        ensures
            n == self@.content.history.len() + self@.content.screen.lines,
    {
        self.screen.total_lines()
    }

    /// The cursor's column, and its line counted from the start of the scrollback.
    pub fn absolute_cursor(&self) -> (at: (usize, usize))
        requires
            self@.content.history.len() + self@.content.screen.y <= usize::MAX,
        ensures
            at.0 == self@.content.screen.x,
            at.1 == self@.content.history.len() + self@.content.screen.y,
    {
        self.screen.absolute_cursor()
    }

    /// Whether the cursor keys send application sequences.
    pub fn app_cursor(&self) -> (b: bool)
        ensures
            b == self@.content.screen.mode.private.contains(modes::DECCKM),
    {
        self.screen.mode().has_private(modes::DECCKM)
    }

    /// Whether the cursor is to be seen.
    pub fn cursor_visible(&self) -> (b: bool)
        ensures
            b == self@.content.screen.mode.private.contains(modes::DECTCEM),
    {
        self.screen.mode().has_private(modes::DECTCEM)
    }

    /// Whether pasted text is bracketed.
    pub fn bracketed_paste(&self) -> (b: bool)
        ensures
            b == self@.content.screen.mode.private.contains(modes::BRACKETED_PASTE),
    {
        self.screen.mode().has_private(modes::BRACKETED_PASTE)
    }

    /// Whether the mouse is reported in the SGR encoding.
    pub fn sgr_mouse(&self) -> (b: bool)
        ensures
            b == self@.content.screen.mode.private.contains(modes::SGR_MOUSE),
    {
        self.screen.mode().sgr_mouse()
    }

    /// Whether the alternate screen is shown.
    pub fn alt_screen(&self) -> (b: bool)
        ensures
            b == self@.content.screen.alt_screen,
    {
        self.screen.alt_screen()
    }

    /// The mouse tracking mode that takes precedence among those set, or 0.
    pub fn mouse_proto(&self) -> (mode: u16)
        ensures
            mode == self@.content.screen.mode.mouse_mode(),
    {
        self.screen.mode().mouse_protocol()
    }

    /// The name of the cursor's shape.
    pub fn cursor_shape(&self) -> (name: &'static str)
        ensures
            name@ == match self@.content.screen.cursor_style {
                CursorStyle::Underline => "underline"@,
                CursorStyle::Beam => "bar"@,
                CursorStyle::Block => "block"@,
                CursorStyle::Default => "block"@,
            },
    {
        self.screen.cursor_shape()
    }

    /// Whether the cursor blinks.
    pub fn cursor_blink(&self) -> (b: bool)
        ensures
            b == self@.content.screen.cursor_blink,
    {
        self.screen.cursor_blink()
    }

    /// The working directory that the shell reported last.
    pub fn cwd(&self) -> (path: Option<&String>)
        ensures
            match path {
                Some(p) => self@.content.screen.cwd == Some(p@),
                None => self@.content.screen.cwd is None,
            },
    {
        self.screen.cwd()
    }

    /// Whether the bell rang since it was last asked for.
    pub fn take_bell(&mut self) -> (rang: bool)
        ensures
            rang == old(self)@.content.screen.bell,
            final(self)@ == old(self)@.with(
                old(self)@.content.with(
                    (ScreenState {
                        bell: false,
                        events: events::without_bells(old(self)@.content.screen.events),
                        ..old(self)@.content.screen
                    }),
                ),
            ),
            old(self)@.wf() ==> final(self)@.wf(),
    {
        self.screen.take_bell()
    }

    /// Drains the rows that changed, in ascending order.
    pub fn take_dirty_rows(&mut self) -> (rows: Vec<usize>)
        ensures
            forall|y: usize|
                #[trigger] rows@.contains(y) <==> old(self)@.content.screen.dirty.contains(y),
            forall|i: int, j: int| 0 <= i < j < rows@.len() ==> rows@[i] < rows@[j],
            final(self)@ == old(self)@.with(
                old(self)@.content.with(
                    (ScreenState { dirty: Set::empty(), ..old(self)@.content.screen }),
                ),
            ),
            old(self)@.wf() ==> final(self)@.wf(),
    {
        self.screen.take_dirty_rows()
    }

    /// Drains the log of what happened, in the order in which it did. Where the scrollback grew
    /// since the last drain, the last event says by how many lines.
    pub fn poll_events(&mut self) -> (log: Vec<TermEvent>)
        ensures
            events::happenings(log@) == (if old(self)@.content.grown > 0 {
                old(self)@.content.screen.events.push(
                    Happening::ScrollbackGrew(old(self)@.content.grown as u64),
                )
            } else {
                old(self)@.content.screen.events
            }),
            final(self)@ == old(self)@.with(
                (HistoryState {
                    screen: ScreenState {
                        bell: false,
                        events: seq![],
                        ..old(self)@.content.screen
                    },
                    grown: 0,
                    ..old(self)@.content
                }),
            ),
            old(self)@.wf() ==> final(self)@.wf(),
    {
        self.screen.take_events()
    }

    /// Drains what the terminal has to say to the process, oldest first.
    pub fn take_replies(&mut self) -> (replies: Vec<String>)
        ensures
            grid::texts(replies@) == old(self)@.content.screen.replies,
            final(self)@ == old(self)@.with(
                old(self)@.content.with(
                    (ScreenState { replies: seq![], ..old(self)@.content.screen }),
                ),
            ),
            old(self)@.wf() ==> final(self)@.wf(),
    {
        let mut replies: Vec<String> = Vec::new();
        let queue = self.screen.write_process_input();
        let ghost queued = queue@;
        replies.append(queue);
        assert(replies@ =~= queued);
        assert(grid::texts(self.screen.inner.write_process_input@) =~= seq![]);
        replies
    }

    /// The text that shows the size of the screen and how many lines the scrollback holds.
    pub fn __repr__(&self) -> (s: String)
        ensures
            s@ == "TerminalState("@ + text::decimal(self@.content.screen.columns as nat) + "x"@
                + text::decimal(self@.content.screen.lines as nat) + ", scrollback="@
                + text::decimal(self@.content.history.len()) + ")"@,
    {
        let mut s = "TerminalState(".to_string();
        text::push_decimal(&mut s, self.screen.columns() as u128);
        s.append("x");
        text::push_decimal(&mut s, self.screen.lines() as u128);
        s.append(", scrollback=");
        text::push_decimal(&mut s, self.screen.history_size() as u128);
        s.append(")");
        s
    }
}

} // verus!
