//! What a screen is: the mathematical model that the contracts of `Screen` speak of.
//!
//! Each operation of the terminal is a function from a state to the state after it.
use super::cell;
use super::cell::Cell;
use super::charsets::CharsetRef;
use super::events;
use super::events::Happening;
use super::graphics;
use super::grid;
use super::modes;
use super::modes::ModeSet;
use crate::text;
use vstd::prelude::*;

verus! {

/// The scroll region: its first and its last line.
#[derive(Debug, Clone, Copy, PartialEq, Eq, Structural)]
pub struct Margins {
    pub top: usize,
    pub bottom: usize,
}

/// The shape of the cursor.
#[derive(Debug, Clone, Copy, PartialEq, Eq, Structural)]
pub enum CursorStyle {
    Default,
    Block,
    Underline,
    Beam,
}

/// How a new keyboard mode is combined with the one in force.
#[derive(Debug, Clone, Copy, PartialEq, Eq, Structural)]
pub enum KeyboardApplyBehavior {
    Replace,
    Union,
    Difference,
}

/// What saving the cursor keeps.
#[verifier::ext_equal]
pub struct SavedCursor {
    pub x: nat,
    pub y: nat,
    pub attrs: Cell,
    pub mode: ModeSet,
}

/// The primary screen while the alternate screen is shown: its rows, and where its cursor was.
pub struct Parked {
    pub buffer: Seq<Seq<Cell>>,
    pub x: int,
    pub y: int,
    pub attrs: Cell,
}

/// The state of a screen.
pub struct ScreenState {
    pub columns: int,
    pub lines: int,
    /// The rows, from the top down.
    pub buffer: Seq<Seq<Cell>>,
    /// The cursor's column; `columns` while a wrap is pending.
    pub x: int,
    pub y: int,
    /// The colours and attributes that new text gets.
    pub attrs: Cell,
    pub hidden: bool,
    pub saved: Seq<SavedCursor>,
    /// What erased cells become.
    pub default_char: Cell,
    pub mode: ModeSet,
    pub margins: Option<Margins>,
    pub tabstops: Set<usize>,
    pub g0_charset: CharsetRef,
    pub g1_charset: CharsetRef,
    pub charset: CharsetRef,
    pub charset_index: u8,
    /// The rows that changed since they were last drained.
    pub dirty: Set<usize>,
    pub icon_name: Seq<char>,
    pub title: Seq<char>,
    /// What is to be sent to the process, oldest first.
    pub replies: Seq<Seq<char>>,
    pub cursor_style: CursorStyle,
    pub cursor_blink: bool,
    pub keyboard_mode: u16,
    pub keyboard_mode_stack: Seq<u16>,
    pub alt_screen: bool,
    pub parked: Option<Parked>,
    /// The rows that left the primary screen at its top and were not collected yet.
    pub scrolled_off: Seq<Seq<Cell>>,
    pub bell: bool,
    pub cwd: Option<Seq<char>>,
    pub events: Seq<Happening>,
}

/// The smaller of two numbers.
pub open spec fn min(a: int, b: int) -> int {
    if a <= b {
        a
    } else {
        b
    }
}

/// The larger of two numbers.
pub open spec fn max(a: int, b: int) -> int {
    if a >= b {
        a
    } else {
        b
    }
}

/// A tab stop in every eighth column.
pub open spec fn default_tabstops(columns: int) -> Set<usize> {
    Set::new(|c: usize| 8 <= c < columns && c % 8 == 0)
}

/// The rows from `from` to before `to`.
pub open spec fn rows_between(from: int, to: int) -> Set<usize> {
    Set::new(|y: usize| from <= y < to)
}

/// The first tab stop at or after column `from`, or the last column.
pub open spec fn next_tab(stops: Set<usize>, from: int, columns: int) -> int
    decreases columns - from,
{
    if from >= columns {
        columns - 1
    } else if stops.contains(from as usize) {
        from
    } else {
        next_tab(stops, from + 1, columns)
    }
}

/// The colour that an extended colour sequence names: by `5` and an index into the palette, or
/// by `2` and three intensities. None where the sequence is cut short or the palette has no such
/// index.
pub open spec fn extended_color(params: Seq<u16>) -> Option<Seq<char>> {
    if params.len() >= 3 && params[1] == 5 && params[2] < 256 {
        Some(graphics::palette(params[2] as u8))
    } else if params.len() >= 5 && params[1] == 2 {
        Some(
            text::hex_rgb(
                (params[2] % 256) as u8,
                (params[3] % 256) as u8,
                (params[4] % 256) as u8,
            ),
        )
    } else {
        None
    }
}

/// How many parameters an extended colour sequence takes. One that names a colour takes them all,
/// and one that asks for the palette and ends there takes both. Any other stands alone: what
/// follows it are codes of their own.
pub open spec fn extended_color_len(params: Seq<u16>) -> int {
    if extended_color(params) is Some {
        if params[1] == 5 {
            3
        } else {
            5
        }
    } else if params.len() == 2 && params[1] == 5 {
        2
    } else {
        1
    }
}

/// The attributes after one SGR code that is no extended colour. `reset` is what code 0 sets.
pub open spec fn rendition(attrs: Cell, reset: Cell, code: u16) -> Cell {
    if code == 0 {
        reset
    } else if code == 1 {
        Cell { bold: true, ..attrs }
    } else if code == 2 {
        Cell { dim: true, ..attrs }
    } else if code == 3 {
        Cell { italics: true, ..attrs }
    } else if code == 4 {
        Cell { underscore: true, ..attrs }
    } else if code == 5 {
        Cell { blink: true, ..attrs }
    } else if code == 7 {
        Cell { reverse: true, ..attrs }
    } else if code == 8 {
        Cell { hidden: true, ..attrs }
    } else if code == 9 {
        Cell { strikethrough: true, ..attrs }
    } else if code == 22 {
        Cell { bold: false, dim: false, ..attrs }
    } else if code == 23 {
        Cell { italics: false, ..attrs }
    } else if code == 24 {
        Cell { underscore: false, ..attrs }
    } else if code == 25 {
        Cell { blink: false, ..attrs }
    } else if code == 27 {
        Cell { reverse: false, ..attrs }
    } else if code == 28 {
        Cell { hidden: false, ..attrs }
    } else if code == 29 {
        Cell { strikethrough: false, ..attrs }
    } else if 30 <= code <= 37 {
        Cell { fg: graphics::color_name(code - 30), ..attrs }
    } else if code == 39 {
        Cell { fg: "default"@, ..attrs }
    } else if 40 <= code <= 47 {
        Cell { bg: graphics::color_name(code - 40), ..attrs }
    } else if code == 49 {
        Cell { bg: "default"@, ..attrs }
    } else if 90 <= code <= 97 {
        Cell { fg: graphics::bright_name(code - 90), ..attrs }
    } else if 100 <= code <= 107 {
        Cell { bg: graphics::bright_name(code - 100), ..attrs }
    } else {
        attrs
    }
}

/// The attributes after a list of SGR codes. A code for an extended colour takes its parameters
/// with it, and changes nothing where it names no colour.
pub open spec fn renditions(attrs: Cell, reset: Cell, params: Seq<u16>) -> Cell
    decreases params.len(),
{
    if params.len() == 0 {
        attrs
    } else if params[0] == graphics::FG_256 || params[0] == graphics::BG_256 {
        let painted = match extended_color(params) {
            Some(color) => if params[0] == graphics::FG_256 {
                Cell { fg: color, ..attrs }
            } else {
                Cell { bg: color, ..attrs }
            },
            None => attrs,
        };
        renditions(painted, reset, params.skip(extended_color_len(params)))
    } else {
        renditions(rendition(attrs, reset, params[0]), reset, params.skip(1))
    }
}

/// The keyboard mode after `count` modes were popped: the last one popped, if any.
pub open spec fn popped_mode(mode: u16, stack: Seq<u16>, count: int) -> u16 {
    if count == 0 || stack.len() == 0 {
        mode
    } else {
        stack[stack.len() - min(count, stack.len() as int)]
    }
}

/// The parameter `i`, or `default` where it is missing.
pub open spec fn param(params: Seq<u16>, i: int, default: int) -> int {
    if i < params.len() {
        params[i] as int
    } else {
        default
    }
}

/// The parameter `i`, if it is there.
pub open spec fn opt_param(params: Seq<u16>, i: int) -> Option<int> {
    if i < params.len() {
        Some(params[i] as int)
    } else {
        None
    }
}

/// The modes that show the alternate screen.
pub open spec fn is_alt_mode(mode: u16) -> bool {
    mode == modes::ALT_SCREEN_1049 || mode == modes::ALT_SCREEN_1047 || mode == modes::ALT_SCREEN_47
}

impl ScreenState {
    /// A screen that was just switched on.
    pub open spec fn initial(columns: int, lines: int) -> ScreenState {
        ScreenState {
            columns,
            lines,
            buffer: grid::grid_of(Cell::blank(), lines, columns),
            x: 0,
            y: 0,
            attrs: Cell::blank(),
            hidden: false,
            saved: seq![],
            default_char: Cell::blank(),
            mode: ModeSet::initial(),
            margins: None,
            tabstops: default_tabstops(columns),
            g0_charset: CharsetRef::Ascii,
            g1_charset: CharsetRef::Ascii,
            charset: CharsetRef::Ascii,
            charset_index: 0,
            dirty: Set::empty(),
            icon_name: seq![],
            title: seq![],
            replies: seq![],
            cursor_style: CursorStyle::Default,
            cursor_blink: true,
            keyboard_mode: 0,
            keyboard_mode_stack: seq![],
            alt_screen: false,
            parked: None,
            scrolled_off: seq![],
            bell: false,
            cwd: None,
            events: seq![],
        }
    }

    /// A screen in good order: at least one cell, every row as wide as the screen, the cursor
    /// inside it, the scroll region inside it, and a parked screen of the same size exactly
    /// while the alternate screen is shown.
    pub open spec fn wf(self) -> bool {
        &&& 0 < self.columns <= usize::MAX
        &&& 0 < self.lines <= usize::MAX
        &&& grid::is_rect(self.buffer, self.lines, self.columns)
        &&& 0 <= self.x <= self.columns
        &&& 0 <= self.y < self.lines
        &&& self.margins matches Some(m) ==> m.top < m.bottom < self.lines
        &&& self.alt_screen == (self.parked is Some)
        &&& self.parked matches Some(p) ==> {
            &&& grid::is_rect(p.buffer, self.lines, self.columns)
            &&& 0 <= p.x <= self.columns
            &&& 0 <= p.y < self.lines
        }
        &&& self.events.len() <= events::MAX_EVENTS
    }

    /// The first line of the scroll region.
    pub open spec fn top(self) -> int {
        match self.margins {
            Some(m) => m.top as int,
            None => 0,
        }
    }

    /// The last line of the scroll region.
    pub open spec fn bottom(self) -> int {
        match self.margins {
            Some(m) => m.bottom as int,
            None => self.lines - 1,
        }
    }

    /// A row of erased cells.
    pub open spec fn blank_row(self) -> Seq<Cell> {
        grid::run_of(self.default_char, self.columns)
    }

    /// With the cursor at column `x` of line `y`.
    pub open spec fn at(self, x: int, y: int) -> ScreenState {
        ScreenState { x, y, ..self }
    }

    /// With the row of the cursor replaced by `row`, and marked as changed.
    pub open spec fn with_row(self, row: Seq<Cell>) -> ScreenState {
        ScreenState {
            buffer: self.buffer.update(self.y, row),
            dirty: self.dirty.insert(self.y as usize),
            ..self
        }
    }

    /// The row of the cursor.
    pub open spec fn row(self) -> Seq<Cell> {
        self.buffer[self.y]
    }

    /// With all rows marked as changed.
    pub open spec fn all_dirty(self) -> ScreenState {
        ScreenState { dirty: rows_between(0, self.lines), ..self }
    }

    /// With the cursor as at power-on: at home, visible, without attributes, none saved.
    pub open spec fn fresh_cursor(self) -> ScreenState {
        ScreenState { x: 0, y: 0, attrs: Cell::blank(), hidden: false, saved: seq![], ..self }
    }

    /// With `event` in the log.
    pub open spec fn push_event(self, event: Happening) -> ScreenState {
        ScreenState { events: events::logged(self.events, event), ..self }
    }

    /// After a bell.
    pub open spec fn ring_bell(self) -> ScreenState {
        ScreenState { bell: true, ..self }.push_event(Happening::Bell)
    }

    /// With `lines` rows of `columns` cells: what does not fit is cut off at the right and at
    /// the bottom, on the parked screen too.
    pub open spec fn resize(self, lines: int, columns: int) -> ScreenState {
        if self.lines == lines && self.columns == columns {
            self
        } else {
            let last_x = max(columns - 1, 0);
            let last_y = max(lines - 1, 0);
            ScreenState {
                lines,
                columns,
                buffer: grid::reshaped(self.buffer, lines, columns, self.default_char),
                x: min(self.x, last_x),
                y: min(self.y, last_y),
                margins: None,
                tabstops: default_tabstops(columns),
                parked: match self.parked {
                    Some(p) => Some(
                        Parked {
                            buffer: grid::reshaped(p.buffer, lines, columns, self.default_char),
                            x: min(p.x, last_x),
                            y: min(p.y, last_y),
                            attrs: p.attrs,
                        },
                    ),
                    None => None,
                },
                ..self
            }.all_dirty()
        }
    }

    /// After a full reset. The size, the working directory, the event log and a pending bell
    /// stay; a reset on the alternate screen leaves it.
    pub open spec fn reset(self) -> ScreenState {
        let cleared = ScreenState {
            buffer: grid::grid_of(Cell::blank(), self.lines, self.columns),
            default_char: Cell::blank(),
            mode: ModeSet::initial(),
            margins: None,
            tabstops: default_tabstops(self.columns),
            g0_charset: CharsetRef::Ascii,
            g1_charset: CharsetRef::Ascii,
            charset: CharsetRef::Ascii,
            charset_index: 0,
            icon_name: seq![],
            title: seq![],
            cursor_style: CursorStyle::Default,
            cursor_blink: true,
            keyboard_mode: 0,
            keyboard_mode_stack: seq![],
            alt_screen: false,
            parked: None,
            scrolled_off: seq![],
            ..self
        }.fresh_cursor().all_dirty();
        if self.alt_screen {
            cleared.push_event(Happening::AltScreen { entered: false })
        } else {
            cleared
        }
    }

    /// With the primary screen parked and an empty alternate screen in its place; nothing
    /// changes where the alternate screen is shown already.
    pub open spec fn enter_alt_screen(self) -> ScreenState {
        if self.alt_screen {
            self
        } else {
            ScreenState {
                alt_screen: true,
                parked: Some(
                    Parked { buffer: self.buffer, x: self.x, y: self.y, attrs: self.attrs },
                ),
                buffer: grid::grid_of(self.default_char, self.lines, self.columns),
                ..self
            }.all_dirty().push_event(Happening::AltScreen { entered: true })
        }
    }

    /// With the parked screen and its cursor back; nothing changes where none is parked.
    pub open spec fn exit_alt_screen(self) -> ScreenState {
        match self.parked {
            Some(p) => ScreenState {
                alt_screen: false,
                parked: None,
                buffer: p.buffer,
                x: p.x,
                y: p.y,
                attrs: p.attrs,
                ..self
            }.all_dirty().push_event(Happening::AltScreen { entered: false }),
            None => self,
        }
    }

    /// With the width set to `columns`, as switching between 80 and 132 columns does. The
    /// cursor goes home, and the scroll region is lifted.
    pub open spec fn set_width(self, columns: int) -> ScreenState {
        ScreenState {
            columns,
            buffer: grid::reshaped(self.buffer, self.lines, columns, self.default_char),
            margins: None,
            tabstops: default_tabstops(columns),
            parked: match self.parked {
                Some(p) => Some(
                    Parked {
                        buffer: grid::reshaped(p.buffer, self.lines, columns, self.default_char),
                        x: min(p.x, max(columns - 1, 0)),
                        y: min(p.y, max(self.lines - 1, 0)),
                        attrs: p.attrs,
                    },
                ),
                None => None,
            },
            ..self
        }.fresh_cursor().all_dirty()
    }

    /// After the private mode `mode` was set.
    pub open spec fn set_private_mode(self, mode: u16) -> ScreenState {
        let s = ScreenState { mode: self.mode.with_private(mode), ..self };
        if mode == modes::DECCOLM {
            let wide = s.set_width(132);
            ScreenState { buffer: grid::grid_of(s.default_char, s.lines, 132), ..wide }
        } else if mode == modes::DECOM {
            s.at(0, 0)
        } else if mode == modes::DECSCNM {
            ScreenState {
                default_char: grid::with_reverse(s.default_char, true),
                buffer: grid::reversed(s.buffer, true),
                ..s
            }.all_dirty()
        } else if mode == modes::DECTCEM {
            ScreenState { hidden: false, ..s }
        } else if is_alt_mode(mode) {
            s.enter_alt_screen()
        } else {
            s
        }
    }

    /// After the private mode `mode` was cleared.
    pub open spec fn reset_private_mode(self, mode: u16) -> ScreenState {
        let s = ScreenState { mode: self.mode.without_private(mode), ..self };
        if mode == modes::DECCOLM {
            s.set_width(80)
        } else if mode == modes::DECSCNM {
            ScreenState {
                default_char: grid::with_reverse(s.default_char, false),
                buffer: grid::reversed(s.buffer, false),
                ..s
            }.all_dirty()
        } else if mode == modes::DECTCEM {
            ScreenState { hidden: true, ..s }
        } else if is_alt_mode(mode) {
            s.exit_alt_screen()
        } else {
            s
        }
    }

    /// After a mode was set.
    pub open spec fn set_mode(self, mode: u16, private: bool) -> ScreenState {
        if private {
            self.set_private_mode(mode)
        } else {
            ScreenState { mode: self.mode.with_public(mode), ..self }
        }
    }

    /// After a mode was cleared.
    pub open spec fn reset_mode(self, mode: u16, private: bool) -> ScreenState {
        if private {
            self.reset_private_mode(mode)
        } else {
            ScreenState { mode: self.mode.without_public(mode), ..self }
        }
    }

    /// After several modes were set, in order.
    pub open spec fn set_modes(self, params: Seq<u16>, private: bool) -> ScreenState
        decreases params.len(),
    {
        if params.len() == 0 {
            self
        } else {
            self.set_modes(params.drop_last(), private).set_mode(params.last(), private)
        }
    }

    /// After several modes were cleared, in order.
    pub open spec fn reset_modes(self, params: Seq<u16>, private: bool) -> ScreenState
        decreases params.len(),
    {
        if params.len() == 0 {
            self
        } else {
            self.reset_modes(params.drop_last(), private).reset_mode(params.last(), private)
        }
    }

    /// With the scroll region from line `top` to line `bottom`, counted from one, where that is
    /// a region of two lines or more inside the screen. Two zeros lift the scroll region.
    pub open spec fn set_margins(self, top: Option<int>, bottom: Option<int>) -> ScreenState {
        let t = max(
            match top {
                Some(v) => v,
                None => 1,
            } - 1,
            0,
        );
        let b = max(
            match bottom {
                Some(v) => v,
                None => self.lines,
            } - 1,
            0,
        );
        if top == Some(0int) && bottom == Some(0int) {
            ScreenState { margins: None, ..self }
        } else if t < b < self.lines {
            ScreenState {
                margins: Some(Margins { top: t as usize, bottom: b as usize }),
                ..self
            }
        } else {
            self
        }
    }

    /// With the cursor at `row` and `col`, counted from one, kept inside the screen; in origin
    /// mode the row is counted in the scroll region and kept inside it.
    pub open spec fn cursor_position(self, row: int, col: int) -> ScreenState {
        let r = max(row, 1) - 1;
        let x = min(max(col, 1) - 1, self.columns - 1);
        if self.mode.private.contains(modes::DECOM) {
            self.at(x, min(r + self.top(), self.bottom()))
        } else {
            self.at(x, min(r, self.lines - 1))
        }
    }

    /// With the cursor up to `rows` lines higher, not above the scroll region's first line.
    pub open spec fn cursor_up(self, rows: int) -> ScreenState {
        self.at(self.x, max(max(self.y - rows, 0), self.top()))
    }

    /// With the cursor up to `rows` lines lower, not below the scroll region's last line.
    pub open spec fn cursor_down(self, rows: int) -> ScreenState {
        self.at(self.x, min(self.y + rows, self.bottom()))
    }

    /// With the cursor up to `cols` columns further right.
    pub open spec fn cursor_forward(self, cols: int) -> ScreenState {
        self.at(min(self.x + cols, self.columns - 1), self.y)
    }

    /// With the cursor up to `cols` columns further left.
    pub open spec fn cursor_back(self, cols: int) -> ScreenState {
        self.at(max(self.x - cols, 0), self.y)
    }

    /// How many lines a scroll by `rows` lines moves: not more than the scroll region has.
    pub open spec fn scroll_count(self, rows: int) -> int {
        min(rows, self.bottom() - self.top() + 1)
    }

    /// With the lines of the scroll region moved up by `n`.
    pub open spec fn lifted(self, n: int) -> ScreenState {
        ScreenState {
            buffer: grid::moved_up(self.buffer, self.top(), self.bottom(), n, self.blank_row()),
            dirty: if n > 0 {
                self.dirty.union(rows_between(self.top(), self.bottom() + 1))
            } else {
                self.dirty
            },
            ..self
        }
    }

    /// With the scroll region moved up by `rows` lines. What leaves the primary screen at its
    /// top is kept for collection.
    pub open spec fn scroll_up(self, rows: int) -> ScreenState {
        let n = self.scroll_count(rows);
        ScreenState {
            scrolled_off: if self.top() == 0 && !self.alt_screen {
                self.scrolled_off + self.buffer.take(n)
            } else {
                self.scrolled_off
            },
            ..self.lifted(n)
        }
    }

    /// With the lines of the scroll region moved down by `rows`.
    pub open spec fn scroll_down(self, rows: int) -> ScreenState {
        let n = self.scroll_count(rows);
        ScreenState {
            buffer: grid::moved_down(self.buffer, self.top(), self.bottom(), n, self.blank_row()),
            dirty: if n > 0 {
                self.dirty.union(rows_between(self.top(), self.bottom() + 1))
            } else {
                self.dirty
            },
            ..self
        }
    }

    /// After a line feed: the cursor goes down, or at the last line of the scroll region the
    /// region moves up. In new-line mode the carriage returns.
    pub open spec fn linefeed(self) -> ScreenState {
        let s = if self.y < self.bottom() {
            self.at(self.x, self.y + 1)
        } else {
            self.scroll_up(1)
        };
        if self.mode.public.contains(modes::LNM) {
            s.at(0, s.y)
        } else {
            s
        }
    }

    /// After an index: the start of the next line, or at the last line of the scroll region the
    /// region moves up.
    pub open spec fn index(self) -> ScreenState {
        if self.y < self.bottom() {
            self.at(0, self.y + 1)
        } else {
            self.scroll_up(1)
        }
    }

    /// After a reverse index: the start of the line above, or at the first line of the scroll
    /// region the region scrolls down.
    pub open spec fn reverse_index(self) -> ScreenState {
        if self.y > self.top() {
            self.at(0, self.y - 1)
        } else {
            self.scroll_down(1)
        }
    }

    /// With the cursor at the next tab stop, or in the last column.
    pub open spec fn tab(self) -> ScreenState {
        self.at(next_tab(self.tabstops, self.x + 1, self.columns), self.y)
    }

    /// With a tab stop at the cursor.
    pub open spec fn set_tab_stop(self) -> ScreenState {
        ScreenState { tabstops: self.tabstops.insert(self.x as usize), ..self }
    }

    /// Without the tab stop at the cursor (0), or without any (3).
    pub open spec fn clear_tab_stop(self, mode: int) -> ScreenState {
        if mode == 0 {
            ScreenState { tabstops: self.tabstops.remove(self.x as usize), ..self }
        } else if mode == 3 {
            ScreenState { tabstops: Set::empty(), ..self }
        } else {
            self
        }
    }

    /// With the cursor's position and attributes and the modes saved.
    pub open spec fn save_cursor(self) -> ScreenState {
        ScreenState {
            saved: self.saved.push(
                SavedCursor {
                    x: self.x as nat,
                    y: self.y as nat,
                    attrs: self.attrs,
                    mode: self.mode,
                },
            ),
            ..self
        }
    }

    /// With what was saved last back in force, the position kept inside the screen and the
    /// scroll region; at home where nothing is saved.
    pub open spec fn restore_cursor(self) -> ScreenState {
        if self.saved.len() > 0 {
            let c = self.saved.last();
            ScreenState {
                x: min(c.x as int, self.columns - 1),
                y: min(max(c.y as int, self.top()), self.bottom()),
                attrs: c.attrs,
                mode: c.mode,
                saved: self.saved.drop_last(),
                ..self
            }
        } else {
            self.at(0, 0)
        }
    }

    /// With `count` blank cells (one at least) put in at the cursor.
    pub open spec fn insert_characters(self, count: int) -> ScreenState {
        let n = min(max(count, 1), self.columns - self.x);
        self.with_row(grid::opened_up(self.row(), self.x, n, self.default_char))
    }

    /// With `count` cells (one at least) taken out at the cursor.
    pub open spec fn delete_characters(self, count: int) -> ScreenState {
        let n = min(max(count, 1), self.columns - self.x);
        self.with_row(grid::closed_up(self.row(), self.x, n, self.default_char))
    }

    /// With `count` cells (one at least) erased from the cursor on.
    pub open spec fn erase_characters(self, count: int) -> ScreenState {
        let end = min(self.x + max(count, 1), self.columns);
        self.with_row(grid::filled(self.row(), self.x, end, self.default_char))
    }

    /// With the cursor's line erased: from the cursor on (0), up to the cursor (1), or whole.
    pub open spec fn erase_in_line(self, mode: int) -> ScreenState {
        if mode == 0 {
            let s = self.with_row(
                grid::filled(self.row(), self.x, self.columns, self.default_char),
            );
            s.at(min(s.x, s.columns - 1), s.y)
        } else if mode == 1 {
            self.with_row(
                grid::filled(
                    self.row(),
                    0,
                    min(self.x, self.columns - 1) + 1,
                    self.default_char,
                ),
            )
        } else {
            self.with_row(grid::filled(self.row(), 0, self.columns, self.default_char))
        }
    }

    /// With the lines from `from` to before `to` erased.
    pub open spec fn erase_lines(self, from: int, to: int) -> ScreenState {
        ScreenState {
            buffer: grid::blanked(self.buffer, from, to, self.blank_row()),
            dirty: self.dirty.union(rows_between(from, to)),
            ..self
        }
    }

    /// With the scroll region erased: from the cursor on (0), up to the cursor (1), or whole (2
    /// and 3).
    #[verifier::opaque]
    pub open spec fn erase_in_display(self, mode: int) -> ScreenState {
        if mode == 0 {
            self.with_row(
                grid::filled(self.row(), self.x, self.columns, self.default_char),
            ).erase_lines(self.y + 1, self.bottom() + 1)
        } else if mode == 1 {
            self.erase_lines(self.top(), self.y).with_row(
                grid::filled(
                    self.row(),
                    0,
                    min(self.x, self.columns - 1) + 1,
                    self.default_char,
                ),
            )
        } else if mode == 2 || mode == 3 {
            self.erase_lines(self.top(), self.bottom() + 1)
        } else {
            self
        }
    }

    /// How many lines are inserted or deleted at the cursor for `count`: one at least, and not
    /// the last line of the scroll region.
    pub open spec fn line_count(self, count: int) -> int {
        min(max(count, 1), self.bottom() - self.y)
    }

    /// With blank lines put in at the cursor, inside the scroll region.
    pub open spec fn insert_lines(self, count: int) -> ScreenState {
        let n = self.line_count(count);
        if self.y < self.top() || self.y > self.bottom() {
            self
        } else {
            ScreenState {
                buffer: grid::moved_down(self.buffer, self.y, self.bottom(), n, self.blank_row()),
                dirty: if n > 0 {
                    self.dirty.union(rows_between(self.y, self.bottom() + 1))
                } else {
                    self.dirty
                },
                x: 0,
                ..self
            }
        }
    }

    /// With lines taken out at the cursor, inside the scroll region.
    pub open spec fn delete_lines(self, count: int) -> ScreenState {
        let n = self.line_count(count);
        if self.y < self.top() || self.y > self.bottom() {
            self
        } else {
            ScreenState {
                buffer: grid::moved_up(self.buffer, self.y, self.bottom(), n, self.blank_row()),
                dirty: if n > 0 {
                    self.dirty.union(rows_between(self.y, self.bottom() + 1))
                } else {
                    self.dirty
                },
                x: 0,
                ..self
            }
        }
    }

    /// After a wrap, where one is pending: the start of the next line, or of the last one.
    pub open spec fn wrapped(self) -> ScreenState {
        if self.x >= self.columns {
            self.at(0, min(self.y + 1, self.lines - 1))
        } else {
            self
        }
    }

    /// With `c`, which has no width, joined to the character before the cursor.
    pub open spec fn joined(self, c: char) -> ScreenState {
        if self.x > 0 {
            let before = self.row()[self.x - 1];
            let cell = Cell { data: before.data.push(c), ..before };
            ScreenState {
                buffer: self.buffer.update(self.y, self.row().update(self.x - 1, cell)),
                dirty: self.dirty.insert(self.y as usize),
                ..self
            }
        } else {
            self
        }
    }

    /// With room made at the cursor, where insert mode asks for it: for a narrow character only.
    pub open spec fn opened(self, width: int) -> ScreenState {
        if width == 1 && self.mode.public.contains(modes::IRM) {
            self.insert_characters(1)
        } else {
            self
        }
    }

    /// With `c` in the cell at the cursor; a wide one blanks the cell to its right.
    pub open spec fn put(self, c: char, width: int) -> ScreenState {
        let written = self.row().update(self.x, Cell { data: seq![c], ..self.attrs });
        if width >= 2 && self.x + 1 < self.columns {
            self.with_row(written.update(self.x + 1, self.default_char))
        } else {
            self.with_row(written)
        }
    }

    /// With the cursor after a character of `width` columns that was written at it: a narrow one
    /// moves it on, without wrapping not beyond the last column.
    pub open spec fn advanced(self, width: int) -> ScreenState {
        if width == 1 {
            if self.mode.private.contains(modes::DECAWM) {
                self.at(self.x + 1, self.y)
            } else {
                self.at(min(self.x + 1, self.columns - 1), self.y)
            }
        } else {
            self
        }
    }

    /// With the character `c`, which takes `width` columns, written at the cursor.
    ///
    /// A character without a width joins the one before it. A wide one leaves the cursor where
    /// it is.
    pub open spec fn draw_sized(self, c: char, width: int) -> ScreenState {
        if width == 0 {
            self.joined(c)
        } else {
            self.wrapped().opened(width).put(c, width).advanced(width)
        }
    }

    /// The character that stands for `c` on the screen: what the character set in force shows
    /// for an ASCII character, and any other character itself.
    pub open spec fn shown(self, c: char) -> char {
        if (c as u32) < 0x80 {
            self.charset.shows(c as u8)
        } else {
            c
        }
    }

    /// With the character `c` written at the cursor, as the character set in force shows it.
    pub open spec fn draw_char(self, c: char) -> ScreenState {
        self.draw_sized(self.shown(c), cell::columns_of(c) as int)
    }

    /// With the characters of `s` written, in order.
    pub open spec fn draw(self, s: Seq<char>) -> ScreenState
        decreases s.len(),
    {
        if s.len() == 0 {
            self
        } else {
            self.draw(s.drop_last()).draw_char(s.last())
        }
    }

    /// With every cell an `E`, and the cursor at home.
    pub open spec fn alignment_display(self) -> ScreenState {
        ScreenState {
            buffer: grid::grid_of(
                Cell { data: seq!['E'], ..self.default_char },
                self.lines,
                self.columns,
            ),
            dirty: self.dirty.union(rows_between(0, self.lines)),
            x: 0,
            y: 0,
            ..self
        }
    }

    /// With `reply` queued for the process.
    pub open spec fn reply(self, reply: Seq<char>) -> ScreenState {
        ScreenState { replies: self.replies.push(reply), ..self }
    }

    /// The line of the cursor as it is reported: counted from one, in origin mode from the
    /// start of the scroll region.
    pub open spec fn reported_row(self) -> int {
        if self.mode.private.contains(modes::DECOM) {
            max(self.y - self.top(), 0) + 1
        } else {
            self.y + 1
        }
    }

    /// After a status request: the terminal is well (5), or where the cursor is (6).
    pub open spec fn report_device_status(self, request: int) -> ScreenState {
        if request == 5 {
            self.reply("\x1b[0n"@)
        } else if request == 6 {
            self.reply(
                seq!['\x1b', '['] + text::decimal(self.reported_row() as nat) + seq![';']
                    + text::decimal((self.x + 1) as nat) + seq!['R'],
            )
        } else {
            self
        }
    }

    /// After a request for the terminal's identity.
    pub open spec fn identify(self) -> ScreenState {
        self.reply("\x1b[?6c"@)
    }

    /// With the cursor's shape set by its number. Zero and the odd numbers blink.
    pub open spec fn set_cursor_style(self, id: int) -> ScreenState {
        ScreenState {
            cursor_style: if id == 1 || id == 2 {
                CursorStyle::Block
            } else if id == 3 || id == 4 {
                CursorStyle::Underline
            } else if id == 5 || id == 6 {
                CursorStyle::Beam
            } else {
                CursorStyle::Default
            },
            cursor_blink: id == 0 || id == 1 || id == 3 || id == 5,
            ..self
        }
    }

    /// With the keyboard mode combined with `mode`.
    pub open spec fn set_keyboard_mode(
        self,
        mode: u16,
        behavior: KeyboardApplyBehavior,
    ) -> ScreenState {
        ScreenState {
            keyboard_mode: match behavior {
                KeyboardApplyBehavior::Replace => mode,
                KeyboardApplyBehavior::Union => self.keyboard_mode | mode,
                KeyboardApplyBehavior::Difference => self.keyboard_mode & !mode,
            },
            ..self
        }
    }

    /// With `mode` on the stack of keyboard modes.
    pub open spec fn push_keyboard_mode(self, mode: u16) -> ScreenState {
        ScreenState { keyboard_mode_stack: self.keyboard_mode_stack.push(mode), ..self }
    }

    /// With `count` keyboard modes popped; the last one popped is in force.
    pub open spec fn pop_keyboard_modes(self, count: int) -> ScreenState {
        let stack = self.keyboard_mode_stack;
        ScreenState {
            keyboard_mode: popped_mode(self.keyboard_mode, stack, count),
            keyboard_mode_stack: stack.take(stack.len() - min(count, stack.len() as int)),
            ..self
        }
    }

    /// After a request for the keyboard mode.
    pub open spec fn report_keyboard_mode(self) -> ScreenState {
        self.reply(
            seq!['\x1b', '['] + text::decimal(self.keyboard_mode as nat) + seq![
                ';', '1', ';', '0', ' ', 'u',
            ],
        )
    }

    /// With a new icon name.
    pub open spec fn set_icon_name(self, name: Seq<char>) -> ScreenState {
        ScreenState { icon_name: name, ..self }.push_event(Happening::IconChanged(name))
    }

    /// With a new title.
    pub open spec fn set_title(self, title: Seq<char>) -> ScreenState {
        ScreenState { title, ..self }.push_event(Happening::TitleChanged(title))
    }

    /// With the working directory `path`; only a change of it is an event.
    pub open spec fn set_cwd(self, path: Seq<char>) -> ScreenState {
        if self.cwd == Some(path) {
            self
        } else {
            ScreenState { cwd: Some(path), ..self }.push_event(Happening::CwdChanged(path))
        }
    }

    /// With the character set that `designator` names as G0 (target `(`), which is put in force,
    /// or as G1 (target `)`).
    pub open spec fn define_charset(self, designator: Seq<char>, target: char) -> ScreenState {
        let code = if designator.len() > 0 {
            designator[0]
        } else {
            'B'
        };
        match CharsetRef::designated(code) {
            Some(set) => if target == '(' {
                ScreenState { g0_charset: set, charset: set, ..self }
            } else if target == ')' {
                ScreenState { g1_charset: set, ..self }
            } else {
                self
            },
            None => self,
        }
    }

    /// After the SGR codes `params`.
    pub open spec fn select_graphic_rendition(self, params: Seq<u16>) -> ScreenState {
        let reset = if self.mode.private.contains(modes::DECSCNM) {
            Cell { reverse: true, ..self.default_char }
        } else {
            self.default_char
        };
        ScreenState { attrs: renditions(self.attrs, reset, params), ..self }
    }

    /// After the keyboard or cursor request that ends in `u`.
    #[verifier::opaque]
    pub open spec fn csi_u(self, params: Seq<u16>, intermediates: Seq<u8>) -> ScreenState {
        if intermediates == seq![0x3fu8] {
            self.report_keyboard_mode()
        } else if intermediates == seq![0x3eu8] {
            self.push_keyboard_mode(param(params, 0, 0) as u16)
        } else if intermediates == seq![0x3cu8] {
            self.pop_keyboard_modes(param(params, 0, 1))
        } else if intermediates.len() == 0 && params.len() >= 2 && params[1] == 0 {
            let behavior = param(params, 2, 0);
            self.set_keyboard_mode(
                params[0],
                if behavior == 3 {
                    KeyboardApplyBehavior::Difference
                } else if behavior == 2 {
                    KeyboardApplyBehavior::Union
                } else {
                    KeyboardApplyBehavior::Replace
                },
            )
        } else {
            self.restore_cursor()
        }
    }

    /// After a control sequence that moves the cursor.
    #[verifier::opaque]
    pub open spec fn csi_move(self, params: Seq<u16>, action: char) -> ScreenState {
        let n = param(params, 0, 1);
        if action == 'A' {
            self.cursor_up(n)
        } else if action == 'B' || action == 'e' {
            self.cursor_down(n)
        } else if action == 'C' || action == 'a' {
            self.cursor_forward(n)
        } else if action == 'D' {
            self.cursor_back(n)
        } else if action == 'E' {
            let s = self.cursor_down(n);
            s.at(0, s.y)
        } else if action == 'F' {
            let s = self.cursor_up(n);
            s.at(0, s.y)
        } else if action == 'G' {
            self.cursor_position(self.y + 1, n)
        } else if action == 'd' {
            self.cursor_position(n, self.x + 1)
        } else {
            self.cursor_position(n, param(params, 1, 1))
        }
    }

    /// After a control sequence that edits the screen.
    #[verifier::opaque]
    pub open spec fn csi_edit(self, params: Seq<u16>, action: char) -> ScreenState {
        let n = param(params, 0, 1);
        if action == 'J' {
            self.erase_in_display(param(params, 0, 0))
        } else if action == 'K' {
            self.erase_in_line(param(params, 0, 0))
        } else if action == 'X' {
            self.erase_characters(n)
        } else if action == 'P' {
            self.delete_characters(n)
        } else if action == '@' {
            self.insert_characters(n)
        } else if action == 'L' {
            self.insert_lines(n)
        } else if action == 'M' {
            self.delete_lines(n)
        } else if action == 'S' {
            self.scroll_up(n)
        } else {
            self.scroll_down(n)
        }
    }

    /// After the control sequence that ends in `action`.
    #[verifier::opaque]
    pub open spec fn csi_dispatch(
        self,
        params: Seq<u16>,
        intermediates: Seq<u8>,
        action: char,
    ) -> ScreenState {
        let private = intermediates == seq![0x3fu8];
        if is_move(action) {
            self.csi_move(params, action)
        } else if is_edit(action) {
            self.csi_edit(params, action)
        } else if action == 'm' {
            self.select_graphic_rendition(params)
        } else if action == 'h' {
            self.set_modes(params, private)
        } else if action == 'l' {
            self.reset_modes(params, private)
        } else if action == 'r' {
            self.set_margins(opt_param(params, 0), opt_param(params, 1)).cursor_position(1, 1)
        } else if action == 's' {
            self.save_cursor()
        } else if action == 'u' {
            self.csi_u(params, intermediates)
        } else if action == 'g' {
            self.clear_tab_stop(param(params, 0, 0))
        } else if action == 'n' {
            self.report_device_status(param(params, 0, 0))
        } else if action == '8' {
            self.alignment_display()
        } else if action == 'c' {
            self.identify()
        } else if action == 'q' && intermediates == seq![0x20u8] {
            self.set_cursor_style(param(params, 0, 0))
        } else {
            self
        }
    }
}

/// The final characters of the control sequences that move the cursor.
pub open spec fn is_move(action: char) -> bool {
    ||| 'A' <= action <= 'H'
    ||| action == 'a'
    ||| 'd' <= action <= 'f'
}

/// The final characters of the control sequences that edit the screen.
pub open spec fn is_edit(action: char) -> bool {
    ||| action == 'J'
    ||| action == 'K'
    ||| action == 'X'
    ||| action == 'P'
    ||| action == '@'
    ||| action == 'L'
    ||| action == 'M'
    ||| action == 'S'
    ||| action == 'T'
}

} // verus!
