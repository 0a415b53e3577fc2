//! A screen with a scrollback: the lines that left it at the top.
use super::ansi_parser;
use super::ansi_parser::Machine;
use super::cell::{Cell, Char};
use super::charsets::CharsetRef;
use super::events;
use super::events::{Happening, TermEvent};
use super::grid;
use super::modes::Modes;
use super::parser;
use super::parser::Parser;
use super::screen;
use super::screen::{Cursor, Screen};
use super::soundness;
use super::state;
use super::state::{CursorStyle, Margins, ScreenState};
use std::collections::{BTreeSet, HashSet};
use vstd::prelude::*;

verus! {

/// A screen with its scrollback.
pub struct HistoryScreen {
    pub inner: Screen,
    pub history: Vec<Vec<Char>>,
    pub scrollback_lines: usize,
    /// How many lines entered the scrollback since the events were last drained.
    pub grown: u64,
}

/// The state of a screen with its scrollback.
pub struct HistoryState {
    pub screen: ScreenState,
    /// The scrollback, oldest line first.
    pub history: Seq<Seq<Cell>>,
    /// How many lines the scrollback keeps; 0 is without limit.
    pub limit: int,
    pub grown: int,
}

/// A cell as it is handed out: its text, its colours, and its attributes as a bit mask.
pub type Packed = (Seq<char>, Seq<char>, Seq<char>, int);

/// A cell as it is handed out.
pub open spec fn packed(c: Cell) -> Packed {
    (c.data, c.fg, c.bg, c.attribute_bits())
}

/// Rows as they are handed out.
pub open spec fn packed_rows(rows: Seq<Seq<Cell>>) -> Seq<Seq<Packed>> {
    rows.map_values(|row: Seq<Cell>| row.map_values(|c: Cell| packed(c)))
}

/// The view of a row that was handed out.
pub open spec fn packed_row_view(row: Seq<(String, String, String, u8)>) -> Seq<Packed> {
    row.map_values(|c: (String, String, String, u8)| (c.0@, c.1@, c.2@, c.3 as int))
}

/// The view of rows that were handed out.
pub open spec fn packed_view(rows: Seq<Vec<(String, String, String, u8)>>) -> Seq<Seq<Packed>> {
    rows.map_values(|row: Vec<(String, String, String, u8)>| packed_row_view(row@))
}

/// The rows from `from` to before `to`, as far as there are that many.
pub open spec fn window<T>(rows: Seq<T>, from: int, to: int) -> Seq<T> {
    rows.subrange(
        state::min(from, rows.len() as int),
        state::min(to, rows.len() as int),
    )
}

/// The newest `limit` lines; all of them where `limit` is 0.
pub open spec fn trimmed(history: Seq<Seq<Cell>>, limit: int) -> Seq<Seq<Cell>> {
    if limit > 0 && history.len() > limit {
        history.skip(history.len() - limit)
    } else {
        history
    }
}

/// The line that the `k`-th pop of the scrollback gives, cut or padded to `columns` cells; a
/// blank line where the scrollback has run out.
pub open spec fn popped_line(
    history: Seq<Seq<Cell>>,
    k: int,
    columns: int,
    blank: Cell,
) -> Seq<Cell> {
    if k <= history.len() {
        grid::fitted(history[history.len() - k], columns, blank)
    } else {
        grid::run_of(blank, columns)
    }
}

impl HistoryState {
    /// The screen is in good order, and the scrollback within its limit.
    pub open spec fn wf(self) -> bool {
        &&& self.screen.wf()
        &&& self.limit > 0 ==> self.history.len() <= self.limit
        &&& 0 <= self.grown <= u64::MAX
    }

    /// The screen has as many rows as it has lines, and the scrollback is within its limit.
    pub open spec fn can_shrink(self) -> bool {
        &&& self.screen.buffer.len() == self.screen.lines
        &&& self.limit > 0 ==> self.history.len() <= self.limit
    }

    /// With another screen.
    pub open spec fn with(self, screen: ScreenState) -> HistoryState {
        HistoryState { screen, ..self }
    }

    /// With `lines` at the end of the scrollback.
    pub open spec fn archive(self, lines: Seq<Seq<Cell>>) -> HistoryState {
        HistoryState {
            history: trimmed(self.history + lines, self.limit),
            grown: state::min(self.grown + lines.len(), u64::MAX as int),
            ..self
        }
    }

    /// All lines: the scrollback, then the screen.
    pub open spec fn all_lines(self) -> Seq<Seq<Cell>> {
        self.history + self.screen.buffer
    }

    /// With the scroll region moved up by `rows` lines, which enter the scrollback.
    pub open spec fn scroll_up(self, rows: int) -> HistoryState {
        let s = self.screen;
        let n = s.scroll_count(rows);
        self.archive(s.buffer.subrange(s.top(), s.top() + n)).with(s.lifted(n))
    }

    /// With up to `rows` lines popped off the scrollback. Each one becomes the first line of the
    /// scroll region, whose lines move down for it.
    pub open spec fn scroll_down(self, rows: int) -> HistoryState {
        let s = self.screen;
        let n = state::min(rows, s.lines - s.top());
        if n <= 0 {
            self
        } else {
            HistoryState {
                screen: ScreenState {
                    buffer: Seq::new(
                        s.buffer.len(),
                        |y: int|
                            if y < s.top() || y > s.bottom() {
                                s.buffer[y]
                            } else if y < s.top() + n {
                                popped_line(
                                    self.history,
                                    n - (y - s.top()),
                                    s.columns,
                                    s.default_char,
                                )
                            } else {
                                s.buffer[y - n]
                            },
                    ),
                    dirty: s.dirty.union(state::rows_between(s.top(), s.bottom() + 1)),
                    ..s
                },
                history: self.history.take(
                    self.history.len() - state::min(n, self.history.len() as int),
                ),
                ..self
            }
        }
    }

    /// After an index: the next line, or the scroll region moves up into the scrollback.
    pub open spec fn index(self) -> HistoryState {
        if self.screen.y < self.screen.bottom() {
            self.with(self.screen.at(0, self.screen.y + 1))
        } else {
            self.scroll_up(1)
        }
    }

    /// After a reverse index: the line above, or a line is popped off the scrollback.
    pub open spec fn reverse_index(self) -> HistoryState {
        if self.screen.y > self.screen.top() {
            self.with(self.screen.at(0, self.screen.y - 1))
        } else {
            self.scroll_down(1)
        }
    }

    /// With another size. Where the primary screen loses lines, those below the cursor go first;
    /// the others leave at the top and enter the scrollback. Lines never come back out of it.
    pub open spec fn resize(self, lines: int, columns: int) -> HistoryState {
        let s = self.screen;
        if s.alt_screen || lines >= s.lines {
            self.with(s.resize(lines, columns))
        } else {
            let excess = s.lines - lines;
            let from_bottom = state::min(excess, state::max(s.lines - (s.y + 1), 0));
            let from_top = excess - from_bottom;
            self.archive(s.buffer.take(from_top)).with(
                ScreenState {
                    buffer: s.buffer.subrange(from_top, s.lines - from_bottom),
                    y: state::max(s.y - from_top, 0),
                    ..s
                }.resize(lines, columns),
            )
        }
    }

    /// With the lines that left the screen in the scrollback.
    pub open spec fn collect(self) -> HistoryState {
        self.archive(self.screen.scrolled_off).with(
            ScreenState { scrolled_off: seq![], ..self.screen },
        )
    }

    /// After a parser that has collected `machine` and holds `partial` has read `data`.
    pub open spec fn feed_from(
        self,
        machine: Machine,
        partial: Seq<u8>,
        data: Seq<u8>,
    ) -> HistoryState {
        self.with(parser::screen_after(machine, partial, self.screen, data)).collect()
    }

    /// After reading `data` from the start of a sequence.
    pub open spec fn feed(self, data: Seq<u8>) -> HistoryState {
        self.feed_from(Machine::initial(), seq![], data)
    }
}

impl View for HistoryScreen {
    type V = HistoryState;

    open spec fn view(&self) -> HistoryState {
        HistoryState {
            screen: self.inner@,
            history: grid::grid(self.history@),
            limit: self.scrollback_lines as int,
            grown: self.grown as int,
        }
    }
}

/// A cell as it is handed out.
fn pack_cell(c: &Char) -> (p: (String, String, String, u8))
    ensures
        (p.0@, p.1@, p.2@, p.3 as int) == packed(c@),
{
    let mut a: u8 = 0;
    if c.bold {
        a = a + 1;
    }
    if c.dim {
        a = a + 2;
    }
    if c.italics {
        a = a + 4;
    }
    if c.underscore {
        a = a + 8;
    }
    if c.blink {
        a = a + 16;
    }
    if c.reverse {
        a = a + 32;
    }
    if c.hidden {
        a = a + 64;
    }
    if c.strikethrough {
        a = a + 128;
    }
    (c.data.clone(), c.fg.clone(), c.bg.clone(), a)
}

/// A row as it is handed out.
fn pack_row(row: &Vec<Char>) -> (p: Vec<(String, String, String, u8)>)
    ensures
        packed_row_view(p@) == grid::cells(row@).map_values(|c: Cell| packed(c)),
{
    let ghost target = grid::cells(row@).map_values(|c: Cell| packed(c));
    let mut p: Vec<(String, String, String, u8)> = Vec::new();
    let mut i: usize = 0;
    assert(packed_row_view(p@) =~= target.take(0));
    while i < row.len()
        invariant
            i <= row@.len(),
            target == grid::cells(row@).map_values(|c: Cell| packed(c)),
            packed_row_view(p@) == target.take(i as int),
        decreases row@.len() - i,
    {
        let ghost step = packed_row_view(p@);
        p.push(pack_cell(&row[i]));
        i = i + 1;
        assert(packed_row_view(p@) =~= step.push(target[i - 1]));
        assert(packed_row_view(p@) =~= target.take(i as int));
    }
    assert(target.take(i as int) =~= target);
    p
}

/// Trimming as lines come in keeps the same lines as trimming at the end.
pub proof fn trimming_is_incremental(h: Seq<Seq<Cell>>, lines: Seq<Seq<Cell>>, more: Seq<
    Seq<Cell>,
>, limit: int)
    ensures
        trimmed(trimmed(h + lines, limit) + more, limit) == trimmed(h + (lines + more), limit),
{
    assert((h + lines) + more =~= h + (lines + more));
    assert(trimmed(trimmed(h + lines, limit) + more, limit) =~= trimmed(
        h + (lines + more),
        limit,
    ));
}

/// Drops the oldest lines beyond `limit`.
fn trim(history: &mut Vec<Vec<Char>>, limit: usize)
    ensures
        grid::grid(final(history)@) == trimmed(grid::grid(old(history)@), limit as int),
{
    if limit > 0 && history.len() > limit {
        let excess: usize = history.len() - limit;
        let kept: Vec<Vec<Char>> = history.split_off(excess);
        *history = kept;
        assert(grid::grid(history@) =~= trimmed(grid::grid(old(history)@), limit as int));
    }
}

/// Appends copies of the rows from `from` to before `to` to the scrollback, one by one, and
/// counts them.
fn archive_rows(
    history: &mut Vec<Vec<Char>>,
    limit: usize,
    grown: &mut u64,
    rows: &Vec<Vec<Char>>,
    from: usize,
    to: usize,
)
    requires
        from <= to <= rows@.len(),
        limit > 0 ==> old(history)@.len() <= limit,
    ensures
        grid::grid(final(history)@) == trimmed(
            grid::grid(old(history)@) + grid::grid(rows@).subrange(from as int, to as int),
            limit as int,
        ),
        *final(grown) == state::min(*old(grown) + (to - from), u64::MAX as int),
{
    let ghost all = grid::grid(rows@);
    let ghost before = grid::grid(history@);
    let mut i: usize = from;
    assert(before + all.subrange(from as int, from as int) =~= before);
    while i < to
        invariant
            from <= i <= to <= rows@.len(),
            all == grid::grid(rows@),
            grid::grid(history@) == trimmed(
                before + all.subrange(from as int, i as int),
                limit as int,
            ),
            *grown == state::min(*old(grown) + (i - from), u64::MAX as int),
        decreases to - i,
    {
        let ghost done = all.subrange(from as int, i as int);
        let ghost line = seq![all[i as int]];
        let ghost step = grid::grid(history@);
        history.push(grid::copy_row(&rows[i]));
        assert(grid::grid(history@) =~= step + line);
        trim(history, limit);
        *grown = (*grown).saturating_add(1);
        proof {
            trimming_is_incremental(before, done, line, limit as int);
            assert(done + line =~= all.subrange(from as int, i + 1));
        }
        i = i + 1;
    }
}

impl HistoryScreen {
    /// A blank screen with an empty scrollback of `scrollback_lines` lines, or without a limit
    /// where that is 0.
    pub fn new(columns: usize, lines: usize, scrollback_lines: usize) -> (r: Self)
        ensures
            r@ == (HistoryState {
                screen: ScreenState::initial(columns as int, lines as int),
                history: seq![],
                limit: scrollback_lines as int,
                grown: 0,
            }),
            columns > 0 && lines > 0 ==> r@.wf(),
    {
        let r = HistoryScreen {
            inner: Screen::new(columns, lines),
            history: Vec::new(),
            scrollback_lines,
            grown: 0,
        };
        assert(r@.history =~= seq![]);
        r
    }

    /// The width of the screen.
    pub fn columns(&self) -> (n: usize)
        ensures
            n == self@.screen.columns,
    {
        self.inner.columns
    }

    /// The height of the screen.
    pub fn lines(&self) -> (n: usize)
        ensures
            n == self@.screen.lines,
    {
        self.inner.lines
    }

    /// How many lines the scrollback holds.
    pub fn history_size(&self) -> (n: usize)
        ensures
            n == self@.history.len(),
    {
        self.history.len()
    }

    /// How many lines the scrollback keeps; 0 is without limit.
    pub fn scrollback_lines(&self) -> (n: usize)
        ensures
            n == self@.limit,
    {
        self.scrollback_lines
    }

    /// Sets how many lines the scrollback keeps; the oldest ones go where there are more.
    pub fn set_scrollback_lines(&mut self, lines: usize)
        ensures
            final(self)@ == (HistoryState {
                limit: lines as int,
                history: trimmed(old(self)@.history, lines as int),
                ..old(self)@
            }),
            old(self)@.wf() ==> final(self)@.wf(),
    {
        self.scrollback_lines = lines;
        trim(&mut self.history, lines);
    }

    /// The text of all lines: the scrollback, then the screen.
    pub fn display(&self) -> (rows: Vec<String>)
        ensures
            grid::texts(rows@) == grid::rows_text(self@.all_lines()),
    {
        let mut rows: Vec<String> = Vec::new();
        grid::push_texts(&mut rows, &self.history);
        grid::push_texts(&mut rows, &self.inner.buffer);
        assert(grid::texts(rows@) =~= grid::rows_text(self@.all_lines()));
        rows
    }

    /// The text of the screen's lines.
    pub fn visible_display(&self) -> (rows: Vec<String>)
        ensures
            grid::texts(rows@) == grid::rows_text(self@.screen.buffer),
    {
        self.inner.display()
    }

    /// The text of the scrollback's lines.
    pub fn history_display(&self) -> (rows: Vec<String>)
        ensures
            grid::texts(rows@) == grid::rows_text(self@.history),
    {
        let mut rows: Vec<String> = Vec::new();
        grid::push_texts(&mut rows, &self.history);
        assert(grid::texts(rows@) =~= grid::rows_text(self@.history));
        rows
    }

    /// How many lines there are in all.
    pub fn total_lines(&self) -> (n: usize)
        requires
            self@.history.len() + self@.screen.lines <= usize::MAX,
        ensures
            n == self@.history.len() + self@.screen.lines,
    {
        self.history.len() + self.inner.lines
    }

    /// The cursor's column, and its line counted from the start of the scrollback.
    pub fn absolute_cursor(&self) -> (at: (usize, usize))
        requires
            self@.history.len() + self@.screen.y <= usize::MAX,
        ensures
            at.0 == self@.screen.x,
            at.1 == self@.history.len() + self@.screen.y,
    {
        (self.inner.cursor.x, self.history.len() + self.inner.cursor.y)
    }

    /// All lines, with colours and attributes.
    pub fn styled_viewport(&self) -> (rows: Vec<Vec<(String, String, String, u8)>>)
        ensures
            packed_view(rows@) == packed_rows(self@.all_lines()),
    {
        let mut rows: Vec<Vec<(String, String, String, u8)>> = Vec::new();
        push_packed(&mut rows, &self.history, 0, self.history.len());
        push_packed(&mut rows, &self.inner.buffer, 0, self.inner.buffer.len());
        assert(packed_view(rows@) =~= packed_rows(self@.all_lines()));
        rows
    }

    /// The lines from `start` to before `start + count`, as far as there are that many, with
    /// colours and attributes.
    pub fn styled_range(&self, start: usize, count: usize) -> (rows: Vec<
        Vec<(String, String, String, u8)>,
    >)
        ensures
            packed_view(rows@) == window(
                packed_rows(self@.all_lines()),
                start as int,
                state::min(start + count, usize::MAX as int),
            ),
    {
        let kept: usize = self.history.len();
        let shown: usize = self.inner.buffer.len();
        let end: usize = start.saturating_add(count);
        let mut rows: Vec<Vec<(String, String, String, u8)>> = Vec::new();
        push_packed(&mut rows, &self.history, least(start, kept), least(end, kept));
        let first: usize = least(start.saturating_sub(kept), shown);
        let last: usize = least(end.saturating_sub(kept), shown);
        push_packed(&mut rows, &self.inner.buffer, first, last);
        assert(packed_view(rows@) =~= window(
            packed_rows(self@.all_lines()),
            start as int,
            end as int,
        ));
        rows
    }

    /// The rows of the screen.
    pub fn buffer(&self) -> (rows: &Vec<Vec<Char>>)
        ensures
            grid::grid(rows@) == self@.screen.buffer,
    {
        &self.inner.buffer
    }

    /// The rows of the screen, to be changed in place.
    pub fn buffer_mut(&mut self) -> (rows: &mut Vec<Vec<Char>>)
        ensures
            grid::grid(rows@) == old(self)@.screen.buffer,
            final(self)@ == old(self)@.with(
                (ScreenState { buffer: grid::grid(final(rows)@), ..old(self)@.screen }),
            ),
    {
        &mut self.inner.buffer
    }

    /// Takes the newest line off the scrollback.
    fn pop_history(&mut self) -> (line: Option<Vec<Char>>)
        ensures
            match line {
                Some(l) => {
                    &&& old(self)@.history.len() > 0
                    &&& grid::cells(l@) == old(self)@.history.last()
                    &&& final(self)@ == (HistoryState {
                        history: old(self)@.history.drop_last(),
                        ..old(self)@
                    })
                },
                None => old(self)@.history.len() == 0 && final(self)@ == old(self)@,
            },
    {
        let line: Option<Vec<Char>> = self.history.pop();
        assert(line is Some ==> self@.history =~= old(self)@.history.drop_last());
        assert(line is None ==> self@.history =~= old(self)@.history);
        line
    }

    /// Empties the scrollback.
    pub fn clear_history(&mut self)
        ensures
            final(self)@ == (HistoryState { history: seq![], ..old(self)@ }),
            old(self)@.wf() ==> final(self)@.wf(),
    {
        self.history.clear();
        assert(self@.history =~= seq![]);
    }
}

/// Appends the rows from `from` to before `to`, as they are handed out.
fn push_packed(
    out: &mut Vec<Vec<(String, String, String, u8)>>,
    rows: &Vec<Vec<Char>>,
    from: usize,
    to: usize,
)
    requires
        from <= to <= rows@.len(),
    ensures
        packed_view(final(out)@) == packed_view(old(out)@) + packed_rows(
            grid::grid(rows@),
        ).subrange(from as int, to as int),
{
    let ghost before = packed_view(out@);
    let ghost all = packed_rows(grid::grid(rows@));
    let mut y: usize = from;
    assert(packed_view(out@) =~= before + all.subrange(from as int, from as int));
    while y < to
        invariant
            from <= y <= to <= rows@.len(),
            all == packed_rows(grid::grid(rows@)),
            packed_view(out@) == before + all.subrange(from as int, y as int),
        decreases to - y,
    {
        let ghost step = packed_view(out@);
        out.push(pack_row(&rows[y]));
        y = y + 1;
        assert(packed_view(out@) =~= step.push(all[y - 1]));
        assert(packed_view(out@) =~= before + all.subrange(from as int, y as int));
    }
}

/// The smaller of two numbers.
fn least(a: usize, b: usize) -> (r: usize)
    ensures
        r == state::min(a as int, b as int),
{
    if a <= b {
        a
    } else {
        b
    }
}

impl HistoryScreen {
    /// The first and the last line of the scroll region.
    fn scroll_region(&self) -> (r: (usize, usize))
        requires
            self@.wf(),
        ensures
            r.0 == self@.screen.top(),
            r.1 == self@.screen.bottom(),
            r.0 <= r.1 < self@.screen.lines,
    {
        match self.inner.margins {
            Some(m) => (m.top, m.bottom),
            None => (0, self.inner.lines - 1),
        }
    }

    /// Appends copies of the screen's lines from `from` to before `to` to the scrollback.
    fn archive_visible(&mut self, from: usize, to: usize)
        requires
            from <= to <= old(self)@.screen.buffer.len(),
            old(self)@.limit > 0 ==> old(self)@.history.len() <= old(self)@.limit,
        ensures
            final(self)@ == old(self)@.archive(
                old(self)@.screen.buffer.subrange(from as int, to as int),
            ),
            final(self).inner == old(self).inner,
    {
        archive_rows(
            &mut self.history,
            self.scrollback_lines,
            &mut self.grown,
            &self.inner.buffer,
            from,
            to,
        );
    }

    /// Moves the scroll region up by `rows` lines, which enter the scrollback.
    pub fn scroll_up_with_history(&mut self, rows: usize)
        requires
            old(self)@.wf(),
        ensures
            final(self)@ == old(self)@.scroll_up(rows as int),
            final(self)@.wf(),
    {
        proof {
            grid::rect_row(
                old(self)@.screen.buffer,
                old(self)@.screen.lines,
                old(self)@.screen.columns,
                0,
            );
        }
        let (top, _) = self.scroll_region();
        let n: usize = self.inner.lines_to_scroll(rows);
        self.archive_visible(top, top + n);
        self.inner.lift(n);
    }

    /// Pops up to `rows` lines off the scrollback. Each one becomes the first line of the scroll
    /// region, whose lines move down for it.
    pub fn scroll_down_with_history(&mut self, rows: usize)
        requires
            old(self)@.wf(),
        ensures
            final(self)@ == old(self)@.scroll_down(rows as int),
            final(self)@.wf(),
    {
        let ghost start = self@;
        let (top, bottom) = self.scroll_region();
        let n: usize = least(rows, self.inner.lines - top);
        let mut i: usize = 0;
        assert(start.history.take(start.history.len() as int) =~= start.history);
        while i < n
            invariant
                i <= n,
                n == state::min(rows as int, start.screen.lines - top),
                start.wf(),
                start == old(self)@,
                top == start.screen.top(),
                bottom == start.screen.bottom(),
                top <= bottom < start.screen.lines,
                self@ == start.scroll_down(i as int),
            decreases n - i,
        {
            proof {
                scroll_down_keeps_wf(start, i as int);
            }
            self.pop_line(top, bottom);
            i = i + 1;
            proof {
                scroll_down_again(start, i - 1);
            }
        }
        proof {
            scroll_down_keeps_wf(start, rows as int);
        }
    }

    /// Moves the scroll region down by a line, and pops a line off the scrollback for its first
    /// line.
    fn pop_line(&mut self, top: usize, bottom: usize)
        requires
            old(self)@.wf(),
            top == old(self)@.screen.top(),
            bottom == old(self)@.screen.bottom(),
        ensures
            final(self)@ == old(self)@.scroll_down(1),
    {
        proof {
            grid::rect_row(
                old(self)@.screen.buffer,
                old(self)@.screen.lines,
                old(self)@.screen.columns,
                0,
            );
        }
        let columns: usize = self.inner.columns;
        let line: Vec<Char> = self.take_line(columns);
        self.push_down(top, bottom, line);
        screen::mark_rows(&mut self.inner.dirty, top, bottom + 1);
        assert(self@.screen.buffer =~= old(self)@.scroll_down(1).screen.buffer);
    }

    /// The line that comes off the scrollback, cut or padded to `columns` cells, or a blank one.
    fn take_line(&mut self, columns: usize) -> (line: Vec<Char>)
        ensures
            grid::cells(line@) == popped_line(
                old(self)@.history,
                1,
                columns as int,
                old(self)@.screen.default_char,
            ),
            final(self)@ == (HistoryState {
                history: old(self)@.history.take(
                    old(self)@.history.len() - state::min(1, old(self)@.history.len() as int),
                ),
                ..old(self)@
            }),
    {
        match self.pop_history() {
            Some(l) => {
                assert(self@.history =~= old(self)@.history.take(old(self)@.history.len() - 1));
                let mut line: Vec<Char> = l;
                grid::fit(&mut line, columns, &self.inner.default_char);
                line
            },
            None => {
                assert(self@.history =~= old(self)@.history.take(0));
                grid::new_row(&self.inner.default_char, columns)
            },
        }
    }

    /// Puts `line` in at `top`, where the lines up to `bottom` move down and the last one leaves.
    fn push_down(&mut self, top: usize, bottom: usize, line: Vec<Char>)
        requires
            top <= bottom < old(self)@.screen.buffer.len(),
        ensures
            final(self)@ == old(self)@.with(
                (ScreenState {
                    buffer: old(self)@.screen.buffer.remove(bottom as int).insert(
                        top as int,
                        grid::cells(line@),
                    ),
                    ..old(self)@.screen
                }),
            ),
    {
        let ghost before = grid::grid(self.inner.buffer@);
        let _ = self.inner.buffer.remove(bottom);
        self.inner.buffer.insert(top, line);
        assert(grid::grid(self.inner.buffer@) =~= before.remove(bottom as int).insert(
            top as int,
            grid::cells(line@),
        ));
    }

    /// Moves the cursor to the start of the next line; at the end of the scroll region a line
    /// enters the scrollback.
    pub fn index(&mut self)
        requires
            old(self)@.wf(),
        ensures
            final(self)@ == old(self)@.index(),
            final(self)@.wf(),
    {
        let (_, bottom) = self.scroll_region();
        if self.inner.cursor.y < bottom {
            self.inner.cursor.y = self.inner.cursor.y + 1;
            self.inner.cursor.x = 0;
        } else {
            self.scroll_up_with_history(1);
        }
    }

    /// Moves the cursor to the start of the line above; at the start of the scroll region a line
    /// comes off the scrollback.
    pub fn reverse_index(&mut self)
        requires
            old(self)@.wf(),
        ensures
            final(self)@ == old(self)@.reverse_index(),
            final(self)@.wf(),
    {
        let (top, _) = self.scroll_region();
        if self.inner.cursor.y > top {
            self.inner.cursor.y = self.inner.cursor.y - 1;
            self.inner.cursor.x = 0;
        } else {
            self.scroll_down_with_history(1);
        }
    }
}

/// Popping lines keeps the screen in good order.
pub proof fn scroll_down_keeps_wf(h: HistoryState, n: int)
    requires
        h.wf(),
        n >= 0,
    ensures
        h.scroll_down(n).wf(),
        h.scroll_down(n).screen.top() == h.screen.top(),
        h.scroll_down(n).screen.bottom() == h.screen.bottom(),
        h.scroll_down(n).screen.lines == h.screen.lines,
{
    reveal(grid::is_rect);
    soundness::with_buffer_keeps_wf(h.screen, h.scroll_down(n).screen.buffer);
}

/// Popping `n` lines and then one more is popping `n + 1`.
pub proof fn scroll_down_again(h: HistoryState, n: int)
    requires
        h.wf(),
        0 <= n < h.screen.lines - h.screen.top(),
    ensures
        h.scroll_down(n).scroll_down(1) == h.scroll_down(n + 1),
{
    reveal(grid::is_rect);
    let a = h.scroll_down(n).scroll_down(1);
    let b = h.scroll_down(n + 1);
    assert(a.history =~= b.history);
    assert(a.screen.dirty =~= b.screen.dirty);
    assert(a.screen.buffer =~= b.screen.buffer);
}

/// A screen in good order can lose lines.
proof fn good_order_can_shrink(h: HistoryState)
    requires
        h.wf(),
    ensures
        h.can_shrink(),
{
    grid::rect_row(h.screen.buffer, h.screen.lines, h.screen.columns, 0);
}

/// A screen that lost lines is in good order once it has its new size.
proof fn shrink_keeps_wf(
    s: ScreenState,
    buffer: Seq<Seq<Cell>>,
    y: int,
    lines: int,
    columns: int,
)
    requires
        s.wf(),
        !s.alt_screen,
        y >= 0,
        0 < lines < s.lines,
        0 < columns <= usize::MAX,
    ensures
        (ScreenState { buffer, y, ..s }).resize(lines, columns).wf(),
{
    soundness::reshaped_is_rect(buffer, lines, columns, s.default_char);
}

impl HistoryScreen {
    /// Gives the screen another size. Where the primary screen loses lines, those below the
    /// cursor go first, and the others enter the scrollback.
    pub fn resize(&mut self, lines: usize, columns: usize)
        requires
            old(self)@.wf() || old(self)@.can_shrink(),
        ensures
            final(self)@ == old(self)@.resize(lines as int, columns as int),
            old(self)@.wf() && lines > 0 && columns > 0 ==> final(self)@.wf(),
    {
        let old_lines: usize = self.inner.lines;
        if self.inner.alt_screen || lines >= old_lines {
            self.inner.resize(lines, columns);
            return;
        }
        proof {
            if old(self)@.wf() {
                good_order_can_shrink(old(self)@);
            }
        }
        let excess: usize = old_lines - lines;
        let below: usize = (old_lines - 1).saturating_sub(self.inner.cursor.y);
        let from_bottom: usize = least(excess, below);
        let from_top: usize = excess - from_bottom;
        self.archive_visible(0, from_top);
        assert(old(self)@.screen.buffer.subrange(0, from_top as int)
            =~= old(self)@.screen.buffer.take(from_top as int));
        self.drop_lines(from_top, old_lines - from_bottom);
        let ghost buffer = self@.screen.buffer;
        self.inner.cursor.y = self.inner.cursor.y.saturating_sub(from_top);
        let ghost y = self@.screen.y;
        self.inner.resize(lines, columns);
        proof {
            if old(self)@.wf() && lines > 0 && columns > 0 {
                shrink_keeps_wf(old(self)@.screen, buffer, y, lines as int, columns as int);
            }
        }
    }

    /// Keeps the screen's lines from `from` to before `to` only.
    fn drop_lines(&mut self, from: usize, to: usize)
        requires
            from <= to <= old(self)@.screen.buffer.len(),
        ensures
            final(self)@ == old(self)@.with(
                (ScreenState {
                    buffer: old(self)@.screen.buffer.subrange(from as int, to as int),
                    ..old(self)@.screen
                }),
            ),
    {
        self.inner.buffer.truncate(to);
        let kept: Vec<Vec<Char>> = self.inner.buffer.split_off(from);
        self.inner.buffer = kept;
        assert(self@.screen.buffer =~= old(self)@.screen.buffer.subrange(from as int, to as int));
    }

    /// Moves the lines that left the screen into the scrollback.
    fn collect(&mut self)
        requires
            old(self)@.wf(),
        ensures
            final(self)@ == old(self)@.collect(),
            final(self)@.wf(),
    {
        let mut lines: Vec<Vec<Char>> = Vec::new();
        lines.append(&mut self.inner.scrolled_off);
        assert(lines@ =~= old(self).inner.scrolled_off@);
        assert(self@.screen.scrolled_off =~= seq![]);
        archive_rows(
            &mut self.history,
            self.scrollback_lines,
            &mut self.grown,
            &lines,
            0,
            lines.len(),
        );
        assert(grid::grid(lines@).subrange(0, lines@.len() as int) =~= grid::grid(lines@));
    }

    /// Reads `data`, performs what is found in it on the screen, and moves the lines that left
    /// it into the scrollback. Each call starts at the start of a sequence.
    pub fn feed(&mut self, data: &[u8])
        requires
            old(self)@.wf(),
        ensures
            final(self)@ == old(self)@.feed(data@),
            final(self)@.wf(),
    {
        let mut parser = Parser::new();
        assert(parser.partial() =~= seq![]);
        self.feed_through(&mut parser, data);
    }

    /// Reads `data` where `parser` left off, performs what is found in it on the screen, and
    /// moves the lines that left it into the scrollback.
    pub fn feed_through(&mut self, parser: &mut Parser, data: &[u8])
        requires
            old(self)@.wf(),
            old(parser).wf(),
        ensures
            final(self)@ == old(self)@.feed_from(
                old(parser).machine(),
                old(parser).partial(),
                data@,
            ),
            final(self)@.wf(),
            final(parser).wf(),
            final(parser).machine() == ansi_parser::resume(
                old(parser).machine(),
                old(parser).partial(),
                data@,
            ).machine,
            final(parser).partial() == ansi_parser::resume(
                old(parser).machine(),
                old(parser).partial(),
                data@,
            ).partial,
    {
        parser.feed(&mut self.inner, data);
        self.collect();
    }

    /// Clears the screen and the scrollback.
    pub fn reset(&mut self)
        ensures
            final(self)@ == (HistoryState {
                screen: old(self)@.screen.reset(),
                history: seq![],
                ..old(self)@
            }),
            old(self)@.wf() ==> final(self)@.wf(),
    {
        self.inner.reset();
        self.clear_history();
    }

    /// Moves the cursor to the start of its line.
    pub fn carriage_return(&mut self)
        ensures
            final(self)@ == old(self)@.with(old(self)@.screen.at(0, old(self)@.screen.y)),
            old(self)@.wf() ==> final(self)@.wf(),
    {
        self.inner.carriage_return();
    }

    /// Lifts the scroll region.
    pub fn clear_margins(&mut self)
        ensures
            final(self)@ == old(self)@.with(
                (ScreenState { margins: None, ..old(self)@.screen }),
            ),
            old(self)@.wf() ==> final(self)@.wf(),
    {
        self.inner.clear_margins();
    }

    /// Whether the bell rang since it was last asked for.
    pub fn take_bell(&mut self) -> (rang: bool)
        ensures
            rang == old(self)@.screen.bell,
            final(self)@ == old(self)@.with(
                (ScreenState {
                    bell: false,
                    events: events::without_bells(old(self)@.screen.events),
                    ..old(self)@.screen
                }),
            ),
    {
        self.inner.take_bell()
    }

    /// Drains the rows that changed, in ascending order.
    pub fn take_dirty_rows(&mut self) -> (rows: Vec<usize>)
        ensures
            forall|y: usize| #[trigger] rows@.contains(y) <==> old(self)@.screen.dirty.contains(y),
            forall|i: int, j: int| 0 <= i < j < rows@.len() ==> rows@[i] < rows@[j],
            final(self)@ == old(self)@.with(
                (ScreenState { dirty: Set::empty(), ..old(self)@.screen }),
            ),
    {
        self.inner.take_dirty_rows()
    }

    /// Drains the log. Where the scrollback grew since the last drain, the last event says by
    /// how many lines.
    pub fn take_events(&mut self) -> (log: Vec<TermEvent>)
        ensures
            events::happenings(log@) == (if old(self)@.grown > 0 {
                old(self)@.screen.events.push(
                    Happening::ScrollbackGrew(old(self)@.grown as u64),
                )
            } else {
                old(self)@.screen.events
            }),
            final(self)@ == (HistoryState {
                screen: ScreenState { bell: false, events: seq![], ..old(self)@.screen },
                grown: 0,
                ..old(self)@
            }),
    {
        let mut log: Vec<TermEvent> = self.inner.take_events();
        let ghost logged = events::happenings(log@);
        if self.grown > 0 {
            log.push(TermEvent::ScrollbackGrew(self.grown));
            assert(events::happenings(log@) =~= logged.push(
                Happening::ScrollbackGrew(self.grown),
            ));
        }
        self.grown = 0;
        log
    }

    /// The working directory that the shell reported last.
    pub fn cwd(&self) -> (path: Option<&String>)
        ensures
            match path {
                Some(p) => self@.screen.cwd == Some(p@),
                None => self@.screen.cwd is None,
            },
    {
        match &self.inner.cwd {
            Some(p) => Some(p),
            None => None,
        }
    }

    /// The cursor.
    pub fn cursor(&self) -> (cursor: &Cursor)
        ensures
            *cursor == self.inner.cursor,
    {
        &self.inner.cursor
    }

    /// The cursor, to be changed in place.
    pub fn cursor_mut(&mut self) -> (cursor: &mut Cursor)
        ensures
            *cursor == old(self).inner.cursor,
            *final(self) == (HistoryScreen {
                inner: Screen { cursor: *final(cursor), ..old(self).inner },
                ..*old(self)
            }),
    {
        &mut self.inner.cursor
    }

    /// The cursor's shape.
    pub fn cursor_style(&self) -> (style: CursorStyle)
        ensures
            style == self@.screen.cursor_style,
    {
        self.inner.cursor_style
    }

    /// Whether the cursor blinks.
    pub fn cursor_blink(&self) -> (b: bool)
        ensures
            b == self@.screen.cursor_blink,
    {
        self.inner.cursor_blink
    }

    /// Whether the alternate screen is shown.
    pub fn alt_screen(&self) -> (b: bool)
        ensures
            b == self@.screen.alt_screen,
    {
        self.inner.alt_screen
    }

    /// The name of the cursor's shape.
    pub fn cursor_shape(&self) -> (name: &'static str)
        ensures
            name@ == match self@.screen.cursor_style {
                CursorStyle::Underline => "underline"@,
                CursorStyle::Beam => "bar"@,
                CursorStyle::Block => "block"@,
                CursorStyle::Default => "block"@,
            },
    {
        match self.inner.cursor_style {
            CursorStyle::Underline => "underline",
            CursorStyle::Beam => "bar",
            CursorStyle::Block | CursorStyle::Default => "block",
        }
    }

    /// The modes.
    pub fn mode(&self) -> (mode: &Modes)
        ensures
            *mode == self.inner.mode,
    {
        &self.inner.mode
    }

    /// The modes, to be changed in place.
    pub fn mode_mut(&mut self) -> (mode: &mut Modes)
        ensures
            *mode == old(self).inner.mode,
            *final(self) == (HistoryScreen {
                inner: Screen { mode: *final(mode), ..old(self).inner },
                ..*old(self)
            }),
    {
        &mut self.inner.mode
    }

    /// The scroll region, if one is set.
    pub fn margins(&self) -> (margins: Option<Margins>)
        ensures
            margins == self@.screen.margins,
    {
        self.inner.margins
    }

    /// The rows that changed since they were last drained.
    pub fn dirty(&self) -> (rows: &BTreeSet<usize>)
        ensures
            rows@ == self@.screen.dirty,
    {
        &self.inner.dirty
    }

    /// What erased cells become.
    pub fn default_char(&self) -> (c: &Char)
        ensures
            c@ == self@.screen.default_char,
    {
        &self.inner.default_char
    }

    /// The tab stops.
    pub fn tabstops(&self) -> (stops: &HashSet<usize>)
        ensures
            stops@ == self@.screen.tabstops,
    {
        &self.inner.tabstops
    }

    /// What is to be sent to the process, oldest first, to be drained by the caller.
    pub fn write_process_input(&mut self) -> (replies: &mut Vec<String>)
        ensures
            grid::texts(replies@) == old(self)@.screen.replies,
            final(self)@ == old(self)@.with(
                (ScreenState { replies: grid::texts(final(replies)@), ..old(self)@.screen }),
            ),
    {
        &mut self.inner.write_process_input
    }

    /// The title.
    pub fn title(&self) -> (title: &str)
        ensures
            title@ == self@.screen.title,
    {
        self.inner.title.as_str()
    }

    /// The icon name.
    pub fn icon_name(&self) -> (name: &str)
        ensures
            name@ == self@.screen.icon_name,
    {
        self.inner.icon_name.as_str()
    }

    /// The character set G0.
    pub fn g0_charset(&self) -> (set: CharsetRef)
        ensures
            set == self@.screen.g0_charset,
    {
        self.inner.g0_charset
    }
}

impl HistoryScreen {
    /// Writes text at the cursor.
    pub fn draw(&mut self, data: &str)
        requires
            old(self)@.wf(),
        ensures
            final(self)@ == old(self)@.with(old(self)@.screen.draw(data@)),
            final(self)@.wf(),
    {
        self.inner.draw(data);
    }

    /// Moves the cursor to a row and a column counted from one.
    pub fn cursor_position(&mut self, row: usize, col: usize)
        requires
            old(self)@.wf(),
        ensures
            final(self)@ == old(self)@.with(old(self)@.screen.cursor_position(row as int, col as int)),
            final(self)@.wf(),
    {
        self.inner.cursor_position(row, col);
    }

    /// Moves the cursor up, inside the scroll region.
    pub fn cursor_up(&mut self, rows: usize)
        requires
            old(self)@.wf(),
        ensures
            final(self)@ == old(self)@.with(old(self)@.screen.cursor_up(rows as int)),
            final(self)@.wf(),
    {
        self.inner.cursor_up(rows);
    }

    /// Moves the cursor down, inside the scroll region.
    pub fn cursor_down(&mut self, rows: usize)
        requires
            old(self)@.wf(),
        ensures
            final(self)@ == old(self)@.with(old(self)@.screen.cursor_down(rows as int)),
            final(self)@.wf(),
    {
        self.inner.cursor_down(rows);
    }

    /// Moves the cursor right.
    pub fn cursor_forward(&mut self, cols: usize)
        requires
            old(self)@.wf(),
        ensures
            final(self)@ == old(self)@.with(old(self)@.screen.cursor_forward(cols as int)),
            final(self)@.wf(),
    {
        self.inner.cursor_forward(cols);
    }

    /// Moves the cursor left.
    pub fn cursor_back(&mut self, cols: usize)
        ensures
            final(self)@ == old(self)@.with(old(self)@.screen.cursor_back(cols as int)),
            old(self)@.wf() ==> final(self)@.wf(),
    {
        self.inner.cursor_back(cols);
    }

    /// Moves the cursor down, or scrolls the screen.
    pub fn linefeed(&mut self)
        requires
            old(self)@.wf(),
        ensures
            final(self)@ == old(self)@.with(old(self)@.screen.linefeed()),
            final(self)@.wf(),
    {
        self.inner.linefeed();
    }

    /// Moves the cursor left by one.
    pub fn backspace(&mut self)
        ensures
            final(self)@ == old(self)@.with(old(self)@.screen.cursor_back(1)),
            old(self)@.wf() ==> final(self)@.wf(),
    {
        self.inner.backspace();
    }

    /// Moves the cursor to the next tab stop.
    pub fn tab(&mut self)
        requires
            old(self)@.wf(),
        ensures
            final(self)@ == old(self)@.with(old(self)@.screen.tab()),
            final(self)@.wf(),
    {
        self.inner.tab();
    }

    /// Sets a tab stop at the cursor.
    pub fn set_tab_stop(&mut self)
        ensures
            final(self)@ == old(self)@.with(old(self)@.screen.set_tab_stop()),
            old(self)@.wf() ==> final(self)@.wf(),
    {
        self.inner.set_tab_stop();
    }

    /// Clears the tab stop at the cursor (0), or all tab stops (3).
    pub fn clear_tab_stop(&mut self, mode: u16)
        ensures
            final(self)@ == old(self)@.with(old(self)@.screen.clear_tab_stop(mode as int)),
            old(self)@.wf() ==> final(self)@.wf(),
    {
        self.inner.clear_tab_stop(mode);
    }

    /// Saves the cursor.
    pub fn save_cursor(&mut self)
        ensures
            final(self)@ == old(self)@.with(old(self)@.screen.save_cursor()),
            old(self)@.wf() ==> final(self)@.wf(),
    {
        self.inner.save_cursor();
    }

    /// Restores the cursor.
    pub fn restore_cursor(&mut self)
        requires
            old(self)@.wf(),
        ensures
            final(self)@ == old(self)@.with(old(self)@.screen.restore_cursor()),
            final(self)@.wf(),
    {
        self.inner.restore_cursor();
    }

    /// Sets a mode.
    pub fn set_mode(&mut self, mode: u16, private: bool)
        requires
            old(self)@.wf(),
        ensures
            final(self)@ == old(self)@.with(old(self)@.screen.set_mode(mode, private)),
            final(self)@.wf(),
    {
        self.inner.set_mode(mode, private);
    }

    /// Clears a mode.
    pub fn reset_mode(&mut self, mode: u16, private: bool)
        requires
            old(self)@.wf(),
        ensures
            final(self)@ == old(self)@.with(old(self)@.screen.reset_mode(mode, private)),
            final(self)@.wf(),
    {
        self.inner.reset_mode(mode, private);
    }

    /// Sets the attributes of new text.
    pub fn select_graphic_rendition(&mut self, params: &[u16])
        ensures
            final(self)@ == old(self)@.with(old(self)@.screen.select_graphic_rendition(params@)),
            old(self)@.wf() ==> final(self)@.wf(),
    {
        self.inner.select_graphic_rendition(params);
    }

    /// Erases in the cursor's line.
    pub fn erase_in_line(&mut self, mode: usize)
        requires
            old(self)@.wf(),
        ensures
            final(self)@ == old(self)@.with(old(self)@.screen.erase_in_line(mode as int)),
            final(self)@.wf(),
    {
        self.inner.erase_in_line(mode);
    }

    /// Erases in the scroll region.
    pub fn erase_in_display(&mut self, mode: usize)
        requires
            old(self)@.wf(),
        ensures
            final(self)@ == old(self)@.with(old(self)@.screen.erase_in_display(mode as int)),
            final(self)@.wf(),
    {
        self.inner.erase_in_display(mode);
    }

    /// Puts blank lines in at the cursor.
    pub fn insert_lines(&mut self, count: usize)
        requires
            old(self)@.wf(),
        ensures
            final(self)@ == old(self)@.with(old(self)@.screen.insert_lines(count as int)),
            final(self)@.wf(),
    {
        self.inner.insert_lines(count);
    }

    /// Takes lines out at the cursor.
    pub fn delete_lines(&mut self, count: usize)
        requires
            old(self)@.wf(),
        ensures
            final(self)@ == old(self)@.with(old(self)@.screen.delete_lines(count as int)),
            final(self)@.wf(),
    {
        self.inner.delete_lines(count);
    }

    /// Puts blank cells in at the cursor.
    pub fn insert_characters(&mut self, count: usize)
        requires
            old(self)@.wf(),
        ensures
            final(self)@ == old(self)@.with(old(self)@.screen.insert_characters(count as int)),
            final(self)@.wf(),
    {
        self.inner.insert_characters(count);
    }

    /// Takes cells out at the cursor.
    pub fn delete_characters(&mut self, count: usize)
        requires
            old(self)@.wf(),
        ensures
            final(self)@ == old(self)@.with(old(self)@.screen.delete_characters(count as int)),
            final(self)@.wf(),
    {
        self.inner.delete_characters(count);
    }

    /// Erases cells from the cursor on.
    pub fn erase_characters(&mut self, count: usize)
        requires
            old(self)@.wf(),
        ensures
            final(self)@ == old(self)@.with(old(self)@.screen.erase_characters(count as int)),
            final(self)@.wf(),
    {
        self.inner.erase_characters(count);
    }

    /// Sets the scroll region.
    pub fn set_margins(&mut self, top: Option<usize>, bottom: Option<usize>)
        ensures
            final(self)@ == old(self)@.with(
                old(self)@.screen.set_margins(screen::opt_int(top), screen::opt_int(bottom)),
            ),
            old(self)@.wf() ==> final(self)@.wf(),
    {
        self.inner.set_margins(top, bottom);
    }

    /// Fills the screen with the letter E.
    pub fn alignment_display(&mut self)
        ensures
            final(self)@ == old(self)@.with(old(self)@.screen.alignment_display()),
            old(self)@.wf() ==> final(self)@.wf(),
    {
        self.inner.alignment_display();
    }

    /// Sets the title.
    pub fn set_title(&mut self, title: &str)
        ensures
            final(self)@ == old(self)@.with(old(self)@.screen.set_title(title@)),
            old(self)@.wf() ==> final(self)@.wf(),
    {
        self.inner.set_title(title);
    }

    /// Sets the icon name.
    pub fn set_icon_name(&mut self, name: &str)
        ensures
            final(self)@ == old(self)@.with(old(self)@.screen.set_icon_name(name@)),
            old(self)@.wf() ==> final(self)@.wf(),
    {
        self.inner.set_icon_name(name);
    }

    /// Replies with the terminal's identity.
    pub fn report_device_attributes(&mut self)
        ensures
            final(self)@ == old(self)@.with(old(self)@.screen.identify()),
            old(self)@.wf() ==> final(self)@.wf(),
    {
        self.inner.report_device_attributes();
    }

    /// Replies to a status request.
    pub fn report_device_status(&mut self, param: usize)
        requires
            old(self)@.wf(),
        ensures
            final(self)@ == old(self)@.with(old(self)@.screen.report_device_status(param as int)),
            final(self)@.wf(),
    {
        self.inner.report_device_status(param);
    }

}

} // verus!
