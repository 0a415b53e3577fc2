//! What is promised of the scrollback: which lines enter it and in which order, which ones leave
//! it, and how the screen moves with them.
use super::cell::Cell;
use super::cursor_laws;
use super::edit_laws;
use super::grid;
use super::history;
use super::history::HistoryState;
use super::state::ScreenState;
use vstd::prelude::*;

verus! {

/// Whether `after` is `before` with `lines` behind it, without the oldest lines where `limit`
/// allows for fewer. A limit of 0 allows for any number.
pub open spec fn grows_by(
    before: Seq<Seq<Cell>>,
    lines: Seq<Seq<Cell>>,
    limit: int,
    after: Seq<Seq<Cell>>,
) -> bool {
    let total = before.len() + lines.len();
    &&& after.len() == if 0 < limit < total {
        limit
    } else {
        total as int
    }
    &&& forall|k: int|
        1 <= k <= after.len() ==> #[trigger] after[after.len() - k] == if k <= lines.len() {
            lines[lines.len() - k]
        } else {
            before[total - k]
        }
}

/// Whether `t` has counted `n` more lines than `h`, as far as there is room to count.
pub open spec fn counts(h: HistoryState, n: int, t: HistoryState) -> bool {
    t.grown == if h.grown + n <= 0xffff_ffff_ffff_ffff {
        h.grown + n
    } else {
        0xffff_ffff_ffff_ffff
    }
}

/// Lines that enter the scrollback stand behind those that are in it, in order. Where there are
/// too many, the oldest ones go. How many came is counted until the events are drained.
pub proof fn lines_enter_the_scrollback(h: HistoryState, lines: Seq<Seq<Cell>>)
    requires
        h.limit >= 0,
    ensures
        ({
            let t = h.archive(lines);
            &&& grows_by(h.history, lines, h.limit, t.history)
            &&& (t.screen, t.limit) == (h.screen, h.limit)
            &&& counts(h, lines.len() as int, t)
        }),
{
    let all = h.history + lines;
    let t = h.archive(lines);
    assert forall|k: int| 1 <= k <= t.history.len() implies #[trigger] t.history[t.history.len()
        - k] == if k <= lines.len() {
        lines[lines.len() - k]
    } else {
        h.history[all.len() - k]
    } by {
        assert(t.history[t.history.len() - k] == all[all.len() - k]);
    }
}

/// A new limit takes the oldest lines where there are too many, and keeps the others in order.
pub proof fn a_new_limit_keeps_the_newest(lines: Seq<Seq<Cell>>, limit: int)
    requires
        limit >= 0,
    ensures
        grows_by(seq![], lines, limit, history::trimmed(lines, limit)),
{
    let t = history::trimmed(lines, limit);
    assert forall|k: int| 1 <= k <= t.len() implies #[trigger] t[t.len() - k] == lines[lines.len()
        - k] by {
    }
}

/// Scrolling up moves the first lines of the scroll region into the scrollback, in order, and the
/// others up; erased lines come in below. The cursor stays.
pub proof fn scrolling_up_fills_the_scrollback(h: HistoryState, rows: int)
    requires
        h.wf(),
        h.limit >= 0,
        rows >= 0,
    ensures
        ({
            let t = h.scroll_up(rows);
            let s = h.screen;
            let n = edit_laws::lines_to_scroll(s, rows);
            let first = edit_laws::first_line(s);
            &&& grows_by(h.history, s.buffer.subrange(first, first + n), h.limit, t.history)
            &&& edit_laws::lines_move(s, t.screen, first, edit_laws::last_line(s), -n)
            &&& edit_laws::only_cells_differ(s, t.screen)
            &&& t.limit == h.limit && counts(h, n, t)
        }),
{
    reveal(grid::is_rect);
    let s = h.screen;
    let n = edit_laws::lines_to_scroll(s, rows);
    lines_enter_the_scrollback(
        h,
        s.buffer.subrange(edit_laws::first_line(s), edit_laws::first_line(s) + n),
    );
}

/// Scrolling down takes the newest lines off the scrollback: the newest one stands lowest among
/// them, above the lines of the scroll region, which move down. Each is cut or padded to the width
/// of the screen, and where the scrollback has run out erased lines come. The cursor stays.
pub proof fn scrolling_down_empties_the_scrollback(h: HistoryState, rows: int, x: int, y: int)
    requires
        h.wf(),
        rows >= 0,
        0 <= x < h.screen.columns,
        0 <= y < h.screen.lines,
    ensures
        ({
            let t = h.scroll_down(rows);
            let s = h.screen;
            let first = edit_laws::first_line(s);
            let last = edit_laws::last_line(s);
            let n = if rows <= s.lines - first {
                rows
            } else {
                s.lines - first
            };
            let len = h.history.len() as int;
            let k = n - (y - first);
            &&& t.screen.buffer[y][x] == if y < first || y > last {
                s.buffer[y][x]
            } else if y >= first + n {
                s.buffer[y - n][x]
            } else if k <= len && x < h.history[len - k].len() {
                h.history[len - k][x]
            } else {
                s.default_char
            }
            &&& t.history == h.history.take(
                if n <= len {
                    len - n
                } else {
                    0
                },
            )
            &&& edit_laws::only_cells_differ(s, t.screen)
            &&& edit_laws::marks(s, t.screen, |l: int| rows > 0 && first <= l <= last)
            &&& (t.limit, t.grown) == (h.limit, h.grown)
        }),
{
    reveal(grid::is_rect);
    let t = h.scroll_down(rows);
    if rows == 0 {
        assert(h.history.take(h.history.len() as int) =~= h.history);
    }
    history::scroll_down_keeps_wf(h, rows);
}

/// An index on a screen with a scrollback goes to the start of the next line, or on the last line
/// that scrolls moves a line into the scrollback. A reverse index goes to the start of the line
/// above, or on the first line that scrolls takes a line off the scrollback.
pub proof fn an_index_moves_lines_to_the_scrollback(h: HistoryState)
    requires
        h.wf(),
    ensures
        ({
            let s = h.screen;
            let t = h.index();
            if s.y < edit_laws::last_line(s) {
                t == h.with(t.screen) && cursor_laws::moved_to(s, t.screen, 0, s.y + 1)
            } else {
                t == h.scroll_up(1)
            }
        }),
        ({
            let s = h.screen;
            let t = h.reverse_index();
            if s.y > edit_laws::first_line(s) {
                t == h.with(t.screen) && cursor_laws::moved_to(s, t.screen, 0, s.y - 1)
            } else {
                t == h.scroll_down(1)
            }
        }),
{
}

/// Lines that wait for collection enter the scrollback when input was read, and none waits then.
/// The rest of the screen stays.
pub proof fn waiting_lines_are_collected(h: HistoryState)
    requires
        h.limit >= 0,
    ensures
        ({
            let t = h.collect();
            &&& grows_by(h.history, h.screen.scrolled_off, h.limit, t.history)
            &&& t.screen == ScreenState { scrolled_off: t.screen.scrolled_off, ..h.screen }
            &&& t.screen.scrolled_off.len() == 0
            &&& t.limit == h.limit && counts(h, h.screen.scrolled_off.len() as int, t)
        }),
{
    lines_enter_the_scrollback(h, h.screen.scrolled_off);
}

/// A screen that loses lines drops those below the cursor first and moves as many of the others
/// from the top into the scrollback as there are too many. The cursor stays on its line. One that
/// gains lines, and the alternate screen, leave the scrollback alone.
pub proof fn losing_lines_fills_the_scrollback(h: HistoryState, lines: int, columns: int)
    requires
        h.wf(),
        h.limit >= 0,
        lines > 0,
        columns > 0,
    ensures
        ({
            let t = h.resize(lines, columns);
            let s = h.screen;
            let up = if s.y < lines {
                0
            } else {
                s.y + 1 - lines
            };
            &&& t.limit == h.limit
            &&& (t.screen.lines, t.screen.columns) == (lines, columns)
            &&& t.screen.x == cursor_laws::clamped(s.x, 0, if (lines, columns) == (
                s.lines,
                s.columns,
            ) {
                s.columns
            } else {
                columns - 1
            })
            &&& s.alt_screen || lines >= s.lines ==> t == h.with(s.resize(lines, columns))
            &&& !s.alt_screen && lines < s.lines ==> {
                &&& counts(h, up, t)
                &&& forall|y: usize| #[trigger] t.screen.dirty.contains(y) <==> y < lines
                &&& t.screen == ScreenState {
                    lines,
                    columns,
                    buffer: t.screen.buffer,
                    x: t.screen.x,
                    y: t.screen.y,
                    margins: None,
                    tabstops: t.screen.tabstops,
                    parked: t.screen.parked,
                    dirty: t.screen.dirty,
                    ..s
                }
                &&& grows_by(h.history, s.buffer.take(up), h.limit, t.history)
                &&& t.screen.y == s.y - up
                &&& forall|x: int, y: int|
                    #![trigger t.screen.buffer[y][x]]
                    0 <= x < columns && 0 <= y < lines ==> t.screen.buffer[y][x] == if x
                        < s.columns {
                        s.buffer[y + up][x]
                    } else {
                        s.default_char
                    }
            }
        }),
{
    reveal(grid::is_rect);
    let s = h.screen;
    let up = if s.y < lines {
        0
    } else {
        s.y + 1 - lines
    };
    if !s.alt_screen && lines < s.lines {
        lines_enter_the_scrollback(h, s.buffer.take(up));
    }
}

/// All lines are the scrollback and then the screen.
pub proof fn all_lines_are_the_scrollback_and_the_screen(h: HistoryState, y: int)
    requires
        0 <= y < h.history.len() + h.screen.buffer.len(),
    ensures
        h.all_lines().len() == h.history.len() + h.screen.buffer.len(),
        y < h.history.len() ==> h.all_lines()[y] == h.history[y],
        y >= h.history.len() ==> h.all_lines()[y] == h.screen.buffer[y - h.history.len()],
{
}

} // verus!
