//! What is promised of the edits: which cells and lines an erase, an insertion, a deletion or a
//! scroll touches, what they hold afterwards, and that everything else stays.
use super::cell::Cell;
use super::grid;
use super::state::ScreenState;
use vstd::prelude::*;

verus! {

/// The parameter `i` of a control sequence, or `missing` where there are fewer.
pub open spec fn given(params: Seq<u16>, i: int, missing: int) -> int {
    if params.len() > i {
        params[i] as int
    } else {
        missing
    }
}

/// The first line that scrolls.
pub open spec fn first_line(s: ScreenState) -> int {
    match s.margins {
        Some(m) => m.top as int,
        None => 0,
    }
}

/// The last line that scrolls.
pub open spec fn last_line(s: ScreenState) -> int {
    match s.margins {
        Some(m) => m.bottom as int,
        None => s.lines - 1,
    }
}

/// Whether `t` differs from `s` in its cells and in the marks of changed rows only, and has as
/// many cells.
pub open spec fn only_cells_differ(s: ScreenState, t: ScreenState) -> bool {
    &&& t == ScreenState { buffer: t.buffer, dirty: t.dirty, ..s }
    &&& t.buffer.len() == s.lines
    &&& forall|y: int| 0 <= y < s.lines ==> (#[trigger] t.buffer[y]).len() == s.columns
}

/// Whether exactly the rows of which `touched` holds are newly marked as changed.
pub open spec fn marks(s: ScreenState, t: ScreenState, touched: spec_fn(int) -> bool) -> bool {
    forall|y: usize|
        #[trigger] t.dirty.contains(y) <==> s.dirty.contains(y) || touched(y as int)
}

/// Whether `t` is `s` with exactly the cells erased of which `gone` holds, by column and line.
pub open spec fn erased(s: ScreenState, t: ScreenState, gone: spec_fn(int, int) -> bool) -> bool {
    forall|x: int, y: int|
        #![trigger t.buffer[y][x]]
        0 <= x < s.columns && 0 <= y < s.lines ==> t.buffer[y][x] == if gone(x, y) {
            s.default_char
        } else {
            s.buffer[y][x]
        }
}

/// What erasing in the line does. Mode 0 erases from the cursor to the end of its line, mode 1 up
/// to the cursor and with it, and any other mode the whole line. A cursor behind the last column
/// comes back to it in mode 0.
pub open spec fn line_is_erased(s: ScreenState, mode: int, t: ScreenState) -> bool {
    &&& erased(
        s,
        t,
        |x: int, y: int|
            y == s.y && (mode == 0 ==> x >= s.x) && (mode == 1 ==> x <= s.x),
    )
    &&& marks(s, t, |y: int| y == s.y)
    &&& t.x == if mode == 0 && s.x == s.columns {
        s.columns - 1
    } else {
        s.x
    }
    &&& only_cells_differ(ScreenState { x: t.x, ..s }, t)
}

/// Erasing in the line erases the part of it that the mode names, and nothing else.
pub proof fn erasing_in_the_line(s: ScreenState, mode: int)
    requires
        s.wf(),
    ensures
        line_is_erased(s, mode, s.erase_in_line(mode)),
{
    reveal(grid::is_rect);
}

/// Whether the cell at column `x` of line `y` goes when the display is erased: with mode 0 from
/// the cursor on, with mode 1 up to the cursor and with it, with modes 2 and 3 everywhere, always
/// inside the scroll region but for the cursor's own line.
pub open spec fn goes_from_display(s: ScreenState, mode: int, x: int, y: int) -> bool {
    ||| mode == 0 && y == s.y && x >= s.x
    ||| mode == 0 && s.y < y <= last_line(s)
    ||| mode == 1 && first_line(s) <= y < s.y
    ||| mode == 1 && y == s.y && x <= s.x
    ||| (mode == 2 || mode == 3) && first_line(s) <= y <= last_line(s)
}

/// What erasing in the display does.
pub open spec fn display_is_erased(s: ScreenState, mode: int, t: ScreenState) -> bool {
    &&& erased(s, t, |x: int, y: int| goes_from_display(s, mode, x, y))
    &&& marks(
        s,
        t,
        |y: int|
            (mode == 0 || mode == 1) && y == s.y || goes_from_display(s, mode, 0, y)
                || goes_from_display(s, mode, s.columns - 1, y),
    )
    &&& only_cells_differ(s, t)
}

/// Erasing in the display erases the part of it that the mode names, and nothing else.
pub proof fn erasing_in_the_display(s: ScreenState, mode: int)
    requires
        s.wf(),
    ensures
        display_is_erased(s, mode, s.erase_in_display(mode)),
{
    reveal(grid::is_rect);
    reveal(ScreenState::erase_in_display);
}

/// What erasing `count` characters does: so many cells from the cursor on are erased, one at
/// least.
pub open spec fn characters_are_erased(s: ScreenState, count: int, t: ScreenState) -> bool {
    &&& erased(
        s,
        t,
        |x: int, y: int| y == s.y && s.x <= x && (x < s.x + count || x == s.x),
    )
    &&& marks(s, t, |y: int| y == s.y)
    &&& only_cells_differ(s, t)
}

/// Erasing characters erases as many cells as were asked for from the cursor on, and moves none.
pub proof fn erasing_characters(s: ScreenState, count: int)
    requires
        s.wf(),
        count >= 0,
    ensures
        characters_are_erased(s, count, s.erase_characters(count)),
{
    reveal(grid::is_rect);
}

/// How many cells or lines an edit asks for: one at least.
pub open spec fn asked(count: int) -> int {
    if count == 0 {
        1
    } else {
        count
    }
}

/// What deleting `count` characters does: the cells right of them come to their place, and erased
/// cells fill the end of the line.
pub open spec fn characters_are_deleted(s: ScreenState, count: int, t: ScreenState) -> bool {
    &&& forall|x: int, y: int|
        #![trigger t.buffer[y][x]]
        0 <= x < s.columns && 0 <= y < s.lines ==> t.buffer[y][x] == if y != s.y || x < s.x {
            s.buffer[y][x]
        } else if x + asked(count) < s.columns {
            s.buffer[y][x + asked(count)]
        } else {
            s.default_char
        }
    &&& marks(s, t, |y: int| y == s.y)
    &&& only_cells_differ(s, t)
}

/// Deleting characters closes the gap from the right.
pub proof fn deleting_characters(s: ScreenState, count: int)
    requires
        s.wf(),
        count >= 0,
    ensures
        characters_are_deleted(s, count, s.delete_characters(count)),
{
    reveal(grid::is_rect);
}

/// What inserting `count` characters does: the cells from the cursor on move right to make room
/// for erased cells, and those that leave the line are lost.
pub open spec fn characters_are_inserted(s: ScreenState, count: int, t: ScreenState) -> bool {
    &&& forall|x: int, y: int|
        #![trigger t.buffer[y][x]]
        0 <= x < s.columns && 0 <= y < s.lines ==> t.buffer[y][x] == if y != s.y || x < s.x {
            s.buffer[y][x]
        } else if x < s.x + asked(count) {
            s.default_char
        } else {
            s.buffer[y][x - asked(count)]
        }
    &&& marks(s, t, |y: int| y == s.y)
    &&& only_cells_differ(s, t)
}

/// Inserting characters makes room at the cursor.
pub proof fn inserting_characters(s: ScreenState, count: int)
    requires
        s.wf(),
        count >= 0,
    ensures
        characters_are_inserted(s, count, s.insert_characters(count)),
{
    reveal(grid::is_rect);
}

/// Deleting as many characters as were inserted brings back what did not leave the line.
pub proof fn deleting_undoes_inserting_characters(s: ScreenState, count: int, x: int)
    requires
        s.wf(),
        count >= 0,
        0 <= x < s.columns,
        x < s.x || x + asked(count) < s.columns,
    ensures
        s.insert_characters(count).delete_characters(count).buffer[s.y][x] == s.buffer[s.y][x],
{
    reveal(grid::is_rect);
}

/// Whether the lines from `from` to `to` of `t` are those of `s` moved down by `n`, or up where
/// `n` is negative, with erased lines where none came, and the other lines stay.
pub open spec fn lines_move(s: ScreenState, t: ScreenState, from: int, to: int, n: int) -> bool {
    &&& forall|x: int, y: int|
        #![trigger t.buffer[y][x]]
        0 <= x < s.columns && 0 <= y < s.lines ==> t.buffer[y][x] == if y < from || y > to {
            s.buffer[y][x]
        } else if from <= y - n <= to {
            s.buffer[y - n][x]
        } else {
            s.default_char
        }
    &&& marks(s, t, |y: int| n != 0 && from <= y <= to)
}

/// How many lines an insertion or a deletion moves: those that were asked for, but not more than
/// there are below the cursor in the scroll region.
pub open spec fn lines_to_edit(s: ScreenState, count: int) -> int {
    if asked(count) <= last_line(s) - s.y {
        asked(count)
    } else {
        last_line(s) - s.y
    }
}

/// Inserting lines moves the lines from the cursor on down, inside the scroll region, and the
/// cursor to the start of its line; outside of the scroll region nothing happens.
pub proof fn inserting_lines(s: ScreenState, count: int)
    requires
        s.wf(),
        count >= 0,
    ensures
        ({
            let t = s.insert_lines(count);
            if first_line(s) <= s.y <= last_line(s) {
                &&& lines_move(s, t, s.y, last_line(s), lines_to_edit(s, count))
                &&& only_cells_differ(ScreenState { x: 0, ..s }, t)
            } else {
                t == s
            }
        }),
{
    reveal(grid::is_rect);
}

/// Deleting lines moves the lines below them up, inside the scroll region, and the cursor to the
/// start of its line; outside of the scroll region nothing happens.
pub proof fn deleting_lines(s: ScreenState, count: int)
    requires
        s.wf(),
        count >= 0,
    ensures
        ({
            let t = s.delete_lines(count);
            if first_line(s) <= s.y <= last_line(s) {
                &&& lines_move(s, t, s.y, last_line(s), -lines_to_edit(s, count))
                &&& only_cells_differ(ScreenState { x: 0, ..s }, t)
            } else {
                t == s
            }
        }),
{
    reveal(grid::is_rect);
}

/// How many lines a scroll moves: all that scroll at most.
pub open spec fn lines_to_scroll(s: ScreenState, rows: int) -> int {
    if rows <= last_line(s) - first_line(s) {
        rows
    } else {
        last_line(s) - first_line(s) + 1
    }
}

/// Scrolling up moves the lines of the scroll region up. Where that starts at the top of the
/// primary screen, the lines that leave it wait for collection, in order, behind those that do.
pub proof fn scrolling_up(s: ScreenState, rows: int)
    requires
        s.wf(),
        rows >= 0,
    ensures
        ({
            let t = s.scroll_up(rows);
            let n = lines_to_scroll(s, rows);
            &&& lines_move(s, t, first_line(s), last_line(s), -n)
            &&& only_cells_differ(ScreenState { scrolled_off: t.scrolled_off, ..s }, t)
            &&& first_line(s) != 0 || s.alt_screen ==> t.scrolled_off == s.scrolled_off
            &&& first_line(s) == 0 && !s.alt_screen ==> {
                &&& t.scrolled_off.len() == s.scrolled_off.len() + n
                &&& forall|i: int|
                    0 <= i < t.scrolled_off.len() ==> #[trigger] t.scrolled_off[i] == if i
                        < s.scrolled_off.len() {
                        s.scrolled_off[i]
                    } else {
                        s.buffer[i - s.scrolled_off.len()]
                    }
            }
        }),
{
    reveal(grid::is_rect);
}

/// Scrolling down moves the lines of the scroll region down; what leaves it is lost.
pub proof fn scrolling_down(s: ScreenState, rows: int)
    requires
        s.wf(),
        rows >= 0,
    ensures
        ({
            let t = s.scroll_down(rows);
            &&& lines_move(s, t, first_line(s), last_line(s), lines_to_scroll(s, rows))
            &&& only_cells_differ(s, t)
        }),
{
    reveal(grid::is_rect);
}

/// The alignment pattern puts an `E` into every cell, marks every row and homes the cursor.
pub proof fn the_alignment_pattern(s: ScreenState, x: int, y: int)
    requires
        s.wf(),
        0 <= x < s.columns,
        0 <= y < s.lines,
    ensures
        ({
            let t = s.alignment_display();
            &&& t.buffer[y][x] == Cell { data: seq!['E'], ..s.default_char }
            &&& t.dirty.contains(y as usize)
            &&& only_cells_differ(ScreenState { x: 0, y: 0, ..s }, t)
        }),
{
}

/// The control sequences that erase: `J` in the display, `K` in the line, both with mode 0 where
/// none is given, and `X` so many characters, one where no number is given.
pub proof fn the_sequences_that_erase(s: ScreenState, params: Seq<u16>, intermediates: Seq<u8>)
    requires
        s.wf(),
    ensures
        display_is_erased(s, given(params, 0, 0), s.csi_dispatch(params, intermediates, 'J')),
        line_is_erased(s, given(params, 0, 0), s.csi_dispatch(params, intermediates, 'K')),
        characters_are_erased(s, given(params, 0, 1), s.csi_dispatch(params, intermediates, 'X')),
{
    reveal(ScreenState::csi_dispatch);
    reveal(ScreenState::csi_edit);
    erasing_in_the_display(s, given(params, 0, 0));
    erasing_in_the_line(s, given(params, 0, 0));
    erasing_characters(s, given(params, 0, 1));
}

/// The control sequences that insert and delete characters: `@` and `P`, one where no number is
/// given.
pub proof fn the_sequences_that_shift_cells(
    s: ScreenState,
    params: Seq<u16>,
    intermediates: Seq<u8>,
)
    requires
        s.wf(),
    ensures
        characters_are_inserted(
            s,
            given(params, 0, 1),
            s.csi_dispatch(params, intermediates, '@'),
        ),
        characters_are_deleted(s, given(params, 0, 1), s.csi_dispatch(params, intermediates, 'P')),
{
    reveal(ScreenState::csi_dispatch);
    reveal(ScreenState::csi_edit);
    inserting_characters(s, given(params, 0, 1));
    deleting_characters(s, given(params, 0, 1));
}

/// The control sequences that move lines: `L` and `M` insert and delete them at the cursor, `S`
/// and `T` scroll up and down, by one line where no number is given.
pub proof fn the_sequences_that_move_lines(
    s: ScreenState,
    params: Seq<u16>,
    intermediates: Seq<u8>,
)
    requires
        s.wf(),
    ensures
        ({
            let n = given(params, 0, 1);
            let k = lines_to_edit(s, n);
            let m = lines_to_scroll(s, n);
            let inserted = s.csi_dispatch(params, intermediates, 'L');
            let deleted = s.csi_dispatch(params, intermediates, 'M');
            let up = s.csi_dispatch(params, intermediates, 'S');
            let down = s.csi_dispatch(params, intermediates, 'T');
            &&& first_line(s) <= s.y <= last_line(s) ==> {
                &&& lines_move(s, inserted, s.y, last_line(s), k) && inserted.x == 0
                &&& lines_move(s, deleted, s.y, last_line(s), -k) && deleted.x == 0
            }
            &&& inserted == s.insert_lines(n)
            &&& deleted == s.delete_lines(n)
            &&& lines_move(s, up, first_line(s), last_line(s), -m)
            &&& up == s.scroll_up(n)
            &&& lines_move(s, down, first_line(s), last_line(s), m)
            &&& down == s.scroll_down(n)
        }),
{
    reveal(ScreenState::csi_dispatch);
    reveal(ScreenState::csi_edit);
    let n = given(params, 0, 1);
    inserting_lines(s, n);
    deleting_lines(s, n);
    scrolling_up(s, n);
    scrolling_down(s, n);
}

} // verus!
