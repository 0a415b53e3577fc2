//! What is promised of the cursor: where each control puts it, what it keeps inside, and that
//! nothing else changes when it moves.
use super::edit_laws;
use super::grid;
use super::state::{Margins, ScreenState};
use vstd::prelude::*;

verus! {

/// `n`, or the nearest number from `low` to `high`.
pub open spec fn clamped(n: int, low: int, high: int) -> int {
    if n < low {
        low
    } else if n > high {
        high
    } else {
        n
    }
}

/// Whether `t` is `s` with the cursor at column `x` of line `y`, and nothing else changed.
pub open spec fn moved_to(s: ScreenState, t: ScreenState, x: int, y: int) -> bool {
    &&& t == ScreenState { x: t.x, y: t.y, ..s }
    &&& t.x == x
    &&& t.y == y
}

/// The line that a number counted from one addresses. In origin mode it counts from the first
/// line that scrolls, and stops at the last one; else it counts from the top of the screen.
pub open spec fn addressed_line(s: ScreenState, row: int) -> int {
    if s.mode.private.contains(6) {
        clamped(edit_laws::first_line(s) + row - 1, edit_laws::first_line(s), edit_laws::last_line(s))
    } else {
        clamped(row - 1, 0, s.lines - 1)
    }
}

/// The column that a number counted from one addresses.
pub open spec fn addressed_column(s: ScreenState, col: int) -> int {
    clamped(col - 1, 0, s.columns - 1)
}

/// An address of a line and a column puts the cursor there, kept inside the screen.
pub proof fn an_address_is_reached(s: ScreenState, row: int, col: int)
    requires
        s.wf(),
        row >= 0,
        col >= 0,
    ensures
        moved_to(
            s,
            s.cursor_position(row, col),
            addressed_column(s, col),
            addressed_line(s, row),
        ),
{
}

/// `H` and `f` address a line and a column; each is one where it is not given.
pub proof fn the_sequences_that_address_a_cell(
    s: ScreenState,
    params: Seq<u16>,
    intermediates: Seq<u8>,
    action: char,
)
    requires
        s.wf(),
        action == 'H' || action == 'f',
    ensures
        moved_to(
            s,
            s.csi_dispatch(params, intermediates, action),
            addressed_column(s, edit_laws::given(params, 1, 1)),
            addressed_line(s, edit_laws::given(params, 0, 1)),
        ),
{
    reveal(ScreenState::csi_dispatch);
    reveal(ScreenState::csi_move);
}

/// `G` addresses a column and stays on the cursor's line; `d` addresses a line and stays in the
/// cursor's column, or in the last one where a wrap is pending. In origin mode the line that `G`
/// stays on is counted anew, from the first line that scrolls.
pub proof fn the_sequences_that_address_one_coordinate(
    s: ScreenState,
    params: Seq<u16>,
    intermediates: Seq<u8>,
)
    requires
        s.wf(),
    ensures
        ({
            let n = edit_laws::given(params, 0, 1);
            let column = s.csi_dispatch(params, intermediates, 'G');
            let line = s.csi_dispatch(params, intermediates, 'd');
            &&& !s.mode.private.contains(6) ==> column.y == s.y
            &&& moved_to(s, column, addressed_column(s, n), addressed_line(s, s.y + 1))
            &&& s.x < s.columns ==> line.x == s.x
            &&& moved_to(s, line, clamped(s.x, 0, s.columns - 1), addressed_line(s, n))
        }),
{
    reveal(ScreenState::csi_dispatch);
    reveal(ScreenState::csi_move);
}

/// The relative moves: `A` up, `B` and `e` down, `C` and `a` right, `D` left, by one where no
/// number is given. Up and down stop at the edges of the scroll region, left and right at those of
/// the screen. `E` and `F` go down and up to the start of the line.
pub proof fn the_sequences_that_move_the_cursor(
    s: ScreenState,
    params: Seq<u16>,
    intermediates: Seq<u8>,
)
    requires
        s.wf(),
    ensures
        ({
            let n = edit_laws::given(params, 0, 1);
            let up = if s.y - n < edit_laws::first_line(s) {
                edit_laws::first_line(s)
            } else {
                s.y - n
            };
            let down = if s.y + n > edit_laws::last_line(s) {
                edit_laws::last_line(s)
            } else {
                s.y + n
            };
            let right = clamped(s.x + n, 0, s.columns - 1);
            let left = clamped(s.x - n, 0, s.columns);
            &&& moved_to(s, s.csi_dispatch(params, intermediates, 'A'), s.x, up)
            &&& moved_to(s, s.csi_dispatch(params, intermediates, 'B'), s.x, down)
            &&& moved_to(s, s.csi_dispatch(params, intermediates, 'e'), s.x, down)
            &&& moved_to(s, s.csi_dispatch(params, intermediates, 'C'), right, s.y)
            &&& moved_to(s, s.csi_dispatch(params, intermediates, 'a'), right, s.y)
            &&& moved_to(s, s.csi_dispatch(params, intermediates, 'D'), left, s.y)
            &&& moved_to(s, s.csi_dispatch(params, intermediates, 'E'), 0, down)
            &&& moved_to(s, s.csi_dispatch(params, intermediates, 'F'), 0, up)
        }),
{
    reveal(ScreenState::csi_dispatch);
    reveal(ScreenState::csi_move);
}

/// Moving right and then left by as much, where there is room, brings the cursor back, and so
/// does moving down and then up inside the scroll region.
pub proof fn moving_back_undoes_moving(s: ScreenState, n: int)
    requires
        s.wf(),
        n >= 0,
    ensures
        s.x + n < s.columns ==> s.cursor_forward(n).cursor_back(n) == s,
        edit_laws::first_line(s) <= s.y && s.y + n <= edit_laws::last_line(s) ==> s.cursor_down(
            n,
        ).cursor_up(n) == s,
        s.x + n < s.columns ==> s.cursor_forward(n).x == s.x + n,
        s.y + n <= edit_laws::last_line(s) ==> s.cursor_down(n).y == s.y + n,
        edit_laws::first_line(s) <= s.y - n ==> s.cursor_up(n).y == s.y - n,
        n <= s.x ==> s.cursor_back(n).x == s.x - n,
{
}

/// A scroll region is set where it has two lines at least and lies inside the screen: its first
/// and its last line are counted from one, and are the first and the last of the screen where they
/// are not given. Two zeros lift it. Any other request leaves the scroll region as it was.
pub proof fn a_scroll_region_is_set(s: ScreenState, top: Option<int>, bottom: Option<int>)
    requires
        s.wf(),
        top matches Some(v) ==> v >= 0,
        bottom matches Some(v) ==> v >= 0,
    ensures
        ({
            let t = s.set_margins(top, bottom);
            let first = match top {
                Some(v) => v,
                None => 1,
            };
            let last = match bottom {
                Some(v) => v,
                None => s.lines,
            };
            let from = if first == 0 {
                0
            } else {
                first - 1
            };
            &&& t == ScreenState { margins: t.margins, ..s }
            &&& top == Some(0int) && bottom == Some(0int) ==> t.margins is None
            &&& from + 1 < last <= s.lines ==> t.margins == Some(
                Margins { top: from as usize, bottom: (last - 1) as usize },
            )
            &&& !(from + 1 < last <= s.lines) && !(top == Some(0int) && bottom == Some(0int))
                ==> t.margins == s.margins
        }),
{
}

proof fn the_region_sequence(
    s: ScreenState,
    params: Seq<u16>,
    intermediates: Seq<u8>,
    top: Option<int>,
    bottom: Option<int>,
)
    requires
        top == (if params.len() > 0 {
            Some(params[0] as int)
        } else {
            None
        }),
        bottom == (if params.len() > 1 {
            Some(params[1] as int)
        } else {
            None
        }),
    ensures
        s.csi_dispatch(params, intermediates, 'r') == s.set_margins(top, bottom).cursor_position(
            1,
            1,
        ),
{
    reveal(ScreenState::csi_dispatch);
}

/// The control sequence `r` sets the scroll region and homes the cursor: to the top left of the
/// screen, or in origin mode to the first line that scrolls then.
pub proof fn setting_the_region_homes_the_cursor(
    s: ScreenState,
    params: Seq<u16>,
    intermediates: Seq<u8>,
)
    requires
        s.wf(),
    ensures
        ({
            let t = s.csi_dispatch(params, intermediates, 'r');
            let top = if params.len() > 0 {
                Some(params[0] as int)
            } else {
                None
            };
            let bottom = if params.len() > 1 {
                Some(params[1] as int)
            } else {
                None
            };
            &&& t == ScreenState { margins: t.margins, x: 0, y: t.y, ..s }
            &&& t.margins == s.set_margins(top, bottom).margins
            &&& t.y == if s.mode.private.contains(6) {
                edit_laws::first_line(t)
            } else {
                0
            }
        }),
{
    let top = if params.len() > 0 {
        Some(params[0] as int)
    } else {
        None
    };
    let bottom = if params.len() > 1 {
        Some(params[1] as int)
    } else {
        None
    };
    the_region_sequence(s, params, intermediates, top, bottom);
    let m = s.set_margins(top, bottom);
    a_scroll_region_is_set(s, top, bottom);
    super::soundness::set_margins_keeps_wf(s, top, bottom);
    an_address_is_reached(m, 1, 1);
}

/// Saving the cursor keeps its place, its attributes and the modes on a stack, and changes nothing
/// else. Restoring takes the newest entry off it and puts it in force, with the place kept inside
/// the screen and the scroll region; with an empty stack the cursor goes home.
pub proof fn saving_and_restoring(s: ScreenState)
    requires
        s.wf(),
    ensures
        ({
            let t = s.save_cursor();
            &&& t == ScreenState { saved: t.saved, ..s }
            &&& t.saved.len() == s.saved.len() + 1
            &&& t.saved.drop_last() == s.saved
            &&& (t.saved.last().x, t.saved.last().y) == (s.x as nat, s.y as nat)
            &&& t.saved.last().attrs == s.attrs
            &&& t.saved.last().mode == s.mode
        }),
        ({
            let t = s.restore_cursor();
            if s.saved.len() == 0 {
                moved_to(s, t, 0, 0)
            } else {
                &&& t == ScreenState {
                    x: t.x,
                    y: t.y,
                    attrs: s.saved.last().attrs,
                    mode: s.saved.last().mode,
                    saved: s.saved.drop_last(),
                    ..s
                }
                &&& t.x == clamped(s.saved.last().x as int, 0, s.columns - 1)
                &&& t.y == clamped(
                    s.saved.last().y as int,
                    edit_laws::first_line(s),
                    edit_laws::last_line(s),
                )
            }
        }),
{
    assert(s.save_cursor().saved.drop_last() =~= s.saved);
}

/// The sequences that save and restore: the control sequences `s` and `u`, the latter without
/// parameters or marks of its own, and the escapes `7` and `8`.
pub proof fn the_sequences_that_save_and_restore(
    s: ScreenState,
    params: Seq<u16>,
    intermediates: Seq<u8>,
)
    ensures
        s.csi_dispatch(params, intermediates, 's') == s.save_cursor(),
        params.len() < 2 || params[1] != 0 ==> s.csi_dispatch(params, seq![], 'u')
            == s.restore_cursor(),
        s.esc(seq![], 0x37) == s.save_cursor(),
        s.esc(seq![], 0x38) == s.restore_cursor(),
{
    reveal(ScreenState::csi_dispatch);
    reveal(ScreenState::csi_u);
    reveal(ScreenState::esc);
    let none: Seq<u8> = seq![];
    assert(none.len() != seq![0x3fu8].len());
    assert(none != seq![0x3fu8]);
    assert(none != seq![0x3eu8]);
    assert(none != seq![0x3cu8]);
}

/// The controls that move the cursor: a carriage return goes to the start of the line, a backspace
/// one column to the left, and neither does anything else.
pub proof fn the_controls_that_move_the_cursor(s: ScreenState)
    requires
        s.wf(),
    ensures
        moved_to(s, s.execute(0x0d), 0, s.y),
        s.x > 0 ==> moved_to(s, s.execute(0x08), s.x - 1, s.y),
        s.x == 0 ==> s.execute(0x08) == s,
{
    reveal(ScreenState::execute);
}

/// A line feed, a vertical tab and a form feed go to the next line. On the last line that scrolls,
/// the lines scroll up by one instead. In new-line mode the cursor goes to the start of the line.
pub proof fn a_line_feed_goes_down(s: ScreenState)
    requires
        s.wf(),
    ensures
        s.execute(0x0b) == s.execute(0x0a),
        s.execute(0x0c) == s.execute(0x0a),
        s.execute(0x0a) == s.linefeed(),
        ({
            let t = s.execute(0x0a);
            let x = if s.mode.public.contains(20) {
                0
            } else {
                s.x
            };
            if s.y < edit_laws::last_line(s) {
                moved_to(s, t, x, s.y + 1)
            } else {
                &&& (t.x, t.y) == (x, s.y)
                &&& edit_laws::lines_move(
                    s,
                    t,
                    edit_laws::first_line(s),
                    edit_laws::last_line(s),
                    -1,
                )
                &&& t.scrolled_off == s.scroll_up(1).scrolled_off
                &&& edit_laws::only_cells_differ(
                    ScreenState { x, scrolled_off: t.scrolled_off, ..s },
                    t,
                )
            }
        }),
{
    reveal(ScreenState::execute);
    edit_laws::scrolling_up(s, 1);
}

/// The escapes that move by a line: `D` is a line feed, `E` a carriage return and a line feed, and
/// `M` goes to the start of the line above. On the first line that scrolls, the lines scroll down
/// by one for it.
pub proof fn the_escapes_that_move_by_a_line(s: ScreenState)
    requires
        s.wf(),
    ensures
        s.esc(seq![], 0x44) == s.linefeed(),
        s.esc(seq![], 0x45) == s.at(0, s.y).linefeed(),
        s.esc(seq![], 0x45).x == 0,
        s.esc(seq![], 0x4d) == s.reverse_index(),
        ({
            let t = s.esc(seq![], 0x4d);
            if s.y > edit_laws::first_line(s) {
                moved_to(s, t, 0, s.y - 1)
            } else {
                &&& (t.x, t.y) == (s.x, s.y)
                &&& edit_laws::lines_move(
                    s,
                    t,
                    edit_laws::first_line(s),
                    edit_laws::last_line(s),
                    1,
                )
                &&& edit_laws::only_cells_differ(s, t)
            }
        }),
{
    reveal(ScreenState::esc);
    edit_laws::scrolling_down(s, 1);
}

/// An index goes to the start of the next line; on the last line that scrolls, the lines scroll up
/// by one and the cursor stays.
pub proof fn an_index_goes_down(s: ScreenState)
    requires
        s.wf(),
    ensures
        ({
            let t = s.index();
            if s.y < edit_laws::last_line(s) {
                moved_to(s, t, 0, s.y + 1)
            } else {
                &&& edit_laws::only_cells_differ(
                    ScreenState { scrolled_off: t.scrolled_off, ..s },
                    t,
                )
                &&& t.scrolled_off == s.scroll_up(1).scrolled_off
                &&& (t.x, t.y) == (s.x, s.y)
                &&& edit_laws::lines_move(
                    s,
                    t,
                    edit_laws::first_line(s),
                    edit_laws::last_line(s),
                    -1,
                )
            }
        }),
{
    edit_laws::scrolling_up(s, 1);
}

/// A tab goes right to the nearest tab stop, or to the last column, and does nothing else. A cursor
/// behind the last column comes back to it.
pub proof fn a_tab_goes_to_the_next_stop(s: ScreenState)
    requires
        s.wf(),
    ensures
        ({
            let t = s.execute(0x09);
            &&& moved_to(s, t, t.x, s.y)
            &&& s.x == s.columns ==> t.x == s.columns - 1
            &&& s.x < s.columns - 1 ==> s.x < t.x
            &&& t.x < s.columns
            &&& t.x == s.columns - 1 || s.tabstops.contains(t.x as usize)
            &&& forall|c: usize| s.x < c < t.x ==> !#[trigger] s.tabstops.contains(c)
        }),
{
    reveal(ScreenState::execute);
    if s.x < s.columns {
        super::laws::a_tab_finds_the_next_stop(s.tabstops, s.x + 1, s.columns);
    }
}

/// The escape `H` sets a tab stop at the cursor's column. The control sequence `g` clears the one
/// there with mode 0, which is meant where none is given, and all with mode 3. The other stops
/// stay.
pub proof fn tab_stops_are_set_and_cleared(
    s: ScreenState,
    params: Seq<u16>,
    intermediates: Seq<u8>,
    c: usize,
)
    requires
        s.wf(),
    ensures
        ({
            let set = s.esc(seq![], 0x48);
            let cleared = s.csi_dispatch(params, intermediates, 'g');
            let mode = edit_laws::given(params, 0, 0);
            &&& set == ScreenState { tabstops: set.tabstops, ..s }
            &&& set.tabstops.contains(c) == (s.tabstops.contains(c) || c == s.x)
            &&& cleared == ScreenState { tabstops: cleared.tabstops, ..s }
            &&& cleared.tabstops.contains(c) == (s.tabstops.contains(c) && mode != 3 && !(mode == 0
                && c == s.x))
        }),
{
    reveal(ScreenState::csi_dispatch);
    reveal(ScreenState::esc);
}

/// A new screen has a tab stop in every eighth column but the first, and so has one that was
/// resized or reset.
pub proof fn tab_stops_stand_eight_apart(s: ScreenState, lines: int, columns: int, c: usize)
    ensures
        ScreenState::initial(columns, lines).tabstops.contains(c) == (0 < c < columns && c % 8 == 0),
        s.reset().tabstops.contains(c) == (0 < c < s.columns && c % 8 == 0),
        (s.lines, s.columns) != (lines, columns) ==> s.resize(lines, columns).tabstops.contains(c)
            == (0 < c < columns && c % 8 == 0),
{
}

/// What is reported of the cursor's place names its line and its column counted from one. In
/// origin mode the line is counted from the first line that scrolls. Addressing what was reported
/// brings the cursor back to where it is.
pub proof fn the_place_that_is_reported(
    s: ScreenState,
    params: Seq<u16>,
    intermediates: Seq<u8>,
)
    requires
        s.wf(),
        params.len() > 0,
        params[0] == 6,
    ensures
        ({
            let t = s.csi_dispatch(params, intermediates, 'n');
            let first = if s.mode.private.contains(6) {
                edit_laws::first_line(s)
            } else {
                0
            };
            let row = if s.y < first {
                1
            } else {
                s.y - first + 1
            };
            &&& t == ScreenState { replies: t.replies, ..s }
            &&& t.replies.len() == s.replies.len() + 1
            &&& t.replies.drop_last() == s.replies
            &&& t.replies.last() == seq!['\x1b', '['] + crate::text::decimal(row as nat) + seq![
                ';',
            ] + crate::text::decimal((s.x + 1) as nat) + seq!['R']
            &&& s.x < s.columns && first <= s.y && (s.mode.private.contains(6) ==> s.y
                <= edit_laws::last_line(s)) ==> s.cursor_position(row, s.x + 1) == s
        }),
{
    reveal(ScreenState::csi_dispatch);
    assert(s.csi_dispatch(params, intermediates, 'n').replies.drop_last() =~= s.replies);
}

/// The other requests: status 5 is answered with `ESC [ 0 n`, a request for the identity with
/// `ESC [ ? 6 c`, by the control sequence `c` as by the escape `Z`. No other status is answered.
pub proof fn requests_are_answered(s: ScreenState, params: Seq<u16>, intermediates: Seq<u8>)
    ensures
        ({
            let t = s.csi_dispatch(params, intermediates, 'n');
            let request = edit_laws::given(params, 0, 0);
            &&& request == 5 ==> t == s.reply(seq!['\x1b', '[', '0', 'n'])
            &&& request != 5 && request != 6 ==> t == s
        }),
        s.csi_dispatch(params, intermediates, 'c') == s.reply(seq!['\x1b', '[', '?', '6', 'c']),
        s.esc(seq![], 0x5a) == s.reply(seq!['\x1b', '[', '?', '6', 'c']),
        forall|text: Seq<char>|
            #![trigger s.reply(text)]
            s.reply(text).replies.len() == s.replies.len() + 1 && s.reply(text).replies.last()
                == text && s.reply(text).replies.drop_last() == s.replies && s.reply(text)
                == (ScreenState { replies: s.reply(text).replies, ..s }),
{
    reveal(ScreenState::csi_dispatch);
    reveal(ScreenState::esc);
    reveal_strlit("\x1b[0n");
    reveal_strlit("\x1b[?6c");
    assert("\x1b[0n"@ =~= seq!['\x1b', '[', '0', 'n']);
    assert("\x1b[?6c"@ =~= seq!['\x1b', '[', '?', '6', 'c']);
    assert forall|text: Seq<char>| #![trigger s.reply(text)]
        s.reply(text).replies.len() == s.replies.len() + 1 && s.reply(text).replies.last() == text
            && s.reply(text).replies.drop_last() == s.replies && s.reply(text) == (ScreenState {
            replies: s.reply(text).replies,
            ..s
        }) by {
        assert(s.reply(text).replies.drop_last() =~= s.replies);
    }
}

/// A resize leaves the cursor where it is where that place is still on the screen; else its column
/// and its line are cut to the last ones. The cursor of the screen that is not shown is treated
/// alike. Attributes, modes, titles and all that is not a matter of size stay, the scroll region
/// is lifted, every eighth column has a tab stop again, and every row is marked as changed.
pub proof fn a_resize_leaves_the_cursor(s: ScreenState, lines: int, columns: int)
    requires
        s.wf(),
        lines > 0,
        columns > 0,
        (lines, columns) != (s.lines, s.columns),
    ensures
        ({
            let t = s.resize(lines, columns);
            &&& s.x < columns ==> t.x == s.x
            &&& s.x >= columns ==> t.x == columns - 1
            &&& s.y < lines ==> t.y == s.y
            &&& s.y >= lines ==> t.y == lines - 1
            &&& t.parked is Some == s.parked is Some
            &&& s.parked matches Some(p) ==> {
                let q = t.parked->0;
                &&& q.x == clamped(p.x, 0, columns - 1)
                &&& q.y == clamped(p.y, 0, lines - 1)
                &&& q.attrs == p.attrs
            }
            &&& (t.lines, t.columns) == (lines, columns)
            &&& t.margins is None
            &&& forall|y: usize| #[trigger] t.dirty.contains(y) <==> y < lines
            &&& forall|c: usize| #[trigger]
                t.tabstops.contains(c) <==> 0 < c < columns && c % 8 == 0
            &&& t == ScreenState {
                lines,
                columns,
                buffer: t.buffer,
                x: t.x,
                y: t.y,
                margins: None,
                tabstops: t.tabstops,
                parked: t.parked,
                dirty: t.dirty,
                ..s
            }
        }),
        s.resize(s.lines, s.columns) == s,
{
}

/// A resize keeps the cells of the screen that is not shown as it keeps those of the one that is:
/// what fits stays, and what is new is blank.
pub proof fn a_resize_keeps_what_fits_behind(
    s: ScreenState,
    lines: int,
    columns: int,
    x: int,
    y: int,
)
    requires
        s.wf(),
        0 <= x < columns,
        0 <= y < lines,
    ensures
        s.parked matches Some(p) ==> s.resize(lines, columns).parked->0.buffer[y][x] == (if x
            < s.columns && y < s.lines {
            p.buffer[y][x]
        } else {
            s.default_char
        }),
        s.resize(lines, columns).buffer.len() == lines,
        s.resize(lines, columns).buffer[y].len() == columns,
{
    reveal(grid::is_rect);
}

/// The cursor's shape is set by its number: 1 and 2 are a block, 3 and 4 an underline, 5 and 6 a
/// beam, and any other the default. The odd ones of these and 0 blink.
pub proof fn the_shape_of_the_cursor(s: ScreenState, params: Seq<u16>)
    ensures
        ({
            let t = s.csi_dispatch(params, seq![0x20u8], 'q');
            let id = edit_laws::given(params, 0, 0);
            &&& t == ScreenState {
                cursor_style: t.cursor_style,
                cursor_blink: t.cursor_blink,
                ..s
            }
            &&& t.cursor_style is Block <==> (id + 1) / 2 == 1
            &&& t.cursor_style is Underline <==> (id + 1) / 2 == 2
            &&& t.cursor_style is Beam <==> (id + 1) / 2 == 3
            &&& t.cursor_style is Default <==> id == 0 || id > 6
            &&& t.cursor_blink <==> id == 0 || id <= 6 && id % 2 == 1
        }),
{
    reveal(ScreenState::csi_dispatch);
}

} // verus!
