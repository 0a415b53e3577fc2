//! Every operation keeps a screen in good order.
use super::cell::Cell;
use super::events;
use super::events::Happening;
use super::grid;
use super::modes;
use super::state;
use super::state::ScreenState;
use vstd::prelude::*;

verus! {

/// Every event that is logged leaves the screen in good order.
pub proof fn push_event_keeps_wf(s: ScreenState, e: Happening)
    requires
        s.wf(),
    ensures
        s.push_event(e).wf(),
        s.ring_bell().wf(),
{
}

/// A cut or padded grid has the size that was asked for.
pub proof fn reshaped_is_rect(
    rows: Seq<Seq<Cell>>,
    lines: int,
    columns: int,
    c: Cell,
)
    requires
        lines >= 0,
        columns >= 0,
    ensures
        grid::is_rect(grid::reshaped(rows, lines, columns, c), lines, columns),
        grid::is_rect(grid::grid_of(c, lines, columns), lines, columns),
{
    reveal(grid::is_rect);
}

/// A resize to at least one cell.
pub proof fn resize_keeps_wf(s: ScreenState, lines: int, columns: int)
    requires
        s.wf(),
        0 < lines <= usize::MAX,
        0 < columns <= usize::MAX,
    ensures
        s.resize(lines, columns).wf(),
{
    reshaped_is_rect(s.buffer, lines, columns, s.default_char);
    if let Some(p) = s.parked {
        reshaped_is_rect(p.buffer, lines, columns, s.default_char);
    }
}

/// A full reset.
pub proof fn reset_keeps_wf(s: ScreenState)
    requires
        s.wf(),
    ensures
        s.reset().wf(),
{
    reshaped_is_rect(s.buffer, s.lines, s.columns, Cell::blank());
}

/// Showing and leaving the alternate screen.
pub proof fn alt_screen_keeps_wf(s: ScreenState)
    requires
        s.wf(),
    ensures
        s.enter_alt_screen().wf(),
        s.exit_alt_screen().wf(),
{
    reshaped_is_rect(s.buffer, s.lines, s.columns, s.default_char);
}

/// A change of the width.
pub proof fn set_width_keeps_wf(s: ScreenState, columns: int)
    requires
        s.wf(),
        0 < columns <= usize::MAX,
    ensures
        s.set_width(columns).wf(),
{
    reshaped_is_rect(s.buffer, s.lines, columns, s.default_char);
    if let Some(p) = s.parked {
        reshaped_is_rect(p.buffer, s.lines, columns, s.default_char);
    }
}

/// Setting a mode.
pub proof fn set_mode_keeps_wf(s: ScreenState, mode: u16, private: bool)
    requires
        s.wf(),
    ensures
        s.set_mode(mode, private).wf(),
{
    if private {
        let t = ScreenState { mode: s.mode.with_private(mode), ..s };
        assert(t.wf());
        if mode == modes::DECCOLM {
            set_width_keeps_wf(t, 132);
            reshaped_is_rect(t.buffer, t.lines, 132, t.default_char);
        } else if mode == modes::DECSCNM {
            reversed_is_rect(t.buffer, true, t.lines, t.columns);
        } else {
            alt_screen_keeps_wf(t);
        }
    }
}

/// Clearing a mode.
pub proof fn reset_mode_keeps_wf(s: ScreenState, mode: u16, private: bool)
    requires
        s.wf(),
    ensures
        s.reset_mode(mode, private).wf(),
{
    if private {
        let t = ScreenState { mode: s.mode.without_private(mode), ..s };
        assert(t.wf());
        if mode == modes::DECCOLM {
            set_width_keeps_wf(t, 80);
        } else if mode == modes::DECSCNM {
            reversed_is_rect(t.buffer, false, t.lines, t.columns);
        } else {
            alt_screen_keeps_wf(t);
        }
    }
}

proof fn reversed_is_rect(
    rows: Seq<Seq<Cell>>,
    on: bool,
    lines: int,
    columns: int,
)
    requires
        grid::is_rect(rows, lines, columns),
    ensures
        grid::is_rect(grid::reversed(rows, on), lines, columns),
{
    reveal(grid::is_rect);
}

/// Every way of addressing or moving the cursor.
pub proof fn cursor_moves_keep_wf(s: ScreenState, n: int, m: int)
    requires
        s.wf(),
        n >= 0,
        m >= 0,
    ensures
        s.cursor_position(n, m).wf(),
        s.cursor_up(n).wf(),
        s.cursor_down(n).wf(),
        s.cursor_forward(n).wf(),
        s.cursor_back(n).wf(),
{
}

/// Every control sequence that moves the cursor.
pub proof fn csi_move_keeps_wf(s: ScreenState, params: Seq<u16>, action: char)
    requires
        s.wf(),
    ensures
        s.csi_move(params, action).wf(),
{
    reveal(ScreenState::csi_move);
    let n = state::param(params, 0, 1);
    cursor_moves_keep_wf(s, n, state::param(params, 1, 1));
    cursor_moves_keep_wf(s, s.y + 1, n);
    cursor_moves_keep_wf(s, n, s.x + 1);
}

/// Replacing the cursor's row by one of the same length.
pub proof fn with_row_keeps_wf(s: ScreenState, row: Seq<Cell>)
    requires
        s.wf(),
        row.len() == s.columns,
    ensures
        s.with_row(row).wf(),
        s.row().len() == s.columns,
{
    grid::rect_row(s.buffer, s.lines, s.columns, s.y);
    grid::rect_update(s.buffer, s.lines, s.columns, s.y, row);
}

/// Replacing lines by lines of the same length.
pub proof fn with_buffer_keeps_wf(s: ScreenState, buffer: Seq<Seq<Cell>>)
    requires
        s.wf(),
        buffer.len() == s.lines,
        forall|y: int| 0 <= y < s.lines ==> (#[trigger] buffer[y]).len() == s.columns,
    ensures
        (ScreenState { buffer, ..s }).wf(),
{
    reveal(grid::is_rect);
}

/// Moving the lines of the scroll region up.
pub proof fn lift_keeps_wf(s: ScreenState, n: int)
    requires
        s.wf(),
        n >= 0,
    ensures
        s.lifted(n).wf(),
{
    reveal(grid::is_rect);
    with_buffer_keeps_wf(s, s.lifted(n).buffer);
}

/// Scrolling.
pub proof fn scroll_keeps_wf(s: ScreenState, rows: int)
    requires
        s.wf(),
        rows >= 0,
    ensures
        s.scroll_up(rows).wf(),
        s.scroll_down(rows).wf(),
{
    reveal(grid::is_rect);
    with_buffer_keeps_wf(s, s.scroll_up(rows).buffer);
    with_buffer_keeps_wf(s, s.scroll_down(rows).buffer);
}

/// The line movements.
pub proof fn line_moves_keep_wf(s: ScreenState)
    requires
        s.wf(),
    ensures
        s.linefeed().wf(),
        s.index().wf(),
        s.reverse_index().wf(),
{
    scroll_keeps_wf(s, 1);
}

/// A tab moves the cursor to a column of the screen.
pub proof fn next_tab_is_inside(stops: Set<usize>, from: int, columns: int)
    requires
        columns > 0,
        from >= 0,
    ensures
        0 <= state::next_tab(stops, from, columns) < columns,
    decreases columns - from,
{
    if from < columns && !stops.contains(from as usize) {
        next_tab_is_inside(stops, from + 1, columns);
    }
}

/// Tabs, and saving and restoring the cursor.
pub proof fn tab_and_restore_keep_wf(s: ScreenState)
    requires
        s.wf(),
    ensures
        s.tab().wf(),
        s.save_cursor().wf(),
        s.restore_cursor().wf(),
{
    next_tab_is_inside(s.tabstops, s.x + 1, s.columns);
}

/// Edits of the cursor's row.
pub proof fn row_edits_keep_wf(s: ScreenState, n: int)
    requires
        s.wf(),
        n >= 0,
    ensures
        s.insert_characters(n).wf(),
        s.delete_characters(n).wf(),
        s.erase_characters(n).wf(),
        s.erase_in_line(n).wf(),
{
    grid::rect_row(s.buffer, s.lines, s.columns, s.y);
    with_row_keeps_wf(s, s.insert_characters(n).buffer[s.y]);
    with_row_keeps_wf(s, s.delete_characters(n).buffer[s.y]);
    with_row_keeps_wf(s, s.erase_characters(n).buffer[s.y]);
    with_row_keeps_wf(s, s.erase_in_line(n).buffer[s.y]);
}

/// Erasing whole lines.
pub proof fn erase_lines_keeps_wf(s: ScreenState, from: int, to: int)
    requires
        s.wf(),
    ensures
        s.erase_lines(from, to).wf(),
        s.erase_lines(from, to).row().len() == s.columns,
{
    reveal(grid::is_rect);
    with_buffer_keeps_wf(s, s.erase_lines(from, to).buffer);
}

/// Erasing parts of the display.
pub proof fn erase_in_display_keeps_wf(s: ScreenState, mode: int)
    requires
        s.wf(),
    ensures
        s.erase_in_display(mode).wf(),
{
    reveal(ScreenState::erase_in_display);
    grid::rect_row(s.buffer, s.lines, s.columns, s.y);
    if mode == 0 {
        let row = grid::filled(s.row(), s.x, s.columns, s.default_char);
        with_row_keeps_wf(s, row);
        erase_lines_keeps_wf(s.with_row(row), s.y + 1, s.bottom() + 1);
    } else if mode == 1 {
        let t = s.erase_lines(s.top(), s.y);
        erase_lines_keeps_wf(s, s.top(), s.y);
        with_row_keeps_wf(
            t,
            grid::filled(s.row(), 0, state::min(s.x, s.columns - 1) + 1, s.default_char),
        );
    } else {
        erase_lines_keeps_wf(s, s.top(), s.bottom() + 1);
    }
}

/// Inserting and deleting lines.
pub proof fn line_edits_keep_wf(s: ScreenState, n: int)
    requires
        s.wf(),
        n >= 0,
    ensures
        s.insert_lines(n).wf(),
        s.delete_lines(n).wf(),
{
    reveal(grid::is_rect);
    with_buffer_keeps_wf(s, s.insert_lines(n).buffer);
    with_buffer_keeps_wf(s, s.delete_lines(n).buffer);
}

/// Every control sequence that edits the screen.
pub proof fn csi_edit_keeps_wf(s: ScreenState, params: Seq<u16>, action: char)
    requires
        s.wf(),
    ensures
        s.csi_edit(params, action).wf(),
{
    reveal(ScreenState::csi_edit);
    let n = state::param(params, 0, 1);
    let m = state::param(params, 0, 0);
    erase_in_display_keeps_wf(s, m);
    row_edits_keep_wf(s, m);
    row_edits_keep_wf(s, n);
    line_edits_keep_wf(s, n);
    scroll_keeps_wf(s, n);
}

/// Writing a character of any width.
pub proof fn draw_keeps_wf(s: ScreenState, c: char, width: int)
    requires
        s.wf(),
        width >= 0,
    ensures
        s.draw_sized(c, width).wf(),
{
    grid::rect_row(s.buffer, s.lines, s.columns, s.y);
    if width == 0 {
        if s.x > 0 {
            grid::rect_update(s.buffer, s.lines, s.columns, s.y, s.joined(c).buffer[s.y]);
        }
    } else {
        let w = s.wrapped();
        assert(w.wf());
        row_edits_keep_wf(w, 1);
        let t = w.opened(width);
        grid::rect_row(t.buffer, t.lines, t.columns, t.y);
        with_row_keeps_wf(t, t.put(c, width).buffer[t.y]);
        assert(t.put(c, width).wf());
    }
}

/// Writing text.
pub proof fn draw_text_keeps_wf(s: ScreenState, text: Seq<char>)
    requires
        s.wf(),
    ensures
        s.draw(text).wf(),
    decreases text.len(),
{
    if text.len() > 0 {
        draw_text_keeps_wf(s, text.drop_last());
        let t = s.draw(text.drop_last());
        draw_keeps_wf(
            t,
            t.shown(text.last()),
            super::cell::columns_of(text.last()) as int,
        );
    }
}

/// The alignment pattern.
pub proof fn alignment_keeps_wf(s: ScreenState)
    requires
        s.wf(),
    ensures
        s.alignment_display().wf(),
{
    reveal(grid::is_rect);
    with_buffer_keeps_wf(s, s.alignment_display().buffer);
}

/// Several modes set or cleared in order.
pub proof fn mode_lists_keep_wf(s: ScreenState, params: Seq<u16>, private: bool)
    requires
        s.wf(),
    ensures
        s.set_modes(params, private).wf(),
        s.reset_modes(params, private).wf(),
    decreases params.len(),
{
    if params.len() > 0 {
        mode_lists_keep_wf(s, params.drop_last(), private);
        set_mode_keeps_wf(s.set_modes(params.drop_last(), private), params.last(), private);
        reset_mode_keeps_wf(s.reset_modes(params.drop_last(), private), params.last(), private);
    }
}

/// The keyboard and cursor requests.
pub proof fn csi_u_keeps_wf(s: ScreenState, params: Seq<u16>, intermediates: Seq<u8>)
    requires
        s.wf(),
    ensures
        s.csi_u(params, intermediates).wf(),
{
    reveal(ScreenState::csi_u);
    tab_and_restore_keep_wf(s);
}

/// A new scroll region, with the cursor at home.
pub proof fn set_margins_keeps_wf(s: ScreenState, top: Option<int>, bottom: Option<int>)
    requires
        s.wf(),
    ensures
        s.set_margins(top, bottom).wf(),
        s.set_margins(top, bottom).cursor_position(1, 1).wf(),
{
    cursor_moves_keep_wf(s.set_margins(top, bottom), 1, 1);
}

/// Every control sequence, whatever its parameters, leaves the screen in good order.
pub proof fn csi_dispatch_keeps_wf(
    s: ScreenState,
    params: Seq<u16>,
    intermediates: Seq<u8>,
    action: char,
)
    requires
        s.wf(),
    ensures
        s.csi_dispatch(params, intermediates, action).wf(),
{
    reveal(ScreenState::csi_dispatch);
    if state::is_move(action) {
        csi_move_keeps_wf(s, params, action);
    } else if state::is_edit(action) {
        csi_edit_keeps_wf(s, params, action);
    } else if action == 'h' || action == 'l' {
        mode_lists_keep_wf(s, params, intermediates == seq![0x3fu8]);
    } else if action == 'r' {
        set_margins_keeps_wf(s, state::opt_param(params, 0), state::opt_param(params, 1));
    } else if action == '8' {
        alignment_keeps_wf(s);
    } else if action == 'u' {
        csi_u_keeps_wf(s, params, intermediates);
    } else {
        let t = s.csi_dispatch(params, intermediates, action);
        assert(t.buffer == s.buffer && t.parked == s.parked && t.events == s.events);
    }
}

} // verus!
