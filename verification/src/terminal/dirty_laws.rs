//! What is promised of the rows that are marked as changed: no row changes without a mark, and a
//! mark stays until it is drained.
use super::ansi_parser::Action;
use super::cell;
use super::cell::Cell;
use super::grid;
use super::history::HistoryState;
use super::laws;
use super::modes;
use super::parser;
use super::soundness;
use super::state;
use super::state::ScreenState;
use vstd::prelude::*;

verus! {

/// Whether every row in which `t` differs from `s` is marked in `t`, and every row that is marked
/// in `s`.
#[verifier::opaque]
pub open spec fn marked(s: ScreenState, t: ScreenState) -> bool {
    &&& t.lines == s.lines
    &&& forall|y: usize|
        y < s.lines && (t.buffer[y as int] != s.buffer[y as int] || s.dirty.contains(y))
            ==> #[trigger] t.dirty.contains(y)
}

proof fn rows_stay(s: ScreenState, t: ScreenState)
    requires
        t.lines == s.lines,
        t.buffer == s.buffer,
        t.dirty == s.dirty,
    ensures
        marked(s, t),
{
    reveal(marked);
}

proof fn all_rows_are_marked(s: ScreenState, t: ScreenState)
    requires
        t.lines == s.lines,
        t.dirty == state::rows_between(0, s.lines),
    ensures
        marked(s, t),
{
    reveal(marked);
}

proof fn marked_on(s: ScreenState, t: ScreenState, u: ScreenState)
    requires
        marked(s, t),
        marked(t, u),
    ensures
        marked(s, u),
{
    reveal(marked);
}

proof fn a_row_is_marked(s: ScreenState, row: Seq<Cell>)
    requires
        s.wf(),
    ensures
        marked(s, s.with_row(row)),
{
    reveal(marked);
    grid::rect_row(s.buffer, s.lines, s.columns, s.y);
}

proof fn erased_lines_are_marked(s: ScreenState, from: int, to: int)
    requires
        s.wf(),
    ensures
        marked(s, s.erase_lines(from, to)),
{
    reveal(marked);
    grid::rect_row(s.buffer, s.lines, s.columns, s.y);
}

proof fn erased_displays_are_marked(s: ScreenState, mode: int)
    requires
        s.wf(),
    ensures
        marked(s, s.erase_in_display(mode)),
{
    reveal(ScreenState::erase_in_display);
    grid::rect_row(s.buffer, s.lines, s.columns, s.y);
    if mode == 0 {
        let row = grid::filled(s.row(), s.x, s.columns, s.default_char);
        a_row_is_marked(s, row);
        soundness::with_row_keeps_wf(s, row);
        erased_lines_are_marked(s.with_row(row), s.y + 1, s.bottom() + 1);
        marked_on(s, s.with_row(row), s.erase_in_display(mode));
    } else if mode == 1 {
        let t = s.erase_lines(s.top(), s.y);
        erased_lines_are_marked(s, s.top(), s.y);
        soundness::erase_lines_keeps_wf(s, s.top(), s.y);
        a_row_is_marked(
            t,
            grid::filled(s.row(), 0, state::min(s.x, s.columns - 1) + 1, s.default_char),
        );
        marked_on(s, t, s.erase_in_display(mode));
    } else if mode == 2 || mode == 3 {
        erased_lines_are_marked(s, s.top(), s.bottom() + 1);
    } else {
        rows_stay(s, s);
    }
}

proof fn row_edits_are_marked(s: ScreenState, n: int)
    requires
        s.wf(),
    ensures
        marked(s, s.erase_in_line(n)),
        marked(s, s.erase_characters(n)),
        marked(s, s.delete_characters(n)),
        marked(s, s.insert_characters(n)),
{
    reveal(marked);
    grid::rect_row(s.buffer, s.lines, s.columns, s.y);
}

proof fn line_edits_are_marked(s: ScreenState, n: int)
    requires
        s.wf(),
    ensures
        marked(s, s.insert_lines(n)),
        marked(s, s.delete_lines(n)),
{
    reveal(marked);
    grid::rect_row(s.buffer, s.lines, s.columns, s.y);
}

proof fn lifted_lines_are_marked(s: ScreenState, n: int)
    requires
        s.wf(),
        n >= 0,
    ensures
        marked(s, s.lifted(n)),
{
    reveal(marked);
    grid::rect_row(s.buffer, s.lines, s.columns, s.y);
}

proof fn scrolled_lines_are_marked(s: ScreenState, n: int)
    requires
        s.wf(),
        n >= 0,
    ensures
        marked(s, s.scroll_up(n)),
        marked(s, s.scroll_down(n)),
{
    reveal(marked);
    grid::rect_row(s.buffer, s.lines, s.columns, s.y);
}

proof fn fed_lines_are_marked(s: ScreenState)
    requires
        s.wf(),
    ensures
        marked(s, s.linefeed()),
        marked(s, s.reverse_index()),
{
    scrolled_lines_are_marked(s, 1);
    rows_stay(s, s.at(s.x, s.y + 1));
    rows_stay(s, s.at(0, s.y - 1));
    let t = if s.y < s.bottom() {
        s.at(s.x, s.y + 1)
    } else {
        s.scroll_up(1)
    };
    rows_stay(t, s.linefeed());
    marked_on(s, t, s.linefeed());
}

proof fn a_mode_is_marked(s: ScreenState, mode: u16, private: bool)
    ensures
        marked(s, s.set_mode(mode, private)),
        marked(s, s.reset_mode(mode, private)),
{
    let set = s.set_mode(mode, private);
    let cleared = s.reset_mode(mode, private);
    if private && (mode == modes::DECCOLM || mode == modes::DECSCNM) {
        all_rows_are_marked(s, set);
        all_rows_are_marked(s, cleared);
    } else if private && state::is_alt_mode(mode) {
        if s.alt_screen {
            rows_stay(s, set);
        } else {
            all_rows_are_marked(s, set);
        }
        if s.parked is Some {
            all_rows_are_marked(s, cleared);
        } else {
            rows_stay(s, cleared);
        }
    } else {
        rows_stay(s, set);
        rows_stay(s, cleared);
    }
}

proof fn modes_are_marked(s: ScreenState, params: Seq<u16>, private: bool)
    ensures
        marked(s, s.set_modes(params, private)),
        marked(s, s.reset_modes(params, private)),
    decreases params.len(),
{
    if params.len() == 0 {
        rows_stay(s, s);
    } else {
        let rest = params.drop_last();
        modes_are_marked(s, rest, private);
        let set = s.set_modes(rest, private);
        let cleared = s.reset_modes(rest, private);
        a_mode_is_marked(set, params.last(), private);
        a_mode_is_marked(cleared, params.last(), private);
        marked_on(s, set, set.set_mode(params.last(), private));
        marked_on(s, cleared, cleared.reset_mode(params.last(), private));
    }
}

proof fn the_pattern_is_marked(s: ScreenState)
    ensures
        marked(s, s.alignment_display()),
{
    reveal(marked);
}

proof fn moves_are_marked(s: ScreenState, params: Seq<u16>, action: char)
    ensures
        marked(s, s.csi_move(params, action)),
{
    reveal(ScreenState::csi_move);
    rows_stay(s, s.csi_move(params, action));
}

proof fn edits_are_marked(s: ScreenState, params: Seq<u16>, action: char)
    requires
        s.wf(),
    ensures
        marked(s, s.csi_edit(params, action)),
{
    reveal(ScreenState::csi_edit);
    let n = state::param(params, 0, 1);
    let m = state::param(params, 0, 0);
    if action == 'J' {
        erased_displays_are_marked(s, m);
    } else if action == 'K' {
        row_edits_are_marked(s, m);
    } else if action == 'X' || action == 'P' || action == '@' {
        row_edits_are_marked(s, n);
    } else if action == 'L' || action == 'M' {
        line_edits_are_marked(s, n);
    } else {
        scrolled_lines_are_marked(s, n);
    }
}

proof fn requests_are_marked(s: ScreenState, params: Seq<u16>, intermediates: Seq<u8>)
    ensures
        marked(s, s.csi_u(params, intermediates)),
{
    reveal(ScreenState::csi_u);
    rows_stay(s, s.csi_u(params, intermediates));
}

proof fn csi_is_marked(s: ScreenState, params: Seq<u16>, intermediates: Seq<u8>, action: char)
    requires
        s.wf(),
    ensures
        marked(s, s.csi_dispatch(params, intermediates, action)),
{
    reveal(ScreenState::csi_dispatch);
    if state::is_move(action) {
        moves_are_marked(s, params, action);
    } else if state::is_edit(action) {
        edits_are_marked(s, params, action);
    } else if action == 'h' || action == 'l' {
        modes_are_marked(s, params, intermediates == seq![0x3fu8]);
    } else if action == 'u' {
        requests_are_marked(s, params, intermediates);
    } else if action == '8' {
        the_pattern_is_marked(s);
    } else {
        rows_stay(s, s.csi_dispatch(params, intermediates, action));
    }
}

proof fn joined_rows_are_marked(s: ScreenState, c: char)
    requires
        s.wf(),
    ensures
        marked(s, s.joined(c)),
{
    reveal(marked);
    grid::rect_row(s.buffer, s.lines, s.columns, s.y);
}

proof fn drawn_rows_are_marked(s: ScreenState, c: char, width: int)
    requires
        s.wf(),
        width >= 0,
    ensures
        marked(s, s.draw_sized(c, width)),
{
    if width == 0 {
        joined_rows_are_marked(s, c);
    } else {
        let w = s.wrapped();
        let o = w.opened(width);
        let p = o.put(c, width);
        rows_stay(s, w);
        assert(w.wf());
        row_edits_are_marked(w, 1);
        rows_stay(w, w);
        soundness::row_edits_keep_wf(w, 1);
        assert(o.wf());
        a_row_is_marked(o, p.buffer[o.y]);
        grid::rect_row(o.buffer, o.lines, o.columns, o.y);
        assert(p == o.with_row(p.buffer[o.y]));
        rows_stay(p, p.advanced(width));
        marked_on(s, w, o);
        marked_on(s, o, p);
        marked_on(s, p, p.advanced(width));
    }
}

proof fn controls_are_marked(s: ScreenState, byte: u8)
    requires
        s.wf(),
    ensures
        marked(s, s.execute(byte)),
{
    reveal(ScreenState::execute);
    if byte == 0x0a || byte == 0x0b || byte == 0x0c {
        fed_lines_are_marked(s);
    } else {
        rows_stay(s, s.execute(byte));
    }
}

proof fn commands_are_marked(s: ScreenState, params: Seq<Seq<u8>>)
    ensures
        marked(s, s.osc(params)),
{
    reveal(ScreenState::osc);
    rows_stay(s, s.osc(params));
}

proof fn escapes_are_marked(s: ScreenState, intermediates: Seq<u8>, byte: u8)
    requires
        s.wf(),
    ensures
        marked(s, s.esc(intermediates, byte)),
{
    reveal(ScreenState::esc);
    if intermediates.len() == 1 && intermediates[0] == 0x23 && byte == 0x38 {
        the_pattern_is_marked(s);
    } else if intermediates.len() == 0 && byte == 0x45 {
        let t = s.at(0, s.y);
        rows_stay(s, t);
        fed_lines_are_marked(t);
        marked_on(s, t, t.linefeed());
    } else if intermediates.len() == 0 && (byte == 0x44 || byte == 0x4d) {
        fed_lines_are_marked(s);
    } else if intermediates.len() == 0 && (byte == 0x3d || byte == 0x3e) {
        a_mode_is_marked(s, modes::DECCKM, true);
    } else {
        rows_stay(s, s.esc(intermediates, byte));
    }
}

proof fn an_action_is_marked(s: ScreenState, action: Action)
    requires
        s.wf(),
    ensures
        marked(s, s.perform(action)),
{
    reveal(ScreenState::perform);
    match action {
        Action::Print(c) => {
            drawn_rows_are_marked(s, s.shown(c), cell::columns_of(c) as int);
        },
        Action::Execute(byte) => {
            controls_are_marked(s, byte);
        },
        Action::Osc { params, .. } => {
            commands_are_marked(s, params);
        },
        Action::Csi { params, intermediates, action, .. } => {
            csi_is_marked(s, parser::joined(params), intermediates, action);
        },
        Action::Esc { intermediates, byte, .. } => {
            escapes_are_marked(s, intermediates, byte);
        },
        _ => {
            rows_stay(s, s);
        },
    }
}

/// Whatever is performed on a screen, every row that differs afterwards is marked as changed, and
/// so is every row that was marked before.
pub proof fn every_changed_row_is_marked(s: ScreenState, actions: Seq<Action>, y: usize)
    requires
        s.wf(),
        y < s.lines,
    ensures
        ({
            let t = s.perform_all(actions);
            t.buffer[y as int] != s.buffer[y as int] || s.dirty.contains(y) ==> t.dirty.contains(y)
        }),
{
    all_actions_are_marked(s, actions);
    reveal(marked);
}

proof fn all_actions_are_marked(s: ScreenState, actions: Seq<Action>)
    requires
        s.wf(),
    ensures
        marked(s, s.perform_all(actions)),
    decreases actions.len(),
{
    if actions.len() == 0 {
        rows_stay(s, s);
    } else {
        let rest = actions.drop_last();
        let t = s.perform_all(rest);
        all_actions_are_marked(s, rest);
        laws::any_input_keeps_wf(s, rest);
        an_action_is_marked(t, actions.last());
        marked_on(s, t, s.perform_all(actions));
    }
}

/// Scrolling with the scrollback marks every row that it changes.
pub proof fn every_scrolled_row_is_marked(h: HistoryState, rows: int, y: usize)
    requires
        h.wf(),
        rows >= 0,
        y < h.screen.lines,
    ensures
        ({
            let up = h.scroll_up(rows).screen;
            up.buffer[y as int] != h.screen.buffer[y as int] || h.screen.dirty.contains(y)
                ==> up.dirty.contains(y)
        }),
        ({
            let down = h.scroll_down(rows).screen;
            down.buffer[y as int] != h.screen.buffer[y as int] || h.screen.dirty.contains(y)
                ==> down.dirty.contains(y)
        }),
{
    let s = h.screen;
    lifted_lines_are_marked(s, s.scroll_count(rows));
    reveal(marked);
    grid::rect_row(s.buffer, s.lines, s.columns, s.y);
}

} // verus!
