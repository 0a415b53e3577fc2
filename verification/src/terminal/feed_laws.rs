//! What is promised of input that comes in pieces: a screen with its scrollback ends in the same
//! state however the pieces are cut.
use super::ansi_parser;
use super::ansi_parser::{Action, Machine};
use super::cell;
use super::cell::Cell;
use super::cwd;
use super::history;
use super::history::HistoryState;
use super::laws;
use super::modes;
use super::parser;
use super::state;
use super::state::ScreenState;
use crate::utf8;
use vstd::prelude::*;

verus! {

/// `s` with the lines `front` waiting for collection before its own.
#[verifier::opaque]
pub open spec fn behind(s: ScreenState, front: Seq<Seq<Cell>>) -> ScreenState {
    ScreenState { scrolled_off: front + s.scrolled_off, ..s }
}

proof fn the_screen_is_the_same(s: ScreenState, front: Seq<Seq<Cell>>)
    ensures
        behind(s, front) == (ScreenState { scrolled_off: front + s.scrolled_off, ..s }),
{
    reveal(behind);
}

proof fn jumps_go_on_behind(s: ScreenState, front: Seq<Seq<Cell>>, x: int, y: int)
    ensures
        behind(s, front).at(x, y) == behind(s.at(x, y), front),
        behind(s, front).cursor_position(y, x) == behind(s.cursor_position(y, x), front),
{
    reveal(behind);
}

proof fn steps_go_on_behind(s: ScreenState, front: Seq<Seq<Cell>>, n: int)
    ensures
        behind(s, front).cursor_up(n) == behind(s.cursor_up(n), front),
        behind(s, front).cursor_down(n) == behind(s.cursor_down(n), front),
        behind(s, front).cursor_forward(n) == behind(s.cursor_forward(n), front),
        behind(s, front).cursor_back(n) == behind(s.cursor_back(n), front),
{
    reveal(behind);
}

proof fn tabs_go_on_behind(s: ScreenState, front: Seq<Seq<Cell>>, n: int)
    ensures
        behind(s, front).tab() == behind(s.tab(), front),
        behind(s, front).set_tab_stop() == behind(s.set_tab_stop(), front),
        behind(s, front).clear_tab_stop(n) == behind(s.clear_tab_stop(n), front),
{
    reveal(behind);
}

proof fn saving_goes_on_behind(s: ScreenState, front: Seq<Seq<Cell>>)
    ensures
        behind(s, front).save_cursor() == behind(s.save_cursor(), front),
        behind(s, front).restore_cursor() == behind(s.restore_cursor(), front),
{
    reveal(behind);
}

proof fn row_edits_go_on_behind(s: ScreenState, front: Seq<Seq<Cell>>, n: int)
    ensures
        behind(s, front).erase_in_line(n) == behind(s.erase_in_line(n), front),
        behind(s, front).erase_characters(n) == behind(s.erase_characters(n), front),
        behind(s, front).delete_characters(n) == behind(s.delete_characters(n), front),
        behind(s, front).insert_characters(n) == behind(s.insert_characters(n), front),
{
    reveal(behind);
}

proof fn erasing_goes_on_behind(s: ScreenState, front: Seq<Seq<Cell>>, n: int)
    ensures
        behind(s, front).erase_in_display(n) == behind(s.erase_in_display(n), front),
{
    reveal(behind);
    reveal(ScreenState::erase_in_display);
}

proof fn line_edits_go_on_behind(s: ScreenState, front: Seq<Seq<Cell>>, n: int)
    ensures
        behind(s, front).insert_lines(n) == behind(s.insert_lines(n), front),
        behind(s, front).delete_lines(n) == behind(s.delete_lines(n), front),
{
    reveal(behind);
}

proof fn lifting_goes_on_behind(s: ScreenState, front: Seq<Seq<Cell>>, n: int)
    ensures
        behind(s, front).scroll_up(n) == behind(s.scroll_up(n), front),
{
    reveal(behind);
    assert(behind(s, front).scroll_up(n).scrolled_off =~= behind(
        s.scroll_up(n),
        front,
    ).scrolled_off);
}

proof fn lowering_goes_on_behind(s: ScreenState, front: Seq<Seq<Cell>>, n: int)
    ensures
        behind(s, front).scroll_down(n) == behind(s.scroll_down(n), front),
{
    reveal(behind);
}

proof fn feeds_go_on_behind(s: ScreenState, front: Seq<Seq<Cell>>)
    ensures
        behind(s, front).linefeed() == behind(s.linefeed(), front),
        behind(s, front).reverse_index() == behind(s.reverse_index(), front),
{
    lifting_goes_on_behind(s, front, 1);
    lowering_goes_on_behind(s, front, 1);
    reveal(behind);
}

proof fn switches_go_on_behind(s: ScreenState, front: Seq<Seq<Cell>>)
    ensures
        behind(s, front).enter_alt_screen() == behind(s.enter_alt_screen(), front),
        behind(s, front).exit_alt_screen() == behind(s.exit_alt_screen(), front),
{
    reveal(behind);
}

proof fn widths_go_on_behind(s: ScreenState, front: Seq<Seq<Cell>>, columns: int)
    ensures
        behind(s, front).set_width(columns) == behind(s.set_width(columns), front),
{
    reveal(behind);
}

proof fn a_mode_that_is_set_goes_on_behind(
    s: ScreenState,
    front: Seq<Seq<Cell>>,
    mode: u16,
    private: bool,
)
    ensures
        behind(s, front).set_mode(mode, private) == behind(s.set_mode(mode, private), front),
{
    the_screen_is_the_same(s, front);
    if private {
        let t = ScreenState { mode: s.mode.with_private(mode), ..s };
        the_screen_is_the_same(t, front);
        if mode == modes::DECCOLM {
            widths_go_on_behind(t, front, 132);
            the_screen_is_the_same(t.set_width(132), front);
            the_screen_is_the_same(s.set_mode(mode, private), front);
        } else if state::is_alt_mode(mode) {
            switches_go_on_behind(t, front);
        } else {
            the_screen_is_the_same(s.set_mode(mode, private), front);
        }
    } else {
        the_screen_is_the_same(s.set_mode(mode, private), front);
    }
}

proof fn a_mode_that_is_cleared_goes_on_behind(
    s: ScreenState,
    front: Seq<Seq<Cell>>,
    mode: u16,
    private: bool,
)
    ensures
        behind(s, front).reset_mode(mode, private) == behind(s.reset_mode(mode, private), front),
{
    the_screen_is_the_same(s, front);
    if private {
        let t = ScreenState { mode: s.mode.without_private(mode), ..s };
        the_screen_is_the_same(t, front);
        if mode == modes::DECCOLM {
            widths_go_on_behind(t, front, 80);
        } else if state::is_alt_mode(mode) {
            switches_go_on_behind(t, front);
        } else {
            the_screen_is_the_same(s.reset_mode(mode, private), front);
        }
    } else {
        the_screen_is_the_same(s.reset_mode(mode, private), front);
    }
}

proof fn modes_go_on_behind(
    s: ScreenState,
    front: Seq<Seq<Cell>>,
    params: Seq<u16>,
    private: bool,
)
    ensures
        behind(s, front).set_modes(params, private) == behind(s.set_modes(params, private), front),
        behind(s, front).reset_modes(params, private) == behind(
            s.reset_modes(params, private),
            front,
        ),
    decreases params.len(),
{
    if params.len() > 0 {
        let rest = params.drop_last();
        modes_go_on_behind(s, front, rest, private);
        let mode = params.last();
        a_mode_that_is_set_goes_on_behind(s.set_modes(rest, private), front, mode, private);
        a_mode_that_is_cleared_goes_on_behind(s.reset_modes(rest, private), front, mode, private);
    }
}

proof fn margins_go_on_behind(
    s: ScreenState,
    front: Seq<Seq<Cell>>,
    top: Option<int>,
    bottom: Option<int>,
)
    ensures
        behind(s, front).set_margins(top, bottom) == behind(s.set_margins(top, bottom), front),
{
    reveal(behind);
}

proof fn attributes_go_on_behind(s: ScreenState, front: Seq<Seq<Cell>>, params: Seq<u16>, n: int)
    ensures
        behind(s, front).select_graphic_rendition(params) == behind(
            s.select_graphic_rendition(params),
            front,
        ),
        behind(s, front).set_cursor_style(n) == behind(s.set_cursor_style(n), front),
        behind(s, front).alignment_display() == behind(s.alignment_display(), front),
{
    reveal(behind);
}

proof fn replies_go_on_behind(s: ScreenState, front: Seq<Seq<Cell>>, n: int)
    ensures
        behind(s, front).identify() == behind(s.identify(), front),
        behind(s, front).report_device_status(n) == behind(s.report_device_status(n), front),
        behind(s, front).report_keyboard_mode() == behind(s.report_keyboard_mode(), front),
{
    reveal(behind);
}

proof fn keyboard_modes_go_on_behind(s: ScreenState, front: Seq<Seq<Cell>>, mode: u16, n: int)
    ensures
        behind(s, front).push_keyboard_mode(mode) == behind(s.push_keyboard_mode(mode), front),
        behind(s, front).pop_keyboard_modes(n) == behind(s.pop_keyboard_modes(n), front),
{
    reveal(behind);
}

proof fn a_keyboard_mode_goes_on_behind(
    s: ScreenState,
    front: Seq<Seq<Cell>>,
    mode: u16,
    behavior: state::KeyboardApplyBehavior,
)
    ensures
        behind(s, front).set_keyboard_mode(mode, behavior) == behind(
            s.set_keyboard_mode(mode, behavior),
            front,
        ),
{
    reveal(behind);
}

proof fn names_go_on_behind(s: ScreenState, front: Seq<Seq<Cell>>, name: Seq<char>)
    ensures
        behind(s, front).set_icon_name(name) == behind(s.set_icon_name(name), front),
        behind(s, front).set_title(name) == behind(s.set_title(name), front),
        behind(s, front).ring_bell() == behind(s.ring_bell(), front),
{
    reveal(behind);
}

proof fn directories_go_on_behind(s: ScreenState, front: Seq<Seq<Cell>>, path: Option<Seq<char>>)
    ensures
        behind(s, front).report_cwd(path) == behind(s.report_cwd(path), front),
{
    reveal(behind);
}

proof fn character_sets_go_on_behind(
    s: ScreenState,
    front: Seq<Seq<Cell>>,
    code: Seq<char>,
    target: char,
)
    ensures
        behind(s, front).define_charset(code, target) == behind(
            s.define_charset(code, target),
            front,
        ),
{
    reveal(behind);
}

proof fn moves_go_on_behind(
    s: ScreenState,
    front: Seq<Seq<Cell>>,
    params: Seq<u16>,
    action: char,
)
    ensures
        behind(s, front).csi_move(params, action) == behind(s.csi_move(params, action), front),
{
    reveal(ScreenState::csi_move);
    let n = state::param(params, 0, 1);
    the_screen_is_the_same(s, front);
    steps_go_on_behind(s, front, n);
    if action == 'E' {
        let t = s.cursor_down(n);
        the_screen_is_the_same(t, front);
        jumps_go_on_behind(t, front, 0, t.y);
    } else if action == 'F' {
        let t = s.cursor_up(n);
        the_screen_is_the_same(t, front);
        jumps_go_on_behind(t, front, 0, t.y);
    } else if action == 'G' {
        jumps_go_on_behind(s, front, n, s.y + 1);
    } else if action == 'd' {
        jumps_go_on_behind(s, front, s.x + 1, n);
    } else {
        jumps_go_on_behind(s, front, state::param(params, 1, 1), n);
    }
}

proof fn edits_go_on_behind(
    s: ScreenState,
    front: Seq<Seq<Cell>>,
    params: Seq<u16>,
    action: char,
)
    ensures
        behind(s, front).csi_edit(params, action) == behind(s.csi_edit(params, action), front),
{
    reveal(ScreenState::csi_edit);
    let n = state::param(params, 0, 1);
    let m = state::param(params, 0, 0);
    if action == 'J' {
        erasing_goes_on_behind(s, front, m);
    } else if action == 'K' {
        row_edits_go_on_behind(s, front, m);
    } else if action == 'X' || action == 'P' || action == '@' {
        row_edits_go_on_behind(s, front, n);
    } else if action == 'L' || action == 'M' {
        line_edits_go_on_behind(s, front, n);
    } else if action == 'S' {
        lifting_goes_on_behind(s, front, n);
    } else {
        lowering_goes_on_behind(s, front, n);
    }
}

proof fn requests_go_on_behind(
    s: ScreenState,
    front: Seq<Seq<Cell>>,
    params: Seq<u16>,
    intermediates: Seq<u8>,
)
    ensures
        behind(s, front).csi_u(params, intermediates) == behind(
            s.csi_u(params, intermediates),
            front,
        ),
{
    reveal(ScreenState::csi_u);
    replies_go_on_behind(s, front, 0);
    keyboard_modes_go_on_behind(
        s,
        front,
        state::param(params, 0, 0) as u16,
        state::param(params, 0, 1),
    );
    saving_goes_on_behind(s, front);
    if params.len() >= 1 {
        a_keyboard_mode_goes_on_behind(
            s,
            front,
            params[0],
            state::KeyboardApplyBehavior::Difference,
        );
        a_keyboard_mode_goes_on_behind(
            s,
            front,
            params[0],
            state::KeyboardApplyBehavior::Union,
        );
        a_keyboard_mode_goes_on_behind(
            s,
            front,
            params[0],
            state::KeyboardApplyBehavior::Replace,
        );
    }
}

proof fn csi_goes_on_behind(
    s: ScreenState,
    front: Seq<Seq<Cell>>,
    params: Seq<u16>,
    intermediates: Seq<u8>,
    action: char,
)
    ensures
        behind(s, front).csi_dispatch(params, intermediates, action) == behind(
            s.csi_dispatch(params, intermediates, action),
            front,
        ),
{
    reveal(ScreenState::csi_dispatch);
    let m = state::param(params, 0, 0);
    if state::is_move(action) {
        moves_go_on_behind(s, front, params, action);
    } else if state::is_edit(action) {
        edits_go_on_behind(s, front, params, action);
    } else if action == 'h' || action == 'l' {
        modes_go_on_behind(s, front, params, intermediates == seq![0x3fu8]);
    } else if action == 'r' {
        let top = state::opt_param(params, 0);
        let bottom = state::opt_param(params, 1);
        margins_go_on_behind(s, front, top, bottom);
        jumps_go_on_behind(s.set_margins(top, bottom), front, 1, 1);
    } else if action == 's' {
        saving_goes_on_behind(s, front);
    } else if action == 'u' {
        requests_go_on_behind(s, front, params, intermediates);
    } else if action == 'g' {
        tabs_go_on_behind(s, front, m);
    } else if action == 'n' || action == 'c' {
        replies_go_on_behind(s, front, m);
    } else {
        attributes_go_on_behind(s, front, params, m);
    }
}

proof fn joining_goes_on_behind(s: ScreenState, front: Seq<Seq<Cell>>, c: char)
    ensures
        behind(s, front).joined(c) == behind(s.joined(c), front),
{
    reveal(behind);
}

proof fn wrapping_goes_on_behind(s: ScreenState, front: Seq<Seq<Cell>>)
    ensures
        behind(s, front).wrapped() == behind(s.wrapped(), front),
{
    reveal(behind);
}

proof fn opening_goes_on_behind(s: ScreenState, front: Seq<Seq<Cell>>, width: int)
    ensures
        behind(s, front).opened(width) == behind(s.opened(width), front),
{
    reveal(behind);
}

proof fn putting_goes_on_behind(s: ScreenState, front: Seq<Seq<Cell>>, c: char, width: int)
    ensures
        behind(s, front).put(c, width) == behind(s.put(c, width), front),
{
    reveal(behind);
}

proof fn advancing_goes_on_behind(s: ScreenState, front: Seq<Seq<Cell>>, width: int)
    ensures
        behind(s, front).advanced(width) == behind(s.advanced(width), front),
{
    reveal(behind);
}

proof fn drawing_goes_on_behind(s: ScreenState, front: Seq<Seq<Cell>>, c: char, width: int)
    ensures
        behind(s, front).draw_sized(c, width) == behind(s.draw_sized(c, width), front),
{
    if width == 0 {
        joining_goes_on_behind(s, front, c);
    } else {
        wrapping_goes_on_behind(s, front);
        let w = s.wrapped();
        opening_goes_on_behind(w, front, width);
        let o = w.opened(width);
        putting_goes_on_behind(o, front, c, width);
        advancing_goes_on_behind(o.put(c, width), front, width);
    }
}

proof fn controls_go_on_behind(s: ScreenState, front: Seq<Seq<Cell>>, byte: u8)
    ensures
        behind(s, front).execute(byte) == behind(s.execute(byte), front),
{
    reveal(ScreenState::execute);
    if byte == 0x0d {
        the_screen_is_the_same(s, front);
        jumps_go_on_behind(s, front, 0, s.y);
    } else if byte == 0x0a || byte == 0x0b || byte == 0x0c {
        feeds_go_on_behind(s, front);
    } else if byte == 0x09 {
        tabs_go_on_behind(s, front, 0);
    } else if byte == 0x08 {
        steps_go_on_behind(s, front, 1);
    } else if byte == 0x07 {
        names_go_on_behind(s, front, seq![]);
    } else {
        reveal(behind);
    }
}

proof fn commands_go_on_behind(s: ScreenState, front: Seq<Seq<Cell>>, params: Seq<Seq<u8>>)
    ensures
        behind(s, front).osc(params) == behind(s.osc(params), front),
{
    reveal(ScreenState::osc);
    if params.len() > 0 {
        let name = utf8::lossy(parser::joined(params.skip(1)));
        names_go_on_behind(s, front, name);
        names_go_on_behind(s.set_icon_name(name), front, name);
        if params.len() >= 2 {
            directories_go_on_behind(s, front, cwd::osc7_path(params[1]));
        }
        if params.len() >= 3 {
            let icon = utf8::lossy(params[1]);
            names_go_on_behind(s, front, icon);
            names_go_on_behind(s.set_icon_name(icon), front, utf8::lossy(params[2]));
            directories_go_on_behind(s, front, cwd::path_text(params[2]));
        }
    }
}

proof fn escapes_go_on_behind(
    s: ScreenState,
    front: Seq<Seq<Cell>>,
    intermediates: Seq<u8>,
    byte: u8,
)
    ensures
        behind(s, front).esc(intermediates, byte) == behind(s.esc(intermediates, byte), front),
{
    reveal(ScreenState::esc);
    if intermediates.len() == 1 {
        attributes_go_on_behind(s, front, seq![], 0);
        character_sets_go_on_behind(s, front, seq![byte as char], intermediates[0] as char);
    } else if intermediates.len() == 0 {
        if byte == 0x45 {
            the_screen_is_the_same(s, front);
            jumps_go_on_behind(s, front, 0, s.y);
            feeds_go_on_behind(s.at(0, s.y), front);
        } else if byte == 0x44 || byte == 0x4d {
            feeds_go_on_behind(s, front);
        } else if byte == 0x48 {
            tabs_go_on_behind(s, front, 0);
        } else if byte == 0x5a {
            replies_go_on_behind(s, front, 0);
        } else if byte == 0x37 || byte == 0x38 {
            saving_goes_on_behind(s, front);
        } else if byte == 0x3d {
            a_mode_that_is_set_goes_on_behind(s, front, modes::DECCKM, true);
        } else if byte == 0x3e {
            a_mode_that_is_cleared_goes_on_behind(s, front, modes::DECCKM, true);
        }
    }
}

proof fn an_action_goes_on_behind(s: ScreenState, front: Seq<Seq<Cell>>, action: Action)
    ensures
        behind(s, front).perform(action) == behind(s.perform(action), front),
{
    reveal(ScreenState::perform);
    match action {
        Action::Print(c) => {
            the_screen_is_the_same(s, front);
            drawing_goes_on_behind(s, front, s.shown(c), cell::columns_of(c) as int);
        },
        Action::Execute(byte) => {
            controls_go_on_behind(s, front, byte);
        },
        Action::Osc { params, .. } => {
            commands_go_on_behind(s, front, params);
        },
        Action::Csi { params, intermediates, action, .. } => {
            csi_goes_on_behind(s, front, parser::joined(params), intermediates, action);
        },
        Action::Esc { intermediates, byte, .. } => {
            escapes_go_on_behind(s, front, intermediates, byte);
        },
        _ => {},
    }
}

/// Lines that wait for collection change nothing of what is performed on a screen: they stay, and
/// those that leave the screen line up behind them.
pub proof fn waiting_lines_stay(s: ScreenState, front: Seq<Seq<Cell>>, actions: Seq<Action>)
    ensures
        behind(s, front).perform_all(actions) == behind(s.perform_all(actions), front),
    decreases actions.len(),
{
    if actions.len() > 0 {
        let rest = actions.drop_last();
        waiting_lines_stay(s, front, rest);
        an_action_goes_on_behind(s.perform_all(rest), front, actions.last());
    }
}

/// However the input to a screen with a scrollback is cut in two, the screen and the scrollback
/// end in the same state. The exceptions are a C1 control cut between its two bytes, and
/// characters that are passed over behind one that was cut.
pub proof fn feeding_with_a_scrollback_may_be_cut(
    machine: Machine,
    partial: Seq<u8>,
    h: HistoryState,
    a: Seq<u8>,
    b: Seq<u8>,
)
    requires
        h.wf(),
        ansi_parser::holds_a_start(machine, partial),
        ansi_parser::cut_is_harmless(machine, partial, a, b),
    ensures
        ({
            let first = ansi_parser::resume(machine, partial, a);
            h.feed_from(machine, partial, a + b) == h.feed_from(machine, partial, a).feed_from(
                first.machine,
                first.partial,
                b,
            )
        }),
{
    let first = ansi_parser::resume(machine, partial, a);
    let second = ansi_parser::resume(first.machine, first.partial, b);
    laws::feeding_may_be_cut(machine, partial, h.screen, a, b);
    let mid = parser::screen_after(machine, partial, h.screen, a);
    let front = mid.scrolled_off;
    let clear = ScreenState { scrolled_off: seq![], ..mid };
    assert(front + clear.scrolled_off =~= front);
    the_screen_is_the_same(clear, front);
    waiting_lines_stay(clear, front, second.actions);
    the_screen_is_the_same(clear.perform_all(second.actions), front);
    let more = clear.perform_all(second.actions).scrolled_off;
    history::trimming_is_incremental(h.history, front, more, h.limit);
    assert((h.history + front) + more =~= h.history + (front + more));
}

} // verus!
