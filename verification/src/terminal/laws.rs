//! What holds of the terminal as a whole.
use super::ansi_parser;
use super::ansi_parser::{Action, Machine};
use super::cell;
use super::cell::Cell;
use super::cwd;
use super::events;
use super::events::Happening;
use super::grid;
use super::history;
use super::history::HistoryState;
use super::modes;
use super::parser;
use super::soundness;
use super::state;
use super::state::ScreenState;
use vstd::prelude::*;

verus! {

/// Every action of the parser, whatever it holds, leaves a screen in good order.
pub proof fn actions_keep_wf(s: ScreenState, action: Action)
    requires
        s.wf(),
    ensures
        s.perform(action).wf(),
{
    reveal(ScreenState::perform);
    match action {
        Action::Print(c) => {
            soundness::draw_keeps_wf(s, s.shown(c), cell::columns_of(c) as int);
        },
        Action::Execute(byte) => {
            reveal(ScreenState::execute);
            soundness::line_moves_keep_wf(s);
            soundness::tab_and_restore_keep_wf(s);
        },
        Action::Osc { params, .. } => {
            reveal(ScreenState::osc);
        },
        Action::Csi { params, intermediates, action, .. } => {
            soundness::csi_dispatch_keeps_wf(s, parser::joined(params), intermediates, action);
        },
        Action::Esc { intermediates, byte, .. } => {
            esc_keeps_wf(s, intermediates, byte);
        },
        _ => {},
    }
}

proof fn esc_keeps_wf(s: ScreenState, intermediates: Seq<u8>, byte: u8)
    requires
        s.wf(),
    ensures
        s.esc(intermediates, byte).wf(),
{
    reveal(ScreenState::esc);
    soundness::alignment_keeps_wf(s);
    soundness::tab_and_restore_keep_wf(s);
    soundness::line_moves_keep_wf(s);
    soundness::line_moves_keep_wf(s.at(0, s.y));
    soundness::set_mode_keeps_wf(s, modes::DECCKM, true);
    soundness::reset_mode_keeps_wf(s, modes::DECCKM, true);
}

/// Any input at all leaves a screen in good order: every row as wide as the screen, as many rows
/// as it has lines, and the cursor inside.
pub proof fn any_input_keeps_wf(s: ScreenState, actions: Seq<Action>)
    requires
        s.wf(),
    ensures
        s.perform_all(actions).wf(),
    decreases actions.len(),
{
    if actions.len() > 0 {
        any_input_keeps_wf(s, actions.drop_last());
        actions_keep_wf(s.perform_all(actions.drop_last()), actions.last());
    }
}

/// However the input to a screen is cut in two, the screen ends in the same state. The exceptions
/// are a C1 control cut between its two bytes, and characters that are passed over behind one that
/// was cut.
pub proof fn feeding_may_be_cut(
    machine: Machine,
    partial: Seq<u8>,
    s: ScreenState,
    a: Seq<u8>,
    b: Seq<u8>,
)
    requires
        ansi_parser::holds_a_start(machine, partial),
        ansi_parser::cut_is_harmless(machine, partial, a, b),
    ensures
        ({
            let first = ansi_parser::resume(machine, partial, a);
            parser::screen_after(machine, partial, s, a + b) == parser::screen_after(
                first.machine,
                first.partial,
                parser::screen_after(machine, partial, s, a),
                b,
            )
        }),
{
    let first = ansi_parser::resume(machine, partial, a);
    let second = ansi_parser::resume(first.machine, first.partial, b);
    ansi_parser::input_may_be_cut(machine, partial, a, b);
    parser::perform_all_both(s, first.actions, second.actions);
}

/// Restoring the cursor right after saving it brings position, attributes and modes back. The
/// position is kept inside the screen and the scroll region.
pub proof fn restoring_undoes_saving(s: ScreenState)
    requires
        s.wf(),
    ensures
        s.save_cursor().restore_cursor() == s.at(
            state::min(s.x, s.columns - 1),
            state::min(state::max(s.y, s.top()), s.bottom()),
        ),
{
    assert(s.save_cursor().saved.drop_last() =~= s.saved);
}

/// Whatever happened in between, restoring brings back what was saved last.
pub proof fn restoring_brings_back_what_was_saved(s: ScreenState, later: ScreenState)
    requires
        s.wf(),
        later.wf(),
        later.saved == s.save_cursor().saved,
    ensures
        later.restore_cursor().attrs == s.attrs,
        later.restore_cursor().mode == s.mode,
        later.restore_cursor().saved == s.saved,
        s.x < later.columns ==> later.restore_cursor().x == s.x,
        later.top() <= s.y <= later.bottom() ==> later.restore_cursor().y == s.y,
{
    assert(later.saved.drop_last() =~= s.saved);
}

/// Popping one keyboard mode puts in force what was pushed last, and takes it off the stack.
pub proof fn popping_undoes_pushing(s: ScreenState, mode: u16)
    ensures
        s.push_keyboard_mode(mode).pop_keyboard_modes(1) == (ScreenState {
            keyboard_mode: mode,
            ..s
        }),
{
    let stack = s.push_keyboard_mode(mode).keyboard_mode_stack;
    assert(stack.take(stack.len() - 1) =~= s.keyboard_mode_stack);
}

/// Leaving the alternate screen brings the primary one back: its rows, and its cursor.
pub proof fn leaving_the_alternate_screen_restores(s: ScreenState)
    requires
        s.wf(),
        !s.alt_screen,
    ensures
        ({
            let back = s.enter_alt_screen().exit_alt_screen();
            &&& back.buffer == s.buffer
            &&& (back.x, back.y) == (s.x, s.y)
            &&& back.attrs == s.attrs
            &&& !back.alt_screen
            &&& back.parked == s.parked
        }),
{
}

/// Whether an action neither leaves the alternate screen nor changes the screen's width: all do
/// but the private mode sequences for those.
pub open spec fn stays(action: Action) -> bool {
    match action {
        Action::Csi { params, intermediates, action, .. } => {
            (action == 'h' || action == 'l') && intermediates == seq![0x3fu8] ==> forall|i: int|
                0 <= i < parser::joined(params).len() ==> !changes_screen(
                    #[trigger] parser::joined(params)[i],
                )
        },
        _ => true,
    }
}

/// The private modes that switch the screen buffer or its width.
pub open spec fn changes_screen(mode: u16) -> bool {
    mode == modes::DECCOLM || state::is_alt_mode(mode)
}

/// The parts of a screen that drawing on the alternate screen leaves alone: the parked screen,
/// the lines for the scrollback, and the size.
pub open spec fn same_behind(s: ScreenState, t: ScreenState) -> bool {
    &&& t.alt_screen == s.alt_screen
    &&& t.parked == s.parked
    &&& s.alt_screen ==> t.scrolled_off == s.scrolled_off
    &&& t.columns == s.columns
    &&& t.lines == s.lines
}

proof fn modes_stay_behind(s: ScreenState, params: Seq<u16>, private: bool)
    requires
        private ==> forall|i: int| 0 <= i < params.len() ==> !changes_screen(#[trigger] params[i]),
    ensures
        same_behind(s, s.set_modes(params, private)),
        same_behind(s, s.reset_modes(params, private)),
    decreases params.len(),
{
    if params.len() > 0 {
        let rest = params.drop_last();
        assert forall|i: int| private && 0 <= i < rest.len() implies !changes_screen(
            #[trigger] rest[i],
        ) by {
            assert(rest[i] == params[i]);
        }
        modes_stay_behind(s, rest, private);
        assert(private ==> !changes_screen(params[params.len() - 1]));
    }
}

proof fn moves_stay_behind(s: ScreenState, params: Seq<u16>, action: char)
    ensures
        same_behind(s, s.csi_move(params, action)),
{
    reveal(ScreenState::csi_move);
}

proof fn scrolls_stay_behind(s: ScreenState, n: int)
    ensures
        same_behind(s, s.scroll_up(n)),
        same_behind(s, s.scroll_down(n)),
        same_behind(s, s.linefeed()),
        same_behind(s, s.reverse_index()),
{
}

proof fn erasing_stays_behind(s: ScreenState, n: int)
    ensures
        same_behind(s, s.erase_in_display(n)),
        same_behind(s, s.erase_in_line(n)),
        same_behind(s, s.erase_characters(n)),
{
    reveal(ScreenState::erase_in_display);
}

proof fn edits_stay_behind(s: ScreenState, params: Seq<u16>, action: char)
    ensures
        same_behind(s, s.csi_edit(params, action)),
{
    reveal(ScreenState::csi_edit);
    erasing_stays_behind(s, state::param(params, 0, 0));
    erasing_stays_behind(s, state::param(params, 0, 1));
    scrolls_stay_behind(s, state::param(params, 0, 1));
}

proof fn requests_stay_behind(s: ScreenState, params: Seq<u16>, intermediates: Seq<u8>)
    ensures
        same_behind(s, s.csi_u(params, intermediates)),
{
    reveal(ScreenState::csi_u);
}

proof fn csi_stays_behind(s: ScreenState, params: Seq<u16>, intermediates: Seq<u8>, action: char)
    requires
        (action == 'h' || action == 'l') && intermediates == seq![0x3fu8] ==> forall|i: int|
            0 <= i < params.len() ==> !changes_screen(#[trigger] params[i]),
    ensures
        same_behind(s, s.csi_dispatch(params, intermediates, action)),
{
    reveal(ScreenState::csi_dispatch);
    if state::is_move(action) {
        moves_stay_behind(s, params, action);
    } else if state::is_edit(action) {
        edits_stay_behind(s, params, action);
    } else if action == 'h' || action == 'l' {
        modes_stay_behind(s, params, intermediates == seq![0x3fu8]);
    } else if action == 'u' {
        requests_stay_behind(s, params, intermediates);
    }
}

proof fn drawing_stays_behind(s: ScreenState, c: char, width: int)
    ensures
        same_behind(s, s.draw_sized(c, width)),
{
    let w = s.wrapped();
    let o = w.opened(width);
    assert(same_behind(s, w));
    assert(same_behind(w, o));
    assert(same_behind(o, o.put(c, width)));
}

proof fn controls_stay_behind(s: ScreenState, byte: u8)
    ensures
        same_behind(s, s.execute(byte)),
{
    reveal(ScreenState::execute);
    scrolls_stay_behind(s, 1);
}

proof fn commands_stay_behind(s: ScreenState, params: Seq<Seq<u8>>)
    ensures
        same_behind(s, s.osc(params)),
{
    reveal(ScreenState::osc);
}

proof fn escapes_stay_behind(s: ScreenState, intermediates: Seq<u8>, byte: u8)
    ensures
        same_behind(s, s.esc(intermediates, byte)),
{
    reveal(ScreenState::esc);
    scrolls_stay_behind(s, 1);
    scrolls_stay_behind(s.at(0, s.y), 1);
}

/// Drawing on the alternate screen does not touch the primary one, and no line of it enters the
/// scrollback.
pub proof fn the_primary_screen_stays(s: ScreenState, action: Action)
    requires
        stays(action),
    ensures
        same_behind(s, s.perform(action)),
{
    reveal(ScreenState::perform);
    match action {
        Action::Print(c) => {
            drawing_stays_behind(s, s.shown(c), cell::columns_of(c) as int);
        },
        Action::Execute(byte) => {
            controls_stay_behind(s, byte);
        },
        Action::Osc { params, .. } => {
            commands_stay_behind(s, params);
        },
        Action::Csi { params, intermediates, action, .. } => {
            csi_stays_behind(s, parser::joined(params), intermediates, action);
        },
        Action::Esc { intermediates, byte, .. } => {
            escapes_stay_behind(s, intermediates, byte);
        },
        _ => {},
    }
}

/// A program that shows the alternate screen, draws on it and leaves it finds the primary screen
/// as it was: its rows and its cursor.
pub proof fn the_alternate_screen_is_transparent(s: ScreenState, actions: Seq<Action>)
    requires
        s.wf(),
        !s.alt_screen,
        forall|i: int| 0 <= i < actions.len() ==> stays(#[trigger] actions[i]),
    ensures
        ({
            let back = s.enter_alt_screen().perform_all(actions).exit_alt_screen();
            &&& back.buffer == s.buffer
            &&& (back.x, back.y) == (s.x, s.y)
            &&& back.attrs == s.attrs
            &&& !back.alt_screen
            &&& back.scrolled_off == s.scrolled_off
        }),
{
    all_stay_behind(s.enter_alt_screen(), actions);
}

proof fn all_stay_behind(s: ScreenState, actions: Seq<Action>)
    requires
        forall|i: int| 0 <= i < actions.len() ==> stays(#[trigger] actions[i]),
    ensures
        same_behind(s, s.perform_all(actions)),
    decreases actions.len(),
{
    if actions.len() > 0 {
        let rest = actions.drop_last();
        assert forall|i: int| 0 <= i < rest.len() implies stays(#[trigger] rest[i]) by {
            assert(rest[i] == actions[i]);
        }
        all_stay_behind(s, rest);
        assert(stays(actions[actions.len() - 1]));
        the_primary_screen_stays(s.perform_all(rest), actions.last());
    }
}

/// The working directory is the shell's: it survives the alternate screen, a resize and a reset.
pub proof fn the_working_directory_survives(s: ScreenState, lines: int, columns: int)
    ensures
        s.enter_alt_screen().cwd == s.cwd,
        s.exit_alt_screen().cwd == s.cwd,
        s.resize(lines, columns).cwd == s.cwd,
        s.reset().cwd == s.cwd,
{
}

/// A reset leaves a screen as a new one of its size is: its cells, its cursor, its modes, its
/// scroll region, its tab stops, its character sets, its titles, the shape of its cursor and its
/// keyboard modes.
pub proof fn a_reset_screen_is_as_new(s: ScreenState)
    ensures
        ({
            let fresh = ScreenState::initial(s.columns, s.lines);
            let t = s.reset();
            &&& t.buffer == fresh.buffer
            &&& t.default_char == fresh.default_char
            &&& (t.x, t.y, t.attrs, t.hidden) == (fresh.x, fresh.y, fresh.attrs, fresh.hidden)
            &&& t.saved == fresh.saved
            &&& t.mode == fresh.mode
            &&& t.margins == fresh.margins
            &&& t.tabstops == fresh.tabstops
            &&& t.charset == fresh.charset
            &&& t.g0_charset == fresh.g0_charset
            &&& t.g1_charset == fresh.g1_charset
            &&& t.charset_index == fresh.charset_index
            &&& t.title == fresh.title
            &&& t.icon_name == fresh.icon_name
            &&& t.cursor_style == fresh.cursor_style
            &&& t.cursor_blink == fresh.cursor_blink
            &&& t.keyboard_mode == fresh.keyboard_mode
            &&& t.keyboard_mode_stack == fresh.keyboard_mode_stack
            &&& t.alt_screen == fresh.alt_screen
            &&& t.parked == fresh.parked
        }),
{
}

/// A resize keeps every cell that fits, and blanks the new ones.
pub proof fn a_resize_keeps_what_fits(
    s: ScreenState,
    lines: int,
    columns: int,
    x: int,
    y: int,
)
    requires
        s.wf(),
        0 <= x < columns,
        0 <= y < lines,
    ensures
        s.resize(lines, columns).buffer[y][x] == (if x < s.columns && y < s.lines {
            s.buffer[y][x]
        } else {
            s.default_char
        }),
{
    grid::rect_row(s.buffer, s.lines, s.columns, y);
}

/// A tab goes to the first tab stop right of the cursor, or to the last column where there is
/// none.
pub proof fn a_tab_finds_the_next_stop(stops: Set<usize>, from: int, columns: int)
    requires
        0 <= from,
        0 < columns <= usize::MAX,
    ensures
        ({
            let t = state::next_tab(stops, from, columns);
            &&& 0 <= t < columns
            &&& forall|c: usize| from <= c < t ==> !#[trigger] stops.contains(c)
            &&& t == columns - 1 || (from <= t && stops.contains(t as usize))
        }),
    decreases columns - from,
{
    if from < columns && !stops.contains(from as usize) {
        a_tab_finds_the_next_stop(stops, from + 1, columns);
    }
}

/// Whether `s` writes narrow characters plainly: wrapping on, and not in insert mode.
pub open spec fn writes_plainly(s: ScreenState) -> bool {
    s.mode.private.contains(modes::DECAWM) && !s.mode.public.contains(modes::IRM)
}

/// How many cells the cell at column `x` of line `y` is behind the cursor of `s`, line by line.
pub open spec fn place(s: ScreenState, x: int, y: int) -> int {
    (y - s.y) * s.columns + x - s.x
}

/// What the cell at column `x` of line `y` holds once `text` was written at the cursor of `s`: the
/// character whose place it is, or what it held before.
pub open spec fn cell_of(s: ScreenState, text: Seq<char>, x: int, y: int) -> Cell {
    if 0 <= place(s, x, y) < text.len() {
        Cell { data: seq![s.shown(text[place(s, x, y)])], ..s.attrs }
    } else {
        s.buffer[y][x]
    }
}

/// Whether every cell of `rows` holds what it does once `text` was written at the cursor of `s`.
#[verifier::opaque]
pub open spec fn reads(s: ScreenState, text: Seq<char>, rows: Seq<Seq<Cell>>) -> bool {
    forall|x: int, y: int|
        0 <= x < s.columns && 0 <= y < s.lines ==> #[trigger] rows[y][x] == cell_of(s, text, x, y)
}

/// Whether `t` is `s` with `text` written from the cursor on, one character to a cell and line
/// after line, as the character set in force shows it.
pub open spec fn shows(s: ScreenState, text: Seq<char>, t: ScreenState) -> bool {
    &&& 0 <= t.x <= s.columns
    &&& s.y <= t.y < s.lines
    &&& place(s, t.x, t.y) == text.len()
    &&& if text.len() == 0 {
        (t.x, t.y) == (s.x, s.y)
    } else {
        t.x > 0
    }
    &&& grid::is_rect(t.buffer, s.lines, s.columns)
    &&& reads(s, text, t.buffer)
    &&& t.attrs == s.attrs
    &&& t.mode == s.mode
    &&& t.charset == s.charset
    &&& t.columns == s.columns
    &&& t.lines == s.lines
}

proof fn places_are_apart(s: ScreenState, x: int, y: int, v: int, w: int)
    requires
        0 <= x < s.columns,
        0 <= v < s.columns,
        place(s, x, y) == place(s, v, w),
    ensures
        (x, y) == (v, w),
{
    let k = s.columns;
    let d = y - w;
    assert(d * k == (y - s.y) * k - (w - s.y) * k) by (nonlinear_arith)
        requires
            d == y - w,
    ;
    assert(d == 0) by (nonlinear_arith)
        requires
            -k < d * k < k,
            k > 0,
    ;
}

/// The cursor after a pending wrap, where there is room for one more character.
proof fn a_wrap_stays_inside(s: ScreenState, m: ScreenState, n: int)
    requires
        s.wf(),
        0 <= m.x <= s.columns,
        s.y <= m.y < s.lines,
        m.columns == s.columns,
        m.lines == s.lines,
        place(s, m.x, m.y) == n - 1,
        s.x + n <= (s.lines - s.y) * s.columns,
    ensures
        0 <= m.wrapped().x < s.columns,
        s.y <= m.wrapped().y < s.lines,
        place(s, m.wrapped().x, m.wrapped().y) == n - 1,
{
    let k = s.columns;
    if m.x >= k {
        assert((m.y + 1 - s.y) * k == (m.y - s.y) * k + k) by (nonlinear_arith);
        assert(m.y + 1 - s.y < s.lines - s.y) by (nonlinear_arith)
            requires
                (m.y + 1 - s.y) * k < (s.lines - s.y) * k,
                k > 0,
        ;
    }
}

/// What a narrow character that is written plainly changes.
proof fn a_plain_character(m: ScreenState, c: char)
    requires
        writes_plainly(m),
        m.wrapped().x < m.columns,
    ensures
        ({
            let t = m.draw_sized(c, 1);
            let w = m.wrapped();
            let row = m.buffer[w.y].update(w.x, Cell { data: seq![c], ..m.attrs });
            &&& t.buffer == m.buffer.update(w.y, row)
            &&& (t.x, t.y) == (w.x + 1, w.y)
            &&& (t.columns, t.lines) == (m.columns, m.lines)
            &&& (t.attrs, t.mode, t.charset) == (m.attrs, m.mode, m.charset)
        }),
{
    let w = m.wrapped();
    assert(w.opened(1) == w);
    assert(m.draw_sized(c, 1) == w.put(c, 1).advanced(1));
}

proof fn one_more_cell(s: ScreenState, text: Seq<char>, rows: Seq<Seq<Cell>>, x: int, y: int)
    requires
        text.len() > 0,
        grid::is_rect(rows, s.lines, s.columns),
        reads(s, text.drop_last(), rows),
        0 <= x < s.columns,
        0 <= y < s.lines,
        place(s, x, y) == text.len() - 1,
    ensures
        reads(
            s,
            text,
            rows.update(
                y,
                rows[y].update(x, Cell { data: seq![s.shown(text.last())], ..s.attrs }),
            ),
        ),
{
    reveal(reads);
    grid::rect_row(rows, s.lines, s.columns, y);
    let after = rows.update(
        y,
        rows[y].update(x, Cell { data: seq![s.shown(text.last())], ..s.attrs }),
    );
    assert forall|v: int, w: int| 0 <= v < s.columns && 0 <= w < s.lines implies #[trigger]
    after[w][v] == cell_of(s, text, v, w) by {
        assert(rows[w][v] == cell_of(s, text.drop_last(), v, w));
        if place(s, v, w) == text.len() - 1 {
            places_are_apart(s, v, w, x, y);
        }
    }
}

proof fn one_more_character(s: ScreenState, text: Seq<char>, m: ScreenState)
    requires
        s.wf(),
        writes_plainly(s),
        text.len() > 0,
        s.x + text.len() <= (s.lines - s.y) * s.columns,
        shows(s, text.drop_last(), m),
    ensures
        shows(s, text, m.draw_sized(m.shown(text.last()), 1)),
{
    let c = m.shown(text.last());
    let w = m.wrapped();
    a_wrap_stays_inside(s, m, text.len() as int);
    a_plain_character(m, c);
    grid::rect_row(m.buffer, s.lines, s.columns, w.y);
    let row = m.buffer[w.y].update(w.x, Cell { data: seq![c], ..s.attrs });
    grid::rect_update(m.buffer, s.lines, s.columns, w.y, row);
    one_more_cell(s, text, m.buffer, w.x, w.y);
}

proof fn nothing_is_written(s: ScreenState)
    requires
        s.wf(),
    ensures
        shows(s, seq![], s),
{
    reveal(reads);
}

/// The ASCII character set shows every character as it is.
pub proof fn the_ascii_set_changes_nothing(s: ScreenState, c: char)
    requires
        s.charset is Ascii,
    ensures
        s.shown(c) == c,
{
}

/// Text that is written stands on the screen: each narrow character in a cell of its own, with
/// the attributes in force, from the cursor on and over as many lines as it takes. The cells
/// around it stay, and the cursor ends behind it.
pub proof fn text_that_is_written_is_shown(s: ScreenState, text: Seq<char>)
    requires
        s.wf(),
        writes_plainly(s),
        s.x + text.len() <= (s.lines - s.y) * s.columns,
    ensures
        (forall|i: int| 0 <= i < text.len() ==> cell::columns_of(#[trigger] text[i]) == 1)
            ==> shows(s, text, s.draw(text)),
    decreases text.len(),
{
    if forall|i: int| 0 <= i < text.len() ==> cell::columns_of(#[trigger] text[i]) == 1 {
        if text.len() > 0 {
            let rest = text.drop_last();
            assert forall|i: int| 0 <= i < rest.len() implies cell::columns_of(#[trigger] rest[i])
                == 1 by {
                assert(rest[i] == text[i]);
            }
            text_that_is_written_is_shown(s, rest);
            assert(cell::columns_of(text[text.len() - 1]) == 1);
            one_more_character(s, text, s.draw(rest));
        } else {
            assert(text =~= seq![]);
            nothing_is_written(s);
        }
    }
}

proof fn around(a: Action, middle: Seq<Action>, b: Action)
    ensures
        seq![a] + middle.push(b) == (seq![a] + middle).push(b),
{
    assert(seq![a] + middle.push(b) =~= (seq![a] + middle).push(b));
}

proof fn prints_of_longer_text(text: Seq<char>, c: char)
    ensures
        ansi_parser::prints(text.push(c)) == ansi_parser::prints(text).push(Action::Print(c)),
    decreases text.len(),
{
    let longer = text.push(c);
    if text.len() == 0 {
        assert(longer.drop_first() =~= text);
        assert(longer[0] == c);
        assert(ansi_parser::prints(text) =~= seq![]);
        assert(ansi_parser::prints(longer) =~= seq![Action::Print(c)]);
        assert(ansi_parser::prints(text).push(Action::Print(c)) =~= seq![Action::Print(c)]);
    } else {
        let first = text[0];
        let rest = text.drop_first();
        prints_of_longer_text(rest, c);
        assert(longer.drop_first() =~= rest.push(c));
        assert(longer[0] == first);
        vstd::utf8::char_u32_cast(first, first as u32);
        around(Action::Print(first), ansi_parser::prints(rest), Action::Print(c));
    }
}

/// Printing text character by character is drawing it.
pub proof fn printing_is_drawing(s: ScreenState, text: Seq<char>)
    ensures
        s.perform_all(ansi_parser::prints(text)) == s.draw(text),
    decreases text.len(),
{
    if text.len() == 0 {
        assert(ansi_parser::prints(text) =~= seq![]);
    } else {
        printing_is_drawing(s, text.drop_last());
        draw_one_more(s, text.drop_last(), text.last());
        assert(text.drop_last().push(text.last()) =~= text);
    }
}

proof fn draw_one_more(s: ScreenState, text: Seq<char>, c: char)
    requires
        s.perform_all(ansi_parser::prints(text)) == s.draw(text),
    ensures
        s.perform_all(ansi_parser::prints(text.push(c))) == s.draw(text.push(c)),
{
    let actions = ansi_parser::prints(text);
    let longer = actions.push(Action::Print(c));
    prints_of_longer_text(text, c);
    assert(longer.drop_last() =~= actions);
    assert(longer.last() == Action::Print(c));
    assert(text.push(c).drop_last() =~= text);
    reveal(ScreenState::perform);
}

/// Text without controls that a fresh parser is fed is shown: one narrow character to a cell, from
/// the cursor on.
pub proof fn text_that_is_fed_is_shown(s: ScreenState, text: Seq<char>)
    requires
        s.wf(),
        writes_plainly(s),
        s.x + text.len() <= (s.lines - s.y) * s.columns,
        forall|i: int| 0 <= i < text.len() ==> ansi_parser::is_plain(#[trigger] text[i]),
    ensures
        (forall|i: int| 0 <= i < text.len() ==> cell::columns_of(#[trigger] text[i]) == 1)
            ==> shows(
            s,
            text,
            parser::screen_after(
                Machine::initial(),
                seq![],
                s,
                vstd::utf8::encode_utf8(text),
            ),
        ),
{
    ansi_parser::text_is_printed(Machine::initial(), text);
    printing_is_drawing(s, text);
    text_that_is_written_is_shown(s, text);
}

/// A full erase leaves nothing on the screen.
pub proof fn a_full_erase_blanks_everything(s: ScreenState)
    requires
        s.wf(),
        s.margins is None,
    ensures
        s.erase_in_display(2).buffer == grid::grid_of(s.default_char, s.lines, s.columns),
{
    reveal(ScreenState::erase_in_display);
    grid::rect_row(s.buffer, s.lines, s.columns, 0);
    assert(s.erase_in_display(2).buffer =~= grid::grid_of(s.default_char, s.lines, s.columns));
}

/// The scrollback never holds more lines than its limit, whatever the screen is fed.
pub proof fn the_scrollback_is_bounded(h: HistoryState, data: Seq<u8>)
    requires
        h.wf(),
        h.limit > 0,
    ensures
        h.feed(data).history.len() <= h.limit,
        h.feed(data).limit == h.limit,
{
}

/// Without a limit, the scrollback only grows while the screen is fed: what was in it stays at
/// its start.
pub proof fn an_unlimited_scrollback_keeps_everything(h: HistoryState, data: Seq<u8>)
    requires
        h.limit == 0,
    ensures
        h.history.is_prefix_of(h.feed(data).history),
{
}

/// A range of lines is the window of the viewport from its start to its end, both cut off at the
/// last line: all lines are the whole viewport, and past the last line there is nothing.
pub proof fn a_range_is_a_window_of_the_viewport(h: HistoryState, start: usize, count: usize)
    requires
        h.screen.buffer.len() == h.screen.lines,
    ensures
        ({
            let viewport = history::packed_rows(h.all_lines());
            let total = h.history.len() + h.screen.lines;
            let end = state::min(start + count, usize::MAX as int);
            let range = history::window(viewport, start as int, end);
            &&& viewport.len() == total
            &&& range.len() == state::min(end, total) - state::min(start as int, total)
            &&& forall|i: int| 0 <= i < range.len() ==> #[trigger] range[i] == viewport[start + i]
            &&& start == 0 && count == total ==> range == viewport
            &&& start >= total ==> range.len() == 0
        }),
{
    let viewport = history::packed_rows(h.all_lines());
    assert(viewport.subrange(0, viewport.len() as int) =~= viewport);
}

/// With an unlimited scrollback no line down to the cursor's is lost when the screen loses
/// lines: they are all in the scrollback or on the screen, in order.
pub proof fn shrinking_loses_no_line_above_the_cursor(h: HistoryState, lines: int)
    requires
        h.wf(),
        h.limit == 0,
        !h.screen.alt_screen,
        0 < lines < h.screen.lines,
    ensures
        ({
            let n = h.history.len() + h.screen.y + 1;
            let t = h.resize(lines, h.screen.columns);
            &&& t.all_lines().len() >= n
            &&& t.all_lines().take(n) == h.all_lines().take(n)
            &&& t.history.len() + t.screen.y == h.history.len() + h.screen.y
        }),
{
    reveal(grid::is_rect);
    let n = h.history.len() + h.screen.y + 1;
    let t = h.resize(lines, h.screen.columns);
    let s = h.screen;
    assert forall|y: int, c: Cell|
        0 <= y < s.lines implies #[trigger] grid::fitted(s.buffer[y], s.columns, c)
        == s.buffer[y] by {
        assert(grid::fitted(s.buffer[y], s.columns, c) =~= s.buffer[y]);
    }
    assert(t.all_lines().take(n) =~= h.all_lines().take(n));
}

/// Growing the screen takes nothing out of the scrollback.
pub proof fn growing_leaves_the_scrollback(h: HistoryState, lines: int, columns: int)
    requires
        h.screen.alt_screen || lines >= h.screen.lines,
    ensures
        h.resize(lines, columns).history == h.history,
{
}

/// Scrolling back undoes scrolling: by as many lines, up to all of the scroll region, it brings the
/// screen's lines back where the scrollback can hold that many, and leaves the scrollback as it
/// was where it had room for them.
pub proof fn scrolling_back_undoes_scrolling(h: HistoryState, rows: int)
    requires
        h.wf(),
        0 <= rows <= h.screen.bottom() - h.screen.top() + 1,
        h.limit == 0 || rows <= h.limit,
    ensures
        ({
            let back = h.scroll_up(rows).scroll_down(rows);
            &&& back.screen.buffer == h.screen.buffer
            &&& back.history.len() <= h.history.len()
            &&& h.limit == 0 || h.history.len() + rows <= h.limit ==> back.history == h.history
        }),
{
    reveal(grid::is_rect);
    let s = h.screen;
    let gone = s.buffer.subrange(s.top(), s.top() + rows);
    let up = h.scroll_up(rows);
    assert(s.lifted(rows).columns == s.columns);
    let back = up.scroll_down(rows);
    assert forall|y: int, c: Cell|
        0 <= y < s.lines implies #[trigger] grid::fitted(s.buffer[y], s.columns, c)
        == s.buffer[y] by {
        assert(grid::fitted(s.buffer[y], s.columns, c) =~= s.buffer[y]);
    }
    assert forall|k: int| 1 <= k <= rows implies #[trigger] up.history[up.history.len() - k]
        == s.buffer[s.top() + rows - k] by {
        assert(gone[rows - k] == s.buffer[s.top() + rows - k]);
    }
    assert(back.screen.buffer =~= s.buffer);
    if h.limit == 0 || h.history.len() + rows <= h.limit {
        assert(back.history =~= h.history);
    }
}

/// A report of a working directory that is malformed changes nothing.
pub proof fn a_malformed_report_changes_nothing(s: ScreenState, payload: Seq<u8>)
    ensures
        cwd::osc7_path(payload) is None ==> s.osc(seq![seq![0x37u8], payload]) == s,
        cwd::path_text(payload) is None ==> s.osc(seq![seq![0x39u8], seq![0x39u8], payload]) == s,
{
    reveal(ScreenState::osc);
    let unix = seq![seq![0x37u8], payload];
    let windows = seq![seq![0x39u8], seq![0x39u8], payload];
    assert(unix[0][0] == 0x37u8);
    assert(windows[0][0] == 0x39u8);
}

/// Events are logged in order, and reading the log empties it: what is logged later comes after
/// what was logged earlier.
pub proof fn events_are_logged_in_order(s: ScreenState, a: Happening, b: Happening)
    requires
        s.events.len() + 2 <= events::MAX_EVENTS,
    ensures
        s.push_event(a).push_event(b).events == s.events + seq![a, b],
{
    assert(s.push_event(a).push_event(b).events =~= s.events + seq![a, b]);
}

/// A bell is heard once: after it was taken it is neither pending nor in the log.
pub proof fn a_bell_is_heard_once(log: Seq<Happening>, i: int)
    requires
        0 <= i < events::without_bells(log).len(),
    ensures
        !(events::without_bells(log)[i] is Bell),
{
    log.lemma_filter_pred(|h: Happening| !(h is Bell), i);
}

} // verus!
