//! What is promised of the modes: which number stands for which mode, what setting and clearing
//! one does to the screen, and how a screen is when it is new.
use super::cell::Cell;
use super::charsets::CharsetRef;
use super::edit_laws;
use super::events;
use super::events::Happening;
use super::grid;
use super::modes;
use super::modes::ModeSet;
use super::state::ScreenState;
use vstd::prelude::*;

verus! {

/// The numbers of the modes.
pub proof fn the_numbers_of_the_modes()
    ensures
        modes::IRM == 4,
        modes::LNM == 20,
        modes::DECCKM == 1,
        modes::DECCOLM == 3,
        modes::DECSCNM == 5,
        modes::DECOM == 6,
        modes::DECAWM == 7,
        modes::DECTCEM == 25,
        modes::X10_MOUSE == 1000,
        modes::NORMAL_MOUSE == 1002,
        modes::ANY_EVENT_MOUSE == 1003,
        modes::FOCUS_EVENT == 1004,
        modes::SGR_MOUSE == 1006,
        modes::BRACKETED_PASTE == 2004,
        modes::ALT_SCREEN_47 == 47,
        modes::ALT_SCREEN_1047 == 1047,
        modes::ALT_SCREEN_1049 == 1049,
{
}

/// A new screen is blank, has its cursor at home, visible and without attributes, wraps, returns
/// the carriage with a line feed, shows the cursor, and has every other mode off.
pub proof fn a_new_screen(columns: int, lines: int, x: int, y: int, mode: u16)
    requires
        0 <= x < columns,
        0 <= y < lines,
    ensures
        ({
            let s = ScreenState::initial(columns, lines);
            &&& (s.columns, s.lines) == (columns, lines)
            &&& s.buffer.len() == lines
            &&& s.buffer[y].len() == columns
            &&& s.buffer[y][x] == Cell::blank()
            &&& s.default_char == Cell::blank()
            &&& s.attrs == Cell::blank()
            &&& (s.x, s.y, s.hidden) == (0int, 0int, false)
            &&& s.saved.len() == 0
            &&& s.mode.public.contains(mode) <==> mode == 20
            &&& s.mode.private.contains(mode) <==> mode == 7 || mode == 25
            &&& s.margins is None
            &&& s.charset is Ascii && s.g0_charset is Ascii && s.g1_charset is Ascii
            &&& s.charset_index == 0
            &&& s.dirty == Set::<usize>::empty()
            &&& s.title.len() == 0 && s.icon_name.len() == 0
            &&& s.replies.len() == 0
            &&& s.cursor_style is Default && s.cursor_blink
            &&& s.keyboard_mode == 0 && s.keyboard_mode_stack.len() == 0
            &&& !s.alt_screen && s.parked is None
            &&& s.scrolled_off.len() == 0
            &&& !s.bell && s.cwd is None && s.events.len() == 0
        }),
{
}

/// A reset blanks every cell, brings the cursor home and the modes to those of a new screen, and
/// marks every row as changed. The size, the working directory, a pending bell and what waits to
/// be sent stay; the log tells of the alternate screen where that was left.
pub proof fn a_reset(s: ScreenState, x: int, y: int, mode: u16)
    requires
        s.wf(),
        0 <= x < s.columns,
        0 <= y < s.lines,
    ensures
        ({
            let t = s.reset();
            &&& t.buffer[y][x] == Cell::blank()
            &&& t.default_char == Cell::blank() && t.attrs == Cell::blank()
            &&& (t.x, t.y, t.hidden) == (0int, 0int, false)
            &&& t.mode.public.contains(mode) <==> mode == 20
            &&& t.mode.private.contains(mode) <==> mode == 7 || mode == 25
            &&& t.dirty.contains(y as usize)
            &&& (t.columns, t.lines) == (s.columns, s.lines)
            &&& t.saved.len() == 0 && t.margins is None && t.charset_index == 0
            &&& t.cursor_style is Default && t.cursor_blink
            &&& (t.cwd, t.bell, t.replies) == (s.cwd, s.bell, s.replies)
            &&& t.scrolled_off.len() == 0
            &&& !t.alt_screen && t.parked is None
            &&& t.charset is Ascii && t.g0_charset is Ascii && t.g1_charset is Ascii
            &&& t.title.len() == 0 && t.icon_name.len() == 0
            &&& t.keyboard_mode == 0 && t.keyboard_mode_stack.len() == 0
            &&& !s.alt_screen ==> t.events == s.events
            &&& s.alt_screen ==> t.events.last() == Happening::AltScreen { entered: false }
        }),
{
}

/// The sequences `h` and `l` set and clear modes, private ones where a question mark stands before
/// the parameters and ANSI modes where nothing does.
pub proof fn the_sequences_that_switch_modes(
    s: ScreenState,
    mode: u16,
    params: Seq<u16>,
    intermediates: Seq<u8>,
)
    ensures
        s.csi_dispatch(params, seq![0x3fu8], 'h') == s.set_modes(params, true),
        s.csi_dispatch(params, seq![0x3fu8], 'l') == s.reset_modes(params, true),
        intermediates != seq![0x3fu8] ==> s.csi_dispatch(params, intermediates, 'h')
            == s.set_modes(params, false),
        intermediates != seq![0x3fu8] ==> s.csi_dispatch(params, intermediates, 'l')
            == s.reset_modes(params, false),
        s.csi_dispatch(seq![mode], seq![0x3fu8], 'h') == s.set_private_mode(mode),
        s.csi_dispatch(seq![mode], seq![0x3fu8], 'l') == s.reset_private_mode(mode),
        s.csi_dispatch(seq![mode], seq![], 'h') == s.set_mode(mode, false),
        s.csi_dispatch(seq![mode], seq![], 'l') == s.reset_mode(mode, false),
{
    reveal(ScreenState::csi_dispatch);
    reveal_with_fuel(ScreenState::set_modes, 2);
    reveal_with_fuel(ScreenState::reset_modes, 2);
    let none: Seq<u8> = seq![];
    assert(none.len() != seq![0x3fu8].len());
    assert(seq![mode].drop_last() =~= seq![]);
}

/// Several modes in one sequence are switched one after another.
pub proof fn modes_are_switched_in_order(s: ScreenState, a: Seq<u16>, b: Seq<u16>, private: bool)
    ensures
        s.set_modes(a + b, private) == s.set_modes(a, private).set_modes(b, private),
        s.reset_modes(a + b, private) == s.reset_modes(a, private).reset_modes(b, private),
    decreases b.len(),
{
    if b.len() == 0 {
        assert(a + b =~= a);
    } else {
        assert((a + b).drop_last() =~= a + b.drop_last());
        assert((a + b).last() == b.last());
        modes_are_switched_in_order(s, a, b.drop_last(), private);
    }
}

/// Whether `m` has the private mode `mode` set to `on`, and all other modes as `before`.
pub open spec fn only_private_mode(before: ModeSet, m: ModeSet, mode: u16, on: bool) -> bool {
    &&& m.public == before.public
    &&& forall|k: u16|
        #[trigger] m.private.contains(k) <==> if k == mode {
            on
        } else {
            before.private.contains(k)
        }
}

/// An ANSI mode is set and cleared without any other effect: insert mode, 4, and new-line mode,
/// 20. Others are not known.
pub proof fn ansi_modes_are_switched(s: ScreenState, mode: u16, k: u16)
    ensures
        ({
            let set = s.set_mode(mode, false);
            let cleared = s.reset_mode(mode, false);
            &&& set == ScreenState { mode: set.mode, ..s }
            &&& cleared == ScreenState { mode: cleared.mode, ..s }
            &&& set.mode.private == s.mode.private
            &&& cleared.mode.private == s.mode.private
            &&& set.mode.public.contains(k) <==> s.mode.public.contains(k) || k == mode && (k == 4
                || k == 20)
            &&& cleared.mode.public.contains(k) <==> s.mode.public.contains(k) && k != mode
        }),
{
}

/// A private mode without an effect on the screen is only remembered: all but the width, 3,
/// reverse video, 5, origin mode, 6, the visible cursor, 25, and those of the alternate screen.
pub proof fn other_private_modes_are_remembered(s: ScreenState, mode: u16)
    requires
        mode != 3 && mode != 5 && mode != 6 && mode != 25 && mode != 47 && mode != 1047 && mode
            != 1049,
    ensures
        ({
            let set = s.set_mode(mode, true);
            let cleared = s.reset_mode(mode, true);
            &&& set == ScreenState { mode: set.mode, ..s }
            &&& only_private_mode(s.mode, set.mode, mode, true)
            &&& cleared == ScreenState { mode: cleared.mode, ..s }
            &&& only_private_mode(s.mode, cleared.mode, mode, false)
        }),
{
}

/// The escapes `=` and `>` switch the mode of the cursor keys, 1.
pub proof fn the_escapes_that_switch_the_cursor_keys(s: ScreenState)
    ensures
        s.esc(seq![], 0x3d) == s.set_mode(1, true),
        s.esc(seq![], 0x3e) == s.reset_mode(1, true),
{
    reveal(ScreenState::esc);
}

/// Origin mode, 6, homes the cursor when it is set and leaves it when it is cleared. The mode of
/// the visible cursor, 25, shows it when it is set and hides it when it is cleared.
pub proof fn origin_mode_and_the_visible_cursor(s: ScreenState)
    ensures
        ({
            let t = s.set_mode(6, true);
            t == ScreenState { mode: t.mode, x: 0, y: 0, ..s } && only_private_mode(
                s.mode,
                t.mode,
                6,
                true,
            )
        }),
        ({
            let t = s.reset_mode(6, true);
            t == ScreenState { mode: t.mode, ..s } && only_private_mode(s.mode, t.mode, 6, false)
        }),
        ({
            let t = s.set_mode(25, true);
            t == ScreenState { mode: t.mode, hidden: false, ..s } && only_private_mode(
                s.mode,
                t.mode,
                25,
                true,
            )
        }),
        ({
            let t = s.reset_mode(25, true);
            t == ScreenState { mode: t.mode, hidden: true, ..s } && only_private_mode(
                s.mode,
                t.mode,
                25,
                false,
            )
        }),
{
}

/// Reverse video, 5, reverses every cell and those to come when it is set, and none when it is
/// cleared. It changes nothing else of a cell.
pub proof fn reverse_video(s: ScreenState, on: bool, x: int, y: int)
    requires
        s.wf(),
        0 <= x < s.columns,
        0 <= y < s.lines,
    ensures
        ({
            let t = if on {
                s.set_mode(5, true)
            } else {
                s.reset_mode(5, true)
            };
            &&& only_private_mode(s.mode, t.mode, 5, on)
            &&& t.buffer[y][x] == Cell { reverse: on, ..s.buffer[y][x] }
            &&& t.default_char == Cell { reverse: on, ..s.default_char }
            &&& t.dirty.contains(y as usize)
            &&& edit_laws::only_cells_differ(
                ScreenState { mode: t.mode, default_char: t.default_char, ..s },
                t,
            )
        }),
{
    reveal(grid::is_rect);
}

/// The width, 3: setting it gives an empty screen of 132 columns. Clearing it gives one of 80
/// columns on which what fits stays. Both home the cursor, take its attributes and what was saved
/// of it, and lift the scroll region; the lines stay as many. On the screen that is not shown, what
/// fits stays, and its cursor where there is still room for it.
pub proof fn the_width_is_switched(s: ScreenState, on: bool, x: int, y: int)
    requires
        s.wf(),
        0 <= x,
        0 <= y < s.lines,
    ensures
        ({
            let t = if on {
                s.set_mode(3, true)
            } else {
                s.reset_mode(3, true)
            };
            &&& only_private_mode(s.mode, t.mode, 3, on)
            &&& t.columns == if on {
                132int
            } else {
                80
            }
            &&& t.lines == s.lines
            &&& t.buffer.len() == s.lines && t.buffer[y].len() == t.columns
            &&& x < t.columns ==> t.buffer[y][x] == if !on && x < s.columns {
                s.buffer[y][x]
            } else {
                s.default_char
            }
            &&& (t.x, t.y, t.hidden) == (0int, 0int, false)
            &&& t.attrs == Cell::blank() && t.saved.len() == 0
            &&& t.margins is None
            &&& t.dirty.contains(y as usize)
            &&& forall|c: usize| #[trigger]
                t.tabstops.contains(c) <==> 0 < c < t.columns && c % 8 == 0
            &&& t.parked is Some == s.parked is Some
            &&& s.parked matches Some(p) ==> {
                let q = t.parked->0;
                &&& q.x == if p.x < t.columns {
                    p.x
                } else {
                    t.columns - 1
                }
                &&& (q.y, q.attrs) == (p.y, p.attrs)
                &&& q.buffer.len() == s.lines && q.buffer[y].len() == t.columns
                &&& x < t.columns ==> q.buffer[y][x] == if x < s.columns {
                    p.buffer[y][x]
                } else {
                    s.default_char
                }
            }
            &&& t == ScreenState {
                columns: t.columns,
                buffer: t.buffer,
                x: 0,
                y: 0,
                attrs: t.attrs,
                hidden: false,
                saved: t.saved,
                mode: t.mode,
                margins: None,
                tabstops: t.tabstops,
                parked: t.parked,
                dirty: t.dirty,
                ..s
            }
        }),
{
    reveal(grid::is_rect);
}

/// Each of the modes 47, 1047 and 1049 shows the alternate screen: blank, of the same size, and
/// with the cursor where it was. The primary screen and its cursor are kept. Where the alternate
/// screen is shown already, nothing changes but the mode.
pub proof fn the_alternate_screen_is_shown(s: ScreenState, mode: u16, x: int, y: int)
    requires
        s.wf(),
        mode == 47 || mode == 1047 || mode == 1049,
        0 <= x < s.columns,
        0 <= y < s.lines,
    ensures
        ({
            let t = s.set_mode(mode, true);
            &&& only_private_mode(s.mode, t.mode, mode, true)
            &&& s.alt_screen ==> t == ScreenState { mode: t.mode, ..s }
            &&& !s.alt_screen ==> {
                let p = t.parked->0;
                &&& t.alt_screen && t.parked is Some
                &&& t.buffer[y][x] == s.default_char
                &&& t.buffer.len() == s.lines && t.buffer[y].len() == s.columns
                &&& (p.buffer, p.x, p.y, p.attrs) == (s.buffer, s.x, s.y, s.attrs)
                &&& t.dirty.contains(y as usize)
                &&& t.events == events::logged(s.events, Happening::AltScreen { entered: true })
                &&& t == ScreenState {
                    mode: t.mode,
                    alt_screen: true,
                    parked: t.parked,
                    buffer: t.buffer,
                    dirty: t.dirty,
                    events: t.events,
                    ..s
                }
            }
        }),
{
}

/// Clearing any of the modes 47, 1047 and 1049 brings the primary screen back as it was kept, with
/// its cursor, and forgets the alternate one. Where none is kept, nothing changes but the mode.
pub proof fn the_alternate_screen_is_left(s: ScreenState, mode: u16)
    requires
        s.wf(),
        mode == 47 || mode == 1047 || mode == 1049,
    ensures
        ({
            let t = s.reset_mode(mode, true);
            &&& only_private_mode(s.mode, t.mode, mode, false)
            &&& s.parked is None ==> t == ScreenState { mode: t.mode, ..s }
            &&& s.parked matches Some(p) ==> {
                &&& !t.alt_screen && t.parked is None
                &&& (t.buffer, t.x, t.y, t.attrs) == (p.buffer, p.x, p.y, p.attrs)
                &&& forall|y: usize| #[trigger] t.dirty.contains(y) <==> y < s.lines
                &&& t.events == events::logged(s.events, Happening::AltScreen { entered: false })
                &&& t == ScreenState {
                    mode: t.mode,
                    alt_screen: false,
                    parked: None,
                    buffer: p.buffer,
                    x: p.x,
                    y: p.y,
                    attrs: p.attrs,
                    dirty: t.dirty,
                    events: t.events,
                    ..s
                }
            }
        }),
{
}

/// The escape `(` with a code designates the character set that is in force, `)` the one that a
/// shift out puts in force: `0` is line drawing, `B` and `(` are ASCII, and other codes change
/// nothing.
pub proof fn character_sets_are_designated(s: ScreenState, byte: u8)
    requires
        byte < 0x80,
    ensures
        ({
            let g0 = s.esc(seq![0x28u8], byte);
            let g1 = s.esc(seq![0x29u8], byte);
            let set = if byte == 0x30 {
                CharsetRef::DecSpecial
            } else {
                CharsetRef::Ascii
            };
            if byte == 0x30 || byte == 0x42 || byte == 0x28 {
                &&& g0 == ScreenState { g0_charset: set, charset: set, ..s }
                &&& g1 == ScreenState { g1_charset: set, ..s }
            } else {
                g0 == s && g1 == s
            }
        }),
{
    reveal(ScreenState::esc);
    assert(seq![byte as char][0] == byte as char);
    assert(byte as char == '0' <==> byte == 0x30);
    assert(byte as char == 'B' <==> byte == 0x42);
    assert(byte as char == '(' <==> byte == 0x28);
}

/// A designation without a code is one of ASCII, only its first character counts, and a target that
/// is neither the first nor the second set changes nothing.
pub proof fn a_designation_goes_by_its_first_character(
    s: ScreenState,
    code: char,
    rest: Seq<char>,
    target: char,
)
    ensures
        s.define_charset(seq![], target) == s.define_charset(seq!['B'], target),
        s.define_charset(seq![code] + rest, target) == s.define_charset(seq![code], target),
        target != '(' && target != ')' ==> s.define_charset(seq![code] + rest, target) == s,
        s.define_charset(seq!['B'], '(') == (ScreenState {
            g0_charset: CharsetRef::Ascii,
            charset: CharsetRef::Ascii,
            ..s
        }),
        s.define_charset(seq!['0'], ')') == (ScreenState { g1_charset: CharsetRef::DecSpecial, ..s }),
{
    assert((seq![code] + rest)[0] == code);
}

/// A shift out puts the second character set in force and a shift in the first; neither does
/// anything else. A bell rings.
pub proof fn the_shifts_and_the_bell(s: ScreenState)
    ensures
        s.execute(0x0e) == (ScreenState { charset: s.g1_charset, ..s }),
        s.execute(0x0f) == (ScreenState { charset: s.g0_charset, ..s }),
        s.execute(0x07) == (ScreenState {
            bell: true,
            events: events::logged(s.events, Happening::Bell),
            ..s
        }),
        forall|byte: u8|
            byte < 0x07 || 0x10 <= byte ==> #[trigger] s.execute(byte) == s,
{
    reveal(ScreenState::execute);
}

/// Of the modes that report the mouse, 1000, 1002 and 1003, the one with the largest number takes
/// precedence among those that are set. Where none is, the mouse is not reported.
pub proof fn the_mode_that_reports_the_mouse(m: ModeSet, k: u16)
    requires
        k == 1000 || k == 1002 || k == 1003,
    ensures
        m.private.contains(k) ==> m.mouse_mode() >= k,
        m.mouse_mode() != 0 ==> m.private.contains(m.mouse_mode()),
        m.mouse_mode() == 0 || m.mouse_mode() == 1000 || m.mouse_mode() == 1002 || m.mouse_mode()
            == 1003,
{
}

/// The alignment pattern is asked for by the escape `#8`, and by the control sequence `8`.
pub proof fn the_escape_of_the_pattern(
    s: ScreenState,
    params: Seq<u16>,
    intermediates: Seq<u8>,
)
    ensures
        s.esc(seq![0x23u8], 0x38) == s.alignment_display(),
        s.csi_dispatch(params, intermediates, '8') == s.alignment_display(),
{
    reveal(ScreenState::esc);
    reveal(ScreenState::csi_dispatch);
}

} // verus!
