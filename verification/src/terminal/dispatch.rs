//! Control sequences: renditions, reports, titles, character sets, and the choice of the
//! operation by the final character.
use super::cell::Char;
use super::charsets::CharsetRef;
use super::events::TermEvent;
use super::graphics;
use super::modes;
use super::screen::Screen;
use super::state;
use super::state::{CursorStyle, KeyboardApplyBehavior, ScreenState};
use crate::text;
use vstd::prelude::*;

verus! {

/// The parameter `i`, or `default` where it is missing.
fn param_or(params: &[u16], i: usize, default: u16) -> (v: u16)
    ensures
        v == state::param(params@, i as int, default as int),
{
    if i < params.len() {
        params[i]
    } else {
        default
    }
}

/// The parameter `i`, if it is there.
fn param_at(params: &[u16], i: usize) -> (v: Option<usize>)
    ensures
        super::screen::opt_int(v) == state::opt_param(params@, i as int),
{
    if i < params.len() {
        Some(params[i] as usize)
    } else {
        None
    }
}

/// Whether `bytes` is the one byte `b`.
fn is_just(bytes: &[u8], b: u8) -> (r: bool)
    ensures
        r == (bytes@ == seq![b]),
{
    let r: bool = bytes.len() == 1 && bytes[0] == b;
    assert(r ==> bytes@ =~= seq![b]);
    r
}

/// The colour that the extended colour sequence at `params[i..]` names, if it names one, and the
/// number of parameters that it takes.
fn color_at(params: &[u16], i: usize) -> (r: (Option<String>, usize))
    requires
        i < params@.len(),
    ensures
        match r.0 {
            Some(color) => state::extended_color(params@.skip(i as int)) == Some(color@),
            None => state::extended_color(params@.skip(i as int)) is None,
        },
        r.1 == state::extended_color_len(params@.skip(i as int)),
        1 <= r.1 <= params@.len() - i,
{
    let ghost tail = params@.skip(i as int);
    let left: usize = params.len() - i;
    if left < 2 {
        return (None, 1);
    }
    let kind: u16 = params[i + 1];
    assert(tail[1] == kind);
    if kind == 5 {
        if left == 2 {
            return (None, 2);
        }
        assert(tail[2] == params@[i + 2]);
        if params[i + 2] < 256 {
            (Some(graphics::palette_color(params[i + 2] as u8)), 3)
        } else {
            (None, 1)
        }
    } else if kind == 2 && left >= 5 {
        assert(tail[2] == params@[i + 2] && tail[3] == params@[i + 3] && tail[4] == params@[i + 4]);
        let color: String = text::rgb_name(
            (params[i + 2] % 256) as u8,
            (params[i + 3] % 256) as u8,
            (params[i + 4] % 256) as u8,
        );
        (Some(color), 5)
    } else {
        (None, 1)
    }
}

/// The name of a colour, as a new string.
fn owned(name: Option<&'static str>) -> (s: String)
    requires
        name is Some,
    ensures
        Some(s@) == graphics::opt_view(name),
{
    match name {
        Some(n) => n.to_string(),
        None => String::new(),
    }
}

/// Applies one SGR code that is no extended colour.
fn apply_rendition(attrs: &mut Char, reset: &Char, code: u16)
    ensures
        final(attrs)@ == state::rendition(old(attrs)@, reset@, code),
{
    match code {
        0 => {
            *attrs = reset.clone();
        },
        1 => {
            attrs.bold = true;
        },
        2 => {
            attrs.dim = true;
        },
        3 => {
            attrs.italics = true;
        },
        4 => {
            attrs.underscore = true;
        },
        5 => {
            attrs.blink = true;
        },
        7 => {
            attrs.reverse = true;
        },
        8 => {
            attrs.hidden = true;
        },
        9 => {
            attrs.strikethrough = true;
        },
        22 => {
            attrs.bold = false;
            attrs.dim = false;
        },
        23 => {
            attrs.italics = false;
        },
        24 => {
            attrs.underscore = false;
        },
        25 => {
            attrs.blink = false;
        },
        27 => {
            attrs.reverse = false;
        },
        28 => {
            attrs.hidden = false;
        },
        29 => {
            attrs.strikethrough = false;
        },
        _ => {
            if 30 <= code && code <= 37 || code == 39 {
                attrs.fg = owned(graphics::fg_ansi(code as i32));
            } else if 40 <= code && code <= 47 || code == 49 {
                attrs.bg = owned(graphics::bg_ansi(code as i32));
            } else if 90 <= code && code <= 97 {
                attrs.fg = owned(graphics::fg_aixterm(code as i32));
            } else if 100 <= code && code <= 107 {
                attrs.bg = owned(graphics::bg_aixterm(code as i32));
            }
        },
    }
}

impl Screen {
    /// Sets the attributes of new text by a list of SGR codes.
    pub fn select_graphic_rendition(&mut self, params: &[u16])
        ensures
            final(self)@ == old(self)@.select_graphic_rendition(params@),
            old(self)@.wf() ==> final(self)@.wf(),
    {
        let mut reset: Char = self.default_char.clone();
        if self.mode.has_private(modes::DECSCNM) {
            reset.reverse = true;
        }
        let ghost target = state::renditions(old(self)@.attrs, reset@, params@);
        let mut i: usize = 0;
        assert(params@.skip(0) =~= params@);
        while i < params.len()
            invariant
                i <= params@.len(),
                self@ == (ScreenState { attrs: self@.attrs, ..old(self)@ }),
                target == state::renditions(self@.attrs, reset@, params@.skip(i as int)),
            decreases params@.len() - i,
        {
            let ghost tail = params@.skip(i as int);
            let code: u16 = params[i];
            assert(tail[0] == code);
            if code == graphics::FG_256 || code == graphics::BG_256 {
                let (named, used) = color_at(params, i);
                assert(tail.skip(used as int) =~= params@.skip(i + used));
                if let Some(color) = named {
                    if code == graphics::FG_256 {
                        self.cursor.attrs.fg = color;
                    } else {
                        self.cursor.attrs.bg = color;
                    }
                }
                i = i + used;
            } else {
                assert(tail.skip(1) =~= params@.skip(i + 1));
                apply_rendition(&mut self.cursor.attrs, &reset, code);
                i = i + 1;
            }
        }
    }

    /// Queues a reply to the process.
    fn queue(&mut self, reply: String)
        ensures
            final(self)@ == old(self)@.reply(reply@),
    {
        self.write_process_input.push(reply);
        assert(self@.replies =~= old(self)@.replies.push(reply@));
    }

    /// Replies with the terminal's identity.
    pub fn report_device_attributes(&mut self)
        ensures
            final(self)@ == old(self)@.identify(),
            old(self)@.wf() ==> final(self)@.wf(),
    {
        self.queue("\x1b[?6c".to_string());
    }

    /// Replies with the terminal's identity.
    pub fn identify_terminal_primary(&mut self)
        ensures
            final(self)@ == old(self)@.identify(),
            old(self)@.wf() ==> final(self)@.wf(),
    {
        self.queue("\x1b[?6c".to_string());
    }

    /// Replies to a status request: the terminal is well (5), or where the cursor is (6).
    pub fn report_device_status(&mut self, param: usize)
        requires
            old(self)@.wf(),
        ensures
            final(self)@ == old(self)@.report_device_status(param as int),
            final(self)@.wf(),
    {
        if param == 5 {
            self.queue("\x1b[0n".to_string());
        } else if param == 6 {
            let mut row: u128 = self.cursor.y as u128 + 1;
            if self.mode.has_private(modes::DECOM) {
                let top: usize = match self.margins {
                    Some(m) => m.top,
                    None => 0,
                };
                row = self.cursor.y.saturating_sub(top) as u128 + 1;
            }
            assert(row == self@.reported_row());
            let mut reply = String::new();
            reply.push('\x1b');
            reply.push('[');
            text::push_decimal(&mut reply, row);
            reply.push(';');
            text::push_decimal(&mut reply, self.cursor.x as u128 + 1);
            reply.push('R');
            assert(reply@ =~= seq!['\x1b', '['] + text::decimal(self@.reported_row() as nat)
                + seq![';'] + text::decimal((self@.x + 1) as nat) + seq!['R']);
            self.queue(reply);
        }
    }

    /// Sets the cursor's shape by its number.
    pub fn set_cursor_style(&mut self, style_id: u16)
        ensures
            final(self)@ == old(self)@.set_cursor_style(style_id as int),
            old(self)@.wf() ==> final(self)@.wf(),
    {
        self.cursor_style = match style_id {
            1 | 2 => CursorStyle::Block,
            3 | 4 => CursorStyle::Underline,
            5 | 6 => CursorStyle::Beam,
            _ => CursorStyle::Default,
        };
        self.cursor_blink = style_id == 0 || style_id == 1 || style_id == 3 || style_id == 5;
    }

    /// Combines the keyboard mode with `mode`.
    pub fn set_keyboard_mode(&mut self, mode: u16, behavior: KeyboardApplyBehavior)
        ensures
            final(self)@ == old(self)@.set_keyboard_mode(mode, behavior),
            old(self)@.wf() ==> final(self)@.wf(),
    {
        self.keyboard_mode = match behavior {
            KeyboardApplyBehavior::Replace => mode,
            KeyboardApplyBehavior::Union => self.keyboard_mode | mode,
            KeyboardApplyBehavior::Difference => self.keyboard_mode & !mode,
        };
    }

    /// Pushes a keyboard mode.
    pub fn push_keyboard_mode(&mut self, mode: u16)
        ensures
            final(self)@ == old(self)@.push_keyboard_mode(mode),
            old(self)@.wf() ==> final(self)@.wf(),
    {
        self.keyboard_mode_stack.push(mode);
    }

    /// Pops `count` keyboard modes; the last one popped is in force.
    pub fn pop_keyboard_modes(&mut self, count: usize)
        ensures
            final(self)@ == old(self)@.pop_keyboard_modes(count as int),
            old(self)@.wf() ==> final(self)@.wf(),
    {
        let ghost stack = self@.keyboard_mode_stack;
        let mut done: usize = 0;
        assert(stack.take(stack.len() as int) =~= stack);
        while done < count && self.keyboard_mode_stack.len() > 0
            invariant
                done <= count,
                done <= stack.len(),
                stack == old(self)@.keyboard_mode_stack,
                self@ == (ScreenState {
                    keyboard_mode: state::popped_mode(
                        old(self)@.keyboard_mode,
                        stack,
                        done as int,
                    ),
                    keyboard_mode_stack: stack.take(stack.len() - done),
                    ..old(self)@
                }),
            decreases count - done,
        {
            match self.keyboard_mode_stack.pop() {
                Some(mode) => {
                    self.keyboard_mode = mode;
                },
                None => {},
            }
            done = done + 1;
            assert(self@.keyboard_mode_stack =~= stack.take(stack.len() - done));
        }
        assert(done == state::min(count as int, stack.len() as int));
    }

    /// Replies with the keyboard mode.
    pub fn report_keyboard_mode(&mut self)
        ensures
            final(self)@ == old(self)@.report_keyboard_mode(),
            old(self)@.wf() ==> final(self)@.wf(),
    {
        let mut reply = String::new();
        reply.push('\x1b');
        reply.push('[');
        text::push_decimal(&mut reply, self.keyboard_mode as u128);
        reply.push(';');
        reply.push('1');
        reply.push(';');
        reply.push('0');
        reply.push(' ');
        reply.push('u');
        assert(reply@ =~= seq!['\x1b', '['] + text::decimal(self@.keyboard_mode as nat) + seq![
            ';', '1', ';', '0', ' ', 'u',
        ]);
        self.queue(reply);
    }

    /// Sets the icon name.
    pub fn set_icon_name(&mut self, name: &str)
        ensures
            final(self)@ == old(self)@.set_icon_name(name@),
            old(self)@.wf() ==> final(self)@.wf(),
    {
        self.icon_name = name.to_string();
        self.push_event(TermEvent::IconChanged(name.to_string()));
    }

    /// Sets the title.
    pub fn set_title(&mut self, title: &str)
        ensures
            final(self)@ == old(self)@.set_title(title@),
            old(self)@.wf() ==> final(self)@.wf(),
    {
        self.title = title.to_string();
        self.push_event(TermEvent::TitleChanged(title.to_string()));
    }

    /// Sets the working directory of the shell.
    pub fn set_cwd(&mut self, path: String)
        ensures
            final(self)@ == old(self)@.set_cwd(path@),
            old(self)@.wf() ==> final(self)@.wf(),
    {
        let same: bool = match &self.cwd {
            Some(current) => super::cell::text_is(current, path.as_str()),
            None => false,
        };
        if !same {
            self.cwd = Some(path.clone());
            self.push_event(TermEvent::CwdChanged(path));
        }
    }

    /// Designates a character set as G0 (target `(`) or G1 (target `)`).
    pub fn define_charset(&mut self, designator: &str, target: char)
        ensures
            final(self)@ == old(self)@.define_charset(designator@, target),
            old(self)@.wf() ==> final(self)@.wf(),
    {
        let code: char = if designator.unicode_len() > 0 {
            designator.get_char(0)
        } else {
            'B'
        };
        match CharsetRef::from_designation(code) {
            Some(set) => {
                if target == '(' {
                    self.g0_charset = set;
                    self.charset = set;
                } else if target == ')' {
                    self.g1_charset = set;
                }
            },
            None => {},
        }
    }

    /// Puts G0 in force.
    pub fn shift_in(&mut self)
        ensures
            final(self)@ == (ScreenState { charset: old(self)@.g0_charset, ..old(self)@ }),
            old(self)@.wf() ==> final(self)@.wf(),
    {
        self.charset = self.g0_charset;
    }

    /// Puts G1 in force.
    pub fn shift_out(&mut self)
        ensures
            final(self)@ == (ScreenState { charset: old(self)@.g1_charset, ..old(self)@ }),
            old(self)@.wf() ==> final(self)@.wf(),
    {
        self.charset = self.g1_charset;
    }

    /// Sets several modes, in order.
    fn set_modes(&mut self, params: &[u16], private: bool)
        requires
            old(self)@.wf(),
        ensures
            final(self)@ == old(self)@.set_modes(params@, private),
            final(self)@.wf(),
    {
        let mut i: usize = 0;
        assert(params@.take(0) =~= seq![]);
        while i < params.len()
            invariant
                i <= params@.len(),
                self@.wf(),
                self@ == old(self)@.set_modes(params@.take(i as int), private),
            decreases params@.len() - i,
        {
            assert(params@.take(i + 1).drop_last() =~= params@.take(i as int));
            self.set_mode(params[i], private);
            i = i + 1;
        }
        assert(params@.take(i as int) =~= params@);
    }

    /// Clears several modes, in order.
    fn reset_modes(&mut self, params: &[u16], private: bool)
        requires
            old(self)@.wf(),
        ensures
            final(self)@ == old(self)@.reset_modes(params@, private),
            final(self)@.wf(),
    {
        let mut i: usize = 0;
        assert(params@.take(0) =~= seq![]);
        while i < params.len()
            invariant
                i <= params@.len(),
                self@.wf(),
                self@ == old(self)@.reset_modes(params@.take(i as int), private),
            decreases params@.len() - i,
        {
            assert(params@.take(i + 1).drop_last() =~= params@.take(i as int));
            self.reset_mode(params[i], private);
            i = i + 1;
        }
        assert(params@.take(i as int) =~= params@);
    }

    /// Performs a control sequence that moves the cursor.
    fn csi_move(&mut self, params: &[u16], action: char)
        requires
            old(self)@.wf(),
            state::is_move(action),
        ensures
            final(self)@ == old(self)@.csi_move(params@, action),
            final(self)@.wf(),
    {
        proof {
            reveal(ScreenState::csi_move);
        }
        let n: usize = param_or(params, 0, 1) as usize;
        match action {
            'A' => self.cursor_up(n),
            'B' | 'e' => self.cursor_down(n),
            'C' | 'a' => self.cursor_forward(n),
            'D' => self.cursor_back(n),
            'E' => {
                self.cursor_down(n);
                self.carriage_return();
            },
            'F' => {
                self.cursor_up(n);
                self.carriage_return();
            },
            'G' => self.cursor_to_column(n),
            'd' => self.cursor_to_line(n),
            _ => self.cursor_position(n, param_or(params, 1, 1) as usize),
        }
    }

    /// Performs a control sequence that edits the screen.
    fn csi_edit(&mut self, params: &[u16], action: char)
        requires
            old(self)@.wf(),
            state::is_edit(action),
        ensures
            final(self)@ == old(self)@.csi_edit(params@, action),
            final(self)@.wf(),
    {
        proof {
            reveal(ScreenState::csi_edit);
        }
        let n: usize = param_or(params, 0, 1) as usize;
        match action {
            'J' => self.erase_in_display(param_or(params, 0, 0) as usize),
            'K' => self.erase_in_line(param_or(params, 0, 0) as usize),
            'X' => self.erase_characters(n),
            'P' => self.delete_characters(n),
            '@' => self.insert_characters(n),
            'L' => self.insert_lines(n),
            'M' => self.delete_lines(n),
            'S' => self.scroll_up(n),
            _ => self.scroll_down(n),
        }
    }

    /// Performs a keyboard or cursor request.
    fn csi_u(&mut self, params: &[u16], intermediates: &[u8])
        requires
            old(self)@.wf(),
        ensures
            final(self)@ == old(self)@.csi_u(params@, intermediates@),
            final(self)@.wf(),
    {
        proof {
            reveal(ScreenState::csi_u);
        }
        if is_just(intermediates, 0x3f) {
            self.report_keyboard_mode();
        } else if is_just(intermediates, 0x3e) {
            self.push_keyboard_mode(param_or(params, 0, 0));
        } else if is_just(intermediates, 0x3c) {
            self.pop_keyboard_modes(param_or(params, 0, 1) as usize);
        } else if intermediates.len() == 0 && params.len() >= 2 && params[1] == 0 {
            let behavior: KeyboardApplyBehavior = match param_or(params, 2, 0) {
                3 => KeyboardApplyBehavior::Difference,
                2 => KeyboardApplyBehavior::Union,
                _ => KeyboardApplyBehavior::Replace,
            };
            self.set_keyboard_mode(params[0], behavior);
        } else {
            self.restore_cursor();
        }
    }

    /// Performs the control sequence that ends in `action`.
    pub fn csi_dispatch(&mut self, params: &[u16], intermediates: &[u8], action: char)
        requires
            old(self)@.wf(),
        ensures
            final(self)@ == old(self)@.csi_dispatch(params@, intermediates@, action),
            final(self)@.wf(),
    {
        proof {
            reveal(ScreenState::csi_dispatch);
        }
        let private: bool = is_just(intermediates, 0x3f);
        match action {
            'A' | 'B' | 'C' | 'D' | 'E' | 'F' | 'G' | 'H' | 'a' | 'd' | 'e' | 'f' => self.csi_move(
                params,
                action,
            ),
            'J' | 'K' | 'X' | 'P' | '@' | 'L' | 'M' | 'S' | 'T' => self.csi_edit(params, action),
            'm' => self.select_graphic_rendition(params),
            'h' => self.set_modes(params, private),
            'l' => self.reset_modes(params, private),
            'r' => {
                self.set_margins(param_at(params, 0), param_at(params, 1));
                self.cursor_position(1, 1);
            },
            's' => self.save_cursor(),
            'u' => self.csi_u(params, intermediates),
            'g' => self.clear_tab_stop(param_or(params, 0, 0)),
            'n' => self.report_device_status(param_or(params, 0, 0) as usize),
            '8' => self.alignment_display(),
            'c' => self.identify_terminal_primary(),
            'q' => {
                if is_just(intermediates, 0x20) {
                    self.set_cursor_style(param_or(params, 0, 0));
                }
            },
            _ => {},
        }
    }
}

} // verus!
