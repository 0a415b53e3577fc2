//! What is promised of colours and attributes: what each code sets and leaves, how colours are
//! named, and how a cell is handed out.
use super::cell::{Cell, Char};
use super::graphics;
use super::graphics::TextAttr;
use super::history;
use super::history::HistoryState;
use super::state;
use super::state::ScreenState;
use crate::text;
use vstd::prelude::*;

verus! {

/// `off` where `code` is the code that switches an attribute off, on where it is one that switches
/// it on, else as it was.
pub open spec fn switched(was: bool, code: u16, on: int, off: int) -> bool {
    if code == on {
        true
    } else if code == off {
        false
    } else {
        was
    }
}

/// Each attribute has a code of its own that switches it on, and one that switches it off: 1 bold
/// and 2 dim, both off by 22; 3 italics, 4 underscore, 5 blink, 7 reverse, 8 hidden and 9
/// strikethrough, off by the code twenty higher. No other code but 0 touches it, and none touches
/// the text.
pub proof fn each_attribute_has_its_codes(a: Cell, reset: Cell, code: u16)
    requires
        code != 0,
    ensures
        ({
            let t = state::rendition(a, reset, code);
            &&& t.bold == switched(a.bold, code, 1, 22)
            &&& t.dim == switched(a.dim, code, 2, 22)
            &&& t.italics == switched(a.italics, code, 3, 23)
            &&& t.underscore == switched(a.underscore, code, 4, 24)
            &&& t.blink == switched(a.blink, code, 5, 25)
            &&& t.reverse == switched(a.reverse, code, 7, 27)
            &&& t.hidden == switched(a.hidden, code, 8, 28)
            &&& t.strikethrough == switched(a.strikethrough, code, 9, 29)
            &&& t.data == a.data
        }),
{
}

/// Code 0 sets every colour and attribute to that of the cell `reset`.
pub proof fn the_zero_code_resets(a: Cell, reset: Cell)
    ensures
        state::rendition(a, reset, 0) == reset,
{
}

/// The codes 30 to 37, 39 and 90 to 97 set the foreground, 40 to 47, 49 and 100 to 107 the
/// background, by the same names ten codes apart. No other code but 0 and the extended ones
/// touches a colour, and none of these touches the other colour or an attribute.
pub proof fn colours_have_their_codes(a: Cell, reset: Cell, code: u16)
    requires
        code != 0,
    ensures
        ({
            let t = state::rendition(a, reset, code);
            &&& t.fg == if 30 <= code <= 37 {
                graphics::color_name(code - 30)
            } else if code == 39 {
                "default"@
            } else if 90 <= code <= 97 {
                "bright"@ + graphics::color_name(code - 90)
            } else {
                a.fg
            }
            &&& t.bg == if 40 <= code <= 47 {
                graphics::color_name(code - 40)
            } else if code == 49 {
                "default"@
            } else if 100 <= code <= 107 {
                "bright"@ + graphics::color_name(code - 100)
            } else {
                a.bg
            }
            &&& code >= 30 ==> t == Cell { fg: t.fg, bg: t.bg, ..a }
        }),
{
    if 90 <= code <= 97 {
        bright_names_are_prefixed(code - 90);
    }
    if 100 <= code <= 107 {
        bright_names_are_prefixed(code - 100);
    }
}

/// The eight standard colours, in the order of their codes.
pub proof fn the_standard_colours()
    ensures
        graphics::color_name(0) == seq!['b', 'l', 'a', 'c', 'k'],
        graphics::color_name(1) == seq!['r', 'e', 'd'],
        graphics::color_name(2) == seq!['g', 'r', 'e', 'e', 'n'],
        graphics::color_name(3) == seq!['b', 'r', 'o', 'w', 'n'],
        graphics::color_name(4) == seq!['b', 'l', 'u', 'e'],
        graphics::color_name(5) == seq!['m', 'a', 'g', 'e', 'n', 't', 'a'],
        graphics::color_name(6) == seq!['c', 'y', 'a', 'n'],
        graphics::color_name(7) == seq!['w', 'h', 'i', 't', 'e'],
{
    reveal_strlit("black");
    reveal_strlit("red");
    reveal_strlit("green");
    reveal_strlit("brown");
    reveal_strlit("blue");
    reveal_strlit("magenta");
    reveal_strlit("cyan");
    reveal_strlit("white");
    assert("black"@ =~= seq!['b', 'l', 'a', 'c', 'k']);
    assert("red"@ =~= seq!['r', 'e', 'd']);
    assert("green"@ =~= seq!['g', 'r', 'e', 'e', 'n']);
    assert("brown"@ =~= seq!['b', 'r', 'o', 'w', 'n']);
    assert("blue"@ =~= seq!['b', 'l', 'u', 'e']);
    assert("magenta"@ =~= seq!['m', 'a', 'g', 'e', 'n', 't', 'a']);
    assert("cyan"@ =~= seq!['c', 'y', 'a', 'n']);
    assert("white"@ =~= seq!['w', 'h', 'i', 't', 'e']);
}

/// A bright colour is named after the standard one.
pub proof fn bright_names_are_prefixed(n: int)
    requires
        0 <= n < 8,
    ensures
        graphics::bright_name(n) == "bright"@ + graphics::color_name(n),
{
    reveal_strlit("bright");
    reveal_strlit("black");
    reveal_strlit("red");
    reveal_strlit("green");
    reveal_strlit("brown");
    reveal_strlit("blue");
    reveal_strlit("magenta");
    reveal_strlit("cyan");
    reveal_strlit("white");
    reveal_strlit("brightblack");
    reveal_strlit("brightred");
    reveal_strlit("brightgreen");
    reveal_strlit("brightbrown");
    reveal_strlit("brightblue");
    reveal_strlit("brightmagenta");
    reveal_strlit("brightcyan");
    reveal_strlit("brightwhite");
    assert("brightblack"@ =~= "bright"@ + "black"@);
    assert("brightred"@ =~= "bright"@ + "red"@);
    assert("brightgreen"@ =~= "bright"@ + "green"@);
    assert("brightbrown"@ =~= "bright"@ + "brown"@);
    assert("brightblue"@ =~= "bright"@ + "blue"@);
    assert("brightmagenta"@ =~= "bright"@ + "magenta"@);
    assert("brightcyan"@ =~= "bright"@ + "cyan"@);
    assert("brightwhite"@ =~= "bright"@ + "white"@);
}

/// What the functions on colour codes give agrees with what the codes set.
pub proof fn colour_codes_agree(a: Cell, reset: Cell, code: u16)
    requires
        code != 0,
    ensures
        ({
            let t = state::rendition(a, reset, code);
            &&& graphics::ansi_color(30, code as int) matches Some(name) ==> t.fg == name
            &&& graphics::ansi_color(40, code as int) matches Some(name) ==> t.bg == name
            &&& graphics::aixterm_color(90, code as int) matches Some(name) ==> t.fg == name
            &&& graphics::aixterm_color(100, code as int) matches Some(name) ==> t.bg == name
            &&& graphics::ansi_color(30, code as int) is None && graphics::aixterm_color(
                90,
                code as int,
            ) is None ==> t.fg == a.fg
            &&& graphics::ansi_color(40, code as int) is None && graphics::aixterm_color(
                100,
                code as int,
            ) is None ==> t.bg == a.bg
        }),
{
}

/// The cell that code 0 sets: the erased cell, reversed where the screen is.
pub open spec fn reset_cell(s: ScreenState) -> Cell {
    if s.mode.private.contains(5) {
        Cell { reverse: true, ..s.default_char }
    } else {
        s.default_char
    }
}

/// A control sequence that ends in `m` changes the attributes of new text and nothing else.
pub proof fn a_rendition_changes_attributes_only(
    s: ScreenState,
    params: Seq<u16>,
    intermediates: Seq<u8>,
)
    ensures
        ({
            let t = s.csi_dispatch(params, intermediates, 'm');
            &&& t == ScreenState { attrs: t.attrs, ..s }
            &&& t == s.select_graphic_rendition(params)
            &&& params.len() == 0 ==> t == s
        }),
{
    reveal(ScreenState::csi_dispatch);
}

/// The attributes after a control sequence that ends in `m`.
pub open spec fn styled(s: ScreenState, params: Seq<u16>) -> Cell {
    s.select_graphic_rendition(params).attrs
}

/// A single code that is no extended colour has its effect; code 0 brings back what erased cells
/// have, reversed where the screen is.
pub proof fn a_single_code(s: ScreenState, code: u16)
    requires
        code != 38,
        code != 48,
    ensures
        ({
            let t = styled(s, seq![code]);
            let a = s.attrs;
            &&& code == 0 ==> t == reset_cell(s)
            &&& code != 0 ==> {
                &&& t.bold == switched(a.bold, code, 1, 22)
                &&& t.dim == switched(a.dim, code, 2, 22)
                &&& t.italics == switched(a.italics, code, 3, 23)
                &&& t.underscore == switched(a.underscore, code, 4, 24)
                &&& t.blink == switched(a.blink, code, 5, 25)
                &&& t.reverse == switched(a.reverse, code, 7, 27)
                &&& t.hidden == switched(a.hidden, code, 8, 28)
                &&& t.strikethrough == switched(a.strikethrough, code, 9, 29)
                &&& t.data == a.data
            }
            &&& t == state::rendition(a, reset_cell(s), code)
        }),
{
    reveal_with_fuel(state::renditions, 2);
    assert(seq![code].skip(1) =~= seq![]);
    if code != 0 {
        each_attribute_has_its_codes(s.attrs, reset_cell(s), code);
    }
}

/// Switching an attribute on and off again leaves attributes that did not have it as they were.
pub proof fn switching_off_undoes_switching_on(s: ScreenState, on: u16)
    requires
        1 <= on <= 9,
        on != 6,
    ensures
        ({
            let off: u16 = if on <= 2 {
                22
            } else {
                (on + 20) as u16
            };
            let a = s.attrs;
            let had = (on <= 2 && (a.bold || a.dim)) || (on == 3 && a.italics) || (on == 4
                && a.underscore) || (on == 5 && a.blink) || (on == 7 && a.reverse) || (on == 8
                && a.hidden) || (on == 9 && a.strikethrough);
            !had ==> styled(s.select_graphic_rendition(seq![on]), seq![off]) == a
        }),
{
    let off: u16 = if on <= 2 {
        22
    } else {
        (on + 20) as u16
    };
    a_single_code(s, on);
    a_single_code(s.select_graphic_rendition(seq![on]), off);
}

/// Each of the codes switches something on, and two different ones never the same.
pub proof fn codes_are_apart(s: ScreenState, one: u16, other: u16)
    requires
        1 <= one <= 9,
        1 <= other <= 9,
        one != 6,
        other != 6,
        one != other,
        s.attrs == Cell::blank(),
    ensures
        styled(s, seq![one]) != styled(s, seq![other]),
        styled(s, seq![one]) != s.attrs,
{
    a_single_code(s, one);
    a_single_code(s, other);
}

/// Codes take effect in order: a list is its first codes, none of them an extended colour, and
/// then the rest.
pub proof fn codes_take_effect_in_order(s: ScreenState, first: Seq<u16>, rest: Seq<u16>)
    requires
        forall|i: int| 0 <= i < first.len() ==> #[trigger] first[i] != 38 && first[i] != 48,
    ensures
        styled(s, first + rest) == styled(s.select_graphic_rendition(first), rest),
{
    in_order(s.attrs, reset_cell(s), first, rest);
}

proof fn in_order(a: Cell, reset: Cell, first: Seq<u16>, rest: Seq<u16>)
    requires
        forall|i: int| 0 <= i < first.len() ==> #[trigger] first[i] != 38 && first[i] != 48,
    ensures
        state::renditions(a, reset, first + rest) == state::renditions(
            state::renditions(a, reset, first),
            reset,
            rest,
        ),
    decreases first.len(),
{
    if first.len() == 0 {
        assert(first + rest =~= rest);
    } else {
        let tail = first.skip(1);
        assert((first + rest).skip(1) =~= tail + rest);
        assert((first + rest)[0] == first[0]);
        assert forall|i: int| 0 <= i < tail.len() implies #[trigger] tail[i] != 38 && tail[i]
            != 48 by {
            assert(tail[i] == first[i + 1]);
        }
        in_order(state::rendition(a, reset, first[0]), reset, tail, rest);
    }
}

/// A palette colour: 38 for the foreground or 48 for the background, 5 and an index below 256 set
/// that colour to the one of the palette, and what follows takes effect after it.
pub proof fn a_palette_colour_is_set(s: ScreenState, index: u16, rest: Seq<u16>)
    requires
        index < 256,
    ensures
        styled(s, seq![38u16, 5, index] + rest) == styled(
            ScreenState { attrs: Cell { fg: graphics::palette(index as u8), ..s.attrs }, ..s },
            rest,
        ),
        styled(s, seq![48u16, 5, index] + rest) == styled(
            ScreenState { attrs: Cell { bg: graphics::palette(index as u8), ..s.attrs }, ..s },
            rest,
        ),
{
    let fg = seq![38u16, 5, index] + rest;
    let bg = seq![48u16, 5, index] + rest;
    assert(fg[0] == 38 && fg[1] == 5 && fg[2] == index);
    assert(bg[0] == 48 && bg[1] == 5 && bg[2] == index);
    assert(fg.skip(3) =~= rest);
    assert(bg.skip(3) =~= rest);
}

/// A true colour: 38 or 48, 2 and three intensities set the colour to their hexadecimal name, of
/// each the lowest eight bits, and what follows takes effect after it.
pub proof fn a_true_colour_is_set(s: ScreenState, r: u16, g: u16, b: u16, rest: Seq<u16>)
    ensures
        ({
            let name = text::hex_rgb((r % 256) as u8, (g % 256) as u8, (b % 256) as u8);
            &&& styled(s, seq![38u16, 2, r, g, b] + rest) == styled(
                ScreenState { attrs: Cell { fg: name, ..s.attrs }, ..s },
                rest,
            )
            &&& styled(s, seq![48u16, 2, r, g, b] + rest) == styled(
                ScreenState { attrs: Cell { bg: name, ..s.attrs }, ..s },
                rest,
            )
        }),
{
    let fg = seq![38u16, 2, r, g, b] + rest;
    let bg = seq![48u16, 2, r, g, b] + rest;
    assert(fg[0] == 38 && fg[1] == 2 && fg[2] == r && fg[3] == g && fg[4] == b);
    assert(bg[0] == 48 && bg[1] == 2 && bg[2] == r && bg[3] == g && bg[4] == b);
    assert(fg.skip(5) =~= rest);
    assert(bg.skip(5) =~= rest);
}

/// An extended colour that is cut short after its kind, 5, changes nothing. One that names no
/// colour is passed over, and what follows it are codes of their own.
pub proof fn an_extended_colour_that_names_none(s: ScreenState, code: u16, rest: Seq<u16>)
    requires
        code == 38 || code == 48,
        rest.len() == 0 || rest[0] != 5 && rest[0] != 2 || rest[0] == 5 && rest.len() >= 2
            && rest[1] >= 256 || rest[0] == 2 && rest.len() < 4,
    ensures
        styled(s, seq![code] + rest) == styled(s, rest),
        styled(s, seq![code, 5]) == s.attrs,
{
    let all = seq![code] + rest;
    assert(all[0] == code);
    assert(all.skip(1) =~= rest);
    if rest.len() > 0 {
        assert(all[1] == rest[0]);
    }
    if rest.len() > 1 {
        assert(all[2] == rest[1]);
    }
    let short = seq![code, 5u16];
    assert(short.skip(2) =~= seq![]);
    reveal_with_fuel(state::renditions, 2);
}

/// The intensity `k` of six.
pub open spec fn cube_level(k: int) -> int {
    if k == 0 {
        0
    } else {
        55 + 40 * k
    }
}

/// The palette from 16 to 231 is a cube of six intensities in red, green and blue, blue fastest.
pub proof fn the_palette_holds_a_cube(r: int, g: int, b: int)
    requires
        0 <= r < 6,
        0 <= g < 6,
        0 <= b < 6,
    ensures
        graphics::palette((16 + 36 * r + 6 * g + b) as u8) == text::hex_rgb(
            cube_level(r) as u8,
            cube_level(g) as u8,
            cube_level(b) as u8,
        ),
{
    let n = 36 * r + 6 * g + b;
    assert(n / 36 == r);
    assert(n / 6 == 6 * r + g);
    assert((6 * r + g) % 6 == g);
    assert(n % 6 == b);
    cube_levels_rise(r);
    cube_levels_rise(g);
    cube_levels_rise(b);
}

proof fn cube_levels_rise(k: int)
    requires
        0 <= k < 6,
    ensures
        graphics::CUBE_LEVELS[k] == cube_level(k),
{
}

/// The palette from 232 on is twenty-four shades of grey, ten apart.
pub proof fn the_palette_holds_greys(k: int)
    requires
        0 <= k < 24,
    ensures
        ({
            let v = (8 + 10 * k) as u8;
            graphics::palette((232 + k) as u8) == text::hex_rgb(v, v, v)
        }),
{
}

/// The intensity that bit `bit` of the number of one of the first sixteen colours stands for: 1 is
/// red, 2 green and 4 blue. From 8 on the colours are bright.
pub open spec fn standard_level(i: int, bit: int) -> int {
    let on = i / bit % 2 == 1;
    if i < 8 {
        if !on {
            0
        } else if i == 7 {
            0xe5
        } else if i == 4 {
            0xee
        } else {
            0xcd
        }
    } else if i == 8 {
        0x7f
    } else if on {
        0xff
    } else if i == 12 {
        0x5c
    } else {
        0
    }
}

/// The first sixteen colours of the palette mix red, green and blue by the bits of their numbers.
pub proof fn the_palette_starts_with_the_standard_colours(i: int)
    requires
        0 <= i < 16,
    ensures
        graphics::palette(i as u8) == text::hex_rgb(
            standard_level(i, 1) as u8,
            standard_level(i, 2) as u8,
            standard_level(i, 4) as u8,
        ),
{
    let c = graphics::STANDARD_RGB[i];
    assert(c.0 == standard_level(i, 1) && c.1 == standard_level(i, 2) && c.2 == standard_level(
        i,
        4,
    ));
}

/// The mask that a cell is handed out with has bit `k` set exactly where the `k`-th of bold, dim,
/// italics, underscore, blink, reverse, hidden and strikethrough is on, and no others.
pub proof fn each_attribute_has_its_bit(c: Cell)
    ensures
        ({
            let mask = history::packed(c).3;
            &&& 0 <= mask < 256
            &&& mask % 2 == 1 <==> c.bold
            &&& mask / 2 % 2 == 1 <==> c.dim
            &&& mask / 4 % 2 == 1 <==> c.italics
            &&& mask / 8 % 2 == 1 <==> c.underscore
            &&& mask / 16 % 2 == 1 <==> c.blink
            &&& mask / 32 % 2 == 1 <==> c.reverse
            &&& mask / 64 % 2 == 1 <==> c.hidden
            &&& mask / 128 % 2 == 1 <==> c.strikethrough
        }),
{
}

/// A cell is handed out with its text, its foreground and its background, in this order. So two
/// cells that are handed out alike are alike.
pub proof fn a_cell_is_handed_out_whole(c: Cell, d: Cell)
    ensures
        history::packed(c).0 == c.data,
        history::packed(c).1 == c.fg,
        history::packed(c).2 == c.bg,
        history::packed(c) == history::packed(d) ==> c == d,
{
    each_attribute_has_its_bit(c);
    each_attribute_has_its_bit(d);
}

/// The viewport shows the scrollback, oldest line first, and then the screen from the top down:
/// each cell at its place.
pub proof fn the_viewport_shows_every_cell(h: HistoryState, x: int, y: int)
    requires
        h.wf(),
        0 <= x,
        0 <= y < h.history.len() + h.screen.lines,
        y < h.history.len() ==> x < h.history[y].len(),
        y >= h.history.len() ==> x < h.screen.columns,
    ensures
        ({
            let rows = history::packed_rows(h.all_lines());
            &&& rows.len() == h.history.len() + h.screen.lines
            &&& y < h.history.len() ==> rows[y][x] == history::packed(h.history[y][x])
            &&& y >= h.history.len() ==> rows[y][x] == history::packed(
                h.screen.buffer[y - h.history.len()][x],
            )
        }),
{
    super::grid::rect_row(
        h.screen.buffer,
        h.screen.lines,
        h.screen.columns,
        y - h.history.len(),
    );
}

/// What is said of a cell's fields holds of the fields of the same names of the character cell.
pub proof fn a_cell_has_the_fields_of_its_character(c: Char)
    ensures
        c@.data == c.data@,
        c@.fg == c.fg@,
        c@.bg == c.bg@,
        c@.bold == c.bold,
        c@.dim == c.dim,
        c@.italics == c.italics,
        c@.underscore == c.underscore,
        c@.blink == c.blink,
        c@.reverse == c.reverse,
        c@.hidden == c.hidden,
        c@.strikethrough == c.strikethrough,
{
}

/// The blank cell is a space in the default colours, with every attribute off.
pub proof fn the_blank_cell()
    ensures
        ({
            let c = Cell::blank();
            &&& c.data == seq![' ']
            &&& c.fg == seq!['d', 'e', 'f', 'a', 'u', 'l', 't']
            &&& c.bg == c.fg
            &&& history::packed(c).3 == 0
        }),
{
    reveal_strlit("default");
    assert("default"@ =~= seq!['d', 'e', 'f', 'a', 'u', 'l', 't']);
}

/// Each attribute change that has a name has the code that makes it: applied to any cell, the code
/// switches that attribute on or off.
pub proof fn attribute_changes_have_their_codes(attr: TextAttr, cell: Cell, reset: Cell)
    ensures
        ({
            let t = state::rendition(cell, reset, attr.code() as u16);
            match attr {
                TextAttr::SetBold => t == Cell { bold: true, ..cell },
                TextAttr::ResetBold => t == Cell { bold: false, dim: false, ..cell },
                TextAttr::SetItalics => t == Cell { italics: true, ..cell },
                TextAttr::ResetItalics => t == Cell { italics: false, ..cell },
                TextAttr::SetUnderline => t == Cell { underscore: true, ..cell },
                TextAttr::ResetUnderline => t == Cell { underscore: false, ..cell },
                TextAttr::SetBlink => t == Cell { blink: true, ..cell },
                TextAttr::ResetBlink => t == Cell { blink: false, ..cell },
                TextAttr::SetReverse => t == Cell { reverse: true, ..cell },
                TextAttr::ResetReverse => t == Cell { reverse: false, ..cell },
                TextAttr::SetStrikethrough => t == Cell { strikethrough: true, ..cell },
                TextAttr::ResetStrikethrough => t == Cell { strikethrough: false, ..cell },
            }
        }),
{
}

} // verus!
