//! What is promised of text that is drawn: where each character goes by its width, what insert mode
//! and wrapping do to it, and what the line drawing set shows for it.
use super::ansi_parser::Action;
use super::cell;
use super::cell::Cell;
use super::charsets;
use super::charsets::CharsetRef;
use super::edit_laws;
use super::grid;
use super::state::ScreenState;
use vstd::prelude::*;

verus! {

/// Where the next character goes: at the cursor, or where a wrap is pending at the start of the
/// next line, or of the last one.
pub open spec fn next_place(s: ScreenState) -> (int, int) {
    if s.x < s.columns {
        (s.x, s.y)
    } else if s.y < s.lines - 1 {
        (0, s.y + 1)
    } else {
        (0, s.y)
    }
}

/// What the cell at column `x` of line `y` holds after a character that takes `width` columns, one
/// at least, was drawn. The character stands at its place, with the attributes in force. In insert
/// mode, 4, a narrow one moves the cells from there on right. A wide one erases the cell right of
/// it.
pub open spec fn drawn_cell(s: ScreenState, c: char, width: int, x: int, y: int) -> Cell {
    let at = next_place(s);
    if y != at.1 || x < at.0 {
        s.buffer[y][x]
    } else if x == at.0 {
        Cell { data: seq![c], ..s.attrs }
    } else if width >= 2 && x == at.0 + 1 {
        s.default_char
    } else if width == 1 && s.mode.public.contains(4) {
        s.buffer[y][x - 1]
    } else {
        s.buffer[y][x]
    }
}

/// Room for a narrow character is made in insert mode only.
proof fn room_is_made(w: ScreenState, width: int)
    requires
        w.wf(),
        w.x < w.columns,
    ensures
        ({
            let o = w.opened(width);
            let shifts = width == 1 && w.mode.public.contains(4);
            &&& edit_laws::only_cells_differ(w, o)
            &&& forall|x: int, y: int|
                #![trigger o.buffer[y][x]]
                0 <= x < w.columns && 0 <= y < w.lines && !(y == w.y && x == w.x)
                    ==> o.buffer[y][x] == if shifts && y == w.y && x > w.x {
                    w.buffer[y][x - 1]
                } else {
                    w.buffer[y][x]
                }
            &&& o.dirty.insert(w.y as usize) == w.dirty.insert(w.y as usize)
        }),
{
    edit_laws::inserting_characters(w, 1);
    reveal(grid::is_rect);
    assert(w.opened(width).dirty.insert(w.y as usize) =~= w.dirty.insert(w.y as usize));
}

/// A character is put at the cursor, with an erased cell right of a wide one.
proof fn a_character_is_put(o: ScreenState, c: char, width: int)
    requires
        o.buffer.len() == o.lines,
        forall|y: int| 0 <= y < o.lines ==> (#[trigger] o.buffer[y]).len() == o.columns,
        0 <= o.x < o.columns,
        0 <= o.y < o.lines,
    ensures
        ({
            let t = o.put(c, width);
            &&& edit_laws::only_cells_differ(o, t)
            &&& forall|x: int, y: int|
                #![trigger t.buffer[y][x]]
                0 <= x < o.columns && 0 <= y < o.lines ==> t.buffer[y][x] == if y == o.y && x
                    == o.x {
                    Cell { data: seq![c], ..o.attrs }
                } else if y == o.y && x == o.x + 1 && width >= 2 {
                    o.default_char
                } else {
                    o.buffer[y][x]
                }
            &&& t.dirty == o.dirty.insert(o.y as usize)
        }),
{
}

/// Drawing a character that has a width puts it at its place and leaves the other cells but for
/// what insert mode and a wide character do. A narrow one moves the cursor right by one, behind the
/// last column only where wrapping, 7, is on. A wide one leaves the cursor on it.
pub proof fn a_character_is_drawn(s: ScreenState, c: char, width: int)
    requires
        s.wf(),
        width >= 1,
    ensures
        ({
            let t = s.draw_sized(c, width);
            let at = next_place(s);
            &&& forall|x: int, y: int|
                #![trigger t.buffer[y][x]]
                0 <= x < s.columns && 0 <= y < s.lines ==> t.buffer[y][x] == drawn_cell(
                    s,
                    c,
                    width,
                    x,
                    y,
                )
            &&& t.y == at.1
            &&& t.x == if width == 1 && (at.0 + 1 < s.columns || s.mode.private.contains(7)) {
                at.0 + 1
            } else {
                at.0
            }
            &&& edit_laws::marks(s, t, |y: int| y == at.1)
            &&& edit_laws::only_cells_differ(ScreenState { x: t.x, y: t.y, ..s }, t)
        }),
{
    let w = s.wrapped();
    assert(w.wf() && (w.x, w.y) == next_place(s) && w == ScreenState { x: w.x, y: w.y, ..s });
    room_is_made(w, width);
    let o = w.opened(width);
    a_character_is_put(o, c, width);
    let p = o.put(c, width);
    let t = p.advanced(width);
    assert(s.draw_sized(c, width) == t);
    assert(t == ScreenState { x: t.x, ..p });
    assert forall|x: int, y: int| #![trigger t.buffer[y][x]]
        0 <= x < s.columns && 0 <= y < s.lines implies t.buffer[y][x] == drawn_cell(
        s,
        c,
        width,
        x,
        y,
    ) by {
        assert(o.buffer[y][x] == o.buffer[y][x]);
    }
}

/// A character without a width joins the text of the cell left of the cursor and changes nothing
/// else; at the start of a line it is lost.
pub proof fn a_combining_character_is_joined(s: ScreenState, c: char)
    requires
        s.wf(),
    ensures
        ({
            let t = s.draw_sized(c, 0);
            &&& s.x == 0 ==> t == s
            &&& s.x > 0 ==> {
                &&& forall|x: int, y: int|
                    #![trigger t.buffer[y][x]]
                    0 <= x < s.columns && 0 <= y < s.lines ==> t.buffer[y][x] == if y == s.y && x
                        == s.x - 1 {
                        Cell { data: s.buffer[y][x].data.push(c), ..s.buffer[y][x] }
                    } else {
                        s.buffer[y][x]
                    }
                &&& edit_laws::marks(s, t, |y: int| y == s.y)
                &&& edit_laws::only_cells_differ(s, t)
            }
        }),
{
    reveal(grid::is_rect);
}

/// A character of text is drawn as the character set in force shows it, in as many columns as it
/// takes itself; a control character that is drawn takes one.
pub proof fn a_character_of_text_is_drawn(s: ScreenState, c: char)
    ensures
        ({
            let width = match cell::char_width(c) {
                Some(w) => w as int,
                None => 1,
            };
            s.perform(Action::Print(c)) == s.draw_sized(s.shown(c), width)
        }),
        s.charset is Ascii ==> s.shown(c) == c,
        (c as u32) < 0x5f || (c as u32) >= 0x7f ==> s.shown(c) == c,
        s.charset is DecSpecial && 0x60 <= (c as u32) < 0x7f ==> s.shown(c) as u32 == drawing_codes()[
            (c as u32) - 0x60],
        s.charset is DecSpecial && c as u32 == 0x5f ==> s.shown(c) == ' ',
{
    reveal(ScreenState::perform);
    if s.charset is DecSpecial {
        if 0x60 <= (c as u32) < 0x7f {
            line_drawing_shows(c as u8);
        }
        underscores_are_blank();
    }
}

/// The line drawing characters of the codes from 0x60 to 0x7e, in order.
pub open spec fn drawing_codes() -> Seq<u32> {
    seq![
        0x25c6, 0x2592, 0x2409, 0x240c, 0x240d, 0x240a, 0x00b0, 0x00b1, 0x2424, 0x240b, 0x2518,
        0x2510, 0x250c, 0x2514, 0x253c, 0x23ba, 0x23bb, 0x2500, 0x23bc, 0x23bd, 0x251c, 0x2524,
        0x2534, 0x252c, 0x2502, 0x2264, 0x2265, 0x03c0, 0x2260, 0x00a3, 0x00b7,
    ]
}

/// What the line drawing set shows for the codes from 0x60 to 0x7e.
pub proof fn line_drawing_shows(byte: u8)
    requires
        0x60 <= byte < 0x7f,
    ensures
        CharsetRef::DecSpecial.shows(byte) as u32 == drawing_codes()[byte - 0x60],
{
    let i = byte - 0x60;
    assert(charsets::DEC_SPECIAL_MAP[i].1 as u32 == drawing_codes()[i]);
}

proof fn underscores_are_blank()
    ensures
        CharsetRef::DecSpecial.shows(0x5f) == ' ',
{
    assert(charsets::DEC_SPECIAL_MAP[31].1 == ' ');
}

/// Outside of the codes that the line drawing set redefines, both character sets show a byte as
/// itself.
pub proof fn other_bytes_are_shown_as_themselves(byte: u8)
    ensures
        CharsetRef::Ascii.shows(byte) as u32 == byte,
        byte < 0x5f || byte >= 0x7f ==> CharsetRef::DecSpecial.shows(byte) as u32 == byte,
{
}

/// Text is drawn character by character: a text and then another is both at once.
pub proof fn text_is_drawn_in_order(s: ScreenState, a: Seq<char>, b: Seq<char>)
    ensures
        s.draw(a + b) == s.draw(a).draw(b),
    decreases b.len(),
{
    if b.len() == 0 {
        assert(a + b =~= a);
    } else {
        assert((a + b).drop_last() =~= a + b.drop_last());
        assert((a + b).last() == b.last());
        text_is_drawn_in_order(s, a, b.drop_last());
    }
}

/// The text of a row is the texts of its cells from left to right.
pub proof fn the_text_of_a_row(a: Seq<Cell>, c: Cell, b: Seq<Cell>)
    ensures
        grid::row_text(seq![c]) == c.data,
        grid::row_text(a + b) == grid::row_text(a) + grid::row_text(b),
    decreases b.len(),
{
    reveal_with_fuel(grid::row_text, 2);
    assert(seq![c].drop_last() =~= seq![]);
    assert(grid::row_text(seq![c]) =~= c.data);
    if b.len() == 0 {
        assert(a + b =~= a);
        assert(grid::row_text(a) + grid::row_text(b) =~= grid::row_text(a));
    } else {
        assert((a + b).drop_last() =~= a + b.drop_last());
        assert((a + b).last() == b.last());
        the_text_of_a_row(a, c, b.drop_last());
        assert(grid::row_text(a) + (grid::row_text(b.drop_last()) + b.last().data) =~= (
        grid::row_text(a) + grid::row_text(b.drop_last())) + b.last().data);
    }
}

} // verus!
