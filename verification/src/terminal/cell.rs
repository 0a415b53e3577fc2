//! Character cells, and rows and grids of them.
use crate::text;
use unicode_width::UnicodeWidthChar;
use vstd::prelude::*;

verus! {

/// How many columns a character takes, or `None` for a control character: the width that
/// `unicode_width` assigns to it.
pub uninterp spec fn char_width(c: char) -> Option<usize>;

/// `UnicodeWidthChar::width` of `unicode_width`: a function of the character alone. Printable
/// ASCII is one column wide, and the C0 and C1 controls and DEL have no width.
#[verifier::external_body]
fn width_of(c: char) -> (w: Option<usize>)
    ensures
        w == char_width(c),
        0x20 <= (c as u32) < 0x7f ==> w == Some(1usize),
        (c as u32) < 0x20 || 0x7f <= (c as u32) < 0xa0 ==> w is None,
{
    c.width()
}

/// The columns that a character takes on the screen; a control character takes one.
pub open spec fn columns_of(c: char) -> usize {
    match char_width(c) {
        Some(w) => w,
        None => 1,
    }
}

/// The columns that a character takes on the screen.
pub fn columns_taken(c: char) -> (w: usize)
    ensures
        w == columns_of(c),
        0x20 <= (c as u32) < 0x7f ==> w == 1,
{
    match width_of(c) {
        Some(w) => w,
        None => 1,
    }
}

/// A character cell: the text in it, with its colours and attributes.
#[derive(Debug, PartialEq, Eq, Hash)]
pub struct Char {
    pub data: String,
    pub fg: String,
    pub bg: String,
    pub bold: bool,
    pub dim: bool,
    pub italics: bool,
    pub underscore: bool,
    pub blink: bool,
    pub reverse: bool,
    pub hidden: bool,
    pub strikethrough: bool,
}

/// A `Char`, with its texts as sequences of characters.
#[verifier::ext_equal]
pub struct Cell {
    pub data: Seq<char>,
    pub fg: Seq<char>,
    pub bg: Seq<char>,
    pub bold: bool,
    pub dim: bool,
    pub italics: bool,
    pub underscore: bool,
    pub blink: bool,
    pub reverse: bool,
    pub hidden: bool,
    pub strikethrough: bool,
}

impl View for Char {
    type V = Cell;

    open spec fn view(&self) -> Cell {
        Cell {
            data: self.data@,
            fg: self.fg@,
            bg: self.bg@,
            bold: self.bold,
            dim: self.dim,
            italics: self.italics,
            underscore: self.underscore,
            blink: self.blink,
            reverse: self.reverse,
            hidden: self.hidden,
            strikethrough: self.strikethrough,
        }
    }
}

impl Cell {
    /// The cell that holds `data` in the colours `fg` and `bg`, without attributes.
    pub open spec fn plain(data: Seq<char>, fg: Seq<char>, bg: Seq<char>) -> Cell {
        Cell {
            data,
            fg,
            bg,
            bold: false,
            dim: false,
            italics: false,
            underscore: false,
            blink: false,
            reverse: false,
            hidden: false,
            strikethrough: false,
        }
    }

    /// The blank cell: a space in the default colours.
    pub open spec fn blank() -> Cell {
        Cell::plain(seq![' '], "default"@, "default"@)
    }

    /// The attributes as a bit mask: bold, dim, italics, underscore, blink, reverse, hidden and
    /// strikethrough, from the lowest bit up.
    pub open spec fn attribute_bits(self) -> int {
        bit(self.bold, 1) + bit(self.dim, 2) + bit(self.italics, 4) + bit(self.underscore, 8) + bit(
            self.blink,
            16,
        ) + bit(self.reverse, 32) + bit(self.hidden, 64) + bit(self.strikethrough, 128)
    }
}

/// `weight` where `on`, else 0.
pub open spec fn bit(on: bool, weight: int) -> int {
    if on {
        weight
    } else {
        0
    }
}

/// Whether `s` holds the text `t`.
pub fn text_is(s: &String, t: &str) -> (b: bool)
    ensures
        b == (s@ == t@),
{
    let u: &str = s.as_str();
    let n: usize = u.unicode_len();
    if n != t.unicode_len() {
        return false;
    }
    let mut i: usize = 0;
    while i < n
        invariant
            i <= n,
            u@ == s@,
            n == s@.len(),
            n == t@.len(),
            forall|j: int| 0 <= j < i ==> s@[j] == t@[j],
        decreases n - i,
    {
        if u.get_char(i) != t.get_char(i) {
            assert(s@[i as int] != t@[i as int]);
            return false;
        }
        i = i + 1;
    }
    assert(s@ =~= t@);
    true
}

impl Clone for Char {
    fn clone(&self) -> (r: Self)
        ensures
            r == *self,
    {
        Char {
            data: self.data.clone(),
            fg: self.fg.clone(),
            bg: self.bg.clone(),
            bold: self.bold,
            dim: self.dim,
            italics: self.italics,
            underscore: self.underscore,
            blink: self.blink,
            reverse: self.reverse,
            hidden: self.hidden,
            strikethrough: self.strikethrough,
        }
    }
}

impl Default for Char {
    fn default() -> (r: Self)
        ensures
            r@ == Cell::plain(seq![], seq![], seq![]),
    {
        let r = Char {
            data: String::new(),
            fg: String::new(),
            bg: String::new(),
            bold: false,
            dim: false,
            italics: false,
            underscore: false,
            blink: false,
            reverse: false,
            hidden: false,
            strikethrough: false,
        };
        assert(r@ =~= Cell::plain(seq![], seq![], seq![]));
        r
    }
}

impl Char {
    /// A cell that holds `data`, with no colours and no attributes.
    pub fn new(data: impl Into<String>) -> (r: Self)
        ensures
            call_ensures(Into::<String>::into, (data,), r.data),
            r@ == Cell::plain(r.data@, seq![], seq![]),
    {
        let data: String = data.into();
        let r = Char { data, ..Char::default() };
        r
    }

    /// The blank cell.
    pub fn blank() -> (r: Self)
        ensures
            r@ == Cell::blank(),
    {
        let r = Char {
            data: text::char_to_string(' '),
            fg: "default".to_string(),
            bg: "default".to_string(),
            ..Char::default()
        };
        r
    }

    /// Whether this is the blank cell.
    pub fn is_blank(&self) -> (b: bool)
        ensures
            b == (self@ == Cell::blank()),
    {
        proof {
            reveal_strlit(" ");
            assert(" "@ =~= seq![' ']);
        }
        let b: bool = text_is(&self.data, " ") && !self.bold && !self.dim && !self.italics
            && !self.underscore && !self.blink && !self.reverse && !self.hidden
            && !self.strikethrough && text_is(&self.fg, "default") && text_is(&self.bg, "default");
        assert(b ==> self@ =~= Cell::blank());
        b
    }

    /// The columns that the cell's first character takes; an empty cell takes none.
    pub fn width(&self) -> (w: usize)
        ensures
            w == (if self@.data.len() == 0 {
                0
            } else {
                columns_of(self@.data[0])
            }),
    {
        let s: &str = self.data.as_str();
        if s.unicode_len() == 0 {
            0
        } else {
            columns_taken(s.get_char(0))
        }
    }

    /// The text of the cell.
    pub fn to_string(&self) -> (s: String)
        ensures
            s@ == self@.data,
    {
        self.data.clone()
    }
}

} // verus!
