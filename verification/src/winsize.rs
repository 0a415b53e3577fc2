//! The size of a terminal window.
use crate::text;
use vstd::prelude::*;

verus! {

/// Rows and columns of a window, and its size in pixels where that is known.
#[derive(Clone, Copy, Debug, PartialEq, Eq, Structural)]
pub struct Winsize {
    pub rows: u16,
    pub cols: u16,
    pub xpixel: u16,
    pub ypixel: u16,
}

impl Default for Winsize {
    fn default() -> (size: Self)
        ensures
            size.rows == 0,
            size.cols == 0,
            size.xpixel == 0,
            size.ypixel == 0,
    {
        Winsize { rows: 0, cols: 0, xpixel: 0, ypixel: 0 }
    }
}

/// The number that the sixteen bits of `n` stand for with a sign.
pub open spec fn signed(n: u16) -> int {
    if n < 0x8000 {
        n as int
    } else {
        n - 0x1_0000
    }
}

fn to_signed(n: u16) -> (r: i16)
    ensures
        r == signed(n),
{
    if n < 0x8000 {
        n as i16
    } else {
        -((0xffff - n) as i16) - 1
    }
}

impl Winsize {
    /// A window of so many rows and columns, and so many pixels.
    pub fn new(rows: u16, cols: u16, xpixel: u16, ypixel: u16) -> (size: Self)
        ensures
            size.rows == rows,
            size.cols == cols,
            size.xpixel == xpixel,
            size.ypixel == ypixel,
    {
        Winsize { rows, cols, xpixel, ypixel }
    }

    /// The text that shows all four numbers.
    pub open spec fn repr(self) -> Seq<char> {
        "Winsize(rows="@ + text::decimal(self.rows as nat) + ", cols="@ + text::decimal(
            self.cols as nat,
        ) + ", xpixel="@ + text::decimal(self.xpixel as nat) + ", ypixel="@ + text::decimal(
            self.ypixel as nat,
        ) + ")"@
    }

    /// The text that shows all four numbers.
    pub fn __repr__(&self) -> (s: String)
        ensures
            s@ == self.repr(),
    {
        let mut s = "Winsize(rows=".to_string();
        text::push_decimal(&mut s, self.rows as u128);
        s.append(", cols=");
        text::push_decimal(&mut s, self.cols as u128);
        s.append(", xpixel=");
        text::push_decimal(&mut s, self.xpixel as u128);
        s.append(", ypixel=");
        text::push_decimal(&mut s, self.ypixel as u128);
        s.append(")");
        s
    }

    /// Whether the two sizes agree in all four numbers.
    pub fn __eq__(&self, other: &Winsize) -> (b: bool)
        ensures
            b == (self == other),
    {
        self.rows == other.rows && self.cols == other.cols && self.xpixel == other.xpixel
            && self.ypixel == other.ypixel
    }

    /// The size as a Windows console coordinate, columns first: the same bits, with a sign.
    pub fn coord(&self) -> (at: (i16, i16))
        ensures
            at.0 == signed(self.cols),
            at.1 == signed(self.rows),
    {
        (to_signed(self.cols), to_signed(self.rows))
    }
}

/// The size of a terminal for which none was asked: 24 rows of 80 columns.
pub fn or_console_default(size: Option<Winsize>) -> (r: Winsize)
    ensures
        r == match size {
            Some(s) => s,
            None => (Winsize { rows: 24, cols: 80, xpixel: 0, ypixel: 0 }),
        },
{
    match size {
        Some(s) => s,
        None => Winsize { rows: 24, cols: 80, xpixel: 0, ypixel: 0 },
    }
}

/// A number with a sign differs from its sixteen bits by a multiple of what they can hold.
pub proof fn signed_keeps_the_bits(n: u16)
    ensures
        -0x8000 <= signed(n) < 0x8000,
        (n - signed(n)) % 0x1_0000 == 0,
{
}

} // verus!
