//! Text attributes and colours of SGR sequences.
use crate::text;
use vstd::prelude::*;

verus! {

/// The SGR code that sets an extended foreground colour.
pub const FG_256: u16 = 38;

/// The SGR code that sets an extended background colour.
pub const BG_256: u16 = 48;

/// A change of one text attribute.
#[derive(Debug, Clone, Copy, PartialEq, Eq, Structural)]
pub enum TextAttr {
    SetBold,
    ResetBold,
    SetItalics,
    ResetItalics,
    SetUnderline,
    ResetUnderline,
    SetBlink,
    ResetBlink,
    SetReverse,
    ResetReverse,
    SetStrikethrough,
    ResetStrikethrough,
}

impl TextAttr {
    /// The SGR code of this change.
    pub open spec fn code(self) -> int {
        match self {
            TextAttr::SetBold => 1,
            TextAttr::SetItalics => 3,
            TextAttr::SetUnderline => 4,
            TextAttr::SetBlink => 5,
            TextAttr::SetReverse => 7,
            TextAttr::SetStrikethrough => 9,
            TextAttr::ResetBold => 22,
            TextAttr::ResetItalics => 23,
            TextAttr::ResetUnderline => 24,
            TextAttr::ResetBlink => 25,
            TextAttr::ResetReverse => 27,
            TextAttr::ResetStrikethrough => 29,
        }
    }

    /// Whether the change switches the attribute on.
    pub fn is_set(&self) -> (b: bool)
        ensures
            b == (self.code() < 10),
    {
        match self {
            TextAttr::SetBold | TextAttr::SetItalics | TextAttr::SetUnderline
            | TextAttr::SetBlink | TextAttr::SetReverse | TextAttr::SetStrikethrough => true,
            _ => false,
        }
    }
}

/// The attribute change that an SGR code asks for.
pub fn text_attr(code: i32) -> (r: Option<TextAttr>)
    ensures
        match r {
            Some(attr) => attr.code() == code,
            None => forall|attr: TextAttr| #[trigger] attr.code() != code,
        },
{
    match code {
        1 => Some(TextAttr::SetBold),
        3 => Some(TextAttr::SetItalics),
        4 => Some(TextAttr::SetUnderline),
        5 => Some(TextAttr::SetBlink),
        7 => Some(TextAttr::SetReverse),
        9 => Some(TextAttr::SetStrikethrough),
        22 => Some(TextAttr::ResetBold),
        23 => Some(TextAttr::ResetItalics),
        24 => Some(TextAttr::ResetUnderline),
        25 => Some(TextAttr::ResetBlink),
        27 => Some(TextAttr::ResetReverse),
        29 => Some(TextAttr::ResetStrikethrough),
        _ => None,
    }
}

/// The view of an optional string.
pub open spec fn opt_view(s: Option<&'static str>) -> Option<Seq<char>> {
    match s {
        Some(t) => Some(t@),
        None => None,
    }
}

/// The name of the standard colour `n`, for `n < 8`.
pub open spec fn color_name(n: int) -> Seq<char> {
    if n == 0 {
        "black"@
    } else if n == 1 {
        "red"@
    } else if n == 2 {
        "green"@
    } else if n == 3 {
        "brown"@
    } else if n == 4 {
        "blue"@
    } else if n == 5 {
        "magenta"@
    } else if n == 6 {
        "cyan"@
    } else {
        "white"@
    }
}

/// The name of the bright colour `n`, for `n < 8`.
pub open spec fn bright_name(n: int) -> Seq<char> {
    if n == 0 {
        "brightblack"@
    } else if n == 1 {
        "brightred"@
    } else if n == 2 {
        "brightgreen"@
    } else if n == 3 {
        "brightbrown"@
    } else if n == 4 {
        "brightblue"@
    } else if n == 5 {
        "brightmagenta"@
    } else if n == 6 {
        "brightcyan"@
    } else {
        "brightwhite"@
    }
}

/// The colour that the code `code` names in a block of codes that starts at `base`: eight
/// colours, and the default colour at `base + 9`.
pub open spec fn ansi_color(base: int, code: int) -> Option<Seq<char>> {
    if base <= code < base + 8 {
        Some(color_name(code - base))
    } else if code == base + 9 {
        Some("default"@)
    } else {
        None
    }
}

/// The bright colour that the code `code` names in a block of eight codes from `base`.
pub open spec fn aixterm_color(base: int, code: int) -> Option<Seq<char>> {
    if base <= code < base + 8 {
        Some(bright_name(code - base))
    } else {
        None
    }
}

fn standard_color(n: u8) -> (name: &'static str)
    requires
        n < 8,
    ensures
        name@ == color_name(n as int),
{
    match n {
        0 => "black",
        1 => "red",
        2 => "green",
        3 => "brown",
        4 => "blue",
        5 => "magenta",
        6 => "cyan",
        _ => "white",
    }
}

fn bright_color(n: u8) -> (name: &'static str)
    requires
        n < 8,
    ensures
        name@ == bright_name(n as int),
{
    match n {
        0 => "brightblack",
        1 => "brightred",
        2 => "brightgreen",
        3 => "brightbrown",
        4 => "brightblue",
        5 => "brightmagenta",
        6 => "brightcyan",
        _ => "brightwhite",
    }
}

/// The foreground colour of an SGR code from 30 to 37, or 39.
pub fn fg_ansi(code: i32) -> (r: Option<&'static str>)
    ensures
        opt_view(r) == ansi_color(30, code as int),
{
    if 30 <= code && code <= 37 {
        Some(standard_color((code - 30) as u8))
    } else if code == 39 {
        Some("default")
    } else {
        None
    }
}

/// The bright foreground colour of an SGR code from 90 to 97.
pub fn fg_aixterm(code: i32) -> (r: Option<&'static str>)
    ensures
        opt_view(r) == aixterm_color(90, code as int),
{
    if 90 <= code && code <= 97 {
        Some(bright_color((code - 90) as u8))
    } else {
        None
    }
}

/// The background colour of an SGR code from 40 to 47, or 49.
pub fn bg_ansi(code: i32) -> (r: Option<&'static str>)
    ensures
        opt_view(r) == ansi_color(40, code as int),
{
    if 40 <= code && code <= 47 {
        Some(standard_color((code - 40) as u8))
    } else if code == 49 {
        Some("default")
    } else {
        None
    }
}

/// The bright background colour of an SGR code from 100 to 107.
pub fn bg_aixterm(code: i32) -> (r: Option<&'static str>)
    ensures
        opt_view(r) == aixterm_color(100, code as int),
{
    if 100 <= code && code <= 107 {
        Some(bright_color((code - 100) as u8))
    } else {
        None
    }
}

/// The first sixteen colours of the palette.
pub const STANDARD_RGB: [(u8, u8, u8); 16] = [
    (0x00, 0x00, 0x00), (0xcd, 0x00, 0x00), (0x00, 0xcd, 0x00), (0xcd, 0xcd, 0x00),
    (0x00, 0x00, 0xee), (0xcd, 0x00, 0xcd), (0x00, 0xcd, 0xcd), (0xe5, 0xe5, 0xe5),
    (0x7f, 0x7f, 0x7f), (0xff, 0x00, 0x00), (0x00, 0xff, 0x00), (0xff, 0xff, 0x00),
    (0x5c, 0x5c, 0xff), (0xff, 0x00, 0xff), (0x00, 0xff, 0xff), (0xff, 0xff, 0xff),
];

/// The six intensities of the colour cube.
pub const CUBE_LEVELS: [u8; 6] = [0x00, 0x5f, 0x87, 0xaf, 0xd7, 0xff];

/// The palette: sixteen standard colours, a cube of six intensities in red, green and blue, and
/// twenty-four shades of grey.
pub open spec fn palette(i: u8) -> Seq<char> {
    if i < 16 {
        let c = STANDARD_RGB[i as int];
        text::hex_rgb(c.0, c.1, c.2)
    } else if i < 232 {
        let n = i - 16;
        text::hex_rgb(CUBE_LEVELS[n / 36], CUBE_LEVELS[n / 6 % 6], CUBE_LEVELS[n % 6])
    } else {
        let v = (8 + (i - 232) * 10) as u8;
        text::hex_rgb(v, v, v)
    }
}

/// The colour `i` of the palette.
pub fn palette_color(i: u8) -> (name: String)
    ensures
        name@ == palette(i),
{
    if i < 16 {
        let table: [(u8, u8, u8); 16] = STANDARD_RGB;
        let c: (u8, u8, u8) = table[i as usize];
        text::rgb_name(c.0, c.1, c.2)
    } else if i < 232 {
        let levels: [u8; 6] = CUBE_LEVELS;
        let n: usize = i as usize - 16;
        text::rgb_name(levels[n / 36], levels[n / 6 % 6], levels[n % 6])
    } else {
        let v: u8 = 8 + (i - 232) * 10;
        text::rgb_name(v, v, v)
    }
}

/// The whole palette of 256 colours.
pub fn fg_bg_256() -> (colors: Vec<String>)
    ensures
        colors@.len() == 256,
        forall|i: int| 0 <= i < 256 ==> (#[trigger] colors@[i])@ == palette(i as u8),
{
    let mut colors: Vec<String> = Vec::new();
    let mut i: u16 = 0;
    while i < 256
        invariant
            i <= 256,
            colors@.len() == i,
            forall|j: int| 0 <= j < i ==> (#[trigger] colors@[j])@ == palette(j as u8),
        decreases 256 - i,
    {
        colors.push(palette_color(i as u8));
        i = i + 1;
    }
    colors
}

/// A colour of a cell.
#[derive(Debug, Clone, PartialEq, Eq, Hash)]
pub enum Color {
    Default,
    Named(&'static str),
    Indexed(u8),
    Rgb(String),
}

impl Default for Color {
    fn default() -> (r: Self)
        ensures
            r == Color::Default,
    {
        Color::Default
    }
}

impl Color {
    /// Whether this is the default colour.
    pub fn is_default(&self) -> (b: bool)
        ensures
            b == (self is Default),
    {
        match self {
            Color::Default => true,
            _ => false,
        }
    }
}

} // verus!
