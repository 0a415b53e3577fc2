//! Character sets: the ASCII set and the DEC Special Character and Line Drawing set.
use vstd::prelude::*;

verus! {

/// A character set that can be designated.
#[derive(Debug, Clone, Copy, PartialEq, Eq, Hash, Structural)]
pub enum CharsetRef {
    Ascii,
    DecSpecial,
}

pub const ASCII: CharsetRef = CharsetRef::Ascii;

/// The code that designates the line drawing set.
pub const DEC_SPECIAL: &'static str = "0";

/// The code that designates the ASCII set.
pub const ASCII_CODE: &'static str = "B";

/// The codes of all known character sets.
pub const KNOWN_CHARSETS: [&'static str; 30] = [
    "0", "A", "B", "4", "5", "6", "7", "8", "9", "<", "=", ">", "?", "C", "D", "E", "F", "G", "H",
    "I", "J", "K", "L", "M", "N", "O", "P", "Q", "R", "S",
];

/// What the line drawing set shows for each byte that it redefines.
pub const DEC_SPECIAL_MAP: [(u8, char); 32] = [
    (0x60, '\u{25c6}'), (0x61, '\u{2592}'), (0x62, '\u{2409}'), (0x63, '\u{240c}'),
    (0x64, '\u{240d}'), (0x65, '\u{240a}'), (0x66, '\u{00b0}'), (0x67, '\u{00b1}'),
    (0x68, '\u{2424}'), (0x69, '\u{240b}'), (0x6a, '\u{2518}'), (0x6b, '\u{2510}'),
    (0x6c, '\u{250c}'), (0x6d, '\u{2514}'), (0x6e, '\u{253c}'), (0x6f, '\u{23ba}'),
    (0x70, '\u{23bb}'), (0x71, '\u{2500}'), (0x72, '\u{23bc}'), (0x73, '\u{23bd}'),
    (0x74, '\u{251c}'), (0x75, '\u{2524}'), (0x76, '\u{2534}'), (0x77, '\u{252c}'),
    (0x78, '\u{2502}'), (0x79, '\u{2264}'), (0x7a, '\u{2265}'), (0x7b, '\u{03c0}'),
    (0x7c, '\u{2260}'), (0x7d, '\u{00a3}'), (0x7e, '\u{00b7}'), (0x5f, ' '),
];

/// Whether the one-character code `c` names a known character set other than line drawing:
/// `4` to `9`, `<` to `?` or `A` to `S`.
pub open spec fn is_plain_code(c: char) -> bool {
    '4' <= c <= '9' || '<' <= c <= '?' || 'A' <= c <= 'S'
}

/// What the line drawing set shows for `byte`: the entry for it, or the byte itself.
pub open spec fn line_drawing(byte: u8) -> char {
    if 0x60 <= byte <= 0x7e {
        DEC_SPECIAL_MAP[byte - 0x60].1
    } else if byte == 0x5f {
        DEC_SPECIAL_MAP[31].1
    } else {
        byte as char
    }
}

/// The bytes that the character set `code` redefines, or `None` where the code is unknown.
pub fn get_charset_map(code: &str) -> (map: Option<Vec<(u8, char)>>)
    ensures
        map is Some <==> code@.len() == 1 && (code@[0] == '0' || is_plain_code(code@[0])),
        map matches Some(m) ==> m@ == (if code@[0] == '0' {
            DEC_SPECIAL_MAP@
        } else {
            Seq::<(u8, char)>::empty()
        }),
{
    if code.unicode_len() != 1 {
        return None;
    }
    let c: char = code.get_char(0);
    if c == '0' {
        let table: [(u8, char); 32] = DEC_SPECIAL_MAP;
        let mut map: Vec<(u8, char)> = Vec::new();
        let mut i: usize = 0;
        while i < 32
            invariant
                i <= 32,
                table == DEC_SPECIAL_MAP,
                map@ == table@.take(i as int),
            decreases 32 - i,
        {
            map.push(table[i]);
            i = i + 1;
        }
        assert(map@ =~= DEC_SPECIAL_MAP@);
        Some(map)
    } else if ('4' <= c && c <= '9') || ('<' <= c && c <= '?') || ('A' <= c && c <= 'S') {
        Some(Vec::new())
    } else {
        None
    }
}

impl Default for CharsetRef {
    fn default() -> (r: Self)
        ensures
            r == CharsetRef::Ascii,
    {
        CharsetRef::Ascii
    }
}

impl CharsetRef {
    /// What this set shows for `byte`.
    pub open spec fn shows(self, byte: u8) -> char {
        match self {
            CharsetRef::Ascii => byte as char,
            CharsetRef::DecSpecial => line_drawing(byte),
        }
    }

    /// The set that the character `code` designates.
    pub open spec fn designated(code: char) -> Option<CharsetRef> {
        if code == 'B' || code == '(' {
            Some(CharsetRef::Ascii)
        } else if code == '0' {
            Some(CharsetRef::DecSpecial)
        } else {
            None
        }
    }

    /// What this set shows for `byte`.
    pub fn map(self, byte: u8) -> (c: char)
        ensures
            c == self.shows(byte),
    {
        match self {
            CharsetRef::Ascii => byte as char,
            CharsetRef::DecSpecial => {
                let table: [(u8, char); 32] = DEC_SPECIAL_MAP;
                let mut i: usize = 0;
                while i < 32
                    invariant
                        i <= 32,
                        self == CharsetRef::DecSpecial,
                        table == DEC_SPECIAL_MAP,
                        forall|j: int| 0 <= j < i ==> (#[trigger] DEC_SPECIAL_MAP[j]).0 != byte,
                    decreases 32 - i,
                {
                    if table[i].0 == byte {
                        proof {
                            line_drawing_bytes(i as int);
                        }
                        return table[i].1;
                    }
                    i = i + 1;
                }
                proof {
                    if byte == 0x5f {
                        line_drawing_bytes(31);
                    } else if 0x60 <= byte <= 0x7e {
                        line_drawing_bytes(byte - 0x60);
                    }
                }
                byte as char
            },
        }
    }

    /// The set that the character `code` designates, if there is one.
    pub fn from_designation(code: char) -> (r: Option<Self>)
        ensures
            r == CharsetRef::designated(code),
    {
        if code == 'B' || code == '(' {
            Some(CharsetRef::Ascii)
        } else if code == '0' {
            Some(CharsetRef::DecSpecial)
        } else {
            None
        }
    }
}

/// The line drawing table holds the bytes 0x60 to 0x7e in order, then 0x5f: none stands twice.
pub proof fn line_drawing_bytes(i: int)
    requires
        0 <= i < 32,
    ensures
        DEC_SPECIAL_MAP[i].0 == (if i == 31 {
            0x5f
        } else {
            0x60 + i
        }),
{
}

/// The codes of the sets that show ASCII as it is: the digits from 4 on, four of the characters
/// between the digits and the letters, and nineteen capital letters.
pub proof fn plain_codes(c: char)
    ensures
        ({
            let n = c as u32;
            is_plain_code(c) <==> 0x34 <= n <= 0x39 || 0x3c <= n <= 0x3f || 0x41 <= n <= 0x53
        }),
        is_plain_code(c) ==> c != '0',
{
}

} // verus!
