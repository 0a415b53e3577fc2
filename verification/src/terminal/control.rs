//! C0 and C1 control characters.
use vstd::prelude::*;

verus! {

pub const SP: char = ' ';

pub const NUL: char = '\x00';

pub const BEL: char = '\x07';

pub const BS: char = '\x08';

pub const HT: char = '\x09';

pub const LF: char = '\n';

pub const VT: char = '\x0b';

pub const FF: char = '\x0c';

pub const CR: char = '\r';

pub const SO: char = '\x0e';

pub const SI: char = '\x0f';

pub const CAN: char = '\x18';

pub const SUB: char = '\x1a';

pub const ESC: char = '\x1b';

pub const DEL: char = '\x7f';

pub const CSI_C0: &'static str = "\x1b[";

pub const CSI_C1: u8 = 0x9b;

pub const CSI: &'static str = CSI_C0;

pub const ST_C0: &'static str = "\x1b\\";

pub const ST_C1: u8 = 0x9c;

pub const ST: &'static str = ST_C0;

pub const OSC_C0: &'static str = "\x1b]";

pub const OSC_C1: u8 = 0x9d;

pub const OSC: &'static str = OSC_C0;

/// The C0 controls, in order.
pub const C0: [char; 32] = [
    '\x00', '\x01', '\x02', '\x03', '\x04', '\x05', '\x06', '\x07',
    '\x08', '\x09', '\x0a', '\x0b', '\x0c', '\x0d', '\x0e', '\x0f',
    '\x10', '\x11', '\x12', '\x13', '\x14', '\x15', '\x16', '\x17',
    '\x18', '\x19', '\x1a', '\x1b', '\x1c', '\x1d', '\x1e', '\x1f',
];

/// The C1 controls as bytes, in order.
pub const C1: [u8; 32] = [
    0x80, 0x81, 0x82, 0x83, 0x84, 0x85, 0x86, 0x87,
    0x88, 0x89, 0x8a, 0x8b, 0x8c, 0x8d, 0x8e, 0x8f,
    0x90, 0x91, 0x92, 0x93, 0x94, 0x95, 0x96, 0x97,
    0x98, 0x99, 0x9a, 0x9b, 0x9c, 0x9d, 0x9e, 0x9f,
];

/// Whether `c` is a C0 control.
pub fn is_c0(c: char) -> (b: bool)
    ensures
        b == ((c as u32) < 0x20),
{
    (c as u32) < 0x20
}

/// Whether `c` is a C1 control.
pub fn is_c1(c: char) -> (b: bool)
    ensures
        b == (0x80 <= (c as u32) <= 0x9f),
{
    let code: u32 = c as u32;
    code >= 0x80 && code <= 0x9f
}

/// Whether `c` is a C0 or a C1 control.
pub fn is_control(c: char) -> (b: bool)
    ensures
        b == ((c as u32) < 0x20 || 0x80 <= (c as u32) <= 0x9f),
{
    is_c0(c) || is_c1(c)
}

} // verus!
