//! Final characters of escape and control sequences.
use vstd::prelude::*;

verus! {

pub const RIS: char = 'c';

pub const IND: char = 'D';

pub const NEL: char = 'E';

pub const HTS: char = 'H';

pub const RI: char = 'M';

pub const DECSC: char = '7';

pub const DECRC: char = '8';

pub const DECALN: char = '8';

pub const ICH: char = '@';

pub const CUU: char = 'A';

pub const CUD: char = 'B';

pub const CUF: char = 'C';

pub const CUB: char = 'D';

pub const CNL: char = 'E';

pub const CPL: char = 'F';

pub const CHA: char = 'G';

pub const CUP: char = 'H';

pub const ED: char = 'J';

pub const EL: char = 'K';

pub const IL: char = 'L';

pub const DL: char = 'M';

pub const DCH: char = 'P';

pub const ECH: char = 'X';

pub const DA: char = 'c';

pub const DSR: char = 'n';

pub const DECSTBM: char = 'r';

pub const SGR: char = 'm';

pub const TBC: char = 'g';

pub const SM: char = 'h';

pub const RM: char = 'l';

/// Whether `c` ends a control sequence.
pub fn is_csi_final(c: char) -> (b: bool)
    ensures
        b == (0x40 <= (c as u32) <= 0x7e),
{
    let code: u32 = c as u32;
    0x40 <= code && code <= 0x7e
}

/// Whether `c` is a digit of a control sequence's parameter.
pub fn is_csi_param(c: char) -> (b: bool)
    ensures
        b == (0x30 <= (c as u32) <= 0x39),
{
    let code: u32 = c as u32;
    0x30 <= code && code <= 0x39
}

/// Whether `c` is an intermediate of a control sequence.
pub fn is_csi_intermediate(c: char) -> (b: bool)
    ensures
        b == (0x20 <= (c as u32) <= 0x2f),
{
    let code: u32 = c as u32;
    0x20 <= code && code <= 0x2f
}

} // verus!
