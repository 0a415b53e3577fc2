//! Decoding UTF-8 one character at a time, with the standard library's treatment of malformed
//! input: a malformed sequence is as long as its longest prefix that begins a well-formed one.
use vstd::prelude::*;
use vstd::utf8::*;

verus! {

/// `char::from_u32` of the standard library converts every Unicode scalar value, and nothing
/// else.
pub assume_specification[ char::from_u32 ](n: u32) -> (c: Option<char>)
    ensures
        c == (if n <= 0xd7ff || 0xe000 <= n <= 0x10ffff {
            Some(n as char)
        } else {
            None
        }),
;

/// The character that stands for malformed input.
pub const REPLACEMENT: char = '\u{FFFD}';

/// What stands at the front of a byte sequence.
#[derive(Clone, Copy, Debug, PartialEq, Eq)]
pub enum Decoded {
    /// A well-formed character of `len` bytes.
    Char { c: char, len: usize },
    /// `len` bytes that begin no well-formed character, whatever follows them.
    Invalid { len: usize },
    /// All bytes together are a proper prefix of a well-formed character.
    Incomplete,
}

/// The second bytes that may follow the leading byte `lead`.
pub open spec fn second_byte_fits(lead: u8, b: u8) -> bool {
    if lead == 0xe0 {
        0xa0 <= b <= 0xbf
    } else if lead == 0xed {
        0x80 <= b <= 0x9f
    } else if lead == 0xf0 {
        0x90 <= b <= 0xbf
    } else if lead == 0xf4 {
        0x80 <= b <= 0x8f
    } else {
        0x80 <= b <= 0xbf
    }
}

/// How many bytes the character that `lead` begins takes; 0 where it begins none.
pub open spec fn sequence_len(lead: u8) -> int {
    if lead < 0x80 {
        1
    } else if 0xc2 <= lead <= 0xdf {
        2
    } else if 0xe0 <= lead <= 0xef {
        3
    } else if 0xf0 <= lead <= 0xf4 {
        4
    } else {
        0
    }
}

/// How many bytes at the front of `bytes` fit a well-formed character.
pub open spec fn fitting_prefix(bytes: Seq<u8>) -> int {
    let n = sequence_len(bytes[0]);
    if bytes.len() == 0 || n == 0 {
        0
    } else if n == 1 || bytes.len() == 1 || !second_byte_fits(bytes[0], bytes[1]) {
        1
    } else if n == 2 || bytes.len() == 2 || !is_continuation_byte(bytes[2]) {
        2
    } else if n == 3 || bytes.len() == 3 || !is_continuation_byte(bytes[3]) {
        3
    } else {
        4
    }
}

/// What stands at the front of a non-empty byte sequence.
pub open spec fn front(bytes: Seq<u8>) -> Decoded {
    if valid_first_scalar(bytes) {
        Decoded::Char {
            c: decode_first_scalar(bytes) as char,
            len: length_of_first_scalar(bytes) as usize,
        }
    } else if fitting_prefix(bytes) == bytes.len() {
        Decoded::Incomplete
    } else if fitting_prefix(bytes) == 0 {
        Decoded::Invalid { len: 1 }
    } else {
        Decoded::Invalid { len: fitting_prefix(bytes) as usize }
    }
}

/// The text of `bytes`, with a replacement character for each malformed sequence.
pub open spec fn lossy(bytes: Seq<u8>) -> Seq<char>
    decreases bytes.len(),
{
    if bytes.len() == 0 {
        seq![]
    } else {
        match front(bytes) {
            Decoded::Char { c, len } => if 0 < len <= bytes.len() {
                seq![c] + lossy(bytes.skip(len as int))
            } else {
                seq![]
            },
            Decoded::Invalid { len } => if 0 < len <= bytes.len() {
                seq![REPLACEMENT] + lossy(bytes.skip(len as int))
            } else {
                seq![]
            },
            Decoded::Incomplete => seq![REPLACEMENT],
        }
    }
}

/// How many bytes at the front of `bytes` are whole well-formed characters.
pub open spec fn valid_up_to(bytes: Seq<u8>) -> int
    decreases bytes.len(),
{
    if bytes.len() == 0 {
        0
    } else {
        match front(bytes) {
            Decoded::Char { c, len } => if 0 < len <= bytes.len() {
                len + valid_up_to(bytes.skip(len as int))
            } else {
                0
            },
            _ => 0,
        }
    }
}

/// The text of `bytes`, where all of them are well-formed.
pub open spec fn strict(bytes: Seq<u8>) -> Option<Seq<char>> {
    if valid_utf8(bytes) {
        Some(decode_utf8(bytes))
    } else {
        None
    }
}

proof fn two_byte_scalars()
    ensures
        forall|a: u8, b: u8|
            #![trigger codepoint_width_2(a, b)]
            0xc0 <= a <= 0xdf && 0x80 <= b <= 0xbf ==> {
                let v = codepoint_width_2(a, b);
                &&& (0x80 <= v <==> a >= 0xc2)
                &&& v <= 0x7ff
            },
{
    assert forall|a: u8, b: u8|
        #![trigger codepoint_width_2(a, b)]
        0xc0 <= a <= 0xdf && 0x80 <= b <= 0xbf implies {
        let v = codepoint_width_2(a, b);
        &&& (0x80 <= v <==> a >= 0xc2)
        &&& v <= 0x7ff
    } by {
        let v = codepoint_width_2(a, b);
        assert(v == ((a & 0x1f) as u32) << 6 | ((b & 0x3f) as u32));
        assert((0x80 <= v <==> a >= 0xc2) && v <= 0x7ff) by (bit_vector)
            requires
                0xc0 <= a <= 0xdf,
                0x80 <= b <= 0xbf,
                v == ((a & 0x1f) as u32) << 6 | ((b & 0x3f) as u32),
        ;
    }
}

proof fn three_byte_scalars()
    ensures
        forall|a: u8, b: u8, c: u8|
            #![trigger codepoint_width_3(a, b, c)]
            0xe0 <= a <= 0xef && 0x80 <= b <= 0xbf && 0x80 <= c <= 0xbf ==> {
                let v = codepoint_width_3(a, b, c);
                &&& (0x800 <= v && !(0xd800 <= v <= 0xdfff) <==> second_byte_fits(a, b))
                &&& v <= 0xffff
            },
{
    assert forall|a: u8, b: u8, c: u8|
        #![trigger codepoint_width_3(a, b, c)]
        0xe0 <= a <= 0xef && 0x80 <= b <= 0xbf && 0x80 <= c <= 0xbf implies {
        let v = codepoint_width_3(a, b, c);
        &&& (0x800 <= v && !(0xd800 <= v <= 0xdfff) <==> second_byte_fits(a, b))
        &&& v <= 0xffff
    } by {
        let v = codepoint_width_3(a, b, c);
        assert(v == ((a & 0xf) as u32) << 12 | ((b & 0x3f) as u32) << 6 | ((c & 0x3f) as u32));
        assert((0x800 <= v && !(0xd800 <= v <= 0xdfff) <==> (a == 0xe0 ==> b >= 0xa0) && (a == 0xed
            ==> b <= 0x9f)) && v <= 0xffff) by (bit_vector)
            requires
                0xe0 <= a <= 0xef,
                0x80 <= b <= 0xbf,
                0x80 <= c <= 0xbf,
                v == ((a & 0xf) as u32) << 12 | ((b & 0x3f) as u32) << 6 | ((c & 0x3f) as u32),
        ;
    }
}

proof fn four_byte_scalars()
    ensures
        forall|a: u8, b: u8, c: u8, d: u8|
            #![trigger codepoint_width_4(a, b, c, d)]
            0xf0 <= a <= 0xf7 && 0x80 <= b <= 0xbf && 0x80 <= c <= 0xbf && 0x80 <= d <= 0xbf ==> {
                let v = codepoint_width_4(a, b, c, d);
                0x10000 <= v <= 0x10ffff <==> a <= 0xf4 && second_byte_fits(a, b)
            },
{
    assert forall|a: u8, b: u8, c: u8, d: u8|
        #![trigger codepoint_width_4(a, b, c, d)]
        0xf0 <= a <= 0xf7 && 0x80 <= b <= 0xbf && 0x80 <= c <= 0xbf && 0x80 <= d <= 0xbf implies {
        let v = codepoint_width_4(a, b, c, d);
        0x10000 <= v <= 0x10ffff <==> a <= 0xf4 && second_byte_fits(a, b)
    } by {
        let v = codepoint_width_4(a, b, c, d);
        assert(v == ((a & 0x7) as u32) << 18 | ((b & 0x3f) as u32) << 12 | ((c & 0x3f) as u32) << 6
            | ((d & 0x3f) as u32));
        assert(0x10000 <= v <= 0x10ffff <==> a <= 0xf4 && (a == 0xf0 ==> b >= 0x90) && (a == 0xf4
            ==> b <= 0x8f)) by (bit_vector)
            requires
                0xf0 <= a <= 0xf7,
                0x80 <= b <= 0xbf,
                0x80 <= c <= 0xbf,
                0x80 <= d <= 0xbf,
                v == ((a & 0x7) as u32) << 18 | ((b & 0x3f) as u32) << 12 | ((c & 0x3f) as u32) << 6
                    | ((d & 0x3f) as u32),
        ;
    }
}

/// A byte sequence begins with a well-formed character exactly where its front fits one whole
/// sequence, which is then as long as the leading byte says and holds a scalar value.
pub proof fn well_formed_front(bytes: Seq<u8>)
    requires
        bytes.len() > 0,
    ensures
        valid_first_scalar(bytes) <==> fitting_prefix(bytes) == sequence_len(bytes[0])
            && sequence_len(bytes[0]) > 0,
        valid_first_scalar(bytes) ==> {
            let v = decode_first_scalar(bytes);
            &&& length_of_first_scalar(bytes) == sequence_len(bytes[0])
            &&& (v <= 0xd7ff || 0xe000 <= v <= 0x10ffff)
        },
{
    two_byte_scalars();
    three_byte_scalars();
    four_byte_scalars();
    let a = bytes[0];
    if a < 0x80 {
        assert((a & 0x7f) as u32 <= 0x7f) by (bit_vector);
    }
}

/// The bounds of a decoded front: a character and a malformed sequence take at least one byte
/// and no more than there are, and an incomplete character is at most three bytes long.
pub proof fn front_bounds(bytes: Seq<u8>)
    requires
        bytes.len() > 0,
    ensures
        front(bytes) matches Decoded::Char { c, len } ==> 1 <= len <= 4 && len <= bytes.len(),
        front(bytes) matches Decoded::Invalid { len } ==> 1 <= len <= 3 && len <= bytes.len(),
        front(bytes) is Incomplete ==> bytes.len() <= 3 && bytes[0] >= 0xc2,
{
    well_formed_front(bytes);
}

/// The front of a sequence does not change when bytes are appended, unless it was incomplete.
pub proof fn front_is_stable(bytes: Seq<u8>, more: Seq<u8>)
    requires
        bytes.len() > 0,
        !(front(bytes) is Incomplete),
    ensures
        front(bytes + more) == front(bytes),
{
    well_formed_front(bytes);
    well_formed_front(bytes + more);
    let both = bytes + more;
    assert(both[0] == bytes[0]);
    if bytes.len() > 1 {
        assert(both[1] == bytes[1]);
    }
    if bytes.len() > 2 {
        assert(both[2] == bytes[2]);
    }
    if bytes.len() > 3 {
        assert(both[3] == bytes[3]);
    }
}

/// An incomplete character lies wholly inside whatever stands at the front once bytes follow:
/// it is shorter than the character it becomes, and no longer than the malformed sequence.
pub proof fn front_extends(bytes: Seq<u8>, more: Seq<u8>)
    requires
        bytes.len() > 0,
        front(bytes) is Incomplete,
    ensures
        front(bytes + more) matches Decoded::Char { c, len } ==> bytes.len() < len,
        front(bytes + more) matches Decoded::Invalid { len } ==> bytes.len() <= len,
{
    well_formed_front(bytes);
    well_formed_front(bytes + more);
    let both = bytes + more;
    assert(both[0] == bytes[0]);
    if bytes.len() > 1 {
        assert(both[1] == bytes[1]);
    }
    if bytes.len() > 2 {
        assert(both[2] == bytes[2]);
    }
}

/// What is well-formed at the front of a sequence is no more than the sequence, and no less than
/// its first character.
pub proof fn valid_up_to_bounds(bytes: Seq<u8>)
    ensures
        0 <= valid_up_to(bytes) <= bytes.len(),
        bytes.len() > 0 ==> (front(bytes) matches Decoded::Char { c, len } ==> len <= valid_up_to(
            bytes,
        )),
    decreases bytes.len(),
{
    if bytes.len() > 0 {
        front_bounds(bytes);
        if let Decoded::Char { c, len } = front(bytes) {
            valid_up_to_bounds(bytes.skip(len as int));
        }
    }
}

/// What stands at the front of `bytes[at..]`.
pub fn decode(bytes: &[u8], at: usize) -> (d: Decoded)
    requires
        at < bytes@.len(),
    ensures
        d == front(bytes@.skip(at as int)),
{
    let ghost tail = bytes@.skip(at as int);
    proof {
        well_formed_front(tail);
    }
    let left: usize = bytes.len() - at;
    let a: u8 = bytes[at];
    if a < 0x80 {
        assert((a & 0x7f) == a) by (bit_vector)
            requires
                a < 0x80,
        ;
        return Decoded::Char { c: a as char, len: 1 };
    }
    let n: usize = if 0xc2 <= a && a <= 0xdf {
        2
    } else if 0xe0 <= a && a <= 0xef {
        3
    } else if 0xf0 <= a && a <= 0xf4 {
        4
    } else {
        0
    };
    if n == 0 {
        return Decoded::Invalid { len: 1 };
    }
    if left == 1 {
        return Decoded::Incomplete;
    }
    let b: u8 = bytes[at + 1];
    assert(b == tail[1]);
    if !fits_second(a, b) {
        return Decoded::Invalid { len: 1 };
    }
    if n == 2 {
        let v: u32 = ((a & 0x1f) as u32) << 6 | ((b & 0x3f) as u32);
        assert(v == decode_first_scalar(tail));
        return scalar(v, 2);
    }
    if left == 2 {
        return Decoded::Incomplete;
    }
    let c: u8 = bytes[at + 2];
    assert(c == tail[2]);
    if !(0x80 <= c && c <= 0xbf) {
        return Decoded::Invalid { len: 2 };
    }
    if n == 3 {
        let v: u32 = ((a & 0xf) as u32) << 12 | ((b & 0x3f) as u32) << 6 | ((c & 0x3f) as u32);
        assert(v == decode_first_scalar(tail));
        return scalar(v, 3);
    }
    if left == 3 {
        return Decoded::Incomplete;
    }
    let d: u8 = bytes[at + 3];
    assert(d == tail[3]);
    if !(0x80 <= d && d <= 0xbf) {
        return Decoded::Invalid { len: 3 };
    }
    let v: u32 = ((a & 0x7) as u32) << 18 | ((b & 0x3f) as u32) << 12 | ((c & 0x3f) as u32) << 6 | ((
    d & 0x3f) as u32);
    assert(v == decode_first_scalar(tail));
    scalar(v, 4)
}

fn fits_second(lead: u8, b: u8) -> (fits: bool)
    ensures
        fits == second_byte_fits(lead, b),
{
    if lead == 0xe0 {
        0xa0 <= b && b <= 0xbf
    } else if lead == 0xed {
        0x80 <= b && b <= 0x9f
    } else if lead == 0xf0 {
        0x90 <= b && b <= 0xbf
    } else if lead == 0xf4 {
        0x80 <= b && b <= 0x8f
    } else {
        0x80 <= b && b <= 0xbf
    }
}

fn scalar(v: u32, len: usize) -> (d: Decoded)
    requires
        v <= 0xd7ff || 0xe000 <= v <= 0x10ffff,
    ensures
        d == (Decoded::Char { c: v as char, len }),
{
    match char::from_u32(v) {
        Some(c) => Decoded::Char { c, len },
        None => Decoded::Incomplete,
    }
}

/// How many bytes at the front of `bytes` are whole well-formed characters.
pub fn well_formed_len(bytes: &[u8]) -> (n: usize)
    ensures
        n == valid_up_to(bytes@),
{
    let mut n: usize = 0;
    assert(bytes@.skip(0) =~= bytes@);
    while n < bytes.len()
        invariant
            n <= bytes@.len(),
            n + valid_up_to(bytes@.skip(n as int)) == valid_up_to(bytes@),
        decreases bytes@.len() - n,
    {
        let ghost rest = bytes@.skip(n as int);
        proof {
            front_bounds(rest);
        }
        match decode(bytes, n) {
            Decoded::Char { c, len } => {
                assert(rest.skip(len as int) =~= bytes@.skip(n + len));
                n = n + len;
            },
            _ => {
                return n;
            },
        }
    }
    assert(bytes@.skip(n as int) =~= seq![]);
    n
}

/// The text of `bytes`, with a replacement character for each malformed sequence.
pub fn decode_lossy(bytes: &[u8]) -> (text: String)
    ensures
        text@ == lossy(bytes@),
{
    let mut text = String::new();
    let mut i: usize = 0;
    assert(bytes@.skip(0) =~= bytes@);
    assert(text@ + lossy(bytes@) =~= lossy(bytes@));
    while i < bytes.len()
        invariant
            i <= bytes@.len(),
            lossy(bytes@) == text@ + lossy(bytes@.skip(i as int)),
        decreases bytes@.len() - i,
    {
        let ghost tail = bytes@.skip(i as int);
        let ghost before = text@;
        proof {
            front_bounds(tail);
        }
        match decode(bytes, i) {
            Decoded::Char { c, len } => {
                text.push(c);
                assert(tail.skip(len as int) =~= bytes@.skip(i + len));
                assert(text@ + lossy(bytes@.skip(i + len)) =~= before + (seq![c] + lossy(
                    tail.skip(len as int),
                )));
                i = i + len;
            },
            Decoded::Invalid { len } => {
                text.push(REPLACEMENT);
                assert(tail.skip(len as int) =~= bytes@.skip(i + len));
                assert(text@ + lossy(bytes@.skip(i + len)) =~= before + (seq![REPLACEMENT] + lossy(
                    tail.skip(len as int),
                )));
                i = i + len;
            },
            Decoded::Incomplete => {
                text.push(REPLACEMENT);
                i = bytes.len();
                assert(bytes@.skip(i as int) =~= seq![]);
                assert(text@ + lossy(bytes@.skip(i as int)) =~= before + seq![REPLACEMENT]);
            },
        }
    }
    assert(bytes@.skip(i as int) =~= seq![]);
    assert(text@ =~= lossy(bytes@));
    text
}

/// The text of `bytes`, or `None` where they are not well-formed UTF-8.
pub fn decode_strict(bytes: &[u8]) -> (text: Option<String>)
    ensures
        match text {
            Some(s) => strict(bytes@) == Some(s@),
            None => strict(bytes@) is None,
        },
{
    let mut text = String::new();
    let mut i: usize = 0;
    assert(bytes@.skip(0) =~= bytes@);
    while i < bytes.len()
        invariant
            i <= bytes@.len(),
            valid_utf8(bytes@) <==> valid_utf8(bytes@.skip(i as int)),
            valid_utf8(bytes@) ==> decode_utf8(bytes@) =~= text@ + decode_utf8(
                bytes@.skip(i as int),
            ),
        decreases bytes@.len() - i,
    {
        let ghost tail = bytes@.skip(i as int);
        let ghost before = text@;
        proof {
            front_bounds(tail);
        }
        match decode(bytes, i) {
            Decoded::Char { c, len } => {
                text.push(c);
                assert(pop_first_scalar(tail) =~= bytes@.skip(i + len));
                assert(text@ + decode_utf8(bytes@.skip(i + len)) =~= before + (seq![c]
                    + decode_utf8(bytes@.skip(i + len))));
                i = i + len;
            },
            _ => {
                return None;
            },
        }
    }
    assert(bytes@.skip(i as int) =~= seq![]);
    assert(valid_utf8(bytes@) ==> decode_utf8(bytes@) =~= text@);
    Some(text)
}

/// Well-formed text decodes to itself: neither decoder changes it.
pub proof fn well_formed_text_is_kept(text: Seq<char>)
    ensures
        strict(encode_utf8(text)) == Some(text),
        lossy(encode_utf8(text)) == text,
    decreases text.len(),
{
    encode_utf8_valid_utf8(text);
    encode_utf8_decode_utf8(text);
    if text.len() > 0 {
        let bytes = encode_utf8(text);
        encode_utf8_first_scalar(text);
        char_u32_cast(text[0], decode_first_scalar(bytes));
        well_formed_front(bytes);
        front_bounds(bytes);
        assert(pop_first_scalar(bytes) =~= encode_utf8(text.drop_first()));
        assert(bytes.skip(length_of_first_scalar(bytes)) =~= pop_first_scalar(bytes));
        well_formed_text_is_kept(text.drop_first());
        assert(seq![text[0]] + text.drop_first() =~= text);
    } else {
        assert(encode_utf8(text) =~= seq![]);
        assert(lossy(encode_utf8(text)) =~= text);
    }
}

/// Bytes that begin a character can be completed to one.
pub proof fn an_incomplete_character_can_be_completed(bytes: Seq<u8>)
    requires
        bytes.len() > 0,
        front(bytes) is Incomplete,
    ensures
        exists|more: Seq<u8>| #[trigger] front(bytes + more) is Char,
{
    well_formed_front(bytes);
    let second: u8 = if bytes[0] == 0xe0 {
        0xa0
    } else if bytes[0] == 0xf0 {
        0x90
    } else {
        0x80
    };
    let n = sequence_len(bytes[0]);
    let more: Seq<u8> = if bytes.len() == 1 {
        seq![second, 0x80, 0x80]
    } else {
        seq![0x80, 0x80]
    };
    let whole = bytes + more;
    assert(whole[0] == bytes[0]);
    if bytes.len() > 1 {
        assert(whole[1] == bytes[1]);
    }
    if bytes.len() > 2 {
        assert(whole[2] == bytes[2]);
    }
    assert(fitting_prefix(whole) == n);
    well_formed_front(whole);
    assert(front(bytes + more) is Char);
}

/// A malformed sequence is as long as what still begins a character, and at least one byte: one
/// byte less of it could be completed, one byte more could not.
pub proof fn a_malformed_sequence_is_cut_off(bytes: Seq<u8>)
    requires
        bytes.len() > 0,
    ensures
        front(bytes) matches Decoded::Invalid { len } ==> {
            &&& len == 1 || front(bytes.take(len as int)) is Incomplete
            &&& len < bytes.len() || len == 1
            &&& len < bytes.len() ==> !(front(bytes.take(len + 1)) is Incomplete)
                && !(front(bytes.take(len + 1)) is Char)
        },
{
    well_formed_front(bytes);
    if let Decoded::Invalid { len } = front(bytes) {
        let head = bytes.take(len as int);
        well_formed_front(head);
        if len < bytes.len() {
            let next = bytes.take(len + 1);
            well_formed_front(next);
        }
    }
}

/// Each malformed sequence becomes one replacement character, U+FFFD, and each character stays.
pub proof fn malformed_sequences_are_replaced(bytes: Seq<u8>)
    requires
        bytes.len() > 0,
    ensures
        match front(bytes) {
            Decoded::Char { c, len } => lossy(bytes) == seq![c] + lossy(bytes.skip(len as int)),
            Decoded::Invalid { len } => lossy(bytes) == seq![0xfffdu32 as char] + lossy(
                bytes.skip(len as int),
            ),
            Decoded::Incomplete => lossy(bytes) == seq![0xfffdu32 as char],
        },
        strict(bytes) is Some <==> valid_up_to(bytes) == bytes.len(),
{
    front_bounds(bytes);
    all_well_formed(bytes);
}

proof fn all_well_formed(bytes: Seq<u8>)
    ensures
        valid_utf8(bytes) <==> valid_up_to(bytes) == bytes.len(),
    decreases bytes.len(),
{
    if bytes.len() > 0 {
        front_bounds(bytes);
        well_formed_front(bytes);
        if let Decoded::Char { c, len } = front(bytes) {
            assert(bytes.skip(len as int) =~= pop_first_scalar(bytes));
            all_well_formed(bytes.skip(len as int));
        }
    }
}

} // verus!
