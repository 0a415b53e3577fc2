//! The working directory that a shell reports, as a `file:` URI or as a bare path.
//!
//! What a shell prints is not to be trusted: every input has a result, and nothing but clean
//! UTF-8 without a NUL is taken for a path.
use crate::utf8;
use vstd::prelude::*;
use vstd::utf8::*;

verus! {

/// The value of a hexadecimal digit.
pub open spec fn hex_value(b: u8) -> Option<u8> {
    if 0x30 <= b <= 0x39 {
        Some((b - 0x30) as u8)
    } else if 0x61 <= b <= 0x66 {
        Some((b - 0x57) as u8)
    } else if 0x41 <= b <= 0x46 {
        Some((b - 0x37) as u8)
    } else {
        None
    }
}

/// `bytes` with each `%XX` replaced by the byte that it stands for; `None` where a `%` is not
/// followed by two hexadecimal digits.
pub open spec fn percent_decoded(bytes: Seq<u8>) -> Option<Seq<u8>>
    decreases bytes.len(),
{
    if bytes.len() == 0 {
        Some(seq![])
    } else if bytes[0] == 0x25 {
        if bytes.len() < 3 {
            None
        } else {
            match (hex_value(bytes[1]), hex_value(bytes[2]), percent_decoded(bytes.skip(3))) {
                (Some(h), Some(l), Some(rest)) => Some(seq![(h * 16 + l) as u8] + rest),
                _ => None,
            }
        }
    } else {
        match percent_decoded(bytes.skip(1)) {
            Some(rest) => Some(seq![bytes[0]] + rest),
            None => None,
        }
    }
}

/// Lower case of an ASCII byte.
pub open spec fn ascii_lower(b: u8) -> u8 {
    if 0x41 <= b <= 0x5a {
        (b + 0x20) as u8
    } else {
        b
    }
}

/// The bytes of `file://`.
pub const SCHEME: [u8; 7] = [0x66, 0x69, 0x6c, 0x65, 0x3a, 0x2f, 0x2f];

/// Whether `payload` begins with `file://`, in any case.
pub open spec fn has_scheme(payload: Seq<u8>) -> bool {
    &&& payload.len() >= 7
    &&& forall|i: int| 0 <= i < 7 ==> ascii_lower(#[trigger] payload[i]) == SCHEME[i]
}

/// `bytes` from the first slash on.
pub open spec fn from_first_slash(bytes: Seq<u8>) -> Option<Seq<u8>>
    decreases bytes.len(),
{
    if bytes.len() == 0 {
        None
    } else if bytes[0] == 0x2f {
        Some(bytes)
    } else {
        from_first_slash(bytes.skip(1))
    }
}

/// Whether a path begins with a slash, a drive letter and a colon.
pub open spec fn has_drive(path: Seq<u8>) -> bool {
    path.len() >= 3 && path[0] == 0x2f && 0x61 <= ascii_lower(path[1]) <= 0x7a && path[2] == 0x3a
}

/// The text of a path: clean UTF-8 without a NUL, and not empty.
pub open spec fn path_text(path: Seq<u8>) -> Option<Seq<char>> {
    if path.len() == 0 || path.contains(0) {
        None
    } else {
        utf8::strict(path)
    }
}

/// The path that the payload `file://host/path` names; the slash before a drive letter is
/// dropped.
pub open spec fn osc7_path(payload: Seq<u8>) -> Option<Seq<char>> {
    if !has_scheme(payload) {
        None
    } else {
        match from_first_slash(payload.skip(7)) {
            None => None,
            Some(encoded) => match percent_decoded(encoded) {
                None => None,
                Some(path) => match path_text(path) {
                    None => None,
                    Some(text) => if has_drive(path) {
                        Some(text.skip(1))
                    } else {
                        Some(text)
                    },
                },
            },
        }
    }
}

/// The view of an optional string.
pub open spec fn opt_text(s: Option<String>) -> Option<Seq<char>> {
    match s {
        Some(t) => Some(t@),
        None => None,
    }
}

fn hex_val(b: u8) -> (r: Option<u8>)
    ensures
        r == hex_value(b),
{
    if 0x30 <= b && b <= 0x39 {
        Some(b - 0x30)
    } else if 0x61 <= b && b <= 0x66 {
        Some(b - 0x57)
    } else if 0x41 <= b && b <= 0x46 {
        Some(b - 0x37)
    } else {
        None
    }
}

fn lower(b: u8) -> (r: u8)
    ensures
        r == ascii_lower(b),
{
    if 0x41 <= b && b <= 0x5a {
        b + 0x20
    } else {
        b
    }
}

/// Decodes the `%XX` sequences of `input[from..]`.
fn percent_decode(input: &[u8], from: usize) -> (r: Option<Vec<u8>>)
    requires
        from <= input@.len(),
    ensures
        match r {
            Some(out) => percent_decoded(input@.skip(from as int)) == Some(out@),
            None => percent_decoded(input@.skip(from as int)) is None,
        },
{
    let ghost all = percent_decoded(input@.skip(from as int));
    let mut out: Vec<u8> = Vec::new();
    let mut i: usize = from;
    proof {
        match all {
            Some(d) => {
                assert(d =~= out@ + d);
            },
            None => {},
        }
    }
    while i < input.len()
        invariant
            from <= i <= input@.len(),
            all == (match percent_decoded(input@.skip(i as int)) {
                Some(rest) => Some(out@ + rest),
                None => None,
            }),
            all == percent_decoded(input@.skip(from as int)),
        decreases input@.len() - i,
    {
        let ghost tail = input@.skip(i as int);
        let ghost before = out@;
        assert(tail[0] == input@[i as int]);
        if input[i] == 0x25 {
            if input.len() - i < 3 {
                return None;
            }
            assert(tail[1] == input@[i + 1] && tail[2] == input@[i + 2]);
            match (hex_val(input[i + 1]), hex_val(input[i + 2])) {
                (Some(h), Some(l)) => {
                    let b: u8 = h * 16 + l;
                    out.push(b);
                    assert(tail.skip(3) =~= input@.skip(i + 3));
                    proof {
                        match percent_decoded(tail.skip(3)) {
                            Some(rest) => {
                                assert(out@ + rest =~= before + (seq![b] + rest));
                            },
                            None => {},
                        }
                    }
                    i = i + 3;
                },
                _ => {
                    return None;
                },
            }
        } else {
            out.push(input[i]);
            assert(tail.skip(1) =~= input@.skip(i + 1));
            proof {
                match percent_decoded(tail.skip(1)) {
                    Some(rest) => {
                        assert(out@ + rest =~= before + (seq![tail[0]] + rest));
                    },
                    None => {},
                }
            }
            i = i + 1;
        }
    }
    assert(input@.skip(i as int) =~= seq![]);
    assert(out@ + Seq::<u8>::empty() =~= out@);
    Some(out)
}

fn contains_nul(bytes: &[u8]) -> (b: bool)
    ensures
        b == bytes@.contains(0),
{
    let mut i: usize = 0;
    while i < bytes.len()
        invariant
            i <= bytes@.len(),
            forall|j: int| 0 <= j < i ==> bytes@[j] != 0,
        decreases bytes@.len() - i,
    {
        if bytes[i] == 0 {
            assert(bytes@[i as int] == 0);
            return true;
        }
        i = i + 1;
    }
    false
}

fn starts_with_scheme(payload: &[u8]) -> (b: bool)
    ensures
        b == has_scheme(payload@),
{
    if payload.len() < 7 {
        return false;
    }
    let scheme: [u8; 7] = SCHEME;
    let mut i: usize = 0;
    while i < 7
        invariant
            i <= 7 <= payload@.len(),
            scheme == SCHEME,
            forall|j: int| 0 <= j < i ==> ascii_lower(#[trigger] payload@[j]) == SCHEME[j],
        decreases 7 - i,
    {
        if lower(payload[i]) != scheme[i] {
            assert(ascii_lower(payload@[i as int]) != SCHEME[i as int]);
            return false;
        }
        i = i + 1;
    }
    true
}

/// The position of the first slash at or after `from`, or the length.
fn first_slash(bytes: &[u8], from: usize) -> (at: usize)
    requires
        from <= bytes@.len(),
    ensures
        from <= at <= bytes@.len(),
        match from_first_slash(bytes@.skip(from as int)) {
            Some(tail) => at < bytes@.len() && tail == bytes@.skip(at as int),
            None => at == bytes@.len(),
        },
{
    let mut i: usize = from;
    while i < bytes.len()
        invariant
            from <= i <= bytes@.len(),
            from_first_slash(bytes@.skip(from as int)) == from_first_slash(bytes@.skip(i as int)),
        decreases bytes@.len() - i,
    {
        assert(bytes@.skip(i as int)[0] == bytes@[i as int]);
        if bytes[i] == 0x2f {
            return i;
        }
        assert(bytes@.skip(i as int).skip(1) =~= bytes@.skip(i + 1));
        i = i + 1;
    }
    i
}

/// Drops the leading ASCII character of well-formed text.
proof fn lemma_skip_ascii(path: Seq<u8>)
    requires
        valid_utf8(path),
        path.len() > 0,
        path[0] < 0x80,
    ensures
        valid_utf8(path.skip(1)),
        decode_utf8(path.skip(1)) == decode_utf8(path).skip(1),
{
    assert(pop_first_scalar(path) =~= path.skip(1));
    assert(decode_utf8(path).skip(1) =~= decode_utf8(path.skip(1)));
}

/// The path that an OSC 7 payload `file://host/path` names, or `None` where the payload is
/// malformed: another scheme, no path, a bad `%XX`, bytes that are not UTF-8, or a NUL.
pub fn parse_osc7(payload: &[u8]) -> (path: Option<String>)
    ensures
        opt_text(path) == osc7_path(payload@),
{
    if !starts_with_scheme(payload) {
        return None;
    }
    let slash: usize = first_slash(payload, 7);
    if slash == payload.len() {
        return None;
    }
    match percent_decode(payload, slash) {
        None => None,
        Some(decoded) => {
            if decoded.len() == 0 || contains_nul(decoded.as_slice()) {
                return None;
            }
            if decoded.len() >= 3 && decoded[0] == 0x2f && 0x61 <= lower(decoded[1]) && lower(
                decoded[1],
            ) <= 0x7a && decoded[2] == 0x3a {
                match utf8::decode_strict(decoded.as_slice()) {
                    None => None,
                    Some(_) => {
                        let mut local: Vec<u8> = decoded;
                        let _ = local.remove(0);
                        proof {
                            lemma_skip_ascii(decoded@);
                            assert(local@ =~= decoded@.skip(1));
                        }
                        utf8::decode_strict(local.as_slice())
                    },
                }
            } else {
                utf8::decode_strict(decoded.as_slice())
            }
        },
    }
}

/// The path of an OSC 9;9 payload, which is the path itself; `None` where it is empty, not
/// UTF-8, or holds a NUL.
pub fn parse_osc9_9(payload: &[u8]) -> (path: Option<String>)
    ensures
        opt_text(path) == path_text(payload@),
{
    if payload.len() == 0 || contains_nul(payload) {
        return None;
    }
    utf8::decode_strict(payload)
}

/// A path without `%` is not changed by decoding.
pub proof fn plain_paths_are_kept(bytes: Seq<u8>)
    requires
        !bytes.contains(0x25),
    ensures
        percent_decoded(bytes) == Some(bytes),
    decreases bytes.len(),
{
    if bytes.len() > 0 {
        assert(bytes[0] != 0x25);
        assert forall|i: int| 0 <= i < bytes.skip(1).len() implies bytes.skip(1)[i] != 0x25 by {
            assert(bytes.contains(bytes[i + 1]));
        }
        plain_paths_are_kept(bytes.skip(1));
        assert(seq![bytes[0]] + bytes.skip(1) =~= bytes);
    } else {
        assert(bytes =~= seq![]);
    }
}

} // verus!
