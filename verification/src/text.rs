//! Building text: decimal and hexadecimal numbers, and characters appended to a `String`.
use vstd::prelude::*;

verus! {

/// `String::push` of the standard library appends one character to the string.
pub assume_specification[ String::push ](s: &mut String, c: char)
    ensures
        final(s)@ == old(s)@.push(c),
;

/// The decimal digit `d`, for `d < 10`.
pub open spec fn digit(d: int) -> char {
    (0x30 + d) as char
}

/// `n` in decimal, without leading zeros.
pub open spec fn decimal(n: nat) -> Seq<char>
    decreases n,
{
    if n < 10 {
        seq![digit(n as int)]
    } else {
        decimal(n / 10).push(digit((n % 10) as int))
    }
}

/// `n` in decimal, with a minus sign where it is negative.
pub open spec fn signed_decimal(n: int) -> Seq<char> {
    if n < 0 {
        seq!['-'] + decimal((-n) as nat)
    } else {
        decimal(n as nat)
    }
}

/// The lower-case hexadecimal digit `d`, for `d < 16`.
pub open spec fn hex_digit(d: int) -> char {
    if d < 10 {
        (0x30 + d) as char
    } else {
        (0x57 + d) as char
    }
}

/// A byte as two lower-case hexadecimal digits.
pub open spec fn hex_byte(b: u8) -> Seq<char> {
    seq![hex_digit(b as int / 16), hex_digit(b as int % 16)]
}

/// A colour as six hexadecimal digits, `rrggbb`.
pub open spec fn hex_rgb(r: u8, g: u8, b: u8) -> Seq<char> {
    hex_byte(r) + hex_byte(g) + hex_byte(b)
}

/// Appends `n` in decimal.
pub fn push_decimal(out: &mut String, n: u128)
    ensures
        final(out)@ == old(out)@ + decimal(n as nat),
    decreases n,
{
    if n >= 10 {
        push_decimal(out, n / 10);
    }
    let d: u8 = (n % 10) as u8;
    out.push((0x30u8 + d) as char);
    assert(out@ =~= old(out)@ + decimal(n as nat));
}

/// Appends `n` in decimal, with its sign where it is negative.
pub fn push_signed(out: &mut String, n: i64)
    ensures
        final(out)@ == old(out)@ + signed_decimal(n as int),
{
    if n < 0 {
        out.push('-');
        let magnitude: u128 = if n == i64::MIN {
            0x8000_0000_0000_0000
        } else {
            (-n) as u128
        };
        push_decimal(out, magnitude);
        assert(out@ =~= old(out)@ + signed_decimal(n as int));
    } else {
        push_decimal(out, n as u128);
    }
}

fn push_hex_digit(out: &mut String, d: u8)
    requires
        d < 16,
    ensures
        final(out)@ == old(out)@.push(hex_digit(d as int)),
{
    if d < 10 {
        out.push((0x30u8 + d) as char);
    } else {
        out.push((0x57u8 + d) as char);
    }
}

/// Appends a byte as two hexadecimal digits.
pub fn push_hex_byte(out: &mut String, b: u8)
    ensures
        final(out)@ == old(out)@ + hex_byte(b),
{
    push_hex_digit(out, b / 16);
    push_hex_digit(out, b % 16);
    assert(out@ =~= old(out)@ + hex_byte(b));
}

/// A colour as six hexadecimal digits.
pub fn rgb_name(r: u8, g: u8, b: u8) -> (name: String)
    ensures
        name@ == hex_rgb(r, g, b),
{
    let mut name = String::new();
    push_hex_byte(&mut name, r);
    push_hex_byte(&mut name, g);
    push_hex_byte(&mut name, b);
    assert(name@ =~= hex_rgb(r, g, b));
    name
}

/// The string that holds `c` alone.
pub fn char_to_string(c: char) -> (s: String)
    ensures
        s@ == seq![c],
{
    let mut s = String::new();
    s.push(c);
    assert(s@ =~= seq![c]);
    s
}

/// `front` followed by `back`.
pub fn joined(front: &str, back: &str) -> (s: String)
    ensures
        s@ == front@ + back@,
{
    let mut s = String::new();
    s.append(front);
    s.append(back);
    assert(s@ =~= front@ + back@);
    s
}

/// The decimal text of a number holds its value: two numbers with the same text are equal.
pub proof fn decimal_is_injective(a: nat, b: nat)
    requires
        decimal(a) == decimal(b),
    ensures
        a == b,
    decreases a,
{
    decimal_is_not_empty(a / 10);
    decimal_is_not_empty(b / 10);
    assert(decimal(a).last() == decimal(b).last());
    assert(decimal(a).last() == digit((a % 10) as int));
    assert(decimal(b).last() == digit((b % 10) as int));
    assert(a % 10 == b % 10);
    if a < 10 {
        assert(decimal(b).len() == 1);
    } else {
        assert(decimal(a).drop_last() =~= decimal(a / 10));
        assert(b >= 10);
        assert(decimal(b).drop_last() =~= decimal(b / 10));
        decimal_is_injective(a / 10, b / 10);
    }
}

/// The decimal text of a number is made of digits.
pub proof fn decimal_is_digits(n: nat)
    ensures
        forall|i: int| 0 <= i < decimal(n).len() ==> '0' <= #[trigger] decimal(n)[i] <= '9',
    decreases n,
{
    if n >= 10 {
        let before = decimal(n / 10);
        decimal_is_digits(n / 10);
        assert forall|i: int| 0 <= i < decimal(n).len() implies '0' <= #[trigger] decimal(n)[i]
            <= '9' by {
            if i < before.len() {
                assert(decimal(n)[i] == before[i]);
            }
        }
    }
}

proof fn decimal_is_not_empty(n: nat)
    ensures
        decimal(n).len() > 0,
    decreases n,
{
}

/// A decimal text has no leading zero: only that of zero begins with one.
pub proof fn decimal_has_no_leading_zero(n: nat)
    ensures
        decimal(n).len() > 0,
        decimal(n)[0] == '0' <==> n == 0,
    decreases n,
{
    decimal_is_not_empty(n);
    if n >= 10 {
        decimal_has_no_leading_zero(n / 10);
    }
}

/// What a hexadecimal digit, of lower case beyond 9, is worth.
pub open spec fn hex_worth(c: char) -> int {
    if c <= '9' {
        c as u32 - '0' as u32
    } else {
        c as u32 - 'a' as u32 + 10
    }
}

/// A byte is shown by two hexadecimal digits of lower case, the more significant one first, and
/// can be read back from them.
pub proof fn a_byte_is_two_hex_digits(b: u8)
    ensures
        hex_byte(b).len() == 2,
        forall|i: int|
            0 <= i < 2 ==> '0' <= #[trigger] hex_byte(b)[i] <= '9' || 'a' <= hex_byte(b)[i] <= 'f',
        16 * hex_worth(hex_byte(b)[0]) + hex_worth(hex_byte(b)[1]) == b,
{
    let (h, l) = (b as int / 16, b as int % 16);
    assert(0 <= h < 16 && 0 <= l < 16);
    assert(hex_byte(b)[0] == hex_digit(h) && hex_byte(b)[1] == hex_digit(l));
}

/// A colour is shown by the digits of its red, green and blue, in this order.
pub proof fn a_colour_is_six_hex_digits(r: u8, g: u8, b: u8)
    ensures
        hex_rgb(r, g, b).len() == 6,
        hex_rgb(r, g, b).subrange(0, 2) == hex_byte(r),
        hex_rgb(r, g, b).subrange(2, 4) == hex_byte(g),
        hex_rgb(r, g, b).subrange(4, 6) == hex_byte(b),
{
    assert(hex_rgb(r, g, b).subrange(0, 2) =~= hex_byte(r));
    assert(hex_rgb(r, g, b).subrange(2, 4) =~= hex_byte(g));
    assert(hex_rgb(r, g, b).subrange(4, 6) =~= hex_byte(b));
}

} // verus!
