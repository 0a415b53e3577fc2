//! What a Unix child is started with: its arguments, its environment, and the descriptors that
//! it must not inherit.
use crate::text;
use vstd::prelude::*;

verus! {

/// The text holds a zero character, so no C string can hold it.
pub open spec fn holds_nul(s: Seq<char>) -> bool {
    exists|i: int| 0 <= i < s.len() && #[trigger] s[i] == '\0'
}

fn has_nul(s: &str) -> (b: bool)
    ensures
        b == holds_nul(s@),
{
    for c in it: s.chars()
        invariant
            it.seq() == s@,
            forall|j: int| 0 <= j < it.index() ==> #[trigger] s@[j] != '\0',
    {
        if c == '\0' {
            assert(s@[it.index() as int] == '\0');
            return true;
        }
    }
    false
}

/// An argument as the child gets it: empty where no C string can hold it.
pub open spec fn argument(s: Seq<char>) -> Seq<char> {
    if holds_nul(s) {
        seq![]
    } else {
        s
    }
}

/// The arguments that a child gets, its own name first. There are none, and the child cannot be
/// started, where no C string can hold the name.
pub fn child_arguments(program: &str, args: &[String]) -> (argv: Option<Vec<String>>)
    ensures
        argv is None == holds_nul(program@),
        argv matches Some(v) ==> {
            &&& v@.len() == args@.len() + 1
            &&& v@[0]@ == program@
            &&& forall|i: int|
                0 <= i < args@.len() ==> (#[trigger] v@[i + 1])@ == argument(args@[i]@)
        },
{
    if has_nul(program) {
        return None;
    }
    let mut v: Vec<String> = Vec::new();
    v.push(program.to_string());
    let mut i: usize = 0;
    while i < args.len()
        invariant
            i <= args@.len(),
            v@.len() == i + 1,
            v@[0]@ == program@,
            forall|j: int| 0 <= j < i ==> (#[trigger] v@[j + 1])@ == argument(args@[j]@),
        decreases args@.len() - i,
    {
        let arg = args[i].as_str();
        if has_nul(arg) {
            v.push(String::new());
        } else {
            v.push(arg.to_string());
        }
        assert(v@[i + 1]@ =~= argument(args@[i as int]@));
        i = i + 1;
    }
    Some(v)
}

/// The environment that a child is started with: the one that was asked for, or else the one of
/// the process that starts it.
pub fn environment_for(
    env: Option<Vec<(String, String)>>,
    parent: Vec<(String, String)>,
) -> (r: Vec<(String, String)>)
    ensures
        r == (match env {
            Some(e) => e,
            None => parent,
        }),
{
    match env {
        Some(e) => e,
        None => parent,
    }
}

/// A variable of the environment and its value.
pub open spec fn variable(key: Seq<char>, value: Seq<char>) -> Seq<char> {
    key + "="@ + value
}

/// The environment that a child gets, as `key=value` entries. There is none, and the child cannot
/// be started, where no C string can hold one of them.
pub fn child_environment(env: &[(String, String)]) -> (envp: Option<Vec<String>>)
    ensures
        envp is None == exists|i: int|
            0 <= i < env@.len() && holds_nul(variable((#[trigger] env@[i]).0@, env@[i].1@)),
        envp matches Some(v) ==> {
            &&& v@.len() == env@.len()
            &&& forall|i: int|
                0 <= i < env@.len() ==> (#[trigger] v@[i])@ == variable(env@[i].0@, env@[i].1@)
        },
{
    let mut v: Vec<String> = Vec::new();
    let mut i: usize = 0;
    while i < env.len()
        invariant
            i <= env@.len(),
            v@.len() == i,
            forall|j: int|
                0 <= j < i ==> (#[trigger] v@[j])@ == variable(env@[j].0@, env@[j].1@),
            forall|j: int|
                0 <= j < i ==> !holds_nul(variable((#[trigger] env@[j]).0@, env@[j].1@)),
        decreases env@.len() - i,
    {
        let mut entry = env[i].0.as_str().to_string();
        entry.append("=");
        entry.append(env[i].1.as_str());
        assert(entry@ == variable(env@[i as int].0@, env@[i as int].1@));
        if has_nul(entry.as_str()) {
            return None;
        }
        v.push(entry);
        i = i + 1;
    }
    Some(v)
}

/// A decimal digit.
pub open spec fn is_digit(c: char) -> bool {
    '0' <= c <= '9'
}

/// The text is made of decimal digits.
pub open spec fn all_digits(s: Seq<char>) -> bool {
    forall|i: int| 0 <= i < s.len() ==> is_digit(#[trigger] s[i])
}

/// The number that decimal digits stand for.
pub open spec fn digits_value(s: Seq<char>) -> nat
    decreases s.len(),
{
    if s.len() == 0 {
        0
    } else {
        digits_value(s.drop_last()) * 10 + (s.last() as u32 - '0' as u32) as nat
    }
}

/// The digits of a number's text, without the sign before them.
pub open spec fn magnitude(s: Seq<char>) -> Seq<char> {
    if s.len() > 0 && (s[0] == '-' || s[0] == '+') {
        s.skip(1)
    } else {
        s
    }
}

/// The number that the text stands for: decimal digits, at least one, with or without a sign.
/// Nothing where it is no number or does not fit.
pub open spec fn parsed(s: Seq<char>) -> Option<i32> {
    let digits = magnitude(s);
    if digits.len() == 0 || !all_digits(digits) {
        None
    } else {
        let n: int = if s[0] == '-' {
            -(digits_value(digits) as int)
        } else {
            digits_value(digits) as int
        };
        if i32::MIN <= n <= i32::MAX {
            Some(n as i32)
        } else {
            None
        }
    }
}

proof fn more_digits_are_more(s: Seq<char>, i: int)
    requires
        all_digits(s),
        0 <= i <= s.len(),
    ensures
        digits_value(s.take(i)) <= digits_value(s),
    decreases s.len(),
{
    if i == s.len() {
        assert(s.take(i) =~= s);
    } else {
        assert(s.drop_last().take(i) =~= s.take(i));
        assert forall|j: int| 0 <= j < s.len() - 1 implies is_digit(
            #[trigger] s.drop_last()[j],
        ) by {
            assert(s.drop_last()[j] == s[j]);
        }
        more_digits_are_more(s.drop_last(), i);
    }
}

/// The number that the text stands for.
pub fn parse_descriptor(s: &str) -> (n: Option<i32>)
    ensures
        n == parsed(s@),
{
    let mut chars: Vec<char> = Vec::new();
    for c in it: s.chars()
        invariant
            it.seq() == s@,
            chars@ =~= s@.take(it.index() as int),
    {
        chars.push(c);
    }
    assert(chars@ =~= s@);
    let len: usize = chars.len();
    let start: usize = if len > 0 && (chars[0] == '-' || chars[0] == '+') {
        1
    } else {
        0
    };
    let ghost digits = magnitude(s@);
    assert(digits =~= s@.skip(start as int));
    if start == len {
        return None;
    }
    let mut value: u64 = 0;
    let mut i: usize = start;
    assert(digits.take(0) =~= seq![]);
    while i < len
        invariant
            chars@ == s@,
            len == s@.len(),
            digits == s@.skip(start as int),
            digits == magnitude(s@),
            start <= i <= len,
            start < len,
            all_digits(digits.take(i - start)),
            value <= 0x8000_0000,
            value == digits_value(digits.take(i - start)),
        decreases len - i,
    {
        let c: char = chars[i];
        let ghost k = i - start;
        proof {
            assert(digits[k] == c);
            assert(digits.take(k + 1).drop_last() =~= digits.take(k));
        }
        if c < '0' || '9' < c {
            assert(!is_digit(digits[k]));
            return None;
        }
        value = value * 10 + (c as u32 - '0' as u32) as u64;
        i = i + 1;
        proof {
            assert forall|j: int| 0 <= j < k + 1 implies is_digit(
                #[trigger] digits.take(k + 1)[j],
            ) by {
                if j < k {
                    assert(digits.take(k)[j] == digits.take(k + 1)[j]);
                }
            }
        }
        if value > 0x8000_0000 {
            proof {
                if all_digits(digits) {
                    more_digits_are_more(digits, k + 1);
                }
            }
            return None;
        }
    }
    assert(digits.take(i - start) =~= digits);
    if chars[0] == '-' {
        if value == 0x8000_0000 {
            Some(i32::MIN)
        } else {
            Some(-(value as i32))
        }
    } else if value == 0x8000_0000 {
        None
    } else {
        Some(value as i32)
    }
}

/// Whether a descriptor is one that the child must not inherit: beyond the standard three, and
/// none of those to keep.
pub open spec fn is_stray(fd: i32, keep: Seq<i32>) -> bool {
    fd > 2 && !keep.contains(fd)
}

/// The descriptors that the child must not inherit, from the names under which the open ones are
/// listed. A name that is no number is passed over.
pub open spec fn strays(names: Seq<String>, keep: Seq<i32>) -> Seq<i32>
    decreases names.len(),
{
    if names.len() == 0 {
        seq![]
    } else {
        let before = strays(names.drop_last(), keep);
        match parsed(names.last()@) {
            Some(fd) => if is_stray(fd, keep) {
                before.push(fd)
            } else {
                before
            },
            None => before,
        }
    }
}

fn is_kept(fd: i32, keep: &[i32]) -> (b: bool)
    ensures
        b == keep@.contains(fd),
{
    let mut i: usize = 0;
    while i < keep.len()
        invariant
            i <= keep@.len(),
            forall|j: int| 0 <= j < i ==> #[trigger] keep@[j] != fd,
        decreases keep@.len() - i,
    {
        if keep[i] == fd {
            assert(keep@[i as int] == fd);
            return true;
        }
        i = i + 1;
    }
    false
}

/// The descriptors to close in a child, from the names under which the open ones are listed.
pub fn stray_descriptors(names: &[String], keep: &[i32]) -> (fds: Vec<i32>)
    ensures
        fds@ == strays(names@, keep@),
{
    let mut fds: Vec<i32> = Vec::new();
    let mut i: usize = 0;
    assert(names@.take(0) =~= seq![]);
    while i < names.len()
        invariant
            i <= names@.len(),
            fds@ == strays(names@.take(i as int), keep@),
        decreases names@.len() - i,
    {
        assert(names@.take(i + 1).drop_last() =~= names@.take(i as int));
        if let Some(fd) = parse_descriptor(names[i].as_str()) {
            if fd > 2 && !is_kept(fd, keep) {
                fds.push(fd);
            }
        }
        i = i + 1;
    }
    assert(names@.take(i as int) =~= names@);
    fds
}

/// The standard descriptors and those to keep are never among the ones to close.
pub proof fn kept_descriptors_stay_open(names: Seq<String>, keep: Seq<i32>)
    ensures
        forall|i: int|
            0 <= i < strays(names, keep).len() ==> is_stray(#[trigger] strays(names, keep)[i], keep),
    decreases names.len(),
{
    if names.len() > 0 {
        let before = strays(names.drop_last(), keep);
        kept_descriptors_stay_open(names.drop_last(), keep);
        assert forall|i: int| 0 <= i < strays(names, keep).len() implies is_stray(
            #[trigger] strays(names, keep)[i],
            keep,
        ) by {
            if i < before.len() {
                assert(strays(names, keep)[i] == before[i]);
            }
        }
    }
}

/// The decimal text of a number is worth that number.
proof fn decimal_is_worth_its_number(n: nat)
    ensures
        all_digits(text::decimal(n)),
        digits_value(text::decimal(n)) == n,
    decreases n,
{
    let s = text::decimal(n);
    text::decimal_is_digits(n);
    text::decimal_has_no_leading_zero(n);
    assert forall|i: int| 0 <= i < s.len() implies is_digit(#[trigger] s[i]) by {
        assert('0' <= text::decimal(n)[i] <= '9');
    }
    if n < 10 {
        reveal_with_fuel(digits_value, 2);
        assert(s.drop_last() =~= seq![]);
    } else {
        decimal_is_worth_its_number(n / 10);
        assert(s.drop_last() =~= text::decimal(n / 10));
    }
}

/// A number is read back from its text, with or without a plus sign.
pub proof fn a_number_is_read_back(n: i32)
    ensures
        parsed(text::signed_decimal(n as int)) == Some(n),
        n >= 0 ==> parsed(seq!['+'] + text::signed_decimal(n as int)) == Some(n),
{
    let size: nat = if n < 0 {
        (-n) as nat
    } else {
        n as nat
    };
    let digits = text::decimal(size);
    decimal_is_worth_its_number(size);
    text::decimal_has_no_leading_zero(size);
    assert(is_digit(digits[0]));
    assert((seq!['-'] + digits).skip(1) =~= digits);
    assert((seq!['+'] + digits).skip(1) =~= digits);
}

/// Text that holds anything but digits behind its first character is no number, and neither is
/// text without a digit.
pub proof fn other_text_is_no_number(s: Seq<char>, i: int)
    requires
        0 <= i < s.len(),
        !('0' <= s[i] <= '9'),
        i > 0 || s.len() == 1 || (s[0] != '+' && s[0] != '-'),
    ensures
        parsed(s) is None,
        parsed(seq![]) is None,
{
    if magnitude(s) == s {
        assert(!is_digit(magnitude(s)[i]));
    } else if i > 0 {
        assert(!is_digit(magnitude(s)[i - 1]));
    }
}

/// An argument that a C string can hold reaches the child as it is, and any other one empty.
pub proof fn an_argument_holds_no_zero(s: Seq<char>)
    ensures
        forall|i: int| 0 <= i < argument(s).len() ==> #[trigger] argument(s)[i] != '\0',
        argument(s) == s || argument(s).len() == 0,
        argument(s) != s ==> s.contains('\0'),
{
    if holds_nul(s) {
        let i = choose|i: int| 0 <= i < s.len() && #[trigger] s[i] == '\0';
        assert(s.contains(s[i]));
    }
}

/// A variable and its value can be told apart: the first equals sign stands between them.
pub proof fn a_variable_is_taken_apart(key: Seq<char>, value: Seq<char>)
    requires
        !key.contains('='),
    ensures
        ({
            let entry = variable(key, value);
            let k = key.len() as int;
            &&& entry.len() == k + 1 + value.len()
            &&& entry.take(k) == key
            &&& entry[k] == '='
            &&& entry.skip(k + 1) == value
            &&& forall|i: int| 0 <= i < k ==> #[trigger] entry[i] != '='
        }),
{
    reveal_strlit("=");
    let entry = variable(key, value);
    let k = key.len() as int;
    assert(entry.take(k) =~= key);
    assert(entry.skip(k + 1) =~= value);
    assert forall|i: int| 0 <= i < k implies #[trigger] entry[i] != '=' by {
        assert(entry[i] == key[i]);
        assert(key.contains(key[i]));
    }
}

/// A descriptor is closed in the child exactly where it is listed, lies beyond the standard three
/// and is not to be kept.
pub proof fn every_other_descriptor_is_closed(names: Seq<String>, keep: Seq<i32>, fd: i32)
    ensures
        strays(names, keep).contains(fd) <==> {
            &&& fd > 2
            &&& forall|i: int| 0 <= i < keep.len() ==> #[trigger] keep[i] != fd
            &&& exists|i: int| 0 <= i < names.len() && parsed((#[trigger] names[i])@) == Some(fd)
        },
    decreases names.len(),
{
    let fds = strays(names, keep);
    if names.len() > 0 {
        let rest = names.drop_last();
        let before = strays(rest, keep);
        every_other_descriptor_is_closed(rest, keep, fd);
        if before.contains(fd) {
            let i = choose|i: int| 0 <= i < before.len() && before[i] == fd;
            assert(fds[i] == fd);
            let j = choose|j: int| 0 <= j < rest.len() && parsed((#[trigger] rest[j])@) == Some(fd);
            assert(parsed(names[j]@) == Some(fd));
        }
        if parsed(names.last()@) == Some(fd) {
            assert(parsed(names[names.len() - 1]@) == Some(fd));
            if is_stray(fd, keep) {
                assert(fds[fds.len() - 1] == fd);
            }
        }
        if fds.contains(fd) && !before.contains(fd) {
            let i = choose|i: int| 0 <= i < fds.len() && fds[i] == fd;
            if i < before.len() {
                assert(before[i] == fd);
            }
        }
        if exists|i: int| 0 <= i < names.len() && parsed((#[trigger] names[i])@) == Some(fd) {
            let i = choose|i: int|
                0 <= i < names.len() && parsed((#[trigger] names[i])@) == Some(fd);
            if i < rest.len() {
                assert(parsed(rest[i]@) == Some(fd));
            }
        }
    }
}

/// The descriptors to close come in the order in which they are listed.
pub proof fn descriptors_are_closed_in_order(a: Seq<String>, b: Seq<String>, keep: Seq<i32>)
    ensures
        strays(a + b, keep) == strays(a, keep) + strays(b, keep),
    decreases b.len(),
{
    if b.len() == 0 {
        assert(a + b =~= a);
        assert(strays(a, keep) + strays(b, keep) =~= strays(a, keep));
    } else {
        assert((a + b).drop_last() =~= a + b.drop_last());
        descriptors_are_closed_in_order(a, b.drop_last(), keep);
        assert(strays(a + b, keep) =~= strays(a, keep) + strays(b, keep));
    }
}

} // verus!
