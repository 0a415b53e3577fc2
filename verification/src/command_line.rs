//! Windows command lines, environment blocks and pipe names, in UTF-16.
//!
//! A Windows program gets its arguments as one line and takes it apart itself. `append_quoted_wide`
//! writes an argument so that the usual rules, which `read_argument` states, read it back whole.
use crate::text;
use vstd::prelude::*;

verus! {

/// The quotation mark.
pub const QUOTE: u16 = 0x22;

/// The backslash.
pub const BACKSLASH: u16 = 0x5c;

/// The space that stands between arguments.
pub const SPACE: u16 = 0x20;

/// The tab.
pub const TAB: u16 = 0x09;

/// The line feed.
pub const LINE_FEED: u16 = 0x0a;

/// The vertical tab.
pub const VERTICAL_TAB: u16 = 0x0b;

/// The equals sign between a variable and its value.
pub const EQUALS: u16 = 0x3d;

/// What conhost is told at startup: the cursor stands at the top left.
pub const STARTUP_REPLY: &'static str = "\x1b[1;1R";

/// A character as UTF-16: one unit, or a surrogate pair beyond the basic plane.
pub open spec fn units(c: char) -> Seq<u16> {
    let code = c as u32 as int;
    if code < 0x1_0000 {
        seq![code as u16]
    } else {
        seq![
            (0xd800 + (code - 0x1_0000) / 0x400) as u16,
            (0xdc00 + (code - 0x1_0000) % 0x400) as u16,
        ]
    }
}

/// Text as UTF-16.
pub open spec fn utf16(s: Seq<char>) -> Seq<u16>
    decreases s.len(),
{
    if s.len() == 0 {
        seq![]
    } else {
        utf16(s.drop_last()) + units(s.last())
    }
}

fn push_units(out: &mut Vec<u16>, c: char)
    ensures
        final(out)@ == old(out)@ + units(c),
{
    let code: u32 = c as u32;
    if code < 0x1_0000 {
        out.push(code as u16);
    } else {
        let rest: u32 = code - 0x1_0000;
        out.push((0xd800 + rest / 0x400) as u16);
        out.push((0xdc00 + rest % 0x400) as u16);
    }
    assert(out@ =~= old(out)@ + units(c));
}

/// Appends text as UTF-16.
pub fn push_wide(out: &mut Vec<u16>, s: &str)
    ensures
        final(out)@ == old(out)@ + utf16(s@),
{
    let ghost start = out@;
    assert(s@.take(0) =~= seq![]);
    assert(out@ =~= start + utf16(s@.take(0)));
    for c in it: s.chars()
        invariant
            it.seq() == s@,
            out@ == start + utf16(s@.take(it.index() as int)),
    {
        let ghost i = it.index() as int;
        push_units(out, c);
        proof {
            assert(s@.take(i + 1).drop_last() =~= s@.take(i));
            assert(out@ =~= start + utf16(s@.take(i + 1)));
        }
    }
    assert(s@.take(s@.len() as int) =~= s@);
}

/// Text as UTF-16.
pub fn wide(s: &str) -> (out: Vec<u16>)
    ensures
        out@ == utf16(s@),
{
    let mut out: Vec<u16> = Vec::new();
    push_wide(&mut out, s);
    assert(out@ =~= utf16(s@));
    out
}

/// Text as UTF-16 with a zero behind it.
pub fn wide_with_nul(s: &str) -> (out: Vec<u16>)
    ensures
        out@ == utf16(s@).push(0),
{
    let mut out = wide(s);
    out.push(0);
    out
}

/// `n` backslashes.
pub open spec fn backslashes(n: nat) -> Seq<u16> {
    Seq::new(n, |i: int| BACKSLASH)
}

/// The units for which an argument has to stand in quotation marks.
pub open spec fn is_special(c: u16) -> bool {
    c == SPACE || c == TAB || c == LINE_FEED || c == VERTICAL_TAB || c == QUOTE
}

/// An argument has to stand in quotation marks where it is empty or holds a blank or a quotation
/// mark.
pub open spec fn needs_quotes(arg: Seq<u16>) -> bool {
    arg.len() == 0 || exists|i: int| 0 <= i < arg.len() && is_special(#[trigger] arg[i])
}

/// What stands between the quotation marks for the rest `arg` of an argument when `n` backslashes
/// came before it. Backslashes are doubled before a quotation mark, which gets one of its own, and
/// before the closing one.
pub open spec fn escaped(arg: Seq<u16>, n: nat) -> Seq<u16>
    decreases arg.len(),
{
    if arg.len() == 0 {
        backslashes(2 * n)
    } else if arg[0] == BACKSLASH {
        escaped(arg.skip(1), n + 1)
    } else if arg[0] == QUOTE {
        backslashes(2 * n + 1).push(QUOTE) + escaped(arg.skip(1), 0)
    } else {
        backslashes(n).push(arg[0]) + escaped(arg.skip(1), 0)
    }
}

/// An argument as it stands in a command line.
pub open spec fn quoted(arg: Seq<u16>) -> Seq<u16> {
    if needs_quotes(arg) {
        seq![QUOTE] + escaped(arg, 0) + seq![QUOTE]
    } else {
        arg
    }
}

fn holds_special(arg: &[u16]) -> (b: bool)
    ensures
        b == exists|i: int| 0 <= i < arg@.len() && is_special(#[trigger] arg@[i]),
{
    let mut i: usize = 0;
    while i < arg.len()
        invariant
            i <= arg@.len(),
            forall|j: int| 0 <= j < i ==> !is_special(#[trigger] arg@[j]),
        decreases arg@.len() - i,
    {
        let c: u16 = arg[i];
        if c == SPACE || c == TAB || c == LINE_FEED || c == VERTICAL_TAB || c == QUOTE {
            assert(is_special(arg@[i as int]));
            return true;
        }
        i = i + 1;
    }
    false
}

fn push_backslashes(out: &mut Vec<u16>, n: usize)
    ensures
        final(out)@ == old(out)@ + backslashes(n as nat),
{
    let ghost start = out@;
    let mut i: usize = 0;
    assert(out@ =~= start + backslashes(0));
    while i < n
        invariant
            i <= n,
            out@ == start + backslashes(i as nat),
        decreases n - i,
    {
        out.push(BACKSLASH);
        i = i + 1;
        assert(out@ =~= start + backslashes(i as nat));
    }
}

fn push_all(out: &mut Vec<u16>, more: &[u16])
    ensures
        final(out)@ == old(out)@ + more@,
{
    let ghost start = out@;
    let mut i: usize = 0;
    while i < more.len()
        invariant
            i <= more@.len(),
            out@ =~= start + more@.take(i as int),
        decreases more@.len() - i,
    {
        out.push(more[i]);
        i = i + 1;
    }
    assert(more@.take(i as int) =~= more@);
}

/// Appends an argument to a command line, in quotation marks where it needs them.
pub fn append_quoted_wide(arg: &[u16], cmdline: &mut Vec<u16>)
    ensures
        final(cmdline)@ == old(cmdline)@ + quoted(arg@),
{
    let ghost start = cmdline@;
    if arg.len() > 0 && !holds_special(arg) {
        push_all(cmdline, arg);
        return;
    }
    cmdline.push(QUOTE);
    let ghost body = start.push(QUOTE);
    let mut pending: usize = 0;
    let mut i: usize = 0;
    assert(arg@.skip(0) =~= arg@);
    while i < arg.len()
        invariant
            pending <= i <= arg@.len(),
            cmdline@ + escaped(arg@.skip(i as int), pending as nat) == body + escaped(arg@, 0),
        decreases arg@.len() - i,
    {
        let c: u16 = arg[i];
        let ghost rest = arg@.skip(i as int);
        let ghost step = cmdline@;
        let ghost n = pending as nat;
        assert(rest.skip(1) =~= arg@.skip(i + 1));
        if c == BACKSLASH {
            pending = pending + 1;
        } else {
            push_backslashes(cmdline, pending);
            if c == QUOTE {
                push_backslashes(cmdline, pending);
                cmdline.push(BACKSLASH);
                assert(cmdline@ =~= step + backslashes(2 * pending as nat + 1));
            }
            cmdline.push(c);
            pending = 0;
            assert(cmdline@ + escaped(rest.skip(1), 0) =~= step + escaped(rest, n));
        }
        i = i + 1;
    }
    let ghost step = cmdline@;
    push_backslashes(cmdline, pending);
    push_backslashes(cmdline, pending);
    assert(cmdline@ =~= step + backslashes(2 * pending as nat));
    cmdline.push(QUOTE);
    assert(cmdline@ =~= start + quoted(arg@));
}

/// Each of `args` in a command line, with a space before it.
pub open spec fn arguments(args: Seq<Seq<u16>>) -> Seq<u16>
    decreases args.len(),
{
    if args.len() == 0 {
        seq![]
    } else {
        seq![SPACE] + quoted(args[0]) + arguments(args.skip(1))
    }
}

/// A list of texts as UTF-16.
pub open spec fn wides(texts: Seq<String>) -> Seq<Seq<u16>> {
    texts.map_values(|s: String| utf16(s@))
}

/// A command line, up to the zero that ends it.
pub open spec fn line(program: Seq<u16>, args: Seq<Seq<u16>>) -> Seq<u16> {
    quoted(program) + arguments(args)
}

/// The command line that starts `program` with `args`, with a zero behind it.
pub fn command_line(program: &str, args: &[String]) -> (cmdline: Vec<u16>)
    ensures
        cmdline@ == line(utf16(program@), wides(args@)).push(0),
{
    let mut cmdline: Vec<u16> = Vec::new();
    let name = wide(program);
    append_quoted_wide(name.as_slice(), &mut cmdline);
    let ghost all = line(utf16(program@), wides(args@));
    let mut i: usize = 0;
    assert(wides(args@).skip(0) =~= wides(args@));
    assert(cmdline@ + arguments(wides(args@)) =~= all);
    while i < args.len()
        invariant
            i <= args@.len(),
            cmdline@ + arguments(wides(args@).skip(i as int)) == all,
        decreases args@.len() - i,
    {
        let ghost rest = wides(args@).skip(i as int);
        let ghost step = cmdline@;
        let arg = wide(args[i].as_str());
        cmdline.push(SPACE);
        append_quoted_wide(arg.as_slice(), &mut cmdline);
        i = i + 1;
        proof {
            assert(rest[0] == arg@);
            assert(rest.skip(1) =~= wides(args@).skip(i as int));
            assert(cmdline@ + arguments(rest.skip(1)) =~= step + arguments(rest));
        }
    }
    proof {
        assert(wides(args@).skip(i as int) =~= seq![]);
        assert(cmdline@ =~= all);
    }
    cmdline.push(0);
    cmdline
}

/// A variable and its value in an environment block.
pub open spec fn variable(key: Seq<char>, value: Seq<char>) -> Seq<u16> {
    utf16(key).push(EQUALS) + utf16(value).push(0)
}

/// The variables of an environment block, one after another.
pub open spec fn variables(env: Seq<(String, String)>) -> Seq<u16>
    decreases env.len(),
{
    if env.len() == 0 {
        seq![]
    } else {
        variables(env.drop_last()) + variable(env.last().0@, env.last().1@)
    }
}

/// The environment block of `env`: its variables and a zero behind them; empty where there are
/// none.
pub fn environment_block(env: &[(String, String)]) -> (block: Vec<u16>)
    ensures
        block@ == if env@.len() == 0 {
            seq![]
        } else {
            variables(env@).push(0)
        },
{
    let mut block: Vec<u16> = Vec::new();
    let mut i: usize = 0;
    assert(env@.take(0) =~= seq![]);
    while i < env.len()
        invariant
            i <= env@.len(),
            block@ == variables(env@.take(i as int)),
        decreases env@.len() - i,
    {
        let ghost step = block@;
        push_wide(&mut block, env[i].0.as_str());
        block.push(EQUALS);
        push_wide(&mut block, env[i].1.as_str());
        block.push(0);
        i = i + 1;
        proof {
            assert(env@.take(i as int).drop_last() =~= env@.take(i - 1));
            assert(block@ =~= step + variable(env@[i - 1].0@, env@[i - 1].1@));
        }
    }
    assert(env@.take(i as int) =~= env@);
    if env.len() > 0 {
        block.push(0);
    }
    block
}

/// The name of the `n`th pipe of process `pid`.
pub open spec fn pipe_text(pid: u32, n: usize) -> Seq<char> {
    "\\\\.\\pipe\\stitch-pty-"@ + text::decimal(pid as nat) + "-"@ + text::decimal(n as nat)
}

/// The name of the `n`th pipe of process `pid`.
pub fn pipe_name(pid: u32, n: usize) -> (name: String)
    ensures
        name@ == pipe_text(pid, n),
{
    let mut name = "\\\\.\\pipe\\stitch-pty-".to_string();
    text::push_decimal(&mut name, pid as u128);
    name.append("-");
    text::push_decimal(&mut name, n as u128);
    name
}

/// What a program reads of its command line: the argument that `cmd` begins with, and what is
/// left behind it. `n` backslashes came just before, `inside` says whether a quotation mark is
/// open, and `arg` was read already.
///
/// Backslashes mean themselves unless a quotation mark follows: then each pair of them is one
/// backslash, and an odd one makes the quotation mark mean itself. Other quotation marks open and
/// close, and a blank outside of them ends the argument.
pub open spec fn read_argument(cmd: Seq<u16>, n: nat, inside: bool, arg: Seq<u16>) -> (
    Seq<u16>,
    Seq<u16>,
)
    decreases cmd.len(),
{
    if cmd.len() == 0 {
        (arg + backslashes(n), cmd)
    } else if cmd[0] == BACKSLASH {
        read_argument(cmd.skip(1), n + 1, inside, arg)
    } else if cmd[0] == QUOTE {
        if n % 2 == 0 {
            read_argument(cmd.skip(1), 0, !inside, arg + backslashes(n / 2))
        } else {
            read_argument(cmd.skip(1), 0, inside, (arg + backslashes(n / 2)).push(QUOTE))
        }
    } else if !inside && (cmd[0] == SPACE || cmd[0] == TAB) {
        (arg + backslashes(n), cmd)
    } else {
        read_argument(cmd.skip(1), 0, inside, (arg + backslashes(n)).push(cmd[0]))
    }
}

/// The first `count` arguments that a program reads of its command line, where one unit stands
/// between an argument and the next.
pub open spec fn read_line(cmd: Seq<u16>, count: nat) -> Seq<Seq<u16>>
    decreases count,
{
    if count == 0 {
        seq![]
    } else {
        let (arg, rest) = read_argument(cmd, 0, false, seq![]);
        seq![arg] + read_line(rest.skip(1), (count - 1) as nat)
    }
}

/// A blank ends an argument, and so does the end of the line.
pub open spec fn ends_argument(tail: Seq<u16>) -> bool {
    tail.len() == 0 || tail[0] == SPACE || tail[0] == TAB
}

proof fn backslashes_are_counted(k: nat, s: Seq<u16>, n: nat, inside: bool, arg: Seq<u16>)
    ensures
        read_argument(backslashes(k) + s, n, inside, arg) == read_argument(s, n + k, inside, arg),
    decreases k,
{
    let cmd = backslashes(k) + s;
    if k == 0 {
        assert(cmd =~= s);
    } else {
        assert(cmd.skip(1) =~= backslashes((k - 1) as nat) + s);
        backslashes_are_counted((k - 1) as nat, s, n + 1, inside, arg);
    }
}

proof fn escapes_are_undone(arg: Seq<u16>, n: nat, tail: Seq<u16>, read: Seq<u16>)
    requires
        ends_argument(tail),
    ensures
        read_argument(escaped(arg, n) + seq![QUOTE] + tail, 0, true, read) == (
            read + backslashes(n) + arg,
            tail,
        ),
    decreases arg.len(),
{
    let cmd = escaped(arg, n) + seq![QUOTE] + tail;
    if arg.len() == 0 {
        let s = seq![QUOTE] + tail;
        assert(cmd =~= backslashes(2 * n) + s);
        backslashes_are_counted(2 * n, s, 0, true, read);
        assert(s.skip(1) =~= tail);
        assert((2 * n) / 2 == n);
        assert(read_argument(s, 2 * n, true, read) == read_argument(
            tail,
            0,
            false,
            read + backslashes(n),
        ));
        assert(read + backslashes(n) + backslashes(0) =~= read + backslashes(n) + arg);
    } else {
        let rest = arg.skip(1);
        let after = escaped(rest, 0) + seq![QUOTE] + tail;
        if arg[0] == BACKSLASH {
            escapes_are_undone(rest, n + 1, tail, read);
            assert(backslashes(n + 1) + rest =~= backslashes(n) + arg);
            assert(read + backslashes(n + 1) + rest =~= read + backslashes(n) + arg);
        } else if arg[0] == QUOTE {
            let s = seq![QUOTE] + after;
            assert(cmd =~= backslashes(2 * n + 1) + s);
            backslashes_are_counted(2 * n + 1, s, 0, true, read);
            assert(s.skip(1) =~= after);
            assert((2 * n + 1) / 2 == n);
            let now = (read + backslashes(n)).push(QUOTE);
            assert(read_argument(s, 2 * n + 1, true, read) == read_argument(after, 0, true, now));
            escapes_are_undone(rest, 0, tail, now);
            assert(now + backslashes(0) + rest =~= read + backslashes(n) + arg);
        } else {
            let s = seq![arg[0]] + after;
            assert(cmd =~= backslashes(n) + s);
            backslashes_are_counted(n, s, 0, true, read);
            assert(s.skip(1) =~= after);
            let now = (read + backslashes(n)).push(arg[0]);
            assert(read_argument(s, n, true, read) == read_argument(after, 0, true, now));
            escapes_are_undone(rest, 0, tail, now);
            assert(now + backslashes(0) + rest =~= read + backslashes(n) + arg);
        }
    }
}

proof fn plain_text_is_read(arg: Seq<u16>, n: nat, tail: Seq<u16>, read: Seq<u16>)
    requires
        ends_argument(tail),
        forall|i: int| 0 <= i < arg.len() ==> !is_special(#[trigger] arg[i]),
    ensures
        read_argument(arg + tail, n, false, read) == (read + backslashes(n) + arg, tail),
    decreases arg.len(),
{
    let cmd = arg + tail;
    if arg.len() == 0 {
        assert(cmd =~= tail);
        assert(read + backslashes(n) + arg =~= read + backslashes(n));
    } else {
        let rest = arg.skip(1);
        assert(cmd.skip(1) =~= rest + tail);
        assert(cmd[0] == arg[0] && !is_special(arg[0]));
        assert forall|i: int| 0 <= i < rest.len() implies !is_special(#[trigger] rest[i]) by {
            assert(rest[i] == arg[i + 1]);
        }
        if arg[0] == BACKSLASH {
            plain_text_is_read(rest, n + 1, tail, read);
            assert(read + backslashes(n + 1) + rest =~= read + backslashes(n) + arg);
        } else {
            let now = (read + backslashes(n)).push(arg[0]);
            plain_text_is_read(rest, 0, tail, now);
            assert(now + backslashes(0) + rest =~= read + backslashes(n) + arg);
        }
    }
}

/// An argument that was written to a command line is read back as it was, whatever it holds, and
/// what follows it is left as it is.
pub proof fn a_quoted_argument_is_read_back(arg: Seq<u16>, tail: Seq<u16>)
    requires
        ends_argument(tail),
    ensures
        read_argument(quoted(arg) + tail, 0, false, seq![]) == (arg, tail),
{
    let none = Seq::<u16>::empty();
    if needs_quotes(arg) {
        let cmd = quoted(arg) + tail;
        let inner = escaped(arg, 0) + seq![QUOTE] + tail;
        assert(cmd.skip(1) =~= inner);
        assert(none + backslashes(0) =~= none);
        assert(read_argument(cmd, 0, false, none) == read_argument(inner, 0, true, none));
        escapes_are_undone(arg, 0, tail, none);
        assert(none + backslashes(0) + arg =~= arg);
    } else {
        plain_text_is_read(arg, 0, tail, none);
        assert(none + backslashes(0) + arg =~= arg);
    }
}

/// A program that takes its command line apart finds its own name and its arguments there, each
/// as it was given.
pub proof fn a_command_line_is_read_back(program: Seq<u16>, args: Seq<Seq<u16>>)
    ensures
        read_line(line(program, args), args.len() + 1) == seq![program] + args,
    decreases args.len(),
{
    let tail = arguments(args);
    a_quoted_argument_is_read_back(program, tail);
    if args.len() == 0 {
        assert(read_line(tail.skip(1), 0) =~= seq![]);
        assert(seq![program] + args =~= seq![program] + read_line(tail.skip(1), 0));
    } else {
        assert(tail.skip(1) =~= line(args[0], args.skip(1)));
        a_command_line_is_read_back(args[0], args.skip(1));
        assert(seq![args[0]] + args.skip(1) =~= args);
        assert(args.skip(1).len() + 1 == args.len());
    }
}

/// Two pipes have the same name only where they are the same pipe of the same process.
pub proof fn pipe_names_are_distinct(pid1: u32, n1: usize, pid2: u32, n2: usize)
    requires
        pipe_text(pid1, n1) == pipe_text(pid2, n2),
    ensures
        pid1 == pid2,
        n1 == n2,
{
    reveal_strlit("-");
    let front = "\\\\.\\pipe\\stitch-pty-"@;
    let (a1, b1) = (text::decimal(pid1 as nat), text::decimal(n1 as nat));
    let (a2, b2) = (text::decimal(pid2 as nat), text::decimal(n2 as nat));
    let (t1, t2) = (pipe_text(pid1, n1), pipe_text(pid2, n2));
    text::decimal_is_digits(pid1 as nat);
    text::decimal_is_digits(pid2 as nat);
    let f = front.len() as int;
    assert(t1[f + a1.len()] == '-');
    assert(t2[f + a2.len()] == '-');
    assert(forall|i: int| 0 <= i < a1.len() ==> t1[f + i] == #[trigger] a1[i]);
    assert(forall|i: int| 0 <= i < a2.len() ==> t2[f + i] == #[trigger] a2[i]);
    if a1.len() < a2.len() {
        assert(a2[a1.len() as int] == '-');
    }
    if a2.len() < a1.len() {
        assert(a1[a2.len() as int] == '-');
    }
    assert(a1 =~= t1.subrange(f, f + a1.len()));
    assert(a2 =~= t2.subrange(f, f + a2.len()));
    assert(b1 =~= t1.skip(f + a1.len() + 1));
    assert(b2 =~= t2.skip(f + a2.len() + 1));
    text::decimal_is_injective(pid1 as nat, pid2 as nat);
    text::decimal_is_injective(n1 as nat, n2 as nat);
}

/// A character is one unit that is its code, or two surrogates from which its code is put
/// together.
pub proof fn a_character_is_read_back(c: char)
    ensures
        ({
            let u = units(c);
            let code = c as u32 as int;
            ||| code <= 0xffff && u.len() == 1 && u[0] == code
            ||| {
                &&& code > 0xffff
                &&& u.len() == 2
                &&& 0xd800 <= u[0] <= 0xdbff
                &&& 0xdc00 <= u[1] <= 0xdfff
                &&& 0x1_0000 + (u[0] - 0xd800) * 0x400 + (u[1] - 0xdc00) == code
            }
        }),
{
}

/// Text is the units of its characters, one after another.
pub proof fn text_is_its_characters(a: Seq<char>, b: Seq<char>, c: char)
    ensures
        utf16(seq![]) == Seq::<u16>::empty(),
        utf16(seq![c]) == units(c),
        utf16(a + b) == utf16(a) + utf16(b),
    decreases b.len(),
{
    reveal_with_fuel(utf16, 2);
    assert(seq![c].drop_last() =~= seq![]);
    assert(utf16(seq![c]) =~= units(c));
    if b.len() == 0 {
        assert(a + b =~= a);
        assert(utf16(a) + utf16(b) =~= utf16(a));
    } else {
        assert((a + b).drop_last() =~= a + b.drop_last());
        text_is_its_characters(a, b.drop_last(), c);
        assert(utf16(a + b) =~= utf16(a) + utf16(b));
    }
}

/// An argument stands as it is where it is not empty and holds neither a blank, a line feed, a
/// tab of either kind nor a quotation mark. Any other one stands between quotation marks.
pub proof fn arguments_are_quoted_where_they_must_be(arg: Seq<u16>)
    ensures
        ({
            let bare = arg.len() > 0 && forall|i: int|
                0 <= i < arg.len() ==> #[trigger] arg[i] != 0x20 && arg[i] != 0x09 && arg[i] != 0x0a
                    && arg[i] != 0x0b && arg[i] != 0x22;
            &&& bare ==> quoted(arg) == arg
            &&& !bare ==> quoted(arg).len() >= 2 && quoted(arg)[0] == 0x22 && quoted(arg).last()
                == 0x22
        }),
{
    if !needs_quotes(arg) {
        assert forall|i: int| 0 <= i < arg.len() implies #[trigger] arg[i] != 0x20 && arg[i] != 0x09
            && arg[i] != 0x0a && arg[i] != 0x0b && arg[i] != 0x22 by {
            assert(!is_special(arg[i]));
        }
    }
}

/// A variable in an environment block is its name, an equals sign, its value and a zero.
pub proof fn a_variable_is_taken_apart(key: Seq<char>, value: Seq<char>)
    ensures
        ({
            let entry = variable(key, value);
            let k = utf16(key).len() as int;
            &&& entry.len() == k + utf16(value).len() + 2
            &&& entry.take(k) == utf16(key)
            &&& entry[k] == 0x3d
            &&& entry.subrange(k + 1, entry.len() - 1) == utf16(value)
            &&& entry.last() == 0
        }),
{
    let entry = variable(key, value);
    let k = utf16(key).len() as int;
    assert(entry.take(k) =~= utf16(key));
    assert(entry.subrange(k + 1, entry.len() - 1) =~= utf16(value));
}

/// The variables of an environment block stand one behind another.
pub proof fn variables_stand_in_order(a: Seq<(String, String)>, b: Seq<(String, String)>)
    ensures
        variables(a + b) == variables(a) + variables(b),
        a.len() == 1 ==> variables(a) == variable(a[0].0@, a[0].1@),
    decreases b.len(),
{
    if a.len() == 1 {
        reveal_with_fuel(variables, 2);
        assert(a.drop_last() =~= seq![]);
        assert(variables(a) =~= variable(a[0].0@, a[0].1@));
    }
    if b.len() == 0 {
        assert(a + b =~= a);
        assert(variables(a) + variables(b) =~= variables(a));
    } else {
        assert((a + b).drop_last() =~= a + b.drop_last());
        variables_stand_in_order(a, b.drop_last());
        assert(variables(a + b) =~= variables(a) + variables(b));
    }
}

} // verus!
