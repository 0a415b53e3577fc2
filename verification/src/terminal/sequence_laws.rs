//! What is promised of the parser: how the sequences look that it finds, and what it makes of their
//! parameters.
use super::ansi_parser;
use super::ansi_parser::{Action, Machine, Outcome, State};
use super::parser;
use super::state::ScreenState;
use crate::utf8;
use crate::utf8::Decoded;
use vstd::prelude::*;

verus! {

/// Whether `digits` are decimal digits; there may be none.
pub open spec fn is_number(digits: Seq<u8>) -> bool {
    forall|i: int| 0 <= i < digits.len() ==> 0x30 <= #[trigger] digits[i] <= 0x39
}

/// The number that decimal digits write; none write zero.
pub open spec fn value(digits: Seq<u8>) -> int
    decreases digits.len(),
{
    if digits.len() == 0 {
        0
    } else {
        10 * value(digits.drop_last()) + (digits.last() - 0x30)
    }
}

/// `n`, or the largest number that a parameter can be.
pub open spec fn capped(n: int) -> u16 {
    if n > 0xffff {
        0xffff
    } else {
        n as u16
    }
}

/// Texts with semicolons between them.
pub open spec fn separated(texts: Seq<Seq<u8>>) -> Seq<u8>
    decreases texts.len(),
{
    if texts.len() == 0 {
        seq![]
    } else if texts.len() == 1 {
        texts[0]
    } else {
        separated(texts.drop_last()) + seq![0x3bu8] + texts.last()
    }
}

/// The parameters that numbers with semicolons between them are: each a group of its own.
pub open spec fn parameters(numbers: Seq<Seq<u8>>) -> Seq<Seq<u16>> {
    numbers.map_values(|digits: Seq<u8>| seq![capped(value(digits))])
}

proof fn value_is_no_less_than_zero(digits: Seq<u8>)
    requires
        is_number(digits),
    ensures
        value(digits) >= 0,
    decreases digits.len(),
{
    if digits.len() > 0 {
        let rest = digits.drop_last();
        assert forall|i: int| 0 <= i < rest.len() implies 0x30 <= #[trigger] rest[i] <= 0x39 by {
            assert(rest[i] == digits[i]);
        }
        value_is_no_less_than_zero(rest);
        assert(0x30 <= digits[digits.len() - 1]);
    }
}

/// A digit behind a number makes it ten times as large and adds the digit; a number that grows too
/// large stays at the largest one.
pub proof fn a_digit_extends_a_number(n: int, digit: u8)
    requires
        n >= 0,
        0x30 <= digit <= 0x39,
    ensures
        ansi_parser::with_digit(capped(n), digit) == capped(10 * n + (digit - 0x30)),
{
}

/// Whether a parser that starts at `m` is at `to` after `input`, and has found `actions` in it.
pub open spec fn reads(m: Machine, input: Seq<u8>, actions: Seq<Action>, to: Machine) -> bool {
    ansi_parser::run(m, input) == Outcome { machine: to, partial: seq![], actions }
}

/// One more byte is one more step.
proof fn one_more_byte(m: Machine, input: Seq<u8>, actions: Seq<Action>, at: Machine, byte: u8)
    requires
        reads(m, input, actions, at),
        at.state != State::Ground,
    ensures
        reads(m, input.push(byte), actions + at.step(byte).1, at.step(byte).0),
{
    ansi_parser::run_in_pieces(m, input, seq![byte]);
    assert(input + seq![byte] =~= input.push(byte));
    let tail = Seq::<u8>::empty() + seq![byte];
    assert(tail =~= seq![byte]);
    assert(tail.skip(1) =~= seq![]);
    let (next, more) = at.step(byte);
    assert(ansi_parser::run(next, seq![]).actions =~= seq![]);
    assert(more + Seq::<Action>::empty() =~= more);
    reveal_with_fuel(ansi_parser::run, 2);
    assert(ansi_parser::run(at, tail) == ansi_parser::after(more, ansi_parser::run(next, seq![])));
}

proof fn number_but_last(digits: Seq<u8>)
    requires
        is_number(digits),
        digits.len() > 0,
    ensures
        is_number(digits.drop_last()),
        0x30 <= digits.last() <= 0x39,
{
    assert forall|i: int| 0 <= i < digits.drop_last().len() implies 0x30 <= #[trigger]
    digits.drop_last()[i] <= 0x39 by {
        assert(digits.drop_last()[i] == digits[i]);
    }
    assert(0x30 <= digits[digits.len() - 1] <= 0x39);
}

/// A number in a control sequence is read.
proof fn a_number_is_read(
    m: Machine,
    input: Seq<u8>,
    actions: Seq<Action>,
    at: Machine,
    digits: Seq<u8>,
) -> (to: Machine)
    requires
        reads(m, input, actions, at),
        at.state == State::CsiEntry || at.state == State::CsiParam,
        at.param == 0,
        is_number(digits),
    ensures
        reads(m, input + digits, actions, to),
        to == (Machine { state: to.state, param: capped(value(digits)), ..at }),
        to.state == State::CsiEntry || to.state == State::CsiParam,
    decreases digits.len(),
{
    if digits.len() == 0 {
        assert(input + digits =~= input);
        at
    } else {
        number_but_last(digits);
        let rest = digits.drop_last();
        let mid = a_number_is_read(m, input, actions, at, rest);
        let byte = digits.last();
        one_more_byte(m, input + rest, actions, mid, byte);
        assert((input + rest).push(byte) =~= input + digits);
        value_is_no_less_than_zero(rest);
        a_digit_extends_a_number(value(rest), byte);
        reveal(Machine::step);
        assert(mid.step(byte).1 =~= seq![]);
        assert(actions + mid.step(byte).1 =~= actions);
        mid.step(byte).0
    }
}

proof fn parameters_but_last(numbers: Seq<Seq<u8>>)
    requires
        numbers.len() > 0,
    ensures
        parameters(numbers) == parameters(numbers.drop_last()).push(
            seq![capped(value(numbers.last()))],
        ),
{
    assert(parameters(numbers) =~= parameters(numbers.drop_last()).push(
        seq![capped(value(numbers.last()))],
    ));
}

/// The numbers of a control sequence are read up to the last one, which is at hand.
proof fn numbers_are_read(
    m: Machine,
    input: Seq<u8>,
    at: Machine,
    numbers: Seq<Seq<u8>>,
) -> (to: Machine)
    requires
        reads(m, input, seq![], at),
        at.state == State::CsiEntry || at.state == State::CsiParam,
        at.param == 0,
        at.params.len() == 0,
        at.count == 0,
        !at.ignoring,
        !at.subparam,
        1 <= numbers.len() <= 32,
        forall|i: int| 0 <= i < numbers.len() ==> is_number(#[trigger] numbers[i]),
    ensures
        reads(m, input + separated(numbers), seq![], to),
        to.state == State::CsiEntry || to.state == State::CsiParam,
        to.param == capped(value(numbers.last())),
        to.params == parameters(numbers.drop_last()),
        to.count == numbers.len() - 1,
        to.intermediates == at.intermediates,
        !to.ignoring,
        !to.subparam,
    decreases numbers.len(),
{
    assert(is_number(numbers[numbers.len() - 1]));
    if numbers.len() == 1 {
        assert(at.params =~= parameters(numbers.drop_last()));
        a_number_is_read(m, input, seq![], at, numbers[0])
    } else {
        let rest = numbers.drop_last();
        assert forall|i: int| 0 <= i < rest.len() implies is_number(#[trigger] rest[i]) by {
            assert(rest[i] == numbers[i]);
        }
        let mid = numbers_are_read(m, input, at, rest);
        let so_far = input + separated(rest);
        one_more_byte(m, so_far, seq![], mid, 0x3b);
        reveal(Machine::step);
        let next = mid.step(0x3b).0;
        parameters_but_last(rest);
        assert(mid.step(0x3b).1 =~= seq![]);
        assert(Seq::<Action>::empty() + mid.step(0x3b).1 =~= seq![]);
        assert(next.params == parameters(rest));
        let to = a_number_is_read(m, so_far.push(0x3b), seq![], next, numbers.last());
        assert(so_far.push(0x3b) + numbers.last() =~= input + separated(numbers));
        to
    }
}

proof fn a_sequence_starts(m: Machine, second: u8) -> (to: Machine)
    requires
        m.state == State::Ground,
        second == 0x5b || second == 0x5d,
    ensures
        reads(m, seq![0x1bu8, second], seq![], to),
        second == 0x5b ==> to == m.fresh().to(State::CsiEntry),
        second == 0x5d ==> to == m.fresh().osc_clear().to(State::OscString),
{
    let input = seq![0x1bu8, second];
    assert(input.skip(1) =~= seq![second]);
    assert(input.skip(1).skip(1) =~= seq![]);
    reveal_with_fuel(ansi_parser::run, 3);
    reveal(Machine::step);
    let esc = m.fresh().to(State::Escape);
    let to = esc.step(second).0;
    assert(esc.step(second).1 =~= seq![]);
    assert(ansi_parser::run(to, seq![]).actions =~= seq![]);
    assert(seq![] + Seq::<Action>::empty() =~= Seq::<Action>::empty());
    to
}

/// The mark and the numbers of a control sequence are read up to the last number, which is at hand.
proof fn a_sequence_is_read(m: Machine, mark: Option<u8>, numbers: Seq<Seq<u8>>) -> (to: Machine)
    requires
        m.state == State::Ground,
        !m.subparam,
        mark matches Some(b) ==> 0x3c <= b <= 0x3f,
        1 <= numbers.len() <= 32,
        forall|i: int| 0 <= i < numbers.len() ==> is_number(#[trigger] numbers[i]),
    ensures
        ({
            let marks = match mark {
                Some(b) => seq![b],
                None => seq![],
            };
            &&& reads(m, seq![0x1bu8, 0x5b] + marks + separated(numbers), seq![], to)
            &&& to.intermediates == marks
        }),
        to.state == State::CsiEntry || to.state == State::CsiParam,
        to.param == capped(value(numbers.last())),
        to.params == parameters(numbers.drop_last()),
        to.count == numbers.len() - 1,
        !to.ignoring,
        !to.subparam,
{
    let marks = match mark {
        Some(b) => seq![b],
        None => seq![],
    };
    let start = seq![0x1bu8, 0x5b];
    let entry = a_sequence_starts(m, 0x5b);
    reveal(Machine::step);
    let at = match mark {
        Some(b) => {
            one_more_byte(m, start, seq![], entry, b);
            assert(start.push(b) =~= start + marks);
            assert(Seq::<Action>::empty() + entry.step(b).1 =~= seq![]);
            let next = entry.step(b).0;
            assert(next.intermediates =~= marks);
            next
        },
        None => {
            assert(start + marks =~= start);
            assert(entry.intermediates =~= marks);
            entry
        },
    };
    numbers_are_read(m, start + marks, at, numbers)
}

/// A control sequence: an escape, a bracket, at most one of the marks `<`, `=`, `>` and `?`, up to
/// thirty-two numbers with semicolons between them, and a final character. It is found as a whole,
/// with each number a parameter and the mark as its intermediate, and text follows it. A number
/// that is left out is zero, and one that is too large the largest one.
pub proof fn a_control_sequence_is_found(
    m: Machine,
    mark: Option<u8>,
    numbers: Seq<Seq<u8>>,
    last: u8,
)
    requires
        m.state == State::Ground,
        !m.subparam,
        mark matches Some(b) ==> 0x3c <= b <= 0x3f,
        1 <= numbers.len() <= 32,
        forall|i: int| 0 <= i < numbers.len() ==> is_number(#[trigger] numbers[i]),
        0x40 <= last <= 0x7e,
    ensures
        ({
            let marks = match mark {
                Some(b) => seq![b],
                None => seq![],
            };
            let o = ansi_parser::run(
                m,
                seq![0x1bu8, 0x5b] + marks + separated(numbers) + seq![last],
            );
            &&& o.actions == seq![
                Action::Csi {
                    params: parameters(numbers),
                    intermediates: marks,
                    ignore: false,
                    action: last as char,
                },
            ]
            &&& o.partial.len() == 0
            &&& o.machine.state == State::Ground
            &&& !o.machine.subparam
        }),
{
    let marks = match mark {
        Some(b) => seq![b],
        None => seq![],
    };
    let start = seq![0x1bu8, 0x5b];
    let read = a_sequence_is_read(m, mark, numbers);
    reveal(Machine::step);
    let so_far = start + marks + separated(numbers);
    one_more_byte(m, so_far, seq![], read, last);
    assert(so_far.push(last) =~= so_far + seq![last]);
    parameters_but_last(numbers);
    assert(read.semicolon().params == parameters(numbers));
    assert(Seq::<Action>::empty() + read.step(last).1 =~= read.step(last).1);
}

/// The numbers of a list of parameters, one after another.
pub proof fn the_numbers_of_parameters(numbers: Seq<Seq<u8>>)
    ensures
        parser::joined(parameters(numbers)) == numbers.map_values(
            |digits: Seq<u8>| capped(value(digits)),
        ),
    decreases numbers.len(),
{
    let values = numbers.map_values(|digits: Seq<u8>| capped(value(digits)));
    if numbers.len() == 0 {
        assert(parser::joined(parameters(numbers)) =~= values);
    } else {
        the_numbers_of_parameters(numbers.drop_last());
        parameters_but_last(numbers);
        assert(parameters(numbers).drop_last() =~= parameters(numbers.drop_last()));
        assert(parser::joined(parameters(numbers)) =~= values);
    }
}

/// A control sequence that a screen is fed is performed on it with the numbers that it holds.
pub proof fn a_control_sequence_is_performed(
    s: ScreenState,
    mark: Option<u8>,
    numbers: Seq<Seq<u8>>,
    last: u8,
)
    requires
        mark matches Some(b) ==> 0x3c <= b <= 0x3f,
        1 <= numbers.len() <= 32,
        forall|i: int| 0 <= i < numbers.len() ==> is_number(#[trigger] numbers[i]),
        0x40 <= last <= 0x7e,
    ensures
        ({
            let marks = match mark {
                Some(b) => seq![b],
                None => seq![],
            };
            parser::screen_after(
                Machine::initial(),
                seq![],
                s,
                seq![0x1bu8, 0x5b] + marks + separated(numbers) + seq![last],
            ) == s.csi_dispatch(
                numbers.map_values(|digits: Seq<u8>| capped(value(digits))),
                marks,
                last as char,
            )
        }),
{
    let marks = match mark {
        Some(b) => seq![b],
        None => seq![],
    };
    a_control_sequence_is_found(Machine::initial(), mark, numbers, last);
    the_numbers_of_parameters(numbers);
    let action = Action::Csi {
        params: parameters(numbers),
        intermediates: marks,
        ignore: false,
        action: last as char,
    };
    reveal_with_fuel(ScreenState::perform_all, 2);
    reveal(ScreenState::perform);
    assert(seq![action].drop_last() =~= seq![]);
}

/// Numbers with colons between them.
pub open spec fn with_colons(texts: Seq<Seq<u8>>) -> Seq<u8>
    decreases texts.len(),
{
    if texts.len() == 0 {
        seq![]
    } else if texts.len() == 1 {
        texts[0]
    } else {
        with_colons(texts.drop_last()) + seq![0x3au8] + texts.last()
    }
}

/// The values of numbers.
pub open spec fn values(numbers: Seq<Seq<u8>>) -> Seq<u16> {
    numbers.map_values(|digits: Seq<u8>| capped(value(digits)))
}

proof fn sub_numbers_are_read(
    m: Machine,
    input: Seq<u8>,
    at: Machine,
    numbers: Seq<Seq<u8>>,
) -> (to: Machine)
    requires
        reads(m, input, seq![], at),
        at.state == State::CsiEntry || at.state == State::CsiParam,
        at.param == 0,
        at.params.len() == 0,
        at.count == 0,
        !at.ignoring,
        !at.subparam,
        1 <= numbers.len() <= 32,
        forall|i: int| 0 <= i < numbers.len() ==> is_number(#[trigger] numbers[i]),
    ensures
        reads(m, input + with_colons(numbers), seq![], to),
        to.state == State::CsiEntry || to.state == State::CsiParam,
        to.param == capped(value(numbers.last())),
        numbers.len() == 1 ==> to.params.len() == 0,
        numbers.len() > 1 ==> to.params == seq![values(numbers.drop_last())],
        to.count == numbers.len() - 1,
        to.intermediates == at.intermediates,
        !to.ignoring,
        to.subparam == (numbers.len() > 1),
    decreases numbers.len(),
{
    assert(is_number(numbers[numbers.len() - 1]));
    if numbers.len() == 1 {
        a_number_is_read(m, input, seq![], at, numbers[0])
    } else {
        let rest = numbers.drop_last();
        assert forall|i: int| 0 <= i < rest.len() implies is_number(#[trigger] rest[i]) by {
            assert(rest[i] == numbers[i]);
        }
        let mid = sub_numbers_are_read(m, input, at, rest);
        let so_far = input + with_colons(rest);
        one_more_byte(m, so_far, seq![], mid, 0x3a);
        reveal(Machine::step);
        let next = mid.step(0x3a).0;
        assert(Seq::<Action>::empty() + mid.step(0x3a).1 =~= seq![]);
        assert(values(rest) =~= values(rest.drop_last()).push(capped(value(rest.last()))));
        if rest.len() == 1 {
            assert(values(rest) =~= seq![capped(value(rest.last()))]);
        }
        assert(next.params =~= seq![values(rest)]);
        let to = a_number_is_read(m, so_far.push(0x3a), seq![], next, numbers.last());
        assert(so_far.push(0x3a) + numbers.last() =~= input + with_colons(numbers));
        to
    }
}

/// Numbers with colons between them are one parameter, of which each is a part.
pub proof fn parts_of_a_parameter_are_found(m: Machine, numbers: Seq<Seq<u8>>, last: u8)
    requires
        m.state == State::Ground,
        !m.subparam,
        2 <= numbers.len() <= 32,
        forall|i: int| 0 <= i < numbers.len() ==> is_number(#[trigger] numbers[i]),
        0x40 <= last <= 0x7e,
    ensures
        ansi_parser::run(
            m,
            seq![0x1bu8, 0x5b] + with_colons(numbers) + seq![last],
        ).actions == seq![
            Action::Csi {
                params: seq![values(numbers)],
                intermediates: seq![],
                ignore: false,
                action: last as char,
            },
        ],
{
    let start = seq![0x1bu8, 0x5b];
    let entry = a_sequence_starts(m, 0x5b);
    let read = sub_numbers_are_read(m, start, entry, numbers);
    let so_far = start + with_colons(numbers);
    one_more_byte(m, so_far, seq![], read, last);
    assert(so_far.push(last) =~= so_far + seq![last]);
    reveal(Machine::step);
    assert(values(numbers) =~= values(numbers.drop_last()).push(capped(value(numbers.last()))));
    assert(read.semicolon().params =~= seq![values(numbers)]);
    assert(read.intermediates =~= seq![]);
    assert(Seq::<Action>::empty() + read.step(last).1 =~= read.step(last).1);
}

/// An escape sequence: an escape, at most one intermediate from the space to the slash, and a final
/// character. Without an intermediate, the characters that start longer sequences are none.
pub proof fn an_escape_sequence_is_found(m: Machine, intermediate: Option<u8>, last: u8)
    requires
        m.state == State::Ground,
        intermediate matches Some(b) ==> 0x20 <= b <= 0x2f,
        0x30 <= last <= 0x7e,
        intermediate is None ==> last != 0x50 && last != 0x58 && last != 0x5b && last != 0x5d
            && last != 0x5e && last != 0x5f,
    ensures
        ({
            let between = match intermediate {
                Some(b) => seq![b],
                None => seq![],
            };
            let o = ansi_parser::run(m, seq![0x1bu8] + between + seq![last]);
            &&& o.actions == seq![
                Action::Esc { intermediates: between, ignore: false, byte: last },
            ]
            &&& o.machine.state == State::Ground
            &&& o.partial.len() == 0
        }),
{
    let esc = m.fresh().to(State::Escape);
    let start = seq![0x1bu8];
    assert(start.skip(1) =~= seq![]);
    reveal_with_fuel(ansi_parser::run, 2);
    assert(reads(m, start, seq![], esc));
    reveal(Machine::step);
    match intermediate {
        Some(b) => {
            one_more_byte(m, start, seq![], esc, b);
            let next = esc.step(b).0;
            assert(Seq::<Action>::empty() + esc.step(b).1 =~= seq![]);
            assert(next.intermediates =~= seq![b]);
            one_more_byte(m, start.push(b), seq![], next, last);
            assert(start.push(b).push(last) =~= start + seq![b] + seq![last]);
            assert(Seq::<Action>::empty() + next.step(last).1 =~= next.step(last).1);
        },
        None => {
            one_more_byte(m, start, seq![], esc, last);
            assert(start.push(last) =~= start + Seq::<u8>::empty() + seq![last]);
            assert(esc.intermediates =~= seq![]);
            assert(Seq::<Action>::empty() + esc.step(last).1 =~= esc.step(last).1);
        },
    }
}

/// Whether `text` can stand in an operating system command: no control and no semicolon.
pub open spec fn is_command_text(text: Seq<u8>) -> bool {
    forall|i: int| 0 <= i < text.len() ==> #[trigger] text[i] >= 0x20 && text[i] != 0x3b
}

/// Where each of `texts` ends when they stand one after another.
pub open spec fn ends_of(texts: Seq<Seq<u8>>) -> Seq<int> {
    Seq::new(texts.len(), |i: int| parser::joined(texts.take(i + 1)).len() as int)
}

proof fn ends_but_last(texts: Seq<Seq<u8>>)
    requires
        texts.len() > 0,
    ensures
        ends_of(texts) == ends_of(texts.drop_last()).push(parser::joined(texts).len() as int),
{
    let rest = texts.drop_last();
    assert(texts.take(texts.len() as int) =~= texts);
    assert forall|i: int| 0 <= i < rest.len() implies ends_of(texts)[i] == ends_of(rest)[i] by {
        assert(texts.take(i + 1) =~= rest.take(i + 1));
    }
    assert(ends_of(texts) =~= ends_of(rest).push(parser::joined(texts).len() as int));
}

/// The piece that stands at place `i` among pieces that end at `ends`.
spec fn piece(raw: Seq<u8>, ends: Seq<int>, i: int) -> Seq<u8> {
    raw.subrange(
        if i == 0 {
            0
        } else {
            ends[i - 1]
        },
        ends[i],
    )
}

proof fn a_text_is_cut_out(texts: Seq<Seq<u8>>, i: int)
    requires
        0 <= i < texts.len(),
    ensures
        piece(parser::joined(texts), ends_of(texts), i) == texts[i],
        0 <= ends_of(texts)[i] <= parser::joined(texts).len(),
        i > 0 ==> 0 <= ends_of(texts)[i - 1] <= ends_of(texts)[i],
    decreases texts.len(),
{
    let rest = texts.drop_last();
    let raw = parser::joined(texts);
    let less = parser::joined(rest);
    ends_but_last(texts);
    assert(raw == less + texts.last());
    if i < rest.len() {
        a_text_is_cut_out(rest, i);
        assert(piece(raw, ends_of(texts), i) =~= piece(less, ends_of(rest), i));
    } else {
        if i > 0 {
            ends_but_last(rest);
            assert(ends_of(rest)[i - 1] == less.len());
        } else {
            assert(less.len() == 0);
        }
        assert(piece(raw, ends_of(texts), i) =~= texts[i]);
    }
}

proof fn texts_are_cut_out(texts: Seq<Seq<u8>>)
    ensures
        ansi_parser::osc_params(parser::joined(texts), ends_of(texts)) == texts,
{
    let found = ansi_parser::osc_params(parser::joined(texts), ends_of(texts));
    assert forall|i: int| 0 <= i < texts.len() implies found[i] == texts[i] by {
        a_text_is_cut_out(texts, i);
    }
    assert(found =~= texts);
}

proof fn a_text_is_read(m: Machine, input: Seq<u8>, at: Machine, text: Seq<u8>) -> (to: Machine)
    requires
        reads(m, input, seq![], at),
        at.state == State::OscString,
        is_command_text(text),
        at.osc_raw.len() + text.len() <= 1024,
    ensures
        reads(m, input + text, seq![], to),
        to == (Machine { osc_raw: at.osc_raw + text, ..at }),
    decreases text.len(),
{
    if text.len() == 0 {
        assert(input + text =~= input);
        assert(at.osc_raw + text =~= at.osc_raw);
        at
    } else {
        let rest = text.drop_last();
        assert forall|i: int| 0 <= i < rest.len() implies #[trigger] rest[i] >= 0x20 && rest[i]
            != 0x3b by {
            assert(rest[i] == text[i]);
        }
        let mid = a_text_is_read(m, input, at, rest);
        let byte = text.last();
        assert(text[text.len() - 1] >= 0x20 && byte != 0x3b);
        one_more_byte(m, input + rest, seq![], mid, byte);
        assert((input + rest).push(byte) =~= input + text);
        reveal(Machine::step);
        assert(Seq::<Action>::empty() + mid.step(byte).1 =~= seq![]);
        assert(mid.osc_raw.push(byte) =~= at.osc_raw + text);
        mid.step(byte).0
    }
}

proof fn texts_are_read(m: Machine, input: Seq<u8>, at: Machine, texts: Seq<Seq<u8>>) -> (to: Machine)
    requires
        reads(m, input, seq![], at),
        at.state == State::OscString,
        at.osc_raw.len() == 0,
        at.osc_ends.len() == 0,
        1 <= texts.len() <= 16,
        parser::joined(texts).len() <= 1024,
        forall|i: int| 0 <= i < texts.len() ==> is_command_text(#[trigger] texts[i]),
    ensures
        reads(m, input + separated(texts), seq![], to),
        to.state == State::OscString,
        to.osc_raw == parser::joined(texts),
        to.osc_ends == ends_of(texts.drop_last()),
    decreases texts.len(),
{
    assert(is_command_text(texts[texts.len() - 1]));
    let rest = texts.drop_last();
    if texts.len() == 1 {
        reveal_with_fuel(parser::joined, 2);
        assert(rest =~= seq![]);
        assert(parser::joined(texts) =~= texts[0]);
        let to = a_text_is_read(m, input, at, texts[0]);
        assert(to.osc_raw =~= texts[0]);
        assert(to.osc_ends =~= ends_of(rest));
        to
    } else {
        assert forall|i: int| 0 <= i < rest.len() implies is_command_text(#[trigger] rest[i]) by {
            assert(rest[i] == texts[i]);
        }
        let mid = texts_are_read(m, input, at, rest);
        let so_far = input + separated(rest);
        one_more_byte(m, so_far, seq![], mid, 0x3b);
        reveal(Machine::step);
        let next = mid.step(0x3b).0;
        assert(Seq::<Action>::empty() + mid.step(0x3b).1 =~= seq![]);
        ends_but_last(rest);
        assert(next.osc_ends == ends_of(rest));
        let to = a_text_is_read(m, so_far.push(0x3b), next, texts.last());
        assert(so_far.push(0x3b) + texts.last() =~= input + separated(texts));
        to
    }
}

/// An operating system command: an escape, a closing bracket, up to sixteen texts with semicolons
/// between them, of 1024 bytes together at most, and a bell or an escape that ends it. It is found
/// with its texts, and with whether a bell ended it. What follows an escape is a sequence of its
/// own.
pub proof fn a_command_is_found(m: Machine, texts: Seq<Seq<u8>>)
    requires
        m.state == State::Ground,
        1 <= texts.len() <= 16,
        parser::joined(texts).len() <= 1024,
        forall|i: int| 0 <= i < texts.len() ==> is_command_text(#[trigger] texts[i]),
    ensures
        ({
            let start = seq![0x1bu8, 0x5d] + separated(texts);
            let bell = ansi_parser::run(m, start + seq![0x07u8]);
            let st = ansi_parser::run(m, start + seq![0x1bu8, 0x5c]);
            &&& bell.actions == seq![Action::Osc { params: texts, bell_terminated: true }]
            &&& bell.machine.state == State::Ground
            &&& st.actions == seq![
                Action::Osc { params: texts, bell_terminated: false },
                Action::Esc { intermediates: seq![], ignore: false, byte: 0x5c },
            ]
            &&& st.machine.state == State::Ground
        }),
{
    let first = seq![0x1bu8, 0x5d];
    let entry = a_sequence_starts(m, 0x5d);
    let read = texts_are_read(m, first, entry, texts);
    let so_far = first + separated(texts);
    texts_are_cut_out(texts);
    ends_but_last(texts);
    reveal(Machine::step);
    one_more_byte(m, so_far, seq![], read, 0x07);
    assert(so_far.push(0x07) =~= so_far + seq![0x07u8]);
    assert(Seq::<Action>::empty() + read.step(0x07).1 =~= read.step(0x07).1);
    one_more_byte(m, so_far, seq![], read, 0x1b);
    let found = seq![read.osc(false)];
    assert(Seq::<Action>::empty() + read.step(0x1b).1 =~= found);
    let esc = read.step(0x1b).0;
    one_more_byte(m, so_far.push(0x1b), found, esc, 0x5c);
    assert(so_far.push(0x1b).push(0x5c) =~= so_far + seq![0x1bu8, 0x5c]);
    assert(esc.intermediates =~= seq![]);
    assert(found + esc.step(0x5c).1 =~= seq![
        Action::Osc { params: texts, bell_terminated: false },
        Action::Esc { intermediates: seq![], ignore: false, byte: 0x5c },
    ]);
}

/// A cancel or a substitute ends any sequence, and is executed.
pub proof fn any_sequence_is_cancelled(m: Machine, byte: u8)
    requires
        m.state != State::Ground,
        byte == 0x18 || byte == 0x1a,
    ensures
        m.step(byte).0.state == State::Ground,
        m.step(byte).1.len() > 0,
        m.step(byte).1.last() == Action::Execute(byte),
        m.state != State::OscString && m.state != State::DcsPassthrough ==> m.step(byte).1.len()
            == 1,
{
    reveal(Machine::step);
}

/// An escape starts a new sequence in the midst of any other, of which nothing is left.
pub proof fn an_escape_starts_anew(m: Machine)
    requires
        m.state != State::Ground,
        m.state != State::Escape,
    ensures
        ({
            let t = m.step(0x1b).0;
            &&& t.state == State::Escape
            &&& t.params.len() == 0 && t.count == 0 && t.param == 0
            &&& t.intermediates.len() == 0
            &&& !t.ignoring
        }),
{
    reveal(Machine::step);
}

/// A control character in the midst of an escape sequence or a control sequence is executed, and
/// the sequence goes on.
pub proof fn controls_do_not_end_a_sequence(m: Machine, byte: u8)
    requires
        m.state == State::Escape || m.state == State::EscapeIntermediate || m.state
            == State::CsiEntry || m.state == State::CsiParam || m.state == State::CsiIntermediate
            || m.state == State::CsiIgnore,
        byte < 0x20,
        byte != 0x18 && byte != 0x1a && byte != 0x1b,
    ensures
        m.step(byte) == (m, seq![Action::Execute(byte)]),
{
    reveal(Machine::step);
}

/// A device control string and the other strings change nothing on a screen, and a control sequence
/// that is malformed is passed over without a trace.
pub proof fn strings_change_nothing(s: ScreenState, m: Machine, action: Action, byte: u8)
    ensures
        action is Hook || action is Put || action is Unhook ==> s.perform(action) == s,
        m.state == State::SosPmApcString && 0x1c <= byte ==> m.step(byte) == (m, Seq::<Action>::empty()),
        m.state == State::DcsIgnore && 0x1c <= byte ==> m.step(byte) == (m, Seq::<Action>::empty()),
        m.state == State::CsiIgnore && 0x40 <= byte <= 0x7e ==> m.step(byte) == (
            m.to(State::Ground),
            Seq::<Action>::empty(),
        ),
        m.state == State::CsiIgnore && (0x20 <= byte < 0x40 || byte > 0x7e) ==> m.step(byte) == (
            m,
            Seq::<Action>::empty(),
        ),
        m.state == State::DcsPassthrough && 0x20 <= byte <= 0x7e ==> m.step(byte) == (
            m,
            seq![Action::Put(byte)],
        ),
{
    reveal(ScreenState::perform);
    reveal(Machine::step);
}

/// A control character among text is executed, be it one of the first or of the second set, and any
/// other character printed.
pub proof fn text_is_printed_and_controls_executed(c: char)
    ensures
        (c as u32) < 0x20 || 0x80 <= (c as u32) < 0xa0 ==> ansi_parser::text_action(c)
            == Action::Execute(c as u8),
        0x20 <= (c as u32) < 0x80 || 0xa0 <= (c as u32) ==> ansi_parser::text_action(c)
            == Action::Print(c),
{
}

/// A malformed sequence among text is printed as one replacement character, unless it is a lone
/// byte of the second set of controls, which is executed. What follows is read as if it had not
/// been there.
pub proof fn malformed_text_is_replaced(m: Machine, input: Seq<u8>)
    requires
        m.state == State::Ground,
        input.len() > 0,
    ensures
        utf8::front(input) matches Decoded::Invalid { len } ==> {
            let rest = ansi_parser::run(m, input.skip(len as int));
            let o = ansi_parser::run(m, input);
            &&& o.actions.len() == rest.actions.len() + 1
            &&& o.actions.skip(1) == rest.actions
            &&& o.actions[0] == if len == 1 && input[0] < 0xa0 {
                Action::Execute(input[0])
            } else {
                Action::Print(0xfffdu32 as char)
            }
            &&& (o.machine, o.partial) == (rest.machine, rest.partial)
        },
{
    utf8::front_bounds(input);
    utf8::well_formed_front(input);
    if let Decoded::Invalid { len } = utf8::front(input) {
        let rest = ansi_parser::run(m, input.skip(len as int));
        let o = ansi_parser::run(m, input);
        assert(o.actions.skip(1) =~= rest.actions);
    }
}

/// A control sequence may hold an intermediate, from the space to the slash, before its final
/// character: it is collected behind the mark.
pub proof fn an_intermediate_is_found(
    m: Machine,
    mark: Option<u8>,
    numbers: Seq<Seq<u8>>,
    intermediate: u8,
    last: u8,
)
    requires
        m.state == State::Ground,
        !m.subparam,
        mark matches Some(b) ==> 0x3c <= b <= 0x3f,
        1 <= numbers.len() <= 32,
        forall|i: int| 0 <= i < numbers.len() ==> is_number(#[trigger] numbers[i]),
        0x20 <= intermediate <= 0x2f,
        0x40 <= last <= 0x7e,
    ensures
        ({
            let marks = match mark {
                Some(b) => seq![b],
                None => seq![],
            };
            let o = ansi_parser::run(
                m,
                seq![0x1bu8, 0x5b] + marks + separated(numbers) + seq![intermediate, last],
            );
            &&& o.actions == seq![
                Action::Csi {
                    params: parameters(numbers),
                    intermediates: marks.push(intermediate),
                    ignore: false,
                    action: last as char,
                },
            ]
            &&& o.machine.state == State::Ground
        }),
{
    let marks = match mark {
        Some(b) => seq![b],
        None => seq![],
    };
    let start = seq![0x1bu8, 0x5b];
    let read = a_sequence_is_read(m, mark, numbers);
    let so_far = start + marks + separated(numbers);
    reveal(Machine::step);
    one_more_byte(m, so_far, seq![], read, intermediate);
    let next = read.step(intermediate).0;
    assert(Seq::<Action>::empty() + read.step(intermediate).1 =~= seq![]);
    one_more_byte(m, so_far.push(intermediate), seq![], next, last);
    assert(so_far.push(intermediate).push(last) =~= so_far + seq![intermediate, last]);
    parameters_but_last(numbers);
    assert(next.semicolon().params == parameters(numbers));
    assert(Seq::<Action>::empty() + next.step(last).1 =~= next.step(last).1);
}

/// A mark that does not stand first, and a parameter behind an intermediate, spoil a control
/// sequence: it is passed over to its end.
pub proof fn a_sequence_is_spoilt(m: Machine, byte: u8)
    requires
        m.state == State::CsiParam && 0x3e <= byte <= 0x3f || m.state == State::CsiIntermediate
            && 0x30 <= byte <= 0x3f,
    ensures
        m.step(byte) == (m.to(State::CsiIgnore), Seq::<Action>::empty()),
{
    reveal(Machine::step);
}

/// Parameters beyond the thirty-second and intermediates beyond the second are dropped, and the
/// sequence is marked as one that holds too many.
pub proof fn what_is_too_much_is_dropped(m: Machine, byte: u8)
    requires
        m.wf(),
    ensures
        m.state == State::CsiParam && m.count == 32 && (byte == 0x3b || 0x40 <= byte <= 0x7e) ==> {
            let t = m.step(byte).0;
            t.params == m.params && t.count == 32 && t.ignoring
        },
        m.state == State::CsiIntermediate && m.intermediates.len() == 2 && 0x20 <= byte <= 0x2f ==> {
            let t = m.step(byte).0;
            t.intermediates == m.intermediates && t.ignoring
        },
        m.state == State::OscString && m.osc_raw.len() == 1024 && byte != 0x3b && byte >= 0x20
            ==> m.step(byte).0 == m,
        m.state == State::OscString && m.osc_ends.len() == 16 && byte == 0x3b ==> m.step(byte).0
            == m,
{
    reveal(Machine::step);
}

/// A device control string is introduced as a control sequence is: the same bytes make the same
/// parameters and intermediates of it.
pub proof fn device_strings_are_introduced_alike(m: Machine, byte: u8)
    ensures
        0x20 <= byte <= 0x3f ==> {
            let c = m.to(State::CsiEntry).step(byte);
            let d = m.to(State::DcsEntry).step(byte);
            &&& d.1 == c.1
            &&& d.0.to(c.0.state) == c.0
            &&& d.0.state == if byte < 0x30 {
                State::DcsIntermediate
            } else {
                State::DcsParam
            }
        },
        0x20 <= byte <= 0x3b || 0x3e <= byte <= 0x3f ==> {
            let c = m.to(State::CsiParam).step(byte);
            let d = m.to(State::DcsParam).step(byte);
            &&& d.1 == c.1
            &&& d.0.to(c.0.state) == c.0
            &&& c.0.state == State::CsiIgnore <==> d.0.state == State::DcsIgnore
        },
        0x20 <= byte <= 0x3f ==> {
            let c = m.to(State::CsiIntermediate).step(byte);
            let d = m.to(State::DcsIntermediate).step(byte);
            &&& d.1 == c.1
            &&& d.0.to(c.0.state) == c.0
            &&& c.0.state == State::CsiIgnore <==> d.0.state == State::DcsIgnore
        },
        0x40 <= byte <= 0x7e && !m.subparam ==> {
            let c = m.to(State::CsiParam).step(byte);
            let d = m.to(State::DcsParam).step(byte);
            &&& d.0.state == State::DcsPassthrough
            &&& d.1.len() == 1
            &&& c.1 == seq![
                Action::Csi {
                    params: d.1[0]->Hook_params,
                    intermediates: d.1[0]->Hook_intermediates,
                    ignore: d.1[0]->Hook_ignore,
                    action: d.1[0]->Hook_action,
                },
            ]
            &&& d.1[0] is Hook
            &&& m.to(State::DcsEntry).step(byte) == d
            &&& m.to(State::DcsIntermediate).step(byte) == d
        },
{
    reveal(Machine::step);
}

/// What a device control string is for is told when it starts, and that it ends whatever ends it:
/// an escape, the string terminator, or a control that cancels it.
pub proof fn a_device_string_ends(m: Machine)
    requires
        m.state == State::DcsPassthrough,
    ensures
        m.step(0x1b).0.state == State::Escape,
        m.step(0x1b).1 == seq![Action::Unhook],
        m.step(0x9c) == (m.to(State::Ground), seq![Action::Unhook]),
        m.step(0x18) == (m.to(State::Ground), seq![Action::Unhook, Action::Execute(0x18)]),
        m.step(0x1a) == (m.to(State::Ground), seq![Action::Unhook, Action::Execute(0x1a)]),
        forall|b: u8|
            #![trigger m.step(b)]
            b < 0x18 || b == 0x19 || 0x1c <= b <= 0x7e ==> m.step(b) == (m, seq![Action::Put(b)]),
{
    reveal(Machine::step);
}

/// Behind an escape, `P` starts a device control string without parameters, and `X`, `^` and `_`
/// start strings that are passed over.
pub proof fn the_strings_that_an_escape_starts(m: Machine, byte: u8)
    requires
        m.state == State::Escape,
    ensures
        byte == 0x58 || byte == 0x5e || byte == 0x5f <==> m.step(byte).0.state
            == State::SosPmApcString,
        m.step(byte).0.state == State::DcsEntry <==> byte == 0x50,
        m.step(byte).0.state == State::CsiEntry <==> byte == 0x5b,
        m.step(byte).0.state == State::OscString <==> byte == 0x5d,
        byte == 0x50 ==> m.step(byte).0.params.len() == 0 && m.step(byte).0.intermediates.len()
            == 0,
        byte == 0x50 || byte == 0x58 || byte == 0x5b || byte == 0x5d || byte == 0x5e || byte == 0x5f
            ==> m.step(byte).1.len() == 0,
{
    reveal(Machine::step);
}

/// Actions are performed one after another.
pub proof fn actions_are_performed_in_order(s: ScreenState, a: Seq<Action>, b: Seq<Action>)
    ensures
        s.perform_all(a + b) == s.perform_all(a).perform_all(b),
        a.len() == 1 ==> s.perform_all(a) == s.perform(a[0]),
    decreases b.len(),
{
    if a.len() == 1 {
        reveal_with_fuel(ScreenState::perform_all, 2);
        assert(a.drop_last() =~= seq![]);
    }
    if b.len() == 0 {
        assert(a + b =~= a);
    } else {
        assert((a + b).drop_last() =~= a + b.drop_last());
        actions_are_performed_in_order(s, a, b.drop_last());
    }
}

/// A control sequence whose final character is none of those that are known changes nothing, and
/// neither do such an escape sequence, such a control and such a command.
pub proof fn what_is_unknown_changes_nothing(
    s: ScreenState,
    params: Seq<u16>,
    intermediates: Seq<u8>,
    last: char,
    byte: u8,
    texts: Seq<Seq<u8>>,
)
    ensures
        !("ABCDEFGHJKLMPSTXacdefghlmnqrsu@8"@.contains(last)) ==> s.csi_dispatch(
            params,
            intermediates,
            last,
        ) == s,
        intermediates != seq![0x20u8] ==> s.csi_dispatch(params, intermediates, 'q') == s,
        intermediates.len() == 0 && !(byte == 0x37 || byte == 0x38 || byte == 0x3d || byte == 0x3e
            || byte == 0x44 || byte == 0x45 || byte == 0x48 || byte == 0x4d || byte == 0x5a)
            ==> s.esc(intermediates, byte) == s,
        intermediates.len() > 1 ==> s.esc(intermediates, byte) == s,
        intermediates.len() == 1 && intermediates[0] != 0x28 && intermediates[0] != 0x29 && !(
        intermediates[0] == 0x23 && byte == 0x38) && intermediates[0] < 0x80 ==> s.esc(
            intermediates,
            byte,
        ) == s,
        byte < 0x07 || 0x10 <= byte ==> s.execute(byte) == s,
        texts.len() == 0 ==> s.osc(texts) == s,
        texts.len() > 0 && texts[0] != seq![0x30u8] && texts[0] != seq![0x31u8] && texts[0]
            != seq![0x32u8] && texts[0] != seq![0x37u8] && texts[0] != seq![0x39u8] && texts[0]
            != seq![0x6cu8] ==> s.osc(texts) == s,
{
    reveal(ScreenState::csi_dispatch);
    reveal(ScreenState::esc);
    reveal(ScreenState::execute);
    reveal(ScreenState::osc);
    reveal_strlit("ABCDEFGHJKLMPSTXacdefghlmnqrsu@8");
    let known = "ABCDEFGHJKLMPSTXacdefghlmnqrsu@8"@;
    if !known.contains(last) {
        assert forall|i: int| 0 <= i < known.len() implies known[i] != last by {
            assert(known.contains(known[i]));
        }
        assert(known[0] != last && known[1] != last && known[2] != last && known[3] != last);
        assert(known[4] != last && known[5] != last && known[6] != last && known[7] != last);
        assert(known[8] != last && known[9] != last && known[10] != last && known[11] != last);
        assert(known[12] != last && known[13] != last && known[14] != last && known[15] != last);
        assert(known[16] != last && known[17] != last && known[18] != last && known[19] != last);
        assert(known[20] != last && known[21] != last && known[22] != last && known[23] != last);
        assert(known[24] != last && known[25] != last && known[26] != last && known[27] != last);
        assert(known[28] != last && known[29] != last && known[30] != last && known[31] != last);
    }
    if intermediates.len() == 1 && intermediates[0] < 0x80 {
        let target = intermediates[0] as char;
        assert(target == '(' <==> intermediates[0] == 0x28);
        assert(target == ')' <==> intermediates[0] == 0x29);
    }
}

/// What is performed: text is drawn, a control executed, a control sequence dispatched with all of
/// its numbers, and an escape sequence and a command each for itself.
pub proof fn actions_are_performed(
    s: ScreenState,
    c: char,
    byte: u8,
    params: Seq<Seq<u16>>,
    texts: Seq<Seq<u8>>,
    intermediates: Seq<u8>,
    flag: bool,
)
    ensures
        s.perform(Action::Print(c)) == s.draw_char(c),
        s.perform(Action::Execute(byte)) == s.execute(byte),
        s.perform(Action::Osc { params: texts, bell_terminated: flag }) == s.osc(texts),
        s.perform(Action::Csi { params, intermediates, ignore: flag, action: c })
            == s.csi_dispatch(parser::joined(params), intermediates, c),
        s.perform(Action::Esc { intermediates, ignore: flag, byte }) == s.esc(
            intermediates,
            byte,
        ),
{
    reveal(ScreenState::perform);
}

} // verus!
