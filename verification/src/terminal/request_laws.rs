//! What is promised of titles, the working directory and the keyboard modes: what each request
//! changes, what it is answered, and what the log tells of it.
use super::cwd;
use super::edit_laws;
use super::events;
use super::events::{Happening, TermEvent};
use super::parser;
use super::state::{KeyboardApplyBehavior, ScreenState};
use crate::text;
use crate::utf8;
use vstd::prelude::*;

verus! {

/// Whether `t` is `s` with the icon name, the title or both set, in this order in the log, and
/// nothing else changed.
pub open spec fn named(
    s: ScreenState,
    icon: Option<Seq<char>>,
    title: Option<Seq<char>>,
    t: ScreenState,
) -> bool {
    let first = match icon {
        Some(n) => events::logged(s.events, Happening::IconChanged(n)),
        None => s.events,
    };
    let both = match title {
        Some(n) => events::logged(first, Happening::TitleChanged(n)),
        None => first,
    };
    &&& t == ScreenState { icon_name: t.icon_name, title: t.title, events: both, ..s }
    &&& t.icon_name == match icon {
        Some(n) => n,
        None => s.icon_name,
    }
    &&& t.title == match title {
        Some(n) => n,
        None => s.title,
    }
}

/// An operating system command 0 sets the icon name and the title, 1 the icon name alone, and 2
/// the title alone, to the text that follows. Semicolons in it do not count. The command `l` sets
/// the icon name to its first text and the title to its second.
pub proof fn the_commands_that_set_names(s: ScreenState, texts: Seq<Seq<u8>>)
    ensures
        ({
            let name = utf8::lossy(parser::joined(texts));
            &&& named(s, Some(name), Some(name), s.osc(seq![seq![0x30u8]] + texts))
            &&& named(s, Some(name), None, s.osc(seq![seq![0x31u8]] + texts))
            &&& named(s, None, Some(name), s.osc(seq![seq![0x32u8]] + texts))
            &&& texts.len() >= 2 ==> named(
                s,
                Some(utf8::lossy(texts[0])),
                Some(utf8::lossy(texts[1])),
                s.osc(seq![seq![0x6cu8]] + texts),
            )
        }),
{
    reveal(ScreenState::osc);
    let p0 = seq![seq![0x30u8]] + texts;
    let p1 = seq![seq![0x31u8]] + texts;
    let p2 = seq![seq![0x32u8]] + texts;
    let pl = seq![seq![0x6cu8]] + texts;
    assert(p0.skip(1) =~= texts && p1.skip(1) =~= texts && p2.skip(1) =~= texts);
    assert(p0[0] == seq![0x30u8] && p1[0] == seq![0x31u8] && p2[0] == seq![0x32u8] && pl[0]
        == seq![0x6cu8]);
    assert(seq![0x30u8][0] == 0x30 && seq![0x31u8][0] == 0x31 && seq![0x32u8][0] == 0x32
        && seq![0x6cu8][0] == 0x6c);
    if texts.len() >= 2 {
        assert(pl[1] == texts[0] && pl[2] == texts[1]);
    }
}

/// Texts that follow each other are one text: each of them in order, without anything between.
pub proof fn texts_are_joined<T>(parts: Seq<Seq<T>>, last: Seq<T>)
    ensures
        parser::joined(parts.push(last)) == parser::joined(parts) + last,
        parser::joined(seq![last]) == last,
        parser::joined(Seq::<Seq<T>>::empty()).len() == 0,
{
    assert(parts.push(last).drop_last() =~= parts);
    reveal_with_fuel(parser::joined, 2);
    assert(seq![last].drop_last() =~= seq![]);
    assert(parser::joined(seq![last]) =~= last);
}

/// Whether `t` is `s` with the working directory `path`: the log tells of it where it changed, and
/// nothing else changes.
pub open spec fn works_in(s: ScreenState, path: Seq<char>, t: ScreenState) -> bool {
    if s.cwd == Some(path) {
        t == s
    } else {
        t == ScreenState {
            cwd: Some(path),
            events: events::logged(s.events, Happening::CwdChanged(path)),
            ..s
        }
    }
}

/// The commands 7, and 9 followed by 9, report a working directory, as a `file:` URI and as a
/// path. It is taken over where it is well-formed.
pub proof fn the_commands_that_report_a_directory(s: ScreenState, payload: Seq<u8>)
    ensures
        cwd::osc7_path(payload) matches Some(path) ==> works_in(
            s,
            path,
            s.osc(seq![seq![0x37u8], payload]),
        ),
        cwd::path_text(payload) matches Some(path) ==> works_in(
            s,
            path,
            s.osc(seq![seq![0x39u8], seq![0x39u8], payload]),
        ),
        cwd::osc7_path(payload) is None ==> s.osc(seq![seq![0x37u8], payload]) == s,
        cwd::path_text(payload) is None ==> s.osc(seq![seq![0x39u8], seq![0x39u8], payload]) == s,
{
    reveal(ScreenState::osc);
    let unix = seq![seq![0x37u8], payload];
    let windows = seq![seq![0x39u8], seq![0x39u8], payload];
    assert(unix[0][0] == 0x37u8);
    assert(windows[0][0] == 0x39u8);
    assert(seq![0x30u8][0] == 0x30 && seq![0x31u8][0] == 0x31 && seq![0x32u8][0] == 0x32
        && seq![0x6cu8][0] == 0x6c && seq![0x37u8][0] == 0x37);
}

/// A command that lacks a text that it needs changes nothing, and neither does one of the kind 9
/// that is not of its ninth sort. Texts beyond those that a report of a directory needs are passed
/// over.
pub proof fn commands_need_their_texts(s: ScreenState, texts: Seq<Seq<u8>>)
    requires
        texts.len() > 0,
    ensures
        texts[0] == seq![0x37u8] && texts.len() < 2 ==> s.osc(texts) == s,
        texts[0] == seq![0x39u8] && (texts.len() < 3 || texts[1] != seq![0x39u8]) ==> s.osc(texts)
            == s,
        texts[0] == seq![0x6cu8] && texts.len() < 3 ==> s.osc(texts) == s,
        texts[0] == seq![0x37u8] && texts.len() >= 2 ==> s.osc(texts) == s.osc(texts.take(2)),
        texts[0] == seq![0x39u8] && texts.len() >= 3 ==> s.osc(texts) == s.osc(texts.take(3)),
        texts[0] == seq![0x6cu8] && texts.len() >= 3 ==> s.osc(texts) == s.osc(texts.take(3)),
{
    reveal(ScreenState::osc);
    assert(seq![0x37u8][0] == 0x37 && seq![0x39u8][0] == 0x39 && seq![0x6cu8][0] == 0x6c);
    assert(seq![0x30u8][0] == 0x30 && seq![0x31u8][0] == 0x31 && seq![0x32u8][0] == 0x32);
}

/// A bare path is taken as it is: text that is not empty and holds no zero.
pub proof fn a_bare_path_is_taken_as_it_is(path: Seq<char>)
    requires
        path.len() > 0,
        !vstd::utf8::encode_utf8(path).contains(0),
    ensures
        cwd::path_text(vstd::utf8::encode_utf8(path)) == Some(path),
{
    utf8::well_formed_text_is_kept(path);
    vstd::utf8::encode_utf8_decode_utf8(path);
}

/// A path with an empty text or a zero in it is none. Any other one is the text that its bytes
/// encode, and none where they encode no text.
pub proof fn a_path_with_a_zero_is_none(path: Seq<u8>, i: int)
    ensures
        cwd::path_text(path) matches Some(text) ==> vstd::utf8::encode_utf8(text) == path,
        cwd::path_text(path) is None ==> path.len() == 0 || path.contains(0)
            || !vstd::utf8::valid_utf8(path),
        cwd::path_text(seq![]) is None,
        0 <= i < path.len() && path[i] == 0 ==> cwd::path_text(path) is None,
{
    if vstd::utf8::valid_utf8(path) {
        vstd::utf8::decode_utf8_encode_utf8(path);
    }
}

/// A percent sign with two hexadecimal digits stands for the byte of that value, in either case of
/// letters; what is around it is decoded for itself.
pub proof fn percent_signs_are_decoded(front: Seq<u8>, high: u8, low: u8, rest: Seq<u8>)
    requires
        !front.contains(0x25),
    ensures
        ({
            let all = front + seq![0x25u8, high, low] + rest;
            match (digit_value(high), digit_value(low), cwd::percent_decoded(rest)) {
                (Some(h), Some(l), Some(tail)) => cwd::percent_decoded(all) == Some(
                    front + seq![(16 * h + l) as u8] + tail,
                ),
                _ => cwd::percent_decoded(all) is None,
            }
        }),
    decreases front.len(),
{
    let all = front + seq![0x25u8, high, low] + rest;
    if front.len() == 0 {
        assert(all[0] == 0x25 && all[1] == high && all[2] == low);
        assert(all.skip(3) =~= rest);
        if let Some(tail) = cwd::percent_decoded(rest) {
            if let Some(h) = digit_value(high) {
                if let Some(l) = digit_value(low) {
                    assert(front + seq![(16 * h + l) as u8] + tail =~= seq![(16 * h + l) as u8]
                        + tail);
                }
            }
        }
    } else {
        let less = front.skip(1);
        assert forall|i: int| 0 <= i < less.len() implies less[i] != 0x25 by {
            assert(front.contains(front[i + 1]));
        }
        percent_signs_are_decoded(less, high, low, rest);
        assert(front.contains(front[0]));
        assert(all[0] == front[0]);
        assert(all.skip(1) =~= less + seq![0x25u8, high, low] + rest);
        if let Some(tail) = cwd::percent_decoded(rest) {
            if let Some(h) = digit_value(high) {
                if let Some(l) = digit_value(low) {
                    let b = (16 * h + l) as u8;
                    assert(front + seq![b] + tail =~= seq![front[0]] + (less + seq![b] + tail));
                }
            }
        }
    }
}

/// The value of a hexadecimal digit: its place in `0` to `9`, `a` to `f` or `A` to `F`.
pub open spec fn digit_value(b: u8) -> Option<int> {
    if '0' as u32 <= b <= '9' as u32 {
        Some(b - '0' as u32)
    } else if 'a' as u32 <= b <= 'f' as u32 {
        Some(b - 'a' as u32 + 10)
    } else if 'A' as u32 <= b <= 'F' as u32 {
        Some(b - 'A' as u32 + 10)
    } else {
        None
    }
}

/// A `file:` URI names what follows its host: the path from the first slash after `file://` on.
/// The host may be empty. The slash before a drive letter is no part of the path.
pub proof fn a_uri_names_its_path(host: Seq<u8>, path: Seq<u8>)
    requires
        forall|i: int| 0 <= i < host.len() ==> #[trigger] host[i] != 0x2f,
        path.len() > 0,
        path[0] == 0x2f,
        !path.contains(0x25),
        !path.contains(0),
        utf8::strict(path) is Some,
    ensures
        ({
            let uri = seq![0x66u8, 0x69, 0x6c, 0x65, 0x3a, 0x2f, 0x2f] + host + path;
            let letter = path.len() >= 3 && path[2] == 0x3a && (0x41 <= path[1] <= 0x5a || 0x61
                <= path[1] <= 0x7a);
            cwd::osc7_path(uri) == Some(
                if letter {
                    utf8::strict(path)->0.skip(1)
                } else {
                    utf8::strict(path)->0
                },
            )
        }),
{
    let scheme = seq![0x66u8, 0x69, 0x6c, 0x65, 0x3a, 0x2f, 0x2f];
    let uri = scheme + host + path;
    assert forall|i: int| 0 <= i < 7 implies cwd::ascii_lower(#[trigger] uri[i]) == cwd::SCHEME[i]
        by {
        assert(uri[i] == scheme[i]);
        assert(scheme[i] == cwd::SCHEME[i]);
    }
    assert(uri.skip(7) =~= host + path);
    the_first_slash_is_found(host, path);
    cwd::plain_paths_are_kept(path);
}

proof fn the_first_slash_is_found(host: Seq<u8>, path: Seq<u8>)
    requires
        forall|i: int| 0 <= i < host.len() ==> #[trigger] host[i] != 0x2f,
        path.len() > 0,
        path[0] == 0x2f,
    ensures
        cwd::from_first_slash(host + path) == Some(path),
    decreases host.len(),
{
    if host.len() == 0 {
        assert(host + path =~= path);
    } else {
        assert((host + path)[0] == host[0]);
        assert((host + path).skip(1) =~= host.skip(1) + path);
        the_first_slash_is_found(host.skip(1), path);
    }
}

/// Without the scheme `file://`, in any case of its letters, or without a slash behind it, a
/// payload names no path.
pub proof fn other_payloads_name_no_path(payload: Seq<u8>)
    ensures
        payload.len() < 8 ==> cwd::osc7_path(payload) is None,
        payload.len() >= 7 && (payload[0] != 0x66 && payload[0] != 0x46 || payload[1] != 0x69
            && payload[1] != 0x49 || payload[2] != 0x6c && payload[2] != 0x4c || payload[3] != 0x65
            && payload[3] != 0x45 || payload[4] != 0x3a || payload[5] != 0x2f || payload[6]
            != 0x2f) ==> cwd::osc7_path(payload) is None,
{
    reveal_with_fuel(cwd::from_first_slash, 2);
    if payload.len() == 7 {
        assert(payload.skip(7).len() == 0);
    }
    if payload.len() >= 7 && cwd::has_scheme(payload) {
        assert(cwd::ascii_lower(payload[0]) == cwd::SCHEME[0]);
        assert(cwd::ascii_lower(payload[1]) == cwd::SCHEME[1]);
        assert(cwd::ascii_lower(payload[2]) == cwd::SCHEME[2]);
        assert(cwd::ascii_lower(payload[3]) == cwd::SCHEME[3]);
        assert(cwd::ascii_lower(payload[4]) == cwd::SCHEME[4]);
        assert(cwd::ascii_lower(payload[5]) == cwd::SCHEME[5]);
        assert(cwd::ascii_lower(payload[6]) == cwd::SCHEME[6]);
    }
}

/// The keyboard requests. With a question mark the mode is reported. With `>` a mode is pushed on
/// the stack, 0 where none is given. With `<` so many are popped, one where no number is given.
/// Without a mark, a mode and a zero set the mode.
pub proof fn the_keyboard_requests(s: ScreenState, params: Seq<u16>)
    ensures
        s.csi_dispatch(params, seq![0x3fu8], 'u') == s.report_keyboard_mode(),
        s.csi_dispatch(params, seq![0x3eu8], 'u') == s.push_keyboard_mode(
            if params.len() > 0 {
                params[0]
            } else {
                0
            },
        ),
        s.csi_dispatch(params, seq![0x3cu8], 'u') == s.pop_keyboard_modes(
            edit_laws::given(params, 0, 1),
        ),
        params.len() >= 2 && params[1] == 0 ==> {
            let t = s.csi_dispatch(params, seq![], 'u');
            let how = edit_laws::given(params, 2, 0);
            &&& t == ScreenState { keyboard_mode: t.keyboard_mode, ..s }
            &&& how == 2 ==> t.keyboard_mode == s.keyboard_mode | params[0]
            &&& how == 3 ==> t.keyboard_mode == s.keyboard_mode & !params[0]
            &&& how != 2 && how != 3 ==> t.keyboard_mode == params[0]
        },
{
    reveal(ScreenState::csi_dispatch);
    reveal(ScreenState::csi_u);
    let none: Seq<u8> = seq![];
    assert(none.len() != seq![0x3fu8].len());
    assert(seq![0x3fu8][0] == 0x3f && seq![0x3eu8][0] == 0x3e && seq![0x3cu8][0] == 0x3c);
}

/// A mode that is pushed is on top of the stack and not in force. Popping takes so many modes off
/// the stack, and the last one that was taken is in force; where there are too few, all are taken.
pub proof fn the_stack_of_keyboard_modes(s: ScreenState, mode: u16, count: int)
    requires
        count >= 0,
    ensures
        ({
            let t = s.push_keyboard_mode(mode);
            &&& t == ScreenState { keyboard_mode_stack: t.keyboard_mode_stack, ..s }
            &&& t.keyboard_mode_stack.drop_last() == s.keyboard_mode_stack
            &&& t.keyboard_mode_stack.len() == s.keyboard_mode_stack.len() + 1
            &&& t.keyboard_mode_stack.last() == mode
        }),
        ({
            let t = s.pop_keyboard_modes(count);
            let depth = s.keyboard_mode_stack.len() as int;
            let left = if count < depth {
                depth - count
            } else {
                0
            };
            &&& t == ScreenState {
                keyboard_mode: t.keyboard_mode,
                keyboard_mode_stack: t.keyboard_mode_stack,
                ..s
            }
            &&& t.keyboard_mode_stack == s.keyboard_mode_stack.take(left)
            &&& t.keyboard_mode == if count == 0 || depth == 0 {
                s.keyboard_mode
            } else {
                s.keyboard_mode_stack[left]
            }
        }),
{
    assert(s.push_keyboard_mode(mode).keyboard_mode_stack.drop_last() =~= s.keyboard_mode_stack);
    assert(s.pop_keyboard_modes(count).keyboard_mode_stack =~= s.keyboard_mode_stack.take(
        if count < s.keyboard_mode_stack.len() {
            s.keyboard_mode_stack.len() - count
        } else {
            0
        },
    ));
}

/// The keyboard mode is reported in decimal, as `ESC [ mode ; 1 ; 0 u` with a space before the
/// last letter.
pub proof fn the_keyboard_mode_is_reported(s: ScreenState)
    ensures
        s.report_keyboard_mode() == s.reply(
            seq!['\x1b', '['] + text::decimal(s.keyboard_mode as nat) + ";1;0 u"@,
        ),
{
    reveal_strlit(";1;0 u");
    assert(";1;0 u"@ =~= seq![';', '1', ';', '0', ' ', 'u']);
}

/// Joining and taking away modes are bit by bit, and taking away what was joined leaves what was
/// neither.
pub proof fn keyboard_modes_are_combined_by_bits(s: ScreenState, mode: u16)
    ensures
        ({
            let joined = s.set_keyboard_mode(mode, KeyboardApplyBehavior::Union);
            let less = joined.set_keyboard_mode(mode, KeyboardApplyBehavior::Difference);
            &&& joined.keyboard_mode & mode == mode
            &&& joined.keyboard_mode & s.keyboard_mode == s.keyboard_mode
            &&& less.keyboard_mode & mode == 0
            &&& less.keyboard_mode == s.keyboard_mode & !mode
            &&& s.set_keyboard_mode(mode, KeyboardApplyBehavior::Replace).keyboard_mode == mode
        }),
{
    let k = s.keyboard_mode;
    assert((k | mode) & mode == mode) by (bit_vector);
    assert((k | mode) & k == k) by (bit_vector);
    assert(((k | mode) & !mode) & mode == 0) by (bit_vector);
    assert((k | mode) & !mode == k & !mode) by (bit_vector);
}

/// What is said of an event holds of the event of the same kind, with the same text or number.
pub proof fn events_are_seen_as_they_are(event: TermEvent)
    ensures
        event is Bell <==> event@ is Bell,
        event is AltScreen <==> event@ is AltScreen,
        match event {
            TermEvent::Bell => event@ == Happening::Bell,
            TermEvent::TitleChanged(s) => event@ == Happening::TitleChanged(s@),
            TermEvent::IconChanged(s) => event@ == Happening::IconChanged(s@),
            TermEvent::CwdChanged(s) => event@ == Happening::CwdChanged(s@),
            TermEvent::AltScreen { entered } => event@ == Happening::AltScreen { entered },
            TermEvent::ScrollbackGrew(n) => event@ == Happening::ScrollbackGrew(n),
        },
{
}

/// Taking the bells out of a log keeps every other event, in order.
pub proof fn other_events_are_kept(log: Seq<Happening>, event: Happening)
    ensures
        events::without_bells(Seq::<Happening>::empty()).len() == 0,
        events::without_bells(log.push(event)) == if event is Bell {
            events::without_bells(log)
        } else {
            events::without_bells(log).push(event)
        },
{
    reveal(Seq::filter);
    assert(log.push(event).drop_last() =~= log);
}

/// The log holds the newest 1024 events, in the order in which they came.
pub proof fn the_log_holds_the_newest(log: Seq<Happening>, event: Happening, k: int)
    ensures
        ({
            let t = events::logged(log, event);
            &&& t.len() == if log.len() < 1024 {
                log.len() + 1
            } else {
                1024
            }
            &&& t.last() == event
            &&& 2 <= k <= t.len() ==> t[t.len() - k] == log[log.len() + 1 - k]
        }),
{
}

} // verus!
