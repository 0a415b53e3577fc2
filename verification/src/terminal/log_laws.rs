//! What is promised of the bell and of the event log: a bell rings only for a bell character, and
//! events stay in the order in which they happened.
use super::ansi_parser::{Action, Machine, State};
use super::cell;
use super::events;
use super::events::Happening;
use super::parser;
use super::state;
use super::state::ScreenState;
use vstd::prelude::*;

verus! {

/// The newest entries of a log, as many as it keeps.
pub open spec fn newest(log: Seq<Happening>) -> Seq<Happening> {
    if log.len() > events::MAX_EVENTS {
        log.skip(log.len() - events::MAX_EVENTS)
    } else {
        log
    }
}

/// Whether `later` is the log `log` with more entries at its end, without the oldest ones where
/// there are too many.
pub open spec fn continues(log: Seq<Happening>, later: Seq<Happening>) -> bool {
    exists|more: Seq<Happening>| later == #[trigger] newest(log + more)
}

/// Whether an action is a bell character.
pub open spec fn rings(action: Action) -> bool {
    action == Action::Execute(0x07)
}

/// Whether `t` came from `s` without a bell, and with the log of `s` kept in order.
pub open spec fn quietly(s: ScreenState, t: ScreenState) -> bool {
    &&& t.bell == s.bell
    &&& s.events.len() <= events::MAX_EVENTS ==> continues(s.events, t.events)
}

proof fn nothing_new(log: Seq<Happening>)
    requires
        log.len() <= events::MAX_EVENTS,
    ensures
        continues(log, log),
{
    assert(log + seq![] =~= log);
    assert(log == newest(log + seq![]));
}

proof fn one_more(log: Seq<Happening>, event: Happening)
    ensures
        continues(log, events::logged(log, event)),
{
    assert(log + seq![event] =~= log.push(event));
    assert(events::logged(log, event) == newest(log + seq![event]));
}

proof fn a_log_is_bounded(log: Seq<Happening>, later: Seq<Happening>)
    requires
        continues(log, later),
    ensures
        later.len() <= events::MAX_EVENTS,
{
}

proof fn and_more(a: Seq<Happening>, b: Seq<Happening>, c: Seq<Happening>)
    requires
        continues(a, b),
        continues(b, c),
    ensures
        continues(a, c),
{
    let x = choose|x: Seq<Happening>| b == #[trigger] newest(a + x);
    let y = choose|y: Seq<Happening>| c == #[trigger] newest(b + y);
    assert(a + (x + y) =~= (a + x) + y);
    if (a + x).len() > events::MAX_EVENTS {
        let cut = (a + x).len() - events::MAX_EVENTS;
        assert(b + y =~= ((a + x) + y).skip(cut));
        assert(newest(b + y) =~= newest((a + x) + y));
    }
    assert(c == newest(a + (x + y)));
}

proof fn stays_quiet(s: ScreenState, t: ScreenState)
    requires
        t.bell == s.bell,
        t.events == s.events,
    ensures
        quietly(s, t),
{
    if s.events.len() <= events::MAX_EVENTS {
        nothing_new(s.events);
    }
}

proof fn quietly_on(s: ScreenState, t: ScreenState, u: ScreenState)
    requires
        quietly(s, t),
        quietly(t, u),
    ensures
        quietly(s, u),
{
    if s.events.len() <= events::MAX_EVENTS {
        a_log_is_bounded(s.events, t.events);
        and_more(s.events, t.events, u.events);
    }
}

proof fn an_event_is_quiet(s: ScreenState, t: ScreenState, event: Happening)
    requires
        t.bell == s.bell,
        t.events == events::logged(s.events, event),
    ensures
        quietly(s, t),
{
    one_more(s.events, event);
}

proof fn a_mode_is_quiet(s: ScreenState, mode: u16, private: bool)
    ensures
        quietly(s, s.set_mode(mode, private)),
        quietly(s, s.reset_mode(mode, private)),
{
    if private && state::is_alt_mode(mode) {
        if s.alt_screen {
            stays_quiet(s, s.set_mode(mode, private));
        } else {
            an_event_is_quiet(
                s,
                s.set_mode(mode, private),
                Happening::AltScreen { entered: true },
            );
        }
        if s.parked is Some {
            an_event_is_quiet(
                s,
                s.reset_mode(mode, private),
                Happening::AltScreen { entered: false },
            );
        } else {
            stays_quiet(s, s.reset_mode(mode, private));
        }
    } else {
        stays_quiet(s, s.set_mode(mode, private));
        stays_quiet(s, s.reset_mode(mode, private));
    }
}

proof fn modes_are_quiet(s: ScreenState, params: Seq<u16>, private: bool)
    ensures
        quietly(s, s.set_modes(params, private)),
        quietly(s, s.reset_modes(params, private)),
    decreases params.len(),
{
    if params.len() == 0 {
        stays_quiet(s, s);
    } else {
        let rest = params.drop_last();
        modes_are_quiet(s, rest, private);
        let set = s.set_modes(rest, private);
        let cleared = s.reset_modes(rest, private);
        a_mode_is_quiet(set, params.last(), private);
        a_mode_is_quiet(cleared, params.last(), private);
        quietly_on(s, set, set.set_mode(params.last(), private));
        quietly_on(s, cleared, cleared.reset_mode(params.last(), private));
    }
}

proof fn moves_are_quiet(s: ScreenState, params: Seq<u16>, action: char)
    ensures
        quietly(s, s.csi_move(params, action)),
{
    reveal(ScreenState::csi_move);
    stays_quiet(s, s.csi_move(params, action));
}

proof fn erasing_is_quiet(s: ScreenState, n: int)
    ensures
        s.erase_in_display(n).bell == s.bell,
        s.erase_in_display(n).events == s.events,
{
    reveal(ScreenState::erase_in_display);
}

proof fn edits_are_quiet(s: ScreenState, params: Seq<u16>, action: char)
    ensures
        quietly(s, s.csi_edit(params, action)),
{
    reveal(ScreenState::csi_edit);
    erasing_is_quiet(s, state::param(params, 0, 0));
    stays_quiet(s, s.csi_edit(params, action));
}

proof fn requests_are_quiet(s: ScreenState, params: Seq<u16>, intermediates: Seq<u8>)
    ensures
        quietly(s, s.csi_u(params, intermediates)),
{
    reveal(ScreenState::csi_u);
    stays_quiet(s, s.csi_u(params, intermediates));
}

proof fn csi_is_quiet(s: ScreenState, params: Seq<u16>, intermediates: Seq<u8>, action: char)
    ensures
        quietly(s, s.csi_dispatch(params, intermediates, action)),
{
    reveal(ScreenState::csi_dispatch);
    if state::is_move(action) {
        moves_are_quiet(s, params, action);
    } else if state::is_edit(action) {
        edits_are_quiet(s, params, action);
    } else if action == 'h' || action == 'l' {
        modes_are_quiet(s, params, intermediates == seq![0x3fu8]);
    } else if action == 'u' {
        requests_are_quiet(s, params, intermediates);
    } else {
        stays_quiet(s, s.csi_dispatch(params, intermediates, action));
    }
}

proof fn drawing_is_quiet(s: ScreenState, c: char, width: int)
    ensures
        quietly(s, s.draw_sized(c, width)),
{
    let o = s.wrapped().opened(width);
    assert(o.events == s.events && o.bell == s.bell);
    stays_quiet(s, s.draw_sized(c, width));
}

proof fn names_are_quiet(s: ScreenState, icon: Seq<char>, title: Seq<char>)
    ensures
        quietly(s, s.set_icon_name(icon)),
        quietly(s, s.set_title(title)),
        quietly(s, s.set_icon_name(icon).set_title(title)),
{
    let named = s.set_icon_name(icon);
    an_event_is_quiet(s, named, Happening::IconChanged(icon));
    an_event_is_quiet(s, s.set_title(title), Happening::TitleChanged(title));
    an_event_is_quiet(named, named.set_title(title), Happening::TitleChanged(title));
    quietly_on(s, named, named.set_title(title));
}

proof fn a_directory_is_quiet(s: ScreenState, path: Option<Seq<char>>)
    ensures
        quietly(s, s.report_cwd(path)),
{
    match path {
        Some(p) => if s.cwd == Some(p) {
            stays_quiet(s, s);
        } else {
            an_event_is_quiet(s, s.set_cwd(p), Happening::CwdChanged(p));
        },
        None => stays_quiet(s, s),
    }
}

proof fn commands_are_quiet(s: ScreenState, params: Seq<Seq<u8>>)
    ensures
        quietly(s, s.osc(params)),
{
    reveal(ScreenState::osc);
    stays_quiet(s, s);
    if params.len() > 0 {
        let name = crate::utf8::lossy(parser::joined(params.skip(1)));
        names_are_quiet(s, name, name);
        if params.len() >= 2 {
            a_directory_is_quiet(s, super::cwd::osc7_path(params[1]));
        }
        if params.len() >= 3 {
            names_are_quiet(s, crate::utf8::lossy(params[1]), crate::utf8::lossy(params[2]));
            a_directory_is_quiet(s, super::cwd::path_text(params[2]));
        }
    }
}

proof fn escapes_are_quiet(s: ScreenState, intermediates: Seq<u8>, byte: u8)
    ensures
        quietly(s, s.esc(intermediates, byte)),
{
    reveal(ScreenState::esc);
    stays_quiet(s, s.esc(intermediates, byte));
}

proof fn controls_are_quiet(s: ScreenState, byte: u8)
    requires
        byte != 0x07,
    ensures
        quietly(s, s.execute(byte)),
{
    reveal(ScreenState::execute);
    stays_quiet(s, s.execute(byte));
}

proof fn an_action_is_quiet(s: ScreenState, action: Action)
    requires
        !rings(action),
    ensures
        quietly(s, s.perform(action)),
{
    reveal(ScreenState::perform);
    match action {
        Action::Print(c) => drawing_is_quiet(s, s.shown(c), cell::columns_of(c) as int),
        Action::Execute(byte) => controls_are_quiet(s, byte),
        Action::Osc { params, .. } => commands_are_quiet(s, params),
        Action::Csi { params, intermediates, action, .. } => csi_is_quiet(
            s,
            parser::joined(params),
            intermediates,
            action,
        ),
        Action::Esc { intermediates, byte, .. } => escapes_are_quiet(s, intermediates, byte),
        _ => stays_quiet(s, s),
    }
}

/// The bell rings only for a bell character: without one in what is performed, it is pending
/// afterwards exactly where it was before. So a bell that was taken does not come back by itself.
pub proof fn a_bell_needs_a_bell_character(s: ScreenState, actions: Seq<Action>)
    requires
        forall|i: int| 0 <= i < actions.len() ==> !rings(#[trigger] actions[i]),
    ensures
        s.perform_all(actions).bell == s.bell,
    decreases actions.len(),
{
    if actions.len() > 0 {
        let rest = actions.drop_last();
        assert forall|i: int| 0 <= i < rest.len() implies !rings(#[trigger] rest[i]) by {
            assert(rest[i] == actions[i]);
        }
        a_bell_needs_a_bell_character(s, rest);
        assert(!rings(actions[actions.len() - 1]));
        an_action_is_quiet(s.perform_all(rest), actions.last());
    }
}

/// A bell character rings the bell, and is logged as the newest event.
pub proof fn a_bell_character_rings(s: ScreenState)
    ensures
        s.perform(Action::Execute(0x07)).bell,
        s.perform(Action::Execute(0x07)).events == events::logged(s.events, Happening::Bell),
{
    reveal(ScreenState::perform);
    reveal(ScreenState::execute);
}

/// A bell character that ends an operating system command does not ring: it is part of the
/// command.
pub proof fn a_bell_that_ends_a_command_is_silent(machine: Machine, s: ScreenState)
    requires
        machine.state == State::OscString,
    ensures
        machine.step(0x07).1 == seq![machine.osc(true)],
        s.perform(machine.osc(true)).bell == s.bell,
{
    reveal(Machine::step);
    an_action_is_quiet(s, machine.osc(true));
}

/// Whatever is performed, the log keeps its order: what happens is added at its end, and only the
/// oldest entries make room.
pub proof fn the_log_keeps_its_order(s: ScreenState, actions: Seq<Action>)
    requires
        s.events.len() <= events::MAX_EVENTS,
    ensures
        continues(s.events, s.perform_all(actions).events),
    decreases actions.len(),
{
    if actions.len() == 0 {
        nothing_new(s.events);
    } else {
        let rest = actions.drop_last();
        the_log_keeps_its_order(s, rest);
        let t = s.perform_all(rest);
        a_log_is_bounded(s.events, t.events);
        if rings(actions.last()) {
            a_bell_character_rings(t);
            one_more(t.events, Happening::Bell);
        } else {
            an_action_is_quiet(t, actions.last());
        }
        and_more(s.events, t.events, s.perform_all(actions).events);
    }
}

} // verus!
