//! The log of what happened to a terminal besides changes of its rows.
//!
//! A bell, a new title, icon name or working directory and a switch of the screen buffer are
//! logged in the order in which they happened, and read by draining the log.
use vstd::prelude::*;

verus! {

/// The log keeps this many events; when it is full the oldest one makes room.
pub const MAX_EVENTS: usize = 1024;

/// Something that happened to a terminal.
#[derive(Debug, Clone, PartialEq, Eq)]
pub enum TermEvent {
    /// A bell character outside a control string.
    Bell,
    /// A new window title.
    TitleChanged(String),
    /// A new icon name.
    IconChanged(String),
    /// A new working directory of the shell.
    CwdChanged(String),
    /// The alternate screen was entered, or left.
    AltScreen { entered: bool },
    /// How many lines entered the scrollback since the last drain.
    ScrollbackGrew(u64),
}

/// A `TermEvent`, with its text as a sequence of characters.
#[verifier::ext_equal]
pub enum Happening {
    Bell,
    TitleChanged(Seq<char>),
    IconChanged(Seq<char>),
    CwdChanged(Seq<char>),
    AltScreen { entered: bool },
    ScrollbackGrew(u64),
}

impl View for TermEvent {
    type V = Happening;

    open spec fn view(&self) -> Happening {
        match self {
            TermEvent::Bell => Happening::Bell,
            TermEvent::TitleChanged(s) => Happening::TitleChanged(s@),
            TermEvent::IconChanged(s) => Happening::IconChanged(s@),
            TermEvent::CwdChanged(s) => Happening::CwdChanged(s@),
            TermEvent::AltScreen { entered } => Happening::AltScreen { entered: *entered },
            TermEvent::ScrollbackGrew(n) => Happening::ScrollbackGrew(*n),
        }
    }
}

/// The log after `event`: the newest `MAX_EVENTS` entries.
pub open spec fn logged(log: Seq<Happening>, event: Happening) -> Seq<Happening> {
    let all = log.push(event);
    if all.len() > MAX_EVENTS {
        all.skip(all.len() - MAX_EVENTS)
    } else {
        all
    }
}

/// The log without its bells.
pub open spec fn without_bells(log: Seq<Happening>) -> Seq<Happening> {
    log.filter(|h: Happening| !(h is Bell))
}

/// The views of a list of events.
pub open spec fn happenings(events: Seq<TermEvent>) -> Seq<Happening> {
    events.map_values(|e: TermEvent| e@)
}

impl TermEvent {
    /// A fixed name for the kind of event.
    pub fn tag(&self) -> (name: &'static str)
        ensures
            name@ == match self@ {
                Happening::Bell => "bell"@,
                Happening::TitleChanged(_) => "title"@,
                Happening::IconChanged(_) => "icon"@,
                Happening::CwdChanged(_) => "cwd"@,
                Happening::AltScreen { .. } => "altscreen"@,
                Happening::ScrollbackGrew(_) => "scrollback_grew"@,
            },
    {
        match self {
            TermEvent::Bell => "bell",
            TermEvent::TitleChanged(_) => "title",
            TermEvent::IconChanged(_) => "icon",
            TermEvent::CwdChanged(_) => "cwd",
            TermEvent::AltScreen { .. } => "altscreen",
            TermEvent::ScrollbackGrew(_) => "scrollback_grew",
        }
    }

    fn is_bell(&self) -> (b: bool)
        ensures
            b == (self@ is Bell),
    {
        match self {
            TermEvent::Bell => true,
            _ => false,
        }
    }
}

/// Appends `event` to a log; where the log is full, the oldest entries make room.
pub fn log_event(log: &mut Vec<TermEvent>, event: TermEvent)
    ensures
        happenings(final(log)@) == logged(happenings(old(log)@), event@),
{
    let ghost all = happenings(log@).push(event@);
    log.push(event);
    assert(happenings(log@) =~= all.skip(0));
    while log.len() > MAX_EVENTS
        invariant
            log@.len() <= all.len(),
            log@.len() >= MAX_EVENTS || log@.len() == all.len(),
            happenings(log@) == all.skip(all.len() - log@.len()),
        decreases log@.len(),
    {
        let ghost step = happenings(log@);
        let _ = log.remove(0);
        assert(happenings(log@) =~= step.skip(1));
        assert(happenings(log@) =~= all.skip(all.len() - log@.len()));
    }
    assert(happenings(log@) =~= logged(happenings(old(log)@), event@));
}

/// Takes the bells out of a log.
pub fn drop_bells(log: &mut Vec<TermEvent>)
    ensures
        happenings(final(log)@) == without_bells(happenings(old(log)@)),
        final(log)@.len() <= old(log)@.len(),
{
    let ghost all = happenings(log@);
    let ghost p = |h: Happening| !(h is Bell);
    let ghost mut gone: int = 0;
    let mut i: usize = 0;
    proof {
        assert(all.take(0) =~= seq![]);
        assert(happenings(log@) =~= all.take(0).filter(p) + all.skip(0)) by {
            reveal(Seq::filter);
        }
    }
    while i < log.len()
        invariant
            i <= log@.len() <= all.len(),
            gone == all.len() - log@.len(),
            0 <= gone,
            p == (|h: Happening| !(h is Bell)),
            happenings(log@) == all.take(i + gone).filter(p) + all.skip(i + gone),
            all.take(i + gone).filter(p).len() == i,
        decreases log@.len() - i,
    {
        let ghost at = i + gone;
        let ghost before = happenings(log@);
        proof {
            assert(happenings(log@)[i as int] == all[at]);
            assert(all.take(at + 1).drop_last() =~= all.take(at));
            reveal(Seq::filter);
        }
        if log[i].is_bell() {
            let _ = log.remove(i);
            proof {
                gone = gone + 1;
                assert(all.take(at + 1).last() == all[at]);
                assert(all.take(at + 1).filter(p) =~= all.take(at).filter(p));
                assert(happenings(log@) =~= before.remove(i as int));
                assert(before =~= all.take(at).filter(p) + all.skip(at));
                assert(happenings(log@) =~= all.take(at + 1).filter(p) + all.skip(at + 1));
            }
        } else {
            i = i + 1;
            assert(happenings(log@) =~= all.take(at + 1).filter(p) + all.skip(at + 1));
        }
    }
    assert(all.take(all.len() as int) =~= all);
    assert(happenings(log@) =~= without_bells(all));
}

/// The log never grows beyond its bound, and the newest event is always in it, last.
pub proof fn the_log_is_bounded(log: Seq<Happening>, event: Happening)
    requires
        log.len() <= MAX_EVENTS,
    ensures
        logged(log, event).len() <= MAX_EVENTS,
        logged(log, event).last() == event,
        log.len() < MAX_EVENTS ==> logged(log, event) == log.push(event),
        log.len() == MAX_EVENTS ==> logged(log, event) == log.drop_first().push(event),
{
    if log.len() == MAX_EVENTS {
        assert(logged(log, event) =~= log.drop_first().push(event));
    }
}

} // verus!
