//! Terminal modes.
use std::collections::HashSet;
use vstd::prelude::*;

verus! {

broadcast use vstd::std_specs::hash::group_hash_axioms;

/// ANSI mode: insert rather than replace.
pub const IRM: u16 = 4;

/// ANSI mode: a line feed also returns the carriage.
pub const LNM: u16 = 20;

/// Private mode: application cursor keys.
pub const DECCKM: u16 = 1;

/// Private mode: 132 columns.
pub const DECCOLM: u16 = 3;

/// Private mode: the scroll region is the origin of cursor addresses.
pub const DECOM: u16 = 6;

/// Private mode: wrap at the right edge.
pub const DECAWM: u16 = 7;

/// Private mode: the cursor is visible.
pub const DECTCEM: u16 = 25;

/// Private mode: the whole screen is shown reversed.
pub const DECSCNM: u16 = 5;

/// Private mode: report mouse clicks.
pub const X10_MOUSE: u16 = 1000;

/// Private mode: report mouse clicks and drags.
pub const NORMAL_MOUSE: u16 = 1002;

/// Private mode: report all mouse movement.
pub const ANY_EVENT_MOUSE: u16 = 1003;

/// Private mode: report focus changes.
pub const FOCUS_EVENT: u16 = 1004;

/// Private mode: report the mouse in the SGR encoding.
pub const SGR_MOUSE: u16 = 1006;

/// Private mode: bracket pasted text.
pub const BRACKETED_PASTE: u16 = 2004;

/// Private mode: alternate screen, with the cursor saved.
pub const ALT_SCREEN_1049: u16 = 1049;

/// Private mode: alternate screen.
pub const ALT_SCREEN_1047: u16 = 1047;

/// Private mode: alternate screen.
pub const ALT_SCREEN_47: u16 = 47;

/// The ANSI modes that have an effect.
#[derive(Debug, Clone, Copy, PartialEq, Eq, Hash)]
pub struct PublicModes {
    pub irm: bool,
    pub lnm: bool,
}

/// The private modes that change how the screen behaves.
#[derive(Debug, Clone, Copy, PartialEq, Eq, Hash)]
pub struct PrivateModes {
    pub decckm: bool,
    pub deccolm: bool,
    pub decom: bool,
    pub decawm: bool,
    pub dectcem: bool,
    pub decscnm: bool,
}

impl Default for PublicModes {
    fn default() -> (r: Self)
        ensures
            r == (PublicModes { irm: false, lnm: false }),
    {
        PublicModes { irm: false, lnm: false }
    }
}

impl Default for PrivateModes {
    fn default() -> (r: Self)
        ensures
            !r.decckm && !r.deccolm && !r.decom && !r.decawm && !r.dectcem && !r.decscnm,
    {
        PrivateModes {
            decckm: false,
            deccolm: false,
            decom: false,
            decawm: false,
            dectcem: false,
            decscnm: false,
        }
    }
}

/// The modes of a terminal: the ones that are set.
#[derive(Debug)]
pub struct Modes {
    pub public: PublicModes,
    pub private: PrivateModes,
    pub extended: HashSet<u16>,
}

/// Which ANSI and which private modes are set.
#[verifier::ext_equal]
pub struct ModeSet {
    pub public: Set<u16>,
    pub private: Set<u16>,
}

/// The ANSI modes that can be set; the others are ignored.
pub open spec fn is_known_public(mode: u16) -> bool {
    mode == IRM || mode == LNM
}

impl ModeSet {
    /// The modes of a terminal that was just switched on.
    pub open spec fn initial() -> ModeSet {
        ModeSet { public: set![LNM], private: set![DECAWM, DECTCEM] }
    }

    /// With the ANSI mode `mode` set.
    pub open spec fn with_public(self, mode: u16) -> ModeSet {
        if is_known_public(mode) {
            ModeSet { public: self.public.insert(mode), ..self }
        } else {
            self
        }
    }

    /// With the ANSI mode `mode` cleared.
    pub open spec fn without_public(self, mode: u16) -> ModeSet {
        ModeSet { public: self.public.remove(mode), ..self }
    }

    /// With the private mode `mode` set.
    pub open spec fn with_private(self, mode: u16) -> ModeSet {
        ModeSet { private: self.private.insert(mode), ..self }
    }

    /// With the private mode `mode` cleared.
    pub open spec fn without_private(self, mode: u16) -> ModeSet {
        ModeSet { private: self.private.remove(mode), ..self }
    }

    /// The mouse tracking mode that takes precedence among those set, or 0.
    pub open spec fn mouse_mode(self) -> u16 {
        if self.private.contains(ANY_EVENT_MOUSE) {
            ANY_EVENT_MOUSE
        } else if self.private.contains(NORMAL_MOUSE) {
            NORMAL_MOUSE
        } else if self.private.contains(X10_MOUSE) {
            X10_MOUSE
        } else {
            0
        }
    }
}

impl View for Modes {
    type V = ModeSet;

    closed spec fn view(&self) -> ModeSet {
        ModeSet {
            public: Set::new(|m: u16| self.public_bit(m)),
            private: Set::new(|m: u16| self.private_bit(m)),
        }
    }
}

/// A copy of a set of mode numbers.
fn copy_of(modes: &HashSet<u16>) -> (copy: HashSet<u16>)
    ensures
        copy@ == modes@,
{
    let mut copy: HashSet<u16> = HashSet::new();
    for m in it: modes.iter()
        invariant
            forall|k: u16|
                #[trigger] copy@.contains(k) <==> exists|j: int|
                    0 <= j < it.index() && *it.seq()[j] == k,
            it.seq().unref().to_set() == modes@,
    {
        copy.insert(*m);
    }
    assert forall|k: u16| #[trigger] copy@.contains(k) == modes@.contains(k) by {
        let all = vstd::std_specs::iter::IteratorSpec::remaining(&modes.iter());
        if modes@.contains(k) {
            let j = choose|j: int| 0 <= j < all.unref().len() && all.unref()[j] == k;
            assert(*all[j] == k);
        }
        if copy@.contains(k) {
            let j = choose|j: int| 0 <= j < all.len() && *all[j] == k;
            assert(all.unref()[j] == k);
        }
    }
    assert(copy@ =~= modes@);
    copy
}

impl Clone for Modes {
    fn clone(&self) -> (r: Self)
        ensures
            r@ == self@,
    {
        let r = Modes {
            public: self.public,
            private: self.private,
            extended: copy_of(&self.extended),
        };
        assert(r@ =~= self@);
        r
    }
}

impl Default for Modes {
    fn default() -> (r: Self)
        ensures
            r@ == (ModeSet { public: Set::empty(), private: Set::empty() }),
    {
        let r = Modes {
            public: PublicModes::default(),
            private: PrivateModes::default(),
            extended: HashSet::new(),
        };
        assert(r@ =~= (ModeSet { public: Set::empty(), private: Set::empty() }));
        r
    }
}

impl Modes {
    spec fn public_bit(&self, mode: u16) -> bool {
        (mode == IRM && self.public.irm) || (mode == LNM && self.public.lnm)
    }

    spec fn private_bit(&self, mode: u16) -> bool {
        if mode == DECCKM {
            self.private.decckm
        } else if mode == DECCOLM {
            self.private.deccolm
        } else if mode == DECOM {
            self.private.decom
        } else if mode == DECAWM {
            self.private.decawm
        } else if mode == DECTCEM {
            self.private.dectcem
        } else if mode == DECSCNM {
            self.private.decscnm
        } else {
            self.extended@.contains(mode)
        }
    }

    /// The modes of a terminal that was just switched on.
    pub fn new() -> (r: Self)
        ensures
            r@ == ModeSet::initial(),
    {
        let r = Modes {
            public: PublicModes { irm: false, lnm: true },
            private: PrivateModes {
                decckm: false,
                deccolm: false,
                decom: false,
                decawm: true,
                dectcem: true,
                decscnm: false,
            },
            extended: HashSet::new(),
        };
        assert(r@ =~= ModeSet::initial());
        r
    }

    /// Whether the ANSI mode `mode` is set.
    pub fn has_public(&self, mode: u16) -> (b: bool)
        ensures
            b == self@.public.contains(mode),
    {
        match mode {
            IRM => self.public.irm,
            LNM => self.public.lnm,
            _ => false,
        }
    }

    /// Whether the private mode `mode` is set.
    pub fn has_private(&self, mode: u16) -> (b: bool)
        ensures
            b == self@.private.contains(mode),
    {
        match mode {
            DECCKM => self.private.decckm,
            DECCOLM => self.private.deccolm,
            DECOM => self.private.decom,
            DECAWM => self.private.decawm,
            DECTCEM => self.private.dectcem,
            DECSCNM => self.private.decscnm,
            _ => self.extended.contains(&mode),
        }
    }

    /// Sets or clears the flag of an ANSI mode; a mode without one is ignored.
    fn put_public(&mut self, mode: u16, on: bool)
        ensures
            final(self)@ == (if on {
                old(self)@.with_public(mode)
            } else {
                old(self)@.without_public(mode)
            }),
    {
        match mode {
            IRM => { self.public.irm = on; },
            LNM => { self.public.lnm = on; },
            _ => {},
        }
        assert(self@ =~= (if on {
            old(self)@.with_public(mode)
        } else {
            old(self)@.without_public(mode)
        }));
    }

    /// Sets or clears a private mode.
    fn put_private(&mut self, mode: u16, on: bool)
        ensures
            final(self)@ == (if on {
                old(self)@.with_private(mode)
            } else {
                old(self)@.without_private(mode)
            }),
    {
        match mode {
            DECCKM => { self.private.decckm = on; },
            DECCOLM => { self.private.deccolm = on; },
            DECOM => { self.private.decom = on; },
            DECAWM => { self.private.decawm = on; },
            DECTCEM => { self.private.dectcem = on; },
            DECSCNM => { self.private.decscnm = on; },
            _ => {
                if on {
                    self.extended.insert(mode);
                } else {
                    self.extended.remove(&mode);
                }
            },
        }
        assert(self@ =~= (if on {
            old(self)@.with_private(mode)
        } else {
            old(self)@.without_private(mode)
        }));
    }

    /// Sets the ANSI mode `mode`; an unknown one is ignored.
    pub fn set_public(&mut self, mode: u16)
        ensures
            final(self)@ == old(self)@.with_public(mode),
    {
        self.put_public(mode, true);
    }

    /// Clears the ANSI mode `mode`.
    pub fn clear_public(&mut self, mode: u16)
        ensures
            final(self)@ == old(self)@.without_public(mode),
    {
        self.put_public(mode, false);
    }

    /// Sets the private mode `mode`.
    pub fn set_private(&mut self, mode: u16)
        ensures
            final(self)@ == old(self)@.with_private(mode),
    {
        self.put_private(mode, true);
    }

    /// Clears the private mode `mode`.
    pub fn clear_private(&mut self, mode: u16)
        ensures
            final(self)@ == old(self)@.without_private(mode),
    {
        self.put_private(mode, false);
    }

    /// The mouse tracking mode that takes precedence among those set, or 0.
    pub fn mouse_protocol(&self) -> (mode: u16)
        ensures
            mode == self@.mouse_mode(),
    {
        if self.has_private(ANY_EVENT_MOUSE) {
            ANY_EVENT_MOUSE
        } else if self.has_private(NORMAL_MOUSE) {
            NORMAL_MOUSE
        } else if self.has_private(X10_MOUSE) {
            X10_MOUSE
        } else {
            0
        }
    }

    /// Whether the mouse is reported in the SGR encoding.
    pub fn sgr_mouse(&self) -> (b: bool)
        ensures
            b == self@.private.contains(SGR_MOUSE),
    {
        self.has_private(SGR_MOUSE)
    }

    /// Whether a mode is set that asks for the alternate screen.
    pub fn is_alt_screen(&self) -> (b: bool)
        ensures
            b == (self@.private.contains(ALT_SCREEN_1049) || self@.private.contains(ALT_SCREEN_1047)
                || self@.private.contains(ALT_SCREEN_47)),
    {
        self.has_private(ALT_SCREEN_1049) || self.has_private(ALT_SCREEN_1047)
            || self.has_private(ALT_SCREEN_47)
    }
}

/// Setting a mode makes it set, clearing it makes it clear, and neither touches another mode;
/// the ANSI and the private modes are apart.
pub proof fn modes_are_independent(modes: ModeSet, mode: u16, other: u16)
    requires
        mode != other,
    ensures
        modes.with_private(mode).private.contains(mode),
        !modes.without_private(mode).private.contains(mode),
        modes.with_private(mode).private.contains(other) == modes.private.contains(other),
        modes.without_private(mode).private.contains(other) == modes.private.contains(other),
        modes.with_public(mode).public.contains(mode) == (is_known_public(mode)
            || modes.public.contains(mode)),
        !modes.without_public(mode).public.contains(mode),
        modes.with_public(mode).public.contains(other) == modes.public.contains(other),
        modes.without_public(mode).public.contains(other) == modes.public.contains(other),
        modes.with_private(mode).public == modes.public,
        modes.without_private(mode).public == modes.public,
        modes.with_public(mode).private == modes.private,
        modes.without_public(mode).private == modes.private,
{
}

/// Clearing a mode undoes setting it, where it was clear.
pub proof fn clearing_undoes_setting(modes: ModeSet, mode: u16)
    ensures
        !modes.private.contains(mode) ==> modes.with_private(mode).without_private(mode) == modes,
        !modes.public.contains(mode) ==> modes.with_public(mode).without_public(mode) == modes,
{
    if !modes.private.contains(mode) {
        assert(modes.with_private(mode).without_private(mode) =~= modes);
    }
    if !modes.public.contains(mode) {
        assert(modes.with_public(mode).without_public(mode) =~= modes);
    }
}

} // verus!
