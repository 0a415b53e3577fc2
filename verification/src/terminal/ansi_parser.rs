//! The state machine that splits a byte stream into text, controls and escape sequences.
//!
//! It is the DEC-compatible parser of <http://vt100.net/emu/dec_ansi_parser>, with UTF-8 text.
//! What it finds is handed to a [`Perform`] implementation.
use crate::utf8;
use crate::utf8::Decoded;
use vstd::prelude::*;

verus! {

/// A control sequence holds this many parameters, sub-parameters counted.
pub const MAX_PARAMS: usize = 32;

/// A sequence holds this many intermediates.
pub const MAX_INTERMEDIATES: usize = 2;

/// An operating system command holds this many parameters.
pub const MAX_OSC_PARAMS: usize = 16;

/// An operating system command holds this many bytes, without the separators.
pub const MAX_OSC_RAW: usize = 1024;

/// The parameters of a control sequence: groups of sub-parameters.
#[derive(Debug, Clone, PartialEq, Eq)]
pub struct Params {
    pub subparams: Vec<Vec<u16>>,
    pub total_len: usize,
}

/// The groups of a list of parameters.
pub open spec fn groups(subparams: Seq<Vec<u16>>) -> Seq<Seq<u16>> {
    subparams.map_values(|g: Vec<u16>| g@)
}

/// `groups` with `value` added to the last group, or as the first one.
pub open spec fn extended(groups: Seq<Seq<u16>>, value: u16) -> Seq<Seq<u16>> {
    if groups.len() == 0 {
        seq![seq![value]]
    } else {
        groups.update(groups.len() - 1, groups.last().push(value))
    }
}

impl View for Params {
    type V = Seq<Seq<u16>>;

    open spec fn view(&self) -> Seq<Seq<u16>> {
        groups(self.subparams@)
    }
}

impl Default for Params {
    fn default() -> (r: Self)
        ensures
            r@ == Seq::<Seq<u16>>::empty(),
            r.count() == 0,
    {
        Params::new()
    }
}

impl Params {
    /// How many values were put in since the list was empty.
    pub open spec fn count(&self) -> nat {
        self.total_len as nat
    }

    /// An empty list.
    pub fn new() -> (r: Self)
        ensures
            r@ == Seq::<Seq<u16>>::empty(),
            r.count() == 0,
    {
        let r = Params { subparams: Vec::new(), total_len: 0 };
        assert(r@ =~= Seq::<Seq<u16>>::empty());
        r
    }

    /// Appends a parameter of its own.
    pub fn push(&mut self, value: u16)
        requires
            old(self).count() < usize::MAX,
        ensures
            final(self)@ == old(self)@.push(seq![value]),
            final(self).count() == old(self).count() + 1,
    {
        let mut group: Vec<u16> = Vec::new();
        group.push(value);
        assert(group@ =~= seq![value]);
        self.subparams.push(group);
        self.total_len = self.total_len + 1;
        assert(self@ =~= old(self)@.push(seq![value]));
    }

    /// Appends a sub-parameter to the last parameter; the first one becomes a parameter.
    pub fn extend(&mut self, value: u16)
        requires
            old(self).count() < usize::MAX,
        ensures
            final(self)@ == extended(old(self)@, value),
            final(self).count() == old(self).count() + 1,
    {
        let n: usize = self.subparams.len();
        if n == 0 {
            self.push(value);
            assert(self@ =~= seq![seq![value]]);
        } else {
            self.subparams[n - 1].push(value);
            self.total_len = self.total_len + 1;
            assert(self@ =~= extended(old(self)@, value));
        }
    }

    /// Whether no further value is taken.
    pub fn is_full(&self) -> (b: bool)
        ensures
            b == (self.count() >= MAX_PARAMS),
    {
        self.total_len >= MAX_PARAMS
    }

    /// Empties the list.
    pub fn clear(&mut self)
        ensures
            final(self)@ == Seq::<Seq<u16>>::empty(),
            final(self).count() == 0,
    {
        self.subparams.clear();
        self.total_len = 0;
        assert(self@ =~= Seq::<Seq<u16>>::empty());
    }

    /// The parameters, in order.
    pub fn iter(&self) -> (it: std::slice::Iter<'_, Vec<u16>>)
        ensures
            vstd::std_specs::iter::IteratorSpec::remaining(&it) == self.subparams@.as_ref(),
    {
        self.subparams.iter()
    }
}

/// What the parser finds in its input.
pub enum Action {
    /// A character of text.
    Print(char),
    /// A control character.
    Execute(u8),
    /// The start of a device control string.
    Hook { params: Seq<Seq<u16>>, intermediates: Seq<u8>, ignore: bool, action: char },
    /// A byte of a device control string.
    Put(u8),
    /// The end of a device control string.
    Unhook,
    /// An operating system command, and whether a bell ended it.
    Osc { params: Seq<Seq<u8>>, bell_terminated: bool },
    /// A control sequence.
    Csi { params: Seq<Seq<u16>>, intermediates: Seq<u8>, ignore: bool, action: char },
    /// An escape sequence.
    Esc { intermediates: Seq<u8>, ignore: bool, byte: u8 },
}

/// The views of a list of byte strings.
pub open spec fn strings(params: Seq<&[u8]>) -> Seq<Seq<u8>> {
    params.map_values(|p: &[u8]| p@)
}

/// Performs what the parser finds.
///
/// An implementation says by `responds` what each action may make of it, and by `ready` when it
/// can take one. One that says neither takes every action and promises nothing.
pub trait Perform: Sized {
    /// Whether the performer can take an action.
    open spec fn ready(&self) -> bool {
        true
    }

    /// Whether `post` is a possible result of performing `action`.
    open spec fn responds(&self, action: Action, post: &Self) -> bool {
        true
    }

    fn print(&mut self, c: char)
        requires
            old(self).ready(),
        ensures
            final(self).ready(),
            old(self).responds(Action::Print(c), final(self)),
    ;

    fn execute(&mut self, byte: u8)
        requires
            old(self).ready(),
        ensures
            final(self).ready(),
            old(self).responds(Action::Execute(byte), final(self)),
    ;

    fn hook(&mut self, params: &Params, intermediates: &[u8], ignore: bool, action: char)
        requires
            old(self).ready(),
        ensures
            final(self).ready(),
            old(self).responds(
                Action::Hook { params: params@, intermediates: intermediates@, ignore, action },
                final(self),
            ),
    ;

    fn put(&mut self, byte: u8)
        requires
            old(self).ready(),
        ensures
            final(self).ready(),
            old(self).responds(Action::Put(byte), final(self)),
    ;

    fn unhook(&mut self)
        requires
            old(self).ready(),
        ensures
            final(self).ready(),
            old(self).responds(Action::Unhook, final(self)),
    ;

    fn osc_dispatch(&mut self, params: &[&[u8]], bell_terminated: bool)
        requires
            old(self).ready(),
        ensures
            final(self).ready(),
            old(self).responds(
                Action::Osc { params: strings(params@), bell_terminated },
                final(self),
            ),
    ;

    fn csi_dispatch(&mut self, params: &Params, intermediates: &[u8], ignore: bool, action: char)
        requires
            old(self).ready(),
        ensures
            final(self).ready(),
            old(self).responds(
                Action::Csi { params: params@, intermediates: intermediates@, ignore, action },
                final(self),
            ),
    ;

    fn esc_dispatch(&mut self, intermediates: &[u8], ignore: bool, byte: u8)
        requires
            old(self).ready(),
        ensures
            final(self).ready(),
            old(self).responds(
                Action::Esc { intermediates: intermediates@, ignore, byte },
                final(self),
            ),
    ;

    /// Whether the performer wants no more input.
    fn terminated(&self) -> (b: bool)
        default_ensures
            !b,
    {
        false
    }
}

/// Whether each performer in `trace` is what the action before it may make of the one before it.
pub open spec fn is_trace<P: Perform>(trace: Seq<P>, actions: Seq<Action>) -> bool {
    &&& trace.len() == actions.len() + 1
    &&& forall|i: int|
        0 <= i < actions.len() ==> (#[trigger] trace[i]).responds(actions[i], &trace[i + 1])
}

/// Whether performing `actions` in order can make `to` of `from`.
pub open spec fn reaches<P: Perform>(from: P, actions: Seq<Action>, to: P) -> bool {
    exists|trace: Seq<P>|
        #[trigger] is_trace(trace, actions) && trace[0] == from && trace.last() == to
}

proof fn reaches_none<P: Perform>(from: P)
    ensures
        reaches(from, seq![], from),
{
    assert(is_trace(seq![from], seq![]));
}

proof fn reaches_one<P: Perform>(from: P, action: Action, to: P)
    requires
        from.responds(action, &to),
    ensures
        reaches(from, seq![action], to),
{
    assert(is_trace(seq![from, to], seq![action]));
}

/// Performing one list of actions and then another one is performing both.
pub proof fn reaches_both<P: Perform>(from: P, a: Seq<Action>, mid: P, b: Seq<Action>, to: P)
    requires
        reaches(from, a, mid),
        reaches(mid, b, to),
    ensures
        reaches(from, a + b, to),
{
    let s = choose|s: Seq<P>| #[trigger] is_trace(s, a) && s[0] == from && s.last() == mid;
    let t = choose|t: Seq<P>| #[trigger] is_trace(t, b) && t[0] == mid && t.last() == to;
    let both = s + t.skip(1);
    assert forall|i: int| 0 <= i < (a + b).len() implies (#[trigger] both[i]).responds(
        (a + b)[i],
        &both[i + 1],
    ) by {
        if i < a.len() {
            assert(s[i].responds(a[i], &s[i + 1]));
        } else {
            let j = i - a.len();
            assert(t[j].responds(b[j], &t[j + 1]));
        }
    }
    assert(is_trace(both, a + b));
}

/// Where the parser stands.
#[derive(Debug, Clone, Copy, PartialEq, Eq, Structural)]
pub enum State {
    CsiEntry,
    CsiIgnore,
    CsiIntermediate,
    CsiParam,
    DcsEntry,
    DcsIgnore,
    DcsIntermediate,
    DcsParam,
    DcsPassthrough,
    Escape,
    EscapeIntermediate,
    OscString,
    SosPmApcString,
    Ground,
}

/// The parser between two units of input: its state, and what it has collected of the sequence
/// at hand.
pub struct Machine {
    pub state: State,
    pub intermediates: Seq<u8>,
    pub params: Seq<Seq<u16>>,
    /// How many parameters were taken.
    pub count: nat,
    /// The number that is being read.
    pub param: u16,
    pub ignoring: bool,
    pub osc_raw: Seq<u8>,
    /// Where the parameters in `osc_raw` end.
    pub osc_ends: Seq<int>,
    /// Whether the number that is being read is a sub-parameter.
    pub subparam: bool,
}

/// The characters that a sequence executes without ending.
pub open spec fn is_inner_control(byte: u8) -> bool {
    byte <= 0x17 || byte == 0x19 || 0x1c <= byte <= 0x1f
}

/// The number `n` with one more digit; it stops at the largest number.
pub open spec fn with_digit(n: u16, byte: u8) -> u16 {
    let tenfold = if n * 10 > 0xffff {
        0xffff
    } else {
        n * 10
    };
    let v = tenfold + (byte - 0x30);
    if v > 0xffff {
        0xffff
    } else {
        v as u16
    }
}

/// The parameters of an operating system command, cut out of its bytes.
pub open spec fn osc_params(raw: Seq<u8>, ends: Seq<int>) -> Seq<Seq<u8>> {
    Seq::new(
        ends.len(),
        |i: int|
            raw.subrange(
                if i == 0 {
                    0
                } else {
                    ends[i - 1]
                },
                ends[i],
            ),
    )
}

impl Machine {
    /// A parser that has read nothing.
    pub open spec fn initial() -> Machine {
        Machine {
            state: State::Ground,
            intermediates: seq![],
            params: seq![],
            count: 0,
            param: 0,
            ignoring: false,
            osc_raw: seq![],
            osc_ends: seq![],
            subparam: false,
        }
    }

    /// What is collected keeps to its bounds.
    pub open spec fn wf(self) -> bool {
        &&& self.intermediates.len() <= MAX_INTERMEDIATES
        &&& self.count <= MAX_PARAMS
        &&& self.osc_raw.len() <= MAX_OSC_RAW
        &&& self.osc_ends.len() <= MAX_OSC_PARAMS
        &&& forall|i: int|
            0 <= i < self.osc_ends.len() ==> 0 <= #[trigger] self.osc_ends[i] <= self.osc_raw.len()
        &&& forall|i: int, j: int|
            0 <= i < j < self.osc_ends.len() ==> self.osc_ends[i] <= self.osc_ends[j]
    }

    /// In the state `state`.
    pub open spec fn to(self, state: State) -> Machine {
        Machine { state, ..self }
    }

    /// Ready for a new sequence.
    pub open spec fn fresh(self) -> Machine {
        Machine {
            intermediates: seq![],
            ignoring: false,
            param: 0,
            params: seq![],
            count: 0,
            ..self
        }
    }

    /// With one more intermediate; too many make the sequence one to ignore.
    pub open spec fn collect(self, byte: u8) -> Machine {
        if self.intermediates.len() < MAX_INTERMEDIATES {
            Machine { intermediates: self.intermediates.push(byte), ..self }
        } else {
            Machine { ignoring: true, ..self }
        }
    }

    /// With the number that was read taken as a parameter, or as a sub-parameter where
    /// `extend`; too many make the sequence one to ignore.
    pub open spec fn take_param(self, extend: bool) -> Machine {
        if self.count >= MAX_PARAMS {
            Machine { ignoring: true, ..self }
        } else {
            Machine {
                params: if extend {
                    extended(self.params, self.param)
                } else {
                    self.params.push(seq![self.param])
                },
                count: self.count + 1,
                ..self
            }
        }
    }

    /// After a colon: what follows is a sub-parameter. A number that was not taken stays.
    pub open spec fn colon(self) -> Machine {
        Machine {
            param: if self.count >= MAX_PARAMS {
                self.param
            } else {
                0
            },
            subparam: true,
            ..self.take_param(true)
        }
    }

    /// After a semicolon: what follows is a parameter.
    pub open spec fn semicolon(self) -> Machine {
        Machine { param: 0, subparam: false, ..self.take_param(self.subparam) }
    }

    /// After a digit.
    pub open spec fn digit(self, byte: u8) -> Machine {
        Machine { param: with_digit(self.param, byte), ..self }
    }

    /// With the parameter of an operating system command ended.
    pub open spec fn osc_mark(self) -> Machine {
        if self.osc_ends.len() >= MAX_OSC_PARAMS {
            self
        } else {
            Machine { osc_ends: self.osc_ends.push(self.osc_raw.len() as int), ..self }
        }
    }

    /// With one more byte of an operating system command; too many are dropped.
    pub open spec fn osc_put(self, byte: u8) -> Machine {
        if self.osc_raw.len() < MAX_OSC_RAW {
            Machine { osc_raw: self.osc_raw.push(byte), ..self }
        } else {
            self
        }
    }

    /// Without an operating system command.
    pub open spec fn osc_clear(self) -> Machine {
        Machine { osc_raw: seq![], osc_ends: seq![], ..self }
    }

    /// The operating system command that was collected.
    pub open spec fn osc(self, bell_terminated: bool) -> Action {
        let m = self.osc_mark();
        Action::Osc { params: osc_params(m.osc_raw, m.osc_ends), bell_terminated }
    }

    /// The escape sequence that `byte` ends.
    pub open spec fn esc(self, byte: u8) -> Action {
        Action::Esc { intermediates: self.intermediates, ignore: self.ignoring, byte }
    }

    /// What any byte does that has no meaning in the state at hand.
    pub open spec fn anywhere(self, byte: u8) -> (Machine, Seq<Action>) {
        if byte == 0x18 || byte == 0x1a {
            (self.to(State::Ground), seq![Action::Execute(byte)])
        } else if byte == 0x1b {
            (self.fresh().to(State::Escape), seq![])
        } else {
            (self, seq![])
        }
    }

    /// The end of a control sequence.
    pub open spec fn csi_end(self, byte: u8) -> (Machine, Seq<Action>) {
        let c = self.semicolon();
        (
            c.to(State::Ground),
            seq![
                Action::Csi {
                    params: c.params,
                    intermediates: c.intermediates,
                    ignore: c.ignoring,
                    action: byte as char,
                },
            ],
        )
    }

    /// The start of a device control string.
    pub open spec fn dcs_hook(self, byte: u8) -> (Machine, Seq<Action>) {
        let c = self.take_param(false);
        (
            c.to(State::DcsPassthrough),
            seq![
                Action::Hook {
                    params: c.params,
                    intermediates: c.intermediates,
                    ignore: c.ignoring,
                    action: byte as char,
                },
            ],
        )
    }

    /// After the introducer of a control sequence.
    pub open spec fn csi_entry(self, byte: u8) -> (Machine, Seq<Action>) {
        if is_inner_control(byte) {
            (self, seq![Action::Execute(byte)])
        } else if 0x20 <= byte <= 0x2f {
            (self.collect(byte).to(State::CsiIntermediate), seq![])
        } else if 0x30 <= byte <= 0x39 {
            (self.digit(byte).to(State::CsiParam), seq![])
        } else if byte == 0x3a {
            (self.colon().to(State::CsiParam), seq![])
        } else if byte == 0x3b {
            (self.semicolon().to(State::CsiParam), seq![])
        } else if 0x3c <= byte <= 0x3f {
            (self.collect(byte).to(State::CsiParam), seq![])
        } else if 0x40 <= byte <= 0x7e {
            self.csi_end(byte)
        } else {
            self.anywhere(byte)
        }
    }

    /// In a control sequence that is malformed.
    pub open spec fn csi_ignore(self, byte: u8) -> (Machine, Seq<Action>) {
        if is_inner_control(byte) {
            (self, seq![Action::Execute(byte)])
        } else if 0x40 <= byte <= 0x7e {
            (self.to(State::Ground), seq![])
        } else {
            self.anywhere(byte)
        }
    }

    /// After an intermediate of a control sequence.
    pub open spec fn csi_intermediate(self, byte: u8) -> (Machine, Seq<Action>) {
        if is_inner_control(byte) {
            (self, seq![Action::Execute(byte)])
        } else if 0x20 <= byte <= 0x2f {
            (self.collect(byte), seq![])
        } else if 0x30 <= byte <= 0x3f {
            (self.to(State::CsiIgnore), seq![])
        } else if 0x40 <= byte <= 0x7e {
            self.csi_end(byte)
        } else {
            self.anywhere(byte)
        }
    }

    /// In the parameters of a control sequence.
    pub open spec fn csi_param(self, byte: u8) -> (Machine, Seq<Action>) {
        if is_inner_control(byte) {
            (self, seq![Action::Execute(byte)])
        } else if 0x20 <= byte <= 0x2f {
            (self.collect(byte).to(State::CsiIntermediate), seq![])
        } else if 0x30 <= byte <= 0x39 {
            (self.digit(byte), seq![])
        } else if byte == 0x3a {
            (self.colon(), seq![])
        } else if 0x3b <= byte <= 0x3d {
            (self.semicolon(), seq![])
        } else if 0x3e <= byte <= 0x3f {
            (self.to(State::CsiIgnore), seq![])
        } else if 0x40 <= byte <= 0x7e {
            self.csi_end(byte)
        } else {
            self.anywhere(byte)
        }
    }

    /// After the introducer of a device control string.
    pub open spec fn dcs_entry(self, byte: u8) -> (Machine, Seq<Action>) {
        if is_inner_control(byte) {
            (self, seq![])
        } else if 0x20 <= byte <= 0x2f {
            (self.collect(byte).to(State::DcsIntermediate), seq![])
        } else if 0x30 <= byte <= 0x39 {
            (self.digit(byte).to(State::DcsParam), seq![])
        } else if byte == 0x3a {
            (self.colon().to(State::DcsParam), seq![])
        } else if byte == 0x3b {
            (self.semicolon().to(State::DcsParam), seq![])
        } else if 0x3c <= byte <= 0x3f {
            (self.collect(byte).to(State::DcsParam), seq![])
        } else if 0x40 <= byte <= 0x7e {
            self.dcs_hook(byte)
        } else {
            self.anywhere(byte)
        }
    }

    /// After an intermediate of a device control string.
    pub open spec fn dcs_intermediate(self, byte: u8) -> (Machine, Seq<Action>) {
        if is_inner_control(byte) {
            (self, seq![])
        } else if 0x20 <= byte <= 0x2f {
            (self.collect(byte), seq![])
        } else if 0x30 <= byte <= 0x3f {
            (self.to(State::DcsIgnore), seq![])
        } else if 0x40 <= byte <= 0x7e {
            self.dcs_hook(byte)
        } else {
            self.anywhere(byte)
        }
    }

    /// In the parameters of a device control string.
    pub open spec fn dcs_param(self, byte: u8) -> (Machine, Seq<Action>) {
        if is_inner_control(byte) {
            (self, seq![])
        } else if 0x20 <= byte <= 0x2f {
            (self.collect(byte).to(State::DcsIntermediate), seq![])
        } else if 0x30 <= byte <= 0x39 {
            (self.digit(byte), seq![])
        } else if byte == 0x3a {
            (self.colon(), seq![])
        } else if byte == 0x3b {
            (self.semicolon(), seq![])
        } else if 0x3c <= byte <= 0x3f {
            (self.to(State::DcsIgnore), seq![])
        } else if 0x40 <= byte <= 0x7e {
            self.dcs_hook(byte)
        } else {
            self.anywhere(byte)
        }
    }

    /// In the data of a device control string.
    pub open spec fn dcs_passthrough(self, byte: u8) -> (Machine, Seq<Action>) {
        if is_inner_control(byte) || 0x20 <= byte <= 0x7e {
            (self, seq![Action::Put(byte)])
        } else if byte == 0x18 || byte == 0x1a {
            (self.to(State::Ground), seq![Action::Unhook, Action::Execute(byte)])
        } else if byte == 0x1b {
            (self.fresh().to(State::Escape), seq![Action::Unhook])
        } else if byte == 0x9c {
            (self.to(State::Ground), seq![Action::Unhook])
        } else {
            (self, seq![])
        }
    }

    /// After an escape.
    pub open spec fn escape(self, byte: u8) -> (Machine, Seq<Action>) {
        if is_inner_control(byte) {
            (self, seq![Action::Execute(byte)])
        } else if byte == 0x18 || byte == 0x1a {
            (self.to(State::Ground), seq![Action::Execute(byte)])
        } else if 0x20 <= byte <= 0x2f {
            (self.collect(byte).to(State::EscapeIntermediate), seq![])
        } else if byte == 0x50 {
            (self.fresh().to(State::DcsEntry), seq![])
        } else if byte == 0x58 || byte == 0x5e || byte == 0x5f {
            (self.to(State::SosPmApcString), seq![])
        } else if byte == 0x5b {
            (self.fresh().to(State::CsiEntry), seq![])
        } else if byte == 0x5d {
            (self.osc_clear().to(State::OscString), seq![])
        } else if 0x30 <= byte <= 0x7e {
            (self.to(State::Ground), seq![self.esc(byte)])
        } else {
            (self, seq![])
        }
    }

    /// After an intermediate of an escape sequence.
    pub open spec fn escape_intermediate(self, byte: u8) -> (Machine, Seq<Action>) {
        if is_inner_control(byte) {
            (self, seq![Action::Execute(byte)])
        } else if 0x20 <= byte <= 0x2f {
            (self.collect(byte), seq![])
        } else if 0x30 <= byte <= 0x7e {
            (self.to(State::Ground), seq![self.esc(byte)])
        } else {
            self.anywhere(byte)
        }
    }

    /// In an operating system command.
    pub open spec fn osc_string(self, byte: u8) -> (Machine, Seq<Action>) {
        if byte == 0x07 {
            (self.osc_clear().to(State::Ground), seq![self.osc(true)])
        } else if is_inner_control(byte) {
            (self, seq![])
        } else if byte == 0x18 || byte == 0x1a {
            (self.osc_clear().to(State::Ground), seq![self.osc(false), Action::Execute(byte)])
        } else if byte == 0x1b {
            (self.osc_clear().fresh().to(State::Escape), seq![self.osc(false)])
        } else if byte == 0x3b {
            (self.osc_mark(), seq![])
        } else {
            (self.osc_put(byte), seq![])
        }
    }

    /// What a byte does outside of text.
    #[verifier::opaque]
    pub open spec fn step(self, byte: u8) -> (Machine, Seq<Action>) {
        match self.state {
            State::CsiEntry => self.csi_entry(byte),
            State::CsiIgnore => self.csi_ignore(byte),
            State::CsiIntermediate => self.csi_intermediate(byte),
            State::CsiParam => self.csi_param(byte),
            State::DcsEntry => self.dcs_entry(byte),
            State::DcsIgnore => self.anywhere(byte),
            State::DcsIntermediate => self.dcs_intermediate(byte),
            State::DcsParam => self.dcs_param(byte),
            State::DcsPassthrough => self.dcs_passthrough(byte),
            State::Escape => self.escape(byte),
            State::EscapeIntermediate => self.escape_intermediate(byte),
            State::OscString => self.osc_string(byte),
            State::SosPmApcString => self.anywhere(byte),
            State::Ground => (self, seq![]),
        }
    }
}

/// What a character of text is: a control is executed, and anything else is printed.
pub open spec fn text_action(c: char) -> Action {
    if (c as u32) < 0x20 || 0x80 <= (c as u32) <= 0x9f {
        Action::Execute(c as u8)
    } else {
        Action::Print(c)
    }
}

/// What `len` malformed bytes that begin with `byte` are: a lone byte up to 0x9f is a control,
/// and anything else is shown as a replacement character.
pub open spec fn malformed_action(byte: u8, len: int) -> Action {
    if len == 1 && byte <= 0x9f {
        Action::Execute(byte)
    } else {
        Action::Print(utf8::REPLACEMENT)
    }
}

/// What reading some input comes to: the parser after it, the bytes at its end that begin a
/// character, and the actions, in order.
pub struct Outcome {
    pub machine: Machine,
    pub partial: Seq<u8>,
    pub actions: Seq<Action>,
}

/// `outcome`, with `actions` before its own.
pub open spec fn after(actions: Seq<Action>, outcome: Outcome) -> Outcome {
    Outcome { actions: actions + outcome.actions, ..outcome }
}

proof fn after_both(a: Seq<Action>, b: Seq<Action>, outcome: Outcome)
    ensures
        after(a, after(b, outcome)) == after(a + b, outcome),
{
    assert(a + (b + outcome.actions) =~= (a + b) + outcome.actions);
}

/// What a parser that holds no incomplete character makes of `input`.
pub open spec fn run(machine: Machine, input: Seq<u8>) -> Outcome
    decreases input.len(),
{
    if input.len() == 0 {
        Outcome { machine, partial: seq![], actions: seq![] }
    } else if machine.state != State::Ground {
        let (next, actions) = machine.step(input[0]);
        after(actions, run(next, input.skip(1)))
    } else if input[0] == 0x1b {
        run(machine.fresh().to(State::Escape), input.skip(1))
    } else {
        match utf8::front(input) {
            Decoded::Char { c, len } => if 0 < len <= input.len() {
                after(seq![text_action(c)], run(machine, input.skip(len as int)))
            } else {
                Outcome { machine, partial: seq![], actions: seq![] }
            },
            Decoded::Invalid { len } => if 0 < len <= input.len() {
                after(
                    seq![malformed_action(input[0], len as int)],
                    run(machine, input.skip(len as int)),
                )
            } else {
                Outcome { machine, partial: seq![], actions: seq![] }
            },
            Decoded::Incomplete => Outcome { machine, partial: input, actions: seq![] },
        }
    }
}

/// How many bytes of `all` a parser takes that held the start of the character at its front, and
/// that reads no more than four bytes to complete it. Where these four end in a sequence that is
/// malformed or not complete, the whole characters before it go with the first one, unseen.
pub open spec fn taken(all: Seq<u8>) -> int {
    match utf8::front(all) {
        Decoded::Char { c, len } => {
            let four = if all.len() <= 4 {
                all
            } else {
                all.take(4)
            };
            if utf8::valid_up_to(four) == four.len() {
                len as int
            } else {
                utf8::valid_up_to(four)
            }
        },
        Decoded::Invalid { len } => len as int,
        Decoded::Incomplete => all.len() as int,
    }
}

/// What a parser that holds the incomplete character `partial` makes of `input`. The character
/// that it completes is printed, whatever it is.
pub open spec fn resume(machine: Machine, partial: Seq<u8>, input: Seq<u8>) -> Outcome {
    if partial.len() == 0 {
        run(machine, input)
    } else {
        let all = partial + input;
        match utf8::front(all) {
            Decoded::Char { c, len } => after(
                seq![Action::Print(c)],
                run(machine, all.skip(taken(all))),
            ),
            Decoded::Invalid { len } => after(
                seq![Action::Print(utf8::REPLACEMENT)],
                run(machine, all.skip(taken(all))),
            ),
            Decoded::Incomplete => Outcome { machine, partial: all, actions: seq![] },
        }
    }
}

/// The parser.
pub struct Parser {
    state: State,
    intermediates: Vec<u8>,
    params: Params,
    param: u16,
    ignoring: bool,
    osc_raw: Vec<u8>,
    osc_ends: Vec<usize>,
    partial_utf8: Vec<u8>,
    subparam_continuation: bool,
}

/// Numbers as integers.
pub open spec fn ints(ends: Seq<usize>) -> Seq<int> {
    ends.map_values(|e: usize| e as int)
}

impl Default for Parser {
    fn default() -> (r: Self)
        ensures
            r.machine() == Machine::initial(),
            r.partial() == Seq::<u8>::empty(),
            r.wf(),
    {
        Parser::new()
    }
}

impl Parser {
    /// What the parser has collected.
    pub closed spec fn machine(&self) -> Machine {
        Machine {
            state: self.state,
            intermediates: self.intermediates@,
            params: self.params@,
            count: self.params.count(),
            param: self.param,
            ignoring: self.ignoring,
            osc_raw: self.osc_raw@,
            osc_ends: ints(self.osc_ends@),
            subparam: self.subparam_continuation,
        }
    }

    /// The bytes of a character that is not complete yet.
    pub closed spec fn partial(&self) -> Seq<u8> {
        self.partial_utf8@
    }

    /// What is collected keeps to its bounds, and only text can be incomplete.
    pub open spec fn wf(&self) -> bool {
        &&& self.machine().wf()
        &&& holds_a_start(self.machine(), self.partial())
    }

    /// A parser that has read nothing.
    pub fn new() -> (r: Self)
        ensures
            r.machine() == Machine::initial(),
            r.partial() == Seq::<u8>::empty(),
            r.wf(),
    {
        let r = Parser {
            state: State::Ground,
            intermediates: Vec::new(),
            params: Params::new(),
            param: 0,
            ignoring: false,
            osc_raw: Vec::new(),
            osc_ends: Vec::new(),
            partial_utf8: Vec::new(),
            subparam_continuation: false,
        };
        assert(r.machine().osc_ends =~= seq![]);
        r
    }

    /// Reads `bytes`, and performs what is found in them.
    pub fn advance<P: Perform>(&mut self, performer: &mut P, bytes: &[u8])
        requires
            old(self).wf(),
            old(performer).ready(),
        ensures
            final(self).wf(),
            final(performer).ready(),
            final(self).machine() == resume(old(self).machine(), old(self).partial(), bytes@).machine,
            final(self).partial() == resume(
                old(self).machine(),
                old(self).partial(),
                bytes@,
            ).partial,
            reaches(
                *old(performer),
                resume(old(self).machine(), old(self).partial(), bytes@).actions,
                *final(performer),
            ),
    {
        let ghost all = resume(self.machine(), self.partial(), bytes@);
        let ghost start = *performer;
        let ghost mut done: Seq<Action> = seq![];
        let mut i: usize = 0;
        proof {
            reaches_none(start);
            assert(bytes@.skip(0) =~= bytes@);
        }
        if self.partial_utf8.len() != 0 {
            i = self.advance_partial_utf8(performer, bytes);
            if self.partial_utf8.len() != 0 {
                return;
            }
            proof {
                done = choose|a: Seq<Action>|
                    a.len() == 1 && reaches(start, a, *performer) && all == after(
                        a,
                        run(self.machine(), bytes@.skip(i as int)),
                    );
            }
        } else {
            assert(all.actions =~= done + run(self.machine(), bytes@.skip(0)).actions);
        }
        while i < bytes.len()
            invariant
                i <= bytes@.len(),
                start == *old(performer),
                all == resume(old(self).machine(), old(self).partial(), bytes@),
                self.wf(),
                self.partial().len() == 0,
                performer.ready(),
                reaches(start, done, *performer),
                all == after(done, run(self.machine(), bytes@.skip(i as int))),
            decreases bytes@.len() - i,
        {
            let ghost before = *performer;
            let ghost rest = run(self.machine(), bytes@.skip(i as int));
            let n: usize = self.advance_unit(performer, bytes, i);
            if self.partial_utf8.len() != 0 {
                assert(all.actions =~= done);
                return;
            }
            proof {
                let now = run(self.machine(), bytes@.skip(i + n));
                let a = choose|a: Seq<Action>|
                    reaches(before, a, *performer) && rest == after(a, now);
                reaches_both(start, done, before, a, *performer);
                after_both(done, a, now);
                done = done + a;
            }
            i = i + n;
        }
        assert(bytes@.skip(i as int) =~= seq![]);
        assert(all.actions =~= done);
    }

    /// Reads one unit at `bytes[at..]`: a byte of a sequence, or a unit of text.
    fn advance_unit<P: Perform>(&mut self, performer: &mut P, bytes: &[u8], at: usize) -> (n: usize)
        requires
            old(self).wf(),
            old(self).partial().len() == 0,
            at < bytes@.len(),
            old(performer).ready(),
        ensures
            final(self).wf(),
            final(performer).ready(),
            0 < n <= bytes@.len() - at,
            final(self).partial().len() > 0 ==> {
                &&& *final(performer) == *old(performer)
                &&& run(old(self).machine(), bytes@.skip(at as int)) == (Outcome {
                    machine: final(self).machine(),
                    partial: final(self).partial(),
                    actions: seq![],
                })
            },
            final(self).partial().len() == 0 ==> exists|a: Seq<Action>|
                #[trigger] reaches(*old(performer), a, *final(performer)) && run(
                    old(self).machine(),
                    bytes@.skip(at as int),
                ) == after(a, run(final(self).machine(), bytes@.skip(at + n))),
    {
        if self.state == State::Ground {
            return self.advance_ground(performer, bytes, at);
        }
        let ghost machine = self.machine();
        let ghost tail = bytes@.skip(at as int);
        self.change_state(performer, bytes[at]);
        assert(tail.skip(1) =~= bytes@.skip(at + 1));
        assert(reaches(*old(performer), machine.step(tail[0]).1, *performer));
        1
    }

    /// Reads one unit of text at `bytes[at..]`: a character, a malformed sequence, an escape,
    /// or an incomplete character at the end of the input.
    fn advance_ground<P: Perform>(&mut self, performer: &mut P, bytes: &[u8], at: usize) -> (n:
        usize)
        requires
            old(self).wf(),
            old(self).partial().len() == 0,
            old(self).machine().state == State::Ground,
            at < bytes@.len(),
            old(performer).ready(),
        ensures
            final(self).wf(),
            final(performer).ready(),
            0 < n <= bytes@.len() - at,
            final(self).partial().len() > 0 ==> {
                &&& *final(performer) == *old(performer)
                &&& final(self).machine() == old(self).machine()
                &&& final(self).partial() == bytes@.skip(at as int)
                &&& utf8::front(bytes@.skip(at as int)) is Incomplete
                &&& run(old(self).machine(), bytes@.skip(at as int)) == (Outcome {
                    machine: old(self).machine(),
                    partial: bytes@.skip(at as int),
                    actions: seq![],
                })
            },
            final(self).partial().len() == 0 ==> exists|a: Seq<Action>|
                #[trigger] reaches(*old(performer), a, *final(performer)) && run(
                    old(self).machine(),
                    bytes@.skip(at as int),
                ) == after(a, run(final(self).machine(), bytes@.skip(at + n))),
    {
        let ghost tail = bytes@.skip(at as int);
        let ghost before = *performer;
        proof {
            utf8::front_bounds(tail);
            assert(tail[0] == bytes@[at as int]);
        }
        if bytes[at] == 0x1b {
            self.reset_params();
            self.state = State::Escape;
            proof {
                reaches_none(before);
                assert(tail.skip(1) =~= bytes@.skip(at + 1));
                let rest = run(self.machine(), bytes@.skip(at + 1));
                assert(seq![] + rest.actions =~= rest.actions);
                assert(run(old(self).machine(), tail) == after(seq![], rest));
            }
            return 1;
        }
        match utf8::decode(bytes, at) {
            Decoded::Char { c, len } => {
                Self::ground_dispatch(performer, c);
                proof {
                    assert(tail.skip(len as int) =~= bytes@.skip(at + len));
                    reaches_one(before, text_action(c), *performer);
                    assert(run(old(self).machine(), tail) == after(
                        seq![text_action(c)],
                        run(self.machine(), bytes@.skip(at + len)),
                    ));
                }
                len
            },
            Decoded::Invalid { len } => {
                if len == 1 && bytes[at] <= 0x9f {
                    performer.execute(bytes[at]);
                } else {
                    performer.print(utf8::REPLACEMENT);
                }
                proof {
                    let a = malformed_action(tail[0], len as int);
                    assert(tail.skip(len as int) =~= bytes@.skip(at + len));
                    reaches_one(before, a, *performer);
                    assert(run(old(self).machine(), tail) == after(
                        seq![a],
                        run(self.machine(), bytes@.skip(at + len)),
                    ));
                }
                len
            },
            Decoded::Incomplete => {
                let mut i: usize = at;
                assert(self.partial_utf8@ =~= bytes@.subrange(at as int, at as int));
                while i < bytes.len()
                    invariant
                        at <= i <= bytes@.len(),
                        self.machine() == old(self).machine(),
                        self.partial_utf8@ == bytes@.subrange(at as int, i as int),
                    decreases bytes@.len() - i,
                {
                    self.partial_utf8.push(bytes[i]);
                    i = i + 1;
                    assert(self.partial_utf8@ =~= bytes@.subrange(at as int, i as int));
                }
                assert(self.partial() =~= tail);
                bytes.len() - at
            },
        }
    }

    /// Performs a character of text.
    fn ground_dispatch<P: Perform>(performer: &mut P, c: char)
        requires
            old(performer).ready(),
        ensures
            final(performer).ready(),
            old(performer).responds(text_action(c), final(performer)),
    {
        let code: u32 = c as u32;
        if code < 0x20 || (0x80 <= code && code <= 0x9f) {
            performer.execute(code as u8);
        } else {
            performer.print(c);
        }
    }

    /// Completes the character that the last input broke off in. The result is the number of
    /// bytes that it took, or all of them where it is still incomplete.
    fn advance_partial_utf8<P: Perform>(&mut self, performer: &mut P, bytes: &[u8]) -> (n: usize)
        requires
            old(self).wf(),
            old(self).partial().len() > 0,
            old(performer).ready(),
        ensures
            final(self).wf(),
            final(performer).ready(),
            n <= bytes@.len(),
            final(self).partial().len() > 0 ==> {
                &&& *final(performer) == *old(performer)
                &&& resume(old(self).machine(), old(self).partial(), bytes@) == (Outcome {
                    machine: final(self).machine(),
                    partial: final(self).partial(),
                    actions: seq![],
                })
            },
            final(self).partial().len() == 0 ==> exists|a: Seq<Action>|
                a.len() == 1 && #[trigger] reaches(*old(performer), a, *final(performer))
                    && resume(old(self).machine(), old(self).partial(), bytes@) == after(
                    a,
                    run(final(self).machine(), bytes@.skip(n as int)),
                ),
    {
        let ghost before = *performer;
        let ghost held = self.partial();
        let ghost all = held + bytes@;
        let old_bytes: usize = self.partial_utf8.len();
        let mut joined: Vec<u8> = Vec::new();
        joined.append(&mut self.partial_utf8);
        let mut taken: usize = 0;
        proof {
            utf8::front_bounds(held);
            utf8::front_extends(held, bytes@);
            utf8::front_bounds(all);
            assert(joined@ =~= all.take(old_bytes as int));
        }
        while joined.len() < 4 && taken < bytes.len()
            invariant
                taken <= bytes@.len(),
                0 < old_bytes <= 3,
                old_bytes == held.len(),
                joined@.len() == old_bytes + taken,
                joined@.len() <= 4,
                all == held + bytes@,
                joined@ == all.take(old_bytes + taken),
                self.machine() == old(self).machine(),
                self.partial_utf8@.len() == 0,
            decreases bytes@.len() - taken,
        {
            joined.push(bytes[taken]);
            taken = taken + 1;
            assert(joined@ =~= all.take(old_bytes + taken));
        }
        proof {
            if joined@.len() < 4 {
                assert(joined@ =~= all);
            }
            front_of_four(all, joined@);
            assert(joined@.skip(0) =~= joined@);
        }
        match utf8::decode(joined.as_slice(), 0) {
            Decoded::Char { c, len } => {
                let whole: usize = utf8::well_formed_len(joined.as_slice());
                let used: usize = if whole == joined.len() {
                    len
                } else {
                    whole
                };
                performer.print(c);
                proof {
                    utf8::valid_up_to_bounds(joined@);
                    assert(joined@ =~= if all.len() <= 4 {
                        all
                    } else {
                        all.take(4)
                    });
                    reaches_one(before, Action::Print(c), *performer);
                    assert(all.skip(used as int) =~= bytes@.skip(used - old_bytes));
                    assert(resume(old(self).machine(), held, bytes@) == after(
                        seq![Action::Print(c)],
                        run(self.machine(), bytes@.skip(used - old_bytes)),
                    ));
                }
                used - old_bytes
            },
            Decoded::Invalid { len } => {
                performer.print(utf8::REPLACEMENT);
                proof {
                    let a = Action::Print(utf8::REPLACEMENT);
                    reaches_one(before, a, *performer);
                    assert(all.skip(len as int) =~= bytes@.skip(len - old_bytes));
                    assert(resume(old(self).machine(), held, bytes@) == after(
                        seq![a],
                        run(self.machine(), bytes@.skip(len - old_bytes)),
                    ));
                }
                len - old_bytes
            },
            Decoded::Incomplete => {
                assert(joined@ =~= all);
                self.partial_utf8 = joined;
                taken
            },
        }
    }
}

/// The front of a byte sequence is decided by its first four bytes.
proof fn front_of_four(all: Seq<u8>, first: Seq<u8>)
    requires
        all.len() > 0,
        first.len() > 0,
        first.len() == 4 || first == all,
        first.len() <= all.len(),
        first == all.take(first.len() as int),
    ensures
        utf8::front(first) == utf8::front(all),
{
    if first.len() == 4 {
        utf8::front_bounds(first);
        assert(all =~= first + all.skip(4));
        utf8::front_is_stable(first, all.skip(4));
    }
}

/// Whether a sequence executes `byte` without ending.
fn is_inner(byte: u8) -> (b: bool)
    ensures
        b == is_inner_control(byte),
{
    byte <= 0x17 || byte == 0x19 || (0x1c <= byte && byte <= 0x1f)
}

impl Parser {
    /// Reads a byte after the introducer of a control sequence.
    fn advance_csi_entry<P: Perform>(&mut self, performer: &mut P, byte: u8)
        requires
            old(self).wf(),
            old(self).partial().len() == 0,
            old(performer).ready(),
        ensures
            final(self).wf(),
            final(self).partial().len() == 0,
            final(performer).ready(),
            final(self).machine() == old(self).machine().csi_entry(byte).0,
            reaches(*old(performer), old(self).machine().csi_entry(byte).1, *final(performer)),
    {
        let ghost before = *performer;
        proof {
            reaches_none(before);
        }
        if is_inner(byte) {
            performer.execute(byte);
            proof {
                reaches_one(before, Action::Execute(byte), *performer);
            }
        } else if 0x20 <= byte && byte <= 0x2f {
            self.action_collect(byte);
            self.state = State::CsiIntermediate;
        } else if 0x30 <= byte && byte <= 0x39 {
            self.action_paramnext(byte);
            self.state = State::CsiParam;
        } else if byte == 0x3a {
            self.action_subparam();
            self.state = State::CsiParam;
        } else if byte == 0x3b {
            self.action_param();
            self.state = State::CsiParam;
        } else if 0x3c <= byte && byte <= 0x3f {
            self.action_collect(byte);
            self.state = State::CsiParam;
        } else if 0x40 <= byte && byte <= 0x7e {
            self.action_csi_dispatch(performer, byte);
        } else {
            self.anywhere(performer, byte);
        }
    }

    /// Reads a byte in a malformed control sequence.
    fn advance_csi_ignore<P: Perform>(&mut self, performer: &mut P, byte: u8)
        requires
            old(self).wf(),
            old(self).partial().len() == 0,
            old(performer).ready(),
        ensures
            final(self).wf(),
            final(self).partial().len() == 0,
            final(performer).ready(),
            final(self).machine() == old(self).machine().csi_ignore(byte).0,
            reaches(*old(performer), old(self).machine().csi_ignore(byte).1, *final(performer)),
    {
        let ghost before = *performer;
        proof {
            reaches_none(before);
        }
        if is_inner(byte) {
            performer.execute(byte);
            proof {
                reaches_one(before, Action::Execute(byte), *performer);
            }
        } else if 0x40 <= byte && byte <= 0x7e {
            self.state = State::Ground;
        } else {
            self.anywhere(performer, byte);
        }
    }

    /// Reads a byte after an intermediate of a control sequence.
    fn advance_csi_intermediate<P: Perform>(&mut self, performer: &mut P, byte: u8)
        requires
            old(self).wf(),
            old(self).partial().len() == 0,
            old(performer).ready(),
        ensures
            final(self).wf(),
            final(self).partial().len() == 0,
            final(performer).ready(),
            final(self).machine() == old(self).machine().csi_intermediate(byte).0,
            reaches(*old(performer), old(self).machine().csi_intermediate(byte).1, *final(performer)),
    {
        let ghost before = *performer;
        proof {
            reaches_none(before);
        }
        if is_inner(byte) {
            performer.execute(byte);
            proof {
                reaches_one(before, Action::Execute(byte), *performer);
            }
        } else if 0x20 <= byte && byte <= 0x2f {
            self.action_collect(byte);
        } else if 0x30 <= byte && byte <= 0x3f {
            self.state = State::CsiIgnore;
        } else if 0x40 <= byte && byte <= 0x7e {
            self.action_csi_dispatch(performer, byte);
        } else {
            self.anywhere(performer, byte);
        }
    }

    /// Reads a byte in the parameters of a control sequence.
    fn advance_csi_param<P: Perform>(&mut self, performer: &mut P, byte: u8)
        requires
            old(self).wf(),
            old(self).partial().len() == 0,
            old(performer).ready(),
        ensures
            final(self).wf(),
            final(self).partial().len() == 0,
            final(performer).ready(),
            final(self).machine() == old(self).machine().csi_param(byte).0,
            reaches(*old(performer), old(self).machine().csi_param(byte).1, *final(performer)),
    {
        let ghost before = *performer;
        proof {
            reaches_none(before);
        }
        if is_inner(byte) {
            performer.execute(byte);
            proof {
                reaches_one(before, Action::Execute(byte), *performer);
            }
        } else if 0x20 <= byte && byte <= 0x2f {
            self.action_collect(byte);
            self.state = State::CsiIntermediate;
        } else if 0x30 <= byte && byte <= 0x39 {
            self.action_paramnext(byte);
        } else if byte == 0x3a {
            self.action_subparam();
        } else if 0x3b <= byte && byte <= 0x3d {
            self.action_param();
        } else if 0x3e <= byte && byte <= 0x3f {
            self.state = State::CsiIgnore;
        } else if 0x40 <= byte && byte <= 0x7e {
            self.action_csi_dispatch(performer, byte);
        } else {
            self.anywhere(performer, byte);
        }
    }

    /// Reads a byte after the introducer of a device control string.
    fn advance_dcs_entry<P: Perform>(&mut self, performer: &mut P, byte: u8)
        requires
            old(self).wf(),
            old(self).partial().len() == 0,
            old(performer).ready(),
        ensures
            final(self).wf(),
            final(self).partial().len() == 0,
            final(performer).ready(),
            final(self).machine() == old(self).machine().dcs_entry(byte).0,
            reaches(*old(performer), old(self).machine().dcs_entry(byte).1, *final(performer)),
    {
        let ghost before = *performer;
        proof {
            reaches_none(before);
        }
        if is_inner(byte) {
        } else if 0x20 <= byte && byte <= 0x2f {
            self.action_collect(byte);
            self.state = State::DcsIntermediate;
        } else if 0x30 <= byte && byte <= 0x39 {
            self.action_paramnext(byte);
            self.state = State::DcsParam;
        } else if byte == 0x3a {
            self.action_subparam();
            self.state = State::DcsParam;
        } else if byte == 0x3b {
            self.action_param();
            self.state = State::DcsParam;
        } else if 0x3c <= byte && byte <= 0x3f {
            self.action_collect(byte);
            self.state = State::DcsParam;
        } else if 0x40 <= byte && byte <= 0x7e {
            self.action_hook(performer, byte);
        } else {
            self.anywhere(performer, byte);
        }
    }

    /// Reads a byte after an intermediate of a device control string.
    fn advance_dcs_intermediate<P: Perform>(&mut self, performer: &mut P, byte: u8)
        requires
            old(self).wf(),
            old(self).partial().len() == 0,
            old(performer).ready(),
        ensures
            final(self).wf(),
            final(self).partial().len() == 0,
            final(performer).ready(),
            final(self).machine() == old(self).machine().dcs_intermediate(byte).0,
            reaches(*old(performer), old(self).machine().dcs_intermediate(byte).1, *final(performer)),
    {
        let ghost before = *performer;
        proof {
            reaches_none(before);
        }
        if is_inner(byte) {
        } else if 0x20 <= byte && byte <= 0x2f {
            self.action_collect(byte);
        } else if 0x30 <= byte && byte <= 0x3f {
            self.state = State::DcsIgnore;
        } else if 0x40 <= byte && byte <= 0x7e {
            self.action_hook(performer, byte);
        } else {
            self.anywhere(performer, byte);
        }
    }

    /// Reads a byte in the parameters of a device control string.
    fn advance_dcs_param<P: Perform>(&mut self, performer: &mut P, byte: u8)
        requires
            old(self).wf(),
            old(self).partial().len() == 0,
            old(performer).ready(),
        ensures
            final(self).wf(),
            final(self).partial().len() == 0,
            final(performer).ready(),
            final(self).machine() == old(self).machine().dcs_param(byte).0,
            reaches(*old(performer), old(self).machine().dcs_param(byte).1, *final(performer)),
    {
        let ghost before = *performer;
        proof {
            reaches_none(before);
        }
        if is_inner(byte) {
        } else if 0x20 <= byte && byte <= 0x2f {
            self.action_collect(byte);
            self.state = State::DcsIntermediate;
        } else if 0x30 <= byte && byte <= 0x39 {
            self.action_paramnext(byte);
        } else if byte == 0x3a {
            self.action_subparam();
        } else if byte == 0x3b {
            self.action_param();
        } else if 0x3c <= byte && byte <= 0x3f {
            self.state = State::DcsIgnore;
        } else if 0x40 <= byte && byte <= 0x7e {
            self.action_hook(performer, byte);
        } else {
            self.anywhere(performer, byte);
        }
    }

    /// Reads a byte in the data of a device control string.
    fn advance_dcs_passthrough<P: Perform>(&mut self, performer: &mut P, byte: u8)
        requires
            old(self).wf(),
            old(self).partial().len() == 0,
            old(performer).ready(),
        ensures
            final(self).wf(),
            final(self).partial().len() == 0,
            final(performer).ready(),
            final(self).machine() == old(self).machine().dcs_passthrough(byte).0,
            reaches(*old(performer), old(self).machine().dcs_passthrough(byte).1, *final(performer)),
    {
        let ghost before = *performer;
        proof {
            reaches_none(before);
        }
        if is_inner(byte) || (0x20 <= byte && byte <= 0x7e) {
            performer.put(byte);
            proof {
                reaches_one(before, Action::Put(byte), *performer);
            }
        } else if byte == 0x18 || byte == 0x1a {
            performer.unhook();
            let ghost mid = *performer;
            performer.execute(byte);
            self.state = State::Ground;
            proof {
                reaches_one(before, Action::Unhook, mid);
                reaches_one(mid, Action::Execute(byte), *performer);
                reaches_both(before, seq![Action::Unhook], mid, seq![Action::Execute(byte)], *performer);
                assert(seq![Action::Unhook] + seq![Action::Execute(byte)] =~= seq![Action::Unhook, Action::Execute(byte)]);
            }
        } else if byte == 0x1b {
            performer.unhook();
            self.reset_params();
            self.state = State::Escape;
            proof {
                reaches_one(before, Action::Unhook, *performer);
            }
        } else if byte == 0x9c {
            performer.unhook();
            self.state = State::Ground;
            proof {
                reaches_one(before, Action::Unhook, *performer);
            }
        }
    }

    /// Reads a byte after an escape.
    fn advance_esc<P: Perform>(&mut self, performer: &mut P, byte: u8)
        requires
            old(self).wf(),
            old(self).partial().len() == 0,
            old(performer).ready(),
        ensures
            final(self).wf(),
            final(self).partial().len() == 0,
            final(performer).ready(),
            final(self).machine() == old(self).machine().escape(byte).0,
            reaches(*old(performer), old(self).machine().escape(byte).1, *final(performer)),
    {
        let ghost before = *performer;
        proof {
            reaches_none(before);
        }
        if is_inner(byte) {
            performer.execute(byte);
            proof {
                reaches_one(before, Action::Execute(byte), *performer);
            }
        } else if byte == 0x18 || byte == 0x1a {
            performer.execute(byte);
            self.state = State::Ground;
            proof {
                reaches_one(before, Action::Execute(byte), *performer);
            }
        } else if 0x20 <= byte && byte <= 0x2f {
            self.action_collect(byte);
            self.state = State::EscapeIntermediate;
        } else if byte == 0x50 {
            self.reset_params();
            self.state = State::DcsEntry;
        } else if byte == 0x58 || byte == 0x5e || byte == 0x5f {
            self.state = State::SosPmApcString;
        } else if byte == 0x5b {
            self.reset_params();
            self.state = State::CsiEntry;
        } else if byte == 0x5d {
            self.osc_raw.clear();
            self.osc_ends.clear();
            self.state = State::OscString;
            assert(self.machine().osc_ends =~= seq![]);
        } else if 0x30 <= byte && byte <= 0x7e {
            performer.esc_dispatch(self.intermediates.as_slice(), self.ignoring, byte);
            self.state = State::Ground;
            proof {
                reaches_one(before, old(self).machine().esc(byte), *performer);
            }
        }
    }

    /// Reads a byte after an intermediate of an escape sequence.
    fn advance_esc_intermediate<P: Perform>(&mut self, performer: &mut P, byte: u8)
        requires
            old(self).wf(),
            old(self).partial().len() == 0,
            old(performer).ready(),
        ensures
            final(self).wf(),
            final(self).partial().len() == 0,
            final(performer).ready(),
            final(self).machine() == old(self).machine().escape_intermediate(byte).0,
            reaches(*old(performer), old(self).machine().escape_intermediate(byte).1, *final(performer)),
    {
        let ghost before = *performer;
        proof {
            reaches_none(before);
        }
        if is_inner(byte) {
            performer.execute(byte);
            proof {
                reaches_one(before, Action::Execute(byte), *performer);
            }
        } else if 0x20 <= byte && byte <= 0x2f {
            self.action_collect(byte);
        } else if 0x30 <= byte && byte <= 0x7e {
            performer.esc_dispatch(self.intermediates.as_slice(), self.ignoring, byte);
            self.state = State::Ground;
            proof {
                reaches_one(before, old(self).machine().esc(byte), *performer);
            }
        } else {
            self.anywhere(performer, byte);
        }
    }

    /// Reads a byte in an operating system command.
    fn advance_osc_string<P: Perform>(&mut self, performer: &mut P, byte: u8)
        requires
            old(self).wf(),
            old(self).partial().len() == 0,
            old(performer).ready(),
        ensures
            final(self).wf(),
            final(self).partial().len() == 0,
            final(performer).ready(),
            final(self).machine() == old(self).machine().osc_string(byte).0,
            reaches(*old(performer), old(self).machine().osc_string(byte).1, *final(performer)),
    {
        let ghost before = *performer;
        proof {
            reaches_none(before);
        }
        if byte == 0x07 {
            self.osc_end(performer, byte);
            self.state = State::Ground;
            proof {
                reaches_one(before, old(self).machine().osc(true), *performer);
            }
        } else if is_inner(byte) {
        } else if byte == 0x18 || byte == 0x1a {
            self.osc_end(performer, byte);
            let ghost mid = *performer;
            performer.execute(byte);
            self.state = State::Ground;
            proof {
                reaches_one(before, old(self).machine().osc(false), mid);
                reaches_one(mid, Action::Execute(byte), *performer);
                reaches_both(before, seq![old(self).machine().osc(false)], mid, seq![Action::Execute(byte)], *performer);
                assert(seq![old(self).machine().osc(false)] + seq![Action::Execute(byte)] =~= seq![old(self).machine().osc(false), Action::Execute(byte)]);
            }
        } else if byte == 0x1b {
            self.osc_end(performer, byte);
            self.reset_params();
            self.state = State::Escape;
            proof {
                reaches_one(before, old(self).machine().osc(false), *performer);
            }
        } else if byte == 0x3b {
            self.action_osc_put_param();
        } else {
            self.action_osc_put(byte);
        }
    }

    /// Reads a byte outside of text.
    fn change_state<P: Perform>(&mut self, performer: &mut P, byte: u8)
        requires
            old(self).wf(),
            old(self).partial().len() == 0,
            old(self).machine().state != State::Ground,
            old(performer).ready(),
        ensures
            final(self).wf(),
            final(self).partial().len() == 0,
            final(performer).ready(),
            final(self).machine() == old(self).machine().step(byte).0,
            reaches(*old(performer), old(self).machine().step(byte).1, *final(performer)),
    {
        reveal(Machine::step);
        match self.state {
            State::CsiEntry => self.advance_csi_entry(performer, byte),
            State::CsiIgnore => self.advance_csi_ignore(performer, byte),
            State::CsiIntermediate => self.advance_csi_intermediate(performer, byte),
            State::CsiParam => self.advance_csi_param(performer, byte),
            State::DcsEntry => self.advance_dcs_entry(performer, byte),
            State::DcsIgnore => self.anywhere(performer, byte),
            State::DcsIntermediate => self.advance_dcs_intermediate(performer, byte),
            State::DcsParam => self.advance_dcs_param(performer, byte),
            State::DcsPassthrough => self.advance_dcs_passthrough(performer, byte),
            State::Escape => self.advance_esc(performer, byte),
            State::EscapeIntermediate => self.advance_esc_intermediate(performer, byte),
            State::OscString => self.advance_osc_string(performer, byte),
            State::SosPmApcString => self.anywhere(performer, byte),
            State::Ground => {},
        }
    }

    /// Reads a byte that has no meaning in the state at hand.
    fn anywhere<P: Perform>(&mut self, performer: &mut P, byte: u8)
        requires
            old(self).wf(),
            old(self).partial().len() == 0,
            old(performer).ready(),
        ensures
            final(self).wf(),
            final(self).partial().len() == 0,
            final(performer).ready(),
            final(self).machine() == old(self).machine().anywhere(byte).0,
            reaches(*old(performer), old(self).machine().anywhere(byte).1, *final(performer)),
    {
        let ghost before = *performer;
        proof {
            reaches_none(before);
        }
        if byte == 0x18 || byte == 0x1a {
            performer.execute(byte);
            self.state = State::Ground;
            proof {
                reaches_one(before, Action::Execute(byte), *performer);
            }
        } else if byte == 0x1b {
            self.reset_params();
            self.state = State::Escape;
        }
    }

    /// Reads a byte that ends a control sequence.
    fn action_csi_dispatch<P: Perform>(&mut self, performer: &mut P, byte: u8)
        requires
            old(self).wf(),
            old(self).partial().len() == 0,
            old(performer).ready(),
        ensures
            final(self).wf(),
            final(self).partial().len() == 0,
            final(performer).ready(),
            final(self).machine() == old(self).machine().csi_end(byte).0,
            reaches(*old(performer), old(self).machine().csi_end(byte).1, *final(performer)),
    {
        let ghost before = *performer;
        self.action_param();
        performer.csi_dispatch(
            &self.params,
            self.intermediates.as_slice(),
            self.ignoring,
            byte as char,
        );
        self.state = State::Ground;
        proof {
            reaches_one(before, old(self).machine().csi_end(byte).1[0], *performer);
        }
    }

    /// Reads a byte that starts a device control string.
    fn action_hook<P: Perform>(&mut self, performer: &mut P, byte: u8)
        requires
            old(self).wf(),
            old(self).partial().len() == 0,
            old(performer).ready(),
        ensures
            final(self).wf(),
            final(self).partial().len() == 0,
            final(performer).ready(),
            final(self).machine() == old(self).machine().dcs_hook(byte).0,
            reaches(*old(performer), old(self).machine().dcs_hook(byte).1, *final(performer)),
    {
        let ghost before = *performer;
        self.action_take(false);
        performer.hook(&self.params, self.intermediates.as_slice(), self.ignoring, byte as char);
        self.state = State::DcsPassthrough;
        proof {
            reaches_one(before, old(self).machine().dcs_hook(byte).1[0], *performer);
        }
    }

    /// Takes the number that was read as a parameter, or as a sub-parameter.
    fn action_take(&mut self, extend: bool)
        requires
            old(self).machine().wf(),
        ensures
            final(self).machine() == old(self).machine().take_param(extend),
            final(self).machine().wf(),
            final(self).partial() == old(self).partial(),
    {
        if self.params.is_full() {
            self.ignoring = true;
        } else if extend {
            self.params.extend(self.param);
        } else {
            self.params.push(self.param);
        }
    }

    /// Takes an intermediate.
    fn action_collect(&mut self, byte: u8)
        requires
            old(self).machine().wf(),
        ensures
            final(self).machine() == old(self).machine().collect(byte),
            final(self).machine().wf(),
            final(self).partial() == old(self).partial(),
    {
        if self.intermediates.len() < MAX_INTERMEDIATES {
            self.intermediates.push(byte);
        } else {
            self.ignoring = true;
        }
    }

    /// Reads a colon.
    fn action_subparam(&mut self)
        requires
            old(self).machine().wf(),
        ensures
            final(self).machine() == old(self).machine().colon(),
            final(self).machine().wf(),
            final(self).partial() == old(self).partial(),
    {
        let full: bool = self.params.is_full();
        self.action_take(true);
        if !full {
            self.param = 0;
        }
        self.subparam_continuation = true;
    }

    /// Reads a semicolon.
    fn action_param(&mut self)
        requires
            old(self).machine().wf(),
        ensures
            final(self).machine() == old(self).machine().semicolon(),
            final(self).machine().wf(),
            final(self).partial() == old(self).partial(),
    {
        self.action_take(self.subparam_continuation);
        self.param = 0;
        self.subparam_continuation = false;
    }

    /// Reads a digit.
    fn action_paramnext(&mut self, byte: u8)
        requires
            old(self).machine().wf(),
            0x30 <= byte <= 0x39,
        ensures
            final(self).machine() == old(self).machine().digit(byte),
            final(self).machine().wf(),
            final(self).partial() == old(self).partial(),
    {
        let tenfold: u32 = self.param as u32 * 10;
        let tenfold: u32 = if tenfold > 0xffff {
            0xffff
        } else {
            tenfold
        };
        let v: u32 = tenfold + (byte - 0x30) as u32;
        self.param = if v > 0xffff {
            0xffff
        } else {
            v as u16
        };
    }

    /// Ends a parameter of an operating system command.
    fn action_osc_put_param(&mut self)
        requires
            old(self).machine().wf(),
        ensures
            final(self).machine() == old(self).machine().osc_mark(),
            final(self).machine().wf(),
            final(self).partial() == old(self).partial(),
    {
        if self.osc_ends.len() >= MAX_OSC_PARAMS {
            return;
        }
        self.osc_ends.push(self.osc_raw.len());
        assert(self.machine().osc_ends =~= old(self).machine().osc_mark().osc_ends);
    }

    /// Takes a byte of an operating system command.
    fn action_osc_put(&mut self, byte: u8)
        requires
            old(self).machine().wf(),
        ensures
            final(self).machine() == old(self).machine().osc_put(byte),
            final(self).machine().wf(),
            final(self).partial() == old(self).partial(),
    {
        if self.osc_raw.len() < MAX_OSC_RAW {
            self.osc_raw.push(byte);
        }
    }

    /// Performs the operating system command that was collected, and forgets it.
    fn osc_end<P: Perform>(&mut self, performer: &mut P, byte: u8)
        requires
            old(self).wf(),
            old(performer).ready(),
        ensures
            final(self).machine() == old(self).machine().osc_clear(),
            final(self).machine().wf(),
            final(self).partial() == old(self).partial(),
            final(performer).ready(),
            old(performer).responds(old(self).machine().osc(byte == 0x07), final(performer)),
    {
        self.action_osc_put_param();
        let ghost marked = self.machine();
        let ghost target = osc_params(marked.osc_raw, marked.osc_ends);
        let mut slices: Vec<&[u8]> = Vec::new();
        let mut i: usize = 0;
        let mut start: usize = 0;
        while i < self.osc_ends.len()
            invariant
                i <= self.osc_ends@.len(),
                self.machine() == marked,
                marked.wf(),
                target == osc_params(marked.osc_raw, marked.osc_ends),
                start == (if i == 0 {
                    0
                } else {
                    marked.osc_ends[i - 1]
                }),
                strings(slices@) == target.take(i as int),
            decreases self.osc_ends@.len() - i,
        {
            let ghost step = strings(slices@);
            let end: usize = self.osc_ends[i];
            assert(end == marked.osc_ends[i as int]);
            assert(start <= end <= self.osc_raw@.len());
            let slice: &[u8] = vstd::slice::slice_subrange(self.osc_raw.as_slice(), start, end);
            slices.push(slice);
            start = end;
            i = i + 1;
            assert(strings(slices@) =~= step.push(target[i - 1]));
            assert(strings(slices@) =~= target.take(i as int));
        }
        assert(strings(slices@) =~= target);
        performer.osc_dispatch(slices.as_slice(), byte == 0x07);
        self.osc_raw.clear();
        self.osc_ends.clear();
        assert(self.machine().osc_ends =~= seq![]);
    }

    /// Makes ready for a new sequence.
    fn reset_params(&mut self)
        requires
            old(self).machine().wf(),
        ensures
            final(self).machine() == old(self).machine().fresh(),
            final(self).machine().wf(),
            final(self).partial() == old(self).partial(),
    {
        self.intermediates.clear();
        self.ignoring = false;
        self.param = 0;
        self.params.clear();
    }
}

/// Whether an incomplete character that stands in `partial` is completed by `input` to a C1
/// control.
pub open spec fn completes_control(partial: Seq<u8>, input: Seq<u8>) -> bool {
    &&& partial.len() > 0
    &&& utf8::front(partial + input) matches Decoded::Char { c, len } && 0x80 <= (c as u32) <= 0x9f
}

/// Whether a parser that holds `partial` passes over characters of `input` behind the one that
/// it completes.
pub open spec fn swallows(partial: Seq<u8>, input: Seq<u8>) -> bool {
    let all = partial + input;
    &&& partial.len() > 0
    &&& utf8::front(all) matches Decoded::Char { c, len } && taken(all) != len
}

proof fn taken_bounds(all: Seq<u8>)
    requires
        all.len() > 0,
    ensures
        0 < taken(all) <= all.len(),
{
    utf8::front_bounds(all);
    if let Decoded::Char { c, len } = utf8::front(all) {
        let four = if all.len() <= 4 {
            all
        } else {
            all.take(4)
        };
        assert(four =~= all.take(four.len() as int));
        front_of_four(all, four);
        utf8::valid_up_to_bounds(four);
    }
}

/// Reading input in two pieces: what the second piece is read after is what the first one left,
/// with the incomplete character at its end put before the second one.
pub proof fn run_in_pieces(machine: Machine, a: Seq<u8>, b: Seq<u8>)
    ensures
        run(machine, a + b) == after(
            run(machine, a).actions,
            run(run(machine, a).machine, run(machine, a).partial + b),
        ),
    decreases a.len(),
{
    let whole = run(machine, a + b);
    let second = run(run(machine, a).machine, run(machine, a).partial + b);
    if a.len() == 0 {
        assert(a + b =~= b);
        assert(Seq::<u8>::empty() + b =~= b);
        assert(seq![] + whole.actions =~= whole.actions);
    } else {
        assert((a + b)[0] == a[0]);
        assert((a + b).skip(1) =~= a.skip(1) + b);
        if machine.state != State::Ground {
            let (next, actions) = machine.step(a[0]);
            run_in_pieces(next, a.skip(1), b);
            after_both(actions, run(next, a.skip(1)).actions, second);
        } else if a[0] == 0x1b {
            run_in_pieces(machine.fresh().to(State::Escape), a.skip(1), b);
        } else {
            utf8::front_bounds(a);
            if utf8::front(a) is Incomplete {
                assert(seq![] + whole.actions =~= whole.actions);
            } else {
                utf8::front_is_stable(a, b);
                let len: int = match utf8::front(a) {
                    Decoded::Char { c, len } => len as int,
                    Decoded::Invalid { len } => len as int,
                    Decoded::Incomplete => 0,
                };
                assert((a + b).skip(len) =~= a.skip(len) + b);
                run_in_pieces(machine, a.skip(len), b);
                match utf8::front(a) {
                    Decoded::Char { c, len } => after_both(
                        seq![text_action(c)],
                        run(machine, a.skip(len as int)).actions,
                        second,
                    ),
                    Decoded::Invalid { len } => after_both(
                        seq![malformed_action(a[0], len as int)],
                        run(machine, a.skip(len as int)).actions,
                        second,
                    ),
                    Decoded::Incomplete => {},
                }
            }
        }
    }
}

/// What a parser keeps of a character at the end of its input is the start of one.
pub proof fn kept_bytes_are_incomplete(machine: Machine, input: Seq<u8>)
    ensures
        holds_a_start(run(machine, input).machine, run(machine, input).partial),
    decreases input.len(),
{
    if input.len() > 0 {
        if machine.state != State::Ground {
            kept_bytes_are_incomplete(machine.step(input[0]).0, input.skip(1));
        } else if input[0] == 0x1b {
            kept_bytes_are_incomplete(machine.fresh().to(State::Escape), input.skip(1));
        } else {
            utf8::front_bounds(input);
            match utf8::front(input) {
                Decoded::Char { c, len } => kept_bytes_are_incomplete(
                    machine,
                    input.skip(len as int),
                ),
                Decoded::Invalid { len } => kept_bytes_are_incomplete(
                    machine,
                    input.skip(len as int),
                ),
                Decoded::Incomplete => {},
            }
        }
    }
}

/// A parser that stands in text and holds the start of a character reads on as if the input had
/// not been broken there, unless the character is a C1 control or others are passed over.
proof fn resume_is_run(machine: Machine, partial: Seq<u8>, input: Seq<u8>)
    requires
        machine.state == State::Ground,
        partial.len() > 0 ==> utf8::front(partial) is Incomplete,
        !completes_control(partial, input),
        !swallows(partial, input),
    ensures
        resume(machine, partial, input) == run(machine, partial + input),
{
    if partial.len() == 0 {
        assert(partial + input =~= input);
    } else {
        let all = partial + input;
        utf8::front_bounds(partial);
        utf8::front_bounds(all);
        assert(all[0] == partial[0]);
        if let Decoded::Char { c, len } = utf8::front(all) {
            utf8::well_formed_front(all);
            assert((c as u32) >= 0x20) by {
                if (c as u32) < 0x20 {
                    lead_byte_of_ascii(all);
                }
            }
        }
    }
}

/// A character below 0x80 is encoded as one byte below 0x80.
proof fn lead_byte_of_ascii(bytes: Seq<u8>)
    requires
        bytes.len() > 0,
        utf8::front(bytes) matches Decoded::Char { c, len } && (c as u32) < 0x80,
    ensures
        bytes[0] < 0x80,
{
    utf8::well_formed_front(bytes);
}

/// Whether the bytes that a parser holds are the start of a character, which it meets outside of
/// any sequence.
pub open spec fn holds_a_start(machine: Machine, partial: Seq<u8>) -> bool {
    partial.len() > 0 ==> machine.state == State::Ground && utf8::front(partial) is Incomplete
}

/// Whether a cut between `a` and `b` goes neither through a C1 control nor through a character
/// behind which others are passed over.
pub open spec fn cut_is_harmless(
    machine: Machine,
    partial: Seq<u8>,
    a: Seq<u8>,
    b: Seq<u8>,
) -> bool {
    let first = resume(machine, partial, a);
    &&& completes_control(first.partial, b) || swallows(first.partial, b) ==> partial.len() > 0
        && first.partial == partial + a
    &&& partial.len() > 0 && !(utf8::front(partial + a) is Incomplete) ==> taken(partial + a)
        == taken(partial + a + b)
}

/// However a byte stream is cut in two, the parser finds the same in it and ends in the same
/// state. There are two exceptions, both where the cut goes through a character. A C1 control cut
/// between its two bytes is printed where the whole would have been executed. And characters that
/// follow a cut one, with a malformed or incomplete sequence close behind, may be passed over.
pub proof fn input_may_be_cut(machine: Machine, partial: Seq<u8>, a: Seq<u8>, b: Seq<u8>)
    requires
        holds_a_start(machine, partial),
        cut_is_harmless(machine, partial, a, b),
    ensures
        resume(machine, partial, a + b) == after(
            resume(machine, partial, a).actions,
            resume(
                resume(machine, partial, a).machine,
                resume(machine, partial, a).partial,
                b,
            ),
        ),
{
    if partial.len() == 0 {
        cut_in_fresh_input(machine, a, b);
        assert(partial + a =~= a);
    } else if utf8::front(partial + a) is Incomplete {
        let whole = resume(machine, partial, a + b);
        assert(partial + (a + b) =~= (partial + a) + b);
        assert(seq![] + whole.actions =~= whole.actions);
    } else {
        cut_after_held_character(machine, partial, a, b);
    }
}

proof fn cut_after_held_character(machine: Machine, partial: Seq<u8>, a: Seq<u8>, b: Seq<u8>)
    requires
        partial.len() > 0,
        !(utf8::front(partial + a) is Incomplete),
        taken(partial + a) == taken(partial + a + b),
        completes_control(resume(machine, partial, a).partial, b) || swallows(
            resume(machine, partial, a).partial,
            b,
        ) ==> resume(machine, partial, a).partial == partial + a,
    ensures
        resume(machine, partial, a + b) == after(
            resume(machine, partial, a).actions,
            resume(
                resume(machine, partial, a).machine,
                resume(machine, partial, a).partial,
                b,
            ),
        ),
{
    let all = partial + a;
    assert(partial + (a + b) =~= all + b);
    utf8::front_bounds(all);
    utf8::front_is_stable(all, b);
    taken_bounds(all);
    match utf8::front(all) {
        Decoded::Char { c, len } => {
            cut_after(machine, seq![Action::Print(c)], all, taken(all), b);
        },
        Decoded::Invalid { len } => {
            cut_after(machine, seq![Action::Print(utf8::REPLACEMENT)], all, taken(all), b);
        },
        Decoded::Incomplete => {},
    }
}

proof fn cut_after(machine: Machine, done: Seq<Action>, all: Seq<u8>, len: int, b: Seq<u8>)
    requires
        0 < len <= all.len(),
        completes_control(run(machine, all.skip(len)).partial, b) || swallows(
            run(machine, all.skip(len)).partial,
            b,
        ) ==> run(machine, all.skip(len)).partial == all,
    ensures
        after(done, run(machine, (all + b).skip(len))) == after(
            after(done, run(machine, all.skip(len))).actions,
            resume(
                run(machine, all.skip(len)).machine,
                run(machine, all.skip(len)).partial,
                b,
            ),
        ),
{
    let rest = all.skip(len);
    let second = run(machine, rest);
    assert((all + b).skip(len) =~= rest + b);
    run_keeps_at_most(machine, rest);
    cut_in_fresh_input(machine, rest, b);
    let tail = resume(second.machine, second.partial, b).actions;
    assert(done + (second.actions + tail) =~= (done + second.actions) + tail);
}

proof fn cut_in_fresh_input(machine: Machine, a: Seq<u8>, b: Seq<u8>)
    requires
        !completes_control(run(machine, a).partial, b),
        !swallows(run(machine, a).partial, b),
    ensures
        run(machine, a + b) == after(
            run(machine, a).actions,
            resume(run(machine, a).machine, run(machine, a).partial, b),
        ),
{
    let first = run(machine, a);
    run_in_pieces(machine, a, b);
    kept_bytes_are_incomplete(machine, a);
    if first.partial.len() > 0 {
        resume_is_run(first.machine, first.partial, b);
    } else {
        assert(first.partial + b =~= b);
    }
}

/// The parser keeps no more bytes than it was given.
proof fn run_keeps_at_most(machine: Machine, input: Seq<u8>)
    ensures
        run(machine, input).partial.len() <= input.len(),
    decreases input.len(),
{
    if input.len() > 0 {
        if machine.state != State::Ground {
            run_keeps_at_most(machine.step(input[0]).0, input.skip(1));
        } else if input[0] == 0x1b {
            run_keeps_at_most(machine.fresh().to(State::Escape), input.skip(1));
        } else {
            utf8::front_bounds(input);
            match utf8::front(input) {
                Decoded::Char { c, len } => run_keeps_at_most(machine, input.skip(len as int)),
                Decoded::Invalid { len } => run_keeps_at_most(machine, input.skip(len as int)),
                Decoded::Incomplete => {},
            }
        }
    }
}

/// The characters that are no controls.
pub open spec fn is_plain(c: char) -> bool {
    (c as u32) >= 0x20 && !(0x80 <= (c as u32) <= 0x9f)
}

/// The printing of each character of `text`.
pub open spec fn prints(text: Seq<char>) -> Seq<Action>
    decreases text.len(),
{
    if text.len() == 0 {
        seq![]
    } else {
        seq![Action::Print(text[0])] + prints(text.drop_first())
    }
}

/// Text without controls is printed character by character, and leaves the parser as it was.
pub proof fn text_is_printed(machine: Machine, text: Seq<char>)
    requires
        machine.state == State::Ground,
        forall|i: int| 0 <= i < text.len() ==> is_plain(#[trigger] text[i]),
    ensures
        run(machine, vstd::utf8::encode_utf8(text)) == (Outcome {
            machine,
            partial: seq![],
            actions: prints(text),
        }),
    decreases text.len(),
{
    let bytes = vstd::utf8::encode_utf8(text);
    if text.len() == 0 {
        assert(bytes =~= seq![]);
    } else {
        let rest = text.drop_first();
        vstd::utf8::encode_utf8_first_scalar(text);
        vstd::utf8::char_u32_cast(text[0], vstd::utf8::decode_first_scalar(bytes));
        utf8::well_formed_front(bytes);
        utf8::front_bounds(bytes);
        let len = vstd::utf8::length_of_first_scalar(bytes);
        assert(bytes.skip(len) =~= vstd::utf8::encode_utf8(rest));
        assert forall|i: int| 0 <= i < rest.len() implies is_plain(#[trigger] rest[i]) by {
            assert(rest[i] == text[i + 1]);
        }
        text_is_printed(machine, rest);
        assert(bytes[0] != 0x1b) by {
            if bytes[0] == 0x1b {
                assert((0x1bu8 & 0x7f) == 0x1b) by (bit_vector);
            }
        }
        assert(is_plain(text[0]));
        assert(text_action(text[0]) == Action::Print(text[0]));
    }
}

} // verus!
