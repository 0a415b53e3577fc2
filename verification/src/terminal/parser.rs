//! Feeding a byte stream to a screen.
use super::ansi_parser;
use super::ansi_parser::{Action, Machine, Params, Perform};
use super::cwd;
use super::modes;
use super::screen::Screen;
use super::state::ScreenState;
use crate::text;
use crate::utf8;
use vstd::prelude::*;

verus! {

/// Sequences, one after another.
pub open spec fn joined<T>(parts: Seq<Seq<T>>) -> Seq<T>
    decreases parts.len(),
{
    if parts.len() == 0 {
        seq![]
    } else {
        joined(parts.drop_last()) + parts.last()
    }
}

impl ScreenState {
    /// After a control character: those that move the cursor, shift the character set or ring.
    #[verifier::opaque]
    pub open spec fn execute(self, byte: u8) -> ScreenState {
        if byte == 0x0d {
            self.at(0, self.y)
        } else if byte == 0x0a || byte == 0x0b || byte == 0x0c {
            self.linefeed()
        } else if byte == 0x09 {
            self.tab()
        } else if byte == 0x08 {
            self.cursor_back(1)
        } else if byte == 0x0e {
            ScreenState { charset: self.g1_charset, ..self }
        } else if byte == 0x0f {
            ScreenState { charset: self.g0_charset, ..self }
        } else if byte == 0x07 {
            self.ring_bell()
        } else {
            self
        }
    }

    /// After an operating system command: a title (0 and 2), an icon name (0 and 1), both (`l`),
    /// or a working directory (7, and 9 followed by 9).
    #[verifier::opaque]
    pub open spec fn osc(self, params: Seq<Seq<u8>>) -> ScreenState {
        if params.len() == 0 {
            self
        } else {
            let name = utf8::lossy(joined(params.skip(1)));
            if params[0] == seq![0x30u8] {
                self.set_icon_name(name).set_title(name)
            } else if params[0] == seq![0x31u8] {
                self.set_icon_name(name)
            } else if params[0] == seq![0x32u8] {
                self.set_title(name)
            } else if params[0] == seq![0x6cu8] && params.len() >= 3 {
                self.set_icon_name(utf8::lossy(params[1])).set_title(utf8::lossy(params[2]))
            } else if params[0] == seq![0x37u8] && params.len() >= 2 {
                self.report_cwd(cwd::osc7_path(params[1]))
            } else if params[0] == seq![0x39u8] && params.len() >= 3 && params[1] == seq![0x39u8] {
                self.report_cwd(cwd::path_text(params[2]))
            } else {
                self
            }
        }
    }

    /// With a working directory that was reported; a malformed report changes nothing.
    pub open spec fn report_cwd(self, path: Option<Seq<char>>) -> ScreenState {
        match path {
            Some(p) => self.set_cwd(p),
            None => self,
        }
    }

    /// After an escape sequence.
    #[verifier::opaque]
    pub open spec fn esc(self, intermediates: Seq<u8>, byte: u8) -> ScreenState {
        if intermediates.len() == 1 {
            if intermediates[0] == 0x23 && byte == 0x38 {
                self.alignment_display()
            } else {
                self.define_charset(seq![byte as char], intermediates[0] as char)
            }
        } else if intermediates.len() != 0 {
            self
        } else if byte == 0x48 {
            self.set_tab_stop()
        } else if byte == 0x5a {
            self.identify()
        } else if byte == 0x37 {
            self.save_cursor()
        } else if byte == 0x38 {
            self.restore_cursor()
        } else if byte == 0x44 {
            self.linefeed()
        } else if byte == 0x45 {
            self.at(0, self.y).linefeed()
        } else if byte == 0x4d {
            self.reverse_index()
        } else if byte == 0x3d {
            self.set_private_mode(modes::DECCKM)
        } else if byte == 0x3e {
            self.reset_private_mode(modes::DECCKM)
        } else {
            self
        }
    }

    /// After an action of the parser.
    #[verifier::opaque]
    pub open spec fn perform(self, action: Action) -> ScreenState {
        match action {
            Action::Print(c) => self.draw_char(c),
            Action::Execute(byte) => self.execute(byte),
            Action::Hook { .. } => self,
            Action::Put(_) => self,
            Action::Unhook => self,
            Action::Osc { params, bell_terminated } => self.osc(params),
            Action::Csi { params, intermediates, ignore, action } => self.csi_dispatch(
                joined(params),
                intermediates,
                action,
            ),
            Action::Esc { intermediates, ignore, byte } => self.esc(intermediates, byte),
        }
    }

    /// After a list of actions, in order.
    pub open spec fn perform_all(self, actions: Seq<Action>) -> ScreenState
        decreases actions.len(),
    {
        if actions.len() == 0 {
            self
        } else {
            self.perform_all(actions.drop_last()).perform(actions.last())
        }
    }
}

/// The bytes of `parts[from..]`, one after another.
fn join_from(parts: &[&[u8]], from: usize) -> (all: Vec<u8>)
    requires
        from <= parts@.len(),
    ensures
        all@ == joined(ansi_parser::strings(parts@).skip(from as int)),
{
    let ghost strings = ansi_parser::strings(parts@).skip(from as int);
    let mut all: Vec<u8> = Vec::new();
    let mut i: usize = from;
    assert(strings.take(0) =~= seq![]);
    while i < parts.len()
        invariant
            from <= i <= parts@.len(),
            strings == ansi_parser::strings(parts@).skip(from as int),
            all@ == joined(strings.take(i - from)),
        decreases parts@.len() - i,
    {
        let ghost before = all@;
        let part: &[u8] = parts[i];
        let mut j: usize = 0;
        assert(all@ =~= before + part@.take(0));
        while j < part.len()
            invariant
                j <= part@.len(),
                all@ == before + part@.take(j as int),
            decreases part@.len() - j,
        {
            all.push(part[j]);
            j = j + 1;
            assert(all@ =~= before + part@.take(j as int));
        }
        assert(part@.take(j as int) =~= part@);
        assert(strings.take(i - from + 1).drop_last() =~= strings.take(i - from));
        assert(strings.take(i - from + 1).last() == part@);
        i = i + 1;
    }
    assert(strings.take(i - from) =~= strings);
    all
}

/// All values of a list of parameters, in order.
fn flat(params: &Params) -> (all: Vec<u16>)
    ensures
        all@ == joined(params@),
{
    let mut all: Vec<u16> = Vec::new();
    let mut i: usize = 0;
    assert(params@.take(0) =~= seq![]);
    while i < params.subparams.len()
        invariant
            i <= params.subparams@.len(),
            all@ == joined(params@.take(i as int)),
        decreases params.subparams@.len() - i,
    {
        let ghost before = all@;
        let part: &Vec<u16> = &params.subparams[i];
        let mut j: usize = 0;
        assert(all@ =~= before + part@.take(0));
        while j < part.len()
            invariant
                j <= part@.len(),
                all@ == before + part@.take(j as int),
            decreases part@.len() - j,
        {
            all.push(part[j]);
            j = j + 1;
            assert(all@ =~= before + part@.take(j as int));
        }
        assert(part@.take(j as int) =~= part@);
        assert(params@.take(i + 1).drop_last() =~= params@.take(i as int));
        assert(params@.take(i + 1).last() == part@);
        i = i + 1;
    }
    assert(params@.take(i as int) =~= params@);
    all
}

/// Whether `bytes` is the one byte `b`.
fn is_just(bytes: &[u8], b: u8) -> (r: bool)
    ensures
        r == (bytes@ == seq![b]),
{
    let r: bool = bytes.len() == 1 && bytes[0] == b;
    assert(r ==> bytes@ =~= seq![b]);
    r
}

impl Screen {
    /// Takes over a working directory that was reported, where the report was well-formed.
    fn report_cwd(&mut self, path: Option<String>)
        ensures
            final(self)@ == old(self)@.report_cwd(cwd::opt_text(path)),
            old(self)@.wf() ==> final(self)@.wf(),
    {
        match path {
            Some(p) => self.set_cwd(p),
            None => {},
        }
    }
}

impl Perform for Screen {
    open spec fn ready(&self) -> bool {
        self@.wf()
    }

    open spec fn responds(&self, action: Action, post: &Self) -> bool {
        post@ == self@.perform(action)
    }

    fn print(&mut self, c: char) {
        proof {
            reveal(ScreenState::perform);
        }
        self.draw_char(c);
    }

    fn execute(&mut self, byte: u8) {
        proof {
            reveal(ScreenState::perform);
            reveal(ScreenState::execute);
        }
        match byte {
            0x0d => self.carriage_return(),
            0x0a | 0x0b | 0x0c => self.linefeed(),
            0x09 => self.tab(),
            0x08 => self.backspace(),
            0x0e => self.shift_out(),
            0x0f => self.shift_in(),
            0x07 => self.ring_bell(),
            _ => {},
        }
    }

    fn hook(&mut self, params: &Params, intermediates: &[u8], ignore: bool, action: char) {
        proof {
            reveal(ScreenState::perform);
        }
    }

    fn put(&mut self, byte: u8) {
        proof {
            reveal(ScreenState::perform);
        }
    }

    fn unhook(&mut self) {
        proof {
            reveal(ScreenState::perform);
        }
    }

    fn osc_dispatch(&mut self, params: &[&[u8]], bell_terminated: bool) {
        proof {
            reveal(ScreenState::perform);
            reveal(ScreenState::osc);
        }
        let ghost strings = ansi_parser::strings(params@);
        if params.len() == 0 {
            return;
        }
        let code: &[u8] = params[0];
        assert(strings[0] == code@);
        assert(seq![0x37u8][0] == 0x37 && seq![0x39u8][0] == 0x39 && seq![0x6cu8][0] == 0x6c);
        let both: bool = is_just(code, 0x30);
        let icon_only: bool = is_just(code, 0x31);
        let title_only: bool = is_just(code, 0x32);
        if both || icon_only || title_only {
            let bytes: Vec<u8> = join_from(params, 1);
            let name: String = utf8::decode_lossy(bytes.as_slice());
            if both {
                self.set_icon_name(name.as_str());
                self.set_title(name.as_str());
            } else if icon_only {
                self.set_icon_name(name.as_str());
            } else {
                self.set_title(name.as_str());
            }
        } else if is_just(code, 0x6c) {
            if params.len() >= 3 {
                let icon: String = utf8::decode_lossy(params[1]);
                let title: String = utf8::decode_lossy(params[2]);
                assert(strings[1] == params@[1]@ && strings[2] == params@[2]@);
                self.set_icon_name(icon.as_str());
                self.set_title(title.as_str());
            }
        } else if is_just(code, 0x37) {
            if params.len() >= 2 {
                assert(strings[1] == params@[1]@);
                self.report_cwd(cwd::parse_osc7(params[1]));
            }
        } else if is_just(code, 0x39) {
            if params.len() >= 3 {
                assert(strings[1] == params@[1]@ && strings[2] == params@[2]@);
                if is_just(params[1], 0x39) {
                    self.report_cwd(cwd::parse_osc9_9(params[2]));
                }
            }
        }
    }

    fn csi_dispatch(&mut self, params: &Params, intermediates: &[u8], ignore: bool, action: char) {
        proof {
            reveal(ScreenState::perform);
        }
        let all: Vec<u16> = flat(params);
        Screen::csi_dispatch(self, all.as_slice(), intermediates, action);
    }

    fn esc_dispatch(&mut self, intermediates: &[u8], ignore: bool, byte: u8) {
        proof {
            reveal(ScreenState::perform);
            reveal(ScreenState::esc);
        }
        if intermediates.len() == 1 {
            if intermediates[0] == 0x23 && byte == 0x38 {
                self.alignment_display();
            } else {
                let designator: String = text::char_to_string(byte as char);
                self.define_charset(designator.as_str(), intermediates[0] as char);
            }
        } else if intermediates.len() == 0 {
            match byte {
                0x48 => self.set_tab_stop(),
                0x5a => self.identify_terminal_primary(),
                0x37 => self.save_cursor(),
                0x38 => self.restore_cursor(),
                0x44 => self.linefeed(),
                0x45 => {
                    self.carriage_return();
                    self.linefeed();
                },
                0x4d => self.reverse_index(),
                0x3d => self.set_private_mode(modes::DECCKM),
                0x3e => self.reset_private_mode(modes::DECCKM),
                _ => {},
            }
        }
    }
}

/// Performs what a parser finds on a screen that is borrowed.
pub struct Performer<'a> {
    pub screen: &'a mut Screen,
}

impl<'a> Performer<'a> {
    /// A performer for `screen`.
    pub fn new(screen: &'a mut Screen) -> (r: Self)
        ensures
            *r.screen == *old(screen),
            *final(r.screen) == *final(screen),
    {
        Performer { screen }
    }
}

impl<'a> Perform for Performer<'a> {
    open spec fn ready(&self) -> bool {
        self.screen@.wf()
    }

    open spec fn responds(&self, action: Action, post: &Self) -> bool {
        post.screen@ == self.screen@.perform(action)
    }

    fn print(&mut self, c: char)
        ensures
            *final(final(self).screen) == *final(old(self).screen),
    {
        self.screen.print(c);
    }

    fn execute(&mut self, byte: u8)
        ensures
            *final(final(self).screen) == *final(old(self).screen),
    {
        self.screen.execute(byte);
    }

    fn hook(&mut self, params: &Params, intermediates: &[u8], ignore: bool, action: char)
        ensures
            *final(final(self).screen) == *final(old(self).screen),
    {
        proof {
            reveal(ScreenState::perform);
        }
    }

    fn put(&mut self, byte: u8)
        ensures
            *final(final(self).screen) == *final(old(self).screen),
    {
        proof {
            reveal(ScreenState::perform);
        }
    }

    fn unhook(&mut self)
        ensures
            *final(final(self).screen) == *final(old(self).screen),
    {
        proof {
            reveal(ScreenState::perform);
        }
    }

    fn osc_dispatch(&mut self, params: &[&[u8]], bell_terminated: bool)
        ensures
            *final(final(self).screen) == *final(old(self).screen),
    {
        self.screen.osc_dispatch(params, bell_terminated);
    }

    fn csi_dispatch(&mut self, params: &Params, intermediates: &[u8], ignore: bool, action: char)
        ensures
            *final(final(self).screen) == *final(old(self).screen),
    {
        proof {
            reveal(ScreenState::perform);
        }
        let all: Vec<u16> = flat(params);
        self.screen.csi_dispatch(all.as_slice(), intermediates, action);
    }

    fn esc_dispatch(&mut self, intermediates: &[u8], ignore: bool, byte: u8)
        ensures
            *final(final(self).screen) == *final(old(self).screen),
    {
        self.screen.esc_dispatch(intermediates, ignore, byte);
    }
}

/// A screen that a list of actions was performed on is in the state after them.
pub proof fn performed_screen(from: Screen, actions: Seq<Action>, to: Screen)
    requires
        ansi_parser::reaches(from, actions, to),
    ensures
        to@ == from@.perform_all(actions),
{
    let trace = choose|t: Seq<Screen>|
        #[trigger] ansi_parser::is_trace(t, actions) && t[0] == from && t.last() == to;
    performed_trace(trace, actions, actions.len() as int);
    assert(actions.take(actions.len() as int) =~= actions);
}

proof fn performed_trace(trace: Seq<Screen>, actions: Seq<Action>, n: int)
    requires
        ansi_parser::is_trace(trace, actions),
        0 <= n <= actions.len(),
    ensures
        trace[n]@ == trace[0]@.perform_all(actions.take(n)),
    decreases n,
{
    if n > 0 {
        performed_trace(trace, actions, n - 1);
        assert(actions.take(n).drop_last() =~= actions.take(n - 1));
        assert(trace[n - 1].responds(actions[n - 1], &trace[n - 1 + 1]));
    } else {
        assert(actions.take(0) =~= seq![]);
    }
}

/// Performing one list of actions and then another one is performing both.
pub proof fn perform_all_both(s: ScreenState, a: Seq<Action>, b: Seq<Action>)
    ensures
        s.perform_all(a + b) == s.perform_all(a).perform_all(b),
    decreases b.len(),
{
    if b.len() == 0 {
        assert(a + b =~= a);
    } else {
        assert((a + b).drop_last() =~= a + b.drop_last());
        assert((a + b).last() == b.last());
        perform_all_both(s, a, b.drop_last());
    }
}

/// The screen after a parser has read `input`.
pub open spec fn screen_after(
    machine: Machine,
    partial: Seq<u8>,
    screen: ScreenState,
    input: Seq<u8>,
) -> ScreenState {
    screen.perform_all(ansi_parser::resume(machine, partial, input).actions)
}

/// A parser that feeds a screen.
pub struct Parser {
    inner: ansi_parser::Parser,
}

impl Parser {
    /// What the parser has collected of a sequence.
    pub closed spec fn machine(&self) -> Machine {
        self.inner.machine()
    }

    /// The bytes of a character that is not complete yet.
    pub closed spec fn partial(&self) -> Seq<u8> {
        self.inner.partial()
    }

    /// What is collected keeps to its bounds, and only text can be incomplete.
    pub open spec fn wf(&self) -> bool {
        &&& self.machine().wf()
        &&& ansi_parser::holds_a_start(self.machine(), self.partial())
    }

    /// A parser that has read nothing.
    pub fn new() -> (r: Self)
        ensures
            r.machine() == Machine::initial(),
            r.partial() == Seq::<u8>::empty(),
            r.wf(),
    {
        Parser { inner: ansi_parser::Parser::new() }
    }

    /// Reads `data`, and performs what is found in it on `screen`.
    pub fn feed(&mut self, screen: &mut Screen, data: &[u8])
        requires
            old(self).wf(),
            old(screen)@.wf(),
        ensures
            final(self).wf(),
            final(screen)@.wf(),
            final(self).machine() == ansi_parser::resume(
                old(self).machine(),
                old(self).partial(),
                data@,
            ).machine,
            final(self).partial() == ansi_parser::resume(
                old(self).machine(),
                old(self).partial(),
                data@,
            ).partial,
            final(screen)@ == screen_after(
                old(self).machine(),
                old(self).partial(),
                old(screen)@,
                data@,
            ),
    {
        let ghost before = *screen;
        self.inner.advance(screen, data);
        proof {
            performed_screen(
                before,
                ansi_parser::resume(old(self).machine(), old(self).partial(), data@).actions,
                *screen,
            );
        }
    }

    /// Reads text, and performs what is found in it on `screen`.
    pub fn feed_str(&mut self, screen: &mut Screen, data: &str)
        requires
            old(self).wf(),
            old(screen)@.wf(),
        ensures
            final(self).wf(),
            final(screen)@.wf(),
            final(self).machine() == ansi_parser::resume(
                old(self).machine(),
                old(self).partial(),
                vstd::utf8::encode_utf8(data@),
            ).machine,
            final(self).partial() == ansi_parser::resume(
                old(self).machine(),
                old(self).partial(),
                vstd::utf8::encode_utf8(data@),
            ).partial,
            final(screen)@ == screen_after(
                old(self).machine(),
                old(self).partial(),
                old(screen)@,
                vstd::utf8::encode_utf8(data@),
            ),
    {
        self.feed(screen, data.as_bytes());
    }

    /// Forgets what was read.
    pub fn reset(&mut self)
        ensures
            final(self).machine() == Machine::initial(),
            final(self).partial() == Seq::<u8>::empty(),
            final(self).wf(),
    {
        self.inner = ansi_parser::Parser::new();
    }
}

impl Default for Parser {
    fn default() -> (r: Self)
        ensures
            r.machine() == Machine::initial(),
            r.partial() == Seq::<u8>::empty(),
            r.wf(),
    {
        Parser::new()
    }
}

/// A parser with the screen that it feeds, while one is attached.
pub struct Stream {
    parser: Parser,
    screen: Option<Screen>,
}

impl Stream {
    /// The screen that is attached.
    pub closed spec fn attached(&self) -> Option<Screen> {
        self.screen
    }

    /// What the parser has collected of a sequence.
    pub closed spec fn machine(&self) -> Machine {
        self.parser.machine()
    }

    /// The bytes of a character that is not complete yet.
    pub closed spec fn partial(&self) -> Seq<u8> {
        self.parser.partial()
    }

    /// The parser keeps to its bounds, and a screen that is attached is in good order.
    pub open spec fn wf(&self) -> bool {
        &&& self.machine().wf()
        &&& ansi_parser::holds_a_start(self.machine(), self.partial())
        &&& self.attached() matches Some(s) ==> s@.wf()
    }

    /// A stream without a screen.
    pub fn new() -> (r: Self)
        ensures
            r.attached() is None,
            r.machine() == Machine::initial(),
            r.partial() == Seq::<u8>::empty(),
            r.wf(),
    {
        Stream { parser: Parser::new(), screen: None }
    }

    /// Attaches a screen, in place of the one that was.
    pub fn attach(&mut self, screen: Screen)
        requires
            old(self).wf(),
            screen@.wf(),
        ensures
            final(self).attached() == Some(screen),
            final(self).machine() == old(self).machine(),
            final(self).partial() == old(self).partial(),
            final(self).wf(),
    {
        self.screen = Some(screen);
    }

    /// Hands the screen back.
    pub fn detach(&mut self) -> (screen: Option<Screen>)
        requires
            old(self).wf(),
        ensures
            screen == old(self).attached(),
            final(self).attached() is None,
            final(self).machine() == old(self).machine(),
            final(self).partial() == old(self).partial(),
            final(self).wf(),
            screen matches Some(s) ==> s@.wf(),
    {
        self.screen.take()
    }

    /// Feeds the screen; without one the input is dropped.
    pub fn feed(&mut self, data: &[u8])
        requires
            old(self).wf(),
        ensures
            final(self).wf(),
            match (old(self).attached(), final(self).attached()) {
                (Some(before), Some(after)) => {
                    let outcome = ansi_parser::resume(
                        old(self).machine(),
                        old(self).partial(),
                        data@,
                    );
                    &&& after@ == before@.perform_all(outcome.actions)
                    &&& final(self).machine() == outcome.machine
                    &&& final(self).partial() == outcome.partial
                },
                (None, None) => {
                    &&& final(self).machine() == old(self).machine()
                    &&& final(self).partial() == old(self).partial()
                },
                _ => false,
            },
    {
        match self.screen.take() {
            Some(screen) => {
                let mut screen: Screen = screen;
                self.parser.feed(&mut screen, data);
                self.screen = Some(screen);
            },
            None => {},
        }
    }

    /// Feeds text to the screen; without one the input is dropped.
    pub fn feed_str(&mut self, data: &str)
        requires
            old(self).wf(),
        ensures
            final(self).wf(),
            match (old(self).attached(), final(self).attached()) {
                (Some(before), Some(after)) => {
                    let outcome = ansi_parser::resume(
                        old(self).machine(),
                        old(self).partial(),
                        vstd::utf8::encode_utf8(data@),
                    );
                    &&& after@ == before@.perform_all(outcome.actions)
                    &&& final(self).machine() == outcome.machine
                    &&& final(self).partial() == outcome.partial
                },
                (None, None) => {
                    &&& final(self).machine() == old(self).machine()
                    &&& final(self).partial() == old(self).partial()
                },
                _ => false,
            },
    {
        self.feed(data.as_bytes());
    }

    /// The screen that is attached, to be changed in place.
    pub fn screen(&mut self) -> (screen: Option<&mut Screen>)
        ensures
            screen is Some <==> old(self).attached() is Some,
            match screen {
                Some(s) => {
                    &&& Some(*s) == old(self).attached()
                    &&& final(self).attached() == Some(*final(s))
                },
                None => final(self).attached() is None,
            },
            final(self).machine() == old(self).machine(),
            final(self).partial() == old(self).partial(),
            old(self).wf() && (screen matches Some(s) ==> (*final(s))@.wf()) ==> final(self).wf(),
    {
        self.screen.as_mut()
    }
}

impl Default for Stream {
    fn default() -> (r: Self)
        ensures
            r.attached() is None,
            r.machine() == Machine::initial(),
            r.partial() == Seq::<u8>::empty(),
            r.wf(),
    {
        Stream::new()
    }
}

} // verus!
