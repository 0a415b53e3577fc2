//! Child processes: how they end, what is known of one that is watched, and how one is ended.
use crate::errors::{Platform, PtyErrorKind, PtyResult};
use crate::text;
use vstd::prelude::*;

verus! {

/// How a child process ended: with a code, or by a signal.
#[derive(Clone, Debug)]
pub struct ExitStatus {
    code: u32,
    signal: Option<String>,
}

/// An `ExitStatus`, with the signal's name as a sequence of characters.
#[verifier::ext_equal]
pub struct Ending {
    pub code: u32,
    pub signal: Option<Seq<char>>,
}

impl View for ExitStatus {
    type V = Ending;

    closed spec fn view(&self) -> Ending {
        Ending {
            code: self.code,
            signal: match self.signal {
                Some(name) => Some(name@),
                None => None,
            },
        }
    }
}

impl Ending {
    /// The process ended by itself, with code 0.
    pub open spec fn success(self) -> bool {
        self.signal is None && self.code == 0
    }

    /// What is said of the ending.
    pub open spec fn message(self) -> Seq<char> {
        match self.signal {
            Some(name) => "Terminated by "@ + name,
            None => if self.code == 0 {
                "Success"@
            } else {
                "Exited with code "@ + text::decimal(self.code as nat)
            },
        }
    }
}

impl ExitStatus {
    /// The ending of a process that exited with `code`.
    pub fn with_exit_code(code: u32) -> (status: Self)
        ensures
            status@ == (Ending { code, signal: None }),
    {
        ExitStatus { code, signal: None }
    }

    /// The ending of a process that a signal ended. Its code is 1.
    pub fn with_signal(signal: &str) -> (status: Self)
        ensures
            status@ == (Ending { code: 1, signal: Some(signal@) }),
    {
        ExitStatus { code: 1, signal: Some(signal.to_string()) }
    }

    /// Whether the process ended by itself, with code 0.
    pub fn success(&self) -> (b: bool)
        ensures
            b == self@.success(),
    {
        match self.signal {
            Some(_) => false,
            None => self.code == 0,
        }
    }

    /// The code, 1 where a signal ended the process.
    pub fn exit_code(&self) -> (code: u32)
        ensures
            code == self@.code,
    {
        self.code
    }

    /// The signal that ended the process, if one did.
    pub fn signal(&self) -> (name: Option<&str>)
        ensures
            name is Some == self@.signal is Some,
            name matches Some(n) ==> self@.signal == Some(n@),
    {
        match &self.signal {
            Some(name) => Some(name.as_str()),
            None => None,
        }
    }

    /// What is said of the ending.
    pub fn to_string(&self) -> (s: String)
        ensures
            s@ == self@.message(),
    {
        match &self.signal {
            Some(name) => text::joined("Terminated by ", name.as_str()),
            None => if self.code == 0 {
                "Success".to_string()
            } else {
                let mut s = "Exited with code ".to_string();
                text::push_decimal(&mut s, self.code as u128);
                s
            },
        }
    }
}

/// The end of a process as the system reports it.
#[derive(Clone, Debug)]
pub struct ProcessExit {
    pub pid: u32,
    pub exit_code: Option<i32>,
    pub signal: Option<i32>,
}

/// The thirty-two bits of `code` as a number without a sign.
pub open spec fn unsigned(code: i32) -> int {
    if code < 0 {
        code + 0x1_0000_0000
    } else {
        code as int
    }
}

fn to_unsigned(code: i32) -> (r: u32)
    ensures
        r == unsigned(code),
{
    if code < 0 {
        0xffff_ffffu32 - (-(code + 1)) as u32
    } else {
        code as u32
    }
}

/// The number that the thirty-two bits of `code` stand for with a sign.
pub open spec fn signed(code: u32) -> int {
    if code < 0x8000_0000 {
        code as int
    } else {
        code - 0x1_0000_0000
    }
}

fn to_signed(code: u32) -> (r: i32)
    ensures
        r == signed(code),
{
    if code < 0x8000_0000 {
        code as i32
    } else {
        -((0xffff_ffffu32 - code) as i32) - 1
    }
}

impl ProcessExit {
    /// The ending that the report tells of. A report with neither a code nor a signal, or with
    /// both, counts as a failure.
    pub open spec fn ending(self) -> Ending {
        match (self.exit_code, self.signal) {
            (Some(code), None) => Ending { code: unsigned(code) as u32, signal: None },
            (None, Some(n)) => Ending {
                code: 1,
                signal: Some("SIG"@ + text::signed_decimal(n as int)),
            },
            _ => Ending { code: 1, signal: None },
        }
    }

    /// The ending that the report tells of.
    pub fn to_exit_status(&self) -> (status: ExitStatus)
        ensures
            status@ == self.ending(),
    {
        match (self.exit_code, self.signal) {
            (Some(code), None) => ExitStatus::with_exit_code(to_unsigned(code)),
            (None, Some(n)) => {
                let mut name = "SIG".to_string();
                text::push_signed(&mut name, n as i64);
                ExitStatus::with_signal(name.as_str())
            },
            _ => ExitStatus::with_exit_code(1),
        }
    }

    /// The process number, code and signal, and whether there was a core dump, which is not
    /// watched for; zero and nothing where the end was not seen.
    pub fn report(exit: &Option<ProcessExit>) -> (r: (u32, Option<i32>, Option<i32>, bool))
        ensures
            r == match exit {
                Some(e) => (e.pid, e.exit_code, e.signal, false),
                None => (0u32, None::<i32>, None::<i32>, false),
            },
    {
        match exit {
            Some(e) => (e.pid, e.exit_code, e.signal, false),
            None => (0, None, None, false),
        }
    }
}

/// What asking after a Unix child brings.
#[derive(Clone, Copy, Debug, PartialEq, Eq, Structural)]
pub enum WaitOutcome {
    /// It exited with a code.
    Exited { pid: i32, code: i32 },
    /// A signal ended it.
    Signaled { pid: i32, signal: i32 },
    /// It lives.
    StillAlive,
    /// It was stopped, continued or traced.
    Other,
    /// The question was interrupted.
    Interrupted,
    /// There is no such child any more, or the question failed otherwise.
    Failed,
}

/// What is known of a Unix child that is watched.
#[derive(Clone, Debug)]
pub struct ChildState {
    pub pid: i32,
    pub running: bool,
    pub exit_status: Option<ProcessExit>,
}

impl WaitOutcome {
    /// The child is gone, or cannot be asked after any more.
    pub open spec fn is_last(self) -> bool {
        self is Exited || self is Signaled || self is Failed
    }
}

impl ChildState {
    /// What is known once `outcome` has been seen.
    pub open spec fn after(self, outcome: WaitOutcome) -> ChildState {
        if !self.running {
            self
        } else {
            match outcome {
                WaitOutcome::Exited { pid, code } => ChildState {
                    running: false,
                    exit_status: Some(
                        ProcessExit {
                            pid: unsigned(pid) as u32,
                            exit_code: Some(code),
                            signal: None,
                        },
                    ),
                    ..self
                },
                WaitOutcome::Signaled { pid, signal } => ChildState {
                    running: false,
                    exit_status: Some(
                        ProcessExit {
                            pid: unsigned(pid) as u32,
                            exit_code: None,
                            signal: Some(signal),
                        },
                    ),
                    ..self
                },
                WaitOutcome::Failed => ChildState { running: false, ..self },
                WaitOutcome::StillAlive => self,
                WaitOutcome::Other => self,
                WaitOutcome::Interrupted => self,
            }
        }
    }

    /// What is known once all of `outcomes` have been seen.
    pub open spec fn after_all(self, outcomes: Seq<WaitOutcome>) -> ChildState
        decreases outcomes.len(),
    {
        if outcomes.len() == 0 {
            self
        } else {
            self.after_all(outcomes.drop_last()).after(outcomes.last())
        }
    }

    /// A child that was just started.
    pub fn new(pid: i32) -> (state: Self)
        ensures
            state == (ChildState { pid, running: true, exit_status: None }),
    {
        ChildState { pid, running: true, exit_status: None }
    }

    /// The process number.
    pub fn pid(&self) -> (pid: u32)
        ensures
            pid == unsigned(self.pid),
    {
        to_unsigned(self.pid)
    }

    /// Takes note of `outcome`, and says whether to go on asking.
    pub fn observe(&mut self, outcome: WaitOutcome) -> (go_on: bool)
        ensures
            *final(self) == old(self).after(outcome),
            go_on == final(self).running,
    {
        if !self.running {
            return false;
        }
        match outcome {
            WaitOutcome::Exited { pid, code } => {
                self.running = false;
                self.exit_status = Some(
                    ProcessExit { pid: to_unsigned(pid), exit_code: Some(code), signal: None },
                );
            },
            WaitOutcome::Signaled { pid, signal } => {
                self.running = false;
                self.exit_status = Some(
                    ProcessExit { pid: to_unsigned(pid), exit_code: None, signal: Some(signal) },
                );
            },
            WaitOutcome::Failed => {
                self.running = false;
            },
            WaitOutcome::StillAlive | WaitOutcome::Other | WaitOutcome::Interrupted => {},
        }
        self.running
    }

    /// What waiting for the child gives: nothing yet while it runs, else the report of its end,
    /// where that was seen.
    pub fn wait_result(&self) -> (r: Option<Option<ProcessExit>>)
        ensures
            r == if self.running {
                None
            } else {
                Some(self.exit_status)
            },
    {
        if self.running {
            None
        } else {
            match &self.exit_status {
                Some(e) => Some(
                    Some(ProcessExit { pid: e.pid, exit_code: e.exit_code, signal: e.signal }),
                ),
                None => Some(None),
            }
        }
    }
}

/// The first outcome that ends a child's watch is the one that is kept: what comes later changes
/// nothing.
pub proof fn the_first_ending_stands(state: ChildState, outcomes: Seq<WaitOutcome>)
    requires
        !state.running,
    ensures
        state.after_all(outcomes) == state,
    decreases outcomes.len(),
{
    if outcomes.len() > 0 {
        the_first_ending_stands(state, outcomes.drop_last());
    }
}

/// A child that is watched counts as running until the first outcome that tells of its end, and
/// from then on as ended.
pub proof fn a_child_runs_until_its_end_is_seen(state: ChildState, outcomes: Seq<WaitOutcome>)
    requires
        state.running,
    ensures
        state.after_all(outcomes).running <==> forall|i: int|
            0 <= i < outcomes.len() ==> !(#[trigger] outcomes[i]).is_last(),
        state.after_all(outcomes).running ==> state.after_all(outcomes) == state,
    decreases outcomes.len(),
{
    if outcomes.len() > 0 {
        let before = outcomes.drop_last();
        a_child_runs_until_its_end_is_seen(state, before);
        assert(forall|i: int| 0 <= i < before.len() ==> before[i] == outcomes[i]);
        if state.after_all(before).running && !outcomes.last().is_last() {
            assert forall|i: int| 0 <= i < outcomes.len() implies !(
            #[trigger] outcomes[i]).is_last() by {
                if i < before.len() {
                    assert(!before[i].is_last());
                }
            }
        } else if state.after_all(before).running {
            assert(outcomes[outcomes.len() - 1].is_last());
        } else {
            let i = choose|i: int| 0 <= i < before.len() && (#[trigger] before[i]).is_last();
            assert(outcomes[i].is_last());
        }
    }
}

/// What to do next for a child that is killed because nobody holds it any more.
#[derive(Clone, Copy, Debug, PartialEq, Eq, Structural)]
pub enum ReapStep {
    /// It is gone.
    Done,
    /// Wait a little and ask again.
    Pause,
    /// Ask again at once.
    Again,
}

/// What to do next once `outcome` has been seen of a child that was killed.
pub fn reap_step(outcome: WaitOutcome) -> (step: ReapStep)
    ensures
        step == match outcome {
            WaitOutcome::Exited { .. } => ReapStep::Done,
            WaitOutcome::Signaled { .. } => ReapStep::Done,
            WaitOutcome::Interrupted => ReapStep::Done,
            WaitOutcome::Failed => ReapStep::Done,
            WaitOutcome::StillAlive => ReapStep::Pause,
            WaitOutcome::Other => ReapStep::Again,
        },
{
    match outcome {
        WaitOutcome::Exited { .. }
        | WaitOutcome::Signaled { .. }
        | WaitOutcome::Interrupted
        | WaitOutcome::Failed => ReapStep::Done,
        WaitOutcome::StillAlive => ReapStep::Pause,
        WaitOutcome::Other => ReapStep::Again,
    }
}

/// What ending a child in good order has come to.
#[derive(Clone, Copy, Debug, PartialEq, Eq, Structural)]
pub enum Termination {
    /// The child is to be asked to end.
    Asking,
    /// It has a grace period to end in.
    Waiting,
    /// It is to be killed.
    Killing,
    /// It was killed, and its end is awaited.
    Reaping,
    /// It is over.
    Done,
}

/// What came of the last step of a termination.
#[derive(Clone, Copy, Debug, PartialEq, Eq, Structural)]
pub enum TerminationEvent {
    /// A signal was sent, or could not be sent.
    Sent,
    /// The child ended.
    Ended,
    /// The grace period is over.
    Expired,
}

/// The signal that asks a process to end.
pub const SIGTERM: i32 = 15;

/// The signal that ends a process.
pub const SIGKILL: i32 = 9;

/// The signal of the interrupt key.
pub const SIGINT: i32 = 2;

impl Termination {
    /// The state that follows. An event that does not fit the state changes nothing.
    pub open spec fn after(self, event: TerminationEvent) -> Termination {
        match (self, event) {
            (Termination::Asking, TerminationEvent::Sent) => Termination::Waiting,
            (Termination::Waiting, TerminationEvent::Ended) => Termination::Done,
            (Termination::Waiting, TerminationEvent::Expired) => Termination::Killing,
            (Termination::Killing, TerminationEvent::Sent) => Termination::Reaping,
            (Termination::Reaping, TerminationEvent::Ended) => Termination::Done,
            _ => self,
        }
    }

    /// The state that follows. An event that does not fit the state changes nothing.
    pub fn next(self, event: TerminationEvent) -> (state: Termination)
        ensures
            state == self.after(event),
    {
        match (self, event) {
            (Termination::Asking, TerminationEvent::Sent) => Termination::Waiting,
            (Termination::Waiting, TerminationEvent::Ended) => Termination::Done,
            (Termination::Waiting, TerminationEvent::Expired) => Termination::Killing,
            (Termination::Killing, TerminationEvent::Sent) => Termination::Reaping,
            (Termination::Reaping, TerminationEvent::Ended) => Termination::Done,
            _ => self,
        }
    }

    /// The signal to send now, if one is to be sent.
    pub fn signal(self) -> (sig: Option<i32>)
        ensures
            sig == match self {
                Termination::Asking => Some(SIGTERM),
                Termination::Killing => Some(SIGKILL),
                _ => None,
            },
    {
        match self {
            Termination::Asking => Some(SIGTERM),
            Termination::Killing => Some(SIGKILL),
            _ => None,
        }
    }
}

/// A child is killed only after it was asked to end and its grace period ran out.
pub proof fn killing_follows_the_grace_period(state: Termination, event: TerminationEvent)
    requires
        state.after(event) is Killing,
        !(state is Killing),
    ensures
        state is Waiting,
        event is Expired,
{
}

/// The text that shows a pseudo-terminal's master.
pub open spec fn master_text(platform: Platform, open: bool) -> Seq<char> {
    "PtyMaster(platform="@ + platform_text(platform) + ", open="@ + bool_text(open) + ")"@
}

/// The text that shows a child process.
pub open spec fn child_text(pid: u32, running: bool) -> Seq<char> {
    "PtyChild(pid="@ + text::decimal(pid as nat) + ", running="@ + bool_text(running) + ")"@
}

/// The name of a family of systems.
pub open spec fn platform_text(platform: Platform) -> Seq<char> {
    match platform {
        Platform::Unix => "unix"@,
        Platform::Windows => "windows"@,
    }
}

/// `true` or `false`.
pub open spec fn bool_text(b: bool) -> Seq<char> {
    if b {
        "true"@
    } else {
        "false"@
    }
}

fn bool_name(b: bool) -> (s: &'static str)
    ensures
        s@ == bool_text(b),
{
    if b {
        "true"
    } else {
        "false"
    }
}

/// The name of a family of systems.
pub fn platform_name(platform: Platform) -> (s: &'static str)
    ensures
        s@ == platform_text(platform),
{
    match platform {
        Platform::Unix => "unix",
        Platform::Windows => "windows",
    }
}

/// The text that shows a pseudo-terminal's master.
pub fn master_repr(platform: Platform, open: bool) -> (s: String)
    ensures
        s@ == master_text(platform, open),
{
    let mut s = "PtyMaster(platform=".to_string();
    s.append(platform_name(platform));
    s.append(", open=");
    s.append(bool_name(open));
    s.append(")");
    s
}

/// The text that shows a child process.
pub fn child_repr(pid: u32, running: bool) -> (s: String)
    ensures
        s@ == child_text(pid, running),
{
    let mut s = "PtyChild(pid=".to_string();
    text::push_decimal(&mut s, pid as u128);
    s.append(", running=");
    s.append(bool_name(running));
    s.append(")");
    s
}

/// The text that shows a master together with its child.
pub fn session_repr(platform: Platform, open: bool, pid: u32, running: bool) -> (s: String)
    ensures
        s@ == "PtySession(master="@ + master_text(platform, open) + ", child="@ + child_text(
            pid,
            running,
        ) + ")"@,
{
    let master = master_repr(platform, open);
    let child = child_repr(pid, running);
    let mut s = "PtySession(master=".to_string();
    s.append(master.as_str());
    s.append(", child=");
    s.append(child.as_str());
    s.append(")");
    s
}

/// What sending a signal to a Unix process group brings.
#[derive(Debug)]
pub enum KillOutcome {
    /// It was sent.
    Sent,
    /// It was not permitted, which some systems say of a group whose processes are dead already.
    NotPermitted,
    /// It failed, with what the system says.
    Failed(String),
}

/// The signals whose numbers are the same on every Unix system: SIGHUP, SIGINT, SIGQUIT, SIGABRT,
/// SIGKILL, SIGALRM and SIGTERM.
pub open spec fn is_common_signal(sig: i32) -> bool {
    sig == 1 || sig == 2 || sig == 3 || sig == 6 || sig == 9 || sig == 14 || sig == 15
}

/// `Signal::try_from` of the crate `nix` knows the signals of the system that it was built for.
/// No signal has a number below 1, and the seven with fixed numbers are known everywhere. Which
/// others there are depends on the system and is left open.
#[verifier::external_body]
fn is_known_signal(sig: i32) -> (b: bool)
    ensures
        sig <= 0 ==> !b,
        is_common_signal(sig) ==> b,
{
    nix::sys::signal::Signal::try_from(sig).is_ok()
}

/// The signal to send where the system knows it, else the error.
pub fn checked_signal(sig: i32, known: bool) -> (r: PtyResult<i32>)
    ensures
        known ==> r == Ok::<i32, PtyErrorKind>(sig),
        !known ==> (r matches Err(PtyErrorKind::SignalError(m)) && m@ == "Invalid signal: "@
            + text::signed_decimal(sig as int)),
{
    if known {
        Ok(sig)
    } else {
        let mut m = "Invalid signal: ".to_string();
        text::push_signed(&mut m, sig as i64);
        Err(PtyErrorKind::SignalError(m))
    }
}

/// The signal to send, or the error where this system has none of that number.
pub fn unix_signal(sig: i32) -> (r: PtyResult<i32>)
    ensures
        is_common_signal(sig) ==> r is Ok,
        sig <= 0 ==> r is Err,
        r matches Ok(s) ==> s == sig,
        r matches Err(e) ==> (e matches PtyErrorKind::SignalError(m) && m@ == "Invalid signal: "@
            + text::signed_decimal(sig as int)),
{
    let known = is_known_signal(sig);
    checked_signal(sig, known)
}

/// What sending a signal amounts to. One that was not permitted counts as sent: the process is
/// dead already.
pub fn kill_result(outcome: KillOutcome) -> (r: PtyResult<()>)
    ensures
        r == match outcome {
            KillOutcome::Failed(m) => Err::<(), PtyErrorKind>(PtyErrorKind::SignalError(m)),
            _ => Ok::<(), PtyErrorKind>(()),
        },
{
    match outcome {
        KillOutcome::Sent | KillOutcome::NotPermitted => Ok(()),
        KillOutcome::Failed(m) => Err(PtyErrorKind::SignalError(m)),
    }
}

/// The number of the process group that the signals of a child go to.
pub fn process_group(pid: i32) -> (group: i32)
    requires
        pid > i32::MIN,
    ensures
        group == -pid,
{
    -pid
}

/// What stands for a signal on Windows.
#[derive(Clone, Copy, Debug, PartialEq, Eq, Structural)]
pub enum WindowsSignal {
    /// A Ctrl-C event on the console.
    CtrlC,
    /// The process is terminated.
    Terminate,
}

/// What stands for signal `sig` on Windows, or the error where nothing does.
pub fn windows_signal(sig: i32) -> (r: PtyResult<WindowsSignal>)
    ensures
        sig == SIGINT ==> r == Ok::<WindowsSignal, PtyErrorKind>(WindowsSignal::CtrlC),
        sig == SIGKILL || sig == SIGTERM ==> r == Ok::<WindowsSignal, PtyErrorKind>(
            WindowsSignal::Terminate,
        ),
        sig != SIGINT && sig != SIGKILL && sig != SIGTERM ==> (r matches Err(
            PtyErrorKind::SignalError(m),
        ) && m@ == "Signal "@ + text::signed_decimal(sig as int)
            + " not supported on Windows"@),
{
    if sig == SIGINT {
        Ok(WindowsSignal::CtrlC)
    } else if sig == SIGKILL || sig == SIGTERM {
        Ok(WindowsSignal::Terminate)
    } else {
        let mut m = "Signal ".to_string();
        text::push_signed(&mut m, sig as i64);
        m.append(" not supported on Windows");
        Err(PtyErrorKind::SignalError(m))
    }
}

/// The code that Windows gives of a process that has not ended.
pub const STILL_ACTIVE: u32 = 259;

/// The report of a Windows process's end, from the code that the system gave, if it gave one:
/// nothing while the process runs. The code keeps its bits and gets a sign.
pub fn windows_exit(pid: u32, code: Option<u32>) -> (r: Option<ProcessExit>)
    ensures
        r == match code {
            Some(c) => if c == STILL_ACTIVE {
                None
            } else {
                Some(ProcessExit { pid, exit_code: Some(signed(c) as i32), signal: None })
            },
            None => None,
        },
{
    match code {
        Some(c) => if c == STILL_ACTIVE {
            None
        } else {
            Some(ProcessExit { pid, exit_code: Some(to_signed(c)), signal: None })
        },
        None => None,
    }
}

/// A code keeps its thirty-two bits when it gets or loses its sign, and either undoes the other.
pub proof fn a_code_keeps_its_bits(code: i32, bits: u32)
    ensures
        0 <= unsigned(code) <= u32::MAX,
        (unsigned(code) - code) % 0x1_0000_0000 == 0,
        i32::MIN <= signed(bits) <= i32::MAX,
        (bits - signed(bits)) % 0x1_0000_0000 == 0,
        signed(unsigned(code) as u32) == code,
        unsigned(signed(bits) as i32) == bits,
{
}

/// A process succeeded exactly where it exited with code 0 and no signal ended it, and only then
/// is success told of.
pub proof fn success_is_an_exit_with_code_zero(exit: ProcessExit)
    ensures
        exit.ending().success() <==> exit.exit_code == Some(0i32) && exit.signal is None,
        exit.ending().success() <==> exit.ending().message() == "Success"@,
        exit.ending().signal is Some <==> exit.signal is Some && exit.exit_code is None,
{
    reveal_strlit("Success");
    reveal_strlit("Terminated by ");
    reveal_strlit("Exited with code ");
    let e = exit.ending();
    if !e.success() {
        let m = e.message();
        assert(m[0] == 'T' || m[0] == 'E');
    }
}

/// The end of a child that is watched is noted as it was seen: an exit with its code, and a signal
/// with its number. One that cannot be asked after any more leaves no report.
pub proof fn an_ending_is_noted(state: ChildState, outcome: WaitOutcome)
    requires
        state.running,
    ensures
        outcome.is_last() <==> !(outcome is StillAlive || outcome is Other
            || outcome is Interrupted),
        state.after(outcome).pid == state.pid,
        state.after(outcome).running == !outcome.is_last(),
        outcome matches WaitOutcome::Exited { pid, code } ==> {
            &&& state.after(outcome).exit_status matches Some(e)
            &&& signed(e.pid) == pid
            &&& e.exit_code == Some(code)
            &&& e.signal is None
        },
        outcome matches WaitOutcome::Signaled { pid, signal } ==> {
            &&& state.after(outcome).exit_status matches Some(e)
            &&& signed(e.pid) == pid
            &&& e.exit_code is None
            &&& e.signal == Some(signal)
        },
        outcome is Failed ==> state.after(outcome).exit_status == state.exit_status,
{
    match outcome {
        WaitOutcome::Exited { pid, .. } => {
            a_code_keeps_its_bits(pid, 0);
        },
        WaitOutcome::Signaled { pid, .. } => {
            a_code_keeps_its_bits(pid, 0);
        },
        _ => {},
    }
}

/// How far a termination has come.
pub open spec fn stage(state: Termination) -> int {
    match state {
        Termination::Asking => 0,
        Termination::Waiting => 1,
        Termination::Killing => 2,
        Termination::Reaping => 3,
        Termination::Done => 4,
    }
}

/// A termination goes forward only. It is over once the child ends while its end is awaited, and
/// sending a signal is what makes it wait.
pub proof fn a_termination_goes_forward(state: Termination, event: TerminationEvent)
    ensures
        stage(state) <= stage(state.after(event)),
        state.after(event) is Done <==> state is Done || (event is Ended && (state is Waiting
            || state is Reaping)),
        event is Sent ==> stage(state.after(event)) == if state is Asking || state is Killing {
            stage(state) + 1
        } else {
            stage(state)
        },
        event is Expired ==> stage(state.after(event)) == if state is Waiting {
            2
        } else {
            stage(state)
        },
{
}

} // verus!
