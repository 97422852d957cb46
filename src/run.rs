//! The decisions of one run of a container, as a state machine.
//!
//! A run attaches to the container's output, starts it, tells the caller that
//! it started, collects its standard output and standard error until the log
//! stream ends, and then learns its exit code: from the first wait event, or,
//! where the wait subscription yields nothing, from an inspection of the
//! container. The engine calls themselves are made by whoever drives the
//! machine: it performs each [`Action`] and hands back what came of it as an
//! [`Event`].

use vstd::prelude::*;

verus! {

/// The stream that a chunk of a container's log was tagged with.
#[derive(Clone, Copy, Debug, PartialEq, Eq, Structural)]
pub enum LogStream {
    StdOut,
    StdErr,
    /// Standard input echoed back, or console output: not captured.
    Other,
}

/// An answer of the engine that contradicts its own API.
#[derive(Clone, Copy, Debug, PartialEq, Eq, Structural)]
pub enum Violation {
    /// An inspection reported a container without a state.
    NoState,
    /// An inspection reported a finished container without an exit code.
    NoExitCode,
    /// An event came that the current phase does not wait for.
    OutOfOrder,
}

/// What an inspection of a container reported of its state.
#[derive(Clone, Copy, Debug, PartialEq, Eq, Structural)]
pub struct ContainerState {
    pub exit_code: Option<i64>,
}

/// Where a run stands.
#[derive(Clone, Copy, Debug, PartialEq, Eq, Structural)]
pub enum Phase {
    /// Nothing was asked of the engine yet.
    Ready,
    /// The log stream is being attached.
    Attaching,
    /// The container is being started.
    Starting,
    /// The caller is being told that the container started.
    Notifying,
    /// Log chunks are being collected.
    Collecting,
    /// The first wait event is awaited.
    Waiting,
    /// The container is being inspected for its exit code.
    Inspecting,
    /// The container exited with this code; the run is over.
    Exited(i64),
    /// The engine reported an error; the run is over.
    Failed,
    /// The engine contradicted its API, or the events came out of order.
    Broken(Violation),
}

/// What happened on the engine's side since the last action.
pub enum Event {
    /// The run is asked to begin.
    Begin,
    /// The log stream was attached.
    Attached,
    /// The start command succeeded.
    Started,
    /// The caller was told that the container started.
    Notified,
    /// A chunk of log output arrived.
    Log { stream: LogStream, message: Vec<u8> },
    /// The log stream ended.
    LogsEnded,
    /// The first wait event carried this status code.
    WaitExited(i64),
    /// The first wait event was the engine's wait error, carrying this code.
    WaitErrorCode(i64),
    /// The wait subscription yielded nothing.
    WaitEnded,
    /// An inspection answered with this state, if any.
    Inspected(Option<ContainerState>),
    /// The engine call of the last action failed.
    EngineFailed,
}

/// What the driver of a run is to do next.
#[derive(Clone, Copy, Debug, PartialEq, Eq, Structural)]
pub enum Action {
    /// Attach to the container's log stream with these options.
    Attach { stdout: bool, stderr: bool, stream: bool },
    /// Issue the start command.
    Start,
    /// Call the caller's started hook, once.
    NotifyStarted,
    /// Read the next chunk of the log stream.
    ReadLog,
    /// Subscribe to the wait events and take at most one.
    Wait,
    /// Inspect the container.
    Inspect,
    /// The run is over: the container exited with this code.
    Finish(i64),
    /// The run is over: hand the engine's error to the caller.
    Fail,
    /// The run cannot go on: the engine broke its API.
    Abort(Violation),
    /// The run is already over: nothing to do.
    Halt,
}

/// The mathematical state of a run.
pub struct RunView {
    pub phase: Phase,
    pub attach_stdout: bool,
    pub attach_stderr: bool,
    pub stdout: Seq<u8>,
    pub stderr: Seq<u8>,
}

/// What a finished run captured.
pub struct RunOutput {
    pub exit_code: i64,
    pub stdout: Vec<u8>,
    pub stderr: Vec<u8>,
}

/// The state of one run of a container.
pub struct Run {
    phase: Phase,
    attach_stdout: bool,
    attach_stderr: bool,
    stdout: Vec<u8>,
    stderr: Vec<u8>,
}

impl View for Run {
    type V = RunView;

    closed spec fn view(&self) -> RunView {
        RunView {
            phase: self.phase,
            attach_stdout: self.attach_stdout,
            attach_stderr: self.attach_stderr,
            stdout: self.stdout@,
            stderr: self.stderr@,
        }
    }
}

/// Whether the run is over.
pub open spec fn is_over(p: Phase) -> bool {
    match p {
        Phase::Exited(_) | Phase::Failed | Phase::Broken(_) => true,
        _ => false,
    }
}

/// The state that a run moves to on an event it did not wait for.
pub open spec fn broken(m: RunView, v: Violation) -> (RunView, Action) {
    (RunView { phase: Phase::Broken(v), ..m }, Action::Abort(v))
}

/// The state in which the container exited with `code`.
pub open spec fn exited(m: RunView, code: i64) -> (RunView, Action) {
    (RunView { phase: Phase::Exited(code), ..m }, Action::Finish(code))
}

/// One step of a run: the next state and the next action, on an event.
pub open spec fn step_spec(m: RunView, e: Event) -> (RunView, Action) {
    if is_over(m.phase) {
        (m, Action::Halt)
    } else {
        match e {
            Event::EngineFailed => (RunView { phase: Phase::Failed, ..m }, Action::Fail),
            Event::Begin => if m.phase == Phase::Ready {
                (
                    RunView { phase: Phase::Attaching, ..m },
                    Action::Attach { stdout: m.attach_stdout, stderr: m.attach_stderr, stream: true },
                )
            } else {
                broken(m, Violation::OutOfOrder)
            },
            Event::Attached => if m.phase == Phase::Attaching {
                (RunView { phase: Phase::Starting, ..m }, Action::Start)
            } else {
                broken(m, Violation::OutOfOrder)
            },
            Event::Started => if m.phase == Phase::Starting {
                (RunView { phase: Phase::Notifying, ..m }, Action::NotifyStarted)
            } else {
                broken(m, Violation::OutOfOrder)
            },
            Event::Notified => if m.phase == Phase::Notifying {
                (RunView { phase: Phase::Collecting, ..m }, Action::ReadLog)
            } else {
                broken(m, Violation::OutOfOrder)
            },
            Event::Log { stream, message } => if m.phase == Phase::Collecting {
                match stream {
                    LogStream::StdOut => (
                        RunView { stdout: m.stdout + message@, ..m },
                        Action::ReadLog,
                    ),
                    LogStream::StdErr => (
                        RunView { stderr: m.stderr + message@, ..m },
                        Action::ReadLog,
                    ),
                    LogStream::Other => (m, Action::ReadLog),
                }
            } else {
                broken(m, Violation::OutOfOrder)
            },
            Event::LogsEnded => if m.phase == Phase::Collecting {
                (RunView { phase: Phase::Waiting, ..m }, Action::Wait)
            } else {
                broken(m, Violation::OutOfOrder)
            },
            Event::WaitExited(code) | Event::WaitErrorCode(code) => if m.phase == Phase::Waiting {
                exited(m, code)
            } else {
                broken(m, Violation::OutOfOrder)
            },
            Event::WaitEnded => if m.phase == Phase::Waiting {
                (RunView { phase: Phase::Inspecting, ..m }, Action::Inspect)
            } else {
                broken(m, Violation::OutOfOrder)
            },
            Event::Inspected(state) => if m.phase == Phase::Inspecting {
                match state {
                    None => broken(m, Violation::NoState),
                    Some(s) => match s.exit_code {
                        None => broken(m, Violation::NoExitCode),
                        Some(code) => exited(m, code),
                    },
                }
            } else {
                broken(m, Violation::OutOfOrder)
            },
        }
    }
}

impl Run {
    /// A run that has asked nothing of the engine yet, and that will attach
    /// standard output and standard error as the two flags say.
    pub fn new(attach_stdout: bool, attach_stderr: bool) -> (r: Run)
        ensures
            r@ == (RunView {
                phase: Phase::Ready,
                attach_stdout,
                attach_stderr,
                stdout: Seq::empty(),
                stderr: Seq::empty(),
            }),
    {
        Run { phase: Phase::Ready, attach_stdout, attach_stderr, stdout: Vec::new(), stderr: Vec::new() }
    }

    /// Where the run stands.
    pub fn phase(&self) -> (r: Phase)
        ensures
            r == self@.phase,
    {
        self.phase
    }

    fn fail_out_of_order(&mut self) -> (a: Action)
        ensures
            (final(self)@, a) == broken(old(self)@, Violation::OutOfOrder),
    {
        self.phase = Phase::Broken(Violation::OutOfOrder);
        Action::Abort(Violation::OutOfOrder)
    }

    fn exit(&mut self, code: i64) -> (a: Action)
        ensures
            (final(self)@, a) == exited(old(self)@, code),
    {
        self.phase = Phase::Exited(code);
        Action::Finish(code)
    }

    /// Takes the next event and says what to do next.
    pub fn step(&mut self, e: Event) -> (a: Action)
        ensures
            (final(self)@, a) == step_spec(old(self)@, e),
    {
        match self.phase {
            Phase::Exited(_) | Phase::Failed | Phase::Broken(_) => {
                return Action::Halt;
            },
            _ => {},
        }
        match e {
            Event::EngineFailed => {
                self.phase = Phase::Failed;
                Action::Fail
            },
            Event::Begin => if matches!(self.phase, Phase::Ready) {
                self.phase = Phase::Attaching;
                Action::Attach { stdout: self.attach_stdout, stderr: self.attach_stderr, stream: true }
            } else {
                self.fail_out_of_order()
            },
            Event::Attached => if matches!(self.phase, Phase::Attaching) {
                self.phase = Phase::Starting;
                Action::Start
            } else {
                self.fail_out_of_order()
            },
            Event::Started => if matches!(self.phase, Phase::Starting) {
                self.phase = Phase::Notifying;
                Action::NotifyStarted
            } else {
                self.fail_out_of_order()
            },
            Event::Notified => if matches!(self.phase, Phase::Notifying) {
                self.phase = Phase::Collecting;
                Action::ReadLog
            } else {
                self.fail_out_of_order()
            },
            Event::Log { stream, message } => if matches!(self.phase, Phase::Collecting) {
                let mut message = message;
                match stream {
                    LogStream::StdOut => self.stdout.append(&mut message),
                    LogStream::StdErr => self.stderr.append(&mut message),
                    LogStream::Other => {},
                }
                Action::ReadLog
            } else {
                self.fail_out_of_order()
            },
            Event::LogsEnded => if matches!(self.phase, Phase::Collecting) {
                self.phase = Phase::Waiting;
                Action::Wait
            } else {
                self.fail_out_of_order()
            },
            Event::WaitExited(code) | Event::WaitErrorCode(code) => if matches!(self.phase, Phase::Waiting) {
                self.exit(code)
            } else {
                self.fail_out_of_order()
            },
            Event::WaitEnded => if matches!(self.phase, Phase::Waiting) {
                self.phase = Phase::Inspecting;
                Action::Inspect
            } else {
                self.fail_out_of_order()
            },
            Event::Inspected(state) => if matches!(self.phase, Phase::Inspecting) {
                match state {
                    None => {
                        self.phase = Phase::Broken(Violation::NoState);
                        Action::Abort(Violation::NoState)
                    },
                    Some(s) => match s.exit_code {
                        None => {
                            self.phase = Phase::Broken(Violation::NoExitCode);
                            Action::Abort(Violation::NoExitCode)
                        },
                        Some(code) => self.exit(code),
                    },
                }
            } else {
                self.fail_out_of_order()
            },
        }
    }

    /// The exit code and the captured output of a run that is over because
    /// the container exited; `None` for a run in any other phase.
    pub fn into_output(self) -> (r: Option<RunOutput>)
        ensures
            r is Some <==> self@.phase is Exited,
            r matches Some(o) ==> self@.phase == Phase::Exited(o.exit_code) && o.stdout@
                == self@.stdout && o.stderr@ == self@.stderr,
    {
        match self.phase {
            Phase::Exited(code) => Some(RunOutput { exit_code: code, stdout: self.stdout, stderr: self.stderr }),
            _ => None,
        }
    }
}

/// The final state and the actions of a run that takes `events` in order.
pub open spec fn drive(m: RunView, events: Seq<Event>) -> (RunView, Seq<Action>)
    decreases events.len(),
{
    if events.len() == 0 {
        (m, Seq::empty())
    } else {
        let (m1, a) = step_spec(m, events[0]);
        let (m2, rest) = drive(m1, events.drop_first());
        (m2, seq![a] + rest)
    }
}

/// The bytes of the log chunks among `events` that are tagged `which`, in
/// order.
pub open spec fn collected(events: Seq<Event>, which: LogStream) -> Seq<u8>
    decreases events.len(),
{
    if events.len() == 0 {
        Seq::empty()
    } else {
        let rest = collected(events.drop_first(), which);
        match events[0] {
            Event::Log { stream, message } => if stream == which {
                message@ + rest
            } else {
                rest
            },
            _ => rest,
        }
    }
}

/// How far a phase is along the order of a run.
pub open spec fn rank(p: Phase) -> nat {
    match p {
        Phase::Ready => 0,
        Phase::Attaching => 1,
        Phase::Starting => 2,
        Phase::Notifying => 3,
        Phase::Collecting => 4,
        Phase::Waiting => 5,
        Phase::Inspecting => 6,
        _ => 7,
    }
}

/// The wait event that carries a status code and the engine's wait error
/// that carries an exit code lead to the same state and the same action.
pub proof fn lemma_wait_paths_agree(m: RunView, code: i64)
    ensures
        step_spec(m, Event::WaitExited(code)) == step_spec(m, Event::WaitErrorCode(code)),
{
}

/// While waiting, a wait event with code `code` ends the run with that code,
/// the captured output kept.
pub proof fn lemma_wait_event_gives_code(m: RunView, code: i64)
    requires
        m.phase == Phase::Waiting,
    ensures
        step_spec(m, Event::WaitExited(code)) == (
        RunView { phase: Phase::Exited(code), ..m },
        Action::Finish(code),
        ),
{
}

/// Where the wait subscription yields nothing the run inspects the container,
/// and ends with the exit code that the inspection reports; an inspection
/// without a state or without an exit code breaks the run and never ends it
/// with a code.
pub proof fn lemma_inspect_fallback(m: RunView, state: Option<ContainerState>)
    requires
        m.phase == Phase::Waiting,
    ensures
        step_spec(m, Event::WaitEnded) == (RunView { phase: Phase::Inspecting, ..m }, Action::Inspect),
        ({
            let (m2, a) = step_spec(step_spec(m, Event::WaitEnded).0, Event::Inspected(state));
            match state {
                Some(ContainerState { exit_code: Some(code) }) => m2.phase == Phase::Exited(code)
                    && a == Action::Finish(code),
                Some(ContainerState { exit_code: None }) => m2.phase == Phase::Broken(
                    Violation::NoExitCode,
                ) && a == Action::Abort(Violation::NoExitCode),
                None => m2.phase == Phase::Broken(Violation::NoState) && a == Action::Abort(
                    Violation::NoState,
                ),
            }
        }),
{
}

/// Collecting a run of log chunks appends to standard output exactly the
/// chunks tagged standard output, to standard error exactly those tagged
/// standard error, and drops the rest.
pub proof fn lemma_collect_separates(m: RunView, logs: Seq<Event>)
    requires
        m.phase == Phase::Collecting,
        forall|i: int| 0 <= i < logs.len() ==> #[trigger] logs[i] is Log,
    ensures
        drive(m, logs).0 == (RunView {
            stdout: m.stdout + collected(logs, LogStream::StdOut),
            stderr: m.stderr + collected(logs, LogStream::StdErr),
            ..m
        }),
        drive(m, logs).1 == Seq::new(logs.len(), |i: int| Action::ReadLog),
    decreases logs.len(),
{
    if logs.len() > 0 {
        let m1 = step_spec(m, logs[0]).0;
        let rest = logs.drop_first();
        assert forall|i: int| 0 <= i < rest.len() implies #[trigger] rest[i] is Log by {
            assert(rest[i] == logs[i + 1]);
        }
        lemma_collect_separates(m1, rest);
        assert(logs[0] is Log);
        assert(m.stdout + collected(logs, LogStream::StdOut) == m1.stdout + collected(
            rest,
            LogStream::StdOut,
        ));
        assert(m.stderr + collected(logs, LogStream::StdErr) == m1.stderr + collected(
            rest,
            LogStream::StdErr,
        ));
        assert(drive(m, logs).1 =~= Seq::new(logs.len(), |i: int| Action::ReadLog));
    } else {
        assert(drive(m, logs).1 =~= Seq::new(logs.len(), |i: int| Action::ReadLog));
        assert(m.stdout + collected(logs, LogStream::StdOut) == m.stdout);
        assert(m.stderr + collected(logs, LogStream::StdErr) == m.stderr);
    }
}

proof fn lemma_step_order(m: RunView, e: Event)
    ensures
        rank(m.phase) <= rank(step_spec(m, e).0.phase),
        step_spec(m, e).1 == Action::NotifyStarted ==> m.phase == Phase::Starting && e is Started
            && step_spec(m, e).0.phase == Phase::Notifying,
        step_spec(m, e).1 is Finish ==> rank(m.phase) >= 5,
        rank(m.phase) <= 2 && 3 <= rank(step_spec(m, e).0.phase) <= 6 ==> step_spec(m, e).1
            == Action::NotifyStarted,
{
}

proof fn lemma_drive_order(m: RunView, events: Seq<Event>)
    ensures
        rank(m.phase) <= rank(drive(m, events).0.phase),
        forall|i: int|
            0 <= i < drive(m, events).1.len() && #[trigger] drive(m, events).1[i]
                == Action::NotifyStarted ==> rank(m.phase) <= 2 && forall|j: int|
                0 <= j < drive(m, events).1.len() && j != i ==> drive(m, events).1[j]
                    != Action::NotifyStarted,
        forall|i: int|
            0 <= i < drive(m, events).1.len() && #[trigger] drive(m, events).1[i] is Finish
                ==> 3 <= rank(m.phase) <= 6 || exists|j: int|
                0 <= j < i && drive(m, events).1[j] == Action::NotifyStarted,
        drive(m, events).1.len() == events.len(),
        forall|i: int|
            0 <= i < drive(m, events).1.len() && #[trigger] drive(m, events).1[i]
                == Action::NotifyStarted ==> events[i] is Started,
    decreases events.len(),
{
    if events.len() > 0 {
        let (m1, a) = step_spec(m, events[0]);
        let rest = events.drop_first();
        lemma_step_order(m, events[0]);
        lemma_drive_order(m1, rest);
        let acts = drive(m, events).1;
        let tail = drive(m1, rest).1;
        assert(acts == seq![a] + tail);
        assert forall|i: int| 0 <= i < acts.len() && #[trigger] acts[i] == Action::NotifyStarted
            implies rank(m.phase) <= 2 && forall|j: int|
            0 <= j < acts.len() && j != i ==> acts[j] != Action::NotifyStarted by {
            if i == 0 {
                assert forall|j: int| 0 <= j < acts.len() && j != i implies acts[j]
                    != Action::NotifyStarted by {
                    assert(acts[j] == tail[j - 1]);
                    if tail[j - 1] == Action::NotifyStarted {
                        assert(rank(m1.phase) <= 2);
                    }
                }
            } else {
                assert(acts[i] == tail[i - 1]);
                assert(rank(m1.phase) <= 2);
                assert forall|j: int| 0 <= j < acts.len() && j != i implies acts[j]
                    != Action::NotifyStarted by {
                    if j == 0 {
                        if a == Action::NotifyStarted {
                            assert(rank(m1.phase) == 3);
                        }
                    } else {
                        assert(acts[j] == tail[j - 1]);
                    }
                }
            }
        }
        assert forall|i: int| 0 <= i < acts.len() && #[trigger] acts[i] is Finish implies 3
            <= rank(m.phase) <= 6 || exists|j: int| 0 <= j < i && acts[j] == Action::NotifyStarted by {
            if i > 0 && !(3 <= rank(m.phase) <= 6) {
                assert(acts[i] == tail[i - 1]);
                if 3 <= rank(m1.phase) <= 6 {
                    assert(acts[0] == Action::NotifyStarted);
                } else {
                    let j = choose|j: int| 0 <= j < i - 1 && tail[j] == Action::NotifyStarted;
                    assert(acts[j + 1] == tail[j]);
                }
            }
        }
        assert forall|i: int| 0 <= i < acts.len() && #[trigger] acts[i] == Action::NotifyStarted
            implies events[i] is Started by {
            if i > 0 {
                assert(acts[i] == tail[i - 1]);
                assert(events[i] == rest[i - 1]);
            }
        }
    }
}

/// From a run that has not begun, whatever events come: the started hook is
/// asked for at most once, only on the event that the start command
/// succeeded, and before any exit code is reported.
pub proof fn lemma_started_hook_once(attach_stdout: bool, attach_stderr: bool, events: Seq<Event>)
    ensures
        ({
            let acts = drive(
                RunView {
                    phase: Phase::Ready,
                    attach_stdout,
                    attach_stderr,
                    stdout: Seq::empty(),
                    stderr: Seq::empty(),
                },
                events,
            ).1;
            &&& forall|i: int, j: int|
                0 <= i < j < acts.len() && acts[i] == Action::NotifyStarted ==> acts[j]
                    != Action::NotifyStarted
            &&& forall|i: int|
                0 <= i < acts.len() && acts[i] == Action::NotifyStarted ==> events[i] is Started
            &&& forall|i: int|
                0 <= i < acts.len() && acts[i] is Finish ==> exists|j: int|
                    0 <= j < i && acts[j] == Action::NotifyStarted
        }),
{
    let m = RunView {
        phase: Phase::Ready,
        attach_stdout,
        attach_stderr,
        stdout: Seq::empty(),
        stderr: Seq::empty(),
    };
    lemma_drive_order(m, events);
}

proof fn lemma_drive_append(m: RunView, a: Seq<Event>, b: Seq<Event>)
    ensures
        drive(m, a + b) == (drive(drive(m, a).0, b).0, drive(m, a).1 + drive(drive(m, a).0, b).1),
    decreases a.len(),
{
    if a.len() == 0 {
        assert(a + b =~= b);
        assert(drive(m, a).1 + drive(m, b).1 =~= drive(m, b).1);
    } else {
        let m1 = step_spec(m, a[0]).0;
        lemma_drive_append(m1, a.drop_first(), b);
        assert((a + b).drop_first() =~= a.drop_first() + b);
        assert((a + b)[0] == a[0]);
        let x = step_spec(m, a[0]).1;
        assert(seq![x] + (drive(m1, a.drop_first()).1 + drive(drive(m1, a.drop_first()).0, b).1)
            =~= (seq![x] + drive(m1, a.drop_first()).1) + drive(drive(m1, a.drop_first()).0, b).1);
    }
}

/// A run that has not begun, attaching the streams that the flags say.
pub open spec fn fresh(attach_stdout: bool, attach_stderr: bool) -> RunView {
    RunView { phase: Phase::Ready, attach_stdout, attach_stderr, stdout: Seq::empty(), stderr: Seq::empty() }
}

/// The events that report that the container exited with `code`: a wait
/// event, the engine's wait error, or an empty wait subscription followed by
/// an inspection.
pub open spec fn reports_exit(tail: Seq<Event>, code: i64) -> bool {
    tail == seq![Event::WaitExited(code)] || tail == seq![Event::WaitErrorCode(code)] || tail
        == seq![Event::WaitEnded, Event::Inspected(Some(ContainerState { exit_code: Some(code) }))]
}

/// The actions that answer the events of `reports_exit`.
pub open spec fn exit_actions(tail: Seq<Event>, code: i64) -> Seq<Action> {
    if tail.len() == 1 {
        seq![Action::Finish(code)]
    } else {
        seq![Action::Inspect, Action::Finish(code)]
    }
}

/// A whole run in which the engine does its part: the driver attaches with
/// the handle's flags, starts the container, calls the started hook once,
/// reads the log to its end, subscribes to the wait events (and inspects only
/// where they yield nothing), and in that order alone; the run ends with the
/// reported code, standard output holding exactly the chunks tagged standard
/// output and standard error exactly those tagged standard error, in order.
pub proof fn lemma_whole_run(
    attach_stdout: bool,
    attach_stderr: bool,
    logs: Seq<Event>,
    tail: Seq<Event>,
    code: i64,
)
    requires
        forall|i: int| 0 <= i < logs.len() ==> #[trigger] logs[i] is Log,
        reports_exit(tail, code),
    ensures
        ({
            let events = seq![Event::Begin, Event::Attached, Event::Started, Event::Notified] + logs
                + seq![Event::LogsEnded] + tail;
            let (m, acts) = drive(fresh(attach_stdout, attach_stderr), events);
            &&& m.phase == Phase::Exited(code)
            &&& m.stdout == collected(logs, LogStream::StdOut)
            &&& m.stderr == collected(logs, LogStream::StdErr)
            &&& acts == seq![
                Action::Attach { stdout: attach_stdout, stderr: attach_stderr, stream: true },
                Action::Start,
                Action::NotifyStarted,
                Action::ReadLog,
            ] + Seq::new(logs.len(), |i: int| Action::ReadLog) + seq![Action::Wait] + exit_actions(
                tail,
                code,
            )
        }),
{
    let m0 = fresh(attach_stdout, attach_stderr);
    let head = seq![Event::Begin, Event::Attached, Event::Started, Event::Notified];
    let ended = seq![Event::LogsEnded];
    reveal_with_fuel(drive, 5);
    let mc = RunView { phase: Phase::Collecting, ..m0 };
    assert(drive(m0, head).0 == mc);
    assert(drive(m0, head).1 =~= seq![
        Action::Attach { stdout: attach_stdout, stderr: attach_stderr, stream: true },
        Action::Start,
        Action::NotifyStarted,
        Action::ReadLog,
    ]);
    lemma_collect_separates(mc, logs);
    let ml = drive(mc, logs).0;
    assert(mc.stdout + collected(logs, LogStream::StdOut) =~= collected(logs, LogStream::StdOut));
    assert(mc.stderr + collected(logs, LogStream::StdErr) =~= collected(logs, LogStream::StdErr));
    let mw = RunView { phase: Phase::Waiting, ..ml };
    assert(drive(ml, ended).0 == mw);
    assert(drive(ml, ended).1 =~= seq![Action::Wait]);
    assert(drive(mw, tail).0 == RunView { phase: Phase::Exited(code), ..mw });
    assert(drive(mw, tail).1 =~= exit_actions(tail, code));
    lemma_drive_append(m0, head, logs);
    lemma_drive_append(m0, head + logs, ended);
    lemma_drive_append(m0, head + logs + ended, tail);
}

} // verus!
