//! Running commands in a VM over SSH.
//!
//! `run_in_vm` decides; the caller connects and executes. The commands run
//! one after the other and the run stops at the first one that exits with a
//! non-zero code. `ReadyWait` decides how to wait for SSH to answer.

use vstd::prelude::*;
use crate::state::{VMInfo, VMRow, VmStatus};

verus! {

/// What a command printed and how it exited.
#[derive(Debug)]
pub struct CommandResult {
    pub exit_code: i32,
    pub stdout: String,
    pub stderr: String,
}

/// Why commands could not be run in a VM.
#[derive(Debug)]
pub enum RunError {
    /// No command was given.
    NoCommands,
    /// No VM has the id.
    NotFound,
    /// The VM is in this status, not running.
    NotRunning(VmStatus),
    /// SSH did not become ready in time.
    SshNotReady,
    /// A piece of outside work failed, with its message.
    Outside(String),
    /// An outcome arrived that does not answer the pending action.
    Unexpected,
}

/// A piece of outside work that running commands asks for.
#[derive(Debug)]
pub enum RunAction {
    /// Read the registry row with the id; answered by `Found`.
    LookupVm { vm_id: String },
    /// Wait until SSH answers at the address, up to the timeout; answered by
    /// `Ready`.
    WaitReady { ip: String, timeout_secs: u64 },
    /// Open an SSH session to the address; answered by `Connected`.
    Connect { ip: String, timeout_secs: u64 },
    /// Execute the command in the session; answered by `Output`.
    Exec { command: String, timeout_secs: u64 },
    /// The run is over, with its outcome.
    Finish(Result<CommandResult, RunError>),
}

/// The content of a `RunAction`.
pub enum RunActionView {
    LookupVm { vm_id: Seq<char> },
    WaitReady { ip: Seq<char>, timeout_secs: u64 },
    Connect { ip: Seq<char>, timeout_secs: u64 },
    Exec { command: Seq<char>, timeout_secs: u64 },
    Finish(Result<CommandResult, RunError>),
}

impl View for RunAction {
    type V = RunActionView;

    open spec fn view(&self) -> RunActionView {
        match self {
            RunAction::LookupVm { vm_id } => RunActionView::LookupVm { vm_id: vm_id@ },
            RunAction::WaitReady { ip, timeout_secs } => RunActionView::WaitReady {
                ip: ip@,
                timeout_secs: *timeout_secs,
            },
            RunAction::Connect { ip, timeout_secs } => RunActionView::Connect {
                ip: ip@,
                timeout_secs: *timeout_secs,
            },
            RunAction::Exec { command, timeout_secs } => RunActionView::Exec {
                command: command@,
                timeout_secs: *timeout_secs,
            },
            RunAction::Finish(r) => RunActionView::Finish(*r),
        }
    }
}

/// The outcome of a piece of outside work of a run.
#[derive(Debug)]
pub enum RunEvent {
    /// The registry row with the id, if any.
    Found(Option<VMInfo>),
    /// Whether SSH became ready.
    Ready(bool),
    /// The session is open.
    Connected,
    /// What the command printed and how it exited.
    Output(CommandResult),
    /// The work failed.
    Failed(RunError),
}

/// The content of a `RunEvent`.
pub enum RunEventView {
    Found(Option<VMRow>),
    Ready(bool),
    Connected,
    Output(CommandResult),
    Failed(RunError),
}

impl View for RunEvent {
    type V = RunEventView;

    open spec fn view(&self) -> RunEventView {
        match self {
            RunEvent::Found(o) => RunEventView::Found(
                match o {
                    Some(info) => Some(info@),
                    None => None,
                },
            ),
            RunEvent::Ready(b) => RunEventView::Ready(*b),
            RunEvent::Connected => RunEventView::Connected,
            RunEvent::Output(r) => RunEventView::Output(*r),
            RunEvent::Failed(e) => RunEventView::Failed(*e),
        }
    }
}

/// Where a run stands.
#[derive(Clone, Copy, Debug, PartialEq, Eq, Structural)]
pub enum RunPhase {
    AwaitLookup,
    AwaitReady,
    AwaitConnect,
    AwaitExec,
    Finished,
}

/// Running commands in a VM.
#[derive(Debug)]
pub struct RunInVm {
    commands: Vec<String>,
    wait: bool,
    timeout_secs: u64,
    ip: String,
    next: usize,
    phase: RunPhase,
}

/// The content of a `RunInVm`.
pub struct RunInVmView {
    pub commands: Seq<Seq<char>>,
    pub wait: bool,
    pub timeout_secs: u64,
    pub ip: Seq<char>,
    pub next: nat,
    pub phase: RunPhase,
}

impl View for RunInVm {
    type V = RunInVmView;

    closed spec fn view(&self) -> RunInVmView {
        RunInVmView {
            commands: self.commands@.map_values(|c: String| c@),
            wait: self.wait,
            timeout_secs: self.timeout_secs,
            ip: self.ip@,
            next: self.next as nat,
            phase: self.phase,
        }
    }
}

/// The run in another phase.
pub open spec fn run_in_phase(r: RunInVmView, phase: RunPhase) -> RunInVmView {
    RunInVmView { phase, ..r }
}

/// The run is over with the outcome.
pub open spec fn run_finish(r: RunInVmView, res: Result<CommandResult, RunError>) -> (
    RunInVmView,
    RunActionView,
) {
    (run_in_phase(r, RunPhase::Finished), RunActionView::Finish(res))
}

/// The run fails with the error that the event carries, or as unexpected.
pub open spec fn run_fail_on(r: RunInVmView, ev: RunEventView) -> (RunInVmView, RunActionView) {
    match ev {
        RunEventView::Failed(e) => run_finish(r, Err(e)),
        _ => run_finish(r, Err(RunError::Unexpected)),
    }
}

/// One decision of a run.
pub open spec fn run_step(r: RunInVmView, ev: RunEventView) -> (RunInVmView, RunActionView) {
    match r.phase {
        RunPhase::AwaitLookup => match ev {
            RunEventView::Found(None) => run_finish(r, Err(RunError::NotFound)),
            RunEventView::Found(Some(row)) => if row.status != VmStatus::Running {
                run_finish(r, Err(RunError::NotRunning(row.status)))
            } else if r.wait {
                (
                    RunInVmView { ip: row.ip, phase: RunPhase::AwaitReady, ..r },
                    RunActionView::WaitReady { ip: row.ip, timeout_secs: r.timeout_secs },
                )
            } else {
                (
                    RunInVmView { ip: row.ip, phase: RunPhase::AwaitConnect, ..r },
                    RunActionView::Connect { ip: row.ip, timeout_secs: r.timeout_secs },
                )
            },
            _ => run_fail_on(r, ev),
        },
        RunPhase::AwaitReady => match ev {
            RunEventView::Ready(true) => (
                run_in_phase(r, RunPhase::AwaitConnect),
                RunActionView::Connect { ip: r.ip, timeout_secs: r.timeout_secs },
            ),
            RunEventView::Ready(false) => run_finish(r, Err(RunError::SshNotReady)),
            _ => run_fail_on(r, ev),
        },
        RunPhase::AwaitConnect => match ev {
            RunEventView::Connected => if r.commands.len() > 0 {
                (
                    RunInVmView { next: 1, phase: RunPhase::AwaitExec, ..r },
                    RunActionView::Exec { command: r.commands[0], timeout_secs: r.timeout_secs },
                )
            } else {
                run_finish(r, Err(RunError::NoCommands))
            },
            _ => run_fail_on(r, ev),
        },
        RunPhase::AwaitExec => match ev {
            RunEventView::Output(out) => if out.exit_code != 0 || r.next >= r.commands.len() {
                run_finish(r, Ok(out))
            } else {
                (
                    RunInVmView { next: r.next + 1, ..r },
                    RunActionView::Exec {
                        command: r.commands[r.next as int],
                        timeout_secs: r.timeout_secs,
                    },
                )
            },
            _ => run_fail_on(r, ev),
        },
        RunPhase::Finished => (r, RunActionView::Finish(Err(RunError::Unexpected))),
    }
}

impl RunInVm {
    /// Where the run stands.
    pub fn phase(&self) -> (res: RunPhase)
        ensures
            res == self@.phase,
    {
        self.phase
    }

    fn finish(&mut self, res: Result<CommandResult, RunError>) -> (act: RunAction)
        ensures
            (final(self)@, act@) == run_finish(old(self)@, res),
    {
        self.phase = RunPhase::Finished;
        RunAction::Finish(res)
    }

    fn fail_on(&mut self, ev: RunEvent) -> (act: RunAction)
        ensures
            (final(self)@, act@) == run_fail_on(old(self)@, ev@),
    {
        match ev {
            RunEvent::Failed(e) => self.finish(Err(e)),
            _ => self.finish(Err(RunError::Unexpected)),
        }
    }

    /// Takes the outcome of the pending action and returns the next one; see
    /// `run_step`.
    pub fn advance(&mut self, ev: RunEvent) -> (act: RunAction)
        ensures
            (final(self)@, act@) == run_step(old(self)@, ev@),
            old(self)@.next <= old(self)@.commands.len() ==> final(self)@.next
                <= final(self)@.commands.len(),
    {
        match self.phase {
            RunPhase::AwaitLookup => match ev {
                RunEvent::Found(None) => self.finish(Err(RunError::NotFound)),
                RunEvent::Found(Some(vm)) => {
                    if vm.status != VmStatus::Running {
                        self.finish(Err(RunError::NotRunning(vm.status)))
                    } else if self.wait {
                        self.ip = vm.ip;
                        self.phase = RunPhase::AwaitReady;
                        RunAction::WaitReady { ip: self.ip.clone(), timeout_secs: self.timeout_secs }
                    } else {
                        self.ip = vm.ip;
                        self.phase = RunPhase::AwaitConnect;
                        RunAction::Connect { ip: self.ip.clone(), timeout_secs: self.timeout_secs }
                    }
                },
                _ => self.fail_on(ev),
            },
            RunPhase::AwaitReady => match ev {
                RunEvent::Ready(true) => {
                    self.phase = RunPhase::AwaitConnect;
                    RunAction::Connect { ip: self.ip.clone(), timeout_secs: self.timeout_secs }
                },
                RunEvent::Ready(false) => self.finish(Err(RunError::SshNotReady)),
                _ => self.fail_on(ev),
            },
            RunPhase::AwaitConnect => match ev {
                RunEvent::Connected => {
                    if self.commands.len() > 0 {
                        self.next = 1;
                        self.phase = RunPhase::AwaitExec;
                        RunAction::Exec {
                            command: self.commands[0].clone(),
                            timeout_secs: self.timeout_secs,
                        }
                    } else {
                        self.finish(Err(RunError::NoCommands))
                    }
                },
                _ => self.fail_on(ev),
            },
            RunPhase::AwaitExec => match ev {
                RunEvent::Output(out) => {
                    if out.exit_code != 0 || self.next >= self.commands.len() {
                        self.finish(Ok(out))
                    } else {
                        let command = self.commands[self.next].clone();
                        self.next = self.next + 1;
                        RunAction::Exec { command, timeout_secs: self.timeout_secs }
                    }
                },
                _ => self.fail_on(ev),
            },
            RunPhase::Finished => RunAction::Finish(Err(RunError::Unexpected)),
        }
    }
}

/// Runs the commands one after the other in the running VM with the id,
/// after waiting for SSH if `wait` is set, and reports the outcome of the
/// first command that exits with a non-zero code, or of the last one. An
/// empty list of commands is refused.
pub fn run_in_vm(vm_id: &str, commands: &[&str], wait: bool, timeout_secs: u64) -> (res: (
    RunInVm,
    RunAction,
))
    ensures
        res.0@.commands == commands@.map_values(|c: &str| c@),
        res.0@.wait == wait,
        res.0@.timeout_secs == timeout_secs,
        res.0@.next == 0,
        commands@.len() == 0 ==> res.0@.phase == RunPhase::Finished && res.1@ == RunActionView::Finish(
            Err(RunError::NoCommands),
        ),
        commands@.len() > 0 ==> res.0@.phase == RunPhase::AwaitLookup && res.1@
            == (RunActionView::LookupVm { vm_id: vm_id@ }),
{
    let mut list: Vec<String> = Vec::new();
    let mut k: usize = 0;
    while k < commands.len()
        invariant
            k <= commands@.len(),
            list@.len() == k,
            list@.map_values(|c: String| c@) == commands@.take(k as int).map_values(|c: &str| c@),
        decreases commands@.len() - k,
    {
        let ghost before = list@;
        let c = commands[k].to_owned();
        list.push(c);
        proof {
            assert forall|j: int| 0 <= j < k + 1 implies #[trigger] list@[j]@ == commands@[j]@ by {
                if j < k {
                    assert(before.map_values(|c: String| c@)[j] == commands@.take(k as int).map_values(
                        |c: &str| c@,
                    )[j]);
                    assert(list@[j] == before[j]);
                }
            }
            assert(commands@.take(k + 1) =~= commands@.take(k as int).push(commands@[k as int]));
            assert(list@.map_values(|c: String| c@) =~= commands@.take(k + 1).map_values(
                |c: &str| c@,
            ));
        }
        k = k + 1;
    }
    proof {
        assert(commands@.take(commands@.len() as int) =~= commands@);
    }
    let empty = commands.len() == 0;
    let run = RunInVm {
        commands: list,
        wait,
        timeout_secs,
        ip: String::new(),
        next: 0,
        phase: if empty {
            RunPhase::Finished
        } else {
            RunPhase::AwaitLookup
        },
    };
    if empty {
        (run, RunAction::Finish(Err(RunError::NoCommands)))
    } else {
        (run, RunAction::LookupVm { vm_id: vm_id.to_owned() })
    }
}

/// A run finishes with a command's outcome only when that command exited
/// with a non-zero code or was the last one; otherwise it executes the next
/// command.
pub proof fn lemma_run_stops_at_first_failure(r: RunInVmView, out: CommandResult)
    requires
        r.phase == RunPhase::AwaitExec,
        r.next <= r.commands.len(),
    ensures
        ({
            let (r2, act) = run_step(r, RunEventView::Output(out));
            &&& act matches RunActionView::Finish(Ok(res)) ==> res == out && (out.exit_code != 0
                || r.next == r.commands.len())
            &&& act matches RunActionView::Exec { command, .. } ==> out.exit_code == 0 && command
                == r.commands[r.next as int] && r2.next == r.next + 1
            &&& (act is Finish || act is Exec)
        }),
{
}

/// A run asks for a VM that is not running nothing but the lookup: it
/// finishes with the VM's status.
pub proof fn lemma_run_needs_running_vm(r: RunInVmView, row: VMRow)
    requires
        r.phase == RunPhase::AwaitLookup,
        row.status != VmStatus::Running,
    ensures
        run_step(r, RunEventView::Found(Some(row))).1 == RunActionView::Finish(
            Err(RunError::NotRunning(row.status)),
        ),
{
}

/// How long a single SSH connection attempt may take while waiting, in
/// seconds.
pub const READY_CONNECT_SECS: u64 = 2;

/// How long to wait between two attempts, in milliseconds.
pub const READY_RETRY_MILLIS: u64 = 200;

/// A step of waiting for SSH to answer.
#[derive(Debug)]
pub enum ReadyAction {
    /// Read how many milliseconds passed since the wait began; answered by
    /// `Clock`.
    ReadClock,
    /// Flush the neighbour (ARP) cache entry of the address; its outcome is
    /// ignored.
    FlushArp { ip: String },
    /// Try to open an SSH session; answered by `Connected`.
    Connect { ip: String, timeout_secs: u64 },
    /// Wait this many milliseconds; answered by `Done`.
    Sleep { millis: u64 },
    /// The wait is over: whether SSH answered in time.
    Finish(bool),
}

/// The content of a `ReadyAction`.
pub enum ReadyActionView {
    ReadClock,
    FlushArp { ip: Seq<char> },
    Connect { ip: Seq<char>, timeout_secs: u64 },
    Sleep { millis: u64 },
    Finish(bool),
}

impl View for ReadyAction {
    type V = ReadyActionView;

    open spec fn view(&self) -> ReadyActionView {
        match self {
            ReadyAction::ReadClock => ReadyActionView::ReadClock,
            ReadyAction::FlushArp { ip } => ReadyActionView::FlushArp { ip: ip@ },
            ReadyAction::Connect { ip, timeout_secs } => ReadyActionView::Connect {
                ip: ip@,
                timeout_secs: *timeout_secs,
            },
            ReadyAction::Sleep { millis } => ReadyActionView::Sleep { millis: *millis },
            ReadyAction::Finish(b) => ReadyActionView::Finish(*b),
        }
    }
}

/// The outcome of a step of waiting.
#[derive(Clone, Copy, Debug, PartialEq, Eq, Structural)]
pub enum ReadyEvent {
    /// The milliseconds that passed since the wait began.
    Clock { elapsed_millis: u128 },
    /// Whether the connection attempt succeeded.
    Connected(bool),
    /// The step is done.
    Done,
}

/// Where the wait stands.
#[derive(Clone, Copy, Debug, PartialEq, Eq, Structural)]
pub enum ReadyPhase {
    AwaitClock,
    AwaitFlush,
    AwaitConnect,
    AwaitSleep,
    Finished,
}

/// Waiting for SSH to answer at an address: while less time than the
/// timeout has passed, flush the address's neighbour entry, try to connect,
/// and wait a little after a failed attempt.
#[derive(Debug)]
pub struct ReadyWait {
    ip: String,
    timeout_secs: u64,
    phase: ReadyPhase,
}

/// The content of a `ReadyWait`.
pub struct ReadyWaitView {
    pub ip: Seq<char>,
    pub timeout_secs: u64,
    pub phase: ReadyPhase,
}

impl View for ReadyWait {
    type V = ReadyWaitView;

    closed spec fn view(&self) -> ReadyWaitView {
        ReadyWaitView { ip: self.ip@, timeout_secs: self.timeout_secs, phase: self.phase }
    }
}

/// Whether the time that passed is still below the timeout.
pub open spec fn before_deadline(elapsed_millis: u128, timeout_secs: u64) -> bool {
    elapsed_millis < timeout_secs * 1000
}

/// The wait in another phase.
pub open spec fn ready_in_phase(w: ReadyWaitView, phase: ReadyPhase) -> ReadyWaitView {
    ReadyWaitView { phase, ..w }
}

/// One decision of the wait.
pub open spec fn ready_step(w: ReadyWaitView, ev: ReadyEvent) -> (ReadyWaitView, ReadyActionView) {
    match w.phase {
        ReadyPhase::AwaitClock => match ev {
            ReadyEvent::Clock { elapsed_millis } => if before_deadline(
                elapsed_millis,
                w.timeout_secs,
            ) {
                (ready_in_phase(w, ReadyPhase::AwaitFlush), ReadyActionView::FlushArp { ip: w.ip })
            } else {
                (ready_in_phase(w, ReadyPhase::Finished), ReadyActionView::Finish(false))
            },
            _ => (ready_in_phase(w, ReadyPhase::Finished), ReadyActionView::Finish(false)),
        },
        ReadyPhase::AwaitFlush => (
            ready_in_phase(w, ReadyPhase::AwaitConnect),
            ReadyActionView::Connect { ip: w.ip, timeout_secs: READY_CONNECT_SECS },
        ),
        ReadyPhase::AwaitConnect => match ev {
            ReadyEvent::Connected(true) => (
                ready_in_phase(w, ReadyPhase::Finished),
                ReadyActionView::Finish(true),
            ),
            ReadyEvent::Connected(false) => (
                ready_in_phase(w, ReadyPhase::AwaitSleep),
                ReadyActionView::Sleep { millis: READY_RETRY_MILLIS },
            ),
            _ => (ready_in_phase(w, ReadyPhase::Finished), ReadyActionView::Finish(false)),
        },
        ReadyPhase::AwaitSleep => match ev {
            ReadyEvent::Done => (ready_in_phase(w, ReadyPhase::AwaitClock), ReadyActionView::ReadClock),
            _ => (ready_in_phase(w, ReadyPhase::Finished), ReadyActionView::Finish(false)),
        },
        ReadyPhase::Finished => (w, ReadyActionView::Finish(false)),
    }
}

impl ReadyWait {
    /// Begins waiting for SSH at the address, up to `timeout_secs` seconds:
    /// the clock is read first.
    pub fn new(ip: &str, timeout_secs: u64) -> (res: (ReadyWait, ReadyAction))
        ensures
            res.0@ == (ReadyWaitView { ip: ip@, timeout_secs, phase: ReadyPhase::AwaitClock }),
            res.1@ == ReadyActionView::ReadClock,
    {
        (
            ReadyWait { ip: ip.to_owned(), timeout_secs, phase: ReadyPhase::AwaitClock },
            ReadyAction::ReadClock,
        )
    }

    /// Where the wait stands.
    pub fn phase(&self) -> (res: ReadyPhase)
        ensures
            res == self@.phase,
    {
        self.phase
    }

    fn finish(&mut self, ready: bool) -> (res: ReadyAction)
        ensures
            final(self)@ == ready_in_phase(old(self)@, ReadyPhase::Finished),
            res@ == ReadyActionView::Finish(ready),
    {
        self.phase = ReadyPhase::Finished;
        ReadyAction::Finish(ready)
    }

    /// Takes the outcome of the last step and returns the next one; see
    /// `ready_step`.
    pub fn next(&mut self, ev: ReadyEvent) -> (res: ReadyAction)
        ensures
            (final(self)@, res@) == ready_step(old(self)@, ev),
    {
        match self.phase {
            ReadyPhase::AwaitClock => match ev {
                ReadyEvent::Clock { elapsed_millis } => {
                    if elapsed_millis < (self.timeout_secs as u128) * 1000 {
                        self.phase = ReadyPhase::AwaitFlush;
                        ReadyAction::FlushArp { ip: self.ip.clone() }
                    } else {
                        self.finish(false)
                    }
                },
                _ => self.finish(false),
            },
            ReadyPhase::AwaitFlush => {
                self.phase = ReadyPhase::AwaitConnect;
                ReadyAction::Connect { ip: self.ip.clone(), timeout_secs: READY_CONNECT_SECS }
            },
            ReadyPhase::AwaitConnect => match ev {
                ReadyEvent::Connected(true) => self.finish(true),
                ReadyEvent::Connected(false) => {
                    self.phase = ReadyPhase::AwaitSleep;
                    ReadyAction::Sleep { millis: READY_RETRY_MILLIS }
                },
                _ => self.finish(false),
            },
            ReadyPhase::AwaitSleep => match ev {
                ReadyEvent::Done => {
                    self.phase = ReadyPhase::AwaitClock;
                    ReadyAction::ReadClock
                },
                _ => self.finish(false),
            },
            ReadyPhase::Finished => ReadyAction::Finish(false),
        }
    }
}

/// The wait reports success only right after a connection attempt that
/// succeeded; it attempts a connection only right after flushing, and
/// flushes only after a clock reading below the timeout; it gives up when a
/// clock reading reaches the timeout, and waits between failed attempts.
pub proof fn lemma_ready_step(w: ReadyWaitView, ev: ReadyEvent)
    ensures
        ({
            let (w2, a) = ready_step(w, ev);
            &&& a == ReadyActionView::Finish(true) ==> w.phase == ReadyPhase::AwaitConnect && ev
                == ReadyEvent::Connected(true)
            &&& a is Connect ==> w.phase == ReadyPhase::AwaitFlush && a == (ReadyActionView::Connect {
                ip: w.ip,
                timeout_secs: READY_CONNECT_SECS,
            })
            &&& a is FlushArp ==> w.phase == ReadyPhase::AwaitClock && (ev matches ReadyEvent::Clock {
                elapsed_millis,
            } && before_deadline(elapsed_millis, w.timeout_secs))
            &&& (w.phase == ReadyPhase::AwaitClock && (ev matches ReadyEvent::Clock {
                elapsed_millis,
            } && !before_deadline(elapsed_millis, w.timeout_secs))) ==> a == ReadyActionView::Finish(
                false,
            )
            &&& (w.phase == ReadyPhase::AwaitConnect && ev == ReadyEvent::Connected(false)) ==> a
                == (ReadyActionView::Sleep { millis: READY_RETRY_MILLIS })
            &&& a is Finish ==> w2.phase == ReadyPhase::Finished
        }),
{
}

/// A run opens its SSH session to the address of the VM that the lookup
/// found: directly, or after waiting for SSH at that same address; and once
/// the lookup is past, the address the run uses never changes and every
/// connection it asks for goes to it.
pub proof fn lemma_run_targets_vm_address(r: RunInVmView, row: VMRow, ev: RunEventView)
    requires
        r.phase == RunPhase::AwaitLookup,
        row.status == VmStatus::Running,
    ensures
        ({
            let (r1, a1) = run_step(r, RunEventView::Found(Some(row)));
            &&& r1.ip == row.ip
            &&& r.wait ==> a1 == (RunActionView::WaitReady { ip: row.ip, timeout_secs: r.timeout_secs })
                && run_step(r1, RunEventView::Ready(true)).1 == (RunActionView::Connect {
                ip: row.ip,
                timeout_secs: r.timeout_secs,
            })
            &&& !r.wait ==> a1 == (RunActionView::Connect { ip: row.ip, timeout_secs: r.timeout_secs })
            &&& run_step(r1, ev).0.ip == row.ip
            &&& (run_step(r1, ev).1 matches RunActionView::Connect { ip, .. } ==> ip == row.ip)
        }),
{
}

/// Past the lookup, a step keeps the run's address, and a connection it asks
/// for goes to that address.
pub proof fn lemma_run_keeps_address(r: RunInVmView, ev: RunEventView)
    requires
        r.phase != RunPhase::AwaitLookup,
    ensures
        run_step(r, ev).0.ip == r.ip,
        run_step(r, ev).1 matches RunActionView::Connect { ip, .. } ==> ip == r.ip,
        run_step(r, ev).1 matches RunActionView::WaitReady { .. } ==> false,
{
}

} // verus!
