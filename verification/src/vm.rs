//! A VM and the decisions of its lifecycle.
//!
//! Starting a VM alternates outside work (the registry, ZFS, the network,
//! the Firecracker process) with decisions. `VM::start` and `VM::advance`
//! make the decisions: each returns the next piece of outside work as a
//! `StartAction`, and the caller performs it and reports its outcome as a
//! `StartEvent`. On a failure the machine undoes what was done (kills the
//! process, removes the tap device, and marks a resumed VM stopped or
//! removes a new one) before it reports the first error.

use vstd::prelude::*;
use crate::text::{path_join, path_join_spec, str_eq, trim, trim_spec};
use crate::state::{pid_is_valid, vms_dir, StateError, VMInfo, VMRow, VmStatus};

verus! {

/// Why the version of the root filesystem could not be read.
#[derive(Debug, PartialEq, Eq, Structural)]
pub enum RootfsError {
    /// The `zfs get` command failed.
    ZfsGetFailed,
    /// The version property is not set.
    LatestUnset,
}

/// Why a VM did not start.
#[derive(Debug)]
pub enum StartError {
    /// A VM with the id is already in this status.
    AlreadyActive(VmStatus),
    /// The root filesystem version could not be read.
    Rootfs(RootfsError),
    /// The registry refused an operation.
    State(StateError),
    /// A piece of outside work failed, with its message.
    Outside(String),
    /// An outcome arrived that does not answer the pending action.
    Unexpected,
}

/// The arguments of the `zfs` command that reads the current root
/// filesystem version.
pub open spec fn zfs_latest_args_spec() -> Seq<Seq<char>> {
    seq!["get"@, "-H"@, "-o"@, "value"@, "vume:latest"@, "vume/rootfs"@]
}

/// The contents of a list of strings.
pub open spec fn strings_view(v: Seq<String>) -> Seq<Seq<char>> {
    v.map_values(|s: String| s@)
}

/// The arguments of the `zfs` command that reads the current root
/// filesystem version.
pub fn zfs_latest_args() -> (res: Vec<String>)
    ensures
        strings_view(res@) == zfs_latest_args_spec(),
{
    let res = vec![
        "get".to_owned(),
        "-H".to_owned(),
        "-o".to_owned(),
        "value".to_owned(),
        "vume:latest".to_owned(),
        "vume/rootfs".to_owned(),
    ];
    assert(strings_view(res@) =~= zfs_latest_args_spec());
    res
}

/// The ZFS dataset of a VM.
pub open spec fn dataset_spec(vm_id: Seq<char>) -> Seq<char> {
    "vume/"@ + vm_id
}

/// The arguments of the `zfs` command that clones the root filesystem for a
/// VM.
pub open spec fn zfs_clone_args_spec(snapshot: Seq<char>, vm_id: Seq<char>) -> Seq<Seq<char>> {
    seq!["clone"@, snapshot, dataset_spec(vm_id)]
}

/// The arguments of the `zfs` command that removes the dataset of a VM.
pub open spec fn zfs_destroy_args_spec(vm_id: Seq<char>) -> Seq<Seq<char>> {
    seq!["destroy"@, "-r"@, dataset_spec(vm_id)]
}

fn dataset(vm_id: &str) -> (res: String)
    ensures
        res@ == dataset_spec(vm_id@),
{
    let mut res = "vume/".to_owned();
    res.append(vm_id);
    res
}

/// The arguments of the `zfs` command that clones the root filesystem for a
/// VM.
pub fn zfs_clone_args(snapshot: &str, vm_id: &str) -> (res: Vec<String>)
    ensures
        strings_view(res@) == zfs_clone_args_spec(snapshot@, vm_id@),
{
    let res = vec!["clone".to_owned(), snapshot.to_owned(), dataset(vm_id)];
    assert(strings_view(res@) =~= zfs_clone_args_spec(snapshot@, vm_id@));
    res
}

/// The arguments of the `zfs` command that removes the dataset of a VM.
pub fn zfs_destroy_args(vm_id: &str) -> (res: Vec<String>)
    ensures
        strings_view(res@) == zfs_destroy_args_spec(vm_id@),
{
    let res = vec!["destroy".to_owned(), "-r".to_owned(), dataset(vm_id)];
    assert(strings_view(res@) =~= zfs_destroy_args_spec(vm_id@));
    res
}

/// The snapshot to clone, from the outcome of the `zfs get` command: the
/// command must succeed and print a version other than empty or `-`.
pub open spec fn rootfs_snapshot_spec(success: bool, stdout: Seq<char>) -> Result<
    Seq<char>,
    RootfsError,
> {
    if !success {
        Err(RootfsError::ZfsGetFailed)
    } else {
        let version = trim_spec(stdout);
        if version.len() == 0 || version == "-"@ {
            Err(RootfsError::LatestUnset)
        } else {
            Ok("vume/rootfs@"@ + version)
        }
    }
}

/// The snapshot to clone; see `rootfs_snapshot_spec`.
pub fn rootfs_snapshot(success: bool, stdout: &str) -> (res: Result<String, RootfsError>)
    ensures
        match res {
            Ok(s) => rootfs_snapshot_spec(success, stdout@) == Ok::<Seq<char>, RootfsError>(s@),
            Err(e) => rootfs_snapshot_spec(success, stdout@) == Err::<Seq<char>, RootfsError>(e),
        },
{
    if !success {
        return Err(RootfsError::ZfsGetFailed);
    }
    let version = trim(stdout);
    if version.unicode_len() == 0 || str_eq(version.as_str(), "-") {
        return Err(RootfsError::LatestUnset);
    }
    let mut res = "vume/rootfs@".to_owned();
    res.append(version.as_str());
    Ok(res)
}

/// The tap device of a VM.
pub open spec fn tap_name_spec(vm_id: Seq<char>) -> Seq<char> {
    "tap-"@ + vm_id
}

/// The tap device of a VM.
pub fn tap_name(vm_id: &str) -> (res: String)
    ensures
        res@ == tap_name_spec(vm_id@),
{
    let mut res = "tap-".to_owned();
    res.append(vm_id);
    res
}

/// Where a start stands.
#[derive(Clone, Copy, Debug, PartialEq, Eq, Structural)]
pub enum StartPhase {
    Idle,
    AwaitExisting,
    AwaitResume,
    AwaitDir,
    AwaitVersion,
    AwaitClone,
    AwaitReserve,
    AwaitBridge,
    AwaitTap,
    AwaitLaunch,
    AwaitConfigure,
    AwaitInstance,
    AwaitRunning,
    RollbackKill,
    RollbackTap,
    RollbackRecord,
    Finished,
}

/// A VM to start.
#[derive(Debug)]
pub struct VM {
    id: String,
    kernel: String,
    outbound_if: Option<String>,
    vm_dir: String,
    rootfs: String,
    socket: String,
    ip: Option<String>,
    tap: Option<String>,
    pid: Option<u32>,
    resuming: bool,
    phase: StartPhase,
    failure: Option<StartError>,
}

/// The content of a VM.
pub struct VMView {
    pub id: Seq<char>,
    pub kernel: Seq<char>,
    pub outbound_if: Option<Seq<char>>,
    pub vm_dir: Seq<char>,
    pub rootfs: Seq<char>,
    pub socket: Seq<char>,
    pub ip: Option<Seq<char>>,
    pub tap: Option<Seq<char>>,
    pub pid: Option<u32>,
    pub resuming: bool,
    pub phase: StartPhase,
    pub failure: Option<StartError>,
}

/// The content of an optional string.
pub open spec fn opt_view(o: Option<String>) -> Option<Seq<char>> {
    match o {
        Some(s) => Some(s@),
        None => None,
    }
}

impl View for VM {
    type V = VMView;

    closed spec fn view(&self) -> VMView {
        VMView {
            id: self.id@,
            kernel: self.kernel@,
            outbound_if: opt_view(self.outbound_if),
            vm_dir: self.vm_dir@,
            rootfs: self.rootfs@,
            socket: self.socket@,
            ip: opt_view(self.ip),
            tap: opt_view(self.tap),
            pid: self.pid,
            resuming: self.resuming,
            phase: self.phase,
            failure: self.failure,
        }
    }
}

#[derive(Debug)]
/// A piece of outside work that a start asks for.
#[allow(inconsistent_fields)]
pub enum StartAction {
    /// Read the registry row with the id; answered by `Found`.
    LookupVm { vm_id: String },
    /// Resume the VM in the registry; answered by `Recorded`.
    ResumeRecord { vm_id: String, tap: String },
    /// Create the directory with its parents; answered by `Done`.
    CreateDir { path: String },
    /// Run `zfs` with the arguments and capture its output; answered by
    /// `Output`.
    QueryZfs { args: Vec<String> },
    /// Run `zfs` with the arguments; answered by `Done`.
    RunZfs { args: Vec<String> },
    /// Reserve the VM in the registry; answered by `Recorded`.
    ReserveRecord { vm_id: String, tap: String },
    /// Make sure the bridge exists; answered by `Done`.
    EnsureBridge { outbound_if: Option<String> },
    /// Create the tap device; answered by `Done`.
    CreateTap { tap: String },
    /// Start the Firecracker process; answered by `Launched`.
    Launch { socket: String, kernel: String, rootfs: String, tap: String, ip: String },
    /// Configure the machine through its API; answered by `Done`.
    Configure,
    /// Boot the machine through its API; answered by `Done`.
    StartInstance,
    /// Mark the VM running in the registry; answered by `Recorded`.
    MarkRunning { vm_id: String, pid: i64 },
    /// Stop the process, forcibly if it does not exit.
    KillProcess { pid: u32 },
    /// Remove the tap device.
    DeleteTap { tap: String },
    /// Mark the VM stopped in the registry.
    MarkStopped { vm_id: String },
    /// Remove the directory, the dataset and the registry row of the VM.
    Cleanup { vm_id: String },
    /// The start is over, with its outcome.
    Finish(Result<VMInfo, StartError>),
}

/// The content of a `StartAction`.
#[allow(inconsistent_fields)]
pub enum StartActionView {
    LookupVm { vm_id: Seq<char> },
    ResumeRecord { vm_id: Seq<char>, tap: Seq<char> },
    CreateDir { path: Seq<char> },
    QueryZfs { args: Seq<Seq<char>> },
    RunZfs { args: Seq<Seq<char>> },
    ReserveRecord { vm_id: Seq<char>, tap: Seq<char> },
    EnsureBridge { outbound_if: Option<Seq<char>> },
    CreateTap { tap: Seq<char> },
    Launch {
        socket: Seq<char>,
        kernel: Seq<char>,
        rootfs: Seq<char>,
        tap: Seq<char>,
        ip: Seq<char>,
    },
    Configure,
    StartInstance,
    MarkRunning { vm_id: Seq<char>, pid: i64 },
    KillProcess { pid: u32 },
    DeleteTap { tap: Seq<char> },
    MarkStopped { vm_id: Seq<char> },
    Cleanup { vm_id: Seq<char> },
    Finish(Result<VMRow, StartError>),
}

impl View for StartAction {
    type V = StartActionView;

    open spec fn view(&self) -> StartActionView {
        match self {
            StartAction::LookupVm { vm_id } => StartActionView::LookupVm { vm_id: vm_id@ },
            StartAction::ResumeRecord { vm_id, tap } => StartActionView::ResumeRecord {
                vm_id: vm_id@,
                tap: tap@,
            },
            StartAction::CreateDir { path } => StartActionView::CreateDir { path: path@ },
            StartAction::QueryZfs { args } => StartActionView::QueryZfs { args: strings_view(args@) },
            StartAction::RunZfs { args } => StartActionView::RunZfs { args: strings_view(args@) },
            StartAction::ReserveRecord { vm_id, tap } => StartActionView::ReserveRecord {
                vm_id: vm_id@,
                tap: tap@,
            },
            StartAction::EnsureBridge { outbound_if } => StartActionView::EnsureBridge {
                outbound_if: opt_view(*outbound_if),
            },
            StartAction::CreateTap { tap } => StartActionView::CreateTap { tap: tap@ },
            StartAction::Launch { socket, kernel, rootfs, tap, ip } => StartActionView::Launch {
                socket: socket@,
                kernel: kernel@,
                rootfs: rootfs@,
                tap: tap@,
                ip: ip@,
            },
            StartAction::Configure => StartActionView::Configure,
            StartAction::StartInstance => StartActionView::StartInstance,
            StartAction::MarkRunning { vm_id, pid } => StartActionView::MarkRunning {
                vm_id: vm_id@,
                pid: *pid,
            },
            StartAction::KillProcess { pid } => StartActionView::KillProcess { pid: *pid },
            StartAction::DeleteTap { tap } => StartActionView::DeleteTap { tap: tap@ },
            StartAction::MarkStopped { vm_id } => StartActionView::MarkStopped { vm_id: vm_id@ },
            StartAction::Cleanup { vm_id } => StartActionView::Cleanup { vm_id: vm_id@ },
            StartAction::Finish(r) => StartActionView::Finish(
                match r {
                    Ok(info) => Ok(info@),
                    Err(e) => Err(*e),
                },
            ),
        }
    }
}

/// The outcome of a piece of outside work.
#[derive(Debug)]
pub enum StartEvent {
    /// The registry row with the id, if any.
    Found(Option<VMInfo>),
    /// The row that the registry wrote.
    Recorded(VMInfo),
    /// Whether a command succeeded, and what it printed.
    Output { success: bool, stdout: String },
    /// The process id of the started Firecracker process.
    Launched(u32),
    /// The work is done.
    Done,
    /// The work failed.
    Failed(StartError),
}

/// The content of a `StartEvent`.
pub enum StartEventView {
    Found(Option<VMRow>),
    Recorded(VMRow),
    Output { success: bool, stdout: Seq<char> },
    Launched(u32),
    Done,
    Failed(StartError),
}

impl View for StartEvent {
    type V = StartEventView;

    open spec fn view(&self) -> StartEventView {
        match self {
            StartEvent::Found(o) => StartEventView::Found(
                match o {
                    Some(info) => Some(info@),
                    None => None,
                },
            ),
            StartEvent::Recorded(info) => StartEventView::Recorded(info@),
            StartEvent::Output { success, stdout } => StartEventView::Output {
                success: *success,
                stdout: stdout@,
            },
            StartEvent::Launched(pid) => StartEventView::Launched(*pid),
            StartEvent::Done => StartEventView::Done,
            StartEvent::Failed(e) => StartEventView::Failed(*e),
        }
    }
}

/// The VM in another phase.
pub open spec fn in_phase(v: VMView, phase: StartPhase) -> VMView {
    VMView { phase, ..v }
}

/// The last step of undoing: mark a resumed VM stopped, or remove a new one.
pub open spec fn rollback_record(v: VMView) -> (VMView, StartActionView) {
    if v.resuming {
        (in_phase(v, StartPhase::RollbackRecord), StartActionView::MarkStopped { vm_id: v.id })
    } else {
        (in_phase(v, StartPhase::RollbackRecord), StartActionView::Cleanup { vm_id: v.id })
    }
}

/// Undoing from the tap device on.
pub open spec fn rollback_tap(v: VMView) -> (VMView, StartActionView) {
    match v.tap {
        Some(tap) => (in_phase(v, StartPhase::RollbackTap), StartActionView::DeleteTap { tap }),
        None => rollback_record(v),
    }
}

/// Undoing from the process on.
pub open spec fn rollback_kill(v: VMView) -> (VMView, StartActionView) {
    match v.pid {
        Some(pid) => (in_phase(v, StartPhase::RollbackKill), StartActionView::KillProcess { pid }),
        None => rollback_tap(v),
    }
}

/// The start fails with `e`: remember it and begin to undo.
pub open spec fn fail_spec(v: VMView, e: StartError) -> (VMView, StartActionView) {
    rollback_kill(VMView { failure: Some(e), ..v })
}

/// The start fails with the error that the event carries, or as unexpected
/// if the event does not answer the pending action.
pub open spec fn fail_on(v: VMView, ev: StartEventView) -> (VMView, StartActionView) {
    match ev {
        StartEventView::Failed(e) => fail_spec(v, e),
        _ => fail_spec(v, StartError::Unexpected),
    }
}

/// Beginning a start: the tap device is named after the VM and the registry
/// is asked for an existing VM with the id.
pub open spec fn start_spec(v: VMView) -> (VMView, StartActionView) {
    (
        VMView { tap: Some(tap_name_spec(v.id)), phase: StartPhase::AwaitExisting, ..v },
        StartActionView::LookupVm { vm_id: v.id },
    )
}

/// One decision of a start: the state after the event, and the next action.
pub open spec fn advance_spec(v: VMView, ev: StartEventView) -> (VMView, StartActionView) {
    match v.phase {
        StartPhase::AwaitExisting => match ev {
            StartEventView::Found(None) => (
                in_phase(v, StartPhase::AwaitDir),
                StartActionView::CreateDir { path: v.vm_dir },
            ),
            StartEventView::Found(Some(row)) => if row.status.is_active() {
                fail_spec(v, StartError::AlreadyActive(row.status))
            } else {
                (
                    VMView { resuming: true, phase: StartPhase::AwaitResume, ..v },
                    StartActionView::ResumeRecord { vm_id: v.id, tap: tap_name_spec(v.id) },
                )
            },
            _ => fail_on(v, ev),
        },
        StartPhase::AwaitDir => match ev {
            StartEventView::Done => (
                in_phase(v, StartPhase::AwaitVersion),
                StartActionView::QueryZfs { args: zfs_latest_args_spec() },
            ),
            _ => fail_on(v, ev),
        },
        StartPhase::AwaitVersion => match ev {
            StartEventView::Output { success, stdout } => match rootfs_snapshot_spec(
                success,
                stdout,
            ) {
                Ok(snapshot) => (
                    in_phase(v, StartPhase::AwaitClone),
                    StartActionView::RunZfs { args: zfs_clone_args_spec(snapshot, v.id) },
                ),
                Err(e) => fail_spec(v, StartError::Rootfs(e)),
            },
            _ => fail_on(v, ev),
        },
        StartPhase::AwaitClone => match ev {
            StartEventView::Done => (
                in_phase(v, StartPhase::AwaitReserve),
                StartActionView::ReserveRecord { vm_id: v.id, tap: tap_name_spec(v.id) },
            ),
            _ => fail_on(v, ev),
        },
        StartPhase::AwaitResume | StartPhase::AwaitReserve => match ev {
            StartEventView::Recorded(row) => (
                VMView { ip: Some(row.ip), phase: StartPhase::AwaitBridge, ..v },
                StartActionView::EnsureBridge { outbound_if: v.outbound_if },
            ),
            _ => fail_on(v, ev),
        },
        StartPhase::AwaitBridge => match ev {
            StartEventView::Done => (
                in_phase(v, StartPhase::AwaitTap),
                StartActionView::CreateTap { tap: tap_name_spec(v.id) },
            ),
            _ => fail_on(v, ev),
        },
        StartPhase::AwaitTap => match ev {
            StartEventView::Done => match v.ip {
                Some(ip) => (
                    in_phase(v, StartPhase::AwaitLaunch),
                    StartActionView::Launch {
                        socket: v.socket,
                        kernel: v.kernel,
                        rootfs: v.rootfs,
                        tap: tap_name_spec(v.id),
                        ip,
                    },
                ),
                None => fail_spec(v, StartError::Unexpected),
            },
            _ => fail_on(v, ev),
        },
        StartPhase::AwaitLaunch => match ev {
            StartEventView::Launched(pid) => (
                VMView { pid: Some(pid), phase: StartPhase::AwaitConfigure, ..v },
                StartActionView::Configure,
            ),
            _ => fail_on(v, ev),
        },
        StartPhase::AwaitConfigure => match ev {
            StartEventView::Done => (
                in_phase(v, StartPhase::AwaitInstance),
                StartActionView::StartInstance,
            ),
            _ => fail_on(v, ev),
        },
        StartPhase::AwaitInstance => match ev {
            StartEventView::Done => match v.pid {
                Some(pid) => (
                    in_phase(v, StartPhase::AwaitRunning),
                    StartActionView::MarkRunning { vm_id: v.id, pid: pid as i64 },
                ),
                None => fail_spec(v, StartError::Unexpected),
            },
            _ => fail_on(v, ev),
        },
        StartPhase::AwaitRunning => match ev {
            StartEventView::Recorded(row) => (
                in_phase(v, StartPhase::Finished),
                StartActionView::Finish(Ok(row)),
            ),
            _ => fail_on(v, ev),
        },
        StartPhase::RollbackKill => rollback_tap(v),
        StartPhase::RollbackTap => rollback_record(v),
        StartPhase::RollbackRecord => match v.failure {
            Some(e) => (
                VMView { failure: None, phase: StartPhase::Finished, ..v },
                StartActionView::Finish(Err(e)),
            ),
            None => (in_phase(v, StartPhase::Finished), StartActionView::Finish(Err(StartError::Unexpected))),
        },
        StartPhase::Idle | StartPhase::Finished => (
            v,
            StartActionView::Finish(Err(StartError::Unexpected)),
        ),
    }
}

impl VM {
    /// The id of the VM.
    pub fn id(&self) -> (res: &str)
        ensures
            res@ == self@.id,
    {
        self.id.as_str()
    }

    /// Where a start of the VM stands.
    pub fn phase(&self) -> (res: StartPhase)
        ensures
            res == self@.phase,
    {
        self.phase
    }

    /// A VM to start with the kernel (an absolute path), the outbound
    /// interface and the id; without an id, the first eight characters of
    /// a random UUID in simple form.
    pub fn new(kernel: &str, outbound_if: Option<&str>, vm_id: Option<&str>) -> (res: VM)
        ensures
            vm_id matches Some(id) ==> res@.id == id@,
            vm_id is None ==> res@.id.len() == 8 && (forall|i: int|
                0 <= i < 8 ==> is_lower_hex(#[trigger] res@.id[i])),
            res@.kernel == kernel@,
            res@.outbound_if == (match outbound_if {
                Some(o) => Some(o@),
                None => None::<Seq<char>>,
            }),
            res@.vm_dir == path_join_spec("vume/vms"@, res@.id),
            res@.socket == path_join_spec(res@.vm_dir, "firecracker.sock"@),
            res@.rootfs == "/dev/zvol/vume/"@ + res@.id,
            res@.ip is None,
            res@.tap is None,
            res@.pid is None,
            !res@.resuming,
            res@.phase == StartPhase::Idle,
            res@.failure is None,
    {
        let id = match vm_id {
            Some(id) => id.to_owned(),
            None => {
                let full = new_v4_simple();
                full.as_str().substring_char(0, 8).to_owned()
            },
        };
        let dir = vms_dir();
        let vm_dir = path_join(dir.as_str(), id.as_str());
        let socket = path_join(vm_dir.as_str(), "firecracker.sock");
        let mut rootfs = "/dev/zvol/vume/".to_owned();
        rootfs.append(id.as_str());
        VM {
            id,
            kernel: kernel.to_owned(),
            outbound_if: match outbound_if {
                Some(o) => Some(o.to_owned()),
                None => None,
            },
            vm_dir,
            rootfs,
            socket,
            ip: None,
            tap: None,
            pid: None,
            resuming: false,
            phase: StartPhase::Idle,
            failure: None,
        }
    }

    /// Begins a start: names the tap device and asks for the registry row
    /// with the id.
    pub fn start(&mut self) -> (res: StartAction)
        ensures
            (final(self)@, res@) == start_spec(old(self)@),
    {
        self.tap = Some(tap_name(self.id.as_str()));
        self.phase = StartPhase::AwaitExisting;
        StartAction::LookupVm { vm_id: self.id.clone() }
    }

    fn rollback_record(&mut self) -> (res: StartAction)
        ensures
            (final(self)@, res@) == rollback_record(old(self)@),
    {
        self.phase = StartPhase::RollbackRecord;
        if self.resuming {
            StartAction::MarkStopped { vm_id: self.id.clone() }
        } else {
            StartAction::Cleanup { vm_id: self.id.clone() }
        }
    }

    fn rollback_tap(&mut self) -> (res: StartAction)
        ensures
            (final(self)@, res@) == rollback_tap(old(self)@),
    {
        match &self.tap {
            Some(tap) => {
                let tap = tap.clone();
                self.phase = StartPhase::RollbackTap;
                StartAction::DeleteTap { tap }
            },
            None => self.rollback_record(),
        }
    }

    fn rollback_kill(&mut self) -> (res: StartAction)
        ensures
            (final(self)@, res@) == rollback_kill(old(self)@),
    {
        match self.pid {
            Some(pid) => {
                self.phase = StartPhase::RollbackKill;
                StartAction::KillProcess { pid }
            },
            None => self.rollback_tap(),
        }
    }

    fn fail(&mut self, e: StartError) -> (res: StartAction)
        ensures
            (final(self)@, res@) == fail_spec(old(self)@, e),
    {
        self.failure = Some(e);
        self.rollback_kill()
    }

    fn fail_on(&mut self, ev: StartEvent) -> (res: StartAction)
        ensures
            (final(self)@, res@) == fail_on(old(self)@, ev@),
    {
        match ev {
            StartEvent::Failed(e) => self.fail(e),
            _ => self.fail(StartError::Unexpected),
        }
    }

    /// Takes the outcome of the pending action and returns the next one; see
    /// `advance_spec`.
    pub fn advance(&mut self, ev: StartEvent) -> (res: StartAction)
        ensures
            (final(self)@, res@) == advance_spec(old(self)@, ev@),
    {
        match self.phase {
            StartPhase::AwaitExisting => match ev {
                StartEvent::Found(None) => {
                    self.phase = StartPhase::AwaitDir;
                    StartAction::CreateDir { path: self.vm_dir.clone() }
                },
                StartEvent::Found(Some(info)) => {
                    if info.status == VmStatus::Running || info.status == VmStatus::Booting {
                        self.fail(StartError::AlreadyActive(info.status))
                    } else {
                        self.resuming = true;
                        self.phase = StartPhase::AwaitResume;
                        StartAction::ResumeRecord {
                            vm_id: self.id.clone(),
                            tap: tap_name(self.id.as_str()),
                        }
                    }
                },
                _ => self.fail_on(ev),
            },
            StartPhase::AwaitDir => match ev {
                StartEvent::Done => {
                    self.phase = StartPhase::AwaitVersion;
                    StartAction::QueryZfs { args: zfs_latest_args() }
                },
                _ => self.fail_on(ev),
            },
            StartPhase::AwaitVersion => match ev {
                StartEvent::Output { success, stdout } => {
                    match rootfs_snapshot(success, stdout.as_str()) {
                        Ok(snapshot) => {
                            self.phase = StartPhase::AwaitClone;
                            StartAction::RunZfs {
                                args: zfs_clone_args(snapshot.as_str(), self.id.as_str()),
                            }
                        },
                        Err(e) => self.fail(StartError::Rootfs(e)),
                    }
                },
                _ => self.fail_on(ev),
            },
            StartPhase::AwaitClone => match ev {
                StartEvent::Done => {
                    self.phase = StartPhase::AwaitReserve;
                    StartAction::ReserveRecord {
                        vm_id: self.id.clone(),
                        tap: tap_name(self.id.as_str()),
                    }
                },
                _ => self.fail_on(ev),
            },
            StartPhase::AwaitResume | StartPhase::AwaitReserve => match ev {
                StartEvent::Recorded(info) => {
                    self.ip = Some(info.ip);
                    self.phase = StartPhase::AwaitBridge;
                    StartAction::EnsureBridge {
                        outbound_if: match &self.outbound_if {
                            Some(o) => Some(o.clone()),
                            None => None,
                        },
                    }
                },
                _ => self.fail_on(ev),
            },
            StartPhase::AwaitBridge => match ev {
                StartEvent::Done => {
                    self.phase = StartPhase::AwaitTap;
                    StartAction::CreateTap { tap: tap_name(self.id.as_str()) }
                },
                _ => self.fail_on(ev),
            },
            StartPhase::AwaitTap => match ev {
                StartEvent::Done => match &self.ip {
                    Some(ip) => {
                        let ip = ip.clone();
                        self.phase = StartPhase::AwaitLaunch;
                        StartAction::Launch {
                            socket: self.socket.clone(),
                            kernel: self.kernel.clone(),
                            rootfs: self.rootfs.clone(),
                            tap: tap_name(self.id.as_str()),
                            ip,
                        }
                    },
                    None => self.fail(StartError::Unexpected),
                },
                _ => self.fail_on(ev),
            },
            StartPhase::AwaitLaunch => match ev {
                StartEvent::Launched(pid) => {
                    self.pid = Some(pid);
                    self.phase = StartPhase::AwaitConfigure;
                    StartAction::Configure
                },
                _ => self.fail_on(ev),
            },
            StartPhase::AwaitConfigure => match ev {
                StartEvent::Done => {
                    self.phase = StartPhase::AwaitInstance;
                    StartAction::StartInstance
                },
                _ => self.fail_on(ev),
            },
            StartPhase::AwaitInstance => match ev {
                StartEvent::Done => match self.pid {
                    Some(pid) => {
                        self.phase = StartPhase::AwaitRunning;
                        StartAction::MarkRunning { vm_id: self.id.clone(), pid: pid as i64 }
                    },
                    None => self.fail(StartError::Unexpected),
                },
                _ => self.fail_on(ev),
            },
            StartPhase::AwaitRunning => match ev {
                StartEvent::Recorded(info) => {
                    self.phase = StartPhase::Finished;
                    StartAction::Finish(Ok(info))
                },
                _ => self.fail_on(ev),
            },
            StartPhase::RollbackKill => self.rollback_tap(),
            StartPhase::RollbackTap => self.rollback_record(),
            StartPhase::RollbackRecord => {
                self.phase = StartPhase::Finished;
                match self.failure.take() {
                    Some(e) => StartAction::Finish(Err(e)),
                    None => StartAction::Finish(Err(StartError::Unexpected)),
                }
            },
            StartPhase::Idle | StartPhase::Finished => StartAction::Finish(
                Err(StartError::Unexpected),
            ),
        }
    }
}

/// A signal that stops a process.
#[derive(Clone, Copy, Debug, PartialEq, Eq, Structural)]
pub enum KillSignal {
    Term,
    Kill,
}

/// A step of stopping a process.
#[derive(Clone, Copy, Debug, PartialEq, Eq, Structural)]
pub enum KillAction {
    /// Send the signal; report whether sending succeeded.
    Signal { pid: u32, signal: KillSignal },
    /// Check whether the process exists; report whether it does.
    Probe { pid: u32 },
    /// Wait this many milliseconds.
    Sleep { millis: u64 },
    /// Nothing is left to do.
    Done,
}

/// Where stopping a process stands.
#[derive(Clone, Copy, Debug, PartialEq, Eq, Structural)]
pub enum KillPhase {
    Start,
    AwaitTerm,
    AwaitProbe,
    AwaitSleep,
    AwaitKill,
    Done,
}

/// How many times a process is checked after it was asked to terminate.
pub const KILL_PROBES: u32 = 30;

/// How long to wait between two checks, in milliseconds.
pub const KILL_WAIT_MILLIS: u64 = 100;

/// Stops a process: asks it to terminate, then checks up to `KILL_PROBES`
/// times, waiting after each check, whether it is gone; if it still exists
/// after the last wait and `force` is set, kills it.
#[derive(Clone, Copy, Debug, PartialEq, Eq, Structural)]
pub struct ProcessKiller {
    pub pid: u32,
    pub force: bool,
    pub probes: u32,
    pub phase: KillPhase,
}

/// One decision of stopping a process, given whether the last action
/// succeeded (for a probe: whether the process exists).
pub open spec fn kill_step(k: ProcessKiller, ok: bool) -> (ProcessKiller, KillAction) {
    match k.phase {
        KillPhase::Start => (
            ProcessKiller { phase: KillPhase::AwaitTerm, ..k },
            KillAction::Signal { pid: k.pid, signal: KillSignal::Term },
        ),
        KillPhase::AwaitTerm => if !ok {
            (ProcessKiller { phase: KillPhase::Done, ..k }, KillAction::Done)
        } else {
            (
                ProcessKiller { phase: KillPhase::AwaitProbe, probes: 1, ..k },
                KillAction::Probe { pid: k.pid },
            )
        },
        KillPhase::AwaitProbe => if !ok {
            (ProcessKiller { phase: KillPhase::Done, ..k }, KillAction::Done)
        } else {
            (
                ProcessKiller { phase: KillPhase::AwaitSleep, ..k },
                KillAction::Sleep { millis: KILL_WAIT_MILLIS },
            )
        },
        KillPhase::AwaitSleep => if k.probes < KILL_PROBES {
            (
                ProcessKiller { phase: KillPhase::AwaitProbe, probes: (k.probes + 1) as u32, ..k },
                KillAction::Probe { pid: k.pid },
            )
        } else if k.force {
            (
                ProcessKiller { phase: KillPhase::AwaitKill, ..k },
                KillAction::Signal { pid: k.pid, signal: KillSignal::Kill },
            )
        } else {
            (ProcessKiller { phase: KillPhase::Done, ..k }, KillAction::Done)
        },
        KillPhase::AwaitKill | KillPhase::Done => (
            ProcessKiller { phase: KillPhase::Done, ..k },
            KillAction::Done,
        ),
    }
}

/// The number of steps that stopping a process may still take.
pub open spec fn kill_measure(k: ProcessKiller) -> int {
    match k.phase {
        KillPhase::Start => 2 * KILL_PROBES + 4,
        KillPhase::AwaitTerm => 2 * KILL_PROBES + 3,
        KillPhase::AwaitProbe => 2 * (KILL_PROBES - k.probes) + 3,
        KillPhase::AwaitSleep => 2 * (KILL_PROBES - k.probes) + 2,
        KillPhase::AwaitKill => 1,
        KillPhase::Done => 0,
    }
}

impl ProcessKiller {
    /// The bounds that stopping a process keeps: at most `KILL_PROBES`
    /// checks.
    pub open spec fn wf(self) -> bool {
        match self.phase {
            KillPhase::AwaitProbe | KillPhase::AwaitSleep => 1 <= self.probes <= KILL_PROBES,
            _ => true,
        }
    }

    /// Begins stopping the process.
    pub fn new(pid: u32, force: bool) -> (res: ProcessKiller)
        ensures
            res == (ProcessKiller { pid, force, probes: 0, phase: KillPhase::Start }),
            res.wf(),
    {
        ProcessKiller { pid, force, probes: 0, phase: KillPhase::Start }
    }

    /// Takes whether the last action succeeded and returns the next one;
    /// see `kill_step`.
    pub fn next(&mut self, ok: bool) -> (res: KillAction)
        ensures
            (*final(self), res) == kill_step(*old(self), ok),
            old(self).wf() ==> final(self).wf(),
            old(self).wf() && res != KillAction::Done ==> kill_measure(*final(self)) < kill_measure(
                *old(self),
            ),
            res == KillAction::Done ==> final(self).phase == KillPhase::Done,
    {
        match self.phase {
            KillPhase::Start => {
                self.phase = KillPhase::AwaitTerm;
                KillAction::Signal { pid: self.pid, signal: KillSignal::Term }
            },
            KillPhase::AwaitTerm => {
                if !ok {
                    self.phase = KillPhase::Done;
                    KillAction::Done
                } else {
                    self.phase = KillPhase::AwaitProbe;
                    self.probes = 1;
                    KillAction::Probe { pid: self.pid }
                }
            },
            KillPhase::AwaitProbe => {
                if !ok {
                    self.phase = KillPhase::Done;
                    KillAction::Done
                } else {
                    self.phase = KillPhase::AwaitSleep;
                    KillAction::Sleep { millis: KILL_WAIT_MILLIS }
                }
            },
            KillPhase::AwaitSleep => {
                if self.probes < KILL_PROBES {
                    self.phase = KillPhase::AwaitProbe;
                    self.probes = self.probes + 1;
                    KillAction::Probe { pid: self.pid }
                } else if self.force {
                    self.phase = KillPhase::AwaitKill;
                    KillAction::Signal { pid: self.pid, signal: KillSignal::Kill }
                } else {
                    self.phase = KillPhase::Done;
                    KillAction::Done
                }
            },
            KillPhase::AwaitKill | KillPhase::Done => {
                self.phase = KillPhase::Done;
                KillAction::Done
            },
        }
    }
}

/// What stopping, destroying or cleaning up a VM does.
#[derive(Clone, Copy, Debug, PartialEq, Eq, Structural)]
pub enum TeardownMode {
    /// Stop the process, remove the tap device, mark the VM stopped.
    Stop,
    /// Stop the process, remove the tap device, then clean up.
    Destroy,
    /// Remove the directory, the dataset and the registry row.
    Cleanup,
}

/// Why stopping, destroying or cleaning up a VM failed.
#[derive(Debug)]
pub enum TeardownError {
    /// No VM has the id.
    NotFound,
    /// The registry refused an operation.
    State(StateError),
    /// A piece of outside work failed, with its message.
    Outside(String),
    /// An outcome arrived that does not answer the pending action.
    Unexpected,
}

/// A piece of outside work that a teardown asks for.
#[derive(Debug)]
pub enum TeardownAction {
    /// Read the registry row with the id; answered by `Found`.
    LookupVm { vm_id: String },
    /// Stop the process, forcibly if it does not exit; answered by `Done`.
    KillProcess { pid: u32 },
    /// Remove the tap device; answered by `Done`.
    DeleteTap { tap: String },
    /// Mark the VM stopped in the registry; answered by `Done` or `Failed`.
    MarkStopped { vm_id: String },
    /// Remove the directory if it exists; answered by `Done` or `Failed`.
    RemoveDir { path: String },
    /// Run `zfs` with the arguments; answered by `Done` or `Failed`.
    RunZfs { args: Vec<String> },
    /// Delete the registry row; answered by `Done` or `Failed`.
    DeleteRecord { vm_id: String },
    /// The teardown is over, with its outcome.
    Finish(Result<(), TeardownError>),
}

/// The content of a `TeardownAction`.
pub enum TeardownActionView {
    LookupVm { vm_id: Seq<char> },
    KillProcess { pid: u32 },
    DeleteTap { tap: Seq<char> },
    MarkStopped { vm_id: Seq<char> },
    RemoveDir { path: Seq<char> },
    RunZfs { args: Seq<Seq<char>> },
    DeleteRecord { vm_id: Seq<char> },
    Finish(Result<(), TeardownError>),
}

impl View for TeardownAction {
    type V = TeardownActionView;

    open spec fn view(&self) -> TeardownActionView {
        match self {
            TeardownAction::LookupVm { vm_id } => TeardownActionView::LookupVm { vm_id: vm_id@ },
            TeardownAction::KillProcess { pid } => TeardownActionView::KillProcess { pid: *pid },
            TeardownAction::DeleteTap { tap } => TeardownActionView::DeleteTap { tap: tap@ },
            TeardownAction::MarkStopped { vm_id } => TeardownActionView::MarkStopped {
                vm_id: vm_id@,
            },
            TeardownAction::RemoveDir { path } => TeardownActionView::RemoveDir { path: path@ },
            TeardownAction::RunZfs { args } => TeardownActionView::RunZfs {
                args: strings_view(args@),
            },
            TeardownAction::DeleteRecord { vm_id } => TeardownActionView::DeleteRecord {
                vm_id: vm_id@,
            },
            TeardownAction::Finish(r) => TeardownActionView::Finish(*r),
        }
    }
}

/// The outcome of a piece of outside work of a teardown.
#[derive(Debug)]
pub enum TeardownEvent {
    /// The registry row with the id, if any.
    Found(Option<VMInfo>),
    /// The work is done.
    Done,
    /// The work failed.
    Failed(TeardownError),
}

/// The content of a `TeardownEvent`.
pub enum TeardownEventView {
    Found(Option<VMRow>),
    Done,
    Failed(TeardownError),
}

impl View for TeardownEvent {
    type V = TeardownEventView;

    open spec fn view(&self) -> TeardownEventView {
        match self {
            TeardownEvent::Found(o) => TeardownEventView::Found(
                match o {
                    Some(info) => Some(info@),
                    None => None,
                },
            ),
            TeardownEvent::Done => TeardownEventView::Done,
            TeardownEvent::Failed(e) => TeardownEventView::Failed(*e),
        }
    }
}

/// Where a teardown stands.
#[derive(Clone, Copy, Debug, PartialEq, Eq, Structural)]
pub enum TeardownPhase {
    AwaitLookup,
    AwaitKill,
    AwaitTap,
    AwaitStopped,
    AwaitDir,
    AwaitZfs,
    AwaitRecord,
    Finished,
}

/// Stopping, destroying or cleaning up a VM.
#[derive(Debug)]
pub struct Teardown {
    mode: TeardownMode,
    vm_id: String,
    tap: String,
    phase: TeardownPhase,
    first_error: Option<TeardownError>,
}

/// The content of a `Teardown`.
pub struct TeardownView {
    pub mode: TeardownMode,
    pub vm_id: Seq<char>,
    pub tap: Seq<char>,
    pub phase: TeardownPhase,
    pub first_error: Option<TeardownError>,
}

impl View for Teardown {
    type V = TeardownView;

    closed spec fn view(&self) -> TeardownView {
        TeardownView {
            mode: self.mode,
            vm_id: self.vm_id@,
            tap: self.tap@,
            phase: self.phase,
            first_error: self.first_error,
        }
    }
}

/// The first step of cleaning up: the directory of the VM.
pub open spec fn cleanup_begin(t: TeardownView) -> (TeardownView, TeardownActionView) {
    (
        TeardownView { phase: TeardownPhase::AwaitDir, ..t },
        TeardownActionView::RemoveDir { path: path_join_spec("vume/vms"@, t.vm_id) },
    )
}

/// The teardown keeps the first failure among the cleanup steps.
pub open spec fn keep_first(t: TeardownView, ev: TeardownEventView) -> TeardownView {
    match ev {
        TeardownEventView::Failed(e) => if t.first_error is None {
            TeardownView { first_error: Some(e), ..t }
        } else {
            t
        },
        _ => t,
    }
}

/// After the tap device: mark the VM stopped, or clean up.
pub open spec fn after_tap(t: TeardownView) -> (TeardownView, TeardownActionView) {
    if t.mode == TeardownMode::Stop {
        (
            TeardownView { phase: TeardownPhase::AwaitStopped, ..t },
            TeardownActionView::MarkStopped { vm_id: t.vm_id },
        )
    } else {
        cleanup_begin(t)
    }
}

/// One decision of a teardown.
pub open spec fn teardown_spec(t: TeardownView, ev: TeardownEventView) -> (
    TeardownView,
    TeardownActionView,
) {
    match t.phase {
        TeardownPhase::AwaitLookup => match ev {
            TeardownEventView::Found(Some(row)) => {
                let t2 = TeardownView { vm_id: row.id, tap: row.tap, ..t };
                if pid_is_valid(row.pid) {
                    (
                        TeardownView { phase: TeardownPhase::AwaitKill, ..t2 },
                        TeardownActionView::KillProcess { pid: row.pid as u32 },
                    )
                } else {
                    (
                        TeardownView { phase: TeardownPhase::AwaitTap, ..t2 },
                        TeardownActionView::DeleteTap { tap: row.tap },
                    )
                }
            },
            TeardownEventView::Found(None) => (
                TeardownView { phase: TeardownPhase::Finished, ..t },
                TeardownActionView::Finish(Err(TeardownError::NotFound)),
            ),
            TeardownEventView::Failed(e) => (
                TeardownView { phase: TeardownPhase::Finished, ..t },
                TeardownActionView::Finish(Err(e)),
            ),
            TeardownEventView::Done => (
                TeardownView { phase: TeardownPhase::Finished, ..t },
                TeardownActionView::Finish(Err(TeardownError::Unexpected)),
            ),
        },
        TeardownPhase::AwaitKill => (
            TeardownView { phase: TeardownPhase::AwaitTap, ..t },
            TeardownActionView::DeleteTap { tap: t.tap },
        ),
        TeardownPhase::AwaitTap => after_tap(t),
        TeardownPhase::AwaitStopped => (
            TeardownView { phase: TeardownPhase::Finished, ..t },
            TeardownActionView::Finish(
                match ev {
                    TeardownEventView::Failed(e) => Err(e),
                    _ => Ok(()),
                },
            ),
        ),
        TeardownPhase::AwaitDir => {
            let t2 = keep_first(t, ev);
            (
                TeardownView { phase: TeardownPhase::AwaitZfs, ..t2 },
                TeardownActionView::RunZfs { args: zfs_destroy_args_spec(t.vm_id) },
            )
        },
        TeardownPhase::AwaitZfs => {
            let t2 = keep_first(t, ev);
            (
                TeardownView { phase: TeardownPhase::AwaitRecord, ..t2 },
                TeardownActionView::DeleteRecord { vm_id: t.vm_id },
            )
        },
        TeardownPhase::AwaitRecord => {
            let t2 = keep_first(t, ev);
            (
                TeardownView { phase: TeardownPhase::Finished, first_error: None, ..t2 },
                TeardownActionView::Finish(
                    match t2.first_error {
                        Some(e) => Err(e),
                        None => Ok(()),
                    },
                ),
            )
        },
        TeardownPhase::Finished => (t, TeardownActionView::Finish(Err(TeardownError::Unexpected))),
    }
}

impl Teardown {
    fn begin(mode: TeardownMode, vm_id: &str) -> (res: (Teardown, TeardownAction))
        ensures
            mode != TeardownMode::Cleanup ==> res.0@ == (TeardownView {
                mode,
                vm_id: vm_id@,
                tap: Seq::empty(),
                phase: TeardownPhase::AwaitLookup,
                first_error: None,
            }) && res.1@ == (TeardownActionView::LookupVm { vm_id: vm_id@ }),
            mode == TeardownMode::Cleanup ==> (res.0@, res.1@) == cleanup_begin(
                TeardownView {
                    mode,
                    vm_id: vm_id@,
                    tap: Seq::empty(),
                    phase: TeardownPhase::AwaitLookup,
                    first_error: None,
                },
            ),
    {
        let t = Teardown {
            mode,
            vm_id: vm_id.to_owned(),
            tap: String::new(),
            phase: TeardownPhase::AwaitLookup,
            first_error: None,
        };
        if mode == TeardownMode::Cleanup {
            let dir = vms_dir();
            let path = path_join(dir.as_str(), vm_id);
            (Teardown { phase: TeardownPhase::AwaitDir, ..t }, TeardownAction::RemoveDir { path })
        } else {
            (t, TeardownAction::LookupVm { vm_id: vm_id.to_owned() })
        }
    }

    /// Where the teardown stands.
    pub fn phase(&self) -> (res: TeardownPhase)
        ensures
            res == self@.phase,
    {
        self.phase
    }

    fn keep_first(&mut self, ev: TeardownEvent)
        ensures
            final(self)@ == keep_first(old(self)@, ev@),
    {
        match ev {
            TeardownEvent::Failed(e) => {
                if self.first_error.is_none() {
                    self.first_error = Some(e);
                }
            },
            _ => {},
        }
    }

    /// Takes the outcome of the pending action and returns the next one; see
    /// `teardown_spec`.
    pub fn advance(&mut self, ev: TeardownEvent) -> (res: TeardownAction)
        ensures
            (final(self)@, res@) == teardown_spec(old(self)@, ev@),
    {
        match self.phase {
            TeardownPhase::AwaitLookup => match ev {
                TeardownEvent::Found(Some(info)) => {
                    self.vm_id = info.id;
                    self.tap = info.tap;
                    if 0 < info.pid && info.pid <= 0xffff_ffff {
                        self.phase = TeardownPhase::AwaitKill;
                        TeardownAction::KillProcess { pid: info.pid as u32 }
                    } else {
                        self.phase = TeardownPhase::AwaitTap;
                        TeardownAction::DeleteTap { tap: self.tap.clone() }
                    }
                },
                TeardownEvent::Found(None) => {
                    self.phase = TeardownPhase::Finished;
                    TeardownAction::Finish(Err(TeardownError::NotFound))
                },
                TeardownEvent::Failed(e) => {
                    self.phase = TeardownPhase::Finished;
                    TeardownAction::Finish(Err(e))
                },
                TeardownEvent::Done => {
                    self.phase = TeardownPhase::Finished;
                    TeardownAction::Finish(Err(TeardownError::Unexpected))
                },
            },
            TeardownPhase::AwaitKill => {
                self.phase = TeardownPhase::AwaitTap;
                TeardownAction::DeleteTap { tap: self.tap.clone() }
            },
            TeardownPhase::AwaitTap => {
                if self.mode == TeardownMode::Stop {
                    self.phase = TeardownPhase::AwaitStopped;
                    TeardownAction::MarkStopped { vm_id: self.vm_id.clone() }
                } else {
                    let dir = vms_dir();
                    let path = path_join(dir.as_str(), self.vm_id.as_str());
                    self.phase = TeardownPhase::AwaitDir;
                    TeardownAction::RemoveDir { path }
                }
            },
            TeardownPhase::AwaitStopped => {
                self.phase = TeardownPhase::Finished;
                TeardownAction::Finish(
                    match ev {
                        TeardownEvent::Failed(e) => Err(e),
                        _ => Ok(()),
                    },
                )
            },
            TeardownPhase::AwaitDir => {
                self.keep_first(ev);
                self.phase = TeardownPhase::AwaitZfs;
                TeardownAction::RunZfs { args: zfs_destroy_args(self.vm_id.as_str()) }
            },
            TeardownPhase::AwaitZfs => {
                self.keep_first(ev);
                self.phase = TeardownPhase::AwaitRecord;
                TeardownAction::DeleteRecord { vm_id: self.vm_id.clone() }
            },
            TeardownPhase::AwaitRecord => {
                self.keep_first(ev);
                self.phase = TeardownPhase::Finished;
                TeardownAction::Finish(
                    match self.first_error.take() {
                        Some(e) => Err(e),
                        None => Ok(()),
                    },
                )
            },
            TeardownPhase::Finished => TeardownAction::Finish(Err(TeardownError::Unexpected)),
        }
    }
}

impl VM {
    /// Stops the VM with the id: looks it up, stops its process (if its
    /// process id is valid), removes its tap device and marks it stopped.
    pub fn stop(vm_id: &str) -> (res: (Teardown, TeardownAction))
        ensures
            res.0@ == (TeardownView {
                mode: TeardownMode::Stop,
                vm_id: vm_id@,
                tap: Seq::empty(),
                phase: TeardownPhase::AwaitLookup,
                first_error: None,
            }),
            res.1@ == (TeardownActionView::LookupVm { vm_id: vm_id@ }),
    {
        Teardown::begin(TeardownMode::Stop, vm_id)
    }

    /// Removes the VM with the id: looks it up, stops its process (if its
    /// process id is valid), removes its tap device, then its directory,
    /// its dataset and its registry row, reporting the first failure of
    /// these three.
    pub fn destroy(vm_id: &str) -> (res: (Teardown, TeardownAction))
        ensures
            res.0@ == (TeardownView {
                mode: TeardownMode::Destroy,
                vm_id: vm_id@,
                tap: Seq::empty(),
                phase: TeardownPhase::AwaitLookup,
                first_error: None,
            }),
            res.1@ == (TeardownActionView::LookupVm { vm_id: vm_id@ }),
    {
        Teardown::begin(TeardownMode::Destroy, vm_id)
    }

    /// Removes the directory, the dataset and the registry row of the VM
    /// with the id, attempting all three and reporting the first failure.
    pub fn cleanup(vm_id: &str) -> (res: (Teardown, TeardownAction))
        ensures
            (res.0@, res.1@) == cleanup_begin(
                TeardownView {
                    mode: TeardownMode::Cleanup,
                    vm_id: vm_id@,
                    tap: Seq::empty(),
                    phase: TeardownPhase::AwaitLookup,
                    first_error: None,
                },
            ),
    {
        Teardown::begin(TeardownMode::Cleanup, vm_id)
    }
}

/// A VM as `VM::new` makes it: nothing started yet.
pub open spec fn fresh(v: VMView) -> bool {
    &&& v.ip is None
    &&& v.tap is None
    &&& v.pid is None
    &&& !v.resuming
    &&& v.phase == StartPhase::Idle
    &&& v.failure is None
}

/// Starting a VM that the registry does not know asks, in order, for: the
/// lookup, its directory, the root filesystem version, the clone of that
/// snapshot, the reservation, the bridge, its tap device, the launch with
/// the reserved address, the configuration, the boot and the running mark
/// with the launched process; and finishes with the row that the registry
/// returns for that mark.
pub proof fn lemma_start_new_vm(
    v: VMView,
    version_out: Seq<char>,
    reserved: VMRow,
    pid: u32,
    running: VMRow,
)
    requires
        fresh(v),
        rootfs_snapshot_spec(true, version_out) is Ok,
    ensures
        ({
            let (v1, a1) = start_spec(v);
            let (v2, a2) = advance_spec(v1, StartEventView::Found(None));
            let (v3, a3) = advance_spec(v2, StartEventView::Done);
            let (v4, a4) = advance_spec(
                v3,
                StartEventView::Output { success: true, stdout: version_out },
            );
            let (v5, a5) = advance_spec(v4, StartEventView::Done);
            let (v6, a6) = advance_spec(v5, StartEventView::Recorded(reserved));
            let (v7, a7) = advance_spec(v6, StartEventView::Done);
            let (v8, a8) = advance_spec(v7, StartEventView::Done);
            let (v9, a9) = advance_spec(v8, StartEventView::Launched(pid));
            let (v10, a10) = advance_spec(v9, StartEventView::Done);
            let (v11, a11) = advance_spec(v10, StartEventView::Done);
            let (v12, a12) = advance_spec(v11, StartEventView::Recorded(running));
            &&& a1 == StartActionView::LookupVm { vm_id: v.id }
            &&& a2 == StartActionView::CreateDir { path: v.vm_dir }
            &&& a3 == StartActionView::QueryZfs { args: zfs_latest_args_spec() }
            &&& a4 == StartActionView::RunZfs {
                args: zfs_clone_args_spec(rootfs_snapshot_spec(true, version_out)->Ok_0, v.id),
            }
            &&& a5 == StartActionView::ReserveRecord { vm_id: v.id, tap: tap_name_spec(v.id) }
            &&& a6 == StartActionView::EnsureBridge { outbound_if: v.outbound_if }
            &&& a7 == StartActionView::CreateTap { tap: tap_name_spec(v.id) }
            &&& a8 == StartActionView::Launch {
                socket: v.socket,
                kernel: v.kernel,
                rootfs: v.rootfs,
                tap: tap_name_spec(v.id),
                ip: reserved.ip,
            }
            &&& a9 == StartActionView::Configure
            &&& a10 == StartActionView::StartInstance
            &&& a11 == StartActionView::MarkRunning { vm_id: v.id, pid: pid as i64 }
            &&& a12 == StartActionView::Finish(Ok(running))
            &&& v12.phase == StartPhase::Finished
        }),
{
}

/// Where a start is doing its work (not undoing it).
pub open spec fn is_forward_phase(p: StartPhase) -> bool {
    !(p == StartPhase::Idle || p == StartPhase::RollbackKill || p == StartPhase::RollbackTap || p
        == StartPhase::RollbackRecord || p == StartPhase::Finished)
}

/// A failure during a start is undone, whatever the undo steps report: the
/// process is stopped if one was launched, the tap device is removed, and
/// the VM is marked stopped if it was being resumed or removed if it was new;
/// then the start finishes with that first failure.
pub proof fn lemma_failure_rolls_back(
    v: VMView,
    e: StartError,
    ev2: StartEventView,
    ev3: StartEventView,
    ev4: StartEventView,
)
    requires
        is_forward_phase(v.phase),
        v.tap is Some,
    ensures
        ({
            let restore = if v.resuming {
                StartActionView::MarkStopped { vm_id: v.id }
            } else {
                StartActionView::Cleanup { vm_id: v.id }
            };
            let (w1, b1) = advance_spec(v, StartEventView::Failed(e));
            let (w2, b2) = advance_spec(w1, ev2);
            let (w3, b3) = advance_spec(w2, ev3);
            let (w4, b4) = advance_spec(w3, ev4);
            match v.pid {
                Some(pid) => {
                    &&& b1 == StartActionView::KillProcess { pid }
                    &&& b2 == StartActionView::DeleteTap { tap: v.tap->0 }
                    &&& b3 == restore
                    &&& b4 == StartActionView::Finish(Err(e))
                    &&& w4.phase == StartPhase::Finished
                },
                None => {
                    &&& b1 == StartActionView::DeleteTap { tap: v.tap->0 }
                    &&& b2 == restore
                    &&& b3 == StartActionView::Finish(Err(e))
                    &&& w3.phase == StartPhase::Finished
                },
            }
        }),
{
}

/// Starting a VM whose registry row is stopped or in error resumes it: the
/// registry is asked to resume it (no directory, no clone), and a later
/// failure marks it stopped again rather than removing it.
pub proof fn lemma_start_resumes_stopped(v: VMView, row: VMRow, e: StartError)
    requires
        fresh(v),
        !row.status.is_active(),
    ensures
        ({
            let (v1, a1) = start_spec(v);
            let (v2, a2) = advance_spec(v1, StartEventView::Found(Some(row)));
            let (v3, a3) = advance_spec(v2, StartEventView::Failed(e));
            let (v4, a4) = advance_spec(v3, StartEventView::Done);
            let (v5, a5) = advance_spec(v4, StartEventView::Done);
            &&& a2 == StartActionView::ResumeRecord { vm_id: v.id, tap: tap_name_spec(v.id) }
            &&& v2.resuming
            &&& a3 == StartActionView::DeleteTap { tap: tap_name_spec(v.id) }
            &&& a4 == StartActionView::MarkStopped { vm_id: v.id }
            &&& a5 == StartActionView::Finish(Err(e))
        }),
{
}

/// Starting a VM whose registry row is booting or running is refused with
/// its status, after the steps that undo a new VM: its tap device and its
/// directory, dataset and row are removed.
pub proof fn lemma_start_refuses_active(v: VMView, row: VMRow)
    requires
        fresh(v),
        row.status.is_active(),
    ensures
        ({
            let (v1, a1) = start_spec(v);
            let (v2, a2) = advance_spec(v1, StartEventView::Found(Some(row)));
            let (v3, a3) = advance_spec(v2, StartEventView::Done);
            let (v4, a4) = advance_spec(v3, StartEventView::Done);
            &&& a2 == StartActionView::DeleteTap { tap: tap_name_spec(v.id) }
            &&& a3 == StartActionView::Cleanup { vm_id: v.id }
            &&& a4 == StartActionView::Finish(Err(StartError::AlreadyActive(row.status)))
        }),
{
}

/// Stopping a process checks it at most `KILL_PROBES` times, and kills it
/// only when forced, after it still existed at the last check.
pub proof fn lemma_kill_step(k: ProcessKiller, ok: bool)
    requires
        k.wf(),
    ensures
        kill_step(k, ok).1 == (KillAction::Signal { pid: k.pid, signal: KillSignal::Kill }) ==> k.force
            && k.phase == KillPhase::AwaitSleep && k.probes == KILL_PROBES,
        kill_step(k, ok).1 == (KillAction::Probe { pid: k.pid }) ==> 1 <= kill_step(k, ok).0.probes
            <= KILL_PROBES,
        kill_step(k, ok).0.wf(),
{
}

/// Cleaning up attempts the removal of the directory, the dataset and the
/// registry row whatever each reports, and finishes with the first failure
/// among them, or success.
pub proof fn lemma_cleanup_first_failure(
    t: TeardownView,
    ev1: TeardownEventView,
    ev2: TeardownEventView,
    ev3: TeardownEventView,
)
    requires
        t.phase == TeardownPhase::AwaitDir,
        t.first_error is None,
    ensures
        ({
            let (t1, a1) = teardown_spec(t, ev1);
            let (t2, a2) = teardown_spec(t1, ev2);
            let (t3, a3) = teardown_spec(t2, ev3);
            let first = match ev1 {
                TeardownEventView::Failed(e) => Err(e),
                _ => match ev2 {
                    TeardownEventView::Failed(e) => Err(e),
                    _ => match ev3 {
                        TeardownEventView::Failed(e) => Err(e),
                        _ => Ok(()),
                    },
                },
            };
            &&& a1 == TeardownActionView::RunZfs { args: zfs_destroy_args_spec(t.vm_id) }
            &&& a2 == TeardownActionView::DeleteRecord { vm_id: t.vm_id }
            &&& a3 == TeardownActionView::Finish(first)
            &&& t3.phase == TeardownPhase::Finished
        }),
{
}

/// Stopping a VM that the registry knows stops its process (if its process
/// id is valid), removes its tap device and marks it stopped, and finishes
/// with the outcome of that mark.
pub proof fn lemma_stop_vm(vm_id: Seq<char>, row: VMRow, ev2: TeardownEventView, ev3: TeardownEventView)
    requires
        pid_is_valid(row.pid),
        !(ev3 is Found),
    ensures
        ({
            let t0 = TeardownView {
                mode: TeardownMode::Stop,
                vm_id,
                tap: Seq::empty(),
                phase: TeardownPhase::AwaitLookup,
                first_error: None,
            };
            let (t1, a1) = teardown_spec(t0, TeardownEventView::Found(Some(row)));
            let (t2, a2) = teardown_spec(t1, ev2);
            let (t3, a3) = teardown_spec(t2, TeardownEventView::Done);
            let (t4, a4) = teardown_spec(t3, ev3);
            &&& a1 == TeardownActionView::KillProcess { pid: row.pid as u32 }
            &&& a2 == TeardownActionView::DeleteTap { tap: row.tap }
            &&& a3 == TeardownActionView::MarkStopped { vm_id: row.id }
            &&& a4 == TeardownActionView::Finish(
                match ev3 {
                    TeardownEventView::Failed(e) => Err(e),
                    _ => Ok(()),
                },
            )
        }),
{
}

/// A lower-case hexadecimal digit.
pub open spec fn is_lower_hex(c: char) -> bool {
    ('0' <= c <= '9') || ('a' <= c <= 'f')
}

/// Calls `uuid::Uuid::new_v4` and renders the result with `simple()` and
/// `to_string()`. The UUID is random; the `uuid` crate documents the simple
/// form as 32 lower-case hexadecimal digits, which is all that is claimed.
#[verifier::external_body]
fn new_v4_simple() -> (res: String)
    ensures
        res@.len() == 32,
        forall|i: int| 0 <= i < 32 ==> is_lower_hex(#[trigger] res@[i]),
{
    uuid::Uuid::new_v4().simple().to_string()
}

/// Starting a VM whose registry row is stopped or in error resumes it with
/// the address that the registry's resume hands out: after the resume, the
/// bridge and the tap device, Firecracker is launched with the resumed row's
/// address (not the row's old one), then configured and booted, and the VM
/// is marked running with the launched process; the start finishes with the
/// row that the registry returns for that mark. No directory is created and
/// nothing is cloned.
pub proof fn lemma_start_resumed_vm(v: VMView, row: VMRow, resumed: VMRow, pid: u32, running: VMRow)
    requires
        fresh(v),
        !row.status.is_active(),
    ensures
        ({
            let (v1, a1) = start_spec(v);
            let (v2, a2) = advance_spec(v1, StartEventView::Found(Some(row)));
            let (v3, a3) = advance_spec(v2, StartEventView::Recorded(resumed));
            let (v4, a4) = advance_spec(v3, StartEventView::Done);
            let (v5, a5) = advance_spec(v4, StartEventView::Done);
            let (v6, a6) = advance_spec(v5, StartEventView::Launched(pid));
            let (v7, a7) = advance_spec(v6, StartEventView::Done);
            let (v8, a8) = advance_spec(v7, StartEventView::Done);
            let (v9, a9) = advance_spec(v8, StartEventView::Recorded(running));
            &&& a1 == StartActionView::LookupVm { vm_id: v.id }
            &&& a2 == StartActionView::ResumeRecord { vm_id: v.id, tap: tap_name_spec(v.id) }
            &&& a3 == StartActionView::EnsureBridge { outbound_if: v.outbound_if }
            &&& a4 == StartActionView::CreateTap { tap: tap_name_spec(v.id) }
            &&& a5 == StartActionView::Launch {
                socket: v.socket,
                kernel: v.kernel,
                rootfs: v.rootfs,
                tap: tap_name_spec(v.id),
                ip: resumed.ip,
            }
            &&& a6 == StartActionView::Configure
            &&& a7 == StartActionView::StartInstance
            &&& a8 == StartActionView::MarkRunning { vm_id: v.id, pid: pid as i64 }
            &&& a9 == StartActionView::Finish(Ok(running))
            &&& v9.phase == StartPhase::Finished
        }),
{
}

/// Stopping or destroying a VM that the registry knows first stops its
/// process when its process id is valid, and otherwise goes straight to
/// removing its tap device; either way the teardown then works on the row's
/// id and tap.
pub proof fn lemma_teardown_kills_found_process(t: TeardownView, row: VMRow)
    requires
        t.phase == TeardownPhase::AwaitLookup,
    ensures
        ({
            let (t1, a1) = teardown_spec(t, TeardownEventView::Found(Some(row)));
            &&& pid_is_valid(row.pid) ==> a1 == TeardownActionView::KillProcess { pid: row.pid as u32 }
            &&& !pid_is_valid(row.pid) ==> a1 == TeardownActionView::DeleteTap { tap: row.tap }
            &&& t1.vm_id == row.id && t1.tap == row.tap && t1.mode == t.mode
        }),
{
}

/// Destroying a VM that the registry knows stops its process (if its process
/// id is valid), removes its tap device, then its directory, its dataset and
/// its registry row, and succeeds when those removals do.
pub proof fn lemma_destroy_vm(vm_id: Seq<char>, row: VMRow, ev2: TeardownEventView)
    requires
        pid_is_valid(row.pid),
    ensures
        ({
            let t0 = TeardownView {
                mode: TeardownMode::Destroy,
                vm_id,
                tap: Seq::empty(),
                phase: TeardownPhase::AwaitLookup,
                first_error: None,
            };
            let (t1, a1) = teardown_spec(t0, TeardownEventView::Found(Some(row)));
            let (t2, a2) = teardown_spec(t1, ev2);
            let (t3, a3) = teardown_spec(t2, TeardownEventView::Done);
            let (t4, a4) = teardown_spec(t3, TeardownEventView::Done);
            let (t5, a5) = teardown_spec(t4, TeardownEventView::Done);
            let (t6, a6) = teardown_spec(t5, TeardownEventView::Done);
            &&& a1 == TeardownActionView::KillProcess { pid: row.pid as u32 }
            &&& a2 == TeardownActionView::DeleteTap { tap: row.tap }
            &&& a3 == TeardownActionView::RemoveDir { path: path_join_spec("vume/vms"@, row.id) }
            &&& a4 == TeardownActionView::RunZfs { args: zfs_destroy_args_spec(row.id) }
            &&& a5 == TeardownActionView::DeleteRecord { vm_id: row.id }
            &&& a6 == TeardownActionView::Finish(Ok(()))
        }),
{
}

} // verus!
