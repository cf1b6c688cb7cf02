//! The Firecracker side of a VM: where its API socket is, how long to wait
//! for it, and the API requests that configure and boot the machine.
//!
//! The caller starts the process and sends the requests; the requests and
//! the decisions are made here.

use vstd::prelude::*;
use crate::text::{path_join, path_join_spec};
use crate::network::BRIDGE_IP;

verus! {

/// Whether a path is absolute.
pub open spec fn is_absolute_spec(p: Seq<char>) -> bool {
    p.len() > 0 && p[0] == '/'
}

/// Whether a path is absolute.
pub fn is_absolute(p: &str) -> (res: bool)
    ensures
        res == is_absolute_spec(p@),
{
    p.unicode_len() > 0 && p.get_char(0) == '/'
}

/// The socket path as given if it is absolute, otherwise under the working
/// directory `cwd` (which the caller only needs to read in that case).
pub fn resolve_socket(socket: &str, cwd: &str) -> (res: String)
    ensures
        is_absolute_spec(socket@) ==> res@ == socket@,
        !is_absolute_spec(socket@) ==> res@ == path_join_spec(cwd@, socket@),
{
    if is_absolute(socket) {
        socket.to_owned()
    } else {
        path_join(cwd, socket)
    }
}

/// The number of virtual CPUs of a machine.
pub const VCPU_COUNT: u32 = 2;

/// The memory of a machine, in MiB.
pub const MEM_SIZE_MIB: u32 = 1024;

/// The kernel command line of a VM with the address: a serial console, and a
/// static address on `eth0` with the bridge as gateway.
pub open spec fn boot_args_spec(ip: Seq<char>) -> Seq<char> {
    "console=ttyS0 reboot=k panic=1 pci=off ip="@ + ip + "::"@ + BRIDGE_IP@ + ":255.255.255.0::eth0:off"@
}

/// The kernel command line of a VM with the address; see `boot_args_spec`.
pub fn boot_args(ip: &str) -> (res: String)
    ensures
        res@ == boot_args_spec(ip@),
{
    let mut res = "console=ttyS0 reboot=k panic=1 pci=off ip=".to_owned();
    res.append(ip);
    res.append("::");
    res.append(BRIDGE_IP);
    res.append(":255.255.255.0::eth0:off");
    res
}

/// The body of a request to the Firecracker API.
#[derive(Clone, Debug)]
pub enum ApiBody {
    MachineConfig { vcpu_count: u32, mem_size_mib: u32 },
    BootSource { kernel_image_path: String, boot_args: String },
    Drive { drive_id: String, path_on_host: String, is_root_device: bool, is_read_only: bool },
    NetworkInterface { iface_id: String, host_dev_name: String },
    Action { action_type: String },
}

/// A `PUT` request to the Firecracker API: its path and its body.
#[derive(Clone, Debug)]
pub struct ApiRequest {
    pub path: String,
    pub body: ApiBody,
}

/// The content of an `ApiBody`.
pub enum ApiBodyView {
    MachineConfig { vcpu_count: u32, mem_size_mib: u32 },
    BootSource { kernel_image_path: Seq<char>, boot_args: Seq<char> },
    Drive {
        drive_id: Seq<char>,
        path_on_host: Seq<char>,
        is_root_device: bool,
        is_read_only: bool,
    },
    NetworkInterface { iface_id: Seq<char>, host_dev_name: Seq<char> },
    Action { action_type: Seq<char> },
}

/// The content of an `ApiRequest`.
pub struct ApiRequestView {
    pub path: Seq<char>,
    pub body: ApiBodyView,
}

impl View for ApiRequest {
    type V = ApiRequestView;

    open spec fn view(&self) -> ApiRequestView {
        ApiRequestView {
            path: self.path@,
            body: match &self.body {
                ApiBody::MachineConfig { vcpu_count, mem_size_mib } => ApiBodyView::MachineConfig {
                    vcpu_count: *vcpu_count,
                    mem_size_mib: *mem_size_mib,
                },
                ApiBody::BootSource { kernel_image_path, boot_args } => ApiBodyView::BootSource {
                    kernel_image_path: kernel_image_path@,
                    boot_args: boot_args@,
                },
                ApiBody::Drive { drive_id, path_on_host, is_root_device, is_read_only } =>
                    ApiBodyView::Drive {
                    drive_id: drive_id@,
                    path_on_host: path_on_host@,
                    is_root_device: *is_root_device,
                    is_read_only: *is_read_only,
                },
                ApiBody::NetworkInterface { iface_id, host_dev_name } =>
                    ApiBodyView::NetworkInterface {
                    iface_id: iface_id@,
                    host_dev_name: host_dev_name@,
                },
                ApiBody::Action { action_type } => ApiBodyView::Action {
                    action_type: action_type@,
                },
            },
        }
    }
}

/// The requests that configure a machine, in order: its CPUs and memory, its
/// kernel and command line, its root drive (read-write), and its network
/// interface on the tap device.
pub open spec fn configure_spec(
    kernel: Seq<char>,
    rootfs: Seq<char>,
    tap: Seq<char>,
    ip: Seq<char>,
    vcpu: u32,
    mem: u32,
) -> Seq<ApiRequestView> {
    seq![
        ApiRequestView {
            path: "/machine-config"@,
            body: ApiBodyView::MachineConfig { vcpu_count: vcpu, mem_size_mib: mem },
        },
        ApiRequestView {
            path: "/boot-source"@,
            body: ApiBodyView::BootSource { kernel_image_path: kernel, boot_args: boot_args_spec(ip) },
        },
        ApiRequestView {
            path: "/drives/rootfs"@,
            body: ApiBodyView::Drive {
                drive_id: "rootfs"@,
                path_on_host: rootfs,
                is_root_device: true,
                is_read_only: false,
            },
        },
        ApiRequestView {
            path: "/network-interfaces/eth0"@,
            body: ApiBodyView::NetworkInterface { iface_id: "eth0"@, host_dev_name: tap },
        },
    ]
}

/// The requests that configure a machine; see `configure_spec`. They are
/// sent in order and the first failure ends the configuration.
fn configure_requests(
    kernel: &str,
    rootfs: &str,
    tap: &str,
    ip: &str,
    vcpu: u32,
    mem: u32,
) -> (res: Vec<ApiRequest>)
    ensures
        res@.map_values(|r: ApiRequest| r@) == configure_spec(kernel@, rootfs@, tap@, ip@, vcpu, mem),
{
    let r0 = ApiRequest {
        path: "/machine-config".to_owned(),
        body: ApiBody::MachineConfig { vcpu_count: vcpu, mem_size_mib: mem },
    };
    let r1 = ApiRequest {
        path: "/boot-source".to_owned(),
        body: ApiBody::BootSource { kernel_image_path: kernel.to_owned(), boot_args: boot_args(ip) },
    };
    let r2 = ApiRequest {
        path: "/drives/rootfs".to_owned(),
        body: ApiBody::Drive {
            drive_id: "rootfs".to_owned(),
            path_on_host: rootfs.to_owned(),
            is_root_device: true,
            is_read_only: false,
        },
    };
    let r3 = ApiRequest {
        path: "/network-interfaces/eth0".to_owned(),
        body: ApiBody::NetworkInterface { iface_id: "eth0".to_owned(), host_dev_name: tap.to_owned() },
    };
    let res = vec![r0, r1, r2, r3];
    assert(res@.map_values(|r: ApiRequest| r@) =~= configure_spec(kernel@, rootfs@, tap@, ip@, vcpu, mem));
    res
}

/// The request that boots the machine.
fn start_request() -> (res: ApiRequest)
    ensures
        res@ == (ApiRequestView {
            path: "/actions"@,
            body: ApiBodyView::Action { action_type: "InstanceStart"@ },
        }),
{
    ApiRequest {
        path: "/actions".to_owned(),
        body: ApiBody::Action { action_type: "InstanceStart".to_owned() },
    }
}

/// A Firecracker machine: where its API socket is, and what it boots.
#[derive(Clone, Debug)]
pub struct Firecracker {
    socket: String,
    kernel: String,
    rootfs: String,
    tap: String,
    ip: String,
    vcpu: u32,
    mem: u32,
}

/// The content of a `Firecracker`.
pub struct FirecrackerView {
    pub socket: Seq<char>,
    pub kernel: Seq<char>,
    pub rootfs: Seq<char>,
    pub tap: Seq<char>,
    pub ip: Seq<char>,
    pub vcpu: u32,
    pub mem: u32,
}

impl View for Firecracker {
    type V = FirecrackerView;

    closed spec fn view(&self) -> FirecrackerView {
        FirecrackerView {
            socket: self.socket@,
            kernel: self.kernel@,
            rootfs: self.rootfs@,
            tap: self.tap@,
            ip: self.ip@,
            vcpu: self.vcpu,
            mem: self.mem,
        }
    }
}

impl Firecracker {
    /// A machine with two virtual CPUs and 1024 MiB; its socket is the
    /// given path if absolute, otherwise under the working directory `cwd`
    /// (which the caller only needs to read in that case).
    pub fn new(socket: &str, cwd: &str, kernel: &str, rootfs: &str, tap: &str, ip: &str) -> (res:
        Firecracker)
        ensures
            is_absolute_spec(socket@) ==> res@.socket == socket@,
            !is_absolute_spec(socket@) ==> res@.socket == path_join_spec(cwd@, socket@),
            res@.kernel == kernel@,
            res@.rootfs == rootfs@,
            res@.tap == tap@,
            res@.ip == ip@,
            res@.vcpu == VCPU_COUNT,
            res@.mem == MEM_SIZE_MIB,
    {
        Firecracker {
            socket: resolve_socket(socket, cwd),
            kernel: kernel.to_owned(),
            rootfs: rootfs.to_owned(),
            tap: tap.to_owned(),
            ip: ip.to_owned(),
            vcpu: VCPU_COUNT,
            mem: MEM_SIZE_MIB,
        }
    }

    /// The path of the API socket.
    pub fn socket(&self) -> (res: &str)
        ensures
            res@ == self@.socket,
    {
        self.socket.as_str()
    }

    /// Begins waiting for the API socket of a started process; see
    /// `LaunchWatch`.
    pub fn launch(&self) -> (res: (LaunchWatch, LaunchStep))
        ensures
            res.0 == (LaunchWatch { polls: 0, phase: LaunchPhase::AwaitSocket }),
            res.1 == LaunchStep::CheckSocket,
    {
        LaunchWatch::new()
    }

    /// The requests that configure the machine; see `configure_spec`.
    pub fn configure(&self) -> (res: Vec<ApiRequest>)
        ensures
            res@.map_values(|r: ApiRequest| r@) == configure_spec(
                self@.kernel,
                self@.rootfs,
                self@.tap,
                self@.ip,
                self@.vcpu,
                self@.mem,
            ),
    {
        configure_requests(
            self.kernel.as_str(),
            self.rootfs.as_str(),
            self.tap.as_str(),
            self.ip.as_str(),
            self.vcpu,
            self.mem,
        )
    }

    /// The request that boots the machine.
    pub fn start(&self) -> (res: ApiRequest)
        ensures
            res@ == (ApiRequestView {
                path: "/actions"@,
                body: ApiBodyView::Action { action_type: "InstanceStart"@ },
            }),
    {
        start_request()
    }
}

/// Whether an HTTP status of the API is an error: a client error (4xx) or a
/// server error (5xx).
pub fn api_status_failed(status: u16) -> (res: bool)
    ensures
        res == (400 <= status <= 599),
{
    400 <= status && status <= 599
}

/// How many times the socket is checked after the process was started.
pub const LAUNCH_POLLS: u32 = 50;

/// How long to wait between two checks, in milliseconds.
pub const LAUNCH_WAIT_MILLIS: u64 = 100;

/// A step of waiting for the API socket of a new Firecracker process.
#[derive(Clone, Copy, Debug, PartialEq, Eq, Structural)]
pub enum LaunchStep {
    /// Check whether the socket exists; report whether it does.
    CheckSocket,
    /// Check whether the process has exited; report whether it has.
    CheckExited,
    /// Wait this many milliseconds.
    Sleep { millis: u64 },
    /// The socket is there: the process is ready.
    Ready,
    /// The process exited before its socket appeared.
    Exited,
    /// The socket did not appear in time.
    TimedOut,
}

/// Where the wait stands.
#[derive(Clone, Copy, Debug, PartialEq, Eq, Structural)]
pub enum LaunchPhase {
    AwaitSocket,
    AwaitExited,
    AwaitSleep,
    Done,
}

/// Waiting for the API socket: up to `LAUNCH_POLLS` times, check the
/// socket, then whether the process exited, then wait.
#[derive(Clone, Copy, Debug, PartialEq, Eq, Structural)]
pub struct LaunchWatch {
    pub polls: u32,
    pub phase: LaunchPhase,
}

/// One decision of the wait, given the answer to the last check.
pub open spec fn launch_step(w: LaunchWatch, yes: bool) -> (LaunchWatch, LaunchStep) {
    match w.phase {
        LaunchPhase::AwaitSocket => if yes {
            (LaunchWatch { phase: LaunchPhase::Done, ..w }, LaunchStep::Ready)
        } else {
            (LaunchWatch { phase: LaunchPhase::AwaitExited, ..w }, LaunchStep::CheckExited)
        },
        LaunchPhase::AwaitExited => if yes {
            (LaunchWatch { phase: LaunchPhase::Done, ..w }, LaunchStep::Exited)
        } else {
            (
                LaunchWatch { phase: LaunchPhase::AwaitSleep, ..w },
                LaunchStep::Sleep { millis: LAUNCH_WAIT_MILLIS },
            )
        },
        LaunchPhase::AwaitSleep => if w.polls + 1 < LAUNCH_POLLS {
            (
                LaunchWatch { polls: (w.polls + 1) as u32, phase: LaunchPhase::AwaitSocket },
                LaunchStep::CheckSocket,
            )
        } else {
            (LaunchWatch { phase: LaunchPhase::Done, ..w }, LaunchStep::TimedOut)
        },
        LaunchPhase::Done => (w, LaunchStep::TimedOut),
    }
}

impl LaunchWatch {
    /// The bound that the wait keeps.
    pub open spec fn wf(self) -> bool {
        self.polls < LAUNCH_POLLS
    }

    /// Begins the wait: the socket is checked first.
    pub fn new() -> (res: (LaunchWatch, LaunchStep))
        ensures
            res.0 == (LaunchWatch { polls: 0, phase: LaunchPhase::AwaitSocket }),
            res.0.wf(),
            res.1 == LaunchStep::CheckSocket,
    {
        (LaunchWatch { polls: 0, phase: LaunchPhase::AwaitSocket }, LaunchStep::CheckSocket)
    }

    /// Takes the answer to the last check and returns the next step; see
    /// `launch_step`.
    pub fn next(&mut self, yes: bool) -> (res: LaunchStep)
        ensures
            (*final(self), res) == launch_step(*old(self), yes),
            old(self).wf() ==> final(self).wf(),
    {
        match self.phase {
            LaunchPhase::AwaitSocket => {
                if yes {
                    self.phase = LaunchPhase::Done;
                    LaunchStep::Ready
                } else {
                    self.phase = LaunchPhase::AwaitExited;
                    LaunchStep::CheckExited
                }
            },
            LaunchPhase::AwaitExited => {
                if yes {
                    self.phase = LaunchPhase::Done;
                    LaunchStep::Exited
                } else {
                    self.phase = LaunchPhase::AwaitSleep;
                    LaunchStep::Sleep { millis: LAUNCH_WAIT_MILLIS }
                }
            },
            LaunchPhase::AwaitSleep => {
                if self.polls < LAUNCH_POLLS - 1 {
                    self.polls = self.polls + 1;
                    self.phase = LaunchPhase::AwaitSocket;
                    LaunchStep::CheckSocket
                } else {
                    self.phase = LaunchPhase::Done;
                    LaunchStep::TimedOut
                }
            },
            LaunchPhase::Done => LaunchStep::TimedOut,
        }
    }
}

/// Waiting for the socket sleeps at most `LAUNCH_POLLS` times: each sleep
/// follows a check made while fewer than `LAUNCH_POLLS` sleeps were done,
/// and the wait times out after the last one.
pub proof fn lemma_launch_step(w: LaunchWatch, yes: bool)
    requires
        w.wf(),
    ensures
        launch_step(w, yes).1 == (LaunchStep::Sleep { millis: LAUNCH_WAIT_MILLIS }) ==> w.phase
            == LaunchPhase::AwaitExited && w.polls < LAUNCH_POLLS,
        launch_step(w, yes).1 == LaunchStep::CheckSocket ==> launch_step(w, yes).0.polls == w.polls
            + 1,
        w.phase == LaunchPhase::AwaitSleep && w.polls + 1 == LAUNCH_POLLS ==> launch_step(w, yes).1
            == LaunchStep::TimedOut,
        launch_step(w, yes).0.wf(),
{
}

/// The answer of the API to a request: its HTTP status, or that the request
/// could not be sent or answered.
#[derive(Clone, Copy, Debug, PartialEq, Eq, Structural)]
pub enum ApiAnswer {
    Status(u16),
    SendFailed,
}

/// Why a series of requests to the API failed.
#[derive(Clone, Copy, Debug, PartialEq, Eq, Structural)]
pub enum ApiError {
    /// The request could not be sent or answered.
    SendFailed,
    /// The API answered with this error status.
    Status(u16),
    /// An answer arrived when no request was pending.
    Unexpected,
}

/// Whether an answer lets the series go on: a status that is not an error.
pub open spec fn answer_ok(a: ApiAnswer) -> bool {
    a matches ApiAnswer::Status(s) && !(400 <= s <= 599)
}

/// The error that a failing answer ends the series with.
pub open spec fn answer_error(a: ApiAnswer) -> ApiError {
    match a {
        ApiAnswer::Status(s) => ApiError::Status(s),
        ApiAnswer::SendFailed => ApiError::SendFailed,
    }
}

/// A step of sending a series of requests.
#[derive(Debug)]
pub enum ApiStep {
    /// Send the request; report the answer.
    Send(ApiRequest),
    /// The series is over, with its outcome.
    Finish(Result<(), ApiError>),
}

/// The content of an `ApiStep`.
pub enum ApiStepView {
    Send(ApiRequestView),
    Finish(Result<(), ApiError>),
}

impl View for ApiStep {
    type V = ApiStepView;

    open spec fn view(&self) -> ApiStepView {
        match self {
            ApiStep::Send(r) => ApiStepView::Send(r@),
            ApiStep::Finish(res) => ApiStepView::Finish(*res),
        }
    }
}

/// Sending a series of requests in order: each is sent only after the one
/// before it was answered with a status that is not an error, and the first
/// failing answer ends the series with its error.
#[derive(Debug)]
pub struct ApiRun {
    requests: Vec<ApiRequest>,
    sent: usize,
    done: bool,
}

/// The content of an `ApiRun`: the requests, how many were sent, and
/// whether the series is over.
pub struct ApiRunView {
    pub requests: Seq<ApiRequestView>,
    pub sent: nat,
    pub done: bool,
}

impl View for ApiRun {
    type V = ApiRunView;

    closed spec fn view(&self) -> ApiRunView {
        ApiRunView {
            requests: self.requests@.map_values(|r: ApiRequest| r@),
            sent: self.sent as nat,
            done: self.done,
        }
    }
}

/// The bound that a series keeps: while it goes on, at least one and at most
/// all of its requests were sent.
pub open spec fn api_run_wf(r: ApiRunView) -> bool {
    !r.done ==> 1 <= r.sent <= r.requests.len()
}

/// The start of a series: its first request, or success if it has none.
pub open spec fn api_start(requests: Seq<ApiRequestView>) -> (ApiRunView, ApiStepView) {
    if requests.len() == 0 {
        (ApiRunView { requests, sent: 0, done: true }, ApiStepView::Finish(Ok(())))
    } else {
        (ApiRunView { requests, sent: 1, done: false }, ApiStepView::Send(requests[0]))
    }
}

/// One decision of a series, given the answer to the last request sent.
pub open spec fn api_step(r: ApiRunView, a: ApiAnswer) -> (ApiRunView, ApiStepView) {
    if r.done {
        (r, ApiStepView::Finish(Err(ApiError::Unexpected)))
    } else if !answer_ok(a) {
        (ApiRunView { done: true, ..r }, ApiStepView::Finish(Err(answer_error(a))))
    } else if r.sent < r.requests.len() {
        (ApiRunView { sent: r.sent + 1, ..r }, ApiStepView::Send(r.requests[r.sent as int]))
    } else {
        (ApiRunView { done: true, ..r }, ApiStepView::Finish(Ok(())))
    }
}

/// The steps that a series takes on the answers, one per answer.
pub open spec fn api_trace(r: ApiRunView, answers: Seq<ApiAnswer>) -> Seq<ApiStepView>
    decreases answers.len(),
{
    if answers.len() == 0 {
        Seq::empty()
    } else {
        let (r1, s) = api_step(r, answers[0]);
        seq![s] + api_trace(r1, answers.drop_first())
    }
}

impl ApiRequest {
    /// A copy of the request.
    pub fn duplicate(&self) -> (res: ApiRequest)
        ensures
            res@ == self@,
    {
        let body = match &self.body {
            ApiBody::MachineConfig { vcpu_count, mem_size_mib } => ApiBody::MachineConfig {
                vcpu_count: *vcpu_count,
                mem_size_mib: *mem_size_mib,
            },
            ApiBody::BootSource { kernel_image_path, boot_args } => ApiBody::BootSource {
                kernel_image_path: kernel_image_path.clone(),
                boot_args: boot_args.clone(),
            },
            ApiBody::Drive { drive_id, path_on_host, is_root_device, is_read_only } => ApiBody::Drive {
                drive_id: drive_id.clone(),
                path_on_host: path_on_host.clone(),
                is_root_device: *is_root_device,
                is_read_only: *is_read_only,
            },
            ApiBody::NetworkInterface { iface_id, host_dev_name } => ApiBody::NetworkInterface {
                iface_id: iface_id.clone(),
                host_dev_name: host_dev_name.clone(),
            },
            ApiBody::Action { action_type } => ApiBody::Action { action_type: action_type.clone() },
        };
        ApiRequest { path: self.path.clone(), body }
    }
}

/// Whether an answer lets the series go on; see `answer_ok`.
pub fn is_answer_ok(a: ApiAnswer) -> (res: bool)
    ensures
        res == answer_ok(a),
{
    match a {
        ApiAnswer::Status(s) => !api_status_failed(s),
        ApiAnswer::SendFailed => false,
    }
}

impl ApiRun {
    /// Begins sending the requests; see `api_start`.
    pub fn new(requests: Vec<ApiRequest>) -> (res: (ApiRun, ApiStep))
        ensures
            (res.0@, res.1@) == api_start(requests@.map_values(|r: ApiRequest| r@)),
            api_run_wf(res.0@),
    {
        if requests.len() == 0 {
            (ApiRun { requests, sent: 0, done: true }, ApiStep::Finish(Ok(())))
        } else {
            let first = requests[0].duplicate();
            (ApiRun { requests, sent: 1, done: false }, ApiStep::Send(first))
        }
    }

    /// Takes the answer to the last request sent and returns the next step;
    /// see `api_step`.
    pub fn next(&mut self, a: ApiAnswer) -> (res: ApiStep)
        requires
            api_run_wf(old(self)@),
        ensures
            (final(self)@, res@) == api_step(old(self)@, a),
            api_run_wf(final(self)@),
    {
        if self.done {
            ApiStep::Finish(Err(ApiError::Unexpected))
        } else if !is_answer_ok(a) {
            self.done = true;
            match a {
                ApiAnswer::Status(s) => ApiStep::Finish(Err(ApiError::Status(s))),
                ApiAnswer::SendFailed => ApiStep::Finish(Err(ApiError::SendFailed)),
            }
        } else if self.sent < self.requests.len() {
            let req = self.requests[self.sent].duplicate();
            self.sent = self.sent + 1;
            ApiStep::Send(req)
        } else {
            self.done = true;
            ApiStep::Finish(Ok(()))
        }
    }
}

impl Firecracker {
    /// Begins sending the requests that configure the machine (see
    /// `configure_spec`), stopping at the first that fails.
    pub fn configure_run(&self) -> (res: (ApiRun, ApiStep))
        ensures
            (res.0@, res.1@) == api_start(
                configure_spec(
                    self@.kernel,
                    self@.rootfs,
                    self@.tap,
                    self@.ip,
                    self@.vcpu,
                    self@.mem,
                ),
            ),
            api_run_wf(res.0@),
    {
        ApiRun::new(self.configure())
    }

    /// Begins sending the request that boots the machine.
    pub fn start_run(&self) -> (res: (ApiRun, ApiStep))
        ensures
            (res.0@, res.1@) == api_start(
                seq![
                    ApiRequestView {
                        path: "/actions"@,
                        body: ApiBodyView::Action { action_type: "InstanceStart"@ },
                    },
                ],
            ),
            api_run_wf(res.0@),
    {
        let res = ApiRun::new(vec![self.start()]);
        assert(res.0@.requests =~= seq![
            ApiRequestView {
                path: "/actions"@,
                body: ApiBodyView::Action { action_type: "InstanceStart"@ },
            },
        ]);
        res
    }
}

proof fn lemma_api_trace_done(r: ApiRunView, a: Seq<ApiAnswer>)
    requires
        r.done,
    ensures
        api_trace(r, a).len() == a.len(),
        forall|j: int|
            0 <= j < a.len() ==> #[trigger] api_trace(r, a)[j] == ApiStepView::Finish(
                Err(ApiError::Unexpected),
            ),
    decreases a.len(),
{
    if a.len() > 0 {
        lemma_api_trace_done(r, a.drop_first());
        let t = api_trace(r, a);
        assert forall|j: int| 0 <= j < a.len() implies #[trigger] t[j] == ApiStepView::Finish(
            Err(ApiError::Unexpected),
        ) by {
            if j > 0 {
                assert(t[j] == api_trace(r, a.drop_first())[j - 1]);
            }
        }
    }
}

proof fn lemma_api_trace_fail(r: ApiRunView, a: Seq<ApiAnswer>, k: int)
    requires
        api_run_wf(r),
        !r.done,
        0 <= k < a.len(),
        r.sent + k <= r.requests.len(),
        forall|j: int| 0 <= j < k ==> answer_ok(#[trigger] a[j]),
        !answer_ok(a[k]),
    ensures
        api_trace(r, a).len() == a.len(),
        forall|j: int|
            0 <= j < k ==> #[trigger] api_trace(r, a)[j] == ApiStepView::Send(
                r.requests[r.sent + j],
            ),
        api_trace(r, a)[k] == ApiStepView::Finish(Err(answer_error(a[k]))),
        forall|j: int|
            k < j < a.len() ==> #[trigger] api_trace(r, a)[j] == ApiStepView::Finish(
                Err(ApiError::Unexpected),
            ),
    decreases k,
{
    let (r1, s) = api_step(r, a[0]);
    let rest = a.drop_first();
    let t = api_trace(r, a);
    assert(t == seq![s] + api_trace(r1, rest));
    if k == 0 {
        lemma_api_trace_done(r1, rest);
        assert forall|j: int| 0 < j < a.len() implies #[trigger] t[j] == ApiStepView::Finish(
            Err(ApiError::Unexpected),
        ) by {
            assert(t[j] == api_trace(r1, rest)[j - 1]);
        }
    } else {
        assert(answer_ok(a[0]));
        assert forall|j: int| 0 <= j < k - 1 implies answer_ok(#[trigger] rest[j]) by {
            assert(rest[j] == a[j + 1]);
        }
        lemma_api_trace_fail(r1, rest, k - 1);
        assert forall|j: int| 0 <= j < k implies #[trigger] t[j] == ApiStepView::Send(
            r.requests[r.sent + j],
        ) by {
            if j > 0 {
                assert(t[j] == api_trace(r1, rest)[j - 1]);
            }
        }
        assert(t[k] == api_trace(r1, rest)[k - 1]);
        assert forall|j: int| k < j < a.len() implies #[trigger] t[j] == ApiStepView::Finish(
            Err(ApiError::Unexpected),
        ) by {
            assert(t[j] == api_trace(r1, rest)[j - 1]);
        }
    }
}

proof fn lemma_api_trace_success(r: ApiRunView, a: Seq<ApiAnswer>)
    requires
        api_run_wf(r),
        !r.done,
        a.len() == r.requests.len() - r.sent + 1,
        forall|j: int| 0 <= j < a.len() ==> answer_ok(#[trigger] a[j]),
    ensures
        api_trace(r, a).len() == a.len(),
        forall|j: int|
            0 <= j < a.len() - 1 ==> #[trigger] api_trace(r, a)[j] == ApiStepView::Send(
                r.requests[r.sent + j],
            ),
        api_trace(r, a)[a.len() - 1] == ApiStepView::Finish(Ok(())),
    decreases a.len(),
{
    let (r1, s) = api_step(r, a[0]);
    let rest = a.drop_first();
    let t = api_trace(r, a);
    assert(answer_ok(a[0]));
    assert(t == seq![s] + api_trace(r1, rest));
    if a.len() > 1 {
        assert forall|j: int| 0 <= j < rest.len() implies answer_ok(#[trigger] rest[j]) by {
            assert(rest[j] == a[j + 1]);
        }
        lemma_api_trace_success(r1, rest);
        assert forall|j: int| 0 <= j < a.len() - 1 implies #[trigger] t[j] == ApiStepView::Send(
            r.requests[r.sent + j],
        ) by {
            if j > 0 {
                assert(t[j] == api_trace(r1, rest)[j - 1]);
            }
        }
        assert(t[a.len() - 1] == api_trace(r1, rest)[a.len() - 2]);
    }
}

/// Requests go out in order, and none after the first that fails: if the
/// answers to the first `k` requests sent are not errors and the answer to
/// request `k` fails, exactly the requests `0..=k` were sent, the series
/// ends with that answer's error, and later answers change nothing.
pub proof fn lemma_requests_stop_at_first_failure(
    requests: Seq<ApiRequestView>,
    answers: Seq<ApiAnswer>,
    k: int,
)
    requires
        0 <= k < answers.len(),
        k < requests.len(),
        forall|j: int| 0 <= j < k ==> answer_ok(#[trigger] answers[j]),
        !answer_ok(answers[k]),
    ensures
        ({
            let (r0, s0) = api_start(requests);
            let t = api_trace(r0, answers);
            &&& s0 == ApiStepView::Send(requests[0])
            &&& t.len() == answers.len()
            &&& forall|j: int| 0 <= j < k ==> #[trigger] t[j] == ApiStepView::Send(requests[j + 1])
            &&& t[k] == ApiStepView::Finish(Err(answer_error(answers[k])))
            &&& forall|j: int|
                k < j < answers.len() ==> #[trigger] t[j] == ApiStepView::Finish(
                    Err(ApiError::Unexpected),
                )
        }),
{
    let (r0, s0) = api_start(requests);
    lemma_api_trace_fail(r0, answers, k);
}

/// A series whose answers are all not errors sends every request, in order,
/// and ends with success after the answer to the last one.
pub proof fn lemma_requests_all_succeed(requests: Seq<ApiRequestView>, answers: Seq<ApiAnswer>)
    requires
        requests.len() > 0,
        answers.len() == requests.len(),
        forall|j: int| 0 <= j < answers.len() ==> answer_ok(#[trigger] answers[j]),
    ensures
        ({
            let (r0, s0) = api_start(requests);
            let t = api_trace(r0, answers);
            &&& s0 == ApiStepView::Send(requests[0])
            &&& t.len() == answers.len()
            &&& forall|j: int|
                0 <= j < answers.len() - 1 ==> #[trigger] t[j] == ApiStepView::Send(requests[j + 1])
            &&& t[answers.len() - 1] == ApiStepView::Finish(Ok(()))
        }),
{
    let (r0, s0) = api_start(requests);
    lemma_api_trace_success(r0, answers);
}

} // verus!
