//! The registry of VMs: one row per VM with its process id, address, tap
//! device, status and creation time.
//!
//! A `StateManager` holds the rows of the registry and applies the
//! registry's operations to them with the rules of its table: ids are unique,
//! no two active (booting or running) VMs share an address, listings are
//! ordered by creation time, and addresses are handed out from a fixed pool.

use vstd::prelude::*;
use crate::text::{
    decimal, lemma_lex_lt_asymmetric, lemma_lex_lt_split, lex_lt, path_join, path_join_spec, str_eq,
    str_lt,
};
use crate::config::{ip_candidate, IP_RANGE_END, IP_RANGE_START};
use crate::config::{allocate_spec, first_free_ip, lemma_allocation_is_free, string_set};

verus! {

/// The address prefix of the VM network.
pub const SUBNET_PREFIX: &'static str = "172.16.0";

/// The directory that holds one directory per VM, relative to the working
/// directory.
pub fn vms_dir() -> (res: String)
    ensures
        res@ == "vume/vms"@,
{
    "vume/vms".to_owned()
}

/// The file that holds the registry.
pub fn db_path() -> (res: String)
    ensures
        res@ == path_join_spec("vume/vms"@, "vume.db"@),
{
    let dir = vms_dir();
    path_join(dir.as_str(), "vume.db")
}

/// The lifecycle status of a VM.
#[derive(Clone, Copy, Debug, PartialEq, Eq, Structural)]
pub enum VmStatus {
    Booting,
    Running,
    Stopped,
    Error,
}

/// Why an operation on the registry did not take place.
#[derive(Debug)]
pub enum StateError {
    /// No row has the given id.
    NotFound,
    /// Every address of the pool is held by an active VM.
    NoAvailableIp,
    /// A row with the given id exists already.
    DuplicateId,
    /// The change would give two active VMs the same address.
    IpConflict,
    /// The current time could not be rendered.
    TimestampUnavailable,
    /// A status column holds text that names no status.
    UnknownStatus(String),
    /// The rows break the rules of the table.
    Inconsistent,
}

impl VmStatus {
    /// The text that stands for the status in the registry.
    pub open spec fn text(self) -> Seq<char> {
        match self {
            VmStatus::Booting => "booting"@,
            VmStatus::Running => "running"@,
            VmStatus::Stopped => "stopped"@,
            VmStatus::Error => "error"@,
        }
    }

    /// Whether a VM in this status holds its address.
    pub open spec fn is_active(self) -> bool {
        self == VmStatus::Running || self == VmStatus::Booting
    }

    /// The text that stands for the status in the registry.
    pub fn as_str(self) -> (res: &'static str)
        ensures
            res@ == self.text(),
    {
        match self {
            VmStatus::Booting => "booting",
            VmStatus::Running => "running",
            VmStatus::Stopped => "stopped",
            VmStatus::Error => "error",
        }
    }

    /// The status that `s` stands for, if any.
    pub open spec fn parse_spec(s: Seq<char>) -> Option<VmStatus> {
        if s == "booting"@ {
            Some(VmStatus::Booting)
        } else if s == "running"@ {
            Some(VmStatus::Running)
        } else if s == "stopped"@ {
            Some(VmStatus::Stopped)
        } else if s == "error"@ {
            Some(VmStatus::Error)
        } else {
            None
        }
    }

    /// Reads a status from its text; any other text is refused.
    pub fn parse(s: &str) -> (res: Result<VmStatus, StateError>)
        ensures
            match res {
                Ok(st) => Self::parse_spec(s@) == Some(st),
                Err(e) => Self::parse_spec(s@) is None && (e matches StateError::UnknownStatus(t)
                    && t@ == s@),
            },
    {
        if str_eq(s, "booting") {
            Ok(VmStatus::Booting)
        } else if str_eq(s, "running") {
            Ok(VmStatus::Running)
        } else if str_eq(s, "stopped") {
            Ok(VmStatus::Stopped)
        } else if str_eq(s, "error") {
            Ok(VmStatus::Error)
        } else {
            Err(StateError::UnknownStatus(s.to_owned()))
        }
    }
}

impl std::str::FromStr for VmStatus {
    type Err = StateError;

    fn from_str(s: &str) -> (res: Result<VmStatus, StateError>)
        ensures
            match res {
                Ok(st) => VmStatus::parse_spec(s@) == Some(st),
                Err(e) => VmStatus::parse_spec(s@) is None && (e matches StateError::UnknownStatus(t)
                    && t@ == s@),
            },
    {
        VmStatus::parse(s)
    }
}

/// Reading the text of a status gives the status back.
pub proof fn lemma_status_text_round_trip(st: VmStatus)
    ensures
        VmStatus::parse_spec(st.text()) == Some(st),
{
    reveal_strlit("booting");
    reveal_strlit("running");
    reveal_strlit("stopped");
    reveal_strlit("error");
    assert("booting"@[0] == 'b');
    assert("running"@[0] == 'r');
    assert("stopped"@[0] == 's');
    assert("error"@.len() == 5);
    assert("booting"@.len() == 7);
}

/// A row of the registry.
#[derive(Clone, Debug)]
pub struct VMInfo {
    pub id: String,
    pub pid: i64,
    pub ip: String,
    pub tap: String,
    pub status: VmStatus,
    pub created_at: String,
}

/// The content of a row.
pub struct VMRow {
    pub id: Seq<char>,
    pub pid: i64,
    pub ip: Seq<char>,
    pub tap: Seq<char>,
    pub status: VmStatus,
    pub created_at: Seq<char>,
}

impl View for VMInfo {
    type V = VMRow;

    open spec fn view(&self) -> VMRow {
        VMRow {
            id: self.id@,
            pid: self.pid,
            ip: self.ip@,
            tap: self.tap@,
            status: self.status,
            created_at: self.created_at@,
        }
    }
}

/// Whether a process id names a process: positive and within `u32`.
pub open spec fn pid_is_valid(pid: i64) -> bool {
    0 < pid <= u32::MAX
}

impl VMInfo {
    /// The process id as a `u32`, or `None` if it is zero, negative or too large.
    pub fn pid_u32(&self) -> (res: Option<u32>)
        ensures
            pid_is_valid(self.pid) ==> res == Some(self.pid as u32),
            !pid_is_valid(self.pid) ==> res is None,
    {
        if 0 < self.pid && self.pid <= 0xffff_ffff {
            Some(self.pid as u32)
        } else {
            None
        }
    }

    /// A copy of the row.
    pub fn duplicate(&self) -> (res: VMInfo)
        ensures
            res@ == self@,
    {
        VMInfo {
            id: self.id.clone(),
            pid: self.pid,
            ip: self.ip.clone(),
            tap: self.tap.clone(),
            status: self.status,
            created_at: self.created_at.clone(),
        }
    }

    /// Builds a row from the columns of the table; the status column must
    /// name a status.
    pub fn from_row(
        id: String,
        pid: i64,
        ip: String,
        tap: String,
        status: &str,
        created_at: String,
    ) -> (res: Result<VMInfo, StateError>)
        ensures
            match res {
                Ok(info) => VmStatus::parse_spec(status@) == Some(info.status) && info@ == (VMRow {
                    id: id@,
                    pid,
                    ip: ip@,
                    tap: tap@,
                    status: info.status,
                    created_at: created_at@,
                }),
                Err(e) => VmStatus::parse_spec(status@) is None && (e matches StateError::UnknownStatus(
                    t,
                ) && t@ == status@),
            },
    {
        let status = VmStatus::parse(status)?;
        Ok(VMInfo { id, pid, ip, tap, status, created_at })
    }
}

/// The contents of a sequence of rows.
pub open spec fn rows_of(v: Seq<VMInfo>) -> Seq<VMRow> {
    v.map_values(|r: VMInfo| r@)
}

/// No two rows share an id.
pub open spec fn ids_unique(rows: Seq<VMRow>) -> bool {
    forall|i: int, j: int|
        0 <= i < rows.len() && 0 <= j < rows.len() && i != j ==> #[trigger] rows[i].id
            != #[trigger] rows[j].id
}

/// No two active rows share an address.
pub open spec fn active_ips_unique(rows: Seq<VMRow>) -> bool {
    forall|i: int, j: int|
        0 <= i < rows.len() && 0 <= j < rows.len() && i != j && rows[i].status.is_active()
            && rows[j].status.is_active() ==> #[trigger] rows[i].ip != #[trigger] rows[j].ip
}

/// The rules of the table.
pub open spec fn rows_wf(rows: Seq<VMRow>) -> bool {
    ids_unique(rows) && active_ips_unique(rows)
}

/// Whether a row has the id.
pub open spec fn has_id(rows: Seq<VMRow>, id: Seq<char>) -> bool {
    exists|i: int| 0 <= i < rows.len() && #[trigger] rows[i].id == id
}

/// The position of the row with the id.
pub open spec fn index_of(rows: Seq<VMRow>, id: Seq<char>) -> int
    recommends
        has_id(rows, id),
{
    choose|i: int| 0 <= i < rows.len() && #[trigger] rows[i].id == id
}

/// The row with the id, if any.
pub open spec fn lookup(rows: Seq<VMRow>, id: Seq<char>) -> Option<VMRow> {
    if has_id(rows, id) {
        Some(rows[index_of(rows, id)])
    } else {
        None
    }
}

/// The addresses held by active rows.
pub open spec fn active_ips(rows: Seq<VMRow>) -> Set<Seq<char>> {
    Set::new(
        |ip: Seq<char>|
            exists|i: int| 0 <= i < rows.len() && #[trigger] rows[i].status.is_active() && rows[i].ip == ip,
    )
}

/// The addresses held by active rows, in row order.
pub open spec fn active_ip_seq(rows: Seq<VMRow>) -> Seq<Seq<char>>
    decreases rows.len(),
{
    if rows.len() == 0 {
        Seq::empty()
    } else {
        let sub = active_ip_seq(rows.drop_last());
        if rows.last().status.is_active() {
            sub.push(rows.last().ip)
        } else {
            sub
        }
    }
}

proof fn lemma_active_ip_seq(rows: Seq<VMRow>, ip: Seq<char>)
    ensures
        active_ip_seq(rows).contains(ip) == active_ips(rows).contains(ip),
    decreases rows.len(),
{
    if rows.len() > 0 {
        let d = rows.drop_last();
        lemma_active_ip_seq(d, ip);
        let sub = active_ip_seq(d);
        if active_ips(d).contains(ip) {
            let i = choose|i: int| 0 <= i < d.len() && #[trigger] d[i].status.is_active() && d[i].ip == ip;
            assert(rows[i] == d[i]);
        }
        if active_ips(rows).contains(ip) {
            let i = choose|i: int| 0 <= i < rows.len() && #[trigger] rows[i].status.is_active() && rows[i].ip == ip;
            if i < d.len() {
                assert(d[i] == rows[i]);
            }
        }
        if rows.last().status.is_active() {
            let s2 = sub.push(rows.last().ip);
            if s2.contains(ip) {
                let j = choose|j: int| 0 <= j < s2.len() && s2[j] == ip;
                if j < sub.len() {
                    assert(sub[j] == ip);
                }
            }
            if sub.contains(ip) {
                let j = choose|j: int| 0 <= j < sub.len() && sub[j] == ip;
                assert(s2[j] == ip);
            }
            if rows.last().ip == ip {
                assert(s2[sub.len() as int] == ip);
            }
        }
    }
}

/// The address that the next reservation gets, if the pool is not exhausted.
pub open spec fn pool_allocation(rows: Seq<VMRow>) -> Option<Seq<char>> {
    allocate_spec(SUBNET_PREFIX@, active_ips(rows))
}

/// Whether an active row other than the one at `i` holds `ip`.
pub open spec fn ip_taken_by_other(rows: Seq<VMRow>, i: int, ip: Seq<char>) -> bool {
    exists|j: int|
        0 <= j < rows.len() && j != i && #[trigger] rows[j].status.is_active() && rows[j].ip == ip
}

/// The effect of reserving a new VM: a booting row with the first free
/// address and no process, unless the pool is exhausted or the id is taken.
pub open spec fn reserve_spec(
    rows: Seq<VMRow>,
    id: Seq<char>,
    tap: Seq<char>,
    created_at: Seq<char>,
) -> (Seq<VMRow>, Result<VMRow, StateError>) {
    match pool_allocation(rows) {
        None => (rows, Err(StateError::NoAvailableIp)),
        Some(ip) => if has_id(rows, id) {
            (rows, Err(StateError::DuplicateId))
        } else {
            let row = VMRow { id, pid: 0, ip, tap, status: VmStatus::Booting, created_at };
            (rows.push(row), Ok(row))
        },
    }
}

/// The effect of resuming a VM: its row becomes booting with the first free
/// address, the new tap and no process.
pub open spec fn resume_spec(rows: Seq<VMRow>, id: Seq<char>, tap: Seq<char>) -> (
    Seq<VMRow>,
    Result<VMRow, StateError>,
) {
    match pool_allocation(rows) {
        None => (rows, Err(StateError::NoAvailableIp)),
        Some(ip) => if !has_id(rows, id) {
            (rows, Err(StateError::NotFound))
        } else {
            let i = index_of(rows, id);
            let old_row = rows[i];
            let row = VMRow {
                id: old_row.id,
                pid: 0,
                ip,
                tap,
                status: VmStatus::Booting,
                created_at: old_row.created_at,
            };
            (rows.update(i, row), Ok(row))
        },
    }
}

/// The effect of setting the status (and, if given, the process id) of a
/// row; refused where the row would become active with an address that
/// another active row holds.
pub open spec fn set_status_spec(
    rows: Seq<VMRow>,
    id: Seq<char>,
    status: VmStatus,
    pid: Option<i64>,
) -> (Seq<VMRow>, Result<VMRow, StateError>) {
    if !has_id(rows, id) {
        (rows, Err(StateError::NotFound))
    } else {
        let i = index_of(rows, id);
        let old_row = rows[i];
        let row = VMRow {
            id: old_row.id,
            pid: match pid {
                Some(p) => p,
                None => old_row.pid,
            },
            ip: old_row.ip,
            tap: old_row.tap,
            status,
            created_at: old_row.created_at,
        };
        if status.is_active() && ip_taken_by_other(rows, i, row.ip) {
            (rows, Err(StateError::IpConflict))
        } else {
            (rows.update(i, row), Ok(row))
        }
    }
}

/// The effect of deleting the row with the id, if there is one.
pub open spec fn delete_spec(rows: Seq<VMRow>, id: Seq<char>) -> Seq<VMRow> {
    if has_id(rows, id) {
        rows.remove(index_of(rows, id))
    } else {
        rows
    }
}

/// The content of a result of the registry.
pub open spec fn result_view(r: Result<VMInfo, StateError>) -> Result<VMRow, StateError> {
    match r {
        Ok(info) => Ok(info@),
        Err(e) => Err(e),
    }
}

/// Whether a refresh turns the row into an error: booting rows, and running
/// rows whose process id names no process or whose process is gone.
pub open spec fn goes_stale(r: VMRow, alive: bool) -> bool {
    r.status == VmStatus::Booting || (r.status == VmStatus::Running && !(pid_is_valid(r.pid)
        && alive))
}

/// The row with status `Error`.
pub open spec fn as_error(r: VMRow) -> VMRow {
    VMRow {
        id: r.id,
        pid: r.pid,
        ip: r.ip,
        tap: r.tap,
        status: VmStatus::Error,
        created_at: r.created_at,
    }
}

/// The rows after a refresh, where `alive[k]` tells whether the process of
/// row `k` exists.
pub open spec fn refresh_rows(rows: Seq<VMRow>, alive: Seq<bool>) -> Seq<VMRow> {
    Seq::new(
        rows.len(),
        |k: int|
            if goes_stale(rows[k], alive[k]) {
                as_error(rows[k])
            } else {
                rows[k]
            },
    )
}

/// The running rows whose process is gone, as errors, in row order.
pub open spec fn dead_running(rows: Seq<VMRow>, alive: Seq<bool>) -> Seq<VMRow>
    decreases rows.len(),
{
    if rows.len() == 0 {
        Seq::empty()
    } else {
        let sub = dead_running(rows.drop_last(), alive.drop_last());
        let r = rows.last();
        if r.status == VmStatus::Running && !(pid_is_valid(r.pid) && alive.last()) {
            sub.push(as_error(r))
        } else {
            sub
        }
    }
}

/// The booting rows, as errors, in row order.
pub open spec fn booting_as_error(rows: Seq<VMRow>) -> Seq<VMRow>
    decreases rows.len(),
{
    if rows.len() == 0 {
        Seq::empty()
    } else {
        let sub = booting_as_error(rows.drop_last());
        if rows.last().status == VmStatus::Booting {
            sub.push(as_error(rows.last()))
        } else {
            sub
        }
    }
}

/// The rows that a refresh turns into errors, as they are afterwards: first
/// the running ones, then the booting ones, each group ordered by creation
/// time.
pub open spec fn stale_spec(rows: Seq<VMRow>, alive: Seq<bool>) -> Seq<VMRow> {
    sort_by_created(dead_running(rows, alive)) + sort_by_created(booting_as_error(rows))
}

/// Inserts `x` into `t` after every row that was created no later than it,
/// scanning from the end.
pub open spec fn insert_by_created(t: Seq<VMRow>, x: VMRow) -> Seq<VMRow>
    decreases t.len(),
{
    if t.len() == 0 {
        seq![x]
    } else if lex_lt(x.created_at, t.last().created_at) {
        insert_by_created(t.drop_last(), x).push(t.last())
    } else {
        t.push(x)
    }
}

/// The rows ordered by creation time; rows created at the same time keep
/// their order.
pub open spec fn sort_by_created(s: Seq<VMRow>) -> Seq<VMRow>
    decreases s.len(),
{
    if s.len() == 0 {
        s
    } else {
        insert_by_created(sort_by_created(s.drop_last()), s.last())
    }
}

/// The rows in the status, or all rows.
pub open spec fn with_status(rows: Seq<VMRow>, status: Option<VmStatus>) -> Seq<VMRow>
    decreases rows.len(),
{
    if rows.len() == 0 {
        rows
    } else {
        let sub = with_status(rows.drop_last(), status);
        if status is None || rows.last().status == status->0 {
            sub.push(rows.last())
        } else {
            sub
        }
    }
}

/// What a listing returns: the rows in the status (or all), ordered by
/// creation time.
pub open spec fn list_spec(rows: Seq<VMRow>, status: Option<VmStatus>) -> Seq<VMRow> {
    sort_by_created(with_status(rows, status))
}

/// Insertion at position `p` agrees with `insert_by_created` when every row
/// from `p` on was created after `x` and the row before `p` was not.
proof fn lemma_insert_at(t: Seq<VMRow>, x: VMRow, p: int)
    requires
        0 <= p <= t.len(),
        forall|q: int| p <= q < t.len() ==> lex_lt(x.created_at, #[trigger] t[q].created_at),
        p == 0 || !lex_lt(x.created_at, t[p - 1].created_at),
    ensures
        insert_by_created(t, x) == t.insert(p, x),
    decreases t.len(),
{
    if t.len() == 0 {
        assert(t.insert(p, x) =~= seq![x]);
    } else if p == t.len() {
        assert(t.insert(p, x) =~= t.push(x));
    } else {
        assert(lex_lt(x.created_at, t[t.len() - 1].created_at));
        let d = t.drop_last();
        assert forall|q: int| p <= q < d.len() implies lex_lt(x.created_at, #[trigger] d[q].created_at) by {
            assert(d[q] == t[q]);
        }
        if p > 0 {
            assert(d[p - 1] == t[p - 1]);
        }
        lemma_insert_at(d, x, p);
        assert(d.insert(p, x).push(t.last()) =~= t.insert(p, x));
    }
}

/// Inserts `x` by creation time; see `insert_by_created`.
fn insert_sorted(out: &mut Vec<VMInfo>, x: VMInfo)
    ensures
        rows_of(final(out)@) == insert_by_created(rows_of(old(out)@), x@),
{
    let mut p = out.len();
    while p > 0 && str_lt(x.created_at.as_str(), out[p - 1].created_at.as_str())
        invariant
            p <= out.len(),
            forall|q: int| p <= q < out.len() ==> lex_lt(x.created_at@, #[trigger] out@[q].created_at@),
        decreases p,
    {
        p = p - 1;
    }
    let ghost t = rows_of(out@);
    proof {
        assert forall|q: int| p <= q < t.len() implies lex_lt(x@.created_at, #[trigger] t[q].created_at) by {
            assert(t[q] == out@[q]@);
        }
        if p > 0 {
            assert(t[p - 1] == out@[p - 1]@);
        }
        lemma_insert_at(t, x@, p as int);
    }
    out.insert(p, x);
    proof {
        assert(rows_of(out@) =~= t.insert(p as int, x@));
    }
}

/// The rows ordered by creation time; see `sort_by_created`.
fn sort_rows(v: &Vec<VMInfo>) -> (res: Vec<VMInfo>)
    ensures
        rows_of(res@) == sort_by_created(rows_of(v@)),
{
    let ghost all = rows_of(v@);
    let mut out: Vec<VMInfo> = Vec::new();
    let mut k: usize = 0;
    proof {
        assert(all.take(0) =~= Seq::<VMRow>::empty());
        assert(rows_of(out@) =~= Seq::<VMRow>::empty());
    }
    while k < v.len()
        invariant
            k <= v.len(),
            all == rows_of(v@),
            rows_of(out@) == sort_by_created(all.take(k as int)),
        decreases v.len() - k,
    {
        let x = v[k].duplicate();
        insert_sorted(&mut out, x);
        proof {
            let t = all.take(k + 1);
            assert(t.drop_last() =~= all.take(k as int));
            assert(t.last() == v@[k as int]@);
        }
        k = k + 1;
    }
    proof {
        assert(all.take(v.len() as int) =~= all);
    }
    out
}

/// The registry: its rows, in the order in which they were inserted.
pub struct StateManager {
    vms: Vec<VMInfo>,
}

impl StateManager {
    /// The contents of the rows.
    pub closed spec fn rows(&self) -> Seq<VMRow> {
        rows_of(self.vms@)
    }

    /// The rows obey the rules of the table.
    pub open spec fn wf(&self) -> bool {
        rows_wf(self.rows())
    }

    /// An empty registry.
    pub fn new() -> (res: StateManager)
        ensures
            res.wf(),
            res.rows() == Seq::<VMRow>::empty(),
    {
        let res = StateManager { vms: Vec::new() };
        assert(res.rows() =~= Seq::<VMRow>::empty());
        res
    }

    /// The rows of the registry.
    pub fn vms(&self) -> (res: &Vec<VMInfo>)
        ensures
            rows_of(res@) == self.rows(),
    {
        &self.vms
    }

    /// A registry of the given rows, refused if they break the rules of the
    /// table.
    pub fn from_rows(vms: Vec<VMInfo>) -> (res: Result<StateManager, StateError>)
        ensures
            match res {
                Ok(s) => s.wf() && s.rows() == rows_of(vms@),
                Err(e) => !rows_wf(rows_of(vms@)) && e matches StateError::Inconsistent,
            },
    {
        let ghost rows = rows_of(vms@);
        let n = vms.len();
        let mut i: usize = 0;
        while i < n
            invariant
                n == vms.len(),
                rows == rows_of(vms@),
                i <= n,
                forall|a: int, b: int|
                    0 <= a < i && 0 <= b < i && a != b ==> #[trigger] rows[a].id != #[trigger] rows[b].id,
                forall|a: int, b: int|
                    0 <= a < i && 0 <= b < i && a != b && rows[a].status.is_active()
                        && rows[b].status.is_active() ==> #[trigger] rows[a].ip != #[trigger] rows[b].ip,
            decreases n - i,
        {
            let mut j: usize = 0;
            while j < i
                invariant
                    n == vms.len(),
                    rows == rows_of(vms@),
                    j <= i < n,
                    forall|b: int| 0 <= b < j ==> #[trigger] rows[b].id != rows[i as int].id,
                    forall|b: int|
                        0 <= b < j && rows[b].status.is_active() && rows[i as int].status.is_active()
                            ==> #[trigger] rows[b].ip != rows[i as int].ip,
                decreases i - j,
            {
                assert(rows[i as int] == vms@[i as int]@);
                assert(rows[j as int] == vms@[j as int]@);
                if str_eq(vms[i].id.as_str(), vms[j].id.as_str()) {
                    assert(!ids_unique(rows)) by {
                        assert(rows[i as int].id == rows[j as int].id);
                    }
                    return Err(StateError::Inconsistent);
                }
                if is_active_status(vms[i].status) && is_active_status(vms[j].status) && str_eq(
                    vms[i].ip.as_str(),
                    vms[j].ip.as_str(),
                ) {
                    assert(!active_ips_unique(rows)) by {
                        assert(rows[i as int].ip == rows[j as int].ip);
                    }
                    return Err(StateError::Inconsistent);
                }
                j = j + 1;
            }
            i = i + 1;
        }
        Ok(StateManager { vms })
    }
}

impl StateManager {
    /// The position of the row with the id.
    fn find_index(&self, id: &str) -> (res: Option<usize>)
        requires
            self.wf(),
        ensures
            match res {
                Some(i) => has_id(self.rows(), id@) && i == index_of(self.rows(), id@) && i
                    < self.rows().len(),
                None => !has_id(self.rows(), id@),
            },
    {
        let ghost rows = self.rows();
        let mut i: usize = 0;
        while i < self.vms.len()
            invariant
                rows == self.rows(),
                rows.len() == self.vms.len(),
                rows_wf(rows),
                i <= self.vms.len(),
                forall|k: int| 0 <= k < i ==> #[trigger] rows[k].id != id@,
            decreases self.vms.len() - i,
        {
            assert(rows[i as int] == self.vms@[i as int]@);
            if str_eq(self.vms[i].id.as_str(), id) {
                proof {
                    assert(rows[i as int].id == id@);
                    assert(has_id(rows, id@));
                    let j = index_of(rows, id@);
                    assert(0 <= j < rows.len() && rows[j].id == id@);
                    if j != i {
                        assert(rows[i as int].id != rows[j].id);
                    }
                }
                return Some(i);
            }
            i = i + 1;
        }
        None
    }

    /// The row with the id, if any.
    pub fn get_vm(&self, vm_id: &str) -> (res: Option<VMInfo>)
        requires
            self.wf(),
        ensures
            match res {
                Some(info) => lookup(self.rows(), vm_id@) == Some(info@),
                None => lookup(self.rows(), vm_id@) is None,
            },
    {
        match self.find_index(vm_id) {
            Some(i) => Some(self.vms[i].duplicate()),
            None => None,
        }
    }

    /// The rows in `status` (all rows if `None`), ordered by creation time.
    pub fn list_vms(&self, status: Option<VmStatus>) -> (res: Vec<VMInfo>)
        ensures
            rows_of(res@) == list_spec(self.rows(), status),
    {
        let ghost rows = self.rows();
        let mut out: Vec<VMInfo> = Vec::new();
        let mut k: usize = 0;
        proof {
            assert(rows.take(0) =~= Seq::<VMRow>::empty());
            assert(rows_of(out@) =~= Seq::<VMRow>::empty());
        }
        while k < self.vms.len()
            invariant
                rows == self.rows(),
                rows.len() == self.vms.len(),
                k <= self.vms.len(),
                rows_of(out@) == with_status(rows.take(k as int), status),
            decreases self.vms.len() - k,
        {
            let keep = match status {
                None => true,
                Some(st) => self.vms[k].status == st,
            };
            proof {
                let t = rows.take(k + 1);
                assert(t.drop_last() =~= rows.take(k as int));
                assert(t.last() == self.vms@[k as int]@);
            }
            if keep {
                out.push(self.vms[k].duplicate());
                proof {
                    assert(rows_of(out@) =~= rows_of(out@).drop_last().push(out@.last()@));
                }
            }
            k = k + 1;
        }
        proof {
            assert(rows.take(self.vms.len() as int) =~= rows);
        }
        sort_rows(&out)
    }

    /// The addresses held by active rows.
    fn active_ip_list(&self) -> (res: Vec<String>)
        ensures
            string_set(res@) == active_ips(self.rows()),
    {
        let ghost rows = self.rows();
        let mut out: Vec<String> = Vec::new();
        let mut k: usize = 0;
        proof {
            assert(rows.take(0) =~= Seq::<VMRow>::empty());
            assert(out@.map_values(|x: String| x@) =~= Seq::<Seq<char>>::empty());
        }
        while k < self.vms.len()
            invariant
                rows == self.rows(),
                rows.len() == self.vms.len(),
                k <= self.vms.len(),
                out@.map_values(|x: String| x@) == active_ip_seq(rows.take(k as int)),
            decreases self.vms.len() - k,
        {
            proof {
                let t = rows.take(k + 1);
                assert(t.drop_last() =~= rows.take(k as int));
                assert(t.last() == self.vms@[k as int]@);
            }
            if is_active_status(self.vms[k].status) {
                let ghost before = out@;
                out.push(self.vms[k].ip.clone());
                proof {
                    assert(out@.map_values(|x: String| x@) =~= before.map_values(|x: String| x@).push(
                        self.vms@[k as int].ip@,
                    ));
                }
            }
            k = k + 1;
        }
        proof {
            assert(rows.take(self.vms.len() as int) =~= rows);
            let m = out@.map_values(|x: String| x@);
            assert forall|ip: Seq<char>| #[trigger] string_set(out@).contains(ip) == active_ips(
                rows,
            ).contains(ip) by {
                lemma_active_ip_seq(rows, ip);
                if string_set(out@).contains(ip) {
                    let j = choose|j: int| 0 <= j < out@.len() && out@[j]@ == ip;
                    assert(m[j] == ip);
                }
                if m.contains(ip) {
                    let j = choose|j: int| 0 <= j < m.len() && m[j] == ip;
                    assert(out@[j]@ == ip);
                }
            }
            assert(string_set(out@) =~= active_ips(rows));
        }
        out
    }

    /// The first address of the pool that no active row holds.
    pub fn allocate_ip(&self) -> (res: Result<String, StateError>)
        ensures
            match res {
                Ok(ip) => pool_allocation(self.rows()) == Some(ip@),
                Err(e) => pool_allocation(self.rows()) is None && e matches StateError::NoAvailableIp,
            },
    {
        let used = self.active_ip_list();
        match first_free_ip(SUBNET_PREFIX, &used) {
            Some(ip) => Ok(ip),
            None => Err(StateError::NoAvailableIp),
        }
    }
}

impl StateManager {
    /// Reserves a new VM created at `created_at`: a booting row with the
    /// first free address of the pool and process id 0. Refused when the
    /// pool is exhausted or the id is taken.
    pub fn reserve_vm_at(&mut self, vm_id: &str, tap: &str, created_at: String) -> (res: Result<
        VMInfo,
        StateError,
    >)
        requires
            old(self).wf(),
        ensures
            final(self).wf(),
            (final(self).rows(), result_view(res)) == reserve_spec(
                old(self).rows(),
                vm_id@,
                tap@,
                created_at@,
            ),
    {
        let ghost rows = self.rows();
        let ip = match self.allocate_ip() {
            Ok(ip) => ip,
            Err(e) => return Err(e),
        };
        if self.find_index(vm_id).is_some() {
            return Err(StateError::DuplicateId);
        }
        let row = VMInfo {
            id: vm_id.to_owned(),
            pid: 0,
            ip,
            tap: tap.to_owned(),
            status: VmStatus::Booting,
            created_at,
        };
        let out = row.duplicate();
        self.vms.push(row);
        proof {
            lemma_allocation_is_free(SUBNET_PREFIX@, active_ips(rows));
            let new_rows = self.rows();
            assert(new_rows =~= rows.push(out@));
            assert forall|i: int, j: int|
                0 <= i < new_rows.len() && 0 <= j < new_rows.len() && i != j implies #[trigger] new_rows[i].id
                != #[trigger] new_rows[j].id by {
                if i < rows.len() && j < rows.len() {
                    assert(new_rows[i] == rows[i] && new_rows[j] == rows[j]);
                } else if i < rows.len() {
                    assert(new_rows[i] == rows[i]);
                } else {
                    assert(new_rows[j] == rows[j]);
                }
            }
            assert forall|i: int, j: int|
                0 <= i < new_rows.len() && 0 <= j < new_rows.len() && i != j
                    && new_rows[i].status.is_active() && new_rows[j].status.is_active() implies #[trigger] new_rows[i].ip
                != #[trigger] new_rows[j].ip by {
                if i < rows.len() && j < rows.len() {
                    assert(new_rows[i] == rows[i] && new_rows[j] == rows[j]);
                } else if i < rows.len() {
                    assert(new_rows[i] == rows[i]);
                    assert(active_ips(rows).contains(rows[i].ip));
                } else {
                    assert(new_rows[j] == rows[j]);
                    assert(active_ips(rows).contains(rows[j].ip));
                }
            }
        }
        Ok(out)
    }

    /// Whether an active row other than the one at `i` holds `ip`.
    fn ip_taken_by_other(&self, i: usize, ip: &str) -> (res: bool)
        ensures
            res == ip_taken_by_other(self.rows(), i as int, ip@),
    {
        let ghost rows = self.rows();
        let mut j: usize = 0;
        while j < self.vms.len()
            invariant
                rows == self.rows(),
                rows.len() == self.vms.len(),
                j <= self.vms.len(),
                forall|k: int|
                    0 <= k < j && k != i && #[trigger] rows[k].status.is_active() ==> rows[k].ip != ip@,
            decreases self.vms.len() - j,
        {
            assert(rows[j as int] == self.vms@[j as int]@);
            if j != i && is_active_status(self.vms[j].status) && str_eq(self.vms[j].ip.as_str(), ip) {
                assert(rows[j as int].status.is_active());
                return true;
            }
            j = j + 1;
        }
        false
    }

    /// Sets the status (and, if given, the process id) of the row with the id.
    fn set_status(&mut self, vm_id: &str, status: VmStatus, pid: Option<i64>) -> (res: Result<
        VMInfo,
        StateError,
    >)
        requires
            old(self).wf(),
        ensures
            final(self).wf(),
            (final(self).rows(), result_view(res)) == set_status_spec(
                old(self).rows(),
                vm_id@,
                status,
                pid,
            ),
    {
        let ghost rows = self.rows();
        let i = match self.find_index(vm_id) {
            Some(i) => i,
            None => return Err(StateError::NotFound),
        };
        assert(rows[i as int] == self.vms@[i as int]@);
        let old_row = &self.vms[i];
        let row = VMInfo {
            id: old_row.id.clone(),
            pid: match pid {
                Some(p) => p,
                None => old_row.pid,
            },
            ip: old_row.ip.clone(),
            tap: old_row.tap.clone(),
            status,
            created_at: old_row.created_at.clone(),
        };
        if is_active_status(status) && self.ip_taken_by_other(i, row.ip.as_str()) {
            return Err(StateError::IpConflict);
        }
        let out = row.duplicate();
        self.vms.set(i, row);
        proof {
            let new_rows = self.rows();
            assert(new_rows =~= rows.update(i as int, out@));
            assert forall|a: int, b: int|
                0 <= a < new_rows.len() && 0 <= b < new_rows.len() && a != b implies #[trigger] new_rows[a].id
                != #[trigger] new_rows[b].id by {
                assert(rows[a].id == new_rows[a].id && rows[b].id == new_rows[b].id);
            }
            assert forall|a: int, b: int|
                0 <= a < new_rows.len() && 0 <= b < new_rows.len() && a != b
                    && new_rows[a].status.is_active() && new_rows[b].status.is_active() implies #[trigger] new_rows[a].ip
                != #[trigger] new_rows[b].ip by {
                if a == i {
                    assert(new_rows[b] == rows[b]);
                    assert(rows[b].status.is_active());
                } else if b == i {
                    assert(new_rows[a] == rows[a]);
                    assert(rows[a].status.is_active());
                } else {
                    assert(new_rows[a] == rows[a] && new_rows[b] == rows[b]);
                }
            }
        }
        Ok(out)
    }

    /// Marks the VM running with the process id.
    pub fn mark_running(&mut self, vm_id: &str, pid: i64) -> (res: Result<VMInfo, StateError>)
        requires
            old(self).wf(),
        ensures
            final(self).wf(),
            (final(self).rows(), result_view(res)) == set_status_spec(
                old(self).rows(),
                vm_id@,
                VmStatus::Running,
                Some(pid),
            ),
    {
        self.set_status(vm_id, VmStatus::Running, Some(pid))
    }

    /// Sets the status of the VM.
    pub fn update_status(&mut self, vm_id: &str, status: VmStatus) -> (res: Result<
        VMInfo,
        StateError,
    >)
        requires
            old(self).wf(),
        ensures
            final(self).wf(),
            (final(self).rows(), result_view(res)) == set_status_spec(
                old(self).rows(),
                vm_id@,
                status,
                None,
            ),
    {
        self.set_status(vm_id, status, None)
    }

    /// Resumes a stopped VM: its row becomes booting with the first free
    /// address of the pool, the tap and process id 0.
    pub fn resume_vm(&mut self, vm_id: &str, tap: &str) -> (res: Result<VMInfo, StateError>)
        requires
            old(self).wf(),
        ensures
            final(self).wf(),
            (final(self).rows(), result_view(res)) == resume_spec(old(self).rows(), vm_id@, tap@),
    {
        let ghost rows = self.rows();
        let ip = match self.allocate_ip() {
            Ok(ip) => ip,
            Err(e) => return Err(e),
        };
        let i = match self.find_index(vm_id) {
            Some(i) => i,
            None => return Err(StateError::NotFound),
        };
        assert(rows[i as int] == self.vms@[i as int]@);
        let row = VMInfo {
            id: self.vms[i].id.clone(),
            pid: 0,
            ip,
            tap: tap.to_owned(),
            status: VmStatus::Booting,
            created_at: self.vms[i].created_at.clone(),
        };
        let out = row.duplicate();
        self.vms.set(i, row);
        proof {
            lemma_allocation_is_free(SUBNET_PREFIX@, active_ips(rows));
            let new_rows = self.rows();
            assert(new_rows =~= rows.update(i as int, out@));
            assert forall|a: int, b: int|
                0 <= a < new_rows.len() && 0 <= b < new_rows.len() && a != b implies #[trigger] new_rows[a].id
                != #[trigger] new_rows[b].id by {
                assert(rows[a].id == new_rows[a].id && rows[b].id == new_rows[b].id);
            }
            assert forall|a: int, b: int|
                0 <= a < new_rows.len() && 0 <= b < new_rows.len() && a != b
                    && new_rows[a].status.is_active() && new_rows[b].status.is_active() implies #[trigger] new_rows[a].ip
                != #[trigger] new_rows[b].ip by {
                if a == i {
                    assert(new_rows[b] == rows[b]);
                    assert(active_ips(rows).contains(rows[b].ip));
                } else if b == i {
                    assert(new_rows[a] == rows[a]);
                    assert(active_ips(rows).contains(rows[a].ip));
                } else {
                    assert(new_rows[a] == rows[a] && new_rows[b] == rows[b]);
                }
            }
        }
        Ok(out)
    }

    /// Deletes the row with the id; nothing happens if there is none.
    pub fn delete_vm(&mut self, vm_id: &str)
        requires
            old(self).wf(),
        ensures
            final(self).wf(),
            final(self).rows() == delete_spec(old(self).rows(), vm_id@),
    {
        let ghost rows = self.rows();
        match self.find_index(vm_id) {
            Some(i) => {
                self.vms.remove(i);
                proof {
                    let new_rows = self.rows();
                    assert(new_rows =~= rows.remove(i as int));
                    assert forall|a: int, b: int|
                        0 <= a < new_rows.len() && 0 <= b < new_rows.len() && a != b implies #[trigger] new_rows[a].id
                        != #[trigger] new_rows[b].id by {
                        let a2 = if a < i { a } else { a + 1 };
                        let b2 = if b < i { b } else { b + 1 };
                        assert(new_rows[a] == rows[a2] && new_rows[b] == rows[b2]);
                    }
                    assert forall|a: int, b: int|
                        0 <= a < new_rows.len() && 0 <= b < new_rows.len() && a != b
                            && new_rows[a].status.is_active() && new_rows[b].status.is_active() implies #[trigger] new_rows[a].ip
                        != #[trigger] new_rows[b].ip by {
                        let a2 = if a < i { a } else { a + 1 };
                        let b2 = if b < i { b } else { b + 1 };
                        assert(new_rows[a] == rows[a2] && new_rows[b] == rows[b2]);
                    }
                }
            },
            None => {},
        }
    }
}

/// Calls `time::OffsetDateTime::now_utc`. The result depends on the clock:
/// nothing is stated of it.
#[verifier::external_body]
fn now_utc() -> (res: time::OffsetDateTime) {
    time::OffsetDateTime::now_utc()
}

/// Whether a character is an ASCII decimal digit.
pub open spec fn is_digit(c: char) -> bool {
    '0' <= c <= '9'
}

/// Whether the characters at `from..to` of `s` are all decimal digits.
pub open spec fn digits_at(s: Seq<char>, from: int, to: int) -> bool {
    forall|i: int| from <= i < to ==> is_digit(#[trigger] s[i])
}

/// The shape of a time stamp in the default ISO 8601 form: a four-digit
/// year, `-`, month, `-`, day, `T`, hours, `:`, minutes, `:`, seconds, `.`,
/// nine digits of the second's fraction, then `Z` for UTC or the offset as a
/// sign, hours, `:` and minutes.
pub open spec fn iso8601_shape(s: Seq<char>) -> bool {
    &&& s.len() >= 30
    &&& digits_at(s, 0, 4) && s[4] == '-' && digits_at(s, 5, 7) && s[7] == '-' && digits_at(s, 8, 10)
    &&& s[10] == 'T' && digits_at(s, 11, 13) && s[13] == ':' && digits_at(s, 14, 16) && s[16] == ':'
        && digits_at(s, 17, 19)
    &&& s[19] == '.' && digits_at(s, 20, 29)
    &&& (s.len() == 30 && s[29] == 'Z') || (s.len() == 35 && (s[29] == '+' || s[29] == '-')
        && digits_at(s, 30, 32) && s[32] == ':' && digits_at(s, 33, 35))
}

/// Calls `time::OffsetDateTime::format` with the default ISO 8601
/// description; `None` where it returns an error (a year outside 0 to 9999,
/// or an offset with seconds). The `time` crate documents that form as a
/// four-digit year, separators, seconds with nine decimal digits and the
/// offset to the minute (`Z` for UTC); that shape is what is claimed, not
/// which instant the text names.
#[verifier::external_body]
fn format_iso8601(t: time::OffsetDateTime) -> (res: Option<String>)
    ensures
        res matches Some(s) ==> iso8601_shape(s@),
{
    t.format(&time::format_description::well_known::Iso8601::DEFAULT).ok()
}

/// The type of a point in time with an offset, of the `time` crate.
#[verifier::external_type_specification]
#[verifier::external_body]
pub struct ExOffsetDateTime(time::OffsetDateTime);

impl StateManager {
    /// Reserves a new VM created now, stamped with the current time in the
    /// default ISO 8601 form; see `reserve_vm_at`. The pool is checked before
    /// the clock is read.
    pub fn reserve_vm(&mut self, vm_id: &str, tap: &str) -> (res: Result<VMInfo, StateError>)
        requires
            old(self).wf(),
        ensures
            final(self).wf(),
            pool_allocation(old(self).rows()) is None ==> (res matches Err(
                StateError::NoAvailableIp,
            ) && final(self).rows() == old(self).rows()),
            res matches Err(StateError::TimestampUnavailable) ==> final(self).rows() == old(
                self,
            ).rows() && pool_allocation(old(self).rows()) is Some,
            !(res matches Err(StateError::TimestampUnavailable)) ==> exists|created_at: Seq<char>|
                (final(self).rows(), result_view(res)) == #[trigger] reserve_spec(
                    old(self).rows(),
                    vm_id@,
                    tap@,
                    created_at,
                ),
            res matches Ok(info) ==> iso8601_shape(info.created_at@),
    {
        if let Err(e) = self.allocate_ip() {
            assert((self.rows(), result_view(Err(e))) == reserve_spec(
                self.rows(),
                vm_id@,
                tap@,
                Seq::empty(),
            ));
            return Err(e);
        }
        let created_at = match format_iso8601(now_utc()) {
            Some(t) => t,
            None => return Err(StateError::TimestampUnavailable),
        };
        let ghost ts = created_at@;
        let res = self.reserve_vm_at(vm_id, tap, created_at);
        assert((self.rows(), result_view(res)) == reserve_spec(old(self).rows(), vm_id@, tap@, ts));
        res
    }

    /// For each row, the process to probe before a refresh: the process id of
    /// a running row where it is valid, otherwise `None`.
    pub fn liveness_probes(&self) -> (res: Vec<Option<u32>>)
        ensures
            res@.len() == self.rows().len(),
            forall|k: int|
                0 <= k < res@.len() ==> #[trigger] res@[k] == (if self.rows()[k].status
                    == VmStatus::Running && pid_is_valid(self.rows()[k].pid) {
                    Some(self.rows()[k].pid as u32)
                } else {
                    None
                }),
    {
        let ghost rows = self.rows();
        let mut out: Vec<Option<u32>> = Vec::new();
        let mut k: usize = 0;
        while k < self.vms.len()
            invariant
                rows == self.rows(),
                rows.len() == self.vms.len(),
                k <= self.vms.len(),
                out@.len() == k,
                forall|j: int|
                    0 <= j < k ==> #[trigger] out@[j] == (if rows[j].status == VmStatus::Running
                        && pid_is_valid(rows[j].pid) {
                        Some(rows[j].pid as u32)
                    } else {
                        None
                    }),
            decreases self.vms.len() - k,
        {
            assert(rows[k as int] == self.vms@[k as int]@);
            let probe = if self.vms[k].status == VmStatus::Running {
                self.vms[k].pid_u32()
            } else {
                None
            };
            out.push(probe);
            k = k + 1;
        }
        out
    }

    /// Marks as errors the booting rows and the running rows whose process
    /// is gone; `alive[k]` tells whether the process of row `k` exists.
    /// Returns the changed rows: first the formerly running ones, then the
    /// formerly booting ones, each group ordered by creation time.
    pub fn refresh_status(&mut self, alive: &Vec<bool>) -> (res: Vec<VMInfo>)
        requires
            old(self).wf(),
            alive@.len() == old(self).rows().len(),
        ensures
            final(self).wf(),
            final(self).rows() == refresh_rows(old(self).rows(), alive@),
            rows_of(res@) == stale_spec(old(self).rows(), alive@),
    {
        let ghost rows = self.rows();
        let mut dead: Vec<VMInfo> = Vec::new();
        let mut booting: Vec<VMInfo> = Vec::new();
        let mut k: usize = 0;
        proof {
            assert(rows.take(0) =~= Seq::<VMRow>::empty());
            assert(alive@.take(0) =~= Seq::<bool>::empty());
            assert(rows_of(dead@) =~= Seq::<VMRow>::empty());
            assert(rows_of(booting@) =~= Seq::<VMRow>::empty());
        }
        while k < self.vms.len()
            invariant
                rows.len() == self.vms.len(),
                alive@.len() == rows.len(),
                k <= self.vms.len(),
                rows_of(dead@) == dead_running(rows.take(k as int), alive@.take(k as int)),
                rows_of(booting@) == booting_as_error(rows.take(k as int)),
                forall|j: int|
                    0 <= j < rows.len() ==> #[trigger] self.rows()[j] == (if j < k && goes_stale(
                        rows[j],
                        alive@[j],
                    ) {
                        as_error(rows[j])
                    } else {
                        rows[j]
                    }),
            decreases self.vms.len() - k,
        {
            let ghost cur = self.rows();
            assert(cur[k as int] == self.vms@[k as int]@);
            assert(cur[k as int] == rows[k as int]);
            proof {
                let t = rows.take(k + 1);
                assert(t.drop_last() =~= rows.take(k as int));
                assert(t.last() == rows[k as int]);
                let a = alive@.take(k + 1);
                assert(a.drop_last() =~= alive@.take(k as int));
                assert(a.last() == alive@[k as int]);
            }
            let st = self.vms[k].status;
            let dead_now = st == VmStatus::Running && !(self.vms[k].pid_u32().is_some() && alive[k]);
            if dead_now || st == VmStatus::Booting {
                let mut row = self.vms[k].duplicate();
                row.status = VmStatus::Error;
                if dead_now {
                    let ghost before = dead@;
                    dead.push(row.duplicate());
                    assert(rows_of(dead@) =~= rows_of(before).push(as_error(rows[k as int])));
                } else {
                    let ghost before = booting@;
                    booting.push(row.duplicate());
                    assert(rows_of(booting@) =~= rows_of(before).push(as_error(rows[k as int])));
                }
                self.vms.set(k, row);
                proof {
                    assert forall|j: int| 0 <= j < rows.len() implies #[trigger] self.rows()[j] == (if j
                        < k + 1 && goes_stale(rows[j], alive@[j]) {
                        as_error(rows[j])
                    } else {
                        rows[j]
                    }) by {
                        if j != k {
                            assert(self.rows()[j] == cur[j]);
                        }
                    }
                }
            }
            k = k + 1;
        }
        proof {
            assert(rows.take(rows.len() as int) =~= rows);
            assert(alive@.take(rows.len() as int) =~= alive@);
            let new_rows = self.rows();
            assert(new_rows =~= refresh_rows(rows, alive@));
            assert forall|a: int, b: int|
                0 <= a < new_rows.len() && 0 <= b < new_rows.len() && a != b implies #[trigger] new_rows[a].id
                != #[trigger] new_rows[b].id by {
                assert(rows[a].id == new_rows[a].id && rows[b].id == new_rows[b].id);
            }
            assert forall|a: int, b: int|
                0 <= a < new_rows.len() && 0 <= b < new_rows.len() && a != b
                    && new_rows[a].status.is_active() && new_rows[b].status.is_active() implies #[trigger] new_rows[a].ip
                != #[trigger] new_rows[b].ip by {
                assert(new_rows[a] == rows[a] && new_rows[b] == rows[b]);
            }
        }
        let mut res = sort_rows(&dead);
        let mut rest = sort_rows(&booting);
        let ghost first = res@;
        let ghost second = rest@;
        res.append(&mut rest);
        assert(rows_of(res@) =~= rows_of(first) + rows_of(second));
        res
    }
}

/// No row comes after a row that was created later.
pub open spec fn sorted_by_created(s: Seq<VMRow>) -> bool {
    forall|i: int, j: int|
        0 <= i < j < s.len() ==> !lex_lt(#[trigger] s[j].created_at, #[trigger] s[i].created_at)
}

proof fn lemma_insert_multiset(t: Seq<VMRow>, x: VMRow)
    ensures
        insert_by_created(t, x).to_multiset() == t.to_multiset().insert(x),
    decreases t.len(),
{
    broadcast use vstd::seq_lib::to_multiset_build;
    broadcast use vstd::multiset::group_multiset_axioms;

    if t.len() == 0 {
        assert(seq![x] =~= t.push(x));
    } else if lex_lt(x.created_at, t.last().created_at) {
        let d = t.drop_last();
        lemma_insert_multiset(d, x);
        assert(t =~= d.push(t.last()));
        assert(insert_by_created(t, x).to_multiset() =~= t.to_multiset().insert(x));
    }
}

proof fn lemma_insert_sorted(t: Seq<VMRow>, x: VMRow)
    requires
        sorted_by_created(t),
    ensures
        sorted_by_created(insert_by_created(t, x)),
    decreases t.len(),
{
    broadcast use vstd::seq_lib::to_multiset_contains;

    if t.len() == 0 {
    } else if lex_lt(x.created_at, t.last().created_at) {
        let d = t.drop_last();
        let last = t.last();
        assert(sorted_by_created(d)) by {
            assert forall|i: int, j: int| 0 <= i < j < d.len() implies !lex_lt(
                #[trigger] d[j].created_at,
                #[trigger] d[i].created_at,
            ) by {
                assert(d[i] == t[i] && d[j] == t[j]);
            }
        }
        lemma_insert_sorted(d, x);
        lemma_insert_multiset(d, x);
        let r = insert_by_created(d, x);
        assert forall|i: int| 0 <= i < r.len() implies !lex_lt(last.created_at, #[trigger] r[i].created_at) by {
            assert(r.to_multiset().contains(r[i]));
            if r[i] == x {
                lemma_lex_lt_asymmetric(x.created_at, last.created_at);
            } else {
                assert(d.to_multiset().contains(r[i]));
                let k = choose|k: int| 0 <= k < d.len() && d[k] == r[i];
                assert(t[k] == d[k]);
                assert(t[t.len() - 1] == last);
            }
        }
        let res = r.push(last);
        assert forall|i: int, j: int| 0 <= i < j < res.len() implies !lex_lt(
            #[trigger] res[j].created_at,
            #[trigger] res[i].created_at,
        ) by {
            if j < r.len() {
                assert(res[i] == r[i] && res[j] == r[j]);
            } else {
                assert(res[i] == r[i] && res[j] == last);
            }
        }
    } else {
        let last = t.last();
        let res = t.push(x);
        assert forall|i: int, j: int| 0 <= i < j < res.len() implies !lex_lt(
            #[trigger] res[j].created_at,
            #[trigger] res[i].created_at,
        ) by {
            if j < t.len() {
                assert(res[i] == t[i] && res[j] == t[j]);
            } else {
                assert(res[i] == t[i] && res[j] == x);
                if i < t.len() - 1 {
                    assert(!lex_lt(t[t.len() - 1].created_at, t[i].created_at));
                }
                lemma_lex_lt_split(t[i].created_at, last.created_at, x.created_at);
            }
        }
    }
}

/// Sorting by creation time gives the same rows, each row created no later
/// than the next.
pub proof fn lemma_sort_by_created(s: Seq<VMRow>)
    ensures
        sorted_by_created(sort_by_created(s)),
        sort_by_created(s).to_multiset() == s.to_multiset(),
    decreases s.len(),
{
    broadcast use vstd::seq_lib::to_multiset_build;

    if s.len() > 0 {
        let d = s.drop_last();
        lemma_sort_by_created(d);
        lemma_insert_sorted(sort_by_created(d), s.last());
        lemma_insert_multiset(sort_by_created(d), s.last());
        assert(s =~= d.push(s.last()));
    } else {
        assert(sort_by_created(s) =~= s);
    }
}

/// The rows with the status are the rows of the table in the status.
proof fn lemma_with_status(rows: Seq<VMRow>, status: Option<VmStatus>, r: VMRow)
    ensures
        with_status(rows, status).contains(r) <==> rows.contains(r) && (status is None || r.status
            == status->0),
    decreases rows.len(),
{
    if rows.len() > 0 {
        let d = rows.drop_last();
        lemma_with_status(d, status, r);
        let sub = with_status(d, status);
        if rows.contains(r) {
            let k = choose|k: int| 0 <= k < rows.len() && rows[k] == r;
            if k < d.len() {
                assert(d[k] == r);
            }
        }
        if d.contains(r) {
            let k = choose|k: int| 0 <= k < d.len() && d[k] == r;
            assert(rows[k] == r);
        }
        if status is None || rows.last().status == status->0 {
            let full = sub.push(rows.last());
            if full.contains(r) {
                let k = choose|k: int| 0 <= k < full.len() && full[k] == r;
                if k < sub.len() {
                    assert(sub[k] == r);
                }
            }
            if sub.contains(r) {
                let k = choose|k: int| 0 <= k < sub.len() && sub[k] == r;
                assert(full[k] == r);
            }
            assert(full[sub.len() as int] == rows.last());
        }
    }
}

/// A listing holds exactly the rows of the table in the status (all rows
/// for `None`), each as often as the table, ordered by creation time.
#[verifier::spinoff_prover]
pub proof fn lemma_list_contents(rows: Seq<VMRow>, status: Option<VmStatus>)
    ensures
        sorted_by_created(list_spec(rows, status)),
        list_spec(rows, status).to_multiset() == with_status(rows, status).to_multiset(),
        forall|r: VMRow|
            list_spec(rows, status).to_multiset().contains(r) <==> rows.contains(r) && (status is None
                || r.status == status->0),
{
    let ws = with_status(rows, status);
    let l = list_spec(rows, status);
    lemma_sort_by_created(ws);
    assert(l.to_multiset() == ws.to_multiset());
    assert forall|r: VMRow|
        l.to_multiset().contains(r) <==> rows.contains(r) && (status is None || r.status
            == status->0) by {
        lemma_with_status(rows, status, r);
        vstd::seq_lib::to_multiset_contains(ws, r);
        assert(l.to_multiset().count(r) == ws.to_multiset().count(r));
    }
}

/// A reservation that succeeds gives a booting row without a process whose
/// address is in the pool and held by no active VM, and afterwards the
/// registry returns that row for the id.
pub proof fn lemma_reserve_result(rows: Seq<VMRow>, id: Seq<char>, tap: Seq<char>, created_at: Seq<char>)
    requires
        rows_wf(rows),
    ensures
        reserve_spec(rows, id, tap, created_at).1 matches Ok(row) ==> {
            &&& row.status == VmStatus::Booting
            &&& row.pid == 0
            &&& row.id == id && row.tap == tap && row.created_at == created_at
            &&& !active_ips(rows).contains(row.ip)
            &&& exists|i: nat|
                IP_RANGE_START <= i <= IP_RANGE_END && row.ip == #[trigger] ip_candidate(
                    SUBNET_PREFIX@,
                    i,
                )
            &&& lookup(reserve_spec(rows, id, tap, created_at).0, id) == Some(row)
        },
        reserve_spec(rows, id, tap, created_at).1 is Err ==> reserve_spec(
            rows,
            id,
            tap,
            created_at,
        ).0 == rows,
{
    lemma_allocation_is_free(SUBNET_PREFIX@, active_ips(rows));
    if let Ok(row) = reserve_spec(rows, id, tap, created_at).1 {
        let new_rows = rows.push(row);
        assert(new_rows[rows.len() as int].id == id);
        assert(has_id(new_rows, id));
        let j = index_of(new_rows, id);
        if j < rows.len() {
            assert(rows[j].id == id);
            assert(has_id(rows, id));
        }
    }
}

/// After a row is deleted, the registry has no row with its id.
pub proof fn lemma_delete_then_get(rows: Seq<VMRow>, id: Seq<char>)
    requires
        rows_wf(rows),
    ensures
        lookup(delete_spec(rows, id), id) is None,
        rows_wf(delete_spec(rows, id)),
{
    let r = delete_spec(rows, id);
    if has_id(rows, id) {
        let i = index_of(rows, id);
        if has_id(r, id) {
            let j = choose|j: int| 0 <= j < r.len() && #[trigger] r[j].id == id;
            let j2 = if j < i { j } else { j + 1 };
            assert(r[j] == rows[j2]);
        }
        assert forall|a: int, b: int| 0 <= a < r.len() && 0 <= b < r.len() && a != b implies #[trigger] r[a].id
            != #[trigger] r[b].id by {
            let a2 = if a < i { a } else { a + 1 };
            let b2 = if b < i { b } else { b + 1 };
            assert(r[a] == rows[a2] && r[b] == rows[b2]);
        }
        assert forall|a: int, b: int|
            0 <= a < r.len() && 0 <= b < r.len() && a != b && r[a].status.is_active()
                && r[b].status.is_active() implies #[trigger] r[a].ip != #[trigger] r[b].ip by {
            let a2 = if a < i { a } else { a + 1 };
            let b2 = if b < i { b } else { b + 1 };
            assert(r[a] == rows[a2] && r[b] == rows[b2]);
        }
    }
}

/// A freshly reserved VM can be marked running: its address conflicts with
/// no other active VM, and the row becomes running with the process id.
pub proof fn lemma_reserve_then_mark_running(
    rows: Seq<VMRow>,
    id: Seq<char>,
    tap: Seq<char>,
    created_at: Seq<char>,
    pid: i64,
)
    requires
        rows_wf(rows),
        reserve_spec(rows, id, tap, created_at).1 is Ok,
    ensures
        ({
            let (rows2, res) = reserve_spec(rows, id, tap, created_at);
            let row = res->Ok_0;
            set_status_spec(rows2, id, VmStatus::Running, Some(pid)) == (
                rows2.update(rows.len() as int, VMRow { status: VmStatus::Running, pid, ..row }),
                Ok::<VMRow, StateError>(VMRow { status: VmStatus::Running, pid, ..row }),
            )
        }),
{
    lemma_reserve_result(rows, id, tap, created_at);
    let (rows2, res) = reserve_spec(rows, id, tap, created_at);
    let row = res->Ok_0;
    assert(index_of(rows2, id) == rows.len());
    if ip_taken_by_other(rows2, rows.len() as int, row.ip) {
        let j = choose|j: int|
            0 <= j < rows2.len() && j != rows.len() && #[trigger] rows2[j].status.is_active()
                && rows2[j].ip == row.ip;
        assert(rows2[j] == rows[j]);
        assert(active_ips(rows).contains(rows[j].ip));
    }
}

/// A VM that was resumed can be marked running: the address that the resume
/// gave it conflicts with no other active VM, and its row (at the same place)
/// becomes running with the process id.
pub proof fn lemma_resume_then_mark_running(rows: Seq<VMRow>, id: Seq<char>, tap: Seq<char>, pid: i64)
    requires
        rows_wf(rows),
        resume_spec(rows, id, tap).1 is Ok,
    ensures
        ({
            let (rows2, res) = resume_spec(rows, id, tap);
            let row = res->Ok_0;
            &&& lookup(rows2, id) == Some(row)
            &&& set_status_spec(rows2, id, VmStatus::Running, Some(pid)) == (
                rows2.update(index_of(rows, id), VMRow { status: VmStatus::Running, pid, ..row }),
                Ok::<VMRow, StateError>(VMRow { status: VmStatus::Running, pid, ..row }),
            )
        }),
{
    lemma_allocation_is_free(SUBNET_PREFIX@, active_ips(rows));
    let (rows2, res) = resume_spec(rows, id, tap);
    let row = res->Ok_0;
    let i = index_of(rows, id);
    assert(rows2[i].id == id);
    assert(has_id(rows2, id));
    let j = index_of(rows2, id);
    if j != i {
        assert(rows[j].id == rows2[j].id);
        assert(rows[i].id == rows[j].id);
    }
    if ip_taken_by_other(rows2, i, row.ip) {
        let k = choose|k: int|
            0 <= k < rows2.len() && k != i && #[trigger] rows2[k].status.is_active()
                && rows2[k].ip == row.ip;
        assert(rows2[k] == rows[k]);
        assert(active_ips(rows).contains(rows[k].ip));
    }
}

/// A refresh leaves no booting VM, and only running VMs whose process id is
/// valid and whose process exists; other rows keep their status.
pub proof fn lemma_refresh_result(rows: Seq<VMRow>, alive: Seq<bool>)
    requires
        alive.len() == rows.len(),
    ensures
        refresh_rows(rows, alive).len() == rows.len(),
        forall|k: int|
            0 <= k < rows.len() ==> {
                let r = #[trigger] refresh_rows(rows, alive)[k];
                &&& r.status != VmStatus::Booting
                &&& r.status == VmStatus::Running ==> pid_is_valid(r.pid) && alive[k]
                &&& (rows[k].status == VmStatus::Stopped || rows[k].status == VmStatus::Error)
                    ==> r == rows[k]
                &&& r.id == rows[k].id && r.ip == rows[k].ip && r.pid == rows[k].pid
            },
{
}

/// Setting a status that holds no address never conflicts: for an existing
/// VM it always succeeds.
pub proof fn lemma_deactivate_succeeds(rows: Seq<VMRow>, id: Seq<char>, status: VmStatus)
    requires
        rows_wf(rows),
        has_id(rows, id),
        !status.is_active(),
    ensures
        set_status_spec(rows, id, status, None).1 is Ok,
        lookup(set_status_spec(rows, id, status, None).0, id) matches Some(r) && r.status == status,
{
    let i = index_of(rows, id);
    let new_rows = set_status_spec(rows, id, status, None).0;
    assert(new_rows[i].id == id);
    let j = index_of(new_rows, id);
    assert(new_rows[j].id == id);
    if j != i {
        assert(rows[j].id == new_rows[j].id);
        assert(rows[i].id == rows[j].id);
    }
}

/// Whether a VM in this status holds its address.
pub fn is_active_status(st: VmStatus) -> (res: bool)
    ensures
        res == st.is_active(),
{
    match st {
        VmStatus::Running | VmStatus::Booting => true,
        _ => false,
    }
}

/// A change to the registry table.
#[derive(Debug)]
pub enum RowChange {
    /// Delete the row with the id.
    Delete(String),
    /// Replace the row with the same id by this one.
    Update(VMInfo),
    /// Insert this row.
    Insert(VMInfo),
}

/// The content of a `RowChange`.
pub enum RowChangeView {
    Delete(Seq<char>),
    Update(VMRow),
    Insert(VMRow),
}

impl View for RowChange {
    type V = RowChangeView;

    open spec fn view(&self) -> RowChangeView {
        match self {
            RowChange::Delete(id) => RowChangeView::Delete(id@),
            RowChange::Update(r) => RowChangeView::Update(r@),
            RowChange::Insert(r) => RowChangeView::Insert(r@),
        }
    }
}

/// The contents of a list of changes.
pub open spec fn changes_view(v: Seq<RowChange>) -> Seq<RowChangeView> {
    v.map_values(|c: RowChange| c@)
}

/// The last row with the id, if any.
pub open spec fn row_with_id(rows: Seq<VMRow>, id: Seq<char>) -> Option<VMRow>
    decreases rows.len(),
{
    if rows.len() == 0 {
        None
    } else if rows.last().id == id {
        Some(rows.last())
    } else {
        row_with_id(rows.drop_last(), id)
    }
}

/// The deletions that bring the table from `before` to `after`: the id of
/// each row of `before` that `after` has no row for, in the order of
/// `before`.
pub open spec fn deletes_spec(before: Seq<VMRow>, after: Seq<VMRow>) -> Seq<RowChangeView>
    decreases before.len(),
{
    if before.len() == 0 {
        Seq::empty()
    } else {
        let sub = deletes_spec(before.drop_last(), after);
        if row_with_id(after, before.last().id) is None {
            sub.push(RowChangeView::Delete(before.last().id))
        } else {
            sub
        }
    }
}

/// The updates and insertions that bring the table from `before` to
/// `after`, in the order of `after`: a row that `before` has with other
/// contents is updated, one that `before` lacks is inserted, and one that
/// `before` has as it is needs nothing.
pub open spec fn upserts_spec(before: Seq<VMRow>, after: Seq<VMRow>) -> Seq<RowChangeView>
    decreases after.len(),
{
    if after.len() == 0 {
        Seq::empty()
    } else {
        let sub = upserts_spec(before, after.drop_last());
        let r = after.last();
        match row_with_id(before, r.id) {
            None => sub.push(RowChangeView::Insert(r)),
            Some(o) => if o == r {
                sub
            } else {
                sub.push(RowChangeView::Update(r))
            },
        }
    }
}

/// The changes that bring the table from `before` to `after`: the deletions,
/// then the updates and insertions.
pub open spec fn changes_spec(before: Seq<VMRow>, after: Seq<VMRow>) -> Seq<RowChangeView> {
    deletes_spec(before, after) + upserts_spec(before, after)
}

/// The table of a list of rows, keyed by id.
pub open spec fn table_of(rows: Seq<VMRow>) -> Map<Seq<char>, VMRow> {
    Map::new(|id: Seq<char>| row_with_id(rows, id) is Some, |id: Seq<char>| row_with_id(rows, id)->Some_0)
}

/// The row that a table holds under the id, if any.
pub open spec fn table_entry(t: Map<Seq<char>, VMRow>, id: Seq<char>) -> Option<VMRow> {
    if t.contains_key(id) {
        Some(t[id])
    } else {
        None
    }
}

/// The table after one change.
pub open spec fn apply_change(t: Map<Seq<char>, VMRow>, c: RowChangeView) -> Map<Seq<char>, VMRow> {
    match c {
        RowChangeView::Delete(id) => t.remove(id),
        RowChangeView::Update(r) => t.insert(r.id, r),
        RowChangeView::Insert(r) => t.insert(r.id, r),
    }
}

/// The table after the changes, in order.
pub open spec fn apply_changes(t: Map<Seq<char>, VMRow>, cs: Seq<RowChangeView>) -> Map<
    Seq<char>,
    VMRow,
>
    decreases cs.len(),
{
    if cs.len() == 0 {
        t
    } else {
        apply_change(apply_changes(t, cs.drop_last()), cs.last())
    }
}

/// Whether a change concerns the id.
pub open spec fn touches(c: RowChangeView, id: Seq<char>) -> bool {
    match c {
        RowChangeView::Delete(d) => d == id,
        RowChangeView::Update(r) => r.id == id,
        RowChangeView::Insert(r) => r.id == id,
    }
}

/// The last of the changes that concerns the id, if any.
pub open spec fn last_touch(cs: Seq<RowChangeView>, id: Seq<char>) -> Option<RowChangeView>
    decreases cs.len(),
{
    if cs.len() == 0 {
        None
    } else if touches(cs.last(), id) {
        Some(cs.last())
    } else {
        last_touch(cs.drop_last(), id)
    }
}

proof fn lemma_apply_changes(t: Map<Seq<char>, VMRow>, cs: Seq<RowChangeView>, id: Seq<char>)
    ensures
        table_entry(apply_changes(t, cs), id) == match last_touch(cs, id) {
            None => table_entry(t, id),
            Some(RowChangeView::Delete(_)) => None,
            Some(RowChangeView::Update(r)) => Some(r),
            Some(RowChangeView::Insert(r)) => Some(r),
        },
    decreases cs.len(),
{
    if cs.len() > 0 {
        lemma_apply_changes(t, cs.drop_last(), id);
    }
}

proof fn lemma_last_touch_concat(a: Seq<RowChangeView>, b: Seq<RowChangeView>, id: Seq<char>)
    ensures
        last_touch(a + b, id) == if last_touch(b, id) is Some {
            last_touch(b, id)
        } else {
            last_touch(a, id)
        },
    decreases b.len(),
{
    if b.len() == 0 {
        assert(a + b =~= a);
    } else {
        assert((a + b).drop_last() =~= a + b.drop_last());
        assert((a + b).last() == b.last());
        lemma_last_touch_concat(a, b.drop_last(), id);
    }
}

proof fn lemma_row_with_id_found(rows: Seq<VMRow>, id: Seq<char>)
    ensures
        row_with_id(rows, id) matches Some(r) ==> r.id == id && exists|i: int|
            0 <= i < rows.len() && #[trigger] rows[i] == r,
    decreases rows.len(),
{
    if rows.len() > 0 {
        lemma_row_with_id_found(rows.drop_last(), id);
        if rows.last().id != id {
            if let Some(r) = row_with_id(rows, id) {
                let i = choose|i: int| 0 <= i < rows.drop_last().len() && #[trigger] rows.drop_last()[i] == r;
                assert(rows[i] == r);
            }
        } else {
            assert(rows[rows.len() - 1] == rows.last());
        }
    }
}

proof fn lemma_deletes_touch(before: Seq<VMRow>, after: Seq<VMRow>, id: Seq<char>)
    ensures
        last_touch(deletes_spec(before, after), id) == if row_with_id(after, id) is None
            && row_with_id(before, id) is Some {
            Some(RowChangeView::Delete(id))
        } else {
            None
        },
    decreases before.len(),
{
    if before.len() > 0 {
        let sub = deletes_spec(before.drop_last(), after);
        let c = RowChangeView::Delete(before.last().id);
        lemma_deletes_touch(before.drop_last(), after, id);
        assert(sub.push(c).drop_last() =~= sub);
        assert(sub.push(c).last() == c);
    }
}

proof fn lemma_upserts_touch(before: Seq<VMRow>, after: Seq<VMRow>, id: Seq<char>)
    requires
        ids_unique(after),
    ensures
        last_touch(upserts_spec(before, after), id) == match row_with_id(after, id) {
            None => None,
            Some(r) => match row_with_id(before, id) {
                None => Some(RowChangeView::Insert(r)),
                Some(o) => if o == r {
                    None
                } else {
                    Some(RowChangeView::Update(r))
                },
            },
        },
    decreases after.len(),
{
    if after.len() > 0 {
        let d = after.drop_last();
        assert(ids_unique(d)) by {
            assert forall|i: int, j: int| 0 <= i < d.len() && 0 <= j < d.len() && i != j implies #[trigger] d[i].id
                != #[trigger] d[j].id by {
                assert(d[i] == after[i] && d[j] == after[j]);
            }
        }
        lemma_upserts_touch(before, d, id);
        let sub = upserts_spec(before, d);
        let r = after.last();
        assert(sub.push(RowChangeView::Insert(r)).drop_last() =~= sub);
        assert(sub.push(RowChangeView::Update(r)).drop_last() =~= sub);
        if after.last().id == id {
            lemma_row_with_id_found(d, id);
            if let Some(r) = row_with_id(d, id) {
                let i = choose|i: int| 0 <= i < d.len() && #[trigger] d[i] == r;
                assert(after[i] == r);
                assert(after[after.len() - 1] == after.last());
            }
        }
    }
}

/// Applying the changes that `row_changes` computes to the table of the
/// rows before gives the table of the rows after: for every id, the row
/// after (or none).
pub proof fn lemma_changes_reach_after(before: Seq<VMRow>, after: Seq<VMRow>)
    requires
        ids_unique(after),
    ensures
        forall|id: Seq<char>|
            #[trigger] table_entry(apply_changes(table_of(before), changes_spec(before, after)), id)
                == row_with_id(after, id),
{
    assert forall|id: Seq<char>|
        #[trigger] table_entry(apply_changes(table_of(before), changes_spec(before, after)), id)
            == row_with_id(after, id) by {
        lemma_apply_changes(table_of(before), changes_spec(before, after), id);
        lemma_last_touch_concat(deletes_spec(before, after), upserts_spec(before, after), id);
        lemma_deletes_touch(before, after, id);
        lemma_upserts_touch(before, after, id);
    }
}

/// The position of the last row with the id.
fn find_row(rows: &Vec<VMInfo>, id: &str) -> (res: Option<usize>)
    ensures
        match res {
            Some(i) => i < rows@.len() && row_with_id(rows_of(rows@), id@) == Some(rows@[i as int]@),
            None => row_with_id(rows_of(rows@), id@) is None,
        },
{
    let ghost all = rows_of(rows@);
    let mut k: usize = rows.len();
    proof {
        assert(all.take(k as int) =~= all);
    }
    while k > 0
        invariant
            k <= rows@.len(),
            all == rows_of(rows@),
            row_with_id(all, id@) == row_with_id(all.take(k as int), id@),
        decreases k,
    {
        let ghost t = all.take(k as int);
        assert(t.last() == rows@[k - 1]@);
        assert(t.drop_last() =~= all.take(k - 1));
        if str_eq(rows[k - 1].id.as_str(), id) {
            return Some(k - 1);
        }
        k = k - 1;
    }
    None
}

/// Whether two rows hold the same contents.
fn same_row(a: &VMInfo, b: &VMInfo) -> (res: bool)
    ensures
        res == (a@ == b@),
{
    str_eq(a.id.as_str(), b.id.as_str()) && a.pid == b.pid && str_eq(a.ip.as_str(), b.ip.as_str())
        && str_eq(a.tap.as_str(), b.tap.as_str()) && a.status == b.status && str_eq(
        a.created_at.as_str(),
        b.created_at.as_str(),
    )
}

/// The changes that bring the registry table from the rows `before` to the
/// rows `after`; see `changes_spec` and `lemma_changes_reach_after`.
pub fn row_changes(before: &Vec<VMInfo>, after: &Vec<VMInfo>) -> (res: Vec<RowChange>)
    ensures
        changes_view(res@) == changes_spec(rows_of(before@), rows_of(after@)),
{
    let ghost b = rows_of(before@);
    let ghost a = rows_of(after@);
    let mut out: Vec<RowChange> = Vec::new();
    let mut i: usize = 0;
    proof {
        assert(b.take(0) =~= Seq::<VMRow>::empty());
        assert(changes_view(out@) =~= Seq::<RowChangeView>::empty());
    }
    while i < before.len()
        invariant
            i <= before@.len(),
            b == rows_of(before@),
            a == rows_of(after@),
            changes_view(out@) == deletes_spec(b.take(i as int), a),
        decreases before@.len() - i,
    {
        let ghost t = b.take(i + 1);
        assert(t.drop_last() =~= b.take(i as int));
        assert(t.last() == before@[i as int]@);
        if find_row(after, before[i].id.as_str()).is_none() {
            let ghost prev = out@;
            out.push(RowChange::Delete(before[i].id.clone()));
            assert(changes_view(out@) =~= changes_view(prev).push(RowChangeView::Delete(before@[i as int].id@)));
        }
        i = i + 1;
    }
    proof {
        assert(b.take(before@.len() as int) =~= b);
    }
    let ghost dels = changes_view(out@);
    let mut j: usize = 0;
    proof {
        assert(a.take(0) =~= Seq::<VMRow>::empty());
        assert(dels + upserts_spec(b, a.take(0)) =~= dels);
    }
    while j < after.len()
        invariant
            j <= after@.len(),
            b == rows_of(before@),
            a == rows_of(after@),
            dels == deletes_spec(b, a),
            changes_view(out@) == dels + upserts_spec(b, a.take(j as int)),
        decreases after@.len() - j,
    {
        let ghost t = a.take(j + 1);
        assert(t.drop_last() =~= a.take(j as int));
        assert(t.last() == after@[j as int]@);
        let ghost prev = out@;
        match find_row(before, after[j].id.as_str()) {
            None => {
                out.push(RowChange::Insert(after[j].duplicate()));
                assert(changes_view(out@) =~= changes_view(prev).push(RowChangeView::Insert(after@[j as int]@)));
            },
            Some(k) => {
                if !same_row(&before[k], &after[j]) {
                    out.push(RowChange::Update(after[j].duplicate()));
                    assert(changes_view(out@) =~= changes_view(prev).push(RowChangeView::Update(after@[j as int]@)));
                }
            },
        }
        j = j + 1;
    }
    proof {
        assert(a.take(after@.len() as int) =~= a);
    }
    out
}

} // verus!
