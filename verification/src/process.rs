//! Process Entities and the Process Refresh Protocol.
//!
//! A Process Entity carries identity, ownership, lifecycle status and two
//! differential pairs: CPU time (`utime`/`stime` against their `old_`
//! counterparts) and I/O bytes. The refresh protocol reconciles a full
//! textual enumeration of processes against the entity map: upsert only,
//! never delete — eviction is a separate, caller-driven step.

use vstd::prelude::*;

use crate::arith::sat_add64;
use crate::arith::sat_mul64;
use crate::arith::sat_sub64;
use crate::parse::find_from;
use crate::parse::parse_u32_or_zero;
use crate::parse::parse_u64_or_zero;
use crate::parse::parse_usize;
use crate::parse::rfind_before;
use crate::parse::spec_lines;
use crate::parse::spec_parse_u32_or_zero;
use crate::parse::spec_parse_u64_or_zero;
use crate::parse::spec_parse_usize;
use crate::parse::spec_tokens;
use crate::parse::spec_trim;
use crate::parse::split_lines;
use crate::parse::tokenize;
use crate::parse::trim;
use crate::parse::Delim;

verus! {

broadcast use vstd::std_specs::hash::group_hash_axioms;

/// The lifecycle status of a process, with an explicit fallback for any
/// status code this crate does not know.
#[derive(Clone, Copy, Debug, PartialEq, Eq, Structural)]
pub enum ProcessStatus {
    Idle,
    Run,
    Sleep,
    Stop,
    Zombie,
    Tracing,
    Dead,
    Wakekill,
    Waking,
    Parked,
    UninterruptibleDiskSleep,
    Unknown(u32),
}

/// The status a raw status character denotes; every unknown character maps
/// to `Unknown` with its code point, so no input is ever rejected.
pub open spec fn spec_status_from_char(c: char) -> ProcessStatus {
    if c == 'R' {
        ProcessStatus::Run
    } else if c == 'B' || c == 'S' {
        ProcessStatus::Sleep
    } else if c == 'I' {
        ProcessStatus::Idle
    } else if c == 'D' {
        ProcessStatus::UninterruptibleDiskSleep
    } else if c == 'Z' {
        ProcessStatus::Zombie
    } else if c == 'T' {
        ProcessStatus::Stop
    } else if c == 't' {
        ProcessStatus::Tracing
    } else if c == 'X' || c == 'x' {
        ProcessStatus::Dead
    } else if c == 'K' {
        ProcessStatus::Wakekill
    } else if c == 'W' {
        ProcessStatus::Waking
    } else if c == 'P' {
        ProcessStatus::Parked
    } else {
        ProcessStatus::Unknown(c as u32)
    }
}

impl From<char> for ProcessStatus {
    fn from(status: char) -> (r: ProcessStatus) {
        match status {
            'R' => ProcessStatus::Run,
            'B' | 'S' => ProcessStatus::Sleep,
            'I' => ProcessStatus::Idle,
            'D' => ProcessStatus::UninterruptibleDiskSleep,
            'Z' => ProcessStatus::Zombie,
            'T' => ProcessStatus::Stop,
            't' => ProcessStatus::Tracing,
            'X' | 'x' => ProcessStatus::Dead,
            'K' => ProcessStatus::Wakekill,
            'W' => ProcessStatus::Waking,
            'P' => ProcessStatus::Parked,
            x => ProcessStatus::Unknown(x as u32),
        }
    }
}

impl vstd::std_specs::convert::FromSpecImpl<char> for ProcessStatus {
    open spec fn obeys_from_spec() -> bool {
        true
    }

    open spec fn from_spec(c: char) -> ProcessStatus {
        spec_status_from_char(c)
    }
}

impl ProcessStatus {
    /// A human-readable name for the status.
    pub fn as_str(&self) -> (r: &'static str)
        ensures
            r@ == self.spec_str(),
    {
        match *self {
            ProcessStatus::Idle => "Idle",
            ProcessStatus::Run => "Runnable",
            ProcessStatus::Sleep => "Sleeping",
            ProcessStatus::Stop => "Stopped",
            ProcessStatus::Zombie => "Zombie",
            ProcessStatus::Tracing => "Tracing",
            ProcessStatus::Dead => "Dead",
            ProcessStatus::Wakekill => "Wakekill",
            ProcessStatus::Waking => "Waking",
            ProcessStatus::Parked => "Parked",
            ProcessStatus::UninterruptibleDiskSleep => "UninterruptibleDiskSleep",
            ProcessStatus::Unknown(_) => "Unknown",
        }
    }

    /// The name `as_str` returns for each status.
    pub open spec fn spec_str(self) -> Seq<char> {
        match self {
            ProcessStatus::Idle => "Idle"@,
            ProcessStatus::Run => "Runnable"@,
            ProcessStatus::Sleep => "Sleeping"@,
            ProcessStatus::Stop => "Stopped"@,
            ProcessStatus::Zombie => "Zombie"@,
            ProcessStatus::Tracing => "Tracing"@,
            ProcessStatus::Dead => "Dead"@,
            ProcessStatus::Wakekill => "Wakekill"@,
            ProcessStatus::Waking => "Waking"@,
            ProcessStatus::Parked => "Parked"@,
            ProcessStatus::UninterruptibleDiskSleep => "UninterruptibleDiskSleep"@,
            ProcessStatus::Unknown(_) => "Unknown"@,
        }
    }
}

/// Whether a task runs kernel or userland code.
#[derive(Clone, Copy, Debug, PartialEq, Eq, Structural)]
pub enum ThreadKind {
    Kernel,
    Userland,
}

/// A real or effective user id.
#[derive(Clone, Copy, Debug, PartialEq, Eq, Structural)]
pub struct Uid(pub u32);

/// A real or effective group id.
#[derive(Clone, Copy, Debug, PartialEq, Eq, Structural)]
pub struct Gid(pub u32);

/// The I/O byte deltas and totals of one entity. The deltas are pure
/// functions of the differential pair and carry no state of their own.
#[derive(Clone, Copy, Debug, PartialEq, Eq, Structural)]
pub struct DiskUsage {
    pub total_written_bytes: u64,
    pub written_bytes: u64,
    pub total_read_bytes: u64,
    pub read_bytes: u64,
}

/// A Process Entity: identity, ownership, lifecycle flags, the CPU-time
/// differential pair and the I/O-byte differential pair. Each `old_` field
/// always holds what its partner held before the most recent update.
pub struct ProcessInner {
    pub name: Vec<u8>,
    pub cmd: Vec<Vec<u8>>,
    pub exe: Option<Vec<u8>>,
    pub pid: usize,
    pub parent: Option<usize>,
    pub environ: Vec<Vec<u8>>,
    pub cwd: Option<Vec<u8>>,
    pub root: Option<Vec<u8>>,
    pub memory: u64,
    pub virtual_memory: u64,
    pub utime: u64,
    pub stime: u64,
    pub old_utime: u64,
    pub old_stime: u64,
    pub start_time_without_boot_time: u64,
    pub start_time: u64,
    pub start_time_raw: u64,
    pub run_time: u64,
    pub updated: bool,
    pub cpu_usage: u64,
    pub user_id: Option<Uid>,
    pub effective_user_id: Option<Uid>,
    pub group_id: Option<Gid>,
    pub effective_group_id: Option<Gid>,
    pub status: ProcessStatus,
    pub tasks: Option<Vec<usize>>,
    pub old_read_bytes: u64,
    pub old_written_bytes: u64,
    pub read_bytes: u64,
    pub written_bytes: u64,
    pub thread_kind: Option<ThreadKind>,
    pub accumulated_cpu_time: u64,
    pub exists: bool,
}

/// The mathematical image of a Process Entity.
pub struct ProcessInnerView {
    pub name: Seq<u8>,
    pub cmd: Seq<Seq<u8>>,
    pub exe: Option<Seq<u8>>,
    pub pid: usize,
    pub parent: Option<usize>,
    pub environ: Seq<Seq<u8>>,
    pub cwd: Option<Seq<u8>>,
    pub root: Option<Seq<u8>>,
    pub memory: u64,
    pub virtual_memory: u64,
    pub utime: u64,
    pub stime: u64,
    pub old_utime: u64,
    pub old_stime: u64,
    pub start_time_without_boot_time: u64,
    pub start_time: u64,
    pub start_time_raw: u64,
    pub run_time: u64,
    pub updated: bool,
    pub cpu_usage: u64,
    pub user_id: Option<Uid>,
    pub effective_user_id: Option<Uid>,
    pub group_id: Option<Gid>,
    pub effective_group_id: Option<Gid>,
    pub status: ProcessStatus,
    pub tasks: Option<Seq<usize>>,
    pub old_read_bytes: u64,
    pub old_written_bytes: u64,
    pub read_bytes: u64,
    pub written_bytes: u64,
    pub thread_kind: Option<ThreadKind>,
    pub accumulated_cpu_time: u64,
    pub exists: bool,
}

/// The view of an optional byte string.
pub open spec fn view_opt_bytes(o: Option<Vec<u8>>) -> Option<Seq<u8>> {
    match o {
        Some(v) => Some(v@),
        None => None,
    }
}

/// The view of an optional id list.
pub open spec fn view_opt_ids(o: Option<Vec<usize>>) -> Option<Seq<usize>> {
    match o {
        Some(v) => Some(v@),
        None => None,
    }
}

impl View for ProcessInner {
    type V = ProcessInnerView;

    open spec fn view(&self) -> ProcessInnerView {
        ProcessInnerView {
            name: self.name@,
            cmd: self.cmd.deep_view(),
            exe: view_opt_bytes(self.exe),
            pid: self.pid,
            parent: self.parent,
            environ: self.environ.deep_view(),
            cwd: view_opt_bytes(self.cwd),
            root: view_opt_bytes(self.root),
            memory: self.memory,
            virtual_memory: self.virtual_memory,
            utime: self.utime,
            stime: self.stime,
            old_utime: self.old_utime,
            old_stime: self.old_stime,
            start_time_without_boot_time: self.start_time_without_boot_time,
            start_time: self.start_time,
            start_time_raw: self.start_time_raw,
            run_time: self.run_time,
            updated: self.updated,
            cpu_usage: self.cpu_usage,
            user_id: self.user_id,
            effective_user_id: self.effective_user_id,
            group_id: self.group_id,
            effective_group_id: self.effective_group_id,
            status: self.status,
            tasks: view_opt_ids(self.tasks),
            old_read_bytes: self.old_read_bytes,
            old_written_bytes: self.old_written_bytes,
            read_bytes: self.read_bytes,
            written_bytes: self.written_bytes,
            thread_kind: self.thread_kind,
            accumulated_cpu_time: self.accumulated_cpu_time,
            exists: self.exists,
        }
    }
}

/// A Process Entity as handed to callers.
pub struct Process {
    pub inner: ProcessInner,
}

impl View for Process {
    type V = ProcessInnerView;

    open spec fn view(&self) -> ProcessInnerView {
        self.inner@
    }
}

/// The state of a freshly observed entity: everything at its default, the
/// liveness and updated flags set.
pub open spec fn spec_process_new(pid: usize) -> ProcessInnerView {
    ProcessInnerView {
        name: Seq::empty(),
        cmd: Seq::empty(),
        exe: None,
        pid: pid,
        parent: None,
        environ: Seq::empty(),
        cwd: None,
        root: None,
        memory: 0,
        virtual_memory: 0,
        utime: 0,
        stime: 0,
        old_utime: 0,
        old_stime: 0,
        start_time_without_boot_time: 0,
        start_time: 0,
        start_time_raw: 0,
        run_time: 0,
        updated: true,
        cpu_usage: 0,
        user_id: None,
        effective_user_id: None,
        group_id: None,
        effective_group_id: None,
        status: ProcessStatus::Unknown(0),
        tasks: None,
        old_read_bytes: 0,
        old_written_bytes: 0,
        read_bytes: 0,
        written_bytes: 0,
        thread_kind: None,
        accumulated_cpu_time: 0,
        exists: true,
    }
}

impl ProcessInner {
    /// A freshly observed entity, created on first observation in a refresh
    /// cycle.
    pub fn new(pid: usize) -> (r: Self)
        ensures
            r@ == spec_process_new(pid),
    {
        let r = ProcessInner {
            name: Vec::new(),
            pid,
            parent: None,
            cmd: Vec::new(),
            environ: Vec::new(),
            exe: None,
            cwd: None,
            root: None,
            memory: 0,
            virtual_memory: 0,
            cpu_usage: 0,
            utime: 0,
            stime: 0,
            old_utime: 0,
            old_stime: 0,
            updated: true,
            start_time_without_boot_time: 0,
            start_time: 0,
            start_time_raw: 0,
            run_time: 0,
            user_id: None,
            effective_user_id: None,
            group_id: None,
            effective_group_id: None,
            status: ProcessStatus::Unknown(0),
            tasks: None,
            old_read_bytes: 0,
            old_written_bytes: 0,
            read_bytes: 0,
            written_bytes: 0,
            thread_kind: None,
            accumulated_cpu_time: 0,
            exists: true,
        };
        proof {
            assert(r@.name =~= Seq::<u8>::empty());
            assert(r@.cmd =~= Seq::<Seq<u8>>::empty());
            assert(r@.environ =~= Seq::<Seq<u8>>::empty());
        }
        r
    }

    pub fn name(&self) -> (r: &Vec<u8>)
        ensures
            r@ == self@.name,
    {
        &self.name
    }

    pub fn cmd(&self) -> (r: &Vec<Vec<u8>>)
        ensures
            r.deep_view() == self@.cmd,
    {
        &self.cmd
    }

    pub fn exe(&self) -> (r: Option<&Vec<u8>>)
        ensures
            (match r {
                Some(v) => self@.exe == Some(v@),
                None => self@.exe is None,
            }),
    {
        self.exe.as_ref()
    }

    pub fn pid(&self) -> (r: usize)
        ensures
            r == self@.pid,
    {
        self.pid
    }

    pub fn environ(&self) -> (r: &Vec<Vec<u8>>)
        ensures
            r.deep_view() == self@.environ,
    {
        &self.environ
    }

    pub fn cwd(&self) -> (r: Option<&Vec<u8>>)
        ensures
            (match r {
                Some(v) => self@.cwd == Some(v@),
                None => self@.cwd is None,
            }),
    {
        self.cwd.as_ref()
    }

    pub fn root(&self) -> (r: Option<&Vec<u8>>)
        ensures
            (match r {
                Some(v) => self@.root == Some(v@),
                None => self@.root is None,
            }),
    {
        self.root.as_ref()
    }

    pub fn memory(&self) -> (r: u64)
        ensures
            r == self@.memory,
    {
        self.memory
    }

    pub fn virtual_memory(&self) -> (r: u64)
        ensures
            r == self@.virtual_memory,
    {
        self.virtual_memory
    }

    pub fn parent(&self) -> (r: Option<usize>)
        ensures
            r == self@.parent,
    {
        self.parent
    }

    pub fn status(&self) -> (r: ProcessStatus)
        ensures
            r == self@.status,
    {
        self.status
    }

    pub fn start_time(&self) -> (r: u64)
        ensures
            r == self@.start_time,
    {
        self.start_time
    }

    pub fn run_time(&self) -> (r: u64)
        ensures
            r == self@.run_time,
    {
        self.run_time
    }

    pub fn cpu_usage(&self) -> (r: u64)
        ensures
            r == self@.cpu_usage,
    {
        self.cpu_usage
    }

    pub fn accumulated_cpu_time(&self) -> (r: u64)
        ensures
            r == self@.accumulated_cpu_time,
    {
        self.accumulated_cpu_time
    }

    /// The I/O deltas of the differential pair, and the raw totals. Pure:
    /// calling this never shifts the pair, so a zero delta is a valid answer
    /// and no warm-up is needed.
    pub fn disk_usage(&self) -> (r: DiskUsage)
        ensures
            r == (DiskUsage {
                written_bytes: sat_sub64(self@.written_bytes, self@.old_written_bytes),
                total_written_bytes: self@.written_bytes,
                read_bytes: sat_sub64(self@.read_bytes, self@.old_read_bytes),
                total_read_bytes: self@.read_bytes,
            }),
    {
        DiskUsage {
            written_bytes: self.written_bytes.saturating_sub(self.old_written_bytes),
            total_written_bytes: self.written_bytes,
            read_bytes: self.read_bytes.saturating_sub(self.old_read_bytes),
            total_read_bytes: self.read_bytes,
        }
    }

    pub fn user_id(&self) -> (r: Option<&Uid>)
        ensures
            (match r {
                Some(v) => self@.user_id == Some(*v),
                None => self@.user_id is None,
            }),
    {
        self.user_id.as_ref()
    }

    pub fn effective_user_id(&self) -> (r: Option<&Uid>)
        ensures
            (match r {
                Some(v) => self@.effective_user_id == Some(*v),
                None => self@.effective_user_id is None,
            }),
    {
        self.effective_user_id.as_ref()
    }

    pub fn group_id(&self) -> (r: Option<Gid>)
        ensures
            r == self@.group_id,
    {
        self.group_id
    }

    pub fn effective_group_id(&self) -> (r: Option<Gid>)
        ensures
            r == self@.effective_group_id,
    {
        self.effective_group_id
    }

    pub fn thread_kind(&self) -> (r: Option<ThreadKind>)
        ensures
            r == self@.thread_kind,
    {
        self.thread_kind
    }

    /// Clears the "updated this cycle" flag and reports what it was, for the
    /// caller-driven sweep that flags entities a refresh did not touch.
    pub fn switch_updated(&mut self) -> (r: bool)
        ensures
            r == old(self)@.updated,
            final(self)@ == (ProcessInnerView { updated: false, ..old(self)@ }),
    {
        let prev = self.updated;
        self.updated = false;
        prev
    }

    /// Marks the entity as gone from the system; driven by the caller, never
    /// by the refresh itself.
    pub fn set_nonexistent(&mut self)
        ensures
            final(self)@ == (ProcessInnerView { exists: false, ..old(self)@ }),
    {
        self.exists = false;
    }

    /// Whether the entity is still believed to exist on the system.
    pub fn still_exists(&self) -> (r: bool)
        ensures
            r == self@.exists,
    {
        self.exists
    }
}

/// The process CPU percentage derived from the time differential pair over
/// the elapsed interval, clamped to the caller's ceiling (`100 × logical
/// core count`, so a multi-threaded process may legitimately exceed 100).
/// A zero elapsed interval clamps straight to the ceiling.
pub open spec fn spec_compute_cpu_usage(p: ProcessInnerView, total_time: u64, max_value: u64) -> u64 {
    let delta = sat_add64(sat_sub64(p.utime, p.old_utime), sat_sub64(p.stime, p.old_stime));
    if total_time == 0 {
        max_value
    } else {
        let v = delta * 100 / (total_time as int);
        if v > max_value {
            max_value
        } else {
            v as u64
        }
    }
}

/// Derives the entity's CPU percentage. The first observed sample is a
/// deliberate warm-up: while both `old_` times still hold their initial
/// zero, a rate cannot be derived and the stored usage stays untouched.
pub fn compute_cpu_usage(p: &mut ProcessInner, total_time: u64, max_value: u64)
    ensures
        old(p)@.old_utime == 0 && old(p)@.old_stime == 0 ==> final(p)@ == old(p)@,
        !(old(p)@.old_utime == 0 && old(p)@.old_stime == 0) ==> final(p)@ == (ProcessInnerView {
            cpu_usage: spec_compute_cpu_usage(old(p)@, total_time, max_value),
            ..old(p)@
        }),
        !(old(p)@.old_utime == 0 && old(p)@.old_stime == 0) ==> final(p)@.cpu_usage <= max_value,
{
    // First update without a reference sample: wait for a second cycle.
    if p.old_utime == 0 && p.old_stime == 0 {
        return ;
    }

    // `max_value` caps the usage at `number of CPUs * 100`.
    let delta = p.utime.saturating_sub(p.old_utime).saturating_add(
        p.stime.saturating_sub(p.old_stime),
    );
    if total_time == 0 {
        p.cpu_usage = max_value;
    } else {
        let v: u128 = delta as u128 * 100 / total_time as u128;
        p.cpu_usage = if v > max_value as u128 {
            max_value
        } else {
            v as u64
        };
    }
}

/// Shifts the CPU-time differential pair as one unit: the current times move
/// into the `old_` slots, the arguments become current.
pub fn set_time(p: &mut ProcessInner, utime: u64, stime: u64)
    ensures
        final(p)@ == (ProcessInnerView {
            old_utime: old(p)@.utime,
            old_stime: old(p)@.stime,
            utime: utime,
            stime: stime,
            ..old(p)@
        }),
{
    p.old_utime = p.utime;
    p.old_stime = p.stime;
    p.utime = utime;
    p.stime = stime;
}

/// Sets the lifecycle status from the first byte of a raw status field; an
/// empty field degrades to `Unknown(0)`.
pub fn get_status(p: &mut ProcessInner, part: &[u8])
    ensures
        final(p)@ == (ProcessInnerView {
            status: (if part@.len() > 0 {
                spec_status_from_char(part@[0] as char)
            } else {
                ProcessStatus::Unknown(0)
            }),
            ..old(p)@
        }),
{
    if part.len() > 0 {
        p.status = ProcessStatus::from(part[0] as char);
    } else {
        p.status = ProcessStatus::Unknown(0);
    }
}

/// The scale factor a memory unit suffix denotes; an unrecognized suffix
/// leaves the value unscaled.
pub open spec fn spec_mem_scale(suffix: Seq<u8>) -> u64 {
    if suffix == seq![66u8] {  // B
        1
    } else if suffix == seq![75u8, 66u8] {  // KB
        1024
    } else if suffix == seq![77u8, 66u8] {  // MB
        1048576
    } else if suffix == seq![71u8, 66u8] {  // GB
        1073741824
    } else {
        1
    }
}

/// What a `value unit` memory field parses to: the field is trimmed, the
/// first space-separated part is the numeric value (malformed degrades to
/// zero), the second the unit, and the product saturates.
pub open spec fn spec_parse_memory(field: Seq<u8>) -> u64 {
    let t = spec_trim(field);
    match find_from(Delim::SpaceOnly, t, 0) {
        None => sat_mul64(spec_parse_u64_or_zero(t), 1),
        Some(i) => {
            let value = spec_parse_u64_or_zero(t.take(i));
            let rest = t.skip(i + 1);
            let suffix = match find_from(Delim::SpaceOnly, rest, 0) {
                None => rest,
                Some(j) => rest.take(j),
            };
            sat_mul64(value, spec_mem_scale(suffix))
        },
    }
}

/// Parses a `value unit` memory field into bytes. `512 MB` gives exactly
/// `512 * 1024 * 1024`; an unknown unit leaves the raw value unscaled.
pub fn parse_memory(field: &[u8]) -> (r: u64)
    ensures
        r == spec_parse_memory(field@),
{
    let t = trim(field);
    match crate::parse::find_delim(t, Delim::SpaceOnly, 0) {
        None => {
            let v = parse_u64_or_zero(t);
            proof {
                assert(sat_mul64(v, 1) == v);
            }
            v
        },
        Some(i) => {
            proof {
                crate::parse::lemma_find_from(Delim::SpaceOnly, t@, 0);
            }
            let tlen = t.len();
            proof {
                assert(i < tlen);
            }
            let num = vstd::slice::slice_subrange(t, 0, i);
            let rest = vstd::slice::slice_subrange(t, i + 1, tlen);
            proof {
                assert(num@ =~= t@.take(i as int));
                assert(rest@ =~= t@.skip(i + 1 as int));
            }
            let suffix = match crate::parse::find_delim(rest, Delim::SpaceOnly, 0) {
                None => rest,
                Some(j) => vstd::slice::slice_subrange(rest, 0, j),
            };
            proof {
                assert(suffix@ == (match find_from(Delim::SpaceOnly, rest@, 0) {
                    None => rest@,
                    Some(j) => rest@.take(j),
                })) by {
                    if find_from(Delim::SpaceOnly, rest@, 0) is Some {
                        let j = find_from(Delim::SpaceOnly, rest@, 0)->Some_0;
                        assert(suffix@ =~= rest@.take(j));
                    }
                }
            }
            let value = parse_u64_or_zero(num);
            let sfx_b: [u8; 1] = [66];
            let sfx_kb: [u8; 2] = [75, 66];
            let sfx_mb: [u8; 2] = [77, 66];
            let sfx_gb: [u8; 2] = [71, 66];
            proof {
                assert(sfx_b@ =~= seq![66u8]);
                assert(sfx_kb@ =~= seq![75u8, 66u8]);
                assert(sfx_mb@ =~= seq![77u8, 66u8]);
                assert(sfx_gb@ =~= seq![71u8, 66u8]);
            }
            let scale: u64 = if crate::parse::bytes_eq(suffix, sfx_b.as_slice()) {
                1
            } else if crate::parse::bytes_eq(suffix, sfx_kb.as_slice()) {
                1024
            } else if crate::parse::bytes_eq(suffix, sfx_mb.as_slice()) {
                1048576
            } else if crate::parse::bytes_eq(suffix, sfx_gb.as_slice()) {
                1073741824
            } else {
                1
            };
            crate::arith::saturating_mul64(value, scale)
        },
    }
}

/// One parsed row of the fixed-column process enumeration.
pub struct ProcRecord {
    pub pid: usize,
    pub euid: u32,
    pub egid: u32,
    pub kind: u8,
    pub status: u8,
    pub time_ms: u64,
    pub memory: u64,
    pub name: Vec<u8>,
}

/// The mathematical image of a parsed enumeration row.
pub struct ProcRecordView {
    pub pid: usize,
    pub euid: u32,
    pub egid: u32,
    pub kind: u8,
    pub status: u8,
    pub time_ms: u64,
    pub memory: u64,
    pub name: Seq<u8>,
}

impl View for ProcRecord {
    type V = ProcRecordView;

    open spec fn view(&self) -> ProcRecordView {
        ProcRecordView {
            pid: self.pid,
            euid: self.euid,
            egid: self.egid,
            kind: self.kind,
            status: self.status,
            time_ms: self.time_ms,
            memory: self.memory,
            name: self.name@,
        }
    }
}

/// A malformed two-character field degrades to zero, so its value never
/// exceeds two decimal digits.
pub proof fn lemma_two_digit_bound(s: Seq<u8>)
    requires
        s.len() == 2,
    ensures
        spec_parse_u64_or_zero(s) <= 99,
{
    if crate::parse::spec_parse_u64(s) is Some {
        let s1 = s.drop_last();
        assert(s1.len() == 1);
        assert(s1.drop_last().len() == 0);
        assert(crate::parse::digits_val(s1.drop_last()) == 0);
        assert(crate::parse::digits_val(s1) == s1.last() - 48);
        assert(crate::parse::digits_val(s) == crate::parse::digits_val(s1) * 10 + (s.last() - 48));
        assert(crate::parse::is_ascii_digit(s[0]));
        assert(crate::parse::is_ascii_digit(s[1]));
        assert(s1.last() == s[0]);
        assert(s.last() == s[1]);
    }
}

/// The accumulated run time a `HH:MM:SS.CC` field denotes, in milliseconds.
/// The four two-digit subfields sit at fixed columns of the row; each
/// malformed subfield degrades to zero.
pub open spec fn spec_time_ms(line: Seq<u8>) -> u64 {
    (spec_parse_u64_or_zero(line.subrange(47, 49)) * 3600000 + spec_parse_u64_or_zero(
        line.subrange(50, 52),
    ) * 60000 + spec_parse_u64_or_zero(line.subrange(53, 55)) * 1000 + spec_parse_u64_or_zero(
        line.subrange(56, 58),
    ) * 10) as u64
}

/// What one fixed-column enumeration row parses to: the process id (a row
/// whose id column does not parse, or a row shorter than its fixed columns,
/// is skipped), the effective ownership ids, the task-kind and status codes,
/// the accumulated run time, the scaled memory value and the trailing name.
pub open spec fn spec_parse_proc_line(line: Seq<u8>) -> Option<ProcRecordView> {
    if line.len() < 67 {
        None
    } else {
        match spec_parse_usize(spec_trim(line.subrange(0, 6))) {
            None => None,
            Some(pid) => {
                let stat = spec_trim(line.subrange(24, 30));
                Some(
                    ProcRecordView {
                        pid: pid,
                        euid: spec_parse_u32_or_zero(spec_trim(line.subrange(6, 12))),
                        egid: spec_parse_u32_or_zero(spec_trim(line.subrange(12, 18))),
                        kind: if stat.len() > 0 {
                            stat[0]
                        } else {
                            0
                        },
                        status: if stat.len() > 1 {
                            stat[1]
                        } else {
                            0
                        },
                        time_ms: spec_time_ms(line),
                        memory: spec_parse_memory(line.subrange(59, 67)),
                        name: line.skip(67),
                    },
                )
            },
        }
    }
}

pub fn parse_proc_line(line: &[u8]) -> (r: Option<ProcRecord>)
    ensures
        (match r {
            Some(rec) => spec_parse_proc_line(line@) == Some(rec@),
            None => spec_parse_proc_line(line@) is None,
        }),
{
    if line.len() < 67 {
        return None;
    }
    let pid_field = trim(vstd::slice::slice_subrange(line, 0, 6));
    let pid = match parse_usize(pid_field) {
        Some(p) => p,
        None => {
            return None;
        },
    };
    let euid = parse_u32_or_zero(trim(vstd::slice::slice_subrange(line, 6, 12)));
    let egid = parse_u32_or_zero(trim(vstd::slice::slice_subrange(line, 12, 18)));
    let stat = trim(vstd::slice::slice_subrange(line, 24, 30));
    let kind = if stat.len() > 0 {
        stat[0]
    } else {
        0
    };
    let status = if stat.len() > 1 {
        stat[1]
    } else {
        0
    };
    let hours = parse_u64_or_zero(vstd::slice::slice_subrange(line, 47, 49));
    let minutes = parse_u64_or_zero(vstd::slice::slice_subrange(line, 50, 52));
    let seconds = parse_u64_or_zero(vstd::slice::slice_subrange(line, 53, 55));
    let centis = parse_u64_or_zero(vstd::slice::slice_subrange(line, 56, 58));
    proof {
        lemma_two_digit_bound(line@.subrange(47, 49));
        lemma_two_digit_bound(line@.subrange(50, 52));
        lemma_two_digit_bound(line@.subrange(53, 55));
        lemma_two_digit_bound(line@.subrange(56, 58));
    }
    let time_ms = hours * 3600000 + minutes * 60000 + seconds * 1000 + centis * 10;
    let memory = parse_memory(vstd::slice::slice_subrange(line, 59, 67));
    let name = vstd::slice::slice_to_vec(vstd::slice::slice_subrange(line, 67, line.len()));
    proof {
        assert(name@ =~= line@.skip(67));
    }
    Some(ProcRecord { pid, euid, egid, kind, status, time_ms, memory, name })
}

/// Which processes a refresh pass should touch.
#[derive(Clone, Copy)]
pub enum ProcessesToUpdate<'a> {
    /// Update every enumerated process.
    All,
    /// Update only the processes with these ids.
    Pids(&'a [usize]),
}

/// The mathematical image of the selector.
pub enum ProcessesToUpdateView {
    All,
    Pids(Seq<usize>),
}

impl<'a> View for ProcessesToUpdate<'a> {
    type V = ProcessesToUpdateView;

    open spec fn view(&self) -> ProcessesToUpdateView {
        match *self {
            ProcessesToUpdate::All => ProcessesToUpdateView::All,
            ProcessesToUpdate::Pids(p) => ProcessesToUpdateView::Pids(p@),
        }
    }
}

/// Whether the selector admits this process id.
pub open spec fn sel_includes(sel: ProcessesToUpdateView, pid: usize) -> bool {
    match sel {
        ProcessesToUpdateView::All => true,
        ProcessesToUpdateView::Pids(p) => p.contains(pid),
    }
}

fn contains_pid(pids: &[usize], pid: usize) -> (r: bool)
    ensures
        r == pids@.contains(pid),
{
    let mut i: usize = 0;
    while i < pids.len()
        invariant
            0 <= i <= pids@.len(),
            forall|j: int| 0 <= j < i ==> pids@[j] != pid,
        decreases pids@.len() - i,
    {
        if pids[i] == pid {
            return true;
        }
        i += 1;
    }
    proof {
        assert(!pids@.contains(pid));
    }
    false
}

/// The entity map seen through each entity's mathematical image.
pub open spec fn procs_view(m: Map<usize, Process>) -> Map<usize, ProcessInnerView> {
    Map::new(|k: usize| m.dom().contains(k), |k: usize| m[k]@)
}

/// The fields one enumeration row refreshes on an entity: identity, memory,
/// ownership, status, task kind, and the CPU-time differential pair shifted
/// as one unit (the row's accumulated time becomes the new user time). The
/// entity is marked as touched this cycle, so that the caller's separate
/// eviction sweep never flags a process that still enumerates.
pub open spec fn spec_update_with_record(p: ProcessInnerView, rec: ProcRecordView) -> ProcessInnerView {
    ProcessInnerView {
        updated: true,
        name: rec.name,
        memory: rec.memory,
        virtual_memory: rec.memory,
        user_id: Some(Uid(rec.euid)),
        effective_user_id: Some(Uid(rec.euid)),
        group_id: Some(Gid(rec.egid)),
        effective_group_id: Some(Gid(rec.egid)),
        status: spec_status_from_char(rec.status as char),
        thread_kind: Some(
            if rec.kind == 85 {  // U
                ThreadKind::Userland
            } else {
                ThreadKind::Kernel
            },
        ),
        old_utime: p.utime,
        old_stime: p.stime,
        utime: rec.time_ms,
        stime: 0,
        ..p
    }
}

/// The upsert one row performs: a new entity is constructed for an unseen
/// id, an existing one is kept; either way the row's fields are applied.
pub open spec fn spec_apply_proc_record(
    m: Map<usize, ProcessInnerView>,
    rec: ProcRecordView,
) -> Map<usize, ProcessInnerView> {
    let base = if m.dom().contains(rec.pid) {
        m[rec.pid]
    } else {
        spec_process_new(rec.pid)
    };
    m.insert(rec.pid, spec_update_with_record(base, rec))
}

/// How one row changes the map, and whether it counts as touched: rows that
/// do not parse or that the selector excludes change nothing.
pub open spec fn spec_refresh_step(
    m: Map<usize, ProcessInnerView>,
    line: Seq<u8>,
    sel: ProcessesToUpdateView,
) -> (Map<usize, ProcessInnerView>, int) {
    match spec_parse_proc_line(line) {
        None => (m, 0),
        Some(rec) => if sel_includes(sel, rec.pid) {
            (spec_apply_proc_record(m, rec), 1)
        } else {
            (m, 0)
        },
    }
}

pub open spec fn spec_refresh_fold(
    m: Map<usize, ProcessInnerView>,
    lines: Seq<Seq<u8>>,
    sel: ProcessesToUpdateView,
) -> (Map<usize, ProcessInnerView>, int)
    decreases lines.len(),
{
    if lines.len() == 0 {
        (m, 0)
    } else {
        let s = spec_refresh_step(m, lines[0], sel);
        let r = spec_refresh_fold(s.0, lines.skip(1), sel);
        (r.0, s.1 + r.1)
    }
}

/// What one refresh pass over a whole enumeration produces: every row but
/// the header folded into the entity map, plus the count of entities
/// touched. Nothing is ever removed — eviction belongs to the caller.
pub open spec fn spec_refresh_procs(
    m: Map<usize, ProcessInnerView>,
    data: Seq<u8>,
    sel: ProcessesToUpdateView,
) -> (Map<usize, ProcessInnerView>, int) {
    let ls = spec_lines(data);
    let body = if ls.len() > 0 {
        ls.skip(1)
    } else {
        ls
    };
    spec_refresh_fold(m, body, sel)
}

/// The Process Refresh Protocol: reconciles a full textual enumeration
/// against the entity map. Each selected row upserts one entity — created on
/// first observation, refreshed otherwise — and the count of touched
/// entities is returned. Entities absent from the enumeration stay in the
/// map untouched; flagging them is the caller's separate sweep.
#[allow(unused_variables)]
pub fn refresh_procs(
    proc_list: &mut std::collections::HashMap<usize, Process>,
    data: &[u8],
    uptime: u64,
    processes_to_update: ProcessesToUpdate<'_>,
) -> (nb_updated: usize)
    ensures
        ({
            let r = spec_refresh_procs(procs_view(old(proc_list)@), data@, processes_to_update@);
            procs_view(final(proc_list)@) == r.0 && nb_updated as int == r.1
        }),
{
    let lines = split_lines(data);
    let ghost dv = lines.deep_view();
    let ghost selv = processes_to_update@;
    let ghost m0 = procs_view(proc_list@);
    let ghost target = spec_refresh_procs(m0, data@, selv);
    if lines.len() == 0 {
        return 0;
    }
    let mut nb_updated: usize = 0;
    let mut k: usize = 1;  // the first row is the column header
    proof {
        assert(spec_refresh_fold(m0, dv.skip(1), selv) == target);
    }
    while k < lines.len()
        invariant
            1 <= k <= lines@.len(),
            dv == lines.deep_view(),
            selv == processes_to_update@,
            nb_updated <= k - 1,
            ({
                let rem = spec_refresh_fold(procs_view(proc_list@), dv.skip(k as int), selv);
                rem.0 == target.0 && nb_updated + rem.1 == target.1
            }),
        decreases lines@.len() - k,
    {
        let ghost mk = procs_view(proc_list@);
        let line = &lines[k];
        proof {
            assert(dv[k as int] == lines@[k as int]@);
        }
        let parsed = parse_proc_line(line.as_slice());
        let ghost stepped = spec_refresh_step(mk, dv[k as int], selv);
        match parsed {
            None => {
                proof {
                    assert(stepped == (mk, 0int));
                }
            },
            Some(rec) => {
                let ghost recv = rec@;
                let selected: bool;
                match processes_to_update {
                    ProcessesToUpdate::All => {
                        selected = true;
                    },
                    ProcessesToUpdate::Pids(pids) => {
                        selected = contains_pid(pids, rec.pid);
                    },
                }
                proof {
                    assert(spec_parse_proc_line(dv[k as int]) == Some(recv));
                    assert(selected == sel_includes(selv, recv.pid));
                }
                if selected {
                    let pid = rec.pid;
                    let existing = proc_list.remove(&pid);
                    let ghost m_removed = proc_list@;
                    let mut p: ProcessInner = match existing {
                        Some(found) => found.inner,
                        None => ProcessInner::new(pid),
                    };
                    proof {
                        assert(p@ == (if mk.dom().contains(pid) {
                            mk[pid]
                        } else {
                            spec_process_new(pid)
                        }));
                    }
                    let ghost base = p@;
                    // mark the entity as touched this cycle: the caller's
                    // eviction sweep flags only entities no row refreshed
                    p.updated = true;
                    p.name = rec.name;
                    p.memory = rec.memory;
                    p.virtual_memory = rec.memory;
                    p.user_id = Some(Uid(rec.euid));
                    p.effective_user_id = Some(Uid(rec.euid));
                    p.group_id = Some(Gid(rec.egid));
                    p.effective_group_id = Some(Gid(rec.egid));
                    p.status = ProcessStatus::from(rec.status as char);
                    p.thread_kind = Some(
                        if rec.kind == 85 {  // U
                            ThreadKind::Userland
                        } else {
                            ThreadKind::Kernel
                        },
                    );
                    set_time(&mut p, rec.time_ms, 0);
                    proof {
                        assert(p@ == spec_update_with_record(base, recv));
                    }
                    proc_list.insert(pid, Process { inner: p });
                    proof {
                        assert(procs_view(proc_list@) =~= spec_apply_proc_record(mk, recv));
                        assert(stepped.0 == spec_apply_proc_record(mk, recv));
                        assert(stepped == (procs_view(proc_list@), 1int));
                    }
                    nb_updated += 1;
                } else {
                    proof {
                        assert(stepped == (mk, 0int));
                    }
                }
            },
        }
        proof {
            assert(dv.skip(k as int)[0] == dv[k as int]);
            assert(dv.skip(k as int).skip(1) =~= dv.skip(k + 1 as int));
            assert(spec_refresh_fold(mk, dv.skip(k as int), selv) == {
                let r = spec_refresh_fold(stepped.0, dv.skip(k + 1 as int), selv);
                (r.0, stepped.1 + r.1)
            });
        }
        k += 1;
    }
    proof {
        assert(spec_refresh_fold(procs_view(proc_list@), dv.skip(k as int), selv) == (
            procs_view(proc_list@),
            0int,
        ));
    }
    nb_updated
}

/// The column index of the start-time field in a split stat file.
pub const STAT_START_TIME_INDEX: usize = 20;

/// A split per-process stat file: the whitespace-delimited fields, and the
/// command name that stood between the first space and the last closing
/// parenthesis.
pub struct Parts {
    pub str_parts: Vec<Vec<u8>>,
    pub short_exe: Vec<u8>,
}

/// The mathematical image of a split stat file.
pub struct PartsView {
    pub str_parts: Seq<Seq<u8>>,
    pub short_exe: Seq<u8>,
}

impl View for Parts {
    type V = PartsView;

    open spec fn view(&self) -> PartsView {
        PartsView { str_parts: self.str_parts.deep_view(), short_exe: self.short_exe@ }
    }
}

/// What a stat file splits into. The command name may itself hold spaces and
/// parentheses, so the file cannot be split on whitespace alone: the first
/// field ends at the first space, the command name at the last closing
/// parenthesis in the whole file, and only the remainder splits on
/// whitespace. A file without both landmarks does not split.
pub open spec fn spec_parse_stat_file(data: Seq<u8>) -> Option<PartsView> {
    match find_from(Delim::SpaceOnly, data, 0) {
        None => None,
        Some(i) => {
            let first = data.take(i);
            let rest = data.skip(i + 1);
            match rfind_before(Delim::CloseParen, rest, rest.len() as int) {
                None => None,
                Some(j) => {
                    let after = rest.skip(j + 1);
                    let exe_raw = rest.take(j);
                    let short_exe = if exe_raw.len() > 0 && exe_raw[0] == 40 {  // (
                        exe_raw.skip(1)
                    } else {
                        exe_raw
                    };
                    Some(
                        PartsView {
                            str_parts: seq![first] + spec_tokens(after),
                            short_exe: short_exe,
                        },
                    )
                },
            }
        },
    }
}

pub fn parse_stat_file(data: &[u8]) -> (r: Option<Parts>)
    ensures
        (match r {
            Some(p) => spec_parse_stat_file(data@) == Some(p@),
            None => spec_parse_stat_file(data@) is None,
        }),
{
    let i = match crate::parse::find_delim(data, Delim::SpaceOnly, 0) {
        Some(i) => i,
        None => {
            return None;
        },
    };
    let first = vstd::slice::slice_to_vec(vstd::slice::slice_subrange(data, 0, i));
    let dlen = data.len();
    proof {
        assert(i < dlen);
    }
    let rest = vstd::slice::slice_subrange(data, i + 1, dlen);
    proof {
        assert(first@ =~= data@.take(i as int));
        assert(rest@ =~= data@.skip(i + 1 as int));
    }
    let j = match crate::parse::rfind_delim(rest, Delim::CloseParen, rest.len()) {
        Some(j) => j,
        None => {
            return None;
        },
    };
    proof {
        crate::parse::lemma_rfind_before(Delim::CloseParen, rest@, rest@.len() as int);
    }
    let after = vstd::slice::slice_subrange(rest, j + 1, rest.len());
    let exe_raw = vstd::slice::slice_subrange(rest, 0, j);
    proof {
        assert(after@ =~= rest@.skip(j + 1 as int));
        assert(exe_raw@ =~= rest@.take(j as int));
    }
    let short_exe = if exe_raw.len() > 0 && exe_raw[0] == 40 {  // (
        let s = vstd::slice::slice_subrange(exe_raw, 1, exe_raw.len());
        proof {
            assert(s@ =~= exe_raw@.skip(1));
        }
        vstd::slice::slice_to_vec(s)
    } else {
        vstd::slice::slice_to_vec(exe_raw)
    };
    let mut str_parts: Vec<Vec<u8>> = Vec::new();
    proof {
        assert(first.deep_view() =~= first@);
    }
    str_parts.push(first);
    let mut toks = tokenize(after);
    let ghost toks_dv = toks.deep_view();
    let ghost one = str_parts.deep_view();
    str_parts.append(&mut toks);
    proof {
        assert(one =~= seq![data@.take(i as int)]);
        assert(str_parts.deep_view() =~= one + toks_dv);
    }
    Some(Parts { str_parts, short_exe })
}

/// The raw start-time field of a split stat file: the fixed-position field
/// parsed as a number, with a missing or malformed field degrading to zero.
/// Callers compare it against a stored value to confirm an entity still
/// denotes the same process before acting on it.
pub open spec fn spec_start_time_raw(parts: PartsView) -> u64 {
    if parts.str_parts.len() > STAT_START_TIME_INDEX {
        spec_parse_u64_or_zero(parts.str_parts[STAT_START_TIME_INDEX as int])
    } else {
        0
    }
}

pub fn start_time_raw(parts: &Parts) -> (r: u64)
    ensures
        r == spec_start_time_raw(parts@),
{
    if parts.str_parts.len() > STAT_START_TIME_INDEX {
        proof {
            assert(parts.str_parts.deep_view()[STAT_START_TIME_INDEX as int] == parts.str_parts@[
                STAT_START_TIME_INDEX as int
            ]@);
        }
        parse_u64_or_zero(parts.str_parts[STAT_START_TIME_INDEX].as_slice())
    } else {
        0
    }
}

/// The prefix `Max open files ` as bytes.
pub open spec fn kw_max_open_files() -> Seq<u8> {
    seq![77u8, 97u8, 120u8, 32u8, 111u8, 112u8, 101u8, 110u8, 32u8, 102u8, 105u8, 108u8, 101u8,
        115u8, 32u8]
}

/// The limit the first matching line of a limits file names: the first line
/// that starts with `Max open files ` and has a token after the prefix
/// yields that token's parse; lines with the prefix but nothing after it are
/// passed over, and a file with no matching line yields nothing.
pub open spec fn spec_open_files_limit_lines(lines: Seq<Seq<u8>>) -> Option<usize>
    decreases lines.len(),
{
    if lines.len() == 0 {
        None
    } else {
        let l = lines[0];
        if kw_max_open_files().is_prefix_of(l) && spec_tokens(l.skip(15)).len() > 0 {
            spec_parse_usize(spec_tokens(l.skip(15))[0])
        } else {
            spec_open_files_limit_lines(lines.skip(1))
        }
    }
}

/// What a whole limits file parses to.
pub open spec fn spec_parse_open_files_limit(data: Seq<u8>) -> Option<usize> {
    spec_open_files_limit_lines(spec_lines(data))
}

/// Extracts the `Max open files` limit from the text of a limits file.
pub fn parse_open_files_limit(data: &[u8]) -> (r: Option<usize>)
    ensures
        r == spec_parse_open_files_limit(data@),
{
    let lines = split_lines(data);
    let ghost dv = lines.deep_view();
    let mut k: usize = 0;
    proof {
        assert(dv.skip(0) =~= dv);
    }
    let kw: [u8; 15] = [77, 97, 120, 32, 111, 112, 101, 110, 32, 102, 105, 108, 101, 115, 32];
    proof {
        assert(kw@ =~= kw_max_open_files());
    }
    while k < lines.len()
        invariant
            0 <= k <= lines@.len(),
            dv == lines.deep_view(),
            dv == spec_lines(data@),
            kw@ == kw_max_open_files(),
            spec_open_files_limit_lines(dv) == spec_open_files_limit_lines(dv.skip(k as int)),
        decreases lines@.len() - k,
    {
        let line = &lines[k];
        proof {
            assert(dv[k as int] == lines@[k as int]@);
        }
        if crate::parse::starts_with(line.as_slice(), kw.as_slice()) {
            let restlen = line.len();
            let rest = vstd::slice::slice_subrange(line.as_slice(), 15, restlen);
            proof {
                assert(rest@ =~= dv[k as int].skip(15));
            }
            let toks = tokenize(rest);
            if toks.len() > 0 {
                proof {
                    assert(dv.skip(k as int).len() > 0);
                    assert(dv.skip(k as int)[0] == dv[k as int]);
                    assert(toks.deep_view()[0] == toks@[0]@);
                    assert(spec_open_files_limit_lines(dv.skip(k as int)) == spec_parse_usize(
                        toks@[0]@,
                    ));
                }
                return parse_usize(toks[0].as_slice());
            }
        }
        proof {
            assert(spec_open_files_limit_lines(dv.skip(k as int)) == spec_open_files_limit_lines(
                dv.skip(k as int).skip(1),
            ));
            assert(dv.skip(k as int).skip(1) =~= dv.skip(k + 1 as int));
        }
        k += 1;
    }
    proof {
        assert(spec_open_files_limit_lines(dv.skip(k as int)) is None);
    }
    None
}

} // verus!
