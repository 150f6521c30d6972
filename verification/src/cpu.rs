//! Per-core tick accounting.
//!
//! A Counter Snapshot (`CpuValues`) holds one raw tick-bucket sample with the
//! virtual-time subsets already subtracted out, so its components are
//! disjoint. A Usage Accumulator (`CpuUsage`) keeps the previous and the
//! current snapshot and derives a utilization percentage from their
//! saturating deltas. A Core Entity (`CpuInner`) pairs one accumulator with
//! the core's immutable identity, and the Collection Manager (`CpusWrapper`)
//! ingests a whole tick-counter table, rate-limited against resampling too
//! quickly.

use vstd::prelude::*;

use crate::arith::sat_add64;
use crate::arith::sat_sub64;
use crate::parse::bytes_eq;
use crate::parse::parse_u64_or_zero;
use crate::parse::parse_usize;
use crate::parse::spec_lines;
use crate::parse::spec_parse_u64_or_zero;
use crate::parse::spec_parse_usize;
use crate::parse::spec_tokens;
use crate::parse::split_lines;
use crate::parse::tokenize;
use crate::parse::find_from;
use crate::parse::Delim;

verus! {

/// Updates closer together than this many milliseconds are skipped, so that a
/// noise-dominated, near-zero delta is never turned into a percentage.
pub const MINIMUM_CPU_UPDATE_INTERVAL_MS: u64 = 200;

/// One raw tick-bucket sample. The virtual components (`guest`,
/// `guest_nice`) are subsets of `user` and `nice` in the raw source and are
/// subtracted out on ingestion, so all stored components are disjoint.
#[derive(Clone, Copy, Debug)]
pub struct CpuValues {
    pub user: u64,
    pub nice: u64,
    pub system: u64,
    pub idle: u64,
    pub iowait: u64,
    pub irq: u64,
    pub softirq: u64,
    pub steal: u64,
    pub guest: u64,
    pub guest_nice: u64,
}

/// The all-zero snapshot.
pub open spec fn spec_cpu_values_zero() -> CpuValues {
    CpuValues {
        user: 0,
        nice: 0,
        system: 0,
        idle: 0,
        iowait: 0,
        irq: 0,
        softirq: 0,
        steal: 0,
        guest: 0,
        guest_nice: 0,
    }
}

/// What one ingestion stores: `guest` is carved out of `user` and
/// `guest_nice` out of `nice` (saturating at zero), the other components are
/// stored verbatim.
pub open spec fn spec_ingest(
    user: u64,
    nice: u64,
    system: u64,
    idle: u64,
    iowait: u64,
    irq: u64,
    softirq: u64,
    steal: u64,
    guest: u64,
    guest_nice: u64,
) -> CpuValues {
    CpuValues {
        user: sat_sub64(user, guest),
        nice: sat_sub64(nice, guest_nice),
        system: system,
        idle: idle,
        iowait: iowait,
        irq: irq,
        softirq: softirq,
        steal: steal,
        guest: guest,
        guest_nice: guest_nice,
    }
}

impl CpuValues {
    /// Ticks spent on user-mode work.
    pub open spec fn spec_work_time(self) -> u64 {
        sat_add64(self.user, self.nice)
    }

    /// Ticks spent in the kernel, interrupt handling included.
    pub open spec fn spec_system_time(self) -> u64 {
        sat_add64(sat_add64(self.system, self.irq), self.softirq)
    }

    /// Ticks spent idle or waiting for I/O.
    pub open spec fn spec_idle_time(self) -> u64 {
        sat_add64(self.idle, self.iowait)
    }

    /// Ticks spent running guest machines.
    pub open spec fn spec_virtual_time(self) -> u64 {
        sat_add64(self.guest, self.guest_nice)
    }

    /// Grand total over all disjoint components.
    pub open spec fn spec_total_time(self) -> u64 {
        sat_add64(
            sat_add64(
                sat_add64(sat_add64(self.spec_work_time(), self.spec_system_time()),
                    self.spec_idle_time()),
                self.spec_virtual_time(),
            ),
            self.steal,
        )
    }

    /// Sets the given arguments to the corresponding fields, subtracting the
    /// virtual subsets out of `user` and `nice`. A crafted sample with
    /// `guest > user` yields a zero `user` component, never a wrapped one.
    pub fn set(
        &mut self,
        user: u64,
        nice: u64,
        system: u64,
        idle: u64,
        iowait: u64,
        irq: u64,
        softirq: u64,
        steal: u64,
        guest: u64,
        guest_nice: u64,
    )
        ensures
            *final(self) == spec_ingest(
                user,
                nice,
                system,
                idle,
                iowait,
                irq,
                softirq,
                steal,
                guest,
                guest_nice,
            ),
            guest > user ==> final(self).user == 0,
            guest_nice > nice ==> final(self).nice == 0,
    {
        // `guest` is already accounted in `user`.
        self.user = user.saturating_sub(guest);
        // `guest_nice` is already accounted in `nice`.
        self.nice = nice.saturating_sub(guest_nice);
        self.system = system;
        self.idle = idle;
        self.iowait = iowait;
        self.irq = irq;
        self.softirq = softirq;
        self.steal = steal;
        self.guest = guest;
        self.guest_nice = guest_nice;
    }

    pub fn work_time(&self) -> (r: u64)
        ensures
            r == self.spec_work_time(),
    {
        self.user.saturating_add(self.nice)
    }

    pub fn system_time(&self) -> (r: u64)
        ensures
            r == self.spec_system_time(),
    {
        self.system.saturating_add(self.irq).saturating_add(self.softirq)
    }

    pub fn idle_time(&self) -> (r: u64)
        ensures
            r == self.spec_idle_time(),
    {
        self.idle.saturating_add(self.iowait)
    }

    pub fn virtual_time(&self) -> (r: u64)
        ensures
            r == self.spec_virtual_time(),
    {
        self.guest.saturating_add(self.guest_nice)
    }

    pub fn total_time(&self) -> (r: u64)
        ensures
            r == self.spec_total_time(),
    {
        self.work_time()
            .saturating_add(self.system_time())
            .saturating_add(self.idle_time())
            .saturating_add(self.virtual_time())
            .saturating_add(self.steal)
    }
}

impl Default for CpuValues {
    /// The all-zero snapshot.
    fn default() -> (r: Self)
        ensures
            r == spec_cpu_values_zero(),
    {
        CpuValues {
            user: 0,
            nice: 0,
            system: 0,
            idle: 0,
            iowait: 0,
            irq: 0,
            softirq: 0,
            steal: 0,
            guest: 0,
            guest_nice: 0,
        }
    }
}

/// The utilization percentage derived from two consecutive snapshots, in
/// whole percentage points: the overhead deltas (nice, user, system, steal,
/// virtual) over the total-time delta, floored at a denominator of one and
/// clamped into `[0, 100]`.
pub open spec fn spec_percent(old_v: CpuValues, new_v: CpuValues) -> u64 {
    let nice_d = sat_sub64(new_v.nice, old_v.nice);
    let user_d = sat_sub64(new_v.user, old_v.user);
    let steal_d = sat_sub64(new_v.steal, old_v.steal);
    let virtual_d = sat_sub64(new_v.spec_virtual_time(), old_v.spec_virtual_time());
    let system_d = sat_sub64(new_v.spec_system_time(), old_v.spec_system_time());
    let denom = if new_v.spec_total_time() > old_v.spec_total_time() {
        new_v.spec_total_time() - old_v.spec_total_time()
    } else {
        1
    };
    let pct = (nice_d + user_d + system_d + steal_d + virtual_d) * 100 / denom;
    if pct > 100 {
        100u64
    } else {
        pct as u64
    }
}

/// For all non-negative counter deltas the derived percentage lies in
/// `[0, 100]`; the upper clamp is part of the definition, the lower bound
/// holds because every delta saturates at zero.
pub proof fn lemma_percent_in_range(old_v: CpuValues, new_v: CpuValues)
    ensures
        spec_percent(old_v, new_v) <= 100,
{
}

/// Steady state: deriving a percentage from two identical snapshots gives a
/// zero total-time delta and a zero percentage.
pub proof fn lemma_steady_state(v: CpuValues)
    ensures
        spec_percent(v, v) == 0,
        v.spec_total_time() - v.spec_total_time() == 0,
{
}

/// A Usage Accumulator: the two most recent snapshots, their totals, and the
/// percentage derived from their deltas. `old_values` always holds what
/// `new_values` held immediately before the most recent update.
#[derive(Clone, Copy, Debug)]
pub struct CpuUsage {
    pub percent: u64,
    pub old_values: CpuValues,
    pub new_values: CpuValues,
    pub total_time: u64,
    pub old_total_time: u64,
}

/// The all-zero accumulator.
pub open spec fn spec_cpu_usage_zero() -> CpuUsage {
    CpuUsage {
        percent: 0,
        old_values: spec_cpu_values_zero(),
        new_values: spec_cpu_values_zero(),
        total_time: 0,
        old_total_time: 0,
    }
}

/// What one accumulator update produces: the current snapshot moves into
/// `old_values`, the raw arguments are ingested into `new_values`, the two
/// totals are recomputed, and the percentage is derived afresh.
pub open spec fn spec_usage_set(
    u: CpuUsage,
    user: u64,
    nice: u64,
    system: u64,
    idle: u64,
    iowait: u64,
    irq: u64,
    softirq: u64,
    steal: u64,
    guest: u64,
    guest_nice: u64,
) -> CpuUsage {
    let new_values = spec_ingest(
        user,
        nice,
        system,
        idle,
        iowait,
        irq,
        softirq,
        steal,
        guest,
        guest_nice,
    );
    CpuUsage {
        percent: spec_percent(u.new_values, new_values),
        old_values: u.new_values,
        new_values: new_values,
        total_time: new_values.spec_total_time(),
        old_total_time: u.new_values.spec_total_time(),
    }
}

impl CpuUsage {
    /// A fresh accumulator that has ingested one warm-up sample: no previous
    /// snapshot, so no percentage yet.
    pub fn new_with_values(
        user: u64,
        nice: u64,
        system: u64,
        idle: u64,
        iowait: u64,
        irq: u64,
        softirq: u64,
        steal: u64,
        guest: u64,
        guest_nice: u64,
    ) -> (r: Self)
        ensures
            r == (CpuUsage {
                percent: 0,
                old_values: spec_cpu_values_zero(),
                new_values: spec_ingest(
                    user,
                    nice,
                    system,
                    idle,
                    iowait,
                    irq,
                    softirq,
                    steal,
                    guest,
                    guest_nice,
                ),
                total_time: 0,
                old_total_time: 0,
            }),
    {
        let mut new_values = CpuValues::default();
        new_values.set(user, nice, system, idle, iowait, irq, softirq, steal, guest, guest_nice);
        CpuUsage {
            old_values: CpuValues::default(),
            new_values,
            percent: 0,
            total_time: 0,
            old_total_time: 0,
        }
    }

    /// Ingests one raw sample: rotates the snapshot pair, recomputes both
    /// totals and derives the percentage, clamped into `[0, 100]`.
    pub fn set(
        &mut self,
        user: u64,
        nice: u64,
        system: u64,
        idle: u64,
        iowait: u64,
        irq: u64,
        softirq: u64,
        steal: u64,
        guest: u64,
        guest_nice: u64,
    )
        ensures
            *final(self) == spec_usage_set(
                *old(self),
                user,
                nice,
                system,
                idle,
                iowait,
                irq,
                softirq,
                steal,
                guest,
                guest_nice,
            ),
            final(self).percent <= 100,
    {
        self.old_values = self.new_values;
        self.new_values.set(
            user,
            nice,
            system,
            idle,
            iowait,
            irq,
            softirq,
            steal,
            guest,
            guest_nice,
        );

        self.total_time = self.new_values.total_time();
        self.old_total_time = self.old_values.total_time();

        let nice_period = self.new_values.nice.saturating_sub(self.old_values.nice);
        let user_period = self.new_values.user.saturating_sub(self.old_values.user);
        let steal_period = self.new_values.steal.saturating_sub(self.old_values.steal);
        let guest_period = self.new_values.virtual_time().saturating_sub(
            self.old_values.virtual_time(),
        );
        let system_period = self.new_values.system_time().saturating_sub(
            self.old_values.system_time(),
        );

        let denom: u128 = if self.total_time > self.old_total_time {
            (self.total_time - self.old_total_time) as u128
        } else {
            1u128
        };
        let sum: u128 = nice_period as u128 + user_period as u128 + system_period as u128
            + steal_period as u128 + guest_period as u128;
        let pct: u128 = sum * 100 / denom;
        self.percent = if pct > 100 {
            100u64
        } else {
            pct as u64
        };
    }

    /// The percentage derived by the most recent update.
    pub fn usage(&self) -> (r: u64)
        ensures
            r == self.percent,
    {
        self.percent
    }
}

impl Default for CpuUsage {
    /// The all-zero accumulator.
    fn default() -> (r: Self)
        ensures
            r == spec_cpu_usage_zero(),
    {
        CpuUsage {
            percent: 0,
            old_values: CpuValues::default(),
            new_values: CpuValues::default(),
            total_time: 0,
            old_total_time: 0,
        }
    }
}

/// A Core Entity: one Usage Accumulator plus the core's immutable identity.
pub struct CpuInner {
    pub usage: CpuUsage,
    pub name: Vec<u8>,
    pub frequency: u64,
    pub vendor_id: Vec<u8>,
    pub brand: Vec<u8>,
}

/// The mathematical image of a Core Entity.
pub struct CpuInnerView {
    pub usage: CpuUsage,
    pub name: Seq<u8>,
    pub frequency: u64,
    pub vendor_id: Seq<u8>,
    pub brand: Seq<u8>,
}

impl View for CpuInner {
    type V = CpuInnerView;

    open spec fn view(&self) -> CpuInnerView {
        CpuInnerView {
            usage: self.usage,
            name: self.name@,
            frequency: self.frequency,
            vendor_id: self.vendor_id@,
            brand: self.brand@,
        }
    }
}

/// A Core Entity as handed to callers.
pub struct Cpu {
    pub inner: CpuInner,
}

impl View for Cpu {
    type V = CpuInnerView;

    open spec fn view(&self) -> CpuInnerView {
        self.inner@
    }
}

impl CpuInner {
    /// A new core discovered during the first ingestion pass: identity set
    /// once, the accumulator holding its warm-up sample.
    pub fn new_with_values(
        name: &[u8],
        user: u64,
        nice: u64,
        system: u64,
        idle: u64,
        iowait: u64,
        irq: u64,
        softirq: u64,
        steal: u64,
        guest: u64,
        guest_nice: u64,
        frequency: u64,
        vendor_id: Vec<u8>,
        brand: Vec<u8>,
    ) -> (r: Self)
        ensures
            r@ == (CpuInnerView {
                usage: CpuUsage {
                    percent: 0,
                    old_values: spec_cpu_values_zero(),
                    new_values: spec_ingest(
                        user,
                        nice,
                        system,
                        idle,
                        iowait,
                        irq,
                        softirq,
                        steal,
                        guest,
                        guest_nice,
                    ),
                    total_time: 0,
                    old_total_time: 0,
                },
                name: name@,
                frequency: frequency,
                vendor_id: vendor_id@,
                brand: brand@,
            }),
    {
        CpuInner {
            usage: CpuUsage::new_with_values(
                user,
                nice,
                system,
                idle,
                iowait,
                irq,
                softirq,
                steal,
                guest,
                guest_nice,
            ),
            name: vstd::slice::slice_to_vec(name),
            frequency,
            vendor_id,
            brand,
        }
    }

    /// Ingests one raw sample into the accumulator; the identity fields never
    /// change after construction.
    pub fn set(
        &mut self,
        user: u64,
        nice: u64,
        system: u64,
        idle: u64,
        iowait: u64,
        irq: u64,
        softirq: u64,
        steal: u64,
        guest: u64,
        guest_nice: u64,
    )
        ensures
            final(self)@ == (CpuInnerView {
                usage: spec_usage_set(
                    old(self).usage,
                    user,
                    nice,
                    system,
                    idle,
                    iowait,
                    irq,
                    softirq,
                    steal,
                    guest,
                    guest_nice,
                ),
                ..old(self)@
            }),
    {
        self.usage.set(user, nice, system, idle, iowait, irq, softirq, steal, guest, guest_nice);
    }

    pub fn cpu_usage(&self) -> (r: u64)
        ensures
            r == self.usage.percent,
    {
        self.usage.percent
    }

    pub fn name(&self) -> (r: &Vec<u8>)
        ensures
            r@ == self@.name,
    {
        &self.name
    }

    /// Returns the CPU frequency in MHz, zero when unavailable.
    pub fn frequency(&self) -> (r: u64)
        ensures
            r == self@.frequency,
    {
        self.frequency
    }

    pub fn vendor_id(&self) -> (r: &Vec<u8>)
        ensures
            r@ == self@.vendor_id,
    {
        &self.vendor_id
    }

    pub fn brand(&self) -> (r: &Vec<u8>)
        ensures
            r@ == self@.brand,
    {
        &self.brand
    }
}

/// The hardware identity shared by every core: how many cores the
/// description names, and the vendor and model strings. Cores at or past
/// `count` get empty identity strings.
pub struct VendorInfo {
    pub count: usize,
    pub vendor_id: Vec<u8>,
    pub brand: Vec<u8>,
}

/// The mathematical image of the hardware identity table.
pub struct VendorInfoView {
    pub count: usize,
    pub vendor_id: Seq<u8>,
    pub brand: Seq<u8>,
}

impl View for VendorInfo {
    type V = VendorInfoView;

    open spec fn view(&self) -> VendorInfoView {
        VendorInfoView { count: self.count, vendor_id: self.vendor_id@, brand: self.brand@ }
    }
}

/// The key `CPUs` as bytes.
pub open spec fn kw_cpus() -> Seq<u8> {
    seq![67u8, 80u8, 85u8, 115u8]
}

/// The key `Vendor` as bytes.
pub open spec fn kw_vendor() -> Seq<u8> {
    seq![86u8, 101u8, 110u8, 100u8, 111u8, 114u8]
}

/// The key `Model` as bytes.
pub open spec fn kw_model() -> Seq<u8> {
    seq![77u8, 111u8, 100u8, 101u8, 108u8]
}

/// The prefix `cpu` as bytes.
pub open spec fn kw_cpu() -> Seq<u8> {
    seq![99u8, 112u8, 117u8]
}

/// How one `key: value` line changes the identity table: `CPUs` replaces the
/// count when its value parses, `Vendor` and `Model` replace the strings, an
/// unknown key or a line without a `: ` separator changes nothing.
pub open spec fn spec_vendor_step(acc: VendorInfoView, line: Seq<u8>) -> VendorInfoView {
    match find_from(Delim::ColonSpace, line, 0) {
        None => acc,
        Some(i) => {
            let key = line.take(i);
            let value = line.skip(i + 2);
            if key == kw_cpus() {
                match spec_parse_usize(value) {
                    Some(c) => VendorInfoView { count: c, ..acc },
                    None => acc,
                }
            } else if key == kw_vendor() {
                VendorInfoView { vendor_id: value, ..acc }
            } else if key == kw_model() {
                VendorInfoView { brand: value, ..acc }
            } else {
                acc
            }
        },
    }
}

pub open spec fn spec_vendor_fold(lines: Seq<Seq<u8>>, acc: VendorInfoView) -> VendorInfoView
    decreases lines.len(),
{
    if lines.len() == 0 {
        acc
    } else {
        spec_vendor_fold(lines.skip(1), spec_vendor_step(acc, lines[0]))
    }
}

/// The identity table a hardware description parses to: every line folded
/// into a table that starts with one core and empty strings.
pub open spec fn spec_vendor_info(s: Seq<u8>) -> VendorInfoView {
    spec_vendor_fold(
        spec_lines(s),
        VendorInfoView { count: 1, vendor_id: Seq::empty(), brand: Seq::empty() },
    )
}

/// Parses the `key: value` hardware description into the per-core identity
/// table: the brand and vendor are immutable hardware facts shared by all
/// cores, so one table serves every index below the core count.
pub fn get_vendor_id_and_brand(data: &[u8]) -> (r: VendorInfo)
    ensures
        r@ == spec_vendor_info(data@),
{
    let lines = split_lines(data);
    let mut info = VendorInfo { count: 1, vendor_id: Vec::new(), brand: Vec::new() };
    proof {
        assert(info@.vendor_id =~= Seq::<u8>::empty());
        assert(info@.brand =~= Seq::<u8>::empty());
        assert(lines.deep_view().skip(0) =~= lines.deep_view());
    }
    let mut k: usize = 0;
    while k < lines.len()
        invariant
            0 <= k <= lines@.len(),
            lines.deep_view() == spec_lines(data@),
            spec_vendor_info(data@) == spec_vendor_fold(lines.deep_view().skip(k as int), info@),
        decreases lines@.len() - k,
    {
        let ghost dv = lines.deep_view();
        let ghost acc0 = info@;
        let line = &lines[k];
        proof {
            assert(dv[k as int] == lines@[k as int]@);
        }
        match crate::parse::find_delim(line.as_slice(), Delim::ColonSpace, 0) {
            None => {
                proof {
                    assert(spec_vendor_step(acc0, dv[k as int]) == acc0);
                }
            },
            Some(i) => {
                let key = vstd::slice::slice_subrange(line.as_slice(), 0, i);
                proof {
                    crate::parse::lemma_find_from(Delim::ColonSpace, line@, 0);
                    assert(key@ =~= dv[k as int].take(i as int));
                }
                let value = vstd::slice::slice_to_vec(
                    vstd::slice::slice_subrange(line.as_slice(), i + 2, line.len()),
                );
                proof {
                    assert(value@ =~= dv[k as int].skip(i + 2));
                }
                let kw_c: [u8; 4] = [67, 80, 85, 115];
                let kw_v: [u8; 6] = [86, 101, 110, 100, 111, 114];
                let kw_m: [u8; 5] = [77, 111, 100, 101, 108];
                proof {
                    assert(kw_c@ =~= kw_cpus());
                    assert(kw_v@ =~= kw_vendor());
                    assert(kw_m@ =~= kw_model());
                }
                if bytes_eq(key, kw_c.as_slice()) {
                    match parse_usize(value.as_slice()) {
                        Some(c) => {
                            info.count = c;
                        },
                        None => {},
                    }
                } else if bytes_eq(key, kw_v.as_slice()) {
                    info.vendor_id = value;
                } else if bytes_eq(key, kw_m.as_slice()) {
                    info.brand = value;
                }
                proof {
                    assert(spec_vendor_step(acc0, dv[k as int]) == info@);
                }
            },
        }
        proof {
            assert(dv.skip(k as int)[0] == dv[k as int]);
            assert(dv.skip(k as int).skip(1) =~= dv.skip(k + 1 as int));
            assert(spec_vendor_fold(dv.skip(k as int), acc0) == spec_vendor_fold(
                dv.skip(k + 1 as int),
                info@,
            ));
        }
        k += 1;
    }
    proof {
        assert(spec_vendor_fold(lines.deep_view().skip(k as int), info@) == info@);
    }
    info
}

/// Which parts of the core data a refresh pass should update.
#[derive(Clone, Copy, Debug)]
pub struct CpuRefreshKind {
    pub cpu_usage: bool,
    pub frequency: bool,
}

/// The token at `i`, or the empty token when the line is too short.
pub open spec fn tok_or_empty(toks: Seq<Seq<u8>>, i: int) -> Seq<u8> {
    if 0 <= i < toks.len() {
        toks[i]
    } else {
        Seq::empty()
    }
}

/// One parsed row of the tick-counter table.
pub enum CpuLine {
    /// Not a counter row.
    Skip,
    /// The machine-wide aggregate row.
    Global { user: u64, nice: u64, system: u64, idle: u64, irq: u64 },
    /// A per-core row together with its core index.
    Core { index: usize, name: Vec<u8>, user: u64, nice: u64, system: u64, idle: u64, irq: u64 },
}

/// The mathematical image of a parsed counter row.
pub enum CpuLineView {
    Skip,
    Global { user: u64, nice: u64, system: u64, idle: u64, irq: u64 },
    Core { index: usize, name: Seq<u8>, user: u64, nice: u64, system: u64, idle: u64, irq: u64 },
}

impl View for CpuLine {
    type V = CpuLineView;

    open spec fn view(&self) -> CpuLineView {
        match self {
            CpuLine::Skip => CpuLineView::Skip,
            CpuLine::Global { user, nice, system, idle, irq } => CpuLineView::Global {
                user: *user,
                nice: *nice,
                system: *system,
                idle: *idle,
                irq: *irq,
            },
            CpuLine::Core { index, name, user, nice, system, idle, irq } => CpuLineView::Core {
                index: *index,
                name: name@,
                user: *user,
                nice: *nice,
                system: *system,
                idle: *idle,
                irq: *irq,
            },
        }
    }
}

/// What one whitespace-delimited row of the tick-counter table means: the
/// first token names the row (`cpu` for the aggregate, `cpu<index>` for a
/// core), the next five tokens are the user, nice, kernel, idle and
/// interrupt tick buckets, with missing or malformed fields degrading to
/// zero. Rows with any other name, or an unparsable core index, are skipped.
pub open spec fn spec_parse_cpu_line(line: Seq<u8>) -> CpuLineView {
    let toks = spec_tokens(line);
    let name = tok_or_empty(toks, 0);
    if !kw_cpu().is_prefix_of(name) {
        CpuLineView::Skip
    } else {
        let user = spec_parse_u64_or_zero(tok_or_empty(toks, 1));
        let nice = spec_parse_u64_or_zero(tok_or_empty(toks, 2));
        let system = spec_parse_u64_or_zero(tok_or_empty(toks, 3));
        let idle = spec_parse_u64_or_zero(tok_or_empty(toks, 4));
        let irq = spec_parse_u64_or_zero(tok_or_empty(toks, 5));
        if name == kw_cpu() {
            CpuLineView::Global { user, nice, system, idle, irq }
        } else {
            match spec_parse_usize(name.skip(3)) {
                Some(ix) => CpuLineView::Core { index: ix, name, user, nice, system, idle, irq },
                None => CpuLineView::Skip,
            }
        }
    }
}

pub fn parse_cpu_line(line: &[u8]) -> (r: CpuLine)
    ensures
        r@ == spec_parse_cpu_line(line@),
{
    let toks = tokenize(line);
    let ghost tv = spec_tokens(line@);
    if toks.len() == 0 {
        proof {
            assert(!kw_cpu().is_prefix_of(tok_or_empty(tv, 0)));
        }
        return CpuLine::Skip;
    }
    let name = &toks[0];
    proof {
        assert(toks.deep_view()[0] == toks@[0]@);
        assert(name@ == tok_or_empty(tv, 0));
    }
    let kwc: [u8; 3] = [99, 112, 117];
    proof {
        assert(kwc@ =~= kw_cpu());
    }
    if !crate::parse::starts_with(name.as_slice(), kwc.as_slice()) {
        return CpuLine::Skip;
    }
    let user = if toks.len() > 1 { parse_u64_or_zero(toks[1].as_slice()) } else { 0 };
    let nice = if toks.len() > 2 { parse_u64_or_zero(toks[2].as_slice()) } else { 0 };
    let system = if toks.len() > 3 { parse_u64_or_zero(toks[3].as_slice()) } else { 0 };
    let idle = if toks.len() > 4 { parse_u64_or_zero(toks[4].as_slice()) } else { 0 };
    let irq = if toks.len() > 5 { parse_u64_or_zero(toks[5].as_slice()) } else { 0 };
    proof {
        assert forall|i: int| 1 <= i < 6 && i < toks@.len() implies toks.deep_view()[i] == toks@[
            i
        ]@ by {}
        assert(user == spec_parse_u64_or_zero(tok_or_empty(tv, 1)));
        assert(nice == spec_parse_u64_or_zero(tok_or_empty(tv, 2)));
        assert(system == spec_parse_u64_or_zero(tok_or_empty(tv, 3)));
        assert(idle == spec_parse_u64_or_zero(tok_or_empty(tv, 4)));
        assert(irq == spec_parse_u64_or_zero(tok_or_empty(tv, 5)));
    }
    if bytes_eq(name.as_slice(), kwc.as_slice()) {
        return CpuLine::Global { user, nice, system, idle, irq };
    }
    let idx_part = vstd::slice::slice_subrange(name.as_slice(), 3, name.len());
    proof {
        assert(idx_part@ =~= name@.skip(3));
    }
    match parse_usize(idx_part) {
        Some(ix) => CpuLine::Core {
            index: ix,
            name: vstd::slice::slice_to_vec(name.as_slice()),
            user,
            nice,
            system,
            idle,
            irq,
        },
        None => CpuLine::Skip,
    }
}

/// How one counter row changes the manager's state: the aggregate row feeds
/// the global accumulator; on the first pass a core row appends a new Core
/// Entity carrying its warm-up sample and its identity from the vendor
/// table; on later passes a core row updates the accumulator of the entity
/// at its index, rows past the known cores being ignored.
pub open spec fn spec_apply_cpu_line(
    g: CpuUsage,
    cpus: Seq<CpuInnerView>,
    line: Seq<u8>,
    first: bool,
    v: VendorInfoView,
) -> (CpuUsage, Seq<CpuInnerView>) {
    match spec_parse_cpu_line(line) {
        CpuLineView::Skip => (g, cpus),
        CpuLineView::Global { user, nice, system, idle, irq } => (
            spec_usage_set(g, user, nice, system, idle, 0, irq, 0, 0, 0, 0),
            cpus,
        ),
        CpuLineView::Core { index, name, user, nice, system, idle, irq } => {
            if first {
                let vid = if index < v.count {
                    v.vendor_id
                } else {
                    Seq::empty()
                };
                let br = if index < v.count {
                    v.brand
                } else {
                    Seq::empty()
                };
                (
                    g,
                    cpus.push(
                        CpuInnerView {
                            usage: CpuUsage {
                                percent: 0,
                                old_values: spec_cpu_values_zero(),
                                new_values: spec_ingest(
                                    user,
                                    nice,
                                    system,
                                    idle,
                                    0,
                                    irq,
                                    0,
                                    0,
                                    0,
                                    0,
                                ),
                                total_time: 0,
                                old_total_time: 0,
                            },
                            name: name,
                            frequency: 0,
                            vendor_id: vid,
                            brand: br,
                        },
                    ),
                )
            } else if index < cpus.len() {
                (
                    g,
                    cpus.update(
                        index as int,
                        CpuInnerView {
                            usage: spec_usage_set(
                                cpus[index as int].usage,
                                user,
                                nice,
                                system,
                                idle,
                                0,
                                irq,
                                0,
                                0,
                                0,
                                0,
                            ),
                            ..cpus[index as int]
                        },
                    ),
                )
            } else {
                (g, cpus)
            }
        },
    }
}

pub open spec fn spec_apply_cpu_lines(
    g: CpuUsage,
    cpus: Seq<CpuInnerView>,
    lines: Seq<Seq<u8>>,
    first: bool,
    v: VendorInfoView,
) -> (CpuUsage, Seq<CpuInnerView>)
    decreases lines.len(),
{
    if lines.len() == 0 {
        (g, cpus)
    } else {
        let step = spec_apply_cpu_line(g, cpus, lines[0], first, v);
        spec_apply_cpu_lines(step.0, step.1, lines.skip(1), first, v)
    }
}

/// Whether enough wall time has passed since the last successful update.
pub open spec fn spec_needs_update(last_update: Option<u64>, now_ms: u64) -> bool {
    match last_update {
        None => true,
        Some(t) => now_ms >= t + MINIMUM_CPU_UPDATE_INTERVAL_MS,
    }
}

/// The Core Collection Manager: the machine-wide Usage Accumulator, the
/// ordered list of Core Entities, and the wall-clock time of the last
/// successful update, used to skip resampling too quickly.
pub struct CpusWrapper {
    pub global_cpu: CpuUsage,
    pub cpus: Vec<Cpu>,
    pub got_cpu_frequency: bool,
    /// This field is needed to prevent updating when not enough time passed
    /// since the last update.
    pub last_update: Option<u64>,
}

/// The mathematical image of the Core Collection Manager.
pub struct CpusWrapperView {
    pub global_cpu: CpuUsage,
    pub cpus: Seq<CpuInnerView>,
    pub got_cpu_frequency: bool,
    pub last_update: Option<u64>,
}

impl View for CpusWrapper {
    type V = CpusWrapperView;

    open spec fn view(&self) -> CpusWrapperView {
        CpusWrapperView {
            global_cpu: self.global_cpu,
            cpus: Seq::new(self.cpus@.len(), |i: int| self.cpus@[i]@),
            got_cpu_frequency: self.got_cpu_frequency,
            last_update: self.last_update,
        }
    }
}

/// What one refresh pass produces: nothing at all when the update is
/// rate-limited away (less than the minimum interval since the last update,
/// and not the first pass with no entities yet, and usage not requested);
/// otherwise every row of the tick-counter table is folded into the state
/// and the update time is recorded.
pub open spec fn spec_cpus_refresh(
    w: CpusWrapperView,
    stat: Seq<u8>,
    cpu_info: Seq<u8>,
    now_ms: u64,
    refresh_kind: CpuRefreshKind,
) -> CpusWrapperView {
    let need = spec_needs_update(w.last_update, now_ms);
    let first = w.cpus.len() == 0;
    if need && (first || refresh_kind.cpu_usage) {
        let folded = spec_apply_cpu_lines(
            w.global_cpu,
            w.cpus,
            spec_lines(stat),
            first,
            spec_vendor_info(cpu_info),
        );
        CpusWrapperView {
            global_cpu: folded.0,
            cpus: folded.1,
            got_cpu_frequency: w.got_cpu_frequency,
            last_update: Some(now_ms),
        }
    } else {
        w
    }
}

impl CpusWrapper {
    pub fn new() -> (r: Self)
        ensures
            r@ == (CpusWrapperView {
                global_cpu: spec_cpu_usage_zero(),
                cpus: Seq::empty(),
                got_cpu_frequency: false,
                last_update: None::<u64>,
            }),
    {
        let r = CpusWrapper {
            global_cpu: CpuUsage::default(),
            cpus: Vec::new(),
            got_cpu_frequency: false,
            last_update: None,
        };
        proof {
            assert(r@.cpus =~= Seq::<CpuInnerView>::empty());
        }
        r
    }

    /// Refreshes unless rate limiting says the sample would be too close to
    /// the previous one.
    pub fn refresh_if_needed(
        &mut self,
        stat_data: &[u8],
        cpu_data: &[u8],
        now_ms: u64,
        only_update_global_cpu: bool,
        refresh_kind: CpuRefreshKind,
    )
        ensures
            final(self)@ == spec_cpus_refresh(old(self)@, stat_data@, cpu_data@, now_ms, refresh_kind),
    {
        self.refresh(stat_data, cpu_data, now_ms, only_update_global_cpu, refresh_kind);
    }

    /// One ingestion pass over the tick-counter table. On the first pass the
    /// vendor table is resolved and one Core Entity is constructed per core
    /// row, identity assigned once; on later passes only the accumulators are
    /// fed. Two calls with no elapsed wall time between them leave the state
    /// of the second call unchanged.
    #[allow(unused_variables)]
    pub fn refresh(
        &mut self,
        stat_data: &[u8],
        cpu_data: &[u8],
        now_ms: u64,
        only_update_global_cpu: bool,
        refresh_kind: CpuRefreshKind,
    )
        ensures
            final(self)@ == spec_cpus_refresh(old(self)@, stat_data@, cpu_data@, now_ms, refresh_kind),
            !(spec_needs_update(old(self)@.last_update, now_ms) && (old(self)@.cpus.len() == 0
                || refresh_kind.cpu_usage)) ==> final(self)@ == old(self)@,
    {
        let need_cpu_usage_update = match self.last_update {
            Some(t) => match t.checked_add(MINIMUM_CPU_UPDATE_INTERVAL_MS) {
                Some(x) => now_ms >= x,
                None => false,
            },
            None => true,
        };
        let first = self.cpus.len() == 0;
        let vendors = if first {
            get_vendor_id_and_brand(cpu_data)
        } else {
            VendorInfo { count: 0, vendor_id: Vec::new(), brand: Vec::new() }
        };

        // If the last update is too close, don't update the tick counters.
        if need_cpu_usage_update && (first || refresh_kind.cpu_usage) {
            self.last_update = Some(now_ms);
            let lines = split_lines(stat_data);
            let ghost g0 = self.global_cpu;
            let ghost c0 = self@.cpus;
            let ghost vspec = spec_vendor_info(cpu_data@);
            let ghost dv = lines.deep_view();
            let ghost target = spec_apply_cpu_lines(g0, c0, dv, first, vspec);
            let mut k: usize = 0;
            proof {
                assert(dv.skip(0) =~= dv);
            }
            while k < lines.len()
                invariant
                    0 <= k <= lines@.len(),
                    dv == lines.deep_view(),
                    spec_apply_cpu_lines(self.global_cpu, self@.cpus, dv.skip(k as int), first, vspec)
                        == target,
                    first ==> vendors@ == vspec,
                    self.got_cpu_frequency == old(self).got_cpu_frequency,
                    self.last_update == Some(now_ms),
                decreases lines@.len() - k,
            {
                let ghost gk = self.global_cpu;
                let ghost ck = self@.cpus;
                let line = &lines[k];
                proof {
                    assert(dv[k as int] == lines@[k as int]@);
                }
                let parsed = parse_cpu_line(line.as_slice());
                let ghost stepped = spec_apply_cpu_line(gk, ck, dv[k as int], first, vspec);
                match parsed {
                    CpuLine::Skip => {
                        proof {
                            assert(stepped == (gk, ck));
                        }
                    },
                    CpuLine::Global { user, nice, system, idle, irq } => {
                        self.global_cpu.set(user, nice, system, idle, 0, irq, 0, 0, 0, 0);
                        proof {
                            assert(stepped == (self.global_cpu, ck));
                        }
                    },
                    CpuLine::Core { index, name, user, nice, system, idle, irq } => {
                        if first {
                            let vendor_id = if index < vendors.count {
                                vstd::slice::slice_to_vec(vendors.vendor_id.as_slice())
                            } else {
                                Vec::new()
                            };
                            let brand = if index < vendors.count {
                                vstd::slice::slice_to_vec(vendors.brand.as_slice())
                            } else {
                                Vec::new()
                            };
                            proof {
                                if !(index < vendors@.count) {
                                    assert(vendor_id@ =~= Seq::<u8>::empty());
                                    assert(brand@ =~= Seq::<u8>::empty());
                                }
                            }
                            self.cpus.push(
                                Cpu {
                                    inner: CpuInner::new_with_values(
                                        name.as_slice(),
                                        user,
                                        nice,
                                        system,
                                        idle,
                                        0,
                                        irq,
                                        0,
                                        0,
                                        0,
                                        0,
                                        0,
                                        vendor_id,
                                        brand,
                                    ),
                                },
                            );
                            proof {
                                assert(self@.cpus =~= stepped.1);
                                assert(stepped == (gk, self@.cpus));
                            }
                        } else if index < self.cpus.len() {
                            self.cpus[index].inner.set(
                                user,
                                nice,
                                system,
                                idle,
                                0,
                                irq,
                                0,
                                0,
                                0,
                                0,
                            );
                            proof {
                                assert(self@.cpus =~= stepped.1);
                                assert(stepped == (gk, self@.cpus));
                            }
                        } else {
                            proof {
                                assert(stepped == (gk, ck));
                            }
                        }
                    },
                }
                proof {
                    assert(dv.skip(k as int)[0] == dv[k as int]);
                    assert(dv.skip(k as int).skip(1) =~= dv.skip(k + 1 as int));
                    assert(spec_apply_cpu_lines(gk, ck, dv.skip(k as int), first, vspec)
                        == spec_apply_cpu_lines(
                        self.global_cpu,
                        self@.cpus,
                        dv.skip(k + 1 as int),
                        first,
                        vspec,
                    ));
                }
                k += 1;
            }
            proof {
                assert(spec_apply_cpu_lines(
                    self.global_cpu,
                    self@.cpus,
                    dv.skip(k as int),
                    first,
                    vspec,
                ) == (self.global_cpu, self@.cpus));
            }
        }

        if refresh_kind.frequency {
            // frequency acquisition is a best-effort side concern that the
            // acquisition layer does not provide here; the value keeps its
            // previous state
        }
        proof {
            assert(final(self)@ == spec_cpus_refresh(
                old(self)@,
                stat_data@,
                cpu_data@,
                now_ms,
                refresh_kind,
            ));
        }
    }

    /// The raw total-time pair of the machine-wide accumulator, for callers
    /// needing the undivided delta.
    pub fn get_global_raw_times(&self) -> (r: (u64, u64))
        ensures
            r.0 == self@.global_cpu.total_time,
            r.1 == self@.global_cpu.old_total_time,
    {
        (self.global_cpu.total_time, self.global_cpu.old_total_time)
    }

    pub fn len(&self) -> (r: usize)
        ensures
            r == self@.cpus.len(),
    {
        self.cpus.len()
    }

    pub fn is_empty(&self) -> (r: bool)
        ensures
            r == (self@.cpus.len() == 0),
    {
        self.cpus.is_empty()
    }
}

} // verus!
