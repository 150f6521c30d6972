use sysinfo_core::cpu::CpuRefreshKind;
use sysinfo_core::cpu::CpuUsage;
use sysinfo_core::cpu::CpuValues;
use sysinfo_core::cpu::CpusWrapper;
use sysinfo_core::cpu::get_vendor_id_and_brand;

#[test]
fn counter_snapshot_rollups() {
    let mut v = CpuValues::default();
    v.set(10, 5, 3, 2, 1, 4, 6, 7, 8, 2);
    // guest (8) is carved out of user (10), guest_nice (2) out of nice (5)
    assert_eq!(v.user, 2);
    assert_eq!(v.nice, 3);
    assert_eq!(v.work_time(), 5);
    assert_eq!(v.system_time(), 13);
    assert_eq!(v.idle_time(), 3);
    assert_eq!(v.virtual_time(), 10);
    // work + system + idle + virtual + steal
    assert_eq!(v.total_time(), 5 + 13 + 3 + 10 + 7);
}

#[test]
fn guest_larger_than_user_saturates_to_zero() {
    let mut v = CpuValues::default();
    v.set(3, 1, 0, 0, 0, 0, 0, 0, 10, 5);
    assert_eq!(v.user, 0);
    assert_eq!(v.nice, 0);
}

#[test]
fn steady_state_same_snapshot_twice() {
    let mut u = CpuUsage::default();
    u.set(344, 0, 626, 29683, 0, 37003, 0, 0, 0, 0);
    u.set(344, 0, 626, 29683, 0, 37003, 0, 0, 0, 0);
    assert_eq!(u.usage(), 0);
    assert_eq!(u.total_time, u.old_total_time);
}

#[test]
fn percentage_stays_in_range() {
    let mut u = CpuUsage::default();
    u.set(0, 0, 0, 0, 0, 0, 0, 0, 0, 0);
    assert!(u.usage() <= 100);
    u.set(u64::MAX, u64::MAX, u64::MAX, 0, 0, u64::MAX, 0, u64::MAX, 0, 0);
    assert!(u.usage() <= 100);
    u.set(5, 5, 5, 5, 5, 5, 5, 5, 5, 5);
    assert!(u.usage() <= 100);
}

#[test]
fn two_sample_scenario_gives_positive_percentage() {
    let mut u = CpuUsage::default();
    u.set(344, 0, 626, 29683, 0, 37003, 0, 0, 0, 0);
    u.set(400, 0, 700, 29800, 0, 37100, 0, 0, 0, 0);
    let pct = u.usage();
    assert!(pct > 0);
    assert!(pct <= 100);
    // deltas: user 56, system time 171; total delta 344
    assert_eq!(pct, (56 + 171) * 100 / 344);
    assert_eq!(pct, 65);
}

#[test]
fn vendor_table_parses_count_vendor_and_model() {
    let data = b"CPUs: 2\nVendor: Acme\nModel: Rocket99\n";
    let info = get_vendor_id_and_brand(data);
    assert_eq!(info.count, 2);
    assert_eq!(info.vendor_id, b"Acme".to_vec());
    assert_eq!(info.brand, b"Rocket99".to_vec());
}

#[test]
fn vendor_table_defaults_on_malformed_input() {
    let info = get_vendor_id_and_brand(b"CPUs: lots\nnonsense line\n");
    assert_eq!(info.count, 1);
    assert_eq!(info.vendor_id, Vec::<u8>::new());
    assert_eq!(info.brand, Vec::<u8>::new());
}

const STAT_FIRST: &[u8] = b"cpu  100 0 50 200 10\ncpu0 60 0 30 100 10\ncpu1 40 0 20 100 0\n";
const STAT_SECOND: &[u8] = b"cpu  120 0 60 240 10\ncpu0 70 0 35 120 10\ncpu1 50 0 25 120 0\n";
const CPU_INFO: &[u8] = b"CPUs: 2\nVendor: Acme\nModel: Rocket99\n";

fn usage_kind() -> CpuRefreshKind {
    CpuRefreshKind { cpu_usage: true, frequency: false }
}

#[test]
fn first_refresh_discovers_cores_and_identity() {
    let mut w = CpusWrapper::new();
    assert!(w.is_empty());
    w.refresh(STAT_FIRST, CPU_INFO, 1_000, false, usage_kind());
    assert_eq!(w.len(), 2);
    assert_eq!(w.cpus[0].inner.name(), &b"cpu0".to_vec());
    assert_eq!(w.cpus[1].inner.name(), &b"cpu1".to_vec());
    assert_eq!(w.cpus[0].inner.vendor_id(), &b"Acme".to_vec());
    assert_eq!(w.cpus[1].inner.brand(), &b"Rocket99".to_vec());
    assert_eq!(w.cpus[0].inner.frequency(), 0);
    // the first sample is a warm-up for each core
    assert_eq!(w.cpus[0].inner.cpu_usage(), 0);
    assert_eq!(w.cpus[1].inner.cpu_usage(), 0);
    // the global accumulator diffs against the all-zero snapshot:
    // work 100 + system 60 + idle 200 = 360 total, overhead 160
    assert_eq!(w.get_global_raw_times(), (360, 0));
    assert_eq!(w.global_cpu.usage(), 160 * 100 / 360);
}

#[test]
fn second_refresh_updates_accumulators() {
    let mut w = CpusWrapper::new();
    w.refresh(STAT_FIRST, CPU_INFO, 1_000, false, usage_kind());
    w.refresh(STAT_SECOND, CPU_INFO, 1_200, false, usage_kind());
    assert_eq!(w.len(), 2);
    // global: totals 360 -> 430, overhead delta 30
    assert_eq!(w.get_global_raw_times(), (430, 360));
    assert_eq!(w.global_cpu.usage(), 30 * 100 / 70);
    // cpu0: totals 200 -> 235, overhead delta 15
    assert_eq!(w.cpus[0].inner.cpu_usage(), 15 * 100 / 35);
}

#[test]
fn rate_limited_refresh_is_a_no_op() {
    let mut w = CpusWrapper::new();
    w.refresh(STAT_FIRST, CPU_INFO, 1_000, false, usage_kind());
    let before_global = w.get_global_raw_times();
    let before_usage = w.global_cpu.usage();
    let before_cpu0 = w.cpus[0].inner.usage.clone();
    // no wall time elapsed: the second call must not ingest the new sample
    w.refresh(STAT_SECOND, CPU_INFO, 1_000, false, usage_kind());
    assert_eq!(w.get_global_raw_times(), before_global);
    assert_eq!(w.global_cpu.usage(), before_usage);
    assert_eq!(w.cpus[0].inner.usage.percent, before_cpu0.percent);
    assert_eq!(w.cpus[0].inner.usage.total_time, before_cpu0.total_time);
    // 199 ms later is still below the minimum interval
    w.refresh(STAT_SECOND, CPU_INFO, 1_199, false, usage_kind());
    assert_eq!(w.get_global_raw_times(), before_global);
    // 200 ms later the sample goes through
    w.refresh(STAT_SECOND, CPU_INFO, 1_200, false, usage_kind());
    assert_eq!(w.get_global_raw_times(), (430, 360));
}

#[test]
fn refresh_skips_unrelated_and_malformed_lines() {
    let mut w = CpusWrapper::new();
    let stat = b"intr 12345\ncpu  10 0 10 10 0\ncpuX 1 2 3 4 5\ncpu0 10 0 10 10 0\n";
    w.refresh(stat, b"", 1_000, false, usage_kind());
    // "intr" and "cpuX" rows are ignored; "cpu" and "cpu0" are not
    assert_eq!(w.len(), 1);
    assert_eq!(w.get_global_raw_times(), (30, 0));
    // no vendor description: identity stays empty
    assert_eq!(w.cpus[0].inner.vendor_id(), &Vec::<u8>::new());
}

#[test]
fn refresh_without_usage_request_on_later_pass_is_a_no_op() {
    let mut w = CpusWrapper::new();
    let kind_no_usage = CpuRefreshKind { cpu_usage: false, frequency: false };
    // first pass always ingests, even without a usage request
    w.refresh(STAT_FIRST, CPU_INFO, 1_000, false, kind_no_usage);
    assert_eq!(w.len(), 2);
    // later pass without a usage request leaves the counters alone
    w.refresh(STAT_SECOND, CPU_INFO, 5_000, false, kind_no_usage);
    assert_eq!(w.get_global_raw_times(), (360, 0));
}

#[test]
fn accumulator_warm_up_then_identical_sample() {
    let mut u = CpuUsage::new_with_values(1, 2, 3, 4, 5, 6, 7, 8, 9, 10);
    assert_eq!(u.usage(), 0);
    u.set(1, 2, 3, 4, 5, 6, 7, 8, 9, 10);
    // identical snapshot: all deltas are zero
    assert_eq!(u.usage(), 0);
}
