use std::collections::HashMap;

use sysinfo_core::process::compute_cpu_usage;
use sysinfo_core::process::parse_memory;
use sysinfo_core::process::parse_open_files_limit;
use sysinfo_core::process::parse_stat_file;
use sysinfo_core::process::refresh_procs;
use sysinfo_core::process::set_time;
use sysinfo_core::process::start_time_raw;
use sysinfo_core::process::DiskUsage;
use sysinfo_core::process::Gid;
use sysinfo_core::process::Process;
use sysinfo_core::process::ProcessInner;
use sysinfo_core::process::ProcessStatus;
use sysinfo_core::process::ProcessesToUpdate;
use sysinfo_core::process::ThreadKind;
use sysinfo_core::process::Uid;

#[test]
fn first_sample_is_a_warm_up() {
    let mut p = ProcessInner::new(7);
    assert_eq!(p.cpu_usage(), 0);
    set_time(&mut p, 100, 0);
    compute_cpu_usage(&mut p, 1_000, 400);
    // one sample cannot yield a rate: the default stays
    assert_eq!(p.cpu_usage(), 0);
    set_time(&mut p, 200, 0);
    compute_cpu_usage(&mut p, 1_000, 400);
    // delta 100 over 1000 elapsed units
    assert_eq!(p.cpu_usage(), 10);
}

#[test]
fn process_usage_clamps_to_the_core_ceiling() {
    let mut p = ProcessInner::new(7);
    set_time(&mut p, 1_000, 0);
    set_time(&mut p, 90_000, 0);
    compute_cpu_usage(&mut p, 10, 400);
    // 89_000 * 100 / 10 would far exceed the ceiling
    assert_eq!(p.cpu_usage(), 400);
}

#[test]
fn time_pair_shifts_as_a_unit() {
    let mut p = ProcessInner::new(1);
    set_time(&mut p, 10, 20);
    assert_eq!((p.old_utime, p.old_stime, p.utime, p.stime), (0, 0, 10, 20));
    set_time(&mut p, 30, 40);
    assert_eq!((p.old_utime, p.old_stime, p.utime, p.stime), (10, 20, 30, 40));
}

#[test]
fn disk_usage_is_a_pure_delta() {
    let mut p = ProcessInner::new(1);
    p.old_read_bytes = 100;
    p.read_bytes = 350;
    p.old_written_bytes = 900;
    p.written_bytes = 700;  // counter reset: delta saturates to zero
    let d = p.disk_usage();
    assert_eq!(
        d,
        DiskUsage {
            read_bytes: 250,
            total_read_bytes: 350,
            written_bytes: 0,
            total_written_bytes: 700,
        }
    );
    // idempotent: no state transition happened
    assert_eq!(p.disk_usage(), d);
}

#[test]
fn status_from_characters() {
    assert_eq!(ProcessStatus::from('R'), ProcessStatus::Run);
    assert_eq!(ProcessStatus::from('S'), ProcessStatus::Sleep);
    assert_eq!(ProcessStatus::from('B'), ProcessStatus::Sleep);
    assert_eq!(ProcessStatus::from('Z'), ProcessStatus::Zombie);
    assert_eq!(ProcessStatus::from('T'), ProcessStatus::Stop);
    assert_eq!(ProcessStatus::from('q'), ProcessStatus::Unknown(113));
    assert_eq!(ProcessStatus::from('R').as_str(), "Runnable");
    assert_eq!(ProcessStatus::from('Z').as_str(), "Zombie");
    assert_eq!(ProcessStatus::Unknown(42).as_str(), "Unknown");
}

#[test]
fn liveness_and_updated_flags() {
    let mut p = ProcessInner::new(3);
    assert!(p.still_exists());
    assert!(p.updated);
    assert!(p.switch_updated());
    assert!(!p.switch_updated());
    p.set_nonexistent();
    assert!(!p.still_exists());
}

#[test]
fn memory_field_scales_exactly() {
    assert_eq!(parse_memory(b"512 MB"), 512 * 1024 * 1024);
    assert_eq!(parse_memory(b"1 KB"), 1024);
    assert_eq!(parse_memory(b"3 GB"), 3 * 1024 * 1024 * 1024);
    assert_eq!(parse_memory(b"7 B"), 7);
    assert_eq!(parse_memory(b"  23 MB  "), 23 * 1024 * 1024);
}

#[test]
fn unknown_memory_suffix_stays_unscaled() {
    assert_eq!(parse_memory(b"12 XB"), 12);
    assert_eq!(parse_memory(b"42"), 42);
    assert_eq!(parse_memory(b""), 0);
    assert_eq!(parse_memory(b"junk MB"), 0);
}

/// One fixed-column enumeration row, as the acquisition layer lays it out.
fn make_row(
    pid: &str,
    euid: &str,
    egid: &str,
    ens: &str,
    stat: &str,
    cpu: &str,
    affinity: &str,
    time: &str,
    mem: &str,
    name: &str,
) -> String {
    format!(
        "{:<6}{:<6}{:<6}{:<6}{:<6}{:<6}{:<11}{:<11} {:<8}{}",
        pid, euid, egid, ens, stat, cpu, affinity, time, mem, name
    )
}

fn make_table(rows: &[String]) -> Vec<u8> {
    let header = make_row(
        "PID", "EUID", "EGID", "ENS", "STAT", "CPU", "AFFINITY", "TIME", "MEM", "NAME",
    );
    let mut text = String::new();
    text.push_str(&header);
    for r in rows {
        text.push('\n');
        text.push_str(r);
    }
    text.push('\n');
    text.into_bytes()
}

#[test]
fn refresh_inserts_and_updates_entities() {
    let mut procs: HashMap<usize, Process> = HashMap::new();
    let table = make_table(&[
        make_row("1", "0", "0", "1", "UR", "#3", "", "00:00:01.36", "1 MB", "/bin/init"),
        make_row("4", "10", "20", "1", "RR+", "#2", "", "00:01:00.00", "23 KB", "/bin/nulld"),
    ]);
    let n = refresh_procs(&mut procs, &table, 0, ProcessesToUpdate::All);
    assert_eq!(n, 2);
    assert_eq!(procs.len(), 2);

    let p1 = &procs.get(&1).unwrap().inner;
    assert_eq!(p1.name(), &b"/bin/init".to_vec());
    assert_eq!(p1.memory(), 1024 * 1024);
    assert_eq!(p1.virtual_memory(), 1024 * 1024);
    assert_eq!(p1.status(), ProcessStatus::Run);
    assert_eq!(p1.thread_kind(), Some(ThreadKind::Userland));
    assert_eq!(p1.user_id(), Some(&Uid(0)));
    assert_eq!(p1.group_id(), Some(Gid(0)));
    // 1 second and 36 centiseconds, in milliseconds
    assert_eq!((p1.utime, p1.stime), (1_360, 0));
    assert_eq!((p1.old_utime, p1.old_stime), (0, 0));

    let p4 = &procs.get(&4).unwrap().inner;
    assert_eq!(p4.status(), ProcessStatus::Run);
    assert_eq!(p4.thread_kind(), Some(ThreadKind::Kernel));
    assert_eq!(p4.user_id(), Some(&Uid(10)));
    assert_eq!(p4.effective_group_id(), Some(Gid(20)));
    assert_eq!(p4.memory(), 23 * 1024);
    assert_eq!(p4.utime, 60_000);

    // the caller's eviction sweep clears the touched flags...
    assert!(procs.get_mut(&1).unwrap().inner.switch_updated());
    assert!(procs.get_mut(&4).unwrap().inner.switch_updated());

    // a second pass shifts each differential pair as a unit
    let table2 = make_table(&[make_row(
        "1", "0", "0", "1", "UR", "#3", "", "00:00:02.00", "1 MB", "/bin/init",
    )]);
    let n2 = refresh_procs(&mut procs, &table2, 0, ProcessesToUpdate::All);
    assert_eq!(n2, 1);
    assert_eq!(procs.len(), 2);  // nothing is ever deleted
    let p1 = &procs.get(&1).unwrap().inner;
    assert_eq!((p1.old_utime, p1.utime), (1_360, 2_000));
    // ...and the refresh re-marks exactly the entities its rows touched, so
    // the next sweep flags only what really stopped enumerating
    assert!(p1.updated);
    assert!(!procs.get(&4).unwrap().inner.updated);
}

#[test]
fn refresh_respects_the_selector() {
    let mut procs: HashMap<usize, Process> = HashMap::new();
    let table = make_table(&[
        make_row("1", "0", "0", "1", "UR", "#3", "", "00:00:01.00", "1 MB", "/bin/init"),
        make_row("4", "0", "0", "1", "UR", "#2", "", "00:00:01.00", "1 MB", "/bin/nulld"),
    ]);
    let wanted = [4usize];
    let n = refresh_procs(&mut procs, &table, 0, ProcessesToUpdate::Pids(&wanted));
    assert_eq!(n, 1);
    assert!(!procs.contains_key(&1));
    assert!(procs.contains_key(&4));
}

#[test]
fn refresh_skips_malformed_rows() {
    let mut procs: HashMap<usize, Process> = HashMap::new();
    let table = make_table(&[
        "short row".to_string(),
        make_row("zzz", "0", "0", "1", "UR", "#3", "", "00:00:01.00", "1 MB", "x"),
        make_row("9", "0", "0", "1", "", "", "", "00:00:00.00", "0 B", ""),
    ]);
    let n = refresh_procs(&mut procs, &table, 0, ProcessesToUpdate::All);
    assert_eq!(n, 1);
    let p9 = &procs.get(&9).unwrap().inner;
    // empty status field degrades to the unknown status, kernel kind
    assert_eq!(p9.status(), ProcessStatus::Unknown(0));
    assert_eq!(p9.thread_kind(), Some(ThreadKind::Kernel));
    assert_eq!(p9.memory(), 0);
}

#[test]
fn refresh_on_empty_enumeration_touches_nothing() {
    let mut procs: HashMap<usize, Process> = HashMap::new();
    assert_eq!(refresh_procs(&mut procs, b"", 0, ProcessesToUpdate::All), 0);
    assert!(procs.is_empty());
}

#[test]
fn stat_file_splits_around_the_command_name() {
    let parts = parse_stat_file(b"42 (my (weird) prog) R 1 2 3").unwrap();
    assert_eq!(parts.short_exe, b"my (weird) prog".to_vec());
    assert_eq!(
        parts.str_parts,
        vec![b"42".to_vec(), b"R".to_vec(), b"1".to_vec(), b"2".to_vec(), b"3".to_vec()]
    );
    // no space, or no closing parenthesis: the file does not split
    assert!(parse_stat_file(b"oneword").is_none());
    assert!(parse_stat_file(b"42 no paren here").is_none());
}

#[test]
fn start_time_comes_from_its_fixed_field() {
    let mut text = b"9 (x)".to_vec();
    for _ in 0..19 {
        text.extend_from_slice(b" t");
    }
    text.extend_from_slice(b" 777");
    let parts = parse_stat_file(&text).unwrap();
    assert_eq!(parts.str_parts.len(), 21);
    assert_eq!(start_time_raw(&parts), 777);

    // too few fields: the raw start time degrades to zero
    let short = parse_stat_file(b"9 (x) R 1").unwrap();
    assert_eq!(start_time_raw(&short), 0);
}

#[test]
fn open_files_limit_comes_from_the_first_complete_line() {
    let content = b"Max cpu time unlimited\nMax open files 1024 hard\nMax locks 8\n";
    assert_eq!(parse_open_files_limit(content), Some(1024));
    assert_eq!(parse_open_files_limit(b"nothing relevant\n"), None);
    // a matching line without a value is passed over
    assert_eq!(parse_open_files_limit(b"Max open files \nMax open files 7\n"), Some(7));
    // a matching line with a malformed value yields nothing
    assert_eq!(parse_open_files_limit(b"Max open files soft\n"), None);
}
