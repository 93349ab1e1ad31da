use std::cell::Cell;

use pgrust::memwatchdog::{
    announce, cgroup_dir, cgroup_mem, collect, dump_targets, fire, ledger_figures, memory_dir,
    physical_memory, proc_status, read_allocator_stats, read_u64, render_armed, render_receded, request_backend_dumps,
    set_allocator_stats, tick, tick_interval, tiers, AllocatorHook, AllocatorStats, Ledger,
    LimitSource, MemoryDir, TickReport, WatchState,
};

#[test]
fn tiers_escalate_from_base() {
    assert_eq!(tiers(80), [80, 90, 95]);
    assert_eq!(tiers(90), [90, 95, 97]);
    assert_eq!(tiers(50), [50, 75, 87]);
    assert_eq!(tiers(100), [100, 100, 100]);
    assert_eq!(tiers(0), [1, 50, 75]); // clamped base
}

const STATUS: &str = "Name:\tpgrust\nVmHWM:\t  204800 kB\nVmRSS:\t  102400 kB\n\
                      RssAnon:\t   51200 kB\nRssFile:\t 1 kB\nRssShmem:\t   40960 kB\n";

#[test]
fn proc_status_parses_on_linux_shape() {
    let m = proc_status(STATUS);
    assert!(m.rss_kb > 0);
    assert_eq!((m.rss_kb, m.anon_kb, m.shmem_kb, m.hwm_kb), (102400, 51200, 40960, 204800));
    assert_eq!(proc_status("").rss_kb, 0);
}

#[test]
fn physical_memory_is_the_fallback_limit() {
    let total = physical_memory(1 << 20, 4096).expect("physical RAM readable on this platform");
    assert!(total >= 256 << 20, "implausible RAM size {total}");
    let l = collect(0, None, Some((1, None)), None, Some(total), 0);
    assert_eq!(l.source, LimitSource::Physical);
    assert_eq!(l.limit, total);
    assert_eq!(physical_memory(-1, 4096), None);
}

#[test]
fn allocator_stats_hook_roundtrip() {
    let mut h: AllocatorHook<fn() -> AllocatorStats> = AllocatorHook::new();
    assert!(read_allocator_stats(&h).is_none());
    set_allocator_stats(&mut h, || AllocatorStats { current_rss: 42, current_commit: 43 });
    let s = read_allocator_stats(&h).expect("installed");
    assert_eq!(s.current_rss, 42);
    assert_eq!(s.current_commit, 43);
}

#[test]
fn the_allocator_is_asked_at_every_read() {
    let calls = Cell::new(0usize);
    let figures = || {
        calls.set(calls.get() + 1);
        AllocatorStats { current_rss: calls.get(), current_commit: 0 }
    };
    let mut h = AllocatorHook::new();
    set_allocator_stats(&mut h, figures);
    assert_eq!(calls.get(), 0);
    assert_eq!(read_allocator_stats(&h).map(|s| s.current_rss), Some(1));
    assert_eq!(read_allocator_stats(&h).map(|s| s.current_rss), Some(2));
    assert_eq!(calls.get(), 2);
}

#[test]
fn limits_are_taken_in_order() {
    let m = proc_status(STATUS);
    let l = collect(100, Some(m), Some((7, Some(9))), None, Some(11), 0);
    assert_eq!((l.source, l.limit, l.usage), (LimitSource::Guc, 100 << 20, 102400 * 1024));
    let l = collect(0, Some(m), Some((7, Some(9))), None, Some(11), 0);
    assert_eq!((l.source, l.limit, l.usage), (LimitSource::Cgroup, 9, 7));
    let l = collect(0, Some(m), None, None, None, 0);
    assert_eq!((l.source, l.limit), (LimitSource::Unknown, 0));
}

#[test]
fn cgroup_files_are_read() {
    assert_eq!(cgroup_dir("12:cpu:/x\n0::/user.slice/a\n"), Some("user.slice/a"));
    assert_eq!(cgroup_dir("12:cpu:/x\n"), None);
    assert_eq!(read_u64(" 42\n"), Some(42));
    assert_eq!(read_u64("x"), None);
    assert_eq!(cgroup_mem(Some("5\n"), Some("max\n")), Some((5, None)));
    assert_eq!(cgroup_mem(Some("5\n"), Some("10\n")), Some((5, Some(10))));
    assert_eq!(cgroup_mem(None, Some("10\n")), None);
}

fn at(usage: u64) -> Ledger {
    let mut l = collect(1, None, None, None, None, 0);
    l.limit = 100;
    l.usage = usage;
    l
}

#[test]
fn each_tier_reports_once_and_rearms_after_receding() {
    let mut s = WatchState::new();
    let (fresh, r) = tick(&mut s, true, &at(50), 80);
    assert!(fresh && r == TickReport::Nothing);
    let (fresh, r) = tick(&mut s, true, &at(81), 80);
    assert!(!fresh);
    assert_eq!(r, TickReport::Fire { pct: 81, tier_pct: 80 });
    assert_eq!(tick(&mut s, true, &at(82), 80).1, TickReport::Nothing);
    assert_eq!(tick(&mut s, true, &at(96), 80).1, TickReport::Fire { pct: 96, tier_pct: 95 });
    assert_eq!(tick(&mut s, true, &at(76), 80).1, TickReport::Nothing);
    assert_eq!(tick(&mut s, true, &at(75), 80).1, TickReport::Receded(75));
    assert_eq!(tick(&mut s, true, &at(81), 80).1, TickReport::Fire { pct: 81, tier_pct: 80 });
    assert_eq!(tick(&mut s, false, &at(81), 80), (false, TickReport::Nothing));
    assert!(announce(&mut s, &at(1)));
}

#[test]
fn intervals_are_clamped() {
    assert_eq!(tick_interval(5), 100);
    assert_eq!(tick_interval(1000), 1000);
    assert_eq!(tick_interval(100000), 60000);
    assert_eq!(request_backend_dumps(&vec![0, -1, 0]), 2);
}

#[test]
fn reports_hold_the_figures() {
    let mut l = collect(100, Some(proc_status(STATUS)), None, None, None, 10 << 20);
    l.usage = 90 << 20;
    let s = fire(&ledger_figures(&l), 90, 80);
    assert!(s.starts_with("memory use 90% of limit crossed the 80% tier: usage=92160 kB"), "{s}");
    assert!(s.contains("limit=102400 kB") && s.contains("rss=102400 kB"), "{s}");
    assert!(s.contains("cgroup_limit=none") && s.contains("accounted_contexts=10240 kB"), "{s}");
    assert!(render_armed(LimitSource::Guc, 100 << 20, 80, 1000).contains("80"));
    assert!(render_receded(70).contains("70%"));
}

#[test]
fn every_live_process_is_asked_for_a_dump() {
    assert_eq!(dump_targets(&vec![0, 1001, 0, -7, 1003, 0]), [1, 3, 4]);
    assert!(dump_targets(&vec![0, 0]).is_empty());
    assert!(dump_targets(&vec![]).is_empty());
}

#[test]
fn the_own_directory_goes_before_the_root() {
    assert_eq!(memory_dir(true, true), Some(MemoryDir::Own));
    assert_eq!(memory_dir(false, true), Some(MemoryDir::Root));
    assert_eq!(memory_dir(false, false), None);
}
