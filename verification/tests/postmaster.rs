use pgrust::launch::ChildThreads;
use pgrust::wpool::{mark_parked_announce, WorkerPool};
use pgrust::backend_type::BackendType;
use pgrust::btmask::{
    btmask, btmask_add, btmask_all_except, btmask_contains, BTYPE_MASK_ALL, BTYPE_MASK_NONE,
};
use pgrust::launch_missing::{
    child_started, io_worker_started, maybe_adjust_io_workers, IoStep, LaunchAction, LaunchConfig,
    LaunchMissingBackgroundProcesses, LaunchStage,
};
use pgrust::pm_state::{
    handle_pm_child_exit_signal, handle_pm_pmsignal_signal, handle_pm_reload_request_signal,
    handle_pm_shutdown_request_signal, pm_shutdown_stall_secs, pmstate_name, publish_pm_latch,
    set_pm_latch, FastShutdown, ImmediateShutdown, NoShutdown, PMState, PendingFlags, PmChild,
    PostmasterState, SmartShutdown, StartupStatusEnum, FORCED_EXIT_AFTER_LETHAL_SECS,
    PM_SHUTDOWN_STALL_SECS, SIGINT, SIGKILL, SIGKILL_CHILDREN_AFTER_SECS, SIGQUIT, SIGTERM,
    WEDGE_MARKER,
};
use pgrust::pmsignal::{process_pm_pmsignal, PmSignals, PmsignalConfig, PmsignalStage};
use pgrust::postmaster::{
    exit_status_code, log_child_exit, pm_status_text, render_log, LogNames, PmAction, PmLog,
    PmStatus, ProcName,
};
use pgrust::reaper::{
    announce_child_exit, process_pm_child_exit, reap_one, AnnouncedChild, ChildExitQueue, ExitEvent,
    ReapedChild,
};
use pgrust::reload::{process_pm_reload_request, ReloadEvent};
use pgrust::server_lap::{
    fork_failure_message, render_forced, render_forked, render_kill, render_stall, BackendStartup,
    LoopAction, LoopStage, LoopState, ServerLoop, StartupStage, StartupStep, WaitedEvent,
    STATUS_ERROR, STATUS_OK,
};
use pgrust::serverloop::{
    canAcceptConnections, pm_shutdown_pending, shutdown_stall_armed, shutdown_stall_due, CacState,
    ConfigurePostmasterWaitSet, DetermineSleepTime, WaitRegistration, WorkerRow,
};
use pgrust::service::{pm_promote_run, pm_service_pending, ServiceAction, ServiceStage};

#[test]
fn btmask_shapes_match_c() {
    assert_eq!(BTYPE_MASK_ALL, (1 << 18) - 1);
    assert_eq!(btmask(BackendType::Invalid), 1);
    assert_eq!(btmask(BackendType::Backend), 2);
    let m = btmask_all_except(&[BackendType::Logger]);
    assert!(!btmask_contains(m, BackendType::Logger));
    assert!(btmask_contains(m, BackendType::Backend));
    assert_eq!(m.count_ones(), 17);
}

#[test]
fn masks_grow_by_the_kind_added() {
    let m = btmask_add(BTYPE_MASK_NONE, BackendType::WalSender);
    assert_eq!(m, 1 << 6);
    assert!(btmask_contains(m, BackendType::WalSender));
    assert!(!btmask_contains(m, BackendType::Backend));
    assert_eq!(btmask_add(m, BackendType::WalSender), m);
    assert_eq!(BackendType::all().len(), 18);
    assert_eq!(BackendType::Logger.index(), 17);
}

#[test]
fn pmstate_order_is_load_bearing() {
    assert!(PMState::PM_STARTUP < PMState::PM_STOP_BACKENDS);
    assert!(PMState::PM_RUN < PMState::PM_STOP_BACKENDS);
    assert!(PMState::PM_STOP_BACKENDS < PMState::PM_WAIT_BACKENDS);
    assert!(PMState::PM_WAIT_DEAD_END < PMState::PM_NO_CHILDREN);
    assert_eq!(pmstate_name(PMState::PM_WAIT_XLOG_SHUTDOWN), "PM_WAIT_XLOG_SHUTDOWN");
}

#[test]
fn shutdown_signal_handlers_set_most_immediate() {
    let mut p = PendingFlags::new();
    handle_pm_shutdown_request_signal(&mut p, SIGTERM);
    assert!(p.shutdown_request);
    assert!(!p.immediate_shutdown_request);

    handle_pm_shutdown_request_signal(&mut p, SIGINT);
    assert!(p.fast_shutdown_request);

    handle_pm_shutdown_request_signal(&mut p, SIGQUIT);
    assert!(p.immediate_shutdown_request);
}

#[test]
fn fast_shutdown_seam_raises_the_sigint_flags() {
    let mut p = PendingFlags::new();
    handle_pm_shutdown_request_signal(&mut p, SIGINT);

    assert!(p.fast_shutdown_request);
    assert!(p.shutdown_request);
    assert!(
        !p.immediate_shutdown_request,
        "a closed listener must never escalate to immediate shutdown: that \
         skips the shutdown checkpoint"
    );
}

#[test]
fn handlers_raise_their_flag_and_wake_the_loop() {
    let mut p = PendingFlags::new();
    handle_pm_reload_request_signal(&mut p, 1);
    assert!(p.reload_request && !p.latch_set);
    publish_pm_latch(&mut p);
    handle_pm_pmsignal_signal(&mut p, 10);
    assert!(p.pmsignal && p.latch_set);

    let mut q = PendingFlags::new();
    publish_pm_latch(&mut q);
    handle_pm_child_exit_signal(&mut q, 17);
    assert!(q.child_exit && q.latch_set && !q.pmsignal);

    let mut r = PendingFlags::new();
    set_pm_latch(&mut r);
    assert!(!r.latch_set);
}

#[test]
fn accept_stops_once_a_shutdown_is_pending() {
    let mut p = PendingFlags::new();
    let mut pm = PostmasterState::new();
    pm.shutdown = NoShutdown;
    pm.fatal_error = false;
    assert!(!pm_shutdown_pending(&pm, &p));

    p.shutdown_request = true;
    assert!(pm_shutdown_pending(&pm, &p));
    p.shutdown_request = false;

    pm.shutdown = FastShutdown;
    assert!(pm_shutdown_pending(&pm, &p));
    pm.shutdown = NoShutdown;

    pm.fatal_error = true;
    assert!(pm_shutdown_pending(&pm, &p));
    pm.fatal_error = false;
    assert!(!pm_shutdown_pending(&pm, &p));
}

#[test]
fn can_accept_connections_matches_c_gates() {
    let mut pm = PostmasterState::new();
    pm.pm_state = PMState::PM_STARTUP;
    pm.shutdown = NoShutdown;
    pm.fatal_error = false;
    pm.conns_allowed = false;
    assert_eq!(canAcceptConnections(&pm, BackendType::Backend), CacState::Startup);

    pm.pm_state = PMState::PM_RECOVERY;
    assert_eq!(canAcceptConnections(&pm, BackendType::Backend), CacState::NotHotStandby);

    pm.pm_state = PMState::PM_RUN;
    pm.conns_allowed = true;
    assert_eq!(canAcceptConnections(&pm, BackendType::Backend), CacState::Okay);

    // Smart shutdown gates only client backends.
    pm.conns_allowed = false;
    assert_eq!(canAcceptConnections(&pm, BackendType::Backend), CacState::Shutdown);
    assert_eq!(canAcceptConnections(&pm, BackendType::AutovacWorker), CacState::Okay);

    pm.pm_state = PMState::PM_STARTUP;
    pm.shutdown = SmartShutdown;
    assert_eq!(canAcceptConnections(&pm, BackendType::Backend), CacState::Shutdown);
}

const WATCHED_STATES: &[PMState] = &[
    PMState::PM_STOP_BACKENDS,
    PMState::PM_WAIT_BACKENDS,
    PMState::PM_WAIT_XLOG_ARCHIVAL,
    PMState::PM_WAIT_IO_WORKERS,
    PMState::PM_WAIT_DEAD_END,
    PMState::PM_WAIT_CHECKPOINTER,
];

fn due(state: PMState, elapsed: i64) -> bool {
    shutdown_stall_due(
        FastShutdown,
        false,
        false,
        state,
        1_000,
        1_000 + elapsed,
        PM_SHUTDOWN_STALL_SECS,
    )
}

#[test]
fn stall_watchdog_fires_in_every_shutdown_wait_state() {
    for &s in WATCHED_STATES {
        assert!(
            due(s, PM_SHUTDOWN_STALL_SECS),
            "watchdog must fire in {} — an unbounded wait there is an outage",
            pmstate_name(s)
        );
        assert!(!due(s, PM_SHUTDOWN_STALL_SECS - 1), "must not fire early in {}", pmstate_name(s));
    }
}

#[test]
fn stall_watchdog_never_bounds_the_shutdown_checkpoint() {
    assert!(!due(PMState::PM_WAIT_XLOG_SHUTDOWN, 100 * PM_SHUTDOWN_STALL_SECS));
}

#[test]
fn stall_watchdog_ignores_pre_stop_and_terminal_states() {
    for &s in &[
        PMState::PM_INIT,
        PMState::PM_STARTUP,
        PMState::PM_RECOVERY,
        PMState::PM_HOT_STANDBY,
        PMState::PM_RUN,
        PMState::PM_NO_CHILDREN,
    ] {
        assert!(!due(s, 100 * PM_SHUTDOWN_STALL_SECS), "must not fire in {}", pmstate_name(s));
    }
}

#[test]
fn stall_watchdog_yields_to_the_immediate_ladder_and_fires_once() {
    let long = 100 * PM_SHUTDOWN_STALL_SECS;
    let p = |shutdown, fatal, escalated, since| {
        shutdown_stall_due(
            shutdown,
            fatal,
            escalated,
            PMState::PM_WAIT_BACKENDS,
            since,
            1_000 + long,
            PM_SHUTDOWN_STALL_SECS,
        )
    };
    assert!(!p(ImmediateShutdown, false, false, 1_000));
    assert!(!p(FastShutdown, true, false, 1_000));
    assert!(!p(NoShutdown, false, false, 1_000));
    assert!(!p(FastShutdown, false, true, 1_000));
    assert!(!p(FastShutdown, false, false, 0));
    assert!(p(SmartShutdown, false, false, 1_000));
    assert!(p(FastShutdown, false, false, 1_000));
}

#[test]
fn stall_watchdog_bound_zero_restores_the_unbounded_wait() {
    assert!(!shutdown_stall_due(
        FastShutdown,
        false,
        false,
        PMState::PM_WAIT_BACKENDS,
        1_000,
        1_000 + 100 * PM_SHUTDOWN_STALL_SECS,
        0,
    ));
}

#[test]
fn stall_early_wake_never_armed_outside_a_shutdown() {
    let armed = |shutdown, state, since, bound| {
        shutdown_stall_armed(shutdown, false, false, state, since, bound)
    };

    assert!(
        !armed(NoShutdown, PMState::PM_RUN, 1_000, PM_SHUTDOWN_STALL_SECS),
        "steady-state PM_RUN must not arm the early wake — this is the 100% CPU spin"
    );

    for &s in &[
        PMState::PM_INIT,
        PMState::PM_STARTUP,
        PMState::PM_RECOVERY,
        PMState::PM_HOT_STANDBY,
        PMState::PM_RUN,
        PMState::PM_STOP_BACKENDS,
        PMState::PM_WAIT_BACKENDS,
        PMState::PM_NO_CHILDREN,
    ] {
        assert!(
            !armed(NoShutdown, s, 1_000, PM_SHUTDOWN_STALL_SECS),
            "no shutdown in progress must not arm the early wake in {}",
            pmstate_name(s)
        );
    }

    for &s in WATCHED_STATES {
        assert!(armed(FastShutdown, s, 1_000, PM_SHUTDOWN_STALL_SECS));
        assert!(due(s, PM_SHUTDOWN_STALL_SECS));
    }
    assert!(!armed(NoShutdown, PMState::PM_WAIT_BACKENDS, 1_000, PM_SHUTDOWN_STALL_SECS));
    assert!(!due(PMState::PM_RUN, 100 * PM_SHUTDOWN_STALL_SECS));
}

#[test]
fn wedge_marker_is_greppable_and_stable() {
    assert_eq!(WEDGE_MARKER, "PGRUST-SHUTDOWN-WEDGE");
}

#[test]
fn stall_bound_comes_from_the_environment() {
    assert_eq!(pm_shutdown_stall_secs(None), 60);
    assert_eq!(pm_shutdown_stall_secs(Some("120")), 120);
    assert_eq!(pm_shutdown_stall_secs(Some("0")), 0);
    assert_eq!(pm_shutdown_stall_secs(Some("junk")), 60);
}

#[test]
fn phases_are_stamped_when_they_change() {
    let mut pm = PostmasterState::new();
    assert_eq!(pm.pm_state, PMState::PM_INIT);
    pm.update_pm_state(PMState::PM_STARTUP, 100);
    assert_eq!((pm.pm_state, pm.pm_state_since), (PMState::PM_STARTUP, 100));
    pm.update_pm_state(PMState::PM_STARTUP, 200);
    assert_eq!(pm.pm_state_since, 100);
}

fn running() -> PostmasterState {
    let mut pm = PostmasterState::new();
    pm.pm_state = PMState::PM_RUN;
    pm.pm_state_since = 1_000;
    pm.conns_allowed = true;
    pm.startup_status = StartupStatusEnum::NotRunning;
    pm.start_worker_needed = false;
    pm
}

#[test]
fn sleep_is_a_minute_when_nothing_is_due() {
    let pm = running();
    let rows: Vec<WorkerRow> = Vec::new();
    let (ms, forgotten) = DetermineSleepTime(&pm, &rows, 5_000, 5_000_000_000, 60);
    assert_eq!(ms, 60_000);
    assert!(forgotten.is_empty());
}

#[test]
fn sleep_is_cut_short_by_a_kill_that_is_due() {
    let mut pm = running();
    pm.shutdown = ImmediateShutdown;
    pm.abort_start_time = 5_000;
    let rows: Vec<WorkerRow> = Vec::new();
    let (ms, _) = DetermineSleepTime(&pm, &rows, 5_002, 0, 60);
    assert_eq!(ms, (SIGKILL_CHILDREN_AFTER_SECS - 2) * 1000);
}

#[test]
fn the_wait_set_holds_the_latch_and_the_sockets() {
    let mut pm = running();
    pm.listen_sockets = vec![7, 8];
    assert_eq!(
        ConfigurePostmasterWaitSet(&pm, true),
        vec![WaitRegistration::Latch, WaitRegistration::Accept(7), WaitRegistration::Accept(8)]
    );
    assert_eq!(ConfigurePostmasterWaitSet(&pm, false), vec![WaitRegistration::Latch]);
}

fn step(
    pm: &mut PostmasterState,
    p: &mut PendingFlags,
    st: &mut LoopState,
    events: &Vec<WaitedEvent>,
    clock: i64,
) -> Vec<LoopAction> {
    ServerLoop(pm, p, st, events, clock, PM_SHUTDOWN_STALL_SECS, false)
}

#[test]
fn a_stalled_shutdown_is_escalated_once() {
    let mut pm = running();
    pm.shutdown = FastShutdown;
    pm.pm_state = PMState::PM_WAIT_BACKENDS;
    let mut p = PendingFlags::new();
    let mut st = LoopState::new();
    st.stage = LoopStage::Stall;
    let none: Vec<WaitedEvent> = Vec::new();
    let acts = step(&mut pm, &mut p, &mut st, &none, 1_100);
    assert!(acts.contains(&LoopAction::ReportStall {
        state: PMState::PM_WAIT_BACKENDS,
        stalled: 100
    }));
    assert!(pm.stall_escalated && p.immediate_shutdown_request && p.shutdown_request);

    st.stage = LoopStage::Stall;
    let again = step(&mut pm, &mut p, &mut st, &none, 1_200);
    assert!(!again.iter().any(|a| matches!(a, LoopAction::ReportStall { .. })));
}

#[test]
fn connections_are_not_accepted_during_shutdown() {
    let mut pm = running();
    let mut p = PendingFlags::new();
    let events = vec![WaitedEvent { latch_set: false, accept: true, fd: 7 }];
    let mut st = LoopState::new();
    st.stage = LoopStage::Accept;
    let acts = step(&mut pm, &mut p, &mut st, &events, 1_000);
    assert!(acts.contains(&LoopAction::AcceptConnection(7)));

    p.shutdown_request = true;
    let mut st = LoopState::new();
    st.stage = LoopStage::Accept;
    let acts = step(&mut pm, &mut p, &mut st, &events, 1_000);
    assert!(!acts.contains(&LoopAction::AcceptConnection(7)));
}

#[test]
fn survivors_are_killed_after_the_grace_period() {
    let mut pm = running();
    pm.shutdown = ImmediateShutdown;
    pm.abort_start_time = 1_000;
    let mut p = PendingFlags::new();
    let none: Vec<WaitedEvent> = Vec::new();
    let mut st = LoopState::new();
    st.stage = LoopStage::Kill;
    st.now = 1_000 + SIGKILL_CHILDREN_AFTER_SECS;
    let acts = step(&mut pm, &mut p, &mut st, &none, 1_005);
    assert!(acts.contains(&LoopAction::IssueKill(SIGKILL)));
    assert_eq!((pm.abort_start_time, pm.lethal_time), (0, 1_005));
    assert_eq!(FORCED_EXIT_AFTER_LETHAL_SECS, 8);
}

#[test]
fn log_lines_of_the_shutdown_ladder() {
    let s = render_stall(PMState::PM_WAIT_BACKENDS, 60, 2, 1);
    assert!(s.contains(WEDGE_MARKER) && s.contains("PM_WAIT_BACKENDS"), "{s}");
    assert!(render_forced(3, 1).contains('3'));
    assert!(render_kill(SIGKILL).contains("SIGKILL"));
    assert!(!fork_failure_message().is_empty());
    let f = render_forked("client backend", 1234, 9);
    assert!(f.contains("client backend") && f.contains("1234"), "{f}");
}

#[test]
fn a_refused_client_gets_a_dead_end_child() {
    let mut pm = running();
    pm.conns_allowed = false;
    let (first, end) = BackendStartup(&pm, StartupStage::Begin);
    assert_eq!(first, StartupStep::AllocDeadEnd(CacState::Shutdown));
    assert_eq!(end, None);
    pm.conns_allowed = true;
    let (first, _) = BackendStartup(&pm, StartupStage::Begin);
    assert_eq!(first, StartupStep::AssignSlot);
    let (second, end) = BackendStartup(&pm, StartupStage::Slot(None));
    assert_eq!(second, StartupStep::AllocDeadEnd(CacState::TooMany));
    assert_eq!(end, None);
    let (third, end) =
        BackendStartup(&pm, StartupStage::DeadEnd { cac: CacState::TooMany, dead_slot: None });
    assert_eq!((third, end), (StartupStep::OutOfMemory, Some(STATUS_ERROR)));
    let (done, end) = BackendStartup(
        &pm,
        StartupStage::Launched { kind: BackendType::Backend, slot: 3, pid: 1001 },
    );
    assert_eq!(
        (done, end),
        (StartupStep::Started { kind: BackendType::Backend, slot: 3, pid: 1001 }, Some(STATUS_OK))
    );
}

#[test]
fn missing_processes_are_started_once() {
    let mut pm = running();
    let cfg = LaunchConfig {
        logging_collector: false,
        binary_upgrade: false,
        autovacuuming_active: false,
        archive_mode: 0,
        sync_replication_slots: false,
        summarize_wal: false,
    };
    let (a, _) = LaunchMissingBackgroundProcesses(&pm, cfg, LaunchStage::Checkpointer);
    assert_eq!(a, LaunchAction::StartChild(BackendType::Checkpointer));
    let child = PmChild { child_slot: 4, bkend_type: BackendType::Checkpointer, pid: 1010 };
    child_started(&mut pm, BackendType::Checkpointer, Some(child));
    let (a, _) = LaunchMissingBackgroundProcesses(&pm, cfg, LaunchStage::Checkpointer);
    assert_ne!(a, LaunchAction::StartChild(BackendType::Checkpointer));
}

#[test]
fn io_workers_are_levelled() {
    let mut pm = running();
    assert_eq!(maybe_adjust_io_workers(&pm, true, 2), IoStep::Start(0));
    let w = PmChild { child_slot: 9, bkend_type: BackendType::IoWorker, pid: 1020 };
    assert!(io_worker_started(&mut pm, 0, Some(w)));
    assert_eq!(pm.io_worker_count, 1);
    assert_eq!(maybe_adjust_io_workers(&pm, true, 1), IoStep::Nothing);
    assert_eq!(maybe_adjust_io_workers(&pm, true, 0), IoStep::Stop(w));
    assert!(!io_worker_started(&mut pm, 1, None));
}

#[test]
fn exit_queue_is_first_in_first_out() {
    let mut q = ChildExitQueue::new();
    let mut p = PendingFlags::new();
    announce_child_exit(&mut q, &mut p, 1001, 0);
    announce_child_exit(&mut q, &mut p, 1002, 256);
    assert!(p.child_exit);
    let mut pool = WorkerPool::new();
    let mut threads = ChildThreads { entries: vec![(1002, 8), (1001, 7)] };
    let mut next = || reap_one(&mut q, &mut pool, &mut threads);
    assert_eq!(next(), Some(AnnouncedChild { pid: 1001, exitstatus: 0, join: Some(7) }));
    assert_eq!(next(), Some(AnnouncedChild { pid: 1002, exitstatus: 256, join: Some(8) }));
    assert_eq!(next(), None);
    assert!(threads.entries.is_empty());
}

#[test]
fn a_parked_thread_is_not_waited_for() {
    let mut q = ChildExitQueue::new();
    let mut p = PendingFlags::new();
    let mut pool = WorkerPool::new();
    let mut threads = ChildThreads { entries: vec![(1001, 7)] };
    mark_parked_announce(&mut pool, 1001);
    announce_child_exit(&mut q, &mut p, 1001, 0);
    announce_child_exit(&mut q, &mut p, 1001, 0);
    let a = reap_one(&mut q, &mut pool, &mut threads).unwrap();
    assert_eq!(a.join, None);
    assert_eq!(threads.entries, vec![(1001, 7)]);
    let a = reap_one(&mut q, &mut pool, &mut threads).unwrap();
    assert_eq!(a.join, Some(7));
}

#[test]
fn a_child_is_handled_after_its_thread_is_gone() {
    let mut pm = running();
    pm.walwriter = Some(PmChild { child_slot: 3, bkend_type: BackendType::WalWriter, pid: 1005 });
    let mut p = PendingFlags::new();
    let c = ReapedChild { pid: 1005, exitstatus: 0, join: Some(9), found: None, worker: None };
    let acts = process_pm_child_exit(&mut pm, &mut p, ExitEvent::Child(c), false, 50);
    assert_eq!(acts, vec![PmAction::JoinChild(9), PmAction::ReleaseChildSlot(3)]);
}

#[test]
fn the_lock_file_names_the_status() {
    assert_eq!(pm_status_text(PmStatus::Ready), "ready   ");
    assert_eq!(pm_status_text(PmStatus::Standby), "standby ");
}

#[test]
fn recovery_success_opens_the_server() {
    let mut pm = PostmasterState::new();
    pm.pm_state = PMState::PM_STARTUP;
    pm.startup_status = StartupStatusEnum::Running;
    pm.startup = Some(PmChild { child_slot: 1, bkend_type: BackendType::Startup, pid: 1000 });
    let mut p = PendingFlags::new();
    let c = ReapedChild { pid: 1000, exitstatus: 0, join: None, found: Some((1, BackendType::Startup)), worker: None };
    let acts = process_pm_child_exit(&mut pm, &mut p, ExitEvent::Child(c), false, 50);
    assert_eq!(acts[0], PmAction::ReleaseChildSlot(1));
    assert_eq!(pm.pm_state, PMState::PM_RUN);
    assert!(pm.conns_allowed && pm.startup.is_none());
}

#[test]
fn a_crash_is_reported_once() {
    let mut pm = running();
    pm.bgwriter = Some(PmChild { child_slot: 2, bkend_type: BackendType::BgWriter, pid: 1003 });
    let mut p = PendingFlags::new();
    let c = ReapedChild { pid: 1003, exitstatus: 9, join: None, found: Some((2, BackendType::BgWriter)), worker: None };
    let acts = process_pm_child_exit(&mut pm, &mut p, ExitEvent::Child(c), false, 50);
    assert!(acts.iter().any(|a| matches!(a, PmAction::HandleFatalError { .. })));

    let mut pm = running();
    pm.fatal_error = true;
    pm.bgwriter = Some(PmChild { child_slot: 2, bkend_type: BackendType::BgWriter, pid: 1003 });
    let acts = process_pm_child_exit(&mut pm, &mut p, ExitEvent::Child(c), false, 50);
    assert!(!acts.iter().any(|a| matches!(a, PmAction::Log(_, PmLog::ChildExit { .. }))));
}

#[test]
fn exit_statuses_are_told_apart() {
    assert_eq!(exit_status_code(0), Some(0));
    assert_eq!(exit_status_code(256), Some(1));
    assert_eq!(exit_status_code(9), None);
    let s = log_child_exit("background writer process", 1003, 256);
    assert_eq!(s, "background writer process (PID 1003) exited with exit code 1");
    let s = log_child_exit("background writer process", 1003, 9);
    assert!(s.starts_with("background writer process (PID 1003) was terminated by signal 9"), "{s}");
}

#[test]
fn log_messages_name_their_subject() {
    let names = LogNames {
        hba_file: String::from("pg_hba.conf"),
        ident_file: String::from("pg_ident.conf"),
        worker_type: String::from("parallel worker"),
        kind_desc: String::from("client backend"),
    };
    assert!(render_log(PmLog::ReadyForConnections, &names).contains("ready to accept connections"));
    assert!(render_log(PmLog::HbaNotReloaded, &names).contains("pg_hba.conf"));
    let exit = PmLog::ChildExit { name: ProcName::WalWriter, pid: 5, exitstatus: 256 };
    assert!(render_log(exit, &names).contains("(PID 5)"));
}

#[test]
fn reload_signals_the_children() {
    let pm = running();
    let mut p = PendingFlags::new();
    p.reload_request = true;
    let acts = process_pm_reload_request(&pm, &mut p, ReloadEvent::Requested);
    assert!(!p.reload_request);
    assert!(acts.contains(&PmAction::ProcessConfigFile));
    assert!(acts.iter().any(|a| matches!(a, PmAction::SignalChildren { sig: 1, .. })));

    let mut pm = running();
    pm.shutdown = FastShutdown;
    p.reload_request = true;
    let acts = process_pm_reload_request(&pm, &mut p, ReloadEvent::Requested);
    assert!(!acts.contains(&PmAction::ProcessConfigFile) && !p.reload_request);
}

#[test]
fn recovery_start_enters_recovery() {
    let mut pm = PostmasterState::new();
    pm.pm_state = PMState::PM_STARTUP;
    pm.startup_status = StartupStatusEnum::Running;
    let mut p = PendingFlags::new();
    p.pmsignal = true;
    let mut s = PmSignals {
        recovery_started: true,
        recovery_consistent: false,
        begin_hot_standby: false,
        background_worker_change: false,
        rotate_logfile: false,
        start_autovac_launcher: false,
        start_autovac_worker: false,
        start_walreceiver: false,
        xlog_is_shutdown: false,
        advance_state_machine: false,
    };
    let cfg = PmsignalConfig { archive_mode: 0, enable_hot_standby: true };
    let mut stage = PmsignalStage::Begin;
    let mut laps = 0;
    while stage != PmsignalStage::Done && laps < 50 {
        let (_, next) = process_pm_pmsignal(&mut pm, &mut p, &mut s, cfg, stage, 77);
        stage = next;
        laps += 1;
    }
    assert_eq!(pm.pm_state, PMState::PM_RECOVERY);
    assert!(!p.pmsignal);
}

#[test]
fn pending_work_is_serviced_in_order() {
    let mut pm = running();
    let mut p = PendingFlags::new();
    p.child_exit = true;
    p.pmsignal = true;
    let mut s = PmSignals {
        recovery_started: false,
        recovery_consistent: false,
        begin_hot_standby: false,
        background_worker_change: true,
        rotate_logfile: false,
        start_autovac_launcher: false,
        start_autovac_worker: false,
        start_walreceiver: false,
        xlog_is_shutdown: false,
        advance_state_machine: false,
    };
    let (a, stage) = pm_service_pending(&mut pm, &mut p, &mut s, ServiceStage::ChildExit);
    assert_eq!(a, ServiceAction::ProcessChildExit);
    let (a, _) = pm_service_pending(&mut pm, &mut p, &mut s, stage);
    assert!(matches!(a, ServiceAction::BackgroundWorkerStateChange(_)));

    let mut pm = PostmasterState::new();
    pm_promote_run(&mut pm, 9);
    assert_eq!(pm.pm_state, PMState::PM_RUN);
}
