use pgrust::backend_type::BackendType;
use pgrust::child_kinds::{child_process_kind, is_external_connection_backend, postmaster_child_name};
use pgrust::launch::{
    child_thread_stack_size, injected_fault, join_announced_child, postmaster_child_launch,
    render_start_failure, report_startup_failure_to_client, reserve_child_pid, run_child_task,
    send_again, start_below, thread_name, ChildLaunchStage, ChildLaunchStep, ChildPids, ChildTask,
    ChildThreads, ClientStep, ConnFaults, Payload, Retention, TaskAction, TaskStage,
};
use pgrust::rtgang::{
    charge_gang_worker, gang_executor_name, gang_procs_wanted, gang_thread, gang_worker_ended,
    install_if_enabled, live_gang_threads, runtime_reserved_procs, runtime_shm_busy_threads,
    spawn_gang_worker, Gang, GangAction, GangStage,
};
use pgrust::rtpool;
use pgrust::rtpool::{
    demo_stop, executor_name, may_launch_job, pool_gate, pool_procs_wanted, pooldb_armed,
    pooldb_thread_main, respawn_pool_slot, spawn_worker, start_if_enabled, try_launch_job,
    worker_exited, BodyEnd, GateStep, PoolIdent, PoolThreadAction, PoolThreadStage, RuntimeConfig,
    RuntimePool,
};
use pgrust::wpool;
use pgrust::wpool::{
    charge_standby, dispatch, flush, flush_for_crash, maintain, mark_parked_announce, may_repark,
    replenish_deficit, retire_db, spawn_standby, standby_exited, take_parked_announce, target,
    DispatchStage, DispatchStep, FlushStep, MaintainStage, MaintainStep, TaskEpochs, WorkerPool,
};

#[test]
fn child_names_match_c_table() {
    let expected = [
        "invalid",
        "backend",
        "dead-end backend",
        "autovacuum launcher",
        "autovacuum worker",
        "bgworker",
        "wal sender",
        "slot sync worker",
        "standalone backend",
        "archiver",
        "bgwriter",
        "checkpointer",
        "io_worker",
        "startup",
        "wal_receiver",
        "wal_summarizer",
        "wal_writer",
        "syslogger",
    ];
    for (i, bt) in BackendType::all().iter().enumerate() {
        assert_eq!(postmaster_child_name(*bt), expected[i], "{bt:?}");
    }
}

#[test]
fn shmem_attach_matches_c_table() {
    for bt in BackendType::all() {
        let expect = !matches!(
            bt,
            BackendType::Invalid | BackendType::StandaloneBackend | BackendType::Logger
        );
        assert_eq!(child_process_kind(bt).shmem_attach, expect, "{bt:?}");
    }
}

#[test]
fn kinds_without_a_main_function() {
    assert!(!child_process_kind(BackendType::StandaloneBackend).has_main);
    assert!(!child_process_kind(BackendType::Invalid).has_main);
    assert!(child_process_kind(BackendType::Checkpointer).has_main);
    assert!(is_external_connection_backend(BackendType::Backend));
    assert!(!is_external_connection_backend(BackendType::BgWriter));
}

#[test]
fn startup_failure_reaches_the_client_and_closes_the_socket() {
    let mut steps =
        report_startup_failure_to_client(5, "waiter wake pipe creation failed: errno 24");
    assert_eq!(steps.len(), 2);
    // The socket is closed last: otherwise the client would wait forever.
    assert!(matches!(steps.pop(), Some(ClientStep::Close(5))));
    let Some(ClientStep::Send { sock: 5, bytes: got }) = steps.pop() else {
        panic!("a client gets a message")
    };
    assert!(!got.is_empty());
    assert_eq!(got[0], b'E', "message must be an error frame: {got:?}");
    let text = String::from_utf8_lossy(&got[1..]).to_string();
    assert!(text.starts_with("waiter wake pipe creation failed: errno 24"), "{text}");
    assert_eq!(got[got.len() - 1], 0, "message must be NUL-terminated");

    // The task that failed to start tells its client and then closes.
    let t = ChildTask {
        child_type: BackendType::Backend,
        pid: 1001,
        slot: 2,
        client_sock: Some(5),
        warm: false,
        announce_installed: true,
    };
    let (acts, _) = run_child_task(t, TaskStage::ChildInit(false));
    assert_eq!(
        acts,
        vec![
            TaskAction::DiscardSignals(1001),
            TaskAction::LogStartFailure,
            TaskAction::ReportToClient(5),
            TaskAction::CloseSocket(5),
            TaskAction::Announce { pid: 1001, exitstatus: 256 },
        ]
    );
}

#[test]
fn startup_failure_with_no_client_socket_is_inert() {
    assert!(report_startup_failure_to_client(-1, "no client here").is_empty());
}

#[test]
fn partial_sends_go_on() {
    assert!(send_again(-1, true));
    assert!(!send_again(-1, false));
    let s = render_start_failure("client backend", "boom");
    assert!(s.contains("client backend") && s.contains("boom"), "{s}");
}

#[test]
fn replenish_deficit_is_the_gap_and_never_negative() {
    assert_eq!(replenish_deficit(0, 8), 8);
    assert_eq!(replenish_deficit(5, 8), 3);
    assert_eq!(replenish_deficit(8, 8), 0);
    assert_eq!(replenish_deficit(12, 8), 0);
    assert_eq!(replenish_deficit(-1, 8), 8 + 1);
    assert_eq!(replenish_deficit(0, 0), 0);
    assert_eq!(replenish_deficit(3, 0), 0);
}

#[test]
fn a_lap_spawns_at_most_target_even_if_every_standby_dies() {
    let target = 8;
    let mut population = 0;
    let mut spawns = 0;
    let mut deficit = replenish_deficit(population, target);
    while deficit > 0 {
        spawns += 1;
        population += 1;
        population -= 1;
        deficit -= 1;
    }
    assert_eq!(spawns, target);
    assert_eq!(population, 0);

    let mut laps = 0;
    while population < target && laps < 1000 {
        population += 1;
        population -= 1;
        laps += 1;
    }
    assert_eq!(laps, 1000, "the re-reading loop never converges when standbys die");
}

#[test]
fn a_real_lap_is_bounded_too() {
    let mut pool = WorkerPool::new();
    let mut stage = MaintainStage::Begin;
    let mut spawns = 0;
    loop {
        let (step, next) = maintain(&mut pool, 8, stage);
        stage = next;
        match step {
            MaintainStep::Spawn => {
                spawns += 1;
                charge_standby(&mut pool);
                standby_exited(&mut pool);
            }
            _ => {
                assert_eq!(stage, MaintainStage::Done);
                break;
            }
        }
    }
    assert_eq!(spawns, 8);
    assert_eq!(wpool::population(&pool), 0);
    assert_eq!((target(false, 8), target(true, 8)), (8, 0));
}

#[test]
fn a_shrunken_target_retires_standbys() {
    let mut pool = WorkerPool::new();
    for k in 0..3 {
        charge_standby(&mut pool);
        spawn_standby(&mut pool, 1000 + k, k as u64, true);
    }
    assert_eq!(wpool::population(&pool), 3);
    let (step, stage) = maintain(&mut pool, 1, MaintainStage::Begin);
    assert_eq!(stage, MaintainStage::Done);
    match step {
        MaintainStep::Retire(v) => assert_eq!(v.len(), 2),
        _ => panic!("two are too many"),
    }
    assert_eq!(pool.available.len(), 1);
}

#[test]
fn claims_prefer_the_same_database() {
    let mut pool = WorkerPool::new();
    let mut pids = ChildPids::new();
    charge_standby(&mut pool);
    spawn_standby(&mut pool, 1000, 7, true);
    let (step, end) = dispatch(&mut pool, &mut pids, 42, 5, DispatchStage::Begin);
    assert_eq!(end, None);
    let (sb, e) = match step {
        DispatchStep::AssignSlot { sb, e } => (sb, e),
        other => panic!("{other:?}"),
    };
    assert_eq!(sb.id, 7);
    assert!(pool.available.is_empty());
    let (step, _) =
        dispatch(&mut pool, &mut pids, 42, 5, DispatchStage::SlotAssigned { sb, e, slot: Some(3) });
    let task_pid = match step {
        DispatchStep::Send { child_slot: 3, task_pid, .. } => task_pid,
        other => panic!("{other:?}"),
    };
    let (step, end) = dispatch(
        &mut pool,
        &mut pids,
        42,
        5,
        DispatchStage::Sent { child_slot: 3, task_pid, ok: true },
    );
    assert_eq!((step, end), (DispatchStep::Dispatched(task_pid), Some(task_pid)));
    let (step, end) = dispatch(&mut pool, &mut pids, 42, 5, DispatchStage::Begin);
    assert_eq!((step, end), (DispatchStep::Miss, Some(0)));
}

#[test]
fn a_flush_fences_threads_that_are_out() {
    let mut pool = WorkerPool::new();
    charge_standby(&mut pool);
    spawn_standby(&mut pool, 1000, 7, true);
    let e = TaskEpochs { flush: pool.flush_epoch, crash: pool.crash_epoch };
    assert!(may_repark(&pool, e, true));
    assert!(!may_repark(&pool, e, false));
    assert_eq!(flush(&mut pool).len(), 1);
    assert!(!may_repark(&pool, e, true));
    let e2 = TaskEpochs { flush: pool.flush_epoch, crash: pool.crash_epoch };
    assert_eq!(flush_for_crash(&mut pool), vec![FlushStep::FenceExecutors]);
    assert!(!may_repark(&pool, e2, true));
    charge_standby(&mut pool);
    spawn_standby(&mut pool, 1001, 8, true);
    let parked = pool.available[0];
    assert_eq!(
        flush_for_crash(&mut pool),
        vec![FlushStep::Retire(parked), FlushStep::FenceExecutors]
    );
}

#[test]
fn dropping_a_database_retires_its_standbys() {
    let mut pool = WorkerPool::new();
    charge_standby(&mut pool);
    spawn_standby(&mut pool, 1000, 7, true);
    pool.available[0].db = 16384;
    assert!(retire_db(&mut pool, 5).is_empty());
    assert_eq!(retire_db(&mut pool, 16384).len(), 1);
    assert!(pool.available.is_empty());
}

#[test]
fn parked_announcements_are_taken_once() {
    let mut pool = WorkerPool::new();
    mark_parked_announce(&mut pool, 1005);
    assert!(take_parked_announce(&mut pool, 1005));
    assert!(!take_parked_announce(&mut pool, 1005));
}

#[test]
fn child_pids_never_collide_with_the_supervisor() {
    let mut c = ChildPids::new();
    assert!(reserve_child_pid(&mut c, 42) >= 1000);
    let first = reserve_child_pid(&mut c, 1002);
    let second = reserve_child_pid(&mut c, 1002);
    assert_ne!(first, 1002);
    assert_ne!(second, 1002);
    assert_ne!(first, second);

    let mut c = ChildPids::new();
    start_below(&mut c, Some("2"), 5000);
    assert_eq!(reserve_child_pid(&mut c, 5000), 4998);
    assert_eq!(reserve_child_pid(&mut c, 5000), 4999);
    assert_eq!(reserve_child_pid(&mut c, 5000), 5001);
}

#[test]
fn threads_are_found_by_their_pid() {
    let mut t = ChildThreads::new();
    t.register(1001, 11);
    t.register(1002, 12);
    t.rekey_child_thread(1001, 1003);
    assert_eq!(t.remove(1001), None);
    assert_eq!(join_announced_child(&mut t, true, 1003), None);
    assert_eq!(join_announced_child(&mut t, false, 1003), Some(11));
    assert_eq!(t.remove(1002), Some(12));
}

#[test]
fn every_nth_connection_can_be_failed() {
    let mut f = ConnFaults::new(Some("2"));
    assert!(!injected_fault(&mut f, BackendType::Backend));
    assert!(!injected_fault(&mut f, BackendType::BgWriter));
    assert!(injected_fault(&mut f, BackendType::Backend));
    let mut none = ConnFaults::new(None);
    assert!(!injected_fault(&mut none, BackendType::Backend));
}

#[test]
fn stack_sizes_have_a_floor() {
    assert_eq!(child_thread_stack_size(8 << 20, 100, None), 8 << 20);
    assert_eq!(child_thread_stack_size(1 << 20, 100, None), 2 << 20);
    assert_eq!(child_thread_stack_size(0, 0, None), 16 << 20);
    assert_eq!(child_thread_stack_size(8 << 20, 0, Some("67108864")), 64 << 20);
    assert_eq!(thread_name(BackendType::BgWriter, 1007), "pg:bgwriter:1007");
}

#[test]
fn launching_falls_back_to_a_thread() {
    let mut pids = ChildPids::new();
    let mut threads = ChildThreads::new();
    let (step, end) = postmaster_child_launch(
        BackendType::Backend,
        true,
        &mut pids,
        &mut threads,
        42,
        ChildLaunchStage::Begin,
    );
    assert_eq!((step, end), (ChildLaunchStep::TryJob, None));
    let (step, _) = postmaster_child_launch(
        BackendType::Backend,
        true,
        &mut pids,
        &mut threads,
        42,
        ChildLaunchStage::JobTried(None),
    );
    let pid = match step {
        ChildLaunchStep::Spawn { pid, stamp } => {
            assert!(stamp);
            pid
        }
        other => panic!("{other:?}"),
    };
    let (step, end) = postmaster_child_launch(
        BackendType::Backend,
        true,
        &mut pids,
        &mut threads,
        42,
        ChildLaunchStage::Spawned { pid, handle: Some(77) },
    );
    assert_eq!((step, end), (ChildLaunchStep::Launched(pid), Some(pid)));
    assert_eq!(threads.remove(pid), Some(77));
    let (step, end) = postmaster_child_launch(
        BackendType::Backend,
        true,
        &mut pids,
        &mut threads,
        42,
        ChildLaunchStage::Spawned { pid, handle: None },
    );
    assert!(matches!(step, ChildLaunchStep::Failed(_)));
    assert_eq!(end, Some(-1));
}

#[test]
fn launch_backend_thread_runs_child_init_in_order() {
    let mut pids = ChildPids::new();
    let mut threads = ChildThreads::new();
    let mut launch = |stage| {
        postmaster_child_launch(BackendType::Backend, true, &mut pids, &mut threads, 42, stage)
    };
    let (step, _) = launch(ChildLaunchStage::JobTried(None));
    let pid = match step {
        ChildLaunchStep::Spawn { pid, stamp: true } => pid,
        other => panic!("{other:?}"),
    };
    assert!(pid >= 1000, "synthetic pid, got {pid}");
    let (_, end) = launch(ChildLaunchStage::Spawned { pid, handle: Some(1) });
    assert_eq!(end, Some(pid));

    let t = ChildTask {
        child_type: BackendType::Backend,
        pid,
        slot: 7,
        client_sock: Some(33),
        warm: false,
        announce_installed: true,
    };
    let (acts, stage) = run_child_task(t, TaskStage::Begin);
    assert_eq!(acts, vec![TaskAction::StampConnection, TaskAction::InitChild(pid)]);
    assert_eq!(stage, TaskStage::ChildInit(true));
    let (acts, stage) = run_child_task(t, stage);
    assert_eq!(acts, vec![TaskAction::SetSigquitHandler, TaskAction::AdoptSignals(pid)]);
    assert_eq!(stage, TaskStage::Ready);
    let (acts, stage) = run_child_task(t, stage);
    assert_eq!(
        acts,
        vec![TaskAction::SetChildSlot(7), TaskAction::SetClientSocket(33), TaskAction::RunMain]
    );
    assert!(matches!(stage, TaskStage::MainEnded { .. }));

    let ended = TaskStage::MainEnded { payload: Payload::ProcExit(0), callbacks_pending: true };
    let (acts, stage) = run_child_task(t, ended);
    assert_eq!(acts, vec![TaskAction::RunDeferredCallbacks(0)]);
    let (acts, _) = run_child_task(t, stage);
    assert_eq!(acts, vec![TaskAction::CloseSocket(33), TaskAction::AskRetention]);
}

#[test]
fn a_kept_thread_is_only_rekeyed() {
    let t = ChildTask {
        child_type: BackendType::BgWorker,
        pid: 1001,
        slot: 2,
        client_sock: None,
        warm: true,
        announce_installed: true,
    };
    let (acts, stage) = run_child_task(t, TaskStage::Begin);
    assert_eq!(
        acts,
        vec![
            TaskAction::InitProcessGlobals(1001),
            TaskAction::RekeyWakeups,
            TaskAction::AdoptSignals(1001),
        ]
    );
    assert_eq!(stage, TaskStage::Ready);
    let (acts, _) = run_child_task(t, stage);
    assert_eq!(acts, vec![TaskAction::SetChildSlot(2), TaskAction::RunMain]);
}

#[test]
fn a_parked_exit_is_marked_before_it_is_announced() {
    let t = ChildTask {
        child_type: BackendType::BgWorker,
        pid: 1001,
        slot: 2,
        client_sock: None,
        warm: true,
        announce_installed: true,
    };
    let retain = Retention { parking: true, proc_retained: true, sinval_retained: true };
    let (acts, stage) = run_child_task(
        t,
        TaskStage::Finish { payload: Payload::ProcExit(0), clean: true, retain },
    );
    assert_eq!(stage, TaskStage::Done);
    let marked = acts.iter().position(|a| *a == TaskAction::MarkParked(1001)).expect("marked");
    let announced = acts
        .iter()
        .position(|a| matches!(a, TaskAction::Announce { pid: 1001, exitstatus: 0 }))
        .expect("announced");
    assert!(marked < announced);
}

fn cfg(workers: u64) -> RuntimeConfig {
    RuntimeConfig {
        runtime_enabled: true,
        pool_binding_enabled: true,
        pooldb_enabled: true,
        workers,
        standbys: 2,
    }
}

#[test]
fn nothing_is_reserved_without_the_runtime() {
    let mut off = cfg(4);
    off.runtime_enabled = false;
    assert_eq!(runtime_reserved_procs(off, None), 0);
    assert!(!pooldb_armed(off));
    assert_eq!(gang_procs_wanted(cfg(4), None), 4);
    assert_eq!(gang_procs_wanted(cfg(4), Some(" 7 ")), 7);
    assert_eq!(gang_procs_wanted(cfg(4), Some("-3")), 0);
    assert_eq!(gang_procs_wanted(cfg(4), Some("9999")), 1024);
    assert_eq!(pool_procs_wanted(cfg(4)), 6);
    assert_eq!(pool_procs_wanted(cfg(4000)), 2048);
    assert_eq!(runtime_reserved_procs(cfg(4), None), 10);
}

#[test]
fn the_runtime_pool_counts_its_threads() {
    let mut pool = RuntimePool::new();
    assert_eq!(rtpool::population(&pool), 0);
    assert_eq!(start_if_enabled(&mut pool, cfg(2)).map(|v| v.len()), Some(8));
    assert_eq!(start_if_enabled(&mut pool, cfg(2)), Some(Vec::new()));
    spawn_worker(&mut pool, true);
    assert_eq!(rtpool::population(&pool), 1);
    spawn_worker(&mut pool, false);
    assert_eq!(rtpool::population(&pool), 1);
    worker_exited(&mut pool);
    assert_eq!(rtpool::population(&pool), 0);
    assert!(respawn_pool_slot(&pool, false));
    demo_stop(&mut pool);
    assert!(pool.stop_requested);
    assert_eq!(executor_name(3), "runtime pool executor 3");
}

#[test]
fn the_fence_retires_an_identity() {
    assert_eq!(pool_gate(PoolIdent::Ready(3), 3), GateStep::Serve);
    assert_eq!(pool_gate(PoolIdent::Ready(3), 4), GateStep::RetireRaw);
    assert_eq!(pool_gate(PoolIdent::Absent, 4), GateStep::Complete);
    assert_eq!(pool_gate(PoolIdent::Poisoned, 4), GateStep::Refuse);
    let acts = pooldb_thread_main(PoolThreadStage::Ended {
        end: BodyEnd::RetireRaw,
        ident: PoolIdent::Ready(3),
        fence: 4,
    });
    assert!(!acts.iter().any(|a| matches!(a, PoolThreadAction::RunDeferredCallbacks(_))));
    assert!(acts.contains(&PoolThreadAction::Respawn));
}

#[test]
fn jobs_are_for_background_kinds() {
    let mut pids = ChildPids::new();
    assert!(!may_launch_job(BackendType::Backend, true));
    assert!(!may_launch_job(BackendType::BgWriter, false));
    let job = try_launch_job(BackendType::Backend, true, true, true, &mut pids, 42);
    assert_eq!(job, None);
}

#[test]
fn the_gang_counts_its_threads() {
    let mut g = Gang::new();
    assert_eq!(live_gang_threads(&g), 0);
    assert_eq!(install_if_enabled(&mut g, 0), None);
    assert_eq!(install_if_enabled(&mut g, 3), Some(3));
    charge_gang_worker(&mut g);
    assert_eq!(live_gang_threads(&g), 1);
    spawn_gang_worker(&mut g, false);
    assert_eq!(live_gang_threads(&g), 0);
    charge_gang_worker(&mut g);
    spawn_gang_worker(&mut g, true);
    assert_eq!(runtime_shm_busy_threads(&g, 4), 5);
    assert!(gang_worker_ended(&mut g, true));
    assert_eq!(live_gang_threads(&g), 0);
    assert_eq!(gang_executor_name(2), "runtime standing executor 2");
    let acts = gang_thread(GangStage::Ended(Some(Payload::ProcExit(1))));
    assert!(acts.contains(&GangAction::NoteWorkerExit));
}
