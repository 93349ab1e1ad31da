use pgrust::launch::ChildThreads;
use pgrust::memwatchdog::{log_line, render_dumps_requested};
use pgrust::rtpool::{
    pool_identity_complete, rtpool_start_for_demo, spawn_dispatcher, DispatcherAction, IdentStage,
    IdentStep, PoolIdent, RuntimePool,
};
use pgrust::serverloop::{pm_wait_for_events, poll_timeout, ProbedListener, WaitRegistration};
use pgrust::standby::{standby_loop, stuck_child_take_once, StandbyAction, StandbyEvent};
use pgrust::wpool::{
    flush, flush_for_crash, render_dispatch_panic, StandbyThread, TaskEpochs, WorkerPool,
};

fn thread() -> StandbyThread {
    StandbyThread { thread_key: 100, parked_crash_epoch: 0 }
}

#[test]
fn a_task_runs_under_its_own_pid() {
    let mut th = thread();
    let mut threads = ChildThreads { entries: vec![(99, 1), (100, 2)] };
    let mut pool = WorkerPool::new();
    let (acts, e) = standby_loop(&mut th, &mut threads, &mut pool, StandbyEvent::Task(200));
    assert_eq!(acts, vec![StandbyAction::BeginTask, StandbyAction::RunTask(200)]);
    assert_eq!(e, TaskEpochs { flush: pool.flush_epoch, crash: pool.crash_epoch });
    assert_eq!(th.thread_key, 200);
    assert_eq!(threads.entries, vec![(99, 1), (200, 2)]);
}

#[test]
fn a_kept_identity_parks_again() {
    let mut th = thread();
    let mut threads = ChildThreads { entries: vec![(100, 2)] };
    let mut pool = WorkerPool::new();
    let (_, e) = standby_loop(&mut th, &mut threads, &mut pool, StandbyEvent::Task(200));
    let ended = StandbyEvent::TaskEnded { e, parked: true, have_proc: true };
    let (acts, _) = standby_loop(&mut th, &mut threads, &mut pool, ended);
    assert_eq!(acts, vec![StandbyAction::ResetForPark]);
    assert_eq!(pool.available.len(), 0);
    let ready = StandbyEvent::ReadyToPark { e, have_proc: true, retained_db: 5, id: 7 };
    let (acts, _) = standby_loop(&mut th, &mut threads, &mut pool, ready);
    assert_eq!(acts, vec![StandbyAction::Wait]);
    assert_eq!(pool.available.len(), 1);
    assert_eq!(pool.available[0].pid, 200);
    assert_eq!(pool.available[0].db, 5);
    assert_eq!(pool.available[0].id, 7);
    assert_eq!(th.parked_crash_epoch, e.crash);
}

#[test]
fn a_flush_during_the_task_ends_the_thread() {
    let mut th = thread();
    let mut threads = ChildThreads { entries: vec![(100, 2)] };
    let mut pool = WorkerPool::new();
    let (_, e) = standby_loop(&mut th, &mut threads, &mut pool, StandbyEvent::Task(200));
    let _ = flush(&mut pool);
    let ended = StandbyEvent::TaskEnded { e, parked: true, have_proc: true };
    let (acts, _) = standby_loop(&mut th, &mut threads, &mut pool, ended);
    assert_eq!(
        acts,
        vec![StandbyAction::ReleaseShared, StandbyAction::ClearIdentity, StandbyAction::End]
    );
}

#[test]
fn a_crash_before_parking_leaves_shared_memory_alone() {
    let mut th = thread();
    let mut threads = ChildThreads { entries: vec![(100, 2)] };
    let mut pool = WorkerPool::new();
    let (_, e) = standby_loop(&mut th, &mut threads, &mut pool, StandbyEvent::Task(200));
    let _ = flush_for_crash(&mut pool);
    let ready = StandbyEvent::ReadyToPark { e, have_proc: true, retained_db: 5, id: 7 };
    let (acts, _) = standby_loop(&mut th, &mut threads, &mut pool, ready);
    assert_eq!(acts, vec![StandbyAction::ClearIdentity, StandbyAction::End]);
    assert_eq!(pool.available.len(), 0);
}

#[test]
fn an_unparked_thread_rotates() {
    let mut th = thread();
    let mut threads = ChildThreads { entries: vec![(100, 2)] };
    let mut pool = WorkerPool::new();
    let e = TaskEpochs { flush: pool.flush_epoch, crash: pool.crash_epoch };
    let ended = StandbyEvent::TaskEnded { e, parked: false, have_proc: false };
    let (acts, _) = standby_loop(&mut th, &mut threads, &mut pool, ended);
    assert_eq!(acts, vec![StandbyAction::ClearIdentity, StandbyAction::End]);
    assert_eq!(threads.entries, vec![(100, 2)]);
}

#[test]
fn a_retired_thread_releases_then_acknowledges_then_unlists() {
    let mut th = thread();
    let mut threads = ChildThreads { entries: vec![(100, 2), (101, 3), (102, 4)] };
    let mut pool = WorkerPool::new();
    th.parked_crash_epoch = pool.crash_epoch;
    let retired = StandbyEvent::Retired { have_proc: true, stuck: false };
    let (acts, _) = standby_loop(&mut th, &mut threads, &mut pool, retired);
    assert_eq!(
        acts,
        vec![
            StandbyAction::ReleaseShared,
            StandbyAction::ClearIdentity,
            StandbyAction::Acknowledge
        ]
    );
    assert_eq!(threads.entries.len(), 3);
    let (acts, _) = standby_loop(&mut th, &mut threads, &mut pool, StandbyEvent::Acknowledged);
    assert_eq!(acts, vec![StandbyAction::End]);
    assert_eq!(threads.entries, vec![(102, 4), (101, 3)]);
}

#[test]
fn only_one_standby_gets_stuck() {
    let mut taken = false;
    assert!(!stuck_child_take_once(false, &mut taken));
    assert!(stuck_child_take_once(true, &mut taken));
    assert!(!stuck_child_take_once(true, &mut taken));
    let mut th = thread();
    let mut threads = ChildThreads { entries: vec![] };
    let mut pool = WorkerPool::new();
    let stuck = StandbyEvent::Retired { have_proc: true, stuck: true };
    let (acts, _) = standby_loop(&mut th, &mut threads, &mut pool, stuck);
    assert_eq!(acts, vec![StandbyAction::ParkForever]);
}

#[test]
fn dispatcher_takes_over_the_settings_first() {
    assert_eq!(
        spawn_dispatcher(true, None),
        vec![
            DispatcherAction::ApplyInherited,
            DispatcherAction::SetStackBase,
            DispatcherAction::BindBase
        ]
    );
    assert_eq!(
        spawn_dispatcher(false, None),
        vec![
            DispatcherAction::ApplyInherited,
            DispatcherAction::SetStackBase,
            DispatcherAction::RestoreSettings
        ]
    );
    assert_eq!(spawn_dispatcher(false, Some(true)), vec![DispatcherAction::RunBody]);
    assert_eq!(
        spawn_dispatcher(true, Some(false)),
        vec![DispatcherAction::Fail("bgjobs dispatcher GUC base bind failed")]
    );
    assert_eq!(
        spawn_dispatcher(false, Some(false)),
        vec![DispatcherAction::Fail("bgjobs dispatcher GUC prelude failed")]
    );
}

#[test]
fn pool_identity_is_claimed_once_per_epoch() {
    let mut ident = PoolIdent::Absent;
    let busy = IdentStage::Begin { crash_pending: true, fence: 3 };
    assert_eq!(pool_identity_complete(&mut ident, busy), IdentStep::NotNow);
    assert_eq!(ident, PoolIdent::Absent);
    let begin = IdentStage::Begin { crash_pending: false, fence: 3 };
    assert_eq!(pool_identity_complete(&mut ident, begin), IdentStep::Claim { epoch: 3 });
    let claimed = IdentStage::Claimed { epoch: 3, ok: true };
    assert_eq!(pool_identity_complete(&mut ident, claimed), IdentStep::BaseInit);
    assert_eq!(ident, PoolIdent::Ready(3));
    assert_eq!(pool_identity_complete(&mut ident, IdentStage::BaseDone(true)), IdentStep::Serve);
    assert_eq!(
        pool_identity_complete(&mut ident, IdentStage::BaseDone(false)),
        IdentStep::BaseFailed
    );
    let refused = IdentStage::Claimed { epoch: 3, ok: false };
    assert_eq!(pool_identity_complete(&mut ident, refused), IdentStep::ClaimFailed);
    assert_eq!(ident, PoolIdent::Poisoned);
}

#[test]
fn demo_start_reports_the_population() {
    let pool = RuntimePool { started: true, stop_requested: false, population: 4 };
    assert_eq!(rtpool_start_for_demo(&pool, true), 4);
    assert_eq!(rtpool_start_for_demo(&pool, false), -1);
}

#[test]
fn polled_listeners_follow_the_latch() {
    let fds = vec![
        ProbedListener { fd: 5, readable: true },
        ProbedListener { fd: 6, readable: false },
        ProbedListener { fd: 7, readable: true },
    ];
    assert_eq!(
        pm_wait_for_events(true, true, &fds, 8),
        vec![WaitRegistration::Latch, WaitRegistration::Accept(5), WaitRegistration::Accept(7)]
    );
    assert_eq!(
        pm_wait_for_events(true, true, &fds, 2),
        vec![WaitRegistration::Latch, WaitRegistration::Accept(5)]
    );
    assert_eq!(pm_wait_for_events(true, false, &fds, 8), vec![WaitRegistration::Latch]);
    assert_eq!(pm_wait_for_events(false, false, &fds, 8), vec![]);
    assert_eq!(pm_wait_for_events(true, true, &fds, 0), vec![]);
    assert_eq!(poll_timeout(60_000), 50);
    assert_eq!(poll_timeout(20), 20);
}

#[test]
fn pool_and_watchdog_lines() {
    assert_eq!(log_line("armed"), "memory watchdog: armed");
    assert_eq!(
        render_dumps_requested(12),
        "requested memory context dumps from 12 backends (see subsequent \
         \"logging memory contexts of PID\" log entries)"
    );
    assert_eq!(
        render_dispatch_panic(3),
        "wpool: parallel worker pool dispatch panicked (slot 3); falling back to postmaster launch"
    );
}
