//! Reaping children that ended.
use vstd::prelude::*;
use crate::backend_type::BackendType;
use crate::btmask;
use crate::launch;
use crate::launch::{join_announced_child, ChildThreads};
use crate::pm_state::{
    handle_pm_child_exit_signal, PMState, PendingFlags, PmChild, PostmasterState, StartupStatusEnum,
};
use crate::pm_state::{
    ImmediateShutdown, NoShutdown, SmartShutdown, LOCK_FILE_LINE_PM_STATUS, SIGTERM,
};
use crate::postmaster;
use crate::postmaster::{push_when, LogLevel, PmAction, PmLog, PmStatus, ProcName};
use crate::wpool;
use crate::wpool::{take_parked_announce, WorkerPool};

verus! {

/// The children that have announced their end, oldest first, each with its
/// wait status.
pub struct ChildExitQueue {
    pub entries: Vec<(i32, i32)>,
}

impl ChildExitQueue {
    /// An empty queue.
    pub fn new() -> (q: ChildExitQueue)
        ensures
            q.entries@.len() == 0,
    {
        ChildExitQueue { entries: Vec::new() }
    }
}

/// A child announces its end: it joins the queue and the supervisor is woken.
pub fn announce_child_exit(q: &mut ChildExitQueue, p: &mut PendingFlags, pid: i32, exitstatus: i32)
    ensures
        final(q).entries@ == old(q).entries@.push((pid, exitstatus)),
        *final(p) == (PendingFlags { child_exit: true, ..*old(p) }).woken(),
{
    q.entries.push((pid, exitstatus));
    handle_pm_child_exit_signal(p, 0);
}

/// A child that announced its end.
#[derive(Clone, Copy, Debug, PartialEq, Eq)]
pub struct AnnouncedChild {
    pub pid: i32,
    pub exitstatus: i32,
    /// The thread that has to be gone before the child counts as dead; none
    /// where the thread stays parked for another task, or is not listed.
    pub join: Option<u64>,
}

/// Takes the oldest announcement, with the thread to wait for first; none is
/// lost and none is reordered.
pub fn reap_one(q: &mut ChildExitQueue, pool: &mut WorkerPool, threads: &mut ChildThreads) -> (r:
    Option<AnnouncedChild>)
    ensures
        old(q).entries@.len() == 0 ==> {
            &&& r is None
            &&& final(q).entries@ == old(q).entries@
            &&& *final(pool) == *old(pool)
            &&& final(threads).entries@ == old(threads).entries@
        },
        old(q).entries@.len() > 0 ==> ({
            let (pid, exitstatus) = old(q).entries@[0];
            let parked = old(pool).parked@.contains(pid);
            &&& r == Some(
                AnnouncedChild {
                    pid,
                    exitstatus,
                    join: launch::thread_to_join(old(threads).entries@, parked, pid),
                },
            )
            &&& final(q).entries@ == old(q).entries@.skip(1)
            &&& final(pool).parked@ == wpool::notes_left(old(pool).parked@, pid)
            &&& *final(pool) == (WorkerPool { parked: final(pool).parked, ..*old(pool) })
            &&& final(threads).entries@ == launch::threads_left(
                old(threads).entries@,
                parked,
                pid,
            )
        }),
{
    if q.entries.len() == 0 {
        return None;
    }
    let (pid, exitstatus): (i32, i32) = q.entries.remove(0);
    assert(q.entries@ =~= old(q).entries@.skip(1));
    let parked: bool = take_parked_announce(pool, pid);
    let join: Option<u64> = join_announced_child(threads, parked, pid);
    Some(AnnouncedChild { pid, exitstatus, join })
}

/// One reaped child and what the outside knows of it.
#[derive(Clone, Copy, Debug)]
pub struct ReapedChild {
    pub pid: i32,
    pub exitstatus: i32,
    /// The thread to wait for first, as the announcement gave it.
    pub join: Option<u64>,
    /// Slot and kind in the table of tracked children.
    pub found: Option<(i32, BackendType)>,
    /// The registration index of the background worker with this pid. Whoever
    /// looks it up keeps the worker's type for the log lines about it.
    pub worker: Option<i32>,
}

/// A reaping pass: it begins, reaps child by child, and ends.
#[derive(Clone, Copy, Debug)]
pub enum ExitEvent {
    Begin,
    Child(ReapedChild),
    Drained,
}

/// Whether `c` is the child with this pid.
pub open spec fn is_pid(c: Option<PmChild>, pid: i32) -> bool {
    c matches Some(ch) && ch.pid == pid
}

fn has_pid(c: Option<PmChild>, pid: i32) -> (r: bool)
    ensures
        r == is_pid(c, pid),
{
    match c {
        Some(ch) => ch.pid == pid,
        None => false,
    }
}

/// Whether one of the children that are held by name has this pid.
pub open spec fn is_named(pm: PostmasterState, pid: i32) -> bool {
    ||| is_pid(pm.startup, pid)
    ||| is_pid(pm.bgwriter, pid)
    ||| is_pid(pm.checkpointer, pid)
    ||| is_pid(pm.walwriter, pid)
    ||| is_pid(pm.autovac_launcher, pid)
    ||| is_pid(pm.walsummarizer, pid)
    ||| is_pid(pm.walreceiver, pid)
    ||| is_pid(pm.pgarch, pid)
    ||| is_pid(pm.slotsync_worker, pid)
    ||| is_pid(pm.syslogger, pid)
}

/// The kinds that end as a client backend does.
pub open spec fn is_backend_kind(t: BackendType) -> bool {
    t == BackendType::Backend || t == BackendType::DeadEndBackend || t == BackendType::AutovacWorker
        || t == BackendType::WalSender
}

/// Whether there is a way to reap this child: a tracked child that is not held
/// by name is a backend, a background worker or an I/O worker.
pub open spec fn reapable(pm: PostmasterState, c: ReapedChild) -> bool {
    is_named(pm, c.pid) || (c.found matches Some((_, t)) ==> is_backend_kind(t) || t
        == BackendType::BgWorker || t == BackendType::IoWorker)
}

/// The actions about a child that crashed: none while a crash or an immediate
/// shutdown is already under way.
pub open spec fn crash_actions(pm: PostmasterState, c: bool, name: ProcName, pid: i32, exitstatus: i32) -> Seq<
    PmAction,
> {
    let act = c && !(pm.fatal_error || pm.shutdown == ImmediateShutdown);
    Seq::empty() + postmaster::when(
        act,
        PmAction::Log(LogLevel::Log, PmLog::ChildExit { name, pid, exitstatus }),
    ) + postmaster::when(act, PmAction::Log(LogLevel::Log, PmLog::TerminatingOthers)) + postmaster::when(
        act,
        PmAction::HandleFatalError { consider_sigabrt: true },
    )
}

/// Adds the actions about a child that crashed, where `crashed` holds.
fn handle_child_crash(
    pm: &PostmasterState,
    acts: &mut Vec<PmAction>,
    crashed: bool,
    name: ProcName,
    pid: i32,
    exitstatus: i32,
)
    ensures
        same(final(acts)@, old(acts)@ + crash_actions(*pm, crashed, name, pid, exitstatus)),
{
    let act = crashed && !(pm.fatal_error || pm.shutdown == ImmediateShutdown);
    let mut more: Vec<PmAction> = Vec::new();
    push_when(
        &mut more,
        act,
        PmAction::Log(LogLevel::Log, PmLog::ChildExit { name, pid, exitstatus }),
    );
    push_when(&mut more, act, PmAction::Log(LogLevel::Log, PmLog::TerminatingOthers));
    push_when(&mut more, act, PmAction::HandleFatalError { consider_sigabrt: true });
    acts.append(&mut more);
}

pub open spec fn code_is(exitstatus: i32, code: i32) -> bool {
    postmaster::exit_code(exitstatus) == Some(code)
}

fn code_equals(exitstatus: i32, code: i32) -> (r: bool)
    ensures
        r == code_is(exitstatus, code),
{
    match postmaster::exit_status_code(exitstatus) {
        Some(c) => c == code,
        None => false,
    }
}

/// Exit code 0 or 1: an end that is no crash for most children.
pub open spec fn ended_well(exitstatus: i32) -> bool {
    code_is(exitstatus, 0) || code_is(exitstatus, 1)
}

/// What reaping makes of the state, with the actions.
pub ghost struct ReapOut {
    pub pm: PostmasterState,
    pub actions: Seq<PmAction>,
}

/// Whether these are the state and the actions that `out` holds.
pub open spec fn comes_out(pm: PostmasterState, actions: Seq<PmAction>, out: ReapOut) -> bool {
    pm == out.pm && actions == out.actions
}

/// Equality of action lists.
pub open spec fn same(a: Seq<PmAction>, b: Seq<PmAction>) -> bool {
    a == b
}

pub open spec fn startup_aborts(pm: PostmasterState, exitstatus: i32) -> bool {
    pm.pm_state == PMState::PM_STARTUP && pm.startup_status != StartupStatusEnum::Signaled && !code_is(
        exitstatus,
        0,
    )
}

/// The recovery child has ended.
pub open spec fn reap_startup(pm0: PostmasterState, child: PmChild, exitstatus: i32, now: i64) -> ReapOut {
    let pid = child.pid;
    let pm = PostmasterState { startup: None, ..pm0 };
    let head = Seq::empty() + postmaster::when(true, PmAction::ReleaseChildSlot(child.child_slot));
    if pm.shutdown > NoShutdown && ended_well(exitstatus) {
        ReapOut {
            pm: (PostmasterState { startup_status: StartupStatusEnum::NotRunning, ..pm }).in_state(
                PMState::PM_WAIT_BACKENDS,
                now,
            ),
            actions: head,
        }
    } else if code_is(exitstatus, 3) {
        ReapOut {
            pm: (PostmasterState {
                startup_status: StartupStatusEnum::NotRunning,
                shutdown: if pm.shutdown < SmartShutdown { SmartShutdown } else { pm.shutdown },
                ..pm
            }).in_state(PMState::PM_WAIT_BACKENDS, now),
            actions: head + postmaster::when(
                true,
                PmAction::Log(LogLevel::Log, PmLog::ShutdownAtRecoveryTarget),
            ) + postmaster::when(true, PmAction::TerminateChildren(SIGTERM)),
        }
    } else if startup_aborts(pm, exitstatus) {
        ReapOut {
            pm,
            actions: head + postmaster::when(
                true,
                PmAction::Log(
                    LogLevel::Log,
                    PmLog::ChildExit { name: ProcName::StartupProcess, pid, exitstatus },
                ),
            ) + postmaster::when(true, PmAction::Log(LogLevel::Log, PmLog::AbortingStartup))
                + postmaster::when(true, PmAction::ExitPostmaster(1)),
        }
    } else if !code_is(exitstatus, 0) {
        let signaled = pm.startup_status == StartupStatusEnum::Signaled;
        let pm1 = PostmasterState {
            startup_status: if signaled {
                StartupStatusEnum::NotRunning
            } else {
                StartupStatusEnum::Crashed
            },
            ..pm
        };
        ReapOut {
            pm: if signaled && pm.pm_state == PMState::PM_STARTUP {
                pm1.in_state(PMState::PM_WAIT_BACKENDS, now)
            } else {
                pm1
            },
            actions: head + crash_actions(pm, true, ProcName::StartupProcess, pid, exitstatus),
        }
    } else {
        ReapOut {
            pm: PostmasterState {
                conns_allowed: true,
                start_worker_needed: true,
                ..(PostmasterState {
                    startup_status: StartupStatusEnum::NotRunning,
                    ..pm.crash_forgotten()
                }).in_state(PMState::PM_RUN, now)
            },
            actions: head + postmaster::when(
                true,
                PmAction::Log(LogLevel::Log, PmLog::ReadyForConnections),
            ) + postmaster::when(
                true,
                PmAction::AddToDataDirLockFile {
                    line: LOCK_FILE_LINE_PM_STATUS,
                    status: PmStatus::Ready,
                },
            ),
        }
    }
}

#[verifier::rlimit(60)]
fn do_reap_startup(pm: &mut PostmasterState, child: PmChild, exitstatus: i32, now: i64) -> (r: Vec<
    PmAction,
>)
    ensures
        comes_out(*final(pm), r@, reap_startup(*old(pm), child, exitstatus, now)),
{
    let mut acts: Vec<PmAction> = Vec::new();
    let pid: i32 = child.pid;
    let status0 = code_equals(exitstatus, 0);
    let status1 = code_equals(exitstatus, 1);
    let status3 = code_equals(exitstatus, 3);
    pm.startup = None;
    push_when(&mut acts, true, PmAction::ReleaseChildSlot(child.child_slot));
    if pm.shutdown > NoShutdown && (status0 || status1) {
        pm.startup_status = StartupStatusEnum::NotRunning;
        pm.update_pm_state(PMState::PM_WAIT_BACKENDS, now);
        return acts;
    }
    if status3 {
        push_when(&mut acts, true, PmAction::Log(LogLevel::Log, PmLog::ShutdownAtRecoveryTarget));
        pm.startup_status = StartupStatusEnum::NotRunning;
        pm.shutdown = if pm.shutdown < SmartShutdown {
            SmartShutdown
        } else {
            pm.shutdown
        };
        push_when(&mut acts, true, PmAction::TerminateChildren(SIGTERM));
        pm.update_pm_state(PMState::PM_WAIT_BACKENDS, now);
        return acts;
    }
    if pm.pm_state == PMState::PM_STARTUP && pm.startup_status != StartupStatusEnum::Signaled
        && !status0 {
        push_when(
            &mut acts,
            true,
            PmAction::Log(
                LogLevel::Log,
                PmLog::ChildExit { name: ProcName::StartupProcess, pid, exitstatus },
            ),
        );
        push_when(&mut acts, true, PmAction::Log(LogLevel::Log, PmLog::AbortingStartup));
        push_when(&mut acts, true, PmAction::ExitPostmaster(1));
        return acts;
    }
    if !status0 {
        handle_child_crash(pm, &mut acts, true, ProcName::StartupProcess, pid, exitstatus);
        let signaled = pm.startup_status == StartupStatusEnum::Signaled;
        if signaled {
            pm.startup_status = StartupStatusEnum::NotRunning;
        } else {
            pm.startup_status = StartupStatusEnum::Crashed;
        }
        if signaled && pm.pm_state == PMState::PM_STARTUP {
            pm.update_pm_state(PMState::PM_WAIT_BACKENDS, now);
        }
        return acts;
    }
    pm.forget_crash();
    pm.startup_status = StartupStatusEnum::NotRunning;
    pm.update_pm_state(PMState::PM_RUN, now);
    pm.conns_allowed = true;
    pm.start_worker_needed = true;
    push_when(&mut acts, true, PmAction::Log(LogLevel::Log, PmLog::ReadyForConnections));
    push_when(
        &mut acts,
        true,
        PmAction::AddToDataDirLockFile { line: LOCK_FILE_LINE_PM_STATUS, status: PmStatus::Ready },
    );
    acts
}

/// The checkpointer has ended: expected only as the last child to be waited
/// for, after which only dead-end backends and the logger remain.
pub open spec fn reap_checkpointer(
    pm0: PostmasterState,
    child: PmChild,
    exitstatus: i32,
    mask: u32,
    now: i64,
) -> ReapOut {
    let pm = PostmasterState { checkpointer: None, ..pm0 };
    let head = Seq::empty() + postmaster::when(true, PmAction::ReleaseChildSlot(child.child_slot));
    if code_is(exitstatus, 0) && pm.pm_state == PMState::PM_WAIT_CHECKPOINTER {
        ReapOut {
            pm: pm.in_state(PMState::PM_WAIT_DEAD_END, now),
            actions: head + postmaster::when(true, PmAction::ConfigureWaitSet(false)) + postmaster::when(
                true,
                PmAction::SignalChildren { sig: SIGTERM, mask },
            ),
        }
    } else {
        ReapOut {
            pm,
            actions: head + crash_actions(pm, true, ProcName::Checkpointer, child.pid, exitstatus),
        }
    }
}

fn do_reap_checkpointer(
    pm: &mut PostmasterState,
    child: PmChild,
    exitstatus: i32,
    mask: u32,
    now: i64,
) -> (r: Vec<PmAction>)
    ensures
        comes_out(*final(pm), r@, reap_checkpointer(*old(pm), child, exitstatus, mask, now)),
{
    let mut acts: Vec<PmAction> = Vec::new();
    pm.checkpointer = None;
    push_when(&mut acts, true, PmAction::ReleaseChildSlot(child.child_slot));
    if code_equals(exitstatus, 0) && pm.pm_state == PMState::PM_WAIT_CHECKPOINTER {
        pm.update_pm_state(PMState::PM_WAIT_DEAD_END, now);
        push_when(&mut acts, true, PmAction::ConfigureWaitSet(false));
        push_when(&mut acts, true, PmAction::SignalChildren { sig: SIGTERM, mask });
    } else {
        handle_child_crash(pm, &mut acts, true, ProcName::Checkpointer, child.pid, exitstatus);
    }
    acts
}

/// The actions about a child held by name: its slot is free, and its end is a
/// crash where `crashed` holds.
pub open spec fn plain_actions(
    pm: PostmasterState,
    child: PmChild,
    crashed: bool,
    name: ProcName,
    exitstatus: i32,
) -> Seq<PmAction> {
    Seq::empty() + postmaster::when(true, PmAction::ReleaseChildSlot(child.child_slot)) + crash_actions(
        pm,
        crashed,
        name,
        child.pid,
        exitstatus,
    )
}

fn do_plain(pm: &PostmasterState, child: PmChild, crashed: bool, name: ProcName, exitstatus: i32) -> (r: Vec<
    PmAction,
>)
    ensures
        same(r@, plain_actions(*pm, child, crashed, name, exitstatus)),
{
    let mut acts: Vec<PmAction> = Vec::new();
    push_when(&mut acts, true, PmAction::ReleaseChildSlot(child.child_slot));
    handle_child_crash(pm, &mut acts, crashed, name, child.pid, exitstatus);
    acts
}

/// The logger has ended: a new one starts first, for safety's sake.
pub open spec fn logger_actions(child: PmChild, logging_collector: bool, exitstatus: i32) -> Seq<PmAction> {
    Seq::empty() + postmaster::when(true, PmAction::ReleaseChildSlot(child.child_slot))
        + postmaster::when(logging_collector, PmAction::StartSysLogger) + postmaster::when(
        !code_is(exitstatus, 0),
        PmAction::Log(
            LogLevel::Log,
            PmLog::ChildExit { name: ProcName::SystemLogger, pid: child.pid, exitstatus },
        ),
    )
}

/// A backend has ended.
pub open spec fn backend_actions(
    pm: PostmasterState,
    slot: i32,
    kind: BackendType,
    pid: i32,
    exitstatus: i32,
) -> Seq<PmAction> {
    let ok = ended_well(exitstatus);
    Seq::empty() + postmaster::when(true, PmAction::ReleaseChildSlot(slot)) + crash_actions(
        pm,
        !ok,
        ProcName::ServerProcess,
        pid,
        exitstatus,
    ) + postmaster::when(ok, PmAction::StopNotifications(pid)) + postmaster::when(
        ok,
        PmAction::Log(
            LogLevel::Debug2,
            PmLog::ChildExit { name: ProcName::Kind(kind), pid, exitstatus },
        ),
    )
}

fn do_backend(pm: &PostmasterState, slot: i32, kind: BackendType, pid: i32, exitstatus: i32) -> (r: Vec<
    PmAction,
>)
    ensures
        same(r@, backend_actions(*pm, slot, kind, pid, exitstatus)),
{
    let mut acts: Vec<PmAction> = Vec::new();
    let ok = code_equals(exitstatus, 0) || code_equals(exitstatus, 1);
    push_when(&mut acts, true, PmAction::ReleaseChildSlot(slot));
    handle_child_crash(pm, &mut acts, !ok, ProcName::ServerProcess, pid, exitstatus);
    push_when(&mut acts, ok, PmAction::StopNotifications(pid));
    push_when(
        &mut acts,
        ok,
        PmAction::Log(LogLevel::Debug2, PmLog::ChildExit { name: ProcName::Kind(kind), pid, exitstatus }),
    );
    acts
}

/// A background worker has ended. Exit code 0 asks for no restart; exit code 1
/// is remembered as a crash to restart from.
pub open spec fn worker_actions(
    pm: PostmasterState,
    slot: i32,
    worker: Option<i32>,
    pid: i32,
    exitstatus: i32,
) -> Seq<PmAction> {
    let ok = ended_well(exitstatus);
    let zero = code_is(exitstatus, 0);
    let name = ProcName::BackgroundWorker(worker);
    let reg = ok && worker is Some;
    let idx = worker->0;
    Seq::empty() + postmaster::when(true, PmAction::ReleaseChildSlot(slot)) + crash_actions(
        pm,
        !ok,
        name,
        pid,
        exitstatus,
    ) + postmaster::when(ok, PmAction::StopNotifications(pid)) + (if reg {
        Seq::empty() + postmaster::when(!zero, PmAction::WorkerCrashedNow(idx)) + postmaster::when(
            zero,
            PmAction::WorkerNotCrashed(idx),
        ) + postmaster::when(zero, PmAction::WorkerTerminate(idx)) + postmaster::when(
            true,
            PmAction::WorkerClearPid(idx),
        ) + postmaster::when(true, PmAction::ReportWorkerExit(idx)) + postmaster::when(
            true,
            PmAction::Log(
                if zero { LogLevel::Debug1 } else { LogLevel::Log },
                PmLog::ChildExit { name, pid, exitstatus },
            ),
        )
    } else {
        Seq::empty()
    })
}

fn do_worker(pm: &PostmasterState, slot: i32, worker: Option<i32>, pid: i32, exitstatus: i32) -> (r: Vec<
    PmAction,
>)
    ensures
        same(r@, worker_actions(*pm, slot, worker, pid, exitstatus)),
{
    let mut acts: Vec<PmAction> = Vec::new();
    let zero = code_equals(exitstatus, 0);
    let ok = zero || code_equals(exitstatus, 1);
    let name = ProcName::BackgroundWorker(worker);
    push_when(&mut acts, true, PmAction::ReleaseChildSlot(slot));
    handle_child_crash(pm, &mut acts, !ok, name, pid, exitstatus);
    push_when(&mut acts, ok, PmAction::StopNotifications(pid));
    let mut more: Vec<PmAction> = Vec::new();
    if ok {
        if let Some(idx) = worker {
            let level = if zero {
                LogLevel::Debug1
            } else {
                LogLevel::Log
            };
            push_when(&mut more, !zero, PmAction::WorkerCrashedNow(idx));
            push_when(&mut more, zero, PmAction::WorkerNotCrashed(idx));
            push_when(&mut more, zero, PmAction::WorkerTerminate(idx));
            push_when(&mut more, true, PmAction::WorkerClearPid(idx));
            push_when(&mut more, true, PmAction::ReportWorkerExit(idx));
            push_when(
                &mut more,
                true,
                PmAction::Log(level, PmLog::ChildExit { name, pid, exitstatus }),
            );
        }
    }
    acts.append(&mut more);
    acts
}

/// An I/O worker has ended; the pool is levelled again afterwards.
pub open spec fn io_actions(pm: PostmasterState, slot: i32, pid: i32, exitstatus: i32) -> Seq<PmAction> {
    let ok = ended_well(exitstatus);
    Seq::empty() + postmaster::when(true, PmAction::ReleaseChildSlot(slot)) + crash_actions(
        pm,
        !ok,
        ProcName::IoWorker,
        pid,
        exitstatus,
    ) + postmaster::when(
        ok,
        PmAction::Log(LogLevel::Debug2, PmLog::ChildExit { name: ProcName::IoWorker, pid, exitstatus }),
    ) + postmaster::when(true, PmAction::AdjustIoWorkers)
}

/// The slots after the I/O worker with this pid has left the first slot that
/// holds it.
pub open spec fn io_left(slots: Seq<Option<PmChild>>, pid: i32) -> Seq<Option<PmChild>> {
    if exists|i: int| 0 <= i < slots.len() && is_pid(#[trigger] slots[i], pid) {
        slots.update(first_with_pid(slots, pid), None)
    } else {
        slots
    }
}

/// The first slot that holds the child with this pid, or the length.
pub open spec fn first_with_pid(slots: Seq<Option<PmChild>>, pid: i32) -> int
    decreases slots.len(),
{
    if slots.len() == 0 {
        0
    } else if is_pid(slots[0], pid) {
        0
    } else {
        1 + first_with_pid(slots.skip(1), pid)
    }
}

pub proof fn lemma_first_with_pid(slots: Seq<Option<PmChild>>, pid: i32, k: int)
    requires
        0 <= k < slots.len(),
        is_pid(slots[k], pid),
        forall|j: int| 0 <= j < k ==> !is_pid(#[trigger] slots[j], pid),
    ensures
        first_with_pid(slots, pid) == k,
    decreases k,
{
    if k > 0 {
        let t = slots.skip(1);
        assert forall|j: int| 0 <= j < k - 1 implies !is_pid(#[trigger] t[j], pid) by {
            assert(t[j] == slots[j + 1]);
        }
        lemma_first_with_pid(t, pid, k - 1);
    }
}

fn do_io(pm: &mut PostmasterState, slot: i32, pid: i32, exitstatus: i32) -> (r: Vec<PmAction>)
    requires
        old(pm).io_worker_count > i32::MIN,
    ensures
        final(pm).io_worker_children@ == io_left(old(pm).io_worker_children@, pid),
        final(pm).io_worker_count == old(pm).io_worker_count - 1,
        *final(pm) == (PostmasterState {
            io_worker_children: final(pm).io_worker_children,
            io_worker_count: final(pm).io_worker_count,
            ..*old(pm)
        }),
        same(r@, io_actions(*old(pm), slot, pid, exitstatus)),
{
    let mut acts: Vec<PmAction> = Vec::new();
    let ok = code_equals(exitstatus, 0) || code_equals(exitstatus, 1);
    push_when(&mut acts, true, PmAction::ReleaseChildSlot(slot));
    handle_child_crash(pm, &mut acts, !ok, ProcName::IoWorker, pid, exitstatus);
    push_when(
        &mut acts,
        ok,
        PmAction::Log(LogLevel::Debug2, PmLog::ChildExit { name: ProcName::IoWorker, pid, exitstatus }),
    );
    push_when(&mut acts, true, PmAction::AdjustIoWorkers);
    let ghost before = pm.io_worker_children@;
    let n: usize = pm.io_worker_children.len();
    let mut i: usize = 0;
    while i < n && !has_pid(pm.io_worker_children[i], pid)
        invariant
            i <= n,
            n == pm.io_worker_children@.len(),
            forall|j: int| 0 <= j < i ==> !is_pid(#[trigger] pm.io_worker_children@[j], pid),
        decreases n - i,
    {
        i = i + 1;
    }
    if i < n {
        proof {
            lemma_first_with_pid(before, pid, i as int);
        }
        pm.io_worker_children.set(i, None);
    }
    pm.io_worker_count = pm.io_worker_count - 1;
    acts
}

/// A child held by name.
#[derive(Clone, Copy, Debug, PartialEq, Eq, Structural)]
pub enum NamedChild {
    Startup,
    BgWriter,
    Checkpointer,
    WalWriter,
    AutovacLauncher,
    WalSummarizer,
    WalReceiver,
    Archiver,
    SlotSync,
    SysLogger,
}

/// The child held by name that has this pid, the first in the reaping order.
pub open spec fn named_owner(pm: PostmasterState, pid: i32) -> Option<NamedChild> {
    if is_pid(pm.startup, pid) {
        Some(NamedChild::Startup)
    } else if is_pid(pm.bgwriter, pid) {
        Some(NamedChild::BgWriter)
    } else if is_pid(pm.checkpointer, pid) {
        Some(NamedChild::Checkpointer)
    } else if is_pid(pm.walwriter, pid) {
        Some(NamedChild::WalWriter)
    } else if is_pid(pm.autovac_launcher, pid) {
        Some(NamedChild::AutovacLauncher)
    } else if is_pid(pm.walsummarizer, pid) {
        Some(NamedChild::WalSummarizer)
    } else if is_pid(pm.walreceiver, pid) {
        Some(NamedChild::WalReceiver)
    } else if is_pid(pm.pgarch, pid) {
        Some(NamedChild::Archiver)
    } else if is_pid(pm.slotsync_worker, pid) {
        Some(NamedChild::SlotSync)
    } else if is_pid(pm.syslogger, pid) {
        Some(NamedChild::SysLogger)
    } else {
        None
    }
}

fn find_named(pm: &PostmasterState, pid: i32) -> (r: Option<NamedChild>)
    ensures
        r == named_owner(*pm, pid),
{
    if has_pid(pm.startup, pid) {
        Some(NamedChild::Startup)
    } else if has_pid(pm.bgwriter, pid) {
        Some(NamedChild::BgWriter)
    } else if has_pid(pm.checkpointer, pid) {
        Some(NamedChild::Checkpointer)
    } else if has_pid(pm.walwriter, pid) {
        Some(NamedChild::WalWriter)
    } else if has_pid(pm.autovac_launcher, pid) {
        Some(NamedChild::AutovacLauncher)
    } else if has_pid(pm.walsummarizer, pid) {
        Some(NamedChild::WalSummarizer)
    } else if has_pid(pm.walreceiver, pid) {
        Some(NamedChild::WalReceiver)
    } else if has_pid(pm.pgarch, pid) {
        Some(NamedChild::Archiver)
    } else if has_pid(pm.slotsync_worker, pid) {
        Some(NamedChild::SlotSync)
    } else if has_pid(pm.syslogger, pid) {
        Some(NamedChild::SysLogger)
    } else {
        None
    }
}

/// What reaping a child held by name makes of the state, with the actions. For
/// the WAL receiver, the archiver and the slot sync worker exit code 1 is a
/// normal end too.
pub open spec fn reap_named(
    pm: PostmasterState,
    who: NamedChild,
    exitstatus: i32,
    logging_collector: bool,
    mask: u32,
    now: i64,
) -> ReapOut {
    let bad0 = !code_is(exitstatus, 0);
    let bad = !ended_well(exitstatus);
    match who {
        NamedChild::Startup => reap_startup(pm, pm.startup->0, exitstatus, now),
        NamedChild::BgWriter => ReapOut {
            pm: PostmasterState { bgwriter: None, ..pm },
            actions: plain_actions(pm, pm.bgwriter->0, bad0, ProcName::BackgroundWriter, exitstatus),
        },
        NamedChild::Checkpointer => reap_checkpointer(pm, pm.checkpointer->0, exitstatus, mask, now),
        NamedChild::WalWriter => ReapOut {
            pm: PostmasterState { walwriter: None, ..pm },
            actions: plain_actions(pm, pm.walwriter->0, bad0, ProcName::WalWriter, exitstatus),
        },
        NamedChild::AutovacLauncher => ReapOut {
            pm: PostmasterState { autovac_launcher: None, ..pm },
            actions: plain_actions(
                pm,
                pm.autovac_launcher->0,
                bad0,
                ProcName::AutovacuumLauncher,
                exitstatus,
            ),
        },
        NamedChild::WalSummarizer => ReapOut {
            pm: PostmasterState { walsummarizer: None, ..pm },
            actions: plain_actions(pm, pm.walsummarizer->0, bad0, ProcName::WalSummarizer, exitstatus),
        },
        NamedChild::WalReceiver => ReapOut {
            pm: PostmasterState { walreceiver: None, ..pm },
            actions: plain_actions(pm, pm.walreceiver->0, bad, ProcName::WalReceiver, exitstatus),
        },
        NamedChild::Archiver => ReapOut {
            pm: PostmasterState { pgarch: None, ..pm },
            actions: plain_actions(pm, pm.pgarch->0, bad, ProcName::Archiver, exitstatus),
        },
        NamedChild::SlotSync => ReapOut {
            pm: PostmasterState { slotsync_worker: None, ..pm },
            actions: plain_actions(pm, pm.slotsync_worker->0, bad, ProcName::SlotSyncWorker, exitstatus),
        },
        NamedChild::SysLogger => ReapOut {
            pm: PostmasterState { syslogger: None, ..pm },
            actions: logger_actions(pm.syslogger->0, logging_collector, exitstatus),
        },
    }
}

fn do_reap_named(
    pm: &mut PostmasterState,
    who: NamedChild,
    pid: i32,
    exitstatus: i32,
    logging_collector: bool,
    mask: u32,
    now: i64,
) -> (r: Vec<PmAction>)
    requires
        named_owner(*old(pm), pid) == Some(who),
    ensures
        comes_out(*final(pm), r@, reap_named(*old(pm), who, exitstatus, logging_collector, mask, now)),
{
    let bad0 = !code_equals(exitstatus, 0);
    let bad = !(code_equals(exitstatus, 0) || code_equals(exitstatus, 1));
    match who {
        NamedChild::Startup => {
            let child = pm.startup.unwrap();
            do_reap_startup(pm, child, exitstatus, now)
        },
        NamedChild::BgWriter => {
            let child = pm.bgwriter.unwrap();
            let acts = do_plain(pm, child, bad0, ProcName::BackgroundWriter, exitstatus);
            pm.bgwriter = None;
            acts
        },
        NamedChild::Checkpointer => {
            let child = pm.checkpointer.unwrap();
            do_reap_checkpointer(pm, child, exitstatus, mask, now)
        },
        NamedChild::WalWriter => {
            let child = pm.walwriter.unwrap();
            let acts = do_plain(pm, child, bad0, ProcName::WalWriter, exitstatus);
            pm.walwriter = None;
            acts
        },
        NamedChild::AutovacLauncher => {
            let child = pm.autovac_launcher.unwrap();
            let acts = do_plain(pm, child, bad0, ProcName::AutovacuumLauncher, exitstatus);
            pm.autovac_launcher = None;
            acts
        },
        NamedChild::WalSummarizer => {
            let child = pm.walsummarizer.unwrap();
            let acts = do_plain(pm, child, bad0, ProcName::WalSummarizer, exitstatus);
            pm.walsummarizer = None;
            acts
        },
        NamedChild::WalReceiver => {
            let child = pm.walreceiver.unwrap();
            let acts = do_plain(pm, child, bad, ProcName::WalReceiver, exitstatus);
            pm.walreceiver = None;
            acts
        },
        NamedChild::Archiver => {
            let child = pm.pgarch.unwrap();
            let acts = do_plain(pm, child, bad, ProcName::Archiver, exitstatus);
            pm.pgarch = None;
            acts
        },
        NamedChild::SlotSync => {
            let child = pm.slotsync_worker.unwrap();
            let acts = do_plain(pm, child, bad, ProcName::SlotSyncWorker, exitstatus);
            pm.slotsync_worker = None;
            acts
        },
        NamedChild::SysLogger => {
            let child = pm.syslogger.unwrap();
            let mut acts: Vec<PmAction> = Vec::new();
            pm.syslogger = None;
            push_when(&mut acts, true, PmAction::ReleaseChildSlot(child.child_slot));
            push_when(&mut acts, logging_collector, PmAction::StartSysLogger);
            push_when(
                &mut acts,
                bad0,
                PmAction::Log(
                    LogLevel::Log,
                    PmLog::ChildExit { name: ProcName::SystemLogger, pid: child.pid, exitstatus },
                ),
            );
            acts
        },
    }
}

/// The actions about a child that is not held by name.
pub open spec fn other_actions(pm: PostmasterState, c: ReapedChild) -> Seq<PmAction> {
    match c.found {
        Some((slot, kind)) => if kind == BackendType::BgWorker {
            worker_actions(pm, slot, c.worker, c.pid, c.exitstatus)
        } else if kind == BackendType::IoWorker {
            io_actions(pm, slot, c.pid, c.exitstatus)
        } else {
            backend_actions(pm, slot, kind, c.pid, c.exitstatus)
        },
        None => Seq::empty() + postmaster::when(
            true,
            PmAction::Log(
                LogLevel::Log,
                PmLog::ChildExit { name: ProcName::UntrackedChild, pid: c.pid, exitstatus: c.exitstatus },
            ),
        ),
    }
}

/// Whether reaping `c` frees an I/O worker slot.
pub open spec fn reaps_io(pm: PostmasterState, c: ReapedChild) -> bool {
    named_owner(pm, c.pid) is None && (c.found matches Some((_, t)) && t == BackendType::IoWorker)
}

/// Whether reaping `c` finds a registered background worker that did not crash.
pub open spec fn reaps_worker(c: ReapedChild) -> bool {
    &&& c.found matches Some((_, t)) && t == BackendType::BgWorker
    &&& ended_well(c.exitstatus)
    &&& c.worker is Some
}

/// Whether `pm1` is the state after reaping an I/O worker.
pub open spec fn io_reaped(pm: PostmasterState, pid: i32, pm1: PostmasterState) -> bool {
    &&& pm1.io_worker_children@ == io_left(pm.io_worker_children@, pid)
    &&& pm1.io_worker_count == pm.io_worker_count - 1
    &&& pm1 == (PostmasterState {
        io_worker_children: pm1.io_worker_children,
        io_worker_count: pm1.io_worker_count,
        ..pm
    })
}

/// Whether `pm1` and `actions` are what reaping `c` leads to.
pub open spec fn reaped(
    pm: PostmasterState,
    c: ReapedChild,
    logging_collector: bool,
    mask: u32,
    now: i64,
    pm1: PostmasterState,
    actions: Seq<PmAction>,
) -> bool {
    match named_owner(pm, c.pid) {
        Some(who) => comes_out(pm1, actions, reap_named(pm, who, c.exitstatus, logging_collector, mask, now)),
        None => {
            &&& actions == other_actions(pm, c)
            &&& if reaps_io(pm, c) {
                io_reaped(pm, c.pid, pm1)
            } else {
                pm1 == (PostmasterState {
                    have_crashed_worker: pm.have_crashed_worker || reaps_worker(c),
                    ..pm
                })
            }
        },
    }
}

/// Whether `mask` is every kind but the logger.
pub open spec fn all_but_logger(mask: u32) -> bool {
    &&& forall|t: BackendType| btmask::mask_set(mask).contains(t) <==> t != BackendType::Logger
    &&& mask & !btmask::BTYPE_MASK_ALL == 0
}

/// The mask of every kind but the logger.
pub fn mask_all_but_logger() -> (mask: u32)
    ensures
        all_but_logger(mask),
{
    let mask: u32 = btmask::btmask_all_except(&[BackendType::Logger]);
    proof {
        let ts = [BackendType::Logger]@;
        assert forall|t: BackendType| ts.contains(t) <==> t == BackendType::Logger by {
            if t == BackendType::Logger {
                assert(ts[0] == t);
            }
        }
    }
    mask
}

fn reap_other(pm: &mut PostmasterState, c: ReapedChild) -> (r: Vec<PmAction>)
    requires
        named_owner(*old(pm), c.pid) is None,
        reapable(*old(pm), c),
        reaps_io(*old(pm), c) ==> old(pm).io_worker_count > i32::MIN,
    ensures
        same(r@, other_actions(*old(pm), c)),
        reaps_io(*old(pm), c) ==> io_reaped(*old(pm), c.pid, *final(pm)),
        !reaps_io(*old(pm), c) ==> *final(pm) == (PostmasterState {
            have_crashed_worker: old(pm).have_crashed_worker || reaps_worker(c),
            ..*old(pm)
        }),
{
    match c.found {
        Some((slot, kind)) => {
            if kind == BackendType::BgWorker {
                let acts = do_worker(pm, slot, c.worker, c.pid, c.exitstatus);
                let ok = code_equals(c.exitstatus, 0) || code_equals(c.exitstatus, 1);
                pm.have_crashed_worker = pm.have_crashed_worker || (ok && c.worker.is_some());
                acts
            } else if kind == BackendType::IoWorker {
                do_io(pm, slot, c.pid, c.exitstatus)
            } else {
                do_backend(pm, slot, kind, c.pid, c.exitstatus)
            }
        },
        None => {
            let mut acts: Vec<PmAction> = Vec::new();
            push_when(
                &mut acts,
                true,
                PmAction::Log(
                    LogLevel::Log,
                    PmLog::ChildExit {
                        name: ProcName::UntrackedChild,
                        pid: c.pid,
                        exitstatus: c.exitstatus,
                    },
                ),
            );
            acts
        },
    }
}

/// What comes before anything is done about a child: its thread is waited for.
/// Others may free what the thread uses as soon as the child counts as dead.
pub open spec fn joins(c: ReapedChild) -> Seq<PmAction> {
    match c.join {
        Some(handle) => seq![PmAction::JoinChild(handle)],
        None => Seq::empty(),
    }
}

/// One step of a reaping pass. A child is handled only after its thread is
/// gone; after the last child the state machine runs.
pub fn process_pm_child_exit(
    pm: &mut PostmasterState,
    p: &mut PendingFlags,
    ev: ExitEvent,
    logging_collector: bool,
    now: i64,
) -> (r: Vec<PmAction>)
    requires
        ev matches ExitEvent::Child(c) ==> reapable(*old(pm), c) && (reaps_io(*old(pm), c) ==> old(
            pm,
        ).io_worker_count > i32::MIN),
    ensures
        *final(p) == (if ev == ExitEvent::Begin {
            PendingFlags { child_exit: false, ..*old(p) }
        } else {
            *old(p)
        }),
        exists|mask: u32| #[trigger] all_but_logger(mask) && (match ev {
            ExitEvent::Begin => {
                &&& *final(pm) == *old(pm)
                &&& r@ == seq![PmAction::Log(LogLevel::Debug2, PmLog::ReapingDeadProcesses)]
            },
            ExitEvent::Child(c) => {
                &&& r@ == joins(c) + r@.skip(joins(c).len() as int)
                &&& reaped(
                    *old(pm),
                    c,
                    logging_collector,
                    mask,
                    now,
                    *final(pm),
                    r@.skip(joins(c).len() as int),
                )
            },
            ExitEvent::Drained => {
                &&& *final(pm) == *old(pm)
                &&& r@ == seq![PmAction::RunStateMachine]
            },
        }),
{
    let mask: u32 = mask_all_but_logger();
    match ev {
        ExitEvent::Begin => {
            p.child_exit = false;
            vec![PmAction::Log(LogLevel::Debug2, PmLog::ReapingDeadProcesses)]
        },
        ExitEvent::Child(c) => {
            let mut acts: Vec<PmAction> = Vec::new();
            if let Some(handle) = c.join {
                acts.push(PmAction::JoinChild(handle));
            }
            assert(acts@ =~= joins(c));
            let mut more: Vec<PmAction> = match find_named(pm, c.pid) {
                Some(who) => do_reap_named(pm, who, c.pid, c.exitstatus, logging_collector, mask, now),
                None => reap_other(pm, c),
            };
            let ghost done = more@;
            acts.append(&mut more);
            assert(acts@.skip(joins(c).len() as int) =~= done);
            assert(acts@ =~= joins(c) + done);
            acts
        },
        ExitEvent::Drained => vec![PmAction::RunStateMachine],
    }
}

/// The slot of a tracked child, wherever it is tracked.
pub open spec fn tracked_slot(pm: PostmasterState, c: ReapedChild) -> Option<i32> {
    match named_owner(pm, c.pid) {
        Some(NamedChild::Startup) => Some(pm.startup->0.child_slot),
        Some(NamedChild::BgWriter) => Some(pm.bgwriter->0.child_slot),
        Some(NamedChild::Checkpointer) => Some(pm.checkpointer->0.child_slot),
        Some(NamedChild::WalWriter) => Some(pm.walwriter->0.child_slot),
        Some(NamedChild::AutovacLauncher) => Some(pm.autovac_launcher->0.child_slot),
        Some(NamedChild::WalSummarizer) => Some(pm.walsummarizer->0.child_slot),
        Some(NamedChild::WalReceiver) => Some(pm.walreceiver->0.child_slot),
        Some(NamedChild::Archiver) => Some(pm.pgarch->0.child_slot),
        Some(NamedChild::SlotSync) => Some(pm.slotsync_worker->0.child_slot),
        Some(NamedChild::SysLogger) => Some(pm.syslogger->0.child_slot),
        None => match c.found {
            Some((slot, _)) => Some(slot),
            None => None,
        },
    }
}

/// Reaping a tracked child first gives its slot back, once its thread is gone.
pub proof fn law_reaping_releases_the_slot(
    pm: PostmasterState,
    c: ReapedChild,
    logging_collector: bool,
    mask: u32,
    now: i64,
    pm1: PostmasterState,
    actions: Seq<PmAction>,
)
    requires
        reaped(pm, c, logging_collector, mask, now, pm1, actions),
        tracked_slot(pm, c) is Some,
    ensures
        actions.len() > 0,
        actions[0] == PmAction::ReleaseChildSlot(tracked_slot(pm, c)->0),
{
}

/// While a crash or an immediate shutdown is under way, another crash adds
/// nothing.
pub proof fn law_second_crash_is_silent(pm: PostmasterState, name: ProcName, pid: i32, exitstatus: i32)
    requires
        pm.fatal_error || pm.shutdown == ImmediateShutdown,
    ensures
        crash_actions(pm, true, name, pid, exitstatus) =~= Seq::<PmAction>::empty(),
{
}

/// A reaped child that was held by name is no longer held.
pub proof fn law_reaped_child_is_forgotten(
    pm: PostmasterState,
    c: ReapedChild,
    logging_collector: bool,
    mask: u32,
    now: i64,
    pm1: PostmasterState,
    actions: Seq<PmAction>,
)
    requires
        reaped(pm, c, logging_collector, mask, now, pm1, actions),
    ensures
        match named_owner(pm, c.pid) {
            Some(NamedChild::Startup) => pm1.startup is None,
            Some(NamedChild::BgWriter) => pm1.bgwriter is None,
            Some(NamedChild::Checkpointer) => pm1.checkpointer is None,
            Some(NamedChild::WalWriter) => pm1.walwriter is None,
            Some(NamedChild::AutovacLauncher) => pm1.autovac_launcher is None,
            Some(NamedChild::WalSummarizer) => pm1.walsummarizer is None,
            Some(NamedChild::WalReceiver) => pm1.walreceiver is None,
            Some(NamedChild::Archiver) => pm1.pgarch is None,
            Some(NamedChild::SlotSync) => pm1.slotsync_worker is None,
            Some(NamedChild::SysLogger) => pm1.syslogger is None,
            None => true,
        },
{
}

/// Recovery that ends with exit code 0, outside of a shutdown, opens the
/// server: the running phase, connections allowed, nothing left of a crash.
pub proof fn law_recovery_success_opens_the_server(pm: PostmasterState, child: PmChild, exitstatus: i32, now: i64)
    requires
        code_is(exitstatus, 0),
        pm.shutdown <= NoShutdown,
    ensures
        ({
            let out = reap_startup(pm, child, exitstatus, now);
            &&& out.pm.pm_state == PMState::PM_RUN
            &&& out.pm.conns_allowed
            &&& !out.pm.fatal_error
            &&& out.pm.startup_status == StartupStatusEnum::NotRunning
        }),
{
}

} // verus!
