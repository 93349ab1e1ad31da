//! The life of a pool thread between its tasks.
use vstd::prelude::*;
use crate::launch;
use crate::launch::ChildThreads;
use crate::wpool;
use crate::wpool::{
    may_repark, release_retained_identity, standby_claimed, standby_repark, standby_retired,
    Standby, StandbyThread, TaskEpochs, WorkerPool,
};

verus! {

/// What a pool thread waited for.
#[derive(Clone, Copy, Debug, PartialEq, Eq, Structural)]
pub enum StandbyEvent {
    /// A task came, under this pid.
    Task(i32),
    /// The task ended. The thread may have kept its identity.
    TaskEnded { e: TaskEpochs, parked: bool, have_proc: bool },
    /// The session is forgotten, the channels are new, and the pool is locked.
    ReadyToPark { e: TaskEpochs, have_proc: bool, retained_db: u32, id: u64 },
    /// Nobody will send a task any more.
    Retired { have_proc: bool, stuck: bool },
    /// Whoever waited for the identity was told.
    Acknowledged,
}

/// What a pool thread does.
#[derive(Clone, Copy, Debug, PartialEq, Eq, Structural)]
pub enum StandbyAction {
    BeginTask,
    RunTask(i32),
    /// Forget the session and the exit state; open new channels.
    ResetForPark,
    /// Wait for a task in the pool.
    Wait,
    /// Give the identity back through shared memory.
    ReleaseShared,
    ClearIdentity,
    /// Tell the one who waits for the identity.
    Acknowledge,
    ParkForever,
    End,
}

/// Giving up what was kept under an epoch.
pub open spec fn released(pool: WorkerPool, epoch: u64, have_proc: bool) -> Seq<StandbyAction> {
    (if pool.crash_epoch == epoch && have_proc {
        seq![StandbyAction::ReleaseShared]
    } else {
        Seq::empty()
    }) + seq![StandbyAction::ClearIdentity]
}

/// What a pool thread does next.
pub open spec fn standby_actions(th: StandbyThread, pool: WorkerPool, ev: StandbyEvent) -> Seq<
    StandbyAction,
> {
    match ev {
        StandbyEvent::Task(pid) => seq![StandbyAction::BeginTask, StandbyAction::RunTask(pid)],
        StandbyEvent::TaskEnded { e, parked, have_proc } => if parked && pool.flush_epoch
            == e.flush {
            seq![StandbyAction::ResetForPark]
        } else {
            released(pool, e.crash, have_proc) + seq![StandbyAction::End]
        },
        StandbyEvent::ReadyToPark { e, have_proc, .. } => if wpool::unfenced(pool, e) {
            seq![StandbyAction::Wait]
        } else {
            released(pool, e.crash, have_proc) + seq![StandbyAction::End]
        },
        StandbyEvent::Retired { have_proc, stuck } => if stuck {
            seq![StandbyAction::ParkForever]
        } else {
            released(pool, th.parked_crash_epoch, have_proc) + seq![StandbyAction::Acknowledge]
        },
        StandbyEvent::Acknowledged => seq![StandbyAction::End],
    }
}

/// The parked threads after a step.
pub open spec fn standby_pool(th: StandbyThread, pool: WorkerPool, ev: StandbyEvent) -> Seq<
    Standby,
> {
    match ev {
        StandbyEvent::ReadyToPark { e, retained_db, id, .. } => if wpool::unfenced(pool, e) {
            pool.available@.push(Standby { pid: th.thread_key, db: retained_db, id })
        } else {
            pool.available@
        },
        _ => pool.available@,
    }
}

/// The list of threads after a step.
pub open spec fn standby_threads(th: StandbyThread, entries: Seq<(i32, u64)>, ev: StandbyEvent) -> Seq<
    (i32, u64),
> {
    let k = launch::entry_of(entries, th.thread_key);
    if k < entries.len() {
        match ev {
            StandbyEvent::Task(pid) => entries.update(k, (pid, entries[k].1)),
            StandbyEvent::Acknowledged => launch::swap_removed(entries, k),
            _ => entries,
        }
    } else {
        entries
    }
}

/// What the thread knows of itself after a step.
pub open spec fn standby_self(th: StandbyThread, ev: StandbyEvent) -> StandbyThread {
    match ev {
        StandbyEvent::Task(pid) => StandbyThread { thread_key: pid, ..th },
        StandbyEvent::ReadyToPark { e, .. } => StandbyThread { parked_crash_epoch: e.crash, ..th },
        _ => th,
    }
}

fn push_released(acts: &mut Vec<StandbyAction>, pool: &WorkerPool, epoch: u64, have_proc: bool)
    ensures
        final(acts)@ == old(acts)@ + released(*pool, epoch, have_proc),
{
    if release_retained_identity(pool, epoch, have_proc) {
        acts.push(StandbyAction::ReleaseShared);
    }
    acts.push(StandbyAction::ClearIdentity);
    assert(acts@ =~= old(acts)@ + released(*pool, epoch, have_proc));
}

/// One step of a pool thread: a task is run under its own pid; a thread that
/// kept its identity parks again unless a fence came meanwhile; a thread that
/// ends gives back what it kept before anyone is told. Returns the epochs that
/// the step saw as well.
pub fn standby_loop(
    th: &mut StandbyThread,
    threads: &mut ChildThreads,
    pool: &mut WorkerPool,
    ev: StandbyEvent,
) -> (r: (Vec<StandbyAction>, TaskEpochs))
    ensures
        r.0@ == standby_actions(*old(th), *old(pool), ev),
        r.1 == (TaskEpochs { flush: old(pool).flush_epoch, crash: old(pool).crash_epoch }),
        *final(th) == standby_self(*old(th), ev),
        final(threads).entries@ == standby_threads(*old(th), old(threads).entries@, ev),
        final(pool).available@ == standby_pool(*old(th), *old(pool), ev),
        *final(pool) == (WorkerPool { available: final(pool).available, ..*old(pool) }),
{
    let mut acts: Vec<StandbyAction> = Vec::new();
    let epochs: TaskEpochs = TaskEpochs { flush: pool.flush_epoch, crash: pool.crash_epoch };
    match ev {
        StandbyEvent::Task(pid) => {
            let _ = standby_claimed(th, threads, pool, pid);
            acts.push(StandbyAction::BeginTask);
            acts.push(StandbyAction::RunTask(pid));
        },
        StandbyEvent::TaskEnded { e, parked, have_proc } => {
            if may_repark(pool, e, parked) {
                acts.push(StandbyAction::ResetForPark);
            } else {
                push_released(&mut acts, pool, e.crash, have_proc);
                acts.push(StandbyAction::End);
            }
        },
        StandbyEvent::ReadyToPark { e, have_proc, retained_db, id } => {
            if standby_repark(th, pool, e, retained_db, id) {
                acts.push(StandbyAction::Wait);
            } else {
                push_released(&mut acts, pool, e.crash, have_proc);
                acts.push(StandbyAction::End);
            }
        },
        StandbyEvent::Retired { have_proc, stuck } => {
            if stuck {
                acts.push(StandbyAction::ParkForever);
            } else {
                push_released(&mut acts, pool, th.parked_crash_epoch, have_proc);
                acts.push(StandbyAction::Acknowledge);
            }
        },
        StandbyEvent::Acknowledged => {
            standby_retired(th, threads);
            acts.push(StandbyAction::End);
        },
    }
    assert(acts@ =~= standby_actions(*old(th), *old(pool), ev));
    (acts, epochs)
}

/// A standby can be told to never end, once: whether this is that standby.
pub fn stuck_child_take_once(armed: bool, taken: &mut bool) -> (r: bool)
    ensures
        r == (armed && !*old(taken)),
        *final(taken) == (*old(taken) || armed),
{
    if !armed {
        return false;
    }
    let first: bool = !*taken;
    *taken = true;
    first
}

/// A retired thread gives its identity back before it tells anyone, and only
/// then ends.
pub proof fn law_release_precedes_acknowledgement(
    th: StandbyThread,
    pool: WorkerPool,
    have_proc: bool,
    i: int,
)
    requires
        0 <= i < standby_actions(
            th,
            pool,
            StandbyEvent::Retired { have_proc, stuck: false },
        ).len(),
    ensures
        ({
            let a = standby_actions(th, pool, StandbyEvent::Retired { have_proc, stuck: false });
            &&& a.last() == StandbyAction::Acknowledge
            &&& i < a.len() - 1 ==> a[i] == StandbyAction::ReleaseShared || a[i]
                == StandbyAction::ClearIdentity
            &&& a.contains(StandbyAction::ClearIdentity)
            &&& a[i] != StandbyAction::End
        }),
{
    let a = standby_actions(th, pool, StandbyEvent::Retired { have_proc, stuck: false });
    assert(a[a.len() - 2] == StandbyAction::ClearIdentity);
}

/// A thread that was fenced while it worked does not come back to the pool,
/// and after a crash it leaves shared memory alone.
pub proof fn law_fenced_thread_ends(
    th: StandbyThread,
    pool: WorkerPool,
    e: TaskEpochs,
    have_proc: bool,
    retained_db: u32,
    id: u64,
)
    requires
        !wpool::unfenced(pool, e),
    ensures
        ({
            let ev = StandbyEvent::ReadyToPark { e, have_proc, retained_db, id };
            let a = standby_actions(th, pool, ev);
            &&& standby_pool(th, pool, ev) == pool.available@
            &&& a.last() == StandbyAction::End
            &&& pool.crash_epoch != e.crash ==> !a.contains(StandbyAction::ReleaseShared)
        }),
{
    let ev = StandbyEvent::ReadyToPark { e, have_proc, retained_db, id };
    let a = standby_actions(th, pool, ev);
    let r = released(pool, e.crash, have_proc);
    if pool.crash_epoch != e.crash {
        assert(r =~= seq![StandbyAction::ClearIdentity]);
        assert forall|k: int| 0 <= k < a.len() implies a[k] != StandbyAction::ReleaseShared by {}
    }
}

} // verus!
