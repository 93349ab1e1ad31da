//! What holds of child threads, the pool of parked workers and the runtime's
//! executors, over all their steps.
use vstd::prelude::*;
use crate::backend_type::BackendType;
use crate::child_kinds;
use crate::launch;
use crate::launch::{
    ChildLaunchStage, ChildLaunchStep, ChildTask, Payload, Retention, TaskAction, TaskStage,
};
use crate::rtgang;
use crate::rtgang::{GangAction, GangStage};
use crate::rtpool;
use crate::rtpool::{
    BodyEnd, DispatcherAction, GateStep, IdentStage, IdentStep, PoolIdent, PoolStart,
    PoolThreadAction, PoolThreadStage, RuntimeConfig,
};
use crate::standby;
use crate::standby::{StandbyAction, StandbyEvent};
use crate::text;
use crate::wpool;
use crate::wpool::{
    DispatchStage, DispatchStep, FlushStep, MaintainStage, Standby, StandbyThread, TaskEpochs,
    WorkerPool,
};

verus! {

/// Pids are given out one after another; only the supervisor's is passed over.
pub proof fn law_pids_follow_each_other(next: i32, postmaster_pid: i32, k: nat)
    ensures
        next != postmaster_pid ==> launch::reserved(next, postmaster_pid, 0) == next,
        next == postmaster_pid && next < i32::MAX ==> launch::reserved(next, postmaster_pid, 0)
            == next + 1,
        ({
            let p = launch::reserved(next, postmaster_pid, k);
            let q = launch::reserved(next, postmaster_pid, k + 1);
            &&& p < i32::MAX && p + 1 != postmaster_pid ==> q == p + 1
            &&& p < i32::MAX - 1 && p + 1 == postmaster_pid ==> q == p + 2
            &&& p == i32::MAX && postmaster_pid != i32::MIN ==> q == i32::MIN
        }),
        launch::next_pid(next, postmaster_pid) == launch::reserved(next, postmaster_pid, 0),
{
    reveal_with_fuel(launch::reserved, 2);
}

proof fn lemma_entry(entries: Seq<(i32, u64)>, pid: i32)
    ensures
        ({
            let k = launch::entry_of(entries, pid);
            &&& 0 <= k <= entries.len()
            &&& k < entries.len() ==> entries[k].0 == pid
            &&& forall|j: int| 0 <= j < k ==> (#[trigger] entries[j]).0 != pid
        }),
    decreases entries.len(),
{
    if entries.len() > 0 && entries[0].0 != pid {
        lemma_entry(entries.skip(1), pid);
        let k = launch::entry_of(entries, pid);
        assert forall|j: int| 0 <= j < k implies (#[trigger] entries[j]).0 != pid by {
            if j > 0 {
                assert(entries.skip(1)[j - 1] == entries[j]);
            }
        }
    }
}

/// The thread of a child that ended is the first one listed under its pid. It
/// leaves the list, the others stay. A parked thread is neither waited for nor
/// taken off.
pub proof fn law_thread_of_a_child(entries: Seq<(i32, u64)>, pid: i32, k: int)
    requires
        0 <= k < entries.len(),
        entries[k].0 == pid,
        forall|j: int| 0 <= j < k ==> (#[trigger] entries[j]).0 != pid,
    ensures
        launch::thread_to_join(entries, false, pid) == Some(entries[k].1),
        launch::thread_to_join(entries, true, pid) is None,
        launch::threads_left(entries, true, pid) == entries,
        launch::threads_left(entries, false, pid).len() == entries.len() - 1,
        forall|i: int|
            0 <= i < entries.len() - 1 ==> #[trigger] launch::threads_left(entries, false, pid)[i]
                == entries[if i == k {
                entries.len() - 1
            } else {
                i
            }],
{
    lemma_entry(entries, pid);
    let m = launch::entry_of(entries, pid);
    assert(m == k) by {
        if m < k {
            assert(entries[m].0 != pid);
        }
        if k < m {
            assert(entries[k].0 != pid);
        }
    }
}

/// The end of a child that has no thread changes nothing in the list.
pub proof fn law_child_without_a_thread(entries: Seq<(i32, u64)>, parked: bool, pid: i32)
    requires
        forall|j: int| 0 <= j < entries.len() ==> (#[trigger] entries[j]).0 != pid,
    ensures
        launch::thread_to_join(entries, parked, pid) is None,
        launch::threads_left(entries, parked, pid) == entries,
{
    lemma_entry(entries, pid);
}

/// A thread's stack is at least 2 MiB and at least what the environment asks
/// for. It is the process limit where that is finite; else 16 MiB, or the
/// configured depth and 2 MiB.
pub proof fn law_stack_of_a_thread(rlim: int, depth: int, env: int)
    ensures
        ({
            let s = launch::stack_size(rlim, depth, env);
            let finite = 0 < rlim < 9223372036854775807;
            &&& s >= 2097152 && s >= env
            &&& finite ==> s >= rlim
            &&& !finite ==> s >= 16777216 && s >= depth + 2097152
            &&& finite ==> s == 2097152 || s == env || s == rlim
            &&& !finite ==> s == 16777216 || s == env || s == depth + 2097152
        }),
{
}

/// Numbers in the environment: a stack size counts where it fits 64 bits, a
/// period of faults where it is positive and fits 31.
pub proof fn law_numbers_of_the_environment(n: nat)
    ensures
        launch::env_stack(Some(text::dec(n))) == if n <= 0xffff_ffff_ffff_ffff {
            n as int
        } else {
            0
        },
        launch::env_stack(None) == 0,
        launch::fault_period(Some(text::dec_int(n as int))) == if n <= 0x7fff_ffff {
            n as int
        } else {
            0
        },
        launch::fault_period(Some(text::dec_int(-(n as int)))) == 0,
        launch::fault_period(None) == 0,
{
    text::law_numerals_read_back(n);
}

/// The wait status of an exit is its code, eight bits up; that of a signal is
/// its number; anything else counts as SIGABRT.
pub proof fn law_wait_status(code: i32, signo: i32)
    ensures
        0 <= code <= 255 ==> launch::wait_status(Payload::ProcExit(code)) == code * 256,
        launch::wait_status(Payload::Killed(signo)) == signo,
        launch::wait_status(Payload::Other) == 6,
{
    assert(0 <= code <= 255 ==> code << 8 == code * 256) by (bit_vector);
}

/// A thread parks after an exit with code 0, where it kept all it needs, and
/// after no other exit.
pub proof fn law_when_a_thread_parks(code: i32, clean: bool, r: Retention)
    requires
        0 <= code <= 255,
    ensures
        ({
            let all = r.parking && r.proc_retained && r.sinval_retained;
            &&& launch::parks(Payload::ProcExit(code), r) <==> code == 0 && all
            &&& launch::tears_down(Payload::ProcExit(code), clean, r) <==> clean && !(code == 0
                && all)
            &&& !launch::parks(Payload::Other, r)
            &&& !launch::tears_down(Payload::Other, clean, r)
            &&& !launch::tears_down(Payload::Killed(code), clean, r)
            &&& code != 0 ==> !launch::parks(Payload::Killed(code), r)
        }),
{
    law_wait_status(code, code);
}

proof fn lemma_task_if(s: Seq<TaskAction>, c: bool, a: TaskAction, x: TaskAction)
    ensures
        (s + launch::task_if(c, a)).contains(x) <==> s.contains(x) || (c && x == a),
        c ==> (s + launch::task_if(c, a)).last() == a,
        !c ==> s + launch::task_if(c, a) =~= s,
{
    let t = s + launch::task_if(c, a);
    if s.contains(x) {
        let i = choose|i: int| 0 <= i < s.len() && s[i] == x;
        assert(t[i] == x);
    }
    if c && x == a {
        assert(t[s.len() as int] == x);
    }
    if t.contains(x) {
        let i = choose|i: int| 0 <= i < t.len() && t[i] == x;
        if i < s.len() {
            assert(s[i] == x);
        }
    }
}

/// A thread's task begins by taking its pid on: a thread that kept its
/// identity is ready then, another one sets itself up first. Only connections
/// are stamped.
pub proof fn law_task_begins(t: ChildTask, x: TaskAction)
    ensures
        ({
            let (a, next) = launch::task_step(t, TaskStage::Begin);
            &&& a.contains(x) <==> {
                ||| x == TaskAction::StampConnection && (t.child_type == BackendType::Backend
                    || t.child_type == BackendType::WalSender)
                ||| t.warm && (x == TaskAction::InitProcessGlobals(t.pid) || x
                    == TaskAction::RekeyWakeups || x == TaskAction::AdoptSignals(t.pid))
                ||| !t.warm && x == TaskAction::InitChild(t.pid)
            }
            &&& t.warm ==> next is Ready && a.last() == TaskAction::AdoptSignals(t.pid)
            &&& !t.warm ==> next is ChildInit
        }),
{
    let e = Seq::<TaskAction>::empty();
    let c = child_kinds::serves_client(t.child_type);
    lemma_task_if(e, c, TaskAction::StampConnection, x);
    let h = e + launch::task_if(c, TaskAction::StampConnection);
    lemma_task_if(h, true, TaskAction::InitChild(t.pid), x);
    lemma_task_if(h, true, TaskAction::InitProcessGlobals(t.pid), x);
    let h1 = h + launch::task_if(true, TaskAction::InitProcessGlobals(t.pid));
    lemma_task_if(h1, true, TaskAction::RekeyWakeups, x);
    let h2 = h1 + launch::task_if(true, TaskAction::RekeyWakeups);
    lemma_task_if(h2, true, TaskAction::AdoptSignals(t.pid), x);
}

/// A thread that set itself up takes its signals on and is ready; its slot and
/// its client's socket are known before its main function runs.
pub proof fn law_task_runs(t: ChildTask, x: TaskAction)
    ensures
        ({
            let (a, next) = launch::task_step(t, TaskStage::ChildInit(true));
            &&& a.contains(x) <==> x == TaskAction::SetSigquitHandler || x
                == TaskAction::AdoptSignals(t.pid)
            &&& next is Ready
        }),
        ({
            let (a, next) = launch::task_step(t, TaskStage::Ready);
            &&& a.contains(x) <==> {
                ||| x == TaskAction::SetChildSlot(t.slot)
                ||| x == TaskAction::RunMain
                ||| x matches TaskAction::SetClientSocket(s) && t.client_sock == Some(s)
            }
            &&& a.last() == TaskAction::RunMain
            &&& next is MainEnded
        }),
{
    let e = Seq::<TaskAction>::empty();
    lemma_task_if(e, true, TaskAction::SetSigquitHandler, x);
    let h = e + launch::task_if(true, TaskAction::SetSigquitHandler);
    lemma_task_if(h, true, TaskAction::AdoptSignals(t.pid), x);
    lemma_task_if(e, true, TaskAction::SetChildSlot(t.slot), x);
    let g = e + launch::task_if(true, TaskAction::SetChildSlot(t.slot));
    let c = t.client_sock is Some;
    let b = TaskAction::SetClientSocket(t.client_sock->0);
    lemma_task_if(g, c, b, x);
    lemma_task_if(g + launch::task_if(c, b), true, TaskAction::RunMain, x);
}

/// Callbacks that are owed run with the code of the exit, and only after one.
/// Then the client's socket is closed.
pub proof fn law_task_winds_up(
    t: ChildTask,
    payload: Payload,
    pending: bool,
    clean: bool,
    x: TaskAction,
)
    ensures
        ({
            let (a, next) = launch::task_step(
                t,
                TaskStage::MainEnded { payload, callbacks_pending: pending },
            );
            &&& a.contains(x) <==> (x matches TaskAction::RunDeferredCallbacks(c) && payload
                == Payload::ProcExit(c))
            &&& next == (TaskStage::CallbacksRun {
                payload,
                clean: pending && payload is ProcExit,
            })
        }),
        ({
            let (a, next) = launch::task_step(t, TaskStage::CallbacksRun { payload, clean });
            &&& a.contains(x) <==> {
                ||| x == TaskAction::AskRetention
                ||| x matches TaskAction::CloseSocket(s) && t.client_sock == Some(s)
            }
            &&& next matches TaskStage::Finish { payload: p, clean: c, .. } && p == payload && c
                == clean
        }),
{
    let e = Seq::<TaskAction>::empty();
    lemma_task_if(
        e,
        payload is ProcExit,
        TaskAction::RunDeferredCallbacks(payload->ProcExit_0),
        x,
    );
    let c = t.client_sock is Some;
    let b = TaskAction::CloseSocket(t.client_sock->0);
    lemma_task_if(e, c, b, x);
    lemma_task_if(e + launch::task_if(c, b), true, TaskAction::AskRetention, x);
}

/// A task's end gives its signals up and is announced last, with its wait
/// status; where nobody listens the thread unwinds instead. A thread that
/// parks is marked; one that exits cleanly and does not park tears its session
/// down.
#[verifier::rlimit(60)]
pub proof fn law_task_finishes(
    t: ChildTask,
    payload: Payload,
    clean: bool,
    retain: Retention,
    x: TaskAction,
)
    ensures
        ({
            let (a, next) = launch::task_step(t, TaskStage::Finish { payload, clean, retain });
            let kept = retain.parking && retain.proc_retained && retain.sinval_retained;
            let parks = launch::wait_status(payload) == 0 && kept;
            &&& a.contains(x) <==> {
                ||| x == TaskAction::DumpCensus
                ||| x == TaskAction::ReleaseSignals
                ||| x == TaskAction::DiscardSignals(t.pid)
                ||| x == TaskAction::TearDownSession && payload is ProcExit && clean && !parks
                ||| x == TaskAction::MarkParked(t.pid) && parks
                ||| x == TaskAction::Announce {
                    pid: t.pid,
                    exitstatus: launch::wait_status(payload),
                } && t.announce_installed
                ||| x == TaskAction::ResumeUnwind && !t.announce_installed
            }
            &&& t.announce_installed ==> a.last() == TaskAction::Announce {
                pid: t.pid,
                exitstatus: launch::wait_status(payload),
            }
            &&& !t.announce_installed ==> a.last() == TaskAction::ResumeUnwind
            &&& next is Done
        }),
{
    let e = Seq::<TaskAction>::empty();
    let c1 = launch::tears_down(payload, clean, retain);
    lemma_task_if(e, c1, TaskAction::TearDownSession, x);
    let s1 = e + launch::task_if(c1, TaskAction::TearDownSession);
    lemma_task_if(s1, true, TaskAction::DumpCensus, x);
    let s2 = s1 + launch::task_if(true, TaskAction::DumpCensus);
    lemma_task_if(s2, true, TaskAction::ReleaseSignals, x);
    let s3 = s2 + launch::task_if(true, TaskAction::ReleaseSignals);
    lemma_task_if(s3, true, TaskAction::DiscardSignals(t.pid), x);
    let s4 = s3 + launch::task_if(true, TaskAction::DiscardSignals(t.pid));
    let c5 = launch::parks(payload, retain);
    lemma_task_if(s4, c5, TaskAction::MarkParked(t.pid), x);
    let s5 = s4 + launch::task_if(c5, TaskAction::MarkParked(t.pid));
    let b = TaskAction::Announce { pid: t.pid, exitstatus: launch::wait_status(payload) };
    lemma_task_if(s5, t.announce_installed, b, x);
    let s6 = s5 + launch::task_if(t.announce_installed, b);
    lemma_task_if(s6, !t.announce_installed, TaskAction::ResumeUnwind, x);
}

/// A child that could not set itself up leaves no signals behind, is logged,
/// tells its client, and announces an exit with code 1. It is done then.
pub proof fn law_task_cannot_start(t: ChildTask, x: TaskAction)
    ensures
        ({
            let (a, next) = launch::task_step(t, TaskStage::ChildInit(false));
            &&& a.contains(x) <==> {
                ||| x == TaskAction::DiscardSignals(t.pid)
                ||| x == TaskAction::LogStartFailure
                ||| x matches TaskAction::ReportToClient(s) && t.client_sock == Some(s) && s >= 0
                ||| x matches TaskAction::CloseSocket(s) && t.client_sock == Some(s) && s >= 0
                ||| x == TaskAction::Announce { pid: t.pid, exitstatus: 256 }
                    && t.announce_installed
            }
            &&& next is Done
        }),
{
    let e = Seq::<TaskAction>::empty();
    lemma_task_if(e, true, TaskAction::DiscardSignals(t.pid), x);
    let s1 = e + launch::task_if(true, TaskAction::DiscardSignals(t.pid));
    lemma_task_if(s1, true, TaskAction::LogStartFailure, x);
    let s2 = s1 + launch::task_if(true, TaskAction::LogStartFailure);
    let c = launch::has_client(t);
    let b = TaskAction::ReportToClient(t.client_sock->0);
    lemma_task_if(s2, c, b, x);
    let s3 = s2 + launch::task_if(c, b);
    let d = TaskAction::CloseSocket(t.client_sock->0);
    lemma_task_if(s3, c, d, x);
    let s4 = s3 + launch::task_if(c, d);
    let f = TaskAction::Announce { pid: t.pid, exitstatus: 256 };
    lemma_task_if(s4, t.announce_installed, f, x);
}

/// A launch tries a job first; a thread gets the next pid that is not the
/// supervisor's. It succeeded where the job or the thread runs.
pub proof fn law_launch_of_a_child(
    child_type: BackendType,
    next: i32,
    postmaster_pid: i32,
    pid: i32,
    handle: Option<u64>,
)
    ensures
        launch::child_launch_step(child_type, next, postmaster_pid, ChildLaunchStage::Begin)
            == ChildLaunchStep::TryJob,
        launch::child_launch_step(
            child_type,
            next,
            postmaster_pid,
            ChildLaunchStage::JobTried(Some(pid)),
        ) == ChildLaunchStep::Launched(pid),
        launch::child_launch_step(
            child_type,
            next,
            postmaster_pid,
            ChildLaunchStage::JobTried(None),
        ) matches ChildLaunchStep::Spawn { pid: p, stamp } && p != postmaster_pid && (next
            != postmaster_pid ==> p == next) && (stamp <==> child_type == BackendType::Backend
            || child_type == BackendType::WalSender),
        launch::child_launch_step(
            child_type,
            next,
            postmaster_pid,
            ChildLaunchStage::Spawned { pid, handle },
        ) == if handle is Some {
            ChildLaunchStep::Launched(pid)
        } else {
            ChildLaunchStep::Failed(pid)
        },
{
}

/// Of the kinds that serve a client, only the backend has a main function; of
/// those with one, only the logger stays away from shared memory.
pub proof fn law_kinds_of_children(t: BackendType)
    ensures
        child_kinds::serves_client(t) && child_kinds::kind_has_main(t) <==> t
            == BackendType::Backend,
        child_kinds::kind_has_main(t) && !child_kinds::kind_attaches(t) <==> t
            == BackendType::Logger,
        child_kinds::serves_client(t) && !child_kinds::kind_has_main(t) <==> t
            == BackendType::WalSender,
        !child_kinds::kind_has_main(t) && !child_kinds::kind_attaches(t) <==> t
            == BackendType::Invalid || t == BackendType::StandaloneBackend,
        rtpool::migrated(t) <==> t == BackendType::BgWriter || t == BackendType::WalWriter,
{
}

proof fn lemma_place(pids: Seq<i32>, pid: i32)
    ensures
        ({
            let k = wpool::place_of(pids, pid);
            &&& 0 <= k <= pids.len()
            &&& k < pids.len() ==> pids[k] == pid
            &&& forall|j: int| 0 <= j < k ==> #[trigger] pids[j] != pid
        }),
    decreases pids.len(),
{
    if pids.len() > 0 && pids[0] != pid {
        lemma_place(pids.skip(1), pid);
        let k = wpool::place_of(pids, pid);
        assert forall|j: int| 0 <= j < k implies #[trigger] pids[j] != pid by {
            if j > 0 {
                assert(pids.skip(1)[j - 1] == pids[j]);
            }
        }
    }
}

/// A note that an end only parks a thread is used up by one end: one note
/// about the pid goes, all others stay.
pub proof fn law_note_is_used_once(parked: Seq<i32>, pid: i32, k: int)
    requires
        0 <= k < parked.len(),
        parked[k] == pid,
        forall|j: int| 0 <= j < k ==> #[trigger] parked[j] != pid,
    ensures
        wpool::notes_left(parked, pid).len() == parked.len() - 1,
        forall|i: int|
            0 <= i < parked.len() - 1 ==> #[trigger] wpool::notes_left(parked, pid)[i] == parked[if i
                == k {
                parked.len() - 1
            } else {
                i
            }],
{
    lemma_place(parked, pid);
    let m = wpool::place_of(parked, pid);
    assert(parked.contains(pid));
    assert(m == k) by {
        if m < k {
            assert(parked[m] != pid);
        }
        if k < m {
            assert(parked[k] != pid);
        }
    }
}

/// The end of a pid that no note is about uses up none.
pub proof fn law_other_notes_stay(parked: Seq<i32>, pid: i32)
    requires
        !parked.contains(pid),
    ensures
        wpool::notes_left(parked, pid) == parked,
{
}

/// A lap of upkeep fills the pool up to its target, one thread at a time, and
/// stops at the first that cannot be started. It shrinks a pool that is too
/// large, by parked threads only.
pub proof fn law_upkeep_reaches_the_target(pool: WorkerPool, target: i32, left: i32, ok: bool)
    ensures
        pool.population < target ==> pool.population + wpool::spawns_left(
            pool,
            target,
            MaintainStage::Begin,
        ) == target,
        pool.population >= target ==> wpool::spawns_left(pool, target, MaintainStage::Begin) == 0,
        wpool::shrinks(pool, target, MaintainStage::Begin) <==> pool.population >= target,
        ({
            let s = MaintainStage::Spawned { left, ok };
            &&& ok && left > 0 ==> wpool::spawns_left(pool, target, s) == left - 1
            &&& !ok ==> wpool::spawns_left(pool, target, s) == 0 && !wpool::shrinks(
                pool,
                target,
                s,
            )
            &&& ok ==> (wpool::shrinks(pool, target, s) <==> left <= 1)
        }),
        wpool::spawns_left(pool, target, MaintainStage::Done) == 0,
        !wpool::shrinks(pool, target, MaintainStage::Done),
        pool.population <= target ==> wpool::to_retire(pool, target) == 0,
        pool.population > target ==> {
            let n = wpool::to_retire(pool, target);
            &&& 0 <= n <= pool.available@.len()
            &&& pool.population - n >= target
            &&& n == pool.available@.len() || pool.population - n == target
        },
{
}

/// The gap is the target less the population, where that is positive.
pub proof fn law_gap(population: int, target: int)
    ensures
        wpool::deficit(population, target) >= 0,
        population + wpool::deficit(population, target) >= target,
        wpool::deficit(population, target) > 0 ==> population + wpool::deficit(population, target)
            == target,
{
}

/// An epoch always moves on.
pub proof fn law_epochs_move_on(e: u64)
    ensures
        wpool::next_epoch(e) != e,
        e < 0xffff_ffff_ffff_ffff ==> wpool::next_epoch(e) == e + 1,
{
}

/// Before memory is reset each parked thread is retired, in order, and the
/// executors are fenced last.
pub proof fn law_flush_before_a_reset(parked: Seq<Standby>, i: int)
    requires
        0 <= i < parked.len(),
    ensures
        wpool::flush_steps(parked).len() == parked.len() + 1,
        wpool::flush_steps(parked)[i] == FlushStep::Retire(parked[i]),
        wpool::flush_steps(parked).last() == FlushStep::FenceExecutors,
        wpool::flush_steps(Seq::empty()) =~= seq![FlushStep::FenceExecutors],
{
}

proof fn lemma_of_db(avail: Seq<Standby>, db: u32)
    ensures
        ({
            let k = wpool::first_of_db(avail, db);
            &&& 0 <= k <= avail.len()
            &&& k < avail.len() ==> avail[k].db == db
            &&& forall|j: int| 0 <= j < k ==> (#[trigger] avail[j]).db != db
        }),
    decreases avail.len(),
{
    if avail.len() > 0 && avail[0].db != db {
        lemma_of_db(avail.skip(1), db);
        let k = wpool::first_of_db(avail, db);
        assert forall|j: int| 0 <= j < k implies (#[trigger] avail[j]).db != db by {
            if j > 0 {
                assert(avail.skip(1)[j - 1] == avail[j]);
            }
        }
    }
}

proof fn lemma_pinned(avail: Seq<Standby>)
    ensures
        ({
            let k = wpool::first_pinned(avail);
            &&& 0 <= k <= avail.len()
            &&& k < avail.len() ==> avail[k].db != 0
            &&& forall|j: int| 0 <= j < k ==> (#[trigger] avail[j]).db == 0
        }),
    decreases avail.len(),
{
    if avail.len() > 0 && avail[0].db == 0 {
        lemma_pinned(avail.skip(1));
        let k = wpool::first_pinned(avail);
        assert forall|j: int| 0 <= j < k implies (#[trigger] avail[j]).db == 0 by {
            if j > 0 {
                assert(avail.skip(1)[j - 1] == avail[j]);
            }
        }
    }
}

/// Whether a parked thread of this database is there (0: a fresh one).
pub open spec fn has_standby(avail: Seq<Standby>, db: u32) -> bool {
    exists|k: int| 0 <= k < avail.len() && (#[trigger] avail[k]).db == db
}

/// Whether a thread is the first of its database among the parked ones, and
/// the rest is what is left without it.
pub open spec fn takes_first(avail: Seq<Standby>, left: Seq<Standby>, sb: Standby) -> bool {
    exists|k: int|
        {
            &&& 0 <= k < avail.len()
            &&& #[trigger] avail[k] == sb
            &&& forall|j: int| 0 <= j < k ==> (#[trigger] avail[j]).db != sb.db
            &&& left.len() == avail.len() - 1
            &&& forall|i: int|
                0 <= i < left.len() ==> #[trigger] left[i] == avail[if i == k {
                    avail.len() - 1
                } else {
                    i
                }]
        }
}

/// A task goes to a parked thread with the caches of its database where there
/// is one, else to a fresh one; the thread leaves the pool. Where all parked
/// threads are of other databases one of them is retired, and only an empty
/// pool is a plain miss.
pub proof fn law_who_serves_a_task(pool: WorkerPool, next: i32, postmaster_pid: i32, dboid: u32)
    requires
        dboid != 0,
    ensures
        ({
            let avail = pool.available@;
            let left = wpool::dispatch_available(pool, dboid, DispatchStage::Begin);
            let step = wpool::dispatch_step(
                pool,
                next,
                postmaster_pid,
                dboid,
                DispatchStage::Begin,
            );
            &&& has_standby(avail, dboid) ==> (step matches DispatchStep::AssignSlot { sb, e }
                && sb.db == dboid && takes_first(avail, left, sb) && e.flush == pool.flush_epoch
                && e.crash == pool.crash_epoch)
            &&& !has_standby(avail, dboid) && has_standby(avail, 0) ==> (
            step matches DispatchStep::AssignSlot { sb, e } && sb.db == 0 && takes_first(
                avail,
                left,
                sb,
            ) && e.flush == pool.flush_epoch && e.crash == pool.crash_epoch)
            &&& !has_standby(avail, dboid) && !has_standby(avail, 0) && avail.len() > 0 ==> (
            step matches DispatchStep::RetireMismatch(sb) && sb == avail[0] && takes_first(
                avail,
                left,
                sb,
            ))
            &&& avail.len() == 0 ==> step is Miss && left == avail
        }),
{
    let avail = pool.available@;
    lemma_of_db(avail, dboid);
    lemma_of_db(avail, 0);
    lemma_pinned(avail);
    let k = wpool::claim_place(avail, dboid);
    let v = wpool::first_pinned(avail);
    let left = wpool::dispatch_available(pool, dboid, DispatchStage::Begin);
    if has_standby(avail, dboid) {
        assert(wpool::first_of_db(avail, dboid) < avail.len());
        assert(takes_first(avail, left, avail[k]));
    } else if has_standby(avail, 0) {
        if wpool::first_of_db(avail, dboid) < avail.len() {
            assert(avail[wpool::first_of_db(avail, dboid)].db == dboid);
        }
        assert(wpool::first_of_db(avail, 0) < avail.len());
        assert(takes_first(avail, left, avail[k]));
    } else if avail.len() > 0 {
        if wpool::first_of_db(avail, dboid) < avail.len() {
            assert(avail[wpool::first_of_db(avail, dboid)].db == dboid);
        }
        if wpool::first_of_db(avail, 0) < avail.len() {
            assert(avail[wpool::first_of_db(avail, 0)].db == 0);
        }
        assert(avail[0].db != 0);
        assert(v == 0);
        assert(takes_first(avail, left, avail[v]));
    }
}

/// A claimed thread is sent its task under a pid of its own; without a slot
/// the task is missed, and the thread comes back unless a fence came. A thread
/// that is gone means another try.
pub proof fn law_task_is_handed_over(
    pool: WorkerPool,
    next: i32,
    postmaster_pid: i32,
    dboid: u32,
    sb: Standby,
    e: TaskEpochs,
    slot: Option<i32>,
    pid: i32,
    ok: bool,
)
    ensures
        ({
            let st = DispatchStage::SlotAssigned { sb, e, slot };
            let step = wpool::dispatch_step(pool, next, postmaster_pid, dboid, st);
            let left = wpool::dispatch_available(pool, dboid, st);
            &&& slot is Some ==> (step matches DispatchStep::Send {
                sb: s,
                child_slot,
                task_pid,
            } && s == sb && child_slot == slot->0 && task_pid != postmaster_pid && (next
                != postmaster_pid ==> task_pid == next) && left == pool.available@)
            &&& slot is None ==> step is Miss
            &&& slot is None && pool.flush_epoch == e.flush && pool.crash_epoch == e.crash ==> left
                == pool.available@.push(sb)
            &&& slot is None && (pool.flush_epoch != e.flush || pool.crash_epoch != e.crash)
                ==> left == pool.available@
        }),
        ({
            let st = DispatchStage::Sent { child_slot: slot->0, task_pid: pid, ok };
            let step = wpool::dispatch_step(pool, next, postmaster_pid, dboid, st);
            &&& ok ==> step == DispatchStep::Dispatched(pid)
            &&& !ok ==> step == DispatchStep::Retry { child_slot: slot->0, task_pid: pid }
            &&& wpool::dispatch_available(pool, dboid, st) == pool.available@
        }),
{
}

/// Threads of a dropped database leave the pool, and no others.
pub proof fn law_dropped_database(avail: Seq<Standby>, db: u32, sb: Standby)
    ensures
        wpool::not_pinned_to(avail, db).contains(sb) <==> avail.contains(sb) && sb.db != db,
        wpool::pinned_to(avail, db).contains(sb) <==> avail.contains(sb) && sb.db == db,
        wpool::not_pinned_to(avail, db).len() + wpool::pinned_to(avail, db).len() == avail.len(),
    decreases avail.len(),
{
    broadcast use vstd::seq_lib::group_seq_properties;

    reveal(Seq::filter);
    if avail.len() > 0 {
        law_dropped_database(avail.drop_last(), db, sb);
        assert(avail =~= avail.drop_last().push(avail.last()));
    }
}

/// A pool thread runs each task under the task's pid, and is listed under it.
pub proof fn law_thread_takes_a_task(
    th: StandbyThread,
    pool: WorkerPool,
    entries: Seq<(i32, u64)>,
    pid: i32,
    k: int,
)
    requires
        0 <= k < entries.len(),
        entries[k].0 == th.thread_key,
        forall|j: int| 0 <= j < k ==> (#[trigger] entries[j]).0 != th.thread_key,
    ensures
        ({
            let ev = StandbyEvent::Task(pid);
            &&& standby::standby_actions(th, pool, ev).last() == StandbyAction::RunTask(pid)
            &&& standby::standby_actions(th, pool, ev)[0] == StandbyAction::BeginTask
            &&& standby::standby_self(th, ev).thread_key == pid
            &&& standby::standby_self(th, ev).parked_crash_epoch == th.parked_crash_epoch
            &&& standby::standby_threads(th, entries, ev) =~= entries.update(
                k,
                (pid, entries[k].1),
            )
            &&& standby::standby_pool(th, pool, ev) == pool.available@
        }),
{
    lemma_entry(entries, th.thread_key);
    let m = launch::entry_of(entries, th.thread_key);
    assert(m == k) by {
        if m < k {
            assert(entries[m].0 != th.thread_key);
        }
        if k < m {
            assert(entries[k].0 != th.thread_key);
        }
    }
}

/// A thread whose task parked it gets ready to park again, unless there was a
/// flush meanwhile; every other one gives up what it kept and ends. What it
/// kept goes back through shared memory only where it has an identity and
/// memory was not reset.
pub proof fn law_thread_after_its_task(
    th: StandbyThread,
    pool: WorkerPool,
    e: TaskEpochs,
    parked: bool,
    have_proc: bool,
    x: StandbyAction,
)
    ensures
        ({
            let a = standby::standby_actions(
                th,
                pool,
                StandbyEvent::TaskEnded { e, parked, have_proc },
            );
            let again = parked && pool.flush_epoch == e.flush;
            &&& a.contains(x) <==> {
                ||| again && x == StandbyAction::ResetForPark
                ||| !again && x == StandbyAction::ClearIdentity
                ||| !again && x == StandbyAction::End
                ||| !again && x == StandbyAction::ReleaseShared && have_proc && pool.crash_epoch
                    == e.crash
            }
            &&& !again ==> a.last() == StandbyAction::End
        }),
{
    broadcast use vstd::seq_lib::group_seq_properties;

}

/// A thread that parks waits in the pool, under its own pid, with the database
/// whose caches it kept, and remembers the epoch; a fenced one ends.
pub proof fn law_thread_parks(
    th: StandbyThread,
    pool: WorkerPool,
    e: TaskEpochs,
    have_proc: bool,
    db: u32,
    id: u64,
    x: StandbyAction,
)
    ensures
        ({
            let ev = StandbyEvent::ReadyToPark { e, have_proc, retained_db: db, id };
            let a = standby::standby_actions(th, pool, ev);
            let open = pool.flush_epoch == e.flush && pool.crash_epoch == e.crash;
            let after = standby::standby_pool(th, pool, ev);
            &&& a.contains(x) <==> {
                ||| open && x == StandbyAction::Wait
                ||| !open && x == StandbyAction::ClearIdentity
                ||| !open && x == StandbyAction::End
                ||| !open && x == StandbyAction::ReleaseShared && have_proc && pool.crash_epoch
                    == e.crash
            }
            &&& open ==> after.len() == pool.available@.len() + 1 && after.drop_last()
                =~= pool.available@ && after.last().pid == th.thread_key && after.last().db == db
                && after.last().id == id
            &&& !open ==> after == pool.available@
            &&& standby::standby_self(th, ev).parked_crash_epoch == e.crash
            &&& standby::standby_self(th, ev).thread_key == th.thread_key
        }),
{
    broadcast use vstd::seq_lib::group_seq_properties;

}

/// A retired thread gives up what it kept, by the epoch it parked under, and
/// says so; one that is stuck does nothing. It leaves the list of threads only
/// when that was acknowledged, and ends.
pub proof fn law_thread_is_retired(
    th: StandbyThread,
    pool: WorkerPool,
    entries: Seq<(i32, u64)>,
    have_proc: bool,
    x: StandbyAction,
    k: int,
)
    requires
        0 <= k < entries.len(),
        entries[k].0 == th.thread_key,
        forall|j: int| 0 <= j < k ==> (#[trigger] entries[j]).0 != th.thread_key,
    ensures
        ({
            let ev = StandbyEvent::Retired { have_proc, stuck: false };
            let a = standby::standby_actions(th, pool, ev);
            &&& a.contains(x) <==> {
                ||| x == StandbyAction::ClearIdentity
                ||| x == StandbyAction::Acknowledge
                ||| x == StandbyAction::ReleaseShared && have_proc && pool.crash_epoch
                    == th.parked_crash_epoch
            }
            &&& a.last() == StandbyAction::Acknowledge
            &&& standby::standby_threads(th, entries, ev) == entries
            &&& standby::standby_pool(th, pool, ev) == pool.available@
            &&& standby::standby_self(th, ev) == th
        }),
        standby::standby_actions(
            th,
            pool,
            StandbyEvent::Retired { have_proc, stuck: true },
        ).contains(x) <==> x == StandbyAction::ParkForever,
        standby::standby_actions(th, pool, StandbyEvent::Acknowledged).contains(x) <==> x
            == StandbyAction::End,
        standby::standby_threads(th, entries, StandbyEvent::Acknowledged).len() == entries.len()
            - 1,
        forall|i: int|
            0 <= i < entries.len() - 1 ==> #[trigger] standby::standby_threads(
                th,
                entries,
                StandbyEvent::Acknowledged,
            )[i] == entries[if i == k {
                entries.len() - 1
            } else {
                i
            }],
{
    broadcast use vstd::seq_lib::group_seq_properties;

    lemma_entry(entries, th.thread_key);
    let m = launch::entry_of(entries, th.thread_key);
    assert(m == k) by {
        if m < k {
            assert(entries[m].0 != th.thread_key);
        }
        if k < m {
            assert(entries[k].0 != th.thread_key);
        }
    }
}

/// Where executors serve queries, settings, gate and evictor are in place
/// before any of them runs; the dispatcher starts last.
pub proof fn law_start_of_the_pool(armed: bool, i: int, j: int)
    ensures
        ({
            let a = rtpool::start_steps(armed);
            let b = 0 <= i < a.len() && 0 <= j < a.len();
            &&& armed ==> a.len() == 8 && a[0] == PoolStart::CaptureSettings
            &&& !armed ==> a.len() == 5
            &&& b && (a[i] is CaptureSettings || a[i] is InstallGate || a[i] is InstallEvictor)
                ==> armed
            &&& b && i != j ==> a[i] != a[j]
            &&& b && (a[i] is CaptureSettings || a[i] is InstallGate || a[i] is InstallEvictor
                || a[i] is InstallAffinity) && a[j] is SpawnWorkers ==> i < j
            &&& b && a[i] is SpawnWorkers && (a[j] is InstallGlobal || a[j] is PublishLive) ==> i
                < j
            &&& b && a[i] is InstallGlobal && a[j] is PublishLive ==> i < j
            &&& a.last() == PoolStart::StartDispatcher
        }),
{
}

/// Process slots are set aside for pool threads only where all three switches
/// are on: one for each worker and standby, 2048 at most.
pub proof fn law_slots_of_the_pool(cfg: RuntimeConfig)
    ensures
        rtpool::armed(cfg) <==> cfg.runtime_enabled && cfg.pool_binding_enabled
            && cfg.pooldb_enabled,
        ({
            let n = rtpool::pool_procs(cfg);
            let on = cfg.runtime_enabled && cfg.pool_binding_enabled && cfg.pooldb_enabled;
            &&& 0 <= n <= 2048 && n <= cfg.workers + cfg.standbys
            &&& n > 0 ==> on
            &&& on ==> n == cfg.workers + cfg.standbys || n == 2048
        }),
{
}

/// A thread serves exactly where its identity is of the fence's epoch.
pub proof fn law_gate_of_the_pool(ident: PoolIdent, fence: u64)
    ensures
        rtpool::gate(ident, fence) == GateStep::Serve <==> ident == PoolIdent::Ready(fence),
        rtpool::gate(ident, fence) == GateStep::Complete <==> ident == PoolIdent::Absent,
        rtpool::gate(ident, fence) == GateStep::Refuse <==> ident == PoolIdent::Poisoned,
        rtpool::stale(ident, fence) <==> ident is Ready && ident != PoolIdent::Ready(fence),
        rtpool::stale(ident, fence) <==> rtpool::gate(ident, fence) == GateStep::RetireRaw,
{
}

/// An identity is taken only where no reset is pending. A thread that could
/// not take one never serves; one whose base setup failed does not serve
/// either, and keeps what it took until it exits.
pub proof fn law_taking_an_identity(ident: PoolIdent, pending: bool, fence: u64, ok: bool)
    ensures
        ({
            let (s, after) = rtpool::ident_step(
                ident,
                IdentStage::Begin { crash_pending: pending, fence },
            );
            &&& s == IdentStep::NotNow <==> pending
            &&& !pending ==> s == IdentStep::Claim { epoch: fence }
            &&& after == ident
        }),
        ({
            let (s, after) = rtpool::ident_step(ident, IdentStage::Claimed { epoch: fence, ok });
            &&& ok ==> s == IdentStep::BaseInit && after == PoolIdent::Ready(fence)
            &&& !ok ==> s == IdentStep::ClaimFailed && rtpool::gate(after, fence)
                == GateStep::Refuse
        }),
        ({
            let (s, after) = rtpool::ident_step(ident, IdentStage::BaseDone(ok));
            &&& s == IdentStep::Serve <==> ok
            &&& s == IdentStep::BaseFailed <==> !ok
            &&& after == ident
        }),
{
}

/// A pool thread whose setup fails at any point is warned about where it had
/// begun, never serves queries, and still runs its loop.
pub proof fn law_pool_thread_starts(ok: bool, x: PoolThreadAction)
    ensures
        ({
            let a = rtpool::pool_thread_step(PoolThreadStage::Begin { have_boot: ok });
            &&& a.contains(x) <==> if ok {
                x is ApplySettings
            } else {
                x is Poison || x is RunBody
            }
            &&& !ok ==> a.last() is RunBody
        }),
        ({
            let a = rtpool::pool_thread_step(PoolThreadStage::Settings(ok));
            &&& a.contains(x) <==> if ok {
                x is InitChild
            } else {
                x is WarnSettings || x is Poison || x is RunBody
            }
            &&& !ok ==> a.last() is RunBody
        }),
        ({
            let a = rtpool::pool_thread_step(PoolThreadStage::ChildInit(ok));
            &&& a.contains(x) <==> if ok {
                x is SetSigquitHandler || x is SetBackendType || x is AdoptWorkerEntry
                    || x is InitTimeouts || x is RunBodyGuarded
            } else {
                x is WarnChildInit || x is Poison || x is RunBody
            }
            &&& ok ==> a.last() is RunBodyGuarded
            &&& !ok ==> a.last() is RunBody
        }),
{
    broadcast use vstd::seq_lib::group_seq_properties;

}

/// A pool thread that ended other than cleanly is replaced, as its last act,
/// and drops its session first. It runs exit callbacks with the code of its
/// exit, or 2 after a panic, unless a fence came; then it only warns.
pub proof fn law_pool_thread_ends(
    end: BodyEnd,
    ident: PoolIdent,
    fence: u64,
    x: PoolThreadAction,
)
    ensures
        ({
            let a = rtpool::pool_thread_step(PoolThreadStage::Ended { end, ident, fence });
            let old_memory = rtpool::gate(ident, fence) == GateStep::RetireRaw;
            let exits = end is ProcExit || end is Panic;
            &&& end is Clean ==> a.len() == 0
            &&& !(end is Clean) ==> a.len() > 0 && a[0] is DropStickySession && a.last() is Respawn
            &&& a.contains(x) <==> {
                ||| !(end is Clean) && (x is DropStickySession || x is Respawn)
                ||| exits && x is ChargeBusy
                ||| exits && old_memory && x is WarnCrossedFence
                ||| exits && !old_memory && (x matches PoolThreadAction::RunDeferredCallbacks(c)
                    && (end == BodyEnd::ProcExit(c) || end is Panic && c == 2))
                ||| end is Panic && !old_memory && (x is WarnPanicked || x is RejoinProcarray || x
                    == PoolThreadAction::ProcExit(2))
            }
        }),
{
    broadcast use vstd::seq_lib::group_seq_properties;

}

/// The dispatcher takes the settings over before it runs: as a base that is
/// shared, or one by one. It runs its body only where that worked.
pub proof fn law_dispatcher_thread(base_share: bool, ok: bool, x: DispatcherAction)
    ensures
        ({
            let a = rtpool::dispatcher_actions(base_share, None);
            &&& a.len() == 3 && a[0] is ApplyInherited && a[1] is SetStackBase
            &&& a.last() is BindBase <==> base_share
            &&& a.last() is RestoreSettings <==> !base_share
        }),
        ({
            let a = rtpool::dispatcher_actions(base_share, Some(ok));
            &&& a.len() == 1
            &&& a[0] is RunBody <==> ok
            &&& a[0] is Fail <==> !ok
        }),
{
}

/// The gang is as large as the environment says, white space aside, else as
/// there are workers; never over 1024, and empty where it is off.
pub proof fn law_size_of_the_gang(cfg: RuntimeConfig, a: Seq<char>, n: nat, b: Seq<char>)
    requires
        text::all_white(a),
        text::all_white(b),
    ensures
        ({
            let on = cfg.runtime_enabled && cfg.pool_binding_enabled;
            let env = Some(a + text::dec_int(n as int) + b);
            &&& !on ==> rtgang::gang_size(cfg, env) == 0 && rtgang::gang_size(cfg, None) == 0
            &&& on && cfg.workers <= 1024 ==> rtgang::gang_size(cfg, None) == cfg.workers
            &&& on && cfg.workers > 1024 ==> rtgang::gang_size(cfg, None) == 1024
            &&& on && n <= 1024 ==> rtgang::gang_size(cfg, env) == n
            &&& on && 1024 < n <= 0x7fff_ffff_ffff_ffff ==> rtgang::gang_size(cfg, env) == 1024
            &&& on && n > 0x7fff_ffff_ffff_ffff ==> rtgang::gang_size(cfg, env)
                == rtgang::gang_size(cfg, None)
        }),
{
    let s = text::dec_int(n as int);
    text::law_numerals_read_back(n);
    assert(s == text::dec(n));
    assert(text::is_digit(s[0]) && text::is_digit(s[s.len() - 1]));
    text::law_white_space(s[0]);
    text::law_white_space(s.last());
    text::law_trimming_takes_white_space_off(a, s, b);
}

/// A gang thread goes through its setup step by step, and warns where a step
/// fails. Before it has claimed anything a failure just notes its exit; after
/// that it exits, with code 1, through its callbacks.
pub proof fn law_gang_thread_starts(ok: bool, x: GangAction)
    ensures
        rtgang::gang_step(GangStage::Begin).contains(x) <==> x is ApplyInherited
            || x is ApplySettings,
        rtgang::gang_step(GangStage::Settings(ok)).contains(x) <==> if ok {
            x is InitChild
        } else {
            x is WarnSettings || x is NoteWorkerExit
        },
        rtgang::gang_step(GangStage::ChildInit(ok)).contains(x) <==> if ok {
            x is SetSigquitHandler || x is SetBackendType || x is AdoptWorkerEntry
                || x is InitTimeouts || x is Claim
        } else {
            x is WarnChildInit || x is NoteWorkerExit
        },
        rtgang::gang_step(GangStage::ChildInit(true)).last() is Claim,
        rtgang::gang_step(GangStage::Claimed(ok)).contains(x) <==> if ok {
            x is BaseInit
        } else {
            x is WarnClaim
        },
        rtgang::gang_step(GangStage::BaseInit(ok)).contains(x) <==> if ok {
            x is RunLoop
        } else {
            x is WarnBaseInit || x == GangAction::ProcExit(1)
        },
{
    broadcast use vstd::seq_lib::group_seq_properties;

}

/// A gang thread whose loop ended cleanly exits with code 0; one that a fence
/// stopped does not touch shared memory. Callbacks run with the code of the
/// exit, or 2 after a panic.
pub proof fn law_gang_thread_ends(clean: bool, end: Option<Payload>, x: GangAction)
    ensures
        rtgang::gang_step(GangStage::LoopEnded { clean }).contains(x) <==> clean && x
            == GangAction::ProcExit(0),
        ({
            let a = rtgang::gang_step(GangStage::Ended(end));
            let panicked = end is Some && !(end->0 is ProcExit);
            &&& a.contains(x) <==> {
                ||| x is NoteWorkerExit
                ||| x matches GangAction::RunDeferredCallbacks(c) && (end == Some(
                    Payload::ProcExit(c),
                ) || panicked && c == 2)
                ||| panicked && (x is WarnPanicked || x == GangAction::ProcExit(2))
            }
        }),
{
    broadcast use vstd::seq_lib::group_seq_properties;

}

} // verus!
