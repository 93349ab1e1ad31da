//! The pool of parked threads for parallel workers. A parked thread is fresh,
//! or pinned to the database whose caches it kept.
use vstd::prelude::*;
use crate::launch;
use crate::launch::{reserve_child_pid, ChildPids, ChildThreads};
use crate::text;

verus! {

/// No database.
pub const InvalidOid: u32 = 0;

/// One parked thread.
#[derive(Clone, Copy, Debug, PartialEq, Eq, Structural)]
pub struct Standby {
    pub pid: i32,
    /// The database it is pinned to; none = fresh, good for any.
    pub db: u32,
    /// Its channel.
    pub id: u64,
}

/// The pool.
pub struct WorkerPool {
    pub available: Vec<Standby>,
    /// Threads this pool has committed to: starting, parked or at work.
    pub population: i32,
    /// Pids whose announced end only parked the thread.
    pub parked: Vec<i32>,
    /// Moves on when shared memory is about to be reset.
    pub crash_epoch: u64,
    /// Moves on with every flush.
    pub flush_epoch: u64,
}

impl WorkerPool {
    /// An empty pool.
    pub fn new() -> (p: WorkerPool)
        ensures
            p.available@.len() == 0,
            p.population == 0,
            p.parked@.len() == 0,
            p.crash_epoch == 0,
            p.flush_epoch == 0,
    {
        WorkerPool {
            available: Vec::new(),
            population: 0,
            parked: Vec::new(),
            crash_epoch: 0,
            flush_epoch: 0,
        }
    }
}

/// How many threads the pool has committed to.
pub fn population(pool: &WorkerPool) -> (r: i32)
    ensures
        r == pool.population,
{
    pool.population
}

/// How many threads the pool should have.
pub fn target(no_worker_pool: bool, max_parallel_workers: i32) -> (r: i32)
    ensures
        r == (if no_worker_pool {
            0
        } else {
            max_parallel_workers
        }),
{
    if no_worker_pool {
        0
    } else {
        max_parallel_workers
    }
}

/// Notes that the announced end of `pid` only parks its thread.
pub fn mark_parked_announce(pool: &mut WorkerPool, pid: i32)
    ensures
        final(pool).parked@ == old(pool).parked@.push(pid),
        *final(pool) == (WorkerPool { parked: final(pool).parked, ..*old(pool) }),
{
    pool.parked.push(pid);
}

/// The first place of `pid`, or the length.
pub open spec fn place_of(pids: Seq<i32>, pid: i32) -> int
    decreases pids.len(),
{
    if pids.len() == 0 {
        0
    } else if pids[0] == pid {
        0
    } else {
        1 + place_of(pids.skip(1), pid)
    }
}

proof fn lemma_place_of(pids: Seq<i32>, pid: i32, k: int)
    requires
        0 <= k <= pids.len(),
        forall|j: int| 0 <= j < k ==> pids[j] != pid,
        k < pids.len() ==> pids[k] == pid,
    ensures
        place_of(pids, pid) == k,
    decreases k,
{
    if k > 0 {
        assert forall|j: int| 0 <= j < k - 1 implies pids.skip(1)[j] != pid by {
            assert(pids.skip(1)[j] == pids[j + 1]);
        }
        lemma_place_of(pids.skip(1), pid, k - 1);
    }
}

/// The notes left when the one about `pid`, where there is one, is used up.
pub open spec fn notes_left(parked: Seq<i32>, pid: i32) -> Seq<i32> {
    if parked.contains(pid) {
        launch::swap_removed(parked, place_of(parked, pid))
    } else {
        parked
    }
}

/// Whether the announced end of `pid` only parks its thread; the note is used
/// up.
pub fn take_parked_announce(pool: &mut WorkerPool, pid: i32) -> (r: bool)
    ensures
        r == old(pool).parked@.contains(pid),
        final(pool).parked@ == notes_left(old(pool).parked@, pid),
        *final(pool) == (WorkerPool { parked: final(pool).parked, ..*old(pool) }),
{
    let n: usize = pool.parked.len();
    let mut k: usize = 0;
    while k < n && pool.parked[k] != pid
        invariant
            k <= n,
            n == pool.parked@.len(),
            forall|j: int| 0 <= j < k ==> pool.parked@[j] != pid,
        decreases n - k,
    {
        k = k + 1;
    }
    proof {
        lemma_place_of(pool.parked@, pid, k as int);
    }
    if k < n {
        assert(pool.parked@[k as int] == pid);
        pool.parked.swap_remove(k);
        assert(pool.parked@ =~= launch::swap_removed(old(pool).parked@, k as int));
        true
    } else {
        assert(!pool.parked@.contains(pid));
        false
    }
}

/// How many threads are missing; never negative.
pub open spec fn deficit(population: int, target: int) -> int {
    if target - population > 0 {
        target - population
    } else {
        0
    }
}

/// How many threads one lap may start: the gap, computed once.
pub fn replenish_deficit(population: i32, target: i32) -> (r: i32)
    requires
        target - population <= i32::MAX,
    ensures
        r == deficit(population as int, target as int),
{
    let d: i64 = target as i64 - population as i64;
    if d > 0 {
        d as i32
    } else {
        0
    }
}

/// How far a lap of upkeep has come, with what the outside reported last.
#[derive(Clone, Copy, Debug, PartialEq, Eq, Structural)]
pub enum MaintainStage {
    Begin,
    /// An attempt to start one thread; `left` includes it.
    Spawned { left: i32, ok: bool },
    Done,
}

/// What a lap of upkeep asks for next.
pub enum MaintainStep {
    /// Start a thread.
    Spawn,
    /// Retire these threads; the lap is over.
    Retire(Vec<Standby>),
    /// The lap is over.
    Finished,
}

/// How many more threads a lap may start after this stage.
pub open spec fn spawns_left(pool: WorkerPool, target: i32, stage: MaintainStage) -> int {
    match stage {
        MaintainStage::Begin => deficit(pool.population as int, target as int),
        MaintainStage::Spawned { left, ok } => if ok && left > 0 {
            left - 1
        } else {
            0
        },
        MaintainStage::Done => 0,
    }
}

/// How many parked threads are too many.
pub open spec fn to_retire(pool: WorkerPool, target: i32) -> int {
    let excess = pool.population - target;
    if excess <= 0 {
        0
    } else if excess < pool.available@.len() {
        excess
    } else {
        pool.available@.len() as int
    }
}

/// Whether the lap goes on to shrink the pool.
pub open spec fn shrinks(pool: WorkerPool, target: i32, stage: MaintainStage) -> bool {
    spawns_left(pool, target, stage) == 0 && match stage {
        MaintainStage::Begin => true,
        MaintainStage::Spawned { left, ok } => ok,
        MaintainStage::Done => false,
    }
}

fn shrink(pool: &mut WorkerPool, target: i32) -> (r: Vec<Standby>)
    requires
        old(pool).population - target <= i32::MAX,
    ensures
        ({
            let k = to_retire(*old(pool), target);
            let n = old(pool).available@.len();
            &&& r@.len() == k
            &&& forall|i: int| 0 <= i < k ==> #[trigger] r@[i] == old(pool).available@[n - 1 - i]
            &&& final(pool).available@ == old(pool).available@.take(n - k)
        }),
        *final(pool) == (WorkerPool { available: final(pool).available, ..*old(pool) }),
{
    let mut out: Vec<Standby> = Vec::new();
    let mut excess: i64 = pool.population as i64 - target as i64;
    let ghost all = pool.available@;
    let ghost n = all.len();
    let ghost k = to_retire(*pool, target);
    proof {
        assert(all.take(n as int) =~= all);
    }
    while excess > 0 && pool.available.len() > 0
        invariant
            n == all.len(),
            out@.len() <= k <= n,
            pool.available@ == all.take(n - out@.len()),
            forall|i: int| 0 <= i < out@.len() ==> #[trigger] out@[i] == all[n - 1 - i],
            excess > 0 ==> (excess + out@.len() == old(pool).population - target && (k == excess + out@.len() || k
                == n)),
            excess > 0 ==> (k - out@.len() <= excess),
            excess <= 0 ==> out@.len() == k,
            excess > 0 && out@.len() == k ==> k == n,
            *pool == (WorkerPool { available: pool.available, ..*old(pool) }),
        decreases pool.available@.len(),
    {
        let sb = pool.available.pop().unwrap();
        out.push(sb);
        excess = excess - 1;
        proof {
            assert(pool.available@ =~= all.take(n - out@.len()));
        }
    }
    out
}

/// One step of a lap of upkeep: missing threads are started, superfluous
/// parked ones retired. The gap is computed once, at the beginning; a thread
/// that dies during the lap is replaced in the next one.
pub fn maintain(pool: &mut WorkerPool, target: i32, stage: MaintainStage) -> (r: (MaintainStep, MaintainStage))
    requires
        target - old(pool).population <= i32::MAX,
        old(pool).population - target <= i32::MAX,
    ensures
        spawns_left(*old(pool), target, stage) > 0 <==> r.0 is Spawn,
        r.0 is Spawn ==> {
            &&& r.1 == MaintainStage::Spawned { left: spawns_left(*old(pool), target, stage) as i32, ok: true }
            &&& *final(pool) == *old(pool)
        },
        shrinks(*old(pool), target, stage) <==> r.0 is Retire,
        r.0 matches MaintainStep::Retire(v) ==> {
            let k = to_retire(*old(pool), target);
            let n = old(pool).available@.len();
            &&& r.1 == MaintainStage::Done
            &&& v@.len() == k
            &&& forall|i: int| 0 <= i < k ==> #[trigger] v@[i] == old(pool).available@[n - 1 - i]
            &&& final(pool).available@ == old(pool).available@.take(n - k)
            &&& *final(pool) == (WorkerPool { available: final(pool).available, ..*old(pool) })
        },
        r.0 is Finished ==> r.1 == MaintainStage::Done && *final(pool) == *old(pool),
{
    let left: i32 = match stage {
        MaintainStage::Begin => replenish_deficit(pool.population, target),
        MaintainStage::Spawned { left, ok } => {
            if !ok {
                return (MaintainStep::Finished, MaintainStage::Done);
            }
            if left > 0 {
                left - 1
            } else {
                0
            }
        },
        MaintainStage::Done => {
            return (MaintainStep::Finished, MaintainStage::Done);
        },
    };
    if left > 0 {
        (MaintainStep::Spawn, MaintainStage::Spawned { left, ok: true })
    } else {
        (MaintainStep::Retire(shrink(pool, target)), MaintainStage::Done)
    }
}

/// A lap starts at most as many threads as were missing when it began, however
/// many of them die meanwhile: each start uses up one, whatever the population.
pub proof fn law_lap_is_bounded(before: WorkerPool, after: WorkerPool, target: i32, stage: MaintainStage, next: MaintainStage)
    requires
        spawns_left(before, target, stage) > 0,
        next == (MaintainStage::Spawned { left: spawns_left(before, target, stage) as i32, ok: true }),
        target - before.population <= i32::MAX,
    ensures
        spawns_left(after, target, next) == spawns_left(before, target, stage) - 1,
{
}

/// Takes on a thread before it is started, so that one that ends at once is
/// not counted twice.
pub fn charge_standby(pool: &mut WorkerPool)
    requires
        old(pool).population < i32::MAX,
    ensures
        *final(pool) == (WorkerPool { population: (old(pool).population + 1) as i32, ..*old(pool) }),
{
    pool.population = pool.population + 1;
}

/// Records whether a charged thread could be started: it is parked fresh, or
/// the charge is taken back.
pub fn spawn_standby(pool: &mut WorkerPool, pid: i32, id: u64, ok: bool)
    requires
        old(pool).population > i32::MIN,
    ensures
        ok ==> {
            &&& final(pool).available@ == old(pool).available@.push(Standby { pid, db: InvalidOid, id })
            &&& *final(pool) == (WorkerPool { available: final(pool).available, ..*old(pool) })
        },
        !ok ==> *final(pool) == (WorkerPool { population: (old(pool).population - 1) as i32, ..*old(pool) }),
{
    if ok {
        pool.available.push(Standby { pid, db: InvalidOid, id });
    } else {
        pool.population = pool.population - 1;
    }
}

/// A thread has ended, for whatever reason.
pub fn standby_exited(pool: &mut WorkerPool)
    requires
        old(pool).population > i32::MIN,
    ensures
        *final(pool) == (WorkerPool { population: (old(pool).population - 1) as i32, ..*old(pool) }),
{
    pool.population = pool.population - 1;
}

/// Parked threads that are not pinned to `db`.
pub open spec fn not_pinned_to(avail: Seq<Standby>, db: u32) -> Seq<Standby> {
    avail.filter(|s: Standby| s.db != db)
}

/// Parked threads that are pinned to `db`.
pub open spec fn pinned_to(avail: Seq<Standby>, db: u32) -> Seq<Standby> {
    avail.filter(|s: Standby| s.db == db)
}

/// Takes the threads pinned to a dropped database out of the pool; nobody
/// could claim them again. They are to be retired.
pub fn retire_db(pool: &mut WorkerPool, dboid: u32) -> (r: Vec<Standby>)
    ensures
        final(pool).available@ == not_pinned_to(old(pool).available@, dboid),
        r@ == pinned_to(old(pool).available@, dboid),
        *final(pool) == (WorkerPool { available: final(pool).available, ..*old(pool) }),
{
    let mut kept: Vec<Standby> = Vec::new();
    let mut gone: Vec<Standby> = Vec::new();
    let mut i: usize = 0;
    let ghost all = pool.available@;
    proof {
        reveal(Seq::filter);
    }
    while i < pool.available.len()
        invariant
            i <= all.len(),
            all == pool.available@,
            kept@ == not_pinned_to(all.take(i as int), dboid),
            gone@ == pinned_to(all.take(i as int), dboid),
        decreases all.len() - i,
    {
        let sb = pool.available[i];
        proof {
            reveal(Seq::filter);
            assert(all.take(i + 1).drop_last() =~= all.take(i as int));
            assert(all.take(i + 1).last() == sb);
        }
        if sb.db != dboid {
            kept.push(sb);
        } else {
            gone.push(sb);
        }
        i = i + 1;
    }
    assert(all.take(i as int) =~= all);
    pool.available = kept;
    gone
}

/// The next epoch; it always differs from the one before.
pub open spec fn next_epoch(e: u64) -> u64 {
    if e == u64::MAX {
        0
    } else {
        (e + 1) as u64
    }
}

fn bump(e: u64) -> (r: u64)
    ensures
        r == next_epoch(e),
{
    if e == u64::MAX {
        0
    } else {
        e + 1
    }
}

/// Takes every parked thread out of the pool, to be retired, and keeps those
/// at work from coming back.
pub fn flush(pool: &mut WorkerPool) -> (r: Vec<Standby>)
    ensures
        r@ == old(pool).available@,
        final(pool).available@.len() == 0,
        final(pool).flush_epoch == next_epoch(old(pool).flush_epoch),
        *final(pool) == (WorkerPool {
            available: final(pool).available,
            flush_epoch: final(pool).flush_epoch,
            ..*old(pool)
        }),
{
    pool.flush_epoch = bump(pool.flush_epoch);
    let mut out: Vec<Standby> = Vec::new();
    out.append(&mut pool.available);
    assert(out@ =~= old(pool).available@);
    out
}

/// What a flush before a reset of shared memory asks for.
#[derive(Clone, Copy, Debug, PartialEq, Eq, Structural)]
pub enum FlushStep {
    /// Retire this parked thread.
    Retire(Standby),
    /// Keep the standing executors, which are parked too, from touching shared
    /// memory when they wake up. Nothing is to be done where none were started.
    FenceExecutors,
}

/// The steps of a flush before a reset of shared memory.
pub open spec fn flush_steps(parked: Seq<Standby>) -> Seq<FlushStep> {
    parked.map_values(|s: Standby| FlushStep::Retire(s)).push(FlushStep::FenceExecutors)
}

/// A flush before shared memory is reset: threads that wake up must not touch
/// what they kept of it.
pub fn flush_for_crash(pool: &mut WorkerPool) -> (r: Vec<FlushStep>)
    ensures
        r@ == flush_steps(old(pool).available@),
        final(pool).available@.len() == 0,
        final(pool).flush_epoch == next_epoch(old(pool).flush_epoch),
        final(pool).crash_epoch == next_epoch(old(pool).crash_epoch),
        final(pool).population == old(pool).population,
        final(pool).parked == old(pool).parked,
{
    pool.crash_epoch = bump(pool.crash_epoch);
    let gone: Vec<Standby> = flush(pool);
    let mut steps: Vec<FlushStep> = Vec::new();
    let mut i: usize = 0;
    while i < gone.len()
        invariant
            i <= gone@.len(),
            steps@ == gone@.take(i as int).map_values(|s: Standby| FlushStep::Retire(s)),
        decreases gone@.len() - i,
    {
        steps.push(FlushStep::Retire(gone[i]));
        i = i + 1;
        assert(gone@.take(i as int) =~= gone@.take(i - 1).push(gone@[i - 1]));
        assert(steps@ =~= gone@.take(i as int).map_values(|s: Standby| FlushStep::Retire(s)));
    }
    assert(gone@.take(i as int) =~= gone@);
    steps.push(FlushStep::FenceExecutors);
    steps
}

/// The epochs a task began under.
#[derive(Clone, Copy, Debug, PartialEq, Eq, Structural)]
pub struct TaskEpochs {
    pub flush: u64,
    pub crash: u64,
}

/// What a pool thread knows of itself.
#[derive(Clone, Copy, Debug, PartialEq, Eq, Structural)]
pub struct StandbyThread {
    /// The pid it is listed under.
    pub thread_key: i32,
    /// The crash epoch it parked under.
    pub parked_crash_epoch: u64,
}

/// A parked thread is given a task: it is listed under the task's pid.
pub fn standby_claimed(
    th: &mut StandbyThread,
    threads: &mut ChildThreads,
    pool: &WorkerPool,
    task_pid: i32,
) -> (e: TaskEpochs)
    ensures
        e == (TaskEpochs { flush: pool.flush_epoch, crash: pool.crash_epoch }),
        *final(th) == (StandbyThread { thread_key: task_pid, ..*old(th) }),
        ({
            let k = launch::entry_of(old(threads).entries@, old(th).thread_key);
            final(threads).entries@ == (if k < old(threads).entries@.len() {
                old(threads).entries@.update(k, (task_pid, old(threads).entries@[k].1))
            } else {
                old(threads).entries@
            })
        }),
{
    threads.rekey_child_thread(th.thread_key, task_pid);
    th.thread_key = task_pid;
    TaskEpochs { flush: pool.flush_epoch, crash: pool.crash_epoch }
}

/// Whether a thread whose task ended may try to park again: it kept its
/// identity, and no flush came in between. Otherwise it releases what it kept
/// and ends.
pub fn may_repark(pool: &WorkerPool, e: TaskEpochs, parked: bool) -> (r: bool)
    ensures
        r == (parked && pool.flush_epoch == e.flush),
{
    parked && pool.flush_epoch == e.flush
}

/// Whether no fence came since the epochs were read.
pub open spec fn unfenced(pool: WorkerPool, e: TaskEpochs) -> bool {
    pool.flush_epoch == e.flush && pool.crash_epoch == e.crash
}

/// Parks the thread again, unless a fence came meanwhile. Where it does not
/// park it releases what it kept and ends.
pub fn standby_repark(
    th: &mut StandbyThread,
    pool: &mut WorkerPool,
    e: TaskEpochs,
    retained_db: u32,
    id: u64,
) -> (r: bool)
    ensures
        r == unfenced(*old(pool), e),
        *final(th) == (StandbyThread { parked_crash_epoch: e.crash, ..*old(th) }),
        r ==> {
            &&& final(pool).available@ == old(pool).available@.push(
                Standby { pid: old(th).thread_key, db: retained_db, id },
            )
            &&& *final(pool) == (WorkerPool { available: final(pool).available, ..*old(pool) })
        },
        !r ==> *final(pool) == *old(pool),
{
    th.parked_crash_epoch = e.crash;
    if pool.flush_epoch == e.flush && pool.crash_epoch == e.crash {
        pool.available.push(Standby { pid: th.thread_key, db: retained_db, id });
        true
    } else {
        false
    }
}

/// A flush keeps every thread that was at work from parking again.
pub proof fn law_flush_fences_working_threads(pool: WorkerPool, after: WorkerPool, e: TaskEpochs)
    requires
        unfenced(pool, e),
        after.flush_epoch == next_epoch(pool.flush_epoch),
    ensures
        !unfenced(after, e),
{
}

/// Whether a thread gives its identity back through shared memory: it has one,
/// and shared memory was not reset since it parked.
pub fn release_retained_identity(pool: &WorkerPool, park_epoch: u64, have_proc: bool) -> (r: bool)
    ensures
        r == (pool.crash_epoch == park_epoch && have_proc),
{
    pool.crash_epoch == park_epoch && have_proc
}

/// A parked thread is retired: nobody was told of its end, so it takes itself
/// off the list.
pub fn standby_retired(th: &StandbyThread, threads: &mut ChildThreads)
    ensures
        ({
            let k = launch::entry_of(old(threads).entries@, th.thread_key);
            final(threads).entries@ == (if k < old(threads).entries@.len() {
                launch::swap_removed(old(threads).entries@, k)
            } else {
                old(threads).entries@
            })
        }),
{
    let _ = threads.remove(th.thread_key);
}

/// The first parked thread pinned to `db`, or the length.
pub open spec fn first_of_db(avail: Seq<Standby>, db: u32) -> int
    decreases avail.len(),
{
    if avail.len() == 0 {
        0
    } else if avail[0].db == db {
        0
    } else {
        1 + first_of_db(avail.skip(1), db)
    }
}

/// The first parked thread pinned to any database, or the length.
pub open spec fn first_pinned(avail: Seq<Standby>) -> int
    decreases avail.len(),
{
    if avail.len() == 0 {
        0
    } else if avail[0].db != InvalidOid {
        0
    } else {
        1 + first_pinned(avail.skip(1))
    }
}

proof fn lemma_first_of_db(avail: Seq<Standby>, db: u32, k: int)
    requires
        0 <= k <= avail.len(),
        forall|j: int| 0 <= j < k ==> (#[trigger] avail[j]).db != db,
        k < avail.len() ==> avail[k].db == db,
    ensures
        first_of_db(avail, db) == k,
    decreases k,
{
    if k > 0 {
        assert forall|j: int| 0 <= j < k - 1 implies (#[trigger] avail.skip(1)[j]).db != db by {
            assert(avail.skip(1)[j] == avail[j + 1]);
        }
        lemma_first_of_db(avail.skip(1), db, k - 1);
    }
}

proof fn lemma_first_pinned(avail: Seq<Standby>, k: int)
    requires
        0 <= k <= avail.len(),
        forall|j: int| 0 <= j < k ==> (#[trigger] avail[j]).db == InvalidOid,
        k < avail.len() ==> avail[k].db != InvalidOid,
    ensures
        first_pinned(avail) == k,
    decreases k,
{
    if k > 0 {
        assert forall|j: int| 0 <= j < k - 1 implies (#[trigger] avail.skip(1)[j]).db == InvalidOid by {
            assert(avail.skip(1)[j] == avail[j + 1]);
        }
        lemma_first_pinned(avail.skip(1), k - 1);
    }
}

fn find_db(avail: &Vec<Standby>, db: u32) -> (k: usize)
    ensures
        k == first_of_db(avail@, db),
        k <= avail@.len(),
        k < avail@.len() ==> avail@[k as int].db == db,
{
    let n: usize = avail.len();
    let mut k: usize = 0;
    while k < n && avail[k].db != db
        invariant
            k <= n,
            n == avail@.len(),
            forall|j: int| 0 <= j < k ==> (#[trigger] avail@[j]).db != db,
        decreases n - k,
    {
        k = k + 1;
    }
    proof {
        lemma_first_of_db(avail@, db, k as int);
    }
    k
}

fn find_pinned(avail: &Vec<Standby>) -> (k: usize)
    ensures
        k == first_pinned(avail@),
        k <= avail@.len(),
        k < avail@.len() ==> avail@[k as int].db != InvalidOid,
{
    let n: usize = avail.len();
    let mut k: usize = 0;
    while k < n && avail[k].db == InvalidOid
        invariant
            k <= n,
            n == avail@.len(),
            forall|j: int| 0 <= j < k ==> (#[trigger] avail@[j]).db == InvalidOid,
        decreases n - k,
    {
        k = k + 1;
    }
    proof {
        lemma_first_pinned(avail@, k as int);
    }
    k
}

/// The parked thread that serves a task for `db` best: one with its caches,
/// else a fresh one; the length where there is neither.
pub open spec fn claim_place(avail: Seq<Standby>, db: u32) -> int {
    let warm = first_of_db(avail, db);
    if warm < avail.len() {
        warm
    } else {
        first_of_db(avail, InvalidOid)
    }
}

/// How far a dispatch has come, with what the outside reported last.
#[derive(Clone, Copy, Debug, PartialEq, Eq, Structural)]
pub enum DispatchStage {
    Begin,
    /// The answer to a request for a child slot.
    SlotAssigned { sb: Standby, e: TaskEpochs, slot: Option<i32> },
    /// Whether the thread took the task.
    Sent { child_slot: i32, task_pid: i32, ok: bool },
}

/// What a dispatch asks for next.
#[derive(Clone, Copy, Debug, PartialEq, Eq, Structural)]
pub enum DispatchStep {
    /// Nobody can serve the task: the supervisor has to start a worker.
    Miss,
    /// The same; and retire this thread, which is pinned to another database,
    /// and wait until it gave its identity back.
    RetireMismatch(Standby),
    AssignSlot { sb: Standby, e: TaskEpochs },
    /// Make signals deliverable to the pid, record it in the slot, and hand
    /// the task over.
    Send { sb: Standby, child_slot: i32, task_pid: i32 },
    /// The task runs under this pid.
    Dispatched(i32),
    /// The thread is gone: free the slot, forget the pid, and begin again.
    Retry { child_slot: i32, task_pid: i32 },
}

/// The next step of a dispatch.
pub open spec fn dispatch_step(
    pool: WorkerPool,
    next: i32,
    postmaster_pid: i32,
    dboid: u32,
    stage: DispatchStage,
) -> DispatchStep {
    match stage {
        DispatchStage::Begin => {
            let avail = pool.available@;
            let k = claim_place(avail, dboid);
            let v = first_pinned(avail);
            if k < avail.len() {
                DispatchStep::AssignSlot {
                    sb: avail[k],
                    e: TaskEpochs { flush: pool.flush_epoch, crash: pool.crash_epoch },
                }
            } else if v < avail.len() {
                DispatchStep::RetireMismatch(avail[v])
            } else {
                DispatchStep::Miss
            }
        },
        DispatchStage::SlotAssigned { sb, e, slot } => match slot {
            Some(child_slot) => DispatchStep::Send {
                sb,
                child_slot,
                task_pid: launch::next_pid(next, postmaster_pid),
            },
            None => DispatchStep::Miss,
        },
        DispatchStage::Sent { child_slot, task_pid, ok } => if ok {
            DispatchStep::Dispatched(task_pid)
        } else {
            DispatchStep::Retry { child_slot, task_pid }
        },
    }
}

/// The parked threads after a step: the one claimed or retired has left; one
/// that got no slot comes back, unless a fence came meanwhile.
pub open spec fn dispatch_available(pool: WorkerPool, dboid: u32, stage: DispatchStage) -> Seq<Standby> {
    let avail = pool.available@;
    match stage {
        DispatchStage::Begin => {
            let k = claim_place(avail, dboid);
            let v = first_pinned(avail);
            if k < avail.len() {
                launch::swap_removed(avail, k)
            } else if v < avail.len() {
                launch::swap_removed(avail, v)
            } else {
                avail
            }
        },
        DispatchStage::SlotAssigned { sb, e, slot } => if slot is None && unfenced(pool, e) {
            avail.push(sb)
        } else {
            avail
        },
        DispatchStage::Sent { .. } => avail,
    }
}

/// One step of handing a task for database `dboid` to a parked thread. Each
/// task gets a pid of its own, so that what is still said of an earlier task
/// never meets it. The result is the pid, or 0 for a miss.
pub fn dispatch(
    pool: &mut WorkerPool,
    pids: &mut ChildPids,
    postmaster_pid: i32,
    dboid: u32,
    stage: DispatchStage,
) -> (r: (DispatchStep, Option<i32>))
    ensures
        r.0 == dispatch_step(*old(pool), old(pids).next, postmaster_pid, dboid, stage),
        r.1 == (match r.0 {
            DispatchStep::Miss => Some(0i32),
            DispatchStep::RetireMismatch(_) => Some(0i32),
            DispatchStep::Dispatched(pid) => Some(pid),
            _ => None,
        }),
        final(pool).available@ == dispatch_available(*old(pool), dboid, stage),
        *final(pool) == (WorkerPool { available: final(pool).available, ..*old(pool) }),
        final(pids).next == (if r.0 is Send {
            launch::succ(launch::next_pid(old(pids).next, postmaster_pid))
        } else {
            old(pids).next
        }),
{
    match stage {
        DispatchStage::Begin => {
            let n: usize = pool.available.len();
            let e = TaskEpochs { flush: pool.flush_epoch, crash: pool.crash_epoch };
            let mut k: usize = find_db(&pool.available, dboid);
            if k >= n {
                k = find_db(&pool.available, InvalidOid);
            }
            if k < n {
                let sb = pool.available.swap_remove(k);
                assert(pool.available@ =~= launch::swap_removed(old(pool).available@, k as int));
                return (DispatchStep::AssignSlot { sb, e }, None);
            }
            let v: usize = find_pinned(&pool.available);
            if v < n {
                let sb = pool.available.swap_remove(v);
                assert(pool.available@ =~= launch::swap_removed(old(pool).available@, v as int));
                return (DispatchStep::RetireMismatch(sb), Some(0));
            }
            (DispatchStep::Miss, Some(0))
        },
        DispatchStage::SlotAssigned { sb, e, slot } => match slot {
            Some(child_slot) => {
                let task_pid: i32 = reserve_child_pid(pids, postmaster_pid);
                (DispatchStep::Send { sb, child_slot, task_pid }, None)
            },
            None => {
                if pool.flush_epoch == e.flush && pool.crash_epoch == e.crash {
                    pool.available.push(sb);
                }
                (DispatchStep::Miss, Some(0))
            },
        },
        DispatchStage::Sent { child_slot, task_pid, ok } => {
            if ok {
                (DispatchStep::Dispatched(task_pid), Some(task_pid))
            } else {
                (DispatchStep::Retry { child_slot, task_pid }, None)
            }
        },
    }
}

proof fn lemma_first_of_db_found(avail: Seq<Standby>, db: u32)
    ensures
        0 <= first_of_db(avail, db) <= avail.len(),
        first_of_db(avail, db) < avail.len() ==> avail[first_of_db(avail, db)].db == db,
    decreases avail.len(),
{
    if avail.len() > 0 && avail[0].db != db {
        lemma_first_of_db_found(avail.skip(1), db);
    }
}

/// A task only ever goes to a thread with its own database's caches or to a
/// fresh one.
pub proof fn law_claim_is_same_db_or_fresh(pool: WorkerPool, next: i32, postmaster_pid: i32, dboid: u32)
    ensures
        dispatch_step(pool, next, postmaster_pid, dboid, DispatchStage::Begin) matches DispatchStep::AssignSlot {
            sb,
            e,
        } ==> sb.db == dboid || sb.db == InvalidOid,
{
    lemma_first_of_db_found(pool.available@, dboid);
    lemma_first_of_db_found(pool.available@, InvalidOid);
}

/// After a fence, a claimed thread that got no slot does not come back.
pub proof fn law_fenced_claim_does_not_return(pool: WorkerPool, dboid: u32, sb: Standby, e: TaskEpochs)
    requires
        !unfenced(pool, e),
    ensures
        dispatch_available(pool, dboid, DispatchStage::SlotAssigned { sb, e, slot: None }) == pool.available@,
{
}

/// What is said of a dispatch that panicked. It counts as a miss.
pub fn render_dispatch_panic(slot: i32) -> (s: String)
    ensures
        s@ == "wpool: parallel worker pool dispatch panicked (slot "@ + text::dec_int(slot as int)
            + "); falling back to postmaster launch"@,
{
    let mut s = String::from_str("wpool: parallel worker pool dispatch panicked (slot ");
    text::append_i64(&mut s, slot as i64);
    s.append("); falling back to postmaster launch");
    s
}

} // verus!
