//! The pool of runtime executor threads, and the identity such a thread takes
//! in shared memory to serve queries.
use vstd::prelude::*;
use crate::backend_type::BackendType;
use crate::launch;
use crate::launch::{reserve_child_pid, ChildPids};
use crate::text;

verus! {

/// The runtime's own switches and sizes.
#[derive(Clone, Copy, Debug, PartialEq, Eq, Structural)]
pub struct RuntimeConfig {
    pub runtime_enabled: bool,
    pub pool_binding_enabled: bool,
    pub pooldb_enabled: bool,
    pub workers: u64,
    pub standbys: u64,
}

/// The pool.
#[derive(Clone, Copy, Debug, PartialEq, Eq, Structural)]
pub struct RuntimePool {
    pub started: bool,
    pub stop_requested: bool,
    pub population: i32,
}

impl RuntimePool {
    /// A pool that has not started.
    pub fn new() -> (p: RuntimePool)
        ensures
            p == (RuntimePool { started: false, stop_requested: false, population: 0 }),
    {
        RuntimePool { started: false, stop_requested: false, population: 0 }
    }
}

/// How many pool threads live.
pub fn population(pool: &RuntimePool) -> (r: i32)
    ensures
        r == pool.population,
{
    pool.population
}

/// Asks the threads of a started pool to end.
pub fn demo_stop(pool: &mut RuntimePool)
    ensures
        *final(pool) == (RuntimePool {
            stop_requested: old(pool).stop_requested || old(pool).started,
            ..*old(pool)
        }),
{
    if pool.started {
        pool.stop_requested = true;
    }
}

/// What starting the pool asks for, in order.
#[derive(Clone, Copy, Debug, PartialEq, Eq, Structural)]
pub enum PoolStart {
    CaptureSettings,
    InstallGate,
    InstallEvictor,
    InstallAffinity,
    SpawnWorkers,
    InstallGlobal,
    PublishLive,
    StartDispatcher,
}

/// The steps of a start; where threads serve queries, what they need is put in
/// place before any of them runs.
pub open spec fn start_steps(armed: bool) -> Seq<PoolStart> {
    (if armed {
        seq![PoolStart::CaptureSettings, PoolStart::InstallGate, PoolStart::InstallEvictor]
    } else {
        Seq::empty()
    }) + seq![
        PoolStart::InstallAffinity,
        PoolStart::SpawnWorkers,
        PoolStart::InstallGlobal,
        PoolStart::PublishLive,
        PoolStart::StartDispatcher,
    ]
}

/// Starts the pool, unless it has started.
pub fn start(pool: &mut RuntimePool, armed: bool) -> (r: Vec<PoolStart>)
    ensures
        *final(pool) == (RuntimePool { started: true, ..*old(pool) }),
        r@ == (if old(pool).started {
            Seq::empty()
        } else {
            start_steps(armed)
        }),
{
    let mut v: Vec<PoolStart> = Vec::new();
    if pool.started {
        return v;
    }
    pool.started = true;
    if armed {
        v.push(PoolStart::CaptureSettings);
        v.push(PoolStart::InstallGate);
        v.push(PoolStart::InstallEvictor);
    }
    v.push(PoolStart::InstallAffinity);
    v.push(PoolStart::SpawnWorkers);
    v.push(PoolStart::InstallGlobal);
    v.push(PoolStart::PublishLive);
    v.push(PoolStart::StartDispatcher);
    assert(v@ =~= start_steps(armed));
    v
}

/// Starts the pool where the runtime is on; nothing where it is off.
pub fn start_if_enabled(pool: &mut RuntimePool, cfg: RuntimeConfig) -> (r: Option<Vec<PoolStart>>)
    ensures
        !cfg.runtime_enabled ==> r is None && *final(pool) == *old(pool),
        cfg.runtime_enabled ==> {
            &&& *final(pool) == (RuntimePool { started: true, ..*old(pool) })
            &&& r matches Some(v) && v@ == (if old(pool).started {
                Seq::empty()
            } else {
                start_steps(armed(cfg))
            })
        },
{
    if !cfg.runtime_enabled {
        return None;
    }
    Some(start(pool, pooldb_armed(cfg)))
}

/// How many threads the pool has after it was asked to start; -1 where the
/// runtime is off.
pub fn rtpool_start_for_demo(pool: &RuntimePool, started: bool) -> (r: i32)
    ensures
        r == (if started {
            pool.population as int
        } else {
            -1
        }),
{
    if !started {
        return -1;
    }
    population(pool)
}

/// Whether pool threads may serve queries: all three switches are on.
pub open spec fn armed(cfg: RuntimeConfig) -> bool {
    cfg.runtime_enabled && cfg.pool_binding_enabled && cfg.pooldb_enabled
}

/// Whether pool threads may serve queries.
pub fn pooldb_armed(cfg: RuntimeConfig) -> (r: bool)
    ensures
        r == armed(cfg),
{
    cfg.runtime_enabled && cfg.pool_binding_enabled && cfg.pooldb_enabled
}

/// How many process slots pool threads need: one each, at most 2048, none
/// unless they may serve queries.
pub open spec fn pool_procs(cfg: RuntimeConfig) -> int {
    if !armed(cfg) {
        0
    } else if cfg.workers + cfg.standbys > 2048 {
        2048
    } else {
        cfg.workers + cfg.standbys
    }
}

/// How many process slots pool threads need.
pub fn pool_procs_wanted(cfg: RuntimeConfig) -> (r: i32)
    ensures
        r == pool_procs(cfg),
        0 <= r <= 2048,
{
    if !pooldb_armed(cfg) {
        return 0;
    }
    let n: u128 = cfg.workers as u128 + cfg.standbys as u128;
    if n > 2048 {
        2048
    } else {
        n as i32
    }
}

/// The identity of a pool thread in shared memory.
#[derive(Clone, Copy, Debug, PartialEq, Eq, Structural)]
pub enum PoolIdent {
    /// None yet: it is taken when the thread first serves.
    Absent,
    /// Taken under this fence epoch, read before it was taken.
    Ready(u64),
    /// Taking it failed: the thread never serves.
    Poisoned,
}

/// What a thread that is asked to serve does.
#[derive(Clone, Copy, Debug, PartialEq, Eq, Structural)]
pub enum GateStep {
    Serve,
    /// Shared memory was reset under the identity: end without touching it.
    RetireRaw,
    /// Take an identity first.
    Complete,
    Refuse,
}

/// What a thread that is asked to serve does.
pub open spec fn gate(ident: PoolIdent, fence: u64) -> GateStep {
    match ident {
        PoolIdent::Ready(epoch) => if epoch != fence {
            GateStep::RetireRaw
        } else {
            GateStep::Serve
        },
        PoolIdent::Absent => GateStep::Complete,
        PoolIdent::Poisoned => GateStep::Refuse,
    }
}

/// What a thread that is asked to serve does.
pub fn pool_gate(ident: PoolIdent, fence: u64) -> (r: GateStep)
    ensures
        r == gate(ident, fence),
{
    match ident {
        PoolIdent::Ready(epoch) => {
            if epoch != fence {
                GateStep::RetireRaw
            } else {
                GateStep::Serve
            }
        },
        PoolIdent::Absent => GateStep::Complete,
        PoolIdent::Poisoned => GateStep::Refuse,
    }
}

/// How far taking an identity has come, with what the outside reported last.
/// The whole of it runs under the busy charge.
#[derive(Clone, Copy, Debug, PartialEq, Eq, Structural)]
pub enum IdentStage {
    Begin { crash_pending: bool, fence: u64 },
    Claimed { epoch: u64, ok: bool },
    BaseDone(bool),
}

/// What taking an identity asks for next.
#[derive(Clone, Copy, Debug, PartialEq, Eq, Structural)]
pub enum IdentStep {
    /// Not now: memory is about to be reset.
    NotNow,
    /// Claim a process slot; the epoch was read before.
    Claim { epoch: u64 },
    /// Warn; the thread never serves.
    ClaimFailed,
    BaseInit,
    /// Warn, and release the identity by exiting.
    BaseFailed,
    Serve,
}

/// The next step of taking an identity, and the identity after it.
pub open spec fn ident_step(ident: PoolIdent, stage: IdentStage) -> (IdentStep, PoolIdent) {
    match stage {
        IdentStage::Begin { crash_pending, fence } => if crash_pending {
            (IdentStep::NotNow, ident)
        } else {
            (IdentStep::Claim { epoch: fence }, ident)
        },
        IdentStage::Claimed { epoch, ok } => if ok {
            (IdentStep::BaseInit, PoolIdent::Ready(epoch))
        } else {
            (IdentStep::ClaimFailed, PoolIdent::Poisoned)
        },
        IdentStage::BaseDone(ok) => if ok {
            (IdentStep::Serve, ident)
        } else {
            (IdentStep::BaseFailed, ident)
        },
    }
}

/// One step of taking an identity.
pub fn pool_identity_complete(ident: &mut PoolIdent, stage: IdentStage) -> (r: IdentStep)
    ensures
        (r, *final(ident)) == ident_step(*old(ident), stage),
{
    match stage {
        IdentStage::Begin { crash_pending, fence } => {
            if crash_pending {
                IdentStep::NotNow
            } else {
                IdentStep::Claim { epoch: fence }
            }
        },
        IdentStage::Claimed { epoch, ok } => {
            if ok {
                *ident = PoolIdent::Ready(epoch);
                IdentStep::BaseInit
            } else {
                *ident = PoolIdent::Poisoned;
                IdentStep::ClaimFailed
            }
        },
        IdentStage::BaseDone(ok) => {
            if ok {
                IdentStep::Serve
            } else {
                IdentStep::BaseFailed
            }
        },
    }
}

/// An identity taken under a fence is retired at the next gate once the fence
/// has moved, even where it moved while the identity was being taken.
pub proof fn law_fence_retires_identity(ident: PoolIdent, fence0: u64, fence1: u64)
    requires
        fence0 != fence1,
    ensures
        ident_step(ident, IdentStage::Begin { crash_pending: false, fence: fence0 }).0 == (
        IdentStep::Claim { epoch: fence0 }),
        gate(ident_step(ident, IdentStage::Claimed { epoch: fence0, ok: true }).1, fence1) == GateStep::RetireRaw,
        gate(ident_step(ident, IdentStage::Claimed { epoch: fence0, ok: true }).1, fence0) == GateStep::Serve,
{
}

/// How the body of a pool thread ended.
#[derive(Clone, Copy, Debug, PartialEq, Eq, Structural)]
pub enum BodyEnd {
    Clean,
    /// The crash fence moved.
    RetireRaw,
    ProcExit(i32),
    Panic,
}

/// How far a pool thread has come, with what the outside reported last.
#[derive(Clone, Copy, Debug, PartialEq, Eq, Structural)]
pub enum PoolThreadStage {
    /// Whether the settings to start from are there.
    Begin { have_boot: bool },
    /// Whether the settings could be applied.
    Settings(bool),
    /// Whether the thread's own setup worked.
    ChildInit(bool),
    Ended { end: BodyEnd, ident: PoolIdent, fence: u64 },
}

/// What a pool thread does next.
#[derive(Clone, Copy, Debug, PartialEq, Eq, Structural)]
pub enum PoolThreadAction {
    ApplySettings,
    WarnSettings,
    InitChild,
    WarnChildInit,
    /// The thread never serves queries.
    Poison,
    SetSigquitHandler,
    SetBackendType,
    AdoptWorkerEntry,
    InitTimeouts,
    /// Run the executor loop, unguarded.
    RunBody,
    /// Run the executor loop and catch how it ends.
    RunBodyGuarded,
    DropStickySession,
    /// Charge the busy count for what follows.
    ChargeBusy,
    WarnCrossedFence,
    RunDeferredCallbacks(i32),
    WarnPanicked,
    RejoinProcarray,
    ProcExit(i32),
    /// Start a new thread in this place.
    Respawn,
}

/// Whether the identity was taken before the fence moved.
pub open spec fn stale(ident: PoolIdent, fence: u64) -> bool {
    ident matches PoolIdent::Ready(epoch) && epoch != fence
}

/// The actions of a step. A thread whose setup fails still runs as a plain
/// executor. One that ends other than cleanly is replaced; it gives its
/// identity back only where shared memory is still the one it was taken in.
pub open spec fn pool_thread_step(stage: PoolThreadStage) -> Seq<PoolThreadAction> {
    match stage {
        PoolThreadStage::Begin { have_boot } => if have_boot {
            seq![PoolThreadAction::ApplySettings]
        } else {
            seq![PoolThreadAction::Poison, PoolThreadAction::RunBody]
        },
        PoolThreadStage::Settings(ok) => if ok {
            seq![PoolThreadAction::InitChild]
        } else {
            seq![
                PoolThreadAction::WarnSettings,
                PoolThreadAction::Poison,
                PoolThreadAction::RunBody,
            ]
        },
        PoolThreadStage::ChildInit(ok) => if ok {
            seq![
                PoolThreadAction::SetSigquitHandler,
                PoolThreadAction::SetBackendType,
                PoolThreadAction::AdoptWorkerEntry,
                PoolThreadAction::InitTimeouts,
                PoolThreadAction::RunBodyGuarded,
            ]
        } else {
            seq![
                PoolThreadAction::WarnChildInit,
                PoolThreadAction::Poison,
                PoolThreadAction::RunBody,
            ]
        },
        PoolThreadStage::Ended { end, ident, fence } => match end {
            BodyEnd::Clean => Seq::empty(),
            BodyEnd::RetireRaw => seq![
                PoolThreadAction::DropStickySession,
                PoolThreadAction::Respawn,
            ],
            BodyEnd::ProcExit(code) => if stale(ident, fence) {
                seq![
                    PoolThreadAction::DropStickySession,
                    PoolThreadAction::ChargeBusy,
                    PoolThreadAction::WarnCrossedFence,
                    PoolThreadAction::Respawn,
                ]
            } else {
                seq![
                    PoolThreadAction::DropStickySession,
                    PoolThreadAction::ChargeBusy,
                    PoolThreadAction::RunDeferredCallbacks(code),
                    PoolThreadAction::Respawn,
                ]
            },
            BodyEnd::Panic => if stale(ident, fence) {
                seq![
                    PoolThreadAction::DropStickySession,
                    PoolThreadAction::ChargeBusy,
                    PoolThreadAction::WarnCrossedFence,
                    PoolThreadAction::Respawn,
                ]
            } else {
                seq![
                    PoolThreadAction::DropStickySession,
                    PoolThreadAction::ChargeBusy,
                    PoolThreadAction::WarnPanicked,
                    PoolThreadAction::RejoinProcarray,
                    PoolThreadAction::ProcExit(2),
                    PoolThreadAction::RunDeferredCallbacks(2),
                    PoolThreadAction::Respawn,
                ]
            },
        },
    }
}

fn is_stale(ident: PoolIdent, fence: u64) -> (r: bool)
    ensures
        r == stale(ident, fence),
{
    match ident {
        PoolIdent::Ready(epoch) => epoch != fence,
        _ => false,
    }
}

fn pool_thread_ended(end: BodyEnd, ident: PoolIdent, fence: u64) -> (v: Vec<PoolThreadAction>)
    ensures
        v@ == pool_thread_step(PoolThreadStage::Ended { end, ident, fence }),
{
    let mut v: Vec<PoolThreadAction> = Vec::new();
    match end {
        BodyEnd::Clean => {},
        BodyEnd::RetireRaw => {
            v.push(PoolThreadAction::DropStickySession);
            v.push(PoolThreadAction::Respawn);
        },
        BodyEnd::ProcExit(code) => {
            v.push(PoolThreadAction::DropStickySession);
            v.push(PoolThreadAction::ChargeBusy);
            if is_stale(ident, fence) {
                v.push(PoolThreadAction::WarnCrossedFence);
            } else {
                v.push(PoolThreadAction::RunDeferredCallbacks(code));
            }
            v.push(PoolThreadAction::Respawn);
        },
        BodyEnd::Panic => {
            v.push(PoolThreadAction::DropStickySession);
            v.push(PoolThreadAction::ChargeBusy);
            if is_stale(ident, fence) {
                v.push(PoolThreadAction::WarnCrossedFence);
            } else {
                v.push(PoolThreadAction::WarnPanicked);
                v.push(PoolThreadAction::RejoinProcarray);
                v.push(PoolThreadAction::ProcExit(2));
                v.push(PoolThreadAction::RunDeferredCallbacks(2));
            }
            v.push(PoolThreadAction::Respawn);
        },
    }
    assert(v@ =~= pool_thread_step(PoolThreadStage::Ended { end, ident, fence }));
    v
}

/// One step of a pool thread. The order within a step is the order of the
/// returned actions.
pub fn pooldb_thread_main(stage: PoolThreadStage) -> (v: Vec<PoolThreadAction>)
    ensures
        v@ == pool_thread_step(stage),
{
    match stage {
        PoolThreadStage::Begin { have_boot } => {
            if have_boot {
                vec![PoolThreadAction::ApplySettings]
            } else {
                vec![PoolThreadAction::Poison, PoolThreadAction::RunBody]
            }
        },
        PoolThreadStage::Settings(ok) => {
            if ok {
                vec![PoolThreadAction::InitChild]
            } else {
                vec![
                    PoolThreadAction::WarnSettings,
                    PoolThreadAction::Poison,
                    PoolThreadAction::RunBody,
                ]
            }
        },
        PoolThreadStage::ChildInit(ok) => {
            if ok {
                vec![
                    PoolThreadAction::SetSigquitHandler,
                    PoolThreadAction::SetBackendType,
                    PoolThreadAction::AdoptWorkerEntry,
                    PoolThreadAction::InitTimeouts,
                    PoolThreadAction::RunBodyGuarded,
                ]
            } else {
                vec![
                    PoolThreadAction::WarnChildInit,
                    PoolThreadAction::Poison,
                    PoolThreadAction::RunBody,
                ]
            }
        },
        PoolThreadStage::Ended { end, ident, fence } => pool_thread_ended(end, ident, fence),
    }
}

/// The pool never shrinks by a thread's death: whatever ended it but a clean
/// stop, the last thing it does is to have its place filled.
pub proof fn law_pool_thread_is_replaced(end: BodyEnd, ident: PoolIdent, fence: u64)
    requires
        !(end is Clean),
    ensures
        ({
            let a = pool_thread_step(PoolThreadStage::Ended { end, ident, fence });
            a.len() > 0 && a.last() == PoolThreadAction::Respawn
        }),
{
}

/// A thread whose identity crossed the fence, or that was retired by it, runs
/// no exit callback: those would touch memory that was reset.
pub proof fn law_no_callbacks_across_the_fence(end: BodyEnd, ident: PoolIdent, fence: u64, i: int)
    requires
        stale(ident, fence) || end is RetireRaw,
    ensures
        ({
            let a = pool_thread_step(PoolThreadStage::Ended { end, ident, fence });
            0 <= i < a.len() ==> !(a[i] is RunDeferredCallbacks) && !(a[i] is ProcExit)
        }),
{
}

/// Whether a failure to replace a thread has to be warned about: the pool
/// runs, and the new thread could not be started.
pub fn respawn_pool_slot(pool: &RuntimePool, spawned: bool) -> (warn: bool)
    ensures
        warn == (pool.started && !spawned),
{
    pool.started && !spawned
}

/// Records whether a worker thread could be started.
pub fn spawn_worker(pool: &mut RuntimePool, ok: bool)
    requires
        old(pool).population < i32::MAX,
    ensures
        *final(pool) == (RuntimePool {
            population: (old(pool).population + if ok {
                1int
            } else {
                0
            }) as i32,
            ..*old(pool)
        }),
{
    if ok {
        pool.population = pool.population + 1;
    }
}

/// A worker thread has ended.
pub fn worker_exited(pool: &mut RuntimePool)
    requires
        old(pool).population > i32::MIN,
    ensures
        *final(pool) == (RuntimePool { population: (old(pool).population - 1) as i32, ..*old(pool) }),
{
    pool.population = pool.population - 1;
}

/// The name of an executor, by its place.
pub fn executor_name(ordinal: u64) -> (s: String)
    ensures
        s@ == "runtime pool executor "@ + text::dec(ordinal as nat),
{
    let mut s = String::from_str("runtime pool executor ");
    text::append_u64(&mut s, ordinal);
    s
}

/// The kinds that can run as a job of the runtime instead of a thread.
pub open spec fn migrated(t: BackendType) -> bool {
    t == BackendType::BgWriter || t == BackendType::WalWriter
}

/// Whether a job may take the child's place.
pub fn may_launch_job(child_type: BackendType, bgjobs_enabled: bool) -> (r: bool)
    ensures
        r == (migrated(child_type) && bgjobs_enabled),
{
    (child_type == BackendType::BgWriter || child_type == BackendType::WalWriter) && bgjobs_enabled
}

/// Launches a job in place of a child, where its kind allows that, the switch
/// is on, and pool and dispatcher run. The job gets a reserved pid.
pub fn try_launch_job(
    child_type: BackendType,
    bgjobs_enabled: bool,
    pool_running: bool,
    dispatcher_running: bool,
    pids: &mut ChildPids,
    postmaster_pid: i32,
) -> (r: Option<i32>)
    ensures
        r is Some <==> migrated(child_type) && bgjobs_enabled && pool_running && dispatcher_running,
        r matches Some(pid) ==> pid == launch::next_pid(old(pids).next, postmaster_pid) && final(pids).next
            == launch::succ(pid),
        r is None ==> final(pids).next == old(pids).next,
{
    if !may_launch_job(child_type, bgjobs_enabled) {
        return None;
    }
    if !pool_running || !dispatcher_running {
        return None;
    }
    Some(reserve_child_pid(pids, postmaster_pid))
}

/// What the thread of the job dispatcher does before its body.
#[derive(Clone, Copy, Debug, PartialEq, Eq)]
pub enum DispatcherAction {
    ApplyInherited,
    SetStackBase,
    /// Take over settings that were checked before.
    BindBase,
    /// Set each captured setting again.
    RestoreSettings,
    RunBody,
    /// End with this message.
    Fail(&'static str),
}

/// What the thread of the job dispatcher does, with how taking over the
/// settings went.
pub open spec fn dispatcher_actions(base_share: bool, settled: Option<bool>) -> Seq<
    DispatcherAction,
> {
    match settled {
        None => seq![
            DispatcherAction::ApplyInherited,
            DispatcherAction::SetStackBase,
            if base_share {
                DispatcherAction::BindBase
            } else {
                DispatcherAction::RestoreSettings
            },
        ],
        Some(ok) => if ok {
            seq![DispatcherAction::RunBody]
        } else if base_share {
            seq![DispatcherAction::Fail("bgjobs dispatcher GUC base bind failed")]
        } else {
            seq![DispatcherAction::Fail("bgjobs dispatcher GUC prelude failed")]
        },
    }
}

/// What the thread of the job dispatcher does: it takes over the settings as a
/// child thread does, and runs its body only then.
pub fn spawn_dispatcher(base_share: bool, settled: Option<bool>) -> (v: Vec<DispatcherAction>)
    ensures
        v@ == dispatcher_actions(base_share, settled),
{
    let mut v: Vec<DispatcherAction> = Vec::new();
    match settled {
        None => {
            v.push(DispatcherAction::ApplyInherited);
            v.push(DispatcherAction::SetStackBase);
            v.push(
                if base_share {
                    DispatcherAction::BindBase
                } else {
                    DispatcherAction::RestoreSettings
                },
            );
        },
        Some(ok) => {
            if ok {
                v.push(DispatcherAction::RunBody);
            } else if base_share {
                v.push(DispatcherAction::Fail("bgjobs dispatcher GUC base bind failed"));
            } else {
                v.push(DispatcherAction::Fail("bgjobs dispatcher GUC prelude failed"));
            }
        },
    }
    assert(v@ =~= dispatcher_actions(base_share, settled));
    v
}

} // verus!
