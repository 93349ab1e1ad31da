//! The standing gang of runtime executors. Its threads are listed nowhere, so
//! a shutdown waits for their count.
use vstd::prelude::*;
use crate::launch::Payload;
use crate::rtpool;
use crate::rtpool::{pool_procs_wanted, RuntimeConfig};
use crate::text;

verus! {

/// The gang.
#[derive(Clone, Copy, Debug, PartialEq, Eq, Structural)]
pub struct Gang {
    /// Live threads, charged before they start.
    pub live: i32,
    /// Whether what a thread starts from was captured.
    pub booted: bool,
}

impl Gang {
    /// No threads.
    pub fn new() -> (g: Gang)
        ensures
            g == (Gang { live: 0, booted: false }),
    {
        Gang { live: 0, booted: false }
    }
}

/// How many gang threads live.
pub fn live_gang_threads(g: &Gang) -> (r: i32)
    ensures
        r == g.live,
{
    g.live
}

/// How many threads that are listed nowhere may touch shared memory: the gang,
/// and pool threads that are busy with it.
pub fn runtime_shm_busy_threads(g: &Gang, pool_busy: i32) -> (r: i32)
    requires
        i32::MIN <= g.live + pool_busy <= i32::MAX,
    ensures
        r == g.live + pool_busy,
{
    live_gang_threads(g) + pool_busy
}

pub open spec fn clamp(n: int, lo: int, hi: int) -> int {
    if n < lo {
        lo
    } else if n > hi {
        hi
    } else {
        n
    }
}

/// The size of the gang: the environment's where it gives a number, else the
/// number of workers; from 0 to 1024; 0 where the gang is off.
pub open spec fn gang_size(cfg: RuntimeConfig, env: Option<Seq<char>>) -> int {
    if !cfg.runtime_enabled || !cfg.pool_binding_enabled {
        0
    } else {
        let n = match env {
            Some(v) => match text::parse_signed(text::trimmed(v)) {
                Some(i) => if i64::MIN <= i <= i64::MAX {
                    i
                } else {
                    cfg.workers as int
                },
                None => cfg.workers as int,
            },
            None => cfg.workers as int,
        };
        clamp(n, 0, 1024)
    }
}

pub open spec fn chars_of(env: Option<&str>) -> Option<Seq<char>> {
    match env {
        Some(v) => Some(v@),
        None => None,
    }
}

/// How many process slots the gang needs.
pub fn gang_procs_wanted(cfg: RuntimeConfig, env: Option<&str>) -> (r: i32)
    ensures
        r == gang_size(cfg, chars_of(env)),
        0 <= r <= 1024,
{
    if !cfg.runtime_enabled || !cfg.pool_binding_enabled {
        return 0;
    }
    let workers: i32 = if cfg.workers > 1024 { 1024 } else { cfg.workers as i32 };
    match env {
        Some(v) => match text::parse_i64(text::trim(v)) {
            Some(n) => {
                if n < 0 {
                    0
                } else if n > 1024 {
                    1024
                } else {
                    n as i32
                }
            },
            None => workers,
        },
        None => workers,
    }
}

/// How many process slots to reserve for the runtime: for the gang, and for
/// pool threads that serve queries.
pub fn runtime_reserved_procs(cfg: RuntimeConfig, env: Option<&str>) -> (r: i32)
    ensures
        r == gang_size(cfg, chars_of(env)) + rtpool::pool_procs(cfg),
{
    gang_procs_wanted(cfg, env) + pool_procs_wanted(cfg)
}

/// With the runtime off nothing is reserved.
pub proof fn law_no_runtime_no_reservation(cfg: RuntimeConfig, env: Option<Seq<char>>)
    requires
        !cfg.runtime_enabled,
    ensures
        gang_size(cfg, env) + rtpool::pool_procs(cfg) == 0,
{
}

/// Wires the gang: it is installed with this size, or not at all.
pub fn install_if_enabled(g: &mut Gang, wanted: i32) -> (r: Option<u32>)
    ensures
        wanted <= 0 ==> r is None && *final(g) == *old(g),
        wanted > 0 ==> r == Some(wanted as u32) && *final(g) == (Gang { booted: true, ..*old(g) }),
{
    if wanted <= 0 {
        return None;
    }
    g.booted = true;
    Some(wanted as u32)
}

/// Charges a gang thread before it starts; not before the gang is wired.
pub fn charge_gang_worker(g: &mut Gang) -> (r: bool)
    requires
        old(g).live < i32::MAX,
    ensures
        r == old(g).booted,
        *final(g) == (Gang { live: (old(g).live + if r { 1int } else { 0 }) as i32, ..*old(g) }),
{
    if !g.booted {
        return false;
    }
    g.live = g.live + 1;
    true
}

/// Records whether a charged thread could be started.
pub fn spawn_gang_worker(g: &mut Gang, ok: bool) -> (r: bool)
    requires
        old(g).live > i32::MIN,
    ensures
        r == ok,
        *final(g) == (Gang { live: (old(g).live - if ok { 0int } else { 1 }) as i32, ..*old(g) }),
{
    if !ok {
        g.live = g.live - 1;
    }
    ok
}

/// A gang thread has ended, after its last touch of shared memory. Says
/// whether to poke the supervisor, which may be waiting for it.
pub fn gang_worker_ended(g: &mut Gang, under_postmaster: bool) -> (poke: bool)
    requires
        old(g).live > i32::MIN,
    ensures
        *final(g) == (Gang { live: (old(g).live - 1) as i32, ..*old(g) }),
        poke == under_postmaster,
{
    g.live = g.live - 1;
    under_postmaster
}

/// How far a gang thread has come, with what the outside reported last.
#[derive(Clone, Copy, Debug, PartialEq, Eq, Structural)]
pub enum GangStage {
    Begin,
    /// Whether the settings could be applied.
    Settings(bool),
    /// Whether the thread's own setup worked.
    ChildInit(bool),
    /// Whether a process slot was claimed.
    Claimed(bool),
    /// Whether the base setup worked.
    BaseInit(bool),
    /// How the loop ended: with or without shared memory to release to.
    LoopEnded { clean: bool },
    /// How the guarded part ended; nothing where it returned.
    Ended(Option<Payload>),
}

/// What a gang thread does next.
#[derive(Clone, Copy, Debug, PartialEq, Eq, Structural)]
pub enum GangAction {
    ApplyInherited,
    ApplySettings,
    WarnSettings,
    InitChild,
    WarnChildInit,
    SetSigquitHandler,
    SetBackendType,
    AdoptWorkerEntry,
    InitTimeouts,
    /// Claim a process slot. From here on what ends the thread is caught.
    Claim,
    WarnClaim,
    BaseInit,
    WarnBaseInit,
    RunLoop,
    /// Unwinds with this exit code.
    ProcExit(i32),
    NoteWorkerExit,
    RunDeferredCallbacks(i32),
    WarnPanicked,
}

/// The actions of a step. What was claimed is released, by exit callbacks, on
/// every way out but the one of the crash fence.
pub open spec fn gang_step(stage: GangStage) -> Seq<GangAction> {
    match stage {
        GangStage::Begin => seq![GangAction::ApplyInherited, GangAction::ApplySettings],
        GangStage::Settings(ok) => if ok {
            seq![GangAction::InitChild]
        } else {
            seq![GangAction::WarnSettings, GangAction::NoteWorkerExit]
        },
        GangStage::ChildInit(ok) => if ok {
            seq![
                GangAction::SetSigquitHandler,
                GangAction::SetBackendType,
                GangAction::AdoptWorkerEntry,
                GangAction::InitTimeouts,
                GangAction::Claim,
            ]
        } else {
            seq![GangAction::WarnChildInit, GangAction::NoteWorkerExit]
        },
        GangStage::Claimed(ok) => if ok {
            seq![GangAction::BaseInit]
        } else {
            seq![GangAction::WarnClaim]
        },
        GangStage::BaseInit(ok) => if ok {
            seq![GangAction::RunLoop]
        } else {
            seq![GangAction::WarnBaseInit, GangAction::ProcExit(1)]
        },
        GangStage::LoopEnded { clean } => if clean {
            seq![GangAction::ProcExit(0)]
        } else {
            Seq::empty()
        },
        GangStage::Ended(end) => match end {
            None => seq![GangAction::NoteWorkerExit],
            Some(Payload::ProcExit(code)) => seq![
                GangAction::NoteWorkerExit,
                GangAction::RunDeferredCallbacks(code),
            ],
            Some(_) => seq![
                GangAction::NoteWorkerExit,
                GangAction::WarnPanicked,
                GangAction::ProcExit(2),
                GangAction::RunDeferredCallbacks(2),
            ],
        },
    }
}

/// One step of a gang thread.
pub fn gang_thread(stage: GangStage) -> (v: Vec<GangAction>)
    ensures
        v@ == gang_step(stage),
{
    match stage {
        GangStage::Begin => vec![GangAction::ApplyInherited, GangAction::ApplySettings],
        GangStage::Settings(ok) => {
            if ok {
                vec![GangAction::InitChild]
            } else {
                vec![GangAction::WarnSettings, GangAction::NoteWorkerExit]
            }
        },
        GangStage::ChildInit(ok) => {
            if ok {
                vec![
                    GangAction::SetSigquitHandler,
                    GangAction::SetBackendType,
                    GangAction::AdoptWorkerEntry,
                    GangAction::InitTimeouts,
                    GangAction::Claim,
                ]
            } else {
                vec![GangAction::WarnChildInit, GangAction::NoteWorkerExit]
            }
        },
        GangStage::Claimed(ok) => {
            if ok {
                vec![GangAction::BaseInit]
            } else {
                vec![GangAction::WarnClaim]
            }
        },
        GangStage::BaseInit(ok) => {
            if ok {
                vec![GangAction::RunLoop]
            } else {
                vec![GangAction::WarnBaseInit, GangAction::ProcExit(1)]
            }
        },
        GangStage::LoopEnded { clean } => {
            if clean {
                vec![GangAction::ProcExit(0)]
            } else {
                Vec::new()
            }
        },
        GangStage::Ended(end) => match end {
            None => vec![GangAction::NoteWorkerExit],
            Some(Payload::ProcExit(code)) => vec![
                GangAction::NoteWorkerExit,
                GangAction::RunDeferredCallbacks(code),
            ],
            Some(_) => vec![
                GangAction::NoteWorkerExit,
                GangAction::WarnPanicked,
                GangAction::ProcExit(2),
                GangAction::RunDeferredCallbacks(2),
            ],
        },
    }
}

/// The name of a standing executor, by its place.
pub fn gang_executor_name(ordinal: u64) -> (s: String)
    ensures
        s@ == "runtime standing executor "@ + text::dec(ordinal as nat),
{
    let mut s = String::from_str("runtime standing executor ");
    text::append_u64(&mut s, ordinal);
    s
}

/// Every way out of a gang thread notes its exit, before any exit callback.
pub proof fn law_gang_exit_is_noted(end: Option<Payload>)
    ensures
        gang_step(GangStage::Settings(false)).contains(GangAction::NoteWorkerExit),
        gang_step(GangStage::ChildInit(false)).contains(GangAction::NoteWorkerExit),
        gang_step(GangStage::Ended(end))[0] == GangAction::NoteWorkerExit,
{
    assert(gang_step(GangStage::Settings(false))[1] == GangAction::NoteWorkerExit);
    assert(gang_step(GangStage::ChildInit(false))[1] == GangAction::NoteWorkerExit);
}

} // verus!
