//! Starting the children that should run and do not.
use vstd::prelude::*;
use crate::backend_type::BackendType;
use crate::pm_state::{PMState, PmChild, PostmasterState};
use crate::pm_state::{ImmediateShutdown, NoShutdown, SmartShutdown, MAX_IO_WORKERS_USIZE};
use crate::reaper;

verus! {

/// How many slots are taken.
pub open spec fn occupied(slots: Seq<Option<PmChild>>) -> nat
    decreases slots.len(),
{
    if slots.len() == 0 {
        0
    } else if slots.last() is Some {
        occupied(slots.drop_last()) + 1
    } else {
        occupied(slots.drop_last())
    }
}

/// The count of I/O workers agrees with the slots.
pub open spec fn io_counted(pm: PostmasterState) -> bool {
    pm.io_worker_count == occupied(pm.io_worker_children@)
}

proof fn lemma_occupied_update(slots: Seq<Option<PmChild>>, k: int, v: Option<PmChild>)
    requires
        0 <= k < slots.len(),
    ensures
        occupied(slots.update(k, v)) == occupied(slots) - (if slots[k] is Some {
            1int
        } else {
            0
        }) + (if v is Some {
            1int
        } else {
            0
        }),
    decreases slots.len(),
{
    let u = slots.update(k, v);
    if k == slots.len() - 1 {
        assert(u.drop_last() =~= slots.drop_last());
    } else {
        assert(u.drop_last() =~= slots.drop_last().update(k, v));
        lemma_occupied_update(slots.drop_last(), k, v);
    }
}

proof fn lemma_occupied_full(slots: Seq<Option<PmChild>>)
    ensures
        occupied(slots) <= slots.len(),
        occupied(slots) == slots.len() || exists|i: int| 0 <= i < slots.len() && (#[trigger] slots[i]) is None,
    decreases slots.len(),
{
    if slots.len() > 0 {
        let t = slots.drop_last();
        lemma_occupied_full(t);
        if occupied(slots) != slots.len() {
            if slots.last() is None {
                assert(slots[slots.len() - 1] is None);
            } else {
                let i = choose|i: int| 0 <= i < t.len() && (#[trigger] t[i]) is None;
                assert(slots[i] is None);
            }
        }
    }
}

/// Where the count agrees with the slots, a count below the number of slots
/// leaves one free.
pub proof fn law_free_io_slot_exists(pm: PostmasterState, target: i32)
    requires
        pm.wf(),
        io_counted(pm),
        pm.io_worker_count < target <= MAX_IO_WORKERS_USIZE,
    ensures
        exists|i: int| 0 <= i < pm.io_worker_children@.len() && (#[trigger] pm.io_worker_children@[i]) is None,
{
    lemma_occupied_full(pm.io_worker_children@);
}

/// Whether the pool of I/O workers is being kept level: not in the last phases
/// of a shutdown, nor in an immediate shutdown, nor while a crash is cleaned up.
pub open spec fn io_levelled(pm: PostmasterState, enabled: bool) -> bool {
    &&& enabled
    &&& pm.pm_state.rank() < PMState::PM_WAIT_IO_WORKERS.rank()
    &&& pm.shutdown < ImmediateShutdown
    &&& !(pm.fatal_error && !pm.pm_state.before_stop())
}

/// What to do about the pool of I/O workers.
#[derive(Clone, Copy, Debug, PartialEq, Eq, Structural)]
pub enum IoStep {
    Nothing,
    /// Start a worker for this slot.
    Start(usize),
    /// Ask this worker to end.
    Stop(PmChild),
}

/// Whether `i` is the first free slot.
pub open spec fn first_free(slots: Seq<Option<PmChild>>, i: int) -> bool {
    0 <= i < slots.len() && slots[i] is None && forall|j: int| 0 <= j < i ==> (#[trigger] slots[j]) is Some
}

/// Whether `c` sits in the last slot taken.
pub open spec fn last_taken(slots: Seq<Option<PmChild>>, c: PmChild) -> bool {
    exists|i: int|
        0 <= i < slots.len() && #[trigger] slots[i] == Some(c) && forall|j: int|
            i < j < slots.len() ==> (#[trigger] slots[j]) is None
}

/// Closes the gap between running and wanted I/O workers, one worker at a
/// time: the caller starts it, calls `io_worker_started`, and comes back.
pub fn maybe_adjust_io_workers(pm: &PostmasterState, enabled: bool, target: i32) -> (r: IoStep)
    requires
        io_levelled(*pm, enabled) && pm.io_worker_count < target ==> exists|i: int|
            0 <= i < pm.io_worker_children@.len() && (#[trigger] pm.io_worker_children@[i]) is None,
    ensures
        io_levelled(*pm, enabled) && pm.io_worker_count < target <==> r is Start,
        r matches IoStep::Start(i) ==> first_free(pm.io_worker_children@, i as int),
        r is Stop <==> io_levelled(*pm, enabled) && pm.io_worker_count > target && exists|i: int|
            0 <= i < pm.io_worker_children@.len() && (#[trigger] pm.io_worker_children@[i]) is Some,
        r matches IoStep::Stop(c) ==> last_taken(pm.io_worker_children@, c),
{
    if !enabled {
        return IoStep::Nothing;
    }
    if pm.pm_state.order() >= PMState::PM_WAIT_IO_WORKERS.order() {
        return IoStep::Nothing;
    }
    if pm.shutdown >= ImmediateShutdown {
        return IoStep::Nothing;
    }
    if pm.fatal_error && pm.pm_state.order() >= PMState::PM_STOP_BACKENDS.order() {
        return IoStep::Nothing;
    }
    let n: usize = pm.io_worker_children.len();
    if pm.io_worker_count < target {
        let mut i: usize = 0;
        while i < n && pm.io_worker_children[i].is_some()
            invariant
                i <= n,
                n == pm.io_worker_children@.len(),
                forall|j: int| 0 <= j < i ==> (#[trigger] pm.io_worker_children@[j]) is Some,
            decreases n - i,
        {
            i = i + 1;
        }
        assert(i < n) by {
            let k = choose|k: int|
                0 <= k < pm.io_worker_children@.len() && (#[trigger] pm.io_worker_children@[k]) is None;
            if i == n {
                assert(pm.io_worker_children@[k] is Some);
            }
        }
        return IoStep::Start(i);
    }
    if pm.io_worker_count > target {
        let mut i: usize = n;
        while i > 0
            invariant
                i <= n,
                n == pm.io_worker_children@.len(),
                forall|j: int| i <= j < n ==> (#[trigger] pm.io_worker_children@[j]) is None,
                io_levelled(*pm, enabled),
                pm.io_worker_count > target,
            decreases i,
        {
            if let Some(c) = pm.io_worker_children[i - 1] {
                assert(pm.io_worker_children@[i - 1] == Some(c));
                return IoStep::Stop(c);
            }
            i = i - 1;
        }
    }
    IoStep::Nothing
}

/// Records the outcome of starting an I/O worker. Says whether to look for
/// more to start: after a failure the next lap tries again.
pub fn io_worker_started(pm: &mut PostmasterState, slot: usize, child: Option<PmChild>) -> (again: bool)
    requires
        slot < old(pm).io_worker_children@.len(),
        old(pm).io_worker_count < i32::MAX,
    ensures
        again == child is Some,
        child is None ==> *final(pm) == *old(pm),
        child is Some ==> {
            &&& final(pm).io_worker_children@ == old(pm).io_worker_children@.update(slot as int, child)
            &&& final(pm).io_worker_count == old(pm).io_worker_count + 1
            &&& *final(pm) == (PostmasterState {
                io_worker_children: final(pm).io_worker_children,
                io_worker_count: final(pm).io_worker_count,
                ..*old(pm)
            })
        },
{
    if child.is_some() {
        pm.io_worker_children.set(slot, child);
        pm.io_worker_count = pm.io_worker_count + 1;
        true
    } else {
        false
    }
}

/// Starting an I/O worker in a free slot keeps the count true.
pub proof fn law_start_keeps_io_count(slots: Seq<Option<PmChild>>, count: i32, slot: int, c: PmChild)
    requires
        0 <= slot < slots.len(),
        slots[slot] is None,
        count == occupied(slots),
    ensures
        count + 1 == occupied(slots.update(slot, Some(c))),
{
    lemma_occupied_update(slots, slot, Some(c));
}

proof fn lemma_first_in_range(slots: Seq<Option<PmChild>>, pid: i32, i: int)
    requires
        0 <= i < slots.len(),
        reaper::is_pid(slots[i], pid),
    ensures
        0 <= reaper::first_with_pid(slots, pid) <= i,
        reaper::is_pid(slots[reaper::first_with_pid(slots, pid)], pid),
    decreases slots.len(),
{
    if !reaper::is_pid(slots[0], pid) {
        let t = slots.skip(1);
        assert(t[i - 1] == slots[i]);
        lemma_first_in_range(t, pid, i - 1);
        assert(t[reaper::first_with_pid(t, pid)] == slots[reaper::first_with_pid(t, pid) + 1]);
    }
}

/// Reaping an I/O worker that holds a slot keeps the count true.
pub proof fn law_reap_keeps_io_count(slots: Seq<Option<PmChild>>, count: i32, pid: i32, i: int)
    requires
        0 <= i < slots.len(),
        reaper::is_pid(slots[i], pid),
        count == occupied(slots),
    ensures
        count - 1 == occupied(reaper::io_left(slots, pid)),
{
    lemma_first_in_range(slots, pid, i);
    lemma_occupied_update(slots, reaper::first_with_pid(slots, pid), None);
}

/// The settings that decide which children should run.
#[derive(Clone, Copy, Debug, PartialEq, Eq, Structural)]
pub struct LaunchConfig {
    pub logging_collector: bool,
    pub binary_upgrade: bool,
    pub autovacuuming_active: bool,
    /// 0 off, 1 on, 2 always.
    pub archive_mode: i32,
    pub sync_replication_slots: bool,
    pub summarize_wal: bool,
}

/// How far the pass has come, with what the outside reported last.
#[derive(Clone, Copy, Debug, PartialEq, Eq, Structural)]
pub enum LaunchStage {
    Logger,
    IoWorkers,
    Checkpointer,
    BgWriter,
    WalWriter,
    Autovac,
    Archiver,
    ArchiverMayRestart(bool),
    SlotSync,
    SlotSyncMayRestart(bool),
    WalReceiver,
    WalSummarizer,
    Workers,
    Pool,
    Done,
}

/// What a step of the pass asks for.
#[derive(Clone, Copy, Debug, PartialEq, Eq, Structural)]
pub enum LaunchAction {
    Nothing,
    StartSysLogger,
    AdjustIoWorkers,
    /// Start a child; the outcome goes to `child_started`.
    StartChild(BackendType),
    CheckArchiverRestart,
    CheckSlotSyncRestart,
    StartBgworkers,
    MaintainPool,
}

/// The phases in which checkpointer and background writer run.
pub open spec fn writers_run(state: PMState) -> bool {
    state == PMState::PM_RUN || state == PMState::PM_RECOVERY || state == PMState::PM_HOT_STANDBY || state
        == PMState::PM_STARTUP
}

/// Whether archiving is wanted in this phase.
pub open spec fn archiver_wanted(pm: PostmasterState, archive_mode: i32) -> bool {
    pm.pgarch is None && ((archive_mode > 0 && pm.pm_state == PMState::PM_RUN) || (archive_mode >= 2 && (
    pm.pm_state == PMState::PM_RECOVERY || pm.pm_state == PMState::PM_HOT_STANDBY)))
}

pub open spec fn launch_if(c: bool, a: LaunchAction) -> LaunchAction {
    if c {
        a
    } else {
        LaunchAction::Nothing
    }
}

/// What a step asks for, and the step after it.
pub open spec fn launch_step(pm: PostmasterState, cfg: LaunchConfig, stage: LaunchStage) -> (
    LaunchAction,
    LaunchStage,
) {
    match stage {
        LaunchStage::Logger => (
            launch_if(pm.syslogger is None && cfg.logging_collector, LaunchAction::StartSysLogger),
            LaunchStage::IoWorkers,
        ),
        LaunchStage::IoWorkers => (LaunchAction::AdjustIoWorkers, LaunchStage::Checkpointer),
        LaunchStage::Checkpointer => (
            launch_if(
                writers_run(pm.pm_state) && pm.checkpointer is None,
                LaunchAction::StartChild(BackendType::Checkpointer),
            ),
            LaunchStage::BgWriter,
        ),
        LaunchStage::BgWriter => (
            launch_if(
                writers_run(pm.pm_state) && pm.bgwriter is None,
                LaunchAction::StartChild(BackendType::BgWriter),
            ),
            LaunchStage::WalWriter,
        ),
        LaunchStage::WalWriter => (
            launch_if(
                pm.walwriter is None && pm.pm_state == PMState::PM_RUN,
                LaunchAction::StartChild(BackendType::WalWriter),
            ),
            LaunchStage::Autovac,
        ),
        LaunchStage::Autovac => (
            launch_if(
                !cfg.binary_upgrade && pm.autovac_launcher is None && (cfg.autovacuuming_active
                    || pm.start_autovac_launcher) && pm.pm_state == PMState::PM_RUN,
                LaunchAction::StartChild(BackendType::AutovacLauncher),
            ),
            LaunchStage::Archiver,
        ),
        LaunchStage::Archiver => if archiver_wanted(pm, cfg.archive_mode) {
            (LaunchAction::CheckArchiverRestart, LaunchStage::ArchiverMayRestart(false))
        } else {
            (LaunchAction::Nothing, LaunchStage::SlotSync)
        },
        LaunchStage::ArchiverMayRestart(ok) => (
            launch_if(
                ok && archiver_wanted(pm, cfg.archive_mode),
                LaunchAction::StartChild(BackendType::Archiver),
            ),
            LaunchStage::SlotSync,
        ),
        LaunchStage::SlotSync => if slotsync_wanted(pm, cfg.sync_replication_slots) {
            (LaunchAction::CheckSlotSyncRestart, LaunchStage::SlotSyncMayRestart(false))
        } else {
            (LaunchAction::Nothing, LaunchStage::WalReceiver)
        },
        LaunchStage::SlotSyncMayRestart(ok) => (
            launch_if(
                ok && slotsync_wanted(pm, cfg.sync_replication_slots),
                LaunchAction::StartChild(BackendType::SlotsyncWorker),
            ),
            LaunchStage::WalReceiver,
        ),
        LaunchStage::WalReceiver => (
            launch_if(
                pm.wal_receiver_requested && pm.walreceiver is None && (pm.pm_state
                    == PMState::PM_STARTUP || pm.pm_state == PMState::PM_RECOVERY || pm.pm_state
                    == PMState::PM_HOT_STANDBY) && pm.shutdown <= SmartShutdown,
                LaunchAction::StartChild(BackendType::WalReceiver),
            ),
            LaunchStage::WalSummarizer,
        ),
        LaunchStage::WalSummarizer => (
            launch_if(
                cfg.summarize_wal && pm.walsummarizer is None && (pm.pm_state == PMState::PM_RUN
                    || pm.pm_state == PMState::PM_HOT_STANDBY) && pm.shutdown <= SmartShutdown,
                LaunchAction::StartChild(BackendType::WalSummarizer),
            ),
            LaunchStage::Workers,
        ),
        LaunchStage::Workers => (
            launch_if(pm.start_worker_needed || pm.have_crashed_worker, LaunchAction::StartBgworkers),
            LaunchStage::Pool,
        ),
        LaunchStage::Pool => (
            launch_if(pm.shutdown == NoShutdown && !pm.fatal_error, LaunchAction::MaintainPool),
            LaunchStage::Done,
        ),
        LaunchStage::Done => (LaunchAction::Nothing, LaunchStage::Done),
    }
}

/// Whether the slot sync worker is wanted.
pub open spec fn slotsync_wanted(pm: PostmasterState, sync_replication_slots: bool) -> bool {
    pm.slotsync_worker is None && pm.pm_state == PMState::PM_HOT_STANDBY && pm.shutdown <= SmartShutdown
        && sync_replication_slots
}

fn pick(c: bool, a: LaunchAction) -> (r: LaunchAction)
    ensures
        r == launch_if(c, a),
{
    if c {
        a
    } else {
        LaunchAction::Nothing
    }
}

/// One step of the pass over the children that should run. The caller
/// performs the action, puts the answer of a check into the stage, and calls
/// again until `Done`.
pub fn LaunchMissingBackgroundProcesses(pm: &PostmasterState, cfg: LaunchConfig, stage: LaunchStage) -> (r: (
    LaunchAction,
    LaunchStage,
))
    ensures
        r == launch_step(*pm, cfg, stage),
{
    let state = pm.pm_state;
    let writers = state == PMState::PM_RUN || state == PMState::PM_RECOVERY || state
        == PMState::PM_HOT_STANDBY || state == PMState::PM_STARTUP;
    let archiver = pm.pgarch.is_none() && ((cfg.archive_mode > 0 && state == PMState::PM_RUN) || (
    cfg.archive_mode >= 2 && (state == PMState::PM_RECOVERY || state == PMState::PM_HOT_STANDBY)));
    let slotsync = pm.slotsync_worker.is_none() && state == PMState::PM_HOT_STANDBY && pm.shutdown
        <= SmartShutdown && cfg.sync_replication_slots;
    match stage {
        LaunchStage::Logger => (
            pick(pm.syslogger.is_none() && cfg.logging_collector, LaunchAction::StartSysLogger),
            LaunchStage::IoWorkers,
        ),
        LaunchStage::IoWorkers => (LaunchAction::AdjustIoWorkers, LaunchStage::Checkpointer),
        LaunchStage::Checkpointer => (
            pick(
                writers && pm.checkpointer.is_none(),
                LaunchAction::StartChild(BackendType::Checkpointer),
            ),
            LaunchStage::BgWriter,
        ),
        LaunchStage::BgWriter => (
            pick(writers && pm.bgwriter.is_none(), LaunchAction::StartChild(BackendType::BgWriter)),
            LaunchStage::WalWriter,
        ),
        LaunchStage::WalWriter => (
            pick(
                pm.walwriter.is_none() && state == PMState::PM_RUN,
                LaunchAction::StartChild(BackendType::WalWriter),
            ),
            LaunchStage::Autovac,
        ),
        LaunchStage::Autovac => (
            pick(
                !cfg.binary_upgrade && pm.autovac_launcher.is_none() && (cfg.autovacuuming_active
                    || pm.start_autovac_launcher) && state == PMState::PM_RUN,
                LaunchAction::StartChild(BackendType::AutovacLauncher),
            ),
            LaunchStage::Archiver,
        ),
        LaunchStage::Archiver => if archiver {
            (LaunchAction::CheckArchiverRestart, LaunchStage::ArchiverMayRestart(false))
        } else {
            (LaunchAction::Nothing, LaunchStage::SlotSync)
        },
        LaunchStage::ArchiverMayRestart(ok) => (
            pick(ok && archiver, LaunchAction::StartChild(BackendType::Archiver)),
            LaunchStage::SlotSync,
        ),
        LaunchStage::SlotSync => if slotsync {
            (LaunchAction::CheckSlotSyncRestart, LaunchStage::SlotSyncMayRestart(false))
        } else {
            (LaunchAction::Nothing, LaunchStage::WalReceiver)
        },
        LaunchStage::SlotSyncMayRestart(ok) => (
            pick(ok && slotsync, LaunchAction::StartChild(BackendType::SlotsyncWorker)),
            LaunchStage::WalReceiver,
        ),
        LaunchStage::WalReceiver => (
            pick(
                pm.wal_receiver_requested && pm.walreceiver.is_none() && (state == PMState::PM_STARTUP
                    || state == PMState::PM_RECOVERY || state == PMState::PM_HOT_STANDBY) && pm.shutdown
                    <= SmartShutdown,
                LaunchAction::StartChild(BackendType::WalReceiver),
            ),
            LaunchStage::WalSummarizer,
        ),
        LaunchStage::WalSummarizer => (
            pick(
                cfg.summarize_wal && pm.walsummarizer.is_none() && (state == PMState::PM_RUN || state
                    == PMState::PM_HOT_STANDBY) && pm.shutdown <= SmartShutdown,
                LaunchAction::StartChild(BackendType::WalSummarizer),
            ),
            LaunchStage::Workers,
        ),
        LaunchStage::Workers => (
            pick(pm.start_worker_needed || pm.have_crashed_worker, LaunchAction::StartBgworkers),
            LaunchStage::Pool,
        ),
        LaunchStage::Pool => (
            pick(pm.shutdown == NoShutdown && !pm.fatal_error, LaunchAction::MaintainPool),
            LaunchStage::Done,
        ),
        LaunchStage::Done => (LaunchAction::Nothing, LaunchStage::Done),
    }
}

/// The child that is held by name for this kind.
pub open spec fn named_child(pm: PostmasterState, kind: BackendType) -> Option<PmChild> {
    match kind {
        BackendType::Checkpointer => pm.checkpointer,
        BackendType::BgWriter => pm.bgwriter,
        BackendType::Startup => pm.startup,
        BackendType::WalWriter => pm.walwriter,
        BackendType::AutovacLauncher => pm.autovac_launcher,
        BackendType::Archiver => pm.pgarch,
        BackendType::SlotsyncWorker => pm.slotsync_worker,
        BackendType::WalReceiver => pm.walreceiver,
        BackendType::WalSummarizer => pm.walsummarizer,
        BackendType::Logger => pm.syslogger,
        _ => None,
    }
}

/// `pm` after an attempt to start a child of this kind. A request that a
/// started autovacuum launcher or WAL receiver answers is forgotten.
pub open spec fn with_started(pm: PostmasterState, kind: BackendType, child: Option<PmChild>) -> PostmasterState {
    match kind {
        BackendType::Checkpointer => PostmasterState { checkpointer: child, ..pm },
        BackendType::BgWriter => PostmasterState { bgwriter: child, ..pm },
        BackendType::Startup => PostmasterState { startup: child, ..pm },
        BackendType::WalWriter => PostmasterState { walwriter: child, ..pm },
        BackendType::AutovacLauncher => PostmasterState {
            autovac_launcher: child,
            start_autovac_launcher: pm.start_autovac_launcher && child is None,
            ..pm
        },
        BackendType::Archiver => PostmasterState { pgarch: child, ..pm },
        BackendType::SlotsyncWorker => PostmasterState { slotsync_worker: child, ..pm },
        BackendType::WalReceiver => PostmasterState {
            walreceiver: child,
            wal_receiver_requested: pm.wal_receiver_requested && child is None,
            ..pm
        },
        BackendType::WalSummarizer => PostmasterState { walsummarizer: child, ..pm },
        BackendType::Logger => PostmasterState { syslogger: child, ..pm },
        _ => pm,
    }
}

/// Records the outcome of an attempt to start a child.
pub fn child_started(pm: &mut PostmasterState, kind: BackendType, child: Option<PmChild>)
    ensures
        *final(pm) == with_started(*old(pm), kind, child),
{
    match kind {
        BackendType::Checkpointer => {
            pm.checkpointer = child;
        },
        BackendType::BgWriter => {
            pm.bgwriter = child;
        },
        BackendType::Startup => {
            pm.startup = child;
        },
        BackendType::WalWriter => {
            pm.walwriter = child;
        },
        BackendType::AutovacLauncher => {
            pm.autovac_launcher = child;
            pm.start_autovac_launcher = pm.start_autovac_launcher && child.is_none();
        },
        BackendType::Archiver => {
            pm.pgarch = child;
        },
        BackendType::SlotsyncWorker => {
            pm.slotsync_worker = child;
        },
        BackendType::WalReceiver => {
            pm.walreceiver = child;
            pm.wal_receiver_requested = pm.wal_receiver_requested && child.is_none();
        },
        BackendType::WalSummarizer => {
            pm.walsummarizer = child;
        },
        BackendType::Logger => {
            pm.syslogger = child;
        },
        _ => {},
    }
}

/// No child is started that is there already, and none in a phase in which
/// children are asked to stop.
pub proof fn law_starts_only_what_is_missing(pm: PostmasterState, cfg: LaunchConfig, stage: LaunchStage, kind: BackendType)
    requires
        launch_step(pm, cfg, stage).0 == LaunchAction::StartChild(kind),
    ensures
        named_child(pm, kind) is None,
        pm.pm_state.before_stop(),
{
}

/// After a successful start the same step asks for nothing.
pub proof fn law_started_child_is_not_started_again(
    pm: PostmasterState,
    cfg: LaunchConfig,
    stage: LaunchStage,
    kind: BackendType,
    child: PmChild,
)
    requires
        launch_step(pm, cfg, stage).0 == LaunchAction::StartChild(kind),
    ensures
        launch_step(with_started(pm, kind, Some(child)), cfg, stage).0 != LaunchAction::StartChild(kind),
{
}

} // verus!
