//! What holds of reaping a child, whatever the child is.
use vstd::prelude::*;
use crate::backend_type::BackendType;
use crate::pm_state::{PMState, PmChild, PostmasterState, StartupStatusEnum};
use crate::postmaster;
use crate::postmaster::{LogLevel, PmAction, PmLog, PmStatus, ProcName};
use crate::reaper;
use crate::reaper::{NamedChild, ReapedChild};

verus! {

/// Whether a wait status is that of a child that ended by itself, with this
/// exit code.
pub open spec fn exits_with(exitstatus: i32, code: i32) -> bool {
    exitstatus & 0x7f == 0 && (exitstatus >> 8) & 0xff == code
}

/// Exit code 0 or 1.
pub open spec fn exits_0_or_1(exitstatus: i32) -> bool {
    exits_with(exitstatus, 0) || exits_with(exitstatus, 1)
}

/// The child that is held under a name.
pub open spec fn held(pm: PostmasterState, who: NamedChild) -> Option<PmChild> {
    match who {
        NamedChild::Startup => pm.startup,
        NamedChild::BgWriter => pm.bgwriter,
        NamedChild::Checkpointer => pm.checkpointer,
        NamedChild::WalWriter => pm.walwriter,
        NamedChild::AutovacLauncher => pm.autovac_launcher,
        NamedChild::WalSummarizer => pm.walsummarizer,
        NamedChild::WalReceiver => pm.walreceiver,
        NamedChild::Archiver => pm.pgarch,
        NamedChild::SlotSync => pm.slotsync_worker,
        NamedChild::SysLogger => pm.syslogger,
    }
}

/// Whether the child with this pid is held under this name and no other.
pub open spec fn held_as(pm: PostmasterState, pid: i32, who: NamedChild) -> bool {
    forall|v: NamedChild| (#[trigger] held(pm, v) matches Some(ch) && ch.pid == pid) <==> v == who
}

/// Whether the child with this pid is held under no name.
pub open spec fn held_by_none(pm: PostmasterState, pid: i32) -> bool {
    forall|v: NamedChild| (#[trigger] held(pm, v) matches Some(ch) ==> ch.pid != pid)
}

/// Whether a crash would be dealt with now: none is, and no immediate shutdown
/// is under way.
pub open spec fn crash_counts(pm: PostmasterState) -> bool {
    !pm.fatal_error && pm.shutdown != 3
}

/// What asks for the end of the other children and for recovery.
pub open spec fn fatal() -> PmAction {
    PmAction::HandleFatalError { consider_sigabrt: true }
}

proof fn lemma_contains()
    ensures
        forall|s: Seq<PmAction>, t: Seq<PmAction>, a: PmAction|
            #[trigger] (s + t).contains(a) <==> s.contains(a) || t.contains(a),
        forall|c: bool, x: PmAction, a: PmAction|
            #[trigger] postmaster::when(c, x).contains(a) <==> c && a == x,
        forall|a: PmAction| !(#[trigger] Seq::<PmAction>::empty().contains(a)),
{
    assert forall|s: Seq<PmAction>, t: Seq<PmAction>, a: PmAction| #[trigger]
        (s + t).contains(a) <==> s.contains(a) || t.contains(a) by {
        if s.contains(a) {
            let k = choose|k: int| 0 <= k < s.len() && s[k] == a;
            assert((s + t)[k] == a);
        }
        if t.contains(a) {
            let k = choose|k: int| 0 <= k < t.len() && t[k] == a;
            assert((s + t)[s.len() + k] == a);
        }
    }
    assert forall|c: bool, x: PmAction, a: PmAction| #[trigger]
        postmaster::when(c, x).contains(a) <==> c && a == x by {
        if c {
            assert(postmaster::when(c, x)[0] == x);
        }
    }
}

proof fn lemma_owner(pm: PostmasterState, pid: i32)
    ensures
        held_by_none(pm, pid) ==> reaper::named_owner(pm, pid) is None,
        forall|who: NamedChild| #[trigger]
            held_as(pm, pid, who) ==> reaper::named_owner(pm, pid) == Some(who),
{
    assert forall|who: NamedChild| #[trigger] held_as(pm, pid, who) implies reaper::named_owner(
        pm,
        pid,
    ) == Some(who) by {
        lemma_held_fields(pm);
        assert(held(pm, who) is Some);
    }
    lemma_held_fields(pm);
}

/// Names every place where a child is held by name.
proof fn lemma_held_fields(pm: PostmasterState)
    ensures
        held(pm, NamedChild::Startup) == pm.startup,
        held(pm, NamedChild::BgWriter) == pm.bgwriter,
        held(pm, NamedChild::Checkpointer) == pm.checkpointer,
        held(pm, NamedChild::WalWriter) == pm.walwriter,
        held(pm, NamedChild::AutovacLauncher) == pm.autovac_launcher,
        held(pm, NamedChild::WalSummarizer) == pm.walsummarizer,
        held(pm, NamedChild::WalReceiver) == pm.walreceiver,
        held(pm, NamedChild::Archiver) == pm.pgarch,
        held(pm, NamedChild::SlotSync) == pm.slotsync_worker,
        held(pm, NamedChild::SysLogger) == pm.syslogger,
{
}

/// A tracked child that is not held by name crashes exactly where it ends with
/// neither exit code 0 nor exit code 1. A crash ends the other children and
/// leads to recovery, unless an earlier one or an immediate shutdown already
/// does.
pub proof fn law_crash_of_a_child_is_fatal(
    pm: PostmasterState,
    c: ReapedChild,
    logging_collector: bool,
    mask: u32,
    now: i64,
    pm1: PostmasterState,
    actions: Seq<PmAction>,
)
    requires
        reaper::reaped(pm, c, logging_collector, mask, now, pm1, actions),
        held_by_none(pm, c.pid),
        c.found is Some,
    ensures
        actions.contains(fatal()) <==> crash_counts(pm) && !exits_0_or_1(c.exitstatus),
        actions.contains(PmAction::Log(LogLevel::Log, PmLog::TerminatingOthers)) <==> crash_counts(
            pm,
        ) && !exits_0_or_1(c.exitstatus),
{
    lemma_contains();
    lemma_owner(pm, c.pid);
}

/// Whether the end of a child held by name, other than the recovery child, is
/// as it should be. The checkpointer is only expected to end last.
pub open spec fn expected_end(who: NamedChild, exitstatus: i32, state: PMState) -> bool {
    match who {
        NamedChild::WalReceiver | NamedChild::Archiver | NamedChild::SlotSync => exits_0_or_1(
            exitstatus,
        ),
        NamedChild::Checkpointer => exits_with(exitstatus, 0) && state
            == PMState::PM_WAIT_CHECKPOINTER,
        NamedChild::SysLogger => true,
        _ => exits_with(exitstatus, 0),
    }
}

/// The end of a child held by name, other than the recovery child, is a crash
/// exactly where it is not as it should be; the logger never crashes the
/// server.
#[verifier::rlimit(80)]
pub proof fn law_crash_of_a_named_child_is_fatal(
    pm: PostmasterState,
    c: ReapedChild,
    who: NamedChild,
    logging_collector: bool,
    mask: u32,
    now: i64,
    pm1: PostmasterState,
    actions: Seq<PmAction>,
)
    requires
        reaper::reaped(pm, c, logging_collector, mask, now, pm1, actions),
        held_as(pm, c.pid, who),
        who != NamedChild::Startup,
    ensures
        actions.contains(fatal()) <==> crash_counts(pm) && !expected_end(
            who,
            c.exitstatus,
            pm.pm_state,
        ),
{
    lemma_contains();
    lemma_owner(pm, c.pid);
}

/// The recovery child crashes the server where it fails after the server has
/// begun to serve, or after it was told to stop. Where it fails before that,
/// the server gives up.
#[verifier::rlimit(80)]
pub proof fn law_failed_recovery(
    pm: PostmasterState,
    c: ReapedChild,
    logging_collector: bool,
    mask: u32,
    now: i64,
    pm1: PostmasterState,
    actions: Seq<PmAction>,
)
    requires
        reaper::reaped(pm, c, logging_collector, mask, now, pm1, actions),
        held_as(pm, c.pid, NamedChild::Startup),
        !exits_with(c.exitstatus, 0),
        !exits_with(c.exitstatus, 3),
        !(pm.shutdown > 0 && exits_with(c.exitstatus, 1)),
    ensures
        ({
            let early = pm.pm_state == PMState::PM_STARTUP && pm.startup_status
                != StartupStatusEnum::Signaled;
            &&& actions.contains(PmAction::ExitPostmaster(1)) <==> early
            &&& actions.contains(fatal()) <==> !early && crash_counts(pm)
            &&& !early ==> pm1.startup_status == if pm.startup_status
                == StartupStatusEnum::Signaled {
                StartupStatusEnum::NotRunning
            } else {
                StartupStatusEnum::Crashed
            }
            &&& !early ==> pm1.pm_state == if pm.pm_state == PMState::PM_STARTUP {
                PMState::PM_WAIT_BACKENDS
            } else {
                pm.pm_state
            }
            &&& pm1.shutdown == pm.shutdown && pm1.conns_allowed == pm.conns_allowed
                && pm1.fatal_error == pm.fatal_error
        }),
{
    lemma_contains();
    lemma_owner(pm, c.pid);
}

/// Recovery that stops at its target with exit code 3 shuts the server down:
/// at least smartly, with every child told to end, and with nothing else
/// taken for a crash.
pub proof fn law_recovery_target_shuts_down(
    pm: PostmasterState,
    c: ReapedChild,
    logging_collector: bool,
    mask: u32,
    now: i64,
    pm1: PostmasterState,
    actions: Seq<PmAction>,
)
    requires
        reaper::reaped(pm, c, logging_collector, mask, now, pm1, actions),
        held_as(pm, c.pid, NamedChild::Startup),
        exits_with(c.exitstatus, 3),
    ensures
        pm1.shutdown >= 1,
        pm1.shutdown == pm.shutdown || pm1.shutdown == 1,
        pm1.pm_state == PMState::PM_WAIT_BACKENDS,
        pm1.startup_status == StartupStatusEnum::NotRunning,
        pm1.startup is None,
        forall|a: PmAction| #[trigger]
            actions.contains(a) <==> a == PmAction::ReleaseChildSlot(pm.startup->0.child_slot) || a
                == PmAction::Log(LogLevel::Log, PmLog::ShutdownAtRecoveryTarget) || a
                == PmAction::TerminateChildren(15),
{
    lemma_contains();
    lemma_owner(pm, c.pid);
    lemma_codes_differ(c.exitstatus);
}

proof fn lemma_codes_differ(exitstatus: i32)
    ensures
        exits_with(exitstatus, 3) ==> !exits_0_or_1(exitstatus),
        exits_with(exitstatus, 0) ==> !exits_with(exitstatus, 1),
{
}

/// During a shutdown, recovery that ends with exit code 0 or 1 leaves only the
/// backends to wait for.
pub proof fn law_recovery_ends_for_a_shutdown(
    pm: PostmasterState,
    c: ReapedChild,
    logging_collector: bool,
    mask: u32,
    now: i64,
    pm1: PostmasterState,
    actions: Seq<PmAction>,
)
    requires
        reaper::reaped(pm, c, logging_collector, mask, now, pm1, actions),
        held_as(pm, c.pid, NamedChild::Startup),
        pm.shutdown > 0,
        exits_0_or_1(c.exitstatus),
    ensures
        pm1.pm_state == PMState::PM_WAIT_BACKENDS,
        pm1.startup_status == StartupStatusEnum::NotRunning,
        pm1.shutdown == pm.shutdown,
        pm1.conns_allowed == pm.conns_allowed,
        actions =~= seq![PmAction::ReleaseChildSlot(pm.startup->0.child_slot)],
{
    lemma_owner(pm, c.pid);
}

/// Recovery that ends with exit code 0, outside of a shutdown, opens the
/// server to connections and shows it in the lock file.
pub proof fn law_recovery_opens_the_server(
    pm: PostmasterState,
    c: ReapedChild,
    logging_collector: bool,
    mask: u32,
    now: i64,
    pm1: PostmasterState,
    actions: Seq<PmAction>,
)
    requires
        reaper::reaped(pm, c, logging_collector, mask, now, pm1, actions),
        held_as(pm, c.pid, NamedChild::Startup),
        pm.shutdown <= 0,
        exits_with(c.exitstatus, 0),
    ensures
        pm1.pm_state == PMState::PM_RUN,
        pm1.conns_allowed,
        pm1.start_worker_needed,
        !pm1.fatal_error,
        !pm1.stall_escalated,
        pm1.abort_start_time == 0,
        pm1.lethal_time == 0,
        pm1.startup_status == StartupStatusEnum::NotRunning,
        pm1.shutdown == pm.shutdown,
        forall|a: PmAction| #[trigger]
            actions.contains(a) <==> a == PmAction::ReleaseChildSlot(pm.startup->0.child_slot) || a
                == PmAction::Log(LogLevel::Log, PmLog::ReadyForConnections) || a
                == (PmAction::AddToDataDirLockFile { line: 8, status: PmStatus::Ready }),
{
    lemma_contains();
    lemma_owner(pm, c.pid);
}

/// The checkpointer that ends well, as the last one waited for, leaves only
/// the dead ends: the server stops listening and tells all kinds in the mask
/// to end.
pub proof fn law_checkpointer_ends_last(
    pm: PostmasterState,
    c: ReapedChild,
    logging_collector: bool,
    mask: u32,
    now: i64,
    pm1: PostmasterState,
    actions: Seq<PmAction>,
)
    requires
        reaper::reaped(pm, c, logging_collector, mask, now, pm1, actions),
        held_as(pm, c.pid, NamedChild::Checkpointer),
    ensures
        ({
            let ends = exits_with(c.exitstatus, 0) && pm.pm_state
                == PMState::PM_WAIT_CHECKPOINTER;
            &&& pm1.pm_state == if ends {
                PMState::PM_WAIT_DEAD_END
            } else {
                pm.pm_state
            }
            &&& ends ==> actions =~= seq![
                PmAction::ReleaseChildSlot(pm.checkpointer->0.child_slot),
                PmAction::ConfigureWaitSet(false),
                PmAction::SignalChildren { sig: 15, mask },
            ]
        }),
{
    lemma_owner(pm, c.pid);
}

/// A logger that ends is replaced where logs are collected, whatever its exit
/// code; only a bad exit code is told.
pub proof fn law_logger_is_replaced(
    pm: PostmasterState,
    c: ReapedChild,
    logging_collector: bool,
    mask: u32,
    now: i64,
    pm1: PostmasterState,
    actions: Seq<PmAction>,
)
    requires
        reaper::reaped(pm, c, logging_collector, mask, now, pm1, actions),
        held_as(pm, c.pid, NamedChild::SysLogger),
    ensures
        forall|a: PmAction| #[trigger]
            actions.contains(a) <==> a == PmAction::ReleaseChildSlot(pm.syslogger->0.child_slot) || (
            a == PmAction::StartSysLogger && logging_collector) || (a == PmAction::Log(
                LogLevel::Log,
                PmLog::ChildExit {
                    name: ProcName::SystemLogger,
                    pid: c.pid,
                    exitstatus: c.exitstatus,
                },
            ) && !exits_with(c.exitstatus, 0)),
{
    lemma_contains();
    lemma_owner(pm, c.pid);
    lemma_held_fields(pm);
}

/// What a log line calls a child that is held by name.
pub open spec fn log_name(who: NamedChild) -> ProcName {
    match who {
        NamedChild::Startup => ProcName::StartupProcess,
        NamedChild::BgWriter => ProcName::BackgroundWriter,
        NamedChild::Checkpointer => ProcName::Checkpointer,
        NamedChild::WalWriter => ProcName::WalWriter,
        NamedChild::AutovacLauncher => ProcName::AutovacuumLauncher,
        NamedChild::WalSummarizer => ProcName::WalSummarizer,
        NamedChild::WalReceiver => ProcName::WalReceiver,
        NamedChild::Archiver => ProcName::Archiver,
        NamedChild::SlotSync => ProcName::SlotSyncWorker,
        NamedChild::SysLogger => ProcName::SystemLogger,
    }
}

/// The crash of a child held by name is told of that child, with its pid and
/// its wait status, right before the others are ended.
#[verifier::rlimit(80)]
pub proof fn law_crash_is_told(
    pm: PostmasterState,
    c: ReapedChild,
    who: NamedChild,
    logging_collector: bool,
    mask: u32,
    now: i64,
    pm1: PostmasterState,
    actions: Seq<PmAction>,
)
    requires
        reaper::reaped(pm, c, logging_collector, mask, now, pm1, actions),
        held_as(pm, c.pid, who),
        actions.contains(fatal()),
    ensures
        actions =~= seq![
            PmAction::ReleaseChildSlot(held(pm, who)->0.child_slot),
            PmAction::Log(
                LogLevel::Log,
                PmLog::ChildExit {
                    name: log_name(who),
                    pid: c.pid,
                    exitstatus: c.exitstatus,
                },
            ),
            PmAction::Log(LogLevel::Log, PmLog::TerminatingOthers),
            fatal(),
        ],
{
    lemma_contains();
    lemma_owner(pm, c.pid);
    lemma_held_fields(pm);
}

proof fn lemma_only_one_forgotten(
    pm: PostmasterState,
    who: NamedChild,
    exitstatus: i32,
    logging_collector: bool,
    mask: u32,
    now: i64,
    v: NamedChild,
)
    ensures
        ({
            let pm1 = reaper::reap_named(pm, who, exitstatus, logging_collector, mask, now).pm;
            &&& held(pm1, v) == if v == who {
                None
            } else {
                held(pm, v)
            }
            &&& pm1.io_worker_children == pm.io_worker_children
            &&& pm1.io_worker_count == pm.io_worker_count
            &&& who != NamedChild::Startup && who != NamedChild::Checkpointer ==> pm1.pm_state
                == pm.pm_state && pm1.shutdown == pm.shutdown && pm1.conns_allowed
                == pm.conns_allowed && pm1.startup_status == pm.startup_status && pm1.fatal_error
                == pm.fatal_error
        }),
{
    match who {
        NamedChild::Startup => {},
        NamedChild::Checkpointer => {},
        NamedChild::SysLogger => {},
        _ => {},
    }
}

/// Reaping a child that is held by name forgets that child and no other, and
/// leaves the I/O workers as they are.
#[verifier::rlimit(80)]
pub proof fn law_only_the_reaped_child_is_forgotten(
    pm: PostmasterState,
    c: ReapedChild,
    who: NamedChild,
    logging_collector: bool,
    mask: u32,
    now: i64,
    pm1: PostmasterState,
    actions: Seq<PmAction>,
    v: NamedChild,
)
    requires
        reaper::reaped(pm, c, logging_collector, mask, now, pm1, actions),
        held_as(pm, c.pid, who),
    ensures
        held(pm1, v) == if v == who {
            None
        } else {
            held(pm, v)
        },
        pm1.io_worker_children == pm.io_worker_children,
        pm1.io_worker_count == pm.io_worker_count,
        who != NamedChild::Startup && who != NamedChild::Checkpointer ==> pm1.pm_state
            == pm.pm_state && pm1.shutdown == pm.shutdown && pm1.conns_allowed == pm.conns_allowed
            && pm1.startup_status == pm.startup_status && pm1.fatal_error == pm.fatal_error,
{
    lemma_owner(pm, c.pid);
    lemma_only_one_forgotten(pm, who, c.exitstatus, logging_collector, mask, now, v);
}

/// Reaping a child that is not held by name leaves the children held by name,
/// the phase and the shutdown as they are.
pub proof fn law_reaping_keeps_the_rest(
    pm: PostmasterState,
    c: ReapedChild,
    logging_collector: bool,
    mask: u32,
    now: i64,
    pm1: PostmasterState,
    actions: Seq<PmAction>,
    v: NamedChild,
)
    requires
        reaper::reaped(pm, c, logging_collector, mask, now, pm1, actions),
        held_by_none(pm, c.pid),
    ensures
        held(pm1, v) == held(pm, v),
        pm1.pm_state == pm.pm_state,
        pm1.shutdown == pm.shutdown,
        pm1.conns_allowed == pm.conns_allowed,
        pm1.fatal_error == pm.fatal_error,
        pm1.startup_status == pm.startup_status,
        pm1.start_worker_needed == pm.start_worker_needed,
{
    lemma_owner(pm, c.pid);
}

proof fn lemma_backend_actions(
    pm: PostmasterState,
    slot: i32,
    kind: BackendType,
    pid: i32,
    exitstatus: i32,
)
    ensures
        ({
            let actions = reaper::backend_actions(pm, slot, kind, pid, exitstatus);
            let release = PmAction::ReleaseChildSlot(slot);
            let noted = PmAction::Log(
                LogLevel::Debug2,
                PmLog::ChildExit { name: ProcName::Kind(kind), pid, exitstatus },
            );
            let told = PmAction::Log(
                LogLevel::Log,
                PmLog::ChildExit { name: ProcName::ServerProcess, pid, exitstatus },
            );
            let others = PmAction::Log(LogLevel::Log, PmLog::TerminatingOthers);
            actions == if exits_0_or_1(exitstatus) {
                seq![release, PmAction::StopNotifications(pid), noted]
            } else if crash_counts(pm) {
                seq![release, told, others, fatal()]
            } else {
                seq![release]
            }
        }),
{
    let actions = reaper::backend_actions(pm, slot, kind, pid, exitstatus);
    if exits_0_or_1(exitstatus) {
        assert(actions.len() == 3);
    } else if crash_counts(pm) {
        assert(actions.len() == 4);
    } else {
        assert(actions.len() == 1);
    }
}

/// A client backend, an autovacuum worker, a WAL sender or a dead end that ends
/// well frees its slot and is no longer told of other children; its end is
/// noted quietly. One that crashes only frees its slot before the crash is
/// dealt with.
#[verifier::rlimit(80)]
pub proof fn law_end_of_a_backend(
    pm: PostmasterState,
    c: ReapedChild,
    logging_collector: bool,
    mask: u32,
    now: i64,
    pm1: PostmasterState,
    actions: Seq<PmAction>,
    slot: i32,
    kind: BackendType,
)
    requires
        reaper::reaped(pm, c, logging_collector, mask, now, pm1, actions),
        held_by_none(pm, c.pid),
        c.found == Some((slot, kind)),
        kind == BackendType::Backend || kind == BackendType::DeadEndBackend || kind
            == BackendType::AutovacWorker || kind == BackendType::WalSender,
    ensures
        exits_0_or_1(c.exitstatus) ==> actions =~= seq![
            PmAction::ReleaseChildSlot(slot),
            PmAction::StopNotifications(c.pid),
            PmAction::Log(
                LogLevel::Debug2,
                PmLog::ChildExit {
                    name: ProcName::Kind(kind),
                    pid: c.pid,
                    exitstatus: c.exitstatus,
                },
            ),
        ],
        !exits_0_or_1(c.exitstatus) && crash_counts(pm) ==> actions =~= seq![
            PmAction::ReleaseChildSlot(slot),
            PmAction::Log(
                LogLevel::Log,
                PmLog::ChildExit {
                    name: ProcName::ServerProcess,
                    pid: c.pid,
                    exitstatus: c.exitstatus,
                },
            ),
            PmAction::Log(LogLevel::Log, PmLog::TerminatingOthers),
            fatal(),
        ],
        !exits_0_or_1(c.exitstatus) && !crash_counts(pm) ==> actions =~= seq![
            PmAction::ReleaseChildSlot(slot),
        ],
        pm1.have_crashed_worker == pm.have_crashed_worker,
{
    lemma_owner(pm, c.pid);
    lemma_backend_actions(pm, slot, kind, c.pid, c.exitstatus);
}

/// A registered background worker that ends without a crash loses its pid, its
/// end is reported, and the supervisor looks at the workers again. Exit code 0
/// keeps it from being started again; exit code 1 makes the present the time
/// from which its restart is reckoned.
#[verifier::rlimit(80)]
pub proof fn law_end_of_a_worker(
    pm: PostmasterState,
    c: ReapedChild,
    logging_collector: bool,
    mask: u32,
    now: i64,
    pm1: PostmasterState,
    actions: Seq<PmAction>,
    slot: i32,
    i: i32,
)
    requires
        reaper::reaped(pm, c, logging_collector, mask, now, pm1, actions),
        held_by_none(pm, c.pid),
        c.found == Some((slot, BackendType::BgWorker)),
    ensures
        ({
            let well = exits_0_or_1(c.exitstatus);
            let mine = well && c.worker == Some(i);
            &&& actions.contains(PmAction::StopNotifications(c.pid)) <==> well
            &&& actions.contains(PmAction::WorkerClearPid(i)) <==> mine
            &&& actions.contains(PmAction::ReportWorkerExit(i)) <==> mine
            &&& actions.contains(PmAction::WorkerTerminate(i)) <==> mine && exits_with(
                c.exitstatus,
                0,
            )
            &&& actions.contains(PmAction::WorkerNotCrashed(i)) <==> mine && exits_with(
                c.exitstatus,
                0,
            )
            &&& actions.contains(PmAction::WorkerCrashedNow(i)) <==> mine && exits_with(
                c.exitstatus,
                1,
            )
            &&& pm1.have_crashed_worker <==> pm.have_crashed_worker || (well && c.worker is Some)
        }),
{
    lemma_contains();
    lemma_owner(pm, c.pid);
    lemma_codes_differ(c.exitstatus);
}

/// What is told of a background worker's end: of one that is registered, by
/// its registration; quietly where it ended with exit code 0.
pub proof fn law_end_of_a_worker_is_told(
    pm: PostmasterState,
    c: ReapedChild,
    logging_collector: bool,
    mask: u32,
    now: i64,
    pm1: PostmasterState,
    actions: Seq<PmAction>,
    slot: i32,
    level: LogLevel,
    what: PmLog,
)
    requires
        reaper::reaped(pm, c, logging_collector, mask, now, pm1, actions),
        held_by_none(pm, c.pid),
        c.found == Some((slot, BackendType::BgWorker)),
    ensures
        ({
            let well = exits_0_or_1(c.exitstatus);
            let end = PmLog::ChildExit {
                name: ProcName::BackgroundWorker(c.worker),
                pid: c.pid,
                exitstatus: c.exitstatus,
            };
            let quiet = exits_with(c.exitstatus, 0);
            actions.contains(PmAction::Log(level, what)) <==> {
                ||| !well && crash_counts(pm) && level == LogLevel::Log && (what == end || what
                    == PmLog::TerminatingOthers)
                ||| well && c.worker is Some && what == end && level == if quiet {
                    LogLevel::Debug1
                } else {
                    LogLevel::Log
                }
            }
        }),
{
    lemma_contains();
    lemma_owner(pm, c.pid);
}

/// An I/O worker that ends frees its slot, counts no more, and the pool is
/// levelled again, last and in any case.
pub proof fn law_end_of_an_io_worker(
    pm: PostmasterState,
    c: ReapedChild,
    logging_collector: bool,
    mask: u32,
    now: i64,
    pm1: PostmasterState,
    actions: Seq<PmAction>,
    slot: i32,
    i: int,
)
    requires
        reaper::reaped(pm, c, logging_collector, mask, now, pm1, actions),
        held_by_none(pm, c.pid),
        c.found == Some((slot, BackendType::IoWorker)),
        0 <= i < pm.io_worker_children@.len(),
        pm.io_worker_children@[i] matches Some(ch) && ch.pid == c.pid,
        forall|j: int|
            0 <= j < pm.io_worker_children@.len() && j != i ==> (
            #[trigger] pm.io_worker_children@[j] matches Some(ch) ==> ch.pid != c.pid),
    ensures
        pm1.io_worker_children@ =~= pm.io_worker_children@.update(i, None),
        pm1.io_worker_count == pm.io_worker_count - 1,
        actions.last() == PmAction::AdjustIoWorkers,
        actions.contains(PmAction::ReleaseChildSlot(slot)),
        actions.contains(
            PmAction::Log(
                LogLevel::Debug2,
                PmLog::ChildExit {
                    name: ProcName::IoWorker,
                    pid: c.pid,
                    exitstatus: c.exitstatus,
                },
            ),
        ) <==> exits_0_or_1(c.exitstatus),
        actions.contains(
            PmAction::Log(
                LogLevel::Log,
                PmLog::ChildExit {
                    name: ProcName::IoWorker,
                    pid: c.pid,
                    exitstatus: c.exitstatus,
                },
            ),
        ) <==> crash_counts(pm) && !exits_0_or_1(c.exitstatus),
{
    lemma_contains();
    lemma_owner(pm, c.pid);
    let s = pm.io_worker_children@;
    assert(reaper::is_pid(s[i], c.pid));
    assert forall|j: int| 0 <= j < i implies !reaper::is_pid(#[trigger] s[j], c.pid) by {}
    reaper::lemma_first_with_pid(s, c.pid, i);
}

/// The end of a child that nobody tracks is told, and nothing else is done.
pub proof fn law_end_of_an_untracked_child(
    pm: PostmasterState,
    c: ReapedChild,
    logging_collector: bool,
    mask: u32,
    now: i64,
    pm1: PostmasterState,
    actions: Seq<PmAction>,
)
    requires
        reaper::reaped(pm, c, logging_collector, mask, now, pm1, actions),
        held_by_none(pm, c.pid),
        c.found is None,
    ensures
        actions =~= seq![
            PmAction::Log(
                LogLevel::Log,
                PmLog::ChildExit {
                    name: ProcName::UntrackedChild,
                    pid: c.pid,
                    exitstatus: c.exitstatus,
                },
            ),
        ],
        pm1 == pm,
{
    lemma_owner(pm, c.pid);
}

/// A child's thread is waited for before anything else is done about the
/// child, and for no other thread.
pub proof fn law_thread_is_joined_first(c: ReapedChild)
    ensures
        c.join matches Some(h) ==> reaper::joins(c) =~= seq![PmAction::JoinChild(h)],
        c.join is None ==> reaper::joins(c).len() == 0,
{
}

/// An I/O worker that sits in no slot leaves the slots as they are; it counts
/// no more, and its slot in the table of children is freed.
pub proof fn law_io_worker_without_a_slot(
    pm: PostmasterState,
    c: ReapedChild,
    logging_collector: bool,
    mask: u32,
    now: i64,
    pm1: PostmasterState,
    actions: Seq<PmAction>,
    slot: i32,
)
    requires
        reaper::reaped(pm, c, logging_collector, mask, now, pm1, actions),
        held_by_none(pm, c.pid),
        c.found == Some((slot, BackendType::IoWorker)),
        pm.io_worker_children@.len() > 0,
        forall|j: int|
            0 <= j < pm.io_worker_children@.len() ==> (#[trigger] pm.io_worker_children@[j] matches Some(
                ch,
            ) ==> ch.pid != c.pid),
    ensures
        pm1.io_worker_children@ =~= pm.io_worker_children@,
        pm1.io_worker_count == pm.io_worker_count - 1,
        actions.contains(PmAction::ReleaseChildSlot(slot)),
{
    lemma_contains();
    lemma_owner(pm, c.pid);
    let s = pm.io_worker_children@;
    assert forall|j: int| 0 <= j < s.len() implies !reaper::is_pid(#[trigger] s[j], c.pid) by {}
}

} // verus!
