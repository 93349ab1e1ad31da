//! What holds of the supervisor's laps and of the start of a backend.
use vstd::prelude::*;
use crate::backend_type::BackendType;
use crate::launch_missing;
use crate::pm_state::{PMState, PendingFlags, PostmasterState};
use crate::server_lap;
use crate::server_lap::{LoopAction, LoopStage, LoopState, StartupStage, StartupStep, WaitedEvent};
use crate::serverloop;
use crate::serverloop::CacState;
use crate::supervisor_laws;

verus! {

/// Before its first lap the supervisor starts its pool, its watchdog and its
/// gangs and begins to listen; both timers of the files start then.
pub proof fn law_before_the_first_lap(
    pm: PostmasterState,
    p: PendingFlags,
    st: LoopState,
    events: Seq<WaitedEvent>,
    clock: i64,
    bound: i64,
    abort: bool,
)
    requires
        st.stage is Boot,
    ensures
        ({
            let out = server_lap::loop_step(pm, p, st, events, clock, bound, abort);
            &&& out.actions =~= seq![
                LoopAction::StartRuntimePool,
                LoopAction::StartMemoryWatchdog,
                LoopAction::InstallGang,
                LoopAction::InstallWedgeInjection,
                LoopAction::ConfigureWaitSet(true),
            ]
            &&& out.st.stage is Wait
            &&& out.st.last_lockfile_recheck_time == clock
            &&& out.st.last_touch_time == clock
            &&& out.pm == pm && out.p == p
        }),
{
}

/// Every event of a wait is served in turn: the latch is reset before any
/// request is looked at, and each request that is pending is served, shutdowns
/// first, then reloads, ended children and requests of backends. Only then is a
/// connection accepted.
pub proof fn law_an_event_is_served(
    pm: PostmasterState,
    p: PendingFlags,
    st: LoopState,
    events: Seq<WaitedEvent>,
    clock: i64,
    bound: i64,
    abort: bool,
)
    requires
        st.event < events.len(),
        st.event < usize::MAX,
    ensures
        ({
            let out = server_lap::loop_step(pm, p, st, events, clock, bound, abort);
            let a = out.actions;
            let ev = events[st.event as int];
            &&& st.stage is Latch ==> (a.contains(LoopAction::ResetLatch) <==> ev.latch_set) && a.len()
                <= 1 && out.st.stage is Shutdown
            &&& st.stage is Shutdown ==> (a.contains(LoopAction::ProcessShutdownRequest)
                <==> p.shutdown_request) && a.len() <= 1 && out.st.stage is Reload
            &&& st.stage is Reload ==> (a.contains(LoopAction::ProcessReload) <==> p.reload_request)
                && a.len() <= 1 && out.st.stage is ChildExit
            &&& st.stage is ChildExit ==> (a.contains(LoopAction::ProcessChildExit)
                <==> p.child_exit) && a.len() <= 1 && out.st.stage is Pmsignal
            &&& st.stage is Pmsignal ==> (a.contains(LoopAction::ProcessPmsignal) <==> p.pmsignal)
                && a.len() <= 1 && out.st.stage is Accept
            &&& st.stage is Accept ==> {
                &&& a.contains(LoopAction::AcceptConnection(ev.fd)) <==> ev.accept
                    && !p.shutdown_request && pm.shutdown == 0 && !pm.fatal_error
                &&& a.len() <= 1
                &&& out.st.stage is Latch
                &&& out.st.event == st.event + 1
            }
            &&& st.stage is Latch || st.stage is Shutdown || st.stage is Reload
                || st.stage is ChildExit || st.stage is Pmsignal || st.stage is Accept ==> out.pm
                == pm && out.p == p
            &&& st.stage is Latch || st.stage is Shutdown || st.stage is Reload
                || st.stage is ChildExit || st.stage is Pmsignal ==> out.st.event == st.event
        }),
{
    lemma_act_if();
}

proof fn lemma_act_if()
    ensures
        forall|c: bool, x: LoopAction, a: LoopAction|
            #[trigger] server_lap::act_if(c, x).contains(a) <==> c && a == x,
        forall|c: bool, x: LoopAction| (#[trigger] server_lap::act_if(c, x)).len() <= 1,
{
    assert forall|c: bool, x: LoopAction, a: LoopAction| #[trigger]
        server_lap::act_if(c, x).contains(a) <==> c && a == x by {
        if c {
            assert(server_lap::act_if(c, x)[0] == x);
        }
    }
}

/// After the last event come the children that are missing, then the
/// launcher of autovacuum, where it waits for a word; then the timers, all by
/// the same second. After them the next wait begins.
pub proof fn law_rest_of_a_lap(
    pm: PostmasterState,
    p: PendingFlags,
    st: LoopState,
    events: Seq<WaitedEvent>,
    clock: i64,
    bound: i64,
    abort: bool,
)
    ensures
        ({
            let out = server_lap::loop_step(pm, p, st, events, clock, bound, abort);
            let a = out.actions;
            &&& st.stage is Wait ==> a =~= seq![LoopAction::WaitForEvents] && out.st.event == 0
                && out.st.stage is Latch
            &&& st.stage is Latch && st.event >= events.len() ==> a.len() == 0
                && out.st.stage is Launch
            &&& st.stage is Launch ==> a =~= seq![LoopAction::LaunchMissing]
                && out.st.stage is AvLauncher
            &&& st.stage is AvLauncher ==> {
                &&& !out.pm.avlauncher_needs_signal
                &&& out.st.stage is Stall
                &&& pm.avlauncher_needs_signal && pm.autovac_launcher is Some ==> a =~= seq![
                    LoopAction::SignalAutovacLauncher(pm.autovac_launcher->0),
                ]
                &&& !(pm.avlauncher_needs_signal && pm.autovac_launcher is Some) ==> a.len() == 0
            }
            &&& st.stage is Stall ==> out.st.now == clock && out.st.stage is Kill
            &&& st.stage is Kill ==> out.st.stage is Forced && out.st.now == st.now
            &&& st.stage is Touch ==> out.st.stage is Wait
        }),
{
}

/// Children that were asked to die, in an immediate shutdown or after a crash,
/// are killed five seconds later, with SIGABRT (6) where that is configured and
/// else SIGKILL (9), once.
pub proof fn law_children_are_killed_in_time(
    pm: PostmasterState,
    p: PendingFlags,
    st: LoopState,
    events: Seq<WaitedEvent>,
    clock: i64,
    bound: i64,
    abort: bool,
)
    requires
        st.stage is Kill,
    ensures
        ({
            let out = server_lap::loop_step(pm, p, st, events, clock, bound, abort);
            let due = (pm.shutdown >= 3 || pm.fatal_error) && pm.abort_start_time != 0 && st.now
                >= pm.abort_start_time + 5;
            &&& due ==> out.actions =~= seq![
                LoopAction::IssueKill(
                    if abort {
                        6
                    } else {
                        9
                    },
                ),
            ]
            &&& !due ==> out.actions.len() == 0 && out.pm == pm
            &&& due ==> out.pm.abort_start_time == 0 && out.pm.lethal_time == st.now
            &&& out.p == p
        }),
{
}

/// Eight seconds after a kill the survivors are counted, and the server exits
/// where there are any; where there are none, the timer is off.
pub proof fn law_forced_exit(
    pm: PostmasterState,
    p: PendingFlags,
    st: LoopState,
    events: Seq<WaitedEvent>,
    clock: i64,
    bound: i64,
    abort: bool,
)
    ensures
        st.stage is Forced ==> {
            let out = server_lap::loop_step(pm, p, st, events, clock, bound, abort);
            let due = (pm.shutdown >= 3 || pm.fatal_error) && pm.lethal_time != 0 && st.now
                >= pm.lethal_time + 8;
            &&& due ==> out.actions =~= seq![LoopAction::CountSurvivors]
                && out.st.stage is ForcedCounted
            &&& !due ==> out.actions.len() == 0 && out.st.stage is Lockfile
            &&& out.pm == pm && out.p == p
        },
        st.stage matches LoopStage::ForcedCounted { remaining, gang } ==> {
            let out = server_lap::loop_step(pm, p, st, events, clock, bound, abort);
            let none = remaining == 0 && gang == 0;
            &&& none ==> out.actions.len() == 0 && out.pm.lethal_time == 0
            &&& !none ==> out.actions =~= seq![LoopAction::ForcedExit { remaining, gang }] && out.pm
                == pm
            &&& out.st.stage is Lockfile
        },
{
}

/// A stalled shutdown is told, with its phase and for how long, and made an
/// immediate one; a shutdown that is not stalled is left alone.
pub proof fn law_stalls_are_escalated(
    pm: PostmasterState,
    p: PendingFlags,
    st: LoopState,
    events: Seq<WaitedEvent>,
    clock: i64,
    bound: i64,
    abort: bool,
)
    requires
        st.stage is Stall,
    ensures
        ({
            let out = server_lap::loop_step(pm, p, st, events, clock, bound, abort);
            let due = serverloop::stall_armed(
                pm.shutdown,
                pm.fatal_error,
                pm.stall_escalated,
                pm.pm_state,
                pm.pm_state_since,
                bound,
            ) && clock >= pm.pm_state_since + bound;
            &&& !due ==> out.actions.len() == 0 && out.pm == pm && out.p == p
            &&& due ==> {
                &&& out.actions =~= seq![
                    LoopAction::ReportStall {
                        state: pm.pm_state,
                        stalled: (clock - pm.pm_state_since) as i64,
                    },
                    LoopAction::ProcessShutdownRequest,
                ]
                &&& out.pm.stall_escalated
                &&& out.p.immediate_shutdown_request && out.p.shutdown_request
                &&& out.pm.shutdown == pm.shutdown && out.pm.pm_state == pm.pm_state
            }
        }),
{
}

/// The lock file is looked at once a minute; if it is no longer this server's,
/// that is told and an immediate shutdown is asked for. The files of the
/// sockets are touched every 58 minutes.
pub proof fn law_files_are_looked_after(
    pm: PostmasterState,
    p: PendingFlags,
    st: LoopState,
    events: Seq<WaitedEvent>,
    clock: i64,
    bound: i64,
    abort: bool,
)
    ensures
        st.stage is Lockfile ==> {
            let out = server_lap::loop_step(pm, p, st, events, clock, bound, abort);
            let due = st.now >= st.last_lockfile_recheck_time + 60;
            &&& due ==> out.actions =~= seq![LoopAction::RecheckLockFile]
                && out.st.stage is LockfileChecked
            &&& !due ==> out.actions.len() == 0 && out.st.stage is Touch
        },
        st.stage matches LoopStage::LockfileChecked(ok) ==> {
            let out = server_lap::loop_step(pm, p, st, events, clock, bound, abort);
            &&& ok ==> out.actions.len() == 0 && out.p == p
            &&& !ok ==> out.actions =~= seq![LoopAction::ReportLockFileInvalid]
                && out.p.immediate_shutdown_request && out.p.shutdown_request
            &&& out.st.last_lockfile_recheck_time == st.now
            &&& out.st.stage is Touch
        },
        st.stage is Touch ==> {
            let out = server_lap::loop_step(pm, p, st, events, clock, bound, abort);
            let due = st.now >= st.last_touch_time + 3480;
            &&& due ==> out.actions =~= seq![LoopAction::TouchSocketLockFiles]
                && out.st.last_touch_time == st.now
            &&& !due ==> out.actions.len() == 0 && out.st.last_touch_time == st.last_touch_time
        },
{
}

/// A client that may stay gets a slot and a backend. One that may not, or for
/// whom there is no slot, gets a child that tells it so, and why. The start
/// succeeds exactly where a child was launched.
pub proof fn law_start_of_a_backend(
    pm: PostmasterState,
    slot: Option<i32>,
    cac: CacState,
    kind: BackendType,
    at: i32,
    pid: i32,
)
    ensures
        ({
            let s = server_lap::startup_step(pm, StartupStage::Begin);
            let may = (pm.pm_state == PMState::PM_RUN || pm.pm_state == PMState::PM_HOT_STANDBY)
                && pm.conns_allowed;
            &&& s == StartupStep::AssignSlot <==> may
            &&& !may ==> s == StartupStep::AllocDeadEnd(serverloop::cac(pm, BackendType::Backend))
            &&& server_lap::startup_status(s) is None
        }),
        ({
            let s = server_lap::startup_step(pm, StartupStage::Slot(slot));
            &&& slot matches Some(x) ==> s == (StartupStep::Launch {
                kind: BackendType::Backend,
                slot: x,
                cac: CacState::Okay,
            })
            &&& slot is None ==> s == StartupStep::AllocDeadEnd(CacState::TooMany)
            &&& server_lap::startup_status(s) is None
        }),
        ({
            let s = server_lap::startup_step(pm, StartupStage::DeadEnd { cac, dead_slot: slot });
            &&& slot matches Some(x) ==> s == (StartupStep::Launch {
                kind: BackendType::DeadEndBackend,
                slot: x,
                cac,
            }) && server_lap::startup_status(s) is None
            &&& slot is None ==> s == StartupStep::OutOfMemory && server_lap::startup_status(s)
                == Some(-1i32)
        }),
        ({
            let s = server_lap::startup_step(pm, StartupStage::Launched { kind, slot: at, pid });
            &&& pid >= 0 ==> s == (StartupStep::Started { kind, slot: at, pid })
                && server_lap::startup_status(s) == Some(0i32)
            &&& pid < 0 ==> s == (StartupStep::LaunchFailed { slot: at })
                && server_lap::startup_status(s) == Some(-1i32)
        }),
{
    supervisor_laws::law_who_may_connect(pm, BackendType::Backend);
}

/// The pool of I/O workers is kept level where it is enabled, up to the phase
/// in which these workers are waited for, but in no immediate shutdown, and
/// while a crash is cleaned up only before children are asked to stop.
pub proof fn law_when_io_workers_are_levelled(pm: PostmasterState, enabled: bool)
    ensures
        launch_missing::io_levelled(pm, enabled) <==> enabled && pm.shutdown < 3 && (
        supervisor_laws::is_early(pm.pm_state) || (!pm.fatal_error && (pm.pm_state
            == PMState::PM_STOP_BACKENDS || pm.pm_state == PMState::PM_WAIT_BACKENDS || pm.pm_state
            == PMState::PM_WAIT_XLOG_SHUTDOWN || pm.pm_state
            == PMState::PM_WAIT_XLOG_ARCHIVAL))),
{
}

} // verus!
