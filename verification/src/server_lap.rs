//! The laps of the supervisor's main loop, and the start of a backend for an
//! accepted connection.
use vstd::prelude::*;
use crate::backend_type::BackendType;
use crate::pm_state;
use crate::pm_state::{
    handle_pm_shutdown_request_signal, pmstate_name, PMState, PendingFlags, PmChild, PostmasterState,
};
use crate::pm_state::{
    ImmediateShutdown, FORCED_EXIT_AFTER_LETHAL_SECS, SIGABRT, SIGKILL,
    SIGKILL_CHILDREN_AFTER_SECS, SIGQUIT, WEDGE_MARKER,
};
use crate::serverloop;
use crate::serverloop::{canAcceptConnections, pm_shutdown_pending, shutdown_stall_due, CacState};
use crate::text;

verus! {

/// One event of a wait.
#[derive(Clone, Copy, Debug, PartialEq, Eq, Structural)]
pub struct WaitedEvent {
    pub latch_set: bool,
    pub accept: bool,
    pub fd: i32,
}

/// Something the loop asks the outside to do.
#[derive(Clone, Copy, Debug, PartialEq, Eq, Structural)]
pub enum LoopAction {
    StartRuntimePool,
    StartMemoryWatchdog,
    InstallGang,
    InstallWedgeInjection,
    ConfigureWaitSet(bool),
    WaitForEvents,
    ResetLatch,
    ProcessShutdownRequest,
    ProcessReload,
    ProcessChildExit,
    ProcessPmsignal,
    AcceptConnection(i32),
    LaunchMissing,
    SignalAutovacLauncher(PmChild),
    /// Log the stall; the counts of live children are the outside's.
    ReportStall { state: PMState, stalled: i64 },
    /// Log and send the killing signal to every child.
    IssueKill(i32),
    CountSurvivors,
    /// Log and end the process.
    ForcedExit { remaining: i32, gang: i32 },
    RecheckLockFile,
    ReportLockFileInvalid,
    TouchSocketLockFiles,
}

/// Where in a lap the loop is, with what the outside reported last.
#[derive(Clone, Copy, Debug, PartialEq, Eq, Structural)]
pub enum LoopStage {
    Boot,
    Wait,
    Latch,
    Shutdown,
    Reload,
    ChildExit,
    Pmsignal,
    Accept,
    Launch,
    AvLauncher,
    Stall,
    Kill,
    Forced,
    ForcedCounted { remaining: i32, gang: i32 },
    Lockfile,
    LockfileChecked(bool),
    Touch,
}

/// The loop's own memory.
#[derive(Clone, Copy, Debug, PartialEq, Eq, Structural)]
pub struct LoopState {
    pub stage: LoopStage,
    /// The event of the wait that is being served.
    pub event: usize,
    /// The second this lap's timers go by.
    pub now: i64,
    pub last_lockfile_recheck_time: i64,
    pub last_touch_time: i64,
}

impl LoopState {
    /// The loop before its first lap.
    pub fn new() -> (st: LoopState)
        ensures
            st == (LoopState {
                stage: LoopStage::Boot,
                event: 0,
                now: 0,
                last_lockfile_recheck_time: 0,
                last_touch_time: 0,
            }),
    {
        LoopState {
            stage: LoopStage::Boot,
            event: 0,
            now: 0,
            last_lockfile_recheck_time: 0,
            last_touch_time: 0,
        }
    }

    pub open spec fn at(self, stage: LoopStage) -> LoopState {
        LoopState { stage, ..self }
    }
}

/// Whether the kill timers run: an immediate shutdown or a crash.
pub open spec fn dying(pm: PostmasterState) -> bool {
    pm.shutdown >= ImmediateShutdown || pm.fatal_error
}

/// Whether it is time to kill children that were asked to die.
pub open spec fn kill_due(pm: PostmasterState, now: i64) -> bool {
    dying(pm) && pm.abort_start_time != 0 && now - pm.abort_start_time >= SIGKILL_CHILDREN_AFTER_SECS
}

/// Whether it is time to exit although killed children are still there.
pub open spec fn forced_due(pm: PostmasterState, now: i64) -> bool {
    dying(pm) && pm.lethal_time != 0 && now - pm.lethal_time >= FORCED_EXIT_AFTER_LETHAL_SECS
}

/// Whether a shutdown is stalled.
pub open spec fn stalled(pm: PostmasterState, now: i64, bound: i64) -> bool {
    serverloop::stall_due(
        pm.shutdown,
        pm.fatal_error,
        pm.stall_escalated,
        pm.pm_state,
        pm.pm_state_since,
        now,
        bound,
    )
}

/// What one step of the loop makes of everything.
pub ghost struct LoopOut {
    pub pm: PostmasterState,
    pub p: PendingFlags,
    pub st: LoopState,
    pub actions: Seq<LoopAction>,
}

pub open spec fn act_if(c: bool, a: LoopAction) -> Seq<LoopAction> {
    if c {
        seq![a]
    } else {
        Seq::empty()
    }
}

/// What happens before the first lap.
pub open spec fn boot_actions() -> Seq<LoopAction> {
    seq![
        LoopAction::StartRuntimePool,
        LoopAction::StartMemoryWatchdog,
        LoopAction::InstallGang,
        LoopAction::InstallWedgeInjection,
        LoopAction::ConfigureWaitSet(true),
    ]
}

fn boot() -> (r: Vec<LoopAction>)
    ensures
        r@ == boot_actions(),
{
    vec![
        LoopAction::StartRuntimePool,
        LoopAction::StartMemoryWatchdog,
        LoopAction::InstallGang,
        LoopAction::InstallWedgeInjection,
        LoopAction::ConfigureWaitSet(true),
    ]
}

/// One step of the loop.
pub open spec fn loop_step(
    pm: PostmasterState,
    p: PendingFlags,
    st: LoopState,
    events: Seq<WaitedEvent>,
    clock: i64,
    bound: i64,
    send_abort: bool,
) -> LoopOut {
    match st.stage {
        LoopStage::Boot => LoopOut {
            pm,
            p,
            st: LoopState {
                last_lockfile_recheck_time: clock,
                last_touch_time: clock,
                ..st.at(LoopStage::Wait)
            },
            actions: boot_actions(),
        },
        LoopStage::Wait => LoopOut {
            pm,
            p,
            st: LoopState { event: 0, ..st.at(LoopStage::Latch) },
            actions: act_if(true, LoopAction::WaitForEvents),
        },
        LoopStage::Latch => if st.event < events.len() {
            LoopOut {
                pm,
                p,
                st: st.at(LoopStage::Shutdown),
                actions: act_if(events[st.event as int].latch_set, LoopAction::ResetLatch),
            }
        } else {
            LoopOut { pm, p, st: st.at(LoopStage::Launch), actions: Seq::empty() }
        },
        LoopStage::Shutdown => LoopOut {
            pm,
            p,
            st: st.at(LoopStage::Reload),
            actions: act_if(p.shutdown_request, LoopAction::ProcessShutdownRequest),
        },
        LoopStage::Reload => LoopOut {
            pm,
            p,
            st: st.at(LoopStage::ChildExit),
            actions: act_if(p.reload_request, LoopAction::ProcessReload),
        },
        LoopStage::ChildExit => LoopOut {
            pm,
            p,
            st: st.at(LoopStage::Pmsignal),
            actions: act_if(p.child_exit, LoopAction::ProcessChildExit),
        },
        LoopStage::Pmsignal => LoopOut {
            pm,
            p,
            st: st.at(LoopStage::Accept),
            actions: act_if(p.pmsignal, LoopAction::ProcessPmsignal),
        },
        LoopStage::Accept => LoopOut {
            pm,
            p,
            st: LoopState { event: (st.event + 1) as usize, ..st.at(LoopStage::Latch) },
            actions: act_if(
                events[st.event as int].accept && !serverloop::shutdown_pending(pm, p),
                LoopAction::AcceptConnection(events[st.event as int].fd),
            ),
        },
        LoopStage::Launch => LoopOut {
            pm,
            p,
            st: st.at(LoopStage::AvLauncher),
            actions: act_if(true, LoopAction::LaunchMissing),
        },
        LoopStage::AvLauncher => LoopOut {
            pm: PostmasterState { avlauncher_needs_signal: false, ..pm },
            p,
            st: st.at(LoopStage::Stall),
            actions: act_if(
                pm.avlauncher_needs_signal && pm.autovac_launcher is Some,
                LoopAction::SignalAutovacLauncher(pm.autovac_launcher->0),
            ),
        },
        LoopStage::Stall => {
            let st1 = LoopState { now: clock, ..st.at(LoopStage::Kill) };
            if stalled(pm, clock, bound) {
                LoopOut {
                    pm: PostmasterState { stall_escalated: true, ..pm },
                    p: PendingFlags { immediate_shutdown_request: true, shutdown_request: true, ..p },
                    st: st1,
                    actions: seq![
                        LoopAction::ReportStall {
                            state: pm.pm_state,
                            stalled: (clock - pm.pm_state_since) as i64,
                        },
                        LoopAction::ProcessShutdownRequest,
                    ],
                }
            } else {
                LoopOut { pm, p, st: st1, actions: Seq::empty() }
            }
        },
        LoopStage::Kill => LoopOut {
            pm: if kill_due(pm, st.now) {
                PostmasterState { abort_start_time: 0, lethal_time: st.now, ..pm }
            } else {
                pm
            },
            p,
            st: st.at(LoopStage::Forced),
            actions: act_if(
                kill_due(pm, st.now),
                LoopAction::IssueKill(if send_abort { SIGABRT } else { SIGKILL }),
            ),
        },
        LoopStage::Forced => LoopOut {
            pm,
            p,
            st: st.at(
                if forced_due(pm, st.now) {
                    LoopStage::ForcedCounted { remaining: 0, gang: 0 }
                } else {
                    LoopStage::Lockfile
                },
            ),
            actions: act_if(forced_due(pm, st.now), LoopAction::CountSurvivors),
        },
        LoopStage::ForcedCounted { remaining, gang } => LoopOut {
            pm: if remaining == 0 && gang == 0 {
                PostmasterState { lethal_time: 0, ..pm }
            } else {
                pm
            },
            p,
            st: st.at(LoopStage::Lockfile),
            actions: act_if(
                !(remaining == 0 && gang == 0),
                LoopAction::ForcedExit { remaining, gang },
            ),
        },
        LoopStage::Lockfile => {
            let due = st.now - st.last_lockfile_recheck_time >= 60;
            LoopOut {
                pm,
                p,
                st: st.at(
                    if due {
                        LoopStage::LockfileChecked(true)
                    } else {
                        LoopStage::Touch
                    },
                ),
                actions: act_if(due, LoopAction::RecheckLockFile),
            }
        },
        LoopStage::LockfileChecked(ok) => LoopOut {
            pm,
            p: if ok {
                p
            } else {
                pm_state::after_shutdown_signal(p, SIGQUIT)
            },
            st: LoopState { last_lockfile_recheck_time: st.now, ..st.at(LoopStage::Touch) },
            actions: act_if(!ok, LoopAction::ReportLockFileInvalid),
        },
        LoopStage::Touch => {
            let due = st.now - st.last_touch_time >= 58 * 60;
            LoopOut {
                pm,
                p,
                st: LoopState {
                    last_touch_time: if due {
                        st.now
                    } else {
                        st.last_touch_time
                    },
                    ..st.at(LoopStage::Wait)
                },
                actions: act_if(due, LoopAction::TouchSocketLockFiles),
            }
        },
    }
}

/// Whether these values are what `out` holds.
pub open spec fn loop_is(
    pm: PostmasterState,
    p: PendingFlags,
    st: LoopState,
    actions: Seq<LoopAction>,
    out: LoopOut,
) -> bool {
    pm == out.pm && p == out.p && st == out.st && actions == out.actions
}

fn one_if(c: bool, a: LoopAction) -> (r: Vec<LoopAction>)
    ensures
        r@ == act_if(c, a),
{
    let mut v: Vec<LoopAction> = Vec::new();
    if c {
        v.push(a);
    }
    v
}

fn after(a: i64, b: i64, d: i64) -> (r: bool)
    ensures
        r == (a - b >= d),
{
    (a as i128 - b as i128) >= d as i128
}

fn step_timers(
    pm: &mut PostmasterState,
    p: &mut PendingFlags,
    st: &mut LoopState,
    events: &Vec<WaitedEvent>,
    clock: i64,
    bound: i64,
    send_abort: bool,
) -> (r: Vec<LoopAction>)
    requires
        old(st).stage is Stall || old(st).stage is Kill || old(st).stage is Forced || old(
            st,
        ).stage is ForcedCounted || old(st).stage is Lockfile || old(st).stage is LockfileChecked || old(
            st,
        ).stage is Touch,
        old(st).stage is Stall && stalled(*old(pm), clock, bound) ==> serverloop::fits(
            clock - old(pm).pm_state_since,
        ),
    ensures
        loop_is(
            *final(pm),
            *final(p),
            *final(st),
            r@,
            loop_step(*old(pm), *old(p), *old(st), events@, clock, bound, send_abort),
        ),
{
    let dying = pm.shutdown >= ImmediateShutdown || pm.fatal_error;
    match st.stage {
        LoopStage::Stall => {
            st.now = clock;
            st.stage = LoopStage::Kill;
            if shutdown_stall_due(
                pm.shutdown,
                pm.fatal_error,
                pm.stall_escalated,
                pm.pm_state,
                pm.pm_state_since,
                clock,
                bound,
            ) {
                let d: i64 = clock - pm.pm_state_since;
                let report = LoopAction::ReportStall { state: pm.pm_state, stalled: d };
                pm.stall_escalated = true;
                p.immediate_shutdown_request = true;
                p.shutdown_request = true;
                let v = vec![report, LoopAction::ProcessShutdownRequest];
                assert(v@ =~= seq![report, LoopAction::ProcessShutdownRequest]);
                v
            } else {
                Vec::new()
            }
        },
        LoopStage::Kill => {
            st.stage = LoopStage::Forced;
            let due = dying && pm.abort_start_time != 0 && after(
                st.now,
                pm.abort_start_time,
                SIGKILL_CHILDREN_AFTER_SECS,
            );
            if due {
                pm.abort_start_time = 0;
                pm.lethal_time = st.now;
            }
            one_if(due, LoopAction::IssueKill(if send_abort { SIGABRT } else { SIGKILL }))
        },
        LoopStage::Forced => {
            let due = dying && pm.lethal_time != 0 && after(
                st.now,
                pm.lethal_time,
                FORCED_EXIT_AFTER_LETHAL_SECS,
            );
            st.stage = if due {
                LoopStage::ForcedCounted { remaining: 0, gang: 0 }
            } else {
                LoopStage::Lockfile
            };
            one_if(due, LoopAction::CountSurvivors)
        },
        LoopStage::ForcedCounted { remaining, gang } => {
            st.stage = LoopStage::Lockfile;
            let drained = remaining == 0 && gang == 0;
            if drained {
                pm.lethal_time = 0;
            }
            one_if(!drained, LoopAction::ForcedExit { remaining, gang })
        },
        LoopStage::Lockfile => {
            let due = after(st.now, st.last_lockfile_recheck_time, 60);
            st.stage = if due {
                LoopStage::LockfileChecked(true)
            } else {
                LoopStage::Touch
            };
            one_if(due, LoopAction::RecheckLockFile)
        },
        LoopStage::LockfileChecked(ok) => {
            if !ok {
                handle_pm_shutdown_request_signal(p, SIGQUIT);
            }
            st.last_lockfile_recheck_time = st.now;
            st.stage = LoopStage::Touch;
            one_if(!ok, LoopAction::ReportLockFileInvalid)
        },
        _ => {
            let due = after(st.now, st.last_touch_time, 58 * 60);
            if due {
                st.last_touch_time = st.now;
            }
            st.stage = LoopStage::Wait;
            one_if(due, LoopAction::TouchSocketLockFiles)
        },
    }
}

fn step_event(
    pm: &mut PostmasterState,
    p: &mut PendingFlags,
    st: &mut LoopState,
    events: &Vec<WaitedEvent>,
    clock: i64,
    bound: i64,
    send_abort: bool,
) -> (r: Vec<LoopAction>)
    requires
        old(st).stage is Latch || old(st).stage is Shutdown || old(st).stage is Reload || old(
            st,
        ).stage is ChildExit || old(st).stage is Pmsignal || old(st).stage is Accept,
        old(st).stage is Accept ==> old(st).event < events@.len(),
    ensures
        loop_is(
            *final(pm),
            *final(p),
            *final(st),
            r@,
            loop_step(*old(pm), *old(p), *old(st), events@, clock, bound, send_abort),
        ),
{
    match st.stage {
        LoopStage::Latch => {
            if st.event < events.len() {
                st.stage = LoopStage::Shutdown;
                one_if(events[st.event].latch_set, LoopAction::ResetLatch)
            } else {
                st.stage = LoopStage::Launch;
                Vec::new()
            }
        },
        LoopStage::Shutdown => {
            st.stage = LoopStage::Reload;
            one_if(p.shutdown_request, LoopAction::ProcessShutdownRequest)
        },
        LoopStage::Reload => {
            st.stage = LoopStage::ChildExit;
            one_if(p.reload_request, LoopAction::ProcessReload)
        },
        LoopStage::ChildExit => {
            st.stage = LoopStage::Pmsignal;
            one_if(p.child_exit, LoopAction::ProcessChildExit)
        },
        LoopStage::Pmsignal => {
            st.stage = LoopStage::Accept;
            one_if(p.pmsignal, LoopAction::ProcessPmsignal)
        },
        _ => {
            let ev = events[st.event];
            assert(st.event < events.len());
            st.event = st.event + 1;
            st.stage = LoopStage::Latch;
            one_if(ev.accept && !pm_shutdown_pending(pm, p), LoopAction::AcceptConnection(ev.fd))
        },
    }
}

/// One step of the loop. The caller performs the returned actions, puts the
/// answer of a check into `st.stage`, and calls again. `events` is what the
/// last wait returned.
pub fn ServerLoop(
    pm: &mut PostmasterState,
    p: &mut PendingFlags,
    st: &mut LoopState,
    events: &Vec<WaitedEvent>,
    clock: i64,
    bound: i64,
    send_abort: bool,
) -> (r: Vec<LoopAction>)
    requires
        old(st).stage is Accept ==> old(st).event < events@.len(),
        old(st).stage is Stall && stalled(*old(pm), clock, bound) ==> serverloop::fits(
            clock - old(pm).pm_state_since,
        ),
    ensures
        loop_is(
            *final(pm),
            *final(p),
            *final(st),
            r@,
            loop_step(*old(pm), *old(p), *old(st), events@, clock, bound, send_abort),
        ),
{
    match st.stage {
        LoopStage::Boot => {
            st.last_lockfile_recheck_time = clock;
            st.last_touch_time = clock;
            st.stage = LoopStage::Wait;
            boot()
        },
        LoopStage::Wait => {
            st.event = 0;
            st.stage = LoopStage::Latch;
            one_if(true, LoopAction::WaitForEvents)
        },
        LoopStage::Launch => {
            st.stage = LoopStage::AvLauncher;
            one_if(true, LoopAction::LaunchMissing)
        },
        LoopStage::AvLauncher => {
            st.stage = LoopStage::Stall;
            let needed = pm.avlauncher_needs_signal;
            pm.avlauncher_needs_signal = false;
            match pm.autovac_launcher {
                Some(c) => one_if(needed, LoopAction::SignalAutovacLauncher(c)),
                None => Vec::new(),
            }
        },
        LoopStage::Latch | LoopStage::Shutdown | LoopStage::Reload | LoopStage::ChildExit
        | LoopStage::Pmsignal | LoopStage::Accept => step_event(
            pm,
            p,
            st,
            events,
            clock,
            bound,
            send_abort,
        ),
        _ => step_timers(pm, p, st, events, clock, bound, send_abort),
    }
}

/// The log line about a stalled shutdown.
pub open spec fn stall_text(state: PMState, stalled: i64, remaining: i32, gang: i32) -> Seq<char> {
    WEDGE_MARKER@ + ": shutdown made no progress in "@ + pm_state::pmstate_text(state) + " for "@
        + text::dec_int(stalled as int) + "s ("@ + text::dec_int(remaining as int)
        + " child thread(s), "@ + text::dec_int(gang as int)
        + " standing runtime executor(s) still live); escalating to immediate shutdown. A registry-invisible runtime thread that missed its stop fence is the known cause; the next start will run crash recovery."@
}

/// The log line about a stalled shutdown.
pub fn render_stall(state: PMState, stalled: i64, remaining: i32, gang: i32) -> (s: String)
    ensures
        s@ == stall_text(state, stalled, remaining, gang),
{
    let mut s = String::from_str(WEDGE_MARKER);
    s.append(": shutdown made no progress in ");
    s.append(pmstate_name(state));
    s.append(" for ");
    text::append_i64(&mut s, stalled);
    s.append("s (");
    text::append_i64(&mut s, remaining as i64);
    s.append(" child thread(s), ");
    text::append_i64(&mut s, gang as i64);
    s.append(
        " standing runtime executor(s) still live); escalating to immediate shutdown. A registry-invisible runtime thread that missed its stop fence is the known cause; the next start will run crash recovery.",
    );
    s
}

/// The log line about a forced exit.
pub open spec fn forced_text(remaining: i32, gang: i32) -> Seq<char> {
    "issuing forced postmaster exit: "@ + text::dec_int(remaining as int) + " child thread(s) (+"@
        + text::dec_int(gang as int) + " standing runtime executor(s)) survived the kill broadcast "@
        + text::dec_int(FORCED_EXIT_AFTER_LETHAL_SECS as int)
        + "s; threads wedged off their drain points cannot be killed in-process"@
}

/// The log line about a forced exit.
pub fn render_forced(remaining: i32, gang: i32) -> (s: String)
    ensures
        s@ == forced_text(remaining, gang),
{
    let mut s = String::from_str("issuing forced postmaster exit: ");
    text::append_i64(&mut s, remaining as i64);
    s.append(" child thread(s) (+");
    text::append_i64(&mut s, gang as i64);
    s.append(" standing runtime executor(s)) survived the kill broadcast ");
    text::append_i64(&mut s, FORCED_EXIT_AFTER_LETHAL_SECS);
    s.append("s; threads wedged off their drain points cannot be killed in-process");
    s
}

/// The log line about killing children: it names the signal.
pub open spec fn kill_text(sig: i32) -> Seq<char> {
    "issuing "@ + (if sig == SIGABRT {
        "SIGABRT"@
    } else {
        "SIGKILL"@
    }) + " to recalcitrant children"@
}

/// The log line about killing children.
pub fn render_kill(sig: i32) -> (s: String)
    ensures
        s@ == kill_text(sig),
{
    let mut s = String::from_str("issuing ");
    if sig == SIGABRT {
        s.append("SIGABRT");
    } else {
        s.append("SIGKILL");
    }
    s.append(" to recalcitrant children");
    s
}

/// A stall is reported once: after the step that reports it the watchdog is
/// not armed again until the state forgets the escalation, and an immediate
/// shutdown is asked for.
pub proof fn law_stall_escalates_once(
    pm: PostmasterState,
    p: PendingFlags,
    st: LoopState,
    events: Seq<WaitedEvent>,
    clock: i64,
    later: i64,
    bound: i64,
    send_abort: bool,
)
    requires
        st.stage is Stall,
        stalled(pm, clock, bound),
    ensures
        ({
            let out = loop_step(pm, p, st, events, clock, bound, send_abort);
            &&& out.p.immediate_shutdown_request && out.p.shutdown_request
            &&& !stalled(out.pm, later, bound)
            &&& out.pm == PostmasterState { stall_escalated: true, ..pm }
        }),
{
}

/// Once a shutdown is on its way no connection is accepted.
pub proof fn law_no_accept_while_shutting_down(
    pm: PostmasterState,
    p: PendingFlags,
    st: LoopState,
    events: Seq<WaitedEvent>,
    clock: i64,
    bound: i64,
    send_abort: bool,
    i: int,
)
    requires
        serverloop::shutdown_pending(pm, p),
    ensures
        ({
            let a = loop_step(pm, p, st, events, clock, bound, send_abort).actions;
            0 <= i < a.len() ==> !(a[i] is AcceptConnection)
        }),
{
}

/// Killing arms the forced exit: the step that kills stamps the time from
/// which the forced exit counts, and does not kill twice.
pub proof fn law_kill_arms_forced_exit(
    pm: PostmasterState,
    p: PendingFlags,
    st: LoopState,
    events: Seq<WaitedEvent>,
    clock: i64,
    bound: i64,
    send_abort: bool,
)
    requires
        st.stage is Kill,
        kill_due(pm, st.now),
        st.now != 0,
    ensures
        ({
            let out = loop_step(pm, p, st, events, clock, bound, send_abort);
            &&& forall|t: i64| !kill_due(out.pm, t)
            &&& forall|t: i64|
                t >= st.now + FORCED_EXIT_AFTER_LETHAL_SECS ==> #[trigger] forced_due(out.pm, t)
        }),
{
}

pub const STATUS_OK: i32 = 0;
pub const STATUS_ERROR: i32 = -1;

/// How far the start of a backend has come, with what the outside reported.
#[derive(Clone, Copy, Debug, PartialEq, Eq, Structural)]
pub enum StartupStage {
    Begin,
    /// The answer to a request for a backend slot.
    Slot(Option<i32>),
    /// The answer to a request for a slot to turn the client away from.
    DeadEnd { cac: CacState, dead_slot: Option<i32> },
    /// The answer to a launch.
    Launched { kind: BackendType, slot: i32, pid: i32 },
}

/// What the start of a backend asks for next.
#[derive(Clone, Copy, Debug, PartialEq, Eq, Structural)]
pub enum StartupStep {
    AssignSlot,
    AllocDeadEnd(CacState),
    Launch { kind: BackendType, slot: i32, cac: CacState },
    /// Log that memory is out; the connection fails.
    OutOfMemory,
    /// Free the slot, log, and tell the client; the connection fails.
    LaunchFailed { slot: i32 },
    /// Log, and record the pid in the slot.
    Started { kind: BackendType, slot: i32, pid: i32 },
}

/// The next step of starting a backend. A client that may not stay, or for
/// whom there is no slot, still gets a child that tells it so.
pub open spec fn startup_step(pm: PostmasterState, stage: StartupStage) -> StartupStep {
    match stage {
        StartupStage::Begin => if serverloop::cac(pm, BackendType::Backend) == CacState::Okay {
            StartupStep::AssignSlot
        } else {
            StartupStep::AllocDeadEnd(serverloop::cac(pm, BackendType::Backend))
        },
        StartupStage::Slot(Some(slot)) => StartupStep::Launch {
            kind: BackendType::Backend,
            slot,
            cac: CacState::Okay,
        },
        StartupStage::Slot(None) => StartupStep::AllocDeadEnd(CacState::TooMany),
        StartupStage::DeadEnd { cac, dead_slot: Some(slot) } => StartupStep::Launch {
            kind: BackendType::DeadEndBackend,
            slot,
            cac,
        },
        StartupStage::DeadEnd { cac: _, dead_slot: None } => StartupStep::OutOfMemory,
        StartupStage::Launched { kind, slot, pid } => if pid < 0 {
            StartupStep::LaunchFailed { slot }
        } else {
            StartupStep::Started { kind, slot, pid }
        },
    }
}

/// The status that a final step leaves, where it is final.
pub open spec fn startup_status(step: StartupStep) -> Option<i32> {
    match step {
        StartupStep::OutOfMemory => Some(STATUS_ERROR),
        StartupStep::LaunchFailed { .. } => Some(STATUS_ERROR),
        StartupStep::Started { .. } => Some(STATUS_OK),
        _ => None,
    }
}

/// One step of starting a backend for an accepted connection, with the status
/// once the last step is reached.
pub fn BackendStartup(pm: &PostmasterState, stage: StartupStage) -> (r: (StartupStep, Option<i32>))
    ensures
        r.0 == startup_step(*pm, stage),
        r.1 == startup_status(r.0),
{
    match stage {
        StartupStage::Begin => {
            let cac = canAcceptConnections(pm, BackendType::Backend);
            if cac == CacState::Okay {
                (StartupStep::AssignSlot, None)
            } else {
                (StartupStep::AllocDeadEnd(cac), None)
            }
        },
        StartupStage::Slot(slot) => match slot {
            Some(slot) => (
                StartupStep::Launch { kind: BackendType::Backend, slot, cac: CacState::Okay },
                None,
            ),
            None => (StartupStep::AllocDeadEnd(CacState::TooMany), None),
        },
        StartupStage::DeadEnd { cac, dead_slot } => match dead_slot {
            Some(slot) => (
                StartupStep::Launch { kind: BackendType::DeadEndBackend, slot, cac },
                None,
            ),
            None => (StartupStep::OutOfMemory, Some(STATUS_ERROR)),
        },
        StartupStage::Launched { kind, slot, pid } => {
            if pid < 0 {
                (StartupStep::LaunchFailed { slot }, Some(STATUS_ERROR))
            } else {
                (StartupStep::Started { kind, slot, pid }, Some(STATUS_OK))
            }
        },
    }
}

/// The message a client gets when its backend could not be started.
pub fn fork_failure_message() -> (s: &'static str)
    ensures
        s@ == "could not fork new process for connection"@,
{
    "could not fork new process for connection"
}

/// The log line about a started backend.
pub open spec fn forked_text(kind_desc: Seq<char>, pid: i32, sock: i32) -> Seq<char> {
    "forked new "@ + kind_desc + ", pid="@ + text::dec_int(pid as int) + " socket="@ + text::dec_int(
        sock as int,
    )
}

/// The log line about a started backend.
pub fn render_forked(kind_desc: &str, pid: i32, sock: i32) -> (s: String)
    ensures
        s@ == forked_text(kind_desc@, pid, sock),
{
    let mut s = String::from_str("forked new ");
    s.append(kind_desc);
    s.append(", pid=");
    text::append_i64(&mut s, pid as i64);
    s.append(" socket=");
    text::append_i64(&mut s, sock as i64);
    s
}

} // verus!
