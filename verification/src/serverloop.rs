//! The supervisor's main loop: what each wake-up serves, how long to sleep,
//! who may connect, and which children are missing.
use vstd::prelude::*;
use crate::backend_type::BackendType;
use crate::pm_state::{PMState, PendingFlags, PostmasterState};
use crate::pm_state::{
    ImmediateShutdown, NoShutdown, FORCED_EXIT_AFTER_LETHAL_SECS, SIGKILL_CHILDREN_AFTER_SECS,
};

verus! {

/// A background worker that is never started again.
pub const BGW_NEVER_RESTART: i32 = -1;

/// What the supervisor waits for.
#[derive(Clone, Copy, Debug, PartialEq, Eq, Structural)]
pub enum WaitRegistration {
    Latch,
    Accept(i32),
}

/// The events to wait for: the latch, and the listening sockets while
/// connections are accepted.
pub fn ConfigurePostmasterWaitSet(pm: &PostmasterState, accept_connections: bool) -> (r: Vec<WaitRegistration>)
    ensures
        r@.len() == (if accept_connections {
            1 + pm.listen_sockets@.len()
        } else {
            1
        }),
        r@[0] == WaitRegistration::Latch,
        forall|i: int| 1 <= i < r@.len() ==> #[trigger] r@[i] == WaitRegistration::Accept(pm.listen_sockets@[i - 1]),
{
    let mut v: Vec<WaitRegistration> = Vec::new();
    v.push(WaitRegistration::Latch);
    if accept_connections {
        let mut i: usize = 0;
        while i < pm.listen_sockets.len()
            invariant
                i <= pm.listen_sockets@.len(),
                v@.len() == i + 1,
                v@[0] == WaitRegistration::Latch,
                forall|k: int| 1 <= k < v@.len() ==> #[trigger] v@[k] == WaitRegistration::Accept(
                    pm.listen_sockets@[k - 1],
                ),
            decreases pm.listen_sockets@.len() - i,
        {
            v.push(WaitRegistration::Accept(pm.listen_sockets[i]));
            i = i + 1;
        }
    }
    v
}

/// Whether the stall watchdog can fire at all in this state: a smart or fast
/// shutdown waits in a phase that waits for children which were told to stop.
/// The shutdown checkpoint itself is not bounded.
pub open spec fn stall_armed(
    shutdown: i32,
    fatal_error: bool,
    escalated: bool,
    state: PMState,
    state_since: i64,
    bound: i64,
) -> bool {
    &&& bound != 0
    &&& !escalated
    &&& !fatal_error
    &&& state_since != 0
    &&& NoShutdown < shutdown < ImmediateShutdown
    &&& PMState::PM_STOP_BACKENDS.rank() <= state.rank() < PMState::PM_NO_CHILDREN.rank()
    &&& state != PMState::PM_WAIT_XLOG_SHUTDOWN
}

/// Whether the stall watchdog can fire at all in this state.
pub fn shutdown_stall_armed(
    shutdown: i32,
    fatal_error: bool,
    escalated: bool,
    state: PMState,
    state_since: i64,
    bound: i64,
) -> (r: bool)
    ensures
        r == stall_armed(shutdown, fatal_error, escalated, state, state_since, bound),
{
    if bound == 0 || escalated || fatal_error || state_since == 0 {
        return false;
    }
    if shutdown <= NoShutdown || shutdown >= ImmediateShutdown {
        return false;
    }
    if state.order() < PMState::PM_STOP_BACKENDS.order() || state.order()
        >= PMState::PM_NO_CHILDREN.order() || state == PMState::PM_WAIT_XLOG_SHUTDOWN {
        return false;
    }
    true
}

/// Whether a shutdown is stalled: armed, and `bound` seconds in one phase.
pub open spec fn stall_due(
    shutdown: i32,
    fatal_error: bool,
    escalated: bool,
    state: PMState,
    state_since: i64,
    now: i64,
    bound: i64,
) -> bool {
    stall_armed(shutdown, fatal_error, escalated, state, state_since, bound) && now - state_since
        >= bound
}

/// Whether a shutdown is stalled.
pub fn shutdown_stall_due(
    shutdown: i32,
    fatal_error: bool,
    escalated: bool,
    state: PMState,
    state_since: i64,
    now: i64,
    bound: i64,
) -> (r: bool)
    ensures
        r == stall_due(shutdown, fatal_error, escalated, state, state_since, now, bound),
{
    shutdown_stall_armed(shutdown, fatal_error, escalated, state, state_since, bound) && (now as i128
        - state_since as i128) >= bound as i128
}

/// Without a shutdown in progress the watchdog is never armed, in any phase.
pub proof fn law_stall_never_armed_without_shutdown(
    fatal_error: bool,
    escalated: bool,
    state: PMState,
    state_since: i64,
    bound: i64,
)
    ensures
        !stall_armed(NoShutdown, fatal_error, escalated, state, state_since, bound),
{
}

/// The early wake and the watchdog share one gate: what is due is armed, and
/// what is armed becomes due by the passing of time alone.
pub proof fn law_stall_due_is_armed_plus_time(
    shutdown: i32,
    fatal_error: bool,
    escalated: bool,
    state: PMState,
    state_since: i64,
    now: i64,
    bound: i64,
)
    ensures
        stall_due(shutdown, fatal_error, escalated, state, state_since, now, bound) <==> (stall_armed(
            shutdown,
            fatal_error,
            escalated,
            state,
            state_since,
            bound,
        ) && now >= state_since + bound),
{
}

/// A shutdown is on its way: asked for, under way, or a crash is handled. From
/// then on nothing is accepted.
pub open spec fn shutdown_pending(pm: PostmasterState, p: PendingFlags) -> bool {
    p.shutdown_request || pm.shutdown != NoShutdown || pm.fatal_error
}

/// Whether a shutdown is on its way.
pub fn pm_shutdown_pending(pm: &PostmasterState, p: &PendingFlags) -> (r: bool)
    ensures
        r == shutdown_pending(*pm, *p),
{
    p.shutdown_request || pm.shutdown != NoShutdown || pm.fatal_error
}

/// What a connection may do.
#[derive(Clone, Copy, Debug, PartialEq, Eq, Structural)]
pub enum CacState {
    Okay,
    Startup,
    Shutdown,
    Recovery,
    NotHotStandby,
    TooMany,
}

/// What a connection of this kind may do.
pub open spec fn cac(pm: PostmasterState, kind: BackendType) -> CacState {
    if pm.pm_state != PMState::PM_RUN && pm.pm_state != PMState::PM_HOT_STANDBY {
        if pm.shutdown > NoShutdown {
            CacState::Shutdown
        } else if !pm.fatal_error && pm.pm_state == PMState::PM_STARTUP {
            CacState::Startup
        } else if !pm.fatal_error && pm.pm_state == PMState::PM_RECOVERY {
            CacState::NotHotStandby
        } else {
            CacState::Recovery
        }
    } else if !pm.conns_allowed && kind == BackendType::Backend {
        CacState::Shutdown
    } else {
        CacState::Okay
    }
}

/// What a connection of this kind may do.
pub fn canAcceptConnections(pm: &PostmasterState, backend_type: BackendType) -> (r: CacState)
    requires
        backend_type == BackendType::Backend || backend_type == BackendType::AutovacWorker,
    ensures
        r == cac(*pm, backend_type),
{
    if pm.pm_state != PMState::PM_RUN && pm.pm_state != PMState::PM_HOT_STANDBY {
        if pm.shutdown > NoShutdown {
            return CacState::Shutdown;
        } else if !pm.fatal_error && pm.pm_state == PMState::PM_STARTUP {
            return CacState::Startup;
        } else if !pm.fatal_error && pm.pm_state == PMState::PM_RECOVERY {
            return CacState::NotHotStandby;
        } else {
            return CacState::Recovery;
        }
    }
    if !pm.conns_allowed && backend_type == BackendType::Backend {
        return CacState::Shutdown;
    }
    CacState::Okay
}

/// A smart shutdown turns away clients only.
pub proof fn law_smart_shutdown_gates_clients_only(pm: PostmasterState)
    requires
        pm.pm_state == PMState::PM_RUN || pm.pm_state == PMState::PM_HOT_STANDBY,
        !pm.conns_allowed,
    ensures
        cac(pm, BackendType::Backend) == CacState::Shutdown,
        cac(pm, BackendType::AutovacWorker) == CacState::Okay,
{
}

/// A registered background worker, as far as restarting it goes.
#[derive(Clone, Copy, Debug, PartialEq, Eq, Structural)]
pub struct WorkerRow {
    /// Microseconds; 0 = has not crashed.
    pub crashed_at: i64,
    /// Seconds.
    pub restart_time: i32,
    pub terminate: bool,
}

impl WorkerRow {
    /// A crashed worker that is not to come back.
    pub open spec fn forgettable(self) -> bool {
        self.crashed_at != 0 && (self.restart_time == BGW_NEVER_RESTART || self.terminate)
    }

    /// A crashed worker that is to come back.
    pub open spec fn restartable(self) -> bool {
        self.crashed_at != 0 && !(self.restart_time == BGW_NEVER_RESTART || self.terminate)
    }

    /// When a crashed worker is to come back, in microseconds.
    pub open spec fn wakeup(self) -> int {
        self.crashed_at + self.restart_time * 1000000
    }
}

/// The earliest time a crashed worker is to come back; 0 = none.
pub open spec fn next_wakeup(rows: Seq<WorkerRow>) -> int
    decreases rows.len(),
{
    if rows.len() == 0 {
        0
    } else {
        let before = next_wakeup(rows.drop_last());
        let r = rows.last();
        if r.restartable() && (before == 0 || r.wakeup() < before) {
            r.wakeup()
        } else {
            before
        }
    }
}

/// The positions of the crashed workers that are not to come back.
pub open spec fn forgotten(rows: Seq<WorkerRow>) -> Seq<usize>
    decreases rows.len(),
{
    if rows.len() == 0 {
        Seq::empty()
    } else if rows.last().forgettable() {
        forgotten(rows.drop_last()).push((rows.len() - 1) as usize)
    } else {
        forgotten(rows.drop_last())
    }
}

/// Whether `x` is an `i64`.
pub open spec fn fits(x: int) -> bool {
    i64::MIN <= x <= i64::MAX
}

pub open spec fn at_least_0(x: int) -> int {
    if x < 0 {
        0
    } else {
        x
    }
}

pub open spec fn at_most(x: int, m: int) -> int {
    if x > m {
        m
    } else {
        x
    }
}

/// Whether only the shutdown timers decide how long to sleep.
pub open spec fn sleeps_by_timers(pm: PostmasterState) -> bool {
    pm.shutdown > NoShutdown || (!pm.start_worker_needed && !pm.have_crashed_worker)
}

/// The time to sleep by the shutdown timers, in milliseconds.
pub open spec fn timer_sleep(pm: PostmasterState, now: i64, bound: i64) -> int {
    if pm.abort_start_time != 0 {
        at_least_0((SIGKILL_CHILDREN_AFTER_SECS - (now - pm.abort_start_time)) * 1000)
    } else if pm.lethal_time != 0 {
        at_least_0((FORCED_EXIT_AFTER_LETHAL_SECS - (now - pm.lethal_time)) * 1000)
    } else if stall_armed(
        pm.shutdown,
        pm.fatal_error,
        pm.stall_escalated,
        pm.pm_state,
        pm.pm_state_since,
        bound,
    ) {
        at_most(at_least_0((bound - (now - pm.pm_state_since)) * 1000), 60000)
    } else {
        60000
    }
}

/// The time to sleep until the next crashed worker comes back, in milliseconds.
pub open spec fn worker_sleep(pm: PostmasterState, rows: Seq<WorkerRow>, now_us: i64) -> int {
    if pm.start_worker_needed {
        0
    } else if next_wakeup(rows) != 0 {
        at_most(at_least_0(next_wakeup(rows) - now_us) / 1000, 60000)
    } else {
        60000
    }
}

/// The clock arithmetic stays within an `i64`.
pub open spec fn clocks_fit(pm: PostmasterState, rows: Seq<WorkerRow>, now: i64, now_us: i64, bound: i64) -> bool {
    if sleeps_by_timers(pm) {
        &&& pm.abort_start_time != 0 ==> fits(
            (SIGKILL_CHILDREN_AFTER_SECS - (now - pm.abort_start_time)) * 1000,
        )
        &&& pm.abort_start_time == 0 && pm.lethal_time != 0 ==> fits(
            (FORCED_EXIT_AFTER_LETHAL_SECS - (now - pm.lethal_time)) * 1000,
        )
        &&& pm.abort_start_time == 0 && pm.lethal_time == 0 && stall_armed(
            pm.shutdown,
            pm.fatal_error,
            pm.stall_escalated,
            pm.pm_state,
            pm.pm_state_since,
            bound,
        ) ==> fits(now - pm.pm_state_since) && fits((bound - (now - pm.pm_state_since)) * 1000)
    } else {
        forall|i: int|
            0 <= i < rows.len() && (#[trigger] rows[i]).restartable() ==> fits(rows[i].wakeup())
                && fits(rows[i].wakeup() - now_us)
    }
}

/// How long to sleep, in milliseconds, and which workers to forget. With
/// crashed workers to restart: just long enough that they restart on time.
/// `now` is in seconds and `now_us` in microseconds.
pub fn DetermineSleepTime(
    pm: &PostmasterState,
    rows: &Vec<WorkerRow>,
    now: i64,
    now_us: i64,
    bound: i64,
) -> (r: (i64, Vec<usize>))
    requires
        clocks_fit(*pm, rows@, now, now_us, bound),
    ensures
        sleeps_by_timers(*pm) ==> r.0 == timer_sleep(*pm, now, bound) && r.1@.len() == 0,
        !sleeps_by_timers(*pm) ==> r.0 == worker_sleep(*pm, rows@, now_us) && r.1@ == (
        if pm.start_worker_needed {
            Seq::empty()
        } else {
            forgotten(rows@)
        }),
{
    let none: Vec<usize> = Vec::new();
    if pm.shutdown > NoShutdown || (!pm.start_worker_needed && !pm.have_crashed_worker) {
        if pm.abort_start_time != 0 {
            let ms: i64 = (SIGKILL_CHILDREN_AFTER_SECS - (now - pm.abort_start_time)) * 1000;
            return (if ms < 0 { 0 } else { ms }, none);
        }
        if pm.lethal_time != 0 {
            let ms: i64 = (FORCED_EXIT_AFTER_LETHAL_SECS - (now - pm.lethal_time)) * 1000;
            return (if ms < 0 { 0 } else { ms }, none);
        }
        if shutdown_stall_armed(
            pm.shutdown,
            pm.fatal_error,
            pm.stall_escalated,
            pm.pm_state,
            pm.pm_state_since,
            bound,
        ) {
            let ms: i64 = (bound - (now - pm.pm_state_since)) * 1000;
            return (if ms < 0 { 0 } else if ms > 60000 { 60000 } else { ms }, none);
        }
        return (60000, none);
    }
    if pm.start_worker_needed {
        return (0, none);
    }
    let mut gone: Vec<usize> = Vec::new();
    let mut next: i64 = 0;
    let mut i: usize = 0;
    assert(rows@.take(0) =~= Seq::<WorkerRow>::empty());
    while i < rows.len()
        invariant
            i <= rows@.len(),
            next == next_wakeup(rows@.take(i as int)),
            next != 0 ==> fits(next - now_us),
            gone@ == forgotten(rows@.take(i as int)),
            forall|k: int|
                0 <= k < rows@.len() && (#[trigger] rows@[k]).restartable() ==> fits(rows@[k].wakeup())
                    && fits(rows@[k].wakeup() - now_us),
        decreases rows@.len() - i,
    {
        let row = rows[i];
        proof {
            assert(rows@.take(i + 1).drop_last() =~= rows@.take(i as int));
            assert(rows@.take(i + 1).last() == row);
        }
        if row.crashed_at != 0 {
            if row.restart_time == BGW_NEVER_RESTART || row.terminate {
                gone.push(i);
            } else {
                assert(rows@[i as int].restartable());
                let this: i64 = row.crashed_at + (row.restart_time as i64) * 1000000;
                if next == 0 || this < next {
                    next = this;
                }
            }
        }
        i = i + 1;
    }
    proof {
        assert(rows@.take(i as int) =~= rows@);
    }
    if next != 0 {
        let d: i64 = next - now_us;
        let ms: i64 = if d < 0 { 0 } else { d / 1000 };
        return (if ms > 60000 { 60000 } else { ms }, gone);
    }
    (60000, gone)
}

/// The supervisor never sleeps a negative time; while no kill is due it never
/// sleeps longer than a minute.
pub proof fn law_sleep_is_bounded(
    pm: PostmasterState,
    rows: Seq<WorkerRow>,
    now: i64,
    now_us: i64,
    bound: i64,
)
    ensures
        timer_sleep(pm, now, bound) >= 0,
        pm.abort_start_time == 0 && pm.lethal_time == 0 ==> timer_sleep(pm, now, bound) <= 60000,
        0 <= worker_sleep(pm, rows, now_us) <= 60000,
{
}

/// In an ordinary running state nothing wakes the supervisor early.
pub proof fn law_running_state_sleeps_a_minute(pm: PostmasterState, now: i64, bound: i64)
    requires
        pm.shutdown == NoShutdown,
        pm.abort_start_time == 0,
        pm.lethal_time == 0,
    ensures
        timer_sleep(pm, now, bound) == 60000,
{
}

/// How long to wait at most, in milliseconds, where listeners can only be
/// looked at and not waited for.
pub const PM_ACCEPT_POLL_MS: i64 = 50;

/// A listener that was looked at.
#[derive(Clone, Copy, Debug, PartialEq, Eq, Structural)]
pub struct ProbedListener {
    pub fd: i32,
    pub readable: bool,
}

/// What looking at the latch and the listeners gives, at most `room` events:
/// the latch first, then the listeners with a connection, in order.
pub open spec fn probed(
    latch_set: bool,
    accepting: bool,
    fds: Seq<ProbedListener>,
    n: nat,
    room: int,
) -> Seq<WaitRegistration>
    decreases n,
{
    if n == 0 {
        if latch_set && room > 0 {
            seq![WaitRegistration::Latch]
        } else {
            Seq::empty()
        }
    } else {
        let p = probed(latch_set, accepting, fds, (n - 1) as nat, room);
        if accepting && fds[n - 1].readable && p.len() < room {
            p.push(WaitRegistration::Accept(fds[n - 1].fd))
        } else {
            p
        }
    }
}

/// How long to wait where listeners can only be looked at.
pub fn poll_timeout(sleep: i64) -> (r: i64)
    ensures
        r == (if sleep < PM_ACCEPT_POLL_MS {
            sleep
        } else {
            PM_ACCEPT_POLL_MS
        }),
{
    if sleep < PM_ACCEPT_POLL_MS {
        sleep
    } else {
        PM_ACCEPT_POLL_MS
    }
}

/// The events of a wait that looked at the listeners afterwards.
pub fn pm_wait_for_events(
    latch_set: bool,
    accepting: bool,
    fds: &Vec<ProbedListener>,
    room: usize,
) -> (r: Vec<WaitRegistration>)
    ensures
        r@ == probed(latch_set, accepting, fds@, fds@.len(), room as int),
        r@.len() <= room,
{
    let mut events: Vec<WaitRegistration> = Vec::new();
    if latch_set && room > 0 {
        events.push(WaitRegistration::Latch);
        assert(events@ =~= seq![WaitRegistration::Latch]);
    }
    let mut i: usize = 0;
    while i < fds.len()
        invariant
            i <= fds@.len(),
            events@.len() <= room,
            events@ == probed(latch_set, accepting, fds@, i as nat, room as int),
        decreases fds@.len() - i,
    {
        if accepting && fds[i].readable && events.len() < room {
            events.push(WaitRegistration::Accept(fds[i].fd));
        }
        i = i + 1;
    }
    events
}

} // verus!
