//! The supervisor's state: its phases, its children and its pending requests.
use vstd::prelude::*;
use crate::backend_type::BackendType;
use crate::text;

verus! {

pub const NoShutdown: i32 = 0;
pub const SmartShutdown: i32 = 1;
pub const FastShutdown: i32 = 2;
pub const ImmediateShutdown: i32 = 3;

/// Seconds between asking children to die and killing them.
pub const SIGKILL_CHILDREN_AFTER_SECS: i64 = 5;

/// Seconds between killing the children and the supervisor's own forced exit.
pub const FORCED_EXIT_AFTER_LETHAL_SECS: i64 = 8;

/// Seconds a shutdown that is not immediate may stay in one waiting phase.
pub const PM_SHUTDOWN_STALL_SECS: i64 = 60;

/// The token a log line about a stalled shutdown starts with.
pub const WEDGE_MARKER: &'static str = "PGRUST-SHUTDOWN-WEDGE";

/// The most listening sockets there can be.
pub const MAXLISTEN: usize = 64;

pub const LOCK_FILE_LINE_SOCKET_DIR: i32 = 5;
pub const LOCK_FILE_LINE_LISTEN_ADDR: i32 = 6;
pub const LOCK_FILE_LINE_PM_STATUS: i32 = 8;

pub const PM_STATUS_STARTING: &'static str = "starting";
pub const PM_STATUS_STOPPING: &'static str = "stopping";
pub const PM_STATUS_READY: &'static str = "ready   ";
pub const PM_STATUS_STANDBY: &'static str = "standby ";

pub const SIGHUP: i32 = 1;
pub const SIGINT: i32 = 2;
pub const SIGQUIT: i32 = 3;
pub const SIGABRT: i32 = 6;
pub const SIGKILL: i32 = 9;
pub const SIGUSR1: i32 = 10;
pub const SIGUSR2: i32 = 12;
pub const SIGPIPE: i32 = 13;
pub const SIGALRM: i32 = 14;
pub const SIGTERM: i32 = 15;

/// How many slots there are for I/O workers.
pub const MAX_IO_WORKERS_USIZE: usize = 32;

/// The supervisor's phase. The order matters: what comes from
/// `PM_STOP_BACKENDS` on belongs to a shutdown or a crash cycle.
#[derive(Clone, Copy, Debug, PartialEq, Eq, PartialOrd, Ord, Structural)]
pub enum PMState {
    PM_INIT,
    PM_STARTUP,
    PM_RECOVERY,
    PM_HOT_STANDBY,
    PM_RUN,
    PM_STOP_BACKENDS,
    PM_WAIT_BACKENDS,
    PM_WAIT_XLOG_SHUTDOWN,
    PM_WAIT_XLOG_ARCHIVAL,
    PM_WAIT_IO_WORKERS,
    PM_WAIT_DEAD_END,
    PM_WAIT_CHECKPOINTER,
    PM_NO_CHILDREN,
}

impl PMState {
    /// The place of the phase in the order.
    pub open spec fn rank(self) -> int {
        match self {
            PMState::PM_INIT => 0,
            PMState::PM_STARTUP => 1,
            PMState::PM_RECOVERY => 2,
            PMState::PM_HOT_STANDBY => 3,
            PMState::PM_RUN => 4,
            PMState::PM_STOP_BACKENDS => 5,
            PMState::PM_WAIT_BACKENDS => 6,
            PMState::PM_WAIT_XLOG_SHUTDOWN => 7,
            PMState::PM_WAIT_XLOG_ARCHIVAL => 8,
            PMState::PM_WAIT_IO_WORKERS => 9,
            PMState::PM_WAIT_DEAD_END => 10,
            PMState::PM_WAIT_CHECKPOINTER => 11,
            PMState::PM_NO_CHILDREN => 12,
        }
    }

    /// The place of the phase in the order.
    pub fn order(self) -> (r: u8)
        ensures
            r == self.rank(),
    {
        match self {
            PMState::PM_INIT => 0,
            PMState::PM_STARTUP => 1,
            PMState::PM_RECOVERY => 2,
            PMState::PM_HOT_STANDBY => 3,
            PMState::PM_RUN => 4,
            PMState::PM_STOP_BACKENDS => 5,
            PMState::PM_WAIT_BACKENDS => 6,
            PMState::PM_WAIT_XLOG_SHUTDOWN => 7,
            PMState::PM_WAIT_XLOG_ARCHIVAL => 8,
            PMState::PM_WAIT_IO_WORKERS => 9,
            PMState::PM_WAIT_DEAD_END => 10,
            PMState::PM_WAIT_CHECKPOINTER => 11,
            PMState::PM_NO_CHILDREN => 12,
        }
    }

    /// Whether the phase comes before children are asked to stop.
    pub open spec fn before_stop(self) -> bool {
        self.rank() < PMState::PM_STOP_BACKENDS.rank()
    }
}

/// The name of a phase as log lines print it.
pub open spec fn pmstate_text(state: PMState) -> Seq<char> {
    match state {
        PMState::PM_INIT => "PM_INIT"@,
        PMState::PM_STARTUP => "PM_STARTUP"@,
        PMState::PM_RECOVERY => "PM_RECOVERY"@,
        PMState::PM_HOT_STANDBY => "PM_HOT_STANDBY"@,
        PMState::PM_RUN => "PM_RUN"@,
        PMState::PM_STOP_BACKENDS => "PM_STOP_BACKENDS"@,
        PMState::PM_WAIT_BACKENDS => "PM_WAIT_BACKENDS"@,
        PMState::PM_WAIT_XLOG_SHUTDOWN => "PM_WAIT_XLOG_SHUTDOWN"@,
        PMState::PM_WAIT_XLOG_ARCHIVAL => "PM_WAIT_XLOG_ARCHIVAL"@,
        PMState::PM_WAIT_IO_WORKERS => "PM_WAIT_IO_WORKERS"@,
        PMState::PM_WAIT_DEAD_END => "PM_WAIT_DEAD_END"@,
        PMState::PM_WAIT_CHECKPOINTER => "PM_WAIT_CHECKPOINTER"@,
        PMState::PM_NO_CHILDREN => "PM_NO_CHILDREN"@,
    }
}

/// The name of a phase as log lines print it.
pub fn pmstate_name(state: PMState) -> (r: &'static str)
    ensures
        r@ == pmstate_text(state),
{
    match state {
        PMState::PM_INIT => "PM_INIT",
        PMState::PM_STARTUP => "PM_STARTUP",
        PMState::PM_RECOVERY => "PM_RECOVERY",
        PMState::PM_HOT_STANDBY => "PM_HOT_STANDBY",
        PMState::PM_RUN => "PM_RUN",
        PMState::PM_STOP_BACKENDS => "PM_STOP_BACKENDS",
        PMState::PM_WAIT_BACKENDS => "PM_WAIT_BACKENDS",
        PMState::PM_WAIT_XLOG_SHUTDOWN => "PM_WAIT_XLOG_SHUTDOWN",
        PMState::PM_WAIT_XLOG_ARCHIVAL => "PM_WAIT_XLOG_ARCHIVAL",
        PMState::PM_WAIT_IO_WORKERS => "PM_WAIT_IO_WORKERS",
        PMState::PM_WAIT_DEAD_END => "PM_WAIT_DEAD_END",
        PMState::PM_WAIT_CHECKPOINTER => "PM_WAIT_CHECKPOINTER",
        PMState::PM_NO_CHILDREN => "PM_NO_CHILDREN",
    }
}

/// What is known of the recovery (startup) child.
#[derive(Clone, Copy, Debug, PartialEq, Eq, Structural)]
pub enum StartupStatusEnum {
    NotRunning,
    Running,
    Signaled,
    Crashed,
}

/// One tracked child.
#[derive(Clone, Copy, Debug, PartialEq, Eq, Structural)]
pub struct PmChild {
    pub child_slot: i32,
    pub bkend_type: BackendType,
    pub pid: i32,
}

/// Everything the supervisor decides by.
pub struct PostmasterState {
    pub pm_state: PMState,
    pub shutdown: i32,
    pub conns_allowed: bool,
    pub fatal_error: bool,
    /// When children were asked to die, in seconds; 0 = not asked.
    pub abort_start_time: i64,
    /// When children were killed, in seconds; 0 = not killed.
    pub lethal_time: i64,
    /// When the phase last changed, in seconds; 0 = never.
    pub pm_state_since: i64,
    /// Whether a stalled shutdown was already turned into an immediate one.
    pub stall_escalated: bool,
    pub reached_consistency: bool,
    pub startup_status: StartupStatusEnum,
    pub start_autovac_launcher: bool,
    pub avlauncher_needs_signal: bool,
    pub start_worker_needed: bool,
    pub have_crashed_worker: bool,
    pub wal_receiver_requested: bool,
    pub io_worker_count: i32,
    pub io_worker_children: Vec<Option<PmChild>>,
    pub listen_sockets: Vec<i32>,
    pub checkpointer: Option<PmChild>,
    pub bgwriter: Option<PmChild>,
    pub startup: Option<PmChild>,
    pub walwriter: Option<PmChild>,
    pub autovac_launcher: Option<PmChild>,
    pub pgarch: Option<PmChild>,
    pub slotsync_worker: Option<PmChild>,
    pub walreceiver: Option<PmChild>,
    pub walsummarizer: Option<PmChild>,
    pub syslogger: Option<PmChild>,
}

impl PostmasterState {
    /// The slots for I/O workers are there, all of them.
    pub open spec fn wf(&self) -> bool {
        self.io_worker_children@.len() == MAX_IO_WORKERS_USIZE
    }

    /// The state before anything has happened.
    pub fn new() -> (pm: PostmasterState)
        ensures
            pm.wf(),
            pm.pm_state == PMState::PM_INIT,
            pm.shutdown == NoShutdown,
            !pm.conns_allowed,
            !pm.fatal_error,
            pm.abort_start_time == 0,
            pm.lethal_time == 0,
            pm.pm_state_since == 0,
            !pm.stall_escalated,
            !pm.reached_consistency,
            pm.startup_status == StartupStatusEnum::NotRunning,
            !pm.start_autovac_launcher,
            !pm.avlauncher_needs_signal,
            pm.start_worker_needed,
            !pm.have_crashed_worker,
            !pm.wal_receiver_requested,
            pm.io_worker_count == 0,
            forall|i: int| 0 <= i < pm.io_worker_children@.len() ==> (#[trigger] pm.io_worker_children@[i]) is None,
            pm.listen_sockets@.len() == 0,
            pm.checkpointer is None,
            pm.bgwriter is None,
            pm.startup is None,
            pm.walwriter is None,
            pm.autovac_launcher is None,
            pm.pgarch is None,
            pm.slotsync_worker is None,
            pm.walreceiver is None,
            pm.walsummarizer is None,
            pm.syslogger is None,
    {
        let mut io: Vec<Option<PmChild>> = Vec::new();
        while io.len() < MAX_IO_WORKERS_USIZE
            invariant
                io@.len() <= MAX_IO_WORKERS_USIZE,
                forall|i: int| 0 <= i < io@.len() ==> (#[trigger] io@[i]) is None,
            decreases MAX_IO_WORKERS_USIZE - io@.len(),
        {
            io.push(None);
        }
        PostmasterState {
            pm_state: PMState::PM_INIT,
            shutdown: NoShutdown,
            conns_allowed: false,
            fatal_error: false,
            abort_start_time: 0,
            lethal_time: 0,
            pm_state_since: 0,
            stall_escalated: false,
            reached_consistency: false,
            startup_status: StartupStatusEnum::NotRunning,
            start_autovac_launcher: false,
            avlauncher_needs_signal: false,
            start_worker_needed: true,
            have_crashed_worker: false,
            wal_receiver_requested: false,
            io_worker_count: 0,
            io_worker_children: io,
            listen_sockets: Vec::new(),
            checkpointer: None,
            bgwriter: None,
            startup: None,
            walwriter: None,
            autovac_launcher: None,
            pgarch: None,
            slotsync_worker: None,
            walreceiver: None,
            walsummarizer: None,
            syslogger: None,
        }
    }

    /// `self` in phase `state`; the clock of the phase restarts on a change.
    pub open spec fn in_state(self, state: PMState, now: i64) -> PostmasterState {
        PostmasterState {
            pm_state: state,
            pm_state_since: if self.pm_state == state { self.pm_state_since } else { now },
            ..self
        }
    }

    /// `self` with nothing left of an earlier crash or stalled shutdown.
    pub open spec fn crash_forgotten(self) -> PostmasterState {
        PostmasterState {
            fatal_error: false,
            abort_start_time: 0,
            lethal_time: 0,
            stall_escalated: false,
            ..self
        }
    }

    /// Forgets an earlier crash or stalled shutdown.
    pub fn forget_crash(&mut self)
        ensures
            *final(self) == old(self).crash_forgotten(),
    {
        self.fatal_error = false;
        self.abort_start_time = 0;
        self.lethal_time = 0;
        self.stall_escalated = false;
    }

    /// Enters phase `state` at second `now`. Only a change restarts the clock
    /// that the stall watchdog measures by.
    pub fn update_pm_state(&mut self, state: PMState, now: i64)
        ensures
            *final(self) == old(self).in_state(state, now),
    {
        if self.pm_state != state {
            self.pm_state_since = now;
        }
        self.pm_state = state;
    }
}

/// The bound on a stalled shutdown: what the environment gives where that is a
/// number that is not negative, else the default.
pub open spec fn stall_secs(env: Option<Seq<char>>) -> int {
    match env {
        Some(v) => match text::parse_signed(text::trimmed(v)) {
            Some(i) => if 0 <= i <= i64::MAX { i } else { PM_SHUTDOWN_STALL_SECS as int },
            None => PM_SHUTDOWN_STALL_SECS as int,
        },
        None => PM_SHUTDOWN_STALL_SECS as int,
    }
}

/// The bound on a stalled shutdown, in seconds; 0 turns the watchdog off.
pub fn pm_shutdown_stall_secs(env: Option<&str>) -> (r: i64)
    ensures
        r == stall_secs(match env {
            Some(v) => Some(v@),
            None => None,
        }),
        r >= 0,
{
    match env {
        Some(v) => match text::parse_i64(text::trim(v)) {
            Some(i) => if i >= 0 {
                i
            } else {
                PM_SHUTDOWN_STALL_SECS
            },
            None => PM_SHUTDOWN_STALL_SECS,
        },
        None => PM_SHUTDOWN_STALL_SECS,
    }
}

/// The requests that signals have raised and nobody has served yet.
#[derive(Clone, Copy, Debug, PartialEq, Eq, Structural)]
pub struct PendingFlags {
    pub shutdown_request: bool,
    pub fast_shutdown_request: bool,
    pub immediate_shutdown_request: bool,
    pub reload_request: bool,
    pub child_exit: bool,
    pub pmsignal: bool,
    /// Whether the supervisor has a latch to wake.
    pub latch_published: bool,
    /// Whether that latch is set.
    pub latch_set: bool,
}

impl PendingFlags {
    /// Nothing pending, no latch yet.
    pub fn new() -> (p: PendingFlags)
        ensures
            p == (PendingFlags {
                shutdown_request: false,
                fast_shutdown_request: false,
                immediate_shutdown_request: false,
                reload_request: false,
                child_exit: false,
                pmsignal: false,
                latch_published: false,
                latch_set: false,
            }),
    {
        PendingFlags {
            shutdown_request: false,
            fast_shutdown_request: false,
            immediate_shutdown_request: false,
            reload_request: false,
            child_exit: false,
            pmsignal: false,
            latch_published: false,
            latch_set: false,
        }
    }

    /// `self` after a wake: the latch is set where there is one.
    pub open spec fn woken(self) -> PendingFlags {
        PendingFlags { latch_set: self.latch_set || self.latch_published, ..self }
    }
}

/// Makes the latch known.
pub fn publish_pm_latch(p: &mut PendingFlags)
    ensures
        *final(p) == (PendingFlags { latch_published: true, ..*old(p) }),
{
    p.latch_published = true;
}

/// Sets the latch, where there is one.
pub fn set_pm_latch(p: &mut PendingFlags)
    ensures
        *final(p) == old(p).woken(),
{
    if p.latch_published {
        p.latch_set = true;
    }
}

/// A backend asked for attention.
pub fn handle_pm_pmsignal_signal(p: &mut PendingFlags, _sig: i32)
    ensures
        *final(p) == (PendingFlags { pmsignal: true, ..*old(p) }).woken(),
{
    p.pmsignal = true;
    set_pm_latch(p);
}

/// A configuration reload was asked for.
pub fn handle_pm_reload_request_signal(p: &mut PendingFlags, _sig: i32)
    ensures
        *final(p) == (PendingFlags { reload_request: true, ..*old(p) }).woken(),
{
    p.reload_request = true;
    set_pm_latch(p);
}

/// The flags after shutdown signal `sig`: SIGTERM asks for a smart shutdown,
/// SIGINT for a fast one, SIGQUIT for an immediate one.
pub open spec fn after_shutdown_signal(p: PendingFlags, sig: i32) -> PendingFlags {
    PendingFlags {
        shutdown_request: p.shutdown_request || sig == SIGTERM || sig == SIGINT || sig == SIGQUIT,
        fast_shutdown_request: p.fast_shutdown_request || sig == SIGINT,
        immediate_shutdown_request: p.immediate_shutdown_request || sig == SIGQUIT,
        ..p
    }.woken()
}

/// A shutdown was asked for.
pub fn handle_pm_shutdown_request_signal(p: &mut PendingFlags, sig: i32)
    ensures
        *final(p) == after_shutdown_signal(*old(p), sig),
{
    if sig == SIGTERM {
        p.shutdown_request = true;
    } else if sig == SIGINT {
        p.fast_shutdown_request = true;
        p.shutdown_request = true;
    } else if sig == SIGQUIT {
        p.immediate_shutdown_request = true;
        p.shutdown_request = true;
    }
    set_pm_latch(p);
}

/// A child has ended.
pub fn handle_pm_child_exit_signal(p: &mut PendingFlags, _sig: i32)
    ensures
        *final(p) == (PendingFlags { child_exit: true, ..*old(p) }).woken(),
{
    p.child_exit = true;
    set_pm_latch(p);
}

/// A request for a fast shutdown raises what SIGINT raises and never asks for
/// an immediate one, which would skip the shutdown checkpoint.
pub proof fn law_fast_shutdown_is_never_immediate(p: PendingFlags)
    ensures
        after_shutdown_signal(p, SIGINT).fast_shutdown_request,
        after_shutdown_signal(p, SIGINT).shutdown_request,
        after_shutdown_signal(p, SIGINT).immediate_shutdown_request == p.immediate_shutdown_request,
        after_shutdown_signal(p, SIGINT).reload_request == p.reload_request,
        after_shutdown_signal(p, SIGINT).child_exit == p.child_exit,
        after_shutdown_signal(p, SIGINT).pmsignal == p.pmsignal,
{
}

/// A shutdown signal never takes back what an earlier one asked for.
pub proof fn law_shutdown_requests_accumulate(p: PendingFlags, sig: i32)
    ensures
        p.shutdown_request ==> after_shutdown_signal(p, sig).shutdown_request,
        p.fast_shutdown_request ==> after_shutdown_signal(p, sig).fast_shutdown_request,
        p.immediate_shutdown_request ==> after_shutdown_signal(p, sig).immediate_shutdown_request,
{
}

} // verus!
