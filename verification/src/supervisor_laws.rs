//! What holds of the supervisor: its phases, the requests it serves, how long
//! it sleeps, whom it lets in, and which children it starts.
use vstd::prelude::*;
use crate::backend_type::BackendType;
use crate::launch_missing;
use crate::launch_missing::{LaunchAction, LaunchConfig, LaunchStage};
use crate::pm_state;
use crate::pm_state::{PMState, PendingFlags, PmChild, PostmasterState};
use crate::pmsignal;
use crate::pmsignal::{PmSignals, PmsignalConfig, PmsignalStage};
use crate::postmaster;
use crate::postmaster::{LogLevel, PmAction, PmLog, PmStatus};
use crate::reload;
use crate::reload::ReloadEvent;
use crate::serverloop;
use crate::serverloop::{CacState, ProbedListener, WaitRegistration, WorkerRow};
use crate::text;

verus! {

/// Whether the phase is one before children are asked to stop.
pub open spec fn is_early(s: PMState) -> bool {
    s == PMState::PM_INIT || s == PMState::PM_STARTUP || s == PMState::PM_RECOVERY || s
        == PMState::PM_HOT_STANDBY || s == PMState::PM_RUN
}

/// The phases before children are asked to stop are those up to the running
/// one; no two phases have the same place in the order.
pub proof fn law_order_of_the_phases(a: PMState, b: PMState)
    ensures
        a.before_stop() <==> is_early(a),
        a.rank() == b.rank() <==> a == b,
        0 <= a.rank() <= 12,
{
}

/// Entering a phase changes nothing but the phase and its clock, which restarts
/// on a change only.
pub proof fn law_entering_a_phase(pm: PostmasterState, state: PMState, now: i64)
    ensures
        ({
            let q = pm.in_state(state, now);
            &&& q.pm_state == state
            &&& q.pm_state_since == if pm.pm_state == state {
                pm.pm_state_since
            } else {
                now
            }
            &&& q.shutdown == pm.shutdown && q.conns_allowed == pm.conns_allowed && q.fatal_error
                == pm.fatal_error && q.startup_status == pm.startup_status
            &&& q.in_state(state, now) == q
        }),
{
}

/// Forgetting a crash leaves no trace of it, and changes nothing else.
pub proof fn law_forgetting_a_crash(pm: PostmasterState)
    ensures
        ({
            let q = pm.crash_forgotten();
            &&& !q.fatal_error && !q.stall_escalated && q.abort_start_time == 0 && q.lethal_time
                == 0
            &&& q.pm_state == pm.pm_state && q.shutdown == pm.shutdown && q.conns_allowed
                == pm.conns_allowed && q.reached_consistency == pm.reached_consistency
        }),
{
}

/// SIGTERM (15) asks for a smart shutdown, SIGINT (2) for a fast one, SIGQUIT
/// (3) for an immediate one, and any other signal for none; all wake the
/// supervisor.
pub proof fn law_shutdown_signals(p: PendingFlags, sig: i32)
    ensures
        ({
            let q = pm_state::after_shutdown_signal(p, sig);
            &&& q.shutdown_request <==> p.shutdown_request || sig == 15 || sig == 2 || sig == 3
            &&& q.fast_shutdown_request <==> p.fast_shutdown_request || sig == 2
            &&& q.immediate_shutdown_request <==> p.immediate_shutdown_request || sig == 3
            &&& q.latch_set <==> p.latch_set || p.latch_published
            &&& q.reload_request == p.reload_request && q.child_exit == p.child_exit && q.pmsignal
                == p.pmsignal && q.latch_published == p.latch_published
        }),
{
}

/// A wake sets the latch where there is one, and takes back nothing.
pub proof fn law_wakes(p: PendingFlags)
    ensures
        p.latch_published ==> p.woken().latch_set,
        !p.latch_published ==> p.woken() == p,
        p.woken().shutdown_request == p.shutdown_request,
        p.woken().child_exit == p.child_exit,
        p.woken().pmsignal == p.pmsignal,
        p.woken().reload_request == p.reload_request,
{
}

/// The bound on a stalled shutdown is the number in the environment, with any
/// white space around it; without one, or with a negative one, it is a minute.
pub proof fn law_stall_bound(a: Seq<char>, n: nat, b: Seq<char>)
    requires
        text::all_white(a),
        text::all_white(b),
    ensures
        pm_state::stall_secs(None) == 60,
        n <= i64::MAX ==> pm_state::stall_secs(Some(a + text::dec(n) + b)) == n,
        n > 0 ==> pm_state::stall_secs(Some(text::dec_int(-(n as int)))) == 60,
{
    let d = text::dec(n);
    text::law_numerals_read_back(n);
    assert(text::is_digit(d[0]));
    assert(text::is_digit(d[d.len() - 1]));
    text::law_trimming_takes_white_space_off(a, d, b);
    assert(text::dec_int(n as int) == d);
    if n > 0 {
        let m = text::dec_int(-(n as int));
        assert(m.last() == d.last());
        assert(Seq::<char>::empty() + m + Seq::<char>::empty() =~= m);
        text::law_trimming_takes_white_space_off(Seq::empty(), m, Seq::empty());
    }
}

/// What a backend reports of recovery counts only in the phase it belongs to,
/// and only while no shutdown is on.
pub proof fn law_recovery_reports(
    pm: PostmasterState,
    s: PmSignals,
    cfg: PmsignalConfig,
    now: i64,
)
    ensures
        ({
            let out = pmsignal::pmsignal_step(pm, s, cfg, PmsignalStage::Begin, now);
            let taken = s.recovery_started && pm.pm_state == PMState::PM_STARTUP && pm.shutdown
                == 0;
            &&& out.next == PmsignalStage::EnterRecovery <==> taken
            &&& !taken ==> out.next == PmsignalStage::Consistency && out.pm == pm
            &&& taken ==> !out.pm.fatal_error && !out.pm.reached_consistency
                && out.pm.abort_start_time == 0 && out.pm.lethal_time == 0
            &&& out.actions.contains(PmAction::StartChild(BackendType::Archiver)) <==> taken
                && cfg.archive_mode >= 2
            &&& out.actions.contains(
                PmAction::AddToDataDirLockFile { line: 8, status: PmStatus::Standby },
            ) <==> taken && !cfg.enable_hot_standby
            &&& out.signals == (PmSignals { recovery_started: false, ..s })
        }),
        ({
            let out = pmsignal::pmsignal_step(pm, s, cfg, PmsignalStage::EnterRecovery, now);
            &&& out.pm.pm_state == PMState::PM_RECOVERY
            &&& out.next == PmsignalStage::Consistency
            &&& out.actions.len() == 0
            &&& out.signals == s
        }),
{
    lemma_contains();
}

proof fn lemma_contains()
    ensures
        forall|s: Seq<PmAction>, t: Seq<PmAction>, a: PmAction|
            #[trigger] (s + t).contains(a) <==> s.contains(a) || t.contains(a),
        forall|c: bool, x: PmAction, a: PmAction|
            #[trigger] postmaster::when(c, x).contains(a) <==> c && a == x,
        forall|a: PmAction| !(#[trigger] Seq::<PmAction>::empty().contains(a)),
{
    assert forall|s: Seq<PmAction>, t: Seq<PmAction>, a: PmAction| #[trigger]
        (s + t).contains(a) <==> s.contains(a) || t.contains(a) by {
        if s.contains(a) {
            let k = choose|k: int| 0 <= k < s.len() && s[k] == a;
            assert((s + t)[k] == a);
        }
        if t.contains(a) {
            let k = choose|k: int| 0 <= k < t.len() && t[k] == a;
            assert((s + t)[s.len() + k] == a);
        }
    }
    assert forall|c: bool, x: PmAction, a: PmAction| #[trigger]
        postmaster::when(c, x).contains(a) <==> c && a == x by {
        if c {
            assert(postmaster::when(c, x)[0] == x);
        }
    }
}

/// In recovery, and while no shutdown is on, a report of consistency is noted,
/// and hot standby begins where that is asked for: it is told, shown in the
/// lock file, and then connections are let in.
pub proof fn law_hot_standby_begins(
    pm: PostmasterState,
    s: PmSignals,
    cfg: PmsignalConfig,
    now: i64,
)
    ensures
        ({
            let out = pmsignal::pmsignal_step(pm, s, cfg, PmsignalStage::Consistency, now);
            let here = pm.pm_state == PMState::PM_RECOVERY && pm.shutdown == 0;
            let begins = s.begin_hot_standby && here;
            &&& out.pm.reached_consistency <==> pm.reached_consistency || (s.recovery_consistent
                && here)
            &&& out.pm.pm_state == pm.pm_state && out.pm.conns_allowed == pm.conns_allowed
            &&& out.next == if begins {
                PmsignalStage::EnterHotStandby
            } else {
                PmsignalStage::Workers
            }
            &&& begins ==> out.actions =~= seq![
                PmAction::Log(LogLevel::Log, PmLog::ReadyReadOnly),
                PmAction::AddToDataDirLockFile { line: 8, status: PmStatus::Ready },
            ]
            &&& !begins ==> out.actions.len() == 0
            &&& out.signals == (PmSignals {
                recovery_consistent: false,
                begin_hot_standby: false,
                ..s
            })
        }),
        ({
            let out = pmsignal::pmsignal_step(pm, s, cfg, PmsignalStage::EnterHotStandby, now);
            &&& out.pm.pm_state == PMState::PM_HOT_STANDBY
            &&& out.pm.conns_allowed
            &&& out.next == PmsignalStage::Workers
            &&& out.signals == s
            &&& out.actions.len() == 0
        }),
{
}

/// A change of background workers is passed on, with whether new ones may still
/// start, and has them looked at. Where a logger runs, a request to rotate its
/// file is looked for; it is told once, whoever asked.
pub proof fn law_workers_and_log_rotation(
    pm: PostmasterState,
    s: PmSignals,
    cfg: PmsignalConfig,
    now: i64,
    found: bool,
)
    ensures
        ({
            let out = pmsignal::pmsignal_step(pm, s, cfg, PmsignalStage::Workers, now);
            &&& out.actions.contains(PmAction::BackgroundWorkerStateChange(is_early(pm.pm_state)))
                <==> s.background_worker_change
            &&& !out.actions.contains(
                PmAction::BackgroundWorkerStateChange(!is_early(pm.pm_state)),
            )
            &&& out.actions.contains(PmAction::CheckLogrotate) <==> pm.syslogger is Some
            &&& out.pm.start_worker_needed <==> pm.start_worker_needed
                || s.background_worker_change
            &&& out.next == if pm.syslogger is Some {
                PmsignalStage::Logrotate(false)
            } else {
                PmsignalStage::Requests
            }
            &&& out.signals == (PmSignals { background_worker_change: false, ..s })
            &&& out.pm.pm_state == pm.pm_state && out.pm.shutdown == pm.shutdown
        }),
        ({
            let out = pmsignal::pmsignal_step(pm, s, cfg, PmsignalStage::Logrotate(found), now);
            &&& out.actions =~= if found {
                seq![PmAction::SignalLogger(10), PmAction::RemoveLogrotateFiles]
            } else if s.rotate_logfile {
                seq![PmAction::SignalLogger(10)]
            } else {
                Seq::empty()
            }
            &&& !found ==> !out.signals.rotate_logfile
            &&& out.pm == pm
            &&& out.next == PmsignalStage::Requests
        }),
{
    lemma_contains();
}

/// Autovacuum is started on request only before children are asked to stop, and
/// in no fast or immediate shutdown; a request for a WAL receiver is kept in
/// any case.
pub proof fn law_requests_of_backends(
    pm: PostmasterState,
    s: PmSignals,
    cfg: PmsignalConfig,
    now: i64,
)
    ensures
        ({
            let out = pmsignal::pmsignal_step(pm, s, cfg, PmsignalStage::Requests, now);
            let allowed = pm.shutdown <= 1 && is_early(pm.pm_state);
            &&& out.pm.start_autovac_launcher <==> pm.start_autovac_launcher || (
            s.start_autovac_launcher && allowed)
            &&& out.pm.wal_receiver_requested <==> pm.wal_receiver_requested || s.start_walreceiver
            &&& s.start_autovac_worker && allowed ==> out.actions =~= seq![
                PmAction::StartAutovacuumWorker,
            ]
            &&& !(s.start_autovac_worker && allowed) ==> out.actions.len() == 0
            &&& out.pm.pm_state == pm.pm_state && out.pm.shutdown == pm.shutdown
            &&& out.next == PmsignalStage::XlogShutdown
            &&& out.signals == (PmSignals {
                start_autovac_launcher: false,
                start_autovac_worker: false,
                start_walreceiver: false,
                ..s
            })
        }),
{
}

/// The end of the WAL, when it is waited for, leads to archiving: the archiver
/// and the WAL senders are told to finish. Otherwise it is a crash, unless one
/// or an immediate shutdown is under way. In any case the state machine runs.
pub proof fn law_end_of_the_wal(
    pm: PostmasterState,
    s: PmSignals,
    cfg: PmsignalConfig,
    now: i64,
    requested: bool,
)
    ensures
        ({
            let out = pmsignal::pmsignal_step(pm, s, cfg, PmsignalStage::XlogShutdown, now);
            let due = s.xlog_is_shutdown && pm.pm_state == PMState::PM_WAIT_XLOG_SHUTDOWN;
            let crash = s.xlog_is_shutdown && !due && !pm.fatal_error && pm.shutdown != 3;
            &&& out.pm.pm_state == if due {
                PMState::PM_WAIT_XLOG_ARCHIVAL
            } else {
                pm.pm_state
            }
            &&& due && pm.pgarch is Some ==> out.actions.contains(
                PmAction::SignalChild { child: pm.pgarch->0, sig: 12 },
            )
            &&& due ==> out.actions.last() == (PmAction::SignalChildren {
                sig: 12,
                mask: 1u32 << BackendType::WalSender.idx(),
            }) && out.actions.len() == if pm.pgarch is Some {
                2int
            } else {
                1
            }
            &&& crash ==> out.actions =~= seq![
                PmAction::Log(LogLevel::Log, PmLog::WalShutDownUnexpectedly),
                PmAction::HandleFatalError { consider_sigabrt: false },
            ]
            &&& !due && !crash ==> out.actions.len() == 0
            &&& out.next == PmsignalStage::Advance(s.xlog_is_shutdown)
            &&& out.signals == (PmSignals { xlog_is_shutdown: false, ..s })
        }),
        ({
            let out = pmsignal::pmsignal_step(pm, s, cfg, PmsignalStage::Advance(requested), now);
            &&& requested || s.advance_state_machine ==> out.actions =~= seq![
                PmAction::RunStateMachine,
            ]
            &&& !requested && !s.advance_state_machine ==> out.actions.len() == 0
            &&& out.pm == pm
            &&& out.signals == (PmSignals { advance_state_machine: false, ..s })
            &&& out.next == PmsignalStage::Promote
        }),
{
    let out = pmsignal::pmsignal_step(pm, s, cfg, PmsignalStage::XlogShutdown, now);
    if s.xlog_is_shutdown && pm.pm_state == PMState::PM_WAIT_XLOG_SHUTDOWN && pm.pgarch is Some {
        assert(out.actions[0] == (PmAction::SignalChild { child: pm.pgarch->0, sig: 12 }));
    }
}

/// A request to promote is looked for only while the recovery child recovers,
/// and is passed on to that child.
pub proof fn law_promotion(
    pm: PostmasterState,
    s: PmSignals,
    cfg: PmsignalConfig,
    now: i64,
    found: bool,
)
    ensures
        ({
            let out = pmsignal::pmsignal_step(pm, s, cfg, PmsignalStage::Promote, now);
            let looks = pm.startup is Some && (pm.pm_state == PMState::PM_STARTUP || pm.pm_state
                == PMState::PM_RECOVERY || pm.pm_state == PMState::PM_HOT_STANDBY);
            &&& looks ==> out.actions =~= seq![PmAction::CheckPromote] && out.next
                == PmsignalStage::PromoteFound(false)
            &&& !looks ==> out.actions.len() == 0 && out.next == PmsignalStage::Done
            &&& out.pm == pm && out.signals == s
        }),
        ({
            let out = pmsignal::pmsignal_step(pm, s, cfg, PmsignalStage::PromoteFound(found), now);
            &&& found && pm.startup is Some ==> out.actions =~= seq![
                PmAction::SignalChild { child: pm.startup->0, sig: 12 },
            ]
            &&& !found || pm.startup is None ==> out.actions.len() == 0
            &&& out.next == PmsignalStage::Done
            &&& out.pm == pm && out.signals == s
        }),
{
}

/// A reload always retires the parked threads. Unless a fast or immediate
/// shutdown is on, the configuration is read, published, and told to the
/// children and to the logger, in this order, before the files on access are
/// read again.
pub proof fn law_reload_order(pm: PostmasterState, mask: u32)
    ensures
        ({
            let a = reload::reload_actions(pm, ReloadEvent::Requested, mask);
            let n = a.len() as int;
            &&& a[0] == PmAction::Log(LogLevel::Debug2, PmLog::ReloadSignalReceived)
            &&& a[1] == PmAction::FlushWorkerPool
            &&& pm.shutdown > 1 ==> n == 2
            &&& pm.shutdown <= 1 ==> {
                &&& n == if pm.syslogger is Some {
                    8int
                } else {
                    7
                }
                &&& a[2] == PmAction::Log(LogLevel::Log, PmLog::Reloading)
                &&& a[3] == PmAction::ProcessConfigFile
                &&& a[4] == PmAction::PublishConfigBase
                &&& a[5] == PmAction::SignalChildren { sig: 1, mask }
                &&& pm.syslogger is Some ==> a[6] == PmAction::SignalLogger(1)
                &&& a[n - 1] == PmAction::LoadHba
            }
        }),
{
}

/// After the files on access come the names of users, then TLS; what could not
/// be read is told, and nothing stops the reload.
pub proof fn law_reload_goes_on(pm: PostmasterState, mask: u32, ok: bool, ssl: bool, rc: i32)
    ensures
        ({
            let a = reload::reload_actions(pm, ReloadEvent::HbaLoaded(ok), mask);
            &&& a.last() == PmAction::LoadIdent
            &&& a.len() == if ok {
                1int
            } else {
                2
            }
            &&& !ok ==> a[0] == PmAction::Log(LogLevel::Log, PmLog::HbaNotReloaded)
        }),
        ({
            let a = reload::reload_actions(
                pm,
                ReloadEvent::IdentLoaded { ok, enable_ssl: ssl },
                mask,
            );
            let h = if ok {
                0int
            } else {
                1
            };
            &&& !ok ==> a[0] == PmAction::Log(LogLevel::Log, PmLog::IdentNotReloaded)
            &&& ssl ==> a.len() == h + 1 && a[h] == PmAction::SecureInitialize
            &&& !ssl ==> a.len() == h + 2 && a[h] == PmAction::SecureDestroy && a[h + 1]
                == PmAction::SetLoadedSsl(false)
        }),
        ({
            let a = reload::reload_actions(pm, ReloadEvent::SslInitialized(rc), mask);
            &&& a.len() == 1
            &&& a[0] == if rc == 0 {
                PmAction::SetLoadedSsl(true)
            } else {
                PmAction::Log(LogLevel::Log, PmLog::SslNotReloaded)
            }
        }),
{
}

/// A connection is let in exactly in the running phases, a client's only while
/// connections are allowed. Otherwise it is told why not: a shutdown before
/// anything else, then starting up, then recovery.
pub proof fn law_who_may_connect(pm: PostmasterState, kind: BackendType)
    ensures
        ({
            let c = serverloop::cac(pm, kind);
            let runs = pm.pm_state == PMState::PM_RUN || pm.pm_state == PMState::PM_HOT_STANDBY;
            &&& c == CacState::Okay <==> runs && (pm.conns_allowed || kind != BackendType::Backend)
            &&& c == CacState::Shutdown <==> (!runs && pm.shutdown > 0) || (runs
                && !pm.conns_allowed && kind == BackendType::Backend)
            &&& c == CacState::Startup <==> pm.shutdown <= 0 && !pm.fatal_error && pm.pm_state
                == PMState::PM_STARTUP
            &&& c == CacState::NotHotStandby <==> pm.shutdown <= 0 && !pm.fatal_error && pm.pm_state
                == PMState::PM_RECOVERY
            &&& c != CacState::TooMany
        }),
{
}

/// Nothing is accepted once a shutdown is asked for or on, or a crash is dealt
/// with.
pub proof fn law_when_a_shutdown_is_pending(pm: PostmasterState, p: PendingFlags)
    ensures
        serverloop::shutdown_pending(pm, p) <==> p.shutdown_request || pm.shutdown != 0
            || pm.fatal_error,
{
}

/// A stalled shutdown is watched for in the phases that wait for children,
/// except the one that waits for the shutdown checkpoint; once, in a smart or
/// fast shutdown, without a crash, and where the bound is not 0.
pub proof fn law_where_stalls_are_watched(
    shutdown: i32,
    fatal_error: bool,
    escalated: bool,
    state: PMState,
    since: i64,
    bound: i64,
)
    ensures
        serverloop::stall_armed(shutdown, fatal_error, escalated, state, since, bound) <==> (bound
            != 0 && since != 0 && !escalated && !fatal_error && (shutdown == 1 || shutdown == 2)
            && (state == PMState::PM_STOP_BACKENDS || state == PMState::PM_WAIT_BACKENDS || state
            == PMState::PM_WAIT_XLOG_ARCHIVAL || state == PMState::PM_WAIT_IO_WORKERS || state
            == PMState::PM_WAIT_DEAD_END || state == PMState::PM_WAIT_CHECKPOINTER)),
{
}

/// The supervisor wakes five seconds after it has asked children to die, eight
/// after it has killed them, when a stall is due, and after a minute at the
/// latest.
pub proof fn law_timers_wake_in_time(pm: PostmasterState, now: i64, bound: i64)
    ensures
        ({
            let ms = serverloop::timer_sleep(pm, now, bound);
            &&& pm.abort_start_time != 0 && now - pm.abort_start_time <= 5 ==> now * 1000 + ms
                == (pm.abort_start_time + 5) * 1000
            &&& pm.abort_start_time != 0 && now - pm.abort_start_time > 5 ==> ms == 0
            &&& pm.abort_start_time == 0 && pm.lethal_time != 0 && now - pm.lethal_time <= 8 ==> now
                * 1000 + ms == (pm.lethal_time + 8) * 1000
            &&& pm.abort_start_time == 0 && pm.lethal_time != 0 && now - pm.lethal_time > 8 ==> ms
                == 0
            &&& pm.abort_start_time == 0 && pm.lethal_time == 0 ==> ms <= 60000
            &&& pm.abort_start_time == 0 && pm.lethal_time == 0 && serverloop::stall_armed(
                pm.shutdown,
                pm.fatal_error,
                pm.stall_escalated,
                pm.pm_state,
                pm.pm_state_since,
                bound,
            ) ==> (ms == 60000 || ms == 0 || now * 1000 + ms == (pm.pm_state_since + bound) * 1000)
                && (ms == 0 ==> now >= pm.pm_state_since + bound)
        }),
{
}

/// Whether a crashed worker is to come back.
pub open spec fn comes_back(r: WorkerRow) -> bool {
    r.crashed_at != 0 && r.restart_time != -1 && !r.terminate
}

/// When a crashed worker is to come back, in microseconds.
pub open spec fn back_at(r: WorkerRow) -> int {
    r.crashed_at + r.restart_time * 1_000_000
}

/// The next wake-up for a worker is that of a worker that is to come back, and
/// none of those comes back earlier.
pub proof fn law_next_wakeup_is_the_earliest(rows: Seq<WorkerRow>)
    requires
        forall|i: int| 0 <= i < rows.len() && comes_back(#[trigger] rows[i]) ==> back_at(rows[i]) != 0,
    ensures
        ({
            let w = serverloop::next_wakeup(rows);
            &&& w == 0 <==> forall|i: int| 0 <= i < rows.len() ==> !comes_back(#[trigger] rows[i])
            &&& w != 0 ==> exists|i: int|
                0 <= i < rows.len() && comes_back(#[trigger] rows[i]) && back_at(rows[i]) == w
            &&& forall|i: int|
                0 <= i < rows.len() && comes_back(#[trigger] rows[i]) ==> w <= back_at(rows[i])
        }),
    decreases rows.len(),
{
    if rows.len() > 0 {
        let t = rows.drop_last();
        assert forall|i: int| 0 <= i < t.len() && comes_back(#[trigger] t[i]) implies back_at(t[i])
            != 0 by {
            assert(t[i] == rows[i]);
        }
        law_next_wakeup_is_the_earliest(t);
        let w = serverloop::next_wakeup(rows);
        let v = serverloop::next_wakeup(t);
        let last = rows[rows.len() - 1];
        assert(last.restartable() <==> comes_back(last));
        assert(last.wakeup() == back_at(last));
        if v != 0 {
            let i = choose|i: int|
                0 <= i < t.len() && comes_back(#[trigger] t[i]) && back_at(t[i]) == v;
            assert(rows[i] == t[i]);
            assert(comes_back(rows[i]) && back_at(rows[i]) == v);
        }
        assert forall|i: int| 0 <= i < rows.len() && comes_back(#[trigger] rows[i]) implies w
            <= back_at(rows[i]) && w != 0 by {
            if i < t.len() {
                assert(t[i] == rows[i]);
            }
        }
        if w == 0 {
            assert forall|i: int| 0 <= i < rows.len() implies !comes_back(#[trigger] rows[i]) by {
                if i < t.len() {
                    assert(t[i] == rows[i]);
                }
            }
        }
    }
}

/// The workers that are forgotten are those that crashed and are not to come
/// back, each once and in order.
pub proof fn law_who_is_forgotten(rows: Seq<WorkerRow>)
    requires
        rows.len() <= usize::MAX,
    ensures
        ({
            let f = serverloop::forgotten(rows);
            &&& forall|k: int|
                0 <= k < f.len() ==> #[trigger] f[k] < rows.len() && rows[f[k] as int].crashed_at
                    != 0 && !comes_back(rows[f[k] as int])
            &&& forall|i: int|
                0 <= i < rows.len() && (#[trigger] rows[i]).crashed_at != 0 && !comes_back(rows[i])
                    ==> f.contains(i as usize)
            &&& forall|j: int, k: int| 0 <= j < k < f.len() ==> #[trigger] f[j] < #[trigger] f[k]
        }),
    decreases rows.len(),
{
    if rows.len() > 0 {
        let t = rows.drop_last();
        law_who_is_forgotten(t);
        let a = serverloop::forgotten(t);
        let f = serverloop::forgotten(rows);
        assert forall|k: int| 0 <= k < f.len() implies #[trigger] f[k] < rows.len()
            && rows[f[k] as int].crashed_at != 0 && !comes_back(rows[f[k] as int]) by {
            if k < a.len() {
                assert(f[k] == a[k]);
                assert(t[a[k] as int] == rows[a[k] as int]);
            }
        }
        assert forall|i: int| 0 <= i < rows.len() && (#[trigger] rows[i]).crashed_at != 0
            && !comes_back(rows[i]) implies f.contains(i as usize) by {
            if i < t.len() {
                assert(t[i] == rows[i]);
                let k = choose|k: int| 0 <= k < a.len() && a[k] == i as usize;
                assert(f[k] == i as usize);
            } else {
                assert(f[a.len() as int] == i as usize);
            }
        }
        assert forall|j: int, k: int| 0 <= j < k < f.len() implies #[trigger] f[j]
            < #[trigger] f[k] by {
            assert(f[j] == a[j]);
            if k < a.len() {
                assert(f[k] == a[k]);
            }
        }
    }
}

/// With workers to start at once the supervisor does not sleep; else it sleeps
/// until the next crashed worker is due, rounded down to milliseconds, and a
/// minute at most.
pub proof fn law_workers_wake_in_time(pm: PostmasterState, rows: Seq<WorkerRow>, now_us: i64)
    ensures
        ({
            let ms = serverloop::worker_sleep(pm, rows, now_us);
            let w = serverloop::next_wakeup(rows);
            &&& pm.start_worker_needed ==> ms == 0
            &&& !pm.start_worker_needed && w == 0 ==> ms == 60000
            &&& !pm.start_worker_needed && w != 0 && w <= now_us ==> ms == 0
            &&& !pm.start_worker_needed && w != 0 && w > now_us && ms < 60000 ==> now_us + ms * 1000
                <= w < now_us + ms * 1000 + 1000
            &&& !pm.start_worker_needed && w != 0 && ms == 60000 ==> w >= now_us + 60_000_000
        }),
        serverloop::sleeps_by_timers(pm) <==> pm.shutdown > 0 || !(pm.start_worker_needed
            || pm.have_crashed_worker),
{
}

/// Looking at the listeners gives the latch first, where it is set, then every
/// listener that has a connection, in order, as far as there is room; nothing
/// of the listeners while none is accepted.
pub proof fn law_events_of_a_wait(latch_set: bool, fds: Seq<ProbedListener>, n: nat, room: int)
    requires
        n <= fds.len(),
        room > n,
    ensures
        ({
            let ready = fds.take(n as int).filter(|l: ProbedListener| l.readable);
            let head: Seq<WaitRegistration> = if latch_set {
                seq![WaitRegistration::Latch]
            } else {
                Seq::empty()
            };
            &&& serverloop::probed(latch_set, true, fds, n, room) =~= head + ready.map_values(
                |l: ProbedListener| WaitRegistration::Accept(l.fd),
            )
            &&& serverloop::probed(latch_set, false, fds, n, room) =~= head
            &&& ready.len() <= n
        }),
    decreases n,
{
    reveal(Seq::filter);
    let f = |l: ProbedListener| l.readable;
    let g = |l: ProbedListener| WaitRegistration::Accept(l.fd);
    if n > 0 {
        law_events_of_a_wait(latch_set, fds, (n - 1) as nat, room);
        let t = fds.take(n as int);
        assert(t.drop_last() =~= fds.take(n - 1));
        assert(t.last() == fds[n - 1]);
        let a = fds.take(n - 1).filter(f);
        if fds[n - 1].readable {
            assert(t.filter(f) =~= a.push(fds[n - 1]));
            assert(a.push(fds[n - 1]).map_values(g) =~= a.map_values(g).push(g(fds[n - 1])));
        }
    } else {
        assert(fds.take(0) =~= Seq::empty());
    }
}

/// A child is asked for exactly where it is missing and its phase is on: the
/// logger always, checkpointer and background writer from startup on, the WAL
/// writer and autovacuum once the server runs.
pub proof fn law_which_children_are_started(pm: PostmasterState, cfg: LaunchConfig)
    ensures
        ({
            let (a, next) = launch_missing::launch_step(pm, cfg, LaunchStage::Logger);
            &&& a == LaunchAction::StartSysLogger <==> pm.syslogger is None
                && cfg.logging_collector
            &&& next == LaunchStage::IoWorkers
        }),
        launch_missing::launch_step(pm, cfg, LaunchStage::IoWorkers) == (
            LaunchAction::AdjustIoWorkers,
            LaunchStage::Checkpointer,
        ),
        ({
            let (a, next) = launch_missing::launch_step(pm, cfg, LaunchStage::Checkpointer);
            &&& a == LaunchAction::StartChild(BackendType::Checkpointer) <==> pm.checkpointer is None
                && is_early(pm.pm_state) && pm.pm_state != PMState::PM_INIT
            &&& next == LaunchStage::BgWriter
        }),
        ({
            let (a, next) = launch_missing::launch_step(pm, cfg, LaunchStage::BgWriter);
            &&& a == LaunchAction::StartChild(BackendType::BgWriter) <==> pm.bgwriter is None
                && is_early(pm.pm_state) && pm.pm_state != PMState::PM_INIT
            &&& next == LaunchStage::WalWriter
        }),
        ({
            let (a, next) = launch_missing::launch_step(pm, cfg, LaunchStage::WalWriter);
            &&& a == LaunchAction::StartChild(BackendType::WalWriter) <==> pm.walwriter is None
                && pm.pm_state == PMState::PM_RUN
            &&& next == LaunchStage::Autovac
        }),
        ({
            let (a, next) = launch_missing::launch_step(pm, cfg, LaunchStage::Autovac);
            &&& a == LaunchAction::StartChild(BackendType::AutovacLauncher)
                <==> pm.autovac_launcher is None && pm.pm_state == PMState::PM_RUN
                && !cfg.binary_upgrade && (cfg.autovacuuming_active || pm.start_autovac_launcher)
            &&& next == LaunchStage::Archiver
        }),
{
}

/// The archiver runs with the server where archiving is on, and in recovery and
/// hot standby where it is always on; the slot sync worker in hot standby only.
/// Both are started only where enough time has passed.
pub proof fn law_restarts_are_spaced(pm: PostmasterState, cfg: LaunchConfig, ok: bool)
    ensures
        ({
            let wanted = pm.pgarch is None && ((cfg.archive_mode >= 1 && pm.pm_state
                == PMState::PM_RUN) || (cfg.archive_mode >= 2 && (pm.pm_state
                == PMState::PM_RECOVERY || pm.pm_state == PMState::PM_HOT_STANDBY)));
            let (a, next) = launch_missing::launch_step(pm, cfg, LaunchStage::Archiver);
            let (b, last) = launch_missing::launch_step(
                pm,
                cfg,
                LaunchStage::ArchiverMayRestart(ok),
            );
            &&& a == LaunchAction::CheckArchiverRestart <==> wanted
            &&& next == if wanted {
                LaunchStage::ArchiverMayRestart(false)
            } else {
                LaunchStage::SlotSync
            }
            &&& b == LaunchAction::StartChild(BackendType::Archiver) <==> wanted && ok
            &&& last == LaunchStage::SlotSync
        }),
        ({
            let wanted = pm.slotsync_worker is None && pm.pm_state == PMState::PM_HOT_STANDBY
                && pm.shutdown <= 1 && cfg.sync_replication_slots;
            let (a, next) = launch_missing::launch_step(pm, cfg, LaunchStage::SlotSync);
            let (b, last) = launch_missing::launch_step(
                pm,
                cfg,
                LaunchStage::SlotSyncMayRestart(ok),
            );
            &&& a == LaunchAction::CheckSlotSyncRestart <==> wanted
            &&& next == if wanted {
                LaunchStage::SlotSyncMayRestart(false)
            } else {
                LaunchStage::WalReceiver
            }
            &&& b == LaunchAction::StartChild(BackendType::SlotsyncWorker) <==> wanted && ok
            &&& last == LaunchStage::WalReceiver
        }),
{
}

/// A WAL receiver is started on request while recovering, a WAL summarizer
/// where it is configured and the server serves; neither in a fast or immediate
/// shutdown. Then workers that wait are started, and without a shutdown or a
/// crash the pool is looked after.
pub proof fn law_last_steps_of_starting(pm: PostmasterState, cfg: LaunchConfig)
    ensures
        ({
            let (a, next) = launch_missing::launch_step(pm, cfg, LaunchStage::WalReceiver);
            &&& a == LaunchAction::StartChild(BackendType::WalReceiver)
                <==> pm.wal_receiver_requested && pm.walreceiver is None && pm.shutdown <= 1 && (
            pm.pm_state == PMState::PM_STARTUP || pm.pm_state == PMState::PM_RECOVERY
                || pm.pm_state == PMState::PM_HOT_STANDBY)
            &&& next == LaunchStage::WalSummarizer
        }),
        ({
            let (a, next) = launch_missing::launch_step(pm, cfg, LaunchStage::WalSummarizer);
            &&& a == LaunchAction::StartChild(BackendType::WalSummarizer) <==> cfg.summarize_wal
                && pm.walsummarizer is None && pm.shutdown <= 1 && (pm.pm_state == PMState::PM_RUN
                || pm.pm_state == PMState::PM_HOT_STANDBY)
            &&& next == LaunchStage::Workers
        }),
        ({
            let (a, next) = launch_missing::launch_step(pm, cfg, LaunchStage::Workers);
            &&& a == LaunchAction::StartBgworkers <==> pm.start_worker_needed
                || pm.have_crashed_worker
            &&& next == LaunchStage::Pool
        }),
        ({
            let (a, next) = launch_missing::launch_step(pm, cfg, LaunchStage::Pool);
            &&& a == LaunchAction::MaintainPool <==> pm.shutdown == 0 && !pm.fatal_error
            &&& next == LaunchStage::Done
        }),
{
}

/// The child that was started is held under its kind, and no other kind's child
/// changes. A request that it answers is forgotten exactly where the start
/// succeeded.
pub proof fn law_started_child_is_held(
    pm: PostmasterState,
    kind: BackendType,
    child: Option<PmChild>,
    other: BackendType,
)
    requires
        kind == BackendType::Checkpointer || kind == BackendType::BgWriter || kind
            == BackendType::Startup || kind == BackendType::WalWriter || kind
            == BackendType::AutovacLauncher || kind == BackendType::Archiver || kind
            == BackendType::SlotsyncWorker || kind == BackendType::WalReceiver || kind
            == BackendType::WalSummarizer || kind == BackendType::Logger,
    ensures
        ({
            let q = launch_missing::with_started(pm, kind, child);
            &&& launch_missing::named_child(q, kind) == child
            &&& other != kind ==> launch_missing::named_child(q, other)
                == launch_missing::named_child(pm, other)
            &&& q.start_autovac_launcher <==> pm.start_autovac_launcher && !(kind
                == BackendType::AutovacLauncher && child is Some)
            &&& q.wal_receiver_requested <==> pm.wal_receiver_requested && !(kind
                == BackendType::WalReceiver && child is Some)
            &&& q.pm_state == pm.pm_state && q.shutdown == pm.shutdown && q.io_worker_children
                == pm.io_worker_children
        }),
{
}

/// The slots taken are those that hold a child.
pub proof fn law_slots_taken(slots: Seq<Option<PmChild>>)
    ensures
        launch_missing::occupied(slots) == slots.filter(|c: Option<PmChild>| c is Some).len(),
    decreases slots.len(),
{
    reveal(Seq::filter);
    if slots.len() > 0 {
        law_slots_taken(slots.drop_last());
    }
}

} // verus!
