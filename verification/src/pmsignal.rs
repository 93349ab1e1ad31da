//! Serving the requests that backends raise to the supervisor.
use vstd::prelude::*;
use crate::backend_type::BackendType;
use crate::btmask;
use crate::pm_state::{PMState, PendingFlags, PostmasterState};
use crate::pm_state::{
    ImmediateShutdown, NoShutdown, SmartShutdown, LOCK_FILE_LINE_PM_STATUS, SIGUSR1, SIGUSR2,
};
use crate::postmaster::{push_when, LogLevel, PmAction, PmLog, PmStatus};

verus! {

/// The reasons a backend can give; each is served once and then forgotten.
#[derive(Clone, Copy, Debug, PartialEq, Eq, Structural)]
pub struct PmSignals {
    pub recovery_started: bool,
    pub recovery_consistent: bool,
    pub begin_hot_standby: bool,
    pub background_worker_change: bool,
    pub rotate_logfile: bool,
    pub start_autovac_launcher: bool,
    pub start_autovac_worker: bool,
    pub start_walreceiver: bool,
    pub xlog_is_shutdown: bool,
    pub advance_state_machine: bool,
}

/// The settings that decide here.
#[derive(Clone, Copy, Debug, PartialEq, Eq, Structural)]
pub struct PmsignalConfig {
    /// 0 off, 1 on, 2 always.
    pub archive_mode: i32,
    pub enable_hot_standby: bool,
}

/// How far the pass has come, with what the outside reported last.
#[derive(Clone, Copy, Debug, PartialEq, Eq, Structural)]
pub enum PmsignalStage {
    Begin,
    EnterRecovery,
    Consistency,
    EnterHotStandby,
    Workers,
    /// The outside looked for a request to rotate the log.
    Logrotate(bool),
    Requests,
    XlogShutdown,
    Advance(bool),
    Promote,
    /// The outside looked for a request to promote.
    PromoteFound(bool),
    Done,
}

/// What one step of the pass makes of everything.
pub ghost struct PmsignalOut {
    pub pm: PostmasterState,
    pub signals: PmSignals,
    pub actions: Seq<PmAction>,
    pub next: PmsignalStage,
}

/// Whether recovery reports count: no shutdown is on.
pub open spec fn recovering(pm: PostmasterState, state: PMState) -> bool {
    pm.pm_state == state && pm.shutdown == NoShutdown
}

/// Whether autovacuum may still be started.
pub open spec fn autovac_allowed(pm: PostmasterState) -> bool {
    pm.shutdown <= SmartShutdown && pm.pm_state.before_stop()
}

/// Whether the recovery child is there and still recovering.
pub open spec fn promotable(pm: PostmasterState) -> bool {
    pm.startup is Some && (pm.pm_state == PMState::PM_STARTUP || pm.pm_state == PMState::PM_RECOVERY
        || pm.pm_state == PMState::PM_HOT_STANDBY)
}

/// The step from `stage`.
pub open spec fn pmsignal_step(
    pm: PostmasterState,
    s: PmSignals,
    cfg: PmsignalConfig,
    stage: PmsignalStage,
    now: i64,
) -> PmsignalOut {
    match stage {
        PmsignalStage::Begin => {
            let signals = PmSignals { recovery_started: false, ..s };
            let taken = s.recovery_started && recovering(pm, PMState::PM_STARTUP);
            PmsignalOut {
                pm: if taken {
                    PostmasterState { reached_consistency: false, ..pm.crash_forgotten() }
                } else {
                    pm
                },
                signals,
                actions: Seq::empty() + crate::postmaster::when(true, PmAction::Log(LogLevel::Debug2, PmLog::PmsignalReceived))
                    + crate::postmaster::when(taken && cfg.archive_mode >= 2, PmAction::StartChild(BackendType::Archiver))
                    + crate::postmaster::when(
                    taken && !cfg.enable_hot_standby,
                    PmAction::AddToDataDirLockFile {
                        line: LOCK_FILE_LINE_PM_STATUS,
                        status: PmStatus::Standby,
                    },
                ),
                next: if taken {
                    PmsignalStage::EnterRecovery
                } else {
                    PmsignalStage::Consistency
                },
            }
        },
        PmsignalStage::EnterRecovery => PmsignalOut {
            pm: pm.in_state(PMState::PM_RECOVERY, now),
            signals: s,
            actions: Seq::empty(),
            next: PmsignalStage::Consistency,
        },
        PmsignalStage::Consistency => {
            let signals = PmSignals { recovery_consistent: false, begin_hot_standby: false, ..s };
            let pm1 = if s.recovery_consistent && recovering(pm, PMState::PM_RECOVERY) {
                PostmasterState { reached_consistency: true, ..pm }
            } else {
                pm
            };
            if s.begin_hot_standby && recovering(pm, PMState::PM_RECOVERY) {
                PmsignalOut {
                    pm: pm1,
                    signals,
                    actions: seq![
                        PmAction::Log(LogLevel::Log, PmLog::ReadyReadOnly),
                        PmAction::AddToDataDirLockFile {
                            line: LOCK_FILE_LINE_PM_STATUS,
                            status: PmStatus::Ready,
                        },
                    ],
                    next: PmsignalStage::EnterHotStandby,
                }
            } else {
                PmsignalOut { pm: pm1, signals, actions: Seq::empty(), next: PmsignalStage::Workers }
            }
        },
        PmsignalStage::EnterHotStandby => PmsignalOut {
            pm: PostmasterState { conns_allowed: true, ..pm.in_state(PMState::PM_HOT_STANDBY, now) },
            signals: s,
            actions: Seq::empty(),
            next: PmsignalStage::Workers,
        },
        PmsignalStage::Workers => {
            PmsignalOut {
                pm: PostmasterState {
                    start_worker_needed: pm.start_worker_needed || s.background_worker_change,
                    ..pm
                },
                signals: PmSignals { background_worker_change: false, ..s },
                actions: Seq::empty() + crate::postmaster::when(
                    s.background_worker_change,
                    PmAction::BackgroundWorkerStateChange(pm.pm_state.before_stop()),
                ) + crate::postmaster::when(pm.syslogger is Some, PmAction::CheckLogrotate),
                next: if pm.syslogger is Some {
                    PmsignalStage::Logrotate(false)
                } else {
                    PmsignalStage::Requests
                },
            }
        },
        PmsignalStage::Logrotate(found) => PmsignalOut {
            pm,
            signals: PmSignals { rotate_logfile: found && s.rotate_logfile, ..s },
            actions: if found {
                seq![PmAction::SignalLogger(SIGUSR1), PmAction::RemoveLogrotateFiles]
            } else if s.rotate_logfile {
                seq![PmAction::SignalLogger(SIGUSR1)]
            } else {
                Seq::empty()
            },
            next: PmsignalStage::Requests,
        },
        PmsignalStage::Requests => PmsignalOut {
            pm: PostmasterState {
                start_autovac_launcher: pm.start_autovac_launcher || (s.start_autovac_launcher
                    && autovac_allowed(pm)),
                wal_receiver_requested: pm.wal_receiver_requested || s.start_walreceiver,
                ..pm
            },
            signals: PmSignals {
                start_autovac_launcher: false,
                start_autovac_worker: false,
                start_walreceiver: false,
                ..s
            },
            actions: if s.start_autovac_worker && autovac_allowed(pm) {
                seq![PmAction::StartAutovacuumWorker]
            } else {
                Seq::empty()
            },
            next: PmsignalStage::XlogShutdown,
        },
        PmsignalStage::XlogShutdown => {
            let signals = PmSignals { xlog_is_shutdown: false, ..s };
            let next = PmsignalStage::Advance(s.xlog_is_shutdown);
            if s.xlog_is_shutdown && pm.pm_state == PMState::PM_WAIT_XLOG_SHUTDOWN {
                let tell = PmAction::SignalChildren {
                    sig: SIGUSR2,
                    mask: 1u32 << BackendType::WalSender.idx(),
                };
                PmsignalOut {
                    pm: pm.in_state(PMState::PM_WAIT_XLOG_ARCHIVAL, now),
                    signals,
                    actions: match pm.pgarch {
                        Some(child) => seq![PmAction::SignalChild { child, sig: SIGUSR2 }, tell],
                        None => seq![tell],
                    },
                    next,
                }
            } else if s.xlog_is_shutdown && !pm.fatal_error && pm.shutdown != ImmediateShutdown {
                PmsignalOut {
                    pm,
                    signals,
                    actions: seq![
                        PmAction::Log(LogLevel::Log, PmLog::WalShutDownUnexpectedly),
                        PmAction::HandleFatalError { consider_sigabrt: false },
                    ],
                    next,
                }
            } else {
                PmsignalOut { pm, signals, actions: Seq::empty(), next }
            }
        },
        PmsignalStage::Advance(requested) => PmsignalOut {
            pm,
            signals: PmSignals { advance_state_machine: false, ..s },
            actions: if requested || s.advance_state_machine {
                seq![PmAction::RunStateMachine]
            } else {
                Seq::empty()
            },
            next: PmsignalStage::Promote,
        },
        PmsignalStage::Promote => PmsignalOut {
            pm,
            signals: s,
            actions: if promotable(pm) {
                seq![PmAction::CheckPromote]
            } else {
                Seq::empty()
            },
            next: if promotable(pm) {
                PmsignalStage::PromoteFound(false)
            } else {
                PmsignalStage::Done
            },
        },
        PmsignalStage::PromoteFound(found) => PmsignalOut {
            pm,
            signals: s,
            actions: match pm.startup {
                Some(child) => if found {
                    seq![PmAction::SignalChild { child, sig: SIGUSR2 }]
                } else {
                    Seq::empty()
                },
                None => Seq::empty(),
            },
            next: PmsignalStage::Done,
        },
        PmsignalStage::Done => PmsignalOut { pm, signals: s, actions: Seq::empty(), next: PmsignalStage::Done },
    }
}

/// Reads and clears a reason.
fn take(flag: &mut bool) -> (r: bool)
    ensures
        r == *old(flag),
        !*final(flag),
{
    let r = *flag;
    *flag = false;
    r
}

/// Whether the step from `stage` leads to these values.
pub open spec fn stepped(
    pm: PostmasterState,
    s: PmSignals,
    cfg: PmsignalConfig,
    stage: PmsignalStage,
    now: i64,
    pm1: PostmasterState,
    s1: PmSignals,
    actions: Seq<PmAction>,
    next: PmsignalStage,
) -> bool {
    let out = pmsignal_step(pm, s, cfg, stage, now);
    pm1 == out.pm && s1 == out.signals && actions == out.actions && next == out.next
}

fn stage_begin(
    pm: &mut PostmasterState,
    s: &mut PmSignals,
    cfg: PmsignalConfig,
    now: i64,
) -> (r: (Vec<PmAction>, PmsignalStage))
    ensures
        stepped(*old(pm), *old(s), cfg, PmsignalStage::Begin, now, *final(pm), *final(s), r.0@, r.1),
{
    let ghost out = pmsignal_step(*pm, *s, cfg, PmsignalStage::Begin, now);
    let mut acts: Vec<PmAction> = Vec::new();
    let next: PmsignalStage;
    let started = take(&mut s.recovery_started);
    let taken = started && pm.pm_state == PMState::PM_STARTUP && pm.shutdown == NoShutdown;
    push_when(&mut acts, true, PmAction::Log(LogLevel::Debug2, PmLog::PmsignalReceived));
    push_when(&mut acts, taken && cfg.archive_mode >= 2, PmAction::StartChild(BackendType::Archiver));
    push_when(
        &mut acts,
        taken && !cfg.enable_hot_standby,
        PmAction::AddToDataDirLockFile { line: LOCK_FILE_LINE_PM_STATUS, status: PmStatus::Standby },
    );
    if taken {
        pm.forget_crash();
        pm.reached_consistency = false;
        next = PmsignalStage::EnterRecovery;
    } else {
        next = PmsignalStage::Consistency;
    }
    (acts, next)
}

fn stage_enter_recovery(
    pm: &mut PostmasterState,
    s: &mut PmSignals,
    cfg: PmsignalConfig,
    now: i64,
) -> (r: (Vec<PmAction>, PmsignalStage))
    ensures
        stepped(*old(pm), *old(s), cfg, PmsignalStage::EnterRecovery, now, *final(pm), *final(s), r.0@, r.1),
{
    let ghost out = pmsignal_step(*pm, *s, cfg, PmsignalStage::EnterRecovery, now);
    let mut acts: Vec<PmAction> = Vec::new();
    let next: PmsignalStage;
    pm.update_pm_state(PMState::PM_RECOVERY, now);
    next = PmsignalStage::Consistency;
    assert(acts@ =~= out.actions);
    (acts, next)
}

fn stage_consistency(
    pm: &mut PostmasterState,
    s: &mut PmSignals,
    cfg: PmsignalConfig,
    now: i64,
) -> (r: (Vec<PmAction>, PmsignalStage))
    ensures
        stepped(*old(pm), *old(s), cfg, PmsignalStage::Consistency, now, *final(pm), *final(s), r.0@, r.1),
{
    let ghost out = pmsignal_step(*pm, *s, cfg, PmsignalStage::Consistency, now);
    let mut acts: Vec<PmAction> = Vec::new();
    let next: PmsignalStage;
    let consistent = take(&mut s.recovery_consistent);
    let standby = take(&mut s.begin_hot_standby);
    let here = pm.pm_state == PMState::PM_RECOVERY && pm.shutdown == NoShutdown;
    if consistent && here {
        pm.reached_consistency = true;
    }
    if standby && here {
        acts.push(PmAction::Log(LogLevel::Log, PmLog::ReadyReadOnly));
        acts.push(
            PmAction::AddToDataDirLockFile {
                line: LOCK_FILE_LINE_PM_STATUS,
                status: PmStatus::Ready,
            },
        );
        next = PmsignalStage::EnterHotStandby;
    } else {
        next = PmsignalStage::Workers;
    }
    assert(acts@ =~= out.actions);
    (acts, next)
}

fn stage_enter_hot_standby(
    pm: &mut PostmasterState,
    s: &mut PmSignals,
    cfg: PmsignalConfig,
    now: i64,
) -> (r: (Vec<PmAction>, PmsignalStage))
    ensures
        stepped(*old(pm), *old(s), cfg, PmsignalStage::EnterHotStandby, now, *final(pm), *final(s), r.0@, r.1),
{
    let ghost out = pmsignal_step(*pm, *s, cfg, PmsignalStage::EnterHotStandby, now);
    let mut acts: Vec<PmAction> = Vec::new();
    let next: PmsignalStage;
    pm.update_pm_state(PMState::PM_HOT_STANDBY, now);
    pm.conns_allowed = true;
    next = PmsignalStage::Workers;
    assert(acts@ =~= out.actions);
    (acts, next)
}

fn stage_workers(
    pm: &mut PostmasterState,
    s: &mut PmSignals,
    cfg: PmsignalConfig,
    now: i64,
) -> (r: (Vec<PmAction>, PmsignalStage))
    ensures
        stepped(*old(pm), *old(s), cfg, PmsignalStage::Workers, now, *final(pm), *final(s), r.0@, r.1),
{
    let ghost out = pmsignal_step(*pm, *s, cfg, PmsignalStage::Workers, now);
    let mut acts: Vec<PmAction> = Vec::new();
    let next: PmsignalStage;
    let change = take(&mut s.background_worker_change);
    let early = pm.pm_state.order() < PMState::PM_STOP_BACKENDS.order();
    push_when(&mut acts, change, PmAction::BackgroundWorkerStateChange(early));
    push_when(&mut acts, pm.syslogger.is_some(), PmAction::CheckLogrotate);
    pm.start_worker_needed = pm.start_worker_needed || change;
    if pm.syslogger.is_some() {
        next = PmsignalStage::Logrotate(false);
    } else {
        next = PmsignalStage::Requests;
    }
    (acts, next)
}

fn stage_logrotate(
    pm: &mut PostmasterState,
    s: &mut PmSignals,
    cfg: PmsignalConfig, found: bool,
    now: i64,
) -> (r: (Vec<PmAction>, PmsignalStage))
    ensures
        stepped(*old(pm), *old(s), cfg, PmsignalStage::Logrotate(found), now, *final(pm), *final(s), r.0@, r.1),
{
    let ghost out = pmsignal_step(*pm, *s, cfg, PmsignalStage::Logrotate(found), now);
    let mut acts: Vec<PmAction> = Vec::new();
    let next: PmsignalStage;
    if found {
        acts.push(PmAction::SignalLogger(SIGUSR1));
        acts.push(PmAction::RemoveLogrotateFiles);
    } else if take(&mut s.rotate_logfile) {
        acts.push(PmAction::SignalLogger(SIGUSR1));
    }
    next = PmsignalStage::Requests;
    assert(acts@ =~= out.actions);
    (acts, next)
}

fn stage_requests(
    pm: &mut PostmasterState,
    s: &mut PmSignals,
    cfg: PmsignalConfig,
    now: i64,
) -> (r: (Vec<PmAction>, PmsignalStage))
    ensures
        stepped(*old(pm), *old(s), cfg, PmsignalStage::Requests, now, *final(pm), *final(s), r.0@, r.1),
{
    let ghost out = pmsignal_step(*pm, *s, cfg, PmsignalStage::Requests, now);
    let mut acts: Vec<PmAction> = Vec::new();
    let next: PmsignalStage;
    let allowed = pm.shutdown <= SmartShutdown && pm.pm_state.order()
        < PMState::PM_STOP_BACKENDS.order();
    let launcher = take(&mut s.start_autovac_launcher);
    let worker = take(&mut s.start_autovac_worker);
    let receiver = take(&mut s.start_walreceiver);
    if worker && allowed {
        acts.push(PmAction::StartAutovacuumWorker);
    }
    pm.start_autovac_launcher = pm.start_autovac_launcher || (launcher && allowed);
    pm.wal_receiver_requested = pm.wal_receiver_requested || receiver;
    next = PmsignalStage::XlogShutdown;
    assert(acts@ =~= out.actions);
    (acts, next)
}

fn stage_xlog_shutdown(
    pm: &mut PostmasterState,
    s: &mut PmSignals,
    cfg: PmsignalConfig,
    now: i64,
) -> (r: (Vec<PmAction>, PmsignalStage))
    ensures
        stepped(*old(pm), *old(s), cfg, PmsignalStage::XlogShutdown, now, *final(pm), *final(s), r.0@, r.1),
{
    let ghost out = pmsignal_step(*pm, *s, cfg, PmsignalStage::XlogShutdown, now);
    let mut acts: Vec<PmAction> = Vec::new();
    let next: PmsignalStage;
    let down = take(&mut s.xlog_is_shutdown);
    if down {
        if pm.pm_state == PMState::PM_WAIT_XLOG_SHUTDOWN {
            if let Some(child) = pm.pgarch {
                acts.push(PmAction::SignalChild { child, sig: SIGUSR2 });
            }
            acts.push(
                PmAction::SignalChildren {
                    sig: SIGUSR2,
                    mask: btmask::btmask(BackendType::WalSender),
                },
            );
            pm.update_pm_state(PMState::PM_WAIT_XLOG_ARCHIVAL, now);
        } else if !pm.fatal_error && pm.shutdown != ImmediateShutdown {
            acts.push(PmAction::Log(LogLevel::Log, PmLog::WalShutDownUnexpectedly));
            acts.push(PmAction::HandleFatalError { consider_sigabrt: false });
        }
    }
    next = PmsignalStage::Advance(down);
    assert(acts@ =~= out.actions);
    (acts, next)
}

fn stage_advance(
    pm: &mut PostmasterState,
    s: &mut PmSignals,
    cfg: PmsignalConfig, requested: bool,
    now: i64,
) -> (r: (Vec<PmAction>, PmsignalStage))
    ensures
        stepped(*old(pm), *old(s), cfg, PmsignalStage::Advance(requested), now, *final(pm), *final(s), r.0@, r.1),
{
    let ghost out = pmsignal_step(*pm, *s, cfg, PmsignalStage::Advance(requested), now);
    let mut acts: Vec<PmAction> = Vec::new();
    let next: PmsignalStage;
    if take(&mut s.advance_state_machine) || requested {
        acts.push(PmAction::RunStateMachine);
    }
    next = PmsignalStage::Promote;
    assert(acts@ =~= out.actions);
    (acts, next)
}

fn stage_promote(
    pm: &mut PostmasterState,
    s: &mut PmSignals,
    cfg: PmsignalConfig,
    now: i64,
) -> (r: (Vec<PmAction>, PmsignalStage))
    ensures
        stepped(*old(pm), *old(s), cfg, PmsignalStage::Promote, now, *final(pm), *final(s), r.0@, r.1),
{
    let ghost out = pmsignal_step(*pm, *s, cfg, PmsignalStage::Promote, now);
    let mut acts: Vec<PmAction> = Vec::new();
    let next: PmsignalStage;
    if pm.startup.is_some() && (pm.pm_state == PMState::PM_STARTUP || pm.pm_state
        == PMState::PM_RECOVERY || pm.pm_state == PMState::PM_HOT_STANDBY) {
        acts.push(PmAction::CheckPromote);
        next = PmsignalStage::PromoteFound(false);
    } else {
        next = PmsignalStage::Done;
    }
    assert(acts@ =~= out.actions);
    (acts, next)
}

fn stage_promote_found(
    pm: &mut PostmasterState,
    s: &mut PmSignals,
    cfg: PmsignalConfig, found: bool,
    now: i64,
) -> (r: (Vec<PmAction>, PmsignalStage))
    ensures
        stepped(*old(pm), *old(s), cfg, PmsignalStage::PromoteFound(found), now, *final(pm), *final(s), r.0@, r.1),
{
    let ghost out = pmsignal_step(*pm, *s, cfg, PmsignalStage::PromoteFound(found), now);
    let mut acts: Vec<PmAction> = Vec::new();
    let next: PmsignalStage;
    if let Some(child) = pm.startup {
        if found {
            acts.push(PmAction::SignalChild { child, sig: SIGUSR2 });
        }
    }
    next = PmsignalStage::Done;
    assert(acts@ =~= out.actions);
    (acts, next)
}

/// One step of the pass. The caller performs the returned actions, puts the
/// answer of a check into the next stage, and calls again until `Done`.
pub fn process_pm_pmsignal(
    pm: &mut PostmasterState,
    p: &mut PendingFlags,
    s: &mut PmSignals,
    cfg: PmsignalConfig,
    stage: PmsignalStage,
    now: i64,
) -> (r: (Vec<PmAction>, PmsignalStage))
    ensures
        stepped(*old(pm), *old(s), cfg, stage, now, *final(pm), *final(s), r.0@, r.1),
        *final(p) == (if stage == PmsignalStage::Begin {
            PendingFlags { pmsignal: false, ..*old(p) }
        } else {
            *old(p)
        }),
{
    match stage {
        PmsignalStage::Begin => {
            p.pmsignal = false;
            stage_begin(pm, s, cfg, now)
        },
        PmsignalStage::EnterRecovery => stage_enter_recovery(pm, s, cfg, now),
        PmsignalStage::Consistency => stage_consistency(pm, s, cfg, now),
        PmsignalStage::EnterHotStandby => stage_enter_hot_standby(pm, s, cfg, now),
        PmsignalStage::Workers => stage_workers(pm, s, cfg, now),
        PmsignalStage::Logrotate(found) => stage_logrotate(pm, s, cfg, found, now),
        PmsignalStage::Requests => stage_requests(pm, s, cfg, now),
        PmsignalStage::XlogShutdown => stage_xlog_shutdown(pm, s, cfg, now),
        PmsignalStage::Advance(requested) => stage_advance(pm, s, cfg, requested, now),
        PmsignalStage::Promote => stage_promote(pm, s, cfg, now),
        PmsignalStage::PromoteFound(found) => stage_promote_found(pm, s, cfg, found, now),
        PmsignalStage::Done => (Vec::new(), PmsignalStage::Done),
    }
}

} // verus!
