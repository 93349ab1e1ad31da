//! Standing in for the supervisor: one quantum of its service, and promotion
//! to the running phase.
use vstd::prelude::*;
use crate::pm_state::{PMState, PendingFlags, PostmasterState};
use crate::pmsignal::PmSignals;

verus! {

/// How far a quantum has come.
#[derive(Clone, Copy, Debug, PartialEq, Eq, Structural)]
pub enum ServiceStage {
    ChildExit,
    WorkerChange,
    Workers,
    Done,
}

/// What a quantum asks for next.
#[derive(Clone, Copy, Debug, PartialEq, Eq, Structural)]
pub enum ServiceAction {
    Nothing,
    ProcessChildExit,
    BackgroundWorkerStateChange(bool),
    StartBgworkers,
}

/// One step of a quantum: child exits, then changes of background workers,
/// then the start of those that wait.
pub fn pm_service_pending(
    pm: &mut PostmasterState,
    p: &mut PendingFlags,
    s: &mut PmSignals,
    stage: ServiceStage,
) -> (r: (ServiceAction, ServiceStage))
    ensures
        ({
            let changed = stage == ServiceStage::WorkerChange && old(p).pmsignal && old(s).background_worker_change;
            &&& r == (match stage {
                ServiceStage::ChildExit => (
                    if old(p).child_exit {
                        ServiceAction::ProcessChildExit
                    } else {
                        ServiceAction::Nothing
                    },
                    ServiceStage::WorkerChange,
                ),
                ServiceStage::WorkerChange => (
                    if changed {
                        ServiceAction::BackgroundWorkerStateChange(old(pm).pm_state.before_stop())
                    } else {
                        ServiceAction::Nothing
                    },
                    ServiceStage::Workers,
                ),
                ServiceStage::Workers => (
                    if old(pm).start_worker_needed || old(pm).have_crashed_worker {
                        ServiceAction::StartBgworkers
                    } else {
                        ServiceAction::Nothing
                    },
                    ServiceStage::Done,
                ),
                ServiceStage::Done => (ServiceAction::Nothing, ServiceStage::Done),
            })
            &&& *final(pm) == (PostmasterState {
                start_worker_needed: old(pm).start_worker_needed || changed,
                ..*old(pm)
            })
            &&& *final(p) == (if stage == ServiceStage::WorkerChange {
                PendingFlags { pmsignal: false, ..*old(p) }
            } else {
                *old(p)
            })
            &&& *final(s) == (if stage == ServiceStage::WorkerChange && old(p).pmsignal {
                PmSignals { background_worker_change: false, ..*old(s) }
            } else {
                *old(s)
            })
        }),
{
    match stage {
        ServiceStage::ChildExit => {
            if p.child_exit {
                (ServiceAction::ProcessChildExit, ServiceStage::WorkerChange)
            } else {
                (ServiceAction::Nothing, ServiceStage::WorkerChange)
            }
        },
        ServiceStage::WorkerChange => {
            let raised = p.pmsignal;
            p.pmsignal = false;
            let changed = raised && s.background_worker_change;
            if raised {
                s.background_worker_change = false;
            }
            let early = pm.pm_state.order() < PMState::PM_STOP_BACKENDS.order();
            pm.start_worker_needed = pm.start_worker_needed || changed;
            if changed {
                (ServiceAction::BackgroundWorkerStateChange(early), ServiceStage::Workers)
            } else {
                (ServiceAction::Nothing, ServiceStage::Workers)
            }
        },
        ServiceStage::Workers => {
            if pm.start_worker_needed || pm.have_crashed_worker {
                (ServiceAction::StartBgworkers, ServiceStage::Done)
            } else {
                (ServiceAction::Nothing, ServiceStage::Done)
            }
        },
        ServiceStage::Done => (ServiceAction::Nothing, ServiceStage::Done),
    }
}

/// Recovery is over: the running phase, connections allowed, background
/// workers to be started.
pub fn pm_promote_run(pm: &mut PostmasterState, now: i64)
    ensures
        *final(pm) == (PostmasterState {
            conns_allowed: true,
            start_worker_needed: true,
            ..old(pm).in_state(PMState::PM_RUN, now)
        }),
{
    pm.update_pm_state(PMState::PM_RUN, now);
    pm.conns_allowed = true;
    pm.start_worker_needed = true;
}

} // verus!
