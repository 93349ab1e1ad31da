//! Serving a reload request.
use vstd::prelude::*;
use crate::backend_type::BackendType;
use crate::btmask;
use crate::pm_state::{PendingFlags, PostmasterState};
use crate::pm_state::{SmartShutdown, SIGHUP};
use crate::postmaster::{LogLevel, PmAction, PmLog};

verus! {

/// How far a reload has come, with what the outside reported last.
#[derive(Clone, Copy, Debug, PartialEq, Eq, Structural)]
pub enum ReloadEvent {
    Requested,
    HbaLoaded(bool),
    IdentLoaded { ok: bool, enable_ssl: bool },
    SslInitialized(i32),
}

/// Whether `mask` is the set of children a reload is told to.
pub open spec fn reload_mask(mask: u32) -> bool {
    &&& forall|t: BackendType| btmask::mask_set(mask).contains(t) <==> t != BackendType::DeadEndBackend
    &&& mask & !btmask::BTYPE_MASK_ALL == 0
}

/// The actions of a reload, given the mask of children to tell.
pub open spec fn reload_actions(pm: PostmasterState, ev: ReloadEvent, mask: u32) -> Seq<PmAction> {
    match ev {
        ReloadEvent::Requested => {
            let head = seq![
                PmAction::Log(LogLevel::Debug2, PmLog::ReloadSignalReceived),
                PmAction::FlushWorkerPool,
            ];
            if pm.shutdown <= SmartShutdown {
                let told = head + seq![
                    PmAction::Log(LogLevel::Log, PmLog::Reloading),
                    PmAction::ProcessConfigFile,
                    PmAction::PublishConfigBase,
                    PmAction::SignalChildren { sig: SIGHUP, mask },
                ];
                let logger = if pm.syslogger is Some {
                    told.push(PmAction::SignalLogger(SIGHUP))
                } else {
                    told
                };
                logger.push(PmAction::LoadHba)
            } else {
                head
            }
        },
        ReloadEvent::HbaLoaded(ok) => if ok {
            seq![PmAction::LoadIdent]
        } else {
            seq![PmAction::Log(LogLevel::Log, PmLog::HbaNotReloaded), PmAction::LoadIdent]
        },
        ReloadEvent::IdentLoaded { ok, enable_ssl } => {
            let head = if ok {
                Seq::empty()
            } else {
                seq![PmAction::Log(LogLevel::Log, PmLog::IdentNotReloaded)]
            };
            if enable_ssl {
                head + seq![PmAction::SecureInitialize]
            } else {
                head + seq![PmAction::SecureDestroy, PmAction::SetLoadedSsl(false)]
            }
        },
        ReloadEvent::SslInitialized(rc) => if rc == 0 {
            seq![PmAction::SetLoadedSsl(true)]
        } else {
            seq![PmAction::Log(LogLevel::Log, PmLog::SslNotReloaded)]
        },
    }
}

/// One step of a reload. Parked pool threads are always retired; the
/// configuration is read again only while no fast or immediate shutdown runs.
pub fn process_pm_reload_request(pm: &PostmasterState, p: &mut PendingFlags, ev: ReloadEvent) -> (r: Vec<
    PmAction,
>)
    ensures
        exists|mask: u32| #[trigger] reload_mask(mask) && r@ == reload_actions(*pm, ev, mask),
        *final(p) == (if ev == ReloadEvent::Requested {
            PendingFlags { reload_request: false, ..*old(p) }
        } else {
            *old(p)
        }),
{
    let mut acts: Vec<PmAction> = Vec::new();
    let mask: u32 = btmask::btmask_all_except(&[BackendType::DeadEndBackend]);
    proof {
        let ts = [BackendType::DeadEndBackend]@;
        assert forall|t: BackendType| ts.contains(t) <==> t == BackendType::DeadEndBackend by {
            if t == BackendType::DeadEndBackend {
                assert(ts[0] == t);
            }
        }
        assert(reload_mask(mask));
    }
    match ev {
        ReloadEvent::Requested => {
            p.reload_request = false;
            acts.push(PmAction::Log(LogLevel::Debug2, PmLog::ReloadSignalReceived));
            acts.push(PmAction::FlushWorkerPool);
            if pm.shutdown <= SmartShutdown {
                acts.push(PmAction::Log(LogLevel::Log, PmLog::Reloading));
                acts.push(PmAction::ProcessConfigFile);
                acts.push(PmAction::PublishConfigBase);
                acts.push(PmAction::SignalChildren { sig: SIGHUP, mask });
                if pm.syslogger.is_some() {
                    acts.push(PmAction::SignalLogger(SIGHUP));
                }
                acts.push(PmAction::LoadHba);
            }
        },
        ReloadEvent::HbaLoaded(ok) => {
            if !ok {
                acts.push(PmAction::Log(LogLevel::Log, PmLog::HbaNotReloaded));
            }
            acts.push(PmAction::LoadIdent);
        },
        ReloadEvent::IdentLoaded { ok, enable_ssl } => {
            if !ok {
                acts.push(PmAction::Log(LogLevel::Log, PmLog::IdentNotReloaded));
            }
            if enable_ssl {
                acts.push(PmAction::SecureInitialize);
            } else {
                acts.push(PmAction::SecureDestroy);
                acts.push(PmAction::SetLoadedSsl(false));
            }
        },
        ReloadEvent::SslInitialized(rc) => {
            if rc == 0 {
                acts.push(PmAction::SetLoadedSsl(true));
            } else {
                acts.push(PmAction::Log(LogLevel::Log, PmLog::SslNotReloaded));
            }
        },
    }
    assert(acts@ =~= reload_actions(*pm, ev, mask));
    acts
}

} // verus!
