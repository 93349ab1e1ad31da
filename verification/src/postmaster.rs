//! What the supervisor does about a reload, about a request from a backend and
//! about a child that ended. Each function updates the state and returns the
//! actions to perform, in order; an action that fails ends the pass.
use vstd::prelude::*;
use crate::backend_type::BackendType;
use crate::pm_state::PmChild;
use crate::pm_state::{PM_STATUS_READY, PM_STATUS_STANDBY, SIGHUP};
use crate::text;

verus! {

#[derive(Clone, Copy, Debug, PartialEq, Eq, Structural)]
pub enum LogLevel {
    Debug2,
    Debug1,
    Log,
}

/// What a log line calls a child.
#[derive(Clone, Copy, Debug, PartialEq, Eq, Structural)]
pub enum ProcName {
    StartupProcess,
    BackgroundWriter,
    Checkpointer,
    WalWriter,
    AutovacuumLauncher,
    WalSummarizer,
    WalReceiver,
    Archiver,
    SlotSyncWorker,
    SystemLogger,
    ServerProcess,
    /// A client backend, an autovacuum worker and the like, by its kind.
    Kind(BackendType),
    /// A background worker: its registration index, where it has one. It is
    /// called by the type that it had when its end was looked up; by the time a
    /// line is written its registration may be gone.
    BackgroundWorker(Option<i32>),
    IoWorker,
    UntrackedChild,
}

/// The log lines of this module.
#[derive(Clone, Copy, Debug, PartialEq, Eq, Structural)]
pub enum PmLog {
    ReloadSignalReceived,
    Reloading,
    HbaNotReloaded,
    IdentNotReloaded,
    SslNotReloaded,
    PmsignalReceived,
    ReadyReadOnly,
    WalShutDownUnexpectedly,
    ReapingDeadProcesses,
    ShutdownAtRecoveryTarget,
    AbortingStartup,
    ReadyForConnections,
    TerminatingOthers,
    ChildExit { name: ProcName, pid: i32, exitstatus: i32 },
}

/// The server status that the lock file shows.
#[derive(Clone, Copy, Debug, PartialEq, Eq, Structural)]
pub enum PmStatus {
    Ready,
    Standby,
}

/// What the status line of the lock file says.
pub fn pm_status_text(status: PmStatus) -> (s: &'static str)
    ensures
        s@ == (match status {
            PmStatus::Ready => PM_STATUS_READY@,
            PmStatus::Standby => PM_STATUS_STANDBY@,
        }),
{
    match status {
        PmStatus::Ready => PM_STATUS_READY,
        PmStatus::Standby => PM_STATUS_STANDBY,
    }
}

/// Something for the outside to do.
#[derive(Clone, Copy, Debug, PartialEq, Eq, Structural)]
pub enum PmAction {
    /// Wait until the thread with this handle is gone for good, its own
    /// clean-up included.
    JoinChild(u64),
    Log(LogLevel, PmLog),
    /// Retire the parked pool threads.
    FlushWorkerPool,
    ProcessConfigFile,
    PublishConfigBase,
    SignalChildren { sig: i32, mask: u32 },
    SignalChild { child: PmChild, sig: i32 },
    SignalLogger(i32),
    LoadHba,
    LoadIdent,
    SecureInitialize,
    SecureDestroy,
    SetLoadedSsl(bool),
    /// Start a child; the outcome goes to `child_started`.
    StartChild(BackendType),
    AddToDataDirLockFile { line: i32, status: PmStatus },
    BackgroundWorkerStateChange(bool),
    CheckLogrotate,
    CheckPromote,
    RemoveLogrotateFiles,
    StartAutovacuumWorker,
    HandleFatalError { consider_sigabrt: bool },
    RunStateMachine,
    ReleaseChildSlot(i32),
    TerminateChildren(i32),
    ExitPostmaster(i32),
    ConfigureWaitSet(bool),
    StartSysLogger,
    StopNotifications(i32),
    /// The worker's crash time becomes the present.
    WorkerCrashedNow(i32),
    /// The worker's crash time becomes zero.
    WorkerNotCrashed(i32),
    WorkerTerminate(i32),
    WorkerClearPid(i32),
    ReportWorkerExit(i32),
    /// Go on with `maybe_adjust_io_workers`.
    AdjustIoWorkers,
}

/// `a` where `c` holds, else nothing.
pub open spec fn when(c: bool, a: PmAction) -> Seq<PmAction> {
    if c {
        seq![a]
    } else {
        Seq::empty()
    }
}

/// Adds `a` where `c` holds.
pub fn push_when(acts: &mut Vec<PmAction>, c: bool, a: PmAction)
    ensures
        final(acts)@ == old(acts)@ + when(c, a),
{

    if c {
        acts.push(a);
        assert(acts@ =~= old(acts)@ + when(c, a));
    } else {
        assert(acts@ =~= old(acts)@ + when(c, a));
    }
}

/// The exit code in a wait status, unless a signal ended the child.
pub open spec fn exit_code(exitstatus: i32) -> Option<i32> {
    if exitstatus & 0x7f == 0 {
        Some((exitstatus >> 8) & 0xff)
    } else {
        None
    }
}

/// The exit code in a wait status, unless a signal ended the child.
pub fn exit_status_code(exitstatus: i32) -> (r: Option<i32>)
    ensures
        r == exit_code(exitstatus),
{
    if exitstatus & 0x7f == 0 {
        Some((exitstatus >> 8) & 0xff)
    } else {
        None
    }
}

/// A wait status that carries exit code `code` gives that code back.
pub proof fn law_exit_status_round_trip(code: i32)
    requires
        0 <= code <= 255,
    ensures
        exit_code((code << 8) as i32) == Some(code),
{
    assert(((code << 8) & 0x7f) == 0 && (((code << 8) >> 8) & 0xff) == code) by (bit_vector)
        requires
            0 <= code <= 255,
    ;
}

/// A log line's name for a child; `worker_type` is the type of the background
/// worker meant, where one is.
pub open spec fn proc_text(name: ProcName, worker_type: Seq<char>, kind_desc: Seq<char>) -> Seq<char> {
    match name {
        ProcName::StartupProcess => "startup process"@,
        ProcName::BackgroundWriter => "background writer process"@,
        ProcName::Checkpointer => "checkpointer process"@,
        ProcName::WalWriter => "WAL writer process"@,
        ProcName::AutovacuumLauncher => "autovacuum launcher process"@,
        ProcName::WalSummarizer => "WAL summarizer process"@,
        ProcName::WalReceiver => "WAL receiver process"@,
        ProcName::Archiver => "archiver process"@,
        ProcName::SlotSyncWorker => "slot sync worker process"@,
        ProcName::SystemLogger => "system logger process"@,
        ProcName::ServerProcess => "server process"@,
        ProcName::Kind(_) => kind_desc,
        ProcName::BackgroundWorker(Some(_)) => "background worker \""@ + worker_type + "\""@,
        ProcName::BackgroundWorker(None) => "background worker"@,
        ProcName::IoWorker => "io worker"@,
        ProcName::UntrackedChild => "untracked child process"@,
    }
}

fn proc_name(name: ProcName, worker_type: &str, kind_desc: &str) -> (s: String)
    ensures
        s@ == proc_text(name, worker_type@, kind_desc@),
{
    match name {
        ProcName::StartupProcess => String::from_str("startup process"),
        ProcName::BackgroundWriter => String::from_str("background writer process"),
        ProcName::Checkpointer => String::from_str("checkpointer process"),
        ProcName::WalWriter => String::from_str("WAL writer process"),
        ProcName::AutovacuumLauncher => String::from_str("autovacuum launcher process"),
        ProcName::WalSummarizer => String::from_str("WAL summarizer process"),
        ProcName::WalReceiver => String::from_str("WAL receiver process"),
        ProcName::Archiver => String::from_str("archiver process"),
        ProcName::SlotSyncWorker => String::from_str("slot sync worker process"),
        ProcName::SystemLogger => String::from_str("system logger process"),
        ProcName::ServerProcess => String::from_str("server process"),
        ProcName::Kind(_) => String::from_str(kind_desc),
        ProcName::BackgroundWorker(Some(_)) => {
            let mut s = String::from_str("background worker \"");
            s.append(worker_type);
            s.append("\"");
            s
        },
        ProcName::BackgroundWorker(None) => String::from_str("background worker"),
        ProcName::IoWorker => String::from_str("io worker"),
        ProcName::UntrackedChild => String::from_str("untracked child process"),
    }
}

/// The log line about a child's end.
pub open spec fn child_exit_text(procname: Seq<char>, pid: i32, exitstatus: i32) -> Seq<char> {
    match exit_code(exitstatus) {
        Some(code) => procname + " (PID "@ + text::dec_int(pid as int) + ") exited with exit code "@
            + text::dec_int(code as int),
        None => procname + " (PID "@ + text::dec_int(pid as int) + ") was terminated by signal "@
            + text::dec_int((exitstatus & 0x7f) as int),
    }
}

/// The log line about a child's end.
pub fn log_child_exit(procname: &str, pid: i32, exitstatus: i32) -> (s: String)
    ensures
        s@ == child_exit_text(procname@, pid, exitstatus),
{
    let mut s = String::from_str(procname);
    s.append(" (PID ");
    text::append_i64(&mut s, pid as i64);
    match exit_status_code(exitstatus) {
        Some(code) => {
            s.append(") exited with exit code ");
            text::append_i64(&mut s, code as i64);
        },
        None => {
            s.append(") was terminated by signal ");
            text::append_i64(&mut s, (exitstatus & 0x7f) as i64);
        },
    }
    s
}

/// The strings that log lines quote from outside.
pub struct LogNames {
    pub hba_file: String,
    pub ident_file: String,
    pub worker_type: String,
    pub kind_desc: String,
}

/// The text of a log line.
pub open spec fn log_text(m: PmLog, names: LogNames) -> Seq<char> {
    match m {
        PmLog::ReloadSignalReceived => "postmaster received reload request signal"@,
        PmLog::Reloading => "received SIGHUP, reloading configuration files"@,
        PmLog::HbaNotReloaded => names.hba_file@ + " was not reloaded"@,
        PmLog::IdentNotReloaded => names.ident_file@ + " was not reloaded"@,
        PmLog::SslNotReloaded => "SSL configuration was not reloaded"@,
        PmLog::PmsignalReceived => "postmaster received pmsignal signal"@,
        PmLog::ReadyReadOnly => "database system is ready to accept read-only connections"@,
        PmLog::WalShutDownUnexpectedly => "WAL was shut down unexpectedly"@,
        PmLog::ReapingDeadProcesses => "reaping dead processes"@,
        PmLog::ShutdownAtRecoveryTarget => "shutdown at recovery target"@,
        PmLog::AbortingStartup => "aborting startup due to startup process failure"@,
        PmLog::ReadyForConnections => "database system is ready to accept connections"@,
        PmLog::TerminatingOthers => "terminating any other active server processes"@,
        PmLog::ChildExit { name, pid, exitstatus } => child_exit_text(
            proc_text(name, names.worker_type@, names.kind_desc@),
            pid,
            exitstatus,
        ),
    }
}

/// The text of a log line.
pub fn render_log(m: PmLog, names: &LogNames) -> (s: String)
    ensures
        s@ == log_text(m, *names),
{
    match m {
        PmLog::ReloadSignalReceived => String::from_str("postmaster received reload request signal"),
        PmLog::Reloading => String::from_str("received SIGHUP, reloading configuration files"),
        PmLog::HbaNotReloaded => {
            let mut s = names.hba_file.clone();
            s.append(" was not reloaded");
            s
        },
        PmLog::IdentNotReloaded => {
            let mut s = names.ident_file.clone();
            s.append(" was not reloaded");
            s
        },
        PmLog::SslNotReloaded => String::from_str("SSL configuration was not reloaded"),
        PmLog::PmsignalReceived => String::from_str("postmaster received pmsignal signal"),
        PmLog::ReadyReadOnly => String::from_str(
            "database system is ready to accept read-only connections",
        ),
        PmLog::WalShutDownUnexpectedly => String::from_str("WAL was shut down unexpectedly"),
        PmLog::ReapingDeadProcesses => String::from_str("reaping dead processes"),
        PmLog::ShutdownAtRecoveryTarget => String::from_str("shutdown at recovery target"),
        PmLog::AbortingStartup => String::from_str("aborting startup due to startup process failure"),
        PmLog::ReadyForConnections => String::from_str(
            "database system is ready to accept connections",
        ),
        PmLog::TerminatingOthers => String::from_str("terminating any other active server processes"),
        PmLog::ChildExit { name, pid, exitstatus } => {
            let p = proc_name(name, names.worker_type.as_str(), names.kind_desc.as_str());
            log_child_exit(p.as_str(), pid, exitstatus)
        },
    }
}

} // verus!
