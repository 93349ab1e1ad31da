//! The order in which the supervisor starts up.
use vstd::prelude::*;

verus! {

/// The steps of a start, in their order.
#[derive(Clone, Copy, Debug, PartialEq, Eq, Structural)]
pub enum BootStage {
    ProcessGlobals,
    PostmasterIdentity,
    Umask,
    InstallationPaths,
    CrashReporter,
    BlockSignals,
    SignalHandlers,
    WaitEventSupport,
    LocalLatch,
    IgnoreTerminalSignals,
    UnblockSignals,
    GucOptions,
    MaxStackDepth,
    Options,
    SelectConfigFiles,
    MemoryAutotune,
    PrintConfigVariable,
    CheckDataDir,
    CheckControlFile,
    ChangeToDataDir,
    CheckConfig,
    EnvironmentDump,
    DataDirLockFile,
    LocalControlFile,
    ApplyLauncherRegister,
    SharedPreloadLibraries,
    PreloadContrib,
    SecureInitialize,
    RuntimeGangProcs,
    MaxBackends,
    ChildSlots,
    BgworkerShmem,
    ApplyLauncherShmem,
    FastPathLocks,
    ShmemRequests,
    ShmemGucs,
    WalConsistencyChecking,
    SharedMemory,
    MaxSafeFds,
    RemovePromoteFiles,
    RemoveLogrotateFiles,
    RemoveLogMetainfo,
    SysLogger,
    OutputNowhere,
    LogStarting,
    LogRegexpEngines,
    ClosePortsAtExit,
    HostListener,
    TcpSockets,
    UnixSockets,
    SocketsCheck,
    ListenAddressLine,
    OptsFile,
    ExternalPidFile,
    RemoveTempFiles,
    AutovacInit,
    LoadHba,
    LoadIdent,
    StartTime,
    StatusStarting,
    CloseTapPhase,
    FreezeLocale,
    EnterStartup,
    AdjustIoWorkers,
    StartCheckpointer,
    StartBgWriter,
    StartStartup,
    Serve,
}

/// What decides which steps are skipped.
#[derive(Clone, Copy, Debug, PartialEq, Eq, Structural)]
pub struct BootEnv {
    /// A variable is to be printed instead of starting.
    pub output_config_variable: bool,
    /// The environment is to be logged.
    pub debug3: bool,
    pub enable_ssl: bool,
    /// The apply launcher wants shared memory.
    pub apply_launcher_shmem: bool,
    pub logging_collector: bool,
    /// The transport brings its own listener.
    pub host_owns_listener: bool,
    /// The lock file names a listen address already.
    pub listen_addr_saved: bool,
    pub external_pid_file: bool,
    pub have_checkpointer: bool,
    pub have_bgwriter: bool,
}

/// How a step went.
#[derive(Clone, Copy, Debug, PartialEq, Eq, Structural)]
pub enum StageResult {
    Done,
    /// The step found what it does not go on with, and has said so.
    Refused,
    /// The step gave an error.
    Failed,
}

/// What comes after a step.
#[derive(Clone, Copy, Debug, PartialEq, Eq, Structural)]
pub enum BootStep {
    Run(BootStage),
    /// The process ends with this code.
    Exit(i32),
    /// The start fails with the error that the step gave.
    Fail,
}

impl BootStage {
    /// The place of the step in the order.
    pub open spec fn rank(self) -> int {
        match self {
            BootStage::ProcessGlobals => 0,
            BootStage::PostmasterIdentity => 1,
            BootStage::Umask => 2,
            BootStage::InstallationPaths => 3,
            BootStage::CrashReporter => 4,
            BootStage::BlockSignals => 5,
            BootStage::SignalHandlers => 6,
            BootStage::WaitEventSupport => 7,
            BootStage::LocalLatch => 8,
            BootStage::IgnoreTerminalSignals => 9,
            BootStage::UnblockSignals => 10,
            BootStage::GucOptions => 11,
            BootStage::MaxStackDepth => 12,
            BootStage::Options => 13,
            BootStage::SelectConfigFiles => 14,
            BootStage::MemoryAutotune => 15,
            BootStage::PrintConfigVariable => 16,
            BootStage::CheckDataDir => 17,
            BootStage::CheckControlFile => 18,
            BootStage::ChangeToDataDir => 19,
            BootStage::CheckConfig => 20,
            BootStage::EnvironmentDump => 21,
            BootStage::DataDirLockFile => 22,
            BootStage::LocalControlFile => 23,
            BootStage::ApplyLauncherRegister => 24,
            BootStage::SharedPreloadLibraries => 25,
            BootStage::PreloadContrib => 26,
            BootStage::SecureInitialize => 27,
            BootStage::RuntimeGangProcs => 28,
            BootStage::MaxBackends => 29,
            BootStage::ChildSlots => 30,
            BootStage::BgworkerShmem => 31,
            BootStage::ApplyLauncherShmem => 32,
            BootStage::FastPathLocks => 33,
            BootStage::ShmemRequests => 34,
            BootStage::ShmemGucs => 35,
            BootStage::WalConsistencyChecking => 36,
            BootStage::SharedMemory => 37,
            BootStage::MaxSafeFds => 38,
            BootStage::RemovePromoteFiles => 39,
            BootStage::RemoveLogrotateFiles => 40,
            BootStage::RemoveLogMetainfo => 41,
            BootStage::SysLogger => 42,
            BootStage::OutputNowhere => 43,
            BootStage::LogStarting => 44,
            BootStage::LogRegexpEngines => 45,
            BootStage::ClosePortsAtExit => 46,
            BootStage::HostListener => 47,
            BootStage::TcpSockets => 48,
            BootStage::UnixSockets => 49,
            BootStage::SocketsCheck => 50,
            BootStage::ListenAddressLine => 51,
            BootStage::OptsFile => 52,
            BootStage::ExternalPidFile => 53,
            BootStage::RemoveTempFiles => 54,
            BootStage::AutovacInit => 55,
            BootStage::LoadHba => 56,
            BootStage::LoadIdent => 57,
            BootStage::StartTime => 58,
            BootStage::StatusStarting => 59,
            BootStage::CloseTapPhase => 60,
            BootStage::FreezeLocale => 61,
            BootStage::EnterStartup => 62,
            BootStage::AdjustIoWorkers => 63,
            BootStage::StartCheckpointer => 64,
            BootStage::StartBgWriter => 65,
            BootStage::StartStartup => 66,
            BootStage::Serve => 67,
        }
    }

    /// The step that follows in the order; the last one follows itself.
    fn following(self) -> (r: BootStage)
        ensures
            !(self is Serve) ==> r.rank() == self.rank() + 1,
            self is Serve ==> r is Serve,
    {
        match self {
            BootStage::ProcessGlobals => BootStage::PostmasterIdentity,
            BootStage::PostmasterIdentity => BootStage::Umask,
            BootStage::Umask => BootStage::InstallationPaths,
            BootStage::InstallationPaths => BootStage::CrashReporter,
            BootStage::CrashReporter => BootStage::BlockSignals,
            BootStage::BlockSignals => BootStage::SignalHandlers,
            BootStage::SignalHandlers => BootStage::WaitEventSupport,
            BootStage::WaitEventSupport => BootStage::LocalLatch,
            BootStage::LocalLatch => BootStage::IgnoreTerminalSignals,
            BootStage::IgnoreTerminalSignals => BootStage::UnblockSignals,
            BootStage::UnblockSignals => BootStage::GucOptions,
            BootStage::GucOptions => BootStage::MaxStackDepth,
            BootStage::MaxStackDepth => BootStage::Options,
            BootStage::Options => BootStage::SelectConfigFiles,
            BootStage::SelectConfigFiles => BootStage::MemoryAutotune,
            BootStage::MemoryAutotune => BootStage::PrintConfigVariable,
            BootStage::PrintConfigVariable => BootStage::CheckDataDir,
            BootStage::CheckDataDir => BootStage::CheckControlFile,
            BootStage::CheckControlFile => BootStage::ChangeToDataDir,
            BootStage::ChangeToDataDir => BootStage::CheckConfig,
            BootStage::CheckConfig => BootStage::EnvironmentDump,
            BootStage::EnvironmentDump => BootStage::DataDirLockFile,
            BootStage::DataDirLockFile => BootStage::LocalControlFile,
            BootStage::LocalControlFile => BootStage::ApplyLauncherRegister,
            BootStage::ApplyLauncherRegister => BootStage::SharedPreloadLibraries,
            BootStage::SharedPreloadLibraries => BootStage::PreloadContrib,
            BootStage::PreloadContrib => BootStage::SecureInitialize,
            BootStage::SecureInitialize => BootStage::RuntimeGangProcs,
            BootStage::RuntimeGangProcs => BootStage::MaxBackends,
            BootStage::MaxBackends => BootStage::ChildSlots,
            BootStage::ChildSlots => BootStage::BgworkerShmem,
            BootStage::BgworkerShmem => BootStage::ApplyLauncherShmem,
            BootStage::ApplyLauncherShmem => BootStage::FastPathLocks,
            BootStage::FastPathLocks => BootStage::ShmemRequests,
            BootStage::ShmemRequests => BootStage::ShmemGucs,
            BootStage::ShmemGucs => BootStage::WalConsistencyChecking,
            BootStage::WalConsistencyChecking => BootStage::SharedMemory,
            BootStage::SharedMemory => BootStage::MaxSafeFds,
            BootStage::MaxSafeFds => BootStage::RemovePromoteFiles,
            BootStage::RemovePromoteFiles => BootStage::RemoveLogrotateFiles,
            BootStage::RemoveLogrotateFiles => BootStage::RemoveLogMetainfo,
            BootStage::RemoveLogMetainfo => BootStage::SysLogger,
            BootStage::SysLogger => BootStage::OutputNowhere,
            BootStage::OutputNowhere => BootStage::LogStarting,
            BootStage::LogStarting => BootStage::LogRegexpEngines,
            BootStage::LogRegexpEngines => BootStage::ClosePortsAtExit,
            BootStage::ClosePortsAtExit => BootStage::HostListener,
            BootStage::HostListener => BootStage::TcpSockets,
            BootStage::TcpSockets => BootStage::UnixSockets,
            BootStage::UnixSockets => BootStage::SocketsCheck,
            BootStage::SocketsCheck => BootStage::ListenAddressLine,
            BootStage::ListenAddressLine => BootStage::OptsFile,
            BootStage::OptsFile => BootStage::ExternalPidFile,
            BootStage::ExternalPidFile => BootStage::RemoveTempFiles,
            BootStage::RemoveTempFiles => BootStage::AutovacInit,
            BootStage::AutovacInit => BootStage::LoadHba,
            BootStage::LoadHba => BootStage::LoadIdent,
            BootStage::LoadIdent => BootStage::StartTime,
            BootStage::StartTime => BootStage::StatusStarting,
            BootStage::StatusStarting => BootStage::CloseTapPhase,
            BootStage::CloseTapPhase => BootStage::FreezeLocale,
            BootStage::FreezeLocale => BootStage::EnterStartup,
            BootStage::EnterStartup => BootStage::AdjustIoWorkers,
            BootStage::AdjustIoWorkers => BootStage::StartCheckpointer,
            BootStage::StartCheckpointer => BootStage::StartBgWriter,
            BootStage::StartBgWriter => BootStage::StartStartup,
            BootStage::StartStartup => BootStage::Serve,
            BootStage::Serve => BootStage::Serve,
        }
    }
}

/// Whether a step is left out.
pub open spec fn skipped(stage: BootStage, env: BootEnv) -> bool {
    match stage {
        BootStage::PrintConfigVariable => !env.output_config_variable,
        BootStage::EnvironmentDump => !env.debug3,
        BootStage::SecureInitialize => !env.enable_ssl,
        BootStage::ApplyLauncherShmem => !env.apply_launcher_shmem,
        BootStage::SysLogger => !env.logging_collector,
        BootStage::HostListener => !env.host_owns_listener,
        BootStage::ListenAddressLine => env.listen_addr_saved,
        BootStage::ExternalPidFile => !env.external_pid_file,
        BootStage::StartCheckpointer => env.have_checkpointer,
        BootStage::StartBgWriter => env.have_bgwriter,
        _ => false,
    }
}

fn is_skipped(stage: BootStage, env: BootEnv) -> (r: bool)
    ensures
        r == skipped(stage, env),
{
    match stage {
        BootStage::PrintConfigVariable => !env.output_config_variable,
        BootStage::EnvironmentDump => !env.debug3,
        BootStage::SecureInitialize => !env.enable_ssl,
        BootStage::ApplyLauncherShmem => !env.apply_launcher_shmem,
        BootStage::SysLogger => !env.logging_collector,
        BootStage::HostListener => !env.host_owns_listener,
        BootStage::ListenAddressLine => env.listen_addr_saved,
        BootStage::ExternalPidFile => !env.external_pid_file,
        BootStage::StartCheckpointer => env.have_checkpointer,
        BootStage::StartBgWriter => env.have_bgwriter,
        _ => false,
    }
}

/// Whether `s` is the first step behind `stage` that is not left out.
pub open spec fn comes_next(stage: BootStage, s: BootStage, env: BootEnv) -> bool {
    &&& stage.rank() < s.rank()
    &&& !skipped(s, env)
    &&& forall|t: BootStage| stage.rank() < #[trigger] t.rank() < s.rank() ==> skipped(t, env)
}

/// The code with which the process ends after a step, where it ends there: a
/// variable was printed, the server is done, or a step refused to go on.
pub open spec fn exit_code(stage: BootStage, result: StageResult) -> Option<i32> {
    match (stage, result) {
        (BootStage::PrintConfigVariable, StageResult::Done) => Some(0),
        (BootStage::Serve, StageResult::Done) => Some(0),
        (BootStage::InstallationPaths, StageResult::Refused) => Some(1),
        (BootStage::Options, StageResult::Refused) => Some(1),
        (BootStage::SelectConfigFiles, StageResult::Refused) => Some(2),
        (BootStage::CheckControlFile, StageResult::Refused) => Some(2),
        (BootStage::CheckConfig, StageResult::Refused) => Some(1),
        (BootStage::OptsFile, StageResult::Refused) => Some(1),
        (BootStage::Serve, StageResult::Refused) => Some(1),
        _ => None,
    }
}

/// Whether a step may go wrong without stopping the start.
pub open spec fn only_logged(stage: BootStage) -> bool {
    stage is RemoveLogMetainfo || stage is ExternalPidFile || stage is LoadIdent
}

/// Whether the start goes on after a step.
pub open spec fn goes_on(stage: BootStage, result: StageResult) -> bool {
    match result {
        StageResult::Done => !(stage is PrintConfigVariable || stage is Serve),
        StageResult::Refused => only_logged(stage),
        StageResult::Failed => false,
    }
}

/// Whether `r` is what follows a step.
pub open spec fn boot_follows(stage: BootStage, result: StageResult, env: BootEnv, r: BootStep) -> bool {
    if goes_on(stage, result) {
        r matches BootStep::Run(s) && comes_next(stage, s, env)
    } else {
        match exit_code(stage, result) {
            Some(code) => r == BootStep::Exit(code),
            None => r == BootStep::Fail,
        }
    }
}

fn first_behind(stage: BootStage, env: BootEnv) -> (r: BootStage)
    requires
        !(stage is Serve),
    ensures
        comes_next(stage, r, env),
{
    let mut s: BootStage = stage.following();
    while is_skipped(s, env)
        invariant
            stage.rank() < s.rank(),
            forall|t: BootStage| stage.rank() < #[trigger] t.rank() < s.rank() ==> skipped(t, env),
        decreases 67 - s.rank(),
    {
        let ghost before = s;
        s = s.following();
        proof {
            lemma_rank_injective();
            assert forall|t: BootStage| stage.rank() < #[trigger] t.rank() < s.rank() implies skipped(
                t,
                env,
            ) by {
                assert(t.rank() == before.rank() ==> t == before);
            }
        }
    }
    s
}

/// What follows a step of the start, given how it went. A start begins with
/// `BootStage::ProcessGlobals`.
pub fn PostmasterMain(stage: BootStage, result: StageResult, env: BootEnv) -> (r: BootStep)
    ensures
        boot_follows(stage, result, env, r),
{
    match result {
        StageResult::Done => match stage {
            BootStage::PrintConfigVariable | BootStage::Serve => BootStep::Exit(0),
            _ => BootStep::Run(first_behind(stage, env)),
        },
        StageResult::Refused => match stage {
            BootStage::InstallationPaths
            | BootStage::Options
            | BootStage::CheckConfig
            | BootStage::OptsFile
            | BootStage::Serve => BootStep::Exit(1),
            BootStage::SelectConfigFiles | BootStage::CheckControlFile => BootStep::Exit(2),
            BootStage::RemoveLogMetainfo
            | BootStage::ExternalPidFile
            | BootStage::LoadIdent => BootStep::Run(first_behind(stage, env)),
            _ => BootStep::Fail,
        },
        StageResult::Failed => BootStep::Fail,
    }
}

proof fn lemma_rank_injective()
    ensures
        forall|a: BootStage, b: BootStage| #[trigger] a.rank() == #[trigger] b.rank() ==> a == b,
{
}

/// At most one step follows another, so the order of a start is fixed by what
/// is left out.
pub proof fn law_boot_order(stage: BootStage, a: BootStage, b: BootStage, env: BootEnv)
    requires
        comes_next(stage, a, env),
        comes_next(stage, b, env),
    ensures
        a == b,
{
    lemma_rank_injective();
    assert(a.rank() == b.rank());
}

/// A step that went wrong never leads to a later one, but for the three that
/// only log.
pub proof fn law_failure_stops_the_boot(
    stage: BootStage,
    result: StageResult,
    env: BootEnv,
    r: BootStep,
)
    requires
        !(result is Done),
        !only_logged(stage),
        boot_follows(stage, result, env, r),
    ensures
        !(r is Run),
{
}

/// Serving is the last step, and shared memory, the check for sockets and the
/// child that brings the database up come before it in every start; the two
/// other first children are left out only where they run already.
pub proof fn law_serving_comes_last(stage: BootStage, env: BootEnv)
    ensures
        stage.rank() <= BootStage::Serve.rank(),
        !skipped(BootStage::SharedMemory, env),
        !skipped(BootStage::SocketsCheck, env),
        !skipped(BootStage::StartStartup, env),
        skipped(BootStage::StartCheckpointer, env) ==> env.have_checkpointer,
        skipped(BootStage::StartBgWriter, env) ==> env.have_bgwriter,
{
}

} // verus!
