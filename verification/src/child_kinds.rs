//! The fixed table about child kinds.
use vstd::prelude::*;
use crate::backend_type::BackendType;

verus! {

/// What the table says about one kind.
pub struct ChildProcessKind {
    pub name: &'static str,
    /// Whether there is a main function to run.
    pub has_main: bool,
    /// Whether it uses shared memory.
    pub shmem_attach: bool,
}

/// The name of a kind.
pub open spec fn kind_name(t: BackendType) -> Seq<char> {
    match t {
        BackendType::Invalid => "invalid"@,
        BackendType::Backend => "backend"@,
        BackendType::DeadEndBackend => "dead-end backend"@,
        BackendType::AutovacLauncher => "autovacuum launcher"@,
        BackendType::AutovacWorker => "autovacuum worker"@,
        BackendType::BgWorker => "bgworker"@,
        BackendType::WalSender => "wal sender"@,
        BackendType::SlotsyncWorker => "slot sync worker"@,
        BackendType::StandaloneBackend => "standalone backend"@,
        BackendType::Archiver => "archiver"@,
        BackendType::BgWriter => "bgwriter"@,
        BackendType::Checkpointer => "checkpointer"@,
        BackendType::IoWorker => "io_worker"@,
        BackendType::Startup => "startup"@,
        BackendType::WalReceiver => "wal_receiver"@,
        BackendType::WalSummarizer => "wal_summarizer"@,
        BackendType::WalWriter => "wal_writer"@,
        BackendType::Logger => "syslogger"@,
    }
}

/// Whether a kind has a main function: the placeholder, the standalone backend
/// and the WAL sender, which a backend turns into, have none.
pub open spec fn kind_has_main(t: BackendType) -> bool {
    t != BackendType::Invalid && t != BackendType::StandaloneBackend && t != BackendType::WalSender
}

/// Whether a kind uses shared memory.
pub open spec fn kind_attaches(t: BackendType) -> bool {
    t != BackendType::Invalid && t != BackendType::StandaloneBackend && t != BackendType::Logger
}

/// The name of a kind.
pub fn postmaster_child_name(child_type: BackendType) -> (r: &'static str)
    ensures
        r@ == kind_name(child_type),
{
    match child_type {
        BackendType::Invalid => "invalid",
        BackendType::Backend => "backend",
        BackendType::DeadEndBackend => "dead-end backend",
        BackendType::AutovacLauncher => "autovacuum launcher",
        BackendType::AutovacWorker => "autovacuum worker",
        BackendType::BgWorker => "bgworker",
        BackendType::WalSender => "wal sender",
        BackendType::SlotsyncWorker => "slot sync worker",
        BackendType::StandaloneBackend => "standalone backend",
        BackendType::Archiver => "archiver",
        BackendType::BgWriter => "bgwriter",
        BackendType::Checkpointer => "checkpointer",
        BackendType::IoWorker => "io_worker",
        BackendType::Startup => "startup",
        BackendType::WalReceiver => "wal_receiver",
        BackendType::WalSummarizer => "wal_summarizer",
        BackendType::WalWriter => "wal_writer",
        BackendType::Logger => "syslogger",
    }
}

/// The table's entry for a kind.
pub fn child_process_kind(t: BackendType) -> (r: ChildProcessKind)
    ensures
        r.name@ == kind_name(t),
        r.has_main == kind_has_main(t),
        r.shmem_attach == kind_attaches(t),
{
    ChildProcessKind {
        name: postmaster_child_name(t),
        has_main: t != BackendType::Invalid && t != BackendType::StandaloneBackend && t
            != BackendType::WalSender,
        shmem_attach: t != BackendType::Invalid && t != BackendType::StandaloneBackend && t
            != BackendType::Logger,
    }
}

/// The kinds that serve a connection from outside.
pub open spec fn serves_client(t: BackendType) -> bool {
    t == BackendType::Backend || t == BackendType::WalSender
}

/// Whether a kind serves a connection from outside.
pub fn is_external_connection_backend(t: BackendType) -> (r: bool)
    ensures
        r == serves_client(t),
{
    t == BackendType::Backend || t == BackendType::WalSender
}

} // verus!
