//! The kinds of children the supervisor runs, and the fixed table about them.
use vstd::prelude::*;

verus! {

/// How many kinds of children there are.
pub const BACKEND_NUM_TYPES: u32 = 18;

/// One kind of child. The declaration order is the index order.
#[derive(Clone, Copy, Debug, PartialEq, Eq, Structural)]
pub enum BackendType {
    Invalid,
    Backend,
    DeadEndBackend,
    AutovacLauncher,
    AutovacWorker,
    BgWorker,
    WalSender,
    SlotsyncWorker,
    StandaloneBackend,
    Archiver,
    BgWriter,
    Checkpointer,
    IoWorker,
    Startup,
    WalReceiver,
    WalSummarizer,
    WalWriter,
    Logger,
}

impl BackendType {
    /// The position of the kind in the table.
    pub open spec fn idx(self) -> u32 {
        match self {
            BackendType::Invalid => 0,
            BackendType::Backend => 1,
            BackendType::DeadEndBackend => 2,
            BackendType::AutovacLauncher => 3,
            BackendType::AutovacWorker => 4,
            BackendType::BgWorker => 5,
            BackendType::WalSender => 6,
            BackendType::SlotsyncWorker => 7,
            BackendType::StandaloneBackend => 8,
            BackendType::Archiver => 9,
            BackendType::BgWriter => 10,
            BackendType::Checkpointer => 11,
            BackendType::IoWorker => 12,
            BackendType::Startup => 13,
            BackendType::WalReceiver => 14,
            BackendType::WalSummarizer => 15,
            BackendType::WalWriter => 16,
            BackendType::Logger => 17,
        }
    }

    /// The position of the kind in the table.
    pub fn index(self) -> (i: u32)
        ensures
            i == self.idx(),
            i < BACKEND_NUM_TYPES,
    {
        match self {
            BackendType::Invalid => 0,
            BackendType::Backend => 1,
            BackendType::DeadEndBackend => 2,
            BackendType::AutovacLauncher => 3,
            BackendType::AutovacWorker => 4,
            BackendType::BgWorker => 5,
            BackendType::WalSender => 6,
            BackendType::SlotsyncWorker => 7,
            BackendType::StandaloneBackend => 8,
            BackendType::Archiver => 9,
            BackendType::BgWriter => 10,
            BackendType::Checkpointer => 11,
            BackendType::IoWorker => 12,
            BackendType::Startup => 13,
            BackendType::WalReceiver => 14,
            BackendType::WalSummarizer => 15,
            BackendType::WalWriter => 16,
            BackendType::Logger => 17,
        }
    }

    /// Every kind, in index order.
    pub fn all() -> (v: Vec<BackendType>)
        ensures
            v@.len() == BACKEND_NUM_TYPES,
            forall|i: int| 0 <= i < v@.len() ==> (#[trigger] v@[i]).idx() == i,
    {
        vec![
            BackendType::Invalid,
            BackendType::Backend,
            BackendType::DeadEndBackend,
            BackendType::AutovacLauncher,
            BackendType::AutovacWorker,
            BackendType::BgWorker,
            BackendType::WalSender,
            BackendType::SlotsyncWorker,
            BackendType::StandaloneBackend,
            BackendType::Archiver,
            BackendType::BgWriter,
            BackendType::Checkpointer,
            BackendType::IoWorker,
            BackendType::Startup,
            BackendType::WalReceiver,
            BackendType::WalSummarizer,
            BackendType::WalWriter,
            BackendType::Logger,
        ]
    }
}

/// Two kinds with the same index are the same kind.
pub proof fn law_index_names_the_kind(a: BackendType, b: BackendType)
    requires
        a.idx() == b.idx(),
    ensures
        a == b,
{
}

} // verus!
