//! Everything that touches the daemon: its socket protocol and its shared memory.

pub mod connection;
pub mod lock;
pub mod memory;
pub mod memory_model;

pub use self::connection::{command_line, FtlConnection, ProtocolError};
pub use self::lock::{with_lock, FtlLock, ShmLockGuard};
pub use self::memory::FtlMemory;
pub use self::memory_model::{
    FtlClient, FtlCounters, FtlDnssecType, FtlDomain, FtlOverTime, FtlQuery, FtlQueryReplyType,
    FtlQueryStatus, FtlQueryType, FtlSettings, FtlStrings, FtlUpstream, BLOCKED_STATUSES,
    MAGIC_BYTE,
};
