//! Keyed item storage with cooperative per-item locking.
//!
//! The verified core: identifier schemes, lock tokens, the outcome types of
//! lock attempts, the per-key lock protocol, and the bookkeeping of the
//! filesystem layout (paths, enumeration, pagination). Backends read the
//! records of a key, let [`KeyRecord`] decide, and write back what changed.

pub mod text;
pub mod storage_id;
pub mod sequential_id;
pub mod random_id;
pub mod simple_external_id;
pub mod external_id;
pub mod storage_lock;
pub mod storage;
pub mod key_record;
pub mod laws;
pub mod disk_layout;
pub mod storage_null;
pub mod metadata;

pub use storage_id::{parse_all, IdError, StorageId};
pub use sequential_id::SequentialId;
pub use random_id::RandomId;
pub use simple_external_id::SimpleExternalId;
pub use external_id::ExternalId;
pub use storage_lock::{LockTime, LockView, StorageLock};
pub use storage::{
    confirm_wipe, create_step, CreateStep, LockNewResult, LockResult, StorageError, CREATE_ATTEMPTS,
    WIPE_CONFIRMATION,
};
pub use key_record::{KeyRecord, UNKNOWN_OWNER};
pub use disk_layout::{scan_page, DiskLayout};
pub use storage_null::StorageNull;
pub use metadata::Metadata;
