use crate::storage::{LockNewResult, LockResult};
use crate::storage_lock::StorageLock;
use vstd::prelude::*;

verus! {

/// A backend that stores nothing: every operation succeeds with a trivial
/// value. Meant for defaults, tests and dry runs; it can warn on each use.
#[derive(Debug, Clone, Copy, PartialEq, Eq, Structural)]
pub struct StorageNull {
    warnings_on_use: bool,
}

impl Default for StorageNull {
    /// Warnings off.
    fn default() -> (r: StorageNull)
        ensures
            !r.warns(),
    {
        StorageNull { warnings_on_use: false }
    }
}

impl StorageNull {
    pub closed spec fn warns(&self) -> bool {
        self.warnings_on_use
    }

    /// Turns on a warning for every operation.
    pub fn enable_warnings_on_use(&mut self)
        ensures
            final(self).warns(),
    {
        self.warnings_on_use = true;
    }

    /// Whether each operation warns.
    pub fn warnings_on_use(&self) -> (r: bool)
        ensures
            r == self.warns(),
    {
        self.warnings_on_use
    }

    /// Nothing is ever present.
    pub fn is_present(&self) -> (r: bool)
        ensures
            !r,
    {
        false
    }

    /// Every token verifies.
    pub fn verify_lock(&self, lock: &StorageLock) -> (r: bool)
        ensures
            r,
    {
        true
    }

    /// Locking always succeeds with a fresh token for `who`; the item is the
    /// default one (`None`: no payload).
    pub fn lock(&self, who: &str) -> (r: LockResult<Option<Vec<u8>>>)
        ensures
            r matches LockResult::Success { lock, item } && lock@.0 == who@ && item is None,
    {
        LockResult::Success { lock: StorageLock::new(who), item: None }
    }

    /// Creating always succeeds with a fresh token for `who` and the default
    /// item.
    pub fn lock_new(&self, who: &str) -> (r: LockNewResult<()>)
        ensures
            r matches LockNewResult::Success { lock, .. } && lock@.0 == who@,
    {
        LockNewResult::Success { lock: StorageLock::new(who), item: () }
    }
}

} // verus!
