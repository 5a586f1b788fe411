use crate::storage_lock::StorageLock;
use vstd::prelude::*;

verus! {

/// The failures of storage operations.
#[derive(Debug, Clone, Copy, PartialEq, Eq, Structural)]
pub enum StorageError {
    /// No payload record exists for the key.
    NotFound,
    /// The presented lock token is not the recorded one.
    LockInvalid,
    /// Another owner holds the lock.
    AlreadyLocked,
    /// The item exists already.
    AlreadyExists,
    /// No lock record exists for the key.
    NotLocked,
    /// No unused identifier was found within the allowed attempts.
    ExhaustedIdSpace,
    /// A wipe was asked for without the exact confirmation phrase.
    InvalidConfirmation,
    /// The identifier's text cannot name a record of this backend.
    InvalidId,
    /// A scan continuation token that this backend did not hand out.
    InvalidContinuation,
}

/// The outcome of a lock attempt.
#[derive(Debug)]
pub enum LockResult<ITEM> {
    /// The lock was recorded; `item` is the current payload.
    Success { lock: StorageLock, item: ITEM },
    /// Another owner, `who`, holds the lock.
    AlreadyLocked { who: String },
}

impl<ITEM> LockResult<ITEM> {
    /// The token and the item, or `AlreadyLocked` as an error.
    pub fn success(self) -> (r: Result<(StorageLock, ITEM), StorageError>)
        ensures
            match self {
                LockResult::Success { lock, item } => r == Ok::<_, StorageError>((lock, item)),
                LockResult::AlreadyLocked { .. } => r == Err::<(StorageLock, ITEM), _>(
                    StorageError::AlreadyLocked,
                ),
            },
    {
        match self {
            LockResult::Success { lock, item } => Ok((lock, item)),
            LockResult::AlreadyLocked { .. } => Err(StorageError::AlreadyLocked),
        }
    }
}

/// The outcome of an attempt to lock an item that must not exist yet.
#[derive(Debug)]
pub enum LockNewResult<ITEM> {
    /// The item did not exist; it was created with a default payload and locked.
    Success { lock: StorageLock, item: ITEM },
    /// Another owner, `who`, holds the lock.
    AlreadyLocked { who: String },
    /// The item exists already.
    AlreadyExists,
}

impl<ITEM> LockNewResult<ITEM> {
    /// The token and the item, or the reason for failure as an error.
    pub fn success(self) -> (r: Result<(StorageLock, ITEM), StorageError>)
        ensures
            match self {
                LockNewResult::Success { lock, item } => r == Ok::<_, StorageError>((lock, item)),
                LockNewResult::AlreadyLocked { .. } => r == Err::<(StorageLock, ITEM), _>(
                    StorageError::AlreadyLocked,
                ),
                LockNewResult::AlreadyExists => r == Err::<(StorageLock, ITEM), _>(
                    StorageError::AlreadyExists,
                ),
            },
    {
        match self {
            LockNewResult::Success { lock, item } => Ok((lock, item)),
            LockNewResult::AlreadyLocked { .. } => Err(StorageError::AlreadyLocked),
            LockNewResult::AlreadyExists => Err(StorageError::AlreadyExists),
        }
    }
}

} // verus!

verus! {

/// How many candidate identifiers `create` tries before giving up.
pub const CREATE_ATTEMPTS: u32 = 10;

/// What `create` does after checking whether a candidate identifier is taken.
#[derive(Debug, Clone, Copy, PartialEq, Eq, Structural)]
pub enum CreateStep {
    /// The candidate is unused: hand it out.
    Accept,
    /// The candidate is taken; `tries_left` more candidates may be tried.
    Retry { tries_left: u32 },
}

/// The decision of `create` on a candidate, with `tries_left` candidates
/// allowed counting this one (`CREATE_ATTEMPTS` for the first):
/// `ExhaustedIdSpace` once a taken candidate was the last one allowed.
pub fn create_step(tries_left: u32, taken: bool) -> (r: Result<CreateStep, StorageError>)
    ensures
        !taken ==> r == Ok::<_, StorageError>(CreateStep::Accept),
        taken && tries_left > 1 ==> r == Ok::<_, StorageError>(
            CreateStep::Retry { tries_left: (tries_left - 1) as u32 },
        ),
        taken && tries_left <= 1 ==> r == Err::<CreateStep, _>(StorageError::ExhaustedIdSpace),
{
    if !taken {
        Ok(CreateStep::Accept)
    } else if tries_left > 1 {
        Ok(CreateStep::Retry { tries_left: tries_left - 1 })
    } else {
        Err(StorageError::ExhaustedIdSpace)
    }
}

/// The phrase that `wipe` demands.
pub const WIPE_CONFIRMATION: &'static str = "Yes, I know what I am doing!";

/// Accepts exactly the confirmation phrase of `wipe`.
pub fn confirm_wipe(confirmation: &str) -> (r: Result<(), StorageError>)
    ensures
        r is Ok <==> confirmation@ == WIPE_CONFIRMATION@,
        r is Err ==> r == Err::<(), _>(StorageError::InvalidConfirmation),
{
    if String::from_str(confirmation) == String::from_str(WIPE_CONFIRMATION) {
        Ok(())
    } else {
        Err(StorageError::InvalidConfirmation)
    }
}

} // verus!
