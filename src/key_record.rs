use crate::storage::{LockNewResult, LockResult, StorageError};
use crate::storage_lock::{LockTime, LockView, StorageLock};
use vstd::prelude::*;

verus! {

/// The state of one key: its payload record and its lock record, each of
/// which may be absent.
pub type KeyState = (Option<Seq<u8>>, Option<LockView>);

pub open spec fn bytes_of(o: Option<Vec<u8>>) -> Option<Seq<u8>> {
    match o {
        Some(v) => Some(v@),
        None => None,
    }
}

pub open spec fn token_of(o: Option<StorageLock>) -> Option<LockView> {
    match o {
        Some(l) => Some(l@),
        None => None,
    }
}

/// A key is present when its payload record or its lock record exists.
pub open spec fn present(s: KeyState) -> bool {
    s.0 is Some || s.1 is Some
}

/// The recorded lock is exactly `l`.
pub open spec fn holds(s: KeyState, l: LockView) -> bool {
    s.1 == Some(l)
}

/// The owner named by the lock record.
pub open spec fn holder(s: KeyState) -> Seq<char>
    recommends
        s.1 is Some,
{
    s.1.unwrap().0
}

pub open spec fn after_save(s: KeyState, data: Seq<u8>, l: LockView) -> KeyState {
    if holds(s, l) {
        (Some(data), s.1)
    } else {
        s
    }
}

pub open spec fn after_lock(s: KeyState, t: LockView) -> KeyState {
    if s.1 is None {
        (s.0, Some(t))
    } else {
        s
    }
}

pub open spec fn after_lock_new(s: KeyState, t: LockView, fresh: Seq<u8>) -> KeyState {
    if !present(s) {
        (Some(fresh), Some(t))
    } else {
        s
    }
}

pub open spec fn after_unlock(s: KeyState, l: LockView) -> KeyState {
    if holds(s, l) {
        (s.0, None)
    } else {
        s
    }
}

pub open spec fn after_force_unlock(s: KeyState) -> KeyState {
    (s.0, None)
}

/// A lock result in plain values: `Ok((token, payload))` on success,
/// `Err(owner)` when the key is locked.
pub open spec fn lock_outcome(r: LockResult<Option<Vec<u8>>>) -> Result<
    (LockView, Option<Seq<u8>>),
    Seq<char>,
> {
    match r {
        LockResult::Success { lock, item } => Ok((lock@, bytes_of(item))),
        LockResult::AlreadyLocked { who } => Err(who@),
    }
}

/// The two records of one key, as the lock protocol reads and changes them.
///
/// Each method is one operation of the storage contract on that key: a
/// backend reads the records, applies the method, and writes back what it
/// changed.
#[derive(Debug)]
pub struct KeyRecord {
    pub payload: Option<Vec<u8>>,
    pub lock: Option<StorageLock>,
}

impl View for KeyRecord {
    type V = KeyState;

    open spec fn view(&self) -> KeyState {
        (bytes_of(self.payload), token_of(self.lock))
    }
}

/// The owner reported for a lock record that cannot be read.
pub const UNKNOWN_OWNER: &'static str = "unknown";

/// The token that stands for a lock record that cannot be read: it names
/// `UNKNOWN_OWNER`, at the epoch; `force_unlock` is the way to clear it.
pub open spec fn unreadable_lock() -> LockView {
    (UNKNOWN_OWNER@, LockTime { secs: 0, nanos: 0 })
}

impl KeyRecord {
    /// The records as read from a substrate: `lock_file` is `None` when there
    /// is no lock record, `Some(None)` when there is one that does not parse.
    /// A lock record that does not parse still locks the item.
    pub fn observed(payload: Option<Vec<u8>>, lock_file: Option<Option<StorageLock>>) -> (r: KeyRecord)
        ensures
            r@.0 == bytes_of(payload),
            r@.1 == match lock_file {
                None => None,
                Some(Some(l)) => Some(l@),
                Some(None) => Some(unreadable_lock()),
            },
    {
        let lock = match lock_file {
            None => None,
            Some(Some(l)) => Some(l),
            Some(None) => Some(StorageLock::with_time(UNKNOWN_OWNER, LockTime { secs: 0, nanos: 0 })),
        };
        KeyRecord { payload, lock }
    }

    /// A key with neither record.
    pub fn absent() -> (r: KeyRecord)
        ensures
            r@ == (None::<Seq<u8>>, None::<LockView>),
    {
        KeyRecord { payload: None, lock: None }
    }

    /// Whether the item is present: its payload record or its lock record exists.
    pub fn is_present(&self) -> (r: bool)
        ensures
            r == present(self@),
    {
        self.payload.is_some() || self.lock.is_some()
    }

    /// The payload, without taking a lock.
    pub fn load(&self) -> (r: Result<Vec<u8>, StorageError>)
        ensures
            match self@.0 {
                Some(p) => r matches Ok(v) && v@ == p,
                None => r == Err::<Vec<u8>, _>(StorageError::NotFound),
            },
    {
        match &self.payload {
            Some(p) => Ok(p.clone()),
            None => Err(StorageError::NotFound),
        }
    }

    /// Whether a lock record exists and equals `lock`.
    pub fn verify_lock(&self, lock: &StorageLock) -> (r: bool)
        ensures
            r == holds(self@, lock@),
    {
        match &self.lock {
            Some(l) => l.same_as(lock),
            None => false,
        }
    }

    /// Writes `data` as the payload if `lock` is the recorded lock.
    pub fn save(&mut self, data: Vec<u8>, lock: &StorageLock) -> (r: Result<(), StorageError>)
        ensures
            final(self)@ == after_save(old(self)@, data@, lock@),
            r is Ok <==> holds(old(self)@, lock@),
            r is Err ==> r == Err::<(), _>(StorageError::LockInvalid),
    {
        if self.verify_lock(lock) {
            self.payload = Some(data);
            Ok(())
        } else {
            Err(StorageError::LockInvalid)
        }
    }

    /// Records `token` as the lock unless a lock is recorded already.
    ///
    /// On success the current payload comes back (`None` when there is none:
    /// the caller substitutes the default item); otherwise the owner of the
    /// recorded lock.
    pub fn lock(&mut self, token: StorageLock) -> (r: LockResult<Option<Vec<u8>>>)
        ensures
            final(self)@ == after_lock(old(self)@, token@),
            lock_outcome(r) == (if old(self)@.1 is None {
                Ok::<_, Seq<char>>((token@, old(self)@.0))
            } else {
                Err::<(LockView, Option<Seq<u8>>), _>(holder(old(self)@))
            }),
    {
        match &self.lock {
            Some(l) => {
                let who = l.who().to_owned();
                LockResult::AlreadyLocked { who }
            },
            None => {
                let item = match &self.payload {
                    Some(p) => Some(p.clone()),
                    None => None,
                };
                self.lock = Some(token.duplicate());
                LockResult::Success { lock: token, item }
            },
        }
    }

    /// The first half of `lock_new`: refuses a present item, else records
    /// `token` as the lock.
    pub fn claim_new(&mut self, token: &StorageLock) -> (r: LockNewResult<()>)
        ensures
            !present(old(self)@) ==> r is Success && final(self)@ == (old(self)@.0, Some(token@)),
            present(old(self)@) ==> r is AlreadyExists && final(self)@ == old(self)@,
            r matches LockNewResult::Success { lock, .. } ==> lock@ == token@,
    {
        if self.is_present() {
            return LockNewResult::AlreadyExists;
        }
        self.lock = Some(token.duplicate());
        LockNewResult::Success { lock: token.duplicate(), item: () }
    }

    /// The second half of `lock_new`, on the records as read again after
    /// the lock was written. If the lock is no longer `token` (another process
    /// replaced or removed it), reports the current owner (empty when there is
    /// none) and changes nothing. If a payload appeared meanwhile, withdraws
    /// the lock and reports the item as existing. Otherwise writes `fresh` as
    /// the payload.
    pub fn finish_new(&mut self, token: StorageLock, fresh: Vec<u8>) -> (r: LockNewResult<Vec<u8>>)
        ensures
            !holds(old(self)@, token@) ==> final(self)@ == old(self)@ && (r matches
                LockNewResult::AlreadyLocked { who } && who@ == (if old(self)@.1 is Some {
                holder(old(self)@)
            } else {
                Seq::<char>::empty()
            })),
            holds(old(self)@, token@) && old(self)@.0 is Some ==> r is AlreadyExists
                && final(self)@ == (old(self)@.0, None::<LockView>),
            holds(old(self)@, token@) && old(self)@.0 is None ==> final(self)@ == (
                Some(fresh@),
                Some(token@),
            ) && (r matches LockNewResult::Success { lock, item } && lock@ == token@ && item@
                == fresh@),
    {
        if !self.verify_lock(&token) {
            let who = match &self.lock {
                Some(l) => l.who().to_owned(),
                None => String::new(),
            };
            return LockNewResult::AlreadyLocked { who };
        }
        if self.payload.is_some() {
            self.lock = None;
            return LockNewResult::AlreadyExists;
        }
        let data = fresh.clone();
        self.payload = Some(fresh);
        LockNewResult::Success { lock: token, item: data }
    }

    /// Creates and locks an item that must not be present yet, with `fresh`
    /// as its payload.
    pub fn lock_new(&mut self, token: StorageLock, fresh: Vec<u8>) -> (r: LockNewResult<Vec<u8>>)
        ensures
            final(self)@ == after_lock_new(old(self)@, token@, fresh@),
            r is Success <==> !present(old(self)@),
            present(old(self)@) ==> r is AlreadyExists,
            r matches LockNewResult::Success { lock, item } ==> lock@ == token@ && item@ == fresh@,
    {
        match self.claim_new(&token) {
            LockNewResult::Success { .. } => self.finish_new(token, fresh),
            _ => LockNewResult::AlreadyExists,
        }
    }

    /// Removes the lock record if `lock` is the recorded lock; the payload
    /// stays as it is.
    pub fn unlock(&mut self, lock: &StorageLock) -> (r: Result<(), StorageError>)
        ensures
            final(self)@ == after_unlock(old(self)@, lock@),
            r is Ok <==> holds(old(self)@, lock@),
            r is Err ==> r == Err::<(), _>(StorageError::LockInvalid),
    {
        if self.verify_lock(lock) {
            self.lock = None;
            Ok(())
        } else {
            Err(StorageError::LockInvalid)
        }
    }

    /// Removes the lock record whoever holds it.
    pub fn force_unlock(&mut self) -> (r: Result<(), StorageError>)
        ensures
            final(self)@ == after_force_unlock(old(self)@),
            r is Ok <==> old(self)@.1 is Some,
            r is Err ==> r == Err::<(), _>(StorageError::NotLocked),
    {
        if self.lock.is_some() {
            self.lock = None;
            Ok(())
        } else {
            Err(StorageError::NotLocked)
        }
    }
}

} // verus!
