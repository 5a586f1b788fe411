use oml_storage::{
    KeyRecord, LockNewResult, LockResult, LockTime, StorageError, StorageLock, StorageNull,
};

fn token(who: &str, secs: i64) -> StorageLock {
    StorageLock::with_time(who, LockTime { secs, nanos: 0 })
}

#[test]
fn storage_null_it_debugs() {
    let storage = StorageNull::default();
    println!("{storage:?}");
}

#[test]
fn null_backend_can_warn() {
    let mut storage = StorageNull::default();
    assert!(!storage.warnings_on_use());
    storage.enable_warnings_on_use();
    assert!(storage.warnings_on_use());
}

#[test]
fn null_backend_answers_trivially() {
    let storage = StorageNull::default();
    assert!(!storage.is_present());
    assert!(storage.verify_lock(&token("X", 1)));
    match storage.lock("A") {
        LockResult::Success { lock, item } => {
            assert_eq!(lock.who(), "A");
            assert_eq!(item, None);
        }
        LockResult::AlreadyLocked { .. } => panic!("the null backend never refuses"),
    }
    assert!(matches!(storage.lock_new("B"), LockNewResult::Success { .. }));
}

#[test]
fn lock_token_carries_owner_and_time() {
    let l = StorageLock::new("broken");
    assert_eq!(l.who(), "broken");
    assert!(l.when().nanos < 1_000_000_000);
    assert!(l.when().secs > 1_600_000_000);
    let a = token("A", 5);
    assert!(a.same_as(&token("A", 5)));
    assert!(!a.same_as(&token("A", 6)));
    assert!(!a.same_as(&token("B", 5)));
    assert_eq!(a, a.duplicate());
}

#[test]
fn solo_round_trip() {
    let mut rec = KeyRecord::absent();
    let (lock, item) = rec.lock(token("A", 1)).success().unwrap();
    assert_eq!(item, None);
    let data = b"{\"counter\":1,\"data\":\"x\"}".to_vec();
    assert_eq!(rec.save(data.clone(), &lock), Ok(()));
    assert_eq!(rec.unlock(&lock), Ok(()));
    assert_eq!(rec.load(), Ok(data));
}

#[test]
fn second_lock_reports_the_owner() {
    let mut rec = KeyRecord::absent();
    assert!(matches!(rec.lock(token("A", 1)), LockResult::Success { .. }));
    match rec.lock(token("B", 2)) {
        LockResult::AlreadyLocked { who } => assert_eq!(who, "A"),
        LockResult::Success { .. } => panic!("second lock must fail"),
    }
}

#[test]
fn contention_has_one_winner() {
    let mut rec = KeyRecord::absent();
    let mut winners = Vec::new();
    let mut locked = 0;
    for i in 0..10 {
        match rec.lock(token(&format!("worker-{i}"), i)) {
            LockResult::Success { lock, .. } => winners.push(lock),
            LockResult::AlreadyLocked { who } => {
                assert_eq!(who, "worker-0");
                locked += 1;
            }
        }
    }
    assert_eq!(winners.len(), 1);
    assert_eq!(locked, 9);
    assert_eq!(rec.unlock(&winners[0]), Ok(()));
    assert!(matches!(rec.lock(token("late", 20)), LockResult::Success { .. }));
}

#[test]
fn stale_lock_recovery() {
    let mut rec = KeyRecord::absent();
    let _dropped = rec.lock(token("A", 1));
    assert!(matches!(rec.lock(token("B", 2)), LockResult::AlreadyLocked { .. }));
    assert_eq!(rec.force_unlock(), Ok(()));
    assert!(matches!(rec.lock(token("B", 3)), LockResult::Success { .. }));
}

#[test]
fn force_unlock_without_lock_fails() {
    let mut rec = KeyRecord::absent();
    assert_eq!(rec.force_unlock(), Err(StorageError::NotLocked));
}

#[test]
fn save_with_broken_lock() {
    let mut rec = KeyRecord { payload: Some(b"old".to_vec()), lock: None };
    let (l_a, item) = rec.lock(token("A", 1)).success().unwrap();
    assert_eq!(item, Some(b"old".to_vec()));
    let l_x = StorageLock::new("broken");
    assert_eq!(rec.save(b"new".to_vec(), &l_x), Err(StorageError::LockInvalid));
    assert_eq!(rec.load(), Ok(b"old".to_vec()));
    assert_eq!(rec.save(b"new".to_vec(), &l_a), Ok(()));
    assert_eq!(rec.load(), Ok(b"new".to_vec()));
}

#[test]
fn unlock_needs_the_recorded_token() {
    let mut rec = KeyRecord::absent();
    let (l_a, _) = rec.lock(token("A", 1)).success().unwrap();
    assert_eq!(rec.unlock(&token("A", 2)), Err(StorageError::LockInvalid));
    assert!(rec.verify_lock(&l_a));
    assert_eq!(rec.unlock(&l_a), Ok(()));
    assert!(!rec.verify_lock(&l_a));
    assert_eq!(rec.unlock(&l_a), Err(StorageError::LockInvalid));
}

#[test]
fn present_while_being_created() {
    let mut rec = KeyRecord::absent();
    assert!(!rec.is_present());
    let (lock, _) = rec.lock(token("TEST", 1)).success().unwrap();
    assert!(rec.is_present());
    assert_eq!(rec.load(), Err(StorageError::NotFound));
    assert_eq!(rec.unlock(&lock), Ok(()));
    assert!(!rec.is_present());
}

#[test]
fn create_race_has_one_winner() {
    let mut rec = KeyRecord::absent();
    let a = rec.lock_new(token("A", 1), b"{}".to_vec());
    let b = rec.lock_new(token("B", 2), b"{}".to_vec());
    match a {
        LockNewResult::Success { lock, item } => {
            assert_eq!(lock.who(), "A");
            assert_eq!(item, b"{}".to_vec());
        }
        _ => panic!("first lock_new must succeed"),
    }
    assert!(matches!(b, LockNewResult::AlreadyExists));
    assert_eq!(rec.load(), Ok(b"{}".to_vec()));
}

#[test]
fn lock_new_refuses_existing_item() {
    let mut rec = KeyRecord { payload: Some(b"x".to_vec()), lock: None };
    let r = rec.lock_new(token("A", 1), b"{}".to_vec());
    assert_eq!(r.success().err(), Some(StorageError::AlreadyExists));
    assert!(rec.lock.is_none());
}

#[test]
fn lock_new_withdraws_when_payload_appears() {
    let mut rec = KeyRecord::absent();
    let t = token("A", 1);
    assert!(matches!(rec.claim_new(&t), LockNewResult::Success { .. }));
    rec.payload = Some(b"raced".to_vec());
    assert!(matches!(rec.finish_new(t, b"{}".to_vec()), LockNewResult::AlreadyExists));
    assert!(rec.lock.is_none());
    assert_eq!(rec.load(), Ok(b"raced".to_vec()));
}

#[test]
fn lock_new_yields_to_a_replaced_lock() {
    let mut rec = KeyRecord::absent();
    let t = token("A", 1);
    assert!(matches!(rec.claim_new(&t), LockNewResult::Success { .. }));
    rec.lock = Some(token("B", 2));
    match rec.finish_new(t, b"{}".to_vec()) {
        LockNewResult::AlreadyLocked { who } => assert_eq!(who, "B"),
        _ => panic!("the replaced lock wins"),
    }
    assert_eq!(rec.payload, None);
}

#[test]
fn unreadable_lock_file_still_locks() {
    let mut rec = KeyRecord::observed(Some(b"x".to_vec()), Some(None));
    assert!(rec.is_present());
    match rec.lock(token("A", 1)) {
        LockResult::AlreadyLocked { who } => assert_eq!(who, "unknown"),
        LockResult::Success { .. } => panic!("an unreadable lock still locks"),
    }
    assert_eq!(rec.force_unlock(), Ok(()));
    let rec = KeyRecord::observed(None, None);
    assert!(!rec.is_present());
}

#[test]
fn success_turns_outcomes_into_errors() {
    let r: LockResult<u8> = LockResult::AlreadyLocked { who: "A".to_string() };
    assert_eq!(r.success().err(), Some(StorageError::AlreadyLocked));
    let r: LockNewResult<u8> = LockNewResult::AlreadyLocked { who: "A".to_string() };
    assert_eq!(r.success().err(), Some(StorageError::AlreadyLocked));
    let r: LockNewResult<u8> = LockNewResult::Success { lock: token("A", 1), item: 7 };
    let (l, i) = r.success().unwrap();
    assert_eq!((l.who(), i), ("A", 7));
}
