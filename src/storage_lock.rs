use vstd::prelude::*;

verus! {

/// An instant, as whole seconds since the Unix epoch and the nanoseconds past
/// that second.
#[derive(Debug, Clone, Copy, PartialEq, Eq, Structural, Hash)]
pub struct LockTime {
    pub secs: i64,
    pub nanos: u32,
}

/// Relies on `chrono::Utc::now`, `DateTime::timestamp` and
/// `DateTime::timestamp_subsec_nanos`: the current instant, whose sub-second
/// part comes from a `Duration` and so stays below one second.
#[verifier::external_body]
fn clock_now() -> (r: LockTime)
    ensures
        r.nanos < 1_000_000_000,
{
    let now = chrono::Utc::now();
    LockTime { secs: now.timestamp(), nanos: now.timestamp_subsec_nanos() }
}

/// What a lock token is: the owner's text and the instant of acquisition.
pub type LockView = (Seq<char>, LockTime);

/// A lock token: who acquired the lock and when.
///
/// Tokens are compared field by field; a token presented to `save` or
/// `unlock` must equal the recorded one exactly.
#[derive(Debug, Clone)]
pub struct StorageLock {
    who: String,
    when: LockTime,
}

impl View for StorageLock {
    type V = LockView;

    closed spec fn view(&self) -> LockView {
        (self.who@, self.when)
    }
}

impl PartialEq for StorageLock {
    fn eq(&self, other: &StorageLock) -> (r: bool) {
        self.who == other.who && self.when == other.when
    }
}

impl vstd::std_specs::cmp::PartialEqSpecImpl for StorageLock {
    open spec fn obeys_eq_spec() -> bool {
        true
    }

    open spec fn eq_spec(&self, other: &StorageLock) -> bool {
        self@ == other@
    }
}

impl Eq for StorageLock {
}

impl StorageLock {
    /// A token for `who`, stamped with the current instant.
    pub fn new(who: &str) -> (r: Self)
        ensures
            r@.0 == who@,
            r@.1.nanos < 1_000_000_000,
    {
        StorageLock { who: who.to_owned(), when: clock_now() }
    }

    /// A token with a given owner and instant, as read back from a lock record.
    pub fn with_time(who: &str, when: LockTime) -> (r: Self)
        ensures
            r@ == (who@, when),
    {
        StorageLock { who: who.to_owned(), when }
    }

    /// The owner.
    pub fn who(&self) -> (r: &str)
        ensures
            r@ == self@.0,
    {
        self.who.as_str()
    }

    /// The instant of acquisition.
    pub fn when(&self) -> (r: LockTime)
        ensures
            r == self@.1,
    {
        self.when
    }

    /// Whether two tokens are the same token.
    pub fn same_as(&self, other: &StorageLock) -> (r: bool)
        ensures
            r == (self@ == other@),
    {
        self.who == other.who && self.when == other.when
    }

    /// A copy of the token.
    pub fn duplicate(&self) -> (r: StorageLock)
        ensures
            r@ == self@,
    {
        StorageLock { who: self.who.clone(), when: self.when }
    }
}

} // verus!
