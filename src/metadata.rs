use crate::storage_id::StorageId;
use vstd::prelude::*;

verus! {

/// The highest of `current` and `seen` in the scheme's order.
pub open spec fn raised<I: StorageId>(current: Option<I::V>, seen: I::V) -> Option<I::V> {
    match current {
        None => Some(seen),
        Some(h) => if I::spec_less(h, seen) {
            Some(seen)
        } else {
            Some(h)
        },
    }
}

/// The highest identifier that a backend instance has seen since it started.
/// It lives in memory only and is never persisted.
#[derive(Debug)]
pub struct Metadata<I: StorageId> {
    highest_seen_id: Option<I>,
}

impl<I: StorageId> Metadata<I> {
    pub closed spec fn highest(&self) -> Option<I::V> {
        match self.highest_seen_id {
            Some(i) => Some(i@),
            None => None,
        }
    }

    /// Nothing seen yet.
    pub fn new() -> (r: Self)
        ensures
            r.highest() is None,
    {
        Metadata { highest_seen_id: None }
    }

    /// The highest identifier seen so far.
    pub fn highest_seen_id(&self) -> (r: Option<I>)
        ensures
            match r {
                Some(i) => self.highest() == Some(i@),
                None => self.highest() is None,
            },
    {
        match &self.highest_seen_id {
            Some(i) => Some(i.duplicate()),
            None => None,
        }
    }

    /// Records that `id` was seen: keeps the higher of it and the current one.
    pub fn update_highest_seen_id(&mut self, id: &I)
        ensures
            final(self).highest() == raised::<I>(old(self).highest(), id@),
    {
        let higher = match &self.highest_seen_id {
            Some(h) => h.is_less(id),
            None => true,
        };
        if higher {
            self.highest_seen_id = Some(id.duplicate());
        }
    }
}

} // verus!
