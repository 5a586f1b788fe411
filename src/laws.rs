use crate::key_record::{
    after_force_unlock, after_lock, after_lock_new, after_save, after_unlock, holder, holds,
    present, KeyState,
};
use crate::disk_layout::{continuation, page_bounds};
use crate::sequential_id::{parse_u64, unsigned_body};
use crate::storage_id::StorageId;
use crate::text::{decimal, lemma_decimal_value};
use crate::storage_lock::LockView;
use vstd::prelude::*;

verus! {

/// Once `lock` has recorded owner `a`'s token, a `lock` by anyone reports `a`
/// as the owner and changes nothing, and so does `lock_new`; `save` keeps the
/// lock record, and so does `unlock` with any other token. Only `unlock` with
/// `a`'s token or `force_unlock` removes it.
pub proof fn lemma_lock_excludes(
    s: KeyState,
    a: LockView,
    b: LockView,
    data: Seq<u8>,
    l: LockView,
    fresh: Seq<u8>,
)
    requires
        s.1 is None,
    ensures
        after_lock(s, a).1 == Some(a),
        holder(after_lock(s, a)) == a.0,
        after_lock(after_lock(s, a), b) == after_lock(s, a),
        after_lock_new(after_lock(s, a), b, fresh) == after_lock(s, a),
        after_save(after_lock(s, a), data, l).1 == Some(a),
        l != a ==> after_unlock(after_lock(s, a), l) == after_lock(s, a),
        after_unlock(after_lock(s, a), a).1 is None,
        after_force_unlock(after_lock(s, a)).1 is None,
{
}

/// After a successful `save`, `load` returns what was saved.
pub proof fn lemma_save_then_load(s: KeyState, data: Seq<u8>, l: LockView)
    requires
        holds(s, l),
    ensures
        after_save(s, data, l).0 == Some(data),
{
}

/// A `save` with a token other than the recorded one changes nothing.
pub proof fn lemma_save_with_other_lock(s: KeyState, data: Seq<u8>, l: LockView)
    requires
        !holds(s, l),
    ensures
        after_save(s, data, l) == s,
{
}

/// After a successful `unlock`, no token verifies, the released one included.
pub proof fn lemma_unlock_then_verify(s: KeyState, l: LockView, any: LockView)
    requires
        holds(s, l),
    ensures
        !holds(after_unlock(s, l), any),
        after_unlock(s, l).0 == s.0,
{
}

/// An item whose lock was just recorded is present, before and after any
/// `save` on it, even when it has no payload yet.
pub proof fn lemma_present_while_locked(s: KeyState, t: LockView, data: Seq<u8>, l: LockView)
    requires
        s.1 is None,
    ensures
        present(after_lock(s, t)),
        present(after_save(after_lock(s, t), data, l)),
{
}

/// `lock_new` changes a key only when it was absent, and then leaves it
/// present, holding `fresh` under the new lock.
pub proof fn lemma_lock_new_only_when_absent(s: KeyState, t: LockView, fresh: Seq<u8>)
    ensures
        after_lock_new(s, t, fresh) != s ==> !present(s),
        !present(s) ==> after_lock_new(s, t, fresh) == (Some(fresh), Some(t)),
{
}

/// Every identifier that a scheme generates or parses reads back from its
/// own text: `from_string(id.to_string())` gives `id` again.
pub proof fn lemma_make_id_round_trip<I: StorageId>(id: &I)
    requires
        id.spec_valid(),
    ensures
        I::spec_parse(id.spec_text()) == Some(id@),
{
    id.lemma_text_round_trip();
}

/// The continuation of a page that did not reach the end reads back as the
/// position where that page ended, and the next page starts there: pages
/// taken one after another cover the list without gap or overlap.
pub proof fn lemma_continuation_resumes(
    len: nat,
    start: nat,
    limit: Option<nat>,
    next_limit: Option<nat>,
)
    requires
        len <= u64::MAX,
        page_bounds(len, start, limit).1 < len,
    ensures
        continuation(len, page_bounds(len, start, limit).1) == Some(
            decimal(page_bounds(len, start, limit).1),
        ),
        parse_u64(decimal(page_bounds(len, start, limit).1)) == Some(
            page_bounds(len, start, limit).1 as u64,
        ),
        page_bounds(len, page_bounds(len, start, limit).1, next_limit).0 == page_bounds(
            len,
            start,
            limit,
        ).1,
{
    let hi = page_bounds(len, start, limit).1;
    lemma_decimal_value(hi);
    assert(unsigned_body(decimal(hi)) == decimal(hi));
}

} // verus!
