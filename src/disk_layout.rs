use crate::storage::StorageError;
use crate::storage_id::StorageId;
use crate::sequential_id::{parse_u64, read_u64};
use crate::text::{decimal, push_decimal};
use vstd::prelude::*;

verus! {

/// Text that can serve as a file name stem: non-empty, with no path
/// separator and no NUL.
pub open spec fn is_storable_name(s: Seq<char>) -> bool {
    &&& s.len() > 0
    &&& forall|i: int| 0 <= i < s.len() ==> #[trigger] s[i] != '/' && s[i] != '\\' && s[i] != '\0'
}

/// `name` placed in the directory `base`.
pub open spec fn join_path(base: Seq<char>, name: Seq<char>) -> Seq<char> {
    if base.len() == 0 {
        name
    } else if base.last() == '/' {
        base + name
    } else {
        base + seq!['/'] + name
    }
}

/// `stem.ext`
pub open spec fn with_extension(stem: Seq<char>, ext: Seq<char>) -> Seq<char> {
    stem + seq!['.'] + ext
}

/// The stem of `name` if it ends in `suffix`.
pub open spec fn strip_suffix(name: Seq<char>, suffix: Seq<char>) -> Option<Seq<char>> {
    if name.len() >= suffix.len() && name.skip(name.len() - suffix.len()) == suffix {
        Some(name.take(name.len() - suffix.len()))
    } else {
        None
    }
}

/// The identifiers named by payload files among `names`, in order: each name
/// that ends in `suffix` and whose stem parses.
pub open spec fn listed_ids<I: StorageId>(names: Seq<Seq<char>>, suffix: Seq<char>) -> Seq<I::V>
    decreases names.len(),
{
    if names.len() == 0 {
        Seq::empty()
    } else {
        let rest = listed_ids::<I>(names.drop_last(), suffix);
        match strip_suffix(names.last(), suffix) {
            Some(stem) => match I::spec_parse(stem) {
                Some(id) => rest.push(id),
                None => rest,
            },
            None => rest,
        }
    }
}

/// The first position of a page and the position after its last.
pub open spec fn page_bounds(len: nat, start: nat, limit: Option<nat>) -> (nat, nat) {
    let lo = if start < len {
        start
    } else {
        len
    };
    let hi = match limit {
        Some(k) => if lo + k < len {
            lo + k
        } else {
            len
        },
        None => len,
    };
    (lo, hi)
}

/// The continuation after a page ending at `hi`: the position as decimal
/// text, or none at the end.
pub open spec fn continuation(len: nat, hi: nat) -> Option<Seq<char>> {
    if hi < len {
        Some(decimal(hi))
    } else {
        None
    }
}

pub open spec fn names_view(names: Seq<String>) -> Seq<Seq<char>> {
    names.map_values(|n: String| n@)
}

pub open spec fn ids_view<I: StorageId>(ids: Seq<I>) -> Seq<I::V> {
    ids.map_values(|i: I| i@)
}

/// Where a directory backend keeps its records: `<base>/<id>.<extension>`
/// for payloads and `<base>/<id>.lock` for locks.
#[derive(Debug, Clone)]
pub struct DiskLayout {
    base_path: String,
    extension: String,
}

/// Whether `s` ends in `suffix`; on success the text before it.
fn strip_suffix_exec(s: &str, suffix: &str) -> (r: Option<String>)
    ensures
        match r {
            Some(stem) => strip_suffix(s@, suffix@) == Some(stem@),
            None => strip_suffix(s@, suffix@) is None,
        },
{
    let n = s.unicode_len();
    let k = suffix.unicode_len();
    if n < k {
        return None;
    }
    let off = n - k;
    let mut i: usize = 0;
    while i < k
        invariant
            i <= k,
            k == suffix@.len(),
            n == s@.len(),
            off == n - k,
            forall|j: int| 0 <= j < i ==> s@[off + j] == suffix@[j],
        decreases k - i,
    {
        if s.get_char(off + i) != suffix.get_char(i) {
            assert(s@.skip(off as int)[i as int] != suffix@[i as int]);
            return None;
        }
        i = i + 1;
    }
    assert(s@.skip(off as int) =~= suffix@);
    let stem = s.substring_char(0, off);
    Some(stem.to_owned())
}

/// Whether `s` can serve as a file name stem.
fn storable_name(s: &str) -> (r: bool)
    ensures
        r == is_storable_name(s@),
{
    let n = s.unicode_len();
    if n == 0 {
        return false;
    }
    let mut i: usize = 0;
    while i < n
        invariant
            i <= n,
            n == s@.len(),
            forall|j: int| 0 <= j < i ==> #[trigger] s@[j] != '/' && s@[j] != '\\' && s@[j] != '\0',
        decreases n - i,
    {
        let c = s.get_char(i);
        if c == '/' || c == '\\' || c == '\0' {
            return false;
        }
        i = i + 1;
    }
    true
}

impl DiskLayout {
    /// Records kept in `base_path`, payload files ending in `.extension`.
    pub fn new(base_path: &str, extension: &str) -> (r: Self)
        ensures
            r.base()@ == base_path@,
            r.extension()@ == extension@,
    {
        DiskLayout { base_path: base_path.to_owned(), extension: extension.to_owned() }
    }

    pub closed spec fn base(&self) -> String {
        self.base_path
    }

    pub closed spec fn extension(&self) -> String {
        self.extension
    }

    /// The directory that holds the records.
    pub fn base_path(&self) -> (r: &str)
        ensures
            r@ == self.base()@,
    {
        self.base_path.as_str()
    }

    /// The suffix of payload file names: `.extension`.
    pub open spec fn payload_suffix(&self) -> Seq<char> {
        seq!['.'] + self.extension()@
    }

    /// `<base>/<stem>.<ext>`
    fn path_for(&self, stem: &str, ext: &str) -> (r: String)
        ensures
            r@ == join_path(self.base()@, with_extension(stem@, ext@)),
    {
        proof {
            reveal_strlit("/");
            reveal_strlit(".");
        }
        let mut p = self.base_path.clone();
        let n = self.base_path.as_str().unicode_len();
        if n > 0 && self.base_path.as_str().get_char(n - 1) != '/' {
            p.append("/");
        }
        p.append(stem);
        p.append(".");
        p.append(ext);
        assert(p@ =~= join_path(self.base()@, with_extension(stem@, ext@)));
        p
    }

    /// The path of `id`'s payload file; `InvalidId` when its text cannot be a
    /// file name.
    pub fn file_path<I: StorageId>(&self, id: &I) -> (r: Result<String, StorageError>)
        ensures
            is_storable_name(id.spec_text()) ==> (r matches Ok(p) && p@ == join_path(
                self.base()@,
                with_extension(id.spec_text(), self.extension()@),
            )),
            !is_storable_name(id.spec_text()) ==> r == Err::<String, _>(StorageError::InvalidId),
    {
        let stem = id.to_string();
        if !storable_name(stem.as_str()) {
            return Err(StorageError::InvalidId);
        }
        Ok(self.path_for(stem.as_str(), self.extension.as_str()))
    }

    /// The path of `id`'s lock file; `InvalidId` when its text cannot be a
    /// file name.
    pub fn lock_path<I: StorageId>(&self, id: &I) -> (r: Result<String, StorageError>)
        ensures
            is_storable_name(id.spec_text()) ==> (r matches Ok(p) && p@ == join_path(
                self.base()@,
                with_extension(id.spec_text(), "lock"@),
            )),
            !is_storable_name(id.spec_text()) ==> r == Err::<String, _>(StorageError::InvalidId),
    {
        let stem = id.to_string();
        if !storable_name(stem.as_str()) {
            return Err(StorageError::InvalidId);
        }
        Ok(self.path_for(stem.as_str(), "lock"))
    }

    /// The identifiers named by the payload files among the directory entries
    /// `names`, in their order; other entries are skipped.
    pub fn ids_from_file_names<I: StorageId>(&self, names: &Vec<String>) -> (r: Vec<I>)
        ensures
            ids_view(r@) == listed_ids::<I>(names_view(names@), self.payload_suffix()),
    {
        proof {
            reveal_strlit(".");
        }
        let mut suffix = String::from_str(".");
        suffix.append(self.extension.as_str());
        let ghost sfx = self.payload_suffix();
        assert(suffix@ =~= sfx);
        let mut ids: Vec<I> = Vec::new();
        let mut i: usize = 0;
        while i < names.len()
            invariant
                i <= names@.len(),
                suffix@ == sfx,
                ids_view(ids@) == listed_ids::<I>(names_view(names@.take(i as int)), sfx),
            decreases names@.len() - i,
        {
            let ghost before = ids@;
            assert(names_view(names@.take(i + 1)).drop_last() =~= names_view(names@.take(i as int)));
            assert(names_view(names@.take(i + 1)).last() == names@[i as int]@);
            match strip_suffix_exec(names[i].as_str(), suffix.as_str()) {
                Some(stem) => match I::from_string(stem.as_str()) {
                    Ok(id) => {
                        ids.push(id);
                        assert(ids_view(ids@) =~= ids_view(before).push(id@));
                    },
                    Err(_) => {},
                },
                None => {},
            }
            i = i + 1;
        }
        assert(names@.take(names@.len() as int) =~= names@);
        ids
    }
}

/// One page of `ids`: those from position `start` (decimal text, 0 when
/// absent) on, at most `limit` of them, and the continuation for the next
/// page, none once the end is reached. `InvalidContinuation` when `start` is
/// not decimal text.
pub fn scan_page<I>(ids: Vec<I>, start: Option<&str>, limit: Option<usize>) -> (r: Result<
    (Vec<I>, Option<String>),
    StorageError,
>)
    ensures
        match start {
            Some(s) => parse_u64(s@) is None ==> r == Err::<(Vec<I>, Option<String>), _>(
                StorageError::InvalidContinuation,
            ),
            None => true,
        },
        r matches Ok((page, next)) ==> {
            let first = match start {
                Some(s) => parse_u64(s@).unwrap() as nat,
                None => 0,
            };
            let (lo, hi) = page_bounds(
                ids@.len(),
                first,
                match limit {
                    Some(k) => Some(k as nat),
                    None => None,
                },
            );
            &&& page@ == ids@.subrange(lo as int, hi as int)
            &&& match next {
                Some(t) => continuation(ids@.len(), hi) == Some(t@),
                None => continuation(ids@.len(), hi) is None,
            }
        },
        (start is None || parse_u64(start.unwrap()@) is Some) ==> r is Ok,
{
    let len = ids.len();
    let lo: usize = match start {
        Some(s) => match read_u64(s) {
            Ok(n) => if n < len as u64 {
                n as usize
            } else {
                len
            },
            Err(_) => return Err(StorageError::InvalidContinuation),
        },
        None => 0,
    };
    let hi: usize = match limit {
        Some(k) => if k < len - lo {
            lo + k
        } else {
            len
        },
        None => len,
    };
    let mut rest = ids;
    let mut page = rest.split_off(lo);
    page.truncate(hi - lo);
    let next = if hi < len {
        let mut t = String::new();
        push_decimal(&mut t, hi as u64);
        assert(t@ =~= decimal(hi as nat));
        Some(t)
    } else {
        None
    };
    Ok((page, next))
}

} // verus!
