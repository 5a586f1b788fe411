use crate::storage_id::{IdError, StorageId};
use crate::text::{seq_less, text_less};
use vstd::prelude::*;

verus! {

/// `i` is the position of the first `:` in `s`.
pub open spec fn first_colon_at(s: Seq<char>, i: int) -> bool {
    &&& 0 <= i < s.len()
    &&& s[i] == ':'
    &&& forall|j: int| 0 <= j < i ==> s[j] != ':'
}

pub open spec fn has_colon(s: Seq<char>) -> bool {
    exists|i: int| first_colon_at(s, i)
}

/// Splits at the first `:`, as `str::split_once(':')` does.
pub open spec fn split_at_colon(s: Seq<char>) -> Option<(Seq<char>, Seq<char>)> {
    if has_colon(s) {
        let i = choose|i: int| first_colon_at(s, i);
        Some((s.take(i), s.skip(i + 1)))
    } else {
        None
    }
}

/// `prefix:id` with both parts non-empty, split at the first `:`.
pub open spec fn parse_external(s: Seq<char>) -> Option<(Seq<char>, Seq<char>)> {
    match split_at_colon(s) {
        Some((p, d)) => if p.len() > 0 && d.len() > 0 {
            Some((p, d))
        } else {
            None
        },
        None => None,
    }
}

pub proof fn lemma_first_colon_unique(s: Seq<char>, i: int, k: int)
    requires
        first_colon_at(s, i),
        first_colon_at(s, k),
    ensures
        i == k,
{
    if i < k {
        assert(s[i] != ':');
    } else if k < i {
        assert(s[k] != ':');
    }
}

/// An identifier of another system, tagged with a prefix naming that system;
/// written `prefix:id`.
#[derive(Debug, Clone, PartialOrd, Ord, Hash)]
pub struct ExternalId {
    prefix: String,
    id: String,
}

impl View for ExternalId {
    type V = (Seq<char>, Seq<char>);

    closed spec fn view(&self) -> (Seq<char>, Seq<char>) {
        (self.prefix@, self.id@)
    }
}

impl PartialEq for ExternalId {
    fn eq(&self, other: &ExternalId) -> (r: bool) {
        self.prefix == other.prefix && self.id == other.id
    }
}

impl vstd::std_specs::cmp::PartialEqSpecImpl for ExternalId {
    open spec fn obeys_eq_spec() -> bool {
        true
    }

    open spec fn eq_spec(&self, other: &ExternalId) -> bool {
        self@ == other@
    }
}

impl Eq for ExternalId {
}

impl Default for ExternalId {
    /// The placeholder `unknown:default`.
    fn default() -> (r: ExternalId)
        ensures
            r@ == ("unknown"@, "default"@),
    {
        ExternalId { prefix: String::from_str("unknown"), id: String::from_str("default") }
    }
}

/// Finds the first `:` in `s`.
fn find_colon(s: &str) -> (r: Option<usize>)
    ensures
        match r {
            Some(i) => first_colon_at(s@, i as int),
            None => !has_colon(s@),
        },
{
    let len = s.unicode_len();
    let mut i: usize = 0;
    while i < len
        invariant
            i <= len,
            len == s@.len(),
            forall|j: int| 0 <= j < i ==> s@[j] != ':',
        decreases len - i,
    {
        if s.get_char(i) == ':' {
            return Some(i);
        }
        i = i + 1;
    }
    proof {
        assert forall|k: int| !first_colon_at(s@, k) by {
            if first_colon_at(s@, k) {
                assert(s@[k] != ':');
            }
        }
    }
    None
}

impl ExternalId {
    /// Creates an identifier from its two parts.
    pub fn new(prefix: &str, id: &str) -> (r: Self)
        ensures
            r@ == (prefix@, id@),
    {
        ExternalId { prefix: prefix.to_owned(), id: id.to_owned() }
    }

    /// The prefix: the system the identifier comes from.
    pub fn prefix(&self) -> (r: &str)
        ensures
            r@ == self@.0,
    {
        self.prefix.as_str()
    }

    /// The identifier within that system.
    pub fn id(&self) -> (r: &str)
        ensures
            r@ == self@.1,
    {
        self.id.as_str()
    }
}

impl StorageId for ExternalId {
    open spec fn spec_text(&self) -> Seq<char> {
        self@.0 + seq![':'] + self@.1
    }

    open spec fn spec_parse(s: Seq<char>) -> Option<(Seq<char>, Seq<char>)> {
        parse_external(s)
    }

    /// Both parts non-empty and no `:` in the prefix.
    open spec fn spec_valid(&self) -> bool {
        &&& self@.0.len() > 0
        &&& self@.1.len() > 0
        &&& forall|j: int| 0 <= j < self@.0.len() ==> self@.0[j] != ':'
    }

    open spec fn can_follow(previous: Option<&Self>) -> bool {
        true
    }

    proof fn lemma_text_round_trip(&self) {
        let s = self.spec_text();
        let n = self@.0.len() as int;
        assert(first_colon_at(s, n)) by {
            assert forall|j: int| 0 <= j < n implies s[j] != ':' by {
                assert(s[j] == self@.0[j]);
            }
        }
        let i = choose|i: int| first_colon_at(s, i);
        lemma_first_colon_unique(s, i, n);
        assert(s.take(n) =~= self@.0);
        assert(s.skip(n + 1) =~= self@.1);
    }

    proof fn lemma_parsed_valid(s: Seq<char>, id: &Self) {
        let i = choose|i: int| first_colon_at(s, i);
        assert forall|j: int| 0 <= j < id@.0.len() implies id@.0[j] != ':' by {
            assert(id@.0[j] == s[j]);
        }
    }

    fn to_string(&self) -> (r: String) {
        proof {
            reveal_strlit(":");
        }
        let mut out = self.prefix.clone();
        out.append(":");
        out.append(self.id.as_str());
        out
    }

    fn from_string(s: &str) -> (r: Result<Self, IdError>) {
        match find_colon(s) {
            None => Err(IdError::MissingSeparator),
            Some(i) => {
                let len = s.unicode_len();
                proof {
                    let k = choose|k: int| first_colon_at(s@, k);
                    lemma_first_colon_unique(s@, i as int, k);
                }
                if i == 0 || i + 1 == len {
                    return Err(IdError::EmptyPart);
                }
                let prefix = s.substring_char(0, i);
                let id = s.substring_char(i + 1, len);
                assert(prefix@ =~= s@.take(i as int));
                assert(id@ =~= s@.skip(i + 1));
                let r = ExternalId { prefix: prefix.to_owned(), id: id.to_owned() };
                proof {
                    Self::lemma_parsed_valid(s@, &r);
                }
                Ok(r)
            },
        }
    }

    /// The placeholder `unknown:default`: such identifiers come from elsewhere.
    fn generate_new(previous: Option<&Self>) -> (r: Self)
        ensures
            r@ == ("unknown"@, "default"@),
    {
        proof {
            reveal_strlit("unknown");
            reveal_strlit("default");
        }
        ExternalId::default()
    }

    fn is_valid_format(s: &str) -> (r: bool) {
        match ExternalId::from_string(s) {
            Ok(_) => true,
            Err(_) => false,
        }
    }

    /// Lexicographic order of the prefixes, then of the id parts.
    open spec fn spec_less(a: (Seq<char>, Seq<char>), b: (Seq<char>, Seq<char>)) -> bool {
        seq_less(a.0, b.0) || (a.0 == b.0 && seq_less(a.1, b.1))
    }

    fn is_less(&self, other: &Self) -> (r: bool) {
        text_less(self.prefix.as_str(), other.prefix.as_str()) || (self.prefix == other.prefix
            && text_less(self.id.as_str(), other.id.as_str()))
    }

    fn duplicate(&self) -> (r: Self) {
        ExternalId { prefix: self.prefix.clone(), id: self.id.clone() }
    }
}

} // verus!
