use crate::storage_id::{IdError, StorageId};
use crate::text::{seq_less, text_less};
use vstd::prelude::*;

verus! {

/// A character of the URL-safe alphabet: `_`, `-`, digits and ASCII letters.
pub open spec fn is_url_safe(c: char) -> bool {
    c == '_' || c == '-' || ('0' <= c && c <= '9') || ('a' <= c && c <= 'z') || ('A' <= c
        && c <= 'Z')
}

/// The number of characters in a freshly generated random identifier.
pub const RANDOM_ID_LEN: usize = 21;

/// Relies on `nanoid::format` with `nanoid::rngs::default` and
/// `nanoid::alphabet::SAFE`: it returns `size` characters, each one drawn from
/// that alphabet (it never returns for a size of zero).
#[verifier::external_body]
fn random_token(size: usize) -> (r: String)
    requires
        0 < size <= 1024,
    ensures
        r@.len() == size,
        forall|i: int| 0 <= i < r@.len() ==> is_url_safe(#[trigger] r@[i]),
{
    nanoid::format(nanoid::rngs::default, &nanoid::alphabet::SAFE, size)
}

/// A random identifier, generated from a random token.
#[derive(Debug, Clone, PartialOrd, Ord, Hash)]
pub struct RandomId(String);

impl View for RandomId {
    type V = Seq<char>;

    closed spec fn view(&self) -> Seq<char> {
        self.0@
    }
}

impl PartialEq for RandomId {
    fn eq(&self, other: &RandomId) -> (r: bool) {
        self.0 == other.0
    }
}

impl vstd::std_specs::cmp::PartialEqSpecImpl for RandomId {
    open spec fn obeys_eq_spec() -> bool {
        true
    }

    open spec fn eq_spec(&self, other: &RandomId) -> bool {
        self@ == other@
    }
}

impl Eq for RandomId {
}

impl Default for RandomId {
    fn default() -> (r: RandomId)
        ensures
            r@ == Seq::<char>::empty(),
    {
        RandomId(String::new())
    }
}

impl RandomId {
    /// A fresh random identifier of `RANDOM_ID_LEN` URL-safe characters.
    pub fn new() -> (r: Self)
        ensures
            r@.len() == RANDOM_ID_LEN,
            forall|i: int| 0 <= i < r@.len() ==> is_url_safe(#[trigger] r@[i]),
    {
        RandomId(random_token(RANDOM_ID_LEN))
    }

    /// Wraps an existing text as it is.
    pub fn from_str(s: &str) -> (r: Self)
        ensures
            r@ == s@,
    {
        RandomId(s.to_owned())
    }

    /// The text of the identifier.
    pub fn value(&self) -> (r: &str)
        ensures
            r@ == self@,
    {
        self.0.as_str()
    }
}

impl StorageId for RandomId {
    open spec fn spec_text(&self) -> Seq<char> {
        self@
    }

    open spec fn spec_parse(s: Seq<char>) -> Option<Seq<char>> {
        if s.len() > 0 {
            Some(s)
        } else {
            None
        }
    }

    open spec fn spec_valid(&self) -> bool {
        self@.len() > 0
    }

    open spec fn can_follow(previous: Option<&Self>) -> bool {
        true
    }

    proof fn lemma_text_round_trip(&self) {
    }

    proof fn lemma_parsed_valid(s: Seq<char>, id: &Self) {
    }

    fn to_string(&self) -> (r: String) {
        self.0.clone()
    }

    fn from_string(s: &str) -> (r: Result<Self, IdError>) {
        if s.is_empty() {
            Err(IdError::Empty)
        } else {
            Ok(RandomId(s.to_owned()))
        }
    }

    /// A fresh random identifier; `previous` plays no part.
    fn generate_new(previous: Option<&Self>) -> (r: Self)
        ensures
            r@.len() == RANDOM_ID_LEN,
            forall|i: int| 0 <= i < r@.len() ==> is_url_safe(#[trigger] r@[i]),
    {
        RandomId::new()
    }

    fn is_valid_format(s: &str) -> (r: bool) {
        !s.is_empty()
    }

    /// Lexicographic order of the texts.
    open spec fn spec_less(a: Seq<char>, b: Seq<char>) -> bool {
        seq_less(a, b)
    }

    fn is_less(&self, other: &Self) -> (r: bool) {
        text_less(self.0.as_str(), other.0.as_str())
    }

    fn duplicate(&self) -> (r: Self) {
        RandomId(self.0.clone())
    }
}

} // verus!
