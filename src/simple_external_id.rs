use crate::storage_id::{IdError, StorageId};
use crate::text::{seq_less, text_less};
use vstd::prelude::*;

verus! {

/// An identifier handed out by another system, kept as opaque non-empty text.
#[derive(Debug, Clone, PartialOrd, Ord, Hash)]
pub struct SimpleExternalId {
    id: String,
}

impl View for SimpleExternalId {
    type V = Seq<char>;

    closed spec fn view(&self) -> Seq<char> {
        self.id@
    }
}

impl PartialEq for SimpleExternalId {
    fn eq(&self, other: &SimpleExternalId) -> (r: bool) {
        self.id == other.id
    }
}

impl vstd::std_specs::cmp::PartialEqSpecImpl for SimpleExternalId {
    open spec fn obeys_eq_spec() -> bool {
        true
    }

    open spec fn eq_spec(&self, other: &SimpleExternalId) -> bool {
        self@ == other@
    }
}

impl Eq for SimpleExternalId {
}

impl Default for SimpleExternalId {
    /// The placeholder `default`.
    fn default() -> (r: SimpleExternalId)
        ensures
            r@ == "default"@,
    {
        SimpleExternalId { id: String::from_str("default") }
    }
}

impl SimpleExternalId {
    /// Wraps the given text.
    pub fn new(id: &str) -> (r: Self)
        ensures
            r@ == id@,
    {
        SimpleExternalId { id: id.to_owned() }
    }

    /// The text of the identifier.
    pub fn id(&self) -> (r: &str)
        ensures
            r@ == self@,
    {
        self.id.as_str()
    }
}

impl StorageId for SimpleExternalId {
    open spec fn spec_text(&self) -> Seq<char> {
        self@
    }

    open spec fn spec_parse(s: Seq<char>) -> Option<Seq<char>> {
        if s.len() > 0 {
            Some(s)
        } else {
            None
        }
    }

    open spec fn spec_valid(&self) -> bool {
        self@.len() > 0
    }

    open spec fn can_follow(previous: Option<&Self>) -> bool {
        true
    }

    proof fn lemma_text_round_trip(&self) {
    }

    proof fn lemma_parsed_valid(s: Seq<char>, id: &Self) {
    }

    fn to_string(&self) -> (r: String) {
        self.id.clone()
    }

    fn from_string(s: &str) -> (r: Result<Self, IdError>) {
        if s.is_empty() {
            Err(IdError::Empty)
        } else {
            Ok(SimpleExternalId { id: s.to_owned() })
        }
    }

    /// The placeholder `default`: such identifiers come from elsewhere.
    fn generate_new(previous: Option<&Self>) -> (r: Self)
        ensures
            r@ == "default"@,
    {
        proof {
            reveal_strlit("default");
        }
        SimpleExternalId::default()
    }

    fn is_valid_format(s: &str) -> (r: bool) {
        !s.is_empty()
    }

    /// Lexicographic order of the texts.
    open spec fn spec_less(a: Seq<char>, b: Seq<char>) -> bool {
        seq_less(a, b)
    }

    fn is_less(&self, other: &Self) -> (r: bool) {
        text_less(self.id.as_str(), other.id.as_str())
    }

    fn duplicate(&self) -> (r: Self) {
        SimpleExternalId { id: self.id.clone() }
    }
}

} // verus!
