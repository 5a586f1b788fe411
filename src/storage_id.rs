use vstd::prelude::*;

verus! {

/// Why a text is not a valid identifier.
#[derive(Debug, Clone, Copy, PartialEq, Eq, Structural)]
pub enum IdError {
    /// The text is empty where a value is needed.
    Empty,
    /// The text is not of the form `prefix:id`.
    MissingSeparator,
    /// The prefix or the id part of `prefix:id` is empty.
    EmptyPart,
    /// The text holds something else than decimal digits.
    NotANumber,
    /// The number does not fit in 64 bits.
    Overflow,
}

/// An identifier scheme: text form, parsing, validation and generation.
///
/// `spec_text` is what `to_string` writes, `spec_parse` what `from_string`
/// reads; every valid identifier reads back from its own text.
pub trait StorageId: Sized + View {
    /// The text form of an identifier.
    spec fn spec_text(&self) -> Seq<char>;

    /// The identifier that a text stands for, if any.
    spec fn spec_parse(s: Seq<char>) -> Option<Self::V>;

    /// Identifiers that this scheme produces.
    spec fn spec_valid(&self) -> bool;

    /// A valid identifier reads back from its own text.
    proof fn lemma_text_round_trip(&self)
        requires
            self.spec_valid(),
        ensures
            Self::spec_parse(self.spec_text()) == Some(self@),
    ;

    /// Whatever parses is valid.
    proof fn lemma_parsed_valid(s: Seq<char>, id: &Self)
        requires
            Self::spec_parse(s) == Some(id@),
        ensures
            id.spec_valid(),
    ;

    fn to_string(&self) -> (r: String)
        ensures
            r@ == self.spec_text(),
    ;

    fn from_string(s: &str) -> (r: Result<Self, IdError>)
        ensures
            match r {
                Ok(id) => Self::spec_parse(s@) == Some(id@) && id.spec_valid(),
                Err(_) => Self::spec_parse(s@) is None,
            },
    ;

    fn generate_new(previous: Option<&Self>) -> (r: Self)
        requires
            Self::can_follow(previous),
        ensures
            r.spec_valid(),
    ;

    /// Whether `generate_new` has a successor to give after `previous`.
    spec fn can_follow(previous: Option<&Self>) -> bool;

    fn is_valid_format(s: &str) -> (r: bool)
        ensures
            r == Self::spec_parse(s@) is Some,
    ;

    /// The order of identifiers of this scheme.
    spec fn spec_less(a: Self::V, b: Self::V) -> bool;

    /// Whether `self` comes before `other`.
    fn is_less(&self, other: &Self) -> (r: bool)
        ensures
            r == Self::spec_less(self@, other@),
    ;

    /// A copy of the identifier.
    fn duplicate(&self) -> (r: Self)
        ensures
            r@ == self@,
    ;
}

/// The identifiers that `texts` stand for, in order, if every one parses.
pub open spec fn parsed_all<I: StorageId>(texts: Seq<Seq<char>>) -> Option<Seq<I::V>>
    decreases texts.len(),
{
    if texts.len() == 0 {
        Some(Seq::empty())
    } else {
        match (parsed_all::<I>(texts.drop_last()), I::spec_parse(texts.last())) {
            (Some(ids), Some(id)) => Some(ids.push(id)),
            _ => None,
        }
    }
}

/// Parses every text of `texts`; the first failure is the error.
pub fn parse_all<I: StorageId>(texts: &Vec<String>) -> (r: Result<Vec<I>, IdError>)
    ensures
        match r {
            Ok(ids) => parsed_all::<I>(texts@.map_values(|t: String| t@)) == Some(
                ids@.map_values(|i: I| i@),
            ),
            Err(_) => parsed_all::<I>(texts@.map_values(|t: String| t@)) is None,
        },
{
    let ghost all = texts@.map_values(|t: String| t@);
    let mut ids: Vec<I> = Vec::new();
    let mut i: usize = 0;
    while i < texts.len()
        invariant
            i <= texts@.len(),
            all == texts@.map_values(|t: String| t@),
            parsed_all::<I>(all.take(i as int)) == Some(ids@.map_values(|x: I| x@)),
        decreases texts@.len() - i,
    {
        assert(all.take(i + 1).drop_last() =~= all.take(i as int));
        assert(all.take(i + 1).last() == texts@[i as int]@);
        match I::from_string(texts[i].as_str()) {
            Ok(id) => {
                let ghost before = ids@;
                ids.push(id);
                assert(ids@.map_values(|x: I| x@) =~= before.map_values(|x: I| x@).push(id@));
            },
            Err(e) => {
                proof {
                    lemma_parsed_all_prefix::<I>(all, i + 1);
                }
                return Err(e);
            },
        }
        i = i + 1;
    }
    assert(all.take(i as int) =~= all);
    Ok(ids)
}

/// A list parses only if each of its prefixes does.
proof fn lemma_parsed_all_prefix<I: StorageId>(texts: Seq<Seq<char>>, k: int)
    requires
        0 <= k <= texts.len(),
        parsed_all::<I>(texts.take(k)) is None,
    ensures
        parsed_all::<I>(texts) is None,
    decreases texts.len() - k,
{
    if k < texts.len() {
        assert(texts.take(k + 1).drop_last() =~= texts.take(k));
        lemma_parsed_all_prefix::<I>(texts, k + 1);
    } else {
        assert(texts.take(k) =~= texts);
    }
}

} // verus!
