use crate::storage_id::{IdError, StorageId};
use crate::text::{
    all_digits, decimal, digit_value, digits_value, is_digit, lemma_decimal_value,
    lemma_digits_value_prefix, push_decimal,
};
use vstd::prelude::*;

verus! {

/// A sequential numeric identifier.
#[derive(Debug, Clone, Copy, PartialEq, Eq, Structural, PartialOrd, Ord, Hash, Default)]
pub struct SequentialId(u64);

impl View for SequentialId {
    type V = u64;

    closed spec fn view(&self) -> u64 {
        self.0
    }
}

/// The digits after an optional leading `+`.
pub open spec fn unsigned_body(s: Seq<char>) -> Seq<char> {
    if s.len() > 0 && s[0] == '+' {
        s.subrange(1, s.len() as int)
    } else {
        s
    }
}

/// Decimal text as `u64::from_str` reads it: an optional `+`, then at least one
/// digit, with a value that fits in 64 bits.
pub open spec fn parse_u64(s: Seq<char>) -> Option<u64> {
    let body = unsigned_body(s);
    if body.len() > 0 && all_digits(body) && digits_value(body) <= u64::MAX {
        Some(digits_value(body) as u64)
    } else {
        None
    }
}

impl SequentialId {
    /// Creates an identifier with the given value.
    pub fn new(value: u64) -> (r: Self)
        ensures
            r@ == value,
    {
        SequentialId(value)
    }

    /// The numeric value.
    pub fn value(&self) -> (r: u64)
        ensures
            r == self@,
    {
        self.0
    }
}

/// Reads decimal text into a `u64`, as `u64::from_str` does.
pub fn read_u64(s: &str) -> (r: Result<u64, IdError>)
    ensures
        match r {
            Ok(n) => parse_u64(s@) == Some(n),
            Err(_) => parse_u64(s@) is None,
        },
{
    let len = s.unicode_len();
    let mut i: usize = 0;
    if len > 0 && s.get_char(0) == '+' {
        i = 1;
    }
    let start = i;
    let ghost body = unsigned_body(s@);
    assert(body =~= s@.subrange(start as int, len as int));
    if start == len {
        return Err(IdError::Empty);
    }
    let mut acc: u64 = 0;
    while i < len
        invariant
            start <= i <= len,
            len == s@.len(),
            body == s@.subrange(start as int, len as int),
            body == unsigned_body(s@),
            all_digits(body.take(i - start)),
            acc == digits_value(body.take(i - start)),
        decreases len - i,
    {
        let c = s.get_char(i);
        let ghost k = (i - start) as int;
        if !('0' <= c && c <= '9') {
            assert(!is_digit(body[k]));
            return Err(IdError::NotANumber);
        }
        let d = (c as u32 - '0' as u32) as u64;
        assert(body.take(k + 1).drop_last() =~= body.take(k));
        assert(body.take(k + 1).last() == c);
        if acc > (u64::MAX - d) / 10 {
            proof {
                assert(digits_value(body.take(k + 1)) > u64::MAX) by (nonlinear_arith)
                    requires
                        acc > (u64::MAX - d) / 10,
                        digits_value(body.take(k + 1)) == acc * 10 + d,
                        d <= 9,
                ;
                lemma_digits_value_prefix(body, k + 1);
                if all_digits(body) {
                }
            }
            return Err(IdError::Overflow);
        }
        assert(acc * 10 + d <= u64::MAX) by (nonlinear_arith)
            requires
                acc <= (u64::MAX - d) / 10,
                d <= 9,
        ;
        acc = acc * 10 + d;
        assert forall|j: int| 0 <= j < k + 1 implies is_digit(#[trigger] body.take(k + 1)[j]) by {
            if j < k {
                assert(body.take(k + 1)[j] == body.take(k)[j]);
            }
        }
        i = i + 1;
    }
    assert(body.take(i - start) =~= body);
    Ok(acc)
}

impl StorageId for SequentialId {
    open spec fn spec_text(&self) -> Seq<char> {
        decimal(self@ as nat)
    }

    open spec fn spec_parse(s: Seq<char>) -> Option<u64> {
        parse_u64(s)
    }

    open spec fn spec_valid(&self) -> bool {
        true
    }

    open spec fn can_follow(previous: Option<&Self>) -> bool {
        match previous {
            Some(p) => p@ < u64::MAX,
            None => true,
        }
    }

    proof fn lemma_text_round_trip(&self) {
        lemma_decimal_value(self@ as nat);
        assert(unsigned_body(decimal(self@ as nat)) == decimal(self@ as nat));
    }

    proof fn lemma_parsed_valid(s: Seq<char>, id: &Self) {
    }

    fn to_string(&self) -> (r: String) {
        let mut out = String::new();
        push_decimal(&mut out, self.0);
        assert(out@ =~= decimal(self@ as nat));
        out
    }

    fn from_string(s: &str) -> (r: Result<Self, IdError>) {
        match read_u64(s) {
            Ok(n) => Ok(SequentialId(n)),
            Err(e) => Err(e),
        }
    }

    /// The successor of `previous`, or 1 when there is none.
    fn generate_new(previous: Option<&Self>) -> (r: Self)
        ensures
            r@ == match previous {
                Some(p) => (p@ + 1) as u64,
                None => 1u64,
            },
            previous matches Some(p) ==> r@ > p@,
    {
        match previous {
            Some(p) => SequentialId(p.0 + 1),
            None => SequentialId(1),
        }
    }

    fn is_valid_format(s: &str) -> (r: bool) {
        read_u64(s).is_ok()
    }

    open spec fn spec_less(a: u64, b: u64) -> bool {
        a < b
    }

    fn is_less(&self, other: &Self) -> (r: bool) {
        self.0 < other.0
    }

    fn duplicate(&self) -> (r: Self) {
        SequentialId(self.0)
    }
}

} // verus!
