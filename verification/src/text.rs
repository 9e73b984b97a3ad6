use vstd::prelude::*;
use std::num::ParseIntError;

verus! {

/// The error `str::parse` gives for text that is no integer of the target type.
#[verifier::external_type_specification]
#[verifier::external_body]
pub struct ExParseIntError(ParseIntError);

/// The text `str::to_lowercase` makes of `s`: each character replaced by its
/// Unicode lowercase mapping.
pub uninterp spec fn lowercase(s: Seq<char>) -> Seq<char>;

/// `str::to_lowercase`.
#[verifier::external_body]
pub(crate) fn to_lowercase(s: &str) -> (result: String)
    ensures
        result@ == lowercase(s@),
{
    s.to_lowercase()
}

pub open spec fn is_ascii_digit(c: char) -> bool {
    '0' <= c <= '9'
}

/// The number that a string of decimal digits spells.
pub open spec fn digits_value(d: Seq<char>) -> int
    decreases d.len(),
{
    if d.len() == 0 {
        0
    } else {
        digits_value(d.drop_last()) * 10 + (d.last() as int - '0' as int)
    }
}

/// The digits of an unsigned integer's text: all of it, but for one leading `+`.
pub open spec fn unsigned_digits(s: Seq<char>) -> Seq<char> {
    if s.len() > 0 && s[0] == '+' {
        s.drop_first()
    } else {
        s
    }
}

/// The value of `s` read as an unsigned decimal integer, as `str::parse`
/// reads it: an optional `+`, then one or more ASCII digits and nothing else.
pub open spec fn unsigned_value(s: Seq<char>) -> Option<int> {
    let d = unsigned_digits(s);
    if d.len() > 0 && forall|i: int| 0 <= i < d.len() ==> #[trigger] is_ascii_digit(d[i]) {
        Some(digits_value(d))
    } else {
        None
    }
}

/// `str::parse` into an unsigned type whose largest value is `max` accepts `s`.
pub open spec fn parses_unsigned(s: Seq<char>, max: int) -> bool {
    match unsigned_value(s) {
        Some(v) => v <= max,
        None => false,
    }
}

/// `str::parse::<u32>`.
#[verifier::external_body]
pub(crate) fn parse_u32(s: &str) -> (result: Result<u32, ParseIntError>)
    ensures
        result is Ok <==> parses_unsigned(s@, u32::MAX as int),
        result matches Ok(v) ==> unsigned_value(s@) == Some(v as int),
{
    s.parse::<u32>()
}

/// `str::parse::<u64>`.
#[verifier::external_body]
pub(crate) fn parse_u64(s: &str) -> (result: Result<u64, ParseIntError>)
    ensures
        result is Ok <==> parses_unsigned(s@, u64::MAX as int),
        result matches Ok(v) ==> unsigned_value(s@) == Some(v as int),
{
    s.parse::<u64>()
}

/// `str::parse::<usize>`.
#[verifier::external_body]
pub(crate) fn parse_usize(s: &str) -> (result: Result<usize, ParseIntError>)
    ensures
        result is Ok <==> parses_unsigned(s@, usize::MAX as int),
        result matches Ok(v) ==> unsigned_value(s@) == Some(v as int),
{
    s.parse::<usize>()
}

/// Whether two texts are the same, character for character.
pub fn same_text(a: &str, b: &str) -> (result: bool)
    ensures
        result == (a@ == b@),
{
    let n = a.unicode_len();
    if n != b.unicode_len() {
        return false;
    }
    let mut i: usize = 0;
    while i < n
        invariant
            i <= n,
            n == a@.len(),
            n == b@.len(),
            forall|k: int| 0 <= k < i ==> a@[k] == b@[k],
        decreases n - i,
    {
        if a.get_char(i) != b.get_char(i) {
            return false;
        }
        i = i + 1;
    }
    assert(a@ =~= b@);
    true
}

} // verus!
