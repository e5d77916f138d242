//! String operations of the standard library that the adapter relies on, each
//! behind a contract, and the mathematical functions those contracts speak of.

use vstd::prelude::*;
use vstd::string::*;

verus! {

/// The Unicode lowercase form of a string, as `str::to_lowercase` computes it.
pub uninterp spec fn lowercase_of(s: Seq<char>) -> Seq<char>;

/// `s` with every occurrence of `pat` replaced by `to`, scanning from the left
/// and never re-reading replaced or skipped text. With an empty `pat` nothing
/// is replaced.
pub open spec fn replace_all(s: Seq<char>, pat: Seq<char>, to: Seq<char>) -> Seq<char>
    decreases s.len(),
{
    if pat.len() == 0 || s.len() < pat.len() {
        s
    } else if pat.is_prefix_of(s) {
        to + replace_all(s.skip(pat.len() as int), pat, to)
    } else {
        seq![s[0]] + replace_all(s.skip(1), pat, to)
    }
}

/// Whether `c` is one of the ASCII digits `0` to `9`.
pub open spec fn is_digit(c: char) -> bool {
    '0' <= c && c <= '9'
}

/// The number that a sequence of ASCII digits denotes in base ten.
pub open spec fn digits_value(s: Seq<char>) -> int
    decreases s.len(),
{
    if s.len() == 0 {
        0
    } else {
        10 * digits_value(s.drop_last()) + (s.last() as int - '0' as int)
    }
}

/// Whether `s` is one or more ASCII digits.
pub open spec fn all_digits(s: Seq<char>) -> bool {
    s.len() > 0 && forall|i: int| 0 <= i < s.len() ==> is_digit(#[trigger] s[i])
}

/// The signed decimal number that `s` spells: an optional `+` or `-`, then one
/// or more digits.
pub open spec fn signed_decimal(s: Seq<char>) -> Option<int> {
    if s.len() > 0 && s[0] == '-' {
        if all_digits(s.skip(1)) {
            Some(-digits_value(s.skip(1)))
        } else {
            None
        }
    } else if s.len() > 0 && s[0] == '+' {
        if all_digits(s.skip(1)) {
            Some(digits_value(s.skip(1)))
        } else {
            None
        }
    } else if all_digits(s) {
        Some(digits_value(s))
    } else {
        None
    }
}

/// The 64-bit signed integer that `s` spells, or `None` where `s` is not a
/// signed decimal number or the number does not fit.
pub open spec fn integer_of(s: Seq<char>) -> Option<i64> {
    match signed_decimal(s) {
        Some(v) => if i64::MIN <= v <= i64::MAX {
            Some(v as i64)
        } else {
            None
        },
        None => None,
    }
}

/// The truth value that `s` spells: exactly `true` or `false`.
pub open spec fn boolean_of(s: Seq<char>) -> Option<bool> {
    if s == "true"@ {
        Some(true)
    } else if s == "false"@ {
        Some(false)
    } else {
        None
    }
}

/// Calls `str::to_lowercase`. Trusted: the result is the Unicode lowercase
/// form of the argument, which depends on nothing but the argument.
#[verifier::external_body]
pub(crate) fn to_lowercase(s: &str) -> (r: String)
    ensures
        r@ == lowercase_of(s@),
{
    s.to_lowercase()
}

/// Calls `str::strip_prefix`. Trusted: where `s` starts with `pat` the result
/// is what follows that prefix, and otherwise there is none.
#[verifier::external_body]
pub(crate) fn strip_prefix<'a>(s: &'a str, pat: &str) -> (r: Option<&'a str>)
    ensures
        r is Some <==> pat@.is_prefix_of(s@),
        r is Some ==> r->0@ == s@.skip(pat@.len() as int),
{
    s.strip_prefix(pat)
}

/// Calls `str::replace`. Trusted: every non-overlapping occurrence of the
/// non-empty `pat`, found from the left, is replaced by `to`.
#[verifier::external_body]
pub(crate) fn replace(s: &str, pat: &str, to: &str) -> (r: String)
    requires
        pat@.len() > 0,
    ensures
        r@ == replace_all(s@, pat@, to@),
{
    s.replace(pat, to)
}

/// Calls `str::parse` for `i64`. Trusted: it accepts an optional sign followed
/// by one or more ASCII digits whose value fits in 64 bits, and nothing else.
#[verifier::external_body]
pub(crate) fn parse_integer(s: &str) -> (r: Option<i64>)
    ensures
        r == integer_of(s@),
{
    s.parse::<i64>().ok()
}

/// Reads a truth value: `Some` exactly for the two literals `true` and `false`.
pub fn parse_boolean(s: &str) -> (r: Option<bool>)
    ensures
        r == boolean_of(s@),
{
    let owned = String::from_str(s);
    if owned == String::from_str("true") {
        Some(true)
    } else if owned == String::from_str("false") {
        Some(false)
    } else {
        None
    }
}

} // verus!
