//! The calls that the library makes into other crates.
//!
//! Verus does not read the bodies in this file: it takes each contract on
//! trust. Every contract says what the called function is documented to
//! return, and no more.

use vstd::prelude::*;
use validator::{ValidateLength, ValidateRange};

verus! {

/// Whether a length meets the bounds of a length rule: the exact length
/// where one is given, else the least and the greatest length.
pub open spec fn length_admits(
    length: nat,
    min: Option<u64>,
    max: Option<u64>,
    equal: Option<u64>,
) -> bool {
    match equal {
        Some(exact) => length == exact,
        None => (min matches Some(least) ==> length >= least) && (max matches Some(most)
            ==> length <= most),
    }
}

/// Whether a number lies inside the inclusive bounds of a range rule.
pub open spec fn range_admits(value: int, min: Option<i64>, max: Option<i64>) -> bool {
    &&& (min matches Some(least) ==> value >= least)
    &&& (max matches Some(most) ==> value <= most)
}

/// Whether a character is a decimal digit or one of the letters `a` to `f`.
pub open spec fn is_lower_hex(c: char) -> bool {
    ('0' <= c && c <= '9') || ('a' <= c && c <= 'f')
}

/// The hyphenated form of an identifier of 128 bits: thirty-two hexadecimal
/// digits in lower case, in groups of 8, 4, 4, 4 and 12 with a hyphen
/// between them.
pub open spec fn is_hyphenated_id(text: Seq<char>) -> bool {
    &&& text.len() == 36
    &&& forall|k: int|
        0 <= k < 36 ==> if k == 8 || k == 13 || k == 18 || k == 23 {
            #[trigger] text[k] == '-'
        } else {
            is_lower_hex(#[trigger] text[k])
        }
}

/// `validator::ValidateLength::validate_length` on a `String`.
///
/// The length it measures is the number of characters of the text. With an
/// exact length it compares for equality and ignores the two bounds; else
/// it tests the bounds that are given, both inclusive.
#[verifier::external_body]
pub(crate) fn validate_length(
    text: &String,
    min: Option<u64>,
    max: Option<u64>,
    equal: Option<u64>,
) -> (ok: bool)
    ensures
        ok == length_admits(text@.len(), min, max, equal),
{
    text.validate_length(min, max, equal)
}

/// `validator::ValidateRange::validate_range` on an `i64`, with inclusive
/// bounds only: true where the value is not below `min` and not above
/// `max`, each bound tested only where it is given.
#[verifier::external_body]
pub(crate) fn validate_range(value: i64, min: Option<i64>, max: Option<i64>) -> (ok: bool)
    ensures
        ok == range_admits(value as int, min, max),
{
    value.validate_range(min, max, None, None)
}

/// `uuid::Uuid::new_v4`, written out by the `Display` of `uuid::Uuid`.
///
/// The identifier is random, so nothing is said of its digits but their
/// form: `Display` writes the hyphenated form in lower case. The call
/// panics where the operating system can give no random bytes; no argument
/// decides that.
#[verifier::external_body]
pub(crate) fn random_id() -> (id: String)
    ensures
        is_hyphenated_id(id@),
{
    uuid::Uuid::new_v4().to_string()
}

} // verus!
