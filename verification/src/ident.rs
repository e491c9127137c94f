//! Channel and queue identifiers: 128-bit values written as UUID text on the wire.

use vstd::prelude::*;
use vstd::arithmetic::power::pow;

verus! {

/// The value that `uuid::Uuid::parse_str` reads from `text`, as a 128-bit
/// integer; `None` where it rejects the text.
pub uninterp spec fn parsed_uuid(text: Seq<char>) -> Option<u128>;

/// The hexadecimal digit, in lower case, of a value from 0 to 15.
pub open spec fn hex_digit(value: int) -> char {
    seq!['0', '1', '2', '3', '4', '5', '6', '7', '8', '9', 'a', 'b', 'c', 'd', 'e', 'f'][value]
}

/// Whether a hyphen stands at the place `at` of an identifier's text.
pub open spec fn is_hyphen_place(at: int) -> bool {
    at == 8 || at == 13 || at == 18 || at == 23
}

/// How many digits stand before the place `at` of an identifier's text.
pub open spec fn digits_before(at: int) -> int {
    if at > 23 {
        at - 4
    } else if at > 18 {
        at - 3
    } else if at > 13 {
        at - 2
    } else if at > 8 {
        at - 1
    } else {
        at
    }
}

/// The character at the place `at` of the text of `id`: a hyphen, or the
/// digit of `id` that comes next, the highest first.
pub open spec fn uuid_char(id: u128, at: int) -> char {
    if is_hyphen_place(at) {
        '-'
    } else {
        hex_digit((id as int / pow(16, (31 - digits_before(at)) as nat)) % 16)
    }
}

/// The text of the identifier `id`: its 32 hexadecimal digits in lower
/// case, in groups of 8, 4, 4, 4 and 12 with a hyphen between them.
pub open spec fn uuid_text(id: u128) -> Seq<char> {
    Seq::new(36, |at: int| uuid_char(id, at))
}

/// Calls `uuid::Uuid::parse_str`. The result is the parsed identifier, the
/// same for the same text; nothing is claimed about which texts parse.
#[verifier::external_body]
pub(crate) fn parse_uuid(text: &str) -> (id: Option<u128>)
    ensures
        id == parsed_uuid(text@),
{
    match uuid::Uuid::parse_str(text) {
        Ok(parsed) => Some(parsed.as_u128()),
        Err(_) => None,
    }
}

/// Calls `uuid::Uuid::new_v4`. The identifier is random: nothing is claimed
/// about it.
#[verifier::external_body]
pub(crate) fn random_uuid() -> u128 {
    uuid::Uuid::new_v4().as_u128()
}

/// Calls `to_string` on the `uuid::Uuid` made by `from_u128`. The text is
/// the hyphenated lower-case rendering of `id`, and `uuid::Uuid::parse_str`
/// reads it back as `id`.
#[verifier::external_body]
pub(crate) fn format_uuid(id: u128) -> (text: String)
    ensures
        text@ == uuid_text(id),
        parsed_uuid(text@) == Some(id),
{
    uuid::Uuid::from_u128(id).to_string()
}

} // verus!
