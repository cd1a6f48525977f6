//! Universally unique identifiers, as 128-bit numbers and as text.
use uuid::Uuid;
use vstd::prelude::*;

verus! {

pub open spec fn hex_char(digit: int) -> char {
    if digit < 10 {
        (('0' as u32 + digit) as u32) as char
    } else {
        (('a' as u32 + digit - 10) as u32) as char
    }
}

pub open spec fn is_hyphen_index(i: int) -> bool {
    i == 8 || i == 13 || i == 18 || i == 23
}

/// How many hyphens stand before index `i`.
pub open spec fn hyphens_before(i: int) -> int {
    if i <= 8 {
        0
    } else if i <= 13 {
        1
    } else if i <= 18 {
        2
    } else if i <= 23 {
        3
    } else {
        4
    }
}

/// The 32 hexadecimal digits of the number in lower case, the most significant first, with hyphens
/// behind the 8th, 12th, 16th and 20th.
pub open spec fn hyphenated(value: u128) -> Seq<char> {
    Seq::new(
        36,
        |i: int|
            if is_hyphen_index(i) {
                '-'
            } else {
                hex_char(((value >> ((124 - 4 * (i - hyphens_before(i))) as u128)) & 15) as int)
            },
    )
}

/// Calls `uuid::Uuid::from_u128` and its `to_string`: the hyphenated form in lower case, which
/// `uuid::Uuid::parse_str` reads as the same number.
#[verifier::external_body]
pub(crate) fn uuid_text(value: u128) -> (result: String)
    ensures
        result@ == hyphenated(value),
        uuid_value(result@) == Some(value),
{
    Uuid::from_u128(value).to_string()
}

/// A number of the fourth version: it says so in the four bits from bit 76 on, and names its variant
/// in the two bits from bit 62 on.
pub open spec fn is_random_id(value: u128) -> bool {
    (value >> 76) & 15 == 4 && (value >> 62) & 3 == 2
}

/// Calls `uuid::Uuid::new_v4`: a random number of the fourth version.
#[verifier::external_body]
pub(crate) fn random_uuid() -> (result: u128)
    ensures
        is_random_id(result),
{
    Uuid::new_v4().as_u128()
}

/// The identifier that the text writes down in one of the accepted forms.
pub uninterp spec fn uuid_value(text: Seq<char>) -> Option<u128>;

/// Calls `uuid::Uuid::parse_str`. What it accepts and what it gives depends on the text alone.
#[verifier::external_body]
pub(crate) fn parse_uuid(text: &str) -> (result: Option<u128>)
    ensures
        result == uuid_value(text@),
{
    Uuid::parse_str(text).ok().map(|id| id.as_u128())
}

/// A new random identifier as text.
pub fn new_id() -> (result: String)
    ensures
        exists|value: u128|
            is_random_id(value) && result@ == #[trigger] hyphenated(value) && uuid_value(result@)
                == Some(value),
{
    let value: u128 = random_uuid();
    uuid_text(value)
}

// ---------------------------------------------------------------------------
// Laws
// ---------------------------------------------------------------------------

/// An identifier is written in 36 characters: hyphens in their four places, and small hexadecimal
/// digits in all others.
pub proof fn law_identifiers_are_hyphenated(value: u128, i: int)
    requires
        0 <= i < 36,
    ensures
        hyphenated(value).len() == 36,
        i == 8 || i == 13 || i == 18 || i == 23 ==> hyphenated(value)[i] == '-',
        i != 8 && i != 13 && i != 18 && i != 23 ==> ('0' <= hyphenated(value)[i] <= '9' || 'a'
            <= hyphenated(value)[i] <= 'f'),
{
    if !is_hyphen_index(i) {
        let shift = (124 - 4 * (i - hyphens_before(i))) as u128;
        assert((value >> shift) & 15 <= 15) by (bit_vector);
    }
}

} // verus!
