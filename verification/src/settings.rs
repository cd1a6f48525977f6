//! How stored configuration text reads as a switch or a number.
use crate::error::{bad, shown, str_of, ApiError, Failure};
use crate::numbers::{
    bounded_value, integer_text, integer_value, law_integer_text_reads_back, lemma_integer_text_ends,
    parse_i64,
};
use crate::text::{concat, lowercase, same, to_lowercase_ascii, trim, trimmed};
use vstd::prelude::*;

verus! {

/// The words that switch a setting on, in any ASCII case.
pub open spec fn means_on(value: Seq<char>) -> bool {
    let word = lowercase(value);
    word == "1"@ || word == "true"@ || word == "yes"@ || word == "on"@
}

pub fn is_on(value: &str) -> (result: bool)
    ensures
        result == means_on(value@),
{
    let word = to_lowercase_ascii(value);
    same(word.as_str(), "1") || same(word.as_str(), "true") || same(word.as_str(), "yes") || same(
        word.as_str(),
        "on",
    )
}

/// A switch: on, off, or the default where nothing is stored.
pub open spec fn switch_value(value: Option<Seq<char>>, default: bool) -> bool {
    match value {
        Some(text) => means_on(text),
        None => default,
    }
}

pub fn switch(value: Option<&str>, default: bool) -> (result: bool)
    ensures
        result == switch_value(str_of(value), default),
{
    match value {
        Some(text) => is_on(text),
        None => default,
    }
}

/// An integer setting: the default where nothing or only white space is stored.
pub open spec fn integer_setting(
    key: Seq<char>,
    value: Option<Seq<char>>,
    default: i64,
) -> Result<i64, Failure> {
    match value {
        Some(text) if trimmed(text).len() > 0 => match bounded_value(
            text,
            i64::MIN as int,
            i64::MAX as int,
        ) {
            Some(number) => Ok(number as i64),
            None => Err(bad("Configuration "@ + key + " must be an integer"@)),
        },
        _ => Ok(default),
    }
}

pub fn integer(key: &str, value: Option<&str>, default: i64) -> (result: Result<i64, ApiError>)
    ensures
        shown(result) == integer_setting(key@, str_of(value), default),
{
    match value {
        Some(text) => {
            let content = trim(text);
            if content.as_str().is_empty() {
                return Ok(default);
            }
            match parse_i64(text) {
                Some(number) => Ok(number),
                None => {
                    let start = concat("Configuration ", key);
                    let message = concat(start.as_str(), " must be an integer");
                    Err(ApiError::bad_request(message.as_str()))
                },
            }
        },
        None => Ok(default),
    }
}

// ---------------------------------------------------------------------------
// Laws
// ---------------------------------------------------------------------------

/// A switch that is stored is on for the four words that mean it, however they are written, and off
/// for any other text; only where nothing is stored does the default count.
pub proof fn law_switches_are_on_or_off(value: Seq<char>, default: bool)
    ensures
        switch_value(None, default) == default,
        switch_value(Some(value), default) == switch_value(Some(value), !default),
        switch_value(Some(value), default) == switch_value(Some(lowercase(value)), default),
        switch_value(Some(value), default) <==> lowercase(value) == "1"@ || lowercase(value)
            == "true"@ || lowercase(value) == "yes"@ || lowercase(value) == "on"@,
        !switch_value(Some("false"@), default),
        !switch_value(Some(Seq::empty()), default),
{
    crate::text::lemma_lowercase_trimmed(value);
    reveal_strlit("1");
    reveal_strlit("true");
    reveal_strlit("yes");
    reveal_strlit("on");
    reveal_strlit("false");
    assert(lowercase("false"@).len() == 5);
    assert("1"@.len() == 1 && "true"@.len() == 4 && "yes"@.len() == 3 && "on"@.len() == 2);
    assert(lowercase(Seq::<char>::empty()).len() == 0);
}

/// An integer that is stored in decimal notation is read back, whatever the default; nothing, or
/// white space alone, is the default; and anything else is refused by the name of the setting.
pub proof fn law_integer_settings_read_back(
    key: Seq<char>,
    number: i64,
    text: Seq<char>,
    default: i64,
)
    ensures
        integer_setting(key, Some(integer_text(number as int)), default) == Ok::<i64, Failure>(
            number,
        ),
        integer_setting(key, None, default) == Ok::<i64, Failure>(default),
        trimmed(text).len() == 0 ==> integer_setting(key, Some(text), default) == Ok::<
            i64,
            Failure,
        >(default),
        trimmed(text).len() > 0 && !(integer_value(text) matches Some(value) && i64::MIN <= value
            <= i64::MAX) ==> integer_setting(key, Some(text), default) == Err::<i64, Failure>(
            bad("Configuration "@ + key + " must be an integer"@),
        ),
        trimmed(text).len() > 0 && integer_setting(key, Some(text), default) is Ok
            ==> integer_value(text) == Some(
            integer_setting(key, Some(text), default)->Ok_0 as int,
        ),
{
    law_integer_text_reads_back(number as int);
    lemma_integer_text_ends(number as int);
    crate::text::lemma_trimmed_already(integer_text(number as int));
}

} // verus!
