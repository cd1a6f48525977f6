//! Reading the fields of a request that writes a challenge.
use crate::error::{bad, shown, shown_option, shown_text, text_of, ApiError, Failure};
use crate::json::{borrowed, find, lookup, Json};
use crate::numbers::{
    bounded_value, integer_text, integer_value, law_integer_text_reads_back, lemma_integer_text_ends,
    parse_i64,
};
use crate::text::{
    byte_len, byte_length, chars_of, concat, control, is_control, same, trim, trimmed,
};
use vstd::prelude::*;

verus! {

/// The fields of an object.
pub type Fields = Vec<(String, Json)>;

pub open spec fn has_field(fields: Seq<(String, Json)>, key: Seq<char>) -> bool {
    lookup(fields, key) is Some
}

pub fn contains_key(fields: &Fields, key: &str) -> (result: bool)
    ensures
        result == has_field(fields@, key@),
{
    find(fields, key).is_some()
}

/// What is said of a field of a challenge.
pub open spec fn about(key: Seq<char>, problem: Seq<char>) -> Failure {
    bad("Challenge "@ + key + problem)
}

fn complain(key: &str, problem: &str) -> (result: ApiError)
    ensures
        result@ == about(key@, problem@),
{
    let start = concat("Challenge ", key);
    let message = concat(start.as_str(), problem);
    ApiError::bad_request(message.as_str())
}

/// A field as text: a string, a number as it is written, or a boolean as a word.
pub open spec fn field_text(fields: Seq<(String, Json)>, key: Seq<char>) -> Option<Seq<char>> {
    match lookup(fields, key) {
        Some(Json::Text(value)) => Some(value@),
        Some(Json::Number(number)) => Some(number.text@),
        Some(Json::Bool(value)) => Some(
            if value {
                "true"@
            } else {
                "false"@
            },
        ),
        _ => None,
    }
}

pub fn optional_string(fields: &Fields, key: &str) -> (result: Option<String>)
    ensures
        text_of(result) == field_text(fields@, key@),
{
    match find(fields, key) {
        Some(Json::Text(value)) => Some(value.clone()),
        Some(Json::Number(number)) => Some(number.text.clone()),
        Some(Json::Bool(value)) => Some(
            if *value {
                "true".to_owned()
            } else {
                "false".to_owned()
            },
        ),
        _ => None,
    }
}

/// A field as text, or another text where it has none.
pub open spec fn field_text_or(
    fields: Seq<(String, Json)>,
    key: Seq<char>,
    default: Seq<char>,
) -> Seq<char> {
    match field_text(fields, key) {
        Some(text) => text,
        None => default,
    }
}

pub fn optional_string_or(fields: &Fields, key: &str, default: &str) -> (result: String)
    ensures
        result@ == field_text_or(fields@, key@, default@),
{
    match optional_string(fields, key) {
        Some(text) => text,
        None => default.to_owned(),
    }
}

/// A field that has to hold text, of so many characters at most, white space around it set aside.
pub open spec fn required_field(fields: Seq<(String, Json)>, key: Seq<char>, max: int) -> Result<
    Seq<char>,
    Failure,
> {
    let value = trimmed(field_text_or(fields, key, Seq::empty()));
    if value.len() == 0 {
        Err(about(key, " is required"@))
    } else if value.len() > max {
        Err(about(key, " is too long"@))
    } else {
        Ok(value)
    }
}

pub fn required_string(fields: &Fields, key: &str, max: usize) -> (result: Result<
    String,
    ApiError,
>)
    ensures
        shown_text(result) == required_field(fields@, key@, max as int),
{
    let value = match optional_string(fields, key) {
        Some(text) => text,
        None => String::new(),
    };
    let content = trim(value.as_str());
    if content.as_str().is_empty() {
        return Err(complain(key, " is required"));
    }
    if chars_of(content.as_str()).len() > max {
        return Err(complain(key, " is too long"));
    }
    Ok(content)
}

/// The new value of a field that has to hold text: the one that is sent, or the current one.
pub open spec fn patched_required(
    fields: Seq<(String, Json)>,
    key: Seq<char>,
    current: Option<Seq<char>>,
    max: int,
) -> Result<Seq<char>, Failure> {
    if has_field(fields, key) {
        required_field(fields, key, max)
    } else {
        match current {
            Some(text) if trimmed(text).len() > 0 => Ok(text),
            _ => Err(about(key, " is required"@)),
        }
    }
}

pub fn patch_required_string(
    fields: &Fields,
    key: &str,
    current: &Option<String>,
    max: usize,
) -> (result: Result<String, ApiError>)
    ensures
        shown_text(result) == patched_required(fields@, key@, text_of(*current), max as int),
{
    if contains_key(fields, key) {
        return required_string(fields, key, max);
    }
    match current {
        Some(text) => {
            let content = trim(text.as_str());
            if content.as_str().is_empty() {
                Err(complain(key, " is required"))
            } else {
                Ok(text.clone())
            }
        },
        None => Err(complain(key, " is required")),
    }
}

/// A control character that is neither a line break nor a tab.
pub open spec fn is_unsupported(c: char) -> bool {
    is_control(c) && c != '\n' && c != '\r' && c != '\t'
}

pub open spec fn has_unsupported(s: Seq<char>) -> bool {
    exists|i: int| 0 <= i < s.len() && is_unsupported(#[trigger] s[i])
}

fn contains_unsupported(s: &str) -> (result: bool)
    ensures
        result == has_unsupported(s@),
{
    let chars = chars_of(s);
    let mut i: usize = 0;
    while i < chars.len()
        invariant
            i <= chars.len(),
            chars@ == s@,
            forall|j: int| 0 <= j < i ==> !is_unsupported(#[trigger] s@[j]),
        decreases chars.len() - i,
    {
        let c = chars[i];
        if control(c) && c != '\n' && c != '\r' && c != '\t' {
            assert(is_unsupported(s@[i as int]));
            return true;
        }
        i += 1;
    }
    false
}

/// A field of several lines, of so many bytes at most: nothing, where it is blank.
pub open spec fn text_field(fields: Seq<(String, Json)>, key: Seq<char>, max: int) -> Result<
    Option<Seq<char>>,
    Failure,
> {
    match lookup(fields, key) {
        None => Ok(None),
        Some(Json::Null) => Ok(None),
        Some(Json::Text(value)) => if trimmed(value@).len() == 0 {
            Ok(None)
        } else if byte_length(value@) > max {
            Err(about(key, " is too long"@))
        } else if has_unsupported(value@) {
            Err(about(key, " contains unsupported control characters"@))
        } else {
            Ok(Some(value@))
        },
        Some(_) => Err(about(key, " must be a string or null"@)),
    }
}

pub fn optional_text(fields: &Fields, key: &str, max_bytes: usize) -> (result: Result<
    Option<String>,
    ApiError,
>)
    ensures
        shown_option(result) == text_field(fields@, key@, max_bytes as int),
{
    match find(fields, key) {
        None => Ok(None),
        Some(Json::Null) => Ok(None),
        Some(Json::Text(value)) => {
            let content = trim(value.as_str());
            if content.as_str().is_empty() {
                return Ok(None);
            }
            if byte_len(value.as_str()) > max_bytes {
                return Err(complain(key, " is too long"));
            }
            if contains_unsupported(value.as_str()) {
                return Err(complain(key, " contains unsupported control characters"));
            }
            Ok(Some(value.clone()))
        },
        Some(_) => Err(complain(key, " must be a string or null")),
    }
}

pub open spec fn patched_text(
    fields: Seq<(String, Json)>,
    key: Seq<char>,
    current: Option<Seq<char>>,
    max: int,
) -> Result<Option<Seq<char>>, Failure> {
    if has_field(fields, key) {
        text_field(fields, key, max)
    } else {
        Ok(current)
    }
}

pub fn patch_text(fields: &Fields, key: &str, current: &Option<String>, max_bytes: usize) -> (result:
    Result<Option<String>, ApiError>)
    ensures
        shown_option(result) == patched_text(fields@, key@, text_of(*current), max_bytes as int),
{
    if contains_key(fields, key) {
        optional_text(fields, key, max_bytes)
    } else {
        match current {
            Some(text) => Ok(Some(text.clone())),
            None => Ok(None),
        }
    }
}

/// The 32-bit integer that a value is or, as a string, writes down.
pub open spec fn integer_of(value: Json) -> Option<i32> {
    let number = match value {
        Json::Text(text) => bounded_value(text@, i64::MIN as int, i64::MAX as int),
        _ => match value.integer() {
            Some(integer) => Some(integer as int),
            None => None,
        },
    };
    match number {
        Some(integer) if i32::MIN <= integer <= i32::MAX => Some(integer as i32),
        _ => None,
    }
}

/// A field that may hold an integer: nothing where it is absent, null or an empty string.
pub open spec fn integer_field(fields: Seq<(String, Json)>, key: Seq<char>) -> Result<
    Option<i32>,
    Failure,
> {
    match lookup(fields, key) {
        None => Ok(None),
        Some(Json::Null) => Ok(None),
        Some(value) => if value.text() == Some(Seq::<char>::empty()) {
            Ok(None)
        } else {
            match integer_of(value) {
                Some(number) => Ok(Some(number)),
                None => Err(about(key, " must be an integer"@)),
            }
        },
    }
}

pub fn optional_i32(fields: &Fields, key: &str) -> (result: Result<Option<i32>, ApiError>)
    ensures
        shown(result) == integer_field(fields@, key@),
{
    let value = match find(fields, key) {
        None => return Ok(None),
        Some(value) => value,
    };
    let number: Option<i64> = match value {
        Json::Null => return Ok(None),
        Json::Text(text) => {
            if text.as_str().is_empty() {
                assert(text@ =~= Seq::<char>::empty());
                return Ok(None);
            }
            parse_i64(text.as_str())
        },
        other => other.as_i64(),
    };
    match number {
        Some(integer) => if i32::MIN as i64 <= integer && integer <= i32::MAX as i64 {
            Ok(Some(integer as i32))
        } else {
            Err(complain(key, " must be an integer"))
        },
        None => Err(complain(key, " must be an integer")),
    }
}

pub open spec fn patched_integer(
    fields: Seq<(String, Json)>,
    key: Seq<char>,
    current: Option<i32>,
) -> Result<Option<i32>, Failure> {
    if has_field(fields, key) {
        integer_field(fields, key)
    } else {
        Ok(current)
    }
}

pub fn patch_i32(fields: &Fields, key: &str, current: Option<i32>) -> (result: Result<
    Option<i32>,
    ApiError,
>)
    ensures
        shown(result) == patched_integer(fields@, key@, current),
{
    if contains_key(fields, key) {
        optional_i32(fields, key)
    } else {
        Ok(current)
    }
}

/// Zero means that there is no limit.
pub fn validate_max_attempts(value: i32) -> (result: Result<i32, ApiError>)
    ensures
        shown(result) == attempts_limit(value),
{
    if value < 0 {
        Err(ApiError::bad_request("Challenge max_attempts cannot be negative"))
    } else {
        Ok(value)
    }
}

pub open spec fn attempts_limit(value: i32) -> Result<i32, Failure> {
    if value < 0 {
        Err(bad("Challenge max_attempts cannot be negative"@))
    } else {
        Ok(value)
    }
}

/// What is wrong with the requirements of a challenge.
pub open spec fn requirements_problem(requirements: Option<Json>) -> Option<Failure> {
    match requirements {
        None => None,
        Some(Json::Object(fields)) => match lookup(fields@, "prerequisites"@) {
            None => None,
            Some(Json::Array(entries)) => if forall|i: int|
                0 <= i < entries@.len() ==> (#[trigger] entries@[i]).integer() is Some {
                None
            } else {
                Some(bad("Challenge prerequisites must contain integer IDs"@))
            },
            Some(_) => Some(bad("Challenge prerequisites must be an array"@)),
        },
        Some(_) => Some(bad("Challenge requirements must be an object"@)),
    }
}

pub open spec fn pass_or(problem: Option<Failure>) -> Result<(), Failure> {
    match problem {
        Some(failure) => Err(failure),
        None => Ok(()),
    }
}

fn all_integers(entries: &Vec<Json>) -> (result: bool)
    ensures
        result == (forall|i: int|
            0 <= i < entries@.len() ==> (#[trigger] entries@[i]).integer() is Some),
{
    let mut i: usize = 0;
    while i < entries.len()
        invariant
            i <= entries.len(),
            forall|j: int| 0 <= j < i ==> (#[trigger] entries@[j]).integer() is Some,
        decreases entries.len() - i,
    {
        if entries[i].as_i64().is_none() {
            assert(!(entries@[i as int].integer() is Some));
            return false;
        }
        i += 1;
    }
    true
}

pub fn validate_requirements(requirements: Option<&Json>) -> (result: Result<(), ApiError>)
    ensures
        shown(result) == pass_or(requirements_problem(borrowed(requirements))),
{
    let fields = match requirements {
        None => return Ok(()),
        Some(Json::Object(fields)) => fields,
        Some(_) => return Err(ApiError::bad_request("Challenge requirements must be an object")),
    };
    let entries = match find(fields, "prerequisites") {
        None => return Ok(()),
        Some(Json::Array(entries)) => entries,
        Some(_) => return Err(ApiError::bad_request("Challenge prerequisites must be an array")),
    };
    if all_integers(entries) {
        Ok(())
    } else {
        Err(ApiError::bad_request("Challenge prerequisites must contain integer IDs"))
    }
}

/// Whether the request asks to enable launches of private challenges: only a private Jeopardy
/// challenge may.
pub open spec fn gate_request(
    fields: Seq<(String, Json)>,
    challenge_kind: Seq<char>,
    exposure: Seq<char>,
) -> Result<bool, Failure> {
    match lookup(fields, "enable_global_gate"@) {
        None => Ok(false),
        Some(value) => match value.boolean() {
            None => Err(bad("Challenge enable_global_gate must be a boolean"@)),
            Some(enable) => if challenge_kind != "jeopardy"@ {
                Err(bad("enable_global_gate is available only for Jeopardy challenges"@))
            } else if exposure != "private"@ {
                Err(bad("enable_global_gate is available only for private challenges"@))
            } else {
                Ok(enable)
            },
        },
    }
}

pub fn private_gate_enable_requested(
    fields: &Fields,
    challenge_kind: &str,
    exposure: &str,
) -> (result: Result<bool, ApiError>)
    ensures
        shown(result) == gate_request(fields@, challenge_kind@, exposure@),
{
    let enable = match find(fields, "enable_global_gate") {
        None => return Ok(false),
        Some(value) => match value.as_bool() {
            None => return Err(
                ApiError::bad_request("Challenge enable_global_gate must be a boolean"),
            ),
            Some(enable) => enable,
        },
    };
    if !same(challenge_kind, "jeopardy") {
        return Err(
            ApiError::bad_request("enable_global_gate is available only for Jeopardy challenges"),
        );
    }
    if !same(exposure, "private") {
        return Err(
            ApiError::bad_request("enable_global_gate is available only for private challenges"),
        );
    }
    Ok(enable)
}

// ---------------------------------------------------------------------------
// Laws
// ---------------------------------------------------------------------------

/// A text that is sent is read as it is, a number as it is written and a truth value as its word;
/// any other value, or none, has no text.
pub proof fn law_fields_are_read_as_text(fields: Seq<(String, Json)>, key: Seq<char>)
    ensures
        ({
            let sent = lookup(fields, key);
            let text = field_text(fields, key);
            &&& text is Some <==> sent is Some && (sent->Some_0 is Text || sent->Some_0 is Number
                || sent->Some_0 is Bool)
            &&& sent is Some && sent->Some_0 is Text ==> text == Some(sent->Some_0->Text_0@)
            &&& sent is Some && sent->Some_0 is Number ==> text == Some(
                sent->Some_0->Number_0.text@,
            )
            &&& sent is Some && sent->Some_0 is Bool ==> text == Some(
                if sent->Some_0->Bool_0 {
                    "true"@
                } else {
                    "false"@
                },
            )
            &&& forall|default: Seq<char>| #[trigger]
                field_text_or(fields, key, default) == (if text is Some {
                    text->Some_0
                } else {
                    default
                })
            &&& has_field(fields, key) <==> sent is Some
        }),
{
}

/// A field that has to be filled is read without the white space around it where it has 1 to so many
/// characters, and refused by its name otherwise.
pub proof fn law_required_fields_are_filled(fields: Seq<(String, Json)>, key: Seq<char>, max: int)
    ensures
        ({
            let text = if field_text(fields, key) is Some {
                trimmed(field_text(fields, key)->Some_0)
            } else {
                Seq::empty()
            };
            let result = required_field(fields, key, max);
            &&& result is Ok <==> 0 < text.len() <= max
            &&& result is Ok ==> result->Ok_0 == text
            &&& text.len() == 0 ==> result == Err::<Seq<char>, Failure>(
                bad("Challenge "@ + key + " is required"@),
            )
            &&& text.len() > 0 && text.len() > max ==> result == Err::<Seq<char>, Failure>(
                bad("Challenge "@ + key + " is too long"@),
            )
        }),
{
    if field_text(fields, key) is None {
        crate::text::lemma_trimmed_already(Seq::empty());
    }
}

/// A change takes what is sent, and keeps what is not mentioned.
pub proof fn law_what_is_not_sent_is_kept(
    fields: Seq<(String, Json)>,
    key: Seq<char>,
    text: Option<Seq<char>>,
    number: Option<i32>,
    max: int,
)
    ensures
        lookup(fields, key) is None ==> patched_text(fields, key, text, max) == Ok::<
            Option<Seq<char>>,
            Failure,
        >(text) && patched_integer(fields, key, number) == Ok::<Option<i32>, Failure>(number),
        lookup(fields, key) is None && text is Some && trimmed(text->Some_0).len() > 0
            ==> patched_required(fields, key, text, max) == Ok::<Seq<char>, Failure>(text->Some_0),
        lookup(fields, key) is None && (text is None || trimmed(text->Some_0).len() == 0)
            ==> patched_required(fields, key, text, max) is Err,
        lookup(fields, key) is Some ==> patched_text(fields, key, text, max) == text_field(
            fields,
            key,
            max,
        ) && patched_integer(fields, key, number) == integer_field(fields, key)
            && patched_required(fields, key, text, max) == required_field(fields, key, max),
{
}

/// A text of several lines is kept to the letter where it is not blank, has so many bytes at most and
/// no control characters but line ends and tabs; a blank one, null and nothing are nothing.
pub proof fn law_texts_are_kept(fields: Seq<(String, Json)>, key: Seq<char>, max: int)
    ensures
        ({
            let sent = lookup(fields, key);
            let result = text_field(fields, key, max);
            let value = sent->Some_0->Text_0@;
            let blank = sent is None || sent->Some_0 is Null || (sent->Some_0 is Text && trimmed(
                value,
            ).len() == 0);
            let kept = !blank && sent->Some_0 is Text && byte_length(value) <= max && forall|i: int|
                0 <= i < value.len() && is_control(#[trigger] value[i]) ==> value[i] == '\n'
                    || value[i] == '\r' || value[i] == '\t';
            &&& blank ==> result == Ok::<Option<Seq<char>>, Failure>(None)
            &&& kept ==> result == Ok::<Option<Seq<char>>, Failure>(Some(value))
            &&& !blank && !kept ==> result is Err
            &&& !blank && !(sent->Some_0 is Text) ==> result == Err::<Option<Seq<char>>, Failure>(
                bad("Challenge "@ + key + " must be a string or null"@),
            )
            &&& !blank && sent->Some_0 is Text && byte_length(value) > max ==> result == Err::<
                Option<Seq<char>>,
                Failure,
            >(bad("Challenge "@ + key + " is too long"@))
        }),
{
    let sent = lookup(fields, key);
    let value = sent->Some_0->Text_0@;
    if has_unsupported(value) {
        let i = choose|i: int| 0 <= i < value.len() && is_unsupported(#[trigger] value[i]);
        assert(is_control(value[i]));
    } else {
        assert forall|i: int| 0 <= i < value.len() && is_control(#[trigger] value[i]) implies
            value[i] == '\n' || value[i] == '\r' || value[i] == '\t' by {
            assert(!is_unsupported(value[i]));
        }
    }
}

/// An integer that is sent is read back, as a number or written down; nothing, null and an empty text
/// are nothing; anything else is refused by the name of the field.
pub proof fn law_integers_are_read_back(fields: Seq<(String, Json)>, key: Seq<char>, n: i32)
    ensures
        ({
            let sent = lookup(fields, key);
            let result = integer_field(fields, key);
            &&& sent is Some && sent->Some_0 is Number && sent->Some_0->Number_0.integer == Some(
                n as i64,
            ) ==> result == Ok::<Option<i32>, Failure>(Some(n))
            &&& sent is Some && sent->Some_0 is Text && sent->Some_0->Text_0@ == integer_text(
                n as int,
            ) ==> result == Ok::<Option<i32>, Failure>(Some(n))
            &&& sent is None || sent->Some_0 is Null || (sent->Some_0 is Text
                && sent->Some_0->Text_0@.len() == 0) ==> result == Ok::<Option<i32>, Failure>(None)
            &&& result is Err ==> result == Err::<Option<i32>, Failure>(
                bad("Challenge "@ + key + " must be an integer"@),
            )
            &&& result matches Ok(Some(number)) ==> sent is Some && (match sent->Some_0 {
                Json::Number(found) => found.integer == Some(number as i64),
                Json::Text(text) => integer_value(text@) == Some(number as int),
                _ => false,
            })
            &&& result matches Ok(None) ==> sent is None || sent->Some_0 is Null || (sent->Some_0
                is Text && sent->Some_0->Text_0@.len() == 0)
        }),
{
    law_integer_text_reads_back(n as int);
    lemma_integer_text_ends(n as int);
    let sent = lookup(fields, key);
    if sent is Some && sent->Some_0 is Text && sent->Some_0->Text_0@.len() == 0 {
        assert(sent->Some_0->Text_0@ =~= Seq::<char>::empty());
    }
}

/// The number of tries is zero or more, and requirements are an object whose prerequisites, where it
/// has them, are a list of integers.
pub proof fn law_rules_are_checked(value: i32, requirements: Option<Json>)
    ensures
        attempts_limit(value) is Ok <==> value >= 0,
        attempts_limit(value) is Ok ==> attempts_limit(value)->Ok_0 == value,
        requirements is None ==> requirements_problem(requirements) is None,
        requirements is Some && !(requirements->Some_0 is Object) ==> requirements_problem(
            requirements,
        ) == Some(bad("Challenge requirements must be an object"@)),
        requirements is Some && requirements->Some_0 is Object ==> {
            let listed = requirements->Some_0.field("prerequisites"@);
            &&& requirements_problem(requirements) is None <==> listed is None || (listed->Some_0
                is Array && forall|i: int|
                0 <= i < listed->Some_0->Array_0@.len() ==> (
                #[trigger] listed->Some_0->Array_0@[i]).integer() is Some)
        },
{
}

/// Launches of private challenges are enabled by a request for a private Jeopardy challenge that
/// says so, and by no other.
pub proof fn law_gates_are_asked_for(
    fields: Seq<(String, Json)>,
    kind: Seq<char>,
    exposure: Seq<char>,
)
    ensures
        ({
            let sent = lookup(fields, "enable_global_gate"@);
            let result = gate_request(fields, kind, exposure);
            &&& sent is None ==> result == Ok::<bool, Failure>(false)
            &&& sent is Some ==> (result is Ok <==> sent->Some_0 is Bool && kind == "jeopardy"@
                && exposure == "private"@)
            &&& sent is Some && result is Ok ==> result->Ok_0 == sent->Some_0->Bool_0
        }),
{
}

} // verus!
