//! JSON values as the library reads them.
use crate::text::same;
use vstd::prelude::*;

verus! {

/// A JSON number: how it is written, and its value where that is a 64-bit signed integer.
#[derive(Debug)]
pub struct Number {
    pub text: String,
    pub integer: Option<i64>,
}

#[derive(Debug)]
pub enum Json {
    Null,
    Bool(bool),
    Number(Number),
    Text(String),
    Array(Vec<Json>),
    Object(Vec<(String, Json)>),
}

/// The value that stands under `key`: the last one, where a key occurs twice.
pub open spec fn lookup(fields: Seq<(String, Json)>, key: Seq<char>) -> Option<Json>
    decreases fields.len(),
{
    if fields.len() == 0 {
        None
    } else if fields.last().0@ == key {
        Some(fields.last().1)
    } else {
        lookup(fields.drop_last(), key)
    }
}

pub open spec fn borrowed(value: Option<&Json>) -> Option<Json> {
    match value {
        Some(json) => Some(*json),
        None => None,
    }
}

pub fn find<'a>(fields: &'a Vec<(String, Json)>, key: &str) -> (result: Option<&'a Json>)
    ensures
        borrowed(result) == lookup(fields@, key@),
{
    let mut i: usize = fields.len();
    assert(fields@.take(i as int) =~= fields@);
    while i > 0
        invariant
            i <= fields.len(),
            lookup(fields@, key@) == lookup(fields@.take(i as int), key@),
        decreases i,
    {
        assert(fields@.take(i as int).last() == fields@[i - 1]);
        assert(fields@.take(i as int).drop_last() =~= fields@.take(i - 1));
        if same(fields[i - 1].0.as_str(), key) {
            return Some(&fields[i - 1].1);
        }
        i -= 1;
    }
    None
}

impl Json {
    /// The value under `key` of an object; any other value has none.
    pub open spec fn field(self, key: Seq<char>) -> Option<Json> {
        match self {
            Json::Object(fields) => lookup(fields@, key),
            _ => None,
        }
    }

    pub fn get(&self, key: &str) -> (result: Option<&Json>)
        ensures
            borrowed(result) == self.field(key@),
    {
        match self {
            Json::Object(fields) => find(fields, key),
            _ => None,
        }
    }

    pub open spec fn text(self) -> Option<Seq<char>> {
        match self {
            Json::Text(value) => Some(value@),
            _ => None,
        }
    }

    pub fn as_str(&self) -> (result: Option<&str>)
        ensures
            crate::error::str_of(result) == self.text(),
    {
        match self {
            Json::Text(value) => Some(value.as_str()),
            _ => None,
        }
    }

    pub open spec fn integer(self) -> Option<i64> {
        match self {
            Json::Number(number) => number.integer,
            _ => None,
        }
    }

    pub fn as_i64(&self) -> (result: Option<i64>)
        ensures
            result == self.integer(),
    {
        match self {
            Json::Number(number) => number.integer,
            _ => None,
        }
    }

    pub open spec fn boolean(self) -> Option<bool> {
        match self {
            Json::Bool(value) => Some(value),
            _ => None,
        }
    }

    pub fn as_bool(&self) -> (result: Option<bool>)
        ensures
            result == self.boolean(),
    {
        match self {
            Json::Bool(value) => Some(*value),
            _ => None,
        }
    }

    /// The 32-bit integer that the value is.
    pub open spec fn small_integer(self) -> Option<i32> {
        match self.integer() {
            Some(value) if i32::MIN <= value <= i32::MAX => Some(value as i32),
            _ => None,
        }
    }

    pub fn as_i32(&self) -> (result: Option<i32>)
        ensures
            result == self.small_integer(),
    {
        match self.as_i64() {
            Some(value) => if i32::MIN as i64 <= value && value <= i32::MAX as i64 {
                Some(value as i32)
            } else {
                None
            },
            None => None,
        }
    }
}

// ---------------------------------------------------------------------------
// Laws
// ---------------------------------------------------------------------------

/// What was written under a key last is what is found there, and a key that was never written, or
/// one of anything but an object, holds nothing.
pub proof fn law_the_last_value_is_found(
    fields: Seq<(String, Json)>,
    entry: (String, Json),
    key: Seq<char>,
)
    ensures
        lookup(fields.push(entry), key) == if entry.0@ == key {
            Some(entry.1)
        } else {
            lookup(fields, key)
        },
        lookup(Seq::empty(), key) is None,
        forall|value: Json| !(value is Object) ==> #[trigger] value.field(key) is None,
        forall|object: Vec<(String, Json)>| #[trigger]
            Json::Object(object).field(key) == lookup(object@, key),
{
    assert(fields.push(entry).drop_last() =~= fields);
}

/// A value reads as what it is and as nothing else: a text as its characters, a truth value as
/// itself, and a number as an integer where it is one, as a 32-bit one where it fits.
pub proof fn law_values_read_as_what_they_are(value: Json)
    ensures
        value.text() is Some <==> value is Text,
        value is Text ==> value.text()->Some_0 == value->Text_0@,
        value.boolean() is Some <==> value is Bool,
        value is Bool ==> value.boolean()->Some_0 == value->Bool_0,
        value.integer() is Some <==> value is Number && value->Number_0.integer is Some,
        value is Number ==> value.integer() == value->Number_0.integer,
        value.small_integer() is Some <==> value.integer() is Some && i32::MIN
            <= value.integer()->Some_0 <= i32::MAX,
        value.small_integer() is Some ==> value.small_integer()->Some_0 == value.integer()->Some_0,
{
}

} // verus!
