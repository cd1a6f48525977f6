//! Password hashes in the form that passlib writes.
use crate::crypto::{base64_encode, base64_text, hmac_sha256, hmac_sha256_tag};
use crate::error::text_of;
use crate::numbers::{digits_value, natural_text, natural_value, parse_u64, to_text};
use crate::text::{
    byte_len, byte_length, byte_split, concat, split, split_at_byte, split_at_last, split_last,
    split_on, views, without_prefix,
};
use vstd::prelude::*;
use vstd::utf8::encode_utf8;

verus! {

/// The parts of a hash.
pub struct ParsedHash {
    pub cost: u32,
    pub salt: String,
    pub checksum: String,
}

impl View for ParsedHash {
    type V = (u32, Seq<char>, Seq<char>);

    open spec fn view(&self) -> (u32, Seq<char>, Seq<char>) {
        (self.cost, self.salt@, self.checksum@)
    }
}

/// The parts of a hash: its parameters, a salt of 22 bytes and a checksum of 31.
pub open spec fn parsed(encoded: Seq<char>) -> Option<(u32, Seq<char>, Seq<char>)> {
    let prefix = "$bcrypt-sha256$"@;
    if !prefix.is_prefix_of(encoded) {
        None
    } else {
        let fields = split(encoded.skip(prefix.len() as int), '$');
        if fields.len() != 3 || byte_length(fields[1]) != 22 || byte_length(fields[2]) != 31 {
            None
        } else {
            match parsed_cost(fields[0]) {
                Some(cost) => Some((cost, fields[1], fields[2])),
                None => None,
            }
        }
    }
}

pub open spec fn parsed_cost(parameters: Seq<char>) -> Option<u32> {
    let prefix = "v=2,t=2b,r="@;
    if !prefix.is_prefix_of(parameters) {
        None
    } else {
        match natural_value(parameters.skip(prefix.len() as int), u32::MAX as int) {
            Some(cost) => Some(cost as u32),
            None => None,
        }
    }
}

fn read_cost(parameters: &str) -> (result: Option<u32>)
    ensures
        result == parsed_cost(parameters@),
{
    match without_prefix(parameters, "v=2,t=2b,r=") {
        Some(number) => match parse_u64(number.as_str()) {
            Some(cost) => if cost <= u32::MAX as u64 {
                Some(cost as u32)
            } else {
                None
            },
            None => None,
        },
        None => None,
    }
}

pub open spec fn parsed_view(hash: Option<ParsedHash>) -> Option<(u32, Seq<char>, Seq<char>)> {
    match hash {
        Some(found) => Some(found@),
        None => None,
    }
}

/// Reads a hash.
pub fn parse(encoded: &str) -> (result: Option<ParsedHash>)
    ensures
        parsed_view(result) == parsed(encoded@),
{
    let body = match without_prefix(encoded, "$bcrypt-sha256$") {
        Some(body) => body,
        None => return None,
    };
    let fields = split_on(body.as_str(), '$');
    assert(views(fields@).len() == fields@.len());
    if fields.len() != 3 {
        return None;
    }
    assert(views(fields@)[0] == fields@[0]@);
    assert(views(fields@)[1] == fields@[1]@);
    assert(views(fields@)[2] == fields@[2]@);
    if byte_len(fields[1].as_str()) != 22 || byte_len(fields[2].as_str()) != 31 {
        return None;
    }
    match read_cost(fields[0].as_str()) {
        Some(cost) => Some(
            ParsedHash { cost, salt: fields[1].clone(), checksum: fields[2].clone() },
        ),
        None => None,
    }
}

/// What is hashed in place of the password: its tag under the salt, as text.
pub open spec fn prehash_of(password: Seq<char>, salt: Seq<char>) -> Seq<char> {
    base64_text(hmac_sha256_tag(encode_utf8(salt), encode_utf8(password)))
}

pub fn prehash(password: &str, encoded_salt: &str) -> (result: String)
    ensures
        result@ == prehash_of(password@, encoded_salt@),
{
    let tag = hmac_sha256(encoded_salt.as_bytes(), password.as_bytes());
    base64_encode(tag.as_slice())
}

/// The salt in a native one: the 22 bytes behind the last dollar sign.
pub open spec fn native_salt_of(native: Seq<char>) -> Option<Seq<char>> {
    match split_last(native, '$') {
        Some((_, salt)) if byte_length(salt) == 22 => Some(salt),
        _ => None,
    }
}

pub fn native_salt(native: &str) -> (result: Option<String>)
    ensures
        text_of(result) == native_salt_of(native@),
{
    match split_at_last(native, '$') {
        Some((_, salt)) => if byte_len(salt.as_str()) == 22 {
            Some(salt)
        } else {
            None
        },
        None => None,
    }
}

/// The checksum in a native hash: the 31 bytes behind the salt.
pub open spec fn native_checksum_of(native: Seq<char>) -> Option<Seq<char>> {
    match split_last(native, '$') {
        Some((_, body)) => match byte_split(body, 22) {
            Some((_, checksum)) if byte_length(checksum) == 31 => Some(checksum),
            _ => None,
        },
        None => None,
    }
}

pub fn native_checksum(native: &str) -> (result: Option<String>)
    ensures
        text_of(result) == native_checksum_of(native@),
{
    match split_at_last(native, '$') {
        Some((_, body)) => match split_at_byte(body.as_str(), 22) {
            Some((_, checksum)) => if byte_len(checksum.as_str()) == 31 {
                Some(checksum)
            } else {
                None
            },
            None => None,
        },
        None => None,
    }
}

/// The hash that is stored, of cost 12.
pub open spec fn encoded_hash(salt: Seq<char>, checksum: Seq<char>) -> Seq<char> {
    "$bcrypt-sha256$v=2,t=2b,r=12$"@ + salt + "$"@ + checksum
}

pub fn hash_password(salt: &str, checksum: &str) -> (result: String)
    ensures
        result@ == encoded_hash(salt@, checksum@),
{
    let start = concat("$bcrypt-sha256$v=2,t=2b,r=12$", salt);
    let middle = concat(start.as_str(), "$");
    concat(middle.as_str(), checksum)
}

/// A cost in two digits or more.
pub open spec fn cost_text(cost: u32) -> Seq<char> {
    if cost < 10 {
        seq!['0'] + natural_text(cost as nat)
    } else {
        natural_text(cost as nat)
    }
}

/// The native form of a hash.
pub open spec fn native_hash_of(hash: (u32, Seq<char>, Seq<char>)) -> Seq<char> {
    "$2a$"@ + cost_text(hash.0) + "$"@ + hash.1 + hash.2
}

/// What a password is verified with: the text that is hashed in its place and the native form of
/// the stored hash. A stored text that is no hash verifies no password.
pub fn verify_password(password: &str, encoded: &str) -> (result: Option<(String, String)>)
    ensures
        match result {
            Some((text, native)) => parsed(encoded@) is Some && text@ == prehash_of(
                password@,
                parsed(encoded@)->Some_0.1,
            ) && native@ == native_hash_of(parsed(encoded@)->Some_0),
            None => parsed(encoded@) is None,
        },
{
    let hash = match parse(encoded) {
        Some(hash) => hash,
        None => return None,
    };
    let number = to_text(hash.cost as i64);
    let cost = if hash.cost < 10 {
        let mut padded = String::new();
        padded.push('0');
        assert(padded@ =~= seq!['0']);
        concat(padded.as_str(), number.as_str())
    } else {
        number
    };
    let first = concat("$2a$", cost.as_str());
    let second = concat(first.as_str(), "$");
    let third = concat(second.as_str(), hash.salt.as_str());
    let native = concat(third.as_str(), hash.checksum.as_str());
    Some((prehash(password, hash.salt.as_str()), native))
}

/// Reading a hash that was stored gives back its salt and checksum.
pub proof fn law_stored_hashes_read_back(salt: Seq<char>, checksum: Seq<char>)
    requires
        byte_length(salt) == 22,
        byte_length(checksum) == 31,
        !salt.contains('$'),
        !checksum.contains('$'),
    ensures
        parsed(encoded_hash(salt, checksum)) == Some((12u32, salt, checksum)),
{
    reveal_strlit("$bcrypt-sha256$v=2,t=2b,r=12$");
    reveal_strlit("$bcrypt-sha256$");
    reveal_strlit("v=2,t=2b,r=12");
    reveal_strlit("v=2,t=2b,r=");
    reveal_strlit("$");
    let encoded = encoded_hash(salt, checksum);
    let prefix = "$bcrypt-sha256$"@;
    let parameters = "v=2,t=2b,r=12"@;
    assert(encoded.subrange(0, prefix.len() as int) =~= prefix);
    let body = encoded.skip(prefix.len() as int);
    assert(body =~= parameters + seq!['$'] + (salt + seq!['$'] + checksum));
    assert(!parameters.contains('$'));
    lemma_three_fields(parameters, salt, checksum);
    let fields = split(body, '$');
    assert(fields[0] == parameters && fields[1] == salt && fields[2] == checksum);
    let start = "v=2,t=2b,r="@;
    assert(parameters.subrange(0, start.len() as int) =~= start);
    let number = parameters.skip(start.len() as int);
    assert(number =~= seq!['1', '2']);
    assert(number.drop_last() =~= seq!['1']);
    assert(number.drop_last().drop_last() =~= Seq::<char>::empty());
    assert(digits_value(Seq::<char>::empty()) == 0);
    assert(digits_value(seq!['1']) == 1) by {
        assert(seq!['1'].drop_last() =~= Seq::<char>::empty());
    }
    assert(digits_value(number) == 12);
}

proof fn lemma_three_fields(a: Seq<char>, b: Seq<char>, c: Seq<char>)
    requires
        !a.contains('$'),
        !b.contains('$'),
        !c.contains('$'),
    ensures
        split(a + seq!['$'] + (b + seq!['$'] + c), '$') == seq![a, b, c],
{
    crate::domains::lemma_split_append(a, b + seq!['$'] + c, '$');
    crate::domains::lemma_split_append(b, c, '$');
    crate::domains::lemma_split_none(a, '$');
    crate::domains::lemma_split_none(b, '$');
    crate::domains::lemma_split_none(c, '$');
    assert(seq![a] + (seq![b] + seq![c]) =~= seq![a, b, c]);
}

/// The salt of a native hash is what stands behind its last dollar sign, where that has 22 bytes, and
/// its checksum what stands behind the salt, where that has 31.
pub proof fn law_native_hashes_are_taken_apart(head: Seq<char>, salt: Seq<char>, body: Seq<char>)
    requires
        !salt.contains('$'),
        !body.contains('$'),
    ensures
        native_salt_of(head + seq!['$'] + salt) == if byte_length(salt) == 22 {
            Some(salt)
        } else {
            None
        },
        native_checksum_of(head + seq!['$'] + body) matches Some(checksum) ==> byte_length(checksum)
            == 31 && checksum.is_suffix_of(body) && byte_length(
            body.take(body.len() - checksum.len()),
        ) == 22,
        native_salt_of(salt) is None,
        native_checksum_of(body) is None,
{
    crate::text::law_texts_split_at_a_character(head, '$', salt);
    crate::text::law_texts_split_at_a_character(head, '$', body);
    crate::text::law_texts_split_at_a_character(salt, '$', salt);
    crate::text::law_texts_split_at_a_character(body, '$', body);
    if byte_split(body, 22) is Some {
        crate::text::law_cutting_keeps_the_text(body, 22);
        let (start, checksum) = byte_split(body, 22)->Some_0;
        assert(body.take(body.len() - checksum.len()) =~= start);
        assert(checksum =~= body.subrange(body.len() - checksum.len(), body.len() as int));
    }
}

/// A text that does not name its kind, or has not three parts of the right lengths behind it, is no
/// hash.
pub proof fn law_other_texts_are_no_hashes(encoded: Seq<char>)
    requires
        parsed(encoded) is Some,
    ensures
        "$bcrypt-sha256$"@.is_prefix_of(encoded),
        byte_length(parsed(encoded)->Some_0.1) == 22,
        byte_length(parsed(encoded)->Some_0.2) == 31,
        !parsed(encoded)->Some_0.1.contains('$'),
        !parsed(encoded)->Some_0.2.contains('$'),
{
    let prefix = "$bcrypt-sha256$"@;
    crate::text::law_splitting_loses_nothing(encoded.skip(prefix.len() as int), '$');
}

/// The native form of a hash names its cost in two digits or more, and then holds the salt and the
/// checksum as they are.
pub proof fn law_native_forms_hold_the_parts(cost: u32, salt: Seq<char>, checksum: Seq<char>)
    ensures
        native_hash_of((cost, salt, checksum)) == "$2a$"@ + cost_text(cost) + "$"@ + salt
            + checksum,
        cost >= 10 ==> cost_text(cost) == natural_text(cost as nat),
        cost < 10 ==> cost_text(cost) == seq!['0'] + natural_text(cost as nat),
        crate::numbers::integer_value(cost_text(cost)) == Some(cost as int),
{
    crate::numbers::law_integer_text_reads_back(cost as int);
    crate::numbers::lemma_natural_digits(cost as nat);
    crate::numbers::law_numbers_are_signed_digits(natural_text(cost as nat));
}

/// What is hashed for a password is its tag under the salt, as text.
pub proof fn law_passwords_are_tagged_under_the_salt(password: Seq<char>, salt: Seq<char>)
    ensures
        prehash_of(password, salt) == base64_text(
            hmac_sha256_tag(encode_utf8(salt), encode_utf8(password)),
        ),
{
}

} // verus!
