//! Requests to create something that may be sent twice.
use crate::crypto::{sha256, sha256_digest};
use crate::error::{bad, conflict, shown, shown_text, str_of, ApiError, Failure};
use crate::flag_policy::big_endian;
use crate::json::Json;
use crate::text::{byte_len, byte_length, bytes_of, contains_control, has_control, trim, trimmed};
use crate::text_map::{
    ascending, lemma_ascending_unique, lemma_mapping, mapping, TextMap,
};
use vstd::prelude::*;
use vstd::utf8::encode_utf8;

verus! {

broadcast use vstd::std_specs::vec::group_vec_axioms;

// ---------------------------------------------------------------------------
// The canonical encoding of a request
// ---------------------------------------------------------------------------

/// The eight bytes of a number, the most significant first.
pub open spec fn big_endian64(value: u64) -> Seq<u8> {
    seq![
        (value >> 56) as u8,
        (value >> 48) as u8,
        (value >> 40) as u8,
        (value >> 32) as u8,
        (value >> 24) as u8,
        (value >> 16) as u8,
        (value >> 8) as u8,
        value as u8,
    ]
}

/// Bytes behind their number.
pub open spec fn framed(bytes: Seq<u8>) -> Seq<u8> {
    big_endian64(bytes.len() as u64) + bytes
}

/// The list in the order of its keys that spells out the same map.
pub open spec fn arranged<T>(pairs: Seq<(Seq<char>, T)>) -> Seq<(Seq<char>, T)> {
    choose|list: Seq<(Seq<char>, T)>| #[trigger]
        ascending(list) && mapping(list) == mapping(pairs)
}

/// Keys, each in a frame and before the encoding of its value.
pub open spec fn encoded_pairs(pairs: Seq<(Seq<char>, Seq<u8>)>) -> Seq<u8>
    decreases pairs.len(),
{
    if pairs.len() == 0 {
        Seq::empty()
    } else {
        encoded_pairs(pairs.drop_last()) + framed(encode_utf8(pairs.last().0)) + pairs.last().1
    }
}

/// The encoding of a value: a tag for its type and what it holds. An object is encoded in the
/// order of its keys, whatever the order in which they were sent.
pub open spec fn encoding(value: Json) -> Seq<u8>
    decreases value, 0int,
{
    match value {
        Json::Null => seq![0u8],
        Json::Bool(flag) => seq![
            1u8,
            if flag {
                1u8
            } else {
                0u8
            },
        ],
        Json::Number(number) => seq![2u8] + framed(encode_utf8(number.text@)),
        Json::Text(text) => seq![3u8] + framed(encode_utf8(text@)),
        Json::Array(values) => seq![4u8] + big_endian64(values@.len() as u64) + encoded_values(
            values,
            values@.len() as int,
        ),
        Json::Object(fields) => {
            let pairs = arranged(field_encodings(fields, fields@.len() as int));
            seq![5u8] + big_endian64(pairs.len() as u64) + encoded_pairs(pairs)
        },
    }
}

/// The encodings of the first `n` values, one behind the other.
pub open spec fn encoded_values(values: Vec<Json>, n: int) -> Seq<u8>
    decreases values, n,
{
    if n <= 0 || n > values@.len() {
        Seq::empty()
    } else {
        encoded_values(values, n - 1) + encoding(values[n - 1])
    }
}

/// The keys of the first `n` fields and the encodings of their values.
pub open spec fn field_encodings(fields: Vec<(String, Json)>, n: int) -> Seq<(Seq<char>, Seq<u8>)>
    decreases fields, n,
{
    if n <= 0 || n > fields@.len() {
        Seq::empty()
    } else {
        field_encodings(fields, n - 1).push((fields[n - 1].0@, encoding(fields[n - 1].1)))
    }
}

fn push_big_endian(bytes: &mut Vec<u8>, value: u64)
    ensures
        final(bytes)@ == old(bytes)@ + big_endian64(value),
{
    bytes.push((value >> 56) as u8);
    bytes.push((value >> 48) as u8);
    bytes.push((value >> 40) as u8);
    bytes.push((value >> 32) as u8);
    bytes.push((value >> 24) as u8);
    bytes.push((value >> 16) as u8);
    bytes.push((value >> 8) as u8);
    bytes.push(value as u8);
    assert(bytes@ =~= old(bytes)@ + big_endian64(value));
}

fn push_text(bytes: &mut Vec<u8>, text: &str)
    ensures
        final(bytes)@ == old(bytes)@ + framed(encode_utf8(text@)),
{
    let mut content = bytes_of(text);
    push_big_endian(bytes, content.len() as u64);
    bytes.append(&mut content);
    assert(bytes@ =~= old(bytes)@ + framed(encode_utf8(text@)));
}

pub open spec fn seen(pairs: Seq<(Seq<char>, Vec<u8>)>) -> Seq<(Seq<char>, Seq<u8>)> {
    pairs.map_values(|pair: (Seq<char>, Vec<u8>)| (pair.0, pair.1@))
}

proof fn lemma_seen(pairs: Seq<(Seq<char>, Vec<u8>)>)
    ensures
        mapping(seen(pairs)) == mapping(pairs).map_values(|bytes: Vec<u8>| bytes@),
        ascending(pairs) ==> ascending(seen(pairs)),
    decreases pairs.len(),
{
    if pairs.len() > 0 {
        lemma_seen(pairs.drop_last());
        assert(seen(pairs).drop_last() =~= seen(pairs.drop_last()));
        assert(seen(pairs).last() == (pairs.last().0, pairs.last().1@));
        let rest = mapping(pairs.drop_last());
        assert(rest.insert(pairs.last().0, pairs.last().1).map_values(|bytes: Vec<u8>| bytes@)
            =~= rest.map_values(|bytes: Vec<u8>| bytes@).insert(
            pairs.last().0,
            pairs.last().1@,
        ));
    } else {
        assert(mapping(seen(pairs)) =~= mapping(pairs).map_values(|bytes: Vec<u8>| bytes@));
    }
    if ascending(pairs) {
        assert forall|i: int, j: int| 0 <= i < j < seen(pairs).len() implies
            crate::text_map::before((#[trigger] seen(pairs)[i]).0, (#[trigger] seen(pairs)[j]).0) by {
            assert(crate::text_map::before(pairs[i].0, pairs[j].0));
        }
    }
}

proof fn lemma_insert_seen(map: Map<Seq<char>, Vec<u8>>, key: Seq<char>, bytes: Vec<u8>)
    ensures
        map.insert(key, bytes).map_values(|b: Vec<u8>| b@) == map.map_values(
            |b: Vec<u8>| b@,
        ).insert(key, bytes@),
{
    assert(map.insert(key, bytes).map_values(|b: Vec<u8>| b@) =~= map.map_values(
        |b: Vec<u8>| b@,
    ).insert(key, bytes@));
}

/// The bytes that stand for a value.
pub fn encode(value: &Json) -> (result: Vec<u8>)
    ensures
        result@ == encoding(*value),
    decreases *value, 0int,
{
    let mut bytes: Vec<u8> = Vec::new();
    match value {
        Json::Null => {
            bytes.push(0);
        },
        Json::Bool(flag) => {
            bytes.push(1);
            bytes.push(
                if *flag {
                    1
                } else {
                    0
                },
            );
        },
        Json::Number(number) => {
            bytes.push(2);
            push_text(&mut bytes, number.text.as_str());
        },
        Json::Text(text) => {
            bytes.push(3);
            push_text(&mut bytes, text.as_str());
        },
        Json::Array(values) => {
            bytes.push(4);
            push_big_endian(&mut bytes, values.len() as u64);
            let mut content = encode_values(values, values.len());
            bytes.append(&mut content);
        },
        Json::Object(fields) => {
            let map = encode_fields(fields, fields.len());
            bytes.push(5);
            push_big_endian(&mut bytes, map.len() as u64);
            let ghost pairs = field_encodings(*fields, fields@.len() as int);
            proof {
                lemma_seen(map.pairs());
                let list = arranged(pairs);
                assert(ascending(seen(map.pairs())) && mapping(seen(map.pairs())) == mapping(
                    pairs,
                ));
                lemma_ascending_unique(list, seen(map.pairs()));
            }
            let mut i: usize = 0;
            let ghost start = bytes@;
            assert(seen(map.pairs()).take(0) =~= Seq::<(Seq<char>, Seq<u8>)>::empty());
            assert(bytes@ =~= start + encoded_pairs(seen(map.pairs()).take(0)));
            while i < map.len()
                invariant
                    i <= map.pairs().len(),
                    bytes@ == start + encoded_pairs(seen(map.pairs()).take(i as int)),
                decreases map.pairs().len() - i,
            {
                proof {
                    let all = seen(map.pairs());
                    assert(all.take(i + 1).drop_last() =~= all.take(i as int));
                    assert(all.take(i + 1).last() == (
                        map.pairs()[i as int].0,
                        map.pairs()[i as int].1@,
                    ));
                }
                push_text(&mut bytes, map.key_at(i));
                let content = map.value_at(i);
                push_bytes(&mut bytes, content);
                proof {
                    let all = seen(map.pairs());
                    assert(bytes@ =~= start + encoded_pairs(all.take(i + 1)));
                }
                i += 1;
            }
            assert(seen(map.pairs()).take(map.pairs().len() as int) =~= seen(map.pairs()));
        },
    }
    assert(bytes@ =~= encoding(*value));
    bytes
}

fn push_bytes(bytes: &mut Vec<u8>, content: &Vec<u8>)
    ensures
        final(bytes)@ == old(bytes)@ + content@,
{
    let mut i: usize = 0;
    let ghost start = bytes@;
    assert(start + content@.take(0) =~= start);
    while i < content.len()
        invariant
            i <= content.len(),
            bytes@ == start + content@.take(i as int),
        decreases content.len() - i,
    {
        bytes.push(content[i]);
        assert(start + content@.take(i + 1) =~= (start + content@.take(i as int)).push(
            content@[i as int],
        ));
        i += 1;
    }
    assert(content@.take(content@.len() as int) =~= content@);
}

fn encode_values(values: &Vec<Json>, n: usize) -> (result: Vec<u8>)
    requires
        n <= values.len(),
    ensures
        result@ == encoded_values(*values, n as int),
    decreases *values, n,
{
    if n == 0 {
        return Vec::new();
    }
    let mut bytes = encode_values(values, n - 1);
    let mut last = encode(&values[n - 1]);
    bytes.append(&mut last);
    bytes
}

fn encode_fields(fields: &Vec<(String, Json)>, n: usize) -> (result: TextMap<Vec<u8>>)
    requires
        n <= fields.len(),
    ensures
        result.ok(),
        result@.map_values(|b: Vec<u8>| b@) == mapping(field_encodings(*fields, n as int)),
    decreases *fields, n,
{
    if n == 0 {
        let map = TextMap::<Vec<u8>>::new();
        assert(map@.map_values(|b: Vec<u8>| b@) =~= Map::<Seq<char>, Seq<u8>>::empty());
        return map;
    }
    let mut map = encode_fields(fields, n - 1);
    let content = encode(&fields[n - 1].1);
    proof {
        lemma_insert_seen(map@, fields@[n - 1].0@, content);
        let pairs = field_encodings(*fields, n as int);
        assert(pairs.drop_last() =~= field_encodings(*fields, n - 1));
    }
    map.insert(fields[n - 1].0.clone(), content);
    map
}

pub open spec fn digest_of(value: Json) -> Seq<u8> {
    sha256_digest(encode_utf8("ctfzone/admin-create-request/v1"@) + encoding(value))
}

/// The digest of a request.
pub fn canonical_digest(value: &Json) -> (result: [u8; 32])
    ensures
        result@ == digest_of(*value),
{
    let mut message = bytes_of("ctfzone/admin-create-request/v1");
    let mut content = encode(value);
    message.append(&mut content);
    sha256(message.as_slice())
}

// ---------------------------------------------------------------------------
// The key of a request
// ---------------------------------------------------------------------------

/// The key that a request is known by. The header may be missing, or hold what is no text.
pub open spec fn key_of(header: Option<Option<Seq<char>>>) -> Result<Seq<char>, Failure> {
    match header {
        None => Err(bad("Idempotency-Key header is required"@)),
        Some(None) => Err(bad("Invalid Idempotency-Key header"@)),
        Some(Some(value)) => {
            let key = trimmed(value);
            if key.len() == 0 || byte_length(key) > 128 || has_control(key) {
                Err(bad("Invalid Idempotency-Key header"@))
            } else {
                Ok(key)
            }
        },
    }
}

pub open spec fn header_of(header: Option<Option<&str>>) -> Option<Option<Seq<char>>> {
    match header {
        Some(value) => Some(str_of(value)),
        None => None,
    }
}

pub fn required_key(header: Option<Option<&str>>) -> (result: Result<String, ApiError>)
    ensures
        shown_text(result) == key_of(header_of(header)),
{
    let value = match header {
        None => return Err(ApiError::bad_request("Idempotency-Key header is required")),
        Some(None) => return Err(ApiError::bad_request("Invalid Idempotency-Key header")),
        Some(Some(value)) => value,
    };
    let key = trim(value);
    if key.as_str().is_empty() || byte_len(key.as_str()) > 128 || contains_control(key.as_str()) {
        return Err(ApiError::bad_request("Invalid Idempotency-Key header"));
    }
    Ok(key)
}

/// The number that eight bytes write down, the most significant first.
pub open spec fn from_big_endian64(bytes: Seq<u8>) -> i64 {
    (((bytes[0] as u64) << 56) | ((bytes[1] as u64) << 48) | ((bytes[2] as u64) << 40) | ((
    bytes[3] as u64) << 32) | ((bytes[4] as u64) << 24) | ((bytes[5] as u64) << 16) | ((
    bytes[6] as u64) << 8) | (bytes[7] as u64)) as i64
}

/// What the lock of a request is computed from.
pub open spec fn lock_message(
    actor_user_id: i32,
    operation: Seq<char>,
    key: Seq<char>,
) -> Seq<u8> {
    encode_utf8("ctfzone/admin-create-idempotency-lock/v1"@) + big_endian(actor_user_id)
        + encode_utf8(operation) + seq![0u8] + encode_utf8(key)
}

pub open spec fn advisory_lock(actor_user_id: i32, operation: Seq<char>, key: Seq<char>) -> i64 {
    from_big_endian64(sha256_digest(lock_message(actor_user_id, operation, key)))
}

/// The lock that keeps two requests with one key apart.
pub fn advisory_key(actor_user_id: i32, operation: &str, key: &str) -> (result: i64)
    ensures
        result == advisory_lock(actor_user_id, operation@, key@),
{
    let mut message = bytes_of("ctfzone/admin-create-idempotency-lock/v1");
    let bits: u32 = actor_user_id as u32;
    message.push((bits >> 24) as u8);
    message.push((bits >> 16) as u8);
    message.push((bits >> 8) as u8);
    message.push(bits as u8);
    let mut name = bytes_of(operation);
    message.append(&mut name);
    message.push(0);
    let mut content = bytes_of(key);
    message.append(&mut content);
    assert(message@ =~= lock_message(actor_user_id, operation@, key@));
    let d = sha256(message.as_slice());
    (((d[0] as u64) << 56) | ((d[1] as u64) << 48) | ((d[2] as u64) << 40) | ((d[3] as u64) << 32)
        | ((d[4] as u64) << 24) | ((d[5] as u64) << 16) | ((d[6] as u64) << 8) | (
    d[7] as u64)) as i64
}

// ---------------------------------------------------------------------------
// Replaying
// ---------------------------------------------------------------------------

pub fn same_bytes(a: &[u8], b: &[u8]) -> (result: bool)
    ensures
        result == (a@ == b@),
{
    if a.len() != b.len() {
        return false;
    }
    let mut i: usize = 0;
    while i < a.len()
        invariant
            i <= a.len() == b.len(),
            forall|j: int| 0 <= j < i ==> a@[j] == b@[j],
        decreases a.len() - i,
    {
        if a[i] != b[i] {
            assert(a@[i as int] != b@[i as int]);
            return false;
        }
        i += 1;
    }
    assert(a@ =~= b@);
    true
}

/// A request to create something.
pub struct CreateRequest {
    pub actor_user_id: i32,
    pub key: String,
    pub request_sha256: [u8; 32],
    pub lock_key: i64,
}

impl CreateRequest {
    /// Reads the request: its key, its digest and the lock that it takes.
    pub fn new(
        header: Option<Option<&str>>,
        actor_user_id: i32,
        operation: &str,
        request: &Json,
    ) -> (result: Result<CreateRequest, ApiError>)
        ensures
            match result {
                Ok(create) => key_of(header_of(header)) == Ok::<Seq<char>, Failure>(create.key@)
                    && create.actor_user_id == actor_user_id && create.request_sha256@ == digest_of(
                    *request,
                ) && create.lock_key == advisory_lock(actor_user_id, operation@, create.key@),
                Err(error) => key_of(header_of(header)) == Err::<Seq<char>, Failure>(error@),
            },
    {
        let key = match required_key(header) {
            Ok(key) => key,
            Err(error) => return Err(error),
        };
        let request_sha256 = canonical_digest(request);
        let lock_key: i64 = advisory_key(actor_user_id, operation, key.as_str());
        Ok(CreateRequest { actor_user_id, key, request_sha256, lock_key })
    }

    /// Whether the stored answer is given again; `stored` is the digest of the request that it
    /// was given to. Another request under the same key is refused.
    pub fn lock_and_replay(&self, stored: Option<&[u8]>) -> (result: Result<bool, ApiError>)
        ensures
            shown(result) == (match stored {
                None => Ok::<bool, Failure>(false),
                Some(digest) => if digest@ == self.request_sha256@ {
                    Ok(true)
                } else {
                    Err(conflict("Idempotency-Key was already used for different create data"@))
                },
            }),
    {
        match stored {
            None => Ok(false),
            Some(digest) => if same_bytes(digest, self.request_sha256.as_slice()) {
                Ok(true)
            } else {
                Err(
                    ApiError::conflict("Idempotency-Key was already used for different create data"),
                )
            },
        }
    }
}

/// How far a request to create something has come.
#[derive(Clone, Copy, Debug)]
pub struct CreateProgress {
    /// Whether there is an answer to give again, once that is known.
    pub replayed: Option<bool>,
    pub inserted: bool,
    pub completed: bool,
}

#[derive(Clone, Copy, Debug, PartialEq, Eq, Structural)]
pub enum CreateStage {
    /// Takes the lock of the request and looks for a stored answer.
    LockAndReplay,
    /// Commits and gives the stored answer again.
    Replay,
    Insert,
    /// Stores the answer beside the request's key.
    Complete,
    Commit,
}

/// What comes next for a request that has come so far.
pub open spec fn stage_of(progress: CreateProgress) -> CreateStage {
    match progress.replayed {
        None => CreateStage::LockAndReplay,
        Some(true) => CreateStage::Replay,
        Some(false) => if !progress.inserted {
            CreateStage::Insert
        } else if !progress.completed {
            CreateStage::Complete
        } else {
            CreateStage::Commit
        },
    }
}

/// What comes next: nothing is written before the key has been looked up, and nothing is committed
/// before the answer has been stored.
pub fn create_stage(progress: CreateProgress) -> (result: CreateStage)
    ensures
        result == CreateStage::LockAndReplay <==> progress.replayed is None,
        result == CreateStage::Replay <==> progress.replayed == Some(true),
        result == CreateStage::Insert <==> progress.replayed == Some(false) && !progress.inserted,
        result == CreateStage::Complete <==> progress.replayed == Some(false) && progress.inserted
            && !progress.completed,
        result == CreateStage::Commit <==> progress.replayed == Some(false) && progress.inserted
            && progress.completed,
        result == stage_of(progress),
{
    match progress.replayed {
        None => CreateStage::LockAndReplay,
        Some(true) => CreateStage::Replay,
        Some(false) => if !progress.inserted {
            CreateStage::Insert
        } else if !progress.completed {
            CreateStage::Complete
        } else {
            CreateStage::Commit
        },
    }
}

// ---------------------------------------------------------------------------
// Laws
// ---------------------------------------------------------------------------

/// The place of the last of the first `n` fields that has the key, or -1.
pub open spec fn last_of(fields: Vec<(String, Json)>, key: Seq<char>, n: int) -> int
    decreases n,
{
    if n <= 0 || n > fields@.len() {
        -1
    } else if fields[n - 1].0@ == key {
        n - 1
    } else {
        last_of(fields, key, n - 1)
    }
}

/// The place of the field that counts for a key, or -1.
pub open spec fn field_place(fields: Vec<(String, Json)>, key: Seq<char>) -> int {
    last_of(fields, key, fields@.len() as int)
}

/// Two values say the same: they have one type and hold the same; objects hold it under the same
/// keys.
pub open spec fn alike(a: Json, b: Json) -> bool
    decreases a,
{
    match (a, b) {
        (Json::Null, Json::Null) => true,
        (Json::Bool(x), Json::Bool(y)) => x == y,
        (Json::Number(x), Json::Number(y)) => x.text@ == y.text@,
        (Json::Text(x), Json::Text(y)) => x@ == y@,
        (Json::Array(x), Json::Array(y)) => x@.len() == y@.len() && forall|i: int|
            0 <= i < x@.len() ==> alike(#[trigger] x[i], y[i]),
        (Json::Object(x), Json::Object(y)) => forall|key: Seq<char>|
            {
                let i = #[trigger] field_place(x, key);
                let j = field_place(y, key);
                (0 <= i < x@.len() <==> 0 <= j < y@.len()) && (0 <= i < x@.len() && 0 <= j
                    < y@.len() ==> alike(x[i].1, y[j].1))
            },
        _ => false,
    }
}

/// No text in the value has more bytes than a frame can count.
pub open spec fn countable(value: Json) -> bool
    decreases value,
{
    match value {
        Json::Number(number) => encode_utf8(number.text@).len() <= u64::MAX,
        Json::Text(text) => encode_utf8(text@).len() <= u64::MAX,
        Json::Array(values) => forall|i: int|
            0 <= i < values@.len() ==> countable(#[trigger] values[i]),
        Json::Object(fields) => forall|i: int|
            0 <= i < fields@.len() ==> encode_utf8((#[trigger] fields[i]).0@).len() <= u64::MAX
                && countable(fields[i].1),
        _ => true,
    }
}

proof fn lemma_big_endian(x: u64, y: u64)
    requires
        big_endian64(x) == big_endian64(y),
    ensures
        x == y,
{
    let a = big_endian64(x);
    let b = big_endian64(y);
    assert(a[0] == b[0] && a[1] == b[1] && a[2] == b[2] && a[3] == b[3] && a[4] == b[4] && a[5]
        == b[5] && a[6] == b[6] && a[7] == b[7]);
    assert((x >> 56) as u8 == (y >> 56) as u8 && (x >> 48) as u8 == (y >> 48) as u8 && (x >> 40)
        as u8 == (y >> 40) as u8 && (x >> 32) as u8 == (y >> 32) as u8 && (x >> 24) as u8 == (y
        >> 24) as u8 && (x >> 16) as u8 == (y >> 16) as u8 && (x >> 8) as u8 == (y >> 8) as u8
        && x as u8 == y as u8 ==> x == y) by (bit_vector);
}

/// Two numbers before something else.
proof fn lemma_numbers_first(x: u64, y: u64, s: Seq<u8>, t: Seq<u8>)
    requires
        big_endian64(x) + s == big_endian64(y) + t,
    ensures
        x == y,
        s == t,
{
    let a = big_endian64(x) + s;
    let b = big_endian64(y) + t;
    assert(a.take(8) =~= big_endian64(x));
    assert(b.take(8) =~= big_endian64(y));
    assert(a.skip(8) =~= s);
    assert(b.skip(8) =~= t);
    lemma_big_endian(x, y);
}

/// Two frames before something else.
proof fn lemma_frames_first(x: Seq<u8>, y: Seq<u8>, s: Seq<u8>, t: Seq<u8>)
    requires
        x.len() <= u64::MAX,
        y.len() <= u64::MAX,
        framed(x) + s == framed(y) + t,
    ensures
        x == y,
        s == t,
{
    assert(framed(x) + s =~= big_endian64(x.len() as u64) + (x + s));
    assert(framed(y) + t =~= big_endian64(y.len() as u64) + (y + t));
    lemma_numbers_first(x.len() as u64, y.len() as u64, x + s, y + t);
    let n = x.len() as int;
    assert((x + s).take(n) =~= x);
    assert((y + t).take(n) =~= y);
    assert((x + s).skip(n) =~= s);
    assert((y + t).skip(n) =~= t);
}

/// Two tags before something else.
proof fn lemma_tags_first(x: u8, y: u8, s: Seq<u8>, t: Seq<u8>)
    requires
        seq![x] + s == seq![y] + t,
    ensures
        x == y,
        s == t,
{
    let a = seq![x] + s;
    let b = seq![y] + t;
    assert(a[0] == x && b[0] == y);
    assert(a.skip(1) =~= s);
    assert(b.skip(1) =~= t);
}

proof fn lemma_last_of(fields: Vec<(String, Json)>, key: Seq<char>, n: int)
    requires
        0 <= n <= fields@.len(),
    ensures
        -1 <= last_of(fields, key, n) < n,
        last_of(fields, key, n) >= 0 ==> fields[last_of(fields, key, n)].0@ == key,
    decreases n,
{
    if n > 0 {
        lemma_last_of(fields, key, n - 1);
    }
}

/// What stands under a key among the encoded fields is the encoding of the last field with it.
proof fn lemma_field_mapping(fields: Vec<(String, Json)>, n: int, key: Seq<char>)
    requires
        0 <= n <= fields@.len(),
    ensures
        mapping(field_encodings(fields, n)).contains_key(key) <==> last_of(fields, key, n) >= 0,
        last_of(fields, key, n) >= 0 ==> mapping(field_encodings(fields, n))[key] == encoding(
            fields[last_of(fields, key, n)].1,
        ),
    decreases n,
{
    if n > 0 {
        lemma_field_mapping(fields, n - 1, key);
        let pairs = field_encodings(fields, n);
        assert(pairs.drop_last() =~= field_encodings(fields, n - 1));
    }
}

/// The entry is the field that counts for its key, with the encoding of its value.
spec fn drawn_from(pair: (Seq<char>, Seq<u8>), fields: Vec<(String, Json)>) -> bool {
    let i = field_place(fields, pair.0);
    0 <= i < fields@.len() && fields[i].0@ == pair.0 && encoding(fields[i].1) == pair.1
}

/// The fields of an object in order.
proof fn lemma_arranged_fields(fields: Vec<(String, Json)>)
    ensures
        ({
            let list = arranged(field_encodings(fields, fields@.len() as int));
            &&& ascending(list)
            &&& mapping(list) == mapping(field_encodings(fields, fields@.len() as int))
            &&& list.len() <= fields@.len()
            &&& forall|k: int| 0 <= k < list.len() ==> drawn_from(#[trigger] list[k], fields)
        }),
{
    let n = fields@.len() as int;
    let pairs = field_encodings(fields, n);
    let found = crate::text_map::lemma_arrangement(pairs);
    assert(ascending(found) && mapping(found) == mapping(pairs));
    let list = arranged(pairs);
    lemma_mapping(list);
    assert forall|k: int| 0 <= k < list.len() implies drawn_from(#[trigger] list[k], fields) by {
        assert(mapping(list).contains_key(list[k].0));
        lemma_field_mapping(fields, n, list[k].0);
        lemma_last_of(fields, list[k].0, n);
    }
    lemma_encodings_length(fields, n);
    lemma_domain_size(list);
    lemma_domain_bound(pairs);
}

/// A key of an object stands in the list of its fields.
proof fn lemma_key_listed(fields: Vec<(String, Json)>, key: Seq<char>) -> (k: int)
    requires
        field_place(fields, key) >= 0,
    ensures
        0 <= k < arranged(field_encodings(fields, fields@.len() as int)).len(),
        arranged(field_encodings(fields, fields@.len() as int))[k].0 == key,
{
    let list = arranged(field_encodings(fields, fields@.len() as int));
    lemma_arranged_fields(fields);
    lemma_field_mapping(fields, fields@.len() as int, key);
    lemma_mapping(list);
    assert(mapping(list).contains_key(key));
    choose|k: int| 0 <= k < list.len() && (#[trigger] list[k]).0 == key
}

proof fn lemma_encodings_length(fields: Vec<(String, Json)>, n: int)
    requires
        0 <= n <= fields@.len(),
    ensures
        field_encodings(fields, n).len() == n,
    decreases n,
{
    if n > 0 {
        lemma_encodings_length(fields, n - 1);
    }
}

proof fn lemma_domain_size(list: Seq<(Seq<char>, Seq<u8>)>)
    requires
        ascending(list),
    ensures
        mapping(list).dom().finite(),
        mapping(list).dom().len() == list.len(),
    decreases list.len(),
{
    if list.len() > 0 {
        let rest = list.drop_last();
        lemma_domain_size(rest);
        lemma_mapping(rest);
        let key = list.last().0;
        if mapping(rest).contains_key(key) {
            let i = choose|i: int| 0 <= i < rest.len() && (#[trigger] rest[i]).0 == key;
            assert(crate::text_map::before(list[i].0, list[list.len() - 1].0));
            crate::text_map::lemma_before_irreflexive(key);
        }
        assert(mapping(list).dom() =~= mapping(rest).dom().insert(key));
    } else {
        assert(mapping(list).dom() =~= Set::<Seq<char>>::empty());
    }
}

proof fn lemma_domain_bound(pairs: Seq<(Seq<char>, Seq<u8>)>)
    ensures
        mapping(pairs).dom().finite(),
        mapping(pairs).dom().len() <= pairs.len(),
    decreases pairs.len(),
{
    if pairs.len() > 0 {
        lemma_domain_bound(pairs.drop_last());
        assert(mapping(pairs).dom() =~= mapping(pairs.drop_last()).dom().insert(pairs.last().0));
    } else {
        assert(mapping(pairs).dom() =~= Set::<Seq<char>>::empty());
    }
}

pub open spec fn tag_of(value: Json) -> u8 {
    match value {
        Json::Null => 0,
        Json::Bool(_) => 1,
        Json::Number(_) => 2,
        Json::Text(_) => 3,
        Json::Array(_) => 4,
        Json::Object(_) => 5,
    }
}

/// The encoding behind its tag.
spec fn content(value: Json) -> Seq<u8> {
    encoding(value).skip(1)
}

proof fn lemma_content(value: Json)
    ensures
        encoding(value) == seq![tag_of(value)] + content(value),
        match value {
            Json::Null => content(value) == Seq::<u8>::empty(),
            Json::Bool(flag) => content(value) == seq![
                if flag {
                    1u8
                } else {
                    0u8
                },
            ],
            Json::Number(number) => content(value) == framed(encode_utf8(number.text@)),
            Json::Text(text) => content(value) == framed(encode_utf8(text@)),
            Json::Array(values) => content(value) == big_endian64(values@.len() as u64)
                + encoded_values(values, values@.len() as int),
            Json::Object(fields) => content(value) == object_content(fields),
        },
{
    assert(encoding(value) =~= seq![tag_of(value)] + content(value));
    match value {
        Json::Null => {
            assert(content(value) =~= Seq::<u8>::empty());
        },
        Json::Bool(flag) => {
            assert(content(value) =~= seq![
                if flag {
                    1u8
                } else {
                    0u8
                },
            ]);
        },
        Json::Number(number) => {
            assert(content(value) =~= framed(encode_utf8(number.text@)));
        },
        Json::Text(text) => {
            assert(content(value) =~= framed(encode_utf8(text@)));
        },
        Json::Array(values) => {
            assert(content(value) =~= big_endian64(values@.len() as u64) + encoded_values(
                values,
                values@.len() as int,
            ));
        },
        Json::Object(fields) => {
            assert(content(value) =~= object_content(fields));
        },
    }
}

spec fn object_content(fields: Vec<(String, Json)>) -> Seq<u8> {
    let pairs = arranged(field_encodings(fields, fields@.len() as int));
    big_endian64(pairs.len() as u64) + encoded_pairs(pairs)
}

/// An encoding tells its end: where two of them start the same bytes, they are encodings of values
/// that say the same, and the rest is the same.
proof fn lemma_decode(a: Json, b: Json, s: Seq<u8>, t: Seq<u8>)
    requires
        countable(a),
        countable(b),
        encoding(a) + s == encoding(b) + t,
    ensures
        alike(a, b),
        s == t,
    decreases a, 0int,
{
    lemma_content(a);
    lemma_content(b);
    assert(encoding(a) + s =~= seq![tag_of(a)] + (content(a) + s));
    assert(encoding(b) + t =~= seq![tag_of(b)] + (content(b) + t));
    lemma_tags_first(tag_of(a), tag_of(b), content(a) + s, content(b) + t);
    match (a, b) {
        (Json::Null, Json::Null) => {
            assert(content(a) + s =~= s);
            assert(content(b) + t =~= t);
        },
        (Json::Bool(x), Json::Bool(y)) => {
            lemma_tags_first(content(a)[0], content(b)[0], s, t);
        },
        (Json::Number(x), Json::Number(y)) => {
            lemma_frames_first(encode_utf8(x.text@), encode_utf8(y.text@), s, t);
            crate::text::lemma_encode_injective(x.text@, y.text@);
        },
        (Json::Text(x), Json::Text(y)) => {
            lemma_frames_first(encode_utf8(x@), encode_utf8(y@), s, t);
            crate::text::lemma_encode_injective(x@, y@);
        },
        (Json::Array(x), Json::Array(y)) => {
            let n = x@.len() as int;
            let m = y@.len() as int;
            assert(n == x.len() && m == y.len());
            let p = encoded_values(x, n) + s;
            let q = encoded_values(y, m) + t;
            assert(content(a) + s =~= big_endian64(n as u64) + p);
            assert(content(b) + t =~= big_endian64(m as u64) + q);
            lemma_numbers_first(n as u64, m as u64, p, q);
            lemma_decode_values(x, y, n, s, t);
        },
        (Json::Object(x), Json::Object(y)) => {
            lemma_decode_objects(x, y, s, t);
            assert(alike(a, b)) by {
                assert forall|key: Seq<char>|
                    {
                        let i = #[trigger] field_place(x, key);
                        let j = field_place(y, key);
                        (0 <= i < x@.len() <==> 0 <= j < y@.len()) && (0 <= i < x@.len() && 0 <= j
                            < y@.len() ==> alike(x[i].1, y[j].1))
                    } by {
                    assert(fields_alike(x, y, key));
                }
            }
        },
        _ => {},
    }
}

spec fn fields_alike(x: Vec<(String, Json)>, y: Vec<(String, Json)>, key: Seq<char>) -> bool {
    let i = field_place(x, key);
    let j = field_place(y, key);
    (0 <= i < x@.len() <==> 0 <= j < y@.len()) && (0 <= i < x@.len() && 0 <= j < y@.len() ==> alike(
        x[i].1,
        y[j].1,
    ))
}

spec fn fields_countable(fields: Vec<(String, Json)>) -> bool {
    forall|i: int|
        0 <= i < fields@.len() ==> encode_utf8((#[trigger] fields[i]).0@).len() <= u64::MAX
            && countable(fields[i].1)
}

/// Two objects whose encodings start the same bytes have the same keys, with values that say the
/// same.
proof fn lemma_decode_objects(
    x: Vec<(String, Json)>,
    y: Vec<(String, Json)>,
    s: Seq<u8>,
    t: Seq<u8>,
)
    requires
        fields_countable(x),
        fields_countable(y),
        object_content(x) + s == object_content(y) + t,
    ensures
        forall|key: Seq<char>| #[trigger] fields_alike(x, y, key),
        s == t,
    decreases x, x@.len() + 1,
{
    let f = arranged(field_encodings(x, x@.len() as int));
    let g = arranged(field_encodings(y, y@.len() as int));
    lemma_arranged_fields(x);
    lemma_arranged_fields(y);
    assert(x@.len() == x.len() && y@.len() == y.len());
    assert(object_content(x) + s =~= big_endian64(f.len() as u64) + (encoded_pairs(f) + s));
    assert(object_content(y) + t =~= big_endian64(g.len() as u64) + (encoded_pairs(g) + t));
    lemma_numbers_first(f.len() as u64, g.len() as u64, encoded_pairs(f) + s, encoded_pairs(g) + t);
    lemma_decode_pairs(x, y, f, g, s, t);
    assert forall|key: Seq<char>| #[trigger] fields_alike(x, y, key) by {
        lemma_last_of(x, key, x@.len() as int);
        lemma_last_of(y, key, y@.len() as int);
        if field_place(x, key) >= 0 {
            let k = lemma_key_listed(x, key);
            assert(pair_alike(x, y, f[k].0, g[k].0));
        }
        if field_place(y, key) >= 0 {
            let k = lemma_key_listed(y, key);
            assert(pair_alike(x, y, f[k].0, g[k].0));
        }
    }
}

/// Two keys are one, and stand for values that say the same.
spec fn pair_alike(
    x: Vec<(String, Json)>,
    y: Vec<(String, Json)>,
    left: Seq<char>,
    right: Seq<char>,
) -> bool {
    left == right && field_place(x, left) >= 0 && field_place(y, left) >= 0 && fields_alike(
        x,
        y,
        left,
    )
}

proof fn lemma_last_pair_off(f: Seq<(Seq<char>, Seq<u8>)>, s: Seq<u8>)
    requires
        f.len() > 0,
    ensures
        encoded_pairs(f) + s == encoded_pairs(f.drop_last()) + (framed(encode_utf8(f.last().0)) + (
        f.last().1 + s)),
{
    assert(encoded_pairs(f) + s =~= encoded_pairs(f.drop_last()) + (framed(
        encode_utf8(f.last().0),
    ) + (f.last().1 + s)));
}

proof fn lemma_decode_pair(
    x: Vec<(String, Json)>,
    y: Vec<(String, Json)>,
    p: (Seq<char>, Seq<u8>),
    q: (Seq<char>, Seq<u8>),
    s: Seq<u8>,
    t: Seq<u8>,
)
    requires
        drawn_from(p, x),
        drawn_from(q, y),
        fields_countable(x),
        fields_countable(y),
        framed(encode_utf8(p.0)) + (p.1 + s) == framed(encode_utf8(q.0)) + (q.1 + t),
    ensures
        s == t,
        pair_alike(x, y, p.0, q.0),
    decreases x, 0nat,
{
    let i = field_place(x, p.0);
    let j = field_place(y, q.0);
    assert(encode_utf8(x[i].0@).len() <= u64::MAX);
    assert(encode_utf8(y[j].0@).len() <= u64::MAX);
    lemma_frames_first(encode_utf8(p.0), encode_utf8(q.0), p.1 + s, q.1 + t);
    crate::text::lemma_encode_injective(p.0, q.0);
    lemma_decode(x[i].1, y[j].1, s, t);
}

#[verifier::spinoff_prover]
proof fn lemma_decode_pairs(
    x: Vec<(String, Json)>,
    y: Vec<(String, Json)>,
    f: Seq<(Seq<char>, Seq<u8>)>,
    g: Seq<(Seq<char>, Seq<u8>)>,
    s: Seq<u8>,
    t: Seq<u8>,
)
    requires
        f.len() == g.len() <= x@.len(),
        forall|k: int| 0 <= k < f.len() ==> drawn_from(#[trigger] f[k], x),
        forall|k: int| 0 <= k < g.len() ==> drawn_from(#[trigger] g[k], y),
        fields_countable(x),
        fields_countable(y),
        encoded_pairs(f) + s == encoded_pairs(g) + t,
    ensures
        s == t,
        forall|k: int| 0 <= k < f.len() ==> pair_alike(x, y, (#[trigger] f[k]).0, g[k].0),
        forall|k: int| 0 <= k < f.len() ==> pair_alike(x, y, f[k].0, (#[trigger] g[k]).0),
    decreases x, f.len(),
{
    if f.len() > 0 {
        let last = f.len() - 1;
        let p = f.last();
        let q = g.last();
        let u = framed(encode_utf8(p.0)) + (p.1 + s);
        let v = framed(encode_utf8(q.0)) + (q.1 + t);
        let f0 = f.drop_last();
        let g0 = g.drop_last();
        lemma_last_pair_off(f, s);
        lemma_last_pair_off(g, t);
        assert forall|k: int| 0 <= k < f0.len() implies drawn_from(#[trigger] f0[k], x) by {
            assert(drawn_from(f[k], x));
        }
        assert forall|k: int| 0 <= k < g0.len() implies drawn_from(#[trigger] g0[k], y) by {
            assert(drawn_from(g[k], y));
        }
        lemma_decode_pairs(x, y, f0, g0, u, v);
        assert(drawn_from(f[last], x));
        assert(drawn_from(g[last], y));
        lemma_decode_pair(x, y, p, q, s, t);
        assert forall|k: int| 0 <= k < f.len() implies pair_alike(
            x,
            y,
            (#[trigger] f[k]).0,
            g[k].0,
        ) by {
            if k < last {
                assert(pair_alike(x, y, f0[k].0, g0[k].0));
            }
        }
        assert forall|k: int| 0 <= k < f.len() implies pair_alike(
            x,
            y,
            f[k].0,
            (#[trigger] g[k]).0,
        ) by {
            assert(pair_alike(x, y, f[k].0, g[k].0));
        }
    } else {
        assert(encoded_pairs(f) + s =~= s);
        assert(encoded_pairs(g) + t =~= t);
    }
}

proof fn lemma_decode_values(x: Vec<Json>, y: Vec<Json>, n: int, s: Seq<u8>, t: Seq<u8>)
    requires
        0 <= n <= x@.len(),
        n <= y@.len(),
        forall|i: int| 0 <= i < n ==> countable(#[trigger] x[i]),
        forall|i: int| 0 <= i < n ==> countable(#[trigger] y[i]),
        encoded_values(x, n) + s == encoded_values(y, n) + t,
    ensures
        forall|i: int| 0 <= i < n ==> alike(#[trigger] x[i], y[i]),
        s == t,
    decreases x, n,
{
    if n > 0 {
        let p = encoding(x[n - 1]) + s;
        let q = encoding(y[n - 1]) + t;
        assert(encoded_values(x, n) + s =~= encoded_values(x, n - 1) + p);
        assert(encoded_values(y, n) + t =~= encoded_values(y, n - 1) + q);
        lemma_decode_values(x, y, n - 1, p, q);
        lemma_decode(x[n - 1], y[n - 1], s, t);
    } else {
        assert(encoded_values(x, n) + s =~= s);
        assert(encoded_values(y, n) + t =~= t);
    }
}

/// Requests that differ are told apart: the bytes that the digest is taken of are the same only
/// for requests that say the same.
pub proof fn law_different_requests_are_encoded_differently(a: Json, b: Json)
    requires
        countable(a),
        countable(b),
        encoding(a) == encoding(b),
    ensures
        alike(a, b),
{
    let none = Seq::<u8>::empty();
    assert(encoding(a) + none =~= encoding(b) + none);
    lemma_decode(a, b, none, none);
}

/// Requests that say the same have the same digest, whatever the order of the fields in them and
/// in the objects that they hold.
pub proof fn law_equal_requests_have_one_digest(a: Json, b: Json)
    requires
        alike(a, b),
    ensures
        encoding(a) == encoding(b),
        digest_of(a) == digest_of(b),
    decreases a,
{
    match (a, b) {
        (Json::Array(x), Json::Array(y)) => {
            assert forall|i: int| 0 <= i < x@.len() implies encoding(#[trigger] x[i]) == encoding(
                y[i],
            ) by {
                assert(alike(x[i], y[i]));
                law_equal_requests_have_one_digest(x[i], y[i]);
            }
            lemma_same_values(x, y, x@.len() as int);
        },
        (Json::Object(x), Json::Object(y)) => {
            let f = mapping(field_encodings(x, x@.len() as int));
            let g = mapping(field_encodings(y, y@.len() as int));
            assert forall|key: Seq<char>|
                #![trigger f.dom().contains(key)]
                #![trigger g.dom().contains(key)]
                f.dom().contains(key) == g.dom().contains(key) && (f.dom().contains(key) ==> f[key]
                    == g[key]) by {
                lemma_field_mapping(x, x@.len() as int, key);
                lemma_field_mapping(y, y@.len() as int, key);
                lemma_last_of(x, key, x@.len() as int);
                lemma_last_of(y, key, y@.len() as int);
                let i = field_place(x, key);
                let j = field_place(y, key);
                if i >= 0 && j >= 0 {
                    law_equal_requests_have_one_digest(x[i].1, y[j].1);
                }
            }
            assert(f =~= g);
        },
        _ => {},
    }
}

proof fn lemma_same_values(x: Vec<Json>, y: Vec<Json>, n: int)
    requires
        0 <= n <= x@.len(),
        n <= y@.len(),
        forall|i: int| 0 <= i < n ==> encoding(#[trigger] x[i]) == encoding(y[i]),
    ensures
        encoded_values(x, n) == encoded_values(y, n),
    decreases n,
{
    if n > 0 {
        lemma_same_values(x, y, n - 1);
        assert(encoding(x[n - 1]) == encoding(y[n - 1]));
    }
}

/// A request is known by the text of its header without the white space around it, where that has 1
/// to 128 bytes and no control character.
pub proof fn law_requests_are_known_by_their_key(value: Seq<char>)
    ensures
        key_of(Some(Some(value))) is Ok <==> 0 < trimmed(value).len() && byte_length(trimmed(value))
            <= 128 && !has_control(trimmed(value)),
        key_of(Some(Some(value))) is Ok ==> key_of(Some(Some(value)))->Ok_0 == trimmed(value),
        key_of(Some(Some(value))) is Err ==> key_of(Some(Some(value))) == Err::<
            Seq<char>,
            Failure,
        >(bad("Invalid Idempotency-Key header"@)),
        key_of(None) == Err::<Seq<char>, Failure>(bad("Idempotency-Key header is required"@)),
        key_of(Some(None)) == Err::<Seq<char>, Failure>(bad("Invalid Idempotency-Key header"@)),
{
}

/// Requests of one user to one operation under different keys take their locks from different
/// messages.
pub proof fn law_lock_messages_differ(
    user: i32,
    operation: Seq<char>,
    key: Seq<char>,
    other: Seq<char>,
)
    ensures
        lock_message(user, operation, key) == lock_message(user, operation, other) ==> key == other,
{
    let head = encode_utf8("ctfzone/admin-create-idempotency-lock/v1"@) + big_endian(user)
        + encode_utf8(operation) + seq![0u8];
    if lock_message(user, operation, key) == lock_message(user, operation, other) {
        let first = lock_message(user, operation, key);
        assert(first.skip(head.len() as int) =~= encode_utf8(key));
        assert(lock_message(user, operation, other).skip(head.len() as int) =~= encode_utf8(other));
        crate::text::lemma_encode_injective(key, other);
    }
}

/// Nothing is written before the key was looked up, nothing where there is an answer to give again,
/// and nothing is committed before the answer is stored.
pub proof fn law_requests_are_answered_once(progress: CreateProgress)
    ensures
        stage_of(progress) == CreateStage::Insert ==> progress.replayed == Some(false)
            && !progress.inserted,
        stage_of(progress) == CreateStage::Commit ==> progress.inserted && progress.completed,
        progress.replayed == Some(true) ==> stage_of(progress) == CreateStage::Replay,
        progress.replayed is None ==> stage_of(progress) == CreateStage::LockAndReplay,
        progress.replayed == Some(false) && !progress.inserted ==> stage_of(progress)
            == CreateStage::Insert,
        progress.replayed == Some(false) && progress.inserted && !progress.completed ==> stage_of(
            progress,
        ) == CreateStage::Complete,
        progress.replayed == Some(false) && progress.inserted && progress.completed ==> stage_of(
            progress,
        ) == CreateStage::Commit,
{
}

} // verus!
