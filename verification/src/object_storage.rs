//! Signed addresses of stored objects.
use crate::config::ObjectStorageConfig;
use crate::crypto::{base64_encode, base64_text, hex_bytes, hex_decode};
use crate::error::text_of;
use crate::numbers::{integer_text, to_text};
use crate::text::{chars_of, concat, control, is_control};
use rusty_s3::{Bucket, Credentials, S3Action, UrlStyle};
use std::time::{Duration, SystemTime};
use vstd::prelude::*;
use vstd::utf8::encode_utf8;

verus! {

// ---------------------------------------------------------------------------
// Signing
// ---------------------------------------------------------------------------

/// A bucket behind an endpoint, and the credentials for it.
pub struct Target {
    pub endpoint: String,
    pub bucket: String,
    pub region: String,
    pub access_key: String,
    pub secret_key: String,
}

/// Endpoint, bucket, region, access key and secret key.
pub type TargetView = (Seq<char>, Seq<char>, Seq<char>, Seq<char>, Seq<char>);

impl View for Target {
    type V = TargetView;

    open spec fn view(&self) -> TargetView {
        (self.endpoint@, self.bucket@, self.region@, self.access_key@, self.secret_key@)
    }
}

pub type Pairs = Vec<(String, String)>;

pub open spec fn pair_views(pairs: Seq<(String, String)>) -> Seq<(Seq<char>, Seq<char>)> {
    pairs.map_values(|pair: (String, String)| (pair.0@, pair.1@))
}

/// The endpoint can serve a bucket of that name in that region.
pub uninterp spec fn bucket_usable(endpoint: Seq<char>, bucket: Seq<char>, region: Seq<char>) -> bool;

/// Calls `rusty_s3::Bucket::new`, with the bucket in the path. Whether it succeeds depends on the
/// arguments alone.
#[verifier::external_body]
pub(crate) fn check_bucket(endpoint: &str, bucket: &str, region: &str) -> (result: bool)
    ensures
        result == bucket_usable(endpoint@, bucket@, region@),
{
    match endpoint.parse() {
        Ok(url) => Bucket::new(url, UrlStyle::Path, bucket.to_owned(), region.to_owned()).is_ok(),
        Err(_) => false,
    }
}

/// The signed address for putting an object, with the headers that are sent with it.
pub uninterp spec fn signed_put(
    target: (Seq<char>, Seq<char>, Seq<char>, Seq<char>, Seq<char>),
    key: Seq<char>,
    headers: Seq<(Seq<char>, Seq<char>)>,
    ttl: u64,
    now: u64,
) -> Option<Seq<char>>;

/// Calls `rusty_s3::Bucket::put_object` and `sign_with_time`, with the time in seconds since 1970.
/// The address depends on the arguments alone; there is none for an endpoint that is no URL, a
/// bucket that cannot be used or a time beyond the calendar.
#[verifier::external_body]
pub(crate) fn sign_put(target: &Target, key: &str, headers: &Pairs, ttl: u64, now: u64) -> (result:
    Option<String>)
    ensures
        text_of(result) == signed_put(target@, key@, pair_views(headers@), ttl, now),
{
    let (name, region) = (target.bucket.clone(), target.region.clone());
    let bucket = Bucket::new(target.endpoint.parse().ok()?, UrlStyle::Path, name, region).ok()?;
    let credentials = Credentials::new(target.access_key.clone(), target.secret_key.clone());
    let mut action = bucket.put_object(Some(&credentials), key);
    for (name, value) in headers {
        action.headers_mut().insert(name.clone(), value.clone());
    }
    let time = SystemTime::UNIX_EPOCH.checked_add(Duration::from_secs(now))?;
    Some(action.sign_with_time(Duration::from_secs(ttl), &time.try_into().ok()?).into())
}

/// The signed address for getting an object, with the parameters that go into it.
pub uninterp spec fn signed_get(
    target: (Seq<char>, Seq<char>, Seq<char>, Seq<char>, Seq<char>),
    key: Seq<char>,
    query: Seq<(Seq<char>, Seq<char>)>,
    ttl: u64,
    now: u64,
) -> Option<Seq<char>>;

/// Calls `rusty_s3::Bucket::get_object` and `sign_with_time`, with the time in seconds since 1970.
/// The address depends on the arguments alone; there is none for an endpoint that is no URL, a
/// bucket that cannot be used or a time beyond the calendar.
#[verifier::external_body]
pub(crate) fn sign_get(target: &Target, key: &str, query: &Pairs, ttl: u64, now: u64) -> (result:
    Option<String>)
    ensures
        text_of(result) == signed_get(target@, key@, pair_views(query@), ttl, now),
{
    let (name, region) = (target.bucket.clone(), target.region.clone());
    let bucket = Bucket::new(target.endpoint.parse().ok()?, UrlStyle::Path, name, region).ok()?;
    let credentials = Credentials::new(target.access_key.clone(), target.secret_key.clone());
    let mut action = bucket.get_object(Some(&credentials), key);
    for (name, value) in query {
        action.query_mut().insert(name.clone(), value.clone());
    }
    let time = SystemTime::UNIX_EPOCH.checked_add(Duration::from_secs(now))?;
    Some(action.sign_with_time(Duration::from_secs(ttl), &time.try_into().ok()?).into())
}

/// The signed address for asking about an object.
pub uninterp spec fn signed_head(
    target: (Seq<char>, Seq<char>, Seq<char>, Seq<char>, Seq<char>),
    key: Seq<char>,
    ttl: u64,
    now: u64,
) -> Option<Seq<char>>;

/// Calls `rusty_s3::Bucket::head_object` and `sign_with_time`, with the time in seconds since 1970.
/// The address depends on the arguments alone; there is none for an endpoint that is no URL, a
/// bucket that cannot be used or a time beyond the calendar.
#[verifier::external_body]
pub(crate) fn sign_head(target: &Target, key: &str, ttl: u64, now: u64) -> (result: Option<String>)
    ensures
        text_of(result) == signed_head(target@, key@, ttl, now),
{
    let (name, region) = (target.bucket.clone(), target.region.clone());
    let bucket = Bucket::new(target.endpoint.parse().ok()?, UrlStyle::Path, name, region).ok()?;
    let credentials = Credentials::new(target.access_key.clone(), target.secret_key.clone());
    let time = SystemTime::UNIX_EPOCH.checked_add(Duration::from_secs(now))?;
    let action = bucket.head_object(Some(&credentials), key);
    Some(action.sign_with_time(Duration::from_secs(ttl), &time.try_into().ok()?).into())
}

/// The signed address for asking about the bucket.
pub uninterp spec fn signed_bucket_head(
    target: (Seq<char>, Seq<char>, Seq<char>, Seq<char>, Seq<char>),
    ttl: u64,
    now: u64,
) -> Option<Seq<char>>;

/// Calls `rusty_s3::Bucket::head_bucket` and `sign_with_time`, with the time in seconds since 1970.
/// The address depends on the arguments alone; there is none for an endpoint that is no URL, a
/// bucket that cannot be used or a time beyond the calendar.
#[verifier::external_body]
pub(crate) fn sign_bucket_head(target: &Target, ttl: u64, now: u64) -> (result: Option<String>)
    ensures
        text_of(result) == signed_bucket_head(target@, ttl, now),
{
    let (name, region) = (target.bucket.clone(), target.region.clone());
    let bucket = Bucket::new(target.endpoint.parse().ok()?, UrlStyle::Path, name, region).ok()?;
    let credentials = Credentials::new(target.access_key.clone(), target.secret_key.clone());
    let time = SystemTime::UNIX_EPOCH.checked_add(Duration::from_secs(now))?;
    let action = bucket.head_bucket(Some(&credentials));
    Some(action.sign_with_time(Duration::from_secs(ttl), &time.try_into().ok()?).into())
}

// ---------------------------------------------------------------------------
// File names in headers
// ---------------------------------------------------------------------------

/// The index of the first control character from `from` on, or the length.
pub open spec fn first_control(s: Seq<char>, from: int) -> int
    decreases s.len() - from,
{
    if from >= s.len() || is_control(s[from]) {
        from
    } else {
        first_control(s, from + 1)
    }
}

/// A visible ASCII character that may stand in a quoted header value; an underscore for any other.
pub open spec fn header_char(c: char) -> char {
    if '!' <= c <= '~' && c != '"' && c != '\\' && c != ';' {
        c
    } else {
        '_'
    }
}

pub open spec fn header_filename(filename: Seq<char>) -> Seq<char> {
    filename.take(first_control(filename, 0)).map_values(|c: char| header_char(c))
}

/// A file name as it may stand in a header: it ends before the first control character.
pub fn safe_header_filename(filename: &str) -> (result: String)
    ensures
        result@ == header_filename(filename@),
{
    let chars = chars_of(filename);
    let mut result = String::new();
    let mut i: usize = 0;
    while i < chars.len() && !control(chars[i])
        invariant
            i <= chars.len(),
            chars@ == filename@,
            first_control(filename@, 0) == first_control(filename@, i as int),
            result@ == filename@.take(i as int).map_values(|c: char| header_char(c)),
        decreases chars.len() - i,
    {
        let c = chars[i];
        let shown = if '!' <= c && c <= '~' && c != '"' && c != '\\' && c != ';' {
            c
        } else {
            '_'
        };
        result.push(shown);
        i += 1;
        assert(filename@.take(i as int).map_values(|c: char| header_char(c)) =~= filename@.take(
            i - 1,
        ).map_values(|c: char| header_char(c)).push(shown));
    }
    result
}

/// A file name in a header holds neither a control character nor anything that ends the quoted
/// value.
pub proof fn law_filenames_stay_in_their_quotes(filename: Seq<char>)
    ensures
        forall|i: int|
            0 <= i < header_filename(filename).len() ==> '!' <= #[trigger] header_filename(
                filename,
            )[i] <= '~' && header_filename(filename)[i] != '"' && header_filename(filename)[i]
                != '\\' && header_filename(filename)[i] != ';',
{
}

// ---------------------------------------------------------------------------
// The storage
// ---------------------------------------------------------------------------

/// How long an address for the site's own requests is valid, in seconds.
pub const INTERNAL_REQUEST_TTL: u64 = 30;

/// Where objects are stored, as the site and as browsers reach it.
pub struct ObjectStorage {
    pub internal: Target,
    pub public: Target,
    pub max_upload_bytes: i64,
    pub max_pending_bytes_per_principal: i64,
    pub max_pending_objects_per_principal: i64,
    pub max_retained_bytes_per_principal: i64,
    pub max_uploads_per_hour_per_principal: i64,
    pub presign_ttl_seconds: u64,
}

fn pair(name: &str, value: &str) -> (result: (String, String))
    ensures
        result.0@ == name@,
        result.1@ == value@,
{
    (name.to_owned(), value.to_owned())
}

/// The headers of an upload.
pub open spec fn put_headers(
    content_type: Seq<char>,
    content_length: i64,
    checksum: Seq<char>,
) -> Seq<(Seq<char>, Seq<char>)> {
    seq![
        ("content-type"@, content_type),
        ("content-length"@, integer_text(content_length as int)),
        ("x-amz-checksum-sha256"@, checksum),
    ]
}

/// The parameters of a download.
pub open spec fn get_query(filename: Seq<char>, content_type: Seq<char>) -> Seq<
    (Seq<char>, Seq<char>),
> {
    seq![
        (
            "response-content-disposition"@,
            "attachment; filename=\""@ + header_filename(filename) + "\""@,
        ),
        ("response-content-type"@, content_type),
        ("response-cache-control"@, "private, no-store"@),
    ]
}

/// The parameters of an image that is shown in a page.
pub open spec fn image_query(content_type: Seq<char>) -> Seq<(Seq<char>, Seq<char>)> {
    seq![
        ("response-content-disposition"@, "inline"@),
        ("response-content-type"@, content_type),
        ("response-cache-control"@, "public, max-age=31536000, immutable"@),
    ]
}

/// Where a copy is taken from.
pub open spec fn copy_source(bucket: Seq<char>, upload_key: Seq<char>) -> Seq<char> {
    "/"@ + bucket + "/"@ + upload_key
}

impl ObjectStorage {
    /// The storage that a configuration describes, where both endpoints can serve the bucket.
    pub fn new(config: &ObjectStorageConfig) -> (result: Result<ObjectStorage, String>)
        ensures
            match result {
                Ok(storage) => {
                    &&& bucket_usable(config.internal_url@, config.bucket@, config.region@)
                    &&& bucket_usable(config.public_url@, config.bucket@, config.region@)
                    &&& storage.internal@ == (
                        config.internal_url@,
                        config.bucket@,
                        config.region@,
                        config.access_key@,
                        config.secret_key@,
                    )
                    &&& storage.public@ == (
                        config.public_url@,
                        config.bucket@,
                        config.region@,
                        config.access_key@,
                        config.secret_key@,
                    )
                    &&& storage.max_upload_bytes == config.max_upload_bytes
                    &&& storage.max_pending_bytes_per_principal
                        == config.max_pending_bytes_per_principal
                    &&& storage.max_pending_objects_per_principal
                        == config.max_pending_objects_per_principal
                    &&& storage.max_retained_bytes_per_principal
                        == config.max_retained_bytes_per_principal
                    &&& storage.max_uploads_per_hour_per_principal
                        == config.max_uploads_per_hour_per_principal
                    &&& storage.presign_ttl_seconds == config.presign_ttl_seconds
                },
                Err(message) => if !bucket_usable(
                    config.internal_url@,
                    config.bucket@,
                    config.region@,
                ) {
                    message@ == "OBJECT_STORAGE_INTERNAL_URL cannot be used as an S3 endpoint"@
                } else {
                    !bucket_usable(config.public_url@, config.bucket@, config.region@) && message@
                        == "OBJECT_STORAGE_PUBLIC_URL cannot be used as an S3 endpoint"@
                },
            },
    {
        let bucket = config.bucket.as_str();
        let region = config.region.as_str();
        if !check_bucket(config.internal_url.as_str(), bucket, region) {
            return Err("OBJECT_STORAGE_INTERNAL_URL cannot be used as an S3 endpoint".to_owned());
        }
        if !check_bucket(config.public_url.as_str(), bucket, region) {
            return Err("OBJECT_STORAGE_PUBLIC_URL cannot be used as an S3 endpoint".to_owned());
        }
        let internal = Target {
            endpoint: config.internal_url.clone(),
            bucket: config.bucket.clone(),
            region: config.region.clone(),
            access_key: config.access_key.clone(),
            secret_key: config.secret_key.clone(),
        };
        let public = Target {
            endpoint: config.public_url.clone(),
            bucket: config.bucket.clone(),
            region: config.region.clone(),
            access_key: config.access_key.clone(),
            secret_key: config.secret_key.clone(),
        };
        Ok(
            ObjectStorage {
                internal,
                public,
                max_upload_bytes: config.max_upload_bytes,
                max_pending_bytes_per_principal: config.max_pending_bytes_per_principal,
                max_pending_objects_per_principal: config.max_pending_objects_per_principal,
                max_retained_bytes_per_principal: config.max_retained_bytes_per_principal,
                max_uploads_per_hour_per_principal: config.max_uploads_per_hour_per_principal,
                presign_ttl_seconds: config.presign_ttl_seconds,
            },
        )
    }

    pub fn bucket_name(&self) -> (result: &str)
        ensures
            result@ == self.public.bucket@,
    {
        self.public.bucket.as_str()
    }

    /// The address of an upload and the checksum that is sent with it.
    pub fn put_url(
        &self,
        upload_key: &str,
        content_type: &str,
        content_length: i64,
        checksum_hex: &str,
        ttl: u64,
        now: u64,
    ) -> (result: Result<(Option<String>, String), String>)
        ensures
            match (hex_bytes(encode_utf8(checksum_hex@)), result) {
                (Some(bytes), Ok((url, checksum))) => checksum@ == base64_text(bytes) && text_of(
                    url,
                ) == signed_put(
                    self.public@,
                    upload_key@,
                    put_headers(content_type@, content_length, checksum@),
                    ttl,
                    now,
                ),
                (None, Err(message)) => message@ == "upload checksum must be hexadecimal SHA-256"@,
                _ => false,
            },
    {
        let bytes = match hex_decode(checksum_hex) {
            Some(bytes) => bytes,
            None => return Err("upload checksum must be hexadecimal SHA-256".to_owned()),
        };
        let checksum = base64_encode(bytes.as_slice());
        let length = to_text(content_length);
        let mut headers: Pairs = Vec::new();
        headers.push(pair("content-type", content_type));
        headers.push(pair("content-length", length.as_str()));
        headers.push(pair("x-amz-checksum-sha256", checksum.as_str()));
        assert(pair_views(headers@) =~= put_headers(content_type@, content_length, checksum@));
        let url = sign_put(&self.public, upload_key, &headers, ttl, now);
        Ok((url, checksum))
    }

    /// The address of a download.
    pub fn get_url(&self, object_key: &str, filename: &str, content_type: &str, now: u64) -> (result:
        Option<String>)
        ensures
            text_of(result) == signed_get(
                self.public@,
                object_key@,
                get_query(filename@, content_type@),
                self.presign_ttl_seconds,
                now,
            ),
    {
        let name = safe_header_filename(filename);
        let start = concat("attachment; filename=\"", name.as_str());
        let disposition = concat(start.as_str(), "\"");
        let mut query: Pairs = Vec::new();
        query.push(pair("response-content-disposition", disposition.as_str()));
        query.push(pair("response-content-type", content_type));
        query.push(pair("response-cache-control", "private, no-store"));
        assert(pair_views(query@) =~= get_query(filename@, content_type@));
        sign_get(&self.public, object_key, &query, self.presign_ttl_seconds, now)
    }

    /// The address of an image that is shown in a page.
    pub fn inline_image_url(&self, object_key: &str, content_type: &str, now: u64) -> (result:
        Option<String>)
        ensures
            text_of(result) == signed_get(
                self.public@,
                object_key@,
                image_query(content_type@),
                self.presign_ttl_seconds,
                now,
            ),
    {
        let mut query: Pairs = Vec::new();
        query.push(pair("response-content-disposition", "inline"));
        query.push(pair("response-content-type", content_type));
        query.push(pair("response-cache-control", "public, max-age=31536000, immutable"));
        assert(pair_views(query@) =~= image_query(content_type@));
        sign_get(&self.public, object_key, &query, self.presign_ttl_seconds, now)
    }

    pub fn internal_head_url(&self, object_key: &str, now: u64) -> (result: Option<String>)
        ensures
            text_of(result) == signed_head(self.internal@, object_key@, INTERNAL_REQUEST_TTL, now),
    {
        sign_head(&self.internal, object_key, INTERNAL_REQUEST_TTL, now)
    }

    pub fn internal_get_url(&self, object_key: &str, now: u64) -> (result: Option<String>)
        ensures
            text_of(result) == signed_get(
                self.internal@,
                object_key@,
                Seq::empty(),
                INTERNAL_REQUEST_TTL,
                now,
            ),
    {
        let query: Pairs = Vec::new();
        assert(pair_views(query@) =~= Seq::<(Seq<char>, Seq<char>)>::empty());
        sign_get(&self.internal, object_key, &query, INTERNAL_REQUEST_TTL, now)
    }

    /// The address for copying an upload to its place, and the source that is sent with it.
    pub fn internal_copy_request(&self, upload_key: &str, object_key: &str, now: u64) -> (result: (
        Option<String>,
        String,
    ))
        ensures
            result.1@ == copy_source(self.internal.bucket@, upload_key@),
            text_of(result.0) == signed_put(
                self.internal@,
                object_key@,
                seq![("x-amz-copy-source"@, result.1@)],
                INTERNAL_REQUEST_TTL,
                now,
            ),
    {
        let start = concat("/", self.internal.bucket.as_str());
        let middle = concat(start.as_str(), "/");
        let source = concat(middle.as_str(), upload_key);
        let mut headers: Pairs = Vec::new();
        headers.push(pair("x-amz-copy-source", source.as_str()));
        assert(pair_views(headers@) =~= seq![("x-amz-copy-source"@, source@)]);
        let url = sign_put(&self.internal, object_key, &headers, INTERNAL_REQUEST_TTL, now);
        (url, source)
    }

    pub fn internal_bucket_head_url(&self, now: u64) -> (result: Option<String>)
        ensures
            text_of(result) == signed_bucket_head(self.internal@, INTERNAL_REQUEST_TTL, now),
    {
        sign_bucket_head(&self.internal, INTERNAL_REQUEST_TTL, now)
    }
}

/// A file name in a header ends before its first control character; every plain character keeps its
/// place.
pub proof fn law_filenames_keep_their_letters(filename: Seq<char>, place: int, i: int)
    requires
        0 <= place <= filename.len(),
        forall|k: int| 0 <= k < place ==> !is_control(#[trigger] filename[k]),
        place < filename.len() ==> is_control(filename[place]),
    ensures
        header_filename(filename).len() == place,
        0 <= i < place && ('a' <= filename[i] <= 'z' || 'A' <= filename[i] <= 'Z' || '0'
            <= filename[i] <= '9' || filename[i] == '.' || filename[i] == '-' || filename[i] == '_')
            ==> header_filename(filename)[i] == filename[i],
        0 <= i < place && (filename[i] == '"' || filename[i] == '\\' || filename[i] == ';'
            || filename[i] == ' ' || filename[i] > '~') ==> header_filename(filename)[i] == '_',
{
    lemma_first_control(filename, 0, place);
}

proof fn lemma_first_control(s: Seq<char>, from: int, place: int)
    requires
        0 <= from <= place <= s.len(),
        forall|k: int| from <= k < place ==> !is_control(#[trigger] s[k]),
        place < s.len() ==> is_control(s[place]),
    ensures
        first_control(s, from) == place,
    decreases place - from,
{
    if from < place {
        assert(!is_control(s[from]));
        lemma_first_control(s, from + 1, place);
    }
}

/// An upload is signed with its type, its length and its checksum, a download with its name, its type
/// and the word that it is not kept, an image with the word that it may be, and a copy with the
/// bucket and the key that it is taken from.
pub proof fn law_requests_are_signed_with_their_terms(
    content_type: Seq<char>,
    length: i64,
    checksum: Seq<char>,
    filename: Seq<char>,
    bucket: Seq<char>,
    key: Seq<char>,
)
    ensures
        put_headers(content_type, length, checksum).contains(("content-type"@, content_type)),
        put_headers(content_type, length, checksum).contains(
            ("content-length"@, integer_text(length as int)),
        ),
        put_headers(content_type, length, checksum).contains(("x-amz-checksum-sha256"@, checksum)),
        put_headers(content_type, length, checksum).len() == 3,
        get_query(filename, content_type).contains(
            (
                "response-content-disposition"@,
                "attachment; filename=\""@ + header_filename(filename) + "\""@,
            ),
        ),
        get_query(filename, content_type).contains(("response-content-type"@, content_type)),
        get_query(filename, content_type).contains(
            ("response-cache-control"@, "private, no-store"@),
        ),
        get_query(filename, content_type).len() == 3,
        image_query(content_type).contains(("response-content-disposition"@, "inline"@)),
        image_query(content_type).contains(("response-content-type"@, content_type)),
        image_query(content_type).contains(
            ("response-cache-control"@, "public, max-age=31536000, immutable"@),
        ),
        image_query(content_type).len() == 3,
        copy_source(bucket, key) == "/"@ + bucket + "/"@ + key,
{
    let put = put_headers(content_type, length, checksum);
    assert(put[0] == ("content-type"@, content_type));
    assert(put[1] == ("content-length"@, integer_text(length as int)));
    assert(put[2] == ("x-amz-checksum-sha256"@, checksum));
    let get = get_query(filename, content_type);
    assert(get[0].0 == "response-content-disposition"@);
    assert(get[1] == ("response-content-type"@, content_type));
    assert(get[2] == ("response-cache-control"@, "private, no-store"@));
    let image = image_query(content_type);
    assert(image[0] == ("response-content-disposition"@, "inline"@));
    assert(image[1] == ("response-content-type"@, content_type));
    assert(image[2] == ("response-cache-control"@, "public, max-age=31536000, immutable"@));
}

} // verus!
