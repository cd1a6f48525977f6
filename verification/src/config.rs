//! The configuration that the process is started with.
use crate::numbers::{bounded_value, natural_value, parse_i64, parse_u64};
use crate::register::{entry, form_entry, Form};
use crate::text::{
    alphanumeric, chars_of, concat, contains_text, digit, has_substring, is_alphanumeric, is_digit,
    is_lower, lower, same, trim, trimmed,
};
use crate::urls::{parse_url, url_parts, UrlParts, UrlView};
use vstd::prelude::*;

verus! {

/// A result whose failure is a message.
pub open spec fn told<T>(result: Result<T, String>) -> Result<T, Seq<char>> {
    match result {
        Ok(value) => Ok(value),
        Err(message) => Err(message@),
    }
}

pub open spec fn told_text(result: Result<String, String>) -> Result<Seq<char>, Seq<char>> {
    match result {
        Ok(value) => Ok(value@),
        Err(message) => Err(message@),
    }
}

/// A secret: it has to be given, and not to be blank.
pub open spec fn secret_of(env: Seq<(String, String)>, name: Seq<char>) -> Result<
    Seq<char>,
    Seq<char>,
> {
    match entry(env, name) {
        None => Err(name + " is required"@),
        Some(value) => if trimmed(value).len() == 0 {
            Err(name + " must not be empty"@)
        } else {
            Ok(value)
        },
    }
}

pub fn required_secret(env: &Form, name: &str) -> (result: Result<String, String>)
    ensures
        told_text(result) == secret_of(env@, name@),
{
    match form_entry(env, name) {
        None => Err(concat(name, " is required")),
        Some(value) => {
            let content = trim(value);
            if content.as_str().is_empty() {
                Err(concat(name, " must not be empty"))
            } else {
                Ok(value.to_owned())
            }
        },
    }
}

/// An HTTP or HTTPS origin: nothing but a scheme, a host and a port.
pub open spec fn is_origin(url: UrlView) -> bool {
    &&& url.0 == "http"@ || url.0 == "https"@
    &&& url.1
    &&& url.2.len() == 0
    &&& !url.3
    &&& url.4.len() == 0 || url.4 == "/"@
    &&& !url.5
    &&& !url.6
}

pub fn origin_ok(url: &UrlParts) -> (result: bool)
    ensures
        result == is_origin(url@),
{
    (same(url.scheme.as_str(), "http") || same(url.scheme.as_str(), "https")) && url.has_host
        && url.username.as_str().is_empty() && !url.has_password && (url.path.as_str().is_empty()
        || same(url.path.as_str(), "/")) && !url.has_query && !url.has_fragment
}

/// The origin under a name, in its normal form.
pub open spec fn endpoint_of(env: Seq<(String, String)>, name: Seq<char>) -> Result<
    Seq<char>,
    Seq<char>,
> {
    match entry(env, name) {
        None => Err(name + " is required"@),
        Some(value) => match url_parts(value) {
            None => Err(name + " must be a valid absolute URL"@),
            Some(url) => if is_origin(url) {
                Ok(url.7)
            } else {
                Err(
                    name
                        + " must be an HTTP(S) origin without credentials, path, query, or fragment"@,
                )
            },
        },
    }
}

pub fn endpoint(env: &Form, name: &str) -> (result: Result<String, String>)
    ensures
        told_text(result) == endpoint_of(env@, name@),
{
    let value = match form_entry(env, name) {
        None => return Err(concat(name, " is required")),
        Some(value) => value,
    };
    match parse_url(value) {
        None => Err(concat(name, " must be a valid absolute URL")),
        Some(url) => if origin_ok(&url) {
            Ok(url.text)
        } else {
            Err(
                concat(
                    name,
                    " must be an HTTP(S) origin without credentials, path, query, or fragment",
                ),
            )
        },
    }
}

/// A bucket name: 3 to 63 lower-case letters, digits, dots and hyphens, with a letter or digit at
/// both ends and no two dots in a row.
pub open spec fn is_bucket(value: Seq<char>) -> bool {
    &&& 3 <= value.len() <= 63
    &&& forall|i: int| 0 <= i < value.len() ==> bucket_char(#[trigger] value[i])
    &&& is_alphanumeric(value[0])
    &&& is_alphanumeric(value.last())
    &&& !has_substring(value, ".."@)
}

pub open spec fn bucket_char(c: char) -> bool {
    is_lower(c) || is_digit(c) || c == '.' || c == '-'
}

fn bucket_ok(value: &str) -> (result: bool)
    ensures
        result == is_bucket(value@),
{
    let chars = chars_of(value);
    if chars.len() < 3 || chars.len() > 63 {
        return false;
    }
    let mut i: usize = 0;
    while i < chars.len()
        invariant
            i <= chars.len(),
            chars@ == value@,
            forall|j: int| 0 <= j < i ==> bucket_char(#[trigger] value@[j]),
        decreases chars.len() - i,
    {
        let c = chars[i];
        if !(lower(c) || digit(c) || c == '.' || c == '-') {
            assert(!bucket_char(value@[i as int]));
            return false;
        }
        i += 1;
    }
    alphanumeric(chars[0]) && alphanumeric(chars[chars.len() - 1]) && !contains_text(value, "..")
}

pub fn validate_bucket(value: &str) -> (result: Result<(), String>)
    ensures
        told(result) == (if is_bucket(value@) {
            Ok::<(), Seq<char>>(())
        } else {
            Err("OBJECT_STORAGE_BUCKET is not a valid S3 bucket name"@)
        }),
{
    if bucket_ok(value) {
        Ok(())
    } else {
        Err("OBJECT_STORAGE_BUCKET is not a valid S3 bucket name".to_owned())
    }
}

/// A number under a name: the default where nothing is given.
pub open spec fn number_of(
    env: Seq<(String, String)>,
    name: Seq<char>,
    default: i64,
    problem: Seq<char>,
) -> Result<i64, Seq<char>> {
    match entry(env, name) {
        None => Ok(default),
        Some(text) => match bounded_value(text, i64::MIN as int, i64::MAX as int) {
            Some(value) => Ok(value as i64),
            None => Err(name + problem),
        },
    }
}

fn number(env: &Form, name: &str, default: i64, problem: &str) -> (result: Result<i64, String>)
    ensures
        told(result) == number_of(env@, name@, default, problem@),
{
    match form_entry(env, name) {
        None => Ok(default),
        Some(text) => match parse_i64(text) {
            Some(value) => Ok(value),
            None => Err(concat(name, problem)),
        },
    }
}

pub open spec fn positive_of(env: Seq<(String, String)>, name: Seq<char>, default: i64) -> Result<
    i64,
    Seq<char>,
> {
    match number_of(env, name, default, " must be a positive integer"@) {
        Ok(value) if value <= 0 => Err(name + " must be a positive integer"@),
        other => other,
    }
}

pub fn positive_i64_env(env: &Form, name: &str, default: i64) -> (result: Result<i64, String>)
    ensures
        told(result) == positive_of(env@, name@, default),
{
    match number(env, name, default, " must be a positive integer") {
        Ok(value) => if value <= 0 {
            Err(concat(name, " must be a positive integer"))
        } else {
            Ok(value)
        },
        Err(message) => Err(message),
    }
}

/// A number under a name, within bounds.
pub open spec fn ranged_of(
    env: Seq<(String, String)>,
    name: Seq<char>,
    default: i64,
    min: i64,
    max: i64,
    problem: Seq<char>,
) -> Result<i64, Seq<char>> {
    match number_of(env, name, default, " must be an integer"@) {
        Ok(value) if !(min <= value <= max) => Err(name + problem),
        other => other,
    }
}

fn ranged(env: &Form, name: &str, default: i64, min: i64, max: i64, problem: &str) -> (result: Result<
    i64,
    String,
>)
    ensures
        told(result) == ranged_of(env@, name@, default, min, max, problem@),
{
    match number(env, name, default, " must be an integer") {
        Ok(value) => if min <= value && value <= max {
            Ok(value)
        } else {
            Err(concat(name, problem))
        },
        Err(message) => Err(message),
    }
}

/// A natural number under a name: the default where nothing is given.
pub open spec fn natural_of(
    env: Seq<(String, String)>,
    name: Seq<char>,
    default: u64,
    max: u64,
    problem: Seq<char>,
) -> Result<u64, Seq<char>> {
    match entry(env, name) {
        None => Ok(default),
        Some(text) => match natural_value(text, max as int) {
            Some(value) => Ok(value as u64),
            None => Err(name + problem),
        },
    }
}

fn natural(env: &Form, name: &str, default: u64, max: u64, problem: &str) -> (result: Result<
    u64,
    String,
>)
    ensures
        told(result) == natural_of(env@, name@, default, max, problem@),
{
    match form_entry(env, name) {
        None => Ok(default),
        Some(text) => match parse_u64(text) {
            Some(value) => if value <= max {
                Ok(value)
            } else {
                Err(concat(name, problem))
            },
            None => Err(concat(name, problem)),
        },
    }
}

/// A text under a name, or the default.
pub open spec fn text_or(env: Seq<(String, String)>, name: Seq<char>, default: Seq<char>) -> Seq<
    char,
> {
    match entry(env, name) {
        Some(text) => text,
        None => default,
    }
}

fn text_or_default(env: &Form, name: &str, default: &str) -> (result: String)
    ensures
        result@ == text_or(env@, name@, default@),
{
    match form_entry(env, name) {
        Some(text) => text.to_owned(),
        None => default.to_owned(),
    }
}

/// Where objects are stored, and how much of them.
pub struct ObjectStorageConfig {
    pub access_key: String,
    pub bucket: String,
    pub internal_url: String,
    pub max_upload_bytes: i64,
    pub max_pending_bytes_per_principal: i64,
    pub max_pending_objects_per_principal: i64,
    pub max_retained_bytes_per_principal: i64,
    pub max_uploads_per_hour_per_principal: i64,
    pub presign_ttl_seconds: u64,
    pub public_url: String,
    pub region: String,
    pub secret_key: String,
}

/// The first of two problems, in the order in which they are looked for.
pub open spec fn earlier(first: Option<Seq<char>>, second: Option<Seq<char>>) -> Option<
    Seq<char>,
> {
    if first is Some {
        first
    } else {
        second
    }
}

pub open spec fn problem<T>(result: Result<T, Seq<char>>) -> Option<Seq<char>> {
    match result {
        Ok(_) => None,
        Err(message) => Some(message),
    }
}

/// The limits on what one principal stores, in the order in which they are read.
pub open spec fn storage_limits(env: Seq<(String, String)>) -> (
    Result<i64, Seq<char>>,
    Result<i64, Seq<char>>,
    Result<i64, Seq<char>>,
    Result<i64, Seq<char>>,
) {
    (
        positive_of(env, "OBJECT_STORAGE_MAX_PENDING_OBJECTS_PER_PRINCIPAL"@, 8),
        positive_of(env, "OBJECT_STORAGE_MAX_PENDING_BYTES_PER_PRINCIPAL"@, 1_073_741_824),
        positive_of(env, "OBJECT_STORAGE_MAX_RETAINED_BYTES_PER_PRINCIPAL"@, 10_737_418_240),
        positive_of(env, "OBJECT_STORAGE_MAX_UPLOADS_PER_HOUR_PER_PRINCIPAL"@, 60),
    )
}

/// How long an address is valid: 60 to 3600 seconds.
pub open spec fn presign_ttl_of(env: Seq<(String, String)>) -> Result<u64, Seq<char>> {
    match natural_of(
        env,
        "PRESIGNED_URL_TTL_SECONDS"@,
        900,
        u64::MAX,
        " must be an integer"@,
    ) {
        Ok(ttl) if !(60 <= ttl <= 3600) => Err(
            "PRESIGNED_URL_TTL_SECONDS must be between 60 and 3600"@,
        ),
        other => other,
    }
}

pub open spec fn max_upload_of(env: Seq<(String, String)>) -> Result<i64, Seq<char>> {
    ranged_of(
        env,
        "OBJECT_STORAGE_MAX_UPLOAD_BYTES"@,
        536_870_912,
        1,
        536_870_912,
        " must be between 1 byte and 512 MiB"@,
    )
}

pub open spec fn bucket_of(env: Seq<(String, String)>) -> Seq<char> {
    text_or(env, "OBJECT_STORAGE_BUCKET"@, "ctfzone"@)
}

pub open spec fn region_of(env: Seq<(String, String)>) -> Seq<char> {
    text_or(env, "OBJECT_STORAGE_REGION"@, "us-east-1"@)
}

pub open spec fn bucket_problem(env: Seq<(String, String)>) -> Option<Seq<char>> {
    if is_bucket(bucket_of(env)) {
        None
    } else {
        Some("OBJECT_STORAGE_BUCKET is not a valid S3 bucket name"@)
    }
}

pub open spec fn region_problem(env: Seq<(String, String)>) -> Option<Seq<char>> {
    if trimmed(region_of(env)).len() > 0 {
        None
    } else {
        Some("OBJECT_STORAGE_REGION must not be empty"@)
    }
}

/// What is wrong with the configuration of the storage.
pub open spec fn storage_problem(env: Seq<(String, String)>) -> Option<Seq<char>> {
    earlier(
        problem(secret_of(env, "OBJECT_STORAGE_ACCESS_KEY"@)),
        earlier(
            problem(secret_of(env, "OBJECT_STORAGE_SECRET_KEY"@)),
            earlier(
                bucket_problem(env),
                earlier(
                    region_problem(env),
                    earlier(
                        problem(endpoint_of(env, "OBJECT_STORAGE_INTERNAL_URL"@)),
                        earlier(
                            problem(endpoint_of(env, "OBJECT_STORAGE_PUBLIC_URL"@)),
                            earlier(
                                problem(presign_ttl_of(env)),
                                earlier(
                                    problem(max_upload_of(env)),
                                    earlier(
                                        problem(storage_limits(env).0),
                                        earlier(
                                            problem(storage_limits(env).1),
                                            earlier(
                                                problem(storage_limits(env).2),
                                                problem(storage_limits(env).3),
                                            ),
                                        ),
                                    ),
                                ),
                            ),
                        ),
                    ),
                ),
            ),
        ),
    )
}

pub open spec fn storage_matches(config: ObjectStorageConfig, env: Seq<(String, String)>) -> bool {
    &&& secret_of(env, "OBJECT_STORAGE_ACCESS_KEY"@) == Ok::<Seq<char>, Seq<char>>(
        config.access_key@,
    )
    &&& secret_of(env, "OBJECT_STORAGE_SECRET_KEY"@) == Ok::<Seq<char>, Seq<char>>(
        config.secret_key@,
    )
    &&& config.bucket@ == bucket_of(env)
    &&& config.region@ == region_of(env)
    &&& endpoint_of(env, "OBJECT_STORAGE_INTERNAL_URL"@) == Ok::<Seq<char>, Seq<char>>(
        config.internal_url@,
    )
    &&& endpoint_of(env, "OBJECT_STORAGE_PUBLIC_URL"@) == Ok::<Seq<char>, Seq<char>>(
        config.public_url@,
    )
    &&& presign_ttl_of(env) == Ok::<u64, Seq<char>>(config.presign_ttl_seconds)
    &&& max_upload_of(env) == Ok::<i64, Seq<char>>(config.max_upload_bytes)
    &&& storage_limits(env).0 == Ok::<i64, Seq<char>>(config.max_pending_objects_per_principal)
    &&& storage_limits(env).1 == Ok::<i64, Seq<char>>(config.max_pending_bytes_per_principal)
    &&& storage_limits(env).2 == Ok::<i64, Seq<char>>(config.max_retained_bytes_per_principal)
    &&& storage_limits(env).3 == Ok::<i64, Seq<char>>(config.max_uploads_per_hour_per_principal)
}

impl ObjectStorageConfig {
    /// Reads the configuration of the storage from the variables of the process.
    pub fn from_env(env: &Form) -> (result: Result<ObjectStorageConfig, String>)
        ensures
            match result {
                Ok(config) => storage_problem(env@) is None && storage_matches(config, env@),
                Err(message) => storage_problem(env@) == Some(message@),
            },
    {
        let access_key = match required_secret(env, "OBJECT_STORAGE_ACCESS_KEY") {
            Ok(value) => value,
            Err(message) => return Err(message),
        };
        let secret_key = match required_secret(env, "OBJECT_STORAGE_SECRET_KEY") {
            Ok(value) => value,
            Err(message) => return Err(message),
        };
        let bucket = text_or_default(env, "OBJECT_STORAGE_BUCKET", "ctfzone");
        if let Err(message) = validate_bucket(bucket.as_str()) {
            return Err(message);
        }
        let region = text_or_default(env, "OBJECT_STORAGE_REGION", "us-east-1");
        let region_content = trim(region.as_str());
        if region_content.as_str().is_empty() {
            return Err("OBJECT_STORAGE_REGION must not be empty".to_owned());
        }
        let internal_url = match endpoint(env, "OBJECT_STORAGE_INTERNAL_URL") {
            Ok(value) => value,
            Err(message) => return Err(message),
        };
        let public_url = match endpoint(env, "OBJECT_STORAGE_PUBLIC_URL") {
            Ok(value) => value,
            Err(message) => return Err(message),
        };
        let presign_ttl_seconds: u64 = match natural(
            env,
            "PRESIGNED_URL_TTL_SECONDS",
            900,
            u64::MAX,
            " must be an integer",
        ) {
            Ok(value) => value,
            Err(message) => return Err(message),
        };
        if presign_ttl_seconds < 60 || presign_ttl_seconds > 3600 {
            return Err("PRESIGNED_URL_TTL_SECONDS must be between 60 and 3600".to_owned());
        }
        let max_upload_bytes: i64 = match ranged(
            env,
            "OBJECT_STORAGE_MAX_UPLOAD_BYTES",
            536_870_912,
            1,
            536_870_912,
            " must be between 1 byte and 512 MiB",
        ) {
            Ok(value) => value,
            Err(message) => return Err(message),
        };
        let max_pending_objects_per_principal: i64 = match positive_i64_env(
            env,
            "OBJECT_STORAGE_MAX_PENDING_OBJECTS_PER_PRINCIPAL",
            8,
        ) {
            Ok(value) => value,
            Err(message) => return Err(message),
        };
        let max_pending_bytes_per_principal: i64 = match positive_i64_env(
            env,
            "OBJECT_STORAGE_MAX_PENDING_BYTES_PER_PRINCIPAL",
            1_073_741_824,
        ) {
            Ok(value) => value,
            Err(message) => return Err(message),
        };
        let max_retained_bytes_per_principal: i64 = match positive_i64_env(
            env,
            "OBJECT_STORAGE_MAX_RETAINED_BYTES_PER_PRINCIPAL",
            10_737_418_240,
        ) {
            Ok(value) => value,
            Err(message) => return Err(message),
        };
        let max_uploads_per_hour_per_principal: i64 = match positive_i64_env(
            env,
            "OBJECT_STORAGE_MAX_UPLOADS_PER_HOUR_PER_PRINCIPAL",
            60,
        ) {
            Ok(value) => value,
            Err(message) => return Err(message),
        };
        Ok(
            ObjectStorageConfig {
                access_key,
                bucket,
                internal_url,
                max_upload_bytes,
                max_pending_bytes_per_principal,
                max_pending_objects_per_principal,
                max_retained_bytes_per_principal,
                max_uploads_per_hour_per_principal,
                presign_ttl_seconds,
                public_url,
                region,
                secret_key,
            },
        )
    }
}

/// The configuration of the process.
pub struct Config {
    pub api_signing_key: String,
    pub backend_service_token: String,
    /// The socket address to listen on, as text.
    pub bind_address: String,
    pub database_url: String,
    pub database_max_connections: u32,
    pub object_storage: ObjectStorageConfig,
    pub setup_token: String,
    pub site_url: String,
    pub email_verification_ttl_seconds: i64,
    pub session_lifetime_seconds: i64,
}

pub open spec fn bind_address_of(env: Seq<(String, String)>) -> Seq<char> {
    text_or(env, "CTFZONE_API_BIND"@, "0.0.0.0:8080"@)
}

/// The address to listen on, before it has been checked to be one.
pub fn bind_address(env: &Form) -> (result: String)
    ensures
        result@ == bind_address_of(env@),
{
    text_or_default(env, "CTFZONE_API_BIND", "0.0.0.0:8080")
}

pub open spec fn connections_of(env: Seq<(String, String)>) -> Result<u64, Seq<char>> {
    natural_of(
        env,
        "DATABASE_MAX_CONNECTIONS"@,
        10,
        u32::MAX as u64,
        " must be a positive integer"@,
    )
}

pub open spec fn verification_ttl_of(env: Seq<(String, String)>) -> Result<i64, Seq<char>> {
    ranged_of(
        env,
        "EMAIL_VERIFICATION_TTL_SECONDS"@,
        1800,
        300,
        86_400,
        " must be between 300 and 86400 seconds"@,
    )
}

pub open spec fn session_lifetime_of(env: Seq<(String, String)>) -> Result<i64, Seq<char>> {
    positive_of(env, "SESSION_LIFETIME_SECONDS"@, 604_800)
}

/// What is wrong with the configuration; `bind_valid` says whether the address to listen on is a
/// socket address.
pub open spec fn config_problem(env: Seq<(String, String)>, bind_valid: bool) -> Option<Seq<char>> {
    earlier(
        problem(secret_of(env, "BACKEND_SERVICE_TOKEN"@)),
        earlier(
            problem(secret_of(env, "API_SIGNING_KEY"@)),
            earlier(
                bind_problem(bind_valid),
                earlier(
                    database_problem(env),
                    earlier(
                        problem(connections_of(env)),
                        earlier(
                            problem(secret_of(env, "SETUP_TOKEN"@)),
                            earlier(
                                problem(endpoint_of(env, "CADDY_SITE_ADDRESS"@)),
                                earlier(
                                    problem(verification_ttl_of(env)),
                                    earlier(
                                        problem(session_lifetime_of(env)),
                                        storage_problem(env),
                                    ),
                                ),
                            ),
                        ),
                    ),
                ),
            ),
        ),
    )
}

pub open spec fn bind_problem(bind_valid: bool) -> Option<Seq<char>> {
    if bind_valid {
        None
    } else {
        Some("CTFZONE_API_BIND must be a valid socket address"@)
    }
}

pub open spec fn database_problem(env: Seq<(String, String)>) -> Option<Seq<char>> {
    if entry(env, "DATABASE_URL"@) is Some {
        None
    } else {
        Some("DATABASE_URL is required for the CTFZone API"@)
    }
}

pub open spec fn config_matches(config: Config, env: Seq<(String, String)>) -> bool {
    &&& secret_of(env, "BACKEND_SERVICE_TOKEN"@) == Ok::<Seq<char>, Seq<char>>(
        config.backend_service_token@,
    )
    &&& secret_of(env, "API_SIGNING_KEY"@) == Ok::<Seq<char>, Seq<char>>(config.api_signing_key@)
    &&& config.bind_address@ == bind_address_of(env)
    &&& entry(env, "DATABASE_URL"@) == Some(config.database_url@)
    &&& connections_of(env) == Ok::<u64, Seq<char>>(config.database_max_connections as u64)
    &&& secret_of(env, "SETUP_TOKEN"@) == Ok::<Seq<char>, Seq<char>>(config.setup_token@)
    &&& endpoint_of(env, "CADDY_SITE_ADDRESS"@) == Ok::<Seq<char>, Seq<char>>(config.site_url@)
    &&& verification_ttl_of(env) == Ok::<i64, Seq<char>>(config.email_verification_ttl_seconds)
    &&& session_lifetime_of(env) == Ok::<i64, Seq<char>>(config.session_lifetime_seconds)
    &&& storage_matches(config.object_storage, env)
}

impl Config {
    /// Reads the configuration from the variables of the process; `bind_valid` says whether the
    /// address to listen on is a socket address.
    pub fn from_env(env: &Form, bind_valid: bool) -> (result: Result<Config, String>)
        ensures
            match result {
                Ok(config) => config_problem(env@, bind_valid) is None && config_matches(
                    config,
                    env@,
                ),
                Err(message) => config_problem(env@, bind_valid) == Some(message@),
            },
    {
        let backend_service_token = match required_secret(env, "BACKEND_SERVICE_TOKEN") {
            Ok(value) => value,
            Err(message) => return Err(message),
        };
        let api_signing_key = match required_secret(env, "API_SIGNING_KEY") {
            Ok(value) => value,
            Err(message) => return Err(message),
        };
        if !bind_valid {
            return Err("CTFZONE_API_BIND must be a valid socket address".to_owned());
        }
        let database_url = match form_entry(env, "DATABASE_URL") {
            Some(value) => value.to_owned(),
            None => return Err("DATABASE_URL is required for the CTFZone API".to_owned()),
        };
        let connections: u64 = match natural(
            env,
            "DATABASE_MAX_CONNECTIONS",
            10,
            u32::MAX as u64,
            " must be a positive integer",
        ) {
            Ok(value) => value,
            Err(message) => return Err(message),
        };
        proof {
            assert(connections <= u32::MAX);
        }
        let setup_token = match required_secret(env, "SETUP_TOKEN") {
            Ok(value) => value,
            Err(message) => return Err(message),
        };
        let site_url = match endpoint(env, "CADDY_SITE_ADDRESS") {
            Ok(value) => value,
            Err(message) => return Err(message),
        };
        let email_verification_ttl_seconds: i64 = match ranged(
            env,
            "EMAIL_VERIFICATION_TTL_SECONDS",
            1800,
            300,
            86_400,
            " must be between 300 and 86400 seconds",
        ) {
            Ok(value) => value,
            Err(message) => return Err(message),
        };
        let session_lifetime_seconds: i64 = match positive_i64_env(
            env,
            "SESSION_LIFETIME_SECONDS",
            604_800,
        ) {
            Ok(value) => value,
            Err(message) => return Err(message),
        };
        let object_storage = match ObjectStorageConfig::from_env(env) {
            Ok(value) => value,
            Err(message) => return Err(message),
        };
        Ok(
            Config {
                api_signing_key,
                backend_service_token,
                bind_address: bind_address(env),
                database_url,
                database_max_connections: connections as u32,
                object_storage,
                setup_token,
                site_url,
                email_verification_ttl_seconds,
                session_lifetime_seconds,
            },
        )
    }
}

/// A configuration that was read keeps to its bounds.
pub proof fn law_limits_are_in_range(config: Config, env: Seq<(String, String)>)
    requires
        config_matches(config, env),
    ensures
        300 <= config.email_verification_ttl_seconds <= 86_400,
        config.session_lifetime_seconds > 0,
        60 <= config.object_storage.presign_ttl_seconds <= 3600,
        1 <= config.object_storage.max_upload_bytes <= 536_870_912,
        config.object_storage.max_pending_objects_per_principal > 0,
        config.object_storage.max_pending_bytes_per_principal > 0,
        config.object_storage.max_retained_bytes_per_principal > 0,
        config.object_storage.max_uploads_per_hour_per_principal > 0,
{
}


/// The addresses of the site and of the storage are origins: a scheme and a host, without
/// credentials, a path, a query or a fragment.
pub proof fn law_addresses_are_origins(config: Config, env: Seq<(String, String)>, name: Seq<char>)
    requires
        config_matches(config, env),
        name == "CADDY_SITE_ADDRESS"@ || name == "OBJECT_STORAGE_INTERNAL_URL"@ || name
            == "OBJECT_STORAGE_PUBLIC_URL"@,
    ensures
        entry(env, name) is Some,
        url_parts(entry(env, name)->Some_0) is Some,
        is_origin(url_parts(entry(env, name)->Some_0)->Some_0),
{
}

/// A secret is taken as it is given, and refused where it is missing or blank.
pub proof fn law_secrets_are_required(env: Seq<(String, String)>, name: Seq<char>)
    ensures
        ({
            let given = entry(env, name);
            let result = secret_of(env, name);
            &&& result is Ok <==> given is Some && trimmed(given->Some_0).len() > 0
            &&& result is Ok ==> result->Ok_0 == given->Some_0
            &&& given is None ==> result == Err::<Seq<char>, Seq<char>>(name + " is required"@)
            &&& given is Some && result is Err ==> result == Err::<Seq<char>, Seq<char>>(
                name + " must not be empty"@,
            )
        }),
{
}

/// A number is read where it is given, is the default where it is not, and is refused beyond its
/// bounds.
pub proof fn law_numbers_are_read_or_default(
    env: Seq<(String, String)>,
    name: Seq<char>,
    default: i64,
    min: i64,
    max: i64,
    problem: Seq<char>,
    number: i64,
)
    requires
        default > 0,
        min <= default <= max,
    ensures
        entry(env, name) is None ==> positive_of(env, name, default) == Ok::<i64, Seq<char>>(
            default,
        ) && ranged_of(env, name, default, min, max, problem) == Ok::<i64, Seq<char>>(default),
        entry(env, name) == Some(crate::numbers::integer_text(number as int)) ==> (positive_of(
            env,
            name,
            default,
        ) is Ok <==> number > 0) && (ranged_of(env, name, default, min, max, problem) is Ok <==> min
            <= number <= max),
        entry(env, name) == Some(crate::numbers::integer_text(number as int)) && positive_of(
            env,
            name,
            default,
        ) is Ok ==> positive_of(env, name, default)->Ok_0 == number,
        entry(env, name) == Some(crate::numbers::integer_text(number as int)) && ranged_of(
            env,
            name,
            default,
            min,
            max,
            problem,
        ) is Ok ==> ranged_of(env, name, default, min, max, problem)->Ok_0 == number,
        entry(env, name) is Some && bounded_value(
            entry(env, name)->Some_0,
            i64::MIN as int,
            i64::MAX as int,
        ) is None ==> positive_of(env, name, default) is Err && ranged_of(
            env,
            name,
            default,
            min,
            max,
            problem,
        ) is Err,
{
    crate::numbers::law_integer_text_reads_back(number as int);
}

/// The process starts exactly where every variable that it needs is there and within its bounds.
pub proof fn law_complete_configurations_are_accepted(env: Seq<(String, String)>, bind_valid: bool)
    ensures
        config_problem(env, bind_valid) is None <==> {
            &&& secret_of(env, "BACKEND_SERVICE_TOKEN"@) is Ok
            &&& secret_of(env, "API_SIGNING_KEY"@) is Ok
            &&& secret_of(env, "SETUP_TOKEN"@) is Ok
            &&& bind_valid
            &&& entry(env, "DATABASE_URL"@) is Some
            &&& connections_of(env) is Ok
            &&& endpoint_of(env, "CADDY_SITE_ADDRESS"@) is Ok
            &&& verification_ttl_of(env) is Ok
            &&& session_lifetime_of(env) is Ok
            &&& storage_problem(env) is None
        },
        storage_problem(env) is None <==> {
            &&& secret_of(env, "OBJECT_STORAGE_ACCESS_KEY"@) is Ok
            &&& secret_of(env, "OBJECT_STORAGE_SECRET_KEY"@) is Ok
            &&& is_bucket(
                if entry(env, "OBJECT_STORAGE_BUCKET"@) is Some {
                    entry(env, "OBJECT_STORAGE_BUCKET"@)->Some_0
                } else {
                    "ctfzone"@
                },
            )
            &&& trimmed(
                if entry(env, "OBJECT_STORAGE_REGION"@) is Some {
                    entry(env, "OBJECT_STORAGE_REGION"@)->Some_0
                } else {
                    "us-east-1"@
                },
            ).len() > 0
            &&& endpoint_of(env, "OBJECT_STORAGE_INTERNAL_URL"@) is Ok
            &&& endpoint_of(env, "OBJECT_STORAGE_PUBLIC_URL"@) is Ok
            &&& presign_ttl_of(env) is Ok
            &&& max_upload_of(env) is Ok
            &&& positive_of(env, "OBJECT_STORAGE_MAX_PENDING_OBJECTS_PER_PRINCIPAL"@, 8) is Ok
            &&& positive_of(
                env,
                "OBJECT_STORAGE_MAX_PENDING_BYTES_PER_PRINCIPAL"@,
                1073741824,
            ) is Ok
            &&& positive_of(
                env,
                "OBJECT_STORAGE_MAX_RETAINED_BYTES_PER_PRINCIPAL"@,
                10737418240,
            ) is Ok
            &&& positive_of(env, "OBJECT_STORAGE_MAX_UPLOADS_PER_HOUR_PER_PRINCIPAL"@, 60) is Ok
        },
{
}

/// Where nothing is given, addresses are valid for 900 seconds, uploads have 512 MiB at most, messages
/// are good for half an hour and sessions for a week, and there are ten connections.
pub proof fn law_defaults_are_taken(env: Seq<(String, String)>)
    ensures
        entry(env, "PRESIGNED_URL_TTL_SECONDS"@) is None ==> presign_ttl_of(env) == Ok::<
            u64,
            Seq<char>,
        >(900),
        entry(env, "OBJECT_STORAGE_MAX_UPLOAD_BYTES"@) is None ==> max_upload_of(env) == Ok::<
            i64,
            Seq<char>,
        >(536870912),
        entry(env, "EMAIL_VERIFICATION_TTL_SECONDS"@) is None ==> verification_ttl_of(env) == Ok::<
            i64,
            Seq<char>,
        >(1800),
        entry(env, "SESSION_LIFETIME_SECONDS"@) is None ==> session_lifetime_of(env) == Ok::<
            i64,
            Seq<char>,
        >(604800),
        entry(env, "DATABASE_MAX_CONNECTIONS"@) is None ==> connections_of(env) == Ok::<
            u64,
            Seq<char>,
        >(10),
        entry(env, "CTFZONE_API_BIND"@) is None ==> bind_address_of(env) == "0.0.0.0:8080"@,
        entry(env, "CTFZONE_API_BIND"@) is Some ==> bind_address_of(env) == entry(
            env,
            "CTFZONE_API_BIND"@,
        )->Some_0,
{
}

/// An origin is read in its normal form, and anything else is refused by the name of the variable.
pub proof fn law_origins_are_read(env: Seq<(String, String)>, name: Seq<char>, url: UrlView)
    requires
        entry(env, name) is Some,
        url_parts(entry(env, name)->Some_0) == Some(url),
    ensures
        endpoint_of(env, name) is Ok <==> (url.0 == "http"@ || url.0 == "https"@) && url.1
            && url.2.len() == 0 && !url.3 && (url.4.len() == 0 || url.4 == "/"@) && !url.5 && !url.6,
        endpoint_of(env, name) is Ok ==> endpoint_of(env, name)->Ok_0 == url.7,
{
}

/// A bucket has 3 to 63 small letters, digits, dots and hyphens, starts and ends with neither of the
/// last two, and has no two dots in a row.
pub proof fn law_buckets_are_plain(value: Seq<char>, i: int)
    ensures
        is_bucket(value) ==> 3 <= value.len() <= 63 && value[0] != '.' && value[0] != '-'
            && value.last() != '.' && value.last() != '-' && !has_substring(value, ".."@),
        is_bucket(value) && 0 <= i < value.len() ==> !('A' <= value[i] <= 'Z') && value[i] != '_'
            && value[i] != '/' && value[i] != ' ',
        3 <= value.len() <= 63 && !has_substring(value, ".."@) && (forall|k: int|
            0 <= k < value.len() ==> ('a' <= #[trigger] value[k] <= 'z' || '0' <= value[k] <= '9'))
            ==> is_bucket(value),
{
    if is_bucket(value) && 0 <= i < value.len() {
        assert(bucket_char(value[i]));
    }
    if 3 <= value.len() <= 63 && (forall|k: int|
        0 <= k < value.len() ==> ('a' <= #[trigger] value[k] <= 'z' || '0' <= value[k] <= '9')) {
        assert forall|k: int| 0 <= k < value.len() implies bucket_char(#[trigger] value[k]) by {}
        assert('a' <= value[0] <= 'z' || '0' <= value[0] <= '9');
        assert('a' <= value[value.len() - 1] <= 'z' || '0' <= value[value.len() - 1] <= '9');
    }
}

} // verus!
