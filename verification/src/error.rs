//! The failures that a request can end in.
use vstd::prelude::*;

verus! {

#[derive(Clone, Copy, Debug, PartialEq, Eq, Structural)]
pub enum ErrorKind {
    BadRequest,
    Unauthorized,
    Forbidden,
    NotFound,
    Conflict,
    TooManyRequests,
    Upstream,
    ServiceUnavailable,
}

/// A failure: what kind it is and what the caller is told.
#[derive(Debug)]
pub struct ApiError {
    pub kind: ErrorKind,
    pub message: String,
}

/// A failure by its mathematical value.
pub type Failure = (ErrorKind, Seq<char>);

impl View for ApiError {
    type V = Failure;

    open spec fn view(&self) -> Failure {
        (self.kind, self.message@)
    }
}

impl ErrorKind {
    pub open spec fn code(self) -> u16 {
        match self {
            ErrorKind::BadRequest => 400,
            ErrorKind::Unauthorized => 401,
            ErrorKind::Forbidden => 403,
            ErrorKind::NotFound => 404,
            ErrorKind::Conflict => 409,
            ErrorKind::TooManyRequests => 429,
            ErrorKind::Upstream => 502,
            ErrorKind::ServiceUnavailable => 503,
        }
    }

    /// The HTTP status of the failure.
    pub fn status(self) -> (result: u16)
        ensures
            result == self.code(),
    {
        match self {
            ErrorKind::BadRequest => 400,
            ErrorKind::Unauthorized => 401,
            ErrorKind::Forbidden => 403,
            ErrorKind::NotFound => 404,
            ErrorKind::Conflict => 409,
            ErrorKind::TooManyRequests => 429,
            ErrorKind::Upstream => 502,
            ErrorKind::ServiceUnavailable => 503,
        }
    }
}

impl ApiError {
    pub fn new(kind: ErrorKind, message: &str) -> (result: ApiError)
        ensures
            result@ == (kind, message@),
    {
        ApiError { kind, message: message.to_owned() }
    }

    pub fn bad_request(message: &str) -> (result: ApiError)
        ensures
            result@ == bad(message@),
    {
        ApiError::new(ErrorKind::BadRequest, message)
    }

    pub fn unauthorized(message: &str) -> (result: ApiError)
        ensures
            result@ == unauthorized(message@),
    {
        ApiError::new(ErrorKind::Unauthorized, message)
    }

    pub fn forbidden(message: &str) -> (result: ApiError)
        ensures
            result@ == forbidden(message@),
    {
        ApiError::new(ErrorKind::Forbidden, message)
    }

    pub fn not_found(message: &str) -> (result: ApiError)
        ensures
            result@ == not_found(message@),
    {
        ApiError::new(ErrorKind::NotFound, message)
    }

    pub fn conflict(message: &str) -> (result: ApiError)
        ensures
            result@ == conflict(message@),
    {
        ApiError::new(ErrorKind::Conflict, message)
    }

    pub fn too_many_requests(message: &str) -> (result: ApiError)
        ensures
            result@ == too_many(message@),
    {
        ApiError::new(ErrorKind::TooManyRequests, message)
    }

    pub fn upstream(message: &str) -> (result: ApiError)
        ensures
            result@ == upstream(message@),
    {
        ApiError::new(ErrorKind::Upstream, message)
    }

    pub fn service_unavailable(message: &str) -> (result: ApiError)
        ensures
            result@ == unavailable(message@),
    {
        ApiError::new(ErrorKind::ServiceUnavailable, message)
    }
}

pub open spec fn bad(message: Seq<char>) -> Failure {
    (ErrorKind::BadRequest, message)
}

pub open spec fn unauthorized(message: Seq<char>) -> Failure {
    (ErrorKind::Unauthorized, message)
}

pub open spec fn forbidden(message: Seq<char>) -> Failure {
    (ErrorKind::Forbidden, message)
}

pub open spec fn not_found(message: Seq<char>) -> Failure {
    (ErrorKind::NotFound, message)
}

pub open spec fn conflict(message: Seq<char>) -> Failure {
    (ErrorKind::Conflict, message)
}

pub open spec fn too_many(message: Seq<char>) -> Failure {
    (ErrorKind::TooManyRequests, message)
}

pub open spec fn upstream(message: Seq<char>) -> Failure {
    (ErrorKind::Upstream, message)
}

pub open spec fn unavailable(message: Seq<char>) -> Failure {
    (ErrorKind::ServiceUnavailable, message)
}

/// A result with its failure taken by value.
pub open spec fn shown<T>(result: Result<T, ApiError>) -> Result<T, Failure> {
    match result {
        Ok(value) => Ok(value),
        Err(error) => Err(error@),
    }
}

/// A result of text, the text and the failure taken by value.
pub open spec fn shown_text(result: Result<String, ApiError>) -> Result<Seq<char>, Failure> {
    match result {
        Ok(value) => Ok(value@),
        Err(error) => Err(error@),
    }
}

pub open spec fn text_of(value: Option<String>) -> Option<Seq<char>> {
    match value {
        Some(text) => Some(text@),
        None => None,
    }
}

pub open spec fn str_of(value: Option<&str>) -> Option<Seq<char>> {
    match value {
        Some(text) => Some(text@),
        None => None,
    }
}

/// A result of optional text, the text and the failure taken by value.
pub open spec fn shown_option(result: Result<Option<String>, ApiError>) -> Result<
    Option<Seq<char>>,
    Failure,
> {
    match result {
        Ok(value) => Ok(text_of(value)),
        Err(error) => Err(error@),
    }
}

// ---------------------------------------------------------------------------
// Laws
// ---------------------------------------------------------------------------

/// Each kind of failure has the status that stands for it, and no two kinds have one.
pub proof fn law_failures_have_their_status(message: Seq<char>, kind: ErrorKind, other: ErrorKind)
    ensures
        bad(message).0.code() == 400 && bad(message).1 == message,
        unauthorized(message).0.code() == 401 && unauthorized(message).1 == message,
        forbidden(message).0.code() == 403 && forbidden(message).1 == message,
        not_found(message).0.code() == 404 && not_found(message).1 == message,
        conflict(message).0.code() == 409 && conflict(message).1 == message,
        too_many(message).0.code() == 429 && too_many(message).1 == message,
        upstream(message).0.code() == 502 && upstream(message).1 == message,
        unavailable(message).0.code() == 503 && unavailable(message).1 == message,
        kind.code() == other.code() ==> kind == other,
{
}

/// A text that may be missing is read as its characters, and nothing as nothing.
pub proof fn law_texts_are_seen_as_they_are(text: String, words: &str)
    ensures
        text_of(Some(text)) == Some(text@),
        text_of(None) is None,
        str_of(Some(words)) == Some(words@),
        str_of(None) is None,
{
}

} // verus!
