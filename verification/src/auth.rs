//! Who makes a request.
use crate::crypto::{
    base64_url_bytes, base64_url_decode, base64_url_encode, base64_url_text, hmac_sha1,
    hmac_sha1_tag, hmac_sha1_verify, hmac_sha256, hmac_sha256_tag, hmac_sha256_verify,
    law_base64_decodes, lemma_base64_has_no_dot, sha1, sha1_digest,
};
use crate::error::{
    forbidden, shown, shown_text, str_of, text_of, unauthorized, ApiError, Failure,
};
use crate::moment::Moment;
use crate::numbers::{integer_text, to_text};
use crate::registration::{client_ip, forwarded_ip};
use crate::settings::{switch, switch_value};
use crate::text::{
    byte_split, bytes_of, concat, same, split, split_at_byte, split_at_first, split_at_last,
    split_first, split_last, split_on, trim, trimmed, views,
};
use crate::uuids::{parse_uuid, uuid_value};
use vstd::prelude::*;
use vstd::utf8::encode_utf8;

verus! {

// ---------------------------------------------------------------------------
// The calling service
// ---------------------------------------------------------------------------

pub open spec fn service_token_tag(token: Seq<char>) -> Seq<u8> {
    hmac_sha256_tag(
        encode_utf8("ctfzone/service-token/constant-time-comparison/v1"@),
        encode_utf8(token),
    )
}

/// Application routes serve the trusted backend alone, which proves itself by its token. The
/// tokens are compared by their tags, in constant time.
pub fn require_backend_service(expected: &str, provided: Option<&str>) -> (result: Result<
    (),
    ApiError,
>)
    ensures
        shown(result) == match provided {
            Some(token) if service_token_tag(token@) == service_token_tag(expected@) => Ok::<
                (),
                Failure,
            >(()),
            _ => Err(unauthorized("Service authentication required"@)),
        },
        provided matches Some(token) && token@ == expected@ ==> result is Ok,
{
    let key = "ctfzone/service-token/constant-time-comparison/v1";
    if let Some(token) = provided {
        let expected_tag = hmac_sha256(key.as_bytes(), expected.as_bytes());
        if hmac_sha256_verify(key.as_bytes(), token.as_bytes(), expected_tag.as_slice()) {
            return Ok(());
        }
    }
    Err(ApiError::unauthorized("Service authentication required"))
}

// ---------------------------------------------------------------------------
// Users
// ---------------------------------------------------------------------------

#[derive(Debug)]
pub enum Credential {
    ApiToken { token_id: i32, label: String },
    BrowserSession { session_id: String, csrf_nonce: Option<String> },
}

#[derive(Debug)]
pub struct CurrentUser {
    pub id: i32,
    pub name: Option<String>,
    pub email: Option<String>,
    pub user_type: String,
    pub team_id: Option<i32>,
    pub verified: bool,
    pub credential: Credential,
    pub request_ip: String,
    pub ip_changed: bool,
}

impl CurrentUser {
    pub open spec fn admin(self) -> bool {
        self.user_type@ == "admin"@
    }

    pub fn is_admin(&self) -> (result: bool)
        ensures
            result == self.admin(),
    {
        same(self.user_type.as_str(), "admin")
    }

    pub fn request_ip(&self) -> (result: &str)
        ensures
            result@ == self.request_ip@,
    {
        self.request_ip.as_str()
    }

    /// The CSRF token of a browser session; a request by token has none.
    pub open spec fn nonce(self) -> Option<Seq<char>> {
        match self.credential {
            Credential::BrowserSession { csrf_nonce, .. } => text_of(csrf_nonce),
            Credential::ApiToken { .. } => None,
        }
    }

    pub fn csrf_token(&self) -> (result: Option<&str>)
        ensures
            str_of(result) == self.nonce(),
    {
        match &self.credential {
            Credential::BrowserSession { csrf_nonce, .. } => match csrf_nonce {
                Some(nonce) => Some(nonce.as_str()),
                None => None,
            },
            Credential::ApiToken { .. } => None,
        }
    }
}

/// What the library reads of a visitor: nothing of an anonymous one.
pub open spec fn is_admin_visitor(user: Option<&CurrentUser>) -> bool {
    match user {
        Some(current) => current.admin(),
        None => false,
    }
}

pub fn admin_visitor(user: Option<&CurrentUser>) -> (result: bool)
    ensures
        result == is_admin_visitor(user),
{
    match user {
        Some(current) => current.is_admin(),
        None => false,
    }
}

/// Only administrators pass.
pub fn require_admin(user: &CurrentUser) -> (result: Result<(), ApiError>)
    ensures
        result is Ok <==> user.admin(),
        result matches Err(error) ==> error@ == forbidden("Administrator access is required"@),
{
    if user.is_admin() {
        Ok(())
    } else {
        Err(ApiError::forbidden("Administrator access is required"))
    }
}

// ---------------------------------------------------------------------------
// Identities
// ---------------------------------------------------------------------------

/// The account behind a credential, and what stands against its use.
pub struct Identity {
    pub id: i32,
    pub name: Option<String>,
    pub email: Option<String>,
    pub user_type: String,
    pub team_id: Option<i32>,
    pub verified: bool,
    pub banned: bool,
    pub team_banned: bool,
    pub change_password: bool,
}

/// Why an account may not be used: it is banned, its team is, or its password has to be changed.
pub open spec fn identity_problem(
    banned: bool,
    team_banned: bool,
    change_password: bool,
) -> Option<Failure> {
    if banned {
        Some(forbidden("You have been banned from this CTF"@))
    } else if team_banned {
        Some(forbidden("Your team has been banned from this CTF"@))
    } else if change_password {
        Some(forbidden("A password change is required"@))
    } else {
        None
    }
}

pub fn authorize_identity(
    id: i32,
    name: Option<String>,
    email: Option<String>,
    user_type: String,
    team_id: Option<i32>,
    verified: bool,
    banned: bool,
    team_banned: bool,
    change_password: bool,
    credential: Credential,
    request_ip: String,
    ip_changed: bool,
) -> (result: Result<CurrentUser, ApiError>)
    ensures
        shown(result) == (match identity_problem(banned, team_banned, change_password) {
            Some(failure) => Err(failure),
            None => Ok::<CurrentUser, Failure>(
                (CurrentUser {
                    id,
                    name,
                    email,
                    user_type,
                    team_id,
                    verified,
                    credential,
                    request_ip,
                    ip_changed,
                }),
            ),
        }),
{
    if banned {
        return Err(ApiError::forbidden("You have been banned from this CTF"));
    }
    if team_banned {
        return Err(ApiError::forbidden("Your team has been banned from this CTF"));
    }
    if change_password {
        return Err(ApiError::forbidden("A password change is required"));
    }
    Ok(
        CurrentUser {
            id,
            name,
            email,
            user_type,
            team_id,
            verified,
            credential,
            request_ip,
            ip_changed,
        },
    )
}

/// A user with the fields of an identity.
pub open spec fn user_matches(user: CurrentUser, identity: Identity) -> bool {
    &&& user.id == identity.id
    &&& user.name == identity.name
    &&& user.email == identity.email
    &&& user.user_type == identity.user_type
    &&& user.team_id == identity.team_id
    &&& user.verified == identity.verified
}

// ---------------------------------------------------------------------------
// Tokens
// ---------------------------------------------------------------------------

/// The token in an authorization header: what stands behind the first space.
pub open spec fn header_token(authorization: Seq<char>) -> Result<Seq<char>, Failure> {
    match split_first(authorization, ' ') {
        Some((_, rest)) if trimmed(rest).len() > 0 => Ok(trimmed(rest)),
        _ => Err(unauthorized("Invalid authorization header"@)),
    }
}

pub fn authorization_token(authorization: &str) -> (result: Result<String, ApiError>)
    ensures
        shown_text(result) == header_token(authorization@),
{
    match split_at_first(authorization, ' ') {
        Some((_, rest)) => {
            let token = trim(rest.as_str());
            if token.as_str().is_empty() {
                Err(ApiError::unauthorized("Invalid authorization header"))
            } else {
                Ok(token)
            }
        },
        None => Err(ApiError::unauthorized("Invalid authorization header")),
    }
}

/// A token as it is stored, and the address that it was used from last.
pub struct TokenRow {
    pub identity: Identity,
    pub token_id: i32,
    pub description: Option<String>,
    pub expiration: Moment,
    pub previous_ip: Option<String>,
}

/// The moment has come.
pub open spec fn has_passed(moment: Moment, now: Moment) -> bool {
    moment.seconds < now.seconds || (moment.seconds == now.seconds && moment.nanos <= now.nanos)
}

pub open spec fn token_label(row: TokenRow) -> Seq<char> {
    match row.description {
        Some(text) => text@,
        None => "API token #"@ + integer_text(row.token_id as int),
    }
}

/// Signs in by token; `row` is what is stored for it.
pub fn authenticate_api_token(row: Option<TokenRow>, now: Moment, forwarded_for: Option<&str>) -> (
result: Result<CurrentUser, ApiError>)
    ensures
        match (row, result) {
            (None, Err(error)) => error@ == unauthorized("Your access token is invalid"@),
            (Some(token), Err(error)) => if has_passed(token.expiration, now) {
                error@ == unauthorized("Your access token has expired"@)
            } else {
                identity_problem(
                    token.identity.banned,
                    token.identity.team_banned,
                    token.identity.change_password,
                ) == Some(error@)
            },
            (Some(token), Ok(user)) => {
                &&& !has_passed(token.expiration, now)
                &&& identity_problem(
                    token.identity.banned,
                    token.identity.team_banned,
                    token.identity.change_password,
                ) is None
                &&& user_matches(user, token.identity)
                &&& user.request_ip@ == forwarded_ip(str_of(forwarded_for))
                &&& user.ip_changed == (token.previous_ip is Some
                    && token.previous_ip->Some_0@ != user.request_ip@)
                &&& user.credential matches Credential::ApiToken { token_id, label } && token_id
                    == token.token_id && label@ == token_label(token)
            },
            (None, Ok(_)) => false,
        },
{
    let token = match row {
        Some(token) => token,
        None => return Err(ApiError::unauthorized("Your access token is invalid")),
    };
    let expiration = token.expiration;
    if expiration.seconds < now.seconds || (expiration.seconds == now.seconds && expiration.nanos
        <= now.nanos) {
        return Err(ApiError::unauthorized("Your access token has expired"));
    }
    let request_ip = client_ip(forwarded_for);
    let ip_changed = match &token.previous_ip {
        Some(previous) => !same(previous.as_str(), request_ip.as_str()),
        None => false,
    };
    let label = match token.description {
        Some(text) => text,
        None => {
            let number = to_text(token.token_id as i64);
            concat("API token #", number.as_str())
        },
    };
    let identity = token.identity;
    authorize_identity(
        identity.id,
        identity.name,
        identity.email,
        identity.user_type,
        identity.team_id,
        identity.verified,
        identity.banned,
        identity.team_banned,
        identity.change_password,
        Credential::ApiToken { token_id: token.token_id, label },
        request_ip,
        ip_changed,
    )
}

// ---------------------------------------------------------------------------
// Sessions
// ---------------------------------------------------------------------------

/// The key that sessions are signed with.
pub open spec fn signing_key(secret: Seq<char>) -> Seq<u8> {
    sha1_digest(encode_utf8("itsdangerous.Signer"@) + encode_utf8("signer"@) + encode_utf8(secret))
}

pub open spec fn session_tag(session_id: Seq<char>, secret: Seq<char>) -> Seq<u8> {
    hmac_sha1_tag(signing_key(secret), encode_utf8(session_id))
}

fn derive_key(secret_key: &str) -> (result: [u8; 20])
    ensures
        result@ == signing_key(secret_key@),
{
    let mut message = bytes_of("itsdangerous.Signer");
    let mut middle = bytes_of("signer");
    message.append(&mut middle);
    let mut secret = bytes_of(secret_key);
    message.append(&mut secret);
    sha1(message.as_slice())
}

/// A session with its signature behind it, separated by a dot.
pub open spec fn signed(session_id: Seq<char>, secret: Seq<char>) -> Seq<char> {
    session_id + "."@ + base64_url_text(session_tag(session_id, secret))
}

/// Signs a session.
pub fn sign_session(session_id: &str, secret_key: &str) -> (result: String)
    ensures
        result@ == signed(session_id@, secret_key@),
{
    let key = derive_key(secret_key);
    let tag = hmac_sha1(key.as_slice(), session_id.as_bytes());
    let signature = base64_url_encode(tag.as_slice());
    let start = concat(session_id, ".");
    concat(start.as_str(), signature.as_str())
}

/// The session that a signed value names, where the signature is right.
pub open spec fn verified(signed_value: Seq<char>, secret: Seq<char>) -> Option<Seq<char>> {
    match split_last(signed_value, '.') {
        Some((session_id, signature)) => if uuid_value(session_id) is Some && base64_url_bytes(
            signature,
        ) == Some(session_tag(session_id, secret)) {
            Some(session_id)
        } else {
            None
        },
        None => None,
    }
}

/// Verifies a signed session.
pub fn verify_signed_session(signed_value: &str, secret_key: &str) -> (result: Option<String>)
    ensures
        text_of(result) == verified(signed_value@, secret_key@),
{
    let (session_id, encoded) = match split_at_last(signed_value, '.') {
        Some(parts) => parts,
        None => return None,
    };
    if parse_uuid(session_id.as_str()).is_none() {
        return None;
    }
    let signature = match base64_url_decode(encoded.as_str()) {
        Some(bytes) => bytes,
        None => return None,
    };
    let key = derive_key(secret_key);
    if hmac_sha1_verify(key.as_slice(), session_id.as_str().as_bytes(), signature.as_slice()) {
        Some(session_id)
    } else {
        None
    }
}

/// Verifying undoes signing, and nothing is verified but what signing a session gives, letter for
/// letter: a changed session, signature or secret is refused.
pub proof fn law_sessions_are_signed(
    signed_value: Seq<char>,
    secret: Seq<char>,
    session_id: Seq<char>,
)
    ensures
        verified(signed_value, secret) == Some(session_id) <==> uuid_value(session_id) is Some
            && signed_value == signed(session_id, secret),
{
    reveal_strlit(".");
    if verified(signed_value, secret) == Some(session_id) {
        crate::text::lemma_last_index_found(signed_value, '.');
        let signature = split_last(signed_value, '.')->Some_0.1;
        assert(base64_url_text(base64_url_bytes(signature)->Some_0) == signature);
        assert(signed_value =~= session_id + "."@ + signature);
    }
    if uuid_value(session_id) is Some && signed_value == signed(session_id, secret) {
        let tag = session_tag(session_id, secret);
        let signature = base64_url_text(tag);
        let n = session_id.len() as int;
        lemma_base64_has_no_dot(tag, true);
        law_base64_decodes(tag);
        assert(signed_value[n] == '.');
        assert forall|j: int| n < j < signed_value.len() implies signed_value[j] != '.' by {
            assert(signature[j - n - 1] == signed_value[j]);
            assert(signature.contains(signature[j - n - 1]));
        }
        crate::text::lemma_last_index(signed_value, '.', n);
        assert(signed_value.take(n) =~= session_id);
        assert(signed_value.skip(n + 1) =~= signature);
    }
}

/// The cookie of the name in the first `n` parts of a header.
pub open spec fn cookie_in(parts: Seq<Seq<char>>, name: Seq<char>, from: int) -> Option<Seq<char>>
    decreases parts.len() - from,
{
    if from >= parts.len() {
        None
    } else {
        match split_first(trimmed(parts[from]), '=') {
            Some((key, value)) if key == name => Some(value),
            _ => cookie_in(parts, name, from + 1),
        }
    }
}

/// The first cookie of the name in the headers.
pub open spec fn cookie_value(headers: Seq<Seq<char>>, name: Seq<char>, from: int) -> Option<
    Seq<char>,
>
    decreases headers.len() - from,
{
    if from >= headers.len() {
        None
    } else {
        match cookie_in(split(headers[from], ';'), name, 0) {
            Some(value) => Some(value),
            None => cookie_value(headers, name, from + 1),
        }
    }
}

fn find_in_header(header: &str, wanted_name: &str) -> (result: Option<String>)
    ensures
        text_of(result) == cookie_in(split(header@, ';'), wanted_name@, 0),
{
    let parts = split_on(header, ';');
    let ghost all = split(header@, ';');
    assert(views(parts@).len() == parts@.len());
    let mut i: usize = 0;
    while i < parts.len()
        invariant
            i <= parts.len(),
            views(parts@) == all,
            all == split(header@, ';'),
            views(parts@).len() == parts@.len(),
            cookie_in(all, wanted_name@, 0) == cookie_in(all, wanted_name@, i as int),
        decreases parts.len() - i,
    {
        assert(all[i as int] == views(parts@)[i as int]);
        let cookie = trim(parts[i].as_str());
        if let Some((name, value)) = split_at_first(cookie.as_str(), '=') {
            if same(name.as_str(), wanted_name) {
                return Some(value);
            }
        }
        i += 1;
    }
    None
}

/// The cookie of a name; `headers` are the values of the cookie headers.
pub fn find_cookie(headers: &Vec<String>, wanted_name: &str) -> (result: Option<String>)
    ensures
        text_of(result) == cookie_value(views(headers@), wanted_name@, 0),
{
    let ghost all = views(headers@);
    let mut i: usize = 0;
    while i < headers.len()
        invariant
            i <= headers.len(),
            all == views(headers@),
            cookie_value(all, wanted_name@, 0) == cookie_value(all, wanted_name@, i as int),
        decreases headers.len() - i,
    {
        assert(all[i as int] == headers@[i as int]@);
        if let Some(value) = find_in_header(headers[i].as_str(), wanted_name) {
            return Some(value);
        }
        i += 1;
    }
    None
}

/// The session that a request names by its cookie.
pub open spec fn cookie_session(cookie: Option<Seq<char>>, secret: Seq<char>) -> Result<
    Seq<char>,
    Failure,
> {
    match cookie {
        None => Err(forbidden("Authentication required"@)),
        Some(value) => match verified(value, secret) {
            Some(session_id) => Ok(session_id),
            None => Err(unauthorized("Invalid browser session"@)),
        },
    }
}

pub fn session_of_cookie(cookie: Option<&str>, secret_key: &str) -> (result: Result<
    String,
    ApiError,
>)
    ensures
        shown_text(result) == cookie_session(str_of(cookie), secret_key@),
{
    match cookie {
        None => Err(ApiError::forbidden("Authentication required")),
        Some(value) => match verify_signed_session(value, secret_key) {
            Some(session_id) => Ok(session_id),
            None => Err(ApiError::unauthorized("Invalid browser session")),
        },
    }
}

/// A method that changes nothing.
pub fn is_safe_method(method: &str) -> (result: bool)
    ensures
        result == safe_method(method@),
{
    same(method, "GET") || same(method, "HEAD") || same(method, "OPTIONS") || same(method, "TRACE")
}

pub open spec fn safe_method(method: Seq<char>) -> bool {
    method == "GET"@ || method == "HEAD"@ || method == "OPTIONS"@ || method == "TRACE"@
}

/// A session as it is stored.
pub struct SessionRow {
    pub identity: Identity,
    pub session_id: String,
    pub csrf_nonce: Option<String>,
    pub last_ip: String,
}

/// A request that changes something carries the token of its session.
pub open spec fn csrf_ok(
    method: Seq<char>,
    nonce: Option<Seq<char>>,
    supplied: Option<Seq<char>>,
) -> bool {
    safe_method(method) || (nonce is Some && nonce == supplied)
}

/// What a request by a live session is refused with.
pub open spec fn session_problem(
    row: SessionRow,
    method: Seq<char>,
    supplied_nonce: Option<Seq<char>>,
) -> Option<Failure> {
    if !csrf_ok(method, text_of(row.csrf_nonce), supplied_nonce) {
        Some(forbidden("Invalid CSRF token"@))
    } else {
        identity_problem(
            row.identity.banned,
            row.identity.team_banned,
            row.identity.change_password,
        )
    }
}

/// Signs in by session; `row` is what is stored for it.
pub fn authenticate_browser_session(
    row: Option<SessionRow>,
    method: &str,
    supplied_nonce: Option<&str>,
    forwarded_for: Option<&str>,
) -> (result: Result<CurrentUser, ApiError>)
    ensures
        match (row, result) {
            (None, Err(error)) => error@ == unauthorized(
                "This session has expired or been revoked"@,
            ),
            (Some(session), Err(error)) => session_problem(
                session,
                method@,
                str_of(supplied_nonce),
            ) == Some(error@),
            (Some(session), Ok(user)) => {
                &&& session_problem(session, method@, str_of(supplied_nonce)) is None
                &&& user_matches(user, session.identity)
                &&& user.request_ip@ == forwarded_ip(str_of(forwarded_for))
                &&& user.ip_changed == (session.last_ip@ != user.request_ip@)
                &&& user.credential == (Credential::BrowserSession {
                    session_id: session.session_id,
                    csrf_nonce: session.csrf_nonce,
                })
            },
            (None, Ok(_)) => false,
        },
{
    let session = match row {
        Some(session) => session,
        None => return Err(ApiError::unauthorized("This session has expired or been revoked")),
    };
    if !is_safe_method(method) {
        let matching = match (&session.csrf_nonce, supplied_nonce) {
            (Some(nonce), Some(supplied)) => same(nonce.as_str(), supplied),
            _ => false,
        };
        if !matching {
            return Err(ApiError::forbidden("Invalid CSRF token"));
        }
    }
    let request_ip = client_ip(forwarded_for);
    let ip_changed = !same(session.last_ip.as_str(), request_ip.as_str());
    let identity = session.identity;
    authorize_identity(
        identity.id,
        identity.name,
        identity.email,
        identity.user_type,
        identity.team_id,
        identity.verified,
        identity.banned,
        identity.team_banned,
        identity.change_password,
        Credential::BrowserSession {
            session_id: session.session_id,
            csrf_nonce: session.csrf_nonce,
        },
        request_ip,
        ip_changed,
    )
}

/// How a request is signed in: by token where it has an authorization header, else by session.
#[derive(Clone, Copy, Debug, PartialEq, Eq, Structural)]
pub enum SignInWay {
    Anonymous,
    Token,
    Session,
}

pub fn sign_in_way(has_authorization: bool, has_cookie: bool) -> (result: SignInWay)
    ensures
        result == (if has_authorization {
            SignInWay::Token
        } else if has_cookie {
            SignInWay::Session
        } else {
            SignInWay::Anonymous
        }),
{
    if has_authorization {
        SignInWay::Token
    } else if has_cookie {
        SignInWay::Session
    } else {
        SignInWay::Anonymous
    }
}

/// What is recorded of the credential of a request.
pub struct ActivityCredential {
    pub session_id: Option<String>,
    pub api_token_id: Option<i32>,
    pub credential_type: &'static str,
    pub credential_label: String,
}

/// A session is labelled by its first eight bytes.
pub open spec fn activity_ok(credential: Credential) -> bool {
    credential matches Credential::BrowserSession { session_id, .. } ==> byte_split(
        session_id@,
        8,
    ) is Some
}

pub fn record_activity(credential: &Credential) -> (result: ActivityCredential)
    requires
        activity_ok(*credential),
    ensures
        match credential {
            Credential::ApiToken { token_id, label } => result.session_id is None
                && result.api_token_id == Some(*token_id) && result.credential_type@
                == "api_token"@ && result.credential_label@ == label@,
            Credential::BrowserSession { session_id, .. } => text_of(result.session_id) == Some(
                session_id@,
            ) && result.api_token_id is None && result.credential_type@ == "browser"@
                && result.credential_label@ == "Session "@ + byte_split(
                session_id@,
                8,
            )->Some_0.0,
        },
{
    match credential {
        Credential::ApiToken { token_id, label } => ActivityCredential {
            session_id: None,
            api_token_id: Some(*token_id),
            credential_type: "api_token",
            credential_label: label.clone(),
        },
        Credential::BrowserSession { session_id, .. } => {
            let start = match split_at_byte(session_id.as_str(), 8) {
                Some((start, _)) => start,
                None => String::new(),
            };
            ActivityCredential {
                session_id: Some(session_id.clone()),
                api_token_id: None,
                credential_type: "browser",
                credential_label: concat("Session ", start.as_str()),
            }
        },
    }
}

/// Where addresses have to be verified, only administrators come in without.
pub fn require_verified_email(user: &CurrentUser, verify_emails: Option<&str>) -> (result: Result<
    (),
    ApiError,
>)
    ensures
        shown(result) == (if switch_value(str_of(verify_emails), false) && !user.admin()
            && !user.verified {
            Err(forbidden("Email verification is required"@))
        } else {
            Ok::<(), Failure>(())
        }),
{
    if switch(verify_emails, false) && !user.is_admin() && !user.verified {
        Err(ApiError::forbidden("Email verification is required"))
    } else {
        Ok(())
    }
}

/// A request that changes something is served only with the token of its session.
pub proof fn law_changes_need_the_csrf_token(
    row: SessionRow,
    method: Seq<char>,
    supplied: Option<Seq<char>>,
)
    requires
        !safe_method(method),
        session_problem(row, method, supplied) is None,
    ensures
        row.csrf_nonce is Some,
        supplied == text_of(row.csrf_nonce),
{
}

/// An account is usable exactly where neither it nor its team is banned and its password need not be
/// changed; what is told first is its own ban, then that of the team.
pub proof fn law_banned_accounts_are_kept_out(
    banned: bool,
    team_banned: bool,
    change_password: bool,
)
    ensures
        ({
            let problem = identity_problem(banned, team_banned, change_password);
            &&& problem is None <==> !banned && !team_banned && !change_password
            &&& banned ==> problem == Some(forbidden("You have been banned from this CTF"@))
            &&& !banned && team_banned ==> problem == Some(
                forbidden("Your team has been banned from this CTF"@),
            )
            &&& !banned && !team_banned && change_password ==> problem == Some(
                forbidden("A password change is required"@),
            )
        }),
{
}

/// A live session serves its account: with the token of the session for every request, without it
/// for those that change nothing, as long as the account is usable.
pub proof fn law_sessions_serve_their_account(
    row: SessionRow,
    method: Seq<char>,
    supplied: Option<Seq<char>>,
)
    ensures
        ({
            let changing = method != "GET"@ && method != "HEAD"@ && method != "OPTIONS"@ && method
                != "TRACE"@;
            let forged = changing && !(row.csrf_nonce is Some && supplied == Some(
                row.csrf_nonce->Some_0@,
            ));
            &&& forged ==> session_problem(row, method, supplied) == Some(
                forbidden("Invalid CSRF token"@),
            )
            &&& !forged ==> (session_problem(row, method, supplied) is None
                <==> !row.identity.banned && !row.identity.team_banned
                && !row.identity.change_password)
            &&& !forged ==> session_problem(row, method, supplied) == identity_problem(
                row.identity.banned,
                row.identity.team_banned,
                row.identity.change_password,
            )
        }),
{
}

/// The token behind a scheme and a blank is read without the white space around it; a header
/// without a blank, or with nothing behind it, is refused.
pub proof fn law_tokens_stand_behind_their_scheme(scheme: Seq<char>, token: Seq<char>)
    requires
        !scheme.contains(' '),
    ensures
        trimmed(token).len() > 0 ==> header_token(scheme + seq![' '] + token) == Ok::<
            Seq<char>,
            Failure,
        >(trimmed(token)),
        trimmed(token).len() == 0 ==> header_token(scheme + seq![' '] + token) == Err::<
            Seq<char>,
            Failure,
        >(unauthorized("Invalid authorization header"@)),
        header_token(scheme) == Err::<Seq<char>, Failure>(
            unauthorized("Invalid authorization header"@),
        ),
{
    crate::text::law_texts_split_at_a_character(scheme, ' ', token);
}

/// A token is good up to the nanosecond before it expires: a moment has passed exactly where now is
/// not before it.
pub proof fn law_moments_pass_in_order(moment: Moment, now: Moment)
    requires
        moment.nanos < 1_000_000_000,
        now.nanos < 1_000_000_000,
    ensures
        has_passed(moment, now) <==> moment.total() <= now.total(),
{
}

/// A cookie is found under its name, with its value to the letter, in the first part of a header
/// that holds it; parts with another name are passed over.
pub proof fn law_cookies_are_found(
    parts: Seq<Seq<char>>,
    name: Seq<char>,
    value: Seq<char>,
    place: int,
    from: int,
)
    requires
        0 <= from <= place < parts.len(),
        !name.contains('='),
        trimmed(parts[place]) == name + seq!['='] + value,
        forall|i: int|
            from <= i < place ==> !(split_first(#[trigger] trimmed(parts[i]), '=') matches Some(
                (key, _),
            ) && key == name),
    ensures
        cookie_in(parts, name, from) == Some(value),
    decreases place - from,
{
    crate::text::law_texts_split_at_a_character(name, '=', value);
    if from < place {
        assert(!(split_first(trimmed(parts[from]), '=') matches Some((key, _)) && key == name));
        law_cookies_are_found(parts, name, value, place, from + 1);
    }
}

/// A name that no part of a header holds has no cookie in it, and the headers before the one that
/// holds it are passed over.
pub proof fn law_missing_cookies_are_not_found(
    parts: Seq<Seq<char>>,
    headers: Seq<Seq<char>>,
    name: Seq<char>,
    from: int,
)
    ensures
        (0 <= from && forall|i: int|
            from <= i < parts.len() ==> !(split_first(#[trigger] trimmed(parts[i]), '=')
                matches Some((key, _)) && key == name)) ==> cookie_in(parts, name, from) is None,
        0 <= from < headers.len() ==> cookie_value(headers, name, from) == (match cookie_in(
            split(headers[from], ';'),
            name,
            0,
        ) {
            Some(value) => Some(value),
            None => cookie_value(headers, name, from + 1),
        }),
        from >= headers.len() ==> cookie_value(headers, name, from) is None,
    decreases parts.len() - from,
{
    if 0 <= from < parts.len() && forall|i: int|
        from <= i < parts.len() ==> !(split_first(#[trigger] trimmed(parts[i]), '=') matches Some(
            (key, _),
        ) && key == name) {
        assert(!(split_first(trimmed(parts[from]), '=') matches Some((key, _)) && key == name));
        law_missing_cookies_are_not_found(parts, headers, name, from + 1);
    }
}

/// A request is a session's exactly where its cookie is one that signing the session gives; without
/// a cookie it has to sign in, and with any other it is refused.
pub proof fn law_cookies_name_their_session(
    cookie: Option<Seq<char>>,
    secret: Seq<char>,
    session: Seq<char>,
)
    ensures
        cookie is None ==> cookie_session(cookie, secret) == Err::<Seq<char>, Failure>(
            forbidden("Authentication required"@),
        ),
        cookie is Some ==> (cookie_session(cookie, secret) == Ok::<Seq<char>, Failure>(session)
            <==> uuid_value(session) is Some && cookie->Some_0 == signed(session, secret)),
        cookie is Some && cookie_session(cookie, secret) is Err ==> cookie_session(cookie, secret)
            == Err::<Seq<char>, Failure>(unauthorized("Invalid browser session"@)),
{
    if cookie is Some {
        law_sessions_are_signed(cookie->Some_0, secret, session);
    }
}

/// An administrator is whoever has that type, and nobody who is not signed in.
pub proof fn law_administrators_have_the_type(user: CurrentUser)
    ensures
        user.admin() <==> user.user_type@ == "admin"@,
        is_admin_visitor(Some(&user)) <==> user.user_type@ == "admin"@,
        !is_admin_visitor(None),
        user.credential is ApiToken ==> user.nonce() is None,
        user.credential matches Credential::BrowserSession { csrf_nonce, .. } ==> (user.nonce()
            is Some <==> csrf_nonce is Some) && (csrf_nonce is Some ==> user.nonce() == Some(
            csrf_nonce->Some_0@,
        )),
{
}

/// A token is labelled by its description, and by its number where it has none.
pub proof fn law_tokens_are_labelled(row: TokenRow)
    ensures
        row.description is Some ==> token_label(row) == row.description->Some_0@,
        row.description is None ==> token_label(row) == "API token #"@ + integer_text(
            row.token_id as int,
        ),
{
}

/// Tokens are compared, and sessions signed, by what they are: the tag of a token is taken of the
/// whole of it, and that of a session under a key that is derived from the secret.
pub proof fn law_tags_are_taken_of_the_whole(
    token: Seq<char>,
    session: Seq<char>,
    secret: Seq<char>,
)
    ensures
        service_token_tag(token) == hmac_sha256_tag(
            encode_utf8("ctfzone/service-token/constant-time-comparison/v1"@),
            encode_utf8(token),
        ),
        session_tag(session, secret) == hmac_sha1_tag(
            sha1_digest(
                encode_utf8("itsdangerous.Signer"@) + encode_utf8("signer"@) + encode_utf8(secret),
            ),
            encode_utf8(session),
        ),
        signed(session, secret) == session + "."@ + base64_url_text(session_tag(session, secret)),
{
}

} // verus!
