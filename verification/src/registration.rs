//! Setting up the site, registering and signing in.
use crate::crypto::{hmac_sha256, hmac_sha256_tag, hmac_sha256_verify};
use crate::domains::{is_email, valid_email};
use crate::error::{
    bad, conflict, forbidden, shown, shown_text, str_of, text_of, too_many, ApiError, Failure,
};
use crate::response::Success;
use crate::text::{
    byte_len, byte_length, chars_of, contains_control, control, digit, has_control, has_prefix,
    is_control, is_digit, is_lower, lower, lowercase, to_lowercase_ascii, trim, trimmed,
};
use vstd::prelude::*;
use vstd::utf8::encode_utf8;

verus! {

// ---------------------------------------------------------------------------
// Setup
// ---------------------------------------------------------------------------

pub open spec fn setup_token_tag(token: Seq<char>) -> Seq<u8> {
    hmac_sha256_tag(
        encode_utf8("ctfzone/setup-token/constant-time-comparison/v1"@),
        encode_utf8(token),
    )
}

/// Compares two tokens by their tags, in constant time.
pub fn setup_token_matches(expected: &str, provided: &str) -> (result: bool)
    ensures
        result == (setup_token_tag(expected@) == setup_token_tag(provided@)),
        expected@ == provided@ ==> result,
{
    let key = "ctfzone/setup-token/constant-time-comparison/v1";
    let expected_tag = hmac_sha256(key.as_bytes(), expected.as_bytes());
    hmac_sha256_verify(key.as_bytes(), provided.as_bytes(), expected_tag.as_slice())
}

pub fn require_setup_token(expected: &str, provided: &str) -> (result: Result<(), ApiError>)
    ensures
        shown(result) == (if setup_token_tag(expected@) == setup_token_tag(provided@) {
            Ok::<(), Failure>(())
        } else {
            Err(forbidden("Setup authorization failed"@))
        }),
{
    if setup_token_matches(expected, provided) {
        Ok(())
    } else {
        Err(ApiError::forbidden("Setup authorization failed"))
    }
}

pub open spec fn registration_code_tag(code: Seq<char>) -> Seq<u8> {
    hmac_sha256_tag(
        encode_utf8("ctfzone/registration-code/constant-time-comparison/v1"@),
        encode_utf8(lowercase(code)),
    )
}

/// Compares two codes by the tags of their lower-case forms, in constant time.
pub fn registration_code_matches(expected: &str, provided: &str) -> (result: bool)
    ensures
        result == (registration_code_tag(expected@) == registration_code_tag(provided@)),
        lowercase(expected@) == lowercase(provided@) ==> result,
{
    let key = "ctfzone/registration-code/constant-time-comparison/v1";
    let wanted = to_lowercase_ascii(expected);
    let given = to_lowercase_ascii(provided);
    let expected_tag = hmac_sha256(key.as_bytes(), wanted.as_str().as_bytes());
    hmac_sha256_verify(key.as_bytes(), given.as_str().as_bytes(), expected_tag.as_slice())
}

/// A new account's address is not verified yet.
pub fn new_account_email_verified() -> (result: bool)
    ensures
        !result,
{
    false
}

/// An account by value.
pub struct AccountView {
    pub name: Seq<char>,
    pub email: Seq<char>,
    pub account_type: Seq<char>,
    pub hidden: bool,
    pub banned: bool,
    pub verified: bool,
    pub change_password: bool,
}

/// An account as it is created.
pub struct NewAccount {
    pub name: String,
    pub email: String,
    pub account_type: &'static str,
    pub hidden: bool,
    pub banned: bool,
    pub verified: bool,
    pub change_password: bool,
}

impl View for NewAccount {
    type V = AccountView;

    open spec fn view(&self) -> AccountView {
        AccountView {
            name: self.name@,
            email: self.email@,
            account_type: self.account_type@,
            hidden: self.hidden,
            banned: self.banned,
            verified: self.verified,
            change_password: self.change_password,
        }
    }
}

/// The account of the first administrator: hidden, and like any new account neither banned nor
/// verified nor with a password that has to be changed.
pub open spec fn administrator(name: Seq<char>, email: Seq<char>) -> AccountView {
    AccountView {
        name,
        email,
        account_type: "admin"@,
        hidden: true,
        banned: false,
        verified: false,
        change_password: false,
    }
}

pub fn administrator_account(name: String, email: String) -> (result: NewAccount)
    ensures
        result@ == administrator(name@, email@),
{
    NewAccount {
        name,
        email,
        account_type: "admin",
        hidden: true,
        banned: false,
        verified: new_account_email_verified(),
        change_password: false,
    }
}

/// The account of a player who has registered.
pub open spec fn player(name: Seq<char>, email: Seq<char>) -> AccountView {
    AccountView { account_type: "user"@, hidden: false, ..administrator(name, email) }
}

pub fn player_account(name: String, email: String) -> (result: NewAccount)
    ensures
        result@ == player(name@, email@),
{
    NewAccount {
        name,
        email,
        account_type: "user",
        hidden: false,
        banned: false,
        verified: new_account_email_verified(),
        change_password: false,
    }
}

pub open spec fn ctf_name_of(value: Seq<char>) -> Result<Seq<char>, Failure> {
    let name = trimmed(value);
    if name.len() == 0 || name.len() > 128 || has_control(name) {
        Err(
            bad(
                "CTF name must be between 1 and 128 characters and contain no control characters"@,
            ),
        )
    } else {
        Ok(name)
    }
}

pub fn normalize_ctf_name(value: &str) -> (result: Result<String, ApiError>)
    ensures
        shown_text(result) == ctf_name_of(value@),
{
    let name = trim(value);
    let length: usize = chars_of(name.as_str()).len();
    if length == 0 || length > 128 || contains_control(name.as_str()) {
        return Err(
            ApiError::bad_request(
                "CTF name must be between 1 and 128 characters and contain no control characters",
            ),
        );
    }
    Ok(name)
}

pub open spec fn or_default(value: Option<Seq<char>>, default: Seq<char>) -> Seq<char> {
    match value {
        Some(text) => text,
        None => default,
    }
}

pub fn setup_ctf_name(value: Option<&str>) -> (result: Result<String, ApiError>)
    ensures
        shown_text(result) == ctf_name_of(or_default(str_of(value), "CTFZone"@)),
{
    match value {
        Some(text) => normalize_ctf_name(text),
        None => normalize_ctf_name("CTFZone"),
    }
}

/// A slug: lower-case letters and digits, behind the first also hyphens and underscores.
pub open spec fn is_slug(value: Seq<char>) -> bool {
    &&& 0 < value.len() <= 64
    &&& is_lower(value[0]) || is_digit(value[0])
    &&& forall|i: int| 0 <= i < value.len() ==> slug_char(#[trigger] value[i])
}

pub open spec fn slug_char(c: char) -> bool {
    is_lower(c) || is_digit(c) || c == '_' || c == '-'
}

fn is_slug_char(c: char) -> (result: bool)
    ensures
        result == slug_char(c),
{
    lower(c) || digit(c) || c == '_' || c == '-'
}

fn slug_ok(value: &str) -> (result: bool)
    ensures
        result == is_slug(value@),
{
    let chars = chars_of(value);
    if chars.len() == 0 || chars.len() > 64 || !(lower(chars[0]) || digit(chars[0])) {
        return false;
    }
    let mut i: usize = 0;
    while i < chars.len()
        invariant
            i <= chars.len(),
            chars@ == value@,
            forall|j: int| 0 <= j < i ==> slug_char(#[trigger] value@[j]),
        decreases chars.len() - i,
    {
        if !is_slug_char(chars[i]) {
            assert(!slug_char(value@[i as int]));
            return false;
        }
        i += 1;
    }
    true
}

pub fn validate_player_frontend(value: &str) -> (result: Result<(), ApiError>)
    ensures
        shown(result) == (if is_slug(value@) {
            Ok::<(), Failure>(())
        } else {
            Err(bad("Player frontend must be a lowercase slug of at most 64 characters"@))
        }),
{
    if slug_ok(value) {
        Ok(())
    } else {
        Err(
            ApiError::bad_request(
                "Player frontend must be a lowercase slug of at most 64 characters",
            ),
        )
    }
}

pub open spec fn frontend_of(value: Option<Seq<char>>) -> Result<Seq<char>, Failure> {
    let slug = or_default(value, "terminal"@);
    if is_slug(slug) {
        Ok(slug)
    } else {
        Err(bad("Player frontend must be a lowercase slug of at most 64 characters"@))
    }
}

pub fn setup_player_frontend(value: Option<&str>) -> (result: Result<String, ApiError>)
    ensures
        shown_text(result) == frontend_of(str_of(value)),
{
    let slug = match value {
        Some(text) => text,
        None => "terminal",
    };
    match validate_player_frontend(slug) {
        Ok(_) => Ok(slug.to_owned()),
        Err(error) => Err(error),
    }
}

/// A path on this site: it starts with one slash, has no backslash and no control character.
pub open spec fn is_local_path(value: Seq<char>) -> bool {
    &&& "/"@.is_prefix_of(value)
    &&& !"//"@.is_prefix_of(value)
    &&& forall|i: int| 0 <= i < value.len() ==> #[trigger] value[i] != '\\' && !is_control(value[i])
    &&& byte_length(value) <= 2048
}

pub fn safe_local_redirect(value: &str) -> (result: bool)
    ensures
        result == is_local_path(value@),
{
    if !has_prefix(value, "/") || has_prefix(value, "//") || byte_len(value) > 2048 {
        return false;
    }
    let chars = chars_of(value);
    let mut i: usize = 0;
    while i < chars.len()
        invariant
            i <= chars.len(),
            chars@ == value@,
            forall|j: int|
                0 <= j < i ==> #[trigger] value@[j] != '\\' && !is_control(value@[j]),
        decreases chars.len() - i,
    {
        if chars[i] == '\\' || control(chars[i]) {
            assert(!(value@[i as int] != '\\' && !is_control(value@[i as int])));
            return false;
        }
        i += 1;
    }
    true
}

/// The address of the client: the first of those that the proxy names, where it is plausible.
pub open spec fn forwarded_ip(header: Option<Seq<char>>) -> Seq<char> {
    match header {
        Some(value) => {
            let first = trimmed(crate::text::split(value, ',')[0]);
            if first.len() > 0 && byte_length(first) <= 46 {
                first
            } else {
                "unknown"@
            }
        },
        None => "unknown"@,
    }
}

pub fn client_ip(forwarded_for: Option<&str>) -> (result: String)
    ensures
        result@ == forwarded_ip(str_of(forwarded_for)),
{
    match forwarded_for {
        Some(value) => {
            let parts = crate::text::split_on(value, ',');
            assert(crate::text::views(parts@).len() > 0);
            assert(crate::text::views(parts@)[0] == parts@[0]@);
            let first = trim(parts[0].as_str());
            if !first.as_str().is_empty() && byte_len(first.as_str()) <= 46 {
                first
            } else {
                "unknown".to_owned()
            }
        },
        None => "unknown".to_owned(),
    }
}

/// The form that sets up the site.
pub struct SetupForm {
    pub name: String,
    pub email: String,
    pub password: String,
    pub setup_token: String,
    pub ctf_name: Option<String>,
    pub player_frontend: Option<String>,
}

/// What has been found out about a request to set up the site.
#[derive(Clone, Copy, Debug)]
pub struct SetupFacts {
    pub within_rate: Option<bool>,
    pub complete: Option<bool>,
    pub duplicate: Option<bool>,
}

#[derive(Clone, Copy, Debug, PartialEq, Eq, Structural)]
pub enum SetupRead {
    RateLimit { limit: u32, seconds: u64 },
    /// Takes the lock that lets one setup run at a time and reads whether one is complete.
    Complete,
}

/// The administrator and the site that a setup creates.
pub struct NewSite {
    pub administrator: NewAccount,
    /// The administrator's password, which is stored encoded.
    pub password: String,
    pub ctf_name: String,
    pub player_frontend: String,
}

pub enum SetupStep {
    Read(SetupRead),
    /// Reads whether an account has the name or the address, in letters of either case.
    Duplicate { name: String, email: String },
    /// Writes the account, a session of it and the settings.
    Create(NewSite),
}

/// The course of a setup.
pub enum SetupCourse {
    Read(SetupRead),
    Duplicate(Seq<char>, Seq<char>),
    Create(AccountView, Seq<char>, Seq<char>, Seq<char>),
}

pub open spec fn shown_setup(result: Result<SetupStep, ApiError>) -> Result<SetupCourse, Failure> {
    match result {
        Ok(SetupStep::Read(read)) => Ok(SetupCourse::Read(read)),
        Ok(SetupStep::Duplicate { name, email }) => Ok(SetupCourse::Duplicate(name@, email@)),
        Ok(SetupStep::Create(site)) => Ok(
            SetupCourse::Create(
                site.administrator@,
                site.password@,
                site.ctf_name@,
                site.player_frontend@,
            ),
        ),
        Err(error) => Err(error@),
    }
}

/// A name of 1 to 128 bytes that is no address, beside an address that is one.
pub open spec fn identity_ok(name: Seq<char>, email: Seq<char>) -> bool {
    0 < name.len() && byte_length(name) <= 128 && !is_email(name) && is_email(email)
}

pub fn check_identity(name: &str, email: &str) -> (result: bool)
    ensures
        result == identity_ok(name@, email@),
{
    !name.is_empty() && byte_len(name) <= 128 && !valid_email(name) && valid_email(email)
}

pub open spec fn setup_course(
    expected_token: Seq<char>,
    form: SetupForm,
    facts: SetupFacts,
) -> Result<SetupCourse, Failure> {
    let name = trimmed(form.name@);
    let email = lowercase(trimmed(form.email@));
    match facts.within_rate {
        None => Ok(SetupCourse::Read(SetupRead::RateLimit { limit: 5, seconds: 5 })),
        Some(within) => if !within {
            Err(too_many("Too many setup attempts; try again shortly"@))
        } else if setup_token_tag(expected_token) != setup_token_tag(form.setup_token@) {
            Err(forbidden("Setup authorization failed"@))
        } else {
            match ctf_name_of(or_default(text_of(form.ctf_name), "CTFZone"@)) {
                Err(failure) => Err(failure),
                Ok(ctf_name) => match frontend_of(text_of(form.player_frontend)) {
                    Err(failure) => Err(failure),
                    Ok(frontend) => if !identity_ok(name, email) || form.password@.len() == 0
                        || byte_length(form.password@) > 128 {
                        Err(bad("A valid name, email address, and password are required"@))
                    } else {
                        match (facts.complete, facts.duplicate) {
                            (None, _) => Ok(SetupCourse::Read(SetupRead::Complete)),
                            (Some(true), _) => Err(
                                conflict("CTFZone setup has already been completed"@),
                            ),
                            (Some(false), None) => Ok(SetupCourse::Duplicate(name, email)),
                            (Some(false), Some(true)) => Err(
                                conflict(
                                    "The setup administrator name or email is already in use"@,
                                ),
                            ),
                            (Some(false), Some(false)) => Ok(
                                SetupCourse::Create(
                                    administrator(name, email),
                                    form.password@,
                                    ctf_name,
                                    frontend,
                                ),
                            ),
                        }
                    },
                },
            }
        },
    }
}

fn as_str_option(value: &Option<String>) -> (result: Option<&str>)
    ensures
        str_of(result) == text_of(*value),
{
    match value {
        Some(text) => Some(text.as_str()),
        None => None,
    }
}

/// The next step of a setup.
pub fn setup(expected_token: &str, form: &SetupForm, facts: &SetupFacts) -> (result: Result<
    SetupStep,
    ApiError,
>)
    ensures
        shown_setup(result) == setup_course(expected_token@, *form, *facts),
{
    match facts.within_rate {
        None => return Ok(SetupStep::Read(SetupRead::RateLimit { limit: 5, seconds: 5 })),
        Some(within) => {
            if !within {
                return Err(
                    ApiError::too_many_requests("Too many setup attempts; try again shortly"),
                );
            }
        },
    }
    if let Err(error) = require_setup_token(expected_token, form.setup_token.as_str()) {
        return Err(error);
    }
    let name = trim(form.name.as_str());
    let email = to_lowercase_ascii(trim(form.email.as_str()).as_str());
    let ctf_name = match setup_ctf_name(as_str_option(&form.ctf_name)) {
        Ok(text) => text,
        Err(error) => return Err(error),
    };
    let player_frontend = match setup_player_frontend(as_str_option(&form.player_frontend)) {
        Ok(text) => text,
        Err(error) => return Err(error),
    };
    if !check_identity(name.as_str(), email.as_str()) || form.password.as_str().is_empty()
        || byte_len(form.password.as_str()) > 128 {
        return Err(
            ApiError::bad_request("A valid name, email address, and password are required"),
        );
    }
    match facts.complete {
        None => return Ok(SetupStep::Read(SetupRead::Complete)),
        Some(complete) => {
            if complete {
                return Err(ApiError::conflict("CTFZone setup has already been completed"));
            }
        },
    }
    match facts.duplicate {
        None => Ok(SetupStep::Duplicate { name, email }),
        Some(duplicate) => if duplicate {
            Err(ApiError::conflict("The setup administrator name or email is already in use"))
        } else {
            Ok(
                SetupStep::Create(
                    NewSite {
                        administrator: administrator_account(name, email),
                        password: form.password.clone(),
                        ctf_name,
                        player_frontend,
                    },
                ),
            )
        },
    }
}

// ---------------------------------------------------------------------------
// Signing in
// ---------------------------------------------------------------------------

/// An account as signing in reads it.
#[derive(Clone, Copy, Debug)]
pub struct LoginUser {
    pub banned: bool,
    pub team_banned: bool,
    pub change_password: bool,
    pub has_password: bool,
}

#[derive(Clone, Copy, Debug)]
pub struct LoginFacts {
    pub within_rate: Option<bool>,
    /// The account of that name or address, once it has been looked for.
    pub user: Option<Option<LoginUser>>,
    pub password_matches: Option<bool>,
}

#[derive(Clone, Copy, Debug, PartialEq, Eq, Structural)]
pub enum LoginRead {
    RateLimit { limit: u32, seconds: u64 },
    Password,
}

/// Why a visitor is not signed in.
#[derive(Clone, Copy, Debug, PartialEq, Eq, Structural)]
pub enum LoginRefusal {
    InvalidCredentials,
    AccountDisabled,
    PasswordChangeRequired,
    ExternalAccount,
}

pub enum LoginStep {
    Read(LoginRead),
    /// Looks for the account of that address, in letters of either case, or that name.
    FindUser { identity: String },
    Refuse(LoginRefusal),
    /// Ends the session that the request came with and starts a new one.
    SignIn,
}

/// The course of signing in, by value.
pub enum LoginCourse {
    Read(LoginRead),
    FindUser(Seq<char>),
    Refuse(LoginRefusal),
    SignIn,
}

pub open spec fn shown_login(result: Result<LoginStep, ApiError>) -> Result<LoginCourse, Failure> {
    match result {
        Ok(LoginStep::Read(read)) => Ok(LoginCourse::Read(read)),
        Ok(LoginStep::FindUser { identity }) => Ok(LoginCourse::FindUser(identity@)),
        Ok(LoginStep::Refuse(refusal)) => Ok(LoginCourse::Refuse(refusal)),
        Ok(LoginStep::SignIn) => Ok(LoginCourse::SignIn),
        Err(error) => Err(error@),
    }
}

pub open spec fn login_course(identity: Seq<char>, password: Seq<char>, facts: LoginFacts) -> Result<
    LoginCourse,
    Failure,
> {
    match facts.within_rate {
        None => Ok(LoginCourse::Read(LoginRead::RateLimit { limit: 10, seconds: 5 })),
        Some(within) => if !within {
            Err(too_many("Too many login attempts; try again shortly"@))
        } else if trimmed(identity).len() == 0 || byte_length(password) > 128 {
            Ok(LoginCourse::Refuse(LoginRefusal::InvalidCredentials))
        } else {
            Ok(
                match facts.user {
                    None => LoginCourse::FindUser(trimmed(identity)),
                    Some(None) => LoginCourse::Refuse(LoginRefusal::InvalidCredentials),
                    Some(Some(user)) => if user.banned || user.team_banned {
                        LoginCourse::Refuse(LoginRefusal::AccountDisabled)
                    } else if user.change_password {
                        LoginCourse::Refuse(LoginRefusal::PasswordChangeRequired)
                    } else if !user.has_password {
                        LoginCourse::Refuse(LoginRefusal::ExternalAccount)
                    } else {
                        match facts.password_matches {
                            None => LoginCourse::Read(LoginRead::Password),
                            Some(false) => LoginCourse::Refuse(LoginRefusal::InvalidCredentials),
                            Some(true) => LoginCourse::SignIn,
                        }
                    },
                },
            )
        },
    }
}

/// The next step of signing in.
pub fn login(identity: &str, password: &str, facts: &LoginFacts) -> (result: Result<
    LoginStep,
    ApiError,
>)
    ensures
        shown_login(result) == login_course(identity@, password@, *facts),
{
    match facts.within_rate {
        None => return Ok(LoginStep::Read(LoginRead::RateLimit { limit: 10, seconds: 5 })),
        Some(within) => {
            if !within {
                return Err(
                    ApiError::too_many_requests("Too many login attempts; try again shortly"),
                );
            }
        },
    }
    let name = trim(identity);
    if name.as_str().is_empty() || byte_len(password) > 128 {
        return Ok(LoginStep::Refuse(LoginRefusal::InvalidCredentials));
    }
    let user = match facts.user {
        None => return Ok(LoginStep::FindUser { identity: name }),
        Some(None) => return Ok(LoginStep::Refuse(LoginRefusal::InvalidCredentials)),
        Some(Some(user)) => user,
    };
    if user.banned || user.team_banned {
        return Ok(LoginStep::Refuse(LoginRefusal::AccountDisabled));
    }
    if user.change_password {
        return Ok(LoginStep::Refuse(LoginRefusal::PasswordChangeRequired));
    }
    if !user.has_password {
        return Ok(LoginStep::Refuse(LoginRefusal::ExternalAccount));
    }
    match facts.password_matches {
        None => Ok(LoginStep::Read(LoginRead::Password)),
        Some(matches) => if matches {
            Ok(LoginStep::SignIn)
        } else {
            Ok(LoginStep::Refuse(LoginRefusal::InvalidCredentials))
        },
    }
}

pub open spec fn login_word(refusal: LoginRefusal) -> Seq<char> {
    match refusal {
        LoginRefusal::InvalidCredentials => "invalid_credentials"@,
        LoginRefusal::AccountDisabled => "account_disabled"@,
        LoginRefusal::PasswordChangeRequired => "password_change_required"@,
        LoginRefusal::ExternalAccount => "external_account"@,
    }
}

/// The code that the visitor is told.
pub fn login_error(refusal: LoginRefusal) -> (result: String)
    ensures
        result@ == login_word(refusal),
{
    match refusal {
        LoginRefusal::InvalidCredentials => "invalid_credentials".to_owned(),
        LoginRefusal::AccountDisabled => "account_disabled".to_owned(),
        LoginRefusal::PasswordChangeRequired => "password_change_required".to_owned(),
        LoginRefusal::ExternalAccount => "external_account".to_owned(),
    }
}

/// Where a visitor goes after signing in: to the path that was asked for, if it is one of this
/// site.
pub fn login_destination(next: Option<&str>) -> (result: String)
    ensures
        result@ == (match str_of(next) {
            Some(path) if is_local_path(path) => path,
            _ => "/challenges"@,
        }),
{
    match next {
        Some(path) => if safe_local_redirect(path) {
            path.to_owned()
        } else {
            "/challenges".to_owned()
        },
        None => "/challenges".to_owned(),
    }
}

/// The session that a header names, where it has the form of one.
pub open spec fn header_session(header: Option<Seq<char>>) -> Option<Seq<char>> {
    match header {
        Some(value) if crate::uuids::uuid_value(value) is Some => Some(value),
        _ => None,
    }
}

pub fn session_id_from_headers(session_header: Option<&str>) -> (result: Option<String>)
    ensures
        text_of(result) == header_session(str_of(session_header)),
{
    match session_header {
        Some(value) => if crate::uuids::parse_uuid(value).is_some() {
            Some(value.to_owned())
        } else {
            None
        },
        None => None,
    }
}

/// Nobody signs in to an account that is banned, whose team is banned, or whose password has to be
/// changed, and nobody without the right password.
pub proof fn law_signing_in_is_earned(identity: Seq<char>, password: Seq<char>, facts: LoginFacts)
    requires
        login_course(identity, password, facts) == Ok::<LoginCourse, Failure>(LoginCourse::SignIn),
    ensures
        facts.within_rate == Some(true),
        facts.password_matches == Some(true),
        facts.user matches Some(Some(user)) && !user.banned && !user.team_banned
            && !user.change_password && user.has_password,
{
}

/// A site is set up once: where a setup is complete, no other creates anything.
pub proof fn law_setup_happens_once(expected_token: Seq<char>, form: SetupForm, facts: SetupFacts)
    requires
        facts.complete == Some(true),
    ensures
        !(setup_course(expected_token, form, facts) matches Ok(SetupCourse::Create(..))),
{
}

/// Whoever sets up the site has given a token with the tag of the expected one.
pub proof fn law_setup_is_authorized(expected_token: Seq<char>, form: SetupForm, facts: SetupFacts)
    requires
        setup_course(expected_token, form, facts) matches Ok(SetupCourse::Create(..)),
    ensures
        setup_token_tag(expected_token) == setup_token_tag(form.setup_token@),
        facts.complete == Some(false),
        facts.duplicate == Some(false),
{
}

/// A path that is safe to go to never names another host.
pub proof fn law_local_paths_stay_here(value: Seq<char>)
    requires
        is_local_path(value),
    ensures
        value[0] == '/',
        value.len() > 1 ==> value[1] != '/' && value[1] != '\\',
{
    reveal_strlit("/");
    reveal_strlit("//");
    assert(value.subrange(0, 1)[0] == value[0]);
    if value.len() > 1 && value[1] == '/' {
        assert(value.subrange(0, 2) =~= "//"@);
    }
}


/// The session that a sign-in ends in, and where the browser goes.
pub struct SessionData {
    pub session_id: String,
    pub redirect: String,
}

pub fn session_response(session_id: String, redirect: &str) -> (result: Success<SessionData>)
    ensures
        result.success,
        result.data.session_id@ == session_id@,
        result.data.redirect@ == redirect@,
{
    Success::new(SessionData { session_id, redirect: redirect.to_owned() })
}


pub open spec fn setting_views(settings: Seq<(&'static str, String)>) -> Seq<
    (Seq<char>, Seq<char>),
> {
    settings.map_values(|setting: (&'static str, String)| (setting.0@, setting.1@))
}

/// The settings that a new site starts with; the last one marks the setup as complete.
pub open spec fn first_settings(ctf_name: Seq<char>, player_frontend: Seq<char>) -> Seq<
    (Seq<char>, Seq<char>),
> {
    seq![
        ("ctf_name"@, ctf_name),
        ("player_frontend"@, player_frontend),
        ("ctf_description"@, ""@),
        ("user_mode"@, "users"@),
        ("num_users"@, "0"@),
        ("password_min_length"@, "0"@),
        ("name_changes"@, "true"@),
        ("team_creation"@, "true"@),
        ("team_size"@, "0"@),
        ("num_teams"@, "0"@),
        ("team_disbanding"@, "inactive_only"@),
        ("challenge_visibility"@, "private"@),
        ("score_visibility"@, "public"@),
        ("account_visibility"@, "public"@),
        ("registration_visibility"@, "public"@),
        ("registration_access_mode"@, "open"@),
        ("verify_emails"@, "false"@),
        ("paused"@, "false"@),
        ("start"@, ""@),
        ("end"@, ""@),
        ("freeze"@, ""@),
        ("setup"@, "true"@),
    ]
}

pub fn initial_settings(site: &NewSite) -> (result: Vec<(&'static str, String)>)
    ensures
        setting_views(result@) == first_settings(site.ctf_name@, site.player_frontend@),
{
    let settings: Vec<(&'static str, String)> = vec![
        ("ctf_name", site.ctf_name.clone()),
        ("player_frontend", site.player_frontend.clone()),
        ("ctf_description", "".to_owned()),
        ("user_mode", "users".to_owned()),
        ("num_users", "0".to_owned()),
        ("password_min_length", "0".to_owned()),
        ("name_changes", "true".to_owned()),
        ("team_creation", "true".to_owned()),
        ("team_size", "0".to_owned()),
        ("num_teams", "0".to_owned()),
        ("team_disbanding", "inactive_only".to_owned()),
        ("challenge_visibility", "private".to_owned()),
        ("score_visibility", "public".to_owned()),
        ("account_visibility", "public".to_owned()),
        ("registration_visibility", "public".to_owned()),
        ("registration_access_mode", "open".to_owned()),
        ("verify_emails", "false".to_owned()),
        ("paused", "false".to_owned()),
        ("start", "".to_owned()),
        ("end", "".to_owned()),
        ("freeze", "".to_owned()),
        ("setup", "true".to_owned()),
    ];
    assert(setting_views(settings@) =~= first_settings(site.ctf_name@, site.player_frontend@));
    settings
}

// ---------------------------------------------------------------------------
// The records that a setup or a registration reads and changes
// ---------------------------------------------------------------------------

/// The settings by their keys, the accounts by their numbers, and whose each session is.
#[verifier::ext_equal]
pub struct SiteRecords {
    pub settings: Map<Seq<char>, Seq<char>>,
    pub accounts: Map<int, AccountView>,
    pub sessions: Map<Seq<char>, int>,
}

/// Settings after some have been written, one after the other.
pub open spec fn with_settings(
    settings: Map<Seq<char>, Seq<char>>,
    written: Seq<(Seq<char>, Seq<char>)>,
) -> Map<Seq<char>, Seq<char>>
    decreases written.len(),
{
    if written.len() == 0 {
        settings
    } else {
        with_settings(settings, written.drop_last()).insert(written.last().0, written.last().1)
    }
}

impl SiteRecords {
    /// A setup has left its marker.
    pub open spec fn complete(self) -> bool {
        self.settings.contains_key("setup"@)
    }

    /// An account has the name or the address.
    pub open spec fn taken(self, name: Seq<char>, email: Seq<char>) -> bool {
        exists|id: int| #[trigger]
            self.accounts.contains_key(id) && (self.accounts[id].name == name || lowercase(
                self.accounts[id].email,
            ) == lowercase(email))
    }

    /// One account more, and one session of it.
    pub open spec fn with_account(self, id: int, account: AccountView, session: Seq<char>) -> Self {
        SiteRecords {
            settings: self.settings,
            accounts: self.accounts.insert(id, account),
            sessions: self.sessions.insert(session, id),
        }
    }

    /// What is known of a setup is what the records hold.
    pub open spec fn agree(self, form: SetupForm, facts: SetupFacts) -> bool {
        &&& facts.complete matches Some(complete) ==> complete == self.complete()
        &&& facts.duplicate matches Some(duplicate) ==> duplicate == self.taken(
            trimmed(form.name@),
            lowercase(trimmed(form.email@)),
        )
    }

    /// The records after a step of a setup, where a new account would get the number and a new
    /// session the identifier: they change only where the site is created.
    pub open spec fn after_setup(
        self,
        course: Result<SetupCourse, Failure>,
        id: int,
        session: Seq<char>,
    ) -> Self {
        match course {
            Ok(SetupCourse::Create(account, _, ctf_name, player_frontend)) => SiteRecords {
                settings: with_settings(self.settings, first_settings(ctf_name, player_frontend)),
                ..self.with_account(id, account, session)
            },
            _ => self,
        }
    }
}

/// A setup succeeds only where none was complete and the token has the tag of the expected one. It
/// leaves the setup complete, exactly one account more, which is an unverified administrator's with
/// the name and address of the form, and exactly one session more, which is that account's. Where a
/// setup was complete, or where it fails, nothing changes.
pub proof fn law_setup_creates_one_administrator(
    records: SiteRecords,
    expected_token: Seq<char>,
    form: SetupForm,
    facts: SetupFacts,
    id: int,
    session: Seq<char>,
)
    requires
        records.agree(form, facts),
        !records.accounts.contains_key(id),
        !records.sessions.contains_key(session),
    ensures
        ({
            let course = setup_course(expected_token, form, facts);
            let after = records.after_setup(course, id, session);
            &&& course matches Ok(SetupCourse::Create(..)) ==> {
                &&& !records.complete()
                &&& setup_token_tag(expected_token) == setup_token_tag(form.setup_token@)
                &&& !records.taken(trimmed(form.name@), lowercase(trimmed(form.email@)))
                &&& after.complete()
                &&& after.accounts.remove(id) == records.accounts
                &&& after.accounts.contains_key(id)
                &&& after.accounts[id] == administrator(
                    trimmed(form.name@),
                    lowercase(trimmed(form.email@)),
                )
                &&& after.accounts[id].account_type == "admin"@ && !after.accounts[id].verified
                &&& after.sessions.remove(session) == records.sessions
                &&& after.sessions.contains_key(session) && after.sessions[session] == id
            }
            &&& !(course matches Ok(SetupCourse::Create(..))) ==> after == records
            &&& records.complete() ==> after == records
            &&& records.complete() && facts.within_rate is Some && facts.complete is Some
                ==> course is Err
        }),
{
    let course = setup_course(expected_token, form, facts);
    if let Ok(SetupCourse::Create(account, _, ctf_name, player_frontend)) = course {
        let written = first_settings(ctf_name, player_frontend);
        let after = records.after_setup(course, id, session);
        assert(written.last() == ("setup"@, "true"@));
        assert(after.settings.contains_key("setup"@));
        assert(after.accounts.remove(id) =~= records.accounts);
        assert(after.sessions.remove(session) =~= records.sessions);
    }
}

// ---------------------------------------------------------------------------
// What is told, and to whom
// ---------------------------------------------------------------------------

/// Whoever gives the name of a usable account with a password, and that password, signs in; each
/// refusal names what stands in the way, and a wrong password is answered as an unknown name is.
pub proof fn law_the_right_password_signs_in(
    identity: Seq<char>,
    password: Seq<char>,
    user: Option<LoginUser>,
    matching: bool,
)
    requires
        trimmed(identity).len() > 0,
        byte_length(password) <= 128,
    ensures
        ({
            let facts = LoginFacts {
                within_rate: Some(true),
                user: Some(user),
                password_matches: Some(matching),
            };
            let course = login_course(identity, password, facts);
            let disabled = user is Some && (user->Some_0.banned || user->Some_0.team_banned);
            let stale = user is Some && !disabled && user->Some_0.change_password;
            let external = user is Some && !disabled && !stale && !user->Some_0.has_password;
            let usable = user is Some && !disabled && !stale && !external;
            &&& course is Ok
            &&& course->Ok_0 == LoginCourse::SignIn <==> usable && matching
            &&& course->Ok_0 == LoginCourse::Refuse(LoginRefusal::InvalidCredentials) <==> user
                is None || (usable && !matching)
            &&& course->Ok_0 == LoginCourse::Refuse(LoginRefusal::AccountDisabled) <==> disabled
            &&& course->Ok_0 == LoginCourse::Refuse(LoginRefusal::PasswordChangeRequired) <==> stale
            &&& course->Ok_0 == LoginCourse::Refuse(LoginRefusal::ExternalAccount) <==> external
        }),
{
}

/// Signing in looks for the name without the white space around it, ten times in five seconds at
/// most, and not at all without a name or with a password of more than 128 bytes.
pub proof fn law_sign_ins_are_limited(identity: Seq<char>, password: Seq<char>, facts: LoginFacts)
    ensures
        ({
            let course = login_course(identity, password, facts);
            &&& facts.within_rate is None ==> course == Ok::<LoginCourse, Failure>(
                LoginCourse::Read(LoginRead::RateLimit { limit: 10, seconds: 5 }),
            )
            &&& facts.within_rate == Some(false) ==> course == Err::<LoginCourse, Failure>(
                too_many("Too many login attempts; try again shortly"@),
            )
            &&& facts.within_rate == Some(true) && (trimmed(identity).len() == 0 || byte_length(
                password,
            ) > 128) ==> course == Ok::<LoginCourse, Failure>(
                LoginCourse::Refuse(LoginRefusal::InvalidCredentials),
            )
            &&& facts.within_rate == Some(true) && trimmed(identity).len() > 0 && byte_length(
                password,
            ) <= 128 && facts.user is None ==> course == Ok::<LoginCourse, Failure>(
                LoginCourse::FindUser(trimmed(identity)),
            )
        }),
{
}

/// A setup with the expected token, a name, an address and a password creates the site where none is
/// there yet and nobody has the name or the address: with the name of the form, or the default one,
/// and an administrator who is hidden and has the password of the form.
pub proof fn law_a_valid_setup_creates_the_site(
    expected_token: Seq<char>,
    form: SetupForm,
    facts: SetupFacts,
)
    requires
        facts.within_rate == Some(true),
        facts.complete is Some,
        facts.duplicate is Some,
    ensures
        ({
            let course = setup_course(expected_token, form, facts);
            let name = trimmed(form.name@);
            let email = lowercase(trimmed(form.email@));
            let title = if form.ctf_name is Some {
                form.ctf_name->Some_0@
            } else {
                "CTFZone"@
            };
            let frontend = if form.player_frontend is Some {
                form.player_frontend->Some_0@
            } else {
                "terminal"@
            };
            let authorized = setup_token_tag(expected_token) == setup_token_tag(form.setup_token@);
            let named = 0 < trimmed(title).len() <= 128 && !has_control(trimmed(title));
            let styled = is_slug(frontend);
            let identified = 0 < name.len() && byte_length(name) <= 128 && !is_email(name)
                && is_email(email) && 0 < form.password@.len() && byte_length(form.password@)
                <= 128;
            &&& course is Ok <==> authorized && named && styled && identified && facts.complete
                == Some(false) && facts.duplicate == Some(false)
            &&& course is Ok ==> (course->Ok_0 matches SetupCourse::Create(
                account,
                password,
                ctf_name,
                player_frontend,
            ) && password == form.password@ && ctf_name == trimmed(title) && player_frontend
                == frontend && account.name == name && account.email == email
                && account.account_type == "admin"@ && account.hidden && !account.banned
                && !account.verified && !account.change_password)
            &&& !authorized ==> course == Err::<SetupCourse, Failure>(
                forbidden("Setup authorization failed"@),
            )
            &&& authorized && named && styled && !identified ==> course == Err::<
                SetupCourse,
                Failure,
            >(bad("A valid name, email address, and password are required"@))
            &&& authorized && named && styled && identified && facts.complete == Some(true)
                ==> course == Err::<SetupCourse, Failure>(
                conflict("CTFZone setup has already been completed"@),
            )
            &&& authorized && named && styled && identified && facts.complete == Some(false)
                && facts.duplicate == Some(true) ==> course == Err::<SetupCourse, Failure>(
                conflict("The setup administrator name or email is already in use"@),
            )
        }),
{
    assert(facts.complete == Some(true) || facts.complete == Some(false));
    assert(facts.duplicate == Some(true) || facts.duplicate == Some(false));
}

/// A player who registers is visible, a user, and neither banned nor verified.
pub proof fn law_players_start_unverified(name: Seq<char>, email: Seq<char>)
    ensures
        player(name, email) == (AccountView {
            name,
            email,
            account_type: "user"@,
            hidden: false,
            banned: false,
            verified: false,
            change_password: false,
        }),
{
}

/// A slug has 1 to 64 characters, small letters, digits, hyphens and underscores, and does not start
/// with one of the last two; the name of a site is kept but for the white space around it.
pub proof fn law_slugs_are_plain(value: Seq<char>)
    ensures
        is_slug(value) <==> 1 <= value.len() <= 64 && value[0] != '-' && value[0] != '_' && (forall|
            i: int,
        |
            0 <= i < value.len() ==> ('a' <= #[trigger] value[i] <= 'z' || '0' <= value[i] <= '9'
                || value[i] == '-' || value[i] == '_')),
        frontend_of(Some(value)) is Ok <==> is_slug(value),
        frontend_of(Some(value)) is Ok ==> frontend_of(Some(value))->Ok_0 == value,
        ctf_name_of(value) is Ok <==> 1 <= trimmed(value).len() <= 128 && !has_control(
            trimmed(value),
        ),
        ctf_name_of(value) is Ok ==> ctf_name_of(value)->Ok_0 == trimmed(value),
{
    if 1 <= value.len() <= 64 && value[0] != '-' && value[0] != '_' && forall|i: int|
        0 <= i < value.len() ==> ('a' <= #[trigger] value[i] <= 'z' || '0' <= value[i] <= '9'
            || value[i] == '-' || value[i] == '_') {
        assert forall|i: int| 0 <= i < value.len() implies slug_char(#[trigger] value[i]) by {}
        assert(slug_char(value[0]));
    }
    if is_slug(value) {
        assert forall|i: int| 0 <= i < value.len() implies ('a' <= #[trigger] value[i] <= 'z' || '0'
            <= value[i] <= '9' || value[i] == '-' || value[i] == '_') by {
            assert(slug_char(value[i]));
        }
    }
}

/// Every path that starts with one slash, of 2048 bytes at most, without backslashes and control
/// characters, is one of this site.
pub proof fn law_plain_paths_are_local(value: Seq<char>)
    requires
        value.len() > 0,
        value[0] == '/',
        value.len() > 1 ==> value[1] != '/',
        !value.contains('\\'),
        !has_control(value),
        byte_length(value) <= 2048,
    ensures
        is_local_path(value),
{
    reveal_strlit("/");
    reveal_strlit("//");
    assert("/"@ =~= value.subrange(0, 1));
    if value.len() > 1 {
        assert("//"@[1] == '/' && value.subrange(0, 2)[1] == value[1]);
    }
    assert forall|i: int| 0 <= i < value.len() implies #[trigger] value[i] != '\\' && !is_control(
        value[i],
    ) by {
        assert(value.contains(value[i]));
        assert(is_control(value[i]) ==> has_control(value));
    }
}

/// The address of a client is what stands before the first comma of the header, without the white
/// space around it, where it has 1 to 46 bytes.
pub proof fn law_clients_are_the_first_address(first: Seq<char>, rest: Seq<char>)
    requires
        !first.contains(','),
    ensures
        forwarded_ip(Some(first + seq![','] + rest)) == forwarded_ip(Some(first)),
        0 < trimmed(first).len() && byte_length(trimmed(first)) <= 46 ==> forwarded_ip(Some(first))
            == trimmed(first),
        trimmed(first).len() == 0 || byte_length(trimmed(first)) > 46 ==> forwarded_ip(Some(first))
            == "unknown"@,
        forwarded_ip(None) == "unknown"@,
{
    let header = first + seq![','] + rest;
    let k = first.len() as int;
    assert(header[k] == ',');
    assert forall|j: int| 0 <= j < k implies header[j] != ',' by {
        assert(header[j] == first[j]);
    }
    crate::text::lemma_first_index(header, ',', k);
    assert(header.take(k) =~= first);
    crate::text::lemma_first_index(first, ',', k);
}

/// A session is named by a header that has the form of one, to the letter.
pub proof fn law_headers_name_sessions(header: Seq<char>)
    ensures
        header_session(None) is None,
        header_session(Some(header)) is Some <==> crate::uuids::uuid_value(header) is Some,
        header_session(Some(header)) is Some ==> header_session(Some(header))->Some_0 == header,
{
}

/// Every refusal to sign in has a word of its own.
pub proof fn law_login_words_differ(refusal: LoginRefusal, other: LoginRefusal)
    requires
        login_word(refusal) == login_word(other),
    ensures
        refusal == other,
{
    reveal_strlit("invalid_credentials");
    reveal_strlit("account_disabled");
    reveal_strlit("password_change_required");
    reveal_strlit("external_account");
    assert("invalid_credentials"@.len() == 19 && "account_disabled"@.len() == 16
        && "password_change_required"@.len() == 24 && "external_account"@.len() == 16);
    assert("account_disabled"@[0] != "external_account"@[0]);
}

/// The settings of a new site hold its name and frontend, and what is written last under a key is
/// what is stored there.
pub proof fn law_new_sites_are_stored(
    settings: Map<Seq<char>, Seq<char>>,
    written: Seq<(Seq<char>, Seq<char>)>,
    key: Seq<char>,
    value: Seq<char>,
)
    ensures
        with_settings(settings, written.push((key, value))) == with_settings(
            settings,
            written,
        ).insert(key, value),
        with_settings(settings, Seq::empty()) == settings,
{
    assert(written.push((key, value)).drop_last() =~= written);
}

/// The tag of a setup token is taken of the whole of it, and that of a registration code of its
/// lower-case form, so that codes are the same in any case.
pub proof fn law_tokens_are_tagged(token: Seq<char>, code: Seq<char>, other: Seq<char>)
    ensures
        setup_token_tag(token) == hmac_sha256_tag(
            encode_utf8("ctfzone/setup-token/constant-time-comparison/v1"@),
            encode_utf8(token),
        ),
        registration_code_tag(code) == hmac_sha256_tag(
            encode_utf8("ctfzone/registration-code/constant-time-comparison/v1"@),
            encode_utf8(lowercase(code)),
        ),
        lowercase(code) == lowercase(other) ==> registration_code_tag(code)
            == registration_code_tag(other),
{
}

} // verus!
