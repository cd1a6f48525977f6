//! Registering an account.
use crate::domains::{domain_allowed, email_domain_allowed};
use crate::error::{conflict, not_found, str_of, text_of, too_many, ApiError, Failure};
use crate::numbers::{
    bounded_value, integer_text, natural_value, parse_i32, parse_i64, parse_u64, to_text,
};
use crate::registration::{
    identity_ok, player, player_account, registration_code_matches, registration_code_tag,
    AccountView, NewAccount, SiteRecords,
};
use crate::text::{
    byte_len, byte_length, chars_of, concat, is_upper, lowercase, same, to_lowercase_ascii,
    to_uppercase_ascii, trim, trimmed, upper, uppercase,
};
use crate::urls::{parse_url, url_parts, UrlParts, UrlView};
use vstd::prelude::*;

verus! {

// ---------------------------------------------------------------------------
// The policy
// ---------------------------------------------------------------------------

/// Who may register.
#[derive(Clone, Copy, Debug, PartialEq, Eq, Structural)]
pub enum AccessMode {
    Open,
    DomainRules,
    AccessCode,
    EmailAllowlist,
}

pub open spec fn access_mode_of(explicit: Option<Seq<char>>) -> AccessMode {
    match explicit {
        Some(word) => if word == "domain_rules"@ {
            AccessMode::DomainRules
        } else if word == "access_code"@ {
            AccessMode::AccessCode
        } else if word == "email_allowlist"@ {
            AccessMode::EmailAllowlist
        } else {
            AccessMode::Open
        },
        None => AccessMode::Open,
    }
}

pub open spec fn mode_word(mode: AccessMode) -> Seq<char> {
    match mode {
        AccessMode::Open => "open"@,
        AccessMode::DomainRules => "domain_rules"@,
        AccessMode::AccessCode => "access_code"@,
        AccessMode::EmailAllowlist => "email_allowlist"@,
    }
}

fn access_mode(explicit: Option<&str>) -> (result: AccessMode)
    ensures
        result == access_mode_of(str_of(explicit)),
{
    match explicit {
        Some(word) => if same(word, "domain_rules") {
            AccessMode::DomainRules
        } else if same(word, "access_code") {
            AccessMode::AccessCode
        } else if same(word, "email_allowlist") {
            AccessMode::EmailAllowlist
        } else {
            AccessMode::Open
        },
        None => AccessMode::Open,
    }
}

/// The mode that is in force: registration is open unless one of the other modes is named.
pub fn effective_registration_access_mode(explicit: Option<&str>) -> (result: &'static str)
    ensures
        result@ == mode_word(access_mode_of(str_of(explicit))),
{
    match access_mode(explicit) {
        AccessMode::Open => "open",
        AccessMode::DomainRules => "domain_rules",
        AccessMode::AccessCode => "access_code",
        AccessMode::EmailAllowlist => "email_allowlist",
    }
}

/// What the configuration says about registration.
pub struct RegistrationPolicy {
    pub registration_closed: bool,
    pub access_mode: AccessMode,
    pub registration_code: String,
    pub domain_whitelist: String,
    pub domain_blacklist: String,
    pub participant_limit: i64,
    pub minimum_password_length: u64,
    pub team_mode: bool,
}

/// The stored value of a key: of several rows the last, and an empty text for a row without one.
pub open spec fn stored(rows: Seq<(String, Option<String>)>, key: Seq<char>) -> Option<Seq<char>>
    decreases rows.len(),
{
    if rows.len() == 0 {
        None
    } else if rows.last().0@ == key {
        Some(
            match rows.last().1 {
                Some(value) => value@,
                None => Seq::empty(),
            },
        )
    } else {
        stored(rows.drop_last(), key)
    }
}

fn stored_value<'a>(rows: &'a Vec<(String, Option<String>)>, key: &str) -> (result: Option<&'a str>)
    ensures
        str_of(result) == stored(rows@, key@),
{
    let mut i: usize = rows.len();
    assert(rows@.take(i as int) =~= rows@);
    while i > 0
        invariant
            i <= rows.len(),
            stored(rows@, key@) == stored(rows@.take(i as int), key@),
        decreases i,
    {
        assert(rows@.take(i as int).last() == rows@[i - 1]);
        assert(rows@.take(i as int).drop_last() =~= rows@.take(i - 1));
        if same(rows[i - 1].0.as_str(), key) {
            return match &rows[i - 1].1 {
                Some(value) => Some(value.as_str()),
                None => {
                    proof {
                        reveal_strlit("");
                        assert(""@ =~= Seq::<char>::empty());
                    }
                    Some("")
                },
            };
        }
        i -= 1;
    }
    None
}

pub open spec fn text_or_empty(value: Option<Seq<char>>) -> Seq<char> {
    match value {
        Some(text) => text,
        None => Seq::empty(),
    }
}

fn owned_or_empty(value: Option<&str>) -> (result: String)
    ensures
        result@ == text_or_empty(str_of(value)),
{
    match value {
        Some(text) => text.to_owned(),
        None => String::new(),
    }
}

/// The policy that the rows of the configuration spell out. A number that cannot be read is zero.
pub fn registration_policy(rows: &Vec<(String, Option<String>)>) -> (result: RegistrationPolicy)
    ensures
        result.registration_closed == (stored(rows@, "registration_visibility"@) == Some(
            "private"@,
        )),
        result.access_mode == access_mode_of(stored(rows@, "registration_access_mode"@)),
        result.registration_code@ == text_or_empty(stored(rows@, "registration_code"@)),
        result.domain_whitelist@ == text_or_empty(stored(rows@, "domain_whitelist"@)),
        result.domain_blacklist@ == text_or_empty(stored(rows@, "domain_blacklist"@)),
        result.participant_limit as int == (match stored(rows@, "num_users"@) {
            Some(text) => match bounded_value(text, i64::MIN as int, i64::MAX as int) {
                Some(number) => number,
                None => 0,
            },
            None => 0,
        }),
        result.minimum_password_length as int == (match stored(rows@, "password_min_length"@) {
            Some(text) => match natural_value(text, u64::MAX as int) {
                Some(number) => number,
                None => 0,
            },
            None => 0,
        }),
        result.team_mode == (stored(rows@, "user_mode"@) == Some("teams"@)),
{
    let participant_limit: i64 = match stored_value(rows, "num_users") {
        Some(text) => match parse_i64(text) {
            Some(number) => number,
            None => 0,
        },
        None => 0,
    };
    let minimum_password_length: u64 = match stored_value(rows, "password_min_length") {
        Some(text) => match parse_u64(text) {
            Some(number) => number,
            None => 0,
        },
        None => 0,
    };
    RegistrationPolicy {
        registration_closed: match stored_value(rows, "registration_visibility") {
            Some(word) => same(word, "private"),
            None => false,
        },
        access_mode: access_mode(stored_value(rows, "registration_access_mode")),
        registration_code: owned_or_empty(stored_value(rows, "registration_code")),
        domain_whitelist: owned_or_empty(stored_value(rows, "domain_whitelist")),
        domain_blacklist: owned_or_empty(stored_value(rows, "domain_blacklist")),
        participant_limit,
        minimum_password_length,
        team_mode: match stored_value(rows, "user_mode") {
            Some(word) => same(word, "teams"),
            None => false,
        },
    }
}

// ---------------------------------------------------------------------------
// The form
// ---------------------------------------------------------------------------

pub type Form = Vec<(String, String)>;

pub open spec fn entry(form: Seq<(String, String)>, key: Seq<char>) -> Option<Seq<char>>
    decreases form.len(),
{
    if form.len() == 0 {
        None
    } else if form[0].0@ == key {
        Some(form[0].1@)
    } else {
        entry(form.drop_first(), key)
    }
}

pub fn form_entry<'a>(form: &'a Form, key: &str) -> (result: Option<&'a str>)
    ensures
        str_of(result) == entry(form@, key@),
{
    let mut i: usize = 0;
    assert(form@.skip(0) =~= form@);
    while i < form.len()
        invariant
            i <= form.len(),
            entry(form@, key@) == entry(form@.skip(i as int), key@),
        decreases form.len() - i,
    {
        if same(form[i].0.as_str(), key) {
            return Some(form[i].1.as_str());
        }
        assert(form@.skip(i as int).drop_first() =~= form@.skip(i + 1));
        i += 1;
    }
    None
}

/// An entry without the white space around it; nothing, where nothing is left.
pub open spec fn filled(form: Seq<(String, String)>, key: Seq<char>) -> Option<Seq<char>> {
    match entry(form, key) {
        Some(text) if trimmed(text).len() > 0 => Some(trimmed(text)),
        _ => None,
    }
}

fn filled_entry(form: &Form, key: &str) -> (result: Option<String>)
    ensures
        text_of(result) == filled(form@, key@),
{
    match form_entry(form, key) {
        Some(text) => {
            let content = trim(text);
            if content.as_str().is_empty() {
                None
            } else {
                Some(content)
            }
        },
        None => None,
    }
}

/// Why a registration is refused.
#[derive(Clone, Copy, Debug, PartialEq, Eq, Structural)]
pub enum RegistrationRefusal {
    InvalidInput,
    InvalidWebsite,
    InvalidAffiliation,
    InvalidCountry,
    InvalidBracket,
    PasswordTooShort,
    InvalidRegistrationCode,
    EmailNotAllowed,
    IdentityTaken,
    RequiredFieldsMissing,
    UserLimitReached,
}

pub open spec fn refusal_word(refusal: RegistrationRefusal) -> Seq<char> {
    match refusal {
        RegistrationRefusal::InvalidInput => "invalid_input"@,
        RegistrationRefusal::InvalidWebsite => "invalid_website"@,
        RegistrationRefusal::InvalidAffiliation => "invalid_affiliation"@,
        RegistrationRefusal::InvalidCountry => "invalid_country"@,
        RegistrationRefusal::InvalidBracket => "invalid_bracket"@,
        RegistrationRefusal::PasswordTooShort => "password_too_short"@,
        RegistrationRefusal::InvalidRegistrationCode => "invalid_registration_code"@,
        RegistrationRefusal::EmailNotAllowed => "email_not_allowed"@,
        RegistrationRefusal::IdentityTaken => "identity_taken"@,
        RegistrationRefusal::RequiredFieldsMissing => "required_fields_missing"@,
        RegistrationRefusal::UserLimitReached => "user_limit_reached"@,
    }
}

/// The code that the visitor is told.
pub fn registration_error(refusal: RegistrationRefusal) -> (result: String)
    ensures
        result@ == refusal_word(refusal),
{
    match refusal {
        RegistrationRefusal::InvalidInput => "invalid_input".to_owned(),
        RegistrationRefusal::InvalidWebsite => "invalid_website".to_owned(),
        RegistrationRefusal::InvalidAffiliation => "invalid_affiliation".to_owned(),
        RegistrationRefusal::InvalidCountry => "invalid_country".to_owned(),
        RegistrationRefusal::InvalidBracket => "invalid_bracket".to_owned(),
        RegistrationRefusal::PasswordTooShort => "password_too_short".to_owned(),
        RegistrationRefusal::InvalidRegistrationCode => "invalid_registration_code".to_owned(),
        RegistrationRefusal::EmailNotAllowed => "email_not_allowed".to_owned(),
        RegistrationRefusal::IdentityTaken => "identity_taken".to_owned(),
        RegistrationRefusal::RequiredFieldsMissing => "required_fields_missing".to_owned(),
        RegistrationRefusal::UserLimitReached => "user_limit_reached".to_owned(),
    }
}

/// A web site: an HTTP or HTTPS address of 128 bytes at most, with `url` as its parts.
pub open spec fn is_website(value: Seq<char>, url: Option<UrlView>) -> bool {
    byte_length(value) <= 128 && (url matches Some(parts) && (parts.0 == "http"@ || parts.0
        == "https"@))
}

pub open spec fn parts_view(url: Option<UrlParts>) -> Option<UrlView> {
    match url {
        Some(parts) => Some(parts@),
        None => None,
    }
}

pub fn website_accepted(value: &str, url: &Option<UrlParts>) -> (result: bool)
    ensures
        result == is_website(value@, parts_view(*url)),
{
    byte_len(value) <= 128 && match url {
        Some(parts) => same(parts.scheme.as_str(), "http") || same(parts.scheme.as_str(), "https"),
        None => false,
    }
}

/// A country code: two capital letters.
pub open spec fn is_country(value: Seq<char>) -> bool {
    value.len() == 2 && is_upper(value[0]) && is_upper(value[1])
}

fn country_ok(value: &str) -> (result: bool)
    ensures
        result == is_country(value@),
{
    let chars = chars_of(value);
    chars.len() == 2 && upper(chars[0]) && upper(chars[1])
}

/// Who registers, as the form tells it.
pub struct Applicant {
    pub name: String,
    pub email: String,
    pub password: String,
    pub website: Option<String>,
    pub affiliation: Option<String>,
    pub country: Option<String>,
    pub bracket_id: Option<i32>,
}

pub type ApplicantView = (
    Seq<char>,
    Seq<char>,
    Seq<char>,
    Option<Seq<char>>,
    Option<Seq<char>>,
    Option<Seq<char>>,
    Option<i32>,
);

impl View for Applicant {
    type V = ApplicantView;

    open spec fn view(&self) -> ApplicantView {
        (
            self.name@,
            self.email@,
            self.password@,
            text_of(self.website),
            text_of(self.affiliation),
            text_of(self.country),
            self.bracket_id,
        )
    }
}

pub open spec fn country_of(form: Seq<(String, String)>) -> Option<Seq<char>> {
    match filled(form, "country"@) {
        Some(text) => Some(uppercase(text)),
        None => None,
    }
}

/// The bracket that is asked for: a positive number.
pub open spec fn bracket_of(form: Seq<(String, String)>) -> Result<Option<i32>, ()> {
    match filled(form, "bracket_id"@) {
        None => Ok(None),
        Some(text) => match bounded_value(text, i32::MIN as int, i32::MAX as int) {
            Some(id) if id > 0 => Ok(Some(id as i32)),
            _ => Err(()),
        },
    }
}

/// The applicant of a form; the first entry that is invalid decides on the refusal.
pub open spec fn applicant_of(form: Seq<(String, String)>) -> Result<
    ApplicantView,
    RegistrationRefusal,
> {
    let name = trimmed(text_or_empty(entry(form, "name"@)));
    let email = lowercase(trimmed(text_or_empty(entry(form, "email"@))));
    let password = trimmed(text_or_empty(entry(form, "password"@)));
    let website = filled(form, "website"@);
    let affiliation = filled(form, "affiliation"@);
    let country = country_of(form);
    if !identity_ok(name, email) || password.len() == 0 || password.len() > 128 {
        Err(RegistrationRefusal::InvalidInput)
    } else if website is Some && !is_website(website->Some_0, url_parts(website->Some_0)) {
        Err(RegistrationRefusal::InvalidWebsite)
    } else if affiliation is Some && byte_length(affiliation->Some_0) > 128 {
        Err(RegistrationRefusal::InvalidAffiliation)
    } else if country is Some && !is_country(country->Some_0) {
        Err(RegistrationRefusal::InvalidCountry)
    } else {
        match bracket_of(form) {
            Err(_) => Err(RegistrationRefusal::InvalidBracket),
            Ok(bracket_id) => Ok(
                (name, email, password, website, affiliation, country, bracket_id),
            ),
        }
    }
}

pub open spec fn shown_applicant(result: Result<Applicant, RegistrationRefusal>) -> Result<
    ApplicantView,
    RegistrationRefusal,
> {
    match result {
        Ok(applicant) => Ok(applicant@),
        Err(refusal) => Err(refusal),
    }
}

pub fn read_applicant(form: &Form) -> (result: Result<Applicant, RegistrationRefusal>)
    ensures
        shown_applicant(result) == applicant_of(form@),
{
    let name = trim(owned_or_empty(form_entry(form, "name")).as_str());
    let email = to_lowercase_ascii(
        trim(owned_or_empty(form_entry(form, "email")).as_str()).as_str(),
    );
    let password = trim(owned_or_empty(form_entry(form, "password")).as_str());
    let password_length: usize = chars_of(password.as_str()).len();
    if !crate::registration::check_identity(name.as_str(), email.as_str()) || password_length == 0
        || password_length > 128 {
        return Err(RegistrationRefusal::InvalidInput);
    }
    let website = filled_entry(form, "website");
    if let Some(value) = &website {
        let url = parse_url(value.as_str());
        if !website_accepted(value.as_str(), &url) {
            return Err(RegistrationRefusal::InvalidWebsite);
        }
    }
    let affiliation = filled_entry(form, "affiliation");
    if let Some(value) = &affiliation {
        if byte_len(value.as_str()) > 128 {
            return Err(RegistrationRefusal::InvalidAffiliation);
        }
    }
    let country = match filled_entry(form, "country") {
        Some(value) => {
            let code = to_uppercase_ascii(value.as_str());
            if !country_ok(code.as_str()) {
                return Err(RegistrationRefusal::InvalidCountry);
            }
            Some(code)
        },
        None => None,
    };
    let bracket_id: Option<i32> = match filled_entry(form, "bracket_id") {
        None => None,
        Some(value) => match parse_i32(value.as_str()) {
            Some(id) => {
                if id <= 0 {
                    return Err(RegistrationRefusal::InvalidBracket);
                }
                Some(id)
            },
            None => return Err(RegistrationRefusal::InvalidBracket),
        },
    };
    Ok(Applicant { name, email, password, website, affiliation, country, bracket_id })
}

// ---------------------------------------------------------------------------
// Additional fields
// ---------------------------------------------------------------------------

/// A field that the organizers ask for.
pub struct FieldDefinition {
    pub id: i32,
    pub required: bool,
    pub boolean: bool,
}

pub enum FieldValue {
    Flag(bool),
    Text(String),
}

/// The value of a field, by value.
pub enum FieldValueView {
    Flag(bool),
    Text(Seq<char>),
}

impl View for FieldValue {
    type V = FieldValueView;

    open spec fn view(&self) -> FieldValueView {
        match self {
            FieldValue::Flag(flag) => FieldValueView::Flag(*flag),
            FieldValue::Text(text) => FieldValueView::Text(text@),
        }
    }
}

/// What the form says for a field.
pub open spec fn field_entry(form: Seq<(String, String)>, id: i32) -> Seq<char> {
    trimmed(text_or_empty(entry(form, "fields["@ + integer_text(id as int) + "]"@)))
}

/// A boolean field is set by anything that is not blank.
pub open spec fn field_value(form: Seq<(String, String)>, field: FieldDefinition) -> (
    i32,
    FieldValueView,
) {
    let text = field_entry(form, field.id);
    (
        field.id,
        if field.boolean {
            FieldValueView::Flag(text.len() > 0)
        } else {
            FieldValueView::Text(text)
        },
    )
}

pub open spec fn field_missing(form: Seq<(String, String)>, field: FieldDefinition) -> bool {
    field.required && field_entry(form, field.id).len() == 0
}

pub open spec fn fields_missing(form: Seq<(String, String)>, fields: Seq<FieldDefinition>) -> bool {
    exists|i: int| 0 <= i < fields.len() && field_missing(form, #[trigger] fields[i])
}

pub open spec fn field_values(form: Seq<(String, String)>, fields: Seq<FieldDefinition>) -> Seq<
    (i32, FieldValueView),
> {
    fields.map_values(|field: FieldDefinition| field_value(form, field))
}

pub open spec fn value_views(values: Seq<(i32, FieldValue)>) -> Seq<(i32, FieldValueView)> {
    values.map_values(|value: (i32, FieldValue)| (value.0, value.1@))
}

/// The values of all fields, unless a required one is missing.
pub fn registration_fields(form: &Form, fields: &Vec<FieldDefinition>) -> (result: Option<
    Vec<(i32, FieldValue)>,
>)
    ensures
        result is None <==> fields_missing(form@, fields@),
        result matches Some(values) ==> value_views(values@) == field_values(form@, fields@),
{
    let mut values: Vec<(i32, FieldValue)> = Vec::new();
    let mut i: usize = 0;
    while i < fields.len()
        invariant
            i <= fields.len(),
            values@.len() == i,
            forall|j: int| 0 <= j < i ==> !field_missing(form@, #[trigger] fields@[j]),
            forall|j: int|
                0 <= j < i ==> value_views(values@)[j] == field_value(form@, #[trigger] fields@[j]),
        decreases fields.len() - i,
    {
        let field = &fields[i];
        let number = to_text(field.id as i64);
        let start = concat("fields[", number.as_str());
        let key = concat(start.as_str(), "]");
        let text = trim(owned_or_empty(form_entry(form, key.as_str())).as_str());
        if field.required && text.as_str().is_empty() {
            assert(field_missing(form@, fields@[i as int]));
            return None;
        }
        let ghost before = values@;
        if field.boolean {
            values.push((field.id, FieldValue::Flag(!text.as_str().is_empty())));
        } else {
            values.push((field.id, FieldValue::Text(text)));
        }
        proof {
            assert forall|j: int| 0 <= j < i + 1 implies value_views(values@)[j] == field_value(
                form@,
                #[trigger] fields@[j],
            ) by {
                if j < i {
                    assert(value_views(before)[j] == field_value(form@, fields@[j]));
                }
            }
        }
        i += 1;
    }
    assert(value_views(values@) =~= field_values(form@, fields@));
    Some(values)
}

// ---------------------------------------------------------------------------
// The course of a registration
// ---------------------------------------------------------------------------

/// All that is known of a registration. What has not been read yet is `None`.
pub struct RegisterFacts {
    pub setup_complete: Option<bool>,
    pub within_rate: Option<bool>,
    pub policy: Option<RegistrationPolicy>,
    pub allowlisted: Option<bool>,
    pub duplicate: Option<bool>,
    /// Whether the bracket is one for players; where none is asked for, whether there is none.
    pub bracket_ok: Option<bool>,
    pub fields: Option<Vec<FieldDefinition>>,
    pub password_encoded: bool,
    pub participants: Option<i64>,
}

#[derive(Clone, Copy, Debug, PartialEq, Eq, Structural)]
pub enum RegisterRead {
    SetupComplete,
    RateLimit { limit: u32, seconds: u64 },
    /// Takes the shared lock on the configuration and reads the policy.
    Policy,
    Bracket { id: Option<i32> },
    Fields,
    /// Takes the lock on the number of participants and counts them.
    Participants,
}

pub enum RegisterStep {
    Read(RegisterRead),
    /// Locks the address on the list of those that may register.
    Allowlist { email: String },
    /// Reads whether an account has the name or the address, in letters of either case.
    Duplicate { name: String, email: String },
    /// Encodes the password under which the account is stored.
    EncodePassword { password: String },
    Refuse(RegistrationRefusal),
    /// Writes the account with the applicant's particulars and fields, and a session of it.
    Create {
        account: NewAccount,
        applicant: Applicant,
        values: Vec<(i32, FieldValue)>,
        team_mode: bool,
    },
}

/// The course of a registration, by value.
pub enum RegisterCourse {
    Read(RegisterRead),
    Allowlist(Seq<char>),
    Duplicate(Seq<char>, Seq<char>),
    EncodePassword(Seq<char>),
    Refuse(RegistrationRefusal),
    Create(AccountView, ApplicantView, Seq<(i32, FieldValueView)>, bool),
}

pub open spec fn shown_register(result: Result<RegisterStep, ApiError>) -> Result<
    RegisterCourse,
    Failure,
> {
    match result {
        Ok(RegisterStep::Read(read)) => Ok(RegisterCourse::Read(read)),
        Ok(RegisterStep::Refuse(refusal)) => Ok(RegisterCourse::Refuse(refusal)),
        Ok(RegisterStep::Allowlist { email }) => Ok(RegisterCourse::Allowlist(email@)),
        Ok(RegisterStep::Duplicate { name, email }) => Ok(
            RegisterCourse::Duplicate(name@, email@),
        ),
        Ok(RegisterStep::EncodePassword { password }) => Ok(
            RegisterCourse::EncodePassword(password@),
        ),
        Ok(RegisterStep::Create { account, applicant, values, team_mode }) => Ok(
            RegisterCourse::Create(account@, applicant@, value_views(values@), team_mode),
        ),
        Err(error) => Err(error@),
    }
}

/// Whether the policy admits the applicant: what has to be read for it, or why not.
pub open spec fn admission(
    form: Seq<(String, String)>,
    policy: RegistrationPolicy,
    applicant: ApplicantView,
    allowlisted: Option<bool>,
) -> Option<RegisterCourse> {
    if applicant.2.len() < policy.minimum_password_length {
        Some(RegisterCourse::Refuse(RegistrationRefusal::PasswordTooShort))
    } else {
        match policy.access_mode {
            AccessMode::Open => None,
            AccessMode::AccessCode => {
                let submitted = text_or_empty(entry(form, "registration_code"@));
                if policy.registration_code@.len() == 0 || registration_code_tag(
                    policy.registration_code@,
                ) != registration_code_tag(submitted) {
                    Some(RegisterCourse::Refuse(RegistrationRefusal::InvalidRegistrationCode))
                } else {
                    None
                }
            },
            AccessMode::DomainRules => if domain_allowed(
                applicant.1,
                policy.domain_whitelist@,
                policy.domain_blacklist@,
            ) {
                None
            } else {
                Some(RegisterCourse::Refuse(RegistrationRefusal::EmailNotAllowed))
            },
            AccessMode::EmailAllowlist => match allowlisted {
                None => Some(RegisterCourse::Allowlist(applicant.1)),
                Some(false) => Some(RegisterCourse::Refuse(RegistrationRefusal::EmailNotAllowed)),
                Some(true) => None,
            },
        }
    }
}

/// From the admission on.
pub open spec fn admitted(
    form: Seq<(String, String)>,
    policy: RegistrationPolicy,
    applicant: ApplicantView,
    facts: RegisterFacts,
) -> RegisterCourse {
    let limited = policy.access_mode != AccessMode::EmailAllowlist && policy.participant_limit > 0;
    match (facts.duplicate, facts.bracket_ok, facts.fields) {
        (None, _, _) => RegisterCourse::Duplicate(applicant.0, applicant.1),
        (Some(true), _, _) => RegisterCourse::Refuse(RegistrationRefusal::IdentityTaken),
        (Some(false), None, _) => RegisterCourse::Read(RegisterRead::Bracket { id: applicant.6 }),
        (Some(false), Some(false), _) => RegisterCourse::Refuse(
            RegistrationRefusal::InvalidBracket,
        ),
        (Some(false), Some(true), None) => RegisterCourse::Read(RegisterRead::Fields),
        (Some(false), Some(true), Some(fields)) => if fields_missing(form, fields@) {
            RegisterCourse::Refuse(RegistrationRefusal::RequiredFieldsMissing)
        } else if !facts.password_encoded {
            RegisterCourse::EncodePassword(applicant.2)
        } else if limited && facts.participants is None {
            RegisterCourse::Read(RegisterRead::Participants)
        } else if limited && facts.participants->Some_0 >= policy.participant_limit {
            RegisterCourse::Refuse(RegistrationRefusal::UserLimitReached)
        } else {
            RegisterCourse::Create(
                player(applicant.0, applicant.1),
                applicant,
                field_values(form, fields@),
                policy.team_mode,
            )
        },
    }
}

pub open spec fn register_course(form: Seq<(String, String)>, facts: RegisterFacts) -> Result<
    RegisterCourse,
    Failure,
> {
    match (facts.setup_complete, facts.within_rate, facts.policy) {
        (None, _, _) => Ok(RegisterCourse::Read(RegisterRead::SetupComplete)),
        (Some(false), _, _) => Err(conflict("Complete CTFZone setup before registering users"@)),
        (Some(true), None, _) => Ok(
            RegisterCourse::Read(RegisterRead::RateLimit { limit: 5, seconds: 5 }),
        ),
        (Some(true), Some(false), _) => Err(
            too_many("Too many registration attempts; try again shortly"@),
        ),
        (Some(true), Some(true), None) => Ok(RegisterCourse::Read(RegisterRead::Policy)),
        (Some(true), Some(true), Some(policy)) => if policy.registration_closed {
            Err(not_found("Registration is not available"@))
        } else {
            match applicant_of(form) {
                Err(refusal) => Ok(RegisterCourse::Refuse(refusal)),
                Ok(applicant) => match admission(form, policy, applicant, facts.allowlisted) {
                    Some(course) => Ok(course),
                    None => Ok(admitted(form, policy, applicant, facts)),
                },
            }
        },
    }
}

fn check_admission(form: &Form, policy: &RegistrationPolicy, applicant: &Applicant, allowlisted: Option<bool>) -> (
result: Option<RegisterStep>)
    ensures
        match result {
            None => admission(form@, *policy, applicant@, allowlisted) is None,
            Some(step) => !(step is Create) && (shown_register(Ok(step)) matches Ok(course)
                && admission(form@, *policy, applicant@, allowlisted) == Some(course)),
        },
{
    if (chars_of(applicant.password.as_str()).len() as u64) < policy.minimum_password_length {
        return Some(RegisterStep::Refuse(RegistrationRefusal::PasswordTooShort));
    }
    match policy.access_mode {
        AccessMode::Open => None,
        AccessMode::AccessCode => {
            let submitted = owned_or_empty(form_entry(form, "registration_code"));
            if policy.registration_code.as_str().is_empty() || !registration_code_matches(
                policy.registration_code.as_str(),
                submitted.as_str(),
            ) {
                Some(RegisterStep::Refuse(RegistrationRefusal::InvalidRegistrationCode))
            } else {
                None
            }
        },
        AccessMode::DomainRules => if email_domain_allowed(
            applicant.email.as_str(),
            policy.domain_whitelist.as_str(),
            policy.domain_blacklist.as_str(),
        ) {
            None
        } else {
            Some(RegisterStep::Refuse(RegistrationRefusal::EmailNotAllowed))
        },
        AccessMode::EmailAllowlist => match allowlisted {
            None => Some(RegisterStep::Allowlist { email: applicant.email.clone() }),
            Some(listed) => if listed {
                None
            } else {
                Some(RegisterStep::Refuse(RegistrationRefusal::EmailNotAllowed))
            },
        },
    }
}

fn finish(form: &Form, policy: &RegistrationPolicy, applicant: Applicant, facts: &RegisterFacts) -> (
result: RegisterStep)
    ensures
        shown_register(Ok(result)) == Ok::<RegisterCourse, Failure>(
            admitted(form@, *policy, applicant@, *facts),
        ),
{
    match facts.duplicate {
        None => return RegisterStep::Duplicate { name: applicant.name, email: applicant.email },
        Some(duplicate) => {
            if duplicate {
                return RegisterStep::Refuse(RegistrationRefusal::IdentityTaken);
            }
        },
    }
    match facts.bracket_ok {
        None => return RegisterStep::Read(RegisterRead::Bracket { id: applicant.bracket_id }),
        Some(ok) => {
            if !ok {
                return RegisterStep::Refuse(RegistrationRefusal::InvalidBracket);
            }
        },
    }
    let fields = match &facts.fields {
        None => return RegisterStep::Read(RegisterRead::Fields),
        Some(fields) => fields,
    };
    let values = match registration_fields(form, fields) {
        None => return RegisterStep::Refuse(RegistrationRefusal::RequiredFieldsMissing),
        Some(values) => values,
    };
    if !facts.password_encoded {
        return RegisterStep::EncodePassword { password: applicant.password };
    }
    let listed = match policy.access_mode {
        AccessMode::EmailAllowlist => true,
        _ => false,
    };
    if !listed && policy.participant_limit > 0 {
        match facts.participants {
            None => return RegisterStep::Read(RegisterRead::Participants),
            Some(count) => {
                if count >= policy.participant_limit {
                    return RegisterStep::Refuse(RegistrationRefusal::UserLimitReached);
                }
            },
        }
    }
    let account = player_account(applicant.name.clone(), applicant.email.clone());
    RegisterStep::Create { account, applicant, values, team_mode: policy.team_mode }
}

/// The next step of a registration.
pub fn register(form: &Form, facts: &RegisterFacts) -> (result: Result<RegisterStep, ApiError>)
    ensures
        shown_register(result) == register_course(form@, *facts),
{
    match facts.setup_complete {
        None => return Ok(RegisterStep::Read(RegisterRead::SetupComplete)),
        Some(complete) => {
            if !complete {
                return Err(ApiError::conflict("Complete CTFZone setup before registering users"));
            }
        },
    }
    match facts.within_rate {
        None => return Ok(
            RegisterStep::Read(RegisterRead::RateLimit { limit: 5, seconds: 5 }),
        ),
        Some(within) => {
            if !within {
                return Err(
                    ApiError::too_many_requests("Too many registration attempts; try again shortly"),
                );
            }
        },
    }
    let policy = match &facts.policy {
        None => return Ok(RegisterStep::Read(RegisterRead::Policy)),
        Some(policy) => policy,
    };
    if policy.registration_closed {
        return Err(ApiError::not_found("Registration is not available"));
    }
    let applicant = match read_applicant(form) {
        Ok(applicant) => applicant,
        Err(refusal) => return Ok(RegisterStep::Refuse(refusal)),
    };
    match check_admission(form, policy, &applicant, facts.allowlisted) {
        Some(step) => Ok(step),
        None => Ok(finish(form, policy, applicant, facts)),
    }
}

/// Where a new player goes first: in team mode to the team.
pub fn registration_destination(team_mode: bool) -> (result: &'static str)
    ensures
        result@ == (if team_mode {
            "/team"@
        } else {
            "/challenges"@
        }),
{
    if team_mode {
        "/team"
    } else {
        "/challenges"
    }
}

// ---------------------------------------------------------------------------
// Laws
// ---------------------------------------------------------------------------

/// An account is created only while registration is open to the applicant: the site is set up,
/// the policy in force admits the address, or its code is not empty and the applicant gave one of
/// the same tag; nobody else has the name or address, no required field is missing, and there is
/// room.
pub proof fn law_registrations_are_admitted(form: Seq<(String, String)>, facts: RegisterFacts)
    requires
        register_course(form, facts) matches Ok(RegisterCourse::Create(..)),
    ensures
        facts.setup_complete == Some(true),
        facts.policy matches Some(policy) && {
            &&& !policy.registration_closed
            &&& applicant_of(form) matches Ok(applicant) && {
                &&& applicant.2.len() >= policy.minimum_password_length
                &&& policy.access_mode == AccessMode::DomainRules ==> domain_allowed(
                    applicant.1,
                    policy.domain_whitelist@,
                    policy.domain_blacklist@,
                )
            }
            &&& policy.access_mode == AccessMode::EmailAllowlist ==> facts.allowlisted == Some(true)
            &&& policy.access_mode == AccessMode::AccessCode ==> policy.registration_code@.len() > 0
                && registration_code_tag(policy.registration_code@) == registration_code_tag(
                text_or_empty(entry(form, "registration_code"@)),
            )
            &&& policy.access_mode != AccessMode::EmailAllowlist && policy.participant_limit > 0
                ==> facts.participants is Some && facts.participants->Some_0
                < policy.participant_limit
        },
        facts.duplicate == Some(false),
        facts.bracket_ok == Some(true),
        facts.fields matches Some(fields) && !fields_missing(form, fields@),
{
}

/// With an empty code nobody registers by code.
pub proof fn law_an_empty_code_admits_nobody(
    form: Seq<(String, String)>,
    policy: RegistrationPolicy,
    facts: RegisterFacts,
)
    requires
        facts.policy == Some(policy),
        policy.access_mode == AccessMode::AccessCode,
        policy.registration_code@.len() == 0,
    ensures
        !(register_course(form, facts) matches Ok(RegisterCourse::Create(..))),
{
}

/// A registration leaves exactly one account more, which is an unverified player's with the name
/// and address that were looked for, and exactly one session more, which is that account's.
pub proof fn law_registration_creates_one_player(
    records: SiteRecords,
    form: Seq<(String, String)>,
    facts: RegisterFacts,
    id: int,
    session: Seq<char>,
)
    requires
        register_course(form, facts) matches Ok(RegisterCourse::Create(..)),
        !records.accounts.contains_key(id),
        !records.sessions.contains_key(session),
    ensures
        ({
            let course = register_course(form, facts)->Ok_0;
            let account = course->Create_0;
            let after = records.with_account(id, account, session);
            &&& account.account_type == "user"@ && !account.verified && !account.banned
            &&& applicant_of(form) matches Ok(applicant) && account == player(
                applicant.0,
                applicant.1,
            ) && course->Create_1 == applicant
            &&& after.accounts.remove(id) == records.accounts && after.accounts[id] == account
            &&& after.sessions.remove(session) == records.sessions && after.sessions[session] == id
            &&& after.settings == records.settings
        }),
{
    let account = register_course(form, facts)->Ok_0->Create_0;
    let after = records.with_account(id, account, session);
    assert(after.accounts.remove(id) =~= records.accounts);
    assert(after.sessions.remove(session) =~= records.sessions);
}

/// A registration reads what concerns the applicant: whether the applicant's name or address is
/// taken and whether the address may register, and the password that is encoded is the
/// applicant's.
pub proof fn law_registrations_concern_the_applicant(
    form: Seq<(String, String)>,
    facts: RegisterFacts,
)
    ensures
        match register_course(form, facts) {
            Ok(RegisterCourse::Allowlist(email)) => applicant_of(form) matches Ok(applicant)
                && email == applicant.1,
            Ok(RegisterCourse::Duplicate(name, email)) => applicant_of(form) matches Ok(applicant)
                && name == applicant.0 && email == applicant.1,
            Ok(RegisterCourse::EncodePassword(password)) => applicant_of(form) matches Ok(applicant)
                && password == applicant.2,
            _ => true,
        },
{
}

/// A visitor who meets the policy registers: with all that a registration reads read, an account is
/// created exactly where the password is long enough, the mode in force admits the applicant, nobody
/// has the name or address, the bracket is one for players, no required field is missing, and there
/// is room. A list of addresses sets no limit on the number of players.
pub proof fn law_admitted_visitors_register(
    form: Seq<(String, String)>,
    facts: RegisterFacts,
    policy: RegistrationPolicy,
    applicant: ApplicantView,
    fields: Vec<FieldDefinition>,
)
    requires
        facts.setup_complete == Some(true),
        facts.within_rate == Some(true),
        facts.policy == Some(policy),
        !policy.registration_closed,
        applicant_of(form) == Ok::<ApplicantView, RegistrationRefusal>(applicant),
        facts.allowlisted is Some,
        facts.duplicate is Some,
        facts.bracket_ok is Some,
        facts.fields == Some(fields),
        facts.password_encoded,
        facts.participants is Some,
    ensures
        ({
            let course = register_course(form, facts);
            let long = applicant.2.len() >= policy.minimum_password_length;
            let admitted = match policy.access_mode {
                AccessMode::Open => true,
                AccessMode::DomainRules => domain_allowed(
                    applicant.1,
                    policy.domain_whitelist@,
                    policy.domain_blacklist@,
                ),
                AccessMode::AccessCode => policy.registration_code@.len() > 0
                    && registration_code_tag(policy.registration_code@) == registration_code_tag(
                    if entry(form, "registration_code"@) is Some {
                        entry(form, "registration_code"@)->Some_0
                    } else {
                        Seq::empty()
                    },
                ),
                AccessMode::EmailAllowlist => facts.allowlisted == Some(true),
            };
            let complete = forall|i: int|
                0 <= i < fields@.len() && (#[trigger] fields@[i]).required ==> field_entry(
                    form,
                    fields@[i].id,
                ).len() > 0;
            let room = policy.access_mode == AccessMode::EmailAllowlist || policy.participant_limit
                <= 0 || facts.participants->Some_0 < policy.participant_limit;
            &&& course is Ok
            &&& course->Ok_0 is Create <==> long && admitted && facts.duplicate == Some(false)
                && facts.bracket_ok == Some(true) && complete && room
            &&& course->Ok_0 is Create ==> course->Ok_0->Create_1 == applicant
                && course->Ok_0->Create_3 == policy.team_mode && course->Ok_0->Create_0.name
                == applicant.0 && course->Ok_0->Create_0.email == applicant.1
                && course->Ok_0->Create_2.len() == fields@.len()
            &&& course->Ok_0 == RegisterCourse::Refuse(RegistrationRefusal::PasswordTooShort)
                <==> !long
            &&& course->Ok_0 == RegisterCourse::Refuse(RegistrationRefusal::InvalidRegistrationCode)
                <==> long && !admitted && policy.access_mode == AccessMode::AccessCode
            &&& course->Ok_0 == RegisterCourse::Refuse(RegistrationRefusal::EmailNotAllowed)
                <==> long && !admitted && policy.access_mode != AccessMode::AccessCode
            &&& course->Ok_0 == RegisterCourse::Refuse(RegistrationRefusal::IdentityTaken)
                <==> long && admitted && facts.duplicate == Some(true)
            &&& course->Ok_0 == RegisterCourse::Refuse(RegistrationRefusal::UserLimitReached)
                <==> long && admitted && facts.duplicate == Some(false) && facts.bracket_ok == Some(
                true,
            ) && complete && !room
        }),
{
    assert(facts.allowlisted == Some(true) || facts.allowlisted == Some(false));
    assert(facts.duplicate == Some(true) || facts.duplicate == Some(false));
    assert(facts.bracket_ok == Some(true) || facts.bracket_ok == Some(false));
    let complete = forall|i: int|
        0 <= i < fields@.len() && (#[trigger] fields@[i]).required ==> field_entry(
            form,
            fields@[i].id,
        ).len() > 0;
    if fields_missing(form, fields@) {
        let i = choose|i: int| 0 <= i < fields@.len() && field_missing(form, #[trigger] fields@[i]);
        assert(fields@[i].required);
    }
    if !complete {
        let i = choose|i: int|
            0 <= i < fields@.len() && (#[trigger] fields@[i]).required && field_entry(
                form,
                fields@[i].id,
            ).len() == 0;
        assert(field_missing(form, fields@[i]));
    }
}

/// Nobody registers before the site is set up, beyond the rate, or while registration is closed.
pub proof fn law_closed_registrations_fail(form: Seq<(String, String)>, facts: RegisterFacts)
    ensures
        ({
            let course = register_course(form, facts);
            &&& facts.setup_complete == Some(false) ==> course == Err::<RegisterCourse, Failure>(
                conflict("Complete CTFZone setup before registering users"@),
            )
            &&& facts.setup_complete == Some(true) && facts.within_rate == Some(false) ==> course
                == Err::<RegisterCourse, Failure>(
                too_many("Too many registration attempts; try again shortly"@),
            )
            &&& facts.setup_complete == Some(true) && facts.within_rate == Some(true)
                && facts.policy is Some && facts.policy->Some_0.registration_closed ==> course
                == Err::<RegisterCourse, Failure>(not_found("Registration is not available"@))
            &&& course is Err ==> facts.setup_complete == Some(false) || facts.within_rate == Some(
                false,
            ) || facts.policy->Some_0.registration_closed
            &&& course matches Ok(RegisterCourse::Read(RegisterRead::RateLimit { limit, seconds }))
                ==> limit == 5 && seconds == 5
        }),
{
}

/// An applicant is what the form says, without white space around it: the name and the password as
/// they are, the address in small letters, the country in capital ones; entries that are blank are
/// left out. What is missing or out of bounds is refused by its own name.
pub proof fn law_applicants_are_what_the_form_says(form: Seq<(String, String)>)
    ensures
        ({
            let name = trimmed(
                if entry(form, "name"@) is Some {
                    entry(form, "name"@)->Some_0
                } else {
                    Seq::empty()
                },
            );
            let email = lowercase(
                trimmed(
                    if entry(form, "email"@) is Some {
                        entry(form, "email"@)->Some_0
                    } else {
                        Seq::empty()
                    },
                ),
            );
            let password = trimmed(
                if entry(form, "password"@) is Some {
                    entry(form, "password"@)->Some_0
                } else {
                    Seq::empty()
                },
            );
            let website = filled(form, "website"@);
            let affiliation = filled(form, "affiliation"@);
            let country = filled(form, "country"@);
            let bracket = filled(form, "bracket_id"@);
            let result = applicant_of(form);
            let identified = identity_ok(name, email) && 0 < password.len() <= 128;
            let linked = website is Some ==> byte_length(website->Some_0) <= 128 && url_parts(
                website->Some_0,
            ) is Some && (url_parts(website->Some_0)->Some_0.0 == "http"@ || url_parts(
                website->Some_0,
            )->Some_0.0 == "https"@);
            let placed = affiliation is Some ==> byte_length(affiliation->Some_0) <= 128;
            let located = country is Some ==> country->Some_0.len() == 2 && is_upper(
                uppercase(country->Some_0)[0],
            ) && is_upper(uppercase(country->Some_0)[1]);
            let ranked = bracket is Some ==> (bounded_value(
                bracket->Some_0,
                i32::MIN as int,
                i32::MAX as int,
            ) matches Some(id) && id > 0);
            &&& result is Ok <==> identified && linked && placed && located && ranked
            &&& result is Ok ==> result->Ok_0.0 == name && result->Ok_0.1 == email
                && result->Ok_0.2 == password && result->Ok_0.3 == website && result->Ok_0.4
                == affiliation && (result->Ok_0.5 is Some <==> country is Some) && (country is Some
                ==> result->Ok_0.5->Some_0 == uppercase(country->Some_0)) && (result->Ok_0.6 is Some
                <==> bracket is Some) && (bracket is Some ==> bounded_value(
                bracket->Some_0,
                i32::MIN as int,
                i32::MAX as int,
            ) == Some(result->Ok_0.6->Some_0 as int))
            &&& result == Err::<ApplicantView, RegistrationRefusal>(
                RegistrationRefusal::InvalidInput,
            ) <==> !identified
            &&& result == Err::<ApplicantView, RegistrationRefusal>(
                RegistrationRefusal::InvalidWebsite,
            ) <==> identified && !linked
            &&& result == Err::<ApplicantView, RegistrationRefusal>(
                RegistrationRefusal::InvalidAffiliation,
            ) <==> identified && linked && !placed
            &&& result == Err::<ApplicantView, RegistrationRefusal>(
                RegistrationRefusal::InvalidCountry,
            ) <==> identified && linked && placed && !located
            &&& result == Err::<ApplicantView, RegistrationRefusal>(
                RegistrationRefusal::InvalidBracket,
            ) <==> identified && linked && placed && located && !ranked
        }),
{
    if filled(form, "country"@) is Some {
        assert(uppercase(filled(form, "country"@)->Some_0).len() == filled(
            form,
            "country"@,
        )->Some_0.len());
    }
}

/// The first entry of a name is the one that counts, a blank one counts as none, and one more entry
/// in front counts before the others.
pub proof fn law_the_first_entry_counts(
    form: Seq<(String, String)>,
    first: (String, String),
    key: Seq<char>,
)
    ensures
        entry(seq![first] + form, key) == if first.0@ == key {
            Some(first.1@)
        } else {
            entry(form, key)
        },
        entry(Seq::empty(), key) is None,
        filled(form, key) is Some <==> entry(form, key) is Some && trimmed(
            entry(form, key)->Some_0,
        ).len() > 0,
        filled(form, key) is Some ==> filled(form, key)->Some_0 == trimmed(
            entry(form, key)->Some_0,
        ),
{
    assert((seq![first] + form).drop_first() =~= form);
}

/// Of several rows of the configuration under one key the last counts.
pub proof fn law_the_last_row_counts(
    rows: Seq<(String, Option<String>)>,
    row: (String, Option<String>),
    key: Seq<char>,
)
    ensures
        stored(rows.push(row), key) == if row.0@ == key {
            Some(
                if row.1 is Some {
                    row.1->Some_0@
                } else {
                    Seq::empty()
                },
            )
        } else {
            stored(rows, key)
        },
        stored(Seq::empty(), key) is None,
{
    assert(rows.push(row).drop_last() =~= rows);
}

/// Each mode is in force under its own word, and registration is open under any other.
pub proof fn law_modes_are_named(mode: AccessMode, word: Seq<char>)
    ensures
        access_mode_of(Some(mode_word(mode))) == mode,
        access_mode_of(None) == AccessMode::Open,
        mode_word(access_mode_of(Some(word))) == word || access_mode_of(Some(word))
            == AccessMode::Open,
        mode_word(AccessMode::AccessCode) == "access_code"@,
        mode_word(AccessMode::DomainRules) == "domain_rules"@,
        mode_word(AccessMode::EmailAllowlist) == "email_allowlist"@,
{
    reveal_strlit("open");
    reveal_strlit("domain_rules");
    reveal_strlit("access_code");
    reveal_strlit("email_allowlist");
    assert("open"@.len() == 4 && "domain_rules"@.len() == 12 && "access_code"@.len() == 11
        && "email_allowlist"@.len() == 15);
}

/// A field has the value that the form gives for its number, without the white space around it; a
/// field that is on or off is on for anything that is not blank.
pub proof fn law_fields_have_their_entries(
    form: Seq<(String, String)>,
    fields: Seq<FieldDefinition>,
    i: int,
)
    requires
        0 <= i < fields.len(),
    ensures
        ({
            let given = entry(form, "fields["@ + integer_text(fields[i].id as int) + "]"@);
            let text = trimmed(
                if given is Some {
                    given->Some_0
                } else {
                    Seq::empty()
                },
            );
            &&& field_values(form, fields).len() == fields.len()
            &&& field_values(form, fields)[i].0 == fields[i].id
            &&& !fields[i].boolean ==> field_values(form, fields)[i].1 == FieldValueView::Text(text)
            &&& fields[i].boolean ==> field_values(form, fields)[i].1 == FieldValueView::Flag(
                text.len() > 0,
            )
            &&& fields[i].required && text.len() == 0 ==> fields_missing(form, fields)
        }),
{
    let text = field_entry(form, fields[i].id);
    assert(fields[i].required && text.len() == 0 ==> field_missing(form, fields[i]));
}

/// Every refusal of a registration has a word of its own.
pub proof fn law_refusal_words_differ(refusal: RegistrationRefusal, other: RegistrationRefusal)
    requires
        refusal_word(refusal) == refusal_word(other),
    ensures
        refusal == other,
{
    reveal_strlit("invalid_input");
    reveal_strlit("invalid_website");
    reveal_strlit("invalid_affiliation");
    reveal_strlit("invalid_country");
    reveal_strlit("invalid_bracket");
    reveal_strlit("password_too_short");
    reveal_strlit("invalid_registration_code");
    reveal_strlit("email_not_allowed");
    reveal_strlit("identity_taken");
    reveal_strlit("required_fields_missing");
    reveal_strlit("user_limit_reached");
    let words = seq![
        "invalid_input"@,
        "invalid_website"@,
        "invalid_affiliation"@,
        "invalid_country"@,
        "invalid_bracket"@,
        "password_too_short"@,
        "invalid_registration_code"@,
        "email_not_allowed"@,
        "identity_taken"@,
        "required_fields_missing"@,
        "user_limit_reached"@,
    ];
    assert(words[0].len() == 13 && words[1].len() == 15 && words[2].len() == 19 && words[3].len()
        == 15 && words[4].len() == 15 && words[5].len() == 18 && words[6].len() == 25
        && words[7].len() == 17 && words[8].len() == 14 && words[9].len() == 23 && words[10].len()
        == 18);
    assert(words[1][8] == 'w' && words[3][8] == 'c' && words[4][8] == 'b');
    assert(words[5][0] == 'p' && words[10][0] == 'u');
}

} // verus!
