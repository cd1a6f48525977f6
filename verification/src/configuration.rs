//! Reading and changing the configuration.
use crate::domains::{
    has_space, law_normalizing_rules_twice, lemma_normal_rules_are_printable, normal_rules,
    normalize_domain_rules,
};
use crate::error::{bad, shown, shown_text, str_of, ApiError, Failure};
use crate::json::Json;
use crate::mailboxes::{is_mailbox, mailbox_text};
use crate::numbers::{
    bounded_value, integer_text, law_integer_text_reads_back, lemma_integer_text_ends, parse_i64,
    to_text,
};
use crate::registration::{ctf_name_of, is_slug, normalize_ctf_name, validate_player_frontend};
use crate::settings_table::{
    option_definitions, option_list, setting, setting_named, OptionSet, SettingDefinition,
    SettingKind,
};
use crate::text::{
    alphanumeric, byte_len, byte_length, chars_of, concat, contains_char, contains_control,
    has_control, has_suffix, is_alphanumeric, is_control, lemma_trimmed_already,
    lemma_trimmed_twice, lowercase, same, to_lowercase_ascii, trim, trimmed,
};
use crate::urls::{parse_url, url_parts, UrlParts, UrlView};
use vstd::prelude::*;

verus! {

// ---------------------------------------------------------------------------
// Secrets
// ---------------------------------------------------------------------------

/// The value of the key is never shown.
pub open spec fn is_secret_key(key: Seq<char>) -> bool {
    let name = lowercase(key);
    ||| name == "registration_code"@
    ||| name == "mail_password"@
    ||| name == "mailgun_api_key"@
    ||| "_password"@.is_suffix_of(name)
    ||| "_secret"@.is_suffix_of(name)
    ||| "_token"@.is_suffix_of(name)
    ||| "_api_key"@.is_suffix_of(name)
}

pub fn is_sensitive_key(key: &str) -> (result: bool)
    ensures
        result == is_secret_key(key@),
{
    let name = to_lowercase_ascii(key);
    same(name.as_str(), "registration_code") || same(name.as_str(), "mail_password") || same(
        name.as_str(),
        "mailgun_api_key",
    ) || has_suffix(name.as_str(), "_password") || has_suffix(name.as_str(), "_secret")
        || has_suffix(name.as_str(), "_token") || has_suffix(name.as_str(), "_api_key")
}

/// A row of the configuration.
pub struct StoredConfig {
    pub id: i32,
    pub key: Option<String>,
    pub value: Option<String>,
}

/// A row of the configuration as it is shown.
pub struct PublicConfig {
    pub id: i32,
    pub key: Option<String>,
    pub value: Option<String>,
    pub sensitive: bool,
    pub configured: bool,
}

pub open spec fn filled_in(value: Option<String>) -> bool {
    value matches Some(text) && text@.len() > 0
}

pub open spec fn secret_row(key: Option<String>) -> bool {
    key matches Some(name) && is_secret_key(name@)
}

pub open spec fn public_row(row: StoredConfig) -> PublicConfig {
    PublicConfig {
        id: row.id,
        key: row.key,
        value: if secret_row(row.key) {
            None
        } else {
            row.value
        },
        sensitive: secret_row(row.key),
        configured: filled_in(row.value),
    }
}

impl From<StoredConfig> for PublicConfig {
    fn from(config: StoredConfig) -> (result: PublicConfig) {
        let sensitive = match &config.key {
            Some(name) => is_sensitive_key(name.as_str()),
            None => false,
        };
        let configured = match &config.value {
            Some(text) => !text.as_str().is_empty(),
            None => false,
        };
        PublicConfig {
            id: config.id,
            key: config.key,
            value: if sensitive {
                None
            } else {
                config.value
            },
            sensitive,
            configured,
        }
    }
}

impl vstd::std_specs::convert::FromSpecImpl<StoredConfig> for PublicConfig {
    open spec fn obeys_from_spec() -> bool {
        true
    }

    open spec fn from_spec(config: StoredConfig) -> PublicConfig {
        public_row(config)
    }
}

// ---------------------------------------------------------------------------
// Values
// ---------------------------------------------------------------------------

/// The words for a switch.
pub open spec fn switch_word(value: Seq<char>) -> Option<bool> {
    let word = lowercase(trimmed(value));
    if word == "true"@ || word == "1"@ || word == "yes"@ || word == "on"@ {
        Some(true)
    } else if word == "false"@ || word == "0"@ || word == "no"@ || word == "off"@ {
        Some(false)
    } else {
        None
    }
}

pub fn parse_bool_text(value: &str) -> (result: Option<bool>)
    ensures
        result == switch_word(value@),
{
    let word = to_lowercase_ascii(trim(value).as_str());
    let w = word.as_str();
    if same(w, "true") || same(w, "1") || same(w, "yes") || same(w, "on") {
        Some(true)
    } else if same(w, "false") || same(w, "0") || same(w, "no") || same(w, "off") {
        Some(false)
    } else {
        None
    }
}

pub open spec fn bool_value(value: Json) -> Result<bool, Failure> {
    let found = match value {
        Json::Bool(flag) => Some(flag),
        Json::Text(text) => switch_word(text@),
        _ => None,
    };
    match found {
        Some(flag) => Ok(flag),
        None => Err(bad("Setting must be a boolean"@)),
    }
}

pub fn parse_bool(value: &Json) -> (result: Result<bool, ApiError>)
    ensures
        shown(result) == bool_value(*value),
{
    let found = match value {
        Json::Bool(flag) => Some(*flag),
        Json::Text(text) => parse_bool_text(text.as_str()),
        _ => None,
    };
    match found {
        Some(flag) => Ok(flag),
        None => Err(ApiError::bad_request("Setting must be a boolean")),
    }
}

/// An integer, or nothing where that is allowed.
pub open spec fn integer_value_of(value: Json, nullable: bool) -> Result<Option<i64>, Failure> {
    match value {
        Json::Null if nullable => Ok(None),
        Json::Text(text) => if nullable && trimmed(text@).len() == 0 {
            Ok(None)
        } else {
            match bounded_value(trimmed(text@), i64::MIN as int, i64::MAX as int) {
                Some(number) => Ok(Some(number as i64)),
                None => Err(bad("Setting must be an integer"@)),
            }
        },
        Json::Number(number) => match number.integer {
            Some(integer) => Ok(Some(integer)),
            None => Err(bad("Setting must be an integer"@)),
        },
        _ => Err(bad("Setting must be an integer"@)),
    }
}

pub fn parse_integer(value: &Json, nullable: bool) -> (result: Result<Option<i64>, ApiError>)
    ensures
        shown(result) == integer_value_of(*value, nullable),
{
    let number: Option<i64> = match value {
        Json::Null => {
            if nullable {
                return Ok(None);
            }
            None
        },
        Json::Text(text) => {
            let content = trim(text.as_str());
            if nullable && content.as_str().is_empty() {
                return Ok(None);
            }
            parse_i64(content.as_str())
        },
        Json::Number(number) => number.integer,
        _ => None,
    };
    match number {
        Some(integer) => Ok(Some(integer)),
        None => Err(ApiError::bad_request("Setting must be an integer")),
    }
}

/// What is said of a setting.
pub open spec fn of_setting(label: Seq<char>, problem: Seq<char>) -> Failure {
    bad(label + problem)
}

fn complain(label: &str, problem: &str) -> (result: ApiError)
    ensures
        result@ == of_setting(label@, problem@),
{
    let message = concat(label, problem);
    ApiError::bad_request(message.as_str())
}

pub open spec fn text_of_value(value: Json, label: Seq<char>) -> Result<Seq<char>, Failure> {
    match value {
        Json::Text(text) => Ok(trimmed(text@)),
        _ => Err(of_setting(label, " must be text"@)),
    }
}

pub fn text_value(value: &Json, label: &str) -> (result: Result<String, ApiError>)
    ensures
        shown_text(result) == text_of_value(*value, label@),
{
    match value {
        Json::Text(text) => Ok(trim(text.as_str())),
        _ => Err(complain(label, " must be text")),
    }
}

/// How a value of a setting that the site does not know is stored. `compact` is the value as JSON
/// text, which stands for a list or an object.
pub open spec fn generic_text(value: Json, compact: Seq<char>) -> Seq<char> {
    match value {
        Json::Text(text) => text@,
        Json::Bool(flag) => if flag {
            "true"@
        } else {
            "false"@
        },
        Json::Number(number) => number.text@,
        Json::Null => Seq::empty(),
        _ => compact,
    }
}

pub fn generic_value(value: &Json, compact: &str) -> (result: String)
    ensures
        result@ == generic_text(*value, compact@),
{
    match value {
        Json::Text(text) => text.clone(),
        Json::Bool(flag) => if *flag {
            "true".to_owned()
        } else {
            "false".to_owned()
        },
        Json::Number(number) => number.text.clone(),
        Json::Null => String::new(),
        _ => compact.to_owned(),
    }
}

// ---------------------------------------------------------------------------
// Keys
// ---------------------------------------------------------------------------

pub open spec fn key_char(c: char) -> bool {
    is_alphanumeric(c) || c == '.' || c == '_' || c == '-'
}

pub open spec fn is_key(key: Seq<char>) -> bool {
    &&& 0 < key.len() && byte_length(key) <= 128
    &&& forall|i: int| 0 <= i < key.len() ==> key_char(#[trigger] key[i])
}

fn key_ok(key: &str) -> (result: bool)
    ensures
        result == is_key(key@),
{
    if key.is_empty() || byte_len(key) > 128 {
        return false;
    }
    let chars = chars_of(key);
    let mut i: usize = 0;
    while i < chars.len()
        invariant
            i <= chars.len(),
            chars@ == key@,
            forall|j: int| 0 <= j < i ==> key_char(#[trigger] key@[j]),
        decreases chars.len() - i,
    {
        let c = chars[i];
        if !(alphanumeric(c) || c == '.' || c == '_' || c == '-') {
            assert(!key_char(key@[i as int]));
            return false;
        }
        i += 1;
    }
    true
}

pub fn validate_key(key: &str) -> (result: Result<(), ApiError>)
    ensures
        shown(result) == (if is_key(key@) {
            Ok::<(), Failure>(())
        } else {
            Err(bad("Configuration key is invalid"@))
        }),
{
    if key_ok(key) {
        Ok(())
    } else {
        Err(ApiError::bad_request("Configuration key is invalid"))
    }
}

// ---------------------------------------------------------------------------
// Normal values
// ---------------------------------------------------------------------------

/// The additional rules of some text settings; `url` and `mailbox` say what the text is as a URL
/// and whether it is a mailbox.
pub open spec fn special_text(
    key: Seq<char>,
    value: Seq<char>,
    url: Option<UrlView>,
    mailbox: bool,
) -> Result<Seq<char>, Failure> {
    if key == "ctf_name"@ {
        ctf_name_of(value)
    } else if key == "domain_whitelist"@ || key == "domain_blacklist"@ {
        normal_rules(value)
    } else if key == "player_frontend"@ {
        if is_slug(value) {
            Ok(value)
        } else {
            Err(bad("Player frontend must be a lowercase slug of at most 64 characters"@))
        }
    } else if key == "mailgun_base_url"@ && value.len() > 0 {
        match url {
            None => Err(bad("Mailgun API base URL is invalid"@)),
            Some(parts) => if !(parts.0 == "http"@ || parts.0 == "https"@) || !parts.1 {
                Err(bad("Mailgun API base URL must use HTTP or HTTPS and include a host"@))
            } else {
                Ok(value)
            },
        }
    } else if key == "mail_server"@ && value.len() > 0 && (byte_length(value) > 255 || exists|
        i: int,
    |
        0 <= i < value.len() && crate::text::is_space(#[trigger] value[i])) {
        Err(bad("SMTP server name is invalid"@))
    } else if key == "mailfrom_addr"@ && value.len() > 0 && !mailbox {
        Err(bad("Email sender address is invalid"@))
    } else {
        Ok(value)
    }
}

pub fn check_special_text(key: &str, value: &str, url: &Option<UrlParts>, mailbox: bool) -> (result:
    Result<String, ApiError>)
    ensures
        shown_text(result) == special_text(
            key@,
            value@,
            crate::register::parts_view(*url),
            mailbox,
        ),
{
    if same(key, "ctf_name") {
        return normalize_ctf_name(value);
    }
    if same(key, "domain_whitelist") || same(key, "domain_blacklist") {
        return normalize_domain_rules(value);
    }
    if same(key, "player_frontend") {
        return match validate_player_frontend(value) {
            Ok(_) => Ok(value.to_owned()),
            Err(error) => Err(error),
        };
    }
    if same(key, "mailgun_base_url") && !value.is_empty() {
        return match url {
            None => Err(ApiError::bad_request("Mailgun API base URL is invalid")),
            Some(parts) => {
                let web = same(parts.scheme.as_str(), "http") || same(
                    parts.scheme.as_str(),
                    "https",
                );
                if !web || !parts.has_host {
                    Err(
                        ApiError::bad_request(
                            "Mailgun API base URL must use HTTP or HTTPS and include a host",
                        ),
                    )
                } else {
                    Ok(value.to_owned())
                }
            },
        };
    }
    if same(key, "mail_server") && !value.is_empty() && (byte_len(value) > 255 || has_space(
        value,
    )) {
        return Err(ApiError::bad_request("SMTP server name is invalid"));
    }
    if same(key, "mailfrom_addr") && !value.is_empty() && !mailbox {
        return Err(ApiError::bad_request("Email sender address is invalid"));
    }
    Ok(value.to_owned())
}

pub open spec fn normal_text(
    key: Seq<char>,
    value: Json,
    label: Seq<char>,
    one_line: bool,
) -> Result<Seq<char>, Failure> {
    match text_of_value(value, label) {
        Err(failure) => Err(failure),
        Ok(text) => if text.contains('\0') || (has_control(text) && one_line) {
            Err(of_setting(label, " contains control characters"@))
        } else if byte_length(text) > 100_000 {
            Err(of_setting(label, " is too long"@))
        } else {
            special_text(key, text, url_parts(text), mailbox_text(text))
        },
    }
}

fn normalize_text(key: &str, value: &Json, label: &str, one_line: bool) -> (result: Result<
    String,
    ApiError,
>)
    ensures
        shown_text(result) == normal_text(key@, *value, label@, one_line),
{
    let text = match text_value(value, label) {
        Ok(text) => text,
        Err(error) => return Err(error),
    };
    if contains_char(text.as_str(), '\0') || (contains_control(text.as_str()) && one_line) {
        return Err(complain(label, " contains control characters"));
    }
    if byte_len(text.as_str()) > 100_000 {
        return Err(complain(label, " is too long"));
    }
    let url = parse_url(text.as_str());
    let mailbox = is_mailbox(text.as_str());
    check_special_text(key, text.as_str(), &url, mailbox)
}

/// A secret: an empty one keeps the current value, and `null` clears it.
pub open spec fn normal_secret(value: Json, label: Seq<char>, current: Option<Seq<char>>) -> Result<
    Seq<char>,
    Failure,
> {
    match value {
        Json::Null => Ok(Seq::empty()),
        Json::Text(text) => if text@.len() == 0 {
            Ok(
                match current {
                    Some(kept) => kept,
                    None => Seq::empty(),
                },
            )
        } else if byte_length(text@) <= 10_000 && !has_control(text@) {
            Ok(text@)
        } else {
            Err(of_setting(label, " is invalid"@))
        },
        _ => Err(of_setting(label, " must be text or null"@)),
    }
}

fn normalize_secret(value: &Json, label: &str, current: Option<&str>) -> (result: Result<
    String,
    ApiError,
>)
    ensures
        shown_text(result) == normal_secret(*value, label@, str_of(current)),
{
    match value {
        Json::Null => Ok(String::new()),
        Json::Text(text) => {
            if text.as_str().is_empty() {
                return Ok(
                    match current {
                        Some(kept) => kept.to_owned(),
                        None => String::new(),
                    },
                );
            }
            if byte_len(text.as_str()) <= 10_000 && !contains_control(text.as_str()) {
                Ok(text.clone())
            } else {
                Err(complain(label, " is invalid"))
            }
        },
        _ => Err(complain(label, " must be text or null")),
    }
}

pub open spec fn normal_integer(value: Json, label: Seq<char>, min: i64, max: i64) -> Result<
    Seq<char>,
    Failure,
> {
    match integer_value_of(value, false) {
        Err(failure) => Err(failure),
        Ok(None) => Err(of_setting(label, " must be an integer"@)),
        Ok(Some(number)) => if min <= number <= max {
            Ok(integer_text(number as int))
        } else {
            Err(
                of_setting(
                    label,
                    " must be between "@ + integer_text(min as int) + " and "@ + integer_text(
                        max as int,
                    ),
                ),
            )
        },
    }
}

fn normalize_integer(value: &Json, label: &str, min: i64, max: i64) -> (result: Result<
    String,
    ApiError,
>)
    ensures
        shown_text(result) == normal_integer(*value, label@, min, max),
{
    match parse_integer(value, false) {
        Err(error) => Err(error),
        Ok(None) => Err(complain(label, " must be an integer")),
        Ok(Some(number)) => {
            if min <= number && number <= max {
                return Ok(to_text(number));
            }
            let low = to_text(min);
            let high = to_text(max);
            let first = concat(" must be between ", low.as_str());
            let second = concat(first.as_str(), " and ");
            let problem = concat(second.as_str(), high.as_str());
            Err(complain(label, problem.as_str()))
        },
    }
}

pub open spec fn normal_date(value: Json, label: Seq<char>) -> Result<Seq<char>, Failure> {
    match integer_value_of(value, true) {
        Err(failure) => Err(failure),
        Ok(None) => Ok(Seq::empty()),
        Ok(Some(moment)) => if 0 <= moment <= 253_402_300_799 {
            Ok(integer_text(moment as int))
        } else {
            Err(of_setting(label, " must be a Unix timestamp between 0 and year 9999"@))
        },
    }
}

fn normalize_date(value: &Json, label: &str) -> (result: Result<String, ApiError>)
    ensures
        shown_text(result) == normal_date(*value, label@),
{
    match parse_integer(value, true) {
        Err(error) => Err(error),
        Ok(None) => Ok(String::new()),
        Ok(Some(moment)) => if 0 <= moment && moment <= 253_402_300_799 {
            Ok(to_text(moment))
        } else {
            Err(complain(label, " must be a Unix timestamp between 0 and year 9999"))
        },
    }
}

pub open spec fn offers(set: OptionSet, value: Seq<char>) -> bool {
    exists|i: int|
        0 <= i < option_list(set).len() && (#[trigger] option_list(set)[i]).value@ == value
}

fn is_offered(set: OptionSet, value: &str) -> (result: bool)
    ensures
        result == offers(set, value@),
{
    let options = option_definitions(set);
    let mut i: usize = 0;
    while i < options.len()
        invariant
            i <= options.len(),
            options@ == option_list(set),
            forall|j: int| 0 <= j < i ==> (#[trigger] option_list(set)[j]).value@ != value@,
        decreases options.len() - i,
    {
        if same(options[i].value, value) {
            assert(option_list(set)[i as int].value@ == value@);
            return true;
        }
        i += 1;
    }
    false
}

pub open spec fn normal_choice(value: Json, label: Seq<char>, set: OptionSet) -> Result<
    Seq<char>,
    Failure,
> {
    match text_of_value(value, label) {
        Err(failure) => Err(failure),
        Ok(text) => if offers(set, text) {
            Ok(text)
        } else {
            Err(of_setting(label, " has an unsupported value"@))
        },
    }
}

fn normalize_choice(value: &Json, label: &str, set: OptionSet) -> (result: Result<String, ApiError>)
    ensures
        shown_text(result) == normal_choice(*value, label@, set),
{
    match text_value(value, label) {
        Err(error) => Err(error),
        Ok(text) => if is_offered(set, text.as_str()) {
            Ok(text)
        } else {
            Err(complain(label, " has an unsupported value"))
        },
    }
}

/// The normal value of a setting by its definition.
pub open spec fn defined_value(
    definition: SettingDefinition,
    key: Seq<char>,
    value: Json,
    current: Option<Seq<char>>,
) -> Result<Seq<char>, Failure> {
    let label = definition.label@;
    if definition.read_only {
        Err(of_setting(label, " is read-only"@))
    } else {
        match definition.kind {
            SettingKind::Line => normal_text(key, value, label, true),
            SettingKind::Text => normal_text(key, value, label, false),
            SettingKind::Secret => normal_secret(value, label, current),
            SettingKind::Boolean => match bool_value(value) {
                Ok(flag) => Ok(
                    if flag {
                        "true"@
                    } else {
                        "false"@
                    },
                ),
                Err(failure) => Err(failure),
            },
            SettingKind::Integer { min, max } => normal_integer(value, label, min, max),
            SettingKind::DateTime => normal_date(value, label),
            SettingKind::Select(set) => normal_choice(value, label, set),
        }
    }
}

fn normalize_defined(
    definition: &SettingDefinition,
    key: &str,
    value: &Json,
    current: Option<&str>,
) -> (result: Result<String, ApiError>)
    ensures
        shown_text(result) == defined_value(*definition, key@, *value, str_of(current)),
{
    let label = definition.label;
    if definition.read_only {
        return Err(complain(label, " is read-only"));
    }
    match definition.kind {
        SettingKind::Line => normalize_text(key, value, label, true),
        SettingKind::Text => normalize_text(key, value, label, false),
        SettingKind::Secret => normalize_secret(value, label, current),
        SettingKind::Boolean => match parse_bool(value) {
            Ok(flag) => Ok(
                if flag {
                    "true".to_owned()
                } else {
                    "false".to_owned()
                },
            ),
            Err(error) => Err(error),
        },
        SettingKind::Integer { min, max } => normalize_integer(value, label, min, max),
        SettingKind::DateTime => normalize_date(value, label),
        SettingKind::Select(set) => normalize_choice(value, label, set),
    }
}

/// The value under which a setting is stored. The marker of a complete setup and the switch for
/// social sharing cannot be set.
pub open spec fn normal_value(
    key: Seq<char>,
    value: Json,
    compact: Seq<char>,
    current: Option<Seq<char>>,
) -> Result<Seq<char>, Failure> {
    if !is_key(key) {
        Err(bad("Configuration key is invalid"@))
    } else if key == "setup"@ {
        Err(bad("The setup completion marker cannot be changed through configuration"@))
    } else if key == "social_shares"@ {
        Err(bad("Social sharing cannot be enabled until player share pages are implemented"@))
    } else {
        match setting_named(key) {
            None => Ok(generic_text(value, compact)),
            Some(definition) => defined_value(definition, key, value, current),
        }
    }
}

/// `compact` is the value as JSON text, `current` the stored value.
pub fn normalize_value(key: &str, value: &Json, compact: &str, current: Option<&str>) -> (result:
    Result<String, ApiError>)
    ensures
        shown_text(result) == normal_value(key@, *value, compact@, str_of(current)),
{
    if let Err(error) = validate_key(key) {
        return Err(error);
    }
    if same(key, "setup") {
        return Err(
            ApiError::bad_request(
                "The setup completion marker cannot be changed through configuration",
            ),
        );
    }
    if same(key, "social_shares") {
        return Err(
            ApiError::bad_request(
                "Social sharing cannot be enabled until player share pages are implemented",
            ),
        );
    }
    match setting(key) {
        None => Ok(generic_value(value, compact)),
        Some(definition) => normalize_defined(&definition, key, value, current),
    }
}

// ---------------------------------------------------------------------------
// Laws
// ---------------------------------------------------------------------------

proof fn lemma_switches_read_back()
    ensures
        switch_word("true"@) == Some(true),
        switch_word("false"@) == Some(false),
{
    reveal_strlit("true");
    reveal_strlit("false");
    reveal_strlit("1");
    reveal_strlit("yes");
    reveal_strlit("on");
    lemma_trimmed_already("true"@);
    lemma_trimmed_already("false"@);
    assert(lowercase("true"@) =~= "true"@);
    assert(lowercase("false"@) =~= "false"@);
    assert("false"@[0] != "true"@[0]);
    assert("false"@.len() == 5);
}

proof fn lemma_integers_read_back(stored: String, n: i64, nullable: bool)
    requires
        stored@ == integer_text(n as int),
    ensures
        integer_value_of(Json::Text(stored), nullable) == Ok::<Option<i64>, Failure>(Some(n)),
{
    lemma_integer_text_ends(n as int);
    law_integer_text_reads_back(n as int);
    lemma_trimmed_already(stored@);
}

proof fn lemma_texts_read_back(
    key: Seq<char>,
    value: Json,
    label: Seq<char>,
    one_line: bool,
    stored: String,
)
    requires
        normal_text(key, value, label, one_line) == Ok::<Seq<char>, Failure>(stored@),
        byte_length(stored@) <= 100_000,
    ensures
        normal_text(key, Json::Text(stored), label, one_line) == Ok::<Seq<char>, Failure>(stored@),
{
    let text = text_of_value(value, label)->Ok_0;
    assert(value is Text);
    lemma_trimmed_twice(value->Text_0@);
    if key == "ctf_name"@ {
        assert(stored@ == text);
    } else if key == "domain_whitelist"@ || key == "domain_blacklist"@ {
        law_normalizing_rules_twice(text);
        lemma_normal_rules_are_printable(text);
        if stored@.contains('\0') {
            let i = choose|i: int| 0 <= i < stored@.len() && stored@[i] == '\0';
            assert(is_control(stored@[i]));
        }
    } else {
        assert(stored@ == text);
    }
}

/// What is stored of a setting reads back as itself: given again as text, it is stored as it is,
/// whatever is stored at that time. An empty secret is another matter, for it keeps the current
/// one; and a list of domain rules, which may grow where it is put in normal form, must still be
/// short enough.
pub proof fn law_stored_settings_read_back(
    key: Seq<char>,
    value: Json,
    compact: Seq<char>,
    current: Option<Seq<char>>,
    stored: String,
    later_compact: Seq<char>,
    later_current: Option<Seq<char>>,
)
    requires
        normal_value(key, value, compact, current) == Ok::<Seq<char>, Failure>(stored@),
        setting_named(key) matches Some(definition) && definition.kind == SettingKind::Secret ==> (
        value matches Json::Text(text) && text@.len() > 0),
        key == "domain_whitelist"@ || key == "domain_blacklist"@ ==> byte_length(stored@)
            <= 100_000,
    ensures
        normal_value(key, Json::Text(stored), later_compact, later_current) == Ok::<
            Seq<char>,
            Failure,
        >(stored@),
{
    if let Some(definition) = setting_named(key) {
        let label = definition.label@;
        match definition.kind {
            SettingKind::Line => {
                lemma_trimmed_twice(value->Text_0@);
                lemma_texts_read_back(key, value, label, true, stored);
            },
            SettingKind::Text => {
                lemma_trimmed_twice(value->Text_0@);
                lemma_texts_read_back(key, value, label, false, stored);
            },
            SettingKind::Secret => {},
            SettingKind::Boolean => {
                lemma_switches_read_back();
            },
            SettingKind::Integer { min, max } => {
                let n = integer_value_of(value, false)->Ok_0->Some_0;
                lemma_integers_read_back(stored, n, false);
            },
            SettingKind::DateTime => {
                match integer_value_of(value, true)->Ok_0 {
                    Some(n) => {
                        lemma_integers_read_back(stored, n, true);
                    },
                    None => {
                        lemma_trimmed_already(stored@);
                    },
                }
            },
            SettingKind::Select(_) => {
                lemma_trimmed_twice(value->Text_0@);
            },
        }
    }
}

/// A secret is whatever its name says is one, in any case; what is shown of it is whether it is
/// there, and of any other setting its value.
pub proof fn law_secrets_are_kept_back(row: StoredConfig, name: Seq<char>)
    ensures
        public_row(row).id == row.id && public_row(row).key == row.key,
        public_row(row).configured <==> row.value is Some && row.value->Some_0@.len() > 0,
        public_row(row).sensitive <==> row.key is Some && is_secret_key(row.key->Some_0@),
        public_row(row).sensitive ==> public_row(row).value is None,
        !public_row(row).sensitive ==> public_row(row).value == row.value,
        is_secret_key(name + "_password"@) && is_secret_key(name + "_secret"@) && is_secret_key(
            name + "_token"@,
        ) && is_secret_key(name + "_api_key"@),
        is_secret_key("registration_code"@),
        is_secret_key(name) <==> is_secret_key(lowercase(name)),
{
    crate::text::lemma_lowercase_trimmed(name);
    reveal_strlit("registration_code");
    assert(lowercase("registration_code"@) =~= "registration_code"@);
    lemma_secret_suffix(name, "_password"@);
    lemma_secret_suffix(name, "_secret"@);
    lemma_secret_suffix(name, "_token"@);
    lemma_secret_suffix(name, "_api_key"@);
    reveal_strlit("_password");
    reveal_strlit("_secret");
    reveal_strlit("_token");
    reveal_strlit("_api_key");
    assert(lowercase("_password"@) =~= "_password"@);
    assert(lowercase("_secret"@) =~= "_secret"@);
    assert(lowercase("_token"@) =~= "_token"@);
    assert(lowercase("_api_key"@) =~= "_api_key"@);
}

proof fn lemma_secret_suffix(name: Seq<char>, suffix: Seq<char>)
    ensures
        lowercase(suffix).is_suffix_of(lowercase(name + suffix)),
{
    let whole = lowercase(name + suffix);
    assert(lowercase(suffix) =~= whole.subrange(whole.len() - suffix.len(), whole.len() as int));
}

/// A switch is given as a truth value or as one of eight words, and an integer as a number or in
/// decimal notation; nothing else is one.
pub proof fn law_values_are_parsed(value: Json, flag: bool, number: i64)
    ensures
        bool_value(Json::Bool(flag)) == Ok::<bool, Failure>(flag),
        bool_value(value) is Ok <==> value is Bool || (value is Text && switch_word(
            value->Text_0@,
        ) is Some),
        value is Text && bool_value(value) is Ok ==> switch_word(value->Text_0@) == Some(
            bool_value(value)->Ok_0,
        ),
        value is Number && value->Number_0.integer == Some(number) ==> integer_value_of(
            value,
            flag,
        ) == Ok::<Option<i64>, Failure>(Some(number)),
        value is Text && trimmed(value->Text_0@) == integer_text(number as int)
            ==> integer_value_of(value, flag) == Ok::<Option<i64>, Failure>(Some(number)),
        value is Null || (value is Text && trimmed(value->Text_0@).len() == 0) ==> (
        integer_value_of(value, flag) is Ok <==> flag),
        integer_value_of(value, flag) matches Ok(None) ==> flag && (value is Null || (value is Text
            && trimmed(value->Text_0@).len() == 0)),
        value is Bool || value is Array || value is Object ==> integer_value_of(value, flag) is Err,
{
    law_integer_text_reads_back(number as int);
    lemma_integer_text_ends(number as int);
}

/// Four words mean on and four mean off, in any case and with white space around them.
pub proof fn law_switch_words(text: Seq<char>)
    ensures
        switch_word(text) == switch_word(trimmed(text)),
        switch_word(text) == Some(true) <==> lowercase(trimmed(text)) == "true"@ || lowercase(
            trimmed(text),
        ) == "1"@ || lowercase(trimmed(text)) == "yes"@ || lowercase(trimmed(text)) == "on"@,
        switch_word(text) == Some(false) <==> lowercase(trimmed(text)) == "false"@ || lowercase(
            trimmed(text),
        ) == "0"@ || lowercase(trimmed(text)) == "no"@ || lowercase(trimmed(text)) == "off"@,
{
    lemma_trimmed_twice(text);
    reveal_strlit("true");
    reveal_strlit("1");
    reveal_strlit("yes");
    reveal_strlit("on");
    reveal_strlit("false");
    reveal_strlit("0");
    reveal_strlit("no");
    reveal_strlit("off");
    assert("true"@.len() == 4 && "1"@.len() == 1 && "yes"@.len() == 3 && "on"@.len() == 2
        && "false"@.len() == 5 && "0"@.len() == 1 && "no"@.len() == 2 && "off"@.len() == 3);
    assert("1"@[0] != "0"@[0]);
    assert("on"@[0] != "no"@[0]);
    assert("yes"@[0] != "off"@[0]);
}

/// An integer setting takes every integer between its bounds, in decimal notation, and no other; a
/// date every moment up to the end of the year 9999, or nothing.
pub proof fn law_integers_are_bounded(
    value: Json,
    label: Seq<char>,
    min: i64,
    max: i64,
    number: i64,
)
    requires
        value is Number,
        value->Number_0.integer == Some(number),
    ensures
        min <= number <= max ==> normal_integer(value, label, min, max) == Ok::<
            Seq<char>,
            Failure,
        >(integer_text(number as int)),
        number < min || number > max ==> normal_integer(value, label, min, max) is Err,
        0 <= number <= 253402300799 ==> normal_date(value, label) == Ok::<Seq<char>, Failure>(
            integer_text(number as int),
        ),
        number < 0 || number > 253402300799 ==> normal_date(value, label) is Err,
        normal_date(Json::Null, label) == Ok::<Seq<char>, Failure>(Seq::empty()),
{
}

/// A text setting without rules of its own keeps its text but for the white space around it, where
/// it has 100000 bytes at most and no zero character, and on one line no control character at all.
pub proof fn law_texts_are_stored(
    key: Seq<char>,
    text: String,
    label: Seq<char>,
    one_line: bool,
)
    requires
        key != "ctf_name"@,
        key != "domain_whitelist"@,
        key != "domain_blacklist"@,
        key != "player_frontend"@,
        key != "mailgun_base_url"@,
        key != "mail_server"@,
        key != "mailfrom_addr"@,
    ensures
        ({
            let content = trimmed(text@);
            let result = normal_text(key, Json::Text(text), label, one_line);
            &&& result is Ok <==> !content.contains('\0') && (one_line ==> !has_control(content))
                && byte_length(content) <= 100000
            &&& result is Ok ==> result->Ok_0 == content
        }),
        forall|value: Json|
            !(value is Text) ==> #[trigger] normal_text(key, value, label, one_line) is Err,
{
}

/// The address of the mail service is one of the web with a host, the mail server a name without
/// white space, and the sender a mailbox; each may be left empty.
pub proof fn law_mail_addresses_are_checked(text: Seq<char>, url: Option<UrlView>, mailbox: bool)
    ensures
        special_text("mailgun_base_url"@, text, url, mailbox) is Ok <==> text.len() == 0 || (url
            is Some && url->Some_0.1 && (url->Some_0.0 == "http"@ || url->Some_0.0 == "https"@)),
        special_text("mailfrom_addr"@, text, url, mailbox) is Ok <==> text.len() == 0 || mailbox,
        special_text("mail_server"@, text, url, mailbox) is Ok <==> text.len() == 0 || (byte_length(
            text,
        ) <= 255 && forall|i: int|
            0 <= i < text.len() ==> !crate::text::is_space(#[trigger] text[i])),
        special_text("mailgun_base_url"@, text, url, mailbox) matches Ok(kept) ==> kept == text,
        special_text("mailfrom_addr"@, text, url, mailbox) matches Ok(kept) ==> kept == text,
        special_text("mail_server"@, text, url, mailbox) matches Ok(kept) ==> kept == text,
        special_text("player_frontend"@, text, url, mailbox) is Ok <==> is_slug(text),
        special_text("ctf_name"@, text, url, mailbox) == ctf_name_of(text),
        special_text("domain_whitelist"@, text, url, mailbox) == normal_rules(text),
        special_text("domain_blacklist"@, text, url, mailbox) == normal_rules(text),
{
    reveal_strlit("ctf_name");
    reveal_strlit("domain_whitelist");
    reveal_strlit("domain_blacklist");
    reveal_strlit("player_frontend");
    reveal_strlit("mailgun_base_url");
    reveal_strlit("mail_server");
    reveal_strlit("mailfrom_addr");
    assert("ctf_name"@.len() == 8 && "domain_whitelist"@.len() == 16 && "domain_blacklist"@.len()
        == 16 && "player_frontend"@.len() == 15 && "mailgun_base_url"@.len() == 16
        && "mail_server"@.len() == 11 && "mailfrom_addr"@.len() == 13);
    assert("domain_whitelist"@[0] == 'd' && "domain_blacklist"@[0] == 'd' && "mailgun_base_url"@[0]
        == 'm');
    if text.len() > 0 && !(exists|i: int|
        0 <= i < text.len() && crate::text::is_space(#[trigger] text[i])) {
        assert forall|i: int| 0 <= i < text.len() implies !crate::text::is_space(
            #[trigger] text[i],
        ) by {}
    }
}

/// A secret is kept where an empty text is given, cleared by null, and else stored to the letter,
/// where it has 10000 bytes at most and no control character.
pub proof fn law_secrets_are_stored(text: String, label: Seq<char>, current: Option<Seq<char>>)
    ensures
        text@.len() > 0 ==> (normal_secret(Json::Text(text), label, current) is Ok <==> byte_length(
            text@,
        ) <= 10000 && !has_control(text@)),
        text@.len() > 0 && normal_secret(Json::Text(text), label, current) is Ok ==> normal_secret(
            Json::Text(text),
            label,
            current,
        )->Ok_0 == text@,
        text@.len() == 0 && current is Some ==> normal_secret(Json::Text(text), label, current)
            == Ok::<Seq<char>, Failure>(current->Some_0),
        normal_secret(Json::Null, label, current) == Ok::<Seq<char>, Failure>(Seq::empty()),
        forall|value: Json|
            !(value is Text) && !(value is Null) ==> #[trigger] normal_secret(value, label, current)
                is Err,
{
}

/// A choice takes the values that it offers and no other, and a setting that is read-only takes
/// none.
pub proof fn law_choices_are_offered(
    definition: SettingDefinition,
    text: String,
    set: OptionSet,
    current: Option<Seq<char>>,
)
    requires
        definition.kind == SettingKind::Select(set),
    ensures
        ({
            let result = defined_value(definition, definition.key@, Json::Text(text), current);
            &&& result is Ok <==> !definition.read_only && exists|i: int|
                0 <= i < option_list(set).len() && (#[trigger] option_list(set)[i]).value@
                    == trimmed(text@)
            &&& result is Ok ==> result->Ok_0 == trimmed(text@)
        }),
{
}

/// A key has 1 to 128 letters, digits, dots, underscores and hyphens; a setting that the site does
/// not know is stored as it is given.
pub proof fn law_keys_are_plain(
    key: Seq<char>,
    text: String,
    compact: Seq<char>,
    current: Option<Seq<char>>,
    i: int,
)
    ensures
        0 <= i < key.len() && (key[i] == ' ' || key[i] == '/' || key[i] == ':' || key[i] == '=')
            ==> !is_key(key),
        key.len() == 0 || byte_length(key) > 128 ==> !is_key(key),
        0 < key.len() && byte_length(key) <= 128 && (forall|k: int|
            0 <= k < key.len() ==> (is_alphanumeric(#[trigger] key[k]) || key[k] == '_')) ==> is_key(
            key,
        ),
        normal_value(key, Json::Text(text), compact, current) is Ok ==> is_key(key) && key
            != "setup"@ && key != "social_shares"@,
        is_key(key) && key != "setup"@ && key != "social_shares"@ && setting_named(key) is None
            ==> normal_value(key, Json::Text(text), compact, current) == Ok::<Seq<char>, Failure>(
            text@,
        ),
{
    if 0 <= i < key.len() && is_key(key) {
        assert(key_char(key[i]));
    }
    if forall|k: int|
        0 <= k < key.len() ==> (is_alphanumeric(#[trigger] key[k]) || key[k] == '_') {
        assert forall|k: int| 0 <= k < key.len() implies key_char(#[trigger] key[k]) by {}
    }
}

/// Each choice offers the words that the site understands, and no other.
pub proof fn law_offers_are_understood(word: Seq<char>)
    ensures
        offers(OptionSet::UserModes, word) <==> word == "users"@ || word == "teams"@,
        offers(OptionSet::Visibility, word) <==> word == "public"@ || word == "private"@ || word
            == "admins"@,
        offers(OptionSet::ScoreVisibility, word) <==> word == "public"@ || word == "private"@
            || word == "admins"@ || word == "hidden"@,
        offers(OptionSet::RegistrationVisibility, word) <==> word == "public"@ || word
            == "private"@,
        offers(OptionSet::RegistrationModes, word) <==> word == "open"@ || word == "domain_rules"@
            || word == "access_code"@ || word == "email_allowlist"@,
        offers(OptionSet::AttemptBehaviors, word) <==> word == "lockout"@ || word == "timeout"@,
        offers(OptionSet::RatingModes, word) <==> word == "public"@ || word == "private"@ || word
            == "disabled"@,
        offers(OptionSet::TeamDisbanding, word) <==> word == "inactive_only"@ || word
            == "disabled"@,
        offers(OptionSet::MailProviders, word) <==> word == "auto"@ || word == "disabled"@ || word
            == "smtp"@ || word == "mailgun"@,
{
    assert(option_list(OptionSet::UserModes)[0].value@ == "users"@);
    assert(option_list(OptionSet::UserModes)[1].value@ == "teams"@);
    assert(option_list(OptionSet::Visibility)[0].value@ == "public"@);
    assert(option_list(OptionSet::Visibility)[1].value@ == "private"@);
    assert(option_list(OptionSet::Visibility)[2].value@ == "admins"@);
    assert(option_list(OptionSet::ScoreVisibility)[0].value@ == "public"@);
    assert(option_list(OptionSet::ScoreVisibility)[1].value@ == "private"@);
    assert(option_list(OptionSet::ScoreVisibility)[2].value@ == "admins"@);
    assert(option_list(OptionSet::ScoreVisibility)[3].value@ == "hidden"@);
    assert(option_list(OptionSet::RegistrationVisibility)[0].value@ == "public"@);
    assert(option_list(OptionSet::RegistrationVisibility)[1].value@ == "private"@);
    assert(option_list(OptionSet::RegistrationModes)[0].value@ == "open"@);
    assert(option_list(OptionSet::RegistrationModes)[1].value@ == "domain_rules"@);
    assert(option_list(OptionSet::RegistrationModes)[2].value@ == "access_code"@);
    assert(option_list(OptionSet::RegistrationModes)[3].value@ == "email_allowlist"@);
    assert(option_list(OptionSet::AttemptBehaviors)[0].value@ == "lockout"@);
    assert(option_list(OptionSet::AttemptBehaviors)[1].value@ == "timeout"@);
    assert(option_list(OptionSet::RatingModes)[0].value@ == "public"@);
    assert(option_list(OptionSet::RatingModes)[1].value@ == "private"@);
    assert(option_list(OptionSet::RatingModes)[2].value@ == "disabled"@);
    assert(option_list(OptionSet::TeamDisbanding)[0].value@ == "inactive_only"@);
    assert(option_list(OptionSet::TeamDisbanding)[1].value@ == "disabled"@);
    assert(option_list(OptionSet::MailProviders)[0].value@ == "auto"@);
    assert(option_list(OptionSet::MailProviders)[1].value@ == "disabled"@);
    assert(option_list(OptionSet::MailProviders)[2].value@ == "smtp"@);
    assert(option_list(OptionSet::MailProviders)[3].value@ == "mailgun"@);
}

} // verus!
