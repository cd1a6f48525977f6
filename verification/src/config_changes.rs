//! Changing several settings at once.
use crate::configuration::{
    is_key, normal_secret, normal_value, normalize_value, parse_bool_text, switch_word,
    validate_key,
};
use crate::error::{bad, conflict, shown, str_of, ApiError, Failure};
use crate::json::Json;
use crate::numbers::{bounded_value, parse_i64};
use crate::settings_table::{setting, setting_named};
use crate::text::{same, trim, trimmed};
use crate::text_map::TextMap;
use vstd::prelude::*;

verus! {

/// The stored text of each setting.
pub type Values = TextMap<String>;

/// The texts of a map of settings.
pub open spec fn texts(values: Map<Seq<char>, String>) -> Map<Seq<char>, Seq<char>> {
    values.map_values(|text: String| text@)
}

proof fn lemma_texts_insert(values: Map<Seq<char>, String>, key: Seq<char>, value: String)
    ensures
        texts(values.insert(key, value)) == texts(values).insert(key, value@),
{
    assert(texts(values.insert(key, value)) =~= texts(values).insert(key, value@));
}

/// The text of a setting, where one is stored.
pub open spec fn text_at(values: Map<Seq<char>, Seq<char>>, key: Seq<char>) -> Option<Seq<char>> {
    if values.contains_key(key) {
        Some(values[key])
    } else {
        None
    }
}

pub fn text_under<'a>(values: &'a Values, key: &str) -> (result: Option<&'a str>)
    requires
        values.ok(),
    ensures
        str_of(result) == text_at(texts(values@), key@),
{
    match values.get(key) {
        Some(text) => Some(text.as_str()),
        None => None,
    }
}

/// The moment that a setting holds; nothing where it is empty or no number.
pub open spec fn moment_at(values: Map<Seq<char>, Seq<char>>, key: Seq<char>) -> Option<int> {
    match text_at(values, key) {
        Some(text) => bounded_value(text, i64::MIN as int, i64::MAX as int),
        None => None,
    }
}

fn moment_under(values: &Values, key: &str) -> (result: Option<i64>)
    requires
        values.ok(),
    ensures
        match result {
            Some(moment) => moment_at(texts(values@), key@) == Some(moment as int),
            None => moment_at(texts(values@), key@) is None,
        },
{
    match text_under(values, key) {
        Some(text) => parse_i64(text),
        None => None,
    }
}

pub open spec fn switched_on(values: Map<Seq<char>, Seq<char>>, key: Seq<char>) -> bool {
    text_at(values, key) matches Some(text) && switch_word(text) == Some(true)
}

fn is_switched_on(values: &Values, key: &str) -> (result: bool)
    requires
        values.ok(),
    ensures
        result == switched_on(texts(values@), key@),
{
    match text_under(values, key) {
        Some(text) => match parse_bool_text(text) {
            Some(flag) => flag,
            None => false,
        },
        None => false,
    }
}

/// Something other than white space is stored.
pub open spec fn given_text(values: Map<Seq<char>, Seq<char>>, key: Seq<char>) -> bool {
    text_at(values, key) matches Some(text) && trimmed(text).len() > 0
}

fn is_given(values: &Values, key: &str) -> (result: bool)
    requires
        values.ok(),
    ensures
        result == given_text(texts(values@), key@),
{
    match text_under(values, key) {
        Some(text) => {
            let content = trim(text);
            !content.as_str().is_empty()
        },
        None => false,
    }
}

/// The event ends after it starts, and the scoreboard freezes in between.
pub open spec fn schedule_problem(values: Map<Seq<char>, Seq<char>>) -> Option<Failure> {
    let start = moment_at(values, "start"@);
    let end = moment_at(values, "end"@);
    let freeze = moment_at(values, "freeze"@);
    if start is Some && end is Some && start->Some_0 >= end->Some_0 {
        Some(bad("Event end time must be after its start time"@))
    } else if freeze is Some && ((start is Some && freeze->Some_0 < start->Some_0) || (end is Some
        && freeze->Some_0 > end->Some_0)) {
        Some(bad("Scoreboard freeze must be within the configured event window"@))
    } else {
        None
    }
}

pub open spec fn mailgun_given(values: Map<Seq<char>, Seq<char>>) -> bool {
    given_text(values, "mailgun_base_url"@) && given_text(values, "mailgun_api_key"@)
}

/// The provider that is selected can send messages.
pub open spec fn provider_ready(values: Map<Seq<char>, Seq<char>>) -> bool {
    match text_at(values, "mail_provider"@) {
        None => mailgun_given(values) || given_text(values, "mail_server"@),
        Some(word) => if word == "smtp"@ {
            given_text(values, "mail_server"@)
        } else if word == "mailgun"@ {
            mailgun_given(values)
        } else {
            word == "auto"@ && (mailgun_given(values) || given_text(values, "mail_server"@))
        },
    }
}

pub open spec fn mail_problem(values: Map<Seq<char>, Seq<char>>) -> Option<Failure> {
    let provider = text_at(values, "mail_provider"@);
    if switched_on(values, "verify_emails"@) && !given_text(values, "mailfrom_addr"@) {
        Some(bad("Email sender is required when email verification is enabled"@))
    } else if switched_on(values, "verify_emails"@) && !provider_ready(values) {
        Some(
            bad(
                "A working SMTP or Mailgun configuration is required when email verification is enabled"@,
            ),
        )
    } else if provider == Some("smtp"@) && !given_text(values, "mail_server"@) {
        Some(bad("SMTP server is required when SMTP is selected"@))
    } else if provider == Some("mailgun"@) && !mailgun_given(values) {
        Some(bad("Mailgun base URL and API key are required when Mailgun is selected"@))
    } else {
        None
    }
}

/// What is wrong with the settings taken together.
pub open spec fn cross_problem(values: Map<Seq<char>, Seq<char>>) -> Option<Failure> {
    let code = text_at(values, "registration_code"@);
    match schedule_problem(values) {
        Some(failure) => Some(failure),
        None => if switched_on(values, "mail_ssl"@) && switched_on(values, "mail_tls"@) {
            Some(bad("Email cannot enable both implicit TLS and STARTTLS"@))
        } else if text_at(values, "registration_access_mode"@) == Some("access_code"@) && !(
        code is Some && code->Some_0.len() > 0) {
            Some(bad("Registration code is required for access-code registration"@))
        } else {
            mail_problem(values)
        },
    }
}

fn check_schedule(values: &Values) -> (result: Result<(), ApiError>)
    requires
        values.ok(),
    ensures
        shown(result) == crate::fields::pass_or(schedule_problem(texts(values@))),
{
    let start: Option<i64> = moment_under(values, "start");
    let end: Option<i64> = moment_under(values, "end");
    if let (Some(from), Some(to)) = (start, end) {
        if from >= to {
            return Err(ApiError::bad_request("Event end time must be after its start time"));
        }
    }
    if let Some(freeze) = moment_under(values, "freeze") {
        let early = match start {
            Some(from) => freeze < from,
            None => false,
        };
        let late = match end {
            Some(to) => freeze > to,
            None => false,
        };
        if early || late {
            return Err(
                ApiError::bad_request("Scoreboard freeze must be within the configured event window"),
            );
        }
    }
    Ok(())
}

fn check_mail(values: &Values) -> (result: Result<(), ApiError>)
    requires
        values.ok(),
    ensures
        shown(result) == crate::fields::pass_or(mail_problem(texts(values@))),
{
    let mailgun = is_given(values, "mailgun_base_url") && is_given(values, "mailgun_api_key");
    let smtp = is_given(values, "mail_server");
    let provider = text_under(values, "mail_provider");
    if is_switched_on(values, "verify_emails") {
        if !is_given(values, "mailfrom_addr") {
            return Err(
                ApiError::bad_request("Email sender is required when email verification is enabled"),
            );
        }
        let ready = match provider {
            None => mailgun || smtp,
            Some(word) => if same(word, "smtp") {
                smtp
            } else if same(word, "mailgun") {
                mailgun
            } else {
                same(word, "auto") && (mailgun || smtp)
            },
        };
        if !ready {
            return Err(
                ApiError::bad_request(
                    "A working SMTP or Mailgun configuration is required when email verification is enabled",
                ),
            );
        }
    }
    if let Some(word) = provider {
        if same(word, "smtp") && !smtp {
            return Err(ApiError::bad_request("SMTP server is required when SMTP is selected"));
        }
        if same(word, "mailgun") && !mailgun {
            return Err(
                ApiError::bad_request(
                    "Mailgun base URL and API key are required when Mailgun is selected",
                ),
            );
        }
    }
    Ok(())
}

/// Checks the settings that have to fit together.
pub fn validate_cross_fields(values: &Values) -> (result: Result<(), ApiError>)
    requires
        values.ok(),
    ensures
        shown(result) == crate::fields::pass_or(cross_problem(texts(values@))),
{
    if let Err(error) = check_schedule(values) {
        return Err(error);
    }
    if is_switched_on(values, "mail_ssl") && is_switched_on(values, "mail_tls") {
        return Err(ApiError::bad_request("Email cannot enable both implicit TLS and STARTTLS"));
    }
    let by_code = match text_under(values, "registration_access_mode") {
        Some(word) => same(word, "access_code"),
        None => false,
    };
    let has_code = match text_under(values, "registration_code") {
        Some(code) => !code.is_empty(),
        None => false,
    };
    if by_code && !has_code {
        return Err(
            ApiError::bad_request("Registration code is required for access-code registration"),
        );
    }
    check_mail(values)
}

// ---------------------------------------------------------------------------
// A request to change settings
// ---------------------------------------------------------------------------

/// A new value for a setting; `compact` is the value as JSON text.
pub struct Proposal {
    pub key: String,
    pub value: Json,
    pub compact: String,
}

/// The stored rows as a map: of several rows for a key the last counts, and a row without a value
/// holds an empty text.
pub open spec fn stored_texts(rows: Seq<(Option<String>, Option<String>)>) -> Map<
    Seq<char>,
    Seq<char>,
>
    decreases rows.len(),
{
    if rows.len() == 0 {
        Map::empty()
    } else {
        let rest = stored_texts(rows.drop_last());
        match rows.last() {
            (Some(key), Some(value)) => rest.insert(key@, value@),
            (Some(key), None) => rest.insert(key@, Seq::empty()),
            (None, _) => rest,
        }
    }
}

/// Reads the stored rows.
pub fn stored_values(rows: &Vec<(Option<String>, Option<String>)>) -> (result: Values)
    ensures
        result.ok(),
        texts(result@) == stored_texts(rows@),
{
    let mut values: Values = TextMap::new();
    let mut i: usize = 0;
    assert(texts(values@) =~= Map::<Seq<char>, Seq<char>>::empty());
    while i < rows.len()
        invariant
            i <= rows.len(),
            values.ok(),
            texts(values@) == stored_texts(rows@.take(i as int)),
        decreases rows.len() - i,
    {
        assert(rows@.take(i + 1).drop_last() =~= rows@.take(i as int));
        assert(rows@.take(i + 1).last() == rows@[i as int]);
        if let Some(key) = &rows[i].0 {
            let value = match &rows[i].1 {
                Some(text) => text.clone(),
                None => String::new(),
            };
            proof {
                lemma_texts_insert(values@, key@, value);
            }
            values.insert(key.clone(), value);
        }
        i += 1;
    }
    assert(rows@.take(rows@.len() as int) =~= rows@);
    values
}

/// The settings after the first `n` proposals, and the normal values of those; a proposal may
/// be one that is passed over.
pub open spec fn applied(
    values: Map<Seq<char>, Seq<char>>,
    proposals: Seq<Proposal>,
    n: int,
) -> Result<(Map<Seq<char>, Seq<char>>, Seq<(Seq<char>, Seq<char>)>), Failure>
    decreases n,
{
    if n <= 0 {
        Ok((values, Seq::empty()))
    } else {
        match applied(values, proposals, n - 1) {
            Err(failure) => Err(failure),
            Ok((merged, changes)) => {
                let proposal = proposals[n - 1];
                if proposal.key@ == "clear_registration_access_modes"@ {
                    Ok((merged, changes))
                } else {
                    match normal_value(
                        proposal.key@,
                        proposal.value,
                        proposal.compact@,
                        text_at(merged, proposal.key@),
                    ) {
                        Err(failure) => Err(failure),
                        Ok(value) => Ok(
                            (
                                merged.insert(proposal.key@, value),
                                changes.push((proposal.key@, value)),
                            ),
                        ),
                    }
                }
            },
        }
    }
}

proof fn lemma_applied_fails(
    values: Map<Seq<char>, Seq<char>>,
    proposals: Seq<Proposal>,
    n: int,
    m: int,
)
    requires
        0 <= n <= m,
        applied(values, proposals, n) is Err,
    ensures
        applied(values, proposals, m) == applied(values, proposals, n),
    decreases m - n,
{
    if n < m {
        lemma_applied_fails(values, proposals, n, m - 1);
    }
}

pub open spec fn proposes(proposals: Seq<Proposal>, key: Seq<char>) -> bool {
    exists|i: int| 0 <= i < proposals.len() && (#[trigger] proposals[i]).key@ == key
}

fn is_proposed(proposals: &Vec<Proposal>, key: &str) -> (result: bool)
    ensures
        result == proposes(proposals@, key@),
{
    let mut i: usize = 0;
    while i < proposals.len()
        invariant
            i <= proposals.len(),
            forall|j: int| 0 <= j < i ==> (#[trigger] proposals@[j]).key@ != key@,
        decreases proposals.len() - i,
    {
        if same(proposals[i].key.as_str(), key) {
            assert(proposals@[i as int].key@ == key@);
            return true;
        }
        i += 1;
    }
    false
}

pub open spec fn change_views(changes: Seq<(String, String)>) -> Seq<(Seq<char>, Seq<char>)> {
    changes.map_values(|change: (String, String)| (change.0@, change.1@))
}

/// What a request leads to: the changes in their normal form, where all settings taken together
/// fit.
pub open spec fn mutations_of(
    rows: Seq<(Option<String>, Option<String>)>,
    proposals: Seq<Proposal>,
) -> Result<(Map<Seq<char>, Seq<char>>, Seq<(Seq<char>, Seq<char>)>), Failure> {
    if proposes(proposals, "private_challenges"@) {
        Err(bad("Private challenge runtime settings use the controller settings endpoint"@))
    } else {
        applied(stored_texts(rows), proposals, proposals.len() as int)
    }
}

/// Reads a request to change settings. The result is the settings as they will be, and the
/// changes.
pub fn normalize_mutations(
    rows: &Vec<(Option<String>, Option<String>)>,
    proposals: &Vec<Proposal>,
) -> (result: Result<(Values, Vec<(String, String)>), ApiError>)
    ensures
        match result {
            Ok((merged, changes)) => {
                &&& merged.ok()
                &&& mutations_of(rows@, proposals@) == Ok::<
                    (Map<Seq<char>, Seq<char>>, Seq<(Seq<char>, Seq<char>)>),
                    Failure,
                >((texts(merged@), change_views(changes@)))
                &&& cross_problem(texts(merged@)) is None
            },
            Err(error) => match mutations_of(rows@, proposals@) {
                Err(failure) => error@ == failure,
                Ok((settings, _)) => cross_problem(settings) == Some(error@),
            },
        },
{
    if is_proposed(proposals, "private_challenges") {
        return Err(
            ApiError::bad_request(
                "Private challenge runtime settings use the controller settings endpoint",
            ),
        );
    }
    let mut merged = stored_values(rows);
    let ghost start = stored_texts(rows@);
    let mut changes: Vec<(String, String)> = Vec::new();
    let mut i: usize = 0;
    assert(change_views(changes@) =~= Seq::<(Seq<char>, Seq<char>)>::empty());
    while i < proposals.len()
        invariant
            i <= proposals.len(),
            merged.ok(),
            start == stored_texts(rows@),
            !proposes(proposals@, "private_challenges"@),
            applied(start, proposals@, i as int) == Ok::<
                (Map<Seq<char>, Seq<char>>, Seq<(Seq<char>, Seq<char>)>),
                Failure,
            >((texts(merged@), change_views(changes@))),
        decreases proposals.len() - i,
    {
        let proposal = &proposals[i];
        if !same(proposal.key.as_str(), "clear_registration_access_modes") {
            let current = text_under(&merged, proposal.key.as_str());
            assert(str_of(current) == text_at(texts(merged@), proposal.key@));
            match normalize_value(
                proposal.key.as_str(),
                &proposal.value,
                proposal.compact.as_str(),
                current,
            ) {
                Err(error) => {
                    proof {
                        lemma_applied_fails(start, proposals@, i + 1, proposals@.len() as int);
                    }
                    return Err(error);
                },
                Ok(value) => {
                    let ghost before = changes@;
                    let copy = value.clone();
                    proof {
                        lemma_texts_insert(merged@, proposal.key@, copy);
                    }
                    merged.insert(proposal.key.clone(), copy);
                    changes.push((proposal.key.clone(), value));
                    assert(change_views(changes@) =~= change_views(before).push(
                        (proposal.key@, value@),
                    ));
                },
            }
        }
        i += 1;
    }
    match validate_cross_fields(&merged) {
        Ok(_) => Ok((merged, changes)),
        Err(error) => Err(error),
    }
}

/// Whether the competition mode is among the changes and differs from the stored one, which is
/// that of single users where nothing is stored.
pub open spec fn mode_changes(
    changes: Seq<(Seq<char>, Seq<char>)>,
    previous: Option<Seq<char>>,
    requested: Option<Seq<char>>,
) -> bool {
    let before = match previous {
        Some(mode) => mode,
        None => "users"@,
    };
    let after = match requested {
        Some(mode) => mode,
        None => "users"@,
    };
    before != after && exists|i: int|
        0 <= i < changes.len() && (#[trigger] changes[i]).0 == "user_mode"@
}

fn names_key(changes: &Vec<(String, String)>, key: &str) -> (result: bool)
    ensures
        result == (exists|i: int|
            0 <= i < changes@.len() && (#[trigger] change_views(changes@)[i]).0 == key@),
{
    let mut i: usize = 0;
    while i < changes.len()
        invariant
            i <= changes.len(),
            forall|j: int| 0 <= j < i ==> (#[trigger] change_views(changes@)[j]).0 != key@,
        decreases changes.len() - i,
    {
        assert(change_views(changes@)[i as int].0 == changes@[i as int].0@);
        if same(changes[i].0.as_str(), key) {
            assert(change_views(changes@)[i as int].0 == key@);
            return true;
        }
        i += 1;
    }
    false
}

pub fn user_mode_changes(changes: &Vec<(String, String)>, previous: Option<&str>, merged: &Values) -> (
result: bool)
    requires
        merged.ok(),
    ensures
        result == mode_changes(
            change_views(changes@),
            str_of(previous),
            text_at(texts(merged@), "user_mode"@),
        ),
{
    let before = match previous {
        Some(mode) => mode,
        None => "users",
    };
    let after = match text_under(merged, "user_mode") {
        Some(mode) => mode,
        None => "users",
    };
    if same(before, after) {
        return false;
    }
    names_key(changes, "user_mode")
}

/// The competition mode stays what it is once there are participants or activity.
pub fn validate_user_mode_transition(changes_mode: bool, has_activity: bool) -> (result: Result<
    (),
    ApiError,
>)
    ensures
        shown(result) == (if changes_mode && has_activity {
            Err(
                conflict(
                    "Competition mode cannot change after participants or competition activity exist"@,
                ),
            )
        } else {
            Ok::<(), Failure>(())
        }),
{
    if changes_mode && has_activity {
        Err(
            ApiError::conflict(
                "Competition mode cannot change after participants or competition activity exist",
            ),
        )
    } else {
        Ok(())
    }
}

/// A setting that the site knows, and the marker of a complete setup, cannot be deleted.
pub fn delete_legacy(key: &str) -> (result: Result<(), ApiError>)
    ensures
        shown(result) == (if !is_key(key@) {
            Err(bad("Configuration key is invalid"@))
        } else if setting_named(key@) is Some || key@ == "setup"@ {
            Err(
                bad(
                    "Known configuration settings must be changed to their default value instead of deleted"@,
                ),
            )
        } else {
            Ok::<(), Failure>(())
        }),
{
    if let Err(error) = validate_key(key) {
        return Err(error);
    }
    if setting(key).is_some() || same(key, "setup") {
        return Err(
            ApiError::bad_request(
                "Known configuration settings must be changed to their default value instead of deleted",
            ),
        );
    }
    Ok(())
}

// ---------------------------------------------------------------------------
// Laws
// ---------------------------------------------------------------------------

/// Settings that nobody proposes keep their texts, and those that are proposed get their normal
/// value.
pub proof fn law_other_settings_stay(
    values: Map<Seq<char>, Seq<char>>,
    proposals: Seq<Proposal>,
    n: int,
    key: Seq<char>,
)
    requires
        0 <= n <= proposals.len(),
        applied(values, proposals, n) is Ok,
        forall|i: int| 0 <= i < n ==> (#[trigger] proposals[i]).key@ != key,
    ensures
        text_at(applied(values, proposals, n)->Ok_0.0, key) == text_at(values, key),
    decreases n,
{
    if n > 0 {
        law_other_settings_stay(values, proposals, n - 1, key);
        assert(proposals[n - 1].key@ != key);
    }
}

/// An accepted change never sets the marker of a complete setup.
pub proof fn law_setup_marker_stays(
    values: Map<Seq<char>, Seq<char>>,
    proposals: Seq<Proposal>,
    n: int,
)
    requires
        0 <= n <= proposals.len(),
        applied(values, proposals, n) is Ok,
    ensures
        text_at(applied(values, proposals, n)->Ok_0.0, "setup"@) == text_at(
            values,
            "setup"@,
        ),
    decreases n,
{
    if n > 0 {
        law_setup_marker_stays(values, proposals, n - 1);
        let proposal = proposals[n - 1];
        reveal_strlit("setup");
        reveal_strlit("clear_registration_access_modes");
        assert("setup"@.len() != "clear_registration_access_modes"@.len());
    }
}

/// An empty secret keeps what is stored, and `null` clears it.
pub proof fn law_secrets_are_kept_or_cleared(
    label: Seq<char>,
    current: Seq<char>,
    empty: String,
)
    requires
        empty@.len() == 0,
    ensures
        normal_secret(Json::Text(empty), label, Some(current)) == Ok::<Seq<char>, Failure>(current),
        normal_secret(Json::Null, label, Some(current)) == Ok::<Seq<char>, Failure>(Seq::empty()),
{
}

/// Settings that fit together have an event that ends after it starts, at most one kind of mail
/// encryption, a code where one is asked for, and a way to send mail where addresses are verified.
pub proof fn law_accepted_settings_fit(values: Map<Seq<char>, Seq<char>>)
    requires
        cross_problem(values) is None,
    ensures
        moment_at(values, "start"@) is Some && moment_at(values, "end"@) is Some ==> moment_at(
            values,
            "start"@,
        )->Some_0 < moment_at(values, "end"@)->Some_0,
        !(switched_on(values, "mail_ssl"@) && switched_on(values, "mail_tls"@)),
        text_at(values, "registration_access_mode"@) == Some("access_code"@) ==> text_at(
            values,
            "registration_code"@,
        ) is Some && text_at(values, "registration_code"@)->Some_0.len() > 0,
        switched_on(values, "verify_emails"@) ==> given_text(values, "mailfrom_addr"@)
            && provider_ready(values),
{
}

/// Settings fit together wherever none of these stands against it: an end that is not after the
/// start, a freeze outside of them, both kinds of mail encryption, a missing code, a missing sender
/// or provider where addresses are verified, or a provider that is selected and not set up.
pub proof fn law_fitting_settings_are_accepted(values: Map<Seq<char>, Seq<char>>)
    ensures
        ({
            let start = moment_at(values, "start"@);
            let end = moment_at(values, "end"@);
            let freeze = moment_at(values, "freeze"@);
            let provider = text_at(values, "mail_provider"@);
            let mailgun = given_text(values, "mailgun_base_url"@) && given_text(
                values,
                "mailgun_api_key"@,
            );
            let server = given_text(values, "mail_server"@);
            let ordered = start is Some && end is Some ==> start->Some_0 < end->Some_0;
            let framed = freeze is Some ==> (start is Some ==> start->Some_0 <= freeze->Some_0) && (
            end is Some ==> freeze->Some_0 <= end->Some_0);
            let encrypted = !(switched_on(values, "mail_ssl"@) && switched_on(values, "mail_tls"@));
            let coded = text_at(values, "registration_access_mode"@) == Some("access_code"@)
                ==> text_at(values, "registration_code"@) is Some && text_at(
                values,
                "registration_code"@,
            )->Some_0.len() > 0;
            let verified = switched_on(values, "verify_emails"@) ==> given_text(
                values,
                "mailfrom_addr"@,
            ) && (if provider is None || provider == Some("auto"@) {
                mailgun || server
            } else {
                (provider == Some("smtp"@) && server) || (provider == Some("mailgun"@) && mailgun)
            });
            let selected = (provider == Some("smtp"@) ==> server) && (provider == Some("mailgun"@)
                ==> mailgun);
            cross_problem(values) is None <==> ordered && framed && encrypted && coded && verified
                && selected
        }),
{
    reveal_strlit("smtp");
    reveal_strlit("mailgun");
    reveal_strlit("auto");
    assert("smtp"@.len() == 4 && "mailgun"@.len() == 7 && "auto"@.len() == 4);
    assert("smtp"@[0] != "auto"@[0]);
}

/// One proposal more is stored in its normal form under its key, and listed as a change, after those
/// before it; the request is refused where it, or one before it, is.
pub proof fn law_each_proposal_is_applied(
    values: Map<Seq<char>, Seq<char>>,
    proposals: Seq<Proposal>,
    n: int,
)
    requires
        0 <= n < proposals.len(),
        proposals[n].key@ != "clear_registration_access_modes"@,
    ensures
        ({
            let before = applied(values, proposals, n);
            let after = applied(values, proposals, n + 1);
            let key = proposals[n].key@;
            let value = normal_value(
                key,
                proposals[n].value,
                proposals[n].compact@,
                text_at(before->Ok_0.0, key),
            );
            &&& after is Ok <==> before is Ok && value is Ok
            &&& after is Ok ==> after->Ok_0.0 == before->Ok_0.0.insert(key, value->Ok_0)
                && after->Ok_0.1 == before->Ok_0.1.push((key, value->Ok_0))
            &&& before is Err ==> after == before
        }),
        applied(values, proposals, 0) == Ok::<
            (Map<Seq<char>, Seq<char>>, Seq<(Seq<char>, Seq<char>)>),
            Failure,
        >((values, Seq::empty())),
{
}

/// The runtime settings of private challenges are not changed here, whatever else is proposed.
pub proof fn law_runtime_settings_are_changed_elsewhere(
    rows: Seq<(Option<String>, Option<String>)>,
    proposals: Seq<Proposal>,
    i: int,
)
    ensures
        0 <= i < proposals.len() && proposals[i].key@ == "private_challenges"@ ==> mutations_of(
            rows,
            proposals,
        ) is Err,
        (forall|k: int|
            0 <= k < proposals.len() ==> (#[trigger] proposals[k]).key@ != "private_challenges"@)
            ==> mutations_of(rows, proposals) == applied(
            stored_texts(rows),
            proposals,
            proposals.len() as int,
        ),
{
}

/// What is stored last under a key is its text; a row without a value holds an empty one, and a row
/// without a key holds nothing.
pub proof fn law_stored_rows_are_read(
    rows: Seq<(Option<String>, Option<String>)>,
    row: (Option<String>, Option<String>),
    key: Seq<char>,
)
    ensures
        text_at(stored_texts(rows.push(row)), key) == if row.0 is Some && row.0->Some_0@ == key {
            Some(
                if row.1 is Some {
                    row.1->Some_0@
                } else {
                    Seq::empty()
                },
            )
        } else {
            text_at(stored_texts(rows), key)
        },
        text_at(stored_texts(Seq::empty()), key) is None,
{
    assert(rows.push(row).drop_last() =~= rows);
}

/// The mode of the competition changes where it is among the changes and another one than before;
/// where nothing is stored it is that of single users.
pub proof fn law_modes_change(
    changes: Seq<(Seq<char>, Seq<char>)>,
    previous: Option<Seq<char>>,
    requested: Option<Seq<char>>,
    i: int,
)
    ensures
        0 <= i < changes.len() && changes[i].0 == "user_mode"@ ==> (mode_changes(
            changes,
            previous,
            requested,
        ) <==> (if previous is Some {
            previous->Some_0
        } else {
            "users"@
        }) != (if requested is Some {
            requested->Some_0
        } else {
            "users"@
        })),
        (forall|k: int| 0 <= k < changes.len() ==> (#[trigger] changes[k]).0 != "user_mode"@)
            ==> !mode_changes(changes, previous, requested),
{
}

/// A switch is on, a text given and a moment set by what is stored under its key, and by nothing
/// where nothing is.
pub proof fn law_settings_are_looked_up(values: Map<Seq<char>, Seq<char>>, key: Seq<char>)
    ensures
        !values.contains_key(key) ==> !switched_on(values, key) && !given_text(values, key)
            && moment_at(values, key) is None,
        values.contains_key(key) ==> (switched_on(values, key) <==> switch_word(values[key])
            == Some(true)) && (given_text(values, key) <==> trimmed(values[key]).len() > 0)
            && moment_at(values, key) == bounded_value(
            values[key],
            i64::MIN as int,
            i64::MAX as int,
        ),
{
}

} // verus!
