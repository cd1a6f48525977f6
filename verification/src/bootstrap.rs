//! What a page needs to know before anything else.
use crate::auth::CurrentUser;
use crate::config_changes::{text_at, text_under, texts, Values};
use crate::error::text_of;
use crate::numbers::{bounded_value, parse_i64};
use crate::register::{access_mode_of, effective_registration_access_mode, mode_word};
use crate::settings::{is_on, means_on};
use crate::text::same;
use crate::text_map::TextMap;
use vstd::prelude::*;

verus! {

/// Whose score is shown.
#[derive(Clone, Copy, Debug, PartialEq, Eq, Structural)]
pub enum ScoreAccount {
    User(i32),
    Team(i32),
}

/// The account whose score counts under a mode.
pub open spec fn scored_account(mode: Seq<char>, user_id: i32, team_id: Option<i32>) -> Option<
    ScoreAccount,
> {
    if mode == "teams"@ {
        match team_id {
            Some(team) => Some(ScoreAccount::Team(team)),
            None => None,
        }
    } else {
        Some(ScoreAccount::User(user_id))
    }
}

/// The account whose score a visitor sees: in team mode the team, where there is one.
pub fn score_account(user_mode: &str, user_id: i32, team_id: Option<i32>) -> (result: Option<
    ScoreAccount,
>)
    ensures
        result == (if user_mode@ != "teams"@ {
            Some(ScoreAccount::User(user_id))
        } else {
            match team_id {
                Some(team) => Some(ScoreAccount::Team(team)),
                None => None,
            }
        }),
        result == scored_account(user_mode@, user_id, team_id),
{
    if same(user_mode, "teams") {
        match team_id {
            Some(team) => Some(ScoreAccount::Team(team)),
            None => None,
        }
    } else {
        Some(ScoreAccount::User(user_id))
    }
}

/// The first row of each key; a row without a value holds an empty text.
pub open spec fn first_rows(rows: Seq<(Option<String>, Option<String>)>) -> Map<
    Seq<char>,
    Seq<char>,
>
    decreases rows.len(),
{
    if rows.len() == 0 {
        Map::empty()
    } else {
        let rest = first_rows(rows.drop_last());
        match rows.last() {
            (Some(key), value) if !rest.contains_key(key@) => rest.insert(
                key@,
                match value {
                    Some(text) => text@,
                    None => Seq::empty(),
                },
            ),
            _ => rest,
        }
    }
}

pub fn site_settings(rows: &Vec<(Option<String>, Option<String>)>) -> (result: Values)
    ensures
        result.ok(),
        texts(result@) == first_rows(rows@),
{
    let mut values: Values = TextMap::new();
    let mut i: usize = 0;
    assert(texts(values@) =~= Map::<Seq<char>, Seq<char>>::empty());
    while i < rows.len()
        invariant
            i <= rows.len(),
            values.ok(),
            texts(values@) == first_rows(rows@.take(i as int)),
        decreases rows.len() - i,
    {
        assert(rows@.take(i + 1).drop_last() =~= rows@.take(i as int));
        assert(rows@.take(i + 1).last() == rows@[i as int]);
        if let Some(key) = &rows[i].0 {
            if values.get(key.as_str()).is_none() {
                let value = match &rows[i].1 {
                    Some(text) => text.clone(),
                    None => String::new(),
                };
                let ghost before = values@;
                values.insert(key.clone(), value);
                assert(texts(values@) =~= texts(before).insert(key@, value@));
            }
        }
        i += 1;
    }
    assert(rows@.take(rows@.len() as int) =~= rows@);
    values
}

/// A setting that is not empty.
pub open spec fn filled_setting(configs: Map<Seq<char>, Seq<char>>, key: Seq<char>) -> Option<
    Seq<char>,
> {
    match text_at(configs, key) {
        Some(text) if text.len() > 0 => Some(text),
        _ => None,
    }
}

pub fn optional_config(configs: &Values, key: &str) -> (result: Option<String>)
    requires
        configs.ok(),
    ensures
        text_of(result) == filled_setting(texts(configs@), key@),
{
    match text_under(configs, key) {
        Some(text) => if text.is_empty() {
            None
        } else {
            Some(text.to_owned())
        },
        None => None,
    }
}

pub open spec fn setting_or(
    configs: Map<Seq<char>, Seq<char>>,
    key: Seq<char>,
    default: Seq<char>,
) -> Seq<char> {
    match filled_setting(configs, key) {
        Some(text) => text,
        None => default,
    }
}

pub fn config(configs: &Values, key: &str, default: &str) -> (result: String)
    requires
        configs.ok(),
    ensures
        result@ == setting_or(texts(configs@), key@, default@),
{
    match optional_config(configs, key) {
        Some(text) => text,
        None => default.to_owned(),
    }
}

pub open spec fn switch_or(
    configs: Map<Seq<char>, Seq<char>>,
    key: Seq<char>,
    default: bool,
) -> bool {
    match text_at(configs, key) {
        Some(text) => means_on(text),
        None => default,
    }
}

pub fn config_bool(configs: &Values, key: &str, default: bool) -> (result: bool)
    requires
        configs.ok(),
    ensures
        result == switch_or(texts(configs@), key@, default),
{
    match text_under(configs, key) {
        Some(text) => is_on(text),
        None => default,
    }
}

pub open spec fn number_or(
    configs: Map<Seq<char>, Seq<char>>,
    key: Seq<char>,
    default: i64,
) -> int {
    match text_at(configs, key) {
        Some(text) => match bounded_value(text, i64::MIN as int, i64::MAX as int) {
            Some(number) => number,
            None => default as int,
        },
        None => default as int,
    }
}

pub fn config_i64(configs: &Values, key: &str, default: i64) -> (result: i64)
    requires
        configs.ok(),
    ensures
        result == number_or(texts(configs@), key@, default),
{
    match text_under(configs, key) {
        Some(text) => match parse_i64(text) {
            Some(number) => number,
            None => default,
        },
        None => default,
    }
}

/// The visitor as the page shows them.
pub struct BootstrapUser {
    pub id: i32,
    pub name: Option<String>,
    pub email: Option<String>,
    pub user_type: String,
    pub team_id: Option<i32>,
    pub verified: bool,
    pub score: i64,
    pub place: Option<String>,
}

/// The site as every visitor may know it. It holds no secret setting.
pub struct SiteConfig {
    pub name: String,
    pub description: String,
    pub player_frontend: String,
    pub user_mode: String,
    pub team_creation: bool,
    pub team_size: i64,
    pub num_teams: i64,
    pub start: Option<String>,
    pub end: Option<String>,
    pub paused: bool,
    pub challenge_visibility: String,
    pub score_visibility: String,
    pub account_visibility: String,
    pub registration_visibility: String,
    pub registration_access_mode: String,
}

pub struct BootstrapData {
    pub setup_required: bool,
    pub authenticated: bool,
    pub user: Option<BootstrapUser>,
    pub site: SiteConfig,
}

pub open spec fn site_matches(site: SiteConfig, configs: Map<Seq<char>, Seq<char>>) -> bool {
    &&& site.name@ == setting_or(configs, "ctf_name"@, "CTFZone"@)
    &&& site.description@ == setting_or(configs, "ctf_description"@, ""@)
    &&& site.player_frontend@ == setting_or(configs, "player_frontend"@, "terminal"@)
    &&& site.user_mode@ == setting_or(configs, "user_mode"@, "users"@)
    &&& site.team_creation == switch_or(configs, "team_creation"@, true)
    &&& site.team_size == number_or(configs, "team_size"@, 0)
    &&& site.num_teams == number_or(configs, "num_teams"@, 0)
    &&& text_of(site.start) == filled_setting(configs, "start"@)
    &&& text_of(site.end) == filled_setting(configs, "end"@)
    &&& site.paused == switch_or(configs, "paused"@, false)
    &&& site.challenge_visibility@ == setting_or(configs, "challenge_visibility"@, "private"@)
    &&& site.score_visibility@ == setting_or(configs, "score_visibility"@, "public"@)
    &&& site.account_visibility@ == setting_or(configs, "account_visibility"@, "public"@)
    &&& site.registration_visibility@ == setting_or(configs, "registration_visibility"@, "public"@)
    &&& site.registration_access_mode@ == mode_word(
        access_mode_of(text_at(configs, "registration_access_mode"@)),
    )
}

pub fn site_config(configs: &Values) -> (result: SiteConfig)
    requires
        configs.ok(),
    ensures
        site_matches(result, texts(configs@)),
{
    SiteConfig {
        name: config(configs, "ctf_name", "CTFZone"),
        description: config(configs, "ctf_description", ""),
        player_frontend: config(configs, "player_frontend", "terminal"),
        user_mode: config(configs, "user_mode", "users"),
        team_creation: config_bool(configs, "team_creation", true),
        team_size: config_i64(configs, "team_size", 0),
        num_teams: config_i64(configs, "num_teams", 0),
        start: optional_config(configs, "start"),
        end: optional_config(configs, "end"),
        paused: config_bool(configs, "paused", false),
        challenge_visibility: config(configs, "challenge_visibility", "private"),
        score_visibility: config(configs, "score_visibility", "public"),
        account_visibility: config(configs, "account_visibility", "public"),
        registration_visibility: config(configs, "registration_visibility", "public"),
        registration_access_mode: effective_registration_access_mode(
            text_under(configs, "registration_access_mode"),
        ).to_owned(),
    }
}

pub open spec fn user_shown(shown: BootstrapUser, user: CurrentUser, score: i64) -> bool {
    &&& shown.id == user.id
    &&& shown.name == user.name
    &&& shown.email == user.email
    &&& shown.user_type == user.user_type
    &&& shown.team_id == user.team_id
    &&& shown.verified == user.verified
    &&& shown.score == score
    &&& shown.place is None
}

/// What a page is told: whether the site has to be set up, who the visitor is, and the site. The
/// score is that of the visitor's account, and none where there is no such account.
pub fn data(
    user: Option<CurrentUser>,
    configs: &Values,
    setup_complete: bool,
    account_score: i64,
) -> (result: BootstrapData)
    requires
        configs.ok(),
    ensures
        result.setup_required == !setup_complete,
        result.authenticated == (user is Some),
        result.user is Some <==> user is Some,
        user matches Some(current) ==> user_shown(
            result.user->Some_0,
            current,
            if setting_or(texts(configs@), "user_mode"@, "users"@) == "teams"@
                && current.team_id is None {
                0
            } else {
                account_score
            },
        ),
        site_matches(result.site, texts(configs@)),
{
    let site = site_config(configs);
    let authenticated = user.is_some();
    let shown = match user {
        Some(current) => {
            let score: i64 = match score_account(
                site.user_mode.as_str(),
                current.id,
                current.team_id,
            ) {
                Some(_) => account_score,
                None => 0,
            };
            Some(
                BootstrapUser {
                    id: current.id,
                    name: current.name,
                    email: current.email,
                    user_type: current.user_type,
                    team_id: current.team_id,
                    verified: current.verified,
                    score,
                    place: None,
                },
            )
        },
        None => None,
    };
    BootstrapData { setup_required: !setup_complete, authenticated, user: shown, site }
}

// ---------------------------------------------------------------------------
// Laws
// ---------------------------------------------------------------------------

/// Of several rows for a key the first counts; a row without a value holds an empty text, and one
/// without a key nothing.
pub proof fn law_the_first_row_counts(
    rows: Seq<(Option<String>, Option<String>)>,
    row: (Option<String>, Option<String>),
    key: Seq<char>,
)
    ensures
        text_at(first_rows(rows), key) is Some ==> text_at(first_rows(rows.push(row)), key)
            == text_at(first_rows(rows), key),
        text_at(first_rows(rows), key) is None ==> text_at(first_rows(rows.push(row)), key)
            == if row.0 is Some && row.0->Some_0@ == key {
            Some(
                if row.1 is Some {
                    row.1->Some_0@
                } else {
                    Seq::empty()
                },
            )
        } else {
            None
        },
        text_at(first_rows(Seq::empty()), key) is None,
{
    assert(rows.push(row).drop_last() =~= rows);
}

/// A setting that is stored and not empty counts, and else the default does; a switch counts even
/// where it is empty, and a number where it can be read.
pub proof fn law_stored_settings_count(
    configs: Map<Seq<char>, Seq<char>>,
    key: Seq<char>,
    text: Seq<char>,
    flag: bool,
    number: i64,
)
    ensures
        ({
            let stored = configs.contains_key(key);
            let value = configs[key];
            &&& stored && value.len() > 0 ==> setting_or(configs, key, text) == value
                && filled_setting(configs, key) == Some(value)
            &&& !stored || value.len() == 0 ==> setting_or(configs, key, text) == text
                && filled_setting(configs, key) is None
            &&& stored ==> (switch_or(configs, key, flag) <==> means_on(value))
            &&& !stored ==> switch_or(configs, key, flag) == flag && number_or(configs, key, number)
                == number
            &&& stored ==> number_or(configs, key, number) == (match bounded_value(
                value,
                i64::MIN as int,
                i64::MAX as int,
            ) {
                Some(found) => found,
                None => number as int,
            })
        }),
{
}

/// What a visitor is told of the site is what is stored, with a private list of challenges and public
/// scores, accounts and registration where nothing is.
pub proof fn law_sites_are_told_as_stored(site: SiteConfig, configs: Map<Seq<char>, Seq<char>>)
    requires
        site_matches(site, configs),
    ensures
        configs.contains_key("ctf_name"@) && configs["ctf_name"@].len() > 0 ==> site.name@
            == configs["ctf_name"@],
        configs.contains_key("user_mode"@) && configs["user_mode"@].len() > 0 ==> site.user_mode@
            == configs["user_mode"@],
        !configs.contains_key("user_mode"@) ==> site.user_mode@ == "users"@,
        !configs.contains_key("challenge_visibility"@) ==> site.challenge_visibility@
            == "private"@,
        !configs.contains_key("score_visibility"@) ==> site.score_visibility@ == "public"@,
        !configs.contains_key("account_visibility"@) ==> site.account_visibility@ == "public"@,
        !configs.contains_key("registration_visibility"@) ==> site.registration_visibility@
            == "public"@,
        !configs.contains_key("paused"@) ==> !site.paused,
        !configs.contains_key("team_creation"@) ==> site.team_creation,
        configs.contains_key("paused"@) ==> (site.paused <==> means_on(configs["paused"@])),
        configs.contains_key("registration_access_mode"@) ==> site.registration_access_mode@
            == mode_word(access_mode_of(Some(configs["registration_access_mode"@]))),
        !configs.contains_key("start"@) ==> site.start is None,
        configs.contains_key("start"@) && configs["start"@].len() > 0 ==> site.start is Some
            && site.start->Some_0@ == configs["start"@],
        configs.contains_key("end"@) && configs["end"@].len() > 0 ==> site.end is Some
            && site.end->Some_0@ == configs["end"@],
{
}

/// A visitor is shown as the account is, with the score that is given and no place.
pub proof fn law_visitors_are_shown_as_they_are(
    shown: BootstrapUser,
    user: CurrentUser,
    score: i64,
)
    requires
        user_shown(shown, user, score),
    ensures
        shown.id == user.id && shown.name == user.name && shown.email == user.email,
        shown.user_type == user.user_type && shown.team_id == user.team_id && shown.verified
            == user.verified,
        shown.score == score && shown.place is None,
{
}

/// In team mode the score is the team's, where there is one, and in any other mode the user's.
pub proof fn law_scores_are_of_the_account(mode: Seq<char>, user: i32, team: Option<i32>)
    ensures
        mode != "teams"@ ==> scored_account(mode, user, team) == Some(ScoreAccount::User(user)),
        team is Some ==> scored_account("teams"@, user, team) == Some(
            ScoreAccount::Team(team->Some_0),
        ),
        team is None ==> scored_account("teams"@, user, team) is None,
{
}

} // verus!
