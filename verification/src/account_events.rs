//! What is shown of the submissions and awards of an account.
use crate::attempt::Account;
use crate::auth::{admin_visitor, is_admin_visitor, CurrentUser};
use crate::error::{forbidden, not_found, shown, str_of, ApiError, Failure};
use crate::numbers::{bounded_value, parse_i64};
use crate::settings::{switch, switch_value};
use crate::text::same;
use vstd::prelude::*;

verus! {

/// Which submissions are asked for.
#[derive(Clone, Copy, Debug, PartialEq, Eq, Structural)]
pub enum SubmissionKind {
    All,
    Solves,
    Fails,
}

/// Which submissions are read.
#[derive(Clone, Copy, Debug)]
pub struct SubmissionFilter {
    pub user_id: Option<i32>,
    pub team_id: Option<i32>,
    pub kind: Option<&'static str>,
    pub challenge_id: Option<i32>,
    /// Only what was submitted before.
    pub before: Option<i64>,
}

pub open spec fn user_part(account: Account) -> Option<i32> {
    match account {
        Account::User(id) => Some(id),
        Account::Team(_) => None,
    }
}

pub open spec fn team_part(account: Account) -> Option<i32> {
    match account {
        Account::User(_) => None,
        Account::Team(id) => Some(id),
    }
}

pub open spec fn kind_part(kind: SubmissionKind) -> Option<Seq<char>> {
    match kind {
        SubmissionKind::All => None,
        SubmissionKind::Solves => Some("correct"@),
        SubmissionKind::Fails => Some("incorrect"@),
    }
}

/// The moment from which on scores are frozen.
pub open spec fn freeze_of(freeze: Option<Seq<char>>) -> Option<i64> {
    match freeze {
        Some(text) => match bounded_value(text, i64::MIN as int, i64::MAX as int) {
            Some(moment) => Some(moment as i64),
            None => None,
        },
        None => None,
    }
}

fn freeze_moment(freeze: Option<&str>) -> (result: Option<i64>)
    ensures
        result == freeze_of(str_of(freeze)),
{
    match freeze {
        Some(text) => parse_i64(text),
        None => None,
    }
}

/// What is read and shown of the submissions: those before the freeze, for others than
/// administrators and the account itself. Of failed ones only administrators see more than how
/// many there are.
pub fn submissions_response(
    account: Account,
    kind: SubmissionKind,
    challenge_id: Option<i32>,
    admin: bool,
    apply_freeze: bool,
    freeze: Option<&str>,
) -> (result: (SubmissionFilter, bool))
    ensures
        result.0.user_id == user_part(account),
        result.0.team_id == team_part(account),
        str_of(result.0.kind) == kind_part(kind),
        result.0.challenge_id == challenge_id,
        result.0.before == (if apply_freeze && !admin {
            freeze_of(str_of(freeze))
        } else {
            None
        }),
        result.1 == (admin || kind != SubmissionKind::Fails),
{
    let (user_id, team_id) = match account {
        Account::User(id) => (Some(id), None),
        Account::Team(id) => (None, Some(id)),
    };
    let (word, fails) = match kind {
        SubmissionKind::All => (None, false),
        SubmissionKind::Solves => (Some("correct"), false),
        SubmissionKind::Fails => (Some("incorrect"), true),
    };
    let before: Option<i64> = if apply_freeze && !admin {
        freeze_moment(freeze)
    } else {
        None
    };
    (SubmissionFilter { user_id, team_id, kind: word, challenge_id, before }, admin || !fails)
}

/// A submission as it is stored.
pub struct SubmissionRow {
    pub id: i32,
    pub challenge_id: Option<i32>,
    pub submission_type: Option<String>,
    pub provided: Option<String>,
    pub ip: Option<String>,
    pub user_id: Option<i32>,
    pub user_name: Option<String>,
    pub team_id: Option<i32>,
    pub team_name: Option<String>,
}

/// A submission as it is shown. What is left out is `None`.
pub struct SubmissionView {
    pub id: i32,
    pub challenge_id: Option<i32>,
    pub submission_type: Option<String>,
    pub user: Option<(i32, Option<String>)>,
    pub team: Option<(i32, Option<String>)>,
    pub provided: Option<Option<String>>,
    pub ip: Option<Option<String>>,
}

pub open spec fn named(id: Option<i32>, name: Option<String>) -> Option<(i32, Option<String>)> {
    match id {
        Some(number) => Some((number, name)),
        None => None,
    }
}

fn with_name(id: Option<i32>, name: Option<String>) -> (result: Option<(i32, Option<String>)>)
    ensures
        result == named(id, name),
{
    match id {
        Some(number) => Some((number, name)),
        None => None,
    }
}

/// What was handed in is shown to the account itself and to administrators; the address that it
/// came from, to administrators.
pub fn serialize_submission(row: SubmissionRow, self_view: bool, admin: bool) -> (result:
    SubmissionView)
    ensures
        result == (SubmissionView {
            id: row.id,
            challenge_id: row.challenge_id,
            submission_type: row.submission_type,
            user: named(row.user_id, row.user_name),
            team: named(row.team_id, row.team_name),
            provided: if self_view || admin {
                Some(row.provided)
            } else {
                None
            },
            ip: if admin {
                Some(row.ip)
            } else {
                None
            },
        }),
{
    SubmissionView {
        id: row.id,
        challenge_id: row.challenge_id,
        submission_type: row.submission_type,
        user: with_name(row.user_id, row.user_name),
        team: with_name(row.team_id, row.team_name),
        provided: if self_view || admin {
            Some(row.provided)
        } else {
            None
        },
        ip: if admin {
            Some(row.ip)
        } else {
            None
        },
    }
}

/// Which awards are read, and whether their requirements are shown.
pub fn awards_response(
    account: Account,
    current_account: bool,
    admin: bool,
    freeze: Option<&str>,
) -> (result: (SubmissionFilter, bool))
    ensures
        result.0.user_id == user_part(account),
        result.0.team_id == team_part(account),
        result.0.kind is None,
        result.0.challenge_id is None,
        result.0.before == (if current_account || admin {
            None
        } else {
            freeze_of(str_of(freeze))
        }),
        result.1 == admin,
{
    let (user_id, team_id) = match account {
        Account::User(id) => (Some(id), None),
        Account::Team(id) => (None, Some(id)),
    };
    let before: Option<i64> = if current_account || admin {
        None
    } else {
        freeze_moment(freeze)
    };
    (SubmissionFilter { user_id, team_id, kind: None, challenge_id: None, before }, admin)
}

/// Players see their own submissions where that is allowed.
pub fn require_self_submissions(view_self_submissions: Option<&str>) -> (result: Result<
    (),
    ApiError,
>)
    ensures
        shown(result) == (if switch_value(str_of(view_self_submissions), false) {
            Ok::<(), Failure>(())
        } else {
            Err(forbidden("Viewing your submissions is disabled"@))
        }),
{
    if switch(view_self_submissions, false) {
        Ok(())
    } else {
        Err(ApiError::forbidden("Viewing your submissions is disabled"))
    }
}

/// Whether a visitor may see an account; `flags` says whether the account is banned or hidden.
pub open spec fn account_access(
    user: Option<&CurrentUser>,
    visibility: Option<Seq<char>>,
    flags: Option<(bool, bool)>,
) -> Result<(), Failure> {
    let admin = is_admin_visitor(user);
    if visibility == Some("private"@) && user is None {
        Err(forbidden("Authentication required"@))
    } else if visibility == Some("admins"@) && !admin {
        Err(not_found("Account not found"@))
    } else {
        match flags {
            Some((banned, hidden)) if admin || (!banned && !hidden) => Ok(()),
            _ => Err(not_found("Account not found"@)),
        }
    }
}

pub fn require_public_account_access(
    user: Option<&CurrentUser>,
    account_visibility: Option<&str>,
    flags: Option<(bool, bool)>,
) -> (result: Result<(), ApiError>)
    ensures
        shown(result) == account_access(user, str_of(account_visibility), flags),
{
    let admin = admin_visitor(user);
    if let Some(word) = account_visibility {
        if same(word, "private") && user.is_none() {
            return Err(ApiError::forbidden("Authentication required"));
        }
        if same(word, "admins") && !admin {
            return Err(ApiError::not_found("Account not found"));
        }
    }
    match flags {
        Some((banned, hidden)) => if !admin && (banned || hidden) {
            Err(ApiError::not_found("Account not found"))
        } else {
            Ok(())
        },
        None => Err(ApiError::not_found("Account not found")),
    }
}

pub open spec fn score_access(user: Option<&CurrentUser>, visibility: Option<Seq<char>>) -> Result<
    (),
    Failure,
> {
    let admin = is_admin_visitor(user);
    if visibility == Some("private"@) && user is None {
        Err(forbidden("Authentication required"@))
    } else if visibility == Some("hidden"@) && !admin {
        Err(forbidden("Scores are currently hidden"@))
    } else if visibility == Some("admins"@) && !admin {
        Err(not_found("Scores are not available"@))
    } else {
        Ok(())
    }
}

pub fn require_score_visibility(user: Option<&CurrentUser>, score_visibility: Option<&str>) -> (
result: Result<(), ApiError>)
    ensures
        shown(result) == score_access(user, str_of(score_visibility)),
{
    let admin = admin_visitor(user);
    if let Some(word) = score_visibility {
        if same(word, "private") && user.is_none() {
            return Err(ApiError::forbidden("Authentication required"));
        }
        if same(word, "hidden") && !admin {
            return Err(ApiError::forbidden("Scores are currently hidden"));
        }
        if same(word, "admins") && !admin {
            return Err(ApiError::not_found("Scores are not available"));
        }
    }
    Ok(())
}

pub fn require_team(user: &CurrentUser) -> (result: Result<i32, ApiError>)
    ensures
        shown(result) == (match user.team_id {
            Some(team) => Ok::<i32, Failure>(team),
            None => Err(forbidden("You are not a member of a team"@)),
        }),
{
    match user.team_id {
        Some(team) => Ok(team),
        None => Err(ApiError::forbidden("You are not a member of a team")),
    }
}

pub fn require_team_mode(user_mode: Option<&str>) -> (result: Result<(), ApiError>)
    ensures
        shown(result) == (if str_of(user_mode) == Some("teams"@) {
            Ok::<(), Failure>(())
        } else {
            Err(not_found("Team mode is disabled"@))
        }),
{
    let teams = match user_mode {
        Some(word) => same(word, "teams"),
        None => false,
    };
    if teams {
        Ok(())
    } else {
        Err(ApiError::not_found("Team mode is disabled"))
    }
}

/// A banned or hidden account is shown to administrators only.
pub proof fn law_hidden_accounts_stay_hidden(
    user: Option<&CurrentUser>,
    visibility: Option<Seq<char>>,
    flags: (bool, bool),
)
    requires
        flags.0 || flags.1,
        account_access(user, visibility, Some(flags)) is Ok,
    ensures
        is_admin_visitor(user),
{
}

/// An account that is neither banned nor hidden is seen by everybody, by whoever is signed in where
/// accounts are private, and by administrators where they are theirs; administrators see every
/// account.
pub proof fn law_accounts_are_seen(
    user: Option<&CurrentUser>,
    visibility: Option<Seq<char>>,
    banned: bool,
    hidden: bool,
)
    ensures
        ({
            let result = account_access(user, visibility, Some((banned, hidden)));
            let admin = user is Some && user->Some_0.admin();
            &&& admin ==> result is Ok
            &&& !admin ==> (result is Ok <==> !banned && !hidden && visibility != Some("admins"@)
                && (visibility == Some("private"@) ==> user is Some))
            &&& user is None && visibility == Some("private"@) ==> result == Err::<(), Failure>(
                forbidden("Authentication required"@),
            )
            &&& result is Err && !(user is None && visibility == Some("private"@)) ==> result
                == Err::<(), Failure>(not_found("Account not found"@))
        }),
        account_access(user, visibility, None) is Err,
{
    reveal_strlit("private");
    reveal_strlit("admins");
    assert("private"@.len() != "admins"@.len());
}

/// Scores are seen by administrators always, and by others unless they are hidden, for
/// administrators, or private and the visitor is not signed in.
pub proof fn law_scores_are_seen(user: Option<&CurrentUser>, visibility: Option<Seq<char>>)
    ensures
        ({
            let result = score_access(user, visibility);
            let admin = user is Some && user->Some_0.admin();
            &&& admin ==> result is Ok
            &&& !admin ==> (result is Ok <==> visibility != Some("hidden"@) && visibility != Some(
                "admins"@,
            ) && (visibility == Some("private"@) ==> user is Some))
            &&& !admin && visibility == Some("hidden"@) ==> result == Err::<(), Failure>(
                forbidden("Scores are currently hidden"@),
            )
            &&& !admin && visibility == Some("admins"@) ==> result == Err::<(), Failure>(
                not_found("Scores are not available"@),
            )
        }),
{
    reveal_strlit("private");
    reveal_strlit("admins");
    reveal_strlit("hidden");
    assert("private"@.len() == 7 && "admins"@.len() == 6 && "hidden"@.len() == 6);
    assert("admins"@[0] != "hidden"@[0]);
}

/// An account is asked for as a user or as a team, never as both, and each kind of submission by its
/// own word; the moment of the freeze is read back.
pub proof fn law_events_are_asked_for(account: Account, moment: i64)
    ensures
        user_part(account) is Some <==> account is User,
        team_part(account) is Some <==> account is Team,
        account matches Account::User(id) ==> user_part(account) == Some(id),
        account matches Account::Team(id) ==> team_part(account) == Some(id),
        kind_part(SubmissionKind::All) is None,
        kind_part(SubmissionKind::Solves) == Some("correct"@),
        kind_part(SubmissionKind::Fails) == Some("incorrect"@),
        freeze_of(Some(crate::numbers::integer_text(moment as int))) == Some(moment),
        freeze_of(None) is None,
{
    crate::numbers::law_integer_text_reads_back(moment as int);
}

} // verus!
