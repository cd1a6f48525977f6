//! What administrators do to flags, submissions, comments and topics.
use crate::admin_rules::{
    field_ok, is_submission_type, short_text_of, validate_field, validate_short_text,
    validate_submission_type,
};
use crate::auth::CurrentUser;
use crate::challenge_view::{
    condition_views, integer_condition, push_integer, push_text, text_condition, Condition,
};
use crate::config_changes::change_views;
use crate::configuration::{public_row, PublicConfig, StoredConfig};
use crate::error::{
    bad, conflict, forbidden, not_found, shown, shown_text, str_of, text_of, ApiError, Failure,
};
use crate::flag_policy::{
    normal_definition, normalize_definition, shown_definition, FlagPolicyData,
    RANDOM_TOKEN_PLACEHOLDER,
};
use crate::json::{find, lookup, Json};
use crate::settings_table::{setting, setting_named};
use crate::text::{concat, same, trim, trimmed};
use vstd::prelude::*;

verus! {

// ---------------------------------------------------------------------------
// Flags
// ---------------------------------------------------------------------------

pub open spec fn running_instances() -> Failure {
    conflict("Stop the active challenge instances before changing flags"@)
}

fn instances_error() -> (result: ApiError)
    ensures
        result@ == running_instances(),
{
    ApiError::conflict("Stop the active challenge instances before changing flags")
}

/// The flag that a request adds to a challenge; `exposure` is that of the challenge.
pub fn create_flag(
    user: &CurrentUser,
    exposure: Option<&str>,
    active_instances: bool,
    flag_type: &str,
    content: &str,
    data: &Json,
) -> (result: Result<(String, String, FlagPolicyData), ApiError>)
    ensures
        shown_definition(result) == (if !user.admin() {
            Err(forbidden("Administrator access is required"@))
        } else {
            match str_of(exposure) {
                None => Err(not_found("Challenge not found"@)),
                Some(word) => if active_instances {
                    Err(running_instances())
                } else {
                    normal_definition(flag_type@, content@, *data, word)
                },
            }
        }),
{
    if let Err(error) = crate::auth::require_admin(user) {
        return Err(error);
    }
    let word = match exposure {
        Some(word) => word,
        None => return Err(ApiError::not_found("Challenge not found")),
    };
    if active_instances {
        return Err(instances_error());
    }
    normalize_definition(flag_type, content, data, word)
}

/// A flag as it is stored.
pub struct CurrentFlag {
    pub challenge_id: i32,
    pub flag_type: String,
    pub content: String,
    pub data: Json,
}

/// A change of a flag: what is given is changed.
pub struct FlagPatch {
    pub challenge_id: Option<i32>,
    pub flag_type: Option<String>,
    pub content: Option<String>,
    pub data: Option<Json>,
}

/// What has been read for a change of a flag.
pub struct FlagFacts {
    /// The challenge of the flag, before anything was locked.
    pub initial: Option<Option<i32>>,
    /// The flag, under the locks of its challenge and of the one that it moves to.
    pub current: Option<Option<CurrentFlag>>,
    pub exposure: Option<Option<String>>,
    /// How many flags the challenge has that the flag leaves.
    pub source_flag_count: Option<i64>,
    pub allocated: Option<bool>,
    pub source_active: Option<bool>,
    pub target_active: Option<bool>,
}

#[derive(Clone, Copy, Debug, PartialEq, Eq, Structural)]
pub enum FlagRead {
    Initial,
    /// Locks the definitions of the challenges, in ascending order, and reads the flag.
    Current { first: i32, second: Option<i32> },
    Exposure { challenge_id: i32 },
    SourceFlagCount { challenge_id: i32 },
    Allocated,
    Active { challenge_id: i32 },
}

/// A flag that may be saved.
pub struct FlagChange {
    pub challenge_id: i32,
    pub flag_type: String,
    pub content: String,
    pub policy: FlagPolicyData,
}

pub enum FlagStep {
    Read(FlagRead),
    Save(FlagChange),
}

/// The course of a change, by value.
pub enum FlagCourse {
    Read(FlagRead),
    Save(i32, Seq<char>, Seq<char>, FlagPolicyData),
}

pub open spec fn shown_flag(result: Result<FlagStep, ApiError>) -> Result<FlagCourse, Failure> {
    match result {
        Ok(FlagStep::Read(read)) => Ok(FlagCourse::Read(read)),
        Ok(FlagStep::Save(change)) => Ok(
            FlagCourse::Save(
                change.challenge_id,
                change.flag_type@,
                change.content@,
                change.policy,
            ),
        ),
        Err(error) => Err(error@),
    }
}

/// The stored options are just those of the policy.
pub open spec fn data_is(data: Json, policy: FlagPolicyData) -> bool {
    data matches Json::Object(fields) && {
        &&& lookup(fields@, "case_sensitive"@) matches Some(value) && value.boolean() == Some(
            policy.case_sensitive,
        )
        &&& lookup(fields@, "leet_variation"@) matches Some(value) && value.boolean() == Some(
            policy.leet_variation,
        )
        &&& lookup(fields@, "accept_other_users"@) matches Some(value) && value.boolean() == Some(
            policy.accept_other_users,
        )
        &&& forall|i: int|
            0 <= i < fields@.len() ==> is_option_key((#[trigger] fields@[i]).0@)
    }
}

pub open spec fn is_option_key(key: Seq<char>) -> bool {
    key == "case_sensitive"@ || key == "leet_variation"@ || key == "accept_other_users"@
}

fn only_option_keys(fields: &Vec<(String, Json)>) -> (result: bool)
    ensures
        result == (forall|i: int|
            0 <= i < fields@.len() ==> is_option_key((#[trigger] fields@[i]).0@)),
{
    let mut i: usize = 0;
    while i < fields.len()
        invariant
            i <= fields.len(),
            forall|j: int| 0 <= j < i ==> is_option_key((#[trigger] fields@[j]).0@),
        decreases fields.len() - i,
    {
        let key = fields[i].0.as_str();
        if !(same(key, "case_sensitive") || same(key, "leet_variation") || same(
            key,
            "accept_other_users",
        )) {
            assert(!is_option_key(fields@[i as int].0@));
            return false;
        }
        i += 1;
    }
    true
}

fn option_is(fields: &Vec<(String, Json)>, key: &str, flag: bool) -> (result: bool)
    ensures
        result == (lookup(fields@, key@) matches Some(value) && value.boolean() == Some(flag)),
{
    match find(fields, key) {
        Some(value) => match value.as_bool() {
            Some(found) => found == flag,
            None => false,
        },
        None => false,
    }
}

fn is_data(data: &Json, policy: FlagPolicyData) -> (result: bool)
    ensures
        result == data_is(*data, policy),
{
    match data {
        Json::Object(fields) => option_is(fields, "case_sensitive", policy.case_sensitive)
            && option_is(fields, "leet_variation", policy.leet_variation) && option_is(
            fields,
            "accept_other_users",
            policy.accept_other_users,
        ) && only_option_keys(fields),
        _ => false,
    }
}

pub open spec fn or_current(given: Option<String>, current: Seq<char>) -> Seq<char> {
    match given {
        Some(text) => text@,
        None => current,
    }
}

pub open spec fn target_challenge(patch: FlagPatch, current: i32) -> i32 {
    match patch.challenge_id {
        Some(id) => id,
        None => current,
    }
}

/// The definition after a change.
pub open spec fn changed_definition(
    patch: FlagPatch,
    current: CurrentFlag,
    exposure: Seq<char>,
) -> Result<(Seq<char>, Seq<char>, FlagPolicyData), Failure> {
    normal_definition(
        or_current(patch.flag_type, current.flag_type@),
        or_current(patch.content, current.content@),
        match patch.data {
            Some(data) => data,
            None => current.data,
        },
        exposure,
    )
}

/// Whether a change has to wait or is refused: a challenge keeps one flag at least, a flag that
/// players hold stays as it is, and nothing changes while instances run.
pub open spec fn flag_guard(source: i32, target: i32, facts: FlagFacts) -> Result<
    Option<FlagRead>,
    Failure,
> {
    if source != target && facts.source_flag_count is None {
        Ok(Some(FlagRead::SourceFlagCount { challenge_id: source }))
    } else if source != target && facts.source_flag_count->Some_0 <= 1 {
        Err(conflict("A challenge must retain at least one flag definition"@))
    } else {
        match (facts.allocated, facts.source_active) {
            (None, _) => Ok(Some(FlagRead::Allocated)),
            (Some(true), _) => Err(
                conflict("Generated flag definitions cannot change after allocation"@),
            ),
            (Some(false), None) => Ok(Some(FlagRead::Active { challenge_id: source })),
            (Some(false), Some(true)) => Err(running_instances()),
            (Some(false), Some(false)) => if source == target {
                Ok(None)
            } else {
                match facts.target_active {
                    None => Ok(Some(FlagRead::Active { challenge_id: target })),
                    Some(true) => Err(running_instances()),
                    Some(false) => Ok(None),
                }
            },
        }
    }
}

fn check_flag_guard(source: i32, target: i32, facts: &FlagFacts) -> (result: Result<
    Option<FlagRead>,
    ApiError,
>)
    ensures
        shown(result) == flag_guard(source, target, *facts),
{
    if source != target {
        match facts.source_flag_count {
            None => return Ok(Some(FlagRead::SourceFlagCount { challenge_id: source })),
            Some(count) => {
                if count <= 1 {
                    return Err(
                        ApiError::conflict("A challenge must retain at least one flag definition"),
                    );
                }
            },
        }
    }
    match facts.allocated {
        None => return Ok(Some(FlagRead::Allocated)),
        Some(allocated) => {
            if allocated {
                return Err(
                    ApiError::conflict("Generated flag definitions cannot change after allocation"),
                );
            }
        },
    }
    match facts.source_active {
        None => return Ok(Some(FlagRead::Active { challenge_id: source })),
        Some(active) => {
            if active {
                return Err(instances_error());
            }
        },
    }
    if source == target {
        return Ok(None);
    }
    match facts.target_active {
        None => Ok(Some(FlagRead::Active { challenge_id: target })),
        Some(active) => if active {
            Err(instances_error())
        } else {
            Ok(None)
        },
    }
}

/// The locks that a change takes, in ascending order.
pub open spec fn flag_locks(initial: i32, requested: i32) -> FlagRead {
    if initial == requested {
        FlagRead::Current { first: initial, second: None }
    } else if initial < requested {
        FlagRead::Current { first: initial, second: Some(requested) }
    } else {
        FlagRead::Current { first: requested, second: Some(initial) }
    }
}

pub open spec fn update_flag_course(admin: bool, patch: FlagPatch, facts: FlagFacts) -> Result<
    FlagCourse,
    Failure,
> {
    if !admin {
        Err(forbidden("Administrator access is required"@))
    } else {
        match (facts.initial, facts.current) {
            (None, _) => Ok(FlagCourse::Read(FlagRead::Initial)),
            (Some(None), _) => Err(not_found("Flag not found"@)),
            (Some(Some(initial)), None) => Ok(
                FlagCourse::Read(flag_locks(initial, target_challenge(patch, initial))),
            ),
            (Some(Some(_)), Some(None)) => Err(not_found("Flag not found"@)),
            (Some(Some(initial)), Some(Some(current))) => if current.challenge_id != initial {
                Err(conflict("The flag changed concurrently; reload it and try again"@))
            } else {
                let target = target_challenge(patch, current.challenge_id);
                match facts.exposure {
                    None => Ok(FlagCourse::Read(FlagRead::Exposure { challenge_id: target })),
                    Some(None) => Err(not_found("Challenge not found"@)),
                    Some(Some(exposure)) => match changed_definition(patch, current, exposure@) {
                        Err(failure) => Err(failure),
                        Ok((kind, content, policy)) => {
                            let changed = target != current.challenge_id || kind
                                != current.flag_type@ || content != current.content@ || !data_is(
                                current.data,
                                policy,
                            );
                            let save = FlagCourse::Save(target, kind, content, policy);
                            if !changed {
                                Ok(save)
                            } else {
                                match flag_guard(current.challenge_id, target, facts) {
                                    Err(failure) => Err(failure),
                                    Ok(Some(read)) => Ok(FlagCourse::Read(read)),
                                    Ok(None) => Ok(save),
                                }
                            }
                        },
                    },
                }
            },
        }
    }
}

fn change_definition(patch: &FlagPatch, current: &CurrentFlag, exposure: &str) -> (result: Result<
    (String, String, FlagPolicyData),
    ApiError,
>)
    ensures
        shown_definition(result) == changed_definition(*patch, *current, exposure@),
{
    let kind = match &patch.flag_type {
        Some(text) => text.as_str(),
        None => current.flag_type.as_str(),
    };
    let content = match &patch.content {
        Some(text) => text.as_str(),
        None => current.content.as_str(),
    };
    let data = match &patch.data {
        Some(data) => data,
        None => &current.data,
    };
    normalize_definition(kind, content, data, exposure)
}

/// The next step of a change of a flag.
pub fn update_flag(user: &CurrentUser, patch: &FlagPatch, facts: &FlagFacts) -> (result: Result<
    FlagStep,
    ApiError,
>)
    ensures
        shown_flag(result) == update_flag_course(user.admin(), *patch, *facts),
{
    if let Err(error) = crate::auth::require_admin(user) {
        return Err(error);
    }
    let initial: i32 = match facts.initial {
        None => return Ok(FlagStep::Read(FlagRead::Initial)),
        Some(None) => return Err(ApiError::not_found("Flag not found")),
        Some(Some(id)) => id,
    };
    let target: i32 = match patch.challenge_id {
        Some(id) => id,
        None => initial,
    };
    let current = match &facts.current {
        None => {
            let (first, second) = if initial == target {
                (initial, None)
            } else if initial < target {
                (initial, Some(target))
            } else {
                (target, Some(initial))
            };
            return Ok(FlagStep::Read(FlagRead::Current { first, second }));
        },
        Some(None) => return Err(ApiError::not_found("Flag not found")),
        Some(Some(current)) => current,
    };
    if current.challenge_id != initial {
        return Err(ApiError::conflict("The flag changed concurrently; reload it and try again"));
    }
    let exposure = match &facts.exposure {
        None => return Ok(FlagStep::Read(FlagRead::Exposure { challenge_id: target })),
        Some(None) => return Err(ApiError::not_found("Challenge not found")),
        Some(Some(exposure)) => exposure.as_str(),
    };
    let (flag_type, content, policy) = match change_definition(patch, current, exposure) {
        Ok(definition) => definition,
        Err(error) => return Err(error),
    };
    let changed = target != current.challenge_id || !same(
        flag_type.as_str(),
        current.flag_type.as_str(),
    ) || !same(content.as_str(), current.content.as_str()) || !is_data(&current.data, policy);
    if changed {
        match check_flag_guard(current.challenge_id, target, facts) {
            Ok(None) => {},
            Ok(Some(read)) => return Ok(FlagStep::Read(read)),
            Err(error) => return Err(error),
        }
    }
    Ok(FlagStep::Save(FlagChange { challenge_id: target, flag_type, content, policy }))
}

/// What has been read for deleting a flag.
#[derive(Clone, Copy, Debug)]
pub struct DeleteFlagFacts {
    pub initial: Option<Option<i32>>,
    /// The challenge of the flag, under the lock of the challenge.
    pub current: Option<Option<i32>>,
    pub allocated: Option<bool>,
    pub flag_count: Option<i64>,
    pub active: Option<bool>,
}

#[derive(Clone, Copy, Debug, PartialEq, Eq, Structural)]
pub enum DeleteFlagStep {
    ReadInitial,
    LockAndRead { challenge_id: i32 },
    ReadAllocated,
    ReadFlagCount { challenge_id: i32 },
    ReadActive { challenge_id: i32 },
    Delete,
}

pub open spec fn delete_flag_course(admin: bool, facts: DeleteFlagFacts) -> Result<
    DeleteFlagStep,
    Failure,
> {
    if !admin {
        Err(forbidden("Administrator access is required"@))
    } else {
        match (facts.initial, facts.current) {
            (None, _) => Ok(DeleteFlagStep::ReadInitial),
            (Some(None), _) => Err(not_found("Flag not found"@)),
            (Some(Some(challenge_id)), None) => Ok(DeleteFlagStep::LockAndRead { challenge_id }),
            (Some(Some(_)), Some(None)) => Err(not_found("Flag not found"@)),
            (Some(Some(initial)), Some(Some(challenge_id))) => if challenge_id != initial {
                Err(conflict("The flag changed concurrently; reload it and try again"@))
            } else {
                match (facts.allocated, facts.flag_count, facts.active) {
                    (None, _, _) => Ok(DeleteFlagStep::ReadAllocated),
                    (Some(true), _, _) => Err(
                        conflict("Generated flags cannot be deleted after allocation"@),
                    ),
                    (Some(false), None, _) => Ok(DeleteFlagStep::ReadFlagCount { challenge_id }),
                    (Some(false), Some(count), active) => if count <= 1 {
                        Err(conflict("A challenge must retain at least one flag definition"@))
                    } else {
                        match active {
                            None => Ok(DeleteFlagStep::ReadActive { challenge_id }),
                            Some(true) => Err(running_instances()),
                            Some(false) => Ok(DeleteFlagStep::Delete),
                        }
                    },
                }
            },
        }
    }
}

/// The next step of deleting a flag.
pub fn delete_flag(user: &CurrentUser, facts: &DeleteFlagFacts) -> (result: Result<
    DeleteFlagStep,
    ApiError,
>)
    ensures
        shown(result) == delete_flag_course(user.admin(), *facts),
{
    if let Err(error) = crate::auth::require_admin(user) {
        return Err(error);
    }
    let initial: i32 = match facts.initial {
        None => return Ok(DeleteFlagStep::ReadInitial),
        Some(None) => return Err(ApiError::not_found("Flag not found")),
        Some(Some(id)) => id,
    };
    let challenge_id: i32 = match facts.current {
        None => return Ok(DeleteFlagStep::LockAndRead { challenge_id: initial }),
        Some(None) => return Err(ApiError::not_found("Flag not found")),
        Some(Some(id)) => id,
    };
    if challenge_id != initial {
        return Err(ApiError::conflict("The flag changed concurrently; reload it and try again"));
    }
    match facts.allocated {
        None => return Ok(DeleteFlagStep::ReadAllocated),
        Some(allocated) => {
            if allocated {
                return Err(
                    ApiError::conflict("Generated flags cannot be deleted after allocation"),
                );
            }
        },
    }
    match facts.flag_count {
        None => return Ok(DeleteFlagStep::ReadFlagCount { challenge_id }),
        Some(count) => {
            if count <= 1 {
                return Err(
                    ApiError::conflict("A challenge must retain at least one flag definition"),
                );
            }
        },
    }
    match facts.active {
        None => Ok(DeleteFlagStep::ReadActive { challenge_id }),
        Some(active) => if active {
            Err(instances_error())
        } else {
            Ok(DeleteFlagStep::Delete)
        },
    }
}

/// No flag is deleted from a challenge, and none moved away from it, that has no other.
pub proof fn law_challenges_keep_a_flag(
    admin: bool,
    patch: FlagPatch,
    facts: FlagFacts,
    deletion: DeleteFlagFacts,
)
    ensures
        delete_flag_course(admin, deletion) == Ok::<DeleteFlagStep, Failure>(
            DeleteFlagStep::Delete,
        ) ==> deletion.flag_count is Some && deletion.flag_count->Some_0 > 1,
        update_flag_course(admin, patch, facts) matches Ok(FlagCourse::Save(target, _, _, _)) && (
        facts.current matches Some(Some(current)) && target != current.challenge_id)
            ==> facts.source_flag_count is Some && facts.source_flag_count->Some_0 > 1,
{
}

/// A flag that players hold neither changes nor goes away.
pub proof fn law_allocated_flags_stay(
    admin: bool,
    patch: FlagPatch,
    facts: FlagFacts,
    deletion: DeleteFlagFacts,
)
    ensures
        deletion.allocated == Some(true) ==> delete_flag_course(admin, deletion) != Ok::<
            DeleteFlagStep,
            Failure,
        >(DeleteFlagStep::Delete),
        facts.allocated == Some(true) ==> (update_flag_course(admin, patch, facts) matches Ok(
            FlagCourse::Save(target, kind, content, policy),
        ) ==> (facts.current matches Some(Some(current)) && target == current.challenge_id && kind
            == current.flag_type@ && content == current.content@ && data_is(current.data, policy))),
{
}

// ---------------------------------------------------------------------------
// Submissions and awards
// ---------------------------------------------------------------------------

/// What is known of the account that a record is for.
#[derive(Clone, Copy, Debug)]
pub struct AccountFacts {
    /// The competition mode is that of single users.
    pub users_mode: bool,
    /// There is a participant of that number.
    pub participant: bool,
    /// The participant's team.
    pub assigned_team: Option<i32>,
}

/// The team that a record is for: none in the mode of single users, else the team of the user.
pub open spec fn canonical_team(
    facts: AccountFacts,
    requested: Option<i32>,
    kind: Seq<char>,
) -> Result<Option<i32>, Failure> {
    if facts.users_mode {
        if requested is Some {
            Err(bad("A "@ + kind + " cannot target a team while competition mode is users"@))
        } else if !facts.participant {
            Err(bad("The "@ + kind + " user is not a participant"@))
        } else {
            Ok(None)
        }
    } else {
        match facts.assigned_team {
            None => Err(bad("The "@ + kind + " user does not belong to a team"@)),
            Some(team) => if requested is Some && requested != Some(team) {
                Err(bad("The "@ + kind + " team does not match the user's current team"@))
            } else {
                Ok(Some(team))
            },
        }
    }
}

fn complain(start: &str, kind: &str, end: &str) -> (result: ApiError)
    ensures
        result@ == bad(start@ + kind@ + end@),
{
    let first = concat(start, kind);
    let message = concat(first.as_str(), end);
    ApiError::bad_request(message.as_str())
}

pub fn canonical_account_team_id(
    facts: AccountFacts,
    requested_team_id: Option<i32>,
    record_kind: &str,
) -> (result: Result<Option<i32>, ApiError>)
    ensures
        shown(result) == canonical_team(facts, requested_team_id, record_kind@),
{
    if facts.users_mode {
        if requested_team_id.is_some() {
            return Err(
                complain(
                    "A ",
                    record_kind,
                    " cannot target a team while competition mode is users",
                ),
            );
        }
        if !facts.participant {
            return Err(complain("The ", record_kind, " user is not a participant"));
        }
        return Ok(None);
    }
    let assigned: i32 = match facts.assigned_team {
        Some(team) => team,
        None => return Err(complain("The ", record_kind, " user does not belong to a team")),
    };
    if let Some(requested) = requested_team_id {
        if requested != assigned {
            return Err(
                complain("The ", record_kind, " team does not match the user's current team"),
            );
        }
    }
    Ok(Some(assigned))
}

/// The team of a new award.
pub fn create_award(user: &CurrentUser, facts: AccountFacts, team_id: Option<i32>) -> (result: Result<
    Option<i32>,
    ApiError,
>)
    ensures
        shown(result) == (if user.admin() {
            canonical_team(facts, team_id, "award"@)
        } else {
            Err(forbidden("Administrator access is required"@))
        }),
{
    if let Err(error) = crate::auth::require_admin(user) {
        return Err(error);
    }
    canonical_account_team_id(facts, team_id, "award")
}

/// The team of a new submission, and whether it is a solve.
pub fn create_submission(
    user: &CurrentUser,
    submission_type: &str,
    facts: AccountFacts,
    team_id: Option<i32>,
) -> (result: Result<(Option<i32>, bool), ApiError>)
    ensures
        shown(result) == (if !user.admin() {
            Err(forbidden("Administrator access is required"@))
        } else if !is_submission_type(submission_type@) {
            Err(bad("Submission type is invalid"@))
        } else {
            match canonical_team(facts, team_id, "submission"@) {
                Ok(team) => Ok::<(Option<i32>, bool), Failure>(
                    (team, submission_type@ == "correct"@),
                ),
                Err(failure) => Err(failure),
            }
        }),
{
    if let Err(error) = crate::auth::require_admin(user) {
        return Err(error);
    }
    if let Err(error) = validate_submission_type(submission_type) {
        return Err(error);
    }
    match canonical_account_team_id(facts, team_id, "submission") {
        Ok(team) => Ok((team, same(submission_type, "correct"))),
        Err(error) => Err(error),
    }
}

/// What a change of a submission does.
#[derive(Clone, Copy, Debug, PartialEq, Eq, Structural)]
pub enum SubmissionChange {
    /// Writes a correct submission with its solve for the team, and discards the old one.
    Promote { team_id: Option<i32> },
    /// Takes the solve away and changes the submission.
    Demote,
    /// Changes the submission.
    Plain,
}

/// A submission as it is stored.
pub struct CurrentSubmission {
    pub submission_type: Option<String>,
    pub team_id: Option<i32>,
}

pub open spec fn requested_type(patch: Option<Seq<char>>, current: Option<Seq<char>>) -> Seq<char> {
    match patch {
        Some(word) => word,
        None => match current {
            Some(word) => word,
            None => Seq::empty(),
        },
    }
}

/// The course of a change: the type that the submission gets, and what is done for it.
pub open spec fn submission_course(
    admin: bool,
    current: Option<CurrentSubmission>,
    patch: Option<Seq<char>>,
    facts: AccountFacts,
) -> Result<(Seq<char>, SubmissionChange), Failure> {
    if !admin {
        Err(forbidden("Administrator access is required"@))
    } else {
        match current {
            None => Err(not_found("Submission not found"@)),
            Some(submission) => {
                let before = text_of(submission.submission_type);
                let after = requested_type(patch, before);
                if !is_submission_type(after) {
                    Err(bad("Submission type is invalid"@))
                } else {
                    match canonical_team(facts, submission.team_id, "submission"@) {
                        Err(failure) => Err(failure),
                        Ok(team_id) => {
                            let was = before == Some("correct"@);
                            let correct = after == "correct"@;
                            Ok(
                                (
                                    after,
                                    if !was && correct {
                                        SubmissionChange::Promote { team_id }
                                    } else if was && !correct {
                                        SubmissionChange::Demote
                                    } else {
                                        SubmissionChange::Plain
                                    },
                                ),
                            )
                        },
                    }
                }
            },
        }
    }
}

pub open spec fn shown_change(result: Result<(String, SubmissionChange), ApiError>) -> Result<
    (Seq<char>, SubmissionChange),
    Failure,
> {
    match result {
        Ok((word, change)) => Ok((word@, change)),
        Err(error) => Err(error@),
    }
}

pub fn update_submission(
    user: &CurrentUser,
    current: Option<&CurrentSubmission>,
    patch: Option<&str>,
    facts: AccountFacts,
) -> (result: Result<(String, SubmissionChange), ApiError>)
    ensures
        shown_change(result) == submission_course(
            user.admin(),
            match current {
                Some(submission) => Some(*submission),
                None => None,
            },
            str_of(patch),
            facts,
        ),
{
    if let Err(error) = crate::auth::require_admin(user) {
        return Err(error);
    }
    let submission = match current {
        Some(submission) => submission,
        None => return Err(ApiError::not_found("Submission not found")),
    };
    let was = match &submission.submission_type {
        Some(word) => same(word.as_str(), "correct"),
        None => false,
    };
    let after = match patch {
        Some(word) => word.to_owned(),
        None => match &submission.submission_type {
            Some(word) => word.clone(),
            None => String::new(),
        },
    };
    if let Err(error) = validate_submission_type(after.as_str()) {
        return Err(error);
    }
    let team_id: Option<i32> = match canonical_account_team_id(
        facts,
        submission.team_id,
        "submission",
    ) {
        Ok(team_id) => team_id,
        Err(error) => return Err(error),
    };
    let correct = same(after.as_str(), "correct");
    let change = if !was && correct {
        SubmissionChange::Promote { team_id }
    } else if was && !correct {
        SubmissionChange::Demote
    } else {
        SubmissionChange::Plain
    };
    Ok((after, change))
}

/// A submission is correct after a change exactly when it has a solve: one is written where it
/// becomes correct, and taken away where it ceases to be.
pub proof fn law_solves_follow_submissions(
    admin: bool,
    current: CurrentSubmission,
    patch: Option<Seq<char>>,
    facts: AccountFacts,
)
    requires
        submission_course(admin, Some(current), patch, facts) is Ok,
    ensures
        ({
            let (after, change) = submission_course(admin, Some(current), patch, facts)->Ok_0;
            let was = text_of(current.submission_type) == Some("correct"@);
            &&& change is Promote <==> !was && after == "correct"@
            &&& change == SubmissionChange::Demote <==> was && after != "correct"@
            &&& facts.users_mode && change is Promote ==> change == (SubmissionChange::Promote {
                team_id: None,
            })
        }),
{
}

/// A record in the mode of single users is never for a team, and one in team mode is for the team
/// of its user.
pub proof fn law_records_are_for_the_active_account(
    facts: AccountFacts,
    requested: Option<i32>,
    kind: Seq<char>,
)
    requires
        canonical_team(facts, requested, kind) is Ok,
    ensures
        facts.users_mode ==> canonical_team(facts, requested, kind)->Ok_0 is None
            && facts.participant,
        !facts.users_mode ==> facts.assigned_team is Some && canonical_team(
            facts,
            requested,
            kind,
        )->Ok_0 == facts.assigned_team,
{
}

/// The page of a list with 1 to 100 entries on a page.
pub open spec fn list_size(per_page: Option<i64>) -> int {
    match per_page {
        Some(size) => crate::allowlist::bounded(size, 1, 100),
        None => 50,
    }
}

pub fn list_page(page: Option<i64>, per_page: Option<i64>) -> (result: (i64, i64))
    requires
        (crate::content::page_of(page) - 1) * list_size(per_page) <= i64::MAX,
    ensures
        result.0 == list_size(per_page),
        result.1 == (crate::content::page_of(page) - 1) * list_size(per_page),
{
    let number: i64 = match page {
        Some(value) => if value >= 1 {
            value
        } else {
            1
        },
        None => 1,
    };
    let size: i64 = match per_page {
        Some(value) => if value < 1 {
            1
        } else if value > 100 {
            100
        } else {
            value
        },
        None => 50,
    };
    proof {
        assert((number - 1) * size >= 0) by (nonlinear_arith)
            requires
                number >= 1,
                size >= 1,
        ;
    }
    (size, (number - 1) * size)
}

// ---------------------------------------------------------------------------
// Comments and topics
// ---------------------------------------------------------------------------

/// What a comment is about.
#[derive(Clone, Copy, Debug)]
pub struct CommentTarget {
    pub challenge_id: Option<i32>,
    pub user_id: Option<i32>,
    pub team_id: Option<i32>,
    pub page_id: Option<i32>,
}

pub open spec fn one_of(value: Option<i32>) -> int {
    if value is Some {
        1
    } else {
        0
    }
}

pub open spec fn target_count(target: CommentTarget) -> int {
    one_of(target.challenge_id) + one_of(target.user_id) + one_of(target.team_id) + one_of(
        target.page_id,
    )
}

pub open spec fn comment_kind(target: CommentTarget) -> Seq<char> {
    if target.challenge_id is Some {
        "challenge"@
    } else if target.user_id is Some {
        "user"@
    } else if target.team_id is Some {
        "team"@
    } else if target.page_id is Some {
        "page"@
    } else {
        "standard"@
    }
}

pub open spec fn comment_course(
    admin: bool,
    target: CommentTarget,
    content: Seq<char>,
    team_mode: bool,
    team_exists: bool,
) -> Result<Seq<char>, Failure> {
    if !admin {
        Err(forbidden("Administrator access is required"@))
    } else if target_count(target) > 1 || trimmed(content).len() == 0 {
        Err(bad("A comment must have at most one target"@))
    } else if target.team_id is Some && !team_mode {
        Err(bad("Team comments are only available in team mode"@))
    } else if target.team_id is Some && !team_exists {
        Err(bad("Comment team does not exist"@))
    } else {
        Ok(comment_kind(target))
    }
}

fn count_one(value: Option<i32>) -> (result: u8)
    ensures
        result == one_of(value),
{
    if value.is_some() {
        1
    } else {
        0
    }
}

/// The type of a comment, which is about one thing at most.
pub fn create_comment(
    user: &CurrentUser,
    target: CommentTarget,
    content: &str,
    team_mode: bool,
    team_exists: bool,
) -> (result: Result<String, ApiError>)
    ensures
        shown_text(result) == comment_course(
            user.admin(),
            target,
            content@,
            team_mode,
            team_exists,
        ),
{
    if let Err(error) = crate::auth::require_admin(user) {
        return Err(error);
    }
    let count: u8 = count_one(target.challenge_id) + count_one(target.user_id) + count_one(
        target.team_id,
    ) + count_one(target.page_id);
    let text = trim(content);
    if count > 1 || text.as_str().is_empty() {
        return Err(ApiError::bad_request("A comment must have at most one target"));
    }
    if target.team_id.is_some() {
        if !team_mode {
            return Err(ApiError::bad_request("Team comments are only available in team mode"));
        }
        if !team_exists {
            return Err(ApiError::bad_request("Comment team does not exist"));
        }
    }
    let kind = if target.challenge_id.is_some() {
        "challenge"
    } else if target.user_id.is_some() {
        "user"
    } else if target.team_id.is_some() {
        "team"
    } else if target.page_id.is_some() {
        "page"
    } else {
        "standard"
    };
    Ok(kind.to_owned())
}

/// The topic of a challenge: a new one by its text, or one that there is by its number.
pub enum TopicChoice {
    New(String),
    Existing(i32),
}

/// The choice of a topic, by value.
pub enum TopicChoiceView {
    New(Seq<char>),
    Existing(i32),
}

pub open spec fn shown_topic(result: Result<TopicChoice, ApiError>) -> Result<
    TopicChoiceView,
    Failure,
> {
    match result {
        Ok(TopicChoice::New(text)) => Ok(TopicChoiceView::New(text@)),
        Ok(TopicChoice::Existing(id)) => Ok(TopicChoiceView::Existing(id)),
        Err(error) => Err(error@),
    }
}

pub open spec fn topic_course(
    admin: bool,
    topic_type: Seq<char>,
    value: Option<Seq<char>>,
    topic_id: Option<i32>,
) -> Result<TopicChoiceView, Failure> {
    if !admin {
        Err(forbidden("Administrator access is required"@))
    } else if topic_type != "challenge"@ {
        Err(bad("Unsupported topic relation type"@))
    } else {
        match value {
            Some(text) => match short_text_of(text, "Topic"@) {
                Ok(topic) => Ok(TopicChoiceView::New(topic)),
                Err(failure) => Err(failure),
            },
            None => match topic_id {
                Some(id) => Ok(TopicChoiceView::Existing(id)),
                None => Err(bad("A topic ID or value is required"@)),
            },
        }
    }
}

pub fn create_topic_relation(
    user: &CurrentUser,
    topic_type: &str,
    value: Option<&str>,
    topic_id: Option<i32>,
) -> (result: Result<TopicChoice, ApiError>)
    ensures
        shown_topic(result) == topic_course(user.admin(), topic_type@, str_of(value), topic_id),
{
    if let Err(error) = crate::auth::require_admin(user) {
        return Err(error);
    }
    if !same(topic_type, "challenge") {
        return Err(ApiError::bad_request("Unsupported topic relation type"));
    }
    match value {
        Some(text) => match validate_short_text(text, "Topic") {
            Ok(topic) => Ok(TopicChoice::New(topic)),
            Err(error) => Err(error),
        },
        None => match topic_id {
            Some(id) => Ok(TopicChoice::Existing(id)),
            None => Err(ApiError::bad_request("A topic ID or value is required")),
        },
    }
}

// ---------------------------------------------------------------------------
// The competition mode and deletions
// ---------------------------------------------------------------------------

pub fn direct_user_mode_change_error() -> (result: ApiError)
    ensures
        result@ == direct_mode_change(),
{
    ApiError::conflict(
        "Competition mode must be changed through the account-mode transition endpoint",
    )
}

pub open spec fn direct_mode_change() -> Failure {
    conflict("Competition mode must be changed through the account-mode transition endpoint"@)
}

/// The first change of the competition mode from `from` on.
pub open spec fn requested_mode(changes: Seq<(Seq<char>, Seq<char>)>, from: int) -> Option<
    Seq<char>,
>
    decreases changes.len() - from,
{
    if from >= changes.len() {
        None
    } else if changes[from].0 == "user_mode"@ {
        Some(changes[from].1)
    } else {
        requested_mode(changes, from + 1)
    }
}

/// The competition mode is not changed beside other settings; to name the current one is no
/// change.
pub fn reject_direct_user_mode_change(changes: &Vec<(String, String)>, current: &str) -> (result:
    Result<(), ApiError>)
    ensures
        shown(result) == (match requested_mode(change_views(changes@), 0) {
            Some(mode) if mode != current@ => Err(direct_mode_change()),
            _ => Ok::<(), Failure>(()),
        }),
{
    let ghost all = change_views(changes@);
    let mut i: usize = 0;
    while i < changes.len()
        invariant
            i <= changes.len(),
            all == change_views(changes@),
            requested_mode(all, 0) == requested_mode(all, i as int),
        decreases changes.len() - i,
    {
        assert(all[i as int] == (changes@[i as int].0@, changes@[i as int].1@));
        if same(changes[i].0.as_str(), "user_mode") {
            return if same(changes[i].1.as_str(), current) {
                Ok(())
            } else {
                Err(direct_user_mode_change_error())
            };
        }
        i += 1;
    }
    Ok(())
}

/// The tables whose records administrators delete by number.
pub open spec fn is_deletable(table: Seq<char>) -> bool {
    ||| table == "registration_email_allowlist"@
    ||| table == "fields"@
    ||| table == "pages"@
    ||| table == "brackets"@
    ||| table == "flags"@
    ||| table == "tags"@
    ||| table == "topics"@
    ||| table == "challenge_topics"@
    ||| table == "awards"@
    ||| table == "comments"@
    ||| table == "submissions"@
}

/// The statement that deletes a record.
pub fn delete_integer_id(table: &str) -> (result: Result<String, ApiError>)
    ensures
        match result {
            Ok(sql) => is_deletable(table@) && sql@ == "DELETE FROM ctfzone."@ + table@
                + " WHERE id=$1"@,
            Err(error) => !is_deletable(table@) && error@ == bad(
                "Unsupported administrative content type"@,
            ),
        },
{
    let known = same(table, "registration_email_allowlist") || same(table, "fields") || same(
        table,
        "pages",
    ) || same(table, "brackets") || same(table, "flags") || same(table, "tags") || same(
        table,
        "topics",
    ) || same(table, "challenge_topics") || same(table, "awards") || same(table, "comments")
        || same(table, "submissions");
    if !known {
        return Err(ApiError::bad_request("Unsupported administrative content type"));
    }
    let start = concat("DELETE FROM ctfzone.", table);
    Ok(concat(start.as_str(), " WHERE id=$1"))
}


// ---------------------------------------------------------------------------
// Lists, fields and configuration
// ---------------------------------------------------------------------------

/// What a list of submissions is asked for.
pub struct SubmissionFilter {
    pub challenge_id: Option<i32>,
    pub user_id: Option<i32>,
    pub team_id: Option<i32>,
    pub record_type: Option<String>,
}

/// The conditions that the list of submissions is read under.
pub fn list_submissions(filter: &SubmissionFilter) -> (result: Vec<Condition>)
    ensures
        condition_views(result@) == integer_condition(" AND challenge_id="@, filter.challenge_id)
            + integer_condition(" AND user_id="@, filter.user_id) + integer_condition(
            " AND team_id="@,
            filter.team_id,
        ) + text_condition(" AND type="@, filter.record_type),
{
    let mut conditions: Vec<Condition> = Vec::new();
    assert(condition_views(conditions@) =~= Seq::empty());
    push_integer(&mut conditions, " AND challenge_id=", filter.challenge_id);
    assert(condition_views(conditions@) =~= integer_condition(
        " AND challenge_id="@,
        filter.challenge_id,
    ));
    push_integer(&mut conditions, " AND user_id=", filter.user_id);
    push_integer(&mut conditions, " AND team_id=", filter.team_id);
    push_text(&mut conditions, " AND type=", &filter.record_type);
    conditions
}

pub open spec fn first_given(
    given: Option<String>,
    current: Option<String>,
    default: Seq<char>,
) -> Seq<char> {
    match given {
        Some(text) => text@,
        None => match current {
            Some(text) => text@,
            None => default,
        },
    }
}

fn pick(given: &Option<String>, current: &Option<String>, default: &str) -> (result: String)
    ensures
        result@ == first_given(*given, *current, default@),
{
    match given {
        Some(text) => text.clone(),
        None => match current {
            Some(text) => text.clone(),
            None => default.to_owned(),
        },
    }
}

/// The names that a field goes by: what is given of them in a change, what is stored of them else.
pub struct FieldNames {
    pub name: Option<String>,
    pub owner_type: Option<String>,
    pub field_type: Option<String>,
}

/// The name, the owner and the type of a field after a change.
pub fn update_field(user: &CurrentUser, current: Option<&FieldNames>, patch: &FieldNames) -> (result:
    Result<(String, String, String), ApiError>)
    ensures
        match result {
            Ok((name, owner, kind)) => {
                &&& user.admin()
                &&& current is Some
                &&& name@ == first_given(patch.name, current->Some_0.name, Seq::empty())
                &&& owner@ == first_given(
                    patch.owner_type,
                    current->Some_0.owner_type,
                    "user"@,
                )
                &&& kind@ == first_given(patch.field_type, current->Some_0.field_type, "text"@)
                &&& field_ok(owner@, kind@, name@)
            },
            Err(error) => if !user.admin() {
                error@ == forbidden("Administrator access is required"@)
            } else if current is None {
                error@ == not_found("Field not found"@)
            } else {
                error@ == bad("Field definition is invalid"@) && !field_ok(
                    first_given(patch.owner_type, current->Some_0.owner_type, "user"@),
                    first_given(patch.field_type, current->Some_0.field_type, "text"@),
                    first_given(patch.name, current->Some_0.name, Seq::empty()),
                )
            },
        },
{
    if let Err(error) = crate::auth::require_admin(user) {
        return Err(error);
    }
    let field = match current {
        Some(field) => field,
        None => return Err(ApiError::not_found("Field not found")),
    };
    let name = pick(&patch.name, &field.name, "");
    proof {
        reveal_strlit("");
        assert(""@ =~= Seq::empty());
    }
    let owner = pick(&patch.owner_type, &field.owner_type, "user");
    let kind = pick(&patch.field_type, &field.field_type, "text");
    if let Err(error) = validate_field(owner.as_str(), kind.as_str(), name.as_str()) {
        return Err(error);
    }
    Ok((name, owner, kind))
}

/// The row of a setting that the site knows.
pub open spec fn is_known_row(row: StoredConfig) -> bool {
    row.key is Some && setting_named(row.key->Some_0@) is Some
}

/// The configuration as it is listed: the settings that the site knows, without secrets.
pub open spec fn listed_configs(rows: Seq<StoredConfig>) -> Seq<PublicConfig> {
    rows.filter(|row: StoredConfig| is_known_row(row)).map_values(
        |row: StoredConfig| public_row(row),
    )
}

pub fn list_configs(user: &CurrentUser, rows: Vec<StoredConfig>) -> (result: Result<
    Vec<PublicConfig>,
    ApiError,
>)
    ensures
        match result {
            Ok(configs) => user.admin() && configs@ == listed_configs(rows@),
            Err(error) => !user.admin() && error@ == forbidden(
                "Administrator access is required"@,
            ),
        },
{
    if let Err(error) = crate::auth::require_admin(user) {
        return Err(error);
    }
    let ghost all = rows@;
    let mut left = rows;
    let mut reversed: Vec<PublicConfig> = Vec::new();
    assert(all.skip(all.len() as int) =~= Seq::empty());
    assert(listed_configs(Seq::empty()) =~= Seq::empty()) by {
        reveal(Seq::filter);
    }
    while left.len() > 0
        invariant
            left.len() <= all.len(),
            left@ == all.take(left.len() as int),
            reversed@.reverse() == listed_configs(all.skip(left.len() as int)),
        decreases left.len(),
    {
        let ghost n = left.len() as int;
        let row = match left.pop() {
            Some(row) => row,
            None => return Ok(Vec::new()),
        };
        assert(row == all[n - 1]);
        assert(left@ =~= all.take(n - 1));
        let listed = match &row.key {
            Some(key) => setting(key.as_str()).is_some(),
            None => false,
        };
        proof {
            lemma_listed_step(all, n - 1);
        }
        if listed {
            let shown_row = PublicConfig::from(row);
            reversed.push(shown_row);
            assert(reversed@.reverse() =~= seq![public_row(row)] + listed_configs(all.skip(n)));
        }
    }
    assert(all.skip(0) =~= all);
    let mut configs: Vec<PublicConfig> = Vec::new();
    let ghost total = reversed@;
    assert(total.reverse() =~= configs@ + reversed@.reverse());
    while reversed.len() > 0
        invariant
            total.reverse() == configs@ + reversed@.reverse(),
        decreases reversed.len(),
    {
        let ghost before = reversed@;
        if let Some(config) = reversed.pop() {
            configs.push(config);
            assert(before.reverse() =~= seq![config] + reversed@.reverse());
            assert(total.reverse() =~= configs@ + reversed@.reverse());
        }
    }
    assert(configs@ =~= total.reverse());
    Ok(configs)
}

proof fn lemma_listed_step(rows: Seq<StoredConfig>, i: int)
    requires
        0 <= i < rows.len(),
    ensures
        listed_configs(rows.skip(i)) == (if is_known_row(rows[i]) {
            seq![public_row(rows[i])]
        } else {
            Seq::empty()
        }) + listed_configs(rows.skip(i + 1)),
{
    let known = |row: StoredConfig| is_known_row(row);
    let head = seq![rows[i]];
    assert(rows.skip(i) =~= head + rows.skip(i + 1));
    Seq::filter_distributes_over_add(head, rows.skip(i + 1), known);
    assert(head.filter(known) =~= (if is_known_row(rows[i]) {
        head
    } else {
        Seq::empty()
    })) by {
        reveal(Seq::filter);
        assert(head.drop_last() =~= Seq::empty());
        assert(head.drop_last().filter(known) =~= Seq::empty());
    }
    assert(listed_configs(rows.skip(i)) =~= (if is_known_row(rows[i]) {
        seq![public_row(rows[i])]
    } else {
        Seq::empty()
    }) + listed_configs(rows.skip(i + 1)));
}

/// Only a setting that the site knows is read by its name.
pub fn get_config(user: &CurrentUser, key: &str, row: Option<StoredConfig>) -> (result: Result<
    PublicConfig,
    ApiError,
>)
    ensures
        shown(result) == (if !user.admin() {
            Err(forbidden("Administrator access is required"@))
        } else if setting_named(key@) is None {
            Err(not_found("Configuration setting not found"@))
        } else {
            match row {
                None => Err(not_found("Configuration not found"@)),
                Some(stored) => Ok::<PublicConfig, Failure>(public_row(stored)),
            }
        }),
{
    if let Err(error) = crate::auth::require_admin(user) {
        return Err(error);
    }
    if setting(key).is_none() {
        return Err(ApiError::not_found("Configuration setting not found"));
    }
    match row {
        None => Err(ApiError::not_found("Configuration not found")),
        Some(stored) => Ok(PublicConfig::from(stored)),
    }
}

/// Whether a setting may be created by its name: the competition mode is not.
pub fn create_config(user: &CurrentUser, key: &str) -> (result: Result<(), ApiError>)
    ensures
        shown(result) == (if !user.admin() {
            Err(forbidden("Administrator access is required"@))
        } else if key@ == "user_mode"@ {
            Err(direct_mode_change())
        } else {
            Ok::<(), Failure>(())
        }),
{
    if let Err(error) = crate::auth::require_admin(user) {
        return Err(error);
    }
    if same(key, "user_mode") {
        return Err(direct_user_mode_change_error());
    }
    Ok(())
}

/// The value that a single change stores.
pub fn changed_value(changes: &Vec<(String, String)>) -> (result: Result<String, ApiError>)
    ensures
        shown_text(result) == (if changes@.len() == 0 {
            Err(bad("Configuration mutation is empty"@))
        } else {
            Ok::<Seq<char>, Failure>(changes@[0].1@)
        }),
{
    if changes.len() == 0 {
        return Err(ApiError::bad_request("Configuration mutation is empty"));
    }
    Ok(changes[0].1.clone())
}

/// The lists never show a secret: what is listed of a secret setting is without its value.
pub proof fn law_listed_configs_hold_no_secrets(rows: Seq<StoredConfig>, i: int)
    requires
        0 <= i < listed_configs(rows).len(),
    ensures
        listed_configs(rows)[i].sensitive ==> listed_configs(rows)[i].value is None,
        listed_configs(rows)[i].key is Some,
        setting_named(listed_configs(rows)[i].key->Some_0@) is Some,
{
    let known = |row: StoredConfig| is_known_row(row);
    let kept = rows.filter(known);
    assert(listed_configs(rows)[i] == public_row(kept[i]));
    broadcast use vstd::seq_lib::group_filter_ensures;

    assert(known(kept[i]));
}

/// A type of flags.
pub struct FlagType {
    pub name: String,
    pub personalized: bool,
    pub private_only: bool,
    pub random_token_placeholder: Option<String>,
}

pub open spec fn is_flag_type(name: Seq<char>) -> bool {
    name == "static"@ || name == "regex"@ || name == "generated"@
}

/// What is told of a type of flags: only generated flags are personal, and only private challenges
/// have them.
pub fn flag_type(user: &CurrentUser, name: &str) -> (result: Result<FlagType, ApiError>)
    ensures
        match result {
            Ok(found) => {
                &&& user.admin()
                &&& is_flag_type(name@)
                &&& found.name@ == name@
                &&& found.personalized == (name@ == "generated"@)
                &&& found.private_only == (name@ == "generated"@)
                &&& text_of(found.random_token_placeholder) == (if name@ == "generated"@ {
                    Some(RANDOM_TOKEN_PLACEHOLDER@)
                } else {
                    None
                })
            },
            Err(error) => if user.admin() {
                !is_flag_type(name@) && error@ == not_found("Flag type not found"@)
            } else {
                error@ == forbidden("Administrator access is required"@)
            },
        },
{
    if let Err(error) = crate::auth::require_admin(user) {
        return Err(error);
    }
    let generated = same(name, "generated");
    if !generated && !same(name, "static") && !same(name, "regex") {
        return Err(ApiError::not_found("Flag type not found"));
    }
    Ok(
        FlagType {
            name: name.to_owned(),
            personalized: generated,
            private_only: generated,
            random_token_placeholder: if generated {
                Some(RANDOM_TOKEN_PLACEHOLDER.to_owned())
            } else {
                None
            },
        },
    )
}


/// The relation of a topic that a request takes away.
pub fn delete_topic_relation(
    user: &CurrentUser,
    record_type: Option<&str>,
    target_id: Option<i32>,
) -> (result: Result<i32, ApiError>)
    ensures
        shown(result) == (if !user.admin() {
            Err(forbidden("Administrator access is required"@))
        } else if str_of(record_type) != Some("challenge"@) {
            Err(bad("Unsupported topic relation type"@))
        } else {
            match target_id {
                Some(id) => Ok::<i32, Failure>(id),
                None => Err(bad("target_id is required"@)),
            }
        }),
{
    if let Err(error) = crate::auth::require_admin(user) {
        return Err(error);
    }
    let supported = match record_type {
        Some(word) => same(word, "challenge"),
        None => false,
    };
    if !supported {
        return Err(ApiError::bad_request("Unsupported topic relation type"));
    }
    match target_id {
        Some(id) => Ok(id),
        None => Err(ApiError::bad_request("target_id is required")),
    }
}

// ---------------------------------------------------------------------------
// More on flags, records, comments and topics
// ---------------------------------------------------------------------------

/// An administrator's change of a flag that is there, nobody holds and runs nowhere is saved, with
/// what was given of it and the rest as it was; where it moves, the challenge that it leaves has
/// another flag.
pub proof fn law_free_flags_change(
    patch: FlagPatch,
    facts: FlagFacts,
    current: CurrentFlag,
    exposure: String,
    kind: Seq<char>,
    content: Seq<char>,
    policy: FlagPolicyData,
)
    requires
        facts.initial == Some(Some(current.challenge_id)),
        facts.current == Some(Some(current)),
        facts.exposure == Some(Some(exposure)),
        normal_definition(
            if patch.flag_type is Some {
                patch.flag_type->Some_0@
            } else {
                current.flag_type@
            },
            if patch.content is Some {
                patch.content->Some_0@
            } else {
                current.content@
            },
            if patch.data is Some {
                patch.data->Some_0
            } else {
                current.data
            },
            exposure@,
        ) == Ok::<(Seq<char>, Seq<char>, FlagPolicyData), Failure>((kind, content, policy)),
        facts.allocated == Some(false),
        facts.source_active == Some(false),
        facts.target_active == Some(false),
        facts.source_flag_count is Some,
    ensures
        ({
            let target = if patch.challenge_id is Some {
                patch.challenge_id->Some_0
            } else {
                current.challenge_id
            };
            let course = update_flag_course(true, patch, facts);
            &&& target == current.challenge_id || facts.source_flag_count->Some_0 > 1 ==> course
                == Ok::<FlagCourse, Failure>(FlagCourse::Save(target, kind, content, policy))
            &&& target != current.challenge_id && facts.source_flag_count->Some_0 <= 1 ==> course
                == Err::<FlagCourse, Failure>(
                conflict("A challenge must retain at least one flag definition"@),
            )
        }),
        update_flag_course(false, patch, facts) == Err::<FlagCourse, Failure>(
            forbidden("Administrator access is required"@),
        ),
{
}

/// Nothing changes in a flag while instances of a challenge that it belongs to, or moves to, run.
pub proof fn law_running_challenges_keep_their_flags(
    admin: bool,
    patch: FlagPatch,
    facts: FlagFacts,
    current: CurrentFlag,
)
    requires
        facts.current == Some(Some(current)),
        update_flag_course(admin, patch, facts) matches Ok(FlagCourse::Save(..)),
    ensures
        update_flag_course(admin, patch, facts) matches Ok(
            FlagCourse::Save(target, kind, content, policy),
        ) && {
            let same_flag = target == current.challenge_id && kind == current.flag_type@ && content
                == current.content@ && data_is(current.data, policy);
            &&& same_flag || facts.source_active == Some(false)
            &&& target != current.challenge_id ==> facts.target_active == Some(false)
            &&& same_flag || facts.allocated == Some(false)
            &&& facts.initial == Some(Some(current.challenge_id))
        },
{
}

/// The locks of two challenges are taken in ascending order, each once.
pub proof fn law_locks_are_taken_in_order(initial: i32, requested: i32)
    ensures
        flag_locks(initial, requested) == flag_locks(requested, initial),
        flag_locks(initial, requested) matches FlagRead::Current { first, second } && (second
            is Some <==> initial != requested) && (second is Some ==> first < second->Some_0) && (
        first == initial || first == requested) && (second is Some ==> (second->Some_0 == initial
            || second->Some_0 == requested)),
{
}

/// A flag that nobody holds, of a challenge that has another and runs nowhere, is deleted; each
/// other case is refused with its own message.
pub proof fn law_free_flags_are_deleted(
    challenge: i32,
    facts: DeleteFlagFacts,
    allocated: bool,
    count: i64,
    active: bool,
)
    requires
        facts.initial == Some(Some(challenge)),
        facts.current == Some(Some(challenge)),
        facts.allocated == Some(allocated),
        facts.flag_count == Some(count),
        facts.active == Some(active),
    ensures
        ({
            let course = delete_flag_course(true, facts);
            &&& course is Ok <==> !allocated && count > 1 && !active
            &&& course is Ok ==> course->Ok_0 == DeleteFlagStep::Delete
            &&& allocated ==> course == Err::<DeleteFlagStep, Failure>(
                conflict("Generated flags cannot be deleted after allocation"@),
            )
            &&& !allocated && count <= 1 ==> course == Err::<DeleteFlagStep, Failure>(
                conflict("A challenge must retain at least one flag definition"@),
            )
            &&& !allocated && count > 1 && active ==> course == Err::<DeleteFlagStep, Failure>(
                conflict("Stop the active challenge instances before changing flags"@),
            )
        }),
        delete_flag_course(false, facts) == Err::<DeleteFlagStep, Failure>(
            forbidden("Administrator access is required"@),
        ),
{
}

/// A record is accepted for a participant in the mode of single users, as long as no team is named,
/// and in team mode for a member of a team, as long as no other team is named.
pub proof fn law_records_are_accepted(facts: AccountFacts, requested: Option<i32>, kind: Seq<char>)
    ensures
        ({
            let result = canonical_team(facts, requested, kind);
            &&& facts.users_mode ==> (result is Ok <==> requested is None && facts.participant)
            &&& !facts.users_mode ==> (result is Ok <==> facts.assigned_team is Some && (requested
                is None || requested == facts.assigned_team))
            &&& result is Ok && facts.users_mode ==> result->Ok_0 is None
            &&& result is Ok && !facts.users_mode ==> result->Ok_0 == facts.assigned_team
            &&& facts.users_mode && requested is Some ==> result == Err::<Option<i32>, Failure>(
                bad("A "@ + kind + " cannot target a team while competition mode is users"@),
            )
            &&& facts.users_mode && requested is None && !facts.participant ==> result == Err::<
                Option<i32>,
                Failure,
            >(bad("The "@ + kind + " user is not a participant"@))
            &&& !facts.users_mode && facts.assigned_team is None ==> result == Err::<
                Option<i32>,
                Failure,
            >(bad("The "@ + kind + " user does not belong to a team"@))
        }),
{
}

/// A submission gets the type that is asked for, or keeps its own, where it is one of the five; its
/// solve is for the account of the mode in force.
pub proof fn law_submissions_get_their_type(
    current: CurrentSubmission,
    patch: Option<Seq<char>>,
    facts: AccountFacts,
)
    ensures
        ({
            let result = submission_course(true, Some(current), patch, facts);
            let word = if patch is Some {
                patch->Some_0
            } else if current.submission_type is Some {
                current.submission_type->Some_0@
            } else {
                Seq::empty()
            };
            let known = word == "correct"@ || word == "incorrect"@ || word == "partial"@ || word
                == "discard"@ || word == "ratelimited"@;
            let team = canonical_team(facts, current.team_id, "submission"@);
            &&& result is Ok <==> known && team is Ok
            &&& result is Ok ==> result->Ok_0.0 == word
            &&& result is Ok && result->Ok_0.1 is Promote ==> result->Ok_0.1
                == SubmissionChange::Promote { team_id: team->Ok_0 }
            &&& !known ==> result == Err::<(Seq<char>, SubmissionChange), Failure>(
                bad("Submission type is invalid"@),
            )
        }),
        submission_course(true, None, patch, facts) is Err,
        submission_course(false, Some(current), patch, facts) == Err::<
            (Seq<char>, SubmissionChange),
            Failure,
        >(forbidden("Administrator access is required"@)),
{
}

/// A comment of an administrator that is not blank is about one thing at most and is named after it;
/// about a team only in team mode and where there is that team.
pub proof fn law_comments_are_about_one_thing(
    target: CommentTarget,
    content: Seq<char>,
    team_mode: bool,
    team_exists: bool,
)
    ensures
        ({
            let result = comment_course(true, target, content, team_mode, team_exists);
            let single = !(target.challenge_id is Some && target.user_id is Some) && !(
            target.challenge_id is Some && target.team_id is Some) && !(target.challenge_id is Some
                && target.page_id is Some) && !(target.user_id is Some && target.team_id is Some)
                && !(target.user_id is Some && target.page_id is Some) && !(target.team_id is Some
                && target.page_id is Some);
            &&& result is Ok <==> single && trimmed(content).len() > 0 && (target.team_id is Some
                ==> team_mode && team_exists)
            &&& result is Ok ==> result->Ok_0 == if target.challenge_id is Some {
                "challenge"@
            } else if target.user_id is Some {
                "user"@
            } else if target.team_id is Some {
                "team"@
            } else if target.page_id is Some {
                "page"@
            } else {
                "standard"@
            }
        }),
        comment_course(false, target, content, team_mode, team_exists) is Err,
{
}

/// A topic of a challenge is a new one where its text is given, and else the one whose number is.
pub proof fn law_topics_are_new_or_there(
    topic_type: Seq<char>,
    value: Option<Seq<char>>,
    topic_id: Option<i32>,
)
    ensures
        ({
            let result = topic_course(true, topic_type, value, topic_id);
            let text = if value is Some {
                trimmed(value->Some_0)
            } else {
                Seq::empty()
            };
            &&& result is Ok <==> topic_type == "challenge"@ && (if value is Some {
                0 < text.len() && crate::text::byte_length(text) <= 255
            } else {
                topic_id is Some
            })
            &&& result is Ok && value is Some ==> result->Ok_0 == TopicChoiceView::New(text)
            &&& result is Ok && value is None ==> result->Ok_0 == TopicChoiceView::Existing(
                topic_id->Some_0,
            )
        }),
        topic_course(false, topic_type, value, topic_id) is Err,
{
}

/// A change of the competition mode is found wherever it stands among the changes, the first one
/// where there are several.
pub proof fn law_mode_changes_are_found(changes: Seq<(Seq<char>, Seq<char>)>, from: int, place: int)
    requires
        0 <= from <= place <= changes.len(),
        forall|i: int| from <= i < place ==> (#[trigger] changes[i]).0 != "user_mode"@,
    ensures
        place < changes.len() && changes[place].0 == "user_mode"@ ==> requested_mode(changes, from)
            == Some(changes[place].1),
        place == changes.len() ==> requested_mode(changes, from) is None,
    decreases place - from,
{
    if from < place {
        assert(changes[from].0 != "user_mode"@);
        law_mode_changes_are_found(changes, from + 1, place);
    }
}

/// What is stored of a flag's options is the same as a policy exactly where all three are there with
/// their values and nothing else is.
pub proof fn law_stored_options_are_compared(fields: Vec<(String, Json)>, policy: FlagPolicyData)
    ensures
        data_is(Json::Object(fields), policy) <==> {
            &&& lookup(fields@, "case_sensitive"@) == Some(Json::Bool(policy.case_sensitive))
            &&& lookup(fields@, "leet_variation"@) == Some(Json::Bool(policy.leet_variation))
            &&& lookup(fields@, "accept_other_users"@) == Some(
                Json::Bool(policy.accept_other_users),
            )
            &&& forall|i: int|
                0 <= i < fields@.len() ==> ((#[trigger] fields@[i]).0@ == "case_sensitive"@
                    || fields@[i].0@ == "leet_variation"@ || fields@[i].0@ == "accept_other_users"@)
        },
        forall|data: Json| !(data is Object) ==> !#[trigger] data_is(data, policy),
{
    if data_is(Json::Object(fields), policy) {
        assert forall|i: int| 0 <= i < fields@.len() implies ((#[trigger] fields@[i]).0@
            == "case_sensitive"@ || fields@[i].0@ == "leet_variation"@ || fields@[i].0@
            == "accept_other_users"@) by {
            assert(is_option_key(fields@[i].0@));
        }
    }
    if forall|i: int|
        0 <= i < fields@.len() ==> ((#[trigger] fields@[i]).0@ == "case_sensitive"@
            || fields@[i].0@ == "leet_variation"@ || fields@[i].0@ == "accept_other_users"@) {
        assert forall|i: int| 0 <= i < fields@.len() implies is_option_key(
            (#[trigger] fields@[i]).0@,
        ) by {}
    }
}

/// Lists have 1 to 100 entries on a page, and fifty where nothing is said.
pub proof fn law_lists_are_bounded(size: i64)
    ensures
        list_size(None) == 50,
        1 <= size <= 100 ==> list_size(Some(size)) == size,
        size < 1 ==> list_size(Some(size)) == 1,
        size > 100 ==> list_size(Some(size)) == 100,
{
}

/// What is given of a name counts before what is stored, and both before the default.
pub proof fn law_given_names_count_first(
    given: Option<String>,
    current: Option<String>,
    default: Seq<char>,
)
    ensures
        given is Some ==> first_given(given, current, default) == given->Some_0@,
        given is None && current is Some ==> first_given(given, current, default)
            == current->Some_0@,
        given is None && current is None ==> first_given(given, current, default) == default,
{
}

/// Every setting that the site knows is listed, as it may be shown, and no other row is.
pub proof fn law_known_rows_are_listed(rows: Seq<StoredConfig>, row: StoredConfig)
    ensures
        listed_configs(rows.push(row)) == if row.key is Some && setting_named(row.key->Some_0@)
            is Some {
            listed_configs(rows).push(public_row(row))
        } else {
            listed_configs(rows)
        },
        listed_configs(Seq::empty()).len() == 0,
{
    let keep = |r: StoredConfig| is_known_row(r);
    reveal(Seq::filter);
    assert(rows.push(row).drop_last() =~= rows);
    assert(rows.push(row).filter(keep) == if keep(row) {
        rows.filter(keep).push(row)
    } else {
        rows.filter(keep)
    });
    assert(listed_configs(rows.push(row)) =~= if is_known_row(row) {
        listed_configs(rows).push(public_row(row))
    } else {
        listed_configs(rows)
    });
}

} // verus!
