//! Hints, solutions, ratings and notifications.
use crate::attempt::Account;
use crate::auth::CurrentUser;
use crate::error::{
    bad, conflict, forbidden, not_found, shown, shown_text, str_of, text_of, ApiError, Failure,
};
use crate::json::{borrowed, Json};
use crate::numbers::{integer_text, to_text};
use crate::settings::{switch, switch_value};
use crate::text::{byte_len, byte_length, concat, same, trim, trimmed};
use vstd::prelude::*;

verus! {

// ---------------------------------------------------------------------------
// Ratings
// ---------------------------------------------------------------------------

/// A rating is up or down, with a review of 2000 bytes at most.
pub open spec fn rating_ok(value: i32, review: Seq<char>) -> bool {
    (value == 1 || value == -1) && byte_length(review) <= 2000
}

/// What has been read for a rating. The access to the challenge is checked, and whether the
/// account has solved it is read, under the locks that the rating is written under.
pub struct RateFacts {
    /// The stored mode of ratings, once it has been read.
    pub mode: Option<Option<String>>,
    /// The transaction is open, with the locks on the configuration and on team membership.
    pub opened: bool,
    /// Whether the challenge is open to the player, once that has been checked.
    pub full_access: Option<bool>,
    pub solved: Option<bool>,
}

#[derive(Clone, Copy, Debug, PartialEq, Eq, Structural)]
pub enum RateStep {
    ReadMode,
    /// Opens the transaction and takes the locks.
    Open,
    CheckAccess,
    ReadSolved,
    Insert,
}

pub open spec fn rate_course(admin: bool, value: i32, review: Seq<char>, facts: RateFacts) -> Result<
    RateStep,
    Failure,
> {
    if !rating_ok(value, review) {
        Err(bad("Invalid rating value or review"@))
    } else if facts.mode is None {
        Ok(RateStep::ReadMode)
    } else if text_of(facts.mode->Some_0) == Some("disabled"@) {
        Err(forbidden("Challenge ratings are disabled"@))
    } else if !facts.opened {
        Ok(RateStep::Open)
    } else if facts.full_access is None {
        Ok(RateStep::CheckAccess)
    } else if facts.full_access == Some(false) {
        Err(forbidden("Challenge prerequisites are not satisfied"@))
    } else if !admin && facts.solved is None {
        Ok(RateStep::ReadSolved)
    } else if !admin && facts.solved == Some(false) {
        Err(forbidden("You must solve this challenge before rating it"@))
    } else {
        Ok(RateStep::Insert)
    }
}

/// The next step of rating a challenge: players rate what they have solved.
pub fn rate_challenge(user: &CurrentUser, value: i32, review: &str, facts: &RateFacts) -> (result:
    Result<RateStep, ApiError>)
    ensures
        shown(result) == rate_course(user.admin(), value, review@, *facts),
{
    if (value != 1 && value != -1) || byte_len(review) > 2000 {
        return Err(ApiError::bad_request("Invalid rating value or review"));
    }
    match &facts.mode {
        None => return Ok(RateStep::ReadMode),
        Some(Some(word)) => {
            if same(word.as_str(), "disabled") {
                return Err(ApiError::forbidden("Challenge ratings are disabled"));
            }
        },
        Some(None) => {},
    }
    if !facts.opened {
        return Ok(RateStep::Open);
    }
    match facts.full_access {
        None => return Ok(RateStep::CheckAccess),
        Some(open) => {
            if !open {
                return Err(ApiError::forbidden("Challenge prerequisites are not satisfied"));
            }
        },
    }
    if !user.is_admin() {
        match facts.solved {
            None => return Ok(RateStep::ReadSolved),
            Some(solved) => {
                if !solved {
                    return Err(
                        ApiError::forbidden("You must solve this challenge before rating it"),
                    );
                }
            },
        }
    }
    Ok(RateStep::Insert)
}

/// A player's rating is written only for a challenge that is open to the player and solved, and
/// only under the locks.
pub proof fn law_ratings_are_earned(admin: bool, value: i32, review: Seq<char>, facts: RateFacts)
    requires
        rate_course(admin, value, review, facts) == Ok::<RateStep, Failure>(RateStep::Insert),
    ensures
        rating_ok(value, review),
        facts.opened,
        facts.full_access == Some(true),
        admin || facts.solved == Some(true),
{
}

/// The page of a list, counted from 1, its size, and what is passed over before it.
pub open spec fn page_of(page: Option<i64>) -> int {
    match page {
        Some(number) if number >= 1 => number as int,
        _ => 1,
    }
}

/// A size between 1 and 50.
pub open spec fn page_size(per_page: Option<i64>) -> int {
    match per_page {
        Some(size) => if size < 1 {
            1
        } else if size > 50 {
            50
        } else {
            size as int
        },
        None => 50,
    }
}

pub fn challenge_ratings(page: Option<i64>, per_page: Option<i64>) -> (result: (i64, i64, i64))
    requires
        (page_of(page) - 1) * page_size(per_page) <= i64::MAX,
    ensures
        result.0 == page_of(page),
        result.1 == page_size(per_page),
        result.2 == (page_of(page) - 1) * page_size(per_page),
{
    let number: i64 = match page {
        Some(value) => if value >= 1 {
            value
        } else {
            1
        },
        None => 1,
    };
    let size: i64 = match per_page {
        Some(value) => if value < 1 {
            1
        } else if value > 50 {
            50
        } else {
            value
        },
        None => 50,
    };
    proof {
        assert((number - 1) * size >= 0) by (nonlinear_arith)
            requires
                number >= 1,
                size >= 1,
        ;
    }
    (number, size, (number - 1) * size)
}

// ---------------------------------------------------------------------------
// Solutions
// ---------------------------------------------------------------------------

/// The solution that a player may open: a visible one, or one for those who solved the challenge.
/// Administrators open any.
pub open spec fn open_solution(solution: Option<(i32, Seq<char>)>, admin: bool, solved: bool) -> Option<
    i32,
> {
    match solution {
        Some((id, state)) => if admin || state == "visible"@ || (state == "solved"@ && solved) {
            Some(id)
        } else {
            None
        },
        None => None,
    }
}

/// The solution of a challenge and its state, which is that of a hidden one where there is none.
pub fn challenge_solution(user: &CurrentUser, solution: Option<(i32, &str)>, solved: bool) -> (result: (
    Option<i32>,
    String,
))
    ensures
        result.0 == open_solution(
            match solution {
                Some((id, state)) => Some((id, state@)),
                None => None,
            },
            user.admin(),
            solved,
        ),
        result.1@ == (match solution {
            Some((_, state)) => state@,
            None => "hidden"@,
        }),
{
    match solution {
        Some((id, state)) => {
            let open = user.is_admin() || same(state, "visible") || (same(state, "solved")
                && solved);
            (
                if open {
                    Some(id)
                } else {
                    None
                },
                state.to_owned(),
            )
        },
        None => (None, "hidden".to_owned()),
    }
}

pub open spec fn is_solution_state(state: Seq<char>) -> bool {
    state == "hidden"@ || state == "visible"@ || state == "solved"@
}

pub fn validate_solution_state(state: &str) -> (result: Result<(), ApiError>)
    ensures
        shown(result) == (if is_solution_state(state@) {
            Ok::<(), Failure>(())
        } else {
            Err(bad("Invalid solution state"@))
        }),
{
    if same(state, "hidden") || same(state, "visible") || same(state, "solved") {
        Ok(())
    } else {
        Err(ApiError::bad_request("Invalid solution state"))
    }
}

/// The state of a new solution: a hidden one, unless the request says otherwise.
pub fn create_solution(user: &CurrentUser, state: Option<&str>) -> (result: Result<
    String,
    ApiError,
>)
    ensures
        shown_text(result) == (if !user.admin() {
            Err(forbidden("Administrator access is required"@))
        } else {
            match str_of(state) {
                None => Ok("hidden"@),
                Some(word) => if is_solution_state(word) {
                    Ok(word)
                } else {
                    Err(bad("Invalid solution state"@))
                },
            }
        }),
{
    if let Err(error) = crate::auth::require_admin(user) {
        return Err(error);
    }
    let word = match state {
        Some(word) => word,
        None => "hidden",
    };
    match validate_solution_state(word) {
        Ok(()) => Ok(word.to_owned()),
        Err(error) => Err(error),
    }
}

/// Whether a solution may be changed to a state.
pub fn update_solution(user: &CurrentUser, state: Option<&str>) -> (result: Result<(), ApiError>)
    ensures
        shown(result) == (if !user.admin() {
            Err(forbidden("Administrator access is required"@))
        } else if state is Some && !is_solution_state(state->Some_0@) {
            Err(bad("Invalid solution state"@))
        } else {
            Ok::<(), Failure>(())
        }),
{
    if let Err(error) = crate::auth::require_admin(user) {
        return Err(error);
    }
    match state {
        Some(word) => validate_solution_state(word),
        None => Ok(()),
    }
}

/// A solution as a player asks for it.
pub struct AskedSolution {
    pub challenge_id: Option<i32>,
    pub state: String,
}

/// What a request for a solution leads to.
#[derive(Clone, Copy, Debug, PartialEq, Eq, Structural)]
pub enum SolutionStep {
    /// Ask whether the account has solved the challenge.
    ReadSolved { challenge_id: i32 },
    Show,
}

/// A player opens no hidden solution, and one for solvers only after solving the challenge; a
/// state that is neither is open to all.
pub open spec fn solution_course(
    admin: bool,
    solution: Option<AskedSolution>,
    solved: Option<bool>,
) -> Result<SolutionStep, Failure> {
    match solution {
        None => Err(not_found("Solution not found"@)),
        Some(found) => if admin {
            Ok(SolutionStep::Show)
        } else {
            match found.challenge_id {
                None => Err(not_found("Solution not found"@)),
                Some(challenge_id) => if found.state@ == "hidden"@ {
                    Err(not_found("Solution not found"@))
                } else if found.state@ != "solved"@ {
                    Ok(SolutionStep::Show)
                } else {
                    match solved {
                        None => Ok(SolutionStep::ReadSolved { challenge_id }),
                        Some(true) => Ok(SolutionStep::Show),
                        Some(false) => Err(not_found("Solution not found"@)),
                    }
                },
            }
        },
    }
}

pub fn get_solution(
    user: &CurrentUser,
    solution: Option<&AskedSolution>,
    solved: Option<bool>,
) -> (result: Result<SolutionStep, ApiError>)
    ensures
        shown(result) == solution_course(
            user.admin(),
            match solution {
                Some(found) => Some(*found),
                None => None,
            },
            solved,
        ),
{
    let found = match solution {
        Some(found) => found,
        None => return Err(ApiError::not_found("Solution not found")),
    };
    if user.is_admin() {
        return Ok(SolutionStep::Show);
    }
    let challenge_id: i32 = match found.challenge_id {
        Some(id) => id,
        None => return Err(ApiError::not_found("Solution not found")),
    };
    if same(found.state.as_str(), "hidden") {
        return Err(ApiError::not_found("Solution not found"));
    }
    if !same(found.state.as_str(), "solved") {
        return Ok(SolutionStep::Show);
    }
    match solved {
        None => Ok(SolutionStep::ReadSolved { challenge_id }),
        Some(solved) => if solved {
            Ok(SolutionStep::Show)
        } else {
            Err(ApiError::not_found("Solution not found"))
        },
    }
}

// ---------------------------------------------------------------------------
// Hints
// ---------------------------------------------------------------------------

/// A hint costs nothing or more, and what it requires is an object.
pub fn validate_hint(cost: i32, requirements: Option<&Json>) -> (result: Result<(), ApiError>)
    ensures
        shown(result) == (if cost < 0 || (borrowed(requirements) is Some && !(borrowed(
            requirements,
        )->Some_0 is Object)) {
            Err(bad("Invalid hint cost or requirements"@))
        } else {
            Ok::<(), Failure>(())
        }),
{
    let object = match requirements {
        None => true,
        Some(Json::Object(_)) => true,
        Some(_) => false,
    };
    if cost < 0 || !object {
        Err(ApiError::bad_request("Invalid hint cost or requirements"))
    } else {
        Ok(())
    }
}

/// Whether a change of a hint to a cost, where one is given, is accepted.
pub open spec fn hint_change_accepted(admin: bool, cost: Option<i32>) -> bool {
    admin && (cost is Some ==> cost->Some_0 >= 0)
}

/// A changed hint costs nothing or more.
pub fn update_hint(user: &CurrentUser, cost: Option<i32>) -> (result: Result<(), ApiError>)
    ensures
        shown(result) == (if !user.admin() {
            Err(forbidden("Administrator access is required"@))
        } else if cost is Some && cost->Some_0 < 0 {
            Err(bad("Hint cost cannot be negative"@))
        } else {
            Ok::<(), Failure>(())
        }),
        result is Ok <==> hint_change_accepted(user.admin(), cost),
{
    if let Err(error) = crate::auth::require_admin(user) {
        return Err(error);
    }
    match cost {
        Some(cost) if cost < 0 => Err(ApiError::bad_request("Hint cost cannot be negative")),
        _ => Ok(()),
    }
}

/// Whether the content of a hint is shown: to administrators, to whoever unlocked it, and where
/// that is allowed to every visitor, if it costs nothing.
pub open spec fn hint_readable(
    user: Option<&CurrentUser>,
    unlocked: bool,
    cost: Option<i32>,
    free_hints: Option<Seq<char>>,
) -> bool {
    match user {
        Some(current) => current.admin() || unlocked,
        None => (cost is None || cost == Some(0i32)) && switch_value(free_hints, false),
    }
}

pub fn get_hint(
    user: Option<&CurrentUser>,
    unlocked: bool,
    cost: Option<i32>,
    hints_free_public_access: Option<&str>,
) -> (result: bool)
    ensures
        result == hint_readable(user, unlocked, cost, str_of(hints_free_public_access)),
{
    match user {
        Some(current) => current.is_admin() || unlocked,
        None => {
            let free = match cost {
                Some(points) => points == 0,
                None => true,
            };
            free && switch(hints_free_public_access, false)
        },
    }
}

// ---------------------------------------------------------------------------
// Unlocking
// ---------------------------------------------------------------------------

/// A hint as unlocking reads it.
pub struct HintOffer {
    pub challenge_id: i32,
    pub title: Option<String>,
    pub cost: Option<i32>,
}

/// What has been read of an attempt to unlock something.
pub struct UnlockFacts {
    /// The user mode, read under the shared lock on the configuration.
    pub team_mode: Option<bool>,
    /// Whether the account has unlocked the target before, read under the account's lock.
    pub existing: Option<bool>,
    pub hint: Option<Option<HintOffer>>,
    pub score: Option<i64>,
    pub solution_exists: Option<bool>,
}

#[derive(Clone, Copy, Debug, PartialEq, Eq, Structural)]
pub enum UnlockRead {
    /// Opens the transaction, takes the shared lock on the configuration, checks the credential
    /// again and reads the user mode.
    TeamMode,
    /// Takes the account's lock on unlocked content and reads what it has unlocked.
    Existing { account: Account },
    Hint,
    Score { account: Account },
    Solution,
}

/// What is charged for a hint: an award of negative value.
pub struct Charge {
    pub name: String,
    pub description: String,
    pub value: i32,
}

pub enum UnlockStep {
    Read(UnlockRead),
    /// Writes the charge, where there is one, and the unlock.
    Record { charge: Option<Charge>, cost: i32 },
}

/// The course of unlocking, by value.
pub enum UnlockCourse {
    Read(UnlockRead),
    Record(Option<(Seq<char>, Seq<char>, int)>, i32),
}

pub open spec fn charge_view(charge: Option<Charge>) -> Option<(Seq<char>, Seq<char>, int)> {
    match charge {
        Some(found) => Some((found.name@, found.description@, found.value as int)),
        None => None,
    }
}

pub open spec fn shown_unlock(result: Result<UnlockStep, ApiError>) -> Result<
    UnlockCourse,
    Failure,
> {
    match result {
        Ok(UnlockStep::Read(read)) => Ok(UnlockCourse::Read(read)),
        Ok(UnlockStep::Record { charge, cost }) => Ok(
            UnlockCourse::Record(charge_view(charge), cost),
        ),
        Err(error) => Err(error@),
    }
}

pub open spec fn hint_cost(hint: HintOffer) -> i32 {
    match hint.cost {
        Some(points) => points,
        None => 0,
    }
}

/// What is charged for a hint that costs something.
pub open spec fn charge_of(hint: HintOffer, target: i32) -> Option<(Seq<char>, Seq<char>, int)> {
    if hint_cost(hint) > 0 {
        Some(
            (
                match hint.title {
                    Some(title) => title@,
                    None => "Hint "@ + integer_text(target as int),
                },
                "Hint for challenge "@ + integer_text(hint.challenge_id as int),
                -(hint_cost(hint) as int),
            ),
        )
    } else {
        None
    }
}

pub open spec fn unlock_target(
    hints: bool,
    target: i32,
    account: Account,
    facts: UnlockFacts,
) -> Result<UnlockCourse, Failure> {
    if hints {
        match (facts.hint, facts.score) {
            (None, _) => Ok(UnlockCourse::Read(UnlockRead::Hint)),
            (Some(None), _) => Err(not_found("Hint not found"@)),
            (Some(Some(_)), None) => Ok(UnlockCourse::Read(UnlockRead::Score { account })),
            (Some(Some(hint)), Some(score)) => if score < hint_cost(hint) {
                Err(bad("You do not have enough points to unlock this hint"@))
            } else {
                Ok(UnlockCourse::Record(charge_of(hint, target), hint_cost(hint)))
            },
        }
    } else {
        match facts.solution_exists {
            None => Ok(UnlockCourse::Read(UnlockRead::Solution)),
            Some(false) => Err(not_found("Solution not found"@)),
            Some(true) => Ok(UnlockCourse::Record(None, 0)),
        }
    }
}

pub open spec fn unlock_course(
    user: CurrentUser,
    target_type: Seq<char>,
    target: i32,
    facts: UnlockFacts,
) -> Result<UnlockCourse, Failure> {
    if target_type != "hints"@ && target_type != "solutions"@ {
        Err(bad("Unsupported unlock type"@))
    } else if facts.team_mode is None {
        Ok(UnlockCourse::Read(UnlockRead::TeamMode))
    } else if facts.team_mode == Some(true) && user.team_id is None {
        Err(forbidden("Join a team before unlocking content"@))
    } else {
        let account = if facts.team_mode == Some(true) {
            Account::Team(user.team_id->Some_0)
        } else {
            Account::User(user.id)
        };
        match facts.existing {
            None => Ok(UnlockCourse::Read(UnlockRead::Existing { account })),
            Some(true) => Err(conflict("This content is already unlocked"@)),
            Some(false) => unlock_target(target_type == "hints"@, target, account, facts),
        }
    }
}

fn unlock_hint(target: i32, account: Account, facts: &UnlockFacts) -> (result: Result<
    UnlockStep,
    ApiError,
>)
    ensures
        shown_unlock(result) == unlock_target(true, target, account, *facts),
{
    let hint = match &facts.hint {
        None => return Ok(UnlockStep::Read(UnlockRead::Hint)),
        Some(None) => return Err(ApiError::not_found("Hint not found")),
        Some(Some(hint)) => hint,
    };
    let score: i64 = match facts.score {
        None => return Ok(UnlockStep::Read(UnlockRead::Score { account })),
        Some(score) => score,
    };
    let cost: i32 = match hint.cost {
        Some(points) => points,
        None => 0,
    };
    if score < cost as i64 {
        return Err(ApiError::bad_request("You do not have enough points to unlock this hint"));
    }
    if cost <= 0 {
        return Ok(UnlockStep::Record { charge: None, cost });
    }
    let name = match &hint.title {
        Some(title) => title.clone(),
        None => {
            let number = to_text(target as i64);
            concat("Hint ", number.as_str())
        },
    };
    let number = to_text(hint.challenge_id as i64);
    let description = concat("Hint for challenge ", number.as_str());
    Ok(UnlockStep::Record { charge: Some(Charge { name, description, value: -cost }), cost })
}

/// The next step of unlocking a hint or a solution.
pub fn unlock(user: &CurrentUser, target_type: &str, target: i32, facts: &UnlockFacts) -> (result:
    Result<UnlockStep, ApiError>)
    ensures
        shown_unlock(result) == unlock_course(*user, target_type@, target, *facts),
{
    let hints = same(target_type, "hints");
    if !hints && !same(target_type, "solutions") {
        return Err(ApiError::bad_request("Unsupported unlock type"));
    }
    let team_mode = match facts.team_mode {
        None => return Ok(UnlockStep::Read(UnlockRead::TeamMode)),
        Some(team_mode) => team_mode,
    };
    let account = if team_mode {
        match user.team_id {
            Some(team) => Account::Team(team),
            None => return Err(ApiError::forbidden("Join a team before unlocking content")),
        }
    } else {
        Account::User(user.id)
    };
    match facts.existing {
        None => return Ok(UnlockStep::Read(UnlockRead::Existing { account })),
        Some(existing) => {
            if existing {
                return Err(ApiError::conflict("This content is already unlocked"));
            }
        },
    }
    if hints {
        return unlock_hint(target, account, facts);
    }
    match facts.solution_exists {
        None => Ok(UnlockStep::Read(UnlockRead::Solution)),
        Some(exists) => if exists {
            Ok(UnlockStep::Record { charge: None, cost: 0 })
        } else {
            Err(ApiError::not_found("Solution not found"))
        },
    }
}

/// Nothing is unlocked twice, nobody pays more points than the account has, and a hint that costs
/// something is charged for exactly what it costs.
pub proof fn law_unlocks_are_paid(
    user: CurrentUser,
    target_type: Seq<char>,
    target: i32,
    facts: UnlockFacts,
)
    requires
        unlock_course(user, target_type, target, facts) matches Ok(UnlockCourse::Record(..)),
    ensures
        facts.team_mode is Some,
        facts.existing == Some(false),
        unlock_course(user, target_type, target, facts) matches Ok(
            UnlockCourse::Record(charge, cost),
        ) && {
            &&& charge matches Some(paid) ==> paid.2 == -cost && cost > 0
            &&& charge is None ==> cost <= 0
            &&& target_type == "hints"@ ==> facts.score is Some && facts.score->Some_0 >= cost
        },
{
}

// ---------------------------------------------------------------------------
// Notifications
// ---------------------------------------------------------------------------

/// A notification is for everybody, for one user or for one team; administrators see all.
pub open spec fn notification_for(
    user_id: Option<i32>,
    team_id: Option<i32>,
    user: Option<&CurrentUser>,
) -> bool {
    ||| user_id is None && team_id is None
    ||| user matches Some(current) && (current.admin() || user_id == Some(current.id) || (
    team_id is Some && team_id == current.team_id))
}

pub fn notification_visible(
    user_id: Option<i32>,
    team_id: Option<i32>,
    user: Option<&CurrentUser>,
) -> (result: bool)
    ensures
        result == notification_for(user_id, team_id, user),
{
    if user_id.is_none() && team_id.is_none() {
        return true;
    }
    match user {
        None => false,
        Some(current) => {
            let own = match user_id {
                Some(id) => id == current.id,
                None => false,
            };
            let shared = match (team_id, current.team_id) {
                (Some(team), Some(mine)) => team == mine,
                _ => false,
            };
            current.is_admin() || own || shared
        },
    }
}

/// A notification that is not for the visitor is not found.
pub fn get_notification(
    notification: Option<(Option<i32>, Option<i32>)>,
    user: Option<&CurrentUser>,
) -> (result: Result<(), ApiError>)
    ensures
        shown(result) == (match notification {
            Some((user_id, team_id)) if notification_for(user_id, team_id, user) => Ok::<
                (),
                Failure,
            >(()),
            _ => Err(not_found("Notification not found"@)),
        }),
{
    match notification {
        Some((user_id, team_id)) => if notification_visible(user_id, team_id, user) {
            Ok(())
        } else {
            Err(ApiError::not_found("Notification not found"))
        },
        None => Err(ApiError::not_found("Notification not found")),
    }
}

/// The column of the account in the active mode, and the table of such accounts.
pub fn challenge_solves(visible: bool, team_mode: bool) -> (result: Result<
    (String, String),
    ApiError,
>)
    ensures
        match result {
            Ok((column, table)) => {
                &&& visible
                &&& column@ == if team_mode {
                    "s.team_id"@
                } else {
                    "s.user_id"@
                }
                &&& table@ == if team_mode {
                    "teams"@
                } else {
                    "users"@
                }
            },
            Err(error) => !visible && error@ == forbidden("Solve information is not available"@),
        },
{
    if !visible {
        return Err(ApiError::forbidden("Solve information is not available"));
    }
    if team_mode {
        Ok(("s.team_id".to_owned(), "teams".to_owned()))
    } else {
        Ok(("s.user_id".to_owned(), "users".to_owned()))
    }
}

/// Whether an administrator's notification is accepted under its title.
pub open spec fn notification_accepted(admin: bool, title: Seq<char>) -> bool {
    admin && trimmed(title).len() > 0 && byte_length(title) <= 500
}

/// A notification has a title of 500 bytes at most that is not blank.
pub fn create_notification(user: &CurrentUser, title: &str) -> (result: Result<(), ApiError>)
    ensures
        shown(result) == (if !user.admin() {
            Err(forbidden("Administrator access is required"@))
        } else if trimmed(title@).len() == 0 || byte_length(title@) > 500 {
            Err(bad("Notification title is invalid"@))
        } else {
            Ok::<(), Failure>(())
        }),
        result is Ok <==> notification_accepted(user.admin(), title@),
{
    if let Err(error) = crate::auth::require_admin(user) {
        return Err(error);
    }
    let content = trim(title);
    if content.as_str().is_empty() || byte_len(title) > 500 {
        return Err(ApiError::bad_request("Notification title is invalid"));
    }
    Ok(())
}

/// How a notification is shown: as an alert and with a sound, unless something else is asked for.
pub fn notification_manner(kind: Option<String>, sound: Option<bool>) -> (result: (String, bool))
    ensures
        result.0@ == (match text_of(kind) {
            Some(word) => word,
            None => "alert"@,
        }),
        result.1 == (sound != Some(false)),
{
    let word = match kind {
        Some(word) => word,
        None => "alert".to_owned(),
    };
    (word, sound.unwrap_or(true))
}

/// The type of a new hint or award: a standard one, unless another is asked for.
pub fn type_or_standard(given: Option<String>) -> (result: String)
    ensures
        result@ == (match text_of(given) {
            Some(word) => word,
            None => "standard"@,
        }),
{
    match given {
        Some(word) => word,
        None => "standard".to_owned(),
    }
}

/// The statement that deletes a piece of content.
pub fn delete_by_id(table: &str) -> (result: Result<String, ApiError>)
    ensures
        match result {
            Ok(sql) => (table@ == "hints"@ || table@ == "solutions"@ || table@
                == "notifications"@) && sql@ == "DELETE FROM ctfzone."@ + table@ + " WHERE id=$1"@,
            Err(error) => table@ != "hints"@ && table@ != "solutions"@ && table@
                != "notifications"@ && error@ == bad("Unsupported content type"@),
        },
{
    if !same(table, "hints") && !same(table, "solutions") && !same(table, "notifications") {
        return Err(ApiError::bad_request("Unsupported content type"));
    }
    let start = concat("DELETE FROM ctfzone.", table);
    Ok(concat(start.as_str(), " WHERE id=$1"))
}

// ---------------------------------------------------------------------------
// Laws
// ---------------------------------------------------------------------------

/// A hint is recorded with the cost that is stored for it, nothing where none is stored, and where
/// it costs something exactly that is taken from the account, in either user mode: under the title
/// of the hint, or its number where it has none, and with the challenge that it is for.
pub proof fn law_hints_cost_what_is_stored(
    user: CurrentUser,
    target: i32,
    facts: UnlockFacts,
    hint: HintOffer,
)
    requires
        facts.hint == Some(Some(hint)),
        unlock_course(user, "hints"@, target, facts) matches Ok(UnlockCourse::Record(..)),
    ensures
        unlock_course(user, "hints"@, target, facts) matches Ok(
            UnlockCourse::Record(charge, cost),
        ) && {
            &&& hint.cost is Some ==> cost == hint.cost->Some_0
            &&& hint.cost is None ==> cost == 0
            &&& charge is Some <==> hint.cost is Some && hint.cost->Some_0 > 0
            &&& charge is Some ==> charge->Some_0.2 == -hint.cost->Some_0 && charge->Some_0.0 == (
            if hint.title is Some {
                hint.title->Some_0@
            } else {
                "Hint "@ + integer_text(target as int)
            }) && charge->Some_0.1 == "Hint for challenge "@ + integer_text(
                hint.challenge_id as int,
            )
        },
{
}

/// An account that has the points, and has not unlocked the hint, unlocks it; one point less than
/// the hint costs and it does not.
pub proof fn law_points_unlock_hints(
    user: CurrentUser,
    target: i32,
    facts: UnlockFacts,
    hint: HintOffer,
    score: i64,
)
    requires
        facts.team_mode == Some(false) || (facts.team_mode == Some(true) && user.team_id is Some),
        facts.existing == Some(false),
        facts.hint == Some(Some(hint)),
        facts.score == Some(score),
    ensures
        ({
            let price = if hint.cost is Some {
                hint.cost->Some_0 as int
            } else {
                0
            };
            let course = unlock_course(user, "hints"@, target, facts);
            &&& score >= price <==> course is Ok && course->Ok_0 is Record
            &&& score < price ==> course == Err::<UnlockCourse, Failure>(
                bad("You do not have enough points to unlock this hint"@),
            )
        }),
{
}

/// A solution that exists is unlocked once, at no cost.
pub proof fn law_solutions_are_unlocked_free(user: CurrentUser, target: i32, facts: UnlockFacts)
    requires
        facts.team_mode == Some(false) || (facts.team_mode == Some(true) && user.team_id is Some),
        facts.existing is Some,
        facts.solution_exists is Some,
    ensures
        ({
            let course = unlock_course(user, "solutions"@, target, facts);
            &&& course is Ok <==> facts.existing == Some(false) && facts.solution_exists == Some(
                true,
            )
            &&& course is Ok ==> course->Ok_0 == UnlockCourse::Record(None, 0)
            &&& facts.existing == Some(true) ==> course == Err::<UnlockCourse, Failure>(
                conflict("This content is already unlocked"@),
            )
            &&& facts.existing == Some(false) && facts.solution_exists == Some(false) ==> course
                == Err::<UnlockCourse, Failure>(not_found("Solution not found"@))
        }),
{
    reveal_strlit("hints");
    reveal_strlit("solutions");
    assert("hints"@.len() != "solutions"@.len());
}

/// What is unlocked, and with whose points, belongs to the team in team mode and to the user
/// otherwise; nobody without a team unlocks anything in team mode, and nothing but hints and
/// solutions is unlocked.
pub proof fn law_unlocks_belong_to_the_account(
    user: CurrentUser,
    target_type: Seq<char>,
    target: i32,
    facts: UnlockFacts,
)
    ensures
        ({
            let course = unlock_course(user, target_type, target, facts);
            let account = if facts.team_mode == Some(true) {
                Account::Team(user.team_id->Some_0)
            } else {
                Account::User(user.id)
            };
            &&& course matches Ok(UnlockCourse::Read(UnlockRead::Existing { account: found }))
                ==> found == account
            &&& course matches Ok(UnlockCourse::Read(UnlockRead::Score { account: found }))
                ==> found == account
            &&& target_type != "hints"@ && target_type != "solutions"@ ==> course == Err::<
                UnlockCourse,
                Failure,
            >(bad("Unsupported unlock type"@))
            &&& (target_type == "hints"@ || target_type == "solutions"@) && facts.team_mode == Some(
                true,
            ) && user.team_id is None ==> course == Err::<UnlockCourse, Failure>(
                forbidden("Join a team before unlocking content"@),
            )
            &&& facts.hint == Some(None::<HintOffer>) && target_type == "hints"@ ==> !(course is Ok
                && course->Ok_0 is Record)
        }),
{
}

/// A rating is one up or one down, and a player who has solved an open challenge gives it wherever
/// ratings are not disabled; an administrator rates without solving.
pub proof fn law_solvers_rate(admin: bool, value: i32, review: Seq<char>, facts: RateFacts)
    requires
        facts.mode is Some,
        facts.opened,
        facts.full_access is Some,
        facts.solved is Some,
    ensures
        ({
            let course = rate_course(admin, value, review, facts);
            let valid = (value == 1 || value == -1) && byte_length(review) <= 2000;
            let disabled = text_of(facts.mode->Some_0) == Some("disabled"@);
            &&& course is Ok ==> course->Ok_0 == RateStep::Insert
            &&& course is Ok <==> valid && !disabled && facts.full_access == Some(true) && (admin
                || facts.solved == Some(true))
            &&& !valid ==> course == Err::<RateStep, Failure>(
                bad("Invalid rating value or review"@),
            )
            &&& valid && disabled ==> course == Err::<RateStep, Failure>(
                forbidden("Challenge ratings are disabled"@),
            )
            &&& valid && !disabled && facts.full_access == Some(false) ==> course == Err::<
                RateStep,
                Failure,
            >(forbidden("Challenge prerequisites are not satisfied"@))
            &&& valid && !disabled && facts.full_access == Some(true) && !admin && facts.solved
                == Some(false) ==> course == Err::<RateStep, Failure>(
                forbidden("You must solve this challenge before rating it"@),
            )
        }),
{
    assert(facts.full_access == Some(true) || facts.full_access == Some(false));
    assert(facts.solved == Some(true) || facts.solved == Some(false));
}

/// Pages follow each other without a gap: the next page starts where this one ends, the first at the
/// start, and no page holds more than fifty or fewer than one.
pub proof fn law_pages_follow_each_other(page: i64, per_page: Option<i64>)
    requires
        1 <= page < i64::MAX,
    ensures
        page_of(None) == 1,
        page_of(Some(page)) == page,
        page_of(Some((page + 1) as i64)) == page_of(Some(page)) + 1,
        forall|low: i64| low < 1 ==> #[trigger] page_of(Some(low)) == 1,
        1 <= page_size(per_page) <= 50,
        per_page matches Some(size) ==> (1 <= size <= 50 ==> page_size(per_page) == size) && (size
            > 50 ==> page_size(per_page) == 50) && (size < 1 ==> page_size(per_page) == 1),
        per_page is None ==> page_size(per_page) == 50,
{
}

/// A solution is opened by an administrator whatever its state, and by a player exactly where it is
/// visible, or for solvers and the challenge is solved.
pub proof fn law_solutions_open_to_solvers(id: i32, state: Seq<char>, solved: bool)
    ensures
        open_solution(Some((id, state)), true, solved) == Some(id),
        open_solution(Some((id, state)), false, solved) == if state == "visible"@ || (solved
            && state == "solved"@) {
            Some(id)
        } else {
            None
        },
        forall|admin: bool| #[trigger] open_solution(None, admin, solved) is None,
{
}

/// A solution that is asked for is shown to an administrator; to a player it is shown unless it is
/// hidden, belongs to no challenge, or is for solvers and the challenge is not solved. What is not
/// shown is not found.
pub proof fn law_asked_solutions_are_shown(admin: bool, solution: AskedSolution, solved: bool)
    ensures
        ({
            let course = solution_course(admin, Some(solution), Some(solved));
            let open = admin || (solution.challenge_id is Some && solution.state@ != "hidden"@ && (
            solved || solution.state@ != "solved"@));
            &&& open ==> course == Ok::<SolutionStep, Failure>(SolutionStep::Show)
            &&& !open ==> course == Err::<SolutionStep, Failure>(not_found("Solution not found"@))
        }),
        solution_course(admin, None, Some(solved)) == Err::<SolutionStep, Failure>(
            not_found("Solution not found"@),
        ),
        solution_course(admin, Some(solution), None) matches Ok(
            SolutionStep::ReadSolved { challenge_id },
        ) ==> solution.challenge_id == Some(challenge_id),
{
    reveal_strlit("hidden");
    reveal_strlit("solved");
    assert("hidden"@[0] != "solved"@[0]);
}

/// A hint is read by whoever unlocked it and by administrators, and by visitors who are not signed
/// in where it costs nothing and free hints are open to all.
pub proof fn law_hints_are_read(
    user: Option<&CurrentUser>,
    unlocked: bool,
    cost: Option<i32>,
    free_hints: Option<Seq<char>>,
)
    ensures
        user is Some && unlocked ==> hint_readable(user, unlocked, cost, free_hints),
        user is Some && user->Some_0.admin() ==> hint_readable(user, unlocked, cost, free_hints),
        user is Some && !user->Some_0.admin() && !unlocked ==> !hint_readable(
            user,
            unlocked,
            cost,
            free_hints,
        ),
        user is None ==> (hint_readable(user, unlocked, cost, free_hints) <==> (cost is None
            || cost->Some_0 == 0) && switch_value(free_hints, false)),
{
}

/// A notification for nobody in particular is seen by all, and any other by administrators, by the
/// user that it is for and by the members of the team that it is for, and by nobody else.
pub proof fn law_notifications_reach_their_readers(
    user_id: Option<i32>,
    team_id: Option<i32>,
    user: Option<&CurrentUser>,
)
    ensures
        user_id is None && team_id is None ==> notification_for(user_id, team_id, user),
        user_id is Some || team_id is Some ==> (notification_for(user_id, team_id, user) <==> user
            is Some && (user->Some_0.admin() || (user_id is Some && user_id->Some_0
            == user->Some_0.id) || (team_id is Some && user->Some_0.team_id is Some
            && team_id->Some_0 == user->Some_0.team_id->Some_0))),
{
}

/// Only administrators write notifications and change hints: a notification has a title that is not
/// blank and has 500 bytes at most, and a hint costs nothing or more.
pub proof fn law_administrators_write_content(title: Seq<char>, cost: i32)
    ensures
        !notification_accepted(false, title),
        notification_accepted(true, title) <==> trimmed(title).len() > 0 && byte_length(title)
            <= 500,
        !hint_change_accepted(false, Some(cost)) && !hint_change_accepted(false, None),
        hint_change_accepted(true, None),
        hint_change_accepted(true, Some(cost)) <==> cost >= 0,
        is_solution_state(title) <==> title == "hidden"@ || title == "visible"@ || title
            == "solved"@,
{
}

} // verus!
