//! Who may see challenges, scores and accounts, and when.
use crate::auth::{admin_visitor, is_admin_visitor, CurrentUser};
use crate::error::{forbidden, not_found, shown, str_of, ApiError, Failure};
use crate::json::{borrowed, Json};
use crate::settings::{integer, integer_setting, switch, switch_value};
use crate::text::same;
use std::collections::HashSet;
use vstd::prelude::*;

verus! {

broadcast use vstd::std_specs::hash::group_hash_axioms;

/// Challenges are shown to everyone, to visitors who are signed in, or to administrators alone.
/// Nothing stored means the second; any other word shows them to nobody.
pub open spec fn challenges_shown(user: Option<&CurrentUser>, configured: Option<Seq<char>>) -> bool {
    match configured {
        None => user is Some,
        Some(word) => word == "public"@ || (word == "private"@ && user is Some) || (word
            == "admins"@ && is_admin_visitor(user)),
    }
}

pub fn require_challenge_visibility(
    user: Option<&CurrentUser>,
    configured: Option<&str>,
) -> (result: Result<(), ApiError>)
    ensures
        result is Ok <==> challenges_shown(user, str_of(configured)),
        result matches Err(error) ==> error@ == forbidden("Challenges are not available"@),
{
    let shown_to_visitor = match configured {
        None => user.is_some(),
        Some(word) => same(word, "public") || (same(word, "private") && user.is_some()) || (same(
            word,
            "admins",
        ) && admin_visitor(user)),
    };
    if shown_to_visitor {
        Ok(())
    } else {
        Err(ApiError::forbidden("Challenges are not available"))
    }
}

#[derive(Clone, Copy, Debug, PartialEq, Eq, Structural)]
pub enum CtfTimeAccess {
    Allowed,
    NotStarted,
    Ended,
}

/// The event runs strictly between its start and its end; zero means that there is no such bound.
pub open spec fn in_time(now: i64, start: i64, end: i64) -> bool {
    (start == 0 || start < now) && (end == 0 || now < end)
}

/// What the clock says to a visitor.
pub open spec fn time_access(now: i64, start: i64, end: i64, view_after_ctf: bool) -> CtfTimeAccess {
    if in_time(now, start, end) || (end != 0 && now > end && view_after_ctf) {
        CtfTimeAccess::Allowed
    } else if start != 0 && now <= start {
        CtfTimeAccess::NotStarted
    } else {
        CtfTimeAccess::Ended
    }
}

pub fn ctf_time_access(now: i64, start: i64, end: i64, view_after_ctf: bool) -> (result:
    CtfTimeAccess)
    ensures
        result == CtfTimeAccess::Allowed <==> in_time(now, start, end) || (end != 0 && now > end
            && view_after_ctf),
        result == CtfTimeAccess::NotStarted <==> start != 0 && now <= start && !(end != 0 && now
            > end && view_after_ctf),
        result == time_access(now, start, end, view_after_ctf),
{
    let running = (start == 0 || start < now) && (end == 0 || now < end);
    if running || (end != 0 && now > end && view_after_ctf) {
        CtfTimeAccess::Allowed
    } else if start != 0 && now <= start {
        CtfTimeAccess::NotStarted
    } else {
        CtfTimeAccess::Ended
    }
}

pub open spec fn time_gate(
    now: i64,
    start: Option<Seq<char>>,
    end: Option<Seq<char>>,
    view_after_ctf: Option<Seq<char>>,
) -> Result<(), Failure> {
    match integer_setting("start"@, start, 0) {
        Err(failure) => Err(failure),
        Ok(from) => match integer_setting("end"@, end, 0) {
            Err(failure) => Err(failure),
            Ok(to) => {
                let viewable = to != 0 && now > to && switch_value(view_after_ctf, false);
                if in_time(now, from, to) || viewable {
                    Ok(())
                } else if from != 0 && now <= from {
                    Err(forbidden("CTFZone has not started yet"@))
                } else {
                    Err(forbidden("CTFZone has ended"@))
                }
            },
        },
    }
}

/// Administrators view challenges at any time; others while the event runs, or after it where that
/// is allowed.
pub fn require_ctf_time(
    user: Option<&CurrentUser>,
    now: i64,
    start: Option<&str>,
    end: Option<&str>,
    view_after_ctf: Option<&str>,
) -> (result: Result<(), ApiError>)
    ensures
        shown(result) == if is_admin_visitor(user) {
            Ok(())
        } else {
            time_gate(now, str_of(start), str_of(end), str_of(view_after_ctf))
        },
{
    if admin_visitor(user) {
        return Ok(());
    }
    let from: i64 = match integer("start", start, 0) {
        Ok(value) => value,
        Err(error) => return Err(error),
    };
    let to: i64 = match integer("end", end, 0) {
        Ok(value) => value,
        Err(error) => return Err(error),
    };
    let viewable = to != 0 && now > to && switch(view_after_ctf, false);
    match ctf_time_access(now, from, to, viewable) {
        CtfTimeAccess::Allowed => Ok(()),
        CtfTimeAccess::NotStarted => Err(ApiError::forbidden("CTFZone has not started yet")),
        CtfTimeAccess::Ended => Err(ApiError::forbidden("CTFZone has ended")),
    }
}

/// Flags are taken while the event runs. That challenges may be viewed after the end opens nothing
/// here; administrators come in at any time.
pub fn require_submission_time(
    user: Option<&CurrentUser>,
    now: i64,
    start: Option<&str>,
    end: Option<&str>,
) -> (result: Result<(), ApiError>)
    ensures
        shown(result) == if is_admin_visitor(user) {
            Ok(())
        } else {
            time_gate(now, str_of(start), str_of(end), None)
        },
{
    require_ctf_time(user, now, start, end, None)
}

/// Whether a visitor, given as `(administrator, verified)`, still has to verify an address.
pub fn verification_missing(verification_enabled: bool, identity: Option<(bool, bool)>) -> (result:
    bool)
    ensures
        result == (verification_enabled && (identity matches Some(who) && !who.0 && !who.1)),
{
    match identity {
        Some((admin, verified)) => verification_enabled && !admin && !verified,
        None => false,
    }
}

pub open spec fn unverified(user: Option<&CurrentUser>) -> bool {
    user matches Some(current) && !current.admin() && !current.verified
}

pub fn require_verified(user: Option<&CurrentUser>, verify_emails: Option<&str>) -> (result: Result<
    (),
    ApiError,
>)
    ensures
        result is Err <==> switch_value(str_of(verify_emails), false) && unverified(user),
        result matches Err(error) ==> error@ == forbidden(
            "Verify your email before viewing challenges"@,
        ),
{
    let identity = match user {
        Some(current) => Some((current.is_admin(), current.verified)),
        None => None,
    };
    if verification_missing(switch(verify_emails, false), identity) {
        Err(ApiError::forbidden("Verify your email before viewing challenges"))
    } else {
        Ok(())
    }
}

/// Whether a visitor, given as `(administrator, team)`, plays in team mode without a team.
pub fn team_membership_missing(team_mode: bool, identity: Option<(bool, Option<i32>)>) -> (result:
    bool)
    ensures
        result == (team_mode && (identity matches Some(who) && !who.0 && who.1 is None)),
{
    match identity {
        Some((admin, team_id)) => team_mode && !admin && team_id.is_none(),
        None => false,
    }
}

/// Whether a part of the site with its own visibility is open to the visitor: an unknown word
/// opens it.
pub open spec fn part_visible(user: Option<&CurrentUser>, configured: Option<Seq<char>>) -> bool {
    match configured {
        None => true,
        Some(word) => if word == "private"@ {
            user is Some
        } else if word == "admins"@ {
            is_admin_visitor(user)
        } else {
            word != "hidden"@
        },
    }
}

pub fn visibility_value(user: Option<&CurrentUser>, configured: Option<&str>) -> (result: bool)
    ensures
        result == part_visible(user, str_of(configured)),
{
    match configured {
        None => true,
        Some(word) => if same(word, "private") {
            user.is_some()
        } else if same(word, "admins") {
            admin_visitor(user)
        } else {
            !same(word, "hidden")
        },
    }
}

/// Solve counts are shown where both scores and accounts are.
pub fn scores_and_accounts_visible(
    user: Option<&CurrentUser>,
    score_visibility: Option<&str>,
    account_visibility: Option<&str>,
) -> (result: bool)
    ensures
        result == (part_visible(user, str_of(score_visibility)) && part_visible(
            user,
            str_of(account_visibility),
        )),
{
    visibility_value(user, score_visibility) && visibility_value(user, account_visibility)
}

/// Team mode is on where the stored user mode says so.
pub fn is_team_mode(user_mode: Option<&str>) -> (result: bool)
    ensures
        result == (str_of(user_mode) == Some("teams"@)),
{
    match user_mode {
        Some(word) => same(word, "teams"),
        None => false,
    }
}

// ---------------------------------------------------------------------------
// Prerequisites
// ---------------------------------------------------------------------------

/// The challenges that a challenge asks to be solved first; entries that are no 32-bit integers
/// ask for nothing.
pub open spec fn prerequisites(requirements: Option<Json>) -> Set<i32> {
    match requirements {
        Some(value) => match value.field("prerequisites"@) {
            Some(Json::Array(entries)) => Set::new(
                |id: i32|
                    exists|i: int|
                        0 <= i < entries@.len() && (#[trigger] entries@[i]).small_integer() == Some(
                            id,
                        ),
            ),
            _ => Set::empty(),
        },
        None => Set::empty(),
    }
}

pub open spec fn requirements_hold(requirements: Option<Json>, solved: Set<i32>) -> bool {
    prerequisites(requirements).subset_of(solved)
}

pub fn requirements_met(requirements: Option<&Json>, solved: &HashSet<i32>) -> (result: bool)
    ensures
        result == requirements_hold(borrowed(requirements), solved@),
{
    let ghost wanted = prerequisites(borrowed(requirements));
    let value = match requirements {
        Some(value) => value,
        None => return true,
    };
    match value.get("prerequisites") {
        Some(Json::Array(entries)) => {
            let mut i: usize = 0;
            while i < entries.len()
                invariant
                    i <= entries.len(),
                    wanted == prerequisites(borrowed(requirements)),
                    wanted == Set::new(
                        |id: i32|
                            exists|k: int|
                                0 <= k < entries@.len() && (
                                #[trigger] entries@[k]).small_integer() == Some(id),
                    ),
                    forall|k: int|
                        0 <= k < i ==> ((#[trigger] entries@[k]).small_integer() matches Some(id)
                            ==> solved@.contains(id)),
                decreases entries.len() - i,
            {
                match entries[i].as_i32() {
                    Some(id) => {
                        if !solved.contains(&id) {
                            assert(entries@[i as int].small_integer() == Some(id));
                            assert(wanted.contains(id));
                            return false;
                        }
                    },
                    None => {},
                }
                i += 1;
            }
            assert(wanted.subset_of(solved@));
            true
        },
        _ => true,
    }
}

#[derive(Clone, Copy, Debug, PartialEq, Eq, Structural)]
pub enum ChallengeRowAccess {
    Full,
    HiddenPreview(bool),
    NotFound,
    PrerequisitesDenied,
}

pub open spec fn row_access(
    state: Seq<char>,
    requirements: Option<Json>,
    admin: bool,
    solved: Set<i32>,
) -> ChallengeRowAccess {
    if admin {
        ChallengeRowAccess::Full
    } else if state != "visible"@ {
        ChallengeRowAccess::NotFound
    } else if requirements_hold(requirements, solved) {
        ChallengeRowAccess::Full
    } else {
        match anonymized(requirements) {
            Some(value) => ChallengeRowAccess::HiddenPreview(value.text() == Some("preview"@)),
            None => ChallengeRowAccess::PrerequisitesDenied,
        }
    }
}

/// How a challenge with unmet prerequisites is shown, where it is shown at all.
pub open spec fn anonymized(requirements: Option<Json>) -> Option<Json> {
    match requirements {
        Some(value) => value.field("anonymize"@),
        None => None,
    }
}

/// Whether the value is the word `preview`.
pub fn asks_preview(value: &Json) -> (result: bool)
    ensures
        result == (value.text() == Some("preview"@)),
{
    match value.as_str() {
        Some(word) => same(word, "preview"),
        None => false,
    }
}

pub fn anonymize_rule(requirements: Option<&Json>) -> (result: Option<&Json>)
    ensures
        borrowed(result) == anonymized(borrowed(requirements)),
{
    match requirements {
        Some(value) => value.get("anonymize"),
        None => None,
    }
}

pub fn challenge_row_access(
    state: &str,
    requirements: Option<&Json>,
    admin: bool,
    solved: &HashSet<i32>,
) -> (result: ChallengeRowAccess)
    ensures
        result == row_access(state@, borrowed(requirements), admin, solved@),
{
    if admin {
        return ChallengeRowAccess::Full;
    }
    if !same(state, "visible") {
        return ChallengeRowAccess::NotFound;
    }
    if requirements_met(requirements, solved) {
        return ChallengeRowAccess::Full;
    }
    match anonymize_rule(requirements) {
        Some(value) => ChallengeRowAccess::HiddenPreview(asks_preview(value)),
        None => ChallengeRowAccess::PrerequisitesDenied,
    }
}

/// What a visitor may see of one challenge: `None` is all of it, `Some(preview)` its anonymous
/// card.
pub open spec fn context_access(
    user: Option<&CurrentUser>,
    team_mode: bool,
    current_team_id: Option<i32>,
    challenge: Option<(Seq<char>, Option<Json>)>,
    solved: Set<i32>,
) -> Result<Option<bool>, Failure> {
    if team_mode && user is Some && !is_admin_visitor(user) && current_team_id is None {
        Err(forbidden("Join a team before viewing challenges"@))
    } else {
        match challenge {
            None => Err(not_found("Challenge not found"@)),
            Some((state, requirements)) => match row_access(
                state,
                requirements,
                is_admin_visitor(user),
                solved,
            ) {
                ChallengeRowAccess::Full => Ok(None),
                ChallengeRowAccess::HiddenPreview(preview) => Ok(Some(preview)),
                ChallengeRowAccess::NotFound => Err(not_found("Challenge not found"@)),
                ChallengeRowAccess::PrerequisitesDenied => Err(
                    forbidden("Challenge prerequisites are not satisfied"@),
                ),
            },
        }
    }
}

pub open spec fn card_of(challenge: Option<(&str, Option<&Json>)>) -> Option<
    (Seq<char>, Option<Json>),
> {
    match challenge {
        Some((state, requirements)) => Some((state@, borrowed(requirements))),
        None => None,
    }
}

pub fn challenge_access_context(
    user: Option<&CurrentUser>,
    team_mode: bool,
    current_team_id: Option<i32>,
    challenge: Option<(&str, Option<&Json>)>,
    solved: &HashSet<i32>,
) -> (result: Result<Option<bool>, ApiError>)
    ensures
        shown(result) == context_access(
            user,
            team_mode,
            current_team_id,
            card_of(challenge),
            solved@,
        ),
{
    let identity = match user {
        Some(current) => Some((current.is_admin(), current_team_id)),
        None => None,
    };
    if team_membership_missing(team_mode, identity) {
        return Err(ApiError::forbidden("Join a team before viewing challenges"));
    }
    match challenge {
        None => Err(ApiError::not_found("Challenge not found")),
        Some((state, requirements)) => match challenge_row_access(
            state,
            requirements,
            admin_visitor(user),
            solved,
        ) {
            ChallengeRowAccess::Full => Ok(None),
            ChallengeRowAccess::HiddenPreview(preview) => Ok(Some(preview)),
            ChallengeRowAccess::NotFound => Err(ApiError::not_found("Challenge not found")),
            ChallengeRowAccess::PrerequisitesDenied => Err(
                ApiError::forbidden("Challenge prerequisites are not satisfied"),
            ),
        },
    }
}

/// An anonymous card gives no access to the challenge behind it.
pub fn require_unanonymized_access(access: Option<bool>) -> (result: Result<(), ApiError>)
    ensures
        result is Ok <==> access is None,
        result matches Err(error) ==> error@ == forbidden(
            "Challenge prerequisites are not satisfied"@,
        ),
{
    if access.is_some() {
        Err(ApiError::forbidden("Challenge prerequisites are not satisfied"))
    } else {
        Ok(())
    }
}

/// Whoever is no administrator and gets full access to a challenge sees a visible one, has solved
/// all that it asks for, and has a team in team mode.
pub proof fn law_full_access_is_earned(
    user: Option<&CurrentUser>,
    team_mode: bool,
    current_team_id: Option<i32>,
    state: Seq<char>,
    requirements: Option<Json>,
    solved: Set<i32>,
)
    requires
        !is_admin_visitor(user),
        context_access(user, team_mode, current_team_id, Some((state, requirements)), solved) == Ok::<
            Option<bool>,
            Failure,
        >(None),
    ensures
        state == "visible"@,
        prerequisites(requirements).subset_of(solved),
        team_mode && user is Some ==> current_team_id is Some,
{
}

/// Solving more challenges never takes access away.
pub proof fn law_access_grows_with_solves(
    state: Seq<char>,
    requirements: Option<Json>,
    admin: bool,
    fewer: Set<i32>,
    more: Set<i32>,
)
    requires
        fewer.subset_of(more),
        row_access(state, requirements, admin, fewer) == ChallengeRowAccess::Full,
    ensures
        row_access(state, requirements, admin, more) == ChallengeRowAccess::Full,
{
}

/// What is public is shown to everybody, what is private to whoever is signed in, what is for
/// administrators to them alone, and nothing under any other word; where nothing is stored,
/// challenges are private.
pub proof fn law_challenges_are_shown_by_word(user: Option<&CurrentUser>, word: Seq<char>)
    ensures
        challenges_shown(user, Some("public"@)),
        challenges_shown(user, Some("private"@)) <==> user is Some,
        challenges_shown(user, Some("admins"@)) <==> user is Some && user->Some_0.admin(),
        challenges_shown(user, None) <==> user is Some,
        word != "public"@ && word != "private"@ && word != "admins"@ ==> !challenges_shown(
            user,
            Some(word),
        ),
{
    reveal_strlit("public");
    reveal_strlit("private");
    reveal_strlit("admins");
    assert("public"@.len() == 6 && "private"@.len() == 7 && "admins"@.len() == 6);
    assert("public"@[0] != "admins"@[0]);
}

/// A private part of the site is open to whoever is signed in, one for administrators to them, a
/// hidden one to nobody, and any other to everybody.
pub proof fn law_parts_are_open_by_word(user: Option<&CurrentUser>, word: Seq<char>)
    ensures
        part_visible(user, None),
        part_visible(user, Some("private"@)) <==> user is Some,
        part_visible(user, Some("admins"@)) <==> user is Some && user->Some_0.admin(),
        !part_visible(user, Some("hidden"@)),
        word != "private"@ && word != "admins"@ && word != "hidden"@ ==> part_visible(
            user,
            Some(word),
        ),
{
    reveal_strlit("private");
    reveal_strlit("admins");
    reveal_strlit("hidden");
    assert("private"@.len() == 7 && "admins"@.len() == 6 && "hidden"@.len() == 6);
    assert("hidden"@[0] != "admins"@[0]);
}

/// Between its start and its end, both left out, the event is open; before it nobody is let in, and
/// after it only where viewing is allowed then. A bound of zero is no bound.
pub proof fn law_the_event_is_open_between_its_bounds(
    now: i64,
    start: Option<Seq<char>>,
    end: Option<Seq<char>>,
    viewing: Option<Seq<char>>,
    from: i64,
    to: i64,
)
    requires
        integer_setting("start"@, start, 0) == Ok::<i64, Failure>(from),
        integer_setting("end"@, end, 0) == Ok::<i64, Failure>(to),
    ensures
        ({
            let gate = time_gate(now, start, end, viewing);
            let begun = from == 0 || from < now;
            let over = to != 0 && to <= now;
            let viewable = to != 0 && to < now && switch_value(viewing, false);
            &&& begun && !over ==> gate is Ok
            &&& viewable ==> gate is Ok
            &&& !begun && !viewable ==> gate == Err::<(), Failure>(
                forbidden("CTFZone has not started yet"@),
            )
            &&& begun && over && !viewable ==> gate == Err::<(), Failure>(
                forbidden("CTFZone has ended"@),
            )
        }),
{
}

/// A bound that is no integer closes the event with that message, the start before the end.
pub proof fn law_unreadable_bounds_close_the_event(
    now: i64,
    start: Option<Seq<char>>,
    end: Option<Seq<char>>,
    viewing: Option<Seq<char>>,
)
    ensures
        integer_setting("start"@, start, 0) matches Err(failure) ==> time_gate(
            now,
            start,
            end,
            viewing,
        ) == Err::<(), Failure>(failure),
        integer_setting("start"@, start, 0) is Ok ==> (integer_setting("end"@, end, 0) matches Err(
            failure,
        ) ==> time_gate(now, start, end, viewing) == Err::<(), Failure>(failure)),
{
}

/// An address has to be verified by whoever is signed in, is no administrator, and has not verified
/// it.
pub proof fn law_players_verify_their_address(user: Option<&CurrentUser>)
    ensures
        unverified(user) <==> user is Some && !user->Some_0.admin() && !user->Some_0.verified,
        is_admin_visitor(user) ==> !unverified(user),
        is_admin_visitor(user) <==> user is Some && user->Some_0.admin(),
{
}

/// A prerequisite that is added to a challenge has to be solved, and the others still have to be;
/// an entry that is no 32-bit integer adds nothing, and a challenge without a list of them asks for
/// nothing.
pub proof fn law_each_prerequisite_is_asked_for(
    requirements: Json,
    more: Json,
    entries: Vec<Json>,
    longer: Vec<Json>,
    solved: Set<i32>,
)
    requires
        requirements.field("prerequisites"@) == Some(Json::Array(entries)),
        more.field("prerequisites"@) == Some(Json::Array(longer)),
        longer@.len() == entries@.len() + 1,
        longer@.drop_last() == entries@,
    ensures
        requirements_hold(Some(more), solved) <==> requirements_hold(Some(requirements), solved) && (
        longer@.last().small_integer() matches Some(id) ==> solved.contains(id)),
        entries@.len() == 0 ==> requirements_hold(Some(requirements), solved),
        requirements_hold(None, solved),
        forall|other: Json|
            !(other.field("prerequisites"@) matches Some(Json::Array(_))) ==> #[trigger]
            requirements_hold(Some(other), solved),
{
    let old_set = prerequisites(Some(requirements));
    let new_set = prerequisites(Some(more));
    assert forall|i: int| 0 <= i < entries@.len() implies entries@[i] == longer@[i] by {
        assert(longer@.drop_last()[i] == longer@[i]);
    }
    assert forall|id: i32| new_set.contains(id) <==> old_set.contains(id)
        || longer@.last().small_integer() == Some(id) by {
        if old_set.contains(id) {
            let i = choose|i: int|
                0 <= i < entries@.len() && (#[trigger] entries@[i]).small_integer() == Some(id);
            assert(longer@[i].small_integer() == Some(id));
        }
        if longer@.last().small_integer() == Some(id) {
            assert(longer@[longer@.len() - 1].small_integer() == Some(id));
        }
        if new_set.contains(id) {
            let i = choose|i: int|
                0 <= i < longer@.len() && (#[trigger] longer@[i]).small_integer() == Some(id);
            if i < entries@.len() {
                assert(entries@[i].small_integer() == Some(id));
            }
        }
    }
    if requirements_hold(Some(more), solved) {
        assert(requirements_hold(Some(requirements), solved));
        if longer@.last().small_integer() is Some {
            assert(new_set.contains(longer@.last().small_integer()->Some_0));
        }
    }
}

/// One challenge is open in full to administrators, and to a player where it is visible and all that
/// it asks for is solved; where something is missing it is a card if it says how it is anonymized,
/// and denied otherwise; what is not visible is not found.
pub proof fn law_each_challenge_is_open_or_closed(
    user: Option<&CurrentUser>,
    team_mode: bool,
    team: Option<i32>,
    state: Seq<char>,
    requirements: Option<Json>,
    solved: Set<i32>,
)
    ensures
        ({
            let access = context_access(user, team_mode, team, Some((state, requirements)), solved);
            let admin = user is Some && user->Some_0.admin();
            let admitted = admin || user is None || !team_mode || team is Some;
            let earned = requirements_hold(requirements, solved);
            let rule = if requirements is Some {
                requirements->Some_0.field("anonymize"@)
            } else {
                None
            };
            &&& !admitted ==> access == Err::<Option<bool>, Failure>(
                forbidden("Join a team before viewing challenges"@),
            )
            &&& admin ==> access == Ok::<Option<bool>, Failure>(None)
            &&& admitted && !admin && state != "visible"@ ==> access == Err::<
                Option<bool>,
                Failure,
            >(not_found("Challenge not found"@))
            &&& admitted && state == "visible"@ && earned ==> access == Ok::<
                Option<bool>,
                Failure,
            >(None)
            &&& admitted && !admin && state == "visible"@ && !earned && rule is Some ==> access
                == Ok::<Option<bool>, Failure>(
                Some(rule->Some_0 is Text && rule->Some_0->Text_0@ == "preview"@),
            )
            &&& admitted && !admin && state == "visible"@ && !earned && rule is None ==> access
                == Err::<Option<bool>, Failure>(
                forbidden("Challenge prerequisites are not satisfied"@),
            )
        }),
        ({
            let admin = user is Some && user->Some_0.admin();
            admin || user is None || !team_mode || team is Some ==> context_access(
                user,
                team_mode,
                team,
                None,
                solved,
            ) == Err::<Option<bool>, Failure>(not_found("Challenge not found"@))
        }),
{
}

/// The clock lets a visitor in between the bounds, and after the end where viewing is allowed then;
/// before the start it says so, and in every other case that the event is over. A bound of zero is
/// no bound.
pub proof fn law_the_clock_tells_the_event(now: i64, start: i64, end: i64, viewing: bool)
    ensures
        ({
            let access = time_access(now, start, end, viewing);
            &&& start == 0 && end == 0 ==> access == CtfTimeAccess::Allowed
            &&& start < now && (end == 0 || now < end) ==> access == CtfTimeAccess::Allowed
            &&& start != 0 && now <= start && (end == 0 || now <= end) ==> access
                == CtfTimeAccess::NotStarted
            &&& end != 0 && now > end && viewing ==> access == CtfTimeAccess::Allowed
            &&& end != 0 && now >= end && (start == 0 || start < now) && !viewing ==> access
                == CtfTimeAccess::Ended
            &&& viewing && access == CtfTimeAccess::Allowed && !(end != 0 && now > end)
                ==> time_access(now, start, end, false) == CtfTimeAccess::Allowed
        }),
{
}

} // verus!
