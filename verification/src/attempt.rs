//! Handing in a flag: what is read, what is answered and what is recorded.
//!
//! The course of an attempt is a function of what is known so far. It says what has to be read
//! next, or how the attempt ends.
use crate::access::{
    challenges_shown, ctf_time_access, in_time, require_challenge_visibility, require_verified,
    requirements_hold, requirements_met, time_gate, unverified, CtfTimeAccess,
};
use crate::auth::{admin_visitor, is_admin_visitor, CurrentUser};
use crate::comparison::{ComparisonResult, FlagResult, SharedFlagEvidence};
use crate::error::{bad, forbidden, not_found, str_of, text_of, upstream, ApiError, Failure};
use crate::json::Json;
use crate::moment::{
    remaining, seconds_before, seconds_remaining, Moment, FIRST_SECOND, LAST_SECOND,
};
use crate::numbers::{integer_text, to_text};
use crate::settings::{integer, integer_setting, switch_value};
use crate::text::{byte_len, byte_length, concat, contains_char, same, trim, trimmed};
use std::collections::HashSet;
use vstd::prelude::*;

verus! {

/// Who gets the points: a player or a team.
#[derive(Clone, Copy, Debug, PartialEq, Eq, Structural)]
pub enum Account {
    User(i32),
    Team(i32),
}

impl Account {
    pub open spec fn number(self) -> i32 {
        match self {
            Account::User(id) => id,
            Account::Team(id) => id,
        }
    }

    pub fn id(self) -> (result: i32)
        ensures
            result == self.number(),
    {
        match self {
            Account::User(id) => id,
            Account::Team(id) => id,
        }
    }
}

/// The lock that keeps two attempts of one account at one challenge apart.
pub open spec fn lock_key_of(account: i32, challenge: i32) -> i64 {
    ((account as i64) << 32) ^ (challenge as i64)
}

pub fn lock_key(account: Account, challenge_id: i32) -> (result: i64)
    ensures
        result == lock_key_of(account.number(), challenge_id),
{
    let id: i64 = account.id() as i64;
    (id << 32) ^ (challenge_id as i64)
}

/// Different accounts, or different challenges, take different locks.
pub proof fn law_lock_keys_differ(account: i32, challenge: i32, other: i32, second: i32)
    requires
        lock_key_of(account, challenge) == lock_key_of(other, second),
    ensures
        account == other,
        challenge == second,
{
    assert(((account as i64) << 32) ^ (challenge as i64) == ((other as i64) << 32) ^ (
    second as i64) ==> account == other && challenge == second) by (bit_vector);
}

/// A submission, white space around it set aside, has 1 to 4096 bytes and no zero character.
pub open spec fn acceptable(submission: Seq<char>) -> bool {
    let content = trimmed(submission);
    content.len() > 0 && byte_length(content) <= 4096 && !content.contains('\0')
}

/// The submission that is compared and recorded.
pub fn accepted_submission(submission: &str) -> (result: Option<String>)
    ensures
        result is Some <==> acceptable(submission@),
        result matches Some(content) ==> content@ == trimmed(submission@),
{
    let content = trim(submission);
    if content.as_str().is_empty() || byte_len(content.as_str()) > 4096 || contains_char(
        content.as_str(),
        '\0',
    ) {
        None
    } else {
        Some(content)
    }
}

/// A challenge as an attempt reads it.
pub struct AttemptChallenge {
    pub id: i32,
    pub challenge_type: Option<String>,
    pub state: String,
    pub logic: String,
    pub max_attempts: Option<i32>,
    pub requirements: Option<Json>,
}

/// What decides whether flags are taken from a visitor at all: the stored settings, and the second
/// at which the flag came in.
pub struct AttemptGates {
    pub challenge_visibility: Option<String>,
    pub now: i64,
    pub start: Option<String>,
    pub end: Option<String>,
    pub verify_emails: Option<String>,
}

/// The configured limits.
pub struct AttemptLimits {
    pub incorrect_per_minute: i64,
    pub max_behavior: Option<String>,
    pub max_timeout: i64,
}

/// Incorrect submissions of the last minute: how many, and when the oldest was made.
#[derive(Clone, Copy)]
pub struct RecentFailures {
    pub count: i64,
    pub oldest: Option<Moment>,
}

/// All that is known of an attempt. What has not been read yet is `None`.
pub struct AttemptFacts {
    pub user: Option<CurrentUser>,
    pub preview_requested: bool,
    pub challenge_id: i32,
    pub submission: String,
    pub gates: Option<AttemptGates>,
    pub within_rate: Option<bool>,
    pub paused: Option<bool>,
    pub limits: Option<AttemptLimits>,
    pub team_mode: Option<bool>,
    pub membership: Option<Option<i32>>,
    pub challenge: Option<Option<AttemptChallenge>>,
    pub solved: Option<HashSet<i32>>,
    pub flag_count: Option<usize>,
    pub now: Option<Moment>,
    pub recent: Option<RecentFailures>,
    pub failures: Option<i64>,
    pub oldest_failure: Option<Option<Moment>>,
    pub comparison: Option<ComparisonResult>,
    pub has_solved: Option<bool>,
}

/// What has to be read next.
#[derive(Clone, Copy, Debug, PartialEq, Eq, Structural)]
pub enum AttemptRead {
    /// The settings that open the event, and the clock.
    Gates,
    /// Whether the user stays within so many attempts in so many seconds.
    RateLimit { user_id: i32, limit: u32, seconds: u64 },
    Paused,
    Limits,
    /// Opens the transaction: takes the shared lock on the configuration, checks the credential
    /// again and reads the user mode.
    TeamMode,
    /// Takes the lock on team membership and reads the user's team.
    Membership { user_id: i32 },
    /// Takes the lock of the account and reads the challenge.
    Challenge { account: Account, lock: i64, challenge_id: i32 },
    Solved { account: Account },
    Flags,
    Clock,
    /// Incorrect submissions of the account to any challenge since the moment.
    Recent { account: Account, minute_ago: Moment },
    /// Incorrect submissions of the account to the challenge, since the moment where there is one.
    Failures { account: Account, since: Option<Moment> },
    OldestFailure { account: Account, since: Option<Moment> },
    Comparison { account: Account },
    HasSolved { account: Account },
}

/// Why an attempt is refused as a failed request.
#[derive(Clone, Copy, Debug, PartialEq, Eq, Structural)]
pub enum AttemptFailure {
    NotAvailable,
    StartUnreadable,
    EndUnreadable,
    NotStarted,
    Ended,
    Unverified,
    BadSubmission,
    NoTeam,
    ChallengeNotFound,
    UnsupportedType,
    ChallengeLocked,
    PrerequisitesMissing,
    NoFlags,
}

/// What the player is told.
#[derive(Clone, Copy, Debug, PartialEq, Eq, Structural)]
pub enum AttemptReply {
    AuthenticationRequired,
    RateLimited,
    Paused,
    NoTriesLeft,
    WaitForTimeout { seconds: i64 },
    WaitForMinute { seconds: i64 },
    AlreadySolved,
    Correct,
    Partial { whole_team: bool },
    Incorrect,
}

/// The type under which a submission is recorded.
#[derive(Clone, Copy, Debug, PartialEq, Eq, Structural)]
pub enum SubmissionType {
    RateLimited,
    Discard,
    Correct,
    Partial,
    Incorrect,
}

/// What is written before the transaction is committed: one submission, the evidence of a shared
/// flag beside it, and for a solve the solve and the challenge's new value.
#[derive(Clone, Copy, Debug)]
pub struct AttemptRecord {
    pub kind: SubmissionType,
    pub account_team: Option<i32>,
    pub shared: Option<SharedFlagEvidence>,
    pub solve: bool,
}

#[derive(Clone, Copy, Debug)]
pub enum AttemptStep {
    Read(AttemptRead),
    Fail(AttemptFailure),
    Reply { record: Option<AttemptRecord>, reply: AttemptReply },
}

pub open spec fn answer(reply: AttemptReply) -> AttemptStep {
    AttemptStep::Reply { record: None, reply }
}

impl AttemptFacts {
    pub open spec fn is_preview(self) -> bool {
        self.user matches Some(user) && user.admin() && self.preview_requested
    }

    /// The team that plays: in team mode alone.
    pub open spec fn team(self) -> Option<i32> {
        if self.team_mode == Some(true) {
            match self.membership {
                Some(team) => team,
                None => None,
            }
        } else {
            None
        }
    }

    pub open spec fn account(self, user_id: i32) -> Account {
        match self.team() {
            Some(team) => Account::Team(team),
            None => Account::User(user_id),
        }
    }

    pub open spec fn timeout_since(self) -> Option<Moment> {
        match (self.limits, self.now) {
            (Some(limits), Some(now)) if is_timeout(limits) => Some(
                Moment { seconds: (now.seconds - limits.max_timeout) as i64, nanos: now.nanos },
            ),
            _ => None,
        }
    }

    /// The dates lie in the calendar, those that are computed from the configured times too.
    pub open spec fn ok(self) -> bool {
        &&& self.now matches Some(now) ==> {
            &&& now.ok()
            &&& FIRST_SECOND + 60 <= now.seconds
            &&& self.limits matches Some(limits) ==> {
                &&& is_timeout(limits) ==> FIRST_SECOND <= now.seconds - limits.max_timeout
                    <= LAST_SECOND
                &&& self.oldest_failure matches Some(Some(date)) ==> date.ok()
            }
            &&& self.recent matches Some(recent) ==> (recent.oldest matches Some(date)
                ==> date.ok())
        }
    }

    /// Judges a submission that may be recorded.
    pub open spec fn judged(self, challenge: AttemptChallenge) -> AttemptStep {
        let user_id = self.user->Some_0.id;
        let account = self.account(user_id);
        match self.comparison {
            None => AttemptStep::Read(AttemptRead::Comparison { account }),
            Some(comparison) => match self.has_solved {
                None => AttemptStep::Read(AttemptRead::HasSolved { account }),
                Some(has_solved) => {
                    let kind = if has_solved {
                        SubmissionType::Discard
                    } else {
                        match comparison.outcome {
                            FlagResult::Correct => SubmissionType::Correct,
                            FlagResult::Partial => SubmissionType::Partial,
                            FlagResult::Incorrect => SubmissionType::Incorrect,
                        }
                    };
                    AttemptStep::Reply {
                        record: Some(
                            AttemptRecord {
                                kind,
                                account_team: self.team(),
                                shared: comparison.shared,
                                solve: kind == SubmissionType::Correct,
                            },
                        ),
                        reply: match kind {
                            SubmissionType::Correct => AttemptReply::Correct,
                            SubmissionType::Partial => AttemptReply::Partial {
                                whole_team: challenge.logic@ == "team"@ && self.team_mode == Some(
                                    true,
                                ),
                            },
                            SubmissionType::Incorrect => AttemptReply::Incorrect,
                            _ => AttemptReply::AlreadySolved,
                        },
                    }
                },
            },
        }
    }

    pub open spec fn turned_away(self, reply: AttemptReply) -> AttemptStep {
        AttemptStep::Reply {
            record: Some(
                AttemptRecord {
                    kind: SubmissionType::RateLimited,
                    account_team: self.team(),
                    shared: None,
                    solve: false,
                },
            ),
            reply,
        }
    }

    /// Holds the attempt to the limits: first those of the challenge, then those of the minute.
    pub open spec fn limited(self, challenge: AttemptChallenge) -> AttemptStep {
        let account = self.account(self.user->Some_0.id);
        let limits = self.limits->Some_0;
        match self.now {
            None => AttemptStep::Read(AttemptRead::Clock),
            Some(now) => match self.recent {
                None => AttemptStep::Read(
                    AttemptRead::Recent {
                        account,
                        minute_ago: Moment {
                            seconds: (now.seconds - 60) as i64,
                            nanos: now.nanos,
                        },
                    },
                ),
                Some(recent) => {
                    let allowed = match challenge.max_attempts {
                        Some(count) => count as int,
                        None => 0,
                    };
                    let since = self.timeout_since();
                    if allowed > 0 && self.failures is None {
                        AttemptStep::Read(AttemptRead::Failures { account, since })
                    } else if allowed > 0 && self.failures->Some_0 >= allowed {
                        if !is_timeout(limits) {
                            answer(AttemptReply::NoTriesLeft)
                        } else {
                            match self.oldest_failure {
                                None => AttemptStep::Read(
                                    AttemptRead::OldestFailure { account, since },
                                ),
                                Some(oldest) => self.turned_away(
                                    AttemptReply::WaitForTimeout {
                                        seconds: remaining(oldest, now, limits.max_timeout) as i64,
                                    },
                                ),
                            }
                        }
                    } else if recent.count >= limits.incorrect_per_minute {
                        self.turned_away(
                            AttemptReply::WaitForMinute {
                                seconds: remaining(recent.oldest, now, 60) as i64,
                            },
                        )
                    } else {
                        self.judged(challenge)
                    }
                },
            },
        }
    }

    /// From the challenge on: an administrator's preview is judged and leaves no trace.
    pub open spec fn challenged(self, challenge: AttemptChallenge) -> AttemptStep {
        let account = self.account(self.user->Some_0.id);
        if !playable(text_of(challenge.challenge_type)) {
            AttemptStep::Fail(AttemptFailure::UnsupportedType)
        } else if !self.is_preview() && challenge.state@ == "hidden"@ {
            AttemptStep::Fail(AttemptFailure::ChallengeNotFound)
        } else if !self.is_preview() && challenge.state@ == "locked"@ {
            AttemptStep::Fail(AttemptFailure::ChallengeLocked)
        } else if !self.is_preview() && self.solved is None {
            AttemptStep::Read(AttemptRead::Solved { account })
        } else if !self.is_preview() && !requirements_hold(
            challenge.requirements,
            self.solved->Some_0@,
        ) {
            AttemptStep::Fail(AttemptFailure::PrerequisitesMissing)
        } else {
            match self.flag_count {
                None => AttemptStep::Read(AttemptRead::Flags),
                Some(count) => if count == 0 {
                    AttemptStep::Fail(AttemptFailure::NoFlags)
                } else if self.is_preview() {
                    match self.comparison {
                        None => AttemptStep::Read(AttemptRead::Comparison { account }),
                        Some(comparison) => answer(
                            match comparison.outcome {
                                FlagResult::Correct => AttemptReply::Correct,
                                FlagResult::Partial => AttemptReply::Partial { whole_team: false },
                                FlagResult::Incorrect => AttemptReply::Incorrect,
                            },
                        ),
                    }
                } else {
                    self.limited(challenge)
                },
            }
        }
    }

    /// The course of the attempt: first the gates, whoever the visitor is.
    pub open spec fn next(self) -> AttemptStep {
        match self.gates {
            None => AttemptStep::Read(AttemptRead::Gates),
            Some(gates) => match gate_failure(visitor_of(self.user), gates) {
                Some(failure) => AttemptStep::Fail(failure),
                None => self.admitted(),
            },
        }
    }

    /// From the rate limit on.
    pub open spec fn admitted(self) -> AttemptStep {
        match self.user {
            None => answer(AttemptReply::AuthenticationRequired),
            Some(user) => match self.within_rate {
                None => AttemptStep::Read(
                    AttemptRead::RateLimit { user_id: user.id, limit: 10, seconds: 5 },
                ),
                Some(within) => if !within {
                    answer(AttemptReply::RateLimited)
                } else if !self.is_preview() && self.paused is None {
                    AttemptStep::Read(AttemptRead::Paused)
                } else if !self.is_preview() && self.paused == Some(true) {
                    answer(AttemptReply::Paused)
                } else if !acceptable(self.submission@) {
                    AttemptStep::Fail(AttemptFailure::BadSubmission)
                } else if self.limits is None {
                    AttemptStep::Read(AttemptRead::Limits)
                } else if self.team_mode is None {
                    AttemptStep::Read(AttemptRead::TeamMode)
                } else if self.team_mode == Some(true) && self.membership is None {
                    AttemptStep::Read(AttemptRead::Membership { user_id: user.id })
                } else if self.team_mode == Some(true) && self.team() is None {
                    AttemptStep::Fail(AttemptFailure::NoTeam)
                } else {
                    match self.challenge {
                        None => AttemptStep::Read(
                            AttemptRead::Challenge {
                                account: self.account(user.id),
                                lock: lock_key_of(
                                    self.account(user.id).number(),
                                    self.challenge_id,
                                ),
                                challenge_id: self.challenge_id,
                            },
                        ),
                        Some(None) => AttemptStep::Fail(AttemptFailure::ChallengeNotFound),
                        Some(Some(challenge)) => self.challenged(challenge),
                    }
                },
            },
        }
    }
}

pub open spec fn visitor_of<'a>(user: Option<CurrentUser>) -> Option<&'a CurrentUser> {
    match user {
        Some(current) => Some(&current),
        None => None,
    }
}

/// Whether flags are taken from the visitor: challenges are shown, the event runs, and the address
/// is verified where that is asked for.
pub open spec fn gate(user: Option<&CurrentUser>, gates: AttemptGates) -> Result<(), Failure> {
    if !challenges_shown(user, text_of(gates.challenge_visibility)) {
        Err(forbidden("Challenges are not available"@))
    } else {
        let time = if is_admin_visitor(user) {
            Ok(())
        } else {
            time_gate(gates.now, text_of(gates.start), text_of(gates.end), None)
        };
        match time {
            Err(failure) => Err(failure),
            Ok(()) => if switch_value(text_of(gates.verify_emails), false) && unverified(user) {
                Err(forbidden("Verify your email before viewing challenges"@))
            } else {
                Ok(())
            },
        }
    }
}

/// How an attempt fails outside the time of the event.
pub open spec fn time_failure(gates: AttemptGates) -> Option<AttemptFailure> {
    match integer_setting("start"@, text_of(gates.start), 0) {
        Err(_) => Some(AttemptFailure::StartUnreadable),
        Ok(from) => match integer_setting("end"@, text_of(gates.end), 0) {
            Err(_) => Some(AttemptFailure::EndUnreadable),
            Ok(to) => if in_time(gates.now, from, to) {
                None
            } else if from != 0 && gates.now <= from {
                Some(AttemptFailure::NotStarted)
            } else {
                Some(AttemptFailure::Ended)
            },
        },
    }
}

/// How an attempt fails at the gates.
pub open spec fn gate_failure(user: Option<&CurrentUser>, gates: AttemptGates) -> Option<
    AttemptFailure,
> {
    if !challenges_shown(user, text_of(gates.challenge_visibility)) {
        Some(AttemptFailure::NotAvailable)
    } else if !is_admin_visitor(user) && time_failure(gates) is Some {
        time_failure(gates)
    } else if switch_value(text_of(gates.verify_emails), false) && unverified(user) {
        Some(AttemptFailure::Unverified)
    } else {
        None
    }
}

fn opt_str(value: &Option<String>) -> (result: Option<&str>)
    ensures
        str_of(result) == text_of(*value),
{
    match value {
        Some(text) => Some(text.as_str()),
        None => None,
    }
}

fn check_time(gates: &AttemptGates) -> (result: Option<AttemptFailure>)
    ensures
        result == time_failure(*gates),
{
    let from: i64 = match integer("start", opt_str(&gates.start), 0) {
        Ok(value) => value,
        Err(_) => return Some(AttemptFailure::StartUnreadable),
    };
    let to: i64 = match integer("end", opt_str(&gates.end), 0) {
        Ok(value) => value,
        Err(_) => return Some(AttemptFailure::EndUnreadable),
    };
    match ctf_time_access(gates.now, from, to, false) {
        CtfTimeAccess::Allowed => None,
        CtfTimeAccess::NotStarted => Some(AttemptFailure::NotStarted),
        CtfTimeAccess::Ended => Some(AttemptFailure::Ended),
    }
}

fn check_gates(user: Option<&CurrentUser>, gates: &AttemptGates) -> (result: Option<
    AttemptFailure,
>)
    ensures
        result == gate_failure(user, *gates),
{
    if require_challenge_visibility(user, opt_str(&gates.challenge_visibility)).is_err() {
        return Some(AttemptFailure::NotAvailable);
    }
    if !admin_visitor(user) {
        let failure = check_time(gates);
        if failure.is_some() {
            return failure;
        }
    }
    if require_verified(user, opt_str(&gates.verify_emails)).is_err() {
        return Some(AttemptFailure::Unverified);
    }
    None
}

pub open spec fn is_timeout(limits: AttemptLimits) -> bool {
    text_of(limits.max_behavior) == Some("timeout"@)
}

fn timeout_configured(limits: &AttemptLimits) -> (result: bool)
    ensures
        result == is_timeout(*limits),
{
    match &limits.max_behavior {
        Some(word) => same(word.as_str(), "timeout"),
        None => false,
    }
}

/// The challenge types that take flags.
pub open spec fn playable(challenge_type: Option<Seq<char>>) -> bool {
    challenge_type == Some("standard"@) || challenge_type == Some("dynamic"@)
}

pub fn is_playable(challenge_type: &Option<String>) -> (result: bool)
    ensures
        result == playable(text_of(*challenge_type)),
{
    match challenge_type {
        Some(word) => same(word.as_str(), "standard") || same(word.as_str(), "dynamic"),
        None => false,
    }
}

fn judge(
    facts: &AttemptFacts,
    challenge: &AttemptChallenge,
    account: Account,
    team: Option<i32>,
) -> (result: AttemptStep)
    requires
        facts.user is Some,
        account == facts.account(facts.user->Some_0.id),
        team == facts.team(),
    ensures
        result == facts.judged(*challenge),
{
    let comparison = match &facts.comparison {
        None => return AttemptStep::Read(AttemptRead::Comparison { account }),
        Some(comparison) => comparison,
    };
    let has_solved = match facts.has_solved {
        None => return AttemptStep::Read(AttemptRead::HasSolved { account }),
        Some(has_solved) => has_solved,
    };
    let (kind, reply) = if has_solved {
        (SubmissionType::Discard, AttemptReply::AlreadySolved)
    } else {
        match comparison.outcome {
            FlagResult::Correct => (SubmissionType::Correct, AttemptReply::Correct),
            FlagResult::Partial => {
                let team_mode = match facts.team_mode {
                    Some(team_mode) => team_mode,
                    None => false,
                };
                let whole_team = same(challenge.logic.as_str(), "team") && team_mode;
                (SubmissionType::Partial, AttemptReply::Partial { whole_team })
            },
            FlagResult::Incorrect => (SubmissionType::Incorrect, AttemptReply::Incorrect),
        }
    };
    let solve = match kind {
        SubmissionType::Correct => true,
        _ => false,
    };
    AttemptStep::Reply {
        record: Some(
            AttemptRecord { kind, account_team: team, shared: comparison.shared, solve },
        ),
        reply,
    }
}

fn turn_away(team: Option<i32>, reply: AttemptReply) -> (result: AttemptStep)
    ensures
        forall|facts: AttemptFacts|
            facts.team() == team ==> result == #[trigger] facts.turned_away(reply),
{
    AttemptStep::Reply {
        record: Some(
            AttemptRecord {
                kind: SubmissionType::RateLimited,
                account_team: team,
                shared: None,
                solve: false,
            },
        ),
        reply,
    }
}

fn limit(
    facts: &AttemptFacts,
    challenge: &AttemptChallenge,
    limits: &AttemptLimits,
    account: Account,
    team: Option<i32>,
) -> (result: AttemptStep)
    requires
        facts.ok(),
        facts.user is Some,
        facts.limits == Some(*limits),
        account == facts.account(facts.user->Some_0.id),
        team == facts.team(),
    ensures
        result == facts.limited(*challenge),
{
    let now = match facts.now {
        None => return AttemptStep::Read(AttemptRead::Clock),
        Some(now) => now,
    };
    let recent = match facts.recent {
        None => {
            let minute_ago = seconds_before(now, 60);
            return AttemptStep::Read(AttemptRead::Recent { account, minute_ago });
        },
        Some(recent) => recent,
    };
    let allowed: i64 = match challenge.max_attempts {
        Some(count) => count as i64,
        None => 0,
    };
    if allowed > 0 {
        let timeout = timeout_configured(limits);
        let since = if timeout {
            Some(seconds_before(now, limits.max_timeout))
        } else {
            None
        };
        let failures: i64 = match facts.failures {
            None => return AttemptStep::Read(AttemptRead::Failures { account, since }),
            Some(failures) => failures,
        };
        if failures >= allowed {
            if !timeout {
                return AttemptStep::Reply { record: None, reply: AttemptReply::NoTriesLeft };
            }
            return match facts.oldest_failure {
                None => AttemptStep::Read(AttemptRead::OldestFailure { account, since }),
                Some(oldest) => {
                    let seconds: i64 = seconds_remaining(oldest, now, limits.max_timeout);
                    turn_away(team, AttemptReply::WaitForTimeout { seconds })
                },
            };
        }
    }
    if recent.count >= limits.incorrect_per_minute {
        let seconds: i64 = seconds_remaining(recent.oldest, now, 60);
        return turn_away(team, AttemptReply::WaitForMinute { seconds });
    }
    judge(facts, challenge, account, team)
}

fn play(
    facts: &AttemptFacts,
    challenge: &AttemptChallenge,
    limits: &AttemptLimits,
    account: Account,
    team: Option<i32>,
    preview: bool,
) -> (result: AttemptStep)
    requires
        facts.ok(),
        facts.user is Some,
        facts.limits == Some(*limits),
        account == facts.account(facts.user->Some_0.id),
        team == facts.team(),
        preview == facts.is_preview(),
    ensures
        result == facts.challenged(*challenge),
{
    if !is_playable(&challenge.challenge_type) {
        return AttemptStep::Fail(AttemptFailure::UnsupportedType);
    }
    if !preview {
        if same(challenge.state.as_str(), "hidden") {
            return AttemptStep::Fail(AttemptFailure::ChallengeNotFound);
        }
        if same(challenge.state.as_str(), "locked") {
            return AttemptStep::Fail(AttemptFailure::ChallengeLocked);
        }
        match &facts.solved {
            None => return AttemptStep::Read(AttemptRead::Solved { account }),
            Some(solved) => {
                if !requirements_met(challenge.requirements.as_ref(), solved) {
                    return AttemptStep::Fail(AttemptFailure::PrerequisitesMissing);
                }
            },
        }
    }
    match facts.flag_count {
        None => return AttemptStep::Read(AttemptRead::Flags),
        Some(count) => {
            if count == 0 {
                return AttemptStep::Fail(AttemptFailure::NoFlags);
            }
        },
    }
    if preview {
        return match &facts.comparison {
            None => AttemptStep::Read(AttemptRead::Comparison { account }),
            Some(comparison) => {
                let reply = match comparison.outcome {
                    FlagResult::Correct => AttemptReply::Correct,
                    FlagResult::Partial => AttemptReply::Partial { whole_team: false },
                    FlagResult::Incorrect => AttemptReply::Incorrect,
                };
                AttemptStep::Reply { record: None, reply }
            },
        };
    }
    limit(facts, challenge, limits, account, team)
}

/// The next step of an attempt.
pub fn attempt(facts: &AttemptFacts) -> (result: AttemptStep)
    requires
        facts.ok(),
    ensures
        result == facts.next(),
{
    let gates = match &facts.gates {
        None => return AttemptStep::Read(AttemptRead::Gates),
        Some(gates) => gates,
    };
    let visitor = facts.user.as_ref();
    assert(visitor == visitor_of(facts.user));
    if let Some(failure) = check_gates(visitor, gates) {
        return AttemptStep::Fail(failure);
    }
    let user = match &facts.user {
        None => return AttemptStep::Reply {
            record: None,
            reply: AttemptReply::AuthenticationRequired,
        },
        Some(user) => user,
    };
    match facts.within_rate {
        None => return AttemptStep::Read(
            AttemptRead::RateLimit { user_id: user.id, limit: 10, seconds: 5 },
        ),
        Some(within) => {
            if !within {
                return AttemptStep::Reply { record: None, reply: AttemptReply::RateLimited };
            }
        },
    }
    let preview = user.is_admin() && facts.preview_requested;
    if !preview {
        match facts.paused {
            None => return AttemptStep::Read(AttemptRead::Paused),
            Some(paused) => {
                if paused {
                    return AttemptStep::Reply { record: None, reply: AttemptReply::Paused };
                }
            },
        }
    }
    if accepted_submission(facts.submission.as_str()).is_none() {
        return AttemptStep::Fail(AttemptFailure::BadSubmission);
    }
    let limits = match &facts.limits {
        None => return AttemptStep::Read(AttemptRead::Limits),
        Some(limits) => limits,
    };
    let team_mode = match facts.team_mode {
        None => return AttemptStep::Read(AttemptRead::TeamMode),
        Some(team_mode) => team_mode,
    };
    let team: Option<i32> = if team_mode {
        match facts.membership {
            None => return AttemptStep::Read(AttemptRead::Membership { user_id: user.id }),
            Some(None) => return AttemptStep::Fail(AttemptFailure::NoTeam),
            Some(Some(team)) => Some(team),
        }
    } else {
        None
    };
    let account = match team {
        Some(id) => Account::Team(id),
        None => Account::User(user.id),
    };
    match &facts.challenge {
        None => AttemptStep::Read(
            AttemptRead::Challenge {
                account,
                lock: lock_key(account, facts.challenge_id),
                challenge_id: facts.challenge_id,
            },
        ),
        Some(None) => AttemptStep::Fail(AttemptFailure::ChallengeNotFound),
        Some(Some(challenge)) => play(facts, challenge, limits, account, team, preview),
    }
}

// ---------------------------------------------------------------------------
// What is answered
// ---------------------------------------------------------------------------

pub open spec fn failure_of(failure: AttemptFailure) -> Failure {
    match failure {
        AttemptFailure::NotAvailable => forbidden("Challenges are not available"@),
        AttemptFailure::StartUnreadable => bad("Configuration start must be an integer"@),
        AttemptFailure::EndUnreadable => bad("Configuration end must be an integer"@),
        AttemptFailure::NotStarted => forbidden("CTFZone has not started yet"@),
        AttemptFailure::Ended => forbidden("CTFZone has ended"@),
        AttemptFailure::Unverified => forbidden("Verify your email before viewing challenges"@),
        AttemptFailure::BadSubmission => bad("A submission between 1 and 4096 bytes is required"@),
        AttemptFailure::NoTeam => forbidden("Join a team before submitting flags"@),
        AttemptFailure::ChallengeNotFound => not_found("Challenge not found"@),
        AttemptFailure::UnsupportedType => bad("Unsupported challenge type"@),
        AttemptFailure::ChallengeLocked => forbidden("Challenge is locked"@),
        AttemptFailure::PrerequisitesMissing => forbidden(
            "Challenge prerequisites are not satisfied"@,
        ),
        AttemptFailure::NoFlags => upstream("The challenge has no flag definition"@),
    }
}

pub fn attempt_error(failure: AttemptFailure) -> (result: ApiError)
    ensures
        result@ == failure_of(failure),
{
    match failure {
        AttemptFailure::NotAvailable => ApiError::forbidden("Challenges are not available"),
        AttemptFailure::StartUnreadable => ApiError::bad_request(
            "Configuration start must be an integer",
        ),
        AttemptFailure::EndUnreadable => ApiError::bad_request(
            "Configuration end must be an integer",
        ),
        AttemptFailure::NotStarted => ApiError::forbidden("CTFZone has not started yet"),
        AttemptFailure::Ended => ApiError::forbidden("CTFZone has ended"),
        AttemptFailure::Unverified => ApiError::forbidden(
            "Verify your email before viewing challenges",
        ),
        AttemptFailure::BadSubmission => ApiError::bad_request(
            "A submission between 1 and 4096 bytes is required",
        ),
        AttemptFailure::NoTeam => ApiError::forbidden("Join a team before submitting flags"),
        AttemptFailure::ChallengeNotFound => ApiError::not_found("Challenge not found"),
        AttemptFailure::UnsupportedType => ApiError::bad_request("Unsupported challenge type"),
        AttemptFailure::ChallengeLocked => ApiError::forbidden("Challenge is locked"),
        AttemptFailure::PrerequisitesMissing => ApiError::forbidden(
            "Challenge prerequisites are not satisfied",
        ),
        AttemptFailure::NoFlags => ApiError::upstream("The challenge has no flag definition"),
    }
}

/// The body of an answer: the HTTP status, the status word and the message.
pub struct AttemptResponse {
    pub code: u16,
    pub status: String,
    pub message: Option<String>,
}

impl View for AttemptResponse {
    type V = (u16, Seq<char>, Option<Seq<char>>);

    open spec fn view(&self) -> (u16, Seq<char>, Option<Seq<char>>) {
        (self.code, self.status@, text_of(self.message))
    }
}

/// The name that a paused event is announced under.
pub open spec fn event_name(name: Option<Seq<char>>) -> Seq<char> {
    match name {
        Some(text) => text,
        None => "CTFZone"@,
    }
}

pub open spec fn response_of(reply: AttemptReply, name: Option<Seq<char>>) -> (
    u16,
    Seq<char>,
    Option<Seq<char>>,
) {
    match reply {
        AttemptReply::AuthenticationRequired => (403, "authentication_required"@, None),
        AttemptReply::RateLimited => (
            429,
            "ratelimited"@,
            Some("Too many submissions; try again shortly"@),
        ),
        AttemptReply::Paused => (403, "paused"@, Some(event_name(name) + " is paused"@)),
        AttemptReply::NoTriesLeft => (
            403,
            "ratelimited"@,
            Some("Not accepted. You have 0 tries remaining"@),
        ),
        AttemptReply::WaitForTimeout { seconds } => (
            429,
            "ratelimited"@,
            Some("Not accepted. Try again in "@ + integer_text(seconds as int) + " seconds"@),
        ),
        AttemptReply::WaitForMinute { seconds } => (
            429,
            "ratelimited"@,
            Some(
                "You're submitting flags too fast. Try again in "@ + integer_text(seconds as int)
                    + " seconds."@,
            ),
        ),
        AttemptReply::AlreadySolved => (
            200,
            "already_solved"@,
            Some("Correct but you already solved this"@),
        ),
        AttemptReply::Correct => (200, "correct"@, Some("Correct"@)),
        AttemptReply::Partial { whole_team } => (
            200,
            "partial"@,
            Some(
                if whole_team {
                    "Correct but all team members must submit a flag"@
                } else {
                    "Correct but more flags are required"@
                },
            ),
        ),
        AttemptReply::Incorrect => (200, "incorrect"@, Some("Incorrect"@)),
    }
}

fn respond(code: u16, status: &str, message: &str) -> (result: AttemptResponse)
    ensures
        result@ == (code, status@, Some(message@)),
{
    AttemptResponse { code, status: status.to_owned(), message: Some(message.to_owned()) }
}

/// The answer to an attempt; `name` is the configured name of the event.
pub fn attempt_response(reply: AttemptReply, name: Option<&str>) -> (result: AttemptResponse)
    ensures
        result@ == response_of(reply, crate::error::str_of(name)),
{
    match reply {
        AttemptReply::AuthenticationRequired => AttemptResponse {
            code: 403,
            status: "authentication_required".to_owned(),
            message: None,
        },
        AttemptReply::RateLimited => respond(
            429,
            "ratelimited",
            "Too many submissions; try again shortly",
        ),
        AttemptReply::Paused => {
            let event = match name {
                Some(text) => text,
                None => "CTFZone",
            };
            let message = concat(event, " is paused");
            respond(403, "paused", message.as_str())
        },
        AttemptReply::NoTriesLeft => respond(
            403,
            "ratelimited",
            "Not accepted. You have 0 tries remaining",
        ),
        AttemptReply::WaitForTimeout { seconds } => {
            let number = to_text(seconds);
            let start = concat("Not accepted. Try again in ", number.as_str());
            let message = concat(start.as_str(), " seconds");
            respond(429, "ratelimited", message.as_str())
        },
        AttemptReply::WaitForMinute { seconds } => {
            let number = to_text(seconds);
            let start = concat("You're submitting flags too fast. Try again in ", number.as_str());
            let message = concat(start.as_str(), " seconds.");
            respond(429, "ratelimited", message.as_str())
        },
        AttemptReply::AlreadySolved => respond(
            200,
            "already_solved",
            "Correct but you already solved this",
        ),
        AttemptReply::Correct => respond(200, "correct", "Correct"),
        AttemptReply::Partial { whole_team } => if whole_team {
            respond(200, "partial", "Correct but all team members must submit a flag")
        } else {
            respond(200, "partial", "Correct but more flags are required")
        },
        AttemptReply::Incorrect => respond(200, "incorrect", "Incorrect"),
    }
}

pub open spec fn type_word(kind: SubmissionType) -> Seq<char> {
    match kind {
        SubmissionType::RateLimited => "ratelimited"@,
        SubmissionType::Discard => "discard"@,
        SubmissionType::Correct => "correct"@,
        SubmissionType::Partial => "partial"@,
        SubmissionType::Incorrect => "incorrect"@,
    }
}

/// The word under which a submission is stored.
pub fn submission_type(kind: SubmissionType) -> (result: String)
    ensures
        result@ == type_word(kind),
{
    match kind {
        SubmissionType::RateLimited => "ratelimited".to_owned(),
        SubmissionType::Discard => "discard".to_owned(),
        SubmissionType::Correct => "correct".to_owned(),
        SubmissionType::Partial => "partial".to_owned(),
        SubmissionType::Incorrect => "incorrect".to_owned(),
    }
}

// ---------------------------------------------------------------------------
// Laws
// ---------------------------------------------------------------------------

/// A solve is written only for a player who is signed in, to whom challenges are shown and whose
/// address is verified where that is asked for, while the event runs, or for an administrator; for
/// a submission that was compared and found correct, at a challenge that can be seen, whose
/// prerequisites are met and that the account has not solved; never in a preview and never while
/// the event is paused.
pub proof fn law_solves_are_earned(facts: AttemptFacts)
    requires
        facts.next() matches AttemptStep::Reply { record: Some(record), .. } && record.solve,
    ensures
        facts.user is Some,
        facts.gates is Some,
        gate(visitor_of(facts.user), facts.gates->Some_0) is Ok,
        challenges_shown(
            visitor_of(facts.user),
            text_of(facts.gates->Some_0.challenge_visibility),
        ),
        facts.user->Some_0.admin() || runs(facts.gates->Some_0),
        switch_value(text_of(facts.gates->Some_0.verify_emails), false)
            ==> facts.user->Some_0.admin() || facts.user->Some_0.verified,
        !facts.is_preview(),
        facts.within_rate == Some(true),
        facts.paused == Some(false),
        acceptable(facts.submission@),
        facts.comparison matches Some(comparison) && comparison.outcome == FlagResult::Correct,
        facts.has_solved == Some(false),
        facts.challenge matches Some(Some(challenge)) && challenge.state@ != "hidden"@
            && challenge.state@ != "locked"@ && requirements_hold(
            challenge.requirements,
            facts.solved->Some_0@,
        ),
        facts.team_mode == Some(true) ==> facts.team() is Some,
{
}

/// The event runs: its start and its end can be read, and now lies strictly between them.
pub open spec fn runs(gates: AttemptGates) -> bool {
    integer_setting("start"@, text_of(gates.start), 0) matches Ok(from) && integer_setting(
        "end"@,
        text_of(gates.end),
        0,
    ) matches Ok(to) && in_time(gates.now, from, to)
}

/// An attempt fails at the gates exactly where they are closed, and with their failure: what is
/// asked for viewing challenges, except that viewing them after the end opens nothing.
pub proof fn law_attempts_pass_the_gates(facts: AttemptFacts)
    requires
        facts.gates is Some,
    ensures
        ({
            let visitor = visitor_of(facts.user);
            match gate(visitor, facts.gates->Some_0) {
                Ok(()) => gate_failure(visitor, facts.gates->Some_0) is None && facts.next()
                    == facts.admitted(),
                Err(failure) => facts.next() matches AttemptStep::Fail(cause) && failure_of(cause)
                    == failure,
            }
        }),
{
    reveal_strlit("Configuration start must be an integer");
    reveal_strlit("Configuration end must be an integer");
    reveal_strlit("Configuration ");
    reveal_strlit(" must be an integer");
    reveal_strlit("start");
    reveal_strlit("end");
    assert("Configuration start must be an integer"@ =~= "Configuration "@ + "start"@
        + " must be an integer"@);
    assert("Configuration end must be an integer"@ =~= "Configuration "@ + "end"@
        + " must be an integer"@);
}

/// After the end of the event no player's flag is taken, whether or not challenges may still be
/// viewed: the attempt fails, and nothing is recorded.
pub proof fn law_no_flag_is_taken_after_the_end(facts: AttemptFacts, from: i64, to: i64)
    requires
        facts.gates is Some,
        !is_admin_visitor(visitor_of(facts.user)),
        integer_setting("start"@, text_of(facts.gates->Some_0.start), 0) == Ok::<i64, Failure>(from),
        integer_setting("end"@, text_of(facts.gates->Some_0.end), 0) == Ok::<i64, Failure>(to),
        to != 0,
        facts.gates->Some_0.now >= to,
    ensures
        facts.next() is Fail,
{
}

/// A preview records nothing.
pub proof fn law_previews_leave_no_trace(facts: AttemptFacts)
    requires
        facts.is_preview(),
    ensures
        facts.next() matches AttemptStep::Reply { record, .. } ==> record is None,
{
}

/// The account has failed at the challenge as often as it may.
pub open spec fn tries_used_up(facts: AttemptFacts, challenge: AttemptChallenge) -> bool {
    match (challenge.max_attempts, facts.failures) {
        (Some(count), Some(failures)) => count > 0 && failures >= count,
        _ => false,
    }
}

/// The account has failed within the last minute as often as it may.
pub open spec fn fails_too_often(facts: AttemptFacts) -> bool {
    match (facts.limits, facts.recent) {
        (Some(limits), Some(recent)) => recent.count >= limits.incorrect_per_minute,
        _ => false,
    }
}

/// An account that has used up its tries, or that fails too often within a minute, is not judged:
/// the comparison is neither read nor answered.
pub proof fn law_limits_hold(facts: AttemptFacts, challenge: AttemptChallenge)
    requires
        !facts.is_preview(),
        facts.challenge == Some(Some(challenge)),
        tries_used_up(facts, challenge) || fails_too_often(facts),
    ensures
        !(facts.next() matches AttemptStep::Read(AttemptRead::Comparison { .. })),
        facts.next() matches AttemptStep::Reply { record: Some(record), .. } ==> record.kind
            == SubmissionType::RateLimited,
{
}

/// Every read of the account's standing, and every write, comes after the shared lock on the
/// configuration was taken, and in team mode after the lock on team membership.
pub proof fn law_locks_come_first(facts: AttemptFacts)
    requires
        match facts.next() {
            AttemptStep::Read(AttemptRead::Challenge { .. }) => true,
            AttemptStep::Read(AttemptRead::Solved { .. }) => true,
            AttemptStep::Read(AttemptRead::Comparison { .. }) => true,
            AttemptStep::Read(AttemptRead::HasSolved { .. }) => true,
            AttemptStep::Reply { record: Some(_), .. } => true,
            _ => false,
        },
    ensures
        facts.team_mode is Some,
        facts.team_mode == Some(true) ==> facts.membership is Some,
        facts.next() is Reply ==> facts.challenge is Some,
{
}

/// What is asked for next has not been read yet.
pub proof fn law_nothing_is_read_twice(facts: AttemptFacts)
    ensures
        facts.next() matches AttemptStep::Read(read) ==> match read {
            AttemptRead::Gates => facts.gates is None,
            AttemptRead::RateLimit { .. } => facts.within_rate is None,
            AttemptRead::Paused => facts.paused is None,
            AttemptRead::Limits => facts.limits is None,
            AttemptRead::TeamMode => facts.team_mode is None,
            AttemptRead::Membership { .. } => facts.membership is None,
            AttemptRead::Challenge { .. } => facts.challenge is None,
            AttemptRead::Solved { .. } => facts.solved is None,
            AttemptRead::Flags => facts.flag_count is None,
            AttemptRead::Clock => facts.now is None,
            AttemptRead::Recent { .. } => facts.recent is None,
            AttemptRead::Failures { .. } => facts.failures is None,
            AttemptRead::OldestFailure { .. } => facts.oldest_failure is None,
            AttemptRead::Comparison { .. } => facts.comparison is None,
            AttemptRead::HasSolved { .. } => facts.has_solved is None,
        },
{
}

/// The account of an attempt has not solved the challenge and is within all limits, the submission
/// was compared, and the standing was read: what is left is the verdict.
pub open spec fn comes_to_a_verdict(facts: AttemptFacts, challenge: AttemptChallenge) -> bool {
    &&& facts.challenge == Some(Some(challenge))
    &&& facts.comparison is Some
    &&& facts.next() matches AttemptStep::Reply { record: Some(record), .. } && record.kind
        != SubmissionType::RateLimited
}

/// Where a verdict is recorded, the recorded type and the reply follow the comparison one to one, as
/// long as the account has not solved the challenge: correct exactly for correct, partial exactly
/// for partial, incorrect exactly for incorrect, and a solve exactly for correct. Where the account
/// has solved it, the submission is discarded whatever it is.
pub proof fn law_verdicts_follow_the_comparison(facts: AttemptFacts, challenge: AttemptChallenge)
    requires
        comes_to_a_verdict(facts, challenge),
    ensures
        facts.has_solved is Some,
        facts.next() matches AttemptStep::Reply { record: Some(record), reply } && {
            let outcome = facts.comparison->Some_0.outcome;
            let first = facts.has_solved == Some(false);
            &&& record.kind == SubmissionType::Correct <==> first && outcome == FlagResult::Correct
            &&& record.kind == SubmissionType::Partial <==> first && outcome == FlagResult::Partial
            &&& record.kind == SubmissionType::Incorrect <==> first && outcome
                == FlagResult::Incorrect
            &&& record.kind == SubmissionType::Discard <==> !first
            &&& record.solve <==> first && outcome == FlagResult::Correct
            &&& reply == AttemptReply::Correct <==> first && outcome == FlagResult::Correct
            &&& reply is Partial <==> first && outcome == FlagResult::Partial
            &&& reply == AttemptReply::Incorrect <==> first && outcome == FlagResult::Incorrect
            &&& reply == AttemptReply::AlreadySolved <==> !first
            &&& reply is Partial ==> (reply->whole_team <==> challenge.logic@ == "team"@
                && facts.team_mode == Some(true))
            &&& record.shared == facts.comparison->Some_0.shared
            &&& record.account_team == (if facts.team_mode == Some(true) {
                facts.membership->Some_0
            } else {
                None
            })
        },
{
}

/// Nothing stands between a player and the verdict but what is asked for: signed in, past the gates,
/// within the rate, not paused, with an acceptable submission, a team in team mode, at a challenge
/// that is open with its prerequisites solved and flags, within the tries and the minute.
pub open spec fn may_be_judged(facts: AttemptFacts, challenge: AttemptChallenge) -> bool {
    &&& facts.user is Some
    &&& !(facts.user->Some_0.admin() && facts.preview_requested)
    &&& facts.gates is Some && gate(visitor_of(facts.user), facts.gates->Some_0) is Ok
    &&& facts.within_rate == Some(true)
    &&& facts.paused == Some(false)
    &&& trimmed(facts.submission@).len() > 0 && byte_length(trimmed(facts.submission@)) <= 4096
        && !trimmed(facts.submission@).contains('\0')
    &&& facts.limits is Some
    &&& facts.team_mode is Some
    &&& facts.team_mode == Some(true) ==> facts.membership is Some && facts.membership->Some_0
        is Some
    &&& facts.challenge == Some(Some(challenge))
    &&& challenge.challenge_type is Some && (challenge.challenge_type->Some_0@ == "standard"@
        || challenge.challenge_type->Some_0@ == "dynamic"@)
    &&& challenge.state@ != "hidden"@ && challenge.state@ != "locked"@
    &&& facts.solved is Some && requirements_hold(challenge.requirements, facts.solved->Some_0@)
    &&& facts.flag_count is Some && facts.flag_count->Some_0 > 0
    &&& facts.now is Some && facts.recent is Some
    &&& challenge.max_attempts is Some && challenge.max_attempts->Some_0 > 0 ==> facts.failures
        is Some && facts.failures->Some_0 < challenge.max_attempts->Some_0
    &&& facts.recent->Some_0.count < facts.limits->Some_0.incorrect_per_minute
}

/// A player who may be judged is judged: the submission is compared, the account's standing is read,
/// and a correct flag of an account that has not solved the challenge is a solve.
pub proof fn law_right_flags_solve(facts: AttemptFacts, challenge: AttemptChallenge)
    requires
        may_be_judged(facts, challenge),
    ensures
        facts.comparison is None ==> facts.next() is Read && facts.next()->Read_0 is Comparison,
        facts.comparison is Some && facts.has_solved is None ==> facts.next() is Read
            && facts.next()->Read_0 is HasSolved,
        facts.comparison is Some && facts.has_solved is Some ==> comes_to_a_verdict(
            facts,
            challenge,
        ),
        facts.comparison is Some && facts.has_solved == Some(false)
            && facts.comparison->Some_0.outcome == FlagResult::Correct ==> (
        facts.next() matches AttemptStep::Reply { record: Some(record), reply } && record.solve
            && reply == AttemptReply::Correct),
{
    law_attempts_pass_the_gates(facts);
}

/// Only a player who may be judged is judged.
pub proof fn law_only_the_admitted_are_judged(facts: AttemptFacts, challenge: AttemptChallenge)
    requires
        comes_to_a_verdict(facts, challenge),
    ensures
        may_be_judged(facts, challenge),
{
    assert(facts.user is Some);
    assert(facts.within_rate == Some(true));
    assert(!facts.is_preview());
    assert(facts.paused == Some(false));
    assert(acceptable(facts.submission@));
    assert(facts.limits is Some && facts.team_mode is Some);
    assert(facts.team_mode == Some(true) ==> facts.membership is Some && facts.membership->Some_0
        is Some);
    assert(playable(text_of(challenge.challenge_type)));
    assert(challenge.challenge_type is Some);
    assert(challenge.state@ != "hidden"@ && challenge.state@ != "locked"@);
    assert(facts.solved is Some && requirements_hold(
        challenge.requirements,
        facts.solved->Some_0@,
    ));
    assert(facts.flag_count is Some && facts.flag_count->Some_0 > 0);
    assert(facts.now is Some && facts.recent is Some);
    assert(facts.recent->Some_0.count < facts.limits->Some_0.incorrect_per_minute);
    assert(challenge.max_attempts is Some && challenge.max_attempts->Some_0 > 0 ==> facts.failures
        is Some && facts.failures->Some_0 < challenge.max_attempts->Some_0);
    law_attempts_pass_the_gates(facts);
}

/// A player who has used up the tries is turned away: for good where the tries lock, and for the
/// rest of the timeout where there is one, which is then recorded. One who fails too often within
/// the minute waits for the rest of it.
pub proof fn law_the_turned_away_are_told_why(facts: AttemptFacts)
    requires
        facts.next() is Reply,
    ensures
        facts.next() matches AttemptStep::Reply { record, reply } && {
            &&& record is Some ==> (record->Some_0.kind == SubmissionType::RateLimited <==> (
            reply is WaitForTimeout || reply is WaitForMinute))
            &&& reply is WaitForTimeout || reply is WaitForMinute ==> !record->Some_0.solve
                && record->Some_0.shared is None
            &&& record is Some ==> record->Some_0.account_team == (if facts.team_mode == Some(true) {
                facts.membership->Some_0
            } else {
                None
            })
            &&& reply is WaitForTimeout || reply is WaitForMinute ==> record is Some
            &&& reply is AuthenticationRequired || reply is RateLimited || reply is Paused
                || reply is NoTriesLeft ==> record is None
            &&& reply is AuthenticationRequired <==> facts.user is None
            &&& reply is RateLimited <==> facts.user is Some && facts.within_rate == Some(false)
            &&& reply is NoTriesLeft || reply is WaitForTimeout ==> (
            facts.challenge matches Some(Some(challenge)) && challenge.max_attempts is Some && 0
                < challenge.max_attempts->Some_0 <= facts.failures->Some_0)
            &&& reply is WaitForTimeout <==> (reply is WaitForTimeout || reply is NoTriesLeft)
                && text_of(facts.limits->Some_0.max_behavior) == Some("timeout"@)
            &&& reply is WaitForMinute ==> facts.recent->Some_0.count
                >= facts.limits->Some_0.incorrect_per_minute && reply->WaitForMinute_seconds
                == remaining(facts.recent->Some_0.oldest, facts.now->Some_0, 60) as i64
            &&& reply is WaitForTimeout ==> reply->WaitForTimeout_seconds == remaining(
                facts.oldest_failure->Some_0,
                facts.now->Some_0,
                facts.limits->Some_0.max_timeout,
            ) as i64
        },
{
}

/// A player at an open challenge who has used up its tries is told so, and waits where there is a
/// timeout; one who has not, and fails too often within the minute, waits for the rest of it.
pub proof fn law_limits_are_answered(
    facts: AttemptFacts,
    challenge: AttemptChallenge,
    limits: AttemptLimits,
)
    requires
        may_be_judged(
            AttemptFacts {
                recent: Some(RecentFailures { count: 0, oldest: None }),
                failures: Some(0),
                limits: Some(AttemptLimits { incorrect_per_minute: 1, ..limits }),
                ..facts
            },
            challenge,
        ),
        facts.limits == Some(limits),
        facts.recent is Some,
        facts.failures is Some,
        facts.oldest_failure is Some,
    ensures
        ({
            let used_up = challenge.max_attempts is Some && 0 < challenge.max_attempts->Some_0
                <= facts.failures->Some_0;
            let waits = limits.max_behavior is Some && limits.max_behavior->Some_0@ == "timeout"@;
            let hasty = facts.recent->Some_0.count >= limits.incorrect_per_minute;
            let step = facts.next();
            &&& used_up && !waits ==> step == (AttemptStep::Reply {
                record: None,
                reply: AttemptReply::NoTriesLeft,
            })
            &&& used_up && waits ==> step is Reply && step->reply is WaitForTimeout
                && step->record is Some
            &&& !used_up && hasty ==> step is Reply && step->reply is WaitForMinute && step->record
                is Some
            &&& !used_up && !hasty ==> may_be_judged(facts, challenge)
        }),
{
    law_attempts_pass_the_gates(facts);
}

/// A preview of an administrator is answered by the comparison alone, one to one.
pub proof fn law_previews_follow_the_comparison(facts: AttemptFacts)
    requires
        facts.is_preview(),
        facts.next() is Reply,
        facts.within_rate == Some(true),
    ensures
        facts.comparison is Some,
        facts.next() == (AttemptStep::Reply {
            record: None,
            reply: match facts.comparison->Some_0.outcome {
                FlagResult::Correct => AttemptReply::Correct,
                FlagResult::Partial => AttemptReply::Partial { whole_team: false },
                FlagResult::Incorrect => AttemptReply::Incorrect,
            },
        }),
{
}

/// Failed tries count from the start of the timeout, or from ever where the tries lock.
pub open spec fn counted_from(facts: AttemptFacts, since: Option<Moment>) -> bool {
    if text_of(facts.limits->Some_0.max_behavior) == Some("timeout"@) {
        since is Some && since->Some_0.seconds == facts.now->Some_0.seconds
            - facts.limits->Some_0.max_timeout && since->Some_0.nanos == facts.now->Some_0.nanos
    } else {
        since is None
    }
}

/// The account that is read for, and locked, is the player, or in team mode the player's team.
pub proof fn law_attempts_count_for_the_account(facts: AttemptFacts)
    requires
        facts.user is Some,
        facts.next() is Read,
        facts.ok(),
    ensures
        ({
            let user = facts.user->Some_0;
            let account = if facts.team_mode == Some(true) {
                Account::Team(facts.membership->Some_0->Some_0)
            } else {
                Account::User(user.id)
            };
            match facts.next()->Read_0 {
                AttemptRead::RateLimit { user_id, limit, seconds } => user_id == user.id && limit
                    == 10 && seconds == 5,
                AttemptRead::Membership { user_id } => user_id == user.id,
                AttemptRead::Challenge { account: found, challenge_id, lock } => found == account
                    && challenge_id == facts.challenge_id && lock == lock_key_of(
                    match account {
                        Account::User(id) => id,
                        Account::Team(id) => id,
                    },
                    challenge_id,
                ),
                AttemptRead::Solved { account: found } => found == account,
                AttemptRead::Recent { account: found, minute_ago } => found == account
                    && minute_ago.seconds == facts.now->Some_0.seconds - 60 && minute_ago.nanos
                    == facts.now->Some_0.nanos,
                AttemptRead::Failures { account: found, since } => found == account && counted_from(
                    facts,
                    since,
                ),
                AttemptRead::OldestFailure { account: found, since } => found == account
                    && counted_from(facts, since),
                AttemptRead::Comparison { account: found } => found == account,
                AttemptRead::HasSolved { account: found } => found == account,
                _ => true,
            }
        }),
{
}

/// An attempt fails for the reason that it is told, and for no other: a submission that cannot be
/// compared, a player without a team in team mode, a challenge that is missing, of another type,
/// hidden, locked, or without flags, and prerequisites that have not been solved. What is hidden or
/// locked, or asks for something first, is open to an administrator's preview.
pub proof fn law_attempts_fail_for_a_reason(facts: AttemptFacts)
    requires
        facts.gates is Some,
        gate(visitor_of(facts.user), facts.gates->Some_0) is Ok,
        facts.next() is Fail,
    ensures
        facts.user is Some && facts.within_rate == Some(true),
        ({
            let cause = facts.next()->Fail_0;
            let preview = facts.user->Some_0.admin() && facts.preview_requested;
            let found = facts.challenge is Some && facts.challenge->Some_0 is Some;
            let challenge = facts.challenge->Some_0->Some_0;
            &&& cause == AttemptFailure::BadSubmission <==> !acceptable(facts.submission@)
            &&& cause == AttemptFailure::NoTeam ==> facts.team_mode == Some(true)
                && facts.membership == Some(None::<i32>)
            &&& cause == AttemptFailure::ChallengeNotFound ==> facts.challenge == Some(
                None::<AttemptChallenge>,
            ) || (found && !preview && challenge.state@ == "hidden"@)
            &&& cause == AttemptFailure::UnsupportedType ==> found && text_of(
                challenge.challenge_type,
            ) != Some("standard"@) && text_of(challenge.challenge_type) != Some("dynamic"@)
            &&& cause == AttemptFailure::ChallengeLocked ==> found && !preview && challenge.state@
                == "locked"@
            &&& cause == AttemptFailure::PrerequisitesMissing ==> found && !preview
                && !requirements_hold(challenge.requirements, facts.solved->Some_0@)
            &&& cause == AttemptFailure::NoFlags ==> facts.flag_count == Some(0usize)
            &&& cause == AttemptFailure::BadSubmission || cause == AttemptFailure::NoTeam || cause
                == AttemptFailure::ChallengeNotFound || cause == AttemptFailure::UnsupportedType
                || cause == AttemptFailure::ChallengeLocked || cause
                == AttemptFailure::PrerequisitesMissing || cause == AttemptFailure::NoFlags
        }),
{
    law_attempts_pass_the_gates(facts);
}

/// Whoever is shown the challenges, within the time of the event or as an administrator, and with a
/// verified address where that is asked for, passes the gates, and nobody else does.
pub proof fn law_the_gates_open(user: Option<&CurrentUser>, gates: AttemptGates)
    ensures
        gate(user, gates) is Ok <==> {
            &&& challenges_shown(user, text_of(gates.challenge_visibility))
            &&& is_admin_visitor(user) || time_gate(
                gates.now,
                text_of(gates.start),
                text_of(gates.end),
                None,
            ) is Ok
            &&& switch_value(text_of(gates.verify_emails), false) ==> !unverified(user)
        },
{
}

/// A verdict is answered as a success under its own word, the one that it is recorded under; whoever
/// has to wait is told so, and for how long.
pub proof fn law_replies_are_told(reply: AttemptReply, name: Option<Seq<char>>)
    ensures
        ({
            let (code, word, message) = response_of(reply, name);
            &&& code == 200 <==> reply is Correct || reply is Partial || reply is Incorrect || reply
                is AlreadySolved
            &&& code == 429 <==> reply is RateLimited || reply is WaitForTimeout || reply
                is WaitForMinute
            &&& code == 403 <==> reply is AuthenticationRequired || reply is Paused || reply
                is NoTriesLeft
            &&& reply is Correct ==> word == type_word(SubmissionType::Correct) && word
                == "correct"@
            &&& reply is Partial ==> word == type_word(SubmissionType::Partial) && word
                == "partial"@
            &&& reply is Incorrect ==> word == type_word(SubmissionType::Incorrect) && word
                == "incorrect"@
            &&& reply is AlreadySolved ==> word == "already_solved"@
            &&& reply is WaitForTimeout || reply is WaitForMinute || reply is RateLimited || reply
                is NoTriesLeft ==> word == type_word(SubmissionType::RateLimited)
            &&& reply matches AttemptReply::WaitForTimeout { seconds } ==> message == Some(
                "Not accepted. Try again in "@ + integer_text(seconds as int) + " seconds"@,
            )
            &&& reply matches AttemptReply::WaitForMinute { seconds } ==> message == Some(
                "You're submitting flags too fast. Try again in "@ + integer_text(seconds as int)
                    + " seconds."@,
            )
            &&& reply is Paused ==> message == Some(
                (if name is Some {
                    name->Some_0
                } else {
                    "CTFZone"@
                }) + " is paused"@,
            )
            &&& reply matches AttemptReply::Partial { whole_team } ==> message == Some(
                if whole_team {
                    "Correct but all team members must submit a flag"@
                } else {
                    "Correct but more flags are required"@
                },
            )
        }),
{
}

/// Each type of submission is stored under a word of its own.
pub proof fn law_type_words_differ(kind: SubmissionType, other: SubmissionType)
    requires
        type_word(kind) == type_word(other),
    ensures
        kind == other,
{
    reveal_strlit("ratelimited");
    reveal_strlit("discard");
    reveal_strlit("correct");
    reveal_strlit("partial");
    reveal_strlit("incorrect");
    assert("ratelimited"@.len() == 11 && "discard"@.len() == 7 && "correct"@.len() == 7
        && "partial"@.len() == 7 && "incorrect"@.len() == 9);
    assert("discard"@[0] == 'd' && "correct"@[0] == 'c' && "partial"@[0] == 'p');
}

/// What is missing or closed is answered as that: a request that cannot be used, one that is not
/// allowed, a challenge that is not there, and one that is broken.
pub proof fn law_attempt_failures_are_told(cause: AttemptFailure)
    ensures
        ({
            let code = failure_of(cause).0.code();
            &&& code == 400 <==> cause == AttemptFailure::StartUnreadable || cause
                == AttemptFailure::EndUnreadable || cause == AttemptFailure::BadSubmission || cause
                == AttemptFailure::UnsupportedType
            &&& code == 404 <==> cause == AttemptFailure::ChallengeNotFound
            &&& code == 502 <==> cause == AttemptFailure::NoFlags
            &&& code == 403 <==> !(code == 400 || code == 404 || code == 502)
            &&& cause == AttemptFailure::ChallengeLocked ==> failure_of(cause).1
                == "Challenge is locked"@
            &&& cause == AttemptFailure::PrerequisitesMissing ==> failure_of(cause).1
                == "Challenge prerequisites are not satisfied"@
            &&& cause == AttemptFailure::NoTeam ==> failure_of(cause).1
                == "Join a team before submitting flags"@
        }),
{
}

} // verus!
