use std::collections::{HashMap, HashSet};

use ctfzone_api::access::{
    challenge_access_context, challenge_row_access, ctf_time_access, is_team_mode,
    require_challenge_visibility, require_ctf_time, require_submission_time,
    require_unanonymized_access, require_verified,
    requirements_met, scores_and_accounts_visible, team_membership_missing, verification_missing,
    visibility_value, ChallengeRowAccess, CtfTimeAccess,
};
use ctfzone_api::account_events::{
    awards_response, require_public_account_access, require_score_visibility,
    require_self_submissions, require_team, require_team_mode, serialize_submission,
    submissions_response, SubmissionKind, SubmissionRow,
};
use ctfzone_api::attempt::{
    accepted_submission, attempt, attempt_error, attempt_response, is_playable, lock_key,
    submission_type, Account, AttemptChallenge, AttemptFacts, AttemptFailure, AttemptGates,
    AttemptLimits, AttemptRead, AttemptReply, AttemptStep, RecentFailures, SubmissionType,
};
use ctfzone_api::auth::{Credential, CurrentUser};
use ctfzone_api::authoring::{
    create, create_step, delete_challenge, update, update_fields, ChallengeDetail, CreateStep,
    Texts, UpdateFacts, UpdateRead, UpdateStep,
};
use ctfzone_api::challenge_view::{
    admin_view, challenge_read_json, ctf_ended, detail_data, hidden_card, list_conditions,
    list_data, playing_account, rating_access, require_list_membership, reveal_hints,
    solution_link, tags_for_challenge, Bound, ChallengeListQuery, ChallengeListRow, DetailFacts,
    DetailView, Entry, Hint,
};
use ctfzone_api::comparison::{ComparisonResult, FlagResult};
use ctfzone_api::content::{
    challenge_ratings, challenge_solution, challenge_solves, create_notification, create_solution,
    delete_by_id, get_hint, get_notification, get_solution, notification_manner,
    notification_visible, rate_challenge, type_or_standard, unlock, update_hint, update_solution, validate_hint, validate_solution_state, AskedSolution,
    HintOffer, RateFacts, RateStep, SolutionStep, UnlockFacts, UnlockRead, UnlockStep,
};
use ctfzone_api::error::ErrorKind;
use ctfzone_api::fields::{
    optional_i32, optional_string, optional_text, private_gate_enable_requested, required_string,
    validate_max_attempts, validate_requirements, Fields,
};
use ctfzone_api::json::{Json, Number};
use ctfzone_api::moment::{seconds_remaining, Moment};
use ctfzone_api::scoring::{at_least, is_dynamic, recalculated_value, Scoring, ValueChange};

fn converted(value: &serde_json::Value) -> Json {
    match value {
        serde_json::Value::Null => Json::Null,
        serde_json::Value::Bool(flag) => Json::Bool(*flag),
        serde_json::Value::Number(number) => Json::Number(Number {
            text: number.to_string(),
            integer: number.as_i64(),
        }),
        serde_json::Value::String(text) => Json::Text(text.clone()),
        serde_json::Value::Array(items) => Json::Array(items.iter().map(converted).collect()),
        serde_json::Value::Object(fields) => Json::Object(
            fields
                .iter()
                .map(|(key, value)| (key.clone(), converted(value)))
                .collect(),
        ),
    }
}

fn json(text: &str) -> Json {
    converted(&serde_json::from_str(text).unwrap())
}

fn user(user_type: &str, team_id: Option<i32>) -> CurrentUser {
    CurrentUser {
        id: 7,
        name: Some("ada".to_owned()),
        email: Some("ada@example.org".to_owned()),
        user_type: user_type.to_owned(),
        team_id,
        verified: true,
        credential: Credential::ApiToken { token_id: 1, label: "cli".to_owned() },
        request_ip: "10.0.0.1".to_owned(),
        ip_changed: false,
    }
}

fn object(text: &str) -> Fields {
    match json(text) {
        Json::Object(fields) => fields,
        _ => panic!("an object"),
    }
}

#[test]
fn what_is_not_asked_for_is_standard() {
    assert_eq!(type_or_standard(None), "standard");
    assert_eq!(type_or_standard(Some("bonus".to_owned())), "bonus");
    assert_eq!(notification_manner(None, None), ("alert".to_owned(), true));
    assert_eq!(
        notification_manner(Some("toast".to_owned()), Some(false)),
        ("toast".to_owned(), false)
    );
}

#[test]
fn checks_prerequisites() {
    let requirements = json(r#"{"prerequisites": [1, 3]}"#);
    assert!(requirements_met(
        Some(&requirements),
        &HashSet::from([1, 2, 3])
    ));
    assert!(!requirements_met(Some(&requirements), &HashSet::from([1])));
}

#[test]
fn full_access_rejects_hidden_locked_and_unsatisfied_challenges() {
    let solved = HashSet::from([1]);
    assert_eq!(
        challenge_row_access("hidden", None, false, &solved),
        ChallengeRowAccess::NotFound
    );
    assert_eq!(
        challenge_row_access("locked", None, false, &solved),
        ChallengeRowAccess::NotFound
    );
    let plain = json(r#"{"prerequisites": [2]}"#);
    assert_eq!(
        challenge_row_access("visible", Some(&plain), false, &solved),
        ChallengeRowAccess::PrerequisitesDenied
    );
    let preview = json(r#"{"prerequisites": [2], "anonymize": "preview"}"#);
    assert_eq!(
        challenge_row_access("visible", Some(&preview), false, &solved),
        ChallengeRowAccess::HiddenPreview(true)
    );
    assert_eq!(
        challenge_row_access("visible", Some(&preview), true, &solved),
        ChallengeRowAccess::Full
    );
}

#[test]
fn full_access_rejects_unverified_teamless_and_prestart_users() {
    assert!(verification_missing(true, Some((false, false))));
    assert!(!verification_missing(true, Some((true, false))));
    assert!(!verification_missing(false, Some((false, false))));
    assert!(team_membership_missing(true, Some((false, None))));
    assert!(!team_membership_missing(true, Some((true, None))));
    assert!(!team_membership_missing(false, Some((false, None))));
    assert_eq!(
        ctf_time_access(100, 101, 0, false),
        CtfTimeAccess::NotStarted
    );
    assert_eq!(ctf_time_access(100, 0, 99, false), CtfTimeAccess::Ended);
    assert_eq!(ctf_time_access(100, 0, 99, true), CtfTimeAccess::Allowed);
}

#[test]
fn private_gate_enable_request_is_boolean_and_private_jeopardy_only() {
    let enabled = object(r#"{"enable_global_gate": true}"#);
    let disabled = object(r#"{"enable_global_gate": false}"#);
    let missing = object("{}");
    let invalid = object(r#"{"enable_global_gate": "true"}"#);

    assert!(matches!(
        private_gate_enable_requested(&enabled, "jeopardy", "private"),
        Ok(true)
    ));
    assert!(matches!(
        private_gate_enable_requested(&disabled, "jeopardy", "private"),
        Ok(false)
    ));
    assert!(matches!(
        private_gate_enable_requested(&missing, "jeopardy", "private"),
        Ok(false)
    ));
    assert!(private_gate_enable_requested(&invalid, "jeopardy", "private").is_err());
    assert!(private_gate_enable_requested(&enabled, "jeopardy", "public").is_err());
    assert!(private_gate_enable_requested(&enabled, "attack_defense", "private").is_err());
}

#[test]
fn max_attempts_uses_zero_as_unlimited_and_rejects_negative_values() {
    assert_eq!(validate_max_attempts(0).expect("zero is unlimited"), 0);
    assert_eq!(validate_max_attempts(1).expect("positive limit"), 1);
    assert!(validate_max_attempts(-1).is_err());
}

#[test]
fn optional_authoring_text_is_typed_bounded_and_allows_multiline_commands() {
    let valid = object(
        r##"{
            "connection_info": "nc challenge.example 31337\n# or open the link in the description",
            "attribution": "Alice, **Bob**"
        }"##,
    );
    assert_eq!(
        optional_text(&valid, "connection_info", 4_096)
            .unwrap()
            .as_deref(),
        Some("nc challenge.example 31337\n# or open the link in the description")
    );
    assert_eq!(
        optional_text(&valid, "attribution", 2_048)
            .unwrap()
            .as_deref(),
        Some("Alice, **Bob**")
    );

    assert!(optional_text(&object(r#"{"value": 7}"#), "value", 8).is_err());
    assert!(optional_text(&object(r#"{"value": "bad\u0000"}"#), "value", 8).is_err());
    assert!(optional_text(&object(r#"{"value": "123456789"}"#), "value", 8).is_err());
    assert_eq!(
        optional_text(&object(r#"{"value": "  "}"#), "value", 8).unwrap(),
        None
    );
}

#[test]
fn fields_are_read_by_type() {
    let fields = object(r#"{"name": "x", "count": 4, "big": 4294967296, "word": "y"}"#);
    assert_eq!(required_string(&fields, "name", 8).unwrap(), "x");
    assert!(required_string(&fields, "missing", 8).is_err());
    assert_eq!(optional_i32(&fields, "count").unwrap(), Some(4));
    assert!(optional_i32(&fields, "big").is_err());
    assert_eq!(optional_string(&fields, "word").as_deref(), Some("y"));
    assert!(validate_requirements(Some(&json("{}"))).is_ok());
    assert!(validate_requirements(Some(&json("7"))).is_err());
}

#[test]
fn visibility_depends_on_the_visitor() {
    let player = user("user", None);
    let admin = user("admin", None);
    assert!(require_challenge_visibility(None, Some("public")).is_ok());
    assert_eq!(
        require_challenge_visibility(None, Some("private")).unwrap_err().kind,
        ErrorKind::Forbidden
    );
    assert!(require_challenge_visibility(Some(&player), Some("private")).is_ok());
    assert!(require_challenge_visibility(Some(&player), Some("admins")).is_err());
    assert!(require_challenge_visibility(Some(&admin), Some("admins")).is_ok());
    assert!(visibility_value(None, Some("public")));
    assert!(!visibility_value(None, Some("private")));
    assert!(scores_and_accounts_visible(None, Some("public"), Some("public")));
    assert!(!scores_and_accounts_visible(None, Some("public"), Some("private")));
    assert!(is_team_mode(Some("teams")) && !is_team_mode(Some("users")) && !is_team_mode(None));
    assert!(require_ctf_time(None, 100, Some("50"), None, None).is_ok());
    assert!(require_ctf_time(None, 100, Some("150"), None, None).is_err());
    assert!(require_ctf_time(None, 100, None, Some("50"), None).is_err());
    assert!(require_ctf_time(Some(&admin), 100, Some("150"), None, None).is_ok());
    assert!(require_verified(Some(&player), Some("true")).is_ok());
}

#[test]
fn access_is_anonymous_until_it_is_earned() {
    let player = user("user", None);
    let hidden = json(r#"{"prerequisites": [2], "anonymize": true}"#);
    let found = |solved: &HashSet<i32>| {
        challenge_access_context(
            Some(&player),
            false,
            None,
            Some(("visible", Some(&hidden))),
            solved,
        )
        .unwrap()
    };
    assert_eq!(found(&HashSet::new()), Some(false));
    assert_eq!(found(&HashSet::from([2])), None);
    assert!(require_unanonymized_access(None).is_ok());
    assert!(require_unanonymized_access(Some(true)).is_err());
    assert_eq!(
        challenge_access_context(Some(&player), false, None, None, &HashSet::new())
            .unwrap_err()
            .kind,
        ErrorKind::NotFound
    );
}

fn open_gates() -> AttemptGates {
    AttemptGates {
        challenge_visibility: Some("public".to_owned()),
        now: 1_000_000,
        start: Some("999000".to_owned()),
        end: Some("1001000".to_owned()),
        verify_emails: Some("false".to_owned()),
    }
}

fn attempt_facts() -> AttemptFacts {
    AttemptFacts {
        user: Some(user("user", None)),
        preview_requested: false,
        challenge_id: 4,
        submission: "flag{x}".to_owned(),
        gates: Some(open_gates()),
        within_rate: Some(true),
        paused: Some(false),
        limits: Some(AttemptLimits {
            incorrect_per_minute: 10,
            max_behavior: None,
            max_timeout: 0,
        }),
        team_mode: Some(false),
        membership: None,
        challenge: Some(Some(AttemptChallenge {
            id: 4,
            challenge_type: Some("standard".to_owned()),
            state: "visible".to_owned(),
            logic: "any".to_owned(),
            max_attempts: Some(3),
            requirements: None,
        })),
        solved: Some(HashSet::new()),
        flag_count: Some(1),
        now: Some(Moment { seconds: 1_000_000, nanos: 0 }),
        recent: Some(RecentFailures { count: 0, oldest: None }),
        failures: Some(0),
        oldest_failure: Some(None),
        comparison: Some(ComparisonResult { outcome: FlagResult::Correct, shared: None }),
        has_solved: Some(false),
    }
}

fn gate_error(facts: &AttemptFacts) -> (ErrorKind, String) {
    match attempt(facts) {
        AttemptStep::Fail(failure) => {
            let error = attempt_error(failure);
            (error.kind, error.message)
        }
        _ => panic!("the attempt fails"),
    }
}

#[test]
fn submissions_are_taken_while_the_event_runs() {
    let player = user("user", None);
    let view_after = Some("true");
    assert!(require_ctf_time(Some(&player), 3000, Some("1000"), Some("2000"), view_after).is_ok());
    let late = require_submission_time(Some(&player), 3000, Some("1000"), Some("2000"));
    assert_eq!(late.unwrap_err().message, "CTFZone has ended");
    let early = require_submission_time(Some(&player), 500, Some("1000"), Some("2000"));
    assert_eq!(early.unwrap_err().message, "CTFZone has not started yet");
    assert!(require_submission_time(Some(&player), 1500, Some("1000"), Some("2000")).is_ok());
    let admin = user("admin", None);
    assert!(require_submission_time(Some(&admin), 3000, Some("1000"), Some("2000")).is_ok());
}

#[test]
fn attempts_pass_the_gates_first() {
    let mut facts = attempt_facts();
    facts.gates = None;
    assert!(matches!(attempt(&facts), AttemptStep::Read(AttemptRead::Gates)));

    let mut gates = open_gates();
    gates.now = 1_001_000;
    facts.gates = Some(gates);
    assert_eq!(gate_error(&facts), (ErrorKind::Forbidden, "CTFZone has ended".to_owned()));
    facts.user = Some(user("admin", None));
    assert!(matches!(attempt(&facts), AttemptStep::Reply { record: Some(_), .. }));

    let mut facts = attempt_facts();
    let mut gates = open_gates();
    gates.now = 999_000;
    facts.gates = Some(gates);
    assert_eq!(
        gate_error(&facts),
        (ErrorKind::Forbidden, "CTFZone has not started yet".to_owned())
    );

    let mut gates = open_gates();
    gates.start = Some("soon".to_owned());
    facts.gates = Some(gates);
    assert_eq!(
        gate_error(&facts),
        (ErrorKind::BadRequest, "Configuration start must be an integer".to_owned())
    );

    let mut gates = open_gates();
    gates.end = Some("late".to_owned());
    facts.gates = Some(gates);
    assert_eq!(
        gate_error(&facts),
        (ErrorKind::BadRequest, "Configuration end must be an integer".to_owned())
    );

    let mut gates = open_gates();
    gates.challenge_visibility = Some("admins".to_owned());
    facts.gates = Some(gates);
    assert_eq!(
        gate_error(&facts),
        (ErrorKind::Forbidden, "Challenges are not available".to_owned())
    );

    let mut gates = open_gates();
    gates.verify_emails = Some("true".to_owned());
    facts.gates = Some(gates);
    let mut unverified = user("user", None);
    unverified.verified = false;
    facts.user = Some(unverified);
    assert_eq!(
        gate_error(&facts),
        (ErrorKind::Forbidden, "Verify your email before viewing challenges".to_owned())
    );
}

#[test]
fn correct_attempts_are_solves() {
    let facts = attempt_facts();
    match attempt(&facts) {
        AttemptStep::Reply { record: Some(record), reply } => {
            assert!(record.solve);
            assert!(matches!(record.kind, SubmissionType::Correct));
            assert!(matches!(reply, AttemptReply::Correct));
        }
        _ => panic!("the attempt is recorded"),
    }
    let mut again = attempt_facts();
    again.has_solved = Some(true);
    assert!(matches!(
        attempt(&again),
        AttemptStep::Reply { reply: AttemptReply::AlreadySolved, .. }
    ));
    let mut wrong = attempt_facts();
    wrong.comparison = Some(ComparisonResult { outcome: FlagResult::Incorrect, shared: None });
    match attempt(&wrong) {
        AttemptStep::Reply { record: Some(record), reply: AttemptReply::Incorrect } => {
            assert!(!record.solve);
        }
        _ => panic!("the attempt is recorded"),
    }
}

#[test]
fn attempts_are_limited() {
    let mut facts = attempt_facts();
    facts.failures = Some(3);
    assert!(matches!(
        attempt(&facts),
        AttemptStep::Reply { reply: AttemptReply::NoTriesLeft, .. }
    ));
    let mut facts = attempt_facts();
    facts.recent = Some(RecentFailures {
        count: 11,
        oldest: Some(Moment { seconds: 999_990, nanos: 0 }),
    });
    assert!(matches!(
        attempt(&facts),
        AttemptStep::Reply { reply: AttemptReply::WaitForMinute { seconds: 50 }, .. }
    ));
    let mut facts = attempt_facts();
    facts.within_rate = Some(false);
    assert!(matches!(
        attempt(&facts),
        AttemptStep::Reply { record: None, reply: AttemptReply::RateLimited }
    ));
    let mut facts = attempt_facts();
    facts.paused = Some(true);
    assert!(matches!(
        attempt(&facts),
        AttemptStep::Reply { record: None, reply: AttemptReply::Paused }
    ));
}

#[test]
fn attempts_fail_where_the_challenge_is_closed() {
    let mut facts = attempt_facts();
    facts.user = None;
    assert!(matches!(
        attempt(&facts),
        AttemptStep::Reply { reply: AttemptReply::AuthenticationRequired, .. }
    ));
    let mut facts = attempt_facts();
    facts.challenge = Some(None);
    assert!(matches!(attempt(&facts), AttemptStep::Fail(AttemptFailure::ChallengeNotFound)));
    let mut facts = attempt_facts();
    facts.flag_count = Some(0);
    assert!(matches!(attempt(&facts), AttemptStep::Fail(AttemptFailure::NoFlags)));
    let mut facts = attempt_facts();
    facts.team_mode = Some(true);
    assert!(matches!(
        attempt(&facts),
        AttemptStep::Read(AttemptRead::Membership { user_id: 7 })
    ));
    facts.membership = Some(None);
    assert!(matches!(attempt(&facts), AttemptStep::Fail(AttemptFailure::NoTeam)));
    let mut facts = attempt_facts();
    facts.submission = String::new();
    assert!(matches!(attempt(&facts), AttemptStep::Fail(AttemptFailure::BadSubmission)));
    let mut preview = attempt_facts();
    preview.user = Some(user("admin", None));
    preview.preview_requested = true;
    assert!(matches!(
        attempt(&preview),
        AttemptStep::Reply { record: None, reply: AttemptReply::Correct }
    ));
}

#[test]
fn attempts_are_answered_in_words() {
    assert_eq!(attempt_error(AttemptFailure::ChallengeNotFound).kind, ErrorKind::NotFound);
    let paused = attempt_response(AttemptReply::Paused, Some("Finals"));
    assert_eq!((paused.code, paused.status.as_str()), (403, "paused"));
    assert_eq!(paused.message.as_deref(), Some("Finals is paused"));
    let waiting = attempt_response(AttemptReply::WaitForTimeout { seconds: 12 }, None);
    assert_eq!(
        waiting.message.as_deref(),
        Some("Not accepted. Try again in 12 seconds")
    );
    assert_eq!(submission_type(SubmissionType::Partial), "partial");
    assert!(accepted_submission(" ").is_none());
    assert!(is_playable(&Some("dynamic".to_owned())) && !is_playable(&None));
    assert_eq!(lock_key(Account::User(1), 2), (1i64 << 32) + 2);
    assert_ne!(lock_key(Account::User(1), 2), lock_key(Account::User(2), 1));
    assert_eq!(Account::Team(9).id(), 9);
    let now = Moment { seconds: 100, nanos: 0 };
    let oldest = Moment { seconds: 70, nanos: 0 };
    assert_eq!(seconds_remaining(Some(oldest), now, 60), 30);
}

fn detail() -> ChallengeDetail {
    ChallengeDetail {
        id: 1,
        name: Some("test".to_owned()),
        texts: Texts { description: None, attribution: None, connection_info: None },
        next_id: None,
        max_attempts: None,
        value: Some(100),
        category: Some("test".to_owned()),
        category_id: 1,
        challenge_kind: "jeopardy".to_owned(),
        exposure: "public".to_owned(),
        challenge_type: Some("standard".to_owned()),
        state: "visible".to_owned(),
        logic: "any".to_owned(),
        initial: None,
        minimum: None,
        decay: None,
        position: 0,
        function: Some("static".to_owned()),
        requirements: None,
    }
}

const NEW_CHALLENGE: &str = r#"{
    "name": "Warmup",
    "category_id": 3,
    "challenge_type": "jeopardy",
    "exposure": "public",
    "value": 100,
    "flag": {"type": "static", "content": "flag{x}"}
}"#;

#[test]
fn challenges_are_written() {
    let admin = user("admin", None);
    let payload = json(NEW_CHALLENGE);
    let challenge = create(&admin, &payload, None).unwrap_or_else(|error| panic!("{error:?}"));
    assert_eq!(challenge.heading.name, "Warmup");
    assert_eq!(challenge.heading.category_id, 3);
    assert_eq!(challenge.scoring.value, 100);
    assert_eq!(challenge.flag.content, "flag{x}");
    assert!(!challenge.dynamic);
    assert!(matches!(
        create_step(&object(NEW_CHALLENGE), &challenge, None, None),
        Ok(CreateStep::ReadCategory { category_id: 3 })
    ));
    assert!(create_step(&object(NEW_CHALLENGE), &challenge, Some(false), None).is_err());
    assert!(create(&user("user", None), &payload, None).is_err());
    assert!(create(&admin, &json("[]"), None).is_err());
    assert!(create(&admin, &json(r#"{"name": "x"}"#), None).is_err());
}

#[test]
fn challenges_are_changed_field_by_field() {
    let admin = user("admin", None);
    let payload = json(r#"{"name": "Renamed", "state": "hidden"}"#);
    let fields = update_fields(&admin, &payload).ok().unwrap();
    let mut facts = UpdateFacts {
        category_exists: Some(true),
        active_instances: Some(false),
        managed_runtime: Some(false),
        generated_flag: Some(false),
        gate_prepared: true,
        launchable: Some(true),
    };
    match update(fields, &detail(), &facts) {
        Ok(UpdateStep::Save(change)) => {
            assert_eq!(change.name, "Renamed");
            assert_eq!(change.display.state, "hidden");
            assert_eq!(change.scoring.value, 100);
            assert_eq!(change.category_id, 1);
        }
        Ok(UpdateStep::Read(_)) => panic!("nothing is left to read"),
        Err(error) => panic!("{error:?}"),
    }
    facts.category_exists = None;
    let moved = json(r#"{"category_id": 9}"#);
    assert!(matches!(
        update(update_fields(&admin, &moved).ok().unwrap(), &detail(), &facts),
        Ok(UpdateStep::Read(UpdateRead::Category { category_id: 9 }))
    ));
    assert!(update_fields(&admin, &json("7")).is_err());
    assert!(delete_challenge(&admin, true, false, false).is_ok());
    assert_eq!(
        delete_challenge(&admin, true, true, false).unwrap_err().kind,
        ErrorKind::Conflict
    );
    assert_eq!(
        delete_challenge(&admin, true, false, true).unwrap_err().kind,
        ErrorKind::Conflict
    );
    assert_eq!(
        delete_challenge(&admin, false, false, false).unwrap_err().kind,
        ErrorKind::NotFound
    );
}

fn query() -> ChallengeListQuery {
    ChallengeListQuery {
        name: None,
        max_attempts: None,
        value: Some(100),
        category: None,
        challenge_type: None,
        state: None,
        q: Some(" web ".to_owned()),
        field: Some("category".to_owned()),
        view: Some("admin".to_owned()),
    }
}

#[test]
fn lists_are_read_under_conditions() {
    let conditions = list_conditions(&query(), false).ok().unwrap();
    assert_eq!(conditions.len(), 3);
    assert_eq!(conditions[0].sql, " AND c.state = 'visible'");
    assert!(matches!(conditions[1].bound, Bound::Integer(100)));
    assert!(matches!(&conditions[2].bound, Bound::Text(text) if text == "%web%"));
    let mut strange = query();
    strange.field = Some("flag".to_owned());
    assert!(list_conditions(&strange, true).is_err());
    assert!(admin_view(Some(&user("admin", None)), &query()));
    assert!(!admin_view(Some(&user("user", None)), &query()));
    assert!(require_list_membership(Some(&user("user", None)), true).is_err());
    assert!(require_list_membership(Some(&user("user", Some(1))), true).is_ok());
}

#[test]
fn listed_challenges_are_open_hidden_or_absent() {
    let row = |id: i32, requirements: Option<Json>| ChallengeListRow {
        id,
        name: Some("c".to_owned()),
        value: Some(10),
        category: None,
        challenge_type: Some("standard".to_owned()),
        requirements,
    };
    let rows = vec![
        row(1, None),
        row(2, Some(json(r#"{"prerequisites": [9]}"#))),
        row(3, Some(json(r#"{"prerequisites": [9], "anonymize": true}"#))),
    ];
    let counts = HashMap::from([(1, 5i64)]);
    let entries = list_data(&rows, false, &HashSet::from([1]), Some(&counts));
    assert!(matches!(entries[0], Entry::Open { solves: Some(5), solved_by_me: true }));
    assert!(matches!(entries[1], Entry::Nothing));
    assert!(matches!(entries[2], Entry::Hidden { preview: false }));
    let card = hidden_card(false, &Some("c".to_owned()), Some(10), &None);
    assert_eq!(card.name.as_deref(), Some("???"));
    let tags = tags_for_challenge(
        &vec![(1, Some("a".to_owned())), (2, Some("b".to_owned())), (1, None)],
        1,
    );
    assert_eq!(tags, vec!["a".to_owned()]);
}

#[test]
fn hints_and_solutions_are_revealed_when_earned() {
    let hints = || {
        vec![
            Hint { id: 1, content: Some("one".to_owned()), unlocked: false },
            Hint { id: 2, content: Some("two".to_owned()), unlocked: false },
        ]
    };
    let shown = reveal_hints(hints(), false, &HashSet::from([2]), false);
    assert!(shown[0].content.is_none());
    assert_eq!(shown[1].content.as_deref(), Some("two"));
    assert!(ctf_ended(100, Some("50")).unwrap());
    assert!(!ctf_ended(100, None).unwrap());
    assert_eq!(solution_link(Some((3, "solved")), true), Some(3));
    assert_eq!(solution_link(Some((3, "solved")), false), None);
    assert_eq!(rating_access(true, Some("disabled")), (false, false));
    assert!(matches!(
        playing_account(Some(&user("user", Some(5))), true),
        Some(Account::Team(5))
    ));
    assert!(playing_account(None, false).is_none());
}

#[test]
fn details_are_full_or_a_card() {
    let player = user("user", None);
    let facts = DetailFacts {
        team_mode: false,
        access: None,
        scores_visible: true,
        solve_count: 4,
        attempt_count: 2,
        solved: HashSet::from([1]),
        rating_mode: None,
        solution: None,
    };
    match detail_data(Some(&player), &detail(), &facts) {
        Ok(DetailView::Full { solves, solved_by_me, attempts, track, .. }) => {
            assert_eq!(solves, Some(4));
            assert!(solved_by_me && track);
            assert_eq!(attempts, 2);
        }
        _ => panic!("the challenge is shown"),
    }
    let hidden = DetailFacts { access: Some(false), ..facts };
    assert!(matches!(
        detail_data(Some(&player), &detail(), &hidden),
        Ok(DetailView::Hidden { .. })
    ));
    let read = challenge_read_json(&detail());
    assert_eq!(read.function, "static");
    assert_eq!(read.max_attempts, 0);
    assert!(!read.dynamic_scoring);
}

#[test]
fn ratings_need_a_solve() {
    let player = user("user", None);
    let mut facts = RateFacts { mode: None, opened: false, full_access: None, solved: None };
    assert!(matches!(rate_challenge(&player, 1, "", &facts), Ok(RateStep::ReadMode)));
    assert!(rate_challenge(&player, 2, "", &facts).is_err());
    facts.mode = Some(None);
    assert!(matches!(rate_challenge(&player, 1, "", &facts), Ok(RateStep::Open)));
    facts.opened = true;
    facts.full_access = Some(true);
    assert!(matches!(rate_challenge(&player, 1, "", &facts), Ok(RateStep::ReadSolved)));
    facts.solved = Some(false);
    assert_eq!(
        rate_challenge(&player, 1, "", &facts).err().unwrap().message,
        "You must solve this challenge before rating it"
    );
    facts.solved = Some(true);
    assert!(matches!(rate_challenge(&player, -1, "", &facts), Ok(RateStep::Insert)));
    facts.mode = Some(Some("disabled".to_owned()));
    assert!(rate_challenge(&player, 1, "", &facts).is_err());
    assert_eq!(challenge_ratings(Some(3), Some(80)), (3, 50, 100));
}

#[test]
fn unlocks_cost_points() {
    let player = user("user", None);
    let mut facts = UnlockFacts {
        team_mode: Some(false),
        existing: Some(false),
        hint: Some(Some(HintOffer {
            challenge_id: 4,
            title: Some("Look".to_owned()),
            cost: Some(20),
        })),
        score: None,
        solution_exists: None,
    };
    assert!(matches!(
        unlock(&player, "hints", 9, &facts),
        Ok(UnlockStep::Read(UnlockRead::Score { .. }))
    ));
    facts.score = Some(19);
    assert!(unlock(&player, "hints", 9, &facts).is_err());
    facts.score = Some(20);
    match unlock(&player, "hints", 9, &facts) {
        Ok(UnlockStep::Record { charge: Some(charge), cost }) => {
            assert_eq!(cost, 20);
            assert_eq!(charge.value, -20);
        }
        _ => panic!("the hint is unlocked"),
    }
    facts.existing = Some(true);
    assert_eq!(unlock(&player, "hints", 9, &facts).err().unwrap().kind, ErrorKind::Conflict);
    assert!(unlock(&player, "flags", 9, &facts).is_err());
}

#[test]
fn solutions_open_by_their_state() {
    let player = user("user", None);
    let admin = user("admin", None);
    let asked = |state: &str| AskedSolution { challenge_id: Some(4), state: state.to_owned() };
    assert_eq!(
        get_solution(&player, Some(&asked("visible")), None).unwrap(),
        SolutionStep::Show
    );
    assert!(get_solution(&player, Some(&asked("hidden")), None).is_err());
    assert_eq!(
        get_solution(&player, Some(&asked("solved")), None).unwrap(),
        SolutionStep::ReadSolved { challenge_id: 4 }
    );
    assert!(get_solution(&player, Some(&asked("solved")), Some(false)).is_err());
    assert!(get_solution(&player, Some(&asked("solved")), Some(true)).is_ok());
    assert!(get_solution(&admin, Some(&asked("hidden")), None).is_ok());
    assert!(get_solution(&admin, None, None).is_err());
    assert_eq!(create_solution(&admin, None).unwrap(), "hidden");
    assert!(create_solution(&admin, Some("open")).is_err());
    assert!(update_solution(&admin, Some("solved")).is_ok());
    assert!(validate_solution_state("open").is_err());
    assert_eq!(challenge_solution(&player, Some((2, "visible")), false).0, Some(2));
    assert_eq!(challenge_solution(&player, None, false).1, "hidden");
}

#[test]
fn hints_notifications_and_deletions_are_checked() {
    let player = user("user", Some(3));
    let admin = user("admin", None);
    assert!(validate_hint(0, None).is_ok());
    assert!(validate_hint(-1, None).is_err());
    assert!(validate_hint(1, Some(&json("[]"))).is_err());
    assert!(update_hint(&admin, None).is_ok());
    assert!(update_hint(&admin, Some(-1)).is_err());
    assert!(get_hint(Some(&admin), false, Some(5), None));
    assert!(get_hint(None, false, Some(0), Some("true")));
    assert!(!get_hint(None, false, Some(0), None));
    assert!(notification_visible(None, None, None));
    assert!(notification_visible(None, Some(3), Some(&player)));
    assert!(!notification_visible(Some(8), None, Some(&player)));
    assert!(get_notification(Some((Some(8), None)), Some(&admin)).is_ok());
    assert!(get_notification(None, Some(&admin)).is_err());
    assert!(create_notification(&admin, "Hello").is_ok());
    assert!(create_notification(&admin, " ").is_err());
    assert!(delete_by_id("hints").unwrap().contains("ctfzone.hints"));
    assert!(delete_by_id("users").is_err());
    assert_eq!(
        challenge_solves(true, true).unwrap(),
        ("s.team_id".to_owned(), "teams".to_owned())
    );
    assert!(challenge_solves(false, true).is_err());
}

#[test]
fn account_events_are_filtered() {
    let (filter, count) =
        submissions_response(Account::User(3), SubmissionKind::Fails, None, false, true, Some("50"));
    assert_eq!(filter.user_id, Some(3));
    assert_eq!(filter.kind, Some("incorrect"));
    assert_eq!(filter.before, Some(50));
    assert!(!count);
    let (filter, _) = awards_response(Account::Team(3), true, true, Some("50"));
    assert_eq!(filter.team_id, Some(3));
    let row = || SubmissionRow {
        id: 1,
        challenge_id: Some(2),
        submission_type: Some("incorrect".to_owned()),
        provided: Some("guess".to_owned()),
        ip: Some("10.0.0.1".to_owned()),
        user_id: Some(3),
        user_name: Some("ada".to_owned()),
        team_id: None,
        team_name: None,
    };
    let own = serialize_submission(row(), true, false);
    assert!(own.ip.is_none());
    assert_eq!(own.provided, Some(Some("guess".to_owned())));
    let public = serialize_submission(row(), false, false);
    assert!(public.provided.is_none());
    assert!(require_self_submissions(Some("false")).is_err());
    assert!(require_public_account_access(None, Some("public"), Some((false, false))).is_ok());
    assert!(require_public_account_access(None, Some("public"), None).is_err());
    assert!(require_score_visibility(None, Some("public")).is_ok());
    assert!(require_score_visibility(None, Some("private")).is_err());
    assert_eq!(require_team(&user("user", Some(4))).unwrap(), 4);
    assert!(require_team(&user("user", None)).is_err());
    assert!(require_team_mode(Some("teams")).is_ok());
    assert!(require_team_mode(Some("users")).is_err());
}

#[test]
fn linear_values_fall_to_the_minimum() {
    let scoring = Scoring { initial: Some(500), minimum: Some(100), decay: Some(30) };
    let value = |count: i64| recalculated_value(Some("linear"), scoring, count);
    assert_eq!(value(0), ValueChange::To { value: 500 });
    assert_eq!(value(1), ValueChange::To { value: 500 });
    assert_eq!(value(5), ValueChange::To { value: 380 });
    assert_eq!(value(1_000), ValueChange::To { value: 100 });
    assert_eq!(value(i64::MAX), ValueChange::To { value: 100 });
    assert_eq!(recalculated_value(Some("static"), scoring, 9), ValueChange::Keep);
    assert_eq!(recalculated_value(None, scoring, 9), ValueChange::Keep);
    assert_eq!(
        recalculated_value(Some("logarithmic"), scoring, 9),
        ValueChange::Curve { initial: 500, minimum: 100, decay: 30, later: 8 }
    );
    assert!(is_dynamic(Some("linear")) && !is_dynamic(None));
    assert_eq!(at_least(100, 7), 100);
}
