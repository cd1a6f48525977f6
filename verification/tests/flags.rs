use ctfzone_api::administration::{
    create_flag, delete_flag, flag_type, update_flag, CurrentFlag, DeleteFlagFacts, DeleteFlagStep,
    FlagFacts, FlagPatch, FlagRead, FlagStep,
};
use ctfzone_api::allocation::{allocate, AllocationFacts, AllocationStep, Assignment};
use ctfzone_api::auth::{Credential, CurrentUser};
use ctfzone_api::comparison::{
    compare_submission, team_complete, ComparisonInput, FlagEvaluation, FlagResult,
    SharedFlagEvidence,
};
use ctfzone_api::create_idempotency::{
    advisory_key, canonical_digest, create_stage, encode, required_key, CreateProgress,
    CreateRequest, CreateStage,
};
use ctfzone_api::error::ErrorKind;
use ctfzone_api::flag_policy::{
    candidate_tag, compile_regex, count_placeholders, flag_matches, flag_matches_literal, flag_matches_regex,
    generated_flag_match, inside_random_token, leet_positions, leet_replacement, leet_scope,
    match_tag, materialize_flag, next_available_leet_mask, normalize_definition, parse_policy,
    plan_allocation, random_leet_mask, render_generated_flag, replay_allocation, FlagMatch,
    FlagPolicyData, MaskSource, StoredFlag, RANDOM_TOKEN_PLACEHOLDER,
};
use ctfzone_api::json::{Json, Number};
use ctfzone_api::registration::session_id_from_headers;
use ctfzone_api::uuids::new_id;

const TOKEN: &str = "123e4567-e89b-42d3-a456-426614174000";

fn converted(value: &serde_json::Value) -> Json {
    match value {
        serde_json::Value::Null => Json::Null,
        serde_json::Value::Bool(flag) => Json::Bool(*flag),
        serde_json::Value::Number(number) => Json::Number(Number {
            text: number.to_string(),
            integer: number.as_i64(),
        }),
        serde_json::Value::String(text) => Json::Text(text.clone()),
        serde_json::Value::Array(items) => Json::Array(items.iter().map(converted).collect()),
        serde_json::Value::Object(fields) => Json::Object(
            fields
                .iter()
                .map(|(key, value)| (key.clone(), converted(value)))
                .collect(),
        ),
    }
}

fn json(text: &str) -> Json {
    converted(&serde_json::from_str(text).unwrap())
}

fn user(user_type: &str, team_id: Option<i32>) -> CurrentUser {
    CurrentUser {
        id: 7,
        name: Some("ada".to_owned()),
        email: Some("ada@example.org".to_owned()),
        user_type: user_type.to_owned(),
        team_id,
        verified: true,
        credential: Credential::ApiToken { token_id: 1, label: "cli".to_owned() },
        request_ip: "10.0.0.1".to_owned(),
        ip_changed: false,
    }
}

#[test]
fn compares_static_flags() {
    assert!(flag_matches_literal("CTF{yes}", "CTF{yes}", true));
    assert!(!flag_matches_literal("CTF{yes}", "ctf{yes}", true));
    assert!(flag_matches_literal("CTF{yes}", "ctf{YES}", false));
}

#[test]
fn random_token_is_protected_from_leet_and_replaced_once() {
    assert_eq!(
        render_generated_flag("flag{test:{{RANDOM_TOKEN}}}", Some(TOKEN), Some(1)),
        "flag{7est:123e4567-e89b-42d3-a456-426614174000}"
    );
    assert_eq!(
        render_generated_flag("flag{test:{{RANDOM_TOKEN}}}", None, Some(1)),
        "flag{7est:{{RANDOM_TOKEN}}}"
    );
    assert_eq!(leet_positions("flag{test}").len(), 4);
}

#[test]
fn leet_scope_preserves_the_flag_prefix() {
    assert_eq!(
        render_generated_flag("flag{test}", None, Some(u64::MAX)),
        "flag{7357}"
    );
    assert_eq!(
        render_generated_flag("test-without-braces", None, Some(u64::MAX)),
        "7357-w17h0u7-br4c35"
    );
    assert_eq!(
        render_generated_flag("secret-{{RANDOM_TOKEN}}-test", Some(TOKEN), Some(u64::MAX)),
        "53cr37-123e4567-e89b-42d3-a456-426614174000-7357"
    );
    assert_eq!(
        render_generated_flag(
            "flag{secret-{{RANDOM_TOKEN}}-test}",
            Some(TOKEN),
            Some(u64::MAX)
        ),
        "flag{53cr37-123e4567-e89b-42d3-a456-426614174000-7357}"
    );
    assert!(normalize_definition(
        "generated",
        "secret-{{RANDOM_TOKEN}}-test",
        &json(r#"{"leet_variation": true}"#),
        "private"
    )
    .is_ok());
}

#[test]
fn validates_generated_contract() {
    let data = json(r#"{"leet_variation": true, "accept_other_users": false}"#);
    assert!(normalize_definition("generated", "flag{test}", &data, "private").is_ok());
    assert!(normalize_definition("generated", "flag{test}", &json("{}"), "private").is_err());
    assert!(normalize_definition(
        "generated",
        "flag{{RANDOM_TOKEN}}{{RANDOM_TOKEN}}",
        &json("{}"),
        "private"
    )
    .is_err());

    let uuid_only = format!("flag{{{}:{RANDOM_TOKEN_PLACEHOLDER}}}", "a".repeat(63));
    assert!(normalize_definition(
        "generated",
        &uuid_only,
        &json(r#"{"leet_variation": false}"#),
        "private"
    )
    .is_ok());
    assert!(normalize_definition(
        "generated",
        &uuid_only,
        &json(r#"{"leet_variation": true}"#),
        "private"
    )
    .is_err());

    let maximum_rendered = format!("flag{{{}:{RANDOM_TOKEN_PLACEHOLDER}}}", "x".repeat(469));
    assert_eq!(maximum_rendered.len(), 492);
    assert!(normalize_definition(
        "generated",
        &maximum_rendered,
        &json(r#"{"leet_variation": false}"#),
        "private"
    )
    .is_ok());
    let oversized_rendered = format!("{maximum_rendered}x");
    assert!(normalize_definition(
        "generated",
        &oversized_rendered,
        &json(r#"{"leet_variation": false}"#),
        "private"
    )
    .is_err());
}

#[test]
fn regex_is_anchored_and_case_configurable() {
    assert!(flag_matches_regex("flag\\{[0-9]+\\}", "flag{42}", true).unwrap());
    assert!(!flag_matches_regex("flag", "prefix-flag", true).unwrap());
    assert!(flag_matches_regex("FLAG", "flag", false).unwrap());
}

#[test]
fn broken_patterns_are_refused() {
    assert!(compile_regex("flag(", true).is_err());
    assert!(compile_regex("flag.*", false).is_ok());
    assert!(flag_matches_regex("[", "x", true).is_err());
    assert!(normalize_definition("regex", "(", &json("{}"), "public").is_err());
}

#[test]
fn case_insensitive_match_tag_is_canonical_and_domain_separated() {
    assert_eq!(
        match_tag("secret", 1, "FLAG{YES}", false).unwrap(),
        match_tag("secret", 1, "flag{yes}", false).unwrap()
    );
    assert_ne!(
        match_tag("secret", 1, "FLAG{YES}", true).unwrap(),
        match_tag("secret", 1, "flag{yes}", true).unwrap()
    );
    assert_ne!(
        match_tag("secret", 1, "flag{yes}", true).unwrap(),
        match_tag("secret", 2, "flag{yes}", true).unwrap()
    );
    assert_ne!(
        match_tag("secret", 1, "flag{yes}", true).unwrap(),
        match_tag("other", 1, "flag{yes}", true).unwrap()
    );
}

#[test]
fn leet_scope_and_tokens_are_found() {
    assert_eq!(leet_scope("flag{test}"), 5..9);
    assert_eq!(leet_scope("test"), 0..4);
    assert!(inside_random_token("x{{RANDOM_TOKEN}}", 3));
    assert!(!inside_random_token("x{{RANDOM_TOKEN}}", 0));
    assert_eq!(leet_replacement('e'), Some('3'));
    assert_eq!(leet_replacement('x'), None);
    assert_eq!(count_placeholders("{{RANDOM_TOKEN}}-{{RANDOM_TOKEN}}"), 2);
    assert_eq!(leet_positions("flag{ox}"), vec![5]);
}

#[test]
fn policies_are_read_with_defaults() {
    let policy = parse_policy(&json("{}")).ok().unwrap();
    assert!(policy.case_sensitive && !policy.leet_variation);
    let policy = parse_policy(&json(r#"{"case_sensitive": false}"#)).ok().unwrap();
    assert!(!policy.case_sensitive);
    assert!(parse_policy(&json(r#"{"case_sensitive": 1}"#)).is_err());
}

fn policy(leet_variation: bool, accept_other_users: bool) -> FlagPolicyData {
    FlagPolicyData { case_sensitive: true, leet_variation, accept_other_users }
}

#[test]
fn flags_are_allocated_once() {
    assert_eq!(next_available_leet_mask(2, &vec![Some(1), None]).unwrap(), 2);
    assert_eq!(next_available_leet_mask(2, &vec![Some(2), Some(3)]).unwrap(), 1);
    let full = next_available_leet_mask(1, &vec![Some(1)]).unwrap_err();
    assert_eq!(full.kind, ErrorKind::Conflict);
    assert!(random_leet_mask(3, u64::MAX) < 8);
    let (token, source) = plan_allocation("flag{test:{{RANDOM_TOKEN}}}", policy(true, false));
    assert!(token);
    assert!(matches!(source, MaskSource::Random));
    let (token, source) = plan_allocation("flag{test}", policy(true, false));
    assert!(!token);
    assert!(matches!(source, MaskSource::Lowest));
    let (_, source) = plan_allocation("flag{{RANDOM_TOKEN}}", policy(false, false));
    assert!(matches!(source, MaskSource::NoMask));
    let allocation = materialize_flag("flag{test}", policy(true, false), 4, "key", None, Some(5))
        .ok()
        .unwrap();
    assert_eq!(allocation.rendered, "flag{7e5t}");
    assert_eq!(allocation.leet_position_count, Some(4));
    assert_eq!(allocation.match_tag, match_tag("key", 4, &allocation.rendered, true).unwrap());
    let stored = StoredFlag {
        id: 1,
        flag_type: "generated".to_owned(),
        content: "flag{test}".to_owned(),
        data: json("{}"),
        revision: 3,
    };
    assert_eq!(replay_allocation(&stored, 3, None, Some(5)).unwrap(), allocation.rendered);
    assert_eq!(
        replay_allocation(&stored, 2, None, Some(5)).unwrap_err().kind,
        ErrorKind::Conflict
    );
}

#[test]
fn generated_flags_know_their_owner() {
    let tag = [7u8; 32];
    assert!(matches!(
        generated_flag_match(1, policy(true, false), None, 7, tag),
        FlagMatch::No
    ));
    assert!(matches!(
        generated_flag_match(1, policy(true, false), Some((1, 7)), 7, tag),
        FlagMatch::Own
    ));
    assert!(matches!(
        generated_flag_match(1, policy(true, true), Some((1, 8)), 7, tag),
        FlagMatch::Other { flag_id: 1, source_user_id: 8, accepted: true, .. }
    ));
    let stored = StoredFlag {
        id: 1,
        flag_type: "static".to_owned(),
        content: "flag{x}".to_owned(),
        data: json(r#"{"case_sensitive": false}"#),
        revision: 1,
    };
    assert!(matches!(
        flag_matches(&stored, "FLAG{X}", None, 7, tag),
        Ok(FlagEvaluation::Compared { matched: true, shared: None })
    ));
}

#[test]
fn identifiers_are_written_and_read() {
    let id = new_id();
    assert_eq!(id.len(), 36);
    assert_eq!(session_id_from_headers(Some(&id)), Some(id.clone()));
    assert_ne!(new_id(), id);
}

fn comparison(
    table: Vec<Vec<FlagEvaluation>>,
    logic: &str,
    team_mode: bool,
    submitters: Vec<i32>,
) -> ComparisonInput {
    let candidates = table[0].len();
    ComparisonInput {
        table,
        candidates,
        logic: logic.to_owned(),
        team_mode,
        user_id: 7,
        submitters,
        members: vec![7, 8],
    }
}

fn compared(matched: bool) -> FlagEvaluation {
    FlagEvaluation::Compared { matched, shared: None }
}

#[test]
fn logic_decides_what_a_submission_is() {
    let any = comparison(vec![vec![compared(false)], vec![compared(true)]], "any", false, vec![]);
    assert!(matches!(compare_submission(&any).ok().unwrap().outcome, FlagResult::Correct));
    let none = comparison(vec![vec![compared(false)]], "any", false, vec![]);
    assert!(matches!(compare_submission(&none).ok().unwrap().outcome, FlagResult::Incorrect));
    let part = comparison(vec![vec![compared(true)], vec![compared(false)]], "all", false, vec![]);
    assert!(matches!(compare_submission(&part).ok().unwrap().outcome, FlagResult::Partial));
    let whole = comparison(vec![vec![compared(true)]], "all", false, vec![]);
    assert!(matches!(compare_submission(&whole).ok().unwrap().outcome, FlagResult::Correct));
    let waiting = comparison(vec![vec![compared(true)]], "team", true, vec![]);
    assert!(matches!(compare_submission(&waiting).ok().unwrap().outcome, FlagResult::Partial));
    let done = comparison(vec![vec![compared(true)]], "team", true, vec![8]);
    assert!(matches!(compare_submission(&done).ok().unwrap().outcome, FlagResult::Correct));
    assert!(team_complete(&vec![8], 7, &vec![7, 8]));
    assert!(!team_complete(&vec![], 7, &vec![7, 8]));
}

#[test]
fn failed_comparisons_are_reported_and_sharing_is_kept() {
    let broken = comparison(vec![vec![FlagEvaluation::Failed]], "any", false, vec![]);
    let at = compare_submission(&broken).err().unwrap();
    assert_eq!((at.flag, at.candidate), (0, 0));
    let shared = SharedFlagEvidence {
        flag_id: 3,
        source_user_id: 9,
        accepted: false,
        match_tag: [1; 32],
    };
    let table = vec![vec![FlagEvaluation::Compared { matched: false, shared: Some(shared) }]];
    let result = compare_submission(&comparison(table, "any", false, vec![])).ok().unwrap();
    assert!(matches!(result.outcome, FlagResult::Incorrect));
    assert_eq!(result.shared.unwrap().source_user_id, 9);
}

fn flag_facts() -> FlagFacts {
    FlagFacts {
        initial: Some(Some(1)),
        current: Some(Some(CurrentFlag {
            challenge_id: 1,
            flag_type: "static".to_owned(),
            content: "flag{old}".to_owned(),
            data: json(
                r#"{"case_sensitive": true, "leet_variation": false, "accept_other_users": false}"#,
            ),
        })),
        exposure: Some(Some("public".to_owned())),
        source_flag_count: None,
        allocated: None,
        source_active: None,
        target_active: None,
    }
}

fn patch(challenge_id: Option<i32>, content: Option<&str>) -> FlagPatch {
    FlagPatch {
        challenge_id,
        flag_type: None,
        content: content.map(str::to_owned),
        data: None,
    }
}

#[test]
fn flag_mutations_cannot_leave_a_challenge_without_a_definition() {
    let admin = user("admin", None);
    let moving = patch(Some(2), None);
    let mut facts = flag_facts();
    assert!(matches!(
        update_flag(&admin, &moving, &facts),
        Ok(FlagStep::Read(FlagRead::SourceFlagCount { challenge_id: 1 }))
    ));
    facts.source_flag_count = Some(1);
    let refused = update_flag(&admin, &moving, &facts).err().unwrap();
    assert_eq!(refused.message, "A challenge must retain at least one flag definition");
    facts.source_flag_count = Some(2);
    facts.allocated = Some(false);
    facts.source_active = Some(false);
    facts.target_active = Some(false);
    assert!(matches!(
        update_flag(&admin, &moving, &facts),
        Ok(FlagStep::Save(change)) if change.challenge_id == 2
    ));

    let mut deletion = DeleteFlagFacts {
        initial: Some(Some(1)),
        current: Some(Some(1)),
        allocated: Some(false),
        flag_count: None,
        active: Some(false),
    };
    assert!(matches!(
        delete_flag(&admin, &deletion),
        Ok(DeleteFlagStep::ReadFlagCount { challenge_id: 1 })
    ));
    deletion.flag_count = Some(1);
    let refused = delete_flag(&admin, &deletion).err().unwrap();
    assert_eq!(refused.message, "A challenge must retain at least one flag definition");
    deletion.flag_count = Some(2);
    assert!(matches!(delete_flag(&admin, &deletion), Ok(DeleteFlagStep::Delete)));
}

#[test]
fn flags_change_only_while_nobody_holds_them() {
    let admin = user("admin", None);
    let change = patch(None, Some("flag{new}"));
    let mut facts = flag_facts();
    facts.current = None;
    assert!(matches!(
        update_flag(&admin, &patch(Some(0), None), &facts),
        Ok(FlagStep::Read(FlagRead::Current { first: 0, second: Some(1) }))
    ));
    let mut facts = flag_facts();
    assert!(matches!(
        update_flag(&admin, &patch(None, None), &facts),
        Ok(FlagStep::Save(_))
    ));
    assert!(matches!(
        update_flag(&admin, &change, &facts),
        Ok(FlagStep::Read(FlagRead::Allocated))
    ));
    facts.allocated = Some(true);
    assert_eq!(
        update_flag(&admin, &change, &facts).err().unwrap().message,
        "Generated flag definitions cannot change after allocation"
    );
    facts.allocated = Some(false);
    facts.source_active = Some(true);
    assert_eq!(
        update_flag(&admin, &change, &facts).err().unwrap().message,
        "Stop the active challenge instances before changing flags"
    );
    facts.initial = Some(Some(5));
    assert_eq!(
        update_flag(&admin, &change, &facts).err().unwrap().message,
        "The flag changed concurrently; reload it and try again"
    );
    facts.initial = Some(None);
    assert_eq!(update_flag(&admin, &change, &facts).err().unwrap().kind, ErrorKind::NotFound);
    assert_eq!(
        update_flag(&user("user", None), &change, &facts).err().unwrap().kind,
        ErrorKind::Forbidden
    );
}

#[test]
fn flags_are_created_for_challenges() {
    let admin = user("admin", None);
    let data = json("{}");
    let (kind, content, policy) =
        create_flag(&admin, Some("public"), false, "static", "flag{x}", &data).ok().unwrap();
    assert_eq!((kind.as_str(), content.as_str()), ("static", "flag{x}"));
    assert!(policy.case_sensitive);
    assert_eq!(
        create_flag(&admin, None, false, "static", "flag{x}", &data).err().unwrap().message,
        "Challenge not found"
    );
    assert_eq!(
        create_flag(&admin, Some("public"), true, "static", "flag{x}", &data).err().unwrap().kind,
        ErrorKind::Conflict
    );
    let generated = flag_type(&admin, "generated").ok().unwrap();
    assert!(generated.personalized);
    assert_eq!(generated.random_token_placeholder.as_deref(), Some("{{RANDOM_TOKEN}}"));
    assert!(flag_type(&admin, "riddle").is_err());
}

#[test]
fn request_hash_is_canonical_for_object_key_order() {
    let one = Json::Object(vec![
        ("name".to_owned(), Json::Text("x".to_owned())),
        (
            "flag".to_owned(),
            Json::Object(vec![
                ("type".to_owned(), Json::Text("static".to_owned())),
                ("content".to_owned(), Json::Text("f".to_owned())),
            ]),
        ),
    ]);
    let other = Json::Object(vec![
        (
            "flag".to_owned(),
            Json::Object(vec![
                ("content".to_owned(), Json::Text("f".to_owned())),
                ("type".to_owned(), Json::Text("static".to_owned())),
            ]),
        ),
        ("name".to_owned(), Json::Text("x".to_owned())),
    ]);
    assert_eq!(canonical_digest(&one), canonical_digest(&other));
    assert_eq!(encode(&one), encode(&other));
    assert_ne!(
        canonical_digest(&json(r#"{"name":"x"}"#)),
        canonical_digest(&json(r#"{"name":"y"}"#))
    );
}

#[test]
fn create_key_is_required_and_bounded() {
    assert!(required_key(None).is_err());
    assert_eq!(required_key(Some(Some("create-1"))).unwrap(), "create-1");
    let long = "x".repeat(129);
    assert!(required_key(Some(Some(&long))).is_err());
    assert!(required_key(Some(None)).is_err());
}

#[test]
fn advertised_create_headers_are_consumed_before_writes() {
    let mut progress = CreateProgress { replayed: None, inserted: false, completed: false };
    assert!(matches!(create_stage(progress), CreateStage::LockAndReplay));
    progress.replayed = Some(false);
    assert!(matches!(create_stage(progress), CreateStage::Insert));
    progress.inserted = true;
    assert!(matches!(create_stage(progress), CreateStage::Complete));
    progress.completed = true;
    assert!(matches!(create_stage(progress), CreateStage::Commit));
    let replayed = CreateProgress { replayed: Some(true), inserted: false, completed: false };
    assert!(matches!(create_stage(replayed), CreateStage::Replay));
}

#[test]
fn repeated_requests_are_replayed() {
    let body = json(r#"{"name":"x"}"#);
    let request = CreateRequest::new(Some(Some("key")), 7, "challenge", &body).ok().unwrap();
    assert_eq!(request.lock_key, advisory_key(7, "challenge", "key"));
    assert_ne!(request.lock_key, advisory_key(8, "challenge", "key"));
    assert_eq!(request.request_sha256, canonical_digest(&body));
    assert!(!request.lock_and_replay(None).unwrap());
    assert!(request.lock_and_replay(Some(&request.request_sha256)).unwrap());
    assert_eq!(
        request.lock_and_replay(Some(&[0u8; 32])).unwrap_err().kind,
        ErrorKind::Conflict
    );
}

fn generated(content: &str, options: &str) -> StoredFlag {
    StoredFlag {
        id: 9,
        flag_type: "generated".to_owned(),
        content: content.to_owned(),
        data: json(options),
        revision: 2,
    }
}

fn allocation_facts() -> AllocationFacts {
    AllocationFacts { existing: None, masks: None, random: 4, token: TOKEN.to_owned() }
}

#[test]
fn flags_are_handed_out_step_by_step() {
    let flag = generated("flag{test}", r#"{"leet_variation": true}"#);
    let mut facts = allocation_facts();
    assert!(matches!(allocate(&flag, 1, "key", &facts), Ok(AllocationStep::ReadExisting)));
    facts.existing = Some(None);
    assert!(matches!(allocate(&flag, 1, "key", &facts), Ok(AllocationStep::ReadMasks)));
    facts.masks = Some(vec![Some(1), Some(2)]);
    let (first, mask) = match allocate(&flag, 1, "key", &facts) {
        Ok(AllocationStep::Record { allocation, random_token, leet_mask }) => {
            assert!(random_token.is_none());
            (allocation.rendered, leet_mask)
        }
        _ => panic!("the flag is handed out"),
    };
    assert_eq!(mask, Some(3));
    assert_eq!(first, "flag{73st}");
    facts.existing = Some(Some(Assignment { revision: 2, random_token: None, leet_mask: mask }));
    assert!(matches!(
        allocate(&flag, 1, "key", &facts),
        Ok(AllocationStep::Replay(text)) if text == first
    ));
    facts.existing = Some(Some(Assignment { revision: 1, random_token: None, leet_mask: mask }));
    assert_eq!(allocate(&flag, 1, "key", &facts).err().unwrap().kind, ErrorKind::Conflict);
    facts.existing = Some(None);
    facts.masks = Some((1..16).map(Some).collect());
    assert_eq!(
        allocate(&flag, 1, "key", &facts).err().unwrap().message,
        "The leet variation space for this challenge is exhausted"
    );
}

#[test]
fn tokens_are_part_of_the_flag() {
    let flag = generated("flag{{{RANDOM_TOKEN}}}", r#"{"leet_variation": false}"#);
    let mut facts = allocation_facts();
    facts.existing = Some(None);
    match allocate(&flag, 1, "key", &facts) {
        Ok(AllocationStep::Record { allocation, random_token, leet_mask }) => {
            assert_eq!(allocation.rendered, format!("flag{{{TOKEN}}}"));
            assert_eq!(random_token.as_deref(), Some(TOKEN));
            assert!(leet_mask.is_none());
            assert_eq!(
                candidate_tag(&flag, 1, "key", &allocation.rendered).unwrap(),
                Some(allocation.match_tag)
            );
        }
        _ => panic!("the flag is handed out"),
    }
    let fixed = StoredFlag { flag_type: "static".to_owned(), ..flag };
    assert_eq!(candidate_tag(&fixed, 1, "key", "x").unwrap(), None);
    let broken = StoredFlag { data: Json::Null, ..fixed };
    assert!(candidate_tag(&broken, 1, "key", "x").is_err());
}

#[test]
fn tags_digests_and_locks_have_their_values() {
    assert_eq!(
        hex::encode(match_tag("secret", 1, "FLAG{YES}", false).unwrap()),
        "b41edd290bbe424843a5b8525159cb7a5d7290356a7695ee16fcdc976e83a31c"
    );
    assert_eq!(advisory_key(7, "challenge.create", "key"), -8466472160853382239);
    assert_eq!(
        hex::encode(canonical_digest(&json(r#"{"name": "x", "a": true}"#))),
        "b1c136de30e0058dca0cf5d30df5700f758015947b220f1d1666f94d6968f08b"
    );
}
