use ctfzone_api::admin_rules::{
    award_select, bracket_select, escape_like, field_select, is_bidi_control, page_select,
    submission_select, validate_bracket, validate_challenge_category_logo_color,
    validate_challenge_category_logo_key, validate_challenge_category_name,
    validate_custom_page_endpoint, validate_field, validate_page_content, validate_page_label,
    validate_page_navigation_order, validate_page_visibility, validate_short_text,
    validate_submission_type,
};
use ctfzone_api::administration::{
    canonical_account_team_id, changed_value, create_award, create_comment, create_config,
    create_submission, create_topic_relation, delete_integer_id, delete_topic_relation,
    direct_user_mode_change_error,
    get_config, list_configs, list_page, list_submissions, reject_direct_user_mode_change,
    update_field, update_submission, AccountFacts, CommentTarget, CurrentSubmission, FieldNames,
    SubmissionChange, SubmissionFilter, TopicChoice,
};
use ctfzone_api::allowlist::{
    create_registration_email, decode_upload, delete_registration_email,
    import_registration_emails, list_registration_emails, page_count, plan_import,
};
use ctfzone_api::auth::{Credential, CurrentUser};
use ctfzone_api::challenge_view::Bound;
use ctfzone_api::configuration::StoredConfig;
use ctfzone_api::error::ErrorKind;
use ctfzone_api::fences::{writer_plan, Fence, FenceStep, Table, Writer};
use ctfzone_api::json::Json;
use ctfzone_api::pages::{
    create_challenge_category, create_page, delete_challenge_category, delete_page,
    public_page_response, sync_system_page_visibility, update_challenge_category, update_page,
    Category, CategoryPatch, PageContent, PagePatch, StoredPage,
};
use ctfzone_api::product::{
    architecture_data, product_metadata, readiness, Readiness, SchemaState, SCHEMA_VERSION,
    VERSION,
};
use ctfzone_api::response::Success;

fn user(user_type: &str, team_id: Option<i32>) -> CurrentUser {
    CurrentUser {
        id: 7,
        name: Some("ada".to_owned()),
        email: Some("ada@example.org".to_owned()),
        user_type: user_type.to_owned(),
        team_id,
        verified: true,
        credential: Credential::ApiToken { token_id: 1, label: "cli".to_owned() },
        request_ip: "10.0.0.1".to_owned(),
        ip_changed: false,
    }
}

#[test]
fn version_is_workspace_version() {
    assert_eq!(VERSION, "1.0.0");
    assert_eq!(SCHEMA_VERSION, VERSION);
}

#[test]
fn architecture_has_no_page_renderer_dependency() {
    let architecture = architecture_data();
    assert_eq!(architecture.frontend.served_by, "backend");
    assert_eq!(architecture.backend.mode, "browser-bff");
    assert!(!architecture.backend.database_access);
    assert!(!architecture.api.renderer_dependency);
    assert_eq!(architecture.api.presentation, "structured-json");
    assert_eq!(architecture.frontend.technologies, ["html", "css", "javascript"]);
}

fn schema(version: &str) -> SchemaState {
    SchemaState {
        version: Some(version.to_owned()),
        install_complete: true,
        users: true,
        challenges: true,
        runtime_control_plane: true,
        user_mode_transitions: true,
        email_verification_tokens: true,
        stored_objects: true,
        object_operations: true,
        ssh_host_control_plane: true,
    }
}

#[test]
fn readiness_needs_the_schema_and_the_storage() {
    let ready = readiness(Some(&schema("1.0.0")), true);
    assert_eq!(ready, Readiness::Ready);
    assert_eq!(ready.status(), 200);
    assert_eq!(ready.object_storage().as_deref(), Some("available"));
    let old = readiness(Some(&schema("0.9.0")), true);
    assert_eq!(old, Readiness::Incompatible { object_storage: true });
    assert_eq!(old.status(), 503);
    assert_eq!(old.database(), "available");
    let offline = readiness(Some(&schema("1.0.0")), false);
    assert_eq!(offline.object_storage().as_deref(), Some("unavailable"));
    let mut partial = schema("1.0.0");
    partial.stored_objects = false;
    assert_eq!(readiness(Some(&partial), true).status(), 503);
    let unknown = readiness(None, true);
    assert_eq!(unknown.database(), "unavailable_or_uninitialized");
    assert!(unknown.object_storage().is_none());
    assert_eq!(product_metadata(None).schema_version, "unknown");
    assert_eq!(product_metadata(None).name, "CTFZone");
    let answer = Success::new(5);
    assert!(answer.success);
    assert_eq!(answer.data, 5);
}

#[test]
fn validates_custom_page_contract() {
    assert_eq!(validate_custom_page_endpoint(" /rules/ ").unwrap(), "rules");
    assert_eq!(
        validate_custom_page_endpoint("event_rules-2026").unwrap(),
        "event_rules-2026"
    );
    assert_eq!(
        validate_custom_page_endpoint("guides/beginners").unwrap(),
        "guides/beginners"
    );
    assert!(validate_custom_page_endpoint("").is_err());
    assert!(validate_custom_page_endpoint("../rules").is_err());
    assert!(validate_custom_page_endpoint("challenges").is_err());
    assert!(validate_custom_page_endpoint("admin/preview").is_err());
    assert!(validate_custom_page_endpoint("team").is_err());
    assert!(validate_custom_page_endpoint("downloads/example").is_err());
    assert!(validate_custom_page_endpoint("https://example.test").is_err());
    assert_eq!(validate_page_visibility(" PRIVATE ").unwrap(), "private");
    assert!(validate_page_visibility("hidden").is_err());
    assert_eq!(validate_page_navigation_order(1, false).unwrap(), 1);
    assert!(validate_page_navigation_order(0, false).is_err());
    assert_eq!(validate_page_navigation_order(0, true).unwrap(), 0);
    assert!(validate_page_content(&"x".repeat(262_145)).is_err());
    assert!(validate_page_content("<p>ok</p>\0").is_err());
}

#[test]
fn escapes_allowlist_search_wildcards_as_literals() {
    assert_eq!(escape_like("100%_\\example"), "100\\%\\_\\\\example");
}

#[test]
fn challenge_category_names_are_bounded_and_safe() {
    assert_eq!(
        validate_challenge_category_name(" Hardware ").unwrap(),
        "Hardware"
    );
    assert!(validate_challenge_category_name("").is_err());
    assert!(validate_challenge_category_name(&"x".repeat(81)).is_err());
    assert!(validate_challenge_category_name(&"🦕".repeat(20)).is_ok());
    assert!(validate_challenge_category_name(&"🦕".repeat(21)).is_err());
    assert!(validate_challenge_category_name("safe\u{202e}txt").is_err());
    assert!(validate_challenge_category_name("safe\u{2066}txt").is_err());
    assert!(validate_challenge_category_name("safe\u{0007}txt").is_err());
    assert!(validate_challenge_category_name("safe\u{0085}txt").is_err());
}

#[test]
fn challenge_category_logos_are_semantic_and_bounded() {
    for key in ["web", "pwn", "crypto", "rev", "misc", "coding", "forensics"] {
        assert_eq!(
            validate_challenge_category_logo_key(Some(key)).unwrap(),
            Some(key.to_owned())
        );
    }
    assert_eq!(validate_challenge_category_logo_key(None).unwrap(), None);
    assert!(validate_challenge_category_logo_key(Some("dinosaur")).is_err());
    assert!(validate_challenge_category_logo_key(Some("WEB")).is_err());
    assert!(validate_challenge_category_logo_key(Some("")).is_err());
    assert_eq!(
        validate_challenge_category_logo_color(None, Some("web")).unwrap(),
        Some("#34689c".to_owned())
    );
    assert_eq!(
        validate_challenge_category_logo_color(Some("#A1B2C3"), Some("web")).unwrap(),
        Some("#a1b2c3".to_owned())
    );
    assert!(validate_challenge_category_logo_color(Some("red"), Some("web")).is_err());
    assert!(validate_challenge_category_logo_color(Some("#123abc"), None).is_err());
}

fn assert_step_order(writer: Writer, markers: &[FenceStep]) {
    let plan = writer_plan(writer);
    let mut place = 0;
    for marker in markers {
        let found = plan[place..]
            .iter()
            .position(|step| step == marker)
            .unwrap_or_else(|| panic!("missing or out-of-order step: {marker:?}"));
        place += found + 1;
    }
    let mut fence = Fence::new(writer);
    for marker in markers {
        assert!(fence.pass(*marker), "out of order: {marker:?}");
    }
}

#[test]
fn writers_walk_their_plans() {
    let mut fence = Fence::new(Writer::Attempt);
    assert!(!fence.pass(FenceStep::Write(Table::Submissions)));
    assert!(fence.pass(FenceStep::Begin));
    assert!(!fence.pass(FenceStep::Begin));
    assert!(!fence.pass(FenceStep::RevalidateCredential));
    assert!(fence.pass(FenceStep::LockConfigurationShared));
    assert!(!fence.pass(FenceStep::ReadUserMode));
    assert!(fence.pass(FenceStep::RevalidateCredential));
    assert!(fence.pass(FenceStep::LockAccount));
    assert!(!fence.pass(FenceStep::ReadUserMode));
    assert!(!fence.pass(FenceStep::Write(Table::Awards)));
    assert!(fence.pass(FenceStep::Write(Table::Solves)));
    assert!(fence.pass(FenceStep::Write(Table::Submissions)));
    assert!(fence.pass(FenceStep::Write(Table::Submissions)));
    assert!(!fence.pass(FenceStep::LockAccount));

    let mut plan = Fence::new(Writer::Logout);
    for step in writer_plan(Writer::Logout) {
        assert!(plan.pass(step));
    }
}

#[test]
fn score_and_unlock_writers_hold_the_shared_mode_fence() {
    assert_step_order(
        Writer::Attempt,
        &[
            FenceStep::Begin,
            FenceStep::LockConfigurationShared,
            FenceStep::RevalidateCredential,
            FenceStep::ReadUserMode,
            FenceStep::LockAccount,
            FenceStep::Write(Table::Submissions),
            FenceStep::Write(Table::Solves),
        ],
    );
    assert_step_order(
        Writer::RateChallenge,
        &[
            FenceStep::Begin,
            FenceStep::LockConfigurationShared,
            FenceStep::RevalidateCredential,
            FenceStep::ReadUserMode,
            FenceStep::LockTeamMembership,
            FenceStep::RequireFullAccess,
            FenceStep::RequireSolve,
            FenceStep::Write(Table::Ratings),
        ],
    );
    assert_step_order(
        Writer::Unlock,
        &[
            FenceStep::Begin,
            FenceStep::LockConfigurationShared,
            FenceStep::RevalidateCredential,
            FenceStep::ReadUserMode,
            FenceStep::LockAccount,
            FenceStep::Write(Table::Awards),
            FenceStep::Write(Table::Unlocks),
        ],
    );
    for (writer, table) in [
        (Writer::CreateAward, Table::Awards),
        (Writer::CreateSubmission, Table::Submissions),
        (Writer::UpdateSubmission, Table::Solves),
    ] {
        assert_step_order(
            writer,
            &[
                FenceStep::Begin,
                FenceStep::LockConfigurationShared,
                FenceStep::RevalidateCredential,
                FenceStep::ResolveTeam,
                FenceStep::Write(table),
            ],
        );
    }
}

#[test]
fn upload_token_and_team_writers_hold_the_shared_mode_fence() {
    for writer in [Writer::InitiateUpload, Writer::CompleteUpload] {
        assert_step_order(
            writer,
            &[
                FenceStep::Begin,
                FenceStep::LockConfigurationShared,
                FenceStep::RevalidateCredential,
                FenceStep::ReadUserMode,
                FenceStep::ResolvePrincipal,
                FenceStep::Write(Table::StoredObjects),
            ],
        );
    }
    assert_step_order(
        Writer::ReadParticipantToken,
        &[
            FenceStep::Begin,
            FenceStep::LockConfigurationShared,
            FenceStep::RevalidateCredential,
            FenceStep::LockTeamMembership,
            FenceStep::LoadAccount,
            FenceStep::LoadToken,
        ],
    );
    assert_step_order(
        Writer::RotateParticipantToken,
        &[
            FenceStep::Begin,
            FenceStep::LockConfigurationShared,
            FenceStep::RevalidateCredential,
            FenceStep::LoadAccount,
            FenceStep::Write(Table::Users),
            FenceStep::Write(Table::Teams),
        ],
    );
    for (writer, table) in [
        (Writer::CreateTeam, Table::Teams),
        (Writer::ChangeMembership, Table::Users),
        (Writer::DeleteTeam, Table::Teams),
    ] {
        assert_step_order(
            writer,
            &[
                FenceStep::Begin,
                FenceStep::LockConfigurationShared,
                FenceStep::RevalidateCredential,
                FenceStep::RequireTeamMode,
                FenceStep::Write(table),
            ],
        );
    }
    for writer in [Writer::CreateToken, Writer::DeleteToken] {
        assert_step_order(
            writer,
            &[
                FenceStep::Begin,
                FenceStep::LockConfigurationShared,
                FenceStep::RevalidateCredential,
                FenceStep::Write(Table::Tokens),
            ],
        );
    }
}

#[test]
fn exact_snapshot_metadata_writers_hold_the_shared_mode_fence() {
    for writer in [Writer::CreateChallenge, Writer::DeleteChallenge] {
        assert_step_order(
            writer,
            &[
                FenceStep::Begin,
                FenceStep::LockConfigurationShared,
                FenceStep::RevalidateCredential,
                FenceStep::Write(Table::Challenges),
            ],
        );
    }
    assert_step_order(
        Writer::UpdateChallenge,
        &[
            FenceStep::Begin,
            FenceStep::LockConfigurationShared,
            FenceStep::RevalidateCredential,
            FenceStep::LoadChallenge,
            FenceStep::ReadUserMode,
            FenceStep::Write(Table::Challenges),
        ],
    );
    assert_step_order(
        Writer::CreateNotification,
        &[
            FenceStep::Begin,
            FenceStep::LockConfigurationShared,
            FenceStep::RevalidateCredential,
            FenceStep::ReadUserMode,
            FenceStep::Write(Table::Notifications),
        ],
    );
    assert_step_order(
        Writer::GrantDownload,
        &[
            FenceStep::Begin,
            FenceStep::LockConfigurationShared,
            FenceStep::RevalidateCredential,
            FenceStep::ReadUserMode,
            FenceStep::LockTeamMembership,
            FenceStep::LoadObject,
            FenceStep::SignDownload,
        ],
    );
    assert_step_order(
        Writer::TrackChallenge,
        &[
            FenceStep::Begin,
            FenceStep::LockConfigurationShared,
            FenceStep::RevalidateCredential,
            FenceStep::Write(Table::Tracking),
        ],
    );
    assert_step_order(
        Writer::CreateComment,
        &[
            FenceStep::Begin,
            FenceStep::LockConfigurationShared,
            FenceStep::RevalidateCredential,
            FenceStep::ReadUserMode,
            FenceStep::Write(Table::Comments),
        ],
    );
    assert_step_order(
        Writer::DeleteRecord,
        &[
            FenceStep::Begin,
            FenceStep::LockConfigurationShared,
            FenceStep::RevalidateCredential,
            FenceStep::Write(Table::Records),
        ],
    );
}

#[test]
fn session_creation_and_revocation_hold_the_shared_mode_fence() {
    assert_step_order(
        Writer::Login,
        &[
            FenceStep::Begin,
            FenceStep::LockConfigurationShared,
            FenceStep::LoadAccount,
            FenceStep::Write(Table::Sessions),
        ],
    );
    assert_step_order(
        Writer::Logout,
        &[
            FenceStep::Begin,
            FenceStep::LockConfigurationShared,
            FenceStep::Write(Table::Sessions),
        ],
    );
    for writer in [Writer::RevokeSessions, Writer::UpdateUser] {
        assert_step_order(
            writer,
            &[
                FenceStep::Begin,
                FenceStep::LockConfigurationShared,
                FenceStep::RevalidateCredential,
                FenceStep::Write(Table::Sessions),
            ],
        );
    }
}

#[test]
fn short_texts_and_definitions_are_checked() {
    assert_eq!(validate_short_text(" tag ", "Tag").unwrap(), "tag");
    let error = validate_short_text("", "Tag").unwrap_err();
    assert!(error.message.starts_with("Tag"));
    assert_eq!(validate_page_label(" About ").unwrap(), "About");
    assert!(validate_page_label(&"x".repeat(81)).is_err());
    assert_eq!(validate_page_content("a\r\nb\rc").unwrap(), "a\nb\nc");
    assert!(validate_field("user", "text", "Motto").is_ok());
    assert!(validate_field("user", "colour", "Motto").is_err());
    assert!(validate_bracket("Students", "users").is_ok());
    assert!(validate_bracket("Students", "robots").is_err());
    assert!(validate_submission_type("correct").is_ok());
    assert!(validate_submission_type("maybe").is_err());
    assert!(is_bidi_control('\u{202e}'));
    assert!(!is_bidi_control('a'));
    for (sql, table) in [
        (field_select("WHERE id=$1"), "ctfzone.fields"),
        (page_select("WHERE id=$1"), "ctfzone.pages"),
        (bracket_select("WHERE id=$1"), "ctfzone.brackets"),
        (award_select("WHERE id=$1"), "ctfzone.awards"),
    ] {
        assert!(sql.contains(table) && sql.ends_with("WHERE id=$1"));
    }
    assert!(submission_select().contains("ctfzone.submissions"));
}

fn facts(users_mode: bool, participant: bool, assigned_team: Option<i32>) -> AccountFacts {
    AccountFacts { users_mode, participant, assigned_team }
}

#[test]
fn records_are_for_the_active_account() {
    assert_eq!(
        canonical_account_team_id(facts(true, true, None), None, "award").unwrap(),
        None
    );
    assert_eq!(
        canonical_account_team_id(facts(true, true, None), Some(3), "award")
            .unwrap_err()
            .message,
        "A award cannot target a team while competition mode is users"
    );
    assert_eq!(
        canonical_account_team_id(facts(true, false, None), None, "award")
            .unwrap_err()
            .message,
        "The award user is not a participant"
    );
    assert_eq!(
        canonical_account_team_id(facts(false, true, Some(3)), None, "award").unwrap(),
        Some(3)
    );
    assert_eq!(
        canonical_account_team_id(facts(false, true, None), None, "submission")
            .unwrap_err()
            .message,
        "The submission user does not belong to a team"
    );
    assert_eq!(
        canonical_account_team_id(facts(false, true, Some(3)), Some(4), "submission")
            .unwrap_err()
            .message,
        "The submission team does not match the user's current team"
    );
    let admin = user("admin", None);
    assert_eq!(create_award(&admin, facts(false, true, Some(3)), Some(3)).unwrap(), Some(3));
    assert!(create_award(&user("user", None), facts(true, true, None), None).is_err());
    assert_eq!(
        create_submission(&admin, "correct", facts(true, true, None), None).unwrap(),
        (None, true)
    );
    assert!(create_submission(&admin, "guess", facts(true, true, None), None).is_err());
}

#[test]
fn changed_submissions_carry_their_solves() {
    let admin = user("admin", None);
    let stored = |kind: &str| CurrentSubmission {
        submission_type: Some(kind.to_owned()),
        team_id: None,
    };
    let account = facts(true, true, None);
    assert_eq!(
        update_submission(&admin, Some(&stored("incorrect")), Some("correct"), account).unwrap(),
        ("correct".to_owned(), SubmissionChange::Promote { team_id: None })
    );
    assert_eq!(
        update_submission(&admin, Some(&stored("correct")), Some("incorrect"), account).unwrap(),
        ("incorrect".to_owned(), SubmissionChange::Demote)
    );
    assert_eq!(
        update_submission(&admin, Some(&stored("correct")), None, account).unwrap(),
        ("correct".to_owned(), SubmissionChange::Plain)
    );
    assert_eq!(
        update_submission(&admin, None, None, account).unwrap_err().message,
        "Submission not found"
    );
}

#[test]
fn comments_have_one_target() {
    let admin = user("admin", None);
    let none = CommentTarget { challenge_id: None, user_id: None, team_id: None, page_id: None };
    assert_eq!(create_comment(&admin, none, "hi", false, false).unwrap(), "standard");
    let page = CommentTarget { page_id: Some(1), ..none };
    assert_eq!(create_comment(&admin, page, "hi", false, false).unwrap(), "page");
    assert!(create_comment(&admin, page, "  ", false, false).is_err());
    let both = CommentTarget { page_id: Some(1), user_id: Some(2), ..none };
    assert_eq!(
        create_comment(&admin, both, "hi", false, false).unwrap_err().message,
        "A comment must have at most one target"
    );
    let team = CommentTarget { team_id: Some(1), ..none };
    assert_eq!(
        create_comment(&admin, team, "hi", false, true).unwrap_err().message,
        "Team comments are only available in team mode"
    );
    assert_eq!(
        create_comment(&admin, team, "hi", true, false).unwrap_err().message,
        "Comment team does not exist"
    );
    assert_eq!(create_comment(&admin, team, "hi", true, true).unwrap(), "team");
}

#[test]
fn topics_are_new_or_known() {
    let admin = user("admin", None);
    assert!(matches!(
        create_topic_relation(&admin, "challenge", Some(" xss "), None),
        Ok(TopicChoice::New(topic)) if topic == "xss"
    ));
    assert!(matches!(
        create_topic_relation(&admin, "challenge", None, Some(4)),
        Ok(TopicChoice::Existing(4))
    ));
    assert_eq!(
        create_topic_relation(&admin, "page", None, Some(4)).err().unwrap().message,
        "Unsupported topic relation type"
    );
    assert_eq!(
        create_topic_relation(&admin, "challenge", None, None).err().unwrap().message,
        "A topic ID or value is required"
    );
    assert_eq!(delete_topic_relation(&admin, Some("challenge"), Some(3)).unwrap(), 3);
    assert_eq!(
        delete_topic_relation(&admin, Some("challenge"), None).unwrap_err().message,
        "target_id is required"
    );
    assert!(delete_topic_relation(&admin, None, Some(3)).is_err());
}

#[test]
fn lists_are_paged_and_filtered() {
    assert_eq!(list_page(None, None), (50, 0));
    assert_eq!(list_page(Some(3), Some(500)), (100, 200));
    assert_eq!(list_page(Some(-3), Some(0)), (1, 0));
    let conditions = list_submissions(&SubmissionFilter {
        challenge_id: Some(4),
        user_id: None,
        team_id: None,
        record_type: Some("correct".to_owned()),
    });
    assert_eq!(conditions.len(), 2);
    assert_eq!(conditions[0].sql, " AND challenge_id=");
    assert!(matches!(conditions[0].bound, Bound::Integer(4)));
    assert!(matches!(&conditions[1].bound, Bound::Text(word) if word == "correct"));
}

#[test]
fn fields_keep_what_is_not_changed() {
    let admin = user("admin", None);
    let stored = FieldNames {
        name: Some("Motto".to_owned()),
        owner_type: None,
        field_type: Some("text".to_owned()),
    };
    let change = FieldNames { name: None, owner_type: None, field_type: Some("number".to_owned()) };
    assert_eq!(
        update_field(&admin, Some(&stored), &change).unwrap(),
        ("Motto".to_owned(), "user".to_owned(), "number".to_owned())
    );
    let wrong = FieldNames { name: None, owner_type: Some("robot".to_owned()), field_type: None };
    assert!(update_field(&admin, Some(&stored), &wrong).is_err());
    assert_eq!(update_field(&admin, None, &change).unwrap_err().kind, ErrorKind::NotFound);
}

fn row(id: i32, key: &str, value: &str) -> StoredConfig {
    StoredConfig { id, key: Some(key.to_owned()), value: Some(value.to_owned()) }
}

#[test]
fn configurations_are_listed_without_secrets_or_strangers() {
    let admin = user("admin", None);
    let rows = vec![
        row(1, "ctf_name", "Site"),
        row(2, "stranger", "x"),
        row(3, "mail_password", "hunter2"),
    ];
    let listed = list_configs(&admin, rows).ok().unwrap();
    assert_eq!(listed.iter().map(|config| config.id).collect::<Vec<_>>(), vec![1, 3]);
    assert_eq!(listed[0].value.as_deref(), Some("Site"));
    assert!(listed[1].value.is_none() && listed[1].configured);
    assert!(list_configs(&user("user", None), Vec::new()).is_err());
    let found = get_config(&admin, "ctf_name", Some(row(1, "ctf_name", "Site"))).ok().unwrap();
    assert_eq!(found.value.as_deref(), Some("Site"));
    assert_eq!(
        get_config(&admin, "stranger", None).err().unwrap().message,
        "Configuration setting not found"
    );
    assert_eq!(
        get_config(&admin, "ctf_name", None).err().unwrap().message,
        "Configuration not found"
    );
}

#[test]
fn the_mode_is_not_changed_in_passing() {
    let admin = user("admin", None);
    assert!(create_config(&admin, "ctf_name").is_ok());
    assert_eq!(create_config(&admin, "user_mode").unwrap_err().kind, ErrorKind::Conflict);
    let changes = vec![("user_mode".to_owned(), "teams".to_owned())];
    assert!(reject_direct_user_mode_change(&changes, "teams").is_ok());
    assert_eq!(
        reject_direct_user_mode_change(&changes, "users").unwrap_err().message,
        direct_user_mode_change_error().message
    );
    assert!(reject_direct_user_mode_change(&Vec::new(), "users").is_ok());
    assert_eq!(changed_value(&changes).unwrap(), "teams");
    assert_eq!(
        changed_value(&Vec::new()).unwrap_err().message,
        "Configuration mutation is empty"
    );
}

#[test]
fn only_records_are_deleted_by_number() {
    assert_eq!(
        delete_integer_id("comments").unwrap(),
        "DELETE FROM ctfzone.comments WHERE id=$1"
    );
    assert!(delete_integer_id("users").is_err());
}

#[test]
fn allowlists_are_searched_page_by_page() {
    let admin = user("admin", None);
    let page = list_registration_emails(&admin, Some(2), Some(500), Some(" 50% ")).ok().unwrap();
    assert_eq!((page.page, page.per_page, page.offset), (2, 200, 200));
    assert_eq!(page.pattern, "%50\\%%");
    assert!(list_registration_emails(&admin, None, None, Some("a\u{7}b")).is_err());
    assert_eq!(page_count(0, 50), 0);
    assert_eq!(page_count(101, 50), 3);
}

#[test]
fn allowlisted_addresses_are_normal() {
    let admin = user("admin", None);
    assert_eq!(
        create_registration_email(&admin, " Ada@Example.org ", false).unwrap(),
        "ada@example.org"
    );
    assert!(create_registration_email(&admin, "nobody", false).is_err());
    assert!(create_registration_email(&admin, "ada@example.org", true).is_err());
    assert!(delete_registration_email(&admin, true, false).is_ok());
    assert_eq!(
        delete_registration_email(&admin, false, false).unwrap_err().kind,
        ErrorKind::NotFound
    );
    assert_eq!(
        delete_registration_email(&admin, true, true).unwrap_err().kind,
        ErrorKind::Conflict
    );
}

#[test]
fn address_lists_are_imported() {
    let admin = user("admin", None);
    let document = b"name,email\nAda,Ada@Example.org\nBob,bob@example.org\nAda,ada@example.org\n";
    let addresses = import_registration_emails(&admin, Some(document)).ok().unwrap();
    assert!(addresses.contains(&"ada@example.org".to_owned()));
    assert!(addresses.contains(&"bob@example.org".to_owned()));
    assert!(import_registration_emails(&admin, None).is_err());
    assert!(import_registration_emails(&admin, Some(b"name\nAda\n")).is_err());
    let plan = plan_import(
        &vec!["a@x.org".to_owned(), "b@x.org".to_owned(), "c@x.org".to_owned()],
        &vec!["a@x.org".to_owned()],
        &vec!["c@x.org".to_owned()],
    );
    assert_eq!(plan.added, vec!["b@x.org".to_owned()]);
    assert_eq!(plan.skipped_administrators, 1);
}

#[test]
fn uploads_are_decoded() {
    assert_eq!(decode_upload("caf\u{e9}".as_bytes()).unwrap(), "caf\u{e9}");
    assert_eq!(decode_upload(b"\xef\xbb\xbfmail").unwrap(), "mail");
    assert_eq!(decode_upload(b"caf\xe9").unwrap(), "caf\u{e9}");
}

fn content(label: &str, endpoint: &str) -> PageContent {
    PageContent {
        label: label.to_owned(),
        endpoint: endpoint.to_owned(),
        content: "<p>x</p>".to_owned(),
        visibility: "public".to_owned(),
        navigation_order: 2,
    }
}

#[test]
fn pages_are_written_and_read() {
    let admin = user("admin", None);
    let page = create_page(&admin, &content(" Rules ", "/rules")).ok().unwrap();
    assert_eq!((page.label.as_str(), page.endpoint.as_str()), ("Rules", "rules"));
    assert!(create_page(&admin, &content("Rules", "admin")).is_err());
    let stored = StoredPage {
        page: content("Rules", "rules"),
        page_type: "custom".to_owned(),
        revision: 4,
    };
    let mut patch = PagePatch {
        revision: 4,
        label: Some("House rules".to_owned()),
        endpoint: None,
        content: None,
        visibility: None,
        navigation_order: None,
    };
    let changed = update_page(&admin, &patch, Some(&stored)).ok().unwrap();
    assert_eq!(changed.label, "House rules");
    assert_eq!(changed.endpoint, "rules");
    patch.revision = 3;
    assert_eq!(
        update_page(&admin, &patch, Some(&stored)).err().unwrap().kind,
        ErrorKind::Conflict
    );
    assert!(public_page_response(None, Some("public")).is_ok());
    assert!(public_page_response(None, Some("private")).is_err());
    assert!(public_page_response(None, None).is_err());
    assert!(delete_page(&admin, Some("custom")).is_ok());
    assert!(delete_page(&admin, Some("home")).is_err());
    assert!(delete_page(&admin, None).is_err());
    assert!(sync_system_page_visibility("challenges", "private").is_ok());
}

#[test]
fn categories_are_written_and_kept_while_used() {
    let admin = user("admin", None);
    let web = Category {
        name: " Web ".to_owned(),
        logo_key: Some("web".to_owned()),
        logo_color: Some("#A1B2C3".to_owned()),
    };
    let created = create_challenge_category(&admin, &web).ok().unwrap();
    assert_eq!(created.name, "Web");
    assert_eq!(created.logo_color.as_deref(), Some("#a1b2c3"));
    let patch = CategoryPatch {
        name: Some(Json::Text("Net".to_owned())),
        logo_key: None,
        logo_color: None,
    };
    let changed = update_challenge_category(&admin, &patch, Some(&created)).ok().unwrap();
    assert_eq!(changed.name, "Net");
    assert_eq!(changed.logo_key.as_deref(), Some("web"));
    assert!(delete_challenge_category(&admin, true, false).is_ok());
    assert_eq!(
        delete_challenge_category(&admin, true, true).unwrap_err().kind,
        ErrorKind::Conflict
    );
    assert!(delete_challenge_category(&admin, false, false).is_err());
}
