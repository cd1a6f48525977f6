use ctfzone_api::auth::{
    authenticate_api_token, authenticate_browser_session, authorization_token, authorize_identity,
    find_cookie, is_safe_method, record_activity, require_admin, require_backend_service,
    require_verified_email, session_of_cookie, sign_in_way, sign_session, verify_signed_session,
    Credential, CurrentUser, Identity, SessionRow, SignInWay, TokenRow,
};
use ctfzone_api::config::{endpoint, validate_bucket};
use ctfzone_api::domains::{
    domain_rule_matches, email_domain_allowed, normalize_domain_rule, normalize_domain_rules,
    valid_dns_domain, valid_email,
};
use ctfzone_api::error::ErrorKind;
use ctfzone_api::moment::Moment;
use ctfzone_api::passwords::{
    hash_password, native_checksum, native_salt, parse, prehash, verify_password,
};
use ctfzone_api::rate_limit::RateLimiter;
use ctfzone_api::register::{
    effective_registration_access_mode, read_applicant, register, registration_destination,
    registration_error, registration_fields, registration_policy, AccessMode, FieldDefinition,
    FieldValue, RegisterFacts, RegisterRead, RegisterStep, RegistrationRefusal,
};
use ctfzone_api::registration::{
    client_ip, initial_settings, login, login_destination, login_error, new_account_email_verified,
    normalize_ctf_name, registration_code_matches, require_setup_token, safe_local_redirect,
    session_id_from_headers, session_response, setup, setup_ctf_name, setup_player_frontend,
    setup_token_matches, validate_player_frontend, LoginFacts, LoginRead, LoginRefusal, LoginStep,
    LoginUser, SetupFacts, SetupForm, SetupRead, SetupStep,
};

const SECRET: &str = "development-only-change-me";
const SESSION_ID: &str = "00000000-0000-4000-8000-000000000000";
const SIGNED_SESSION: &str = "00000000-0000-4000-8000-000000000000.Udd5DKGcJnULVKik_eRs_KyIq_c";

fn identity(user_type: &str) -> Identity {
    Identity {
        id: 7,
        name: Some("ada".to_owned()),
        email: Some("ada@example.org".to_owned()),
        user_type: user_type.to_owned(),
        team_id: Some(3),
        verified: false,
        banned: false,
        team_banned: false,
        change_password: false,
    }
}

fn session_user(user_type: &str) -> CurrentUser {
    CurrentUser {
        id: 7,
        name: None,
        email: None,
        user_type: user_type.to_owned(),
        team_id: None,
        verified: false,
        credential: Credential::BrowserSession {
            session_id: SESSION_ID.to_owned(),
            csrf_nonce: Some("nonce".to_owned()),
        },
        request_ip: "127.0.0.1".to_owned(),
        ip_changed: false,
    }
}

#[test]
fn verifies_python_itsdangerous_signer_output() {
    assert_eq!(
        verify_signed_session(SIGNED_SESSION, SECRET).as_deref(),
        Some(SESSION_ID)
    );
}

#[test]
fn rejects_modified_or_wrongly_signed_sessions() {
    assert!(verify_signed_session(SIGNED_SESSION, "wrong-secret").is_none());
    assert!(verify_signed_session(
        "10000000-0000-4000-8000-000000000000.Udd5DKGcJnULVKik_eRs_KyIq_c",
        SECRET
    )
    .is_none());
}

#[test]
fn parses_named_cookie_from_combined_header() {
    let headers = vec!["language=it; session=signed-value; theme=dark".to_owned()];
    assert_eq!(
        find_cookie(&headers, "session").as_deref(),
        Some("signed-value")
    );
    assert!(find_cookie(&headers, "missing").is_none());
}

#[test]
fn creates_python_itsdangerous_signer_output() {
    assert_eq!(sign_session(SESSION_ID, SECRET), SIGNED_SESSION);
}

#[test]
fn signed_sessions_read_back() {
    let id = "123e4567-e89b-42d3-a456-426614174000";
    let signed = sign_session(id, "key");
    assert_eq!(verify_signed_session(&signed, "key").as_deref(), Some(id));
    assert!(verify_signed_session(&sign_session("no-id", "key"), "key").is_none());
    assert!(verify_signed_session("no-dot", "key").is_none());
    let (start, last) = signed.split_at(signed.len() - 1);
    for symbol in ["A", "B", "C", "D", "E", "F", "G", "H", "-", "_"] {
        if symbol != last {
            assert!(verify_signed_session(&format!("{start}{symbol}"), "key").is_none());
        }
    }
    assert!(verify_signed_session(&format!("{signed}="), "key").is_none());
    assert!(verify_signed_session("a.b.c", "key").is_none());
}

#[test]
fn cookies_name_sessions() {
    assert_eq!(session_of_cookie(Some(SIGNED_SESSION), SECRET).unwrap(), SESSION_ID);
    let wrong = session_of_cookie(Some(SIGNED_SESSION), "other").unwrap_err();
    assert_eq!(wrong.kind, ErrorKind::Unauthorized);
    let missing = session_of_cookie(None, SECRET).unwrap_err();
    assert_eq!(missing.kind, ErrorKind::Forbidden);
}

#[test]
fn authorization_headers_hold_tokens() {
    assert_eq!(authorization_token("Token abc").unwrap(), "abc");
    assert_eq!(authorization_token("Bearer abc").unwrap(), "abc");
    assert_eq!(
        authorization_token("abc").unwrap_err().kind,
        ErrorKind::Unauthorized
    );
    assert_eq!(
        authorization_token("Token ").unwrap_err().kind,
        ErrorKind::Unauthorized
    );
}

#[test]
fn tokens_expire() {
    let row = |seconds: i64| TokenRow {
        identity: identity("admin"),
        token_id: 5,
        description: Some("ci".to_owned()),
        expiration: Moment { seconds, nanos: 0 },
        previous_ip: None,
    };
    let now = Moment { seconds: 100, nanos: 0 };
    let user = authenticate_api_token(Some(row(101)), now, Some("10.0.0.1, 10.0.0.2")).ok().unwrap();
    assert!(user.is_admin());
    assert_eq!(user.request_ip(), "10.0.0.1");
    assert!(user.csrf_token().is_none());
    assert!(authenticate_api_token(Some(row(99)), now, None).is_err());
    assert!(authenticate_api_token(None, now, None).is_err());
}

#[test]
fn sessions_that_change_something_need_their_nonce() {
    let row = || SessionRow {
        identity: identity("user"),
        session_id: SESSION_ID.to_owned(),
        csrf_nonce: Some("nonce".to_owned()),
        last_ip: "10.0.0.1".to_owned(),
    };
    let read = authenticate_browser_session(Some(row()), "GET", None, Some("10.0.0.9")).ok().unwrap();
    assert!(read.ip_changed);
    assert!(!read.is_admin());
    assert_eq!(read.csrf_token(), Some("nonce"));
    assert!(authenticate_browser_session(Some(row()), "POST", Some("nonce"), None).is_ok());
    let refused = authenticate_browser_session(Some(row()), "POST", Some("other"), None)
        .err()
        .unwrap();
    assert_eq!(refused.kind, ErrorKind::Forbidden);
    assert!(authenticate_browser_session(Some(row()), "POST", None, None).is_err());
    assert!(authenticate_browser_session(None, "GET", None, None).is_err());
    assert!(is_safe_method("HEAD") && is_safe_method("OPTIONS") && !is_safe_method("DELETE"));
}

#[test]
fn disabled_accounts_do_not_sign_in() {
    let attempt = |banned: bool, team_banned: bool, change_password: bool| {
        authorize_identity(
            1,
            None,
            None,
            "user".to_owned(),
            None,
            true,
            banned,
            team_banned,
            change_password,
            Credential::ApiToken { token_id: 1, label: "x".to_owned() },
            "unknown".to_owned(),
            false,
        )
    };
    assert!(attempt(false, false, false).is_ok());
    assert_eq!(attempt(true, false, false).err().unwrap().kind, ErrorKind::Forbidden);
    assert_eq!(attempt(false, true, false).err().unwrap().kind, ErrorKind::Forbidden);
    assert_eq!(attempt(false, false, true).err().unwrap().kind, ErrorKind::Forbidden);
}

#[test]
fn administrators_are_told_apart() {
    assert!(require_admin(&session_user("admin")).is_ok());
    let error = require_admin(&session_user("user")).unwrap_err();
    assert_eq!(error.kind.status(), 403);
    assert_eq!(error.message, "Administrator access is required");
}

#[test]
fn addresses_are_verified_where_that_is_asked() {
    let user = session_user("user");
    assert!(require_verified_email(&user, None).is_ok());
    assert!(require_verified_email(&user, Some("false")).is_ok());
    let error = require_verified_email(&user, Some("true")).unwrap_err();
    assert_eq!(error.message, "Email verification is required");
    assert!(require_verified_email(&session_user("admin"), Some("true")).is_ok());
}

#[test]
fn activity_names_its_credential() {
    let token = Credential::ApiToken { token_id: 9, label: "ci".to_owned() };
    let activity = record_activity(&token);
    assert_eq!(activity.api_token_id, Some(9));
    assert!(activity.session_id.is_none());
    assert_eq!(activity.credential_label, "ci");
    let session = Credential::BrowserSession {
        session_id: SESSION_ID.to_owned(),
        csrf_nonce: None,
    };
    let activity = record_activity(&session);
    assert_eq!(activity.session_id.as_deref(), Some(SESSION_ID));
    assert!(activity.api_token_id.is_none());
    assert!(matches!(sign_in_way(true, true), SignInWay::Token));
    assert!(matches!(sign_in_way(false, true), SignInWay::Session));
    assert!(matches!(sign_in_way(false, false), SignInWay::Anonymous));
}

#[test]
fn accepts_only_local_redirects() {
    assert!(safe_local_redirect("/challenges?category=web"));
    assert!(!safe_local_redirect("//example.org"));
    assert!(!safe_local_redirect("https://example.org"));
    assert!(!safe_local_redirect("/ok\r\nLocation: https://example.org"));
    assert!(!safe_local_redirect("/\\evil.example"));
    assert!(!safe_local_redirect("/\\/evil.example"));
    assert!(!safe_local_redirect("/ok\tstill-not-safe"));
    assert!(!safe_local_redirect("/ok\u{7f}"));
    assert!(!safe_local_redirect("/ok\u{85}"));
}

#[test]
fn applies_exact_and_wildcard_domain_rules() {
    assert!(domain_rule_matches("example.org", "example.org"));
    assert!(!domain_rule_matches("example.org", "sub.example.org"));
    assert!(domain_rule_matches("*.example.org", "sub.example.org"));
    assert!(!domain_rule_matches("*.example.org", "example.org"));
    assert!(!domain_rule_matches("*", "example.org"));
    assert!(!domain_rule_matches("example.*", "example.org"));
}

#[test]
fn registration_domain_policy_requires_allow_and_not_deny() {
    assert!(email_domain_allowed("user@example.org", "", ""));
    assert!(email_domain_allowed(
        "user@students.example.org",
        "*.example.org",
        ""
    ));
    assert!(!email_domain_allowed(
        "user@elsewhere.org",
        "*.example.org",
        ""
    ));
    assert!(!email_domain_allowed(
        "user@blocked.example.org",
        "*.example.org",
        "blocked.example.org"
    ));
}

#[test]
fn normalizes_and_validates_domain_rule_lists() {
    assert_eq!(
        normalize_domain_rules(" Example.ORG, *.Students.Example.org, example.org, ").unwrap(),
        "example.org, *.students.example.org"
    );
    for invalid in [
        "*",
        "example.*",
        "https://example.org",
        ".example.org",
        "example.org.",
        "under_score.example.org",
        "-bad.example.org",
        "localhost",
    ] {
        assert!(normalize_domain_rules(invalid).is_err(), "{invalid}");
    }
}

#[test]
fn normal_rules_stay_as_they_are() {
    let once = normalize_domain_rules("B.example, a.EXAMPLE").unwrap();
    assert_eq!(normalize_domain_rules(&once).unwrap(), once);
    assert_eq!(normalize_domain_rule(" *.Example.org ").as_deref(), Some("*.example.org"));
    assert!(normalize_domain_rule("*.localhost").is_none());
    assert!(valid_dns_domain("a-b.example"));
    assert!(!valid_dns_domain("a..example"));
    assert!(valid_email("a@example.org"));
    assert!(!valid_email("a b@example.org"));
    assert!(!valid_email("@example.org"));
}

#[test]
fn registration_access_mode_is_explicit_and_validated() {
    for mode in ["open", "domain_rules", "access_code", "email_allowlist"] {
        assert_eq!(effective_registration_access_mode(Some(mode)), mode);
    }
    assert_eq!(effective_registration_access_mode(None), "open");
    assert_eq!(
        effective_registration_access_mode(Some("unsupported")),
        "open"
    );
}

#[test]
fn registration_code_comparison_preserves_ascii_case_insensitivity() {
    assert!(registration_code_matches("Secret-123", "secret-123"));
    assert!(!registration_code_matches("Secret-123", "secret-124"));
}

#[test]
fn application_routes_serve_the_backend_alone() {
    assert!(require_backend_service("service-secret", Some("service-secret")).is_ok());
    for provided in [None, Some(""), Some("service-secre"), Some("service-secret ")] {
        let error = require_backend_service("service-secret", provided).unwrap_err();
        assert_eq!(error.kind.status(), 401);
        assert_eq!(error.message, "Service authentication required");
    }
}

#[test]
fn setup_token_requires_an_exact_constant_time_tag_match() {
    assert!(setup_token_matches("operator-secret", "operator-secret"));
    assert!(!setup_token_matches("operator-secret", ""));
    assert!(!setup_token_matches("operator-secret", "operator-secre"));
    assert!(!setup_token_matches(
        "operator-secret",
        "operator-secret-extra"
    ));

    let response = require_setup_token("operator-secret", "wrong-secret").unwrap_err();
    assert_eq!(response.kind.status(), 403);
}

#[test]
fn browser_created_accounts_start_with_unverified_email() {
    assert!(!new_account_email_verified());
}

#[test]
fn setup_site_identity_is_normalized_and_bounded() {
    assert_eq!(setup_ctf_name(None).unwrap(), "CTFZone");
    assert_eq!(setup_player_frontend(None).unwrap(), "terminal");
    assert_eq!(
        normalize_ctf_name("  Null Sector CTF  ").unwrap(),
        "Null Sector CTF"
    );
    assert!(normalize_ctf_name("").is_err());
    assert!(normalize_ctf_name(" \t\n ").is_err());
    assert!(normalize_ctf_name("Null\nSector").is_err());
    assert!(normalize_ctf_name(&"x".repeat(129)).is_err());
    assert!(normalize_ctf_name(&"x".repeat(128)).is_ok());
}

#[test]
fn player_frontend_is_an_opaque_safe_slug() {
    for value in ["terminal", "classic-2", "theme_dark"] {
        assert!(validate_player_frontend(value).is_ok(), "{value}");
    }
    for value in [
        "",
        "Terminal",
        "-terminal",
        "_terminal",
        "terminal/theme",
        "terminal.theme",
        "terminal theme",
    ] {
        assert!(validate_player_frontend(value).is_err(), "{value}");
    }
    assert!(validate_player_frontend(&"x".repeat(64)).is_ok());
    assert!(validate_player_frontend(&"x".repeat(65)).is_err());
}

#[test]
fn session_success_is_json_and_never_sets_a_cookie() {
    let answer = session_response(
        "00000000-0000-4000-8000-000000000000".to_owned(),
        "/challenges",
    );
    let text = |value: &str| serde_json::Value::String(value.to_owned());
    let data = serde_json::Map::from_iter([
        ("session_id".to_owned(), text(&answer.data.session_id)),
        ("redirect".to_owned(), text(&answer.data.redirect)),
    ]);
    let body = serde_json::Map::from_iter([
        ("success".to_owned(), serde_json::Value::Bool(answer.success)),
        ("data".to_owned(), serde_json::Value::Object(data)),
    ]);
    let response = axum::response::IntoResponse::into_response(axum::Json(body));
    assert_eq!(response.status(), axum::http::StatusCode::OK);
    assert!(!response.headers().contains_key(axum::http::header::SET_COOKIE));
    assert_eq!(
        response
            .headers()
            .get(axum::http::header::CONTENT_TYPE)
            .and_then(|value| value.to_str().ok()),
        Some("application/json")
    );
}

#[test]
fn session_answers_hold_the_session_and_the_destination() {
    let answer = session_response(SESSION_ID.to_owned(), "/challenges");
    assert!(answer.success);
    assert_eq!(answer.data.session_id, SESSION_ID);
    assert_eq!(answer.data.redirect, "/challenges");
}

#[test]
fn the_first_forwarded_address_counts() {
    assert_eq!(client_ip(Some(" 10.0.0.1 , 10.0.0.2")), "10.0.0.1");
    assert_eq!(client_ip(Some("")), "unknown");
    assert_eq!(client_ip(None), "unknown");
    assert_eq!(client_ip(Some(&"1".repeat(47))), "unknown");
}

#[test]
fn signing_in_takes_every_step() {
    let user = LoginUser {
        banned: false,
        team_banned: false,
        change_password: false,
        has_password: true,
    };
    let mut facts = LoginFacts { within_rate: None, user: None, password_matches: None };
    assert!(matches!(
        login("ada", "pw", &facts),
        Ok(LoginStep::Read(LoginRead::RateLimit { limit: 10, seconds: 5 }))
    ));
    facts.within_rate = Some(false);
    assert_eq!(
        login("ada", "pw", &facts).err().unwrap().kind,
        ErrorKind::TooManyRequests
    );
    facts.within_rate = Some(true);
    assert!(matches!(login("ada", "pw", &facts), Ok(LoginStep::FindUser { identity }) if identity == "ada"));
    assert!(matches!(
        login("  ", "pw", &facts),
        Ok(LoginStep::Refuse(LoginRefusal::InvalidCredentials))
    ));
    facts.user = Some(None);
    assert!(matches!(
        login("ada", "pw", &facts),
        Ok(LoginStep::Refuse(LoginRefusal::InvalidCredentials))
    ));
    facts.user = Some(Some(LoginUser { banned: true, ..user }));
    assert!(matches!(
        login("ada", "pw", &facts),
        Ok(LoginStep::Refuse(LoginRefusal::AccountDisabled))
    ));
    facts.user = Some(Some(LoginUser { change_password: true, ..user }));
    assert!(matches!(
        login("ada", "pw", &facts),
        Ok(LoginStep::Refuse(LoginRefusal::PasswordChangeRequired))
    ));
    facts.user = Some(Some(LoginUser { has_password: false, ..user }));
    assert!(matches!(
        login("ada", "pw", &facts),
        Ok(LoginStep::Refuse(LoginRefusal::ExternalAccount))
    ));
    facts.user = Some(Some(user));
    assert!(matches!(login("ada", "pw", &facts), Ok(LoginStep::Read(LoginRead::Password))));
    facts.password_matches = Some(false);
    assert!(matches!(
        login("ada", "pw", &facts),
        Ok(LoginStep::Refuse(LoginRefusal::InvalidCredentials))
    ));
    facts.password_matches = Some(true);
    assert!(matches!(login("ada", "pw", &facts), Ok(LoginStep::SignIn)));
    assert_eq!(login_error(LoginRefusal::ExternalAccount), "external_account");
    assert_eq!(login_destination(Some("/scoreboard")), "/scoreboard");
    assert_eq!(login_destination(Some("//elsewhere")), "/challenges");
    assert_eq!(login_destination(None), "/challenges");
    assert_eq!(session_id_from_headers(Some(SESSION_ID)).as_deref(), Some(SESSION_ID));
    assert!(session_id_from_headers(Some("not-a-session")).is_none());
}

fn setup_form(token: &str) -> SetupForm {
    SetupForm {
        name: " Ada ".to_owned(),
        email: "Ada@Example.org".to_owned(),
        password: "correct horse battery".to_owned(),
        setup_token: token.to_owned(),
        ctf_name: None,
        player_frontend: Some("classic".to_owned()),
    }
}

#[test]
fn a_site_is_set_up_once() {
    let mut facts = SetupFacts { within_rate: Some(true), complete: None, duplicate: None };
    let wrong = setup("token", &setup_form("other"), &facts).err().unwrap();
    assert_eq!(wrong.kind, ErrorKind::Forbidden);
    assert!(matches!(
        setup("token", &setup_form("token"), &facts),
        Ok(SetupStep::Read(SetupRead::Complete))
    ));
    facts.complete = Some(true);
    let again = setup("token", &setup_form("token"), &facts).err().unwrap();
    assert_eq!(again.kind, ErrorKind::Conflict);
    facts.complete = Some(false);
    match setup("token", &setup_form("token"), &facts) {
        Ok(SetupStep::Duplicate { name, email }) => {
            assert_eq!((name.as_str(), email.as_str()), ("Ada", "ada@example.org"));
        }
        _ => panic!("the identity is looked for"),
    }
    facts.duplicate = Some(true);
    let taken = setup("token", &setup_form("token"), &facts).err().unwrap();
    assert_eq!(taken.kind, ErrorKind::Conflict);
    facts.duplicate = Some(false);
    match setup("token", &setup_form("token"), &facts) {
        Ok(SetupStep::Create(site)) => {
            let account = &site.administrator;
            assert_eq!(account.name, "Ada");
            assert_eq!(account.email, "ada@example.org");
            assert_eq!(account.account_type, "admin");
            assert!(account.hidden);
            assert!(!account.banned && !account.verified && !account.change_password);
            assert_eq!(site.password, "correct horse battery");
            assert_eq!(site.ctf_name, "CTFZone");
            assert_eq!(site.player_frontend, "classic");
            let settings = initial_settings(&site);
            assert_eq!(settings.len(), 22);
            assert_eq!(settings[21], ("setup", "true".to_owned()));
            assert_eq!(settings[0], ("ctf_name", "CTFZone".to_owned()));
            assert_eq!(settings[1], ("player_frontend", "classic".to_owned()));
            assert!(settings.contains(&("user_mode", "users".to_owned())));
        }
        _ => panic!("the site can be set up"),
    }
}

fn form(entries: &[(&str, &str)]) -> Vec<(String, String)> {
    entries
        .iter()
        .map(|(key, value)| ((*key).to_owned(), (*value).to_owned()))
        .collect()
}

fn register_facts(access_mode: AccessMode, code: &str) -> RegisterFacts {
    let mut policy = registration_policy(&Vec::new());
    policy.registration_closed = false;
    policy.access_mode = access_mode;
    policy.registration_code = code.to_owned();
    RegisterFacts {
        setup_complete: Some(true),
        within_rate: Some(true),
        policy: Some(policy),
        allowlisted: None,
        duplicate: Some(false),
        bracket_ok: Some(true),
        fields: Some(vec![FieldDefinition { id: 4, required: true, boolean: false }]),
        password_encoded: true,
        participants: Some(0),
    }
}

fn applicant() -> Vec<(String, String)> {
    form(&[
        ("name", "ada"),
        ("email", "Ada@Example.org"),
        ("password", "correct horse battery"),
        ("fields[4]", "blue"),
    ])
}

#[test]
fn applicants_are_read_and_registered() {
    let facts = register_facts(AccessMode::Open, "");
    match register(&applicant(), &facts) {
        Ok(RegisterStep::Create { account, applicant, values, team_mode }) => {
            assert_eq!((account.name.as_str(), account.email.as_str()), ("ada", "ada@example.org"));
            assert_eq!(account.account_type, "user");
            assert!(!account.hidden && !account.banned);
            assert!(!account.verified && !account.change_password);
            assert_eq!(applicant.name, "ada");
            assert_eq!(applicant.email, "ada@example.org");
            assert_eq!(values.len(), 1);
            assert_eq!(values[0].0, 4);
            assert!(matches!(&values[0].1, FieldValue::Text(text) if text == "blue"));
            assert!(!team_mode);
        }
        _ => panic!("the applicant is registered"),
    }
    assert_eq!(registration_destination(true), "/team");
    assert_eq!(registration_destination(false), "/challenges");
}

#[test]
fn registrations_concern_the_applicant() {
    let mut facts = register_facts(AccessMode::Open, "");
    facts.duplicate = None;
    match register(&form(&[
        ("name", " ada "),
        ("email", " Ada@Example.org"),
        ("password", " correct horse battery "),
        ("fields[4]", "blue"),
    ]), &facts) {
        Ok(RegisterStep::Duplicate { name, email }) => {
            assert_eq!((name.as_str(), email.as_str()), ("ada", "ada@example.org"));
        }
        _ => panic!("the identity is looked for"),
    }
    facts.duplicate = Some(false);
    facts.password_encoded = false;
    assert!(matches!(
        register(&applicant(), &facts),
        Ok(RegisterStep::EncodePassword { password }) if password == "correct horse battery"
    ));
    facts.setup_complete = None;
    assert!(matches!(
        register(&applicant(), &facts),
        Ok(RegisterStep::Read(RegisterRead::SetupComplete))
    ));
}

#[test]
fn registration_codes_are_asked_for() {
    let facts = register_facts(AccessMode::AccessCode, "open sesame");
    assert!(matches!(
        register(&applicant(), &facts),
        Ok(RegisterStep::Refuse(RegistrationRefusal::InvalidRegistrationCode))
    ));
    let mut with_code = applicant();
    with_code.push(("registration_code".to_owned(), "OPEN sesame".to_owned()));
    assert!(matches!(
        register(&with_code, &facts),
        Ok(RegisterStep::Create { .. })
    ));
    let empty = register_facts(AccessMode::AccessCode, "");
    assert!(matches!(
        register(&applicant(), &empty),
        Ok(RegisterStep::Refuse(RegistrationRefusal::InvalidRegistrationCode))
    ));
}

#[test]
fn listed_addresses_are_admitted() {
    let mut facts = register_facts(AccessMode::EmailAllowlist, "");
    assert!(matches!(
        register(&applicant(), &facts),
        Ok(RegisterStep::Allowlist { email }) if email == "ada@example.org"
    ));
    facts.allowlisted = Some(false);
    assert!(matches!(
        register(&applicant(), &facts),
        Ok(RegisterStep::Refuse(RegistrationRefusal::EmailNotAllowed))
    ));
    facts.allowlisted = Some(true);
    assert!(matches!(register(&applicant(), &facts), Ok(RegisterStep::Create { .. })));
}

#[test]
fn required_fields_are_filled_in() {
    let fields = vec![
        FieldDefinition { id: 1, required: true, boolean: true },
        FieldDefinition { id: 2, required: false, boolean: false },
    ];
    assert!(registration_fields(&form(&[("fields[2]", "x")]), &fields).is_none());
    let values = registration_fields(&form(&[("fields[1]", "true"), ("fields[2]", "x")]), &fields)
        .unwrap();
    assert_eq!(values.len(), 2);
    assert!(matches!(values[0], (1, FieldValue::Flag(true))));
    assert!(matches!(
        read_applicant(&form(&[("name", "")])),
        Err(RegistrationRefusal::InvalidInput)
    ));
    assert_eq!(
        registration_error(RegistrationRefusal::UserLimitReached),
        "user_limit_reached"
    );
}

#[test]
fn bucket_validation_rejects_ambiguous_names() {
    for invalid in [
        "a",
        "CTFZone",
        "-ctfzone",
        "ctfzone-",
        "ctf..zone",
        "ctf_zone",
    ] {
        assert!(validate_bucket(invalid).is_err(), "{invalid}");
    }
    assert!(validate_bucket("ctfzone-assets-1").is_ok());
}

#[test]
fn public_site_must_be_an_origin() {
    for invalid in [
        "ftp://ctf.example.org",
        "https://user@ctf.example.org",
        "https://ctf.example.org/path",
        "https://ctf.example.org?query=1",
        "https://ctf.example.org/#fragment",
    ] {
        let env = form(&[("CADDY_SITE_ADDRESS", invalid)]);
        assert!(endpoint(&env, "CADDY_SITE_ADDRESS").is_err(), "{invalid}");
    }
    let env = form(&[("CADDY_SITE_ADDRESS", "HTTPS://CTF.example.org")]);
    assert_eq!(
        endpoint(&env, "CADDY_SITE_ADDRESS").unwrap(),
        "https://ctf.example.org/"
    );
}

const PYTHON_FIXTURE: &str =
    "$bcrypt-sha256$v=2,t=2b,r=4$abcdefghijklmnopqrstuu$h8GCYhBqatMGV8VIjRD4nhRxM87r3yu";

#[test]
fn parses_passlib_bcrypt_sha256_fixture() {
    let parsed = parse(PYTHON_FIXTURE).unwrap();
    assert_eq!(parsed.cost, 4);
    assert_eq!(parsed.salt, "abcdefghijklmnopqrstuu");
    assert_eq!(parsed.checksum, "h8GCYhBqatMGV8VIjRD4nhRxM87r3yu");
}

#[test]
fn rejects_non_passlib_hashes() {
    assert!(parse("$2b$12$abcdefghijklmnopqrstuu0123456789012345678901234567890").is_none());
    assert!(parse("$bcrypt-sha256$v=1,t=2b,r=12$bad$bad").is_none());
}

#[test]
fn stored_hashes_are_put_together_and_read() {
    let salt = native_salt("$2a$12$abcdefghijklmnopqrstuu").unwrap();
    assert_eq!(salt, "abcdefghijklmnopqrstuu");
    assert!(native_salt("$2a$12$short").is_none());
    let checksum =
        native_checksum("$2a$12$abcdefghijklmnopqrstuuh8GCYhBqatMGV8VIjRD4nhRxM87r3yu").unwrap();
    assert_eq!(checksum, "h8GCYhBqatMGV8VIjRD4nhRxM87r3yu");
    let stored = hash_password(&salt, &checksum);
    assert_eq!(
        stored,
        "$bcrypt-sha256$v=2,t=2b,r=12$abcdefghijklmnopqrstuu$h8GCYhBqatMGV8VIjRD4nhRxM87r3yu"
    );
    assert_eq!(parse(&stored).unwrap().cost, 12);
    let (hashed, native) = verify_password("password", PYTHON_FIXTURE).unwrap();
    assert_eq!(native, "$2a$04$abcdefghijklmnopqrstuuh8GCYhBqatMGV8VIjRD4nhRxM87r3yu");
    assert_eq!(hashed, prehash("password", "abcdefghijklmnopqrstuu"));
    assert_eq!(hashed, "GiGE9Z5Jn5J4tqoh2UhN++cXZ6rbPMjopxHCnk30Lpo=");
    assert_ne!(hashed, prehash("passwore", "abcdefghijklmnopqrstuu"));
    assert!(verify_password("password", "plain").is_none());
}

const SECOND: u64 = 1_000_000_000;

#[test]
fn isolates_operations_and_subjects() {
    let mut limiter = RateLimiter::new();
    let interval = 60 * SECOND;
    assert!(limiter.allow("login", "one", 1, interval, 0));
    assert!(!limiter.allow("login", "one", 1, interval, 0));
    assert!(limiter.allow("register", "one", 1, interval, 0));
    assert!(limiter.allow("login", "two", 1, interval, 0));
}

#[test]
fn short_windows_do_not_erase_longer_windows() {
    let mut limiter = RateLimiter::new();
    assert!(limiter.allow("verification", "one", 1, 60 * SECOND, 0));
    assert!(limiter.allow("login", "one", 1, 5 * SECOND, 0));
    assert!(!limiter.allow("verification", "one", 1, 60 * SECOND, 0));
}

#[test]
fn windows_open_again_when_they_are_over() {
    let mut limiter = RateLimiter::new();
    assert!(limiter.allow("login", "one", 2, 5 * SECOND, 0));
    assert!(limiter.allow("login", "one", 2, 5 * SECOND, SECOND));
    assert!(!limiter.allow("login", "one", 2, 5 * SECOND, 2 * SECOND));
    assert!(limiter.allow("login", "one", 2, 5 * SECOND, 5 * SECOND));
}
