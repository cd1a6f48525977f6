use std::collections::HashSet;

use ctfzone_api::auth::{Credential, CurrentUser};
use ctfzone_api::bootstrap::{
    config, config_bool, config_i64, data, optional_config, score_account, site_config,
    site_settings, BootstrapData, BootstrapUser, ScoreAccount, SiteConfig,
};
use ctfzone_api::catalog::{
    account_group, catalog, known_catalog_setting, legacy_catalog_setting, options,
    parse_stored_value, setting_type, stored_rows, SettingValue,
};
use ctfzone_api::config::{Config, ObjectStorageConfig};
use ctfzone_api::config_changes::{
    delete_legacy, normalize_mutations, text_under, user_mode_changes, validate_cross_fields,
    validate_user_mode_transition, Proposal, Values,
};
use ctfzone_api::configuration::{
    is_sensitive_key, normalize_value, parse_bool_text, validate_key, PublicConfig, StoredConfig,
};
use ctfzone_api::error::{ApiError, ErrorKind};
use ctfzone_api::json::{Json, Number};
use ctfzone_api::settings_table::{
    account_groups, account_setting_order, sections, setting, settings,
};

fn converted(value: &serde_json::Value) -> Json {
    match value {
        serde_json::Value::Null => Json::Null,
        serde_json::Value::Bool(flag) => Json::Bool(*flag),
        serde_json::Value::Number(number) => Json::Number(Number {
            text: number.to_string(),
            integer: number.as_i64(),
        }),
        serde_json::Value::String(text) => Json::Text(text.clone()),
        serde_json::Value::Array(items) => Json::Array(items.iter().map(converted).collect()),
        serde_json::Value::Object(fields) => Json::Object(
            fields
                .iter()
                .map(|(key, value)| (key.clone(), converted(value)))
                .collect(),
        ),
    }
}

fn json(text: &str) -> Json {
    converted(&serde_json::from_str(text).unwrap())
}

fn normalized(key: &str, text: &str, current: Option<&str>) -> Result<String, ApiError> {
    normalize_value(key, &json(text), text, current)
}

fn values(entries: &[(&str, &str)]) -> Values {
    let mut values = Values::new();
    for (key, value) in entries {
        values.insert((*key).to_owned(), (*value).to_owned());
    }
    values
}

#[test]
fn stored_settings_read_back() {
    for (key, text) in [
        ("ctf_name", "\"  Example CTF \""),
        ("domain_whitelist", "\"Example.org,*.Example.com ,example.org\""),
        ("verify_emails", "\"YES\""),
        ("verify_emails", "false"),
        ("start", "1700000000"),
        ("start", "null"),
        ("password_min_length", "\" 12 \""),
        ("score_visibility", "\" public \""),
        ("ctf_description", "\"  <style></style>  \""),
        ("something_else", "[1, 2]"),
    ] {
        let stored = match normalized(key, text, None) {
            Ok(stored) => stored,
            Err(error) => panic!("{key}: {}", error.message),
        };
        let again = normalize_value(key, &Json::Text(stored.clone()), "other", Some("current"));
        assert_eq!(again.unwrap(), stored);
    }
    assert_eq!(
        normalized("domain_whitelist", "\"Example.org,*.Example.com ,example.org\"", None).unwrap(),
        "example.org, *.example.com"
    );
}

#[test]
fn sensitive_values_never_serialize() {
    let sentinel = "do-not-leak".to_owned();
    for key in [
        "registration_code",
        "mail_password",
        "mailgun_api_key",
        "legacy_token",
        "SMTP_PASSWORD",
        "CUSTOM_TOKEN",
        "MAILGUN_API_KEY",
    ] {
        let public = PublicConfig::from(StoredConfig {
            id: 1,
            key: Some(key.to_owned()),
            value: Some(sentinel.clone()),
        });
        assert!(public.value.is_none());
        assert_ne!(public.key.as_deref(), Some(sentinel.as_str()));
        assert!(public.configured);
        assert!(public.sensitive);
    }
    let listed = legacy_catalog_setting("custom_secret", Some(&sentinel));
    assert!(listed.value.is_none());
    assert!(listed.effective.is_none());
    assert!(listed.stored.is_none());
    assert!(listed.default.is_none());
    for text in [&listed.key, &listed.label, &listed.help] {
        assert!(!text.contains(&sentinel));
    }
}

#[test]
fn plain_values_are_shown() {
    let public = PublicConfig::from(StoredConfig {
        id: 2,
        key: Some("ctf_name".to_owned()),
        value: Some("Site".to_owned()),
    });
    assert_eq!(public.value.as_deref(), Some("Site"));
    assert!(!public.sensitive);
    assert!(is_sensitive_key("legacy_token"));
    assert!(!is_sensitive_key("ctf_name"));
}

#[test]
fn catalog_covers_every_known_runtime_setting() {
    let table = settings();
    let keys = table
        .iter()
        .map(|setting| setting.key)
        .collect::<HashSet<_>>();
    for key in [
        "ctf_name",
        "ctf_description",
        "player_frontend",
        "user_mode",
        "start",
        "end",
        "freeze",
        "paused",
        "view_after_ctf",
        "score_visibility",
        "account_visibility",
        "registration_visibility",
        "registration_access_mode",
        "registration_code",
        "domain_whitelist",
        "domain_blacklist",
        "num_users",
        "password_min_length",
        "name_changes",
        "team_creation",
        "team_size",
        "num_teams",
        "team_disbanding",
        "verify_emails",
        "challenge_visibility",
        "incorrect_submissions_per_min",
        "max_attempts_behavior",
        "max_attempts_timeout",
        "challenge_ratings",
        "hints_free_public_access",
        "view_self_submissions",
        "mail_provider",
        "mail_server",
        "mail_port",
        "mail_username",
        "mail_password",
        "mail_ssl",
        "mail_tls",
        "mailfrom_addr",
        "user_creation_email_subject",
        "mailgun_base_url",
        "mailgun_api_key",
    ] {
        assert!(keys.contains(key), "missing catalog definition for {key}");
    }
}

#[test]
fn catalog_sections_and_keys_are_unique_and_complete() {
    let all_sections = sections();
    let section_ids = all_sections
        .iter()
        .map(|section| section.id)
        .collect::<HashSet<_>>();
    assert_eq!(section_ids.len(), all_sections.len());
    let table = settings();
    let keys = table
        .iter()
        .map(|setting| setting.key)
        .collect::<HashSet<_>>();
    assert_eq!(keys.len(), table.len());
    for definition in &table {
        assert!(
            section_ids.contains(definition.section),
            "unknown section {} for {}",
            definition.section,
            definition.key
        );
    }
}

#[test]
fn account_and_registration_settings_share_one_ordered_grouped_section() {
    let all_sections = sections();
    let section_ids = all_sections
        .iter()
        .map(|section| section.id)
        .collect::<Vec<_>>();
    assert!(section_ids.contains(&"accounts"));
    assert!(!section_ids.contains(&"registration"));
    assert_eq!(
        all_sections
            .iter()
            .find(|section| section.id == "accounts")
            .unwrap()
            .title,
        "Accounts & registration"
    );

    let order = account_setting_order();
    assert_eq!(
        order,
        [
            "user_mode",
            "num_users",
            "password_min_length",
            "name_changes",
            "verify_emails",
            "team_creation",
            "team_size",
            "num_teams",
            "team_disbanding",
            "registration_visibility",
            "registration_access_mode",
            "registration_code",
            "domain_whitelist",
            "domain_blacklist",
        ]
    );
    for key in &order {
        let definition = setting(key).unwrap_or_else(|| panic!("missing definition for {key}"));
        assert_eq!(definition.section, "accounts");
        assert!(account_group(key).is_some(), "missing group for {key}");
    }
    assert_eq!(
        account_groups()
            .iter()
            .map(|group| group.id)
            .collect::<Vec<_>>(),
        vec![
            "account_type",
            "participant_accounts",
            "team_accounts",
            "registration_access",
        ]
    );
    for (group, expected) in [
        ("account_type", vec!["user_mode"]),
        (
            "participant_accounts",
            vec![
                "num_users",
                "password_min_length",
                "name_changes",
                "verify_emails",
            ],
        ),
        (
            "team_accounts",
            vec!["team_creation", "team_size", "num_teams", "team_disbanding"],
        ),
        (
            "registration_access",
            vec![
                "registration_visibility",
                "registration_access_mode",
                "registration_code",
                "domain_whitelist",
                "domain_blacklist",
            ],
        ),
    ] {
        assert_eq!(
            order
                .iter()
                .copied()
                .filter(|key| account_group(key).is_some_and(|value| value.id == group))
                .collect::<Vec<_>>(),
            expected
        );
    }
    for key in ["team_creation", "team_size", "num_teams", "team_disbanding"] {
        assert_eq!(
            setting(key).unwrap().depends_on,
            Some(("user_mode", "teams"))
        );
    }
}

#[test]
fn validates_types_ranges_enums_and_cross_fields() {
    assert_eq!(normalized("paused", "true", None).unwrap(), "true");
    assert!(normalized("paused", "\"perhaps\"", None).is_err());
    assert_eq!(normalized("mail_port", "587", None).unwrap(), "587");
    assert!(normalized("mail_port", "70000", None).is_err());
    assert!(normalized("score_visibility", "\"world\"", None).is_err());
    assert!(normalized("setup", "true", None).is_err());
    assert!(normalized("start", "-1", None).is_err());
    assert!(normalized("start", "253402300800", None).is_err());
    assert!(normalized("social_shares", "true", None).is_err());
    assert!(normalized("mailgun_base_url", "\"file:///etc/passwd\"", None).is_err());
    assert!(normalized("mailfrom_addr", "\"not-an-email\"", None).is_err());
    assert!(normalized("mailfrom_addr", "\"CTF <ctf@example.org>\"", None).is_ok());
    assert_eq!(
        normalized(
            "domain_whitelist",
            "\" Example.org, *.Students.Example.org \"",
            None,
        )
        .unwrap(),
        "example.org, *.students.example.org"
    );
    assert!(
        normalized("domain_blacklist", "\"*\"", None).is_err(),
        "wildcards must identify a concrete subdomain suffix"
    );
    assert!(normalized(
        "mailgun_base_url",
        "\"https://api.mailgun.example/v3/event\"",
        None
    )
    .is_ok());

    let mut schedule = values(&[("start", "200"), ("end", "100")]);
    assert!(validate_cross_fields(&schedule).is_err());
    schedule.insert("end".to_owned(), "300".to_owned());
    schedule.insert("freeze".to_owned(), "400".to_owned());
    assert!(validate_cross_fields(&schedule).is_err());
    schedule.insert("freeze".to_owned(), "250".to_owned());
    schedule.insert("mail_ssl".to_owned(), "true".to_owned());
    schedule.insert("mail_tls".to_owned(), "true".to_owned());
    assert!(validate_cross_fields(&schedule).is_err());

    let mut verification = values(&[("verify_emails", "true")]);
    assert!(validate_cross_fields(&verification).is_err());
    verification.insert("mailfrom_addr".to_owned(), "ctf@example.org".to_owned());
    verification.insert("mail_provider".to_owned(), "smtp".to_owned());
    verification.insert("mail_server".to_owned(), "smtp.example.org".to_owned());
    assert!(validate_cross_fields(&verification).is_ok());
    verification.insert("mail_provider".to_owned(), "disabled".to_owned());
    assert!(validate_cross_fields(&verification).is_err());
}

#[test]
fn empty_secret_means_keep_and_null_means_clear() {
    assert_eq!(
        normalized("mail_password", "\"\"", Some("old")).unwrap(),
        "old"
    );
    assert_eq!(
        normalized("mail_password", "null", Some("old")).unwrap(),
        ""
    );
    assert_eq!(
        normalized("mail_password", "\"new\"", Some("old")).unwrap(),
        "new"
    );
}

#[test]
fn missing_rows_have_typed_defaults_without_becoming_configured() {
    let paused = known_catalog_setting(&setting("paused").unwrap(), None);
    assert!(!paused.configured);
    assert!(matches!(paused.effective, Some(SettingValue::Flag(false))));
    assert!(paused.stored.is_none());
    let secret = known_catalog_setting(&setting("registration_code").unwrap(), None);
    assert!(!secret.configured);
    assert!(secret.value.is_none());
    assert!(secret.effective.is_none());
    let creation = known_catalog_setting(&setting("team_creation").unwrap(), None);
    assert!(matches!(creation.effective, Some(SettingValue::Flag(true))));
    let team_size = known_catalog_setting(&setting("team_size").unwrap(), None);
    assert!(matches!(team_size.effective, Some(SettingValue::Integer(0))));
}

#[test]
fn catalogs_list_stored_values_and_strangers() {
    let rows = vec![
        (Some("paused".to_owned()), Some("true".to_owned())),
        (Some("zz_custom".to_owned()), Some("7".to_owned())),
    ];
    let listed = catalog(&stored_rows(&rows));
    let all = listed
        .iter()
        .flat_map(|section| section.settings.iter())
        .collect::<Vec<_>>();
    let paused = all.iter().find(|setting| setting.key == "paused").unwrap();
    assert!(paused.configured);
    assert!(matches!(paused.stored, Some(SettingValue::Flag(true))));
    let stranger = all.iter().find(|setting| setting.key == "zz_custom").unwrap();
    assert!(stranger.advanced);
}

#[test]
fn kinds_have_words_and_options() {
    let port = setting("mail_port").unwrap();
    assert_eq!(setting_type(port.kind), "integer");
    assert!(matches!(parse_stored_value(port.kind, "587"), Some(SettingValue::Integer(587))));
    assert!(parse_stored_value(port.kind, "many").is_none());
    assert!(options(port.kind).is_empty());
    let mode = setting("user_mode").unwrap();
    let offered = options(mode.kind)
        .iter()
        .map(|option| option.value)
        .collect::<Vec<_>>();
    assert_eq!(offered, vec!["users", "teams"]);
    assert!(setting("ctf_name").unwrap().kind_is_string());
    assert!(!port.kind_is_string());
}

#[test]
fn keys_and_words_are_checked() {
    assert!(validate_key("custom_key").is_ok());
    assert!(validate_key("").is_err());
    assert!(validate_key("no spaces").is_err());
    assert_eq!(parse_bool_text(" Yes "), Some(true));
    assert_eq!(parse_bool_text("0"), Some(false));
    assert_eq!(parse_bool_text("2"), None);
}

fn proposal(key: &str, text: &str) -> Proposal {
    Proposal { key: key.to_owned(), value: json(text), compact: text.to_owned() }
}

#[test]
fn changes_are_read_together() {
    let rows = vec![(Some("start".to_owned()), Some("100".to_owned()))];
    let (merged, changes) =
        normalize_mutations(&rows, &vec![proposal("end", "200"), proposal("paused", "\"yes\"")])
            .ok()
            .unwrap();
    assert_eq!(changes.len(), 2);
    assert_eq!(text_under(&merged, "start"), Some("100"));
    assert_eq!(text_under(&merged, "end"), Some("200"));
    assert_eq!(text_under(&merged, "paused"), Some("true"));
    assert!(normalize_mutations(&rows, &vec![proposal("end", "50")]).is_err());
    assert!(normalize_mutations(&rows, &vec![proposal("private_challenges", "true")]).is_err());
    assert!(!user_mode_changes(&changes, Some("users"), &merged));
    assert!(validate_user_mode_transition(false, true).is_ok());
    assert!(validate_user_mode_transition(true, false).is_ok());
    assert!(validate_user_mode_transition(true, true).is_err());
}

#[test]
fn known_settings_are_not_deleted() {
    assert!(delete_legacy("old_theme").is_ok());
    assert_eq!(delete_legacy("ctf_name").unwrap_err().kind, ErrorKind::BadRequest);
    assert!(delete_legacy("setup").is_err());
}

#[test]
fn bootstrap_contract_has_shell_score_but_no_csrf_token() {
    let BootstrapData { setup_required, authenticated, user, site } = BootstrapData {
        setup_required: false,
        authenticated: true,
        user: Some(BootstrapUser {
            id: 1,
            name: Some("admin".to_owned()),
            email: Some("admin@example.test".to_owned()),
            user_type: "admin".to_owned(),
            team_id: None,
            verified: true,
            score: 42,
            place: None,
        }),
        site: SiteConfig {
            name: "CTFZone".to_owned(),
            description: String::new(),
            player_frontend: "terminal".to_owned(),
            user_mode: "users".to_owned(),
            team_creation: true,
            team_size: 0,
            num_teams: 0,
            start: None,
            end: None,
            paused: false,
            challenge_visibility: "private".to_owned(),
            score_visibility: "public".to_owned(),
            account_visibility: "public".to_owned(),
            registration_visibility: "public".to_owned(),
            registration_access_mode: "access_code".to_owned(),
        },
    };
    assert!(!setup_required && authenticated);
    let BootstrapUser { id, name, email, user_type, team_id, verified, score, place } =
        user.unwrap();
    assert_eq!((id, score, verified, team_id), (1, 42, true, None));
    assert_eq!(name.as_deref(), Some("admin"));
    assert_eq!(email.as_deref(), Some("admin@example.test"));
    assert_eq!(user_type, "admin");
    assert!(place.is_none());
    let SiteConfig {
        name,
        description,
        player_frontend,
        user_mode,
        team_creation,
        team_size,
        num_teams,
        start,
        end,
        paused,
        challenge_visibility,
        score_visibility,
        account_visibility,
        registration_visibility,
        registration_access_mode,
    } = site;
    assert_eq!(name, "CTFZone");
    assert_eq!(description, "");
    assert_eq!(user_mode, "users");
    assert_eq!(player_frontend, "terminal");
    assert_eq!(registration_access_mode, "access_code");
    assert!(team_creation);
    assert_eq!(team_size, 0);
    assert_eq!(num_teams, 0);
    assert!(start.is_none() && end.is_none() && !paused);
    assert_eq!(challenge_visibility, "private");
    for word in [score_visibility, account_visibility, registration_visibility] {
        assert_eq!(word, "public");
    }
}

#[test]
fn public_config_defaults_are_stable() {
    let configs = values(&[]);
    assert_eq!(config(&configs, "ctf_name", "CTFZone"), "CTFZone");
    assert_eq!(config(&configs, "player_frontend", "terminal"), "terminal");
    assert!(!config_bool(&configs, "paused", false));
    assert!(config_bool(&configs, "team_creation", true));
    assert_eq!(config_i64(&configs, "team_size", 0), 0);
    assert_eq!(optional_config(&configs, "start"), None);
    let site = site_config(&configs);
    assert_eq!(site.name, "CTFZone");
    assert_eq!(site.player_frontend, "terminal");
}

#[test]
fn bootstrap_score_uses_the_active_account_mode() {
    assert!(matches!(
        score_account("users", 7, Some(11)),
        Some(ScoreAccount::User(7))
    ));
    assert!(matches!(
        score_account("teams", 7, Some(11)),
        Some(ScoreAccount::Team(11))
    ));
    assert!(score_account("teams", 7, None).is_none());
}

#[test]
fn bootstrap_tells_who_is_signed_in() {
    let rows = vec![(Some("ctf_name".to_owned()), Some("Finals".to_owned()))];
    let configs = site_settings(&rows);
    let user = CurrentUser {
        id: 3,
        name: Some("ada".to_owned()),
        email: None,
        user_type: "user".to_owned(),
        team_id: None,
        verified: true,
        credential: Credential::ApiToken { token_id: 1, label: "cli".to_owned() },
        request_ip: "unknown".to_owned(),
        ip_changed: false,
    };
    let shown = data(Some(user), &configs, true, 120);
    assert!(shown.authenticated && !shown.setup_required);
    assert_eq!(shown.user.unwrap().score, 120);
    assert_eq!(shown.site.name, "Finals");
    let visitor = data(None, &configs, false, 0);
    assert!(!visitor.authenticated && visitor.setup_required);
}

fn environment() -> Vec<(String, String)> {
    [
        ("API_SIGNING_KEY", "signing"),
        ("BACKEND_SERVICE_TOKEN", "backend"),
        ("SETUP_TOKEN", "setup"),
        ("DATABASE_URL", "postgres://db/ctfzone"),
        ("CADDY_SITE_ADDRESS", "https://ctf.example.org"),
        ("OBJECT_STORAGE_ACCESS_KEY", "access"),
        ("OBJECT_STORAGE_SECRET_KEY", "secret"),
        ("OBJECT_STORAGE_BUCKET", "ctfzone"),
        ("OBJECT_STORAGE_INTERNAL_URL", "http://storage:8333"),
        ("OBJECT_STORAGE_PUBLIC_URL", "https://files.example.org"),
    ]
    .iter()
    .map(|(key, value)| ((*key).to_owned(), (*value).to_owned()))
    .collect()
}

#[test]
fn environments_are_read() {
    assert!(Config::from_env(&Vec::new(), true).is_err());
    assert!(ObjectStorageConfig::from_env(&Vec::new()).is_err());
    let config = Config::from_env(&environment(), true).ok().unwrap();
    assert_eq!(config.database_max_connections, 10);
    assert_eq!(config.email_verification_ttl_seconds, 1800);
    assert_eq!(config.session_lifetime_seconds, 604_800);
    assert_eq!(config.object_storage.bucket, "ctfzone");
    assert_eq!(config.object_storage.presign_ttl_seconds, 900);
    assert_eq!(
        Config::from_env(&environment(), false).err().unwrap(),
        "CTFZONE_API_BIND must be a valid socket address"
    );
    let mut short = environment();
    short.push(("EMAIL_VERIFICATION_TTL_SECONDS".to_owned(), "299".to_owned()));
    assert!(Config::from_env(&short, true).is_err());
}
