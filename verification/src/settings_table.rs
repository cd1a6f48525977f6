//! The settings of the site, the sections that they stand in and the values that they take.
use crate::text::same;
use vstd::prelude::*;

verus! {

/// A named set of values.
#[derive(Clone, Copy, Debug, PartialEq, Eq, Structural)]
pub enum OptionSet {
    UserModes,
    Visibility,
    ScoreVisibility,
    RegistrationVisibility,
    RegistrationModes,
    AttemptBehaviors,
    RatingModes,
    TeamDisbanding,
    MailProviders,
}

/// What a setting holds.
#[derive(Clone, Copy, Debug, PartialEq, Eq, Structural)]
pub enum SettingKind {
    /// Text on one line.
    Line,
    Text,
    Boolean,
    Integer { min: i64, max: i64 },
    DateTime,
    Select(OptionSet),
    Secret,
}

#[derive(Clone, Copy, Debug)]
pub struct OptionDefinition {
    pub value: &'static str,
    pub label: &'static str,
}

#[derive(Clone, Copy, Debug)]
pub struct SettingDefinition {
    pub section: &'static str,
    pub key: &'static str,
    pub label: &'static str,
    pub help: &'static str,
    pub kind: SettingKind,
    pub default: &'static str,
    pub required: bool,
    pub read_only: bool,
    pub warning: Option<&'static str>,
    pub danger: Option<&'static str>,
    /// The setting counts only while another one has a value.
    pub depends_on: Option<(&'static str, &'static str)>,
}

impl SettingDefinition {
    pub fn kind_is_string(&self) -> (result: bool)
        ensures
            result == (self.kind is Line),
    {
        match self.kind {
            SettingKind::Line => true,
            _ => false,
        }
    }
}

#[derive(Clone, Copy, Debug)]
pub struct SectionDefinition {
    pub id: &'static str,
    pub title: &'static str,
    pub description: &'static str,
}

#[derive(Clone, Copy, Debug)]
pub struct GroupDefinition {
    pub id: &'static str,
    pub title: &'static str,
    pub description: &'static str,
}

/// The values of a set, in the order in which they are offered.
pub open spec fn option_list(set: OptionSet) -> Seq<OptionDefinition> {
    match set {
        OptionSet::UserModes => seq![
            OptionDefinition { value: "users", label: "Individual users" },
            OptionDefinition { value: "teams", label: "Teams" },
        ],
        OptionSet::Visibility => seq![
            OptionDefinition { value: "public", label: "Public" },
            OptionDefinition { value: "private", label: "Authenticated users" },
            OptionDefinition { value: "admins", label: "Administrators" },
        ],
        OptionSet::ScoreVisibility => seq![
            OptionDefinition { value: "public", label: "Public" },
            OptionDefinition { value: "private", label: "Authenticated users" },
            OptionDefinition { value: "admins", label: "Administrators" },
            OptionDefinition { value: "hidden", label: "Hidden" },
        ],
        OptionSet::RegistrationVisibility => seq![
            OptionDefinition { value: "public", label: "Public" },
            OptionDefinition { value: "private", label: "Closed" },
        ],
        OptionSet::RegistrationModes => seq![
            OptionDefinition { value: "open", label: "Open registration" },
            OptionDefinition { value: "domain_rules", label: "Email domain rules" },
            OptionDefinition { value: "access_code", label: "Access code" },
            OptionDefinition { value: "email_allowlist", label: "Email allowlist" },
        ],
        OptionSet::AttemptBehaviors => seq![
            OptionDefinition { value: "lockout", label: "Permanent lockout" },
            OptionDefinition { value: "timeout", label: "Temporary timeout" },
        ],
        OptionSet::RatingModes => seq![
            OptionDefinition { value: "public", label: "Ratings and totals visible" },
            OptionDefinition { value: "private", label: "Ratings allowed, totals hidden" },
            OptionDefinition { value: "disabled", label: "Disabled" },
        ],
        OptionSet::TeamDisbanding => seq![
            OptionDefinition { value: "inactive_only", label: "Only before competition activity" },
            OptionDefinition { value: "disabled", label: "Disabled" },
        ],
        OptionSet::MailProviders => seq![
            OptionDefinition { value: "auto", label: "Automatic (legacy)" },
            OptionDefinition { value: "disabled", label: "Disabled" },
            OptionDefinition { value: "smtp", label: "SMTP" },
            OptionDefinition { value: "mailgun", label: "Mailgun" },
        ],
    }
}

pub fn option_definitions(set: OptionSet) -> (result: Vec<OptionDefinition>)
    ensures
        result@ == option_list(set),
{
    let result: Vec<OptionDefinition> = match set {
        OptionSet::UserModes => vec![
            OptionDefinition { value: "users", label: "Individual users" },
            OptionDefinition { value: "teams", label: "Teams" },
        ],
        OptionSet::Visibility => vec![
            OptionDefinition { value: "public", label: "Public" },
            OptionDefinition { value: "private", label: "Authenticated users" },
            OptionDefinition { value: "admins", label: "Administrators" },
        ],
        OptionSet::ScoreVisibility => vec![
            OptionDefinition { value: "public", label: "Public" },
            OptionDefinition { value: "private", label: "Authenticated users" },
            OptionDefinition { value: "admins", label: "Administrators" },
            OptionDefinition { value: "hidden", label: "Hidden" },
        ],
        OptionSet::RegistrationVisibility => vec![
            OptionDefinition { value: "public", label: "Public" },
            OptionDefinition { value: "private", label: "Closed" },
        ],
        OptionSet::RegistrationModes => vec![
            OptionDefinition { value: "open", label: "Open registration" },
            OptionDefinition { value: "domain_rules", label: "Email domain rules" },
            OptionDefinition { value: "access_code", label: "Access code" },
            OptionDefinition { value: "email_allowlist", label: "Email allowlist" },
        ],
        OptionSet::AttemptBehaviors => vec![
            OptionDefinition { value: "lockout", label: "Permanent lockout" },
            OptionDefinition { value: "timeout", label: "Temporary timeout" },
        ],
        OptionSet::RatingModes => vec![
            OptionDefinition { value: "public", label: "Ratings and totals visible" },
            OptionDefinition { value: "private", label: "Ratings allowed, totals hidden" },
            OptionDefinition { value: "disabled", label: "Disabled" },
        ],
        OptionSet::TeamDisbanding => vec![
            OptionDefinition { value: "inactive_only", label: "Only before competition activity" },
            OptionDefinition { value: "disabled", label: "Disabled" },
        ],
        OptionSet::MailProviders => vec![
            OptionDefinition { value: "auto", label: "Automatic (legacy)" },
            OptionDefinition { value: "disabled", label: "Disabled" },
            OptionDefinition { value: "smtp", label: "SMTP" },
            OptionDefinition { value: "mailgun", label: "Mailgun" },
        ],
    };
    assert(result@ =~= option_list(set));
    result
}

/// The sections, in the order in which they are shown.
pub open spec fn section_list() -> Seq<SectionDefinition> {
    seq![
        SectionDefinition {
            id: "site",
            title: "Site & interface",
            description: "Event identity and the player presentation.",
        },
        SectionDefinition {
            id: "visibility",
            title: "Visibility & access",
            description: "Who can register and see challenges, accounts, and scores.",
        },
        SectionDefinition {
            id: "schedule",
            title: "Schedule",
            description: "Event timing, scoreboard freeze, and submission availability.",
        },
        SectionDefinition {
            id: "accounts",
            title: "Accounts & registration",
            description: "Participant account type, capacity, team policies, and admission.",
        },
        SectionDefinition {
            id: "challenges",
            title: "Challenges & scoring",
            description: "Submissions, hints, ratings, and participant history.",
        },
        SectionDefinition {
            id: "email",
            title: "Email delivery",
            description: "SMTP or Mailgun delivery used for administrator messages.",
        },
        SectionDefinition {
            id: "advanced",
            title: "Advanced legacy",
            description: "Preserved legacy configuration not currently interpreted by CTFZone.",
        },
    ]
}

pub fn sections() -> (result: Vec<SectionDefinition>)
    ensures
        result@ == section_list(),
{
    let result: Vec<SectionDefinition> = vec![
        SectionDefinition {
            id: "site",
            title: "Site & interface",
            description: "Event identity and the player presentation.",
        },
        SectionDefinition {
            id: "visibility",
            title: "Visibility & access",
            description: "Who can register and see challenges, accounts, and scores.",
        },
        SectionDefinition {
            id: "schedule",
            title: "Schedule",
            description: "Event timing, scoreboard freeze, and submission availability.",
        },
        SectionDefinition {
            id: "accounts",
            title: "Accounts & registration",
            description: "Participant account type, capacity, team policies, and admission.",
        },
        SectionDefinition {
            id: "challenges",
            title: "Challenges & scoring",
            description: "Submissions, hints, ratings, and participant history.",
        },
        SectionDefinition {
            id: "email",
            title: "Email delivery",
            description: "SMTP or Mailgun delivery used for administrator messages.",
        },
        SectionDefinition {
            id: "advanced",
            title: "Advanced legacy",
            description: "Preserved legacy configuration not currently interpreted by CTFZone.",
        },
    ];
    assert(result@ =~= section_list());
    result
}

/// The groups of the section on accounts.
pub open spec fn group_list() -> Seq<GroupDefinition> {
    seq![
        GroupDefinition {
            id: "account_type",
            title: "Account type",
            description: "Choose whether participants compete as individual users or teams.",
        },
        GroupDefinition {
            id: "participant_accounts",
            title: "Participant accounts",
            description: "Common identity, capacity, and account policies for every participant.",
        },
        GroupDefinition {
            id: "team_accounts",
            title: "Team accounts",
            description: "Team creation, membership, capacity, and lifecycle policies.",
        },
        GroupDefinition {
            id: "registration_access",
            title: "Registration access",
            description: "Control whether registration is open and how new participants are admitted.",
        },
    ]
}

pub fn account_groups() -> (result: Vec<GroupDefinition>)
    ensures
        result@ == group_list(),
{
    let result: Vec<GroupDefinition> = vec![
        GroupDefinition {
            id: "account_type",
            title: "Account type",
            description: "Choose whether participants compete as individual users or teams.",
        },
        GroupDefinition {
            id: "participant_accounts",
            title: "Participant accounts",
            description: "Common identity, capacity, and account policies for every participant.",
        },
        GroupDefinition {
            id: "team_accounts",
            title: "Team accounts",
            description: "Team creation, membership, capacity, and lifecycle policies.",
        },
        GroupDefinition {
            id: "registration_access",
            title: "Registration access",
            description: "Control whether registration is open and how new participants are admitted.",
        },
    ];
    assert(result@ =~= group_list());
    result
}

/// The order of the settings in the section on accounts.
pub open spec fn account_order() -> Seq<&'static str> {
    seq![
        "user_mode",
        "num_users",
        "password_min_length",
        "name_changes",
        "verify_emails",
        "team_creation",
        "team_size",
        "num_teams",
        "team_disbanding",
        "registration_visibility",
        "registration_access_mode",
        "registration_code",
        "domain_whitelist",
        "domain_blacklist",
    ]
}

pub fn account_setting_order() -> (result: Vec<&'static str>)
    ensures
        result@ == account_order(),
{
    let result: Vec<&'static str> = vec![
        "user_mode",
        "num_users",
        "password_min_length",
        "name_changes",
        "verify_emails",
        "team_creation",
        "team_size",
        "num_teams",
        "team_disbanding",
        "registration_visibility",
        "registration_access_mode",
        "registration_code",
        "domain_whitelist",
        "domain_blacklist",
    ];
    assert(result@ =~= account_order());
    result
}

/// All settings that the site knows.
pub open spec fn setting_list() -> Seq<SettingDefinition> {
    seq![
        SettingDefinition {
            section: "site",
            key: "ctf_name",
            label: "CTF name",
            help: "Name shown throughout the player and administration interfaces.",
            kind: SettingKind::Line,
            default: "CTFZone",
            required: true,
            read_only: false,
            warning: None,
            danger: None,
            depends_on: None,
        },
        SettingDefinition {
            section: "site",
            key: "ctf_description",
            label: "Description",
            help: "Short event description shown by player frontends.",
            kind: SettingKind::Text,
            default: "",
            required: false,
            read_only: false,
            warning: None,
            danger: None,
            depends_on: None,
        },
        SettingDefinition {
            section: "site",
            key: "player_frontend",
            label: "Player frontend",
            help: "Installed player frontend identifier. The Python presentation service validates that it is installed.",
            kind: SettingKind::Line,
            default: "terminal",
            required: true,
            read_only: false,
            warning: None,
            danger: None,
            depends_on: None,
        },
        SettingDefinition {
            section: "accounts",
            key: "user_mode",
            label: "Competition mode",
            help: "Score and solve participants as individual users or as teams.",
            kind: SettingKind::Select(OptionSet::UserModes),
            default: "users",
            required: true,
            read_only: false,
            warning: Some(
                "Changing competition mode after participants or competition activity exist is blocked.",
            ),
            danger: Some("This changes score ownership and participant workflows."),
            depends_on: None,
        },
        SettingDefinition {
            section: "schedule",
            key: "start",
            label: "Start time",
            help: "Unix timestamp at which non-admin participants may access challenges; leave empty for immediate access.",
            kind: SettingKind::DateTime,
            default: "",
            required: false,
            read_only: false,
            warning: None,
            danger: None,
            depends_on: None,
        },
        SettingDefinition {
            section: "schedule",
            key: "end",
            label: "End time",
            help: "Unix timestamp at which challenge access ends; leave empty for no end time.",
            kind: SettingKind::DateTime,
            default: "",
            required: false,
            read_only: false,
            warning: None,
            danger: None,
            depends_on: None,
        },
        SettingDefinition {
            section: "schedule",
            key: "freeze",
            label: "Scoreboard freeze",
            help: "Unix timestamp after which score changes are hidden; leave empty to disable freezing.",
            kind: SettingKind::DateTime,
            default: "",
            required: false,
            read_only: false,
            warning: None,
            danger: None,
            depends_on: None,
        },
        SettingDefinition {
            section: "schedule",
            key: "paused",
            label: "Pause submissions",
            help: "Reject participant flag submissions while leaving the portal available.",
            kind: SettingKind::Boolean,
            default: "false",
            required: false,
            read_only: false,
            warning: None,
            danger: None,
            depends_on: None,
        },
        SettingDefinition {
            section: "schedule",
            key: "view_after_ctf",
            label: "View challenges after event",
            help: "Allow participants to view challenges after the end time. Submissions remain time-gated.",
            kind: SettingKind::Boolean,
            default: "false",
            required: false,
            read_only: false,
            warning: None,
            danger: None,
            depends_on: None,
        },
        SettingDefinition {
            section: "visibility",
            key: "score_visibility",
            label: "Score visibility",
            help: "Who may view scores and the scoreboard.",
            kind: SettingKind::Select(OptionSet::ScoreVisibility),
            default: "public",
            required: true,
            read_only: false,
            warning: None,
            danger: None,
            depends_on: None,
        },
        SettingDefinition {
            section: "visibility",
            key: "account_visibility",
            label: "Account visibility",
            help: "Who may view participant profiles and account data.",
            kind: SettingKind::Select(OptionSet::Visibility),
            default: "public",
            required: true,
            read_only: false,
            warning: None,
            danger: None,
            depends_on: None,
        },
        SettingDefinition {
            section: "accounts",
            key: "registration_visibility",
            label: "Registration status",
            help: "Open or close the public registration route. The admission policy below is applied only while registration is open.",
            kind: SettingKind::Select(OptionSet::RegistrationVisibility),
            default: "public",
            required: true,
            read_only: false,
            warning: None,
            danger: None,
            depends_on: None,
        },
        SettingDefinition {
            section: "accounts",
            key: "registration_access_mode",
            label: "Admission policy",
            help: "Choose exactly one registration policy. Settings for inactive policies remain stored but are not enforced.",
            kind: SettingKind::Select(OptionSet::RegistrationModes),
            default: "open",
            required: true,
            read_only: false,
            warning: None,
            danger: None,
            depends_on: None,
        },
        SettingDefinition {
            section: "accounts",
            key: "registration_code",
            label: "Registration code",
            help: "Secret code required when registration access uses an access code.",
            kind: SettingKind::Secret,
            default: "",
            required: false,
            read_only: false,
            warning: None,
            danger: None,
            depends_on: Some(("registration_access_mode", "access_code")),
        },
        SettingDefinition {
            section: "accounts",
            key: "domain_whitelist",
            label: "Allowed email domains",
            help: "Comma-separated exact domains or wildcard suffixes such as *.example.org. Empty allows every domain not denied below.",
            kind: SettingKind::Text,
            default: "",
            required: false,
            read_only: false,
            warning: None,
            danger: None,
            depends_on: Some(("registration_access_mode", "domain_rules")),
        },
        SettingDefinition {
            section: "accounts",
            key: "domain_blacklist",
            label: "Denied email domains",
            help: "Comma-separated exact domains or wildcard suffixes denied during registration.",
            kind: SettingKind::Text,
            default: "",
            required: false,
            read_only: false,
            warning: None,
            danger: None,
            depends_on: Some(("registration_access_mode", "domain_rules")),
        },
        SettingDefinition {
            section: "accounts",
            key: "num_users",
            label: "Participant limit",
            help: "Maximum active visible users; 0 means unlimited. Email allowlist mode intentionally bypasses this limit.",
            kind: SettingKind::Integer { min: 0, max: 10_000_000 },
            default: "0",
            required: false,
            read_only: false,
            warning: None,
            danger: None,
            depends_on: None,
        },
        SettingDefinition {
            section: "accounts",
            key: "password_min_length",
            label: "Minimum password length",
            help: "Minimum participant password length for registration and self-service password changes.",
            kind: SettingKind::Integer { min: 0, max: 128 },
            default: "0",
            required: false,
            read_only: false,
            warning: None,
            danger: None,
            depends_on: None,
        },
        SettingDefinition {
            section: "accounts",
            key: "name_changes",
            label: "Allow name changes",
            help: "Allow participants to change their own display name.",
            kind: SettingKind::Boolean,
            default: "true",
            required: false,
            read_only: false,
            warning: None,
            danger: None,
            depends_on: None,
        },
        SettingDefinition {
            section: "accounts",
            key: "team_creation",
            label: "Allow participant team creation",
            help: "Allow participants without a team to create one. Joining an existing team by invite remains available.",
            kind: SettingKind::Boolean,
            default: "true",
            required: false,
            read_only: false,
            warning: None,
            danger: None,
            depends_on: Some(("user_mode", "teams")),
        },
        SettingDefinition {
            section: "accounts",
            key: "team_size",
            label: "Maximum team size",
            help: "Maximum participants per team; 0 means unlimited. Lowering this does not remove existing members.",
            kind: SettingKind::Integer { min: 0, max: 10_000_000 },
            default: "0",
            required: false,
            read_only: false,
            warning: None,
            danger: None,
            depends_on: Some(("user_mode", "teams")),
        },
        SettingDefinition {
            section: "accounts",
            key: "num_teams",
            label: "Maximum number of teams",
            help: "Maximum active visible teams participants may create; 0 means unlimited. Existing teams are not removed, and administrators can still manage teams.",
            kind: SettingKind::Integer { min: 0, max: 10_000_000 },
            default: "0",
            required: false,
            read_only: false,
            warning: None,
            danger: None,
            depends_on: Some(("user_mode", "teams")),
        },
        SettingDefinition {
            section: "accounts",
            key: "team_disbanding",
            label: "Allow team disbanding",
            help: "Allow team captains to disband teams that have no competition activity.",
            kind: SettingKind::Select(OptionSet::TeamDisbanding),
            default: "inactive_only",
            required: false,
            read_only: false,
            warning: None,
            danger: None,
            depends_on: Some(("user_mode", "teams")),
        },
        SettingDefinition {
            section: "accounts",
            key: "verify_emails",
            label: "Require verified email",
            help: "Require email verification before challenge access.",
            kind: SettingKind::Boolean,
            default: "false",
            required: false,
            read_only: false,
            warning: Some(
                "When enabled, unverified participants cannot access challenges. Each user requests and completes verification from their own profile.",
            ),
            danger: None,
            depends_on: None,
        },
        SettingDefinition {
            section: "visibility",
            key: "challenge_visibility",
            label: "Challenge visibility",
            help: "Who may view challenges.",
            kind: SettingKind::Select(OptionSet::Visibility),
            default: "private",
            required: true,
            read_only: false,
            warning: None,
            danger: None,
            depends_on: None,
        },
        SettingDefinition {
            section: "challenges",
            key: "incorrect_submissions_per_min",
            label: "Incorrect submissions per minute",
            help: "Global per-participant incorrect-submission limit.",
            kind: SettingKind::Integer { min: 1, max: 10_000 },
            default: "10",
            required: false,
            read_only: false,
            warning: None,
            danger: None,
            depends_on: None,
        },
        SettingDefinition {
            section: "challenges",
            key: "max_attempts_behavior",
            label: "Maximum-attempt behavior",
            help: "Whether a challenge attempt limit locks permanently or resets after a timeout.",
            kind: SettingKind::Select(OptionSet::AttemptBehaviors),
            default: "lockout",
            required: false,
            read_only: false,
            warning: None,
            danger: None,
            depends_on: None,
        },
        SettingDefinition {
            section: "challenges",
            key: "max_attempts_timeout",
            label: "Attempt timeout",
            help: "Seconds before failed attempts expire when timeout behavior is selected.",
            kind: SettingKind::Integer { min: 1, max: 31_536_000 },
            default: "300",
            required: false,
            read_only: false,
            warning: None,
            danger: None,
            depends_on: Some(("max_attempts_behavior", "timeout")),
        },
        SettingDefinition {
            section: "challenges",
            key: "challenge_ratings",
            label: "Challenge ratings",
            help: "Allow challenge ratings and control whether aggregate ratings are public.",
            kind: SettingKind::Select(OptionSet::RatingModes),
            default: "public",
            required: false,
            read_only: false,
            warning: None,
            danger: None,
            depends_on: None,
        },
        SettingDefinition {
            section: "challenges",
            key: "hints_free_public_access",
            label: "Free hints for guests",
            help: "Allow unauthenticated visitors to read zero-cost hints.",
            kind: SettingKind::Boolean,
            default: "false",
            required: false,
            read_only: false,
            warning: None,
            danger: None,
            depends_on: None,
        },
        SettingDefinition {
            section: "challenges",
            key: "view_self_submissions",
            label: "View own submissions",
            help: "Allow participants to inspect their own submission history.",
            kind: SettingKind::Boolean,
            default: "false",
            required: false,
            read_only: false,
            warning: None,
            danger: None,
            depends_on: None,
        },
        SettingDefinition {
            section: "email",
            key: "mail_provider",
            label: "Email provider",
            help: "Select the delivery provider. Automatic uses a complete Mailgun configuration first, then SMTP. Disabled never sends email.",
            kind: SettingKind::Select(OptionSet::MailProviders),
            default: "auto",
            required: false,
            read_only: false,
            warning: None,
            danger: None,
            depends_on: None,
        },
        SettingDefinition {
            section: "email",
            key: "mail_server",
            label: "SMTP server",
            help: "SMTP server hostname. Used when Mailgun is not fully configured.",
            kind: SettingKind::Line,
            default: "",
            required: false,
            read_only: false,
            warning: None,
            danger: None,
            depends_on: None,
        },
        SettingDefinition {
            section: "email",
            key: "mail_port",
            label: "SMTP port",
            help: "SMTP server port.",
            kind: SettingKind::Integer { min: 1, max: 65_535 },
            default: "587",
            required: false,
            read_only: false,
            warning: None,
            danger: None,
            depends_on: None,
        },
        SettingDefinition {
            section: "email",
            key: "mail_username",
            label: "SMTP username",
            help: "Optional SMTP authentication username.",
            kind: SettingKind::Line,
            default: "",
            required: false,
            read_only: false,
            warning: None,
            danger: None,
            depends_on: None,
        },
        SettingDefinition {
            section: "email",
            key: "mail_password",
            label: "SMTP password",
            help: "Optional SMTP authentication password. Existing values are never returned.",
            kind: SettingKind::Secret,
            default: "",
            required: false,
            read_only: false,
            warning: None,
            danger: None,
            depends_on: None,
        },
        SettingDefinition {
            section: "email",
            key: "mail_ssl",
            label: "Implicit TLS",
            help: "Connect using implicit SMTP TLS. Cannot be enabled with STARTTLS.",
            kind: SettingKind::Boolean,
            default: "false",
            required: false,
            read_only: false,
            warning: None,
            danger: None,
            depends_on: None,
        },
        SettingDefinition {
            section: "email",
            key: "mail_tls",
            label: "STARTTLS",
            help: "Upgrade the SMTP connection with STARTTLS. Cannot be enabled with implicit TLS.",
            kind: SettingKind::Boolean,
            default: "false",
            required: false,
            read_only: false,
            warning: None,
            danger: None,
            depends_on: None,
        },
        SettingDefinition {
            section: "email",
            key: "mailfrom_addr",
            label: "Sender address",
            help: "From address for administrator email messages.",
            kind: SettingKind::Line,
            default: "",
            required: false,
            read_only: false,
            warning: None,
            danger: None,
            depends_on: None,
        },
        SettingDefinition {
            section: "email",
            key: "user_creation_email_subject",
            label: "Email subject",
            help: "Message subject; {ctf_name} is replaced with the configured event name.",
            kind: SettingKind::Line,
            default: "Message from {ctf_name}",
            required: false,
            read_only: false,
            warning: None,
            danger: None,
            depends_on: None,
        },
        SettingDefinition {
            section: "email",
            key: "mailgun_base_url",
            label: "Mailgun API base URL",
            help: "Mailgun messages endpoint base URL. Mailgun is used only when this and its API key are both configured.",
            kind: SettingKind::Line,
            default: "",
            required: false,
            read_only: false,
            warning: None,
            danger: None,
            depends_on: None,
        },
        SettingDefinition {
            section: "email",
            key: "mailgun_api_key",
            label: "Mailgun API key",
            help: "Mailgun API credential. Existing values are never returned.",
            kind: SettingKind::Secret,
            default: "",
            required: false,
            read_only: false,
            warning: None,
            danger: None,
            depends_on: None,
        },
    ]
}

pub fn settings() -> (result: Vec<SettingDefinition>)
    ensures
        result@ == setting_list(),
{
    let result: Vec<SettingDefinition> = vec![
        SettingDefinition {
            section: "site",
            key: "ctf_name",
            label: "CTF name",
            help: "Name shown throughout the player and administration interfaces.",
            kind: SettingKind::Line,
            default: "CTFZone",
            required: true,
            read_only: false,
            warning: None,
            danger: None,
            depends_on: None,
        },
        SettingDefinition {
            section: "site",
            key: "ctf_description",
            label: "Description",
            help: "Short event description shown by player frontends.",
            kind: SettingKind::Text,
            default: "",
            required: false,
            read_only: false,
            warning: None,
            danger: None,
            depends_on: None,
        },
        SettingDefinition {
            section: "site",
            key: "player_frontend",
            label: "Player frontend",
            help: "Installed player frontend identifier. The Python presentation service validates that it is installed.",
            kind: SettingKind::Line,
            default: "terminal",
            required: true,
            read_only: false,
            warning: None,
            danger: None,
            depends_on: None,
        },
        SettingDefinition {
            section: "accounts",
            key: "user_mode",
            label: "Competition mode",
            help: "Score and solve participants as individual users or as teams.",
            kind: SettingKind::Select(OptionSet::UserModes),
            default: "users",
            required: true,
            read_only: false,
            warning: Some(
                "Changing competition mode after participants or competition activity exist is blocked.",
            ),
            danger: Some("This changes score ownership and participant workflows."),
            depends_on: None,
        },
        SettingDefinition {
            section: "schedule",
            key: "start",
            label: "Start time",
            help: "Unix timestamp at which non-admin participants may access challenges; leave empty for immediate access.",
            kind: SettingKind::DateTime,
            default: "",
            required: false,
            read_only: false,
            warning: None,
            danger: None,
            depends_on: None,
        },
        SettingDefinition {
            section: "schedule",
            key: "end",
            label: "End time",
            help: "Unix timestamp at which challenge access ends; leave empty for no end time.",
            kind: SettingKind::DateTime,
            default: "",
            required: false,
            read_only: false,
            warning: None,
            danger: None,
            depends_on: None,
        },
        SettingDefinition {
            section: "schedule",
            key: "freeze",
            label: "Scoreboard freeze",
            help: "Unix timestamp after which score changes are hidden; leave empty to disable freezing.",
            kind: SettingKind::DateTime,
            default: "",
            required: false,
            read_only: false,
            warning: None,
            danger: None,
            depends_on: None,
        },
        SettingDefinition {
            section: "schedule",
            key: "paused",
            label: "Pause submissions",
            help: "Reject participant flag submissions while leaving the portal available.",
            kind: SettingKind::Boolean,
            default: "false",
            required: false,
            read_only: false,
            warning: None,
            danger: None,
            depends_on: None,
        },
        SettingDefinition {
            section: "schedule",
            key: "view_after_ctf",
            label: "View challenges after event",
            help: "Allow participants to view challenges after the end time. Submissions remain time-gated.",
            kind: SettingKind::Boolean,
            default: "false",
            required: false,
            read_only: false,
            warning: None,
            danger: None,
            depends_on: None,
        },
        SettingDefinition {
            section: "visibility",
            key: "score_visibility",
            label: "Score visibility",
            help: "Who may view scores and the scoreboard.",
            kind: SettingKind::Select(OptionSet::ScoreVisibility),
            default: "public",
            required: true,
            read_only: false,
            warning: None,
            danger: None,
            depends_on: None,
        },
        SettingDefinition {
            section: "visibility",
            key: "account_visibility",
            label: "Account visibility",
            help: "Who may view participant profiles and account data.",
            kind: SettingKind::Select(OptionSet::Visibility),
            default: "public",
            required: true,
            read_only: false,
            warning: None,
            danger: None,
            depends_on: None,
        },
        SettingDefinition {
            section: "accounts",
            key: "registration_visibility",
            label: "Registration status",
            help: "Open or close the public registration route. The admission policy below is applied only while registration is open.",
            kind: SettingKind::Select(OptionSet::RegistrationVisibility),
            default: "public",
            required: true,
            read_only: false,
            warning: None,
            danger: None,
            depends_on: None,
        },
        SettingDefinition {
            section: "accounts",
            key: "registration_access_mode",
            label: "Admission policy",
            help: "Choose exactly one registration policy. Settings for inactive policies remain stored but are not enforced.",
            kind: SettingKind::Select(OptionSet::RegistrationModes),
            default: "open",
            required: true,
            read_only: false,
            warning: None,
            danger: None,
            depends_on: None,
        },
        SettingDefinition {
            section: "accounts",
            key: "registration_code",
            label: "Registration code",
            help: "Secret code required when registration access uses an access code.",
            kind: SettingKind::Secret,
            default: "",
            required: false,
            read_only: false,
            warning: None,
            danger: None,
            depends_on: Some(("registration_access_mode", "access_code")),
        },
        SettingDefinition {
            section: "accounts",
            key: "domain_whitelist",
            label: "Allowed email domains",
            help: "Comma-separated exact domains or wildcard suffixes such as *.example.org. Empty allows every domain not denied below.",
            kind: SettingKind::Text,
            default: "",
            required: false,
            read_only: false,
            warning: None,
            danger: None,
            depends_on: Some(("registration_access_mode", "domain_rules")),
        },
        SettingDefinition {
            section: "accounts",
            key: "domain_blacklist",
            label: "Denied email domains",
            help: "Comma-separated exact domains or wildcard suffixes denied during registration.",
            kind: SettingKind::Text,
            default: "",
            required: false,
            read_only: false,
            warning: None,
            danger: None,
            depends_on: Some(("registration_access_mode", "domain_rules")),
        },
        SettingDefinition {
            section: "accounts",
            key: "num_users",
            label: "Participant limit",
            help: "Maximum active visible users; 0 means unlimited. Email allowlist mode intentionally bypasses this limit.",
            kind: SettingKind::Integer { min: 0, max: 10_000_000 },
            default: "0",
            required: false,
            read_only: false,
            warning: None,
            danger: None,
            depends_on: None,
        },
        SettingDefinition {
            section: "accounts",
            key: "password_min_length",
            label: "Minimum password length",
            help: "Minimum participant password length for registration and self-service password changes.",
            kind: SettingKind::Integer { min: 0, max: 128 },
            default: "0",
            required: false,
            read_only: false,
            warning: None,
            danger: None,
            depends_on: None,
        },
        SettingDefinition {
            section: "accounts",
            key: "name_changes",
            label: "Allow name changes",
            help: "Allow participants to change their own display name.",
            kind: SettingKind::Boolean,
            default: "true",
            required: false,
            read_only: false,
            warning: None,
            danger: None,
            depends_on: None,
        },
        SettingDefinition {
            section: "accounts",
            key: "team_creation",
            label: "Allow participant team creation",
            help: "Allow participants without a team to create one. Joining an existing team by invite remains available.",
            kind: SettingKind::Boolean,
            default: "true",
            required: false,
            read_only: false,
            warning: None,
            danger: None,
            depends_on: Some(("user_mode", "teams")),
        },
        SettingDefinition {
            section: "accounts",
            key: "team_size",
            label: "Maximum team size",
            help: "Maximum participants per team; 0 means unlimited. Lowering this does not remove existing members.",
            kind: SettingKind::Integer { min: 0, max: 10_000_000 },
            default: "0",
            required: false,
            read_only: false,
            warning: None,
            danger: None,
            depends_on: Some(("user_mode", "teams")),
        },
        SettingDefinition {
            section: "accounts",
            key: "num_teams",
            label: "Maximum number of teams",
            help: "Maximum active visible teams participants may create; 0 means unlimited. Existing teams are not removed, and administrators can still manage teams.",
            kind: SettingKind::Integer { min: 0, max: 10_000_000 },
            default: "0",
            required: false,
            read_only: false,
            warning: None,
            danger: None,
            depends_on: Some(("user_mode", "teams")),
        },
        SettingDefinition {
            section: "accounts",
            key: "team_disbanding",
            label: "Allow team disbanding",
            help: "Allow team captains to disband teams that have no competition activity.",
            kind: SettingKind::Select(OptionSet::TeamDisbanding),
            default: "inactive_only",
            required: false,
            read_only: false,
            warning: None,
            danger: None,
            depends_on: Some(("user_mode", "teams")),
        },
        SettingDefinition {
            section: "accounts",
            key: "verify_emails",
            label: "Require verified email",
            help: "Require email verification before challenge access.",
            kind: SettingKind::Boolean,
            default: "false",
            required: false,
            read_only: false,
            warning: Some(
                "When enabled, unverified participants cannot access challenges. Each user requests and completes verification from their own profile.",
            ),
            danger: None,
            depends_on: None,
        },
        SettingDefinition {
            section: "visibility",
            key: "challenge_visibility",
            label: "Challenge visibility",
            help: "Who may view challenges.",
            kind: SettingKind::Select(OptionSet::Visibility),
            default: "private",
            required: true,
            read_only: false,
            warning: None,
            danger: None,
            depends_on: None,
        },
        SettingDefinition {
            section: "challenges",
            key: "incorrect_submissions_per_min",
            label: "Incorrect submissions per minute",
            help: "Global per-participant incorrect-submission limit.",
            kind: SettingKind::Integer { min: 1, max: 10_000 },
            default: "10",
            required: false,
            read_only: false,
            warning: None,
            danger: None,
            depends_on: None,
        },
        SettingDefinition {
            section: "challenges",
            key: "max_attempts_behavior",
            label: "Maximum-attempt behavior",
            help: "Whether a challenge attempt limit locks permanently or resets after a timeout.",
            kind: SettingKind::Select(OptionSet::AttemptBehaviors),
            default: "lockout",
            required: false,
            read_only: false,
            warning: None,
            danger: None,
            depends_on: None,
        },
        SettingDefinition {
            section: "challenges",
            key: "max_attempts_timeout",
            label: "Attempt timeout",
            help: "Seconds before failed attempts expire when timeout behavior is selected.",
            kind: SettingKind::Integer { min: 1, max: 31_536_000 },
            default: "300",
            required: false,
            read_only: false,
            warning: None,
            danger: None,
            depends_on: Some(("max_attempts_behavior", "timeout")),
        },
        SettingDefinition {
            section: "challenges",
            key: "challenge_ratings",
            label: "Challenge ratings",
            help: "Allow challenge ratings and control whether aggregate ratings are public.",
            kind: SettingKind::Select(OptionSet::RatingModes),
            default: "public",
            required: false,
            read_only: false,
            warning: None,
            danger: None,
            depends_on: None,
        },
        SettingDefinition {
            section: "challenges",
            key: "hints_free_public_access",
            label: "Free hints for guests",
            help: "Allow unauthenticated visitors to read zero-cost hints.",
            kind: SettingKind::Boolean,
            default: "false",
            required: false,
            read_only: false,
            warning: None,
            danger: None,
            depends_on: None,
        },
        SettingDefinition {
            section: "challenges",
            key: "view_self_submissions",
            label: "View own submissions",
            help: "Allow participants to inspect their own submission history.",
            kind: SettingKind::Boolean,
            default: "false",
            required: false,
            read_only: false,
            warning: None,
            danger: None,
            depends_on: None,
        },
        SettingDefinition {
            section: "email",
            key: "mail_provider",
            label: "Email provider",
            help: "Select the delivery provider. Automatic uses a complete Mailgun configuration first, then SMTP. Disabled never sends email.",
            kind: SettingKind::Select(OptionSet::MailProviders),
            default: "auto",
            required: false,
            read_only: false,
            warning: None,
            danger: None,
            depends_on: None,
        },
        SettingDefinition {
            section: "email",
            key: "mail_server",
            label: "SMTP server",
            help: "SMTP server hostname. Used when Mailgun is not fully configured.",
            kind: SettingKind::Line,
            default: "",
            required: false,
            read_only: false,
            warning: None,
            danger: None,
            depends_on: None,
        },
        SettingDefinition {
            section: "email",
            key: "mail_port",
            label: "SMTP port",
            help: "SMTP server port.",
            kind: SettingKind::Integer { min: 1, max: 65_535 },
            default: "587",
            required: false,
            read_only: false,
            warning: None,
            danger: None,
            depends_on: None,
        },
        SettingDefinition {
            section: "email",
            key: "mail_username",
            label: "SMTP username",
            help: "Optional SMTP authentication username.",
            kind: SettingKind::Line,
            default: "",
            required: false,
            read_only: false,
            warning: None,
            danger: None,
            depends_on: None,
        },
        SettingDefinition {
            section: "email",
            key: "mail_password",
            label: "SMTP password",
            help: "Optional SMTP authentication password. Existing values are never returned.",
            kind: SettingKind::Secret,
            default: "",
            required: false,
            read_only: false,
            warning: None,
            danger: None,
            depends_on: None,
        },
        SettingDefinition {
            section: "email",
            key: "mail_ssl",
            label: "Implicit TLS",
            help: "Connect using implicit SMTP TLS. Cannot be enabled with STARTTLS.",
            kind: SettingKind::Boolean,
            default: "false",
            required: false,
            read_only: false,
            warning: None,
            danger: None,
            depends_on: None,
        },
        SettingDefinition {
            section: "email",
            key: "mail_tls",
            label: "STARTTLS",
            help: "Upgrade the SMTP connection with STARTTLS. Cannot be enabled with implicit TLS.",
            kind: SettingKind::Boolean,
            default: "false",
            required: false,
            read_only: false,
            warning: None,
            danger: None,
            depends_on: None,
        },
        SettingDefinition {
            section: "email",
            key: "mailfrom_addr",
            label: "Sender address",
            help: "From address for administrator email messages.",
            kind: SettingKind::Line,
            default: "",
            required: false,
            read_only: false,
            warning: None,
            danger: None,
            depends_on: None,
        },
        SettingDefinition {
            section: "email",
            key: "user_creation_email_subject",
            label: "Email subject",
            help: "Message subject; {ctf_name} is replaced with the configured event name.",
            kind: SettingKind::Line,
            default: "Message from {ctf_name}",
            required: false,
            read_only: false,
            warning: None,
            danger: None,
            depends_on: None,
        },
        SettingDefinition {
            section: "email",
            key: "mailgun_base_url",
            label: "Mailgun API base URL",
            help: "Mailgun messages endpoint base URL. Mailgun is used only when this and its API key are both configured.",
            kind: SettingKind::Line,
            default: "",
            required: false,
            read_only: false,
            warning: None,
            danger: None,
            depends_on: None,
        },
        SettingDefinition {
            section: "email",
            key: "mailgun_api_key",
            label: "Mailgun API key",
            help: "Mailgun API credential. Existing values are never returned.",
            kind: SettingKind::Secret,
            default: "",
            required: false,
            read_only: false,
            warning: None,
            danger: None,
            depends_on: None,
        },
    ];
    assert(result@ =~= setting_list());
    result
}

/// The first of the definitions from `from` on with the key.
pub open spec fn definition_from(
    definitions: Seq<SettingDefinition>,
    key: Seq<char>,
    from: int,
) -> Option<SettingDefinition>
    decreases definitions.len() - from,
{
    if from >= definitions.len() {
        None
    } else if definitions[from].key@ == key {
        Some(definitions[from])
    } else {
        definition_from(definitions, key, from + 1)
    }
}

/// The definition of a setting that the site knows.
pub open spec fn setting_named(key: Seq<char>) -> Option<SettingDefinition> {
    definition_from(setting_list(), key, 0)
}

pub fn setting(key: &str) -> (result: Option<SettingDefinition>)
    ensures
        result == setting_named(key@),
{
    let definitions = settings();
    let mut i: usize = 0;
    while i < definitions.len()
        invariant
            i <= definitions.len(),
            definitions@ == setting_list(),
            definition_from(setting_list(), key@, 0) == definition_from(
                setting_list(),
                key@,
                i as int,
            ),
        decreases definitions.len() - i,
    {
        if same(definitions[i].key, key) {
            return Some(definitions[i]);
        }
        i += 1;
    }
    None
}

// ---------------------------------------------------------------------------
// Laws
// ---------------------------------------------------------------------------

/// A setting is found by its key, the first definition of it, wherever it stands; a key that no
/// definition has is none of the site's.
pub proof fn law_settings_are_found_by_their_key(
    definitions: Seq<SettingDefinition>,
    key: Seq<char>,
    from: int,
    place: int,
)
    requires
        0 <= from <= place <= definitions.len(),
        forall|i: int| from <= i < place ==> (#[trigger] definitions[i]).key@ != key,
    ensures
        place < definitions.len() && definitions[place].key@ == key ==> definition_from(
            definitions,
            key,
            from,
        ) == Some(definitions[place]),
        place == definitions.len() ==> definition_from(definitions, key, from) is None,
    decreases place - from,
{
    if from < place {
        assert(definitions[from].key@ != key);
        law_settings_are_found_by_their_key(definitions, key, from + 1, place);
    }
}

/// What is found under a key is one of the site's settings, and has that key.
pub proof fn law_found_settings_have_the_key(key: Seq<char>)
    requires
        setting_named(key) is Some,
    ensures
        setting_named(key)->Some_0.key@ == key,
        setting_list().contains(setting_named(key)->Some_0),
{
    lemma_found_has_key(setting_list(), key, 0);
}

proof fn lemma_found_has_key(definitions: Seq<SettingDefinition>, key: Seq<char>, from: int)
    requires
        0 <= from,
        definition_from(definitions, key, from) is Some,
    ensures
        definition_from(definitions, key, from)->Some_0.key@ == key,
        definitions.contains(definition_from(definitions, key, from)->Some_0),
    decreases definitions.len() - from,
{
    if from < definitions.len() {
        if definitions[from].key@ != key {
            lemma_found_has_key(definitions, key, from + 1);
        } else {
            assert(definitions.contains(definitions[from]));
        }
    }
}

} // verus!
