//! The catalog of settings as administrators see it.
use crate::configuration::{is_secret_key, is_sensitive_key, parse_bool_text, switch_word};
use crate::error::{str_of, text_of};
use crate::numbers::{bounded_value, parse_i64};
use crate::settings_table::{
    account_groups, account_order, account_setting_order, group_list, option_definitions,
    option_list, section_list, sections, setting, setting_list, setting_named, settings,
    GroupDefinition, OptionDefinition, SectionDefinition, SettingDefinition, SettingKind,
};
use crate::text::same;
use crate::text_map::TextMap;
use vstd::prelude::*;

verus! {

// ---------------------------------------------------------------------------
// One setting
// ---------------------------------------------------------------------------

/// The value of a setting.
pub enum SettingValue {
    Flag(bool),
    Integer(i64),
    Text(String),
}

/// The value of a setting, by value.
pub enum SettingValueView {
    Flag(bool),
    Integer(i64),
    Text(Seq<char>),
}

impl View for SettingValue {
    type V = SettingValueView;

    open spec fn view(&self) -> SettingValueView {
        match self {
            SettingValue::Flag(flag) => SettingValueView::Flag(*flag),
            SettingValue::Integer(number) => SettingValueView::Integer(*number),
            SettingValue::Text(text) => SettingValueView::Text(text@),
        }
    }
}

pub open spec fn value_view(value: Option<SettingValue>) -> Option<SettingValueView> {
    match value {
        Some(found) => Some(found@),
        None => None,
    }
}

/// What a stored text means for a setting; nothing, where it does not fit.
pub open spec fn stored_meaning(kind: SettingKind, text: Seq<char>) -> Option<SettingValueView> {
    match kind {
        SettingKind::Boolean => match switch_word(text) {
            Some(flag) => Some(SettingValueView::Flag(flag)),
            None => None,
        },
        SettingKind::Integer { .. } => integer_meaning(text),
        SettingKind::DateTime => integer_meaning(text),
        _ => Some(SettingValueView::Text(text)),
    }
}

pub open spec fn integer_meaning(text: Seq<char>) -> Option<SettingValueView> {
    match bounded_value(text, i64::MIN as int, i64::MAX as int) {
        Some(number) => Some(SettingValueView::Integer(number as i64)),
        None => None,
    }
}

fn read_integer(text: &str) -> (result: Option<SettingValue>)
    ensures
        value_view(result) == integer_meaning(text@),
{
    match parse_i64(text) {
        Some(number) => Some(SettingValue::Integer(number)),
        None => None,
    }
}

pub fn parse_stored_value(kind: SettingKind, value: &str) -> (result: Option<SettingValue>)
    ensures
        value_view(result) == stored_meaning(kind, value@),
{
    match kind {
        SettingKind::Boolean => match parse_bool_text(value) {
            Some(flag) => Some(SettingValue::Flag(flag)),
            None => None,
        },
        SettingKind::Integer { .. } => read_integer(value),
        SettingKind::DateTime => read_integer(value),
        _ => Some(SettingValue::Text(value.to_owned())),
    }
}

pub open spec fn type_word(kind: SettingKind) -> Seq<char> {
    match kind {
        SettingKind::Line => "string"@,
        SettingKind::Text => "text"@,
        SettingKind::Boolean => "boolean"@,
        SettingKind::Integer { .. } => "integer"@,
        SettingKind::DateTime => "datetime"@,
        SettingKind::Select(_) => "select"@,
        SettingKind::Secret => "secret"@,
    }
}

pub fn setting_type(kind: SettingKind) -> (result: &'static str)
    ensures
        result@ == type_word(kind),
{
    match kind {
        SettingKind::Line => "string",
        SettingKind::Text => "text",
        SettingKind::Boolean => "boolean",
        SettingKind::Integer { .. } => "integer",
        SettingKind::DateTime => "datetime",
        SettingKind::Select(_) => "select",
        SettingKind::Secret => "secret",
    }
}

pub open spec fn options_of(kind: SettingKind) -> Seq<OptionDefinition> {
    match kind {
        SettingKind::Select(set) => option_list(set),
        _ => Seq::empty(),
    }
}

pub fn options(kind: SettingKind) -> (result: Vec<OptionDefinition>)
    ensures
        result@ == options_of(kind),
{
    match kind {
        SettingKind::Select(set) => option_definitions(set),
        _ => Vec::new(),
    }
}

/// The group of a setting in the section on accounts.
pub open spec fn group_word(key: Seq<char>) -> Option<Seq<char>> {
    if key == "user_mode"@ {
        Some("account_type"@)
    } else if key == "num_users"@ || key == "password_min_length"@ || key == "name_changes"@ || key
        == "verify_emails"@ {
        Some("participant_accounts"@)
    } else if key == "team_creation"@ || key == "team_size"@ || key == "num_teams"@ || key
        == "team_disbanding"@ {
        Some("team_accounts"@)
    } else if key == "registration_visibility"@ || key == "registration_access_mode"@ || key
        == "registration_code"@ || key == "domain_whitelist"@ || key == "domain_blacklist"@ {
        Some("registration_access"@)
    } else {
        None
    }
}

fn group_id(key: &str) -> (result: Option<&'static str>)
    ensures
        str_of(result) == group_word(key@),
{
    if same(key, "user_mode") {
        Some("account_type")
    } else if same(key, "num_users") || same(key, "password_min_length") || same(
        key,
        "name_changes",
    ) || same(key, "verify_emails") {
        Some("participant_accounts")
    } else if same(key, "team_creation") || same(key, "team_size") || same(key, "num_teams")
        || same(key, "team_disbanding") {
        Some("team_accounts")
    } else if same(key, "registration_visibility") || same(key, "registration_access_mode") || same(
        key,
        "registration_code",
    ) || same(key, "domain_whitelist") || same(key, "domain_blacklist") {
        Some("registration_access")
    } else {
        None
    }
}

pub open spec fn group_from(groups: Seq<GroupDefinition>, id: Seq<char>, from: int) -> Option<
    GroupDefinition,
>
    decreases groups.len() - from,
{
    if from >= groups.len() {
        None
    } else if groups[from].id@ == id {
        Some(groups[from])
    } else {
        group_from(groups, id, from + 1)
    }
}

pub open spec fn group_of(key: Seq<char>) -> Option<GroupDefinition> {
    match group_word(key) {
        Some(id) => group_from(group_list(), id, 0),
        None => None,
    }
}

pub fn account_group(key: &str) -> (result: Option<GroupDefinition>)
    ensures
        result == group_of(key@),
{
    let id = match group_id(key) {
        Some(id) => id,
        None => return None,
    };
    let groups = account_groups();
    let mut i: usize = 0;
    while i < groups.len()
        invariant
            i <= groups.len(),
            groups@ == group_list(),
            group_word(key@) == Some(id@),
            group_from(group_list(), id@, 0) == group_from(group_list(), id@, i as int),
        decreases groups.len() - i,
    {
        if same(groups[i].id, id) {
            return Some(groups[i]);
        }
        i += 1;
    }
    None
}

/// A setting in the catalog.
pub struct CatalogSetting {
    pub key: String,
    pub label: String,
    pub help: String,
    pub setting_type: &'static str,
    pub value: Option<SettingValue>,
    pub default: Option<SettingValue>,
    pub effective: Option<SettingValue>,
    pub stored: Option<SettingValue>,
    pub configured: bool,
    pub sensitive: bool,
    pub required: bool,
    pub read_only: bool,
    pub warning: Option<&'static str>,
    pub danger: Option<&'static str>,
    pub options: Vec<OptionDefinition>,
    pub depends_on: Option<(&'static str, &'static str)>,
    pub group: Option<GroupDefinition>,
    pub advanced: bool,
}

/// A setting in the catalog, by value.
pub struct CatalogSettingView {
    pub key: Seq<char>,
    pub label: Seq<char>,
    pub help: Seq<char>,
    pub setting_type: Seq<char>,
    pub value: Option<SettingValueView>,
    pub default: Option<SettingValueView>,
    pub effective: Option<SettingValueView>,
    pub stored: Option<SettingValueView>,
    pub configured: bool,
    pub sensitive: bool,
    pub required: bool,
    pub read_only: bool,
    pub warning: Option<Seq<char>>,
    pub danger: Option<Seq<char>>,
    pub options: Seq<OptionDefinition>,
    pub depends_on: Option<(&'static str, &'static str)>,
    pub group: Option<GroupDefinition>,
    pub advanced: bool,
}

impl View for CatalogSetting {
    type V = CatalogSettingView;

    open spec fn view(&self) -> CatalogSettingView {
        CatalogSettingView {
            key: self.key@,
            label: self.label@,
            help: self.help@,
            setting_type: self.setting_type@,
            value: value_view(self.value),
            default: value_view(self.default),
            effective: value_view(self.effective),
            stored: value_view(self.stored),
            configured: self.configured,
            sensitive: self.sensitive,
            required: self.required,
            read_only: self.read_only,
            warning: str_of(self.warning),
            danger: str_of(self.danger),
            options: self.options@,
            depends_on: self.depends_on,
            group: self.group,
            advanced: self.advanced,
        }
    }
}

/// What is shown of a value: nothing, where it is a secret.
pub open spec fn unless_secret(
    secret: bool,
    value: Option<SettingValueView>,
) -> Option<SettingValueView> {
    if secret {
        None
    } else {
        value
    }
}

pub open spec fn meaning_of(kind: SettingKind, text: Option<Seq<char>>) -> Option<
    SettingValueView,
> {
    match text {
        Some(content) => stored_meaning(kind, content),
        None => None,
    }
}

pub open spec fn first_known(
    first: Option<SettingValueView>,
    second: Option<SettingValueView>,
) -> Option<SettingValueView> {
    if first is Some {
        first
    } else {
        second
    }
}

/// A setting that the site knows: what is stored counts, or else its default.
pub open spec fn known_setting(
    definition: SettingDefinition,
    stored: Option<Seq<char>>,
) -> CatalogSettingView {
    let secret = definition.kind is Secret || is_secret_key(definition.key@);
    let found = meaning_of(definition.kind, stored);
    let default = stored_meaning(definition.kind, definition.default@);
    CatalogSettingView {
        key: definition.key@,
        label: definition.label@,
        help: definition.help@,
        setting_type: type_word(definition.kind),
        value: unless_secret(secret, first_known(found, default)),
        default: unless_secret(secret, default),
        effective: unless_secret(secret, first_known(found, default)),
        stored: unless_secret(secret, found),
        configured: stored is Some && stored->Some_0.len() > 0,
        sensitive: secret,
        required: definition.required,
        read_only: definition.read_only,
        warning: str_of(definition.warning),
        danger: str_of(definition.danger),
        options: options_of(definition.kind),
        depends_on: definition.depends_on,
        group: group_of(definition.key@),
        advanced: false,
    }
}

fn shown_value(secret: bool, kind: SettingKind, text: Option<&str>) -> (result: Option<SettingValue>)
    ensures
        value_view(result) == unless_secret(secret, meaning_of(kind, str_of(text))),
{
    if secret {
        return None;
    }
    match text {
        Some(content) => parse_stored_value(kind, content),
        None => None,
    }
}

fn effective_value(
    secret: bool,
    kind: SettingKind,
    text: Option<&str>,
    default: &str,
) -> (result: Option<SettingValue>)
    ensures
        value_view(result) == unless_secret(
            secret,
            first_known(meaning_of(kind, str_of(text)), stored_meaning(kind, default@)),
        ),
{
    if secret {
        return None;
    }
    let found = match text {
        Some(content) => parse_stored_value(kind, content),
        None => None,
    };
    match found {
        Some(value) => Some(value),
        None => parse_stored_value(kind, default),
    }
}

pub fn known_catalog_setting(definition: &SettingDefinition, stored_value: Option<&str>) -> (result:
    CatalogSetting)
    ensures
        result@ == known_setting(*definition, str_of(stored_value)),
{
    let kind = definition.kind;
    let sensitive = match kind {
        SettingKind::Secret => true,
        _ => is_sensitive_key(definition.key),
    };
    let configured = match stored_value {
        Some(text) => !text.is_empty(),
        None => false,
    };
    CatalogSetting {
        key: definition.key.to_owned(),
        label: definition.label.to_owned(),
        help: definition.help.to_owned(),
        setting_type: setting_type(kind),
        value: effective_value(sensitive, kind, stored_value, definition.default),
        default: shown_value(sensitive, kind, Some(definition.default)),
        effective: effective_value(sensitive, kind, stored_value, definition.default),
        stored: shown_value(sensitive, kind, stored_value),
        configured,
        sensitive,
        required: definition.required,
        read_only: definition.read_only,
        warning: definition.warning,
        danger: definition.danger,
        options: options(kind),
        depends_on: definition.depends_on,
        group: account_group(definition.key),
        advanced: false,
    }
}

/// A setting that the site does not know.
pub open spec fn legacy_setting(key: Seq<char>, stored: Option<Seq<char>>) -> CatalogSettingView {
    let secret = is_secret_key(key);
    let content = match stored {
        Some(text) => text,
        None => Seq::empty(),
    };
    let value = unless_secret(secret, Some(SettingValueView::Text(content)));
    CatalogSettingView {
        key,
        label: key,
        help: "Preserved legacy setting. CTFZone does not currently interpret this value."@,
        setting_type: if secret {
            "secret"@
        } else {
            "string"@
        },
        value,
        default: None,
        effective: value,
        stored: value,
        configured: content.len() > 0,
        sensitive: secret,
        required: false,
        read_only: false,
        warning: Some("Advanced legacy setting; changing it may have no effect."@),
        danger: None,
        options: Seq::empty(),
        depends_on: None,
        group: None,
        advanced: true,
    }
}

fn legacy_value(secret: bool, content: &str) -> (result: Option<SettingValue>)
    ensures
        value_view(result) == unless_secret(secret, Some(SettingValueView::Text(content@))),
{
    if secret {
        None
    } else {
        Some(SettingValue::Text(content.to_owned()))
    }
}

pub fn legacy_catalog_setting(key: &str, stored_value: Option<&str>) -> (result: CatalogSetting)
    ensures
        result@ == legacy_setting(key@, str_of(stored_value)),
{
    let sensitive = is_sensitive_key(key);
    let content = match stored_value {
        Some(text) => text.to_owned(),
        None => String::new(),
    };
    let result = CatalogSetting {
        label: key.to_owned(),
        help: "Preserved legacy setting. CTFZone does not currently interpret this value.".to_owned(),
        setting_type: if sensitive {
            "secret"
        } else {
            "string"
        },
        key: key.to_owned(),
        value: legacy_value(sensitive, content.as_str()),
        default: None,
        effective: legacy_value(sensitive, content.as_str()),
        stored: legacy_value(sensitive, content.as_str()),
        configured: !content.as_str().is_empty(),
        sensitive,
        required: false,
        read_only: false,
        warning: Some("Advanced legacy setting; changing it may have no effect."),
        danger: None,
        options: Vec::new(),
        depends_on: None,
        group: None,
        advanced: true,
    };
    assert(result.options@ =~= Seq::<OptionDefinition>::empty());
    result
}

// ---------------------------------------------------------------------------
// The whole catalog
// ---------------------------------------------------------------------------

/// The stored text of each key; a row may hold none.
pub type StoredTexts = TextMap<Option<String>>;

pub open spec fn stored_text(stored: Map<Seq<char>, Option<String>>, key: Seq<char>) -> Option<
    Seq<char>,
> {
    if stored.contains_key(key) {
        text_of(stored[key])
    } else {
        None
    }
}

fn text_under<'a>(stored: &'a StoredTexts, key: &str) -> (result: Option<&'a str>)
    requires
        stored.ok(),
    ensures
        str_of(result) == stored_text(stored@, key@),
{
    match stored.get(key) {
        Some(Some(text)) => Some(text.as_str()),
        _ => None,
    }
}

pub open spec fn has_text(stored: Map<Seq<char>, Option<String>>, key: Seq<char>) -> bool {
    stored_text(stored, key) matches Some(text) && text.len() > 0
}

fn is_filled(stored: &StoredTexts, key: &str) -> (result: bool)
    requires
        stored.ok(),
    ensures
        result == has_text(stored@, key@),
{
    match text_under(stored, key) {
        Some(text) => !text.is_empty(),
        None => false,
    }
}

/// The way of admission that older settings stand for, where none is stored.
pub open spec fn inferred_mode(stored: Map<Seq<char>, Option<String>>) -> Option<Seq<char>> {
    if has_text(stored, "registration_access_mode"@) {
        None
    } else if has_text(stored, "registration_code"@) {
        Some("access_code"@)
    } else if has_text(stored, "domain_whitelist"@) || has_text(stored, "domain_blacklist"@) {
        Some("domain_rules"@)
    } else {
        None
    }
}

fn infer_mode(stored: &StoredTexts) -> (result: Option<&'static str>)
    requires
        stored.ok(),
    ensures
        str_of(result) == inferred_mode(stored@),
{
    if is_filled(stored, "registration_access_mode") {
        None
    } else if is_filled(stored, "registration_code") {
        Some("access_code")
    } else if is_filled(stored, "domain_whitelist") || is_filled(stored, "domain_blacklist") {
        Some("domain_rules")
    } else {
        None
    }
}

/// A known setting in the catalog.
pub open spec fn listed_setting(
    definition: SettingDefinition,
    stored: Map<Seq<char>, Option<String>>,
) -> CatalogSettingView {
    let known = known_setting(definition, stored_text(stored, definition.key@));
    match inferred_mode(stored) {
        Some(mode) if definition.key@ == "registration_access_mode"@ => CatalogSettingView {
            value: Some(SettingValueView::Text(mode)),
            effective: Some(SettingValueView::Text(mode)),
            ..known
        },
        _ => known,
    }
}

fn list_setting(definition: &SettingDefinition, stored: &StoredTexts) -> (result: CatalogSetting)
    requires
        stored.ok(),
    ensures
        result@ == listed_setting(*definition, stored@),
{
    let mut known = known_catalog_setting(definition, text_under(stored, definition.key));
    if same(definition.key, "registration_access_mode") {
        if let Some(mode) = infer_mode(stored) {
            known.value = Some(SettingValue::Text(mode.to_owned()));
            known.effective = Some(SettingValue::Text(mode.to_owned()));
        }
    }
    known
}

pub open spec fn setting_views(settings: Seq<CatalogSetting>) -> Seq<CatalogSettingView> {
    settings.map_values(|s: CatalogSetting| s@)
}

/// The settings of a section among the first `n` definitions.
pub open spec fn section_settings(
    id: Seq<char>,
    stored: Map<Seq<char>, Option<String>>,
    n: int,
) -> Seq<CatalogSettingView>
    decreases n,
{
    if n <= 0 {
        Seq::empty()
    } else {
        let before = section_settings(id, stored, n - 1);
        let definition = setting_list()[n - 1];
        if definition.section@ == id {
            before.push(listed_setting(definition, stored))
        } else {
            before
        }
    }
}

fn read_section(id: &str, stored: &StoredTexts) -> (result: Vec<CatalogSetting>)
    requires
        stored.ok(),
    ensures
        setting_views(result@) == section_settings(id@, stored@, setting_list().len() as int),
{
    let definitions = settings();
    let mut result: Vec<CatalogSetting> = Vec::new();
    let mut i: usize = 0;
    assert(setting_views(result@) =~= Seq::<CatalogSettingView>::empty());
    while i < definitions.len()
        invariant
            i <= definitions.len(),
            stored.ok(),
            definitions@ == setting_list(),
            setting_views(result@) == section_settings(id@, stored@, i as int),
        decreases definitions.len() - i,
    {
        if same(definitions[i].section, id) {
            let ghost before = result@;
            let listed = list_setting(&definitions[i], stored);
            let ghost view = listed@;
            result.push(listed);
            assert(setting_views(result@) =~= setting_views(before).push(view));
        }
        i += 1;
    }
    result
}

/// The settings of the section on accounts, in their own order.
pub open spec fn account_settings(stored: Map<Seq<char>, Option<String>>, n: int) -> Seq<
    CatalogSettingView,
>
    decreases n,
{
    if n <= 0 {
        Seq::empty()
    } else {
        let before = account_settings(stored, n - 1);
        match setting_named(account_order()[n - 1]@) {
            Some(definition) => before.push(listed_setting(definition, stored)),
            None => before,
        }
    }
}

fn read_accounts(stored: &StoredTexts) -> (result: Vec<CatalogSetting>)
    requires
        stored.ok(),
    ensures
        setting_views(result@) == account_settings(stored@, account_order().len() as int),
{
    let order = account_setting_order();
    let mut result: Vec<CatalogSetting> = Vec::new();
    let mut i: usize = 0;
    assert(setting_views(result@) =~= Seq::<CatalogSettingView>::empty());
    while i < order.len()
        invariant
            i <= order.len(),
            stored.ok(),
            order@ == account_order(),
            setting_views(result@) == account_settings(stored@, i as int),
        decreases order.len() - i,
    {
        if let Some(definition) = setting(order[i]) {
            let ghost before = result@;
            let listed = list_setting(&definition, stored);
            let ghost view = listed@;
            result.push(listed);
            assert(setting_views(result@) =~= setting_views(before).push(view));
        }
        i += 1;
    }
    result
}

/// The setting for social sharing: stored, and not to be changed.
pub open spec fn sharing_setting(stored: Option<Seq<char>>) -> CatalogSettingView {
    CatalogSettingView {
        read_only: true,
        warning: Some("Stored for compatibility, but player share pages are not implemented yet."@),
        ..legacy_setting("social_shares"@, stored)
    }
}

/// A stored key that the catalog lists as one that the site does not know.
pub open spec fn is_legacy_key(key: Seq<char>) -> bool {
    setting_named(key) is None && key != "social_shares"@ && key != "setup"@ && key
        != "private_challenges"@
}

/// The settings among the first `n` stored ones that the site does not know.
pub open spec fn legacy_settings(pairs: Seq<(Seq<char>, Option<String>)>, n: int) -> Seq<
    CatalogSettingView,
>
    decreases n,
{
    if n <= 0 {
        Seq::empty()
    } else {
        let before = legacy_settings(pairs, n - 1);
        let (key, value) = pairs[n - 1];
        if is_legacy_key(key) {
            before.push(legacy_setting(key, text_of(value)))
        } else {
            before
        }
    }
}

/// The last section: social sharing, and all that the site does not know.
pub open spec fn advanced_settings(stored: StoredTexts) -> Seq<CatalogSettingView> {
    let legacy = legacy_settings(stored.pairs(), stored.pairs().len() as int);
    if stored@.contains_key("social_shares"@) {
        seq![sharing_setting(stored_text(stored@, "social_shares"@))] + legacy
    } else {
        legacy
    }
}

fn read_advanced(stored: &StoredTexts) -> (result: Vec<CatalogSetting>)
    requires
        stored.ok(),
    ensures
        setting_views(result@) == advanced_settings(*stored),
{
    let mut result: Vec<CatalogSetting> = Vec::new();
    let ghost mut first = Seq::<CatalogSettingView>::empty();
    if stored.get("social_shares").is_some() {
        let mut sharing = legacy_catalog_setting(
            "social_shares",
            text_under(stored, "social_shares"),
        );
        sharing.read_only = true;
        sharing.warning = Some(
            "Stored for compatibility, but player share pages are not implemented yet.",
        );
        proof {
            first = seq![sharing@];
        }
        result.push(sharing);
    }
    assert(setting_views(result@) =~= first);
    let mut i: usize = 0;
    assert(first + legacy_settings(stored.pairs(), 0) =~= first);
    while i < stored.len()
        invariant
            i <= stored.pairs().len(),
            setting_views(result@) == first + legacy_settings(stored.pairs(), i as int),
        decreases stored.pairs().len() - i,
    {
        let key = stored.key_at(i);
        let known = setting(key).is_some() || same(key, "social_shares") || same(key, "setup")
            || same(key, "private_challenges");
        if !known {
            let ghost before = result@;
            let value = match stored.value_at(i) {
                Some(text) => Some(text.as_str()),
                None => None,
            };
            let legacy = legacy_catalog_setting(key, value);
            let ghost view = legacy@;
            result.push(legacy);
            proof {
                assert(setting_views(result@) =~= setting_views(before).push(view));
                assert(first + legacy_settings(stored.pairs(), i + 1) =~= (first + legacy_settings(
                    stored.pairs(),
                    i as int,
                )).push(view));
            }
        }
        i += 1;
    }
    assert(first + legacy_settings(stored.pairs(), stored.pairs().len() as int)
        =~= advanced_settings(*stored));
    result
}

/// A section of the catalog.
pub struct CatalogSection {
    pub section: SectionDefinition,
    pub groups: Vec<GroupDefinition>,
    pub settings: Vec<CatalogSetting>,
}

/// A section of the catalog, by value.
pub type CatalogSectionView = (SectionDefinition, Seq<GroupDefinition>, Seq<CatalogSettingView>);

pub open spec fn section_views(sections: Seq<CatalogSection>) -> Seq<CatalogSectionView> {
    sections.map_values(
        |s: CatalogSection| (s.section, s.groups@, setting_views(s.settings@)),
    )
}

pub open spec fn content_of(id: Seq<char>, stored: StoredTexts) -> Seq<CatalogSettingView> {
    if id == "accounts"@ {
        account_settings(stored@, account_order().len() as int)
    } else if id == "advanced"@ {
        advanced_settings(stored)
    } else {
        section_settings(id, stored@, setting_list().len() as int)
    }
}

pub open spec fn groups_of(id: Seq<char>) -> Seq<GroupDefinition> {
    if id == "accounts"@ {
        group_list()
    } else {
        Seq::empty()
    }
}

/// The first `n` sections, those without settings left out.
pub open spec fn catalog_to(stored: StoredTexts, n: int) -> Seq<CatalogSectionView>
    decreases n,
{
    if n <= 0 {
        Seq::empty()
    } else {
        let before = catalog_to(stored, n - 1);
        let section = section_list()[n - 1];
        let content = content_of(section.id@, stored);
        if content.len() > 0 {
            before.push((section, groups_of(section.id@), content))
        } else {
            before
        }
    }
}

/// The catalog of all settings.
pub fn catalog(stored: &StoredTexts) -> (result: Vec<CatalogSection>)
    requires
        stored.ok(),
    ensures
        section_views(result@) == catalog_to(*stored, section_list().len() as int),
{
    let all = sections();
    let mut result: Vec<CatalogSection> = Vec::new();
    let mut i: usize = 0;
    assert(section_views(result@) =~= Seq::<CatalogSectionView>::empty());
    while i < all.len()
        invariant
            i <= all.len(),
            stored.ok(),
            all@ == section_list(),
            section_views(result@) == catalog_to(*stored, i as int),
        decreases all.len() - i,
    {
        let section = all[i];
        let accounts = same(section.id, "accounts");
        let content = if accounts {
            read_accounts(stored)
        } else if same(section.id, "advanced") {
            read_advanced(stored)
        } else {
            read_section(section.id, stored)
        };
        assert(setting_views(content@) == content_of(section.id@, *stored));
        assert(setting_views(content@).len() == content@.len());
        if content.len() > 0 {
            let groups = if accounts {
                account_groups()
            } else {
                Vec::new()
            };
            assert(groups@ =~= groups_of(section.id@));
            let ghost before = result@;
            let ghost view = (section, groups@, setting_views(content@));
            result.push(CatalogSection { section, groups, settings: content });
            assert(section_views(result@) =~= section_views(before).push(view));
        }
        i += 1;
    }
    result
}

/// The stored rows as a map: of several rows for a key the last counts.
pub open spec fn rows_map(rows: Seq<(Option<String>, Option<String>)>) -> Map<
    Seq<char>,
    Option<Seq<char>>,
>
    decreases rows.len(),
{
    if rows.len() == 0 {
        Map::empty()
    } else {
        let rest = rows_map(rows.drop_last());
        match rows.last() {
            (Some(key), value) => rest.insert(key@, text_of(value)),
            (None, _) => rest,
        }
    }
}

pub open spec fn option_texts(stored: Map<Seq<char>, Option<String>>) -> Map<
    Seq<char>,
    Option<Seq<char>>,
> {
    stored.map_values(|value: Option<String>| text_of(value))
}

pub fn stored_rows(rows: &Vec<(Option<String>, Option<String>)>) -> (result: StoredTexts)
    ensures
        result.ok(),
        option_texts(result@) == rows_map(rows@),
{
    let mut stored: StoredTexts = TextMap::new();
    let mut i: usize = 0;
    assert(option_texts(stored@) =~= Map::<Seq<char>, Option<Seq<char>>>::empty());
    while i < rows.len()
        invariant
            i <= rows.len(),
            stored.ok(),
            option_texts(stored@) == rows_map(rows@.take(i as int)),
        decreases rows.len() - i,
    {
        assert(rows@.take(i + 1).drop_last() =~= rows@.take(i as int));
        assert(rows@.take(i + 1).last() == rows@[i as int]);
        if let Some(key) = &rows[i].0 {
            let value = match &rows[i].1 {
                Some(text) => Some(text.clone()),
                None => None,
            };
            let ghost before = stored@;
            stored.insert(key.clone(), value);
            assert(option_texts(stored@) =~= option_texts(before).insert(key@, text_of(value)));
        }
        i += 1;
    }
    assert(rows@.take(rows@.len() as int) =~= rows@);
    stored
}

// ---------------------------------------------------------------------------
// Laws
// ---------------------------------------------------------------------------

/// The entry shows nothing of a value.
pub open spec fn shows_nothing(view: CatalogSettingView) -> bool {
    view.value is None && view.default is None && view.effective is None && view.stored is None
}

/// The catalog never shows the value of a secret, whether the site knows the setting or not.
pub proof fn law_secrets_are_never_listed(
    definition: SettingDefinition,
    key: Seq<char>,
    stored: Option<Seq<char>>,
)
    ensures
        definition.kind is Secret || is_secret_key(definition.key@) ==> shows_nothing(
            known_setting(definition, stored),
        ),
        is_secret_key(key) ==> shows_nothing(legacy_setting(key, stored)),
{
}

/// Where nothing is stored a setting has its default and does not count as configured.
pub proof fn law_missing_rows_have_defaults(definition: SettingDefinition)
    requires
        !(definition.kind is Secret),
        !is_secret_key(definition.key@),
    ensures
        ({
            let view = known_setting(definition, None);
            &&& !view.configured
            &&& view.stored is None
            &&& view.effective == stored_meaning(definition.kind, definition.default@)
            &&& view.value == view.effective
        }),
{
}

/// A setting that the site knows is shown by its definition, with what is stored where it can be read
/// and its default otherwise; it is configured exactly where something is stored.
pub proof fn law_known_settings_are_shown(definition: SettingDefinition, stored: Option<Seq<char>>)
    ensures
        ({
            let view = known_setting(definition, stored);
            let secret = definition.kind == SettingKind::Secret || is_secret_key(definition.key@);
            let found = if stored is Some {
                stored_meaning(definition.kind, stored->Some_0)
            } else {
                None
            };
            let default = stored_meaning(definition.kind, definition.default@);
            &&& view.key == definition.key@ && view.label == definition.label@ && view.help
                == definition.help@
            &&& view.required == definition.required && view.read_only == definition.read_only
                && !view.advanced
            &&& view.sensitive == secret
            &&& view.configured <==> stored is Some && stored->Some_0.len() > 0
            &&& !secret ==> view.stored == found && view.default == default && view.value
                == view.effective
            &&& !secret && found is Some ==> view.value == found
            &&& !secret && found is None ==> view.value == default
            &&& definition.kind is Select ==> view.options == option_list(
                definition.kind->Select_0,
            )
            &&& !(definition.kind is Select) ==> view.options.len() == 0
        }),
{
}

/// A stored text means itself, a switch or a number, by the kind of the setting; what does not fit
/// means nothing.
pub proof fn law_stored_texts_have_a_meaning(kind: SettingKind, text: Seq<char>, number: i64)
    ensures
        kind is Boolean ==> stored_meaning(kind, text) == (if switch_word(text) is Some {
            Some(SettingValueView::Flag(switch_word(text)->Some_0))
        } else {
            None
        }),
        kind is Integer || kind is DateTime ==> stored_meaning(
            kind,
            crate::numbers::integer_text(number as int),
        ) == Some(SettingValueView::Integer(number)),
        kind is Integer || kind is DateTime ==> (stored_meaning(kind, text) is None
            <==> bounded_value(text, i64::MIN as int, i64::MAX as int) is None),
        kind is Line || kind is Text || kind is Select || kind is Secret ==> stored_meaning(
            kind,
            text,
        ) == Some(SettingValueView::Text(text)),
{
    crate::numbers::law_integer_text_reads_back(number as int);
}

/// A setting that the site does not know is shown under its own name, as it is stored, unless it is a
/// secret.
pub proof fn law_unknown_settings_are_shown(key: Seq<char>, stored: Option<Seq<char>>)
    ensures
        ({
            let view = legacy_setting(key, stored);
            let content = if stored is Some {
                stored->Some_0
            } else {
                Seq::empty()
            };
            &&& view.key == key && view.label == key && view.advanced && !view.read_only
                && !view.required
            &&& view.sensitive == is_secret_key(key)
            &&& view.configured <==> content.len() > 0
            &&& !is_secret_key(key) ==> view.value == Some(SettingValueView::Text(content))
                && view.stored == view.value && view.effective == view.value
            &&& sharing_setting(stored).read_only && sharing_setting(stored).key
                == "social_shares"@
        }),
{
}

/// Where no way of admission is stored, a code that is stands for admission by code, and rules that
/// are for admission by domain; this alone sets the listed way apart from what is stored.
pub proof fn law_admission_is_inferred(
    definition: SettingDefinition,
    stored: Map<Seq<char>, Option<String>>,
)
    ensures
        ({
            let named = has_text(stored, "registration_access_mode"@);
            let coded = has_text(stored, "registration_code"@);
            let ruled = has_text(stored, "domain_whitelist"@) || has_text(
                stored,
                "domain_blacklist"@,
            );
            let known = known_setting(definition, stored_text(stored, definition.key@));
            let listed = listed_setting(definition, stored);
            &&& named || (!coded && !ruled) ==> inferred_mode(stored) is None && listed == known
            &&& !named && coded ==> inferred_mode(stored) == Some("access_code"@)
            &&& !named && !coded && ruled ==> inferred_mode(stored) == Some("domain_rules"@)
            &&& definition.key@ != "registration_access_mode"@ ==> listed == known
            &&& definition.key@ == "registration_access_mode"@ && inferred_mode(stored) is Some
                ==> listed.value == Some(SettingValueView::Text(inferred_mode(stored)->Some_0))
                && listed.effective == listed.value && listed.stored == known.stored
        }),
        forall|key: Seq<char>| #[trigger]
            has_text(stored, key) <==> stored.contains_key(key) && stored[key] is Some
                && stored[key]->Some_0@.len() > 0,
{
}

/// Each definition stands in its own section, after those before it, and in no other.
pub proof fn law_settings_stand_in_their_section(
    id: Seq<char>,
    stored: Map<Seq<char>, Option<String>>,
    n: int,
)
    requires
        n >= 0,
    ensures
        section_settings(id, stored, n + 1) == if setting_list()[n].section@ == id {
            section_settings(id, stored, n).push(listed_setting(setting_list()[n], stored))
        } else {
            section_settings(id, stored, n)
        },
        section_settings(id, stored, 0).len() == 0,
{
}

/// A stored key that the site does not know is listed with the others of its kind, in their order;
/// the markers of the site itself are not.
pub proof fn law_unknown_keys_are_listed(pairs: Seq<(Seq<char>, Option<String>)>, n: int)
    requires
        0 <= n < pairs.len(),
    ensures
        ({
            let key = pairs[n].0;
            let hidden = setting_named(key) is Some || key == "social_shares"@ || key == "setup"@
                || key == "private_challenges"@;
            legacy_settings(pairs, n + 1) == if hidden {
                legacy_settings(pairs, n)
            } else {
                legacy_settings(pairs, n).push(legacy_setting(key, text_of(pairs[n].1)))
            }
        }),
        legacy_settings(pairs, 0).len() == 0,
{
}

/// The catalog holds every section that has settings, in order, with the groups of accounts in the
/// section on them alone.
pub proof fn law_sections_are_listed(stored: StoredTexts, n: int)
    requires
        n >= 0,
    ensures
        ({
            let section = section_list()[n];
            let content = content_of(section.id@, stored);
            &&& content.len() > 0 ==> catalog_to(stored, n + 1) == catalog_to(stored, n).push(
                (section, groups_of(section.id@), content),
            )
            &&& content.len() == 0 ==> catalog_to(stored, n + 1) == catalog_to(stored, n)
            &&& section.id@ == "accounts"@ ==> groups_of(section.id@) == group_list()
            &&& section.id@ != "accounts"@ ==> groups_of(section.id@).len() == 0
        }),
        catalog_to(stored, 0).len() == 0,
{
}

/// Of several rows for a key the last counts, and a row without a key counts for nothing.
pub proof fn law_the_last_row_is_listed(
    rows: Seq<(Option<String>, Option<String>)>,
    row: (Option<String>, Option<String>),
)
    ensures
        rows_map(rows.push(row)) == if row.0 is Some {
            rows_map(rows).insert(row.0->Some_0@, text_of(row.1))
        } else {
            rows_map(rows)
        },
        rows_map(Seq::empty()) == Map::<Seq<char>, Option<Seq<char>>>::empty(),
{
    assert(rows.push(row).drop_last() =~= rows);
}

} // verus!
