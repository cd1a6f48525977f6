//! Creating, changing and deleting challenges.
use crate::auth::CurrentUser;
use crate::error::{bad, conflict, forbidden, not_found, shown, text_of, ApiError, Failure};
use crate::fields::{
    attempts_limit, contains_key, field_text_or, gate_request, has_field, integer_field,
    optional_i32, optional_string_or, patch_i32, patch_required_string, patch_text, patched_integer,
    patched_required, patched_text, private_gate_enable_requested, required_field, required_string,
    requirements_problem, validate_max_attempts, validate_requirements, Fields,
};
use crate::flag_policy::{normal_definition, normalize_definition, shown_definition, FlagPolicyData};
use crate::json::{borrowed, find, lookup, Json};
use crate::text::same;
use vstd::prelude::*;

verus! {

// ---------------------------------------------------------------------------
// The parts of a challenge
// ---------------------------------------------------------------------------

/// The name, category and exposure of a new challenge.
pub struct Heading {
    pub name: String,
    pub category_id: i32,
    pub exposure: String,
}

pub open spec fn shown_heading(result: Result<Heading, ApiError>) -> Result<
    (Seq<char>, i32, Seq<char>),
    Failure,
> {
    match result {
        Ok(heading) => Ok((heading.name@, heading.category_id, heading.exposure@)),
        Err(error) => Err(error@),
    }
}

pub open spec fn is_exposure(word: Seq<char>) -> bool {
    word == "public"@ || word == "private"@
}

fn exposure_known(word: &str) -> (result: bool)
    ensures
        result == is_exposure(word@),
{
    same(word, "public") || same(word, "private")
}

pub open spec fn heading_of(fields: Seq<(String, Json)>) -> Result<
    (Seq<char>, i32, Seq<char>),
    Failure,
> {
    match required_field(fields, "name"@, 80) {
        Err(failure) => Err(failure),
        Ok(name) => match integer_field(fields, "category_id"@) {
            Err(failure) => Err(failure),
            Ok(None) => Err(bad("Challenge category_id is required"@)),
            Ok(Some(category_id)) => match required_field(fields, "challenge_type"@, 32) {
                Err(failure) => Err(failure),
                Ok(kind) => if kind != "jeopardy"@ {
                    Err(bad("Only Jeopardy challenges are available in version 1.0"@))
                } else {
                    match required_field(fields, "exposure"@, 16) {
                        Err(failure) => Err(failure),
                        Ok(exposure) => if !is_exposure(exposure) {
                            Err(bad("Challenge exposure must be public or private"@))
                        } else if has_field(fields, "public_url"@) {
                            Err(
                                bad(
                                    "Challenge public_url is not supported; use optional connection_info"@,
                                ),
                            )
                        } else {
                            Ok((name, category_id, exposure))
                        },
                    }
                },
            },
        },
    }
}

fn read_heading(fields: &Fields) -> (result: Result<Heading, ApiError>)
    ensures
        shown_heading(result) == heading_of(fields@),
{
    let name = match required_string(fields, "name", 80) {
        Ok(name) => name,
        Err(error) => return Err(error),
    };
    let category_id: i32 = match optional_i32(fields, "category_id") {
        Ok(Some(id)) => id,
        Ok(None) => return Err(ApiError::bad_request("Challenge category_id is required")),
        Err(error) => return Err(error),
    };
    match required_string(fields, "challenge_type", 32) {
        Ok(kind) => {
            if !same(kind.as_str(), "jeopardy") {
                return Err(
                    ApiError::bad_request("Only Jeopardy challenges are available in version 1.0"),
                );
            }
        },
        Err(error) => return Err(error),
    }
    let exposure = match required_string(fields, "exposure", 16) {
        Ok(exposure) => exposure,
        Err(error) => return Err(error),
    };
    if !exposure_known(exposure.as_str()) {
        return Err(ApiError::bad_request("Challenge exposure must be public or private"));
    }
    if contains_key(fields, "public_url") {
        return Err(
            ApiError::bad_request(
                "Challenge public_url is not supported; use optional connection_info",
            ),
        );
    }
    Ok(Heading { name, category_id, exposure })
}

/// The texts of a challenge.
pub struct Texts {
    pub description: Option<String>,
    pub attribution: Option<String>,
    pub connection_info: Option<String>,
}

pub type TextsView = (Option<Seq<char>>, Option<Seq<char>>, Option<Seq<char>>);

impl View for Texts {
    type V = TextsView;

    open spec fn view(&self) -> TextsView {
        (text_of(self.description), text_of(self.attribution), text_of(self.connection_info))
    }
}

pub open spec fn shown_texts(result: Result<Texts, ApiError>) -> Result<TextsView, Failure> {
    match result {
        Ok(texts) => Ok(texts@),
        Err(error) => Err(error@),
    }
}

/// The texts after a request: those that are sent, or the current ones.
pub open spec fn patched_texts(fields: Seq<(String, Json)>, current: TextsView) -> Result<
    TextsView,
    Failure,
> {
    match patched_text(fields, "description"@, current.0, 65_536) {
        Err(failure) => Err(failure),
        Ok(description) => match patched_text(fields, "attribution"@, current.1, 2_048) {
            Err(failure) => Err(failure),
            Ok(attribution) => match patched_text(fields, "connection_info"@, current.2, 4_096) {
                Err(failure) => Err(failure),
                Ok(connection_info) => Ok((description, attribution, connection_info)),
            },
        },
    }
}

fn patch_texts(fields: &Fields, current: &Texts) -> (result: Result<Texts, ApiError>)
    ensures
        shown_texts(result) == patched_texts(fields@, current@),
{
    let description = match patch_text(fields, "description", &current.description, 65_536) {
        Ok(text) => text,
        Err(error) => return Err(error),
    };
    let attribution = match patch_text(fields, "attribution", &current.attribution, 2_048) {
        Ok(text) => text,
        Err(error) => return Err(error),
    };
    match patch_text(fields, "connection_info", &current.connection_info, 4_096) {
        Ok(connection_info) => Ok(Texts { description, attribution, connection_info }),
        Err(error) => Err(error),
    }
}

/// How a challenge scores: `function` is `static`, or else the way in which the value falls from
/// `initial` to `minimum`.
pub struct Scoring {
    pub function: String,
    pub value: i32,
    pub initial: Option<i32>,
    pub minimum: Option<i32>,
    pub decay: Option<i32>,
}

pub type ScoringView = (Seq<char>, i32, Option<i32>, Option<i32>, Option<i32>);

impl View for Scoring {
    type V = ScoringView;

    open spec fn view(&self) -> ScoringView {
        (self.function@, self.value, self.initial, self.minimum, self.decay)
    }
}

pub open spec fn shown_scoring(result: Result<Scoring, ApiError>) -> Result<ScoringView, Failure> {
    match result {
        Ok(scoring) => Ok(scoring@),
        Err(error) => Err(error@),
    }
}

/// The decay functions that go with each kind of scoring.
pub open spec fn function_fits(dynamic: bool, function: Seq<char>) -> bool {
    if dynamic {
        function == "linear"@ || function == "logarithmic"@
    } else {
        function == "static"@
    }
}

fn fits(dynamic: bool, function: &str) -> (result: bool)
    ensures
        result == function_fits(dynamic, function@),
{
    if dynamic {
        same(function, "linear") || same(function, "logarithmic")
    } else {
        same(function, "static")
    }
}

/// The value falls from an initial score to a minimum of zero or more, and does fall.
pub open spec fn range_ok(initial: i32, minimum: i32, decay: i32) -> bool {
    0 <= minimum <= initial && decay > 0
}

pub open spec fn range_problem(
    initial: Option<i32>,
    minimum: Option<i32>,
    decay: Option<i32>,
) -> Option<Failure> {
    match (initial, minimum, decay) {
        (Some(from), Some(to), Some(step)) => if range_ok(from, to, step) {
            None
        } else {
            Some(bad("Dynamic scoring requires initial >= minimum >= 0 and decay > 0"@))
        },
        _ => Some(bad("Dynamic challenges require initial, minimum, and decay"@)),
    }
}

fn check_range(initial: Option<i32>, minimum: Option<i32>, decay: Option<i32>) -> (result: Result<
    i32,
    ApiError,
>)
    ensures
        shown(result) == (match range_problem(initial, minimum, decay) {
            Some(failure) => Err(failure),
            None => Ok::<i32, Failure>(initial->Some_0),
        }),
{
    match (initial, minimum, decay) {
        (Some(from), Some(to), Some(step)) => if 0 <= to && to <= from && step > 0 {
            Ok(from)
        } else {
            Err(
                ApiError::bad_request(
                    "Dynamic scoring requires initial >= minimum >= 0 and decay > 0",
                ),
            )
        },
        _ => Err(ApiError::bad_request("Dynamic challenges require initial, minimum, and decay")),
    }
}

/// The scoring of a new challenge.
pub open spec fn new_scoring(fields: Seq<(String, Json)>, dynamic: bool) -> Result<
    ScoringView,
    Failure,
> {
    let function = field_text_or(
        fields,
        "function"@,
        if dynamic {
            "logarithmic"@
        } else {
            "static"@
        },
    );
    if !function_fits(dynamic, function) {
        Err(bad("Scoring type and decay function do not match"@))
    } else {
        match (
            integer_field(fields, "value"@),
            integer_field(fields, "initial"@),
            integer_field(fields, "minimum"@),
            integer_field(fields, "decay"@),
        ) {
            (Err(failure), _, _, _) => Err(failure),
            (_, Err(failure), _, _) => Err(failure),
            (_, _, Err(failure), _) => Err(failure),
            (_, _, _, Err(failure)) => Err(failure),
            (Ok(value), Ok(initial), Ok(minimum), Ok(decay)) => if dynamic {
                let from = if initial is Some {
                    initial
                } else {
                    value
                };
                if initial is Some && value is Some && initial != value {
                    Err(bad("Dynamic value must match the initial score"@))
                } else {
                    match range_problem(from, minimum, decay) {
                        Some(failure) => Err(failure),
                        None => Ok((function, from->Some_0, from, minimum, decay)),
                    }
                }
            } else if initial is Some || minimum is Some || decay is Some {
                Err(bad("Standard scoring cannot define dynamic scoring fields"@))
            } else {
                match value {
                    None => Err(bad("Challenge value is required"@)),
                    Some(points) => if points < 0 {
                        Err(bad("Challenge value cannot be negative"@))
                    } else {
                        Ok((function, points, None, None, None))
                    },
                }
            },
        }
    }
}

fn read_scoring(fields: &Fields, dynamic: bool) -> (result: Result<Scoring, ApiError>)
    ensures
        shown_scoring(result) == new_scoring(fields@, dynamic),
{
    let default = if dynamic {
        "logarithmic"
    } else {
        "static"
    };
    let function = optional_string_or(fields, "function", default);
    if !fits(dynamic, function.as_str()) {
        return Err(ApiError::bad_request("Scoring type and decay function do not match"));
    }
    let supplied_value: Option<i32> = match optional_i32(fields, "value") {
        Ok(value) => value,
        Err(error) => return Err(error),
    };
    let supplied_initial: Option<i32> = match optional_i32(fields, "initial") {
        Ok(value) => value,
        Err(error) => return Err(error),
    };
    let minimum: Option<i32> = match optional_i32(fields, "minimum") {
        Ok(value) => value,
        Err(error) => return Err(error),
    };
    let decay: Option<i32> = match optional_i32(fields, "decay") {
        Ok(value) => value,
        Err(error) => return Err(error),
    };
    if dynamic {
        let initial: Option<i32> = match (supplied_initial, supplied_value) {
            (Some(initial), Some(value)) => {
                if initial != value {
                    return Err(ApiError::bad_request("Dynamic value must match the initial score"));
                }
                Some(initial)
            },
            (Some(initial), None) => Some(initial),
            (None, value) => value,
        };
        match check_range(initial, minimum, decay) {
            Ok(value) => Ok(Scoring { function, value, initial, minimum, decay }),
            Err(error) => Err(error),
        }
    } else {
        if supplied_initial.is_some() || minimum.is_some() || decay.is_some() {
            return Err(
                ApiError::bad_request("Standard scoring cannot define dynamic scoring fields"),
            );
        }
        match supplied_value {
            None => Err(ApiError::bad_request("Challenge value is required")),
            Some(value) => if value < 0 {
                Err(ApiError::bad_request("Challenge value cannot be negative"))
            } else {
                Ok(Scoring { function, value, initial: None, minimum: None, decay: None })
            },
        }
    }
}

/// The rules of a new challenge: how often it may be tried, where it is listed, who sees it and
/// how many flags it takes.
pub struct Rules {
    pub max_attempts: i32,
    pub position: i32,
    pub state: String,
    pub logic: String,
}

pub type RulesView = (i32, i32, Seq<char>, Seq<char>);

impl View for Rules {
    type V = RulesView;

    open spec fn view(&self) -> RulesView {
        (self.max_attempts, self.position, self.state@, self.logic@)
    }
}

pub open spec fn shown_rules(result: Result<Rules, ApiError>) -> Result<RulesView, Failure> {
    match result {
        Ok(rules) => Ok(rules@),
        Err(error) => Err(error@),
    }
}

pub open spec fn or_zero(value: Option<i32>) -> i32 {
    match value {
        Some(number) => number,
        None => 0,
    }
}

pub open spec fn is_state(word: Seq<char>) -> bool {
    word == "visible"@ || word == "hidden"@ || word == "locked"@
}

fn state_known(word: &str) -> (result: bool)
    ensures
        result == is_state(word@),
{
    same(word, "visible") || same(word, "hidden") || same(word, "locked")
}

pub open spec fn is_logic(word: Seq<char>) -> bool {
    word == "any"@ || word == "all"@ || word == "team"@
}

fn logic_known(word: &str) -> (result: bool)
    ensures
        result == is_logic(word@),
{
    same(word, "any") || same(word, "all") || same(word, "team")
}

pub open spec fn new_rules(fields: Seq<(String, Json)>) -> Result<RulesView, Failure> {
    match integer_field(fields, "max_attempts"@) {
        Err(failure) => Err(failure),
        Ok(supplied) => match attempts_limit(or_zero(supplied)) {
            Err(failure) => Err(failure),
            Ok(max_attempts) => match integer_field(fields, "position"@) {
                Err(failure) => Err(failure),
                Ok(place) => {
                    let position = or_zero(place);
                    let state = field_text_or(fields, "state"@, "visible"@);
                    let logic = field_text_or(fields, "logic"@, "any"@);
                    if !(0 <= position <= 32767) {
                        Err(bad("Challenge position is invalid"@))
                    } else if !is_state(state) {
                        Err(bad("Unsupported challenge state"@))
                    } else if !is_logic(logic) {
                        Err(bad("Unsupported challenge logic"@))
                    } else {
                        match requirements_problem(lookup(fields, "requirements"@)) {
                            Some(failure) => Err(failure),
                            None => Ok((max_attempts, position, state, logic)),
                        }
                    }
                },
            },
        },
    }
}

fn read_rules(fields: &Fields) -> (result: Result<Rules, ApiError>)
    ensures
        shown_rules(result) == new_rules(fields@),
{
    let supplied: i32 = match optional_i32(fields, "max_attempts") {
        Ok(Some(value)) => value,
        Ok(None) => 0,
        Err(error) => return Err(error),
    };
    let max_attempts: i32 = match validate_max_attempts(supplied) {
        Ok(value) => value,
        Err(error) => return Err(error),
    };
    let position: i32 = match optional_i32(fields, "position") {
        Ok(Some(value)) => value,
        Ok(None) => 0,
        Err(error) => return Err(error),
    };
    if position < 0 || position > 32767 {
        return Err(ApiError::bad_request("Challenge position is invalid"));
    }
    let state = optional_string_or(fields, "state", "visible");
    if !state_known(state.as_str()) {
        return Err(ApiError::bad_request("Unsupported challenge state"));
    }
    let logic = optional_string_or(fields, "logic", "any");
    if !logic_known(logic.as_str()) {
        return Err(ApiError::bad_request("Unsupported challenge logic"));
    }
    match validate_requirements(find(fields, "requirements")) {
        Ok(_) => Ok(Rules { max_attempts, position, state, logic }),
        Err(error) => Err(error),
    }
}

// ---------------------------------------------------------------------------
// The first flag and the runtime of a new challenge
// ---------------------------------------------------------------------------

/// The flag that a new challenge comes with.
pub struct InitialFlag {
    pub flag_type: String,
    pub content: String,
    pub policy: FlagPolicyData,
}

/// The type, content and options of a flag in a request: an object with these fields, or a list of
/// them.
pub open spec fn flag_parts(value: Json) -> Option<(Seq<char>, Seq<char>, Json)> {
    match value {
        Json::Object(fields) => match (lookup(fields@, "type"@), lookup(fields@, "content"@)) {
            (Some(Json::Text(kind)), Some(Json::Text(content))) => Some(
                (
                    kind@,
                    content@,
                    match lookup(fields@, "data"@) {
                        Some(data) => data,
                        None => Json::Null,
                    },
                ),
            ),
            _ => None,
        },
        Json::Array(values) => if values@.len() == 2 || values@.len() == 3 {
            match (values@[0], values@[1]) {
                (Json::Text(kind), Json::Text(content)) => Some(
                    (
                        kind@,
                        content@,
                        if values@.len() == 3 {
                            values@[2]
                        } else {
                            Json::Null
                        },
                    ),
                ),
                _ => None,
            }
        } else {
            None
        },
        _ => None,
    }
}

pub open spec fn initial_flag_of(fields: Seq<(String, Json)>, exposure: Seq<char>) -> Result<
    (Seq<char>, Seq<char>, FlagPolicyData),
    Failure,
> {
    match lookup(fields, "flag"@) {
        None => Err(bad("An initial flag is required"@)),
        Some(value) => match flag_parts(value) {
            None => Err(bad("Initial flag data is invalid"@)),
            Some((kind, content, data)) => normal_definition(kind, content, data, exposure),
        },
    }
}

fn read_parts(value: &Json) -> (result: Option<(&str, &str, Option<&Json>)>)
    ensures
        match result {
            Some((kind, content, data)) => flag_parts(*value) == Some(
                (
                    kind@,
                    content@,
                    match data {
                        Some(json) => *json,
                        None => Json::Null,
                    },
                ),
            ),
            None => flag_parts(*value) is None,
        },
{
    match value {
        Json::Object(fields) => match (find(fields, "type"), find(fields, "content")) {
            (Some(Json::Text(kind)), Some(Json::Text(content))) => Some(
                (kind.as_str(), content.as_str(), find(fields, "data")),
            ),
            _ => None,
        },
        Json::Array(values) => {
            if values.len() != 2 && values.len() != 3 {
                return None;
            }
            match (&values[0], &values[1]) {
                (Json::Text(kind), Json::Text(content)) => {
                    let data = if values.len() == 3 {
                        Some(&values[2])
                    } else {
                        None
                    };
                    Some((kind.as_str(), content.as_str(), data))
                },
                _ => None,
            }
        },
        _ => None,
    }
}

fn read_initial_flag(fields: &Fields, exposure: &str) -> (result: Result<
    (String, String, FlagPolicyData),
    ApiError,
>)
    ensures
        shown_definition(result) == initial_flag_of(fields@, exposure@),
{
    let value = match find(fields, "flag") {
        None => return Err(ApiError::bad_request("An initial flag is required")),
        Some(value) => value,
    };
    let (kind, content, data) = match read_parts(value) {
        None => return Err(ApiError::bad_request("Initial flag data is invalid")),
        Some(parts) => parts,
    };
    let nothing = Json::Null;
    let options = match data {
        Some(data) => data,
        None => &nothing,
    };
    normalize_definition(kind, content, options, exposure)
}

/// What a challenge's creation reads of its runtime configuration.
#[derive(Clone, Copy, Debug, PartialEq, Eq, Structural)]
pub struct RuntimeRequest {
    pub managed: bool,
    pub enabled: bool,
    pub enable_global_gate: bool,
}

/// A private challenge has a managed runtime, a public one has none. `parsed` is the runtime
/// configuration of the request, where it has the form of one.
pub open spec fn runtime_of(
    fields: Seq<(String, Json)>,
    exposure: Seq<char>,
    parsed: Option<RuntimeRequest>,
) -> Result<Option<RuntimeRequest>, Failure> {
    let present = match lookup(fields, "runtime"@) {
        Some(Json::Null) => false,
        Some(_) => true,
        None => false,
    };
    if exposure == "private"@ {
        if !present {
            Err(bad("Private challenges require runtime configuration"@))
        } else {
            match parsed {
                None => Err(bad("Private runtime data is invalid"@)),
                Some(runtime) => if !runtime.managed {
                    Err(bad("Private challenges require a managed runtime"@))
                } else {
                    Ok(Some(runtime))
                },
            }
        }
    } else if present {
        Err(bad("Public challenges cannot define managed runtime configuration"@))
    } else {
        Ok(None)
    }
}

fn read_runtime(fields: &Fields, exposure: &str, parsed: Option<RuntimeRequest>) -> (result: Result<
    Option<RuntimeRequest>,
    ApiError,
>)
    ensures
        shown(result) == runtime_of(fields@, exposure@, parsed),
{
    let present = match find(fields, "runtime") {
        Some(Json::Null) => false,
        Some(_) => true,
        None => false,
    };
    if same(exposure, "private") {
        if !present {
            return Err(ApiError::bad_request("Private challenges require runtime configuration"));
        }
        match parsed {
            None => Err(ApiError::bad_request("Private runtime data is invalid")),
            Some(runtime) => if !runtime.managed {
                Err(ApiError::bad_request("Private challenges require a managed runtime"))
            } else {
                Ok(Some(runtime))
            },
        }
    } else if present {
        Err(ApiError::bad_request("Public challenges cannot define managed runtime configuration"))
    } else {
        Ok(None)
    }
}

// ---------------------------------------------------------------------------
// Creating
// ---------------------------------------------------------------------------

/// A challenge that may be created.
pub struct NewChallenge {
    pub heading: Heading,
    pub texts: Texts,
    pub flag: InitialFlag,
    pub runtime: Option<RuntimeRequest>,
    pub dynamic: bool,
    pub scoring: Scoring,
    pub rules: Rules,
}

/// A new challenge by its parts, each taken by value.
pub type NewChallengeView = (
    (Seq<char>, i32, Seq<char>),
    TextsView,
    (Seq<char>, Seq<char>, FlagPolicyData),
    Option<RuntimeRequest>,
    bool,
    ScoringView,
    RulesView,
);

impl View for NewChallenge {
    type V = NewChallengeView;

    open spec fn view(&self) -> NewChallengeView {
        (
            (self.heading.name@, self.heading.category_id, self.heading.exposure@),
            self.texts@,
            (self.flag.flag_type@, self.flag.content@, self.flag.policy),
            self.runtime,
            self.dynamic,
            self.scoring@,
            self.rules@,
        )
    }
}

pub open spec fn shown_new(result: Result<NewChallenge, ApiError>) -> Result<
    NewChallengeView,
    Failure,
> {
    match result {
        Ok(challenge) => Ok(challenge@),
        Err(error) => Err(error@),
    }
}

/// Whether the challenge scores dynamically.
pub open spec fn scoring_kind(fields: Seq<(String, Json)>) -> Result<bool, Failure> {
    let kind = field_text_or(fields, "type"@, "standard"@);
    if kind == "dynamic"@ {
        Ok(true)
    } else if kind == "standard"@ {
        Ok(false)
    } else {
        Err(bad("Unsupported challenge type"@))
    }
}

/// The challenge that an object describes; the first part that is invalid decides on the failure.
pub open spec fn new_challenge(fields: Seq<(String, Json)>, parsed: Option<RuntimeRequest>) -> Result<
    NewChallengeView,
    Failure,
> {
    match heading_of(fields) {
        Err(failure) => Err(failure),
        Ok(heading) => match patched_texts(fields, (None, None, None)) {
            Err(failure) => Err(failure),
            Ok(texts) => match initial_flag_of(fields, heading.2) {
                Err(failure) => Err(failure),
                Ok(flag) => match runtime_of(fields, heading.2, parsed) {
                    Err(failure) => Err(failure),
                    Ok(runtime) => match scoring_kind(fields) {
                        Err(failure) => Err(failure),
                        Ok(dynamic) => match new_scoring(fields, dynamic) {
                            Err(failure) => Err(failure),
                            Ok(scoring) => match new_rules(fields) {
                                Err(failure) => Err(failure),
                                Ok(rules) => Ok(
                                    (heading, texts, flag, runtime, dynamic, scoring, rules),
                                ),
                            },
                        },
                    },
                },
            },
        },
    }
}

pub open spec fn create_request(admin: bool, payload: Json, parsed: Option<RuntimeRequest>) -> Result<
    NewChallengeView,
    Failure,
> {
    if !admin {
        Err(forbidden("Administrator access is required"@))
    } else {
        match payload {
            Json::Object(fields) => new_challenge(fields@, parsed),
            _ => Err(bad("Challenge data must be an object"@)),
        }
    }
}

/// Reads the request to create a challenge. `parsed` is what the request's runtime configuration
/// says, where it has the form of one.
pub fn create(user: &CurrentUser, payload: &Json, parsed: Option<RuntimeRequest>) -> (result: Result<
    NewChallenge,
    ApiError,
>)
    ensures
        shown_new(result) == create_request(user.admin(), *payload, parsed),
{
    if let Err(error) = crate::auth::require_admin(user) {
        return Err(error);
    }
    let fields = match payload {
        Json::Object(fields) => fields,
        _ => return Err(ApiError::bad_request("Challenge data must be an object")),
    };
    let heading = match read_heading(fields) {
        Ok(heading) => heading,
        Err(error) => return Err(error),
    };
    let blank = Texts { description: None, attribution: None, connection_info: None };
    let texts = match patch_texts(fields, &blank) {
        Ok(texts) => texts,
        Err(error) => return Err(error),
    };
    let (flag_type, content, policy) = match read_initial_flag(fields, heading.exposure.as_str()) {
        Ok(flag) => flag,
        Err(error) => return Err(error),
    };
    let runtime = match read_runtime(fields, heading.exposure.as_str(), parsed) {
        Ok(runtime) => runtime,
        Err(error) => return Err(error),
    };
    let kind = optional_string_or(fields, "type", "standard");
    let dynamic = same(kind.as_str(), "dynamic");
    if !dynamic && !same(kind.as_str(), "standard") {
        return Err(ApiError::bad_request("Unsupported challenge type"));
    }
    let scoring = match read_scoring(fields, dynamic) {
        Ok(scoring) => scoring,
        Err(error) => return Err(error),
    };
    let rules = match read_rules(fields) {
        Ok(rules) => rules,
        Err(error) => return Err(error),
    };
    let flag = InitialFlag { flag_type, content, policy };
    Ok(NewChallenge { heading, texts, flag, runtime, dynamic, scoring, rules })
}

/// What comes next once the request to create a challenge has been read.
#[derive(Clone, Copy, Debug, PartialEq, Eq, Structural)]
pub enum CreateStep {
    ReadCategory { category_id: i32 },
    /// Enables launches of private challenges where that is asked for; reads whether they are
    /// enabled.
    PrepareGate { enable: bool },
    Insert { next_id: Option<i32> },
}

/// `category` says whether the category exists and `gate` whether private launches are enabled,
/// each once it has been read.
pub open spec fn create_course(
    fields: Seq<(String, Json)>,
    challenge: NewChallengeView,
    category: Option<bool>,
    gate: Option<bool>,
) -> Result<CreateStep, Failure> {
    let shown_at_once = challenge.6.2 != "hidden"@;
    match category {
        None => Ok(CreateStep::ReadCategory { category_id: challenge.0.1 }),
        Some(exists) => if !exists {
            Err(bad("Select an existing challenge category"@))
        } else if challenge.3 is Some && shown_at_once && !challenge.3->Some_0.enabled {
            Err(conflict("Visible private challenges require an enabled managed runtime"@))
        } else if challenge.3 is Some && gate is None {
            Ok(CreateStep::PrepareGate { enable: challenge.3->Some_0.enable_global_gate })
        } else if challenge.3 is Some && gate == Some(false) && shown_at_once {
            Err(
                conflict(
                    "Enable private challenge launches globally or save this challenge as hidden"@,
                ),
            )
        } else {
            match integer_field(fields, "next_id"@) {
                Err(failure) => Err(failure),
                Ok(next_id) => Ok(CreateStep::Insert { next_id }),
            }
        },
    }
}

pub fn create_step(
    fields: &Fields,
    challenge: &NewChallenge,
    category: Option<bool>,
    gate: Option<bool>,
) -> (result: Result<CreateStep, ApiError>)
    ensures
        shown(result) == create_course(fields@, challenge@, category, gate),
{
    match category {
        None => return Ok(CreateStep::ReadCategory { category_id: challenge.heading.category_id }),
        Some(exists) => {
            if !exists {
                return Err(ApiError::bad_request("Select an existing challenge category"));
            }
        },
    }
    if let Some(runtime) = challenge.runtime {
        let shown_at_once = !same(challenge.rules.state.as_str(), "hidden");
        if shown_at_once && !runtime.enabled {
            return Err(
                ApiError::conflict("Visible private challenges require an enabled managed runtime"),
            );
        }
        match gate {
            None => return Ok(CreateStep::PrepareGate { enable: runtime.enable_global_gate }),
            Some(enabled) => {
                if !enabled && shown_at_once {
                    return Err(
                        ApiError::conflict(
                            "Enable private challenge launches globally or save this challenge as hidden",
                        ),
                    );
                }
            },
        }
    }
    match optional_i32(fields, "next_id") {
        Ok(next_id) => Ok(CreateStep::Insert { next_id }),
        Err(error) => Err(error),
    }
}

// ---------------------------------------------------------------------------
// Changing
// ---------------------------------------------------------------------------

/// A challenge as it is stored.
pub struct ChallengeDetail {
    pub id: i32,
    pub name: Option<String>,
    pub texts: Texts,
    pub next_id: Option<i32>,
    pub max_attempts: Option<i32>,
    pub value: Option<i32>,
    pub category: Option<String>,
    pub category_id: i32,
    pub challenge_kind: String,
    pub exposure: String,
    pub challenge_type: Option<String>,
    pub state: String,
    pub logic: String,
    pub initial: Option<i32>,
    pub minimum: Option<i32>,
    pub decay: Option<i32>,
    pub position: i32,
    pub function: Option<String>,
    pub requirements: Option<Json>,
}

impl ChallengeDetail {
    pub open spec fn dynamic(self) -> bool {
        text_of(self.challenge_type) == Some("dynamic"@)
    }

    /// The scoring type under which the challenge is listed.
    pub open spec fn kind_word(self) -> Seq<char> {
        match self.challenge_type {
            Some(word) => word@,
            None => "standard"@,
        }
    }

    pub fn is_dynamic(&self) -> (result: bool)
        ensures
            result == self.dynamic(),
    {
        match &self.challenge_type {
            Some(word) => same(word.as_str(), "dynamic"),
            None => false,
        }
    }

    pub fn scoring_type(&self) -> (result: &str)
        ensures
            result@ == self.kind_word(),
    {
        match &self.challenge_type {
            Some(word) => word.as_str(),
            None => "standard",
        }
    }
}

/// The name and the category of a changed challenge: the scoring type stays what it is, and the
/// category is chosen by its number.
pub open spec fn changed_heading(fields: Seq<(String, Json)>, current: ChallengeDetail) -> Result<
    (Seq<char>, i32),
    Failure,
> {
    let kind = required_field(fields, "type"@, 80);
    if has_field(fields, "type"@) && kind is Err {
        Err(kind->Err_0)
    } else if has_field(fields, "type"@) && kind->Ok_0 != current.kind_word() {
        Err(bad("Challenge scoring type cannot be changed after creation"@))
    } else {
        match patched_required(fields, "name"@, text_of(current.name), 80) {
            Err(failure) => Err(failure),
            Ok(name) => if has_field(fields, "category"@) {
                Err(bad("Select challenge categories by category_id"@))
            } else if has_field(fields, "category_id"@) {
                match integer_field(fields, "category_id"@) {
                    Err(failure) => Err(failure),
                    Ok(None) => Err(bad("Challenge category_id is required"@)),
                    Ok(Some(category_id)) => Ok((name, category_id)),
                }
            } else {
                Ok((name, current.category_id))
            },
        }
    }
}

fn change_heading(fields: &Fields, current: &ChallengeDetail) -> (result: Result<
    (String, i32),
    ApiError,
>)
    ensures
        match result {
            Ok((name, id)) => changed_heading(fields@, *current) == Ok::<(Seq<char>, i32), Failure>(
                (name@, id),
            ),
            Err(error) => changed_heading(fields@, *current) == Err::<(Seq<char>, i32), Failure>(
                error@,
            ),
        },
{
    if contains_key(fields, "type") {
        match required_string(fields, "type", 80) {
            Ok(kind) => {
                if !same(kind.as_str(), current.scoring_type()) {
                    return Err(
                        ApiError::bad_request(
                            "Challenge scoring type cannot be changed after creation",
                        ),
                    );
                }
            },
            Err(error) => return Err(error),
        }
    }
    let name = match patch_required_string(fields, "name", &current.name, 80) {
        Ok(name) => name,
        Err(error) => return Err(error),
    };
    if contains_key(fields, "category") {
        return Err(ApiError::bad_request("Select challenge categories by category_id"));
    }
    if contains_key(fields, "category_id") {
        match optional_i32(fields, "category_id") {
            Ok(Some(id)) => Ok((name, id)),
            Ok(None) => Err(ApiError::bad_request("Challenge category_id is required")),
            Err(error) => Err(error),
        }
    } else {
        Ok((name, current.category_id))
    }
}

/// The exposure of a changed challenge, and whether private launches are to be enabled.
pub open spec fn changed_exposure(fields: Seq<(String, Json)>, current: ChallengeDetail) -> Result<
    (Seq<char>, bool),
    Failure,
> {
    let kind = required_field(fields, "challenge_type"@, 32);
    if has_field(fields, "challenge_type"@) && kind is Err {
        Err(kind->Err_0)
    } else if has_field(fields, "challenge_type"@) && kind->Ok_0 != current.challenge_kind@ {
        Err(bad("Challenge type cannot be changed after creation"@))
    } else {
        let exposure = if has_field(fields, "exposure"@) {
            required_field(fields, "exposure"@, 16)
        } else {
            Ok(current.exposure@)
        };
        match exposure {
            Err(failure) => Err(failure),
            Ok(word) => if !is_exposure(word) {
                Err(bad("Challenge exposure must be public or private"@))
            } else {
                match gate_request(fields, current.challenge_kind@, word) {
                    Err(failure) => Err(failure),
                    Ok(enable) => Ok((word, enable)),
                }
            },
        }
    }
}

fn change_exposure(fields: &Fields, current: &ChallengeDetail) -> (result: Result<
    (String, bool),
    ApiError,
>)
    ensures
        match result {
            Ok((word, enable)) => changed_exposure(fields@, *current) == Ok::<
                (Seq<char>, bool),
                Failure,
            >((word@, enable)),
            Err(error) => changed_exposure(fields@, *current) == Err::<(Seq<char>, bool), Failure>(
                error@,
            ),
        },
{
    if contains_key(fields, "challenge_type") {
        match required_string(fields, "challenge_type", 32) {
            Ok(kind) => {
                if !same(kind.as_str(), current.challenge_kind.as_str()) {
                    return Err(
                        ApiError::bad_request("Challenge type cannot be changed after creation"),
                    );
                }
            },
            Err(error) => return Err(error),
        }
    }
    let exposure = if contains_key(fields, "exposure") {
        match required_string(fields, "exposure", 16) {
            Ok(exposure) => exposure,
            Err(error) => return Err(error),
        }
    } else {
        current.exposure.clone()
    };
    if !exposure_known(exposure.as_str()) {
        return Err(ApiError::bad_request("Challenge exposure must be public or private"));
    }
    match private_gate_enable_requested(
        fields,
        current.challenge_kind.as_str(),
        exposure.as_str(),
    ) {
        Ok(enable) => Ok((exposure, enable)),
        Err(error) => Err(error),
    }
}

/// The texts and the display of a changed challenge.
pub struct Display {
    pub texts: Texts,
    pub next_id: Option<i32>,
    pub max_attempts: i32,
    pub position: i32,
    pub state: String,
}

pub type DisplayView = (TextsView, Option<i32>, i32, i32, Seq<char>);

impl View for Display {
    type V = DisplayView;

    open spec fn view(&self) -> DisplayView {
        (self.texts@, self.next_id, self.max_attempts, self.position, self.state@)
    }
}

pub open spec fn changed_display(fields: Seq<(String, Json)>, current: ChallengeDetail) -> Result<
    DisplayView,
    Failure,
> {
    if has_field(fields, "public_url"@) {
        Err(bad("Challenge public_url is not supported; use optional connection_info"@))
    } else {
        match patched_texts(fields, current.texts@) {
            Err(failure) => Err(failure),
            Ok(texts) => match patched_integer(fields, "next_id"@, current.next_id) {
                Err(failure) => Err(failure),
                Ok(next_id) => match patched_integer(
                    fields,
                    "max_attempts"@,
                    current.max_attempts,
                ) {
                    Err(failure) => Err(failure),
                    Ok(limit) => match attempts_limit(or_zero(limit)) {
                        Err(failure) => Err(failure),
                        Ok(max_attempts) => match patched_integer(
                            fields,
                            "position"@,
                            Some(current.position),
                        ) {
                            Err(failure) => Err(failure),
                            Ok(place) => if !(0 <= or_zero(place) <= 32767) {
                                Err(bad("Challenge position is invalid"@))
                            } else {
                                match patched_required(
                                    fields,
                                    "state"@,
                                    Some(current.state@),
                                    80,
                                ) {
                                    Err(failure) => Err(failure),
                                    Ok(state) => if !is_state(state) {
                                        Err(bad("Unsupported challenge state"@))
                                    } else {
                                        Ok((texts, next_id, max_attempts, or_zero(place), state))
                                    },
                                }
                            },
                        },
                    },
                },
            },
        }
    }
}

fn change_display(fields: &Fields, current: &ChallengeDetail) -> (result: Result<Display, ApiError>)
    ensures
        match result {
            Ok(display) => changed_display(fields@, *current) == Ok::<DisplayView, Failure>(
                display@,
            ),
            Err(error) => changed_display(fields@, *current) == Err::<DisplayView, Failure>(error@),
        },
{
    if contains_key(fields, "public_url") {
        return Err(
            ApiError::bad_request(
                "Challenge public_url is not supported; use optional connection_info",
            ),
        );
    }
    let texts = match patch_texts(fields, &current.texts) {
        Ok(texts) => texts,
        Err(error) => return Err(error),
    };
    let next_id: Option<i32> = match patch_i32(fields, "next_id", current.next_id) {
        Ok(value) => value,
        Err(error) => return Err(error),
    };
    let limit: i32 = match patch_i32(fields, "max_attempts", current.max_attempts) {
        Ok(Some(value)) => value,
        Ok(None) => 0,
        Err(error) => return Err(error),
    };
    let max_attempts: i32 = match validate_max_attempts(limit) {
        Ok(value) => value,
        Err(error) => return Err(error),
    };
    let position: i32 = match patch_i32(fields, "position", Some(current.position)) {
        Ok(Some(value)) => value,
        Ok(None) => 0,
        Err(error) => return Err(error),
    };
    if position < 0 || position > 32767 {
        return Err(ApiError::bad_request("Challenge position is invalid"));
    }
    let current_state = Some(current.state.clone());
    let state = match patch_required_string(fields, "state", &current_state, 80) {
        Ok(state) => state,
        Err(error) => return Err(error),
    };
    if !state_known(state.as_str()) {
        return Err(ApiError::bad_request("Unsupported challenge state"));
    }
    Ok(Display { texts, next_id, max_attempts, position, state })
}

/// The scoring of a changed challenge. A dynamic one starts again from its initial score.
pub open spec fn changed_scoring(
    fields: Seq<(String, Json)>,
    current: ChallengeDetail,
    function: Seq<char>,
) -> Result<ScoringView, Failure> {
    if current.dynamic() {
        match (
            patched_integer(fields, "initial"@, current.initial),
            patched_integer(fields, "minimum"@, current.minimum),
            patched_integer(fields, "decay"@, current.decay),
        ) {
            (Err(failure), _, _) => Err(failure),
            (_, Err(failure), _) => Err(failure),
            (_, _, Err(failure)) => Err(failure),
            (Ok(initial), Ok(minimum), Ok(decay)) => match range_problem(initial, minimum, decay) {
                Some(failure) => Err(failure),
                None => match integer_field(fields, "value"@) {
                    Err(failure) => Err(failure),
                    Ok(value) => if value is Some && value != initial {
                        Err(bad("Dynamic value must match the initial score"@))
                    } else {
                        Ok((function, initial->Some_0, initial, minimum, decay))
                    },
                },
            },
        }
    } else if has_field(fields, "initial"@) || has_field(fields, "minimum"@) || has_field(
        fields,
        "decay"@,
    ) {
        Err(bad("Standard scoring cannot define dynamic scoring fields"@))
    } else {
        match patched_integer(fields, "value"@, current.value) {
            Err(failure) => Err(failure),
            Ok(None) => Err(bad("Challenge value is required"@)),
            Ok(Some(value)) => if value < 0 {
                Err(bad("Challenge value cannot be negative"@))
            } else {
                Ok((function, value, None, None, None))
            },
        }
    }
}

fn change_scoring(fields: &Fields, current: &ChallengeDetail, function: String) -> (result: Result<
    Scoring,
    ApiError,
>)
    ensures
        shown_scoring(result) == changed_scoring(fields@, *current, function@),
{
    if current.is_dynamic() {
        let initial: Option<i32> = match patch_i32(fields, "initial", current.initial) {
            Ok(value) => value,
            Err(error) => return Err(error),
        };
        let minimum: Option<i32> = match patch_i32(fields, "minimum", current.minimum) {
            Ok(value) => value,
            Err(error) => return Err(error),
        };
        let decay: Option<i32> = match patch_i32(fields, "decay", current.decay) {
            Ok(value) => value,
            Err(error) => return Err(error),
        };
        let start: i32 = match check_range(initial, minimum, decay) {
            Ok(value) => value,
            Err(error) => return Err(error),
        };
        match optional_i32(fields, "value") {
            Ok(Some(value)) => {
                if value != start {
                    return Err(ApiError::bad_request("Dynamic value must match the initial score"));
                }
            },
            Ok(None) => {},
            Err(error) => return Err(error),
        }
        Ok(Scoring { function, value: start, initial, minimum, decay })
    } else {
        if contains_key(fields, "initial") || contains_key(fields, "minimum") || contains_key(
            fields,
            "decay",
        ) {
            return Err(
                ApiError::bad_request("Standard scoring cannot define dynamic scoring fields"),
            );
        }
        match patch_i32(fields, "value", current.value) {
            Ok(Some(value)) => if value < 0 {
                Err(ApiError::bad_request("Challenge value cannot be negative"))
            } else {
                Ok(Scoring { function, value, initial: None, minimum: None, decay: None })
            },
            Ok(None) => Err(ApiError::bad_request("Challenge value is required")),
            Err(error) => Err(error),
        }
    }
}

/// The requirements of a changed challenge: `null` takes them away.
pub open spec fn changed_requirements(
    fields: Seq<(String, Json)>,
    current: Option<Json>,
) -> Option<Json> {
    match lookup(fields, "requirements"@) {
        None => current,
        Some(Json::Null) => None,
        Some(value) => Some(value),
    }
}

pub fn new_requirements<'a>(fields: &'a Fields, current: &'a Option<Json>) -> (result: Option<
    &'a Json,
>)
    ensures
        borrowed(result) == changed_requirements(fields@, *current),
{
    match find(fields, "requirements") {
        None => current.as_ref(),
        Some(Json::Null) => None,
        Some(value) => Some(value),
    }
}

/// What has been read for a change. `gate_prepared` says that private launches were enabled.
#[derive(Clone, Copy, Debug)]
pub struct UpdateFacts {
    pub category_exists: Option<bool>,
    pub active_instances: Option<bool>,
    pub managed_runtime: Option<bool>,
    pub generated_flag: Option<bool>,
    pub gate_prepared: bool,
    pub launchable: Option<bool>,
}

/// What has to be read or done before a change can be saved.
#[derive(Clone, Copy, Debug, PartialEq, Eq, Structural)]
pub enum UpdateRead {
    Category { category_id: i32 },
    ActiveInstances,
    ManagedRuntime,
    GeneratedFlag,
    PrepareGate,
    Launchable,
}

/// The rest of a changed challenge: its logic and scoring.
pub open spec fn changed_rest(fields: Seq<(String, Json)>, current: ChallengeDetail) -> Result<
    (Seq<char>, ScoringView),
    Failure,
> {
    match patched_required(fields, "logic"@, Some(current.logic@), 80) {
        Err(failure) => Err(failure),
        Ok(logic) => if !is_logic(logic) {
            Err(bad("Unsupported challenge logic"@))
        } else {
            match patched_required(fields, "function"@, text_of(current.function), 32) {
                Err(failure) => Err(failure),
                Ok(function) => if !function_fits(current.dynamic(), function) {
                    Err(bad("Scoring type and decay function do not match"@))
                } else {
                    match changed_scoring(fields, current, function) {
                        Err(failure) => Err(failure),
                        Ok(scoring) => match requirements_problem(
                            changed_requirements(fields, current.requirements),
                        ) {
                            Some(failure) => Err(failure),
                            None => Ok((logic, scoring)),
                        },
                    }
                },
            }
        },
    }
}

fn change_rest(fields: &Fields, current: &ChallengeDetail) -> (result: Result<
    (String, Scoring),
    ApiError,
>)
    ensures
        match result {
            Ok((logic, scoring)) => changed_rest(fields@, *current) == Ok::<
                (Seq<char>, ScoringView),
                Failure,
            >((logic@, scoring@)),
            Err(error) => changed_rest(fields@, *current) == Err::<
                (Seq<char>, ScoringView),
                Failure,
            >(error@),
        },
{
    let current_logic = Some(current.logic.clone());
    let logic = match patch_required_string(fields, "logic", &current_logic, 80) {
        Ok(logic) => logic,
        Err(error) => return Err(error),
    };
    if !logic_known(logic.as_str()) {
        return Err(ApiError::bad_request("Unsupported challenge logic"));
    }
    let function = match patch_required_string(fields, "function", &current.function, 32) {
        Ok(function) => function,
        Err(error) => return Err(error),
    };
    if !fits(current.is_dynamic(), function.as_str()) {
        return Err(ApiError::bad_request("Scoring type and decay function do not match"));
    }
    let scoring = match change_scoring(fields, current, function) {
        Ok(scoring) => scoring,
        Err(error) => return Err(error),
    };
    match validate_requirements(new_requirements(fields, &current.requirements)) {
        Ok(_) => Ok((logic, scoring)),
        Err(error) => Err(error),
    }
}

/// What a change of exposure waits for, or what stands against it: running instances, a missing
/// runtime on the way to private, a generated flag on the way to public.
pub open spec fn exposure_change(from: Seq<char>, to: Seq<char>, facts: UpdateFacts) -> Result<
    Option<UpdateRead>,
    Failure,
> {
    if from == to {
        Ok(None)
    } else {
        match facts.active_instances {
            None => Ok(Some(UpdateRead::ActiveInstances)),
            Some(true) => Err(
                conflict("Stop the active challenge instances before changing exposure"@),
            ),
            Some(false) => if to == "private"@ {
                match facts.managed_runtime {
                    None => Ok(Some(UpdateRead::ManagedRuntime)),
                    Some(false) => Err(
                        conflict("Configure a managed runtime before making the challenge private"@),
                    ),
                    Some(true) => Ok(None),
                }
            } else {
                match facts.generated_flag {
                    None => Ok(Some(UpdateRead::GeneratedFlag)),
                    Some(true) => Err(
                        conflict("Replace the generated flag before making the challenge public"@),
                    ),
                    Some(false) => Ok(None),
                }
            },
        }
    }
}

fn check_exposure_change(from: &str, to: &str, facts: &UpdateFacts) -> (result: Result<
    Option<UpdateRead>,
    ApiError,
>)
    ensures
        shown(result) == exposure_change(from@, to@, *facts),
{
    if same(from, to) {
        return Ok(None);
    }
    match facts.active_instances {
        None => return Ok(Some(UpdateRead::ActiveInstances)),
        Some(active) => {
            if active {
                return Err(
                    ApiError::conflict(
                        "Stop the active challenge instances before changing exposure",
                    ),
                );
            }
        },
    }
    if same(to, "private") {
        match facts.managed_runtime {
            None => Ok(Some(UpdateRead::ManagedRuntime)),
            Some(managed) => if managed {
                Ok(None)
            } else {
                Err(
                    ApiError::conflict(
                        "Configure a managed runtime before making the challenge private",
                    ),
                )
            },
        }
    } else {
        match facts.generated_flag {
            None => Ok(Some(UpdateRead::GeneratedFlag)),
            Some(generated) => if generated {
                Err(
                    ApiError::conflict(
                        "Replace the generated flag before making the challenge public",
                    ),
                )
            } else {
                Ok(None)
            },
        }
    }
}

/// Whether a private challenge that players can see can also be launched.
pub open spec fn publication(
    exposure: Seq<char>,
    state: Seq<char>,
    enable_gate: bool,
    facts: UpdateFacts,
) -> Result<Option<UpdateRead>, Failure> {
    if enable_gate && !facts.gate_prepared {
        Ok(Some(UpdateRead::PrepareGate))
    } else if exposure != "private"@ || state == "hidden"@ {
        Ok(None)
    } else {
        match facts.launchable {
            None => Ok(Some(UpdateRead::Launchable)),
            Some(true) => Ok(None),
            Some(false) => Err(
                conflict("Enable the private runtime and global launch gate before publishing"@),
            ),
        }
    }
}

fn check_publication(exposure: &str, state: &str, enable_gate: bool, facts: &UpdateFacts) -> (result:
    Result<Option<UpdateRead>, ApiError>)
    ensures
        shown(result) == publication(exposure@, state@, enable_gate, *facts),
{
    if enable_gate && !facts.gate_prepared {
        return Ok(Some(UpdateRead::PrepareGate));
    }
    if !same(exposure, "private") || same(state, "hidden") {
        return Ok(None);
    }
    match facts.launchable {
        None => Ok(Some(UpdateRead::Launchable)),
        Some(launchable) => if launchable {
            Ok(None)
        } else {
            Err(
                ApiError::conflict(
                    "Enable the private runtime and global launch gate before publishing",
                ),
            )
        },
    }
}

/// A change that may be saved.
pub struct ChallengeChange {
    pub name: String,
    pub category_id: i32,
    pub exposure: String,
    /// The challenge becomes public and loses its runtime configuration.
    pub remove_runtime: bool,
    pub display: Display,
    pub logic: String,
    pub scoring: Scoring,
}

pub type ChallengeChangeView = (
    Seq<char>,
    i32,
    Seq<char>,
    bool,
    DisplayView,
    Seq<char>,
    ScoringView,
);

impl View for ChallengeChange {
    type V = ChallengeChangeView;

    open spec fn view(&self) -> ChallengeChangeView {
        (
            self.name@,
            self.category_id,
            self.exposure@,
            self.remove_runtime,
            self.display@,
            self.logic@,
            self.scoring@,
        )
    }
}

pub enum UpdateStep {
    Read(UpdateRead),
    Save(ChallengeChange),
}

/// The course of a change: what is read next, or what is saved.
pub enum UpdateCourse {
    Read(UpdateRead),
    Save(ChallengeChangeView),
}

pub open spec fn shown_update(result: Result<UpdateStep, ApiError>) -> Result<
    UpdateCourse,
    Failure,
> {
    match result {
        Ok(UpdateStep::Read(read)) => Ok(UpdateCourse::Read(read)),
        Ok(UpdateStep::Save(change)) => Ok(UpdateCourse::Save(change@)),
        Err(error) => Err(error@),
    }
}

pub open spec fn update_course(
    fields: Seq<(String, Json)>,
    current: ChallengeDetail,
    facts: UpdateFacts,
) -> Result<UpdateCourse, Failure> {
    match changed_heading(fields, current) {
        Err(failure) => Err(failure),
        Ok((name, category_id)) => match facts.category_exists {
            None => Ok(UpdateCourse::Read(UpdateRead::Category { category_id })),
            Some(false) => Err(bad("Select an existing challenge category"@)),
            Some(true) => match changed_exposure(fields, current) {
                Err(failure) => Err(failure),
                Ok((exposure, enable)) => match exposure_change(
                    current.exposure@,
                    exposure,
                    facts,
                ) {
                    Err(failure) => Err(failure),
                    Ok(Some(read)) => Ok(UpdateCourse::Read(read)),
                    Ok(None) => match changed_display(fields, current) {
                        Err(failure) => Err(failure),
                        Ok(display) => match publication(exposure, display.4, enable, facts) {
                            Err(failure) => Err(failure),
                            Ok(Some(read)) => Ok(UpdateCourse::Read(read)),
                            Ok(None) => match changed_rest(fields, current) {
                                Err(failure) => Err(failure),
                                Ok((logic, scoring)) => Ok(
                                    UpdateCourse::Save(
                                        (
                                            name,
                                            category_id,
                                            exposure,
                                            exposure != current.exposure@ && exposure
                                                != "private"@,
                                            display,
                                            logic,
                                            scoring,
                                        ),
                                    ),
                                ),
                            },
                        },
                    },
                },
            },
        },
    }
}

/// The fields of a request that changes a challenge, which only an administrator may send.
pub fn update_fields<'a>(user: &CurrentUser, payload: &'a Json) -> (result: Result<
    &'a Fields,
    ApiError,
>)
    ensures
        match result {
            Ok(fields) => user.admin() && (payload matches Json::Object(object) && object@
                == fields@),
            Err(error) => if !user.admin() {
                error@ == forbidden("Administrator access is required"@)
            } else {
                !(payload is Object) && error@ == bad("Challenge data must be an object"@)
            },
        },
{
    if let Err(error) = crate::auth::require_admin(user) {
        return Err(error);
    }
    match payload {
        Json::Object(fields) => Ok(fields),
        _ => Err(ApiError::bad_request("Challenge data must be an object")),
    }
}

/// The next step of a change to a challenge.
pub fn update(fields: &Fields, current: &ChallengeDetail, facts: &UpdateFacts) -> (result: Result<
    UpdateStep,
    ApiError,
>)
    ensures
        shown_update(result) == update_course(fields@, *current, *facts),
{
    let (name, category_id) = match change_heading(fields, current) {
        Ok(heading) => heading,
        Err(error) => return Err(error),
    };
    match facts.category_exists {
        None => return Ok(UpdateStep::Read(UpdateRead::Category { category_id })),
        Some(exists) => {
            if !exists {
                return Err(ApiError::bad_request("Select an existing challenge category"));
            }
        },
    }
    let (exposure, enable_gate) = match change_exposure(fields, current) {
        Ok(change) => change,
        Err(error) => return Err(error),
    };
    match check_exposure_change(current.exposure.as_str(), exposure.as_str(), facts) {
        Ok(None) => {},
        Ok(Some(read)) => return Ok(UpdateStep::Read(read)),
        Err(error) => return Err(error),
    }
    let display = match change_display(fields, current) {
        Ok(display) => display,
        Err(error) => return Err(error),
    };
    match check_publication(exposure.as_str(), display.state.as_str(), enable_gate, facts) {
        Ok(None) => {},
        Ok(Some(read)) => return Ok(UpdateStep::Read(read)),
        Err(error) => return Err(error),
    }
    let (logic, scoring) = match change_rest(fields, current) {
        Ok(rest) => rest,
        Err(error) => return Err(error),
    };
    let remove_runtime = !same(exposure.as_str(), current.exposure.as_str()) && !same(
        exposure.as_str(),
        "private",
    );
    Ok(
        UpdateStep::Save(
            ChallengeChange {
                name,
                category_id,
                exposure,
                remove_runtime,
                display,
                logic,
                scoring,
            },
        ),
    )
}

// ---------------------------------------------------------------------------
// Deleting
// ---------------------------------------------------------------------------

/// Whether a challenge may be deleted.
pub open spec fn deletable(admin: bool, exists: bool, active: bool, allocated: bool) -> bool {
    admin && exists && !active && !allocated
}

/// Only an administrator deletes a challenge, and only one without running instances and without
/// flags that players hold.
pub fn delete_challenge(
    user: &CurrentUser,
    exists: bool,
    active_instances: bool,
    allocated_flags: bool,
) -> (result: Result<(), ApiError>)
    ensures
        shown(result) == (if !user.admin() {
            Err(forbidden("Administrator access is required"@))
        } else if !exists {
            Err(not_found("Challenge not found"@))
        } else if active_instances {
            Err(conflict("Stop the active challenge instances before deleting the challenge"@))
        } else if allocated_flags {
            Err(conflict("Challenges with allocated per-user flags cannot be deleted"@))
        } else {
            Ok::<(), Failure>(())
        }),
        result is Ok <==> deletable(user.admin(), exists, active_instances, allocated_flags),
{
    if let Err(error) = crate::auth::require_admin(user) {
        return Err(error);
    }
    if !exists {
        return Err(ApiError::not_found("Challenge not found"));
    }
    if active_instances {
        return Err(
            ApiError::conflict("Stop the active challenge instances before deleting the challenge"),
        );
    }
    if allocated_flags {
        return Err(
            ApiError::conflict("Challenges with allocated per-user flags cannot be deleted"),
        );
    }
    Ok(())
}

// ---------------------------------------------------------------------------
// Laws
// ---------------------------------------------------------------------------

/// The scoring of a challenge: a static one has a value of zero or more and nothing else; a
/// dynamic one starts at its initial score and falls to a minimum of zero or more.
pub open spec fn sound_scoring(dynamic: bool, scoring: ScoringView) -> bool {
    &&& function_fits(dynamic, scoring.0)
    &&& scoring.1 >= 0
    &&& if dynamic {
        scoring.2 == Some(scoring.1) && (scoring.3 is Some && scoring.4 is Some && range_ok(
            scoring.1,
            scoring.3->Some_0,
            scoring.4->Some_0,
        ))
    } else {
        scoring.2 is None && scoring.3 is None && scoring.4 is None
    }
}

/// Whatever request creates a challenge, its scoring is sound, its state and logic are known
/// words, its place is in range, and it has a runtime exactly when it is private.
pub proof fn law_created_challenges_are_sound(
    admin: bool,
    payload: Json,
    parsed: Option<RuntimeRequest>,
)
    requires
        create_request(admin, payload, parsed) is Ok,
    ensures
        admin,
        ({
            let challenge = create_request(admin, payload, parsed)->Ok_0;
            &&& sound_scoring(challenge.4, challenge.5)
            &&& challenge.6.0 >= 0
            &&& 0 <= challenge.6.1 <= 32767
            &&& is_state(challenge.6.2)
            &&& is_logic(challenge.6.3)
            &&& is_exposure(challenge.0.2)
            &&& challenge.3 is Some <==> challenge.0.2 == "private"@
            &&& challenge.2.0 == "generated"@ ==> challenge.0.2 == "private"@
        }),
{
}

/// Whatever request changes a challenge, its scoring stays sound, its state and logic are known
/// words and its place is in range.
pub proof fn law_changed_challenges_are_sound(
    fields: Seq<(String, Json)>,
    current: ChallengeDetail,
    facts: UpdateFacts,
)
    requires
        update_course(fields, current, facts) matches Ok(UpdateCourse::Save(_)),
    ensures
        ({
            let change = update_course(fields, current, facts)->Ok_0->Save_0;
            &&& sound_scoring(current.dynamic(), change.6)
            &&& change.4.2 >= 0
            &&& 0 <= change.4.3 <= 32767
            &&& is_state(change.4.4)
            &&& is_logic(change.5)
            &&& is_exposure(change.2)
        }),
{
}

/// A challenge changes its exposure only while no instance runs; it turns private only with a
/// managed runtime and public only without a generated flag. A private challenge that players can
/// see can be launched.
pub proof fn law_exposure_changes_are_safe(
    fields: Seq<(String, Json)>,
    current: ChallengeDetail,
    facts: UpdateFacts,
)
    requires
        update_course(fields, current, facts) matches Ok(UpdateCourse::Save(_)),
    ensures
        ({
            let change = update_course(fields, current, facts)->Ok_0->Save_0;
            &&& change.2 != current.exposure@ ==> facts.active_instances == Some(false)
            &&& change.2 != current.exposure@ && change.2 == "private"@ ==> facts.managed_runtime
                == Some(true)
            &&& change.2 != current.exposure@ && change.2 == "public"@ ==> facts.generated_flag
                == Some(false) && change.3
            &&& change.2 == "private"@ && change.4.4 != "hidden"@ ==> facts.launchable == Some(true)
        }),
{
    reveal_strlit("public");
    reveal_strlit("private");
    assert("public"@.len() != "private"@.len());
}

/// A request without fields leaves a sound challenge as it is.
pub proof fn law_empty_change_keeps_the_challenge(current: ChallengeDetail, facts: UpdateFacts)
    requires
        update_course(Seq::empty(), current, facts) matches Ok(UpdateCourse::Save(_)),
    ensures
        ({
            let change = update_course(Seq::empty(), current, facts)->Ok_0->Save_0;
            &&& Some(change.0) == text_of(current.name)
            &&& change.1 == current.category_id
            &&& change.2 == current.exposure@
            &&& !change.3
            &&& change.4.0 == current.texts@
            &&& change.4.1 == current.next_id
            &&& change.4.2 == or_zero(current.max_attempts)
            &&& change.4.3 == current.position
            &&& change.4.4 == current.state@
            &&& change.5 == current.logic@
            &&& Some(change.6.0) == text_of(current.function)
            &&& current.dynamic() ==> change.6.2 == current.initial && change.6.3
                == current.minimum && change.6.4 == current.decay
            &&& !current.dynamic() ==> Some(change.6.1) == current.value
        }),
{
}

/// A new challenge of standard scoring is worth the value that is sent, which is not negative, and
/// has nothing else; one of dynamic scoring starts at its initial score, which is also its value,
/// and falls by its decay to its minimum.
pub proof fn law_new_challenges_score_as_sent(
    fields: Seq<(String, Json)>,
    value: Option<i32>,
    initial: Option<i32>,
    minimum: Option<i32>,
    decay: Option<i32>,
)
    requires
        integer_field(fields, "value"@) == Ok::<Option<i32>, Failure>(value),
        integer_field(fields, "initial"@) == Ok::<Option<i32>, Failure>(initial),
        integer_field(fields, "minimum"@) == Ok::<Option<i32>, Failure>(minimum),
        integer_field(fields, "decay"@) == Ok::<Option<i32>, Failure>(decay),
    ensures
        ({
            let result = new_scoring(fields, false);
            let word = field_text_or(fields, "function"@, "static"@);
            &&& result is Ok <==> word == "static"@ && initial is None && minimum is None && decay
                is None && value is Some && value->Some_0 >= 0
            &&& result is Ok ==> result->Ok_0.0 == "static"@ && result->Ok_0.1
                == value->Some_0 && result->Ok_0.2 is None && result->Ok_0.3 is None
                && result->Ok_0.4 is None
        }),
        ({
            let result = new_scoring(fields, true);
            let word = field_text_or(fields, "function"@, "logarithmic"@);
            let start = if initial is Some {
                initial
            } else {
                value
            };
            &&& result is Ok <==> (word == "linear"@ || word == "logarithmic"@) && start is Some
                && minimum is Some && decay is Some && (value is None || value == start) && 0
                <= minimum->Some_0 <= start->Some_0 && decay->Some_0 > 0
            &&& result is Ok ==> result->Ok_0 == (word, start->Some_0, start, minimum, decay)
        }),
{
}

/// A changed challenge keeps the scores that are not sent, and is refused where those that it would
/// have do not fit together.
pub proof fn law_changed_challenges_score_as_sent(
    fields: Seq<(String, Json)>,
    current: ChallengeDetail,
    function: Seq<char>,
    value: Option<i32>,
    initial: Option<i32>,
    minimum: Option<i32>,
    decay: Option<i32>,
)
    requires
        integer_field(fields, "value"@) == Ok::<Option<i32>, Failure>(value),
        patched_integer(fields, "initial"@, current.initial) == Ok::<Option<i32>, Failure>(initial),
        patched_integer(fields, "minimum"@, current.minimum) == Ok::<Option<i32>, Failure>(minimum),
        patched_integer(fields, "decay"@, current.decay) == Ok::<Option<i32>, Failure>(decay),
    ensures
        ({
            let result = changed_scoring(fields, current, function);
            let worth = if has_field(fields, "value"@) {
                value
            } else {
                current.value
            };
            let dynamic = current.challenge_type is Some && current.challenge_type->Some_0@
                == "dynamic"@;
            &&& dynamic ==> (result is Ok <==> initial is Some && minimum is Some && decay is Some
                && 0 <= minimum->Some_0 <= initial->Some_0 && decay->Some_0 > 0 && (value is None
                || value == initial))
            &&& dynamic && result is Ok ==> result->Ok_0 == (
                function,
                initial->Some_0,
                initial,
                minimum,
                decay,
            )
            &&& !dynamic ==> (result is Ok <==> !has_field(fields, "initial"@) && !has_field(
                fields,
                "minimum"@,
            ) && !has_field(fields, "decay"@) && worth is Some && worth->Some_0 >= 0)
            &&& !dynamic && result is Ok ==> result->Ok_0.0 == function && result->Ok_0.1
                == worth->Some_0 && result->Ok_0.2 is None && result->Ok_0.3 is None
                && result->Ok_0.4 is None
        }),
{
}

/// The name, category and exposure of a new challenge are those that are sent.
pub proof fn law_headings_are_what_is_sent(fields: Seq<(String, Json)>)
    ensures
        ({
            let name = required_field(fields, "name"@, 80);
            let category = integer_field(fields, "category_id"@);
            let kind = required_field(fields, "challenge_type"@, 32);
            let exposure = required_field(fields, "exposure"@, 16);
            let result = heading_of(fields);
            &&& result is Ok <==> name is Ok && category is Ok && category->Ok_0 is Some && kind
                == Ok::<Seq<char>, Failure>("jeopardy"@) && (exposure == Ok::<Seq<char>, Failure>(
                "public"@,
            ) || exposure == Ok::<Seq<char>, Failure>("private"@)) && lookup(fields, "public_url"@)
                is None
            &&& result is Ok ==> result->Ok_0 == (
                name->Ok_0,
                category->Ok_0->Some_0,
                exposure->Ok_0,
            )
        }),
{
}

/// A new challenge may be tried as often as is sent, or without limit, stands in the place that is
/// sent, or the first, and is visible with one flag enough unless something else is sent.
pub proof fn law_rules_are_what_is_sent(fields: Seq<(String, Json)>)
    ensures
        ({
            let tries = integer_field(fields, "max_attempts"@);
            let place = integer_field(fields, "position"@);
            let limit = if tries->Ok_0 is Some {
                tries->Ok_0->Some_0
            } else {
                0
            };
            let position = if place->Ok_0 is Some {
                place->Ok_0->Some_0
            } else {
                0
            };
            let state = field_text_or(fields, "state"@, "visible"@);
            let logic = field_text_or(fields, "logic"@, "any"@);
            let result = new_rules(fields);
            &&& result is Ok <==> tries is Ok && place is Ok && limit >= 0 && 0 <= position <= 32767
                && (state == "visible"@ || state == "hidden"@ || state == "locked"@) && (logic
                == "any"@ || logic == "all"@ || logic == "team"@) && requirements_problem(
                lookup(fields, "requirements"@),
            ) is None
            &&& result is Ok ==> result->Ok_0 == (limit, position, state, logic)
        }),
{
}

/// A private challenge comes with a managed runtime, and a public one with none.
pub proof fn law_private_challenges_are_managed(
    fields: Seq<(String, Json)>,
    exposure: Seq<char>,
    parsed: Option<RuntimeRequest>,
)
    ensures
        ({
            let present = lookup(fields, "runtime"@) is Some && !(lookup(fields, "runtime"@)->Some_0
                is Null);
            let result = runtime_of(fields, exposure, parsed);
            &&& exposure == "private"@ ==> (result is Ok <==> present && parsed is Some
                && parsed->Some_0.managed)
            &&& exposure == "private"@ && result is Ok ==> result->Ok_0 == parsed
            &&& exposure != "private"@ ==> (result is Ok <==> !present)
            &&& exposure != "private"@ && result is Ok ==> result->Ok_0 is None
        }),
{
}

/// A flag is read from an object by its names or from a list by its places, and has no options where
/// none are given.
pub proof fn law_flags_are_read_by_name_or_place(value: Json)
    ensures
        value is Object ==> {
            let kind = value.field("type"@);
            let content = value.field("content"@);
            let data = value.field("data"@);
            &&& flag_parts(value) is Some <==> kind is Some && kind->Some_0 is Text && content
                is Some && content->Some_0 is Text
            &&& flag_parts(value) is Some ==> flag_parts(value)->Some_0 == (
                kind->Some_0->Text_0@,
                content->Some_0->Text_0@,
                if data is Some {
                    data->Some_0
                } else {
                    Json::Null
                },
            )
        },
        value is Array ==> {
            let values = value->Array_0@;
            &&& flag_parts(value) is Some <==> 2 <= values.len() <= 3 && values[0] is Text
                && values[1] is Text
            &&& flag_parts(value) is Some ==> flag_parts(value)->Some_0 == (
                values[0]->Text_0@,
                values[1]->Text_0@,
                if values.len() == 3 {
                    values[2]
                } else {
                    Json::Null
                },
            )
        },
        !(value is Object) && !(value is Array) ==> flag_parts(value) is None,
{
}

/// A challenge is created where each of its parts can be read, and is made of them; only an
/// administrator creates one.
pub proof fn law_challenges_are_made_of_their_parts(
    payload: Json,
    fields: Vec<(String, Json)>,
    parsed: Option<RuntimeRequest>,
)
    requires
        payload == Json::Object(fields),
    ensures
        ({
            let heading = heading_of(fields@);
            let texts = patched_texts(fields@, (None, None, None));
            let exposure = heading->Ok_0.2;
            let flag = initial_flag_of(fields@, exposure);
            let runtime = runtime_of(fields@, exposure, parsed);
            let kind = field_text_or(fields@, "type"@, "standard"@);
            let dynamic = kind == "dynamic"@;
            let scoring = new_scoring(fields@, dynamic);
            let rules = new_rules(fields@);
            let result = create_request(true, payload, parsed);
            &&& result is Ok <==> heading is Ok && texts is Ok && flag is Ok && runtime is Ok && (
            dynamic || kind == "standard"@) && scoring is Ok && rules is Ok
            &&& result is Ok ==> result->Ok_0 == (
                heading->Ok_0,
                texts->Ok_0,
                flag->Ok_0,
                runtime->Ok_0,
                dynamic,
                scoring->Ok_0,
                rules->Ok_0,
            )
        }),
        create_request(false, payload, parsed) == Err::<NewChallengeView, Failure>(
            forbidden("Administrator access is required"@),
        ),
{
}

/// Each text of a challenge is the one that is sent, within its own limit.
pub proof fn law_texts_have_their_limits(fields: Seq<(String, Json)>, current: TextsView)
    ensures
        ({
            let description = patched_text(fields, "description"@, current.0, 65536);
            let attribution = patched_text(fields, "attribution"@, current.1, 2048);
            let connection = patched_text(fields, "connection_info"@, current.2, 4096);
            let result = patched_texts(fields, current);
            &&& result is Ok <==> description is Ok && attribution is Ok && connection is Ok
            &&& result is Ok ==> result->Ok_0 == (
                description->Ok_0,
                attribution->Ok_0,
                connection->Ok_0,
            )
        }),
{
}

/// A challenge is inserted where its category exists and, if it is private and shown at once, its
/// runtime is enabled and so are launches of private challenges; a hidden one waits for neither.
pub proof fn law_creation_comes_to_the_insertion(
    fields: Seq<(String, Json)>,
    challenge: NewChallengeView,
    category: bool,
    gate: bool,
    next_id: Option<i32>,
)
    requires
        integer_field(fields, "next_id"@) == Ok::<Option<i32>, Failure>(next_id),
    ensures
        ({
            let course = create_course(fields, challenge, Some(category), Some(gate));
            let private = challenge.3 is Some;
            let hidden = challenge.6.2 == "hidden"@;
            &&& course is Ok <==> category && (!private || hidden || (challenge.3->Some_0.enabled
                && gate))
            &&& course is Ok ==> course->Ok_0 == CreateStep::Insert { next_id }
            &&& !category ==> course == Err::<CreateStep, Failure>(
                bad("Select an existing challenge category"@),
            )
            &&& create_course(fields, challenge, None, Some(gate)) == Ok::<CreateStep, Failure>(
                CreateStep::ReadCategory { category_id: challenge.0.1 },
            )
            &&& create_course(fields, challenge, Some(true), None) matches Ok(
                CreateStep::PrepareGate { enable },
            ) ==> private && enable == challenge.3->Some_0.enable_global_gate
        }),
{
}

/// A change of exposure goes through where no instance runs and the way is prepared: a managed
/// runtime on the way to private, no generated flag on the way to public. Without a change nothing
/// stands against it.
pub proof fn law_prepared_exposures_change(
    from: Seq<char>,
    to: Seq<char>,
    facts: UpdateFacts,
    active: bool,
    managed: bool,
    generated: bool,
)
    requires
        facts.active_instances == Some(active),
        facts.managed_runtime == Some(managed),
        facts.generated_flag == Some(generated),
    ensures
        ({
            let result = exposure_change(from, to, facts);
            &&& result is Ok <==> from == to || (!active && (if to == "private"@ {
                managed
            } else {
                !generated
            }))
            &&& result is Ok ==> result->Ok_0 is None
        }),
{
}

/// A challenge that players can see is published where it is public, or private and launchable.
pub proof fn law_launchable_challenges_are_published(
    exposure: Seq<char>,
    state: Seq<char>,
    enable: bool,
    facts: UpdateFacts,
    launchable: bool,
)
    requires
        facts.gate_prepared,
        facts.launchable == Some(launchable),
    ensures
        publication(exposure, state, enable, facts) is Ok <==> exposure != "private"@ || state
            == "hidden"@ || launchable,
        publication(exposure, state, enable, facts) is Ok ==> publication(
            exposure,
            state,
            enable,
            facts,
        )->Ok_0 is None,
{
}

/// What is saved of a change is what was read of each part: the name and category, the exposure, the
/// display, the logic and the scoring; the runtime is removed exactly where the challenge turns
/// public.
pub proof fn law_changes_are_made_of_their_parts(
    fields: Seq<(String, Json)>,
    current: ChallengeDetail,
    facts: UpdateFacts,
)
    ensures
        ({
            let heading = changed_heading(fields, current);
            let exposure = changed_exposure(fields, current);
            let display = changed_display(fields, current);
            let rest = changed_rest(fields, current);
            let course = update_course(fields, current, facts);
            let saved = heading is Ok && facts.category_exists == Some(true) && exposure is Ok
                && exposure_change(current.exposure@, exposure->Ok_0.0, facts) == Ok::<
                Option<UpdateRead>,
                Failure,
            >(None) && display is Ok && publication(
                exposure->Ok_0.0,
                display->Ok_0.4,
                exposure->Ok_0.1,
                facts,
            ) == Ok::<Option<UpdateRead>, Failure>(None) && rest is Ok;
            &&& course is Ok && course->Ok_0 is Save <==> saved
            &&& saved ==> course->Ok_0->Save_0 == (
                heading->Ok_0.0,
                heading->Ok_0.1,
                exposure->Ok_0.0,
                current.exposure@ != exposure->Ok_0.0 && exposure->Ok_0.0 != "private"@,
                display->Ok_0,
                rest->Ok_0.0,
                rest->Ok_0.1,
            )
            &&& facts.category_exists == Some(false) ==> course is Err
        }),
{
    assert(facts.category_exists is Some ==> facts.category_exists == Some(true)
        || facts.category_exists == Some(false));
}

/// Names, categories and exposures that are sent replace the current ones; the kind of scoring and
/// the kind of challenge never change.
pub proof fn law_kinds_never_change(fields: Seq<(String, Json)>, current: ChallengeDetail)
    ensures
        changed_heading(fields, current) is Ok && lookup(fields, "type"@) is Some
            ==> required_field(fields, "type"@, 80) == Ok::<Seq<char>, Failure>(
            if current.challenge_type is Some {
                current.challenge_type->Some_0@
            } else {
                "standard"@
            },
        ),
        changed_heading(fields, current) is Ok ==> lookup(fields, "category"@) is None
            && patched_required(fields, "name"@, text_of(current.name), 80) == Ok::<
            Seq<char>,
            Failure,
        >(changed_heading(fields, current)->Ok_0.0) && (lookup(fields, "category_id"@) is None
            ==> changed_heading(fields, current)->Ok_0.1 == current.category_id) && (lookup(
            fields,
            "category_id"@,
        ) is Some ==> integer_field(fields, "category_id"@) == Ok::<Option<i32>, Failure>(
            Some(changed_heading(fields, current)->Ok_0.1),
        )),
        changed_exposure(fields, current) is Ok && lookup(fields, "challenge_type"@) is Some
            ==> required_field(fields, "challenge_type"@, 32) == Ok::<Seq<char>, Failure>(
            current.challenge_kind@,
        ),
        changed_exposure(fields, current) is Ok && lookup(fields, "exposure"@) is None
            ==> changed_exposure(fields, current)->Ok_0.0 == current.exposure@,
        changed_exposure(fields, current) is Ok && lookup(fields, "exposure"@) is Some
            ==> required_field(fields, "exposure"@, 16) == Ok::<Seq<char>, Failure>(
            changed_exposure(fields, current)->Ok_0.0,
        ),
{
}

/// Requirements that are sent replace the current ones, null takes them away, and what is not sent
/// leaves them.
pub proof fn law_requirements_are_replaced(fields: Seq<(String, Json)>, current: Option<Json>)
    ensures
        lookup(fields, "requirements"@) is None ==> changed_requirements(fields, current)
            == current,
        lookup(fields, "requirements"@) == Some(Json::Null) ==> changed_requirements(
            fields,
            current,
        ) is None,
        lookup(fields, "requirements"@) is Some && !(lookup(fields, "requirements"@)->Some_0
            is Null) ==> changed_requirements(fields, current) == lookup(fields, "requirements"@),
{
}

/// A challenge goes away only at the word of an administrator, where it is there, no instance of it
/// runs and no player holds a flag of it; each of these alone keeps it.
pub proof fn law_running_and_held_challenges_stay(active: bool, allocated: bool)
    ensures
        deletable(true, true, false, false),
        !deletable(false, true, active, allocated),
        !deletable(true, false, active, allocated),
        !deletable(true, true, true, allocated),
        !deletable(true, true, active, true),
{
}

} // verus!
