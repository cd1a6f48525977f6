//! What a visitor sees of the challenges.
use crate::access::{
    anonymize_rule, anonymized, asks_preview, prerequisites, requirements_hold, requirements_met,
    team_membership_missing,
};
use crate::attempt::{is_playable, playable, Account};
use crate::auth::{admin_visitor, is_admin_visitor, CurrentUser};
use crate::authoring::ChallengeDetail;
use crate::error::{bad, forbidden, shown, str_of, text_of, upstream, ApiError, Failure};
use crate::json::Json;
use crate::settings::{integer, integer_setting};
use crate::text::{concat, same, trim, trimmed, views};
use std::collections::{HashMap, HashSet};
use vstd::prelude::*;

verus! {

broadcast use vstd::std_specs::hash::group_hash_axioms;

// ---------------------------------------------------------------------------
// The query behind the list
// ---------------------------------------------------------------------------

/// The filters that a visitor may set on the list of challenges.
pub struct ChallengeListQuery {
    pub name: Option<String>,
    pub max_attempts: Option<i32>,
    pub value: Option<i32>,
    pub category: Option<String>,
    pub challenge_type: Option<String>,
    pub state: Option<String>,
    pub q: Option<String>,
    pub field: Option<String>,
    pub view: Option<String>,
}

/// What a condition compares a column with.
pub enum Bound {
    Nothing,
    Text(String),
    Integer(i32),
}

/// One condition of the query: its text and what is bound behind it.
pub struct Condition {
    pub sql: String,
    pub bound: Bound,
}

/// A condition by value.
pub enum ConditionView {
    Plain(Seq<char>),
    Text(Seq<char>, Seq<char>),
    Integer(Seq<char>, i32),
}

impl View for Condition {
    type V = ConditionView;

    open spec fn view(&self) -> ConditionView {
        match self.bound {
            Bound::Nothing => ConditionView::Plain(self.sql@),
            Bound::Text(value) => ConditionView::Text(self.sql@, value@),
            Bound::Integer(value) => ConditionView::Integer(self.sql@, value),
        }
    }
}

pub open spec fn condition_views(conditions: Seq<Condition>) -> Seq<ConditionView> {
    conditions.map_values(|c: Condition| c@)
}

pub open spec fn text_condition(sql: Seq<char>, value: Option<String>) -> Seq<ConditionView> {
    match value {
        Some(text) => seq![ConditionView::Text(sql, text@)],
        None => Seq::empty(),
    }
}

pub open spec fn integer_condition(sql: Seq<char>, value: Option<i32>) -> Seq<ConditionView> {
    match value {
        Some(number) => seq![ConditionView::Integer(sql, number)],
        None => Seq::empty(),
    }
}

/// Administrators see everything where they ask for it.
pub open spec fn wants_admin_view(user: Option<&CurrentUser>, query: ChallengeListQuery) -> bool {
    is_admin_visitor(user) && text_of(query.view) == Some("admin"@)
}

pub fn admin_view(user: Option<&CurrentUser>, query: &ChallengeListQuery) -> (result: bool)
    ensures
        result == wants_admin_view(user, *query),
{
    match &query.view {
        Some(view) => admin_visitor(user) && same(view.as_str(), "admin"),
        None => false,
    }
}

pub open spec fn search_word(query: ChallengeListQuery) -> Seq<char> {
    match query.field {
        Some(field) => field@,
        None => "name"@,
    }
}

/// The column in which the list is searched.
pub open spec fn search_sql(field: Seq<char>) -> Option<Seq<char>> {
    if field == "name"@ {
        Some(" AND c.name ILIKE "@)
    } else if field == "description"@ {
        Some(" AND c.description ILIKE "@)
    } else if field == "category"@ {
        Some(" AND c.category ILIKE "@)
    } else if field == "type"@ {
        Some(" AND c.type ILIKE "@)
    } else if field == "state"@ {
        Some(" AND c.state ILIKE "@)
    } else {
        None
    }
}

fn search_column(field: &str) -> (result: Option<&'static str>)
    ensures
        str_of(result) == search_sql(field@),
{
    if same(field, "name") {
        Some(" AND c.name ILIKE ")
    } else if same(field, "description") {
        Some(" AND c.description ILIKE ")
    } else if same(field, "category") {
        Some(" AND c.category ILIKE ")
    } else if same(field, "type") {
        Some(" AND c.type ILIKE ")
    } else if same(field, "state") {
        Some(" AND c.state ILIKE ")
    } else {
        None
    }
}

pub open spec fn search_condition(query: ChallengeListQuery) -> Result<
    Seq<ConditionView>,
    Failure,
> {
    match query.q {
        Some(search) if trimmed(search@).len() > 0 => match search_sql(search_word(query)) {
            Some(sql) => Ok(seq![ConditionView::Text(sql, "%"@ + trimmed(search@) + "%"@)]),
            None => Err(bad("Unsupported challenge search field"@)),
        },
        _ => Ok(Seq::empty()),
    }
}

pub open spec fn listed_conditions(query: ChallengeListQuery, admin_view: bool) -> Result<
    Seq<ConditionView>,
    Failure,
> {
    let filters = (if admin_view {
        Seq::empty()
    } else {
        seq![ConditionView::Plain(" AND c.state = 'visible'"@)]
    }) + text_condition(" AND c.name = "@, query.name) + integer_condition(
        " AND c.max_attempts = "@,
        query.max_attempts,
    ) + integer_condition(" AND c.value = "@, query.value) + text_condition(
        " AND c.category = "@,
        query.category,
    ) + text_condition(" AND c.type = "@, query.challenge_type) + text_condition(
        " AND c.state = "@,
        query.state,
    );
    match search_condition(query) {
        Ok(search) => Ok(filters + search),
        Err(failure) => Err(failure),
    }
}

pub(crate) fn push_text(conditions: &mut Vec<Condition>, sql: &str, value: &Option<String>)
    ensures
        condition_views(final(conditions)@) == condition_views(old(conditions)@) + text_condition(
            sql@,
            *value,
        ),
{
    match value {
        Some(text) => {
            let bound = Bound::Text(text.clone());
            conditions.push(Condition { sql: sql.to_owned(), bound });
        },
        None => {},
    }
    assert(condition_views(conditions@) =~= condition_views(old(conditions)@) + text_condition(
        sql@,
        *value,
    ));
}

pub(crate) fn push_integer(conditions: &mut Vec<Condition>, sql: &str, value: Option<i32>)
    ensures
        condition_views(final(conditions)@) == condition_views(old(conditions)@)
            + integer_condition(sql@, value),
{
    match value {
        Some(number) => {
            let bound = Bound::Integer(number);
            conditions.push(Condition { sql: sql.to_owned(), bound });
        },
        None => {},
    }
    assert(condition_views(conditions@) =~= condition_views(old(conditions)@) + integer_condition(
        sql@,
        value,
    ));
}

/// The conditions that the list of challenges is read under.
pub fn list_conditions(query: &ChallengeListQuery, admin_view: bool) -> (result: Result<
    Vec<Condition>,
    ApiError,
>)
    ensures
        match result {
            Ok(conditions) => listed_conditions(*query, admin_view) == Ok::<
                Seq<ConditionView>,
                Failure,
            >(condition_views(conditions@)),
            Err(error) => listed_conditions(*query, admin_view) == Err::<
                Seq<ConditionView>,
                Failure,
            >(error@),
        },
{
    let mut conditions: Vec<Condition> = Vec::new();
    let ghost start: Seq<ConditionView> = if admin_view {
        Seq::empty()
    } else {
        seq![ConditionView::Plain(" AND c.state = 'visible'"@)]
    };
    if !admin_view {
        conditions.push(
            Condition { sql: " AND c.state = 'visible'".to_owned(), bound: Bound::Nothing },
        );
    }
    assert(condition_views(conditions@) =~= start);
    push_text(&mut conditions, " AND c.name = ", &query.name);
    push_integer(&mut conditions, " AND c.max_attempts = ", query.max_attempts);
    push_integer(&mut conditions, " AND c.value = ", query.value);
    push_text(&mut conditions, " AND c.category = ", &query.category);
    push_text(&mut conditions, " AND c.type = ", &query.challenge_type);
    push_text(&mut conditions, " AND c.state = ", &query.state);
    let ghost filters = condition_views(conditions@);
    if let Some(search) = &query.q {
        let word = trim(search.as_str());
        if !word.as_str().is_empty() {
            let field = match &query.field {
                Some(field) => field.as_str(),
                None => "name",
            };
            match search_column(field) {
                Some(sql) => {
                    let left = concat("%", word.as_str());
                    let bound = Bound::Text(concat(left.as_str(), "%"));
                    conditions.push(Condition { sql: sql.to_owned(), bound });
                },
                None => return Err(ApiError::bad_request("Unsupported challenge search field")),
            }
        }
    }
    proof {
        let search = search_condition(*query)->Ok_0;
        assert(condition_views(conditions@) =~= filters + search);
    }
    Ok(conditions)
}

/// In team mode a player without a team does not see the list.
pub fn require_list_membership(user: Option<&CurrentUser>, team_mode: bool) -> (result: Result<
    (),
    ApiError,
>)
    ensures
        shown(result) == (if team_mode && (user matches Some(current) && !current.admin()
            && current.team_id is None) {
            Err(forbidden("Join a team before viewing challenges"@))
        } else {
            Ok::<(), Failure>(())
        }),
{
    let identity = match user {
        Some(current) => Some((current.is_admin(), current.team_id)),
        None => None,
    };
    if team_membership_missing(team_mode, identity) {
        Err(ApiError::forbidden("Join a team before viewing challenges"))
    } else {
        Ok(())
    }
}

// ---------------------------------------------------------------------------
// The entries of the list
// ---------------------------------------------------------------------------

/// A challenge as the list reads it.
pub struct ChallengeListRow {
    pub id: i32,
    pub name: Option<String>,
    pub value: Option<i32>,
    pub category: Option<String>,
    pub challenge_type: Option<String>,
    pub requirements: Option<Json>,
}

/// What stands for a challenge in the list.
#[derive(Clone, Copy, Debug, PartialEq, Eq, Structural)]
pub enum Entry {
    /// It is left out.
    Nothing,
    /// An anonymous card; with the name, value, category and tags in a preview.
    Hidden { preview: bool },
    /// The challenge itself.
    Open { solves: Option<i64>, solved_by_me: bool },
}

/// How often each challenge was solved, where that is shown.
pub open spec fn shown_solves(counts: Option<Map<i32, i64>>, id: i32) -> Option<i64> {
    match counts {
        Some(map) => Some(
            if map.contains_key(id) {
                map[id]
            } else {
                0
            },
        ),
        None => None,
    }
}

pub open spec fn entry_of(
    row: ChallengeListRow,
    admin_view: bool,
    solved: Set<i32>,
    counts: Option<Map<i32, i64>>,
) -> Entry {
    if !requirements_hold(row.requirements, solved) && !admin_view {
        match anonymized(row.requirements) {
            Some(value) => Entry::Hidden { preview: value.text() == Some("preview"@) },
            None => Entry::Nothing,
        }
    } else if row.challenge_type is None || playable(text_of(row.challenge_type)) {
        Entry::Open {
            solves: shown_solves(counts, row.id),
            solved_by_me: solved.contains(row.id),
        }
    } else {
        Entry::Nothing
    }
}

pub open spec fn counts_of(counts: Option<&HashMap<i32, i64>>) -> Option<Map<i32, i64>> {
    match counts {
        Some(map) => Some(map@),
        None => None,
    }
}

/// The entry of one challenge. `counts` are the solve counts, where the visitor may see them.
pub fn list_entry(
    row: &ChallengeListRow,
    admin_view: bool,
    solved: &HashSet<i32>,
    counts: Option<&HashMap<i32, i64>>,
) -> (result: Entry)
    ensures
        result == entry_of(*row, admin_view, solved@, counts_of(counts)),
{
    if !admin_view && !requirements_met(row.requirements.as_ref(), solved) {
        return match anonymize_rule(row.requirements.as_ref()) {
            Some(value) => Entry::Hidden { preview: asks_preview(value) },
            None => Entry::Nothing,
        };
    }
    if row.challenge_type.is_some() && !is_playable(&row.challenge_type) {
        return Entry::Nothing;
    }
    let solves = match counts {
        Some(map) => match map.get(&row.id) {
            Some(count) => Some(*count),
            None => Some(0),
        },
        None => None,
    };
    Entry::Open { solves, solved_by_me: solved.contains(&row.id) }
}

/// The entries of all challenges, in their order.
pub fn list_data(
    rows: &Vec<ChallengeListRow>,
    admin_view: bool,
    solved: &HashSet<i32>,
    counts: Option<&HashMap<i32, i64>>,
) -> (result: Vec<Entry>)
    ensures
        result@ == rows@.map_values(
            |row: ChallengeListRow| entry_of(row, admin_view, solved@, counts_of(counts)),
        ),
{
    let mut result: Vec<Entry> = Vec::new();
    let ghost entry = |row: ChallengeListRow|
        entry_of(row, admin_view, solved@, counts_of(counts));
    let mut i: usize = 0;
    while i < rows.len()
        invariant
            i <= rows.len(),
            result@.len() == i,
            forall|j: int|
                0 <= j < i ==> result@[j] == entry_of(
                    #[trigger] rows@[j],
                    admin_view,
                    solved@,
                    counts_of(counts),
                ),
        decreases rows.len() - i,
    {
        result.push(list_entry(&rows[i], admin_view, solved, counts));
        i += 1;
    }
    assert(result@ =~= rows@.map_values(entry));
    result
}

/// The card of a challenge whose prerequisites are not met: without a preview it tells nothing.
pub struct Card {
    pub name: Option<String>,
    pub value: Option<i32>,
    pub category: Option<String>,
}

pub fn hidden_card(
    preview: bool,
    name: &Option<String>,
    value: Option<i32>,
    category: &Option<String>,
) -> (result: Card)
    ensures
        preview ==> text_of(result.name) == text_of(*name) && result.value == value && text_of(
            result.category,
        ) == text_of(*category),
        !preview ==> text_of(result.name) == Some("???"@) && result.value == Some(0i32) && text_of(
            result.category,
        ) == Some("???"@),
{
    if preview {
        let name = match name {
            Some(text) => Some(text.clone()),
            None => None,
        };
        let category = match category {
            Some(text) => Some(text.clone()),
            None => None,
        };
        Card { name, value, category }
    } else {
        Card {
            name: Some("???".to_owned()),
            value: Some(0),
            category: Some("???".to_owned()),
        }
    }
}

/// The tags of one challenge, in the order in which they were read.
pub open spec fn tags_of(rows: Seq<(i32, Option<String>)>, id: i32) -> Seq<Seq<char>>
    decreases rows.len(),
{
    if rows.len() == 0 {
        Seq::empty()
    } else {
        let before = tags_of(rows.drop_last(), id);
        match rows.last() {
            (owner, Some(value)) if owner == id => before.push(value@),
            _ => before,
        }
    }
}

pub fn tags_for_challenge(rows: &Vec<(i32, Option<String>)>, id: i32) -> (result: Vec<String>)
    ensures
        views(result@) == tags_of(rows@, id),
{
    let mut result: Vec<String> = Vec::new();
    let mut i: usize = 0;
    assert(views(result@) =~= Seq::<Seq<char>>::empty());
    while i < rows.len()
        invariant
            i <= rows.len(),
            views(result@) == tags_of(rows@.take(i as int), id),
        decreases rows.len() - i,
    {
        let ghost before = result@;
        assert(rows@.take(i + 1).drop_last() =~= rows@.take(i as int));
        if rows[i].0 == id {
            match &rows[i].1 {
                Some(value) => {
                    result.push(value.clone());
                    assert(views(result@) =~= views(before).push(value@));
                },
                None => {},
            }
        }
        i += 1;
    }
    assert(rows@.take(rows@.len() as int) =~= rows@);
    result
}

// ---------------------------------------------------------------------------
// One challenge in detail
// ---------------------------------------------------------------------------

pub struct Hint {
    pub id: i32,
    pub content: Option<String>,
    pub unlocked: bool,
}

/// A hint is open after the event, to administrators, and to whoever unlocked it.
pub open spec fn hint_open(id: i32, ended: bool, unlocked: Set<i32>, admin: bool) -> bool {
    ended || unlocked.contains(id) || admin
}

/// A hint as it is shown: a closed one has no content.
pub open spec fn hint_shown(
    hint: Hint,
    ended: bool,
    unlocked: Set<i32>,
    admin: bool,
) -> (i32, Option<Seq<char>>, bool) {
    if hint_open(hint.id, ended, unlocked, admin) {
        (hint.id, text_of(hint.content), true)
    } else {
        (hint.id, None, hint.unlocked)
    }
}

impl View for Hint {
    type V = (i32, Option<Seq<char>>, bool);

    open spec fn view(&self) -> (i32, Option<Seq<char>>, bool) {
        (self.id, text_of(self.content), self.unlocked)
    }
}

pub fn reveal_hints(hints: Vec<Hint>, ended: bool, unlocked: &HashSet<i32>, admin: bool) -> (result:
    Vec<Hint>)
    ensures
        result@.len() == hints@.len(),
        forall|i: int|
            0 <= i < hints@.len() ==> (#[trigger] result@[i])@ == hint_shown(
                hints@[i],
                ended,
                unlocked@,
                admin,
            ),
{
    let mut result: Vec<Hint> = Vec::new();
    let mut i: usize = 0;
    while i < hints.len()
        invariant
            i <= hints.len(),
            result@.len() == i,
            forall|j: int|
                0 <= j < i ==> (#[trigger] result@[j])@ == hint_shown(
                    hints@[j],
                    ended,
                    unlocked@,
                    admin,
                ),
        decreases hints.len() - i,
    {
        let hint = &hints[i];
        if ended || unlocked.contains(&hint.id) || admin {
            let content = match &hint.content {
                Some(text) => Some(text.clone()),
                None => None,
            };
            result.push(Hint { id: hint.id, content, unlocked: true });
        } else {
            result.push(Hint { id: hint.id, content: None, unlocked: hint.unlocked });
        }
        i += 1;
    }
    result
}

/// The event has an end and it has passed.
pub fn ctf_ended(now: i64, end: Option<&str>) -> (result: Result<bool, ApiError>)
    ensures
        shown(result) == (match integer_setting("end"@, str_of(end), 0) {
            Ok(moment) => Ok::<bool, Failure>(moment > 0 && now > moment),
            Err(failure) => Err(failure),
        }),
{
    match integer("end", end, 0) {
        Ok(moment) => Ok(moment > 0 && now > moment),
        Err(error) => Err(error),
    }
}

/// Whether a visitor's own rating, and those of all, are shown under the stored mode.
pub open spec fn ratings_shown(signed_in: bool, mode: Option<Seq<char>>) -> (bool, bool) {
    (signed_in && mode != Some("disabled"@), mode is None || mode == Some("public"@))
}

/// What is shown of ratings: one's own unless they are disabled, those of all where they are
/// public, which they are where nothing is stored.
pub fn rating_access(signed_in: bool, mode: Option<&str>) -> (result: (bool, bool))
    ensures
        result.0 == (signed_in && str_of(mode) != Some("disabled"@)),
        result.1 == (mode is None || str_of(mode) == Some("public"@)),
        result == ratings_shown(signed_in, str_of(mode)),
{
    match mode {
        None => (signed_in, true),
        Some(word) => (signed_in && !same(word, "disabled"), same(word, "public")),
    }
}

/// The solution that is linked from a challenge: a visible one, or one for those who solved it.
pub open spec fn linked_solution(solution: Option<(i32, Seq<char>)>, solved: bool) -> Option<i32> {
    match solution {
        Some((id, state)) => if state == "visible"@ || (state == "solved"@ && solved) {
            Some(id)
        } else {
            None
        },
        None => None,
    }
}

pub fn solution_link(solution: Option<(i32, &str)>, solved_by_me: bool) -> (result: Option<i32>)
    ensures
        result == linked_solution(
            match solution {
                Some((id, state)) => Some((id, state@)),
                None => None,
            },
            solved_by_me,
        ),
{
    match solution {
        Some((id, state)) => if same(state, "visible") || (same(state, "solved") && solved_by_me) {
            Some(id)
        } else {
            None
        },
        None => None,
    }
}

/// What is known of a challenge whose detail is asked for. `access` is `Some` where only its card
/// may be shown.
pub struct DetailFacts {
    pub team_mode: bool,
    pub access: Option<bool>,
    pub scores_visible: bool,
    pub solve_count: i64,
    pub attempt_count: i64,
    pub solved: HashSet<i32>,
    pub rating_mode: Option<String>,
    pub solution: Option<(i32, String)>,
}

/// The detail of a challenge, as far as it is decided by who asks.
pub enum DetailView {
    Hidden { card: Card },
    Full {
        solves: Option<i64>,
        solved_by_me: bool,
        attempts: i64,
        own_rating: bool,
        all_ratings: bool,
        solution_id: Option<i32>,
        solution_state: String,
        /// The visit is recorded.
        track: bool,
    },
}

pub open spec fn account_of(user: Option<&CurrentUser>, team_mode: bool) -> Option<Account> {
    match user {
        Some(current) => if team_mode {
            match current.team_id {
                Some(team) => Some(Account::Team(team)),
                None => None,
            }
        } else {
            Some(Account::User(current.id))
        },
        None => None,
    }
}

/// The account whose attempts count: the visitor, or in team mode the visitor's team.
pub fn playing_account(user: Option<&CurrentUser>, team_mode: bool) -> (result: Option<Account>)
    ensures
        result == account_of(user, team_mode),
{
    match user {
        Some(current) => if team_mode {
            match current.team_id {
                Some(team) => Some(Account::Team(team)),
                None => None,
            }
        } else {
            Some(Account::User(current.id))
        },
        None => None,
    }
}

pub fn detail_data(user: Option<&CurrentUser>, challenge: &ChallengeDetail, facts: &DetailFacts) -> (
result: Result<DetailView, ApiError>)
    ensures
        match (facts.access, result) {
            (Some(preview), Ok(DetailView::Hidden { card })) => if preview {
                text_of(card.name) == text_of(challenge.name) && card.value == challenge.value
                    && text_of(card.category) == text_of(challenge.category)
            } else {
                text_of(card.name) == Some("???"@) && card.value == Some(0i32) && text_of(
                    card.category,
                ) == Some("???"@)
            },
            (
                None,
                Ok(
                    DetailView::Full {
                        solves,
                        solved_by_me,
                        attempts,
                        own_rating,
                        all_ratings,
                        solution_id,
                        solution_state,
                        track,
                    },
                ),
            ) => {
                &&& playable(text_of(challenge.challenge_type))
                &&& solves == (if facts.scores_visible {
                    Some(facts.solve_count)
                } else {
                    None
                })
                &&& solved_by_me == facts.solved@.contains(challenge.id)
                &&& attempts == (if account_of(user, facts.team_mode) is Some {
                    facts.attempt_count
                } else {
                    0
                })
                &&& own_rating == (user is Some && text_of(facts.rating_mode) != Some("disabled"@))
                &&& all_ratings == (facts.rating_mode is None || text_of(facts.rating_mode) == Some(
                    "public"@,
                ))
                &&& solution_id == linked_solution(solution_view(facts.solution), solved_by_me)
                &&& solution_state@ == (match facts.solution {
                    Some((_, state)) => state@,
                    None => "hidden"@,
                })
                &&& track == (user is Some && !is_admin_visitor(user))
            },
            (None, Err(error)) => !playable(text_of(challenge.challenge_type)) && error@
                == upstream("The challenge type is not installed in CTFZone"@),
            _ => false,
        },
{
    if let Some(preview) = facts.access {
        let card = hidden_card(preview, &challenge.name, challenge.value, &challenge.category);
        return Ok(DetailView::Hidden { card });
    }
    if !is_playable(&challenge.challenge_type) {
        return Err(ApiError::upstream("The challenge type is not installed in CTFZone"));
    }
    let solves = if facts.scores_visible {
        Some(facts.solve_count)
    } else {
        None
    };
    let solved_by_me = facts.solved.contains(&challenge.id);
    let attempts: i64 = match playing_account(user, facts.team_mode) {
        Some(_) => facts.attempt_count,
        None => 0,
    };
    let mode = match &facts.rating_mode {
        Some(word) => Some(word.as_str()),
        None => None,
    };
    let (own_rating, all_ratings) = rating_access(user.is_some(), mode);
    let (solution_id, solution_state) = match &facts.solution {
        Some((id, state)) => (
            solution_link(Some((*id, state.as_str())), solved_by_me),
            state.clone(),
        ),
        None => (None, "hidden".to_owned()),
    };
    let track = user.is_some() && !admin_visitor(user);
    Ok(
        DetailView::Full {
            solves,
            solved_by_me,
            attempts,
            own_rating,
            all_ratings,
            solution_id,
            solution_state,
            track,
        },
    )
}

pub open spec fn solution_view(solution: Option<(i32, String)>) -> Option<(i32, Seq<char>)> {
    match solution {
        Some((id, state)) => Some((id, state@)),
        None => None,
    }
}

/// The fields of a challenge that depend on how it scores: a static one shows no decay.
pub struct ScoringRead {
    pub function: String,
    pub challenge_type: String,
    pub initial: Option<i32>,
    pub minimum: Option<i32>,
    pub decay: Option<i32>,
    pub max_attempts: i32,
    pub dynamic_scoring: bool,
}

pub fn challenge_read_json(challenge: &ChallengeDetail) -> (result: ScoringRead)
    ensures
        result.function@ == (match challenge.function {
            Some(word) => word@,
            None => "static"@,
        }),
        result.challenge_type@ == challenge.kind_word(),
        result.initial == (if result.function@ == "static"@ {
            None
        } else {
            challenge.initial
        }),
        result.minimum == (if result.function@ == "static"@ {
            None
        } else {
            challenge.minimum
        }),
        result.decay == (if result.function@ == "static"@ {
            None
        } else {
            challenge.decay
        }),
        result.max_attempts == crate::authoring::or_zero(challenge.max_attempts),
        result.dynamic_scoring == (challenge.kind_word() == "dynamic"@),
{
    let function = match &challenge.function {
        Some(word) => word.clone(),
        None => "static".to_owned(),
    };
    let fixed = same(function.as_str(), "static");
    let kind = challenge.scoring_type();
    ScoringRead {
        challenge_type: kind.to_owned(),
        initial: if fixed {
            None
        } else {
            challenge.initial
        },
        minimum: if fixed {
            None
        } else {
            challenge.minimum
        },
        decay: if fixed {
            None
        } else {
            challenge.decay
        },
        max_attempts: match challenge.max_attempts {
            Some(value) => value,
            None => 0,
        },
        dynamic_scoring: same(kind, "dynamic"),
        function,
    }
}

// ---------------------------------------------------------------------------
// Laws
// ---------------------------------------------------------------------------

/// A challenge whose prerequisites are not met is never listed as itself to a player.
pub proof fn law_locked_challenges_stay_hidden(
    row: ChallengeListRow,
    solved: Set<i32>,
    counts: Option<Map<i32, i64>>,
)
    requires
        !requirements_hold(row.requirements, solved),
    ensures
        !(entry_of(row, false, solved, counts) is Open),
{
}

/// The content of a hint that is not open is never shown.
pub proof fn law_closed_hints_have_no_content(
    hint: Hint,
    ended: bool,
    unlocked: Set<i32>,
    admin: bool,
)
    requires
        !hint_open(hint.id, ended, unlocked, admin),
    ensures
        hint_shown(hint, ended, unlocked, admin).1 is None,
{
}

/// A visitor has solved all that the requirements of a challenge ask for: every entry under their
/// prerequisites that is a 32-bit integer.
pub open spec fn all_prerequisites_solved(requirements: Option<Json>, solved: Set<i32>) -> bool {
    requirements is Some ==> (requirements->Some_0.field("prerequisites"@) matches Some(
        Json::Array(entries),
    ) ==> forall|i: int|
        0 <= i < entries@.len() ==> ((#[trigger] entries@[i]).small_integer() matches Some(id)
            ==> solved.contains(id)))
}

/// A challenge of a playable type, or of none, is listed as itself to every visitor who has solved
/// all that it asks for, and to administrators in their view: with the number of its solves where
/// these are shown, and as solved exactly where it is among the solved ones.
pub proof fn law_open_challenges_are_listed(
    row: ChallengeListRow,
    admin_view: bool,
    solved: Set<i32>,
    counts: Option<Map<i32, i64>>,
)
    requires
        text_of(row.challenge_type) == Some("standard"@) || text_of(row.challenge_type) == Some(
            "dynamic"@,
        ) || row.challenge_type is None,
        admin_view || all_prerequisites_solved(row.requirements, solved),
    ensures
        entry_of(row, admin_view, solved, counts) matches Entry::Open { solves, solved_by_me } && {
            &&& solved_by_me <==> solved.contains(row.id)
            &&& solves is Some <==> counts is Some
            &&& solves is Some ==> solves->Some_0 == if counts->Some_0.contains_key(row.id) {
                counts->Some_0[row.id] as int
            } else {
                0
            }
        },
{
    assert(prerequisites(row.requirements).subset_of(solved) || admin_view);
}

/// Only unmet prerequisites, or another type, keep a challenge from being listed as itself.
pub proof fn law_listed_challenges_are_open(
    row: ChallengeListRow,
    admin_view: bool,
    solved: Set<i32>,
    counts: Option<Map<i32, i64>>,
)
    ensures
        entry_of(row, admin_view, solved, counts) is Open <==> (admin_view
            || all_prerequisites_solved(row.requirements, solved)) && (row.challenge_type is None
            || text_of(row.challenge_type) == Some("standard"@) || text_of(row.challenge_type)
            == Some("dynamic"@)),
{
    if !admin_view && !all_prerequisites_solved(row.requirements, solved) {
        let entries = row.requirements->Some_0.field("prerequisites"@)->Some_0->Array_0;
        let i = choose|i: int|
            0 <= i < entries@.len() && !((#[trigger] entries@[i]).small_integer() matches Some(id)
                ==> solved.contains(id));
        let id = entries@[i].small_integer()->Some_0;
        assert(prerequisites(row.requirements).contains(id));
    } else {
        assert(prerequisites(row.requirements).subset_of(solved) || admin_view);
    }
}

/// A challenge with unmet prerequisites stands in the list as an anonymous card exactly where its
/// requirements say how it is anonymized, and as a preview exactly where they say so.
pub proof fn law_anonymous_cards_are_asked_for(
    row: ChallengeListRow,
    solved: Set<i32>,
    counts: Option<Map<i32, i64>>,
)
    requires
        !all_prerequisites_solved(row.requirements, solved),
    ensures
        ({
            let entry = entry_of(row, false, solved, counts);
            let rule = row.requirements->Some_0.field("anonymize"@);
            &&& entry is Nothing <==> rule is None
            &&& entry == (Entry::Hidden { preview: true }) <==> rule is Some && rule->Some_0 is Text
                && rule->Some_0->Text_0@ == "preview"@
            &&& entry == (Entry::Hidden { preview: false }) <==> rule is Some && !(rule->Some_0
                is Text && rule->Some_0->Text_0@ == "preview"@)
        }),
{
    law_listed_challenges_are_open(row, false, solved, counts);
    assert(!prerequisites(row.requirements).subset_of(solved)) by {
        let entries = row.requirements->Some_0.field("prerequisites"@)->Some_0->Array_0;
        let i = choose|i: int|
            0 <= i < entries@.len() && !((#[trigger] entries@[i]).small_integer() matches Some(id)
                ==> solved.contains(id));
        let id = entries@[i].small_integer()->Some_0;
        assert(prerequisites(row.requirements).contains(id));
    }
}

/// The content of a hint is shown after the event, to administrators and to whoever unlocked it,
/// and it is then marked as open; a hint that stays closed keeps its number and its mark.
pub proof fn law_open_hints_are_shown(hint: Hint, ended: bool, unlocked: Set<i32>, admin: bool)
    ensures
        ({
            let (id, content, open) = hint_shown(hint, ended, unlocked, admin);
            &&& id == hint.id
            &&& ended || admin || unlocked.contains(hint.id) ==> open && content == text_of(
                hint.content,
            )
            &&& !ended && !admin && !unlocked.contains(hint.id) ==> content is None && open
                == hint.unlocked
        }),
{
}

/// A solution is linked from its challenge exactly where it is visible, or for solvers and the
/// challenge is solved.
pub proof fn law_solutions_are_linked(id: i32, state: Seq<char>, solved: bool)
    ensures
        linked_solution(Some((id, state)), solved) == if state == "visible"@ || (solved && state
            == "solved"@) {
            Some(id)
        } else {
            None
        },
        linked_solution(None, solved) is None,
{
}

/// The tags of a challenge are those that were read for it, and adding a row adds its tag at the end
/// exactly where the row is the challenge's and holds one.
pub proof fn law_tags_are_kept_in_order(
    rows: Seq<(i32, Option<String>)>,
    row: (i32, Option<String>),
    id: i32,
)
    ensures
        tags_of(rows.push(row), id) == if row.0 == id && row.1 is Some {
            tags_of(rows, id).push(row.1->Some_0@)
        } else {
            tags_of(rows, id)
        },
        tags_of(Seq::empty(), id) == Seq::<Seq<char>>::empty(),
{
    assert(rows.push(row).drop_last() =~= rows);
}

/// The account that plays is the team in team mode, and the visitor otherwise; a visitor who is not
/// signed in plays for nobody, nor does one without a team in team mode.
pub proof fn law_visitors_play_for_their_account(user: Option<&CurrentUser>)
    ensures
        account_of(user, false) is Some <==> user is Some,
        user is Some ==> account_of(user, false) == Some(Account::User(user->Some_0.id)),
        account_of(user, true) is Some <==> user is Some && user->Some_0.team_id is Some,
        account_of(user, true) is Some ==> account_of(user, true) == Some(
            Account::Team(user->Some_0.team_id->Some_0),
        ),
{
}

/// Each filter that is set is a condition of the list, and the only ones beside them are that the
/// challenge is visible, outside the administrators' view, and the search.
pub proof fn law_filters_are_conditions(query: ChallengeListQuery, admin_view: bool)
    requires
        listed_conditions(query, admin_view) is Ok,
    ensures
        ({
            let conditions = listed_conditions(query, admin_view)->Ok_0;
            &&& query.name is Some ==> conditions.contains(
                ConditionView::Text(" AND c.name = "@, query.name->Some_0@),
            )
            &&& query.max_attempts is Some ==> conditions.contains(
                ConditionView::Integer(" AND c.max_attempts = "@, query.max_attempts->Some_0),
            )
            &&& query.value is Some ==> conditions.contains(
                ConditionView::Integer(" AND c.value = "@, query.value->Some_0),
            )
            &&& query.category is Some ==> conditions.contains(
                ConditionView::Text(" AND c.category = "@, query.category->Some_0@),
            )
            &&& query.challenge_type is Some ==> conditions.contains(
                ConditionView::Text(" AND c.type = "@, query.challenge_type->Some_0@),
            )
            &&& query.state is Some ==> conditions.contains(
                ConditionView::Text(" AND c.state = "@, query.state->Some_0@),
            )
            &&& !admin_view ==> conditions.contains(
                ConditionView::Plain(" AND c.state = 'visible'"@),
            )
            &&& query.q is Some && trimmed(query.q->Some_0@).len() > 0 ==> conditions.len() > 0
                && conditions.last() is Text && conditions.last()->Text_1 == "%"@ + trimmed(
                query.q->Some_0@,
            ) + "%"@
            &&& conditions.len() == one_if(!admin_view) + one_if(query.name is Some) + one_if(
                query.max_attempts is Some,
            ) + one_if(query.value is Some) + one_if(query.category is Some) + one_if(
                query.challenge_type is Some,
            ) + one_if(query.state is Some) + one_if(
                query.q is Some && trimmed(query.q->Some_0@).len() > 0,
            )
        }),
{
    let none = Seq::<ConditionView>::empty();
    let shown = if admin_view {
        none
    } else {
        seq![ConditionView::Plain(" AND c.state = 'visible'"@)]
    };
    let parts = seq![
        shown,
        text_condition(" AND c.name = "@, query.name),
        integer_condition(" AND c.max_attempts = "@, query.max_attempts),
        integer_condition(" AND c.value = "@, query.value),
        text_condition(" AND c.category = "@, query.category),
        text_condition(" AND c.type = "@, query.challenge_type),
        text_condition(" AND c.state = "@, query.state),
        search_condition(query)->Ok_0,
    ];
    let conditions = listed_conditions(query, admin_view)->Ok_0;
    assert(parts.flatten() == conditions) by {
        lemma_flattened(parts);
    }
    assert forall|p: int| 0 <= p < 8 && #[trigger] parts[p].len() == 1 implies conditions.contains(
        parts[p][0],
    ) by {
        lemma_part_is_held(parts, p);
    }
    assert(text_condition(" AND c.name = "@, query.name) == parts[1]);
    assert(integer_condition(" AND c.max_attempts = "@, query.max_attempts) == parts[2]);
    assert(integer_condition(" AND c.value = "@, query.value) == parts[3]);
    assert(text_condition(" AND c.category = "@, query.category) == parts[4]);
    assert(text_condition(" AND c.type = "@, query.challenge_type) == parts[5]);
    assert(text_condition(" AND c.state = "@, query.state) == parts[6]);
    assert(shown == parts[0]);
}

proof fn lemma_flattened(parts: Seq<Seq<ConditionView>>)
    requires
        parts.len() == 8,
    ensures
        parts.flatten() == parts[0] + parts[1] + parts[2] + parts[3] + parts[4] + parts[5]
            + parts[6] + parts[7],
{
    reveal_with_fuel(Seq::flatten, 9);
}

proof fn lemma_part_is_held(parts: Seq<Seq<ConditionView>>, p: int)
    requires
        0 <= p < parts.len(),
        parts[p].len() == 1,
    ensures
        parts.flatten().contains(parts[p][0]),
    decreases p,
{
    if p == 0 {
        assert(parts.flatten()[0] == parts[0][0]);
    } else {
        lemma_part_is_held(parts.drop_first(), p - 1);
        let rest = parts.drop_first().flatten();
        let i = choose|i: int| 0 <= i < rest.len() && rest[i] == parts[p][0];
        assert(parts.flatten()[parts[0].len() + i] == parts[p][0]);
    }
}

/// One where the condition holds.
pub open spec fn one_if(condition: bool) -> int {
    if condition {
        1
    } else {
        0
    }
}

/// The list is searched in one of five columns, each under its own name, in that of the names where
/// none is given, and a search in any other field is refused.
pub proof fn law_searches_name_their_column(query: ChallengeListQuery, admin_view: bool)
    requires
        query.q is Some,
        trimmed(query.q->Some_0@).len() > 0,
    ensures
        ({
            let listed = listed_conditions(query, admin_view);
            let field = if query.field is Some {
                query.field->Some_0@
            } else {
                "name"@
            };
            &&& listed is Ok <==> field == "name"@ || field == "description"@ || field
                == "category"@ || field == "type"@ || field == "state"@
            &&& listed is Ok ==> listed->Ok_0.len() > 0 && listed->Ok_0.last() is Text
                && listed->Ok_0.last()->Text_0 == " AND c."@ + field + " ILIKE "@
        }),
{
    reveal_strlit(" AND c.");
    reveal_strlit(" ILIKE ");
    reveal_strlit("name");
    reveal_strlit("description");
    reveal_strlit("category");
    reveal_strlit("type");
    reveal_strlit("state");
    reveal_strlit(" AND c.name ILIKE ");
    reveal_strlit(" AND c.description ILIKE ");
    reveal_strlit(" AND c.category ILIKE ");
    reveal_strlit(" AND c.type ILIKE ");
    reveal_strlit(" AND c.state ILIKE ");
    assert(" AND c."@ + "name"@ + " ILIKE "@ =~= " AND c.name ILIKE "@);
    assert(" AND c."@ + "description"@ + " ILIKE "@ =~= " AND c.description ILIKE "@);
    assert(" AND c."@ + "category"@ + " ILIKE "@ =~= " AND c.category ILIKE "@);
    assert(" AND c."@ + "type"@ + " ILIKE "@ =~= " AND c.type ILIKE "@);
    assert(" AND c."@ + "state"@ + " ILIKE "@ =~= " AND c.state ILIKE "@);
    assert("name"@.len() == 4 && "description"@.len() == 11 && "category"@.len() == 8
        && "type"@.len() == 4 && "state"@.len() == 5);
    assert("name"@[0] == 'n' && "type"@[0] == 't');
}

/// One's own rating is shown to whoever is signed in unless ratings are disabled, and those of all
/// where they are public, which they are where nothing is stored.
pub proof fn law_ratings_are_shown_by_mode(signed_in: bool, mode: Seq<char>)
    ensures
        ratings_shown(signed_in, None) == (signed_in, true),
        ratings_shown(signed_in, Some("public"@)) == (signed_in, true),
        ratings_shown(signed_in, Some("disabled"@)) == (false, false),
        mode != "public"@ && mode != "disabled"@ ==> ratings_shown(signed_in, Some(mode)) == (
            signed_in,
            false,
        ),
{
    reveal_strlit("public");
    reveal_strlit("disabled");
    assert("public"@.len() != "disabled"@.len());
}

} // verus!
