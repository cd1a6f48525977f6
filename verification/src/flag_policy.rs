//! Flags: how they are defined, generated for each player and compared.
use crate::comparison::{FlagEvaluation, SharedFlagEvidence};
use crate::crypto::{hmac_sha256, hmac_sha256_tag};
use crate::error::{bad, conflict, shown, shown_text, str_of, upstream, ApiError, Failure};
use crate::json::Json;
use crate::regexes::{regex_accepted, regex_compiles, regex_found, regex_is_match};
use crate::numbers::{integer_text, to_text};
use crate::text::{
    byte_len, byte_length, bytes_of, chars_of, concat, contains_control, has_control, lowercase,
    same, to_lowercase_ascii, trim, trimmed,
};
use vstd::prelude::*;
use vstd::utf8::encode_utf8;

verus! {

/// The text in which letters of any script are replaced by their lower-case forms.
pub uninterp spec fn unicode_lowercase(s: Seq<char>) -> Seq<char>;

/// `str::to_lowercase` depends on the text alone.
pub assume_specification[ str::to_lowercase ](s: &str) -> (result: String)
    ensures
        result@ == unicode_lowercase(s@),
;

/// What is configured for one flag.
#[derive(Clone, Copy, Debug, PartialEq, Eq, Structural)]
pub struct FlagPolicyData {
    pub case_sensitive: bool,
    pub leet_variation: bool,
    pub accept_other_users: bool,
}

/// A flag is case sensitive and has no other option, where nothing else is said.
pub open spec fn default_policy() -> FlagPolicyData {
    FlagPolicyData { case_sensitive: true, leet_variation: false, accept_other_users: false }
}

impl Default for FlagPolicyData {
    fn default() -> (result: FlagPolicyData)
        ensures
            result == default_policy(),
    {
        FlagPolicyData { case_sensitive: true, leet_variation: false, accept_other_users: false }
    }
}

// ---------------------------------------------------------------------------
// Reading the options of a flag
// ---------------------------------------------------------------------------

/// Which option a key names; one of them goes by two names.
pub open spec fn option_index(key: Seq<char>) -> Option<int> {
    if key == "case_sensitive"@ {
        Some(0)
    } else if key == "leet_variation"@ {
        Some(1)
    } else if key == "accept_other_users"@ || key == "accept_shared_flags"@ {
        Some(2)
    } else {
        None
    }
}

fn option_number(key: &str) -> (result: Option<usize>)
    ensures
        result matches Some(index) ==> option_index(key@) == Some(index as int) && index < 3,
        result is None ==> option_index(key@) is None,
{
    if same(key, "case_sensitive") {
        Some(0)
    } else if same(key, "leet_variation") {
        Some(1)
    } else if same(key, "accept_other_users") || same(key, "accept_shared_flags") {
        Some(2)
    } else {
        None
    }
}

/// The options by number, with those that are given so far.
pub type GivenOptions = (Option<bool>, Option<bool>, Option<bool>);

pub open spec fn given(options: GivenOptions, index: int) -> Option<bool> {
    if index == 0 {
        options.0
    } else if index == 1 {
        options.1
    } else {
        options.2
    }
}

pub open spec fn with_option(options: GivenOptions, index: int, value: bool) -> GivenOptions {
    if index == 0 {
        (Some(value), options.1, options.2)
    } else if index == 1 {
        (options.0, Some(value), options.2)
    } else {
        (options.0, options.1, Some(value))
    }
}

/// The options that an object gives: a key that names none, a value that is no boolean, or an
/// option given twice makes it invalid.
pub open spec fn object_options(fields: Seq<(String, Json)>) -> Option<GivenOptions>
    decreases fields.len(),
{
    if fields.len() == 0 {
        Some((None, None, None))
    } else {
        let (key, value) = fields.last();
        match (object_options(fields.drop_last()), option_index(key@), value.boolean()) {
            (Some(options), Some(index), Some(flag)) if given(options, index) is None => Some(
                with_option(options, index, flag),
            ),
            _ => None,
        }
    }
}

/// The options that a list gives by their order.
pub open spec fn list_options(values: Seq<Json>) -> Option<GivenOptions>
    decreases values.len(),
{
    if values.len() == 0 {
        Some((None, None, None))
    } else {
        match (list_options(values.drop_last()), values.last().boolean()) {
            (Some(options), Some(flag)) if values.len() <= 3 => Some(
                with_option(options, values.len() - 1, flag),
            ),
            _ => None,
        }
    }
}

pub open spec fn completed(options: GivenOptions) -> FlagPolicyData {
    FlagPolicyData {
        case_sensitive: if options.0 is Some {
            options.0->Some_0
        } else {
            true
        },
        leet_variation: options.1 == Some(true),
        accept_other_users: options.2 == Some(true),
    }
}

pub open spec fn policy_of(data: Json) -> Option<FlagPolicyData> {
    let options = match data {
        Json::Null => Some((None, None, None)),
        Json::Object(fields) => object_options(fields@),
        Json::Array(values) => list_options(values@),
        _ => None,
    };
    match options {
        Some(options) => Some(completed(options)),
        None => None,
    }
}

fn complete(options: GivenOptions) -> (result: FlagPolicyData)
    ensures
        result == completed(options),
{
    FlagPolicyData {
        case_sensitive: match options.0 {
            Some(value) => value,
            None => true,
        },
        leet_variation: match options.1 {
            Some(value) => value,
            None => false,
        },
        accept_other_users: match options.2 {
            Some(value) => value,
            None => false,
        },
    }
}

fn set_option(options: GivenOptions, index: usize, value: bool) -> (result: GivenOptions)
    ensures
        result == with_option(options, index as int, value),
{
    if index == 0 {
        (Some(value), options.1, options.2)
    } else if index == 1 {
        (options.0, Some(value), options.2)
    } else {
        (options.0, options.1, Some(value))
    }
}

fn has_option(options: GivenOptions, index: usize) -> (result: bool)
    ensures
        result == (given(options, index as int) is Some),
{
    if index == 0 {
        options.0.is_some()
    } else if index == 1 {
        options.1.is_some()
    } else {
        options.2.is_some()
    }
}

proof fn lemma_object_options_prefix(fields: Seq<(String, Json)>, k: int)
    requires
        0 <= k <= fields.len(),
        object_options(fields) is Some,
    ensures
        object_options(fields.take(k)) is Some,
    decreases fields.len(),
{
    if k == fields.len() {
        assert(fields.take(k) =~= fields);
    } else {
        lemma_object_options_prefix(fields.drop_last(), k);
        assert(fields.drop_last().take(k) =~= fields.take(k));
    }
}

fn read_object(fields: &Vec<(String, Json)>) -> (result: Option<GivenOptions>)
    ensures
        result == object_options(fields@),
{
    let mut options: GivenOptions = (None, None, None);
    let mut i: usize = 0;
    while i < fields.len()
        invariant
            i <= fields.len(),
            object_options(fields@.take(i as int)) == Some(options),
        decreases fields.len() - i,
    {
        proof {
            assert(fields@.take(i + 1).drop_last() =~= fields@.take(i as int));
            assert(fields@.take(i + 1).last() == fields@[i as int]);
            if object_options(fields@) is Some {
                lemma_object_options_prefix(fields@, i + 1);
            }
        }
        let index: usize = match option_number(fields[i].0.as_str()) {
            Some(index) => index,
            None => return None,
        };
        let value = match fields[i].1.as_bool() {
            Some(value) => value,
            None => return None,
        };
        if has_option(options, index) {
            return None;
        }
        options = set_option(options, index, value);
        i += 1;
    }
    assert(fields@.take(fields@.len() as int) =~= fields@);
    Some(options)
}

proof fn lemma_list_options_prefix(values: Seq<Json>, k: int)
    requires
        0 <= k <= values.len(),
        list_options(values) is Some,
    ensures
        list_options(values.take(k)) is Some,
    decreases values.len(),
{
    if k == values.len() {
        assert(values.take(k) =~= values);
    } else {
        lemma_list_options_prefix(values.drop_last(), k);
        assert(values.drop_last().take(k) =~= values.take(k));
    }
}

fn read_list(values: &Vec<Json>) -> (result: Option<GivenOptions>)
    ensures
        result == list_options(values@),
{
    let mut options: GivenOptions = (None, None, None);
    let mut i: usize = 0;
    while i < values.len()
        invariant
            i <= values.len(),
            list_options(values@.take(i as int)) == Some(options),
        decreases values.len() - i,
    {
        proof {
            assert(values@.take(i + 1).drop_last() =~= values@.take(i as int));
            assert(values@.take(i + 1).last() == values@[i as int]);
            if list_options(values@) is Some {
                lemma_list_options_prefix(values@, i + 1);
            }
        }
        let value = match values[i].as_bool() {
            Some(value) => value,
            None => return None,
        };
        if i >= 3 {
            return None;
        }
        options = set_option(options, i, value);
        i += 1;
    }
    assert(values@.take(values@.len() as int) =~= values@);
    Some(options)
}

/// Reads the options of a flag.
pub fn parse_policy(data: &Json) -> (result: Result<FlagPolicyData, ApiError>)
    ensures
        shown(result) == (match policy_of(*data) {
            Some(policy) => Ok::<FlagPolicyData, Failure>(policy),
            None => Err(bad("Flag options are invalid"@)),
        }),
{
    let options = match data {
        Json::Null => Some((None, None, None)),
        Json::Object(fields) => read_object(fields),
        Json::Array(values) => read_list(values),
        _ => None,
    };
    match options {
        Some(options) => Ok(complete(options)),
        None => Err(ApiError::bad_request("Flag options are invalid")),
    }
}

// ---------------------------------------------------------------------------
// Templates of generated flags
// ---------------------------------------------------------------------------

/// Where the random token of a player goes in a template.
pub const RANDOM_TOKEN_PLACEHOLDER: &'static str = "{{RANDOM_TOKEN}}";

pub const PLACEHOLDER_LENGTH: usize = 16;

/// The length of a random token as text.
pub const TOKEN_LENGTH: usize = 36;

pub const MAX_FLAG_BYTES: usize = 512;

pub const MAX_REGEX_BYTES: usize = 512;

pub const MAX_LEET_POSITIONS: usize = 62;

pub const REGEX_SIZE_LIMIT: usize = 1048576;

/// The placeholder stands at index `i`.
pub open spec fn token_at(s: Seq<char>, i: int) -> bool {
    0 <= i && i + PLACEHOLDER_LENGTH <= s.len() && s.subrange(i, i + PLACEHOLDER_LENGTH)
        == RANDOM_TOKEN_PLACEHOLDER@
}

/// The index `i` lies in a placeholder.
pub open spec fn in_token(s: Seq<char>, i: int) -> bool {
    exists|m: int| m <= i < m + PLACEHOLDER_LENGTH && #[trigger] token_at(s, m)
}

proof fn lemma_placeholder()
    ensures
        RANDOM_TOKEN_PLACEHOLDER@.len() == PLACEHOLDER_LENGTH,
        RANDOM_TOKEN_PLACEHOLDER@[0] == '{',
        RANDOM_TOKEN_PLACEHOLDER@[1] == '{',
        forall|d: int| 2 <= d < PLACEHOLDER_LENGTH ==> RANDOM_TOKEN_PLACEHOLDER@[d] != '{',
{
    reveal_strlit("{{RANDOM_TOKEN}}");
    let t = RANDOM_TOKEN_PLACEHOLDER@;
    assert(t[2] == 'R' && t[3] == 'A' && t[4] == 'N' && t[5] == 'D' && t[6] == 'O' && t[7] == 'M'
        && t[8] == '_' && t[9] == 'T' && t[10] == 'O' && t[11] == 'K' && t[12] == 'E' && t[13]
        == 'N' && t[14] == '}' && t[15] == '}');
}

/// Two placeholders do not overlap.
proof fn lemma_tokens_apart(s: Seq<char>, a: int, b: int)
    requires
        token_at(s, a),
        token_at(s, b),
        a < b,
    ensures
        a + PLACEHOLDER_LENGTH <= b,
{
    lemma_placeholder();
    let t = RANDOM_TOKEN_PLACEHOLDER@;
    if b < a + PLACEHOLDER_LENGTH {
        let d = b - a;
        assert(s.subrange(a, a + PLACEHOLDER_LENGTH)[d] == s[b]);
        assert(s.subrange(b, b + PLACEHOLDER_LENGTH)[0] == s[b]);
        assert(t[d] == '{');
        assert(d == 1);
        assert(s.subrange(a, a + PLACEHOLDER_LENGTH)[2] == s[a + 2]);
        assert(s.subrange(b, b + PLACEHOLDER_LENGTH)[1] == s[b + 1]);
        assert(t[2] == '{');
    }
}

fn placeholder_at(chars: &Vec<char>, i: usize) -> (result: bool)
    requires
        i <= chars.len(),
    ensures
        result == token_at(chars@, i as int),
{
    proof {
        lemma_placeholder();
    }
    let pattern = chars_of(RANDOM_TOKEN_PLACEHOLDER);
    if chars.len() - i < PLACEHOLDER_LENGTH {
        return false;
    }
    let mut j: usize = 0;
    while j < PLACEHOLDER_LENGTH
        invariant
            j <= PLACEHOLDER_LENGTH,
            i + PLACEHOLDER_LENGTH <= chars.len(),
            pattern@ == RANDOM_TOKEN_PLACEHOLDER@,
            pattern@.len() == PLACEHOLDER_LENGTH,
            forall|k: int| 0 <= k < j ==> chars@[i + k] == pattern@[k],
        decreases PLACEHOLDER_LENGTH - j,
    {
        if chars[i + j] != pattern[j] {
            assert(chars@.subrange(i as int, i + PLACEHOLDER_LENGTH)[j as int] == chars@[i + j]);
            return false;
        }
        j += 1;
    }
    assert(chars@.subrange(i as int, i + PLACEHOLDER_LENGTH) =~= pattern@);
    true
}

fn inside_token(chars: &Vec<char>, i: usize) -> (result: bool)
    requires
        i < chars.len(),
    ensures
        result == in_token(chars@, i as int),
{
    let mut back: usize = 0;
    while back < PLACEHOLDER_LENGTH && back <= i
        invariant
            back <= PLACEHOLDER_LENGTH,
            back <= i + 1,
            i < chars.len(),
            forall|m: int| i - back < m <= i ==> !#[trigger] token_at(chars@, m),
        decreases PLACEHOLDER_LENGTH - back,
    {
        if placeholder_at(chars, i - back) {
            assert(token_at(chars@, i - back));
            return true;
        }
        back += 1;
    }
    assert forall|m: int| m <= i < m + PLACEHOLDER_LENGTH implies !#[trigger] token_at(
        chars@,
        m,
    ) by {}
    false
}

/// The digit that stands for a letter.
pub open spec fn leet(c: char) -> Option<char> {
    if c == 'a' || c == 'A' {
        Some('4')
    } else if c == 'e' || c == 'E' {
        Some('3')
    } else if c == 'i' || c == 'I' {
        Some('1')
    } else if c == 'o' || c == 'O' {
        Some('0')
    } else if c == 's' || c == 'S' {
        Some('5')
    } else if c == 't' || c == 'T' {
        Some('7')
    } else {
        None
    }
}

pub fn leet_replacement(character: char) -> (result: Option<char>)
    ensures
        result == leet(character),
{
    match character {
        'a' | 'A' => Some('4'),
        'e' | 'E' => Some('3'),
        'i' | 'I' => Some('1'),
        'o' | 'O' => Some('0'),
        's' | 'S' => Some('5'),
        't' | 'T' => Some('7'),
        _ => None,
    }
}

/// The first opening brace from `from` on that belongs to no placeholder, or the length of `s`.
pub open spec fn open_brace(s: Seq<char>, from: int) -> int
    decreases s.len() - from,
{
    if from >= s.len() {
        s.len() as int
    } else if s[from] == '{' && !in_token(s, from) {
        from
    } else {
        open_brace(s, from + 1)
    }
}

/// The last closing brace before `to` that belongs to no placeholder, or -1.
pub open spec fn close_brace(s: Seq<char>, to: int) -> int
    decreases to,
{
    if to <= 0 {
        -1
    } else if s[to - 1] == '}' && !in_token(s, to - 1) {
        to - 1
    } else {
        close_brace(s, to - 1)
    }
}

/// The part of a template in which letters may vary: between its outer braces, or all of it.
pub open spec fn scope(s: Seq<char>) -> (int, int) {
    let open = open_brace(s, 0);
    let close = close_brace(s, s.len() as int);
    if open < close {
        (open + 1, close)
    } else {
        (0, s.len() as int)
    }
}

fn char_scope(chars: &Vec<char>) -> (result: (usize, usize))
    ensures
        (result.0 as int, result.1 as int) == scope(chars@),
        result.0 <= result.1 <= chars.len(),
{
    let mut open: usize = 0;
    while open < chars.len() && !(chars[open] == '{' && !inside_token(chars, open))
        invariant
            open <= chars.len(),
            open_brace(chars@, 0) == open_brace(chars@, open as int),
        decreases chars.len() - open,
    {
        open += 1;
    }
    let mut close: usize = chars.len();
    while close > 0 && !(chars[close - 1] == '}' && !inside_token(chars, close - 1))
        invariant
            close <= chars.len(),
            close_brace(chars@, chars@.len() as int) == close_brace(chars@, close as int),
        decreases close,
    {
        close -= 1;
    }
    if close > 0 && open < close - 1 {
        (open + 1, close - 1)
    } else {
        (0, chars.len())
    }
}

/// The letter at `i` may vary.
pub open spec fn varies(s: Seq<char>, i: int) -> bool {
    scope(s).0 <= i < scope(s).1 && !in_token(s, i) && leet(s[i]) is Some
}

/// The indices before `to` of the letters that may vary, in ascending order.
pub open spec fn positions_to(s: Seq<char>, to: int) -> Seq<int>
    decreases to,
{
    if to <= 0 {
        Seq::empty()
    } else if varies(s, to - 1) {
        positions_to(s, to - 1).push(to - 1)
    } else {
        positions_to(s, to - 1)
    }
}

pub open spec fn positions(s: Seq<char>) -> Seq<int> {
    positions_to(s, s.len() as int)
}

proof fn lemma_positions_bound(s: Seq<char>, a: int, b: int)
    requires
        0 <= a <= b,
    ensures
        positions_to(s, a).len() <= positions_to(s, b).len() <= positions_to(s, a).len() + (b - a),
        positions_to(s, a).len() <= a,
    decreases b,
{
    if a < b {
        lemma_positions_bound(s, a, b - 1);
    } else if a > 0 {
        lemma_positions_bound(s, a - 1, b - 1);
    }
}

/// The byte at which the character with index `i` starts in UTF-8.
pub open spec fn byte_offset(s: Seq<char>, i: int) -> int {
    byte_length(s.take(i)) as int
}

fn offset_of(chars: &Vec<char>, i: usize) -> (result: usize)
    requires
        i <= chars.len(),
    ensures
        result == byte_offset(chars@, i as int),
{
    let start = crate::text::slice_to_string(chars, 0, i);
    assert(chars@.subrange(0, i as int) =~= chars@.take(i as int));
    byte_len(start.as_str())
}

/// The bytes between which letters may vary.
pub fn leet_scope(template: &str) -> (result: std::ops::Range<usize>)
    ensures
        result.start == byte_offset(template@, scope(template@).0),
        result.end == byte_offset(template@, scope(template@).1),
{
    let chars = chars_of(template);
    let (from, to) = char_scope(&chars);
    offset_of(&chars, from)..offset_of(&chars, to)
}

/// Whether the byte at `index` lies in a placeholder.
pub fn inside_random_token(template: &str, index: usize) -> (result: bool)
    ensures
        result == (exists|m: int|
            #[trigger] token_at(template@, m) && byte_offset(template@, m) <= index < byte_offset(
                template@,
                m,
            ) + PLACEHOLDER_LENGTH),
{
    let chars = chars_of(template);
    let mut i: usize = 0;
    while i < chars.len()
        invariant
            i <= chars.len(),
            chars@ == template@,
            forall|m: int|
                0 <= m < i && #[trigger] token_at(template@, m) ==> !(byte_offset(template@, m)
                    <= index < byte_offset(template@, m) + PLACEHOLDER_LENGTH),
        decreases chars.len() - i,
    {
        if placeholder_at(&chars, i) {
            let start: usize = offset_of(&chars, i);
            if start <= index && index - start < PLACEHOLDER_LENGTH {
                assert(token_at(template@, i as int));
                return true;
            }
        }
        i += 1;
    }
    false
}

/// The bytes at which the letters stand that may vary.
pub open spec fn position_offsets(s: Seq<char>, to: int) -> Seq<usize> {
    positions_to(s, to).map_values(|i: int| byte_offset(s, i) as usize)
}

pub fn leet_positions(template: &str) -> (result: Vec<usize>)
    ensures
        result@ == position_offsets(template@, template@.len() as int),
        result@.len() == positions(template@).len(),
{
    let chars = chars_of(template);
    let (from, to) = char_scope(&chars);
    let mut result: Vec<usize> = Vec::new();
    let mut i: usize = 0;
    assert(result@ =~= position_offsets(template@, 0));
    while i < chars.len()
        invariant
            i <= chars.len(),
            chars@ == template@,
            (from as int, to as int) == scope(chars@),
            result@ == position_offsets(template@, i as int),
        decreases chars.len() - i,
    {
        if from <= i && i < to && !inside_token(&chars, i) && leet_replacement(chars[i]).is_some() {
            let offset: usize = offset_of(&chars, i);
            result.push(offset);
            assert(result@ =~= position_offsets(template@, i + 1));
        }
        i += 1;
    }
    result
}

// ---------------------------------------------------------------------------
// Rendering
// ---------------------------------------------------------------------------

pub open spec fn has_bit(mask: u64, k: int) -> bool {
    mask & (1u64 << (k as u64)) != 0
}

/// The character that is rendered for the one at `i`, which belongs to no placeholder: the digit
/// for its letter, where the mask has the bit of the letter.
pub open spec fn rendered_char(s: Seq<char>, i: int, mask: Option<u64>) -> char {
    match mask {
        Some(bits) if varies(s, i) && has_bit(bits, positions_to(s, i).len() as int) => leet(
            s[i],
        )->Some_0,
        _ => s[i],
    }
}

/// The template from `from` on, with the token for each placeholder.
pub open spec fn rendered_from(
    s: Seq<char>,
    from: int,
    token: Option<Seq<char>>,
    mask: Option<u64>,
) -> Seq<char>
    decreases s.len() - from,
{
    if from >= s.len() {
        Seq::empty()
    } else if token_at(s, from) {
        (match token {
            Some(text) => text,
            None => RANDOM_TOKEN_PLACEHOLDER@,
        }) + rendered_from(s, from + PLACEHOLDER_LENGTH, token, mask)
    } else {
        seq![rendered_char(s, from, mask)] + rendered_from(s, from + 1, token, mask)
    }
}

pub open spec fn rendered(s: Seq<char>, token: Option<Seq<char>>, mask: Option<u64>) -> Seq<char> {
    rendered_from(s, 0, token, mask)
}

/// No placeholder that starts before `i` reaches beyond it.
spec fn between_tokens(s: Seq<char>, i: int) -> bool {
    forall|m: int| m < i && #[trigger] token_at(s, m) ==> m + PLACEHOLDER_LENGTH <= i
}

proof fn lemma_step_char(s: Seq<char>, i: int)
    requires
        between_tokens(s, i),
        !token_at(s, i),
        0 <= i < s.len(),
    ensures
        !in_token(s, i),
        between_tokens(s, i + 1),
{
}

proof fn lemma_step_token(s: Seq<char>, i: int)
    requires
        between_tokens(s, i),
        token_at(s, i),
    ensures
        between_tokens(s, i + PLACEHOLDER_LENGTH),
        positions_to(s, i + PLACEHOLDER_LENGTH) == positions_to(s, i),
{
    assert forall|m: int| m < i + PLACEHOLDER_LENGTH && #[trigger] token_at(s, m) implies m
        + PLACEHOLDER_LENGTH <= i + PLACEHOLDER_LENGTH by {
        if m > i {
            lemma_tokens_apart(s, i, m);
        }
    }
    lemma_positions_in_token(s, i, PLACEHOLDER_LENGTH as int);
}

proof fn lemma_positions_in_token(s: Seq<char>, i: int, d: int)
    requires
        token_at(s, i),
        0 <= d <= PLACEHOLDER_LENGTH,
    ensures
        positions_to(s, i + d) == positions_to(s, i),
    decreases d,
{
    if d > 0 {
        assert(in_token(s, i + d - 1));
        lemma_positions_in_token(s, i, d - 1);
    }
}

/// Fills in a template: the token for its placeholder, and a digit for each letter whose bit the
/// mask has.
pub fn render_generated_flag(template: &str, token: Option<&str>, mask: Option<u64>) -> (result:
    String)
    requires
        mask is Some ==> positions(template@).len() <= 64,
    ensures
        result@ == rendered(template@, crate::error::str_of(token), mask),
{
    let chars = chars_of(template);
    let ghost s = template@;
    let ghost text = crate::error::str_of(token);
    let (from, to) = char_scope(&chars);
    let mut result = String::new();
    let mut leet_index: u64 = 0;
    let mut cursor: usize = 0;
    proof {
        assert(result@ + rendered_from(s, 0, text, mask) =~= rendered(s, text, mask));
    }
    while cursor < chars.len()
        invariant
            cursor <= chars.len(),
            chars@ == s,
            (from as int, to as int) == scope(s),
            text == crate::error::str_of(token),
            between_tokens(s, cursor as int),
            mask is Some ==> positions(s).len() <= 64,
            mask is Some ==> leet_index == positions_to(s, cursor as int).len(),
            rendered(s, text, mask) == result@ + rendered_from(s, cursor as int, text, mask),
        decreases chars.len() - cursor,
    {
        let ghost before = result@;
        if placeholder_at(&chars, cursor) {
            proof {
                lemma_step_token(s, cursor as int);
            }
            let ghost next = rendered_from(s, cursor + PLACEHOLDER_LENGTH, text, mask);
            match token {
                Some(value) => {
                    result = concat(result.as_str(), value);
                    assert(before + (value@ + next) =~= (before + value@) + next);
                },
                None => {
                    result = concat(result.as_str(), RANDOM_TOKEN_PLACEHOLDER);
                    assert(before + (RANDOM_TOKEN_PLACEHOLDER@ + next) =~= (before
                        + RANDOM_TOKEN_PLACEHOLDER@) + next);
                },
            }
            cursor += PLACEHOLDER_LENGTH;
        } else {
            proof {
                lemma_step_char(s, cursor as int);
                lemma_positions_bound(s, cursor as int + 1, s.len() as int);
            }
            let character = chars[cursor];
            let ghost next = rendered_from(s, cursor + 1, text, mask);
            let mut shown_char = character;
            if from <= cursor && cursor < to {
                match (leet_replacement(character), mask) {
                    (Some(replacement), Some(bits)) => {
                        if bits & (1u64 << leet_index) != 0 {
                            shown_char = replacement;
                        }
                        leet_index += 1;
                    },
                    _ => {},
                }
            }
            result.push(shown_char);
            assert(before + (seq![shown_char] + next) =~= before.push(shown_char) + next);
            cursor += 1;
        }
    }
    assert(result@ + Seq::<char>::empty() =~= result@);
    result
}

// ---------------------------------------------------------------------------
// Defining a flag
// ---------------------------------------------------------------------------

/// How many placeholders start before `to`.
pub open spec fn token_count(s: Seq<char>, to: int) -> nat
    decreases to,
{
    if to <= 0 {
        0
    } else {
        token_count(s, to - 1) + if token_at(s, to - 1) {
            1nat
        } else {
            0nat
        }
    }
}

pub open spec fn placeholders(s: Seq<char>) -> nat {
    token_count(s, s.len() as int)
}

/// The first placeholder from `from` on, or the length of `s`.
pub open spec fn first_token(s: Seq<char>, from: int) -> int
    decreases s.len() - from,
{
    if from >= s.len() {
        s.len() as int
    } else if token_at(s, from) {
        from
    } else {
        first_token(s, from + 1)
    }
}

/// The template without its placeholder.
pub open spec fn without_token(s: Seq<char>) -> Seq<char> {
    let i = first_token(s, 0);
    if token_at(s, i) {
        s.take(i) + s.skip(i + PLACEHOLDER_LENGTH)
    } else {
        s
    }
}

pub fn count_placeholders(content: &str) -> (result: usize)
    ensures
        result == placeholders(content@),
        result <= content@.len(),
{
    let chars = chars_of(content);
    let mut count: usize = 0;
    let mut i: usize = 0;
    while i < chars.len()
        invariant
            i <= chars.len(),
            chars@ == content@,
            count == token_count(content@, i as int),
            count <= i,
        decreases chars.len() - i,
    {
        if placeholder_at(&chars, i) {
            count += 1;
        }
        i += 1;
    }
    count
}

fn remove_placeholder(content: &str) -> (result: String)
    ensures
        result@ == without_token(content@),
{
    let chars = chars_of(content);
    let mut i: usize = 0;
    while i < chars.len() && !placeholder_at(&chars, i)
        invariant
            i <= chars.len(),
            chars@ == content@,
            first_token(content@, 0) == first_token(content@, i as int),
        decreases chars.len() - i,
    {
        i += 1;
    }
    if i < chars.len() {
        let before = crate::text::slice_to_string(&chars, 0, i);
        let after = crate::text::slice_to_string(&chars, i + PLACEHOLDER_LENGTH, chars.len());
        assert(before@ =~= content@.take(i as int));
        assert(after@ =~= content@.skip(i + PLACEHOLDER_LENGTH));
        concat(before.as_str(), after.as_str())
    } else {
        assert(!token_at(content@, content@.len() as int));
        content.to_owned()
    }
}

/// Why a generated flag cannot be used.
pub open spec fn generated_problem(
    content: Seq<char>,
    policy: FlagPolicyData,
    exposure: Seq<char>,
) -> Option<Seq<char>> {
    let tokens = placeholders(content);
    let rest = without_token(content);
    if exposure != "private"@ {
        Some("Generated flags require a private challenge"@)
    } else if tokens > 1 {
        Some("A generated flag may contain RANDOM_TOKEN only once"@)
    } else if byte_length(content) + tokens * (TOKEN_LENGTH - PLACEHOLDER_LENGTH)
        > MAX_FLAG_BYTES {
        Some("The rendered generated flag exceeds 512 bytes"@)
    } else if crate::text::has_substring(rest, "{{"@) || crate::text::has_substring(rest, "}}"@) {
        Some("The generated flag contains an unsupported placeholder"@)
    } else if policy.leet_variation && positions(content).len() == 0 {
        Some("Leet variation requires at least one replaceable letter"@)
    } else if policy.leet_variation && positions(content).len() > MAX_LEET_POSITIONS {
        Some("The flag has too many letters for leet variation"@)
    } else if tokens == 0 && !policy.leet_variation {
        Some("A generated flag requires RANDOM_TOKEN or leet variation"@)
    } else {
        None
    }
}

fn check_generated(content: &str, policy: FlagPolicyData, exposure: &str) -> (result: Result<
    (),
    ApiError,
>)
    requires
        byte_length(content@) <= MAX_FLAG_BYTES,
    ensures
        shown(result) == (match generated_problem(content@, policy, exposure@) {
            Some(message) => Err(bad(message)),
            None => Ok::<(), Failure>(()),
        }),
{
    if !same(exposure, "private") {
        return Err(ApiError::bad_request("Generated flags require a private challenge"));
    }
    let tokens: usize = count_placeholders(content);
    if tokens > 1 {
        return Err(ApiError::bad_request("A generated flag may contain RANDOM_TOKEN only once"));
    }
    let grown: usize = if tokens == 1 {
        TOKEN_LENGTH - PLACEHOLDER_LENGTH
    } else {
        0
    };
    if byte_len(content) + grown > MAX_FLAG_BYTES {
        return Err(ApiError::bad_request("The rendered generated flag exceeds 512 bytes"));
    }
    let rest = remove_placeholder(content);
    if crate::text::contains_text(rest.as_str(), "{{") || crate::text::contains_text(
        rest.as_str(),
        "}}",
    ) {
        return Err(ApiError::bad_request("The generated flag contains an unsupported placeholder"));
    }
    let count: usize = leet_positions(content).len();
    if policy.leet_variation && count == 0 {
        return Err(ApiError::bad_request("Leet variation requires at least one replaceable letter"));
    }
    if policy.leet_variation && count > MAX_LEET_POSITIONS {
        return Err(ApiError::bad_request("The flag has too many letters for leet variation"));
    }
    if tokens == 0 && !policy.leet_variation {
        return Err(ApiError::bad_request("A generated flag requires RANDOM_TOKEN or leet variation"));
    }
    Ok(())
}

/// The pattern that has to match the whole of a text.
pub open spec fn anchored(pattern: Seq<char>) -> Seq<char> {
    "^(?:"@ + pattern + ")$"@
}

fn anchor(pattern: &str) -> (result: String)
    ensures
        result@ == anchored(pattern@),
{
    let start = concat("^(?:", pattern);
    concat(start.as_str(), ")$")
}

/// A pattern that can be used: not too long, and it compiles.
pub open spec fn usable_regex(pattern: Seq<char>, case_sensitive: bool) -> Result<(), Failure> {
    if byte_length(pattern) > MAX_REGEX_BYTES {
        Err(bad("Regex flag is too long"@))
    } else if regex_accepted(anchored(pattern), !case_sensitive, REGEX_SIZE_LIMIT) {
        Ok(())
    } else {
        Err(bad("Regex flag is invalid"@))
    }
}

pub fn compile_regex(pattern: &str, case_sensitive: bool) -> (result: Result<(), ApiError>)
    ensures
        shown(result) == usable_regex(pattern@, case_sensitive),
{
    if byte_len(pattern) > MAX_REGEX_BYTES {
        return Err(ApiError::bad_request("Regex flag is too long"));
    }
    let source = anchor(pattern);
    if regex_compiles(source.as_str(), !case_sensitive, REGEX_SIZE_LIMIT) {
        Ok(())
    } else {
        Err(ApiError::bad_request("Regex flag is invalid"))
    }
}

pub open spec fn valid_content(content: Seq<char>) -> bool {
    content.len() > 0 && byte_length(content) <= MAX_FLAG_BYTES && !has_control(content)
}

/// Whether a flag of a type may have the options and the content.
pub open spec fn definition_problem(
    flag_type: Seq<char>,
    content: Seq<char>,
    policy: FlagPolicyData,
    exposure: Seq<char>,
) -> Option<Failure> {
    if flag_type == "generated"@ {
        match generated_problem(content, policy, exposure) {
            Some(message) => Some(bad(message)),
            None => None,
        }
    } else if placeholders(content) > 0 {
        Some(bad("RANDOM_TOKEN is available only for generated flags"@))
    } else if flag_type == "static"@ {
        if policy.leet_variation || policy.accept_other_users {
            Some(bad("Static flags do not support per-user options"@))
        } else {
            None
        }
    } else if policy.leet_variation || policy.accept_other_users {
        Some(bad("Regex flags do not support per-user options"@))
    } else {
        match usable_regex(content, policy.case_sensitive) {
            Ok(_) => None,
            Err(failure) => Some(failure),
        }
    }
}

/// The normal form of a flag: its type in lower case, its content, both without white space
/// around them, and its options in full.
pub open spec fn normal_definition(
    flag_type: Seq<char>,
    content: Seq<char>,
    data: Json,
    exposure: Seq<char>,
) -> Result<(Seq<char>, Seq<char>, FlagPolicyData), Failure> {
    let kind = lowercase(trimmed(flag_type));
    let text = trimmed(content);
    if !valid_content(text) {
        Err(bad("Flag content is invalid"@))
    } else if kind != "static"@ && kind != "regex"@ && kind != "generated"@ {
        Err(bad("Flag type is invalid"@))
    } else {
        match policy_of(data) {
            None => Err(bad("Flag options are invalid"@)),
            Some(policy) => match definition_problem(kind, text, policy, exposure) {
                Some(failure) => Err(failure),
                None => Ok((kind, text, policy)),
            },
        }
    }
}

pub open spec fn shown_definition(
    result: Result<(String, String, FlagPolicyData), ApiError>,
) -> Result<(Seq<char>, Seq<char>, FlagPolicyData), Failure> {
    match result {
        Ok((kind, content, policy)) => Ok((kind@, content@, policy)),
        Err(error) => Err(error@),
    }
}

fn check_definition(kind: &str, content: &str, policy: FlagPolicyData, exposure: &str) -> (result:
    Result<(), ApiError>)
    requires
        byte_length(content@) <= MAX_FLAG_BYTES,
    ensures
        shown(result) == (match definition_problem(kind@, content@, policy, exposure@) {
            Some(failure) => Err(failure),
            None => Ok::<(), Failure>(()),
        }),
{
    if same(kind, "generated") {
        return check_generated(content, policy, exposure);
    }
    if count_placeholders(content) > 0 {
        return Err(ApiError::bad_request("RANDOM_TOKEN is available only for generated flags"));
    }
    let per_user = policy.leet_variation || policy.accept_other_users;
    if same(kind, "static") {
        if per_user {
            return Err(ApiError::bad_request("Static flags do not support per-user options"));
        }
        return Ok(());
    }
    if per_user {
        return Err(ApiError::bad_request("Regex flags do not support per-user options"));
    }
    compile_regex(content, policy.case_sensitive)
}

pub fn normalize_definition(flag_type: &str, content: &str, data: &Json, exposure: &str) -> (result:
    Result<(String, String, FlagPolicyData), ApiError>)
    ensures
        shown_definition(result) == normal_definition(flag_type@, content@, *data, exposure@),
{
    let kind = to_lowercase_ascii(trim(flag_type).as_str());
    let text = trim(content);
    if text.as_str().is_empty() || byte_len(text.as_str()) > MAX_FLAG_BYTES || contains_control(
        text.as_str(),
    ) {
        return Err(ApiError::bad_request("Flag content is invalid"));
    }
    if !same(kind.as_str(), "static") && !same(kind.as_str(), "regex") && !same(
        kind.as_str(),
        "generated",
    ) {
        return Err(ApiError::bad_request("Flag type is invalid"));
    }
    let policy = match parse_policy(data) {
        Ok(policy) => policy,
        Err(error) => return Err(error),
    };
    match check_definition(kind.as_str(), text.as_str(), policy, exposure) {
        Ok(_) => Ok((kind, text, policy)),
        Err(error) => Err(error),
    }
}

// ---------------------------------------------------------------------------
// Comparing
// ---------------------------------------------------------------------------

/// The form of a flag that is compared.
pub open spec fn comparable(flag: Seq<char>, case_sensitive: bool) -> Seq<char> {
    if case_sensitive {
        flag
    } else {
        unicode_lowercase(flag)
    }
}

fn comparable_text(flag: &str, case_sensitive: bool) -> (result: String)
    ensures
        result@ == comparable(flag@, case_sensitive),
{
    if case_sensitive {
        flag.to_owned()
    } else {
        flag.to_lowercase()
    }
}

pub fn flag_matches_literal(saved: &str, provided: &str, case_sensitive: bool) -> (result: bool)
    ensures
        result == (comparable(saved@, case_sensitive) == comparable(provided@, case_sensitive)),
{
    comparable_text(saved, case_sensitive) == comparable_text(provided, case_sensitive)
}

pub open spec fn regex_outcome(pattern: Seq<char>, provided: Seq<char>, case_sensitive: bool) -> Result<
    bool,
    Failure,
> {
    match usable_regex(pattern, case_sensitive) {
        Err(failure) => Err(failure),
        Ok(_) => Ok(
            regex_found(anchored(pattern), !case_sensitive, REGEX_SIZE_LIMIT, provided),
        ),
    }
}

pub fn flag_matches_regex(pattern: &str, provided: &str, case_sensitive: bool) -> (result: Result<
    bool,
    ApiError,
>)
    ensures
        shown(result) == regex_outcome(pattern@, provided@, case_sensitive),
{
    if byte_len(pattern) > MAX_REGEX_BYTES {
        return Err(ApiError::bad_request("Regex flag is too long"));
    }
    let source = anchor(pattern);
    match regex_is_match(source.as_str(), !case_sensitive, REGEX_SIZE_LIMIT, provided) {
        Some(found) => Ok(found),
        None => Err(ApiError::bad_request("Regex flag is invalid")),
    }
}

/// The four bytes of a number, the most significant first.
pub open spec fn big_endian(value: i32) -> Seq<u8> {
    let bits = value as u32;
    seq![(bits >> 24) as u8, (bits >> 16) as u8, (bits >> 8) as u8, bits as u8]
}

/// What the tag of a flag is computed over.
pub open spec fn tag_message(challenge_id: i32, flag: Seq<char>) -> Seq<u8> {
    encode_utf8("ctfzone/generated-flag-match/v1"@) + big_endian(challenge_id) + encode_utf8(flag)
}

/// The tag by which a flag that was generated for one player is found again.
pub open spec fn match_tag_of(
    secret_key: Seq<char>,
    challenge_id: i32,
    flag: Seq<char>,
    case_sensitive: bool,
) -> Seq<u8> {
    hmac_sha256_tag(
        encode_utf8(secret_key),
        tag_message(challenge_id, comparable(flag, case_sensitive)),
    )
}

pub fn match_tag(secret_key: &str, challenge_id: i32, flag: &str, case_sensitive: bool) -> (result:
    Result<[u8; 32], ApiError>)
    ensures
        result matches Ok(tag) && tag@ == match_tag_of(
            secret_key@,
            challenge_id,
            flag@,
            case_sensitive,
        ),
{
    let normalized = comparable_text(flag, case_sensitive);
    let mut message = bytes_of("ctfzone/generated-flag-match/v1");
    let bits: u32 = challenge_id as u32;
    message.push((bits >> 24) as u8);
    message.push((bits >> 16) as u8);
    message.push((bits >> 8) as u8);
    message.push(bits as u8);
    let mut content = bytes_of(normalized.as_str());
    message.append(&mut content);
    assert(message@ =~= tag_message(challenge_id, normalized@));
    Ok(hmac_sha256(secret_key.as_bytes(), message.as_slice()))
}

/// A flag as it is stored.
pub struct StoredFlag {
    pub id: i32,
    pub flag_type: String,
    pub content: String,
    pub data: Json,
    pub revision: i64,
}

/// Whose generated flag a submission matches.
#[derive(Clone, Copy, Debug)]
pub enum FlagMatch {
    No,
    Own,
    Other { flag_id: i32, source_user_id: i32, accepted: bool, match_tag: [u8; 32] },
}

/// The match, where `owner` is the flag and the user that the tag was allocated for.
pub open spec fn owner_match(
    flag_id: i32,
    policy: FlagPolicyData,
    owner: Option<(i32, i32)>,
    submitting_user_id: i32,
    tag: [u8; 32],
) -> FlagMatch {
    match owner {
        Some((matched_flag_id, source_user_id)) if matched_flag_id == flag_id => if source_user_id
            == submitting_user_id {
            FlagMatch::Own
        } else {
            FlagMatch::Other {
                flag_id,
                source_user_id,
                accepted: policy.accept_other_users,
                match_tag: tag,
            }
        },
        _ => FlagMatch::No,
    }
}

/// Whether a submission is the submitter's own generated flag, somebody else's or none; `owner` is
/// the flag and the user that `tag`, the submission's tag, was allocated for.
pub fn generated_flag_match(
    flag_id: i32,
    policy: FlagPolicyData,
    owner: Option<(i32, i32)>,
    submitting_user_id: i32,
    tag: [u8; 32],
) -> (result: FlagMatch)
    ensures
        result == owner_match(flag_id, policy, owner, submitting_user_id, tag),
{
    match owner {
        None => FlagMatch::No,
        Some((matched_flag_id, source_user_id)) => {
            if matched_flag_id != flag_id {
                FlagMatch::No
            } else if source_user_id == submitting_user_id {
                FlagMatch::Own
            } else {
                FlagMatch::Other {
                    flag_id,
                    source_user_id,
                    accepted: policy.accept_other_users,
                    match_tag: tag,
                }
            }
        },
    }
}

/// How a candidate compares with a stored flag.
pub open spec fn evaluation_of(
    flag: StoredFlag,
    provided: Seq<char>,
    owner: Option<(i32, i32)>,
    user_id: i32,
    tag: [u8; 32],
) -> Result<FlagEvaluation, Failure> {
    match (flag.data, policy_of(flag.data)) {
        (Json::Null, _) => Err(upstream("Stored flag options are invalid"@)),
        (_, None) => Err(upstream("Stored flag options are invalid"@)),
        (_, Some(policy)) => if flag.flag_type@ == "static"@ {
            Ok(
                FlagEvaluation::Compared {
                    matched: comparable(flag.content@, policy.case_sensitive) == comparable(
                        provided,
                        policy.case_sensitive,
                    ),
                    shared: None,
                },
            )
        } else if flag.flag_type@ == "regex"@ {
            match regex_outcome(flag.content@, provided, policy.case_sensitive) {
                Ok(matched) => Ok(FlagEvaluation::Compared { matched, shared: None }),
                Err(failure) => Err(failure),
            }
        } else if flag.flag_type@ == "generated"@ {
            Ok(
                match owner_match(flag.id, policy, owner, user_id, tag) {
                    FlagMatch::No => FlagEvaluation::Compared { matched: false, shared: None },
                    FlagMatch::Own => FlagEvaluation::Compared { matched: true, shared: None },
                    FlagMatch::Other { flag_id, source_user_id, accepted, match_tag } =>
                        FlagEvaluation::Compared {
                        matched: accepted,
                        shared: Some(
                            SharedFlagEvidence { flag_id, source_user_id, accepted, match_tag },
                        ),
                    },
                },
            )
        } else {
            Err(bad("Unsupported flag type on flag "@ + integer_text(flag.id as int)))
        },
    }
}

/// The tag that a candidate for a generated flag is looked up by; other flags have none.
pub fn candidate_tag(flag: &StoredFlag, challenge_id: i32, secret_key: &str, provided: &str) -> (
result: Result<Option<[u8; 32]>, ApiError>)
    ensures
        match result {
            Ok(tag) => match (flag.data, policy_of(flag.data)) {
                (Json::Null, _) => false,
                (_, None) => false,
                (_, Some(policy)) => if flag.flag_type@ == "generated"@ {
                    tag matches Some(bytes) && bytes@ == match_tag_of(
                        secret_key@,
                        challenge_id,
                        provided@,
                        policy.case_sensitive,
                    )
                } else {
                    tag is None
                },
            },
            Err(error) => (flag.data is Null || policy_of(flag.data) is None) && error@
                == upstream("Stored flag options are invalid"@),
        },
{
    let policy = match &flag.data {
        Json::Null => return Err(ApiError::upstream("Stored flag options are invalid")),
        data => match parse_policy(data) {
            Ok(policy) => policy,
            Err(_) => return Err(ApiError::upstream("Stored flag options are invalid")),
        },
    };
    if !same(flag.flag_type.as_str(), "generated") {
        return Ok(None);
    }
    match match_tag(secret_key, challenge_id, provided, policy.case_sensitive) {
        Ok(tag) => Ok(Some(tag)),
        Err(error) => Err(error),
    }
}

/// Compares a candidate with a stored flag. For a generated flag, `tag` is the candidate's tag and
/// `owner` is the flag and the user that the tag was allocated for.
pub fn flag_matches(
    flag: &StoredFlag,
    provided: &str,
    owner: Option<(i32, i32)>,
    user_id: i32,
    tag: [u8; 32],
) -> (result: Result<FlagEvaluation, ApiError>)
    ensures
        shown(result) == evaluation_of(*flag, provided@, owner, user_id, tag),
{
    let policy = match &flag.data {
        Json::Null => return Err(ApiError::upstream("Stored flag options are invalid")),
        data => match parse_policy(data) {
            Ok(policy) => policy,
            Err(_) => return Err(ApiError::upstream("Stored flag options are invalid")),
        },
    };
    if same(flag.flag_type.as_str(), "static") {
        let matched = flag_matches_literal(flag.content.as_str(), provided, policy.case_sensitive);
        Ok(FlagEvaluation::Compared { matched, shared: None })
    } else if same(flag.flag_type.as_str(), "regex") {
        match flag_matches_regex(flag.content.as_str(), provided, policy.case_sensitive) {
            Ok(matched) => Ok(FlagEvaluation::Compared { matched, shared: None }),
            Err(error) => Err(error),
        }
    } else if same(flag.flag_type.as_str(), "generated") {
        Ok(
            match generated_flag_match(flag.id, policy, owner, user_id, tag) {
                FlagMatch::No => FlagEvaluation::Compared { matched: false, shared: None },
                FlagMatch::Own => FlagEvaluation::Compared { matched: true, shared: None },
                FlagMatch::Other { flag_id, source_user_id, accepted, match_tag } =>
                    FlagEvaluation::Compared {
                    matched: accepted,
                    shared: Some(
                        SharedFlagEvidence { flag_id, source_user_id, accepted, match_tag },
                    ),
                },
            },
        )
    } else {
        let number = to_text(flag.id as i64);
        let message = concat("Unsupported flag type on flag ", number.as_str());
        Err(ApiError::bad_request(message.as_str()))
    }
}

// ---------------------------------------------------------------------------
// Allocating a flag to a player
// ---------------------------------------------------------------------------

/// How many masks there are for so many letters, the empty one left out.
pub open spec fn mask_capacity(position_count: int) -> int {
    vstd::arithmetic::power2::pow2(position_count as nat) - 1
}

fn capacity_of(position_count: usize) -> (result: u64)
    requires
        position_count <= 63,
    ensures
        result == mask_capacity(position_count as int),
        result <= i64::MAX,
{
    let shift: u64 = position_count as u64;
    let power: u64 = 1u64 << shift;
    proof {
        vstd::bits::lemma_u64_pow2_no_overflow(shift as nat);
        vstd::bits::lemma_u64_shl_is_mul(1, shift);
        assert(shift <= 63 ==> 1u64 << shift >= 1 && 1u64 << shift <= 0x8000_0000_0000_0000) by (
            bit_vector);
    }
    power - 1
}

/// The mask has been given to somebody.
pub open spec fn mask_taken(masks: Seq<Option<i64>>, mask: int) -> bool {
    exists|i: int| 0 <= i < masks.len() && #[trigger] masks[i] == Some(mask as i64)
}

fn is_taken(masks: &Vec<Option<i64>>, mask: i64) -> (result: bool)
    ensures
        result == mask_taken(masks@, mask as int),
{
    let mut i: usize = 0;
    while i < masks.len()
        invariant
            i <= masks.len(),
            forall|j: int| 0 <= j < i ==> masks@[j] != Some(mask),
        decreases masks.len() - i,
    {
        match masks[i] {
            Some(value) => {
                if value == mask {
                    assert(masks@[i as int] == Some(mask));
                    return true;
                }
            },
            None => {},
        }
        i += 1;
    }
    false
}

/// So many masks cannot all be taken by fewer players.
proof fn lemma_some_mask_is_free(masks: Seq<Option<i64>>, n: int)
    requires
        0 <= n <= i64::MAX,
        forall|m: int| 1 <= m <= n ==> #[trigger] mask_taken(masks, m),
    ensures
        n <= masks.len(),
    decreases n,
{
    if n > 0 {
        assert(mask_taken(masks, n));
        let i = choose|i: int| 0 <= i < masks.len() && #[trigger] masks[i] == Some(n as i64);
        let rest = masks.remove(i);
        assert forall|m: int| 1 <= m <= n - 1 implies #[trigger] mask_taken(rest, m) by {
            assert(mask_taken(masks, m));
            let j = choose|j: int| 0 <= j < masks.len() && #[trigger] masks[j] == Some(m as i64);
            assert(j != i);
            if j < i {
                assert(rest[j] == masks[j]);
            } else {
                assert(rest[j - 1] == masks[j]);
            }
        }
        lemma_some_mask_is_free(rest, n - 1);
    }
}

/// The lowest mask that nobody has; `masks` are those of all players that have the flag.
pub fn next_available_leet_mask(position_count: usize, masks: &Vec<Option<i64>>) -> (result: Result<
    i64,
    ApiError,
>)
    requires
        position_count <= 63,
    ensures
        result is Ok <==> masks@.len() < mask_capacity(position_count as int),
        result matches Ok(mask) ==> 1 <= mask <= mask_capacity(position_count as int)
            && !mask_taken(masks@, mask as int) && (forall|m: int|
            1 <= m < mask ==> #[trigger] mask_taken(masks@, m)),
        result matches Err(error) ==> error@ == conflict(
            "The leet variation space for this challenge is exhausted"@,
        ),
{
    let capacity: u64 = capacity_of(position_count);
    if masks.len() as u64 >= capacity {
        return Err(ApiError::conflict("The leet variation space for this challenge is exhausted"));
    }
    let mut mask: i64 = 1;
    while is_taken(masks, mask)
        invariant
            masks.len() < capacity <= i64::MAX,
            1 <= mask <= masks.len() + 1,
            forall|m: int| 1 <= m < mask ==> #[trigger] mask_taken(masks@, m),
        decreases masks.len() + 1 - mask,
    {
        proof {
            assert forall|m: int| 1 <= m <= mask implies #[trigger] mask_taken(masks@, m) by {}
            lemma_some_mask_is_free(masks@, mask as int);
        }
        mask += 1;
    }
    Ok(mask)
}

/// A mask picked by a random number: never the empty one.
pub fn random_leet_mask(position_count: usize, random: u64) -> (result: i64)
    requires
        0 < position_count <= 63,
    ensures
        result == random as int % mask_capacity(position_count as int) + 1,
        1 <= result <= mask_capacity(position_count as int),
{
    let maximum: u64 = capacity_of(position_count);
    proof {
        vstd::arithmetic::power2::lemma_pow2_pos((position_count - 1) as nat);
        vstd::arithmetic::power2::lemma_pow2_unfold(position_count as nat);
    }
    ((random % maximum) + 1) as i64
}

/// Where the mask of a new allocation comes from.
#[derive(Clone, Copy, Debug, PartialEq, Eq, Structural)]
pub enum MaskSource {
    NoMask,
    Lowest,
    Random,
}

/// What a new allocation needs: a random token, and a mask. Without a token the mask alone keeps
/// the flags of two players apart, so it is the lowest free one; beside a token it is random.
pub fn plan_allocation(content: &str, policy: FlagPolicyData) -> (result: (bool, MaskSource))
    ensures
        result.0 == (placeholders(content@) > 0),
        result.1 == (if !policy.leet_variation {
            MaskSource::NoMask
        } else if placeholders(content@) > 0 {
            MaskSource::Random
        } else {
            MaskSource::Lowest
        }),
{
    let has_token = count_placeholders(content) > 0;
    let source = if !policy.leet_variation {
        MaskSource::NoMask
    } else if has_token {
        MaskSource::Random
    } else {
        MaskSource::Lowest
    };
    (has_token, source)
}

fn mask_bits(mask: Option<i64>) -> (result: Option<u64>)
    ensures
        result == unsigned(mask),
{
    match mask {
        Some(value) => Some(value as u64),
        None => None,
    }
}

pub open spec fn unsigned(mask: Option<i64>) -> Option<u64> {
    match mask {
        Some(value) => Some(value as u64),
        None => None,
    }
}

/// The flag that a player already has: rendered again, unless its definition has changed.
pub fn replay_allocation(
    flag: &StoredFlag,
    revision: i64,
    random_token: Option<&str>,
    leet_mask: Option<i64>,
) -> (result: Result<String, ApiError>)
    requires
        leet_mask is Some ==> positions(flag.content@).len() <= 64,
    ensures
        shown_text(result) == (if revision != flag.revision {
            Err(conflict("The generated flag definition changed after allocation"@))
        } else {
            Ok::<Seq<char>, Failure>(
                rendered(flag.content@, str_of(random_token), unsigned(leet_mask)),
            )
        }),
{
    if revision != flag.revision {
        return Err(ApiError::conflict("The generated flag definition changed after allocation"));
    }
    Ok(render_generated_flag(flag.content.as_str(), random_token, mask_bits(leet_mask)))
}

/// A new allocation: the flag, the tag by which it is found, and how many letters vary in it.
pub struct Allocation {
    pub rendered: String,
    pub match_tag: [u8; 32],
    pub leet_position_count: Option<i16>,
}

pub fn materialize_flag(
    content: &str,
    policy: FlagPolicyData,
    challenge_id: i32,
    secret_key: &str,
    random_token: Option<&str>,
    leet_mask: Option<i64>,
) -> (result: Result<Allocation, ApiError>)
    requires
        policy.leet_variation || leet_mask is Some ==> positions(content@).len()
            <= MAX_LEET_POSITIONS,
    ensures
        result matches Ok(allocation) && allocation.rendered@ == rendered(
            content@,
            str_of(random_token),
            unsigned(leet_mask),
        ) && allocation.match_tag@ == match_tag_of(
            secret_key@,
            challenge_id,
            allocation.rendered@,
            policy.case_sensitive,
        ) && allocation.leet_position_count == (if policy.leet_variation {
            Some(positions(content@).len() as i16)
        } else {
            None
        }),
{
    let leet_position_count = if policy.leet_variation {
        Some(leet_positions(content).len() as i16)
    } else {
        None
    };
    let flag = render_generated_flag(content, random_token, mask_bits(leet_mask));
    match match_tag(secret_key, challenge_id, flag.as_str(), policy.case_sensitive) {
        Ok(tag) => Ok(Allocation { rendered: flag, match_tag: tag, leet_position_count }),
        Err(error) => Err(error),
    }
}

// ---------------------------------------------------------------------------
// Laws
// ---------------------------------------------------------------------------

/// Without a token and a mask a template is rendered as it stands.
pub proof fn law_plain_rendering(s: Seq<char>)
    ensures
        rendered(s, None, None) == s,
{
    lemma_plain_rendering(s, 0);
    assert(s.skip(0) =~= s);
}

proof fn lemma_plain_rendering(s: Seq<char>, from: int)
    requires
        0 <= from <= s.len(),
    ensures
        rendered_from(s, from, None, None) == s.skip(from),
    decreases s.len() - from,
{
    if from < s.len() {
        if token_at(s, from) {
            lemma_plain_rendering(s, from + PLACEHOLDER_LENGTH);
            assert(s.skip(from) =~= s.subrange(from, from + PLACEHOLDER_LENGTH) + s.skip(
                from + PLACEHOLDER_LENGTH,
            ));
        } else {
            lemma_plain_rendering(s, from + 1);
            assert(s.skip(from) =~= seq![s[from]] + s.skip(from + 1));
        }
    }
}

/// The token stands in a rendered flag as it is, and the characters around it keep their places:
/// only letters that may vary are exchanged for their digits.
pub proof fn law_token_is_protected(s: Seq<char>, token: Seq<char>, mask: Option<u64>)
    requires
        placeholders(s) == 1,
    ensures
        ({
            let m = first_token(s, 0);
            let flag = rendered(s, Some(token), mask);
            &&& flag.len() == s.len() - PLACEHOLDER_LENGTH + token.len()
            &&& flag.subrange(m, m + token.len()) == token
            &&& forall|i: int| 0 <= i < m ==> #[trigger] flag[i] == rendered_char(s, i, mask)
            &&& forall|i: int|
                m + PLACEHOLDER_LENGTH <= i < s.len() ==> flag[i - PLACEHOLDER_LENGTH + token.len()]
                    == #[trigger] rendered_char(s, i, mask)
        }),
{
    lemma_first_token(s, 0);
    let m = first_token(s, 0);
    assert(token_at(s, m)) by {
        if !token_at(s, m) {
            lemma_count_zero(s, s.len() as int);
        }
    }
    lemma_count_after(s, m, s.len() as int);
    lemma_render_plain_run(s, 0, m, Some(token), mask);
    let next = m + PLACEHOLDER_LENGTH;
    lemma_render_plain_run(s, next, s.len() as int, Some(token), mask);
    let left = Seq::new(m as nat, |k: int| rendered_char(s, k, mask));
    let right = Seq::new((s.len() - next) as nat, |k: int| rendered_char(s, next + k, mask));
    let flag = rendered(s, Some(token), mask);
    assert(rendered_from(s, s.len() as int, Some(token), mask) =~= Seq::<char>::empty());
    assert(flag =~= left + (token + right));
    assert(flag.subrange(m, m + token.len()) =~= token);
    assert forall|i: int| next <= i < s.len() implies flag[i - PLACEHOLDER_LENGTH + token.len()]
        == #[trigger] rendered_char(s, i, mask) by {
        assert(right[i - next] == rendered_char(s, i, mask));
    }
}

proof fn lemma_first_token(s: Seq<char>, from: int)
    requires
        0 <= from <= s.len(),
    ensures
        from <= first_token(s, from) <= s.len(),
        forall|i: int| from <= i < first_token(s, from) ==> !#[trigger] token_at(s, i),
        first_token(s, from) < s.len() ==> token_at(s, first_token(s, from)),
    decreases s.len() - from,
{
    if from < s.len() && !token_at(s, from) {
        lemma_first_token(s, from + 1);
    }
}

proof fn lemma_count_zero(s: Seq<char>, to: int)
    requires
        0 <= to,
        forall|i: int| 0 <= i < to ==> !#[trigger] token_at(s, i),
    ensures
        token_count(s, to) == 0,
    decreases to,
{
    if to > 0 {
        lemma_count_zero(s, to - 1);
    }
}

/// Behind the only placeholder there is no other.
proof fn lemma_count_after(s: Seq<char>, m: int, to: int)
    requires
        0 <= m < to <= s.len(),
        token_at(s, m),
        token_count(s, to) <= 1,
    ensures
        token_count(s, to) == 1,
        forall|i: int| m < i < to ==> !#[trigger] token_at(s, i),
    decreases to,
{
    if to - 1 > m {
        assert(token_count(s, to - 1) <= 1);
        lemma_count_after(s, m, to - 1);
    }
}

/// Where no placeholder starts, each character is rendered on its own.
proof fn lemma_render_plain_run(
    s: Seq<char>,
    from: int,
    to: int,
    token: Option<Seq<char>>,
    mask: Option<u64>,
)
    requires
        0 <= from <= to <= s.len(),
        forall|i: int| from <= i < to ==> !#[trigger] token_at(s, i),
    ensures
        rendered_from(s, from, token, mask) == Seq::new(
            (to - from) as nat,
            |k: int| rendered_char(s, from + k, mask),
        ) + rendered_from(s, to, token, mask),
    decreases to - from,
{
    let run = Seq::new((to - from) as nat, |k: int| rendered_char(s, from + k, mask));
    if from < to {
        lemma_render_plain_run(s, from + 1, to, token, mask);
        let rest = Seq::new((to - from - 1) as nat, |k: int| rendered_char(s, from + 1 + k, mask));
        assert(run =~= seq![rendered_char(s, from, mask)] + rest);
        assert(run + rendered_from(s, to, token, mask) =~= seq![rendered_char(s, from, mask)] + (
        rest + rendered_from(s, to, token, mask)));
    } else {
        assert(run + rendered_from(s, to, token, mask) =~= rendered_from(s, to, token, mask));
    }
}

/// Two rendered flags of one template are equal only where the tokens, if the template takes one,
/// and the masks, as far as it has letters that may vary, are equal.
pub proof fn law_rendered_flags_differ(
    s: Seq<char>,
    token: Seq<char>,
    other: Seq<char>,
    mask: u64,
    second: u64,
)
    requires
        positions(s).len() <= 64,
        token.len() == other.len(),
        mask <= mask_capacity(positions(s).len() as int),
        second <= mask_capacity(positions(s).len() as int),
        rendered(s, Some(token), Some(mask)) == rendered(s, Some(other), Some(second)),
    ensures
        mask == second,
        placeholders(s) > 0 ==> token == other,
{
    lemma_rendered_differ(s, 0, token, other, mask, second);
    lemma_same_bits(mask, second, positions(s).len());
    let n = positions(s).len();
    vstd::arithmetic::power2::lemma_pow2_pos(n);
    vstd::arithmetic::div_mod::lemma_small_mod(mask as nat, vstd::arithmetic::power2::pow2(n));
    vstd::arithmetic::div_mod::lemma_small_mod(second as nat, vstd::arithmetic::power2::pow2(n));
    if placeholders(s) > 0 {
        lemma_first_token(s, 0);
        if first_token(s, 0) == s.len() {
            lemma_count_zero(s, s.len() as int);
        }
    }
}

proof fn lemma_rendered_differ(
    s: Seq<char>,
    from: int,
    token: Seq<char>,
    other: Seq<char>,
    mask: u64,
    second: u64,
)
    requires
        0 <= from,
        from > s.len() ==> s.len() == 0,
        between_tokens(s, from),
        positions(s).len() <= 64,
        token.len() == other.len(),
        rendered_from(s, from, Some(token), Some(mask)) == rendered_from(
            s,
            from,
            Some(other),
            Some(second),
        ),
    ensures
        forall|k: int|
            positions_to(s, from).len() <= k < positions(s).len() ==> #[trigger] has_bit(mask, k)
                == has_bit(second, k),
        forall|i: int| from <= i < s.len() && #[trigger] token_at(s, i) ==> token == other,
    decreases s.len() - from,
{
    if from < s.len() {
        if token_at(s, from) {
            let next = from + PLACEHOLDER_LENGTH;
            let left = rendered_from(s, next, Some(token), Some(mask));
            let right = rendered_from(s, next, Some(other), Some(second));
            assert((token + left).take(token.len() as int) =~= token);
            assert((other + right).take(other.len() as int) =~= other);
            assert((token + left).skip(token.len() as int) =~= left);
            assert((other + right).skip(other.len() as int) =~= right);
            lemma_step_token(s, from);
            lemma_rendered_differ(s, next, token, other, mask, second);
        } else {
            let c = rendered_char(s, from, Some(mask));
            let d = rendered_char(s, from, Some(second));
            let left = rendered_from(s, from + 1, Some(token), Some(mask));
            let right = rendered_from(s, from + 1, Some(other), Some(second));
            assert((seq![c] + left)[0] == c);
            assert((seq![d] + right)[0] == d);
            assert((seq![c] + left).skip(1) =~= left);
            assert((seq![d] + right).skip(1) =~= right);
            lemma_step_char(s, from);
            lemma_rendered_differ(s, from + 1, token, other, mask, second);
            let k = positions_to(s, from).len() as int;
            lemma_positions_bound(s, from, from + 1);
            if varies(s, from) {
                assert(has_bit(mask, k) == has_bit(second, k));
            }
        }
    } else if from == s.len() {
    } else {
        assert(positions(s).len() == 0);
    }
}

/// Masks with the same lower bits are equal up to there.
proof fn lemma_same_bits(a: u64, b: u64, n: nat)
    requires
        n <= 64,
        forall|k: int| 0 <= k < n ==> #[trigger] has_bit(a, k) == has_bit(b, k),
    ensures
        a as int % vstd::arithmetic::power2::pow2(n) as int == b as int
            % vstd::arithmetic::power2::pow2(n) as int,
    decreases n,
{
    if n > 0 {
        let k = (n - 1) as nat;
        assert forall|j: int| 0 <= j < k implies #[trigger] has_bit(a, j) == has_bit(b, j) by {}
        lemma_same_bits(a, b, k);
        assert(has_bit(a, k as int) == has_bit(b, k as int));
        lemma_low_part(a, k);
        lemma_low_part(b, k);
    } else {
        vstd::arithmetic::power2::lemma2_to64();
    }
}

/// One more bit of a number.
proof fn lemma_low_part(a: u64, k: nat)
    requires
        k < 64,
    ensures
        a as int % vstd::arithmetic::power2::pow2(k + 1) as int == a as int
            % vstd::arithmetic::power2::pow2(k) as int + (if has_bit(a, k as int) {
            vstd::arithmetic::power2::pow2(k) as int
        } else {
            0
        }),
{
    let p = vstd::arithmetic::power2::pow2(k) as int;
    let shift = k as u64;
    vstd::arithmetic::power2::lemma_pow2_pos(k);
    vstd::arithmetic::power2::lemma_pow2_unfold(k + 1);
    vstd::bits::lemma_u64_shr_is_div(a, shift);
    assert(shift < 64 ==> ((a & (1u64 << shift) != 0) == ((a >> shift) % 2 == 1))) by (bit_vector);
    let q = a as int / p;
    assert(q == (a >> shift) as int);
    assert(a as int % (2 * p) == a as int % p + p * (q % 2)) by {
        vstd::arithmetic::div_mod::lemma_mod_breakdown(a as int, p, 2);
        assert(p * 2 == 2 * p) by (nonlinear_arith);
    }
    assert(q % 2 == 0 || q % 2 == 1);
    assert(p * 0 == 0 && p * 1 == p) by (nonlinear_arith);
}

/// What a tag is computed over tells the challenge and the flag: two pairs of them never share it.
pub proof fn law_tag_messages_differ(
    challenge: i32,
    flag: Seq<char>,
    other: i32,
    second: Seq<char>,
)
    requires
        tag_message(challenge, flag) == tag_message(other, second),
    ensures
        challenge == other,
        flag == second,
{
    let start = encode_utf8("ctfzone/generated-flag-match/v1"@);
    let n = start.len() as int;
    let a = tag_message(challenge, flag);
    let b = tag_message(other, second);
    assert(a.subrange(n, n + 4) =~= big_endian(challenge));
    assert(b.subrange(n, n + 4) =~= big_endian(other));
    assert(a.skip(n + 4) =~= encode_utf8(flag));
    assert(b.skip(n + 4) =~= encode_utf8(second));
    crate::text::lemma_encode_injective(flag, second);
    let x = challenge as u32;
    let y = other as u32;
    assert(big_endian(challenge)[0] == (x >> 24) as u8);
    assert(big_endian(challenge)[1] == (x >> 16) as u8);
    assert(big_endian(challenge)[2] == (x >> 8) as u8);
    assert(big_endian(challenge)[3] == x as u8);
    assert((x >> 24) as u8 == (y >> 24) as u8 && (x >> 16) as u8 == (y >> 16) as u8 && (x >> 8)
        as u8 == (y >> 8) as u8 && x as u8 == y as u8 ==> x == y) by (bit_vector);
    assert(challenge as u32 == other as u32 ==> challenge == other) by (bit_vector);
}

/// A definition in normal form stays as it is when it is normalized again.
pub proof fn law_normalizing_twice(
    flag_type: Seq<char>,
    content: Seq<char>,
    data: Json,
    again: Json,
    exposure: Seq<char>,
)
    requires
        normal_definition(flag_type, content, data, exposure) is Ok,
        policy_of(again) == Some(normal_definition(flag_type, content, data, exposure)->Ok_0.2),
    ensures
        ({
            let normal = normal_definition(flag_type, content, data, exposure);
            normal_definition(normal->Ok_0.0, normal->Ok_0.1, again, exposure) == normal
        }),
{
    crate::text::lemma_lowercase_trimmed(flag_type);
    crate::text::lemma_lowercase_trimmed(trimmed(flag_type));
    crate::text::lemma_trimmed_twice(content);
}

/// A generated flag that was accepted is never longer than 512 bytes once it is rendered.
pub proof fn law_rendered_flags_are_bounded(
    content: Seq<char>,
    policy: FlagPolicyData,
    exposure: Seq<char>,
    token: Seq<char>,
    mask: Option<u64>,
)
    requires
        generated_problem(content, policy, exposure) is None,
        byte_length(token) == TOKEN_LENGTH,
    ensures
        byte_length(rendered(content, Some(token), mask)) <= MAX_FLAG_BYTES,
{
    lemma_rendered_length(content, 0, token, mask);
    assert(content.skip(0) =~= content);
    assert(token_count(content, 0) == 0);
    let n = placeholders(content);
    assert(n <= 1);
    if n == 1 {
        assert(n * (TOKEN_LENGTH - PLACEHOLDER_LENGTH) == 20) by (nonlinear_arith)
            requires
                n == 1,
                TOKEN_LENGTH - PLACEHOLDER_LENGTH == 20,
        ;
    }
}

proof fn lemma_rendered_length(content: Seq<char>, from: int, token: Seq<char>, mask: Option<u64>)
    requires
        0 <= from <= content.len(),
        between_tokens(content, from),
        byte_length(token) == TOKEN_LENGTH,
    ensures
        byte_length(rendered_from(content, from, Some(token), mask)) == byte_length(
            content.skip(from),
        ) + (TOKEN_LENGTH - PLACEHOLDER_LENGTH) * (placeholders(content) - token_count(
            content,
            from,
        )),
    decreases content.len() - from,
{
    let step = TOKEN_LENGTH - PLACEHOLDER_LENGTH;
    if from == content.len() {
        assert(content.skip(from) =~= Seq::<char>::empty());
    } else if token_at(content, from) {
        let next = from + PLACEHOLDER_LENGTH;
        lemma_step_token(content, from);
        lemma_rendered_length(content, next, token, mask);
        crate::text::lemma_encode_concat(
            token,
            rendered_from(content, next, Some(token), mask),
        );
        let t = RANDOM_TOKEN_PLACEHOLDER@;
        assert(content.skip(from) =~= t + content.skip(next)) by {
            lemma_placeholder();
            assert(content.skip(from) =~= content.subrange(from, next) + content.skip(next));
        }
        crate::text::lemma_encode_concat(t, content.skip(next));
        assert(byte_length(t) == PLACEHOLDER_LENGTH) by {
            reveal_strlit("{{RANDOM_TOKEN}}");
            assert(vstd::utf8::is_ascii_chars(t));
            vstd::utf8::is_ascii_chars_encode_utf8(t);
        }
        lemma_count_in_token(content, from, PLACEHOLDER_LENGTH as int);
        let p = placeholders(content);
        let q = token_count(content, from);
        assert(step * (p - q) == step * (p - (q + 1)) + step) by (nonlinear_arith);
    } else {
        lemma_step_char(content, from);
        lemma_rendered_length(content, from + 1, token, mask);
        let c = rendered_char(content, from, mask);
        crate::text::lemma_encode_concat(
            seq![c],
            rendered_from(content, from + 1, Some(token), mask),
        );
        assert(content.skip(from) =~= seq![content[from]] + content.skip(from + 1));
        crate::text::lemma_encode_concat(seq![content[from]], content.skip(from + 1));
        if c != content[from] {
            crate::text::lemma_ascii_char_length(c);
            crate::text::lemma_ascii_char_length(content[from]);
        }
        assert(token_count(content, from + 1) == token_count(content, from));
    }
}

proof fn lemma_count_in_token(s: Seq<char>, i: int, d: int)
    requires
        token_at(s, i),
        1 <= d <= PLACEHOLDER_LENGTH,
    ensures
        token_count(s, i + d) == token_count(s, i) + 1,
    decreases d,
{
    if d > 1 {
        lemma_count_in_token(s, i, d - 1);
        if token_at(s, i + d - 1) {
            lemma_tokens_apart(s, i, i + d - 1);
        }
    }
}

/// A player who hands in the flag that was generated for the player is right: the flag is found by
/// the tag that it was stored with, in any case where the policy ignores the case, and is accepted
/// without a trace of sharing. Handed in by another player it is never taken for the other's own.
pub proof fn law_own_flags_are_accepted(
    flag: StoredFlag,
    policy: FlagPolicyData,
    secret_key: Seq<char>,
    challenge_id: i32,
    rendered_flag: Seq<char>,
    provided: Seq<char>,
    owner: i32,
    other: i32,
    tag: [u8; 32],
)
    requires
        flag.flag_type@ == "generated"@,
        !(flag.data is Null),
        policy_of(flag.data) == Some(policy),
        comparable(provided, policy.case_sensitive) == comparable(
            rendered_flag,
            policy.case_sensitive,
        ),
        owner != other,
    ensures
        match_tag_of(secret_key, challenge_id, provided, policy.case_sensitive) == match_tag_of(
            secret_key,
            challenge_id,
            rendered_flag,
            policy.case_sensitive,
        ),
        evaluation_of(flag, provided, Some((flag.id, owner)), owner, tag) == Ok::<
            FlagEvaluation,
            Failure,
        >(FlagEvaluation::Compared { matched: true, shared: None }),
        evaluation_of(flag, provided, Some((flag.id, owner)), other, tag) == Ok::<
            FlagEvaluation,
            Failure,
        >(
            FlagEvaluation::Compared {
                matched: policy.accept_other_users,
                shared: Some(
                    SharedFlagEvidence {
                        flag_id: flag.id,
                        source_user_id: owner,
                        accepted: policy.accept_other_users,
                        match_tag: tag,
                    },
                ),
            },
        ),
{
    reveal_strlit("generated");
    reveal_strlit("static");
    reveal_strlit("regex");
    assert("generated"@.len() != "static"@.len() && "generated"@.len() != "regex"@.len());
}

/// A static flag with readable options is matched exactly by its own content where the case counts,
/// and exactly by what has the same lower-case form where it does not; nobody's flag is shared by
/// that, whoever submits.
pub proof fn law_static_flags_match_their_content(
    flag: StoredFlag,
    policy: FlagPolicyData,
    provided: Seq<char>,
    owner: Option<(i32, i32)>,
    user_id: i32,
    tag: [u8; 32],
)
    requires
        flag.flag_type@ == "static"@,
        !(flag.data is Null),
        policy_of(flag.data) == Some(policy),
    ensures
        ({
            let evaluation = evaluation_of(flag, provided, owner, user_id, tag);
            &&& evaluation matches Ok(FlagEvaluation::Compared { matched, shared }) && shared is None
                && (policy.case_sensitive ==> (matched <==> provided == flag.content@)) && (
            !policy.case_sensitive ==> (matched <==> unicode_lowercase(provided)
                == unicode_lowercase(flag.content@)))
        }),
{
}

/// Two different texts never both match a static flag whose case counts.
pub proof fn law_one_text_matches_a_static_flag(
    flag: StoredFlag,
    policy: FlagPolicyData,
    provided: Seq<char>,
    other: Seq<char>,
    user_id: i32,
    tag: [u8; 32],
)
    requires
        flag.flag_type@ == "static"@,
        !(flag.data is Null),
        policy_of(flag.data) == Some(policy),
        policy.case_sensitive,
        provided != other,
    ensures
        !(evaluation_of(flag, provided, None, user_id, tag) matches Ok(
            FlagEvaluation::Compared { matched: true, .. },
        ) && evaluation_of(flag, other, None, user_id, tag) matches Ok(
            FlagEvaluation::Compared { matched: true, .. },
        )),
{
}

/// A regex flag is matched exactly where its pattern, held to the whole of the text, is found in the
/// submission; the case is ignored exactly where the options say so. A pattern of more than 512
/// bytes, or one that does not compile, matches nothing and fails.
pub proof fn law_regex_flags_match_their_pattern(
    flag: StoredFlag,
    policy: FlagPolicyData,
    provided: Seq<char>,
    owner: Option<(i32, i32)>,
    user_id: i32,
    tag: [u8; 32],
)
    requires
        flag.flag_type@ == "regex"@,
        !(flag.data is Null),
        policy_of(flag.data) == Some(policy),
    ensures
        ({
            let evaluation = evaluation_of(flag, provided, owner, user_id, tag);
            let pattern = "^(?:"@ + flag.content@ + ")$"@;
            let usable = byte_length(flag.content@) <= 512 && regex_accepted(
                pattern,
                !policy.case_sensitive,
                1048576,
            );
            &&& evaluation is Ok <==> usable
            &&& usable ==> evaluation == Ok::<FlagEvaluation, Failure>(
                FlagEvaluation::Compared {
                    matched: regex_found(pattern, !policy.case_sensitive, 1048576, provided),
                    shared: None,
                },
            )
        }),
{
    lemma_flag_words();
}

proof fn lemma_flag_words()
    ensures
        "static"@ != "regex"@,
        "static"@ != "generated"@,
        "regex"@ != "generated"@,
{
    reveal_strlit("static");
    reveal_strlit("regex");
    reveal_strlit("generated");
    assert("static"@.len() == 6 && "regex"@.len() == 5 && "generated"@.len() == 9);
}

/// A generated flag is matched by nothing that was not allocated for it, by the flag of the
/// submitter, and by that of another player exactly where the options accept it; the other player
/// is then on record, and in no other case is anybody.
pub proof fn law_generated_flags_match_allocations(
    flag: StoredFlag,
    policy: FlagPolicyData,
    provided: Seq<char>,
    owner: Option<(i32, i32)>,
    user_id: i32,
    tag: [u8; 32],
)
    requires
        flag.flag_type@ == "generated"@,
        !(flag.data is Null),
        policy_of(flag.data) == Some(policy),
    ensures
        evaluation_of(flag, provided, owner, user_id, tag) matches Ok(
            FlagEvaluation::Compared { matched, shared },
        ) && {
            let own = owner == Some((flag.id, user_id));
            let foreign = owner is Some && owner->Some_0.0 == flag.id && owner->Some_0.1 != user_id;
            &&& matched <==> own || (foreign && policy.accept_other_users)
            &&& shared is Some <==> foreign
            &&& foreign ==> shared->Some_0.flag_id == flag.id && shared->Some_0.source_user_id
                == owner->Some_0.1 && shared->Some_0.accepted == policy.accept_other_users
                && shared->Some_0.match_tag == tag
        },
{
    lemma_flag_words();
}

/// Only static, regex and generated flags are compared, and only where their options can be read.
pub proof fn law_unreadable_flags_match_nothing(
    flag: StoredFlag,
    provided: Seq<char>,
    owner: Option<(i32, i32)>,
    user_id: i32,
    tag: [u8; 32],
)
    requires
        flag.data is Null || policy_of(flag.data) is None || (flag.flag_type@ != "static"@
            && flag.flag_type@ != "regex"@ && flag.flag_type@ != "generated"@),
    ensures
        evaluation_of(flag, provided, owner, user_id, tag) is Err,
{
}

/// The options of a flag are what its object says: an option that stands in it once has its value,
/// one that does not is the default, and an object in which another key, another kind of value or
/// an option for the second time is added cannot be read.
pub proof fn law_options_are_read(fields: Vec<(String, Json)>, more: Vec<(String, Json)>)
    requires
        more@.len() == fields@.len() + 1,
        more@.drop_last() == fields@,
    ensures
        ({
            let before = policy_of(Json::Object(fields));
            let after = policy_of(Json::Object(more));
            let key = more@.last().0@;
            let value = more@.last().1;
            &&& after is Some ==> before is Some && value is Bool
            &&& after is Some && key == "case_sensitive"@ ==> after->Some_0 == FlagPolicyData {
                case_sensitive: value->Bool_0,
                ..before->Some_0
            }
            &&& after is Some && key == "leet_variation"@ ==> after->Some_0 == FlagPolicyData {
                leet_variation: value->Bool_0,
                ..before->Some_0
            }
            &&& after is Some && (key == "accept_other_users"@ || key == "accept_shared_flags"@)
                ==> after->Some_0 == FlagPolicyData {
                accept_other_users: value->Bool_0,
                ..before->Some_0
            }
            &&& key != "case_sensitive"@ && key != "leet_variation"@ && key
                != "accept_other_users"@ && key != "accept_shared_flags"@ ==> after is None
            &&& before is Some && value is Bool && fields@.len() == 0 && (key == "case_sensitive"@
                || key == "leet_variation"@ || key == "accept_other_users"@ || key
                == "accept_shared_flags"@) ==> after is Some
        }),
{
    reveal_strlit("case_sensitive");
    reveal_strlit("leet_variation");
    reveal_strlit("accept_other_users");
    reveal_strlit("accept_shared_flags");
    assert("case_sensitive"@[0] != "leet_variation"@[0]);
    assert("case_sensitive"@[0] != "accept_other_users"@[0]);
    assert("leet_variation"@[0] != "accept_other_users"@[0]);
    assert("case_sensitive"@[0] != "accept_shared_flags"@[0]);
    assert("leet_variation"@[0] != "accept_shared_flags"@[0]);
}

/// Where nothing is said, the case counts, no letter varies and nobody else's flag is accepted.
pub proof fn law_plain_flags_have_no_options(empty: Vec<(String, Json)>, list: Vec<Json>)
    requires
        empty@.len() == 0,
        list@.len() == 0,
    ensures
        forall|data: Json|
            data == Json::Null || data == Json::Object(empty) || data == Json::Array(list)
                ==> #[trigger] policy_of(data) == Some(
                FlagPolicyData {
                    case_sensitive: true,
                    leet_variation: false,
                    accept_other_users: false,
                },
            ),
{
}

/// A definition that is accepted keeps its content and type but for white space and the case of the
/// type, and its options as they read; it is one of the three types, holds no placeholder unless it
/// is generated, and where it is generated the challenge is private.
pub proof fn law_accepted_definitions_are_usable(
    flag_type: Seq<char>,
    content: Seq<char>,
    data: Json,
    exposure: Seq<char>,
)
    requires
        normal_definition(flag_type, content, data, exposure) is Ok,
    ensures
        ({
            let (kind, text, policy) = normal_definition(flag_type, content, data, exposure)->Ok_0;
            &&& kind == lowercase(trimmed(flag_type)) && text == trimmed(content) && policy_of(data)
                == Some(policy)
            &&& kind == "static"@ || kind == "regex"@ || kind == "generated"@
            &&& 0 < text.len() && byte_length(text) <= 512 && !has_control(text)
            &&& kind == "generated"@ ==> exposure == "private"@ && placeholders(text) <= 1 && (
            placeholders(text) == 1 || policy.leet_variation) && (policy.leet_variation ==> 1
                <= positions(text).len() <= 62)
            &&& kind != "generated"@ ==> placeholders(text) == 0 && !policy.leet_variation
                && !policy.accept_other_users
            &&& kind == "regex"@ ==> regex_accepted(
                "^(?:"@ + text + ")$"@,
                !policy.case_sensitive,
                1048576,
            )
        }),
{
    lemma_flag_words();
}

/// A plain static flag is always accepted.
pub proof fn law_static_flags_are_accepted(
    content: Seq<char>,
    data: Json,
    exposure: Seq<char>,
    policy: FlagPolicyData,
)
    requires
        policy_of(data) == Some(policy),
        !policy.leet_variation && !policy.accept_other_users,
        0 < trimmed(content).len(),
        byte_length(trimmed(content)) <= 512,
        !has_control(trimmed(content)),
        placeholders(trimmed(content)) == 0,
    ensures
        normal_definition("static"@, content, data, exposure) == Ok::<
            (Seq<char>, Seq<char>, FlagPolicyData),
            Failure,
        >(("static"@, trimmed(content), policy)),
{
    lemma_flag_words();
    reveal_strlit("static");
    crate::text::lemma_trimmed_already("static"@);
    assert(lowercase("static"@) =~= "static"@);
}

/// Each letter more that varies doubles the variations, the plain text counted among them; without
/// one there is the plain text alone.
pub proof fn law_each_letter_doubles_the_variations(count: int)
    requires
        count >= 0,
    ensures
        mask_capacity(0) == 0,
        mask_capacity(count + 1) + 1 == 2 * (mask_capacity(count) + 1),
        mask_capacity(count) >= 0,
        count > 0 ==> mask_capacity(count) > 0,
{
    vstd::arithmetic::power2::lemma2_to64();
    vstd::arithmetic::power2::lemma_pow2_unfold((count + 1) as nat);
    vstd::arithmetic::power2::lemma_pow2_pos(count as nat);
    if count > 0 {
        vstd::arithmetic::power2::lemma_pow2_unfold(count as nat);
        vstd::arithmetic::power2::lemma_pow2_pos((count - 1) as nat);
    }
}

/// A generated flag is usable exactly where the challenge is private, the placeholder stands in it
/// once at most and no other does, the rendered flag has 512 bytes at most, and it differs between
/// players: by the placeholder, or by 1 to 62 letters that vary.
pub proof fn law_usable_generated_flags(
    content: Seq<char>,
    policy: FlagPolicyData,
    exposure: Seq<char>,
)
    ensures
        generated_problem(content, policy, exposure) is None <==> {
            &&& exposure == "private"@
            &&& placeholders(content) <= 1
            &&& placeholders(content) == 1 ==> byte_length(content) + 20 <= 512
            &&& placeholders(content) == 0 ==> byte_length(content) <= 512
            &&& !crate::text::has_substring(without_token(content), "{{"@)
            &&& !crate::text::has_substring(without_token(content), "}}"@)
            &&& policy.leet_variation ==> 1 <= positions(content).len() <= 62
            &&& placeholders(content) == 1 || policy.leet_variation
        },
{
}

/// A regex flag without options for single players is accepted exactly where its pattern compiles,
/// held to the whole of the text, and has 512 bytes at most.
pub proof fn law_regex_flags_are_accepted(
    content: Seq<char>,
    data: Json,
    exposure: Seq<char>,
    policy: FlagPolicyData,
)
    requires
        policy_of(data) == Some(policy),
        !policy.leet_variation && !policy.accept_other_users,
        0 < trimmed(content).len(),
        byte_length(trimmed(content)) <= 512,
        !has_control(trimmed(content)),
        placeholders(trimmed(content)) == 0,
    ensures
        normal_definition("regex"@, content, data, exposure) is Ok <==> regex_accepted(
            "^(?:"@ + trimmed(content) + ")$"@,
            !policy.case_sensitive,
            1048576,
        ),
        normal_definition("regex"@, content, data, exposure) matches Ok(definition)
            ==> definition == ("regex"@, trimmed(content), policy),
{
    lemma_flag_words();
    reveal_strlit("regex");
    crate::text::lemma_trimmed_already("regex"@);
    assert(lowercase("regex"@) =~= "regex"@);
}

/// A generated flag in a usable form is accepted as it is written, without the white space around it.
pub proof fn law_generated_flags_are_accepted(
    content: Seq<char>,
    data: Json,
    exposure: Seq<char>,
    policy: FlagPolicyData,
)
    requires
        policy_of(data) == Some(policy),
        0 < trimmed(content).len(),
        byte_length(trimmed(content)) <= 512,
        !has_control(trimmed(content)),
        generated_problem(trimmed(content), policy, exposure) is None,
    ensures
        normal_definition("generated"@, content, data, exposure) == Ok::<
            (Seq<char>, Seq<char>, FlagPolicyData),
            Failure,
        >(("generated"@, trimmed(content), policy)),
{
    lemma_flag_words();
    reveal_strlit("generated");
    crate::text::lemma_trimmed_already("generated"@);
    assert(lowercase("generated"@) =~= "generated"@);
}

/// Six letters vary, in either case, each to its own digit.
pub proof fn law_six_letters_vary(c: char, other: char)
    ensures
        leet(c) is Some <==> c == 'a' || c == 'e' || c == 'i' || c == 'o' || c == 's' || c == 't'
            || c == 'A' || c == 'E' || c == 'I' || c == 'O' || c == 'S' || c == 'T',
        leet(c) is Some ==> '0' <= leet(c)->Some_0 <= '9',
        leet(c) is Some && leet(c) == leet(other) ==> crate::text::lower_char(c)
            == crate::text::lower_char(other),
        leet('a') == Some('4') && leet('e') == Some('3') && leet('i') == Some('1') && leet('o')
            == Some('0') && leet('s') == Some('5') && leet('t') == Some('7'),
{
}

/// A character is rendered as it stands, or as its digit where it may vary and the mask has the bit
/// of its place among the letters that may.
pub proof fn law_letters_are_rendered_by_their_bit(s: Seq<char>, i: int, bits: u64)
    requires
        0 <= i < s.len(),
    ensures
        rendered_char(s, i, None) == s[i],
        !varies(s, i) ==> rendered_char(s, i, Some(bits)) == s[i],
        varies(s, i) && bits & (1u64 << (positions_to(s, i).len() as u64)) != 0 ==> rendered_char(
            s,
            i,
            Some(bits),
        ) == leet(s[i])->Some_0,
        varies(s, i) && bits & (1u64 << (positions_to(s, i).len() as u64)) == 0 ==> rendered_char(
            s,
            i,
            Some(bits),
        ) == s[i],
{
}

/// Letters vary between the first opening and the last closing brace outside of placeholders.
pub proof fn law_letters_vary_between_the_braces(s: Seq<char>, open: int, close: int, i: int)
    requires
        0 <= open < close < s.len(),
        s[open] == '{' && !in_token(s, open),
        s[close] == '}' && !in_token(s, close),
        forall|k: int| 0 <= k < open ==> #[trigger] s[k] != '{' || in_token(s, k),
        forall|k: int| close < k < s.len() ==> #[trigger] s[k] != '}' || in_token(s, k),
    ensures
        varies(s, i) <==> open < i < close && !in_token(s, i) && leet(s[i]) is Some,
{
    lemma_open_brace(s, 0, open);
    lemma_close_brace(s, s.len() as int, close);
}

proof fn lemma_open_brace(s: Seq<char>, from: int, open: int)
    requires
        0 <= from <= open < s.len(),
        s[open] == '{' && !in_token(s, open),
        forall|k: int| from <= k < open ==> #[trigger] s[k] != '{' || in_token(s, k),
    ensures
        open_brace(s, from) == open,
    decreases open - from,
{
    if from < open {
        assert(s[from] != '{' || in_token(s, from));
        lemma_open_brace(s, from + 1, open);
    }
}

proof fn lemma_close_brace(s: Seq<char>, to: int, close: int)
    requires
        0 <= close < to <= s.len(),
        s[close] == '}' && !in_token(s, close),
        forall|k: int| close < k < to ==> #[trigger] s[k] != '}' || in_token(s, k),
    ensures
        close_brace(s, to) == close,
    decreases to - close,
{
    if close < to - 1 {
        assert(s[to - 1] != '}' || in_token(s, to - 1));
        lemma_close_brace(s, to - 1, close);
    }
}

/// A flag whose case counts is tagged as it is, and any other in lower case, under the secret and for
/// its challenge.
pub proof fn law_flags_are_tagged_in_their_case(secret: Seq<char>, challenge: i32, flag: Seq<char>)
    ensures
        match_tag_of(secret, challenge, flag, true) == hmac_sha256_tag(
            encode_utf8(secret),
            tag_message(challenge, flag),
        ),
        match_tag_of(secret, challenge, flag, false) == hmac_sha256_tag(
            encode_utf8(secret),
            tag_message(challenge, unicode_lowercase(flag)),
        ),
{
}

} // verus!
