//! Rules on what administrators write.
use crate::error::{bad, shown, shown_option, shown_text, str_of, ApiError, Failure};
use crate::files::{drop_root, unrooted};
use crate::text::{
    byte_len, byte_length, chars_of, concat, contains_char, contains_text, control, digit,
    has_substring, is_control, is_digit, is_lower, lower, lowercase, replace_all, replaced_from,
    same, split, split_on, to_lowercase_ascii, trim, trim_trailing, trimmed, views,
    without_trailing,
};
use vstd::prelude::*;

verus! {

// ---------------------------------------------------------------------------
// Statements
// ---------------------------------------------------------------------------

pub fn field_select(suffix: &str) -> (result: String)
    ensures
        result@
            == "SELECT id,name,type AS field_owner_type,field_type,description,required,public,editable FROM ctfzone.fields "@
            + suffix@,
{
    concat(
        "SELECT id,name,type AS field_owner_type,field_type,description,required,public,editable FROM ctfzone.fields ",
        suffix,
    )
}

pub fn page_select(suffix: &str) -> (result: String)
    ensures
        result@
            == "SELECT id,label,endpoint,content,page_type,system_key,visibility,navigation_order,revision,created_at,updated_at FROM ctfzone.pages "@
            + suffix@,
{
    concat(
        "SELECT id,label,endpoint,content,page_type,system_key,visibility,navigation_order,revision,created_at,updated_at FROM ctfzone.pages ",
        suffix,
    )
}

pub fn bracket_select(suffix: &str) -> (result: String)
    ensures
        result@ == "SELECT id,name,description,type AS bracket_type FROM ctfzone.brackets "@
            + suffix@,
{
    concat("SELECT id,name,description,type AS bracket_type FROM ctfzone.brackets ", suffix)
}

pub fn award_select(suffix: &str) -> (result: String)
    ensures
        result@
            == "SELECT id,user_id,team_id,type AS award_type,name,description,date,value,category,icon,requirements FROM ctfzone.awards "@
            + suffix@,
{
    concat(
        "SELECT id,user_id,team_id,type AS award_type,name,description,date,value,category,icon,requirements FROM ctfzone.awards ",
        suffix,
    )
}

pub fn submission_select() -> (result: &'static str)
    ensures
        result@
            == "SELECT id,challenge_id,user_id,team_id,ip,provided,type AS submission_type,date FROM ctfzone.submissions"@,
{
    "SELECT id,challenge_id,user_id,team_id,ip,provided,type AS submission_type,date FROM ctfzone.submissions"
}

// ---------------------------------------------------------------------------
// Search patterns
// ---------------------------------------------------------------------------

/// A character that means something in a search pattern.
pub open spec fn is_wildcard(c: char) -> bool {
    c == '\\' || c == '%' || c == '_'
}

/// The text with a backslash before each character that means something in a search pattern.
pub open spec fn escaped(s: Seq<char>) -> Seq<char>
    decreases s.len(),
{
    if s.len() == 0 {
        Seq::empty()
    } else if is_wildcard(s.last()) {
        escaped(s.drop_last()).push('\\').push(s.last())
    } else {
        escaped(s.drop_last()).push(s.last())
    }
}

pub fn escape_like(value: &str) -> (result: String)
    ensures
        result@ == escaped(value@),
{
    let chars = chars_of(value);
    let mut result = String::new();
    let mut i: usize = 0;
    while i < chars.len()
        invariant
            i <= chars.len(),
            chars@ == value@,
            result@ == escaped(value@.take(i as int)),
        decreases chars.len() - i,
    {
        let c = chars[i];
        assert(value@.take(i + 1).drop_last() =~= value@.take(i as int));
        if c == '\\' || c == '%' || c == '_' {
            result.push('\\');
        }
        result.push(c);
        i += 1;
    }
    assert(value@.take(value@.len() as int) =~= value@);
    result
}

/// What a search pattern without wildcards stands for, read from `from` on.
pub open spec fn literal(pattern: Seq<char>, from: int) -> Option<Seq<char>>
    decreases pattern.len() - from,
{
    if from >= pattern.len() {
        Some(Seq::empty())
    } else if pattern[from] == '\\' {
        if from + 1 >= pattern.len() {
            None
        } else {
            match literal(pattern, from + 2) {
                Some(rest) => Some(seq![pattern[from + 1]] + rest),
                None => None,
            }
        }
    } else if is_wildcard(pattern[from]) {
        None
    } else {
        match literal(pattern, from + 1) {
            Some(rest) => Some(seq![pattern[from]] + rest),
            None => None,
        }
    }
}

/// An escaped text is searched for as it stands: no character of it is taken as a wildcard.
pub proof fn law_escaped_text_is_literal(s: Seq<char>)
    ensures
        literal(escaped(s), 0) == Some(s),
{
    lemma_escaped_literal(s, 0);
    assert(s.skip(0) =~= s);
    assert(escaped(Seq::<char>::empty()) =~= Seq::<char>::empty());
    assert(s.take(0) =~= Seq::<char>::empty());
}

/// Escaping goes character by character.
proof fn lemma_escaped_concat(a: Seq<char>, b: Seq<char>)
    ensures
        escaped(a + b) == escaped(a) + escaped(b),
    decreases b.len(),
{
    if b.len() == 0 {
        assert(a + b =~= a);
        assert(escaped(a) + escaped(b) =~= escaped(a));
    } else {
        lemma_escaped_concat(a, b.drop_last());
        assert((a + b).drop_last() =~= a + b.drop_last());
        assert((a + b).last() == b.last());
        assert(escaped(a + b) =~= escaped(a) + escaped(b));
    }
}

proof fn lemma_escaped_literal(s: Seq<char>, i: int)
    requires
        0 <= i <= s.len(),
    ensures
        literal(escaped(s), escaped(s.take(i)).len() as int) == Some(s.skip(i)),
    decreases s.len() - i,
{
    let pattern = escaped(s);
    if i == s.len() {
        assert(s.take(i) =~= s);
        assert(s.skip(i) =~= Seq::<char>::empty());
    } else {
        lemma_escaped_literal(s, i + 1);
        let c = s[i];
        let start = escaped(s.take(i));
        let n = start.len() as int;
        assert(s.take(i + 1).drop_last() =~= s.take(i));
        assert(s =~= s.take(i + 1) + s.skip(i + 1));
        lemma_escaped_concat(s.take(i + 1), s.skip(i + 1));
        let rest = escaped(s.skip(i + 1));
        assert(pattern =~= escaped(s.take(i + 1)) + rest);
        assert(s.skip(i) =~= seq![c] + s.skip(i + 1));
        if is_wildcard(c) {
            assert(escaped(s.take(i + 1)) =~= start.push('\\').push(c));
            assert(pattern[n] == '\\');
            assert(pattern[n + 1] == c);
        } else {
            assert(escaped(s.take(i + 1)) =~= start.push(c));
            assert(pattern[n] == c);
        }
    }
}

// ---------------------------------------------------------------------------
// Labels
// ---------------------------------------------------------------------------

/// A character that changes the direction of text.
pub open spec fn changes_direction(c: char) -> bool {
    ||| c == '\u{061c}'
    ||| c == '\u{200e}'
    ||| c == '\u{200f}'
    ||| '\u{202a}' <= c <= '\u{202e}'
    ||| '\u{2066}' <= c <= '\u{2069}'
}

pub fn is_bidi_control(character: char) -> (result: bool)
    ensures
        result == changes_direction(character),
{
    character == '\u{061c}' || character == '\u{200e}' || character == '\u{200f}' || ('\u{202a}'
        <= character && character <= '\u{202e}') || ('\u{2066}' <= character && character
        <= '\u{2069}')
}

/// A label of 1 to 80 bytes without control characters and without such that change the direction
/// of text.
pub open spec fn is_label(value: Seq<char>) -> bool {
    &&& value.len() > 0
    &&& byte_length(value) <= 80
    &&& forall|i: int|
        0 <= i < value.len() ==> !is_control(#[trigger] value[i]) && !changes_direction(value[i])
}

fn label_ok(value: &str) -> (result: bool)
    ensures
        result == is_label(value@),
{
    if value.is_empty() || byte_len(value) > 80 {
        return false;
    }
    let chars = chars_of(value);
    let mut i: usize = 0;
    while i < chars.len()
        invariant
            i <= chars.len(),
            chars@ == value@,
            forall|j: int|
                0 <= j < i ==> !is_control(#[trigger] value@[j]) && !changes_direction(value@[j]),
        decreases chars.len() - i,
    {
        if control(chars[i]) || is_bidi_control(chars[i]) {
            assert(!(!is_control(value@[i as int]) && !changes_direction(value@[i as int])));
            return false;
        }
        i += 1;
    }
    true
}

pub open spec fn label_of(value: Seq<char>, problem: Seq<char>) -> Result<Seq<char>, Failure> {
    if is_label(trimmed(value)) {
        Ok(trimmed(value))
    } else {
        Err(bad(problem))
    }
}

fn check_label(value: &str, problem: &str) -> (result: Result<String, ApiError>)
    ensures
        shown_text(result) == label_of(value@, problem@),
{
    let label = trim(value);
    if label_ok(label.as_str()) {
        Ok(label)
    } else {
        Err(ApiError::bad_request(problem))
    }
}

pub fn validate_page_label(value: &str) -> (result: Result<String, ApiError>)
    ensures
        shown_text(result) == label_of(value@, "Page label is invalid"@),
{
    check_label(value, "Page label is invalid")
}

pub fn validate_challenge_category_name(value: &str) -> (result: Result<String, ApiError>)
    ensures
        shown_text(result) == label_of(value@, "Category value is invalid"@),
{
    check_label(value, "Category value is invalid")
}

pub open spec fn short_text_of(value: Seq<char>, label: Seq<char>) -> Result<Seq<char>, Failure> {
    let text = trimmed(value);
    if text.len() == 0 || byte_length(text) > 255 {
        Err(bad(label + " value is invalid"@))
    } else {
        Ok(text)
    }
}

pub fn validate_short_text(value: &str, label: &str) -> (result: Result<String, ApiError>)
    ensures
        shown_text(result) == short_text_of(value@, label@),
{
    let text = trim(value);
    if text.as_str().is_empty() || byte_len(text.as_str()) > 255 {
        let message = concat(label, " value is invalid");
        return Err(ApiError::bad_request(message.as_str()));
    }
    Ok(text)
}

// ---------------------------------------------------------------------------
// Fields and brackets
// ---------------------------------------------------------------------------

pub open spec fn field_ok(owner: Seq<char>, kind: Seq<char>, name: Seq<char>) -> bool {
    &&& owner == "user"@ || owner == "team"@
    &&& kind == "text"@ || kind == "boolean"@ || kind == "select"@ || kind == "email"@ || kind
        == "number"@
    &&& trimmed(name).len() > 0
}

pub fn validate_field(owner_type: &str, field_type: &str, name: &str) -> (result: Result<
    (),
    ApiError,
>)
    ensures
        shown(result) == (if field_ok(owner_type@, field_type@, name@) {
            Ok::<(), Failure>(())
        } else {
            Err(bad("Field definition is invalid"@))
        }),
{
    let content = trim(name);
    let owner = same(owner_type, "user") || same(owner_type, "team");
    let kind = same(field_type, "text") || same(field_type, "boolean") || same(
        field_type,
        "select",
    ) || same(field_type, "email") || same(field_type, "number");
    if owner && kind && !content.as_str().is_empty() {
        Ok(())
    } else {
        Err(ApiError::bad_request("Field definition is invalid"))
    }
}

pub fn validate_bracket(name: &str, bracket_type: &str) -> (result: Result<(), ApiError>)
    ensures
        shown(result) == (if trimmed(name@).len() > 0 && (bracket_type@ == "users"@ || bracket_type@
            == "teams"@) {
            Ok::<(), Failure>(())
        } else {
            Err(bad("Bracket definition is invalid"@))
        }),
{
    let content = trim(name);
    if !content.as_str().is_empty() && (same(bracket_type, "users") || same(
        bracket_type,
        "teams",
    )) {
        Ok(())
    } else {
        Err(ApiError::bad_request("Bracket definition is invalid"))
    }
}

pub fn validate_submission_type(value: &str) -> (result: Result<(), ApiError>)
    ensures
        shown(result) == (if is_submission_type(value@) {
            Ok::<(), Failure>(())
        } else {
            Err(bad("Submission type is invalid"@))
        }),
{
    if same(value, "correct") || same(value, "incorrect") || same(value, "partial") || same(
        value,
        "discard",
    ) || same(value, "ratelimited") {
        Ok(())
    } else {
        Err(ApiError::bad_request("Submission type is invalid"))
    }
}

pub open spec fn is_submission_type(value: Seq<char>) -> bool {
    value == "correct"@ || value == "incorrect"@ || value == "partial"@ || value == "discard"@
        || value == "ratelimited"@
}

// ---------------------------------------------------------------------------
// Pages
// ---------------------------------------------------------------------------

/// The content of a page, with a single character for each line break.
pub open spec fn page_content_of(value: Seq<char>) -> Result<Seq<char>, Failure> {
    let text = replaced_from(
        replaced_from(value, "\r\n"@, "\n"@, 0),
        "\r"@,
        "\n"@,
        0,
    );
    if byte_length(text) > 262_144 || text.contains('\0') {
        Err(bad("Page HTML must be no larger than 256 KiB and cannot contain NUL bytes"@))
    } else {
        Ok(text)
    }
}

pub fn validate_page_content(value: &str) -> (result: Result<String, ApiError>)
    ensures
        shown_text(result) == page_content_of(value@),
{
    proof {
        reveal_strlit("\r\n");
        reveal_strlit("\r");
    }
    let unix = replace_all(value, "\r\n", "\n");
    let text = replace_all(unix.as_str(), "\r", "\n");
    if byte_len(text.as_str()) > 262_144 || contains_char(text.as_str(), '\0') {
        return Err(
            ApiError::bad_request(
                "Page HTML must be no larger than 256 KiB and cannot contain NUL bytes",
            ),
        );
    }
    Ok(text)
}

pub open spec fn segment_char(c: char) -> bool {
    is_lower(c) || is_digit(c) || c == '_' || c == '-'
}

/// A segment of an endpoint: lower-case letters and digits, behind the first also hyphens and
/// underscores.
pub open spec fn is_segment(segment: Seq<char>) -> bool {
    &&& segment.len() > 0
    &&& is_lower(segment[0]) || is_digit(segment[0])
    &&& forall|i: int| 0 <= i < segment.len() ==> segment_char(#[trigger] segment[i])
}

fn segment_ok(segment: &str) -> (result: bool)
    ensures
        result == is_segment(segment@),
{
    let chars = chars_of(segment);
    if chars.len() == 0 || !(lower(chars[0]) || digit(chars[0])) {
        return false;
    }
    let mut i: usize = 0;
    while i < chars.len()
        invariant
            i <= chars.len(),
            chars@ == segment@,
            forall|j: int| 0 <= j < i ==> segment_char(#[trigger] segment@[j]),
        decreases chars.len() - i,
    {
        let c = chars[i];
        if !(lower(c) || digit(c) || c == '_' || c == '-') {
            assert(!segment_char(segment@[i as int]));
            return false;
        }
        i += 1;
    }
    true
}

/// The first segments that the site keeps for itself.
pub open spec fn is_reserved(first: Seq<char>) -> bool {
    ||| first == "admin"@
    ||| first == "api"@
    ||| first == "assets"@
    ||| first == "bff"@
    ||| first == "category-icons"@
    ||| first == "challenges"@
    ||| first == "confirm"@
    ||| first == "downloads"@
    ||| first == "healthz"@
    ||| first == "login"@
    ||| first == "logout"@
    ||| first == "profile"@
    ||| first == "register"@
    ||| first == "scoreboard"@
    ||| first == "settings"@
    ||| first == "setup"@
    ||| first == "team"@
    ||| first == "teams"@
    ||| first == "users"@
}

fn reserved(first: &str) -> (result: bool)
    ensures
        result == is_reserved(first@),
{
    same(first, "admin") || same(first, "api") || same(first, "assets") || same(first, "bff")
        || same(first, "category-icons") || same(first, "challenges") || same(first, "confirm")
        || same(first, "downloads") || same(first, "healthz") || same(first, "login") || same(
        first,
        "logout",
    ) || same(first, "profile") || same(first, "register") || same(first, "scoreboard") || same(
        first,
        "settings",
    ) || same(first, "setup") || same(first, "team") || same(first, "teams") || same(first, "users")
}

/// The endpoint of a custom page.
pub open spec fn is_endpoint(endpoint: Seq<char>) -> bool {
    let segments = split(endpoint, '/');
    &&& endpoint.len() > 0
    &&& byte_length(endpoint) <= 128
    &&& !has_substring(endpoint, ".."@)
    &&& forall|i: int| 0 <= i < segments.len() ==> is_segment(#[trigger] segments[i])
    &&& !is_reserved(segments[0])
}

fn endpoint_ok(endpoint: &str) -> (result: bool)
    ensures
        result == is_endpoint(endpoint@),
{
    if endpoint.is_empty() || byte_len(endpoint) > 128 || contains_text(endpoint, "..") {
        return false;
    }
    let segments = split_on(endpoint, '/');
    let ghost all = split(endpoint@, '/');
    assert(views(segments@).len() == segments@.len());
    let mut i: usize = 0;
    while i < segments.len()
        invariant
            i <= segments.len(),
            all == split(endpoint@, '/'),
            views(segments@) == all,
            views(segments@).len() == segments@.len(),
            forall|j: int| 0 <= j < i ==> is_segment(#[trigger] all[j]),
        decreases segments.len() - i,
    {
        assert(all[i as int] == views(segments@)[i as int]);
        if !segment_ok(segments[i].as_str()) {
            assert(!is_segment(all[i as int]));
            return false;
        }
        i += 1;
    }
    assert(all.len() > 0);
    assert(all[0] == views(segments@)[0]);
    !reserved(segments[0].as_str())
}

pub open spec fn endpoint_of(value: Seq<char>) -> Result<Seq<char>, Failure> {
    let endpoint = lowercase(without_trailing(unrooted(trimmed(value)), '/'));
    if is_endpoint(endpoint) {
        Ok(endpoint)
    } else {
        Err(bad("Page endpoint is invalid or reserved"@))
    }
}

pub fn validate_custom_page_endpoint(value: &str) -> (result: Result<String, ApiError>)
    ensures
        shown_text(result) == endpoint_of(value@),
{
    let content = trim(value);
    let path = drop_root(content.as_str());
    let bare = trim_trailing(path.as_str(), '/');
    let endpoint = to_lowercase_ascii(bare.as_str());
    if endpoint_ok(endpoint.as_str()) {
        Ok(endpoint)
    } else {
        Err(ApiError::bad_request("Page endpoint is invalid or reserved"))
    }
}

pub open spec fn visibility_of(value: Seq<char>) -> Result<Seq<char>, Failure> {
    let word = lowercase(trimmed(value));
    if word == "public"@ || word == "private"@ || word == "invisible"@ {
        Ok(word)
    } else {
        Err(bad("Page visibility is invalid"@))
    }
}

pub fn validate_page_visibility(value: &str) -> (result: Result<String, ApiError>)
    ensures
        shown_text(result) == visibility_of(value@),
{
    let word = to_lowercase_ascii(trim(value).as_str());
    if same(word.as_str(), "public") || same(word.as_str(), "private") || same(
        word.as_str(),
        "invisible",
    ) {
        Ok(word)
    } else {
        Err(ApiError::bad_request("Page visibility is invalid"))
    }
}

pub open spec fn navigation_order_of(value: i32, home: bool) -> Result<i32, Failure> {
    if (home && value == 0) || (!home && 1 <= value <= 10_000) {
        Ok(value)
    } else {
        Err(bad("Page navigation order is invalid"@))
    }
}

/// The home page comes first, every other one behind it.
pub fn validate_page_navigation_order(value: i32, home: bool) -> (result: Result<i32, ApiError>)
    ensures
        shown(result) == navigation_order_of(value, home),
{
    if (home && value == 0) || (!home && 1 <= value && value <= 10_000) {
        Ok(value)
    } else {
        Err(ApiError::bad_request("Page navigation order is invalid"))
    }
}

// ---------------------------------------------------------------------------
// Category logos
// ---------------------------------------------------------------------------

pub open spec fn is_logo(key: Seq<char>) -> bool {
    key == "web"@ || key == "pwn"@ || key == "crypto"@ || key == "rev"@ || key == "misc"@ || key
        == "coding"@ || key == "forensics"@
}

pub open spec fn logo_key_of(value: Option<Seq<char>>) -> Result<Option<Seq<char>>, Failure> {
    match value {
        None => Ok(None),
        Some(key) => if is_logo(key) {
            Ok(Some(key))
        } else {
            Err(bad("Category logo_key is not supported"@))
        },
    }
}

pub fn validate_challenge_category_logo_key(value: Option<&str>) -> (result: Result<
    Option<String>,
    ApiError,
>)
    ensures
        shown_option(result) == logo_key_of(str_of(value)),
{
    match value {
        None => Ok(None),
        Some(key) => if same(key, "web") || same(key, "pwn") || same(key, "crypto") || same(
            key,
            "rev",
        ) || same(key, "misc") || same(key, "coding") || same(key, "forensics") {
            Ok(Some(key.to_owned()))
        } else {
            Err(ApiError::bad_request("Category logo_key is not supported"))
        },
    }
}

pub open spec fn is_hex(c: char) -> bool {
    is_digit(c) || 'a' <= c <= 'f' || 'A' <= c <= 'F'
}

/// A color: a number sign and six hexadecimal digits.
pub open spec fn is_color(value: Seq<char>) -> bool {
    value.len() == 7 && value[0] == '#' && forall|i: int|
        1 <= i < 7 ==> is_hex(#[trigger] value[i])
}

fn color_ok(value: &str) -> (result: bool)
    ensures
        result == is_color(value@),
{
    let chars = chars_of(value);
    if chars.len() != 7 || chars[0] != '#' {
        return false;
    }
    let mut i: usize = 1;
    while i < 7
        invariant
            1 <= i <= 7,
            chars@ == value@,
            chars@.len() == 7,
            forall|j: int| 1 <= j < i ==> is_hex(#[trigger] value@[j]),
        decreases 7 - i,
    {
        let c = chars[i];
        if !(digit(c) || ('a' <= c && c <= 'f') || ('A' <= c && c <= 'F')) {
            assert(!is_hex(value@[i as int]));
            return false;
        }
        i += 1;
    }
    true
}

pub open spec fn logo_color_of(value: Option<Seq<char>>, logo_key: Option<Seq<char>>) -> Result<
    Option<Seq<char>>,
    Failure,
> {
    if logo_key is None {
        if value is None {
            Ok(None)
        } else {
            Err(bad("Category logo_color requires a built-in logo"@))
        }
    } else {
        let color = lowercase(
            match value {
                Some(text) => text,
                None => "#34689c"@,
            },
        );
        if is_color(color) {
            Ok(Some(color))
        } else {
            Err(bad("Category logo_color must be a six-digit hexadecimal color"@))
        }
    }
}

/// Only a category with a logo of the site's own has a color: the given one, or the default.
pub fn validate_challenge_category_logo_color(value: Option<&str>, logo_key: Option<&str>) -> (
result: Result<Option<String>, ApiError>)
    ensures
        shown_option(result) == logo_color_of(str_of(value), str_of(logo_key)),
{
    if logo_key.is_none() {
        return if value.is_none() {
            Ok(None)
        } else {
            Err(ApiError::bad_request("Category logo_color requires a built-in logo"))
        };
    }
    let text = match value {
        Some(text) => text,
        None => "#34689c",
    };
    let color = to_lowercase_ascii(text);
    if color_ok(color.as_str()) {
        Ok(Some(color))
    } else {
        Err(ApiError::bad_request("Category logo_color must be a six-digit hexadecimal color"))
    }
}

// ---------------------------------------------------------------------------
// Laws
// ---------------------------------------------------------------------------

/// A label that is accepted is what was written without the white space around it; one with a
/// control character, or one that turns the text round, is refused, and so is one of more than 80
/// bytes.
pub proof fn law_labels_are_plain(value: Seq<char>, problem: Seq<char>, i: int)
    ensures
        label_of(value, problem) is Ok ==> label_of(value, problem)->Ok_0 == trimmed(value),
        label_of(value, problem) is Err ==> label_of(value, problem) == Err::<Seq<char>, Failure>(
            bad(problem),
        ),
        trimmed(value).len() == 0 || byte_length(trimmed(value)) > 80 ==> label_of(value, problem)
            is Err,
        0 <= i < trimmed(value).len() && (is_control(trimmed(value)[i]) || trimmed(value)[i]
            == '\u{202e}' || trimmed(value)[i] == '\u{200f}' || trimmed(value)[i] == '\u{2066}'
            || trimmed(value)[i] == '\u{061c}') ==> label_of(value, problem) is Err,
        0 < trimmed(value).len() && byte_length(trimmed(value)) <= 80 && (forall|k: int|
            0 <= k < trimmed(value).len() ==> ' ' <= #[trigger] trimmed(value)[k] <= '~')
            ==> label_of(value, problem) is Ok,
{
    let text = trimmed(value);
    if forall|k: int| 0 <= k < text.len() ==> ' ' <= #[trigger] text[k] <= '~' {
        assert forall|k: int| 0 <= k < text.len() implies !is_control(#[trigger] text[k])
            && !changes_direction(text[k]) by {}
    }
}

/// A short text has 1 to 255 bytes without the white space around it, and is kept without it.
pub proof fn law_short_texts_are_kept(value: Seq<char>, label: Seq<char>)
    ensures
        short_text_of(value, label) is Ok <==> 0 < trimmed(value).len() && byte_length(
            trimmed(value),
        ) <= 255,
        short_text_of(value, label) is Ok ==> short_text_of(value, label)->Ok_0 == trimmed(value),
        short_text_of(value, label) is Err ==> short_text_of(value, label) == Err::<
            Seq<char>,
            Failure,
        >(bad(label + " value is invalid"@)),
{
}

/// The words that describe a field, a submission, the visibility of a page and a logo.
pub proof fn law_known_words_are_accepted(word: Seq<char>, name: Seq<char>)
    ensures
        field_ok("user"@, word, name) <==> field_ok("team"@, word, name),
        field_ok("user"@, word, name) <==> trimmed(name).len() > 0 && (word == "text"@ || word
            == "boolean"@ || word == "select"@ || word == "email"@ || word == "number"@),
        word != "user"@ && word != "team"@ ==> !field_ok(word, "text"@, name),
        is_submission_type(word) <==> word == "correct"@ || word == "incorrect"@ || word
            == "partial"@ || word == "discard"@ || word == "ratelimited"@,
        visibility_of(word) is Ok <==> lowercase(trimmed(word)) == "public"@ || lowercase(
            trimmed(word),
        ) == "private"@ || lowercase(trimmed(word)) == "invisible"@,
        visibility_of(word) is Ok ==> visibility_of(word)->Ok_0 == lowercase(trimmed(word)),
        logo_key_of(None) == Ok::<Option<Seq<char>>, Failure>(None),
        logo_key_of(Some(word)) is Ok <==> word == "web"@ || word == "pwn"@ || word == "crypto"@
            || word == "rev"@ || word == "misc"@ || word == "coding"@ || word == "forensics"@,
        logo_key_of(Some(word)) is Ok ==> logo_key_of(Some(word))->Ok_0 == Some(word),
{
}

/// The home page alone comes first, and every other page on a place from 1 to 10000.
pub proof fn law_the_home_page_comes_first(value: i32)
    ensures
        navigation_order_of(value, true) is Ok <==> value == 0,
        navigation_order_of(value, false) is Ok <==> 1 <= value <= 10000,
        navigation_order_of(value, true) is Ok ==> navigation_order_of(value, true)->Ok_0 == value,
        navigation_order_of(value, false) is Ok ==> navigation_order_of(value, false)->Ok_0
            == value,
{
}

/// A number sign and six digits or small letters from a to f.
pub open spec fn is_small_color(text: Seq<char>) -> bool {
    text.len() == 7 && text[0] == '#' && forall|i: int|
        1 <= i < 7 ==> ('0' <= #[trigger] text[i] <= '9' || 'a' <= text[i] <= 'f')
}

/// A color is kept in lower case, is the default one where none is given, and goes with a logo of
/// the site's own alone.
pub proof fn law_colors_go_with_logos(color: Option<Seq<char>>, logo: Option<Seq<char>>)
    ensures
        ({
            let text = lowercase(
                if color is Some {
                    color->Some_0
                } else {
                    "#34689c"@
                },
            );
            let result = logo_color_of(color, logo);
            &&& logo is None ==> (result is Ok <==> color is None)
            &&& logo is None && result is Ok ==> result->Ok_0 is None
            &&& logo is Some ==> (result is Ok <==> is_small_color(text))
            &&& logo is Some && result is Ok ==> result->Ok_0 == Some(text)
        }),
{
    let given = if color is Some {
        color->Some_0
    } else {
        "#34689c"@
    };
    let text = lowercase(given);
    assert forall|i: int| 0 <= i < text.len() implies !('A' <= #[trigger] text[i] <= 'Z') by {
        assert(text[i] == crate::text::lower_char(given[i]));
    }
    if is_color(text) {
        assert forall|i: int| 1 <= i < 7 implies ('0' <= #[trigger] text[i] <= '9' || 'a' <= text[i]
            <= 'f') by {
            assert(is_hex(text[i]));
        }
    }
    if is_small_color(text) {
        assert forall|i: int| 1 <= i < 7 implies is_hex(#[trigger] text[i]) by {}
    }
}

/// The endpoint of a page is made of segments of small letters, digits, hyphens and underscores, has
/// 128 bytes at most, and does not start with a word that the site keeps.
pub proof fn law_endpoints_are_plain(value: Seq<char>, i: int)
    requires
        endpoint_of(value) is Ok,
    ensures
        ({
            let endpoint = endpoint_of(value)->Ok_0;
            &&& 0 < endpoint.len() && byte_length(endpoint) <= 128
            &&& 0 <= i < split(endpoint, '/').len() ==> split(endpoint, '/')[i].len() > 0
                && split(endpoint, '/')[i][0] != '-' && split(endpoint, '/')[i][0] != '_'
            &&& split(endpoint, '/')[0] != "admin"@ && split(endpoint, '/')[0] != "api"@ && split(
                endpoint,
                '/',
            )[0] != "login"@ && split(endpoint, '/')[0] != "setup"@ && split(endpoint, '/')[0]
                != "challenges"@
            &&& lowercase(endpoint) == endpoint
        }),
{
    let endpoint = endpoint_of(value)->Ok_0;
    crate::text::law_splitting_loses_nothing(endpoint, '/');
    crate::text::lemma_lowercase_trimmed(without_trailing(unrooted(trimmed(value)), '/'));
    assert(is_segment(split(endpoint, '/')[0]));
    if 0 <= i < split(endpoint, '/').len() {
        assert(is_segment(split(endpoint, '/')[i]));
    }
}

/// The content of a page without carriage returns is kept to the letter, where it has 256 KiB at
/// most and no zero character.
pub proof fn law_page_content_is_kept(value: Seq<char>)
    requires
        !value.contains('\r'),
    ensures
        page_content_of(value) is Ok <==> byte_length(value) <= 262144 && !value.contains('\0'),
        page_content_of(value) is Ok ==> page_content_of(value)->Ok_0 == value,
{
    reveal_strlit("\r\n");
    reveal_strlit("\r");
    reveal_strlit("\n");
    assert forall|i: int| 0 <= i < value.len() implies !#[trigger] crate::text::stands_at(
        value,
        "\r\n"@,
        i,
    ) by {
        if crate::text::stands_at(value, "\r\n"@, i) {
            assert(value.subrange(i, i + 2)[0] == '\r');
            assert(value.contains('\r'));
        }
    }
    crate::text::law_replacing_puts_the_text_in_place(
        value,
        "\r\n"@,
        "\n"@,
        0,
        value.len() as int,
    );
    assert(value.skip(0) =~= value);
    assert forall|i: int| 0 <= i < value.len() implies !#[trigger] crate::text::stands_at(
        value,
        "\r"@,
        i,
    ) by {
        if crate::text::stands_at(value, "\r"@, i) {
            assert(value.subrange(i, i + 1)[0] == '\r');
            assert(value.contains('\r'));
        }
    }
    crate::text::law_replacing_puts_the_text_in_place(value, "\r"@, "\n"@, 0, value.len() as int);
}

} // verus!
