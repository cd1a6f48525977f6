//! Text as a sequence of characters: character classes, trimming, splitting,
//! case folding, numbers in decimal notation.
use vstd::prelude::*;
use vstd::string::*;
use vstd::utf8::*;

verus! {

broadcast use vstd::string::group_string_axioms;

/// `String::push` appends one character to the string.
pub assume_specification[ String::push ](s: &mut String, c: char)
    ensures
        final(s)@ == old(s)@.push(c),
;

// ---------------------------------------------------------------------------
// Character classes
// ---------------------------------------------------------------------------

/// The characters with Unicode's `White_Space` property.
pub open spec fn is_space(c: char) -> bool {
    ||| '\u{9}' <= c <= '\u{d}'
    ||| c == ' '
    ||| c == '\u{85}'
    ||| c == '\u{a0}'
    ||| c == '\u{1680}'
    ||| '\u{2000}' <= c <= '\u{200a}'
    ||| c == '\u{2028}'
    ||| c == '\u{2029}'
    ||| c == '\u{202f}'
    ||| c == '\u{205f}'
    ||| c == '\u{3000}'
}

pub fn space(c: char) -> (result: bool)
    ensures
        result == is_space(c),
{
    ('\u{9}' <= c && c <= '\u{d}') || c == ' ' || c == '\u{85}' || c == '\u{a0}' || c == '\u{1680}'
        || ('\u{2000}' <= c && c <= '\u{200a}') || c == '\u{2028}' || c == '\u{2029}' || c
        == '\u{202f}' || c == '\u{205f}' || c == '\u{3000}'
}

/// The characters of Unicode's general category `Cc`.
pub open spec fn is_control(c: char) -> bool {
    c <= '\u{1f}' || '\u{7f}' <= c <= '\u{9f}'
}

pub fn control(c: char) -> (result: bool)
    ensures
        result == is_control(c),
{
    c <= '\u{1f}' || ('\u{7f}' <= c && c <= '\u{9f}')
}

pub open spec fn is_digit(c: char) -> bool {
    '0' <= c <= '9'
}

pub open spec fn is_lower(c: char) -> bool {
    'a' <= c <= 'z'
}

pub open spec fn is_upper(c: char) -> bool {
    'A' <= c <= 'Z'
}

pub open spec fn is_alphanumeric(c: char) -> bool {
    is_digit(c) || is_lower(c) || is_upper(c)
}

pub open spec fn is_ascii_char(c: char) -> bool {
    c <= '\u{7f}'
}

pub open spec fn digit_value(c: char) -> int {
    c as int - '0' as int
}

pub fn digit(c: char) -> (result: bool)
    ensures
        result == is_digit(c),
{
    '0' <= c && c <= '9'
}

pub fn lower(c: char) -> (result: bool)
    ensures
        result == is_lower(c),
{
    'a' <= c && c <= 'z'
}

pub fn upper(c: char) -> (result: bool)
    ensures
        result == is_upper(c),
{
    'A' <= c && c <= 'Z'
}

pub fn alphanumeric(c: char) -> (result: bool)
    ensures
        result == is_alphanumeric(c),
{
    digit(c) || lower(c) || upper(c)
}

/// The lower-case form of an ASCII letter; every other character stands for itself.
pub open spec fn lower_char(c: char) -> char {
    if is_upper(c) {
        ((c as u32 + 32) as u32) as char
    } else {
        c
    }
}

pub fn to_lower_char(c: char) -> (result: char)
    ensures
        result == lower_char(c),
{
    if upper(c) {
        let code: u8 = c as u8;
        (code + 32) as char
    } else {
        c
    }
}

pub open spec fn lowercase(s: Seq<char>) -> Seq<char> {
    s.map_values(|c: char| lower_char(c))
}

// ---------------------------------------------------------------------------
// Between strings and vectors of characters
// ---------------------------------------------------------------------------

pub fn chars_of(s: &str) -> (result: Vec<char>)
    ensures
        result@ == s@,
{
    let mut result: Vec<char> = Vec::new();
    for c in it: s.chars()
        invariant
            it.seq() == s@,
            result@ == s@.take(it.index()),
    {
        result.push(c);
        assert(s@.take(it.index() + 1) == s@.take(it.index()).push(c));
    }
    assert(s@.take(s@.len() as int) == s@);
    result
}

/// The characters from `start` up to `end`.
pub fn slice_to_string(chars: &Vec<char>, start: usize, end: usize) -> (result: String)
    requires
        start <= end <= chars.len(),
    ensures
        result@ == chars@.subrange(start as int, end as int),
{
    let mut result = String::new();
    let mut i: usize = start;
    assert(chars@.subrange(start as int, start as int) == Seq::<char>::empty());
    while i < end
        invariant
            start <= i <= end <= chars.len(),
            result@ == chars@.subrange(start as int, i as int),
        decreases end - i,
    {
        result.push(chars[i]);
        assert(chars@.subrange(start as int, i + 1) == chars@.subrange(start as int, i as int).push(
            chars@[i as int],
        ));
        i += 1;
    }
    result
}

/// Two texts are the same when their characters are.
pub fn same(a: &str, b: &str) -> (result: bool)
    ensures
        result == (a@ == b@),
{
    let left = a.to_owned();
    let right = b.to_owned();
    left == right
}

/// `left` followed by `right`.
pub fn concat(left: &str, right: &str) -> (result: String)
    ensures
        result@ == left@ + right@,
{
    let mut result = left.to_owned();
    result.append(right);
    result
}

/// The number of bytes that the text takes in UTF-8.
pub open spec fn byte_length(s: Seq<char>) -> nat {
    encode_utf8(s).len()
}

pub fn byte_len(s: &str) -> (result: usize)
    ensures
        result == byte_length(s@),
{
    s.as_bytes().len()
}

pub fn bytes_of(s: &str) -> (result: Vec<u8>)
    ensures
        result@ == encode_utf8(s@),
{
    let bytes = s.as_bytes();
    let mut result: Vec<u8> = Vec::new();
    let mut i: usize = 0;
    while i < bytes.len()
        invariant
            i <= bytes.len(),
            result@ == bytes@.take(i as int),
        decreases bytes.len() - i,
    {
        result.push(bytes[i]);
        assert(bytes@.take(i + 1) == bytes@.take(i as int).push(bytes@[i as int]));
        i += 1;
    }
    assert(bytes@.take(bytes@.len() as int) == bytes@);
    result
}

// ---------------------------------------------------------------------------
// Searching
// ---------------------------------------------------------------------------

pub open spec fn has_control(s: Seq<char>) -> bool {
    exists|i: int| 0 <= i < s.len() && #[trigger] is_control(s[i])
}

pub fn contains_control(s: &str) -> (result: bool)
    ensures
        result == has_control(s@),
{
    let chars = chars_of(s);
    let mut i: usize = 0;
    while i < chars.len()
        invariant
            i <= chars.len(),
            chars@ == s@,
            forall|j: int| 0 <= j < i ==> !#[trigger] is_control(s@[j]),
        decreases chars.len() - i,
    {
        if control(chars[i]) {
            assert(is_control(s@[i as int]));
            return true;
        }
        i += 1;
    }
    false
}

pub fn contains_char(s: &str, c: char) -> (result: bool)
    ensures
        result == s@.contains(c),
{
    let chars = chars_of(s);
    first_position(&chars, c) < chars.len()
}

/// The index of the first occurrence of `c`, or the length of `s` where there is none.
pub open spec fn first_index(s: Seq<char>, c: char) -> int
    decreases s.len(),
{
    if s.len() == 0 || s[0] == c {
        0
    } else {
        1 + first_index(s.drop_first(), c)
    }
}

pub proof fn lemma_first_index(s: Seq<char>, c: char, k: int)
    requires
        0 <= k <= s.len(),
        k < s.len() ==> s[k] == c,
        forall|j: int| 0 <= j < k ==> s[j] != c,
    ensures
        first_index(s, c) == k,
        k == s.len() <==> !s.contains(c),
    decreases s.len(),
{
    if s.len() > 0 && k > 0 {
        assert(s[0] != c);
        lemma_first_index(s.drop_first(), c, k - 1);
    }
    if k < s.len() {
        assert(s.contains(s[k]));
    }
}

pub proof fn lemma_first_index_bounds(s: Seq<char>, c: char)
    ensures
        0 <= first_index(s, c) <= s.len(),
        first_index(s, c) < s.len() <==> s.contains(c),
        first_index(s, c) < s.len() ==> s[first_index(s, c)] == c,
        forall|j: int| 0 <= j < first_index(s, c) ==> s[j] != c,
    decreases s.len(),
{
    if s.len() > 0 && s[0] != c {
        let rest = s.drop_first();
        lemma_first_index_bounds(rest, c);
        assert forall|j: int| 0 <= j < first_index(s, c) implies s[j] != c by {
            if j > 0 {
                assert(rest[j - 1] == s[j]);
            }
        }
        if s.contains(c) {
            let j = choose|j: int| 0 <= j < s.len() && s[j] == c;
            assert(rest[j - 1] == c);
        }
        if rest.contains(c) {
            let j = choose|j: int| 0 <= j < rest.len() && rest[j] == c;
            assert(s[j + 1] == c);
        }
    } else if s.len() > 0 {
        assert(s.contains(s[0]));
    }
}

pub fn first_position(chars: &Vec<char>, c: char) -> (result: usize)
    ensures
        result == first_index(chars@, c),
        result <= chars.len(),
        result < chars.len() <==> chars@.contains(c),
        result < chars.len() ==> chars@[result as int] == c,
        forall|j: int| 0 <= j < result ==> chars@[j] != c,
{
    let mut i: usize = 0;
    while i < chars.len() && chars[i] != c
        invariant
            i <= chars.len(),
            forall|j: int| 0 <= j < i ==> chars@[j] != c,
        decreases chars.len() - i,
    {
        i += 1;
    }
    proof {
        lemma_first_index(chars@, c, i as int);
    }
    i
}

/// The index of the last occurrence of `c`, or -1 where there is none.
pub open spec fn last_index(s: Seq<char>, c: char) -> int
    decreases s.len(),
{
    if s.len() == 0 {
        -1
    } else if s.last() == c {
        s.len() - 1
    } else {
        last_index(s.drop_last(), c)
    }
}

pub proof fn lemma_last_index(s: Seq<char>, c: char, k: int)
    requires
        -1 <= k < s.len(),
        k >= 0 ==> s[k] == c,
        forall|j: int| k < j < s.len() ==> s[j] != c,
    ensures
        last_index(s, c) == k,
        k == -1 <==> !s.contains(c),
    decreases s.len(),
{
    if s.len() > 0 && k < s.len() - 1 {
        assert(s[s.len() - 1] != c);
        lemma_last_index(s.drop_last(), c, k);
    }
    if k >= 0 {
        assert(s.contains(s[k]));
    }
}

pub proof fn lemma_last_index_found(s: Seq<char>, c: char)
    requires
        s.contains(c),
    ensures
        0 <= last_index(s, c) < s.len(),
        s[last_index(s, c)] == c,
    decreases s.len(),
{
    let i = choose|i: int| 0 <= i < s.len() && s[i] == c;
    if s.last() != c {
        assert(s.drop_last()[i] == c);
        lemma_last_index_found(s.drop_last(), c);
    }
}

/// The index of the last occurrence of `c`.
pub fn last_position(chars: &Vec<char>, c: char) -> (result: Option<usize>)
    ensures
        result matches Some(i) ==> i == last_index(chars@, c) && i < chars.len() && chars@[i as int]
            == c && (forall|j: int| i < j < chars.len() ==> chars@[j] != c),
        result is None ==> last_index(chars@, c) == -1 && !chars@.contains(c),
{
    let mut i: usize = chars.len();
    while i > 0
        invariant
            i <= chars.len(),
            forall|j: int| i <= j < chars.len() ==> chars@[j] != c,
        decreases i,
    {
        if chars[i - 1] == c {
            proof {
                lemma_last_index(chars@, c, i - 1);
            }
            return Some(i - 1);
        }
        i -= 1;
    }
    proof {
        lemma_last_index(chars@, c, -1);
    }
    None
}

pub fn has_prefix(s: &str, prefix: &str) -> (result: bool)
    ensures
        result == prefix@.is_prefix_of(s@),
{
    let chars = chars_of(s);
    let start = chars_of(prefix);
    if start.len() > chars.len() {
        return false;
    }
    let mut i: usize = 0;
    while i < start.len()
        invariant
            i <= start.len() <= chars.len(),
            chars@ == s@,
            start@ == prefix@,
            forall|j: int| 0 <= j < i ==> chars@[j] == start@[j],
        decreases start.len() - i,
    {
        if chars[i] != start[i] {
            assert(s@.subrange(0, prefix@.len() as int)[i as int] != prefix@[i as int]);
            return false;
        }
        i += 1;
    }
    assert(prefix@ =~= s@.subrange(0, prefix@.len() as int));
    true
}

pub fn has_suffix(s: &str, suffix: &str) -> (result: bool)
    ensures
        result == suffix@.is_suffix_of(s@),
{
    let chars = chars_of(s);
    let end = chars_of(suffix);
    if end.len() > chars.len() {
        return false;
    }
    let offset: usize = chars.len() - end.len();
    let mut i: usize = 0;
    while i < end.len()
        invariant
            i <= end.len() <= chars.len(),
            offset == chars.len() - end.len(),
            chars@ == s@,
            end@ == suffix@,
            forall|j: int| 0 <= j < i ==> chars@[offset + j] == end@[j],
        decreases end.len() - i,
    {
        if chars[offset + i] != end[i] {
            assert(s@.subrange(offset as int, s@.len() as int)[i as int] != suffix@[i as int]);
            return false;
        }
        i += 1;
    }
    assert(suffix@ =~= s@.subrange(offset as int, s@.len() as int));
    true
}

/// Whether `part` occurs in `s` as a run of adjacent characters.
pub open spec fn has_substring(s: Seq<char>, part: Seq<char>) -> bool {
    exists|i: int|
        0 <= i <= s.len() - part.len() && #[trigger] s.subrange(i, i + part.len()) == part
}

pub fn contains_text(s: &str, part: &str) -> (result: bool)
    ensures
        result == has_substring(s@, part@),
{
    let chars = chars_of(s);
    let pattern = chars_of(part);
    let mut i: usize = 0;
    while i <= chars.len() && pattern.len() <= chars.len() - i
        invariant
            chars@ == s@,
            pattern@ == part@,
            i <= chars.len() + 1,
            forall|k: int|
                0 <= k < i && k <= s@.len() - part@.len() ==> #[trigger] s@.subrange(
                    k,
                    k + part@.len(),
                ) != part@,
        decreases chars.len() + 1 - i,
    {
        let mut j: usize = 0;
        while j < pattern.len() && chars[i + j] == pattern[j]
            invariant
                chars@ == s@,
                pattern@ == part@,
                j <= pattern.len(),
                i + pattern.len() <= chars.len(),
                forall|k: int| 0 <= k < j ==> chars@[i + k] == pattern@[k],
            decreases pattern.len() - j,
        {
            j += 1;
        }
        if j == pattern.len() {
            assert(s@.subrange(i as int, i + part@.len()) =~= part@);
            return true;
        }
        assert(s@.subrange(i as int, i + part@.len())[j as int] != part@[j as int]);
        if i == chars.len() {
            return false;
        }
        i += 1;
    }
    false
}

// ---------------------------------------------------------------------------
// Trimming, splitting, case
// ---------------------------------------------------------------------------

/// `s` without the white space at its start.
pub open spec fn trim_start(s: Seq<char>) -> Seq<char>
    decreases s.len(),
{
    if s.len() > 0 && is_space(s[0]) {
        trim_start(s.drop_first())
    } else {
        s
    }
}

/// `s` without the white space at its end.
pub open spec fn trim_end(s: Seq<char>) -> Seq<char>
    decreases s.len(),
{
    if s.len() > 0 && is_space(s.last()) {
        trim_end(s.drop_last())
    } else {
        s
    }
}

/// `s` without the white space around it.
pub open spec fn trimmed(s: Seq<char>) -> Seq<char> {
    trim_end(trim_start(s))
}

proof fn lemma_trim_start(s: Seq<char>, k: int)
    requires
        0 <= k <= s.len(),
        forall|j: int| 0 <= j < k ==> is_space(#[trigger] s[j]),
        k < s.len() ==> !is_space(s[k]),
    ensures
        trim_start(s) == s.subrange(k, s.len() as int),
    decreases k,
{
    if k > 0 {
        assert(is_space(s[0]));
        let rest = s.drop_first();
        assert forall|j: int| 0 <= j < k - 1 implies is_space(#[trigger] rest[j]) by {
            assert(rest[j] == s[j + 1]);
        }
        lemma_trim_start(rest, k - 1);
        assert(rest.subrange(k - 1, rest.len() as int) =~= s.subrange(k, s.len() as int));
    } else {
        assert(s.subrange(0, s.len() as int) =~= s);
    }
}

proof fn lemma_trim_end(s: Seq<char>, k: int)
    requires
        0 <= k <= s.len(),
        forall|j: int| k <= j < s.len() ==> is_space(#[trigger] s[j]),
        k > 0 ==> !is_space(s[k - 1]),
    ensures
        trim_end(s) == s.subrange(0, k),
    decreases s.len() - k,
{
    if k < s.len() {
        assert(is_space(s[s.len() - 1]));
        lemma_trim_end(s.drop_last(), k);
        assert(s.drop_last().subrange(0, k) =~= s.subrange(0, k));
    } else {
        assert(s.subrange(0, k) =~= s);
    }
}

pub fn trim(s: &str) -> (result: String)
    ensures
        result@ == trimmed(s@),
{
    let chars = chars_of(s);
    let mut start: usize = 0;
    while start < chars.len() && space(chars[start])
        invariant
            start <= chars.len(),
            forall|j: int| 0 <= j < start ==> is_space(#[trigger] chars@[j]),
        decreases chars.len() - start,
    {
        start += 1;
    }
    let mut end: usize = chars.len();
    while end > start && space(chars[end - 1])
        invariant
            start <= end <= chars.len(),
            forall|j: int| end <= j < chars.len() ==> is_space(#[trigger] chars@[j]),
        decreases end,
    {
        end -= 1;
    }
    proof {
        lemma_trim_start(chars@, start as int);
        let rest = chars@.subrange(start as int, chars@.len() as int);
        lemma_trim_end(rest, end - start);
        assert(rest.subrange(0, end - start) =~= chars@.subrange(start as int, end as int));
    }
    slice_to_string(&chars, start, end)
}

/// What trimming leaves neither starts nor ends with white space.
pub proof fn lemma_trimmed_ends(s: Seq<char>)
    ensures
        trimmed(s).len() > 0 ==> !is_space(trimmed(s)[0]) && !is_space(trimmed(s).last()),
        trimmed(s).len() <= s.len(),
        forall|c: char| trimmed(s).contains(c) ==> #[trigger] s.contains(c),
{
    lemma_trim_start_ends(s);
    lemma_trim_end_ends(trim_start(s));
}

proof fn lemma_trim_start_ends(s: Seq<char>)
    ensures
        trim_start(s).len() > 0 ==> !is_space(trim_start(s)[0]),
        trim_start(s).len() <= s.len(),
        forall|c: char| trim_start(s).contains(c) ==> #[trigger] s.contains(c),
    decreases s.len(),
{
    if s.len() > 0 && is_space(s[0]) {
        lemma_trim_start_ends(s.drop_first());
        assert forall|c: char| trim_start(s).contains(c) implies #[trigger] s.contains(c) by {
            assert(s.drop_first().contains(c));
            let i = choose|i: int| 0 <= i < s.drop_first().len() && s.drop_first()[i] == c;
            assert(s[i + 1] == c);
        }
    }
}

proof fn lemma_trim_end_ends(s: Seq<char>)
    ensures
        trim_end(s).len() > 0 ==> trim_end(s)[0] == s[0] && !is_space(trim_end(s).last()),
        trim_end(s).len() <= s.len(),
        forall|c: char| trim_end(s).contains(c) ==> #[trigger] s.contains(c),
    decreases s.len(),
{
    if s.len() > 0 && is_space(s.last()) {
        lemma_trim_end_ends(s.drop_last());
        assert forall|c: char| trim_end(s).contains(c) implies #[trigger] s.contains(c) by {
            assert(s.drop_last().contains(c));
            let i = choose|i: int| 0 <= i < s.drop_last().len() && s.drop_last()[i] == c;
            assert(s[i] == c);
        }
    }
}

/// A text that neither starts nor ends with white space is trimmed.
pub proof fn lemma_trimmed_already(s: Seq<char>)
    requires
        s.len() > 0 ==> !is_space(s[0]) && !is_space(s.last()),
    ensures
        trimmed(s) == s,
{
}

/// Trimming twice is trimming once.
pub proof fn lemma_trimmed_twice(s: Seq<char>)
    ensures
        trimmed(trimmed(s)) == trimmed(s),
{
    lemma_trimmed_ends(s);
}

pub fn to_lowercase_ascii(s: &str) -> (result: String)
    ensures
        result@ == lowercase(s@),
{
    let chars = chars_of(s);
    let mut result = String::new();
    let mut i: usize = 0;
    while i < chars.len()
        invariant
            i <= chars.len(),
            chars@ == s@,
            result@ == lowercase(s@.take(i as int)),
        decreases chars.len() - i,
    {
        result.push(to_lower_char(chars[i]));
        i += 1;
        assert(lowercase(s@.take(i as int)) =~= lowercase(s@.take(i - 1)).push(
            lower_char(s@[i - 1]),
        ));
    }
    assert(s@.take(s@.len() as int) == s@);
    result
}

/// The parts of `s` between the occurrences of `c`: one more than there are occurrences.
pub open spec fn split(s: Seq<char>, c: char) -> Seq<Seq<char>>
    decreases s.len(),
{
    let i = first_index(s, c);
    if 0 <= i < s.len() {
        seq![s.take(i)] + split(s.skip(i + 1), c)
    } else {
        seq![s]
    }
}

/// The characters of each text.
pub open spec fn views(texts: Seq<String>) -> Seq<Seq<char>> {
    texts.map_values(|t: String| t@)
}

pub fn split_on(s: &str, c: char) -> (result: Vec<String>)
    ensures
        views(result@) == split(s@, c),
{
    let chars = chars_of(s);
    let mut result: Vec<String> = Vec::new();
    let mut start: usize = 0;
    let mut i: usize = 0;
    assert(s@.skip(0) =~= s@);
    while i < chars.len()
        invariant
            start <= i <= chars.len(),
            chars@ == s@,
            forall|j: int| start <= j < i ==> s@[j] != c,
            split(s@, c) == views(result@) + split(s@.skip(start as int), c),
        decreases chars.len() - i,
    {
        if chars[i] == c {
            proof {
                let rest = s@.skip(start as int);
                lemma_first_index(rest, c, i - start);
                assert(rest.take(i - start) =~= s@.subrange(start as int, i as int));
                assert(rest.skip(i - start + 1) =~= s@.skip(i + 1));
            }
            let ghost before = result@;
            let part = slice_to_string(&chars, start, i);
            result.push(part);
            proof {
                assert(views(result@) =~= views(before).push(part@));
                assert(views(before) + (seq![part@] + split(s@.skip(i + 1), c)) =~= views(
                    result@,
                ) + split(s@.skip(i + 1), c));
            }
            start = i + 1;
        }
        i += 1;
    }
    let ghost before = result@;
    let part = slice_to_string(&chars, start, chars.len());
    result.push(part);
    proof {
        let rest = s@.skip(start as int);
        lemma_first_index(rest, c, rest.len() as int);
        assert(rest =~= part@);
        assert(views(result@) =~= views(before) + seq![part@]);
    }
    result
}

/// What stands before and behind the first occurrence of `c`.
pub open spec fn split_first(s: Seq<char>, c: char) -> Option<(Seq<char>, Seq<char>)> {
    if s.contains(c) {
        Some((s.take(first_index(s, c)), s.skip(first_index(s, c) + 1)))
    } else {
        None
    }
}

pub fn split_at_first(s: &str, c: char) -> (result: Option<(String, String)>)
    ensures
        result matches Some(pair) ==> split_first(s@, c) == Some((pair.0@, pair.1@)),
        result is None ==> split_first(s@, c) is None,
{
    let chars = chars_of(s);
    let i: usize = first_position(&chars, c);
    if i < chars.len() {
        let before = slice_to_string(&chars, 0, i);
        let after = slice_to_string(&chars, i + 1, chars.len());
        assert(before@ =~= s@.take(i as int));
        assert(after@ =~= s@.skip(i + 1));
        Some((before, after))
    } else {
        None
    }
}

/// What stands before and behind the last occurrence of `c`.
pub open spec fn split_last(s: Seq<char>, c: char) -> Option<(Seq<char>, Seq<char>)> {
    if s.contains(c) {
        Some((s.take(last_index(s, c)), s.skip(last_index(s, c) + 1)))
    } else {
        None
    }
}

pub fn split_at_last(s: &str, c: char) -> (result: Option<(String, String)>)
    ensures
        result matches Some(pair) ==> split_last(s@, c) == Some((pair.0@, pair.1@)),
        result is None ==> split_last(s@, c) is None,
{
    let chars = chars_of(s);
    match last_position(&chars, c) {
        Some(i) => {
            let before = slice_to_string(&chars, 0, i);
            let after = slice_to_string(&chars, i + 1, chars.len());
            assert(s@.contains(s@[i as int]));
            assert(before@ =~= s@.take(i as int));
            assert(after@ =~= s@.skip(i + 1));
            Some((before, after))
        },
        None => None,
    }
}

/// `s` without `prefix` at its start.
pub fn without_prefix(s: &str, prefix: &str) -> (result: Option<String>)
    ensures
        result is Some <==> prefix@.is_prefix_of(s@),
        result matches Some(rest) ==> rest@ == s@.skip(prefix@.len() as int),
{
    if has_prefix(s, prefix) {
        let chars = chars_of(s);
        let start = chars_of(prefix);
        let rest = slice_to_string(&chars, start.len(), chars.len());
        assert(rest@ =~= s@.skip(prefix@.len() as int));
        Some(rest)
    } else {
        None
    }
}

// ---------------------------------------------------------------------------
// Facts about length and case
// ---------------------------------------------------------------------------

/// The bytes of two texts, one behind the other.
pub proof fn lemma_encode_concat(a: Seq<char>, b: Seq<char>)
    ensures
        encode_utf8(a + b) == encode_utf8(a) + encode_utf8(b),
    decreases a.len(),
{
    if a.len() == 0 {
        assert(a + b =~= b);
        assert(encode_utf8(a) + encode_utf8(b) =~= encode_utf8(b));
    } else {
        let rest = a.drop_first();
        assert((a + b).drop_first() =~= rest + b);
        assert((a + b)[0] == a[0]);
        lemma_encode_concat(rest, b);
        assert(encode_utf8(a + b) =~= encode_utf8(a) + encode_utf8(b));
    }
}

/// Different texts have different bytes.
pub proof fn lemma_encode_injective(a: Seq<char>, b: Seq<char>)
    requires
        encode_utf8(a) == encode_utf8(b),
    ensures
        a == b,
{
    encode_utf8_decode_utf8(a);
    encode_utf8_decode_utf8(b);
}

/// An ASCII character takes one byte.
pub proof fn lemma_ascii_char_length(c: char)
    requires
        is_ascii_char(c),
    ensures
        byte_length(seq![c]) == 1,
{
    let s = seq![c];
    assert(is_ascii_chars(s));
    is_ascii_chars_encode_utf8(s);
}

/// Lower case neither adds nor takes away white space around a text.
pub proof fn lemma_lowercase_trimmed(s: Seq<char>)
    ensures
        trimmed(lowercase(trimmed(s))) == lowercase(trimmed(s)),
        lowercase(lowercase(s)) == lowercase(s),
{
    lemma_trimmed_ends(s);
    let t = trimmed(s);
    let l = lowercase(t);
    if t.len() > 0 {
        assert(l[0] == lower_char(t[0]));
        assert(l.last() == lower_char(t.last()));
    }
    assert(lowercase(lowercase(s)) =~= lowercase(s));
}

/// The upper-case form of an ASCII letter; every other character stands for itself.
pub open spec fn upper_char(c: char) -> char {
    if is_lower(c) {
        ((c as u32 - 32) as u32) as char
    } else {
        c
    }
}

pub open spec fn uppercase(s: Seq<char>) -> Seq<char> {
    s.map_values(|c: char| upper_char(c))
}

pub fn to_uppercase_ascii(s: &str) -> (result: String)
    ensures
        result@ == uppercase(s@),
{
    let chars = chars_of(s);
    let mut result = String::new();
    let mut i: usize = 0;
    while i < chars.len()
        invariant
            i <= chars.len(),
            chars@ == s@,
            result@ == uppercase(s@.take(i as int)),
        decreases chars.len() - i,
    {
        let c = chars[i];
        if lower(c) {
            let code: u8 = c as u8;
            result.push((code - 32) as char);
        } else {
            result.push(c);
        }
        i += 1;
        assert(uppercase(s@.take(i as int)) =~= uppercase(s@.take(i - 1)).push(
            upper_char(s@[i - 1]),
        ));
    }
    assert(s@.take(s@.len() as int) == s@);
    result
}

// ---------------------------------------------------------------------------
// Cutting at a byte
// ---------------------------------------------------------------------------

/// The first index from `i` on whose characters before it take `n` bytes or more, or the length.
pub open spec fn byte_index(s: Seq<char>, n: int, i: int) -> int
    decreases s.len() - i,
{
    if i >= s.len() || byte_length(s.take(i)) >= n {
        i
    } else {
        byte_index(s, n, i + 1)
    }
}

/// The text before and from byte `n` on, where a character starts or the text ends there.
pub open spec fn byte_split(s: Seq<char>, n: int) -> Option<(Seq<char>, Seq<char>)> {
    let i = byte_index(s, n, 0);
    if byte_length(s.take(i)) == n {
        Some((s.take(i), s.skip(i)))
    } else {
        None
    }
}

pub fn split_at_byte(s: &str, n: usize) -> (result: Option<(String, String)>)
    ensures
        match result {
            Some(pair) => byte_split(s@, n as int) == Some((pair.0@, pair.1@)),
            None => byte_split(s@, n as int) is None,
        },
{
    let chars = chars_of(s);
    let mut i: usize = 0;
    loop
        invariant
            i <= chars.len(),
            chars@ == s@,
            byte_index(s@, n as int, 0) == byte_index(s@, n as int, i as int),
        decreases chars.len() - i,
    {
        let start = slice_to_string(&chars, 0, i);
        assert(chars@.subrange(0, i as int) =~= s@.take(i as int));
        let length: usize = byte_len(start.as_str());
        if i >= chars.len() || length >= n {
            if length != n {
                return None;
            }
            let end = slice_to_string(&chars, i, chars.len());
            assert(end@ =~= s@.skip(i as int));
            return Some((start, end));
        }
        i += 1;
    }
}

// ---------------------------------------------------------------------------
// Replacing
// ---------------------------------------------------------------------------

/// `part` stands in `s` at index `i`.
pub open spec fn stands_at(s: Seq<char>, part: Seq<char>, i: int) -> bool {
    0 <= i && i + part.len() <= s.len() && s.subrange(i, i + part.len()) == part
}

/// The text from `from` on with `with` for each occurrence of `part`, from left to right.
pub open spec fn replaced_from(
    s: Seq<char>,
    part: Seq<char>,
    with: Seq<char>,
    from: int,
) -> Seq<char>
    decreases s.len() - from,
{
    if from >= s.len() || part.len() == 0 {
        Seq::empty()
    } else if stands_at(s, part, from) {
        with + replaced_from(s, part, with, from + part.len())
    } else {
        seq![s[from]] + replaced_from(s, part, with, from + 1)
    }
}

fn text_at(chars: &Vec<char>, part: &Vec<char>, i: usize) -> (result: bool)
    requires
        i <= chars.len(),
    ensures
        result == stands_at(chars@, part@, i as int),
{
    if part.len() > chars.len() - i {
        return false;
    }
    let mut j: usize = 0;
    while j < part.len()
        invariant
            j <= part.len(),
            i + part.len() <= chars.len(),
            forall|k: int| 0 <= k < j ==> chars@[i + k] == part@[k],
        decreases part.len() - j,
    {
        if chars[i + j] != part[j] {
            assert(chars@.subrange(i as int, i + part@.len())[j as int] != part@[j as int]);
            return false;
        }
        j += 1;
    }
    assert(chars@.subrange(i as int, i + part@.len()) =~= part@);
    true
}

pub fn replace_all(s: &str, part: &str, with: &str) -> (result: String)
    requires
        part@.len() > 0,
    ensures
        result@ == replaced_from(s@, part@, with@, 0),
{
    let chars = chars_of(s);
    let pattern = chars_of(part);
    let mut result = String::new();
    let mut i: usize = 0;
    assert(result@ + replaced_from(s@, part@, with@, 0) =~= replaced_from(s@, part@, with@, 0));
    while i < chars.len()
        invariant
            i <= chars.len(),
            chars@ == s@,
            pattern@ == part@,
            part@.len() > 0,
            replaced_from(s@, part@, with@, 0) == result@ + replaced_from(
                s@,
                part@,
                with@,
                i as int,
            ),
        decreases chars.len() - i,
    {
        let ghost before = result@;
        if text_at(&chars, &pattern, i) {
            let ghost next = replaced_from(s@, part@, with@, i + part@.len());
            result = concat(result.as_str(), with);
            assert(before + (with@ + next) =~= (before + with@) + next);
            i += pattern.len();
        } else {
            let ghost next = replaced_from(s@, part@, with@, i + 1);
            let c = chars[i];
            result.push(c);
            assert(before + (seq![c] + next) =~= before.push(c) + next);
            i += 1;
        }
    }
    assert(result@ + Seq::<char>::empty() =~= result@);
    result
}

/// The text without the characters `c` at its end.
pub open spec fn without_trailing(s: Seq<char>, c: char) -> Seq<char>
    decreases s.len(),
{
    if s.len() > 0 && s.last() == c {
        without_trailing(s.drop_last(), c)
    } else {
        s
    }
}

pub fn trim_trailing(s: &str, c: char) -> (result: String)
    ensures
        result@ == without_trailing(s@, c),
{
    let chars = chars_of(s);
    let mut end: usize = chars.len();
    assert(s@.take(end as int) =~= s@);
    while end > 0 && chars[end - 1] == c
        invariant
            end <= chars.len(),
            chars@ == s@,
            without_trailing(s@, c) == without_trailing(s@.take(end as int), c),
        decreases end,
    {
        assert(s@.take(end as int).drop_last() =~= s@.take(end - 1));
        end -= 1;
    }
    assert(s@.subrange(0, end as int) =~= s@.take(end as int));
    slice_to_string(&chars, 0, end)
}

// ---------------------------------------------------------------------------
// Laws
// ---------------------------------------------------------------------------

/// Trimming takes white space off both ends of a text, all of it, and nothing else.
pub proof fn law_trimming_takes_off_white_space(s: Seq<char>) -> (bounds: (int, int))
    ensures
        0 <= bounds.0 <= bounds.1 <= s.len(),
        trimmed(s) == s.subrange(bounds.0, bounds.1),
        forall|i: int| 0 <= i < bounds.0 ==> is_space(#[trigger] s[i]),
        forall|i: int| bounds.1 <= i < s.len() ==> is_space(#[trigger] s[i]),
        bounds.0 < bounds.1 ==> !is_space(s[bounds.0]) && !is_space(s[bounds.1 - 1]),
{
    let start = lemma_trim_start_place(s);
    let rest = trim_start(s);
    let end = lemma_trim_end_place(rest);
    assert(trimmed(s) =~= s.subrange(start, start + end));
    assert forall|i: int| start + end <= i < s.len() implies is_space(#[trigger] s[i]) by {
        assert(rest[i - start] == s[i]);
    }
    (start, start + end)
}

proof fn lemma_trim_start_place(s: Seq<char>) -> (start: int)
    ensures
        0 <= start <= s.len(),
        trim_start(s) == s.subrange(start, s.len() as int),
        forall|i: int| 0 <= i < start ==> is_space(#[trigger] s[i]),
        start < s.len() ==> !is_space(s[start]),
    decreases s.len(),
{
    if s.len() > 0 && is_space(s[0]) {
        let rest = s.drop_first();
        let start = lemma_trim_start_place(rest);
        assert(rest.subrange(start, rest.len() as int) =~= s.subrange(start + 1, s.len() as int));
        assert forall|i: int| 0 <= i < start + 1 implies is_space(#[trigger] s[i]) by {
            if i > 0 {
                assert(rest[i - 1] == s[i]);
            }
        }
        start + 1
    } else {
        assert(s.subrange(0, s.len() as int) =~= s);
        0
    }
}

proof fn lemma_trim_end_place(s: Seq<char>) -> (end: int)
    ensures
        0 <= end <= s.len(),
        trim_end(s) == s.subrange(0, end),
        forall|i: int| end <= i < s.len() ==> is_space(#[trigger] s[i]),
        end > 0 ==> !is_space(s[end - 1]),
    decreases s.len(),
{
    if s.len() > 0 && is_space(s.last()) {
        let rest = s.drop_last();
        let end = lemma_trim_end_place(rest);
        assert(rest.subrange(0, end) =~= s.subrange(0, end));
        assert forall|i: int| end <= i < s.len() implies is_space(#[trigger] s[i]) by {
            if i < s.len() - 1 {
                assert(rest[i] == s[i]);
            }
        }
        end
    } else {
        assert(s.subrange(0, s.len() as int) =~= s);
        s.len() as int
    }
}

/// Blanks, tabs and line ends are white space; no other printable ASCII character is.
pub proof fn law_blanks_are_white_space(c: char)
    ensures
        c <= '\u{7f}' ==> (is_space(c) <==> c == ' ' || c == '\t' || c == '\n' || c == '\r' || c
            == '\u{b}' || c == '\u{c}'),
        is_control(c) ==> !is_alphanumeric(c) && c != ' ',
        c == '\n' || c == '\r' || c == '\t' || c == '\0' ==> is_control(c),
{
}

/// Lower case changes the twenty-six capital letters, each to its own small letter, and no other
/// character; upper case does the same the other way round.
pub proof fn law_case_changes_letters_alone(s: Seq<char>, i: int)
    requires
        0 <= i < s.len(),
    ensures
        lowercase(s).len() == s.len(),
        'A' <= s[i] <= 'Z' ==> lowercase(s)[i] as u32 == s[i] as u32 + 32,
        !('A' <= s[i] <= 'Z') ==> lowercase(s)[i] == s[i],
        uppercase(s).len() == s.len(),
        'a' <= s[i] <= 'z' ==> uppercase(s)[i] as u32 == s[i] as u32 - 32,
        !('a' <= s[i] <= 'z') ==> uppercase(s)[i] == s[i],
{
}

/// The parts, with the character between each two of them.
pub open spec fn rejoined(parts: Seq<Seq<char>>, c: char) -> Seq<char>
    decreases parts.len(),
{
    if parts.len() == 0 {
        Seq::empty()
    } else if parts.len() == 1 {
        parts[0]
    } else {
        parts[0] + seq![c] + rejoined(parts.drop_first(), c)
    }
}

/// Splitting loses nothing: no part holds the character, and the parts with the character between
/// them are the text.
pub proof fn law_splitting_loses_nothing(s: Seq<char>, c: char)
    ensures
        split(s, c).len() >= 1,
        rejoined(split(s, c), c) == s,
        forall|i: int| 0 <= i < split(s, c).len() ==> !(#[trigger] split(s, c)[i]).contains(c),
    decreases s.len(),
{
    lemma_first_index_bounds(s, c);
    let i = first_index(s, c);
    if 0 <= i < s.len() {
        let rest = s.skip(i + 1);
        law_splitting_loses_nothing(rest, c);
        let parts = split(s, c);
        assert(parts.drop_first() =~= split(rest, c));
        assert(s =~= s.take(i) + seq![c] + rest);
        assert forall|k: int| 0 <= k < parts.len() implies !(#[trigger] parts[k]).contains(c) by {
            if k > 0 {
                assert(parts[k] == split(rest, c)[k - 1]);
            }
        }
    }
}

/// A text is split at the first, or the last, occurrence of a character: what stands before and
/// behind it comes back, where the one, or the other, does not hold the character.
pub proof fn law_texts_split_at_a_character(before: Seq<char>, c: char, behind: Seq<char>)
    ensures
        !before.contains(c) ==> split_first(before + seq![c] + behind, c) == Some((before, behind)),
        !behind.contains(c) ==> split_last(before + seq![c] + behind, c) == Some((before, behind)),
        !before.contains(c) ==> split_first(before, c) is None && split_last(before, c) is None,
{
    let s = before + seq![c] + behind;
    let k = before.len() as int;
    assert(s[k] == c);
    if !before.contains(c) {
        assert forall|j: int| 0 <= j < k implies s[j] != c by {
            assert(s[j] == before[j]);
        }
        lemma_first_index(s, c, k);
        assert(s.take(k) =~= before);
        assert(s.skip(k + 1) =~= behind);
    }
    if !behind.contains(c) {
        assert forall|j: int| k < j < s.len() implies s[j] != c by {
            assert(s[j] == behind[j - k - 1]);
        }
        lemma_last_index(s, c, k);
        assert(s.take(k) =~= before);
        assert(s.skip(k + 1) =~= behind);
    }
}

/// A text that is cut at a byte falls into two that make it up, the first of so many bytes.
pub proof fn law_cutting_keeps_the_text(s: Seq<char>, n: int)
    requires
        byte_split(s, n) is Some,
    ensures
        ({
            let (head, tail) = byte_split(s, n)->Some_0;
            head + tail == s && byte_length(head) == n
        }),
{
    lemma_byte_index_bounds(s, n, 0);
    let i = byte_index(s, n, 0);
    assert(s.take(i) + s.skip(i) =~= s);
}

proof fn lemma_byte_index_bounds(s: Seq<char>, n: int, i: int)
    requires
        0 <= i <= s.len(),
    ensures
        i <= byte_index(s, n, i) <= s.len(),
    decreases s.len() - i,
{
    if i < s.len() && byte_length(s.take(i)) < n {
        lemma_byte_index_bounds(s, n, i + 1);
    }
}

/// Where the part stands in a text for the first time, replacing puts the other text there and goes
/// on behind it; a text without the part stays as it is.
pub proof fn law_replacing_puts_the_text_in_place(
    s: Seq<char>,
    part: Seq<char>,
    with: Seq<char>,
    from: int,
    place: int,
)
    requires
        part.len() > 0,
        0 <= from <= place <= s.len(),
        forall|i: int| from <= i < place ==> !#[trigger] stands_at(s, part, i),
        place < s.len() ==> stands_at(s, part, place),
    ensures
        place == s.len() ==> replaced_from(s, part, with, from) == s.skip(from),
        place < s.len() ==> replaced_from(s, part, with, from) == s.subrange(from, place) + with
            + replaced_from(s, part, with, place + part.len()),
    decreases place - from,
{
    if from < place {
        assert(!stands_at(s, part, from));
        law_replacing_puts_the_text_in_place(s, part, with, from + 1, place);
        if place == s.len() {
            assert(seq![s[from]] + s.skip(from + 1) =~= s.skip(from));
        } else {
            assert(seq![s[from]] + (s.subrange(from + 1, place) + with + replaced_from(
                s,
                part,
                with,
                place + part.len(),
            )) =~= s.subrange(from, place) + with + replaced_from(
                s,
                part,
                with,
                place + part.len(),
            ));
        }
    } else if place == s.len() {
        assert(s.skip(from) =~= Seq::empty());
    } else {
        assert(s.subrange(from, place) + with + replaced_from(s, part, with, place + part.len())
            =~= with + replaced_from(s, part, with, place + part.len()));
    }
}

/// What is taken off the end of a text is the character alone, and all of it.
pub proof fn law_trailing_characters_come_off(s: Seq<char>, c: char)
    ensures
        ({
            let rest = without_trailing(s, c);
            &&& rest.is_prefix_of(s)
            &&& rest.len() > 0 ==> rest.last() != c
            &&& forall|i: int| rest.len() <= i < s.len() ==> #[trigger] s[i] == c
        }),
    decreases s.len(),
{
    if s.len() > 0 && s.last() == c {
        law_trailing_characters_come_off(s.drop_last(), c);
        assert forall|i: int| without_trailing(s, c).len() <= i < s.len() implies #[trigger] s[i]
            == c by {
            if i < s.len() - 1 {
                assert(s.drop_last()[i] == s[i]);
            }
        }
    }
}

} // verus!
