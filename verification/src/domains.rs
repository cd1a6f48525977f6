//! Rules on the domains of email addresses.
use crate::error::{bad, shown_text, text_of, ApiError, Failure};
use crate::text::{
    alphanumeric, byte_len, byte_length, chars_of, concat, contains_char, has_control,
    has_suffix, is_alphanumeric, is_control, is_space, lemma_first_index, lemma_lowercase_trimmed, lemma_trimmed_ends,
    lowercase, split, split_at_first, split_at_last, split_first, split_last, split_on, to_lowercase_ascii,
    trim, trimmed, views, without_prefix,
};
use vstd::prelude::*;

verus! {

/// One label of a domain name: letters, digits and hyphens, with no hyphen at either end.
pub open spec fn valid_label(label: Seq<char>) -> bool {
    &&& label.len() > 0
    &&& byte_length(label) <= 63
    &&& forall|i: int|
        0 <= i < label.len() ==> is_alphanumeric(#[trigger] label[i]) || label[i] == '-'
    &&& is_alphanumeric(label[0])
    &&& is_alphanumeric(label.last())
}

/// A domain name of two labels or more.
pub open spec fn valid_domain(domain: Seq<char>) -> bool {
    &&& byte_length(domain) <= 253
    &&& domain.contains('.')
    &&& forall|i: int|
        0 <= i < split(domain, '.').len() ==> valid_label(#[trigger] split(domain, '.')[i])
}

fn label_ok(label: &str) -> (result: bool)
    ensures
        result == valid_label(label@),
{
    let chars = chars_of(label);
    if chars.len() == 0 || byte_len(label) > 63 {
        return false;
    }
    let mut i: usize = 0;
    while i < chars.len()
        invariant
            i <= chars.len(),
            chars@ == label@,
            forall|j: int|
                0 <= j < i ==> is_alphanumeric(#[trigger] label@[j]) || label@[j] == '-',
        decreases chars.len() - i,
    {
        if !alphanumeric(chars[i]) && chars[i] != '-' {
            assert(!(is_alphanumeric(label@[i as int]) || label@[i as int] == '-'));
            return false;
        }
        i += 1;
    }
    alphanumeric(chars[0]) && alphanumeric(chars[chars.len() - 1])
}

pub fn valid_dns_domain(domain: &str) -> (result: bool)
    ensures
        result == valid_domain(domain@),
{
    if byte_len(domain) > 253 || !contains_char(domain, '.') {
        return false;
    }
    let labels = split_on(domain, '.');
    let mut i: usize = 0;
    while i < labels.len()
        invariant
            i <= labels.len(),
            views(labels@) == split(domain@, '.'),
            forall|j: int| 0 <= j < i ==> valid_label(#[trigger] split(domain@, '.')[j]),
        decreases labels.len() - i,
    {
        assert(split(domain@, '.')[i as int] == views(labels@)[i as int]);
        if !label_ok(labels[i].as_str()) {
            assert(!valid_label(split(domain@, '.')[i as int]));
            return false;
        }
        i += 1;
    }
    assert(views(labels@).len() == labels@.len());
    true
}

/// The normal form of a rule: a domain, or `*.` and a domain for all that lies below it, in lower
/// case.
pub open spec fn normal_rule(rule: Seq<char>) -> Option<Seq<char>> {
    let text = lowercase(trimmed(rule));
    let wildcard = "*."@.is_prefix_of(text);
    let domain = if wildcard {
        text.skip(2)
    } else {
        text
    };
    if (text.contains('*') && !wildcard) || !valid_domain(domain) {
        None
    } else {
        Some(text)
    }
}

pub fn normalize_domain_rule(rule: &str) -> (result: Option<String>)
    ensures
        text_of(result) == normal_rule(rule@),
{
    let text = to_lowercase_ascii(trim(rule).as_str());
    proof {
        reveal_strlit("*.");
    }
    match without_prefix(text.as_str(), "*.") {
        Some(domain) => if valid_dns_domain(domain.as_str()) {
            Some(text)
        } else {
            None
        },
        None => if contains_char(text.as_str(), '*') || !valid_dns_domain(text.as_str()) {
            None
        } else {
            Some(text)
        },
    }
}

/// A rule covers a domain: exactly, or with a star as one of those that end in the rest of it.
pub open spec fn rule_covers(rule: Seq<char>, domain: Seq<char>) -> bool {
    match normal_rule(rule) {
        None => false,
        Some(text) => if text.len() > 0 && text[0] == '*' {
            text.skip(1).is_suffix_of(lowercase(domain))
        } else {
            lowercase(domain) == text
        },
    }
}

pub fn domain_rule_matches(rule: &str, domain: &str) -> (result: bool)
    ensures
        result == rule_covers(rule@, domain@),
{
    let text = match normalize_domain_rule(rule) {
        Some(text) => text,
        None => return false,
    };
    let lower = to_lowercase_ascii(domain);
    proof {
        reveal_strlit("*");
        if text@.len() > 0 && text@[0] == '*' {
            assert(text@.subrange(0, 1) =~= "*"@);
        }
        if "*"@.is_prefix_of(text@) {
            assert(text@.subrange(0, 1)[0] == text@[0]);
        }
    }
    match without_prefix(text.as_str(), "*") {
        Some(suffix) => has_suffix(lower.as_str(), suffix.as_str()),
        None => lower == text,
    }
}

/// Some rule of a list, whose rules stand between commas, covers the domain.
pub open spec fn any_rule_covers(rules: Seq<char>, domain: Seq<char>) -> bool {
    exists|i: int|
        0 <= i < split(rules, ',').len() && rule_covers(#[trigger] split(rules, ',')[i], domain)
}

fn any_rule(rules: &str, domain: &str) -> (result: bool)
    ensures
        result == any_rule_covers(rules@, domain@),
{
    let parts = split_on(rules, ',');
    let mut i: usize = 0;
    assert(views(parts@).len() == parts@.len());
    while i < parts.len()
        invariant
            i <= parts.len(),
            views(parts@) == split(rules@, ','),
            views(parts@).len() == parts@.len(),
            forall|j: int|
                0 <= j < i ==> !rule_covers(#[trigger] split(rules@, ',')[j], domain@),
        decreases parts.len() - i,
    {
        assert(split(rules@, ',')[i as int] == views(parts@)[i as int]);
        if domain_rule_matches(parts[i].as_str(), domain) {
            assert(rule_covers(split(rules@, ',')[i as int], domain@));
            return true;
        }
        i += 1;
    }
    false
}

/// The part of an address behind its last `@`.
pub open spec fn domain_of(email: Seq<char>) -> Seq<char> {
    match split_last(email, '@') {
        Some((_, domain)) => domain,
        None => Seq::empty(),
    }
}

/// An address is allowed where its domain is on the list of allowed ones, unless that list is
/// blank, and is not on the list of denied ones.
pub open spec fn domain_allowed(email: Seq<char>, allowed: Seq<char>, denied: Seq<char>) -> bool {
    &&& trimmed(allowed).len() == 0 || any_rule_covers(allowed, domain_of(email))
    &&& !any_rule_covers(denied, domain_of(email))
}

pub fn email_domain_allowed(email: &str, whitelist: &str, blacklist: &str) -> (result: bool)
    ensures
        result == domain_allowed(email@, whitelist@, blacklist@),
{
    let domain = match split_at_last(email, '@') {
        Some((_, domain)) => domain,
        None => String::new(),
    };
    let content = trim(whitelist);
    if !content.as_str().is_empty() && !any_rule(whitelist, domain.as_str()) {
        return false;
    }
    !any_rule(blacklist, domain.as_str())
}

/// The rules among the first `n` parts in normal form, each once and blank ones left out; `None`
/// where one of them is no rule.
pub open spec fn collected_rules(parts: Seq<Seq<char>>, n: int) -> Option<Seq<Seq<char>>>
    decreases n,
{
    if n <= 0 {
        Some(Seq::empty())
    } else {
        match collected_rules(parts, n - 1) {
            None => None,
            Some(rules) => if trimmed(parts[n - 1]).len() == 0 {
                Some(rules)
            } else {
                match normal_rule(parts[n - 1]) {
                    None => None,
                    Some(rule) => if rules.contains(rule) {
                        Some(rules)
                    } else {
                        Some(rules.push(rule))
                    },
                }
            },
        }
    }
}

/// The texts with `separator` between them.
pub open spec fn joined(texts: Seq<Seq<char>>, separator: Seq<char>) -> Seq<char>
    decreases texts.len(),
{
    if texts.len() == 0 {
        Seq::empty()
    } else if texts.len() == 1 {
        texts[0]
    } else {
        joined(texts.drop_last(), separator) + separator + texts.last()
    }
}

pub open spec fn rules_of(value: Seq<char>) -> Option<Seq<Seq<char>>> {
    collected_rules(split(value, ','), split(value, ',').len() as int)
}

pub open spec fn normal_rules(value: Seq<char>) -> Result<Seq<char>, Failure> {
    match rules_of(value) {
        Some(rules) => Ok(joined(rules, ", "@)),
        None => Err(
            bad(
                "Email domain rules must be exact domains or wildcard subdomains such as *.example.org"@,
            ),
        ),
    }
}

proof fn lemma_collected_prefix(parts: Seq<Seq<char>>, n: int, m: int)
    requires
        0 <= n <= m,
        collected_rules(parts, n) is None,
    ensures
        collected_rules(parts, m) is None,
    decreases m - n,
{
    if n < m {
        lemma_collected_prefix(parts, n, m - 1);
    }
}

fn holds_text(texts: &Vec<String>, text: &String) -> (result: bool)
    ensures
        result == views(texts@).contains(text@),
{
    let mut i: usize = 0;
    while i < texts.len()
        invariant
            i <= texts.len(),
            forall|j: int| 0 <= j < i ==> views(texts@)[j] != text@,
        decreases texts.len() - i,
    {
        if texts[i] == *text {
            assert(views(texts@)[i as int] == text@);
            return true;
        }
        i += 1;
    }
    false
}

pub fn join_texts(texts: &Vec<String>, separator: &str) -> (result: String)
    ensures
        result@ == joined(views(texts@), separator@),
{
    let ghost all = views(texts@);
    if texts.len() == 0 {
        return String::new();
    }
    let mut result = texts[0].clone();
    let mut i: usize = 1;
    assert(all.take(1) =~= seq![texts@[0]@]);
    while i < texts.len()
        invariant
            1 <= i <= texts.len(),
            all == views(texts@),
            result@ == joined(all.take(i as int), separator@),
        decreases texts.len() - i,
    {
        proof {
            assert(all.take(i + 1).drop_last() =~= all.take(i as int));
            assert(all.take(i + 1).last() == texts@[i as int]@);
        }
        let start = concat(result.as_str(), separator);
        result = concat(start.as_str(), texts[i].as_str());
        i += 1;
    }
    assert(all.take(all.len() as int) =~= all);
    result
}

/// The normal form of a list of rules.
pub fn normalize_domain_rules(value: &str) -> (result: Result<String, ApiError>)
    ensures
        shown_text(result) == normal_rules(value@),
{
    let parts = split_on(value, ',');
    let ghost all = split(value@, ',');
    let mut rules: Vec<String> = Vec::new();
    let mut i: usize = 0;
    assert(views(parts@).len() == parts@.len());
    assert(views(rules@) =~= Seq::<Seq<char>>::empty());
    while i < parts.len()
        invariant
            i <= parts.len(),
            all == split(value@, ','),
            views(parts@) == all,
            views(parts@).len() == parts@.len(),
            collected_rules(all, i as int) == Some(views(rules@)),
        decreases parts.len() - i,
    {
        assert(all[i as int] == views(parts@)[i as int]);
        let text = trim(parts[i].as_str());
        if !text.as_str().is_empty() {
            match normalize_domain_rule(parts[i].as_str()) {
                None => {
                    proof {
                        lemma_collected_prefix(all, i + 1, all.len() as int);
                    }
                    return Err(
                        ApiError::bad_request(
                            "Email domain rules must be exact domains or wildcard subdomains such as *.example.org",
                        ),
                    );
                },
                Some(rule) => {
                    if !holds_text(&rules, &rule) {
                        let ghost before = rules@;
                        rules.push(rule);
                        assert(views(rules@) =~= views(before).push(rule@));
                    }
                },
            }
        }
        i += 1;
    }
    Ok(join_texts(&rules, ", "))
}

/// An address without white space, with something before its first `@` and behind it a domain
/// that has a dot and does not end in one.
pub open spec fn is_email(value: Seq<char>) -> bool {
    &&& byte_length(value) <= 128
    &&& forall|i: int| 0 <= i < value.len() ==> !crate::text::is_space(#[trigger] value[i])
    &&& split_first(value, '@') matches Some((local, domain)) && local.len() > 0
        && domain.contains('.') && domain.last() != '.'
}

pub fn has_space(s: &str) -> (result: bool)
    ensures
        result == (exists|i: int| 0 <= i < s@.len() && crate::text::is_space(#[trigger] s@[i])),
{
    let chars = chars_of(s);
    let mut i: usize = 0;
    while i < chars.len()
        invariant
            i <= chars.len(),
            chars@ == s@,
            forall|j: int| 0 <= j < i ==> !crate::text::is_space(#[trigger] s@[j]),
        decreases chars.len() - i,
    {
        if crate::text::space(chars[i]) {
            assert(crate::text::is_space(s@[i as int]));
            return true;
        }
        i += 1;
    }
    false
}

pub fn valid_email(value: &str) -> (result: bool)
    ensures
        result == is_email(value@),
{
    if byte_len(value) > 128 || has_space(value) {
        return false;
    }
    match split_at_first(value, '@') {
        Some((local, domain)) => {
            if local.as_str().is_empty() || !contains_char(domain.as_str(), '.') {
                return false;
            }
            let chars = chars_of(domain.as_str());
            assert(domain@.len() > 0);
            chars[chars.len() - 1] != '.'
        },
        None => false,
    }
}

// ---------------------------------------------------------------------------
// Laws
// ---------------------------------------------------------------------------

pub proof fn lemma_split_none(s: Seq<char>, c: char)
    requires
        !s.contains(c),
    ensures
        split(s, c) == seq![s],
{
    crate::text::lemma_first_index_bounds(s, c);
}

pub proof fn lemma_split_append(a: Seq<char>, b: Seq<char>, c: char)
    ensures
        split(a + seq![c] + b, c) == split(a, c) + split(b, c),
    decreases a.len(),
{
    let s = a + seq![c] + b;
    crate::text::lemma_first_index_bounds(a, c);
    let k = crate::text::first_index(a, c);
    if k < a.len() {
        assert(forall|j: int| 0 <= j < k ==> s[j] == a[j]);
        lemma_first_index(s, c, k);
        assert(s.take(k) =~= a.take(k));
        assert(s.skip(k + 1) =~= a.skip(k + 1) + seq![c] + b);
        lemma_split_append(a.skip(k + 1), b, c);
        assert(split(s, c) =~= split(a, c) + split(b, c));
    } else {
        assert forall|j: int| 0 <= j < a.len() implies s[j] != c by {
            assert(s[j] == a[j]);
        }
        lemma_first_index(s, c, a.len() as int);
        assert(s.take(a.len() as int) =~= a);
        assert(s.skip(a.len() as int + 1) =~= b);
        assert(split(s, c) =~= split(a, c) + split(b, c));
    }
}

/// A character that is in no part of a text and is not what it is split at is not in the text.
proof fn lemma_split_lacks(s: Seq<char>, c: char, x: char)
    requires
        x != c,
        forall|i: int| 0 <= i < split(s, c).len() ==> !(#[trigger] split(s, c)[i]).contains(x),
    ensures
        !s.contains(x),
    decreases s.len(),
{
    crate::text::lemma_first_index_bounds(s, c);
    let k = crate::text::first_index(s, c);
    let parts = split(s, c);
    if k < s.len() {
        let rest = split(s.skip(k + 1), c);
        assert(parts[0] == s.take(k));
        assert forall|i: int| 0 <= i < rest.len() implies !(#[trigger] rest[i]).contains(x) by {
            assert(parts[i + 1] == rest[i]);
        }
        lemma_split_lacks(s.skip(k + 1), c, x);
        if s.contains(x) {
            let j = choose|j: int| 0 <= j < s.len() && s[j] == x;
            if j < k {
                assert(s.take(k)[j] == x);
                assert(!parts[0].contains(x));
            } else {
                assert(j != k);
                assert(s.skip(k + 1)[j - k - 1] == x);
            }
        }
    } else {
        assert(parts[0] == s);
    }
}

/// A rule in normal form is its own normal form, has no comma in it and no white space around it.
proof fn lemma_normal_rule(rule: Seq<char>)
    requires
        normal_rule(rule) is Some,
    ensures
        ({
            let text = normal_rule(rule)->Some_0;
            &&& normal_rule(text) == Some(text)
            &&& trimmed(text) == text
            &&& text.len() > 0
            &&& !text.contains(',')
        }),
{
    let text = normal_rule(rule)->Some_0;
    lemma_lowercase_trimmed(rule);
    lemma_lowercase_trimmed(trimmed(rule));
    reveal_strlit("*.");
    let wildcard = "*."@.is_prefix_of(text);
    let domain = if wildcard {
        text.skip(2)
    } else {
        text
    };
    let labels = split(domain, '.');
    assert forall|i: int| 0 <= i < labels.len() implies !(#[trigger] labels[i]).contains(',') by {
        assert(valid_label(labels[i]));
        if labels[i].contains(',') {
            let j = choose|j: int| 0 <= j < labels[i].len() && labels[i][j] == ',';
            assert(is_alphanumeric(labels[i][j]) || labels[i][j] == '-');
        }
    }
    lemma_split_lacks(domain, '.', ',');
    if text.contains(',') {
        let j = choose|j: int| 0 <= j < text.len() && text[j] == ',';
        if wildcard {
            assert(text.subrange(0, 2)[0] == text[0]);
            assert(text.subrange(0, 2)[1] == text[1]);
            assert(domain[j - 2] == ',');
        }
    }
}

/// What is collected is in normal form, and nothing twice.
proof fn lemma_collected(parts: Seq<Seq<char>>, n: int)
    requires
        0 <= n <= parts.len(),
        collected_rules(parts, n) is Some,
    ensures
        ({
            let rules = collected_rules(parts, n)->Some_0;
            &&& rules.no_duplicates()
            &&& forall|k: int|
                0 <= k < rules.len() ==> normal_rule(#[trigger] rules[k]) == Some(rules[k])
            &&& forall|k: int| 0 <= k < rules.len() ==> trimmed(#[trigger] rules[k]) == rules[k]
            &&& forall|k: int|
                0 <= k < rules.len() ==> (#[trigger] rules[k]).len() > 0 && !rules[k].contains(',')
        }),
    decreases n,
{
    if n > 0 {
        lemma_collected(parts, n - 1);
        let before = collected_rules(parts, n - 1)->Some_0;
        if trimmed(parts[n - 1]).len() > 0 {
            lemma_normal_rule(parts[n - 1]);
        }
    }
}

/// What a joined list is split into: the rules, with the space of the separator before all but the
/// first.
spec fn spaced(rules: Seq<Seq<char>>) -> Seq<Seq<char>> {
    Seq::new(
        rules.len(),
        |i: int|
            if i == 0 {
                rules[i]
            } else {
                seq![' '] + rules[i]
            },
    )
}

proof fn lemma_split_joined(rules: Seq<Seq<char>>)
    requires
        rules.len() > 0,
        forall|k: int| 0 <= k < rules.len() ==> !(#[trigger] rules[k]).contains(','),
    ensures
        split(joined(rules, ", "@), ',') == spaced(rules),
    decreases rules.len(),
{
    reveal_strlit(", ");
    if rules.len() == 1 {
        lemma_split_none(rules[0], ',');
        assert(spaced(rules) =~= seq![rules[0]]);
    } else {
        let before = rules.drop_last();
        lemma_split_joined(before);
        let tail = seq![' '] + rules.last();
        let text = joined(before, ", "@);
        assert(", "@ =~= seq![','] + seq![' ']);
        assert(joined(rules, ", "@) =~= text + seq![','] + tail);
        lemma_split_append(text, tail, ',');
        assert(!tail.contains(',')) by {
            if tail.contains(',') {
                let j = choose|j: int| 0 <= j < tail.len() && tail[j] == ',';
                assert(rules.last()[j - 1] == ',');
                assert(rules[rules.len() - 1].contains(','));
            }
        }
        lemma_split_none(tail, ',');
        assert(spaced(rules) =~= spaced(before) + seq![tail]);
    }
}

proof fn lemma_trim_leading_space(s: Seq<char>)
    requires
        trimmed(s) == s,
        s.len() > 0,
    ensures
        trimmed(seq![' '] + s) == s,
        normal_rule(seq![' '] + s) == normal_rule(s),
{
    let t = seq![' '] + s;
    assert(t.drop_first() =~= s);
    lemma_trimmed_ends(s);
    assert(!crate::text::is_space(s[0]));
    assert(crate::text::trim_start(t) == crate::text::trim_start(s));
}

proof fn lemma_collect_spaced(rules: Seq<Seq<char>>, n: int)
    requires
        0 <= n <= rules.len(),
        rules.no_duplicates(),
        forall|k: int| 0 <= k < rules.len() ==> normal_rule(#[trigger] rules[k]) == Some(rules[k]),
        forall|k: int| 0 <= k < rules.len() ==> trimmed(#[trigger] rules[k]) == rules[k],
        forall|k: int| 0 <= k < rules.len() ==> (#[trigger] rules[k]).len() > 0,
    ensures
        collected_rules(spaced(rules), n) == Some(rules.take(n)),
    decreases n,
{
    if n > 0 {
        lemma_collect_spaced(rules, n - 1);
        let rule = rules[n - 1];
        let part = spaced(rules)[n - 1];
        if n > 1 {
            lemma_trim_leading_space(rule);
        }
        assert(normal_rule(part) == Some(rule));
        assert(!rules.take(n - 1).contains(rule)) by {
            let before = rules.take(n - 1);
            if before.contains(rule) {
                let j = choose|j: int| 0 <= j < before.len() && before[j] == rule;
                assert(rules[j] == rule);
            }
        }
        assert(rules.take(n) =~= rules.take(n - 1).push(rule));
    } else {
        assert(rules.take(0) =~= Seq::<Seq<char>>::empty());
    }
}

/// The rules of a list in normal form are the rules of the list.
pub proof fn law_normal_rules_keep_the_rules(value: Seq<char>)
    requires
        normal_rules(value) is Ok,
    ensures
        rules_of(normal_rules(value)->Ok_0) == rules_of(value),
{
    let parts = split(value, ',');
    lemma_collected(parts, parts.len() as int);
    let rules = rules_of(value)->Some_0;
    let text = joined(rules, ", "@);
    if rules.len() == 0 {
        lemma_split_none(text, ',');
        assert(split(text, ',')[0] == text);
        assert(collected_rules(split(text, ','), 0) == Some(Seq::<Seq<char>>::empty()));
        assert(trimmed(text).len() == 0);
        assert(collected_rules(split(text, ','), 1) == Some(Seq::<Seq<char>>::empty()));
        assert(rules =~= Seq::<Seq<char>>::empty());
    } else {
        lemma_split_joined(rules);
        lemma_collect_spaced(rules, rules.len() as int);
        assert(rules.take(rules.len() as int) =~= rules);
    }
}

/// Normalizing a list of rules twice is normalizing it once.
pub proof fn law_normalizing_rules_twice(value: Seq<char>)
    requires
        normal_rules(value) is Ok,
    ensures
        normal_rules(normal_rules(value)->Ok_0) == normal_rules(value),
{
    law_normal_rules_keep_the_rules(value);
}

/// The rules that cover a domain are found among the collected ones.
proof fn lemma_rule_is_printable(rule: Seq<char>, x: char)
    requires
        normal_rule(rule) is Some,
        is_control(x),
    ensures
        !normal_rule(rule)->Some_0.contains(x),
{
    let text = normal_rule(rule)->Some_0;
    reveal_strlit("*.");
    let wildcard = "*."@.is_prefix_of(text);
    let domain = if wildcard {
        text.skip(2)
    } else {
        text
    };
    let labels = split(domain, '.');
    assert forall|i: int| 0 <= i < labels.len() implies !(#[trigger] labels[i]).contains(x) by {
        assert(valid_label(labels[i]));
        if labels[i].contains(x) {
            let j = choose|j: int| 0 <= j < labels[i].len() && labels[i][j] == x;
            assert(is_alphanumeric(labels[i][j]) || labels[i][j] == '-');
        }
    }
    lemma_split_lacks(domain, '.', x);
    if text.contains(x) {
        let j = choose|j: int| 0 <= j < text.len() && text[j] == x;
        if wildcard {
            assert(text[0] == "*."@[0] && text[1] == "*."@[1]);
            assert(domain[j - 2] == x);
        }
    }
}

proof fn lemma_joined_is_printable(rules: Seq<Seq<char>>, x: char)
    requires
        is_control(x),
        forall|k: int| 0 <= k < rules.len() ==> !(#[trigger] rules[k]).contains(x),
        forall|k: int|
            0 <= k < rules.len() ==> (#[trigger] rules[k]).len() > 0 && !is_space(rules[k][0])
                && !is_space(rules[k].last()),
    ensures
        !joined(rules, ", "@).contains(x),
        rules.len() > 0 ==> joined(rules, ", "@).len() > 0 && !is_space(joined(rules, ", "@)[0])
            && !is_space(joined(rules, ", "@).last()),
    decreases rules.len(),
{
    let text = joined(rules, ", "@);
    if rules.len() == 1 {
        assert(!rules[0].contains(x) && rules[0].len() > 0);
    } else if rules.len() > 1 {
        reveal_strlit(", ");
        let before = rules.drop_last();
        lemma_joined_is_printable(before, x);
        let start = joined(before, ", "@);
        let last = rules.len() - 1;
        assert(rules[last].len() > 0);
        if text.contains(x) {
            let j = choose|j: int| 0 <= j < text.len() && text[j] == x;
            if j < start.len() {
                assert(start[j] == x);
            } else if j >= start.len() + 2 {
                assert(rules[last][j - start.len() - 2] == x);
            } else {
                assert(", "@[j - start.len()] == x);
            }
        }
    }
}

/// A list of rules in normal form is trimmed and has no control characters in it.
pub proof fn lemma_normal_rules_are_printable(value: Seq<char>)
    requires
        normal_rules(value) is Ok,
    ensures
        trimmed(normal_rules(value)->Ok_0) == normal_rules(value)->Ok_0,
        !has_control(normal_rules(value)->Ok_0),
{
    let parts = split(value, ',');
    lemma_collected(parts, parts.len() as int);
    let rules = rules_of(value)->Some_0;
    let text = joined(rules, ", "@);
    assert forall|k: int| 0 <= k < rules.len() implies (#[trigger] rules[k]).len() > 0
        && !is_space(rules[k][0]) && !is_space(rules[k].last()) by {
        lemma_trimmed_ends(rules[k]);
        assert(trimmed(rules[k]) == rules[k]);
    }
    assert forall|x: char| is_control(x) implies !#[trigger] text.contains(x) && (rules.len() > 0
        ==> text.len() > 0 && !is_space(text[0]) && !is_space(text.last())) by {
        assert forall|k: int| 0 <= k < rules.len() implies !(#[trigger] rules[k]).contains(x) by {
            assert(normal_rule(rules[k]) == Some(rules[k]));
            lemma_rule_is_printable(rules[k], x);
        }
        lemma_joined_is_printable(rules, x);
    }
    assert(is_control('\0'));
    assert(!text.contains('\0'));
    crate::text::lemma_trimmed_already(text);
    if has_control(text) {
        let i = choose|i: int| 0 <= i < text.len() && #[trigger] is_control(text[i]);
        assert(text.contains(text[i]));
    }
}

proof fn lemma_collected_covers(parts: Seq<Seq<char>>, n: int, domain: Seq<char>)
    requires
        0 <= n <= parts.len(),
        collected_rules(parts, n) is Some,
    ensures
        (exists|i: int| 0 <= i < n && rule_covers(#[trigger] parts[i], domain)) <==> (exists|k: int|
            0 <= k < collected_rules(parts, n)->Some_0.len() && rule_covers(
                #[trigger] collected_rules(parts, n)->Some_0[k],
                domain,
            )),
    decreases n,
{
    if n > 0 {
        lemma_collected_covers(parts, n - 1, domain);
        let before = collected_rules(parts, n - 1)->Some_0;
        let after = collected_rules(parts, n)->Some_0;
        let part = parts[n - 1];
        assert forall|k: int| 0 <= k < before.len() implies after[k] == before[k] by {}
        if trimmed(part).len() == 0 {
            assert(lowercase(trimmed(part)) =~= Seq::<char>::empty());
            reveal_strlit("*.");
            assert(!"*."@.is_prefix_of(Seq::<char>::empty()));
            assert(normal_rule(part) is None);
        } else {
            lemma_normal_rule(part);
            let rule = normal_rule(part)->Some_0;
            assert(rule_covers(rule, domain) == rule_covers(part, domain));
            assert(after.contains(rule)) by {
                if !before.contains(rule) {
                    assert(after.last() == rule);
                }
            }
            let k = choose|k: int| 0 <= k < after.len() && after[k] == rule;
            if rule_covers(part, domain) {
                assert(rule_covers(after[k], domain));
            }
            assert forall|j: int| 0 <= j < after.len() && rule_covers(
                #[trigger] after[j],
                domain,
            ) implies exists|i: int| 0 <= i < n && rule_covers(#[trigger] parts[i], domain) by {
                if j < before.len() {
                    assert(rule_covers(before[j], domain));
                } else {
                    assert(after[j] == rule);
                    assert(rule_covers(parts[n - 1], domain));
                }
            }
        }
        if exists|i: int| 0 <= i < n && rule_covers(#[trigger] parts[i], domain) {
            let i = choose|i: int| 0 <= i < n && rule_covers(#[trigger] parts[i], domain);
            if i < n - 1 {
                let j = choose|j: int| 0 <= j < before.len() && rule_covers(#[trigger] before[j], domain);
                assert(rule_covers(after[j], domain));
            }
        }
    }
}

/// A list in normal form covers the same domains as the list itself.
pub proof fn law_normal_rules_cover_the_same(value: Seq<char>, domain: Seq<char>)
    requires
        normal_rules(value) is Ok,
    ensures
        any_rule_covers(normal_rules(value)->Ok_0, domain) == any_rule_covers(value, domain),
{
    law_normal_rules_keep_the_rules(value);
    let text = normal_rules(value)->Ok_0;
    lemma_collected_covers(split(value, ','), split(value, ',').len() as int, domain);
    lemma_collected_covers(split(text, ','), split(text, ',').len() as int, domain);
}

/// A denied domain is never allowed, whatever the other list says.
pub proof fn law_denied_domains_stay_out(
    email: Seq<char>,
    allowed: Seq<char>,
    denied: Seq<char>,
)
    requires
        any_rule_covers(denied, domain_of(email)),
    ensures
        !domain_allowed(email, allowed, denied),
{
}

/// A wildcard covers what lies below its domain, never the domain itself.
pub proof fn law_wildcards_cover_subdomains(domain: Seq<char>, below: Seq<char>)
    requires
        normal_rule("*."@ + domain) == Some("*."@ + domain),
    ensures
        rule_covers("*."@ + domain, below) <==> (seq!['.'] + domain).is_suffix_of(
            lowercase(below),
        ),
        !rule_covers("*."@ + domain, domain),
{
    reveal_strlit("*.");
    let rule = "*."@ + domain;
    assert(rule[0] == '*');
    assert(rule.skip(1) =~= seq!['.'] + domain);
    assert(lowercase(domain).len() == domain.len());
}

/// An address is allowed exactly where its domain is covered by the allowed rules, or there are
/// none, and by none of the denied ones.
pub proof fn law_allowed_domains_come_in(
    local: Seq<char>,
    domain: Seq<char>,
    allowed: Seq<char>,
    denied: Seq<char>,
)
    requires
        !domain.contains('@'),
    ensures
        domain_of(local + seq!['@'] + domain) == domain,
        domain_allowed(local + seq!['@'] + domain, allowed, denied) <==> (trimmed(allowed).len()
            == 0 || any_rule_covers(allowed, domain)) && !any_rule_covers(denied, domain),
{
    crate::text::law_texts_split_at_a_character(local, '@', domain);
}

/// A rule without a star covers its own domain alone, whatever the case of either; what is no rule
/// covers nothing.
pub proof fn law_plain_rules_cover_their_domain(rule: Seq<char>, domain: Seq<char>)
    requires
        !lowercase(trimmed(rule)).contains('*'),
    ensures
        rule_covers(rule, domain) <==> valid_domain(lowercase(trimmed(rule))) && lowercase(domain)
            == lowercase(trimmed(rule)),
        normal_rule(rule) is Some <==> valid_domain(lowercase(trimmed(rule))),
        normal_rule(rule) is Some ==> normal_rule(rule)->Some_0 == lowercase(trimmed(rule)),
{
    let text = lowercase(trimmed(rule));
    reveal_strlit("*.");
    assert(!"*."@.is_prefix_of(text)) by {
        if "*."@.is_prefix_of(text) {
            assert("*."@[0] == text[0]);
            assert(text.contains('*'));
        }
    }
    if text.len() > 0 {
        assert(text.contains(text[0]));
    }
}

/// A label of a domain has 1 to 63 letters, digits and hyphens, and no hyphen at either end; a domain
/// has two labels or more and 253 bytes at most.
pub proof fn law_domains_are_made_of_labels(label: Seq<char>, domain: Seq<char>)
    ensures
        valid_label(label) ==> 0 < label.len() && byte_length(label) <= 63 && label[0] != '-'
            && label.last() != '-' && !label.contains('.') && !label.contains('*')
            && !label.contains('@') && !label.contains(','),
        valid_domain(domain) ==> split(domain, '.').len() >= 2 && byte_length(domain) <= 253
            && valid_label(split(domain, '.')[0]) && valid_label(split(domain, '.').last()),
        byte_length(label) <= 63 && label.len() > 0 && (forall|i: int|
            0 <= i < label.len() ==> is_alphanumeric(#[trigger] label[i])) ==> valid_label(label),
{
    if valid_label(label) {
        assert forall|c: char| #[trigger] label.contains(c) implies is_alphanumeric(c) || c
            == '-' by {
            let i = choose|i: int| 0 <= i < label.len() && label[i] == c;
            assert(is_alphanumeric(label[i]) || label[i] == '-');
        }
    }
    if byte_length(label) <= 63 && label.len() > 0 && (forall|i: int|
        0 <= i < label.len() ==> is_alphanumeric(#[trigger] label[i])) {
        assert(is_alphanumeric(label[0]));
        assert(is_alphanumeric(label[label.len() - 1]));
    }
    if valid_domain(domain) {
        crate::text::law_splitting_loses_nothing(domain, '.');
        if split(domain, '.').len() == 1 {
            assert(crate::text::rejoined(split(domain, '.'), '.') == split(domain, '.')[0]);
            assert(split(domain, '.')[0].contains('.'));
        }
    }
}

/// An address has something before its at sign and behind it a domain with a dot that is not its
/// last character, no white space, and 128 bytes at most.
pub proof fn law_addresses_have_two_parts(local: Seq<char>, domain: Seq<char>)
    requires
        !local.contains('@'),
    ensures
        is_email(local + seq!['@'] + domain) <==> {
            &&& local.len() > 0
            &&& domain.contains('.') && domain.last() != '.'
            &&& byte_length(local + seq!['@'] + domain) <= 128
            &&& forall|i: int| 0 <= i < local.len() ==> !is_space(#[trigger] local[i])
            &&& forall|i: int| 0 <= i < domain.len() ==> !is_space(#[trigger] domain[i])
        },
        !is_email(local),
{
    let value = local + seq!['@'] + domain;
    crate::text::law_texts_split_at_a_character(local, '@', domain);
    if is_email(value) {
        assert forall|i: int| 0 <= i < local.len() implies !is_space(#[trigger] local[i]) by {
            assert(value[i] == local[i]);
        }
        assert forall|i: int| 0 <= i < domain.len() implies !is_space(#[trigger] domain[i]) by {
            assert(value[i + local.len() + 1] == domain[i]);
        }
    }
    if (forall|i: int| 0 <= i < local.len() ==> !is_space(#[trigger] local[i])) && (forall|i: int|
        0 <= i < domain.len() ==> !is_space(#[trigger] domain[i])) {
        assert forall|i: int| 0 <= i < value.len() implies !is_space(#[trigger] value[i]) by {
            if i < local.len() {
                assert(value[i] == local[i]);
            } else if i > local.len() {
                assert(value[i] == domain[i - local.len() - 1]);
            }
        }
    }
}

/// One rule more in a list is checked and kept in normal form, once; blank entries count for
/// nothing, and one that is no rule spoils the list.
pub proof fn law_each_rule_is_collected(parts: Seq<Seq<char>>, part: Seq<char>)
    ensures
        ({
            let n = parts.len() as int;
            let before = collected_rules(parts, n);
            let after = collected_rules(parts.push(part), n + 1);
            &&& after is Some <==> before is Some && (trimmed(part).len() == 0 || normal_rule(part)
                is Some)
            &&& after is Some && trimmed(part).len() == 0 ==> after == before
            &&& after is Some && trimmed(part).len() > 0 ==> after->Some_0.contains(
                normal_rule(part)->Some_0,
            )
            &&& after is Some && trimmed(part).len() > 0 ==> after->Some_0 == before->Some_0
                || after->Some_0 == before->Some_0.push(normal_rule(part)->Some_0)
        }),
        collected_rules(Seq::empty(), 0) == Some(Seq::<Seq<char>>::empty()),
{
    let n = parts.len() as int;
    lemma_collected_before(parts, part, n);
    let after = collected_rules(parts.push(part), n + 1);
    if after is Some && trimmed(part).len() > 0 {
        let before = collected_rules(parts, n)->Some_0;
        let rule = normal_rule(part)->Some_0;
        assert(parts.push(part)[n] == part);
        assert(before.push(rule)[before.len() as int] == rule);
    }
}

proof fn lemma_collected_before(parts: Seq<Seq<char>>, part: Seq<char>, n: int)
    requires
        n <= parts.len(),
    ensures
        collected_rules(parts.push(part), n) == collected_rules(parts, n),
    decreases n,
{
    if n > 0 {
        lemma_collected_before(parts, part, n - 1);
        assert(parts.push(part)[n - 1] == parts[n - 1]);
    }
}

} // verus!
