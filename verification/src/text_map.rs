//! A map from texts, kept in the order of its keys.
use crate::text::{chars_of, same};
use vstd::prelude::*;

verus! {

/// Whether `a` comes before `b`: character by character, by their code points.
pub open spec fn before(a: Seq<char>, b: Seq<char>) -> bool
    decreases a.len(),
{
    if b.len() == 0 {
        false
    } else if a.len() == 0 {
        true
    } else if a[0] == b[0] {
        before(a.drop_first(), b.drop_first())
    } else {
        a[0] < b[0]
    }
}

pub proof fn lemma_before_irreflexive(a: Seq<char>)
    ensures
        !before(a, a),
    decreases a.len(),
{
    if a.len() > 0 {
        lemma_before_irreflexive(a.drop_first());
    }
}

pub proof fn lemma_before_transitive(a: Seq<char>, b: Seq<char>, c: Seq<char>)
    requires
        before(a, b),
        before(b, c),
    ensures
        before(a, c),
    decreases a.len(),
{
    if a.len() > 0 && a[0] == b[0] && b[0] == c[0] {
        lemma_before_transitive(a.drop_first(), b.drop_first(), c.drop_first());
    }
}

pub proof fn lemma_before_total(a: Seq<char>, b: Seq<char>)
    ensures
        before(a, b) || before(b, a) || a == b,
    decreases a.len(),
{
    if a.len() == 0 && b.len() == 0 {
        assert(a =~= b);
    } else if a.len() > 0 && b.len() > 0 && a[0] == b[0] {
        lemma_before_total(a.drop_first(), b.drop_first());
        if a.drop_first() == b.drop_first() {
            assert(a =~= seq![a[0]] + a.drop_first());
            assert(b =~= seq![b[0]] + b.drop_first());
        }
    }
}

/// Whether `a` comes before `b`.
pub fn comes_before(a: &str, b: &str) -> (result: bool)
    ensures
        result == before(a@, b@),
{
    let left = chars_of(a);
    let right = chars_of(b);
    let mut i: usize = 0;
    assert(a@.skip(0) =~= a@);
    assert(b@.skip(0) =~= b@);
    while i < left.len() && i < right.len()
        invariant
            i <= left.len(),
            i <= right.len(),
            left@ == a@,
            right@ == b@,
            before(a@, b@) == before(a@.skip(i as int), b@.skip(i as int)),
        decreases left.len() - i,
    {
        if left[i] != right[i] {
            return left[i] < right[i];
        }
        assert(a@.skip(i as int).drop_first() =~= a@.skip(i + 1));
        assert(b@.skip(i as int).drop_first() =~= b@.skip(i + 1));
        i += 1;
    }
    i < right.len()
}

/// A map from texts to values.
pub struct TextMap<T> {
    entries: Vec<(String, T)>,
}

/// The keys stand in ascending order, none of them twice.
pub open spec fn ascending<T>(pairs: Seq<(Seq<char>, T)>) -> bool {
    forall|i: int, j: int|
        0 <= i < j < pairs.len() ==> before((#[trigger] pairs[i]).0, (#[trigger] pairs[j]).0)
}

/// The map that a list of pairs spells out; where a key occurs twice the last counts.
pub open spec fn mapping<T>(pairs: Seq<(Seq<char>, T)>) -> Map<Seq<char>, T>
    decreases pairs.len(),
{
    if pairs.len() == 0 {
        Map::empty()
    } else {
        mapping(pairs.drop_last()).insert(pairs.last().0, pairs.last().1)
    }
}

impl<T> TextMap<T> {
    /// The keys and their values in order.
    pub closed spec fn pairs(self) -> Seq<(Seq<char>, T)> {
        self.entries@.map_values(|entry: (String, T)| (entry.0@, entry.1))
    }

    pub open spec fn ok(self) -> bool {
        ascending(self.pairs())
    }
}

impl<T> View for TextMap<T> {
    type V = Map<Seq<char>, T>;

    open spec fn view(&self) -> Map<Seq<char>, T> {
        mapping(self.pairs())
    }
}

pub proof fn lemma_mapping<T>(pairs: Seq<(Seq<char>, T)>)
    requires
        ascending(pairs),
    ensures
        forall|i: int|
            0 <= i < pairs.len() ==> mapping(pairs).contains_key((#[trigger] pairs[i]).0)
                && mapping(pairs)[pairs[i].0] == pairs[i].1,
        forall|key: Seq<char>| #[trigger]
            mapping(pairs).contains_key(key) ==> exists|i: int|
                0 <= i < pairs.len() && (#[trigger] pairs[i]).0 == key,
    decreases pairs.len(),
{
    if pairs.len() > 0 {
        let rest = pairs.drop_last();
        lemma_mapping(rest);
        assert forall|i: int| 0 <= i < pairs.len() implies mapping(pairs).contains_key(
            (#[trigger] pairs[i]).0,
        ) && mapping(pairs)[pairs[i].0] == pairs[i].1 by {
            if i < pairs.len() - 1 {
                assert(before(pairs[i].0, pairs[pairs.len() - 1].0));
                lemma_before_irreflexive(pairs[i].0);
                assert(rest[i] == pairs[i]);
            }
        }
        assert forall|key: Seq<char>| #[trigger] mapping(pairs).contains_key(key) implies exists|
            i: int,
        |
            0 <= i < pairs.len() && (#[trigger] pairs[i]).0 == key by {
            if key == pairs.last().0 {
                assert(pairs[pairs.len() - 1].0 == key);
            } else {
                assert(mapping(rest).contains_key(key));
                let i = choose|i: int| 0 <= i < rest.len() && (#[trigger] rest[i]).0 == key;
                assert(pairs[i].0 == key);
            }
        }
    }
}

/// Two lists in ascending order that spell out the same map are the same list.
pub proof fn lemma_ascending_unique<T>(a: Seq<(Seq<char>, T)>, b: Seq<(Seq<char>, T)>)
    requires
        ascending(a),
        ascending(b),
        mapping(a) == mapping(b),
    ensures
        a == b,
    decreases a.len(),
{
    lemma_mapping(a);
    lemma_mapping(b);
    if a.len() == 0 {
        if b.len() > 0 {
            assert(mapping(a).contains_key(b[0].0));
        }
        assert(a =~= b);
    } else if b.len() == 0 {
        assert(mapping(b).contains_key(a[0].0));
    } else {
        let x = a.last().0;
        let y = b.last().0;
        assert(a[a.len() - 1].0 == x);
        assert(b[b.len() - 1].0 == y);
        assert(mapping(b).contains_key(x));
        assert(mapping(a).contains_key(y));
        let i = choose|i: int| 0 <= i < b.len() && (#[trigger] b[i]).0 == x;
        let j = choose|j: int| 0 <= j < a.len() && (#[trigger] a[j]).0 == y;
        if i < b.len() - 1 {
            assert(before(b[i].0, b[b.len() - 1].0));
            if j < a.len() - 1 {
                assert(before(a[j].0, a[a.len() - 1].0));
                lemma_before_transitive(x, y, x);
            }
            lemma_before_irreflexive(x);
        }
        assert(x == y);
        assert(mapping(a)[x] == a.last().1);
        assert(mapping(b)[x] == b.last().1);
        let c = a.drop_last();
        let d = b.drop_last();
        lemma_mapping(c);
        lemma_mapping(d);
        assert(!mapping(c).contains_key(x)) by {
            if mapping(c).contains_key(x) {
                let k = choose|k: int| 0 <= k < c.len() && (#[trigger] c[k]).0 == x;
                assert(before(a[k].0, a[a.len() - 1].0));
                lemma_before_irreflexive(x);
            }
        }
        assert(!mapping(d).contains_key(x)) by {
            if mapping(d).contains_key(x) {
                let k = choose|k: int| 0 <= k < d.len() && (#[trigger] d[k]).0 == x;
                assert(before(b[k].0, b[b.len() - 1].0));
                lemma_before_irreflexive(x);
            }
        }
        assert(mapping(c) =~= mapping(a).remove(x));
        assert(mapping(d) =~= mapping(b).remove(x));
        lemma_ascending_unique(c, d);
        assert(a =~= c.push(a.last()));
        assert(b =~= d.push(b.last()));
    }
}

impl<T> TextMap<T> {
    pub fn new() -> (result: TextMap<T>)
        ensures
            result.ok(),
            result@ == Map::<Seq<char>, T>::empty(),
            result.pairs().len() == 0,
    {
        let result = TextMap { entries: Vec::new() };
        assert(result.pairs() =~= Seq::<(Seq<char>, T)>::empty());
        result
    }

    pub fn len(&self) -> (result: usize)
        ensures
            result == self.pairs().len(),
    {
        self.entries.len()
    }

    /// The key at a place of the order.
    pub fn key_at(&self, i: usize) -> (result: &str)
        requires
            i < self.pairs().len(),
        ensures
            result@ == self.pairs()[i as int].0,
    {
        self.entries[i].0.as_str()
    }

    /// The value at a place of the order.
    pub fn value_at(&self, i: usize) -> (result: &T)
        requires
            i < self.pairs().len(),
        ensures
            *result == self.pairs()[i as int].1,
    {
        &self.entries[i].1
    }

    pub fn get(&self, key: &str) -> (result: Option<&T>)
        requires
            self.ok(),
        ensures
            result is Some <==> self@.contains_key(key@),
            result matches Some(value) ==> self@[key@] == *value,
    {
        proof {
            lemma_mapping(self.pairs());
        }
        let mut i: usize = 0;
        while i < self.entries.len()
            invariant
                i <= self.entries.len(),
                self.pairs().len() == self.entries@.len(),
                forall|j: int| 0 <= j < i ==> (#[trigger] self.pairs()[j]).0 != key@,
                forall|j: int|
                    0 <= j < self.pairs().len() ==> self@.contains_key(
                        (#[trigger] self.pairs()[j]).0,
                    ) && self@[self.pairs()[j].0] == self.pairs()[j].1,
            decreases self.entries.len() - i,
        {
            assert(self.pairs()[i as int] == (self.entries@[i as int].0@, self.entries@[i as int].1));
            if same(self.entries[i].0.as_str(), key) {
                return Some(&self.entries[i].1);
            }
            i += 1;
        }
        None
    }

    /// Puts a value under a key, in place of the one that was there.
    pub fn insert(&mut self, key: String, value: T)
        requires
            old(self).ok(),
        ensures
            final(self).ok(),
            final(self)@ == old(self)@.insert(key@, value),
    {
        let ghost pairs = self.pairs();
        let mut i: usize = 0;
        while i < self.entries.len() && comes_before(self.entries[i].0.as_str(), key.as_str())
            invariant
                self.entries == old(self).entries,
                pairs == old(self).pairs(),
                pairs == self.pairs(),
                i <= self.entries.len(),
                pairs.len() == self.entries@.len(),
                forall|j: int| 0 <= j < i ==> before((#[trigger] pairs[j]).0, key@),
            decreases self.entries.len() - i,
        {
            assert(pairs[i as int] == (self.entries@[i as int].0@, self.entries@[i as int].1));
            i += 1;
        }
        if i < self.entries.len() && same(self.entries[i].0.as_str(), key.as_str()) {
            assert(pairs[i as int].0 == key@);
            let ghost entry = (key, value);
            self.entries.set(i, (key, value));
            proof {
                assert(self.pairs() =~= pairs.update(i as int, (entry.0@, value)));
                lemma_update(pairs, i as int, value);
            }
        } else {
            proof {
                if i < pairs.len() {
                    assert(pairs[i as int] == (
                        self.entries@[i as int].0@,
                        self.entries@[i as int].1,
                    ));
                    lemma_before_total(pairs[i as int].0, key@);
                }
            }
            let ghost text = key@;
            self.entries.insert(i, (key, value));
            proof {
                assert(self.pairs() =~= pairs.insert(i as int, (text, value)));
                lemma_insert(pairs, i as int, text, value);
            }
        }
    }
}

proof fn lemma_update<T>(pairs: Seq<(Seq<char>, T)>, i: int, value: T)
    requires
        ascending(pairs),
        0 <= i < pairs.len(),
    ensures
        ascending(pairs.update(i, (pairs[i].0, value))),
        mapping(pairs.update(i, (pairs[i].0, value))) == mapping(pairs).insert(pairs[i].0, value),
{
    let after = pairs.update(i, (pairs[i].0, value));
    assert forall|a: int, b: int| 0 <= a < b < after.len() implies before(
        (#[trigger] after[a]).0,
        (#[trigger] after[b]).0,
    ) by {
        assert(before(pairs[a].0, pairs[b].0));
    }
    lemma_mapping(pairs);
    lemma_mapping(after);
    assert(mapping(after) =~= mapping(pairs).insert(pairs[i].0, value)) by {
        assert forall|key: Seq<char>| mapping(after).contains_key(key) <==> mapping(pairs).insert(
            pairs[i].0,
            value,
        ).contains_key(key) by {
            if mapping(after).contains_key(key) {
                let k = choose|k: int| 0 <= k < after.len() && (#[trigger] after[k]).0 == key;
                assert(mapping(pairs).contains_key(pairs[k].0));
            }
            if mapping(pairs).contains_key(key) {
                let k = choose|k: int| 0 <= k < pairs.len() && (#[trigger] pairs[k]).0 == key;
                assert(mapping(after).contains_key(after[k].0));
            }
            assert(mapping(after).contains_key(after[i].0));
        }
        assert forall|key: Seq<char>| mapping(after).contains_key(key) implies mapping(after)[key]
            == mapping(pairs).insert(pairs[i].0, value)[key] by {
            let k = choose|k: int| 0 <= k < after.len() && (#[trigger] after[k]).0 == key;
            if k != i {
                lemma_keys_differ(pairs, k, i);
                assert(mapping(pairs)[pairs[k].0] == pairs[k].1);
            }
            assert(mapping(after)[after[k].0] == after[k].1);
        }
    }
}

proof fn lemma_keys_differ<T>(pairs: Seq<(Seq<char>, T)>, a: int, b: int)
    requires
        ascending(pairs),
        0 <= a < pairs.len(),
        0 <= b < pairs.len(),
        a != b,
    ensures
        pairs[a].0 != pairs[b].0,
{
    lemma_before_irreflexive(pairs[a].0);
    if a < b {
        assert(before(pairs[a].0, pairs[b].0));
    } else {
        assert(before(pairs[b].0, pairs[a].0));
    }
}

proof fn lemma_insert<T>(pairs: Seq<(Seq<char>, T)>, i: int, key: Seq<char>, value: T)
    requires
        ascending(pairs),
        0 <= i <= pairs.len(),
        forall|j: int| 0 <= j < i ==> before((#[trigger] pairs[j]).0, key),
        i < pairs.len() ==> before(key, pairs[i].0),
    ensures
        ascending(pairs.insert(i, (key, value))),
        mapping(pairs.insert(i, (key, value))) == mapping(pairs).insert(key, value),
{
    let after = pairs.insert(i, (key, value));
    assert forall|j: int| i <= j < pairs.len() implies before(key, (#[trigger] pairs[j]).0) by {
        if j > i {
            assert(before(pairs[i].0, pairs[j].0));
            lemma_before_transitive(key, pairs[i].0, pairs[j].0);
        }
    }
    assert forall|a: int, b: int| 0 <= a < b < after.len() implies before(
        (#[trigger] after[a]).0,
        (#[trigger] after[b]).0,
    ) by {
        if a < i {
            assert(after[a] == pairs[a]);
        } else if a > i {
            assert(after[a] == pairs[a - 1]);
        }
        if b < i {
            assert(after[b] == pairs[b]);
        } else if b > i {
            assert(after[b] == pairs[b - 1]);
        }
    }
    lemma_mapping(pairs);
    lemma_mapping(after);
    assert(mapping(after) =~= mapping(pairs).insert(key, value)) by {
        assert(after[i] == (key, value));
        assert forall|k: Seq<char>| mapping(after).contains_key(k) <==> mapping(pairs).insert(
            key,
            value,
        ).contains_key(k) by {
            if mapping(after).contains_key(k) {
                let a = choose|a: int| 0 <= a < after.len() && (#[trigger] after[a]).0 == k;
                if a < i {
                    assert(mapping(pairs).contains_key(pairs[a].0));
                } else if a > i {
                    assert(mapping(pairs).contains_key(pairs[a - 1].0));
                }
            }
            if mapping(pairs).contains_key(k) {
                let a = choose|a: int| 0 <= a < pairs.len() && (#[trigger] pairs[a]).0 == k;
                if a < i {
                    assert(mapping(after).contains_key(after[a].0));
                } else {
                    assert(mapping(after).contains_key(after[a + 1].0));
                }
            }
            assert(mapping(after).contains_key(after[i].0));
        }
        assert forall|k: Seq<char>| mapping(after).contains_key(k) implies mapping(after)[k]
            == mapping(pairs).insert(key, value)[k] by {
            let a = choose|a: int| 0 <= a < after.len() && (#[trigger] after[a]).0 == k;
            assert(mapping(after)[after[a].0] == after[a].1);
            if a != i {
                lemma_keys_differ(after, a, i);
                if a < i {
                    assert(mapping(pairs)[pairs[a].0] == pairs[a].1);
                } else {
                    assert(mapping(pairs)[pairs[a - 1].0] == pairs[a - 1].1);
                }
            }
        }
    }
}

/// The first place from `from` on whose key does not come before `key`.
spec fn place<T>(pairs: Seq<(Seq<char>, T)>, key: Seq<char>, from: int) -> int
    decreases pairs.len() - from,
{
    if from >= pairs.len() {
        pairs.len() as int
    } else if before(pairs[from].0, key) {
        place(pairs, key, from + 1)
    } else {
        from
    }
}

proof fn lemma_place<T>(pairs: Seq<(Seq<char>, T)>, key: Seq<char>, from: int)
    requires
        0 <= from <= pairs.len(),
        forall|j: int| 0 <= j < from ==> before((#[trigger] pairs[j]).0, key),
    ensures
        from <= place(pairs, key, from) <= pairs.len(),
        forall|j: int| 0 <= j < place(pairs, key, from) ==> before((#[trigger] pairs[j]).0, key),
        place(pairs, key, from) < pairs.len() ==> !before(pairs[place(pairs, key, from)].0, key),
    decreases pairs.len() - from,
{
    if from < pairs.len() && before(pairs[from].0, key) {
        lemma_place(pairs, key, from + 1);
    }
}

/// Every list of pairs can be brought into order.
pub proof fn lemma_arrangement<T>(pairs: Seq<(Seq<char>, T)>) -> (list: Seq<(Seq<char>, T)>)
    ensures
        ascending(list),
        mapping(list) == mapping(pairs),
    decreases pairs.len(),
{
    if pairs.len() == 0 {
        pairs
    } else {
        let rest = lemma_arrangement(pairs.drop_last());
        let (key, value) = pairs.last();
        lemma_place(rest, key, 0);
        let i = place(rest, key, 0);
        if i < rest.len() && rest[i].0 == key {
            lemma_update(rest, i, value);
            rest.update(i, (key, value))
        } else {
            if i < rest.len() {
                lemma_before_total(rest[i].0, key);
            }
            lemma_insert(rest, i, key, value);
            rest.insert(i, (key, value))
        }
    }
}

/// Texts are ordered by the first character in which they differ, and a text comes before every
/// longer one that starts with it; of two different texts exactly one comes first.
pub proof fn law_texts_are_ordered(start: Seq<char>, a: char, b: char, x: Seq<char>, y: Seq<char>)
    ensures
        a < b ==> before(start + seq![a] + x, start + seq![b] + y),
        before(start, start + seq![a] + x),
        !before(start + seq![a] + x, start),
        !before(x, x),
        x != y ==> (before(x, y) <==> !before(y, x)),
    decreases start.len(),
{
    lemma_before_irreflexive(x);
    lemma_before_total(x, y);
    if before(x, y) && before(y, x) {
        lemma_before_transitive(x, y, x);
    }
    let left = start + seq![a] + x;
    let right = start + seq![b] + y;
    if start.len() > 0 {
        let rest = start.drop_first();
        law_texts_are_ordered(rest, a, b, x, y);
        assert(left.drop_first() =~= rest + seq![a] + x);
        assert(right.drop_first() =~= rest + seq![b] + y);
    }
}

/// What was put under a key last is what stands there.
pub proof fn law_the_last_pair_counts<T>(pairs: Seq<(Seq<char>, T)>, key: Seq<char>, value: T)
    ensures
        mapping(pairs.push((key, value))) == mapping(pairs).insert(key, value),
        mapping(Seq::<(Seq<char>, T)>::empty()) == Map::<Seq<char>, T>::empty(),
{
    assert(pairs.push((key, value)).drop_last() =~= pairs);
}

} // verus!
