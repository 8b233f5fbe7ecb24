//! A finite map from text to text that hands out its entries in the order
//! of their keys.

use crate::text::{
    chars_eq, chars_lt, chars_of, lemma_lex_irreflexive, lemma_lex_total, lemma_lex_transitive,
    lex_lt,
};
use vstd::prelude::*;

verus! {

/// One entry of a `TextMap`.
struct Entry {
    key: String,
    value: String,
}

/// A map from text to text. Each key occurs once, and the entries stand in
/// the lexicographic order of their keys.
pub struct TextMap {
    entries: Vec<Entry>,
}

/// Whether the keys of `s` go up strictly from each entry to the next.
pub open spec fn is_ascending(s: Seq<(Seq<char>, Seq<char>)>) -> bool {
    forall|i: int, j: int| 0 <= i < j < s.len() ==> lex_lt(#[trigger] s[i].0, #[trigger] s[j].0)
}

/// The map that holds the entries of `s`; a later entry wins over an
/// earlier one with the same key.
pub open spec fn map_of(s: Seq<(Seq<char>, Seq<char>)>) -> Map<Seq<char>, Seq<char>>
    decreases s.len(),
{
    if s.len() == 0 {
        Map::empty()
    } else {
        map_of(s.drop_last()).insert(s.last().0, s.last().1)
    }
}

/// The keys of `map_of(s)` are the keys that occur in `s`.
pub proof fn lemma_map_of_keys(s: Seq<(Seq<char>, Seq<char>)>)
    ensures
        forall|k: Seq<char>|
            map_of(s).contains_key(k) <==> exists|i: int| 0 <= i < s.len() && (#[trigger] s[i]).0 == k,
    decreases s.len(),
{
    if s.len() > 0 {
        let t = s.drop_last();
        lemma_map_of_keys(t);
        assert forall|k: Seq<char>| map_of(s).contains_key(k) implies exists|i: int|
            0 <= i < s.len() && (#[trigger] s[i]).0 == k by {
            if k != s.last().0 {
                assert(map_of(t).contains_key(k));
                let i = choose|i: int| 0 <= i < t.len() && (#[trigger] t[i]).0 == k;
                assert(s[i].0 == k);
            }
        }
        assert forall|k: Seq<char>|
            (exists|i: int| 0 <= i < s.len() && (#[trigger] s[i]).0 == k) implies map_of(
            s,
        ).contains_key(k) by {
            let i = choose|i: int| 0 <= i < s.len() && (#[trigger] s[i]).0 == k;
            if i < t.len() {
                assert(t[i] == s[i]);
                assert(map_of(t).contains_key(k));
            }
        }
    }
}

/// Where no key occurs twice, `map_of(s)` maps each key to the value that
/// stands beside it.
pub proof fn lemma_map_of_values(s: Seq<(Seq<char>, Seq<char>)>, i: int)
    requires
        0 <= i < s.len(),
        forall|a: int, b: int| 0 <= a < b < s.len() ==> (#[trigger] s[a]).0 != (#[trigger] s[b]).0,
    ensures
        map_of(s).contains_key(s[i].0),
        map_of(s)[s[i].0] == s[i].1,
    decreases s.len(),
{
    if i < s.len() - 1 {
        lemma_map_of_values(s.drop_last(), i);
    }
}

/// Keys that go up strictly are all different.
pub proof fn lemma_ascending_distinct(s: Seq<(Seq<char>, Seq<char>)>)
    requires
        is_ascending(s),
    ensures
        forall|a: int, b: int| 0 <= a < b < s.len() ==> (#[trigger] s[a]).0 != (#[trigger] s[b]).0,
{
    assert forall|a: int, b: int| 0 <= a < b < s.len() implies (#[trigger] s[a]).0 != (
    #[trigger] s[b]).0 by {
        lemma_lex_irreflexive(s[a].0);
    }
}

/// Putting a new key at its place in the order adds it to the map.
pub proof fn lemma_map_of_insert(s: Seq<(Seq<char>, Seq<char>)>, at: int, e: (Seq<char>, Seq<char>))
    requires
        0 <= at <= s.len(),
        forall|i: int| 0 <= i < s.len() ==> (#[trigger] s[i]).0 != e.0,
    ensures
        map_of(s.insert(at, e)) == map_of(s).insert(e.0, e.1),
    decreases s.len() - at,
{
    if at == s.len() {
        assert(s.insert(at, e) =~= s.push(e));
        assert(s.push(e).drop_last() =~= s);
    } else {
        let t = s.drop_last();
        assert(s.insert(at, e).drop_last() =~= t.insert(at, e));
        lemma_map_of_insert(t, at, e);
    }
}

/// Giving a key that occurs once a new value updates the map.
pub proof fn lemma_map_of_update(s: Seq<(Seq<char>, Seq<char>)>, at: int, value: Seq<char>)
    requires
        0 <= at < s.len(),
        forall|a: int, b: int| 0 <= a < b < s.len() ==> (#[trigger] s[a]).0 != (#[trigger] s[b]).0,
    ensures
        map_of(s.update(at, (s[at].0, value))) == map_of(s).insert(s[at].0, value),
    decreases s.len(),
{
    let t = s.drop_last();
    let r = s.update(at, (s[at].0, value));
    if at == s.len() - 1 {
        assert(r.drop_last() =~= t);
    } else {
        assert(r.drop_last() =~= t.update(at, (t[at].0, value)));
        lemma_map_of_update(t, at, value);
    }
}

impl TextMap {
    /// The entries in order, each a key and its value.
    pub closed spec fn entries(&self) -> Seq<(Seq<char>, Seq<char>)> {
        Seq::new(self.entries@.len(), |i: int| (self.entries@[i].key@, self.entries@[i].value@))
    }

    /// The entries stand in the strict order of their keys.
    #[verifier::type_invariant]
    pub open spec fn ordered(&self) -> bool {
        is_ascending(self.entries())
    }

    /// The map without entries.
    pub fn new() -> (out: TextMap)
        ensures
            out.entries() == Seq::<(Seq<char>, Seq<char>)>::empty(),
            out@ == Map::<Seq<char>, Seq<char>>::empty(),
    {
        TextMap { entries: Vec::new() }
    }

    /// The number of entries.
    pub fn len(&self) -> (n: usize)
        ensures
            n == self.entries().len(),
    {
        self.entries.len()
    }

    /// The key of the entry at position `i`.
    pub fn key_at(&self, i: usize) -> (key: &String)
        requires
            i < self.entries().len(),
        ensures
            key@ == self.entries()[i as int].0,
    {
        &self.entries[i].key
    }

    /// The value of the entry at position `i`.
    pub fn value_at(&self, i: usize) -> (value: &String)
        requires
            i < self.entries().len(),
        ensures
            value@ == self.entries()[i as int].1,
    {
        &self.entries[i].value
    }

    /// The position of the first entry whose key does not come before
    /// `key`.
    fn lower_bound(&self, key: &Vec<char>) -> (at: usize)
        ensures
            at <= self.entries().len(),
            forall|i: int| 0 <= i < at ==> lex_lt(#[trigger] self.entries()[i].0, key@),
            at < self.entries().len() ==> !lex_lt(self.entries()[at as int].0, key@),
    {
        let mut at: usize = 0;
        while at < self.entries.len()
            invariant
                at <= self.entries().len(),
                self.entries().len() == self.entries@.len(),
                forall|i: int| 0 <= i < at ==> lex_lt(#[trigger] self.entries()[i].0, key@),
            decreases self.entries.len() - at,
        {
            let here = chars_of(self.entries[at].key.as_str());
            if !chars_lt(&here, key) {
                return at;
            }
            at += 1;
        }
        at
    }

    /// The value of `key`, where the map has one.
    pub fn get(&self, key: &String) -> (out: Option<&String>)
        ensures
            match out {
                Some(value) => self@.contains_key(key@) && self@[key@] == value@,
                None => !self@.contains_key(key@),
            },
    {
        let wanted = chars_of(key.as_str());
        let at = self.lower_bound(&wanted);
        proof {
            use_type_invariant(self);
            lemma_map_of_keys(self.entries());
            lemma_ascending_distinct(self.entries());
        }
        if at < self.entries.len() {
            let here = chars_of(self.entries[at].key.as_str());
            if chars_eq(&here, &wanted) {
                proof {
                    lemma_map_of_values(self.entries(), at as int);
                }
                return Some(&self.entries[at].value);
            }
        }
        proof {
            let s = self.entries();
            if self@.contains_key(key@) {
                let i = choose|i: int| 0 <= i < s.len() && (#[trigger] s[i]).0 == key@;
                if i < at {
                    lemma_lex_irreflexive(key@);
                }
            }
        }
        None
    }

    /// Whether the map has a value for `key`.
    pub fn contains_key(&self, key: &String) -> (r: bool)
        ensures
            r == self@.contains_key(key@),
    {
        self.get(key).is_some()
    }

    /// Gives `key` the value `value`, whether or not it had one.
    pub fn insert(&mut self, key: String, value: String)
        ensures
            final(self)@ == old(self)@.insert(key@, value@),
    {
        let wanted = chars_of(key.as_str());
        let at = self.lower_bound(&wanted);
        let ghost before = self.entries();
        proof {
            use_type_invariant(&*self);
            lemma_ascending_distinct(before);
        }
        let replace = if at < self.entries.len() {
            let here = chars_of(self.entries[at].key.as_str());
            chars_eq(&here, &wanted)
        } else {
            false
        };
        let ghost after = if replace {
            before.update(at as int, (before[at as int].0, value@))
        } else {
            before.insert(at as int, (key@, value@))
        };
        let skip: usize = if replace {
            at + 1
        } else {
            at
        };
        let mut entries: Vec<Entry> = Vec::new();
        let mut i: usize = 0;
        while i < at
            invariant
                i <= at <= self.entries@.len(),
                entries.len() == i,
                forall|j: int|
                    0 <= j < i ==> (#[trigger] entries@[j]).key@ == self.entries@[j].key@
                        && entries@[j].value@ == self.entries@[j].value@,
            decreases at - i,
        {
            let entry = Entry {
                key: self.entries[i].key.clone(),
                value: self.entries[i].value.clone(),
            };
            entries.push(entry);
            i += 1;
        }
        entries.push(Entry { key, value });
        let mut i: usize = skip;
        while i < self.entries.len()
            invariant
                at <= skip <= i <= self.entries@.len(),
                entries.len() == at + 1 + (i - skip),
                skip == at || skip == at + 1,
                entries@[at as int].key@ == key@,
                entries@[at as int].value@ == value@,
                forall|j: int|
                    0 <= j < at ==> (#[trigger] entries@[j]).key@ == self.entries@[j].key@
                        && entries@[j].value@ == self.entries@[j].value@,
                forall|j: int|
                    skip <= j < i ==> (#[trigger] entries@[at + 1 + (j - skip)]).key@
                        == self.entries@[j].key@ && entries@[at + 1 + (j - skip)].value@
                        == self.entries@[j].value@,
            decreases self.entries.len() - i,
        {
            let entry = Entry {
                key: self.entries[i].key.clone(),
                value: self.entries[i].value.clone(),
            };
            entries.push(entry);
            i += 1;
        }
        proof {
            let built = Seq::new(entries@.len(), |i: int| (entries@[i].key@, entries@[i].value@));
            assert forall|j: int| 0 <= j < built.len() implies built[j] == after[j] by {
                if j > at {
                    let k = j - (at + 1) + skip;
                    assert(entries@[at + 1 + (k - skip)].key@ == self.entries@[k].key@);
                }
            }
            assert(built =~= after);
            if replace {
                lemma_map_of_update(before, at as int, value@);
            } else {
                assert forall|i: int| 0 <= i < before.len() implies (#[trigger] before[i]).0
                    != key@ by {
                    if i < at {
                        lemma_lex_irreflexive(key@);
                    } else {
                        lemma_lex_total(before[at as int].0, key@);
                    }
                }
                lemma_map_of_insert(before, at as int, (key@, value@));
                assert forall|i: int, j: int| 0 <= i < j < after.len() implies lex_lt(
                    #[trigger] after[i].0,
                    #[trigger] after[j].0,
                ) by {
                    if i == at && j > at {
                        lemma_lex_total(before[at as int].0, key@);
                        if j - 1 > at {
                            lemma_lex_transitive(key@, before[at as int].0, before[j - 1].0);
                        }
                    }
                }
            }
        }
        self.entries = entries;
    }
}

impl View for TextMap {
    type V = Map<Seq<char>, Seq<char>>;

    open spec fn view(&self) -> Map<Seq<char>, Seq<char>> {
        map_of(self.entries())
    }
}

} // verus!
