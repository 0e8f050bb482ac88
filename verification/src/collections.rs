//! Maps and sets keyed by text or by path, kept in the order in which their keys first came.

use vstd::prelude::*;
use std::marker::PhantomData;
use crate::paths;
use crate::text;

verus! {

/// How texts stand for keys.
pub trait KeyKind {
    /// A key.
    type Key;

    /// The key that a text stands for.
    spec fn key_of(text: Seq<char>) -> Self::Key;

    /// Whether two texts stand for one key.
    fn is_same_key(a: &str, b: &str) -> (r: bool)
        ensures
            r == (Self::key_of(a@) == Self::key_of(b@)),
    ;
}

/// Every text is a key of its own.
pub struct ByText;

impl KeyKind for ByText {
    type Key = Seq<char>;

    open spec fn key_of(text: Seq<char>) -> Seq<char> {
        text
    }

    fn is_same_key(a: &str, b: &str) -> (r: bool) {
        text::same_text(a, b)
    }
}

/// A text stands for a path, in whichever spelling.
pub struct ByPath;

impl KeyKind for ByPath {
    type Key = Seq<Seq<char>>;

    open spec fn key_of(text: Seq<char>) -> Seq<Seq<char>> {
        paths::components(text)
    }

    fn is_same_key(a: &str, b: &str) -> (r: bool) {
        paths::is_same_path(a, b)
    }
}

/// A map from keys to values; no key occurs twice.
pub struct KeyedMap<K: KeyKind, V> {
    entries: Vec<(String, V)>,
    kind: PhantomData<K>,
}

/// A map from texts to values.
pub type TextMap<V> = KeyedMap<ByText, V>;

/// A map from paths to values.
pub type PathMap<V> = KeyedMap<ByPath, V>;

spec fn by_key<K: KeyKind, V>(s: Seq<(String, V)>) -> Seq<(K::Key, V)> {
    Seq::new(s.len(), |i: int| (K::key_of(s[i].0@), s[i].1))
}

impl<K: KeyKind, V> KeyedMap<K, V> {
    #[verifier::type_invariant]
    spec fn distinct(self) -> bool {
        distinct_keys(by_key::<K, V>(self.entries@))
    }

    /// The value of each key.
    pub closed spec fn view(&self) -> Map<K::Key, V> {
        as_map(by_key::<K, V>(self.entries@))
    }

    /// The empty map.
    pub fn new() -> (r: Self)
        ensures
            r@ == Map::<K::Key, V>::empty(),
    {
        let r = KeyedMap { entries: Vec::new(), kind: PhantomData };
        assert(r@ =~= Map::<K::Key, V>::empty());
        r
    }

    /// Index of the entry with this key, if there is one.
    fn position(&self, key: &str) -> (r: Option<usize>)
        ensures
            match r {
                Some(i) => i < self.entries@.len() && K::key_of(self.entries@[i as int].0@) == K::key_of(key@),
                None => !has_key(by_key::<K, V>(self.entries@), K::key_of(key@)),
            },
    {
        let mut i: usize = 0;
        while i < self.entries.len()
            invariant
                i <= self.entries@.len(),
                forall|j: int|
                    0 <= j < i ==> K::key_of((#[trigger] self.entries@[j]).0@) != K::key_of(
                        key@,
                    ),
            decreases self.entries@.len() - i,
        {
            if K::is_same_key(self.entries[i].0.as_str(), key) {
                return Some(i);
            }
            i = i + 1;
        }
        None
    }

    /// The value of `key`.
    pub fn get(&self, key: &str) -> (r: Option<&V>)
        ensures
            match r {
                Some(v) => self@.contains_key(K::key_of(key@)) && *v == self@[K::key_of(key@)],
                None => !self@.contains_key(K::key_of(key@)),
            },
    {
        proof {
            use_type_invariant(self);
        }
        match self.position(key) {
            Some(i) => {
                proof {
                    lemma_entry(by_key::<K, V>(self.entries@), i as int);
                }
                Some(&self.entries[i].1)
            },
            None => None,
        }
    }

    /// Sets the value of `key`.
    pub fn insert(&mut self, key: String, value: V)
        ensures
            final(self)@ == old(self)@.insert(K::key_of(key@), value),
    {
        proof {
            use_type_invariant(&*self);
        }
        let at = self.position(key.as_str());
        let ghost before = by_key::<K, V>(self.entries@);
        let mut entries: Vec<(String, V)> = Vec::new();
        std::mem::swap(&mut entries, &mut self.entries);
        match at {
            Some(i) => {
                entries[i].1 = value;
                proof {
                    lemma_set(before, i as int, value);
                    assert(by_key::<K, V>(entries@) =~= before.update(
                        i as int,
                        (before[i as int].0, value),
                    ));
                }
            },
            None => {
                entries.push((key, value));
                proof {
                    lemma_push(before, K::key_of(key@), value);
                    assert(by_key::<K, V>(entries@) =~= before.push((K::key_of(key@), value)));
                }
            },
        }
        self.entries = entries;
    }
}

spec fn distinct_keys<K, V>(s: Seq<(K, V)>) -> bool {
    forall|i: int, j: int|
        0 <= i < s.len() && 0 <= j < s.len() && (#[trigger] s[i]).0 == (#[trigger] s[j]).0 ==> i
            == j
}

spec fn key_at<K, V>(s: Seq<(K, V)>, key: K, i: int) -> bool {
    0 <= i < s.len() && s[i].0 == key
}

spec fn has_key<K, V>(s: Seq<(K, V)>, key: K) -> bool {
    exists|i: int| key_at(s, key, i)
}

spec fn as_map<K, V>(s: Seq<(K, V)>) -> Map<K, V> {
    Map::new(|k: K| has_key(s, k), |k: K| s[choose|i: int| key_at(s, k, i)].1)
}

proof fn lemma_entry<K, V>(s: Seq<(K, V)>, i: int)
    requires
        distinct_keys(s),
        0 <= i < s.len(),
    ensures
        as_map(s).contains_key(s[i].0),
        as_map(s)[s[i].0] == s[i].1,
{
    assert(key_at(s, s[i].0, i));
}

proof fn lemma_set<K, V>(s: Seq<(K, V)>, i: int, value: V)
    requires
        distinct_keys(s),
        0 <= i < s.len(),
    ensures
        distinct_keys(s.update(i, (s[i].0, value))),
        as_map(s.update(i, (s[i].0, value))) == as_map(s).insert(s[i].0, value),
{
    let t = s.update(i, (s[i].0, value));
    let key = s[i].0;
    assert forall|a: int, b: int|
        0 <= a < t.len() && 0 <= b < t.len() && (#[trigger] t[a]).0 == (#[trigger] t[b]).0 implies a
        == b by {
        assert(s[a].0 == s[b].0);
    }
    assert(forall|k: K, j: int| key_at(t, k, j) == key_at(s, k, j));
    assert(as_map(t) =~= as_map(s).insert(key, value)) by {
        assert forall|k: K| #[trigger] has_key(t, k) implies as_map(t)[k] == as_map(
            s,
        ).insert(key, value)[k] by {
            let j = choose|j: int| key_at(t, k, j);
            lemma_entry(t, j);
            assert(key_at(s, k, j));
            lemma_entry(s, j);
        }
        assert forall|k: K| has_key(t, k) == (has_key(s, k) || k == key) by {
            if has_key(s, k) {
                let j = choose|j: int| key_at(s, k, j);
                assert(key_at(t, k, j));
            }
            if has_key(t, k) {
                let j = choose|j: int| key_at(t, k, j);
                assert(key_at(s, k, j));
            }
            if k == key {
                assert(key_at(t, k, i));
            }
        }
    }
}

proof fn lemma_push<K, V>(s: Seq<(K, V)>, key: K, value: V)
    requires
        distinct_keys(s),
        !has_key(s, key),
    ensures
        distinct_keys(s.push((key, value))),
        as_map(s.push((key, value))) == as_map(s).insert(key, value),
{
    let t = s.push((key, value));
    assert forall|a: int, b: int|
        0 <= a < t.len() && 0 <= b < t.len() && (#[trigger] t[a]).0 == (#[trigger] t[b]).0 implies a
        == b by {
        if a < s.len() && b < s.len() {
            assert(s[a].0 == s[b].0);
        } else if a < s.len() {
            assert(key_at(s, key, a));
        } else if b < s.len() {
            assert(key_at(s, key, b));
        }
    }
    assert(as_map(t) =~= as_map(s).insert(key, value)) by {
        assert forall|k: K| has_key(t, k) == (has_key(s, k) || k == key) by {
            if has_key(s, k) {
                let j = choose|j: int| key_at(s, k, j);
                assert(key_at(t, k, j));
            }
            if has_key(t, k) {
                let j = choose|j: int| key_at(t, k, j);
                if j < s.len() {
                    assert(key_at(s, k, j));
                }
            }
            if k == key {
                assert(key_at(t, k, s.len() as int));
            }
        }
        assert forall|k: K| #[trigger] has_key(t, k) implies as_map(t)[k] == as_map(
            s,
        ).insert(key, value)[k] by {
            let j = choose|j: int| key_at(t, k, j);
            lemma_entry(t, j);
            if j < s.len() {
                assert(key_at(s, k, j));
                lemma_entry(s, j);
            }
        }
    }
}

/// A set of texts; none occurs twice.
pub struct TextSet {
    members: TextMap<()>,
}

impl TextSet {
    /// The members.
    pub closed spec fn view(&self) -> Set<Seq<char>> {
        self.members@.dom()
    }

    /// The empty set.
    pub fn new() -> (r: Self)
        ensures
            r@ == Set::<Seq<char>>::empty(),
    {
        let r = TextSet { members: TextMap::new() };
        assert(r@ =~= Set::<Seq<char>>::empty());
        r
    }

    /// Adds a text.
    pub fn insert(&mut self, text: String)
        ensures
            final(self)@ == old(self)@.insert(text@),
    {
        let ghost before = self.members@;
        self.members.insert(text, ());
        assert(self@ =~= before.dom().insert(text@));
    }

    /// Whether the text is a member.
    pub fn contains(&self, text: &str) -> (r: bool)
        ensures
            r == self@.contains(text@),
    {
        self.members.get(text).is_some()
    }
}

/// Every text is its own key, and every path one key in all its spellings.
pub proof fn law_keys(a: Seq<char>, b: Seq<char>)
    ensures
        ByText::key_of(a) == ByText::key_of(b) <==> a == b,
        ByPath::key_of(a) == ByPath::key_of(b) <==> paths::same_path(a, b),
        ByPath::key_of(a) == paths::components(a),
{
}

} // verus!
