//! An ordered map from strings to values.
//!
//! Keys are kept strictly increasing in the order `String`'s `Ord` uses
//! (code-point lexicographic order, which is the byte order of UTF-8), so
//! the map iterates as a `BTreeMap<String, V>` does.
//!
//! The entries are a vector with a sortedness invariant rather than a
//! `BTreeMap` or `HashMap`: vstd's specifications of those maps only say
//! what they hold for key types known to obey vstd's ordering or hashing
//! model (`obeys_cmp`, `obeys_key_model`), and `String` is not among them,
//! so no contract over a `String`-keyed std map could be proved.

use vstd::prelude::*;
use crate::text::chars_of;

verus! {

/// Strict lexicographic order on character sequences.
pub open spec fn lex_lt(a: Seq<char>, b: Seq<char>) -> bool
    decreases a.len(),
{
    if a.len() == 0 {
        b.len() > 0
    } else if b.len() == 0 {
        false
    } else if a[0] != b[0] {
        a[0] < b[0]
    } else {
        lex_lt(a.drop_first(), b.drop_first())
    }
}

/// `lex_lt` is irreflexive and total on distinct sequences.
pub proof fn lemma_lex_trichotomy(a: Seq<char>, b: Seq<char>)
    ensures
        !(lex_lt(a, b) && lex_lt(b, a)),
        a != b ==> lex_lt(a, b) || lex_lt(b, a),
        !lex_lt(a, a),
    decreases a.len(),
{
    if a.len() > 0 && b.len() > 0 && a[0] == b[0] {
        lemma_lex_trichotomy(a.drop_first(), b.drop_first());
        if a != b {
            assert(a.drop_first() != b.drop_first()) by {
                if a.drop_first() == b.drop_first() {
                    assert(a.len() == b.len());
                    assert forall|i: int| 0 <= i < a.len() implies a[i] == b[i] by {
                        if i > 0 {
                            assert(a[i] == a.drop_first()[i - 1]);
                            assert(b[i] == b.drop_first()[i - 1]);
                        }
                    }
                    assert(a =~= b);
                }
            }
        }
    }
    if a.len() > 0 {
        lemma_lex_trichotomy(a.drop_first(), a.drop_first());
    }
    if a.len() == 0 && b.len() == 0 {
        assert(a =~= b);
    }
}

/// `lex_lt` is transitive.
pub proof fn lemma_lex_transitive(a: Seq<char>, b: Seq<char>, c: Seq<char>)
    requires
        lex_lt(a, b),
        lex_lt(b, c),
    ensures
        lex_lt(a, c),
    decreases a.len(),
{
    if a.len() > 0 && b.len() > 0 && c.len() > 0 && a[0] == b[0] && b[0] == c[0] {
        lemma_lex_transitive(a.drop_first(), b.drop_first(), c.drop_first());
    }
}

/// `a < b` in string order.
pub fn lex_less(a: &str, b: &str) -> (r: bool)
    ensures
        r == lex_lt(a@, b@),
{
    let x = chars_of(a);
    let y = chars_of(b);
    let mut i: usize = 0;
    assert(x@.skip(0) == x@);
    assert(y@.skip(0) == y@);
    while i < x.len() && i < y.len() && x[i] == y[i]
        invariant
            i <= x.len(),
            i <= y.len(),
            lex_lt(x@, y@) == lex_lt(x@.skip(i as int), y@.skip(i as int)),
        decreases x.len() - i,
    {
        assert(x@.skip(i as int).drop_first() == x@.skip(i + 1));
        assert(y@.skip(i as int).drop_first() == y@.skip(i + 1));
        i += 1;
    }
    if i == x.len() {
        i < y.len()
    } else if i == y.len() {
        false
    } else {
        x[i] < y[i]
    }
}

/// Keys strictly increase along the entries.
pub open spec fn sorted_keys<V>(s: Seq<(String, V)>) -> bool {
    forall|i: int, j: int|
        0 <= i < j < s.len() ==> lex_lt(#[trigger] s[i].0@, #[trigger] s[j].0@)
}

/// Some entry has key `k`.
pub open spec fn has_key<V>(s: Seq<(String, V)>, k: Seq<char>) -> bool {
    exists|i: int| 0 <= i < s.len() && s[i].0@ == k
}

/// The map of `s`: each key to its value.
pub open spec fn map_of<V>(s: Seq<(String, V)>) -> Map<Seq<char>, V> {
    Map::new(|k: Seq<char>| has_key(s, k), |k: Seq<char>| value_at(s, k))
}

/// The value of the first entry with key `k`.
pub open spec fn value_at<V>(s: Seq<(String, V)>, k: Seq<char>) -> V {
    s[key_index(s, k)].1
}

/// The index of the first entry with key `k`, or `s.len()`.
pub open spec fn key_index<V>(s: Seq<(String, V)>, k: Seq<char>) -> int
    decreases s.len(),
{
    if s.len() == 0 {
        0
    } else if s[0].0@ == k {
        0
    } else {
        1 + key_index(s.drop_first(), k)
    }
}

/// Facts about [`key_index`].
pub proof fn lemma_key_index<V>(s: Seq<(String, V)>, k: Seq<char>)
    ensures
        0 <= key_index(s, k) <= s.len(),
        forall|j: int| 0 <= j < key_index(s, k) ==> s[j].0@ != k,
        key_index(s, k) < s.len() ==> s[key_index(s, k)].0@ == k,
        (key_index(s, k) < s.len()) == has_key(s, k),
    decreases s.len(),
{
    if s.len() > 0 && s[0].0@ != k {
        lemma_key_index(s.drop_first(), k);
        assert forall|j: int| 0 <= j < key_index(s, k) implies s[j].0@ != k by {
            if j > 0 {
                assert(s[j] == s.drop_first()[j - 1]);
            }
        }
        if has_key(s, k) {
            let q = choose|q: int| 0 <= q < s.len() && s[q].0@ == k;
            assert(s.drop_first()[q - 1].0@ == k);
        }
        if has_key(s.drop_first(), k) {
            let q = choose|q: int| 0 <= q < s.drop_first().len() && s.drop_first()[q].0@ == k;
            assert(s[q + 1].0@ == k);
        }
    }
}

/// The keys of `s`, in order.
pub open spec fn keys_of<V>(s: Seq<(String, V)>) -> Seq<Seq<char>> {
    s.map_values(|e: (String, V)| e.0@)
}

/// With sorted keys, the entry at `i` is the one the map holds for its key.
pub proof fn lemma_map_at<V>(s: Seq<(String, V)>, i: int)
    requires
        sorted_keys(s),
        0 <= i < s.len(),
    ensures
        map_of(s).contains_key(s[i].0@),
        map_of(s)[s[i].0@] == s[i].1,
{
    let k = s[i].0@;
    assert(has_key(s, k));
    lemma_key_index(s, k);
    let j = key_index(s, k);
    assert(map_of(s).contains_key(k));
    assert(map_of(s)[k] == value_at(s, k));
    if j != i {
        if j < i {
            assert(lex_lt(s[j].0@, s[i].0@));
        } else {
            assert(lex_lt(s[i].0@, s[j].0@));
        }
        lemma_lex_trichotomy(k, k);
    }
}

/// A map with sorted keys has one entry per key.
pub proof fn lemma_map_len<V>(s: Seq<(String, V)>)
    requires
        sorted_keys(s),
    ensures
        map_of(s).dom().finite(),
        map_of(s).len() == s.len(),
{
    let keys = keys_of(s);
    assert(keys.no_duplicates()) by {
        assert forall|i: int, j: int|
            0 <= i < keys.len() && 0 <= j < keys.len() && i != j implies keys[i] != keys[j] by {
            if i < j {
                assert(lex_lt(s[i].0@, s[j].0@));
            } else {
                assert(lex_lt(s[j].0@, s[i].0@));
            }
            lemma_lex_trichotomy(s[i].0@, s[j].0@);
        }
    }
    keys.unique_seq_to_set();
    assert(map_of(s).dom() =~= keys.to_set()) by {
        assert forall|k: Seq<char>| map_of(s).dom().contains(k) implies keys.to_set().contains(k) by {
            let i = choose|i: int| 0 <= i < s.len() && s[i].0@ == k;
            assert(keys[i] == k);
        }
        assert forall|k: Seq<char>| keys.to_set().contains(k) implies map_of(s).dom().contains(k) by {
            let i = choose|i: int| 0 <= i < keys.len() && keys[i] == k;
            assert(s[i].0@ == k);
        }
    }
}

/// An ordered map from strings to values.
#[derive(Debug)]
pub struct TextMap<V> {
    entries: Vec<(String, V)>,
}

impl<V> TextMap<V> {
    /// Keys strictly increase.
    #[verifier::type_invariant]
    spec fn inv(self) -> bool {
        sorted_keys(self.entries@)
    }

    /// The mapping from keys to values.
    pub open spec fn map(&self) -> Map<Seq<char>, V> {
        map_of(self.entries_seq())
    }

    /// The entries in key order.
    pub closed spec fn entries_seq(&self) -> Seq<(String, V)> {
        self.entries@
    }

    /// The empty map.
    pub fn new() -> (m: Self)
        ensures
            m.map() == Map::<Seq<char>, V>::empty(),
            m.entries_seq().len() == 0,
    {
        let m = TextMap { entries: Vec::new() };
        assert(map_of(m.entries@) =~= Map::<Seq<char>, V>::empty());
        m
    }

    /// Position of key `k`, or the position where it would be inserted.
    fn locate(&self, k: &str) -> (r: (usize, bool))
        ensures
            r.0 <= self.entries@.len(),
            forall|j: int| 0 <= j < r.0 ==> lex_lt(#[trigger] self.entries@[j].0@, k@),
            r.1 ==> r.0 < self.entries@.len() && self.entries@[r.0 as int].0@ == k@,
            !r.1 ==> r.0 == self.entries@.len() || lex_lt(k@, self.entries@[r.0 as int].0@),
    {
        proof {
            use_type_invariant(self);
        }
        let mut i: usize = 0;
        while i < self.entries.len()
            invariant
                i <= self.entries@.len(),
                forall|j: int| 0 <= j < i ==> lex_lt(#[trigger] self.entries@[j].0@, k@),
            decreases self.entries.len() - i,
        {
            let e = &self.entries[i];
            if !lex_less(e.0.as_str(), k) {
                proof {
                    lemma_lex_trichotomy(e.0@, k@);
                }
                let eq = crate::text::str_eq(e.0.as_str(), k);
                return (i, eq);
            }
            i += 1;
        }
        (i, false)
    }

    /// The value for `k`, if any.
    pub fn get(&self, k: &str) -> (r: Option<&V>)
        ensures
            r is Some <==> self.map().contains_key(k@),
            r matches Some(v) ==> *v == self.map()[k@],
    {
        proof {
            use_type_invariant(self);
        }
        let (i, found) = self.locate(k);
        if found {
            proof {
                lemma_map_at(self.entries@, i as int);
            }
            Some(&self.entries[i].1)
        } else {
            proof {
                if has_key(self.entries@, k@) {
                    let j = choose|j: int|
                        0 <= j < self.entries@.len() && self.entries@[j].0@ == k@;
                    if j < i {
                        lemma_lex_trichotomy(k@, k@);
                    } else {
                        assert(i < self.entries@.len());
                        if j > i {
                            assert(lex_lt(self.entries@[i as int].0@, self.entries@[j].0@));
                            lemma_lex_transitive(k@, self.entries@[i as int].0@, k@);
                        }
                        lemma_lex_trichotomy(k@, k@);
                    }
                }
            }
            None
        }
    }

    /// Whether `k` has a value.
    pub fn contains_key(&self, k: &str) -> (r: bool)
        ensures
            r == self.map().contains_key(k@),
    {
        self.get(k).is_some()
    }

    /// Set the value of `k`, replacing any earlier one.
    pub fn insert(&mut self, k: String, v: V)
        ensures
            final(self).map() == old(self).map().insert(k@, v),
    {
        proof {
            use_type_invariant(&*self);
        }
        let (i, found) = self.locate(k.as_str());
        let ghost s = self.entries@;
        let ghost key = k@;
        let mut entries: Vec<(String, V)> = Vec::new();
        std::mem::swap(&mut entries, &mut self.entries);
        if found {
            entries.set(i, (k, v));
            proof {
                let t = entries@;
                assert forall|a: int, b: int| 0 <= a < b < t.len() implies lex_lt(
                    #[trigger] t[a].0@,
                    #[trigger] t[b].0@,
                ) by {
                    assert(t[a].0@ == s[a].0@);
                    assert(t[b].0@ == s[b].0@);
                }
                assert(map_of(t) =~= map_of(s).insert(key, v)) by {
                    assert forall|q: Seq<char>| #[trigger] has_key(t, q) == has_key(s, q) by {
                        if has_key(t, q) {
                            let j = choose|j: int| 0 <= j < t.len() && t[j].0@ == q;
                            assert(s[j].0@ == q);
                        }
                        if has_key(s, q) {
                            let j = choose|j: int| 0 <= j < s.len() && s[j].0@ == q;
                            assert(t[j].0@ == q);
                        }
                    }
                    assert forall|q: Seq<char>| #[trigger] map_of(t).contains_key(q) implies map_of(
                        t,
                    )[q] == map_of(s).insert(key, v)[q] by {
                        let j = choose|j: int| 0 <= j < t.len() && t[j].0@ == q;
                        lemma_map_at(t, j);
                        if j != i {
                            lemma_map_at(s, j);
                            assert(s[j].0@ == q);
                            if j < i {
                                assert(lex_lt(s[j].0@, s[i as int].0@));
                            } else {
                                assert(lex_lt(s[i as int].0@, s[j].0@));
                            }
                            lemma_lex_trichotomy(q, q);
                        }
                    }
                }
            }
        } else {
            entries.insert(i, (k, v));
            proof {
                let t = entries@;
                assert forall|a: int| 0 <= a < t.len() implies #[trigger] t[a] == if a < i {
                    s[a]
                } else if a == i {
                    (t[a].0, t[a].1)
                } else {
                    s[a - 1]
                } by {}
                assert forall|a: int, b: int| 0 <= a < b < t.len() implies lex_lt(
                    #[trigger] t[a].0@,
                    #[trigger] t[b].0@,
                ) by {
                    if b < i {
                    } else if b == i {
                    } else if a < i {
                        assert(t[b] == s[b - 1]);
                    } else if a == i {
                        assert(t[b] == s[b - 1]);
                        if b - 1 > i {
                            assert(lex_lt(s[i as int].0@, s[b - 1].0@));
                            lemma_lex_transitive(key, s[i as int].0@, s[b - 1].0@);
                        }
                    } else {
                        assert(t[a] == s[a - 1]);
                        assert(t[b] == s[b - 1]);
                    }
                }
                assert(!has_key(s, key)) by {
                    if has_key(s, key) {
                        let j = choose|j: int| 0 <= j < s.len() && s[j].0@ == key;
                        if j < i {
                            lemma_lex_trichotomy(key, key);
                        } else {
                            if j > i {
                                lemma_lex_transitive(key, s[i as int].0@, key);
                            }
                            lemma_lex_trichotomy(key, key);
                        }
                    }
                }
                assert(map_of(t) =~= map_of(s).insert(key, v)) by {
                    assert forall|q: Seq<char>| #[trigger]
                        map_of(s).insert(key, v).contains_key(q) implies has_key(t, q) by {
                        if q == key {
                            assert(t[i as int].0@ == key);
                        } else {
                            let j = choose|j: int| 0 <= j < s.len() && s[j].0@ == q;
                            if j < i {
                                assert(t[j] == s[j]);
                            } else {
                                assert(t[j + 1] == s[j]);
                            }
                        }
                    }
                    assert forall|q: Seq<char>| #[trigger] map_of(t).contains_key(q) implies map_of(
                        s,
                    ).insert(key, v).contains_key(q) && map_of(t)[q] == map_of(s).insert(key, v)[q] by {
                        let j = choose|j: int| 0 <= j < t.len() && t[j].0@ == q;
                        lemma_map_at(t, j);
                        if j < i {
                            assert(t[j] == s[j]);
                            lemma_map_at(s, j);
                        } else if j > i {
                            assert(t[j] == s[j - 1]);
                            lemma_map_at(s, j - 1);
                        }
                    }
                }
            }
        }
        self.entries = entries;
    }

    /// Remove `k`, returning its value if it had one.
    pub fn remove(&mut self, k: &str) -> (r: Option<V>)
        ensures
            final(self).map() == old(self).map().remove(k@),
            r is Some <==> old(self).map().contains_key(k@),
            r matches Some(v) ==> v == old(self).map()[k@],
    {
        proof {
            use_type_invariant(&*self);
        }
        let present = self.contains_key(k);
        if !present {
            assert(map_of(self.entries@).remove(k@) =~= map_of(self.entries@));
            return None;
        }
        let (i, found) = self.locate(k);
        let ghost s = self.entries@;
        let ghost key = k@;
        proof {
            if !found {
                let j = choose|j: int| 0 <= j < s.len() && s[j].0@ == key;
                if j < i {
                    lemma_lex_trichotomy(key, key);
                } else {
                    if j > i {
                        lemma_lex_transitive(key, s[i as int].0@, key);
                    }
                    lemma_lex_trichotomy(key, key);
                }
            }
            lemma_map_at(s, i as int);
        }
        let mut entries: Vec<(String, V)> = Vec::new();
        std::mem::swap(&mut entries, &mut self.entries);
        let (_, v) = entries.remove(i);
        proof {
            let t = entries@;
            assert forall|a: int| 0 <= a < t.len() implies #[trigger] t[a] == s[if a < i {
                a
            } else {
                a + 1
            }] by {}
            assert forall|a: int, b: int| 0 <= a < b < t.len() implies lex_lt(
                #[trigger] t[a].0@,
                #[trigger] t[b].0@,
            ) by {
                let a1 = if a < i {
                    a
                } else {
                    a + 1
                };
                let b1 = if b < i {
                    b
                } else {
                    b + 1
                };
                assert(t[a] == s[a1]);
                assert(t[b] == s[b1]);
            }
            assert(map_of(t) =~= map_of(s).remove(key)) by {
                assert forall|q: Seq<char>| #[trigger]
                    map_of(s).remove(key).contains_key(q) implies has_key(t, q) by {
                    let j = choose|j: int| 0 <= j < s.len() && s[j].0@ == q;
                    assert(j != i);
                    if j < i {
                        assert(t[j] == s[j]);
                    } else {
                        assert(t[j - 1] == s[j]);
                    }
                }
                assert forall|q: Seq<char>| #[trigger] map_of(t).contains_key(q) implies map_of(
                    s,
                ).remove(key).contains_key(q) && map_of(t)[q] == map_of(s).remove(key)[q] by {
                    let j = choose|j: int| 0 <= j < t.len() && t[j].0@ == q;
                    lemma_map_at(t, j);
                    let j1 = if j < i {
                        j
                    } else {
                        j + 1
                    };
                    assert(t[j] == s[j1]);
                    lemma_map_at(s, j1);
                    if q == key {
                        assert(s[j1].0@ == s[i as int].0@);
                        if j1 < i {
                            assert(lex_lt(s[j1].0@, s[i as int].0@));
                        } else {
                            assert(lex_lt(s[i as int].0@, s[j1].0@));
                        }
                        lemma_lex_trichotomy(key, key);
                    }
                }
            }
        }
        self.entries = entries;
        Some(v)
    }

    /// Number of entries.
    pub fn len(&self) -> (n: usize)
        ensures
            n == self.entries_seq().len(),
            sorted_keys(self.entries_seq()),
    {
        proof {
            use_type_invariant(self);
        }
        self.entries.len()
    }

    /// Whether the map is empty.
    pub fn is_empty(&self) -> (r: bool)
        ensures
            r == (self.entries_seq().len() == 0),
    {
        self.entries.len() == 0
    }

    /// The entry at position `i` in key order.
    pub fn entry(&self, i: usize) -> (r: &(String, V))
        requires
            i < self.entries_seq().len(),
        ensures
            *r == self.entries_seq()[i as int],
    {
        &self.entries[i]
    }
}

} // verus!
