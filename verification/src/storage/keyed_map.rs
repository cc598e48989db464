//! An ordered key/value table keyed by strings, kept in ascending order of the
//! keys' UTF-8 bytes, which is the order in which the contract's storage maps
//! are walked.

use vstd::prelude::*;
use vstd::utf8::*;

verus! {

/// Lexicographic order on byte strings: a proper prefix comes first.
pub open spec fn bytes_lt(a: Seq<u8>, b: Seq<u8>) -> bool
    decreases a.len(),
{
    if a.len() == 0 {
        b.len() > 0
    } else if b.len() == 0 {
        false
    } else if a[0] < b[0] {
        true
    } else if a[0] > b[0] {
        false
    } else {
        bytes_lt(a.drop_first(), b.drop_first())
    }
}

/// The bytes by which a key is ordered.
pub open spec fn key_bytes(k: Seq<char>) -> Seq<u8> {
    encode_utf8(k)
}

/// Order of keys: byte order of their UTF-8 encodings.
pub open spec fn key_lt(a: Seq<char>, b: Seq<char>) -> bool {
    bytes_lt(key_bytes(a), key_bytes(b))
}

pub proof fn lemma_bytes_lt_irreflexive(a: Seq<u8>)
    ensures
        !bytes_lt(a, a),
    decreases a.len(),
{
    if a.len() > 0 {
        lemma_bytes_lt_irreflexive(a.drop_first());
    }
}

pub proof fn lemma_bytes_lt_transitive(a: Seq<u8>, b: Seq<u8>, c: Seq<u8>)
    requires
        bytes_lt(a, b),
        bytes_lt(b, c),
    ensures
        bytes_lt(a, c),
    decreases a.len(),
{
    if a.len() > 0 && b.len() > 0 && c.len() > 0 {
        if a[0] == b[0] && b[0] == c[0] {
            lemma_bytes_lt_transitive(a.drop_first(), b.drop_first(), c.drop_first());
        }
    }
}

pub proof fn lemma_bytes_lt_total(a: Seq<u8>, b: Seq<u8>)
    requires
        a != b,
    ensures
        bytes_lt(a, b) || bytes_lt(b, a),
    decreases a.len(),
{
    if a.len() > 0 && b.len() > 0 && a[0] == b[0] {
        if a.drop_first() == b.drop_first() {
            assert(a =~= seq![a[0]] + a.drop_first());
            assert(b =~= seq![b[0]] + b.drop_first());
            assert(a =~= b);
        } else {
            lemma_bytes_lt_total(a.drop_first(), b.drop_first());
        }
    } else if a.len() == 0 && b.len() == 0 {
        assert(a =~= b);
    }
}

/// Distinct keys have distinct encodings.
pub proof fn lemma_key_bytes_injective(a: Seq<char>, b: Seq<char>)
    requires
        key_bytes(a) == key_bytes(b),
    ensures
        a == b,
{
    encode_utf8_decode_utf8(a);
    encode_utf8_decode_utf8(b);
}

pub proof fn lemma_key_lt_total(a: Seq<char>, b: Seq<char>)
    requires
        a != b,
    ensures
        key_lt(a, b) || key_lt(b, a),
{
    if key_bytes(a) == key_bytes(b) {
        lemma_key_bytes_injective(a, b);
    }
    lemma_bytes_lt_total(key_bytes(a), key_bytes(b));
}

pub proof fn lemma_key_lt_irreflexive(a: Seq<char>)
    ensures
        !key_lt(a, a),
{
    lemma_bytes_lt_irreflexive(key_bytes(a));
}

pub proof fn lemma_key_lt_transitive(a: Seq<char>, b: Seq<char>, c: Seq<char>)
    requires
        key_lt(a, b),
        key_lt(b, c),
    ensures
        key_lt(a, c),
{
    lemma_bytes_lt_transitive(key_bytes(a), key_bytes(b), key_bytes(c));
}

/// Compares two byte strings in lexicographic order.
pub fn bytes_less(a: &[u8], b: &[u8]) -> (r: bool)
    ensures
        r == bytes_lt(a@, b@),
{
    let mut i: usize = 0;
    assert(a@.skip(0) =~= a@);
    assert(b@.skip(0) =~= b@);
    while i < a.len() && i < b.len()
        invariant
            i <= a@.len(),
            i <= b@.len(),
            bytes_lt(a@, b@) == bytes_lt(a@.skip(i as int), b@.skip(i as int)),
        decreases a@.len() - i,
    {
        if a[i] < b[i] {
            return true;
        }
        if a[i] > b[i] {
            return false;
        }
        assert(a@.skip(i as int).drop_first() =~= a@.skip(i + 1));
        assert(b@.skip(i as int).drop_first() =~= b@.skip(i + 1));
        i = i + 1;
    }
    i < b.len()
}

/// Compares two keys in the order of their UTF-8 bytes.
pub fn key_less(a: &String, b: &String) -> (r: bool)
    ensures
        r == key_lt(a@, b@),
{
    bytes_less(a.as_str().as_bytes(), b.as_str().as_bytes())
}

/// Keys strictly ascending.
pub open spec fn sorted_keys<V>(s: Seq<(Seq<char>, V)>) -> bool {
    forall|i: int, j: int| 0 <= i < j < s.len() ==> key_lt(#[trigger] s[i].0, #[trigger] s[j].0)
}

/// Whether a key occurs among the entries.
pub open spec fn has_key<V>(s: Seq<(Seq<char>, V)>, k: Seq<char>) -> bool {
    exists|i: int| 0 <= i < s.len() && #[trigger] s[i].0 == k
}

/// The position of a key among the entries.
pub open spec fn index_of_key<V>(s: Seq<(Seq<char>, V)>, k: Seq<char>) -> int {
    choose|i: int| 0 <= i < s.len() && #[trigger] s[i].0 == k
}

/// The entries as a map from key to value.
pub open spec fn entries_map<V>(s: Seq<(Seq<char>, V)>) -> Map<Seq<char>, V> {
    Map::new(|k: Seq<char>| has_key(s, k), |k: Seq<char>| s[index_of_key(s, k)].1)
}

/// The keys in ascending order.
pub open spec fn entries_keys<V>(s: Seq<(Seq<char>, V)>) -> Seq<Seq<char>> {
    s.map_values(|e: (Seq<char>, V)| e.0)
}

/// The values in ascending order of their keys.
pub open spec fn entries_values<V>(s: Seq<(Seq<char>, V)>) -> Seq<V> {
    s.map_values(|e: (Seq<char>, V)| e.1)
}

pub proof fn lemma_sorted_index<V>(s: Seq<(Seq<char>, V)>, i: int)
    requires
        sorted_keys(s),
        0 <= i < s.len(),
    ensures
        has_key(s, s[i].0),
        index_of_key(s, s[i].0) == i,
        entries_map(s)[s[i].0] == s[i].1,
{
    assert(has_key(s, s[i].0));
    let j = index_of_key(s, s[i].0);
    if j != i {
        if j < i {
            assert(key_lt(s[j].0, s[i].0));
        } else {
            assert(key_lt(s[i].0, s[j].0));
        }
        lemma_key_lt_irreflexive(s[i].0);
    }
}

/// A table of values keyed by strings, walked in ascending key order.
pub struct KeyedMap<V> {
    entries: Vec<(String, V)>,
}

impl<V> View for KeyedMap<V> {
    type V = Seq<(Seq<char>, V)>;

    closed spec fn view(&self) -> Seq<(Seq<char>, V)> {
        self.entries@.map_values(|e: (String, V)| (e.0@, e.1))
    }
}

impl<V> KeyedMap<V> {
    /// Keys ascend strictly.
    pub open spec fn wf(&self) -> bool {
        sorted_keys(self@)
    }

    /// The table as a map.
    pub open spec fn map(&self) -> Map<Seq<char>, V> {
        entries_map(self@)
    }

    /// An empty table.
    pub fn new() -> (m: Self)
        ensures
            m.wf(),
            m@ == Seq::<(Seq<char>, V)>::empty(),
            m.map() == Map::<Seq<char>, V>::empty(),
    {
        let m = KeyedMap { entries: Vec::new() };
        assert(m@ =~= Seq::<(Seq<char>, V)>::empty());
        assert(m.map() =~= Map::<Seq<char>, V>::empty());
        m
    }

    /// Number of entries.
    pub fn len(&self) -> (n: usize)
        ensures
            n == self@.len(),
    {
        self.entries.len()
    }

    /// The key of the entry at a position.
    pub fn key_at(&self, i: usize) -> (k: &String)
        requires
            i < self@.len(),
        ensures
            k@ == self@[i as int].0,
    {
        &self.entries[i].0
    }

    /// The value of the entry at a position.
    pub fn value_at(&self, i: usize) -> (v: &V)
        requires
            i < self@.len(),
        ensures
            *v == self@[i as int].1,
    {
        &self.entries[i].1
    }

    /// Position of a key, if present.
    pub fn find(&self, key: &String) -> (r: Option<usize>)
        requires
            self.wf(),
        ensures
            match r {
                Some(i) => i < self@.len() && self@[i as int].0 == key@,
                None => !has_key(self@, key@),
            },
            r is Some <==> self.map().contains_key(key@),
    {
        let mut i: usize = 0;
        while i < self.entries.len()
            invariant
                i <= self@.len(),
                self@.len() == self.entries@.len(),
                forall|j: int| 0 <= j < i ==> self@[j].0 != key@,
            decreases self@.len() - i,
        {
            assert(self@[i as int].0 == self.entries@[i as int].0@);
            if self.entries[i].0 == *key {
                return Some(i);
            }
            i = i + 1;
        }
        None
    }

    /// The value stored under a key.
    pub fn get(&self, key: &String) -> (r: Option<&V>)
        requires
            self.wf(),
        ensures
            match r {
                Some(v) => self.map().contains_key(key@) && *v == self.map()[key@],
                None => !self.map().contains_key(key@),
            },
    {
        match self.find(key) {
            Some(i) => {
                proof {
                    lemma_sorted_index(self@, i as int);
                }
                Some(&self.entries[i].1)
            },
            None => None,
        }
    }

    /// Whether a key is present.
    pub fn contains(&self, key: &String) -> (b: bool)
        requires
            self.wf(),
        ensures
            b == self.map().contains_key(key@),
    {
        self.find(key).is_some()
    }

    /// Stores a value under a key, replacing what was there.
    pub fn insert(&mut self, key: String, value: V)
        requires
            old(self).wf(),
        ensures
            final(self).wf(),
            final(self).map() == old(self).map().insert(key@, value),
    {
        let ghost k = key@;
        let ghost old_view = self@;
        let mut i: usize = 0;
        while i < self.entries.len()
            invariant
                i <= self@.len(),
                k == key@,
                self@ == old_view,
                self@.len() == self.entries@.len(),
                sorted_keys(self@),
                forall|j: int| 0 <= j < i ==> key_lt(#[trigger] self@[j].0, k),
            ensures
                i <= self@.len(),
                self@ == old_view,
                self@.len() == self.entries@.len(),
                forall|j: int| 0 <= j < i ==> key_lt(#[trigger] self@[j].0, k),
                i < self@.len() ==> !key_lt(self@[i as int].0, k),
            decreases self@.len() - i,
        {
            assert(self@[i as int].0 == self.entries@[i as int].0@);
            let less = key_less(&self.entries[i].0, &key);
            assert(less == key_lt(self.entries@[i as int].0@, key@));
            if !less {
                break;
            }
            assert(key_lt(self@[i as int].0, k));
            i = i + 1;
        }
        proof {
            assert forall|j: int| 0 <= j < i implies key_lt(#[trigger] self@[j].0, k) by {}
        }
        if i < self.entries.len() && self.entries[i].0 == key {
            assert(old_view[i as int].0 == k);
            self.entries.set(i, (key, value));
            proof {
                let s = self@;
                assert(s =~= old_view.update(i as int, (k, value)));
                assert forall|j: int| 0 <= j < s.len() implies #[trigger] s[j].0 == old_view[j].0 by {}
                assert(sorted_keys(s));
                assert(entries_map(s) =~= entries_map(old_view).insert(k, value)) by {
                    assert forall|x: Seq<char>| #[trigger] has_key(s, x) == (x == k || has_key(old_view, x)) by {
                        if has_key(old_view, x) {
                            let w = choose|w: int| 0 <= w < old_view.len() && old_view[w].0 == x;
                            assert(s[w].0 == x);
                        }
                        if has_key(s, x) {
                            let w = choose|w: int| 0 <= w < s.len() && s[w].0 == x;
                            assert(old_view[w].0 == x || w == i);
                        }
                    }
                    assert forall|x: Seq<char>| has_key(s, x) implies entries_map(s)[x] == (if x == k { value } else { entries_map(old_view)[x] }) by {
                        let w = choose|w: int| 0 <= w < s.len() && s[w].0 == x;
                        lemma_sorted_index(s, w);
                        if w != i {
                            lemma_sorted_index(old_view, w);
                        }
                    }
                }
            }
        } else {
            proof {
                if i < old_view.len() {
                    assert(old_view[i as int].0 != k);
                    lemma_key_lt_total(old_view[i as int].0, k);
                    assert(key_lt(k, old_view[i as int].0));
                }
            }
            self.entries.insert(i, (key, value));
            proof {
                let s = self@;
                assert(s =~= old_view.insert(i as int, (k, value)));
                assert forall|a: int, b: int| 0 <= a < b < s.len() implies key_lt(#[trigger] s[a].0, #[trigger] s[b].0) by {
                    if b < i {
                    } else if b == i {
                    } else if a == i {
                        if b > i + 1 {
                            lemma_key_lt_transitive(k, old_view[i as int].0, old_view[b - 1].0);
                        }
                    } else if a < i {
                        if b > i + 1 {
                            lemma_key_lt_transitive(k, old_view[i as int].0, old_view[b - 1].0);
                        }
                        lemma_key_lt_transitive(s[a].0, k, s[b].0);
                    } else {
                    }
                }
                assert(sorted_keys(s));
                assert(!has_key(old_view, k)) by {
                    if has_key(old_view, k) {
                        let w = choose|w: int| 0 <= w < old_view.len() && old_view[w].0 == k;
                        if w < i {
                            lemma_key_lt_irreflexive(k);
                        } else if w > i {
                            lemma_key_lt_transitive(k, old_view[i as int].0, old_view[w].0);
                            lemma_key_lt_irreflexive(k);
                        } else {
                            lemma_key_lt_irreflexive(k);
                        }
                    }
                }
                assert(entries_map(s) =~= entries_map(old_view).insert(k, value)) by {
                    assert forall|x: Seq<char>| #[trigger] has_key(s, x) == (x == k || has_key(old_view, x)) by {
                        if has_key(old_view, x) {
                            let w = choose|w: int| 0 <= w < old_view.len() && old_view[w].0 == x;
                            if w < i {
                                assert(s[w].0 == x);
                            } else {
                                assert(s[w + 1].0 == x);
                            }
                        }
                        if x == k {
                            assert(s[i as int].0 == x);
                        }
                        if has_key(s, x) {
                            let w = choose|w: int| 0 <= w < s.len() && s[w].0 == x;
                            if w < i {
                                assert(old_view[w].0 == x);
                            } else if w > i {
                                assert(old_view[w - 1].0 == x);
                            }
                        }
                    }
                    assert forall|x: Seq<char>| has_key(s, x) implies entries_map(s)[x] == (if x == k { value } else { entries_map(old_view)[x] }) by {
                        let w = choose|w: int| 0 <= w < s.len() && s[w].0 == x;
                        lemma_sorted_index(s, w);
                        if w < i {
                            lemma_sorted_index(old_view, w);
                        } else if w > i {
                            lemma_sorted_index(old_view, w - 1);
                        }
                    }
                }
            }
        }
    }

    /// Removes the entry under a key, if any.
    pub fn remove(&mut self, key: &String)
        requires
            old(self).wf(),
        ensures
            final(self).wf(),
            final(self).map() == old(self).map().remove(key@),
    {
        let ghost old_view = self@;
        let ghost k = key@;
        match self.find(key) {
            Some(i) => {
                self.entries.remove(i);
                proof {
                    let s = self@;
                    assert(s =~= old_view.remove(i as int));
                    assert forall|a: int, b: int| 0 <= a < b < s.len() implies key_lt(#[trigger] s[a].0, #[trigger] s[b].0) by {
                        if a < i && b >= i {
                            assert(s[b].0 == old_view[b + 1].0);
                        } else if a >= i {
                            assert(s[a].0 == old_view[a + 1].0);
                            assert(s[b].0 == old_view[b + 1].0);
                        }
                    }
                    assert(entries_map(s) =~= entries_map(old_view).remove(k)) by {
                        assert forall|x: Seq<char>| #[trigger] has_key(s, x) == (x != k && has_key(old_view, x)) by {
                            if has_key(old_view, x) && x != k {
                                let w = choose|w: int| 0 <= w < old_view.len() && old_view[w].0 == x;
                                if w < i {
                                    assert(s[w].0 == x);
                                } else {
                                    assert(s[w - 1].0 == x);
                                }
                            }
                            if has_key(s, x) {
                                let w = choose|w: int| 0 <= w < s.len() && s[w].0 == x;
                                if w < i {
                                    assert(old_view[w].0 == x);
                                    if x == k {
                                        assert(key_lt(old_view[w].0, old_view[i as int].0));
                                        lemma_key_lt_irreflexive(k);
                                    }
                                } else {
                                    assert(old_view[w + 1].0 == x);
                                    if x == k {
                                        assert(key_lt(old_view[i as int].0, old_view[w + 1].0));
                                        lemma_key_lt_irreflexive(k);
                                    }
                                }
                            }
                        }
                        assert forall|x: Seq<char>| has_key(s, x) implies entries_map(s)[x] == entries_map(old_view)[x] by {
                            let w = choose|w: int| 0 <= w < s.len() && s[w].0 == x;
                            lemma_sorted_index(s, w);
                            if w < i {
                                lemma_sorted_index(old_view, w);
                            } else {
                                lemma_sorted_index(old_view, w + 1);
                            }
                        }
                    }
                }
            },
            None => {
                proof {
                    assert(entries_map(old_view) =~= entries_map(old_view).remove(k));
                }
            },
        }
    }
}

} // verus!
