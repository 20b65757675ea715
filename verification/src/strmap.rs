//! A map keyed by strings that keeps its entries in increasing key order (the
//! byte-wise order of the keys' UTF-8 encodings, which is the order of `str`).

use vstd::prelude::*;
use vstd::string::StringSliceAdditionalSpecFns;
use vstd::utf8::{encode_utf8, encode_utf8_decode_utf8};

verus! {

/// Byte-wise lexicographic order: `a` sorts strictly before `b`.
pub open spec fn lex_lt(a: Seq<u8>, b: Seq<u8>) -> bool
    decreases a.len(),
{
    if a.len() == 0 {
        b.len() > 0
    } else if b.len() == 0 {
        false
    } else if a[0] < b[0] {
        true
    } else if a[0] > b[0] {
        false
    } else {
        lex_lt(a.drop_first(), b.drop_first())
    }
}

/// The order of strings: that of their UTF-8 bytes.
pub open spec fn key_lt(a: Seq<char>, b: Seq<char>) -> bool {
    lex_lt(encode_utf8(a), encode_utf8(b))
}

/// `lex_lt` is irreflexive.
pub proof fn lemma_lex_irreflexive(a: Seq<u8>)
    ensures
        !lex_lt(a, a),
    decreases a.len(),
{
    if a.len() > 0 {
        lemma_lex_irreflexive(a.drop_first());
    }
}

/// `lex_lt` is transitive.
pub proof fn lemma_lex_transitive(a: Seq<u8>, b: Seq<u8>, c: Seq<u8>)
    requires
        lex_lt(a, b),
        lex_lt(b, c),
    ensures
        lex_lt(a, c),
    decreases a.len(),
{
    if a.len() > 0 && b.len() > 0 && c.len() > 0 && a[0] == b[0] && b[0] == c[0] {
        lemma_lex_transitive(a.drop_first(), b.drop_first(), c.drop_first());
    }
}

/// Distinct byte sequences are ordered one way or the other.
pub proof fn lemma_lex_total(a: Seq<u8>, b: Seq<u8>)
    requires
        a != b,
    ensures
        lex_lt(a, b) || lex_lt(b, a),
    decreases a.len(),
{
    if a.len() > 0 && b.len() > 0 && a[0] == b[0] {
        assert(a.drop_first() != b.drop_first()) by {
            if a.drop_first() == b.drop_first() {
                assert(a =~= seq![a[0]] + a.drop_first());
                assert(b =~= seq![b[0]] + b.drop_first());
            }
        }
        lemma_lex_total(a.drop_first(), b.drop_first());
    } else if a.len() == 0 && b.len() == 0 {
        assert(a =~= b);
    }
}

/// `key_lt` is irreflexive, transitive and total on distinct strings.
pub proof fn lemma_key_order(a: Seq<char>, b: Seq<char>, c: Seq<char>)
    ensures
        !key_lt(a, a),
        key_lt(a, b) && key_lt(b, c) ==> key_lt(a, c),
        a != b ==> key_lt(a, b) || key_lt(b, a),
        key_lt(a, b) ==> a != b && !key_lt(b, a),
{
    lemma_lex_irreflexive(encode_utf8(a));
    if key_lt(a, b) && key_lt(b, c) {
        lemma_lex_transitive(encode_utf8(a), encode_utf8(b), encode_utf8(c));
    }
    if a != b {
        encode_utf8_decode_utf8(a);
        encode_utf8_decode_utf8(b);
        lemma_lex_total(encode_utf8(a), encode_utf8(b));
    }
    if key_lt(a, b) && key_lt(b, a) {
        lemma_lex_transitive(encode_utf8(a), encode_utf8(b), encode_utf8(a));
    }
}

/// Three-way comparison of two strings by `key_lt`: negative, zero or positive.
pub fn compare_keys(a: &str, b: &str) -> (r: i8)
    ensures
        r < 0 <==> key_lt(a@, b@),
        r == 0 <==> a@ == b@,
        r > 0 <==> key_lt(b@, a@),
{
    let ab = a.as_bytes();
    let bb = b.as_bytes();
    proof {
        lemma_key_order(a@, b@, a@);
        lemma_key_order(b@, a@, b@);
    }
    let mut i: usize = 0;
    proof {
        assert(ab@.skip(0) =~= ab@);
        assert(bb@.skip(0) =~= bb@);
    }
    while i < ab.len() && i < bb.len()
        invariant
            ab@ == a.spec_bytes(),
            bb@ == b.spec_bytes(),
            i <= ab@.len(),
            i <= bb@.len(),
            lex_lt(ab@, bb@) == lex_lt(ab@.skip(i as int), bb@.skip(i as int)),
            lex_lt(bb@, ab@) == lex_lt(bb@.skip(i as int), ab@.skip(i as int)),
            forall|k: int| 0 <= k < i ==> ab@[k] == bb@[k],
        decreases ab@.len() - i,
    {
        assert(ab@.skip(i as int).drop_first() =~= ab@.skip(i + 1));
        assert(bb@.skip(i as int).drop_first() =~= bb@.skip(i + 1));
        if ab[i] < bb[i] {
            return -1;
        }
        if ab[i] > bb[i] {
            return 1;
        }
        i = i + 1;
    }
    if ab.len() < bb.len() {
        return -1;
    }
    if bb.len() < ab.len() {
        return 1;
    }
    proof {
        assert(ab@ =~= bb@);
        encode_utf8_decode_utf8(a@);
        encode_utf8_decode_utf8(b@);
    }
    0
}

/// Keys strictly increasing.
pub open spec fn sorted_keys<V>(entries: Seq<(String, V)>) -> bool {
    forall|i: int, j: int| 0 <= i < j < entries.len() ==> key_lt(#[trigger] entries[i].0@, #[trigger] entries[j].0@)
}

/// The position of `key` among `entries`, if it is there.
pub open spec fn index_of_key<V>(entries: Seq<(String, V)>, key: Seq<char>) -> Option<int> {
    if exists|i: int| 0 <= i < entries.len() && entries[i].0@ == key {
        Some(choose|i: int| 0 <= i < entries.len() && entries[i].0@ == key)
    } else {
        None
    }
}

/// The map that `entries` stand for: each key to the value stored with it.
pub open spec fn map_of<V>(entries: Seq<(String, V)>) -> Map<Seq<char>, V> {
    Map::new(
        |k: Seq<char>| index_of_key(entries, k) is Some,
        |k: Seq<char>| entries[index_of_key(entries, k)->0].1,
    )
}

/// A string-keyed map whose entries are kept in increasing key order.
pub struct StrMap<V> {
    entries: Vec<(String, V)>,
}

impl<V> View for StrMap<V> {
    type V = Map<Seq<char>, V>;

    /// Each key to its value.
    open spec fn view(&self) -> Map<Seq<char>, V> {
        map_of(self.entries_spec())
    }
}

impl<V> StrMap<V> {
    /// The entries, in increasing key order.
    pub closed spec fn entries_spec(self) -> Seq<(String, V)> {
        self.entries@
    }

    /// Entries are in strictly increasing key order.
    pub open spec fn wf(self) -> bool {
        sorted_keys(self.entries_spec())
    }

    /// An empty map.
    pub fn new() -> (m: Self)
        ensures
            m.entries_spec() == Seq::<(String, V)>::empty(),
            m@ == Map::<Seq<char>, V>::empty(),
            m.wf(),
    {
        proof {
            assert(map_of(Seq::<(String, V)>::empty()) =~= Map::<Seq<char>, V>::empty());
        }
        StrMap { entries: Vec::new() }
    }

    /// Number of entries, which is the number of keys when `wf`.
    pub fn len(&self) -> (n: usize)
        ensures
            n == self.entries_spec().len(),
            self.wf() ==> self@.dom().finite() && n == self@.dom().len(),
    {
        proof {
            if self.wf() {
                lemma_map_of_len(self.entries_spec());
            }
        }
        self.entries.len()
    }

    /// The position where `key` is or would go: every earlier key sorts before it,
    /// and the key at that position, if any, does not.
    fn position(&self, key: &str) -> (r: (usize, bool))
        requires
            self.wf(),
        ensures
            r.0 <= self.entries_spec().len(),
            forall|j: int| 0 <= j < r.0 ==> key_lt(#[trigger] self.entries_spec()[j].0@, key@),
            forall|j: int| r.0 <= j < self.entries_spec().len() ==> key_lt(key@, #[trigger] self.entries_spec()[j].0@)
                || (j == r.0 && r.1),
            r.1 <==> (r.0 < self.entries_spec().len() && self.entries_spec()[r.0 as int].0@ == key@),
    {
        let mut i: usize = 0;
        while i < self.entries.len()
            invariant
                i <= self.entries@.len(),
                sorted_keys(self.entries@),
                forall|j: int| 0 <= j < i ==> key_lt(#[trigger] self.entries@[j].0@, key@),
            decreases self.entries@.len() - i,
        {
            let c = compare_keys(self.entries[i].0.as_str(), key);
            if c >= 0 {
                proof {
                    assert forall|j: int| i <= j < self.entries@.len() implies key_lt(key@, #[trigger] self.entries@[j].0@)
                        || (j == i && c == 0) by {
                        lemma_key_order(key@, self.entries@[i as int].0@, self.entries@[j].0@);
                        if j > i {
                            assert(key_lt(self.entries@[i as int].0@, self.entries@[j].0@));
                        }
                    }
                }
                return (i, c == 0);
            }
            i = i + 1;
        }
        (i, false)
    }

    /// The position of `key`, if present.
    pub fn find(&self, key: &str) -> (r: Option<usize>)
        requires
            self.wf(),
        ensures
            r == (match index_of_key(self.entries_spec(), key@) { Some(i) => Some(i as usize), None => None::<usize> }),
            r matches Some(i) ==> i < self.entries_spec().len() && self.entries_spec()[i as int].0@ == key@,
    {
        let (i, found) = self.position(key);
        proof {
            lemma_index_unique(self.entries_spec(), key@);
            if !found {
                assert(!(exists|k: int| 0 <= k < self.entries_spec().len() && self.entries_spec()[k].0@ == key@)) by {
                    if exists|k: int| 0 <= k < self.entries_spec().len() && self.entries_spec()[k].0@ == key@ {
                        let k = choose|k: int| 0 <= k < self.entries_spec().len() && self.entries_spec()[k].0@ == key@;
                        lemma_key_order(key@, key@, key@);
                    }
                }
            }
        }
        if found { Some(i) } else { None }
    }

    /// The value under `key`, if present.
    pub fn get(&self, key: &str) -> (r: Option<&V>)
        requires
            self.wf(),
        ensures
            index_of_key(self.entries_spec(), key@) matches Some(i) ==> r == Some(&self.entries_spec()[i].1),
            index_of_key(self.entries_spec(), key@) is None ==> r is None,
            r == (if self@.contains_key(key@) { Some(&self@[key@]) } else { None::<&V> }),
    {
        proof {
            lemma_index_unique(self.entries_spec(), key@);
        }
        match self.find(key) {
            Some(i) => Some(&self.entries[i].1),
            None => None,
        }
    }

    /// The entry at position `i`.
    pub fn entry(&self, i: usize) -> (r: &(String, V))
        requires
            i < self.entries_spec().len(),
        ensures
            *r == self.entries_spec()[i as int],
    {
        &self.entries[i]
    }

    /// Adds `value` under `key` unless the key is present; reports whether it was added.
    /// An added entry goes where its key sorts.
    pub fn insert_new(&mut self, key: String, value: V) -> (added: bool)
        requires
            old(self).wf(),
        ensures
            final(self).wf(),
            added == (index_of_key(old(self).entries_spec(), key@) is None),
            added == !old(self)@.contains_key(key@),
            added ==> final(self)@ == old(self)@.insert(key@, value),
            !added ==> final(self).entries_spec() == old(self).entries_spec(),
            added ==> exists|p: int| 0 <= p <= old(self).entries_spec().len()
                && final(self).entries_spec() == old(self).entries_spec().insert(p, (key, value)),
    {
        let (i, found) = self.position(key.as_str());
        if found {
            proof {
                assert(self.entries@[i as int].0@ == key@);
            }
            return false;
        }
        proof {
            assert(index_of_key(self.entries@, key@) is None) by {
                if exists|k: int| 0 <= k < self.entries@.len() && self.entries@[k].0@ == key@ {
                    let k = choose|k: int| 0 <= k < self.entries@.len() && self.entries@[k].0@ == key@;
                    lemma_key_order(key@, key@, key@);
                }
            }
        }
        let ghost before = self.entries@;
        let ghost kv = (key, value);
        self.entries.insert(i, (key, value));
        proof {
            before.insert_ensures(i as int, self.entries@[i as int]);
            assert forall|a: int, b: int| 0 <= a < b < self.entries@.len() implies
                key_lt(#[trigger] self.entries@[a].0@, #[trigger] self.entries@[b].0@) by {
                if b < i {
                } else if a < i && b == i {
                } else if a < i && b > i {
                    assert(self.entries@[b] == before[b - 1]);
                } else if a == i {
                    assert(self.entries@[b] == before[b - 1]);
                } else {
                    assert(self.entries@[a] == before[a - 1]);
                    assert(self.entries@[b] == before[b - 1]);
                }
            }
            assert(self.entries@ == before.insert(i as int, kv));
            lemma_map_insert(before, self.entries@, i as int, kv.0, kv.1);
        }
        true
    }

    /// Removes the entry under `key`, returning its value.
    pub fn remove(&mut self, key: &str) -> (r: Option<V>)
        requires
            old(self).wf(),
        ensures
            final(self).wf(),
            index_of_key(old(self).entries_spec(), key@) matches Some(i) ==> (r == Some(old(self).entries_spec()[i].1)
                && final(self).entries_spec() == old(self).entries_spec().remove(i)),
            index_of_key(old(self).entries_spec(), key@) is None ==> (r is None
                && final(self).entries_spec() == old(self).entries_spec()),
            final(self)@ == old(self)@.remove(key@),
            r == (if old(self)@.contains_key(key@) { Some(old(self)@[key@]) } else { None::<V> }),
    {
        proof {
            lemma_index_unique(self.entries_spec(), key@);
        }
        match self.find(key) {
            Some(i) => {
                let ghost before = self.entries@;
                let (_, v) = self.entries.remove(i);
                proof {
                    assert forall|a: int, b: int| 0 <= a < b < self.entries@.len() implies
                        key_lt(#[trigger] self.entries@[a].0@, #[trigger] self.entries@[b].0@) by {
                        let oa = if a < i { a } else { a + 1 };
                        let ob = if b < i { b } else { b + 1 };
                        assert(self.entries@[a] == before[oa]);
                        assert(self.entries@[b] == before[ob]);
                    }
                    lemma_map_remove(before, i as int);
                }
                Some(v)
            },
            None => {
                proof {
                    assert(old(self)@.remove(key@) =~= old(self)@);
                }
                None
            },
        }
    }

    /// Replaces the value of the entry at position `i`.
    pub fn set_value(&mut self, i: usize, value: V)
        requires
            i < old(self).entries_spec().len(),
            old(self).wf(),
        ensures
            final(self).wf(),
            final(self).entries_spec().len() == old(self).entries_spec().len(),
            final(self).entries_spec()[i as int].0 == old(self).entries_spec()[i as int].0,
            final(self).entries_spec()[i as int].1 == value,
            forall|j: int| 0 <= j < old(self).entries_spec().len() && j != i
                ==> final(self).entries_spec()[j] == old(self).entries_spec()[j],
            final(self)@ == old(self)@.insert(old(self).entries_spec()[i as int].0@, value),
    {
        let ghost before = self.entries@;
        let ghost v = value;
        let (k, _) = self.entries.remove(i);
        self.entries.insert(i, (k, value));
        proof {
            assert(self.entries@ =~= before.update(i as int, (before[i as int].0, v)));
            lemma_map_update(before, i as int, v);
            assert forall|a: int, b: int| 0 <= a < b < self.entries@.len() implies
                key_lt(#[trigger] self.entries@[a].0@, #[trigger] self.entries@[b].0@) by {
                assert(self.entries@[a].0 == before[a].0);
                assert(self.entries@[b].0 == before[b].0);
            }
        }
    }
}

/// A key occurs at most once in sorted entries.
pub proof fn lemma_index_unique<V>(entries: Seq<(String, V)>, key: Seq<char>)
    requires
        sorted_keys(entries),
    ensures
        forall|i: int, j: int| 0 <= i < entries.len() && 0 <= j < entries.len()
            && entries[i].0@ == key && entries[j].0@ == key ==> i == j,
        index_of_key(entries, key) matches Some(i) ==> 0 <= i < entries.len() && entries[i].0@ == key,
{
    assert forall|i: int, j: int| 0 <= i < entries.len() && 0 <= j < entries.len()
        && entries[i].0@ == key && entries[j].0@ == key implies i == j by {
        lemma_key_order(key, key, key);
        if i < j {
            assert(key_lt(entries[i].0@, entries[j].0@));
        } else if j < i {
            assert(key_lt(entries[j].0@, entries[i].0@));
        }
    }
}


/// Where a key is present, `index_of_key` finds it.
pub proof fn lemma_index_of_present<V>(entries: Seq<(String, V)>, i: int)
    requires
        sorted_keys(entries),
        0 <= i < entries.len(),
    ensures
        index_of_key(entries, entries[i].0@) == Some(i),
{
    lemma_index_unique(entries, entries[i].0@);
}

/// Inserting an entry under a new key adds that key to the map.
pub proof fn lemma_map_insert<V>(old: Seq<(String, V)>, new: Seq<(String, V)>, p: int, key: String, value: V)
    requires
        sorted_keys(old),
        sorted_keys(new),
        index_of_key(old, key@) is None,
        0 <= p <= old.len(),
        new == old.insert(p, (key, value)),
    ensures
        map_of(new) == map_of(old).insert(key@, value),
{
    assert(new[p] == (key, value));
    assert forall|k: Seq<char>| #[trigger] map_of(new).dom().contains(k) <==> map_of(old).insert(key@, value).dom().contains(k) by {
        if index_of_key(old, k) is Some {
            lemma_index_unique(old, k);
            let j = index_of_key(old, k)->0;
            let w = if j < p { j } else { j + 1 };
            assert(new[w] == old[j]);
            lemma_index_of_present(new, w);
        }
        if index_of_key(new, k) is Some {
            lemma_index_unique(new, k);
            let i = index_of_key(new, k)->0;
            if i < p {
                assert(new[i] == old[i]);
                lemma_index_of_present(old, i);
            } else if i > p {
                assert(new[i] == old[i - 1]);
                lemma_index_of_present(old, i - 1);
            }
        }
        if k == key@ {
            lemma_index_of_present(new, p);
        }
    }
    assert forall|k: Seq<char>| #[trigger] map_of(new).dom().contains(k) implies map_of(new)[k] == map_of(old).insert(key@, value)[k] by {
        lemma_index_unique(new, k);
        if k == key@ {
            lemma_index_of_present(new, p);
        } else {
            lemma_index_unique(new, k);
            let i = index_of_key(new, k)->0;
            let j = if i < p { i } else { i - 1 };
            assert(new[i] == old[j]);
            lemma_index_of_present(old, j);
        }
    }
    assert(map_of(new) =~= map_of(old).insert(key@, value));
}

/// Removing the entry at `i` removes its key from the map.
pub proof fn lemma_map_remove<V>(old: Seq<(String, V)>, i: int)
    requires
        sorted_keys(old),
        0 <= i < old.len(),
    ensures
        sorted_keys(old.remove(i)),
        map_of(old.remove(i)) == map_of(old).remove(old[i].0@),
{
    let new = old.remove(i);
    let key = old[i].0@;
    assert forall|a: int, b: int| 0 <= a < b < new.len() implies key_lt(#[trigger] new[a].0@, #[trigger] new[b].0@) by {
        let oa = if a < i { a } else { a + 1 };
        let ob = if b < i { b } else { b + 1 };
        assert(new[a] == old[oa]);
        assert(new[b] == old[ob]);
    }
    lemma_index_unique(old, key);
    assert forall|k: Seq<char>| #[trigger] map_of(new).dom().contains(k) <==> map_of(old).remove(key).dom().contains(k) by {
        if index_of_key(old, k) is Some && k != key {
            lemma_index_unique(old, k);
            let j = index_of_key(old, k)->0;
            let w = if j < i { j } else { j - 1 };
            assert(new[w] == old[j]);
            lemma_index_of_present(new, w);
        }
        if index_of_key(new, k) is Some {
            lemma_index_unique(new, k);
            let w = index_of_key(new, k)->0;
            let j = if w < i { w } else { w + 1 };
            assert(new[w] == old[j]);
            lemma_index_of_present(old, j);
            lemma_index_of_present(old, i);
        }
    }
    assert forall|k: Seq<char>| #[trigger] map_of(new).dom().contains(k) implies map_of(new)[k] == map_of(old).remove(key)[k] by {
        lemma_index_unique(new, k);
        let w = index_of_key(new, k)->0;
        let j = if w < i { w } else { w + 1 };
        assert(new[w] == old[j]);
        lemma_index_of_present(old, j);
    }
    assert(map_of(new) =~= map_of(old).remove(key));
}

/// Replacing the value at `i` rebinds its key.
pub proof fn lemma_map_update<V>(old: Seq<(String, V)>, i: int, value: V)
    requires
        sorted_keys(old),
        0 <= i < old.len(),
    ensures
        sorted_keys(old.update(i, (old[i].0, value))),
        map_of(old.update(i, (old[i].0, value))) == map_of(old).insert(old[i].0@, value),
{
    let new = old.update(i, (old[i].0, value));
    let key = old[i].0@;
    assert forall|a: int, b: int| 0 <= a < b < new.len() implies key_lt(#[trigger] new[a].0@, #[trigger] new[b].0@) by {
        assert(new[a].0 == old[a].0);
        assert(new[b].0 == old[b].0);
    }
    assert forall|k: Seq<char>| #[trigger] map_of(new).dom().contains(k) <==> map_of(old).insert(key, value).dom().contains(k) by {
        if index_of_key(old, k) is Some {
            lemma_index_unique(old, k);
            let j = index_of_key(old, k)->0;
            assert(new[j].0 == old[j].0);
            lemma_index_of_present(new, j);
        }
        if index_of_key(new, k) is Some {
            lemma_index_unique(new, k);
            let j = index_of_key(new, k)->0;
            assert(new[j].0 == old[j].0);
            lemma_index_of_present(old, j);
        }
        if k == key {
            lemma_index_of_present(new, i);
        }
    }
    assert forall|k: Seq<char>| #[trigger] map_of(new).dom().contains(k) implies map_of(new)[k] == map_of(old).insert(key, value)[k] by {
        lemma_index_unique(new, k);
        let j = index_of_key(new, k)->0;
        assert(new[j].0 == old[j].0);
        lemma_index_of_present(old, j);
        lemma_index_of_present(old, i);
        if k != key {
            assert(new[j] == old[j]);
        }
    }
    assert(map_of(new) =~= map_of(old).insert(key, value));
}


/// The map of the first `i + 1` sorted entries is that of the first `i`
/// with the `i`-th key added, which it did not hold.
pub proof fn lemma_map_of_prefix<V>(entries: Seq<(String, V)>, i: int)
    requires
        sorted_keys(entries),
        0 <= i < entries.len(),
    ensures
        !map_of(entries.take(i)).contains_key(entries[i].0@),
        map_of(entries.take(i + 1)) == map_of(entries.take(i)).insert(entries[i].0@, entries[i].1),
{
    let old = entries.take(i);
    let new = entries.take(i + 1);
    assert(sorted_keys(old));
    assert(sorted_keys(new));
    assert(index_of_key(old, entries[i].0@) is None) by {
        if exists|k: int| 0 <= k < old.len() && old[k].0@ == entries[i].0@ {
            let k = choose|k: int| 0 <= k < old.len() && old[k].0@ == entries[i].0@;
            assert(key_lt(entries[k].0@, entries[i].0@));
            lemma_key_order(entries[i].0@, entries[i].0@, entries[i].0@);
        }
    }
    assert(new =~= old.insert(i, (entries[i].0, entries[i].1)));
    lemma_map_insert(old, new, i, entries[i].0, entries[i].1);
}

/// Sorted entries stand for a finite map with one key per entry.
pub proof fn lemma_map_of_len<V>(entries: Seq<(String, V)>)
    requires
        sorted_keys(entries),
    ensures
        map_of(entries).dom().finite(),
        map_of(entries).dom().len() == entries.len(),
    decreases entries.len(),
{
    if entries.len() == 0 {
        assert(map_of(entries).dom() =~= Set::<Seq<char>>::empty());
    } else {
        let n = entries.len() - 1;
        let prefix = entries.take(n);
        assert(sorted_keys(prefix));
        lemma_map_of_len(prefix);
        lemma_map_of_prefix(entries, n);
        assert(entries.take(n + 1) =~= entries);
    }
}

/// The keys of `m` whose values satisfy `p`.
pub open spec fn keys_where<V>(m: Map<Seq<char>, V>, p: spec_fn(V) -> bool) -> Set<Seq<char>> {
    m.dom().filter(|k: Seq<char>| p(m[k]))
}

/// Counting the keys whose values satisfy `p` entry by entry.
pub proof fn lemma_keys_where_prefix<V>(entries: Seq<(String, V)>, i: int, p: spec_fn(V) -> bool)
    requires
        sorted_keys(entries),
        0 <= i < entries.len(),
    ensures
        keys_where(map_of(entries.take(i)), p).finite(),
        keys_where(map_of(entries.take(i + 1)), p).finite(),
        keys_where(map_of(entries.take(i + 1)), p).len()
            == keys_where(map_of(entries.take(i)), p).len() + (if p(entries[i].1) { 1int } else { 0int }),
{
    let before = map_of(entries.take(i));
    let after = map_of(entries.take(i + 1));
    let k = entries[i].0@;
    assert(sorted_keys(entries.take(i)));
    lemma_map_of_len(entries.take(i));
    lemma_map_of_prefix(entries, i);
    let sb = keys_where(before, p);
    let sa = keys_where(after, p);
    assert(sb.subset_of(before.dom()));
    vstd::set_lib::lemma_len_subset(sb, before.dom());
    assert(!sb.contains(k));
    if p(entries[i].1) {
        assert(sa =~= sb.insert(k));
    } else {
        assert(sa =~= sb);
    }
}

/// Whether `String`'s ordering obeys vstd's specification of `Ord`, which
/// ordered std collections of strings need for their contracts to apply.
pub open spec fn string_order_lawful() -> bool {
    vstd::laws_cmp::obeys_cmp::<String>()
}

} // verus!
