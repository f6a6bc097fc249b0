//! In-memory models of the contract's persistent tables.
//!
//! The contract owns its key-value store exclusively and only ever reads and
//! upserts entries, so each table is held as an association vector with unique
//! keys. `StrMap` additionally keeps its keys in ascending lexicographic
//! order, which is the order in which the store walks string keys; `AssocMap`
//! keeps insertion order for keys that are never walked in key order.

use vstd::prelude::*;

verus! {

use crate::text::{
    lex_lt, str_lt, str_eq, lemma_lex_connex, lemma_lex_irreflexive, lemma_lex_transitive,
};

// ---------------------------------------------------------------------------
// The mathematical content of an association sequence.
// ---------------------------------------------------------------------------

/// The map described by a sequence of (key, value) pairs; a later pair with
/// the same key shadows an earlier one.
pub open spec fn kv_map<KV, V>(s: Seq<(KV, V)>) -> Map<KV, V>
    decreases s.len(),
{
    if s.len() == 0 {
        Map::empty()
    } else {
        kv_map(s.drop_last()).insert(s.last().0, s.last().1)
    }
}

/// All keys of the sequence are distinct.
pub open spec fn kv_distinct<KV, V>(s: Seq<(KV, V)>) -> bool {
    forall|i: int, j: int| 0 <= i < j < s.len() ==> (#[trigger] s[i]).0 != (#[trigger] s[j]).0
}

/// A key is in the map exactly when some pair carries it.
pub proof fn lemma_kv_contains<KV, V>(s: Seq<(KV, V)>, k: KV)
    ensures
        kv_map(s).dom().contains(k) <==> exists|i: int| 0 <= i < s.len() && (#[trigger] s[i]).0 == k,
    decreases s.len(),
{
    if s.len() > 0 {
        lemma_kv_contains(s.drop_last(), k);
        if s.last().0 == k {
            assert(s[s.len() - 1].0 == k);
        } else if kv_map(s).dom().contains(k) {
            let i = choose|i: int| 0 <= i < s.len() - 1 && (#[trigger] s.drop_last()[i]).0 == k;
            assert(s[i].0 == k);
        } else if exists|i: int| 0 <= i < s.len() && (#[trigger] s[i]).0 == k {
            let i = choose|i: int| 0 <= i < s.len() && (#[trigger] s[i]).0 == k;
            assert(s.drop_last()[i].0 == k);
        }
    }
}

/// With distinct keys, the pair at index `i` gives the map's value at its key.
pub proof fn lemma_kv_index<KV, V>(s: Seq<(KV, V)>, i: int)
    requires
        kv_distinct(s),
        0 <= i < s.len(),
    ensures
        kv_map(s).dom().contains(s[i].0),
        kv_map(s)[s[i].0] == s[i].1,
    decreases s.len(),
{
    if i == s.len() - 1 {
        assert(s[i] == s.last());
    } else {
        assert(kv_distinct(s.drop_last()));
        lemma_kv_index(s.drop_last(), i);
        assert(s.drop_last()[i] == s[i]);
        assert(s[i].0 != s.last().0);
    }
}

/// Inserting a fresh key anywhere in the sequence inserts it into the map.
pub proof fn lemma_kv_insert<KV, V>(s: Seq<(KV, V)>, i: int, k: KV, v: V)
    requires
        0 <= i <= s.len(),
        forall|j: int| 0 <= j < s.len() ==> (#[trigger] s[j]).0 != k,
    ensures
        kv_map(s.insert(i, (k, v))) == kv_map(s).insert(k, v),
    decreases s.len(),
{
    let t = s.insert(i, (k, v));
    if i == s.len() {
        assert(t.drop_last() =~= s);
        assert(t.last() == (k, v));
    } else {
        assert(t.last() == s.last());
        assert(t.drop_last() =~= s.drop_last().insert(i, (k, v)));
        lemma_kv_insert(s.drop_last(), i, k, v);
        assert(s.last().0 != k) by {
            assert(s[s.len() - 1].0 != k);
        }
        assert(kv_map(t) == kv_map(s.drop_last()).insert(k, v).insert(s.last().0, s.last().1));
        assert(kv_map(s.drop_last()).insert(k, v).insert(s.last().0, s.last().1)
            =~= kv_map(s.drop_last()).insert(s.last().0, s.last().1).insert(k, v));
    }
}

/// Replacing the pair that carries key `k` updates the map at `k`.
pub proof fn lemma_kv_update<KV, V>(s: Seq<(KV, V)>, i: int, k: KV, v: V)
    requires
        kv_distinct(s),
        0 <= i < s.len(),
        s[i].0 == k,
    ensures
        kv_map(s.update(i, (k, v))) == kv_map(s).insert(k, v),
    decreases s.len(),
{
    let t = s.update(i, (k, v));
    if i == s.len() - 1 {
        assert(t.drop_last() =~= s.drop_last());
        assert(t.last() == (k, v));
        assert(kv_map(s.drop_last()).insert(k, v)
            =~= kv_map(s.drop_last()).insert(s.last().0, s.last().1).insert(k, v));
    } else {
        assert(t.last() == s.last());
        assert(t.drop_last() =~= s.drop_last().update(i, (k, v)));
        assert(kv_distinct(s.drop_last()));
        assert(s.drop_last()[i] == s[i]);
        lemma_kv_update(s.drop_last(), i, k, v);
        assert(s.last().0 != k) by {
            assert(s[s.len() - 1].0 != s[i].0);
        }
        assert(kv_map(t) == kv_map(s.drop_last()).insert(k, v).insert(s.last().0, s.last().1));
        assert(kv_map(s.drop_last()).insert(k, v).insert(s.last().0, s.last().1)
            =~= kv_map(s.drop_last()).insert(s.last().0, s.last().1).insert(k, v));
    }
}

// ---------------------------------------------------------------------------
// A string-keyed table walked in ascending key order.
// ---------------------------------------------------------------------------

/// A table keyed by strings, kept in strictly ascending lexicographic key
/// order, as a key-value store keeps it.
pub struct StrMap<V> {
    pub entries: Vec<(String, V)>,
}

impl<V> StrMap<V> {
    /// The pairs with keys taken to their character sequences.
    pub open spec fn kvs(&self) -> Seq<(Seq<char>, V)> {
        self.entries@.map_values(|e: (String, V)| (e.0@, e.1))
    }

    /// The keys, in storage order.
    pub open spec fn key_seq(&self) -> Seq<Seq<char>> {
        self.entries@.map_values(|e: (String, V)| e.0@)
    }

    /// The table as a map.
    pub open spec fn as_map(&self) -> Map<Seq<char>, V> {
        kv_map(self.kvs())
    }

    pub open spec fn contains_key(&self, k: Seq<char>) -> bool {
        self.as_map().dom().contains(k)
    }

    pub open spec fn spec_index(&self, k: Seq<char>) -> V {
        self.as_map()[k]
    }

    /// Keys strictly ascend, which also makes them distinct.
    pub open spec fn wf(&self) -> bool {
        forall|i: int, j: int|
            0 <= i < j < self.entries@.len() ==> lex_lt(
                (#[trigger] self.entries@[i]).0@,
                (#[trigger] self.entries@[j]).0@,
            )
    }

    proof fn lemma_wf_distinct(&self)
        requires
            self.wf(),
        ensures
            kv_distinct(self.kvs()),
    {
        assert forall|i: int, j: int|
            0 <= i < j < self.kvs().len() implies (#[trigger] self.kvs()[i]).0 != (
        #[trigger] self.kvs()[j]).0 by {
            assert(lex_lt(self.entries@[i].0@, self.entries@[j].0@));
            if self.entries@[i].0@ == self.entries@[j].0@ {
                lemma_lex_irreflexive(self.entries@[i].0@);
            }
        }
    }

    /// An entry's key is in the map and leads back to its value.
    pub proof fn lemma_entry(&self, i: int)
        requires
            self.wf(),
            0 <= i < self.entries@.len(),
        ensures
            self.contains_key(self.entries@[i].0@),
            self.spec_index(self.entries@[i].0@) == self.entries@[i].1,
    {
        self.lemma_wf_distinct();
        lemma_kv_index(self.kvs(), i);
    }

    /// Every key of the map stands at some entry.
    pub proof fn lemma_contained_has_entry(&self, k: Seq<char>)
        requires
            self.contains_key(k),
        ensures
            exists|i: int|
                0 <= i < self.entries@.len() && (#[trigger] self.entries@[i]).0@ == k,
    {
        lemma_kv_contains(self.kvs(), k);
        let i = choose|i: int| 0 <= i < self.kvs().len() && (#[trigger] self.kvs()[i]).0 == k;
        assert(self.entries@[i].0@ == k);
    }

    pub fn new() -> (r: Self)
        ensures
            r.wf(),
            r.as_map() == Map::<Seq<char>, V>::empty(),
            r.key_seq() == Seq::<Seq<char>>::empty(),
            r.entries@.len() == 0,
    {
        let r = StrMap { entries: Vec::new() };
        proof {
            assert(r.kvs() =~= Seq::<(Seq<char>, V)>::empty());
            assert(r.key_seq() =~= Seq::<Seq<char>>::empty());
        }
        r
    }

    pub fn len(&self) -> (r: usize)
        ensures
            r == self.entries@.len(),
    {
        self.entries.len()
    }

    /// Looks a key up.
    pub fn get(&self, k: &str) -> (r: Option<&V>)
        requires
            self.wf(),
        ensures
            match r {
                Some(v) => self.contains_key(k@) && *v == self.spec_index(k@),
                None => !self.contains_key(k@),
            },
    {
        let n = self.entries.len();
        let mut i: usize = 0;
        while i < n
            invariant
                self.wf(),
                i <= n,
                n == self.entries@.len(),
                forall|j: int| 0 <= j < i ==> (#[trigger] self.entries@[j]).0@ != k@,
            decreases n - i,
        {
            let e = &self.entries[i];
            if crate::text::str_eq_str(e.0.as_str(), k) {
                proof {
                    self.lemma_entry(i as int);
                }
                return Some(&self.entries[i].1);
            }
            i = i + 1;
        }
        proof {
            lemma_kv_contains(self.kvs(), k@);
        }
        None
    }

    /// The index of the first entry whose key does not precede `k`.
    fn lower_bound(&self, k: &str) -> (r: usize)
        requires
            self.wf(),
        ensures
            r <= self.entries@.len(),
            forall|j: int| 0 <= j < r ==> lex_lt((#[trigger] self.entries@[j]).0@, k@),
            r < self.entries@.len() ==> !lex_lt(self.entries@[r as int].0@, k@),
    {
        let n = self.entries.len();
        let mut i: usize = 0;
        while i < n
            invariant
                i <= n,
                n == self.entries@.len(),
                forall|j: int| 0 <= j < i ==> lex_lt((#[trigger] self.entries@[j]).0@, k@),
            decreases n - i,
        {
            if !str_lt(self.entries[i].0.as_str(), k) {
                return i;
            }
            i = i + 1;
        }
        n
    }

    /// Inserts or overwrites; keeps keys sorted. A fresh key lengthens the
    /// key sequence by one, an existing key leaves it unchanged.
    pub fn insert(&mut self, k: String, v: V)
        requires
            old(self).wf(),
        ensures
            final(self).wf(),
            final(self).as_map() == old(self).as_map().insert(k@, v),
            old(self).contains_key(k@) ==> final(self).key_seq() == old(self).key_seq(),
            !old(self).contains_key(k@) ==> exists|p: int|
                0 <= p <= old(self).key_seq().len() && final(self).key_seq() == old(
                    self,
                ).key_seq().insert(p, k@),
    {
        let n = self.entries.len();
        let i = self.lower_bound(k.as_str());
        // Every entry before `i` precedes `k`; entry `i`, if any, does not.
        if i < n && str_eq(&self.entries[i].0, &k) {
            proof {
                self.lemma_wf_distinct();
                lemma_kv_index(self.kvs(), i as int);
                lemma_kv_update(self.kvs(), i as int, k@, v);
            }
            let ghost old_kvs = self.kvs();
            let ghost old_keys = self.key_seq();
            self.entries.remove(i);
            self.entries.insert(i, (k, v));
            proof {
                assert(self.entries@ =~= old(self).entries@.update(i as int, self.entries@[i as int]));
                assert(self.kvs() =~= old_kvs.update(i as int, (self.entries@[i as int].0@, self.entries@[i as int].1)));
                assert(self.key_seq() =~= old_keys);
                self.lemma_entry_order_update(old(self), i as int);
            }
        } else {
            proof {
                // k is fresh: entries before i precede k, entries from i follow it.
                assert forall|j: int| 0 <= j < old(self).entries@.len() implies (
                #[trigger] old(self).entries@[j]).0@ != k@ by {
                    if j < i {
                        lemma_lex_irreflexive(k@);
                    } else if j == i {
                        // not equal by the str_eq test
                    } else {
                        if old(self).entries@[j].0@ == k@ {
                            assert(lex_lt(old(self).entries@[i as int].0@, old(self).entries@[j].0@));
                            assert(!lex_lt(old(self).entries@[i as int].0@, k@));
                        }
                    }
                }
                assert(forall|j: int|
                    0 <= j < old(self).kvs().len() ==> (#[trigger] old(self).kvs()[j]).0 != k@);
                lemma_kv_insert(old(self).kvs(), i as int, k@, v);
                lemma_kv_contains(old(self).kvs(), k@);
            }
            let ghost old_kvs = self.kvs();
            let ghost old_keys = self.key_seq();
            let ghost pos = i as int;
            self.entries.insert(i, (k, v));
            proof {
                assert(self.kvs() =~= old_kvs.insert(pos, (self.entries@[pos].0@, self.entries@[pos].1)));
                assert(self.key_seq() =~= old_keys.insert(pos, self.entries@[pos].0@));
                self.lemma_sorted_after_fresh_insert(old(self), pos);
                assert(0 <= pos <= old(self).key_seq().len() && self.key_seq() == old(
                    self,
                ).key_seq().insert(pos, k@));
            }
        }
    }

    /// Overwriting an entry in place keeps the order well formed.
    proof fn lemma_entry_order_update(&self, prev: &Self, i: int)
        requires
            prev.wf(),
            0 <= i < prev.entries@.len(),
            self.entries@.len() == prev.entries@.len(),
            self.entries@[i].0@ == prev.entries@[i].0@,
            forall|j: int| 0 <= j < prev.entries@.len() && j != i
                ==> (#[trigger] self.entries@[j]) == prev.entries@[j],
        ensures
            self.wf(),
    {
        assert forall|p: int, q: int|
            0 <= p < q < self.entries@.len() implies lex_lt(
            (#[trigger] self.entries@[p]).0@,
            (#[trigger] self.entries@[q]).0@,
        ) by {
            assert(self.entries@[p].0@ == prev.entries@[p].0@);
            assert(self.entries@[q].0@ == prev.entries@[q].0@);
        }
    }

    /// Inserting a fresh key at its found position keeps keys ascending.
    proof fn lemma_sorted_after_fresh_insert(&self, prev: &Self, i: int)
        requires
            prev.wf(),
            0 <= i <= prev.entries@.len(),
            self.entries@ == prev.entries@.insert(i, self.entries@[i]),
            forall|j: int| 0 <= j < i ==> lex_lt((#[trigger] prev.entries@[j]).0@, self.entries@[i].0@),
            i < prev.entries@.len() ==> !lex_lt(prev.entries@[i].0@, self.entries@[i].0@),
            forall|j: int| 0 <= j < prev.entries@.len() ==> (#[trigger] prev.entries@[j]).0@
                != self.entries@[i].0@,
        ensures
            self.wf(),
    {
        let k = self.entries@[i].0@;
        // k precedes the first entry it was placed before.
        if i < prev.entries@.len() {
            lemma_lex_connex_strict(k, prev.entries@[i].0@);
        }
        assert forall|p: int, q: int|
            0 <= p < q < self.entries@.len() implies lex_lt(
            (#[trigger] self.entries@[p]).0@,
            (#[trigger] self.entries@[q]).0@,
        ) by {
            if p < i && q == i {
                assert(self.entries@[p] == prev.entries@[p]);
            } else if p == i && q > i {
                assert(self.entries@[q] == prev.entries@[q - 1]);
                if q - 1 == i {
                } else {
                    assert(lex_lt(prev.entries@[i].0@, prev.entries@[q - 1].0@));
                    lemma_lex_transitive(k, prev.entries@[i].0@, prev.entries@[q - 1].0@);
                }
            } else if p < i && q > i {
                assert(self.entries@[p] == prev.entries@[p]);
                assert(self.entries@[q] == prev.entries@[q - 1]);
            } else if p > i && q > i {
                assert(self.entries@[p] == prev.entries@[p - 1]);
                assert(self.entries@[q] == prev.entries@[q - 1]);
            } else {
                assert(self.entries@[p] == prev.entries@[p]);
                assert(self.entries@[q] == prev.entries@[q]);
            }
        }
    }
}

/// Two different sequences where the second does not precede the first:
/// the first strictly precedes the second.
proof fn lemma_lex_connex_strict(a: Seq<char>, b: Seq<char>)
    requires
        a != b,
        !lex_lt(b, a),
    ensures
        lex_lt(a, b),
{
    if !lex_lt(a, b) {
        lemma_lex_connex(a, b);
    }
}

// ---------------------------------------------------------------------------
// A table keyed by arbitrary comparable keys, kept in insertion order.
// ---------------------------------------------------------------------------

/// A key whose equality can be decided at its view.
pub trait AssocKey: View + Sized {
    fn key_eq(&self, other: &Self) -> (r: bool)
        ensures
            r == (self@ == other@),
    ;
}

impl AssocKey for u64 {
    fn key_eq(&self, other: &Self) -> (r: bool) {
        *self == *other
    }
}

impl AssocKey for (String, String) {
    fn key_eq(&self, other: &Self) -> (r: bool) {
        self.0.eq(&other.0) && self.1.eq(&other.1)
    }
}

/// A table in insertion order, with distinct keys.
pub struct AssocMap<K, V> {
    pub entries: Vec<(K, V)>,
}

impl<K: AssocKey, V> AssocMap<K, V> {
    /// The pairs with keys taken to their views.
    pub open spec fn kvs(&self) -> Seq<(K::V, V)> {
        self.entries@.map_values(|e: (K, V)| (e.0@, e.1))
    }

    /// The table as a map.
    pub open spec fn as_map(&self) -> Map<K::V, V> {
        kv_map(self.kvs())
    }

    pub open spec fn contains_key(&self, k: K::V) -> bool {
        self.as_map().dom().contains(k)
    }

    pub open spec fn spec_index(&self, k: K::V) -> V {
        self.as_map()[k]
    }

    pub open spec fn wf(&self) -> bool {
        kv_distinct(self.kvs())
    }

    pub fn new() -> (r: Self)
        ensures
            r.wf(),
            r.as_map() == Map::<K::V, V>::empty(),
            r.entries@.len() == 0,
    {
        let r = AssocMap { entries: Vec::new() };
        proof {
            assert(r.kvs() =~= Seq::<(K::V, V)>::empty());
        }
        r
    }

    /// An entry's key is in the map and leads back to its value.
    pub proof fn lemma_entry(&self, i: int)
        requires
            self.wf(),
            0 <= i < self.entries@.len(),
        ensures
            self.contains_key(self.entries@[i].0@),
            self.spec_index(self.entries@[i].0@) == self.entries@[i].1,
    {
        lemma_kv_index(self.kvs(), i);
    }

    /// Looks a key up.
    pub fn get(&self, k: &K) -> (r: Option<&V>)
        requires
            self.wf(),
        ensures
            match r {
                Some(v) => self.contains_key(k@) && *v == self.spec_index(k@),
                None => !self.contains_key(k@),
            },
    {
        let n = self.entries.len();
        let mut i: usize = 0;
        while i < n
            invariant
                self.wf(),
                i <= n,
                n == self.entries@.len(),
                forall|j: int| 0 <= j < i ==> (#[trigger] self.entries@[j]).0@ != k@,
            decreases n - i,
        {
            if self.entries[i].0.key_eq(k) {
                proof {
                    self.lemma_entry(i as int);
                }
                return Some(&self.entries[i].1);
            }
            i = i + 1;
        }
        proof {
            lemma_kv_contains(self.kvs(), k@);
        }
        None
    }

    /// The index of the entry carrying key `k`, if one does.
    fn find(&self, k: &K) -> (r: Option<usize>)
        ensures
            match r {
                Some(i) => i < self.entries@.len() && self.entries@[i as int].0@ == k@,
                None => forall|j: int|
                    0 <= j < self.entries@.len() ==> (#[trigger] self.entries@[j]).0@ != k@,
            },
    {
        let n = self.entries.len();
        let mut i: usize = 0;
        while i < n
            invariant
                i <= n,
                n == self.entries@.len(),
                forall|j: int| 0 <= j < i ==> (#[trigger] self.entries@[j]).0@ != k@,
            decreases n - i,
        {
            if self.entries[i].0.key_eq(k) {
                return Some(i);
            }
            i = i + 1;
        }
        None
    }

    /// Inserts or overwrites.
    pub fn insert(&mut self, k: K, v: V)
        requires
            old(self).wf(),
        ensures
            final(self).wf(),
            final(self).as_map() == old(self).as_map().insert(k@, v),
    {
        let ghost gk = k@;
        match self.find(&k) {
            Some(i) => {
                proof {
                    lemma_kv_update(self.kvs(), i as int, k@, v);
                }
                let ghost old_kvs = self.kvs();
                self.entries.remove(i);
                self.entries.insert(i, (k, v));
                proof {
                    assert(self.kvs() =~= old_kvs.update(i as int, (gk, v)));
                    assert forall|p: int, q: int|
                        0 <= p < q < self.kvs().len() implies (#[trigger] self.kvs()[p]).0 != (
                    #[trigger] self.kvs()[q]).0 by {
                        assert(old_kvs[p].0 == self.kvs()[p].0);
                        assert(old_kvs[q].0 == self.kvs()[q].0);
                    }
                }
            },
            None => {
                proof {
                    lemma_kv_insert(self.kvs(), self.kvs().len() as int, k@, v);
                    lemma_kv_contains(self.kvs(), k@);
                }
                let ghost old_kvs = self.kvs();
                self.entries.push((k, v));
                proof {
                    assert(self.kvs() =~= old_kvs.insert(old_kvs.len() as int, (gk, v)));
                    assert forall|p: int, q: int|
                        0 <= p < q < self.kvs().len() implies (#[trigger] self.kvs()[p]).0 != (
                    #[trigger] self.kvs()[q]).0 by {
                        if q < old_kvs.len() {
                            assert(old_kvs[p].0 == self.kvs()[p].0);
                            assert(old_kvs[q].0 == self.kvs()[q].0);
                        } else {
                            assert(old_kvs[p].0 == self.kvs()[p].0);
                            assert(self.kvs()[q].0 == gk);
                        }
                    }
                }
            },
        }
    }
}

} // verus!
