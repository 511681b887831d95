//! State tables owned exclusively by the peer-coordination actor.
//!
//! Each table is an association list with pairwise-distinct keys, viewed
//! in specifications as a mathematical `Map` from key views to value
//! views. The actor is single-threaded, so the tables need no locking;
//! what matters is the correctness of each check-then-act sequence, and
//! that is what the contracts here pin down.

use vstd::prelude::*;
use vstd::pervasive::VecAdditionalExecFns;
use crate::varint::bytes_eq;

verus! {

/// A table key that can be compared in executable code, where the
/// comparison decides exactly view equality.
pub trait TableKey: View + Sized {
    fn key_eq(&self, other: &Self) -> (r: bool)
        ensures
            r <==> self@ == other@,
    ;
}

impl TableKey for Vec<u8> {
    fn key_eq(&self, other: &Self) -> (r: bool) {
        bytes_eq(self, other)
    }
}

impl TableKey for u64 {
    fn key_eq(&self, other: &Self) -> (r: bool) {
        *self == *other
    }
}

/// The map described by an association list: later entries would win,
/// but the table keeps keys distinct so no two entries ever collide.
spec fn entries_map<K: View, V: View>(s: Seq<(K, V)>) -> Map<K::V, V::V>
    decreases s.len(),
{
    if s.len() == 0 {
        Map::empty()
    } else {
        entries_map(s.drop_last()).insert(s.last().0@, s.last().1@)
    }
}

spec fn seq_has_key<K: View, V: View>(s: Seq<(K, V)>, k: K::V) -> bool {
    exists|i: int| 0 <= i < s.len() && s[i].0@ == k
}

spec fn distinct_keys<K: View, V: View>(s: Seq<(K, V)>) -> bool {
    forall|i: int, j: int| 0 <= i < j < s.len() ==> s[i].0@ != s[j].0@
}

proof fn lemma_map_contains<K: View, V: View>(s: Seq<(K, V)>, k: K::V)
    ensures
        entries_map(s).contains_key(k) <==> seq_has_key(s, k),
    decreases s.len(),
{
    if s.len() > 0 {
        lemma_map_contains(s.drop_last(), k);
        if s.last().0@ == k {
            assert(s[s.len() - 1].0@ == k);
        } else {
            if seq_has_key(s.drop_last(), k) {
                let i = choose|i: int| 0 <= i < s.drop_last().len() && s.drop_last()[i].0@ == k;
                assert(s[i].0@ == k);
            }
            if seq_has_key(s, k) {
                let i = choose|i: int| 0 <= i < s.len() && s[i].0@ == k;
                assert(i < s.len() - 1);
                assert(s.drop_last()[i].0@ == k);
            }
        }
    }
}

proof fn lemma_map_index<K: View, V: View>(s: Seq<(K, V)>, i: int)
    requires
        distinct_keys(s),
        0 <= i < s.len(),
    ensures
        entries_map(s).contains_key(s[i].0@),
        entries_map(s)[s[i].0@] == s[i].1@,
    decreases s.len(),
{
    if i < s.len() - 1 {
        assert(s[i].0@ != s[s.len() - 1].0@);
        assert(distinct_keys(s.drop_last())) by {
            assert(forall|a: int, b: int| 0 <= a < b < s.len() - 1
                ==> s.drop_last()[a].0@ != s.drop_last()[b].0@);
        }
        assert(s.drop_last()[i] == s[i]);
        lemma_map_index(s.drop_last(), i);
    }
}

proof fn lemma_map_update<K: View, V: View>(s: Seq<(K, V)>, i: int, e: (K, V))
    requires
        distinct_keys(s),
        0 <= i < s.len(),
        e.0@ == s[i].0@,
    ensures
        entries_map(s.update(i, e)) == entries_map(s).insert(e.0@, e.1@),
        distinct_keys(s.update(i, e)),
    decreases s.len(),
{
    let t = s.update(i, e);
    assert(forall|a: int| 0 <= a < s.len() ==> t[a].0@ == s[a].0@);
    if i == s.len() - 1 {
        assert(t.drop_last() =~= s.drop_last());
        assert(entries_map(s.drop_last()).insert(s.last().0@, s.last().1@).insert(e.0@, e.1@)
            =~= entries_map(s.drop_last()).insert(e.0@, e.1@));
    } else {
        assert(distinct_keys(s.drop_last())) by {
            assert(forall|a: int, b: int| 0 <= a < b < s.len() - 1
                ==> s.drop_last()[a].0@ != s.drop_last()[b].0@);
        }
        assert(t.drop_last() =~= s.drop_last().update(i, e));
        assert(s.drop_last()[i] == s[i]);
        lemma_map_update(s.drop_last(), i, e);
        let lk = s.last().0@;
        let lv = s.last().1@;
        assert(e.0@ != lk);
        assert(entries_map(s.drop_last()).insert(e.0@, e.1@).insert(lk, lv)
            =~= entries_map(s.drop_last()).insert(lk, lv).insert(e.0@, e.1@));
    }
}

proof fn lemma_map_push<K: View, V: View>(s: Seq<(K, V)>, e: (K, V))
    requires
        distinct_keys(s),
        !seq_has_key(s, e.0@),
    ensures
        entries_map(s.push(e)) == entries_map(s).insert(e.0@, e.1@),
        distinct_keys(s.push(e)),
    decreases s.len(),
{
    assert(s.push(e).drop_last() =~= s);
    assert(s.push(e).last() == e);
    assert(forall|a: int| 0 <= a < s.len() ==> s[a].0@ != e.0@);
    assert(forall|a: int| 0 <= a < s.len() ==> s.push(e)[a] == s[a]);
}

proof fn lemma_map_remove<K: View, V: View>(s: Seq<(K, V)>, i: int)
    requires
        distinct_keys(s),
        0 <= i < s.len(),
    ensures
        entries_map(s.remove(i)) == entries_map(s).remove(s[i].0@),
        distinct_keys(s.remove(i)),
    decreases s.len(),
{
    let k = s[i].0@;
    let t = s.remove(i);
    assert(forall|a: int| 0 <= a < i ==> t[a] == s[a]);
    assert(forall|a: int| i <= a < t.len() ==> t[a] == s[a + 1]);
    assert(distinct_keys(t)) by {
        assert(forall|a: int, b: int| 0 <= a < b < t.len()
            ==> t[a].0@ != t[b].0@) by {
            assert(forall|a: int| 0 <= a < t.len()
                ==> t[a] == (if a < i { s[a] } else { s[a + 1] }));
        }
    }
    assert(distinct_keys(s.drop_last())) by {
        assert(forall|a: int, b: int| 0 <= a < b < s.len() - 1
            ==> s.drop_last()[a].0@ != s.drop_last()[b].0@);
    }
    if i == s.len() - 1 {
        assert(t =~= s.drop_last());
        assert(!seq_has_key(s.drop_last(), k)) by {
            if seq_has_key(s.drop_last(), k) {
                let a = choose|a: int| 0 <= a < s.drop_last().len()
                    && s.drop_last()[a].0@ == k;
                assert(s[a].0@ == k);
            }
        }
        lemma_map_contains(s.drop_last(), k);
        assert(entries_map(s.drop_last()).insert(k, s.last().1@).remove(k)
            =~= entries_map(s.drop_last()));
    } else {
        assert(t.drop_last() =~= s.drop_last().remove(i));
        assert(t.last() == s.last());
        assert(s.drop_last()[i] == s[i]);
        lemma_map_remove(s.drop_last(), i);
        let lk = s.last().0@;
        let lv = s.last().1@;
        assert(k != lk);
        assert(entries_map(s.drop_last()).remove(k).insert(lk, lv)
            =~= entries_map(s.drop_last()).insert(lk, lv).remove(k));
    }
}

/// An associative table with distinct keys, owned by the actor.
pub struct Table<K: TableKey, V: View> {
    entries: Vec<(K, V)>,
}

impl<K: TableKey, V: View> View for Table<K, V> {
    type V = Map<K::V, V::V>;

    closed spec fn view(&self) -> Map<K::V, V::V> {
        entries_map(self.entries@)
    }
}

impl<K: TableKey, V: View> Table<K, V> {
    /// Well-formedness: no two entries share a key. Constructors
    /// establish it and every method preserves it.
    pub closed spec fn wf(&self) -> bool {
        distinct_keys(self.entries@)
    }

    /// The views of the keys, in insertion order.
    pub closed spec fn key_seq(&self) -> Seq<K::V> {
        Seq::new(self.entries@.len(), |i: int| self.entries@[i].0@)
    }

    /// An empty table.
    pub fn new() -> (t: Self)
        ensures
            t.wf(),
            t@ == Map::<K::V, V::V>::empty(),
            t.key_seq() == Seq::<K::V>::empty(),
    {
        let t = Table { entries: Vec::new() };
        proof {
            assert(t.key_seq() =~= Seq::<K::V>::empty());
        }
        t
    }

    /// How many bindings the table holds.
    pub fn len(&self) -> (n: usize)
        ensures
            n == self.key_seq().len(),
    {
        self.entries.len()
    }

    /// The key stored at position `i`.
    pub fn key_at(&self, i: usize) -> (k: &K)
        requires
            self.wf(),
            i < self.key_seq().len(),
        ensures
            k@ == self.key_seq()[i as int],
            self@.contains_key(k@),
    {
        proof {
            lemma_map_index(self.entries@, i as int);
        }
        &self.entries[i].0
    }

    fn find_index(&self, key: &K) -> (r: Option<usize>)
        ensures
            match r {
                Some(i) => i < self.entries@.len() && self.entries@[i as int].0@ == key@,
                None => !seq_has_key(self.entries@, key@),
            },
    {
        let mut i: usize = 0;
        while i < self.entries.len()
            invariant
                i <= self.entries@.len(),
                forall|j: int| 0 <= j < i ==> self.entries@[j].0@ != key@,
            decreases self.entries@.len() - i,
        {
            if self.entries[i].0.key_eq(key) {
                return Some(i);
            }
            i = i + 1;
        }
        None
    }

    /// The value bound to `key`, if any.
    pub fn get(&self, key: &K) -> (r: Option<&V>)
        requires
            self.wf(),
        ensures
            match r {
                Some(v) => self@.contains_key(key@) && v@ == self@[key@],
                None => !self@.contains_key(key@),
            },
    {
        proof {
            lemma_map_contains(self.entries@, key@);
        }
        match self.find_index(key) {
            Some(i) => {
                proof {
                    lemma_map_index(self.entries@, i as int);
                }
                Some(&self.entries[i].1)
            },
            None => None,
        }
    }

    /// Whether `key` is bound.
    pub fn contains(&self, key: &K) -> (r: bool)
        requires
            self.wf(),
        ensures
            r == self@.contains_key(key@),
    {
        match self.get(key) {
            Some(_) => true,
            None => false,
        }
    }

    /// Bind `key` to `value`, replacing any earlier binding of the key.
    pub fn insert(&mut self, key: K, value: V)
        requires
            old(self).wf(),
        ensures
            final(self).wf(),
            final(self)@ == old(self)@.insert(key@, value@),
            old(self)@.contains_key(key@) ==> final(self).key_seq() == old(self).key_seq(),
            !old(self)@.contains_key(key@)
                ==> final(self).key_seq() == old(self).key_seq().push(key@),
    {
        proof {
            lemma_map_contains(self.entries@, key@);
        }
        let ghost pre = self.entries@;
        let ghost kv = key@;
        let ghost vv = value@;
        match self.find_index(&key) {
            Some(i) => {
                self.entries.set(i, (key, value));
                proof {
                    let e = self.entries@[i as int];
                    assert(self.entries@ == pre.update(i as int, e));
                    assert(e.0@ == kv && e.1@ == vv);
                    lemma_map_update(pre, i as int, e);
                    assert(self.key_seq() =~= Seq::new(
                        pre.len(),
                        |j: int| pre[j].0@,
                    ));
                }
            },
            None => {
                self.entries.push((key, value));
                proof {
                    let e = self.entries@[pre.len() as int];
                    assert(self.entries@ == pre.push(e));
                    assert(e.0@ == kv && e.1@ == vv);
                    lemma_map_push(pre, e);
                    assert(self.key_seq() =~= Seq::new(
                        pre.len(),
                        |j: int| pre[j].0@,
                    ).push(kv));
                }
            },
        }
    }

    /// Unbind `key`, handing back the value it was bound to.
    pub fn remove(&mut self, key: &K) -> (r: Option<V>)
        requires
            old(self).wf(),
        ensures
            final(self).wf(),
            match r {
                Some(v) => old(self)@.contains_key(key@) && v@ == old(self)@[key@]
                    && final(self)@ == old(self)@.remove(key@),
                None => !old(self)@.contains_key(key@) && *final(self) == *old(self),
            },
    {
        proof {
            lemma_map_contains(self.entries@, key@);
        }
        let ghost pre = self.entries@;
        match self.find_index(key) {
            Some(i) => {
                proof {
                    lemma_map_index(pre, i as int);
                    lemma_map_remove(pre, i as int);
                }
                let kv = self.entries.remove(i);
                Some(kv.1)
            },
            None => None,
        }
    }
}

} // verus!
