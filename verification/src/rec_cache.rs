//! The cache of recommendations: values under text keys, with a limit on how
//! many it holds. When it is full, putting a value drops one entry first.

use vstd::prelude::*;

use crate::text::same_text;

verus! {

/// No key occurs twice.
pub open spec fn distinct_keys(ks: Seq<String>) -> bool {
    forall|i: int, j: int| 0 <= i < ks.len() && 0 <= j < ks.len() && i != j ==> ks[i]@ != ks[j]@
}

/// The map from the text of each key to the value beside it.
pub open spec fn entries_map<V>(ks: Seq<String>, vs: Seq<V>) -> Map<Seq<char>, V>
    decreases ks.len(),
{
    if ks.len() == 0 {
        Map::empty()
    } else {
        entries_map(ks.drop_last(), vs.drop_last()).insert(ks.last()@, vs[ks.len() - 1])
    }
}

proof fn lemma_absent<V>(ks: Seq<String>, vs: Seq<V>, k: Seq<char>)
    requires
        forall|i: int| 0 <= i < ks.len() ==> ks[i]@ != k,
    ensures
        !entries_map(ks, vs).contains_key(k),
    decreases ks.len(),
{
    if ks.len() > 0 {
        lemma_absent(ks.drop_last(), vs.drop_last(), k);
    }
}

proof fn lemma_index<V>(ks: Seq<String>, vs: Seq<V>, i: int)
    requires
        ks.len() == vs.len(),
        distinct_keys(ks),
        0 <= i < ks.len(),
    ensures
        entries_map(ks, vs).contains_key(ks[i]@),
        entries_map(ks, vs)[ks[i]@] == vs[i],
    decreases ks.len(),
{
    if i < ks.len() - 1 {
        lemma_index(ks.drop_last(), vs.drop_last(), i);
    }
}

proof fn lemma_len<V>(ks: Seq<String>, vs: Seq<V>)
    requires
        ks.len() == vs.len(),
        distinct_keys(ks),
    ensures
        entries_map(ks, vs).dom().finite(),
        entries_map(ks, vs).len() == ks.len(),
    decreases ks.len(),
{
    if ks.len() > 0 {
        let t = ks.drop_last();
        lemma_len(t, vs.drop_last());
        lemma_absent(t, vs.drop_last(), ks.last()@);
    }
}

proof fn lemma_update<V>(ks: Seq<String>, vs: Seq<V>, i: int, v: V)
    requires
        ks.len() == vs.len(),
        distinct_keys(ks),
        0 <= i < ks.len(),
    ensures
        entries_map(ks, vs.update(i, v)) == entries_map(ks, vs).insert(ks[i]@, v),
    decreases ks.len(),
{
    let n = ks.len();
    let t = entries_map(ks.drop_last(), vs.drop_last());
    if i == n - 1 {
        assert(vs.update(i, v).drop_last() =~= vs.drop_last());
        assert(entries_map(ks, vs.update(i, v)) =~= t.insert(ks[i]@, v));
        assert(entries_map(ks, vs).insert(ks[i]@, v) =~= t.insert(ks[i]@, v));
    } else {
        assert(vs.update(i, v).drop_last() =~= vs.drop_last().update(i, v));
        lemma_update(ks.drop_last(), vs.drop_last(), i, v);
        assert(ks.last()@ != ks[i]@);
        assert(entries_map(ks, vs.update(i, v)) =~= entries_map(ks, vs).insert(ks[i]@, v));
    }
}

proof fn lemma_drop_first<V>(ks: Seq<String>, vs: Seq<V>)
    requires
        ks.len() == vs.len(),
        distinct_keys(ks),
        ks.len() > 0,
    ensures
        entries_map(ks.drop_first(), vs.drop_first()) == entries_map(ks, vs).remove(ks[0]@),
    decreases ks.len(),
{
    let n = ks.len();
    if n == 1 {
        assert(ks.drop_first().len() == 0);
        assert(entries_map(ks.drop_last(), vs.drop_last()) =~= Map::<Seq<char>, V>::empty());
        assert(entries_map(ks, vs).remove(ks[0]@) =~= Map::<Seq<char>, V>::empty());
    } else {
        assert(ks.drop_first().drop_last() =~= ks.drop_last().drop_first());
        assert(vs.drop_first().drop_last() =~= vs.drop_last().drop_first());
        lemma_drop_first(ks.drop_last(), vs.drop_last());
        assert(ks.drop_first().last() == ks.last());
        assert(ks.last()@ != ks[0]@);
        assert(entries_map(ks.drop_first(), vs.drop_first()) =~= entries_map(ks, vs).remove(ks[0]@));
    }
}

/// Where `key` stands among `keys`.
fn position(keys: &Vec<String>, key: &str) -> (r: Option<usize>)
    ensures
        match r {
            Some(i) => i < keys@.len() && keys@[i as int]@ == key@,
            None => forall|i: int| 0 <= i < keys@.len() ==> keys@[i]@ != key@,
        },
{
    let n = keys.len();
    for i in 0..n
        invariant
            n == keys@.len(),
            forall|j: int| 0 <= j < i ==> keys@[j]@ != key@,
    {
        if same_text(keys[i].as_str(), key) {
            return Some(i);
        }
    }
    None
}

/// Values of type `V` under text keys, at most `limit` of them when the limit
/// is above zero (zero means no limit).
pub struct RecCache<V> {
    keys: Vec<String>,
    values: Vec<V>,
    capacity: usize,
}

impl<V> View for RecCache<V> {
    type V = Map<Seq<char>, V>;

    closed spec fn view(&self) -> Map<Seq<char>, V> {
        entries_map(self.keys@, self.values@)
    }
}

impl<V> RecCache<V> {
    #[verifier::type_invariant]
    spec fn inv(self) -> bool {
        &&& self.keys@.len() == self.values@.len()
        &&& distinct_keys(self.keys@)
        &&& self.capacity > 0 ==> self.keys@.len() <= self.capacity
    }

    /// How many entries the cache holds at most; zero means no limit.
    pub closed spec fn limit(&self) -> nat {
        self.capacity as nat
    }

    /// An empty cache that holds at most `capacity` entries (zero: no limit).
    pub fn with_capacity(capacity: usize) -> (r: Self)
        ensures
            r@ == Map::<Seq<char>, V>::empty(),
            r.limit() == capacity,
    {
        let r = RecCache { keys: Vec::new(), values: Vec::new(), capacity };
        proof {
            assert(entries_map(r.keys@, r.values@) =~= Map::<Seq<char>, V>::empty());
        }
        r
    }

    /// The value under `key`, if there is one.
    pub fn get(&self, key: &str) -> (r: Option<&V>)
        ensures
            match r {
                Some(v) => self@.contains_key(key@) && *v == self@[key@],
                None => !self@.contains_key(key@),
            },
    {
        proof {
            use_type_invariant(self);
        }
        match position(&self.keys, key) {
            Some(i) => {
                proof {
                    lemma_index(self.keys@, self.values@, i as int);
                }
                Some(&self.values[i])
            },
            None => {
                proof {
                    lemma_absent(self.keys@, self.values@, key@);
                }
                None
            },
        }
    }

    /// Puts `value` under `key`. When the cache has a limit and holds that
    /// many entries, one entry is dropped first; which one is left open.
    pub fn put(&mut self, key: String, value: V)
        ensures
            final(self).limit() == old(self).limit(),
            if old(self).limit() > 0 && old(self)@.len() >= old(self).limit() {
                exists|k: Seq<char>|
                    old(self)@.contains_key(k) && final(self)@ == old(self)@.remove(k).insert(key@, value)
            } else {
                final(self)@ == old(self)@.insert(key@, value)
            },
            final(self)@.contains_key(key@),
            final(self)@[key@] == value,
            final(self).limit() > 0 ==> final(self)@.len() <= final(self).limit(),
    {
        proof {
            use_type_invariant(&*self);
            lemma_len(self.keys@, self.values@);
        }
        let evict = self.capacity > 0 && self.keys.len() >= self.capacity;
        let capacity = self.capacity;
        let mut taken = RecCache { keys: Vec::new(), values: Vec::new(), capacity };
        std::mem::swap(&mut taken, self);
        let RecCache { mut keys, mut values, capacity } = taken;
        let ghost m0 = entries_map(keys@, values@);
        let ghost k0 = keys@[0]@;
        if evict {
            proof {
                lemma_index(keys@, values@, 0);
                lemma_drop_first(keys@, values@);
                assert(keys@.remove(0) =~= keys@.drop_first());
                assert(values@.remove(0) =~= values@.drop_first());
            }
            keys.remove(0);
            values.remove(0);
            proof {
                assert(distinct_keys(keys@));
                assert(entries_map(keys@, values@) == m0.remove(k0));
            }
        }
        let ghost ks1 = keys@;
        let ghost vs1 = values@;
        let ghost m1 = entries_map(ks1, vs1);
        let found = position(&keys, key.as_str());
        let ghost kv = key@;
        match found {
            Some(i) => {
                proof {
                    lemma_update(keys@, values@, i as int, value);
                }
                values.set(i, value);
            },
            None => {
                proof {
                    lemma_absent(keys@, values@, kv);
                }
                keys.push(key);
                values.push(value);
                proof {
                    assert(keys@.drop_last() =~= ks1);
                    assert(values@.drop_last() =~= vs1);
                    assert(distinct_keys(keys@));
                }
            },
        }
        proof {
            assert(entries_map(keys@, values@) == m1.insert(kv, value));
            lemma_len(keys@, values@);
            lemma_len(ks1, vs1);
            if evict {
                assert(m0.contains_key(k0) && m1.insert(kv, value) == m0.remove(k0).insert(kv, value));
            }
        }
        *self = RecCache { keys, values, capacity };
    }

    /// Drops every entry; the limit stays.
    pub fn clear(&mut self)
        ensures
            final(self)@ == Map::<Seq<char>, V>::empty(),
            final(self).limit() == old(self).limit(),
    {
        let capacity = self.capacity;
        *self = RecCache { keys: Vec::new(), values: Vec::new(), capacity };
        proof {
            assert(entries_map(self.keys@, self.values@) =~= Map::<Seq<char>, V>::empty());
        }
    }
}

impl<V> Default for RecCache<V> {
    /// An empty cache with no limit.
    fn default() -> (r: Self)
        ensures
            r@ == Map::<Seq<char>, V>::empty(),
            r.limit() == 0,
    {
        Self::with_capacity(0)
    }
}

} // verus!
