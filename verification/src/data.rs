//! The session data container: an order-irrelevant mapping from string keys
//! to structured [`Value`]s, modelled as a `Map<Seq<char>, ValueModel>`.

use vstd::prelude::*;

use crate::value::{
    clone_value, lemma_pairs_model_index, lemma_pairs_model_len, pairs_model, value_model, Value,
    ValueModel,
};

verus! {

broadcast use vstd::std_specs::vec::group_vec_axioms, vstd::seq::group_seq_axioms;

/// The map described by a sequence of key/value pairs: a later pair for the
/// same key wins.
pub open spec fn pairs_to_map<V>(s: Seq<(Seq<char>, V)>) -> Map<Seq<char>, V>
    decreases s.len(),
{
    if s.len() == 0 {
        Map::empty()
    } else {
        pairs_to_map(s.drop_last()).insert(s.last().0, s.last().1)
    }
}

/// No two pairs carry the same key.
pub open spec fn keys_distinct<V>(s: Seq<(Seq<char>, V)>) -> bool {
    forall|i: int, j: int| 0 <= i < j < s.len() ==> (#[trigger] s[i]).0 != (#[trigger] s[j]).0
}

/// A key is in the map exactly when some pair carries it.
pub proof fn lemma_pairs_to_map_contains<V>(s: Seq<(Seq<char>, V)>, k: Seq<char>)
    ensures
        pairs_to_map(s).contains_key(k) <==> exists|i: int| 0 <= i < s.len() && (#[trigger] s[i]).0
            == k,
    decreases s.len(),
{
    if s.len() != 0 {
        lemma_pairs_to_map_contains(s.drop_last(), k);
        if s.last().0 == k {
            assert(s[s.len() - 1].0 == k);
        } else if pairs_to_map(s).contains_key(k) {
            let i = choose|i: int| 0 <= i < s.drop_last().len() && (#[trigger] s.drop_last()[i]).0
                == k;
            assert(s[i].0 == k);
        } else {
            assert forall|i: int| 0 <= i < s.len() implies (#[trigger] s[i]).0 != k by {
                if i < s.len() - 1 {
                    assert(s.drop_last()[i] == s[i]);
                }
            }
        }
    }
}

/// With distinct keys, the pair at index `i` gives the map's value at its key.
pub proof fn lemma_pairs_to_map_index<V>(s: Seq<(Seq<char>, V)>, i: int)
    requires
        keys_distinct(s),
        0 <= i < s.len(),
    ensures
        pairs_to_map(s).contains_key(s[i].0),
        pairs_to_map(s)[s[i].0] == s[i].1,
    decreases s.len(),
{
    if i < s.len() - 1 {
        assert(s.drop_last()[i] == s[i]);
        lemma_pairs_to_map_index(s.drop_last(), i);
        assert(s[i].0 != s.last().0);
    }
}

/// Replacing the pair at index `i`, keeping its key, updates the map at that
/// key.
pub proof fn lemma_pairs_to_map_update<V>(s: Seq<(Seq<char>, V)>, i: int, v: V)
    requires
        keys_distinct(s),
        0 <= i < s.len(),
    ensures
        pairs_to_map(s.update(i, (s[i].0, v))) =~= pairs_to_map(s).insert(s[i].0, v),
    decreases s.len(),
{
    let t = s.update(i, (s[i].0, v));
    if i == s.len() - 1 {
        assert(t.drop_last() =~= s.drop_last());
    } else {
        assert(t.drop_last() =~= s.drop_last().update(i, (s[i].0, v)));
        assert(s.drop_last()[i] == s[i]);
        lemma_pairs_to_map_update(s.drop_last(), i, v);
        assert(s[i].0 != s.last().0);
        assert(t.last() == s.last());
    }
}

/// Removing the pair at index `i` removes its key from the map, when keys are
/// distinct.
pub proof fn lemma_pairs_to_map_remove<V>(s: Seq<(Seq<char>, V)>, i: int)
    requires
        keys_distinct(s),
        0 <= i < s.len(),
    ensures
        pairs_to_map(s.remove(i)) =~= pairs_to_map(s).remove(s[i].0),
    decreases s.len(),
{
    let t = s.remove(i);
    if i == s.len() - 1 {
        assert(t =~= s.drop_last());
        lemma_pairs_to_map_contains(s.drop_last(), s[i].0);
        assert forall|k: int| 0 <= k < s.drop_last().len() implies (#[trigger] s.drop_last()[k]).0
            != s[i].0 by {
            assert(s[k] == s.drop_last()[k]);
        }
        assert(pairs_to_map(s.drop_last()) =~= pairs_to_map(s.drop_last()).remove(s[i].0));
    } else {
        assert(t.drop_last() =~= s.drop_last().remove(i));
        assert(s.drop_last()[i] == s[i]);
        lemma_pairs_to_map_remove(s.drop_last(), i);
        assert(t.last() == s.last());
        assert(s[i].0 != s.last().0);
    }
}

/// With distinct keys, the map has exactly one entry per pair.
pub proof fn lemma_pairs_to_map_dom_len<V>(s: Seq<(Seq<char>, V)>)
    requires
        keys_distinct(s),
    ensures
        pairs_to_map(s).dom().finite(),
        pairs_to_map(s).dom().len() == s.len(),
    decreases s.len(),
{
    if s.len() != 0 {
        lemma_pairs_to_map_dom_len(s.drop_last());
        lemma_pairs_to_map_contains(s.drop_last(), s.last().0);
        assert forall|k: int| 0 <= k < s.drop_last().len() implies (#[trigger] s.drop_last()[k]).0
            != s.last().0 by {
            assert(s[k] == s.drop_last()[k]);
            assert(s[s.len() - 1] == s.last());
        }
    }
}

/// The index of the pair carrying `key`, if one does.
pub(crate) fn find_key<T>(entries: &Vec<(String, T)>, key: &str) -> (r: Option<usize>)
    ensures
        r matches Some(i) ==> i < entries@.len() && entries@[i as int].0@ == key@,
        r is None ==> forall|i: int| 0 <= i < entries@.len() ==> (#[trigger] entries@[i]).0@
            != key@,
{
    let k: String = key.to_owned();
    let mut i: usize = 0;
    while i < entries.len()
        invariant
            i <= entries@.len(),
            k@ == key@,
            forall|j: int| 0 <= j < i ==> (#[trigger] entries@[j]).0@ != key@,
        decreases entries@.len() - i,
    {
        if entries[i].0 == k {
            return Some(i);
        }
        i = i + 1;
    }
    None
}

/// The data container: string keys to structured values, created empty,
/// cleared and replaced over a session's lifecycle.
#[derive(Debug)]
pub struct Data {
    entries: Vec<(String, Value)>,
}

impl View for Data {
    type V = Map<Seq<char>, ValueModel>;

    closed spec fn view(&self) -> Map<Seq<char>, ValueModel> {
        pairs_to_map(pairs_model(self.entries@))
    }
}

impl Data {
    /// Internal well-formedness: one pair per key.
    pub closed spec fn wf(&self) -> bool {
        keys_distinct(pairs_model(self.entries@))
    }

    /// Creates the empty container.
    pub fn new() -> (d: Data)
        ensures
            d.wf(),
            d@ == Map::<Seq<char>, ValueModel>::empty(),
    {
        Data { entries: Vec::new() }
    }

    /// How many keys are held.
    pub fn len(&self) -> (n: usize)
        requires
            self.wf(),
        ensures
            n == self@.dom().len(),
    {
        proof {
            broadcast use lemma_pairs_model_len;

            lemma_pairs_to_map_dom_len(pairs_model(self.entries@));
        }
        self.entries.len()
    }

    /// Whether no key is held.
    pub fn is_empty(&self) -> (b: bool)
        requires
            self.wf(),
        ensures
            b <==> self@ == Map::<Seq<char>, ValueModel>::empty(),
    {
        proof {
            broadcast use lemma_pairs_model_len;

            if self.entries@.len() != 0 {
                lemma_pairs_model_index(self.entries@, 0);
                lemma_pairs_to_map_contains(pairs_model(self.entries@), self.entries@[0].0@);
            } else {
                assert(pairs_model(self.entries@) =~= Seq::empty());
            }
        }
        self.entries.is_empty()
    }

    /// Whether `key` is held.
    pub fn contains_key(&self, key: &str) -> (b: bool)
        ensures
            b == self@.contains_key(key@),
    {
        proof {
            broadcast use lemma_pairs_model_len;

            let sm = pairs_model(self.entries@);
            lemma_pairs_to_map_contains(sm, key@);
            assert forall|i: int| 0 <= i < self.entries@.len() implies (#[trigger] sm[i]).0
                == self.entries@[i].0@ by {
                lemma_pairs_model_index(self.entries@, i);
            }
        }
        let r = find_key(&self.entries, key);
        match r {
            Some(i) => {
                proof {
                    let sm = pairs_model(self.entries@);
                    assert(sm[i as int].0 == key@);
                    assert(self@.contains_key(key@));
                }
                true
            },
            None => {
                proof {
                    let sm = pairs_model(self.entries@);
                    assert(forall|i: int|
                        0 <= i < sm.len() ==> (#[trigger] sm[i]).0 != key@);
                    assert(!self@.contains_key(key@));
                }
                false
            },
        }
    }

    /// The value held at `key`, or nothing: absence is an answer, not an
    /// error.
    pub fn get(&self, key: &str) -> (r: Option<&Value>)
        requires
            self.wf(),
        ensures
            (r is Some) == self@.contains_key(key@),
            r matches Some(v) ==> value_model(*v) == self@[key@],
    {
        proof {
            broadcast use lemma_pairs_model_len, lemma_pairs_model_index;

            lemma_pairs_to_map_contains(pairs_model(self.entries@), key@);
        }
        match find_key(&self.entries, key) {
            Some(i) => {
                proof {
                    lemma_pairs_to_map_index(pairs_model(self.entries@), i as int);
                }
                Some(&self.entries[i].1)
            },
            None => None,
        }
    }

    /// Puts `val` at `key` and hands back the value previously held there,
    /// if any.
    pub fn insert(&mut self, key: &str, val: Value) -> (prev: Option<Value>)
        requires
            old(self).wf(),
        ensures
            final(self).wf(),
            final(self)@ == old(self)@.insert(key@, value_model(val)),
            (prev is Some) == old(self)@.contains_key(key@),
            prev matches Some(p) ==> value_model(p) == old(self)@[key@],
    {
        proof {
            broadcast use lemma_pairs_model_len, lemma_pairs_model_index;

            lemma_pairs_to_map_contains(pairs_model(self.entries@), key@);
        }
        let ghost s0 = pairs_model(old(self).entries@);
        match find_key(&self.entries, key) {
            Some(i) => {
                proof {
                    lemma_pairs_to_map_index(s0, i as int);
                }
                let (k0, prev) = self.entries.remove(i);
                self.entries.insert(i, (k0, val));
                proof {
                    let s1 = pairs_model(self.entries@);
                    assert(self.entries@ =~= old(self).entries@.update(
                        i as int,
                        self.entries@[i as int],
                    ));
                    assert(s1 =~= s0.update(i as int, (key@, value_model(val))));
                    lemma_pairs_to_map_update(s0, i as int, value_model(val));
                    assert(final(self)@ =~= old(self)@.insert(key@, value_model(val)));
                }
                Some(prev)
            },
            None => {
                self.entries.push((key.to_owned(), val));
                proof {
                    let s1 = pairs_model(self.entries@);
                    assert(s1 =~= s0.push((key@, value_model(val))));
                    assert(s1.drop_last() =~= s0);
                    assert(final(self)@ =~= old(self)@.insert(key@, value_model(val)));
                }
                None
            },
        }
    }

    /// Deletes `key` and hands back the value it held, if any.
    pub fn remove(&mut self, key: &str) -> (prev: Option<Value>)
        requires
            old(self).wf(),
        ensures
            final(self).wf(),
            final(self)@ == old(self)@.remove(key@),
            (prev is Some) == old(self)@.contains_key(key@),
            prev matches Some(p) ==> value_model(p) == old(self)@[key@],
    {
        proof {
            broadcast use lemma_pairs_model_len, lemma_pairs_model_index;

            lemma_pairs_to_map_contains(pairs_model(self.entries@), key@);
        }
        let ghost s0 = pairs_model(old(self).entries@);
        match find_key(&self.entries, key) {
            Some(i) => {
                proof {
                    lemma_pairs_to_map_index(s0, i as int);
                    lemma_pairs_to_map_remove(s0, i as int);
                }
                let (_k0, prev) = self.entries.remove(i);
                proof {
                    assert(pairs_model(self.entries@) =~= s0.remove(i as int));
                    assert(final(self)@ =~= old(self)@.remove(key@));
                }
                Some(prev)
            },
            None => {
                proof {
                    assert(final(self)@ =~= old(self)@.remove(key@));
                }
                None
            },
        }
    }

    /// Empties the container.
    pub fn clear(&mut self)
        ensures
            final(self).wf(),
            final(self)@ == Map::<Seq<char>, ValueModel>::empty(),
    {
        self.entries.clear();
        proof {
            assert(pairs_model(self.entries@) =~= Seq::empty());
        }
    }

    /// A copy of the container that models the same map.
    pub fn duplicate(&self) -> (d: Data)
        requires
            self.wf(),
        ensures
            d.wf(),
            d@ == self@,
    {
        let mut out: Vec<(String, Value)> = Vec::new();
        let mut i: usize = 0;
        while i < self.entries.len()
            invariant
                i <= self.entries@.len(),
                out@.len() == i,
                forall|j: int|
                    0 <= j < i ==> (#[trigger] out@[j]).0@ == self.entries@[j].0@ && value_model(
                        out@[j].1,
                    ) == value_model(self.entries@[j].1),
            decreases self.entries@.len() - i,
        {
            let k = self.entries[i].0.clone();
            let c = clone_value(&self.entries[i].1);
            out.push((k, c));
            i = i + 1;
        }
        proof {
            broadcast use lemma_pairs_model_len, lemma_pairs_model_index;

            assert(pairs_model(out@) =~= pairs_model(self.entries@));
        }
        Data { entries: out }
    }
}

/// Round trip: after putting `v` at `k`, with no intervening remove or clear
/// of `k`, a read at `k` gives exactly `v` back. Stated over the container
/// model that the contracts of `get`, `set`, `insert` and `remove` use.
pub proof fn lemma_set_then_get(m: Map<Seq<char>, ValueModel>, k: Seq<char>, v: ValueModel)
    ensures
        m.insert(k, v).contains_key(k),
        m.insert(k, v)[k] == v,
{
}

/// Overwriting: a second put at the same key finds the first value as the
/// previous one, and a read after both gives the second value.
pub proof fn lemma_set_twice(
    m: Map<Seq<char>, ValueModel>,
    k: Seq<char>,
    v1: ValueModel,
    v2: ValueModel,
)
    ensures
        m.insert(k, v1).contains_key(k),
        m.insert(k, v1)[k] == v1,
        m.insert(k, v1).insert(k, v2)[k] == v2,
{
}

/// Removal: after a remove the key is gone — a read gives nothing — and
/// removing a key that is not held leaves the container as it was.
pub proof fn lemma_remove_then_get(m: Map<Seq<char>, ValueModel>, k: Seq<char>)
    ensures
        !m.remove(k).contains_key(k),
        !m.contains_key(k) ==> m.remove(k) == m,
{
    if !m.contains_key(k) {
        assert(m.remove(k) =~= m);
    }
}

} // verus!
