//! An insertion-ordered association map with `String` keys, modelled in
//! specifications as a `Map<Seq<char>, V>`.  It is the building block of the
//! store's persona -> app -> key hierarchy.

use vstd::prelude::*;

use crate::strutil::str_eq;

verus! {

/// The map denoted by a sequence of key/value pairs; later pairs win.
pub open spec fn map_of<V>(pairs: Seq<(String, V)>) -> Map<Seq<char>, V>
    decreases pairs.len(),
{
    if pairs.len() == 0 {
        Map::empty()
    } else {
        map_of(pairs.drop_last()).insert(pairs.last().0@, pairs.last().1)
    }
}

/// No two pairs share a key.
pub open spec fn keys_distinct<V>(pairs: Seq<(String, V)>) -> bool {
    forall|i: int, j: int| 0 <= i < j < pairs.len() ==> (#[trigger] pairs[i]).0@ != (
    #[trigger] pairs[j]).0@
}

/// The domain of `map_of` is exactly the set of keys of the pairs.
pub proof fn lemma_map_of_dom<V>(pairs: Seq<(String, V)>)
    ensures
        forall|k: Seq<char>| #[trigger]
            map_of(pairs).contains_key(k) <==> exists|i: int|
                0 <= i < pairs.len() && (#[trigger] pairs[i]).0@ == k,
    decreases pairs.len(),
{
    if pairs.len() > 0 {
        lemma_map_of_dom(pairs.drop_last());
        assert forall|k: Seq<char>| #[trigger] map_of(pairs).contains_key(k) implies exists|i: int|
            0 <= i < pairs.len() && (#[trigger] pairs[i]).0@ == k by {
            if k == pairs.last().0@ {
                assert((pairs[pairs.len() - 1]).0@ == k);
            } else {
                assert(map_of(pairs.drop_last()).contains_key(k));
                let i = choose|i: int|
                    0 <= i < pairs.drop_last().len() && (#[trigger] pairs.drop_last()[i]).0@ == k;
                assert(0 <= i < pairs.len() - 1);
                assert(pairs.drop_last()[i] == pairs[i]);
                assert((pairs[i]).0@ == k);
            }
        }
        assert forall|k: Seq<char>|
            exists|i: int|
                0 <= i < pairs.len() && (#[trigger] pairs[i]).0@ == k implies #[trigger] map_of(
            pairs,
        ).contains_key(k) by {
            let i = choose|i: int| 0 <= i < pairs.len() && (#[trigger] pairs[i]).0@ == k;
            if i < pairs.len() - 1 {
                assert(pairs.drop_last()[i] == pairs[i]);
                assert(exists|j: int|
                    0 <= j < pairs.drop_last().len() && (#[trigger] pairs.drop_last()[j]).0@ == k);
                assert(map_of(pairs.drop_last()).contains_key(k));
            } else {
                assert(pairs.last().0@ == k);
            }
        }
    }
}

/// With distinct keys, the pair at index `i` gives the map's value at its key.
pub proof fn lemma_map_of_index<V>(pairs: Seq<(String, V)>, i: int)
    requires
        keys_distinct(pairs),
        0 <= i < pairs.len(),
    ensures
        map_of(pairs).contains_key(pairs[i].0@),
        map_of(pairs)[pairs[i].0@] == pairs[i].1,
    decreases pairs.len(),
{
    if i == pairs.len() - 1 {
    } else {
        lemma_map_of_index(pairs.drop_last(), i);
        assert(pairs.drop_last()[i] == pairs[i]);
        assert(pairs[i].0@ != pairs.last().0@);
    }
}

/// With distinct keys, removing the pair at index `i` removes its key from
/// the map.
pub proof fn lemma_map_of_remove<V>(pairs: Seq<(String, V)>, i: int)
    requires
        keys_distinct(pairs),
        0 <= i < pairs.len(),
    ensures
        map_of(pairs.remove(i)) == map_of(pairs).remove(pairs[i].0@),
    decreases pairs.len(),
{
    lemma_map_of_dom(pairs.drop_last());
    if i == pairs.len() - 1 {
        assert(pairs.remove(i) =~= pairs.drop_last());
        assert(!map_of(pairs.drop_last()).contains_key(pairs[i].0@));
        assert(map_of(pairs.drop_last()).insert(pairs.last().0@, pairs.last().1).remove(
            pairs[i].0@,
        ) =~= map_of(pairs.drop_last()));
    } else {
        lemma_map_of_remove(pairs.drop_last(), i);
        assert(pairs.remove(i).len() == pairs.len() - 1);
        assert(pairs.remove(i).drop_last() =~= pairs.drop_last().remove(i));
        assert(pairs.remove(i).last() == pairs.last());
        assert(pairs[i].0@ != pairs.last().0@);
        assert(map_of(pairs.remove(i)) == map_of(pairs.drop_last().remove(i)).insert(
            pairs.last().0@,
            pairs.last().1,
        ));
        assert(map_of(pairs.drop_last()).remove(pairs[i].0@).insert(pairs.last().0@, pairs.last().1)
            =~= map_of(pairs.drop_last()).insert(pairs.last().0@, pairs.last().1).remove(
            pairs[i].0@,
        ));
    }
}

/// An insertion-ordered map from `String` keys to values of type `V`.
pub struct Dict<V> {
    pairs: Vec<(String, V)>,
}

impl<V> View for Dict<V> {
    type V = Map<Seq<char>, V>;

    closed spec fn view(&self) -> Map<Seq<char>, V> {
        map_of(self.pairs@)
    }
}

impl<V> Dict<V> {
    /// Well-formedness: no two pairs share a key.  Constructors establish
    /// it and every method preserves it.
    pub closed spec fn wf(&self) -> bool {
        keys_distinct(self.pairs@)
    }

    /// The keys in iteration order.
    pub closed spec fn key_seq(&self) -> Seq<Seq<char>> {
        self.pairs@.map_values(|p: (String, V)| p.0@)
    }

    /// The keys of the map are exactly the keys of the iteration order,
    /// each appearing once.
    pub proof fn lemma_key_facts(&self)
        requires
            self.wf(),
        ensures
            self.key_seq().to_set() == self@.dom(),
            forall|i: int, j: int|
                0 <= i < j < self.key_seq().len() ==> self.key_seq()[i] != self.key_seq()[j],
            forall|i: int|
                0 <= i < self.key_seq().len() ==> #[trigger] self@.contains_key(self.key_seq()[i]),
    {
        lemma_map_of_dom(self.pairs@);
        assert forall|i: int| 0 <= i < self.key_seq().len() implies #[trigger] self@.contains_key(
            self.key_seq()[i],
        ) by {
            lemma_map_of_index(self.pairs@, i);
        }
        assert forall|k: Seq<char>| #[trigger] self@.dom().contains(k) implies self.key_seq(
        ).to_set().contains(k) by {
            let i = choose|i: int| 0 <= i < self.pairs@.len() && (#[trigger] self.pairs@[i]).0@ == k;
            assert(self.key_seq()[i] == k);
        }
        assert forall|k: Seq<char>| #[trigger]
            self.key_seq().to_set().contains(k) implies self@.dom().contains(k) by {
            let i = choose|i: int| 0 <= i < self.key_seq().len() && self.key_seq()[i] == k;
            assert((self.pairs@[i]).0@ == k);
        }
        assert(self.key_seq().to_set() =~= self@.dom());
    }

    /// An empty map.
    pub fn new() -> (d: Self)
        ensures
            d.wf(),
            d@ == Map::<Seq<char>, V>::empty(),
            d.key_seq() == Seq::<Seq<char>>::empty(),
    {
        let d = Dict { pairs: Vec::new() };
        proof {
            assert(d.key_seq() =~= Seq::<Seq<char>>::empty());
        }
        d
    }

    /// How many entries the map holds.
    pub fn len(&self) -> (n: usize)
        requires
            self.wf(),
        ensures
            n == self.key_seq().len(),
    {
        self.pairs.len()
    }

    /// The index of the pair holding `key`, if any.
    fn find(&self, key: &str) -> (r: Option<usize>)
        requires
            self.wf(),
        ensures
            match r {
                Some(i) => i < self.pairs@.len() && self.pairs@[i as int].0@ == key@
                    && self@.contains_key(key@),
                None => !self@.contains_key(key@),
            },
    {
        proof {
            lemma_map_of_dom(self.pairs@);
        }
        let n = self.pairs.len();
        let mut i: usize = 0;
        while i < n
            invariant
                n == self.pairs@.len(),
                i <= n,
                forall|j: int| 0 <= j < i ==> (#[trigger] self.pairs@[j]).0@ != key@,
                forall|k: Seq<char>| #[trigger]
                    map_of(self.pairs@).contains_key(k) <==> exists|j: int|
                        0 <= j < self.pairs@.len() && (#[trigger] self.pairs@[j]).0@ == k,
            decreases n - i,
        {
            if str_eq(self.pairs[i].0.as_str(), key) {
                return Some(i);
            }
            i = i + 1;
        }
        None
    }

    /// A borrow of the value at `key`, if present.
    pub fn get<'a>(&'a self, key: &str) -> (r: Option<&'a V>)
        requires
            self.wf(),
        ensures
            match r {
                Some(v) => self@.contains_key(key@) && *v == self@[key@],
                None => !self@.contains_key(key@),
            },
    {
        match self.find(key) {
            Some(i) => {
                proof {
                    lemma_map_of_index(self.pairs@, i as int);
                }
                Some(&self.pairs[i].1)
            },
            None => None,
        }
    }

    /// Whether `key` is present.
    pub fn contains_key(&self, key: &str) -> (r: bool)
        requires
            self.wf(),
        ensures
            r == self@.contains_key(key@),
    {
        self.find(key).is_some()
    }

    /// Removes and returns the value at `key`, if present.
    pub fn take(&mut self, key: &str) -> (r: Option<V>)
        requires
            old(self).wf(),
        ensures
            final(self).wf(),
            final(self)@ == old(self)@.remove(key@),
            match r {
                Some(v) => old(self)@.contains_key(key@) && v == old(self)@[key@],
                None => !old(self)@.contains_key(key@),
            },
    {
        let ghost pre = self.pairs@;
        match self.find(key) {
            Some(i) => {
                proof {
                    lemma_map_of_index(pre, i as int);
                    lemma_map_of_remove(pre, i as int);
                }
                let (_, v) = self.pairs.remove(i);
                proof {
                    assert(self.pairs@ =~= pre.remove(i as int));
                    assert(keys_distinct(self.pairs@));
                }
                Some(v)
            },
            None => {
                proof {
                    assert(old(self)@.remove(key@) =~= old(self)@);
                }
                None
            },
        }
    }

    /// Inserts `value` at `key`, replacing any previous value.
    pub fn insert(&mut self, key: String, value: V)
        requires
            old(self).wf(),
        ensures
            final(self).wf(),
            final(self)@ == old(self)@.insert(key@, value),
    {
        let _ = self.take(key.as_str());
        let ghost mid = self.pairs@;
        proof {
            lemma_map_of_dom(mid);
            assert(!map_of(mid).contains_key(key@));
            assert(forall|j: int| 0 <= j < mid.len() ==> (#[trigger] mid[j]).0@ != key@);
        }
        self.pairs.push((key, value));
        proof {
            assert(self.pairs@.drop_last() =~= mid);
            assert(keys_distinct(self.pairs@));
            assert(final(self)@ == map_of(mid).insert(key@, value));
            assert(final(self)@ =~= old(self)@.insert(key@, value));
        }
    }

    /// The key at position `i` of the iteration order.
    pub fn key_at(&self, i: usize) -> (r: &String)
        requires
            self.wf(),
            i < self.key_seq().len(),
        ensures
            r@ == self.key_seq()[i as int],
            self@.contains_key(r@),
    {
        proof {
            lemma_map_of_index(self.pairs@, i as int);
        }
        &self.pairs[i].0
    }

    /// The value at position `i` of the iteration order.
    pub fn val_at(&self, i: usize) -> (r: &V)
        requires
            self.wf(),
            i < self.key_seq().len(),
        ensures
            self@.contains_key(self.key_seq()[i as int]),
            *r == self@[self.key_seq()[i as int]],
    {
        proof {
            lemma_map_of_index(self.pairs@, i as int);
        }
        &self.pairs[i].1
    }

    /// All keys, in iteration order.
    pub fn keys(&self) -> (r: Vec<String>)
        requires
            self.wf(),
        ensures
            r@.map_values(|s: String| s@) == self.key_seq(),
    {
        let n = self.pairs.len();
        let mut r: Vec<String> = Vec::new();
        let mut i: usize = 0;
        while i < n
            invariant
                n == self.pairs@.len(),
                i <= n,
                r@.len() == i,
                forall|j: int| 0 <= j < i ==> (#[trigger] r@[j])@ == self.key_seq()[j],
            decreases n - i,
        {
            r.push(self.pairs[i].0.clone());
            i = i + 1;
        }
        proof {
            assert(r@.map_values(|s: String| s@) =~= self.key_seq());
        }
        r
    }
}

} // verus!
