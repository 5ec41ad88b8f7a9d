//! A map from strings to values that remembers the order in which its keys
//! came.
use vstd::prelude::*;

use crate::text::str_eq;

verus! {

/// A map from strings to values, each key at most once.
#[derive(Debug)]
pub struct TextMap<V> {
    entries: Vec<(String, V)>,
}

/// Whether no key occurs twice in a list of pairs.
pub open spec fn keys_unique<V>(pairs: Seq<(String, V)>) -> bool {
    forall|i: int, j: int|
        0 <= i < j < pairs.len() ==> (#[trigger] pairs[i]).0@ != (#[trigger] pairs[j]).0@
}

/// Whether `key` stands at the place `i` of a list of pairs.
pub open spec fn key_at<V>(pairs: Seq<(String, V)>, key: Seq<char>, i: int) -> bool {
    0 <= i < pairs.len() && pairs[i].0@ == key
}

/// The map that a list of pairs stands for.
pub open spec fn pairs_map<V>(pairs: Seq<(String, V)>) -> Map<Seq<char>, V> {
    Map::new(
        |key: Seq<char>| exists|i: int| key_at(pairs, key, i),
        |key: Seq<char>| pairs[choose|i: int| key_at(pairs, key, i)].1,
    )
}

/// A pair in the list is a pair in the map.
pub proof fn lemma_pair_in_map<V>(pairs: Seq<(String, V)>, i: int)
    requires
        keys_unique(pairs),
        0 <= i < pairs.len(),
    ensures
        pairs_map(pairs).dom().contains(pairs[i].0@),
        pairs_map(pairs)[pairs[i].0@] == pairs[i].1,
{
    let key = pairs[i].0@;
    assert(key_at(pairs, key, i));
    let j = choose|j: int| key_at(pairs, key, j);
    assert(key_at(pairs, key, j));
    assert(i == j);
}

impl<V> TextMap<V> {
    /// The pairs in the order in which their keys came.
    pub closed spec fn pairs(&self) -> Seq<(String, V)> {
        self.entries@
    }

    #[verifier::type_invariant]
    spec fn wf(&self) -> bool {
        keys_unique(self.entries@)
    }

    /// The map without keys.
    pub fn new() -> (r: Self)
        ensures
            r@ == Map::<Seq<char>, V>::empty(),
            r.pairs().len() == 0,
    {
        let r = TextMap { entries: Vec::new() };
        assert(r@ =~= Map::<Seq<char>, V>::empty());
        r
    }

    /// The map is the one that the pairs stand for.
    pub proof fn lemma_view(&self)
        ensures
            self@ == pairs_map(self.pairs()),
    {
    }

    /// The keys of the map are the keys of the pairs.
    pub proof fn lemma_keys(&self)
        ensures
            forall|key: Seq<char>| #[trigger]
                self@.dom().contains(key) <==> exists|i: int|
                    0 <= i < self.pairs().len() && (#[trigger] self.pairs()[i]).0@ == key,
    {
        assert forall|key: Seq<char>| #[trigger]
            self@.dom().contains(key) <==> exists|i: int|
                0 <= i < self.pairs().len() && (#[trigger] self.pairs()[i]).0@ == key by {
            if self@.dom().contains(key) {
                let i = choose|i: int| key_at(self.entries@, key, i);
                assert(key_at(self.entries@, key, i));
                assert(self.pairs()[i].0@ == key);
            }
            if exists|i: int| 0 <= i < self.pairs().len() && (#[trigger] self.pairs()[i]).0@ == key {
                let i = choose|i: int| 0 <= i < self.pairs().len() && (#[trigger] self.pairs()[i]).0@ == key;
                assert(key_at(self.entries@, key, i));
            }
        }
    }

    /// How many keys there are.
    pub fn len(&self) -> (r: usize)
        ensures
            r == self.pairs().len(),
    {
        self.entries.len()
    }

    /// The pair at a place.
    pub fn entry(&self, i: usize) -> (r: &(String, V))
        requires
            i < self.pairs().len(),
        ensures
            *r == self.pairs()[i as int],
            self@.dom().contains(r.0@),
            self@[r.0@] == r.1,
    {
        proof {
            use_type_invariant(self);
            lemma_pair_in_map(self.entries@, i as int);
        }
        &self.entries[i]
    }

    /// The place of a key.
    fn find(&self, key: &str) -> (r: Option<usize>)
        ensures
            match r {
                Some(i) => key_at(self.entries@, key@, i as int),
                None => !self@.dom().contains(key@),
            },
    {
        let mut i: usize = 0;
        while i < self.entries.len()
            invariant
                i <= self.entries.len(),
                forall|k: int| 0 <= k < i ==> (#[trigger] self.entries@[k]).0@ != key@,
            decreases self.entries.len() - i,
        {
            if str_eq(self.entries[i].0.as_str(), key) {
                return Some(i);
            }
            i += 1;
        }
        None
    }

    /// Whether there is a value for a key.
    pub fn contains_key(&self, key: &str) -> (r: bool)
        ensures
            r == self@.dom().contains(key@),
    {
        match self.find(key) {
            Some(i) => {
                proof {
                    use_type_invariant(self);
                    lemma_pair_in_map(self.entries@, i as int);
                }
                true
            },
            None => false,
        }
    }

    /// The value of a key.
    pub fn get(&self, key: &str) -> (r: Option<&V>)
        ensures
            match r {
                Some(v) => self@.dom().contains(key@) && *v == self@[key@],
                None => !self@.dom().contains(key@),
            },
    {
        match self.find(key) {
            Some(i) => {
                proof {
                    use_type_invariant(self);
                    lemma_pair_in_map(self.entries@, i as int);
                }
                Some(&self.entries[i].1)
            },
            None => None,
        }
    }

    /// Takes a key out, and its value with it.
    pub fn remove(&mut self, key: &str) -> (r: Option<V>)
        ensures
            final(self)@ == old(self)@.remove(key@),
            match r {
                Some(v) => old(self)@.dom().contains(key@) && v == old(self)@[key@],
                None => !old(self)@.dom().contains(key@) && final(self).pairs() == old(self).pairs(),
            },
            r is Some ==> final(self).pairs().len() == old(self).pairs().len() - 1,
    {
        proof {
            use_type_invariant(&*self);
        }
        match self.find(key) {
            None => {
                assert(self@ =~= old(self)@.remove(key@));
                None
            },
            Some(i) => {
                let mut entries: Vec<(String, V)> = Vec::new();
                std::mem::swap(&mut entries, &mut self.entries);
                let ghost before = entries@;
                proof {
                    lemma_pair_in_map(before, i as int);
                }
                let pair = entries.remove(i);
                proof {
                    lemma_removed(before, i as int);
                }
                self.entries = entries;
                Some(pair.1)
            },
        }
    }

    /// Puts a value under a key, in the place of one that stood there.
    pub fn insert(&mut self, key: &str, value: V)
        ensures
            final(self)@ == old(self)@.insert(key@, value),
    {
        proof {
            use_type_invariant(&*self);
        }
        let found = self.find(key);
        let mut entries: Vec<(String, V)> = Vec::new();
        std::mem::swap(&mut entries, &mut self.entries);
        let ghost before = entries@;
        match found {
            None => {
                entries.push((key.to_owned(), value));
                proof {
                    lemma_pushed(before, entries@.last());
                    assert(entries@ =~= before.push(entries@.last()));
                }
            },
            Some(i) => {
                entries[i] = (key.to_owned(), value);
                proof {
                    lemma_updated(before, i as int, entries@[i as int]);
                    assert(entries@ =~= before.update(i as int, entries@[i as int]));
                }
            },
        }
        self.entries = entries;
    }

    /// Keeps the keys whose value `keep` accepts.
    pub fn retain<F: Fn(&V) -> bool>(&mut self, keep: F)
        requires
            forall|v: &V| call_requires(keep, (v,)),
        ensures
            forall|key: Seq<char>| #[trigger]
                final(self)@.dom().contains(key) ==> {
                    &&& old(self)@.dom().contains(key)
                    &&& final(self)@[key] == old(self)@[key]
                    &&& call_ensures(keep, (&old(self)@[key],), true)
                },
            forall|key: Seq<char>| #[trigger]
                old(self)@.dom().contains(key) && !final(self)@.dom().contains(key) ==> call_ensures(
                    keep,
                    (&old(self)@[key],),
                    false,
                ),
    {
        proof {
            use_type_invariant(&*self);
        }
        let mut rest: Vec<(String, V)> = Vec::new();
        std::mem::swap(&mut rest, &mut self.entries);
        let ghost all = rest@;
        let mut kept: Vec<(String, V)> = Vec::new();
        let ghost mut from: Seq<int> = Seq::empty();
        let ghost mut done: int = 0;
        while rest.len() > 0
            invariant
                forall|v: &V| call_requires(keep, (v,)),
                keys_unique(all),
                0 <= done <= all.len(),
                rest@ == all.skip(done),
                from.len() == kept@.len(),
                forall|i: int| 0 <= i < from.len() ==> 0 <= #[trigger] from[i] < done && kept@[i] == all[from[i]]
                    && call_ensures(keep, (&all[from[i]].1,), true),
                forall|i: int, j: int| 0 <= i < j < from.len() ==> from[i] < from[j],
                forall|k: int| 0 <= k < done ==> from.contains(k) || call_ensures(
                    keep,
                    (&(#[trigger] all[k]).1,),
                    false,
                ),
            decreases rest.len(),
        {
            let pair = rest.remove(0);
            assert(pair == all[done]);
            assert(rest@ =~= all.skip(done + 1));
            let ghost before = from;
            if keep(&pair.1) {
                kept.push(pair);
                proof {
                    from = from.push(done);
                    assert(from[before.len() as int] == done);
                    assert forall|k: int| 0 <= k < done && before.contains(k) implies from.contains(k) by {
                        let i = choose|i: int| 0 <= i < before.len() && before[i] == k;
                        assert(from[i] == k);
                    }
                }
            }
            proof {
                done = done + 1;
            }
        }
        assert forall|i: int, j: int| 0 <= i < j < kept@.len() implies (#[trigger] kept@[i]).0@ != (
        #[trigger] kept@[j]).0@ by {
            assert(kept@[i] == all[from[i]] && kept@[j] == all[from[j]]);
        }
        self.entries = kept;
        proof {
            assert forall|key: Seq<char>| #[trigger] self@.dom().contains(key) implies {
                &&& old(self)@.dom().contains(key)
                &&& self@[key] == old(self)@[key]
                &&& call_ensures(keep, (&old(self)@[key],), true)
            } by {
                let i = choose|i: int| key_at(kept@, key, i);
                assert(key_at(kept@, key, i));
                lemma_pair_in_map(kept@, i);
                lemma_pair_in_map(all, from[i]);
            }
            assert forall|key: Seq<char>| #[trigger]
                old(self)@.dom().contains(key) && !self@.dom().contains(key) implies call_ensures(
                keep,
                (&old(self)@[key],),
                false,
            ) by {
                let k = choose|k: int| key_at(all, key, k);
                assert(key_at(all, key, k));
                lemma_pair_in_map(all, k);
                if from.contains(k) {
                    let i = choose|i: int| 0 <= i < from.len() && from[i] == k;
                    lemma_pair_in_map(kept@, i);
                }
            }
        }
    }
}

impl<V> View for TextMap<V> {
    type V = Map<Seq<char>, V>;

    closed spec fn view(&self) -> Map<Seq<char>, V> {
        pairs_map(self.entries@)
    }
}

proof fn lemma_removed<V>(pairs: Seq<(String, V)>, at: int)
    requires
        keys_unique(pairs),
        0 <= at < pairs.len(),
    ensures
        keys_unique(pairs.remove(at)),
        pairs_map(pairs.remove(at)) == pairs_map(pairs).remove(pairs[at].0@),
{
    let after = pairs.remove(at);
    assert forall|i: int, j: int| 0 <= i < j < after.len() implies (#[trigger] after[i]).0@ != (
    #[trigger] after[j]).0@ by {
        let i2 = if i < at { i } else { i + 1 };
        let j2 = if j < at { j } else { j + 1 };
        assert(after[i] == pairs[i2] && after[j] == pairs[j2]);
    }
    let m = pairs_map(pairs).remove(pairs[at].0@);
    assert forall|key: Seq<char>| pairs_map(after).dom().contains(key) == m.dom().contains(key) by {
        if pairs_map(after).dom().contains(key) {
            let i = choose|i: int| key_at(after, key, i);
            assert(key_at(after, key, i));
            let i2 = if i < at { i } else { i + 1 };
            assert(key_at(pairs, key, i2));
            assert(pairs[i2].0@ != pairs[at].0@);
        }
        if m.dom().contains(key) {
            let i = choose|i: int| key_at(pairs, key, i);
            assert(key_at(pairs, key, i));
            let i2 = if i < at { i } else { i - 1 };
            assert(key_at(after, key, i2));
        }
    }
    assert forall|key: Seq<char>| m.dom().contains(key) implies pairs_map(after)[key] == m[key] by {
        let i = choose|i: int| key_at(pairs, key, i);
        assert(key_at(pairs, key, i));
        let i2 = if i < at { i } else { i - 1 };
        lemma_pair_in_map(after, i2);
        lemma_pair_in_map(pairs, i);
    }
    assert(pairs_map(after) =~= m);
}

proof fn lemma_pushed<V>(pairs: Seq<(String, V)>, pair: (String, V))
    requires
        keys_unique(pairs),
        !pairs_map(pairs).dom().contains(pair.0@),
    ensures
        keys_unique(pairs.push(pair)),
        pairs_map(pairs.push(pair)) == pairs_map(pairs).insert(pair.0@, pair.1),
{
    let after = pairs.push(pair);
    assert forall|i: int, j: int| 0 <= i < j < after.len() implies (#[trigger] after[i]).0@ != (
    #[trigger] after[j]).0@ by {
        if j == pairs.len() {
            assert(key_at(pairs, pairs[i].0@, i));
        } else {
            assert(after[i] == pairs[i] && after[j] == pairs[j]);
        }
    }
    let m = pairs_map(pairs).insert(pair.0@, pair.1);
    assert forall|key: Seq<char>| pairs_map(after).dom().contains(key) == m.dom().contains(key) by {
        if pairs_map(after).dom().contains(key) {
            let i = choose|i: int| key_at(after, key, i);
            assert(key_at(after, key, i));
            if i < pairs.len() {
                assert(key_at(pairs, key, i));
            }
        }
        if m.dom().contains(key) {
            if key == pair.0@ {
                assert(key_at(after, key, pairs.len() as int));
            } else {
                let i = choose|i: int| key_at(pairs, key, i);
                assert(key_at(pairs, key, i));
                assert(key_at(after, key, i));
            }
        }
    }
    assert forall|key: Seq<char>| m.dom().contains(key) implies pairs_map(after)[key] == m[key] by {
        if key == pair.0@ {
            lemma_pair_in_map(after, pairs.len() as int);
        } else {
            let i = choose|i: int| key_at(pairs, key, i);
            assert(key_at(pairs, key, i));
            lemma_pair_in_map(after, i);
            lemma_pair_in_map(pairs, i);
        }
    }
    assert(pairs_map(after) =~= m);
}

proof fn lemma_updated<V>(pairs: Seq<(String, V)>, at: int, pair: (String, V))
    requires
        keys_unique(pairs),
        0 <= at < pairs.len(),
        pairs[at].0@ == pair.0@,
    ensures
        keys_unique(pairs.update(at, pair)),
        pairs_map(pairs.update(at, pair)) == pairs_map(pairs).insert(pair.0@, pair.1),
{
    let after = pairs.update(at, pair);
    assert forall|i: int, j: int| 0 <= i < j < after.len() implies (#[trigger] after[i]).0@ != (
    #[trigger] after[j]).0@ by {
        assert(after[i].0@ == pairs[i].0@ && after[j].0@ == pairs[j].0@);
    }
    let m = pairs_map(pairs).insert(pair.0@, pair.1);
    assert forall|key: Seq<char>| pairs_map(after).dom().contains(key) == m.dom().contains(key) by {
        if pairs_map(after).dom().contains(key) {
            let i = choose|i: int| key_at(after, key, i);
            assert(key_at(after, key, i));
            assert(key_at(pairs, key, i));
        }
        if m.dom().contains(key) {
            if key == pair.0@ {
                assert(key_at(after, key, at));
            } else {
                let i = choose|i: int| key_at(pairs, key, i);
                assert(key_at(pairs, key, i));
                assert(key_at(after, key, i));
            }
        }
    }
    assert forall|key: Seq<char>| m.dom().contains(key) implies pairs_map(after)[key] == m[key] by {
        if key == pair.0@ {
            lemma_pair_in_map(after, at);
        } else {
            let i = choose|i: int| key_at(pairs, key, i);
            assert(key_at(pairs, key, i));
            lemma_pair_in_map(after, i);
            lemma_pair_in_map(pairs, i);
        }
    }
    assert(pairs_map(after) =~= m);
}

} // verus!
