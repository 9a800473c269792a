//! A map from text to values that remembers the order of insertion.
//!
//! Entries live in two parallel vectors; a hash table over a fixed hash of the
//! key finds the entry of a given key.

use std::collections::HashMap;

use vstd::prelude::*;

verus! {

broadcast use vstd::std_specs::hash::group_hash_axioms;

/// The hash of a text: FNV-1a over its characters.
pub open spec fn text_hash(s: Seq<char>) -> u64
    decreases s.len(),
{
    if s.len() == 0 {
        0xcbf29ce484222325
    } else {
        (text_hash(s.drop_last()) ^ (s.last() as u64)).wrapping_mul(0x100000001b3)
    }
}

fn hash_of(s: &str) -> (r: u64)
    ensures
        r == text_hash(s@),
{
    let mut h: u64 = 0xcbf29ce484222325;
    for c in it: s.chars()
        invariant
            it.seq() == s@,
            h == text_hash(it.seq().take(it.index() as int)),
    {
        let ghost i = it.index() as int;
        proof {
            assert(s@.take(i + 1).drop_last() =~= s@.take(i));
        }
        h = (h ^ (c as u64)).wrapping_mul(0x100000001b3);
    }
    proof {
        assert(s@.take(s@.len() as int) =~= s@);
    }
    h
}

/// The map that pairs each of `keys` with the value at its position.
spec fn table<V>(keys: Seq<Seq<char>>, values: Seq<V>) -> Map<Seq<char>, V> {
    Map::new(|k: Seq<char>| keys.contains(k), |k: Seq<char>| values[keys.index_of(k)])
}

proof fn table_at<V>(keys: Seq<Seq<char>>, values: Seq<V>, i: int)
    requires
        keys.no_duplicates(),
        keys.len() == values.len(),
        0 <= i < keys.len(),
    ensures
        table(keys, values).dom().contains(keys[i]),
        table(keys, values)[keys[i]] == values[i],
{
    assert(keys.contains(keys[i]));
    let j = keys.index_of(keys[i]);
    assert(0 <= j < keys.len() && keys[j] == keys[i]);
}

proof fn table_push<V>(keys: Seq<Seq<char>>, values: Seq<V>, k: Seq<char>, v: V)
    requires
        keys.no_duplicates(),
        keys.len() == values.len(),
        keys.push(k).no_duplicates(),
    ensures
        table(keys.push(k), values.push(v)) == table(keys, values).insert(k, v),
{
    let ks = keys.push(k);
    let vs = values.push(v);
    assert(ks[keys.len() as int] == k);
    let m = table(ks, vs);
    let o = table(keys, values).insert(k, v);
    assert forall|x: Seq<char>| m.dom().contains(x) <==> o.dom().contains(x) by {
        if keys.contains(x) {
            assert(ks[keys.index_of(x)] == x);
        }
        if ks.contains(x) && x != k {
            assert(keys[ks.index_of(x)] == x);
        }
    }
    assert forall|x: Seq<char>| m.dom().contains(x) implies m[x] == o[x] by {
        if x == k {
            table_at(ks, vs, keys.len() as int);
        } else {
            let i = ks.index_of(x);
            assert(keys[i] == x);
            table_at(ks, vs, i);
            table_at(keys, values, i);
        }
    }
    assert(m =~= o);
}

proof fn table_update<V>(keys: Seq<Seq<char>>, values: Seq<V>, i: int, v: V)
    requires
        keys.no_duplicates(),
        keys.len() == values.len(),
        0 <= i < keys.len(),
    ensures
        table(keys, values.update(i, v)) == table(keys, values).insert(keys[i], v),
{
    let m = table(keys, values.update(i, v));
    let o = table(keys, values).insert(keys[i], v);
    assert forall|x: Seq<char>| m.dom().contains(x) <==> o.dom().contains(x) by {}
    assert forall|x: Seq<char>| m.dom().contains(x) implies m[x] == o[x] by {
        let j = keys.index_of(x);
        table_at(keys, values.update(i, v), j);
        table_at(keys, values, j);
    }
    assert(m =~= o);
}

/// An insertion-ordered map keyed by text.
pub struct TextMap<V> {
    keys: Vec<String>,
    values: Vec<V>,
    buckets: HashMap<u64, Vec<usize>>,
}

impl<V> TextMap<V> {
    /// The keys, oldest first.
    pub closed spec fn keys(&self) -> Seq<Seq<char>> {
        self.keys@.map_values(|k: String| k@)
    }

    /// The map itself.
    pub closed spec fn map(&self) -> Map<Seq<char>, V> {
        table(self.keys(), self.values@)
    }

    /// No key occurs twice, every key has its value, and the hash table leads
    /// to every entry.
    pub closed spec fn wf(&self) -> bool {
        &&& self.keys@.len() == self.values@.len()
        &&& forall|i: int, j: int|
            0 <= i < j < self.keys@.len() ==> (#[trigger] self.keys@[i])@ != (
            #[trigger] self.keys@[j])@
        &&& forall|i: int|
            0 <= i < self.keys@.len() ==> {
                let h = text_hash((#[trigger] self.keys@[i])@);
                &&& self.buckets@.dom().contains(h)
                &&& self.buckets@[h]@.contains(i as usize)
            }
        &&& forall|h: u64, k: int|
            self.buckets@.dom().contains(h) && 0 <= k < self.buckets@[h]@.len()
                ==> #[trigger] self.buckets@[h]@[k] < self.keys@.len()
    }

    /// What `wf` says of the keys.
    pub proof fn wf_facts(&self)
        requires
            self.wf(),
        ensures
            self.keys().no_duplicates(),
            self.keys().len() <= usize::MAX,
            forall|k: Seq<char>| #[trigger] self.map().dom().contains(k) <==> self.keys().contains(k),
    {
        let n = self.keys.len();
        assert forall|i: int, j: int|
            0 <= i < self.keys().len() && 0 <= j < self.keys().len() && i != j implies self.keys()[i]
            != self.keys()[j] by {
            if i < j {
                assert(self.keys@[i]@ != self.keys@[j]@);
            } else {
                assert(self.keys@[j]@ != self.keys@[i]@);
            }
        }
    }

    /// An empty map.
    pub fn new() -> (r: Self)
        ensures
            r.wf(),
            r.keys() == Seq::<Seq<char>>::empty(),
            r.map() == Map::<Seq<char>, V>::empty(),
    {
        let r = TextMap { keys: Vec::new(), values: Vec::new(), buckets: HashMap::new() };
        proof {
            assert(r.keys() =~= Seq::<Seq<char>>::empty());
        }
        r
    }

    /// The number of entries.
    pub fn len(&self) -> (r: usize)
        requires
            self.wf(),
        ensures
            r == self.keys().len(),
    {
        self.keys.len()
    }

    /// The position of `key`, if it has an entry.
    pub fn find(&self, key: &str) -> (r: Option<usize>)
        requires
            self.wf(),
        ensures
            match r {
                Some(i) => {
                    &&& i < self.keys().len()
                    &&& self.keys()[i as int] == key@
                    &&& self.map().dom().contains(key@)
                },
                None => !self.keys().contains(key@) && !self.map().dom().contains(key@),
            },
    {
        let h = hash_of(key);
        match self.buckets.get(&h) {
            None => {
                proof {
                    assert forall|i: int| 0 <= i < self.keys().len() implies self.keys()[i]
                        != key@ by {
                        assert(self.keys@[i]@ == self.keys()[i]);
                    }
                }
                None
            },
            Some(bucket) => {
                let mut k: usize = 0;
                while k < bucket.len()
                    invariant
                        self.wf(),
                        h == text_hash(key@),
                        self.buckets@.dom().contains(h),
                        *bucket == self.buckets@[h],
                        k <= bucket@.len(),
                        forall|j: int|
                            0 <= j < k ==> self.keys@[#[trigger] bucket@[j] as int]@ != key@,
                    decreases bucket.len() - k,
                {
                    let i: usize = bucket[k];
                    proof {
                        assert(self.buckets@[h]@[k as int] < self.keys@.len());
                    }
                    if *self.keys[i].as_str() == *key {
                        return Some(i);
                    }
                    k += 1;
                }
                proof {
                    assert forall|i: int| 0 <= i < self.keys().len() implies self.keys()[i]
                        != key@ by {
                        assert(self.keys@[i]@ == self.keys()[i]);
                        assert(i < self.keys.len());
                        if self.keys@[i]@ == key@ {
                            assert(bucket@.contains(i as usize));
                            let j = choose|j: int|
                                0 <= j < bucket@.len() && bucket@[j] == i as usize;
                            assert(self.keys@[bucket@[j] as int]@ != key@);
                        }
                    }
                }
                None
            },
        }
    }

    /// The key at position `i`.
    pub fn key(&self, i: usize) -> (r: &String)
        requires
            self.wf(),
            i < self.keys().len(),
        ensures
            r@ == self.keys()[i as int],
    {
        &self.keys[i]
    }

    /// The value at position `i`.
    pub fn value(&self, i: usize) -> (r: &V)
        requires
            self.wf(),
            i < self.keys().len(),
        ensures
            self.map().dom().contains(self.keys()[i as int]),
            *r == self.map()[self.keys()[i as int]],
    {
        proof {
            self.wf_facts();
            table_at(self.keys(), self.values@, i as int);
        }
        &self.values[i]
    }

    /// The value at position `i`, to be changed in place.
    pub fn value_mut(&mut self, i: usize) -> (r: &mut V)
        requires
            old(self).wf(),
            i < old(self).keys().len(),
        ensures
            *r == old(self).map()[old(self).keys()[i as int]],
            final(self).wf(),
            final(self).keys() == old(self).keys(),
            final(self).map() == old(self).map().insert(old(self).keys()[i as int], *final(r)),
    {
        proof {
            self.wf_facts();
            table_at(self.keys(), self.values@, i as int);
            assert forall|v: V| #[trigger]
                table(self.keys(), self.values@.update(i as int, v)) == self.map().insert(
                    self.keys()[i as int],
                    v,
                ) by {
                table_update(self.keys(), self.values@, i as int, v);
            }
        }
        &mut self.values[i]
    }

    /// Append an entry for a key that has none.
    pub fn insert(&mut self, key: String, value: V)
        requires
            old(self).wf(),
            !old(self).keys().contains(key@),
        ensures
            final(self).wf(),
            final(self).keys() == old(self).keys().push(key@),
            final(self).map() == old(self).map().insert(key@, value),
    {
        proof {
            self.wf_facts();
        }
        let h = hash_of(key.as_str());
        let at: usize = self.keys.len();
        let mut bucket: Vec<usize> = match self.buckets.remove(&h) {
            Some(b) => b,
            None => Vec::new(),
        };
        let ghost before = bucket@;
        bucket.push(at);
        self.buckets.insert(h, bucket);
        let ghost k = key@;
        self.keys.push(key);
        self.values.push(value);
        proof {
            assert(self.keys() =~= old(self).keys().push(k));
            assert(old(self).keys().push(k).no_duplicates()) by {
                assert forall|i: int, j: int|
                    0 <= i < self.keys().len() && 0 <= j < self.keys().len() && i != j implies self.keys()[i]
                    != self.keys()[j] by {
                    if i == at {
                        assert(old(self).keys()[j] == self.keys()[j]);
                    } else if j == at {
                        assert(old(self).keys()[i] == self.keys()[i]);
                    } else {
                        assert(old(self).keys()[i] != old(self).keys()[j]);
                    }
                }
            }
            table_push(old(self).keys(), old(self).values@, k, value);
            assert(self.buckets@[h]@ == before.push(at));
            assert forall|i: int, j: int| 0 <= i < j < self.keys@.len() implies (
            #[trigger] self.keys@[i])@ != (#[trigger] self.keys@[j])@ by {
                if j == at {
                    assert(old(self).keys()[i] == self.keys@[i]@);
                } else {
                    assert(old(self).keys@[i]@ != old(self).keys@[j]@);
                }
            }
            assert forall|i: int| 0 <= i < self.keys@.len() implies {
                let g = text_hash((#[trigger] self.keys@[i])@);
                &&& self.buckets@.dom().contains(g)
                &&& self.buckets@[g]@.contains(i as usize)
            } by {
                let g = text_hash(self.keys@[i]@);
                if i == at {
                    assert(self.buckets@[h]@[before.len() as int] == at);
                } else {
                    assert(old(self).keys@[i] == self.keys@[i]);
                    assert(old(self).buckets@[g]@.contains(i as usize));
                    if g == h {
                        let j = choose|j: int| 0 <= j < before.len() && before[j] == i as usize;
                        assert(self.buckets@[h]@[j] == i as usize);
                    }
                }
            }
            assert forall|g: u64, j: int|
                self.buckets@.dom().contains(g) && 0 <= j < self.buckets@[g]@.len() implies
                #[trigger] self.buckets@[g]@[j] < self.keys@.len() by {
                if g == h {
                    if j < before.len() {
                        assert(old(self).buckets@[h]@[j] < old(self).keys@.len());
                    }
                } else {
                    assert(old(self).buckets@[g]@[j] < old(self).keys@.len());
                }
            }
        }
    }
}

impl TextMap<()> {
    /// Remember `key`, returning `true` if it is new.
    pub fn note(&mut self, key: String) -> (r: bool)
        requires
            old(self).wf(),
        ensures
            final(self).wf(),
            r == !old(self).keys().contains(key@),
            final(self).keys() == if r {
                old(self).keys().push(key@)
            } else {
                old(self).keys()
            },
            final(self).keys().to_set() == old(self).keys().to_set().insert(key@),
    {
        let ghost before = self.keys();
        if let Some(i) = self.find(key.as_str()) {
            proof {
                assert(before[i as int] == key@);
                assert(before.to_set().insert(key@) =~= before.to_set());
            }
            return false;
        }
        let ghost k = key@;
        self.insert(key, ());
        proof {
            push_to_set(before, k);
        }
        true
    }
}

/// Appending to a list of keys adds to the set of them.
proof fn push_to_set(s: Seq<Seq<char>>, k: Seq<char>)
    ensures
        s.push(k).to_set() == s.to_set().insert(k),
{
    assert(s.push(k)[s.len() as int] == k);
    assert forall|x: Seq<char>| s.contains(x) implies s.push(k).contains(x) by {
        let j = s.index_of(x);
        assert(s.push(k)[j] == x);
    }
    assert(s.push(k).to_set() =~= s.to_set().insert(k));
}

} // verus!
