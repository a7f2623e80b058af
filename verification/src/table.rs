//! A map kept as a list of entries, no key of which occurs twice.
use vstd::prelude::*;

verus! {

/// Keys that can be compared and copied.
pub trait Key: View + Sized {
    fn same(&self, other: &Self) -> (r: bool)
        ensures
            r == (self@ == other@),
    ;

    fn copy(&self) -> (r: Self)
        ensures
            r@ == self@,
    ;
}

impl Key for String {
    fn same(&self, other: &Self) -> (r: bool) {
        crate::text::same_text(self.as_str(), other.as_str())
    }

    fn copy(&self) -> (r: Self) {
        self.clone()
    }
}

#[derive(Debug)]
pub struct Table<K: Key, V> {
    entries: Vec<(K, V)>,
}

/// No key occurs twice.
pub closed spec fn distinct<K: Key, V>(entries: Seq<(K, V)>) -> bool {
    forall|i: int, j: int|
        0 <= i < j < entries.len() ==> (#[trigger] entries[i]).0@ != (#[trigger] entries[j]).0@
}

/// The position of a key among the entries.
pub closed spec fn at<K: Key, V>(entries: Seq<(K, V)>, k: K::V, i: int) -> bool {
    0 <= i < entries.len() && entries[i].0@ == k
}

/// The map that a list of entries stands for.
pub closed spec fn as_map<K: Key, V>(entries: Seq<(K, V)>) -> Map<K::V, V> {
    Map::new(
        |k: K::V| exists|i: int| at(entries, k, i),
        |k: K::V| entries[choose|i: int| at(entries, k, i)].1,
    )
}

impl<K: Key, V> View for Table<K, V> {
    type V = Map<K::V, V>;

    closed spec fn view(&self) -> Map<K::V, V> {
        as_map(self.entries@)
    }
}

proof fn lemma_at<K: Key, V>(entries: Seq<(K, V)>, i: int)
    requires
        distinct(entries),
        0 <= i < entries.len(),
    ensures
        as_map(entries).contains_key(entries[i].0@),
        as_map(entries)[entries[i].0@] == entries[i].1,
{
    let k = entries[i].0@;
    assert(at(entries, k, i));
    let c = choose|j: int| at(entries, k, j);
    assert(at(entries, k, c));
    if c < i {
        assert(entries[c].0@ != entries[i].0@);
    }
    if i < c {
        assert(entries[i].0@ != entries[c].0@);
    }
}

impl<K: Key, V> Table<K, V> {
    /// No key occurs twice.
    pub closed spec fn wf(&self) -> bool {
        distinct(self.entries@)
    }

    pub fn new() -> (r: Self)
        ensures
            r.wf(),
            r@ == Map::<K::V, V>::empty(),
    {
        let r = Table { entries: Vec::new() };
        assert(r@ =~= Map::<K::V, V>::empty());
        r
    }

    /// The position of a key, or the number of entries.
    fn find(&self, key: &K) -> (r: usize)
        requires
            self.wf(),
        ensures
            r <= self.entries@.len(),
            r < self.entries@.len() ==> self.entries@[r as int].0@ == key@,
            r < self.entries@.len() <==> self@.contains_key(key@),
    {
        let mut i: usize = 0;
        while i < self.entries.len()
            invariant
                self.wf(),
                i <= self.entries@.len(),
                forall|j: int| 0 <= j < i ==> (#[trigger] self.entries@[j]).0@ != key@,
            decreases self.entries.len() - i,
        {
            if self.entries[i].0.same(key) {
                proof {
                    lemma_at(self.entries@, i as int);
                }
                return i;
            }
            i += 1;
        }
        i
    }

    /// The value of a key.
    pub fn get(&self, key: &K) -> (r: Option<&V>)
        requires
            self.wf(),
        ensures
            r is Some <==> self@.contains_key(key@),
            r is Some ==> *r->0 == self@[key@],
    {
        let i = self.find(key);
        if i < self.entries.len() {
            proof {
                lemma_at(self.entries@, i as int);
            }
            Some(&self.entries[i].1)
        } else {
            None
        }
    }

    /// Gives a key a value, in place of the one that it has.
    pub fn insert(&mut self, key: K, value: V)
        requires
            old(self).wf(),
        ensures
            final(self).wf(),
            final(self)@ == old(self)@.insert(key@, value),
    {
        let ghost before = self.entries@;
        let i = self.find(&key);
        if i < self.entries.len() {
            self.entries.remove(i);
            self.entries.insert(i, (key, value));
            let ghost after = self.entries@;
            proof {
                assert forall|j: int| 0 <= j < after.len() && j != i implies #[trigger] after[j]
                    == before[j] by {}
                assert(distinct(after)) by {
                    assert forall|a: int, b: int| 0 <= a < b < after.len() implies (
                    #[trigger] after[a]).0@ != (#[trigger] after[b]).0@ by {
                        assert(before[a].0@ != before[b].0@);
                    }
                }
                assert(as_map(after) =~= as_map(before).insert(key@, value)) by {
                    assert forall|k: K::V|
                        as_map(after).contains_key(k) <==> as_map(before).insert(
                            key@,
                            value,
                        ).contains_key(k) by {
                        if as_map(after).contains_key(k) {
                            let j = choose|j: int| at(after, k, j);
                            assert(at(before, k, j));
                        }
                        if as_map(before).contains_key(k) {
                            let j = choose|j: int| at(before, k, j);
                            assert(at(after, k, j));
                        }
                        if k == key@ {
                            assert(at(after, k, i as int));
                        }
                    }
                    assert forall|k: K::V| #[trigger] as_map(after).contains_key(k) implies as_map(
                        after,
                    )[k] == as_map(before).insert(key@, value)[k] by {
                        let j = choose|j: int| at(after, k, j);
                        lemma_at(after, j);
                        lemma_at(before, j);
                        lemma_at(after, i as int);
                        assert(before[i as int].0@ == key@);
                        if j != i {
                            assert(before[j].0@ != before[i as int].0@);
                        }
                    }
                }
            }
        } else {
            self.entries.push((key, value));
            let ghost after = self.entries@;
            proof {
                let n = before.len() as int;
                assert(distinct(after)) by {
                    assert forall|a: int, b: int| 0 <= a < b < after.len() implies (
                    #[trigger] after[a]).0@ != (#[trigger] after[b]).0@ by {
                        if b == n {
                            assert(at(before, before[a].0@, a));
                        } else {
                            assert(before[a].0@ != before[b].0@);
                        }
                    }
                }
                assert(as_map(after) =~= as_map(before).insert(key@, value)) by {
                    assert forall|k: K::V|
                        as_map(after).contains_key(k) <==> as_map(before).insert(
                            key@,
                            value,
                        ).contains_key(k) by {
                        if as_map(after).contains_key(k) {
                            let j = choose|j: int| at(after, k, j);
                            if j < n {
                                assert(at(before, k, j));
                            }
                        }
                        if as_map(before).contains_key(k) {
                            let j = choose|j: int| at(before, k, j);
                            assert(at(after, k, j));
                        }
                        if k == key@ {
                            assert(at(after, k, n));
                        }
                    }
                    assert forall|k: K::V| #[trigger] as_map(after).contains_key(k) implies as_map(
                        after,
                    )[k] == as_map(before).insert(key@, value)[k] by {
                        let j = choose|j: int| at(after, k, j);
                        lemma_at(after, j);
                        if j < n {
                            lemma_at(before, j);
                        }
                    }
                }
            }
        }
    }

    /// Takes a key out, where it is there.
    pub fn remove(&mut self, key: &K)
        requires
            old(self).wf(),
        ensures
            final(self).wf(),
            final(self)@ == old(self)@.remove(key@),
    {
        let ghost before = self.entries@;
        let i = self.find(key);
        if i < self.entries.len() {
            self.entries.remove(i);
            let ghost after = self.entries@;
            proof {
                lemma_removed(before, i as int);
            }
        } else {
            assert(self@ =~= self@.remove(key@));
        }
    }

    /// Keeps only the keys of a list.
    pub fn retain_keys(&mut self, keys: &Vec<K>)
        requires
            old(self).wf(),
        ensures
            final(self).wf(),
            final(self)@ == old(self)@.restrict(keys_of(keys@)),
    {
        let ghost before = self@;
        let ghost keep = keys_of(keys@);
        let mut i: usize = 0;
        while i < self.entries.len()
            invariant
                self.wf(),
                i <= self.entries@.len(),
                keep == keys_of(keys@),
                self@.restrict(keep) == before.restrict(keep),
                forall|j: int| 0 <= j < i ==> keep.contains((#[trigger] self.entries@[j]).0@),
            decreases self.entries.len() - i,
        {
            if contains_key(keys, &self.entries[i].0) {
                i += 1;
            } else {
                let ghost entries = self.entries@;
                let ghost map = self@;
                let ghost gone = self.entries@[i as int].0@;
                self.entries.remove(i);
                proof {
                    lemma_removed(entries, i as int);
                    assert(self@ == map.remove(gone));
                    assert(self@.restrict(keep) =~= map.restrict(keep));
                }
            }
        }
        assert(self@ =~= before.restrict(keep)) by {
            assert forall|k: K::V| #[trigger] self@.contains_key(k) implies keep.contains(k) by {
                let j = choose|j: int| at(self.entries@, k, j);
                assert(keep.contains(self.entries@[j].0@));
            }
            assert(self@ =~= self@.restrict(keep));
        }
    }

    /// The number of keys.
    pub fn len(&self) -> (r: usize)
        requires
            self.wf(),
        ensures
            r == self@.dom().len(),
            self@.dom().finite(),
    {
        proof {
            let entries = self.entries@;
            let keys = entries.map_values(|e: (K, V)| e.0@);
            assert(keys.no_duplicates()) by {
                assert forall|i: int, j: int|
                    0 <= i < keys.len() && 0 <= j < keys.len() && i != j implies keys[i]
                    != keys[j] by {
                    if i < j {
                        assert(entries[i].0@ != entries[j].0@);
                    } else {
                        assert(entries[j].0@ != entries[i].0@);
                    }
                }
            }
            keys.unique_seq_to_set();
            assert(keys.to_set() =~= self@.dom()) by {
                assert forall|k: K::V| keys.to_set().contains(k) <==> self@.dom().contains(k) by {
                    if keys.contains(k) {
                        let i = choose|i: int| 0 <= i < keys.len() && keys[i] == k;
                        assert(at(entries, k, i));
                    }
                    if self@.contains_key(k) {
                        let i = choose|i: int| at(entries, k, i);
                        assert(keys[i] == k);
                    }
                }
            }
        }
        self.entries.len()
    }
}

impl<K: Key, V: Copy> Table<K, V> {
    /// A copy of the table.
    pub fn duplicate(&self) -> (r: Self)
        requires
            self.wf(),
        ensures
            r.wf(),
            r@ == self@,
    {
        let mut entries: Vec<(K, V)> = Vec::new();
        for i in 0..self.entries.len()
            invariant
                entries@.len() == i,
                forall|j: int|
                    0 <= j < i ==> (#[trigger] entries@[j]).0@ == self.entries@[j].0@
                        && entries@[j].1 == self.entries@[j].1,
        {
            entries.push((self.entries[i].0.copy(), self.entries[i].1));
        }
        let r = Table { entries };
        proof {
            let a = self.entries@;
            let b = r.entries@;
            assert forall|i: int, j: int| 0 <= i < j < b.len() implies (#[trigger] b[i]).0@ != (
            #[trigger] b[j]).0@ by {
                assert(a[i].0@ != a[j].0@);
            }
            assert(r@ =~= self@) by {
                assert forall|k: K::V| as_map(a).contains_key(k) <==> as_map(b).contains_key(k) by {
                    if as_map(a).contains_key(k) {
                        let i = choose|i: int| at(a, k, i);
                        assert(at(b, k, i));
                    }
                    if as_map(b).contains_key(k) {
                        let i = choose|i: int| at(b, k, i);
                        assert(at(a, k, i));
                    }
                }
                assert forall|k: K::V| #[trigger] as_map(b).contains_key(k) implies as_map(b)[k]
                    == as_map(a)[k] by {
                    let i = choose|i: int| at(b, k, i);
                    lemma_at(a, i);
                    lemma_at(b, i);
                }
            }
        }
        r
    }
}

proof fn lemma_removed<K: Key, V>(before: Seq<(K, V)>, i: int)
    requires
        distinct(before),
        0 <= i < before.len(),
    ensures
        distinct(before.remove(i)),
        as_map(before.remove(i)) == as_map(before).remove(before[i].0@),
{
    let after = before.remove(i);
    assert forall|a: int, b: int| 0 <= a < b < after.len() implies (#[trigger] after[a]).0@ != (
    #[trigger] after[b]).0@ by {
        let x = if a < i {
            a
        } else {
            a + 1
        };
        let y = if b < i {
            b
        } else {
            b + 1
        };
        assert(before[x].0@ != before[y].0@);
    }
    assert forall|k: K::V|
        as_map(after).contains_key(k) <==> as_map(before).remove(before[i].0@).contains_key(k) by {
        if as_map(after).contains_key(k) {
            let j = choose|j: int| at(after, k, j);
            if j < i {
                assert(at(before, k, j));
                assert(before[j].0@ != before[i].0@);
            } else {
                assert(at(before, k, j + 1));
                assert(before[i].0@ != before[j + 1].0@);
            }
        }
        if as_map(before).contains_key(k) && k != before[i].0@ {
            let j = choose|j: int| at(before, k, j);
            if j < i {
                assert(at(after, k, j));
            } else {
                assert(at(after, k, j - 1));
            }
        }
    }
    assert forall|k: K::V| #[trigger] as_map(after).contains_key(k) implies as_map(after)[k]
        == as_map(before).remove(before[i].0@)[k] by {
        let j = choose|j: int| at(after, k, j);
        lemma_at(after, j);
        if j < i {
            lemma_at(before, j);
        } else {
            lemma_at(before, j + 1);
        }
    }
    assert(as_map(after) =~= as_map(before).remove(before[i].0@));
}

/// The keys of a list, as a set.
pub open spec fn keys_of<K: Key>(keys: Seq<K>) -> Set<K::V> {
    Set::new(|k: K::V| exists|i: int| 0 <= i < keys.len() && (#[trigger] keys[i])@ == k)
}

/// Whether a key is in a list.
pub fn contains_key<K: Key>(keys: &Vec<K>, key: &K) -> (r: bool)
    ensures
        r == keys_of(keys@).contains(key@),
{
    for i in 0..keys.len()
        invariant
            forall|j: int| 0 <= j < i ==> (#[trigger] keys@[j])@ != key@,
    {
        if keys[i].same(key) {
            return true;
        }
    }
    false
}

} // verus!
