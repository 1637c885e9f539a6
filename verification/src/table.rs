//! A table of values under distinct string keys, kept in the order in
//! which the keys were first added.

use vstd::prelude::*;
use crate::text::same_text;

verus! {

/// The map that a list of `(key, value)` entries describes: a later entry
/// for a key replaces an earlier one.
pub open spec fn entries_map<V>(e: Seq<(String, V)>) -> Map<Seq<char>, V>
    decreases e.len(),
{
    if e.len() == 0 {
        Map::empty()
    } else {
        entries_map(e.drop_last()).insert(e.last().0@, e.last().1)
    }
}

/// The keys of a list of entries, in order.
pub open spec fn entry_keys<V>(e: Seq<(String, V)>) -> Seq<Seq<char>> {
    e.map_values(|x: (String, V)| x.0@)
}

/// `s` without the occurrences of `key`, in order.
pub open spec fn without(s: Seq<Seq<char>>, key: Seq<char>) -> Seq<Seq<char>>
    decreases s.len(),
{
    if s.len() == 0 {
        s
    } else if s.last() == key {
        without(s.drop_last(), key)
    } else {
        without(s.drop_last(), key).push(s.last())
    }
}

/// No key occurs twice among the entries.
pub open spec fn keys_unique<V>(e: Seq<(String, V)>) -> bool {
    forall|i: int, j: int| 0 <= i < j < e.len() ==> (#[trigger] e[i]).0@ != (#[trigger] e[j]).0@
}

pub proof fn lemma_entries_map<V>(e: Seq<(String, V)>)
    requires
        keys_unique(e),
    ensures
        forall|k: Seq<char>|
            #[trigger] entries_map(e).dom().contains(k) <==> exists|i: int|
                0 <= i < e.len() && e[i].0@ == k,
        forall|i: int| 0 <= i < e.len() ==> #[trigger] entries_map(e)[e[i].0@] == e[i].1,
        entries_map(e).dom().finite(),
        entries_map(e).dom().len() == e.len(),
    decreases e.len(),
{
    if e.len() > 0 {
        let d = e.drop_last();
        assert(keys_unique(d)) by {
            assert forall|i: int, j: int| 0 <= i < j < d.len() implies (#[trigger] d[i]).0@ != (
            #[trigger] d[j]).0@ by {
                assert(d[i] == e[i] && d[j] == e[j]);
            }
        }
        lemma_entries_map(d);
        let m = entries_map(d);
        assert(!m.dom().contains(e.last().0@)) by {
            if m.dom().contains(e.last().0@) {
                let i = choose|i: int| 0 <= i < d.len() && d[i].0@ == e.last().0@;
                assert(e[i] == d[i]);
                assert(e[i].0@ != e[e.len() - 1].0@);
            }
        }
        assert forall|k: Seq<char>| #[trigger] entries_map(e).dom().contains(k) <==> exists|i: int|
            0 <= i < e.len() && e[i].0@ == k by {
            if entries_map(e).dom().contains(k) && k != e.last().0@ {
                let i = choose|i: int| 0 <= i < d.len() && d[i].0@ == k;
                assert(e[i] == d[i]);
            }
            if exists|i: int| 0 <= i < e.len() && e[i].0@ == k {
                let i = choose|i: int| 0 <= i < e.len() && e[i].0@ == k;
                if i < e.len() - 1 {
                    assert(e[i] == d[i]);
                }
            }
        }
        assert forall|i: int| 0 <= i < e.len() implies #[trigger] entries_map(e)[e[i].0@]
            == e[i].1 by {
            if i < e.len() - 1 {
                assert(e[i] == d[i]);
                assert(e[i].0@ != e[e.len() - 1].0@);
            }
        }
    }
}

/// Values under distinct string keys.
pub struct NameTable<V> {
    entries: Vec<(String, V)>,
}

impl<V> View for NameTable<V> {
    type V = Map<Seq<char>, V>;

    closed spec fn view(&self) -> Map<Seq<char>, V> {
        entries_map(self.entries@)
    }
}

impl<V> NameTable<V> {
    /// The table is well formed: no key occurs twice.
    pub closed spec fn wf(&self) -> bool {
        keys_unique(self.entries@)
    }

    /// The keys, in the order in which they were first added.
    pub closed spec fn keys(&self) -> Seq<Seq<char>> {
        entry_keys(self.entries@)
    }

    /// The keys are exactly the keys of the map, each once.
    pub proof fn lemma_keys(&self)
        requires
            self.wf(),
        ensures
            forall|k: Seq<char>| #[trigger] self@.dom().contains(k) <==> self.keys().contains(k),
            forall|i: int, j: int|
                0 <= i < j < self.keys().len() ==> self.keys()[i] != self.keys()[j],
            self@.dom().finite(),
            self@.dom().len() == self.keys().len(),
    {
        lemma_entries_map(self.entries@);
        assert forall|k: Seq<char>| #[trigger] self@.dom().contains(k) <==> self.keys().contains(
            k,
        ) by {
            if self@.dom().contains(k) {
                let i = choose|i: int| 0 <= i < self.entries@.len() && self.entries@[i].0@ == k;
                assert(self.keys()[i] == k);
            }
            if self.keys().contains(k) {
                let i = choose|i: int| 0 <= i < self.keys().len() && self.keys()[i] == k;
                assert(self.entries@[i].0@ == k);
            }
        }
        assert forall|i: int, j: int| 0 <= i < j < self.keys().len() implies self.keys()[i]
            != self.keys()[j] by {
            assert(self.keys()[i] == self.entries@[i].0@);
            assert(self.keys()[j] == self.entries@[j].0@);
        }
    }

    /// An empty table.
    pub fn new() -> (t: Self)
        ensures
            t.wf(),
            t@ == Map::<Seq<char>, V>::empty(),
            t.keys() == Seq::<Seq<char>>::empty(),
    {
        let t = NameTable { entries: Vec::new() };
        assert(t.keys() =~= Seq::<Seq<char>>::empty());
        t
    }

    /// The number of keys.
    pub fn len(&self) -> (n: usize)
        requires
            self.wf(),
        ensures
            n == self@.dom().len(),
            n == self.keys().len(),
    {
        proof {
            lemma_entries_map(self.entries@);
        }
        self.entries.len()
    }

    /// The key at position `i`, in the order in which keys were first added.
    pub fn key_at(&self, i: usize) -> (k: &String)
        requires
            i < self.keys().len(),
        ensures
            k@ == self.keys()[i as int],
    {
        &self.entries[i].0
    }

    fn find(&self, key: &str) -> (r: Option<usize>)
        requires
            self.wf(),
        ensures
            r matches Some(i) ==> i < self.entries@.len() && self.entries@[i as int].0@ == key@,
            r is None ==> !self@.dom().contains(key@),
    {
        proof {
            lemma_entries_map(self.entries@);
        }
        let mut i: usize = 0;
        while i < self.entries.len()
            invariant
                i <= self.entries@.len(),
                forall|j: int| 0 <= j < i ==> self.entries@[j].0@ != key@,
            decreases self.entries.len() - i,
        {
            if same_text(self.entries[i].0.as_str(), key) {
                return Some(i);
            }
            i += 1;
        }
        None
    }

    /// The value under `key`, if any.
    pub fn get(&self, key: &str) -> (r: Option<&V>)
        requires
            self.wf(),
        ensures
            self@.dom().contains(key@) ==> r == Some(&self@[key@]),
            !self@.dom().contains(key@) ==> r is None,
    {
        proof {
            lemma_entries_map(self.entries@);
        }
        match self.find(key) {
            Some(i) => Some(&self.entries[i].1),
            None => None,
        }
    }

    /// The entries in the order in which their keys were first added.
    pub closed spec fn entries(&self) -> Seq<(String, V)> {
        self.entries@
    }

    /// The entries describe the table's map, with the table's keys.
    pub proof fn lemma_entries(&self)
        requires
            self.wf(),
        ensures
            entries_map(self.entries()) == self@,
            keys_unique(self.entries()),
            entry_keys(self.entries()) == self.keys(),
    {
    }

    /// The entries, in the order in which their keys were first added.
    pub fn entry_list(&self) -> (r: &Vec<(String, V)>)
        ensures
            r@ == self.entries(),
    {
        &self.entries
    }

    /// Put `value` under `key`, replacing any value already there; a new
    /// key goes after the existing ones.
    pub fn insert(&mut self, key: String, value: V)
        requires
            old(self).wf(),
        ensures
            final(self).wf(),
            final(self)@ == old(self)@.insert(key@, value),
            old(self)@.dom().contains(key@) ==> final(self).keys() == old(self).keys(),
            !old(self)@.dom().contains(key@) ==> final(self).keys() == old(self).keys().push(key@),
    {
        proof {
            lemma_entries_map(self.entries@);
        }
        let ghost old_e = self.entries@;
        match self.find(key.as_str()) {
            Some(i) => {
                self.entries.set(i, (key, value));
                proof {
                    let e = self.entries@;
                    assert(keys_unique(e)) by {
                        assert forall|a: int, b: int| 0 <= a < b < e.len() implies (
                        #[trigger] e[a]).0@ != (#[trigger] e[b]).0@ by {
                            assert(old_e[a].0@ != old_e[b].0@);
                        }
                    }
                    lemma_entries_map(e);
                    assert(entries_map(e) =~= entries_map(old_e).insert(key@, value)) by {
                        assert forall|k: Seq<char>| #[trigger] entries_map(e).dom().contains(k)
                            == entries_map(old_e).insert(key@, value).dom().contains(k) by {
                            if exists|j: int| 0 <= j < e.len() && e[j].0@ == k {
                                let j = choose|j: int| 0 <= j < e.len() && e[j].0@ == k;
                                if j != i {
                                    assert(old_e[j] == e[j]);
                                }
                            }
                            if exists|j: int| 0 <= j < old_e.len() && old_e[j].0@ == k {
                                let j = choose|j: int| 0 <= j < old_e.len() && old_e[j].0@ == k;
                                if j != i {
                                    assert(old_e[j] == e[j]);
                                } else {
                                    assert(e[j].0@ == k);
                                }
                            }
                        }
                        assert forall|k: Seq<char>| #[trigger] entries_map(e).dom().contains(k)
                            implies entries_map(e)[k] == entries_map(old_e).insert(key@, value)[k] by {
                            let j = choose|j: int| 0 <= j < e.len() && e[j].0@ == k;
                            if j != i {
                                assert(old_e[j] == e[j]);
                            }
                        }
                    }
                    assert(entry_keys(e) =~= entry_keys(old_e)) by {
                        assert forall|j: int| 0 <= j < e.len() implies entry_keys(e)[j]
                            == entry_keys(old_e)[j] by {
                            if j != i {
                                assert(old_e[j] == e[j]);
                            }
                        }
                    }
                }
            },
            None => {
                self.entries.push((key, value));
                proof {
                    let e = self.entries@;
                    assert(e.drop_last() =~= old_e);
                    assert(keys_unique(e)) by {
                        assert forall|a: int, b: int| 0 <= a < b < e.len() implies (
                        #[trigger] e[a]).0@ != (#[trigger] e[b]).0@ by {
                            if b == e.len() - 1 {
                                assert(e[a] == old_e[a]);
                            } else {
                                assert(e[a] == old_e[a] && e[b] == old_e[b]);
                            }
                        }
                    }
                    assert(entry_keys(e) =~= entry_keys(old_e).push(key@));
                }
            },
        }
    }

    /// Remove `key`; whether it was there. The other keys keep their order.
    pub fn remove(&mut self, key: &str) -> (found: bool)
        requires
            old(self).wf(),
        ensures
            final(self).wf(),
            found == old(self)@.dom().contains(key@),
            final(self)@ == old(self)@.remove(key@),
            final(self).keys() == without(old(self).keys(), key@),
    {
        proof {
            lemma_entries_map(self.entries@);
        }
        let ghost old_e = self.entries@;
        match self.find(key) {
            Some(i) => {
                self.entries.remove(i);
                proof {
                    let e = self.entries@;
                    assert(e =~= old_e.take(i as int) + old_e.skip(i + 1));
                    assert(keys_unique(e)) by {
                        assert forall|a: int, b: int| 0 <= a < b < e.len() implies (
                        #[trigger] e[a]).0@ != (#[trigger] e[b]).0@ by {
                            let a2 = if a < i { a } else { a + 1 };
                            let b2 = if b < i { b } else { b + 1 };
                            assert(e[a] == old_e[a2] && e[b] == old_e[b2]);
                        }
                    }
                    lemma_entries_map(e);
                    assert(entries_map(e) =~= entries_map(old_e).remove(key@)) by {
                        assert forall|k: Seq<char>| #[trigger] entries_map(e).dom().contains(k)
                            == entries_map(old_e).remove(key@).dom().contains(k) by {
                            if exists|j: int| 0 <= j < e.len() && e[j].0@ == k {
                                let j = choose|j: int| 0 <= j < e.len() && e[j].0@ == k;
                                let j2 = if j < i { j } else { j + 1 };
                                assert(e[j] == old_e[j2]);
                                assert(old_e[j2].0@ != old_e[i as int].0@);
                            }
                            if k != key@ && exists|j: int| 0 <= j < old_e.len() && old_e[j].0@ == k {
                                let j = choose|j: int| 0 <= j < old_e.len() && old_e[j].0@ == k;
                                assert(j != i);
                                let j2 = if j < i { j } else { j - 1 };
                                assert(e[j2] == old_e[j]);
                            }
                        }
                        assert forall|k: Seq<char>| #[trigger] entries_map(e).dom().contains(k)
                            implies entries_map(e)[k] == entries_map(old_e).remove(key@)[k] by {
                            let j = choose|j: int| 0 <= j < e.len() && e[j].0@ == k;
                            let j2 = if j < i { j } else { j + 1 };
                            assert(e[j] == old_e[j2]);
                        }
                    }
                    lemma_without_removed(old_e, i as int, key@);
                }
                true
            },
            None => {
                proof {
                    assert(!entry_keys(old_e).contains(key@)) by {
                        if entry_keys(old_e).contains(key@) {
                            let j = choose|j: int|
                                0 <= j < entry_keys(old_e).len() && entry_keys(old_e)[j] == key@;
                            assert(old_e[j].0@ == key@);
                        }
                    }
                    assert(entries_map(old_e).remove(key@) =~= entries_map(old_e));
                    lemma_without_absent(entry_keys(old_e), key@);
                }
                false
            },
        }
    }
}

proof fn lemma_without_absent(s: Seq<Seq<char>>, key: Seq<char>)
    requires
        !s.contains(key),
    ensures
        without(s, key) == s,
    decreases s.len(),
{
    if s.len() > 0 {
        lemma_without_absent(s.drop_last(), key);
        assert(s =~= s.drop_last().push(s.last()));
    }
}

proof fn lemma_without_removed<V>(e: Seq<(String, V)>, i: int, key: Seq<char>)
    requires
        keys_unique(e),
        0 <= i < e.len(),
        e[i].0@ == key,
    ensures
        entry_keys(e.take(i) + e.skip(i + 1)) == without(entry_keys(e), key),
    decreases e.len(),
{
    let ks = entry_keys(e);
    if i == e.len() - 1 {
        let d = e.drop_last();
        assert(e.take(i) + e.skip(i + 1) =~= d);
        assert(!entry_keys(d).contains(key)) by {
            if entry_keys(d).contains(key) {
                let j = choose|j: int| 0 <= j < entry_keys(d).len() && entry_keys(d)[j] == key;
                assert(e[j] == d[j]);
            }
        }
        lemma_without_absent(entry_keys(d), key);
        assert(ks =~= entry_keys(d).push(key));
        assert(ks.drop_last() =~= entry_keys(d));
    } else {
        let d = e.drop_last();
        assert(keys_unique(d)) by {
            assert forall|a: int, b: int| 0 <= a < b < d.len() implies (#[trigger] d[a]).0@ != (
            #[trigger] d[b]).0@ by {
                assert(d[a] == e[a] && d[b] == e[b]);
            }
        }
        lemma_without_removed(d, i, key);
        assert(e.take(i) + e.skip(i + 1) =~= (d.take(i) + d.skip(i + 1)).push(e.last()));
        assert(entry_keys(e.take(i) + e.skip(i + 1)) =~= entry_keys(d.take(i) + d.skip(i + 1)).push(
            e.last().0@,
        ));
        assert(ks =~= entry_keys(d).push(e.last().0@));
        assert(ks.drop_last() =~= entry_keys(d));
        assert(e[i] != e[e.len() - 1] ==> e.last().0@ != key);
        assert(e.last().0@ != key);
    }
}

} // verus!
