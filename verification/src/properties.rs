//! Properties: text values under text keys.

use vstd::prelude::*;

verus! {

/// A set of properties, each under a key of its own.
#[derive(Debug)]
pub struct Properties {
    entries: Vec<(String, String)>,
}

/// Whether no key occurs twice.
spec fn keys_differ(entries: Seq<(String, String)>) -> bool {
    forall|i: int, j: int|
        0 <= i < j < entries.len() ==> (#[trigger] entries[i]).0@ != (#[trigger] entries[j]).0@
}

/// Where the key is.
spec fn position(entries: Seq<(String, String)>, key: Seq<char>) -> int {
    choose|i: int| 0 <= i < entries.len() && (#[trigger] entries[i]).0@ == key
}

/// The entries as a map.
spec fn as_map(entries: Seq<(String, String)>) -> Map<Seq<char>, Seq<char>> {
    Map::new(
        |key: Seq<char>|
            exists|i: int| 0 <= i < entries.len() && (#[trigger] entries[i]).0@ == key,
        |key: Seq<char>| entries[position(entries, key)].1@,
    )
}

impl View for Properties {
    type V = Map<Seq<char>, Seq<char>>;

    closed spec fn view(&self) -> Map<Seq<char>, Seq<char>> {
        as_map(self.entries@)
    }
}

proof fn lemma_entry_in_map(entries: Seq<(String, String)>, i: int)
    requires
        keys_differ(entries),
        0 <= i < entries.len(),
    ensures
        as_map(entries).contains_key(entries[i].0@),
        as_map(entries)[entries[i].0@] == entries[i].1@,
{
    let p = position(entries, entries[i].0@);
    assert(0 <= p < entries.len() && entries[p].0@ == entries[i].0@);
}

proof fn lemma_append_entry(entries: Seq<(String, String)>, entry: (String, String))
    requires
        keys_differ(entries),
        !as_map(entries).contains_key(entry.0@),
    ensures
        keys_differ(entries.push(entry)),
        as_map(entries.push(entry)) == as_map(entries).insert(entry.0@, entry.1@),
{
    let more = entries.push(entry);
    assert forall|i: int, j: int| 0 <= i < j < more.len() implies (#[trigger] more[i]).0@ != (
    #[trigger] more[j]).0@ by {
        assert(more[i] == entries[i]);
        if j == entries.len() && entries[i].0@ == entry.0@ {
            assert(as_map(entries).contains_key(entry.0@));
        }
    }
    let expected = as_map(entries).insert(entry.0@, entry.1@);
    assert forall|key: Seq<char>|
        #![trigger as_map(more).dom().contains(key)]
        #![trigger expected.dom().contains(key)]
        #![trigger as_map(more)[key]]
        as_map(more).dom().contains(key) == expected.dom().contains(key) && (as_map(
            more,
        ).dom().contains(key) ==> as_map(more)[key] == expected[key]) by {
        if key == entry.0@ {
            assert(more[entries.len() as int] == entry);
            lemma_entry_in_map(more, entries.len() as int);
        } else if as_map(entries).contains_key(key) {
            let p = position(entries, key);
            assert(0 <= p < entries.len() && entries[p].0@ == key);
            assert(more[p] == entries[p]);
            lemma_entry_in_map(more, p);
            lemma_entry_in_map(entries, p);
        } else if as_map(more).contains_key(key) {
            let p = position(more, key);
            assert(0 <= p < more.len() && more[p].0@ == key);
            assert(entries[p].0@ == key);
        }
    }
    assert(as_map(more) =~= expected);
}

proof fn lemma_replace_value(entries: Seq<(String, String)>, i: int, value: String)
    requires
        keys_differ(entries),
        0 <= i < entries.len(),
    ensures
        keys_differ(entries.update(i, (entries[i].0, value))),
        as_map(entries.update(i, (entries[i].0, value))) == as_map(entries).insert(
            entries[i].0@,
            value@,
        ),
{
    let changed = entries.update(i, (entries[i].0, value));
    assert forall|j: int| 0 <= j < entries.len() implies #[trigger] changed[j].0 == entries[j].0 by {}
    assert forall|j: int, k: int| 0 <= j < k < changed.len() implies (#[trigger] changed[j]).0@ != (
    #[trigger] changed[k]).0@ by {
        assert(entries[j].0@ != entries[k].0@);
    }
    let expected = as_map(entries).insert(entries[i].0@, value@);
    assert forall|key: Seq<char>|
        #![trigger as_map(changed).dom().contains(key)]
        #![trigger expected.dom().contains(key)]
        #![trigger as_map(changed)[key]]
        as_map(changed).dom().contains(key) == expected.dom().contains(key) && (as_map(
            changed,
        ).dom().contains(key) ==> as_map(changed)[key] == expected[key]) by {
        if key == entries[i].0@ {
            lemma_entry_in_map(changed, i);
        } else if as_map(entries).contains_key(key) {
            let p = position(entries, key);
            assert(0 <= p < entries.len() && entries[p].0@ == key);
            assert(changed[p] == entries[p]);
            lemma_entry_in_map(changed, p);
            lemma_entry_in_map(entries, p);
        } else if as_map(changed).contains_key(key) {
            let p = position(changed, key);
            assert(0 <= p < changed.len() && changed[p].0@ == key);
            assert(entries[p].0@ == key);
        }
    }
    assert(as_map(changed) =~= expected);
}

fn find_key(entries: &Vec<(String, String)>, key: &String) -> (r: Option<usize>)
    ensures
        match r {
            Some(i) => i < entries@.len() && entries@[i as int].0@ == key@,
            None => !as_map(entries@).contains_key(key@),
        },
{
    for i in 0..entries.len()
        invariant
            forall|j: int| 0 <= j < i ==> (#[trigger] entries@[j]).0@ != key@,
    {
        if entries[i].0 == *key {
            return Some(i);
        }
    }
    None
}

impl Properties {
    #[verifier::type_invariant]
    spec fn well_formed(self) -> bool {
        keys_differ(self.entries@)
    }

    /// No properties.
    pub fn new() -> (r: Properties)
        ensures
            r@ == Map::<Seq<char>, Seq<char>>::empty(),
    {
        let r = Properties { entries: Vec::new() };
        assert(r@ =~= Map::empty());
        r
    }

    /// Sets a property, in place of the value that it had.
    pub fn insert(&mut self, key: String, value: String)
        ensures
            final(self)@ == old(self)@.insert(key@, value@),
    {
        proof {
            use_type_invariant(&*self);
        }
        let ghost before = self.entries@;
        let mut entries: Vec<(String, String)> = Vec::new();
        std::mem::swap(&mut entries, &mut self.entries);
        match find_key(&entries, &key) {
            Some(i) => {
                proof {
                    lemma_replace_value(before, i as int, value);
                }
                entries[i].1 = value;
                assert(entries@ =~= before.update(i as int, (before[i as int].0, value)));
            },
            None => {
                proof {
                    lemma_append_entry(before, (key, value));
                }
                entries.push((key, value));
            },
        }
        self.entries = entries;
    }

    /// The value of a property.
    pub fn get(&self, key: &str) -> (r: Option<&String>)
        ensures
            match r {
                Some(value) => self@.contains_key(key@) && value@ == self@[key@],
                None => !self@.contains_key(key@),
            },
    {
        proof {
            use_type_invariant(self);
        }
        let wanted = key.to_owned();
        match find_key(&self.entries, &wanted) {
            Some(i) => {
                proof {
                    lemma_entry_in_map(self.entries@, i as int);
                }
                Some(&self.entries[i].1)
            },
            None => None,
        }
    }

    /// Sets every property of the others, in place of the values that they had
    /// here.
    pub fn extend(&mut self, others: Properties)
        ensures
            final(self)@ == old(self)@.union_prefer_right(others@),
    {
        proof {
            use_type_invariant(&others);
        }
        let ghost all = others.entries@;
        let ghost before = self@;
        assert(as_map(all.take(0)) =~= Map::empty());
        assert(before.union_prefer_right(as_map(all.take(0))) =~= before);
        for entry in it: others.entries
            invariant
                it.seq() == all,
                keys_differ(all),
                self@ == before.union_prefer_right(as_map(all.take(it.index()))),
        {
            let ghost i = it.index();
            let ghost seen = all.take(i);
            assert(seen.push(all[i]) =~= all.take(i + 1));
            assert(!as_map(seen).contains_key(entry.0@)) by {
                if as_map(seen).contains_key(entry.0@) {
                    let p = position(seen, entry.0@);
                    assert(0 <= p < seen.len() && seen[p].0@ == entry.0@);
                    assert(all[p].0@ == all[i].0@);
                }
            }
            proof {
                lemma_append_entry(seen, all[i]);
            }
            self.insert(entry.0, entry.1);
            assert(self@ =~= before.union_prefer_right(as_map(all.take(i + 1))));
        }
        assert(all.take(all.len() as int) =~= all);
    }

    /// The number of properties.
    pub fn len(&self) -> (r: usize)
        ensures
            r == self@.len(),
            self@.dom().finite(),
    {
        proof {
            use_type_invariant(self);
            lemma_map_len(self.entries@);
        }
        self.entries.len()
    }

    /// The properties as pairs of key and value, each key once.
    pub fn into_pairs(self) -> (r: Vec<(String, String)>)
        ensures
            forall|i: int, j: int|
                0 <= i < j < r@.len() ==> (#[trigger] r@[i]).0@ != (#[trigger] r@[j]).0@,
            forall|i: int|
                0 <= i < r@.len() ==> self@.contains_key((#[trigger] r@[i]).0@) && self@[r@[i].0@]
                    == r@[i].1@,
            forall|key: Seq<char>|
                self@.contains_key(key) ==> exists|i: int|
                    0 <= i < r@.len() && (#[trigger] r@[i]).0@ == key,
    {
        proof {
            use_type_invariant(&self);
            assert forall|i: int| 0 <= i < self.entries@.len() implies self@.contains_key(
                (#[trigger] self.entries@[i]).0@,
            ) && self@[self.entries@[i].0@] == self.entries@[i].1@ by {
                lemma_entry_in_map(self.entries@, i);
            }
        }
        self.entries
    }
}

impl Clone for Properties {
    fn clone(&self) -> (r: Properties)
        ensures
            r@ == self@,
    {
        proof {
            use_type_invariant(self);
        }
        let mut entries: Vec<(String, String)> = Vec::new();
        for i in 0..self.entries.len()
            invariant
                entries@ == self.entries@.take(i as int),
        {
            entries.push((self.entries[i].0.clone(), self.entries[i].1.clone()));
            assert(entries@ =~= self.entries@.take(i + 1));
        }
        assert(entries@ =~= self.entries@);
        Properties { entries }
    }
}

proof fn lemma_map_len(entries: Seq<(String, String)>)
    requires
        keys_differ(entries),
    ensures
        as_map(entries).dom().finite(),
        as_map(entries).len() == entries.len(),
    decreases entries.len(),
{
    if entries.len() == 0 {
        assert(as_map(entries) =~= Map::empty());
    } else {
        let before = entries.drop_last();
        lemma_map_len(before);
        assert(before.push(entries.last()) =~= entries);
        assert(!as_map(before).contains_key(entries.last().0@)) by {
            if as_map(before).contains_key(entries.last().0@) {
                let p = position(before, entries.last().0@);
                assert(0 <= p < before.len() && before[p].0@ == entries.last().0@);
                assert(entries[p].0@ == entries[entries.len() - 1].0@);
            }
        }
        lemma_append_entry(before, entries.last());
    }
}

} // verus!
