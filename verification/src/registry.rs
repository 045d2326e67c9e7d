//! The register of cameras that are in use, by key.

use vstd::prelude::*;

verus! {

/// Entries of type `V`, at most one under each key.
pub struct Registry<V> {
    entries: Vec<(String, V)>,
}

spec fn distinct_keys<V>(entries: Seq<(String, V)>) -> bool {
    forall|i: int, j: int|
        0 <= i < j < entries.len() ==> (#[trigger] entries[i]).0@ != (#[trigger] entries[j]).0@
}

spec fn entry_map<V>(entries: Seq<(String, V)>) -> Map<Seq<char>, V>
    decreases entries.len(),
{
    if entries.len() == 0 {
        Map::empty()
    } else {
        entry_map(entries.drop_last()).insert(entries.last().0@, entries.last().1)
    }
}

/// Where keys are distinct, the map has exactly the entries.
proof fn lemma_entry_map<V>(entries: Seq<(String, V)>)
    requires
        distinct_keys(entries),
    ensures
        forall|i: int|
            0 <= i < entries.len() ==> entry_map(entries).contains_key(
                (#[trigger] entries[i]).0@,
            ) && entry_map(entries)[entries[i].0@] == entries[i].1,
        forall|key: Seq<char>| #[trigger]
            entry_map(entries).contains_key(key) ==> exists|i: int|
                0 <= i < entries.len() && (#[trigger] entries[i]).0@ == key,
    decreases entries.len(),
{
    if entries.len() > 0 {
        let shorter = entries.drop_last();
        let last = entries.len() - 1;
        assert forall|i: int, j: int| 0 <= i < j < shorter.len() implies (
        #[trigger] shorter[i]).0@ != (#[trigger] shorter[j]).0@ by {
            assert(entries[i].0@ != entries[j].0@);
        }
        lemma_entry_map(shorter);
        assert forall|i: int| 0 <= i < entries.len() implies entry_map(entries).contains_key(
            (#[trigger] entries[i]).0@,
        ) && entry_map(entries)[entries[i].0@] == entries[i].1 by {
            if i < last {
                assert(shorter[i] == entries[i]);
                assert(entries[i].0@ != entries[last].0@);
            }
        }
        assert forall|key: Seq<char>| #[trigger]
            entry_map(entries).contains_key(key) implies exists|i: int|
            0 <= i < entries.len() && (#[trigger] entries[i]).0@ == key by {
            if key == entries[last].0@ {
            } else {
                assert(entry_map(shorter).contains_key(key));
                let i = choose|i: int| 0 <= i < shorter.len() && (#[trigger] shorter[i]).0@ == key;
                assert(entries[i].0@ == key);
            }
        }
    }
}

impl<V> View for Registry<V> {
    type V = Map<Seq<char>, V>;

    closed spec fn view(&self) -> Map<Seq<char>, V> {
        entry_map(self.entries@)
    }
}

impl<V> Registry<V> {
    #[verifier::type_invariant]
    spec fn one_entry_per_key(self) -> bool {
        distinct_keys(self.entries@)
    }

    /// A register without entries.
    pub fn new() -> (registry: Registry<V>)
        ensures
            registry@ == Map::<Seq<char>, V>::empty(),
    {
        Registry { entries: Vec::new() }
    }

    /// The entry under `key`.
    pub fn lookup(&self, key: &String) -> (entry: Option<&V>)
        ensures
            match entry {
                Some(value) => self@.contains_key(key@) && *value == self@[key@],
                None => !self@.contains_key(key@),
            },
    {
        proof {
            use_type_invariant(self);
            lemma_entry_map(self.entries@);
        }
        let mut i: usize = 0;
        while i < self.entries.len()
            invariant
                i <= self.entries@.len(),
                forall|j: int| 0 <= j < i ==> (#[trigger] self.entries@[j]).0@ != key@,
                forall|j: int|
                    0 <= j < self.entries@.len() ==> self@.contains_key(
                        (#[trigger] self.entries@[j]).0@,
                    ) && self@[self.entries@[j].0@] == self.entries@[j].1,
            decreases self.entries@.len() - i,
        {
            if self.entries[i].0 == *key {
                return Some(&self.entries[i].1);
            }
            i = i + 1;
        }
        None
    }

    /// Enters `value` under `key`, in place of what may be there.
    pub fn insert(&mut self, key: String, value: V)
        ensures
            final(self)@ == old(self)@.insert(key@, value),
    {
        proof {
            use_type_invariant(&*self);
        }
        let ghost before = self.entries@;
        let mut entries: Vec<(String, V)> = Vec::new();
        std::mem::swap(&mut entries, &mut self.entries);
        let mut i: usize = 0;
        while i < entries.len() && entries[i].0 != key
            invariant
                i <= entries@.len(),
                forall|j: int| 0 <= j < i ==> (#[trigger] entries@[j]).0@ != key@,
            decreases entries@.len() - i,
        {
            i = i + 1;
        }
        if i < entries.len() {
            let _ = entries.remove(i);
        }
        entries.push((key, value));
        proof {
            assert(distinct_keys(entries@));
            lemma_entry_map(before);
            lemma_entry_map(entries@);
            let expected = entry_map(before).insert(key@, value);
            assert forall|k: Seq<char>| expected.contains_key(k) implies #[trigger] entry_map(
                entries@,
            ).contains_key(k) && entry_map(entries@)[k] == expected[k] by {
                if k == key@ {
                    assert(entries@[entries@.len() - 1].0@ == k);
                } else {
                    let j = choose|j: int| 0 <= j < before.len() && (#[trigger] before[j]).0@ == k;
                    let moved = if i < before.len() && j > i {
                        j - 1
                    } else {
                        j
                    };
                    assert(entries@[moved] == before[j]);
                }
            }
            assert forall|k: Seq<char>| #[trigger]
                entry_map(entries@).contains_key(k) implies expected.contains_key(k) by {
                let j = choose|j: int| 0 <= j < entries@.len() && (#[trigger] entries@[j]).0@ == k;
                if j < entries@.len() - 1 {
                    let moved = if i < before.len() && j >= i {
                        j + 1
                    } else {
                        j
                    };
                    assert(entries@[j] == before[moved]);
                }
            }
            assert(entry_map(entries@) =~= expected);
        }
        self.entries = entries;
    }

    /// Keeps the entries that are alive. The test is made once on each entry.
    pub fn retain(&mut self, alive: impl Fn(&V) -> bool)
        requires
            forall|value: &V| #[trigger] call_requires(alive, (value,)),
        ensures
            final(self)@.submap_of(old(self)@),
            forall|key: Seq<char>| #[trigger]
                final(self)@.contains_key(key) ==> call_ensures(alive, (&old(self)@[key],), true),
            forall|key: Seq<char>| #[trigger]
                old(self)@.contains_key(key) && !final(self)@.contains_key(key) ==> call_ensures(
                    alive,
                    (&old(self)@[key],),
                    false,
                ),
    {
        proof {
            use_type_invariant(&*self);
        }
        let ghost before = self.entries@;
        let mut entries: Vec<(String, V)> = Vec::new();
        std::mem::swap(&mut entries, &mut self.entries);
        let mut kept: Vec<(String, V)> = Vec::new();
        while entries.len() > 0
            invariant
                forall|value: &V| #[trigger] call_requires(alive, (value,)),
                distinct_keys(before),
                entries@.len() <= before.len(),
                entries@ == before.take(entries@.len() as int),
                distinct_keys(kept@),
                forall|j: int|
                    0 <= j < kept@.len() ==> exists|i: int|
                        entries@.len() <= i < before.len() && before[i] == #[trigger] kept@[j]
                            && call_ensures(alive, (&before[i].1,), true),
                forall|i: int|
                    entries@.len() <= i < before.len() ==> kept@.contains(#[trigger] before[i])
                        || call_ensures(alive, (&before[i].1,), false),
            decreases entries@.len(),
        {
            let ghost rest = entries@.len() - 1;
            let ghost kept_before = kept@;
            if let Some(entry) = entries.pop() {
                assert(entry == before[rest]);
                if alive(&entry.1) {
                    kept.push(entry);
                    proof {
                        assert forall|i: int, j: int| 0 <= i < j < kept@.len() implies (
                        #[trigger] kept@[i]).0@ != (#[trigger] kept@[j]).0@ by {
                            if j == kept@.len() - 1 {
                                let from = choose|k: int|
                                    rest < k < before.len() && before[k] == #[trigger] kept_before[i]
                                        && call_ensures(alive, (&before[k].1,), true);
                                assert(before[rest].0@ != before[from].0@);
                            }
                        }
                        assert(kept@.last() == before[rest]);
                        assert forall|i: int| rest <= i < before.len() implies kept@.contains(
                            #[trigger] before[i],
                        ) || call_ensures(alive, (&before[i].1,), false) by {
                            if i > rest && kept_before.contains(before[i]) {
                                let j = choose|j: int|
                                    0 <= j < kept_before.len() && kept_before[j] == before[i];
                                assert(kept@[j] == before[i]);
                            }
                        }
                    }
                }
            }
        }
        proof {
            lemma_entry_map(before);
            lemma_entry_map(kept@);
            assert forall|key: Seq<char>| #[trigger]
                entry_map(kept@).contains_key(key) implies entry_map(before).contains_key(key)
                && entry_map(before)[key] == entry_map(kept@)[key] && call_ensures(
                alive,
                (&entry_map(before)[key],),
                true,
            ) by {
                let j = choose|j: int| 0 <= j < kept@.len() && (#[trigger] kept@[j]).0@ == key;
                let i = choose|i: int|
                    0 <= i < before.len() && before[i] == #[trigger] kept@[j] && call_ensures(
                        alive,
                        (&before[i].1,),
                        true,
                    );
                assert(before[i].0@ == key);
            }
            assert forall|key: Seq<char>| #[trigger]
                entry_map(before).contains_key(key) && !entry_map(kept@).contains_key(
                    key,
                ) implies call_ensures(alive, (&entry_map(before)[key],), false) by {
                let i = choose|i: int| 0 <= i < before.len() && (#[trigger] before[i]).0@ == key;
                if kept@.contains(before[i]) {
                    let j = choose|j: int| 0 <= j < kept@.len() && kept@[j] == before[i];
                    assert(kept@[j].0@ == key);
                }
            }
        }
        self.entries = kept;
    }
}

} // verus!
