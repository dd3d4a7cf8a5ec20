//! A small string-to-string map that keeps at most one entry per key.

use vstd::prelude::*;

verus! {

/// Setting values by install key, for example `"ACCENTCOLOR" -> "#f00ba2"`.
/// Keys are stored without any prefix.
pub struct SettingsMap {
    entries: Vec<(String, String)>,
}

/// The key of entry `i`, as characters.
pub open spec fn entry_key(entries: Seq<(String, String)>, i: int) -> Seq<char> {
    entries[i].0@
}

/// No two entries share a key.
pub open spec fn keys_distinct(entries: Seq<(String, String)>) -> bool {
    forall|i: int, j: int|
        0 <= i < entries.len() && 0 <= j < entries.len() && i != j ==> #[trigger] entry_key(
            entries,
            i,
        ) != #[trigger] entry_key(entries, j)
}

/// The map that a sequence of entries with distinct keys stands for.
pub open spec fn entries_map(entries: Seq<(String, String)>) -> Map<Seq<char>, Seq<char>> {
    Map::new(
        |k: Seq<char>| exists|i: int| 0 <= i < entries.len() && entry_key(entries, i) == k,
        |k: Seq<char>|
            entries[choose|i: int| 0 <= i < entries.len() && entry_key(entries, i) == k].1@,
    )
}

/// With distinct keys, entry `i` is what the map holds under its key.
pub proof fn lemma_entries_map_at(entries: Seq<(String, String)>, i: int)
    requires
        keys_distinct(entries),
        0 <= i < entries.len(),
    ensures
        entries_map(entries).contains_key(entry_key(entries, i)),
        entries_map(entries)[entry_key(entries, i)] == entries[i].1@,
{
    let k = entry_key(entries, i);
    assert(0 <= i < entries.len() && entry_key(entries, i) == k);
    let j = choose|j: int| 0 <= j < entries.len() && entry_key(entries, j) == k;
    assert(i == j);
}

/// Appending an entry with a new key inserts that key into the map.
pub proof fn lemma_entries_map_push(entries: Seq<(String, String)>, e: (String, String))
    requires
        keys_distinct(entries.push(e)),
    ensures
        entries_map(entries.push(e)) == entries_map(entries).insert(e.0@, e.1@),
{
    let p = entries.push(e);
    let n = entries.len() as int;
    assert(keys_distinct(entries)) by {
        assert forall|a: int, b: int|
            0 <= a < entries.len() && 0 <= b < entries.len() && a != b implies #[trigger] entry_key(
            entries,
            a,
        ) != #[trigger] entry_key(entries, b) by {
            assert(entry_key(p, a) != entry_key(p, b));
        }
    }
    assert(entry_key(p, n) == e.0@);
    assert forall|x: Seq<char>| #[trigger] entries_map(p).contains_key(x) implies entries_map(
        entries,
    ).insert(e.0@, e.1@).contains_key(x) && entries_map(p)[x] == entries_map(entries).insert(
        e.0@,
        e.1@,
    )[x] by {
        let j = choose|j: int| 0 <= j < p.len() && entry_key(p, j) == x;
        lemma_entries_map_at(p, j);
        if j != n {
            assert(entry_key(entries, j) == x);
            lemma_entries_map_at(entries, j);
        }
    }
    assert forall|x: Seq<char>| #[trigger] entries_map(entries).insert(e.0@, e.1@).contains_key(x)
        implies entries_map(p).contains_key(x) by {
        if x != e.0@ {
            let j = choose|j: int| 0 <= j < entries.len() && entry_key(entries, j) == x;
            assert(entry_key(p, j) == x);
        } else {
            assert(entry_key(p, n) == x);
        }
    }
    assert(entries_map(p) =~= entries_map(entries).insert(e.0@, e.1@));
}

impl View for SettingsMap {
    type V = Map<Seq<char>, Seq<char>>;

    closed spec fn view(&self) -> Map<Seq<char>, Seq<char>> {
        entries_map(self.entries@)
    }
}

impl SettingsMap {
    /// The map keeps one entry per key.
    pub closed spec fn wf(&self) -> bool {
        keys_distinct(self.entries@)
    }

    /// The entries, in the order in which their keys were first inserted.
    pub closed spec fn entries(&self) -> Seq<(String, String)> {
        self.entries@
    }

    /// The view is the map of the entries.
    pub proof fn lemma_view(&self)
        requires
            self.wf(),
        ensures
            keys_distinct(self.entries()),
            self@ == entries_map(self.entries()),
    {
    }

    /// The entries, each key once.
    pub fn as_entries(&self) -> (r: &Vec<(String, String)>)
        ensures
            r@ == self.entries(),
    {
        &self.entries
    }

    /// An empty map.
    pub fn new() -> (m: SettingsMap)
        ensures
            m.wf(),
            m@ == Map::<Seq<char>, Seq<char>>::empty(),
    {
        let m = SettingsMap { entries: Vec::new() };
        assert(m@ =~= Map::<Seq<char>, Seq<char>>::empty());
        m
    }

    /// The value stored under `key`, if any.
    pub fn get(&self, key: &String) -> (r: Option<&String>)
        requires
            self.wf(),
        ensures
            match r {
                Some(v) => self@.contains_key(key@) && self@[key@] == v@,
                None => !self@.contains_key(key@),
            },
    {
        match self.find(key) {
            Some(i) => {
                proof {
                    lemma_entries_map_at(self.entries@, i as int);
                }
                Some(&self.entries[i].1)
            },
            None => None,
        }
    }

    /// Sets the value under `key`, replacing any earlier value.
    pub fn insert(&mut self, key: String, value: String)
        requires
            old(self).wf(),
        ensures
            final(self).wf(),
            final(self)@ == old(self)@.insert(key@, value@),
    {
        let ghost old_entries = self.entries@;
        let ghost k = key@;
        let ghost v = value@;
        match self.find(&key) {
            Some(i) => {
                self.entries.set(i, (key, value));
                proof {
                    let e = self.entries@;
                    assert(e == old_entries.update(i as int, e[i as int]));
                    assert forall|a: int, b: int|
                        0 <= a < e.len() && 0 <= b < e.len() && a != b implies #[trigger] entry_key(
                        e,
                        a,
                    ) != #[trigger] entry_key(e, b) by {
                        assert(entry_key(e, a) == entry_key(old_entries, a));
                        assert(entry_key(e, b) == entry_key(old_entries, b));
                    }
                    assert forall|x: Seq<char>|
                        #[trigger] entries_map(e).contains_key(x) implies entries_map(
                        old_entries,
                    ).insert(k, v).contains_key(x) && entries_map(e)[x] == entries_map(
                        old_entries,
                    ).insert(k, v)[x] by {
                        let j = choose|j: int| 0 <= j < e.len() && entry_key(e, j) == x;
                        lemma_entries_map_at(e, j);
                        if j != i {
                            assert(entry_key(old_entries, j) == x);
                            lemma_entries_map_at(old_entries, j);
                        }
                    }
                    assert forall|x: Seq<char>|
                        #[trigger] entries_map(old_entries).insert(k, v).contains_key(x)
                        implies entries_map(e).contains_key(x) by {
                        if x != k {
                            let j = choose|j: int|
                                0 <= j < old_entries.len() && entry_key(old_entries, j) == x;
                            assert(entry_key(e, j) == x);
                        } else {
                            assert(entry_key(e, i as int) == x);
                        }
                    }
                    assert(entries_map(e) =~= entries_map(old_entries).insert(k, v));
                }
            },
            None => {
                self.entries.push((key, value));
                proof {
                    let p = self.entries@;
                    let e = p.last();
                    assert(p == old_entries.push(e));
                    assert forall|a: int, b: int|
                        0 <= a < p.len() && 0 <= b < p.len() && a != b implies #[trigger] entry_key(
                        p,
                        a,
                    ) != #[trigger] entry_key(p, b) by {
                        if a < old_entries.len() {
                            assert(entry_key(p, a) == entry_key(old_entries, a));
                        }
                        if b < old_entries.len() {
                            assert(entry_key(p, b) == entry_key(old_entries, b));
                        }
                    }
                    lemma_entries_map_push(old_entries, e);
                }
            },
        }
    }

    /// Index of the entry with key `key`, if any.
    fn find(&self, key: &String) -> (r: Option<usize>)
        ensures
            match r {
                Some(i) => i < self.entries@.len() && entry_key(self.entries@, i as int) == key@,
                None => forall|i: int|
                    0 <= i < self.entries@.len() ==> entry_key(self.entries@, i) != key@,
            },
    {
        let mut i: usize = 0;
        while i < self.entries.len()
            invariant
                i <= self.entries@.len(),
                forall|j: int| 0 <= j < i ==> entry_key(self.entries@, j) != key@,
            decreases self.entries@.len() - i,
        {
            if self.entries[i].0 == *key {
                return Some(i);
            }
            i = i + 1;
        }
        None
    }
}

} // verus!
