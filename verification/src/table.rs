//! A small keyed table: named entries in insertion order, each name at most
//! once, read as a map from names to values where a later entry for a name
//! stands for it.
use vstd::prelude::*;
use crate::text::str_eq;

verus! {

/// The map that a list of named entries denotes: later entries override
/// earlier ones with the same name.
pub open spec fn entries_map<T>(s: Seq<(String, T)>) -> Map<Seq<char>, T>
    decreases s.len(),
{
    if s.len() == 0 {
        Map::empty()
    } else {
        entries_map(s.drop_last()).insert(s.last().0@, s.last().1)
    }
}

/// No name occurs twice.
pub open spec fn names_unique<T>(s: Seq<(String, T)>) -> bool {
    forall|i: int, j: int| 0 <= i < s.len() && 0 <= j < s.len() && i != j ==> s[i].0@ != s[j].0@
}

/// The names of the entries, in order.
pub open spec fn entry_names<T>(s: Seq<(String, T)>) -> Seq<Seq<char>> {
    s.map_values(|e: (String, T)| e.0@)
}

/// A name is in the denoted map exactly when some entry carries it.
pub proof fn lemma_entries_map_dom<T>(s: Seq<(String, T)>, k: Seq<char>)
    ensures
        entries_map(s).contains_key(k) <==> exists|i: int| 0 <= i < s.len() && s[i].0@ == k,
    decreases s.len(),
{
    if s.len() > 0 {
        lemma_entries_map_dom(s.drop_last(), k);
        if exists|i: int| 0 <= i < s.len() && s[i].0@ == k {
            let i = choose|i: int| 0 <= i < s.len() && s[i].0@ == k;
            if i < s.len() - 1 {
                assert(s.drop_last()[i] == s[i]);
            }
        }
        if exists|i: int| 0 <= i < s.drop_last().len() && s.drop_last()[i].0@ == k {
            let i = choose|i: int| 0 <= i < s.drop_last().len() && s.drop_last()[i].0@ == k;
            assert(s[i] == s.drop_last()[i]);
        }
    }
}

/// With unique names, the value of an entry is the value its name maps to.
pub proof fn lemma_entries_map_at<T>(s: Seq<(String, T)>, i: int)
    requires
        names_unique(s),
        0 <= i < s.len(),
    ensures
        entries_map(s).contains_key(s[i].0@),
        entries_map(s)[s[i].0@] == s[i].1,
    decreases s.len(),
{
    if i < s.len() - 1 {
        let t = s.drop_last();
        assert(names_unique(t)) by {
            assert forall|a: int, b: int| 0 <= a < t.len() && 0 <= b < t.len() && a != b implies t[a].0@ != t[b].0@ by {
                assert(t[a] == s[a]);
                assert(t[b] == s[b]);
            }
        }
        assert(t[i] == s[i]);
        lemma_entries_map_at(t, i);
        assert(s.last().0@ != s[i].0@);
    }
}

/// Replacing the value of the entry at `i` (keeping its name) updates the map at that name.
pub proof fn lemma_entries_map_update<T>(s: Seq<(String, T)>, i: int, e: (String, T))
    requires
        names_unique(s),
        0 <= i < s.len(),
        e.0@ == s[i].0@,
    ensures
        entries_map(s.update(i, e)) == entries_map(s).insert(e.0@, e.1),
        names_unique(s.update(i, e)),
    decreases s.len(),
{
    let u = s.update(i, e);
    assert(names_unique(u)) by {
        assert forall|a: int, b: int| 0 <= a < u.len() && 0 <= b < u.len() && a != b implies u[a].0@ != u[b].0@ by {
            if a == i {
                assert(u[a].0@ == s[a].0@);
            }
            if b == i {
                assert(u[b].0@ == s[b].0@);
            }
        }
    }
    if i == s.len() - 1 {
        assert(u.drop_last() =~= s.drop_last());
        assert(entries_map(u) =~= entries_map(s).insert(e.0@, e.1));
    } else {
        let t = s.drop_last();
        assert(names_unique(t)) by {
            assert forall|a: int, b: int| 0 <= a < t.len() && 0 <= b < t.len() && a != b implies t[a].0@ != t[b].0@ by {
                assert(t[a] == s[a]);
                assert(t[b] == s[b]);
            }
        }
        assert(t[i] == s[i]);
        lemma_entries_map_update(t, i, e);
        assert(u.drop_last() =~= t.update(i, e));
        assert(u.last() == s.last());
        assert(s.last().0@ != s[i].0@);
        assert(entries_map(u) =~= entries_map(s).insert(e.0@, e.1));
    }
}

/// A table of named values; each name occurs at most once.
pub struct Table<T> {
    pub entries: Vec<(String, T)>,
}

impl<T> View for Table<T> {
    type V = Map<Seq<char>, T>;

    /// The table read as a map from names to values.
    open spec fn view(&self) -> Map<Seq<char>, T> {
        entries_map(self.entries@)
    }
}

impl<T> Table<T> {

    /// The entries in insertion order.
    pub open spec fn entries_seq(&self) -> Seq<(String, T)> {
        self.entries@
    }

    /// Well-formedness: names are unique.
    pub open spec fn wf(&self) -> bool {
        names_unique(self.entries@)
    }

    /// An empty table.
    pub fn new() -> (t: Self)
        ensures
            t.wf(),
            t@ == Map::<Seq<char>, T>::empty(),
            t.entries_seq().len() == 0,
    {
        Table { entries: Vec::new() }
    }

    /// The number of entries.
    pub fn len(&self) -> (n: usize)
        ensures
            n == self.entries_seq().len(),
    {
        self.entries.len()
    }

    /// The name and value stored at position `i`.
    pub fn entry(&self, i: usize) -> (e: &(String, T))
        requires
            i < self.entries_seq().len(),
        ensures
            *e == self.entries_seq()[i as int],
    {
        &self.entries[i]
    }

    /// The position of the entry named `key`, if any.
    pub fn position(&self, key: &str) -> (r: Option<usize>)
        requires
            self.wf(),
        ensures
            match r {
                Some(i) => i < self.entries_seq().len() && self.entries_seq()[i as int].0@ == key@
                    && self@.contains_key(key@) && self@[key@] == self.entries_seq()[i as int].1,
                None => !self@.contains_key(key@),
            },
    {
        let n = self.entries.len();
        let mut i: usize = 0;
        while i < n
            invariant
                n == self.entries@.len(),
                i <= n,
                names_unique(self.entries@),
                forall|j: int| 0 <= j < i ==> self.entries@[j].0@ != key@,
            decreases n - i,
        {
            if str_eq(self.entries[i].0.as_str(), key) {
                proof {
                    lemma_entries_map_at(self.entries@, i as int);
                }
                return Some(i);
            }
            i = i + 1;
        }
        proof {
            lemma_entries_map_dom(self.entries@, key@);
        }
        None
    }

    /// The value stored under `key`, if any.
    pub fn get(&self, key: &str) -> (r: Option<&T>)
        requires
            self.wf(),
        ensures
            match r {
                Some(v) => self@.contains_key(key@) && *v == self@[key@],
                None => !self@.contains_key(key@),
            },
    {
        match self.position(key) {
            Some(i) => Some(&self.entries[i].1),
            None => None,
        }
    }

    /// Whether an entry is named `key`.
    pub fn contains(&self, key: &str) -> (r: bool)
        requires
            self.wf(),
        ensures
            r == self@.contains_key(key@),
    {
        self.position(key).is_some()
    }

    /// Stores `value` under `key`: a present entry keeps its position and
    /// takes the new value, otherwise the entry is appended.
    pub fn insert(&mut self, key: String, value: T)
        requires
            old(self).wf(),
        ensures
            final(self).wf(),
            final(self)@ == old(self)@.insert(key@, value),
            old(self)@.contains_key(key@) ==> entry_names(final(self).entries_seq()) == entry_names(old(self).entries_seq()),
            !old(self)@.contains_key(key@) ==> entry_names(final(self).entries_seq()) == entry_names(old(self).entries_seq()).push(key@),
    {
        match self.position(key.as_str()) {
            Some(i) => {
                let ghost s = self.entries@;
                let ghost k = key@;
                let _old_entry = self.entries.remove(i);
                self.entries.insert(i, (key, value));
                proof {
                    assert(self.entries@ =~= s.update(i as int, self.entries@[i as int]));
                    lemma_entries_map_update(s, i as int, self.entries@[i as int]);
                    assert(entry_names(self.entries@) =~= entry_names(s));
                }
            },
            None => {
                let ghost s = self.entries@;
                proof {
                    lemma_entries_map_dom(s, key@);
                }
                self.entries.push((key, value));
                proof {
                    assert(self.entries@.drop_last() =~= s);
                    assert forall|a: int, b: int|
                        0 <= a < self.entries@.len() && 0 <= b < self.entries@.len() && a != b
                        implies self.entries@[a].0@ != self.entries@[b].0@ by {
                        if a < s.len() && b < s.len() {
                            assert(self.entries@[a] == s[a]);
                            assert(self.entries@[b] == s[b]);
                        } else if a < s.len() {
                            assert(self.entries@[a] == s[a]);
                        } else {
                            assert(self.entries@[b] == s[b]);
                        }
                    }
                    assert(entry_names(self.entries@) =~= entry_names(s).push(key@));
                }
            },
        }
    }
}

} // verus!
