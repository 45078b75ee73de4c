//! Association table from string keys to values. Entries keep insertion
//! order and each key occurs at most once; the abstract value is a `Map`
//! from key characters to the deep view of the stored value.

use vstd::prelude::*;

verus! {

/// No two entries share a key.
pub open spec fn keys_unique<V>(s: Seq<(String, V)>) -> bool {
    forall|i: int, j: int| 0 <= i < j < s.len() ==> s[i].0@ != s[j].0@
}

/// The map an entry sequence stands for; later entries win, though with
/// unique keys there is nothing to win over.
pub open spec fn assoc_map<V: DeepView>(s: Seq<(String, V)>) -> Map<Seq<char>, V::V>
    decreases s.len(),
{
    if s.len() == 0 {
        Map::empty()
    } else {
        assoc_map(s.drop_last()).insert(s.last().0@, s.last().1.deep_view())
    }
}

/// A key-value table with string keys, insertion order kept.
pub struct Table<V> {
    pairs: Vec<(String, V)>,
}

impl<V: DeepView> View for Table<V> {
    type V = Map<Seq<char>, <V as DeepView>::V>;

    closed spec fn view(&self) -> Map<Seq<char>, <V as DeepView>::V> {
        assoc_map(self.pairs@)
    }
}

proof fn lemma_assoc_contains<V: DeepView>(s: Seq<(String, V)>, k: Seq<char>)
    ensures
        assoc_map(s).dom().contains(k) <==> exists|i: int| 0 <= i < s.len() && s[i].0@ == k,
    decreases s.len(),
{
    if s.len() > 0 {
        lemma_assoc_contains(s.drop_last(), k);
        if assoc_map(s).dom().contains(k) && s.last().0@ != k {
            let i = choose|i: int| 0 <= i < s.drop_last().len() && s.drop_last()[i].0@ == k;
            assert(s[i].0@ == k);
        }
        if exists|i: int| 0 <= i < s.len() && s[i].0@ == k {
            let i = choose|i: int| 0 <= i < s.len() && s[i].0@ == k;
            if i < s.len() - 1 {
                assert(s.drop_last()[i].0@ == k);
            }
        }
    }
}

proof fn lemma_assoc_get<V: DeepView>(s: Seq<(String, V)>, i: int)
    requires
        keys_unique(s),
        0 <= i < s.len(),
    ensures
        assoc_map(s).dom().contains(s[i].0@),
        assoc_map(s)[s[i].0@] == s[i].1.deep_view(),
    decreases s.len(),
{
    if i < s.len() - 1 {
        lemma_assoc_get(s.drop_last(), i);
        assert(s.drop_last()[i] == s[i]);
    }
}

proof fn lemma_assoc_update<V: DeepView>(s: Seq<(String, V)>, i: int, v: V)
    requires
        keys_unique(s),
        0 <= i < s.len(),
    ensures
        assoc_map(s.update(i, (s[i].0, v))) == assoc_map(s).insert(s[i].0@, v.deep_view()),
        keys_unique(s.update(i, (s[i].0, v))),
    decreases s.len(),
{
    let s2 = s.update(i, (s[i].0, v));
    assert(keys_unique(s2)) by {
        assert(forall|m: int| 0 <= m < s.len() ==> s2[m].0@ == s[m].0@);
    }
    if i == s.len() - 1 {
        assert(s2.drop_last() =~= s.drop_last());
        assert(assoc_map(s2) =~= assoc_map(s).insert(s[i].0@, v.deep_view()));
    } else {
        lemma_assoc_update(s.drop_last(), i, v);
        assert(s2.drop_last() =~= s.drop_last().update(i, (s[i].0, v)));
        assert(s.drop_last()[i] == s[i]);
        assert(s2.last() == s.last());
        // the two inserts commute because the keys differ
        assert(assoc_map(s2) =~= assoc_map(s).insert(s[i].0@, v.deep_view()));
    }
}

proof fn lemma_assoc_push<V: DeepView>(s: Seq<(String, V)>, key: String, v: V)
    ensures
        assoc_map(s.push((key, v))) == assoc_map(s).insert(key@, v.deep_view()),
{
    assert(s.push((key, v)).drop_last() =~= s);
}

proof fn lemma_assoc_dom_len<V: DeepView>(s: Seq<(String, V)>)
    requires
        keys_unique(s),
    ensures
        assoc_map(s).dom().finite(),
        assoc_map(s).dom().len() == s.len(),
    decreases s.len(),
{
    if s.len() > 0 {
        lemma_assoc_dom_len(s.drop_last());
        lemma_assoc_contains(s.drop_last(), s.last().0@);
        assert(forall|i: int| 0 <= i < s.drop_last().len() ==> s.drop_last()[i] == s[i]);
        assert(!assoc_map(s.drop_last()).dom().contains(s.last().0@));
    }
}

impl<V: DeepView> Table<V> {
    /// Whether the table's entries have pairwise distinct keys; every
    /// operation keeps this.
    pub closed spec fn wf(&self) -> bool {
        keys_unique(self.pairs@)
    }

    /// An empty table.
    pub fn new() -> (t: Table<V>)
        ensures
            t.wf(),
            t@ == Map::<Seq<char>, <V as DeepView>::V>::empty(),
    {
        Table { pairs: Vec::new() }
    }

    /// Position of the entry for `key`, when there is one.
    fn find_index(&self, key: &String) -> (r: Option<usize>)
        ensures
            match r {
                Some(i) => i < self.pairs@.len() && self.pairs@[i as int].0@ == key@,
                None => forall|i: int| 0 <= i < self.pairs@.len() ==> self.pairs@[i].0@ != key@,
            },
    {
        let n = self.pairs.len();
        let mut i: usize = 0;
        while i < n
            invariant
                i <= n,
                n == self.pairs@.len(),
                forall|j: int| 0 <= j < i ==> self.pairs@[j].0@ != key@,
            decreases n - i,
        {
            if self.pairs[i].0.eq(key) {
                return Some(i);
            }
            i = i + 1;
        }
        None
    }

    /// Whether the table holds an entry for `key`.
    pub fn contains_key(&self, key: &String) -> (r: bool)
        ensures
            r == self@.dom().contains(key@),
    {
        proof {
            lemma_assoc_contains(self.pairs@, key@);
        }
        self.find_index(key).is_some()
    }

    /// The value stored under `key`, when there is one.
    pub fn get(&self, key: &String) -> (r: Option<&V>)
        requires
            self.wf(),
        ensures
            match r {
                Some(v) => self@.dom().contains(key@) && v.deep_view() == self@[key@],
                None => !self@.dom().contains(key@),
            },
    {
        proof {
            lemma_assoc_contains(self.pairs@, key@);
        }
        match self.find_index(key) {
            Some(i) => {
                proof {
                    lemma_assoc_get(self.pairs@, i as int);
                }
                Some(&self.pairs[i].1)
            },
            None => None,
        }
    }

    /// Stores `value` under `key`, replacing any earlier value.
    pub fn insert(&mut self, key: String, value: V)
        requires
            old(self).wf(),
        ensures
            final(self).wf(),
            final(self)@ == old(self)@.insert(key@, value.deep_view()),
    {
        match self.find_index(&key) {
            Some(i) => {
                proof {
                    lemma_assoc_update(self.pairs@, i as int, value);
                }
                let entry = &mut self.pairs[i];
                entry.1 = value;
            },
            None => {
                proof {
                    lemma_assoc_push(self.pairs@, key, value);
                    assert(keys_unique(self.pairs@.push((key, value))));
                }
                self.pairs.push((key, value));
            },
        }
    }

    /// How many keys the table holds.
    pub fn len(&self) -> (n: usize)
        requires
            self.wf(),
        ensures
            n == self@.dom().len(),
            self@.dom().finite(),
    {
        proof {
            lemma_assoc_dom_len(self.pairs@);
        }
        self.pairs.len()
    }
}

/// The log stored under `key`: the stored sequence when the key is
/// present, the empty sequence otherwise.
pub open spec fn log_at(m: Map<Seq<char>, Seq<Seq<char>>>, key: Seq<char>) -> Seq<Seq<char>> {
    if m.dom().contains(key) {
        m[key]
    } else {
        Seq::empty()
    }
}

impl Table<Vec<String>> {
    /// Appends `line` to the log stored under `key`, creating the log
    /// first when the key is new.
    pub fn append(&mut self, key: &String, line: String)
        requires
            old(self).wf(),
        ensures
            final(self).wf(),
            final(self)@ == old(self)@.insert(key@, log_at(old(self)@, key@).push(line@)),
    {
        match self.find_index(key) {
            Some(i) => {
                proof {
                    lemma_assoc_contains(self.pairs@, key@);
                    lemma_assoc_get(self.pairs@, i as int);
                }
                let ghost old_pairs = self.pairs@;
                let entry = &mut self.pairs[i];
                let ghost old_log = entry.1;
                entry.1.push(line);
                proof {
                    lemma_assoc_update(old_pairs, i as int, entry.1);
                    assert(entry.1.deep_view() =~= old_log.deep_view().push(line@));
                }
            },
            None => {
                proof {
                    lemma_assoc_contains(self.pairs@, key@);
                }
                let mut log: Vec<String> = Vec::new();
                log.push(line);
                let key_owned = key.clone();
                proof {
                    assert(log.deep_view() =~= log_at(self@, key@).push(line@));
                    lemma_assoc_push(self.pairs@, key_owned, log);
                    assert(keys_unique(self.pairs@.push((key_owned, log))));
                }
                self.pairs.push((key_owned, log));
            },
        }
    }

    /// Creates an empty log under `key` when none exists; an existing log
    /// is left alone.
    pub fn ensure_log(&mut self, key: &String)
        requires
            old(self).wf(),
        ensures
            final(self).wf(),
            final(self)@ == old(self)@.insert(key@, log_at(old(self)@, key@)),
    {
        match self.find_index(key) {
            Some(i) => {
                proof {
                    lemma_assoc_contains(self.pairs@, key@);
                    lemma_assoc_get(self.pairs@, i as int);
                    assert(self@.insert(key@, log_at(self@, key@)) =~= self@);
                }
            },
            None => {
                proof {
                    lemma_assoc_contains(self.pairs@, key@);
                }
                let log: Vec<String> = Vec::new();
                let key_owned = key.clone();
                proof {
                    assert(log.deep_view() =~= log_at(self@, key@));
                    lemma_assoc_push(self.pairs@, key_owned, log);
                    assert(keys_unique(self.pairs@.push((key_owned, log))));
                }
                self.pairs.push((key_owned, log));
            },
        }
    }
}

} // verus!
