//! A table from strings to strings, held as a list of entries whose keys are
//! all different, and seen as a finite map.

use vstd::prelude::*;

verus! {

/// The character views of a list of string pairs.
pub open spec fn pair_views(entries: Seq<(String, String)>) -> Seq<(Seq<char>, Seq<char>)> {
    entries.map_values(|e: (String, String)| (e.0@, e.1@))
}

/// No key occurs twice.
pub open spec fn unique_keys(p: Seq<(Seq<char>, Seq<char>)>) -> bool {
    forall|i: int, j: int| 0 <= i < p.len() && 0 <= j < p.len() && i != j ==> p[i].0 != p[j].0
}

/// The map that a list of pairs denotes (a later pair wins over an earlier
/// one with the same key; with unique keys no pair is overridden).
pub open spec fn pairs_map(p: Seq<(Seq<char>, Seq<char>)>) -> Map<Seq<char>, Seq<char>>
    decreases p.len(),
{
    if p.len() == 0 {
        Map::empty()
    } else {
        pairs_map(p.drop_last()).insert(p.last().0, p.last().1)
    }
}

/// With unique keys, the map holds exactly the listed pairs, and has as
/// many keys as there are pairs.
pub proof fn lemma_pairs_map(p: Seq<(Seq<char>, Seq<char>)>)
    requires
        unique_keys(p),
    ensures
        forall|i: int|
            0 <= i < p.len() ==> #[trigger] pairs_map(p).contains_key(p[i].0) && pairs_map(p)[p[i].0]
                == p[i].1,
        forall|k: Seq<char>|
            #[trigger] pairs_map(p).contains_key(k) ==> exists|i: int| 0 <= i < p.len() && p[i].0 == k,
        pairs_map(p).dom().finite(),
        pairs_map(p).len() == p.len(),
    decreases p.len(),
{
    if p.len() > 0 {
        let q = p.drop_last();
        assert(unique_keys(q));
        lemma_pairs_map(q);
        assert(!pairs_map(q).contains_key(p.last().0)) by {
            if pairs_map(q).contains_key(p.last().0) {
                let i = choose|i: int| 0 <= i < q.len() && q[i].0 == p.last().0;
                assert(p[i].0 == p[p.len() - 1].0);
            }
        }
        assert forall|k: Seq<char>| #[trigger] pairs_map(p).contains_key(k) implies exists|i: int|
            0 <= i < p.len() && p[i].0 == k by {
            if k != p.last().0 {
                let i = choose|i: int| 0 <= i < q.len() && q[i].0 == k;
                assert(p[i].0 == k);
            } else {
                assert(p[p.len() - 1].0 == k);
            }
        }
        assert forall|i: int| 0 <= i < p.len() implies #[trigger] pairs_map(p).contains_key(p[i].0)
            && pairs_map(p)[p[i].0] == p[i].1 by {
            if i < p.len() - 1 {
                assert(q[i] == p[i]);
                assert(p[i].0 != p[p.len() - 1].0);
            }
        }
    }
}

/// A list with unique keys denotes any map that holds exactly its pairs.
pub proof fn lemma_pairs_map_ext(p: Seq<(Seq<char>, Seq<char>)>, m: Map<Seq<char>, Seq<char>>)
    requires
        unique_keys(p),
        forall|i: int| 0 <= i < p.len() ==> #[trigger] m.contains_key(p[i].0) && m[p[i].0] == p[i].1,
        forall|k: Seq<char>| #[trigger] m.contains_key(k) ==> exists|i: int| 0 <= i < p.len() && p[i].0 == k,
    ensures
        pairs_map(p) == m,
{
    lemma_pairs_map(p);
    assert forall|k: Seq<char>| #[trigger] pairs_map(p).contains_key(k) == m.contains_key(k) by {
        if m.contains_key(k) {
            let i = choose|i: int| 0 <= i < p.len() && p[i].0 == k;
            assert(pairs_map(p).contains_key(p[i].0));
        }
        if pairs_map(p).contains_key(k) {
            let i = choose|i: int| 0 <= i < p.len() && p[i].0 == k;
            assert(m.contains_key(p[i].0));
        }
    }
    assert forall|k: Seq<char>| #[trigger] m.contains_key(k) implies pairs_map(p)[k] == m[k] by {
        let i = choose|i: int| 0 <= i < p.len() && p[i].0 == k;
        assert(pairs_map(p).contains_key(p[i].0));
    }
    assert(pairs_map(p) =~= m);
}

/// A map from strings to strings with no key twice.
pub struct StringTable {
    entries: Vec<(String, String)>,
}

impl View for StringTable {
    type V = Map<Seq<char>, Seq<char>>;

    closed spec fn view(&self) -> Map<Seq<char>, Seq<char>> {
        pairs_map(pair_views(self.entries@))
    }
}

impl StringTable {
    #[verifier::type_invariant]
    closed spec fn keys_unique(self) -> bool {
        unique_keys(pair_views(self.entries@))
    }

    /// The empty table.
    pub fn new() -> (t: Self)
        ensures
            t@ == Map::<Seq<char>, Seq<char>>::empty(),
    {
        let t = StringTable { entries: Vec::new() };
        assert(pair_views(t.entries@) =~= Seq::<(Seq<char>, Seq<char>)>::empty());
        t
    }

    /// The number of keys.
    pub fn len(&self) -> (n: usize)
        ensures
            n == self@.len(),
    {
        proof {
            use_type_invariant(self);
            lemma_pairs_map(pair_views(self.entries@));
        }
        self.entries.len()
    }

    /// Whether the table holds no key.
    pub fn is_empty(&self) -> (b: bool)
        ensures
            b == (self@.len() == 0),
    {
        self.len() == 0
    }

    /// The position of `key` in the entry list.
    fn position(&self, key: &String) -> (r: Option<usize>)
        ensures
            match r {
                Some(i) => i < self.entries.len() && self.entries@[i as int].0@ == key@,
                None => forall|i: int| 0 <= i < self.entries.len() ==> self.entries@[i].0@ != key@,
            },
    {
        let mut i: usize = 0;
        while i < self.entries.len()
            invariant
                i <= self.entries.len(),
                forall|j: int| 0 <= j < i ==> self.entries@[j].0@ != key@,
            decreases self.entries.len() - i,
        {
            if self.entries[i].0 == *key {
                return Some(i);
            }
            i = i + 1;
        }
        None
    }

    /// Whether `key` has a value.
    pub fn contains_key(&self, key: &str) -> (b: bool)
        ensures
            b == self@.contains_key(key@),
    {
        proof {
            use_type_invariant(self);
            lemma_pairs_map(pair_views(self.entries@));
        }
        let k = key.to_string();
        match self.position(&k) {
            Some(i) => {
                assert(pair_views(self.entries@)[i as int].0 == key@);
                true
            },
            None => {
                proof {
                    if self@.contains_key(key@) {
                        let j = choose|j: int|
                            0 <= j < pair_views(self.entries@).len() && pair_views(
                                self.entries@,
                            )[j].0 == key@;
                        assert(self.entries@[j].0@ == key@);
                    }
                }
                false
            },
        }
    }

    /// The value of `key`, if it has one.
    pub fn get(&self, key: &str) -> (r: Option<String>)
        ensures
            match r {
                Some(v) => self@.contains_key(key@) && v@ == self@[key@],
                None => !self@.contains_key(key@),
            },
    {
        proof {
            use_type_invariant(self);
            lemma_pairs_map(pair_views(self.entries@));
        }
        let k = key.to_string();
        match self.position(&k) {
            Some(i) => {
                assert(pair_views(self.entries@)[i as int] == (
                    self.entries@[i as int].0@,
                    self.entries@[i as int].1@,
                ));
                let v = self.entries[i].1.clone();
                assert(v@ == self.entries@[i as int].1@);
                assert(self@.contains_key(pair_views(self.entries@)[i as int].0));
                assert(self@[key@] == pair_views(self.entries@)[i as int].1);
                Some(v)
            },
            None => {
                proof {
                    if self@.contains_key(key@) {
                        let j = choose|j: int|
                            0 <= j < pair_views(self.entries@).len() && pair_views(
                                self.entries@,
                            )[j].0 == key@;
                        assert(self.entries@[j].0@ == key@);
                    }
                }
                None
            },
        }
    }

    /// Sets the value of `key` to `value`, replacing any earlier value.
    pub fn insert(&mut self, key: String, value: String)
        ensures
            final(self)@ == old(self)@.insert(key@, value@),
    {
        proof {
            use_type_invariant(&*self);
            lemma_pairs_map(pair_views(self.entries@));
        }
        let ghost old_map = self@;
        let ghost old_p = pair_views(self.entries@);
        let pos = self.position(&key);
        let ghost old_entries = self.entries@;
        let mut entries: Vec<(String, String)> = Vec::new();
        std::mem::swap(&mut entries, &mut self.entries);
        assert(pair_views(entries@) == old_p);
        let ghost kv = key@;
        let ghost vv = value@;
        match pos {
            Some(i) => {
                entries.set(i, (key, value));
                let ghost p = pair_views(entries@);
                assert(p =~= old_p.update(i as int, (kv, vv)));
                assert(unique_keys(p)) by {
                    assert forall|a: int, b: int|
                        0 <= a < p.len() && 0 <= b < p.len() && a != b implies p[a].0 != p[b].0 by {
                        if a != i && b != i {
                            assert(old_p[a].0 != old_p[b].0);
                        } else if a == i {
                            assert(old_p[a].0 != old_p[b].0);
                        } else {
                            assert(old_p[a].0 != old_p[b].0);
                        }
                    }
                }
                let ghost m = old_map.insert(kv, vv);
                proof {
                    assert forall|j: int| 0 <= j < p.len() implies #[trigger] m.contains_key(p[j].0)
                        && m[p[j].0] == p[j].1 by {
                        if j != i {
                            assert(old_map.contains_key(old_p[j].0));
                            assert(old_p[j].0 != old_p[i as int].0);
                        }
                    }
                    assert forall|k: Seq<char>| #[trigger] m.contains_key(k) implies exists|j: int|
                        0 <= j < p.len() && p[j].0 == k by {
                        if k == kv {
                            assert(p[i as int].0 == k);
                        } else {
                            let j = choose|j: int| 0 <= j < old_p.len() && old_p[j].0 == k;
                            assert(p[j].0 == k);
                        }
                    }
                    lemma_pairs_map_ext(p, m);
                }
            },
            None => {
                entries.push((key, value));
                let ghost p = pair_views(entries@);
                assert(p =~= old_p.push((kv, vv)));
                assert(unique_keys(p)) by {
                    assert forall|a: int, b: int|
                        0 <= a < p.len() && 0 <= b < p.len() && a != b implies p[a].0 != p[b].0 by {
                        if a < old_p.len() && b < old_p.len() {
                            assert(old_p[a].0 != old_p[b].0);
                        } else if a < old_p.len() {
                            assert(old_entries[a].0@ != kv);
                            assert(old_p[a].0 == old_entries[a].0@);
                        } else {
                            assert(old_entries[b].0@ != kv);
                            assert(old_p[b].0 == old_entries[b].0@);
                        }
                    }
                }
                assert(p.drop_last() =~= old_p);
            },
        }
        self.entries = entries;
    }

    /// Removes `key`; says whether it had a value.
    pub fn remove(&mut self, key: &str) -> (removed: bool)
        ensures
            final(self)@ == old(self)@.remove(key@),
            removed == old(self)@.contains_key(key@),
    {
        proof {
            use_type_invariant(&*self);
            lemma_pairs_map(pair_views(self.entries@));
        }
        let ghost old_map = self@;
        let ghost old_p = pair_views(self.entries@);
        let k = key.to_string();
        let pos = self.position(&k);
        match pos {
            None => {
                proof {
                    if old_map.contains_key(key@) {
                        let j = choose|j: int| 0 <= j < old_p.len() && old_p[j].0 == key@;
                        assert(self.entries@[j].0@ == key@);
                    }
                }
                assert(old_map.remove(key@) =~= old_map);
                false
            },
            Some(i) => {
                let mut entries: Vec<(String, String)> = Vec::new();
                std::mem::swap(&mut entries, &mut self.entries);
                assert(pair_views(entries@) == old_p);
                entries.remove(i);
                let ghost p = pair_views(entries@);
                assert(p =~= old_p.remove(i as int));
                assert(unique_keys(p)) by {
                    assert forall|a: int, b: int|
                        0 <= a < p.len() && 0 <= b < p.len() && a != b implies p[a].0 != p[b].0 by {
                        let a2 = if a < i { a } else { a + 1 };
                        let b2 = if b < i { b } else { b + 1 };
                        assert(old_p[a2].0 != old_p[b2].0);
                    }
                }
                let ghost m = old_map.remove(key@);
                proof {
                    assert(old_p[i as int].0 == key@);
                    assert forall|j: int| 0 <= j < p.len() implies #[trigger] m.contains_key(p[j].0)
                        && m[p[j].0] == p[j].1 by {
                        let j2 = if j < i { j } else { j + 1 };
                        assert(old_p[j2].0 != old_p[i as int].0);
                        assert(old_map.contains_key(old_p[j2].0));
                    }
                    assert forall|k: Seq<char>| #[trigger] m.contains_key(k) implies exists|j: int|
                        0 <= j < p.len() && p[j].0 == k by {
                        let j = choose|j: int| 0 <= j < old_p.len() && old_p[j].0 == k;
                        assert(j != i);
                        if j < i {
                            assert(p[j].0 == k);
                        } else {
                            assert(p[j - 1].0 == k);
                        }
                    }
                    lemma_pairs_map_ext(p, m);
                }
                self.entries = entries;
                true
            },
        }
    }

    /// Some key whose value is `value`, if there is one.
    pub fn key_for_value(&self, value: &str) -> (r: Option<String>)
        ensures
            match r {
                Some(k) => self@.contains_key(k@) && self@[k@] == value@,
                None => forall|k: Seq<char>| #[trigger] self@.contains_key(k) ==> self@[k] != value@,
            },
    {
        proof {
            use_type_invariant(self);
            lemma_pairs_map(pair_views(self.entries@));
        }
        let ghost p = pair_views(self.entries@);
        let v = value.to_string();
        let mut i: usize = 0;
        while i < self.entries.len()
            invariant
                i <= self.entries.len(),
                p == pair_views(self.entries@),
                v@ == value@,
                forall|j: int| 0 <= j < i ==> self.entries@[j].1@ != value@,
            decreases self.entries.len() - i,
        {
            let same = self.entries[i].1 == v;
            assert(same == (self.entries@[i as int].1@ == value@));
            if same {
                proof {
                    use_type_invariant(self);
                    lemma_pairs_map(p);
                }
                assert(p[i as int] == (self.entries@[i as int].0@, self.entries@[i as int].1@));
                let k = self.entries[i].0.clone();
                assert(k@ == p[i as int].0);
                assert(self@ == pairs_map(p));
                assert(pairs_map(p).contains_key(p[i as int].0));
                assert(pairs_map(p)[p[i as int].0] == p[i as int].1);
                return Some(k);
            }
            i = i + 1;
        }
        proof {
            assert forall|k: Seq<char>| #[trigger] self@.contains_key(k) implies self@[k] != value@ by {
                let j = choose|j: int| 0 <= j < p.len() && p[j].0 == k;
                assert(self.entries@[j].1@ != value@);
            }
        }
        None
    }

    /// The entries, each key once, in the table's own order.
    pub fn entries(&self) -> (r: Vec<(String, String)>)
        ensures
            unique_keys(pair_views(r@)),
            pairs_map(pair_views(r@)) == self@,
    {
        proof {
            use_type_invariant(self);
        }
        let mut r: Vec<(String, String)> = Vec::new();
        let mut i: usize = 0;
        while i < self.entries.len()
            invariant
                i <= self.entries.len(),
                r.len() == i,
                pair_views(r@) == pair_views(self.entries@).take(i as int),
            decreases self.entries.len() - i,
        {
            let k = self.entries[i].0.clone();
            let v = self.entries[i].1.clone();
            r.push((k, v));
            assert(r@[i as int] == self.entries@[i as int]);
            i = i + 1;
            assert(pair_views(r@) =~= pair_views(self.entries@).take(i as int));
        }
        assert(pair_views(self.entries@).take(self.entries.len() as int) =~= pair_views(
            self.entries@,
        ));
        r
    }
}

} // verus!
