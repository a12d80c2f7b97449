use vstd::prelude::*;

verus! {

/// No two entries share a key.
pub open spec fn keys_unique<V>(s: Seq<(String, V)>) -> bool {
    forall|i: int, j: int| 0 <= i < s.len() && 0 <= j < s.len() && i != j ==> #[trigger] s[i].0@ != #[trigger] s[j].0@
}

/// Some entry has key `k`.
pub open spec fn has_key<V>(s: Seq<(String, V)>, k: Seq<char>) -> bool {
    exists|i: int| 0 <= i < s.len() && #[trigger] s[i].0@ == k
}

/// A position of key `k`, where it is present.
pub open spec fn index_of<V>(s: Seq<(String, V)>, k: Seq<char>) -> int {
    choose|i: int| 0 <= i < s.len() && #[trigger] s[i].0@ == k
}

/// The map that a list of entries with distinct keys stands for.
pub open spec fn map_of<V>(s: Seq<(String, V)>) -> Map<Seq<char>, V> {
    Map::new(|k: Seq<char>| has_key(s, k), |k: Seq<char>| s[index_of(s, k)].1)
}

proof fn lemma_at<V>(s: Seq<(String, V)>, i: int)
    requires
        keys_unique(s),
        0 <= i < s.len(),
    ensures
        map_of(s).contains_key(s[i].0@),
        map_of(s)[s[i].0@] == s[i].1,
{
    let k = s[i].0@;
    assert(has_key(s, k));
    let j = index_of(s, k);
    assert(s[j].0@ == k);
}

/// The entries at every position but `i`, `t` holding them in the same order with one new
/// entry at `i` (or at the end when `i == s.len()`), give the map of `s` with that entry put in.
proof fn lemma_put<V>(s: Seq<(String, V)>, t: Seq<(String, V)>, i: int)
    requires
        keys_unique(s),
        0 <= i <= s.len(),
        i < s.len() ==> t.len() == s.len() && s[i].0@ == t[i].0@,
        i == s.len() ==> t.len() == s.len() + 1 && !has_key(s, t[i].0@),
        forall|j: int| 0 <= j < s.len() && j != i ==> #[trigger] t[j] == s[j],
    ensures
        keys_unique(t),
        map_of(t) == map_of(s).insert(t[i].0@, t[i].1),
{
    let k = t[i].0@;
    assert forall|a: int, b: int| 0 <= a < t.len() && 0 <= b < t.len() && a != b implies #[trigger] t[a].0@ != #[trigger] t[b].0@ by {
        if a != i && b != i {
            assert(t[a] == s[a] && t[b] == s[b]);
        } else if a == i && b != i {
            assert(t[b] == s[b]);
            if i < s.len() {
                assert(s[i].0@ != s[b].0@);
            }
        } else if b == i && a != i {
            assert(t[a] == s[a]);
            if i < s.len() {
                assert(s[i].0@ != s[a].0@);
            }
        }
    }
    assert forall|key: Seq<char>| #[trigger] has_key(t, key) == map_of(s).insert(k, t[i].1).contains_key(key) by {
        if has_key(s, key) {
            let j = index_of(s, key);
            if j != i {
                assert(t[j] == s[j]);
            }
        }
        if key == k {
            assert(t[i].0@ == key);
        }
        if has_key(t, key) {
            let j = index_of(t, key);
            if j != i {
                assert(t[j] == s[j]);
            }
        }
    }
    assert forall|key: Seq<char>| #[trigger] map_of(t).contains_key(key) implies map_of(t)[key] == map_of(s).insert(
        k,
        t[i].1,
    )[key] by {
        let j = index_of(t, key);
        assert(t[j].0@ == key);
        if key == k {
            assert(j == i);
        } else {
            assert(t[j] == s[j]);
            lemma_at(s, j);
        }
    }
    assert(map_of(t) =~= map_of(s).insert(k, t[i].1));
}

/// A map keyed by strings, kept as a vector of pairs with distinct keys.
pub struct StringMap<V> {
    entries: Vec<(String, V)>,
}

impl<V> View for StringMap<V> {
    type V = Map<Seq<char>, V>;

    closed spec fn view(&self) -> Map<Seq<char>, V> {
        map_of(self.entries@)
    }
}

impl<V> StringMap<V> {
    #[verifier::type_invariant]
    closed spec fn wf(&self) -> bool {
        keys_unique(self.entries@)
    }

    pub fn new() -> (r: Self)
        ensures
            r@ == Map::<Seq<char>, V>::empty(),
    {
        let r = StringMap { entries: Vec::new() };
        assert(r@ =~= Map::<Seq<char>, V>::empty());
        r
    }

    fn find(&self, k: &str) -> (r: Option<usize>)
        ensures
            match r {
                Some(i) => i < self.entries@.len() && self.entries@[i as int].0@ == k@,
                None => !self@.contains_key(k@),
            },
    {
        let key = k.to_owned();
        let mut i: usize = 0;
        while i < self.entries.len()
            invariant
                i <= self.entries@.len(),
                key@ == k@,
                forall|j: int| 0 <= j < i ==> #[trigger] self.entries@[j].0@ != k@,
            decreases self.entries@.len() - i,
        {
            if self.entries[i].0 == key {
                return Some(i);
            }
            i = i + 1;
        }
        None
    }

    /// Whether `k` is present.
    pub fn contains_key(&self, k: &str) -> (r: bool)
        ensures
            r == self@.contains_key(k@),
    {
        proof { use_type_invariant(self); }
        match self.find(k) {
            Some(i) => {
                proof { lemma_at(self.entries@, i as int); }
                true
            },
            None => false,
        }
    }

    /// The value under `k`, if any.
    pub fn get(&self, k: &str) -> (r: Option<&V>)
        ensures
            match r {
                Some(v) => self@.contains_key(k@) && *v == self@[k@],
                None => !self@.contains_key(k@),
            },
    {
        proof { use_type_invariant(self); }
        match self.find(k) {
            Some(i) => {
                proof { lemma_at(self.entries@, i as int); }
                Some(&self.entries[i].1)
            },
            None => None,
        }
    }

    /// Puts `v` under `k`, in place of any earlier value.
    pub fn insert(&mut self, k: String, v: V)
        ensures
            final(self)@ == old(self)@.insert(k@, v),
    {
        proof { use_type_invariant(&*self); }
        let found = self.find(k.as_str());
        let mut entries: Vec<(String, V)> = Vec::new();
        std::mem::swap(&mut entries, &mut self.entries);
        let ghost s = entries@;
        match found {
            Some(i) => {
                entries.set(i, (k, v));
                proof { lemma_put(s, entries@, i as int); }
            },
            None => {
                entries.push((k, v));
                proof { lemma_put(s, entries@, s.len() as int); }
            },
        }
        self.entries = entries;
    }

    /// Takes out the value under `k`, if any.
    pub fn take(&mut self, k: &str) -> (r: Option<V>)
        ensures
            final(self)@ == old(self)@.remove(k@),
            match r {
                Some(v) => old(self)@.contains_key(k@) && v == old(self)@[k@],
                None => !old(self)@.contains_key(k@),
            },
    {
        proof { use_type_invariant(&*self); }
        match self.find(k) {
            Some(i) => {
                let mut entries: Vec<(String, V)> = Vec::new();
                std::mem::swap(&mut entries, &mut self.entries);
                let ghost s = entries@;
                proof { lemma_at(s, i as int); }
                let (_, v) = entries.remove(i);
                proof {
                    let t = entries@;
                    assert forall|a: int, b: int| 0 <= a < t.len() && 0 <= b < t.len() && a != b implies #[trigger] t[a].0@
                        != #[trigger] t[b].0@ by {
                        let a0 = if a < i { a } else { a + 1 };
                        let b0 = if b < i { b } else { b + 1 };
                        assert(t[a] == s[a0]);
                        assert(t[b] == s[b0]);
                    }
                    assert forall|key: Seq<char>| #[trigger] has_key(t, key) == map_of(s).remove(k@).contains_key(key) by {
                        if has_key(s, key) && key != k@ {
                            let j = index_of(s, key);
                            assert(j != i);
                            let j1 = if j < i { j } else { j - 1 };
                            assert(t[j1] == s[j]);
                        }
                        if has_key(t, key) {
                            let j = index_of(t, key);
                            let j0 = if j < i { j } else { j + 1 };
                            assert(t[j] == s[j0]);
                            assert(j0 != i);
                        }
                    }
                    assert forall|key: Seq<char>| #[trigger] map_of(t).contains_key(key) implies map_of(t)[key]
                        == map_of(s).remove(k@)[key] by {
                        let j = index_of(t, key);
                        let j0 = if j < i { j } else { j + 1 };
                        assert(t[j] == s[j0]);
                        lemma_at(s, j0);
                    }
                    assert(map_of(t) =~= map_of(s).remove(k@));
                }
                self.entries = entries;
                Some(v)
            },
            None => {
                proof { assert(self@ =~= old(self)@.remove(k@)); }
                None
            },
        }
    }
}

} // verus!
