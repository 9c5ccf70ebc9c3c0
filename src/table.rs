use vstd::prelude::*;
use crate::text::same_text;

verus! {

/// A name-keyed table kept as a list of entries with pairwise distinct keys.
#[derive(Clone)]
pub struct Table<V> {
    pub entries: Vec<(String, V)>,
}

impl<V> Table<V> {
    /// Keys are pairwise distinct.
    pub open spec fn wf(&self) -> bool {
        forall|i: int, j: int|
            0 <= i < self.entries@.len() && 0 <= j < self.entries@.len() && i != j
                ==> #[trigger] self.entries@[i].0@ != #[trigger] self.entries@[j].0@
    }

    pub open spec fn has(&self, k: Seq<char>) -> bool {
        exists|i: int| 0 <= i < self.entries@.len() && #[trigger] self.entries@[i].0@ == k
    }

    pub open spec fn value_of(&self, k: Seq<char>) -> V {
        self.entries@[choose|i: int| 0 <= i < self.entries@.len() && #[trigger] self.entries@[i].0@ == k].1
    }

    /// The table as a map from names to values.
    pub open spec fn view(&self) -> Map<Seq<char>, V> {
        Map::new(|k: Seq<char>| self.has(k), |k: Seq<char>| self.value_of(k))
    }

    pub proof fn lemma_entry(&self, i: int)
        requires
            self.wf(),
            0 <= i < self.entries@.len(),
        ensures
            self@.contains_key(self.entries@[i].0@),
            self@[self.entries@[i].0@] == self.entries@[i].1,
    {
        let k = self.entries@[i].0@;
        assert(self.has(k));
        let j = choose|j: int| 0 <= j < self.entries@.len() && #[trigger] self.entries@[j].0@ == k;
        assert(i == j);
    }

    pub fn new() -> (r: Self)
        ensures
            r.wf(),
            r@ == Map::<Seq<char>, V>::empty(),
    {
        let r = Table { entries: Vec::new() };
        assert(r@ =~= Map::<Seq<char>, V>::empty());
        r
    }

    pub fn len(&self) -> (r: usize)
        ensures
            r == self.entries@.len(),
    {
        self.entries.len()
    }

    /// Position of the entry named `key`.
    pub fn find(&self, key: &str) -> (r: Option<usize>)
        requires
            self.wf(),
        ensures
            r.is_none() == !self@.contains_key(key@),
            match r {
                Some(i) => i < self.entries@.len() && self.entries@[i as int].0@ == key@
                    && self@[key@] == self.entries@[i as int].1,
                None => true,
            },
    {
        let mut i: usize = 0;
        while i < self.entries.len()
            invariant
                i <= self.entries@.len(),
                self.wf(),
                forall|j: int| 0 <= j < i ==> #[trigger] self.entries@[j].0@ != key@,
            decreases self.entries@.len() - i,
        {
            if same_text(self.entries[i].0.as_str(), key) {
                proof {
                    self.lemma_entry(i as int);
                }
                return Some(i);
            }
            i += 1;
        }
        None
    }

    pub fn contains(&self, key: &str) -> (r: bool)
        requires
            self.wf(),
        ensures
            r == self@.contains_key(key@),
    {
        self.find(key).is_some()
    }

    /// Binds `key` to `value`, replacing any earlier binding.
    pub fn insert(&mut self, key: String, value: V)
        requires
            old(self).wf(),
        ensures
            final(self).wf(),
            final(self)@ == old(self)@.insert(key@, value),
    {
        let ghost k = key@;
        let ghost pos: int;
        match self.find(key.as_str()) {
            Some(i) => {
                self.entries.set(i, (key, value));
                proof { pos = i as int; }
            },
            None => {
                self.entries.push((key, value));
                proof { pos = old(self).entries@.len() as int; }
            },
        }
        proof {
            let n = self.entries@.len();
            let on = old(self).entries@.len();
            assert(forall|j: int| 0 <= j < on && old(self).entries@[j].0@ != k ==> self.entries@[j] == old(self).entries@[j]);
            assert(forall|j: int| 0 <= j < n && self.entries@[j].0@ != k ==> j < on && self.entries@[j] == old(self).entries@[j]);
            assert(self.entries@[pos].0@ == k && self.entries@[pos].1 == value);
            assert forall|x: int, y: int|
                0 <= x < n && 0 <= y < n && x != y
                    implies #[trigger] self.entries@[x].0@ != #[trigger] self.entries@[y].0@ by {
                if self.entries@[x].0@ == k && self.entries@[y].0@ == k {
                    if x < on && y < on {
                        assert(old(self).entries@[x].0@ == k || self.entries@[x] == old(self).entries@[x]);
                    }
                }
            };
            assert forall|a: Seq<char>| #[trigger] self@.contains_key(a) == old(self)@.insert(k, value).contains_key(a) by {
                if a != k && old(self)@.contains_key(a) {
                    let j = choose|j: int| 0 <= j < on && #[trigger] old(self).entries@[j].0@ == a;
                    assert(self.entries@[j].0@ == a);
                }
                if a != k && self@.contains_key(a) {
                    let j = choose|j: int| 0 <= j < n && #[trigger] self.entries@[j].0@ == a;
                    assert(old(self).entries@[j].0@ == a);
                }
                if a == k {
                    let j = choose|j: int| 0 <= j < n && #[trigger] self.entries@[j].0@ == k && self.entries@[j].1 == value;
                    assert(self.has(a));
                }
            };
            assert forall|a: Seq<char>| #[trigger] self@.contains_key(a) implies self@[a] == old(self)@.insert(k, value)[a] by {
                let j = choose|j: int| 0 <= j < n && #[trigger] self.entries@[j].0@ == a;
                self.lemma_entry(j);
                if a != k {
                    old(self).lemma_entry(j);
                }
            };
            assert(self@ =~= old(self)@.insert(k, value));
        }
    }

    /// Drops the binding of `key`, if any, and hands back its value.
    pub fn remove(&mut self, key: &str) -> (r: Option<V>)
        requires
            old(self).wf(),
        ensures
            final(self).wf(),
            final(self)@ == old(self)@.remove(key@),
            r.is_some() == old(self)@.contains_key(key@),
            r.is_some() ==> r.unwrap() == old(self)@[key@],
    {
        match self.find(key) {
            Some(i) => {
                let e = self.entries.remove(i);
                proof {
                    let n = self.entries@.len();
                    assert forall|a: Seq<char>| #[trigger] self@.contains_key(a) == old(self)@.remove(key@).contains_key(a) by {
                        if old(self)@.contains_key(a) && a != key@ {
                            let j = choose|j: int| 0 <= j < old(self).entries@.len() && #[trigger] old(self).entries@[j].0@ == a;
                            if j < i {
                                assert(self.entries@[j].0@ == a);
                            } else {
                                assert(self.entries@[j - 1].0@ == a);
                            }
                        }
                        if self@.contains_key(a) {
                            let j = choose|j: int| 0 <= j < n && #[trigger] self.entries@[j].0@ == a;
                            if j < i {
                                assert(old(self).entries@[j].0@ == a);
                            } else {
                                assert(old(self).entries@[j + 1].0@ == a);
                            }
                        }
                    };
                    assert(self.wf()) by {
                        assert forall|x: int, y: int|
                            0 <= x < n && 0 <= y < n && x != y
                                implies #[trigger] self.entries@[x].0@ != #[trigger] self.entries@[y].0@ by {
                            let ox = if x < i { x } else { x + 1 };
                            let oy = if y < i { y } else { y + 1 };
                            assert(old(self).entries@[ox] == self.entries@[x]);
                            assert(old(self).entries@[oy] == self.entries@[y]);
                        };
                    };
                    assert forall|a: Seq<char>| #[trigger] self@.contains_key(a) implies self@[a] == old(self)@.remove(key@)[a] by {
                        {
                            let j = choose|j: int| 0 <= j < n && #[trigger] self.entries@[j].0@ == a;
                            self.lemma_entry(j);
                            if j < i {
                                old(self).lemma_entry(j);
                            } else {
                                old(self).lemma_entry(j + 1);
                            }
                        }
                    };
                    assert(self@ =~= old(self)@.remove(key@));
                }
                Some(e.1)
            },
            None => {
                assert(self@ =~= old(self)@.remove(key@));
                None
            },
        }
    }

    /// Drops every binding.
    pub fn clear(&mut self)
        ensures
            final(self).wf(),
            final(self)@ == Map::<Seq<char>, V>::empty(),
    {
        self.entries = Vec::new();
        assert(self@ =~= Map::<Seq<char>, V>::empty());
    }
}

} // verus!
