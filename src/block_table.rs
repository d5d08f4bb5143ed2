use vstd::prelude::*;

verus! {

/// The value recorded for block `b` in a list of (block number, value) pairs:
/// the last pair with that block number, if any.
pub open spec fn lookup<V>(s: Seq<(u64, V)>, b: u64) -> Option<V>
    decreases s.len(),
{
    if s.len() == 0 {
        None
    } else if s.last().0 == b {
        Some(s.last().1)
    } else {
        lookup(s.drop_last(), b)
    }
}

/// The pairs of `s` whose block number lies above `latest`, in their order.
pub open spec fn above<V>(s: Seq<(u64, V)>, latest: u64) -> Seq<(u64, V)>
    decreases s.len(),
{
    if s.len() == 0 {
        s
    } else if s.last().0 > latest {
        above(s.drop_last(), latest).push(s.last())
    } else {
        above(s.drop_last(), latest)
    }
}

/// The map from block number to value that a list of pairs stands for.
pub open spec fn table_map<V>(s: Seq<(u64, V)>) -> Map<u64, V> {
    Map::new(|b: u64| lookup(s, b) is Some, |b: u64| lookup(s, b)->0)
}

proof fn lemma_lookup_last_index<V>(s: Seq<(u64, V)>, i: int, b: u64)
    requires
        0 <= i < s.len(),
        s[i].0 == b,
        forall|j: int| i < j < s.len() ==> s[j].0 != b,
    ensures
        lookup(s, b) == Some(s[i].1),
    decreases s.len(),
{
    if i < s.len() - 1 {
        lemma_lookup_last_index(s.drop_last(), i, b);
    }
}

proof fn lemma_lookup_absent<V>(s: Seq<(u64, V)>, b: u64)
    requires
        forall|j: int| 0 <= j < s.len() ==> s[j].0 != b,
    ensures
        lookup(s, b) is None,
    decreases s.len(),
{
    if s.len() > 0 {
        lemma_lookup_absent(s.drop_last(), b);
    }
}

proof fn lemma_lookup_push<V>(s: Seq<(u64, V)>, b: u64, v: V, c: u64)
    ensures
        lookup(s.push((b, v)), c) == if c == b {
            Some(v)
        } else {
            lookup(s, c)
        },
{
    assert(s.push((b, v)).drop_last() =~= s);
}

proof fn lemma_lookup_update<V>(s: Seq<(u64, V)>, i: int, v: V, c: u64)
    requires
        0 <= i < s.len(),
        forall|j: int| i < j < s.len() ==> s[j].0 != s[i].0,
    ensures
        lookup(s.update(i, (s[i].0, v)), c) == if c == s[i].0 {
            Some(v)
        } else {
            lookup(s, c)
        },
    decreases s.len(),
{
    let t = s.update(i, (s[i].0, v));
    if i == s.len() - 1 {
        assert(t.drop_last() =~= s.drop_last());
    } else {
        assert(t.drop_last() =~= s.drop_last().update(i, (s[i].0, v)));
        lemma_lookup_update(s.drop_last(), i, v, c);
    }
}

proof fn lemma_lookup_above<V>(s: Seq<(u64, V)>, latest: u64, c: u64)
    ensures
        lookup(above(s, latest), c) == if c > latest {
            lookup(s, c)
        } else {
            None
        },
    decreases s.len(),
{
    if s.len() > 0 {
        lemma_lookup_above(s.drop_last(), latest, c);
        if s.last().0 > latest {
            lemma_lookup_push(above(s.drop_last(), latest), s.last().0, s.last().1, c);
        }
    }
}

/// The pairs of `s` whose block number is not `b`, in their order.
pub open spec fn without<V>(s: Seq<(u64, V)>, b: u64) -> Seq<(u64, V)>
    decreases s.len(),
{
    if s.len() == 0 {
        s
    } else if s.last().0 != b {
        without(s.drop_last(), b).push(s.last())
    } else {
        without(s.drop_last(), b)
    }
}

proof fn lemma_lookup_without<V>(s: Seq<(u64, V)>, b: u64, c: u64)
    ensures
        lookup(without(s, b), c) == if c == b {
            None
        } else {
            lookup(s, c)
        },
    decreases s.len(),
{
    if s.len() > 0 {
        lemma_lookup_without(s.drop_last(), b, c);
        if s.last().0 != b {
            lemma_lookup_push(without(s.drop_last(), b), s.last().0, s.last().1, c);
        }
    }
}

/// Values kept per block number, such as sealing sessions or random numbers.
pub struct BlockTable<V> {
    entries: Vec<(u64, V)>,
}

impl<V> View for BlockTable<V> {
    type V = Map<u64, V>;

    closed spec fn view(&self) -> Map<u64, V> {
        table_map(self.entries@)
    }
}

impl<V> BlockTable<V> {
    /// A table without entries.
    pub fn new() -> (t: Self)
        ensures
            t@ == Map::<u64, V>::empty(),
    {
        let t = BlockTable { entries: Vec::new() };
        assert(t@ =~= Map::<u64, V>::empty());
        t
    }

    /// The value recorded for block `b`.
    pub fn get(&self, b: u64) -> (r: Option<&V>)
        ensures
            match r {
                Some(v) => self@.contains_key(b) && self@[b] == *v,
                None => !self@.contains_key(b),
            },
    {
        match self.find(b) {
            Some(i) => Some(&self.entries[i].1),
            None => None,
        }
    }

    /// Whether a value is recorded for block `b`.
    pub fn contains(&self, b: u64) -> (r: bool)
        ensures
            r == self@.contains_key(b),
    {
        self.find(b).is_some()
    }

    /// Index of the last pair for block `b`.
    fn find(&self, b: u64) -> (r: Option<usize>)
        ensures
            match r {
                Some(i) => {
                    &&& i < self.entries@.len()
                    &&& self.entries@[i as int].0 == b
                    &&& forall|j: int| i < j < self.entries@.len() ==> self.entries@[j].0 != b
                    &&& lookup(self.entries@, b) == Some(self.entries@[i as int].1)
                },
                None => lookup(self.entries@, b) is None,
            },
    {
        let mut k: usize = self.entries.len();
        while k > 0
            invariant
                k <= self.entries@.len(),
                forall|j: int| k <= j < self.entries@.len() ==> self.entries@[j].0 != b,
            decreases k,
        {
            k = k - 1;
            if self.entries[k].0 == b {
                proof {
                    lemma_lookup_last_index(self.entries@, k as int, b);
                }
                return Some(k);
            }
        }
        proof {
            lemma_lookup_absent(self.entries@, b);
        }
        None
    }

    /// Records `v` for block `b`, replacing what was recorded for it.
    pub fn insert(&mut self, b: u64, v: V)
        ensures
            final(self)@ == old(self)@.insert(b, v),
    {
        let ghost s = self.entries@;
        match self.find(b) {
            Some(i) => {
                self.entries[i] = (b, v);
                proof {
                    assert forall|c: u64|
                        #![trigger lookup(self.entries@, c)]
                        lookup(self.entries@, c) == if c == b {
                            Some(v)
                        } else {
                            lookup(s, c)
                        } by {
                        assert(self.entries@ =~= s.update(i as int, (s[i as int].0, v)));
                        lemma_lookup_update(s, i as int, v, c);
                    }
                }
            },
            None => {
                self.entries.push((b, v));
                proof {
                    assert forall|c: u64|
                        #![trigger lookup(self.entries@, c)]
                        lookup(self.entries@, c) == if c == b {
                            Some(v)
                        } else {
                            lookup(s, c)
                        } by {
                        lemma_lookup_push(s, b, v, c);
                    }
                }
            },
        }
        assert(self@ =~= table_map(s).insert(b, v));
    }

    /// Takes out the value recorded for block `b`.
    pub fn remove(&mut self, b: u64) -> (r: Option<V>)
        ensures
            final(self)@ == old(self)@.remove(b),
            match r {
                Some(v) => old(self)@.contains_key(b) && old(self)@[b] == v,
                None => !old(self)@.contains_key(b),
            },
    {
        let ghost s = self.entries@;
        let ghost mut j: int = 0;
        let mut i: usize = 0;
        let mut last: Option<V> = None;
        proof {
            assert(s.take(0) =~= Seq::<(u64, V)>::empty());
        }
        while i < self.entries.len()
            invariant
                0 <= j <= s.len(),
                i == without(s.take(j), b).len(),
                self.entries@ == without(s.take(j), b) + s.skip(j),
                last == lookup(s.take(j), b),
            decreases self.entries@.len() - i,
        {
            proof {
                assert(s.take(j + 1).drop_last() =~= s.take(j));
                assert(self.entries@[i as int] == s[j]);
            }
            if self.entries[i].0 != b {
                i = i + 1;
                proof {
                    assert(self.entries@ =~= without(s.take(j + 1), b) + s.skip(j + 1));
                }
            } else {
                let (_, v) = self.entries.remove(i);
                last = Some(v);
                proof {
                    assert(self.entries@ =~= without(s.take(j + 1), b) + s.skip(j + 1));
                }
            }
            proof {
                j = j + 1;
            }
        }
        proof {
            assert(j == s.len()) by {
                if j < s.len() {
                    assert(self.entries@.len() > i);
                }
            }
            assert(s.take(j) =~= s);
            assert(self.entries@ =~= without(s, b));
            assert forall|c: u64| #![trigger lookup(self.entries@, c)]
                lookup(self.entries@, c) == if c == b {
                    None
                } else {
                    lookup(s, c)
                } by {
                lemma_lookup_without(s, b, c);
            }
        }
        assert(self@ =~= table_map(s).remove(b));
        last
    }

    /// Drops every entry whose block number is at most `latest`.
    pub fn retain_above(&mut self, latest: u64)
        ensures
            final(self)@ == old(self)@.restrict(Set::new(|b: u64| b > latest)),
            forall|b: u64| #[trigger] final(self)@.contains_key(b) ==> b > latest,
    {
        let ghost s = self.entries@;
        let ghost mut j: int = 0;
        let mut i: usize = 0;
        while i < self.entries.len()
            invariant
                0 <= j <= s.len(),
                i == above(s.take(j), latest).len(),
                self.entries@ == above(s.take(j), latest) + s.skip(j),
            decreases self.entries@.len() - i,
        {
            proof {
                assert(s.take(j + 1).drop_last() =~= s.take(j));
                assert(self.entries@[i as int] == s[j]);
            }
            if self.entries[i].0 > latest {
                i = i + 1;
                proof {
                    assert(self.entries@ =~= above(s.take(j + 1), latest) + s.skip(j + 1));
                }
            } else {
                self.entries.remove(i);
                proof {
                    assert(self.entries@ =~= above(s.take(j + 1), latest) + s.skip(j + 1));
                }
            }
            proof {
                j = j + 1;
            }
        }
        proof {
            assert(j == s.len()) by {
                if j < s.len() {
                    assert(self.entries@.len() > i);
                }
            }
            assert(s.take(j) =~= s);
            assert(self.entries@ =~= above(s, latest));
            assert forall|c: u64| #![trigger lookup(self.entries@, c)]
                lookup(self.entries@, c) == if c > latest {
                    lookup(s, c)
                } else {
                    None
                } by {
                lemma_lookup_above(s, latest, c);
            }
        }
        assert(self@ =~= table_map(s).restrict(Set::new(|b: u64| b > latest)));
    }
}

} // verus!
