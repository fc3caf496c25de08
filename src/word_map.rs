use vstd::prelude::*;

verus! {

/// The map that a sequence of (word index, value) entries denotes: later entries win.
pub open spec fn map_of<V>(s: Seq<(usize, V)>) -> Map<usize, V>
    decreases s.len(),
{
    if s.len() == 0 {
        Map::empty()
    } else {
        map_of(s.drop_last()).insert(s.last().0, s.last().1)
    }
}

/// The map after `n` words were retired from the front: keys below `n` are dropped,
/// every other key moves down by `n`.
pub open spec fn rebased<V>(m: Map<usize, V>, n: usize) -> Map<usize, V> {
    Map::new(|k: usize| k + n <= usize::MAX && m.contains_key((k + n) as usize), |k: usize| m[(k + n) as usize])
}

/// Retiring no word changes nothing.
pub proof fn lemma_rebased_zero<V>(m: Map<usize, V>)
    ensures
        rebased(m, 0) == m,
{
    assert(rebased(m, 0) =~= m);
}

/// A small map keyed by word index, shared by every word-keyed collection of a session.
pub struct WordIndexMap<V> {
    entries: Vec<(usize, V)>,
}

impl<V> View for WordIndexMap<V> {
    type V = Map<usize, V>;

    closed spec fn view(&self) -> Map<usize, V> {
        map_of(self.entries@)
    }
}

proof fn lemma_absent_suffix<V>(s: Seq<(usize, V)>, i: int, k: usize)
    requires
        0 <= i <= s.len(),
        forall|j: int| i <= j < s.len() ==> s[j].0 != k,
    ensures
        map_of(s).contains_key(k) == map_of(s.take(i)).contains_key(k),
        map_of(s).contains_key(k) ==> map_of(s)[k] == map_of(s.take(i))[k],
    decreases s.len() - i,
{
    if i < s.len() {
        assert(s.drop_last() == s.take(s.len() - 1));
        lemma_absent_suffix(s.drop_last(), i, k);
        assert(s.drop_last().take(i) == s.take(i));
    } else {
        assert(s.take(i) == s);
    }
}

impl<V: Copy> WordIndexMap<V> {
    pub fn new() -> (r: Self)
        ensures
            r@ == Map::<usize, V>::empty(),
    {
        WordIndexMap { entries: Vec::new() }
    }

    pub fn clear(&mut self)
        ensures
            final(self)@ == Map::<usize, V>::empty(),
    {
        self.entries = Vec::new();
    }

    pub fn get(&self, k: usize) -> (r: Option<V>)
        ensures
            r == (if self@.contains_key(k) { Some(self@[k]) } else { None::<V> }),
    {
        let mut i: usize = self.entries.len();
        while i > 0
            invariant
                i <= self.entries@.len(),
                forall|j: int| i <= j < self.entries@.len() ==> self.entries@[j].0 != k,
            decreases i,
        {
            let e = self.entries[i - 1];
            if e.0 == k {
                proof {
                    let s = self.entries@;
                    lemma_absent_suffix(s, i as int, k);
                    assert(s.take(i as int).drop_last() == s.take(i - 1));
                }
                return Some(e.1);
            }
            i = i - 1;
        }
        proof {
            lemma_absent_suffix(self.entries@, 0, k);
        }
        None
    }

    pub fn contains(&self, k: usize) -> (r: bool)
        ensures
            r == self@.contains_key(k),
    {
        self.get(k).is_some()
    }

    pub fn insert(&mut self, k: usize, v: V)
        ensures
            final(self)@ == old(self)@.insert(k, v),
    {
        self.entries.push((k, v));
        proof {
            assert(self.entries@.drop_last() == old(self).entries@);
        }
    }

    pub fn remove(&mut self, k: usize)
        ensures
            final(self)@ == old(self)@.remove(k),
    {
        let mut out: Vec<(usize, V)> = Vec::new();
        let mut i: usize = 0;
        while i < self.entries.len()
            invariant
                i <= self.entries@.len(),
                map_of(out@) == map_of(self.entries@.take(i as int)).remove(k),
            decreases self.entries@.len() - i,
        {
            let e = self.entries[i];
            proof {
                assert(self.entries@.take(i + 1).drop_last() == self.entries@.take(i as int));
            }
            let ghost prev = out@;
            if e.0 != k {
                out.push(e);
                proof {
                    assert(out@.drop_last() == prev);
                }
            }
            assert(map_of(out@) =~= map_of(self.entries@.take(i + 1)).remove(k));
            i = i + 1;
        }
        proof {
            assert(self.entries@.take(i as int) == self.entries@);
        }
        self.entries = out;
    }

    /// Retires `n` words from the front: see `rebased`.
    pub fn rebase(&mut self, n: usize)
        ensures
            final(self)@ == rebased(old(self)@, n),
    {
        let mut out: Vec<(usize, V)> = Vec::new();
        let mut i: usize = 0;
        while i < self.entries.len()
            invariant
                i <= self.entries@.len(),
                map_of(out@) == rebased(map_of(self.entries@.take(i as int)), n),
            decreases self.entries@.len() - i,
        {
            let e = self.entries[i];
            proof {
                assert(self.entries@.take(i + 1).drop_last() == self.entries@.take(i as int));
            }
            let ghost prev = out@;
            if e.0 >= n {
                out.push((e.0 - n, e.1));
                proof {
                    assert(out@.drop_last() == prev);
                }
            }
            assert(map_of(out@) =~= rebased(map_of(self.entries@.take(i + 1)), n));
            i = i + 1;
        }
        proof {
            assert(self.entries@.take(i as int) == self.entries@);
        }
        self.entries = out;
    }
}

} // verus!
