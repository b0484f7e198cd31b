use vstd::prelude::*;

verus! {

/// A record that is stored under a key derived from its own contents.
pub trait Record: View + Sized {
    type Key: View;

    /// The key under which a record with this view is stored.
    spec fn key_of(v: Self::V) -> <Self::Key as View>::V;

    fn has_key(&self, k: &Self::Key) -> (b: bool)
        ensures
            b == (Self::key_of(self@) == k@),
    ;

    fn key(&self) -> (k: Self::Key)
        ensures
            k@ == Self::key_of(self@),
    ;
}

/// Keyed storage with collision-checked creation: at most one record per key,
/// and records are never removed.
#[derive(Clone, Debug)]
pub struct RecordStore<R> {
    records: Vec<R>,
}

impl<R: Record> View for RecordStore<R> {
    type V = Map<<R::Key as View>::V, R::V>;

    closed spec fn view(&self) -> Self::V {
        Map::new(
            |k: <R::Key as View>::V|
                exists|i: int| 0 <= i < self.records@.len() && R::key_of(self.records@[i]@) == k,
            |k: <R::Key as View>::V|
                self.records@[choose|i: int|
                    0 <= i < self.records@.len() && R::key_of(self.records@[i]@) == k]@,
        )
    }
}

impl<R: Record> RecordStore<R> {
    /// No two records share a key.
    pub closed spec fn wf(&self) -> bool {
        forall|i: int, j: int|
            0 <= i < self.records@.len() && 0 <= j < self.records@.len() && R::key_of(
                self.records@[i]@,
            ) == R::key_of(self.records@[j]@) ==> i == j
    }

    proof fn lemma_index(&self, i: int)
        requires
            self.wf(),
            0 <= i < self.records@.len(),
        ensures
            self@.contains_key(R::key_of(self.records@[i]@)),
            self@[R::key_of(self.records@[i]@)] == self.records@[i]@,
    {
        let k = R::key_of(self.records@[i]@);
        assert(0 <= i < self.records@.len() && R::key_of(self.records@[i]@) == k);
        let j = choose|j: int| 0 <= j < self.records@.len() && R::key_of(self.records@[j]@) == k;
        assert(j == i);
    }

    pub fn new() -> (s: Self)
        ensures
            s.wf(),
            s@ == Map::<<R::Key as View>::V, R::V>::empty(),
    {
        let s = RecordStore { records: Vec::new() };
        assert(s@ =~= Map::<<R::Key as View>::V, R::V>::empty());
        s
    }

    fn index_of(&self, k: &R::Key) -> (r: Option<usize>)
        requires
            self.wf(),
        ensures
            r is None <==> !self@.contains_key(k@),
            r matches Some(i) ==> i < self.records@.len() && R::key_of(self.records@[i as int]@)
                == k@ && self@[k@] == self.records@[i as int]@,
    {
        let mut i: usize = 0;
        while i < self.records.len()
            invariant
                self.wf(),
                i <= self.records@.len(),
                forall|j: int| 0 <= j < i ==> R::key_of(self.records@[j]@) != k@,
            decreases self.records@.len() - i,
        {
            if self.records[i].has_key(k) {
                proof {
                    self.lemma_index(i as int);
                }
                return Some(i);
            }
            i += 1;
        }
        None
    }

    /// The record stored under `k`, if any.
    pub fn get(&self, k: &R::Key) -> (r: Option<&R>)
        requires
            self.wf(),
        ensures
            r is None <==> !self@.contains_key(k@),
            r matches Some(x) ==> x@ == self@[k@],
    {
        match self.index_of(k) {
            Some(i) => Some(&self.records[i]),
            None => None,
        }
    }

    /// Whether a record is stored under `k`.
    pub fn contains(&self, k: &R::Key) -> (b: bool)
        requires
            self.wf(),
        ensures
            b == self@.contains_key(k@),
    {
        self.index_of(k).is_some()
    }

    /// Creates a record under a key that holds none yet.
    pub fn insert(&mut self, r: R)
        requires
            old(self).wf(),
            !old(self)@.contains_key(R::key_of(r@)),
        ensures
            final(self).wf(),
            final(self)@ == old(self)@.insert(R::key_of(r@), r@),
    {
        let ghost k = R::key_of(r@);
        let ghost prev = *self;
        self.records.push(r);
        proof {
            let n = prev.records@.len() as int;
            assert forall|i: int| 0 <= i < n implies R::key_of(self.records@[i]@) != k by {
                assert(self.records@[i] == prev.records@[i]);
                if R::key_of(self.records@[i]@) == k {
                    assert(prev@.contains_key(k));
                }
            }
            assert forall|kk| #[trigger] self@.contains_key(kk) <==> prev@.insert(k, r@).contains_key(
                kk,
            ) by {
                if self@.contains_key(kk) && kk != k {
                    let i = choose|i: int|
                        0 <= i < self.records@.len() && R::key_of(self.records@[i]@) == kk;
                    assert(i < n);
                    assert(prev.records@[i] == self.records@[i]);
                }
                if prev@.contains_key(kk) {
                    let i = choose|i: int|
                        0 <= i < prev.records@.len() && R::key_of(prev.records@[i]@) == kk;
                    assert(prev.records@[i] == self.records@[i]);
                }
                if kk == k {
                    assert(R::key_of(self.records@[n]@) == k);
                }
            }
            self.lemma_index(n);
            assert forall|kk| #[trigger] prev@.contains_key(kk) && kk != k implies self@[kk]
                == prev@[kk] by {
                let i = choose|i: int|
                    0 <= i < prev.records@.len() && R::key_of(prev.records@[i]@) == kk;
                prev.lemma_index(i);
                assert(prev.records@[i] == self.records@[i]);
                self.lemma_index(i);
            }
            assert(self@ =~= prev@.insert(k, r@));
        }
    }

    /// Replaces the record stored under its key.
    pub fn update(&mut self, r: R)
        requires
            old(self).wf(),
            old(self)@.contains_key(R::key_of(r@)),
        ensures
            final(self).wf(),
            final(self)@ == old(self)@.insert(R::key_of(r@), r@),
    {
        let ghost k = R::key_of(r@);
        let ghost prev = *self;
        let key = r.key();
        let idx = match self.index_of(&key) {
            Some(i) => i,
            None => {
                return;
            },
        };
        self.records[idx] = r;
        proof {
            assert forall|i: int, j: int|
                0 <= i < self.records@.len() && 0 <= j < self.records@.len() && R::key_of(
                    self.records@[i]@,
                ) == R::key_of(self.records@[j]@) implies i == j by {
                assert(i != idx ==> prev.records@[i] == self.records@[i]);
                assert(j != idx ==> prev.records@[j] == self.records@[j]);
            }
            assert forall|kk| #[trigger] self@.contains_key(kk) <==> prev@.contains_key(kk) by {
                if self@.contains_key(kk) {
                    let i = choose|i: int|
                        0 <= i < self.records@.len() && R::key_of(self.records@[i]@) == kk;
                    if i != idx {
                        assert(prev.records@[i] == self.records@[i]);
                    }
                }
                if prev@.contains_key(kk) {
                    let i = choose|i: int|
                        0 <= i < prev.records@.len() && R::key_of(prev.records@[i]@) == kk;
                    if i != idx {
                        assert(prev.records@[i] == self.records@[i]);
                    }
                }
            }
            self.lemma_index(idx as int);
            assert forall|kk| #[trigger] prev@.contains_key(kk) && kk != k implies self@[kk]
                == prev@[kk] by {
                let i = choose|i: int|
                    0 <= i < prev.records@.len() && R::key_of(prev.records@[i]@) == kk;
                prev.lemma_index(i);
                assert(prev.records@[i] == self.records@[i]);
                self.lemma_index(i);
            }
            assert(self@ =~= prev@.insert(k, r@));
        }
    }
}

} // verus!
