use vstd::prelude::*;

verus! {

/// A set of qubit indices stored in a vector without repetitions.
///
/// Insertion keeps the existing order and appends new elements; removal does not
/// keep the order. The mathematical model is the finite set of stored indices.
#[derive(Clone, Debug)]
pub struct VecSet {
    elems: Vec<usize>,
}

/// The elements of `s` in the order in which each first occurs, each once.
pub open spec fn first_occurrences(s: Seq<usize>) -> Seq<usize>
    decreases s.len(),
{
    if s.len() == 0 {
        Seq::empty()
    } else {
        let d = first_occurrences(s.drop_last());
        if d.contains(s.last()) {
            d
        } else {
            d.push(s.last())
        }
    }
}

impl View for VecSet {
    type V = Set<usize>;

    closed spec fn view(&self) -> Set<usize> {
        self.elems@.to_set()
    }
}

impl VecSet {
    /// The stored elements, in storage order.
    pub closed spec fn items(&self) -> Seq<usize> {
        self.elems@
    }

    /// Well-formedness: no index is stored twice.
    pub closed spec fn wf(&self) -> bool {
        self.elems@.no_duplicates()
    }

    /// The set a well-formed collection stands for is finite and has exactly its items,
    /// none of which occurs twice.
    pub proof fn lemma_view(&self)
        requires
            self.wf(),
        ensures
            self@.finite(),
            self@.len() == self.items().len(),
            forall|x: usize| self@.contains(x) <==> self.items().contains(x),
            self.items().no_duplicates(),
    {
        self.elems@.unique_seq_to_set();
        assert forall|x: usize| self@.contains(x) <==> self.items().contains(x) by {}
    }

    /// An empty set.
    pub fn new() -> (s: Self)
        ensures
            s.wf(),
            s@ == Set::<usize>::empty(),
            s.items() == Seq::<usize>::empty(),
    {
        let s = VecSet { elems: Vec::new() };
        proof {
            assert(s@ =~= Set::<usize>::empty());
        }
        s
    }

    /// Builds a set from a list of indices; repeated indices are kept once.
    pub fn from_slice(items: &[usize]) -> (s: Self)
        ensures
            s.wf(),
            forall|x: usize| s@.contains(x) <==> items@.contains(x),
            s.items() == first_occurrences(items@),
    {
        let mut s = VecSet::new();
        let mut i: usize = 0;
        proof {
            assert(items@.subrange(0, 0) =~= Seq::<usize>::empty());
        }
        while i < items.len()
            invariant
                i <= items.len(),
                s.wf(),
                forall|x: usize| s@.contains(x) <==> items@.subrange(0, i as int).contains(x),
                s.items() == first_occurrences(items@.subrange(0, i as int)),
            decreases items.len() - i,
        {
            let x = items[i];
            proof {
                assert(items@.subrange(0, i + 1).drop_last() =~= items@.subrange(0, i as int));
                assert(items@.subrange(0, i + 1).last() == x);
                s.lemma_view();
            }
            s.insert(x);
            proof {
                lemma_prefix_step(items@, i as int);
            }
            i = i + 1;
        }
        proof {
            assert(items@.subrange(0, items.len() as int) =~= items@);
        }
        s
    }

    /// Whether `x` is in the set.
    pub fn contains(&self, x: usize) -> (b: bool)
        requires
            self.wf(),
        ensures
            b == self@.contains(x),
    {
        let mut i: usize = 0;
        while i < self.elems.len()
            invariant
                i <= self.elems.len(),
                forall|k: int| 0 <= k < i ==> self.elems@[k] != x,
            decreases self.elems.len() - i,
        {
            if self.elems[i] == x {
                proof {
                    assert(self.elems@.contains(x));
                }
                return true;
            }
            i = i + 1;
        }
        false
    }

    /// Position of `x` in storage, if present.
    fn position(&self, x: usize) -> (r: Option<usize>)
        requires
            self.wf(),
        ensures
            r matches Some(k) ==> k < self.items().len() && self.items()[k as int] == x,
            r is None ==> !self@.contains(x),
    {
        let mut i: usize = 0;
        while i < self.elems.len()
            invariant
                i <= self.elems.len(),
                forall|k: int| 0 <= k < i ==> self.elems@[k] != x,
            decreases self.elems.len() - i,
        {
            if self.elems[i] == x {
                return Some(i);
            }
            i = i + 1;
        }
        None
    }

    /// Adds `x`; returns whether it was absent before.
    pub fn insert(&mut self, x: usize) -> (added: bool)
        requires
            old(self).wf(),
        ensures
            final(self).wf(),
            final(self)@ == old(self)@.insert(x),
            added == !old(self)@.contains(x),
            final(self).items() == if added {
                old(self).items().push(x)
            } else {
                old(self).items()
            },
    {
        if self.contains(x) {
            proof {
                assert(self@ =~= self@.insert(x));
            }
            false
        } else {
            let ghost before = self.elems@;
            self.elems.push(x);
            proof {
                assert(self.elems@ == before.push(x));
                assert forall|i: int, j: int|
                    0 <= i < j < self.elems@.len() implies self.elems@[i] != self.elems@[j] by {
                    if j == before.len() {
                        assert(before.contains(before[i]));
                    }
                }
                assert forall|y: usize| self@.contains(y) <==> before.to_set().insert(x).contains(
                    y,
                ) by {
                    if self.elems@.contains(y) && y != x {
                        let k = choose|k: int| 0 <= k < self.elems@.len() && self.elems@[k] == y;
                        assert(before[k] == y);
                    }
                    if before.contains(y) {
                        let k = choose|k: int| 0 <= k < before.len() && before[k] == y;
                        assert(self.elems@[k] == y);
                    }
                    assert(self.elems@[before.len() as int] == x);
                }
                assert(self@ =~= before.to_set().insert(x));
            }
            true
        }
    }

    /// Removes `x`; returns whether it was present before.
    pub fn remove(&mut self, x: usize) -> (removed: bool)
        requires
            old(self).wf(),
        ensures
            final(self).wf(),
            final(self)@ == old(self)@.remove(x),
            removed == old(self)@.contains(x),
    {
        match self.position(x) {
            None => {
                proof {
                    assert(self@ =~= self@.remove(x));
                }
                false
            },
            Some(k) => {
                let ghost before = self.elems@;
                self.elems.swap_remove(k);
                proof {
                    let after = self.elems@;
                    assert(before.contains(x));
                    assert forall|y: usize| after.contains(y) <==> before.contains(y) && y != x by {
                        if after.contains(y) {
                            let j = choose|j: int| 0 <= j < after.len() && after[j] == y;
                            if j == k {
                                assert(before[before.len() - 1] == y);
                                assert(y != x);
                            } else {
                                assert(before[j] == y);
                                assert(j != k);
                            }
                        }
                        if before.contains(y) && y != x {
                            let j = choose|j: int| 0 <= j < before.len() && before[j] == y;
                            assert(j != k);
                            if j == before.len() - 1 {
                                assert(after[k as int] == y);
                            } else {
                                assert(after[j] == y);
                            }
                        }
                    }
                    assert forall|i: int, j: int|
                        0 <= i < j < after.len() implies after[i] != after[j] by {
                        if i == k {
                            assert(after[i] == before[before.len() - 1]);
                        } else if j == k {
                            assert(after[j] == before[before.len() - 1]);
                        }
                    }
                    assert(self@ =~= before.to_set().remove(x));
                }
                true
            },
        }
    }

    /// Removes every element.
    pub fn clear(&mut self)
        ensures
            final(self).wf(),
            final(self)@ == Set::<usize>::empty(),
    {
        self.elems.clear();
        proof {
            assert(self@ =~= Set::<usize>::empty());
        }
    }

    /// Inserts `x` when it is absent and removes it when it is present.
    pub fn symmetric_difference_item_update(&mut self, x: usize)
        requires
            old(self).wf(),
        ensures
            final(self).wf(),
            final(self)@ == (if old(self)@.contains(x) {
                old(self)@.remove(x)
            } else {
                old(self)@.insert(x)
            }),
    {
        if !self.remove(x) {
            self.insert(x);
        }
    }

    /// The number of elements.
    pub fn len(&self) -> (n: usize)
        requires
            self.wf(),
        ensures
            n == self@.len(),
    {
        proof {
            self.lemma_view();
        }
        self.elems.len()
    }

    /// Whether the set has no element.
    pub fn is_empty(&self) -> (b: bool)
        requires
            self.wf(),
        ensures
            b == (self@ == Set::<usize>::empty()),
    {
        proof {
            self.lemma_view();
            if self.elems@.len() > 0 {
                assert(self@.contains(self.elems@[0]));
            }
            if self.elems@.len() == 0 {
                assert(self@ =~= Set::<usize>::empty());
            }
        }
        self.elems.len() == 0
    }

    /// A copy of this set, with the same elements in the same order.
    pub fn duplicate(&self) -> (s: Self)
        ensures
            s.items() == self.items(),
            s@ == self@,
            s.wf() == self.wf(),
    {
        let s = VecSet { elems: self.elems.clone() };
        proof {
            assert(s.elems@ =~= self.elems@);
        }
        s
    }

    /// The elements, in storage order.
    pub fn to_vec(&self) -> (v: Vec<usize>)
        requires
            self.wf(),
        ensures
            v@ == self.items(),
    {
        self.elems.clone()
    }

    /// The elements that lie in both sets.
    pub fn intersection(&self, other: &Self) -> (s: Self)
        requires
            self.wf(),
            other.wf(),
        ensures
            s.wf(),
            s@ == self@.intersect(other@),
    {
        let mut s = VecSet::new();
        let mut i: usize = 0;
        while i < self.elems.len()
            invariant
                i <= self.elems.len(),
                self.wf(),
                other.wf(),
                s.wf(),
                forall|x: usize|
                    s@.contains(x) <==> (self.elems@.subrange(0, i as int).contains(x)
                        && other@.contains(x)),
            decreases self.elems.len() - i,
        {
            let x = self.elems[i];
            if other.contains(x) {
                s.insert(x);
            }
            proof {
                lemma_prefix_step(self.elems@, i as int);
            }
            i = i + 1;
        }
        proof {
            assert(self.elems@.subrange(0, self.elems@.len() as int) =~= self.elems@);
            assert(s@ =~= self@.intersect(other@));
        }
        s
    }

    /// The elements that lie in either set.
    pub fn union(&self, other: &Self) -> (s: Self)
        requires
            self.wf(),
            other.wf(),
        ensures
            s.wf(),
            s@ == self@.union(other@),
    {
        let mut s = VecSet { elems: self.elems.clone() };
        proof {
            assert(s.elems@ =~= self.elems@);
        }
        let mut i: usize = 0;
        while i < other.elems.len()
            invariant
                i <= other.elems.len(),
                other.wf(),
                s.wf(),
                forall|x: usize|
                    s@.contains(x) <==> (self@.contains(x) || other.elems@.subrange(
                        0,
                        i as int,
                    ).contains(x)),
            decreases other.elems.len() - i,
        {
            let x = other.elems[i];
            s.insert(x);
            proof {
                lemma_prefix_step(other.elems@, i as int);
            }
            i = i + 1;
        }
        proof {
            assert(other.elems@.subrange(0, other.elems@.len() as int) =~= other.elems@);
            assert(s@ =~= self@.union(other@));
        }
        s
    }

    /// The elements that lie in exactly one of the two sets.
    pub fn symmetric_difference(&self, other: &Self) -> (s: Self)
        requires
            self.wf(),
            other.wf(),
        ensures
            s.wf(),
            forall|x: usize| s@.contains(x) <==> (self@.contains(x) != other@.contains(x)),
    {
        let mut s = VecSet { elems: self.elems.clone() };
        proof {
            assert(s.elems@ =~= self.elems@);
        }
        let mut i: usize = 0;
        while i < other.elems.len()
            invariant
                i <= other.elems.len(),
                other.wf(),
                s.wf(),
                forall|x: usize|
                    s@.contains(x) <==> (self@.contains(x) != other.elems@.subrange(
                        0,
                        i as int,
                    ).contains(x)),
            decreases other.elems.len() - i,
        {
            let x = other.elems[i];
            proof {
                lemma_prefix_step(other.elems@, i as int);
                let pre = other.elems@.subrange(0, i as int);
                assert(!pre.contains(x)) by {
                    if pre.contains(x) {
                        let k = choose|k: int| 0 <= k < pre.len() && pre[k] == x;
                        assert(other.elems@[k] == other.elems@[i as int]);
                    }
                }
            }
            s.symmetric_difference_item_update(x);
            i = i + 1;
        }
        proof {
            assert(other.elems@.subrange(0, other.elems@.len() as int) =~= other.elems@);
        }
        s
    }
}

/// Extending a prefix of `s` by one element adds exactly that element.
pub proof fn lemma_prefix_step(s: Seq<usize>, i: int)
    requires
        0 <= i < s.len(),
    ensures
        forall|x: usize|
            s.subrange(0, i + 1).contains(x) <==> (s.subrange(0, i).contains(x) || x == s[i]),
{
    let long = s.subrange(0, i + 1);
    let short = s.subrange(0, i);
    assert forall|x: usize| long.contains(x) <==> (short.contains(x) || x == s[i]) by {
        if long.contains(x) {
            let k = choose|k: int| 0 <= k < long.len() && long[k] == x;
            if k < i {
                assert(short[k] == x);
            }
        }
        if short.contains(x) {
            let k = choose|k: int| 0 <= k < short.len() && short[k] == x;
            assert(long[k] == x);
        }
        assert(long[i] == s[i]);
    }
}

} // verus!
