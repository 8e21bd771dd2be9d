use vstd::prelude::*;

use crate::files::paths_of;

verus! {

broadcast use vstd::seq_lib::lemma_seq_contains_after_push;

/// A set of paths, kept as a list without repeats.
pub struct PathSet {
    items: Vec<String>,
}

impl View for PathSet {
    type V = Set<Seq<char>>;

    closed spec fn view(&self) -> Set<Seq<char>> {
        paths_of(self.items@).to_set()
    }
}

impl PathSet {
    #[verifier::type_invariant]
    spec fn inv(&self) -> bool {
        paths_of(self.items@).no_duplicates()
    }

    /// The empty set.
    pub fn new() -> (r: PathSet)
        ensures
            r@ == Set::<Seq<char>>::empty(),
    {
        let r = PathSet { items: Vec::new() };
        assert(r@ =~= Set::<Seq<char>>::empty());
        r
    }

    /// Whether `p` is in the set.
    pub fn contains(&self, p: &String) -> (r: bool)
        ensures
            r == self@.contains(p@),
    {
        let mut i: usize = 0;
        while i < self.items.len()
            invariant
                0 <= i <= self.items@.len(),
                forall|j: int| 0 <= j < i ==> self.items@[j]@ != p@,
            decreases self.items@.len() - i,
        {
            if self.items[i].eq(p) {
                assert(paths_of(self.items@)[i as int] == p@);
                return true;
            }
            i = i + 1;
        }
        proof {
            if paths_of(self.items@).contains(p@) {
                let j = choose|j: int| 0 <= j < self.items@.len() && paths_of(self.items@)[j] == p@;
                assert(self.items@[j]@ == p@);
            }
        }
        false
    }

    /// Adds `p`; true when it was not in the set before.
    pub fn insert(&mut self, p: String) -> (r: bool)
        ensures
            r == !old(self)@.contains(p@),
            final(self)@ == old(self)@.insert(p@),
    {
        proof {
            use_type_invariant(&*self);
        }
        if self.contains(&p) {
            assert(self@.insert(p@) =~= self@);
            return false;
        }
        let ghost old_items = self.items@;
        let mut items: Vec<String> = Vec::new();
        std::mem::swap(&mut self.items, &mut items);
        items.push(p);
        proof {
            assert(paths_of(items@) =~= paths_of(old_items).push(p@));
            assert(paths_of(items@).to_set() =~= paths_of(old_items).to_set().insert(p@));
        }
        std::mem::swap(&mut self.items, &mut items);
        true
    }

    /// The paths of `self` that are not in `other`, each once.
    pub fn difference(&self, other: &PathSet) -> (r: Vec<String>)
        ensures
            paths_of(r@).no_duplicates(),
            paths_of(r@).to_set() == self@.difference(other@),
    {
        proof {
            use_type_invariant(self);
        }
        let mut r: Vec<String> = Vec::new();
        let ghost mut taken: Seq<int> = Seq::empty();
        let mut i: usize = 0;
        while i < self.items.len()
            invariant
                0 <= i <= self.items@.len(),
                paths_of(self.items@).no_duplicates(),
                taken.len() == r@.len(),
                forall|k: int|
                    0 <= k < taken.len() ==> 0 <= #[trigger] taken[k] < i && r@[k]@
                        == self.items@[taken[k]]@,
                forall|k: int, l: int| 0 <= k < l < taken.len() ==> taken[k] < taken[l],
                forall|q| #[trigger] paths_of(r@).contains(q) <==> (exists|j: int|
                    0 <= j < i && #[trigger] self.items@[j]@ == q) && !other@.contains(q),
            decreases self.items@.len() - i,
        {
            let ghost old_r = r@;
            let keep = !other.contains(&self.items[i]);
            if keep {
                r.push(self.items[i].clone());
                proof {
                    taken = taken.push(i as int);
                    assert(paths_of(r@) =~= paths_of(old_r).push(self.items@[i as int]@));
                }
            }
            proof {
                assert forall|q| #[trigger] paths_of(r@).contains(q) <==> (exists|j: int|
                    0 <= j < i + 1 && #[trigger] self.items@[j]@ == q) && !other@.contains(q) by {
                    if paths_of(r@).contains(q) && !(keep && q == self.items@[i as int]@) {
                        assert(paths_of(old_r).contains(q));
                    }
                    if (exists|j: int| 0 <= j < i + 1 && #[trigger] self.items@[j]@ == q) && !other@.contains(q) {
                        let j = choose|j: int| 0 <= j < i + 1 && #[trigger] self.items@[j]@ == q;
                        if j < i {
                            assert(paths_of(old_r).contains(q));
                        }
                    }
                }
            }
            i = i + 1;
        }
        proof {
            assert forall|k: int, l: int|
                0 <= k < r@.len() && 0 <= l < r@.len() && k != l implies paths_of(r@)[k] != paths_of(r@)[l] by {
                assert(paths_of(self.items@)[taken[k]] == paths_of(r@)[k]);
                assert(paths_of(self.items@)[taken[l]] == paths_of(r@)[l]);
            }
            assert forall|q| #[trigger] paths_of(r@).to_set().contains(q) <==> self@.difference(other@).contains(q) by {
                if self@.contains(q) {
                    let j = choose|j: int| 0 <= j < self.items@.len() && paths_of(self.items@)[j] == q;
                    assert(self.items@[j]@ == q);
                }
                if paths_of(r@).contains(q) {
                    let j = choose|j: int| 0 <= j < self.items@.len() && #[trigger] self.items@[j]@ == q;
                    assert(paths_of(self.items@)[j] == q);
                }
            }
            assert(paths_of(r@).to_set() =~= self@.difference(other@));
        }
        r
    }

    /// The paths of the set, each once.
    pub fn to_vec(&self) -> (r: Vec<String>)
        ensures
            paths_of(r@).no_duplicates(),
            paths_of(r@).to_set() == self@,
    {
        proof {
            use_type_invariant(self);
        }
        let mut r: Vec<String> = Vec::new();
        let mut i: usize = 0;
        while i < self.items.len()
            invariant
                0 <= i <= self.items@.len(),
                r@.len() == i,
                forall|j: int| 0 <= j < i ==> #[trigger] r@[j] == self.items@[j],
            decreases self.items@.len() - i,
        {
            r.push(self.items[i].clone());
            i = i + 1;
        }
        assert(r@ =~= self.items@);
        r
    }

    /// The set of the given paths.
    pub fn from_vec(v: &Vec<String>) -> (r: PathSet)
        ensures
            r@ == paths_of(v@).to_set(),
    {
        let mut r = PathSet::new();
        let mut i: usize = 0;
        while i < v.len()
            invariant
                0 <= i <= v@.len(),
                r@ == paths_of(v@.take(i as int)).to_set(),
            decreases v@.len() - i,
        {
            r.insert(v[i].clone());
            proof {
                assert(paths_of(v@.take(i + 1)) =~= paths_of(v@.take(i as int)).push(v@[i as int]@));
                assert(paths_of(v@.take(i + 1)).to_set() =~= paths_of(v@.take(i as int)).to_set().insert(
                    v@[i as int]@,
                ));
            }
            i = i + 1;
        }
        assert(v@.take(v@.len() as int) =~= v@);
        r
    }

    /// A set with the same paths.
    pub fn copied(&self) -> (r: PathSet)
        ensures
            r@ == self@,
    {
        let items = self.to_vec();
        let r = PathSet { items };
        assert(r@ =~= self@);
        r
    }
}

} // verus!
