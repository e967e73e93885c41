use vstd::prelude::*;

use crate::analysis::domain::{AbstractDomain, LatticeOrder};

verus! {

/// A powerset domain: a finite set of abstract values, each held once.
#[derive(Debug)]
pub struct FiniteSetDomain<A> {
    pub elements: Vec<A>,
}

/// The models of a list of values.
pub open spec fn element_models<A: AbstractDomain>(v: Seq<A>) -> Seq<A::Model> {
    v.map_values(|e: A| e.model())
}

/// The order of two sets: `Less` for a proper subset, `Equal` for the same set,
/// `Greater` for a proper superset, `Incomparable` otherwise.
pub open spec fn set_order<M>(a: Set<M>, b: Set<M>) -> LatticeOrder {
    if a.subset_of(b) {
        if b.subset_of(a) {
            LatticeOrder::Equal
        } else {
            LatticeOrder::Less
        }
    } else if b.subset_of(a) {
        LatticeOrder::Greater
    } else {
        LatticeOrder::Incomparable
    }
}

impl<A: AbstractDomain> FiniteSetDomain<A> {
    /// Whether some element of the set has the model of `x`.
    fn holds(&self, x: &A) -> (r: bool)
        requires
            self.inv(),
            x.inv(),
        ensures
            r == self.model().contains(x.model()),
    {
        let mut i: usize = 0;
        while i < self.elements.len()
            invariant
                self.inv(),
                x.inv(),
                i <= self.elements@.len(),
                forall|j: int| 0 <= j < i ==> self.elements@[j].model() != x.model(),
            decreases self.elements@.len() - i,
        {
            if self.elements[i].equals(x) {
                proof {
                    assert(element_models(self.elements@)[i as int] == x.model());
                }
                return true;
            }
            i = i + 1;
        }
        proof {
            if self.model().contains(x.model()) {
                let j = choose|j: int|
                    0 <= j < element_models(self.elements@).len() && element_models(self.elements@)[j]
                        == x.model();
                assert(self.elements@[j].model() == x.model());
            }
        }
        false
    }

    /// Whether every element of this set is held by `other`.
    fn within(&self, other: &Self) -> (r: bool)
        requires
            self.inv(),
            other.inv(),
        ensures
            r == self.model().subset_of(other.model()),
    {
        let mut i: usize = 0;
        while i < self.elements.len()
            invariant
                self.inv(),
                other.inv(),
                i <= self.elements@.len(),
                forall|j: int| 0 <= j < i ==> other.model().contains(#[trigger] self.elements@[j].model()),
            decreases self.elements@.len() - i,
        {
            if !other.holds(&self.elements[i]) {
                proof {
                    assert(element_models(self.elements@)[i as int] == self.elements@[i as int].model());
                    assert(self.model().contains(self.elements@[i as int].model()));
                }
                return false;
            }
            i = i + 1;
        }
        proof {
            assert forall|m: A::Model| self.model().contains(m) implies other.model().contains(m) by {
                let j = choose|j: int|
                    0 <= j < element_models(self.elements@).len() && element_models(self.elements@)[j]
                        == m;
                assert(self.elements@[j].model() == m);
            }
        }
        true
    }

    /// A copy of this set with the elements of `other` that it lacks.
    fn union_with(&self, other: &Self) -> (r: Self)
        requires
            self.inv(),
            other.inv(),
        ensures
            r.inv(),
            r.model() == self.model().union(other.model()),
    {
        let mut out = self.duplicate();
        let mut i: usize = 0;
        while i < other.elements.len()
            invariant
                self.inv(),
                other.inv(),
                out.inv(),
                i <= other.elements@.len(),
                out.model() == self.model().union(element_models(other.elements@).take(i as int).to_set()),
            decreases other.elements@.len() - i,
        {
            let ghost before = out.model();
            let ghost m = other.elements@[i as int].model();
            if !out.holds(&other.elements[i]) {
                let e = other.elements[i].duplicate();
                let ghost old_elems = out.elements@;
                out.elements.push(e);
                proof {
                    assert(element_models(out.elements@) =~= element_models(old_elems).push(m));
                    element_models(old_elems).lemma_push_to_set_commute(m);
                    assert forall|a: int, b: int|
                        0 <= a < b < out.elements@.len() implies out.elements@[a].model()
                        != out.elements@[b].model() by {
                        if b == out.elements@.len() - 1 {
                            assert(element_models(old_elems)[a] == old_elems[a].model());
                        }
                    }
                }
            }
            proof {
                let t0 = element_models(other.elements@).take(i as int);
                let t1 = element_models(other.elements@).take(i + 1);
                assert(t1 =~= t0.push(m));
                t0.lemma_push_to_set_commute(m);
                assert(out.model() =~= self.model().union(t1.to_set()));
            }
            i = i + 1;
        }
        assert(element_models(other.elements@).take(other.elements@.len() as int) =~= element_models(
            other.elements@,
        ));
        out
    }
}

impl<A: AbstractDomain> AbstractDomain for FiniteSetDomain<A> {
    type Model = Set<A::Model>;

    open spec fn model(&self) -> Set<A::Model> {
        element_models(self.elements@).to_set()
    }

    open spec fn inv(&self) -> bool {
        &&& forall|i: int| 0 <= i < self.elements@.len() ==> (#[trigger] self.elements@[i]).inv()
        &&& forall|i: int, j: int|
            0 <= i < j < self.elements@.len() ==> self.elements@[i].model() != self.elements@[j].model()
    }

    open spec fn can_combine(a: Set<A::Model>, b: Set<A::Model>) -> bool {
        true
    }

    open spec fn join_of(a: Set<A::Model>, b: Set<A::Model>) -> Set<A::Model> {
        a.union(b)
    }

    open spec fn widen_of(a: Set<A::Model>, b: Set<A::Model>) -> Set<A::Model> {
        a.union(b)
    }

    open spec fn narrow_of(a: Set<A::Model>, b: Set<A::Model>) -> Set<A::Model> {
        a.intersect(b)
    }

    open spec fn order_ok(a: Set<A::Model>, b: Set<A::Model>, r: LatticeOrder) -> bool {
        r == set_order(a, b)
    }

    open spec fn bottom_value() -> Set<A::Model> {
        Set::empty()
    }

    fn join(&self, other: &Self) -> (r: Self) {
        self.union_with(other)
    }

    /// Widening is the same as join in a powerset
    fn widen(&self, other: &Self) -> (r: Self) {
        self.union_with(other)
    }

    fn narrow(&self, other: &Self) -> (r: Self) {
        let mut out: FiniteSetDomain<A> = FiniteSetDomain { elements: Vec::new() };
        let mut i: usize = 0;
        assert(element_models(self.elements@).take(0).to_set() =~= Set::<A::Model>::empty());
        assert(out.model() =~= Set::<A::Model>::empty());
        while i < self.elements.len()
            invariant
                self.inv(),
                other.inv(),
                out.inv(),
                i <= self.elements@.len(),
                out.model() == element_models(self.elements@).take(i as int).to_set().intersect(
                    other.model(),
                ),
                forall|x: int|
                    0 <= x < out.elements@.len() ==> exists|y: int|
                        0 <= y < i && #[trigger] out.elements@[x].model() == self.elements@[y].model(),
            decreases self.elements@.len() - i,
        {
            let ghost m = self.elements@[i as int].model();
            let ghost old_elems = out.elements@;
            if other.holds(&self.elements[i]) {
                let e = self.elements[i].duplicate();
                out.elements.push(e);
                proof {
                    assert(element_models(out.elements@) =~= element_models(old_elems).push(m));
                    element_models(old_elems).lemma_push_to_set_commute(m);
                    assert forall|a: int, b: int|
                        0 <= a < b < out.elements@.len() implies out.elements@[a].model()
                        != out.elements@[b].model() by {
                        if b == out.elements@.len() - 1 {
                            assert(out.elements@[a] == old_elems[a]);
                            let y = choose|y: int| 0 <= y < i && old_elems[a].model() == self.elements@[y].model();
                        }
                    }
                    assert forall|x: int| 0 <= x < out.elements@.len() implies exists|y: int|
                        0 <= y < i + 1 && #[trigger] out.elements@[x].model() == self.elements@[y].model() by {
                        if x < out.elements@.len() - 1 {
                            assert(out.elements@[x] == old_elems[x]);
                        } else {
                            assert(out.elements@[x].model() == self.elements@[i as int].model());
                        }
                    }
                }
            }
            proof {
                let t0 = element_models(self.elements@).take(i as int);
                let t1 = element_models(self.elements@).take(i + 1);
                assert(t1 =~= t0.push(m));
                t0.lemma_push_to_set_commute(m);
                assert(out.model() =~= t1.to_set().intersect(other.model()));
            }
            i = i + 1;
        }
        assert(element_models(self.elements@).take(self.elements@.len() as int) =~= element_models(
            self.elements@,
        ));
        out
    }

    fn partial_order(&self, other: &Self) -> (r: LatticeOrder) {
        if self.within(other) {
            if other.within(self) {
                LatticeOrder::Equal
            } else {
                LatticeOrder::Less
            }
        } else if other.within(self) {
            LatticeOrder::Greater
        } else {
            LatticeOrder::Incomparable
        }
    }

    fn bottom() -> (r: Self) {
        let r = FiniteSetDomain { elements: Vec::new() };
        assert(r.model() =~= Set::<A::Model>::empty());
        r
    }

    fn duplicate(&self) -> (r: Self) {
        let mut out: Vec<A> = Vec::new();
        let mut i: usize = 0;
        while i < self.elements.len()
            invariant
                self.inv(),
                i <= self.elements@.len(),
                out@.len() == i,
                forall|j: int| 0 <= j < i ==> (#[trigger] out@[j]).inv() && out@[j].model() == self.elements@[j].model(),
            decreases self.elements@.len() - i,
        {
            let e = self.elements[i].duplicate();
            out.push(e);
            i = i + 1;
        }
        let r = FiniteSetDomain { elements: out };
        assert(element_models(r.elements@) =~= element_models(self.elements@));
        r
    }

    fn equals(&self, other: &Self) -> (r: bool) {
        let r = self.within(other) && other.within(self);
        proof {
            if self.model().subset_of(other.model()) && other.model().subset_of(self.model()) {
                assert(self.model() =~= other.model());
            }
        }
        r
    }
}

} // verus!
