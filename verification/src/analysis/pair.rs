use vstd::prelude::*;

use crate::analysis::domain::{product_order, AbstractDomain, LatticeOrder};

verus! {

/// Product of two abstract domains, combined component by component.
#[derive(Debug)]
pub struct PairDomain<A, B> {
    pub first: A,
    pub second: B,
}

impl<A: AbstractDomain, B: AbstractDomain> AbstractDomain for PairDomain<A, B> {
    type Model = (A::Model, B::Model);

    open spec fn model(&self) -> (A::Model, B::Model) {
        (self.first.model(), self.second.model())
    }

    open spec fn inv(&self) -> bool {
        self.first.inv() && self.second.inv()
    }

    open spec fn can_combine(a: (A::Model, B::Model), b: (A::Model, B::Model)) -> bool {
        A::can_combine(a.0, b.0) && B::can_combine(a.1, b.1)
    }

    open spec fn join_of(a: (A::Model, B::Model), b: (A::Model, B::Model)) -> (A::Model, B::Model) {
        (A::join_of(a.0, b.0), B::join_of(a.1, b.1))
    }

    open spec fn widen_of(a: (A::Model, B::Model), b: (A::Model, B::Model)) -> (A::Model, B::Model) {
        (A::widen_of(a.0, b.0), B::widen_of(a.1, b.1))
    }

    open spec fn narrow_of(a: (A::Model, B::Model), b: (A::Model, B::Model)) -> (A::Model, B::Model) {
        (A::narrow_of(a.0, b.0), B::narrow_of(a.1, b.1))
    }

    /// Component by component: below where both components are at or below, above
    /// where both are at or above, and incomparable otherwise.
    open spec fn order_ok(a: (A::Model, B::Model), b: (A::Model, B::Model), r: LatticeOrder) -> bool {
        exists|r1: LatticeOrder, r2: LatticeOrder|
            A::order_ok(a.0, b.0, r1) && B::order_ok(a.1, b.1, r2) && r == product_order(r1, r2)
    }

    open spec fn bottom_value() -> (A::Model, B::Model) {
        (A::bottom_value(), B::bottom_value())
    }

    fn join(&self, other: &Self) -> (r: Self) {
        PairDomain { first: self.first.join(&other.first), second: self.second.join(&other.second) }
    }

    fn widen(&self, other: &Self) -> (r: Self) {
        PairDomain {
            first: self.first.widen(&other.first),
            second: self.second.widen(&other.second),
        }
    }

    fn narrow(&self, other: &Self) -> (r: Self) {
        PairDomain {
            first: self.first.narrow(&other.first),
            second: self.second.narrow(&other.second),
        }
    }

    fn partial_order(&self, other: &Self) -> (r: LatticeOrder) {
        let first_order = self.first.partial_order(&other.first);
        let second_order = self.second.partial_order(&other.second);
        first_order.product(second_order)
    }

    fn bottom() -> (r: Self) {
        PairDomain { first: A::bottom(), second: B::bottom() }
    }

    fn duplicate(&self) -> (r: Self) {
        PairDomain { first: self.first.duplicate(), second: self.second.duplicate() }
    }

    fn equals(&self, other: &Self) -> (r: bool) {
        self.first.equals(&other.first) && self.second.equals(&other.second)
    }
}

} // verus!
