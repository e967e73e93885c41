use vstd::prelude::*;

verus! {

/// Outcome of comparing two abstract values.
#[derive(Debug, Clone, Copy, PartialEq, Eq, Structural)]
pub enum LatticeOrder {
    Less,
    Equal,
    Greater,
    /// Neither value lies below the other.
    Incomparable,
}

impl LatticeOrder {
    /// Lexicographic chaining: `self` unless it is `Equal`, in which case `other`.
    pub fn chain(self, other: LatticeOrder) -> (r: LatticeOrder)
        ensures
            r == chain_order(self, other),
    {
        match self {
            LatticeOrder::Equal => other,
            _ => self,
        }
    }

    /// The order of pairs compared component by component (see [`product_order`]).
    pub fn product(self, other: LatticeOrder) -> (r: LatticeOrder)
        ensures
            r == product_order(self, other),
    {
        match (self, other) {
            (LatticeOrder::Equal, x) => x,
            (x, LatticeOrder::Equal) => x,
            (LatticeOrder::Less, LatticeOrder::Less) => LatticeOrder::Less,
            (LatticeOrder::Greater, LatticeOrder::Greater) => LatticeOrder::Greater,
            _ => LatticeOrder::Incomparable,
        }
    }

    /// The order seen from the other side.
    pub fn reverse(self) -> (r: LatticeOrder)
        ensures
            r == flip_order(self),
    {
        match self {
            LatticeOrder::Less => LatticeOrder::Greater,
            LatticeOrder::Equal => LatticeOrder::Equal,
            LatticeOrder::Greater => LatticeOrder::Less,
            LatticeOrder::Incomparable => LatticeOrder::Incomparable,
        }
    }
}

/// `a` unless it is `Equal`, otherwise `b`.
pub open spec fn chain_order(a: LatticeOrder, b: LatticeOrder) -> LatticeOrder {
    if a == LatticeOrder::Equal {
        b
    } else {
        a
    }
}

/// The order of pairs from the orders of their components: `Equal` where both
/// are, `Less` (`Greater`) where both are `Less` (`Greater`) or `Equal`, and
/// `Incomparable` otherwise.
pub open spec fn product_order(a: LatticeOrder, b: LatticeOrder) -> LatticeOrder {
    if a == LatticeOrder::Equal {
        b
    } else if b == LatticeOrder::Equal {
        a
    } else if a == b && a != LatticeOrder::Incomparable {
        a
    } else {
        LatticeOrder::Incomparable
    }
}

/// Swaps `Less` and `Greater`; `Equal` and `Incomparable` stay.
pub open spec fn flip_order(a: LatticeOrder) -> LatticeOrder {
    match a {
        LatticeOrder::Less => LatticeOrder::Greater,
        LatticeOrder::Equal => LatticeOrder::Equal,
        LatticeOrder::Greater => LatticeOrder::Less,
        LatticeOrder::Incomparable => LatticeOrder::Incomparable,
    }
}

/// An abstract domain which forms a lattice.
///
/// Each value has a mathematical model, and each executable operation is tied to
/// a spec function over models, so the behaviour of a domain can be stated and
/// reasoned about.
pub trait AbstractDomain: Sized {
    /// The mathematical model of an abstract value.
    type Model;

    spec fn model(&self) -> Self::Model;

    /// Well-formedness of the concrete representation.
    spec fn inv(&self) -> bool;

    /// When two values may be combined (join, widen, narrow) without failing.
    spec fn can_combine(a: Self::Model, b: Self::Model) -> bool;

    spec fn join_of(a: Self::Model, b: Self::Model) -> Self::Model;

    spec fn widen_of(a: Self::Model, b: Self::Model) -> Self::Model;

    spec fn narrow_of(a: Self::Model, b: Self::Model) -> Self::Model;

    /// Whether `r` is a possible outcome of comparing `a` with `b`.
    spec fn order_ok(a: Self::Model, b: Self::Model, r: LatticeOrder) -> bool;

    spec fn bottom_value() -> Self::Model;

    /// Join two abstract values
    fn join(&self, other: &Self) -> (r: Self)
        requires
            self.inv(),
            other.inv(),
            Self::can_combine(self.model(), other.model()),
        ensures
            r.inv(),
            r.model() == Self::join_of(self.model(), other.model()),
    ;

    /// Widening of two abstract values
    fn widen(&self, other: &Self) -> (r: Self)
        requires
            self.inv(),
            other.inv(),
            Self::can_combine(self.model(), other.model()),
        ensures
            r.inv(),
            r.model() == Self::widen_of(self.model(), other.model()),
    ;

    /// Narrowing of two abstract values
    fn narrow(&self, other: &Self) -> (r: Self)
        requires
            self.inv(),
            other.inv(),
            Self::can_combine(self.model(), other.model()),
        ensures
            r.inv(),
            r.model() == Self::narrow_of(self.model(), other.model()),
    ;

    /// Partial ordering comparison between two abstract values
    fn partial_order(&self, other: &Self) -> (r: LatticeOrder)
        requires
            self.inv(),
            other.inv(),
        ensures
            Self::order_ok(self.model(), other.model(), r),
    ;

    /// Get the Bottom value of this lattice
    fn bottom() -> (r: Self)
        ensures
            r.inv(),
            r.model() == Self::bottom_value(),
    ;

    /// A copy of the value.
    fn duplicate(&self) -> (r: Self)
        requires
            self.inv(),
        ensures
            r.inv(),
            r.model() == self.model(),
    ;

    /// Whether two values are the same abstract value.
    fn equals(&self, other: &Self) -> (r: bool)
        requires
            self.inv(),
            other.inv(),
        ensures
            r == (self.model() == other.model()),
    ;
}

} // verus!
