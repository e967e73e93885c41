use vstd::prelude::*;

use crate::analysis::domain::AbstractDomain;
use crate::analysis::keyed::{
    as_map, find_key, get_value, has_key, insert_value, keys_sorted, lemma_same_keys,
    lemma_sorted_unique,
};
use crate::ir::value::RegisterSlot;

verus! {

/// Keeps track of the abstract value of every register.
#[derive(Debug)]
pub struct VariableStore<D> {
    /// Registers with their values, ordered by register number.
    pub regs: Vec<(RegisterSlot, D)>,
}

impl<D: AbstractDomain> VariableStore<D> {
    /// The store keeps its registers ordered, each register once, with well-formed values.
    pub open spec fn wf(&self) -> bool {
        &&& keys_sorted(self.regs@)
        &&& forall|i: int| 0 <= i < self.regs@.len() ==> (#[trigger] self.regs@[i]).1.inv()
    }

    /// The abstract value of every register held by the store.
    pub open spec fn model(&self) -> Map<RegisterSlot, D::Model> {
        as_map(self.regs@).map_values(|d: D| d.model())
    }

    /// An empty store.
    pub fn new() -> (r: Self)
        ensures
            r.wf(),
            r.model() == Map::<RegisterSlot, D::Model>::empty(),
    {
        let r = VariableStore { regs: Vec::new() };
        assert(r.model() =~= Map::<RegisterSlot, D::Model>::empty());
        r
    }

    /// A store holding every given register with the bottom value (all registers unreachable at first).
    pub fn from(variables: &Vec<RegisterSlot>) -> (r: Self)
        ensures
            r.wf(),
            r.model().dom() == variables@.to_set(),
            forall|k: RegisterSlot| #[trigger]
                r.model().contains_key(k) ==> r.model()[k] == D::bottom_value(),
    {
        let mut store = Self::new();
        let mut i: usize = 0;
        assert(store.model().dom() =~= variables@.subrange(0, 0).to_set());
        while i < variables.len()
            invariant
                i <= variables@.len(),
                store.wf(),
                store.model().dom() == variables@.subrange(0, i as int).to_set(),
                forall|k: RegisterSlot| #[trigger]
                    store.model().contains_key(k) ==> store.model()[k] == D::bottom_value(),
            decreases variables@.len() - i,
        {
            store.insert(variables[i], D::bottom());
            proof {
                assert(variables@.subrange(0, i + 1) =~= variables@.subrange(0, i as int).push(
                    variables@[i as int],
                ));
                variables@.subrange(0, i as int).lemma_push_to_set_commute(variables@[i as int]);
                assert(store.model().dom() =~= variables@.subrange(0, i + 1).to_set());
            }
            i = i + 1;
        }
        assert(variables@.subrange(0, variables@.len() as int) =~= variables@);
        store
    }

    /// Whether the store holds `reg`.
    pub fn contains(&self, reg: &RegisterSlot) -> (r: bool)
        requires
            self.wf(),
        ensures
            r == self.model().contains_key(*reg),
    {
        find_key(&self.regs, reg).is_some()
    }

    /// The value of `reg`, which the store must hold.
    pub fn get(&self, reg: &RegisterSlot) -> (r: &D)
        requires
            self.wf(),
            self.model().contains_key(*reg),
        ensures
            r.inv(),
            r.model() == self.model()[*reg],
    {
        let i = find_key(&self.regs, reg).unwrap();
        proof {
            crate::analysis::keyed::lemma_value_at(self.regs@, i as int);
        }
        &self.regs[i].1
    }

    /// Sets the value of `reg`.
    pub fn insert(&mut self, reg: RegisterSlot, value: D)
        requires
            old(self).wf(),
            value.inv(),
        ensures
            final(self).wf(),
            final(self).model() == old(self).model().insert(reg, value.model()),
    {
        let ghost old_regs = self.regs@;
        proof {
            assert forall|i: int| 0 <= i < old_regs.len() implies (#[trigger] old_regs[i]).1.inv() by {
            }
        }
        insert_value(&mut self.regs, reg, value);
        proof {
            let s1 = self.regs@;
            assert forall|i: int| 0 <= i < s1.len() implies (#[trigger] s1[i]).1.inv() by {
                crate::analysis::keyed::lemma_value_at(s1, i);
                if s1[i].0 != reg {
                    let k = s1[i].0;
                    assert(as_map(old_regs).contains_key(k));
                    let j = choose|j: int| 0 <= j < old_regs.len() && old_regs[j].0 == k;
                    crate::analysis::keyed::lemma_value_at(old_regs, j);
                }
            }
            assert(self.model() =~= old(self).model().insert(reg, value.model()));
        }
    }
}


impl<D: AbstractDomain> VariableStore<D> {
    /// A copy of the store.
    pub fn duplicate(&self) -> (r: Self)
        requires
            self.wf(),
        ensures
            r.wf(),
            r.model() == self.model(),
    {
        let mut out: Vec<(RegisterSlot, D)> = Vec::new();
        let mut i: usize = 0;
        while i < self.regs.len()
            invariant
                self.wf(),
                i <= self.regs@.len(),
                out@.len() == i,
                forall|j: int| 0 <= j < i ==> #[trigger] out@[j].0 == self.regs@[j].0 && out@[j].1.inv()
                    && out@[j].1.model() == self.regs@[j].1.model(),
            decreases self.regs@.len() - i,
        {
            let k = self.regs[i].0;
            let v = self.regs[i].1.duplicate();
            out.push((k, v));
            i = i + 1;
        }
        let r = VariableStore { regs: out };
        proof {
            lemma_same_keys(self.regs@, r.regs@);
            assert forall|i: int| 0 <= i < r.regs@.len() implies (#[trigger] r.regs@[i]).1.inv() by {
                assert(r.regs@[i].0 == self.regs@[i].0);
            }
            assert forall|k: RegisterSlot| #[trigger] r.model().contains_key(k) implies r.model()[k]
                == self.model()[k] by {
                let x = choose|x: int| 0 <= x < r.regs@.len() && r.regs@[x].0 == k;
                crate::analysis::keyed::lemma_value_at(self.regs@, x);
            }
            assert(r.model() =~= self.model());
        }
        r
    }

    /// Whether two stores hold the same registers with the same values.
    pub fn same_as(&self, other: &Self) -> (r: bool)
        requires
            self.wf(),
            other.wf(),
        ensures
            r == (self.model() == other.model()),
    {
        if self.regs.len() != other.regs.len() {
            proof {
                if self.model() == other.model() {
                    assert(as_map(self.regs@).dom() =~= self.model().dom());
                    assert(as_map(other.regs@).dom() =~= other.model().dom());
                    lemma_sorted_unique(self.regs@, other.regs@);
                }
            }
            return false;
        }
        let mut i: usize = 0;
        while i < self.regs.len()
            invariant
                self.wf(),
                other.wf(),
                i <= self.regs@.len(),
                self.regs@.len() == other.regs@.len(),
                forall|j: int| 0 <= j < i ==> #[trigger] self.regs@[j].0 == other.regs@[j].0
                    && self.regs@[j].1.model() == other.regs@[j].1.model(),
            decreases self.regs@.len() - i,
        {
            if self.regs[i].0.0 != other.regs[i].0.0 {
                proof {
                    if self.model() == other.model() {
                        assert(as_map(self.regs@).dom() =~= self.model().dom());
                        assert(as_map(other.regs@).dom() =~= other.model().dom());
                        lemma_sorted_unique(self.regs@, other.regs@);
                    }
                }
                return false;
            }
            if !self.regs[i].1.equals(&other.regs[i].1) {
                proof {
                    crate::analysis::keyed::lemma_value_at(self.regs@, i as int);
                    crate::analysis::keyed::lemma_value_at(other.regs@, i as int);
                    assert(self.model()[self.regs@[i as int].0] != other.model()[self.regs@[i as int].0]);
                }
                return false;
            }
            i = i + 1;
        }
        proof {
            lemma_same_keys(self.regs@, other.regs@);
            assert forall|k: RegisterSlot| #[trigger] self.model().contains_key(k) implies self.model()[k]
                == other.model()[k] by {
                let x = choose|x: int| 0 <= x < self.regs@.len() && self.regs@[x].0 == k;
                crate::analysis::keyed::lemma_value_at(self.regs@, x);
                crate::analysis::keyed::lemma_value_at(other.regs@, x);
            }
            assert(self.model() =~= other.model());
        }
        true
    }

    /// Whether this store holds every register that `other` holds.
    pub fn covers(&self, other: &Self) -> (r: bool)
        requires
            self.wf(),
            other.wf(),
        ensures
            r == other.model().dom().subset_of(self.model().dom()),
    {
        let mut i: usize = 0;
        while i < other.regs.len()
            invariant
                self.wf(),
                other.wf(),
                i <= other.regs@.len(),
                forall|j: int| 0 <= j < i ==> self.model().contains_key(#[trigger] other.regs@[j].0),
            decreases other.regs@.len() - i,
        {
            if !self.contains(&other.regs[i].0) {
                proof {
                    crate::analysis::keyed::lemma_value_at(other.regs@, i as int);
                }
                return false;
            }
            i = i + 1;
        }
        proof {
            assert forall|k: RegisterSlot| other.model().contains_key(k) implies self.model().contains_key(k) by {
                let x = choose|x: int| 0 <= x < other.regs@.len() && other.regs@[x].0 == k;
            }
        }
        true
    }

    /// Combines every value of the store with the value of the same register in
    /// `other`: by widening where `widen` holds, by joining otherwise.
    pub fn combine_with(&self, other: &Self, widen: bool) -> (r: Self)
        requires
            self.wf(),
            other.wf(),
            self.model().dom().subset_of(other.model().dom()),
            forall|a: D::Model, b: D::Model| D::can_combine(a, b),
        ensures
            r.wf(),
            r.model() == combine_stores::<D>(self.model(), other.model(), widen),
    {
        let mut out: Vec<(RegisterSlot, D)> = Vec::new();
        let mut i: usize = 0;
        while i < self.regs.len()
            invariant
                self.wf(),
                other.wf(),
                self.model().dom().subset_of(other.model().dom()),
                forall|a: D::Model, b: D::Model| D::can_combine(a, b),
                i <= self.regs@.len(),
                out@.len() == i,
                forall|j: int| 0 <= j < i ==> combined_entry::<D>(
                    #[trigger] out@[j],
                    self.regs@[j],
                    other.model(),
                    widen,
                ),
            decreases self.regs@.len() - i,
        {
            let k = self.regs[i].0;
            proof {
                crate::analysis::keyed::lemma_value_at(self.regs@, i as int);
            }
            let o = other.get(&k);
            let v = if widen {
                self.regs[i].1.widen(o)
            } else {
                self.regs[i].1.join(o)
            };
            let ghost prev = out@;
            let ghost entry = (k, v);
            assert(combined_entry::<D>(entry, self.regs@[i as int], other.model(), widen));
            out.push((k, v));
            proof {
                assert(out@[i as int] == entry);
                assert forall|j: int| 0 <= j < i + 1 implies combined_entry::<D>(
                    #[trigger] out@[j],
                    self.regs@[j],
                    other.model(),
                    widen,
                ) by {
                    if j < i {
                        assert(out@[j] == prev[j]);
                    }
                }
            }
            i = i + 1;
        }
        let r = VariableStore { regs: out };
        proof {
            assert forall|j: int| 0 <= j < r.regs@.len() implies #[trigger] r.regs@[j].0 == self.regs@[j].0 by {
                assert(combined_entry::<D>(r.regs@[j], self.regs@[j], other.model(), widen));
            }
            lemma_same_keys(self.regs@, r.regs@);
            assert forall|i: int| 0 <= i < r.regs@.len() implies (#[trigger] r.regs@[i]).1.inv() by {
                assert(combined_entry::<D>(r.regs@[i], self.regs@[i], other.model(), widen));
            }
            assert forall|k: RegisterSlot| #[trigger] r.model().contains_key(k) implies r.model()[k]
                == combine_stores::<D>(self.model(), other.model(), widen)[k] by {
                let x = choose|x: int| 0 <= x < r.regs@.len() && r.regs@[x].0 == k;
                assert(combined_entry::<D>(r.regs@[x], self.regs@[x], other.model(), widen));
                crate::analysis::keyed::lemma_value_at(self.regs@, x);
            }
            assert(r.model() =~= combine_stores::<D>(self.model(), other.model(), widen));
        }
        r
    }
}

/// An entry of a combined store: the key of the given entry, with its value
/// combined with that of the key in `other`.
pub open spec fn combined_entry<D: AbstractDomain>(
    e: (RegisterSlot, D),
    orig: (RegisterSlot, D),
    other: Map<RegisterSlot, D::Model>,
    widen: bool,
) -> bool {
    e.0 == orig.0 && e.1.inv() && e.1.model() == combine_values::<D>(orig.1.model(), other[orig.0], widen)
}

/// Joins, or widens, two abstract values.
pub open spec fn combine_values<D: AbstractDomain>(a: D::Model, b: D::Model, widen: bool) -> D::Model {
    if widen {
        D::widen_of(a, b)
    } else {
        D::join_of(a, b)
    }
}

/// Every register of `a` with its value combined with that of the same register in `b`.
pub open spec fn combine_stores<D: AbstractDomain>(
    a: Map<RegisterSlot, D::Model>,
    b: Map<RegisterSlot, D::Model>,
    widen: bool,
) -> Map<RegisterSlot, D::Model> {
    Map::new(|k: RegisterSlot| a.contains_key(k), |k: RegisterSlot| combine_values::<D>(a[k], b[k], widen))
}

} // verus!

verus! {

/// A register operand is held by the store; other operands need nothing.
pub open spec fn operand_defined<D>(v: &crate::ir::value::Value, m: Map<RegisterSlot, D>) -> bool {
    match v {
        crate::ir::value::Value::Register { index, .. } => m.contains_key(*index),
        _ => true,
    }
}

/// Every register operand that a transfer function reads from `inst` is held by the store.
/// Arithmetic operands are always read; the operands of loads and stores only when
/// `memory` is set.
pub open spec fn reads_defined<D>(
    inst: &crate::ir::instruction::Instruction,
    m: Map<RegisterSlot, D>,
    memory: bool,
) -> bool {
    match inst {
        crate::ir::instruction::Instruction::BinaryArith { lhs, rhs, .. } => operand_defined(lhs, m)
            && operand_defined(rhs, m),
        crate::ir::instruction::Instruction::UnaryArith { operand, .. } => operand_defined(
            operand,
            m,
        ),
        crate::ir::instruction::Instruction::Load { pointer, .. } => !memory || operand_defined(
            pointer,
            m,
        ),
        crate::ir::instruction::Instruction::Store { value, .. } => !memory || operand_defined(
            value,
            m,
        ),
        _ => true,
    }
}


impl<D: AbstractDomain> VariableStore<D> {
    /// Whether the store holds a register operand (other operands need nothing).
    pub fn holds_operand(&self, v: &crate::ir::value::Value) -> (r: bool)
        requires
            self.wf(),
        ensures
            r == operand_defined(v, self.model()),
    {
        match v {
            crate::ir::value::Value::Register { index, .. } => self.contains(index),
            _ => true,
        }
    }

    /// Whether the store holds every register operand that a transfer reads from
    /// `inst` (see [`reads_defined`]).
    pub fn holds_reads(&self, inst: &crate::ir::instruction::Instruction, memory: bool) -> (r: bool)
        requires
            self.wf(),
        ensures
            r == reads_defined(inst, self.model(), memory),
    {
        match inst {
            crate::ir::instruction::Instruction::BinaryArith { lhs, rhs, .. } => self.holds_operand(lhs)
                && self.holds_operand(rhs),
            crate::ir::instruction::Instruction::UnaryArith { operand, .. } => self.holds_operand(
                operand,
            ),
            crate::ir::instruction::Instruction::Load { pointer, .. } => !memory || self.holds_operand(
                pointer,
            ),
            crate::ir::instruction::Instruction::Store { value, .. } => !memory || self.holds_operand(
                value,
            ),
            _ => true,
        }
    }
}
} // verus!
