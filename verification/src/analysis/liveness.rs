use vstd::prelude::*;

use crate::analysis::domain::{AbstractDomain, LatticeOrder};
use crate::analysis::generic::{analysis_outcome, execute, CfgDirection, CfgState, Transfer};
use crate::analysis::mapping::MapDomain;
use crate::analysis::powerset::FiniteSetDomain;
use crate::analysis::store::VariableStore;
use crate::ir::function::Function;
use crate::ir::instruction::Instruction;
use crate::ir::value::RegisterSlot;

verus! {

/// Orders two registers by number.
pub open spec fn register_order(a: RegisterSlot, b: RegisterSlot) -> LatticeOrder {
    if a.0 < b.0 {
        LatticeOrder::Less
    } else if a.0 == b.0 {
        LatticeOrder::Equal
    } else {
        LatticeOrder::Greater
    }
}

// Extremely trivial domain: a register stands for itself and only equal
// registers can be combined.
impl AbstractDomain for RegisterSlot {
    type Model = RegisterSlot;

    open spec fn model(&self) -> RegisterSlot {
        *self
    }

    open spec fn inv(&self) -> bool {
        true
    }

    open spec fn can_combine(a: RegisterSlot, b: RegisterSlot) -> bool {
        a == b
    }

    open spec fn join_of(a: RegisterSlot, b: RegisterSlot) -> RegisterSlot {
        a
    }

    open spec fn widen_of(a: RegisterSlot, b: RegisterSlot) -> RegisterSlot {
        a
    }

    open spec fn narrow_of(a: RegisterSlot, b: RegisterSlot) -> RegisterSlot {
        a
    }

    open spec fn order_ok(a: RegisterSlot, b: RegisterSlot, r: LatticeOrder) -> bool {
        r == register_order(a, b)
    }

    open spec fn bottom_value() -> RegisterSlot {
        RegisterSlot(usize::MAX)
    }

    fn join(&self, other: &Self) -> (r: Self) {
        *self
    }

    fn widen(&self, other: &Self) -> (r: Self) {
        self.join(other)
    }

    fn narrow(&self, other: &Self) -> (r: Self) {
        self.join(other)
    }

    fn partial_order(&self, other: &Self) -> (r: LatticeOrder) {
        if self.0 < other.0 {
            LatticeOrder::Less
        } else if self.0 == other.0 {
            LatticeOrder::Equal
        } else {
            LatticeOrder::Greater
        }
    }

    fn bottom() -> (r: Self) {
        RegisterSlot(usize::MAX)
    }

    fn duplicate(&self) -> (r: Self) {
        *self
    }

    fn equals(&self, other: &Self) -> (r: bool) {
        self.0 == other.0
    }
}

/// Transfer function of the liveness analysis: no instruction changes the store yet.
pub fn transfer_liveness<D: AbstractDomain>(instruction: &Instruction, state: &mut VariableStore<D>)
    requires
        old(state).wf(),
    ensures
        final(state).wf(),
        final(state).model() == old(state).model(),
{
    match instruction {
        Instruction::BinaryArith { .. } => {},
        Instruction::UnaryArith { .. } => {},
        Instruction::Load { .. } => {},
        Instruction::Store { .. } => {},
        Instruction::CallDirect { .. } | Instruction::CallIndirect { .. } => {},
        _ => {},
    }
}


/// The liveness domain: for each key, a set of registers.
pub type LivenessDomain = MapDomain<usize, FiniteSetDomain<RegisterSlot>>;

/// The transfer function of the liveness analysis.
pub struct LivenessTransfer;

impl Transfer<LivenessDomain> for LivenessTransfer {
    open spec fn applies(
        inst: &Instruction,
        m: Map<RegisterSlot, Map<usize, Set<RegisterSlot>>>,
    ) -> bool {
        true
    }

    open spec fn effect(
        inst: &Instruction,
        m: Map<RegisterSlot, Map<usize, Set<RegisterSlot>>>,
    ) -> Map<RegisterSlot, Map<usize, Set<RegisterSlot>>> {
        m
    }

    fn can_apply(&self, inst: &Instruction, store: &VariableStore<LivenessDomain>) -> (r: bool) {
        true
    }

    fn apply(&self, inst: &Instruction, store: &mut VariableStore<LivenessDomain>) {
        transfer_liveness(inst, store)
    }
}

/// Runs the liveness analysis over a function, backward (see [`analysis_outcome`]).
pub fn execute_liveness_analysis(f: &Function, fuel: usize) -> (r: Option<CfgState<LivenessDomain>>)
    requires
        f.body matches Some(g) ==> g.wf(),
    ensures
        match analysis_outcome::<LivenessDomain, LivenessTransfer>(f.body, false, fuel as nat) {
            None => r is None,
            Some(m) => r matches Some(st) && st.wf() && st.model() == m,
        },
{
    execute(f, &LivenessTransfer, CfgDirection::Backward, fuel)
}
} // verus!
