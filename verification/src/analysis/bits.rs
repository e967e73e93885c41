use vstd::prelude::*;
use crate::analysis::generic::{analysis_outcome, execute, CfgDirection, CfgState, Transfer};
use crate::ir::function::Function;

use crate::analysis::domain::{AbstractDomain, LatticeOrder};

verus! {

/// Known bits of an integer value: bits known to be 0 and bits known to be 1.
#[derive(Debug, Clone, Copy, PartialEq, Eq, Structural)]
pub struct KnownBitsDomain {
    pub known_zeros: u64,
    pub known_ones: u64,
}

impl KnownBitsDomain {
    pub fn new(known_zeros: u64, known_ones: u64) -> (r: Self)
        ensures
            r.known_zeros == known_zeros,
            r.known_ones == known_ones,
    {
        KnownBitsDomain { known_zeros, known_ones }
    }
}

/// The join keeps the bits known alike on both sides: known zero in both, or known
/// one in both.
pub open spec fn bits_join(a: KnownBitsDomain, b: KnownBitsDomain) -> KnownBitsDomain {
    KnownBitsDomain {
        known_zeros: a.known_zeros & b.known_zeros,
        known_ones: a.known_ones & b.known_ones,
    }
}

/// The unreachable value: every bit known both ways, so no word fits it.
pub open spec fn bits_bottom() -> KnownBitsDomain {
    KnownBitsDomain { known_zeros: u64::MAX, known_ones: u64::MAX }
}

/// No bit is known both ways.
pub open spec fn bits_consistent(a: KnownBitsDomain) -> bool {
    a.known_zeros & a.known_ones == 0
}

/// The lattice order: `a` lies below `b` when it knows every bit that `b` knows,
/// the same way.
pub open spec fn bits_leq(a: KnownBitsDomain, b: KnownBitsDomain) -> bool {
    a.known_zeros & b.known_zeros == b.known_zeros && a.known_ones & b.known_ones == b.known_ones
}

pub open spec fn bits_order(a: KnownBitsDomain, b: KnownBitsDomain) -> LatticeOrder {
    if a == b {
        LatticeOrder::Equal
    } else if bits_leq(a, b) {
        LatticeOrder::Less
    } else if bits_leq(b, a) {
        LatticeOrder::Greater
    } else {
        LatticeOrder::Incomparable
    }
}

impl AbstractDomain for KnownBitsDomain {
    type Model = KnownBitsDomain;

    open spec fn model(&self) -> KnownBitsDomain {
        *self
    }

    open spec fn inv(&self) -> bool {
        true
    }

    open spec fn can_combine(a: KnownBitsDomain, b: KnownBitsDomain) -> bool {
        true
    }

    open spec fn join_of(a: KnownBitsDomain, b: KnownBitsDomain) -> KnownBitsDomain {
        bits_join(a, b)
    }

    open spec fn widen_of(a: KnownBitsDomain, b: KnownBitsDomain) -> KnownBitsDomain {
        bits_join(a, b)
    }

    open spec fn narrow_of(a: KnownBitsDomain, b: KnownBitsDomain) -> KnownBitsDomain {
        bits_join(a, b)
    }

    open spec fn order_ok(a: KnownBitsDomain, b: KnownBitsDomain, r: LatticeOrder) -> bool {
        r == bits_order(a, b)
    }

    open spec fn bottom_value() -> KnownBitsDomain {
        bits_bottom()
    }

    fn join(&self, other: &Self) -> (r: Self) {
        KnownBitsDomain {
            known_zeros: self.known_zeros & other.known_zeros,
            known_ones: self.known_ones & other.known_ones,
        }
    }

    fn widen(&self, previous: &Self) -> (r: Self) {
        self.join(previous)
    }

    fn narrow(&self, previous: &Self) -> (r: Self) {
        self.join(previous)
    }

    fn partial_order(&self, other: &Self) -> (r: LatticeOrder) {
        let (az, ao, bz, bo) = (self.known_zeros, self.known_ones, other.known_zeros, other.known_ones);
        if az == bz && ao == bo {
            LatticeOrder::Equal
        } else if az & bz == bz && ao & bo == bo {
            LatticeOrder::Less
        } else if bz & az == az && bo & ao == ao {
            LatticeOrder::Greater
        } else {
            LatticeOrder::Incomparable
        }
    }

    fn bottom() -> (r: Self) {
        KnownBitsDomain { known_zeros: u64::MAX, known_ones: u64::MAX }
    }

    fn duplicate(&self) -> (r: Self) {
        *self
    }

    fn equals(&self, other: &Self) -> (r: bool) {
        self.known_zeros == other.known_zeros && self.known_ones == other.known_ones
    }
}

} // verus!

verus! {

use crate::analysis::store::{reads_defined, VariableStore};
use crate::ir::constant::{Constant, NumValue};
use crate::ir::instruction::Instruction;
use crate::ir::typing::NumRepr;
use crate::ir::value::{RegisterSlot, Value};

/// The known bits of an operand: all bits of an integer literal (taken modulo 2^64),
/// the stored value of a register, nothing for anything else.
pub open spec fn operand_bits(v: &Value, m: Map<RegisterSlot, KnownBitsDomain>) -> KnownBitsDomain {
    match v {
        Value::Constant(Constant::NumOne { value: NumValue::Int(x), .. }) => KnownBitsDomain {
            known_zeros: !(*x as u64),
            known_ones: *x as u64,
        },
        Value::Register { index, .. } => m[*index],
        _ => KnownBitsDomain { known_zeros: 0, known_ones: 0 },
    }
}

/// The sign bit of a scalar floating-point value of `bits` bits, where it lies
/// within 64 bits.
pub open spec fn float_sign_bit(bits: usize, number: NumRepr, length: Option<usize>) -> Option<u64> {
    if number == NumRepr::Float && length is None && 1 <= bits <= 64 {
        Some(1u64 << ((bits - 1) as u64))
    } else {
        None
    }
}

/// The known bits of a negated value: negating a scalar float flips its sign bit,
/// so what is known of that bit flips and every other bit stays as known; of any
/// other value nothing is known.
pub open spec fn bits_negate(bits: usize, number: NumRepr, length: Option<usize>, b: KnownBitsDomain) -> KnownBitsDomain {
    match float_sign_bit(bits, number, length) {
        Some(m) => KnownBitsDomain {
            known_zeros: (b.known_zeros & !m) | (b.known_ones & m),
            known_ones: (b.known_ones & !m) | (b.known_zeros & m),
        },
        None => KnownBitsDomain { known_zeros: 0, known_ones: 0 },
    }
}

/// The effect of one instruction on the known-bits store: binary arithmetic forgets
/// everything about its result (see [`bits_negate`] for negation).
pub open spec fn known_bits_transfer(inst: &Instruction, m: Map<RegisterSlot, KnownBitsDomain>) -> Map<
    RegisterSlot,
    KnownBitsDomain,
> {
    match inst {
        Instruction::BinaryArith { result, .. } => m.insert(
            *result,
            KnownBitsDomain { known_zeros: 0, known_ones: 0 },
        ),
        Instruction::UnaryArith { bits, number, length, operand, result, .. } => m.insert(
            *result,
            bits_negate(*bits, *number, *length, operand_bits(operand, m)),
        ),
        _ => m,
    }
}

fn eval_known_bits(value: &Value, state: &VariableStore<KnownBitsDomain>) -> (r: KnownBitsDomain)
    requires
        state.wf(),
        crate::analysis::store::operand_defined(value, state.model()),
    ensures
        r == operand_bits(value, state.model()),
{
    match value {
        Value::Constant(Constant::NumOne { value: NumValue::Int(v), .. }) => KnownBitsDomain::new(
            !(*v as u64),
            *v as u64,
        ),
        Value::Register { index, .. } => *state.get(index),
        _ => KnownBitsDomain::new(0, 0),
    }
}

/// The known bits of a negated value (see [`bits_negate`]).
fn negated_bits(bits: usize, number: NumRepr, length: Option<usize>, b: KnownBitsDomain) -> (r: KnownBitsDomain)
    ensures
        r == bits_negate(bits, number, length, b),
{
    let is_float = match number {
        NumRepr::Float => true,
        NumRepr::Int => false,
    };
    if is_float && length.is_none() && 1 <= bits && bits <= 64 {
        let shift: u64 = (bits - 1) as u64;
        let m: u64 = 1u64 << shift;
        KnownBitsDomain::new((b.known_zeros & !m) | (b.known_ones & m), (b.known_ones & !m) | (b.known_zeros & m))
    } else {
        KnownBitsDomain::new(0, 0)
    }
}

/// Transfer function of the known-bits analysis.
pub fn transfer_known_bits(instruction: &Instruction, state: &mut VariableStore<KnownBitsDomain>)
    requires
        old(state).wf(),
        reads_defined(instruction, old(state).model(), false),
    ensures
        final(state).wf(),
        final(state).model() == known_bits_transfer(instruction, old(state).model()),
{
    match instruction {
        Instruction::BinaryArith { lhs, rhs, result, .. } => {
            let _lhs_bits = eval_known_bits(lhs, state);
            let _rhs_bits = eval_known_bits(rhs, state);
            let result_bits = KnownBitsDomain::new(0, 0);
            state.insert(*result, result_bits);
        },
        Instruction::UnaryArith { bits, number, length, operand, result, .. } => {
            let operand_bits = eval_known_bits(operand, state);
            let result_bits = negated_bits(*bits, *number, *length, operand_bits);
            state.insert(*result, result_bits);
        },
        _ => {},
    }
}


/// The transfer function of the known-bits analysis.
pub struct KnownBitsTransfer;

impl Transfer<KnownBitsDomain> for KnownBitsTransfer {
    open spec fn applies(inst: &Instruction, m: Map<RegisterSlot, KnownBitsDomain>) -> bool {
        reads_defined(inst, m, false)
    }

    open spec fn effect(inst: &Instruction, m: Map<RegisterSlot, KnownBitsDomain>) -> Map<RegisterSlot, KnownBitsDomain> {
        known_bits_transfer(inst, m)
    }

    fn can_apply(&self, inst: &Instruction, store: &VariableStore<KnownBitsDomain>) -> (r: bool) {
        store.holds_reads(inst, false)
    }

    fn apply(&self, inst: &Instruction, store: &mut VariableStore<KnownBitsDomain>) {
        transfer_known_bits(inst, store)
    }
}

/// Runs the known-bits analysis over a function (see [`analysis_outcome`]).
pub fn execute_known_bits_analysis(f: &Function, fuel: usize) -> (r: Option<CfgState<KnownBitsDomain>>)
    requires
        f.body matches Some(g) ==> g.wf(),
    ensures
        match analysis_outcome::<KnownBitsDomain, KnownBitsTransfer>(f.body, true, fuel as nat) {
            None => r is None,
            Some(m) => r matches Some(st) && st.wf() && st.model() == m,
        },
{
    execute(f, &KnownBitsTransfer, CfgDirection::Forward, fuel)
}
} // verus!
