use vstd::prelude::*;
use crate::analysis::generic::{analysis_outcome, execute, CfgDirection, CfgState, Transfer};
use crate::ir::function::Function;

use crate::analysis::domain::{AbstractDomain, LatticeOrder};

verus! {

/// Sign lattice.
#[derive(Debug, Clone, Copy, PartialEq, Eq, Structural)]
pub enum SignDomain {
    Negative,
    Zero,
    Positive,
    Top,
    Bottom,
}

pub open spec fn sign_join(a: SignDomain, b: SignDomain) -> SignDomain {
    match (a, b) {
        (SignDomain::Bottom, x) => x,
        (x, SignDomain::Bottom) => x,
        (SignDomain::Negative, SignDomain::Negative) => SignDomain::Negative,
        (SignDomain::Positive, SignDomain::Positive) => SignDomain::Positive,
        (SignDomain::Zero, SignDomain::Zero) => SignDomain::Zero,
        _ => SignDomain::Top,
    }
}

/// The order of the flat sign lattice: Bottom below every sign, every sign below
/// Top, distinct signs incomparable.
pub open spec fn sign_order(a: SignDomain, b: SignDomain) -> LatticeOrder {
    if a == b {
        LatticeOrder::Equal
    } else if a == SignDomain::Bottom || b == SignDomain::Top {
        LatticeOrder::Less
    } else if b == SignDomain::Bottom || a == SignDomain::Top {
        LatticeOrder::Greater
    } else {
        LatticeOrder::Incomparable
    }
}

impl AbstractDomain for SignDomain {
    type Model = SignDomain;

    open spec fn model(&self) -> SignDomain {
        *self
    }

    open spec fn inv(&self) -> bool {
        true
    }

    open spec fn can_combine(a: SignDomain, b: SignDomain) -> bool {
        true
    }

    open spec fn join_of(a: SignDomain, b: SignDomain) -> SignDomain {
        sign_join(a, b)
    }

    open spec fn widen_of(a: SignDomain, b: SignDomain) -> SignDomain {
        sign_join(a, b)
    }

    open spec fn narrow_of(a: SignDomain, b: SignDomain) -> SignDomain {
        sign_join(a, b)
    }

    open spec fn order_ok(a: SignDomain, b: SignDomain, r: LatticeOrder) -> bool {
        r == sign_order(a, b)
    }

    open spec fn bottom_value() -> SignDomain {
        SignDomain::Bottom
    }

    fn join(&self, other: &Self) -> (r: Self) {
        match (*self, *other) {
            (SignDomain::Bottom, x) => x,
            (x, SignDomain::Bottom) => x,
            (SignDomain::Negative, SignDomain::Negative) => SignDomain::Negative,
            (SignDomain::Positive, SignDomain::Positive) => SignDomain::Positive,
            (SignDomain::Zero, SignDomain::Zero) => SignDomain::Zero,
            _ => SignDomain::Top,
        }
    }

    fn widen(&self, previous: &Self) -> (r: Self) {
        self.join(previous)
    }

    fn narrow(&self, previous: &Self) -> (r: Self) {
        self.join(previous)
    }

    fn partial_order(&self, other: &Self) -> (r: LatticeOrder) {
        if self.equals(other) {
            LatticeOrder::Equal
        } else {
            match (*self, *other) {
                (SignDomain::Bottom, _) => LatticeOrder::Less,
                (_, SignDomain::Top) => LatticeOrder::Less,
                (_, SignDomain::Bottom) => LatticeOrder::Greater,
                (SignDomain::Top, _) => LatticeOrder::Greater,
                _ => LatticeOrder::Incomparable,
            }
        }
    }

    fn bottom() -> (r: Self) {
        SignDomain::Bottom
    }

    fn duplicate(&self) -> (r: Self) {
        *self
    }

    fn equals(&self, other: &Self) -> (r: bool) {
        match (*self, *other) {
            (SignDomain::Negative, SignDomain::Negative) => true,
            (SignDomain::Zero, SignDomain::Zero) => true,
            (SignDomain::Positive, SignDomain::Positive) => true,
            (SignDomain::Top, SignDomain::Top) => true,
            (SignDomain::Bottom, SignDomain::Bottom) => true,
            _ => false,
        }
    }
}

} // verus!

verus! {

use crate::analysis::store::{reads_defined, VariableStore};
use crate::ir::constant::{Constant, NumValue};
use crate::ir::instruction::Instruction;
use crate::ir::operator::BinaryOpArith;
use crate::ir::value::{RegisterSlot, Value};

/// The sign of an operand: the literals -1, 0 and 1 (taken modulo 2^32) have a known
/// sign, registers take their value in the store, anything else is unknown.
pub open spec fn operand_sign(v: &Value, m: Map<RegisterSlot, SignDomain>) -> SignDomain {
    match v {
        Value::Constant(Constant::NumOne { value: NumValue::Int(x), .. }) => {
            let w = *x as i32;
            if w == -1 {
                SignDomain::Negative
            } else if w == 0 {
                SignDomain::Zero
            } else if w == 1 {
                SignDomain::Positive
            } else {
                SignDomain::Top
            }
        },
        Value::Register { index, .. } => m[*index],
        _ => SignDomain::Top,
    }
}

/// Sign arithmetic: an unreachable operand gives an unreachable result; otherwise
/// the sign that every result of the operation has on operands of the given signs,
/// and Top where results of more than one sign are possible.
pub open spec fn sign_binary(op: BinaryOpArith, l: SignDomain, r: SignDomain) -> SignDomain {
    if l == SignDomain::Bottom || r == SignDomain::Bottom {
        SignDomain::Bottom
    } else {
        match op {
            BinaryOpArith::Add => match (l, r) {
                (SignDomain::Zero, x) => x,
                (x, SignDomain::Zero) => x,
                (SignDomain::Positive, SignDomain::Positive) => SignDomain::Positive,
                (SignDomain::Negative, SignDomain::Negative) => SignDomain::Negative,
                _ => SignDomain::Top,
            },
            BinaryOpArith::Sub => match (l, r) {
                (x, SignDomain::Zero) => x,
                (SignDomain::Zero, x) => sign_negate(x),
                (SignDomain::Positive, SignDomain::Negative) => SignDomain::Positive,
                (SignDomain::Negative, SignDomain::Positive) => SignDomain::Negative,
                _ => SignDomain::Top,
            },
            BinaryOpArith::Mul => match (l, r) {
                (SignDomain::Zero, _) => SignDomain::Zero,
                (_, SignDomain::Zero) => SignDomain::Zero,
                (SignDomain::Positive, SignDomain::Positive) => SignDomain::Positive,
                (SignDomain::Negative, SignDomain::Negative) => SignDomain::Positive,
                (SignDomain::Positive, SignDomain::Negative) => SignDomain::Negative,
                (SignDomain::Negative, SignDomain::Positive) => SignDomain::Negative,
                _ => SignDomain::Top,
            },
            BinaryOpArith::Div | BinaryOpArith::Mod => match (l, r) {
                (SignDomain::Zero, SignDomain::Positive) => SignDomain::Zero,
                (SignDomain::Zero, SignDomain::Negative) => SignDomain::Zero,
                _ => SignDomain::Top,
            },
        }
    }
}

/// The sign of a negated value.
pub open spec fn sign_negate(s: SignDomain) -> SignDomain {
    match s {
        SignDomain::Positive => SignDomain::Negative,
        SignDomain::Negative => SignDomain::Positive,
        SignDomain::Zero => SignDomain::Zero,
        SignDomain::Top => SignDomain::Top,
        SignDomain::Bottom => SignDomain::Bottom,
    }
}

/// The effect of one instruction on the sign store.
pub open spec fn sign_transfer(inst: &Instruction, m: Map<RegisterSlot, SignDomain>) -> Map<
    RegisterSlot,
    SignDomain,
> {
    match inst {
        Instruction::BinaryArith { opcode, lhs, rhs, result, .. } => m.insert(
            *result,
            sign_binary(*opcode, operand_sign(lhs, m), operand_sign(rhs, m)),
        ),
        Instruction::UnaryArith { operand, result, .. } => m.insert(
            *result,
            sign_negate(operand_sign(operand, m)),
        ),
        _ => m,
    }
}

fn eval_sign(value: &Value, state: &VariableStore<SignDomain>) -> (r: SignDomain)
    requires
        state.wf(),
        crate::analysis::store::operand_defined(value, state.model()),
    ensures
        r == operand_sign(value, state.model()),
{
    match value {
        Value::Constant(Constant::NumOne { value: NumValue::Int(v), .. }) => {
            let w = *v as i32;
            if w == -1 {
                SignDomain::Negative
            } else if w == 0 {
                SignDomain::Zero
            } else if w == 1 {
                SignDomain::Positive
            } else {
                SignDomain::Top
            }
        },
        Value::Register { index, .. } => *state.get(index),
        _ => SignDomain::Top,
    }
}

/// The sign of a negated value (see [`sign_negate`]).
fn sign_of_negation(s: SignDomain) -> (r: SignDomain)
    ensures
        r == sign_negate(s),
{
    match s {
        SignDomain::Positive => SignDomain::Negative,
        SignDomain::Negative => SignDomain::Positive,
        SignDomain::Zero => SignDomain::Zero,
        SignDomain::Top => SignDomain::Top,
        SignDomain::Bottom => SignDomain::Bottom,
    }
}

/// The sign of the result of an arithmetic operation (see [`sign_binary`]).
fn sign_of_binary(op: BinaryOpArith, l: SignDomain, r: SignDomain) -> (s: SignDomain)
    ensures
        s == sign_binary(op, l, r),
{
    match (l, r) {
        (SignDomain::Bottom, _) | (_, SignDomain::Bottom) => SignDomain::Bottom,
        _ => match op {
            BinaryOpArith::Add => match (l, r) {
                (SignDomain::Zero, x) => x,
                (x, SignDomain::Zero) => x,
                (SignDomain::Positive, SignDomain::Positive) => SignDomain::Positive,
                (SignDomain::Negative, SignDomain::Negative) => SignDomain::Negative,
                _ => SignDomain::Top,
            },
            BinaryOpArith::Sub => match (l, r) {
                (x, SignDomain::Zero) => x,
                (SignDomain::Zero, x) => sign_of_negation(x),
                (SignDomain::Positive, SignDomain::Negative) => SignDomain::Positive,
                (SignDomain::Negative, SignDomain::Positive) => SignDomain::Negative,
                _ => SignDomain::Top,
            },
            BinaryOpArith::Mul => match (l, r) {
                (SignDomain::Zero, _) => SignDomain::Zero,
                (_, SignDomain::Zero) => SignDomain::Zero,
                (SignDomain::Positive, SignDomain::Positive) => SignDomain::Positive,
                (SignDomain::Negative, SignDomain::Negative) => SignDomain::Positive,
                (SignDomain::Positive, SignDomain::Negative) => SignDomain::Negative,
                (SignDomain::Negative, SignDomain::Positive) => SignDomain::Negative,
                _ => SignDomain::Top,
            },
            BinaryOpArith::Div | BinaryOpArith::Mod => match (l, r) {
                (SignDomain::Zero, SignDomain::Positive) => SignDomain::Zero,
                (SignDomain::Zero, SignDomain::Negative) => SignDomain::Zero,
                _ => SignDomain::Top,
            },
        },
    }
}

/// Transfer function of the sign analysis.
pub fn transfer_sign(instruction: &Instruction, state: &mut VariableStore<SignDomain>)
    requires
        old(state).wf(),
        reads_defined(instruction, old(state).model(), false),
    ensures
        final(state).wf(),
        final(state).model() == sign_transfer(instruction, old(state).model()),
{
    match instruction {
        Instruction::BinaryArith { opcode, lhs, rhs, result, .. } => {
            let lhs_sign = eval_sign(lhs, state);
            let rhs_sign = eval_sign(rhs, state);
            let result_sign = sign_of_binary(*opcode, lhs_sign, rhs_sign);
            state.insert(*result, result_sign);
        },
        Instruction::UnaryArith { operand, result, .. } => {
            let operand_sign = eval_sign(operand, state);
            let result_sign = sign_of_negation(operand_sign);
            state.insert(*result, result_sign);
        },
        _ => {},
    }
}


/// The transfer function of the sign analysis.
pub struct SignTransfer;

impl Transfer<SignDomain> for SignTransfer {
    open spec fn applies(inst: &Instruction, m: Map<RegisterSlot, SignDomain>) -> bool {
        reads_defined(inst, m, false)
    }

    open spec fn effect(inst: &Instruction, m: Map<RegisterSlot, SignDomain>) -> Map<RegisterSlot, SignDomain> {
        sign_transfer(inst, m)
    }

    fn can_apply(&self, inst: &Instruction, store: &VariableStore<SignDomain>) -> (r: bool) {
        store.holds_reads(inst, false)
    }

    fn apply(&self, inst: &Instruction, store: &mut VariableStore<SignDomain>) {
        transfer_sign(inst, store)
    }
}

/// Runs the sign analysis over a function (see [`analysis_outcome`]).
pub fn execute_sign_analysis(f: &Function, fuel: usize) -> (r: Option<CfgState<SignDomain>>)
    requires
        f.body matches Some(g) ==> g.wf(),
    ensures
        match analysis_outcome::<SignDomain, SignTransfer>(f.body, true, fuel as nat) {
            None => r is None,
            Some(m) => r matches Some(st) && st.wf() && st.model() == m,
        },
{
    execute(f, &SignTransfer, CfgDirection::Forward, fuel)
}
} // verus!
