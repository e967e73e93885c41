use vstd::prelude::*;
use crate::analysis::generic::{analysis_outcome, execute, CfgDirection, CfgState, Transfer};
use crate::ir::function::Function;

use crate::analysis::domain::{AbstractDomain, LatticeOrder};

verus! {

/// Constant propagation lattice: a known constant, unknown (Top) or unreachable (Bottom).
#[derive(Debug, Clone, Copy, PartialEq, Eq, Structural)]
pub enum ValueDomain {
    Const(i64),
    Top,
    Bottom,
}

pub open spec fn value_join(a: ValueDomain, b: ValueDomain) -> ValueDomain {
    match (a, b) {
        (ValueDomain::Bottom, x) => x,
        (x, ValueDomain::Bottom) => x,
        (ValueDomain::Const(x), ValueDomain::Const(y)) => if x == y {
            ValueDomain::Const(x)
        } else {
            ValueDomain::Top
        },
        _ => ValueDomain::Top,
    }
}

/// Widening of `current` against `previous`.
pub open spec fn value_widen(current: ValueDomain, previous: ValueDomain) -> ValueDomain {
    match (previous, current) {
        (ValueDomain::Const(x), ValueDomain::Const(y)) => if x == y {
            ValueDomain::Const(x)
        } else {
            ValueDomain::Top
        },
        (ValueDomain::Top, _) => ValueDomain::Top,
        (_, ValueDomain::Top) => ValueDomain::Top,
        (ValueDomain::Bottom, x) => x,
        _ => ValueDomain::Top,
    }
}

/// Narrowing of `current` against `previous`.
pub open spec fn value_narrow(current: ValueDomain, previous: ValueDomain) -> ValueDomain {
    match (previous, current) {
        (ValueDomain::Const(x), ValueDomain::Top) => ValueDomain::Const(x),
        (ValueDomain::Bottom, x) => x,
        _ => current,
    }
}

/// The order of the flat constant lattice: Bottom below every constant, every
/// constant below Top, distinct constants incomparable.
pub open spec fn value_order(a: ValueDomain, b: ValueDomain) -> LatticeOrder {
    if a == b {
        LatticeOrder::Equal
    } else if a == ValueDomain::Bottom || b == ValueDomain::Top {
        LatticeOrder::Less
    } else if b == ValueDomain::Bottom || a == ValueDomain::Top {
        LatticeOrder::Greater
    } else {
        LatticeOrder::Incomparable
    }
}

impl AbstractDomain for ValueDomain {
    type Model = ValueDomain;

    open spec fn model(&self) -> ValueDomain {
        *self
    }

    open spec fn inv(&self) -> bool {
        true
    }

    open spec fn can_combine(a: ValueDomain, b: ValueDomain) -> bool {
        true
    }

    open spec fn join_of(a: ValueDomain, b: ValueDomain) -> ValueDomain {
        value_join(a, b)
    }

    open spec fn widen_of(a: ValueDomain, b: ValueDomain) -> ValueDomain {
        value_widen(a, b)
    }

    open spec fn narrow_of(a: ValueDomain, b: ValueDomain) -> ValueDomain {
        value_narrow(a, b)
    }

    open spec fn order_ok(a: ValueDomain, b: ValueDomain, r: LatticeOrder) -> bool {
        r == value_order(a, b)
    }

    open spec fn bottom_value() -> ValueDomain {
        ValueDomain::Bottom
    }

    fn join(&self, other: &Self) -> (r: Self) {
        match (*self, *other) {
            (ValueDomain::Bottom, x) => x,
            (x, ValueDomain::Bottom) => x,
            (ValueDomain::Const(x), ValueDomain::Const(y)) => {
                if x == y {
                    ValueDomain::Const(x)
                } else {
                    ValueDomain::Top
                }
            },
            _ => ValueDomain::Top,
        }
    }

    fn widen(&self, previous: &Self) -> (r: Self) {
        match (*previous, *self) {
            (ValueDomain::Const(x), ValueDomain::Const(y)) => {
                if x == y {
                    ValueDomain::Const(x)
                } else {
                    ValueDomain::Top
                }
            },
            (ValueDomain::Top, _) => ValueDomain::Top,
            (_, ValueDomain::Top) => ValueDomain::Top,
            (ValueDomain::Bottom, x) => x,
            _ => ValueDomain::Top,
        }
    }

    fn narrow(&self, previous: &Self) -> (r: Self) {
        match (*previous, *self) {
            (ValueDomain::Const(x), ValueDomain::Top) => ValueDomain::Const(x),
            (ValueDomain::Bottom, x) => x,
            _ => *self,
        }
    }

    fn partial_order(&self, other: &Self) -> (r: LatticeOrder) {
        match (*self, *other) {
            (ValueDomain::Bottom, ValueDomain::Bottom) => LatticeOrder::Equal,
            (ValueDomain::Top, ValueDomain::Top) => LatticeOrder::Equal,
            (ValueDomain::Bottom, _) => LatticeOrder::Less,
            (_, ValueDomain::Top) => LatticeOrder::Less,
            (_, ValueDomain::Bottom) => LatticeOrder::Greater,
            (ValueDomain::Top, _) => LatticeOrder::Greater,
            (ValueDomain::Const(c1), ValueDomain::Const(c2)) => {
                if c1 == c2 {
                    LatticeOrder::Equal
                } else {
                    LatticeOrder::Incomparable
                }
            },
        }
    }

    fn bottom() -> (r: Self) {
        ValueDomain::Bottom
    }

    fn duplicate(&self) -> (r: Self) {
        *self
    }

    fn equals(&self, other: &Self) -> (r: bool) {
        match (*self, *other) {
            (ValueDomain::Const(a), ValueDomain::Const(b)) => a == b,
            (ValueDomain::Top, ValueDomain::Top) => true,
            (ValueDomain::Bottom, ValueDomain::Bottom) => true,
            _ => false,
        }
    }
}

} // verus!

verus! {

use crate::analysis::store::{reads_defined, VariableStore};
use crate::ir::constant::{Constant, NumValue};
use crate::ir::instruction::Instruction;
use crate::ir::operator::{BinaryOpArith, UnaryOpArith};
use crate::ir::value::{RegisterSlot, Value};

/// The constant value of an operand: integer literals are constants (wrapped to 64 bits),
/// registers take their value in the store, anything else is unknown.
pub open spec fn operand_constant(v: &Value, m: Map<RegisterSlot, ValueDomain>) -> ValueDomain {
    match v {
        Value::Constant(Constant::NumOne { value: NumValue::Int(x), .. }) => ValueDomain::Const(
            *x as i64,
        ),
        Value::Register { index, .. } => m[*index],
        _ => ValueDomain::Top,
    }
}

/// Binary arithmetic over constants; `+`, `-` and `*` wrap around as a release build computes,
/// and division or remainder by zero is unknown.
pub open spec fn constant_binary(op: BinaryOpArith, l: ValueDomain, r: ValueDomain) -> ValueDomain {
    match (l, r) {
        (ValueDomain::Const(a), ValueDomain::Const(b)) => match op {
            BinaryOpArith::Add => ValueDomain::Const(vstd::wrapping::i64_specs::wrapping_add(a, b)),
            BinaryOpArith::Sub => ValueDomain::Const(vstd::wrapping::i64_specs::wrapping_sub(a, b)),
            BinaryOpArith::Mul => ValueDomain::Const(vstd::wrapping::i64_specs::wrapping_mul(a, b)),
            BinaryOpArith::Div => match a.checked_div(b) {
                Some(q) => ValueDomain::Const(q),
                None => ValueDomain::Top,
            },
            BinaryOpArith::Mod => match a.checked_rem(b) {
                Some(q) => ValueDomain::Const(q),
                None => ValueDomain::Top,
            },
        },
        _ => ValueDomain::Top,
    }
}

/// Division and remainder of the two operands do not overflow (`i64::MIN` by `-1`).
pub open spec fn constant_division_defined(inst: &Instruction, m: Map<RegisterSlot, ValueDomain>) -> bool {
    match inst {
        Instruction::BinaryArith { opcode, lhs, rhs, .. } => (*opcode == BinaryOpArith::Div || *opcode
            == BinaryOpArith::Mod) ==> !(operand_constant(lhs, m) == ValueDomain::Const(i64::MIN)
            && operand_constant(rhs, m) == ValueDomain::Const(-1i64)),
        _ => true,
    }
}

/// The effect of one instruction on the constant-propagation store.
pub open spec fn constant_transfer(inst: &Instruction, m: Map<RegisterSlot, ValueDomain>) -> Map<
    RegisterSlot,
    ValueDomain,
> {
    match inst {
        Instruction::BinaryArith { opcode, lhs, rhs, result, .. } => m.insert(
            *result,
            constant_binary(*opcode, operand_constant(lhs, m), operand_constant(rhs, m)),
        ),
        Instruction::UnaryArith { operand, result, .. } => m.insert(
            *result,
            match operand_constant(operand, m) {
                ValueDomain::Const(v) => ValueDomain::Const(
                    vstd::wrapping::i64_specs::wrapping_sub(0, v),
                ),
                _ => ValueDomain::Top,
            },
        ),
        Instruction::Load { pointer, result, .. } => m.insert(*result, operand_constant(pointer, m)),
        Instruction::Store { pointer, value, .. } => match pointer {
            Value::Register { index, .. } => m.insert(*index, operand_constant(value, m)),
            _ => m,
        },
        Instruction::CallDirect { result, .. } => match result {
            Some((_, reg)) => m.insert(*reg, ValueDomain::Top),
            None => m,
        },
        Instruction::CallIndirect { result, .. } => match result {
            Some((_, reg)) => m.insert(*reg, ValueDomain::Top),
            None => m,
        },
        _ => m,
    }
}

fn eval_operand(value: &Value, state: &VariableStore<ValueDomain>) -> (r: ValueDomain)
    requires
        state.wf(),
        crate::analysis::store::operand_defined(value, state.model()),
    ensures
        r == operand_constant(value, state.model()),
{
    match value {
        Value::Constant(Constant::NumOne { value: NumValue::Int(v), .. }) => ValueDomain::Const(
            *v as i64,
        ),
        Value::Register { index, .. } => *state.get(index),
        _ => ValueDomain::Top,
    }
}

/// Transfer function of constant propagation.
pub fn transfer(instruction: &Instruction, state: &mut VariableStore<ValueDomain>)
    requires
        old(state).wf(),
        reads_defined(instruction, old(state).model(), true),
        constant_division_defined(instruction, old(state).model()),
    ensures
        final(state).wf(),
        final(state).model() == constant_transfer(instruction, old(state).model()),
{
    match instruction {
        Instruction::BinaryArith { opcode, lhs, rhs, result, .. } => {
            let lhs_value = eval_operand(lhs, state);
            let rhs_value = eval_operand(rhs, state);
            let result_value = match (lhs_value, rhs_value) {
                (ValueDomain::Const(l), ValueDomain::Const(r)) => match opcode {
                    BinaryOpArith::Add => ValueDomain::Const(l.wrapping_add(r)),
                    BinaryOpArith::Sub => ValueDomain::Const(l.wrapping_sub(r)),
                    BinaryOpArith::Mul => ValueDomain::Const(l.wrapping_mul(r)),
                    // division by zero is undefined
                    BinaryOpArith::Div => match l.checked_div(r) {
                        Some(q) => ValueDomain::Const(q),
                        None => ValueDomain::Top,
                    },
                    // modulo by zero is undefined
                    BinaryOpArith::Mod => match l.checked_rem(r) {
                        Some(q) => ValueDomain::Const(q),
                        None => ValueDomain::Top,
                    },
                },
                _ => ValueDomain::Top,
            };
            state.insert(*result, result_value);
        },
        Instruction::UnaryArith { opcode, operand, result, .. } => {
            let operand_value = eval_operand(operand, state);
            let result_value = match operand_value {
                ValueDomain::Const(val) => match opcode {
                    UnaryOpArith::Neg => ValueDomain::Const(0i64.wrapping_sub(val)),
                },
                _ => ValueDomain::Top,
            };
            state.insert(*result, result_value);
        },
        Instruction::Load { pointer, result, .. } => {
            let value = eval_operand(pointer, state);
            state.insert(*result, value);
        },
        Instruction::Store { pointer, value, .. } => match pointer {
            Value::Register { index, .. } => {
                let value = eval_operand(value, state);
                state.insert(*index, value);
            },
            Value::Constant(..) | Value::Argument { .. } => {},
        },
        Instruction::CallDirect { result, .. } | Instruction::CallIndirect { result, .. } => {
            if let Some((_, reg)) = result {
                state.insert(*reg, ValueDomain::Top);
            }
        },
        _ => {},
    }
}


/// The transfer function of the constant propagation.
pub struct ConstantTransfer;

/// Whether a division or remainder of the instruction is defined on the store's values.
fn division_defined(inst: &Instruction, state: &VariableStore<ValueDomain>) -> (r: bool)
    requires
        state.wf(),
        reads_defined(inst, state.model(), true),
    ensures
        r == constant_division_defined(inst, state.model()),
{
    match inst {
        Instruction::BinaryArith { opcode, lhs, rhs, .. } => {
            let is_division = match opcode {
                BinaryOpArith::Div => true,
                BinaryOpArith::Mod => true,
                _ => false,
            };
            if !is_division {
                return true;
            }
            let l = eval_operand(lhs, state);
            let r = eval_operand(rhs, state);
            match (l, r) {
                (ValueDomain::Const(a), ValueDomain::Const(b)) => !(a == i64::MIN && b == -1),
                _ => true,
            }
        },
        _ => true,
    }
}

impl Transfer<ValueDomain> for ConstantTransfer {
    open spec fn applies(inst: &Instruction, m: Map<RegisterSlot, ValueDomain>) -> bool {
        reads_defined(inst, m, true) && constant_division_defined(inst, m)
    }

    open spec fn effect(inst: &Instruction, m: Map<RegisterSlot, ValueDomain>) -> Map<RegisterSlot, ValueDomain> {
        constant_transfer(inst, m)
    }

    fn can_apply(&self, inst: &Instruction, store: &VariableStore<ValueDomain>) -> (r: bool) {
        store.holds_reads(inst, true) && division_defined(inst, store)
    }

    fn apply(&self, inst: &Instruction, store: &mut VariableStore<ValueDomain>) {
        transfer(inst, store)
    }
}

/// Runs the constant propagation over a function (see [`analysis_outcome`]).
pub fn execute_constant_propagation(f: &Function, fuel: usize) -> (r: Option<CfgState<ValueDomain>>)
    requires
        f.body matches Some(g) ==> g.wf(),
    ensures
        match analysis_outcome::<ValueDomain, ConstantTransfer>(f.body, true, fuel as nat) {
            None => r is None,
            Some(m) => r matches Some(st) && st.wf() && st.model() == m,
        },
{
    execute(f, &ConstantTransfer, CfgDirection::Forward, fuel)
}
} // verus!
