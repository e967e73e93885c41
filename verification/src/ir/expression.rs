use vstd::prelude::*;

use crate::error::{EngineError, EngineResult};
use crate::ir::constant::{Constant, Expression, GEPConstIndex};
use crate::ir::instruction::{result_of, GEPIndex, Instruction};
use crate::ir::value::{RegisterSlot, Value};

verus! {

/// A GEP index whose value, where it has one, is a constant.
pub open spec fn index_is_const(i: GEPIndex) -> bool {
    match i {
        GEPIndex::Array(v) => v is Constant,
        GEPIndex::Struct(_) => true,
        GEPIndex::Vector(v) => v is Constant,
    }
}

/// `j` is the constant index that `i` stands for.
pub open spec fn index_converts(i: GEPIndex, j: GEPConstIndex) -> bool {
    match (i, j) {
        (GEPIndex::Array(v), GEPConstIndex::Array(c)) => v == Value::Constant(c),
        (GEPIndex::Struct(a), GEPConstIndex::Struct(b)) => a == b,
        (GEPIndex::Vector(v), GEPConstIndex::Vector(c)) => v == Value::Constant(c),
        _ => false,
    }
}

/// The instructions a constant expression can be made of: all but memory access,
/// calls, variadic arguments, freezes and phis.
pub open spec fn expression_kind(inst: Instruction) -> bool {
    !(inst is Alloca || inst is Load || inst is Store || inst is VariadicArg || inst is CallDirect
        || inst is CallIndirect || inst is FreezeBitvec || inst is FreezePtr || inst is FreezeNop
        || inst is Phi)
}

/// Every operand of the instruction is a constant.
pub open spec fn operands_constant(inst: Instruction) -> bool {
    match inst {
        Instruction::UnaryArith { operand, .. } => operand is Constant,
        Instruction::BinaryArith { lhs, rhs, .. } => lhs is Constant && rhs is Constant,
        Instruction::BinaryBitwise { lhs, rhs, .. } => lhs is Constant && rhs is Constant,
        Instruction::BinaryShift { lhs, rhs, .. } => lhs is Constant && rhs is Constant,
        Instruction::CompareBitvec { lhs, rhs, .. } => lhs is Constant && rhs is Constant,
        Instruction::CompareOrder { lhs, rhs, .. } => lhs is Constant && rhs is Constant,
        Instruction::ComparePtr { lhs, rhs, .. } => lhs is Constant && rhs is Constant,
        Instruction::CastBitvecSize { operand, .. } => operand is Constant,
        Instruction::CastBitvecRepr { operand, .. } => operand is Constant,
        Instruction::CastBitvecFree { operand, .. } => operand is Constant,
        Instruction::CastPtr { operand, .. } => operand is Constant,
        Instruction::CastPtrToInt { operand, .. } => operand is Constant,
        Instruction::CastIntToPtr { operand, .. } => operand is Constant,
        Instruction::GEP { pointer, offset, indices, .. } => (forall|k: int|
            0 <= k < indices@.len() ==> index_is_const(#[trigger] indices@[k])) && pointer is Constant
            && offset is Constant,
        Instruction::ITEOne { cond, then_value, else_value, .. } => cond is Constant && then_value is Constant
            && else_value is Constant,
        Instruction::ITEVec { cond, then_value, else_value, .. } => cond is Constant && then_value is Constant
            && else_value is Constant,
        Instruction::GetValue { aggregate, .. } => aggregate is Constant,
        Instruction::SetValue { aggregate, value, .. } => aggregate is Constant && value is Constant,
        Instruction::GetElement { vector, slot, .. } => vector is Constant && slot is Constant,
        Instruction::SetElement { vector, value, slot, .. } => vector is Constant && value is Constant
            && slot is Constant,
        Instruction::ShuffleVec { lhs, rhs, .. } => lhs is Constant && rhs is Constant,
        _ => true,
    }
}

/// `e` is the constant expression that `inst` stands for: the same operation on
/// the same attributes, with each operand's constant in its place.
pub open spec fn converts_to(inst: Instruction, e: Expression) -> bool {
    match (inst, e) {
        (
            Instruction::UnaryArith { bits, number, length, opcode, operand, .. },
            Expression::UnaryArith { bits: b, number: n, length: l, opcode: o, operand: c },
        ) => b == bits && n == number && l == length && o == opcode && operand == Value::Constant(c),
        (
            Instruction::BinaryArith { bits, number, length, opcode, lhs, rhs, .. },
            Expression::BinaryArith { bits: b, number: n, length: l, opcode: o, lhs: x, rhs: y },
        ) => b == bits && n == number && l == length && o == opcode && lhs == Value::Constant(x) && rhs
            == Value::Constant(y),
        (
            Instruction::BinaryBitwise { bits, length, opcode, lhs, rhs, .. },
            Expression::BinaryBitwise { bits: b, length: l, opcode: o, lhs: x, rhs: y },
        ) => b == bits && l == length && o == opcode && lhs == Value::Constant(x) && rhs == Value::Constant(
            y,
        ),
        (
            Instruction::BinaryShift { bits, length, opcode, lhs, rhs, .. },
            Expression::BinaryShift { bits: b, length: l, opcode: o, lhs: x, rhs: y },
        ) => b == bits && l == length && o == opcode && lhs == Value::Constant(x) && rhs == Value::Constant(
            y,
        ),
        (
            Instruction::CompareBitvec { bits, number, length, predicate, lhs, rhs, .. },
            Expression::CompareBitvec { bits: b, number: n, length: l, predicate: p, lhs: x, rhs: y },
        ) => b == bits && n == number && l == length && p == predicate && lhs == Value::Constant(x) && rhs
            == Value::Constant(y),
        (
            Instruction::CompareOrder { bits, length, ordered, lhs, rhs, .. },
            Expression::CompareOrder { bits: b, length: l, ordered: d, lhs: x, rhs: y },
        ) => b == bits && l == length && d == ordered && lhs == Value::Constant(x) && rhs == Value::Constant(
            y,
        ),
        (
            Instruction::ComparePtr { predicate, lhs, rhs, .. },
            Expression::ComparePtr { predicate: p, lhs: x, rhs: y },
        ) => p == predicate && lhs == Value::Constant(x) && rhs == Value::Constant(y),
        (
            Instruction::CastBitvecSize { bits_from, bits_into, number, length, operand, .. },
            Expression::CastBitvecSize { bits_from: f, bits_into: t, number: n, length: l, operand: c },
        ) => f == bits_from && t == bits_into && n == number && l == length && operand == Value::Constant(c),
        (
            Instruction::CastBitvecRepr {
                bits_from,
                bits_into,
                number_from,
                number_into,
                length,
                operand,
                ..
            },
            Expression::CastBitvecRepr {
                bits_from: f,
                bits_into: t,
                number_from: nf,
                number_into: nt,
                length: l,
                operand: c,
            },
        ) => f == bits_from && t == bits_into && nf == number_from && nt == number_into && l == length
            && operand == Value::Constant(c),
        (
            Instruction::CastBitvecFree {
                bits_from,
                bits_into,
                number_from,
                number_into,
                length_from,
                length_into,
                operand,
                ..
            },
            Expression::CastBitvecFree {
                bits_from: f,
                bits_into: t,
                number_from: nf,
                number_into: nt,
                length_from: lf,
                length_into: lt,
                operand: c,
            },
        ) => f == bits_from && t == bits_into && nf == number_from && nt == number_into && lf
            == length_from && lt == length_into && operand == Value::Constant(c),
        (Instruction::CastPtr { operand, .. }, Expression::CastPtr { operand: c }) => operand
            == Value::Constant(c),
        (
            Instruction::CastPtrToInt { bits_into, operand, .. },
            Expression::CastPtrToInt { bits_into: t, operand: c },
        ) => t == bits_into && operand == Value::Constant(c),
        (
            Instruction::CastIntToPtr { bits_from, operand, .. },
            Expression::CastIntToPtr { bits_from: f, operand: c },
        ) => f == bits_from && operand == Value::Constant(c),
        (
            Instruction::GEP { src_pointee_type, dst_pointee_type, pointer, offset, indices, .. },
            Expression::GEP {
                src_pointee_type: s,
                dst_pointee_type: d,
                pointer: p,
                offset: o,
                indices: ix,
            },
        ) => s == src_pointee_type && d == dst_pointee_type && pointer == Value::Constant(p) && offset
            == Value::Constant(o) && ix@.len() == indices@.len() && forall|k: int|
            0 <= k < indices@.len() ==> index_converts(#[trigger] indices@[k], ix@[k]),
        (
            Instruction::ITEOne { cond, then_value, else_value, .. },
            Expression::ITEOne { cond: c, then_value: t, else_value: f },
        ) => cond == Value::Constant(c) && then_value == Value::Constant(t) && else_value
            == Value::Constant(f),
        (
            Instruction::ITEVec { bits, number, length, cond, then_value, else_value, .. },
            Expression::ITEVec {
                bits: b,
                number: n,
                length: l,
                cond: c,
                then_value: t,
                else_value: f,
            },
        ) => b == bits && n == number && l == length && cond == Value::Constant(c) && then_value
            == Value::Constant(t) && else_value == Value::Constant(f),
        (
            Instruction::GetValue { src_ty, dst_ty, aggregate, indices, .. },
            Expression::GetValue { src_ty: s, dst_ty: d, aggregate: a, indices: ix },
        ) => s == src_ty && d == dst_ty && aggregate == Value::Constant(a) && ix == indices,
        (
            Instruction::SetValue { aggregate, value, indices, .. },
            Expression::SetValue { aggregate: a, value: v, indices: ix },
        ) => aggregate == Value::Constant(a) && value == Value::Constant(v) && ix == indices,
        (
            Instruction::GetElement { bits, number, length, vector, slot, .. },
            Expression::GetElement { bits: b, number: n, length: l, vector: v, slot: s },
        ) => b == bits && n == number && l == length && vector == Value::Constant(v) && slot
            == Value::Constant(s),
        (
            Instruction::SetElement { bits, number, length, vector, value, slot, .. },
            Expression::SetElement { bits: b, number: n, length: l, vector: v, value: x, slot: s },
        ) => b == bits && n == number && l == length && vector == Value::Constant(v) && value
            == Value::Constant(x) && slot == Value::Constant(s),
        (
            Instruction::ShuffleVec { bits, number, length, lhs, rhs, mask, .. },
            Expression::ShuffleVec { bits: b, number: n, length: l, lhs: x, rhs: y, mask: m },
        ) => b == bits && n == number && l == length && lhs == Value::Constant(x) && rhs == Value::Constant(
            y,
        ) && m == mask,
        _ => false,
    }
}

/// The message for an operand of a constant expression that is not a constant.
pub open spec fn not_constant_text() -> Seq<char> {
    "expect value to be a constant"@
}

/// The outcome of reading a constant expression agrees with the instruction.
pub open spec fn expression_agrees(inst: Instruction, r: EngineResult<Expression>) -> bool {
    if !expression_kind(inst) {
        r matches Err(EngineError::InvalidAssumption(m)) && m@ == "unexpected instruction type for const expr"@
    } else if !operands_constant(inst) {
        r matches Err(EngineError::InvariantViolation(m)) && m@ == not_constant_text()
    } else {
        r matches Ok(e) && converts_to(inst, e)
    }
}

/// The failure for an operand that is not a constant.
fn not_constant() -> (r: EngineError)
    ensures
        r matches EngineError::InvariantViolation(m) && m@ == not_constant_text(),
{
    EngineError::InvariantViolation("expect value to be a constant".to_owned())
}

/// Converts the indices of a GEP into constant ones, in order.
fn convert_indices(indices: Vec<GEPIndex>) -> (r: EngineResult<Vec<GEPConstIndex>>)
    ensures
        match r {
            Ok(ix) => (forall|k: int| 0 <= k < indices@.len() ==> index_is_const(#[trigger] indices@[k]))
                && ix@.len() == indices@.len() && forall|k: int|
                0 <= k < indices@.len() ==> index_converts(#[trigger] indices@[k], ix@[k]),
            Err(e) => !(forall|k: int| 0 <= k < indices@.len() ==> index_is_const(#[trigger] indices@[k]))
                && (e matches EngineError::InvariantViolation(m) && m@ == not_constant_text()),
        },
{
    let ghost all = indices@;
    let mut rest = indices;
    let mut out: Vec<GEPConstIndex> = Vec::new();
    while rest.len() > 0
        invariant
            all == indices@,
            out@.len() + rest@.len() == all.len(),
            rest@ == all.subrange(out@.len() as int, all.len() as int),
            forall|k: int| 0 <= k < out@.len() ==> index_is_const(#[trigger] all[k]),
            forall|k: int| 0 <= k < out@.len() ==> index_converts(#[trigger] all[k], out@[k]),
        decreases rest@.len(),
    {
        let ghost pos = out@.len() as int;
        let idx = rest.remove(0);
        assert(idx == all[pos]);
        let converted = match idx {
            GEPIndex::Array(v) => match v {
                Value::Constant(c) => GEPConstIndex::Array(c),
                _ => {
                    assert(!index_is_const(all[pos]));
                    return Err(not_constant());
                },
            },
            GEPIndex::Struct(s) => GEPConstIndex::Struct(s),
            GEPIndex::Vector(v) => match v {
                Value::Constant(c) => GEPConstIndex::Vector(c),
                _ => {
                    assert(!index_is_const(all[pos]));
                    return Err(not_constant());
                },
            },
        };
        let ghost before = out@;
        out.push(converted);
        assert(out@[pos] == converted);
        assert forall|k: int| 0 <= k < out@.len() implies index_converts(#[trigger] all[k], out@[k]) by {
            if k < pos {
                assert(out@[k] == before[k]);
            }
        }
        assert(rest@ =~= all.subrange(out@.len() as int, all.len() as int));
    }
    Ok(out)
}

/// The constant of an operand, or the failure for one that is not a constant.
fn operand_constant(v: Value) -> (r: EngineResult<Constant>)
    ensures
        match v {
            Value::Constant(c) => r matches Ok(k) && k == c,
            _ => r matches Err(EngineError::InvariantViolation(m)) && m@ == not_constant_text(),
        },
{
    v.expect_constant()
}

impl Expression {
    /// The constant expression that an instruction stands for (a constant
    /// expression is read as an instruction whose result is the last register).
    pub fn from_instruction(inst: Instruction) -> (r: EngineResult<Expression>)
        requires
            expression_kind(inst) ==> result_of(&inst) == Some(RegisterSlot(usize::MAX)),
        ensures
            expression_agrees(inst, r),
    {
        match inst {
            Instruction::UnaryArith { bits, number, length, opcode, operand, .. } => {
                let operand = operand_constant(operand)?;
                Ok(Expression::UnaryArith { bits, number, length, opcode, operand })
            },
            Instruction::BinaryArith { bits, number, length, opcode, lhs, rhs, .. } => {
                let lhs = operand_constant(lhs)?;
                let rhs = operand_constant(rhs)?;
                Ok(Expression::BinaryArith { bits, number, length, opcode, lhs, rhs })
            },
            Instruction::BinaryBitwise { bits, length, opcode, lhs, rhs, .. } => {
                let lhs = operand_constant(lhs)?;
                let rhs = operand_constant(rhs)?;
                Ok(Expression::BinaryBitwise { bits, length, opcode, lhs, rhs })
            },
            Instruction::BinaryShift { bits, length, opcode, lhs, rhs, .. } => {
                let lhs = operand_constant(lhs)?;
                let rhs = operand_constant(rhs)?;
                Ok(Expression::BinaryShift { bits, length, opcode, lhs, rhs })
            },
            Instruction::CompareBitvec { bits, number, length, predicate, lhs, rhs, .. } => {
                let lhs = operand_constant(lhs)?;
                let rhs = operand_constant(rhs)?;
                Ok(Expression::CompareBitvec { bits, number, length, predicate, lhs, rhs })
            },
            Instruction::CompareOrder { bits, length, ordered, lhs, rhs, .. } => {
                let lhs = operand_constant(lhs)?;
                let rhs = operand_constant(rhs)?;
                Ok(Expression::CompareOrder { bits, length, ordered, lhs, rhs })
            },
            Instruction::ComparePtr { predicate, lhs, rhs, .. } => {
                let lhs = operand_constant(lhs)?;
                let rhs = operand_constant(rhs)?;
                Ok(Expression::ComparePtr { predicate, lhs, rhs })
            },
            Instruction::CastBitvecSize { bits_from, bits_into, number, length, operand, .. } => {
                let operand = operand_constant(operand)?;
                Ok(Expression::CastBitvecSize { bits_from, bits_into, number, length, operand })
            },
            Instruction::CastBitvecRepr {
                bits_from,
                bits_into,
                number_from,
                number_into,
                length,
                operand,
                ..
            } => {
                let operand = operand_constant(operand)?;
                Ok(
                    Expression::CastBitvecRepr {
                        bits_from,
                        bits_into,
                        number_from,
                        number_into,
                        length,
                        operand,
                    },
                )
            },
            Instruction::CastBitvecFree {
                bits_from,
                bits_into,
                number_from,
                number_into,
                length_from,
                length_into,
                operand,
                ..
            } => {
                let operand = operand_constant(operand)?;
                Ok(
                    Expression::CastBitvecFree {
                        bits_from,
                        bits_into,
                        number_from,
                        number_into,
                        length_from,
                        length_into,
                        operand,
                    },
                )
            },
            Instruction::CastPtr { operand, .. } => {
                let operand = operand_constant(operand)?;
                Ok(Expression::CastPtr { operand })
            },
            Instruction::CastPtrToInt { bits_into, operand, .. } => {
                let operand = operand_constant(operand)?;
                Ok(Expression::CastPtrToInt { bits_into, operand })
            },
            Instruction::CastIntToPtr { bits_from, operand, .. } => {
                let operand = operand_constant(operand)?;
                Ok(Expression::CastIntToPtr { bits_from, operand })
            },
            Instruction::GEP { src_pointee_type, dst_pointee_type, pointer, offset, indices, .. } => {
                let indices = convert_indices(indices)?;
                let pointer = operand_constant(pointer)?;
                let offset = operand_constant(offset)?;
                Ok(Expression::GEP { src_pointee_type, dst_pointee_type, pointer, offset, indices })
            },
            Instruction::ITEOne { cond, then_value, else_value, .. } => {
                let cond = operand_constant(cond)?;
                let then_value = operand_constant(then_value)?;
                let else_value = operand_constant(else_value)?;
                Ok(Expression::ITEOne { cond, then_value, else_value })
            },
            Instruction::ITEVec { bits, number, length, cond, then_value, else_value, .. } => {
                let cond = operand_constant(cond)?;
                let then_value = operand_constant(then_value)?;
                let else_value = operand_constant(else_value)?;
                Ok(Expression::ITEVec { bits, number, length, cond, then_value, else_value })
            },
            Instruction::GetValue { src_ty, dst_ty, aggregate, indices, .. } => {
                let aggregate = operand_constant(aggregate)?;
                Ok(Expression::GetValue { src_ty, dst_ty, aggregate, indices })
            },
            Instruction::SetValue { aggregate, value, indices, .. } => {
                let aggregate = operand_constant(aggregate)?;
                let value = operand_constant(value)?;
                Ok(Expression::SetValue { aggregate, value, indices })
            },
            Instruction::GetElement { bits, number, length, vector, slot, .. } => {
                let vector = operand_constant(vector)?;
                let slot = operand_constant(slot)?;
                Ok(Expression::GetElement { bits, number, length, vector, slot })
            },
            Instruction::SetElement { bits, number, length, vector, value, slot, .. } => {
                let vector = operand_constant(vector)?;
                let value = operand_constant(value)?;
                let slot = operand_constant(slot)?;
                Ok(Expression::SetElement { bits, number, length, vector, value, slot })
            },
            Instruction::ShuffleVec { bits, number, length, lhs, rhs, mask, .. } => {
                let lhs = operand_constant(lhs)?;
                let rhs = operand_constant(rhs)?;
                Ok(Expression::ShuffleVec { bits, number, length, lhs, rhs, mask })
            },
            _ => Err(EngineError::InvalidAssumption("unexpected instruction type for const expr".to_owned())),
        }
    }
}

} // verus!
