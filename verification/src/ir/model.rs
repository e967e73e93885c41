use vstd::prelude::*;

use crate::ir::constant::{Constant, Expression, GEPConstIndex, NumValue};
use crate::ir::instruction::{GEPIndex, Instruction, Terminator};
use crate::ir::operator::{
    BinaryOpArith, BinaryOpBitwise, BinaryOpShift, ComparePredicate, UnaryOpArith,
};
use crate::ir::typing::{name_model, type_models, NumRepr, TypeModel};
use crate::ir::value::{BlockLabel, RegisterSlot, Value};

verus! {

/// The mathematical model of a [`Value`].
pub enum ValueModel {
    Constant(ConstModel),
    Argument { index: usize, ty: TypeModel },
    Register { index: usize, ty: TypeModel },
}

/// The mathematical model of a [`Constant`]: names as character sequences, lists as sequences.
pub enum ConstModel {
    NumOne { bits: usize, value: NumValue },
    NumVec { bits: usize, number: NumRepr, elements: Seq<ConstModel> },
    Null,
    UndefPointer,
    Array { sub: TypeModel, elements: Seq<ConstModel> },
    Struct { name: Option<Seq<char>>, fields: Seq<ConstModel> },
    Variable { name: Seq<char> },
    Function { name: Seq<char> },
    Expr(Box<ExprModel>),
}

/// The mathematical model of a [`GEPConstIndex`].
pub enum ConstIndexModel {
    Array(ConstModel),
    Struct(usize),
    Vector(ConstModel),
}

/// The mathematical model of an [`Expression`].
pub enum ExprModel {
    UnaryArith { bits: usize, number: NumRepr, length: Option<usize>, opcode: UnaryOpArith, operand: ConstModel },
    BinaryArith {
        bits: usize,
        number: NumRepr,
        length: Option<usize>,
        opcode: BinaryOpArith,
        lhs: ConstModel,
        rhs: ConstModel,
    },
    BinaryBitwise { bits: usize, length: Option<usize>, opcode: BinaryOpBitwise, lhs: ConstModel, rhs: ConstModel },
    BinaryShift { bits: usize, length: Option<usize>, opcode: BinaryOpShift, lhs: ConstModel, rhs: ConstModel },
    CompareBitvec {
        bits: usize,
        number: NumRepr,
        length: Option<usize>,
        predicate: ComparePredicate,
        lhs: ConstModel,
        rhs: ConstModel,
    },
    CompareOrder { bits: usize, length: Option<usize>, ordered: bool, lhs: ConstModel, rhs: ConstModel },
    ComparePtr { predicate: ComparePredicate, lhs: ConstModel, rhs: ConstModel },
    CastBitvecSize { bits_from: usize, bits_into: usize, number: NumRepr, length: Option<usize>, operand: ConstModel },
    CastBitvecRepr {
        bits_from: usize,
        bits_into: usize,
        number_from: NumRepr,
        number_into: NumRepr,
        length: Option<usize>,
        operand: ConstModel,
    },
    CastBitvecFree {
        bits_from: usize,
        bits_into: usize,
        number_from: NumRepr,
        number_into: NumRepr,
        length_from: Option<usize>,
        length_into: Option<usize>,
        operand: ConstModel,
    },
    CastPtr { operand: ConstModel },
    CastPtrToInt { bits_into: usize, operand: ConstModel },
    CastIntToPtr { bits_from: usize, operand: ConstModel },
    GEP {
        src_pointee_type: TypeModel,
        dst_pointee_type: TypeModel,
        pointer: ConstModel,
        offset: ConstModel,
        indices: Seq<ConstIndexModel>,
    },
    GEPNop { pointee_type: TypeModel, pointer: ConstModel },
    ITEOne { cond: ConstModel, then_value: ConstModel, else_value: ConstModel },
    ITEVec {
        bits: usize,
        number: NumRepr,
        length: usize,
        cond: ConstModel,
        then_value: ConstModel,
        else_value: ConstModel,
    },
    GetValue { src_ty: TypeModel, dst_ty: TypeModel, aggregate: ConstModel, indices: Seq<usize> },
    SetValue { aggregate: ConstModel, value: ConstModel, indices: Seq<usize> },
    GetElement { bits: usize, number: NumRepr, length: usize, vector: ConstModel, slot: ConstModel },
    SetElement {
        bits: usize,
        number: NumRepr,
        length: usize,
        vector: ConstModel,
        value: ConstModel,
        slot: ConstModel,
    },
    ShuffleVec { bits: usize, number: NumRepr, length: usize, lhs: ConstModel, rhs: ConstModel, mask: Seq<i128> },
}

/// The mathematical model of a [`GEPIndex`].
pub enum IndexModel {
    Array(ValueModel),
    Struct(usize),
    Vector(ValueModel),
}

/// The mathematical model of an [`Instruction`].
pub enum InstModel {
    Alloca { base_type: TypeModel, size: Option<ValueModel>, result: RegisterSlot },
    Load { pointee_type: TypeModel, pointer: ValueModel, result: RegisterSlot },
    Store { pointee_type: TypeModel, pointer: ValueModel, value: ValueModel },
    VariadicArg { pointer: ValueModel },
    CallDirect { function: Seq<char>, args: Seq<ValueModel>, result: Option<(TypeModel, RegisterSlot)> },
    CallIndirect { callee: ValueModel, args: Seq<ValueModel>, result: Option<(TypeModel, RegisterSlot)> },
    UnaryArith {
        bits: usize,
        number: NumRepr,
        length: Option<usize>,
        opcode: UnaryOpArith,
        operand: ValueModel,
        result: RegisterSlot,
    },
    BinaryArith {
        bits: usize,
        number: NumRepr,
        length: Option<usize>,
        opcode: BinaryOpArith,
        lhs: ValueModel,
        rhs: ValueModel,
        result: RegisterSlot,
    },
    BinaryBitwise {
        bits: usize,
        length: Option<usize>,
        opcode: BinaryOpBitwise,
        lhs: ValueModel,
        rhs: ValueModel,
        result: RegisterSlot,
    },
    BinaryShift {
        bits: usize,
        length: Option<usize>,
        opcode: BinaryOpShift,
        lhs: ValueModel,
        rhs: ValueModel,
        result: RegisterSlot,
    },
    CompareBitvec {
        bits: usize,
        number: NumRepr,
        length: Option<usize>,
        predicate: ComparePredicate,
        lhs: ValueModel,
        rhs: ValueModel,
        result: RegisterSlot,
    },
    CompareOrder {
        bits: usize,
        length: Option<usize>,
        ordered: bool,
        lhs: ValueModel,
        rhs: ValueModel,
        result: RegisterSlot,
    },
    ComparePtr { predicate: ComparePredicate, lhs: ValueModel, rhs: ValueModel, result: RegisterSlot },
    CastBitvecSize {
        bits_from: usize,
        bits_into: usize,
        number: NumRepr,
        length: Option<usize>,
        operand: ValueModel,
        result: RegisterSlot,
    },
    CastBitvecRepr {
        bits_from: usize,
        bits_into: usize,
        number_from: NumRepr,
        number_into: NumRepr,
        length: Option<usize>,
        operand: ValueModel,
        result: RegisterSlot,
    },
    CastBitvecFree {
        bits_from: usize,
        bits_into: usize,
        number_from: NumRepr,
        number_into: NumRepr,
        length_from: Option<usize>,
        length_into: Option<usize>,
        operand: ValueModel,
        result: RegisterSlot,
    },
    CastPtr { operand: ValueModel, result: RegisterSlot },
    CastPtrToInt { bits_into: usize, operand: ValueModel, result: RegisterSlot },
    CastIntToPtr { bits_from: usize, operand: ValueModel, result: RegisterSlot },
    FreezeBitvec { bits: usize, number: NumRepr },
    FreezePtr,
    FreezeNop { value: ValueModel },
    GEP {
        src_pointee_type: TypeModel,
        dst_pointee_type: TypeModel,
        pointer: ValueModel,
        offset: ValueModel,
        indices: Seq<IndexModel>,
        result: RegisterSlot,
    },
    ITEOne { cond: ValueModel, then_value: ValueModel, else_value: ValueModel, result: RegisterSlot },
    ITEVec {
        bits: usize,
        number: NumRepr,
        length: usize,
        cond: ValueModel,
        then_value: ValueModel,
        else_value: ValueModel,
        result: RegisterSlot,
    },
    Phi { options: Seq<(BlockLabel, ValueModel)>, result: RegisterSlot },
    GetValue { src_ty: TypeModel, dst_ty: TypeModel, aggregate: ValueModel, indices: Seq<usize>, result: RegisterSlot },
    SetValue { aggregate: ValueModel, value: ValueModel, indices: Seq<usize>, result: RegisterSlot },
    GetElement {
        bits: usize,
        number: NumRepr,
        length: usize,
        vector: ValueModel,
        slot: ValueModel,
        result: RegisterSlot,
    },
    SetElement {
        bits: usize,
        number: NumRepr,
        length: usize,
        vector: ValueModel,
        value: ValueModel,
        slot: ValueModel,
        result: RegisterSlot,
    },
    ShuffleVec {
        bits: usize,
        number: NumRepr,
        length: usize,
        lhs: ValueModel,
        rhs: ValueModel,
        mask: Seq<i128>,
        result: RegisterSlot,
    },
}

/// The mathematical model of a [`Terminator`].
pub enum TermModel {
    Return { val: Option<ValueModel> },
    Goto { target: BlockLabel },
    Branch { cond: ValueModel, then_case: BlockLabel, else_case: BlockLabel },
    Switch { cond: ValueModel, cases: Seq<(u64, BlockLabel)>, default: Option<BlockLabel> },
    Unreachable,
}

/// The models of a list of constants.
pub open spec fn const_models(v: Seq<Constant>) -> Seq<ConstModel>
    decreases v,
{
    Seq::new(v.len(), |i: int| if 0 <= i < v.len() { v[i].model() } else { ConstModel::Null })
}

/// The models of a list of constant indices.
pub open spec fn const_index_models(v: Seq<GEPConstIndex>) -> Seq<ConstIndexModel>
    decreases v,
{
    Seq::new(v.len(), |i: int| if 0 <= i < v.len() { v[i].model() } else { ConstIndexModel::Struct(0) })
}

impl Constant {
    pub open spec fn model(&self) -> ConstModel
        decreases self,
    {
        match self {
            Constant::NumOne { bits, value } => ConstModel::NumOne { bits: *bits, value: *value },
            Constant::NumVec { bits, number, elements } => ConstModel::NumVec {
                bits: *bits,
                number: *number,
                elements: const_models(elements@),
            },
            Constant::Null => ConstModel::Null,
            Constant::UndefPointer => ConstModel::UndefPointer,
            Constant::Array { sub, elements } => ConstModel::Array {
                sub: sub.model(),
                elements: const_models(elements@),
            },
            Constant::Struct { name, fields } => ConstModel::Struct {
                name: name_model(*name),
                fields: const_models(fields@),
            },
            Constant::Variable { name } => ConstModel::Variable { name: name.0@ },
            Constant::Function { name } => ConstModel::Function { name: name.0@ },
            Constant::Expr(e) => ConstModel::Expr(Box::new(e.model())),
        }
    }
}

impl GEPConstIndex {
    pub open spec fn model(&self) -> ConstIndexModel
        decreases self,
    {
        match self {
            GEPConstIndex::Array(c) => ConstIndexModel::Array(c.model()),
            GEPConstIndex::Struct(s) => ConstIndexModel::Struct(*s),
            GEPConstIndex::Vector(c) => ConstIndexModel::Vector(c.model()),
        }
    }
}

impl Expression {
    pub open spec fn model(&self) -> ExprModel
        decreases self,
    {
        match self {
            Expression::UnaryArith { bits, number, length, opcode, operand } => ExprModel::UnaryArith {
                bits: *bits,
                number: *number,
                length: *length,
                opcode: *opcode,
                operand: operand.model(),
            },
            Expression::BinaryArith { bits, number, length, opcode, lhs, rhs } => ExprModel::BinaryArith {
                bits: *bits,
                number: *number,
                length: *length,
                opcode: *opcode,
                lhs: lhs.model(),
                rhs: rhs.model(),
            },
            Expression::BinaryBitwise { bits, length, opcode, lhs, rhs } => ExprModel::BinaryBitwise {
                bits: *bits,
                length: *length,
                opcode: *opcode,
                lhs: lhs.model(),
                rhs: rhs.model(),
            },
            Expression::BinaryShift { bits, length, opcode, lhs, rhs } => ExprModel::BinaryShift {
                bits: *bits,
                length: *length,
                opcode: *opcode,
                lhs: lhs.model(),
                rhs: rhs.model(),
            },
            Expression::CompareBitvec { bits, number, length, predicate, lhs, rhs } => ExprModel::CompareBitvec {
                bits: *bits,
                number: *number,
                length: *length,
                predicate: *predicate,
                lhs: lhs.model(),
                rhs: rhs.model(),
            },
            Expression::CompareOrder { bits, length, ordered, lhs, rhs } => ExprModel::CompareOrder {
                bits: *bits,
                length: *length,
                ordered: *ordered,
                lhs: lhs.model(),
                rhs: rhs.model(),
            },
            Expression::ComparePtr { predicate, lhs, rhs } => ExprModel::ComparePtr {
                predicate: *predicate,
                lhs: lhs.model(),
                rhs: rhs.model(),
            },
            Expression::CastBitvecSize { bits_from, bits_into, number, length, operand } => ExprModel::CastBitvecSize {
                bits_from: *bits_from,
                bits_into: *bits_into,
                number: *number,
                length: *length,
                operand: operand.model(),
            },
            Expression::CastBitvecRepr { bits_from, bits_into, number_from, number_into, length, operand } => {
                ExprModel::CastBitvecRepr {
                    bits_from: *bits_from,
                    bits_into: *bits_into,
                    number_from: *number_from,
                    number_into: *number_into,
                    length: *length,
                    operand: operand.model(),
                }
            },
            Expression::CastBitvecFree {
                bits_from,
                bits_into,
                number_from,
                number_into,
                length_from,
                length_into,
                operand,
            } => ExprModel::CastBitvecFree {
                bits_from: *bits_from,
                bits_into: *bits_into,
                number_from: *number_from,
                number_into: *number_into,
                length_from: *length_from,
                length_into: *length_into,
                operand: operand.model(),
            },
            Expression::CastPtr { operand } => ExprModel::CastPtr { operand: operand.model() },
            Expression::CastPtrToInt { bits_into, operand } => ExprModel::CastPtrToInt {
                bits_into: *bits_into,
                operand: operand.model(),
            },
            Expression::CastIntToPtr { bits_from, operand } => ExprModel::CastIntToPtr {
                bits_from: *bits_from,
                operand: operand.model(),
            },
            Expression::GEP { src_pointee_type, dst_pointee_type, pointer, offset, indices } => ExprModel::GEP {
                src_pointee_type: src_pointee_type.model(),
                dst_pointee_type: dst_pointee_type.model(),
                pointer: pointer.model(),
                offset: offset.model(),
                indices: const_index_models(indices@),
            },
            Expression::GEPNop { pointee_type, pointer } => ExprModel::GEPNop {
                pointee_type: pointee_type.model(),
                pointer: pointer.model(),
            },
            Expression::ITEOne { cond, then_value, else_value } => ExprModel::ITEOne {
                cond: cond.model(),
                then_value: then_value.model(),
                else_value: else_value.model(),
            },
            Expression::ITEVec { bits, number, length, cond, then_value, else_value } => ExprModel::ITEVec {
                bits: *bits,
                number: *number,
                length: *length,
                cond: cond.model(),
                then_value: then_value.model(),
                else_value: else_value.model(),
            },
            Expression::GetValue { src_ty, dst_ty, aggregate, indices } => ExprModel::GetValue {
                src_ty: src_ty.model(),
                dst_ty: dst_ty.model(),
                aggregate: aggregate.model(),
                indices: indices@,
            },
            Expression::SetValue { aggregate, value, indices } => ExprModel::SetValue {
                aggregate: aggregate.model(),
                value: value.model(),
                indices: indices@,
            },
            Expression::GetElement { bits, number, length, vector, slot } => ExprModel::GetElement {
                bits: *bits,
                number: *number,
                length: *length,
                vector: vector.model(),
                slot: slot.model(),
            },
            Expression::SetElement { bits, number, length, vector, value, slot } => ExprModel::SetElement {
                bits: *bits,
                number: *number,
                length: *length,
                vector: vector.model(),
                value: value.model(),
                slot: slot.model(),
            },
            Expression::ShuffleVec { bits, number, length, lhs, rhs, mask } => ExprModel::ShuffleVec {
                bits: *bits,
                number: *number,
                length: *length,
                lhs: lhs.model(),
                rhs: rhs.model(),
                mask: mask@,
            },
        }
    }
}

impl Value {
    pub open spec fn model(&self) -> ValueModel {
        match self {
            Value::Constant(c) => ValueModel::Constant(c.model()),
            Value::Argument { index, ty } => ValueModel::Argument { index: index.0, ty: ty.model() },
            Value::Register { index, ty } => ValueModel::Register { index: index.0, ty: ty.model() },
        }
    }
}

/// The models of a list of values.
pub open spec fn value_models(v: Seq<Value>) -> Seq<ValueModel> {
    v.map_values(|x: Value| x.model())
}

/// The model of an optional value.
pub open spec fn opt_value_model(v: Option<Value>) -> Option<ValueModel> {
    match v {
        Some(x) => Some(x.model()),
        None => None,
    }
}

impl GEPIndex {
    pub open spec fn model(&self) -> IndexModel {
        match self {
            GEPIndex::Array(v) => IndexModel::Array(v.model()),
            GEPIndex::Struct(s) => IndexModel::Struct(*s),
            GEPIndex::Vector(v) => IndexModel::Vector(v.model()),
        }
    }
}

/// The models of a list of indices.
pub open spec fn index_models(v: Seq<GEPIndex>) -> Seq<IndexModel> {
    v.map_values(|x: GEPIndex| x.model())
}

/// The models of the incoming edges of a phi node.
pub open spec fn option_models(v: Seq<(BlockLabel, Value)>) -> Seq<(BlockLabel, ValueModel)> {
    v.map_values(|x: (BlockLabel, Value)| (x.0, x.1.model()))
}

/// The model of the result of a call.
pub open spec fn call_result_model(r: Option<(crate::ir::typing::Type, RegisterSlot)>) -> Option<(TypeModel, RegisterSlot)> {
    match r {
        Some((t, s)) => Some((t.model(), s)),
        None => None,
    }
}

impl Instruction {
    pub open spec fn model(&self) -> InstModel {
        match self {
            Instruction::Alloca { base_type, size, result } => InstModel::Alloca {
                base_type: base_type.model(),
                size: opt_value_model(*size),
                result: *result,
            },
            Instruction::Load { pointee_type, pointer, result } => InstModel::Load {
                pointee_type: pointee_type.model(),
                pointer: pointer.model(),
                result: *result,
            },
            Instruction::Store { pointee_type, pointer, value } => InstModel::Store {
                pointee_type: pointee_type.model(),
                pointer: pointer.model(),
                value: value.model(),
            },
            Instruction::VariadicArg { pointer } => InstModel::VariadicArg { pointer: pointer.model() },
            Instruction::CallDirect { function, args, result } => InstModel::CallDirect {
                function: function.0@,
                args: value_models(args@),
                result: call_result_model(*result),
            },
            Instruction::CallIndirect { callee, args, result } => InstModel::CallIndirect {
                callee: callee.model(),
                args: value_models(args@),
                result: call_result_model(*result),
            },
            Instruction::UnaryArith { bits, number, length, opcode, operand, result } => InstModel::UnaryArith {
                bits: *bits,
                number: *number,
                length: *length,
                opcode: *opcode,
                operand: operand.model(),
                result: *result,
            },
            Instruction::BinaryArith { bits, number, length, opcode, lhs, rhs, result } => InstModel::BinaryArith {
                bits: *bits,
                number: *number,
                length: *length,
                opcode: *opcode,
                lhs: lhs.model(),
                rhs: rhs.model(),
                result: *result,
            },
            Instruction::BinaryBitwise { bits, length, opcode, lhs, rhs, result } => InstModel::BinaryBitwise {
                bits: *bits,
                length: *length,
                opcode: *opcode,
                lhs: lhs.model(),
                rhs: rhs.model(),
                result: *result,
            },
            Instruction::BinaryShift { bits, length, opcode, lhs, rhs, result } => InstModel::BinaryShift {
                bits: *bits,
                length: *length,
                opcode: *opcode,
                lhs: lhs.model(),
                rhs: rhs.model(),
                result: *result,
            },
            Instruction::CompareBitvec { bits, number, length, predicate, lhs, rhs, result } => {
                InstModel::CompareBitvec {
                    bits: *bits,
                    number: *number,
                    length: *length,
                    predicate: *predicate,
                    lhs: lhs.model(),
                    rhs: rhs.model(),
                    result: *result,
                }
            },
            Instruction::CompareOrder { bits, length, ordered, lhs, rhs, result } => InstModel::CompareOrder {
                bits: *bits,
                length: *length,
                ordered: *ordered,
                lhs: lhs.model(),
                rhs: rhs.model(),
                result: *result,
            },
            Instruction::ComparePtr { predicate, lhs, rhs, result } => InstModel::ComparePtr {
                predicate: *predicate,
                lhs: lhs.model(),
                rhs: rhs.model(),
                result: *result,
            },
            Instruction::CastBitvecSize { bits_from, bits_into, number, length, operand, result } => {
                InstModel::CastBitvecSize {
                    bits_from: *bits_from,
                    bits_into: *bits_into,
                    number: *number,
                    length: *length,
                    operand: operand.model(),
                    result: *result,
                }
            },
            Instruction::CastBitvecRepr {
                bits_from,
                bits_into,
                number_from,
                number_into,
                length,
                operand,
                result,
            } => InstModel::CastBitvecRepr {
                bits_from: *bits_from,
                bits_into: *bits_into,
                number_from: *number_from,
                number_into: *number_into,
                length: *length,
                operand: operand.model(),
                result: *result,
            },
            Instruction::CastBitvecFree {
                bits_from,
                bits_into,
                number_from,
                number_into,
                length_from,
                length_into,
                operand,
                result,
            } => InstModel::CastBitvecFree {
                bits_from: *bits_from,
                bits_into: *bits_into,
                number_from: *number_from,
                number_into: *number_into,
                length_from: *length_from,
                length_into: *length_into,
                operand: operand.model(),
                result: *result,
            },
            Instruction::CastPtr { operand, result } => InstModel::CastPtr {
                operand: operand.model(),
                result: *result,
            },
            Instruction::CastPtrToInt { bits_into, operand, result } => InstModel::CastPtrToInt {
                bits_into: *bits_into,
                operand: operand.model(),
                result: *result,
            },
            Instruction::CastIntToPtr { bits_from, operand, result } => InstModel::CastIntToPtr {
                bits_from: *bits_from,
                operand: operand.model(),
                result: *result,
            },
            Instruction::FreezeBitvec { bits, number } => InstModel::FreezeBitvec { bits: *bits, number: *number },
            Instruction::FreezePtr => InstModel::FreezePtr,
            Instruction::FreezeNop { value } => InstModel::FreezeNop { value: value.model() },
            Instruction::GEP { src_pointee_type, dst_pointee_type, pointer, offset, indices, result } => {
                InstModel::GEP {
                    src_pointee_type: src_pointee_type.model(),
                    dst_pointee_type: dst_pointee_type.model(),
                    pointer: pointer.model(),
                    offset: offset.model(),
                    indices: index_models(indices@),
                    result: *result,
                }
            },
            Instruction::ITEOne { cond, then_value, else_value, result } => InstModel::ITEOne {
                cond: cond.model(),
                then_value: then_value.model(),
                else_value: else_value.model(),
                result: *result,
            },
            Instruction::ITEVec { bits, number, length, cond, then_value, else_value, result } => InstModel::ITEVec {
                bits: *bits,
                number: *number,
                length: *length,
                cond: cond.model(),
                then_value: then_value.model(),
                else_value: else_value.model(),
                result: *result,
            },
            Instruction::Phi { options, result } => InstModel::Phi {
                options: option_models(options@),
                result: *result,
            },
            Instruction::GetValue { src_ty, dst_ty, aggregate, indices, result } => InstModel::GetValue {
                src_ty: src_ty.model(),
                dst_ty: dst_ty.model(),
                aggregate: aggregate.model(),
                indices: indices@,
                result: *result,
            },
            Instruction::SetValue { aggregate, value, indices, result } => InstModel::SetValue {
                aggregate: aggregate.model(),
                value: value.model(),
                indices: indices@,
                result: *result,
            },
            Instruction::GetElement { bits, number, length, vector, slot, result } => InstModel::GetElement {
                bits: *bits,
                number: *number,
                length: *length,
                vector: vector.model(),
                slot: slot.model(),
                result: *result,
            },
            Instruction::SetElement { bits, number, length, vector, value, slot, result } => InstModel::SetElement {
                bits: *bits,
                number: *number,
                length: *length,
                vector: vector.model(),
                value: value.model(),
                slot: slot.model(),
                result: *result,
            },
            Instruction::ShuffleVec { bits, number, length, lhs, rhs, mask, result } => InstModel::ShuffleVec {
                bits: *bits,
                number: *number,
                length: *length,
                lhs: lhs.model(),
                rhs: rhs.model(),
                mask: mask@,
                result: *result,
            },
        }
    }
}

impl Terminator {
    pub open spec fn model(&self) -> TermModel {
        match self {
            Terminator::Return { val } => TermModel::Return { val: opt_value_model(*val) },
            Terminator::Goto { target } => TermModel::Goto { target: *target },
            Terminator::Branch { cond, then_case, else_case } => TermModel::Branch {
                cond: cond.model(),
                then_case: *then_case,
                else_case: *else_case,
            },
            Terminator::Switch { cond, cases, default } => TermModel::Switch {
                cond: cond.model(),
                cases: cases@,
                default: *default,
            },
            Terminator::Unreachable => TermModel::Unreachable,
        }
    }
}

} // verus!
