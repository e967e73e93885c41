use vstd::prelude::*;

use crate::ir::operator::{
    BinaryOpArith, BinaryOpBitwise, BinaryOpShift, ComparePredicate, UnaryOpArith,
};
use crate::ir::shared::Identifier;
use crate::ir::typing::{NumRepr, Type};
use crate::ir::value::{BlockLabel, RegisterSlot, Value};

verus! {

/// A plain representation of an LLVM instruction
#[derive(Debug)]
pub enum Instruction {
    // memory access
    Alloca { base_type: Type, size: Option<Value>, result: RegisterSlot },
    Load { pointee_type: Type, pointer: Value, result: RegisterSlot },
    Store { pointee_type: Type, pointer: Value, value: Value },
    // variadic argument
    VariadicArg { pointer: Value },
    // call
    CallDirect { function: Identifier, args: Vec<Value>, result: Option<(Type, RegisterSlot)> },
    CallIndirect { callee: Value, args: Vec<Value>, result: Option<(Type, RegisterSlot)> },
    // unary
    UnaryArith {
        bits: usize,
        number: NumRepr,
        length: Option<usize>,
        opcode: UnaryOpArith,
        operand: Value,
        result: RegisterSlot,
    },
    // binary
    BinaryArith {
        bits: usize,
        number: NumRepr,
        length: Option<usize>,
        opcode: BinaryOpArith,
        lhs: Value,
        rhs: Value,
        result: RegisterSlot,
    },
    BinaryBitwise {
        bits: usize,
        length: Option<usize>,
        opcode: BinaryOpBitwise,
        lhs: Value,
        rhs: Value,
        result: RegisterSlot,
    },
    BinaryShift {
        bits: usize,
        length: Option<usize>,
        opcode: BinaryOpShift,
        lhs: Value,
        rhs: Value,
        result: RegisterSlot,
    },
    // compare
    CompareBitvec {
        bits: usize,
        number: NumRepr,
        length: Option<usize>,
        predicate: ComparePredicate,
        lhs: Value,
        rhs: Value,
        result: RegisterSlot,
    },
    CompareOrder {
        bits: usize,
        length: Option<usize>,
        ordered: bool,
        lhs: Value,
        rhs: Value,
        result: RegisterSlot,
    },
    ComparePtr { predicate: ComparePredicate, lhs: Value, rhs: Value, result: RegisterSlot },
    // cast
    CastBitvecSize {
        bits_from: usize,
        bits_into: usize,
        number: NumRepr,
        length: Option<usize>,
        operand: Value,
        result: RegisterSlot,
    },
    CastBitvecRepr {
        bits_from: usize,
        bits_into: usize,
        number_from: NumRepr,
        number_into: NumRepr,
        length: Option<usize>,
        operand: Value,
        result: RegisterSlot,
    },
    CastBitvecFree {
        bits_from: usize,
        bits_into: usize,
        number_from: NumRepr,
        number_into: NumRepr,
        length_from: Option<usize>,
        length_into: Option<usize>,
        operand: Value,
        result: RegisterSlot,
    },
    CastPtr { operand: Value, result: RegisterSlot },
    CastPtrToInt { bits_into: usize, operand: Value, result: RegisterSlot },
    CastIntToPtr { bits_from: usize, operand: Value, result: RegisterSlot },
    // freeze
    FreezeBitvec { bits: usize, number: NumRepr },
    FreezePtr,
    FreezeNop { value: Value },
    // GEP
    GEP {
        src_pointee_type: Type,
        dst_pointee_type: Type,
        pointer: Value,
        offset: Value,
        indices: Vec<GEPIndex>,
        result: RegisterSlot,
    },
    // selection
    ITEOne { cond: Value, then_value: Value, else_value: Value, result: RegisterSlot },
    ITEVec {
        bits: usize,
        number: NumRepr,
        length: usize,
        cond: Value,
        then_value: Value,
        else_value: Value,
        result: RegisterSlot,
    },
    Phi { options: Vec<(BlockLabel, Value)>, result: RegisterSlot },
    // aggregation
    GetValue {
        src_ty: Type,
        dst_ty: Type,
        aggregate: Value,
        indices: Vec<usize>,
        result: RegisterSlot,
    },
    SetValue { aggregate: Value, value: Value, indices: Vec<usize>, result: RegisterSlot },
    GetElement {
        bits: usize,
        number: NumRepr,
        length: usize,
        vector: Value,
        slot: Value,
        result: RegisterSlot,
    },
    SetElement {
        bits: usize,
        number: NumRepr,
        length: usize,
        vector: Value,
        value: Value,
        slot: Value,
        result: RegisterSlot,
    },
    ShuffleVec {
        bits: usize,
        number: NumRepr,
        length: usize,
        lhs: Value,
        rhs: Value,
        mask: Vec<i128>,
        result: RegisterSlot,
    },
}

/// Represents an index into an aggregate in the GEP instruction
#[derive(Debug)]
pub enum GEPIndex {
    /// element index in array
    Array(Value),
    /// field index in struct
    Struct(usize),
    /// slot index in vector
    Vector(Value),
}

/// A plain representation of an LLVM terminator instruction
#[derive(Debug)]
pub enum Terminator {
    /// function return
    Return { val: Option<Value> },
    /// unconditional branch
    Goto { target: BlockLabel },
    /// conditional branch
    Branch { cond: Value, then_case: BlockLabel, else_case: BlockLabel },
    /// switch
    Switch { cond: Value, cases: Vec<(u64, BlockLabel)>, default: Option<BlockLabel> },
    /// enters an unreachable state
    Unreachable,
}


/// The register that an instruction defines, if any.
pub open spec fn result_of(inst: &Instruction) -> Option<RegisterSlot> {
    match inst {
        Instruction::Alloca { result, .. } => Some(*result),
        Instruction::Load { result, .. } => Some(*result),
        Instruction::UnaryArith { result, .. } => Some(*result),
        Instruction::BinaryArith { result, .. } => Some(*result),
        Instruction::BinaryBitwise { result, .. } => Some(*result),
        Instruction::BinaryShift { result, .. } => Some(*result),
        Instruction::CompareBitvec { result, .. } => Some(*result),
        Instruction::CompareOrder { result, .. } => Some(*result),
        Instruction::ComparePtr { result, .. } => Some(*result),
        Instruction::CastBitvecSize { result, .. } => Some(*result),
        Instruction::CastBitvecRepr { result, .. } => Some(*result),
        Instruction::CastBitvecFree { result, .. } => Some(*result),
        Instruction::CastPtr { result, .. } => Some(*result),
        Instruction::CastPtrToInt { result, .. } => Some(*result),
        Instruction::CastIntToPtr { result, .. } => Some(*result),
        Instruction::GEP { result, .. } => Some(*result),
        Instruction::ITEOne { result, .. } => Some(*result),
        Instruction::ITEVec { result, .. } => Some(*result),
        Instruction::Phi { result, .. } => Some(*result),
        Instruction::GetValue { result, .. } => Some(*result),
        Instruction::SetValue { result, .. } => Some(*result),
        Instruction::GetElement { result, .. } => Some(*result),
        Instruction::SetElement { result, .. } => Some(*result),
        Instruction::ShuffleVec { result, .. } => Some(*result),
        Instruction::CallDirect { result, .. } => match result {
            Some((_, r)) => Some(*r),
            None => None,
        },
        Instruction::CallIndirect { result, .. } => match result {
            Some((_, r)) => Some(*r),
            None => None,
        },
        _ => None,
    }
}

impl Instruction {
    /// The register that the instruction defines, if any.
    pub fn result_register(&self) -> (r: Option<RegisterSlot>)
        ensures
            r == result_of(self),
    {
        match self {
            Instruction::Alloca { result, .. } => Some(*result),
            Instruction::Load { result, .. } => Some(*result),
            Instruction::UnaryArith { result, .. } => Some(*result),
            Instruction::BinaryArith { result, .. } => Some(*result),
            Instruction::BinaryBitwise { result, .. } => Some(*result),
            Instruction::BinaryShift { result, .. } => Some(*result),
            Instruction::CompareBitvec { result, .. } => Some(*result),
            Instruction::CompareOrder { result, .. } => Some(*result),
            Instruction::ComparePtr { result, .. } => Some(*result),
            Instruction::CastBitvecSize { result, .. } => Some(*result),
            Instruction::CastBitvecRepr { result, .. } => Some(*result),
            Instruction::CastBitvecFree { result, .. } => Some(*result),
            Instruction::CastPtr { result, .. } => Some(*result),
            Instruction::CastPtrToInt { result, .. } => Some(*result),
            Instruction::CastIntToPtr { result, .. } => Some(*result),
            Instruction::GEP { result, .. } => Some(*result),
            Instruction::ITEOne { result, .. } => Some(*result),
            Instruction::ITEVec { result, .. } => Some(*result),
            Instruction::Phi { result, .. } => Some(*result),
            Instruction::GetValue { result, .. } => Some(*result),
            Instruction::SetValue { result, .. } => Some(*result),
            Instruction::GetElement { result, .. } => Some(*result),
            Instruction::SetElement { result, .. } => Some(*result),
            Instruction::ShuffleVec { result, .. } => Some(*result),
            Instruction::CallDirect { result, .. } => match result {
                Some((_, r)) => Some(*r),
                None => None,
            },
            Instruction::CallIndirect { result, .. } => match result {
                Some((_, r)) => Some(*r),
                None => None,
            },
            _ => None,
        }
    }
}

} // verus!
