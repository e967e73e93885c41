use vstd::prelude::*;

use crate::ir::operator::{
    BinaryOpArith, BinaryOpBitwise, BinaryOpShift, ComparePredicate, UnaryOpArith,
};
use crate::error::{EngineError, EngineResult, Failure, Unsupported};
use crate::ir::shared::Identifier;
use crate::ir::typing::{name_model, type_text, NumRepr, Type, TypeModel};
use crate::text::concat;

verus! {

/// A rational number `numer / denom`.
#[derive(Debug, Clone, Copy, PartialEq, Eq, Structural)]
pub struct Fraction {
    pub numer: i128,
    pub denom: u128,
}

/// The underlying representation of the bitvec
#[derive(Debug, Clone, Copy, PartialEq, Eq, Structural)]
pub enum NumValue {
    Int(i128),
    IntUndef,
    Float(Option<Fraction>),
    FloatUndef,
}

/// A plain representation of an LLVM constant
#[derive(Debug)]
pub enum Constant {
    /// A single bitvec for a number
    NumOne { bits: usize, value: NumValue },
    /// A vector of bitvec (for numbers and expressions)
    NumVec { bits: usize, number: NumRepr, elements: Vec<Constant> },
    /// Null pointer
    Null,
    /// Undefined pointer
    UndefPointer,
    /// Array
    Array { sub: Type, elements: Vec<Constant> },
    /// Struct
    Struct { name: Option<Identifier>, fields: Vec<Constant> },
    /// Global variable
    Variable { name: Identifier },
    /// Function
    Function { name: Identifier },
    /// Expression
    Expr(Box<Expression>),
}

#[derive(Debug)]
pub enum Expression {
    // unary
    UnaryArith {
        bits: usize,
        number: NumRepr,
        length: Option<usize>,
        opcode: UnaryOpArith,
        operand: Constant,
    },
    // binary
    BinaryArith {
        bits: usize,
        number: NumRepr,
        length: Option<usize>,
        opcode: BinaryOpArith,
        lhs: Constant,
        rhs: Constant,
    },
    BinaryBitwise {
        bits: usize,
        length: Option<usize>,
        opcode: BinaryOpBitwise,
        lhs: Constant,
        rhs: Constant,
    },
    BinaryShift {
        bits: usize,
        length: Option<usize>,
        opcode: BinaryOpShift,
        lhs: Constant,
        rhs: Constant,
    },
    // comparison
    CompareBitvec {
        bits: usize,
        number: NumRepr,
        length: Option<usize>,
        predicate: ComparePredicate,
        lhs: Constant,
        rhs: Constant,
    },
    CompareOrder { bits: usize, length: Option<usize>, ordered: bool, lhs: Constant, rhs: Constant },
    ComparePtr { predicate: ComparePredicate, lhs: Constant, rhs: Constant },
    // casts
    CastBitvecSize {
        bits_from: usize,
        bits_into: usize,
        number: NumRepr,
        length: Option<usize>,
        operand: Constant,
    },
    CastBitvecRepr {
        bits_from: usize,
        bits_into: usize,
        number_from: NumRepr,
        number_into: NumRepr,
        length: Option<usize>,
        operand: Constant,
    },
    CastBitvecFree {
        bits_from: usize,
        bits_into: usize,
        number_from: NumRepr,
        number_into: NumRepr,
        length_from: Option<usize>,
        length_into: Option<usize>,
        operand: Constant,
    },
    CastPtr { operand: Constant },
    CastPtrToInt { bits_into: usize, operand: Constant },
    CastIntToPtr { bits_from: usize, operand: Constant },
    // GEP
    GEP {
        src_pointee_type: Type,
        dst_pointee_type: Type,
        pointer: Constant,
        offset: Constant,
        indices: Vec<GEPConstIndex>,
    },
    GEPNop { pointee_type: Type, pointer: Constant },
    // choice
    ITEOne { cond: Constant, then_value: Constant, else_value: Constant },
    ITEVec {
        bits: usize,
        number: NumRepr,
        length: usize,
        cond: Constant,
        then_value: Constant,
        else_value: Constant,
    },
    // aggregation
    GetValue { src_ty: Type, dst_ty: Type, aggregate: Constant, indices: Vec<usize> },
    SetValue { aggregate: Constant, value: Constant, indices: Vec<usize> },
    GetElement { bits: usize, number: NumRepr, length: usize, vector: Constant, slot: Constant },
    SetElement {
        bits: usize,
        number: NumRepr,
        length: usize,
        vector: Constant,
        value: Constant,
        slot: Constant,
    },
    ShuffleVec {
        bits: usize,
        number: NumRepr,
        length: usize,
        lhs: Constant,
        rhs: Constant,
        mask: Vec<i128>,
    },
}

#[derive(Debug)]
pub enum GEPConstIndex {
    Array(Constant),
    Struct(usize),
    Vector(Constant),
}


/// Limit of a constant aggregate
pub const CONSTANT_AGGREGATE_LENGTH_MAX: usize = 65535;

/// The number that fills a slot: zero, or the undefined value.
pub open spec fn filler_value(number: NumRepr, undef: bool) -> NumValue {
    match (number, undef) {
        (NumRepr::Int, false) => NumValue::Int(0),
        (NumRepr::Int, true) => NumValue::IntUndef,
        (NumRepr::Float, false) => NumValue::Float(Some(Fraction { numer: 0, denom: 1 })),
        (NumRepr::Float, true) => NumValue::FloatUndef,
    }
}

/// The failure met while filling a value of a type, if any: an aggregate longer
/// than the limit, or a function type; the elements of an array are filled only
/// where it has some, and the fields of a struct in order.
pub open spec fn fill_failure(t: TypeModel, undef: bool) -> Option<Failure>
    decreases t,
{
    match t {
        TypeModel::Bitvec { length, .. } => match length {
            Some(len) => if len > CONSTANT_AGGREGATE_LENGTH_MAX {
                Some(Failure::Unsupported(Unsupported::HugeConstAggregate))
            } else {
                None
            },
            None => None,
        },
        TypeModel::Array { element, length } => if length > CONSTANT_AGGREGATE_LENGTH_MAX {
            Some(Failure::Unsupported(Unsupported::HugeConstAggregate))
        } else if length == 0 {
            None
        } else {
            fill_failure(*element, undef)
        },
        TypeModel::Struct { fields, .. } => fields_failure(fields, undef),
        TypeModel::Function { .. } => Some(
            Failure::Invariant(
                (if undef {
                    "trying to create undef-body for a function type: "@
                } else {
                    "trying to create defaults for a function type: "@
                }) + type_text(t),
            ),
        ),
        TypeModel::Pointer => None,
    }
}

/// The first failure met while filling the fields of a struct, in order.
pub open spec fn fields_failure(fs: Seq<TypeModel>, undef: bool) -> Option<Failure>
    decreases fs,
{
    if fs.len() == 0 {
        None
    } else {
        match fields_failure(fs.subrange(0, fs.len() - 1), undef) {
            Some(e) => Some(e),
            None => fill_failure(fs[fs.len() - 1], undef),
        }
    }
}

/// `c` is the value that fills a slot of type `t`: zero numbers (or undefined
/// ones), null (or undefined) pointers, and aggregates filled slot by slot.
pub open spec fn is_filled(c: Constant, t: TypeModel, undef: bool) -> bool
    decreases t,
{
    match t {
        TypeModel::Bitvec { bits, number, length } => match length {
            None => c == Constant::NumOne { bits, value: filler_value(number, undef) },
            Some(len) => c matches Constant::NumVec { bits: b, number: n, elements } && b == bits
                && n == number && elements@.len() == len && forall|i: int|
                0 <= i < len ==> #[trigger] elements@[i] == Constant::NumOne {
                    bits,
                    value: filler_value(number, undef),
                },
        },
        TypeModel::Array { element, length } => c matches Constant::Array { sub, elements }
            && sub.model() == *element && elements@.len() == length && forall|i: int|
            0 <= i < length ==> is_filled(#[trigger] elements@[i], *element, undef),
        TypeModel::Struct { name, fields } => c matches Constant::Struct { name: n, fields: cs }
            && name_model(n) == name && cs@.len() == fields.len() && forall|i: int|
            0 <= i < fields.len() ==> is_filled(#[trigger] cs@[i], fields[i], undef),
        TypeModel::Function { .. } => false,
        TypeModel::Pointer => c == (if undef {
            Constant::UndefPointer
        } else {
            Constant::Null
        }),
    }
}

/// An outcome of filling agrees with [`fill_failure`] and [`is_filled`].
pub open spec fn fill_agrees(r: EngineResult<Constant>, t: TypeModel, undef: bool) -> bool {
    match fill_failure(t, undef) {
        Some(f) => r matches Err(e) && e.failure() == f,
        None => r matches Ok(c) && is_filled(c, t, undef),
    }
}

pub proof fn lemma_fields_failure_prefix(fs: Seq<TypeModel>, undef: bool, i: int)
    requires
        0 <= i <= fs.len(),
        fields_failure(fs.take(i), undef) is Some,
    ensures
        fields_failure(fs, undef) == fields_failure(fs.take(i), undef),
    decreases fs.len() - i,
{
    if i < fs.len() {
        assert(fs.take(i + 1).subrange(0, i) =~= fs.take(i));
        lemma_fields_failure_prefix(fs, undef, i + 1);
    } else {
        assert(fs.take(i) =~= fs);
    }
}

impl Constant {
    /// A vector of `len` filled numbers.
    fn fill_vector(bits: usize, number: NumRepr, len: usize, undef: bool) -> (r: Vec<Constant>)
        ensures
            r@.len() == len,
            forall|i: int| 0 <= i < len ==> #[trigger] r@[i] == (Constant::NumOne {
                bits,
                value: filler_value(number, undef),
            }),
    {
        let mut out: Vec<Constant> = Vec::new();
        let mut k: usize = 0;
        while k < len
            invariant
                k <= len,
                out@.len() == k,
                forall|i: int| 0 <= i < k ==> #[trigger] out@[i] == (Constant::NumOne {
                    bits,
                    value: filler_value(number, undef),
                }),
            decreases len - k,
        {
            let value = match (number, undef) {
                (NumRepr::Int, false) => NumValue::Int(0),
                (NumRepr::Int, true) => NumValue::IntUndef,
                (NumRepr::Float, false) => NumValue::Float(Some(Fraction { numer: 0, denom: 1 })),
                (NumRepr::Float, true) => NumValue::FloatUndef,
            };
            out.push(Constant::NumOne { bits, value });
            k = k + 1;
        }
        out
    }

    /// Fills the fields of a struct in order, stopping at the first failure.
    fn fill_fields(fields: &Vec<Type>, undef: bool) -> (r: EngineResult<Vec<Constant>>)
        ensures
            match fields_failure(crate::ir::typing::type_models(fields@), undef) {
                Some(f) => r matches Err(e) && e.failure() == f,
                None => r matches Ok(cs) && cs@.len() == fields@.len() && forall|i: int|
                    0 <= i < fields@.len() ==> is_filled(#[trigger] cs@[i], fields@[i].model(), undef),
            },
        decreases fields@, 1nat,
    {
        let ghost ms = crate::ir::typing::type_models(fields@);
        let mut out: Vec<Constant> = Vec::new();
        let mut i: usize = 0;
        assert(ms.take(0) =~= Seq::<TypeModel>::empty());
        while i < fields.len()
            invariant
                i <= fields@.len(),
                ms == crate::ir::typing::type_models(fields@),
                fields_failure(ms.take(i as int), undef) is None,
                out@.len() == i,
                forall|j: int| 0 <= j < i ==> is_filled(#[trigger] out@[j], fields@[j].model(), undef),
            decreases fields@.len() - i,
        {
            proof {
                assert(decreases_to!(fields@ => fields@[i as int]));
                assert(ms.take(i + 1).subrange(0, i as int) =~= ms.take(i as int));
                assert(ms.take(i + 1)[i as int] == fields@[i as int].model());
            }
            match Self::fill_from_type(&fields[i], undef) {
                Err(e) => {
                    proof {
                        lemma_fields_failure_prefix(ms, undef, i + 1);
                    }
                    return Err(e);
                },
                Ok(c) => {
                    out.push(c);
                },
            }
            i = i + 1;
        }
        assert(ms.take(fields@.len() as int) =~= ms);
        Ok(out)
    }

    /// `length` values that fill slots of type `element`, stopping at a failure.
    fn fill_repeat(element: &Type, length: usize, undef: bool) -> (r: EngineResult<Vec<Constant>>)
        ensures
            match (if length == 0 {
                None
            } else {
                fill_failure(element.model(), undef)
            }) {
                Some(f) => r matches Err(e) && e.failure() == f,
                None => r matches Ok(cs) && cs@.len() == length && forall|i: int|
                    0 <= i < length ==> is_filled(#[trigger] cs@[i], element.model(), undef),
            },
        decreases element, 1nat,
    {
        let mut elements: Vec<Constant> = Vec::new();
        let mut k: usize = 0;
        while k < length
            invariant
                k <= length,
                elements@.len() == k,
                k > 0 ==> fill_failure(element.model(), undef) is None,
                forall|i: int| 0 <= i < k ==> is_filled(#[trigger] elements@[i], element.model(), undef),
            decreases length - k,
        {
            match Self::fill_from_type(element, undef) {
                Err(e) => {
                    return Err(e);
                },
                Ok(c) => {
                    elements.push(c);
                },
            }
            k = k + 1;
        }
        Ok(elements)
    }

    /// The value that fills a slot of a type: zeros and null pointers, or undefined
    /// values where `undef` holds (see [`is_filled`] and [`fill_failure`]).
    fn fill_from_type(ty: &Type, undef: bool) -> (r: EngineResult<Constant>)
        ensures
            fill_agrees(r, ty.model(), undef),
        decreases ty, 0nat,
    {
        match ty {
            Type::Bitvec { bits, number, length } => match length {
                None => {
                    let value = match (number, undef) {
                        (NumRepr::Int, false) => NumValue::Int(0),
                        (NumRepr::Int, true) => NumValue::IntUndef,
                        (NumRepr::Float, false) => NumValue::Float(Some(Fraction { numer: 0, denom: 1 })),
                        (NumRepr::Float, true) => NumValue::FloatUndef,
                    };
                    Ok(Constant::NumOne { bits: *bits, value })
                },
                Some(len) => {
                    if *len > CONSTANT_AGGREGATE_LENGTH_MAX {
                        return Err(EngineError::NotSupportedYet(Unsupported::HugeConstAggregate));
                    }
                    let elements = Self::fill_vector(*bits, *number, *len, undef);
                    Ok(Constant::NumVec { bits: *bits, number: *number, elements })
                },
            },
            Type::Array { element, length } => {
                if *length > CONSTANT_AGGREGATE_LENGTH_MAX {
                    return Err(EngineError::NotSupportedYet(Unsupported::HugeConstAggregate));
                }
                let elements = match Self::fill_repeat(element, *length, undef) {
                    Err(e) => {
                        return Err(e);
                    },
                    Ok(v) => v,
                };
                Ok(Constant::Array { sub: element.duplicate(), elements })
            },
            Type::Struct { name, fields } => match Self::fill_fields(fields, undef) {
                Err(e) => Err(e),
                Ok(cs) => {
                    let n = match name {
                        Some(x) => Some(x.duplicate()),
                        None => None,
                    };
                    Ok(Constant::Struct { name: n, fields: cs })
                },
            },
            Type::Function { .. } => {
                let text = ty.describe();
                let prefix = if undef {
                    "trying to create undef-body for a function type: "
                } else {
                    "trying to create defaults for a function type: "
                };
                Err(EngineError::InvariantViolation(concat(prefix, text.as_str())))
            },
            Type::Pointer => {
                if undef {
                    Ok(Constant::UndefPointer)
                } else {
                    Ok(Constant::Null)
                }
            },
        }
    }

    /// The zero value of a type: zero numbers, null pointers, aggregates of zeros.
    pub fn default_from_type(ty: &Type) -> (r: EngineResult<Constant>)
        ensures
            fill_agrees(r, ty.model(), false),
    {
        Self::fill_from_type(ty, false)
    }

    /// The undefined value of a type: undefined numbers and pointers, aggregates of them.
    pub fn undef_from_type(ty: &Type) -> (r: EngineResult<Constant>)
        ensures
            fill_agrees(r, ty.model(), true),
    {
        Self::fill_from_type(ty, true)
    }
}
} // verus!
