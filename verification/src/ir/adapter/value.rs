use vstd::prelude::*;

use crate::ir::adapter::constant::Constant;
use crate::ir::adapter::typing::Type;

verus! {

/// A value as read from a serialized module
#[derive(Debug)]
pub enum Value {
    /// constant
    Constant(Constant),
    /// reference to an argument
    Argument { ty: Type, index: usize },
    /// reference to an instruction
    Instruction { ty: Type, index: usize },
    /// block address
    Label { func: String, block: usize },
    /// metadata
    Metadata,
}

/// The type of a value read from a module: labels have the label type, and
/// metadata the metadata type.
pub open spec fn value_type(v: Value) -> crate::ir::adapter::typing::TypeView {
    match v {
        Value::Constant(c) => c.ty@,
        Value::Argument { ty, .. } => ty@,
        Value::Instruction { ty, .. } => ty@,
        Value::Label { .. } => crate::ir::adapter::typing::TypeView::Label,
        Value::Metadata => crate::ir::adapter::typing::TypeView::Metadata,
    }
}

impl Value {
    /// The type of the value (see [`value_type`]).
    pub fn get_type(&self) -> (r: Type)
        ensures
            r@ == value_type(*self),
    {
        match self {
            Value::Constant(constant) => constant.ty.duplicate(),
            Value::Argument { ty, .. } => ty.duplicate(),
            Value::Instruction { ty, .. } => ty.duplicate(),
            Value::Label { .. } => Type::Label,
            Value::Metadata => Type::Metadata,
        }
    }
}

/// An inline assembly snippet with its constraint string
#[derive(Debug, Clone)]
pub struct InlineAsm {
    pub assembly: String,
    pub constraint: String,
}

} // verus!
