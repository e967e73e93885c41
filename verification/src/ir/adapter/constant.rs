use vstd::prelude::*;

use crate::ir::adapter::instruction::Inst;
use crate::ir::adapter::typing::Type;

verus! {

/// The kinds of an LLVM constant, as read from a serialized module
#[derive(Debug)]
pub enum Const {
    Int { value: String },
    Float { value: String },
    Null,
    TokenNone,
    Extension,
    Undef,
    Default,
    Vector { elements: Vec<Constant> },
    Array { elements: Vec<Constant> },
    Struct { elements: Vec<Constant> },
    Variable { name: Option<String> },
    Function { name: Option<String> },
    Alias { name: Option<String> },
    Interface { name: Option<String> },
    Marker { wrap: Box<Constant> },
    PC,
    Expr { inst: Box<Inst> },
}

/// An LLVM constant, as read from a serialized module
#[derive(Debug)]
pub struct Constant {
    /// type of the constant
    pub ty: Type,
    /// the actual representation of a constant
    pub repr: Const,
}

} // verus!
