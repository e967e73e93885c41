use vstd::prelude::*;

use crate::ir::adapter::function::Function;
use crate::ir::adapter::global::GlobalVariable;
use crate::ir::adapter::typing::UserDefinedStruct;

verus! {

/// An LLVM module, as read from a serialized form
#[derive(Debug)]
pub struct Module {
    /// name of the module
    pub name: String,
    /// module-level assembly
    pub asm_text: String,
    /// user-defined structs
    pub structs: Vec<UserDefinedStruct>,
    /// global variables
    pub global_variables: Vec<GlobalVariable>,
    /// functions
    pub functions: Vec<Function>,
}

} // verus!
