use vstd::prelude::*;

use crate::ir::adapter::instruction::Instruction;

verus! {

/// A basic block, as read from a serialized module
#[derive(Debug)]
pub struct Block {
    /// a unique id for the block
    pub label: usize,
    /// name (which may not be available)
    pub name: Option<String>,
    /// list of instructions
    pub body: Vec<Instruction>,
    /// terminator
    pub terminator: Instruction,
}

} // verus!
