use vstd::prelude::*;

verus! {

/// Label of a basic block inside a function body.
#[derive(Debug, Clone, Copy, PartialEq, Eq, Structural, Hash, PartialOrd, Ord)]
pub struct BlockLabel(pub usize);

/// Slot of a register (an instruction result) inside a function body.
#[derive(Debug, Clone, Copy, PartialEq, Eq, Structural, Hash, PartialOrd, Ord)]
pub struct RegisterSlot(pub usize);

/// Slot of a function argument.
#[derive(Debug, Clone, Copy, PartialEq, Eq, Structural, Hash, PartialOrd, Ord)]
pub struct ArgumentSlot(pub usize);

impl BlockLabel {
    /// Wraps a raw block index.
    pub fn from(v: usize) -> (r: Self)
        ensures
            r.0 == v,
    {
        BlockLabel(v)
    }
}

impl RegisterSlot {
    /// Wraps a raw register index.
    pub fn from(v: usize) -> (r: Self)
        ensures
            r.0 == v,
    {
        RegisterSlot(v)
    }
}

impl ArgumentSlot {
    /// Wraps a raw argument index.
    pub fn from(v: usize) -> (r: Self)
        ensures
            r.0 == v,
    {
        ArgumentSlot(v)
    }
}

/// A key that identifies an entry of a keyed collection by a natural number.
/// Distinct keys have distinct numbers, so the number orders and identifies the key.
pub trait DomainKey: Copy + Sized {
    spec fn key_value(self) -> nat;

    fn key(&self) -> (r: usize)
        ensures
            r as nat == self.key_value(),
    ;

    proof fn lemma_key_injective(a: Self, b: Self)
        ensures
            a.key_value() == b.key_value() ==> a == b,
    ;
}

impl DomainKey for usize {
    open spec fn key_value(self) -> nat {
        self as nat
    }

    fn key(&self) -> (r: usize) {
        *self
    }

    proof fn lemma_key_injective(a: Self, b: Self) {
    }
}

impl DomainKey for RegisterSlot {
    open spec fn key_value(self) -> nat {
        self.0 as nat
    }

    fn key(&self) -> (r: usize) {
        self.0
    }

    proof fn lemma_key_injective(a: Self, b: Self) {
    }
}

impl DomainKey for BlockLabel {
    open spec fn key_value(self) -> nat {
        self.0 as nat
    }

    fn key(&self) -> (r: usize) {
        self.0
    }

    proof fn lemma_key_injective(a: Self, b: Self) {
    }
}

} // verus!

verus! {

/// A plain representation of an LLVM value
#[derive(Debug)]
pub enum Value {
    /// a constant value
    Constant(crate::ir::constant::Constant),
    /// input
    Argument { index: ArgumentSlot, ty: crate::ir::typing::Type },
    /// intermediate state
    Register { index: RegisterSlot, ty: crate::ir::typing::Type },
}

impl Value {
    pub fn expect_constant(self) -> (r: crate::error::EngineResult<crate::ir::constant::Constant>)
        ensures
            match self {
                Value::Constant(c) => r matches Ok(k) && k == c,
                _ => r matches Err(crate::error::EngineError::InvariantViolation(m))
                    && m@ == "expect value to be a constant"@,
            },
    {
        match self {
            Value::Constant(constant) => Ok(constant),
            Value::Argument { .. } | Value::Register { .. } => Err(
                crate::error::EngineError::InvariantViolation(
                    "expect value to be a constant".to_owned(),
                ),
            ),
        }
    }
}

} // verus!
