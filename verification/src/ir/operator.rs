use vstd::prelude::*;

use crate::error::{EngineError, EngineResult, Unsupported};
use crate::ir::typing::NumRepr;
use crate::text::{lemma_texts_differ_at, str_eq};

verus! {

#[derive(Debug, Clone, Copy, PartialEq, Eq, Structural)]
pub enum UnaryOpArith {
    Neg,
}

#[derive(Debug, Clone, Copy, PartialEq, Eq, Structural)]
pub enum UnaryOperator {
    Arithmetic(UnaryOpArith, NumRepr),
}

#[derive(Debug, Clone, Copy, PartialEq, Eq, Structural)]
pub enum BinaryOpArith {
    Add,
    Sub,
    Mul,
    Div,
    Mod,
}

#[derive(Debug, Clone, Copy, PartialEq, Eq, Structural)]
pub enum BinaryOpBitwise {
    And,
    Or,
    Xor,
}

#[derive(Debug, Clone, Copy, PartialEq, Eq, Structural)]
pub enum BinaryOpShift {
    Shl,
    Shr,
}

#[derive(Debug, Clone, Copy, PartialEq, Eq, Structural)]
pub enum BinaryOperator {
    Arithmetic(BinaryOpArith, NumRepr),
    Bitwise(BinaryOpBitwise),
    Shift(BinaryOpShift),
}

#[derive(Debug, Clone, Copy, PartialEq, Eq, Structural)]
pub enum ComparePredicate {
    EQ,
    NE,
    GT,
    GE,
    LT,
    LE,
}

#[derive(Debug, Clone, Copy, PartialEq, Eq, Structural)]
pub enum CompareOperator {
    Pred(ComparePredicate, NumRepr),
    Ord(bool),
}

/// The unary operator named by an opcode, if the opcode is known.
pub open spec fn unary_operator_of(opcode: Seq<char>) -> Option<UnaryOperator> {
    if opcode == "fneg"@ {
        Some(UnaryOperator::Arithmetic(UnaryOpArith::Neg, NumRepr::Float))
    } else {
        None
    }
}

/// The binary operator named by an opcode, if the opcode is known.
pub open spec fn binary_operator_of(opcode: Seq<char>) -> Option<BinaryOperator> {
    if opcode == "add"@ {
        Some(BinaryOperator::Arithmetic(BinaryOpArith::Add, NumRepr::Int))
    } else if opcode == "sub"@ {
        Some(BinaryOperator::Arithmetic(BinaryOpArith::Sub, NumRepr::Int))
    } else if opcode == "mul"@ {
        Some(BinaryOperator::Arithmetic(BinaryOpArith::Mul, NumRepr::Int))
    } else if opcode == "udiv"@ || opcode == "sdiv"@ {
        Some(BinaryOperator::Arithmetic(BinaryOpArith::Div, NumRepr::Int))
    } else if opcode == "urem"@ || opcode == "srem"@ {
        Some(BinaryOperator::Arithmetic(BinaryOpArith::Mod, NumRepr::Int))
    } else if opcode == "fadd"@ {
        Some(BinaryOperator::Arithmetic(BinaryOpArith::Add, NumRepr::Float))
    } else if opcode == "fsub"@ {
        Some(BinaryOperator::Arithmetic(BinaryOpArith::Sub, NumRepr::Float))
    } else if opcode == "fmul"@ {
        Some(BinaryOperator::Arithmetic(BinaryOpArith::Mul, NumRepr::Float))
    } else if opcode == "fdiv"@ {
        Some(BinaryOperator::Arithmetic(BinaryOpArith::Div, NumRepr::Float))
    } else if opcode == "frem"@ {
        Some(BinaryOperator::Arithmetic(BinaryOpArith::Mod, NumRepr::Float))
    } else if opcode == "shl"@ {
        Some(BinaryOperator::Shift(BinaryOpShift::Shl))
    } else if opcode == "lshr"@ || opcode == "ashr"@ {
        Some(BinaryOperator::Shift(BinaryOpShift::Shr))
    } else if opcode == "and"@ {
        Some(BinaryOperator::Bitwise(BinaryOpBitwise::And))
    } else if opcode == "or"@ {
        Some(BinaryOperator::Bitwise(BinaryOpBitwise::Or))
    } else if opcode == "xor"@ {
        Some(BinaryOperator::Bitwise(BinaryOpBitwise::Xor))
    } else {
        None
    }
}

/// The comparison named by a predicate, if the predicate is known and supported.
pub open spec fn compare_operator_of(opcode: Seq<char>) -> Option<CompareOperator> {
    if opcode == "i_eq"@ {
        Some(CompareOperator::Pred(ComparePredicate::EQ, NumRepr::Int))
    } else if opcode == "i_ne"@ {
        Some(CompareOperator::Pred(ComparePredicate::NE, NumRepr::Int))
    } else if opcode == "i_ugt"@ || opcode == "i_sgt"@ {
        Some(CompareOperator::Pred(ComparePredicate::GT, NumRepr::Int))
    } else if opcode == "i_uge"@ || opcode == "i_sge"@ {
        Some(CompareOperator::Pred(ComparePredicate::GE, NumRepr::Int))
    } else if opcode == "i_ult"@ || opcode == "i_slt"@ {
        Some(CompareOperator::Pred(ComparePredicate::LT, NumRepr::Int))
    } else if opcode == "i_ule"@ || opcode == "i_sle"@ {
        Some(CompareOperator::Pred(ComparePredicate::LE, NumRepr::Int))
    } else if opcode == "f_oeq"@ || opcode == "f_ueq"@ {
        Some(CompareOperator::Pred(ComparePredicate::EQ, NumRepr::Float))
    } else if opcode == "f_one"@ || opcode == "f_une"@ {
        Some(CompareOperator::Pred(ComparePredicate::NE, NumRepr::Float))
    } else if opcode == "f_ogt"@ || opcode == "f_ugt"@ {
        Some(CompareOperator::Pred(ComparePredicate::GT, NumRepr::Float))
    } else if opcode == "f_oge"@ || opcode == "f_uge"@ {
        Some(CompareOperator::Pred(ComparePredicate::GE, NumRepr::Float))
    } else if opcode == "f_olt"@ || opcode == "f_ult"@ {
        Some(CompareOperator::Pred(ComparePredicate::LT, NumRepr::Float))
    } else if opcode == "f_ole"@ || opcode == "f_ule"@ {
        Some(CompareOperator::Pred(ComparePredicate::LE, NumRepr::Float))
    } else if opcode == "f_ord"@ {
        Some(CompareOperator::Ord(true))
    } else if opcode == "f_uno"@ {
        Some(CompareOperator::Ord(false))
    } else {
        None
    }
}

/// Predicates that are known but not supported.
pub open spec fn is_constant_predicate(opcode: Seq<char>) -> bool {
    opcode == "f_f"@ || opcode == "f_t"@
}

impl UnaryOperator {
    /// Reads a unary opcode: the operator it names (see [`unary_opcode_names`]).
    pub fn parse(opcode: &str) -> (r: EngineResult<Self>)
        ensures
            match unary_operator_of(opcode@) {
                Some(op) => r == Ok::<UnaryOperator, EngineError>(op),
                None => r matches Err(EngineError::InvalidAssumption(m))
                    && m@ == "unexpected unary opcode: "@ + opcode@,
            },
            r matches Ok(op) ==> unary_opcode_names(op).contains(opcode@),
            forall|op: UnaryOperator| #[trigger] unary_opcode_names(op).contains(opcode@) ==> r == Ok::<
                UnaryOperator,
                EngineError,
            >(op),
    {
        proof {
            assert forall|op: UnaryOperator| #[trigger] unary_opcode_names(op).contains(opcode@) <==> unary_operator_of(
                opcode@,
            ) == Some(op) by {
                law_unary_opcodes(opcode@, op);
            }
        }
        if str_eq(opcode, "fneg") {
            return Ok(UnaryOperator::Arithmetic(UnaryOpArith::Neg, NumRepr::Float));
        }
        Err(EngineError::invalid_assumption("unexpected unary opcode: ", opcode))
    }
}

impl BinaryOperator {
    /// Reads a binary opcode: the operator it names (see [`binary_opcode_names`]).
    pub fn parse(opcode: &str) -> (r: EngineResult<Self>)
        ensures
            match binary_operator_of(opcode@) {
                Some(op) => r == Ok::<BinaryOperator, EngineError>(op),
                None => r matches Err(EngineError::InvalidAssumption(m))
                    && m@ == "unexpected binary opcode: "@ + opcode@,
            },
            r matches Ok(op) ==> binary_opcode_names(op).contains(opcode@),
            forall|op: BinaryOperator| #[trigger] binary_opcode_names(op).contains(opcode@) ==> r == Ok::<
                BinaryOperator,
                EngineError,
            >(op),
    {
        proof {
            assert forall|op: BinaryOperator| #[trigger] binary_opcode_names(op).contains(opcode@) <==> binary_operator_of(
                opcode@,
            ) == Some(op) by {
                law_binary_opcodes(opcode@, op);
            }
        }
        if str_eq(opcode, "add") {
            return Ok(BinaryOperator::Arithmetic(BinaryOpArith::Add, NumRepr::Int));
        }
        if str_eq(opcode, "sub") {
            return Ok(BinaryOperator::Arithmetic(BinaryOpArith::Sub, NumRepr::Int));
        }
        if str_eq(opcode, "mul") {
            return Ok(BinaryOperator::Arithmetic(BinaryOpArith::Mul, NumRepr::Int));
        }
        if str_eq(opcode, "udiv") || str_eq(opcode, "sdiv") {
            return Ok(BinaryOperator::Arithmetic(BinaryOpArith::Div, NumRepr::Int));
        }
        if str_eq(opcode, "urem") || str_eq(opcode, "srem") {
            return Ok(BinaryOperator::Arithmetic(BinaryOpArith::Mod, NumRepr::Int));
        }
        if str_eq(opcode, "fadd") {
            return Ok(BinaryOperator::Arithmetic(BinaryOpArith::Add, NumRepr::Float));
        }
        if str_eq(opcode, "fsub") {
            return Ok(BinaryOperator::Arithmetic(BinaryOpArith::Sub, NumRepr::Float));
        }
        if str_eq(opcode, "fmul") {
            return Ok(BinaryOperator::Arithmetic(BinaryOpArith::Mul, NumRepr::Float));
        }
        if str_eq(opcode, "fdiv") {
            return Ok(BinaryOperator::Arithmetic(BinaryOpArith::Div, NumRepr::Float));
        }
        if str_eq(opcode, "frem") {
            return Ok(BinaryOperator::Arithmetic(BinaryOpArith::Mod, NumRepr::Float));
        }
        if str_eq(opcode, "shl") {
            return Ok(BinaryOperator::Shift(BinaryOpShift::Shl));
        }
        if str_eq(opcode, "lshr") || str_eq(opcode, "ashr") {
            return Ok(BinaryOperator::Shift(BinaryOpShift::Shr));
        }
        if str_eq(opcode, "and") {
            return Ok(BinaryOperator::Bitwise(BinaryOpBitwise::And));
        }
        if str_eq(opcode, "or") {
            return Ok(BinaryOperator::Bitwise(BinaryOpBitwise::Or));
        }
        if str_eq(opcode, "xor") {
            return Ok(BinaryOperator::Bitwise(BinaryOpBitwise::Xor));
        }
        Err(EngineError::invalid_assumption("unexpected binary opcode: ", opcode))
    }
}

impl CompareOperator {
    /// Reads a comparison predicate: the comparison it names (see
    /// [`compare_predicate_names`]).
    pub fn parse(opcode: &str) -> (r: EngineResult<Self>)
        ensures
            match compare_operator_of(opcode@) {
                Some(op) => r == Ok::<CompareOperator, EngineError>(op),
                None => if is_constant_predicate(opcode@) {
                    r matches Err(EngineError::NotSupportedYet(u))
                        && u == Unsupported::FloatingPointOrdering
                } else {
                    r matches Err(EngineError::InvalidAssumption(m))
                        && m@ == "unexpected compare predicate: "@ + opcode@
                },
            },
            r matches Ok(op) ==> compare_predicate_names(op).contains(opcode@),
            forall|op: CompareOperator| #[trigger] compare_predicate_names(op).contains(opcode@) ==> r == Ok::<
                CompareOperator,
                EngineError,
            >(op),
    {
        proof {
            assert forall|op: CompareOperator| #[trigger] compare_predicate_names(op).contains(opcode@)
                <==> compare_operator_of(opcode@) == Some(op) by {
                law_compare_predicates(opcode@, op);
            }
        }
        if str_eq(opcode, "i_eq") {
            return Ok(CompareOperator::Pred(ComparePredicate::EQ, NumRepr::Int));
        }
        if str_eq(opcode, "i_ne") {
            return Ok(CompareOperator::Pred(ComparePredicate::NE, NumRepr::Int));
        }
        if str_eq(opcode, "i_ugt") || str_eq(opcode, "i_sgt") {
            return Ok(CompareOperator::Pred(ComparePredicate::GT, NumRepr::Int));
        }
        if str_eq(opcode, "i_uge") || str_eq(opcode, "i_sge") {
            return Ok(CompareOperator::Pred(ComparePredicate::GE, NumRepr::Int));
        }
        if str_eq(opcode, "i_ult") || str_eq(opcode, "i_slt") {
            return Ok(CompareOperator::Pred(ComparePredicate::LT, NumRepr::Int));
        }
        if str_eq(opcode, "i_ule") || str_eq(opcode, "i_sle") {
            return Ok(CompareOperator::Pred(ComparePredicate::LE, NumRepr::Int));
        }
        if str_eq(opcode, "f_oeq") || str_eq(opcode, "f_ueq") {
            return Ok(CompareOperator::Pred(ComparePredicate::EQ, NumRepr::Float));
        }
        if str_eq(opcode, "f_one") || str_eq(opcode, "f_une") {
            return Ok(CompareOperator::Pred(ComparePredicate::NE, NumRepr::Float));
        }
        if str_eq(opcode, "f_ogt") || str_eq(opcode, "f_ugt") {
            return Ok(CompareOperator::Pred(ComparePredicate::GT, NumRepr::Float));
        }
        if str_eq(opcode, "f_oge") || str_eq(opcode, "f_uge") {
            return Ok(CompareOperator::Pred(ComparePredicate::GE, NumRepr::Float));
        }
        if str_eq(opcode, "f_olt") || str_eq(opcode, "f_ult") {
            return Ok(CompareOperator::Pred(ComparePredicate::LT, NumRepr::Float));
        }
        if str_eq(opcode, "f_ole") || str_eq(opcode, "f_ule") {
            return Ok(CompareOperator::Pred(ComparePredicate::LE, NumRepr::Float));
        }
        if str_eq(opcode, "f_ord") {
            return Ok(CompareOperator::Ord(true));
        }
        if str_eq(opcode, "f_uno") {
            return Ok(CompareOperator::Ord(false));
        }
        if str_eq(opcode, "f_f") || str_eq(opcode, "f_t") {
            return Err(EngineError::NotSupportedYet(Unsupported::FloatingPointOrdering));
        }
        Err(EngineError::invalid_assumption("unexpected compare predicate: ", opcode))
    }
}

} // verus!

verus! {

/// The LLVM opcodes that name a binary operator: signed and unsigned division,
/// remainder and right shift share an operator.
pub open spec fn binary_opcode_names(op: BinaryOperator) -> Set<Seq<char>> {
    match op {
        BinaryOperator::Arithmetic(BinaryOpArith::Add, NumRepr::Int) => set!["add"@],
        BinaryOperator::Arithmetic(BinaryOpArith::Sub, NumRepr::Int) => set!["sub"@],
        BinaryOperator::Arithmetic(BinaryOpArith::Mul, NumRepr::Int) => set!["mul"@],
        BinaryOperator::Arithmetic(BinaryOpArith::Div, NumRepr::Int) => set!["udiv"@, "sdiv"@],
        BinaryOperator::Arithmetic(BinaryOpArith::Mod, NumRepr::Int) => set!["urem"@, "srem"@],
        BinaryOperator::Arithmetic(BinaryOpArith::Add, NumRepr::Float) => set!["fadd"@],
        BinaryOperator::Arithmetic(BinaryOpArith::Sub, NumRepr::Float) => set!["fsub"@],
        BinaryOperator::Arithmetic(BinaryOpArith::Mul, NumRepr::Float) => set!["fmul"@],
        BinaryOperator::Arithmetic(BinaryOpArith::Div, NumRepr::Float) => set!["fdiv"@],
        BinaryOperator::Arithmetic(BinaryOpArith::Mod, NumRepr::Float) => set!["frem"@],
        BinaryOperator::Shift(BinaryOpShift::Shl) => set!["shl"@],
        BinaryOperator::Shift(BinaryOpShift::Shr) => set!["lshr"@, "ashr"@],
        BinaryOperator::Bitwise(BinaryOpBitwise::And) => set!["and"@],
        BinaryOperator::Bitwise(BinaryOpBitwise::Or) => set!["or"@],
        BinaryOperator::Bitwise(BinaryOpBitwise::Xor) => set!["xor"@],
    }
}

/// Reading a binary opcode gives the operator that the opcode names, and only
/// the opcodes that name an operator are read.
pub proof fn law_binary_opcodes(opcode: Seq<char>, op: BinaryOperator)
    ensures
        binary_operator_of(opcode) == Some(op) <==> binary_opcode_names(op).contains(opcode),
{
    reveal_strlit("add");
    reveal_strlit("sub");
    reveal_strlit("mul");
    reveal_strlit("udiv");
    reveal_strlit("sdiv");
    reveal_strlit("urem");
    reveal_strlit("srem");
    reveal_strlit("fadd");
    reveal_strlit("fsub");
    reveal_strlit("fmul");
    reveal_strlit("fdiv");
    reveal_strlit("frem");
    reveal_strlit("shl");
    reveal_strlit("lshr");
    reveal_strlit("ashr");
    reveal_strlit("and");
    reveal_strlit("or");
    reveal_strlit("xor");
    lemma_texts_differ_at("add"@, "sub"@, 0);
    lemma_texts_differ_at("add"@, "mul"@, 0);
    lemma_texts_differ_at("add"@, "shl"@, 0);
    lemma_texts_differ_at("add"@, "and"@, 1);
    lemma_texts_differ_at("add"@, "xor"@, 0);
    lemma_texts_differ_at("sub"@, "mul"@, 0);
    lemma_texts_differ_at("sub"@, "shl"@, 1);
    lemma_texts_differ_at("sub"@, "and"@, 0);
    lemma_texts_differ_at("sub"@, "xor"@, 0);
    lemma_texts_differ_at("mul"@, "shl"@, 0);
    lemma_texts_differ_at("mul"@, "and"@, 0);
    lemma_texts_differ_at("mul"@, "xor"@, 0);
    lemma_texts_differ_at("udiv"@, "sdiv"@, 0);
    lemma_texts_differ_at("udiv"@, "urem"@, 1);
    lemma_texts_differ_at("udiv"@, "srem"@, 0);
    lemma_texts_differ_at("udiv"@, "fadd"@, 0);
    lemma_texts_differ_at("udiv"@, "fsub"@, 0);
    lemma_texts_differ_at("udiv"@, "fmul"@, 0);
    lemma_texts_differ_at("udiv"@, "fdiv"@, 0);
    lemma_texts_differ_at("udiv"@, "frem"@, 0);
    lemma_texts_differ_at("udiv"@, "lshr"@, 0);
    lemma_texts_differ_at("udiv"@, "ashr"@, 0);
    lemma_texts_differ_at("sdiv"@, "urem"@, 0);
    lemma_texts_differ_at("sdiv"@, "srem"@, 1);
    lemma_texts_differ_at("sdiv"@, "fadd"@, 0);
    lemma_texts_differ_at("sdiv"@, "fsub"@, 0);
    lemma_texts_differ_at("sdiv"@, "fmul"@, 0);
    lemma_texts_differ_at("sdiv"@, "fdiv"@, 0);
    lemma_texts_differ_at("sdiv"@, "frem"@, 0);
    lemma_texts_differ_at("sdiv"@, "lshr"@, 0);
    lemma_texts_differ_at("sdiv"@, "ashr"@, 0);
    lemma_texts_differ_at("urem"@, "srem"@, 0);
    lemma_texts_differ_at("urem"@, "fadd"@, 0);
    lemma_texts_differ_at("urem"@, "fsub"@, 0);
    lemma_texts_differ_at("urem"@, "fmul"@, 0);
    lemma_texts_differ_at("urem"@, "fdiv"@, 0);
    lemma_texts_differ_at("urem"@, "frem"@, 0);
    lemma_texts_differ_at("urem"@, "lshr"@, 0);
    lemma_texts_differ_at("urem"@, "ashr"@, 0);
    lemma_texts_differ_at("srem"@, "fadd"@, 0);
    lemma_texts_differ_at("srem"@, "fsub"@, 0);
    lemma_texts_differ_at("srem"@, "fmul"@, 0);
    lemma_texts_differ_at("srem"@, "fdiv"@, 0);
    lemma_texts_differ_at("srem"@, "frem"@, 0);
    lemma_texts_differ_at("srem"@, "lshr"@, 0);
    lemma_texts_differ_at("srem"@, "ashr"@, 0);
    lemma_texts_differ_at("fadd"@, "fsub"@, 1);
    lemma_texts_differ_at("fadd"@, "fmul"@, 1);
    lemma_texts_differ_at("fadd"@, "fdiv"@, 1);
    lemma_texts_differ_at("fadd"@, "frem"@, 1);
    lemma_texts_differ_at("fadd"@, "lshr"@, 0);
    lemma_texts_differ_at("fadd"@, "ashr"@, 0);
    lemma_texts_differ_at("fsub"@, "fmul"@, 1);
    lemma_texts_differ_at("fsub"@, "fdiv"@, 1);
    lemma_texts_differ_at("fsub"@, "frem"@, 1);
    lemma_texts_differ_at("fsub"@, "lshr"@, 0);
    lemma_texts_differ_at("fsub"@, "ashr"@, 0);
    lemma_texts_differ_at("fmul"@, "fdiv"@, 1);
    lemma_texts_differ_at("fmul"@, "frem"@, 1);
    lemma_texts_differ_at("fmul"@, "lshr"@, 0);
    lemma_texts_differ_at("fmul"@, "ashr"@, 0);
    lemma_texts_differ_at("fdiv"@, "frem"@, 1);
    lemma_texts_differ_at("fdiv"@, "lshr"@, 0);
    lemma_texts_differ_at("fdiv"@, "ashr"@, 0);
    lemma_texts_differ_at("frem"@, "lshr"@, 0);
    lemma_texts_differ_at("frem"@, "ashr"@, 0);
    lemma_texts_differ_at("shl"@, "and"@, 0);
    lemma_texts_differ_at("shl"@, "xor"@, 0);
    lemma_texts_differ_at("lshr"@, "ashr"@, 0);
    lemma_texts_differ_at("and"@, "xor"@, 0);
    assert("add"@.len() != "udiv"@.len());
    assert("add"@.len() != "sdiv"@.len());
    assert("add"@.len() != "urem"@.len());
    assert("add"@.len() != "srem"@.len());
    assert("add"@.len() != "fadd"@.len());
    assert("add"@.len() != "fsub"@.len());
    assert("add"@.len() != "fmul"@.len());
    assert("add"@.len() != "fdiv"@.len());
    assert("add"@.len() != "frem"@.len());
    assert("add"@.len() != "lshr"@.len());
    assert("add"@.len() != "ashr"@.len());
    assert("add"@.len() != "or"@.len());
    assert("sub"@.len() != "udiv"@.len());
    assert("sub"@.len() != "sdiv"@.len());
    assert("sub"@.len() != "urem"@.len());
    assert("sub"@.len() != "srem"@.len());
    assert("sub"@.len() != "fadd"@.len());
    assert("sub"@.len() != "fsub"@.len());
    assert("sub"@.len() != "fmul"@.len());
    assert("sub"@.len() != "fdiv"@.len());
    assert("sub"@.len() != "frem"@.len());
    assert("sub"@.len() != "lshr"@.len());
    assert("sub"@.len() != "ashr"@.len());
    assert("sub"@.len() != "or"@.len());
    assert("mul"@.len() != "udiv"@.len());
    assert("mul"@.len() != "sdiv"@.len());
    assert("mul"@.len() != "urem"@.len());
    assert("mul"@.len() != "srem"@.len());
    assert("mul"@.len() != "fadd"@.len());
    assert("mul"@.len() != "fsub"@.len());
    assert("mul"@.len() != "fmul"@.len());
    assert("mul"@.len() != "fdiv"@.len());
    assert("mul"@.len() != "frem"@.len());
    assert("mul"@.len() != "lshr"@.len());
    assert("mul"@.len() != "ashr"@.len());
    assert("mul"@.len() != "or"@.len());
    assert("udiv"@.len() != "shl"@.len());
    assert("udiv"@.len() != "and"@.len());
    assert("udiv"@.len() != "or"@.len());
    assert("udiv"@.len() != "xor"@.len());
    assert("sdiv"@.len() != "shl"@.len());
    assert("sdiv"@.len() != "and"@.len());
    assert("sdiv"@.len() != "or"@.len());
    assert("sdiv"@.len() != "xor"@.len());
    assert("urem"@.len() != "shl"@.len());
    assert("urem"@.len() != "and"@.len());
    assert("urem"@.len() != "or"@.len());
    assert("urem"@.len() != "xor"@.len());
    assert("srem"@.len() != "shl"@.len());
    assert("srem"@.len() != "and"@.len());
    assert("srem"@.len() != "or"@.len());
    assert("srem"@.len() != "xor"@.len());
    assert("fadd"@.len() != "shl"@.len());
    assert("fadd"@.len() != "and"@.len());
    assert("fadd"@.len() != "or"@.len());
    assert("fadd"@.len() != "xor"@.len());
    assert("fsub"@.len() != "shl"@.len());
    assert("fsub"@.len() != "and"@.len());
    assert("fsub"@.len() != "or"@.len());
    assert("fsub"@.len() != "xor"@.len());
    assert("fmul"@.len() != "shl"@.len());
    assert("fmul"@.len() != "and"@.len());
    assert("fmul"@.len() != "or"@.len());
    assert("fmul"@.len() != "xor"@.len());
    assert("fdiv"@.len() != "shl"@.len());
    assert("fdiv"@.len() != "and"@.len());
    assert("fdiv"@.len() != "or"@.len());
    assert("fdiv"@.len() != "xor"@.len());
    assert("frem"@.len() != "shl"@.len());
    assert("frem"@.len() != "and"@.len());
    assert("frem"@.len() != "or"@.len());
    assert("frem"@.len() != "xor"@.len());
    assert("shl"@.len() != "lshr"@.len());
    assert("shl"@.len() != "ashr"@.len());
    assert("shl"@.len() != "or"@.len());
    assert("lshr"@.len() != "and"@.len());
    assert("lshr"@.len() != "or"@.len());
    assert("lshr"@.len() != "xor"@.len());
    assert("ashr"@.len() != "and"@.len());
    assert("ashr"@.len() != "or"@.len());
    assert("ashr"@.len() != "xor"@.len());
    assert("and"@.len() != "or"@.len());
    assert("or"@.len() != "xor"@.len());
    if binary_operator_of(opcode) == Some(op) {
        assert(binary_opcode_names(op).contains(opcode));
    }
    if binary_opcode_names(op).contains(opcode) {
        assert(binary_operator_of(opcode) == Some(op));
    }
}

} // verus!

verus! {

/// The LLVM predicates that name a comparison: a signed and an unsigned integer
/// predicate, or an ordered and an unordered float predicate, share a comparison.
pub open spec fn compare_predicate_names(op: CompareOperator) -> Set<Seq<char>> {
    match op {
        CompareOperator::Pred(ComparePredicate::EQ, NumRepr::Int) => set!["i_eq"@],
        CompareOperator::Pred(ComparePredicate::NE, NumRepr::Int) => set!["i_ne"@],
        CompareOperator::Pred(ComparePredicate::GT, NumRepr::Int) => set!["i_ugt"@, "i_sgt"@],
        CompareOperator::Pred(ComparePredicate::GE, NumRepr::Int) => set!["i_uge"@, "i_sge"@],
        CompareOperator::Pred(ComparePredicate::LT, NumRepr::Int) => set!["i_ult"@, "i_slt"@],
        CompareOperator::Pred(ComparePredicate::LE, NumRepr::Int) => set!["i_ule"@, "i_sle"@],
        CompareOperator::Pred(ComparePredicate::EQ, NumRepr::Float) => set!["f_oeq"@, "f_ueq"@],
        CompareOperator::Pred(ComparePredicate::NE, NumRepr::Float) => set!["f_one"@, "f_une"@],
        CompareOperator::Pred(ComparePredicate::GT, NumRepr::Float) => set!["f_ogt"@, "f_ugt"@],
        CompareOperator::Pred(ComparePredicate::GE, NumRepr::Float) => set!["f_oge"@, "f_uge"@],
        CompareOperator::Pred(ComparePredicate::LT, NumRepr::Float) => set!["f_olt"@, "f_ult"@],
        CompareOperator::Pred(ComparePredicate::LE, NumRepr::Float) => set!["f_ole"@, "f_ule"@],
        CompareOperator::Ord(true) => set!["f_ord"@],
        CompareOperator::Ord(false) => set!["f_uno"@],
    }
}

/// Reading a predicate gives the comparison that the predicate names, and only
/// the predicates that name a comparison are read.
pub proof fn law_compare_predicates(opcode: Seq<char>, op: CompareOperator)
    ensures
        compare_operator_of(opcode) == Some(op) <==> compare_predicate_names(op).contains(opcode),
{
    reveal_strlit("i_eq");
    reveal_strlit("i_ne");
    reveal_strlit("i_ugt");
    reveal_strlit("i_sgt");
    reveal_strlit("i_uge");
    reveal_strlit("i_sge");
    reveal_strlit("i_ult");
    reveal_strlit("i_slt");
    reveal_strlit("i_ule");
    reveal_strlit("i_sle");
    reveal_strlit("f_oeq");
    reveal_strlit("f_ueq");
    reveal_strlit("f_one");
    reveal_strlit("f_une");
    reveal_strlit("f_ogt");
    reveal_strlit("f_ugt");
    reveal_strlit("f_oge");
    reveal_strlit("f_uge");
    reveal_strlit("f_olt");
    reveal_strlit("f_ult");
    reveal_strlit("f_ole");
    reveal_strlit("f_ule");
    reveal_strlit("f_ord");
    reveal_strlit("f_uno");
    lemma_texts_differ_at("i_eq"@, "i_ne"@, 2);
    assert("i_eq"@.len() != "i_ugt"@.len());
    assert("i_eq"@.len() != "i_sgt"@.len());
    assert("i_eq"@.len() != "i_uge"@.len());
    assert("i_eq"@.len() != "i_sge"@.len());
    assert("i_eq"@.len() != "i_ult"@.len());
    assert("i_eq"@.len() != "i_slt"@.len());
    assert("i_eq"@.len() != "i_ule"@.len());
    assert("i_eq"@.len() != "i_sle"@.len());
    assert("i_eq"@.len() != "f_oeq"@.len());
    assert("i_eq"@.len() != "f_ueq"@.len());
    assert("i_eq"@.len() != "f_one"@.len());
    assert("i_eq"@.len() != "f_une"@.len());
    assert("i_eq"@.len() != "f_ogt"@.len());
    assert("i_eq"@.len() != "f_ugt"@.len());
    assert("i_eq"@.len() != "f_oge"@.len());
    assert("i_eq"@.len() != "f_uge"@.len());
    assert("i_eq"@.len() != "f_olt"@.len());
    assert("i_eq"@.len() != "f_ult"@.len());
    assert("i_eq"@.len() != "f_ole"@.len());
    assert("i_eq"@.len() != "f_ule"@.len());
    assert("i_eq"@.len() != "f_ord"@.len());
    assert("i_eq"@.len() != "f_uno"@.len());
    assert("i_ne"@.len() != "i_ugt"@.len());
    assert("i_ne"@.len() != "i_sgt"@.len());
    assert("i_ne"@.len() != "i_uge"@.len());
    assert("i_ne"@.len() != "i_sge"@.len());
    assert("i_ne"@.len() != "i_ult"@.len());
    assert("i_ne"@.len() != "i_slt"@.len());
    assert("i_ne"@.len() != "i_ule"@.len());
    assert("i_ne"@.len() != "i_sle"@.len());
    assert("i_ne"@.len() != "f_oeq"@.len());
    assert("i_ne"@.len() != "f_ueq"@.len());
    assert("i_ne"@.len() != "f_one"@.len());
    assert("i_ne"@.len() != "f_une"@.len());
    assert("i_ne"@.len() != "f_ogt"@.len());
    assert("i_ne"@.len() != "f_ugt"@.len());
    assert("i_ne"@.len() != "f_oge"@.len());
    assert("i_ne"@.len() != "f_uge"@.len());
    assert("i_ne"@.len() != "f_olt"@.len());
    assert("i_ne"@.len() != "f_ult"@.len());
    assert("i_ne"@.len() != "f_ole"@.len());
    assert("i_ne"@.len() != "f_ule"@.len());
    assert("i_ne"@.len() != "f_ord"@.len());
    assert("i_ne"@.len() != "f_uno"@.len());
    lemma_texts_differ_at("i_ugt"@, "i_sgt"@, 2);
    lemma_texts_differ_at("i_ugt"@, "i_uge"@, 4);
    lemma_texts_differ_at("i_ugt"@, "i_sge"@, 2);
    lemma_texts_differ_at("i_ugt"@, "i_ult"@, 3);
    lemma_texts_differ_at("i_ugt"@, "i_slt"@, 2);
    lemma_texts_differ_at("i_ugt"@, "i_ule"@, 3);
    lemma_texts_differ_at("i_ugt"@, "i_sle"@, 2);
    lemma_texts_differ_at("i_ugt"@, "f_oeq"@, 0);
    lemma_texts_differ_at("i_ugt"@, "f_ueq"@, 0);
    lemma_texts_differ_at("i_ugt"@, "f_one"@, 0);
    lemma_texts_differ_at("i_ugt"@, "f_une"@, 0);
    lemma_texts_differ_at("i_ugt"@, "f_ogt"@, 0);
    lemma_texts_differ_at("i_ugt"@, "f_ugt"@, 0);
    lemma_texts_differ_at("i_ugt"@, "f_oge"@, 0);
    lemma_texts_differ_at("i_ugt"@, "f_uge"@, 0);
    lemma_texts_differ_at("i_ugt"@, "f_olt"@, 0);
    lemma_texts_differ_at("i_ugt"@, "f_ult"@, 0);
    lemma_texts_differ_at("i_ugt"@, "f_ole"@, 0);
    lemma_texts_differ_at("i_ugt"@, "f_ule"@, 0);
    lemma_texts_differ_at("i_ugt"@, "f_ord"@, 0);
    lemma_texts_differ_at("i_ugt"@, "f_uno"@, 0);
    lemma_texts_differ_at("i_sgt"@, "i_uge"@, 2);
    lemma_texts_differ_at("i_sgt"@, "i_sge"@, 4);
    lemma_texts_differ_at("i_sgt"@, "i_ult"@, 2);
    lemma_texts_differ_at("i_sgt"@, "i_slt"@, 3);
    lemma_texts_differ_at("i_sgt"@, "i_ule"@, 2);
    lemma_texts_differ_at("i_sgt"@, "i_sle"@, 3);
    lemma_texts_differ_at("i_sgt"@, "f_oeq"@, 0);
    lemma_texts_differ_at("i_sgt"@, "f_ueq"@, 0);
    lemma_texts_differ_at("i_sgt"@, "f_one"@, 0);
    lemma_texts_differ_at("i_sgt"@, "f_une"@, 0);
    lemma_texts_differ_at("i_sgt"@, "f_ogt"@, 0);
    lemma_texts_differ_at("i_sgt"@, "f_ugt"@, 0);
    lemma_texts_differ_at("i_sgt"@, "f_oge"@, 0);
    lemma_texts_differ_at("i_sgt"@, "f_uge"@, 0);
    lemma_texts_differ_at("i_sgt"@, "f_olt"@, 0);
    lemma_texts_differ_at("i_sgt"@, "f_ult"@, 0);
    lemma_texts_differ_at("i_sgt"@, "f_ole"@, 0);
    lemma_texts_differ_at("i_sgt"@, "f_ule"@, 0);
    lemma_texts_differ_at("i_sgt"@, "f_ord"@, 0);
    lemma_texts_differ_at("i_sgt"@, "f_uno"@, 0);
    lemma_texts_differ_at("i_uge"@, "i_sge"@, 2);
    lemma_texts_differ_at("i_uge"@, "i_ult"@, 3);
    lemma_texts_differ_at("i_uge"@, "i_slt"@, 2);
    lemma_texts_differ_at("i_uge"@, "i_ule"@, 3);
    lemma_texts_differ_at("i_uge"@, "i_sle"@, 2);
    lemma_texts_differ_at("i_uge"@, "f_oeq"@, 0);
    lemma_texts_differ_at("i_uge"@, "f_ueq"@, 0);
    lemma_texts_differ_at("i_uge"@, "f_one"@, 0);
    lemma_texts_differ_at("i_uge"@, "f_une"@, 0);
    lemma_texts_differ_at("i_uge"@, "f_ogt"@, 0);
    lemma_texts_differ_at("i_uge"@, "f_ugt"@, 0);
    lemma_texts_differ_at("i_uge"@, "f_oge"@, 0);
    lemma_texts_differ_at("i_uge"@, "f_uge"@, 0);
    lemma_texts_differ_at("i_uge"@, "f_olt"@, 0);
    lemma_texts_differ_at("i_uge"@, "f_ult"@, 0);
    lemma_texts_differ_at("i_uge"@, "f_ole"@, 0);
    lemma_texts_differ_at("i_uge"@, "f_ule"@, 0);
    lemma_texts_differ_at("i_uge"@, "f_ord"@, 0);
    lemma_texts_differ_at("i_uge"@, "f_uno"@, 0);
    lemma_texts_differ_at("i_sge"@, "i_ult"@, 2);
    lemma_texts_differ_at("i_sge"@, "i_slt"@, 3);
    lemma_texts_differ_at("i_sge"@, "i_ule"@, 2);
    lemma_texts_differ_at("i_sge"@, "i_sle"@, 3);
    lemma_texts_differ_at("i_sge"@, "f_oeq"@, 0);
    lemma_texts_differ_at("i_sge"@, "f_ueq"@, 0);
    lemma_texts_differ_at("i_sge"@, "f_one"@, 0);
    lemma_texts_differ_at("i_sge"@, "f_une"@, 0);
    lemma_texts_differ_at("i_sge"@, "f_ogt"@, 0);
    lemma_texts_differ_at("i_sge"@, "f_ugt"@, 0);
    lemma_texts_differ_at("i_sge"@, "f_oge"@, 0);
    lemma_texts_differ_at("i_sge"@, "f_uge"@, 0);
    lemma_texts_differ_at("i_sge"@, "f_olt"@, 0);
    lemma_texts_differ_at("i_sge"@, "f_ult"@, 0);
    lemma_texts_differ_at("i_sge"@, "f_ole"@, 0);
    lemma_texts_differ_at("i_sge"@, "f_ule"@, 0);
    lemma_texts_differ_at("i_sge"@, "f_ord"@, 0);
    lemma_texts_differ_at("i_sge"@, "f_uno"@, 0);
    lemma_texts_differ_at("i_ult"@, "i_slt"@, 2);
    lemma_texts_differ_at("i_ult"@, "i_ule"@, 4);
    lemma_texts_differ_at("i_ult"@, "i_sle"@, 2);
    lemma_texts_differ_at("i_ult"@, "f_oeq"@, 0);
    lemma_texts_differ_at("i_ult"@, "f_ueq"@, 0);
    lemma_texts_differ_at("i_ult"@, "f_one"@, 0);
    lemma_texts_differ_at("i_ult"@, "f_une"@, 0);
    lemma_texts_differ_at("i_ult"@, "f_ogt"@, 0);
    lemma_texts_differ_at("i_ult"@, "f_ugt"@, 0);
    lemma_texts_differ_at("i_ult"@, "f_oge"@, 0);
    lemma_texts_differ_at("i_ult"@, "f_uge"@, 0);
    lemma_texts_differ_at("i_ult"@, "f_olt"@, 0);
    lemma_texts_differ_at("i_ult"@, "f_ult"@, 0);
    lemma_texts_differ_at("i_ult"@, "f_ole"@, 0);
    lemma_texts_differ_at("i_ult"@, "f_ule"@, 0);
    lemma_texts_differ_at("i_ult"@, "f_ord"@, 0);
    lemma_texts_differ_at("i_ult"@, "f_uno"@, 0);
    lemma_texts_differ_at("i_slt"@, "i_ule"@, 2);
    lemma_texts_differ_at("i_slt"@, "i_sle"@, 4);
    lemma_texts_differ_at("i_slt"@, "f_oeq"@, 0);
    lemma_texts_differ_at("i_slt"@, "f_ueq"@, 0);
    lemma_texts_differ_at("i_slt"@, "f_one"@, 0);
    lemma_texts_differ_at("i_slt"@, "f_une"@, 0);
    lemma_texts_differ_at("i_slt"@, "f_ogt"@, 0);
    lemma_texts_differ_at("i_slt"@, "f_ugt"@, 0);
    lemma_texts_differ_at("i_slt"@, "f_oge"@, 0);
    lemma_texts_differ_at("i_slt"@, "f_uge"@, 0);
    lemma_texts_differ_at("i_slt"@, "f_olt"@, 0);
    lemma_texts_differ_at("i_slt"@, "f_ult"@, 0);
    lemma_texts_differ_at("i_slt"@, "f_ole"@, 0);
    lemma_texts_differ_at("i_slt"@, "f_ule"@, 0);
    lemma_texts_differ_at("i_slt"@, "f_ord"@, 0);
    lemma_texts_differ_at("i_slt"@, "f_uno"@, 0);
    lemma_texts_differ_at("i_ule"@, "i_sle"@, 2);
    lemma_texts_differ_at("i_ule"@, "f_oeq"@, 0);
    lemma_texts_differ_at("i_ule"@, "f_ueq"@, 0);
    lemma_texts_differ_at("i_ule"@, "f_one"@, 0);
    lemma_texts_differ_at("i_ule"@, "f_une"@, 0);
    lemma_texts_differ_at("i_ule"@, "f_ogt"@, 0);
    lemma_texts_differ_at("i_ule"@, "f_ugt"@, 0);
    lemma_texts_differ_at("i_ule"@, "f_oge"@, 0);
    lemma_texts_differ_at("i_ule"@, "f_uge"@, 0);
    lemma_texts_differ_at("i_ule"@, "f_olt"@, 0);
    lemma_texts_differ_at("i_ule"@, "f_ult"@, 0);
    lemma_texts_differ_at("i_ule"@, "f_ole"@, 0);
    lemma_texts_differ_at("i_ule"@, "f_ule"@, 0);
    lemma_texts_differ_at("i_ule"@, "f_ord"@, 0);
    lemma_texts_differ_at("i_ule"@, "f_uno"@, 0);
    lemma_texts_differ_at("i_sle"@, "f_oeq"@, 0);
    lemma_texts_differ_at("i_sle"@, "f_ueq"@, 0);
    lemma_texts_differ_at("i_sle"@, "f_one"@, 0);
    lemma_texts_differ_at("i_sle"@, "f_une"@, 0);
    lemma_texts_differ_at("i_sle"@, "f_ogt"@, 0);
    lemma_texts_differ_at("i_sle"@, "f_ugt"@, 0);
    lemma_texts_differ_at("i_sle"@, "f_oge"@, 0);
    lemma_texts_differ_at("i_sle"@, "f_uge"@, 0);
    lemma_texts_differ_at("i_sle"@, "f_olt"@, 0);
    lemma_texts_differ_at("i_sle"@, "f_ult"@, 0);
    lemma_texts_differ_at("i_sle"@, "f_ole"@, 0);
    lemma_texts_differ_at("i_sle"@, "f_ule"@, 0);
    lemma_texts_differ_at("i_sle"@, "f_ord"@, 0);
    lemma_texts_differ_at("i_sle"@, "f_uno"@, 0);
    lemma_texts_differ_at("f_oeq"@, "f_ueq"@, 2);
    lemma_texts_differ_at("f_oeq"@, "f_one"@, 3);
    lemma_texts_differ_at("f_oeq"@, "f_une"@, 2);
    lemma_texts_differ_at("f_oeq"@, "f_ogt"@, 3);
    lemma_texts_differ_at("f_oeq"@, "f_ugt"@, 2);
    lemma_texts_differ_at("f_oeq"@, "f_oge"@, 3);
    lemma_texts_differ_at("f_oeq"@, "f_uge"@, 2);
    lemma_texts_differ_at("f_oeq"@, "f_olt"@, 3);
    lemma_texts_differ_at("f_oeq"@, "f_ult"@, 2);
    lemma_texts_differ_at("f_oeq"@, "f_ole"@, 3);
    lemma_texts_differ_at("f_oeq"@, "f_ule"@, 2);
    lemma_texts_differ_at("f_oeq"@, "f_ord"@, 3);
    lemma_texts_differ_at("f_oeq"@, "f_uno"@, 2);
    lemma_texts_differ_at("f_ueq"@, "f_one"@, 2);
    lemma_texts_differ_at("f_ueq"@, "f_une"@, 3);
    lemma_texts_differ_at("f_ueq"@, "f_ogt"@, 2);
    lemma_texts_differ_at("f_ueq"@, "f_ugt"@, 3);
    lemma_texts_differ_at("f_ueq"@, "f_oge"@, 2);
    lemma_texts_differ_at("f_ueq"@, "f_uge"@, 3);
    lemma_texts_differ_at("f_ueq"@, "f_olt"@, 2);
    lemma_texts_differ_at("f_ueq"@, "f_ult"@, 3);
    lemma_texts_differ_at("f_ueq"@, "f_ole"@, 2);
    lemma_texts_differ_at("f_ueq"@, "f_ule"@, 3);
    lemma_texts_differ_at("f_ueq"@, "f_ord"@, 2);
    lemma_texts_differ_at("f_ueq"@, "f_uno"@, 3);
    lemma_texts_differ_at("f_one"@, "f_une"@, 2);
    lemma_texts_differ_at("f_one"@, "f_ogt"@, 3);
    lemma_texts_differ_at("f_one"@, "f_ugt"@, 2);
    lemma_texts_differ_at("f_one"@, "f_oge"@, 3);
    lemma_texts_differ_at("f_one"@, "f_uge"@, 2);
    lemma_texts_differ_at("f_one"@, "f_olt"@, 3);
    lemma_texts_differ_at("f_one"@, "f_ult"@, 2);
    lemma_texts_differ_at("f_one"@, "f_ole"@, 3);
    lemma_texts_differ_at("f_one"@, "f_ule"@, 2);
    lemma_texts_differ_at("f_one"@, "f_ord"@, 3);
    lemma_texts_differ_at("f_one"@, "f_uno"@, 2);
    lemma_texts_differ_at("f_une"@, "f_ogt"@, 2);
    lemma_texts_differ_at("f_une"@, "f_ugt"@, 3);
    lemma_texts_differ_at("f_une"@, "f_oge"@, 2);
    lemma_texts_differ_at("f_une"@, "f_uge"@, 3);
    lemma_texts_differ_at("f_une"@, "f_olt"@, 2);
    lemma_texts_differ_at("f_une"@, "f_ult"@, 3);
    lemma_texts_differ_at("f_une"@, "f_ole"@, 2);
    lemma_texts_differ_at("f_une"@, "f_ule"@, 3);
    lemma_texts_differ_at("f_une"@, "f_ord"@, 2);
    lemma_texts_differ_at("f_une"@, "f_uno"@, 4);
    lemma_texts_differ_at("f_ogt"@, "f_ugt"@, 2);
    lemma_texts_differ_at("f_ogt"@, "f_oge"@, 4);
    lemma_texts_differ_at("f_ogt"@, "f_uge"@, 2);
    lemma_texts_differ_at("f_ogt"@, "f_olt"@, 3);
    lemma_texts_differ_at("f_ogt"@, "f_ult"@, 2);
    lemma_texts_differ_at("f_ogt"@, "f_ole"@, 3);
    lemma_texts_differ_at("f_ogt"@, "f_ule"@, 2);
    lemma_texts_differ_at("f_ogt"@, "f_ord"@, 3);
    lemma_texts_differ_at("f_ogt"@, "f_uno"@, 2);
    lemma_texts_differ_at("f_ugt"@, "f_oge"@, 2);
    lemma_texts_differ_at("f_ugt"@, "f_uge"@, 4);
    lemma_texts_differ_at("f_ugt"@, "f_olt"@, 2);
    lemma_texts_differ_at("f_ugt"@, "f_ult"@, 3);
    lemma_texts_differ_at("f_ugt"@, "f_ole"@, 2);
    lemma_texts_differ_at("f_ugt"@, "f_ule"@, 3);
    lemma_texts_differ_at("f_ugt"@, "f_ord"@, 2);
    lemma_texts_differ_at("f_ugt"@, "f_uno"@, 3);
    lemma_texts_differ_at("f_oge"@, "f_uge"@, 2);
    lemma_texts_differ_at("f_oge"@, "f_olt"@, 3);
    lemma_texts_differ_at("f_oge"@, "f_ult"@, 2);
    lemma_texts_differ_at("f_oge"@, "f_ole"@, 3);
    lemma_texts_differ_at("f_oge"@, "f_ule"@, 2);
    lemma_texts_differ_at("f_oge"@, "f_ord"@, 3);
    lemma_texts_differ_at("f_oge"@, "f_uno"@, 2);
    lemma_texts_differ_at("f_uge"@, "f_olt"@, 2);
    lemma_texts_differ_at("f_uge"@, "f_ult"@, 3);
    lemma_texts_differ_at("f_uge"@, "f_ole"@, 2);
    lemma_texts_differ_at("f_uge"@, "f_ule"@, 3);
    lemma_texts_differ_at("f_uge"@, "f_ord"@, 2);
    lemma_texts_differ_at("f_uge"@, "f_uno"@, 3);
    lemma_texts_differ_at("f_olt"@, "f_ult"@, 2);
    lemma_texts_differ_at("f_olt"@, "f_ole"@, 4);
    lemma_texts_differ_at("f_olt"@, "f_ule"@, 2);
    lemma_texts_differ_at("f_olt"@, "f_ord"@, 3);
    lemma_texts_differ_at("f_olt"@, "f_uno"@, 2);
    lemma_texts_differ_at("f_ult"@, "f_ole"@, 2);
    lemma_texts_differ_at("f_ult"@, "f_ule"@, 4);
    lemma_texts_differ_at("f_ult"@, "f_ord"@, 2);
    lemma_texts_differ_at("f_ult"@, "f_uno"@, 3);
    lemma_texts_differ_at("f_ole"@, "f_ule"@, 2);
    lemma_texts_differ_at("f_ole"@, "f_ord"@, 3);
    lemma_texts_differ_at("f_ole"@, "f_uno"@, 2);
    lemma_texts_differ_at("f_ule"@, "f_ord"@, 2);
    lemma_texts_differ_at("f_ule"@, "f_uno"@, 3);
    lemma_texts_differ_at("f_ord"@, "f_uno"@, 2);
    if compare_operator_of(opcode) == Some(op) {
        assert(compare_predicate_names(op).contains(opcode));
    }
    if compare_predicate_names(op).contains(opcode) {
        assert(compare_operator_of(opcode) == Some(op));
    }
}

} // verus!

verus! {

/// The LLVM opcodes that name a unary operator: only float negation has one.
pub open spec fn unary_opcode_names(op: UnaryOperator) -> Set<Seq<char>> {
    match op {
        UnaryOperator::Arithmetic(UnaryOpArith::Neg, NumRepr::Float) => set!["fneg"@],
        UnaryOperator::Arithmetic(UnaryOpArith::Neg, NumRepr::Int) => Set::empty(),
    }
}

/// Reading a unary opcode gives the operator that the opcode names, and only
/// the opcodes that name an operator are read.
pub proof fn law_unary_opcodes(opcode: Seq<char>, op: UnaryOperator)
    ensures
        unary_operator_of(opcode) == Some(op) <==> unary_opcode_names(op).contains(opcode),
{
}

} // verus!
