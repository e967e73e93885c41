use vstd::prelude::*;

use crate::error::{Failure, Unsupported};
use crate::ir::adapter::constant::{Const, Constant as AConstant};
use crate::ir::adapter::instruction::Inst;
use crate::ir::adapter::typing::TypeView;
use crate::ir::adapter::value::{value_type, Value as AValue};
use crate::ir::constant::{filler_value, Fraction, NumValue};
use crate::ir::model::{ConstIndexModel, ConstModel, ExprModel, IndexModel, InstModel, TermModel, ValueModel};
use crate::ir::operator::{
    binary_operator_of, compare_operator_of, is_constant_predicate, unary_operator_of, BinaryOperator,
    CompareOperator, UnaryOperator,
};
use crate::ir::typing::{convert_type, type_text, NumRepr, TypeModel};
use crate::ir::value::{BlockLabel, RegisterSlot};
use crate::text::{decimal_text, digit_char};

verus! {

/// What reading a constant sees: the struct definitions and the names of the
/// global variables and functions of the module.
pub struct Scope {
    pub structs: Map<Seq<char>, Seq<TypeView>>,
    pub globals: Seq<Seq<char>>,
    pub functions: Seq<Seq<char>>,
}

/// What reading an instruction sees besides the scope: the labels of the blocks
/// of the function, the types of its arguments and its return type.
pub struct Env {
    pub scope: Scope,
    pub blocks: Set<usize>,
    pub args: Map<usize, TypeModel>,
    pub ret: Option<TypeModel>,
}

/// The environment of a constant expression: no function body around it.
pub open spec fn bare_env(sc: Scope) -> Env {
    Env { scope: sc, blocks: Set::empty(), args: Map::empty(), ret: None }
}

/// A type read from a module, as the analysis sees it.
pub open spec fn conv_ty(sc: Scope, t: TypeView) -> Result<TypeModel, Failure> {
    convert_type(t, sc.structs)
}

/// The failure of a constant whose type is not the one expected.
pub open spec fn type_mismatch(expected: TypeModel, actual: TypeModel) -> Failure {
    Failure::Assumption("type mismatch: expect "@ + type_text(expected) + ", found "@ + type_text(actual))
}

/// The failure of a constant of a kind that the expected type does not admit.
pub open spec fn kind_mismatch(kind: Seq<char>, expected: TypeModel) -> Failure {
    Failure::Assumption("type mismatch: expect "@ + kind + ", found "@ + type_text(expected))
}

/// The failure, if any, of checking that a type read from a module is the expected one.
pub open spec fn type_check(sc: Scope, t: TypeView, expected: TypeModel) -> Option<Failure> {
    match conv_ty(sc, t) {
        Err(f) => Some(f),
        Ok(a) => if a == expected {
            None
        } else {
            Some(type_mismatch(expected, a))
        },
    }
}

/// The failure of an aggregate constant with the wrong number of elements.
pub open spec fn count_mismatch(expected: nat, found: nat) -> Failure {
    Failure::Assumption(
        "type mismatch: expect "@ + decimal_text(expected) + " elements, found "@ + decimal_text(found),
    )
}

/// The value of a decimal digit.
pub open spec fn digit_value(c: char) -> int {
    c as int - '0' as int
}

/// A non-empty run of decimal digits.
pub open spec fn is_digits(s: Seq<char>) -> bool {
    s.len() > 0 && forall|i: int| 0 <= i < s.len() ==> '0' <= #[trigger] s[i] <= '9'
}

/// The number that a run of decimal digits denotes.
pub open spec fn digits_value(s: Seq<char>) -> nat
    decreases s.len(),
{
    if s.len() == 0 {
        0
    } else {
        (digits_value(s.drop_last()) * 10 + digit_value(s.last())) as nat
    }
}

/// The integer that a decimal numeral (an optional sign, then digits) denotes.
pub open spec fn int_text_value(s: Seq<char>) -> Option<int> {
    if s.len() > 0 && s[0] == '-' && is_digits(s.skip(1)) {
        Some(-digits_value(s.skip(1)))
    } else if s.len() > 0 && s[0] == '+' && is_digits(s.skip(1)) {
        Some(digits_value(s.skip(1)) as int)
    } else if is_digits(s) {
        Some(digits_value(s) as int)
    } else {
        None
    }
}

/// The value of an integer constant: its numeral, where it fits 128 signed bits.
pub open spec fn int_constant_value(s: Seq<char>) -> Option<i128> {
    match int_text_value(s) {
        Some(v) => if i128::MIN <= v <= i128::MAX {
            Some(v as i128)
        } else {
            None
        },
        None => None,
    }
}

/// Ten to the power `n`.
pub open spec fn pow10(n: nat) -> nat
    decreases n,
{
    if n == 0 {
        1
    } else {
        10 * pow10((n - 1) as nat)
    }
}

/// The texts that name an infinity or a NaN, after an optional sign.
pub open spec fn is_special_float(s: Seq<char>) -> bool {
    s == "inf"@ || s == "Inf"@ || s == "nan"@ || s == "NaN"@
}

/// Index of the first exponent mark (`e` or `E`) in a numeral, if any.
pub open spec fn first_exp_index(s: Seq<char>) -> Option<int>
    decreases s.len(),
{
    if s.len() == 0 {
        None
    } else if s[0] == 'e' || s[0] == 'E' {
        Some(0)
    } else {
        match first_exp_index(s.drop_first()) {
            Some(i) => Some(i + 1),
            None => None,
        }
    }
}

pub proof fn lemma_first_exp_index(s: Seq<char>)
    ensures
        match first_exp_index(s) {
            Some(i) => 0 <= i < s.len() && (s[i] == 'e' || s[i] == 'E') && forall|j: int|
                0 <= j < i ==> s[j] != 'e' && s[j] != 'E',
            None => forall|j: int| 0 <= j < s.len() ==> s[j] != 'e' && s[j] != 'E',
        },
    decreases s.len(),
{
    if s.len() > 0 && s[0] != 'e' && s[0] != 'E' {
        lemma_first_exp_index(s.drop_first());
        assert forall|j: int| 0 < j < s.len() implies s[j] == s.drop_first()[j - 1] by {}
    }
}

/// The unsigned part of a decimal float numeral: its digits without the point, the
/// number of digits after the point, and the exponent.
pub open spec fn unsigned_float_parts(s: Seq<char>) -> Option<(nat, nat, int)> {
    let e = first_exp_index(s);
    let (body, exp) = match e {
        Some(i) => (s.take(i), Some(s.skip(i + 1))),
        None => (s, None),
    };
    let exp_value = match exp {
        None => Some(0int),
        Some(x) => int_text_value(x),
    };
    let (int_part, frac_part) = match crate::text::first_index_of(body, '.') {
        Some(i) => (body.take(i), body.skip(i + 1)),
        None => (body, Seq::empty()),
    };
    if is_digits(int_part) && (frac_part.len() == 0 || is_digits(frac_part)) && exp_value is Some {
        Some((digits_value(int_part + frac_part), frac_part.len(), exp_value.unwrap()))
    } else {
        None
    }
}

/// The exact rational value of a float numeral, as a fraction whose denominator is
/// a power of ten; `None` inside for an infinity or a NaN; `None` outside for a
/// text that is not a numeral, or a value that does not fit.
pub open spec fn float_constant_value(s: Seq<char>) -> Option<Option<Fraction>> {
    let negative = s.len() > 0 && s[0] == '-';
    let body = if s.len() > 0 && (s[0] == '-' || s[0] == '+') {
        s.skip(1)
    } else {
        s
    };
    if is_special_float(body) {
        Some(None)
    } else {
        match unsigned_float_parts(body) {
            None => None,
            Some((m, k, e)) => match fraction_of(negative, m, k, e) {
                Some(f) => Some(Some(f)),
                None => None,
            },
        }
    }
}

/// The value `m * 10^(e - k)` (negated where `negative`) as a fraction whose
/// denominator is a power of ten, where it fits.
pub open spec fn fraction_of(negative: bool, m: nat, k: nat, e: int) -> Option<Fraction> {
    let shift = e - k;
    if shift >= 0 {
        let n = m * pow10(shift as nat);
        if n <= i128::MAX {
            Some(Fraction { numer: (if negative { -n } else { n as int }) as i128, denom: 1 })
        } else {
            None
        }
    } else {
        let d = pow10((-shift) as nat);
        if m <= i128::MAX && d <= u128::MAX {
            Some(Fraction { numer: (if negative { -m } else { m as int }) as i128, denom: d as u128 })
        } else {
            None
        }
    }
}

/// The constant that fills a slot of a type: zero numbers (or undefined ones),
/// null (or undefined) pointers, and aggregates filled slot by slot.
pub open spec fn filled_model(t: TypeModel, undef: bool) -> ConstModel
    decreases t,
{
    match t {
        TypeModel::Bitvec { bits, number, length } => match length {
            None => ConstModel::NumOne { bits, value: filler_value(number, undef) },
            Some(len) => ConstModel::NumVec {
                bits,
                number,
                elements: Seq::new(len as nat, |i: int| ConstModel::NumOne { bits, value: filler_value(number, undef) }),
            },
        },
        TypeModel::Array { element, length } => ConstModel::Array {
            sub: *element,
            elements: Seq::new(length as nat, |i: int| filled_model(*element, undef)),
        },
        TypeModel::Struct { name, fields } => ConstModel::Struct {
            name,
            fields: Seq::new(
                fields.len(),
                |i: int|
                    if 0 <= i < fields.len() {
                        filled_model(fields[i], undef)
                    } else {
                        ConstModel::Null
                    },
            ),
        },
        TypeModel::Function { .. } => ConstModel::Null,
        TypeModel::Pointer => if undef {
            ConstModel::UndefPointer
        } else {
            ConstModel::Null
        },
    }
}

/// The outcome of filling a slot of a type (see [`crate::ir::constant::fill_failure`]).
pub open spec fn fill_outcome(t: TypeModel, undef: bool) -> Result<ConstModel, Failure> {
    match crate::ir::constant::fill_failure(t, undef) {
        Some(f) => Err(f),
        None => Ok(filled_model(t, undef)),
    }
}

/// Reads a constant of the expected type.
pub open spec fn conv_const(sc: Scope, c: AConstant, expected: TypeModel) -> Result<ConstModel, Failure>
    decreases c, 0nat,
{
    match c.repr {
        Const::Int { value } => match type_check(sc, c.ty@, expected) {
            Some(f) => Err(f),
            None => match expected {
                TypeModel::Bitvec { bits, number: NumRepr::Int, length: None } => match int_constant_value(value@) {
                    Some(v) => Ok(ConstModel::NumOne { bits, value: NumValue::Int(v) }),
                    None => Err(Failure::Invariant("const int parse error: "@ + value@)),
                },
                _ => Err(kind_mismatch("int"@, expected)),
            },
        },
        Const::Float { value } => match type_check(sc, c.ty@, expected) {
            Some(f) => Err(f),
            None => match expected {
                TypeModel::Bitvec { bits, number: NumRepr::Float, length: None } => match float_constant_value(value@) {
                    Some(v) => Ok(ConstModel::NumOne { bits, value: NumValue::Float(v) }),
                    None => Err(Failure::Invariant("const float parse error: "@ + value@)),
                },
                _ => Err(kind_mismatch("float"@, expected)),
            },
        },
        Const::Null => match type_check(sc, c.ty@, expected) {
            Some(f) => Err(f),
            None => if expected is Pointer {
                Ok(ConstModel::Null)
            } else {
                Err(kind_mismatch("pointer"@, expected))
            },
        },
        Const::TokenNone => Err(Failure::Assumption("unexpected constant none for type: "@ + type_text(expected))),
        Const::Extension => Err(Failure::Unsupported(Unsupported::ArchSpecificExtension)),
        Const::Undef => match type_check(sc, c.ty@, expected) {
            Some(f) => Err(f),
            None => fill_outcome(expected, true),
        },
        Const::Default => match type_check(sc, c.ty@, expected) {
            Some(f) => Err(f),
            None => fill_outcome(expected, false),
        },
        Const::Vector { elements } => match type_check(sc, c.ty@, expected) {
            Some(f) => Err(f),
            None => match expected {
                TypeModel::Bitvec { bits, number, length: Some(len) } => if elements@.len() != len {
                    Err(count_mismatch(len as nat, elements@.len()))
                } else {
                    match conv_elements(sc, elements@, TypeModel::Bitvec { bits, number, length: None }, elements@.len()) {
                        Err(f) => Err(f),
                        Ok(es) => Ok(ConstModel::NumVec { bits, number, elements: es }),
                    }
                },
                _ => Err(kind_mismatch("vector"@, expected)),
            },
        },
        Const::Array { elements } => match type_check(sc, c.ty@, expected) {
            Some(f) => Err(f),
            None => match expected {
                TypeModel::Array { element, length } => if elements@.len() != length {
                    Err(count_mismatch(length as nat, elements@.len()))
                } else {
                    match conv_elements(sc, elements@, *element, elements@.len()) {
                        Err(f) => Err(f),
                        Ok(es) => Ok(ConstModel::Array { sub: *element, elements: es }),
                    }
                },
                _ => Err(kind_mismatch("array"@, expected)),
            },
        },
        Const::Struct { elements } => match type_check(sc, c.ty@, expected) {
            Some(f) => Err(f),
            None => match expected {
                TypeModel::Struct { name, fields } => if elements@.len() != fields.len() {
                    Err(count_mismatch(fields.len(), elements@.len()))
                } else {
                    match conv_fields(sc, elements@, fields, elements@.len()) {
                        Err(f) => Err(f),
                        Ok(es) => Ok(ConstModel::Struct { name, fields: es }),
                    }
                },
                _ => Err(kind_mismatch("array"@, expected)),
            },
        },
        Const::Variable { name } => match type_check(sc, c.ty@, expected) {
            Some(f) => Err(f),
            None => if !(expected is Pointer) {
                Err(kind_mismatch("pointer"@, expected))
            } else {
                match name {
                    None => Err(Failure::Unsupported(Unsupported::AnonymousGlobalVariable)),
                    Some(n) => if sc.globals.contains(n@) {
                        Ok(ConstModel::Variable { name: n@ })
                    } else {
                        Err(Failure::Assumption("unexpected reference to an unknown global variable: "@ + n@))
                    },
                }
            },
        },
        Const::Function { name } => match type_check(sc, c.ty@, expected) {
            Some(f) => Err(f),
            None => if !(expected is Pointer) {
                Err(kind_mismatch("pointer"@, expected))
            } else {
                match name {
                    None => Err(Failure::Unsupported(Unsupported::AnonymousFunction)),
                    Some(n) => if sc.functions.contains(n@) {
                        Ok(ConstModel::Function { name: n@ })
                    } else {
                        Err(Failure::Assumption("unexpected reference to an unknown function: "@ + n@))
                    },
                }
            },
        },
        Const::Alias { .. } => Err(Failure::Unsupported(Unsupported::GlobalAlias)),
        Const::Interface { .. } => Err(Failure::Unsupported(Unsupported::InterfaceResolver)),
        Const::Marker { .. } => Err(Failure::Unsupported(Unsupported::GlobalMarker)),
        Const::PC => Err(Failure::Unsupported(Unsupported::IndirectJump)),
        Const::Expr { inst } => match type_check(sc, c.ty@, expected) {
            Some(f) => Err(f),
            None => match conv_inst(bare_env(sc), Map::empty(), c.ty@, usize::MAX, *inst).0 {
                Err(f) => Err(f),
                Ok(m) => match expr_of(m) {
                    Err(f) => Err(f),
                    Ok(e) => Ok(ConstModel::Expr(Box::new(e))),
                },
            },
        },
    }
}

/// Reads the first `n` constants of a list, each of the same type; the first failure wins.
pub open spec fn conv_elements(sc: Scope, es: Seq<AConstant>, t: TypeModel, n: nat) -> Result<Seq<ConstModel>, Failure>
    decreases es, n,
{
    if n == 0 || n > es.len() {
        Ok(Seq::empty())
    } else {
        match conv_elements(sc, es, t, (n - 1) as nat) {
            Err(f) => Err(f),
            Ok(p) => match conv_const(sc, es[n - 1], t) {
                Err(f) => Err(f),
                Ok(x) => Ok(p.push(x)),
            },
        }
    }
}

/// Reads the first `n` constants of a list, each of its own type; the first failure wins.
pub open spec fn conv_fields(sc: Scope, es: Seq<AConstant>, ts: Seq<TypeModel>, n: nat) -> Result<Seq<ConstModel>, Failure>
    decreases es, n,
{
    if n == 0 || n > es.len() || n > ts.len() {
        Ok(Seq::empty())
    } else {
        match conv_fields(sc, es, ts, (n - 1) as nat) {
            Err(f) => Err(f),
            Ok(p) => match conv_const(sc, es[n - 1], ts[n - 1]) {
                Err(f) => Err(f),
                Ok(x) => Ok(p.push(x)),
            },
        }
    }
}

/// The types the registers of a function body have been seen with: a register is
/// known once its instruction is, and gets its type at its first use.
pub type Regs = Map<usize, Option<TypeModel>>;

/// Reads a value of the expected type, and records the type of a register it uses.
pub open spec fn conv_value(env: Env, regs: Regs, v: AValue, expected: TypeModel) -> (Result<ValueModel, Failure>, Regs)
    decreases v, 0nat,
{
    match v {
        AValue::Constant(c) => (
            match conv_const(env.scope, c, expected) {
                Err(f) => Err(f),
                Ok(m) => Ok(ValueModel::Constant(m)),
            },
            regs,
        ),
        AValue::Argument { ty, index } => (
            match conv_ty(env.scope, ty@) {
                Err(f) => Err(f),
                Ok(actual) => if expected != actual {
                    Err(Failure::Invariant("argument type mismatch"@))
                } else if !env.args.contains_key(index) {
                    Err(Failure::Invariant("invalid argument index"@))
                } else if env.args[index] != actual {
                    Err(Failure::Invariant("param type mismatch"@))
                } else {
                    Ok(ValueModel::Argument { index, ty: actual })
                },
            },
            regs,
        ),
        AValue::Instruction { ty, index } => match conv_ty(env.scope, ty@) {
            Err(f) => (Err(f), regs),
            Ok(actual) => if expected != actual {
                (Err(Failure::Invariant("instruction type mismatch"@)), regs)
            } else {
                let after = regs.insert(index, Some(actual));
                if !regs.contains_key(index) {
                    (Err(Failure::Invariant("invalid instruction index"@)), after)
                } else {
                    match regs[index] {
                        Some(t) => if t != actual {
                            (Err(Failure::Invariant("register type mismatch"@)), after)
                        } else {
                            (Ok(ValueModel::Register { index, ty: actual }), after)
                        },
                        None => (Ok(ValueModel::Register { index, ty: actual }), after),
                    }
                }
            },
        },
        AValue::Label { .. } => (Err(Failure::Unsupported(Unsupported::IndirectJump)), regs),
        AValue::Metadata => (Err(Failure::Unsupported(Unsupported::MetadataSystem)), regs),
    }
}

/// Reads a value whose type must be a one-bit integer.
pub open spec fn conv_int1(env: Env, regs: Regs, v: AValue) -> (Result<ValueModel, Failure>, Regs)
    decreases v, 1nat,
{
    match value_type(v) {
        TypeView::Int { width, .. } => if width == 1 {
            conv_value(env, regs, v, TypeModel::Bitvec { bits: 1, number: NumRepr::Int, length: None })
        } else {
            (not_int1(env, value_type(v)), regs)
        },
        _ => (not_int1(env, value_type(v)), regs),
    }
}

/// The failure of a value that is not a one-bit integer.
pub open spec fn not_int1(env: Env, t: TypeView) -> Result<ValueModel, Failure> {
    match conv_ty(env.scope, t) {
        Err(f) => Err(f),
        Ok(m) => Err(Failure::Assumption("expect int1, found "@ + type_text(m))),
    }
}

/// Reads a value whose type must be a scalar integer of any width.
pub open spec fn conv_int_any(env: Env, regs: Regs, v: AValue) -> (Result<ValueModel, Failure>, Regs)
    decreases v, 1nat,
{
    match conv_ty(env.scope, value_type(v)) {
        Err(f) => (Err(f), regs),
        Ok(t) => match t {
            TypeModel::Bitvec { number: NumRepr::Int, length: None, .. } => conv_value(env, regs, v, t),
            _ => (Err(Failure::Assumption("expect int(any) found "@ + type_text(t))), regs),
        },
    }
}

} // verus!

verus! {

/// The register an instruction at `index` defines.
pub open spec fn slot(index: usize) -> RegisterSlot {
    RegisterSlot(index)
}

/// Reads the body of an instruction of the given type at the given index.
pub open spec fn conv_inst(env: Env, regs: Regs, ty: TypeView, index: usize, repr: Inst) -> (Result<InstModel, Failure>, Regs)
    decreases repr, 2nat,
{
    match repr {
        Inst::Alloca { .. } => conv_alloca(env, regs, ty, index, repr),
        Inst::Load { .. } => conv_load(env, regs, ty, index, repr),
        Inst::Store { .. } => conv_store(env, regs, ty, index, repr),
        Inst::VAArg { pointer } => match conv_value(env, regs, pointer, TypeModel::Pointer) {
            (Err(f), r) => (Err(f), r),
            (Ok(p), r) => (Ok(InstModel::VariadicArg { pointer: p }), r),
        },
        Inst::CallDirect { .. } => conv_call(env, regs, ty, index, repr),
        Inst::CallIndirect { .. } => conv_call(env, regs, ty, index, repr),
        Inst::Intrinsic { .. } => conv_call(env, regs, ty, index, repr),
        Inst::CallAsm { .. } => (Err(Failure::Unsupported(Unsupported::InlineAssembly)), regs),
        Inst::Unary { .. } => conv_unary(env, regs, ty, index, repr),
        Inst::Binary { .. } => conv_binary(env, regs, ty, index, repr),
        Inst::Compare { .. } => conv_compare(env, regs, ty, index, repr),
        Inst::Cast { .. } => conv_cast(env, regs, ty, index, repr),
        Inst::Freeze { .. } => conv_freeze(env, regs, ty, index, repr),
        Inst::GEP { .. } => conv_gep(env, regs, ty, index, repr),
        Inst::ITE { .. } => conv_ite(env, regs, ty, index, repr),
        Inst::Phi { .. } => conv_phi(env, regs, ty, index, repr),
        Inst::GetValue { .. } => conv_get_value(env, regs, ty, index, repr),
        Inst::SetValue { .. } => conv_set_value(env, regs, ty, index, repr),
        Inst::GetElement { .. } => conv_get_element(env, regs, ty, index, repr),
        Inst::SetElement { .. } => conv_set_element(env, regs, ty, index, repr),
        Inst::ShuffleVector { .. } => conv_shuffle(env, regs, ty, index, repr),
        Inst::Fence { .. } | Inst::AtomicCmpXchg { .. } | Inst::AtomicRMW { .. } => (
            Err(Failure::Unsupported(Unsupported::AtomicInstruction)),
            regs,
        ),
        Inst::LandingPad { .. } | Inst::CatchPad | Inst::CleanupPad => (
            Err(Failure::Unsupported(Unsupported::ExceptionHandling)),
            regs,
        ),
        Inst::CallBranch => (Err(Failure::Unsupported(Unsupported::IndirectJump)), regs),
        _ => (Err(Failure::Invariant("malformed block with terminator instruction in the body"@)), regs),
    }
}

/// The reading of an `alloca`.
pub open spec fn conv_alloca(env: Env, regs: Regs, ty: TypeView, index: usize, repr: Inst) -> (Result<InstModel, Failure>, Regs)
    decreases repr, 1nat,
{
    match repr {
        Inst::Alloca { allocated_type, size, address_space } => match conv_ty(env.scope, ty) {
            Err(f) => (Err(f), regs),
            Ok(inst_ty) => if !(inst_ty is Pointer) {
                (Err(Failure::Assumption("AllocaInst should return a pointer type"@)), regs)
            } else if address_space != 0 {
                (Err(Failure::Unsupported(Unsupported::PointerAddressSpace)), regs)
            } else {
                match conv_ty(env.scope, allocated_type@) {
                    Err(f) => (Err(f), regs),
                    Ok(base_type) => match size {
                        None => (Ok(InstModel::Alloca { base_type, size: None, result: slot(index) }), regs),
                        Some(v) => match conv_int_any(env, regs, v) {
                            (Err(f), r) => (Err(f), r),
                            (Ok(s), r) => (Ok(InstModel::Alloca { base_type, size: Some(s), result: slot(index) }), r),
                        },
                    },
                }
            },
        },
        _ => (Err(Failure::Invariant(Seq::empty())), regs),
    }
}

/// The reading of a `load`.
pub open spec fn conv_load(env: Env, regs: Regs, ty: TypeView, index: usize, repr: Inst) -> (Result<InstModel, Failure>, Regs)
    decreases repr, 1nat,
{
    match repr {
        Inst::Load { pointee_type, pointer, ordering, address_space } => if ordering@ != "not_atomic"@ {
            (Err(Failure::Unsupported(Unsupported::AtomicInstruction)), regs)
        } else if address_space != 0 {
            (Err(Failure::Unsupported(Unsupported::PointerAddressSpace)), regs)
        } else {
            match conv_ty(env.scope, ty) {
                Err(f) => (Err(f), regs),
                Ok(inst_ty) => match conv_ty(env.scope, pointee_type@) {
                    Err(f) => (Err(f), regs),
                    Ok(pt) => if inst_ty != pt {
                        (Err(Failure::Assumption("LoadInst mismatch between result type and pointee type"@)), regs)
                    } else {
                        match conv_value(env, regs, pointer, TypeModel::Pointer) {
                            (Err(f), r) => (Err(f), r),
                            (Ok(p), r) => (Ok(InstModel::Load { pointee_type: pt, pointer: p, result: slot(index) }), r),
                        }
                    },
                },
            }
        },
        _ => (Err(Failure::Invariant(Seq::empty())), regs),
    }
}

/// The reading of a `store`.
pub open spec fn conv_store(env: Env, regs: Regs, ty: TypeView, index: usize, repr: Inst) -> (Result<InstModel, Failure>, Regs)
    decreases repr, 1nat,
{
    match repr {
        Inst::Store { pointee_type, pointer, value, ordering, address_space } => if ordering@ != "not_atomic"@ {
            (Err(Failure::Unsupported(Unsupported::AtomicInstruction)), regs)
        } else if address_space != 0 {
            (Err(Failure::Unsupported(Unsupported::PointerAddressSpace)), regs)
        } else if !(ty is Void) {
            (Err(Failure::Assumption("StoreInst should have void type"@)), regs)
        } else {
            match conv_ty(env.scope, pointee_type@) {
                Err(f) => (Err(f), regs),
                Ok(pt) => match conv_value(env, regs, pointer, TypeModel::Pointer) {
                    (Err(f), r) => (Err(f), r),
                    (Ok(p), r) => match conv_value(env, r, value, pt) {
                        (Err(f), r2) => (Err(f), r2),
                        (Ok(v), r2) => (Ok(InstModel::Store { pointee_type: pt, pointer: p, value: v }), r2),
                    },
                },
            }
        },
        _ => (Err(Failure::Invariant(Seq::empty())), regs),
    }
}

/// Reads the first `n` arguments of a call, each of its parameter's type.
pub open spec fn conv_args(env: Env, regs: Regs, vs: Seq<AValue>, ts: Seq<TypeModel>, n: nat) -> (Result<Seq<ValueModel>, Failure>, Regs)
    decreases vs, n,
{
    if n == 0 || n > vs.len() || n > ts.len() {
        (Ok(Seq::empty()), regs)
    } else {
        match conv_args(env, regs, vs, ts, (n - 1) as nat) {
            (Err(f), r) => (Err(f), r),
            (Ok(p), r) => match conv_value(env, r, vs[n - 1], ts[n - 1]) {
                (Err(f), r2) => (Err(f), r2),
                (Ok(x), r2) => (Ok(p.push(x)), r2),
            },
        }
    }
}

/// The reading of a call: its arguments are read against the parameters of the
/// target type (extra variadic arguments are dropped), and its callee decides
/// whether it is direct.
pub open spec fn conv_call(env: Env, regs: Regs, ty: TypeView, index: usize, repr: Inst) -> (Result<InstModel, Failure>, Regs)
    decreases repr, 1nat,
{
    match repr {
        Inst::CallDirect { callee, target_type, args } | Inst::CallIndirect { callee, target_type, args }
        | Inst::Intrinsic { callee, target_type, args } => match conv_ty(env.scope, target_type@) {
            Err(f) => (Err(f), regs),
            Ok(func_ty) => match func_ty {
                TypeModel::Function { params, variadic, ret } => if variadic && args@.len() < params.len() {
                    (Err(Failure::Assumption("CallInst number of arguments mismatch (variadic)"@)), regs)
                } else if !variadic && params.len() != args@.len() {
                    (Err(Failure::Assumption("CallInst number of arguments mismatch (exact)"@)), regs)
                } else {
                    match conv_args(env, regs, args@, params, params.len()) {
                        (Err(f), r) => (Err(f), r),
                        (Ok(args_new), r) => match call_return(env, ty, ret) {
                            Err(f) => (Err(f), r),
                            Ok(ret_ty) => match conv_value(env, r, callee, TypeModel::Pointer) {
                                (Err(f), r2) => (Err(f), r2),
                                (Ok(callee_new), r2) => (call_outcome(repr is CallIndirect, callee_new, args_new, ret_ty, index), r2),
                            },
                        },
                    }
                },
                _ => (Err(Failure::Assumption("CallInst refer to a non-function callee"@)), regs),
            },
        },
        _ => (Err(Failure::Invariant(Seq::empty())), regs),
    }
}

/// The instruction a call becomes, given its callee, arguments and return type:
/// an indirect call must not name its target, a direct one must.
pub open spec fn call_outcome(indirect: bool, callee: ValueModel, args: Seq<ValueModel>, ret_ty: Option<TypeModel>, index: usize) -> Result<InstModel, Failure> {
    let result = match ret_ty {
        Some(t) => Some((t, slot(index))),
        None => None,
    };
    if indirect {
        if callee matches ValueModel::Constant(ConstModel::Function { .. }) {
            Err(Failure::Assumption("indirect call should not target a named function"@))
        } else {
            Ok(InstModel::CallIndirect { callee, args, result })
        }
    } else {
        match callee {
            ValueModel::Constant(ConstModel::Function { name }) => Ok(InstModel::CallDirect { function: name, args, result }),
            _ => Err(Failure::Assumption("direct or intrinsic call should target a named function"@)),
        }
    }
}

/// The type a call returns: none for a void target, which the instruction must
/// then have too; else the target's return type, which must be the instruction's.
pub open spec fn call_return(env: Env, ty: TypeView, ret: Option<Box<TypeModel>>) -> Result<Option<TypeModel>, Failure> {
    match ret {
        None => if !(ty is Void) {
            Err(Failure::Assumption("CallInst return type mismatch"@))
        } else {
            Ok(None)
        },
        Some(t) => match conv_ty(env.scope, ty) {
            Err(f) => Err(f),
            Ok(inst_ty) => if *t != inst_ty {
                Err(Failure::Assumption("CallInst return type mismatch"@))
            } else {
                Ok(Some(inst_ty))
            },
        },
    }
}

/// The failure of an unknown unary opcode.
pub open spec fn unary_failure(opcode: Seq<char>) -> Failure {
    Failure::Assumption("unexpected unary opcode: "@ + opcode)
}

/// The reading of a unary operation.
pub open spec fn conv_unary(env: Env, regs: Regs, ty: TypeView, index: usize, repr: Inst) -> (Result<InstModel, Failure>, Regs)
    decreases repr, 1nat,
{
    match repr {
        Inst::Unary { opcode, operand } => match conv_ty(env.scope, ty) {
            Err(f) => (Err(f), regs),
            Ok(inst_ty) => match conv_value(env, regs, operand, inst_ty) {
                (Err(f), r) => (Err(f), r),
                (Ok(x), r) => match unary_operator_of(opcode@) {
                    None => (Err(unary_failure(opcode@)), r),
                    Some(UnaryOperator::Arithmetic(op, rep)) => match inst_ty {
                        TypeModel::Bitvec { bits, number, length } => if number == rep {
                            (Ok(InstModel::UnaryArith { bits, number, length, opcode: op, operand: x, result: slot(index) }), r)
                        } else {
                            (Err(Failure::Assumption("unary operator has invalid instruction type"@)), r)
                        },
                        _ => (Err(Failure::Assumption("unary operator has invalid instruction type"@)), r),
                    },
                },
            },
        },
        _ => (Err(Failure::Invariant(Seq::empty())), regs),
    }
}

/// The reading of a binary operation.
pub open spec fn conv_binary(env: Env, regs: Regs, ty: TypeView, index: usize, repr: Inst) -> (Result<InstModel, Failure>, Regs)
    decreases repr, 1nat,
{
    match repr {
        Inst::Binary { opcode, lhs, rhs } => match conv_ty(env.scope, ty) {
            Err(f) => (Err(f), regs),
            Ok(inst_ty) => match conv_value(env, regs, lhs, inst_ty) {
                (Err(f), r) => (Err(f), r),
                (Ok(l), r) => match conv_value(env, r, rhs, inst_ty) {
                    (Err(f), r2) => (Err(f), r2),
                    (Ok(x), r2) => (binary_outcome(opcode@, inst_ty, l, x, index), r2),
                },
            },
        },
        _ => (Err(Failure::Invariant(Seq::empty())), regs),
    }
}

/// The instruction a binary operation of the given type becomes.
pub open spec fn binary_outcome(opcode: Seq<char>, inst_ty: TypeModel, l: ValueModel, x: ValueModel, index: usize) -> Result<InstModel, Failure> {
    match binary_operator_of(opcode) {
        None => Err(Failure::Assumption("unexpected binary opcode: "@ + opcode)),
        Some(BinaryOperator::Arithmetic(op, rep)) => match inst_ty {
            TypeModel::Bitvec { bits, number, length } => if number == rep {
                Ok(InstModel::BinaryArith { bits, number, length, opcode: op, lhs: l, rhs: x, result: slot(index) })
            } else {
                Err(Failure::Assumption("value type and arithmetic operation type mismatch"@))
            },
            _ => Err(Failure::Assumption("value type and arithmetic operation type mismatch"@)),
        },
        Some(BinaryOperator::Bitwise(op)) => match inst_ty {
            TypeModel::Bitvec { bits, number: NumRepr::Int, length } => Ok(
                InstModel::BinaryBitwise { bits, length, opcode: op, lhs: l, rhs: x, result: slot(index) },
            ),
            _ => Err(Failure::Assumption("value type and bitwise operation type mismatch"@)),
        },
        Some(BinaryOperator::Shift(op)) => match inst_ty {
            TypeModel::Bitvec { bits, number: NumRepr::Int, length } => Ok(
                InstModel::BinaryShift { bits, length, opcode: op, lhs: l, rhs: x, result: slot(index) },
            ),
            _ => Err(Failure::Assumption("value type and shift operation type mismatch"@)),
        },
    }
}

/// The reading of a comparison.
pub open spec fn conv_compare(env: Env, regs: Regs, ty: TypeView, index: usize, repr: Inst) -> (Result<InstModel, Failure>, Regs)
    decreases repr, 1nat,
{
    match repr {
        Inst::Compare { predicate, operand_type, lhs, rhs } => match conv_ty(env.scope, ty) {
            Err(f) => (Err(f), regs),
            Ok(inst_ty) => match conv_ty(env.scope, operand_type@) {
                Err(f) => (Err(f), regs),
                Ok(operand_ty) => match conv_value(env, regs, lhs, operand_ty) {
                    (Err(f), r) => (Err(f), r),
                    (Ok(l), r) => match conv_value(env, r, rhs, operand_ty) {
                        (Err(f), r2) => (Err(f), r2),
                        (Ok(x), r2) => (compare_outcome(predicate@, inst_ty, operand_ty, l, x, index), r2),
                    },
                },
            },
        },
        _ => (Err(Failure::Invariant(Seq::empty())), regs),
    }
}

/// The instruction a comparison of the given types becomes.
pub open spec fn compare_outcome(
    predicate: Seq<char>,
    inst_ty: TypeModel,
    operand_ty: TypeModel,
    l: ValueModel,
    x: ValueModel,
    index: usize,
) -> Result<InstModel, Failure> {
    match compare_operator_of(predicate) {
        None => if is_constant_predicate(predicate) {
            Err(Failure::Unsupported(Unsupported::FloatingPointOrdering))
        } else {
            Err(Failure::Assumption("unexpected compare predicate: "@ + predicate))
        },
        Some(CompareOperator::Pred(p, rep)) => match (inst_ty, operand_ty) {
            (
                TypeModel::Bitvec { bits: 1, number: NumRepr::Int, length: length_inst },
                TypeModel::Bitvec { bits, number, length },
            ) => if number == rep && length == length_inst {
                Ok(InstModel::CompareBitvec { bits, number, length, predicate: p, lhs: l, rhs: x, result: slot(index) })
            } else {
                Err(Failure::Assumption("compare pred expects int<>, float<>, or ptr operands"@))
            },
            (TypeModel::Bitvec { bits: 1, number: NumRepr::Int, length: None }, TypeModel::Pointer) => if rep
                is Int {
                Ok(InstModel::ComparePtr { predicate: p, lhs: l, rhs: x, result: slot(index) })
            } else {
                Err(Failure::Assumption("compare pred expects int<>, float<>, or ptr operands"@))
            },
            _ => Err(Failure::Assumption("compare pred expects int<>, float<>, or ptr operands"@)),
        },
        Some(CompareOperator::Ord(ordered)) => match (inst_ty, operand_ty) {
            (
                TypeModel::Bitvec { bits: 1, number: NumRepr::Int, length: length_inst },
                TypeModel::Bitvec { bits, number: NumRepr::Float, length },
            ) => if length == length_inst {
                Ok(InstModel::CompareOrder { bits, length, ordered, lhs: l, rhs: x, result: slot(index) })
            } else {
                Err(Failure::Assumption("compare ord expects float<> operands only"@))
            },
            _ => Err(Failure::Assumption("compare ord expects float<> operands only"@)),
        },
    }
}

} // verus!

verus! {

/// The number of bits a scalar or a vector of scalars holds in all.
pub open spec fn total_bits(bits: usize, length: Option<usize>) -> int {
    bits * match length {
        Some(l) => l as int,
        None => 1int,
    }
}

/// The instruction a cast of the given opcode becomes.
pub open spec fn cast_outcome(
    opcode: Seq<char>,
    src: TypeModel,
    dst: TypeModel,
    src_address_space: Option<usize>,
    dst_address_space: Option<usize>,
    operand: ValueModel,
    index: usize,
) -> Result<InstModel, Failure> {
    if opcode == "trunc"@ || opcode == "zext"@ || opcode == "sext"@ {
        match (src, dst) {
            (
                TypeModel::Bitvec { bits: bits_from, number: NumRepr::Int, length: length_from },
                TypeModel::Bitvec { bits: bits_into, number: NumRepr::Int, length },
            ) => if length_from == length && bits_from != bits_into {
                Ok(InstModel::CastBitvecSize { bits_from, bits_into, number: NumRepr::Int, length, operand, result: slot(index) })
            } else {
                Err(Failure::Assumption("expect int type for int cast"@))
            },
            _ => Err(Failure::Assumption("expect int type for int cast"@)),
        }
    } else if opcode == "fp_trunc"@ || opcode == "fp_ext"@ {
        match (src, dst) {
            (
                TypeModel::Bitvec { bits: bits_from, number: NumRepr::Float, length: length_from },
                TypeModel::Bitvec { bits: bits_into, number: NumRepr::Float, length },
            ) => if length_from == length && bits_from != bits_into {
                Ok(InstModel::CastBitvecSize { bits_from, bits_into, number: NumRepr::Float, length, operand, result: slot(index) })
            } else {
                Err(Failure::Assumption("expect float type for float cast"@))
            },
            _ => Err(Failure::Assumption("expect float type for float cast"@)),
        }
    } else if opcode == "bitcast"@ {
        match (src, dst) {
            (TypeModel::Pointer, TypeModel::Pointer) => Ok(InstModel::CastPtr { operand, result: slot(index) }),
            (
                TypeModel::Bitvec { bits: bits_from, number: number_from, length: length_from },
                TypeModel::Bitvec { bits: bits_into, number: number_into, length: length_into },
            ) => if total_bits(bits_from, length_from) == total_bits(bits_into, length_into) {
                Ok(
                    InstModel::CastBitvecFree {
                        bits_from,
                        bits_into,
                        number_from,
                        number_into,
                        length_from,
                        length_into,
                        operand,
                        result: slot(index),
                    },
                )
            } else {
                Err(Failure::Assumption("expect ptr or bits-preserving type for bitcast"@))
            },
            _ => Err(Failure::Assumption("expect ptr or bits-preserving type for bitcast"@)),
        }
    } else if opcode == "address_space_cast"@ {
        Err(Failure::Unsupported(Unsupported::PointerAddressSpace))
    } else if opcode == "fp_to_ui"@ || opcode == "fp_to_si"@ {
        match (src, dst) {
            (
                TypeModel::Bitvec { bits: bits_from, number: NumRepr::Float, length: length_from },
                TypeModel::Bitvec { bits: bits_into, number: NumRepr::Int, length },
            ) => if length_from == length {
                Ok(
                    InstModel::CastBitvecRepr {
                        bits_from,
                        bits_into,
                        number_from: NumRepr::Float,
                        number_into: NumRepr::Int,
                        length,
                        operand,
                        result: slot(index),
                    },
                )
            } else {
                Err(Failure::Assumption("expect float<> and int<> for fp_to_ui/si cast"@))
            },
            _ => Err(Failure::Assumption("expect float<> and int<> for fp_to_ui/si cast"@)),
        }
    } else if opcode == "ui_to_fp"@ || opcode == "si_to_fp"@ {
        match (src, dst) {
            (
                TypeModel::Bitvec { bits: bits_from, number: NumRepr::Int, length: length_from },
                TypeModel::Bitvec { bits: bits_into, number: NumRepr::Float, length },
            ) => if length_from == length {
                Ok(
                    InstModel::CastBitvecRepr {
                        bits_from,
                        bits_into,
                        number_from: NumRepr::Int,
                        number_into: NumRepr::Float,
                        length,
                        operand,
                        result: slot(index),
                    },
                )
            } else {
                Err(Failure::Assumption("expect int<> and float<> for ui/si_to_fp cast"@))
            },
            _ => Err(Failure::Assumption("expect int<> and float<> for ui/si_to_fp cast"@)),
        }
    } else if opcode == "ptr_to_int"@ {
        match (src, dst) {
            (TypeModel::Pointer, TypeModel::Bitvec { bits: bits_into, number: NumRepr::Int, length: None }) => match src_address_space {
                None => Err(Failure::Assumption("expect (src address_space) for ptr_to_int cast"@)),
                Some(a) => if a == 0 {
                    Ok(InstModel::CastPtrToInt { bits_into, operand, result: slot(index) })
                } else {
                    Err(Failure::Unsupported(Unsupported::PointerAddressSpace))
                },
            },
            _ => Err(Failure::Assumption("expect (ptr, int) for ptr_to_int cast"@)),
        }
    } else if opcode == "int_to_ptr"@ {
        match (src, dst) {
            (TypeModel::Bitvec { bits: bits_from, number: NumRepr::Int, length: None }, TypeModel::Pointer) => match dst_address_space {
                None => Err(Failure::Assumption("expect (dst address_space) for int_to_ptr cast"@)),
                Some(a) => if a == 0 {
                    Ok(InstModel::CastIntToPtr { bits_from, operand, result: slot(index) })
                } else {
                    Err(Failure::Unsupported(Unsupported::PointerAddressSpace))
                },
            },
            _ => Err(Failure::Assumption("expect (int, ptr) for int_to_ptr cast"@)),
        }
    } else {
        Err(Failure::Assumption("unexpected cast opcode: "@ + opcode))
    }
}

/// The reading of a cast.
pub open spec fn conv_cast(env: Env, regs: Regs, ty: TypeView, index: usize, repr: Inst) -> (Result<InstModel, Failure>, Regs)
    decreases repr, 1nat,
{
    match repr {
        Inst::Cast { opcode, src_ty, dst_ty, src_address_space, dst_address_space, operand } => match conv_ty(
            env.scope,
            ty,
        ) {
            Err(f) => (Err(f), regs),
            Ok(inst_ty) => match conv_ty(env.scope, src_ty@) {
                Err(f) => (Err(f), regs),
                Ok(src) => match conv_ty(env.scope, dst_ty@) {
                    Err(f) => (Err(f), regs),
                    Ok(dst) => if dst != inst_ty {
                        (Err(Failure::Invariant("type mismatch between dst type and inst type for cast"@)), regs)
                    } else {
                        match conv_value(env, regs, operand, src) {
                            (Err(f), r) => (Err(f), r),
                            (Ok(x), r) => (
                                cast_outcome(opcode@, src, dst, src_address_space, dst_address_space, x, index),
                                r,
                            ),
                        }
                    },
                },
            },
        },
        _ => (Err(Failure::Invariant(Seq::empty())), regs),
    }
}

/// The instruction a freeze of a value becomes: of an undefined number or
/// pointer, a fresh one; of anything else, the value itself.
pub open spec fn freeze_outcome(v: ValueModel) -> InstModel {
    match v {
        ValueModel::Constant(ConstModel::NumOne { bits, value: NumValue::IntUndef }) => InstModel::FreezeBitvec {
            bits,
            number: NumRepr::Int,
        },
        ValueModel::Constant(ConstModel::NumOne { bits, value: NumValue::FloatUndef }) => InstModel::FreezeBitvec {
            bits,
            number: NumRepr::Float,
        },
        ValueModel::Constant(ConstModel::UndefPointer) => InstModel::FreezePtr,
        _ => InstModel::FreezeNop { value: v },
    }
}

/// The reading of a freeze.
pub open spec fn conv_freeze(env: Env, regs: Regs, ty: TypeView, index: usize, repr: Inst) -> (Result<InstModel, Failure>, Regs)
    decreases repr, 1nat,
{
    match repr {
        Inst::Freeze { operand } => match conv_ty(env.scope, ty) {
            Err(f) => (Err(f), regs),
            Ok(inst_ty) => match conv_value(env, regs, operand, inst_ty) {
                (Err(f), r) => (Err(f), r),
                (Ok(x), r) => (Ok(freeze_outcome(x)), r),
            },
        },
        _ => (Err(Failure::Invariant(Seq::empty())), regs),
    }
}

/// Where a walk down the indices of a GEP stands: the type reached and the indices read.
pub struct Walk {
    pub cur: TypeModel,
    pub indices: Seq<IndexModel>,
}

/// Walks down a type along the indices of a GEP after the first (`vs[1..n]`).
pub open spec fn gep_walk(env: Env, regs: Regs, src: TypeModel, vs: Seq<AValue>, n: nat) -> (Result<Walk, Failure>, Regs)
    decreases vs, n,
{
    if n <= 1 || n > vs.len() {
        (Ok(Walk { cur: src, indices: Seq::empty() }), regs)
    } else {
        match gep_walk(env, regs, src, vs, (n - 1) as nat) {
            (Err(f), r) => (Err(f), r),
            (Ok(w), r) => match w.cur {
                TypeModel::Struct { fields, .. } => match conv_int_any(env, r, vs[n - 1]) {
                    (Err(f), r2) => (Err(f), r2),
                    (Ok(x), r2) => match x {
                        ValueModel::Constant(ConstModel::NumOne { value: NumValue::Int(v), .. }) => if v < 0 || v
                            > usize::MAX {
                            (Err(Failure::Invariant("field number must be within the range of usize"@)), r2)
                        } else if v >= fields.len() {
                            (Err(Failure::Assumption("field number out of range"@)), r2)
                        } else {
                            (Ok(Walk { cur: fields[v as int], indices: w.indices.push(IndexModel::Struct(v as usize)) }), r2)
                        },
                        _ => (Err(Failure::Assumption("field number must be int32"@)), r2),
                    },
                },
                TypeModel::Array { element, .. } => match conv_int_any(env, r, vs[n - 1]) {
                    (Err(f), r2) => (Err(f), r2),
                    (Ok(x), r2) => (Ok(Walk { cur: *element, indices: w.indices.push(IndexModel::Array(x)) }), r2),
                },
                TypeModel::Bitvec { bits, number, length: Some(_) } => match conv_int_any(env, r, vs[n - 1]) {
                    (Err(f), r2) => (Err(f), r2),
                    (Ok(x), r2) => (
                        Ok(
                            Walk {
                                cur: TypeModel::Bitvec { bits, number, length: None },
                                indices: w.indices.push(IndexModel::Vector(x)),
                            },
                        ),
                        r2,
                    ),
                },
                _ => (Err(Failure::Assumption("GEP only applies to vector, array, and struct"@)), r),
            },
        }
    }
}

/// The reading of a GEP.
pub open spec fn conv_gep(env: Env, regs: Regs, ty: TypeView, index: usize, repr: Inst) -> (Result<InstModel, Failure>, Regs)
    decreases repr, 1nat,
{
    match repr {
        Inst::GEP { src_pointee_ty, dst_pointee_ty, pointer, indices, address_space } => if address_space != 0 {
            (Err(Failure::Unsupported(Unsupported::PointerAddressSpace)), regs)
        } else {
            match conv_ty(env.scope, ty) {
                Err(f) => (Err(f), regs),
                Ok(inst_ty) => if !(inst_ty is Pointer) {
                    (Err(Failure::Assumption("GEP should return a pointer type"@)), regs)
                } else {
                    match conv_ty(env.scope, src_pointee_ty@) {
                        Err(f) => (Err(f), regs),
                        Ok(src) => match conv_ty(env.scope, dst_pointee_ty@) {
                            Err(f) => (Err(f), regs),
                            Ok(dst) => if indices@.len() == 0 {
                                (Err(Failure::Assumption("GEP contains no index"@)), regs)
                            } else {
                                match conv_int_any(env, regs, indices@[0]) {
                                    (Err(f), r) => (Err(f), r),
                                    (Ok(offset), r) => match gep_walk(env, r, src, indices@, indices@.len()) {
                                        (Err(f), r2) => (Err(f), r2),
                                        (Ok(w), r2) => if w.cur != dst {
                                            (Err(Failure::Assumption("GEP destination type mismatch"@)), r2)
                                        } else {
                                            match conv_value(env, r2, pointer, TypeModel::Pointer) {
                                                (Err(f), r3) => (Err(f), r3),
                                                (Ok(p), r3) => (
                                                    Ok(
                                                        InstModel::GEP {
                                                            src_pointee_type: src,
                                                            dst_pointee_type: dst,
                                                            pointer: p,
                                                            offset,
                                                            indices: w.indices,
                                                            result: slot(index),
                                                        },
                                                    ),
                                                    r3,
                                                ),
                                            }
                                        },
                                    },
                                }
                            },
                        },
                    }
                },
            }
        },
        _ => (Err(Failure::Invariant(Seq::empty())), regs),
    }
}

/// The reading of a select.
pub open spec fn conv_ite(env: Env, regs: Regs, ty: TypeView, index: usize, repr: Inst) -> (Result<InstModel, Failure>, Regs)
    decreases repr, 1nat,
{
    match repr {
        Inst::ITE { cond, then_value, else_value } => match conv_ty(env.scope, value_type(cond)) {
            Err(f) => (Err(f), regs),
            Ok(cond_ty) => match conv_value(env, regs, cond, cond_ty) {
                (Err(f), r) => (Err(f), r),
                (Ok(c), r) => match conv_ty(env.scope, ty) {
                    Err(f) => (Err(f), r),
                    Ok(inst_ty) => match conv_value(env, r, then_value, inst_ty) {
                        (Err(f), r2) => (Err(f), r2),
                        (Ok(t), r2) => match conv_value(env, r2, else_value, inst_ty) {
                            (Err(f), r3) => (Err(f), r3),
                            (Ok(e), r3) => (ite_outcome(cond_ty, inst_ty, c, t, e, index), r3),
                        },
                    },
                },
            },
        },
        _ => (Err(Failure::Invariant(Seq::empty())), regs),
    }
}

/// The instruction a select of the given types becomes.
pub open spec fn ite_outcome(cond_ty: TypeModel, inst_ty: TypeModel, c: ValueModel, t: ValueModel, e: ValueModel, index: usize) -> Result<InstModel, Failure> {
    match (cond_ty, inst_ty) {
        (TypeModel::Bitvec { bits: 1, number: NumRepr::Int, length: None }, _) => Ok(
            InstModel::ITEOne { cond: c, then_value: t, else_value: e, result: slot(index) },
        ),
        (
            TypeModel::Bitvec { bits: 1, number: NumRepr::Int, length: Some(len) },
            TypeModel::Bitvec { bits, number, length: Some(len_value) },
        ) => if len_value == len {
            Ok(InstModel::ITEVec { bits, number, length: len, cond: c, then_value: t, else_value: e, result: slot(index) })
        } else {
            Err(Failure::Assumption("ITE cond and value type mismatch"@))
        },
        _ => Err(Failure::Assumption("ITE cond and value type mismatch"@)),
    }
}

/// Index of the first incoming edge from a block, if any.
pub open spec fn first_label_index(opts: Seq<(BlockLabel, ValueModel)>, label: BlockLabel) -> Option<int>
    decreases opts.len(),
{
    if opts.len() == 0 {
        None
    } else if opts[0].0 == label {
        Some(0)
    } else {
        match first_label_index(opts.drop_first(), label) {
            Some(i) => Some(i + 1),
            None => None,
        }
    }
}

pub proof fn lemma_first_label_index(opts: Seq<(BlockLabel, ValueModel)>, label: BlockLabel)
    ensures
        match first_label_index(opts, label) {
            Some(i) => 0 <= i < opts.len() && opts[i].0 == label && forall|j: int| 0 <= j < i ==> opts[j].0 != label,
            None => forall|j: int| 0 <= j < opts.len() ==> opts[j].0 != label,
        },
    decreases opts.len(),
{
    if opts.len() > 0 && opts[0].0 != label {
        lemma_first_label_index(opts.drop_first(), label);
        assert forall|j: int| 0 < j < opts.len() implies opts[j] == opts.drop_first()[j - 1] by {}
    }
}

/// The incoming edges of a phi node with one more: an edge from a block already
/// seen replaces the earlier one in its place.
pub open spec fn phi_insert(opts: Seq<(BlockLabel, ValueModel)>, label: BlockLabel, v: ValueModel) -> Seq<(BlockLabel, ValueModel)> {
    match first_label_index(opts, label) {
        Some(i) => opts.update(i, (label, v)),
        None => opts.push((label, v)),
    }
}

/// The value an edge from a block has among incoming edges, if any.
pub open spec fn phi_lookup(opts: Seq<(BlockLabel, ValueModel)>, label: BlockLabel) -> Option<ValueModel> {
    match first_label_index(opts, label) {
        Some(i) => Some(opts[i].1),
        None => None,
    }
}

/// Reads the first `n` incoming edges of a phi node.
pub open spec fn phi_options(env: Env, regs: Regs, os: Seq<crate::ir::adapter::instruction::PhiOption>, t: TypeModel, n: nat) -> (Result<Seq<(BlockLabel, ValueModel)>, Failure>, Regs)
    decreases os, n,
{
    if n == 0 || n > os.len() {
        (Ok(Seq::empty()), regs)
    } else {
        match phi_options(env, regs, os, t, (n - 1) as nat) {
            (Err(f), r) => (Err(f), r),
            (Ok(p), r) => if !env.blocks.contains(os[n - 1].block) {
                (Err(Failure::Invariant("unknown incoming edge into phi node"@)), r)
            } else {
                match conv_value(env, r, os[n - 1].value, t) {
                    (Err(f), r2) => (Err(f), r2),
                    (Ok(v), r2) => {
                        let label = BlockLabel(os[n - 1].block);
                        match phi_lookup(p, label) {
                            Some(existing) => if existing != v {
                                (Err(Failure::Invariant("duplicated edges into phi node with different values"@)), r2)
                            } else {
                                (Ok(phi_insert(p, label, v)), r2)
                            },
                            None => (Ok(phi_insert(p, label, v)), r2),
                        }
                    },
                }
            },
        }
    }
}

/// The reading of a phi node.
pub open spec fn conv_phi(env: Env, regs: Regs, ty: TypeView, index: usize, repr: Inst) -> (Result<InstModel, Failure>, Regs)
    decreases repr, 1nat,
{
    match repr {
        Inst::Phi { options } => match conv_ty(env.scope, ty) {
            Err(f) => (Err(f), regs),
            Ok(inst_ty) => match phi_options(env, regs, options@, inst_ty, options@.len()) {
                (Err(f), r) => (Err(f), r),
                (Ok(opts), r) => (Ok(InstModel::Phi { options: opts, result: slot(index) }), r),
            },
        },
        _ => (Err(Failure::Invariant(Seq::empty())), regs),
    }
}

/// Walks down an aggregate type along the first `n` indices.
pub open spec fn aggregate_walk(src: TypeModel, idx: Seq<usize>, n: nat) -> Result<TypeModel, Failure>
    decreases n,
{
    if n == 0 || n > idx.len() {
        Ok(src)
    } else {
        match aggregate_walk(src, idx, (n - 1) as nat) {
            Err(f) => Err(f),
            Ok(cur) => match cur {
                TypeModel::Struct { fields, .. } => if idx[n - 1] >= fields.len() {
                    Err(Failure::Assumption("field number out of range"@))
                } else {
                    Ok(fields[idx[n - 1] as int])
                },
                TypeModel::Array { element, length } => if idx[n - 1] >= length {
                    Err(Failure::Assumption("array index out of range"@))
                } else {
                    Ok(*element)
                },
                _ => Err(Failure::Assumption("Aggregate getter only applies to array and struct"@)),
            },
        }
    }
}

/// The reading of an aggregate getter.
pub open spec fn conv_get_value(env: Env, regs: Regs, ty: TypeView, index: usize, repr: Inst) -> (Result<InstModel, Failure>, Regs)
    decreases repr, 1nat,
{
    match repr {
        Inst::GetValue { from_ty, aggregate, indices } => match conv_ty(env.scope, from_ty@) {
            Err(f) => (Err(f), regs),
            Ok(src) => match conv_ty(env.scope, ty) {
                Err(f) => (Err(f), regs),
                Ok(dst) => match aggregate_walk(src, indices@, indices@.len()) {
                    Err(f) => (Err(f), regs),
                    Ok(cur) => if cur != dst {
                        (Err(Failure::Assumption("GetValue destination type mismatch"@)), regs)
                    } else {
                        match conv_value(env, regs, aggregate, src) {
                            (Err(f), r) => (Err(f), r),
                            (Ok(a), r) => (
                                Ok(InstModel::GetValue { src_ty: src, dst_ty: dst, aggregate: a, indices: indices@, result: slot(index) }),
                                r,
                            ),
                        }
                    },
                },
            },
        },
        _ => (Err(Failure::Invariant(Seq::empty())), regs),
    }
}

/// The reading of an aggregate setter.
pub open spec fn conv_set_value(env: Env, regs: Regs, ty: TypeView, index: usize, repr: Inst) -> (Result<InstModel, Failure>, Regs)
    decreases repr, 1nat,
{
    match repr {
        Inst::SetValue { aggregate, value, indices } => match conv_ty(env.scope, ty) {
            Err(f) => (Err(f), regs),
            Ok(src) => match aggregate_walk(src, indices@, indices@.len()) {
                Err(f) => (Err(f), regs),
                Ok(cur) => match conv_value(env, regs, aggregate, src) {
                    (Err(f), r) => (Err(f), r),
                    (Ok(a), r) => match conv_value(env, r, value, cur) {
                        (Err(f), r2) => (Err(f), r2),
                        (Ok(v), r2) => (Ok(InstModel::SetValue { aggregate: a, value: v, indices: indices@, result: slot(index) }), r2),
                    },
                },
            },
        },
        _ => (Err(Failure::Invariant(Seq::empty())), regs),
    }
}

/// The reading of a vector element getter.
pub open spec fn conv_get_element(env: Env, regs: Regs, ty: TypeView, index: usize, repr: Inst) -> (Result<InstModel, Failure>, Regs)
    decreases repr, 1nat,
{
    match repr {
        Inst::GetElement { vec_ty, vector, slot: s } => match conv_ty(env.scope, vec_ty@) {
            Err(f) => (Err(f), regs),
            Ok(src) => match conv_ty(env.scope, ty) {
                Err(f) => (Err(f), regs),
                Ok(dst) => match conv_value(env, regs, vector, src) {
                    (Err(f), r) => (Err(f), r),
                    (Ok(v), r) => match conv_int_any(env, r, s) {
                        (Err(f), r2) => (Err(f), r2),
                        (Ok(sl), r2) => match (src, dst) {
                            (
                                TypeModel::Bitvec { bits: bits_vector, number: number_vector, length: Some(len) },
                                TypeModel::Bitvec { bits, number, length: None },
                            ) => if bits_vector == bits && number_vector == number {
                                (Ok(InstModel::GetElement { bits, number, length: len, vector: v, slot: sl, result: slot(index) }), r2)
                            } else {
                                (Err(Failure::Assumption("GetElement source and element type mismatch"@)), r2)
                            },
                            _ => (Err(Failure::Assumption("GetElement source and element type mismatch"@)), r2),
                        },
                    },
                },
            },
        },
        _ => (Err(Failure::Invariant(Seq::empty())), regs),
    }
}

/// The reading of a vector element setter.
pub open spec fn conv_set_element(env: Env, regs: Regs, ty: TypeView, index: usize, repr: Inst) -> (Result<InstModel, Failure>, Regs)
    decreases repr, 1nat,
{
    match repr {
        Inst::SetElement { vector, value, slot: s } => match conv_ty(env.scope, ty) {
            Err(f) => (Err(f), regs),
            Ok(src) => match conv_value(env, regs, vector, src) {
                (Err(f), r) => (Err(f), r),
                (Ok(v), r) => match conv_int_any(env, r, s) {
                    (Err(f), r2) => (Err(f), r2),
                    (Ok(sl), r2) => match src {
                        TypeModel::Bitvec { bits, number, length: Some(len) } => match conv_value(
                            env,
                            r2,
                            value,
                            TypeModel::Bitvec { bits, number, length: None },
                        ) {
                            (Err(f), r3) => (Err(f), r3),
                            (Ok(x), r3) => (
                                Ok(InstModel::SetElement { bits, number, length: len, vector: v, value: x, slot: sl, result: slot(index) }),
                                r3,
                            ),
                        },
                        _ => (Err(Failure::Assumption("SetElement source and element type mismatch"@)), r2),
                    },
                },
            },
        },
        _ => (Err(Failure::Invariant(Seq::empty())), regs),
    }
}

/// The reading of a vector shuffle.
pub open spec fn conv_shuffle(env: Env, regs: Regs, ty: TypeView, index: usize, repr: Inst) -> (Result<InstModel, Failure>, Regs)
    decreases repr, 1nat,
{
    match repr {
        Inst::ShuffleVector { lhs, rhs, mask } => match conv_ty(env.scope, value_type(lhs)) {
            Err(f) => (Err(f), regs),
            Ok(lt) => match conv_ty(env.scope, value_type(rhs)) {
                Err(f) => (Err(f), regs),
                Ok(rt) => match conv_ty(env.scope, ty) {
                    Err(f) => (Err(f), regs),
                    Ok(dt) => match conv_value(env, regs, lhs, lt) {
                        (Err(f), r) => (Err(f), r),
                        (Ok(l), r) => match conv_value(env, r, rhs, rt) {
                            (Err(f), r2) => (Err(f), r2),
                            (Ok(x), r2) => match (lt, rt, dt) {
                                (
                                    TypeModel::Bitvec { bits: bits_lhs, number: number_lhs, length: Some(_) },
                                    TypeModel::Bitvec { bits: bits_rhs, number: number_rhs, length: Some(_) },
                                    TypeModel::Bitvec { bits, number, length: Some(len) },
                                ) => if bits_lhs == bits && bits_rhs == bits && number_lhs == number && number_rhs == number {
                                    (Ok(InstModel::ShuffleVec { bits, number, length: len, lhs: l, rhs: x, mask: mask@, result: slot(index) }), r2)
                                } else {
                                    (Err(Failure::Assumption("ShuffleVector should involve only vector types"@)), r2)
                                },
                                _ => (Err(Failure::Assumption("ShuffleVector should involve only vector types"@)), r2),
                            },
                        },
                    },
                },
            },
        },
        _ => (Err(Failure::Invariant(Seq::empty())), regs),
    }
}

} // verus!

verus! {

/// The constant of an operand, where it is one.
pub open spec fn const_of(v: ValueModel) -> ConstModel {
    match v {
        ValueModel::Constant(c) => c,
        _ => ConstModel::Null,
    }
}

/// The constant index of a GEP index whose value, where it has one, is a constant.
pub open spec fn const_index_of(i: IndexModel) -> ConstIndexModel {
    match i {
        IndexModel::Array(v) => ConstIndexModel::Array(const_of(v)),
        IndexModel::Struct(s) => ConstIndexModel::Struct(s),
        IndexModel::Vector(v) => ConstIndexModel::Vector(const_of(v)),
    }
}

/// A GEP index whose value, where it has one, is a constant.
pub open spec fn index_model_constant(i: IndexModel) -> bool {
    match i {
        IndexModel::Array(v) => v is Constant,
        IndexModel::Struct(_) => true,
        IndexModel::Vector(v) => v is Constant,
    }
}

/// The instructions a constant expression can be made of: all but memory access,
/// calls, variadic arguments, freezes and phis.
pub open spec fn expression_model_kind(m: InstModel) -> bool {
    !(m is Alloca || m is Load || m is Store || m is VariadicArg || m is CallDirect || m is CallIndirect
        || m is FreezeBitvec || m is FreezePtr || m is FreezeNop || m is Phi)
}

/// Every operand of the instruction is a constant.
pub open spec fn operand_models_constant(m: InstModel) -> bool {
    match m {
        InstModel::UnaryArith { operand, .. } => operand is Constant,
        InstModel::BinaryArith { lhs, rhs, .. } => lhs is Constant && rhs is Constant,
        InstModel::BinaryBitwise { lhs, rhs, .. } => lhs is Constant && rhs is Constant,
        InstModel::BinaryShift { lhs, rhs, .. } => lhs is Constant && rhs is Constant,
        InstModel::CompareBitvec { lhs, rhs, .. } => lhs is Constant && rhs is Constant,
        InstModel::CompareOrder { lhs, rhs, .. } => lhs is Constant && rhs is Constant,
        InstModel::ComparePtr { lhs, rhs, .. } => lhs is Constant && rhs is Constant,
        InstModel::CastBitvecSize { operand, .. } => operand is Constant,
        InstModel::CastBitvecRepr { operand, .. } => operand is Constant,
        InstModel::CastBitvecFree { operand, .. } => operand is Constant,
        InstModel::CastPtr { operand, .. } => operand is Constant,
        InstModel::CastPtrToInt { operand, .. } => operand is Constant,
        InstModel::CastIntToPtr { operand, .. } => operand is Constant,
        InstModel::GEP { pointer, offset, indices, .. } => (forall|k: int|
            0 <= k < indices.len() ==> index_model_constant(#[trigger] indices[k])) && pointer is Constant
            && offset is Constant,
        InstModel::ITEOne { cond, then_value, else_value, .. } => cond is Constant && then_value is Constant
            && else_value is Constant,
        InstModel::ITEVec { cond, then_value, else_value, .. } => cond is Constant && then_value is Constant
            && else_value is Constant,
        InstModel::GetValue { aggregate, .. } => aggregate is Constant,
        InstModel::SetValue { aggregate, value, .. } => aggregate is Constant && value is Constant,
        InstModel::GetElement { vector, slot, .. } => vector is Constant && slot is Constant,
        InstModel::SetElement { vector, value, slot, .. } => vector is Constant && value is Constant
            && slot is Constant,
        InstModel::ShuffleVec { lhs, rhs, .. } => lhs is Constant && rhs is Constant,
        _ => true,
    }
}

/// The constant expression an instruction of that kind with constant operands stands for.
pub open spec fn expression_body(m: InstModel) -> ExprModel {
    match m {
        InstModel::UnaryArith { bits, number, length, opcode, operand, .. } => ExprModel::UnaryArith {
            bits,
            number,
            length,
            opcode,
            operand: const_of(operand),
        },
        InstModel::BinaryArith { bits, number, length, opcode, lhs, rhs, .. } => ExprModel::BinaryArith {
            bits,
            number,
            length,
            opcode,
            lhs: const_of(lhs),
            rhs: const_of(rhs),
        },
        InstModel::BinaryBitwise { bits, length, opcode, lhs, rhs, .. } => ExprModel::BinaryBitwise {
            bits,
            length,
            opcode,
            lhs: const_of(lhs),
            rhs: const_of(rhs),
        },
        InstModel::BinaryShift { bits, length, opcode, lhs, rhs, .. } => ExprModel::BinaryShift {
            bits,
            length,
            opcode,
            lhs: const_of(lhs),
            rhs: const_of(rhs),
        },
        InstModel::CompareBitvec { bits, number, length, predicate, lhs, rhs, .. } => ExprModel::CompareBitvec {
            bits,
            number,
            length,
            predicate,
            lhs: const_of(lhs),
            rhs: const_of(rhs),
        },
        InstModel::CompareOrder { bits, length, ordered, lhs, rhs, .. } => ExprModel::CompareOrder {
            bits,
            length,
            ordered,
            lhs: const_of(lhs),
            rhs: const_of(rhs),
        },
        InstModel::ComparePtr { predicate, lhs, rhs, .. } => ExprModel::ComparePtr {
            predicate,
            lhs: const_of(lhs),
            rhs: const_of(rhs),
        },
        InstModel::CastBitvecSize { bits_from, bits_into, number, length, operand, .. } => ExprModel::CastBitvecSize {
            bits_from,
            bits_into,
            number,
            length,
            operand: const_of(operand),
        },
        InstModel::CastBitvecRepr { bits_from, bits_into, number_from, number_into, length, operand, .. } => {
            ExprModel::CastBitvecRepr {
                bits_from,
                bits_into,
                number_from,
                number_into,
                length,
                operand: const_of(operand),
            }
        },
        InstModel::CastBitvecFree {
            bits_from,
            bits_into,
            number_from,
            number_into,
            length_from,
            length_into,
            operand,
            ..
        } => ExprModel::CastBitvecFree {
            bits_from,
            bits_into,
            number_from,
            number_into,
            length_from,
            length_into,
            operand: const_of(operand),
        },
        InstModel::CastPtr { operand, .. } => ExprModel::CastPtr { operand: const_of(operand) },
        InstModel::CastPtrToInt { bits_into, operand, .. } => ExprModel::CastPtrToInt {
            bits_into,
            operand: const_of(operand),
        },
        InstModel::CastIntToPtr { bits_from, operand, .. } => ExprModel::CastIntToPtr {
            bits_from,
            operand: const_of(operand),
        },
        InstModel::GEP { src_pointee_type, dst_pointee_type, pointer, offset, indices, .. } => ExprModel::GEP {
            src_pointee_type,
            dst_pointee_type,
            pointer: const_of(pointer),
            offset: const_of(offset),
            indices: indices.map_values(|i: IndexModel| const_index_of(i)),
        },
        InstModel::ITEOne { cond, then_value, else_value, .. } => ExprModel::ITEOne {
            cond: const_of(cond),
            then_value: const_of(then_value),
            else_value: const_of(else_value),
        },
        InstModel::ITEVec { bits, number, length, cond, then_value, else_value, .. } => ExprModel::ITEVec {
            bits,
            number,
            length,
            cond: const_of(cond),
            then_value: const_of(then_value),
            else_value: const_of(else_value),
        },
        InstModel::GetValue { src_ty, dst_ty, aggregate, indices, .. } => ExprModel::GetValue {
            src_ty,
            dst_ty,
            aggregate: const_of(aggregate),
            indices,
        },
        InstModel::SetValue { aggregate, value, indices, .. } => ExprModel::SetValue {
            aggregate: const_of(aggregate),
            value: const_of(value),
            indices,
        },
        InstModel::GetElement { bits, number, length, vector, slot, .. } => ExprModel::GetElement {
            bits,
            number,
            length,
            vector: const_of(vector),
            slot: const_of(slot),
        },
        InstModel::SetElement { bits, number, length, vector, value, slot, .. } => ExprModel::SetElement {
            bits,
            number,
            length,
            vector: const_of(vector),
            value: const_of(value),
            slot: const_of(slot),
        },
        InstModel::ShuffleVec { bits, number, length, lhs, rhs, mask, .. } => ExprModel::ShuffleVec {
            bits,
            number,
            length,
            lhs: const_of(lhs),
            rhs: const_of(rhs),
            mask,
        },
        _ => ExprModel::CastPtr { operand: ConstModel::Null },
    }
}

/// The constant expression an instruction stands for, or why it stands for none.
pub open spec fn expr_of(m: InstModel) -> Result<ExprModel, Failure> {
    if !expression_model_kind(m) {
        Err(Failure::Assumption("unexpected instruction type for const expr"@))
    } else if !operand_models_constant(m) {
        Err(Failure::Invariant("expect value to be a constant"@))
    } else {
        Ok(expression_body(m))
    }
}

/// Reads a terminator instruction (`ty` is the instruction's type).
pub open spec fn conv_term(env: Env, regs: Regs, ty: TypeView, repr: Inst) -> (Result<TermModel, Failure>, Regs) {
    if !(ty is Void) {
        (Err(Failure::Assumption("all terminator instructions must have void type"@)), regs)
    } else {
        match repr {
            Inst::Return { value } => match (value, env.ret) {
                (None, None) => (Ok(TermModel::Return { val: None }), regs),
                (Some(v), Some(t)) => match conv_value(env, regs, v, t) {
                    (Err(f), r) => (Err(f), r),
                    (Ok(x), r) => (Ok(TermModel::Return { val: Some(x) }), r),
                },
                _ => (Err(Failure::Invariant("return type mismatch"@)), regs),
            },
            Inst::Branch { cond, targets } => match cond {
                None => if targets@.len() != 1 {
                    (Err(Failure::Assumption("unconditional branch should have exactly one target"@)), regs)
                } else if !env.blocks.contains(targets@[0]) {
                    (Err(Failure::Assumption("unconditional branch to unknown target"@)), regs)
                } else {
                    (Ok(TermModel::Goto { target: BlockLabel(targets@[0]) }), regs)
                },
                Some(v) => match conv_int1(env, regs, v) {
                    (Err(f), r) => (Err(f), r),
                    (Ok(c), r) => if targets@.len() != 2 {
                        (Err(Failure::Assumption("conditional branch should have exactly two targets"@)), r)
                    } else if !env.blocks.contains(targets@[0]) {
                        (Err(Failure::Assumption("conditional branch to unknown then target"@)), r)
                    } else if !env.blocks.contains(targets@[1]) {
                        (Err(Failure::Assumption("conditional branch to unknown else target"@)), r)
                    } else {
                        (Ok(TermModel::Branch { cond: c, then_case: BlockLabel(targets@[0]), else_case: BlockLabel(targets@[1]) }), r)
                    },
                },
            },
            Inst::Switch { cond, cond_ty, cases, default } => match conv_ty(env.scope, cond_ty@) {
                Err(f) => (Err(f), regs),
                Ok(ct) => if !(ct matches TypeModel::Bitvec { number: NumRepr::Int, length: None, .. }) {
                    (Err(Failure::Assumption("switch condition must be int"@)), regs)
                } else {
                    match conv_value(env, regs, cond, ct) {
                        (Err(f), r) => (Err(f), r),
                        (Ok(c), r) => match switch_cases(env, cases@, ct, cases@.len()) {
                            Err(f) => (Err(f), r),
                            Ok(mapping) => match default {
                                None => (Ok(TermModel::Switch { cond: c, cases: mapping, default: None }), r),
                                Some(l) => if !env.blocks.contains(l) {
                                    (Err(Failure::Assumption("switch default casing into an invalid block"@)), r)
                                } else {
                                    (Ok(TermModel::Switch { cond: c, cases: mapping, default: Some(BlockLabel(l)) }), r)
                                },
                            },
                        },
                    }
                },
            },
            Inst::IndirectJump { .. } => (Err(Failure::Unsupported(Unsupported::IndirectJump)), regs),
            Inst::InvokeDirect { .. } | Inst::InvokeIndirect { .. } | Inst::InvokeAsm { .. } | Inst::Resume { .. }
            | Inst::CatchSwitch | Inst::CatchReturn | Inst::CleanupReturn => (
                Err(Failure::Unsupported(Unsupported::ExceptionHandling)),
                regs,
            ),
            Inst::Unreachable => (Ok(TermModel::Unreachable), regs),
            _ => (Err(Failure::Invariant("malformed block with non-terminator instruction"@)), regs),
        }
    }
}

/// Index of the first case of a switch for a value, if any.
pub open spec fn first_case_index(cases: Seq<(u64, BlockLabel)>, v: u64) -> Option<int>
    decreases cases.len(),
{
    if cases.len() == 0 {
        None
    } else if cases[0].0 == v {
        Some(0)
    } else {
        match first_case_index(cases.drop_first(), v) {
            Some(i) => Some(i + 1),
            None => None,
        }
    }
}

pub proof fn lemma_first_case_index(cases: Seq<(u64, BlockLabel)>, v: u64)
    ensures
        match first_case_index(cases, v) {
            Some(i) => 0 <= i < cases.len() && cases[i].0 == v && forall|j: int| 0 <= j < i ==> cases[j].0 != v,
            None => forall|j: int| 0 <= j < cases.len() ==> cases[j].0 != v,
        },
    decreases cases.len(),
{
    if cases.len() > 0 && cases[0].0 != v {
        lemma_first_case_index(cases.drop_first(), v);
        assert forall|j: int| 0 < j < cases.len() implies cases[j] == cases.drop_first()[j - 1] by {}
    }
}

/// The cases of a switch with one more: a later case for the same value replaces
/// the earlier one in its place.
pub open spec fn case_insert(cases: Seq<(u64, BlockLabel)>, v: u64, b: BlockLabel) -> Seq<(u64, BlockLabel)> {
    match first_case_index(cases, v) {
        Some(i) => cases.update(i, (v, b)),
        None => cases.push((v, b)),
    }
}

/// Reads the first `n` cases of a switch on a condition of type `t`.
pub open spec fn switch_cases(env: Env, cs: Seq<crate::ir::adapter::instruction::SwitchCase>, t: TypeModel, n: nat) -> Result<Seq<(u64, BlockLabel)>, Failure>
    decreases n,
{
    if n == 0 || n > cs.len() {
        Ok(Seq::empty())
    } else {
        match switch_cases(env, cs, t, (n - 1) as nat) {
            Err(f) => Err(f),
            Ok(p) => if !env.blocks.contains(cs[n - 1].block) {
                Err(Failure::Assumption("switch casing into an invalid block"@))
            } else {
                match conv_const(env.scope, cs[n - 1].value, t) {
                    Err(f) => Err(f),
                    Ok(ConstModel::NumOne { value: NumValue::Int(v), .. }) => if v < 0 || v > u64::MAX {
                        Err(Failure::Assumption("switch casing label larger than u64"@))
                    } else {
                        Ok(case_insert(p, v as u64, BlockLabel(cs[n - 1].block)))
                    },
                    Ok(_) => Err(Failure::Invariant("switch case is not a constant int"@)),
                }
            },
        }
    }
}

} // verus!

verus! {

/// Once reading the arguments of a call fails, reading more of them fails the same way.
pub proof fn lemma_args_prefix(env: Env, regs: Regs, vs: Seq<AValue>, ts: Seq<TypeModel>, i: nat, n: nat)
    requires
        i <= n <= vs.len(),
        n <= ts.len(),
        conv_args(env, regs, vs, ts, i).0 is Err,
    ensures
        conv_args(env, regs, vs, ts, n) == conv_args(env, regs, vs, ts, i),
    decreases n,
{
    if n > i {
        lemma_args_prefix(env, regs, vs, ts, i, (n - 1) as nat);
    }
}

/// Once walking down a GEP fails, walking further fails the same way.
pub proof fn lemma_gep_walk_prefix(env: Env, regs: Regs, src: TypeModel, vs: Seq<AValue>, i: nat, n: nat)
    requires
        1 <= i <= n <= vs.len(),
        gep_walk(env, regs, src, vs, i).0 is Err,
    ensures
        gep_walk(env, regs, src, vs, n) == gep_walk(env, regs, src, vs, i),
    decreases n,
{
    if n > i {
        lemma_gep_walk_prefix(env, regs, src, vs, i, (n - 1) as nat);
    }
}

/// Once reading the incoming edges of a phi node fails, reading more fails the same way.
pub proof fn lemma_phi_prefix(env: Env, regs: Regs, os: Seq<crate::ir::adapter::instruction::PhiOption>, t: TypeModel, i: nat, n: nat)
    requires
        i <= n <= os.len(),
        phi_options(env, regs, os, t, i).0 is Err,
    ensures
        phi_options(env, regs, os, t, n) == phi_options(env, regs, os, t, i),
    decreases n,
{
    if n > i {
        lemma_phi_prefix(env, regs, os, t, i, (n - 1) as nat);
    }
}

/// Once walking down an aggregate fails, walking further fails the same way.
pub proof fn lemma_aggregate_prefix(src: TypeModel, idx: Seq<usize>, i: nat, n: nat)
    requires
        i <= n <= idx.len(),
        aggregate_walk(src, idx, i) is Err,
    ensures
        aggregate_walk(src, idx, n) == aggregate_walk(src, idx, i),
    decreases n,
{
    if n > i {
        lemma_aggregate_prefix(src, idx, i, (n - 1) as nat);
    }
}

/// Once reading the elements of an aggregate fails, reading more fails the same way.
pub proof fn lemma_elements_prefix(sc: Scope, es: Seq<AConstant>, t: TypeModel, i: nat, n: nat)
    requires
        i <= n <= es.len(),
        conv_elements(sc, es, t, i) is Err,
    ensures
        conv_elements(sc, es, t, n) == conv_elements(sc, es, t, i),
    decreases n,
{
    if n > i {
        lemma_elements_prefix(sc, es, t, i, (n - 1) as nat);
    }
}

/// Once reading the fields of a struct fails, reading more fails the same way.
pub proof fn lemma_fields_prefix(sc: Scope, es: Seq<AConstant>, ts: Seq<TypeModel>, i: nat, n: nat)
    requires
        i <= n <= es.len(),
        n <= ts.len(),
        conv_fields(sc, es, ts, i) is Err,
    ensures
        conv_fields(sc, es, ts, n) == conv_fields(sc, es, ts, i),
    decreases n,
{
    if n > i {
        lemma_fields_prefix(sc, es, ts, i, (n - 1) as nat);
    }
}

/// Once reading the cases of a switch fails, reading more fails the same way.
pub proof fn lemma_cases_prefix(env: Env, cs: Seq<crate::ir::adapter::instruction::SwitchCase>, t: TypeModel, i: nat, n: nat)
    requires
        i <= n <= cs.len(),
        switch_cases(env, cs, t, i) is Err,
    ensures
        switch_cases(env, cs, t, n) == switch_cases(env, cs, t, i),
    decreases n,
{
    if n > i {
        lemma_cases_prefix(env, cs, t, i, (n - 1) as nat);
    }
}

} // verus!

verus! {

/// A cast always changes something: a size cast changes the width, a cast between
/// integers and floats changes the representation, and a free cast keeps the total
/// number of bits.
pub proof fn law_casts_change_something(
    opcode: Seq<char>,
    src: TypeModel,
    dst: TypeModel,
    src_address_space: Option<usize>,
    dst_address_space: Option<usize>,
    operand: ValueModel,
    index: usize,
)
    ensures
        match cast_outcome(opcode, src, dst, src_address_space, dst_address_space, operand, index) {
            Ok(InstModel::CastBitvecSize { bits_from, bits_into, .. }) => bits_from != bits_into,
            Ok(InstModel::CastBitvecRepr { number_from, number_into, .. }) => number_from != number_into,
            Ok(InstModel::CastBitvecFree { bits_from, bits_into, length_from, length_into, .. }) => total_bits(
                bits_from,
                length_from,
            ) == total_bits(bits_into, length_into),
            _ => true,
        },
{
}

} // verus!

verus! {

/// A binary instruction becomes the operation that its opcode names, on its two
/// operands in order; an arithmetic opcode is read on every bit-vector type of
/// the representation it names.
pub proof fn law_binary_instructions(opcode: Seq<char>, inst_ty: TypeModel, l: ValueModel, x: ValueModel, index: usize)
    ensures
        match binary_outcome(opcode, inst_ty, l, x, index) {
            Ok(InstModel::BinaryArith { number, opcode: op, lhs, rhs, .. }) => crate::ir::operator::binary_opcode_names(
                BinaryOperator::Arithmetic(op, number),
            ).contains(opcode) && lhs == l && rhs == x,
            Ok(InstModel::BinaryBitwise { opcode: op, lhs, rhs, .. }) => crate::ir::operator::binary_opcode_names(
                BinaryOperator::Bitwise(op),
            ).contains(opcode) && lhs == l && rhs == x,
            Ok(InstModel::BinaryShift { opcode: op, lhs, rhs, .. }) => crate::ir::operator::binary_opcode_names(
                BinaryOperator::Shift(op),
            ).contains(opcode) && lhs == l && rhs == x,
            Ok(_) => false,
            Err(_) => true,
        },
        match inst_ty {
            TypeModel::Bitvec { bits, number, length } => forall|op: crate::ir::operator::BinaryOpArith|
                #[trigger] crate::ir::operator::binary_opcode_names(BinaryOperator::Arithmetic(op, number)).contains(opcode)
                    ==> binary_outcome(opcode, inst_ty, l, x, index) == Ok::<InstModel, Failure>(
                    InstModel::BinaryArith { bits, number, length, opcode: op, lhs: l, rhs: x, result: slot(index) },
                ),
            _ => true,
        },
{
    if let Some(o) = binary_operator_of(opcode) {
        crate::ir::operator::law_binary_opcodes(opcode, o);
    }
    if let TypeModel::Bitvec { bits, number, length } = inst_ty {
        assert forall|op: crate::ir::operator::BinaryOpArith|
            #[trigger] crate::ir::operator::binary_opcode_names(BinaryOperator::Arithmetic(op, number)).contains(opcode)
                implies binary_outcome(opcode, inst_ty, l, x, index) == Ok::<InstModel, Failure>(
                InstModel::BinaryArith { bits, number, length, opcode: op, lhs: l, rhs: x, result: slot(index) },
            ) by {
            crate::ir::operator::law_binary_opcodes(opcode, BinaryOperator::Arithmetic(op, number));
        }
    }
}

} // verus!

verus! {

/// A cast becomes an instruction that records the source and destination types
/// as given, the operand as given, and the result under the instruction's index.
pub proof fn law_casts_keep_types(
    opcode: Seq<char>,
    src: TypeModel,
    dst: TypeModel,
    src_address_space: Option<usize>,
    dst_address_space: Option<usize>,
    operand: ValueModel,
    index: usize,
)
    ensures
        match cast_outcome(opcode, src, dst, src_address_space, dst_address_space, operand, index) {
            Ok(InstModel::CastBitvecSize { bits_from, bits_into, number, length, operand: o, result }) => src
                == (TypeModel::Bitvec { bits: bits_from, number, length }) && dst == (TypeModel::Bitvec {
                bits: bits_into,
                number,
                length,
            }) && o == operand && result == slot(index),
            Ok(InstModel::CastBitvecRepr { bits_from, bits_into, number_from, number_into, length, operand: o, result }) => src
                == (TypeModel::Bitvec { bits: bits_from, number: number_from, length }) && dst == (TypeModel::Bitvec {
                bits: bits_into,
                number: number_into,
                length,
            }) && o == operand && result == slot(index),
            Ok(
                InstModel::CastBitvecFree {
                    bits_from,
                    bits_into,
                    number_from,
                    number_into,
                    length_from,
                    length_into,
                    operand: o,
                    result,
                },
            ) => src == (TypeModel::Bitvec { bits: bits_from, number: number_from, length: length_from }) && dst == (
            TypeModel::Bitvec { bits: bits_into, number: number_into, length: length_into }) && o == operand && result
                == slot(index),
            Ok(InstModel::CastPtr { operand: o, result }) => src == TypeModel::Pointer && dst == TypeModel::Pointer && o
                == operand && result == slot(index),
            Ok(InstModel::CastPtrToInt { bits_into, operand: o, result }) => src == TypeModel::Pointer && dst == (
            TypeModel::Bitvec { bits: bits_into, number: NumRepr::Int, length: None }) && o == operand && result == slot(
                index,
            ),
            Ok(InstModel::CastIntToPtr { bits_from, operand: o, result }) => src == (TypeModel::Bitvec {
                bits: bits_from,
                number: NumRepr::Int,
                length: None,
            }) && dst == TypeModel::Pointer && o == operand && result == slot(index),
            Ok(_) => false,
            Err(_) => true,
        },
{
}

} // verus!

verus! {

/// The decimal numeral of a number is a run of digits that denotes it.
proof fn lemma_decimal_digits(n: nat)
    ensures
        is_digits(decimal_text(n)),
        digits_value(decimal_text(n)) == n,
    decreases n,
{
    let d = (n % 10) as nat;
    assert(digit_value(digit_char(d)) == d) by {
        assert(d < 10);
    }
    if n < 10 {
        assert(seq![digit_char(n)].drop_last() =~= Seq::<char>::empty());
        assert(n % 10 == n);
        assert(decimal_text(n) == seq![digit_char(n)]);
        assert(digits_value(Seq::<char>::empty()) == 0);
        assert(digits_value(seq![digit_char(n)]) == digit_value(digit_char(n)));
    } else {
        lemma_decimal_digits(n / 10);
        let s = decimal_text(n);
        let init = decimal_text(n / 10);
        assert(s.drop_last() =~= init);
        assert(s.last() == digit_char(d));
        vstd::arithmetic::div_mod::lemma_fundamental_div_mod(n as int, 10);
        assert(digits_value(s) == digits_value(init) * 10 + digit_value(digit_char(d)));
        assert forall|i: int| 0 <= i < s.len() implies '0' <= #[trigger] s[i] <= '9' by {
            if i < init.len() {
                assert(s[i] == init[i]);
            }
        }
    }
}

/// Reading the decimal numeral of an integer, with a minus sign before it where
/// it is negative, gives the integer back.
pub proof fn law_int_numerals_read_back(n: int)
    ensures
        int_text_value(if n < 0 {
            "-"@ + decimal_text((-n) as nat)
        } else {
            decimal_text(n as nat)
        }) == Some(n),
{
    reveal_strlit("-");
    if n < 0 {
        let d = decimal_text((-n) as nat);
        lemma_decimal_digits((-n) as nat);
        assert(("-"@ + d).skip(1) =~= d);
        assert(("-"@ + d)[0] == '-');
    } else {
        let d = decimal_text(n as nat);
        lemma_decimal_digits(n as nat);
        assert(d[0] != '-' && d[0] != '+');
    }
}

} // verus!

verus! {

/// A comparison becomes the comparison that its predicate names, on its two
/// operands in order, with a boolean result.
pub proof fn law_compare_instructions(
    predicate: Seq<char>,
    inst_ty: TypeModel,
    operand_ty: TypeModel,
    l: ValueModel,
    x: ValueModel,
    index: usize,
)
    ensures
        match compare_outcome(predicate, inst_ty, operand_ty, l, x, index) {
            Ok(InstModel::CompareBitvec { bits, number, length, predicate: p, lhs, rhs, result }) => crate::ir::operator::compare_predicate_names(
                CompareOperator::Pred(p, number),
            ).contains(predicate) && operand_ty == (TypeModel::Bitvec { bits, number, length }) && inst_ty == (
            TypeModel::Bitvec { bits: 1, number: NumRepr::Int, length }) && lhs == l && rhs == x && result == slot(index),
            Ok(InstModel::ComparePtr { predicate: p, lhs, rhs, result }) => crate::ir::operator::compare_predicate_names(
                CompareOperator::Pred(p, NumRepr::Int),
            ).contains(predicate) && operand_ty == TypeModel::Pointer && lhs == l && rhs == x && result == slot(index),
            Ok(InstModel::CompareOrder { bits, length, ordered, lhs, rhs, result }) => crate::ir::operator::compare_predicate_names(
                CompareOperator::Ord(ordered),
            ).contains(predicate) && operand_ty == (TypeModel::Bitvec { bits, number: NumRepr::Float, length })
                && lhs == l && rhs == x && result == slot(index),
            Ok(_) => false,
            Err(_) => true,
        },
{
    if let Some(o) = compare_operator_of(predicate) {
        crate::ir::operator::law_compare_predicates(predicate, o);
    }
}

} // verus!
