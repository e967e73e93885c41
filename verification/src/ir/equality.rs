use vstd::prelude::*;

use crate::ir::constant::{Constant, Expression, GEPConstIndex};
use crate::ir::model::{const_index_models, const_models};
use crate::ir::shared::Identifier;
use crate::ir::typing::name_model;
use crate::ir::value::{BlockLabel, RegisterSlot, Value};
use crate::ir::cfg::Block;
use crate::ir::instruction::{GEPIndex, Instruction, Terminator};
use crate::ir::model::{call_result_model, index_models, opt_value_model, option_models, value_models};
use crate::ir::typing::Type;

verus! {

/// Whether two optional names are equal.
pub(crate) fn same_names(a: &Option<Identifier>, b: &Option<Identifier>) -> (r: bool)
    ensures
        r == (name_model(*a) == name_model(*b)),
{
    match (a, b) {
        (Some(x), Some(y)) => x.same_name(y),
        (None, None) => true,
        _ => false,
    }
}

/// Whether two lists of masks or indices are equal.
fn same_list<T: Copy + PartialEq>(a: &Vec<T>, b: &Vec<T>) -> (r: bool)
    where
        T: vstd::std_specs::cmp::PartialEqSpec,
    requires
        T::obeys_eq_spec(),
        forall|x: T, y: T| #[trigger] x.eq_spec(&y) <==> x == y,
    ensures
        r == (a@ == b@),
{
    if a.len() != b.len() {
        return false;
    }
    let mut i: usize = 0;
    while i < a.len()
        invariant
            a@.len() == b@.len(),
            i <= a@.len(),
            T::obeys_eq_spec(),
            forall|x: T, y: T| #[trigger] x.eq_spec(&y) <==> x == y,
            forall|j: int| 0 <= j < i ==> a@[j] == b@[j],
        decreases a@.len() - i,
    {
        if a[i] != b[i] {
            return false;
        }
        i = i + 1;
    }
    assert(a@ =~= b@);
    true
}

/// Whether two lists of constants have equal models.
fn same_constants(a: &Vec<Constant>, b: &Vec<Constant>) -> (r: bool)
    ensures
        r == (const_models(a@) == const_models(b@)),
    decreases a@, 1nat,
{
    if a.len() != b.len() {
        proof {
            assert(const_models(a@).len() != const_models(b@).len());
        }
        return false;
    }
    let mut i: usize = 0;
    while i < a.len()
        invariant
            a@.len() == b@.len(),
            i <= a@.len(),
            forall|j: int| 0 <= j < i ==> a@[j].model() == b@[j].model(),
        decreases a@.len() - i,
    {
        proof {
            assert(decreases_to!(a@ => a@[i as int]));
        }
        if !a[i].same_as(&b[i]) {
            assert(const_models(a@)[i as int] != const_models(b@)[i as int]);
            return false;
        }
        i = i + 1;
    }
    assert(const_models(a@) =~= const_models(b@));
    true
}

/// Whether two lists of constant indices have equal models.
fn same_const_indices(a: &Vec<GEPConstIndex>, b: &Vec<GEPConstIndex>) -> (r: bool)
    ensures
        r == (const_index_models(a@) == const_index_models(b@)),
    decreases a@, 1nat,
{
    if a.len() != b.len() {
        proof {
            assert(const_index_models(a@).len() != const_index_models(b@).len());
        }
        return false;
    }
    let mut i: usize = 0;
    while i < a.len()
        invariant
            a@.len() == b@.len(),
            i <= a@.len(),
            forall|j: int| 0 <= j < i ==> a@[j].model() == b@[j].model(),
        decreases a@.len() - i,
    {
        proof {
            assert(decreases_to!(a@ => a@[i as int]));
        }
        let same = match (&a[i], &b[i]) {
            (GEPConstIndex::Array(x), GEPConstIndex::Array(y)) => x.same_as(y),
            (GEPConstIndex::Struct(x), GEPConstIndex::Struct(y)) => *x == *y,
            (GEPConstIndex::Vector(x), GEPConstIndex::Vector(y)) => x.same_as(y),
            _ => false,
        };
        if !same {
            assert(const_index_models(a@)[i as int] != const_index_models(b@)[i as int]);
            return false;
        }
        i = i + 1;
    }
    assert(const_index_models(a@) =~= const_index_models(b@));
    true
}

impl Constant {
    /// Whether two constants have equal models.
    pub fn same_as(&self, other: &Constant) -> (r: bool)
        ensures
            r == (self.model() == other.model()),
        decreases self, 0nat,
    {
        match (self, other) {
            (Constant::NumOne { bits: b1, value: v1 }, Constant::NumOne { bits: b2, value: v2 }) => *b1 == *b2 && *v1
                == *v2,
            (
                Constant::NumVec { bits: b1, number: n1, elements: e1 },
                Constant::NumVec { bits: b2, number: n2, elements: e2 },
            ) => *b1 == *b2 && *n1 == *n2 && same_constants(e1, e2),
            (Constant::Null, Constant::Null) => true,
            (Constant::UndefPointer, Constant::UndefPointer) => true,
            (Constant::Array { sub: s1, elements: e1 }, Constant::Array { sub: s2, elements: e2 }) => s1.same_as(s2)
                && same_constants(e1, e2),
            (Constant::Struct { name: n1, fields: f1 }, Constant::Struct { name: n2, fields: f2 }) => same_names(n1, n2)
                && same_constants(f1, f2),
            (Constant::Variable { name: n1 }, Constant::Variable { name: n2 }) => n1.same_name(n2),
            (Constant::Function { name: n1 }, Constant::Function { name: n2 }) => n1.same_name(n2),
            (Constant::Expr(e1), Constant::Expr(e2)) => e1.same_as(e2),
            _ => false,
        }
    }
}

impl Expression {
    /// Whether two constant expressions have equal models.
    pub fn same_as(&self, other: &Expression) -> (r: bool)
        ensures
            r == (self.model() == other.model()),
        decreases self, 0nat,
    {
        match (self, other) {
            (
                Expression::UnaryArith { bits: b1, number: n1, length: l1, opcode: o1, operand: x1 },
                Expression::UnaryArith { bits: b2, number: n2, length: l2, opcode: o2, operand: x2 },
            ) => *b1 == *b2 && *n1 == *n2 && *l1 == *l2 && *o1 == *o2 && x1.same_as(x2),
            (
                Expression::BinaryArith { bits: b1, number: n1, length: l1, opcode: o1, lhs: x1, rhs: y1 },
                Expression::BinaryArith { bits: b2, number: n2, length: l2, opcode: o2, lhs: x2, rhs: y2 },
            ) => *b1 == *b2 && *n1 == *n2 && *l1 == *l2 && *o1 == *o2 && x1.same_as(x2) && y1.same_as(y2),
            (
                Expression::BinaryBitwise { bits: b1, length: l1, opcode: o1, lhs: x1, rhs: y1 },
                Expression::BinaryBitwise { bits: b2, length: l2, opcode: o2, lhs: x2, rhs: y2 },
            ) => *b1 == *b2 && *l1 == *l2 && *o1 == *o2 && x1.same_as(x2) && y1.same_as(y2),
            (
                Expression::BinaryShift { bits: b1, length: l1, opcode: o1, lhs: x1, rhs: y1 },
                Expression::BinaryShift { bits: b2, length: l2, opcode: o2, lhs: x2, rhs: y2 },
            ) => *b1 == *b2 && *l1 == *l2 && *o1 == *o2 && x1.same_as(x2) && y1.same_as(y2),
            (
                Expression::CompareBitvec { bits: b1, number: n1, length: l1, predicate: p1, lhs: x1, rhs: y1 },
                Expression::CompareBitvec { bits: b2, number: n2, length: l2, predicate: p2, lhs: x2, rhs: y2 },
            ) => *b1 == *b2 && *n1 == *n2 && *l1 == *l2 && *p1 == *p2 && x1.same_as(x2) && y1.same_as(y2),
            (
                Expression::CompareOrder { bits: b1, length: l1, ordered: d1, lhs: x1, rhs: y1 },
                Expression::CompareOrder { bits: b2, length: l2, ordered: d2, lhs: x2, rhs: y2 },
            ) => *b1 == *b2 && *l1 == *l2 && *d1 == *d2 && x1.same_as(x2) && y1.same_as(y2),
            (
                Expression::ComparePtr { predicate: p1, lhs: x1, rhs: y1 },
                Expression::ComparePtr { predicate: p2, lhs: x2, rhs: y2 },
            ) => *p1 == *p2 && x1.same_as(x2) && y1.same_as(y2),
            (
                Expression::CastBitvecSize { bits_from: f1, bits_into: t1, number: n1, length: l1, operand: x1 },
                Expression::CastBitvecSize { bits_from: f2, bits_into: t2, number: n2, length: l2, operand: x2 },
            ) => *f1 == *f2 && *t1 == *t2 && *n1 == *n2 && *l1 == *l2 && x1.same_as(x2),
            (
                Expression::CastBitvecRepr {
                    bits_from: f1,
                    bits_into: t1,
                    number_from: nf1,
                    number_into: ni1,
                    length: l1,
                    operand: x1,
                },
                Expression::CastBitvecRepr {
                    bits_from: f2,
                    bits_into: t2,
                    number_from: nf2,
                    number_into: ni2,
                    length: l2,
                    operand: x2,
                },
            ) => *f1 == *f2 && *t1 == *t2 && *nf1 == *nf2 && *ni1 == *ni2 && *l1 == *l2 && x1.same_as(x2),
            (
                Expression::CastBitvecFree {
                    bits_from: f1,
                    bits_into: t1,
                    number_from: nf1,
                    number_into: ni1,
                    length_from: lf1,
                    length_into: li1,
                    operand: x1,
                },
                Expression::CastBitvecFree {
                    bits_from: f2,
                    bits_into: t2,
                    number_from: nf2,
                    number_into: ni2,
                    length_from: lf2,
                    length_into: li2,
                    operand: x2,
                },
            ) => *f1 == *f2 && *t1 == *t2 && *nf1 == *nf2 && *ni1 == *ni2 && *lf1 == *lf2 && *li1 == *li2
                && x1.same_as(x2),
            (Expression::CastPtr { operand: x1 }, Expression::CastPtr { operand: x2 }) => x1.same_as(x2),
            (
                Expression::CastPtrToInt { bits_into: t1, operand: x1 },
                Expression::CastPtrToInt { bits_into: t2, operand: x2 },
            ) => *t1 == *t2 && x1.same_as(x2),
            (
                Expression::CastIntToPtr { bits_from: f1, operand: x1 },
                Expression::CastIntToPtr { bits_from: f2, operand: x2 },
            ) => *f1 == *f2 && x1.same_as(x2),
            (
                Expression::GEP { src_pointee_type: s1, dst_pointee_type: d1, pointer: p1, offset: o1, indices: i1 },
                Expression::GEP { src_pointee_type: s2, dst_pointee_type: d2, pointer: p2, offset: o2, indices: i2 },
            ) => s1.same_as(s2) && d1.same_as(d2) && p1.same_as(p2) && o1.same_as(o2) && same_const_indices(i1, i2),
            (
                Expression::GEPNop { pointee_type: t1, pointer: p1 },
                Expression::GEPNop { pointee_type: t2, pointer: p2 },
            ) => t1.same_as(t2) && p1.same_as(p2),
            (
                Expression::ITEOne { cond: c1, then_value: t1, else_value: e1 },
                Expression::ITEOne { cond: c2, then_value: t2, else_value: e2 },
            ) => c1.same_as(c2) && t1.same_as(t2) && e1.same_as(e2),
            (
                Expression::ITEVec { bits: b1, number: n1, length: l1, cond: c1, then_value: t1, else_value: e1 },
                Expression::ITEVec { bits: b2, number: n2, length: l2, cond: c2, then_value: t2, else_value: e2 },
            ) => *b1 == *b2 && *n1 == *n2 && *l1 == *l2 && c1.same_as(c2) && t1.same_as(t2) && e1.same_as(e2),
            (
                Expression::GetValue { src_ty: s1, dst_ty: d1, aggregate: a1, indices: i1 },
                Expression::GetValue { src_ty: s2, dst_ty: d2, aggregate: a2, indices: i2 },
            ) => s1.same_as(s2) && d1.same_as(d2) && a1.same_as(a2) && same_list(i1, i2),
            (
                Expression::SetValue { aggregate: a1, value: v1, indices: i1 },
                Expression::SetValue { aggregate: a2, value: v2, indices: i2 },
            ) => a1.same_as(a2) && v1.same_as(v2) && same_list(i1, i2),
            (
                Expression::GetElement { bits: b1, number: n1, length: l1, vector: v1, slot: s1 },
                Expression::GetElement { bits: b2, number: n2, length: l2, vector: v2, slot: s2 },
            ) => *b1 == *b2 && *n1 == *n2 && *l1 == *l2 && v1.same_as(v2) && s1.same_as(s2),
            (
                Expression::SetElement { bits: b1, number: n1, length: l1, vector: v1, value: x1, slot: s1 },
                Expression::SetElement { bits: b2, number: n2, length: l2, vector: v2, value: x2, slot: s2 },
            ) => *b1 == *b2 && *n1 == *n2 && *l1 == *l2 && v1.same_as(v2) && x1.same_as(x2) && s1.same_as(s2),
            (
                Expression::ShuffleVec { bits: b1, number: n1, length: l1, lhs: x1, rhs: y1, mask: m1 },
                Expression::ShuffleVec { bits: b2, number: n2, length: l2, lhs: x2, rhs: y2, mask: m2 },
            ) => *b1 == *b2 && *n1 == *n2 && *l1 == *l2 && x1.same_as(x2) && y1.same_as(y2) && same_list(m1, m2),
            _ => false,
        }
    }
}

impl Value {
    /// Whether two values have equal models.
    pub fn same_as(&self, other: &Value) -> (r: bool)
        ensures
            r == (self.model() == other.model()),
    {
        match (self, other) {
            (Value::Constant(a), Value::Constant(b)) => a.same_as(b),
            (Value::Argument { index: i1, ty: t1 }, Value::Argument { index: i2, ty: t2 }) => i1.0 == i2.0 && t1.same_as(t2),
            (Value::Register { index: i1, ty: t1 }, Value::Register { index: i2, ty: t2 }) => i1.0 == i2.0 && t1.same_as(t2),
            _ => false,
        }
    }
}

/// Whether two lists of values have equal models.
fn same_values(a: &Vec<Value>, b: &Vec<Value>) -> (r: bool)
    ensures
        r == (value_models(a@) == value_models(b@)),
{
    if a.len() != b.len() {
        proof {
            assert(value_models(a@).len() != value_models(b@).len());
        }
        return false;
    }
    let mut i: usize = 0;
    while i < a.len()
        invariant
            a@.len() == b@.len(),
            i <= a@.len(),
            forall|j: int| 0 <= j < i ==> a@[j].model() == b@[j].model(),
        decreases a@.len() - i,
    {
        if !a[i].same_as(&b[i]) {
            assert(value_models(a@)[i as int] != value_models(b@)[i as int]);
            return false;
        }
        i = i + 1;
    }
    assert(value_models(a@) =~= value_models(b@));
    true
}

/// Whether two optional values have equal models.
fn same_opt_value(a: &Option<Value>, b: &Option<Value>) -> (r: bool)
    ensures
        r == (opt_value_model(*a) == opt_value_model(*b)),
{
    match (a, b) {
        (Some(x), Some(y)) => x.same_as(y),
        (None, None) => true,
        _ => false,
    }
}

/// Whether the results of two calls have equal models.
fn same_call_result(a: &Option<(Type, RegisterSlot)>, b: &Option<(Type, RegisterSlot)>) -> (r: bool)
    ensures
        r == (call_result_model(*a) == call_result_model(*b)),
{
    match (a, b) {
        (Some((t1, s1)), Some((t2, s2))) => t1.same_as(t2) && s1.0 == s2.0,
        (None, None) => true,
        _ => false,
    }
}

/// Whether two lists of indices have equal models.
fn same_indices(a: &Vec<GEPIndex>, b: &Vec<GEPIndex>) -> (r: bool)
    ensures
        r == (index_models(a@) == index_models(b@)),
{
    if a.len() != b.len() {
        proof {
            assert(index_models(a@).len() != index_models(b@).len());
        }
        return false;
    }
    let mut i: usize = 0;
    while i < a.len()
        invariant
            a@.len() == b@.len(),
            i <= a@.len(),
            forall|j: int| 0 <= j < i ==> a@[j].model() == b@[j].model(),
        decreases a@.len() - i,
    {
        let same = match (&a[i], &b[i]) {
            (GEPIndex::Array(x), GEPIndex::Array(y)) => x.same_as(y),
            (GEPIndex::Struct(x), GEPIndex::Struct(y)) => *x == *y,
            (GEPIndex::Vector(x), GEPIndex::Vector(y)) => x.same_as(y),
            _ => false,
        };
        if !same {
            assert(index_models(a@)[i as int] != index_models(b@)[i as int]);
            return false;
        }
        i = i + 1;
    }
    assert(index_models(a@) =~= index_models(b@));
    true
}

/// Whether the incoming edges of two phi nodes have equal models.
fn same_options(a: &Vec<(BlockLabel, Value)>, b: &Vec<(BlockLabel, Value)>) -> (r: bool)
    ensures
        r == (option_models(a@) == option_models(b@)),
{
    if a.len() != b.len() {
        proof {
            assert(option_models(a@).len() != option_models(b@).len());
        }
        return false;
    }
    let mut i: usize = 0;
    while i < a.len()
        invariant
            a@.len() == b@.len(),
            i <= a@.len(),
            forall|j: int| 0 <= j < i ==> a@[j].0 == b@[j].0 && a@[j].1.model() == b@[j].1.model(),
        decreases a@.len() - i,
    {
        if a[i].0.0 != b[i].0.0 || !a[i].1.same_as(&b[i].1) {
            assert(option_models(a@)[i as int] != option_models(b@)[i as int]);
            return false;
        }
        i = i + 1;
    }
    assert(option_models(a@) =~= option_models(b@));
    true
}

/// Whether the cases of two switches are equal.
fn same_cases(a: &Vec<(u64, BlockLabel)>, b: &Vec<(u64, BlockLabel)>) -> (r: bool)
    ensures
        r == (a@ == b@),
{
    if a.len() != b.len() {
        return false;
    }
    let mut i: usize = 0;
    while i < a.len()
        invariant
            a@.len() == b@.len(),
            i <= a@.len(),
            forall|j: int| 0 <= j < i ==> a@[j] == b@[j],
        decreases a@.len() - i,
    {
        if a[i].0 != b[i].0 || a[i].1.0 != b[i].1.0 {
            return false;
        }
        i = i + 1;
    }
    assert(a@ =~= b@);
    true
}

impl Instruction {
    /// Whether two instructions have equal models.
    #[verifier::spinoff_prover]
    pub fn same_as(&self, other: &Instruction) -> (r: bool)
        ensures
            r == (self.model() == other.model()),
    {
        match (self, other) {
            (Instruction::Alloca { base_type: a_base_type, size: a_size, result: a_result }, Instruction::Alloca { base_type: b_base_type, size: b_size, result: b_result }) => a_base_type.same_as(b_base_type) && same_opt_value(a_size, b_size) && *a_result == *b_result,
            (Instruction::Load { pointee_type: a_pointee_type, pointer: a_pointer, result: a_result }, Instruction::Load { pointee_type: b_pointee_type, pointer: b_pointer, result: b_result }) => a_pointee_type.same_as(b_pointee_type) && a_pointer.same_as(b_pointer) && *a_result == *b_result,
            (Instruction::Store { pointee_type: a_pointee_type, pointer: a_pointer, value: a_value }, Instruction::Store { pointee_type: b_pointee_type, pointer: b_pointer, value: b_value }) => a_pointee_type.same_as(b_pointee_type) && a_pointer.same_as(b_pointer) && a_value.same_as(b_value),
            (Instruction::VariadicArg { pointer: a_pointer }, Instruction::VariadicArg { pointer: b_pointer }) => a_pointer.same_as(b_pointer),
            (Instruction::CallDirect { function: a_function, args: a_args, result: a_result }, Instruction::CallDirect { function: b_function, args: b_args, result: b_result }) => a_function.same_name(b_function) && same_values(a_args, b_args) && same_call_result(a_result, b_result),
            (Instruction::CallIndirect { callee: a_callee, args: a_args, result: a_result }, Instruction::CallIndirect { callee: b_callee, args: b_args, result: b_result }) => a_callee.same_as(b_callee) && same_values(a_args, b_args) && same_call_result(a_result, b_result),
            (Instruction::UnaryArith { bits: a_bits, number: a_number, length: a_length, opcode: a_opcode, operand: a_operand, result: a_result }, Instruction::UnaryArith { bits: b_bits, number: b_number, length: b_length, opcode: b_opcode, operand: b_operand, result: b_result }) => *a_bits == *b_bits && *a_number == *b_number && *a_length == *b_length && *a_opcode == *b_opcode && a_operand.same_as(b_operand) && *a_result == *b_result,
            (Instruction::BinaryArith { bits: a_bits, number: a_number, length: a_length, opcode: a_opcode, lhs: a_lhs, rhs: a_rhs, result: a_result }, Instruction::BinaryArith { bits: b_bits, number: b_number, length: b_length, opcode: b_opcode, lhs: b_lhs, rhs: b_rhs, result: b_result }) => *a_bits == *b_bits && *a_number == *b_number && *a_length == *b_length && *a_opcode == *b_opcode && a_lhs.same_as(b_lhs) && a_rhs.same_as(b_rhs) && *a_result == *b_result,
            (Instruction::BinaryBitwise { bits: a_bits, length: a_length, opcode: a_opcode, lhs: a_lhs, rhs: a_rhs, result: a_result }, Instruction::BinaryBitwise { bits: b_bits, length: b_length, opcode: b_opcode, lhs: b_lhs, rhs: b_rhs, result: b_result }) => *a_bits == *b_bits && *a_length == *b_length && *a_opcode == *b_opcode && a_lhs.same_as(b_lhs) && a_rhs.same_as(b_rhs) && *a_result == *b_result,
            (Instruction::BinaryShift { bits: a_bits, length: a_length, opcode: a_opcode, lhs: a_lhs, rhs: a_rhs, result: a_result }, Instruction::BinaryShift { bits: b_bits, length: b_length, opcode: b_opcode, lhs: b_lhs, rhs: b_rhs, result: b_result }) => *a_bits == *b_bits && *a_length == *b_length && *a_opcode == *b_opcode && a_lhs.same_as(b_lhs) && a_rhs.same_as(b_rhs) && *a_result == *b_result,
            (Instruction::CompareBitvec { bits: a_bits, number: a_number, length: a_length, predicate: a_predicate, lhs: a_lhs, rhs: a_rhs, result: a_result }, Instruction::CompareBitvec { bits: b_bits, number: b_number, length: b_length, predicate: b_predicate, lhs: b_lhs, rhs: b_rhs, result: b_result }) => *a_bits == *b_bits && *a_number == *b_number && *a_length == *b_length && *a_predicate == *b_predicate && a_lhs.same_as(b_lhs) && a_rhs.same_as(b_rhs) && *a_result == *b_result,
            (Instruction::CompareOrder { bits: a_bits, length: a_length, ordered: a_ordered, lhs: a_lhs, rhs: a_rhs, result: a_result }, Instruction::CompareOrder { bits: b_bits, length: b_length, ordered: b_ordered, lhs: b_lhs, rhs: b_rhs, result: b_result }) => *a_bits == *b_bits && *a_length == *b_length && *a_ordered == *b_ordered && a_lhs.same_as(b_lhs) && a_rhs.same_as(b_rhs) && *a_result == *b_result,
            (Instruction::ComparePtr { predicate: a_predicate, lhs: a_lhs, rhs: a_rhs, result: a_result }, Instruction::ComparePtr { predicate: b_predicate, lhs: b_lhs, rhs: b_rhs, result: b_result }) => *a_predicate == *b_predicate && a_lhs.same_as(b_lhs) && a_rhs.same_as(b_rhs) && *a_result == *b_result,
            (Instruction::CastBitvecSize { bits_from: a_bits_from, bits_into: a_bits_into, number: a_number, length: a_length, operand: a_operand, result: a_result }, Instruction::CastBitvecSize { bits_from: b_bits_from, bits_into: b_bits_into, number: b_number, length: b_length, operand: b_operand, result: b_result }) => *a_bits_from == *b_bits_from && *a_bits_into == *b_bits_into && *a_number == *b_number && *a_length == *b_length && a_operand.same_as(b_operand) && *a_result == *b_result,
            (Instruction::CastBitvecRepr { bits_from: a_bits_from, bits_into: a_bits_into, number_from: a_number_from, number_into: a_number_into, length: a_length, operand: a_operand, result: a_result }, Instruction::CastBitvecRepr { bits_from: b_bits_from, bits_into: b_bits_into, number_from: b_number_from, number_into: b_number_into, length: b_length, operand: b_operand, result: b_result }) => *a_bits_from == *b_bits_from && *a_bits_into == *b_bits_into && *a_number_from == *b_number_from && *a_number_into == *b_number_into && *a_length == *b_length && a_operand.same_as(b_operand) && *a_result == *b_result,
            (Instruction::CastBitvecFree { bits_from: a_bits_from, bits_into: a_bits_into, number_from: a_number_from, number_into: a_number_into, length_from: a_length_from, length_into: a_length_into, operand: a_operand, result: a_result }, Instruction::CastBitvecFree { bits_from: b_bits_from, bits_into: b_bits_into, number_from: b_number_from, number_into: b_number_into, length_from: b_length_from, length_into: b_length_into, operand: b_operand, result: b_result }) => *a_bits_from == *b_bits_from && *a_bits_into == *b_bits_into && *a_number_from == *b_number_from && *a_number_into == *b_number_into && *a_length_from == *b_length_from && *a_length_into == *b_length_into && a_operand.same_as(b_operand) && *a_result == *b_result,
            (Instruction::CastPtr { operand: a_operand, result: a_result }, Instruction::CastPtr { operand: b_operand, result: b_result }) => a_operand.same_as(b_operand) && *a_result == *b_result,
            (Instruction::CastPtrToInt { bits_into: a_bits_into, operand: a_operand, result: a_result }, Instruction::CastPtrToInt { bits_into: b_bits_into, operand: b_operand, result: b_result }) => *a_bits_into == *b_bits_into && a_operand.same_as(b_operand) && *a_result == *b_result,
            (Instruction::CastIntToPtr { bits_from: a_bits_from, operand: a_operand, result: a_result }, Instruction::CastIntToPtr { bits_from: b_bits_from, operand: b_operand, result: b_result }) => *a_bits_from == *b_bits_from && a_operand.same_as(b_operand) && *a_result == *b_result,
            (Instruction::FreezeBitvec { bits: a_bits, number: a_number }, Instruction::FreezeBitvec { bits: b_bits, number: b_number }) => *a_bits == *b_bits && *a_number == *b_number,
            (Instruction::FreezePtr, Instruction::FreezePtr) => true,
            (Instruction::FreezeNop { value: a_value }, Instruction::FreezeNop { value: b_value }) => a_value.same_as(b_value),
            (Instruction::GEP { src_pointee_type: a_src_pointee_type, dst_pointee_type: a_dst_pointee_type, pointer: a_pointer, offset: a_offset, indices: a_indices, result: a_result }, Instruction::GEP { src_pointee_type: b_src_pointee_type, dst_pointee_type: b_dst_pointee_type, pointer: b_pointer, offset: b_offset, indices: b_indices, result: b_result }) => a_src_pointee_type.same_as(b_src_pointee_type) && a_dst_pointee_type.same_as(b_dst_pointee_type) && a_pointer.same_as(b_pointer) && a_offset.same_as(b_offset) && same_indices(a_indices, b_indices) && *a_result == *b_result,
            (Instruction::ITEOne { cond: a_cond, then_value: a_then_value, else_value: a_else_value, result: a_result }, Instruction::ITEOne { cond: b_cond, then_value: b_then_value, else_value: b_else_value, result: b_result }) => a_cond.same_as(b_cond) && a_then_value.same_as(b_then_value) && a_else_value.same_as(b_else_value) && *a_result == *b_result,
            (Instruction::ITEVec { bits: a_bits, number: a_number, length: a_length, cond: a_cond, then_value: a_then_value, else_value: a_else_value, result: a_result }, Instruction::ITEVec { bits: b_bits, number: b_number, length: b_length, cond: b_cond, then_value: b_then_value, else_value: b_else_value, result: b_result }) => *a_bits == *b_bits && *a_number == *b_number && *a_length == *b_length && a_cond.same_as(b_cond) && a_then_value.same_as(b_then_value) && a_else_value.same_as(b_else_value) && *a_result == *b_result,
            (Instruction::Phi { options: a_options, result: a_result }, Instruction::Phi { options: b_options, result: b_result }) => same_options(a_options, b_options) && *a_result == *b_result,
            (Instruction::GetValue { src_ty: a_src_ty, dst_ty: a_dst_ty, aggregate: a_aggregate, indices: a_indices, result: a_result }, Instruction::GetValue { src_ty: b_src_ty, dst_ty: b_dst_ty, aggregate: b_aggregate, indices: b_indices, result: b_result }) => a_src_ty.same_as(b_src_ty) && a_dst_ty.same_as(b_dst_ty) && a_aggregate.same_as(b_aggregate) && same_list(a_indices, b_indices) && *a_result == *b_result,
            (Instruction::SetValue { aggregate: a_aggregate, value: a_value, indices: a_indices, result: a_result }, Instruction::SetValue { aggregate: b_aggregate, value: b_value, indices: b_indices, result: b_result }) => a_aggregate.same_as(b_aggregate) && a_value.same_as(b_value) && same_list(a_indices, b_indices) && *a_result == *b_result,
            (Instruction::GetElement { bits: a_bits, number: a_number, length: a_length, vector: a_vector, slot: a_slot, result: a_result }, Instruction::GetElement { bits: b_bits, number: b_number, length: b_length, vector: b_vector, slot: b_slot, result: b_result }) => *a_bits == *b_bits && *a_number == *b_number && *a_length == *b_length && a_vector.same_as(b_vector) && a_slot.same_as(b_slot) && *a_result == *b_result,
            (Instruction::SetElement { bits: a_bits, number: a_number, length: a_length, vector: a_vector, value: a_value, slot: a_slot, result: a_result }, Instruction::SetElement { bits: b_bits, number: b_number, length: b_length, vector: b_vector, value: b_value, slot: b_slot, result: b_result }) => *a_bits == *b_bits && *a_number == *b_number && *a_length == *b_length && a_vector.same_as(b_vector) && a_value.same_as(b_value) && a_slot.same_as(b_slot) && *a_result == *b_result,
            (Instruction::ShuffleVec { bits: a_bits, number: a_number, length: a_length, lhs: a_lhs, rhs: a_rhs, mask: a_mask, result: a_result }, Instruction::ShuffleVec { bits: b_bits, number: b_number, length: b_length, lhs: b_lhs, rhs: b_rhs, mask: b_mask, result: b_result }) => *a_bits == *b_bits && *a_number == *b_number && *a_length == *b_length && a_lhs.same_as(b_lhs) && a_rhs.same_as(b_rhs) && same_list(a_mask, b_mask) && *a_result == *b_result,
            _ => false,
        }
    }
}

impl Terminator {
    /// Whether two terminators have equal models.
    pub fn same_as(&self, other: &Terminator) -> (r: bool)
        ensures
            r == (self.model() == other.model()),
    {
        match (self, other) {
            (Terminator::Return { val: v1 }, Terminator::Return { val: v2 }) => same_opt_value(v1, v2),
            (Terminator::Goto { target: t1 }, Terminator::Goto { target: t2 }) => t1.0 == t2.0,
            (
                Terminator::Branch { cond: c1, then_case: t1, else_case: e1 },
                Terminator::Branch { cond: c2, then_case: t2, else_case: e2 },
            ) => c1.same_as(c2) && t1.0 == t2.0 && e1.0 == e2.0,
            (
                Terminator::Switch { cond: c1, cases: k1, default: d1 },
                Terminator::Switch { cond: c2, cases: k2, default: d2 },
            ) => c1.same_as(c2) && same_cases(k1, k2) && *d1 == *d2,
            (Terminator::Unreachable, Terminator::Unreachable) => true,
            _ => false,
        }
    }
}

impl Block {
    /// Whether two blocks have equal models.
    pub fn same_as(&self, other: &Block) -> (r: bool)
        ensures
            r == (self.model() == other.model()),
    {
        let ghost ma = self.sequence@.map_values(|i: Instruction| i.model());
        let ghost mb = other.sequence@.map_values(|i: Instruction| i.model());
        if self.sequence.len() != other.sequence.len() {
            proof {
                assert(ma.len() != mb.len());
            }
            return false;
        }
        let mut i: usize = 0;
        while i < self.sequence.len()
            invariant
                self.sequence@.len() == other.sequence@.len(),
                i <= self.sequence@.len(),
                ma == self.sequence@.map_values(|i: Instruction| i.model()),
                mb == other.sequence@.map_values(|i: Instruction| i.model()),
                forall|j: int| 0 <= j < i ==> self.sequence@[j].model() == other.sequence@[j].model(),
            decreases self.sequence@.len() - i,
        {
            if !self.sequence[i].same_as(&other.sequence[i]) {
                assert(ma[i as int] != mb[i as int]);
                return false;
            }
            i = i + 1;
        }
        assert(ma =~= mb);
        self.terminator.same_as(&other.terminator)
    }
}

} // verus!
