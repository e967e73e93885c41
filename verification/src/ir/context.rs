use vstd::prelude::*;

use std::collections::{BTreeMap, BTreeSet};

use crate::error::{EngineError, EngineResult, Failure, Unsupported};
use crate::ir::adapter::constant::{Const, Constant as AConstant};
use crate::ir::adapter::instruction::{Inst, Instruction as AInstruction};
use crate::ir::adapter::typing::{Type as AType, TypeView};
use crate::ir::adapter::value::{value_type, Value as AValue};
use crate::ir::constant::{
    fill_agrees, fill_failure, filler_value, is_filled, Constant, Expression, Fraction, NumValue,
};
use crate::ir::expression::{expression_agrees, expression_kind, index_converts, index_is_const, operands_constant};
use crate::ir::model::{index_models, option_models, value_models, IndexModel};
use crate::ir::conversion::{
    bare_env, conv_elements, conv_fields, const_index_of, count_mismatch, expr_of, expression_model_kind,
    index_model_constant, kind_mismatch, operand_models_constant, type_check, type_mismatch,
    conv_alloca, conv_args, conv_call, conv_load, conv_store, binary_outcome, compare_outcome, total_bits,
    cast_outcome, freeze_outcome, ite_outcome, call_outcome, call_return, aggregate_walk, gep_walk, Walk, conv_unary, conv_binary,
    conv_compare, conv_cast, conv_freeze, conv_gep, conv_ite, conv_phi, conv_get_value, conv_set_value,
    conv_get_element, conv_set_element, conv_shuffle, phi_options, first_label_index, lemma_first_label_index,
    lemma_args_prefix, lemma_gep_walk_prefix, lemma_phi_prefix, lemma_aggregate_prefix, lemma_elements_prefix,
    lemma_fields_prefix, lemma_cases_prefix, switch_cases, first_case_index, lemma_first_case_index,
    conv_const, conv_int1, conv_int_any, conv_inst, conv_term, conv_value, digit_value, digits_value,
    fill_outcome, filled_model, first_exp_index, int_text_value, float_constant_value, int_constant_value, is_digits,
    is_special_float, fraction_of, lemma_first_exp_index, pow10, unsigned_float_parts, Env, Regs, Scope,
};
use crate::ir::function::opt_type_model;
use crate::ir::instruction::{GEPIndex, Instruction, Terminator};
use crate::ir::model::{const_models, ConstModel, InstModel, TermModel, ValueModel};
use crate::ir::operator::{BinaryOperator, CompareOperator, UnaryOperator};
use crate::ir::shared::Identifier;
use crate::ir::typing::{NumRepr, Type, TypeModel, TypeRegistry};
use crate::ir::value::{ArgumentSlot, BlockLabel, RegisterSlot, Value};
use crate::text::{concat, decimal_usize, str_eq};

verus! {

broadcast use vstd::std_specs::btree::group_btree_axioms, vstd::laws_cmp::group_laws_cmp;

/// The names of the global variables and functions a module defines or declares
#[derive(Debug)]
pub struct SymbolRegistry {
    globals: Vec<Identifier>,
    functions: Vec<Identifier>,
}

/// The texts of a list of identifiers.
pub open spec fn ident_names(v: Seq<Identifier>) -> Seq<Seq<char>> {
    v.map_values(|i: Identifier| i.0@)
}

/// Whether a name is among a list of identifiers.
fn has_name(v: &Vec<Identifier>, name: &Identifier) -> (r: bool)
    ensures
        r == ident_names(v@).contains(name.0@),
{
    let mut i: usize = 0;
    while i < v.len()
        invariant
            i <= v@.len(),
            forall|j: int| 0 <= j < i ==> v@[j].0@ != name.0@,
        decreases v@.len() - i,
    {
        if v[i].same_name(name) {
            assert(ident_names(v@)[i as int] == name.0@);
            return true;
        }
        i = i + 1;
    }
    proof {
        if ident_names(v@).contains(name.0@) {
            let j = choose|j: int| 0 <= j < ident_names(v@).len() && ident_names(v@)[j] == name.0@;
            assert(v@[j].0@ == name.0@);
        }
    }
    false
}

impl SymbolRegistry {
    /// The names of the global variables.
    pub closed spec fn global_names(&self) -> Seq<Seq<char>> {
        ident_names(self.globals@)
    }

    /// The names of the functions.
    pub closed spec fn function_names(&self) -> Seq<Seq<char>> {
        ident_names(self.functions@)
    }

    /// A registry of the given global variables and functions.
    pub fn new(globals: Vec<Identifier>, functions: Vec<Identifier>) -> (r: Self)
        ensures
            r.global_names() == ident_names(globals@),
            r.function_names() == ident_names(functions@),
    {
        SymbolRegistry { globals, functions }
    }

    /// Whether a global variable of this name exists.
    pub fn has_global(&self, name: &Identifier) -> (r: bool)
        ensures
            r == self.global_names().contains(name.0@),
    {
        has_name(&self.globals, name)
    }

    /// Whether a function of this name exists.
    pub fn has_function(&self, name: &Identifier) -> (r: bool)
        ensures
            r == self.function_names().contains(name.0@),
    {
        has_name(&self.functions, name)
    }

    /// Whether two registries hold the same names of global variables and the same
    /// names of functions.
    pub fn same_as(&self, other: &SymbolRegistry) -> (r: bool)
        ensures
            r == (self.global_names().to_set() == other.global_names().to_set() && self.function_names().to_set()
                == other.function_names().to_set()),
    {
        let g1 = names_within(&self.globals, &other.globals);
        let g2 = names_within(&other.globals, &self.globals);
        let f1 = names_within(&self.functions, &other.functions);
        let f2 = names_within(&other.functions, &self.functions);
        proof {
            if g1 && g2 {
                assert(self.global_names().to_set() =~= other.global_names().to_set());
            }
            if f1 && f2 {
                assert(self.function_names().to_set() =~= other.function_names().to_set());
            }
        }
        g1 && g2 && f1 && f2
    }
}

/// Whether every name of `a` is a name of `b`.
fn names_within(a: &Vec<Identifier>, b: &Vec<Identifier>) -> (r: bool)
    ensures
        r == ident_names(a@).to_set().subset_of(ident_names(b@).to_set()),
{
    let mut i: usize = 0;
    while i < a.len()
        invariant
            i <= a@.len(),
            forall|j: int| 0 <= j < i ==> ident_names(b@).contains(#[trigger] ident_names(a@)[j]),
        decreases a@.len() - i,
    {
        if !has_name(b, &a[i]) {
            proof {
                assert(ident_names(a@).to_set().contains(ident_names(a@)[i as int]));
            }
            return false;
        }
        i = i + 1;
    }
    proof {
        assert forall|n: Seq<char>| ident_names(a@).to_set().contains(n) implies ident_names(b@).to_set().contains(n) by {
            let j = choose|j: int| 0 <= j < ident_names(a@).len() && ident_names(a@)[j] == n;
        }
    }
    true
}

/// What reading a constant sees, given the registries of a module.
pub open spec fn scope_of(typing: &TypeRegistry, symbols: &SymbolRegistry) -> Scope {
    Scope { structs: typing.structs(), globals: symbols.global_names(), functions: symbols.function_names() }
}

/// The models of the types of a table of types.
pub open spec fn type_table(m: Map<usize, Type>) -> Map<usize, TypeModel> {
    Map::new(|k: usize| m.contains_key(k), |k: usize| m[k].model())
}

/// The models of the types of a table of optional types.
pub open spec fn opt_type_table(m: Map<usize, Option<Type>>) -> Map<usize, Option<TypeModel>> {
    Map::new(|k: usize| m.contains_key(k), |k: usize| opt_type_model(m[k]))
}

/// The outcome of reading a constant agrees with its model.
pub open spec fn const_outcome(r: EngineResult<Constant>, m: Result<ConstModel, Failure>) -> bool {
    match m {
        Ok(x) => r matches Ok(c) && c.model() == x,
        Err(f) => r matches Err(e) && e.failure() == f,
    }
}

/// The outcome of reading a value agrees with its model.
pub open spec fn value_outcome(r: EngineResult<Value>, m: Result<ValueModel, Failure>) -> bool {
    match m {
        Ok(x) => r matches Ok(v) && v.model() == x,
        Err(f) => r matches Err(e) && e.failure() == f,
    }
}

/// The outcome of reading an instruction agrees with its model.
pub open spec fn inst_outcome(r: EngineResult<Instruction>, m: Result<InstModel, Failure>) -> bool {
    match m {
        Ok(x) => r matches Ok(i) && i.model() == x,
        Err(f) => r matches Err(e) && e.failure() == f,
    }
}

/// The outcome of reading a terminator agrees with its model.
pub open spec fn term_outcome(r: EngineResult<Terminator>, m: Result<TermModel, Failure>) -> bool {
    match m {
        Ok(x) => r matches Ok(t) && t.model() == x,
        Err(f) => r matches Err(e) && e.failure() == f,
    }
}

/// A context manager for converting instructions
pub struct Context<'a> {
    pub typing: &'a TypeRegistry,
    pub symbols: &'a SymbolRegistry,
    pub blocks: BTreeSet<usize>,
    pub insts: BTreeMap<usize, Option<Type>>,
    pub args: BTreeMap<usize, Type>,
    pub ret: Option<Type>,
}

impl<'a> Context<'a> {
    /// What reading an instruction in this context sees.
    pub open spec fn env(&self) -> Env {
        Env {
            scope: scope_of(self.typing, self.symbols),
            blocks: self.blocks@,
            args: type_table(self.args@),
            ret: opt_type_model(self.ret),
        }
    }

    /// The types the registers have been seen with.
    pub open spec fn regs(&self) -> Regs {
        opt_type_table(self.insts@)
    }

    /// Everything but the register table is as in `before`.
    pub open spec fn keeps(&self, before: &Self) -> bool {
        &&& self.typing == before.typing
        &&& self.symbols == before.symbols
        &&& self.blocks@ == before.blocks@
        &&& self.args@ == before.args@
        &&& self.ret == before.ret
    }
}

/// The constant that fills a slot is the one [`filled_model`] describes.
pub proof fn lemma_filled_model(c: Constant, t: TypeModel, undef: bool)
    requires
        is_filled(c, t, undef),
    ensures
        c.model() == filled_model(t, undef),
    decreases t,
{
    match t {
        TypeModel::Bitvec { bits, number, length } => match length {
            None => {
                assert(c == Constant::NumOne { bits, value: filler_value(number, undef) });
                assert(c.model() == ConstModel::NumOne { bits, value: filler_value(number, undef) });
                assert(filled_model(t, undef) == ConstModel::NumOne { bits, value: filler_value(number, undef) });
            },
            Some(len) => {
                assert(c is NumVec);
                if let Constant::NumVec { elements, .. } = c {
                    assert forall|i: int| 0 <= i < len implies #[trigger] const_models(elements@)[i] == (
                    ConstModel::NumOne { bits, value: filler_value(number, undef) }) by {
                        assert(elements@[i] == Constant::NumOne { bits, value: filler_value(number, undef) });
                    }
                    assert(const_models(elements@) =~= Seq::new(
                        len as nat,
                        |i: int| ConstModel::NumOne { bits, value: filler_value(number, undef) },
                    ));
                    assert(c.model() == filled_model(t, undef));
                }
            },
        },
        TypeModel::Array { element, length } => {
            if let Constant::Array { elements, .. } = c {
                assert forall|i: int| 0 <= i < length implies (#[trigger] elements@[i]).model() == filled_model(
                    *element,
                    undef,
                ) by {
                    lemma_filled_model(elements@[i], *element, undef);
                }
                assert(const_models(elements@) =~= Seq::new(length as nat, |i: int| filled_model(*element, undef)));
                assert(c.model() == filled_model(t, undef));
            }
        },
        TypeModel::Struct { name, fields } => {
            if let Constant::Struct { fields: cs, .. } = c {
                assert forall|i: int| 0 <= i < fields.len() implies (#[trigger] cs@[i]).model() == filled_model(
                    fields[i],
                    undef,
                ) by {
                    lemma_filled_model(cs@[i], fields[i], undef);
                }
                let fm = filled_model(t, undef);
                if let ConstModel::Struct { fields: fs, .. } = fm {
                    assert(const_models(cs@) =~= fs);
                }
                assert(c.model() == filled_model(t, undef));
            }
        },
        TypeModel::Function { .. } => {},
        TypeModel::Pointer => {
            assert(c.model() == filled_model(t, undef));
        },
    }
}

/// A filled constant agrees with [`fill_outcome`].
proof fn lemma_fill_outcome(r: EngineResult<Constant>, t: TypeModel, undef: bool)
    requires
        fill_agrees(r, t, undef),
    ensures
        const_outcome(r, fill_outcome(t, undef)),
{
    if let Ok(c) = r {
        if fill_failure(t, undef) is None {
            lemma_filled_model(c, t, undef);
        }
    }
}

/// Whether a character is a decimal digit.
fn is_digit(c: char) -> (r: bool)
    ensures
        r == ('0' <= c <= '9'),
{
    '0' <= c && c <= '9'
}

/// The value of a decimal digit.
fn digit_of(c: char) -> (r: u8)
    requires
        '0' <= c <= '9',
    ensures
        r as int == digit_value(c),
{
    (c as u32 - '0' as u32) as u8
}

/// The number a run of digits `s[from..to]` denotes, where it fits 128 unsigned bits.
fn digits_u128(s: &str, from: usize, to: usize) -> (r: Option<u128>)
    requires
        from <= to <= s@.len(),
    ensures
        is_digits(s@.subrange(from as int, to as int)) ==> match r {
            Some(v) => v == digits_value(s@.subrange(from as int, to as int)),
            None => digits_value(s@.subrange(from as int, to as int)) > u128::MAX,
        },
        !is_digits(s@.subrange(from as int, to as int)) ==> r is None,
{
    if from == to {
        return None;
    }
    let ghost whole = s@.subrange(from as int, to as int);
    let mut acc: u128 = 0;
    let mut overflow = false;
    let mut i: usize = from;
    while i < to
        invariant
            from <= i <= to <= s@.len(),
            whole == s@.subrange(from as int, to as int),
            forall|j: int| from <= j < i ==> '0' <= #[trigger] s@[j] <= '9',
            !overflow ==> acc == digits_value(s@.subrange(from as int, i as int)),
            overflow ==> digits_value(s@.subrange(from as int, i as int)) > u128::MAX,
        decreases to - i,
    {
        let c = s.get_char(i);
        if !is_digit(c) {
            proof {
                assert(whole[i - from] == c);
            }
            return None;
        }
        let d = digit_of(c);
        let ghost before = s@.subrange(from as int, i as int);
        let ghost after = s@.subrange(from as int, i + 1);
        assert(after.drop_last() =~= before);
        assert(after.last() == c);
        assert(digits_value(after) == digits_value(before) * 10 + digit_value(c));
        if !overflow {
            match acc.checked_mul(10) {
                Some(m) => match m.checked_add(d as u128) {
                    Some(n) => {
                        acc = n;
                    },
                    None => {
                        overflow = true;
                    },
                },
                None => {
                    overflow = true;
                },
            }
        }
        i = i + 1;
    }
    proof {
        assert forall|j: int| 0 <= j < whole.len() implies '0' <= #[trigger] whole[j] <= '9' by {
            assert(whole[j] == s@[from + j]);
        }
    }
    if overflow {
        None
    } else {
        Some(acc)
    }
}

/// Reads an integer constant (see [`int_constant_value`]).
pub fn parse_int_text(s: &str) -> (r: Option<i128>)
    ensures
        r == int_constant_value(s@),
{
    let len = s.unicode_len();
    if len > 0 && (s.get_char(0) == '-' || s.get_char(0) == '+') {
        let negative = s.get_char(0) == '-';
        proof {
            assert(s@.subrange(1, len as int) =~= s@.skip(1));
        }
        match digits_u128(s, 1, len) {
            None => None,
            Some(m) => {
                if negative {
                    if m <= 170141183460469231731687303715884105728u128 {
                        if m == 170141183460469231731687303715884105728u128 {
                            Some(i128::MIN)
                        } else {
                            Some(-(m as i128))
                        }
                    } else {
                        None
                    }
                } else if m <= i128::MAX as u128 {
                    Some(m as i128)
                } else {
                    None
                }
            },
        }
    } else {
        proof {
            assert(s@.subrange(0, len as int) =~= s@);
        }
        match digits_u128(s, 0, len) {
            None => None,
            Some(m) => if m <= i128::MAX as u128 {
                Some(m as i128)
            } else {
                None
            },
        }
    }
}

} // verus!

verus! {

/// Whether `s[from..to]` is a non-empty run of digits.
fn all_digits(s: &str, from: usize, to: usize) -> (r: bool)
    requires
        from <= to <= s@.len(),
    ensures
        r == is_digits(s@.subrange(from as int, to as int)),
{
    if from == to {
        return false;
    }
    let ghost sub = s@.subrange(from as int, to as int);
    let mut i: usize = from;
    while i < to
        invariant
            from <= i <= to <= s@.len(),
            sub == s@.subrange(from as int, to as int),
            forall|j: int| 0 <= j < i - from ==> '0' <= #[trigger] sub[j] <= '9',
        decreases to - i,
    {
        let c = s.get_char(i);
        assert(sub[i - from] == c);
        if !is_digit(c) {
            return false;
        }
        i = i + 1;
    }
    true
}

/// Ten to the power `n`, for `n` up to 38.
fn pow10_u128(n: u32) -> (r: u128)
    requires
        n <= 38,
    ensures
        r == pow10(n as nat),
{
    let mut p: u128 = 1;
    let mut i: u32 = 0;
    while i < n
        invariant
            i <= n <= 38,
            p == pow10(i as nat),
        decreases n - i,
    {
        proof {
            lemma_pow10_mono(i as nat + 1, 38);
            lemma_pow10_38();
        }
        p = p * 10;
        i = i + 1;
    }
    p
}

/// Powers of ten are positive.
proof fn lemma_pow10_pos(a: nat)
    ensures
        pow10(a) >= 1,
    decreases a,
{
    if a > 0 {
        lemma_pow10_pos((a - 1) as nat);
    }
}

/// Ten to a larger power is larger.
proof fn lemma_pow10_mono(a: nat, b: nat)
    requires
        a <= b,
    ensures
        pow10(a) <= pow10(b),
        pow10(a) >= 1,
    decreases b,
{
    lemma_pow10_pos(a);
    if a < b {
        lemma_pow10_mono(a, (b - 1) as nat);
    }
}

/// The largest power of ten below 2^128.
proof fn lemma_pow10_38()
    ensures
        pow10(38) == 100000000000000000000000000000000000000,
        pow10(39) == 1000000000000000000000000000000000000000,
{
    reveal_with_fuel(pow10, 40);
}

/// Ten to a power above 38 exceeds every 128-bit number.
proof fn lemma_pow10_big(n: nat)
    requires
        n > 38,
    ensures
        pow10(n) > u128::MAX,
{
    lemma_pow10_mono(39, n);
    lemma_pow10_38();
}

/// Index of the first exponent mark in `s[from..to]`, counted from `from`.
fn find_exp_mark(s: &str, from: usize, to: usize) -> (r: Option<usize>)
    requires
        from <= to <= s@.len(),
    ensures
        match first_exp_index(s@.subrange(from as int, to as int)) {
            Some(i) => r == Some(i as usize),
            None => r is None,
        },
{
    let ghost sub = s@.subrange(from as int, to as int);
    proof {
        lemma_first_exp_index(sub);
    }
    let mut i: usize = from;
    while i < to
        invariant
            from <= i <= to <= s@.len(),
            sub == s@.subrange(from as int, to as int),
            forall|j: int| 0 <= j < i - from ==> sub[j] != 'e' && sub[j] != 'E',
        decreases to - i,
    {
        let c = s.get_char(i);
        assert(sub[i - from] == c);
        if c == 'e' || c == 'E' {
            proof {
                lemma_first_exp_index(sub);
                match first_exp_index(sub) {
                    Some(k) => {
                        assert(!(k < i - from));
                        assert(!(k > i - from));
                    },
                    None => {},
                }
            }
            return Some(i - from);
        }
        i = i + 1;
    }
    None
}

/// Index of the first `.` in `s[from..to]`, counted from `from`.
fn find_point(s: &str, from: usize, to: usize) -> (r: Option<usize>)
    requires
        from <= to <= s@.len(),
    ensures
        match crate::text::first_index_of(s@.subrange(from as int, to as int), '.') {
            Some(i) => r == Some(i as usize),
            None => r is None,
        },
{
    let ghost sub = s@.subrange(from as int, to as int);
    proof {
        crate::text::lemma_first_index_of(sub, '.');
    }
    let mut i: usize = from;
    while i < to
        invariant
            from <= i <= to <= s@.len(),
            sub == s@.subrange(from as int, to as int),
            forall|j: int| 0 <= j < i - from ==> sub[j] != '.',
        decreases to - i,
    {
        let c = s.get_char(i);
        assert(sub[i - from] == c);
        if c == '.' {
            proof {
                crate::text::lemma_first_index_of(sub, '.');
                match crate::text::first_index_of(sub, '.') {
                    Some(k) => {
                        assert(!(k < i - from));
                        assert(!(k > i - from));
                    },
                    None => {},
                }
            }
            return Some(i - from);
        }
        i = i + 1;
    }
    None
}

} // verus!

verus! {

/// Digits followed by digits (or nothing) are digits.
proof fn lemma_digits_concat(a: Seq<char>, b: Seq<char>)
    requires
        is_digits(a),
        b.len() == 0 || is_digits(b),
    ensures
        is_digits(a + b),
{
    assert forall|i: int| 0 <= i < (a + b).len() implies '0' <= #[trigger] (a + b)[i] <= '9' by {
        if i < a.len() {
            assert((a + b)[i] == a[i]);
        } else {
            assert((a + b)[i] == b[i - a.len()]);
        }
    }
}

/// A product with a positive factor is at least the other factor.
proof fn lemma_mul_ge(m: nat, p: nat)
    requires
        m >= 1,
    ensures
        m * p >= p,
{
    assert(m * p >= p) by (nonlinear_arith)
        requires
            m >= 1,
    ;
}

/// The exponent of a float numeral `s[from..to]`: a sign and the magnitude (`None`
/// where it exceeds 128 bits), or `None` outside where it is not an integer numeral.
fn exponent_of(s: &str, from: usize, to: usize) -> (r: Option<(bool, Option<u128>)>)
    requires
        from <= to <= s@.len(),
    ensures
        match int_text_value(s@.subrange(from as int, to as int)) {
            None => r is None,
            Some(v) => r matches Some((neg, mag)) && (neg ==> v <= 0) && (!neg ==> v >= 0) && match mag {
                Some(x) => x == (if v < 0 { -v } else { v }),
                None => (if v < 0 { -v } else { v }) > u128::MAX,
            },
        },
{
    let ghost x = s@.subrange(from as int, to as int);
    if from < to && (s.get_char(from) == '-' || s.get_char(from) == '+') {
        let neg = s.get_char(from) == '-';
        assert(x.skip(1) =~= s@.subrange(from + 1, to as int));
        assert(x[0] == s@[from as int]);
        if !all_digits(s, from + 1, to) {
            return None;
        }
        let mag = digits_u128(s, from + 1, to);
        Some((neg, mag))
    } else {
        if !all_digits(s, from, to) {
            proof {
                if x.len() > 0 {
                    assert(x[0] == s@[from as int]);
                }
            }
            return None;
        }
        let mag = digits_u128(s, from, to);
        Some((false, mag))
    }
}

/// The parts of the unsigned numeral `s[start..]` (see [`unsigned_float_parts`]):
/// the digits' value (`None` where it exceeds 128 bits), the number of digits
/// after the point, and the exponent's sign and magnitude.
#[verifier::spinoff_prover]
fn unsigned_parts(s: &str, start: usize, len: usize) -> (r: Option<(Option<u128>, usize, bool, Option<u128>)>)
    requires
        start <= len == s@.len(),
    ensures
        match unsigned_float_parts(s@.subrange(start as int, len as int)) {
            None => r is None,
            Some((m, k, e)) => r matches Some((mm, kk, ne, me)) && kk == k && match mm {
                Some(x) => x == m,
                None => m > u128::MAX,
            } && (ne ==> e <= 0) && (!ne ==> e >= 0) && match me {
                Some(x) => x == (if e < 0 { -e } else { e }),
                None => (if e < 0 { -e } else { e }) > u128::MAX,
            },
        },
{
    let ghost body = s@.subrange(start as int, len as int);
    let mark = find_exp_mark(s, start, len);
    proof {
        lemma_first_exp_index(body);
    }
    let body_end: usize = match mark {
        Some(i) => start + i,
        None => len,
    };
    let exponent: Option<(bool, Option<u128>)> = match mark {
        Some(i) => {
            assert(body.skip(i + 1) =~= s@.subrange(start + i + 1, len as int));
            exponent_of(s, start + i + 1, len)
        },
        None => Some((false, Some(0u128))),
    };
    let ghost mantissa = s@.subrange(start as int, body_end as int);
    proof {
        match first_exp_index(body) {
            Some(i) => {
                assert(body.take(i) =~= mantissa);
            },
            None => {
                assert(body =~= mantissa);
            },
        }
    }
    let point = find_point(s, start, body_end);
    proof {
        crate::text::lemma_first_index_of(mantissa, '.');
    }
    let (int_end, frac_start): (usize, usize) = match point {
        Some(p) => (start + p, start + p + 1),
        None => (body_end, body_end),
    };
    let ghost int_part = s@.subrange(start as int, int_end as int);
    let ghost frac_part = s@.subrange(frac_start as int, body_end as int);
    proof {
        match crate::text::first_index_of(mantissa, '.') {
            Some(p) => {
                assert(mantissa.take(p) =~= int_part);
                assert(mantissa.skip(p + 1) =~= frac_part);
            },
            None => {
                assert(mantissa =~= int_part);
                assert(frac_part =~= Seq::<char>::empty());
            },
        }
    }
    let int_ok = all_digits(s, start, int_end);
    let frac_ok = frac_start == body_end || all_digits(s, frac_start, body_end);
    let (neg_e, mag_e) = match exponent {
        None => {
            return None;
        },
        Some(e) => e,
    };
    if !int_ok || !frac_ok {
        return None;
    }
    proof {
        lemma_digits_concat(int_part, frac_part);
    }
    let int_s = s.substring_char(start, int_end);
    let frac_s = s.substring_char(frac_start, body_end);
    let joined = concat(int_s, frac_s);
    let joined_len = joined.unicode_len();
    assert(joined@.subrange(0, joined_len as int) =~= joined@);
    assert(joined@ == int_part + frac_part);
    let m = digits_u128(joined.as_str(), 0, joined_len);
    let k: usize = body_end - frac_start;
    Some((m, k, neg_e, mag_e))
}

/// Reads a float constant (see [`float_constant_value`]).
pub fn parse_float_text(s: &str) -> (r: Option<Option<Fraction>>)
    ensures
        r == float_constant_value(s@),
{
    let len = s.unicode_len();
    let negative = len > 0 && s.get_char(0) == '-';
    let start: usize = if len > 0 && (s.get_char(0) == '-' || s.get_char(0) == '+') {
        1
    } else {
        0
    };
    let ghost body = if s@.len() > 0 && (s@[0] == '-' || s@[0] == '+') {
        s@.skip(1)
    } else {
        s@
    };
    assert(body =~= s@.subrange(start as int, len as int));
    let b = s.substring_char(start, len);
    if str_eq(b, "inf") || str_eq(b, "Inf") || str_eq(b, "nan") || str_eq(b, "NaN") {
        return Some(None);
    }
    match unsigned_parts(s, start, len) {
        None => None,
        Some((m, k, neg_e, mag_e)) => {
            let ghost parts = unsigned_float_parts(body).unwrap();
            match scale_fraction(negative, m, k, neg_e, mag_e, Ghost(parts.0), Ghost(parts.2)) {
                Some(x) => Some(Some(x)),
                None => None,
            }
        },
    }
}

/// The fraction `m * 10^(e - k)`, negated where `negative` (see [`fraction_of`]);
/// `m` and the magnitude of `e` are `None` where they exceed 128 bits.
fn scale_fraction(
    negative: bool,
    m: Option<u128>,
    k: usize,
    neg_e: bool,
    mag_e: Option<u128>,
    Ghost(m_spec): Ghost<nat>,
    Ghost(e_spec): Ghost<int>,
) -> (r: Option<Fraction>)
    requires
        match m {
            Some(x) => x == m_spec,
            None => m_spec > u128::MAX,
        },
        neg_e ==> e_spec <= 0,
        !neg_e ==> e_spec >= 0,
        match mag_e {
            Some(x) => x == (if e_spec < 0 { -e_spec } else { e_spec }),
            None => (if e_spec < 0 { -e_spec } else { e_spec }) > u128::MAX,
        },
    ensures
        r == fraction_of(negative, m_spec, k as nat, e_spec),
{
    let ghost shift = e_spec - k;
    if !neg_e || mag_e == Some(0u128) {
        match mag_e {
            None => {
                if m == Some(0u128) {
                    assert(m_spec * pow10(shift as nat) == 0) by (nonlinear_arith)
                        requires
                            m_spec == 0,
                    ;
                    return Some(Fraction { numer: 0, denom: 1 });
                }
                proof {
                    lemma_pow10_big(shift as nat);
                    lemma_mul_ge(m_spec, pow10(shift as nat));
                }
                None
            },
            Some(me) => {
                if me >= k as u128 {
                    let sh = me - k as u128;
                    assert(shift == sh);
                    if m == Some(0u128) {
                        assert(m_spec * pow10(shift as nat) == 0) by (nonlinear_arith)
                            requires
                                m_spec == 0,
                        ;
                        return Some(Fraction { numer: 0, denom: 1 });
                    }
                    if sh > 38 {
                        proof {
                            lemma_pow10_big(shift as nat);
                            lemma_mul_ge(m_spec, pow10(shift as nat));
                        }
                        return None;
                    }
                    let p = pow10_u128(sh as u32);
                    match m {
                        None => {
                            proof {
                                lemma_pow10_pos(shift as nat);
                                lemma_mul_ge(pow10(shift as nat), m_spec);
                                assert(m_spec * pow10(shift as nat) == pow10(shift as nat) * m_spec)
                                    by (nonlinear_arith);
                            }
                            None
                        },
                        Some(mv) => match mv.checked_mul(p) {
                            None => None,
                            Some(n) => {
                                if n <= i128::MAX as u128 {
                                    let numer: i128 = if negative {
                                        -(n as i128)
                                    } else {
                                        n as i128
                                    };
                                    Some(Fraction { numer, denom: 1 })
                                } else {
                                    None
                                }
                            },
                        },
                    }
                } else {
                    let dn = k as u128 - me;
                    assert(-shift == dn);
                    if dn > 38 {
                        proof {
                            lemma_pow10_big((-shift) as nat);
                        }
                        return None;
                    }
                    let d = pow10_u128(dn as u32);
                    match m {
                        None => None,
                        Some(mv) => {
                            if mv <= i128::MAX as u128 {
                                let numer: i128 = if negative {
                                    -(mv as i128)
                                } else {
                                    mv as i128
                                };
                                Some(Fraction { numer, denom: d })
                            } else {
                                None
                            }
                        },
                    }
                }
            },
        }
    } else {
        match mag_e {
            None => {
                proof {
                    lemma_pow10_big((-shift) as nat);
                }
                None
            },
            Some(me) => {
                if me > 38 || k > 38 || me + k as u128 > 38 {
                    proof {
                        lemma_pow10_big((-shift) as nat);
                    }
                    return None;
                }
                let dn = me + k as u128;
                assert(-shift == dn);
                let d = pow10_u128(dn as u32);
                match m {
                    None => None,
                    Some(mv) => {
                        if mv <= i128::MAX as u128 {
                            let numer: i128 = if negative {
                                -(mv as i128)
                            } else {
                                mv as i128
                            };
                            Some(Fraction { numer, denom: d })
                        } else {
                            None
                        }
                    },
                }
            },
        }
    }
}

} // verus!

verus! {

/// The scope that reading types sees (struct definitions only).
pub open spec fn typing_scope(typing: &TypeRegistry) -> Scope {
    Scope { structs: typing.structs(), globals: Seq::empty(), functions: Seq::empty() }
}

/// The failure of a type mismatch, as an error.
fn mismatch_error(expected: &Type, actual: &Type) -> (r: EngineError)
    ensures
        r.failure() == type_mismatch(expected.model(), actual.model()),
{
    let mut m = concat("type mismatch: expect ", expected.describe().as_str());
    m.append(", found ");
    m.append(actual.describe().as_str());
    EngineError::InvalidAssumption(m)
}

/// The failure of a constant of a kind the expected type does not admit, as an error.
fn kind_error(kind: &str, expected: &Type) -> (r: EngineError)
    ensures
        r.failure() == kind_mismatch(kind@, expected.model()),
{
    let mut m = concat("type mismatch: expect ", kind);
    m.append(", found ");
    m.append(expected.describe().as_str());
    EngineError::InvalidAssumption(m)
}

/// The failure of an aggregate constant with the wrong number of elements, as an error.
fn count_error(expected: usize, found: usize) -> (r: EngineError)
    ensures
        r.failure() == count_mismatch(expected as nat, found as nat),
{
    let mut m = concat("type mismatch: expect ", decimal_usize(expected).as_str());
    m.append(" elements, found ");
    m.append(decimal_usize(found).as_str());
    EngineError::InvalidAssumption(m)
}

/// Checks that a type read from a module is the expected one (see [`type_check`]).
fn check_type(ty: &AType, expected: &Type, typing: &TypeRegistry) -> (r: Option<EngineError>)
    requires
        typing.wf(),
    ensures
        match type_check(typing_scope(typing), ty@, expected.model()) {
            Some(f) => r matches Some(e) && e.failure() == f,
            None => r is None,
        },
{
    match typing.convert(ty) {
        Err(e) => Some(e),
        Ok(actual) => if expected.same_as(&actual) {
            None
        } else {
            Some(mismatch_error(expected, &actual))
        },
    }
}

/// A context with no function body around it.
fn bare_context<'a>(typing: &'a TypeRegistry, symbols: &'a SymbolRegistry) -> (c: Context<'a>)
    ensures
        c.env() == bare_env(scope_of(typing, symbols)),
        c.regs() == Map::<usize, Option<TypeModel>>::empty(),
        c.typing == typing,
{
    let c = Context { typing, symbols, blocks: BTreeSet::new(), insts: BTreeMap::new(), args: BTreeMap::new(), ret: None };
    proof {
        assert(type_table(c.args@) =~= Map::empty());
        assert(c.env() =~= bare_env(scope_of(typing, symbols)));
        assert(c.regs() =~= Map::empty());
    }
    c
}

/// The constant expression an instruction read at the last index stands for (see [`expr_of`]).
fn expression_from(inst: Instruction) -> (r: EngineResult<Expression>)
    requires
        defines_at(Ok(inst), usize::MAX),
    ensures
        match expr_of(inst.model()) {
            Ok(e) => r matches Ok(x) && x.model() == e,
            Err(f) => r matches Err(err) && err.failure() == f,
        },
{
    let ghost given = inst;
    let r = Expression::from_instruction(inst);
    proof {
        lemma_expression_model(given, r);
    }
    r
}

/// The outcome of reading a list of constants agrees with its model.
pub open spec fn consts_outcome(r: EngineResult<Vec<Constant>>, m: Result<Seq<ConstModel>, Failure>) -> bool {
    match m {
        Ok(x) => r matches Ok(v) && const_models(v@) == x,
        Err(f) => r matches Err(e) && e.failure() == f,
    }
}

/// The instruction read at `index`, if it defines a register, defines that one.
pub open spec fn defines_at(r: EngineResult<Instruction>, index: usize) -> bool {
    r matches Ok(i) ==> (crate::ir::instruction::result_of(&i) is Some ==> crate::ir::instruction::result_of(&i)
        == Some(RegisterSlot(index)))
}

impl Constant {
    /// Reads a constant of the expected type (see [`conv_const`]).
    pub fn convert(constant: &AConstant, expected_type: &Type, typing: &TypeRegistry, symbols: &SymbolRegistry) -> (r:
        EngineResult<Constant>)
        requires
            typing.wf(),
        ensures
            const_outcome(r, conv_const(scope_of(typing, symbols), *constant, expected_type.model())),
        decreases constant, 1nat,
    {
        match &constant.repr {
            Const::Int { .. } | Const::Float { .. } | Const::Null | Const::Undef | Const::Default => Self::convert_scalar(
                constant,
                expected_type,
                typing,
                symbols,
            ),
            Const::Vector { .. } | Const::Array { .. } | Const::Struct { .. } => Self::convert_aggregate(
                constant,
                expected_type,
                typing,
                symbols,
            ),
            Const::Variable { .. } | Const::Function { .. } => Self::convert_symbol(constant, expected_type, typing, symbols),
            Const::Expr { .. } => Self::convert_expr(constant, expected_type, typing, symbols),
            Const::TokenNone => {
                Err(EngineError::InvalidAssumption(concat("unexpected constant none for type: ", expected_type.describe().as_str())))
            },
            Const::Extension => Err(EngineError::NotSupportedYet(Unsupported::ArchSpecificExtension)),
            Const::Alias { .. } => Err(EngineError::NotSupportedYet(Unsupported::GlobalAlias)),
            Const::Interface { .. } => Err(EngineError::NotSupportedYet(Unsupported::InterfaceResolver)),
            Const::Marker { .. } => Err(EngineError::NotSupportedYet(Unsupported::GlobalMarker)),
            Const::PC => Err(EngineError::NotSupportedYet(Unsupported::IndirectJump)),
        }
    }

    /// Reads a number, a null pointer, or a filled constant.
    fn convert_scalar(constant: &AConstant, expected_type: &Type, typing: &TypeRegistry, symbols: &SymbolRegistry) -> (r:
        EngineResult<Constant>)
        requires
            typing.wf(),
            constant.repr is Int || constant.repr is Float || constant.repr is Null || constant.repr is Undef || constant.repr is Default,
        ensures
            const_outcome(r, conv_const(scope_of(typing, symbols), *constant, expected_type.model())),
        decreases constant, 0nat,
    {
        let ghost sc = scope_of(typing, symbols);
        let ty = &constant.ty;
        assert(type_check(sc, ty@, expected_type.model()) == type_check(typing_scope(typing), ty@, expected_type.model()));
        match &constant.repr {
            Const::Int { value } => {
                if let Some(e) = check_type(ty, expected_type, typing) {
                    return Err(e);
                }
                match expected_type {
                    Type::Bitvec { bits, number: NumRepr::Int, length: None } => match parse_int_text(value.as_str()) {
                        Some(v) => Ok(Constant::NumOne { bits: *bits, value: NumValue::Int(v) }),
                        None => Err(EngineError::InvariantViolation(concat("const int parse error: ", value.as_str()))),
                    },
                    _ => Err(kind_error("int", expected_type)),
                }
            },
            Const::Float { value } => {
                if let Some(e) = check_type(ty, expected_type, typing) {
                    return Err(e);
                }
                match expected_type {
                    Type::Bitvec { bits, number: NumRepr::Float, length: None } => match parse_float_text(value.as_str()) {
                        Some(v) => Ok(Constant::NumOne { bits: *bits, value: NumValue::Float(v) }),
                        None => Err(EngineError::InvariantViolation(concat("const float parse error: ", value.as_str()))),
                    },
                    _ => Err(kind_error("float", expected_type)),
                }
            },
            Const::Null => {
                if let Some(e) = check_type(ty, expected_type, typing) {
                    return Err(e);
                }
                match expected_type {
                    Type::Pointer => Ok(Constant::Null),
                    _ => Err(kind_error("pointer", expected_type)),
                }
            },
            Const::Undef => {
                if let Some(e) = check_type(ty, expected_type, typing) {
                    return Err(e);
                }
                let r = Constant::undef_from_type(expected_type);
                proof {
                    lemma_fill_outcome(r, expected_type.model(), true);
                }
                r
            },
            Const::Default => {
                if let Some(e) = check_type(ty, expected_type, typing) {
                    return Err(e);
                }
                let r = Constant::default_from_type(expected_type);
                proof {
                    lemma_fill_outcome(r, expected_type.model(), false);
                }
                r
            },
            _ => Err(violation("")),
        }
    }

    /// Reads a vector, an array or a struct constant.
    fn convert_aggregate(constant: &AConstant, expected_type: &Type, typing: &TypeRegistry, symbols: &SymbolRegistry) -> (r:
        EngineResult<Constant>)
        requires
            typing.wf(),
            constant.repr is Vector || constant.repr is Array || constant.repr is Struct,
        ensures
            const_outcome(r, conv_const(scope_of(typing, symbols), *constant, expected_type.model())),
        decreases constant, 0nat,
    {
        let ghost sc = scope_of(typing, symbols);
        let ty = &constant.ty;
        assert(type_check(sc, ty@, expected_type.model()) == type_check(typing_scope(typing), ty@, expected_type.model()));
        match &constant.repr {
            Const::Vector { elements } => {
                if let Some(e) = check_type(ty, expected_type, typing) {
                    return Err(e);
                }
                match expected_type {
                    Type::Bitvec { bits, number, length: Some(len) } => {
                        if elements.len() != *len {
                            return Err(count_error(*len, elements.len()));
                        }
                        let element_ty = Type::Bitvec { bits: *bits, number: *number, length: None };
                        proof {
                            assert(decreases_to!(constant => constant.repr));
                            assert(decreases_to!(constant.repr => constant.repr->Vector_elements));
                        }
                        match Self::convert_all(elements, &element_ty, typing, symbols) {
                            Err(e) => Err(e),
                            Ok(es) => Ok(Constant::NumVec { bits: *bits, number: *number, elements: es }),
                        }
                    },
                    _ => Err(kind_error("vector", expected_type)),
                }
            },
            Const::Array { elements } => {
                if let Some(e) = check_type(ty, expected_type, typing) {
                    return Err(e);
                }
                match expected_type {
                    Type::Array { element, length } => {
                        if elements.len() != *length {
                            return Err(count_error(*length, elements.len()));
                        }
                        proof {
                            assert(decreases_to!(constant => constant.repr));
                            assert(decreases_to!(constant.repr => constant.repr->Array_elements));
                        }
                        match Self::convert_all(elements, element, typing, symbols) {
                            Err(e) => Err(e),
                            Ok(es) => Ok(Constant::Array { sub: element.duplicate(), elements: es }),
                        }
                    },
                    _ => Err(kind_error("array", expected_type)),
                }
            },
            Const::Struct { elements } => {
                if let Some(e) = check_type(ty, expected_type, typing) {
                    return Err(e);
                }
                match expected_type {
                    Type::Struct { name, fields } => {
                        assert(crate::ir::typing::type_models(fields@).len() == fields@.len());
                        if elements.len() != fields.len() {
                            return Err(count_error(fields.len(), elements.len()));
                        }
                        proof {
                            assert(decreases_to!(constant => constant.repr));
                            assert(decreases_to!(constant.repr => constant.repr->Struct_elements));
                        }
                        match Self::convert_fields(elements, fields, typing, symbols) {
                            Err(e) => Err(e),
                            Ok(es) => {
                                let n = match name {
                                    Some(x) => Some(x.duplicate()),
                                    None => None,
                                };
                                Ok(Constant::Struct { name: n, fields: es })
                            },
                        }
                    },
                    _ => Err(kind_error("array", expected_type)),
                }
            },
            _ => Err(violation("")),
        }
    }

    /// Reads a reference to a global variable or a function.
    fn convert_symbol(constant: &AConstant, expected_type: &Type, typing: &TypeRegistry, symbols: &SymbolRegistry) -> (r:
        EngineResult<Constant>)
        requires
            typing.wf(),
            constant.repr is Variable || constant.repr is Function,
        ensures
            const_outcome(r, conv_const(scope_of(typing, symbols), *constant, expected_type.model())),
        decreases constant, 0nat,
    {
        let ghost sc = scope_of(typing, symbols);
        let ty = &constant.ty;
        assert(type_check(sc, ty@, expected_type.model()) == type_check(typing_scope(typing), ty@, expected_type.model()));
        match &constant.repr {
            Const::Variable { name } => {
                if let Some(e) = check_type(ty, expected_type, typing) {
                    return Err(e);
                }
                if !matches!(expected_type, Type::Pointer) {
                    return Err(kind_error("pointer", expected_type));
                }
                match name {
                    None => Err(EngineError::NotSupportedYet(Unsupported::AnonymousGlobalVariable)),
                    Some(n) => {
                        let ident = Identifier::from_str(n.as_str());
                        if !symbols.has_global(&ident) {
                            return Err(EngineError::InvalidAssumption(
                                concat("unexpected reference to an unknown global variable: ", n.as_str()),
                            ));
                        }
                        Ok(Constant::Variable { name: ident })
                    },
                }
            },
            Const::Function { name } => {
                if let Some(e) = check_type(ty, expected_type, typing) {
                    return Err(e);
                }
                if !matches!(expected_type, Type::Pointer) {
                    return Err(kind_error("pointer", expected_type));
                }
                match name {
                    None => Err(EngineError::NotSupportedYet(Unsupported::AnonymousFunction)),
                    Some(n) => {
                        let ident = Identifier::from_str(n.as_str());
                        if !symbols.has_function(&ident) {
                            return Err(EngineError::InvalidAssumption(
                                concat("unexpected reference to an unknown function: ", n.as_str()),
                            ));
                        }
                        Ok(Constant::Function { name: ident })
                    },
                }
            },
            _ => Err(violation("")),
        }
    }

    /// Reads a constant expression.
    fn convert_expr(constant: &AConstant, expected_type: &Type, typing: &TypeRegistry, symbols: &SymbolRegistry) -> (r:
        EngineResult<Constant>)
        requires
            typing.wf(),
            constant.repr is Expr,
        ensures
            const_outcome(r, conv_const(scope_of(typing, symbols), *constant, expected_type.model())),
        decreases constant, 0nat,
    {
        let ghost sc = scope_of(typing, symbols);
        let ty = &constant.ty;
        assert(type_check(sc, ty@, expected_type.model()) == type_check(typing_scope(typing), ty@, expected_type.model()));
        match &constant.repr {
            Const::Expr { inst } => {
                if let Some(e) = check_type(ty, expected_type, typing) {
                    return Err(e);
                }
                let mut ctxt = bare_context(typing, symbols);
                proof {
                    assert(decreases_to!(constant => constant.repr));
                    assert(decreases_to!(constant.repr => constant.repr->inst));
                }
                let parsed = ctxt.parse_parts(ty, usize::MAX, inst);
                match parsed {
                    Err(e) => Err(e),
                    Ok(inst_parsed) => match expression_from(inst_parsed) {
                        Err(e) => Err(e),
                        Ok(expr) => Ok(Constant::Expr(Box::new(expr))),
                    },
                }
            },
            _ => Err(violation("")),
        }
    }

    /// Reads every constant of a list as the given type; the first failure wins.
    fn convert_all(elements: &Vec<AConstant>, t: &Type, typing: &TypeRegistry, symbols: &SymbolRegistry) -> (r: EngineResult<Vec<Constant>>)
        requires
            typing.wf(),
        ensures
            consts_outcome(r, conv_elements(scope_of(typing, symbols), elements@, t.model(), elements@.len())),
        decreases elements@, 0nat,
    {
        let ghost sc = scope_of(typing, symbols);
        let mut out: Vec<Constant> = Vec::new();
        let mut i: usize = 0;
        assert(const_models(out@) =~= Seq::<ConstModel>::empty());
        while i < elements.len()
            invariant
                typing.wf(),
                i <= elements@.len(),
                sc == scope_of(typing, symbols),
                conv_elements(sc, elements@, t.model(), i as nat) == Ok::<Seq<ConstModel>, Failure>(const_models(out@)),
            decreases elements@.len() - i,
        {
            proof {
                assert(decreases_to!(elements@ => elements@[i as int]));
            }
            match Self::convert(&elements[i], t, typing, symbols) {
                Err(e) => {
                    proof {
                        lemma_elements_prefix(sc, elements@, t.model(), (i + 1) as nat, elements@.len());
                    }
                    return Err(e);
                },
                Ok(c) => {
                    let ghost before = out@;
                    out.push(c);
                    assert(const_models(out@) =~= const_models(before).push(c.model()));
                },
            }
            i = i + 1;
        }
        Ok(out)
    }

    /// Reads every constant of a list as the type of its field; the first failure wins.
    fn convert_fields(elements: &Vec<AConstant>, fields: &Vec<Type>, typing: &TypeRegistry, symbols: &SymbolRegistry) -> (r: EngineResult<Vec<Constant>>)
        requires
            typing.wf(),
            elements@.len() == fields@.len(),
        ensures
            consts_outcome(r, conv_fields(scope_of(typing, symbols), elements@, crate::ir::typing::type_models(fields@), elements@.len())),
        decreases elements@, 0nat,
    {
        let ghost sc = scope_of(typing, symbols);
        let ghost ts = crate::ir::typing::type_models(fields@);
        let mut out: Vec<Constant> = Vec::new();
        let mut i: usize = 0;
        assert(const_models(out@) =~= Seq::<ConstModel>::empty());
        while i < elements.len()
            invariant
                typing.wf(),
                i <= elements@.len(),
                elements@.len() == fields@.len(),
                sc == scope_of(typing, symbols),
                ts == crate::ir::typing::type_models(fields@),
                conv_fields(sc, elements@, ts, i as nat) == Ok::<Seq<ConstModel>, Failure>(const_models(out@)),
            decreases elements@.len() - i,
        {
            proof {
                assert(decreases_to!(elements@ => elements@[i as int]));
            }
            assert(ts[i as int] == fields@[i as int].model());
            match Self::convert(&elements[i], &fields[i], typing, symbols) {
                Err(e) => {
                    proof {
                        lemma_fields_prefix(sc, elements@, ts, (i + 1) as nat, elements@.len());
                    }
                    return Err(e);
                },
                Ok(c) => {
                    let ghost before = out@;
                    out.push(c);
                    assert(const_models(out@) =~= const_models(before).push(c.model()));
                },
            }
            i = i + 1;
        }
        Ok(out)
    }
}

} // verus!

verus! {

/// The type of a value read from a module, as a type.
fn value_type_of(val: &AValue) -> (r: AType)
    ensures
        r@ == value_type(*val),
{
    val.get_type()
}

impl<'a> Context<'a> {
    /// Reads a value of the expected type (see [`conv_value`]).
    pub fn parse_value(&mut self, val: &AValue, expected_type: &Type) -> (r: EngineResult<Value>)
        requires
            old(self).typing.wf(),
        ensures
            value_outcome(r, conv_value(old(self).env(), old(self).regs(), *val, expected_type.model()).0),
            final(self).regs() == conv_value(old(self).env(), old(self).regs(), *val, expected_type.model()).1,
            final(self).keeps(old(self)),
        decreases val, 0nat,
    {
        let ghost env = self.env();
        let ghost sc = env.scope;
        match val {
            AValue::Constant(constant) => {
                proof {
                    assert(decreases_to!(val => val->0));
                }
                match Constant::convert(constant, expected_type, self.typing, self.symbols) {
                    Err(e) => Err(e),
                    Ok(c) => Ok(Value::Constant(c)),
                }
            },
            AValue::Argument { ty, index } => {
                let actual_ty = match self.typing.convert(ty) {
                    Err(e) => {
                        return Err(e);
                    },
                    Ok(t) => t,
                };
                if !expected_type.same_as(&actual_ty) {
                    return Err(EngineError::InvariantViolation("argument type mismatch".to_owned()));
                }
                match self.args.get(index) {
                    None => Err(EngineError::InvariantViolation("invalid argument index".to_owned())),
                    Some(arg_type) => {
                        if !arg_type.same_as(&actual_ty) {
                            return Err(EngineError::InvariantViolation("param type mismatch".to_owned()));
                        }
                        Ok(Value::Argument { index: ArgumentSlot::from(*index), ty: actual_ty })
                    },
                }
            },
            AValue::Instruction { ty, index } => {
                let actual_ty = match self.typing.convert(ty) {
                    Err(e) => {
                        return Err(e);
                    },
                    Ok(t) => t,
                };
                if !expected_type.same_as(&actual_ty) {
                    return Err(EngineError::InvariantViolation("instruction type mismatch".to_owned()));
                }
                let ghost before = self.insts@;
                let previous = self.insts.insert(*index, Some(actual_ty.duplicate()));
                proof {
                    assert(opt_type_table(self.insts@) =~= opt_type_table(before).insert(*index, Some(actual_ty.model())));
                }
                match previous {
                    None => Err(EngineError::InvariantViolation("invalid instruction index".to_owned())),
                    Some(None) => Ok(Value::Register { index: RegisterSlot::from(*index), ty: actual_ty }),
                    Some(Some(reg_type)) => {
                        if !reg_type.same_as(&actual_ty) {
                            return Err(EngineError::InvariantViolation("register type mismatch".to_owned()));
                        }
                        Ok(Value::Register { index: RegisterSlot::from(*index), ty: actual_ty })
                    },
                }
            },
            AValue::Label { .. } => Err(EngineError::NotSupportedYet(Unsupported::IndirectJump)),
            AValue::Metadata => Err(EngineError::NotSupportedYet(Unsupported::MetadataSystem)),
        }
    }

    /// Reads a value whose type must be a one-bit integer (see [`conv_int1`]).
    fn parse_value_int1(&mut self, val: &AValue) -> (r: EngineResult<Value>)
        requires
            old(self).typing.wf(),
        ensures
            value_outcome(r, conv_int1(old(self).env(), old(self).regs(), *val).0),
            final(self).regs() == conv_int1(old(self).env(), old(self).regs(), *val).1,
            final(self).keeps(old(self)),
        decreases val, 1nat,
    {
        let ty = value_type_of(val);
        let is_int1 = match &ty {
            AType::Int { width, .. } => *width == 1,
            _ => false,
        };
        if is_int1 {
            self.parse_value(val, &Type::Bitvec { bits: 1, number: NumRepr::Int, length: None })
        } else {
            match self.typing.convert(&ty) {
                Err(e) => Err(e),
                Ok(t) => Err(EngineError::InvalidAssumption(concat("expect int1, found ", t.describe().as_str()))),
            }
        }
    }

    /// Reads a value whose type must be a scalar integer of any width (see [`conv_int_any`]).
    fn parse_value_int_any(&mut self, val: &AValue) -> (r: EngineResult<Value>)
        requires
            old(self).typing.wf(),
        ensures
            value_outcome(r, conv_int_any(old(self).env(), old(self).regs(), *val).0),
            final(self).regs() == conv_int_any(old(self).env(), old(self).regs(), *val).1,
            final(self).keeps(old(self)),
        decreases val, 1nat,
    {
        let ty = value_type_of(val);
        let t = match self.typing.convert(&ty) {
            Err(e) => {
                return Err(e);
            },
            Ok(t) => t,
        };
        match &t {
            Type::Bitvec { number: NumRepr::Int, length: None, .. } => self.parse_value(val, &t),
            _ => Err(EngineError::InvalidAssumption(concat("expect int(any) found ", t.describe().as_str()))),
        }
    }
}

} // verus!

verus! {

/// A constant expression read from an instruction agrees with [`expr_of`] on its model.
#[verifier::spinoff_prover]
#[verifier::rlimit(60)]
proof fn lemma_expression_model(inst: Instruction, r: EngineResult<Expression>)
    requires
        expression_agrees(inst, r),
    ensures
        match expr_of(inst.model()) {
            Ok(e) => r matches Ok(x) && x.model() == e,
            Err(f) => r matches Err(err) && err.failure() == f,
        },
{
    let m = inst.model();
    assert(expression_kind(inst) == expression_model_kind(m));
    match inst {
        Instruction::GEP { indices, .. } => {
            if let InstModel::GEP { indices: im, .. } = m {
                assert(im == index_models(indices@));
                assert forall|k: int| 0 <= k < indices@.len() implies index_is_const(#[trigger] indices@[k])
                    == index_model_constant(im[k]) by {
                    assert(im[k] == indices@[k].model());
                }
                assert(operands_constant(inst) == operand_models_constant(m)) by {
                    if operands_constant(inst) {
                        assert forall|k: int| 0 <= k < im.len() implies index_model_constant(#[trigger] im[k]) by {
                            assert(index_is_const(indices@[k]));
                        }
                    }
                    if operand_models_constant(m) {
                        assert forall|k: int| 0 <= k < indices@.len() implies index_is_const(#[trigger] indices@[k]) by {
                            assert(index_model_constant(im[k]));
                        }
                    }
                }
                if let Ok(x) = r {
                    if expression_kind(inst) && operands_constant(inst) {
                        if let Expression::GEP { indices: ix, .. } = x {
                            assert(crate::ir::model::const_index_models(ix@) =~= im.map_values(
                                |i: IndexModel| const_index_of(i),
                            )) by {
                                assert forall|k: int| 0 <= k < ix@.len() implies #[trigger] crate::ir::model::const_index_models(ix@)[k]
                                    == const_index_of(im[k]) by {
                                    assert(index_converts(indices@[k], ix@[k]));
                                    assert(im[k] == indices@[k].model());
                                }
                            }
                        }
                    }
                }
            }
        },
        _ => {
            assert(operands_constant(inst) == operand_models_constant(m));
        },
    }
}

} // verus!

verus! {

/// The outcome of reading a list of values agrees with its model.
pub open spec fn values_outcome(r: EngineResult<Vec<Value>>, m: Result<Seq<ValueModel>, Failure>) -> bool {
    match m {
        Ok(x) => r matches Ok(v) && value_models(v@) == x,
        Err(f) => r matches Err(e) && e.failure() == f,
    }
}

/// An error whose message is a text.
fn assumption(msg: &str) -> (r: EngineError)
    ensures
        r.failure() == Failure::Assumption(msg@),
{
    EngineError::InvalidAssumption(msg.to_owned())
}

/// An invariant violation whose message is a text.
fn violation(msg: &str) -> (r: EngineError)
    ensures
        r.failure() == Failure::Invariant(msg@),
{
    EngineError::InvariantViolation(msg.to_owned())
}

/// An operation that is not supported.
fn unsupported(u: Unsupported) -> (r: EngineError)
    ensures
        r.failure() == Failure::Unsupported(u),
{
    EngineError::NotSupportedYet(u)
}

impl<'a> Context<'a> {
    /// Reads an `alloca` (see [`conv_alloca`]).
    fn parse_alloca(&mut self, ty: &AType, index: usize, repr: &Inst) -> (r: EngineResult<Instruction>)
        requires
            old(self).typing.wf(),
            *repr is Alloca,
        ensures
            inst_outcome(r, conv_alloca(old(self).env(), old(self).regs(), ty@, index, *repr).0),
            final(self).regs() == conv_alloca(old(self).env(), old(self).regs(), ty@, index, *repr).1,
            final(self).keeps(old(self)),
            defines_at(r, index),
        decreases repr, 1nat,
    {
        match repr {
            Inst::Alloca { allocated_type, size, address_space } => {
                let inst_ty = self.typing.convert(ty)?;
                if !matches!(inst_ty, Type::Pointer) {
                    return Err(assumption("AllocaInst should return a pointer type"));
                }
                if *address_space != 0 {
                    return Err(unsupported(Unsupported::PointerAddressSpace));
                }
                let base_type = self.typing.convert(allocated_type)?;
                let size_new = match size {
                    None => None,
                    Some(val) => Some(self.parse_value_int_any(val)?),
                };
                Ok(Instruction::Alloca { base_type, size: size_new, result: RegisterSlot::from(index) })
            },
            _ => Err(violation("")),
        }
    }

    /// Reads a `load` (see [`conv_load`]).
    fn parse_load(&mut self, ty: &AType, index: usize, repr: &Inst) -> (r: EngineResult<Instruction>)
        requires
            old(self).typing.wf(),
            *repr is Load,
        ensures
            inst_outcome(r, conv_load(old(self).env(), old(self).regs(), ty@, index, *repr).0),
            final(self).regs() == conv_load(old(self).env(), old(self).regs(), ty@, index, *repr).1,
            final(self).keeps(old(self)),
            defines_at(r, index),
        decreases repr, 1nat,
    {
        match repr {
            Inst::Load { pointee_type, pointer, ordering, address_space } => {
                if !str_eq(ordering.as_str(), "not_atomic") {
                    return Err(unsupported(Unsupported::AtomicInstruction));
                }
                if *address_space != 0 {
                    return Err(unsupported(Unsupported::PointerAddressSpace));
                }
                let inst_ty = self.typing.convert(ty)?;
                let pointee_type_new = self.typing.convert(pointee_type)?;
                if !inst_ty.same_as(&pointee_type_new) {
                    return Err(assumption("LoadInst mismatch between result type and pointee type"));
                }
                let pointer_new = self.parse_value(pointer, &Type::Pointer)?;
                Ok(Instruction::Load { pointee_type: pointee_type_new, pointer: pointer_new, result: RegisterSlot::from(index) })
            },
            _ => Err(violation("")),
        }
    }

    /// Reads a `store` (see [`conv_store`]).
    fn parse_store(&mut self, ty: &AType, index: usize, repr: &Inst) -> (r: EngineResult<Instruction>)
        requires
            old(self).typing.wf(),
            *repr is Store,
        ensures
            inst_outcome(r, conv_store(old(self).env(), old(self).regs(), ty@, index, *repr).0),
            final(self).regs() == conv_store(old(self).env(), old(self).regs(), ty@, index, *repr).1,
            final(self).keeps(old(self)),
            defines_at(r, index),
        decreases repr, 1nat,
    {
        match repr {
            Inst::Store { pointee_type, pointer, value, ordering, address_space } => {
                if !str_eq(ordering.as_str(), "not_atomic") {
                    return Err(unsupported(Unsupported::AtomicInstruction));
                }
                if *address_space != 0 {
                    return Err(unsupported(Unsupported::PointerAddressSpace));
                }
                if !matches!(ty, AType::Void) {
                    return Err(assumption("StoreInst should have void type"));
                }
                let pointee_type_new = self.typing.convert(pointee_type)?;
                let pointer_new = self.parse_value(pointer, &Type::Pointer)?;
                let value_new = self.parse_value(value, &pointee_type_new)?;
                Ok(Instruction::Store { pointee_type: pointee_type_new, pointer: pointer_new, value: value_new })
            },
            _ => Err(violation("")),
        }
    }

    /// Reads the first `params.len()` arguments of a call (see [`conv_args`]).
    fn parse_args(&mut self, args: &Vec<AValue>, params: &Vec<Type>) -> (r: EngineResult<Vec<Value>>)
        requires
            old(self).typing.wf(),
            params@.len() <= args@.len(),
        ensures
            values_outcome(
                r,
                conv_args(old(self).env(), old(self).regs(), args@, crate::ir::typing::type_models(params@), params@.len()).0,
            ),
            final(self).regs() == conv_args(
                old(self).env(),
                old(self).regs(),
                args@,
                crate::ir::typing::type_models(params@),
                params@.len(),
            ).1,
            final(self).keeps(old(self)),
        decreases args@, 0nat,
    {
        let ghost env = self.env();
        let ghost regs0 = self.regs();
        let ghost ts = crate::ir::typing::type_models(params@);
        let mut out: Vec<Value> = Vec::new();
        let mut i: usize = 0;
        assert(value_models(out@) =~= Seq::<ValueModel>::empty());
        while i < params.len()
            invariant
                self.typing.wf(),
                i <= params@.len() <= args@.len(),
                self.keeps(old(self)),
                env == old(self).env(),
                regs0 == old(self).regs(),
                ts == crate::ir::typing::type_models(params@),
                conv_args(env, regs0, args@, ts, i as nat) == (Ok::<Seq<ValueModel>, Failure>(value_models(out@)), self.regs()),
            decreases params@.len() - i,
        {
            proof {
                assert(decreases_to!(args@ => args@[i as int]));
            }
            assert(ts[i as int] == params@[i as int].model());
            let v = match self.parse_value(&args[i], &params[i]) {
                Err(e) => {
                    proof {
                        lemma_args_prefix(env, regs0, args@, ts, (i + 1) as nat, params@.len() as nat);
                    }
                    return Err(e);
                },
                Ok(v) => v,
            };
            let ghost before = out@;
            out.push(v);
            assert(value_models(out@) =~= value_models(before).push(v.model()));
            i = i + 1;
        }
        Ok(out)
    }

    /// Reads a call (see [`conv_call`]).
    fn parse_call(&mut self, ty: &AType, index: usize, repr: &Inst) -> (r: EngineResult<Instruction>)
        requires
            old(self).typing.wf(),
            *repr is CallDirect || *repr is CallIndirect || *repr is Intrinsic,
        ensures
            inst_outcome(r, conv_call(old(self).env(), old(self).regs(), ty@, index, *repr).0),
            final(self).regs() == conv_call(old(self).env(), old(self).regs(), ty@, index, *repr).1,
            final(self).keeps(old(self)),
            defines_at(r, index),
        decreases repr, 1nat,
    {
        let indirect = matches!(repr, Inst::CallIndirect { .. });
        let (callee, target_type, args) = match repr {
            Inst::CallDirect { callee, target_type, args } => (callee, target_type, args),
            Inst::CallIndirect { callee, target_type, args } => (callee, target_type, args),
            Inst::Intrinsic { callee, target_type, args } => (callee, target_type, args),
            _ => {
                return Err(violation(""));
            },
        };
        let func_ty = self.typing.convert(target_type)?;
        match &func_ty {
            Type::Function { params, variadic, ret } => {
                assert(crate::ir::typing::type_models(params@).len() == params@.len());
                if *variadic {
                    if args.len() < params.len() {
                        return Err(assumption("CallInst number of arguments mismatch (variadic)"));
                    }
                } else if params.len() != args.len() {
                    return Err(assumption("CallInst number of arguments mismatch (exact)"));
                }
                let args_new = self.parse_args(args, params)?;
                let ret_ty = return_type(ty, ret, self.typing)?;
                let callee_new = self.parse_value(callee, &Type::Pointer)?;
                call_instruction(indirect, callee_new, args_new, ret_ty, index)
            },
            _ => Err(assumption("CallInst refer to a non-function callee")),
        }
    }
}

} // verus!

verus! {

/// The instruction a binary operation of the given type becomes (see [`binary_outcome`]).
fn binary_instruction(opcode: &str, inst_ty: Type, lhs: Value, rhs: Value, index: usize) -> (r: EngineResult<Instruction>)
    ensures
        inst_outcome(r, binary_outcome(opcode@, inst_ty.model(), lhs.model(), rhs.model(), index)),
        defines_at(r, index),
{
    let op = match BinaryOperator::parse(opcode) {
        Err(e) => {
            return Err(e);
        },
        Ok(op) => op,
    };
    match op {
        BinaryOperator::Arithmetic(operator, repr) => match inst_ty {
            Type::Bitvec { bits, number, length } => {
                if number == repr {
                    Ok(Instruction::BinaryArith { bits, number, length, opcode: operator, lhs, rhs, result: RegisterSlot::from(index) })
                } else {
                    Err(assumption("value type and arithmetic operation type mismatch"))
                }
            },
            _ => Err(assumption("value type and arithmetic operation type mismatch")),
        },
        BinaryOperator::Bitwise(operator) => match inst_ty {
            Type::Bitvec { bits, number: NumRepr::Int, length } => Ok(
                Instruction::BinaryBitwise { bits, length, opcode: operator, lhs, rhs, result: RegisterSlot::from(index) },
            ),
            _ => Err(assumption("value type and bitwise operation type mismatch")),
        },
        BinaryOperator::Shift(operator) => match inst_ty {
            Type::Bitvec { bits, number: NumRepr::Int, length } => Ok(
                Instruction::BinaryShift { bits, length, opcode: operator, lhs, rhs, result: RegisterSlot::from(index) },
            ),
            _ => Err(assumption("value type and shift operation type mismatch")),
        },
    }
}

/// The instruction a comparison of the given types becomes (see [`compare_outcome`]).
fn compare_instruction(predicate: &str, inst_ty: Type, operand_ty: Type, lhs: Value, rhs: Value, index: usize) -> (r: EngineResult<Instruction>)
    ensures
        inst_outcome(r, compare_outcome(predicate@, inst_ty.model(), operand_ty.model(), lhs.model(), rhs.model(), index)),
        defines_at(r, index),
{
    let op = match CompareOperator::parse(predicate) {
        Err(e) => {
            return Err(e);
        },
        Ok(op) => op,
    };
    match op {
        CompareOperator::Pred(p, repr) => match (inst_ty, operand_ty) {
            (
                Type::Bitvec { bits: 1, number: NumRepr::Int, length: length_inst },
                Type::Bitvec { bits, number, length },
            ) => {
                if number == repr && length == length_inst {
                    Ok(Instruction::CompareBitvec { bits, number, length, predicate: p, lhs, rhs, result: RegisterSlot::from(index) })
                } else {
                    Err(assumption("compare pred expects int<>, float<>, or ptr operands"))
                }
            },
            (Type::Bitvec { bits: 1, number: NumRepr::Int, length: None }, Type::Pointer) => {
                if matches!(repr, NumRepr::Int) {
                    Ok(Instruction::ComparePtr { predicate: p, lhs, rhs, result: RegisterSlot::from(index) })
                } else {
                    Err(assumption("compare pred expects int<>, float<>, or ptr operands"))
                }
            },
            _ => Err(assumption("compare pred expects int<>, float<>, or ptr operands")),
        },
        CompareOperator::Ord(ordered) => match (inst_ty, operand_ty) {
            (
                Type::Bitvec { bits: 1, number: NumRepr::Int, length: length_inst },
                Type::Bitvec { bits, number: NumRepr::Float, length },
            ) => {
                if length == length_inst {
                    Ok(Instruction::CompareOrder { bits, length, ordered, lhs, rhs, result: RegisterSlot::from(index) })
                } else {
                    Err(assumption("compare ord expects float<> operands only"))
                }
            },
            _ => Err(assumption("compare ord expects float<> operands only")),
        },
    }
}

/// The type a call returns (see [`call_return`]).
fn return_type(ty: &AType, ret: &Option<Box<Type>>, typing: &TypeRegistry) -> (r: EngineResult<Option<Type>>)
    requires
        typing.wf(),
    ensures
        match call_return(
            bare_env(typing_scope(typing)),
            ty@,
            match ret {
                Some(t) => Some(Box::new(t.model())),
                None => None,
            },
        ) {
            Ok(t) => r matches Ok(x) && crate::ir::function::opt_type_model(x) == t,
            Err(f) => r matches Err(e) && e.failure() == f,
        },
{
    match ret {
        None => {
            if !matches!(ty, AType::Void) {
                return Err(assumption("CallInst return type mismatch"));
            }
            Ok(None)
        },
        Some(t) => {
            let inst_ty = typing.convert(ty)?;
            if !t.same_as(&inst_ty) {
                return Err(assumption("CallInst return type mismatch"));
            }
            Ok(Some(inst_ty))
        },
    }
}

/// The instruction a call becomes (see [`call_outcome`]).
fn call_instruction(indirect: bool, callee: Value, args: Vec<Value>, ret_ty: Option<Type>, index: usize) -> (r: EngineResult<Instruction>)
    ensures
        inst_outcome(
            r,
            call_outcome(indirect, callee.model(), value_models(args@), crate::ir::function::opt_type_model(ret_ty), index),
        ),
        defines_at(r, index),
{
    let result = match ret_ty {
        Some(t) => Some((t, RegisterSlot::from(index))),
        None => None,
    };
    if indirect {
        if matches!(callee, Value::Constant(Constant::Function { .. })) {
            return Err(assumption("indirect call should not target a named function"));
        }
        Ok(Instruction::CallIndirect { callee, args, result })
    } else {
        match callee {
            Value::Constant(Constant::Function { name }) => Ok(Instruction::CallDirect { function: name, args, result }),
            _ => Err(assumption("direct or intrinsic call should target a named function")),
        }
    }
}

/// The number of bits a scalar or a vector of scalars holds in all.
fn total_bits_of(bits: usize, length: Option<usize>) -> (r: u128)
    ensures
        r == total_bits(bits, length),
{
    let l: u128 = match length {
        Some(l) => l as u128,
        None => 1,
    };
    assert(bits as u128 * l <= u128::MAX) by (nonlinear_arith)
        requires
            bits <= usize::MAX,
            l <= usize::MAX,
    ;
    bits as u128 * l
}

/// The instruction a cast of the given opcode becomes (see [`cast_outcome`]).
fn cast_instruction(
    opcode: &str,
    src: Type,
    dst: Type,
    src_address_space: Option<usize>,
    dst_address_space: Option<usize>,
    operand: Value,
    index: usize,
) -> (r: EngineResult<Instruction>)
    ensures
        inst_outcome(r, cast_outcome(opcode@, src.model(), dst.model(), src_address_space, dst_address_space, operand.model(), index)),
        defines_at(r, index),
{
    let result = RegisterSlot::from(index);
    if str_eq(opcode, "trunc") || str_eq(opcode, "zext") || str_eq(opcode, "sext") {
        match (src, dst) {
            (
                Type::Bitvec { bits: bits_from, number: NumRepr::Int, length: length_from },
                Type::Bitvec { bits: bits_into, number: NumRepr::Int, length },
            ) => {
                if length_from == length && bits_from != bits_into {
                    Ok(Instruction::CastBitvecSize { bits_from, bits_into, number: NumRepr::Int, length, operand, result })
                } else {
                    Err(assumption("expect int type for int cast"))
                }
            },
            _ => Err(assumption("expect int type for int cast")),
        }
    } else if str_eq(opcode, "fp_trunc") || str_eq(opcode, "fp_ext") {
        match (src, dst) {
            (
                Type::Bitvec { bits: bits_from, number: NumRepr::Float, length: length_from },
                Type::Bitvec { bits: bits_into, number: NumRepr::Float, length },
            ) => {
                if length_from == length && bits_from != bits_into {
                    Ok(Instruction::CastBitvecSize { bits_from, bits_into, number: NumRepr::Float, length, operand, result })
                } else {
                    Err(assumption("expect float type for float cast"))
                }
            },
            _ => Err(assumption("expect float type for float cast")),
        }
    } else if str_eq(opcode, "bitcast") {
        match (src, dst) {
            (Type::Pointer, Type::Pointer) => Ok(Instruction::CastPtr { operand, result }),
            (
                Type::Bitvec { bits: bits_from, number: number_from, length: length_from },
                Type::Bitvec { bits: bits_into, number: number_into, length: length_into },
            ) => {
                if total_bits_of(bits_from, length_from) == total_bits_of(bits_into, length_into) {
                    Ok(
                        Instruction::CastBitvecFree {
                            bits_from,
                            bits_into,
                            number_from,
                            number_into,
                            length_from,
                            length_into,
                            operand,
                            result,
                        },
                    )
                } else {
                    Err(assumption("expect ptr or bits-preserving type for bitcast"))
                }
            },
            _ => Err(assumption("expect ptr or bits-preserving type for bitcast")),
        }
    } else if str_eq(opcode, "address_space_cast") {
        Err(unsupported(Unsupported::PointerAddressSpace))
    } else if str_eq(opcode, "fp_to_ui") || str_eq(opcode, "fp_to_si") {
        match (src, dst) {
            (
                Type::Bitvec { bits: bits_from, number: NumRepr::Float, length: length_from },
                Type::Bitvec { bits: bits_into, number: NumRepr::Int, length },
            ) => {
                if length_from == length {
                    Ok(
                        Instruction::CastBitvecRepr {
                            bits_from,
                            bits_into,
                            number_from: NumRepr::Float,
                            number_into: NumRepr::Int,
                            length,
                            operand,
                            result,
                        },
                    )
                } else {
                    Err(assumption("expect float<> and int<> for fp_to_ui/si cast"))
                }
            },
            _ => Err(assumption("expect float<> and int<> for fp_to_ui/si cast")),
        }
    } else if str_eq(opcode, "ui_to_fp") || str_eq(opcode, "si_to_fp") {
        match (src, dst) {
            (
                Type::Bitvec { bits: bits_from, number: NumRepr::Int, length: length_from },
                Type::Bitvec { bits: bits_into, number: NumRepr::Float, length },
            ) => {
                if length_from == length {
                    Ok(
                        Instruction::CastBitvecRepr {
                            bits_from,
                            bits_into,
                            number_from: NumRepr::Int,
                            number_into: NumRepr::Float,
                            length,
                            operand,
                            result,
                        },
                    )
                } else {
                    Err(assumption("expect int<> and float<> for ui/si_to_fp cast"))
                }
            },
            _ => Err(assumption("expect int<> and float<> for ui/si_to_fp cast")),
        }
    } else if str_eq(opcode, "ptr_to_int") {
        match (src, dst) {
            (Type::Pointer, Type::Bitvec { bits: bits_into, number: NumRepr::Int, length: None }) => match src_address_space {
                None => Err(assumption("expect (src address_space) for ptr_to_int cast")),
                Some(a) => {
                    if a == 0 {
                        Ok(Instruction::CastPtrToInt { bits_into, operand, result })
                    } else {
                        Err(unsupported(Unsupported::PointerAddressSpace))
                    }
                },
            },
            _ => Err(assumption("expect (ptr, int) for ptr_to_int cast")),
        }
    } else if str_eq(opcode, "int_to_ptr") {
        match (src, dst) {
            (Type::Bitvec { bits: bits_from, number: NumRepr::Int, length: None }, Type::Pointer) => match dst_address_space {
                None => Err(assumption("expect (dst address_space) for int_to_ptr cast")),
                Some(a) => {
                    if a == 0 {
                        Ok(Instruction::CastIntToPtr { bits_from, operand, result })
                    } else {
                        Err(unsupported(Unsupported::PointerAddressSpace))
                    }
                },
            },
            _ => Err(assumption("expect (int, ptr) for int_to_ptr cast")),
        }
    } else {
        Err(EngineError::InvalidAssumption(concat("unexpected cast opcode: ", opcode)))
    }
}

/// The instruction a freeze of a value becomes (see [`freeze_outcome`]).
fn freeze_instruction(v: Value) -> (r: Instruction)
    ensures
        r.model() == freeze_outcome(v.model()),
        crate::ir::instruction::result_of(&r) is None,
{
    match v {
        Value::Constant(Constant::NumOne { bits, value: NumValue::IntUndef }) => Instruction::FreezeBitvec {
            bits,
            number: NumRepr::Int,
        },
        Value::Constant(Constant::NumOne { bits, value: NumValue::FloatUndef }) => Instruction::FreezeBitvec {
            bits,
            number: NumRepr::Float,
        },
        Value::Constant(Constant::UndefPointer) => Instruction::FreezePtr,
        v => Instruction::FreezeNop { value: v },
    }
}

/// The instruction a select of the given types becomes (see [`ite_outcome`]).
fn ite_instruction(cond_ty: Type, inst_ty: Type, c: Value, t: Value, e: Value, index: usize) -> (r: EngineResult<Instruction>)
    ensures
        inst_outcome(r, ite_outcome(cond_ty.model(), inst_ty.model(), c.model(), t.model(), e.model(), index)),
        defines_at(r, index),
{
    match (cond_ty, inst_ty) {
        (Type::Bitvec { bits: 1, number: NumRepr::Int, length: None }, _) => Ok(
            Instruction::ITEOne { cond: c, then_value: t, else_value: e, result: RegisterSlot::from(index) },
        ),
        (
            Type::Bitvec { bits: 1, number: NumRepr::Int, length: Some(len) },
            Type::Bitvec { bits, number, length: Some(len_value) },
        ) => {
            if len_value == len {
                Ok(
                    Instruction::ITEVec {
                        bits,
                        number,
                        length: len,
                        cond: c,
                        then_value: t,
                        else_value: e,
                        result: RegisterSlot::from(index),
                    },
                )
            } else {
                Err(assumption("ITE cond and value type mismatch"))
            }
        },
        _ => Err(assumption("ITE cond and value type mismatch")),
    }
}

} // verus!

verus! {

/// The outcome of walking down a GEP agrees with its model.
pub open spec fn walk_outcome(r: EngineResult<(Type, Vec<GEPIndex>)>, m: Result<Walk, Failure>) -> bool {
    match m {
        Ok(w) => r matches Ok((t, ix)) && t.model() == w.cur && index_models(ix@) == w.indices,
        Err(f) => r matches Err(e) && e.failure() == f,
    }
}

/// Walks down an aggregate type along indices (see [`aggregate_walk`]).
fn walk_aggregate(src: &Type, indices: &Vec<usize>) -> (r: EngineResult<Type>)
    ensures
        match aggregate_walk(src.model(), indices@, indices@.len()) {
            Ok(t) => r matches Ok(x) && x.model() == t,
            Err(f) => r matches Err(e) && e.failure() == f,
        },
{
    let mut cur = src.duplicate();
    let mut i: usize = 0;
    while i < indices.len()
        invariant
            i <= indices@.len(),
            aggregate_walk(src.model(), indices@, i as nat) == Ok::<TypeModel, Failure>(cur.model()),
        decreases indices@.len() - i,
    {
        let idx = indices[i];
        let next = match &cur {
            Type::Struct { fields, .. } => {
                if idx >= fields.len() {
                    proof {
                        lemma_aggregate_prefix(src.model(), indices@, (i + 1) as nat, indices@.len() as nat);
                    }
                    return Err(assumption("field number out of range"));
                }
                assert(crate::ir::typing::type_models(fields@)[idx as int] == fields@[idx as int].model());
                fields[idx].duplicate()
            },
            Type::Array { element, length } => {
                if idx >= *length {
                    proof {
                        lemma_aggregate_prefix(src.model(), indices@, (i + 1) as nat, indices@.len() as nat);
                    }
                    return Err(assumption("array index out of range"));
                }
                element.duplicate()
            },
            _ => {
                proof {
                    lemma_aggregate_prefix(src.model(), indices@, (i + 1) as nat, indices@.len() as nat);
                }
                return Err(assumption("Aggregate getter only applies to array and struct"));
            },
        };
        cur = next;
        i = i + 1;
    }
    Ok(cur)
}

impl<'a> Context<'a> {
    /// Reads a unary operation (see [`conv_unary`]).
    fn parse_unary(&mut self, ty: &AType, index: usize, repr: &Inst) -> (r: EngineResult<Instruction>)
        requires
            old(self).typing.wf(),
            *repr is Unary,
        ensures
            inst_outcome(r, conv_unary(old(self).env(), old(self).regs(), ty@, index, *repr).0),
            final(self).regs() == conv_unary(old(self).env(), old(self).regs(), ty@, index, *repr).1,
            final(self).keeps(old(self)),
            defines_at(r, index),
        decreases repr, 1nat,
    {
        match repr {
            Inst::Unary { opcode, operand } => {
                let inst_ty = self.typing.convert(ty)?;
                let operand_new = self.parse_value(operand, &inst_ty)?;
                match UnaryOperator::parse(opcode.as_str())? {
                    UnaryOperator::Arithmetic(operator, rep) => match inst_ty {
                        Type::Bitvec { bits, number, length } => {
                            if number == rep {
                                Ok(
                                    Instruction::UnaryArith {
                                        bits,
                                        number,
                                        length,
                                        opcode: operator,
                                        operand: operand_new,
                                        result: RegisterSlot::from(index),
                                    },
                                )
                            } else {
                                Err(assumption("unary operator has invalid instruction type"))
                            }
                        },
                        _ => Err(assumption("unary operator has invalid instruction type")),
                    },
                }
            },
            _ => Err(violation("")),
        }
    }

    /// Reads a binary operation (see [`conv_binary`]).
    fn parse_binary(&mut self, ty: &AType, index: usize, repr: &Inst) -> (r: EngineResult<Instruction>)
        requires
            old(self).typing.wf(),
            *repr is Binary,
        ensures
            inst_outcome(r, conv_binary(old(self).env(), old(self).regs(), ty@, index, *repr).0),
            final(self).regs() == conv_binary(old(self).env(), old(self).regs(), ty@, index, *repr).1,
            final(self).keeps(old(self)),
            defines_at(r, index),
        decreases repr, 1nat,
    {
        match repr {
            Inst::Binary { opcode, lhs, rhs } => {
                let inst_ty = self.typing.convert(ty)?;
                let lhs_new = self.parse_value(lhs, &inst_ty)?;
                let rhs_new = self.parse_value(rhs, &inst_ty)?;
                binary_instruction(opcode.as_str(), inst_ty, lhs_new, rhs_new, index)
            },
            _ => Err(violation("")),
        }
    }

    /// Reads a comparison (see [`conv_compare`]).
    fn parse_compare(&mut self, ty: &AType, index: usize, repr: &Inst) -> (r: EngineResult<Instruction>)
        requires
            old(self).typing.wf(),
            *repr is Compare,
        ensures
            inst_outcome(r, conv_compare(old(self).env(), old(self).regs(), ty@, index, *repr).0),
            final(self).regs() == conv_compare(old(self).env(), old(self).regs(), ty@, index, *repr).1,
            final(self).keeps(old(self)),
            defines_at(r, index),
        decreases repr, 1nat,
    {
        match repr {
            Inst::Compare { predicate, operand_type, lhs, rhs } => {
                let inst_ty = self.typing.convert(ty)?;
                let operand_ty = self.typing.convert(operand_type)?;
                let lhs_new = self.parse_value(lhs, &operand_ty)?;
                let rhs_new = self.parse_value(rhs, &operand_ty)?;
                compare_instruction(predicate.as_str(), inst_ty, operand_ty, lhs_new, rhs_new, index)
            },
            _ => Err(violation("")),
        }
    }

    /// Reads a cast (see [`conv_cast`]).
    fn parse_cast(&mut self, ty: &AType, index: usize, repr: &Inst) -> (r: EngineResult<Instruction>)
        requires
            old(self).typing.wf(),
            *repr is Cast,
        ensures
            inst_outcome(r, conv_cast(old(self).env(), old(self).regs(), ty@, index, *repr).0),
            final(self).regs() == conv_cast(old(self).env(), old(self).regs(), ty@, index, *repr).1,
            final(self).keeps(old(self)),
            defines_at(r, index),
        decreases repr, 1nat,
    {
        match repr {
            Inst::Cast { opcode, src_ty, dst_ty, src_address_space, dst_address_space, operand } => {
                let inst_ty = self.typing.convert(ty)?;
                let src_ty_new = self.typing.convert(src_ty)?;
                let dst_ty_new = self.typing.convert(dst_ty)?;
                if !dst_ty_new.same_as(&inst_ty) {
                    return Err(violation("type mismatch between dst type and inst type for cast"));
                }
                let operand_new = self.parse_value(operand, &src_ty_new)?;
                cast_instruction(opcode.as_str(), src_ty_new, dst_ty_new, *src_address_space, *dst_address_space, operand_new, index)
            },
            _ => Err(violation("")),
        }
    }

    /// Reads a freeze (see [`conv_freeze`]).
    fn parse_freeze(&mut self, ty: &AType, index: usize, repr: &Inst) -> (r: EngineResult<Instruction>)
        requires
            old(self).typing.wf(),
            *repr is Freeze,
        ensures
            inst_outcome(r, conv_freeze(old(self).env(), old(self).regs(), ty@, index, *repr).0),
            final(self).regs() == conv_freeze(old(self).env(), old(self).regs(), ty@, index, *repr).1,
            final(self).keeps(old(self)),
            defines_at(r, index),
        decreases repr, 1nat,
    {
        match repr {
            Inst::Freeze { operand } => {
                let inst_ty = self.typing.convert(ty)?;
                let operand_new = self.parse_value(operand, &inst_ty)?;
                Ok(freeze_instruction(operand_new))
            },
            _ => Err(violation("")),
        }
    }

    /// Walks down a type along the indices of a GEP after the first (see [`gep_walk`]).
    fn walk_gep(&mut self, src: &Type, indices: &Vec<AValue>) -> (r: EngineResult<(Type, Vec<GEPIndex>)>)
        requires
            old(self).typing.wf(),
        ensures
            walk_outcome(r, gep_walk(old(self).env(), old(self).regs(), src.model(), indices@, indices@.len()).0),
            final(self).regs() == gep_walk(old(self).env(), old(self).regs(), src.model(), indices@, indices@.len()).1,
            final(self).keeps(old(self)),
        decreases indices@, 0nat,
    {
        let ghost env = self.env();
        let ghost regs0 = self.regs();
        let mut cur = src.duplicate();
        let mut out: Vec<GEPIndex> = Vec::new();
        if indices.len() <= 1 {
            assert(index_models(out@) =~= Seq::<IndexModel>::empty());
            return Ok((cur, out));
        }
        let mut i: usize = 1;
        assert(gep_walk(env, regs0, src.model(), indices@, 1) == (
            Ok::<Walk, Failure>(Walk { cur: src.model(), indices: Seq::empty() }),
            regs0,
        ));
        assert(index_models(out@) =~= Seq::<IndexModel>::empty());
        while i < indices.len()
            invariant
                self.typing.wf(),
                1 <= i <= indices@.len(),
                self.keeps(old(self)),
                env == old(self).env(),
                regs0 == old(self).regs(),
                gep_walk(env, regs0, src.model(), indices@, i as nat) == (
                    Ok::<Walk, Failure>(Walk { cur: cur.model(), indices: index_models(out@) }),
                    self.regs(),
                ),
            decreases indices@.len() - i,
        {
            proof {
                assert(decreases_to!(indices@ => indices@[i as int]));
            }
            let ghost before = out@;
            let next = match &cur {
                Type::Struct { fields, .. } => {
                    let idx_new = match self.parse_value_int_any(&indices[i]) {
                        Err(e) => {
                            proof {
                                lemma_gep_walk_prefix(env, regs0, src.model(), indices@, (i + 1) as nat, indices@.len() as nat);
                            }
                            return Err(e);
                        },
                        Ok(v) => v,
                    };
                    let field_offset: usize = match &idx_new {
                        Value::Constant(Constant::NumOne { value: NumValue::Int(v), .. }) => {
                            if *v < 0 || *v > usize::MAX as i128 {
                                proof {
                                    lemma_gep_walk_prefix(env, regs0, src.model(), indices@, (i + 1) as nat, indices@.len() as nat);
                                }
                                return Err(violation("field number must be within the range of usize"));
                            }
                            *v as usize
                        },
                        _ => {
                            proof {
                                lemma_gep_walk_prefix(env, regs0, src.model(), indices@, (i + 1) as nat, indices@.len() as nat);
                            }
                            return Err(assumption("field number must be int32"));
                        },
                    };
                    if field_offset >= fields.len() {
                        proof {
                            lemma_gep_walk_prefix(env, regs0, src.model(), indices@, (i + 1) as nat, indices@.len() as nat);
                        }
                        return Err(assumption("field number out of range"));
                    }
                    out.push(GEPIndex::Struct(field_offset));
                    assert(crate::ir::typing::type_models(fields@)[field_offset as int] == fields@[field_offset as int].model());
                    fields[field_offset].duplicate()
                },
                Type::Array { element, .. } => {
                    let idx_new = match self.parse_value_int_any(&indices[i]) {
                        Err(e) => {
                            proof {
                                lemma_gep_walk_prefix(env, regs0, src.model(), indices@, (i + 1) as nat, indices@.len() as nat);
                            }
                            return Err(e);
                        },
                        Ok(v) => v,
                    };
                    out.push(GEPIndex::Array(idx_new));
                    element.duplicate()
                },
                Type::Bitvec { bits, number, length: Some(_) } => {
                    let idx_new = match self.parse_value_int_any(&indices[i]) {
                        Err(e) => {
                            proof {
                                lemma_gep_walk_prefix(env, regs0, src.model(), indices@, (i + 1) as nat, indices@.len() as nat);
                            }
                            return Err(e);
                        },
                        Ok(v) => v,
                    };
                    out.push(GEPIndex::Vector(idx_new));
                    Type::Bitvec { bits: *bits, number: *number, length: None }
                },
                _ => {
                    proof {
                        lemma_gep_walk_prefix(env, regs0, src.model(), indices@, (i + 1) as nat, indices@.len() as nat);
                    }
                    return Err(assumption("GEP only applies to vector, array, and struct"));
                },
            };
            assert(index_models(out@) =~= index_models(before).push(out@.last().model()));
            cur = next;
            i = i + 1;
        }
        Ok((cur, out))
    }

    /// Reads a GEP (see [`conv_gep`]).
    fn parse_gep(&mut self, ty: &AType, index: usize, repr: &Inst) -> (r: EngineResult<Instruction>)
        requires
            old(self).typing.wf(),
            *repr is GEP,
        ensures
            inst_outcome(r, conv_gep(old(self).env(), old(self).regs(), ty@, index, *repr).0),
            final(self).regs() == conv_gep(old(self).env(), old(self).regs(), ty@, index, *repr).1,
            final(self).keeps(old(self)),
            defines_at(r, index),
        decreases repr, 1nat,
    {
        match repr {
            Inst::GEP { src_pointee_ty, dst_pointee_ty, pointer, indices, address_space } => {
                if *address_space != 0 {
                    return Err(unsupported(Unsupported::PointerAddressSpace));
                }
                let inst_ty = self.typing.convert(ty)?;
                if !matches!(inst_ty, Type::Pointer) {
                    return Err(assumption("GEP should return a pointer type"));
                }
                let src_ty = self.typing.convert(src_pointee_ty)?;
                let dst_ty = self.typing.convert(dst_pointee_ty)?;
                if indices.len() == 0 {
                    return Err(assumption("GEP contains no index"));
                }
                proof {
                    assert(decreases_to!(indices@ => indices@[0]));
                }
                let offset_new = self.parse_value_int_any(&indices[0])?;
                let (cur_ty, indices_new) = self.walk_gep(&src_ty, indices)?;
                if !cur_ty.same_as(&dst_ty) {
                    return Err(assumption("GEP destination type mismatch"));
                }
                let pointer_new = self.parse_value(pointer, &Type::Pointer)?;
                Ok(
                    Instruction::GEP {
                        src_pointee_type: src_ty,
                        dst_pointee_type: dst_ty,
                        pointer: pointer_new,
                        offset: offset_new,
                        indices: indices_new,
                        result: RegisterSlot::from(index),
                    },
                )
            },
            _ => Err(violation("")),
        }
    }

    /// Reads a select (see [`conv_ite`]).
    fn parse_ite(&mut self, ty: &AType, index: usize, repr: &Inst) -> (r: EngineResult<Instruction>)
        requires
            old(self).typing.wf(),
            *repr is ITE,
        ensures
            inst_outcome(r, conv_ite(old(self).env(), old(self).regs(), ty@, index, *repr).0),
            final(self).regs() == conv_ite(old(self).env(), old(self).regs(), ty@, index, *repr).1,
            final(self).keeps(old(self)),
            defines_at(r, index),
        decreases repr, 1nat,
    {
        match repr {
            Inst::ITE { cond, then_value, else_value } => {
                let cond_ty = self.typing.convert(&value_type_of(cond))?;
                let cond_new = self.parse_value(cond, &cond_ty)?;
                let inst_ty = self.typing.convert(ty)?;
                let then_new = self.parse_value(then_value, &inst_ty)?;
                let else_new = self.parse_value(else_value, &inst_ty)?;
                ite_instruction(cond_ty, inst_ty, cond_new, then_new, else_new, index)
            },
            _ => Err(violation("")),
        }
    }
}

} // verus!

verus! {

/// The outcome of reading the incoming edges of a phi node agrees with its model.
pub open spec fn options_outcome(r: EngineResult<Vec<(BlockLabel, Value)>>, m: Result<Seq<(BlockLabel, ValueModel)>, Failure>) -> bool {
    match m {
        Ok(x) => r matches Ok(v) && option_models(v@) == x,
        Err(f) => r matches Err(e) && e.failure() == f,
    }
}

/// Index of the first edge from a block among incoming edges (see [`first_label_index`]).
fn find_label(opts: &Vec<(BlockLabel, Value)>, label: BlockLabel) -> (r: Option<usize>)
    ensures
        match first_label_index(option_models(opts@), label) {
            Some(i) => r == Some(i as usize),
            None => r is None,
        },
{
    let ghost ms = option_models(opts@);
    proof {
        lemma_first_label_index(ms, label);
    }
    let mut i: usize = 0;
    while i < opts.len()
        invariant
            i <= opts@.len(),
            ms == option_models(opts@),
            ms.len() == opts@.len(),
            forall|j: int| 0 <= j < i ==> ms[j].0 != label,
        decreases opts@.len() - i,
    {
        assert(ms[i as int].0 == opts@[i as int].0);
        if opts[i].0 == label {
            proof {
                lemma_first_label_index(ms, label);
                match first_label_index(ms, label) {
                    Some(k) => {
                        assert(!(k < i));
                        assert(!(k > i));
                    },
                    None => {},
                }
            }
            return Some(i);
        }
        i = i + 1;
    }
    None
}

impl<'a> Context<'a> {
    /// Reads the incoming edges of a phi node (see [`phi_options`]).
    #[verifier::spinoff_prover]
    fn parse_phi_options(&mut self, options: &Vec<crate::ir::adapter::instruction::PhiOption>, t: &Type) -> (r: EngineResult<Vec<(BlockLabel, Value)>>)
        requires
            old(self).typing.wf(),
        ensures
            options_outcome(r, phi_options(old(self).env(), old(self).regs(), options@, t.model(), options@.len()).0),
            final(self).regs() == phi_options(old(self).env(), old(self).regs(), options@, t.model(), options@.len()).1,
            final(self).keeps(old(self)),
        decreases options@, 0nat,
    {
        let ghost env = self.env();
        let ghost regs0 = self.regs();
        let mut out: Vec<(BlockLabel, Value)> = Vec::new();
        let mut i: usize = 0;
        assert(option_models(out@) =~= Seq::<(BlockLabel, ValueModel)>::empty());
        while i < options.len()
            invariant
                self.typing.wf(),
                i <= options@.len(),
                self.keeps(old(self)),
                env == old(self).env(),
                regs0 == old(self).regs(),
                phi_options(env, regs0, options@, t.model(), i as nat) == (
                    Ok::<Seq<(BlockLabel, ValueModel)>, Failure>(option_models(out@)),
                    self.regs(),
                ),
            decreases options@.len() - i,
        {
            let opt = &options[i];
            if !self.blocks.contains(&opt.block) {
                proof {
                    lemma_phi_prefix(env, regs0, options@, t.model(), (i + 1) as nat, options@.len() as nat);
                }
                return Err(violation("unknown incoming edge into phi node"));
            }
            proof {
                assert(decreases_to!(options@ => options@[i as int]));
                assert(decreases_to!(options@[i as int] => options@[i as int].value));
            }
            let value_new = match self.parse_value(&opt.value, t) {
                Err(e) => {
                    proof {
                        lemma_phi_prefix(env, regs0, options@, t.model(), (i + 1) as nat, options@.len() as nat);
                    }
                    return Err(e);
                },
                Ok(v) => v,
            };
            let label = BlockLabel::from(opt.block);
            let ghost before = out@;
            proof {
                lemma_first_label_index(option_models(out@), label);
            }
            match find_label(&out, label) {
                Some(k) => {
                    assert(option_models(out@)[k as int].1 == out@[k as int].1.model());
                    if !out[k].1.same_as(&value_new) {
                        proof {
                            lemma_phi_prefix(env, regs0, options@, t.model(), (i + 1) as nat, options@.len() as nat);
                        }
                        return Err(violation("duplicated edges into phi node with different values"));
                    }
                    out.set(k, (label, value_new));
                    assert(option_models(out@) =~= option_models(before).update(k as int, (label, value_new.model())));
                },
                None => {
                    out.push((label, value_new));
                    assert(option_models(out@) =~= option_models(before).push((label, value_new.model())));
                },
            }
            i = i + 1;
        }
        Ok(out)
    }

    /// Reads a phi node (see [`conv_phi`]).
    fn parse_phi(&mut self, ty: &AType, index: usize, repr: &Inst) -> (r: EngineResult<Instruction>)
        requires
            old(self).typing.wf(),
            *repr is Phi,
        ensures
            inst_outcome(r, conv_phi(old(self).env(), old(self).regs(), ty@, index, *repr).0),
            final(self).regs() == conv_phi(old(self).env(), old(self).regs(), ty@, index, *repr).1,
            final(self).keeps(old(self)),
            defines_at(r, index),
        decreases repr, 1nat,
    {
        match repr {
            Inst::Phi { options } => {
                let inst_ty = self.typing.convert(ty)?;
                let options_new = self.parse_phi_options(options, &inst_ty)?;
                Ok(Instruction::Phi { options: options_new, result: RegisterSlot::from(index) })
            },
            _ => Err(violation("")),
        }
    }

    /// Reads an aggregate getter (see [`conv_get_value`]).
    fn parse_get_value(&mut self, ty: &AType, index: usize, repr: &Inst) -> (r: EngineResult<Instruction>)
        requires
            old(self).typing.wf(),
            *repr is GetValue,
        ensures
            inst_outcome(r, conv_get_value(old(self).env(), old(self).regs(), ty@, index, *repr).0),
            final(self).regs() == conv_get_value(old(self).env(), old(self).regs(), ty@, index, *repr).1,
            final(self).keeps(old(self)),
            defines_at(r, index),
        decreases repr, 1nat,
    {
        match repr {
            Inst::GetValue { from_ty, aggregate, indices } => {
                let src_ty = self.typing.convert(from_ty)?;
                let dst_ty = self.typing.convert(ty)?;
                let cur_ty = walk_aggregate(&src_ty, indices)?;
                if !cur_ty.same_as(&dst_ty) {
                    return Err(assumption("GetValue destination type mismatch"));
                }
                let aggregate_new = self.parse_value(aggregate, &src_ty)?;
                Ok(
                    Instruction::GetValue {
                        src_ty,
                        dst_ty,
                        aggregate: aggregate_new,
                        indices: indices.clone(),
                        result: RegisterSlot::from(index),
                    },
                )
            },
            _ => Err(violation("")),
        }
    }

    /// Reads an aggregate setter (see [`conv_set_value`]).
    fn parse_set_value(&mut self, ty: &AType, index: usize, repr: &Inst) -> (r: EngineResult<Instruction>)
        requires
            old(self).typing.wf(),
            *repr is SetValue,
        ensures
            inst_outcome(r, conv_set_value(old(self).env(), old(self).regs(), ty@, index, *repr).0),
            final(self).regs() == conv_set_value(old(self).env(), old(self).regs(), ty@, index, *repr).1,
            final(self).keeps(old(self)),
            defines_at(r, index),
        decreases repr, 1nat,
    {
        match repr {
            Inst::SetValue { aggregate, value, indices } => {
                let src_ty = self.typing.convert(ty)?;
                let cur_ty = walk_aggregate(&src_ty, indices)?;
                let aggregate_new = self.parse_value(aggregate, &src_ty)?;
                let value_new = self.parse_value(value, &cur_ty)?;
                Ok(
                    Instruction::SetValue {
                        aggregate: aggregate_new,
                        value: value_new,
                        indices: indices.clone(),
                        result: RegisterSlot::from(index),
                    },
                )
            },
            _ => Err(violation("")),
        }
    }

    /// Reads a vector element getter (see [`conv_get_element`]).
    fn parse_get_element(&mut self, ty: &AType, index: usize, repr: &Inst) -> (r: EngineResult<Instruction>)
        requires
            old(self).typing.wf(),
            *repr is GetElement,
        ensures
            inst_outcome(r, conv_get_element(old(self).env(), old(self).regs(), ty@, index, *repr).0),
            final(self).regs() == conv_get_element(old(self).env(), old(self).regs(), ty@, index, *repr).1,
            final(self).keeps(old(self)),
            defines_at(r, index),
        decreases repr, 1nat,
    {
        match repr {
            Inst::GetElement { vec_ty, vector, slot } => {
                let src_ty = self.typing.convert(vec_ty)?;
                let dst_ty = self.typing.convert(ty)?;
                let vector_new = self.parse_value(vector, &src_ty)?;
                let slot_new = self.parse_value_int_any(slot)?;
                match (src_ty, dst_ty) {
                    (
                        Type::Bitvec { bits: bits_vector, number: number_vector, length: Some(len) },
                        Type::Bitvec { bits, number, length: None },
                    ) => {
                        if bits_vector == bits && number_vector == number {
                            Ok(
                                Instruction::GetElement {
                                    bits,
                                    number,
                                    length: len,
                                    vector: vector_new,
                                    slot: slot_new,
                                    result: RegisterSlot::from(index),
                                },
                            )
                        } else {
                            Err(assumption("GetElement source and element type mismatch"))
                        }
                    },
                    _ => Err(assumption("GetElement source and element type mismatch")),
                }
            },
            _ => Err(violation("")),
        }
    }

    /// Reads a vector element setter (see [`conv_set_element`]).
    fn parse_set_element(&mut self, ty: &AType, index: usize, repr: &Inst) -> (r: EngineResult<Instruction>)
        requires
            old(self).typing.wf(),
            *repr is SetElement,
        ensures
            inst_outcome(r, conv_set_element(old(self).env(), old(self).regs(), ty@, index, *repr).0),
            final(self).regs() == conv_set_element(old(self).env(), old(self).regs(), ty@, index, *repr).1,
            final(self).keeps(old(self)),
            defines_at(r, index),
        decreases repr, 1nat,
    {
        match repr {
            Inst::SetElement { vector, value, slot } => {
                let src_ty = self.typing.convert(ty)?;
                let vector_new = self.parse_value(vector, &src_ty)?;
                let slot_new = self.parse_value_int_any(slot)?;
                match src_ty {
                    Type::Bitvec { bits, number, length: Some(len) } => {
                        let value_new = self.parse_value(value, &Type::Bitvec { bits, number, length: None })?;
                        Ok(
                            Instruction::SetElement {
                                bits,
                                number,
                                length: len,
                                vector: vector_new,
                                value: value_new,
                                slot: slot_new,
                                result: RegisterSlot::from(index),
                            },
                        )
                    },
                    _ => Err(assumption("SetElement source and element type mismatch")),
                }
            },
            _ => Err(violation("")),
        }
    }

    /// Reads a vector shuffle (see [`conv_shuffle`]).
    fn parse_shuffle(&mut self, ty: &AType, index: usize, repr: &Inst) -> (r: EngineResult<Instruction>)
        requires
            old(self).typing.wf(),
            *repr is ShuffleVector,
        ensures
            inst_outcome(r, conv_shuffle(old(self).env(), old(self).regs(), ty@, index, *repr).0),
            final(self).regs() == conv_shuffle(old(self).env(), old(self).regs(), ty@, index, *repr).1,
            final(self).keeps(old(self)),
            defines_at(r, index),
        decreases repr, 1nat,
    {
        match repr {
            Inst::ShuffleVector { lhs, rhs, mask } => {
                let lhs_ty = self.typing.convert(&value_type_of(lhs))?;
                let rhs_ty = self.typing.convert(&value_type_of(rhs))?;
                let dst_ty = self.typing.convert(ty)?;
                let lhs_new = self.parse_value(lhs, &lhs_ty)?;
                let rhs_new = self.parse_value(rhs, &rhs_ty)?;
                match (lhs_ty, rhs_ty, dst_ty) {
                    (
                        Type::Bitvec { bits: bits_lhs, number: number_lhs, length: Some(_) },
                        Type::Bitvec { bits: bits_rhs, number: number_rhs, length: Some(_) },
                        Type::Bitvec { bits, number, length: Some(len) },
                    ) => {
                        if bits_lhs == bits && bits_rhs == bits && number_lhs == number && number_rhs == number {
                            Ok(
                                Instruction::ShuffleVec {
                                    bits,
                                    number,
                                    length: len,
                                    lhs: lhs_new,
                                    rhs: rhs_new,
                                    mask: mask.clone(),
                                    result: RegisterSlot::from(index),
                                },
                            )
                        } else {
                            Err(assumption("ShuffleVector should involve only vector types"))
                        }
                    },
                    _ => Err(assumption("ShuffleVector should involve only vector types")),
                }
            },
            _ => Err(violation("")),
        }
    }

    /// Reads the body of an instruction of the given type at the given index (see [`conv_inst`]).
    fn parse_parts(&mut self, ty: &AType, index: usize, repr: &Inst) -> (r: EngineResult<Instruction>)
        requires
            old(self).typing.wf(),
        ensures
            inst_outcome(r, conv_inst(old(self).env(), old(self).regs(), ty@, index, *repr).0),
            final(self).regs() == conv_inst(old(self).env(), old(self).regs(), ty@, index, *repr).1,
            final(self).keeps(old(self)),
            defines_at(r, index),
        decreases repr, 2nat,
    {
        match repr {
            Inst::Alloca { .. } => self.parse_alloca(ty, index, repr),
            Inst::Load { .. } => self.parse_load(ty, index, repr),
            Inst::Store { .. } => self.parse_store(ty, index, repr),
            Inst::VAArg { pointer } => {
                let pointer_new = self.parse_value(pointer, &Type::Pointer)?;
                Ok(Instruction::VariadicArg { pointer: pointer_new })
            },
            Inst::CallDirect { .. } | Inst::CallIndirect { .. } | Inst::Intrinsic { .. } => self.parse_call(ty, index, repr),
            Inst::CallAsm { .. } => Err(unsupported(Unsupported::InlineAssembly)),
            Inst::Unary { .. } => self.parse_unary(ty, index, repr),
            Inst::Binary { .. } => self.parse_binary(ty, index, repr),
            Inst::Compare { .. } => self.parse_compare(ty, index, repr),
            Inst::Cast { .. } => self.parse_cast(ty, index, repr),
            Inst::Freeze { .. } => self.parse_freeze(ty, index, repr),
            Inst::GEP { .. } => self.parse_gep(ty, index, repr),
            Inst::ITE { .. } => self.parse_ite(ty, index, repr),
            Inst::Phi { .. } => self.parse_phi(ty, index, repr),
            Inst::GetValue { .. } => self.parse_get_value(ty, index, repr),
            Inst::SetValue { .. } => self.parse_set_value(ty, index, repr),
            Inst::GetElement { .. } => self.parse_get_element(ty, index, repr),
            Inst::SetElement { .. } => self.parse_set_element(ty, index, repr),
            Inst::ShuffleVector { .. } => self.parse_shuffle(ty, index, repr),
            Inst::Fence { .. } | Inst::AtomicCmpXchg { .. } | Inst::AtomicRMW { .. } => Err(
                unsupported(Unsupported::AtomicInstruction),
            ),
            Inst::LandingPad { .. } | Inst::CatchPad | Inst::CleanupPad => Err(unsupported(Unsupported::ExceptionHandling)),
            Inst::CallBranch => Err(unsupported(Unsupported::IndirectJump)),
            _ => Err(violation("malformed block with terminator instruction in the body")),
        }
    }

    /// Reads an instruction of a block body (see [`conv_inst`]).
    pub fn parse_instruction(&mut self, inst: &AInstruction) -> (r: EngineResult<Instruction>)
        requires
            old(self).typing.wf(),
        ensures
            inst_outcome(r, conv_inst(old(self).env(), old(self).regs(), inst.ty@, inst.index, inst.repr).0),
            final(self).regs() == conv_inst(old(self).env(), old(self).regs(), inst.ty@, inst.index, inst.repr).1,
            final(self).keeps(old(self)),
            defines_at(r, inst.index),
    {
        self.parse_parts(&inst.ty, inst.index, &inst.repr)
    }
}

} // verus!

verus! {

/// The outcome of reading the cases of a switch agrees with its model.
pub open spec fn cases_outcome(r: EngineResult<Vec<(u64, BlockLabel)>>, m: Result<Seq<(u64, BlockLabel)>, Failure>) -> bool {
    match m {
        Ok(x) => r matches Ok(v) && v@ == x,
        Err(f) => r matches Err(e) && e.failure() == f,
    }
}

/// Index of the first case of a switch for a value (see [`first_case_index`]).
fn find_case(cases: &Vec<(u64, BlockLabel)>, v: u64) -> (r: Option<usize>)
    ensures
        match first_case_index(cases@, v) {
            Some(i) => r == Some(i as usize),
            None => r is None,
        },
{
    let mut i: usize = 0;
    while i < cases.len()
        invariant
            i <= cases@.len(),
            forall|j: int| 0 <= j < i ==> cases@[j].0 != v,
        decreases cases@.len() - i,
    {
        if cases[i].0 == v {
            proof {
                lemma_first_case_index(cases@, v);
                match first_case_index(cases@, v) {
                    Some(k) => {
                        assert(!(k < i));
                        assert(!(k > i));
                    },
                    None => {},
                }
            }
            return Some(i);
        }
        i = i + 1;
    }
    proof {
        lemma_first_case_index(cases@, v);
    }
    None
}

impl<'a> Context<'a> {
    /// Reads the cases of a switch on a condition of type `t` (see [`switch_cases`]).
    fn parse_cases(&self, cases: &Vec<crate::ir::adapter::instruction::SwitchCase>, t: &Type) -> (r: EngineResult<Vec<(u64, BlockLabel)>>)
        requires
            self.typing.wf(),
        ensures
            cases_outcome(r, switch_cases(self.env(), cases@, t.model(), cases@.len())),
    {
        let ghost env = self.env();
        let mut out: Vec<(u64, BlockLabel)> = Vec::new();
        let mut i: usize = 0;
        while i < cases.len()
            invariant
                self.typing.wf(),
                i <= cases@.len(),
                env == self.env(),
                switch_cases(env, cases@, t.model(), i as nat) == Ok::<Seq<(u64, BlockLabel)>, Failure>(out@),
            decreases cases@.len() - i,
        {
            let case = &cases[i];
            if !self.blocks.contains(&case.block) {
                proof {
                    lemma_cases_prefix(env, cases@, t.model(), (i + 1) as nat, cases@.len());
                }
                return Err(assumption("switch casing into an invalid block"));
            }
            let case_val = match Constant::convert(&case.value, t, self.typing, self.symbols) {
                Err(e) => {
                    proof {
                        lemma_cases_prefix(env, cases@, t.model(), (i + 1) as nat, cases@.len());
                    }
                    return Err(e);
                },
                Ok(c) => c,
            };
            let label_val: u64 = match case_val {
                Constant::NumOne { value: NumValue::Int(v), .. } => {
                    if v < 0 || v > u64::MAX as i128 {
                        proof {
                            lemma_cases_prefix(env, cases@, t.model(), (i + 1) as nat, cases@.len());
                        }
                        return Err(assumption("switch casing label larger than u64"));
                    }
                    v as u64
                },
                _ => {
                    proof {
                        lemma_cases_prefix(env, cases@, t.model(), (i + 1) as nat, cases@.len());
                    }
                    return Err(violation("switch case is not a constant int"));
                },
            };
            let label = BlockLabel::from(case.block);
            let ghost before = out@;
            proof {
                lemma_first_case_index(out@, label_val);
            }
            match find_case(&out, label_val) {
                Some(k) => {
                    out.set(k, (label_val, label));
                    assert(out@ =~= before.update(k as int, (label_val, label)));
                },
                None => {
                    out.push((label_val, label));
                },
            }
            assert(out@ == crate::ir::conversion::case_insert(before, label_val, label));
            i = i + 1;
        }
        Ok(out)
    }

    /// Reads the terminator of a block (see [`conv_term`]).
    pub fn parse_terminator(&mut self, inst: &AInstruction) -> (r: EngineResult<Terminator>)
        requires
            old(self).typing.wf(),
        ensures
            term_outcome(r, conv_term(old(self).env(), old(self).regs(), inst.ty@, inst.repr).0),
            final(self).regs() == conv_term(old(self).env(), old(self).regs(), inst.ty@, inst.repr).1,
            final(self).keeps(old(self)),
    {
        if !matches!(inst.ty, AType::Void) {
            return Err(assumption("all terminator instructions must have void type"));
        }
        match &inst.repr {
            Inst::Return { value } => match (value, &self.ret) {
                (None, None) => Ok(Terminator::Return { val: None }),
                (Some(val), Some(ty)) => {
                    let t = ty.duplicate();
                    let converted = self.parse_value(val, &t)?;
                    Ok(Terminator::Return { val: Some(converted) })
                },
                _ => Err(violation("return type mismatch")),
            },
            Inst::Branch { cond, targets } => match cond {
                None => {
                    if targets.len() != 1 {
                        return Err(assumption("unconditional branch should have exactly one target"));
                    }
                    if !self.blocks.contains(&targets[0]) {
                        return Err(assumption("unconditional branch to unknown target"));
                    }
                    Ok(Terminator::Goto { target: BlockLabel::from(targets[0]) })
                },
                Some(val) => {
                    let cond_new = self.parse_value_int1(val)?;
                    if targets.len() != 2 {
                        return Err(assumption("conditional branch should have exactly two targets"));
                    }
                    if !self.blocks.contains(&targets[0]) {
                        return Err(assumption("conditional branch to unknown then target"));
                    }
                    if !self.blocks.contains(&targets[1]) {
                        return Err(assumption("conditional branch to unknown else target"));
                    }
                    Ok(
                        Terminator::Branch {
                            cond: cond_new,
                            then_case: BlockLabel::from(targets[0]),
                            else_case: BlockLabel::from(targets[1]),
                        },
                    )
                },
            },
            Inst::Switch { cond, cond_ty, cases, default } => {
                let cond_ty_new = self.typing.convert(cond_ty)?;
                if !matches!(cond_ty_new, Type::Bitvec { number: NumRepr::Int, length: None, .. }) {
                    return Err(assumption("switch condition must be int"));
                }
                let cond_new = self.parse_value(cond, &cond_ty_new)?;
                let mapping = self.parse_cases(cases, &cond_ty_new)?;
                let default_new = match default {
                    None => None,
                    Some(label) => {
                        if !self.blocks.contains(label) {
                            return Err(assumption("switch default casing into an invalid block"));
                        }
                        Some(BlockLabel::from(*label))
                    },
                };
                Ok(Terminator::Switch { cond: cond_new, cases: mapping, default: default_new })
            },
            Inst::IndirectJump { .. } => Err(unsupported(Unsupported::IndirectJump)),
            Inst::InvokeDirect { .. } | Inst::InvokeIndirect { .. } | Inst::InvokeAsm { .. } | Inst::Resume { .. }
            | Inst::CatchSwitch | Inst::CatchReturn | Inst::CleanupReturn => Err(unsupported(Unsupported::ExceptionHandling)),
            Inst::Unreachable => Ok(Terminator::Unreachable),
            _ => Err(violation("malformed block with non-terminator instruction")),
        }
    }
}

} // verus!
