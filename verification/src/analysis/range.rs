use vstd::prelude::*;
use crate::analysis::generic::{analysis_outcome, execute, CfgDirection, CfgState, Transfer};
use crate::ir::function::Function;

use crate::analysis::domain::{AbstractDomain, LatticeOrder};

verus! {

/// An integer range with optional (inclusive) bounds; a missing bound is unbounded.
#[derive(Debug, Clone, Copy, PartialEq, Eq, Structural)]
pub struct RangeDomain {
    pub lower: Option<i64>,
    pub upper: Option<i64>,
}

impl RangeDomain {
    pub fn new(lower: Option<i64>, upper: Option<i64>) -> (r: Self)
        ensures
            r.lower == lower,
            r.upper == upper,
    {
        RangeDomain { lower, upper }
    }

    /// The range holding exactly `value`.
    pub fn constant(value: i64) -> (r: Self)
        ensures
            r.lower == Some(value),
            r.upper == Some(value),
    {
        Self::new(Some(value), Some(value))
    }

    /// The range with no bound on either side.
    pub fn unbounded() -> (r: Self)
        ensures
            r.lower.is_none(),
            r.upper.is_none(),
    {
        Self::new(None, None)
    }
}

pub open spec fn min_i64(a: i64, b: i64) -> i64 {
    if a <= b {
        a
    } else {
        b
    }
}

pub open spec fn max_i64(a: i64, b: i64) -> i64 {
    if a >= b {
        a
    } else {
        b
    }
}

pub open spec fn range_join(a: RangeDomain, b: RangeDomain) -> RangeDomain {
    RangeDomain {
        lower: match (a.lower, b.lower) {
            (Some(l1), Some(l2)) => Some(min_i64(l1, l2)),
            _ => None,
        },
        upper: match (a.upper, b.upper) {
            (Some(u1), Some(u2)) => Some(max_i64(u1, u2)),
            _ => None,
        },
    }
}

/// The unreachable range: no integer lies in it, and joining it with a range gives
/// that range.
pub open spec fn range_bottom() -> RangeDomain {
    RangeDomain { lower: Some(i64::MAX), upper: Some(i64::MIN) }
}

/// Widening of `current` against `previous`: against the unreachable range, the
/// current range; otherwise the previous range with each bound that the current
/// range crosses (or lacks) dropped.
pub open spec fn range_widen(a: RangeDomain, b: RangeDomain) -> RangeDomain {
    if b == range_bottom() {
        a
    } else {
        RangeDomain {
            lower: match (a.lower, b.lower) {
                (Some(l1), Some(l2)) => if l1 < l2 {
                    None
                } else {
                    Some(l2)
                },
                _ => None,
            },
            upper: match (a.upper, b.upper) {
                (Some(u1), Some(u2)) => if u1 > u2 {
                    None
                } else {
                    Some(u2)
                },
                _ => None,
            },
        }
    }
}

pub open spec fn range_narrow(a: RangeDomain, b: RangeDomain) -> RangeDomain {
    RangeDomain {
        lower: match (a.lower, b.lower) {
            (Some(l1), Some(l2)) => Some(max_i64(l1, l2)),
            (None, Some(l2)) => Some(l2),
            (Some(l1), None) => Some(l1),
            (None, None) => None,
        },
        upper: match (a.upper, b.upper) {
            (Some(u1), Some(u2)) => Some(min_i64(u1, u2)),
            (None, Some(u2)) => Some(u2),
            (Some(u1), None) => Some(u1),
            (None, None) => None,
        },
    }
}

/// The lower bound `a` is at or above the lower bound `b` (a missing bound is
/// below every integer).
pub open spec fn lower_within(a: Option<i64>, b: Option<i64>) -> bool {
    match b {
        None => true,
        Some(l2) => match a {
            Some(l1) => l1 >= l2,
            None => false,
        },
    }
}

/// The upper bound `a` is at or below the upper bound `b` (a missing bound is
/// above every integer).
pub open spec fn upper_within(a: Option<i64>, b: Option<i64>) -> bool {
    match b {
        None => true,
        Some(u2) => match a {
            Some(u1) => u1 <= u2,
            None => false,
        },
    }
}

/// The lattice order of ranges: `a` lies below `b` when both of its bounds lie
/// within those of `b`.
pub open spec fn range_leq(a: RangeDomain, b: RangeDomain) -> bool {
    lower_within(a.lower, b.lower) && upper_within(a.upper, b.upper)
}

pub open spec fn range_order(a: RangeDomain, b: RangeDomain) -> LatticeOrder {
    if a == b {
        LatticeOrder::Equal
    } else if range_leq(a, b) {
        LatticeOrder::Less
    } else if range_leq(b, a) {
        LatticeOrder::Greater
    } else {
        LatticeOrder::Incomparable
    }
}

fn lower_is_within(a: Option<i64>, b: Option<i64>) -> (r: bool)
    ensures
        r == lower_within(a, b),
{
    match b {
        None => true,
        Some(l2) => match a {
            Some(l1) => l1 >= l2,
            None => false,
        },
    }
}

fn upper_is_within(a: Option<i64>, b: Option<i64>) -> (r: bool)
    ensures
        r == upper_within(a, b),
{
    match b {
        None => true,
        Some(u2) => match a {
            Some(u1) => u1 <= u2,
            None => false,
        },
    }
}

fn min_of(a: i64, b: i64) -> (r: i64)
    ensures
        r == min_i64(a, b),
{
    if a <= b {
        a
    } else {
        b
    }
}

fn max_of(a: i64, b: i64) -> (r: i64)
    ensures
        r == max_i64(a, b),
{
    if a >= b {
        a
    } else {
        b
    }
}

impl AbstractDomain for RangeDomain {
    type Model = RangeDomain;

    open spec fn model(&self) -> RangeDomain {
        *self
    }

    open spec fn inv(&self) -> bool {
        true
    }

    open spec fn can_combine(a: RangeDomain, b: RangeDomain) -> bool {
        true
    }

    open spec fn join_of(a: RangeDomain, b: RangeDomain) -> RangeDomain {
        range_join(a, b)
    }

    open spec fn widen_of(a: RangeDomain, b: RangeDomain) -> RangeDomain {
        range_widen(a, b)
    }

    open spec fn narrow_of(a: RangeDomain, b: RangeDomain) -> RangeDomain {
        range_narrow(a, b)
    }

    open spec fn order_ok(a: RangeDomain, b: RangeDomain, r: LatticeOrder) -> bool {
        r == range_order(a, b)
    }

    open spec fn bottom_value() -> RangeDomain {
        range_bottom()
    }

    fn join(&self, other: &Self) -> (r: Self) {
        let lower = match (self.lower, other.lower) {
            (Some(l1), Some(l2)) => Some(min_of(l1, l2)),
            _ => None,
        };
        let upper = match (self.upper, other.upper) {
            (Some(u1), Some(u2)) => Some(max_of(u1, u2)),
            _ => None,
        };
        Self::new(lower, upper)
    }

    fn widen(&self, other: &Self) -> (r: Self) {
        if other.lower == Some(i64::MAX) && other.upper == Some(i64::MIN) {
            return *self;
        }
        let lower = match (self.lower, other.lower) {
            (Some(l1), Some(l2)) => {
                if l1 < l2 {
                    None
                } else {
                    Some(l2)
                }
            },
            _ => None,
        };
        let upper = match (self.upper, other.upper) {
            (Some(u1), Some(u2)) => {
                if u1 > u2 {
                    None
                } else {
                    Some(u2)
                }
            },
            _ => None,
        };
        Self::new(lower, upper)
    }

    fn narrow(&self, other: &Self) -> (r: Self) {
        let lower = match (self.lower, other.lower) {
            (Some(l1), Some(l2)) => Some(max_of(l1, l2)),
            (None, Some(l2)) => Some(l2),
            (Some(l1), None) => Some(l1),
            (None, None) => None,
        };
        let upper = match (self.upper, other.upper) {
            (Some(u1), Some(u2)) => Some(min_of(u1, u2)),
            (None, Some(u2)) => Some(u2),
            (Some(u1), None) => Some(u1),
            (None, None) => None,
        };
        Self::new(lower, upper)
    }

    fn partial_order(&self, other: &Self) -> (r: LatticeOrder) {
        if self.equals(other) {
            LatticeOrder::Equal
        } else if lower_is_within(self.lower, other.lower) && upper_is_within(self.upper, other.upper) {
            LatticeOrder::Less
        } else if lower_is_within(other.lower, self.lower) && upper_is_within(other.upper, self.upper) {
            LatticeOrder::Greater
        } else {
            LatticeOrder::Incomparable
        }
    }

    fn bottom() -> (r: Self) {
        Self::new(Some(i64::MAX), Some(i64::MIN))
    }

    fn duplicate(&self) -> (r: Self) {
        *self
    }

    fn equals(&self, other: &Self) -> (r: bool) {
        let lower_same = match (self.lower, other.lower) {
            (Some(a), Some(b)) => a == b,
            (None, None) => true,
            _ => false,
        };
        let upper_same = match (self.upper, other.upper) {
            (Some(a), Some(b)) => a == b,
            (None, None) => true,
            _ => false,
        };
        lower_same && upper_same
    }
}

} // verus!

verus! {

use crate::analysis::store::{reads_defined, VariableStore};
use crate::ir::constant::{Constant, NumValue};
use crate::ir::instruction::Instruction;
use crate::ir::operator::BinaryOpArith;
use crate::ir::value::{RegisterSlot, Value};
use vstd::wrapping::i64_specs::{wrapping_add, wrapping_sub};

/// The range of an operand: an integer literal (wrapped to 64 bits) is a single point,
/// registers take their value in the store, anything else is unbounded.
pub open spec fn operand_range(v: &Value, m: Map<RegisterSlot, RangeDomain>) -> RangeDomain {
    match v {
        Value::Constant(Constant::NumOne { value: NumValue::Int(x), .. }) => RangeDomain {
            lower: Some(*x as i64),
            upper: Some(*x as i64),
        },
        Value::Register { index, .. } => m[*index],
        _ => RangeDomain { lower: None, upper: None },
    }
}

/// Combines two optional bounds, present only when both are.
pub open spec fn both_bounds(a: Option<i64>, b: Option<i64>, f: spec_fn(i64, i64) -> i64) -> Option<i64> {
    match (a, b) {
        (Some(x), Some(y)) => Some(f(x, y)),
        _ => None,
    }
}

/// A range that no integer lies in.
pub open spec fn range_empty(r: RangeDomain) -> bool {
    match (r.lower, r.upper) {
        (Some(l), Some(u)) => l > u,
        _ => false,
    }
}

/// The product of two bounds, where it fits in 64 bits.
pub open spec fn bound_product(x: i64, y: i64) -> Option<i64> {
    if x * y > i64::MAX || x * y < i64::MIN {
        None
    } else {
        Some((x * y) as i64)
    }
}

/// The range of the products of two bounded ranges: from the least to the greatest
/// product of their bounds; unbounded where a bound is missing or a product does
/// not fit in 64 bits.
pub open spec fn range_product(l: RangeDomain, r: RangeDomain) -> RangeDomain {
    match (l.lower, l.upper, r.lower, r.upper) {
        (Some(a), Some(b), Some(c), Some(d)) => match (
            bound_product(a, c),
            bound_product(a, d),
            bound_product(b, c),
            bound_product(b, d),
        ) {
            (Some(p1), Some(p2), Some(p3), Some(p4)) => RangeDomain {
                lower: Some(min_i64(min_i64(p1, p2), min_i64(p3, p4))),
                upper: Some(max_i64(max_i64(p1, p2), max_i64(p3, p4))),
            },
            _ => RangeDomain { lower: None, upper: None },
        },
        _ => RangeDomain { lower: None, upper: None },
    }
}

/// Range arithmetic: an empty operand gives the unreachable range; sums and
/// differences combine the matching bounds (wrapping around as a release build
/// computes); products range over the products of the bounds; quotients and
/// remainders are unbounded.
pub open spec fn range_binary(op: BinaryOpArith, l: RangeDomain, r: RangeDomain) -> RangeDomain {
    if range_empty(l) || range_empty(r) {
        range_bottom()
    } else {
        match op {
            BinaryOpArith::Add => RangeDomain {
                lower: both_bounds(l.lower, r.lower, |x: i64, y: i64| wrapping_add(x, y)),
                upper: both_bounds(l.upper, r.upper, |x: i64, y: i64| wrapping_add(x, y)),
            },
            BinaryOpArith::Sub => RangeDomain {
                lower: both_bounds(l.lower, r.upper, |x: i64, y: i64| wrapping_sub(x, y)),
                upper: both_bounds(l.upper, r.lower, |x: i64, y: i64| wrapping_sub(x, y)),
            },
            BinaryOpArith::Mul => range_product(l, r),
            BinaryOpArith::Div | BinaryOpArith::Mod => RangeDomain { lower: None, upper: None },
        }
    }
}

/// The range of the negated values: the bounds swap sides and change sign; an empty
/// range gives the unreachable range.
pub open spec fn range_negate(r: RangeDomain) -> RangeDomain {
    if range_empty(r) {
        range_bottom()
    } else {
        RangeDomain {
            lower: match r.upper {
                Some(u) => Some(wrapping_sub(0, u)),
                None => None,
            },
            upper: match r.lower {
                Some(l) => Some(wrapping_sub(0, l)),
                None => None,
            },
        }
    }
}

/// The effect of one instruction on the range store.
pub open spec fn range_transfer(inst: &Instruction, m: Map<RegisterSlot, RangeDomain>) -> Map<
    RegisterSlot,
    RangeDomain,
> {
    match inst {
        Instruction::BinaryArith { opcode, lhs, rhs, result, .. } => m.insert(
            *result,
            range_binary(*opcode, operand_range(lhs, m), operand_range(rhs, m)),
        ),
        Instruction::UnaryArith { operand, result, .. } => m.insert(
            *result,
            range_negate(operand_range(operand, m)),
        ),
        Instruction::Load { pointer, result, .. } => m.insert(*result, operand_range(pointer, m)),
        Instruction::Store { pointer, value, .. } => match pointer {
            Value::Register { index, .. } => m.insert(*index, operand_range(value, m)),
            _ => m,
        },
        Instruction::CallDirect { result, .. } => match result {
            Some((_, reg)) => m.insert(*reg, RangeDomain { lower: None, upper: None }),
            None => m,
        },
        Instruction::CallIndirect { result, .. } => match result {
            Some((_, reg)) => m.insert(*reg, RangeDomain { lower: None, upper: None }),
            None => m,
        },
        _ => m,
    }
}

fn eval_operand_range(value: &Value, state: &VariableStore<RangeDomain>) -> (r: RangeDomain)
    requires
        state.wf(),
        crate::analysis::store::operand_defined(value, state.model()),
    ensures
        r == operand_range(value, state.model()),
{
    match value {
        Value::Constant(Constant::NumOne { value: NumValue::Int(v), .. }) => RangeDomain::constant(
            *v as i64,
        ),
        Value::Register { index, .. } => *state.get(index),
        _ => RangeDomain::unbounded(),
    }
}

fn is_empty_range(r: RangeDomain) -> (b: bool)
    ensures
        b == range_empty(r),
{
    match (r.lower, r.upper) {
        (Some(l), Some(u)) => l > u,
        _ => false,
    }
}

/// The range of the products (see [`range_product`]).
fn range_of_product(l: RangeDomain, r: RangeDomain) -> (p: RangeDomain)
    ensures
        p == range_product(l, r),
{
    match (l.lower, l.upper, r.lower, r.upper) {
        (Some(a), Some(b), Some(c), Some(d)) => match (
            a.checked_mul(c),
            a.checked_mul(d),
            b.checked_mul(c),
            b.checked_mul(d),
        ) {
            (Some(p1), Some(p2), Some(p3), Some(p4)) => RangeDomain::new(
                Some(min_of(min_of(p1, p2), min_of(p3, p4))),
                Some(max_of(max_of(p1, p2), max_of(p3, p4))),
            ),
            _ => RangeDomain::unbounded(),
        },
        _ => RangeDomain::unbounded(),
    }
}

/// Range arithmetic (see [`range_binary`]).
fn range_of_binary(op: BinaryOpArith, l: RangeDomain, r: RangeDomain) -> (res: RangeDomain)
    ensures
        res == range_binary(op, l, r),
{
    if is_empty_range(l) || is_empty_range(r) {
        return RangeDomain::new(Some(i64::MAX), Some(i64::MIN));
    }
    match op {
        BinaryOpArith::Add => RangeDomain::new(
            match (l.lower, r.lower) {
                (Some(x), Some(y)) => Some(x.wrapping_add(y)),
                _ => None,
            },
            match (l.upper, r.upper) {
                (Some(x), Some(y)) => Some(x.wrapping_add(y)),
                _ => None,
            },
        ),
        BinaryOpArith::Sub => RangeDomain::new(
            match (l.lower, r.upper) {
                (Some(x), Some(y)) => Some(x.wrapping_sub(y)),
                _ => None,
            },
            match (l.upper, r.lower) {
                (Some(x), Some(y)) => Some(x.wrapping_sub(y)),
                _ => None,
            },
        ),
        BinaryOpArith::Mul => range_of_product(l, r),
        // division needs careful handling
        BinaryOpArith::Div | BinaryOpArith::Mod => RangeDomain::unbounded(),
    }
}

/// The range of the negated values (see [`range_negate`]).
fn range_of_negation(r: RangeDomain) -> (n: RangeDomain)
    ensures
        n == range_negate(r),
{
    if is_empty_range(r) {
        return RangeDomain::new(Some(i64::MAX), Some(i64::MIN));
    }
    RangeDomain::new(
        match r.upper {
            Some(u) => Some(0i64.wrapping_sub(u)),
            None => None,
        },
        match r.lower {
            Some(l) => Some(0i64.wrapping_sub(l)),
            None => None,
        },
    )
}

/// Transfer function of the range analysis.
pub fn transfer_range(instruction: &Instruction, state: &mut VariableStore<RangeDomain>)
    requires
        old(state).wf(),
        reads_defined(instruction, old(state).model(), true),
    ensures
        final(state).wf(),
        final(state).model() == range_transfer(instruction, old(state).model()),
{
    match instruction {
        Instruction::BinaryArith { opcode, lhs, rhs, result, .. } => {
            let lhs_range = eval_operand_range(lhs, state);
            let rhs_range = eval_operand_range(rhs, state);
            let result_range = range_of_binary(*opcode, lhs_range, rhs_range);
            state.insert(*result, result_range);
        },
        Instruction::UnaryArith { operand, result, .. } => {
            let operand_range = eval_operand_range(operand, state);
            let result_range = range_of_negation(operand_range);
            state.insert(*result, result_range);
        },
        Instruction::Load { pointer, result, .. } => {
            let value = eval_operand_range(pointer, state);
            state.insert(*result, value);
        },
        Instruction::Store { pointer, value, .. } => match pointer {
            Value::Register { index, .. } => {
                let value = eval_operand_range(value, state);
                state.insert(*index, value);
            },
            Value::Constant(..) | Value::Argument { .. } => {},
        },
        Instruction::CallDirect { result, .. } | Instruction::CallIndirect { result, .. } => {
            if let Some((_, reg)) = result {
                state.insert(*reg, RangeDomain::unbounded());
            }
        },
        _ => {},
    }
}


/// The transfer function of the range analysis.
pub struct RangeTransfer;

impl Transfer<RangeDomain> for RangeTransfer {
    open spec fn applies(inst: &Instruction, m: Map<RegisterSlot, RangeDomain>) -> bool {
        reads_defined(inst, m, true)
    }

    open spec fn effect(inst: &Instruction, m: Map<RegisterSlot, RangeDomain>) -> Map<RegisterSlot, RangeDomain> {
        range_transfer(inst, m)
    }

    fn can_apply(&self, inst: &Instruction, store: &VariableStore<RangeDomain>) -> (r: bool) {
        store.holds_reads(inst, true)
    }

    fn apply(&self, inst: &Instruction, store: &mut VariableStore<RangeDomain>) {
        transfer_range(inst, store)
    }
}

/// Runs the range analysis over a function (see [`analysis_outcome`]).
pub fn execute_range_analysis(f: &Function, fuel: usize) -> (r: Option<CfgState<RangeDomain>>)
    requires
        f.body matches Some(g) ==> g.wf(),
    ensures
        match analysis_outcome::<RangeDomain, RangeTransfer>(f.body, true, fuel as nat) {
            None => r is None,
            Some(m) => r matches Some(st) && st.wf() && st.model() == m,
        },
{
    execute(f, &RangeTransfer, CfgDirection::Forward, fuel)
}
} // verus!
