use libra::analysis::pair::PairDomain;
use libra::analysis::bits::{execute_known_bits_analysis, transfer_known_bits, KnownBitsDomain};
use libra::analysis::constant::{execute_constant_propagation, ValueDomain};
use libra::analysis::domain::{AbstractDomain, LatticeOrder};
use libra::analysis::generic::{execute, CfgDirection, CfgState};
use libra::analysis::liveness::execute_liveness_analysis;
use libra::analysis::range::{execute_range_analysis, transfer_range, RangeDomain};
use libra::analysis::sign::{execute_sign_analysis, transfer_sign, SignDomain, SignTransfer};
use libra::analysis::store::VariableStore;
use libra::ir::cfg::{Block, ControlFlowGraph, Edge};
use libra::ir::constant::{Constant, NumValue};
use libra::ir::function::Function;
use libra::ir::instruction::{Instruction, Terminator};
use libra::ir::operator::{BinaryOpArith, UnaryOpArith};
use libra::ir::shared::Identifier;
use libra::ir::typing::{NumRepr, Type};
use libra::ir::value::{BlockLabel, RegisterSlot, Value};

fn int_ty() -> Type {
    Type::Bitvec { bits: 64, number: NumRepr::Int, length: None }
}

fn lit(v: i128) -> Value {
    Value::Constant(Constant::NumOne { bits: 64, value: NumValue::Int(v) })
}

fn reg(i: usize) -> Value {
    Value::Register { index: RegisterSlot(i), ty: int_ty() }
}

fn binary(op: BinaryOpArith, lhs: Value, rhs: Value, result: usize) -> Instruction {
    Instruction::BinaryArith {
        bits: 64,
        number: NumRepr::Int,
        length: None,
        opcode: op,
        lhs,
        rhs,
        result: RegisterSlot(result),
    }
}

fn negate(operand: Value, result: usize) -> Instruction {
    Instruction::UnaryArith {
        bits: 64,
        number: NumRepr::Int,
        length: None,
        opcode: UnaryOpArith::Neg,
        operand,
        result: RegisterSlot(result),
    }
}

fn function(blocks: Vec<(usize, Vec<Instruction>, Terminator)>, edges: Vec<(usize, usize)>) -> Function {
    Function {
        name: Identifier::from_str("f"),
        params: vec![],
        variadic: false,
        ret: None,
        is_weak: false,
        body: Some(
            ControlFlowGraph::new(
                blocks
                    .into_iter()
                    .map(|(l, sequence, terminator)| (BlockLabel(l), Block { sequence, terminator }))
                    .collect(),
                edges.into_iter().map(|(a, b)| (BlockLabel(a), BlockLabel(b), Edge::Goto)).collect(),
            )
            .unwrap(),
        ),
    }
}

/// Block 0 computes `r0 = a + b; r1 = r0 * c` and goes to block 1, which
/// computes `r2 = -r1` and returns.
fn straight_line(a: i128, b: i128, c: i128) -> Function {
    function(
        vec![
            (
                0,
                vec![binary(BinaryOpArith::Add, lit(a), lit(b), 0), binary(BinaryOpArith::Mul, reg(0), lit(c), 1)],
                Terminator::Goto { target: BlockLabel(1) },
            ),
            (1, vec![negate(reg(1), 2)], Terminator::Return { val: None }),
        ],
        vec![(0, 1)],
    )
}

fn out_value<D: AbstractDomain + Copy>(st: &CfgState<D>, block: usize, r: usize) -> D {
    *st.get_state(&BlockLabel(block)).1.get(&RegisterSlot(r))
}

#[test]
fn constant_propagation_follows_the_flow() {
    let f = straight_line(2, 3, 4);
    let st = execute_constant_propagation(&f, 10).unwrap();
    assert_eq!(out_value(&st, 0, 0), ValueDomain::Const(5));
    assert_eq!(out_value(&st, 0, 1), ValueDomain::Const(20));
    assert_eq!(out_value(&st, 0, 2), ValueDomain::Bottom);
    assert_eq!(out_value(&st, 1, 1), ValueDomain::Const(20));
    assert_eq!(out_value(&st, 1, 2), ValueDomain::Const(-20));
    // the incoming state of a block is the one before its instructions
    let b1 = st.get_state(&BlockLabel(1));
    assert_eq!(*b1.0.get(&RegisterSlot(1)), ValueDomain::Const(20));
    assert_eq!(*b1.0.get(&RegisterSlot(2)), ValueDomain::Bottom);
    assert_eq!(*b1.1.get(&RegisterSlot(2)), ValueDomain::Const(-20));
}

#[test]
fn constant_propagation_wraps_and_guards_division() {
    let f = function(
        vec![(
            0,
            vec![
                binary(BinaryOpArith::Add, lit(i64::MAX as i128), lit(1), 0),
                binary(BinaryOpArith::Div, lit(7), lit(0), 1),
                binary(BinaryOpArith::Mod, lit(7), lit(3), 2),
            ],
            Terminator::Return { val: None },
        )],
        vec![],
    );
    let st = execute_constant_propagation(&f, 4).unwrap();
    assert_eq!(out_value(&st, 0, 0), ValueDomain::Const(i64::MIN));
    assert_eq!(out_value(&st, 0, 1), ValueDomain::Top);
    assert_eq!(out_value(&st, 0, 2), ValueDomain::Const(1));
}

#[test]
fn overflowing_division_stops_the_analysis() {
    let f = function(
        vec![(
            0,
            vec![binary(BinaryOpArith::Div, lit(i64::MIN as i128), lit(-1), 0)],
            Terminator::Return { val: None },
        )],
        vec![],
    );
    assert!(execute_constant_propagation(&f, 4).is_none());
}

#[test]
fn loops_reach_a_fixed_point() {
    let f = function(
        vec![
            (0, vec![binary(BinaryOpArith::Add, lit(1), lit(0), 0)], Terminator::Goto { target: BlockLabel(1) }),
            (1, vec![binary(BinaryOpArith::Add, reg(0), lit(1), 1)], Terminator::Goto { target: BlockLabel(1) }),
        ],
        vec![(0, 1), (1, 1)],
    );
    let st = execute_constant_propagation(&f, 10).unwrap();
    assert_eq!(out_value(&st, 1, 0), ValueDomain::Const(1));
    assert_eq!(out_value(&st, 1, 1), ValueDomain::Const(2));
}

#[test]
fn too_little_fuel_gives_no_result() {
    let f = straight_line(2, 3, 4);
    assert!(execute_constant_propagation(&f, 1).is_none());
    assert!(execute_constant_propagation(&f, 2).is_some());
}

#[test]
fn a_declaration_has_no_states() {
    let mut f = straight_line(1, 1, 1);
    f.body = None;
    let st = execute_constant_propagation(&f, 0).unwrap();
    assert!(st.0.is_empty());
}

#[test]
fn sign_analysis() {
    let f = straight_line(1, 1, 1);
    let st = execute_sign_analysis(&f, 10).unwrap();
    assert_eq!(out_value(&st, 0, 0), SignDomain::Positive);
    assert_eq!(out_value(&st, 0, 1), SignDomain::Positive);
    assert_eq!(out_value(&st, 1, 2), SignDomain::Negative);
    let same = execute::<SignDomain, SignTransfer>(&f, &SignTransfer, CfgDirection::Forward, 10).unwrap();
    assert_eq!(out_value(&same, 1, 2), SignDomain::Negative);
}

#[test]
fn range_analysis() {
    let f = straight_line(2, 3, 4);
    let st = execute_range_analysis(&f, 10).unwrap();
    assert_eq!(out_value(&st, 0, 0), RangeDomain::constant(5));
    assert_eq!(out_value(&st, 0, 1), RangeDomain::constant(20));
    // the unreachable start of block 1 leaves the incoming bounds as they are
    assert_eq!(out_value(&st, 1, 1), RangeDomain::constant(20));
    assert_eq!(out_value(&st, 1, 2), RangeDomain::constant(-20));
}

#[test]
fn range_products_hold_every_product() {
    let mut state: VariableStore<RangeDomain> = VariableStore::from(&vec![RegisterSlot(0), RegisterSlot(1), RegisterSlot(2)]);
    state.insert(RegisterSlot(0), RangeDomain::new(Some(2), Some(3)));
    state.insert(RegisterSlot(1), RangeDomain::new(Some(4), Some(5)));
    transfer_range(&binary(BinaryOpArith::Mul, reg(0), reg(1), 2), &mut state);
    assert_eq!(*state.get(&RegisterSlot(2)), RangeDomain::new(Some(8), Some(15)));
    state.insert(RegisterSlot(0), RangeDomain::new(Some(-2), Some(3)));
    transfer_range(&binary(BinaryOpArith::Mul, reg(0), reg(1), 2), &mut state);
    assert_eq!(*state.get(&RegisterSlot(2)), RangeDomain::new(Some(-10), Some(15)));
    state.insert(RegisterSlot(0), RangeDomain::new(None, Some(3)));
    transfer_range(&binary(BinaryOpArith::Mul, reg(0), reg(1), 2), &mut state);
    assert_eq!(*state.get(&RegisterSlot(2)), RangeDomain::unbounded());
    state.insert(RegisterSlot(0), RangeDomain::bottom());
    transfer_range(&binary(BinaryOpArith::Add, reg(0), reg(1), 2), &mut state);
    assert_eq!(*state.get(&RegisterSlot(2)), RangeDomain::bottom());
}

#[test]
fn sign_arithmetic() {
    let mut state: VariableStore<SignDomain> = VariableStore::from(&vec![RegisterSlot(0), RegisterSlot(1), RegisterSlot(2)]);
    state.insert(RegisterSlot(0), SignDomain::Zero);
    state.insert(RegisterSlot(1), SignDomain::Positive);
    transfer_sign(&binary(BinaryOpArith::Add, reg(0), reg(1), 2), &mut state);
    assert_eq!(*state.get(&RegisterSlot(2)), SignDomain::Positive);
    assert_eq!(*state.get(&RegisterSlot(0)), SignDomain::Zero);
    assert_eq!(*state.get(&RegisterSlot(1)), SignDomain::Positive);
    transfer_sign(&binary(BinaryOpArith::Sub, reg(0), reg(1), 2), &mut state);
    assert_eq!(*state.get(&RegisterSlot(2)), SignDomain::Negative);
    transfer_sign(&binary(BinaryOpArith::Mul, reg(0), reg(1), 2), &mut state);
    assert_eq!(*state.get(&RegisterSlot(2)), SignDomain::Zero);
    state.insert(RegisterSlot(0), SignDomain::Negative);
    transfer_sign(&binary(BinaryOpArith::Add, reg(0), reg(1), 2), &mut state);
    assert_eq!(*state.get(&RegisterSlot(2)), SignDomain::Top);
    transfer_sign(&binary(BinaryOpArith::Mul, reg(0), reg(0), 2), &mut state);
    assert_eq!(*state.get(&RegisterSlot(2)), SignDomain::Positive);
    transfer_sign(&binary(BinaryOpArith::Div, reg(1), reg(1), 2), &mut state);
    assert_eq!(*state.get(&RegisterSlot(2)), SignDomain::Top);
}

#[test]
fn float_negation_flips_the_sign_bit() {
    let mut state: VariableStore<KnownBitsDomain> = VariableStore::from(&vec![RegisterSlot(0), RegisterSlot(1)]);
    state.insert(RegisterSlot(0), KnownBitsDomain::new(u64::MAX, 0));
    let neg = Instruction::UnaryArith {
        bits: 64,
        number: NumRepr::Float,
        length: None,
        opcode: UnaryOpArith::Neg,
        operand: reg(0),
        result: RegisterSlot(1),
    };
    transfer_known_bits(&neg, &mut state);
    let r = *state.get(&RegisterSlot(1));
    assert_eq!(r, KnownBitsDomain::new(u64::MAX >> 1, 1u64 << 63));
    assert_eq!(r.known_ones & 1, 0);
    transfer_known_bits(&negate(reg(0), 1), &mut state);
    assert_eq!(*state.get(&RegisterSlot(1)), KnownBitsDomain::new(0, 0));
}

#[test]
fn known_bits_analysis() {
    let f = straight_line(5, 1, 2);
    let st = execute_known_bits_analysis(&f, 10).unwrap();
    assert_eq!(out_value(&st, 0, 1), KnownBitsDomain::new(0, 0));
    assert_eq!(out_value(&st, 1, 2), KnownBitsDomain::new(0, 0));
}

#[test]
fn liveness_runs_backward() {
    let f = straight_line(1, 2, 3);
    let st = execute_liveness_analysis(&f, 10).unwrap();
    assert_eq!(st.0.len(), 2);
    let b0 = st.get_state(&BlockLabel(0));
    assert!(b0.0.get(&RegisterSlot(2)).map.is_empty());
}

#[test]
fn value_lattice() {
    let c1 = ValueDomain::Const(1);
    let c2 = ValueDomain::Const(2);
    assert_eq!(c1.join(&c1), c1);
    assert_eq!(c1.join(&c2), ValueDomain::Top);
    assert_eq!(ValueDomain::Bottom.join(&c2), c2);
    assert_eq!(c2.widen(&c1), ValueDomain::Top);
    assert_eq!(ValueDomain::Top.narrow(&c1), c1);
    assert_eq!(c1.partial_order(&c2), LatticeOrder::Incomparable);
    assert_eq!(c1.partial_order(&ValueDomain::Top), LatticeOrder::Less);
    assert_eq!(ValueDomain::Bottom.partial_order(&c1), LatticeOrder::Less);
    assert_eq!(ValueDomain::Top.partial_order(&c1), LatticeOrder::Greater);
    assert_eq!(ValueDomain::bottom(), ValueDomain::Bottom);
    assert!(c1.equals(&c1.duplicate()));
}

#[test]
fn sign_lattice() {
    assert_eq!(SignDomain::Negative.join(&SignDomain::Positive), SignDomain::Top);
    assert_eq!(SignDomain::Bottom.join(&SignDomain::Zero), SignDomain::Zero);
    assert_eq!(SignDomain::Zero.partial_order(&SignDomain::Top), LatticeOrder::Less);
    assert_eq!(SignDomain::Top.partial_order(&SignDomain::Bottom), LatticeOrder::Greater);
    assert_eq!(SignDomain::Zero.partial_order(&SignDomain::Positive), LatticeOrder::Incomparable);
    assert_eq!(SignDomain::Zero.partial_order(&SignDomain::Zero), LatticeOrder::Equal);
}

#[test]
fn range_lattice() {
    let a = RangeDomain::new(Some(0), Some(10));
    let b = RangeDomain::new(Some(5), Some(20));
    assert_eq!(a.join(&b), RangeDomain::new(Some(0), Some(20)));
    assert_eq!(b.widen(&a), RangeDomain::new(Some(0), None));
    assert_eq!(
        RangeDomain::new(Some(-1), Some(0)).widen(&RangeDomain::new(Some(0), Some(0))),
        RangeDomain::new(None, Some(0))
    );
    assert_eq!(a.widen(&RangeDomain::bottom()), a);
    assert_eq!(a.narrow(&b), RangeDomain::new(Some(5), Some(10)));
    assert_eq!(RangeDomain::constant(3).partial_order(&a), LatticeOrder::Less);
    assert_eq!(a.partial_order(&b), LatticeOrder::Incomparable);
    assert_eq!(a.partial_order(&RangeDomain::unbounded()), LatticeOrder::Less);
    assert_eq!(RangeDomain::bottom().join(&RangeDomain::constant(3)), RangeDomain::constant(3));
    assert_eq!(RangeDomain::bottom().partial_order(&RangeDomain::constant(3)), LatticeOrder::Less);
}

#[test]
fn known_bits_lattice() {
    let a = KnownBitsDomain::new(0b1110, 0b0001);
    let b = KnownBitsDomain::new(0b0010, 0b0001);
    let c = KnownBitsDomain::new(0b0001, 0b0010);
    // the join keeps only what both sides know alike
    assert_eq!(a.join(&b), b);
    assert_eq!(a.join(&c), KnownBitsDomain::new(0, 0));
    assert_eq!(a.partial_order(&b), LatticeOrder::Less);
    assert_eq!(b.partial_order(&a), LatticeOrder::Greater);
    assert_eq!(a.partial_order(&c), LatticeOrder::Incomparable);
    assert_eq!(a.partial_order(&a), LatticeOrder::Equal);
    assert_eq!(KnownBitsDomain::bottom().join(&a), a);
}

#[test]
fn order_chaining() {
    assert_eq!(LatticeOrder::Equal.chain(LatticeOrder::Less), LatticeOrder::Less);
    assert_eq!(LatticeOrder::Greater.chain(LatticeOrder::Less), LatticeOrder::Greater);
    assert_eq!(LatticeOrder::Less.reverse(), LatticeOrder::Greater);
}

#[test]
fn variable_stores() {
    let mut s: VariableStore<ValueDomain> = VariableStore::from(&vec![RegisterSlot(3), RegisterSlot(1)]);
    assert_eq!(*s.get(&RegisterSlot(1)), ValueDomain::Bottom);
    assert!(!s.contains(&RegisterSlot(2)));
    s.insert(RegisterSlot(2), ValueDomain::Const(4));
    assert_eq!(*s.get(&RegisterSlot(2)), ValueDomain::Const(4));
    let regs: Vec<usize> = s.regs.iter().map(|(r, _)| r.0).collect();
    assert_eq!(regs, vec![1, 2, 3]);
    let copy = s.duplicate();
    assert!(copy.same_as(&s));
    assert!(s.covers(&copy));
}

#[test]
fn pairs_are_ordered_component_by_component() {
    let low = PairDomain { first: ValueDomain::Bottom, second: SignDomain::Top };
    let high = PairDomain { first: ValueDomain::Const(1), second: SignDomain::Zero };
    assert_eq!(low.partial_order(&high), LatticeOrder::Incomparable);
    let below = PairDomain { first: ValueDomain::Bottom, second: SignDomain::Zero };
    assert_eq!(below.partial_order(&high), LatticeOrder::Less);
    assert_eq!(high.partial_order(&below), LatticeOrder::Greater);
    assert_eq!(high.partial_order(&high), LatticeOrder::Equal);
    assert_eq!(LatticeOrder::Less.product(LatticeOrder::Greater), LatticeOrder::Incomparable);
}
