use std::collections::{BTreeMap, BTreeSet};

use libra::error::{EngineError, Unsupported};
use libra::ir::adapter::constant::{Const, Constant as AConstant};
use libra::ir::adapter::instruction::{Inst, Instruction as AInstruction, PhiOption, SwitchCase};
use libra::ir::adapter::typing::{Type as AType, UserDefinedStruct};
use libra::ir::adapter::value::Value as AValue;
use libra::ir::cfg::{ControlFlowGraph, Edge};
use libra::ir::function::Parameter;
use libra::ir::global::GlobalVariable;
use libra::ir::adapter::global::GlobalVariable as AGlobalVariable;
use libra::ir::constant::{Constant, Expression, Fraction, NumValue};
use libra::ir::context::{parse_float_text, parse_int_text, Context, SymbolRegistry};
use libra::ir::instruction::{GEPIndex, Instruction, Terminator};
use libra::ir::operator::{BinaryOpArith, ComparePredicate};
use libra::ir::shared::Identifier;
use libra::ir::typing::{NumRepr, Type, TypeRegistry};
use libra::ir::value::{BlockLabel, RegisterSlot, Value};

fn int_of(width: usize) -> AType {
    AType::Int { width, mask: if width >= 64 { u64::MAX } else { (1u64 << width) - 1 } }
}

fn ptr() -> AType {
    AType::Pointer { pointee: None, address_space: 0 }
}

fn int_ty(bits: usize) -> Type {
    Type::Bitvec { bits, number: NumRepr::Int, length: None }
}

fn registry() -> TypeRegistry {
    TypeRegistry::populate(&vec![UserDefinedStruct {
        name: Some("pair".to_string()),
        fields: Some(vec![int_of(32), ptr()]),
    }])
    .unwrap()
}

fn symbols() -> SymbolRegistry {
    SymbolRegistry::new(vec![Identifier::from_str("g")], vec![Identifier::from_str("f")])
}

fn int_const(width: usize, v: &str) -> AConstant {
    AConstant { ty: int_of(width), repr: Const::Int { value: v.to_string() } }
}

fn int_value(width: usize, v: &str) -> AValue {
    AValue::Constant(int_const(width, v))
}

fn register(ty: AType, index: usize) -> AValue {
    AValue::Instruction { ty, index }
}

fn message(e: EngineError) -> String {
    e.describe()
}

fn context<'a>(typing: &'a TypeRegistry, symbols: &'a SymbolRegistry) -> Context<'a> {
    let mut insts = BTreeMap::new();
    for i in 0..8usize {
        insts.insert(i, None);
    }
    let mut args = BTreeMap::new();
    args.insert(0usize, int_ty(32));
    let mut blocks = BTreeSet::new();
    blocks.insert(100usize);
    blocks.insert(200usize);
    Context { typing, symbols, blocks, insts, args, ret: Some(int_ty(32)) }
}

fn inst(ty: AType, index: usize, repr: Inst) -> AInstruction {
    AInstruction { name: None, ty, index, repr }
}

#[test]
fn integer_and_float_numerals() {
    assert_eq!(parse_int_text("42"), Some(42));
    assert_eq!(parse_int_text("-170141183460469231731687303715884105728"), Some(i128::MIN));
    assert_eq!(parse_int_text("+7"), Some(7));
    assert_eq!(parse_int_text("170141183460469231731687303715884105728"), None);
    assert_eq!(parse_int_text("1x"), None);
    assert_eq!(parse_int_text(""), None);
    assert_eq!(parse_float_text("1.5"), Some(Some(Fraction { numer: 15, denom: 10 })));
    assert_eq!(parse_float_text("-2.5E+2"), Some(Some(Fraction { numer: -250, denom: 1 })));
    assert_eq!(parse_float_text("3e-2"), Some(Some(Fraction { numer: 3, denom: 100 })));
    assert_eq!(parse_float_text("inf"), Some(None));
    assert_eq!(parse_float_text("-NaN"), Some(None));
    assert_eq!(parse_float_text(".5"), None);
    assert_eq!(parse_float_text("1e"), None);
}

#[test]
fn constants_of_the_expected_type() {
    let reg = registry();
    let sym = symbols();
    let c = Constant::convert(&int_const(32, "-5"), &int_ty(32), &reg, &sym).unwrap();
    assert!(matches!(c, Constant::NumOne { bits: 32, value: NumValue::Int(-5) }));
    let e = Constant::convert(&int_const(32, "5"), &int_ty(8), &reg, &sym).unwrap_err();
    assert_eq!(message(e), "[libra::assumption] type mismatch: expect int8, found int32");
    let e = Constant::convert(&int_const(32, "five"), &int_ty(32), &reg, &sym).unwrap_err();
    assert_eq!(message(e), "[libra::invariant] const int parse error: five");
    let null = AConstant { ty: ptr(), repr: Const::Null };
    assert!(matches!(Constant::convert(&null, &Type::Pointer, &reg, &sym).unwrap(), Constant::Null));
    let undef = AConstant { ty: int_of(8), repr: Const::Undef };
    assert!(matches!(
        Constant::convert(&undef, &int_ty(8), &reg, &sym).unwrap(),
        Constant::NumOne { bits: 8, value: NumValue::IntUndef }
    ));
    let none = AConstant { ty: int_of(8), repr: Const::TokenNone };
    assert_eq!(
        message(Constant::convert(&none, &int_ty(8), &reg, &sym).unwrap_err()),
        "[libra::assumption] unexpected constant none for type: int8"
    );
    let alias = AConstant { ty: ptr(), repr: Const::Alias { name: Some("a".to_string()) } };
    assert!(matches!(
        Constant::convert(&alias, &Type::Pointer, &reg, &sym).unwrap_err(),
        EngineError::NotSupportedYet(Unsupported::GlobalAlias)
    ));
}

#[test]
fn aggregate_constants() {
    let reg = registry();
    let sym = symbols();
    let arr_ty = AType::Array { element: Box::new(int_of(8)), length: 2 };
    let arr = AConstant {
        ty: arr_ty.duplicate(),
        repr: Const::Array { elements: vec![int_const(8, "1"), int_const(8, "2")] },
    };
    let expected = reg.convert(&arr_ty).unwrap();
    match Constant::convert(&arr, &expected, &reg, &sym).unwrap() {
        Constant::Array { elements, .. } => {
            assert_eq!(elements.len(), 2);
            assert!(matches!(elements[1], Constant::NumOne { bits: 8, value: NumValue::Int(2) }));
        },
        _ => panic!("expected an array"),
    }
    let short = AConstant { ty: arr_ty.duplicate(), repr: Const::Array { elements: vec![int_const(8, "1")] } };
    assert_eq!(
        message(Constant::convert(&short, &expected, &reg, &sym).unwrap_err()),
        "[libra::assumption] type mismatch: expect 2 elements, found 1"
    );
    let pair_ty = AType::Struct { name: Some("pair".to_string()), fields: Some(vec![int_of(32), ptr()]) };
    let pair = AConstant {
        ty: pair_ty.duplicate(),
        repr: Const::Struct {
            elements: vec![int_const(32, "9"), AConstant { ty: ptr(), repr: Const::Function { name: Some("f".to_string()) } }],
        },
    };
    let pair_expected = reg.convert(&pair_ty).unwrap();
    match Constant::convert(&pair, &pair_expected, &reg, &sym).unwrap() {
        Constant::Struct { name, fields } => {
            assert_eq!(name.unwrap().as_str(), "pair");
            assert!(matches!(&fields[1], Constant::Function { name } if name.as_str() == "f"));
        },
        _ => panic!("expected a struct"),
    }
}

#[test]
fn references_to_symbols() {
    let reg = registry();
    let sym = symbols();
    let g = AConstant { ty: ptr(), repr: Const::Variable { name: Some("g".to_string()) } };
    assert!(matches!(Constant::convert(&g, &Type::Pointer, &reg, &sym).unwrap(), Constant::Variable { .. }));
    let h = AConstant { ty: ptr(), repr: Const::Variable { name: Some("h".to_string()) } };
    assert_eq!(
        message(Constant::convert(&h, &Type::Pointer, &reg, &sym).unwrap_err()),
        "[libra::assumption] unexpected reference to an unknown global variable: h"
    );
    let anon = AConstant { ty: ptr(), repr: Const::Function { name: None } };
    assert!(matches!(
        Constant::convert(&anon, &Type::Pointer, &reg, &sym).unwrap_err(),
        EngineError::NotSupportedYet(Unsupported::AnonymousFunction)
    ));
    assert!(sym.has_global(&Identifier::from_str("g")));
    assert!(!sym.has_function(&Identifier::from_str("g")));
}

#[test]
fn constant_expressions_are_read() {
    let reg = registry();
    let sym = symbols();
    let add = Inst::Binary { opcode: "add".to_string(), lhs: int_value(32, "1"), rhs: int_value(32, "2") };
    let expr = AConstant { ty: int_of(32), repr: Const::Expr { inst: Box::new(add) } };
    match Constant::convert(&expr, &int_ty(32), &reg, &sym).unwrap() {
        Constant::Expr(e) => {
            assert!(matches!(*e, Expression::BinaryArith { bits: 32, opcode: BinaryOpArith::Add, .. }))
        },
        _ => panic!("expected an expression"),
    }
    let load = Inst::Load {
        pointee_type: int_of(32),
        pointer: AValue::Constant(AConstant { ty: ptr(), repr: Const::Null }),
        ordering: "not_atomic".to_string(),
        address_space: 0,
    };
    let bad = AConstant { ty: int_of(32), repr: Const::Expr { inst: Box::new(load) } };
    assert_eq!(
        message(Constant::convert(&bad, &int_ty(32), &reg, &sym).unwrap_err()),
        "[libra::assumption] unexpected instruction type for const expr"
    );
}

#[test]
fn values_record_register_types() {
    let reg = registry();
    let sym = symbols();
    let mut ctxt = context(&reg, &sym);
    let v = ctxt.parse_value(&register(int_of(32), 3), &int_ty(32)).unwrap();
    assert!(matches!(v, Value::Register { index: RegisterSlot(3), .. }));
    assert!(ctxt.insts.get(&3).unwrap().is_some());
    let e = ctxt.parse_value(&register(int_of(32), 3), &int_ty(8)).unwrap_err();
    assert_eq!(message(e), "[libra::invariant] instruction type mismatch");
    let e = ctxt.parse_value(&register(int_of(8), 3), &int_ty(8)).unwrap_err();
    assert_eq!(message(e), "[libra::invariant] register type mismatch");
    let e = ctxt.parse_value(&register(int_of(32), 99), &int_ty(32)).unwrap_err();
    assert_eq!(message(e), "[libra::invariant] invalid instruction index");
    let a = ctxt.parse_value(&AValue::Argument { ty: int_of(32), index: 0 }, &int_ty(32)).unwrap();
    assert!(matches!(a, Value::Argument { .. }));
    let e = ctxt.parse_value(&AValue::Argument { ty: int_of(32), index: 1 }, &int_ty(32)).unwrap_err();
    assert_eq!(message(e), "[libra::invariant] invalid argument index");
    assert!(matches!(
        ctxt.parse_value(&AValue::Metadata, &int_ty(32)).unwrap_err(),
        EngineError::NotSupportedYet(Unsupported::MetadataSystem)
    ));
}

#[test]
fn memory_and_arithmetic_instructions() {
    let reg = registry();
    let sym = symbols();
    let mut ctxt = context(&reg, &sym);
    let alloca = inst(ptr(), 1, Inst::Alloca { allocated_type: int_of(32), size: None, address_space: 0 });
    assert!(matches!(ctxt.parse_instruction(&alloca).unwrap(), Instruction::Alloca { result: RegisterSlot(1), .. }));
    let load = inst(
        int_of(32),
        2,
        Inst::Load { pointee_type: int_of(32), pointer: register(ptr(), 1), ordering: "not_atomic".to_string(), address_space: 0 },
    );
    assert!(matches!(ctxt.parse_instruction(&load).unwrap(), Instruction::Load { result: RegisterSlot(2), .. }));
    let atomic = inst(
        int_of(32),
        2,
        Inst::Load { pointee_type: int_of(32), pointer: register(ptr(), 1), ordering: "seq_cst".to_string(), address_space: 0 },
    );
    assert!(matches!(
        ctxt.parse_instruction(&atomic).unwrap_err(),
        EngineError::NotSupportedYet(Unsupported::AtomicInstruction)
    ));
    let add = inst(int_of(32), 3, Inst::Binary { opcode: "add".to_string(), lhs: register(int_of(32), 2), rhs: int_value(32, "1") });
    assert!(matches!(
        ctxt.parse_instruction(&add).unwrap(),
        Instruction::BinaryArith { bits: 32, opcode: BinaryOpArith::Add, result: RegisterSlot(3), .. }
    ));
    let fadd = inst(int_of(32), 4, Inst::Binary { opcode: "fadd".to_string(), lhs: int_value(32, "1"), rhs: int_value(32, "1") });
    assert_eq!(
        message(ctxt.parse_instruction(&fadd).unwrap_err()),
        "[libra::assumption] value type and arithmetic operation type mismatch"
    );
    let cmp = inst(
        int_of(1),
        5,
        Inst::Compare { predicate: "i_slt".to_string(), operand_type: int_of(32), lhs: register(int_of(32), 3), rhs: int_value(32, "0") },
    );
    assert!(matches!(
        ctxt.parse_instruction(&cmp).unwrap(),
        Instruction::CompareBitvec { bits: 32, predicate: ComparePredicate::LT, .. }
    ));
    let fence = inst(AType::Void, 6, Inst::Fence { ordering: "acquire".to_string(), scope: "system".to_string() });
    assert!(matches!(
        ctxt.parse_instruction(&fence).unwrap_err(),
        EngineError::NotSupportedYet(Unsupported::AtomicInstruction)
    ));
    let ret = inst(AType::Void, 7, Inst::Unreachable);
    assert_eq!(
        message(ctxt.parse_instruction(&ret).unwrap_err()),
        "[libra::invariant] malformed block with terminator instruction in the body"
    );
}

#[test]
fn calls_casts_and_aggregates() {
    let reg = registry();
    let sym = symbols();
    let mut ctxt = context(&reg, &sym);
    let fun_ty = AType::Function { params: vec![int_of(32)], variadic: false, ret: Box::new(int_of(32)) };
    let callee = AValue::Constant(AConstant { ty: ptr(), repr: Const::Function { name: Some("f".to_string()) } });
    let call = inst(int_of(32), 1, Inst::CallDirect { callee, target_type: fun_ty.duplicate(), args: vec![int_value(32, "4")] });
    match ctxt.parse_instruction(&call).unwrap() {
        Instruction::CallDirect { function, args, result } => {
            assert_eq!(function.as_str(), "f");
            assert_eq!(args.len(), 1);
            assert_eq!(result.unwrap().1, RegisterSlot(1));
        },
        _ => panic!("expected a direct call"),
    }
    let callee = AValue::Constant(AConstant { ty: ptr(), repr: Const::Function { name: Some("f".to_string()) } });
    let wrong = inst(int_of(32), 1, Inst::CallDirect { callee, target_type: fun_ty.duplicate(), args: vec![] });
    assert_eq!(
        message(ctxt.parse_instruction(&wrong).unwrap_err()),
        "[libra::assumption] CallInst number of arguments mismatch (exact)"
    );
    let zext = inst(
        int_of(64),
        2,
        Inst::Cast {
            opcode: "zext".to_string(),
            src_ty: int_of(32),
            dst_ty: int_of(64),
            src_address_space: None,
            dst_address_space: None,
            operand: int_value(32, "7"),
        },
    );
    assert!(matches!(
        ctxt.parse_instruction(&zext).unwrap(),
        Instruction::CastBitvecSize { bits_from: 32, bits_into: 64, .. }
    ));
    let pair_ty = AType::Struct { name: Some("pair".to_string()), fields: Some(vec![int_of(32), ptr()]) };
    let gep = inst(
        ptr(),
        3,
        Inst::GEP {
            src_pointee_ty: pair_ty.duplicate(),
            dst_pointee_ty: ptr(),
            pointer: AValue::Constant(AConstant { ty: ptr(), repr: Const::Null }),
            indices: vec![int_value(64, "0"), int_value(32, "1")],
            address_space: 0,
        },
    );
    match ctxt.parse_instruction(&gep).unwrap() {
        Instruction::GEP { indices, .. } => assert!(matches!(indices[0], GEPIndex::Struct(1))),
        _ => panic!("expected a GEP"),
    }
    let far = inst(
        ptr(),
        3,
        Inst::GEP {
            src_pointee_ty: pair_ty.duplicate(),
            dst_pointee_ty: ptr(),
            pointer: AValue::Constant(AConstant { ty: ptr(), repr: Const::Null }),
            indices: vec![int_value(64, "0"), int_value(32, "2")],
            address_space: 0,
        },
    );
    assert_eq!(message(ctxt.parse_instruction(&far).unwrap_err()), "[libra::assumption] field number out of range");
    let get = inst(
        ptr(),
        4,
        Inst::GetValue { from_ty: pair_ty.duplicate(), aggregate: register(pair_ty.duplicate(), 5), indices: vec![1] },
    );
    assert!(matches!(ctxt.parse_instruction(&get).unwrap(), Instruction::GetValue { .. }));
}

#[test]
fn phi_nodes_and_freezes() {
    let reg = registry();
    let sym = symbols();
    let mut ctxt = context(&reg, &sym);
    let phi = inst(
        int_of(32),
        1,
        Inst::Phi {
            options: vec![
                PhiOption { block: 100, value: int_value(32, "1") },
                PhiOption { block: 200, value: int_value(32, "2") },
                PhiOption { block: 100, value: int_value(32, "1") },
            ],
        },
    );
    match ctxt.parse_instruction(&phi).unwrap() {
        Instruction::Phi { options, .. } => {
            assert_eq!(options.len(), 2);
            assert_eq!(options[0].0, BlockLabel(100));
        },
        _ => panic!("expected a phi"),
    }
    let clash = inst(
        int_of(32),
        1,
        Inst::Phi {
            options: vec![
                PhiOption { block: 100, value: int_value(32, "1") },
                PhiOption { block: 100, value: int_value(32, "2") },
            ],
        },
    );
    assert_eq!(
        message(ctxt.parse_instruction(&clash).unwrap_err()),
        "[libra::invariant] duplicated edges into phi node with different values"
    );
    let freeze = inst(int_of(8), 2, Inst::Freeze { operand: AValue::Constant(AConstant { ty: int_of(8), repr: Const::Undef }) });
    assert!(matches!(
        ctxt.parse_instruction(&freeze).unwrap(),
        Instruction::FreezeBitvec { bits: 8, number: NumRepr::Int }
    ));
}

#[test]
fn terminators_are_read() {
    let reg = registry();
    let sym = symbols();
    let mut ctxt = context(&reg, &sym);
    let ret = inst(AType::Void, 1, Inst::Return { value: Some(int_value(32, "0")) });
    assert!(matches!(ctxt.parse_terminator(&ret).unwrap(), Terminator::Return { val: Some(_) }));
    let bare = inst(AType::Void, 1, Inst::Return { value: None });
    assert_eq!(message(ctxt.parse_terminator(&bare).unwrap_err()), "[libra::invariant] return type mismatch");
    let goto = inst(AType::Void, 1, Inst::Branch { cond: None, targets: vec![200] });
    assert!(matches!(ctxt.parse_terminator(&goto).unwrap(), Terminator::Goto { target: BlockLabel(200) }));
    let lost = inst(AType::Void, 1, Inst::Branch { cond: None, targets: vec![300] });
    assert_eq!(
        message(ctxt.parse_terminator(&lost).unwrap_err()),
        "[libra::assumption] unconditional branch to unknown target"
    );
    let branch = inst(AType::Void, 1, Inst::Branch { cond: Some(int_value(1, "1")), targets: vec![100, 200] });
    assert!(matches!(ctxt.parse_terminator(&branch).unwrap(), Terminator::Branch { .. }));
    let switch = inst(
        AType::Void,
        1,
        Inst::Switch {
            cond: register(int_of(32), 4),
            cond_ty: int_of(32),
            cases: vec![
                SwitchCase { block: 100, value: int_const(32, "1") },
                SwitchCase { block: 200, value: int_const(32, "2") },
                SwitchCase { block: 200, value: int_const(32, "1") },
            ],
            default: Some(100),
        },
    );
    match ctxt.parse_terminator(&switch).unwrap() {
        Terminator::Switch { cases, default, .. } => {
            assert_eq!(cases, vec![(1u64, BlockLabel(200)), (2u64, BlockLabel(200))]);
            assert_eq!(default, Some(BlockLabel(100)));
        },
        _ => panic!("expected a switch"),
    }
    let typed = inst(int_of(32), 1, Inst::Unreachable);
    assert_eq!(
        message(ctxt.parse_terminator(&typed).unwrap_err()),
        "[libra::assumption] all terminator instructions must have void type"
    );
    let invoke = inst(AType::Void, 1, Inst::Resume { value: int_value(32, "0") });
    assert!(matches!(
        ctxt.parse_terminator(&invoke).unwrap_err(),
        EngineError::NotSupportedYet(Unsupported::ExceptionHandling)
    ));
    let body = inst(AType::Void, 1, Inst::VAArg { pointer: register(ptr(), 1) });
    assert_eq!(
        message(ctxt.parse_terminator(&body).unwrap_err()),
        "[libra::invariant] malformed block with non-terminator instruction"
    );
}

fn adapted_block(label: usize, body: Vec<AInstruction>, terminator: AInstruction) -> libra::ir::adapter::cfg::Block {
    libra::ir::adapter::cfg::Block { label, name: None, body, terminator }
}

#[test]
fn graphs_are_built_from_blocks() {
    let reg = registry();
    let sym = symbols();
    let params = vec![Parameter { name: None, ty: int_ty(32), annotated_pointee_type: None }];
    let ret = Some(int_ty(32));
    let entry = adapted_block(
        10,
        vec![inst(
            int_of(1),
            1,
            Inst::Compare {
                predicate: "i_eq".to_string(),
                operand_type: int_of(32),
                lhs: AValue::Argument { ty: int_of(32), index: 0 },
                rhs: int_value(32, "0"),
            },
        )],
        inst(AType::Void, 2, Inst::Branch { cond: Some(register(int_of(1), 1)), targets: vec![30, 20] }),
    );
    let left = adapted_block(20, vec![], inst(AType::Void, 3, Inst::Return { value: Some(int_value(32, "1")) }));
    let right = adapted_block(30, vec![], inst(AType::Void, 4, Inst::Branch { cond: None, targets: vec![20] }));
    let blocks = vec![entry, left, right];
    let g = ControlFlowGraph::build(&reg, &sym, &params, &ret, &blocks).unwrap();
    assert_eq!(g.get_blocks(), vec![BlockLabel(10), BlockLabel(20), BlockLabel(30)]);
    let pairs: Vec<(usize, usize)> = g.edges.iter().map(|e| (e.0 .0, e.1 .0)).collect();
    assert_eq!(pairs, vec![(10, 20), (10, 30), (30, 20)]);
    assert!(matches!(g.edges[0].2, Edge::Branch(false)));
    assert!(matches!(g.edges[1].2, Edge::Branch(true)));
    assert!(matches!(g.edges[2].2, Edge::Goto));
    assert_eq!(g.get_successors(&BlockLabel(10)), vec![BlockLabel(30), BlockLabel(20)]);
    assert_eq!(g.get_predecessors(&BlockLabel(20)), vec![BlockLabel(30), BlockLabel(10)]);

    let twice = vec![
        adapted_block(10, vec![], inst(AType::Void, 1, Inst::Unreachable)),
        adapted_block(10, vec![], inst(AType::Void, 2, Inst::Unreachable)),
    ];
    assert_eq!(
        message(ControlFlowGraph::build(&reg, &sym, &params, &ret, &twice).unwrap_err()),
        "[libra::invariant] duplicated block labels"
    );
    let same_index = vec![
        adapted_block(10, vec![], inst(AType::Void, 1, Inst::Unreachable)),
        adapted_block(20, vec![], inst(AType::Void, 1, Inst::Unreachable)),
    ];
    assert_eq!(
        message(ControlFlowGraph::build(&reg, &sym, &params, &ret, &same_index).unwrap_err()),
        "[libra::invariant] duplicated instruction index"
    );
    let switch = vec![
        adapted_block(
            10,
            vec![],
            inst(
                AType::Void,
                1,
                Inst::Switch {
                    cond: AValue::Argument { ty: int_of(32), index: 0 },
                    cond_ty: int_of(32),
                    cases: vec![
                        SwitchCase { block: 20, value: int_const(32, "7") },
                        SwitchCase { block: 20, value: int_const(32, "3") },
                    ],
                    default: Some(20),
                },
            ),
        ),
        adapted_block(20, vec![], inst(AType::Void, 2, Inst::Unreachable)),
    ];
    let g = ControlFlowGraph::build(&reg, &sym, &params, &ret, &switch).unwrap();
    assert_eq!(g.edges.len(), 1);
    match &g.edges[0].2 {
        Edge::Switch(values) => assert_eq!(values, &vec![None, Some(3u64), Some(7u64)]),
        _ => panic!("expected a switch edge"),
    }
}

fn adapted_global(name: Option<&str>, defined: bool, exact: bool, init: Option<AConstant>) -> AGlobalVariable {
    AGlobalVariable {
        name: name.map(|n| n.to_string()),
        ty: int_of(32),
        is_defined: defined,
        is_exact: exact,
        is_const: false,
        is_thread_local: false,
        address_space: 0,
        initializer: init,
    }
}

#[test]
fn global_variables_are_converted() {
    let reg = registry();
    let sym = symbols();
    let g = GlobalVariable::convert(&adapted_global(Some("g"), true, true, Some(int_const(32, "3"))), &reg, &sym).unwrap();
    assert_eq!(g.name.as_str(), "g");
    assert!(!g.is_weak);
    assert!(matches!(g.initializer, Some(Constant::NumOne { bits: 32, value: NumValue::Int(3) })));
    assert_eq!(
        message(GlobalVariable::convert(&adapted_global(Some("g"), true, true, None), &reg, &sym).unwrap_err()),
        "[libra::assumption] defined global must have an initializer: g"
    );
    assert_eq!(
        message(GlobalVariable::convert(&adapted_global(Some("g"), false, true, Some(int_const(32, "3"))), &reg, &sym).unwrap_err()),
        "[libra::assumption] initializer found for an undefined global: g"
    );
    assert!(matches!(
        GlobalVariable::convert(&adapted_global(None, false, true, None), &reg, &sym).unwrap_err(),
        EngineError::NotSupportedYet(Unsupported::AnonymousGlobalVariable)
    ));
    let mut local = adapted_global(Some("t"), false, true, None);
    local.is_thread_local = true;
    assert!(matches!(
        GlobalVariable::convert(&local, &reg, &sym).unwrap_err(),
        EngineError::NotSupportedYet(Unsupported::ThreadLocalStorage)
    ));
}

#[test]
fn one_definition_rule_for_globals() {
    let reg = registry();
    let sym = symbols();
    let weak = |v: &str| GlobalVariable::convert(&adapted_global(Some("g"), true, false, Some(int_const(32, v))), &reg, &sym).unwrap();
    let strong = |v: &str| GlobalVariable::convert(&adapted_global(Some("g"), true, true, Some(int_const(32, v))), &reg, &sym).unwrap();
    let chosen = GlobalVariable::apply_odr(vec![weak("1"), strong("2"), weak("3")]).unwrap();
    assert!(matches!(chosen.initializer, Some(Constant::NumOne { value: NumValue::Int(2), .. })));
    assert_eq!(
        message(GlobalVariable::apply_odr(vec![strong("1"), strong("2")]).unwrap_err()),
        "[libra::assumption] no duplicated global variable: g"
    );
    assert!(GlobalVariable::apply_odr(vec![weak("1"), weak("1")]).unwrap().is_weak);
    assert!(matches!(
        GlobalVariable::apply_odr(vec![weak("1"), weak("2")]).unwrap_err(),
        EngineError::NotSupportedYet(Unsupported::WeakGlobalVariable)
    ));
    assert_eq!(message(GlobalVariable::apply_odr(vec![]).unwrap_err()), "[libra::invariant] no entries for ODR");
}

fn adapted_param(ty: AType) -> libra::ir::adapter::function::Parameter {
    libra::ir::adapter::function::Parameter {
        name: None,
        ty,
        by_val: None,
        by_ref: None,
        in_alloca: None,
        struct_ret: None,
        pre_allocated: None,
        element_type: None,
    }
}

fn adapted_function(
    name: Option<&str>,
    is_defined: bool,
    params: Vec<libra::ir::adapter::function::Parameter>,
    blocks: Vec<libra::ir::adapter::cfg::Block>,
) -> libra::ir::adapter::function::Function {
    libra::ir::adapter::function::Function {
        name: name.map(|n| n.to_string()),
        ty: AType::Function { params: vec![int_of(32)], variadic: false, ret: Box::new(int_of(32)) },
        is_defined,
        is_exact: true,
        is_intrinsic: false,
        params,
        blocks,
    }
}

#[test]
fn functions_are_converted() {
    let reg = registry();
    let sym = symbols();
    let body = vec![adapted_block(
        10,
        vec![],
        inst(AType::Void, 1, Inst::Return { value: Some(AValue::Argument { ty: int_of(32), index: 0 }) }),
    )];
    let f = libra::ir::function::Function::convert(
        &adapted_function(Some("f"), true, vec![adapted_param(int_of(32))], body),
        &reg,
        &sym,
    )
    .unwrap();
    assert_eq!(f.name.as_str(), "f");
    assert_eq!(f.params.len(), 1);
    assert!(!f.variadic);
    assert!(matches!(f.ret, Some(Type::Bitvec { bits: 32, .. })));
    assert!(!f.is_weak);
    assert_eq!(f.body.unwrap().get_blocks(), vec![BlockLabel(10)]);

    let declared = libra::ir::function::Function::convert(
        &adapted_function(Some("f"), false, vec![adapted_param(int_of(32))], vec![]),
        &reg,
        &sym,
    )
    .unwrap();
    assert!(declared.body.is_none());

    let anonymous = libra::ir::function::Function::convert(
        &adapted_function(None, false, vec![adapted_param(int_of(32))], vec![]),
        &reg,
        &sym,
    );
    assert!(matches!(anonymous, Err(EngineError::NotSupportedYet(Unsupported::AnonymousFunction))));

    let empty = libra::ir::function::Function::convert(
        &adapted_function(Some("f"), true, vec![adapted_param(int_of(32))], vec![]),
        &reg,
        &sym,
    );
    assert_eq!(
        message(empty.unwrap_err()),
        "[libra::assumption] a defined function must have at least one basic block: f"
    );

    let mismatch = libra::ir::function::Function::convert(&adapted_function(Some("f"), false, vec![], vec![]), &reg, &sym);
    assert_eq!(message(mismatch.unwrap_err()), "[libra::assumption] parameter count mismatch for function: f");
}

fn returning_block(label: usize, value: AValue) -> libra::ir::adapter::cfg::Block {
    adapted_block(label, vec![], inst(AType::Void, 1, Inst::Return { value: Some(value) }))
}

fn defined_function(name: &str, exact: bool, value: AValue) -> libra::ir::adapter::function::Function {
    let mut f = adapted_function(Some(name), true, vec![adapted_param(int_of(32))], vec![returning_block(10, value)]);
    f.is_exact = exact;
    f
}

fn arg0() -> AValue {
    AValue::Argument { ty: int_of(32), index: 0 }
}

#[test]
fn one_definition_rule_for_functions() {
    let reg = registry();
    let sym = symbols();
    let conv = |f: libra::ir::adapter::function::Function| libra::ir::function::Function::convert(&f, &reg, &sym).unwrap();
    let strong = conv(defined_function("f", true, arg0()));
    let weak_a = conv(defined_function("f", false, arg0()));
    let weak_b = conv(defined_function("f", false, arg0()));
    let weak_c = conv(defined_function("f", false, int_value(32, "1")));
    assert!(weak_a.same_as(&weak_b));
    assert!(!weak_a.same_as(&weak_c));
    assert!(!weak_a.same_as(&strong));
    let kept = libra::ir::function::Function::apply_odr(vec![weak_a, strong, weak_c]).unwrap();
    assert!(!kept.is_weak);
    let twice = libra::ir::function::Function::apply_odr(vec![
        conv(defined_function("f", true, arg0())),
        conv(defined_function("f", true, arg0())),
    ]);
    assert_eq!(message(twice.unwrap_err()), "[libra::assumption] no duplicated function: f");
    let same = libra::ir::function::Function::apply_odr(vec![
        conv(defined_function("f", false, arg0())),
        conv(defined_function("f", false, arg0())),
    ]);
    assert!(same.unwrap().is_weak);
    let differ = libra::ir::function::Function::apply_odr(vec![
        conv(defined_function("f", false, arg0())),
        conv(defined_function("f", false, int_value(32, "1"))),
    ]);
    assert!(matches!(differ, Err(EngineError::NotSupportedYet(Unsupported::WeakFunction))));
    assert_eq!(
        message(libra::ir::function::Function::apply_odr(vec![]).unwrap_err()),
        "[libra::invariant] no entries for ODR"
    );
    let f = conv(defined_function("f", true, arg0()));
    assert_eq!(f.collect_variables(), vec![]);
    let body = f.body.unwrap();
    assert_eq!(body.get_block_label_by_index(0), Some(BlockLabel(10)));
    assert_eq!(body.get_block_label_by_index(1), None);
}

fn adapted_module(
    asm_text: &str,
    globals: Vec<AGlobalVariable>,
    functions: Vec<libra::ir::adapter::function::Function>,
) -> libra::ir::adapter::module::Module {
    libra::ir::adapter::module::Module {
        name: "m".to_string(),
        asm_text: asm_text.to_string(),
        structs: vec![UserDefinedStruct { name: Some("pair".to_string()), fields: Some(vec![int_of(32), ptr()]) }],
        global_variables: globals,
        functions,
    }
}

#[test]
fn modules_are_converted() {
    let m = adapted_module(
        "",
        vec![
            adapted_global(Some("g"), true, false, Some(int_const(32, "1"))),
            adapted_global(Some("g"), true, true, Some(int_const(32, "2"))),
            adapted_global(Some("h"), false, true, None),
        ],
        vec![
            defined_function("f", false, arg0()),
            defined_function("f", false, arg0()),
            adapted_function(Some("e"), false, vec![adapted_param(int_of(32))], vec![]),
        ],
    );
    let module = libra::ir::module::Module::convert(&m).unwrap();
    assert_eq!(module.globals.len(), 2);
    let g = module.globals.iter().find(|g| g.name.as_str() == "g").unwrap();
    assert!(!g.is_weak);
    assert!(matches!(g.initializer, Some(Constant::NumOne { value: NumValue::Int(2), .. })));
    assert_eq!(module.functions.len(), 2);
    assert!(module.functions.iter().any(|f| f.name.as_str() == "e" && f.body.is_none()));
    assert!(module.symbols.has_function(&Identifier::from_str("f")));
    assert!(module.symbols.has_global(&Identifier::from_str("h")));
    assert!(libra::ir::module::fits_graph_index(&m));
    let again = libra::ir::module::Module::convert(&m).unwrap();
    assert!(module.same_as(&again));
    let other = adapted_module(
        "",
        vec![adapted_global(Some("g"), true, true, Some(int_const(32, "2")))],
        vec![defined_function("f", false, arg0())],
    );
    assert!(!module.same_as(&libra::ir::module::Module::convert(&other).unwrap()));
    let renumbered = adapted_module(
        "",
        vec![
            adapted_global(Some("g"), true, true, Some(int_const(32, "2"))),
            adapted_global(Some("h"), false, true, None),
        ],
        vec![
            adapted_function(Some("e"), false, vec![adapted_param(int_of(32))], vec![]),
            {
                let mut f = adapted_function(Some("f"), true, vec![adapted_param(int_of(32))], vec![returning_block(99, arg0())]);
                f.is_exact = false;
                f
            },
        ],
    );
    // bodies are compared up to the labels of their blocks
    assert!(module.same_as(&libra::ir::module::Module::convert(&renumbered).unwrap()));

    let assembly = adapted_module("nop", vec![], vec![]);
    assert!(matches!(
        libra::ir::module::Module::convert(&assembly),
        Err(EngineError::NotSupportedYet(Unsupported::ModuleLevelAssembly))
    ));

    // the failure on the least name is the one reported
    let clashing = adapted_module(
        "",
        vec![
            adapted_global(Some("z"), true, true, Some(int_const(32, "1"))),
            adapted_global(Some("z"), true, true, Some(int_const(32, "2"))),
            adapted_global(Some("a"), true, true, Some(int_const(32, "1"))),
            adapted_global(Some("a"), true, true, Some(int_const(32, "2"))),
        ],
        vec![],
    );
    assert_eq!(
        message(libra::ir::module::Module::convert(&clashing).unwrap_err()),
        "[libra::assumption] no duplicated global variable: a"
    );

    let weak_functions = adapted_module(
        "",
        vec![],
        vec![defined_function("f", false, arg0()), defined_function("f", false, int_value(32, "1"))],
    );
    assert!(matches!(
        libra::ir::module::Module::convert(&weak_functions),
        Err(EngineError::NotSupportedYet(Unsupported::WeakFunction))
    ));

    let undefined = adapted_module("", vec![adapted_global(Some("g"), true, true, None)], vec![]);
    assert_eq!(
        message(libra::ir::module::Module::convert(&undefined).unwrap_err()),
        "[libra::assumption] defined global must have an initializer: g"
    );
}

#[test]
fn unsupported_operations_have_distinct_texts() {
    let all = vec![
        Unsupported::ModuleLevelAssembly,
        Unsupported::InlineAssembly,
        Unsupported::CallBranch,
        Unsupported::GlobalAlias,
        Unsupported::GlobalMarker,
        Unsupported::FloatingPointOrdering,
        Unsupported::VectorOfPointers,
        Unsupported::ScalableVector,
        Unsupported::VectorBitcast,
        Unsupported::VariadicArguments,
        Unsupported::ArchSpecificExtension,
        Unsupported::TypedPointer,
        Unsupported::ThreadLocalStorage,
        Unsupported::WeakGlobalVariable,
        Unsupported::WeakFunction,
        Unsupported::HugeConstAggregate,
        Unsupported::PointerAddressSpace,
        Unsupported::OutOfBoundConstantGEP,
        Unsupported::InterfaceResolver,
        Unsupported::AnonymousFunction,
        Unsupported::AnonymousGlobalVariable,
        Unsupported::OpaqueType,
        Unsupported::IntrinsicsPreAllocated,
        Unsupported::IntrinsicsConvergence,
        Unsupported::IntrinsicsCoroutine,
        Unsupported::IntrinsicsEH,
        Unsupported::IntrinsicsGC,
        Unsupported::AtomicInstruction,
        Unsupported::WindowsEH,
        Unsupported::MetadataSystem,
        Unsupported::IndirectJump,
        Unsupported::ExceptionHandling,
    ];
    let texts: std::collections::BTreeSet<&str> = all.iter().map(|u| u.describe()).collect();
    assert_eq!(texts.len(), all.len());
}
