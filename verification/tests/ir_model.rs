use libra::error::{EngineError, Unsupported};
use libra::ir::adapter::function::Parameter as AdaptedParameter;
use libra::ir::adapter::typing::{Type as AdaptedType, UserDefinedStruct};
use libra::ir::cfg::{Block, ControlFlowGraph, Edge};
use libra::ir::constant::{Constant, Expression, GEPConstIndex, NumValue};
use libra::ir::function::Parameter;
use libra::ir::instruction::{GEPIndex, Instruction, Terminator};
use libra::ir::intrinsics::filter_intrinsics;
use libra::ir::operator::{
    BinaryOpArith, BinaryOpShift, BinaryOperator, CompareOperator, ComparePredicate, UnaryOpArith,
    UnaryOperator,
};
use libra::ir::shared::Identifier;
use libra::ir::typing::{NumRepr, Type, TypeRegistry, TypeToken};
use libra::ir::value::{BlockLabel, RegisterSlot, Value};

fn int_of(width: usize) -> AdaptedType {
    AdaptedType::Int { width, mask: if width >= 64 { u64::MAX } else { (1u64 << width) - 1 } }
}

fn ptr() -> AdaptedType {
    AdaptedType::Pointer { pointee: None, address_space: 0 }
}

fn named(name: &str, fields: Vec<AdaptedType>) -> AdaptedType {
    AdaptedType::Struct { name: Some(name.to_string()), fields: Some(fields) }
}

fn def(name: &str, fields: Vec<AdaptedType>) -> UserDefinedStruct {
    UserDefinedStruct { name: Some(name.to_string()), fields: Some(fields) }
}

fn message(e: EngineError) -> String {
    e.describe()
}

fn registry() -> TypeRegistry {
    TypeRegistry::populate(&vec![
        def("pair", vec![int_of(32), ptr()]),
        def("node", vec![named("pair", vec![int_of(32), ptr()]), int_of(8)]),
    ])
    .unwrap()
}

#[test]
fn types_are_converted() {
    let reg = registry();
    assert_eq!(reg.convert(&int_of(32)).unwrap().describe(), "int32");
    assert_eq!(
        reg.convert(&AdaptedType::Float { width: 64, name: "double".to_string() }).unwrap().describe(),
        "float64"
    );
    let arr = AdaptedType::Array { element: Box::new(int_of(8)), length: 16 };
    assert_eq!(reg.convert(&arr).unwrap().describe(), "int8[16]");
    let vec4 = AdaptedType::Vector { element: Box::new(int_of(32)), fixed: true, length: 4 };
    assert_eq!(reg.convert(&vec4).unwrap().describe(), "int32<4>");
    let node = named("node", vec![named("pair", vec![int_of(32), ptr()]), int_of(8)]);
    assert_eq!(reg.convert(&node).unwrap().describe(), "node{pair{int32,ptr},int8}");
    let fun = AdaptedType::Function { params: vec![int_of(32), ptr()], variadic: true, ret: Box::new(AdaptedType::Void) };
    assert_eq!(reg.convert(&fun).unwrap().describe(), "(int32,ptr, ...)->void");
    let anon = AdaptedType::Struct { name: None, fields: Some(vec![int_of(1)]) };
    assert_eq!(reg.convert(&anon).unwrap().describe(), "<anonymous>{int1}");
}

#[test]
fn unconvertible_types() {
    let reg = registry();
    assert_eq!(message(reg.convert(&AdaptedType::Void).unwrap_err()), "[libra::invariant] unexpected void type");
    assert_eq!(
        message(reg.convert(&AdaptedType::Label).unwrap_err()),
        "[libra::assumption] unexpected llvm primitive type: label"
    );
    assert!(matches!(
        reg.convert(&AdaptedType::Metadata).unwrap_err(),
        EngineError::NotSupportedYet(Unsupported::MetadataSystem)
    ));
    assert!(matches!(
        reg.convert(&AdaptedType::Other { name: "x86_amx".to_string() }).unwrap_err(),
        EngineError::NotSupportedYet(Unsupported::ArchSpecificExtension)
    ));
    assert!(matches!(
        reg.convert(&AdaptedType::Pointer { pointee: None, address_space: 1 }).unwrap_err(),
        EngineError::NotSupportedYet(Unsupported::PointerAddressSpace)
    ));
    let scalable = AdaptedType::Vector { element: Box::new(int_of(8)), fixed: false, length: 4 };
    assert!(matches!(
        reg.convert(&scalable).unwrap_err(),
        EngineError::NotSupportedYet(Unsupported::ScalableVector)
    ));
    let ptr_vec = AdaptedType::Vector { element: Box::new(ptr()), fixed: true, length: 2 };
    assert!(matches!(
        reg.convert(&ptr_vec).unwrap_err(),
        EngineError::NotSupportedYet(Unsupported::VectorOfPointers)
    ));
    let arr_vec = AdaptedType::Vector {
        element: Box::new(AdaptedType::Array { element: Box::new(int_of(8)), length: 2 }),
        fixed: true,
        length: 2,
    };
    assert_eq!(
        message(reg.convert(&arr_vec).unwrap_err()),
        "[libra::assumption] type cannot be vector element: int8[2]"
    );
    assert_eq!(
        message(reg.convert(&named("tree", vec![])).unwrap_err()),
        "[libra::assumption] reference to undefined named struct: tree"
    );
    assert_eq!(
        message(reg.convert(&named("pair", vec![int_of(64)])).unwrap_err()),
        "[libra::assumption] conflicting definition of named struct: pair"
    );
    assert_eq!(
        message(reg.convert(&AdaptedType::Struct { name: None, fields: None }).unwrap_err()),
        "[libra::assumption] no opaque struct under opaque pointer scheme"
    );
}

#[test]
fn registry_population_errors() {
    let anon = UserDefinedStruct { name: None, fields: Some(vec![]) };
    assert_eq!(
        message(TypeRegistry::populate(&vec![anon]).unwrap_err()),
        "[libra::assumption] user-defined struct type cannot be anonymous"
    );
    let opaque = UserDefinedStruct { name: Some("o".to_string()), fields: None };
    assert!(matches!(
        TypeRegistry::populate(&vec![opaque]).unwrap_err(),
        EngineError::NotSupportedYet(Unsupported::OpaqueType)
    ));
    assert_eq!(
        message(TypeRegistry::populate(&vec![def("a", vec![]), def("a", vec![])]).unwrap_err()),
        "[libra::assumption] no duplicated definition of struct: a"
    );
    // both fail; the one first by name decides the error
    let bad = TypeRegistry::populate(&vec![
        def("zeta", vec![AdaptedType::Label]),
        def("alpha", vec![AdaptedType::Token]),
    ]);
    assert_eq!(
        message(bad.unwrap_err()),
        "[libra::assumption] unexpected llvm primitive type: token"
    );
    assert_eq!(TypeRegistry::populate(&vec![]).unwrap().user_defined_structs.entries.len(), 0);
}

#[test]
fn tokens_and_types() {
    let reg = registry();
    let tok = TypeToken::parse(&AdaptedType::Void, &reg.user_defined_structs).unwrap();
    assert_eq!(tok.describe(), "void");
    assert!(Type::convert_token(&tok).is_err());
    let tok = TypeToken::parse(&named("pair", vec![int_of(32), ptr()]), &reg.user_defined_structs).unwrap();
    let ty = Type::convert_token(&tok).unwrap();
    assert!(ty.same_as(&ty.duplicate()));
    assert!(!ty.same_as(&Type::Pointer));
    assert_eq!(reg.user_defined_structs.lookup("pair").map(|v| v.len()), Some(2));
    assert!(reg.user_defined_structs.lookup("none").is_none());
}

#[test]
fn default_and_undefined_values() {
    let int32 = Type::Bitvec { bits: 32, number: NumRepr::Int, length: None };
    assert!(matches!(
        Constant::default_from_type(&int32).unwrap(),
        Constant::NumOne { bits: 32, value: NumValue::Int(0) }
    ));
    assert!(matches!(
        Constant::undef_from_type(&int32).unwrap(),
        Constant::NumOne { bits: 32, value: NumValue::IntUndef }
    ));
    assert!(matches!(Constant::default_from_type(&Type::Pointer).unwrap(), Constant::Null));
    assert!(matches!(Constant::undef_from_type(&Type::Pointer).unwrap(), Constant::UndefPointer));
    let arr = Type::Array { element: Box::new(Type::Pointer), length: 3 };
    match Constant::default_from_type(&arr).unwrap() {
        Constant::Array { elements, .. } => {
            assert_eq!(elements.len(), 3);
            assert!(elements.iter().all(|e| matches!(e, Constant::Null)));
        }
        other => panic!("unexpected {:?}", other),
    }
    let vec = Type::Bitvec { bits: 8, number: NumRepr::Float, length: Some(2) };
    match Constant::undef_from_type(&vec).unwrap() {
        Constant::NumVec { elements, .. } => {
            assert_eq!(elements.len(), 2);
            assert!(matches!(elements[0], Constant::NumOne { value: NumValue::FloatUndef, .. }));
        }
        other => panic!("unexpected {:?}", other),
    }
}

#[test]
fn values_that_cannot_be_filled() {
    let huge = Type::Array { element: Box::new(Type::Pointer), length: 65536 };
    assert!(matches!(
        Constant::default_from_type(&huge).unwrap_err(),
        EngineError::NotSupportedYet(Unsupported::HugeConstAggregate)
    ));
    let limit = Type::Bitvec { bits: 1, number: NumRepr::Int, length: Some(65535) };
    assert!(Constant::default_from_type(&limit).is_ok());
    let fun = Type::Function { params: vec![], variadic: false, ret: None };
    assert_eq!(
        message(Constant::default_from_type(&fun).unwrap_err()),
        "[libra::invariant] trying to create defaults for a function type: ()->void"
    );
    let st = Type::Struct { name: None, fields: vec![Type::Pointer, fun] };
    assert_eq!(
        message(Constant::undef_from_type(&st).unwrap_err()),
        "[libra::invariant] trying to create undef-body for a function type: ()->void"
    );
}

#[test]
fn operators_are_parsed() {
    assert_eq!(UnaryOperator::parse("fneg").unwrap(), UnaryOperator::Arithmetic(UnaryOpArith::Neg, NumRepr::Float));
    assert_eq!(
        message(UnaryOperator::parse("neg").unwrap_err()),
        "[libra::assumption] unexpected unary opcode: neg"
    );
    assert_eq!(
        BinaryOperator::parse("sdiv").unwrap(),
        BinaryOperator::Arithmetic(BinaryOpArith::Div, NumRepr::Int)
    );
    assert_eq!(BinaryOperator::parse("ashr").unwrap(), BinaryOperator::Shift(BinaryOpShift::Shr));
    assert_eq!(
        message(BinaryOperator::parse("nand").unwrap_err()),
        "[libra::assumption] unexpected binary opcode: nand"
    );
    assert_eq!(
        CompareOperator::parse("i_eq").unwrap(),
        CompareOperator::Pred(ComparePredicate::EQ, NumRepr::Int)
    );
    assert!(matches!(
        CompareOperator::parse("f_t").unwrap_err(),
        EngineError::NotSupportedYet(Unsupported::FloatingPointOrdering)
    ));
    assert_eq!(
        message(CompareOperator::parse("x").unwrap_err()),
        "[libra::assumption] unexpected compare predicate: x"
    );
}

#[test]
fn intrinsics_filter() {
    assert!(filter_intrinsics("llvm.memcpy.p0.p0.i64").is_ok());
    assert!(matches!(
        filter_intrinsics("llvm.coro.begin").unwrap_err(),
        EngineError::NotSupportedYet(Unsupported::IntrinsicsCoroutine)
    ));
    assert!(matches!(
        filter_intrinsics("llvm.eh.typeid.for").unwrap_err(),
        EngineError::NotSupportedYet(Unsupported::IntrinsicsEH)
    ));
}

#[test]
fn identifiers_and_values() {
    let a = Identifier::from_str("main");
    assert_eq!(a.as_str(), "main");
    assert!(a.same_name(&a.duplicate()));
    assert!(!a.same_name(&Identifier::from_str("other")));
    let c = Value::Constant(Constant::Null).expect_constant().unwrap();
    assert!(matches!(c, Constant::Null));
    let r = Value::Register { index: RegisterSlot(1), ty: Type::Pointer }.expect_constant();
    assert_eq!(message(r.unwrap_err()), "[libra::invariant] expect value to be a constant");
}

#[test]
fn parameters_are_checked() {
    let reg = registry();
    let plain = AdaptedParameter {
        name: Some("x".to_string()),
        ty: ptr(),
        by_val: Some(int_of(32)),
        by_ref: None,
        in_alloca: None,
        struct_ret: None,
        pre_allocated: None,
        element_type: Some(int_of(32)),
    };
    let p = Parameter::convert(&plain, &Type::Pointer, &reg).unwrap();
    assert_eq!(p.name.unwrap().as_str(), "x");
    assert_eq!(p.annotated_pointee_type.unwrap().describe(), "int32");

    let clash = AdaptedParameter { element_type: Some(int_of(8)), ..plain };
    assert_eq!(
        message(Parameter::convert(&clash, &Type::Pointer, &reg).unwrap_err()),
        "[libra::assumption] attribute element-type does not match with existing annotation"
    );
    let int_param = AdaptedParameter {
        name: None,
        ty: int_of(32),
        by_val: None,
        by_ref: Some(int_of(32)),
        in_alloca: None,
        struct_ret: None,
        pre_allocated: None,
        element_type: None,
    };
    let int32 = Type::Bitvec { bits: 32, number: NumRepr::Int, length: None };
    assert_eq!(
        message(Parameter::convert(&int_param, &int32, &reg).unwrap_err()),
        "[libra::assumption] only pointer parameters can have attribute by-ref"
    );
    assert_eq!(
        message(Parameter::convert(&int_param, &Type::Pointer, &reg).unwrap_err()),
        "[libra::assumption] parameter type mismatch: expect ptr, actual int32"
    );
}

#[test]
fn control_flow_graph_queries() {
    let add = Instruction::BinaryArith {
        bits: 32,
        number: NumRepr::Int,
        length: None,
        opcode: BinaryOpArith::Add,
        lhs: Value::Constant(Constant::Null),
        rhs: Value::Constant(Constant::Null),
        result: RegisterSlot(7),
    };
    assert_eq!(add.result_register(), Some(RegisterSlot(7)));
    let store = Instruction::Store { pointee_type: Type::Pointer, pointer: Value::Constant(Constant::Null), value: Value::Constant(Constant::Null) };
    assert_eq!(store.result_register(), None);
    let cfg = ControlFlowGraph::new(
        vec![
            (BlockLabel(0), Block { sequence: vec![add], terminator: Terminator::Goto { target: BlockLabel(2) } }),
            (BlockLabel(2), Block { sequence: vec![store], terminator: Terminator::Return { val: None } }),
            (BlockLabel(1), Block { sequence: vec![], terminator: Terminator::Goto { target: BlockLabel(2) } }),
        ],
        vec![
            (BlockLabel(0), BlockLabel(2), Edge::Goto),
            (BlockLabel(1), BlockLabel(2), Edge::Branch(true)),
        ],
    )
    .unwrap();
    assert_eq!(cfg.get_blocks(), vec![BlockLabel(0), BlockLabel(2), BlockLabel(1)]);
    assert_eq!(cfg.get_successors(&BlockLabel(0)), vec![BlockLabel(2)]);
    // the most recently added edge comes first
    assert_eq!(cfg.get_predecessors(&BlockLabel(2)), vec![BlockLabel(1), BlockLabel(0)]);
    assert!(cfg.get_predecessors(&BlockLabel(0)).is_empty());
    assert_eq!(cfg.collect_variables(), vec![RegisterSlot(7)]);
    assert_eq!(cfg.get_block_by_label(&BlockLabel(2)).unwrap().get_instructions().len(), 1);
    assert!(cfg.get_block_by_label(&BlockLabel(5)).is_none());
}

fn last_register() -> RegisterSlot {
    RegisterSlot(usize::MAX)
}

fn null() -> Value {
    Value::Constant(Constant::Null)
}

#[test]
fn constant_expressions_from_instructions() {
    let add = Instruction::BinaryArith {
        bits: 32,
        number: NumRepr::Int,
        length: None,
        opcode: BinaryOpArith::Add,
        lhs: Value::Constant(Constant::NumOne { bits: 32, value: NumValue::Int(1) }),
        rhs: Value::Constant(Constant::NumOne { bits: 32, value: NumValue::Int(2) }),
        result: last_register(),
    };
    match Expression::from_instruction(add).unwrap() {
        Expression::BinaryArith { bits: 32, opcode: BinaryOpArith::Add, lhs, rhs, .. } => {
            assert!(matches!(lhs, Constant::NumOne { value: NumValue::Int(1), .. }));
            assert!(matches!(rhs, Constant::NumOne { value: NumValue::Int(2), .. }));
        }
        other => panic!("unexpected {:?}", other),
    }
    let gep = Instruction::GEP {
        src_pointee_type: Type::Pointer,
        dst_pointee_type: Type::Pointer,
        pointer: null(),
        offset: null(),
        indices: vec![GEPIndex::Struct(3), GEPIndex::Array(null())],
        result: last_register(),
    };
    match Expression::from_instruction(gep).unwrap() {
        Expression::GEP { indices, .. } => {
            assert_eq!(indices.len(), 2);
            assert!(matches!(indices[0], GEPConstIndex::Struct(3)));
            assert!(matches!(indices[1], GEPConstIndex::Array(Constant::Null)));
        }
        other => panic!("unexpected {:?}", other),
    }
}

#[test]
fn constant_expressions_need_constant_operands() {
    let cast = Instruction::CastPtr {
        operand: Value::Register { index: RegisterSlot(0), ty: Type::Pointer },
        result: last_register(),
    };
    assert_eq!(
        message(Expression::from_instruction(cast).unwrap_err()),
        "[libra::invariant] expect value to be a constant"
    );
    let gep = Instruction::GEP {
        src_pointee_type: Type::Pointer,
        dst_pointee_type: Type::Pointer,
        pointer: null(),
        offset: null(),
        indices: vec![GEPIndex::Vector(Value::Register { index: RegisterSlot(1), ty: Type::Pointer })],
        result: last_register(),
    };
    assert_eq!(
        message(Expression::from_instruction(gep).unwrap_err()),
        "[libra::invariant] expect value to be a constant"
    );
    let load = Instruction::Load { pointee_type: Type::Pointer, pointer: null(), result: RegisterSlot(0) };
    assert_eq!(
        message(Expression::from_instruction(load).unwrap_err()),
        "[libra::assumption] unexpected instruction type for const expr"
    );
}

fn empty_block(target: usize) -> Block {
    Block { sequence: vec![], terminator: Terminator::Goto { target: BlockLabel(target) } }
}

#[test]
fn graphs_are_checked_when_built() {
    let dup = ControlFlowGraph::new(vec![(BlockLabel(0), empty_block(0)), (BlockLabel(0), empty_block(0))], vec![]);
    assert_eq!(message(dup.unwrap_err()), "[libra::invariant] duplicated block labels");
    let unknown = ControlFlowGraph::new(
        vec![(BlockLabel(0), empty_block(1))],
        vec![(BlockLabel(0), BlockLabel(1), Edge::Goto)],
    );
    assert_eq!(message(unknown.unwrap_err()), "[libra::invariant] edge to an unknown block in CFG");
    let twice = ControlFlowGraph::new(
        vec![(BlockLabel(0), empty_block(1)), (BlockLabel(1), empty_block(1))],
        vec![(BlockLabel(0), BlockLabel(1), Edge::Goto), (BlockLabel(0), BlockLabel(1), Edge::Branch(true))],
    );
    assert_eq!(message(twice.unwrap_err()), "[libra::invariant] duplicated edge in CFG");
}

#[test]
fn successors_come_latest_first() {
    let cfg = ControlFlowGraph::new(
        vec![
            (BlockLabel(0), empty_block(1)),
            (BlockLabel(1), empty_block(1)),
            (BlockLabel(2), empty_block(2)),
        ],
        vec![
            (BlockLabel(0), BlockLabel(1), Edge::Branch(true)),
            (BlockLabel(0), BlockLabel(2), Edge::Branch(false)),
            (BlockLabel(1), BlockLabel(1), Edge::Goto),
        ],
    )
    .unwrap();
    assert_eq!(cfg.get_successors(&BlockLabel(0)), vec![BlockLabel(2), BlockLabel(1)]);
    assert_eq!(cfg.get_successors(&BlockLabel(1)), vec![BlockLabel(1)]);
    assert_eq!(cfg.get_predecessors(&BlockLabel(1)), vec![BlockLabel(1), BlockLabel(0)]);
    assert!(cfg.get_successors(&BlockLabel(2)).is_empty());
}
