//! Lifetimes, registers and bytecode of hand-written functions.

use myula::backend::translator::emitter::{BytecodeEmitter, EmitError, MAX_CONSTANTS};
use myula::backend::translator::scanner::{
    FunctionScan, InferredType, Lifetime, ScanError, Scanner, VarKind, SCAN_LIMIT, STRIDE,
};
use myula::common::object::LuaValue;
use myula::common::opcode::OpCode;
use myula::frontend::ir::{
    IRBasicBlock, IRBinOp, IRFunction, IRInstruction, IRModule, IROperand, IRTerminator, IRUnOp,
};

fn num(x: f64) -> IROperand {
    IROperand::ImmFloat(x.to_bits())
}

fn text(s: &str) -> IROperand {
    IROperand::ImmStr(s.to_string())
}

fn reg(n: usize) -> IROperand {
    IROperand::Reg(n)
}

fn block(id: usize, instructions: Vec<IRInstruction>, terminator: IRTerminator) -> IRBasicBlock {
    IRBasicBlock { id, instructions, terminator }
}

fn function(name: &str, locals: Vec<(&str, usize)>, blocks: Vec<IRBasicBlock>) -> IRFunction {
    IRFunction {
        name: name.to_string(),
        params: vec![],
        basic_blocks: blocks,
        local_variables: locals.into_iter().map(|(n, s)| (n.to_string(), s)).collect(),
        upvalues: vec![],
        sub_functions: vec![],
    }
}

fn scan(func: &IRFunction) -> FunctionScan {
    let module = IRModule { functions: vec![func.clone()] };
    let mut scanner = Scanner::new();
    scanner.global_scan(&module).expect("scan");
    assert_eq!(scanner.functions.len(), 1);
    scanner.functions.remove(0)
}

fn lower(func: &IRFunction) -> Result<(Vec<OpCode>, Vec<LuaValue>), EmitError> {
    let s = scan(func);
    BytecodeEmitter::new(func, &s).emit()
}

fn life(start: usize, end: usize, is_fixed: bool, ty: Option<InferredType>) -> Lifetime {
    Lifetime { start, end, is_fixed, inferred_type: ty }
}

fn straight_line() -> IRFunction {
    function(
        "_start",
        vec![("a", 0)],
        vec![block(
            0,
            vec![
                IRInstruction::LoadImm { dest: 0, value: num(1.0) },
                IRInstruction::StoreLocal { dest: 1, dst: IROperand::Slot(0), src: reg(0) },
                IRInstruction::LoadLocal { dest: 2, src: IROperand::Slot(0) },
                IRInstruction::Binary { dest: 3, src1: reg(2), src2: reg(0), operator: IRBinOp::Add },
            ],
            IRTerminator::Return(vec![reg(3)]),
        )],
    )
}

fn call_of_global() -> IRFunction {
    function(
        "_start",
        vec![],
        vec![block(
            0,
            vec![
                IRInstruction::LoadGlobal { dest: 0, name: text("f") },
                IRInstruction::LoadImm { dest: 1, value: num(1.0) },
                IRInstruction::Call { dest: 2, callee: reg(0), args: vec![reg(1)] },
            ],
            IRTerminator::Return(vec![]),
        )],
    )
}

#[test]
fn a_lifetime_runs_from_the_definition_to_the_last_use() {
    let s = scan(&straight_line());
    assert_eq!(
        s.lifetimes,
        vec![
            (VarKind::Slot(0), life(0, 2, true, Some(InferredType::Float))),
            (VarKind::Reg(0), life(0, 3, false, Some(InferredType::Float))),
            (VarKind::Reg(1), life(1, 1, false, None)),
            (VarKind::Reg(2), life(2, 3, false, None)),
            (VarKind::Reg(3), life(3, 4, false, None)),
        ]
    );
}

#[test]
fn every_lifetime_starts_before_it_ends_and_covers_its_uses() {
    let func = straight_line();
    let s = scan(&func);
    for (_, l) in &s.lifetimes {
        assert!(l.start <= l.end);
    }
    assert!(s.lifetime_of(VarKind::Reg(0)).unwrap().end >= 3);
    assert!(s.lifetime_of(VarKind::Reg(2)).unwrap().end >= 3);
    assert!(s.lifetime_of(VarKind::Reg(3)).unwrap().end >= 4);
    assert!(s.lifetime_of(VarKind::Slot(0)).unwrap().end >= 2);
    assert_eq!(s.lifetime_of(VarKind::Reg(9)), None);
}

#[test]
fn a_local_slot_has_the_register_of_its_number() {
    let s = scan(&straight_line());
    assert_eq!(s.phys_reg(VarKind::Slot(0)), Some(0));
    assert_eq!(s.num_locals, 1);
}

#[test]
fn temporaries_take_the_lowest_free_register_a_stride_apart() {
    let s = scan(&straight_line());
    assert_eq!(STRIDE, 4);
    assert_eq!(
        s.reg_map,
        vec![
            (VarKind::Slot(0), 0),
            (VarKind::Reg(0), 1),
            (VarKind::Reg(1), 5),
            (VarKind::Reg(2), 5),
            (VarKind::Reg(3), 9),
        ]
    );
    assert_eq!(s.phys_reg(VarKind::Reg(3)), Some(9));
    assert_eq!(s.phys_reg(VarKind::Reg(4)), None);
}

#[test]
fn the_frame_reaches_a_stride_beyond_the_highest_temporary() {
    let s = scan(&straight_line());
    assert_eq!((s.num_locals, s.max_stack), (1, 17));
    let empty = scan(&function("_start", vec![], vec![block(0, vec![], IRTerminator::Return(vec![]))]));
    assert_eq!((empty.num_locals, empty.max_stack), (0, 4));
    assert!(empty.lifetimes.is_empty());
    let locals_only = scan(&function(
        "_start",
        vec![("a", 0), ("b", 1), ("c", 2)],
        vec![block(0, vec![], IRTerminator::Return(vec![]))],
    ));
    assert_eq!((locals_only.num_locals, locals_only.max_stack), (3, 7));
}

#[test]
fn overlapping_temporaries_never_share_a_register() {
    let mut instructions = Vec::new();
    for i in 0..40usize {
        instructions.push(IRInstruction::LoadImm { dest: i, value: num(i as f64) });
    }
    for i in 0..20usize {
        instructions.push(IRInstruction::Binary {
            dest: 40 + i,
            src1: reg(i),
            src2: reg(39 - i),
            operator: IRBinOp::Add,
        });
    }
    for i in 0..10usize {
        instructions.push(IRInstruction::Unary { dest: 60 + i, operator: IRUnOp::Neg, src: reg(40 + 2 * i) });
    }
    let func = function("_start", vec![("a", 0), ("b", 1)], vec![block(0, instructions, IRTerminator::Return(vec![reg(69)]))]);
    let s = scan(&func);
    let temps: Vec<(Lifetime, usize)> = s
        .lifetimes
        .iter()
        .zip(s.reg_map.iter())
        .filter(|(l, _)| matches!(l.0, VarKind::Reg(_)))
        .map(|(l, r)| (l.1, r.1))
        .collect();
    assert_eq!(temps.len(), 70);
    for (i, (a, ra)) in temps.iter().enumerate() {
        assert!(*ra >= s.num_locals);
        assert_eq!((*ra - s.num_locals) % STRIDE, 0);
        assert!(*ra + 2 * STRIDE <= s.max_stack);
        for (b, rb) in temps.iter().skip(i + 1) {
            if a.start <= b.end && b.start <= a.end {
                assert!(ra + STRIDE <= *rb || rb + STRIDE <= *ra, "{:?} {:?}", a, b);
            }
        }
    }
}

#[test]
fn a_call_keeps_its_callee_and_arguments_alive_one_step_longer() {
    let s = scan(&call_of_global());
    assert_eq!(
        s.lifetimes,
        vec![
            (VarKind::Reg(0), life(0, 3, false, None)),
            (VarKind::Reg(1), life(1, 3, false, Some(InferredType::Float))),
            (VarKind::Reg(2), life(2, 2, false, None)),
        ]
    );
    assert_eq!(s.reg_map, vec![(VarKind::Reg(0), 0), (VarKind::Reg(1), 4), (VarKind::Reg(2), 8)]);
    assert_eq!(s.max_stack, 16);
}

#[test]
fn immediates_give_their_type_and_stores_pass_it_on() {
    let func = function(
        "_start",
        vec![("a", 0), ("b", 1), ("c", 2), ("d", 3)],
        vec![block(
            0,
            vec![
                IRInstruction::LoadImm { dest: 0, value: text("s") },
                IRInstruction::StoreLocal { dest: 1, dst: IROperand::Slot(0), src: reg(0) },
                IRInstruction::LoadImm { dest: 2, value: IROperand::ImmBool(true) },
                IRInstruction::StoreLocal { dest: 3, dst: IROperand::Slot(1), src: reg(2) },
                IRInstruction::LoadImm { dest: 4, value: IROperand::Nil },
                IRInstruction::StoreLocal { dest: 5, dst: IROperand::Slot(2), src: reg(4) },
            ],
            IRTerminator::Return(vec![]),
        )],
    );
    let s = scan(&func);
    assert_eq!(s.lifetime_of(VarKind::Reg(0)).unwrap().inferred_type, Some(InferredType::String));
    assert_eq!(s.lifetime_of(VarKind::Slot(0)).unwrap().inferred_type, Some(InferredType::String));
    assert_eq!(s.lifetime_of(VarKind::Reg(2)).unwrap().inferred_type, Some(InferredType::Boolean));
    assert_eq!(s.lifetime_of(VarKind::Slot(1)).unwrap().inferred_type, Some(InferredType::Boolean));
    assert_eq!(s.lifetime_of(VarKind::Reg(4)).unwrap().inferred_type, Some(InferredType::Nil));
    assert_eq!(s.lifetime_of(VarKind::Slot(2)).unwrap().inferred_type, Some(InferredType::Nil));
    assert_eq!(s.lifetime_of(VarKind::Slot(3)).unwrap().inferred_type, None);
    assert!(s.lifetime_of(VarKind::Slot(3)).unwrap().is_fixed);
    assert_eq!(s.lifetime_of(VarKind::Slot(3)).unwrap().start, 0);
}

#[test]
fn the_scanner_lists_the_globals_that_are_read_by_name() {
    let module = IRModule { functions: vec![call_of_global(), call_of_global(), straight_line()] };
    let mut scanner = Scanner::new();
    scanner.global_scan(&module).unwrap();
    assert_eq!(scanner.global_vars, vec!["f".to_string()]);
    assert_eq!(scanner.functions.len(), 3);
    assert_eq!(scanner.find_function(&"_start".to_string()), Some(0));
    assert_eq!(scanner.find_function(&"other".to_string()), None);
}

#[test]
fn a_function_with_a_slot_beyond_the_limit_is_refused() {
    let big = function("big", vec![("x", SCAN_LIMIT + 1)], vec![]);
    let module = IRModule { functions: vec![straight_line(), big, call_of_global()] };
    let mut scanner = Scanner::new();
    assert_eq!(scanner.global_scan(&module), Err(ScanError::TooLarge(1)));
    assert_eq!(scanner.functions.len(), 1);
    let edge = function("edge", vec![("x", SCAN_LIMIT)], vec![]);
    let mut scanner = Scanner::new();
    assert_eq!(scanner.global_scan(&IRModule { functions: vec![edge] }), Ok(()));
    assert_eq!(scanner.functions[0].num_locals, SCAN_LIMIT + 1);
}

#[test]
fn straight_line_code_is_lowered_instruction_by_instruction() {
    let (code, pool) = lower(&straight_line()).unwrap();
    assert_eq!(
        code,
        vec![
            OpCode::LoadK { dest: 1, const_idx: 0 },
            OpCode::Move { dest: 0, src: 1 },
            OpCode::Move { dest: 5, src: 1 },
            OpCode::Move { dest: 5, src: 0 },
            OpCode::Add { dest: 9, left: 5, right: 1 },
            OpCode::Return { start: 9, count: 1 },
        ]
    );
    assert_eq!(pool, vec![LuaValue::Number(1.0f64.to_bits())]);
}

#[test]
fn a_call_moves_its_arguments_above_the_callee() {
    let (code, pool) = lower(&call_of_global()).unwrap();
    assert_eq!(
        code,
        vec![
            OpCode::GetGlobal { dest: 0, name_idx: 0 },
            OpCode::LoadK { dest: 4, const_idx: 1 },
            OpCode::Move { dest: 1, src: 4 },
            OpCode::Call { func_reg: 0, argc: 1, retc: 1 },
            OpCode::Move { dest: 8, src: 0 },
            OpCode::Return { start: 0, count: 0 },
        ]
    );
    assert_eq!(
        pool,
        vec![LuaValue::TempString("f".to_string()), LuaValue::Number(1.0f64.to_bits())]
    );
}

#[test]
fn equal_constants_share_one_pool_entry() {
    let func = function(
        "_start",
        vec![],
        vec![block(
            0,
            vec![
                IRInstruction::LoadImm { dest: 0, value: text("a") },
                IRInstruction::LoadImm { dest: 1, value: num(1.0) },
                IRInstruction::LoadImm { dest: 2, value: text("a") },
                IRInstruction::LoadImm { dest: 3, value: num(1.0) },
                IRInstruction::LoadImm { dest: 4, value: text("b") },
                IRInstruction::LoadGlobal { dest: 5, name: text("a") },
            ],
            IRTerminator::Return(vec![]),
        )],
    );
    let (code, pool) = lower(&func).unwrap();
    assert_eq!(
        pool,
        vec![
            LuaValue::TempString("a".to_string()),
            LuaValue::Number(1.0f64.to_bits()),
            LuaValue::TempString("b".to_string()),
        ]
    );
    let indices: Vec<u16> = code
        .iter()
        .filter_map(|op| match op {
            OpCode::LoadK { const_idx, .. } => Some(*const_idx),
            OpCode::GetGlobal { name_idx, .. } => Some(*name_idx),
            _ => None,
        })
        .collect();
    assert_eq!(indices, vec![0, 1, 0, 1, 2, 0]);
}

#[test]
fn adding_a_constant_twice_gives_the_same_index() {
    let func = straight_line();
    let s = scan(&func);
    let mut emitter = BytecodeEmitter::new(&func, &s);
    let a = emitter.add_constant(LuaValue::Number(2.0f64.to_bits())).unwrap();
    let b = emitter.add_constant(LuaValue::TempString("x".to_string())).unwrap();
    let c = emitter.add_constant(LuaValue::Number(2.0f64.to_bits())).unwrap();
    let d = emitter.add_constant(LuaValue::TempString("x".to_string())).unwrap();
    let e = emitter.add_constant(LuaValue::Nil).unwrap();
    let f = emitter.add_constant(LuaValue::Nil).unwrap();
    assert_eq!((a, b, c, d, e, f), (0, 1, 0, 1, 2, 2));
    assert_eq!(emitter.constants.len(), 3);
    let zero = emitter.add_constant(LuaValue::Number(0.0f64.to_bits())).unwrap();
    let minus_zero = emitter.add_constant(LuaValue::Number((-0.0f64).to_bits())).unwrap();
    assert_ne!(zero, minus_zero);
}

#[test]
fn booleans_and_nil_need_no_pool_entry() {
    let func = function(
        "_start",
        vec![],
        vec![block(
            0,
            vec![
                IRInstruction::LoadImm { dest: 0, value: IROperand::ImmBool(true) },
                IRInstruction::LoadImm { dest: 1, value: IROperand::ImmBool(false) },
                IRInstruction::LoadImm { dest: 2, value: IROperand::Nil },
            ],
            IRTerminator::Return(vec![]),
        )],
    );
    let (code, pool) = lower(&func).unwrap();
    assert!(pool.is_empty());
    assert_eq!(
        code,
        vec![
            OpCode::LoadBool { dest: 0, value: true },
            OpCode::LoadBool { dest: 0, value: false },
            OpCode::LoadNil { dest: 0 },
            OpCode::Return { start: 0, count: 0 },
        ]
    );
}

#[test]
fn jumps_are_measured_from_the_jump_to_the_start_of_the_block() {
    let func = function(
        "_start",
        vec![],
        vec![
            block(
                0,
                vec![IRInstruction::LoadImm { dest: 0, value: IROperand::ImmBool(true) }],
                IRTerminator::Branch { cond: reg(0), br_true: 1, br_false: 2 },
            ),
            block(
                1,
                vec![IRInstruction::LoadImm { dest: 1, value: IROperand::Nil }],
                IRTerminator::Jump(3),
            ),
            block(
                2,
                vec![IRInstruction::LoadImm { dest: 2, value: IROperand::Nil }],
                IRTerminator::FallThrough,
            ),
            block(3, vec![], IRTerminator::Jump(0)),
        ],
    );
    let (code, _) = lower(&func).unwrap();
    assert_eq!(
        code,
        vec![
            OpCode::LoadBool { dest: 0, value: true },
            OpCode::Test { reg: 0 },
            OpCode::Jump { offset: 2 },
            OpCode::Jump { offset: 3 },
            OpCode::LoadNil { dest: 0 },
            OpCode::Jump { offset: 2 },
            OpCode::LoadNil { dest: 0 },
            OpCode::Jump { offset: -7 },
        ]
    );
}

#[test]
fn an_operand_without_a_register_is_refused() {
    let func = function("_start", vec![], vec![block(0, vec![], IRTerminator::Return(vec![reg(7)]))]);
    assert_eq!(lower(&func), Err(EmitError::UnallocatedVariable(VarKind::Reg(7))));
}

#[test]
fn a_register_beyond_sixteen_bits_is_refused() {
    let func = function(
        "_start",
        vec![("x", 70000)],
        vec![block(
            0,
            vec![IRInstruction::LoadLocal { dest: 0, src: IROperand::Slot(70000) }],
            IRTerminator::Return(vec![]),
        )],
    );
    assert!(matches!(lower(&func), Err(EmitError::RegisterOutOfRange(_))));
}

#[test]
fn a_full_pool_takes_no_new_constant() {
    let mut instructions = Vec::new();
    for i in 0..MAX_CONSTANTS {
        instructions.push(IRInstruction::LoadImm { dest: i, value: num(i as f64) });
    }
    let full = function("_start", vec![], vec![block(0, instructions.clone(), IRTerminator::Return(vec![]))]);
    let (_, pool) = lower(&full).unwrap();
    assert_eq!(pool.len(), MAX_CONSTANTS);
    instructions.push(IRInstruction::LoadImm { dest: MAX_CONSTANTS, value: num(0.5) });
    let over = function("_start", vec![], vec![block(0, instructions, IRTerminator::Return(vec![]))]);
    assert_eq!(lower(&over), Err(EmitError::TooManyConstants));
}

#[test]
fn a_call_with_too_many_arguments_is_refused() {
    let call = |n: usize| {
        function(
            "_start",
            vec![],
            vec![block(
                0,
                vec![
                    IRInstruction::LoadImm { dest: 0, value: IROperand::Nil },
                    IRInstruction::Call { dest: 1, callee: reg(0), args: vec![reg(0); n] },
                ],
                IRTerminator::Return(vec![]),
            )],
        )
    };
    assert!(lower(&call(255)).is_ok());
    assert_eq!(lower(&call(256)), Err(EmitError::TooManyArguments(256)));
}

#[test]
fn a_jump_to_an_unknown_block_is_refused() {
    let func = function("_start", vec![], vec![block(0, vec![], IRTerminator::Jump(9))]);
    assert_eq!(lower(&func), Err(EmitError::UnknownBlock(9)));
}

#[test]
fn an_unknown_prototype_is_refused() {
    let mut func = function(
        "_start",
        vec![],
        vec![block(
            0,
            vec![IRInstruction::FnProto { dest: 0, func_proto: IROperand::Proto("g".to_string()) }],
            IRTerminator::Return(vec![]),
        )],
    );
    assert_eq!(lower(&func), Err(EmitError::UnknownPrototype("g".to_string())));
    func.sub_functions = vec!["f".to_string(), "g".to_string()];
    let (code, pool) = lower(&func).unwrap();
    assert_eq!(code[0], OpCode::FnProto { dest: 0, proto_idx: 1 });
    assert!(pool.is_empty());
}

#[test]
fn an_operand_of_the_wrong_kind_is_refused() {
    let with = |instruction: IRInstruction| {
        function("_start", vec![("x", 0)], vec![block(0, vec![instruction], IRTerminator::Return(vec![]))])
    };
    let cases = vec![
        IRInstruction::LoadLocal { dest: 0, src: reg(0) },
        IRInstruction::LoadImm { dest: 0, value: reg(0) },
        IRInstruction::StoreLocal { dest: 0, dst: reg(0), src: IROperand::Slot(0) },
        IRInstruction::LoadUpVal { dest: 0, src: IROperand::Slot(0) },
        IRInstruction::FnProto { dest: 0, func_proto: text("f") },
    ];
    for instruction in cases {
        assert_eq!(lower(&with(instruction.clone())), Err(EmitError::InvalidOperand), "{:?}", instruction);
    }
}

#[test]
fn an_immediate_operand_stands_for_register_zero() {
    let func = function(
        "_start",
        vec![],
        vec![block(
            0,
            vec![IRInstruction::Binary { dest: 0, src1: num(1.0), src2: num(2.0), operator: IRBinOp::Add }],
            IRTerminator::Return(vec![num(1.0)]),
        )],
    );
    let (code, pool) = lower(&func).unwrap();
    assert_eq!(
        code,
        vec![OpCode::Add { dest: 0, left: 0, right: 0 }, OpCode::Return { start: 0, count: 0 }]
    );
    assert!(pool.is_empty());
}

#[test]
fn every_binary_operator_has_its_instruction() {
    let cases = [
        (IRBinOp::Add, OpCode::Add { dest: 8, left: 0, right: 4 }),
        (IRBinOp::Sub, OpCode::Sub { dest: 8, left: 0, right: 4 }),
        (IRBinOp::Mul, OpCode::Mul { dest: 8, left: 0, right: 4 }),
        (IRBinOp::Div, OpCode::Div { dest: 8, left: 0, right: 4 }),
        (IRBinOp::Pow, OpCode::Pow { dest: 8, left: 0, right: 4 }),
        (IRBinOp::Concat, OpCode::Concat { dest: 8, left: 0, right: 4 }),
        (IRBinOp::Eq, OpCode::Eq { dest: 8, left: 0, right: 4 }),
        (IRBinOp::Neq, OpCode::Ne { dest: 8, left: 0, right: 4 }),
        (IRBinOp::Lt, OpCode::Lt { dest: 8, left: 0, right: 4 }),
        (IRBinOp::Gt, OpCode::Gt { dest: 8, left: 0, right: 4 }),
        (IRBinOp::Leq, OpCode::Le { dest: 8, left: 0, right: 4 }),
        (IRBinOp::Geq, OpCode::Ge { dest: 8, left: 0, right: 4 }),
        (IRBinOp::And, OpCode::And { dest: 8, left: 0, right: 4 }),
        (IRBinOp::Or, OpCode::Or { dest: 8, left: 0, right: 4 }),
    ];
    for (operator, expected) in cases {
        let func = function(
            "_start",
            vec![],
            vec![block(
                0,
                vec![
                    IRInstruction::LoadImm { dest: 0, value: IROperand::Nil },
                    IRInstruction::LoadImm { dest: 1, value: IROperand::Nil },
                    IRInstruction::Binary { dest: 2, src1: reg(0), src2: reg(1), operator },
                ],
                IRTerminator::Return(vec![]),
            )],
        );
        let (code, _) = lower(&func).unwrap();
        assert_eq!(code[2], expected);
    }
}
