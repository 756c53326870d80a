//! The machine on hand-written bytecode: single instructions, frames,
//! upvalues and the errors that no source program reaches.

use myula::backend::translator::scanner::{Lifetime, Scanner};
use myula::backend::vm::error::{ErrorKind, VMError};
use myula::backend::vm::heap::HARD_MEMORY_LIMIT;
use myula::backend::vm::{
    ArithOp, FuncMetadata, LogLevel, OutputPiece, Signal, VirtualMachine, MAX_CALL_STACK,
};
use myula::common::object::{LuaObject, LuaUpValueState, LuaValue};
use myula::common::opcode::{OpCode, UnaryOpType};
use myula::frontend::ir::{IRGenerator, IRUpVal, IRUpValType};
use myula::frontend::lexer::token::Token;
use myula::frontend::lexer::{Lexeme, Lexer};
use myula::frontend::parser::Parser;

fn number(x: f64) -> LuaValue {
    LuaValue::Number(x.to_bits())
}

fn name(s: &str) -> LuaValue {
    LuaValue::TempString(s.to_string())
}

fn meta(bytecode: Vec<OpCode>, constants: Vec<LuaValue>, registers: usize) -> FuncMetadata {
    FuncMetadata {
        bytecode,
        constants,
        num_locals: 0,
        max_stack_size: registers,
        reg_metadata: vec![],
        upvalues_metadata: vec![],
        child_protos: vec![],
    }
}

fn machine_of(functions: Vec<(&str, FuncMetadata)>) -> VirtualMachine {
    let mut vm = VirtualMachine::new();
    for (n, m) in functions {
        vm.insert_meta(n.to_string(), m);
    }
    vm.load_standard_library();
    vm.finalize_constants().expect("constants");
    vm.prepare_entry_frame().expect("entry");
    vm
}

fn machine(bytecode: Vec<OpCode>, constants: Vec<LuaValue>, registers: usize) -> VirtualMachine {
    machine_of(vec![("_start", meta(bytecode, constants, registers))])
}

fn compute(op: ArithOp, left: u64, right: u64) -> u64 {
    let a = f64::from_bits(left);
    let b = f64::from_bits(right);
    let r = match op {
        ArithOp::Add => a + b,
        ArithOp::Sub => a - b,
        ArithOp::Mul => a * b,
        ArithOp::Div => a / b,
        ArithOp::Mod => a % b,
        ArithOp::Pow => a.powf(b),
    };
    r.to_bits()
}

fn steps(vm: &mut VirtualMachine, mut n: usize) -> Result<(), VMError> {
    while n > 0 {
        match vm.run(1) {
            Signal::Finished => return Ok(()),
            Signal::Paused => n -= 1,
            Signal::Arith { op, left, right } => {
                vm.resume_number(compute(op, left, right))?;
                n -= 1;
            }
            Signal::Format { bits } => {
                vm.resume_text(format!("{}", f64::from_bits(bits)))?;
                n -= 1;
            }
            Signal::Fault(e) => return Err(e),
        }
    }
    Ok(())
}

fn to_the_end(vm: &mut VirtualMachine) -> Result<(), VMError> {
    loop {
        match vm.run(1000) {
            Signal::Finished => return Ok(()),
            Signal::Paused => {}
            Signal::Arith { op, left, right } => vm.resume_number(compute(op, left, right))?,
            Signal::Format { bits } => vm.resume_text(format!("{}", f64::from_bits(bits)))?,
            Signal::Fault(e) => return Err(e),
        }
    }
}

fn render(output: &[OutputPiece]) -> String {
    let mut s = String::new();
    for piece in output {
        match piece {
            OutputPiece::Text(t) => s.push_str(t),
            OutputPiece::Number(bits) => s.push_str(&format!("{}", f64::from_bits(*bits))),
        }
    }
    s
}

fn compile(source: &str) -> VirtualMachine {
    let mut lexer = Lexer::new(source);
    let mut tokens = Vec::new();
    loop {
        match lexer.next_token() {
            Lexeme::Token(Token::Eof) => break,
            Lexeme::Token(t) => tokens.push(t),
            Lexeme::Number(text) => {
                let n: f64 = text.parse().unwrap();
                tokens.push(Token::NumLit(n.to_bits()));
            }
        }
    }
    let mut parser = Parser::new(tokens);
    let program = parser.parse();
    assert!(parser.get_err().is_empty());
    let mut generator = IRGenerator::new();
    generator.generate(&program);
    assert!(generator.get_err().is_empty());
    let mut scanner = Scanner::new();
    scanner.global_scan(generator.get_module()).unwrap();
    let mut vm = VirtualMachine::new();
    vm.init(&generator, LogLevel::Release, &scanner).unwrap();
    vm
}

fn frames_are_contiguous(vm: &VirtualMachine) {
    let mut expected = 0;
    for frame in &vm.call_stack {
        assert_eq!(frame.base_offset, expected);
        expected = frame.base_offset + frame.reg_count;
    }
    assert!(expected <= vm.value_stack.values.len());
    for (i, a) in vm.call_stack.iter().enumerate() {
        for b in vm.call_stack.iter().skip(i + 1) {
            assert!(a.base_offset + a.reg_count <= b.base_offset);
        }
    }
}

#[test]
fn a_new_machine_has_nothing() {
    let vm = VirtualMachine::new();
    assert!(vm.call_stack.is_empty());
    assert!(vm.value_stack.values.is_empty());
    assert!(vm.globals.is_empty());
    assert!(vm.func_meta.is_empty());
    assert!(vm.output.is_empty());
    assert_eq!(vm.heap.total_allocated, 0);
    assert_eq!(MAX_CALL_STACK, 1000);
}

#[test]
fn the_entry_frame_starts_at_zero_with_nil_registers() {
    let vm = machine(vec![OpCode::Halt], vec![], 6);
    assert_eq!(vm.call_stack.len(), 1);
    let frame = &vm.call_stack[0];
    assert_eq!(frame.func_name, "_start");
    assert_eq!((frame.base_offset, frame.reg_count, frame.pc), (0, 6, 0));
    assert_eq!(frame.ret_dest, None);
    assert_eq!(vm.value_stack.values, vec![LuaValue::Nil; 6]);
    assert_eq!(vm.get_global(&"print".to_string()).is_some(), true);
}

#[test]
fn loads_and_moves_fill_registers() {
    let mut vm = machine(
        vec![
            OpCode::LoadK { dest: 0, const_idx: 0 },
            OpCode::LoadBool { dest: 1, value: true },
            OpCode::Move { dest: 2, src: 0 },
            OpCode::LoadNil { dest: 0 },
            OpCode::Halt,
        ],
        vec![number(2.5)],
        3,
    );
    steps(&mut vm, 4).unwrap();
    assert_eq!(vm.get_reg(0).unwrap(), LuaValue::Nil);
    assert_eq!(vm.get_reg(1).unwrap(), LuaValue::Boolean(true));
    assert_eq!(vm.get_reg(2).unwrap(), number(2.5));
    assert_eq!(vm.call_stack[0].pc, 4);
    assert!(matches!(vm.get_reg(3), Err(e) if matches!(e.kind, ErrorKind::InternalError(_))));
}

#[test]
fn string_constants_are_interned_before_the_run() {
    let mut vm = machine(
        vec![
            OpCode::LoadK { dest: 0, const_idx: 0 },
            OpCode::LoadK { dest: 1, const_idx: 1 },
            OpCode::Eq { dest: 2, left: 0, right: 1 },
            OpCode::Halt,
        ],
        vec![name("same"), name("same")],
        3,
    );
    let constants = &vm.func_meta[0].1.constants;
    assert!(matches!(constants[0], LuaValue::String(_)));
    assert_eq!(constants[0], constants[1]);
    assert_eq!(vm.heap.string_pool.len(), 1);
    assert_eq!(vm.heap.string_pool[0].0, "same");
    steps(&mut vm, 3).unwrap();
    assert_eq!(vm.get_reg(2).unwrap(), LuaValue::Boolean(true));
}

#[test]
fn modulo_is_asked_of_the_host() {
    let mut vm = machine(
        vec![
            OpCode::LoadK { dest: 0, const_idx: 0 },
            OpCode::LoadK { dest: 1, const_idx: 1 },
            OpCode::Mod { dest: 2, left: 0, right: 1 },
            OpCode::Halt,
        ],
        vec![number(7.0), number(4.0)],
        3,
    );
    match vm.run(10) {
        Signal::Arith { op, left, right } => {
            assert_eq!(op, ArithOp::Mod);
            assert_eq!((left, right), (7.0f64.to_bits(), 4.0f64.to_bits()));
        }
        other => panic!("{:?}", other),
    }
    assert_eq!(vm.call_stack[0].pc, 3);
    vm.resume_number(3.0f64.to_bits()).unwrap();
    assert_eq!(vm.get_reg(2).unwrap(), number(3.0));
    assert!(matches!(vm.run(10), Signal::Finished));
}

#[test]
fn modulo_by_zero_is_an_arithmetic_error() {
    for zero in [0.0f64, -0.0] {
        let mut vm = machine(
            vec![
                OpCode::LoadK { dest: 0, const_idx: 0 },
                OpCode::LoadK { dest: 1, const_idx: 1 },
                OpCode::Mod { dest: 2, left: 0, right: 1 },
                OpCode::Halt,
            ],
            vec![number(7.0), number(zero)],
            3,
        );
        let e = to_the_end(&mut vm).unwrap_err();
        assert!(matches!(e.kind, ErrorKind::ArithmeticError(_)));
        assert_eq!(e.pc, 2);
        assert_eq!(e.func_name, "_start");
    }
}

#[test]
fn length_counts_bytes_and_entries() {
    let mut vm = machine(
        vec![
            OpCode::LoadK { dest: 0, const_idx: 0 },
            OpCode::UnOp { dest: 1, src: 0, op: UnaryOpType::Len },
            OpCode::NewTable { dest: 2, size_array: 0, size_hash: 0 },
            OpCode::LoadK { dest: 3, const_idx: 1 },
            OpCode::SetTable { table: 2, key: 3, value: 0 },
            OpCode::SetTable { table: 2, key: 0, value: 3 },
            OpCode::UnOp { dest: 4, src: 2, op: UnaryOpType::Len },
            OpCode::Halt,
        ],
        vec![name("h\u{e9}llo"), number(1.0)],
        5,
    );
    steps(&mut vm, 7).unwrap();
    assert_eq!(vm.get_reg(1).unwrap(), number(6.0));
    assert_eq!(vm.get_reg(4).unwrap(), number(2.0));
}

#[test]
fn length_of_a_number_is_a_type_error() {
    let mut vm = machine(
        vec![
            OpCode::LoadK { dest: 0, const_idx: 0 },
            OpCode::UnOp { dest: 1, src: 0, op: UnaryOpType::Len },
            OpCode::Halt,
        ],
        vec![number(1.0)],
        2,
    );
    let e = to_the_end(&mut vm).unwrap_err();
    assert!(matches!(e.kind, ErrorKind::TypeError(_)));
    assert!(e.get_message().contains("number"));
}

#[test]
fn negation_flips_the_sign_without_the_host() {
    let mut vm = machine(
        vec![
            OpCode::LoadK { dest: 0, const_idx: 0 },
            OpCode::UnOp { dest: 1, src: 0, op: UnaryOpType::Neg },
            OpCode::UnOp { dest: 2, src: 0, op: UnaryOpType::Not },
            OpCode::Halt,
        ],
        vec![number(2.5)],
        3,
    );
    assert!(matches!(vm.run(3), Signal::Paused));
    assert_eq!(vm.get_reg(1).unwrap(), number(-2.5));
    assert_eq!(vm.get_reg(2).unwrap(), LuaValue::Boolean(false));
}

#[test]
fn test_skips_the_next_instruction_on_a_falsy_value() {
    let code = |value: bool| {
        vec![
            OpCode::LoadBool { dest: 0, value },
            OpCode::Test { reg: 0 },
            OpCode::Jump { offset: 2 },
            OpCode::Jump { offset: 3 },
            OpCode::LoadBool { dest: 1, value: true },
            OpCode::Halt,
            OpCode::LoadBool { dest: 1, value: false },
            OpCode::Halt,
        ]
    };
    let mut vm = machine(code(true), vec![], 2);
    steps(&mut vm, 2).unwrap();
    assert_eq!(vm.call_stack[0].pc, 2);
    steps(&mut vm, 2).unwrap();
    assert_eq!(vm.get_reg(1).unwrap(), LuaValue::Boolean(true));
    let mut vm = machine(code(false), vec![], 2);
    steps(&mut vm, 2).unwrap();
    assert_eq!(vm.call_stack[0].pc, 3);
    steps(&mut vm, 2).unwrap();
    assert_eq!(vm.get_reg(1).unwrap(), LuaValue::Boolean(false));
}

#[test]
fn a_jump_is_measured_from_itself() {
    let mut vm = machine(
        vec![
            OpCode::Jump { offset: 2 },
            OpCode::Halt,
            OpCode::Jump { offset: -1 },
        ],
        vec![],
        1,
    );
    steps(&mut vm, 1).unwrap();
    assert_eq!(vm.call_stack[0].pc, 2);
    steps(&mut vm, 1).unwrap();
    assert_eq!(vm.call_stack[0].pc, 1);
}

#[test]
fn a_jump_before_the_first_instruction_lands_on_it() {
    let mut vm = machine(
        vec![
            OpCode::Jump { offset: 2 },
            OpCode::Halt,
            OpCode::Jump { offset: -5 },
        ],
        vec![],
        1,
    );
    steps(&mut vm, 2).unwrap();
    assert_eq!(vm.call_stack[0].pc, 0);
    let mut vm = machine(vec![OpCode::Jump { offset: i32::MIN }], vec![], 1);
    steps(&mut vm, 1).unwrap();
    assert_eq!(vm.call_stack[0].pc, 0);
}

#[test]
fn push_puts_a_value_on_top_of_the_stack() {
    let mut vm = machine(
        vec![OpCode::LoadBool { dest: 1, value: true }, OpCode::Push { src: 1 }, OpCode::Halt],
        vec![],
        2,
    );
    steps(&mut vm, 2).unwrap();
    assert_eq!(vm.value_stack.values.len(), 3);
    assert_eq!(vm.value_stack.values[2], LuaValue::Boolean(true));
}

#[test]
fn globals_are_set_and_read_by_name() {
    let mut vm = machine(
        vec![
            OpCode::LoadK { dest: 0, const_idx: 1 },
            OpCode::SetGlobal { name_idx: 0, src: 0 },
            OpCode::GetGlobal { dest: 1, name_idx: 0 },
            OpCode::GetGlobal { dest: 2, name_idx: 2 },
            OpCode::Halt,
        ],
        vec![name("x"), number(9.0), name("y")],
        3,
    );
    steps(&mut vm, 3).unwrap();
    assert_eq!(vm.get_reg(1).unwrap(), number(9.0));
    assert_eq!(vm.get_global(&"x".to_string()), Some(number(9.0)));
    let e = to_the_end(&mut vm).unwrap_err();
    assert_eq!(e.kind, ErrorKind::UndefinedVariable("y".to_string()));
    assert_eq!(e.pc, 3);
}

#[test]
fn returning_two_values_is_refused() {
    let mut vm = machine(vec![OpCode::Return { start: 0, count: 2 }], vec![], 2);
    let e = to_the_end(&mut vm).unwrap_err();
    assert!(matches!(e.kind, ErrorKind::MultipleReturnValues(_)));
    assert!(vm.call_stack.is_empty());
}

#[test]
fn an_upvalue_index_beyond_the_captured_ones_is_refused() {
    let mut vm = machine(vec![OpCode::GetUpVal { dest: 0, upval_idx: 3 }], vec![], 1);
    let e = to_the_end(&mut vm).unwrap_err();
    assert_eq!(e.kind, ErrorKind::UndefinedUpValue(3));
    assert_eq!(e.get_message(), "UndefinedUpValue(3)");
    let mut vm = machine(vec![OpCode::SetUpVal { upval_idx: 0, src: 0 }], vec![], 1);
    let e = to_the_end(&mut vm).unwrap_err();
    assert_eq!(e.kind, ErrorKind::UndefinedUpValue(0));
}

#[test]
fn running_off_the_end_of_the_bytecode_is_an_internal_error() {
    let mut vm = machine(vec![OpCode::LoadNil { dest: 0 }], vec![], 1);
    let e = to_the_end(&mut vm).unwrap_err();
    assert!(matches!(e.kind, ErrorKind::InternalError(_)));
    assert_eq!(e.pc, 1);
    assert!(e.get_message().starts_with("[Internal] "));
}

#[test]
fn a_register_beyond_the_frame_is_an_internal_error() {
    let mut vm = machine(vec![OpCode::LoadNil { dest: 5 }], vec![], 2);
    let e = to_the_end(&mut vm).unwrap_err();
    assert!(matches!(e.kind, ErrorKind::InternalError(_)));
    let mut vm = machine(vec![OpCode::LoadK { dest: 0, const_idx: 4 }], vec![], 2);
    let e = to_the_end(&mut vm).unwrap_err();
    assert!(matches!(e.kind, ErrorKind::InternalError(_)));
}

#[test]
fn an_allocation_on_a_full_heap_is_out_of_memory() {
    let mut vm = machine(
        vec![OpCode::NewTable { dest: 0, size_array: 0, size_hash: 0 }, OpCode::Halt],
        vec![],
        1,
    );
    let room = HARD_MEMORY_LIMIT - vm.heap.total_allocated;
    vm.heap.alloc_raw_object(LuaObject::String("ballast".to_string()), room - 8).unwrap();
    vm.heap.threshold = usize::MAX;
    let e = to_the_end(&mut vm).unwrap_err();
    assert_eq!(e.kind, ErrorKind::OutOfMemory);
    assert_eq!(e.get_message(), "OutOfMemory");
}

#[test]
fn halt_clears_the_call_stack() {
    let mut vm = machine(vec![OpCode::Halt, OpCode::LoadNil { dest: 9 }], vec![], 1);
    assert!(matches!(vm.run(5), Signal::Finished));
    assert!(vm.call_stack.is_empty());
}

#[test]
fn a_closure_writes_and_reads_a_captured_register() {
    let mut start = meta(
        vec![
            OpCode::LoadK { dest: 0, const_idx: 0 },
            OpCode::FnProto { dest: 1, proto_idx: 0 },
            OpCode::Call { func_reg: 1, argc: 0, retc: 1 },
            OpCode::Halt,
        ],
        vec![number(5.0)],
        4,
    );
    start.child_protos = vec!["child".to_string()];
    let mut child = meta(
        vec![
            OpCode::GetUpVal { dest: 0, upval_idx: 0 },
            OpCode::LoadK { dest: 1, const_idx: 0 },
            OpCode::SetUpVal { upval_idx: 0, src: 1 },
            OpCode::GetUpVal { dest: 2, upval_idx: 0 },
            OpCode::Return { start: 2, count: 1 },
        ],
        vec![number(7.0)],
        3,
    );
    child.upvalues_metadata = vec![IRUpVal { slot: 0, ty: IRUpValType::LocalVar(0) }];
    let mut vm = machine_of(vec![("_start", start), ("child", child)]);
    steps(&mut vm, 2).unwrap();
    assert_eq!(vm.call_stack[0].out_upvalues.len(), 1);
    let (slot, handle) = vm.call_stack[0].out_upvalues[0];
    assert_eq!(slot, 0);
    assert!(matches!(vm.heap.upvalue_state(handle), Some(LuaUpValueState::Open(0))));
    steps(&mut vm, 2).unwrap();
    assert_eq!(vm.call_stack.len(), 2);
    frames_are_contiguous(&vm);
    assert_eq!(vm.call_stack[1].base_offset, 4);
    assert_eq!(vm.call_stack[1].upvalues, vec![handle]);
    assert_eq!(vm.get_reg(0).unwrap(), number(5.0));
    steps(&mut vm, 4).unwrap();
    assert_eq!(vm.call_stack.len(), 1);
    assert_eq!(vm.value_stack.values.len(), 4);
    assert_eq!(vm.get_reg(0).unwrap(), number(7.0));
    assert_eq!(vm.get_reg(1).unwrap(), number(7.0));
    assert!(matches!(vm.heap.upvalue_state(handle), Some(LuaUpValueState::Open(0))));
    steps(&mut vm, 1).unwrap();
    assert!(vm.call_stack.is_empty());
    match vm.heap.upvalue_state(handle) {
        Some(LuaUpValueState::Closed(v)) => assert_eq!(v, number(7.0)),
        other => panic!("{:?}", other),
    }
}

#[test]
fn two_closures_over_one_register_share_the_upvalue() {
    let mut start = meta(
        vec![
            OpCode::FnProto { dest: 1, proto_idx: 0 },
            OpCode::FnProto { dest: 2, proto_idx: 0 },
            OpCode::Halt,
        ],
        vec![],
        3,
    );
    start.child_protos = vec!["child".to_string()];
    let mut child = meta(vec![OpCode::Return { start: 0, count: 0 }], vec![], 1);
    child.upvalues_metadata = vec![IRUpVal { slot: 0, ty: IRUpValType::LocalVar(0) }];
    let mut vm = machine_of(vec![("_start", start), ("child", child)]);
    steps(&mut vm, 2).unwrap();
    assert_eq!(vm.call_stack[0].out_upvalues.len(), 1);
    let first = match vm.get_reg(1).unwrap() {
        LuaValue::Function(h) => h,
        other => panic!("{:?}", other),
    };
    let second = match vm.get_reg(2).unwrap() {
        LuaValue::Function(h) => h,
        other => panic!("{:?}", other),
    };
    assert_ne!(first, second);
    let a = vm.heap.function_info(first).unwrap();
    let b = vm.heap.function_info(second).unwrap();
    assert_eq!(a.0, "child");
    assert_eq!(a.1, b.1);
    assert_eq!(a.1.len(), 1);
}

#[test]
fn frames_lie_one_after_the_other_at_every_step() {
    let mut vm = compile(
        "local function fib(n) if n < 2 then return n else return fib(n-1) + fib(n-2) end end print(fib(7))",
    );
    let mut deepest = 0;
    loop {
        frames_are_contiguous(&vm);
        deepest = deepest.max(vm.call_stack.len());
        match vm.run(1) {
            Signal::Finished => break,
            Signal::Paused => {}
            Signal::Arith { op, left, right } => vm.resume_number(compute(op, left, right)).unwrap(),
            Signal::Format { bits } => vm.resume_text(format!("{}", f64::from_bits(bits))).unwrap(),
            Signal::Fault(e) => panic!("{}", e.get_message()),
        }
    }
    assert!(deepest >= 7);
    assert_eq!(render(&vm.output), "13\n");
    assert!(vm.call_stack.is_empty());
    assert!(vm.value_stack.values.is_empty());
}

#[test]
fn a_returning_frame_closes_the_upvalues_on_its_registers() {
    let mut vm = compile(
        "local function make(n) return function() return n end end local f = make(42) print(f())",
    );
    let mut seen_open_in_callee = false;
    let mut previous_depth = 1;
    loop {
        let depth = vm.call_stack.len();
        for object in vm.heap.all_objects.iter().flatten() {
            if let LuaObject::UpValue(u) = &object.data {
                if let LuaUpValueState::Open(at) = u.value {
                    let holder = vm
                        .call_stack
                        .iter()
                        .find(|f| f.base_offset <= at && at < f.base_offset + f.reg_count)
                        .expect("an open upvalue points into a live frame");
                    assert!(holder.out_upvalues.iter().any(|(slot, _)| holder.base_offset + slot == at));
                    if holder.base_offset > 0 {
                        seen_open_in_callee = true;
                    }
                }
            }
        }
        if depth < previous_depth {
            let top = vm.value_stack.values.len();
            for object in vm.heap.all_objects.iter().flatten() {
                if let LuaObject::UpValue(u) = &object.data {
                    if let LuaUpValueState::Open(at) = u.value {
                        assert!(at < top);
                    }
                }
            }
        }
        previous_depth = depth;
        match vm.run(1) {
            Signal::Finished => break,
            Signal::Paused => {}
            Signal::Arith { op, left, right } => vm.resume_number(compute(op, left, right)).unwrap(),
            Signal::Format { bits } => vm.resume_text(format!("{}", f64::from_bits(bits))).unwrap(),
            Signal::Fault(e) => panic!("{}", e.get_message()),
        }
    }
    assert!(seen_open_in_callee);
    assert_eq!(render(&vm.output), "42\n");
    let closed: Vec<&LuaValue> = vm
        .heap
        .all_objects
        .iter()
        .flatten()
        .filter_map(|o| match &o.data {
            LuaObject::UpValue(u) => match &u.value {
                LuaUpValueState::Closed(v) => Some(v),
                LuaUpValueState::Open(_) => panic!("an upvalue is still open"),
            },
            _ => None,
        })
        .collect();
    assert!(closed.contains(&&number(42.0)));
}

#[test]
fn after_the_entry_function_returns_both_stacks_are_empty() {
    for source in [
        "",
        "return 1",
        "local x = 1 return x",
        "local function f(a) return a end print(f(f(f(1))))",
        "local t = {1, 2, 3} print(t[2])",
    ] {
        let mut vm = compile(source);
        to_the_end(&mut vm).unwrap();
        assert!(vm.call_stack.is_empty(), "{}", source);
        assert!(vm.value_stack.values.is_empty(), "{}", source);
    }
}

#[test]
fn a_machine_collection_keeps_what_frames_globals_and_constants_hold() {
    let mut vm = compile("g = {1} local t = {2} local s = \"a\" .. \"b\" local u = {3} u = nil print(s)");
    let mut before_print = None;
    loop {
        match vm.run(1) {
            Signal::Finished => break,
            Signal::Paused => {
                if vm.output.is_empty() {
                    let live_before = vm.heap.all_objects.iter().flatten().count();
                    let total_before = vm.heap.total_allocated;
                    let (objects, bytes) = vm.collect_garbage();
                    assert_eq!(vm.heap.all_objects.iter().flatten().count() + objects, live_before);
                    assert_eq!(vm.heap.total_allocated + bytes, total_before);
                    let sum: usize = vm.heap.all_objects.iter().flatten().map(|o| o.size).sum();
                    assert_eq!(vm.heap.total_allocated, sum);
                    before_print = Some(objects);
                }
            }
            Signal::Arith { op, left, right } => vm.resume_number(compute(op, left, right)).unwrap(),
            Signal::Format { bits } => vm.resume_text(format!("{}", f64::from_bits(bits))).unwrap(),
            Signal::Fault(e) => panic!("{}", e.get_message()),
        }
    }
    assert!(before_print.is_some());
    assert_eq!(render(&vm.output), "ab\n");
    match vm.get_global(&"g".to_string()) {
        Some(LuaValue::Table(h)) => assert_eq!(vm.heap.table_get(h, &number(1.0)), Some(number(1.0))),
        other => panic!("{:?}", other),
    }
}

#[test]
fn registers_that_outlived_their_variables_are_cleared() {
    let life = |start: usize, end: usize| Lifetime { start, end, is_fixed: false, inferred_type: None };
    let mut start = meta(
        vec![
            OpCode::LoadK { dest: 0, const_idx: 0 },
            OpCode::LoadK { dest: 1, const_idx: 0 },
            OpCode::LoadK { dest: 2, const_idx: 0 },
            OpCode::Halt,
        ],
        vec![number(1.0)],
        3,
    );
    start.reg_metadata = vec![(0, life(0, 0)), (1, life(1, 3)), (7, life(0, 0)), (2, life(2, 2)), (2, life(3, 9))];
    let mut vm = machine_of(vec![("_start", start)]);
    steps(&mut vm, 3).unwrap();
    assert_eq!(vm.call_stack[0].pc, 3);
    vm.cleanup_expired_registers();
    assert_eq!(vm.value_stack.values, vec![LuaValue::Nil, number(1.0), LuaValue::Nil]);
    assert_eq!(vm.call_stack[0].pc, 3);
    let mut finished = machine(vec![OpCode::Halt], vec![], 1);
    to_the_end(&mut finished).unwrap();
    finished.cleanup_expired_registers();
    assert!(finished.call_stack.is_empty());
}
