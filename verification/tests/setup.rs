//! Bringing a machine to the start of a program, and why that can fail.

use myula::backend::translator::emitter::EmitError;
use myula::backend::translator::scanner::{FunctionScan, Scanner, VarKind};
use myula::backend::vm::heap::HARD_MEMORY_LIMIT;
use myula::backend::vm::setup::{build_metadata, InitError};
use myula::backend::vm::stack::StackFrame;
use myula::backend::vm::{LogLevel, VirtualMachine, MAX_CALL_STACK};
use myula::common::object::{CFunction, LuaObject, LuaValue};
use myula::common::opcode::OpCode;
use myula::frontend::ir::{
    IRBasicBlock, IRFunction, IRInstruction, IRModule, IROperand, IRTerminator, IRUpVal, IRUpValType,
};

fn function(name: &str, instructions: Vec<IRInstruction>, terminator: IRTerminator) -> IRFunction {
    IRFunction {
        name: name.to_string(),
        params: vec![],
        basic_blocks: vec![IRBasicBlock { id: 0, instructions, terminator }],
        local_variables: vec![],
        upvalues: vec![],
        sub_functions: vec![],
    }
}

fn greeting(name: &str) -> IRFunction {
    function(
        name,
        vec![
            IRInstruction::LoadImm { dest: 0, value: IROperand::ImmStr("hello".to_string()) },
            IRInstruction::LoadImm { dest: 1, value: IROperand::ImmFloat(1.0f64.to_bits()) },
            IRInstruction::LoadImm { dest: 2, value: IROperand::ImmStr("hello".to_string()) },
        ],
        IRTerminator::Return(vec![]),
    )
}

fn scanned(module: &IRModule) -> Scanner {
    let mut scanner = Scanner::new();
    scanner.global_scan(module).unwrap();
    scanner
}

#[test]
fn a_module_with_an_entry_function_is_initialised() {
    let module = IRModule { functions: vec![greeting("helper"), greeting("_start")] };
    let scanner = scanned(&module);
    let mut vm = VirtualMachine::new();
    assert_eq!(vm.init_module(&module, LogLevel::Debug, &scanner), Ok(()));
    assert_eq!(vm.log_level, LogLevel::Debug);
    assert_eq!(vm.func_meta.len(), 2);
    assert_eq!(vm.func_meta[0].0, "helper");
    assert_eq!(vm.func_meta[1].0, "_start");
    assert_eq!(vm.meta_index(&"_start".to_string()), Some(1));
    assert_eq!(vm.meta_index(&"absent".to_string()), None);
    assert_eq!(vm.get_global(&"print".to_string()), Some(LuaValue::CFunc(CFunction::Print)));
    assert_eq!(vm.call_stack.len(), 1);
    assert_eq!(vm.call_stack[0].func_name, "_start");
    assert_eq!(vm.call_stack[0].pc, 0);
    assert_eq!(vm.call_stack[0].base_offset, 0);
    assert_eq!(vm.call_stack[0].reg_count, scanner.functions[1].max_stack + 2);
    assert_eq!(vm.value_stack.values, vec![LuaValue::Nil; scanner.functions[1].max_stack + 2]);
}

#[test]
fn the_metadata_of_a_function_is_built_from_its_scan() {
    let mut func = greeting("f");
    func.upvalues = vec![("n".to_string(), IRUpVal { slot: 0, ty: IRUpValType::UpVal(3) })];
    func.sub_functions = vec!["g".to_string()];
    let module = IRModule { functions: vec![func.clone()] };
    let scanner = scanned(&module);
    let scan = &scanner.functions[0];
    let meta = build_metadata(&func, scan).unwrap();
    assert_eq!(
        meta.bytecode,
        vec![
            OpCode::LoadK { dest: 0, const_idx: 0 },
            OpCode::LoadK { dest: 0, const_idx: 1 },
            OpCode::LoadK { dest: 0, const_idx: 0 },
            OpCode::Return { start: 0, count: 0 },
        ]
    );
    assert_eq!(
        meta.constants,
        vec![LuaValue::TempString("hello".to_string()), LuaValue::Number(1.0f64.to_bits())]
    );
    assert_eq!(meta.num_locals, scan.num_locals);
    assert_eq!(meta.max_stack_size, scan.max_stack + 2);
    assert_eq!(meta.upvalues_metadata, vec![IRUpVal { slot: 0, ty: IRUpValType::UpVal(3) }]);
    assert_eq!(meta.child_protos, vec!["g".to_string()]);
    let expected: Vec<_> = scan.reg_map.iter().zip(scan.lifetimes.iter()).map(|(r, l)| (r.1, l.1)).collect();
    assert_eq!(meta.reg_metadata, expected);
}

#[test]
fn string_constants_refer_to_interned_strings_after_initialisation() {
    let module = IRModule { functions: vec![greeting("helper"), greeting("_start")] };
    let scanner = scanned(&module);
    let mut vm = VirtualMachine::new();
    vm.init_module(&module, LogLevel::Release, &scanner).unwrap();
    assert_eq!(vm.heap.string_pool.len(), 1);
    let handle = vm.heap.find_interned(&"hello".to_string()).unwrap();
    for (_, meta) in &vm.func_meta {
        assert_eq!(meta.constants, vec![LuaValue::String(handle), LuaValue::Number(1.0f64.to_bits())]);
    }
    assert_eq!(vm.heap.string_of(handle), Some("hello".to_string()));
}

#[test]
fn a_later_function_of_the_same_name_replaces_the_earlier_one() {
    let short = function("_start", vec![], IRTerminator::Return(vec![]));
    let module = IRModule { functions: vec![greeting("_start"), short.clone()] };
    let mut scanner = Scanner::new();
    scanner.global_scan(&IRModule { functions: vec![short] }).unwrap();
    let mut vm = VirtualMachine::new();
    let r = vm.init_module(&module, LogLevel::Release, &scanner);
    assert_eq!(
        r,
        Err(InitError::Emit("_start".to_string(), EmitError::UnallocatedVariable(VarKind::Reg(0))))
    );
    let module = IRModule { functions: vec![greeting("f"), function("f", vec![], IRTerminator::Return(vec![])), greeting("_start")] };
    let mut scanner = Scanner::new();
    scanner
        .global_scan(&IRModule {
            functions: vec![function("f", vec![], IRTerminator::Return(vec![])), greeting("_start")],
        })
        .unwrap();
    let mut vm = VirtualMachine::new();
    let r = vm.init_module(&module, LogLevel::Release, &scanner);
    assert!(matches!(r, Err(InitError::Emit(ref n, _)) if n == "f"), "{:?}", r);
    assert!(vm.func_meta.is_empty());
}

#[test]
fn a_function_that_was_not_scanned_cannot_be_installed() {
    let module = IRModule { functions: vec![greeting("_start"), greeting("other")] };
    let scanner = scanned(&IRModule { functions: vec![greeting("_start")] });
    let mut vm = VirtualMachine::new();
    assert_eq!(
        vm.init_module(&module, LogLevel::Trace, &scanner),
        Err(InitError::NotScanned("other".to_string()))
    );
    assert_eq!(vm.log_level, LogLevel::Trace);
    assert_eq!(vm.func_meta.len(), 1);
    assert!(vm.call_stack.is_empty());
    assert!(vm.globals.is_empty());
}

#[test]
fn a_function_that_cannot_be_lowered_cannot_be_installed() {
    let bad = function("_start", vec![], IRTerminator::Jump(5));
    let module = IRModule { functions: vec![bad] };
    let scanner = scanned(&module);
    let mut vm = VirtualMachine::new();
    assert_eq!(
        vm.init_module(&module, LogLevel::Release, &scanner),
        Err(InitError::Emit("_start".to_string(), EmitError::UnknownBlock(5)))
    );
    assert!(vm.func_meta.is_empty());
}

#[test]
fn a_frame_that_outgrows_the_machine_word_cannot_be_installed() {
    let func = function("_start", vec![], IRTerminator::Return(vec![]));
    let mut scanner = Scanner::new();
    scanner.functions.push(FunctionScan {
        name: "_start".to_string(),
        lifetimes: vec![],
        reg_map: vec![],
        num_locals: 0,
        max_stack: usize::MAX - 1,
    });
    let module = IRModule { functions: vec![func.clone()] };
    let mut vm = VirtualMachine::new();
    assert_eq!(
        vm.init_module(&module, LogLevel::Release, &scanner),
        Err(InitError::StackTooLarge("_start".to_string()))
    );
    assert!(matches!(
        build_metadata(&func, &scanner.functions[0]),
        Err(InitError::StackTooLarge(ref n)) if n == "_start"
    ));
}

#[test]
fn a_module_without_an_entry_function_cannot_be_started() {
    let module = IRModule { functions: vec![greeting("main")] };
    let scanner = scanned(&module);
    let mut vm = VirtualMachine::new();
    assert_eq!(vm.init_module(&module, LogLevel::Release, &scanner), Err(InitError::MissingEntry));
    assert_eq!(vm.func_meta.len(), 1);
    assert!(vm.call_stack.is_empty());
    assert!(vm.value_stack.values.is_empty());
    let empty = IRModule { functions: vec![] };
    let mut vm = VirtualMachine::new();
    assert_eq!(vm.init_module(&empty, LogLevel::Release, &Scanner::new()), Err(InitError::MissingEntry));
}

#[test]
fn a_text_that_does_not_fit_the_heap_stops_the_initialisation() {
    let module = IRModule { functions: vec![greeting("_start")] };
    let scanner = scanned(&module);
    let mut vm = VirtualMachine::new();
    vm.heap.alloc_raw_object(LuaObject::String("ballast".to_string()), HARD_MEMORY_LIMIT - 20).unwrap();
    assert_eq!(vm.init_module(&module, LogLevel::Release, &scanner), Err(InitError::OutOfMemory));
    assert!(vm.call_stack.is_empty());
    assert_eq!(vm.heap.all_objects.len(), 1);
    assert_eq!(
        vm.func_meta[0].1.constants,
        vec![LuaValue::TempString("hello".to_string()), LuaValue::Number(1.0f64.to_bits())]
    );
}

#[test]
fn a_full_call_stack_takes_no_entry_frame() {
    let module = IRModule { functions: vec![function("_start", vec![], IRTerminator::Return(vec![]))] };
    let scanner = scanned(&module);
    let mut vm = VirtualMachine::new();
    for _ in 0..MAX_CALL_STACK {
        vm.call_stack.push(StackFrame::new("filler".to_string(), None, 0, 0, vec![]));
    }
    assert_eq!(vm.init_module(&module, LogLevel::Release, &scanner), Err(InitError::StackOverflow));
    assert_eq!(vm.call_stack.len(), MAX_CALL_STACK);
    assert!(vm.value_stack.values.is_empty());
}

#[test]
fn a_second_entry_goes_on_top_of_the_first() {
    let module = IRModule { functions: vec![function("_start", vec![], IRTerminator::Return(vec![]))] };
    let scanner = scanned(&module);
    let mut vm = VirtualMachine::new();
    vm.init_module(&module, LogLevel::Release, &scanner).unwrap();
    let size = vm.call_stack[0].reg_count;
    assert_eq!(vm.prepare_entry_frame(), Ok(()));
    assert_eq!(vm.call_stack.len(), 2);
    assert_eq!(vm.call_stack[1].base_offset, size);
    assert_eq!(vm.call_stack[1].reg_count, size);
    assert_eq!(vm.value_stack.values.len(), 2 * size);
}
