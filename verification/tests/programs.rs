//! Short programs, run to the end, and the errors that stop them.

use myula::backend::translator::scanner::Scanner;
use myula::backend::vm::error::{ErrorKind, VMError};
use myula::backend::vm::{ArithOp, LogLevel, OutputPiece, Signal, VirtualMachine, MAX_CALL_STACK};
use myula::frontend::ir::IRGenerator;
use myula::frontend::lexer::token::Token;
use myula::frontend::lexer::{Lexeme, Lexer};
use myula::frontend::parser::Parser;

fn lex(source: &str) -> Vec<Token> {
    let mut lexer = Lexer::new(source);
    let mut tokens = Vec::new();
    loop {
        match lexer.next_token() {
            Lexeme::Token(Token::Eof) => break,
            Lexeme::Token(t) => tokens.push(t),
            Lexeme::Number(text) => {
                let n: f64 = text.parse().unwrap();
                tokens.push(Token::NumLit(n.to_bits()));
            }
        }
    }
    assert!(lexer.get_err().is_empty(), "lexer errors: {:?}", lexer.get_err());
    tokens
}

fn compute(op: ArithOp, left: u64, right: u64) -> u64 {
    let a = f64::from_bits(left);
    let b = f64::from_bits(right);
    let r = match op {
        ArithOp::Add => a + b,
        ArithOp::Sub => a - b,
        ArithOp::Mul => a * b,
        ArithOp::Div => a / b,
        ArithOp::Mod => a % b,
        ArithOp::Pow => a.powf(b),
    };
    r.to_bits()
}

fn render(output: &[OutputPiece]) -> String {
    let mut s = String::new();
    for piece in output {
        match piece {
            OutputPiece::Text(t) => s.push_str(t),
            OutputPiece::Number(bits) => s.push_str(&format!("{}", f64::from_bits(*bits))),
        }
    }
    s
}

fn run_machine(vm: &mut VirtualMachine) -> Result<(), VMError> {
    loop {
        match vm.run(1_000_000) {
            Signal::Finished => return Ok(()),
            Signal::Paused => {}
            Signal::Arith { op, left, right } => {
                vm.resume_number(compute(op, left, right))?;
            }
            Signal::Format { bits } => {
                vm.resume_text(format!("{}", f64::from_bits(bits)))?;
            }
            Signal::Fault(e) => return Err(e),
        }
    }
}

fn load(source: &str) -> VirtualMachine {
    let tokens = lex(source);
    let mut parser = Parser::new(tokens);
    let program = parser.parse();
    assert!(parser.get_err().is_empty(), "parser errors: {:?}", parser.get_err());
    let mut generator = IRGenerator::new();
    generator.generate(&program);
    assert!(generator.get_err().is_empty(), "generator errors: {:?}", generator.get_err());
    let mut scanner = Scanner::new();
    scanner.global_scan(generator.get_module()).expect("scan");
    let mut vm = VirtualMachine::new();
    vm.init(&generator, LogLevel::Release, &scanner).expect("init");
    vm
}

fn output_of(source: &str) -> String {
    let mut vm = load(source);
    run_machine(&mut vm).expect("run");
    assert_eq!(vm.call_stack.len(), 0);
    assert_eq!(vm.value_stack.values.len(), 0);
    render(&vm.output)
}

fn failure_of(source: &str) -> (VMError, VirtualMachine) {
    let mut vm = load(source);
    let e = run_machine(&mut vm).expect_err("the program should fail");
    (e, vm)
}

#[test]
fn empty_program_prints_nothing() {
    assert_eq!(output_of(""), "");
}

#[test]
fn print_without_arguments_writes_a_newline() {
    assert_eq!(output_of("print()"), "\n");
}

#[test]
fn print_separates_arguments_by_tabs() {
    assert_eq!(output_of("print(1, \"a\", true, nil)"), "1\ta\ttrue\tnil\n");
}

#[test]
fn globals_are_written_and_read() {
    assert_eq!(output_of("x = 5 y = x + 1 print(x, y)"), "5\t6\n");
}

#[test]
fn arithmetic_operators() {
    assert_eq!(output_of("print(7 - 2, 3 * 4, 9 / 2, 2 ^ 10)"), "5\t12\t4.5\t1024\n");
}

#[test]
fn subtraction_and_division_are_left_associative() {
    assert_eq!(output_of("print(10 - 3 - 2, 16 / 4 / 2)"), "5\t2\n");
}

#[test]
fn power_is_right_associative() {
    assert_eq!(output_of("print(2 ^ 3 ^ 2)"), "512\n");
}

#[test]
fn parentheses_override_precedence() {
    assert_eq!(output_of("print((1 + 2) * 3)"), "9\n");
}

#[test]
fn unary_minus_and_not() {
    assert_eq!(output_of("local a = 4 print(-a, not a, not nil, not false)"), "-4\tfalse\ttrue\ttrue\n");
}

#[test]
fn comparisons_of_numbers() {
    assert_eq!(
        output_of("print(1 < 2, 2 < 1, 2 <= 2, 3 > 2, 2 >= 3, 1 == 1, 1 ~= 1)"),
        "true\tfalse\ttrue\ttrue\tfalse\ttrue\tfalse\n"
    );
}

#[test]
fn comparisons_of_strings_go_by_bytes() {
    assert_eq!(
        output_of("print(\"a\" < \"b\", \"b\" < \"a\", \"a\" < \"ab\", \"ab\" <= \"ab\", \"Z\" < \"a\")"),
        "true\tfalse\ttrue\ttrue\ttrue\n"
    );
}

#[test]
fn equality_of_different_kinds_is_false() {
    assert_eq!(output_of("print(1 == \"1\", nil == false, nil == nil, true == true)"), "false\tfalse\ttrue\ttrue\n");
}

#[test]
fn concatenated_string_equals_its_literal() {
    assert_eq!(output_of("local a = \"a\" .. \"b\" print(a == \"ab\")"), "true\n");
}

#[test]
fn concatenation_takes_numbers() {
    assert_eq!(output_of("print(\"n=\" .. 42, 1 .. 2)"), "n=42\t12\n");
}

#[test]
fn and_or_give_an_operand() {
    assert_eq!(
        output_of("print(nil or 3, false and 1, 1 and 2, 1 or 2, nil and 1)"),
        "3\tfalse\t2\t1\tnil\n"
    );
}

#[test]
fn zero_and_the_empty_string_are_truthy() {
    assert_eq!(output_of("if 0 then print(\"yes\") else print(\"no\") end if \"\" then print(\"yes\") end"), "yes\nyes\n");
}

#[test]
fn if_elseif_else_takes_the_first_true_branch() {
    let source = "local x = 2 if x == 1 then print(\"one\") elseif x == 2 then print(\"two\") elseif x == 2 then print(\"again\") else print(\"other\") end";
    assert_eq!(output_of(source), "two\n");
}

#[test]
fn if_without_else_skips_the_body() {
    assert_eq!(output_of("if false then print(1) end print(2)"), "2\n");
}

#[test]
fn repeat_runs_the_body_before_the_test() {
    assert_eq!(output_of("local i = 10 repeat i = i + 1 until i > 5 print(i)"), "11\n");
}

#[test]
fn while_with_a_false_condition_never_runs() {
    assert_eq!(output_of("local i = 0 while i > 0 do i = i - 1 print(i) end print(\"done\")"), "done\n");
}

#[test]
fn nested_loops() {
    let source = "local n = 0 local i = 0 while i < 3 do local j = 0 while j < 4 do n = n + 1 j = j + 1 end i = i + 1 end print(n)";
    assert_eq!(output_of(source), "12\n");
}

#[test]
fn table_with_named_and_keyed_fields() {
    let source = "local t = {a = 1, b = 2, [\"c\"] = 3, [10] = 4} print(t.a, t[\"b\"], t.c, t[10], t.d, t[1])";
    assert_eq!(output_of(source), "1\t2\t3\t4\tnil\tnil\n");
}

#[test]
fn table_assignment_replaces_and_adds() {
    let source = "local t = {10, 20} t[2] = 21 t[3] = 30 t.name = \"x\" print(t[1], t[2], t[3], t.name)";
    assert_eq!(output_of(source), "10\t21\t30\tx\n");
}

#[test]
fn tables_are_shared_by_reference() {
    assert_eq!(output_of("local a = {} local b = a b.x = 7 print(a.x, a == b, a == {})"), "7\ttrue\tfalse\n");
}

#[test]
fn nested_tables() {
    assert_eq!(output_of("local t = {inner = {1, 2}} print(t.inner[2])"), "2\n");
}

#[test]
fn function_with_arguments_and_result() {
    assert_eq!(output_of("local function add(a, b) return a + b end print(add(2, 3))"), "5\n");
}

#[test]
fn missing_arguments_are_nil() {
    assert_eq!(output_of("local function f(a, b) return b end print(f(1))"), "nil\n");
}

#[test]
fn function_without_return_runs_its_body() {
    assert_eq!(output_of("local function f() print(\"in\") end f() print(\"out\")"), "in\nout\n");
}

#[test]
fn a_call_with_three_arguments() {
    let source = "local function sum(a, b, c) return a + b + c end print(sum(1, 2, 3))";
    assert_eq!(output_of(source), "6\n");
}

#[test]
fn both_operands_of_and_are_evaluated() {
    assert_eq!(output_of("local x = false and print(1) print(x)"), "1\nfalse\n");
}

#[test]
fn global_function_declaration() {
    assert_eq!(output_of("function double(x) return x * 2 end print(double(21))"), "42\n");
}

#[test]
fn anonymous_function_value() {
    assert_eq!(output_of("local f = function(x) return x + 1 end print(f(1))"), "2\n");
}

#[test]
fn functions_as_arguments() {
    let source = "local function apply(f, x) return f(x) end local function inc(x) return x + 1 end print(apply(inc, 1))";
    assert_eq!(output_of(source), "2\n");
}

#[test]
fn each_closure_keeps_its_own_value() {
    let source = "local function make(n) return function() return n end end local a = make(1) local b = make(2) print(a(), b(), a())";
    assert_eq!(output_of(source), "1\t2\t1\n");
}

#[test]
fn closure_reads_an_upvalue_through_two_levels() {
    let source = "local function outer(n) return function() return function() return n end end end print(outer(9)()())";
    assert_eq!(output_of(source), "9\n");
}

#[test]
fn closure_adds_its_argument_to_a_captured_value() {
    let source = "local function adder(n) return function(x) return x + n end end local add5 = adder(5) print(add5(1), add5(10))";
    assert_eq!(output_of(source), "6\t15\n");
}

#[test]
fn recursion_through_a_global() {
    let source = "function fact(n) if n <= 1 then return 1 else return n * fact(n - 1) end end print(fact(10))";
    assert_eq!(output_of(source), "3628800\n");
}

#[test]
fn deep_recursion_below_the_limit() {
    let source = "function down(n) if n == 0 then return 0 else return down(n - 1) end end print(down(900))";
    assert_eq!(output_of(source), "0\n");
}

#[test]
fn comments_are_skipped() {
    assert_eq!(output_of("-- nothing here\nprint(1) -- one\n-- end"), "1\n");
}

#[test]
fn many_strings_are_collected_and_the_live_ones_stay() {
    let source = "local keep = \"kept\" .. 1 local i = 0 local s = \"\" while i < 30000 do s = \"item\" .. i i = i + 1 end print(keep, s)";
    let mut vm = load(source);
    run_machine(&mut vm).expect("run");
    assert_eq!(render(&vm.output), "kept1\titem29999\n");
    assert!(vm.heap.max_allocated > vm.heap.total_allocated);
    assert!(vm.heap.max_allocated < 4 * 1048576);
}

#[test]
fn many_tables_are_collected() {
    let source = "local i = 0 local t = {} while i < 20000 do t = {i, i} i = i + 1 end print(t[1])";
    let mut vm = load(source);
    run_machine(&mut vm).expect("run");
    assert_eq!(render(&vm.output), "19999\n");
    assert!(vm.heap.max_allocated > vm.heap.total_allocated);
}

#[test]
fn reading_an_undefined_global_fails() {
    let (e, vm) = failure_of("print(nowhere)");
    assert_eq!(e.kind, ErrorKind::UndefinedVariable("nowhere".to_string()));
    assert_eq!(e.get_message(), "variable 'nowhere' is not defined");
    assert_eq!(e.func_name, "_start");
    assert_eq!(e.stack_trace, vec!["_start".to_string()]);
    assert_eq!(vm.call_stack.len(), 0);
}

#[test]
fn adding_a_string_to_a_number_fails() {
    let (e, _) = failure_of("local x = 1 + \"a\"");
    assert!(matches!(e.kind, ErrorKind::TypeError(_)), "{:?}", e.kind);
    let m = e.get_message();
    assert!(m.contains("number") && m.contains("string"), "{}", m);
}

#[test]
fn comparing_a_number_with_a_string_fails() {
    let (e, _) = failure_of("print(1 < \"a\")");
    assert!(matches!(e.kind, ErrorKind::TypeError(_)), "{:?}", e.kind);
}

#[test]
fn comparing_tables_fails() {
    let (e, _) = failure_of("print({} < {})");
    assert!(matches!(e.kind, ErrorKind::TypeError(_)), "{:?}", e.kind);
}

#[test]
fn negating_a_string_fails() {
    let (e, _) = failure_of("local s = \"a\" print(-s)");
    assert!(matches!(e.kind, ErrorKind::TypeError(_)), "{:?}", e.kind);
}

#[test]
fn concatenating_a_table_fails() {
    let (e, _) = failure_of("print(\"a\" .. {})");
    assert!(matches!(e.kind, ErrorKind::TypeError(_)), "{:?}", e.kind);
}

#[test]
fn indexing_a_number_fails() {
    let (e, _) = failure_of("local n = 1 print(n[1])");
    assert!(matches!(e.kind, ErrorKind::TypeError(_)), "{:?}", e.kind);
}

#[test]
fn storing_into_nil_fails() {
    let (e, _) = failure_of("local n = nil n[1] = 2");
    assert!(matches!(e.kind, ErrorKind::TypeError(_)), "{:?}", e.kind);
}

#[test]
fn dividing_by_zero_fails() {
    let (e, _) = failure_of("print(1 / 0)");
    assert!(matches!(e.kind, ErrorKind::ArithmeticError(_)), "{:?}", e.kind);
}

#[test]
fn calling_a_number_fails() {
    let (e, _) = failure_of("local x = 1 x()");
    assert!(matches!(e.kind, ErrorKind::InvalidCall(_)), "{:?}", e.kind);
}

#[test]
fn calling_nil_fails() {
    let (e, _) = failure_of("local x = nil x(1, 2)");
    assert!(matches!(e.kind, ErrorKind::InvalidCall(_)), "{:?}", e.kind);
}

#[test]
fn endless_recursion_overflows_the_call_stack() {
    let (e, vm) = failure_of("function f(n) return f(n + 1) end f(0)");
    assert_eq!(e.kind, ErrorKind::StackOverflow);
    assert_eq!(e.stack_trace.len(), MAX_CALL_STACK);
    assert_eq!(e.stack_trace[0], "_start");
    assert_eq!(e.func_name, "__local_fn_f_0");
    assert_eq!(vm.call_stack.len(), 0);
}

#[test]
fn an_error_in_a_callee_lists_the_frames_oldest_first() {
    let (e, _) = failure_of("function inner() return 1 + nil end function outer() return inner() end outer()");
    assert_eq!(
        e.stack_trace,
        vec![
            "_start".to_string(),
            "__local_fn_outer_1".to_string(),
            "__local_fn_inner_0".to_string()
        ]
    );
    assert_eq!(e.func_name, "__local_fn_inner_0");
    let report = e.report();
    let newest = report.find("#2  at __local_fn_inner_0()").expect("newest frame");
    let oldest = report.find("#0  at _start()").expect("oldest frame");
    assert!(newest < oldest);
}

#[test]
fn output_before_an_error_is_kept() {
    let (_, vm) = failure_of("print(1) print(missing) print(2)");
    assert_eq!(render(&vm.output), "1\n");
}

#[test]
fn a_run_without_fuel_pauses_and_goes_on() {
    let mut vm = load("local i = 0 while i < 10 do i = i + 1 end print(i)");
    let mut pauses = 0;
    loop {
        match vm.run(1) {
            Signal::Finished => break,
            Signal::Paused => pauses += 1,
            Signal::Arith { op, left, right } => {
                vm.resume_number(compute(op, left, right)).unwrap();
            }
            Signal::Format { bits } => {
                vm.resume_text(format!("{}", f64::from_bits(bits))).unwrap();
            }
            Signal::Fault(e) => panic!("{}", e.get_message()),
        }
    }
    assert!(pauses > 10);
    assert_eq!(render(&vm.output), "10\n");
}

#[test]
fn a_run_with_no_fuel_changes_nothing() {
    let mut vm = load("print(1)");
    assert!(matches!(vm.run(0), Signal::Paused));
    assert_eq!(vm.call_stack.len(), 1);
    assert_eq!(vm.call_stack[0].pc, 0);
    assert!(vm.output.is_empty());
}

#[test]
fn a_finished_machine_stays_finished() {
    let mut vm = load("print(1)");
    run_machine(&mut vm).unwrap();
    assert!(matches!(vm.run(10), Signal::Finished));
    assert_eq!(render(&vm.output), "1\n");
}

fn message_of(source: &str) -> String {
    failure_of(source).0.get_message()
}

#[test]
fn the_texts_of_type_errors() {
    assert_eq!(
        message_of("local x = 1 + \"a\""),
        "TypeMismatchException: binary operator 'addition' is not defined for types 'number' and 'string'"
    );
    assert_eq!(
        message_of("local x = nil - 1"),
        "TypeMismatchException: binary operator 'subtraction' is not defined for types 'nil' and 'number'"
    );
    assert_eq!(
        message_of("local x = {} * true"),
        "TypeMismatchException: binary operator 'multiplication' is not defined for types 'table' and 'boolean'"
    );
    assert_eq!(
        message_of("local x = print / 2"),
        "TypeMismatchException: binary operator 'division' is not defined for types 'function' and 'number'"
    );
    assert_eq!(
        message_of("local x = 2 ^ \"a\""),
        "TypeMismatchException: binary operator 'exponentiation' is not defined for types 'number' and 'string'"
    );
    assert_eq!(
        message_of("print(1 < \"a\")"),
        "TypeMismatchException: relational operator '<' is not defined between 'number' and 'string'"
    );
    assert_eq!(
        message_of("print({} >= 1)"),
        "TypeMismatchException: relational operator '>=' is not defined between 'table' and 'number'"
    );
    assert_eq!(
        message_of("local s = \"a\" print(-s)"),
        "TypeMismatchException: operator '-' is not defined for type 'string'"
    );
    assert_eq!(
        message_of("print(\"a\" .. nil)"),
        "NullPointerException: illegal concatenation of a nil value"
    );
    assert_eq!(
        message_of("print(true .. \"a\")"),
        "TypeMismatchException: boolean type does not support implicit string conversion for concatenation"
    );
    assert_eq!(
        message_of("print(\"a\" .. {})"),
        "IncompatibleTypesException: cannot perform string concatenation on type 'table'"
    );
    assert_eq!(
        message_of("local n = 1 print(n[1])"),
        "TypeMismatchException: attempt to perform property lookup on a non-table value (actual type: 'number')"
    );
    assert_eq!(
        message_of("local n = true n.x = 1"),
        "TypeMismatchException: attempt to index a non-table value (actual type: 'boolean')"
    );
    assert_eq!(
        message_of("local t = {} t[nil] = 1"),
        "NullPointerException: table index is nil (illegal key)"
    );
}

#[test]
fn the_texts_of_call_and_arithmetic_errors() {
    assert_eq!(message_of("local x = nil x()"), "NullPointerException: attempt to invoke a nil value");
    assert_eq!(
        message_of("local x = 1 x()"),
        "TypeMismatchException: object of type 'number' is not callable"
    );
    let (e, _) = failure_of("print(1 / 0)");
    assert_eq!(
        e.kind,
        ErrorKind::ArithmeticError("ArithmeticException: division by zero".to_string())
    );
    assert_eq!(e.get_message(), "ArithmeticError(\"ArithmeticException: division by zero\")");
    assert_eq!(e.kind.heading(), "[Arithmetic Error]");
}

#[test]
fn the_report_of_an_error() {
    let (e, _) = failure_of("print(nowhere)");
    let rule = "=".repeat(70);
    assert_eq!(
        e.report(),
        format!(
            "\n{rule}\n  variable 'nowhere' is not defined\n  Location: Function '_start' at instruction offset [PC: 0003]\n{rule}\n  Stack Traceback (most recent call first):\n    #0  at _start()\n{rule}\n",
            rule = rule
        )
    );
    let empty = VMError {
        kind: ErrorKind::StackOverflow,
        func_name: "<unknown_context>".to_string(),
        pc: 12345,
        stack_trace: vec![],
    };
    assert_eq!(
        empty.report(),
        format!(
            "\n{rule}\n  StackOverflow\n  Location: Function '<unknown_context>' at instruction offset [PC: 12345]\n{rule}\n  Stack Traceback (most recent call first):\n    <empty_stack>\n{rule}\n",
            rule = rule
        )
    );
    let deep = VMError {
        kind: ErrorKind::OutOfMemory,
        func_name: "f".to_string(),
        pc: 7,
        stack_trace: (0..12).map(|i| format!("f{}", i)).collect(),
    };
    let text = deep.report();
    assert!(text.contains("[PC: 0007]"));
    assert!(text.contains("    #11 at f11()\n    #10 at f10()\n    #9  at f9()\n"));
    assert!(text.ends_with(&format!("    #0  at f0()\n{}\n", rule)));
}

#[test]
fn the_headings_of_the_error_kinds() {
    let kinds = vec![
        (ErrorKind::TypeError("m".to_string()), "[Type Error]", "m"),
        (ErrorKind::UndefinedVariable("v".to_string()), "[Undefined Variable]", "variable 'v' is not defined"),
        (ErrorKind::InvalidCall("c".to_string()), "[Invalid Call]", "c"),
        (ErrorKind::ArithmeticError("a".to_string()), "[Arithmetic Error]", "ArithmeticError(\"a\")"),
        (ErrorKind::StackOverflow, "[Stack Overflow]", "StackOverflow"),
        (ErrorKind::OutOfMemory, "[Out Of Memory]", "OutOfMemory"),
        (ErrorKind::MultipleReturnValues("r".to_string()), "[Multiple Return Values]", "MultipleReturnValues(\"r\")"),
        (ErrorKind::InternalError("i".to_string()), "[Internal Error]", "[Internal] i"),
        (ErrorKind::UndefinedUpValue(7), "[Undefined UpValue]", "UndefinedUpValue(7)"),
    ];
    for (kind, heading, message) in kinds {
        assert_eq!(kind.heading(), heading);
        assert_eq!(kind.dup(), kind);
        let e = VMError { kind, func_name: "f".to_string(), pc: 0, stack_trace: vec![] };
        assert_eq!(e.get_message(), message);
    }
}
