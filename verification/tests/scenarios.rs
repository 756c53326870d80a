//! Programs from source text to what they print.

use myula::backend::translator::scanner::Scanner;
use myula::backend::vm::{ArithOp, LogLevel, OutputPiece, Signal, VirtualMachine};
use myula::frontend::ir::IRGenerator;
use myula::frontend::lexer::token::Token;
use myula::frontend::lexer::{Lexeme, Lexer};
use myula::frontend::parser::Parser;

fn lex(source: &str) -> Vec<Token> {
    let mut lexer = Lexer::new(source);
    let mut tokens = Vec::new();
    loop {
        match lexer.next_token() {
            Lexeme::Token(Token::Eof) => break,
            Lexeme::Token(t) => tokens.push(t),
            Lexeme::Number(text) => {
                let n: f64 = text.parse().unwrap();
                tokens.push(Token::NumLit(n.to_bits()));
            }
        }
    }
    assert!(lexer.get_err().is_empty(), "lexer errors: {:?}", lexer.get_err());
    tokens
}

fn compute(op: ArithOp, left: u64, right: u64) -> u64 {
    let a = f64::from_bits(left);
    let b = f64::from_bits(right);
    let r = match op {
        ArithOp::Add => a + b,
        ArithOp::Sub => a - b,
        ArithOp::Mul => a * b,
        ArithOp::Div => a / b,
        ArithOp::Mod => a % b,
        ArithOp::Pow => a.powf(b),
    };
    r.to_bits()
}

fn render(output: &[OutputPiece]) -> String {
    let mut s = String::new();
    for piece in output {
        match piece {
            OutputPiece::Text(t) => s.push_str(t),
            OutputPiece::Number(bits) => s.push_str(&format!("{}", f64::from_bits(*bits))),
        }
    }
    s
}

fn run_machine(vm: &mut VirtualMachine) -> Result<(), String> {
    loop {
        match vm.run(1_000_000) {
            Signal::Finished => return Ok(()),
            Signal::Paused => return Err("out of fuel".to_string()),
            Signal::Arith { op, left, right } => {
                vm.resume_number(compute(op, left, right)).map_err(|e| e.get_message())?;
            }
            Signal::Format { bits } => {
                vm.resume_text(format!("{}", f64::from_bits(bits))).map_err(|e| e.get_message())?;
            }
            Signal::Fault(e) => return Err(e.get_message()),
        }
    }
}

fn run_program(source: &str) -> String {
    let tokens = lex(source);
    let mut parser = Parser::new(tokens);
    let program = parser.parse();
    assert!(parser.get_err().is_empty(), "parser errors: {:?}", parser.get_err());
    let mut generator = IRGenerator::new();
    generator.generate(&program);
    assert!(generator.get_err().is_empty(), "generator errors: {:?}", generator.get_err());
    let mut scanner = Scanner::new();
    scanner.global_scan(generator.get_module()).expect("scan");
    let mut vm = VirtualMachine::new();
    vm.init(&generator, LogLevel::Release, &scanner).expect("init");
    run_machine(&mut vm).expect("run");
    assert_eq!(vm.call_stack.len(), 0);
    assert_eq!(vm.value_stack.values.len(), 0);
    render(&vm.output)
}

#[test]
fn scenario_arithmetic_precedence() {
    assert_eq!(run_program("print(1 + 2 * 3)"), "7\n");
}

#[test]
fn scenario_string_concatenation() {
    assert_eq!(
        run_program("local s = \"hello\" .. \" \" .. \"world\" print(s)"),
        "hello world\n"
    );
}

#[test]
fn scenario_table_positional_fields() {
    assert_eq!(
        run_program("local t = {10, 20, 30} print(t[1]) print(t[2]) print(t[3])"),
        "10\n20\n30\n"
    );
}

#[test]
fn scenario_while_loop_sum() {
    assert_eq!(
        run_program("local x = 0 local i = 1 while i <= 5 do x = x + i i = i + 1 end print(x)"),
        "15\n"
    );
}

#[test]
fn scenario_closure_keeps_closed_upvalue() {
    assert_eq!(
        run_program(
            "local function make(n) return function() return n end end local f = make(42) print(f())"
        ),
        "42\n"
    );
}

#[test]
fn scenario_recursive_fibonacci() {
    assert_eq!(
        run_program(
            "local function fib(n) if n < 2 then return n else return fib(n-1) + fib(n-2) end end print(fib(10))"
        ),
        "55\n"
    );
}
