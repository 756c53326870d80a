//! Lexer, parser and generator of the intermediate representation.

use myula::frontend::ir::{
    IRBasicBlock, IRBinOp, IRFunction, IRGenerator, IRGeneratorError, IRInstruction, IRModule,
    IROperand, IRTerminator, IRUnOp, IRUpVal, IRUpValType,
};
use myula::frontend::lexer::token::Token;
use myula::frontend::lexer::{Lexeme, Lexer, LexerError};
use myula::frontend::parser::ast::{BinOp, Expression, Literal, Program, Statement, UnOp};
use myula::frontend::parser::{Parser, ParserErrorType};

fn lexemes(source: &str) -> (Vec<Lexeme>, Vec<LexerError>) {
    let mut lexer = Lexer::new(source);
    let mut out = Vec::new();
    loop {
        let next = lexer.next_token();
        if next == Lexeme::Token(Token::Eof) {
            break;
        }
        out.push(next);
        assert!(out.len() <= source.len() + 1);
    }
    (out, lexer.get_err().clone())
}

fn tokens(source: &str) -> Vec<Token> {
    let (found, errors) = lexemes(source);
    assert!(errors.is_empty(), "{:?}", errors);
    found
        .into_iter()
        .map(|l| match l {
            Lexeme::Token(t) => t,
            Lexeme::Number(text) => Token::NumLit(text.parse::<f64>().unwrap().to_bits()),
        })
        .collect()
}

fn parse(source: &str) -> (Program, Vec<ParserErrorType>) {
    let mut parser = Parser::new(tokens(source));
    let program = parser.parse();
    let errors = parser.get_err().iter().map(|e| e.err_type).collect();
    (program, errors)
}

fn parse_ok(source: &str) -> Vec<Statement> {
    let (program, errors) = parse(source);
    assert!(errors.is_empty(), "{:?}", errors);
    program.body
}

fn expression(source: &str) -> Expression {
    let mut body = parse_ok(source);
    assert_eq!(body.len(), 1);
    match body.remove(0) {
        Statement::ExprStatement(e) => *e,
        other => panic!("{:?}", other),
    }
}

fn generate(source: &str) -> (IRModule, Vec<IRGeneratorError>) {
    let body = parse_ok(source);
    let mut generator = IRGenerator::new();
    generator.generate(&Program { body });
    (generator.get_module().clone(), generator.get_err().clone())
}

fn module_of(source: &str) -> IRModule {
    let (module, errors) = generate(source);
    assert!(errors.is_empty(), "{:?}", errors);
    module
}

fn ident(name: &str) -> Expression {
    Expression::Identifier(name.to_string())
}

fn number(x: f64) -> Expression {
    Expression::Literal(Literal::Number(x.to_bits()))
}

fn binary(left: Expression, operator: BinOp, right: Expression) -> Expression {
    Expression::BinOp { left: Box::new(left), operator, right: Box::new(right) }
}

fn imm(x: f64) -> IROperand {
    IROperand::ImmFloat(x.to_bits())
}

#[test]
fn it_works() {
    let source = "
        local function hello_world()
            print(\"Hello, World!\")
        end
        local function fake_closure()
            return function(x, y)
                return x + y
            end
        end
        if true then
            local test = 123
        else
            local test = 456
        end
        y = 114514.1919810
        z = 123
        local x = 10 + 20 * (30 - 5)
        print(w()[1 + 1]()[42][\"hello\"])
        local out = 0
        if x >= 100 then
            out = 0
            print(out)
        else
            out = 1
            print(456)
        end
        while x < 200 do
            x = x + 1
        end
        repeat
            x = x + 2
        until x >= 300
        local tbl = {a = 1, b = 2, c = 3, 4, 5, 6, [ 1 + 1 ] = 42}
        tbl.hello = \"world\"
        tbl[2] = 3
        print(tbl[\"hello\"])
        print(tbl.a)
        print(tbl[\"b\"])
        print(tbl[1])
        ";
    let mut lexer = Lexer::new(source);
    let mut found = Vec::new();
    loop {
        match lexer.next_token() {
            Lexeme::Token(Token::Eof) => break,
            Lexeme::Token(t) => found.push(t),
            Lexeme::Number(text) => found.push(Token::NumLit(text.parse::<f64>().unwrap().to_bits())),
        }
    }
    let mut parser = Parser::new(found);
    let ast = parser.parse();
    println!("{:#?}", ast);
    println!("Lexer Errors: {:#?}", lexer.get_err());
    println!("Parser Errors: {:#?}", parser.get_err());
    assert!(lexer.get_err().is_empty());
    assert!(parser.get_err().is_empty());
    assert_eq!(ast.body.len(), 18);

    let mut ir_gen = IRGenerator::new();
    ir_gen.generate(&ast);
    println!("{}", ir_gen.get_module().to_string());
    println!("IR Generation Errors: {:#?}", ir_gen.get_err());
    assert!(ir_gen.get_err().is_empty());
    let names: Vec<&str> = ir_gen.get_module().functions.iter().map(|f| f.name.as_str()).collect();
    assert_eq!(names, vec!["__local_fn_hello_world_0", "__anon_fn_2", "__local_fn_fake_closure_1", "_start"]);
}

#[test]
fn a_declaration_is_split_into_its_tokens() {
    let (found, errors) = lexemes("local x = 10 + 2.5");
    assert!(errors.is_empty());
    assert_eq!(
        found,
        vec![
            Lexeme::Token(Token::KwLocal),
            Lexeme::Token(Token::Ident("x".to_string())),
            Lexeme::Token(Token::Assign),
            Lexeme::Number("10".to_string()),
            Lexeme::Token(Token::Plus),
            Lexeme::Number("2.5".to_string()),
        ]
    );
}

#[test]
fn every_operator_and_mark_has_its_token() {
    assert_eq!(
        tokens("== ~= <= >= < > .. . = + - * / ^ % # ( ) { } [ ] , ; : @"),
        vec![
            Token::Eq,
            Token::Neq,
            Token::Leq,
            Token::Geq,
            Token::Lt,
            Token::Gt,
            Token::Concat,
            Token::Dot,
            Token::Assign,
            Token::Plus,
            Token::Minus,
            Token::Asterisk,
            Token::Slash,
            Token::Hat,
            Token::Percent,
            Token::Hash,
            Token::LParen,
            Token::RParen,
            Token::LBrace,
            Token::RBrace,
            Token::LBracket,
            Token::RBracket,
            Token::Comma,
            Token::Semicolon,
            Token::Colon,
            Token::At,
        ]
    );
    assert_eq!(tokens("a<=b"), vec![Token::Ident("a".into()), Token::Leq, Token::Ident("b".into())]);
    assert_eq!(tokens("a..b"), vec![Token::Ident("a".into()), Token::Concat, Token::Ident("b".into())]);
}

#[test]
fn keywords_are_told_from_names() {
    assert_eq!(
        tokens("and or not nil true false if then else elseif end while do repeat until function return local"),
        vec![
            Token::KwAnd,
            Token::KwOr,
            Token::KwNot,
            Token::KwNil,
            Token::KwTrue,
            Token::KwFalse,
            Token::KwIf,
            Token::KwThen,
            Token::KwElse,
            Token::KwElseIf,
            Token::KwEnd,
            Token::KwWhile,
            Token::KwDo,
            Token::KwRepeat,
            Token::KwUntil,
            Token::KwFunction,
            Token::KwReturn,
            Token::KwLocal,
        ]
    );
    assert_eq!(
        tokens("iff _x x1 End locals"),
        vec![
            Token::Ident("iff".into()),
            Token::Ident("_x".into()),
            Token::Ident("x1".into()),
            Token::Ident("End".into()),
            Token::Ident("locals".into()),
        ]
    );
    assert_eq!(Lexer::is_keyword(&"while".to_string()), Some(Token::KwWhile));
    assert_eq!(Lexer::is_keyword(&"whale".to_string()), None);
}

#[test]
fn strings_take_either_quote() {
    assert_eq!(
        tokens("\"a b\" 'c' \"\" \"it's\""),
        vec![
            Token::StrLit("a b".into()),
            Token::StrLit("c".into()),
            Token::StrLit("".into()),
            Token::StrLit("it's".into()),
        ]
    );
    assert_eq!(tokens("\"h\u{e9}\""), vec![Token::StrLit("h\u{e9}".into())]);
}

#[test]
fn comments_and_white_space_are_skipped() {
    assert_eq!(tokens("-- nothing\n  1 -- one\n\t2--two"), vec![
        Token::NumLit(1.0f64.to_bits()),
        Token::NumLit(2.0f64.to_bits()),
    ]);
    assert_eq!(tokens(""), vec![]);
    assert_eq!(tokens("   \n\t "), vec![]);
    assert_eq!(tokens("-- only a comment"), vec![]);
    assert_eq!(tokens("a - b"), vec![Token::Ident("a".into()), Token::Minus, Token::Ident("b".into())]);
}

#[test]
fn a_numeral_has_digits_and_at_most_one_point() {
    let (found, errors) = lexemes("12 3.25 7. 1.2.3");
    assert!(errors.is_empty());
    assert_eq!(
        found,
        vec![
            Lexeme::Number("12".into()),
            Lexeme::Number("3.25".into()),
            Lexeme::Number("7.".into()),
            Lexeme::Number("1.2".into()),
            Lexeme::Token(Token::Dot),
            Lexeme::Number("3".into()),
        ]
    );
}

#[test]
fn a_string_without_its_closing_quote_is_an_error() {
    let (found, errors) = lexemes("x = \"abc");
    assert_eq!(errors, vec![LexerError::UnterminatedString]);
    assert_eq!(
        found,
        vec![
            Lexeme::Token(Token::Ident("x".into())),
            Lexeme::Token(Token::Assign),
            Lexeme::Token(Token::StrLit("".into())),
        ]
    );
}

#[test]
fn a_character_that_starts_no_token_is_an_error() {
    let (found, errors) = lexemes("a $ b");
    assert_eq!(errors, vec![LexerError::UnexpectedCharacter('$')]);
    assert_eq!(
        found,
        vec![
            Lexeme::Token(Token::Ident("a".into())),
            Lexeme::Token(Token::Errno),
            Lexeme::Token(Token::Ident("b".into())),
        ]
    );
    let (found, errors) = lexemes("a ~ b ~= c");
    assert!(errors.is_empty());
    assert_eq!(
        found,
        vec![
            Lexeme::Token(Token::Ident("a".into())),
            Lexeme::Token(Token::Errno),
            Lexeme::Token(Token::Ident("b".into())),
            Lexeme::Token(Token::Neq),
            Lexeme::Token(Token::Ident("c".into())),
        ]
    );
}

#[test]
fn the_host_files_a_numeral_that_it_cannot_read() {
    let mut lexer = Lexer::new("1");
    assert!(lexer.get_err().is_empty());
    lexer.emit_err(LexerError::InvalidNumber);
    assert_eq!(lexer.get_err(), &vec![LexerError::InvalidNumber]);
}

#[test]
fn the_lexer_moves_through_the_text() {
    let mut lexer = Lexer::new("  ab  cd");
    assert_eq!(lexer.get_pos(), 0);
    assert!(!lexer.is_eof());
    assert_eq!(lexer.peek_char(), Some(' '));
    lexer.skip_ws();
    assert_eq!(lexer.get_pos(), 2);
    assert_eq!(lexer.advance(), Some('a'));
    assert_eq!(lexer.get_pos(), 3);
    assert_eq!(lexer.next_token(), Lexeme::Token(Token::Ident("b".into())));
    assert_eq!(lexer.next_token(), Lexeme::Token(Token::Ident("cd".into())));
    assert!(lexer.is_eof());
    assert_eq!(lexer.peek_char(), None);
    assert_eq!(lexer.advance(), None);
    assert_eq!(lexer.next_token(), Lexeme::Token(Token::Eof));
    assert_eq!(lexer.next_token(), Lexeme::Token(Token::Eof));
    assert_eq!(lexer.get_pos(), 8);
}

#[test]
fn multiplication_binds_tighter_than_addition() {
    assert_eq!(
        expression("f(1 + 2 * 3)"),
        Expression::FnCall {
            callee: Box::new(ident("f")),
            arguments: vec![binary(
                number(1.0),
                BinOp::Add,
                binary(number(2.0), BinOp::Mul, number(3.0))
            )],
        }
    );
}

#[test]
fn operators_of_one_rank_group_to_the_left() {
    assert_eq!(
        expression("f(a - b - c)"),
        Expression::FnCall {
            callee: Box::new(ident("f")),
            arguments: vec![binary(binary(ident("a"), BinOp::Sub, ident("b")), BinOp::Sub, ident("c"))],
        }
    );
}

#[test]
fn power_and_concatenation_group_to_the_right() {
    assert_eq!(
        expression("f(a ^ b ^ c)"),
        Expression::FnCall {
            callee: Box::new(ident("f")),
            arguments: vec![binary(ident("a"), BinOp::Pow, binary(ident("b"), BinOp::Pow, ident("c")))],
        }
    );
    assert_eq!(
        expression("f(a .. b .. c)"),
        Expression::FnCall {
            callee: Box::new(ident("f")),
            arguments: vec![binary(
                ident("a"),
                BinOp::Concat,
                binary(ident("b"), BinOp::Concat, ident("c"))
            )],
        }
    );
    assert_eq!(
        expression("a = b = c"),
        binary(binary(ident("a"), BinOp::Assign, ident("b")), BinOp::Assign, ident("c"))
    );
    assert!(Parser::is_binop_right_assoc(BinOp::Pow));
    assert!(Parser::is_binop_right_assoc(BinOp::Concat));
    assert!(!Parser::is_binop_right_assoc(BinOp::Add));
    assert!(!Parser::is_binop_right_assoc(BinOp::Assign));
    assert!(!Parser::is_binop_right_assoc(BinOp::And));
}

#[test]
fn the_ranks_of_the_operators() {
    let ranks: Vec<u8> = [
        BinOp::Assign,
        BinOp::Or,
        BinOp::And,
        BinOp::Eq,
        BinOp::Neq,
        BinOp::Lt,
        BinOp::Gt,
        BinOp::Leq,
        BinOp::Geq,
        BinOp::Concat,
        BinOp::Add,
        BinOp::Sub,
        BinOp::Mul,
        BinOp::Div,
        BinOp::Pow,
    ]
    .iter()
    .map(|op| Parser::binop_precedence(*op))
    .collect();
    assert_eq!(ranks, vec![0, 1, 2, 3, 3, 3, 3, 3, 3, 4, 5, 5, 6, 6, 7]);
    assert_eq!(Parser::token_to_ast_binop(&Token::Concat), Some(BinOp::Concat));
    assert_eq!(Parser::token_to_ast_binop(&Token::KwAnd), Some(BinOp::And));
    assert_eq!(Parser::token_to_ast_binop(&Token::Percent), None);
    assert_eq!(Parser::token_to_ast_binop(&Token::Comma), None);
}

#[test]
fn comparison_binds_looser_than_arithmetic_and_tighter_than_and() {
    assert_eq!(
        expression("f(a + 1 < b and c)"),
        Expression::FnCall {
            callee: Box::new(ident("f")),
            arguments: vec![binary(
                binary(binary(ident("a"), BinOp::Add, number(1.0)), BinOp::Lt, ident("b")),
                BinOp::And,
                ident("c")
            )],
        }
    );
}

#[test]
fn unary_operators_apply_to_what_follows() {
    assert_eq!(
        expression("f(-a, not b)"),
        Expression::FnCall {
            callee: Box::new(ident("f")),
            arguments: vec![
                Expression::UnOp { operator: UnOp::Neg, operand: Box::new(ident("a")) },
                Expression::UnOp { operator: UnOp::Not, operand: Box::new(ident("b")) },
            ],
        }
    );
}

#[test]
fn calls_indices_and_members_chain_to_the_left() {
    assert_eq!(
        expression("a.b[1](2)"),
        Expression::FnCall {
            callee: Box::new(Expression::IndexOf {
                collection: Box::new(Expression::MemberAccess {
                    collection: Box::new(ident("a")),
                    member: "b".to_string(),
                }),
                index: Box::new(number(1.0)),
            }),
            arguments: vec![number(2.0)],
        }
    );
}

#[test]
fn a_table_constructor_keeps_its_fields_in_order() {
    let body = parse_ok("local t = {10, x = 1, [2] = 3, \"s\"}");
    assert_eq!(
        body,
        vec![Statement::Declaration {
            names: vec!["t".to_string()],
            values: vec![Expression::TableCtor {
                fields: vec![
                    (None, number(10.0)),
                    (Some(Expression::Literal(Literal::String("x".to_string()))), number(1.0)),
                    (Some(number(2.0)), number(3.0)),
                    (None, Expression::Literal(Literal::String("s".to_string()))),
                ],
            }],
        }]
    );
}

#[test]
fn a_local_declaration_takes_several_names_and_values() {
    assert_eq!(
        parse_ok("local a, b = 1, 2 local c = nil"),
        vec![
            Statement::Declaration {
                names: vec!["a".to_string(), "b".to_string()],
                values: vec![number(1.0), number(2.0)],
            },
            Statement::Declaration {
                names: vec!["c".to_string()],
                values: vec![Expression::Literal(Literal::Nil)],
            },
        ]
    );
}

#[test]
fn a_local_declaration_needs_a_value() {
    let (program, errors) = parse("local c");
    assert!(program.body.is_empty());
    assert_eq!(errors.first(), Some(&ParserErrorType::UnexpectedToken));
}

#[test]
fn a_return_may_stand_alone() {
    assert_eq!(parse_ok("return"), vec![Statement::ReturnStmt { values: vec![] }]);
    assert_eq!(
        parse_ok("if a then return end"),
        vec![Statement::IfStmt {
            condition: Box::new(ident("a")),
            then_branch: vec![Statement::ReturnStmt { values: vec![] }],
            elif_branches: vec![],
            else_branch: None,
        }]
    );
}

#[test]
fn statements_of_control() {
    let body = parse_ok(
        "if a then b() elseif c then d() else e() end while a do b() end repeat b() until a return a",
    );
    let call = |n: &str| {
        Statement::ExprStatement(Box::new(Expression::FnCall {
            callee: Box::new(ident(n)),
            arguments: vec![],
        }))
    };
    assert_eq!(
        body,
        vec![
            Statement::IfStmt {
                condition: Box::new(ident("a")),
                then_branch: vec![call("b")],
                elif_branches: vec![(ident("c"), vec![call("d")])],
                else_branch: Some(vec![call("e")]),
            },
            Statement::WhileStmt { condition: Box::new(ident("a")), body: vec![call("b")] },
            Statement::RepeatStmt { body: vec![call("b")], condition: Box::new(ident("a")) },
            Statement::ReturnStmt { values: vec![ident("a")] },
        ]
    );
}

#[test]
fn functions_are_declarations_of_function_literals() {
    let body = parse_ok("local function f(a, b) return a end function g() end local h = function(x) end");
    assert_eq!(body.len(), 3);
    match &body[0] {
        Statement::Declaration { names, values } => {
            assert_eq!(names, &vec!["f".to_string()]);
            match &values[0] {
                Expression::Literal(Literal::Function { params, body, name }) => {
                    assert_eq!(params, &vec!["a".to_string(), "b".to_string()]);
                    assert_eq!(body, &vec![Statement::ReturnStmt { values: vec![ident("a")] }]);
                    assert_eq!(name, &Some("f".to_string()));
                }
                other => panic!("{:?}", other),
            }
        }
        other => panic!("{:?}", other),
    }
    match &body[2] {
        Statement::Declaration { values, .. } => match &values[0] {
            Expression::Literal(Literal::Function { params, name, .. }) => {
                assert_eq!(params, &vec!["x".to_string()]);
                assert_eq!(name, &None);
            }
            other => panic!("{:?}", other),
        },
        other => panic!("{:?}", other),
    }
}

#[test]
fn an_empty_program_has_no_statements() {
    assert!(parse_ok("").is_empty());
    assert!(parse_ok("-- nothing").is_empty());
}

#[test]
fn a_missing_bracket_is_reported() {
    let mut parser = Parser::new(tokens("f(1, 2"));
    parser.parse();
    assert!(parser.get_err().iter().any(|e| e.err_type == ParserErrorType::UnclosedBrackets
        && e.message == "Expected ')' after function call arguments"
        && e.pos == 5));
    let mut parser = Parser::new(tokens("t[1"));
    parser.parse();
    assert!(parser.get_err().iter().any(|e| e.err_type == ParserErrorType::UnclosedBrackets
        && e.message == "Expected ']' after index expression"
        && e.pos == 3));
}

#[test]
fn a_token_out_of_place_is_reported() {
    let (_, errors) = parse("local = 1");
    assert!(errors.contains(&ParserErrorType::UnexpectedToken), "{:?}", errors);
    let (_, errors) = parse("if a b() end");
    assert!(errors.contains(&ParserErrorType::UnexpectedToken), "{:?}", errors);
}

#[test]
fn an_operator_without_its_operand_is_reported() {
    let (_, errors) = parse("x = 1 +");
    assert!(errors.contains(&ParserErrorType::InvalidExpression), "{:?}", errors);
    let (_, errors) = parse("x = * 2");
    assert!(errors.contains(&ParserErrorType::InvalidExpression), "{:?}", errors);
}

#[test]
fn a_block_that_the_text_ends_in_is_reported() {
    let (_, errors) = parse("while a do b()");
    assert_eq!(errors.last(), Some(&ParserErrorType::UnexpectedToken));
    let (_, errors) = parse("function f()");
    assert_eq!(errors.last(), Some(&ParserErrorType::UnexpectedToken));
}

#[test]
fn the_parser_stops_at_the_first_statement_that_fails() {
    let mut parser = Parser::new(tokens("x = ) y = 2"));
    let program = parser.parse();
    assert!(!parser.get_err().is_empty());
    assert_eq!(parser.get_err()[0].err_type, ParserErrorType::InvalidExpression);
    assert_eq!(parser.get_err()[0].pos, 2);
    assert_eq!(parser.get_pos(), 2);
    assert!(!program.body.contains(&Statement::ExprStatement(Box::new(binary(
        ident("y"),
        BinOp::Assign,
        number(2.0)
    )))));
}

#[test]
fn a_program_becomes_the_entry_function() {
    let module = module_of("print(1 + 2 * 3)");
    assert_eq!(module.functions.len(), 1);
    let start = &module.functions[0];
    assert_eq!(start.name, "_start");
    assert!(start.params.is_empty());
    assert!(start.local_variables.is_empty());
    assert!(start.upvalues.is_empty());
    assert!(start.sub_functions.is_empty());
    assert_eq!(
        start.basic_blocks,
        vec![IRBasicBlock {
            id: 0,
            instructions: vec![
                IRInstruction::LoadImm { dest: 0, value: IROperand::ImmStr("print".to_string()) },
                IRInstruction::LoadGlobal { dest: 1, name: IROperand::Reg(0) },
                IRInstruction::LoadImm { dest: 2, value: imm(1.0) },
                IRInstruction::LoadImm { dest: 3, value: imm(2.0) },
                IRInstruction::LoadImm { dest: 4, value: imm(3.0) },
                IRInstruction::Binary {
                    dest: 5,
                    src1: IROperand::Reg(3),
                    src2: IROperand::Reg(4),
                    operator: IRBinOp::Mul,
                },
                IRInstruction::Binary {
                    dest: 6,
                    src1: IROperand::Reg(2),
                    src2: IROperand::Reg(5),
                    operator: IRBinOp::Add,
                },
                IRInstruction::Call { dest: 7, callee: IROperand::Reg(1), args: vec![IROperand::Reg(6)] },
                IRInstruction::Drop { src: IROperand::Reg(7) },
            ],
            terminator: IRTerminator::Return(vec![IROperand::Unit]),
        }]
    );
}

#[test]
fn locals_get_slots_and_globals_go_by_name() {
    let module = module_of("local a = 1 b = a");
    let start = &module.functions[0];
    assert_eq!(start.local_variables, vec![("a".to_string(), 0)]);
    let instructions = &start.basic_blocks[0].instructions;
    assert!(instructions.contains(&IRInstruction::StoreLocal {
        dest: 1,
        dst: IROperand::Slot(0),
        src: IROperand::Reg(0),
    }));
    assert!(instructions.iter().any(|i| matches!(i, IRInstruction::LoadLocal { src: IROperand::Slot(0), .. })));
    assert!(instructions.iter().any(|i| matches!(i, IRInstruction::StoreGlobal { .. })));
}

#[test]
fn an_if_statement_branches_and_joins() {
    let module = module_of("local a = 1 if a then a = 2 else a = 3 end a = 4");
    let blocks = &module.functions[0].basic_blocks;
    assert_eq!(blocks.len(), 4);
    let (br_true, br_false) = match &blocks[0].terminator {
        IRTerminator::Branch { br_true, br_false, .. } => (*br_true, *br_false),
        other => panic!("{:?}", other),
    };
    assert_eq!(blocks[1].id, br_true);
    assert_eq!(blocks[2].id, br_false);
    let join = blocks[3].id;
    assert_eq!(blocks[1].terminator, IRTerminator::Jump(join));
    assert_eq!(blocks[2].terminator, IRTerminator::Jump(join));
    assert_eq!(blocks[3].terminator, IRTerminator::Return(vec![IROperand::Unit]));
    let mut ids: Vec<usize> = blocks.iter().map(|b| b.id).collect();
    ids.sort();
    ids.dedup();
    assert_eq!(ids.len(), 4);
}

#[test]
fn a_while_loop_jumps_back_to_its_condition() {
    let module = module_of("local i = 0 while i < 3 do i = i + 1 end");
    let blocks = &module.functions[0].basic_blocks;
    let cond = blocks
        .iter()
        .find(|b| matches!(b.terminator, IRTerminator::Branch { .. }))
        .expect("a branch");
    let (body, exit) = match &cond.terminator {
        IRTerminator::Branch { br_true, br_false, .. } => (*br_true, *br_false),
        other => panic!("{:?}", other),
    };
    let body_block = blocks.iter().find(|b| b.id == body).unwrap();
    assert_eq!(body_block.terminator, IRTerminator::Jump(cond.id));
    assert!(blocks.iter().any(|b| b.id == exit));
}

#[test]
fn a_nested_function_captures_a_local_of_its_parent() {
    let module = module_of("local function make(n) return function() return n end end");
    let names: Vec<&str> = module.functions.iter().map(|f| f.name.as_str()).collect();
    assert_eq!(names, vec!["__anon_fn_1", "__local_fn_make_0", "_start"]);
    let inner = &module.functions[0];
    assert_eq!(
        inner.upvalues,
        vec![("n".to_string(), IRUpVal { slot: 0, ty: IRUpValType::LocalVar(0) })]
    );
    assert!(inner.basic_blocks[0]
        .instructions
        .contains(&IRInstruction::LoadUpVal { dest: 0, src: IROperand::UpVal(0) }));
    let make = &module.functions[1];
    assert_eq!(make.params, vec!["n".to_string()]);
    assert_eq!(make.local_variables, vec![("n".to_string(), 0)]);
    assert_eq!(make.sub_functions, vec!["__anon_fn_1".to_string()]);
    assert!(make.basic_blocks[0].instructions.iter().any(|i| matches!(
        i,
        IRInstruction::FnProto { func_proto: IROperand::Proto(p), .. } if p == "__anon_fn_1"
    )));
    let start = &module.functions[2];
    assert_eq!(start.sub_functions, vec!["__local_fn_make_0".to_string()]);
}

#[test]
fn a_capture_through_two_levels_goes_through_the_upvalue_of_the_parent() {
    let module = module_of(
        "local function outer(n) return function() return function() return n end end end",
    );
    let innermost = &module.functions[0];
    let middle = &module.functions[1];
    assert_eq!(
        middle.upvalues,
        vec![("n".to_string(), IRUpVal { slot: 0, ty: IRUpValType::LocalVar(0) })]
    );
    assert_eq!(
        innermost.upvalues,
        vec![("n".to_string(), IRUpVal { slot: 0, ty: IRUpValType::UpVal(0) })]
    );
}

#[test]
fn assigning_to_what_is_no_place_is_an_error() {
    let (_, errors) = generate("1 = 2");
    assert_eq!(errors, vec![IRGeneratorError::InvalidLValue]);
    let (_, errors) = generate("f() = 2");
    assert_eq!(errors, vec![IRGeneratorError::InvalidLValue]);
}

#[test]
fn assigning_to_a_captured_variable_is_an_error() {
    let (_, errors) = generate("local function f(n) return function() n = 1 end end");
    assert_eq!(errors, vec![IRGeneratorError::UndefinedVariable("n".to_string())]);
}

#[test]
fn a_statement_after_a_return_is_an_error() {
    let (_, errors) = generate("return 1 local x = 2");
    assert!(errors.contains(&IRGeneratorError::UnreachableCode), "{:?}", errors);
}

#[test]
fn a_second_return_is_an_error() {
    let (_, errors) = generate("return 1 return 2");
    assert!(errors.contains(&IRGeneratorError::MultipleReturnStatements), "{:?}", errors);
}

#[test]
fn a_unary_plus_is_not_lowered() {
    let program = Program {
        body: vec![Statement::ExprStatement(Box::new(Expression::UnOp {
            operator: UnOp::Pos,
            operand: Box::new(number(1.0)),
        }))],
    };
    let mut generator = IRGenerator::new();
    generator.generate(&program);
    assert!(matches!(generator.get_err().first(), Some(IRGeneratorError::Unsupported(_))), "{:?}", generator.get_err());
}

#[test]
fn operators_are_named_in_lower_case() {
    let names: Vec<String> = [
        IRBinOp::Add,
        IRBinOp::Sub,
        IRBinOp::Mul,
        IRBinOp::Div,
        IRBinOp::Pow,
        IRBinOp::Concat,
        IRBinOp::Eq,
        IRBinOp::Neq,
        IRBinOp::Lt,
        IRBinOp::Gt,
        IRBinOp::Leq,
        IRBinOp::Geq,
        IRBinOp::And,
        IRBinOp::Or,
    ]
    .iter()
    .map(|op| op.to_string())
    .collect();
    assert_eq!(
        names,
        vec!["add", "sub", "mul", "div", "pow", "concat", "eq", "neq", "lt", "gt", "leq", "geq", "and", "or"]
    );
    assert_eq!(IRUnOp::Neg.to_string(), "neg");
    assert_eq!(IRUnOp::Not.to_string(), "not");
}

#[test]
fn operands_and_instructions_are_shown_as_text() {
    assert_eq!(IROperand::Reg(3).to_string(), "%3");
    assert_eq!(IROperand::Slot(2).to_string(), "%local_2");
    assert_eq!(IROperand::UpVal(1).to_string(), "%upval_1");
    assert_eq!(IROperand::Proto("f".to_string()).to_string(), "@f");
    assert_eq!(IROperand::ImmBool(true).to_string(), "$true");
    assert_eq!(IROperand::ImmBool(false).to_string(), "$false");
    assert_eq!(IROperand::ImmStr("hi".to_string()).to_string(), "$\"hi\"");
    assert_eq!(IROperand::Nil.to_string(), "$nil");
    assert_eq!(IROperand::Unit.to_string(), "$unit");
    assert_eq!(imm(1.0).to_string(), "$bits:4607182418800017408");
    assert_eq!(
        IRInstruction::Binary {
            dest: 6,
            src1: IROperand::Reg(2),
            src2: IROperand::Reg(5),
            operator: IRBinOp::Add,
        }
        .to_string(),
        "%6 = add %2 %5"
    );
    assert_eq!(
        IRInstruction::Call {
            dest: 7,
            callee: IROperand::Reg(1),
            args: vec![IROperand::Reg(6), IROperand::Nil],
        }
        .to_string(),
        "%7 = Call %1, [%6, $nil]"
    );
    assert_eq!(
        IRInstruction::Call { dest: 0, callee: IROperand::Reg(1), args: vec![] }.to_string(),
        "%0 = Call %1, []"
    );
    assert_eq!(IRInstruction::Drop { src: IROperand::Reg(7) }.to_string(), "%nil = Drop %7");
    assert_eq!(
        IRInstruction::SetIndex {
            dest: 1,
            collection: IROperand::Reg(2),
            index: IROperand::Reg(3),
            value: IROperand::Reg(4),
        }
        .to_string(),
        "%1 = SetIndex %2, %3, %4"
    );
    assert_eq!(
        IRInstruction::StoreLocal { dest: 1, dst: IROperand::Slot(0), src: IROperand::Reg(0) }.to_string(),
        "%1 = StoreLocal %local_0 %0"
    );
    assert_eq!(IRTerminator::Return(vec![]).to_string(), "Return []");
    assert_eq!(IRTerminator::Return(vec![IROperand::Reg(1)]).to_string(), "Return [%1]");
    assert_eq!(IRTerminator::Jump(3).to_string(), "Jump _Tag3");
    assert_eq!(
        IRTerminator::Branch { cond: IROperand::Reg(0), br_true: 1, br_false: 2 }.to_string(),
        "Branch %0, _Tag1, _Tag2"
    );
    assert_eq!(IRTerminator::FallThrough.to_string(), "FallThrough");
}

#[test]
fn a_function_is_shown_with_its_variables_and_blocks() {
    let func = IRFunction {
        name: "f".to_string(),
        params: vec!["a".to_string(), "b".to_string()],
        basic_blocks: vec![
            IRBasicBlock {
                id: 0,
                instructions: vec![IRInstruction::LoadLocal { dest: 0, src: IROperand::Slot(0) }],
                terminator: IRTerminator::Jump(1),
            },
            IRBasicBlock { id: 1, instructions: vec![], terminator: IRTerminator::Return(vec![IROperand::Reg(0)]) },
        ],
        local_variables: vec![("a".to_string(), 0), ("b".to_string(), 1)],
        upvalues: vec![("n".to_string(), IRUpVal { slot: 0, ty: IRUpValType::LocalVar(2) })],
        sub_functions: vec!["g".to_string()],
    };
    let expected = "function f(param a: %local_0, param b: %local_1) {\n\
; %local_0 = a\n\
; %local_1 = b\n\
;\n\
; %upval_0 = n (%local_2 of parent)\n\
;\n\
; subfn #0: @g\n\
_Tag0:\n  %0 = LoadLocal %local_0\n  Jump _Tag1\n\n_Tag1:\n  Return [%0]\n}";
    assert_eq!(func.to_string(), expected);
    let empty = IRFunction {
        name: "e".to_string(),
        params: vec![],
        basic_blocks: vec![],
        local_variables: vec![],
        upvalues: vec![],
        sub_functions: vec![],
    };
    assert_eq!(
        empty.to_string(),
        "function e(void) {\n; <no local variables>\n;\n; <no upvalues>\n;\n; <no sub functions>\n}"
    );
    let module = IRModule { functions: vec![empty.clone(), empty] };
    let one = "function e(void) {\n; <no local variables>\n;\n; <no upvalues>\n;\n; <no sub functions>\n}";
    assert_eq!(module.to_string(), format!("{}\n\n{}", one, one));
    assert_eq!(IRModule { functions: vec![] }.to_string(), "");
}
