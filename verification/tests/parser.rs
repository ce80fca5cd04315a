use bhasha::{
    BinOp, Expression, Interpreter, OutEvent, ParseError, Parser, Statement, Token,
};

fn ident_tok(name: &str) -> Token {
    Token::Identifier(name.to_string())
}

fn parse_ok(tokens: Vec<Token>) -> Vec<Statement> {
    let mut parser = Parser::new(tokens);
    parser.parse().expect("the token sequence should parse").statements
}

fn parse_err(tokens: Vec<Token>) -> ParseError {
    let mut parser = Parser::new(tokens);
    parser.parse().expect_err("the token sequence should be refused")
}

#[test]
fn empty_token_sequence_parses_to_empty_program() {
    assert!(parse_ok(vec![Token::TheEnd]).is_empty());
    assert!(parse_ok(vec![]).is_empty());
}

#[test]
fn declaration_and_print_parse() {
    let stmts = parse_ok(vec![
        Token::Let,
        ident_tok("x"),
        Token::Assign,
        Token::Integer(5),
        Token::StatementEnd,
        Token::Print,
        ident_tok("x"),
        Token::TheEnd,
    ]);
    assert_eq!(stmts.len(), 2);
    match &stmts[0] {
        Statement::Declaration(name, Expression::Integer(5)) => assert_eq!(name, "x"),
        _ => panic!("expected a declaration of x to 5"),
    }
    match &stmts[1] {
        Statement::Print(Expression::Identifier(name)) => assert_eq!(name, "x"),
        _ => panic!("expected a print of x"),
    }
}

#[test]
fn binary_operation_parses_from_two_primaries_and_operator() {
    let stmts = parse_ok(vec![
        Token::Let,
        ident_tok("q"),
        Token::Assign,
        Token::Integer(7),
        Token::Integer(2),
        Token::Divide,
        Token::TheEnd,
    ]);
    assert_eq!(stmts.len(), 1);
    match &stmts[0] {
        Statement::Declaration(name, Expression::BinaryOp(l, BinOp::Divide, r)) => {
            assert_eq!(name, "q");
            assert!(matches!(**l, Expression::Integer(7)));
            assert!(matches!(**r, Expression::Integer(2)));
        },
        _ => panic!("expected a declaration with one binary operation"),
    }
}

#[test]
fn three_primaries_do_not_compose_an_expression() {
    let e = parse_err(vec![
        Token::Print,
        Token::Integer(1),
        Token::Integer(2),
        Token::Integer(3),
        Token::TheEnd,
    ]);
    assert_eq!(e, ParseError::ExpectedOperator);
}

#[test]
fn two_primaries_at_end_of_input_are_refused() {
    // A second primary must be followed by an operator; the end of the
    // input is no exception and the second operand is never dropped.
    let e = parse_err(vec![
        Token::Print,
        Token::Integer(1),
        Token::Integer(2),
        Token::TheEnd,
    ]);
    assert_eq!(e, ParseError::ExpectedOperator);
}

#[test]
fn only_the_first_operator_pair_is_consumed() {
    // likho 1 2 + 3: the expression takes "1 2 +"; the trailing 3 is a
    // stray token and is skipped by the statement loop.
    let stmts = parse_ok(vec![
        Token::Print,
        Token::Integer(1),
        Token::Integer(2),
        Token::Plus,
        Token::Integer(3),
        Token::TheEnd,
    ]);
    assert_eq!(stmts.len(), 1);
    match &stmts[0] {
        Statement::Print(Expression::BinaryOp(l, BinOp::Plus, r)) => {
            assert!(matches!(**l, Expression::Integer(1)));
            assert!(matches!(**r, Expression::Integer(2)));
        },
        _ => panic!("expected a print of one binary operation"),
    }
}

#[test]
fn conditional_with_else_parses() {
    let stmts = parse_ok(vec![
        Token::If,
        Token::True,
        Token::Print,
        Token::Integer(1),
        Token::Else,
        Token::Print,
        Token::Integer(2),
        Token::BlockEnd,
        Token::TheEnd,
    ]);
    assert_eq!(stmts.len(), 1);
    match &stmts[0] {
        Statement::If { condition, then_block, else_block } => {
            assert!(matches!(condition, Expression::Boolean(true)));
            assert_eq!(then_block.len(), 1);
            assert_eq!(else_block.len(), 1);
        },
        _ => panic!("expected a conditional"),
    }
}

#[test]
fn loop_parses() {
    let stmts = parse_ok(vec![
        Token::While,
        ident_tok("i"),
        Token::Integer(3),
        Token::LessThan,
        Token::Print,
        ident_tok("i"),
        Token::BlockEnd,
        Token::TheEnd,
    ]);
    assert_eq!(stmts.len(), 1);
    match &stmts[0] {
        Statement::While { condition, body } => {
            assert!(matches!(condition, Expression::BinaryOp(_, BinOp::LessThan, _)));
            assert_eq!(body.len(), 1);
        },
        _ => panic!("expected a loop"),
    }
}

#[test]
fn input_statement_parses_name_before_type() {
    let stmts = parse_ok(vec![
        Token::Input,
        ident_tok("x"),
        ident_tok("sankhya"),
        Token::TheEnd,
    ]);
    assert_eq!(stmts.len(), 1);
    match &stmts[0] {
        Statement::Input(name, dtype) => {
            assert_eq!(name, "x");
            assert_eq!(dtype, "sankhya");
        },
        _ => panic!("expected an input statement"),
    }
}

#[test]
fn function_definition_parses() {
    let stmts = parse_ok(vec![
        Token::FunctionDef,
        ident_tok("add"),
        Token::ParamStart,
        ident_tok("a"),
        ident_tok("b"),
        Token::ParamEnd,
        Token::Print,
        ident_tok("a"),
        Token::Return,
        ident_tok("a"),
        ident_tok("b"),
        Token::Plus,
        Token::TheEnd,
    ]);
    assert_eq!(stmts.len(), 1);
    match &stmts[0] {
        Statement::FunctionDef(name, params, body, ret) => {
            assert_eq!(name, "add");
            assert_eq!(params.len(), 2);
            assert_eq!(body.len(), 1);
            assert!(matches!(ret, Expression::BinaryOp(_, BinOp::Plus, _)));
        },
        _ => panic!("expected a function definition"),
    }
}

#[test]
fn function_call_parses() {
    let stmts = parse_ok(vec![
        Token::FunctionCallStart,
        ident_tok("add"),
        Token::Integer(2),
        Token::Integer(3),
        Token::FunctionReturn,
        ident_tok("s"),
        Token::FunctionCallEnd,
        Token::TheEnd,
    ]);
    assert_eq!(stmts.len(), 1);
    match &stmts[0] {
        Statement::FunctionCall(name, args, dest) => {
            assert_eq!(name, "add");
            assert_eq!(args.len(), 2);
            assert_eq!(dest, "s");
        },
        _ => panic!("expected a function call"),
    }
}

#[test]
fn missing_identifier_after_let_is_refused() {
    let e = parse_err(vec![Token::Let, Token::Integer(1), Token::TheEnd]);
    assert_eq!(e, ParseError::ExpectedIdentifier);
}

#[test]
fn missing_assignment_marker_is_refused() {
    let e = parse_err(vec![Token::Let, ident_tok("x"), Token::Integer(1), Token::TheEnd]);
    assert_eq!(e, ParseError::InvalidSyntax);
}

#[test]
fn missing_call_terminator_is_refused() {
    let e = parse_err(vec![
        Token::FunctionCallStart,
        ident_tok("f"),
        Token::FunctionReturn,
        ident_tok("d"),
        Token::Integer(1),
        Token::TheEnd,
    ]);
    assert_eq!(e, ParseError::InvalidSyntax);
}

#[test]
fn stray_tokens_are_skipped() {
    let stmts = parse_ok(vec![
        Token::Comma,
        Token::Integer(9),
        Token::Print,
        Token::Integer(1),
        Token::StatementEnd,
        Token::TheEnd,
    ]);
    assert_eq!(stmts.len(), 1);
}

#[test]
fn print_tokens_leaves_the_parser_unchanged() {
    let mut parser = Parser::new(vec![
        Token::Print,
        Token::Integer(7),
        Token::TheEnd,
    ]);
    parser.print_tokens();
    let program = parser.parse().expect("should parse");
    assert_eq!(program.statements.len(), 1);
}

#[test]
fn parsed_program_runs_end_to_end() {
    // mana i barabar 0 . jabtak i 3 se_chota_hai likho i . mana i barabar i 1 ka_yog . aage samapt
    let tokens = vec![
        Token::Let,
        ident_tok("i"),
        Token::Assign,
        Token::Integer(0),
        Token::StatementEnd,
        Token::While,
        ident_tok("i"),
        Token::Integer(3),
        Token::LessThan,
        Token::Print,
        ident_tok("i"),
        Token::StatementEnd,
        Token::Let,
        ident_tok("i"),
        Token::Assign,
        ident_tok("i"),
        Token::Integer(1),
        Token::Plus,
        Token::StatementEnd,
        Token::BlockEnd,
        Token::TheEnd,
    ];
    let mut parser = Parser::new(tokens);
    let program = parser.parse().expect("should parse");
    let mut interp = Interpreter::new();
    let r = interp.run(&program, 1_000_000);
    assert!(r.is_ok());
    let lines: Vec<String> = interp
        .output_events()
        .iter()
        .filter_map(|ev| match ev {
            OutEvent::Line(s) => Some(s.clone()),
            OutEvent::Prompt(_) => None,
        })
        .collect();
    assert_eq!(lines, vec!["0".to_string(), "1".to_string(), "2".to_string()]);
}
