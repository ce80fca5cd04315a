use bhasha::{
    BinOp, Expression, Interpreter, OutEvent, Program, RtError, Statement, Value, eval_binop,
    is_truthy,
};

fn ident(name: &str) -> Expression {
    Expression::Identifier(name.to_string())
}

fn binop(l: Expression, op: BinOp, r: Expression) -> Expression {
    Expression::BinaryOp(Box::new(l), op, Box::new(r))
}

fn run_program(statements: Vec<Statement>, inputs: Vec<String>) -> (Interpreter, Result<(), RtError>) {
    let mut interp = Interpreter::new();
    interp.set_inputs(inputs);
    let r = interp.run(&Program { statements }, 1_000_000);
    (interp, r)
}

fn lines(interp: &Interpreter) -> Vec<String> {
    interp
        .output_events()
        .iter()
        .filter_map(|ev| match ev {
            OutEvent::Line(s) => Some(s.clone()),
            OutEvent::Prompt(_) => None,
        })
        .collect()
}

#[test]
fn scenario_declare_and_print() {
    let (interp, r) = run_program(
        vec![
            Statement::Declaration("x".to_string(), Expression::Integer(5)),
            Statement::Print(ident("x")),
        ],
        vec![],
    );
    assert!(r.is_ok());
    assert_eq!(lines(&interp), vec!["5".to_string()]);
}

#[test]
fn scenario_false_condition_runs_else_block() {
    let (interp, r) = run_program(
        vec![Statement::If {
            condition: Expression::Boolean(false),
            then_block: vec![Statement::Print(Expression::Text("then".to_string()))],
            else_block: vec![
                Statement::Print(Expression::Text("else one".to_string())),
                Statement::Print(Expression::Text("else two".to_string())),
            ],
        }],
        vec![],
    );
    assert!(r.is_ok());
    assert_eq!(lines(&interp), vec!["else one".to_string(), "else two".to_string()]);
}

#[test]
fn scenario_counting_loop() {
    let (interp, r) = run_program(
        vec![
            Statement::Declaration("i".to_string(), Expression::Integer(0)),
            Statement::While {
                condition: binop(ident("i"), BinOp::LessThan, Expression::Integer(3)),
                body: vec![
                    Statement::Print(ident("i")),
                    Statement::Assignment(
                        "i".to_string(),
                        binop(ident("i"), BinOp::Plus, Expression::Integer(1)),
                    ),
                ],
            },
        ],
        vec![],
    );
    assert!(r.is_ok());
    assert_eq!(lines(&interp), vec!["0".to_string(), "1".to_string(), "2".to_string()]);
}

#[test]
fn scenario_function_sum() {
    let (interp, r) = run_program(
        vec![
            Statement::FunctionDef(
                "add".to_string(),
                vec![ident("a"), ident("b")],
                vec![],
                binop(ident("a"), BinOp::Plus, ident("b")),
            ),
            Statement::FunctionCall(
                "add".to_string(),
                vec![Expression::Integer(2), Expression::Integer(3)],
                "s".to_string(),
            ),
            Statement::Print(ident("s")),
        ],
        vec![],
    );
    assert!(r.is_ok());
    assert_eq!(lines(&interp), vec!["5".to_string()]);
}

#[test]
fn scenario_integer_input_parse_failure() {
    let (interp, r) = run_program(
        vec![
            Statement::Input("x".to_string(), "sankhya".to_string()),
            Statement::Print(Expression::Text("unreachable".to_string())),
        ],
        vec!["not a number".to_string()],
    );
    assert!(matches!(r, Err(RtError::InputParse(_))));
    let evs = interp.output_events();
    assert_eq!(evs.len(), 1);
    match &evs[0] {
        OutEvent::Prompt(p) => assert_eq!(p, "x (sankhya) >>> "),
        OutEvent::Line(_) => panic!("no line may be printed"),
    }
}

#[test]
fn reading_undefined_identifier_prints_khali() {
    let (interp, r) = run_program(vec![Statement::Print(ident("ghost_var"))], vec![]);
    assert!(r.is_ok());
    assert_eq!(lines(&interp), vec!["khali".to_string()]);
}

#[test]
fn assigning_undefined_identifier_stops_the_run() {
    let (interp, r) = run_program(
        vec![
            Statement::Assignment("nope".to_string(), Expression::Integer(1)),
            Statement::Print(Expression::Text("unreachable".to_string())),
        ],
        vec![],
    );
    match r {
        Err(RtError::AssignUndefined(name)) => assert_eq!(name, "nope"),
        _ => panic!("expected an assign-undefined fault"),
    }
    assert!(lines(&interp).is_empty());
}

#[test]
fn call_leaves_caller_variables_untouched() {
    let (interp, r) = run_program(
        vec![
            Statement::Declaration("x".to_string(), Expression::Integer(10)),
            Statement::FunctionDef(
                "shadow".to_string(),
                vec![ident("p")],
                vec![
                    Statement::Declaration("x".to_string(), Expression::Integer(99)),
                    Statement::Declaration("local".to_string(), Expression::Integer(7)),
                ],
                binop(ident("x"), BinOp::Plus, ident("p")),
            ),
            Statement::FunctionCall("shadow".to_string(), vec![Expression::Integer(1)], "r".to_string()),
            Statement::Print(ident("x")),
            Statement::Print(ident("r")),
            Statement::Print(ident("local")),
        ],
        vec![],
    );
    assert!(r.is_ok());
    // x is unchanged, r holds 99 + 1, the callee's local is invisible.
    assert_eq!(
        lines(&interp),
        vec!["10".to_string(), "100".to_string(), "khali".to_string()]
    );
}

#[test]
fn callee_sees_caller_variables() {
    let (interp, r) = run_program(
        vec![
            Statement::Declaration("base".to_string(), Expression::Integer(40)),
            Statement::FunctionDef(
                "plus_base".to_string(),
                vec![ident("n")],
                vec![],
                binop(ident("base"), BinOp::Plus, ident("n")),
            ),
            Statement::FunctionCall(
                "plus_base".to_string(),
                vec![Expression::Integer(2)],
                "out".to_string(),
            ),
            Statement::Print(ident("out")),
        ],
        vec![],
    );
    assert!(r.is_ok());
    assert_eq!(lines(&interp), vec!["42".to_string()]);
}

#[test]
fn unknown_function_call_faults() {
    let (_, r) = run_program(
        vec![Statement::FunctionCall("missing".to_string(), vec![], "d".to_string())],
        vec![],
    );
    assert!(matches!(r, Err(RtError::UnknownFunction(_))));
}

#[test]
fn non_identifier_parameter_faults() {
    let (_, r) = run_program(
        vec![Statement::FunctionDef(
            "bad".to_string(),
            vec![Expression::Integer(3)],
            vec![],
            Expression::Integer(0),
        )],
        vec![],
    );
    assert!(matches!(r, Err(RtError::InvalidParameter)));
}

#[test]
fn unknown_input_type_faults() {
    let (_, r) = run_program(
        vec![Statement::Input("x".to_string(), "mystery".to_string())],
        vec!["5".to_string()],
    );
    assert!(matches!(r, Err(RtError::UnknownInputType(_))));
}

#[test]
fn integer_input_binds_value() {
    let (interp, r) = run_program(
        vec![
            Statement::Input("x".to_string(), "sankhya".to_string()),
            Statement::Print(ident("x")),
        ],
        vec!["  42  ".to_string()],
    );
    assert!(r.is_ok());
    assert_eq!(lines(&interp), vec!["42".to_string()]);
}

#[test]
fn text_and_boolean_input_bind_values() {
    let (interp, r) = run_program(
        vec![
            Statement::Input("t".to_string(), "paath".to_string()),
            Statement::Input("b".to_string(), "tark".to_string()),
            Statement::Print(ident("t")),
            Statement::Print(ident("b")),
        ],
        vec!["  hello  ".to_string(), "true".to_string()],
    );
    assert!(r.is_ok());
    assert_eq!(lines(&interp), vec!["hello".to_string(), "true".to_string()]);
}

#[test]
fn float_input_parses_and_is_truthy() {
    let (interp, r) = run_program(
        vec![
            Statement::Input("f".to_string(), "dasamlav".to_string()),
            Statement::If {
                condition: ident("f"),
                then_block: vec![Statement::Print(Expression::Text("nonzero".to_string()))],
                else_block: vec![Statement::Print(Expression::Text("zero".to_string()))],
            },
        ],
        vec!["2.5".to_string()],
    );
    assert!(r.is_ok());
    assert_eq!(lines(&interp), vec!["nonzero".to_string()]);
}

#[test]
fn zero_float_input_is_falsy() {
    let (interp, r) = run_program(
        vec![
            Statement::Input("f".to_string(), "dasamlav".to_string()),
            Statement::If {
                condition: ident("f"),
                then_block: vec![Statement::Print(Expression::Text("nonzero".to_string()))],
                else_block: vec![Statement::Print(Expression::Text("zero".to_string()))],
            },
        ],
        vec!["0.0".to_string()],
    );
    assert!(r.is_ok());
    assert_eq!(lines(&interp), vec!["zero".to_string()]);
}

#[test]
fn float_input_that_does_not_parse_faults() {
    let (_, r) = run_program(
        vec![Statement::Input("f".to_string(), "dasamlav".to_string())],
        vec!["three point one".to_string()],
    );
    assert!(matches!(r, Err(RtError::InputParse(_))));
}

#[test]
fn exhausted_input_reads_empty_line() {
    let (interp, r) = run_program(
        vec![
            Statement::Input("t".to_string(), "paath".to_string()),
            Statement::Print(ident("t")),
        ],
        vec![],
    );
    assert!(r.is_ok());
    assert_eq!(lines(&interp), vec!["".to_string()]);
}

#[test]
fn integer_arithmetic_matches_native_semantics() {
    let cases: Vec<(i64, BinOp, i64, i64)> = vec![
        (7, BinOp::Plus, 2, 9),
        (7, BinOp::Minus, 2, 5),
        (7, BinOp::Multiply, 2, 14),
        (7, BinOp::Divide, 2, 3),
        (-7, BinOp::Divide, 2, -3),
        (7, BinOp::Divide, -2, -3),
        (-7, BinOp::Divide, -2, 3),
        (7, BinOp::Modulo, 2, 1),
        (-7, BinOp::Modulo, 2, -1),
        (7, BinOp::Modulo, -2, 1),
    ];
    for (a, op, b, want) in cases {
        match eval_binop(&Value::Integer(a), &op, &Value::Integer(b)) {
            Some(Value::Integer(got)) => assert_eq!(got, want, "{} on {} and {}", got, a, b),
            _ => panic!("expected an integer result"),
        }
    }
}

#[test]
fn integer_overflow_and_zero_divisor_fault() {
    assert!(eval_binop(&Value::Integer(i64::MAX), &BinOp::Plus, &Value::Integer(1)).is_none());
    assert!(eval_binop(&Value::Integer(i64::MIN), &BinOp::Minus, &Value::Integer(1)).is_none());
    assert!(eval_binop(&Value::Integer(i64::MAX), &BinOp::Multiply, &Value::Integer(2)).is_none());
    assert!(eval_binop(&Value::Integer(1), &BinOp::Divide, &Value::Integer(0)).is_none());
    assert!(eval_binop(&Value::Integer(1), &BinOp::Modulo, &Value::Integer(0)).is_none());
    assert!(eval_binop(&Value::Integer(i64::MIN), &BinOp::Divide, &Value::Integer(-1)).is_none());
}

#[test]
fn float_arithmetic_matches_native_semantics() {
    let a = 1.5f64;
    let b = 2.25f64;
    let cases: Vec<(BinOp, f64)> = vec![
        (BinOp::Plus, a + b),
        (BinOp::Minus, a - b),
        (BinOp::Multiply, a * b),
        (BinOp::Divide, a / b),
        (BinOp::Modulo, a % b),
    ];
    for (op, want) in cases {
        match eval_binop(&Value::Float(a.to_bits()), &op, &Value::Float(b.to_bits())) {
            Some(Value::Float(got)) => assert_eq!(got, want.to_bits()),
            _ => panic!("expected a float result"),
        }
    }
}

#[test]
fn mixed_addition_promotes_to_float() {
    match eval_binop(&Value::Integer(1), &BinOp::Plus, &Value::Float(0.5f64.to_bits())) {
        Some(Value::Float(bits)) => assert_eq!(bits, 1.5f64.to_bits()),
        _ => panic!("expected a float result"),
    }
    match eval_binop(&Value::Float(0.5f64.to_bits()), &BinOp::Plus, &Value::Integer(1)) {
        Some(Value::Float(bits)) => assert_eq!(bits, 1.5f64.to_bits()),
        _ => panic!("expected a float result"),
    }
    // mixed operands reach the table only through addition
    assert!(eval_binop(&Value::Integer(1), &BinOp::Minus, &Value::Float(0.5f64.to_bits())).is_none());
    assert!(eval_binop(&Value::Integer(1), &BinOp::LessThan, &Value::Float(0.5f64.to_bits())).is_none());
}

#[test]
fn float_comparisons_follow_ieee_semantics() {
    let two = Value::Float(2.0f64.to_bits());
    let three = Value::Float(3.0f64.to_bits());
    let nan = Value::Float(f64::NAN.to_bits());
    assert!(matches!(eval_binop(&two, &BinOp::LessThan, &three), Some(Value::Boolean(true))));
    assert!(matches!(eval_binop(&three, &BinOp::GreaterThanOrEqual, &three), Some(Value::Boolean(true))));
    assert!(matches!(eval_binop(&nan, &BinOp::Equals, &nan), Some(Value::Boolean(false))));
    assert!(matches!(eval_binop(&nan, &BinOp::NotEquals, &nan), Some(Value::Boolean(true))));
    assert!(matches!(eval_binop(&nan, &BinOp::LessThan, &three), Some(Value::Boolean(false))));
}

#[test]
fn text_concatenation_and_coercion() {
    let hello = Value::Text("hello ".to_string());
    let world = Value::Text("world".to_string());
    match eval_binop(&hello, &BinOp::Plus, &world) {
        Some(Value::Text(s)) => assert_eq!(s, "hello world"),
        _ => panic!("expected text"),
    }
    match eval_binop(&Value::Text("n=".to_string()), &BinOp::Plus, &Value::Integer(5)) {
        Some(Value::Text(s)) => assert_eq!(s, "n=5"),
        _ => panic!("expected text"),
    }
    match eval_binop(&Value::Integer(-3), &BinOp::Plus, &Value::Text("!".to_string())) {
        Some(Value::Text(s)) => assert_eq!(s, "-3!"),
        _ => panic!("expected text"),
    }
    match eval_binop(&Value::Text("x=".to_string()), &BinOp::Plus, &Value::Absent) {
        Some(Value::Text(s)) => assert_eq!(s, "x=khali"),
        _ => panic!("expected text"),
    }
}

#[test]
fn text_equality_and_boolean_logic() {
    let a = Value::Text("ab".to_string());
    let b = Value::Text("ab".to_string());
    let c = Value::Text("cd".to_string());
    assert!(matches!(eval_binop(&a, &BinOp::Equals, &b), Some(Value::Boolean(true))));
    assert!(matches!(eval_binop(&a, &BinOp::NotEquals, &c), Some(Value::Boolean(true))));
    let t = Value::Boolean(true);
    let f = Value::Boolean(false);
    assert!(matches!(eval_binop(&t, &BinOp::And, &f), Some(Value::Boolean(false))));
    assert!(matches!(eval_binop(&t, &BinOp::Or, &f), Some(Value::Boolean(true))));
    // logic on non-booleans stays outside the table
    assert!(eval_binop(&Value::Integer(1), &BinOp::And, &Value::Integer(1)).is_none());
    // text ordered against text stays outside the table too
    assert!(eval_binop(&a, &BinOp::LessThan, &c).is_none());
}

#[test]
fn truthiness_rules() {
    assert!(!is_truthy(&Value::Integer(0)));
    assert!(is_truthy(&Value::Integer(-7)));
    assert!(!is_truthy(&Value::Float(0.0f64.to_bits())));
    assert!(!is_truthy(&Value::Float((-0.0f64).to_bits())));
    assert!(is_truthy(&Value::Float(0.1f64.to_bits())));
    assert!(is_truthy(&Value::Float(f64::NAN.to_bits())));
    assert!(!is_truthy(&Value::Text(String::new())));
    assert!(is_truthy(&Value::Text(" ".to_string())));
    assert!(is_truthy(&Value::Boolean(true)));
    assert!(!is_truthy(&Value::Boolean(false)));
    assert!(!is_truthy(&Value::Absent));
}

#[test]
fn zero_iterations_when_condition_initially_false() {
    let (interp, r) = run_program(
        vec![
            Statement::While {
                condition: Expression::Boolean(false),
                body: vec![Statement::Print(Expression::Text("never".to_string()))],
            },
            Statement::Print(Expression::Text("after".to_string())),
        ],
        vec![],
    );
    assert!(r.is_ok());
    assert_eq!(lines(&interp), vec!["after".to_string()]);
}

#[test]
fn endless_loop_exhausts_the_step_budget() {
    let mut interp = Interpreter::new();
    let program = Program {
        statements: vec![Statement::While {
            condition: Expression::Boolean(true),
            body: vec![],
        }],
    };
    let r = interp.run(&program, 1000);
    assert!(matches!(r, Err(RtError::OutOfFuel)));
}

#[test]
fn invalid_operation_faults() {
    let (_, r) = run_program(
        vec![Statement::Print(binop(
            Expression::Integer(1),
            BinOp::And,
            Expression::Integer(2),
        ))],
        vec![],
    );
    assert!(matches!(r, Err(RtError::InvalidOperation)));
}

#[test]
fn later_definition_replaces_earlier_one() {
    let (interp, r) = run_program(
        vec![
            Statement::FunctionDef("f".to_string(), vec![], vec![], Expression::Integer(1)),
            Statement::FunctionDef("f".to_string(), vec![], vec![], Expression::Integer(2)),
            Statement::FunctionCall("f".to_string(), vec![], "r".to_string()),
            Statement::Print(ident("r")),
        ],
        vec![],
    );
    assert!(r.is_ok());
    assert_eq!(lines(&interp), vec!["2".to_string()]);
}
