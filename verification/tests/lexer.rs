use kayton_vm::lexer::{BinOp, Expr, Lexer, ParseError, Stmt, StringPart};

#[test]
fn program1_tokens() {
    let input = r#"
x = 12
x = x + 1
print(x)
"#;
    let tokens = Lexer::new(input).tokenize().unwrap();
    assert_eq!(
        tokens,
        vec![
            Stmt::Assign {
                name: "x".to_string(),
                expr: Expr::Int(12),
            },
            Stmt::Assign {
                name: "x".to_string(),
                expr: Expr::Binary {
                    left: Box::new(Expr::Ident("x".to_string())),
                    op: BinOp::Add,
                    right: Box::new(Expr::Int(1)),
                },
            },
            Stmt::ExprStmt(Expr::Call {
                func: Box::new(Expr::Ident("print".to_string())),
                args: vec![Expr::Ident("x".to_string())],
            }),
        ]
    );
}

#[test]
fn program2_tokens() {
    let input = r#"print("Hello, World")"#;
    let tokens = Lexer::new(input).tokenize().unwrap();
    assert_eq!(
        tokens,
        vec![Stmt::ExprStmt(Expr::Call {
            func: Box::new(Expr::Ident("print".to_string())),
            args: vec![Expr::Str("Hello, World".to_string())],
        }),]
    );
}

#[test]
fn program3_tokens() {
    let input = r#"
x = 12
print(f"{x}")
"#;
    let tokens = Lexer::new(input).tokenize().unwrap();
    assert_eq!(
        tokens,
        vec![
            Stmt::Assign {
                name: "x".to_string(),
                expr: Expr::Int(12),
            },
            Stmt::ExprStmt(Expr::Call {
                func: Box::new(Expr::Ident("print".to_string())),
                args: vec![Expr::InterpolatedString(vec![
                    StringPart::Text("".to_string()),
                    StringPart::Expr(Box::new(Expr::Ident("x".to_string()))),
                    StringPart::Text("".to_string()),
                ])],
            }),
        ]
    );
}

fn ident(name: &str) -> Expr {
    Expr::Ident(name.to_string())
}

fn call(func: Expr, args: Vec<Expr>) -> Expr {
    Expr::Call { func: Box::new(func), args }
}

fn sum(left: Expr, right: Expr) -> Expr {
    Expr::Binary { left: Box::new(left), op: BinOp::Add, right: Box::new(right) }
}

#[test]
fn sums_group_from_the_left() {
    let stmts = Lexer::new("a + 2 + (b + 3)").tokenize().unwrap();
    assert_eq!(
        stmts,
        vec![Stmt::ExprStmt(sum(
            sum(ident("a"), Expr::Int(2)),
            sum(ident("b"), Expr::Int(3))
        ))]
    );
}

#[test]
fn calls_chain_and_take_argument_lists() {
    let stmts = Lexer::new("f(1, g(), \"s\")(x)\n\n\ty = (h)(2)").tokenize().unwrap();
    assert_eq!(
        stmts,
        vec![
            Stmt::ExprStmt(call(
                call(
                    ident("f"),
                    vec![Expr::Int(1), call(ident("g"), vec![]), Expr::Str("s".to_string())]
                ),
                vec![ident("x")]
            )),
            Stmt::Assign { name: "y".to_string(), expr: call(ident("h"), vec![Expr::Int(2)]) },
        ]
    );
}

#[test]
fn interpolated_string_splits_text_and_expressions() {
    let stmts = Lexer::new("f\"a{x + 1}b{y}\"").tokenize().unwrap();
    assert_eq!(
        stmts,
        vec![Stmt::ExprStmt(Expr::InterpolatedString(vec![
            StringPart::Text("a".to_string()),
            StringPart::Expr(Box::new(sum(ident("x"), Expr::Int(1)))),
            StringPart::Text("b".to_string()),
            StringPart::Expr(Box::new(ident("y"))),
            StringPart::Text("".to_string()),
        ]))]
    );
    let stmts = Lexer::new("f\"open").tokenize().unwrap();
    assert_eq!(
        stmts,
        vec![Stmt::ExprStmt(Expr::InterpolatedString(vec![StringPart::Text(
            "open".to_string()
        )]))]
    );
    assert_eq!(
        Lexer::new("fx = f").tokenize().unwrap(),
        vec![Stmt::Assign { name: "fx".to_string(), expr: ident("f") }]
    );
}

#[test]
fn unterminated_string_runs_to_the_end() {
    assert_eq!(
        Lexer::new("\"abc").tokenize().unwrap(),
        vec![Stmt::ExprStmt(Expr::Str("abc".to_string()))]
    );
}

#[test]
fn empty_and_blank_sources_have_no_statements() {
    assert_eq!(Lexer::new("").tokenize().unwrap(), vec![]);
    assert_eq!(Lexer::new(" \t\r\n\n  ").tokenize().unwrap(), vec![]);
}

#[test]
fn unknown_character_ends_the_program() {
    assert_eq!(
        Lexer::new("x = 1\n# y = 2\nz = 3").tokenize().unwrap(),
        vec![Stmt::Assign { name: "x".to_string(), expr: Expr::Int(1) }]
    );
}

#[test]
fn integer_literals_up_to_the_largest() {
    assert_eq!(
        Lexer::new("9223372036854775807").tokenize().unwrap(),
        vec![Stmt::ExprStmt(Expr::Int(i64::MAX))]
    );
    assert_eq!(
        Lexer::new("007").tokenize().unwrap(),
        vec![Stmt::ExprStmt(Expr::Int(7))]
    );
    assert_eq!(
        Lexer::new("9223372036854775808").tokenize(),
        Err(ParseError::IntegerOverflow)
    );
    assert_eq!(
        Lexer::new("x = 99999999999999999999999999").tokenize(),
        Err(ParseError::IntegerOverflow)
    );
}

#[test]
fn parse_errors() {
    assert_eq!(Lexer::new("x = ").tokenize(), Err(ParseError::UnexpectedToken));
    assert_eq!(Lexer::new("+ 1").tokenize(), Err(ParseError::UnexpectedToken));
    assert_eq!(Lexer::new("1 + )").tokenize(), Err(ParseError::UnexpectedToken));
    assert_eq!(Lexer::new("print(1").tokenize(), Err(ParseError::MissingClosingParen));
    assert_eq!(Lexer::new("(1 + 2").tokenize(), Err(ParseError::MissingClosingParen));
    assert_eq!(Lexer::new("f(1 2)").tokenize(), Err(ParseError::MissingClosingParen));
    assert_eq!(Lexer::new("f\"{+}\"").tokenize(), Err(ParseError::UnexpectedToken));
    assert_eq!(Lexer::new("1 2").tokenize(), Ok(vec![
        Stmt::ExprStmt(Expr::Int(1)),
        Stmt::ExprStmt(Expr::Int(2)),
    ]));
}
