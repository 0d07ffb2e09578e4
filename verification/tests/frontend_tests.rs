use bud_zkvm::ast::{BinOp, Expr, MatchPattern, Stmt};
use bud_zkvm::error::CompileError;
use bud_zkvm::lexer::{tokenize, Token};
use bud_zkvm::parser::Parser;
use bud_zkvm::semantic::{SemanticAnalyzer, Type};

const SAMPLE: &str = "
contract Token {
    storage {
        total: u64,
        balances: Map<u64, u64>,
    }
    struct Point {
        x: u64,
        y: u64,
    }
    // moves value between accounts
    pub fn transfer(to: u64, amount: u64) -> u64 {
        let from = msg::sender();
        let bal = balances[from];
        constrain(bal >= amount);
        balances[from] = bal - amount;
        balances[to] = balances[to] + amount;
        storage::total = storage::total + 0x10;
        emit Transfer(from, to, amount);
        return amount;
    }
    fn spin(n: u64) {
        let s = 0;
        for i in 0..10 {
            s = s + i;
        }
        while (s > n) {
            s = s - 1;
        }
        if (s == 0) { return; } else { s = 1; }
        match (s) {
            0 => { s = 1; },
            _ => { s = 2; },
        };
    }
}
";

fn parse(src: &str) -> Result<bud_zkvm::ast::Contract, CompileError> {
    Parser::new(src).parse_contract()
}

fn parse_err(src: &str) -> String {
    match parse(src) {
        Err(CompileError::ParserError(m)) => m,
        other => panic!("expected a parse error, got {other:?}"),
    }
}

fn analyze_err(src: &str) -> Option<String> {
    let c = parse(src).expect("parses");
    let mut a = SemanticAnalyzer::new();
    match a.analyze(&c) {
        Ok(()) => None,
        Err(CompileError::SemanticError(m)) => Some(m),
        Err(other) => panic!("unexpected {other:?}"),
    }
}

#[test]
fn lexer_takes_longest_tokens() {
    let ts = tokenize("a->b => == != <= >= .. . = < > + - * / { } ( ) [ ] : ; ,");
    assert_eq!(
        ts,
        vec![
            Token::Ident("a".to_string()),
            Token::Arrow,
            Token::Ident("b".to_string()),
            Token::FatArrow,
            Token::Eq,
            Token::Neq,
            Token::Lte,
            Token::Gte,
            Token::DotDot,
            Token::Dot,
            Token::Assign,
            Token::Lt,
            Token::Gt,
            Token::Plus,
            Token::Minus,
            Token::Star,
            Token::Slash,
            Token::BraceOpen,
            Token::BraceClose,
            Token::ParenOpen,
            Token::ParenClose,
            Token::BracketOpen,
            Token::BracketClose,
            Token::Colon,
            Token::Semicolon,
            Token::Comma,
        ]
    );
}

#[test]
fn lexer_keywords_numbers_and_comments() {
    let ts = tokenize("contract storage struct pub fn let constrain if else while match for in return emit_x // note\n 42 0x1f 0x 0..3");
    assert_eq!(
        ts,
        vec![
            Token::Contract,
            Token::Storage,
            Token::Struct,
            Token::Pub,
            Token::Fn,
            Token::Let,
            Token::Constrain,
            Token::If,
            Token::Else,
            Token::While,
            Token::Match,
            Token::For,
            Token::In,
            Token::Return,
            Token::Ident("emit_x".to_string()),
            Token::Int(42),
            Token::Hex("0x1f".to_string()),
            Token::Int(0),
            Token::Ident("x".to_string()),
            Token::Int(0),
            Token::DotDot,
            Token::Int(3),
        ]
    );
}

#[test]
fn lexer_errors() {
    assert_eq!(tokenize("18446744073709551615"), vec![Token::Int(u64::MAX)]);
    assert_eq!(tokenize("18446744073709551616"), vec![Token::Error]);
    assert_eq!(tokenize("! @ é"), vec![Token::Error, Token::Error, Token::Error]);
    assert_eq!(tokenize(" \t\r\n"), vec![]);
}

#[test]
fn parses_sample_contract() {
    let c = parse(SAMPLE).unwrap();
    assert_eq!(c.name, "Token");
    assert_eq!(c.storage.len(), 2);
    assert_eq!(c.storage[1].name, "balances");
    assert_eq!(c.storage[1].ty, "Map<u64,u64>");
    assert_eq!(c.structs.len(), 1);
    assert_eq!(c.structs[0].fields.len(), 2);
    assert_eq!(c.functions.len(), 2);
    let t = &c.functions[0];
    assert!(t.is_pub);
    assert_eq!(t.params.len(), 2);
    assert_eq!(t.return_type.as_deref(), Some("u64"));
    assert_eq!(t.body.len(), 8);
    match &t.body[0] {
        Stmt::Let(n, Expr::Call(f, args)) => {
            assert_eq!(n, "from");
            assert_eq!(f, "msg::sender");
            assert!(args.is_empty());
        }
        other => panic!("unexpected {other:?}"),
    }
    match &t.body[5] {
        Stmt::StorageWrite(n, Expr::Binary(l, BinOp::Add, r)) => {
            assert_eq!(n, "total");
            assert!(matches!(**l, Expr::StorageRead(ref s) if s == "total"));
            assert!(matches!(**r, Expr::Int(16)));
        }
        other => panic!("unexpected {other:?}"),
    }
    assert!(matches!(&t.body[6], Stmt::Emit(n, a) if n == "Transfer" && a.len() == 3));
    let s = &c.functions[1];
    assert!(!s.is_pub);
    assert_eq!(s.return_type, None);
    assert!(matches!(&s.body[1], Stmt::For { var, body, .. } if var == "i" && body.len() == 1));
    assert!(matches!(&s.body[3], Stmt::If(_, t, Some(e)) if t.len() == 1 && e.len() == 1));
    match &s.body[4] {
        Stmt::Match { arms, .. } => {
            assert_eq!(arms.len(), 2);
            assert_eq!(arms[0].pattern, MatchPattern::IntLit(0));
            assert_eq!(arms[1].pattern, MatchPattern::Wildcard);
        }
        other => panic!("unexpected {other:?}"),
    }
}

#[test]
fn operators_are_left_associative_with_precedence() {
    let c = parse("contract A { fn f() { let x = a - b - c * d == e; } }").unwrap();
    match &c.functions[0].body[0] {
        Stmt::Let(_, Expr::Binary(lhs, BinOp::Eq, rhs)) => {
            assert!(matches!(**rhs, Expr::Ident(ref e) if e == "e"));
            match &**lhs {
                Expr::Binary(ab, BinOp::Sub, cd) => {
                    assert!(matches!(**ab, Expr::Binary(_, BinOp::Sub, _)));
                    assert!(matches!(**cd, Expr::Binary(_, BinOp::Mul, _)));
                }
                other => panic!("unexpected {other:?}"),
            }
        }
        other => panic!("unexpected {other:?}"),
    }
}

#[test]
fn parses_calls_literals_and_fields() {
    let c = parse(
        "contract A { fn f() { let p = P { x: 1, y: poseidon(1, 2) }; let q = p.x.y; let r = verify_merkle_proof(1, 2, 3); let b = block::number(); } }",
    )
    .unwrap();
    let body = &c.functions[0].body;
    assert!(matches!(&body[0], Stmt::Let(_, Expr::StructLiteral(n, fs)) if n == "P" && fs.len() == 2));
    assert!(matches!(&body[1], Stmt::Let(_, Expr::FieldAccess(inner, f)) if f == "y" && matches!(**inner, Expr::FieldAccess(_, _))));
    assert!(matches!(&body[2], Stmt::Let(_, Expr::Call(n, a)) if n == "verify_merkle_proof" && a.len() == 3));
    assert!(matches!(&body[3], Stmt::Let(_, Expr::Call(n, a)) if n == "block::number" && a.is_empty()));
}

#[test]
fn parse_errors_name_the_problem() {
    assert_eq!(parse_err(""), "Expected Contract, found Error");
    assert_eq!(parse_err("foo"), "Expected Contract, found Ident(\"foo\")");
    assert_eq!(parse_err("5"), "Expected Contract, found Int(5)");
    assert_eq!(parse_err("contract { }"), "Expected contract name");
    assert_eq!(parse_err("contract A ( }"), "Expected BraceOpen, found ParenOpen");
    assert_eq!(parse_err("contract A { fn f() { ; } }"), "Expected primary expression");
    assert_eq!(parse_err("contract A { fn f() { g(1); } }"), "Expected Assign, found ParenOpen");
    assert_eq!(
        parse_err("contract A { fn f() { let x = 0x1FFFFFFFFFFFFFFFF; } }"),
        "Invalid hex literal 0x1FFFFFFFFFFFFFFFF: number too large to fit in target type"
    );
    assert_eq!(
        parse_err("contract A { fn f() { match (x) { 0 => { } 1 => { } }; } }"),
        "expected ',' or '}' after match arm"
    );
    assert_eq!(
        parse_err("contract A { fn f() { match (x) { y => { } }; } }"),
        "match arm pattern must be an integer literal or '_'"
    );
    assert_eq!(parse_err("contract A { fn f() { match (x) { _ => { } } } }"), "Expected Semicolon, found BraceClose");
    assert_eq!(parse_err("contract A { storage { a u64, } }"), "Expected Colon, found Ident(\"u64\")");
    assert_eq!(parse_err("contract A { fn f() -> { } }"), "Expected return type");
    assert_eq!(parse_err("contract A { fn f() { let y = x.; } }"), "Expected field name after dot");
}

#[test]
fn hex_literals_become_integers() {
    let c = parse("contract A { fn f() { let x = 0xFFFFFFFFFFFFFFFF; } }").unwrap();
    assert!(matches!(&c.functions[0].body[0], Stmt::Let(_, Expr::Int(u64::MAX))));
}

#[test]
fn sample_contract_type_checks() {
    let c = parse(SAMPLE).unwrap();
    let mut a = SemanticAnalyzer::default();
    assert!(a.analyze(&c).is_ok());
    assert!(a.functions.contains_key("transfer"));
    assert!(a.functions.contains_key("poseidon"));
    assert!(a.structs.contains_key("Point"));
    assert_eq!(a.current_func_ret, Type::Void);
}

#[test]
fn semantic_errors() {
    let cases: Vec<(&str, &str)> = vec![
        ("fn f() -> u64 { return v; }", "Undefined identifier: v"),
        ("fn f() -> bool { return 1; }", "Type mismatch in return: expected Bool, got U64"),
        ("fn f() -> u64 { return; }", "Type mismatch in return: expected U64, got Void"),
        ("fn f() { let a = poseidon(1); }", "Function poseidon expects 2 args, got 1"),
        ("fn g(a: bool) { } fn f() { let r = g(1); }", "Arg 0 type mismatch in g"),
        ("fn f() { x = 1; }", "Undefined variable: x"),
        ("struct P { x: u64, } fn f() { let p = P { z: 1 }; }", "Unknown field z"),
        ("struct P { x: bool, } fn f() { let p = P { x: 1 }; }", "Field x type mismatch"),
        ("struct P { x: u64, } fn f() { let p = P { x: 1 }; let q = p.y; }", "Struct P has no field y"),
        ("fn f() { let a = 1; let b = a.x; }", "Field access on non-struct"),
        ("fn f() { let p = Q { x: 1 }; }", "Undefined struct: Q"),
        ("fn f() { let a = h(); }", "Undefined function: h"),
        ("fn f(b: bool) { let c = b + 1; }", "Type mismatch in binary expression"),
        ("fn f(b: bool) { b = 1; }", "Type mismatch in assign: expected Bool, got U64"),
        (
            "struct P { x: u64, } fn f() { match (P { x: 1 }) { _ => { } }; }",
            "match scrutinee must be u64 or bool, got Struct(\"P\")",
        ),
    ];
    for (body, msg) in cases {
        let src = format!("contract A {{ {body} }}");
        assert_eq!(analyze_err(&src), Some(msg.to_string()), "{src}");
    }
}

#[test]
fn semantic_reports_first_error_and_scopes() {
    assert_eq!(
        analyze_err("contract A { fn f() { x = 1; y = 2; } }"),
        Some("Undefined variable: x".to_string())
    );
    // a `let` inside `if` stays visible after it; a `for` variable does not
    assert_eq!(analyze_err("contract A { fn f() { if (1) { let a = 1; } a = 2; } }"), None);
    assert_eq!(
        analyze_err("contract A { fn f() { for i in 0..3 { } i = 2; } }"),
        Some("Undefined variable: i".to_string())
    );
    // Unknown types never clash
    assert_eq!(analyze_err("contract A { fn f() -> bool { return v; } }"), Some("Undefined identifier: v".to_string()));
}

#[test]
fn type_names() {
    assert_eq!(Type::from_str("u64"), Ok(Type::U64));
    assert_eq!(Type::from_str("bool"), Ok(Type::Bool));
    assert_eq!(Type::from_str("field"), Ok(Type::Field));
    assert_eq!(Type::from_str("Point"), Ok(Type::Struct("Point".to_string())));
}

#[test]
fn analysing_twice_changes_nothing() {
    let c = parse(SAMPLE).unwrap();
    let mut a = SemanticAnalyzer::new();
    assert!(a.analyze(&c).is_ok());
    let n_structs = a.structs.len();
    let n_functions = a.functions.len();
    let transfer = a.functions.get("transfer").cloned();
    let point = a.structs.get("Point").map(|f| (f.len(), f.get("x").cloned()));
    assert!(a.analyze(&c).is_ok());
    assert_eq!(a.structs.len(), n_structs);
    assert_eq!(a.functions.len(), n_functions);
    assert_eq!(a.functions.get("transfer").cloned(), transfer);
    assert_eq!(a.structs.get("Point").map(|f| (f.len(), f.get("x").cloned())), point);
    assert_eq!(transfer, Some((vec![Type::U64, Type::U64], Type::U64)));

    let bad = parse("contract A { fn f() { x = 1; y = 2; } }").unwrap();
    let mut b = SemanticAnalyzer::new();
    let first = b.analyze(&bad);
    let second = b.analyze(&bad);
    assert_eq!(first, second);
    assert_eq!(first, Err(CompileError::SemanticError("Undefined variable: x".to_string())));
}

#[test]
fn match_arm_commas() {
    let arm_err = "match arm pattern must be an integer literal or '_'".to_string();
    assert_eq!(parse_err("contract A { fn f() { match (x) { , 0 => { } }; } }"), arm_err);
    assert_eq!(parse_err("contract A { fn f() { match (x) { 0 => { },, 1 => { } }; } }"), arm_err);
    assert_eq!(parse_err("contract A { fn f() { match (x) { 0 => { }, , } ; } }"), arm_err);
    let c = parse("contract A { fn f() { match (x) { 0 => { }, _ => { }, }; match (x) { }; } }").unwrap();
    match &c.functions[0].body[0] {
        Stmt::Match { arms, .. } => assert_eq!(arms.len(), 2),
        other => panic!("expected a match, got {other:?}"),
    }
}

#[test]
fn bool_scrutinee_is_refused() {
    let c = parse("contract A { fn f(b: bool) { match (b) { _ => { } }; } }").unwrap();
    let mut a = SemanticAnalyzer::new();
    assert_eq!(
        a.analyze(&c),
        Err(CompileError::SemanticError("match scrutinee must be u64 or bool, got Bool".to_string()))
    );
    assert_eq!(analyze_err("contract A { fn f(n: u64) { match (n) { _ => { } }; } }"), None);
}
