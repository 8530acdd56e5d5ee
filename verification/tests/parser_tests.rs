use pylite::common::ast::{BiOp, BiOpType, Expr, Lit, Location, Name, Stmt, UnOp, UnOpType};
use pylite::common::token::{Token, TokenType};
use pylite::parser::parse;
use pylite::scanner::scan;

fn program(source: &str) -> Vec<Stmt> {
    let scanned = scan(source);
    assert!(scanned.success(), "scan failed: {:?}", scanned.errors);
    match parse(scanned.tokens) {
        Ok(statements) => statements,
        Err(errors) => panic!("parse failed: {:?}", errors),
    }
}

fn messages(source: &str) -> Vec<String> {
    let scanned = scan(source);
    assert!(scanned.success());
    match parse(scanned.tokens) {
        Ok(statements) => panic!("parse succeeded: {:?}", statements),
        Err(errors) => errors.into_iter().map(|e| e.msg).collect(),
    }
}

fn num(n: u64) -> Expr {
    Expr::Literal(Lit::Int(n))
}

fn op(ty: BiOpType, column: u64) -> BiOp {
    BiOp { ty, line: 1, column }
}

fn binary(left: Expr, o: BiOp, right: Expr) -> Expr {
    Expr::Binary(Box::new(left), o, Box::new(right))
}

fn name(text: &str, line: u64, column: u64) -> Name {
    Name { name: text.to_string(), line, column }
}

#[test]
fn product_binds_tighter_than_sum() {
    assert_eq!(
        program("1 + 2 * 3\n"),
        vec![Stmt::Expr(binary(
            num(1),
            op(BiOpType::Plus, 3),
            binary(num(2), op(BiOpType::Times, 7), num(3)),
        ))]
    );
}

#[test]
fn operators_of_one_level_fold_to_the_left() {
    assert_eq!(
        program("8 - 4 - 2\n"),
        vec![Stmt::Expr(binary(
            binary(num(8), op(BiOpType::Minus, 3), num(4)),
            op(BiOpType::Minus, 7),
            num(2),
        ))]
    );
    assert_eq!(
        program("8 / 4 * 2\n"),
        vec![Stmt::Expr(binary(
            binary(num(8), op(BiOpType::Divided, 3), num(4)),
            op(BiOpType::Times, 7),
            num(2),
        ))]
    );
}

#[test]
fn parentheses_group() {
    assert_eq!(
        program("(1 + 2) * 3\n"),
        vec![Stmt::Expr(binary(
            Expr::Grouping(Box::new(binary(num(1), op(BiOpType::Plus, 4), num(2)))),
            op(BiOpType::Times, 9),
            num(3),
        ))]
    );
}

#[test]
fn unary_binds_tighter_than_binary() {
    assert_eq!(
        program("-1 + 2\n"),
        vec![Stmt::Expr(binary(
            Expr::Unary(UnOp { ty: UnOpType::Minus, line: 1, column: 1 }, Box::new(num(1))),
            op(BiOpType::Plus, 4),
            num(2),
        ))]
    );
}

#[test]
fn parses_function_with_return() {
    assert_eq!(
        program("def add(a, b):\n    return a + b\nprint(add(2, 3))\n"),
        vec![
            Stmt::FunDecl(
                name("add", 1, 5),
                vec![name("a", 1, 9), name("b", 1, 12)],
                vec![Stmt::Return(
                    Location { line: 2, column: 5 },
                    Some(Expr::Binary(
                        Box::new(Expr::Variable(name("a", 2, 12))),
                        BiOp { ty: BiOpType::Plus, line: 2, column: 14 },
                        Box::new(Expr::Variable(name("b", 2, 16))),
                    )),
                )],
            ),
            Stmt::Print(Expr::Call(name("add", 3, 7), vec![num(2), num(3)])),
        ]
    );
}

#[test]
fn parses_list_statements() {
    assert_eq!(
        program("x = [1, 2]\nx[0] = 5\nx[1]\n"),
        vec![
            Stmt::AssignVar(name("x", 1, 1), Expr::Literal(Lit::List(vec![num(1), num(2)]))),
            Stmt::AssignList(name("x", 2, 1), num(0), num(5)),
            Stmt::Expr(Expr::ListAccess(name("x", 3, 1), Box::new(num(1)))),
        ]
    );
}

#[test]
fn parses_if_else_and_while() {
    let got = program("if a:\n    b\nelse:\n    c\nwhile a:\n    b\n");
    assert_eq!(
        got,
        vec![
            Stmt::If(
                Expr::Variable(name("a", 1, 4)),
                vec![Stmt::Expr(Expr::Variable(name("b", 2, 5)))],
                Some(vec![Stmt::Expr(Expr::Variable(name("c", 4, 5)))]),
            ),
            Stmt::While(
                Expr::Variable(name("a", 5, 7)),
                vec![Stmt::Expr(Expr::Variable(name("b", 6, 5)))],
            ),
        ]
    );
}

#[test]
fn last_line_needs_no_newline() {
    assert_eq!(program("print(1)"), vec![Stmt::Print(num(1))]);
    assert_eq!(
        program("if a:\n    b"),
        vec![Stmt::If(
            Expr::Variable(name("a", 1, 4)),
            vec![Stmt::Expr(Expr::Variable(name("b", 2, 5)))],
            None,
        )]
    );
}

#[test]
fn reports_every_failing_statement() {
    assert_eq!(
        messages("x = (1\ny = 2\nprint 3\n"),
        vec![
            "SyntaxError: Missing closing parentheses".to_string(),
            "SyntaxError: missing ( in call to print".to_string(),
        ]
    );
}

#[test]
fn reports_missing_parts() {
    assert_eq!(messages("if a\n    b\n")[0], "SyntaxError: missing colon or expression after if statement");
    assert_eq!(messages("x = 1 2\n"), vec!["SyntaxError: unexpected or missing token after statement (expected newline)"]);
    assert_eq!(messages("f(1, 2\n"), vec!["SyntaxError: missing ) in call"]);
    assert_eq!(messages("x = [1, 2\n"), vec!["SyntaxError: missing ] in list"]);
    assert_eq!(messages("x[1\n"), vec!["SyntaxError: missing ] in list access"]);
    assert_eq!(messages("def (a):\n    b\n")[0], "SyntaxError: missing name in def statement");
    assert_eq!(messages("def f(a,):\n    b\n")[0], "SyntaxError: missing parameter name in def statement");
    assert_eq!(messages("while a:\nb\n")[0], "SyntaxError: missing indent before block");
    assert_eq!(messages("x = \n"), vec!["SyntaxError: Unexpected or missing token"]);
    assert_eq!(messages("f(1,)\n"), vec!["SyntaxError: Unexpected or missing token"]);
}

#[test]
fn error_points_at_the_token_that_did_not_fit() {
    let scanned = scan("x = 1 2\n");
    let errors = parse(scanned.tokens).unwrap_err();
    assert_eq!((errors[0].line, errors[0].column), (1, 7));
}

#[test]
fn reports_more_missing_parts() {
    assert_eq!(messages("print(1\n"), vec!["SyntaxError: missing ) in call to print"]);
    assert_eq!(messages("if a:\n    b\nelse\n    c\n")[0], "SyntaxError: missing colon after else statement");
    assert_eq!(messages("while a\n    b\n")[0], "SyntaxError: missing colon or expression after while statement");
    assert_eq!(messages("def f:\n    b\n")[0], "SyntaxError: missing ( in def statement");
    assert_eq!(messages("def f(a:\n    b\n")[0], "SyntaxError: missing ) in def statement");
    assert_eq!(messages("def f(1):\n    b\n")[0], "SyntaxError: missing ) in def statement");
    assert_eq!(messages("def f(a)\n    b\n")[0], "SyntaxError: missing colon after def statement");
    assert_eq!(messages("if a: b\n")[0], "SyntaxError: missing newline before block");
    assert_eq!(messages("  x = 1\n")[0], "SyntaxError: unexpected indent/dedent");
    assert_eq!(messages("x = (1 + )\n"), vec!["SyntaxError: Unexpected or missing token"]);
}

#[test]
fn return_with_and_without_a_value() {
    assert_eq!(
        program("return\nreturn 1\n"),
        vec![
            Stmt::Return(Location { line: 1, column: 1 }, None),
            Stmt::Return(Location { line: 2, column: 1 }, Some(num(1))),
        ]
    );
}

#[test]
fn logic_binds_looser_than_comparison() {
    let got = program("a or b and c == d < e\n");
    let var = |text: &str, column: u64| Expr::Variable(name(text, 1, column));
    assert_eq!(
        got,
        vec![Stmt::Expr(binary(
            var("a", 1),
            op(BiOpType::Or, 3),
            binary(
                var("b", 6),
                op(BiOpType::And, 8),
                binary(
                    var("c", 12),
                    op(BiOpType::DoubleEqual, 14),
                    binary(var("d", 17), op(BiOpType::Less, 19), var("e", 21)),
                ),
            ),
        ))]
    );
}

#[test]
fn empty_lines_and_empty_input() {
    assert_eq!(program(""), vec![]);
    assert_eq!(program("\n\n# nothing\n"), vec![]);
    assert_eq!(program("\n\nx\n\n"), vec![Stmt::Expr(Expr::Variable(name("x", 3, 1)))]);
}

#[test]
fn tokens_without_end_of_file_are_read_to_their_end() {
    let tokens = vec![Token::create(TokenType::Int(1), 1, 1), Token::create(TokenType::EndOfLine, 1, 2)];
    assert_eq!(parse(tokens), Ok(vec![Stmt::Expr(num(1))]));
    assert_eq!(parse(Vec::new()), Ok(vec![]));
}

#[test]
fn call_and_list_nest() {
    assert_eq!(
        program("f(g(1), [2, x[3]])\n"),
        vec![Stmt::Expr(Expr::Call(
            name("f", 1, 1),
            vec![
                Expr::Call(name("g", 1, 3), vec![num(1)]),
                Expr::Literal(Lit::List(vec![
                    num(2),
                    Expr::ListAccess(name("x", 1, 13), Box::new(num(3))),
                ])),
            ],
        ))]
    );
    assert_eq!(program("f()\n"), vec![Stmt::Expr(Expr::Call(name("f", 1, 1), vec![]))]);
    assert_eq!(program("[]\n"), vec![Stmt::Expr(Expr::Literal(Lit::List(vec![])))]);
}
