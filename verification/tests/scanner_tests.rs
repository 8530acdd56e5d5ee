use pylite::common::token::{Token, TokenType};
use pylite::scanner::scan;

fn kinds(source: &str) -> Vec<TokenType> {
    scan(source).tokens.into_iter().map(|t| t.token_type).collect()
}

#[test]
fn scans_arithmetic() {
    assert_eq!(
        kinds("1 + 2 * 3\n"),
        vec![
            TokenType::Int(1),
            TokenType::Plus,
            TokenType::Int(2),
            TokenType::Asterisk,
            TokenType::Int(3),
            TokenType::EndOfLine,
            TokenType::EndOfFile,
        ]
    );
}

#[test]
fn indent_then_dedent_gives_one_pair() {
    let r = scan("if x:\n    y = 1\nz = 2\n");
    assert!(r.success());
    let k: Vec<TokenType> = r.tokens.into_iter().map(|t| t.token_type).collect();
    assert_eq!(k.iter().filter(|t| **t == TokenType::Indent).count(), 1);
    assert_eq!(k.iter().filter(|t| **t == TokenType::Dedent).count(), 1);
    assert_eq!(
        k,
        vec![
            TokenType::If,
            TokenType::Identifier("x".to_string()),
            TokenType::Colon,
            TokenType::EndOfLine,
            TokenType::Indent,
            TokenType::Identifier("y".to_string()),
            TokenType::Equal,
            TokenType::Int(1),
            TokenType::EndOfLine,
            TokenType::Dedent,
            TokenType::Identifier("z".to_string()),
            TokenType::Equal,
            TokenType::Int(2),
            TokenType::EndOfLine,
            TokenType::EndOfFile,
        ]
    );
}

#[test]
fn inconsistent_dedent_stops_the_scan() {
    let r = scan("if x:\n        y = 1\n    z = 2\nw = 3\n");
    assert!(!r.success());
    assert_eq!(r.errors.len(), 1);
    assert_eq!(r.errors[0].msg, "IndentationError: inconsistent dedent");
    assert_eq!(r.errors[0].line, 3);
    assert_eq!(r.errors[0].column, 5);
    let k: Vec<TokenType> = r.tokens.into_iter().map(|t| t.token_type).collect();
    assert_eq!(k.last(), Some(&TokenType::EndOfFile));
    assert!(!k.contains(&TokenType::Identifier("z".to_string())));
    assert!(!k.contains(&TokenType::Identifier("w".to_string())));
    assert_eq!(k.iter().filter(|t| **t == TokenType::Indent).count(), 1);
    assert_eq!(k.iter().filter(|t| **t == TokenType::Dedent).count(), 1);
}

#[test]
fn token_create_fills_the_text() {
    let t = Token::create(TokenType::Int(1203), 4, 7);
    assert_eq!(t.value, "1203");
    assert_eq!((t.line, t.column), (4, 7));
    assert_eq!(Token::create(TokenType::String("a b".to_string()), 1, 1).value, "\"a b\"");
    assert_eq!(Token::create(TokenType::GreaterEqual, 1, 1).value, ">=");
    assert_eq!(Token::create(TokenType::Dedent, 1, 1).value, "");
}

fn messages(source: &str) -> Vec<(String, u64, u64)> {
    scan(source).errors.into_iter().map(|e| (e.msg, e.line, e.column)).collect()
}

#[test]
fn two_character_operators_come_first() {
    assert_eq!(
        kinds("a != b == c >= d <= e > f < g = h"),
        vec![
            TokenType::Identifier("a".to_string()),
            TokenType::NotEqual,
            TokenType::Identifier("b".to_string()),
            TokenType::DoubleEqual,
            TokenType::Identifier("c".to_string()),
            TokenType::GreaterEqual,
            TokenType::Identifier("d".to_string()),
            TokenType::LessEqual,
            TokenType::Identifier("e".to_string()),
            TokenType::Greater,
            TokenType::Identifier("f".to_string()),
            TokenType::Less,
            TokenType::Identifier("g".to_string()),
            TokenType::Equal,
            TokenType::Identifier("h".to_string()),
            TokenType::EndOfFile,
        ]
    );
}

#[test]
fn keywords_and_identifiers() {
    assert_eq!(
        kinds("True False not and or if else while def return print None nothing _x1 printer"),
        vec![
            TokenType::True,
            TokenType::False,
            TokenType::Not,
            TokenType::And,
            TokenType::Or,
            TokenType::If,
            TokenType::Else,
            TokenType::While,
            TokenType::Def,
            TokenType::Return,
            TokenType::Print,
            TokenType::Nothing,
            TokenType::Identifier("nothing".to_string()),
            TokenType::Identifier("_x1".to_string()),
            TokenType::Identifier("printer".to_string()),
            TokenType::EndOfFile,
        ]
    );
}

#[test]
fn numbers() {
    assert_eq!(
        kinds("0 42 3.14 18446744073709551615 007"),
        vec![
            TokenType::Int(0),
            TokenType::Int(42),
            TokenType::Float("3.14".to_string()),
            TokenType::Int(u64::MAX),
            TokenType::Int(7),
            TokenType::EndOfFile,
        ]
    );
    assert_eq!(
        kinds("12abc"),
        vec![TokenType::Int(12), TokenType::Identifier("abc".to_string()), TokenType::EndOfFile]
    );
}

#[test]
fn malformed_numbers() {
    assert_eq!(
        messages("x = 1.\n"),
        vec![("SyntaxError: Floating Point not followed by number".to_string(), 1, 6)]
    );
    assert_eq!(
        messages("1.2.3\n"),
        vec![("SyntaxError: Float has more than one point: 1.2.".to_string(), 1, 4)]
    );
    assert_eq!(
        messages("18446744073709551616\n"),
        vec![("SyntaxError: Integer literal too large: 18446744073709551616".to_string(), 1, 1)]
    );
    assert_eq!(kinds("1.2.3\n"), vec![TokenType::Int(3), TokenType::EndOfLine, TokenType::EndOfFile]);
}

#[test]
fn strings_and_escapes() {
    assert_eq!(
        kinds("\"a b\" \"q\\\"q\" \"b\\\\s\" \"n\\nl\" \"x\\ty\" \"\""),
        vec![
            TokenType::String("a b".to_string()),
            TokenType::String("q\"q".to_string()),
            TokenType::String("b\\s".to_string()),
            TokenType::String("n\nl".to_string()),
            TokenType::String("xy".to_string()),
            TokenType::String("".to_string()),
            TokenType::EndOfFile,
        ]
    );
}

#[test]
fn unterminated_strings() {
    assert_eq!(
        messages("x = \"abc\ny = 1\n"),
        vec![("SyntaxError: Unterminated String: \"abc".to_string(), 1, 5)]
    );
    assert_eq!(
        kinds("x = \"abc\ny\n"),
        vec![
            TokenType::Identifier("x".to_string()),
            TokenType::Equal,
            TokenType::EndOfLine,
            TokenType::Identifier("y".to_string()),
            TokenType::EndOfLine,
            TokenType::EndOfFile,
        ]
    );
    assert_eq!(messages("\"abc"), vec![("SyntaxError: Unterminated String: \"abc".to_string(), 1, 1)]);
    assert_eq!(messages("\"abc\\"), vec![("SyntaxError: Unterminated String: \"abc".to_string(), 1, 1)]);
}

#[test]
fn unknown_characters_are_reported_and_skipped() {
    let r = scan("a $ b ! c ? d\n");
    assert!(!r.success());
    let found: Vec<(String, u64, u64)> = r.errors.into_iter().map(|e| (e.msg, e.line, e.column)).collect();
    assert_eq!(
        found,
        vec![
            ("SyntaxError: Unknown Token: $".to_string(), 1, 3),
            ("SyntaxError: Unknown Token: \"!\"".to_string(), 1, 7),
            ("SyntaxError: Unknown Token: ?".to_string(), 1, 11),
        ]
    );
    let k: Vec<TokenType> = r.tokens.into_iter().map(|t| t.token_type).collect();
    assert_eq!(
        k,
        vec![
            TokenType::Identifier("a".to_string()),
            TokenType::Identifier("b".to_string()),
            TokenType::Identifier("c".to_string()),
            TokenType::Identifier("d".to_string()),
            TokenType::EndOfLine,
            TokenType::EndOfFile,
        ]
    );
}

#[test]
fn comments_and_blank_lines_do_not_indent() {
    assert_eq!(
        kinds("x # note\n    # only a comment\n\n   \ny\n"),
        vec![
            TokenType::Identifier("x".to_string()),
            TokenType::EndOfLine,
            TokenType::EndOfLine,
            TokenType::EndOfLine,
            TokenType::EndOfLine,
            TokenType::Identifier("y".to_string()),
            TokenType::EndOfLine,
            TokenType::EndOfFile,
        ]
    );
    assert_eq!(kinds("x\n    "), vec![TokenType::Identifier("x".to_string()), TokenType::EndOfLine, TokenType::EndOfFile]);
    assert_eq!(kinds("# c"), vec![TokenType::EndOfFile]);
}

#[test]
fn tabs_go_to_the_next_multiple_of_eight() {
    let r = scan("a\n\tb\n        c\n  \td\n");
    assert!(r.success());
    let k: Vec<TokenType> = r.tokens.iter().map(|t| t.token_type.clone()).collect();
    assert_eq!(k.iter().filter(|t| **t == TokenType::Indent).count(), 1);
    assert_eq!(k.iter().filter(|t| **t == TokenType::Dedent).count(), 1);
    let b = r.tokens.iter().find(|t| t.token_type == TokenType::Identifier("b".to_string())).unwrap();
    assert_eq!((b.line, b.column), (2, 9));
}

#[test]
fn open_blocks_are_closed_at_the_end() {
    assert_eq!(
        kinds("a\n  b\n    c"),
        vec![
            TokenType::Identifier("a".to_string()),
            TokenType::EndOfLine,
            TokenType::Indent,
            TokenType::Identifier("b".to_string()),
            TokenType::EndOfLine,
            TokenType::Indent,
            TokenType::Identifier("c".to_string()),
            TokenType::Dedent,
            TokenType::Dedent,
            TokenType::EndOfFile,
        ]
    );
}

#[test]
fn dedent_closes_several_blocks() {
    let k = kinds("a\n  b\n    c\nd\n");
    assert_eq!(k.iter().filter(|t| **t == TokenType::Indent).count(), 2);
    assert_eq!(k.iter().filter(|t| **t == TokenType::Dedent).count(), 2);
    assert_eq!(k[k.len() - 5..k.len() - 3], [TokenType::Dedent, TokenType::Dedent]);
}

#[test]
fn positions_are_one_based() {
    let r = scan("ab = 12\n  c\n");
    let at: Vec<(u64, u64)> = r.tokens.iter().map(|t| (t.line, t.column)).collect();
    assert_eq!(at, vec![(1, 1), (1, 4), (1, 6), (1, 8), (2, 3), (2, 3), (2, 4), (3, 1), (3, 1)]);
    assert_eq!(r.tokens[2].value, "12");
    assert_eq!(r.tokens[3].value, "\n");
}

#[test]
fn empty_source_is_only_end_of_file() {
    let r = scan("");
    assert!(r.success());
    assert_eq!(r.tokens, vec![Token::create(TokenType::EndOfFile, 1, 1)]);
}

#[test]
fn error_text_names_the_position() {
    let r = scan("?");
    assert_eq!(r.errors[0].to_text(), "SyntaxError: Unknown Token: ?\n    Line 1, Column 1");
}
