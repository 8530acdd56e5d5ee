//! The lexical vocabulary: the kinds of token and the token itself.
use crate::common::text::{decimal, decimal_string};
use vstd::prelude::*;
use vstd::string::StringExecFns;

verus! {

/// The kind of a token, with the payload of a literal or an identifier.
///
/// An integer literal is never negative: a minus sign is a token of its own.
/// A float literal keeps its decimal text, digits on both sides of one point.
#[derive(Debug, PartialEq, Eq)]
pub enum TokenType {
    Plus,
    Minus,
    Asterisk,
    Slash,
    Colon,
    LeftParen,
    RightParen,
    LeftBracket,
    RightBracket,
    Comma,
    EndOfLine,
    NotEqual,
    Equal,
    DoubleEqual,
    Greater,
    GreaterEqual,
    Less,
    LessEqual,
    True,
    False,
    Not,
    And,
    Or,
    If,
    Else,
    While,
    Def,
    Return,
    Print,
    Nothing,
    Identifier(String),
    String(String),
    Int(u64),
    Float(String),
    Indent,
    Dedent,
    EndOfFile,
}

/// The view of a kind of token.
pub ghost enum TokenTypeView {
    Plus,
    Minus,
    Asterisk,
    Slash,
    Colon,
    LeftParen,
    RightParen,
    LeftBracket,
    RightBracket,
    Comma,
    EndOfLine,
    NotEqual,
    Equal,
    DoubleEqual,
    Greater,
    GreaterEqual,
    Less,
    LessEqual,
    True,
    False,
    Not,
    And,
    Or,
    If,
    Else,
    While,
    Def,
    Return,
    Print,
    Nothing,
    Identifier(Seq<char>),
    String(Seq<char>),
    Int(u64),
    Float(Seq<char>),
    Indent,
    Dedent,
    EndOfFile,
}

impl View for TokenType {
    type V = TokenTypeView;

    open spec fn view(&self) -> TokenTypeView {
        match self {
            TokenType::Plus => TokenTypeView::Plus,
            TokenType::Minus => TokenTypeView::Minus,
            TokenType::Asterisk => TokenTypeView::Asterisk,
            TokenType::Slash => TokenTypeView::Slash,
            TokenType::Colon => TokenTypeView::Colon,
            TokenType::LeftParen => TokenTypeView::LeftParen,
            TokenType::RightParen => TokenTypeView::RightParen,
            TokenType::LeftBracket => TokenTypeView::LeftBracket,
            TokenType::RightBracket => TokenTypeView::RightBracket,
            TokenType::Comma => TokenTypeView::Comma,
            TokenType::EndOfLine => TokenTypeView::EndOfLine,
            TokenType::NotEqual => TokenTypeView::NotEqual,
            TokenType::Equal => TokenTypeView::Equal,
            TokenType::DoubleEqual => TokenTypeView::DoubleEqual,
            TokenType::Greater => TokenTypeView::Greater,
            TokenType::GreaterEqual => TokenTypeView::GreaterEqual,
            TokenType::Less => TokenTypeView::Less,
            TokenType::LessEqual => TokenTypeView::LessEqual,
            TokenType::True => TokenTypeView::True,
            TokenType::False => TokenTypeView::False,
            TokenType::Not => TokenTypeView::Not,
            TokenType::And => TokenTypeView::And,
            TokenType::Or => TokenTypeView::Or,
            TokenType::If => TokenTypeView::If,
            TokenType::Else => TokenTypeView::Else,
            TokenType::While => TokenTypeView::While,
            TokenType::Def => TokenTypeView::Def,
            TokenType::Return => TokenTypeView::Return,
            TokenType::Print => TokenTypeView::Print,
            TokenType::Nothing => TokenTypeView::Nothing,
            TokenType::Identifier(n) => TokenTypeView::Identifier(n@),
            TokenType::String(s) => TokenTypeView::String(s@),
            TokenType::Int(n) => TokenTypeView::Int(*n),
            TokenType::Float(t) => TokenTypeView::Float(t@),
            TokenType::Indent => TokenTypeView::Indent,
            TokenType::Dedent => TokenTypeView::Dedent,
            TokenType::EndOfFile => TokenTypeView::EndOfFile,
        }
    }
}

/// The text a token of the given kind is written as. The structural markers
/// have none; a string literal is shown between quotes.
pub open spec fn lexeme(kind: TokenTypeView) -> Seq<char> {
    match kind {
        TokenTypeView::Plus => "+"@,
        TokenTypeView::Minus => "-"@,
        TokenTypeView::Asterisk => "*"@,
        TokenTypeView::Slash => "/"@,
        TokenTypeView::Colon => ":"@,
        TokenTypeView::LeftParen => "("@,
        TokenTypeView::RightParen => ")"@,
        TokenTypeView::LeftBracket => "["@,
        TokenTypeView::RightBracket => "]"@,
        TokenTypeView::Comma => ","@,
        TokenTypeView::EndOfLine => "\n"@,
        TokenTypeView::NotEqual => "!="@,
        TokenTypeView::Equal => "="@,
        TokenTypeView::DoubleEqual => "=="@,
        TokenTypeView::Greater => ">"@,
        TokenTypeView::GreaterEqual => ">="@,
        TokenTypeView::Less => "<"@,
        TokenTypeView::LessEqual => "<="@,
        TokenTypeView::True => "True"@,
        TokenTypeView::False => "False"@,
        TokenTypeView::Not => "not"@,
        TokenTypeView::And => "and"@,
        TokenTypeView::Or => "or"@,
        TokenTypeView::If => "if"@,
        TokenTypeView::Else => "else"@,
        TokenTypeView::While => "while"@,
        TokenTypeView::Def => "def"@,
        TokenTypeView::Return => "return"@,
        TokenTypeView::Print => "print"@,
        TokenTypeView::Nothing => "None"@,
        TokenTypeView::Identifier(n) => n,
        TokenTypeView::String(s) => "\""@ + s + "\""@,
        TokenTypeView::Int(n) => decimal(n as nat),
        TokenTypeView::Float(t) => t,
        TokenTypeView::Indent => ""@,
        TokenTypeView::Dedent => ""@,
        TokenTypeView::EndOfFile => ""@,
    }
}

/// A number for each kind of token, whatever its payload: two tokens are of
/// the same kind if their numbers are equal.
pub open spec fn kind_tag(kind: TokenTypeView) -> int {
    match kind {
        TokenTypeView::Plus => 0,
        TokenTypeView::Minus => 1,
        TokenTypeView::Asterisk => 2,
        TokenTypeView::Slash => 3,
        TokenTypeView::Colon => 4,
        TokenTypeView::LeftParen => 5,
        TokenTypeView::RightParen => 6,
        TokenTypeView::LeftBracket => 7,
        TokenTypeView::RightBracket => 8,
        TokenTypeView::Comma => 9,
        TokenTypeView::EndOfLine => 10,
        TokenTypeView::NotEqual => 11,
        TokenTypeView::Equal => 12,
        TokenTypeView::DoubleEqual => 13,
        TokenTypeView::Greater => 14,
        TokenTypeView::GreaterEqual => 15,
        TokenTypeView::Less => 16,
        TokenTypeView::LessEqual => 17,
        TokenTypeView::True => 18,
        TokenTypeView::False => 19,
        TokenTypeView::Not => 20,
        TokenTypeView::And => 21,
        TokenTypeView::Or => 22,
        TokenTypeView::If => 23,
        TokenTypeView::Else => 24,
        TokenTypeView::While => 25,
        TokenTypeView::Def => 26,
        TokenTypeView::Return => 27,
        TokenTypeView::Print => 28,
        TokenTypeView::Nothing => 29,
        TokenTypeView::Identifier(_) => 30,
        TokenTypeView::String(_) => 31,
        TokenTypeView::Int(_) => 32,
        TokenTypeView::Float(_) => 33,
        TokenTypeView::Indent => 34,
        TokenTypeView::Dedent => 35,
        TokenTypeView::EndOfFile => 36,
    }
}

impl TokenType {
    /// The number of the kind of this token, whatever its payload.
    pub fn tag(&self) -> (t: u8)
        ensures
            t == kind_tag(self@),
    {
        match self {
            TokenType::Plus => 0,
            TokenType::Minus => 1,
            TokenType::Asterisk => 2,
            TokenType::Slash => 3,
            TokenType::Colon => 4,
            TokenType::LeftParen => 5,
            TokenType::RightParen => 6,
            TokenType::LeftBracket => 7,
            TokenType::RightBracket => 8,
            TokenType::Comma => 9,
            TokenType::EndOfLine => 10,
            TokenType::NotEqual => 11,
            TokenType::Equal => 12,
            TokenType::DoubleEqual => 13,
            TokenType::Greater => 14,
            TokenType::GreaterEqual => 15,
            TokenType::Less => 16,
            TokenType::LessEqual => 17,
            TokenType::True => 18,
            TokenType::False => 19,
            TokenType::Not => 20,
            TokenType::And => 21,
            TokenType::Or => 22,
            TokenType::If => 23,
            TokenType::Else => 24,
            TokenType::While => 25,
            TokenType::Def => 26,
            TokenType::Return => 27,
            TokenType::Print => 28,
            TokenType::Nothing => 29,
            TokenType::Identifier(_) => 30,
            TokenType::String(_) => 31,
            TokenType::Int(_) => 32,
            TokenType::Float(_) => 33,
            TokenType::Indent => 34,
            TokenType::Dedent => 35,
            TokenType::EndOfFile => 36,
        }
    }
}

/// A token: its kind, its text, and the 1-based position of its first
/// character.
#[derive(Debug, PartialEq, Eq)]
pub struct Token {
    pub token_type: TokenType,
    pub value: String,
    pub line: u64,
    pub column: u64,
}

/// The view of a token.
pub ghost struct TokenView {
    pub kind: TokenTypeView,
    pub value: Seq<char>,
    pub line: u64,
    pub column: u64,
}

impl View for Token {
    type V = TokenView;

    open spec fn view(&self) -> TokenView {
        TokenView {
            kind: self.token_type@,
            value: self.value@,
            line: self.line,
            column: self.column,
        }
    }
}

/// The token of the given kind at the given position, with the text that
/// belongs to the kind.
pub open spec fn token_at(kind: TokenTypeView, line: u64, column: u64) -> TokenView {
    TokenView { kind, value: lexeme(kind), line, column }
}

impl Token {
    /// The token of kind `token_type` at `line` and `column`; its text follows
    /// from the kind.
    pub fn create(token_type: TokenType, line: u64, column: u64) -> (t: Token)
        ensures
            t.token_type == token_type,
            t@ == token_at(token_type@, line, column),
    {
        let value = match &token_type {
            TokenType::Plus => String::from_str("+"),
            TokenType::Minus => String::from_str("-"),
            TokenType::Asterisk => String::from_str("*"),
            TokenType::Slash => String::from_str("/"),
            TokenType::Colon => String::from_str(":"),
            TokenType::LeftParen => String::from_str("("),
            TokenType::RightParen => String::from_str(")"),
            TokenType::LeftBracket => String::from_str("["),
            TokenType::RightBracket => String::from_str("]"),
            TokenType::Comma => String::from_str(","),
            TokenType::EndOfLine => String::from_str("\n"),
            TokenType::NotEqual => String::from_str("!="),
            TokenType::Equal => String::from_str("="),
            TokenType::DoubleEqual => String::from_str("=="),
            TokenType::Greater => String::from_str(">"),
            TokenType::GreaterEqual => String::from_str(">="),
            TokenType::Less => String::from_str("<"),
            TokenType::LessEqual => String::from_str("<="),
            TokenType::True => String::from_str("True"),
            TokenType::False => String::from_str("False"),
            TokenType::Not => String::from_str("not"),
            TokenType::And => String::from_str("and"),
            TokenType::Or => String::from_str("or"),
            TokenType::If => String::from_str("if"),
            TokenType::Else => String::from_str("else"),
            TokenType::While => String::from_str("while"),
            TokenType::Def => String::from_str("def"),
            TokenType::Return => String::from_str("return"),
            TokenType::Print => String::from_str("print"),
            TokenType::Nothing => String::from_str("None"),
            TokenType::Identifier(n) => n.clone(),
            TokenType::String(s) => {
                let mut quoted = String::from_str("\"");
                quoted.append(s.as_str());
                quoted.append("\"");
                quoted
            },
            TokenType::Int(n) => decimal_string(*n),
            TokenType::Float(t) => t.clone(),
            TokenType::Indent => String::from_str(""),
            TokenType::Dedent => String::from_str(""),
            TokenType::EndOfFile => String::from_str(""),
        };
        Token { token_type, value, line, column }
    }
}

impl Clone for TokenType {
    fn clone(&self) -> (r: TokenType)
        ensures
            r@ == self@,
    {
        match self {
            TokenType::Plus => TokenType::Plus,
            TokenType::Minus => TokenType::Minus,
            TokenType::Asterisk => TokenType::Asterisk,
            TokenType::Slash => TokenType::Slash,
            TokenType::Colon => TokenType::Colon,
            TokenType::LeftParen => TokenType::LeftParen,
            TokenType::RightParen => TokenType::RightParen,
            TokenType::LeftBracket => TokenType::LeftBracket,
            TokenType::RightBracket => TokenType::RightBracket,
            TokenType::Comma => TokenType::Comma,
            TokenType::EndOfLine => TokenType::EndOfLine,
            TokenType::NotEqual => TokenType::NotEqual,
            TokenType::Equal => TokenType::Equal,
            TokenType::DoubleEqual => TokenType::DoubleEqual,
            TokenType::Greater => TokenType::Greater,
            TokenType::GreaterEqual => TokenType::GreaterEqual,
            TokenType::Less => TokenType::Less,
            TokenType::LessEqual => TokenType::LessEqual,
            TokenType::True => TokenType::True,
            TokenType::False => TokenType::False,
            TokenType::Not => TokenType::Not,
            TokenType::And => TokenType::And,
            TokenType::Or => TokenType::Or,
            TokenType::If => TokenType::If,
            TokenType::Else => TokenType::Else,
            TokenType::While => TokenType::While,
            TokenType::Def => TokenType::Def,
            TokenType::Return => TokenType::Return,
            TokenType::Print => TokenType::Print,
            TokenType::Nothing => TokenType::Nothing,
            TokenType::Identifier(n) => TokenType::Identifier(n.clone()),
            TokenType::String(s) => TokenType::String(s.clone()),
            TokenType::Int(n) => TokenType::Int(*n),
            TokenType::Float(t) => TokenType::Float(t.clone()),
            TokenType::Indent => TokenType::Indent,
            TokenType::Dedent => TokenType::Dedent,
            TokenType::EndOfFile => TokenType::EndOfFile,
        }
    }
}

impl Clone for Token {
    fn clone(&self) -> (r: Token)
        ensures
            r@ == self@,
    {
        Token {
            token_type: self.token_type.clone(),
            value: self.value.clone(),
            line: self.line,
            column: self.column,
        }
    }
}

} // verus!
