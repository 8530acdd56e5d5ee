//! The parser: from tokens to statements, by recursive descent with one
//! token of lookahead.
//!
//! The grammar, from the loosest binding to the tightest:
//!
//! ```text
//! statement   := printStmt | assignStmt | ifStmt | whileStmt | funDecl
//!              | returnStmt | exprStmt
//! printStmt   := "print" "(" expr ")" END
//! assignStmt  := IDENT "=" expr END
//!              | IDENT "[" expr "]" "=" expr END
//! ifStmt      := "if" expr ":" block ("else" ":" block)?
//! whileStmt   := "while" expr ":" block
//! funDecl     := "def" IDENT "(" (IDENT ("," IDENT)*)? ")" ":" block
//! returnStmt  := "return" expr? END
//! exprStmt    := expr END
//! block       := EOL Indent (EOL | statement)* Dedent
//! expr        := disjunction
//! disjunction := conjunction ("or" conjunction)*
//! conjunction := equality ("and" equality)*
//! equality    := comparison (("==" | "!=") comparison)*
//! comparison  := term ((">" | ">=" | "<" | "<=") term)*
//! term        := factor (("+" | "-") factor)*
//! factor      := unary (("*" | "/") unary)*
//! unary       := ("-" | "not") unary | primary
//! primary     := INT | FLOAT | STRING | "True" | "False" | "None"
//!              | IDENT "(" (expr ("," expr)*)? ")"
//!              | IDENT "[" expr "]"
//!              | IDENT
//!              | "(" expr ")"
//!              | "[" (expr ("," expr)*)? "]"
//! ```
//!
//! `END` is a newline; at the end of the input, where the last line has no
//! newline, the end itself (an `EndOfFile` or the `Dedent` before it, neither
//! of which is consumed).
use crate::common::ast::{
    exprs_view, lemma_exprs_view_push, lemma_stmts_view_push, stmts_view, BiOp, BiOpType, Expr,
    ExprView, Lit, LitView, Location, Name, NameView, Stmt, StmtView, UnOp, UnOpType,
};
use crate::common::py_error::{PyError, PyErrorView};
use crate::common::text::{lemma_views_push, views};
use crate::common::token::{kind_tag, Token, TokenType, TokenTypeView, TokenView};
use vstd::prelude::*;
use vstd::string::StringExecFns;

verus! {

/// Why a construct could not be parsed: the message, and the index of the
/// token that did not fit.
pub ghost struct FailureView {
    pub msg: Seq<char>,
    pub at: int,
}

/// The kind of the token at `pos`; past the end of the tokens, `EndOfFile`.
pub open spec fn kind_at(tokens: Seq<TokenView>, pos: int) -> TokenTypeView {
    if 0 <= pos < tokens.len() {
        tokens[pos].kind
    } else {
        TokenTypeView::EndOfFile
    }
}

/// The line of the token at `pos`; past the end of the tokens, 0.
pub open spec fn line_at(tokens: Seq<TokenView>, pos: int) -> u64 {
    if 0 <= pos < tokens.len() {
        tokens[pos].line
    } else {
        0
    }
}

/// The column of the token at `pos`; past the end of the tokens, 0.
pub open spec fn column_at(tokens: Seq<TokenView>, pos: int) -> u64 {
    if 0 <= pos < tokens.len() {
        tokens[pos].column
    } else {
        0
    }
}

/// The diagnostic of a failure: its message at the position of the token
/// that did not fit.
pub open spec fn error_of(tokens: Seq<TokenView>, f: FailureView) -> PyErrorView {
    PyErrorView { msg: f.msg, line: line_at(tokens, f.at), column: column_at(tokens, f.at) }
}

/// Whether the token at `pos` is of the kind `want`, whatever its payload.
pub open spec fn has_kind(tokens: Seq<TokenView>, pos: int, want: TokenTypeView) -> bool {
    kind_tag(kind_at(tokens, pos)) == kind_tag(want)
}

/// The index after the token at `pos` if that token is of the kind `want`,
/// and else the failure `msg` at `pos`.
pub open spec fn expect(tokens: Seq<TokenView>, pos: int, want: TokenTypeView, msg: Seq<char>)
    -> Result<int, FailureView> {
    if has_kind(tokens, pos, want) {
        Ok(pos + 1)
    } else {
        Err(FailureView { msg, at: pos })
    }
}

/// The end of a statement at `pos`: a newline, which is consumed, or the end
/// of the input.
pub open spec fn end_of_statement(tokens: Seq<TokenView>, pos: int) -> Result<int, FailureView> {
    match kind_at(tokens, pos) {
        TokenTypeView::EndOfLine => Ok(pos + 1),
        TokenTypeView::EndOfFile => Ok(pos),
        TokenTypeView::Dedent => Ok(pos),
        _ => Err(
            FailureView {
                msg: "SyntaxError: unexpected or missing token after statement (expected newline)"@,
                at: pos,
            },
        ),
    }
}

/// The binary operator that a token of the given kind is at the given level
/// of precedence: 0 for `or`, 1 for `and`, 2 for equality, 3 for comparison,
/// 4 for `+` and `-`, 5 for `*` and `/`.
pub open spec fn binary_op(kind: TokenTypeView, level: int) -> Option<BiOpType> {
    match kind {
        TokenTypeView::Or => if level == 0 {
            Some(BiOpType::Or)
        } else {
            None
        },
        TokenTypeView::And => if level == 1 {
            Some(BiOpType::And)
        } else {
            None
        },
        TokenTypeView::DoubleEqual => if level == 2 {
            Some(BiOpType::DoubleEqual)
        } else {
            None
        },
        TokenTypeView::NotEqual => if level == 2 {
            Some(BiOpType::NotEqual)
        } else {
            None
        },
        TokenTypeView::Greater => if level == 3 {
            Some(BiOpType::Greater)
        } else {
            None
        },
        TokenTypeView::GreaterEqual => if level == 3 {
            Some(BiOpType::GreaterEqual)
        } else {
            None
        },
        TokenTypeView::Less => if level == 3 {
            Some(BiOpType::Less)
        } else {
            None
        },
        TokenTypeView::LessEqual => if level == 3 {
            Some(BiOpType::LessEqual)
        } else {
            None
        },
        TokenTypeView::Plus => if level == 4 {
            Some(BiOpType::Plus)
        } else {
            None
        },
        TokenTypeView::Minus => if level == 4 {
            Some(BiOpType::Minus)
        } else {
            None
        },
        TokenTypeView::Asterisk => if level == 5 {
            Some(BiOpType::Times)
        } else {
            None
        },
        TokenTypeView::Slash => if level == 5 {
            Some(BiOpType::Divided)
        } else {
            None
        },
        _ => None,
    }
}

/// The name that the identifier `name` at `pos` gives.
pub open spec fn name_at(tokens: Seq<TokenView>, pos: int, name: Seq<char>) -> NameView {
    NameView { name, line: line_at(tokens, pos), column: column_at(tokens, pos) }
}

/// The failure of a parser that did not move forward. No parser of this
/// grammar does that: each one that succeeds has consumed a token, as
/// `lemma_expression_advances` and `lemma_statement_advances` show.
pub open spec fn stuck(pos: int) -> FailureView {
    FailureView { msg: "SyntaxError: Unexpected or missing token"@, at: pos }
}

/// An expression of precedence level `level` or tighter at `pos`: the
/// expression and the index after it. Level 6 is `unary`.
pub open spec fn parse_level(tokens: Seq<TokenView>, pos: int, level: int) -> Result<
    (ExprView, int),
    FailureView,
>
    decreases tokens.len() - pos, (if 0 <= level < 6 { 16 - 2 * level } else { 4 }),
{
    if level < 0 || level >= 6 {
        parse_unary(tokens, pos)
    } else {
        match parse_level(tokens, pos, level + 1) {
            Err(f) => Err(f),
            Ok((left, next)) => if pos <= next <= tokens.len() {
                parse_chain(tokens, next, level, left)
            } else {
                Err(stuck(pos))
            },
        }
    }
}

/// The operators of level `level` that follow the operand `left` at `pos`,
/// each with its right operand, folded to the left.
pub open spec fn parse_chain(tokens: Seq<TokenView>, pos: int, level: int, left: ExprView)
    -> Result<(ExprView, int), FailureView>
    decreases tokens.len() - pos, 15 - 2 * level,
{
    if !(0 <= level < 6) || !(0 <= pos < tokens.len()) {
        Ok((left, pos))
    } else {
        match binary_op(kind_at(tokens, pos), level) {
            None => Ok((left, pos)),
            Some(ty) => match parse_level(tokens, pos + 1, level + 1) {
                Err(f) => Err(f),
                Ok((right, next)) => if pos < next <= tokens.len() {
                    parse_chain(
                        tokens,
                        next,
                        level,
                        ExprView::Binary(
                            Box::new(left),
                            BiOp { ty, line: tokens[pos].line, column: tokens[pos].column },
                            Box::new(right),
                        ),
                    )
                } else {
                    Err(stuck(pos))
                },
            },
        }
    }
}

/// `unary := ("-" | "not") unary | primary`
pub open spec fn parse_unary(tokens: Seq<TokenView>, pos: int) -> Result<
    (ExprView, int),
    FailureView,
>
    decreases tokens.len() - pos, 3int,
{
    if !(0 <= pos < tokens.len()) {
        parse_primary(tokens, pos)
    } else {
        match tokens[pos].kind {
            TokenTypeView::Minus => match parse_unary(tokens, pos + 1) {
                Err(f) => Err(f),
                Ok((operand, next)) => Ok(
                    (
                        ExprView::Unary(
                            UnOp {
                                ty: UnOpType::Minus,
                                line: tokens[pos].line,
                                column: tokens[pos].column,
                            },
                            Box::new(operand),
                        ),
                        next,
                    ),
                ),
            },
            TokenTypeView::Not => match parse_unary(tokens, pos + 1) {
                Err(f) => Err(f),
                Ok((operand, next)) => Ok(
                    (
                        ExprView::Unary(
                            UnOp {
                                ty: UnOpType::Not,
                                line: tokens[pos].line,
                                column: tokens[pos].column,
                            },
                            Box::new(operand),
                        ),
                        next,
                    ),
                ),
            },
            _ => parse_primary(tokens, pos),
        }
    }
}

/// A literal, a call, a list access, a variable, a grouping or a list.
pub open spec fn parse_primary(tokens: Seq<TokenView>, pos: int) -> Result<
    (ExprView, int),
    FailureView,
>
    decreases tokens.len() - pos, 2int,
{
    if !(0 <= pos < tokens.len()) {
        Err(stuck(pos))
    } else {
        match tokens[pos].kind {
            TokenTypeView::Identifier(name) => match kind_at(tokens, pos + 1) {
                TokenTypeView::LeftParen => match parse_items(
                    tokens,
                    pos + 2,
                    TokenTypeView::RightParen,
                    Seq::empty(),
                ) {
                    Err(f) => Err(f),
                    Ok((args, next)) => Ok(
                        (ExprView::Call(name_at(tokens, pos, name), args), next),
                    ),
                },
                TokenTypeView::LeftBracket => match parse_level(tokens, pos + 2, 0) {
                    Err(f) => Err(f),
                    Ok((index, next)) => match expect(
                        tokens,
                        next,
                        TokenTypeView::RightBracket,
                        "SyntaxError: missing ] in list access"@,
                    ) {
                        Err(f) => Err(f),
                        Ok(after) => Ok(
                            (
                                ExprView::ListAccess(
                                    name_at(tokens, pos, name),
                                    Box::new(index),
                                ),
                                after,
                            ),
                        ),
                    },
                },
                _ => Ok((ExprView::Variable(name_at(tokens, pos, name)), pos + 1)),
            },
            TokenTypeView::String(text) => Ok(
                (ExprView::Literal(LitView::String(text)), pos + 1),
            ),
            TokenTypeView::Int(n) => Ok((ExprView::Literal(LitView::Int(n)), pos + 1)),
            TokenTypeView::Float(text) => Ok((ExprView::Literal(LitView::Float(text)), pos + 1)),
            TokenTypeView::True => Ok((ExprView::Literal(LitView::True), pos + 1)),
            TokenTypeView::False => Ok((ExprView::Literal(LitView::False), pos + 1)),
            TokenTypeView::Nothing => Ok((ExprView::Literal(LitView::Nothing), pos + 1)),
            TokenTypeView::LeftParen => match parse_level(tokens, pos + 1, 0) {
                Err(f) => Err(f),
                Ok((inner, next)) => match expect(
                    tokens,
                    next,
                    TokenTypeView::RightParen,
                    "SyntaxError: Missing closing parentheses"@,
                ) {
                    Err(f) => Err(f),
                    Ok(after) => Ok((ExprView::Grouping(Box::new(inner)), after)),
                },
            },
            TokenTypeView::LeftBracket => match parse_items(
                tokens,
                pos + 1,
                TokenTypeView::RightBracket,
                Seq::empty(),
            ) {
                Err(f) => Err(f),
                Ok((items, next)) => Ok((ExprView::Literal(LitView::List(items)), next)),
            },
            TokenTypeView::Indent => Err(
                FailureView { msg: "SyntaxError: unexpected indent/dedent"@, at: pos },
            ),
            TokenTypeView::Dedent => Err(
                FailureView { msg: "SyntaxError: unexpected indent/dedent"@, at: pos },
            ),
            _ => Err(stuck(pos)),
        }
    }
}

/// What is said of a list of expressions that is not closed by `close`.
pub open spec fn unclosed(close: TokenTypeView) -> Seq<char> {
    if close is RightParen {
        "SyntaxError: missing ) in call"@
    } else {
        "SyntaxError: missing ] in list"@
    }
}

/// The rest of a list of expressions separated by commas and closed by a
/// token of kind `close`, where `done` holds the expressions read so far and
/// `pos` is behind the opening token or a comma.
pub open spec fn parse_items(
    tokens: Seq<TokenView>,
    pos: int,
    close: TokenTypeView,
    done: Seq<ExprView>,
) -> Result<(Seq<ExprView>, int), FailureView>
    decreases tokens.len() - pos, 20int,
{
    if done.len() == 0 && has_kind(tokens, pos, close) {
        Ok((done, pos + 1))
    } else {
        match parse_level(tokens, pos, 0) {
            Err(f) => Err(f),
            Ok((item, next)) => if !(pos < next <= tokens.len()) {
                Err(stuck(pos))
            } else if has_kind(tokens, next, TokenTypeView::Comma) {
                parse_items(tokens, next + 1, close, done.push(item))
            } else if has_kind(tokens, next, close) {
                Ok((done.push(item), next + 1))
            } else {
                Err(FailureView { msg: unclosed(close), at: next })
            },
        }
    }
}

/// `expr := disjunction`
pub open spec fn parse_expr(tokens: Seq<TokenView>, pos: int) -> Result<
    (ExprView, int),
    FailureView,
> {
    parse_level(tokens, pos, 0)
}

/// The rest of the parameters of a function declaration, closed by `)`.
pub open spec fn parse_params(tokens: Seq<TokenView>, pos: int, done: Seq<NameView>) -> Result<
    (Seq<NameView>, int),
    FailureView,
>
    decreases tokens.len() - pos,
{
    if done.len() == 0 && has_kind(tokens, pos, TokenTypeView::RightParen) {
        Ok((done, pos + 1))
    } else if !(0 <= pos < tokens.len()) {
        Err(FailureView { msg: "SyntaxError: missing ) in def statement"@, at: pos })
    } else {
        match tokens[pos].kind {
            TokenTypeView::Identifier(name) => {
                let named = done.push(name_at(tokens, pos, name));
                if has_kind(tokens, pos + 1, TokenTypeView::Comma) {
                    parse_params(tokens, pos + 2, named)
                } else if has_kind(tokens, pos + 1, TokenTypeView::RightParen) {
                    Ok((named, pos + 2))
                } else {
                    Err(
                        FailureView {
                            msg: "SyntaxError: missing ) in def statement"@,
                            at: pos + 1,
                        },
                    )
                }
            },
            _ => Err(
                FailureView {
                    msg: if done.len() == 0 {
                        "SyntaxError: missing ) in def statement"@
                    } else {
                        "SyntaxError: missing parameter name in def statement"@
                    },
                    at: pos,
                },
            ),
        }
    }
}

/// One statement at `pos`: the statement and the index after it.
pub open spec fn parse_statement(tokens: Seq<TokenView>, pos: int) -> Result<
    (StmtView, int),
    FailureView,
>
    decreases tokens.len() - pos, 30int,
{
    if !(0 <= pos < tokens.len()) {
        Err(stuck(pos))
    } else if tokens[pos].kind is Print {
        match expect(
            tokens,
            pos + 1,
            TokenTypeView::LeftParen,
            "SyntaxError: missing ( in call to print"@,
        ) {
            Err(f) => Err(f),
            Ok(inside) => match parse_level(tokens, inside, 0) {
                Err(f) => Err(f),
                Ok((e, next)) => match expect(
                    tokens,
                    next,
                    TokenTypeView::RightParen,
                    "SyntaxError: missing ) in call to print"@,
                ) {
                    Err(f) => Err(f),
                    Ok(after) => match end_of_statement(tokens, after) {
                        Err(f) => Err(f),
                        Ok(end) => Ok((StmtView::Print(e), end)),
                    },
                },
            },
        }
    } else if tokens[pos].kind is Identifier && has_kind(tokens, pos + 1, TokenTypeView::Equal) {
        match parse_level(tokens, pos + 2, 0) {
            Err(f) => Err(f),
            Ok((e, next)) => match end_of_statement(tokens, next) {
                Err(f) => Err(f),
                Ok(end) => Ok(
                    (
                        StmtView::AssignVar(
                            name_at(tokens, pos, tokens[pos].kind->Identifier_0),
                            e,
                        ),
                        end,
                    ),
                ),
            },
        }
    } else if tokens[pos].kind is If {
        match parse_level(tokens, pos + 1, 0) {
            Err(f) => Err(f),
            Ok((cond, next)) => match expect(
                tokens,
                next,
                TokenTypeView::Colon,
                "SyntaxError: missing colon or expression after if statement"@,
            ) {
                Err(f) => Err(f),
                Ok(after) => if !(pos < after <= tokens.len()) {
                    Err(stuck(pos))
                } else {
                    match parse_block(tokens, after) {
                        Err(f) => Err(f),
                        Ok((then, n2)) => if !has_kind(tokens, n2, TokenTypeView::Else) {
                            Ok((StmtView::If(cond, then, None), n2))
                        } else {
                            match expect(
                                tokens,
                                n2 + 1,
                                TokenTypeView::Colon,
                                "SyntaxError: missing colon after else statement"@,
                            ) {
                                Err(f) => Err(f),
                                Ok(n3) => if !(pos < n3 <= tokens.len()) {
                                    Err(stuck(pos))
                                } else {
                                    match parse_block(tokens, n3) {
                                        Err(f) => Err(f),
                                        Ok((otherwise, n4)) => Ok(
                                            (StmtView::If(cond, then, Some(otherwise)), n4),
                                        ),
                                    }
                                },
                            }
                        },
                    }
                },
            },
        }
    } else if tokens[pos].kind is While {
        match parse_level(tokens, pos + 1, 0) {
            Err(f) => Err(f),
            Ok((cond, next)) => match expect(
                tokens,
                next,
                TokenTypeView::Colon,
                "SyntaxError: missing colon or expression after while statement"@,
            ) {
                Err(f) => Err(f),
                Ok(after) => if !(pos < after <= tokens.len()) {
                    Err(stuck(pos))
                } else {
                    match parse_block(tokens, after) {
                        Err(f) => Err(f),
                        Ok((body, n2)) => Ok((StmtView::While(cond, body), n2)),
                    }
                },
            },
        }
    } else if tokens[pos].kind is Def {
        match kind_at(tokens, pos + 1) {
            TokenTypeView::Identifier(name) => match expect(
                tokens,
                pos + 2,
                TokenTypeView::LeftParen,
                "SyntaxError: missing ( in def statement"@,
            ) {
                Err(f) => Err(f),
                Ok(inside) => match parse_params(tokens, inside, Seq::empty()) {
                    Err(f) => Err(f),
                    Ok((params, next)) => match expect(
                        tokens,
                        next,
                        TokenTypeView::Colon,
                        "SyntaxError: missing colon after def statement"@,
                    ) {
                        Err(f) => Err(f),
                        Ok(after) => if !(pos < after <= tokens.len()) {
                            Err(stuck(pos))
                        } else {
                            match parse_block(tokens, after) {
                                Err(f) => Err(f),
                                Ok((body, n2)) => Ok(
                                    (
                                        StmtView::FunDecl(
                                            name_at(tokens, pos + 1, name),
                                            params,
                                            body,
                                        ),
                                        n2,
                                    ),
                                ),
                            }
                        },
                    },
                },
            },
            _ => Err(
                FailureView { msg: "SyntaxError: missing name in def statement"@, at: pos + 1 },
            ),
        }
    } else if tokens[pos].kind is Return {
        let at = Location { line: tokens[pos].line, column: tokens[pos].column };
        if end_of_statement(tokens, pos + 1) is Ok {
            Ok((StmtView::Return(at, None), end_of_statement(tokens, pos + 1)->Ok_0))
        } else {
            match parse_level(tokens, pos + 1, 0) {
                Err(f) => Err(f),
                Ok((e, next)) => match end_of_statement(tokens, next) {
                    Err(f) => Err(f),
                    Ok(end) => Ok((StmtView::Return(at, Some(e)), end)),
                },
            }
        }
    } else {
        match parse_level(tokens, pos, 0) {
            Err(f) => Err(f),
            Ok((e, next)) => if !(pos < next <= tokens.len()) {
                Err(stuck(pos))
            } else if e is ListAccess && has_kind(tokens, next, TokenTypeView::Equal) {
                match parse_level(tokens, next + 1, 0) {
                    Err(f) => Err(f),
                    Ok((value, n2)) => match end_of_statement(tokens, n2) {
                        Err(f) => Err(f),
                        Ok(end) => Ok(
                            (
                                StmtView::AssignList(
                                    e->ListAccess_0,
                                    *e->ListAccess_1,
                                    value,
                                ),
                                end,
                            ),
                        ),
                    },
                }
            } else {
                match end_of_statement(tokens, next) {
                    Err(f) => Err(f),
                    Ok(end) => Ok((StmtView::Expr(e), end)),
                }
            },
        }
    }
}

/// `block := EOL Indent (EOL | statement)* Dedent`
pub open spec fn parse_block(tokens: Seq<TokenView>, pos: int) -> Result<
    (Seq<StmtView>, int),
    FailureView,
>
    decreases tokens.len() - pos, 40int,
{
    match expect(
        tokens,
        pos,
        TokenTypeView::EndOfLine,
        "SyntaxError: missing newline before block"@,
    ) {
        Err(f) => Err(f),
        Ok(n1) => match expect(
            tokens,
            n1,
            TokenTypeView::Indent,
            "SyntaxError: missing indent before block"@,
        ) {
            Err(f) => Err(f),
            Ok(n2) => parse_block_items(tokens, n2, Seq::empty()),
        },
    }
}

/// The rest of a block, where `done` holds the statements read so far.
pub open spec fn parse_block_items(tokens: Seq<TokenView>, pos: int, done: Seq<StmtView>)
    -> Result<(Seq<StmtView>, int), FailureView>
    decreases tokens.len() - pos, 35int,
{
    if has_kind(tokens, pos, TokenTypeView::Dedent) {
        Ok((done, pos + 1))
    } else if has_kind(tokens, pos, TokenTypeView::EndOfLine) {
        parse_block_items(tokens, pos + 1, done)
    } else {
        match parse_statement(tokens, pos) {
            Err(f) => Err(f),
            Ok((st, next)) => if pos < next <= tokens.len() {
                parse_block_items(tokens, next, done.push(st))
            } else {
                Err(stuck(pos))
            },
        }
    }
}

/// Every parser of an expression that succeeds has consumed a token; a chain
/// of operators may consume none.
pub proof fn lemma_expression_advances(tokens: Seq<TokenView>, pos: int, level: int)
    requires
        0 <= pos,
    ensures
        parse_level(tokens, pos, level) matches Ok((_, next)) ==> pos < next <= tokens.len(),
    decreases tokens.len() - pos, (if 0 <= level < 6 { 16 - 2 * level } else { 4 }),
{
    if level < 0 || level >= 6 {
        lemma_unary_advances(tokens, pos);
    } else {
        lemma_expression_advances(tokens, pos, level + 1);
        match parse_level(tokens, pos, level + 1) {
            Ok((left, next)) => {
                lemma_chain_advances(tokens, next, level, left);
            },
            Err(_) => {},
        }
    }
}

proof fn lemma_chain_advances(tokens: Seq<TokenView>, pos: int, level: int, left: ExprView)
    requires
        0 <= pos <= tokens.len(),
    ensures
        parse_chain(tokens, pos, level, left) matches Ok((_, next)) ==> pos <= next
            <= tokens.len(),
    decreases tokens.len() - pos, 15 - 2 * level,
{
    if (0 <= level < 6) && pos < tokens.len() {
        match binary_op(kind_at(tokens, pos), level) {
            None => {},
            Some(ty) => {
                lemma_expression_advances(tokens, pos + 1, level + 1);
                match parse_level(tokens, pos + 1, level + 1) {
                    Ok((right, next)) => {
                        lemma_chain_advances(
                            tokens,
                            next,
                            level,
                            ExprView::Binary(
                                Box::new(left),
                                BiOp { ty, line: tokens[pos].line, column: tokens[pos].column },
                                Box::new(right),
                            ),
                        );
                    },
                    Err(_) => {},
                }
            },
        }
    }
}

proof fn lemma_unary_advances(tokens: Seq<TokenView>, pos: int)
    requires
        0 <= pos,
    ensures
        parse_unary(tokens, pos) matches Ok((_, next)) ==> pos < next <= tokens.len(),
    decreases tokens.len() - pos, 3int,
{
    if pos < tokens.len() {
        match tokens[pos].kind {
            TokenTypeView::Minus => {
                lemma_unary_advances(tokens, pos + 1);
            },
            TokenTypeView::Not => {
                lemma_unary_advances(tokens, pos + 1);
            },
            _ => {
                lemma_primary_advances(tokens, pos);
            },
        }
    } else {
        lemma_primary_advances(tokens, pos);
    }
}

proof fn lemma_primary_advances(tokens: Seq<TokenView>, pos: int)
    requires
        0 <= pos,
    ensures
        parse_primary(tokens, pos) matches Ok((_, next)) ==> pos < next <= tokens.len(),
    decreases tokens.len() - pos, 2int,
{
    if pos < tokens.len() {
        match tokens[pos].kind {
            TokenTypeView::Identifier(name) => match kind_at(tokens, pos + 1) {
                TokenTypeView::LeftParen => {
                    lemma_items_advance(tokens, pos + 2, TokenTypeView::RightParen, Seq::empty());
                },
                TokenTypeView::LeftBracket => {
                    lemma_expression_advances(tokens, pos + 2, 0);
                },
                _ => {},
            },
            TokenTypeView::LeftParen => {
                lemma_expression_advances(tokens, pos + 1, 0);
            },
            TokenTypeView::LeftBracket => {
                lemma_items_advance(tokens, pos + 1, TokenTypeView::RightBracket, Seq::empty());
            },
            _ => {},
        }
    }
}

proof fn lemma_items_advance(
    tokens: Seq<TokenView>,
    pos: int,
    close: TokenTypeView,
    done: Seq<ExprView>,
)
    requires
        0 <= pos,
        close is RightParen || close is RightBracket,
    ensures
        parse_items(tokens, pos, close, done) matches Ok((_, next)) ==> pos < next
            <= tokens.len(),
    decreases tokens.len() - pos, 20int,
{
    if !(done.len() == 0 && has_kind(tokens, pos, close)) {
        lemma_expression_advances(tokens, pos, 0);
        match parse_level(tokens, pos, 0) {
            Ok((item, next)) => {
                if has_kind(tokens, next, TokenTypeView::Comma) {
                    lemma_items_advance(tokens, next + 1, close, done.push(item));
                }
            },
            Err(_) => {},
        }
    }
}

/// Index of the first `EndOfLine` or `EndOfFile` at or after `pos`.
pub open spec fn resync(tokens: Seq<TokenView>, pos: int) -> int
    decreases tokens.len() - pos,
{
    if 0 <= pos < tokens.len() && !(tokens[pos].kind is EndOfLine) && !(tokens[pos].kind
        is EndOfFile) {
        resync(tokens, pos + 1)
    } else {
        pos
    }
}

proof fn lemma_params_advance(tokens: Seq<TokenView>, pos: int, done: Seq<NameView>)
    requires
        0 <= pos,
    ensures
        parse_params(tokens, pos, done) matches Ok((_, next)) ==> pos < next <= tokens.len(),
    decreases tokens.len() - pos,
{
    if !(done.len() == 0 && has_kind(tokens, pos, TokenTypeView::RightParen)) && pos
        < tokens.len() {
        match tokens[pos].kind {
            TokenTypeView::Identifier(name) => {
                if has_kind(tokens, pos + 1, TokenTypeView::Comma) {
                    lemma_params_advance(tokens, pos + 2, done.push(name_at(tokens, pos, name)));
                }
            },
            _ => {},
        }
    }
}

/// Every statement that parses has consumed a token.
pub proof fn lemma_statement_advances(tokens: Seq<TokenView>, pos: int)
    requires
        0 <= pos,
    ensures
        parse_statement(tokens, pos) matches Ok((_, next)) ==> pos < next <= tokens.len(),
    decreases tokens.len() - pos, 30int,
{
    if pos < tokens.len() {
        if tokens[pos].kind is Print {
            lemma_expression_advances(tokens, pos + 2, 0);
        } else if tokens[pos].kind is Identifier && has_kind(
            tokens,
            pos + 1,
            TokenTypeView::Equal,
        ) {
            lemma_expression_advances(tokens, pos + 2, 0);
        } else if tokens[pos].kind is If {
            lemma_expression_advances(tokens, pos + 1, 0);
            match parse_level(tokens, pos + 1, 0) {
                Ok((cond, next)) => {
                    if has_kind(tokens, next, TokenTypeView::Colon) {
                        lemma_block_advances(tokens, next + 1);
                        match parse_block(tokens, next + 1) {
                            Ok((then, n2)) => {
                                if has_kind(tokens, n2, TokenTypeView::Else) && has_kind(
                                    tokens,
                                    n2 + 1,
                                    TokenTypeView::Colon,
                                ) {
                                    lemma_block_advances(tokens, n2 + 2);
                                }
                            },
                            Err(_) => {},
                        }
                    }
                },
                Err(_) => {},
            }
        } else if tokens[pos].kind is While {
            lemma_expression_advances(tokens, pos + 1, 0);
            match parse_level(tokens, pos + 1, 0) {
                Ok((cond, next)) => {
                    if has_kind(tokens, next, TokenTypeView::Colon) {
                        lemma_block_advances(tokens, next + 1);
                    }
                },
                Err(_) => {},
            }
        } else if tokens[pos].kind is Def {
            lemma_params_advance(tokens, pos + 3, Seq::empty());
            match parse_params(tokens, pos + 3, Seq::empty()) {
                Ok((params, next)) => {
                    if has_kind(tokens, next, TokenTypeView::Colon) {
                        lemma_block_advances(tokens, next + 1);
                    }
                },
                Err(_) => {},
            }
        } else if tokens[pos].kind is Return {
            lemma_expression_advances(tokens, pos + 1, 0);
        } else {
            lemma_expression_advances(tokens, pos, 0);
            match parse_level(tokens, pos, 0) {
                Ok((e, next)) => {
                    lemma_expression_advances(tokens, next + 1, 0);
                },
                Err(_) => {},
            }
        }
    }
}

proof fn lemma_block_advances(tokens: Seq<TokenView>, pos: int)
    requires
        0 <= pos,
    ensures
        parse_block(tokens, pos) matches Ok((_, next)) ==> pos < next <= tokens.len(),
    decreases tokens.len() - pos, 40int,
{
    if has_kind(tokens, pos, TokenTypeView::EndOfLine) && has_kind(
        tokens,
        pos + 1,
        TokenTypeView::Indent,
    ) {
        lemma_block_items_advance(tokens, pos + 2, Seq::empty());
    }
}

proof fn lemma_block_items_advance(tokens: Seq<TokenView>, pos: int, done: Seq<StmtView>)
    requires
        0 <= pos,
    ensures
        parse_block_items(tokens, pos, done) matches Ok((_, next)) ==> pos < next
            <= tokens.len(),
    decreases tokens.len() - pos, 35int,
{
    if has_kind(tokens, pos, TokenTypeView::Dedent) {
    } else if has_kind(tokens, pos, TokenTypeView::EndOfLine) {
        lemma_block_items_advance(tokens, pos + 1, done);
    } else {
        lemma_statement_advances(tokens, pos);
        match parse_statement(tokens, pos) {
            Ok((st, next)) => {
                lemma_block_items_advance(tokens, next, done.push(st));
            },
            Err(_) => {},
        }
    }
}

/// The statements and the diagnostics of a whole parse.
pub ghost struct ParsedView {
    pub statements: Seq<StmtView>,
    pub errors: Seq<PyErrorView>,
}

/// The rest of a program from `pos`, where `done` and `errors` hold what was
/// read and reported so far. Empty lines are skipped. After a statement that
/// fails, parsing resumes at the next end of line.
pub open spec fn parse_program(
    tokens: Seq<TokenView>,
    pos: int,
    done: Seq<StmtView>,
    errors: Seq<PyErrorView>,
) -> ParsedView
    decreases tokens.len() - pos,
{
    if has_kind(tokens, pos, TokenTypeView::EndOfFile) {
        ParsedView { statements: done, errors }
    } else if has_kind(tokens, pos, TokenTypeView::EndOfLine) {
        parse_program(tokens, pos + 1, done, errors)
    } else {
        match parse_statement(tokens, pos) {
            Ok((st, next)) => if pos < next <= tokens.len() {
                parse_program(tokens, next, done.push(st), errors)
            } else {
                ParsedView { statements: done, errors }
            },
            Err(f) => {
                let reported = errors.push(error_of(tokens, f));
                let resumed = resync(tokens, f.at);
                if pos < resumed <= tokens.len() {
                    parse_program(tokens, resumed, done, reported)
                } else {
                    ParsedView { statements: done, errors: reported }
                }
            },
        }
    }
}

/// The statements of a program if all of them parse, and else every
/// diagnostic, in the order of the source.
pub open spec fn parse_spec(tokens: Seq<TokenView>) -> Result<Seq<StmtView>, Seq<PyErrorView>> {
    let parsed = parse_program(tokens, 0, Seq::empty(), Seq::empty());
    if parsed.errors.len() == 0 {
        Ok(parsed.statements)
    } else {
        Err(parsed.errors)
    }
}


struct Failure {
    msg: String,
    at: usize,
}

impl View for Failure {
    type V = FailureView;

    closed spec fn view(&self) -> FailureView {
        FailureView { msg: self.msg@, at: self.at as int }
    }
}

spec fn expr_outcome(r: Result<Expr, Failure>, cursor: usize) -> Result<
    (ExprView, int),
    FailureView,
> {
    match r {
        Ok(e) => Ok((e@, cursor as int)),
        Err(f) => Err(f@),
    }
}

spec fn exprs_outcome(r: Result<Vec<Expr>, Failure>, cursor: usize) -> Result<
    (Seq<ExprView>, int),
    FailureView,
> {
    match r {
        Ok(items) => Ok((exprs_view(items@), cursor as int)),
        Err(f) => Err(f@),
    }
}

spec fn names_outcome(r: Result<Vec<Name>, Failure>, cursor: usize) -> Result<
    (Seq<NameView>, int),
    FailureView,
> {
    match r {
        Ok(names) => Ok((views(names@), cursor as int)),
        Err(f) => Err(f@),
    }
}

spec fn stmt_outcome(r: Result<Stmt, Failure>, cursor: usize) -> Result<
    (StmtView, int),
    FailureView,
> {
    match r {
        Ok(st) => Ok((st@, cursor as int)),
        Err(f) => Err(f@),
    }
}

spec fn stmts_outcome(r: Result<Vec<Stmt>, Failure>, cursor: usize) -> Result<
    (Seq<StmtView>, int),
    FailureView,
> {
    match r {
        Ok(block) => Ok((stmts_view(block@), cursor as int)),
        Err(f) => Err(f@),
    }
}

spec fn unit_outcome(r: Result<(), Failure>, cursor: usize) -> Result<int, FailureView> {
    match r {
        Ok(_) => Ok(cursor as int),
        Err(f) => Err(f@),
    }
}

fn binary_op_of(kind: &TokenType, level: u8) -> (r: Option<BiOpType>)
    ensures
        r == binary_op(kind@, level as int),
{
    match kind {
        TokenType::Or => if level == 0 {
            Some(BiOpType::Or)
        } else {
            None
        },
        TokenType::And => if level == 1 {
            Some(BiOpType::And)
        } else {
            None
        },
        TokenType::DoubleEqual => if level == 2 {
            Some(BiOpType::DoubleEqual)
        } else {
            None
        },
        TokenType::NotEqual => if level == 2 {
            Some(BiOpType::NotEqual)
        } else {
            None
        },
        TokenType::Greater => if level == 3 {
            Some(BiOpType::Greater)
        } else {
            None
        },
        TokenType::GreaterEqual => if level == 3 {
            Some(BiOpType::GreaterEqual)
        } else {
            None
        },
        TokenType::Less => if level == 3 {
            Some(BiOpType::Less)
        } else {
            None
        },
        TokenType::LessEqual => if level == 3 {
            Some(BiOpType::LessEqual)
        } else {
            None
        },
        TokenType::Plus => if level == 4 {
            Some(BiOpType::Plus)
        } else {
            None
        },
        TokenType::Minus => if level == 4 {
            Some(BiOpType::Minus)
        } else {
            None
        },
        TokenType::Asterisk => if level == 5 {
            Some(BiOpType::Times)
        } else {
            None
        },
        TokenType::Slash => if level == 5 {
            Some(BiOpType::Divided)
        } else {
            None
        },
        _ => None,
    }
}

/// The cursor of the parser: the tokens and the index of the current one.
struct Parser<'a> {
    tokens: &'a Vec<Token>,
    current_idx: usize,
}

impl<'a> Parser<'a> {
    spec fn toks(&self) -> Seq<TokenView> {
        views(self.tokens@)
    }

    spec fn pos(&self) -> int {
        self.current_idx as int
    }

    spec fn wf(&self) -> bool {
        self.current_idx <= self.tokens.len()
    }

    /// Whether `next` is the cursor `self` moved forward or left in place.
    spec fn leads_to(&self, next: &Parser<'a>) -> bool {
        &&& next.tokens == self.tokens
        &&& next.wf()
        &&& self.current_idx <= next.current_idx
    }

    fn failure(msg: &str, at: usize) -> (f: Failure)
        ensures
            f@ == (FailureView { msg: msg@, at: at as int }),
    {
        Failure { msg: String::from_str(msg), at }
    }

    /// Whether the current token is of the kind `want`.
    fn check_type(&self, want: &TokenType) -> (b: bool)
        requires
            self.wf(),
        ensures
            b == has_kind(self.toks(), self.pos(), want@),
    {
        if self.current_idx < self.tokens.len() {
            self.tokens[self.current_idx].token_type.tag() == want.tag()
        } else {
            TokenType::EndOfFile.tag() == want.tag()
        }
    }

    /// Consumes the current token if it is of the kind `want`.
    fn check_advance(&mut self, want: &TokenType) -> (b: bool)
        requires
            old(self).wf(),
            !(want@ is EndOfFile),
        ensures
            b == has_kind(old(self).toks(), old(self).pos(), want@),
            old(self).leads_to(final(self)),
            final(self).pos() == (if b {
                old(self).pos() + 1
            } else {
                old(self).pos()
            }),
    {
        if self.check_type(want) {
            self.current_idx += 1;
            true
        } else {
            false
        }
    }

    /// Consumes the current token if it is of the kind `want`, and fails with
    /// `msg` otherwise.
    fn check_or_error(&mut self, want: &TokenType, msg: &str) -> (r: Result<(), Failure>)
        requires
            old(self).wf(),
            !(want@ is EndOfFile),
        ensures
            unit_outcome(r, final(self).current_idx) == expect(
                old(self).toks(),
                old(self).pos(),
                want@,
                msg@,
            ),
            old(self).leads_to(final(self)),
            r is Ok ==> old(self).pos() < final(self).pos(),
    {
        if self.check_advance(want) {
            Ok(())
        } else {
            Err(Self::failure(msg, self.current_idx))
        }
    }

    /// Consumes the end of a statement.
    fn statement_end(&mut self) -> (r: Result<(), Failure>)
        requires
            old(self).wf(),
        ensures
            unit_outcome(r, final(self).current_idx) == end_of_statement(
                old(self).toks(),
                old(self).pos(),
            ),
            old(self).leads_to(final(self)),
    {
        if self.current_idx >= self.tokens.len() {
            return Ok(());
        }
        match &self.tokens[self.current_idx].token_type {
            TokenType::EndOfLine => {
                self.current_idx += 1;
                Ok(())
            },
            TokenType::EndOfFile => Ok(()),
            TokenType::Dedent => Ok(()),
            _ => Err(
                Self::failure(
                    "SyntaxError: unexpected or missing token after statement (expected newline)",
                    self.current_idx,
                ),
            ),
        }
    }

    /// The name that the identifier `name` at index `at` gives.
    fn name_of(&self, at: usize, name: &String) -> (n: Name)
        requires
            at < self.tokens.len(),
        ensures
            n@ == name_at(self.toks(), at as int, name@),
    {
        Name {
            name: name.clone(),
            line: self.tokens[at].line,
            column: self.tokens[at].column,
        }
    }

    /// `expr := disjunction`
    fn expression(&mut self) -> (r: Result<Expr, Failure>)
        requires
            old(self).wf(),
        ensures
            old(self).leads_to(final(self)),
            expr_outcome(r, final(self).current_idx) == parse_expr(
                old(self).toks(),
                old(self).pos(),
            ),
            r is Ok ==> old(self).pos() < final(self).pos(),
        decreases old(self).tokens.len() - old(self).current_idx, 17int,
    {
        self.level(0)
    }

    /// An expression of precedence level `level` or tighter: a disjunction
    /// at level 0, then a conjunction, an equality, a comparison, a term, and
    /// a factor at level 5.
    fn level(&mut self, level: u8) -> (r: Result<Expr, Failure>)
        requires
            old(self).wf(),
            level <= 6,
        ensures
            old(self).leads_to(final(self)),
            expr_outcome(r, final(self).current_idx) == parse_level(
                old(self).toks(),
                old(self).pos(),
                level as int,
            ),
            r is Ok ==> old(self).pos() < final(self).pos(),
        decreases
                old(self).tokens.len() - old(self).current_idx,
                (if level < 6 {
                    16 - 2 * level
                } else {
                    4
                }),
    {
        if level >= 6 {
            return self.unary();
        }
        let mut left = match self.level(level + 1) {
            Ok(e) => e,
            Err(f) => {
                return Err(f);
            },
        };
        loop
            invariant
                old(self).leads_to(self),
                old(self).pos() < self.pos(),
                level < 6,
                parse_chain(self.toks(), self.pos(), level as int, left@) == parse_level(
                    old(self).toks(),
                    old(self).pos(),
                    level as int,
                ),
            decreases self.tokens.len() - self.current_idx,
        {
            if self.current_idx >= self.tokens.len() {
                return Ok(left);
            }
            let at = self.current_idx;
            match binary_op_of(&self.tokens[at].token_type, level) {
                None => {
                    return Ok(left);
                },
                Some(ty) => {
                    let op = BiOp {
                        ty,
                        line: self.tokens[at].line,
                        column: self.tokens[at].column,
                    };
                    self.current_idx += 1;
                    match self.level(level + 1) {
                        Err(f) => {
                            return Err(f);
                        },
                        Ok(right) => {
                            left = Expr::Binary(Box::new(left), op, Box::new(right));
                        },
                    }
                },
            }
        }
    }

    /// `unary := ("-" | "not") unary | primary`
    fn unary(&mut self) -> (r: Result<Expr, Failure>)
        requires
            old(self).wf(),
        ensures
            old(self).leads_to(final(self)),
            expr_outcome(r, final(self).current_idx) == parse_unary(
                old(self).toks(),
                old(self).pos(),
            ),
            r is Ok ==> old(self).pos() < final(self).pos(),
        decreases old(self).tokens.len() - old(self).current_idx, 3int,
    {
        if self.current_idx >= self.tokens.len() {
            return self.primary();
        }
        let at = self.current_idx;
        let ty = match &self.tokens[at].token_type {
            TokenType::Minus => UnOpType::Minus,
            TokenType::Not => UnOpType::Not,
            _ => {
                return self.primary();
            },
        };
        let op = UnOp { ty, line: self.tokens[at].line, column: self.tokens[at].column };
        self.current_idx += 1;
        match self.unary() {
            Err(f) => Err(f),
            Ok(operand) => Ok(Expr::Unary(op, Box::new(operand))),
        }
    }

    /// A literal, a call, a list access, a variable, a grouping or a list.
    fn primary(&mut self) -> (r: Result<Expr, Failure>)
        requires
            old(self).wf(),
        ensures
            old(self).leads_to(final(self)),
            expr_outcome(r, final(self).current_idx) == parse_primary(
                old(self).toks(),
                old(self).pos(),
            ),
            r is Ok ==> old(self).pos() < final(self).pos(),
        decreases old(self).tokens.len() - old(self).current_idx, 2int,
    {
        let at = self.current_idx;
        if at >= self.tokens.len() {
            return Err(Self::failure("SyntaxError: Unexpected or missing token", at));
        }
        match &self.tokens[at].token_type {
            TokenType::Identifier(text) => {
                let name = self.name_of(at, text);
                self.current_idx += 1;
                if self.check_advance(&TokenType::LeftParen) {
                    match self.items(&TokenType::RightParen) {
                        Err(f) => Err(f),
                        Ok(args) => Ok(Expr::Call(name, args)),
                    }
                } else if self.check_advance(&TokenType::LeftBracket) {
                    match self.expression() {
                        Err(f) => Err(f),
                        Ok(index) => match self.check_or_error(
                            &TokenType::RightBracket,
                            "SyntaxError: missing ] in list access",
                        ) {
                            Err(f) => Err(f),
                            Ok(_) => Ok(Expr::ListAccess(name, Box::new(index))),
                        },
                    }
                } else {
                    Ok(Expr::Variable(name))
                }
            },
            TokenType::String(text) => {
                self.current_idx += 1;
                Ok(Expr::Literal(Lit::String(text.clone())))
            },
            TokenType::Int(n) => {
                self.current_idx += 1;
                Ok(Expr::Literal(Lit::Int(*n)))
            },
            TokenType::Float(text) => {
                self.current_idx += 1;
                Ok(Expr::Literal(Lit::Float(text.clone())))
            },
            TokenType::True => {
                self.current_idx += 1;
                Ok(Expr::Literal(Lit::True))
            },
            TokenType::False => {
                self.current_idx += 1;
                Ok(Expr::Literal(Lit::False))
            },
            TokenType::Nothing => {
                self.current_idx += 1;
                Ok(Expr::Literal(Lit::Nothing))
            },
            TokenType::LeftParen => {
                self.current_idx += 1;
                match self.expression() {
                    Err(f) => Err(f),
                    Ok(inner) => match self.check_or_error(
                        &TokenType::RightParen,
                        "SyntaxError: Missing closing parentheses",
                    ) {
                        Err(f) => Err(f),
                        Ok(_) => Ok(Expr::Grouping(Box::new(inner))),
                    },
                }
            },
            TokenType::LeftBracket => {
                self.current_idx += 1;
                match self.items(&TokenType::RightBracket) {
                    Err(f) => Err(f),
                    Ok(items) => Ok(Expr::Literal(Lit::List(items))),
                }
            },
            TokenType::Indent => Err(
                Self::failure("SyntaxError: unexpected indent/dedent", at),
            ),
            TokenType::Dedent => Err(
                Self::failure("SyntaxError: unexpected indent/dedent", at),
            ),
            _ => Err(Self::failure("SyntaxError: Unexpected or missing token", at)),
        }
    }

    /// The expressions of a call or of a list, behind the opening token up to
    /// and with the closing token of kind `close`.
    fn items(&mut self, close: &TokenType) -> (r: Result<Vec<Expr>, Failure>)
        requires
            old(self).wf(),
            close@ is RightParen || close@ is RightBracket,
        ensures
            old(self).leads_to(final(self)),
            exprs_outcome(r, final(self).current_idx) == parse_items(
                old(self).toks(),
                old(self).pos(),
                close@,
                Seq::empty(),
            ),
            r is Ok ==> old(self).pos() < final(self).pos(),
        decreases old(self).tokens.len() - old(self).current_idx, 20int,
    {
        let mut items: Vec<Expr> = Vec::new();
        proof {
            lemma_exprs_view_push(Seq::empty(), Expr::Literal(Lit::Nothing));
        }
        if self.check_advance(close) {
            return Ok(items);
        }
        loop
            invariant
                old(self).leads_to(self),
                close@ is RightParen || close@ is RightBracket,
                items@.len() == 0 ==> !has_kind(self.toks(), self.pos(), close@),
                items@.len() == 0 ==> self.pos() == old(self).pos(),
                parse_items(self.toks(), self.pos(), close@, exprs_view(items@)) == parse_items(
                    old(self).toks(),
                    old(self).pos(),
                    close@,
                    Seq::empty(),
                ),
            decreases self.tokens.len() - self.current_idx,
        {
            let item = match self.expression() {
                Ok(e) => e,
                Err(f) => {
                    return Err(f);
                },
            };
            proof {
                lemma_exprs_view_push(items@, item);
            }
            items.push(item);
            if self.check_advance(&TokenType::Comma) {
            } else if self.check_advance(close) {
                return Ok(items);
            } else {
                let msg = match close {
                    TokenType::RightParen => "SyntaxError: missing ) in call",
                    _ => "SyntaxError: missing ] in list",
                };
                return Err(Self::failure(msg, self.current_idx));
            }
        }
    }

    /// The parameters of a function declaration, behind `(` up to and with
    /// `)`.
    fn parameters(&mut self) -> (r: Result<Vec<Name>, Failure>)
        requires
            old(self).wf(),
        ensures
            old(self).leads_to(final(self)),
            names_outcome(r, final(self).current_idx) == parse_params(
                old(self).toks(),
                old(self).pos(),
                Seq::empty(),
            ),
            r is Ok ==> old(self).pos() < final(self).pos(),
    {
        let mut names: Vec<Name> = Vec::new();
        assert(views(names@) =~= Seq::<NameView>::empty());
        if self.check_advance(&TokenType::RightParen) {
            return Ok(names);
        }
        loop
            invariant
                old(self).leads_to(self),
                names@.len() == 0 ==> !has_kind(self.toks(), self.pos(), TokenTypeView::RightParen),
                names@.len() == 0 ==> self.pos() == old(self).pos(),
                parse_params(self.toks(), self.pos(), views(names@)) == parse_params(
                    old(self).toks(),
                    old(self).pos(),
                    Seq::empty(),
                ),
            decreases self.tokens.len() - self.current_idx,
        {
            let at = self.current_idx;
            if at >= self.tokens.len() {
                return Err(Self::failure("SyntaxError: missing ) in def statement", at));
            }
            match &self.tokens[at].token_type {
                TokenType::Identifier(text) => {
                    let name = self.name_of(at, text);
                    proof {
                        lemma_views_push(names@, name);
                    }
                    names.push(name);
                    self.current_idx += 1;
                    if self.check_advance(&TokenType::Comma) {
                    } else if self.check_advance(&TokenType::RightParen) {
                        return Ok(names);
                    } else {
                        return Err(
                            Self::failure(
                                "SyntaxError: missing ) in def statement",
                                self.current_idx,
                            ),
                        );
                    }
                },
                _ => {
                    let msg = if names.len() == 0 {
                        "SyntaxError: missing ) in def statement"
                    } else {
                        "SyntaxError: missing parameter name in def statement"
                    };
                    return Err(Self::failure(msg, at));
                },
            }
        }
    }

    /// One statement.
    fn statement(&mut self) -> (r: Result<Stmt, Failure>)
        requires
            old(self).wf(),
        ensures
            old(self).leads_to(final(self)),
            stmt_outcome(r, final(self).current_idx) == parse_statement(
                old(self).toks(),
                old(self).pos(),
            ),
            r is Ok ==> old(self).pos() < final(self).pos(),
        decreases old(self).tokens.len() - old(self).current_idx, 30int,
    {
        let at = self.current_idx;
        if at >= self.tokens.len() {
            return Err(Self::failure("SyntaxError: Unexpected or missing token", at));
        }
        match &self.tokens[at].token_type {
            TokenType::Print => {
                self.current_idx += 1;
                self.print_statement()
            },
            TokenType::If => {
                self.current_idx += 1;
                self.if_statement()
            },
            TokenType::While => {
                self.current_idx += 1;
                self.while_statement()
            },
            TokenType::Def => {
                self.current_idx += 1;
                self.function_declaration()
            },
            TokenType::Return => {
                self.current_idx += 1;
                self.return_statement()
            },
            TokenType::Identifier(text) => {
                self.current_idx += 1;
                if self.check_advance(&TokenType::Equal) {
                    let name = self.name_of(at, text);
                    self.assign_statement(name)
                } else {
                    self.current_idx = at;
                    self.expression_statement()
                }
            },
            _ => self.expression_statement(),
        }
    }

    /// `exprStmt := expr END`, or the assignment to an element of a list.
    fn expression_statement(&mut self) -> (r: Result<Stmt, Failure>)
        requires
            old(self).wf(),
            old(self).pos() < old(self).tokens.len(),
            !(kind_at(old(self).toks(), old(self).pos()) is Print),
            !(kind_at(old(self).toks(), old(self).pos()) is If),
            !(kind_at(old(self).toks(), old(self).pos()) is While),
            !(kind_at(old(self).toks(), old(self).pos()) is Def),
            !(kind_at(old(self).toks(), old(self).pos()) is Return),
            !(kind_at(old(self).toks(), old(self).pos()) is Identifier && has_kind(
                old(self).toks(),
                old(self).pos() + 1,
                TokenTypeView::Equal,
            )),
        ensures
            old(self).leads_to(final(self)),
            stmt_outcome(r, final(self).current_idx) == parse_statement(
                old(self).toks(),
                old(self).pos(),
            ),
            r is Ok ==> old(self).pos() < final(self).pos(),
        decreases old(self).tokens.len() - old(self).current_idx, 25int,
    {
        let e = match self.expression() {
            Ok(e) => e,
            Err(f) => {
                return Err(f);
            },
        };
        match e {
            Expr::ListAccess(name, index) => {
                if self.check_advance(&TokenType::Equal) {
                    let value = match self.expression() {
                        Ok(e) => e,
                        Err(f) => {
                            return Err(f);
                        },
                    };
                    match self.statement_end() {
                        Err(f) => Err(f),
                        Ok(_) => Ok(Stmt::AssignList(name, *index, value)),
                    }
                } else {
                    match self.statement_end() {
                        Err(f) => Err(f),
                        Ok(_) => Ok(Stmt::Expr(Expr::ListAccess(name, index))),
                    }
                }
            },
            other => match self.statement_end() {
                Err(f) => Err(f),
                Ok(_) => Ok(Stmt::Expr(other)),
            },
        }
    }

    /// `printStmt := "print" "(" expr ")" END`, behind `print`.
    fn print_statement(&mut self) -> (r: Result<Stmt, Failure>)
        requires
            old(self).wf(),
            0 < old(self).pos(),
            kind_at(old(self).toks(), old(self).pos() - 1) is Print,
        ensures
            old(self).leads_to(final(self)),
            stmt_outcome(r, final(self).current_idx) == parse_statement(
                old(self).toks(),
                old(self).pos() - 1,
            ),
        decreases old(self).tokens.len() - old(self).current_idx, 25int,
    {
        match self.check_or_error(&TokenType::LeftParen, "SyntaxError: missing ( in call to print") {
            Err(f) => {
                return Err(f);
            },
            Ok(_) => {},
        }
        let e = match self.expression() {
            Ok(e) => e,
            Err(f) => {
                return Err(f);
            },
        };
        match self.check_or_error(&TokenType::RightParen, "SyntaxError: missing ) in call to print") {
            Err(f) => {
                return Err(f);
            },
            Ok(_) => {},
        }
        match self.statement_end() {
            Err(f) => Err(f),
            Ok(_) => Ok(Stmt::Print(e)),
        }
    }

    /// `assignStmt := IDENT "=" expr END`, behind `=`.
    fn assign_statement(&mut self, name: Name) -> (r: Result<Stmt, Failure>)
        requires
            old(self).wf(),
            2 <= old(self).pos(),
            kind_at(old(self).toks(), old(self).pos() - 2) is Identifier,
            has_kind(old(self).toks(), old(self).pos() - 1, TokenTypeView::Equal),
            name@ == name_at(
                old(self).toks(),
                old(self).pos() - 2,
                kind_at(old(self).toks(), old(self).pos() - 2)->Identifier_0,
            ),
        ensures
            old(self).leads_to(final(self)),
            stmt_outcome(r, final(self).current_idx) == parse_statement(
                old(self).toks(),
                old(self).pos() - 2,
            ),
        decreases old(self).tokens.len() - old(self).current_idx, 25int,
    {
        let e = match self.expression() {
            Ok(e) => e,
            Err(f) => {
                return Err(f);
            },
        };
        match self.statement_end() {
            Err(f) => Err(f),
            Ok(_) => Ok(Stmt::AssignVar(name, e)),
        }
    }

    /// `ifStmt := "if" expr ":" block ("else" ":" block)?`, behind `if`.
    fn if_statement(&mut self) -> (r: Result<Stmt, Failure>)
        requires
            old(self).wf(),
            0 < old(self).pos(),
            kind_at(old(self).toks(), old(self).pos() - 1) is If,
        ensures
            old(self).leads_to(final(self)),
            stmt_outcome(r, final(self).current_idx) == parse_statement(
                old(self).toks(),
                old(self).pos() - 1,
            ),
        decreases old(self).tokens.len() - old(self).current_idx, 50int,
    {
        let cond = match self.expression() {
            Ok(e) => e,
            Err(f) => {
                return Err(f);
            },
        };
        match self.check_or_error(
            &TokenType::Colon,
            "SyntaxError: missing colon or expression after if statement",
        ) {
            Err(f) => {
                return Err(f);
            },
            Ok(_) => {},
        }
        let then = match self.block() {
            Ok(b) => b,
            Err(f) => {
                return Err(f);
            },
        };
        if self.check_advance(&TokenType::Else) {
            match self.check_or_error(
                &TokenType::Colon,
                "SyntaxError: missing colon after else statement",
            ) {
                Err(f) => {
                    return Err(f);
                },
                Ok(_) => {},
            }
            match self.block() {
                Err(f) => Err(f),
                Ok(otherwise) => Ok(Stmt::If(cond, then, Some(otherwise))),
            }
        } else {
            Ok(Stmt::If(cond, then, None))
        }
    }

    /// `whileStmt := "while" expr ":" block`, behind `while`.
    fn while_statement(&mut self) -> (r: Result<Stmt, Failure>)
        requires
            old(self).wf(),
            0 < old(self).pos(),
            kind_at(old(self).toks(), old(self).pos() - 1) is While,
        ensures
            old(self).leads_to(final(self)),
            stmt_outcome(r, final(self).current_idx) == parse_statement(
                old(self).toks(),
                old(self).pos() - 1,
            ),
        decreases old(self).tokens.len() - old(self).current_idx, 50int,
    {
        let cond = match self.expression() {
            Ok(e) => e,
            Err(f) => {
                return Err(f);
            },
        };
        match self.check_or_error(
            &TokenType::Colon,
            "SyntaxError: missing colon or expression after while statement",
        ) {
            Err(f) => {
                return Err(f);
            },
            Ok(_) => {},
        }
        match self.block() {
            Err(f) => Err(f),
            Ok(body) => Ok(Stmt::While(cond, body)),
        }
    }

    /// `funDecl := "def" IDENT "(" (IDENT ("," IDENT)*)? ")" ":" block`,
    /// behind `def`.
    fn function_declaration(&mut self) -> (r: Result<Stmt, Failure>)
        requires
            old(self).wf(),
            0 < old(self).pos(),
            kind_at(old(self).toks(), old(self).pos() - 1) is Def,
        ensures
            old(self).leads_to(final(self)),
            stmt_outcome(r, final(self).current_idx) == parse_statement(
                old(self).toks(),
                old(self).pos() - 1,
            ),
        decreases old(self).tokens.len() - old(self).current_idx, 50int,
    {
        let at = self.current_idx;
        if at >= self.tokens.len() {
            return Err(Self::failure("SyntaxError: missing name in def statement", at));
        }
        let name = match &self.tokens[at].token_type {
            TokenType::Identifier(text) => self.name_of(at, text),
            _ => {
                return Err(Self::failure("SyntaxError: missing name in def statement", at));
            },
        };
        self.current_idx += 1;
        match self.check_or_error(&TokenType::LeftParen, "SyntaxError: missing ( in def statement") {
            Err(f) => {
                return Err(f);
            },
            Ok(_) => {},
        }
        let params = match self.parameters() {
            Ok(p) => p,
            Err(f) => {
                return Err(f);
            },
        };
        match self.check_or_error(
            &TokenType::Colon,
            "SyntaxError: missing colon after def statement",
        ) {
            Err(f) => {
                return Err(f);
            },
            Ok(_) => {},
        }
        match self.block() {
            Err(f) => Err(f),
            Ok(body) => Ok(Stmt::FunDecl(name, params, body)),
        }
    }

    /// `returnStmt := "return" expr? END`, behind `return`.
    fn return_statement(&mut self) -> (r: Result<Stmt, Failure>)
        requires
            old(self).wf(),
            0 < old(self).pos(),
            kind_at(old(self).toks(), old(self).pos() - 1) is Return,
        ensures
            old(self).leads_to(final(self)),
            stmt_outcome(r, final(self).current_idx) == parse_statement(
                old(self).toks(),
                old(self).pos() - 1,
            ),
        decreases old(self).tokens.len() - old(self).current_idx, 25int,
    {
        let word = self.current_idx - 1;
        let at = Location { line: self.tokens[word].line, column: self.tokens[word].column };
        let before = self.current_idx;
        match self.statement_end() {
            Ok(_) => {
                return Ok(Stmt::Return(at, None));
            },
            Err(_) => {
                self.current_idx = before;
            },
        }
        let e = match self.expression() {
            Ok(e) => e,
            Err(f) => {
                return Err(f);
            },
        };
        match self.statement_end() {
            Err(f) => Err(f),
            Ok(_) => Ok(Stmt::Return(at, Some(e))),
        }
    }

    /// `block := EOL Indent (EOL | statement)* Dedent`
    fn block(&mut self) -> (r: Result<Vec<Stmt>, Failure>)
        requires
            old(self).wf(),
        ensures
            old(self).leads_to(final(self)),
            stmts_outcome(r, final(self).current_idx) == parse_block(
                old(self).toks(),
                old(self).pos(),
            ),
            r is Ok ==> old(self).pos() < final(self).pos(),
        decreases old(self).tokens.len() - old(self).current_idx, 40int,
    {
        match self.check_or_error(&TokenType::EndOfLine, "SyntaxError: missing newline before block") {
            Err(f) => {
                return Err(f);
            },
            Ok(_) => {},
        }
        match self.check_or_error(&TokenType::Indent, "SyntaxError: missing indent before block") {
            Err(f) => {
                return Err(f);
            },
            Ok(_) => {},
        }
        let mut statements: Vec<Stmt> = Vec::new();
        proof {
            lemma_stmts_view_push(Seq::empty(), Stmt::Return(Location { line: 0, column: 0 }, None));
        }
        loop
            invariant
                old(self).leads_to(self),
                old(self).pos() < self.pos(),
                parse_block_items(self.toks(), self.pos(), stmts_view(statements@)) == parse_block(
                    old(self).toks(),
                    old(self).pos(),
                ),
            decreases self.tokens.len() - self.current_idx,
        {
            if self.check_advance(&TokenType::Dedent) {
                return Ok(statements);
            }
            if self.check_advance(&TokenType::EndOfLine) {
                continue ;
            }
            match self.statement() {
                Err(f) => {
                    return Err(f);
                },
                Ok(st) => {
                    proof {
                        lemma_stmts_view_push(statements@, st);
                    }
                    statements.push(st);
                },
            }
        }
    }

    /// Index of the first `EndOfLine` or `EndOfFile` at or after `from`.
    fn next_line_end(&self, from: usize) -> (end: usize)
        ensures
            end == resync(self.toks(), from as int),
    {
        if from >= self.tokens.len() {
            return from;
        }
        let mut i: usize = from;
        while i < self.tokens.len() && self.tokens[i].token_type.tag() != TokenType::EndOfLine.tag()
            && self.tokens[i].token_type.tag() != TokenType::EndOfFile.tag()
            invariant
                from <= i <= self.tokens.len(),
                resync(self.toks(), from as int) == resync(self.toks(), i as int),
            decreases self.tokens.len() - i,
        {
            i += 1;
        }
        i
    }

    /// The diagnostic of a failure.
    fn error_for(&self, f: Failure) -> (e: PyError)
        ensures
            e@ == error_of(self.toks(), f@),
    {
        if f.at < self.tokens.len() {
            PyError {
                msg: f.msg,
                line: self.tokens[f.at].line,
                column: self.tokens[f.at].column,
            }
        } else {
            PyError { msg: f.msg, line: 0, column: 0 }
        }
    }
}

/// The views of the statements on success, of the diagnostics on failure.
pub open spec fn parsed_view(r: Result<Vec<Stmt>, Vec<PyError>>) -> Result<
    Seq<StmtView>,
    Seq<PyErrorView>,
> {
    match r {
        Ok(statements) => Ok(stmts_view(statements@)),
        Err(errors) => Err(views(errors@)),
    }
}

/// Parses the tokens of a program into its statements.
///
/// Returns the statements if every one of them parses. Otherwise returns the
/// diagnostics, one for each statement that fails and at least one: after a
/// failure the parser goes on at the next end of line, and no statement is
/// handed on. Tokens behind the first `EndOfFile` at the start of a statement
/// are not read; tokens that do not end with `EndOfFile` are read as if they
/// did.
pub fn parse(tokens: Vec<Token>) -> (r: Result<Vec<Stmt>, Vec<PyError>>)
    ensures
        parsed_view(r) == parse_spec(views(tokens@)),
        r matches Err(errors) ==> errors@.len() > 0,
{
    let mut p = Parser { tokens: &tokens, current_idx: 0 };
    let mut statements: Vec<Stmt> = Vec::new();
    let mut errors: Vec<PyError> = Vec::new();
    proof {
        lemma_stmts_view_push(Seq::empty(), Stmt::Return(Location { line: 0, column: 0 }, None));
        assert(views(errors@) =~= Seq::<PyErrorView>::empty());
    }
    loop
        invariant_except_break
            parse_program(p.toks(), p.pos(), stmts_view(statements@), views(errors@))
                == parse_program(views(tokens@), 0, Seq::empty(), Seq::empty()),
        invariant
            p.wf(),
            p.tokens == &tokens,
        ensures
            (ParsedView { statements: stmts_view(statements@), errors: views(errors@) })
                == parse_program(views(tokens@), 0, Seq::empty(), Seq::empty()),
        decreases p.tokens.len() - p.current_idx,
    {
        if p.check_type(&TokenType::EndOfFile) {
            break ;
        }
        if p.check_advance(&TokenType::EndOfLine) {
            continue ;
        }
        let before = p.current_idx;
        match p.statement() {
            Ok(st) => {
                proof {
                    lemma_stmts_view_push(statements@, st);
                }
                statements.push(st);
            },
            Err(f) => {
                let resumed = p.next_line_end(f.at);
                let e = p.error_for(f);
                proof {
                    lemma_views_push(errors@, e);
                }
                errors.push(e);
                if before < resumed && resumed <= tokens.len() {
                    p.current_idx = resumed;
                } else {
                    break ;
                }
            },
        }
    }
    if errors.len() == 0 {
        Ok(statements)
    } else {
        Err(errors)
    }
}

} // verus!
