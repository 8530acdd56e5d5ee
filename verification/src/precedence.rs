//! The law of precedence: the parser gives back every arithmetic expression
//! from the tokens that spell it.
//!
//! An expression of `+ - * /`, parentheses and integers has one shape that
//! the grammar can give: `*` and `/` bind tighter than `+` and `-`, and
//! operators of one level group to the left. Where the tokens spell an
//! expression of that shape, the parser returns exactly that expression.
use crate::common::ast::{BiOp, BiOpType, ExprView, LitView};
use crate::common::token::{TokenTypeView, TokenView};
use crate::parser::{
    binary_op, kind_at, parse_chain, parse_expr, parse_level, parse_primary, parse_unary,
    FailureView,
};
use vstd::prelude::*;

verus! {

/// Whether `e` is made of integers, parentheses and `+ - * /` only.
pub open spec fn is_arithmetic(e: ExprView) -> bool
    decreases e,
{
    match e {
        ExprView::Literal(LitView::Int(_)) => true,
        ExprView::Grouping(inner) => is_arithmetic(*inner),
        ExprView::Binary(left, op, right) => (op.ty == BiOpType::Plus || op.ty == BiOpType::Minus
            || op.ty == BiOpType::Times || op.ty == BiOpType::Divided) && is_arithmetic(*left)
            && is_arithmetic(*right),
        _ => false,
    }
}

/// The level of precedence of an arithmetic expression: 4 for a sum or a
/// difference, 5 for a product or a quotient, 6 for an integer and for
/// parentheses.
pub open spec fn level_of(e: ExprView) -> int {
    match e {
        ExprView::Binary(_, op, _) => if op.ty == BiOpType::Plus || op.ty == BiOpType::Minus {
            4
        } else {
            5
        },
        _ => 6,
    }
}

/// Whether `e` has the shape that precedence and grouping to the left give:
/// the left operand of an operator binds at least as tight as the operator,
/// and the right operand binds tighter.
pub open spec fn well_shaped(e: ExprView) -> bool
    decreases e,
{
    match e {
        ExprView::Binary(left, op, right) => well_shaped(*left) && well_shaped(*right)
            && level_of(*left) >= level_of(e) && level_of(*right) > level_of(e),
        ExprView::Grouping(inner) => well_shaped(*inner),
        _ => true,
    }
}

/// The number of tokens that spell `e`.
pub open spec fn width(e: ExprView) -> int
    decreases e,
{
    match e {
        ExprView::Binary(left, _, right) => width(*left) + 1 + width(*right),
        ExprView::Grouping(inner) => width(*inner) + 2,
        _ => 1,
    }
}

/// Whether the tokens from `pos` spell the arithmetic expression `e`, every
/// operator of `e` with the position of its own token.
pub open spec fn spelled(tokens: Seq<TokenView>, pos: int, e: ExprView) -> bool
    decreases e,
{
    match e {
        ExprView::Literal(LitView::Int(n)) => kind_at(tokens, pos) == TokenTypeView::Int(n),
        ExprView::Grouping(inner) => kind_at(tokens, pos) is LeftParen && spelled(
            tokens,
            pos + 1,
            *inner,
        ) && kind_at(tokens, pos + 1 + width(*inner)) is RightParen,
        ExprView::Binary(left, op, right) => {
            let at = pos + width(*left);
            &&& spelled(tokens, pos, *left)
            &&& 0 <= at < tokens.len()
            &&& binary_op(tokens[at].kind, level_of(e)) == Some(op.ty)
            &&& tokens[at].line == op.line
            &&& tokens[at].column == op.column
            &&& spelled(tokens, at + 1, *right)
        },
        _ => false,
    }
}

/// Whether a token of this kind is no binary operator of the level `level`
/// or of a tighter one.
pub open spec fn ends_level(kind: TokenTypeView, level: int) -> bool {
    &&& level <= 0 ==> binary_op(kind, 0) is None
    &&& level <= 1 ==> binary_op(kind, 1) is None
    &&& level <= 2 ==> binary_op(kind, 2) is None
    &&& level <= 3 ==> binary_op(kind, 3) is None
    &&& level <= 4 ==> binary_op(kind, 4) is None
    &&& level <= 5 ==> binary_op(kind, 5) is None
}

proof fn lemma_spelled_bounds(tokens: Seq<TokenView>, pos: int, e: ExprView)
    requires
        0 <= pos,
        is_arithmetic(e),
        spelled(tokens, pos, e),
    ensures
        1 <= width(e),
        pos + width(e) <= tokens.len(),
    decreases e,
{
    match e {
        ExprView::Grouping(inner) => {
            lemma_spelled_bounds(tokens, pos + 1, *inner);
        },
        ExprView::Binary(left, op, right) => {
            lemma_spelled_bounds(tokens, pos, *left);
            lemma_spelled_bounds(tokens, pos + width(*left) + 1, *right);
        },
        _ => {},
    }
}

/// The parser at the level `level` returns `e` where the tokens spell it and
/// what follows ends the level.
proof fn lemma_level(tokens: Seq<TokenView>, pos: int, e: ExprView, level: int)
    requires
        0 <= pos,
        0 <= level <= level_of(e),
        is_arithmetic(e),
        well_shaped(e),
        spelled(tokens, pos, e),
        ends_level(kind_at(tokens, pos + width(e)), level),
    ensures
        parse_level(tokens, pos, level) == Ok::<(ExprView, int), FailureView>(
            (e, pos + width(e)),
        ),
    decreases e, 6 - level, 1int,
{
    lemma_spelled_bounds(tokens, pos, e);
    if level >= 6 {
        match e {
            ExprView::Grouping(inner) => {
                lemma_spelled_bounds(tokens, pos + 1, *inner);
                lemma_level(tokens, pos + 1, *inner, 0);
                assert(parse_primary(tokens, pos) == Ok::<
                    (ExprView, int),
                    FailureView,
                >((e, pos + width(e))));
            },
            _ => {
                assert(parse_primary(tokens, pos) == Ok::<
                    (ExprView, int),
                    FailureView,
                >((e, pos + width(e))));
            },
        }
        assert(parse_unary(tokens, pos) == parse_primary(tokens, pos));
    } else {
        lemma_chain(tokens, pos, e, level);
        let end = pos + width(e);
        assert(parse_chain(tokens, end, level, e) == Ok::<
            (ExprView, int),
            FailureView,
        >((e, end)));
    }
}

/// The parser at the level `level`, once it has read the first operand of
/// `e`, comes to `e` and to the token behind it.
proof fn lemma_chain(tokens: Seq<TokenView>, pos: int, e: ExprView, level: int)
    requires
        0 <= pos,
        0 <= level <= level_of(e),
        level < 6,
        is_arithmetic(e),
        well_shaped(e),
        spelled(tokens, pos, e),
        ends_level(kind_at(tokens, pos + width(e)), level + 1),
    ensures
        parse_level(tokens, pos, level + 1) is Ok,
        pos <= parse_level(tokens, pos, level + 1)->Ok_0.1 <= tokens.len(),
        parse_chain(
            tokens,
            parse_level(tokens, pos, level + 1)->Ok_0.1,
            level,
            parse_level(tokens, pos, level + 1)->Ok_0.0,
        ) == parse_chain(tokens, pos + width(e), level, e),
    decreases e, 6 - level, 0int,
{
    lemma_spelled_bounds(tokens, pos, e);
    if level_of(e) > level {
        lemma_level(tokens, pos, e, level + 1);
    } else {
        match e {
            ExprView::Binary(left, op, right) => {
                let at = pos + width(*left);
                lemma_spelled_bounds(tokens, pos, *left);
                lemma_spelled_bounds(tokens, at + 1, *right);
                lemma_chain(tokens, pos, *left, level);
                lemma_level(tokens, at + 1, *right, level + 1);
                let made = ExprView::Binary(
                    Box::new(*left),
                    BiOp { ty: op.ty, line: tokens[at].line, column: tokens[at].column },
                    Box::new(*right),
                );
                assert(made == e);
                assert(parse_chain(tokens, at, level, *left) == parse_chain(
                    tokens,
                    pos + width(e),
                    level,
                    e,
                ));
            },
            _ => {},
        }
    }
}

/// The law of precedence. Let `e` be an expression of integers, parentheses
/// and `+ - * /` in the shape that precedence and grouping to the left give.
/// Where the tokens from `pos` spell `e`, and the token behind them is no
/// binary operator, the parser returns `e` and the index behind it.
pub proof fn lemma_round_trip(tokens: Seq<TokenView>, pos: int, e: ExprView)
    requires
        0 <= pos,
        is_arithmetic(e),
        well_shaped(e),
        spelled(tokens, pos, e),
        ends_level(kind_at(tokens, pos + width(e)), 0),
    ensures
        parse_expr(tokens, pos) == Ok::<(ExprView, int), FailureView>(
            (e, pos + width(e)),
        ),
{
    lemma_level(tokens, pos, e, 0);
}

} // verus!
