//! Syntax trees: statements, expressions, literals and operators.
//!
//! Operators and names carry the position of their own token, so that a
//! runtime error points at the operator or the name and not at the start of
//! the expression.
use crate::common::text::views;
use vstd::prelude::*;

verus! {

/// A position in the source: 1-based line and column.
#[derive(Debug, Clone, Copy, PartialEq, Eq, Structural)]
pub struct Location {
    pub line: u64,
    pub column: u64,
}

/// An identifier with the position where it was written.
#[derive(Debug, PartialEq, Eq)]
pub struct Name {
    pub name: String,
    pub line: u64,
    pub column: u64,
}

/// The view of a name.
pub ghost struct NameView {
    pub name: Seq<char>,
    pub line: u64,
    pub column: u64,
}

impl View for Name {
    type V = NameView;

    open spec fn view(&self) -> NameView {
        NameView { name: self.name@, line: self.line, column: self.column }
    }
}

impl Clone for Name {
    fn clone(&self) -> (r: Name)
        ensures
            r@ == self@,
    {
        Name { name: self.name.clone(), line: self.line, column: self.column }
    }
}

/// The unary operators.
#[derive(Debug, Clone, Copy, PartialEq, Eq, Structural)]
pub enum UnOpType {
    Minus,
    Not,
}

/// A unary operator with the position of its token.
#[derive(Debug, Clone, Copy, PartialEq, Eq, Structural)]
pub struct UnOp {
    pub ty: UnOpType,
    pub line: u64,
    pub column: u64,
}

/// The binary operators.
#[derive(Debug, Clone, Copy, PartialEq, Eq, Structural)]
pub enum BiOpType {
    Plus,
    Minus,
    Times,
    Divided,
    DoubleEqual,
    NotEqual,
    Greater,
    GreaterEqual,
    Less,
    LessEqual,
    And,
    Or,
}

/// A binary operator with the position of its token.
#[derive(Debug, Clone, Copy, PartialEq, Eq, Structural)]
pub struct BiOp {
    pub ty: BiOpType,
    pub line: u64,
    pub column: u64,
}

impl BiOpType {
    /// The operator as it is written in the source.
    pub open spec fn symbol(self) -> Seq<char> {
        match self {
            BiOpType::Plus => "+"@,
            BiOpType::Minus => "-"@,
            BiOpType::Times => "*"@,
            BiOpType::Divided => "/"@,
            BiOpType::DoubleEqual => "=="@,
            BiOpType::NotEqual => "!="@,
            BiOpType::Greater => ">"@,
            BiOpType::GreaterEqual => ">="@,
            BiOpType::Less => "<"@,
            BiOpType::LessEqual => "<="@,
            BiOpType::And => "and"@,
            BiOpType::Or => "or"@,
        }
    }

    /// The operator as it is written in the source.
    pub fn as_str(self) -> (s: &'static str)
        ensures
            s@ == self.symbol(),
    {
        match self {
            BiOpType::Plus => "+",
            BiOpType::Minus => "-",
            BiOpType::Times => "*",
            BiOpType::Divided => "/",
            BiOpType::DoubleEqual => "==",
            BiOpType::NotEqual => "!=",
            BiOpType::Greater => ">",
            BiOpType::GreaterEqual => ">=",
            BiOpType::Less => "<",
            BiOpType::LessEqual => "<=",
            BiOpType::And => "and",
            BiOpType::Or => "or",
        }
    }
}

impl UnOpType {
    /// The operator as it is written in the source.
    pub open spec fn symbol(self) -> Seq<char> {
        match self {
            UnOpType::Minus => "-"@,
            UnOpType::Not => "not"@,
        }
    }

    /// The operator as it is written in the source.
    pub fn as_str(self) -> (s: &'static str)
        ensures
            s@ == self.symbol(),
    {
        match self {
            UnOpType::Minus => "-",
            UnOpType::Not => "not",
        }
    }
}

/// A literal. An integer literal is never negative; a float literal keeps
/// its decimal text; a list literal holds the expressions of its elements.
#[derive(Debug, PartialEq, Eq)]
pub enum Lit {
    Int(u64),
    Float(String),
    String(String),
    List(Vec<Expr>),
    True,
    False,
    Nothing,
}

/// An expression.
#[derive(Debug, PartialEq, Eq)]
pub enum Expr {
    Unary(UnOp, Box<Expr>),
    Binary(Box<Expr>, BiOp, Box<Expr>),
    Grouping(Box<Expr>),
    Literal(Lit),
    Variable(Name),
    Call(Name, Vec<Expr>),
    ListAccess(Name, Box<Expr>),
}

/// A statement. A block is a sequence of statements.
#[derive(Debug, PartialEq, Eq)]
pub enum Stmt {
    Expr(Expr),
    Print(Expr),
    AssignVar(Name, Expr),
    AssignList(Name, Expr, Expr),
    If(Expr, Vec<Stmt>, Option<Vec<Stmt>>),
    While(Expr, Vec<Stmt>),
    FunDecl(Name, Vec<Name>, Vec<Stmt>),
    Return(Location, Option<Expr>),
}

/// The view of a literal.
pub ghost enum LitView {
    Int(u64),
    Float(Seq<char>),
    String(Seq<char>),
    List(Seq<ExprView>),
    True,
    False,
    Nothing,
}

/// The view of an expression.
pub ghost enum ExprView {
    Unary(UnOp, Box<ExprView>),
    Binary(Box<ExprView>, BiOp, Box<ExprView>),
    Grouping(Box<ExprView>),
    Literal(LitView),
    Variable(NameView),
    Call(NameView, Seq<ExprView>),
    ListAccess(NameView, Box<ExprView>),
}

/// The view of a statement.
pub ghost enum StmtView {
    Expr(ExprView),
    Print(ExprView),
    AssignVar(NameView, ExprView),
    AssignList(NameView, ExprView, ExprView),
    If(ExprView, Seq<StmtView>, Option<Seq<StmtView>>),
    While(ExprView, Seq<StmtView>),
    FunDecl(NameView, Seq<NameView>, Seq<StmtView>),
    Return(Location, Option<ExprView>),
}

/// The view of an expression: strings and vectors become sequences.
pub open spec fn expr_view(e: Expr) -> ExprView
    decreases e,
{
    match e {
        Expr::Unary(op, inner) => ExprView::Unary(op, Box::new(expr_view(*inner))),
        Expr::Binary(left, op, right) => ExprView::Binary(
            Box::new(expr_view(*left)),
            op,
            Box::new(expr_view(*right)),
        ),
        Expr::Grouping(inner) => ExprView::Grouping(Box::new(expr_view(*inner))),
        Expr::Literal(lit) => ExprView::Literal(
            match lit {
                Lit::Int(n) => LitView::Int(n),
                Lit::Float(t) => LitView::Float(t@),
                Lit::String(s) => LitView::String(s@),
                Lit::List(items) => LitView::List(exprs_view(items@)),
                Lit::True => LitView::True,
                Lit::False => LitView::False,
                Lit::Nothing => LitView::Nothing,
            },
        ),
        Expr::Variable(name) => ExprView::Variable(name@),
        Expr::Call(name, args) => ExprView::Call(name@, exprs_view(args@)),
        Expr::ListAccess(name, index) => ExprView::ListAccess(name@, Box::new(expr_view(*index))),
    }
}

/// The views of a sequence of expressions, in order.
pub open spec fn exprs_view(s: Seq<Expr>) -> Seq<ExprView>
    decreases s,
{
    Seq::new(
        s.len(),
        |i: int|
            if 0 <= i < s.len() {
                expr_view(s[i])
            } else {
                ExprView::Literal(LitView::Nothing)
            },
    )
}

/// The view of a statement.
pub open spec fn stmt_view(st: Stmt) -> StmtView
    decreases st,
{
    match st {
        Stmt::Expr(e) => StmtView::Expr(e@),
        Stmt::Print(e) => StmtView::Print(e@),
        Stmt::AssignVar(name, e) => StmtView::AssignVar(name@, e@),
        Stmt::AssignList(name, index, e) => StmtView::AssignList(name@, index@, e@),
        Stmt::If(cond, then, otherwise) => StmtView::If(
            cond@,
            stmts_view(then@),
            match otherwise {
                Some(block) => Some(stmts_view(block@)),
                None => None,
            },
        ),
        Stmt::While(cond, body) => StmtView::While(cond@, stmts_view(body@)),
        Stmt::FunDecl(name, params, body) => StmtView::FunDecl(
            name@,
            views(params@),
            stmts_view(body@),
        ),
        Stmt::Return(at, value) => StmtView::Return(
            at,
            match value {
                Some(e) => Some(e@),
                None => None,
            },
        ),
    }
}

/// The views of a sequence of statements, in order.
pub open spec fn stmts_view(s: Seq<Stmt>) -> Seq<StmtView>
    decreases s,
{
    Seq::new(
        s.len(),
        |i: int|
            if 0 <= i < s.len() {
                stmt_view(s[i])
            } else {
                StmtView::Return(Location { line: 0, column: 0 }, None)
            },
    )
}

/// The views of a sequence of expressions with one more expression.
pub proof fn lemma_exprs_view_push(s: Seq<Expr>, e: Expr)
    ensures
        exprs_view(s.push(e)) == exprs_view(s).push(e@),
        exprs_view(Seq::empty()) == Seq::<ExprView>::empty(),
{
    assert(exprs_view(s.push(e)) =~= exprs_view(s).push(e@));
    assert(exprs_view(Seq::empty()) =~= Seq::<ExprView>::empty());
}

/// The views of a sequence of statements with one more statement.
pub proof fn lemma_stmts_view_push(s: Seq<Stmt>, st: Stmt)
    ensures
        stmts_view(s.push(st)) == stmts_view(s).push(st@),
        stmts_view(Seq::empty()) == Seq::<StmtView>::empty(),
{
    assert(stmts_view(s.push(st)) =~= stmts_view(s).push(st@));
    assert(stmts_view(Seq::empty()) =~= Seq::<StmtView>::empty());
}

impl View for Expr {
    type V = ExprView;

    open spec fn view(&self) -> ExprView {
        expr_view(*self)
    }
}

impl View for Stmt {
    type V = StmtView;

    open spec fn view(&self) -> StmtView {
        stmt_view(*self)
    }
}

} // verus!
