//! The interpreter: a machine that runs a program step by step.
//!
//! The machine holds the environment, what it is looking at (an expression to
//! evaluate, or a value to hand on), and a stack of what remains to be done
//! with the values to come. A step does one small thing and says what the
//! host has to do before the next: nothing, print a value, or compute
//! something with floats and answer. The host runs the loop; the machine
//! decides everything else.
//!
//! A program fails at its first runtime error and then stays failed.
use crate::common::ast::{BiOp, BiOpType, Expr, Lit, Location, Name, NameView, Stmt, UnOp};
use crate::common::py_error::{PyError, PyErrorView};
use crate::common::text::{
    decimal, joined, lemma_views_push, push_decimal, push_signed_decimal, signed_decimal, views,
};
use crate::environment::{
    empty_scope, lookup_fun, lookup_var, name_error, with_fun, with_var, without_scope,
    Environment, Function, FunctionView, ScopeView,
};
use crate::operators::{
    binary_result, eval_binary, eval_unary, unary_result, Applied, AppliedView,
};
use crate::value::{lemma_values_view_push, truthy, values_view, Value, ValueView};
use vstd::prelude::*;
use vstd::string::StringExecFns;

verus! {

/// What the machine asks of its host: a computation with floats, answered
/// with the bits of the resulting float.
#[derive(Debug, PartialEq, Eq)]
pub enum Request {
    /// The float that the decimal text denotes.
    Parse(String),
    /// The float nearest to the integer.
    Promote(i128),
    /// The result of the arithmetic operator on two floats, left and right.
    Arith(BiOpType, u64, u64),
}

/// The view of a request.
pub ghost enum RequestView {
    Parse(Seq<char>),
    Promote(int),
    Arith(BiOpType, u64, u64),
}

impl View for Request {
    type V = RequestView;

    open spec fn view(&self) -> RequestView {
        match self {
            Request::Parse(text) => RequestView::Parse(text@),
            Request::Promote(n) => RequestView::Promote(*n as int),
            Request::Arith(op, a, b) => RequestView::Arith(*op, *a, *b),
        }
    }
}

impl Clone for Request {
    fn clone(&self) -> (r: Request)
        ensures
            r@ == self@,
    {
        match self {
            Request::Parse(text) => Request::Parse(text.clone()),
            Request::Promote(n) => Request::Promote(*n),
            Request::Arith(op, a, b) => Request::Arith(*op, *a, *b),
        }
    }
}

/// What a step leaves to the host.
#[derive(Debug, PartialEq, Eq)]
pub enum Action {
    /// Nothing: the next step can follow.
    Continue,
    /// Print the value, then go on.
    Print(Value),
    /// Compute what is asked and give the answer to the machine, then go on.
    Ask(Request),
    /// The program has failed with this error; it does not go on.
    Failed(PyError),
    /// The program has come to its end.
    Finished,
}

/// The view of an action.
pub ghost enum ActionView {
    Continue,
    Print(ValueView),
    Ask(RequestView),
    Failed(PyErrorView),
    Finished,
}

impl View for Action {
    type V = ActionView;

    open spec fn view(&self) -> ActionView {
        match self {
            Action::Continue => ActionView::Continue,
            Action::Print(v) => ActionView::Print(v@),
            Action::Ask(r) => ActionView::Ask(r@),
            Action::Failed(e) => ActionView::Failed(e@),
            Action::Finished => ActionView::Finished,
        }
    }
}

/// What follows the last statement of a block.
pub ghost enum BlockKindView {
    /// Nothing: the statement that holds the block is done.
    Plain,
    /// The condition of the loop is evaluated again.
    Loop(Expr),
    /// The call returns `None`, and the scope of the call is closed.
    Body,
}

/// What remains to be done with a value that is to come.
pub ghost enum KontView {
    /// Run the statements of a block from the index `next`.
    Block { stmts: Seq<Stmt>, next: int, kind: BlockKindView },
    /// Apply the unary operator to the value.
    Unary(UnOp),
    /// The value is that of the left operand: evaluate the right one.
    Right(BiOp, Expr),
    /// The value is that of the right operand: apply the operator.
    Apply(BiOp, ValueView),
    /// The value is that of the left operand: apply the operator.
    ApplyLeft(BiOp, ValueView),
    /// The value is the next element of a list.
    Items { items: Seq<Expr>, done: Seq<ValueView> },
    /// The value is the next argument of a call.
    Args { site: NameView, fun: FunctionView, args: Seq<Expr>, done: Seq<ValueView> },
    /// The value is the index of an element of the list `name`.
    Index(NameView),
    /// Print the value.
    Print,
    /// Assign the value to the variable.
    Assign(NameView),
    /// The value is the index of an assignment to an element: evaluate the
    /// value to assign.
    AssignIndex(NameView, Expr),
    /// Assign the value to the element at the index.
    AssignValue(NameView, ValueView),
    /// The value decides between the two blocks of an `if`.
    Cond(Seq<Stmt>, Option<Seq<Stmt>>),
    /// The value decides whether the body of the loop runs again.
    While(Expr, Seq<Stmt>),
    /// Return the value from the function.
    Return(Location),
}

/// What the machine is looking at.
pub ghost enum FocusView {
    /// An expression to evaluate.
    Eval(Expr),
    /// A value for what is on top of the stack.
    Deliver(ValueView),
    /// A `return` at the given place, on its way out of the function.
    Unwind(Location, ValueView),
    /// A request that the host has not answered yet.
    Waiting(RequestView),
    Failed(PyErrorView),
    Finished,
}

/// The state of the machine: the scopes, the innermost last; the stack of
/// what remains to be done, the next on top; and the focus.
pub ghost struct MachineView {
    pub env: Seq<ScopeView>,
    pub konts: Seq<KontView>,
    pub focus: FocusView,
}

/// A state and what is left to the host on the way to it.
pub ghost struct Stepped {
    pub machine: MachineView,
    pub action: ActionView,
}

/// The state with the given parts, reached by a step that leaves nothing to
/// the host.
pub open spec fn moved(env: Seq<ScopeView>, konts: Seq<KontView>, focus: FocusView) -> Stepped {
    Stepped { machine: MachineView { env, konts, focus }, action: ActionView::Continue }
}

/// The state that hands the value `v` on, reached by a step that leaves
/// nothing to the host.
pub open spec fn delivered(env: Seq<ScopeView>, konts: Seq<KontView>, v: ValueView) -> Stepped {
    moved(env, konts, FocusView::Deliver(v))
}

/// The state of a program that has failed with the error `e`, and the step
/// that says so.
pub open spec fn failed(env: Seq<ScopeView>, konts: Seq<KontView>, e: PyErrorView) -> Stepped {
    Stepped {
        machine: MachineView { env, konts, focus: FocusView::Failed(e) },
        action: ActionView::Failed(e),
    }
}

/// The statements of a block that may be missing.
pub open spec fn stmts_option(block: Option<Vec<Stmt>>) -> Option<Seq<Stmt>> {
    match block {
        Some(b) => Some(b@),
        None => None,
    }
}

/// The variables of the scope of a call: the first `n` parameters as the
/// first `n` arguments. Of two parameters of one name the later one counts.
pub open spec fn bound(params: Seq<NameView>, args: Seq<ValueView>, n: int) -> Map<
    Seq<char>,
    ValueView,
>
    decreases n,
{
    if n <= 0 {
        Map::empty()
    } else {
        bound(params, args, n - 1).insert(params[n - 1].name, args[n - 1])
    }
}

/// The error of a call with the wrong number of arguments.
pub open spec fn arity_error(site: NameView, fun: FunctionView, given: nat) -> PyErrorView {
    PyErrorView {
        msg: "TypeError: "@ + fun.name.name + " takes "@ + decimal(fun.parameters.len())
            + " positional arguments but "@ + decimal(given) + " were given"@,
        line: site.line,
        column: site.column,
    }
}

/// The call of `fun` at `site` with the values `args`: with the wrong number
/// of arguments an error; else the body runs in a new scope, inside the
/// scopes of the caller, that holds the parameters.
pub open spec fn call_step(
    env: Seq<ScopeView>,
    konts: Seq<KontView>,
    site: NameView,
    fun: FunctionView,
    args: Seq<ValueView>,
) -> Stepped {
    if fun.parameters.len() != args.len() {
        failed(env, konts, arity_error(site, fun, args.len()))
    } else {
        delivered(
            env.push(
                ScopeView {
                    vars: bound(fun.parameters, args, args.len() as int),
                    funcs: Map::empty(),
                },
            ),
            konts.push(KontView::Block { stmts: fun.body, next: 0, kind: BlockKindView::Body }),
            ValueView::Nothing,
        )
    }
}

/// The first step of the evaluation of an expression.
pub open spec fn eval_step(env: Seq<ScopeView>, konts: Seq<KontView>, e: Expr) -> Stepped {
    match e {
        Expr::Literal(lit) => match lit {
            Lit::Int(n) => delivered(env, konts, ValueView::Int(n as int)),
            Lit::Float(text) => moved(env, konts, FocusView::Waiting(RequestView::Parse(text@))),
            Lit::String(s) => delivered(env, konts, ValueView::String(s@)),
            Lit::List(items) => if items@.len() == 0 {
                delivered(env, konts, ValueView::List(Seq::empty()))
            } else {
                moved(
                    env,
                    konts.push(KontView::Items { items: items@, done: Seq::empty() }),
                    FocusView::Eval(items@[0]),
                )
            },
            Lit::True => delivered(env, konts, ValueView::Bool(true)),
            Lit::False => delivered(env, konts, ValueView::Bool(false)),
            Lit::Nothing => delivered(env, konts, ValueView::Nothing),
        },
        Expr::Variable(name) => match lookup_var(env, name@.name) {
            Some(v) => delivered(env, konts, v),
            None => failed(env, konts, name_error(name@)),
        },
        Expr::Grouping(inner) => moved(env, konts, FocusView::Eval(*inner)),
        Expr::Unary(op, inner) => moved(
            env,
            konts.push(KontView::Unary(op)),
            FocusView::Eval(*inner),
        ),
        Expr::Binary(left, op, right) => moved(
            env,
            konts.push(KontView::Right(op, *right)),
            FocusView::Eval(*left),
        ),
        Expr::Call(name, args) => match lookup_fun(env, name@.name) {
            None => failed(env, konts, name_error(name@)),
            Some(fun) => if args@.len() == 0 {
                call_step(env, konts, name@, fun, Seq::empty())
            } else {
                moved(
                    env,
                    konts.push(
                        KontView::Args { site: name@, fun, args: args@, done: Seq::empty() },
                    ),
                    FocusView::Eval(args@[0]),
                )
            },
        },
        Expr::ListAccess(name, index) => moved(
            env,
            konts.push(KontView::Index(name@)),
            FocusView::Eval(*index),
        ),
    }
}

/// The first step of a statement.
pub open spec fn exec_step(env: Seq<ScopeView>, konts: Seq<KontView>, st: Stmt) -> Stepped {
    match st {
        Stmt::Expr(e) => moved(env, konts, FocusView::Eval(e)),
        Stmt::Print(e) => moved(env, konts.push(KontView::Print), FocusView::Eval(e)),
        Stmt::AssignVar(name, e) => moved(
            env,
            konts.push(KontView::Assign(name@)),
            FocusView::Eval(e),
        ),
        Stmt::AssignList(name, index, e) => moved(
            env,
            konts.push(KontView::AssignIndex(name@, e)),
            FocusView::Eval(index),
        ),
        Stmt::If(cond, then, otherwise) => moved(
            env,
            konts.push(KontView::Cond(then@, stmts_option(otherwise))),
            FocusView::Eval(cond),
        ),
        Stmt::While(cond, body) => moved(
            env,
            konts.push(KontView::While(cond, body@)),
            FocusView::Eval(cond),
        ),
        Stmt::FunDecl(name, params, body) => delivered(
            with_fun(
                env,
                name@.name,
                FunctionView { name: name@, parameters: views(params@), body: body@ },
            ),
            konts,
            ValueView::Nothing,
        ),
        Stmt::Return(at, value) => match value {
            Some(e) => moved(env, konts.push(KontView::Return(at)), FocusView::Eval(e)),
            None => moved(env, konts, FocusView::Unwind(at, ValueView::Nothing)),
        },
    }
}

/// The error of an index that is no Int.
pub open spec fn index_type_error(name: NameView) -> PyErrorView {
    PyErrorView {
        msg: "TypeError: List index must be an integer value"@,
        line: name.line,
        column: name.column,
    }
}

/// The error of an index into a value that is no list.
pub open spec fn not_indexable(name: NameView) -> PyErrorView {
    PyErrorView {
        msg: "TypeError: "@ + name.name + " is not indexable, because it is not a list"@,
        line: name.line,
        column: name.column,
    }
}

/// The error of a negative index.
pub open spec fn index_below_zero(name: NameView, index: int) -> PyErrorView {
    PyErrorView {
        msg: "IndexError: Index below zero: "@ + signed_decimal(index),
        line: name.line,
        column: name.column,
    }
}

/// The error of an index at or beyond the length of the list.
pub open spec fn index_out_of_bounds(name: NameView, index: int) -> PyErrorView {
    PyErrorView {
        msg: "IndexError: Index out of bounds: "@ + signed_decimal(index),
        line: name.line,
        column: name.column,
    }
}

/// The list `name` and the place in it that `index` means: the index must be
/// an Int, the variable must be defined and a list, and the index must be a
/// place of the list, from 0.
pub open spec fn element_of(env: Seq<ScopeView>, name: NameView, index: ValueView) -> Result<
    (Seq<ValueView>, int),
    PyErrorView,
> {
    match index {
        ValueView::Int(i) => match lookup_var(env, name.name) {
            None => Err(name_error(name)),
            Some(ValueView::List(items)) => if i < 0 {
                Err(index_below_zero(name, i))
            } else if i >= items.len() {
                Err(index_out_of_bounds(name, i))
            } else {
                Ok((items, i))
            },
            Some(_) => Err(not_indexable(name)),
        },
        _ => Err(index_type_error(name)),
    }
}

/// What applying a binary operator leads to: the result is handed on, an
/// error stops the program, and work with floats is asked of the host, whose
/// answer takes the place of an operand or is the result.
pub open spec fn applied_step(
    env: Seq<ScopeView>,
    konts: Seq<KontView>,
    op: BiOp,
    left: ValueView,
    right: ValueView,
) -> Stepped {
    match binary_result(op, left, right) {
        AppliedView::Done(v) => delivered(env, konts, v),
        AppliedView::Failed(e) => failed(env, konts, e),
        AppliedView::PromoteLeft(n) => moved(
            env,
            konts.push(KontView::ApplyLeft(op, right)),
            FocusView::Waiting(RequestView::Promote(n)),
        ),
        AppliedView::PromoteRight(n) => moved(
            env,
            konts.push(KontView::Apply(op, left)),
            FocusView::Waiting(RequestView::Promote(n)),
        ),
        AppliedView::Arith(ty, a, b) => moved(
            env,
            konts,
            FocusView::Waiting(RequestView::Arith(ty, a, b)),
        ),
    }
}

/// The step that hands the value `v` to `k`, which was on top of the stack
/// `konts`.
pub open spec fn deliver_step(env: Seq<ScopeView>, konts: Seq<KontView>, k: KontView, v: ValueView)
    -> Stepped {
    match k {
        KontView::Block { stmts, next, kind } => if 0 <= next < stmts.len() {
            exec_step(
                env,
                konts.push(KontView::Block { stmts, next: next + 1, kind }),
                stmts[next],
            )
        } else {
            match kind {
                BlockKindView::Plain => delivered(env, konts, ValueView::Nothing),
                BlockKindView::Loop(cond) => moved(
                    env,
                    konts.push(KontView::While(cond, stmts)),
                    FocusView::Eval(cond),
                ),
                BlockKindView::Body => delivered(without_scope(env), konts, ValueView::Nothing),
            }
        },
        KontView::Unary(op) => match unary_result(op, v) {
            Ok(r) => delivered(env, konts, r),
            Err(e) => failed(env, konts, e),
        },
        KontView::Right(op, right) => match op.ty {
            BiOpType::And => if truthy(v) {
                moved(env, konts, FocusView::Eval(right))
            } else {
                delivered(env, konts, v)
            },
            BiOpType::Or => if truthy(v) {
                delivered(env, konts, v)
            } else {
                moved(env, konts, FocusView::Eval(right))
            },
            _ => moved(env, konts.push(KontView::Apply(op, v)), FocusView::Eval(right)),
        },
        KontView::Apply(op, left) => applied_step(env, konts, op, left, v),
        KontView::ApplyLeft(op, right) => applied_step(env, konts, op, v, right),
        KontView::Items { items, done } => if done.len() + 1 < items.len() {
            moved(
                env,
                konts.push(KontView::Items { items, done: done.push(v) }),
                FocusView::Eval(items[done.len() as int + 1]),
            )
        } else {
            delivered(env, konts, ValueView::List(done.push(v)))
        },
        KontView::Args { site, fun, args, done } => if done.len() + 1 < args.len() {
            moved(
                env,
                konts.push(KontView::Args { site, fun, args, done: done.push(v) }),
                FocusView::Eval(args[done.len() as int + 1]),
            )
        } else {
            call_step(env, konts, site, fun, done.push(v))
        },
        KontView::Index(name) => match element_of(env, name, v) {
            Ok((items, i)) => delivered(env, konts, items[i]),
            Err(e) => failed(env, konts, e),
        },
        KontView::Print => Stepped {
            machine: MachineView { env, konts, focus: FocusView::Deliver(ValueView::Nothing) },
            action: ActionView::Print(v),
        },
        KontView::Assign(name) => delivered(
            with_var(env, name.name, v),
            konts,
            ValueView::Nothing,
        ),
        KontView::AssignIndex(name, e) => moved(
            env,
            konts.push(KontView::AssignValue(name, v)),
            FocusView::Eval(e),
        ),
        KontView::AssignValue(name, index) => match element_of(env, name, index) {
            Ok((items, i)) => delivered(
                with_var(env, name.name, ValueView::List(items.update(i, v))),
                konts,
                ValueView::Nothing,
            ),
            Err(e) => failed(env, konts, e),
        },
        KontView::Cond(then, otherwise) => if truthy(v) {
            delivered(
                env,
                konts.push(KontView::Block { stmts: then, next: 0, kind: BlockKindView::Plain }),
                ValueView::Nothing,
            )
        } else {
            match otherwise {
                Some(block) => delivered(
                    env,
                    konts.push(
                        KontView::Block { stmts: block, next: 0, kind: BlockKindView::Plain },
                    ),
                    ValueView::Nothing,
                ),
                None => delivered(env, konts, ValueView::Nothing),
            }
        },
        KontView::While(cond, body) => if truthy(v) {
            delivered(
                env,
                konts.push(
                    KontView::Block { stmts: body, next: 0, kind: BlockKindView::Loop(cond) },
                ),
                ValueView::Nothing,
            )
        } else {
            delivered(env, konts, ValueView::Nothing)
        },
        KontView::Return(at) => moved(env, konts, FocusView::Unwind(at, v)),
    }
}

/// The error of a `return` that is in no function.
pub open spec fn return_outside_function(at: Location) -> PyErrorView {
    PyErrorView {
        msg: "SyntaxError: return statement outside of function"@,
        line: at.line,
        column: at.column,
    }
}

/// One step of the machine.
///
/// A machine that has finished or failed stays as it is, and one that waits
/// for an answer asks again. A value that meets an empty stack ends the
/// program. A `return` drops what is on the stack down to the body of the
/// function that it returns from, and is an error where there is none.
pub open spec fn step_spec(m: MachineView) -> Stepped {
    match m.focus {
        FocusView::Finished => Stepped { machine: m, action: ActionView::Finished },
        FocusView::Failed(e) => Stepped { machine: m, action: ActionView::Failed(e) },
        FocusView::Waiting(r) => Stepped { machine: m, action: ActionView::Ask(r) },
        FocusView::Eval(e) => eval_step(m.env, m.konts, e),
        FocusView::Deliver(v) => if m.konts.len() == 0 {
            Stepped {
                machine: MachineView { focus: FocusView::Finished, ..m },
                action: ActionView::Finished,
            }
        } else {
            deliver_step(m.env, m.konts.drop_last(), m.konts.last(), v)
        },
        FocusView::Unwind(at, v) => if m.konts.len() == 0 {
            failed(m.env, m.konts, return_outside_function(at))
        } else {
            match m.konts.last() {
                KontView::Block { stmts, next, kind: BlockKindView::Body } => delivered(
                    without_scope(m.env),
                    m.konts.drop_last(),
                    v,
                ),
                _ => moved(m.env, m.konts.drop_last(), FocusView::Unwind(at, v)),
            }
        },
    }
}

/// The machine at the start of the program `stmts`.
pub open spec fn start(stmts: Seq<Stmt>) -> MachineView {
    MachineView {
        env: seq![empty_scope()],
        konts: seq![KontView::Block { stmts, next: 0, kind: BlockKindView::Plain }],
        focus: FocusView::Deliver(ValueView::Nothing),
    }
}

/// The machine after the host has answered with the float `bits`: where it
/// waited, the float is the value to hand on; else it is as before.
pub open spec fn answered(m: MachineView, bits: u64) -> MachineView {
    match m.focus {
        FocusView::Waiting(_) => MachineView {
            focus: FocusView::Deliver(ValueView::Float(bits)),
            ..m
        },
        _ => m,
    }
}

/// The state after at most `budget` steps, and what the last of them leaves
/// to the host: the steps end with the first that leaves something.
pub open spec fn run_spec(m: MachineView, budget: nat) -> Stepped
    decreases budget,
{
    if budget == 0 {
        Stepped { machine: m, action: ActionView::Continue }
    } else {
        let next = step_spec(m);
        if next.action is Continue {
            run_spec(next.machine, (budget - 1) as nat)
        } else {
            next
        }
    }
}


/// A program that has failed stays failed: every later step gives the same
/// error and changes nothing. The same holds of one that has finished.
pub proof fn lemma_stops_for_good(m: MachineView, budget: nat)
    requires
        m.focus is Failed || m.focus is Finished,
        budget > 0,
    ensures
        run_spec(m, budget).machine == m,
        m.focus matches FocusView::Failed(e) ==> run_spec(m, budget).action == ActionView::Failed(
            e,
        ),
        m.focus is Finished ==> run_spec(m, budget).action == ActionView::Finished,
{
}

/// What follows the last statement of a block.
#[derive(Clone, Copy)]
enum BlockKind<'a> {
    Plain,
    Loop(&'a Expr),
    Body,
}

impl<'a> View for BlockKind<'a> {
    type V = BlockKindView;

    closed spec fn view(&self) -> BlockKindView {
        match self {
            BlockKind::Plain => BlockKindView::Plain,
            BlockKind::Loop(cond) => BlockKindView::Loop(**cond),
            BlockKind::Body => BlockKindView::Body,
        }
    }
}

enum Kont<'a> {
    Block { stmts: &'a Vec<Stmt>, next: usize, kind: BlockKind<'a> },
    Unary(UnOp),
    Right(BiOp, &'a Expr),
    Apply(BiOp, Value),
    ApplyLeft(BiOp, Value),
    Items { items: &'a Vec<Expr>, done: Vec<Value> },
    Args { site: &'a Name, fun: Function<'a>, args: &'a Vec<Expr>, done: Vec<Value> },
    Index(&'a Name),
    Print,
    Assign(&'a Name),
    AssignIndex(&'a Name, &'a Expr),
    AssignValue(&'a Name, Value),
    Cond(&'a Vec<Stmt>, &'a Option<Vec<Stmt>>),
    While(&'a Expr, &'a Vec<Stmt>),
    Return(Location),
}

impl<'a> View for Kont<'a> {
    type V = KontView;

    closed spec fn view(&self) -> KontView {
        match self {
            Kont::Block { stmts, next, kind } => KontView::Block {
                stmts: stmts@,
                next: *next as int,
                kind: kind@,
            },
            Kont::Unary(op) => KontView::Unary(*op),
            Kont::Right(op, right) => KontView::Right(*op, **right),
            Kont::Apply(op, left) => KontView::Apply(*op, left@),
            Kont::ApplyLeft(op, right) => KontView::ApplyLeft(*op, right@),
            Kont::Items { items, done } => KontView::Items {
                items: items@,
                done: values_view(done@),
            },
            Kont::Args { site, fun, args, done } => KontView::Args {
                site: site@,
                fun: fun@,
                args: args@,
                done: values_view(done@),
            },
            Kont::Index(name) => KontView::Index(name@),
            Kont::Print => KontView::Print,
            Kont::Assign(name) => KontView::Assign(name@),
            Kont::AssignIndex(name, e) => KontView::AssignIndex(name@, **e),
            Kont::AssignValue(name, index) => KontView::AssignValue(name@, index@),
            Kont::Cond(then, otherwise) => KontView::Cond(then@, stmts_option(**otherwise)),
            Kont::While(cond, body) => KontView::While(**cond, body@),
            Kont::Return(at) => KontView::Return(*at),
        }
    }
}

enum Focus<'a> {
    Eval(&'a Expr),
    Deliver(Value),
    Unwind(Location, Value),
    Waiting(Request),
    Failed(PyError),
    Finished,
}

impl<'a> View for Focus<'a> {
    type V = FocusView;

    closed spec fn view(&self) -> FocusView {
        match self {
            Focus::Eval(e) => FocusView::Eval(**e),
            Focus::Deliver(v) => FocusView::Deliver(v@),
            Focus::Unwind(at, v) => FocusView::Unwind(*at, v@),
            Focus::Waiting(r) => FocusView::Waiting(r@),
            Focus::Failed(e) => FocusView::Failed(e@),
            Focus::Finished => FocusView::Finished,
        }
    }
}

/// The machine that runs one program. It borrows the statements.
pub struct Interpreter<'a> {
    env: Environment<'a>,
    konts: Vec<Kont<'a>>,
    focus: Focus<'a>,
}

impl<'a> View for Interpreter<'a> {
    type V = MachineView;

    closed spec fn view(&self) -> MachineView {
        MachineView { env: self.env@, konts: views(self.konts@), focus: self.focus@ }
    }
}

fn error_with_name(before: &str, name: &Name, after: &str) -> (e: PyError)
    ensures
        e@ == (PyErrorView {
            msg: before@ + name@.name + after@,
            line: name.line,
            column: name.column,
        }),
{
    let mut msg = joined(before, name.name.as_str());
    msg.append(after);
    PyError { msg, line: name.line, column: name.column }
}

fn error_with_index(before: &str, name: &Name, index: i128) -> (e: PyError)
    ensures
        e@ == (PyErrorView {
            msg: before@ + signed_decimal(index as int),
            line: name.line,
            column: name.column,
        }),
{
    let mut msg = String::from_str(before);
    push_signed_decimal(&mut msg, index);
    PyError { msg, line: name.line, column: name.column }
}

fn make_arity_error(site: &Name, fun: Function, given: usize) -> (e: PyError)
    ensures
        e@ == arity_error(site@, fun@, given as nat),
{
    let mut msg = joined("TypeError: ", fun.name.name.as_str());
    msg.append(" takes ");
    push_decimal(&mut msg, fun.arity() as u128);
    msg.append(" positional arguments but ");
    push_decimal(&mut msg, given as u128);
    msg.append(" were given");
    PyError { msg, line: site.line, column: site.column }
}

/// Starts the interpretation of the program `stmts`: returns the machine
/// before its first step. The host then lets it `run`, and does what each
/// run leaves to it, until the program has finished or failed.
pub fn interpret<'a>(stmts: &'a Vec<Stmt>) -> (m: Interpreter<'a>)
    ensures
        m@ == start(stmts@),
{
    let mut konts: Vec<Kont<'a>> = Vec::new();
    konts.push(Kont::Block { stmts, next: 0, kind: BlockKind::Plain });
    let m = Interpreter { env: Environment::new(), konts, focus: Focus::Deliver(Value::Nothing) };
    assert(m@.konts =~= start(stmts@).konts);
    m
}

impl<'a> Interpreter<'a> {
    /// Gives the machine the answer of the host to what it has asked: the
    /// bits of a float. A machine that has asked nothing stays as it is.
    pub fn answer(&mut self, bits: u64)
        ensures
            final(self)@ == answered(old(self)@, bits),
    {
        let mut focus = Focus::Finished;
        std::mem::swap(&mut self.focus, &mut focus);
        match focus {
            Focus::Waiting(_) => {
                self.focus = Focus::Deliver(Value::Float(bits));
            },
            other => {
                self.focus = other;
            },
        }
    }

    fn go(&mut self, focus: Focus<'a>) -> (a: Action)
        ensures
            (Stepped { machine: final(self)@, action: a@ }) == moved(
                old(self)@.env,
                old(self)@.konts,
                focus@,
            ),
    {
        self.focus = focus;
        Action::Continue
    }

    fn hand(&mut self, v: Value) -> (a: Action)
        ensures
            (Stepped { machine: final(self)@, action: a@ }) == delivered(
                old(self)@.env,
                old(self)@.konts,
                v@,
            ),
    {
        self.focus = Focus::Deliver(v);
        Action::Continue
    }

    fn fail(&mut self, e: PyError) -> (a: Action)
        ensures
            (Stepped { machine: final(self)@, action: a@ }) == failed(
                old(self)@.env,
                old(self)@.konts,
                e@,
            ),
    {
        self.focus = Focus::Failed(e.clone());
        Action::Failed(e)
    }

    fn push(&mut self, k: Kont<'a>)
        ensures
            final(self)@ == (MachineView {
                konts: old(self)@.konts.push(k@),
                ..old(self)@
            }),
    {
        proof {
            lemma_views_push(self.konts@, k);
        }
        self.konts.push(k);
    }

    fn pop(&mut self) -> (k: Option<Kont<'a>>)
        ensures
            old(self)@.konts.len() == 0 ==> k is None && final(self)@ == old(self)@,
            old(self)@.konts.len() > 0 ==> k is Some && k->0@ == old(self)@.konts.last()
                && final(self)@ == (MachineView {
                konts: old(self)@.konts.drop_last(),
                ..old(self)@
            }),
    {
        let k = self.konts.pop();
        proof {
            if old(self).konts@.len() > 0 {
                assert(views(self.konts@) =~= views(old(self).konts@).drop_last());
            }
        }
        k
    }

    /// The call of `fun` at `site` with the values `args`.
    fn call(&mut self, site: &'a Name, fun: Function<'a>, args: Vec<Value>) -> (a: Action)
        ensures
            (Stepped { machine: final(self)@, action: a@ }) == call_step(
                old(self)@.env,
                old(self)@.konts,
                site@,
                fun@,
                values_view(args@),
            ),
    {
        if fun.arity() != args.len() {
            return self.fail(make_arity_error(site, fun, args.len()));
        }
        let ghost outer = self.env@;
        let ghost params = fun@.parameters;
        let ghost given = values_view(args@);
        self.env.enter();
        let mut i: usize = 0;
        assert(self.env@ =~= outer.push(
            ScopeView { vars: bound(params, given, 0), funcs: Map::empty() },
        ));
        while i < args.len()
            invariant
                i <= args.len(),
                args.len() == fun.parameters@.len(),
                params == fun@.parameters,
                given == values_view(args@),
                self.konts == old(self).konts,
                self.env@ == outer.push(
                    ScopeView { vars: bound(params, given, i as int), funcs: Map::empty() },
                ),
            decreases args.len() - i,
        {
            self.env.assign_var(fun.parameters[i].name.clone(), args[i].clone());
            proof {
                assert(params[i as int] == fun.parameters@[i as int]@);
                assert(given[i as int] == args@[i as int]@);
                assert(self.env@ =~= outer.push(
                    ScopeView { vars: bound(params, given, i + 1), funcs: Map::empty() },
                ));
            }
            i += 1;
        }
        self.push(Kont::Block { stmts: fun.body, next: 0, kind: BlockKind::Body });
        self.hand(Value::Nothing)
    }

    /// The first step of the evaluation of `e`.
    fn eval_expr(&mut self, e: &'a Expr) -> (a: Action)
        ensures
            (Stepped { machine: final(self)@, action: a@ }) == eval_step(
                old(self)@.env,
                old(self)@.konts,
                *e,
            ),
    {
        match e {
            Expr::Literal(lit) => self.eval_literal(lit),
            Expr::Variable(name) => match self.env.get_var(name) {
                Ok(v) => self.hand(v),
                Err(e) => self.fail(e),
            },
            Expr::Grouping(inner) => self.go(Focus::Eval(inner)),
            Expr::Unary(op, inner) => {
                self.push(Kont::Unary(*op));
                self.go(Focus::Eval(inner))
            },
            Expr::Binary(left, op, right) => {
                self.push(Kont::Right(*op, right));
                self.go(Focus::Eval(left))
            },
            Expr::Call(name, args) => self.eval_call(name, args),
            Expr::ListAccess(name, index) => {
                self.push(Kont::Index(name));
                self.go(Focus::Eval(index))
            },
        }
    }

    /// The first step of the evaluation of a literal.
    fn eval_literal(&mut self, lit: &'a Lit) -> (a: Action)
        ensures
            (Stepped { machine: final(self)@, action: a@ }) == eval_step(
                old(self)@.env,
                old(self)@.konts,
                Expr::Literal(*lit),
            ),
    {
        match lit {
            Lit::Int(n) => self.hand(Value::Int(*n as i128)),
            Lit::Float(text) => self.go(Focus::Waiting(Request::Parse(text.clone()))),
            Lit::String(s) => self.hand(Value::String(s.clone())),
            Lit::List(items) => {
                if items.len() == 0 {
                    let empty: Vec<Value> = Vec::new();
                    proof {
                        lemma_values_view_push(Seq::empty(), Value::Nothing);
                    }
                    self.hand(Value::List(empty))
                } else {
                    let done: Vec<Value> = Vec::new();
                    proof {
                        lemma_values_view_push(Seq::empty(), Value::Nothing);
                    }
                    self.push(Kont::Items { items, done });
                    self.go(Focus::Eval(&items[0]))
                }
            },
            Lit::True => self.hand(Value::Bool(true)),
            Lit::False => self.hand(Value::Bool(false)),
            Lit::Nothing => self.hand(Value::Nothing),
        }
    }

    /// The first step of a call: the function is looked up before any
    /// argument is evaluated.
    fn eval_call(&mut self, name: &'a Name, args: &'a Vec<Expr>) -> (a: Action)
        ensures
            (Stepped { machine: final(self)@, action: a@ }) == eval_step(
                old(self)@.env,
                old(self)@.konts,
                Expr::Call(*name, *args),
            ),
    {
        match self.env.get_fun(name) {
            Err(e) => self.fail(e),
            Ok(fun) => {
                let done: Vec<Value> = Vec::new();
                proof {
                    lemma_values_view_push(Seq::empty(), Value::Nothing);
                }
                if args.len() == 0 {
                    self.call(name, fun, done)
                } else {
                    self.push(Kont::Args { site: name, fun, args, done });
                    self.go(Focus::Eval(&args[0]))
                }
            },
        }
    }

    /// The first step of the statement `st`.
    fn interpret_stmt(&mut self, st: &'a Stmt) -> (a: Action)
        ensures
            (Stepped { machine: final(self)@, action: a@ }) == exec_step(
                old(self)@.env,
                old(self)@.konts,
                *st,
            ),
    {
        match st {
            Stmt::Expr(e) => self.go(Focus::Eval(e)),
            Stmt::Print(e) => {
                self.push(Kont::Print);
                self.go(Focus::Eval(e))
            },
            Stmt::AssignVar(name, e) => {
                self.push(Kont::Assign(name));
                self.go(Focus::Eval(e))
            },
            Stmt::AssignList(name, index, e) => {
                self.push(Kont::AssignIndex(name, e));
                self.go(Focus::Eval(index))
            },
            Stmt::If(cond, then, otherwise) => {
                self.push(Kont::Cond(then, otherwise));
                self.go(Focus::Eval(cond))
            },
            Stmt::While(cond, body) => {
                self.push(Kont::While(cond, body));
                self.go(Focus::Eval(cond))
            },
            Stmt::FunDecl(name, params, body) => {
                self.env.assign_fun(name, params, body);
                self.hand(Value::Nothing)
            },
            Stmt::Return(at, value) => match value {
                Some(e) => {
                    self.push(Kont::Return(*at));
                    self.go(Focus::Eval(e))
                },
                None => self.go(Focus::Unwind(*at, Value::Nothing)),
            },
        }
    }

    /// The list `name` and the place in it that `index` means.
    fn eval_access(&self, name: &Name, index: &Value) -> (r: Result<(Vec<Value>, usize), PyError>)
        ensures
            match element_of(self@.env, name@, index@) {
                Ok((items, i)) => r is Ok && values_view(r->Ok_0.0@) == items && r->Ok_0.1 == i
                    && r->Ok_0.1 < r->Ok_0.0@.len(),
                Err(e) => r is Err && r->Err_0@ == e,
            },
    {
        let i = match index {
            Value::Int(i) => *i,
            _ => {
                return Err(
                    PyError::at(
                        "TypeError: List index must be an integer value",
                        name.line,
                        name.column,
                    ),
                );
            },
        };
        let list = match self.env.get_var(name) {
            Err(e) => {
                return Err(e);
            },
            Ok(Value::List(list)) => list,
            Ok(_) => {
                return Err(
                    error_with_name(
                        "TypeError: ",
                        name,
                        " is not indexable, because it is not a list",
                    ),
                );
            },
        };
        if i < 0 {
            Err(error_with_index("IndexError: Index below zero: ", name, i))
        } else if i as u128 >= list.len() as u128 {
            Err(error_with_index("IndexError: Index out of bounds: ", name, i))
        } else {
            Ok((list, i as usize))
        }
    }

    /// Applies a binary operator to the values of its operands.
    fn apply(&mut self, op: BiOp, left: Value, right: Value) -> (a: Action)
        ensures
            (Stepped { machine: final(self)@, action: a@ }) == applied_step(
                old(self)@.env,
                old(self)@.konts,
                op,
                left@,
                right@,
            ),
    {
        let left_again = left.clone();
        let right_again = right.clone();
        match eval_binary(op, left, right) {
            Applied::Done(v) => self.hand(v),
            Applied::Failed(e) => self.fail(e),
            Applied::PromoteLeft(n) => {
                self.push(Kont::ApplyLeft(op, right_again));
                self.go(Focus::Waiting(Request::Promote(n)))
            },
            Applied::PromoteRight(n) => {
                self.push(Kont::Apply(op, left_again));
                self.go(Focus::Waiting(Request::Promote(n)))
            },
            Applied::Arith(ty, a, b) => self.go(Focus::Waiting(Request::Arith(ty, a, b))),
        }
    }

    /// Hands the value `v` to `k`, which was on top of the stack.
    fn deliver(&mut self, k: Kont<'a>, v: Value) -> (a: Action)
        ensures
            (Stepped { machine: final(self)@, action: a@ }) == deliver_step(
                old(self)@.env,
                old(self)@.konts,
                k@,
                v@,
            ),
    {
        match k {
            Kont::Block { stmts, next, kind } => {
                if next < stmts.len() {
                    self.push(Kont::Block { stmts, next: next + 1, kind });
                    self.interpret_stmt(&stmts[next])
                } else {
                    match kind {
                        BlockKind::Plain => self.hand(Value::Nothing),
                        BlockKind::Loop(cond) => {
                            self.push(Kont::While(cond, stmts));
                            self.go(Focus::Eval(cond))
                        },
                        BlockKind::Body => {
                            self.env.leave();
                            self.hand(Value::Nothing)
                        },
                    }
                }
            },
            Kont::Unary(op) => match eval_unary(op, v) {
                Ok(r) => self.hand(r),
                Err(e) => self.fail(e),
            },
            Kont::Right(op, right) => match op.ty {
                BiOpType::And => if v.to_bool() {
                    self.go(Focus::Eval(right))
                } else {
                    self.hand(v)
                },
                BiOpType::Or => if v.to_bool() {
                    self.hand(v)
                } else {
                    self.go(Focus::Eval(right))
                },
                _ => {
                    self.push(Kont::Apply(op, v));
                    self.go(Focus::Eval(right))
                },
            },
            Kont::Apply(op, left) => self.apply(op, left, v),
            Kont::ApplyLeft(op, right) => self.apply(op, v, right),
            Kont::Items { items, done } => {
                let mut done = done;
                proof {
                    lemma_values_view_push(done@, v);
                }
                done.push(v);
                if done.len() < items.len() {
                    let at = done.len();
                    self.push(Kont::Items { items, done });
                    self.go(Focus::Eval(&items[at]))
                } else {
                    self.hand(Value::List(done))
                }
            },
            Kont::Args { site, fun, args, done } => {
                let mut done = done;
                proof {
                    lemma_values_view_push(done@, v);
                }
                done.push(v);
                if done.len() < args.len() {
                    let at = done.len();
                    self.push(Kont::Args { site, fun, args, done });
                    self.go(Focus::Eval(&args[at]))
                } else {
                    self.call(site, fun, done)
                }
            },
            Kont::Index(name) => match self.eval_access(name, &v) {
                Ok((list, at)) => {
                    let element = list[at].clone();
                    self.hand(element)
                },
                Err(e) => self.fail(e),
            },
            Kont::Print => {
                self.focus = Focus::Deliver(Value::Nothing);
                Action::Print(v)
            },
            Kont::Assign(name) => {
                self.env.assign_var(name.name.clone(), v);
                self.hand(Value::Nothing)
            },
            Kont::AssignIndex(name, e) => {
                self.push(Kont::AssignValue(name, v));
                self.go(Focus::Eval(e))
            },
            Kont::AssignValue(name, index) => match self.eval_access(name, &index) {
                Ok((list, at)) => {
                    let mut list = list;
                    let ghost before = list@;
                    list.set(at, v);
                    assert(values_view(list@) =~= values_view(before).update(at as int, v@));
                    self.env.assign_var(name.name.clone(), Value::List(list));
                    self.hand(Value::Nothing)
                },
                Err(e) => self.fail(e),
            },
            Kont::Cond(then, otherwise) => {
                if v.to_bool() {
                    self.push(Kont::Block { stmts: then, next: 0, kind: BlockKind::Plain });
                } else {
                    match otherwise {
                        Some(block) => {
                            self.push(
                                Kont::Block { stmts: block, next: 0, kind: BlockKind::Plain },
                            );
                        },
                        None => {},
                    }
                }
                self.hand(Value::Nothing)
            },
            Kont::While(cond, body) => {
                if v.to_bool() {
                    self.push(Kont::Block { stmts: body, next: 0, kind: BlockKind::Loop(cond) });
                }
                self.hand(Value::Nothing)
            },
            Kont::Return(at) => self.go(Focus::Unwind(at, v)),
        }
    }

    /// One step of the machine: the new state, and what it leaves to the
    /// host before the next step.
    pub fn step(&mut self) -> (a: Action)
        ensures
            (Stepped { machine: final(self)@, action: a@ }) == step_spec(old(self)@),
    {
        let mut focus = Focus::Finished;
        std::mem::swap(&mut self.focus, &mut focus);
        match focus {
            Focus::Finished => Action::Finished,
            Focus::Failed(e) => {
                let a = Action::Failed(e.clone());
                self.focus = Focus::Failed(e);
                a
            },
            Focus::Waiting(r) => {
                let a = Action::Ask(r.clone());
                self.focus = Focus::Waiting(r);
                a
            },
            Focus::Eval(e) => self.eval_expr(e),
            Focus::Deliver(v) => match self.pop() {
                None => Action::Finished,
                Some(k) => self.deliver(k, v),
            },
            Focus::Unwind(at, v) => match self.pop() {
                None => self.fail(
                    PyError::at(
                        "SyntaxError: return statement outside of function",
                        at.line,
                        at.column,
                    ),
                ),
                Some(Kont::Block { stmts, next, kind: BlockKind::Body }) => {
                    self.env.leave();
                    self.hand(v)
                },
                Some(_) => self.go(Focus::Unwind(at, v)),
            },
        }
    }

    /// Runs at most `budget` steps and stops at the first that leaves
    /// something to the host. Returns `Continue` if the budget ran out
    /// before.
    pub fn run(&mut self, budget: u64) -> (a: Action)
        ensures
            (Stepped { machine: final(self)@, action: a@ }) == run_spec(
                old(self)@,
                budget as nat,
            ),
    {
        let mut left = budget;
        while left > 0
            invariant
                run_spec(self@, left as nat) == run_spec(old(self)@, budget as nat),
            decreases left,
        {
            let a = self.step();
            match a {
                Action::Continue => {},
                other => {
                    return other;
                },
            }
            left -= 1;
        }
        Action::Continue
    }
}

} // verus!
