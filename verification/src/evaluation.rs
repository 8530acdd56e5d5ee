//! The value of an expression, and the law that the machine computes it.
//!
//! The value is defined directly, by the shape of the expression, for the
//! expressions that the machine evaluates on its own: those without a call
//! and without work for the host. For these the machine, started on the
//! expression, comes to hand on exactly that value after a known number of
//! steps, with its environment and its stack as they were; or it fails with
//! exactly that error.
use crate::common::ast::{BiOpType, Expr, Lit, Stmt};
use crate::common::py_error::PyErrorView;
use crate::environment::{lookup_var, name_error, with_var, ScopeView};
use crate::interpreter::{
    delivered, element_of, eval_step, exec_step, moved, run_spec, step_spec, ActionView,
    BlockKindView, FocusView, KontView, MachineView, Stepped,
};
use crate::operators::{binary_result, unary_result, AppliedView};
use crate::value::{truthy, ValueView};
use vstd::prelude::*;

verus! {

/// What the evaluation of an expression comes to.
pub ghost enum Evaluated {
    Value(ValueView),
    Error(PyErrorView),
    /// The expression holds a call, or its evaluation needs the host.
    Beyond,
}

/// The value of the expression `e` in the environment `env`.
///
/// A literal is its value, a list literal the list of the values of its
/// elements, from the left. A variable is looked up. The operand of a unary
/// operator is evaluated first, and of a binary operator the left operand
/// before the right one; `and` and `or` evaluate the right operand only where
/// the left one does not decide. The first error ends the evaluation.
pub open spec fn value_of(env: Seq<ScopeView>, e: Expr) -> Evaluated
    decreases e, 0int,
{
    match e {
        Expr::Literal(lit) => match lit {
            Lit::Int(n) => Evaluated::Value(ValueView::Int(n as int)),
            Lit::Float(_) => Evaluated::Beyond,
            Lit::String(s) => Evaluated::Value(ValueView::String(s@)),
            Lit::List(items) => match values_of(env, items@, items@.len() as int) {
                Ok(vs) => Evaluated::Value(ValueView::List(vs)),
                Err(other) => other,
            },
            Lit::True => Evaluated::Value(ValueView::Bool(true)),
            Lit::False => Evaluated::Value(ValueView::Bool(false)),
            Lit::Nothing => Evaluated::Value(ValueView::Nothing),
        },
        Expr::Variable(name) => match lookup_var(env, name@.name) {
            Some(v) => Evaluated::Value(v),
            None => Evaluated::Error(name_error(name@)),
        },
        Expr::Grouping(inner) => value_of(env, *inner),
        Expr::Unary(op, inner) => match value_of(env, *inner) {
            Evaluated::Value(v) => match unary_result(op, v) {
                Ok(r) => Evaluated::Value(r),
                Err(err) => Evaluated::Error(err),
            },
            other => other,
        },
        Expr::Binary(left, op, right) => match value_of(env, *left) {
            Evaluated::Value(a) => if op.ty == BiOpType::And && !truthy(a) {
                Evaluated::Value(a)
            } else if op.ty == BiOpType::Or && truthy(a) {
                Evaluated::Value(a)
            } else if op.ty == BiOpType::And || op.ty == BiOpType::Or {
                value_of(env, *right)
            } else {
                match value_of(env, *right) {
                    Evaluated::Value(b) => match binary_result(op, a, b) {
                        AppliedView::Done(v) => Evaluated::Value(v),
                        AppliedView::Failed(err) => Evaluated::Error(err),
                        _ => Evaluated::Beyond,
                    },
                    other => other,
                }
            },
            other => other,
        },
        Expr::Call(_, _) => Evaluated::Beyond,
        Expr::ListAccess(name, index) => match value_of(env, *index) {
            Evaluated::Value(i) => match element_of(env, name@, i) {
                Ok((items, at)) => Evaluated::Value(items[at]),
                Err(err) => Evaluated::Error(err),
            },
            other => other,
        },
    }
}

/// The values of the first `n` of the expressions `items`, or what the
/// first of them that has no value comes to.
pub open spec fn values_of(env: Seq<ScopeView>, items: Seq<Expr>, n: int) -> Result<
    Seq<ValueView>,
    Evaluated,
>
    decreases items, n,
{
    if n <= 0 || n > items.len() {
        Ok(Seq::empty())
    } else {
        match values_of(env, items, n - 1) {
            Ok(vs) => match value_of(env, items[n - 1]) {
                Evaluated::Value(v) => Ok(vs.push(v)),
                other => Err(other),
            },
            Err(other) => Err(other),
        }
    }
}

/// The number of steps that the machine takes to evaluate `e`, up to the
/// step that hands on its value or fails.
pub open spec fn cost(env: Seq<ScopeView>, e: Expr) -> nat
    decreases e, 0int,
{
    match e {
        Expr::Literal(Lit::List(items)) => if items@.len() == 0 {
            1
        } else {
            1 + items_cost(env, items@, items@.len() as int)
        },
        Expr::Grouping(inner) => 1 + cost(env, *inner),
        Expr::Unary(op, inner) => match value_of(env, *inner) {
            Evaluated::Value(_) => 2 + cost(env, *inner),
            _ => 1 + cost(env, *inner),
        },
        Expr::Binary(left, op, right) => match value_of(env, *left) {
            Evaluated::Value(a) => if (op.ty == BiOpType::And && !truthy(a)) || (op.ty
                == BiOpType::Or && truthy(a)) {
                2 + cost(env, *left)
            } else if op.ty == BiOpType::And || op.ty == BiOpType::Or {
                2 + cost(env, *left) + cost(env, *right)
            } else {
                match value_of(env, *right) {
                    Evaluated::Value(_) => 3 + cost(env, *left) + cost(env, *right),
                    _ => 2 + cost(env, *left) + cost(env, *right),
                }
            },
            _ => 1 + cost(env, *left),
        },
        Expr::ListAccess(name, index) => match value_of(env, *index) {
            Evaluated::Value(_) => 2 + cost(env, *index),
            _ => 1 + cost(env, *index),
        },
        _ => 1,
    }
}

/// The number of steps for the first `n` of the expressions `items`, each
/// with the step that takes its value, up to the first that has none.
pub open spec fn items_cost(env: Seq<ScopeView>, items: Seq<Expr>, n: int) -> nat
    decreases items, n,
{
    if n <= 0 || n > items.len() {
        0
    } else {
        match values_of(env, items, n - 1) {
            Ok(_) => match value_of(env, items[n - 1]) {
                Evaluated::Value(_) => items_cost(env, items, n - 1) + cost(env, items[n - 1])
                    + 1,
                _ => items_cost(env, items, n - 1) + cost(env, items[n - 1]),
            },
            Err(_) => items_cost(env, items, n - 1),
        }
    }
}

/// The machine that is about to evaluate `e`.
pub open spec fn evaluating(env: Seq<ScopeView>, konts: Seq<KontView>, e: Expr) -> MachineView {
    MachineView { env, konts, focus: FocusView::Eval(e) }
}

/// Whether the steps `s` have come to `outcome`: the machine hands the value
/// on, with the environment and the stack as they were, and no step has left
/// anything to the host; or it has failed with the error. Of an evaluation
/// that goes beyond the machine nothing is said.
pub open spec fn arrived(
    s: Stepped,
    env: Seq<ScopeView>,
    konts: Seq<KontView>,
    outcome: Evaluated,
) -> bool {
    match outcome {
        Evaluated::Value(v) => s == delivered(env, konts, v),
        Evaluated::Error(err) => s.action == ActionView::Failed(err) && s.machine.focus
            == FocusView::Failed(err) && s.machine.env == env,
        Evaluated::Beyond => true,
    }
}

/// Steps add up: `a + b` steps are `a` steps and then `b` more, unless one
/// of the first `a` leaves something to the host.
pub proof fn lemma_run_adds(m: MachineView, a: nat, b: nat)
    ensures
        run_spec(m, a + b) == (if run_spec(m, a).action is Continue {
            run_spec(run_spec(m, a).machine, b)
        } else {
            run_spec(m, a)
        }),
    decreases a,
{
    if a > 0 {
        let next = step_spec(m);
        if next.action is Continue {
            lemma_run_adds(next.machine, (a - 1) as nat, b);
            assert(run_spec(m, a + b) == run_spec(next.machine, (a - 1 + b) as nat));
        }
    }
}

/// One step and then `n` more.
proof fn lemma_first_step(m: MachineView, n: nat)
    ensures
        run_spec(m, 1 + n) == (if step_spec(m).action is Continue {
            run_spec(step_spec(m).machine, n)
        } else {
            step_spec(m)
        }),
{
    lemma_run_adds(m, 1, n);
    assert(run_spec(m, 1) == step_spec(m)) by {
        reveal_with_fuel(run_spec, 2);
    }
}

/// `n` steps, and then one more where none of them left anything to the
/// host.
proof fn lemma_last_step(m: MachineView, n: nat)
    ensures
        run_spec(m, n + 1) == (if run_spec(m, n).action is Continue {
            step_spec(run_spec(m, n).machine)
        } else {
            run_spec(m, n)
        }),
{
    lemma_run_adds(m, n, 1);
    assert(run_spec(run_spec(m, n).machine, 1) == step_spec(run_spec(m, n).machine)) by {
        reveal_with_fuel(run_spec, 2);
    }
}

/// The law of evaluation: the machine that is about to evaluate `e` comes,
/// after `cost(env, e)` steps, to what `e` comes to.
pub proof fn lemma_machine_evaluates(env: Seq<ScopeView>, konts: Seq<KontView>, e: Expr)
    ensures
        arrived(
            run_spec(evaluating(env, konts, e), cost(env, e)),
            env,
            konts,
            value_of(env, e),
        ),
    decreases e, 1int,
{
    let m = evaluating(env, konts, e);
    assert(step_spec(m) == eval_step(env, konts, e));
    assert(run_spec(m, 1) == step_spec(m)) by {
        reveal_with_fuel(run_spec, 2);
    }
    match e {
        Expr::Literal(lit) => match lit {
            Lit::List(items) => {
                if items@.len() > 0 {
                    let n = items@.len() as int;
                    lemma_items(env, konts, items@, n);
                    lemma_first_step(m, items_cost(env, items@, n));
                }
            },
            _ => {},
        },
        Expr::Variable(name) => {},
        Expr::Grouping(inner) => {
            lemma_machine_evaluates(env, konts, *inner);
            lemma_first_step(m, cost(env, *inner));
        },
        Expr::Unary(op, inner) => {
            let inside = konts.push(KontView::Unary(op));
            lemma_machine_evaluates(env, inside, *inner);
            let c = cost(env, *inner);
            lemma_first_step(m, c);
            match value_of(env, *inner) {
                Evaluated::Value(v) => {
                    lemma_first_step(m, c + 1);
                    lemma_last_step(evaluating(env, inside, *inner), c);
                    assert(inside.drop_last() =~= konts);
                },
                _ => {},
            }
        },
        Expr::Binary(left, op, right) => {
            let inside = konts.push(KontView::Right(op, *right));
            lemma_machine_evaluates(env, inside, *left);
            let cl = cost(env, *left);
            let cr = cost(env, *right);
            let m1 = evaluating(env, inside, *left);
            lemma_first_step(m, cl);
            match value_of(env, *left) {
                Evaluated::Value(a) => {
                    assert(inside.drop_last() =~= konts);
                    lemma_last_step(m1, cl);
                    lemma_first_step(m, cl + 1);
                    if (op.ty == BiOpType::And && !truthy(a)) || (op.ty == BiOpType::Or
                        && truthy(a)) {
                    } else if op.ty == BiOpType::And || op.ty == BiOpType::Or {
                        lemma_machine_evaluates(env, konts, *right);
                        lemma_run_adds(m1, cl + 1, cr);
                        lemma_first_step(m, cl + 1 + cr);
                    } else {
                        let applying = konts.push(KontView::Apply(op, a));
                        let m2 = evaluating(env, applying, *right);
                        lemma_machine_evaluates(env, applying, *right);
                        assert(applying.drop_last() =~= konts);
                        lemma_run_adds(m1, cl + 1, cr);
                        lemma_first_step(m, cl + 1 + cr);
                        match value_of(env, *right) {
                            Evaluated::Value(b) => {
                                lemma_last_step(m2, cr);
                                lemma_run_adds(m1, cl + 1, cr + 1);
                                lemma_first_step(m, cl + 1 + cr + 1);
                            },
                            _ => {},
                        }
                    }
                },
                _ => {},
            }
        },
        Expr::Call(_, _) => {},
        Expr::ListAccess(name, index) => {
            let inside = konts.push(KontView::Index(name@));
            lemma_machine_evaluates(env, inside, *index);
            let c = cost(env, *index);
            lemma_first_step(m, c);
            match value_of(env, *index) {
                Evaluated::Value(v) => {
                    lemma_first_step(m, c + 1);
                    lemma_last_step(evaluating(env, inside, *index), c);
                    assert(inside.drop_last() =~= konts);
                },
                _ => {},
            }
        },
    }
}

/// What the machine has come to once it has taken the values of the first
/// `n` elements of a list that is not empty.
spec fn listed(
    env: Seq<ScopeView>,
    konts: Seq<KontView>,
    items: Seq<Expr>,
    n: int,
    vs: Seq<ValueView>,
) -> Stepped {
    if n < items.len() {
        moved(env, konts.push(KontView::Items { items, done: vs }), FocusView::Eval(items[n]))
    } else {
        delivered(env, konts, ValueView::List(vs))
    }
}

/// The machine that is about to evaluate the first element of a list comes
/// to take the values of the first `n` elements.
proof fn lemma_items(env: Seq<ScopeView>, konts: Seq<KontView>, items: Seq<Expr>, n: int)
    requires
        0 <= n <= items.len(),
        items.len() > 0,
    ensures
        match values_of(env, items, n) {
            Ok(vs) => run_spec(
                evaluating(
                    env,
                    konts.push(KontView::Items { items, done: Seq::empty() }),
                    items[0],
                ),
                items_cost(env, items, n),
            ) == listed(env, konts, items, n, vs),
            Err(outcome) => arrived(
                run_spec(
                    evaluating(
                        env,
                        konts.push(KontView::Items { items, done: Seq::empty() }),
                        items[0],
                    ),
                    items_cost(env, items, n),
                ),
                env,
                konts,
                outcome,
            ) && !(outcome is Value),
        },
    decreases items, n,
{
    let first = evaluating(
        env,
        konts.push(KontView::Items { items, done: Seq::empty() }),
        items[0],
    );
    if n > 0 {
        lemma_items(env, konts, items, n - 1);
        let before = items_cost(env, items, n - 1);
        match values_of(env, items, n - 1) {
            Ok(vs) => {
                let inside = konts.push(KontView::Items { items, done: vs });
                let c = cost(env, items[n - 1]);
                let m1 = evaluating(env, inside, items[n - 1]);
                lemma_machine_evaluates(env, inside, items[n - 1]);
                lemma_run_adds(first, before, c);
                match value_of(env, items[n - 1]) {
                    Evaluated::Value(v) => {
                        lemma_last_step(m1, c);
                        lemma_run_adds(first, before, c + 1);
                        assert(inside.drop_last() =~= konts);
                        assert(vs.len() == n - 1) by {
                            lemma_values_len(env, items, n - 1);
                        }
                    },
                    _ => {},
                }
            },
            Err(_) => {},
        }
    }
}

proof fn lemma_values_len(env: Seq<ScopeView>, items: Seq<Expr>, n: int)
    requires
        0 <= n <= items.len(),
    ensures
        values_of(env, items, n) matches Ok(vs) ==> vs.len() == n,
    decreases n,
{
    if n > 0 {
        lemma_values_len(env, items, n - 1);
    }
}

/// The machine that is about to run the statement at the index `next` of the
/// block `stmts`, which lies on the stack `konts`.
pub open spec fn running(
    env: Seq<ScopeView>,
    konts: Seq<KontView>,
    stmts: Seq<Stmt>,
    next: int,
    kind: BlockKindView,
) -> MachineView {
    MachineView {
        env,
        konts: konts.push(KontView::Block { stmts, next, kind }),
        focus: FocusView::Deliver(ValueView::Nothing),
    }
}

/// The law of the simple statements. Let the expression of the statement at
/// the index `next` have the value `v`. Then an assignment defines its
/// variable as `v` in the innermost scope and changes nothing else; `print`
/// leaves `v` to the host to print; and an expression statement changes
/// nothing. Each time the machine is then about to run the statement that
/// follows. Where the expression fails, the machine fails with its error.
pub proof fn lemma_simple_statement(
    env: Seq<ScopeView>,
    konts: Seq<KontView>,
    stmts: Seq<Stmt>,
    next: int,
    kind: BlockKindView,
)
    requires
        0 <= next < stmts.len(),
    ensures
        match stmts[next] {
            Stmt::AssignVar(name, e) => match value_of(env, e) {
                Evaluated::Value(v) => run_spec(
                    running(env, konts, stmts, next, kind),
                    cost(env, e) + 2,
                ) == (Stepped {
                    machine: running(with_var(env, name@.name, v), konts, stmts, next + 1, kind),
                    action: ActionView::Continue,
                }),
                outcome => arrived(
                    run_spec(running(env, konts, stmts, next, kind), cost(env, e) + 1),
                    env,
                    konts,
                    outcome,
                ),
            },
            Stmt::Print(e) => match value_of(env, e) {
                Evaluated::Value(v) => run_spec(
                    running(env, konts, stmts, next, kind),
                    cost(env, e) + 2,
                ) == (Stepped {
                    machine: running(env, konts, stmts, next + 1, kind),
                    action: ActionView::Print(v),
                }),
                outcome => arrived(
                    run_spec(running(env, konts, stmts, next, kind), cost(env, e) + 1),
                    env,
                    konts,
                    outcome,
                ),
            },
            Stmt::Expr(e) => match value_of(env, e) {
                Evaluated::Value(v) => run_spec(
                    running(env, konts, stmts, next, kind),
                    cost(env, e) + 1,
                ) == delivered(
                    env,
                    konts.push(KontView::Block { stmts, next: next + 1, kind }),
                    v,
                ),
                outcome => arrived(
                    run_spec(running(env, konts, stmts, next, kind), cost(env, e) + 1),
                    env,
                    konts,
                    outcome,
                ),
            },
            _ => true,
        },
{
    let m = running(env, konts, stmts, next, kind);
    let after = konts.push(KontView::Block { stmts, next: next + 1, kind });
    assert(m.konts.drop_last() =~= konts);
    assert(step_spec(m) == exec_step(env, after, stmts[next]));
    match stmts[next] {
        Stmt::AssignVar(name, e) => {
            let inside = after.push(KontView::Assign(name@));
            let c = cost(env, e);
            lemma_machine_evaluates(env, inside, e);
            lemma_first_step(m, c);
            assert(inside.drop_last() =~= after);
            match value_of(env, e) {
                Evaluated::Value(v) => {
                    lemma_last_step(evaluating(env, inside, e), c);
                    lemma_first_step(m, c + 1);
                },
                _ => {},
            }
        },
        Stmt::Print(e) => {
            let inside = after.push(KontView::Print);
            let c = cost(env, e);
            lemma_machine_evaluates(env, inside, e);
            lemma_first_step(m, c);
            assert(inside.drop_last() =~= after);
            match value_of(env, e) {
                Evaluated::Value(v) => {
                    lemma_last_step(evaluating(env, inside, e), c);
                    lemma_first_step(m, c + 1);
                },
                _ => {},
            }
        },
        Stmt::Expr(e) => {
            lemma_machine_evaluates(env, after, e);
            lemma_first_step(m, cost(env, e));
        },
        _ => {},
    }
}

} // verus!
