use pylite::common::ast::{BiOp, BiOpType, Stmt, UnOp, UnOpType};
use pylite::common::py_error::PyError;
use pylite::interpreter::{interpret, Action, Request};
use pylite::operators::{eval_binary, eval_unary, Applied};
use pylite::parser::parse;
use pylite::scanner::scan;
use pylite::value::{Piece, Value};

/// What a program did: the values it printed and the error that stopped it.
struct Outcome {
    printed: Vec<Value>,
    error: Option<PyError>,
}

fn answer(request: &Request) -> u64 {
    match request {
        Request::Parse(text) => text.parse::<f64>().unwrap().to_bits(),
        Request::Promote(n) => (*n as f64).to_bits(),
        Request::Arith(op, a, b) => {
            let (a, b) = (f64::from_bits(*a), f64::from_bits(*b));
            let r = match op {
                BiOpType::Plus => a + b,
                BiOpType::Minus => a - b,
                BiOpType::Times => a * b,
                BiOpType::Divided => a / b,
                _ => unreachable!(),
            };
            r.to_bits()
        }
    }
}

fn run_statements(statements: &Vec<Stmt>) -> Outcome {
    let mut machine = interpret(statements);
    let mut printed = Vec::new();
    loop {
        match machine.run(1_000_000) {
            Action::Continue => panic!("the program did not stop"),
            Action::Print(v) => printed.push(v),
            Action::Ask(request) => machine.answer(answer(&request)),
            Action::Failed(e) => return Outcome { printed, error: Some(e) },
            Action::Finished => return Outcome { printed, error: None },
        }
    }
}

fn run(source: &str) -> Outcome {
    let scanned = scan(source);
    assert!(scanned.success(), "scan failed: {:?}", scanned.errors);
    let statements = parse(scanned.tokens).expect("parse failed");
    run_statements(&statements)
}

fn prints(source: &str) -> Vec<Value> {
    let outcome = run(source);
    assert_eq!(outcome.error, None);
    outcome.printed
}

fn fails(source: &str) -> PyError {
    run(source).error.expect("the program did not fail")
}

fn text(v: &Value) -> String {
    v.render()
        .into_iter()
        .map(|p| match p {
            Piece::Text(s) => s,
            Piece::Float(bits) => f64::from_bits(bits).to_string(),
        })
        .collect()
}

fn float(x: f64) -> Value {
    Value::Float(x.to_bits())
}

fn op(ty: BiOpType) -> BiOp {
    BiOp { ty, line: 3, column: 9 }
}

#[test]
fn division_of_ints() {
    assert_eq!(prints("print(6 / 2)\n"), vec![Value::Int(3)]);
    assert_eq!(prints("print(7 / 2)\n"), vec![float(3.5)]);
    assert_eq!(prints("print(-6 / 3)\n"), vec![Value::Int(-2)]);
    assert_eq!(prints("print(-7 / 2)\n"), vec![float(-3.5)]);
    let e = fails("print(5 / 0)\n");
    assert_eq!(e.msg, "ZeroDivisionError: division by zero");
    assert_eq!((e.line, e.column), (1, 9));
}

#[test]
fn division_by_any_zero_fails() {
    assert_eq!(fails("x = 5 / 0.0\n").msg, "ZeroDivisionError: division by zero");
    assert_eq!(fails("x = 5 / False\n").msg, "ZeroDivisionError: division by zero");
    assert_eq!(fails("x = \"a\" / 0\n").msg, "ZeroDivisionError: division by zero");
    assert_eq!(fails("x = 1.5 / (0.0 * -1)\n").msg, "ZeroDivisionError: division by zero");
}

#[test]
fn equality_never_fails() {
    assert_eq!(prints("print(1 == \"1\")\n"), vec![Value::Bool(false)]);
    assert_eq!(prints("print(None == None)\n"), vec![Value::Bool(true)]);
    assert_eq!(prints("print([1,2] == [1,2])\n"), vec![Value::Bool(true)]);
    assert_eq!(prints("print([1,2] == [1,3])\n"), vec![Value::Bool(false)]);
    assert_eq!(prints("print([1,2] != [1,2,3])\n"), vec![Value::Bool(true)]);
    assert_eq!(prints("print(1 != \"1\")\n"), vec![Value::Bool(true)]);
    assert_eq!(prints("print(None == 0)\n"), vec![Value::Bool(false)]);
    assert_eq!(prints("print(1 == 1.0)\n"), vec![Value::Bool(false)]);
    assert_eq!(prints("print(1.5 == 1.5)\n"), vec![Value::Bool(true)]);
    assert_eq!(prints("print(True == 1)\n"), vec![Value::Bool(false)]);
}

#[test]
fn assignment_in_a_function_shadows_and_leaves_the_caller_alone() {
    let source = "x = 1\ndef f():\n    x = 2\n    print(x)\nf()\nprint(x)\n";
    assert_eq!(prints(source), vec![Value::Int(2), Value::Int(1)]);
}

#[test]
fn function_reads_the_scope_of_its_caller() {
    let source = "def show():\n    print(y)\ndef g():\n    y = 7\n    show()\ng()\n";
    assert_eq!(prints(source), vec![Value::Int(7)]);
    let e = fails("def show():\n    print(y)\nshow()\n");
    assert_eq!(e.msg, "NameError: name y is not defined");
    assert_eq!((e.line, e.column), (2, 11));
}

#[test]
fn scenario_add() {
    let printed = prints("def add(a, b):\n    return a + b\nprint(add(2, 3))\n");
    assert_eq!(printed, vec![Value::Int(5)]);
    assert_eq!(text(&printed[0]), "5");
}

#[test]
fn scenario_division_by_zero_prints_nothing() {
    let outcome = run("print(1 / 0)");
    assert!(outcome.printed.is_empty());
    let e = outcome.error.unwrap();
    assert!(e.msg.starts_with("ZeroDivisionError"));
    assert_eq!(e.to_text(), "ZeroDivisionError: division by zero\n    Line 1, Column 9");
}

#[test]
fn scenario_index_out_of_bounds() {
    let outcome = run("x = [1, 2, 3]\nprint(x[5])\n");
    assert!(outcome.printed.is_empty());
    let e = outcome.error.unwrap();
    assert_eq!(e.msg, "IndexError: Index out of bounds: 5");
    assert_eq!((e.line, e.column), (2, 7));
}

#[test]
fn list_access_and_assignment() {
    assert_eq!(prints("x = [1, 2, 3]\nprint(x[0])\nprint(x[2])\n"), vec![Value::Int(1), Value::Int(3)]);
    assert_eq!(
        prints("x = [1, 2, 3]\nx[1] = 9\nprint(x)\n"),
        vec![Value::List(vec![Value::Int(1), Value::Int(9), Value::Int(3)])]
    );
    assert_eq!(fails("x = [1]\nprint(x[-1])\n").msg, "IndexError: Index below zero: -1");
    assert_eq!(fails("x = [1]\nprint(x[1])\n").msg, "IndexError: Index out of bounds: 1");
    assert_eq!(fails("x = [1]\nprint(x[True])\n").msg, "TypeError: List index must be an integer value");
    assert_eq!(fails("x = 1\nprint(x[0])\n").msg, "TypeError: x is not indexable, because it is not a list");
    assert_eq!(fails("print(x[0])\n").msg, "NameError: name x is not defined");
    assert_eq!(fails("x = [1]\nx[3] = 0\n").msg, "IndexError: Index out of bounds: 3");
}

#[test]
fn list_assignment_copies_into_the_inner_scope() {
    let source = "x = [1, 2]\ndef f():\n    x[0] = 5\n    print(x)\nf()\nprint(x)\n";
    assert_eq!(
        prints(source),
        vec![
            Value::List(vec![Value::Int(5), Value::Int(2)]),
            Value::List(vec![Value::Int(1), Value::Int(2)]),
        ]
    );
}

#[test]
fn values_are_copied_on_assignment() {
    let source = "x = [1, 2]\ny = x\ny[0] = 9\nprint(x)\nprint(y)\n";
    assert_eq!(
        prints(source),
        vec![
            Value::List(vec![Value::Int(1), Value::Int(2)]),
            Value::List(vec![Value::Int(9), Value::Int(2)]),
        ]
    );
}

#[test]
fn arithmetic_on_ints_and_bools() {
    assert_eq!(prints("print(1 + 2 * 3)\n"), vec![Value::Int(7)]);
    assert_eq!(prints("print((1 + 2) * 3)\n"), vec![Value::Int(9)]);
    assert_eq!(prints("print(8 - 4 - 2)\n"), vec![Value::Int(2)]);
    assert_eq!(prints("print(True + True)\n"), vec![Value::Int(2)]);
    assert_eq!(prints("print(3 - True)\n"), vec![Value::Int(2)]);
    assert_eq!(prints("print(True / 2)\n"), vec![float(0.5)]);
    assert_eq!(prints("print(4 / True)\n"), vec![Value::Int(4)]);
    assert_eq!(prints("print(-True)\n"), vec![Value::Int(-1)]);
    assert_eq!(prints("print(-False)\n"), vec![Value::Int(0)]);
    assert_eq!(prints("print(--3)\n"), vec![Value::Int(3)]);
}

#[test]
fn arithmetic_with_floats() {
    assert_eq!(prints("print(1.5 + 2)\n"), vec![float(3.5)]);
    assert_eq!(prints("print(2 + 1.5)\n"), vec![float(3.5)]);
    assert_eq!(prints("print(1.5 * 2.0)\n"), vec![float(3.0)]);
    assert_eq!(prints("print(1 - 0.25)\n"), vec![float(0.75)]);
    assert_eq!(prints("print(1.0 / 4)\n"), vec![float(0.25)]);
    assert_eq!(prints("print(True + 0.5)\n"), vec![float(1.5)]);
    assert_eq!(prints("print(-2.5)\n"), vec![float(-2.5)]);
    assert_eq!(text(&prints("print(7 / 2)\n")[0]), "3.5");
}

#[test]
fn comparisons() {
    assert_eq!(prints("print(1 < 2)\n"), vec![Value::Bool(true)]);
    assert_eq!(prints("print(2 <= 2)\n"), vec![Value::Bool(true)]);
    assert_eq!(prints("print(1 > 2)\n"), vec![Value::Bool(false)]);
    assert_eq!(prints("print(1 >= 2)\n"), vec![Value::Bool(false)]);
    assert_eq!(prints("print(1 < 2.5)\n"), vec![Value::Bool(true)]);
    assert_eq!(prints("print(2.5 < 1)\n"), vec![Value::Bool(false)]);
    assert_eq!(prints("print(2.5 >= 2.5)\n"), vec![Value::Bool(true)]);
    assert_eq!(prints("print(-1.5 < 0.5)\n"), vec![Value::Bool(true)]);
    assert_eq!(fails("print(True < 2)\n").msg, "TypeError: Can't apply binary operator < here");
    assert_eq!(fails("print(\"a\" >= \"b\")\n").msg, "TypeError: Can't apply binary operator >= here");
}

#[test]
fn type_errors() {
    let e = fails("x = 1 + \"a\"\n");
    assert_eq!(e.msg, "TypeError: Can't apply binary operator + here");
    assert_eq!((e.line, e.column), (1, 7));
    assert_eq!(fails("x = None - 1\n").msg, "TypeError: Can't apply binary operator - here");
    assert_eq!(fails("x = [1] * 2\n").msg, "TypeError: Can't apply binary operator * here");
    assert_eq!(fails("x = \"a\" / 2\n").msg, "TypeError: Can't apply binary operator / here");
    assert_eq!(fails("x = -\"a\"\n").msg, "TypeError: Can't apply unary operator - to String");
    assert_eq!(fails("x = -[1]\n").msg, "TypeError: Can't apply unary operator - to List");
    assert_eq!(fails("x = -None\n").msg, "TypeError: Can't apply unary operator - to None");
}

#[test]
fn strings_and_lists_join() {
    assert_eq!(prints("print(\"ab\" + \"cd\")\n"), vec![Value::String("abcd".to_string())]);
    assert_eq!(
        prints("print([1] + [2, 3])\n"),
        vec![Value::List(vec![Value::Int(1), Value::Int(2), Value::Int(3)])]
    );
}

#[test]
fn logic_short_circuits() {
    assert_eq!(prints("print(0 and missing)\n"), vec![Value::Int(0)]);
    assert_eq!(prints("print(1 or missing)\n"), vec![Value::Int(1)]);
    assert_eq!(prints("print(1 and 2)\n"), vec![Value::Int(2)]);
    assert_eq!(prints("print(0 or \"x\")\n"), vec![Value::String("x".to_string())]);
    assert_eq!(fails("print(1 and missing)\n").msg, "NameError: name missing is not defined");
    assert_eq!(prints("print(not 0)\n"), vec![Value::Bool(true)]);
    assert_eq!(prints("print(not \"a\")\n"), vec![Value::Bool(false)]);
    assert_eq!(prints("print(not [])\n"), vec![Value::Bool(true)]);
    assert_eq!(prints("print(not None)\n"), vec![Value::Bool(true)]);
    assert_eq!(prints("print(not 0.0)\n"), vec![Value::Bool(true)]);
}

#[test]
fn if_else_and_while() {
    assert_eq!(prints("if 1:\n    print(1)\nelse:\n    print(2)\n"), vec![Value::Int(1)]);
    assert_eq!(prints("if \"\":\n    print(1)\nelse:\n    print(2)\n"), vec![Value::Int(2)]);
    assert_eq!(prints("if 0:\n    print(1)\nprint(3)\n"), vec![Value::Int(3)]);
    let source = "i = 0\ns = 0\nwhile i < 5:\n    i = i + 1\n    s = s + i\nprint(s)\n";
    assert_eq!(prints(source), vec![Value::Int(15)]);
}

#[test]
fn functions_recurse_and_return() {
    let source = "def fact(n):\n    if n <= 1:\n        return 1\n    return n * fact(n - 1)\nprint(fact(10))\n";
    assert_eq!(prints(source), vec![Value::Int(3628800)]);
    assert_eq!(prints("def f():\n    x = 1\nprint(f())\n"), vec![Value::Nothing]);
    assert_eq!(prints("def f():\n    return\n    print(1)\nprint(f())\n"), vec![Value::Nothing]);
    let source = "def f():\n    while True:\n        return 4\nprint(f())\n";
    assert_eq!(prints(source), vec![Value::Int(4)]);
}

#[test]
fn call_errors() {
    let e = fails("def f(a):\n    return a\nf(1, 2)\n");
    assert_eq!(e.msg, "TypeError: f takes 1 positional arguments but 2 were given");
    assert_eq!((e.line, e.column), (3, 1));
    assert_eq!(fails("def f(a):\n    return a\nf()\n").msg, "TypeError: f takes 1 positional arguments but 0 were given");
    assert_eq!(fails("g(1)\n").msg, "NameError: name g is not defined");
    assert_eq!(fails("g(missing)\n").msg, "NameError: name g is not defined");
}

#[test]
fn return_outside_function_is_an_error() {
    let e = fails("print(1)\nreturn 2\nprint(3)\n");
    assert_eq!(e.msg, "SyntaxError: return statement outside of function");
    assert_eq!((e.line, e.column), (2, 1));
    let outcome = run("print(1)\nreturn 2\nprint(3)\n");
    assert_eq!(outcome.printed, vec![Value::Int(1)]);
}

#[test]
fn the_first_error_stops_the_program() {
    let outcome = run("print(1)\nprint(x)\nprint(2)\n");
    assert_eq!(outcome.printed, vec![Value::Int(1)]);
    assert_eq!(outcome.error.unwrap().msg, "NameError: name x is not defined");
}

#[test]
fn int_overflow_is_an_error() {
    let source = "x = 4294967296\ny = x * x\nz = y * y\n";
    let e = fails(source);
    assert_eq!(e.msg, "OverflowError: integer result out of range");
    assert_eq!((e.line, e.column), (3, 7));
    assert_eq!(
        prints("x = 18446744073709551615\nprint(x * 4294967296)\n"),
        vec![Value::Int(18446744073709551615i128 * 4294967296i128)]
    );
}

#[test]
fn renders_values() {
    assert_eq!(text(&Value::Int(-12)), "-12");
    assert_eq!(text(&Value::Int(0)), "0");
    assert_eq!(text(&Value::Int(i128::MIN)), i128::MIN.to_string());
    assert_eq!(text(&Value::Bool(true)), "true");
    assert_eq!(text(&Value::Bool(false)), "false");
    assert_eq!(text(&Value::Nothing), "None");
    assert_eq!(text(&Value::String("a b".to_string())), "a b");
    assert_eq!(text(&Value::List(vec![])), "[]");
    assert_eq!(
        text(&Value::List(vec![Value::Int(1), float(2.5), Value::String("x".to_string()), Value::List(vec![Value::Nothing])])),
        "[1, 2.5, x, [None]]"
    );
}

#[test]
fn eval_binary_on_values() {
    assert_eq!(eval_binary(op(BiOpType::Plus), Value::Int(2), Value::Int(3)), Applied::Done(Value::Int(5)));
    assert_eq!(eval_binary(op(BiOpType::Divided), Value::Int(6), Value::Int(-2)), Applied::Done(Value::Int(-3)));
    assert_eq!(eval_binary(op(BiOpType::Divided), Value::Int(7), Value::Int(2)), Applied::PromoteLeft(7));
    assert_eq!(eval_binary(op(BiOpType::Divided), float(7.0), Value::Int(2)), Applied::PromoteRight(2));
    assert_eq!(
        eval_binary(op(BiOpType::Divided), float(7.0), float(2.0)),
        Applied::Arith(BiOpType::Divided, 7.0f64.to_bits(), 2.0f64.to_bits())
    );
    assert_eq!(
        eval_binary(op(BiOpType::Divided), Value::Int(i128::MIN), Value::Int(-1)),
        Applied::Failed(PyError { msg: "OverflowError: integer result out of range".to_string(), line: 3, column: 9 })
    );
    assert_eq!(
        eval_binary(op(BiOpType::Plus), Value::Int(i128::MAX), Value::Int(1)),
        Applied::Failed(PyError { msg: "OverflowError: integer result out of range".to_string(), line: 3, column: 9 })
    );
    assert_eq!(
        eval_binary(op(BiOpType::Divided), Value::Int(i128::MIN), Value::Int(1)),
        Applied::Done(Value::Int(i128::MIN))
    );
    assert_eq!(eval_binary(op(BiOpType::Less), float(1.0), float(f64::NAN)), Applied::Done(Value::Bool(false)));
    assert_eq!(eval_binary(op(BiOpType::DoubleEqual), float(f64::NAN), float(f64::NAN)), Applied::Done(Value::Bool(false)));
    assert_eq!(eval_binary(op(BiOpType::DoubleEqual), float(0.0), float(-0.0)), Applied::Done(Value::Bool(true)));
    assert_eq!(eval_binary(op(BiOpType::And), Value::Int(0), Value::Int(5)), Applied::Done(Value::Int(0)));
    assert_eq!(eval_binary(op(BiOpType::Or), Value::Int(0), Value::Int(5)), Applied::Done(Value::Int(5)));
}

#[test]
fn eval_unary_on_values() {
    let minus = UnOp { ty: UnOpType::Minus, line: 1, column: 2 };
    let not = UnOp { ty: UnOpType::Not, line: 1, column: 2 };
    assert_eq!(eval_unary(minus, Value::Int(5)), Ok(Value::Int(-5)));
    assert_eq!(eval_unary(minus, float(1.5)), Ok(float(-1.5)));
    assert_eq!(eval_unary(minus, float(0.0)), Ok(Value::Float((-0.0f64).to_bits())));
    assert_eq!(eval_unary(not, Value::List(vec![])), Ok(Value::Bool(true)));
    assert_eq!(
        eval_unary(minus, Value::Int(i128::MIN)),
        Err(PyError { msg: "OverflowError: integer result out of range".to_string(), line: 1, column: 2 })
    );
}

#[test]
fn float_order_agrees_with_the_hardware() {
    let samples = [
        0.0, -0.0, 1.0, -1.0, 1.5, -1.5, 2.5e-310, -2.5e-310, 1e300, -1e300,
        f64::INFINITY, f64::NEG_INFINITY, f64::NAN, f64::MIN_POSITIVE, f64::MAX, f64::MIN,
    ];
    for a in samples {
        for b in samples {
            let (x, y) = (a.to_bits(), b.to_bits());
            assert_eq!(pylite::value::float_lt(x, y), a < b, "{a} < {b}");
            assert_eq!(pylite::value::float_le(x, y), a <= b, "{a} <= {b}");
            assert_eq!(pylite::value::float_eq(x, y), a == b, "{a} == {b}");
        }
        assert_eq!(pylite::value::float_zero(a.to_bits()), a == 0.0);
        assert_eq!(pylite::value::float_nan(a.to_bits()), a.is_nan());
        assert_eq!(pylite::value::float_negate(a.to_bits()), (-a).to_bits());
    }
}

#[test]
fn a_machine_stays_finished_or_failed() {
    let statements: Vec<Stmt> = Vec::new();
    let mut machine = interpret(&statements);
    assert_eq!(machine.run(10), Action::Finished);
    assert_eq!(machine.step(), Action::Finished);
    let scanned = scan("x\n");
    let statements = parse(scanned.tokens).unwrap();
    let mut machine = interpret(&statements);
    let first = machine.run(10);
    assert!(matches!(first, Action::Failed(_)));
    assert_eq!(machine.step(), first);
}

#[test]
fn run_stops_when_the_budget_is_used_up() {
    let scanned = scan("while True:\n    x = 1\n");
    let statements = parse(scanned.tokens).unwrap();
    let mut machine = interpret(&statements);
    assert_eq!(machine.run(1000), Action::Continue);
    assert_eq!(machine.run(0), Action::Continue);
}

#[test]
fn a_machine_that_waits_asks_again() {
    let scanned = scan("print(1.5)\n");
    let statements = parse(scanned.tokens).unwrap();
    let mut machine = interpret(&statements);
    let asked = machine.run(100);
    assert_eq!(asked, Action::Ask(Request::Parse("1.5".to_string())));
    assert_eq!(machine.step(), asked);
    machine.answer(1.5f64.to_bits());
    assert_eq!(machine.run(100), Action::Print(float(1.5)));
    machine.answer(7);
    assert_eq!(machine.run(100), Action::Finished);
}

#[test]
fn return_unwinds_nested_blocks() {
    let source = "\
def find(limit):
    i = 0
    while i < limit:
        j = 0
        while j < limit:
            if i * j == 6:
                if i < j:
                    return [i, j]
            j = j + 1
        i = i + 1
    return None
print(find(5))
print(find(2))
";
    assert_eq!(
        prints(source),
        vec![Value::List(vec![Value::Int(2), Value::Int(3)]), Value::Nothing]
    );
}

#[test]
fn functions_declared_in_a_function_end_with_it() {
    let source = "\
def outer():
    def inner():
        return 1
    return inner() + 1
print(outer())
inner()
";
    let outcome = run(source);
    assert_eq!(outcome.printed, vec![Value::Int(2)]);
    assert_eq!(outcome.error.unwrap().msg, "NameError: name inner is not defined");
}

#[test]
fn a_later_declaration_replaces_an_earlier_one() {
    let source = "def f():\n    return 1\ndef f():\n    return 2\nprint(f())\n";
    assert_eq!(prints(source), vec![Value::Int(2)]);
}

#[test]
fn fibonacci() {
    let source = "\
def fib(n):
    if n < 2:
        return n
    return fib(n - 1) + fib(n - 2)
i = 0
while i < 10:
    print(fib(i))
    i = i + 1
";
    let expected: Vec<Value> = [0, 1, 1, 2, 3, 5, 8, 13, 21, 34].iter().map(|n| Value::Int(*n)).collect();
    assert_eq!(prints(source), expected);
}

#[test]
fn deep_recursion_needs_no_deep_stack() {
    let source = "\
def count(n):
    if n == 0:
        return 0
    return 1 + count(n - 1)
print(count(20000))
";
    assert_eq!(prints(source), vec![Value::Int(20000)]);
}

#[test]
fn loops_build_lists_and_strings() {
    let source = "\
xs = []
s = \"\"
i = 0
while i < 3:
    xs = xs + [i * i]
    s = s + \"ab\"
    i = i + 1
print(xs)
print(s)
";
    assert_eq!(
        prints(source),
        vec![
            Value::List(vec![Value::Int(0), Value::Int(1), Value::Int(4)]),
            Value::String("ababab".to_string()),
        ]
    );
}

#[test]
fn arguments_are_evaluated_from_the_left_and_copied() {
    let source = "\
def change(a):
    a[0] = 9
    return a
x = [1]
y = change(x)
print(x)
print(y)
def two(a, b):
    return a - b
print(two(10, 3))
";
    assert_eq!(
        prints(source),
        vec![Value::List(vec![Value::Int(1)]), Value::List(vec![Value::Int(9)]), Value::Int(7)]
    );
    assert_eq!(fails("def f(a, b):\n    return a\nf(p, q)\n").msg, "NameError: name p is not defined");
}

#[test]
fn while_condition_uses_truthiness() {
    let source = "xs = [1, 2]\nn = 0\nwhile xs:\n    xs = []\n    n = n + 1\nprint(n)\n";
    assert_eq!(prints(source), vec![Value::Int(1)]);
}

#[test]
fn float_literals_and_mixed_expressions() {
    assert_eq!(prints("x = 0.1 + 0.2\nprint(x)\n"), vec![float(0.1 + 0.2)]);
    assert_eq!(prints("print(10 / 4 * 2)\n"), vec![float(5.0)]);
    assert_eq!(prints("print(1 / 3)\n"), vec![float(1.0 / 3.0)]);
    assert_eq!(prints("print([1.5, 2] == [1.5, 2])\n"), vec![Value::Bool(true)]);
    assert_eq!(prints("print(3 * 0.5 < 2)\n"), vec![Value::Bool(true)]);
    assert_eq!(text(&prints("print(2.0)\n")[0]), "2");
}
