//! What the operators of the language do to values.
//!
//! Arithmetic and order are defined on Int and Float, and arithmetic on Bool
//! as 0 and 1. Where an operand is a Float the other is made one too, and the
//! arithmetic is that of floats: both are work for the host of the
//! interpreter, which the result names. Int arithmetic is exact; a result
//! that does not fit in 128 bits is an error.
use crate::common::ast::{BiOp, BiOpType, UnOp, UnOpType};
use crate::common::py_error::{PyError, PyErrorView};
use crate::common::text::joined;
use crate::value::{
    float_is_zero, float_le, float_less, float_less_equal, float_lt, float_negate,
    float_negated, float_zero, same_value, truthy, values_view, Value, ValueView,
};
use vstd::prelude::*;
use vstd::string::StringExecFns;

verus! {

/// What applying a binary operator to two values gives.
#[derive(Debug, PartialEq, Eq)]
pub enum Applied {
    /// The result.
    Done(Value),
    /// A runtime error.
    Failed(PyError),
    /// The left operand is an Int that must become a Float first: the
    /// operator is to be applied again to that Float and the right operand.
    PromoteLeft(i128),
    /// The same for the right operand, where the left one is a Float.
    PromoteRight(i128),
    /// Both operands are floats, and the result is the float that the
    /// arithmetic operator makes of them.
    Arith(BiOpType, u64, u64),
}

/// The view of what applying a binary operator gives.
pub ghost enum AppliedView {
    Done(ValueView),
    Failed(PyErrorView),
    PromoteLeft(int),
    PromoteRight(int),
    Arith(BiOpType, u64, u64),
}

impl View for Applied {
    type V = AppliedView;

    open spec fn view(&self) -> AppliedView {
        match self {
            Applied::Done(v) => AppliedView::Done(v@),
            Applied::Failed(e) => AppliedView::Failed(e@),
            Applied::PromoteLeft(n) => AppliedView::PromoteLeft(*n as int),
            Applied::PromoteRight(n) => AppliedView::PromoteRight(*n as int),
            Applied::Arith(op, a, b) => AppliedView::Arith(*op, *a, *b),
        }
    }
}

/// A number as arithmetic takes it.
pub ghost enum NumberView {
    Int(int),
    Float(u64),
}

/// The number that a value is for an operator: an Int, a Float, and where
/// `with_bool` a Bool as 0 or 1.
pub open spec fn number_of(v: ValueView, with_bool: bool) -> Option<NumberView> {
    match v {
        ValueView::Int(n) => Some(NumberView::Int(n)),
        ValueView::Float(bits) => Some(NumberView::Float(bits)),
        ValueView::Bool(b) => if with_bool {
            Some(
                NumberView::Int(
                    if b {
                        1
                    } else {
                        0
                    },
                ),
            )
        } else {
            None
        },
        _ => None,
    }
}

/// Whether an integer fits in an Int.
pub open spec fn fits(n: int) -> bool {
    i128::MIN <= n <= i128::MAX
}

/// The error of a binary operator that does not take its operands.
pub open spec fn type_error(op: BiOp) -> PyErrorView {
    PyErrorView {
        msg: "TypeError: Can't apply binary operator "@ + op.ty.symbol() + " here"@,
        line: op.line,
        column: op.column,
    }
}

/// The error of a division by zero.
pub open spec fn zero_division(op: BiOp) -> PyErrorView {
    PyErrorView { msg: "ZeroDivisionError: division by zero"@, line: op.line, column: op.column }
}

/// The error of an Int result that does not fit in 128 bits.
pub open spec fn overflow(line: u64, column: u64) -> PyErrorView {
    PyErrorView { msg: "OverflowError: integer result out of range"@, line, column }
}

/// The Int `n` as the result of `op`, if it fits.
pub open spec fn int_result(op: BiOp, n: int) -> AppliedView {
    if fits(n) {
        AppliedView::Done(ValueView::Int(n))
    } else {
        AppliedView::Failed(overflow(op.line, op.column))
    }
}

/// The absolute value of an integer.
pub open spec fn magnitude(n: int) -> int {
    if n < 0 {
        -n
    } else {
        n
    }
}

/// Whether `a` is a multiple of `b`, which is not 0.
pub open spec fn divisible(a: int, b: int) -> bool {
    magnitude(a) % magnitude(b) == 0
}

/// `a` divided by `b`, which is not 0, rounded towards 0: exact where `a` is
/// a multiple of `b`.
pub open spec fn quotient(a: int, b: int) -> int {
    if (a < 0) == (b < 0) {
        magnitude(a) / magnitude(b)
    } else {
        -(magnitude(a) / magnitude(b))
    }
}

/// What `op` gives for two numbers. It is no operator of equality or logic.
pub open spec fn arithmetic(op: BiOp, left: NumberView, right: NumberView) -> AppliedView {
    match (left, right) {
        (NumberView::Int(a), NumberView::Int(b)) => match op.ty {
            BiOpType::Plus => int_result(op, a + b),
            BiOpType::Minus => int_result(op, a - b),
            BiOpType::Times => int_result(op, a * b),
            BiOpType::Divided => if b == 0 {
                AppliedView::Failed(zero_division(op))
            } else if divisible(a, b) {
                int_result(op, quotient(a, b))
            } else {
                AppliedView::PromoteLeft(a)
            },
            BiOpType::Greater => AppliedView::Done(ValueView::Bool(a > b)),
            BiOpType::GreaterEqual => AppliedView::Done(ValueView::Bool(a >= b)),
            BiOpType::Less => AppliedView::Done(ValueView::Bool(a < b)),
            BiOpType::LessEqual => AppliedView::Done(ValueView::Bool(a <= b)),
            _ => AppliedView::Failed(type_error(op)),
        },
        (NumberView::Int(a), NumberView::Float(_)) => AppliedView::PromoteLeft(a),
        (NumberView::Float(_), NumberView::Int(b)) => AppliedView::PromoteRight(b),
        (NumberView::Float(x), NumberView::Float(y)) => match op.ty {
            BiOpType::Plus => AppliedView::Arith(op.ty, x, y),
            BiOpType::Minus => AppliedView::Arith(op.ty, x, y),
            BiOpType::Times => AppliedView::Arith(op.ty, x, y),
            BiOpType::Divided => AppliedView::Arith(op.ty, x, y),
            BiOpType::Greater => AppliedView::Done(ValueView::Bool(float_less(y, x))),
            BiOpType::GreaterEqual => AppliedView::Done(ValueView::Bool(float_less_equal(y, x))),
            BiOpType::Less => AppliedView::Done(ValueView::Bool(float_less(x, y))),
            BiOpType::LessEqual => AppliedView::Done(ValueView::Bool(float_less_equal(x, y))),
            _ => AppliedView::Failed(type_error(op)),
        },
    }
}

/// What `op` gives for two values that must be numbers.
pub open spec fn numeric(op: BiOp, left: ValueView, right: ValueView, with_bool: bool)
    -> AppliedView {
    match (number_of(left, with_bool), number_of(right, with_bool)) {
        (Some(a), Some(b)) => arithmetic(op, a, b),
        _ => AppliedView::Failed(type_error(op)),
    }
}

/// Whether a division by this value is a division by zero: the Int 0, a
/// Float zero and `False` are.
pub open spec fn is_zero_divisor(v: ValueView) -> bool {
    match v {
        ValueView::Int(n) => n == 0,
        ValueView::Float(bits) => float_is_zero(bits),
        ValueView::Bool(b) => !b,
        _ => false,
    }
}

/// What the binary operator `op` gives for the values `left` and `right`.
///
/// `==` and `!=` never fail. `and` gives the left value if it does not hold
/// and else the right one, `or` the left value if it holds and else the
/// right one. `+` also joins two strings and two lists. A division by zero
/// fails whatever the left value is.
pub open spec fn binary_result(op: BiOp, left: ValueView, right: ValueView) -> AppliedView {
    match op.ty {
        BiOpType::DoubleEqual => AppliedView::Done(ValueView::Bool(same_value(left, right))),
        BiOpType::NotEqual => AppliedView::Done(ValueView::Bool(!same_value(left, right))),
        BiOpType::And => AppliedView::Done(
            if truthy(left) {
                right
            } else {
                left
            },
        ),
        BiOpType::Or => AppliedView::Done(
            if truthy(left) {
                left
            } else {
                right
            },
        ),
        BiOpType::Plus => match (left, right) {
            (ValueView::String(a), ValueView::String(b)) => AppliedView::Done(
                ValueView::String(a + b),
            ),
            (ValueView::List(a), ValueView::List(b)) => AppliedView::Done(ValueView::List(a + b)),
            _ => numeric(op, left, right, true),
        },
        BiOpType::Minus => numeric(op, left, right, true),
        BiOpType::Times => numeric(op, left, right, true),
        BiOpType::Divided => if is_zero_divisor(right) {
            AppliedView::Failed(zero_division(op))
        } else {
            numeric(op, left, right, true)
        },
        BiOpType::Greater => numeric(op, left, right, false),
        BiOpType::GreaterEqual => numeric(op, left, right, false),
        BiOpType::Less => numeric(op, left, right, false),
        BiOpType::LessEqual => numeric(op, left, right, false),
    }
}

/// What is said of a unary minus before a value that is no number.
pub open spec fn unary_type_error(op: UnOp, v: ValueView) -> PyErrorView {
    PyErrorView {
        msg: match v {
            ValueView::String(_) => "TypeError: Can't apply unary operator - to String"@,
            ValueView::List(_) => "TypeError: Can't apply unary operator - to List"@,
            _ => "TypeError: Can't apply unary operator - to None"@,
        },
        line: op.line,
        column: op.column,
    }
}

/// What the unary operator `op` gives for the value `v`: `not` the Bool
/// that tells whether `v` does not hold, whatever `v` is; `-` the negated
/// number, for a Bool the negated 0 or 1.
pub open spec fn unary_result(op: UnOp, v: ValueView) -> Result<ValueView, PyErrorView> {
    match op.ty {
        UnOpType::Not => Ok(ValueView::Bool(!truthy(v))),
        UnOpType::Minus => match v {
            ValueView::Int(n) => if fits(-n) {
                Ok(ValueView::Int(-n))
            } else {
                Err(overflow(op.line, op.column))
            },
            ValueView::Float(bits) => Ok(ValueView::Float(float_negated(bits))),
            ValueView::Bool(b) => Ok(
                ValueView::Int(
                    if b {
                        -1
                    } else {
                        0
                    },
                ),
            ),
            _ => Err(unary_type_error(op, v)),
        },
    }
}

/// The views of a result of a value or an error.
pub open spec fn result_view(r: Result<Value, PyError>) -> Result<ValueView, PyErrorView> {
    match r {
        Ok(v) => Ok(v@),
        Err(e) => Err(e@),
    }
}

/// Where `a` is a multiple of `b`, the quotient times `b` is `a`.
pub proof fn lemma_quotient_exact(a: int, b: int)
    requires
        b != 0,
        divisible(a, b),
    ensures
        quotient(a, b) * b == a,
{
    let ma = magnitude(a);
    let mb = magnitude(b);
    vstd::arithmetic::div_mod::lemma_fundamental_div_mod(ma, mb);
    let q = ma / mb;
    assert(ma == mb * q);
    assert(quotient(a, b) * b == a) by (nonlinear_arith)
        requires
            ma == mb * q,
            ma == magnitude(a),
            mb == magnitude(b),
            quotient(a, b) == (if (a < 0) == (b < 0) {
                q
            } else {
                -q
            }),
    ;
}

/// The law of division: a division by the Int 0, by a Float zero or by
/// `False` fails as a division by zero, whatever is divided. Of two Ints
/// where the divisor divides the dividend, the result is the Int that times
/// the divisor is the dividend, if it fits; where it does not divide, the
/// division is one of floats, and the dividend is made a Float first.
pub proof fn lemma_division(op: BiOp, left: ValueView, right: ValueView, a: int, b: int)
    requires
        op.ty == BiOpType::Divided,
    ensures
        is_zero_divisor(right) ==> binary_result(op, left, right) == AppliedView::Failed(
            zero_division(op),
        ),
        b != 0 && divisible(a, b) ==> quotient(a, b) * b == a,
        b != 0 && divisible(a, b) && fits(quotient(a, b)) ==> binary_result(
            op,
            ValueView::Int(a),
            ValueView::Int(b),
        ) == AppliedView::Done(ValueView::Int(quotient(a, b))),
        b != 0 && !divisible(a, b) ==> binary_result(op, ValueView::Int(a), ValueView::Int(b))
            == AppliedView::PromoteLeft(a),
{
    if b != 0 && divisible(a, b) {
        lemma_quotient_exact(a, b);
    }
}

/// Equality is total: `==` and `!=` give a Bool for any two values and never
/// fail, and the one is the opposite of the other. `None` is equal to `None`
/// and to nothing else, and two values of different types are not equal.
pub proof fn lemma_equality_total(op: BiOp, other: BiOp, left: ValueView, right: ValueView)
    requires
        op.ty == BiOpType::DoubleEqual,
        other.ty == BiOpType::NotEqual,
    ensures
        binary_result(op, left, right) == AppliedView::Done(
            ValueView::Bool(same_value(left, right)),
        ),
        binary_result(other, left, right) == AppliedView::Done(
            ValueView::Bool(!same_value(left, right)),
        ),
        same_value(ValueView::Nothing, right) <==> right is Nothing,
        same_value(left, ValueView::Nothing) <==> left is Nothing,
        same_value(left, right) ==> (left is Int <==> right is Int) && (left is Float <==> right
            is Float) && (left is String <==> right is String) && (left is Bool <==> right
            is Bool) && (left is List <==> right is List),
{
}

fn make_type_error(op: BiOp) -> (e: PyError)
    ensures
        e@ == type_error(op),
{
    let mut msg = joined("TypeError: Can't apply binary operator ", op.ty.as_str());
    msg.append(" here");
    PyError { msg, line: op.line, column: op.column }
}

fn make_zero_division(op: BiOp) -> (e: PyError)
    ensures
        e@ == zero_division(op),
{
    PyError::at("ZeroDivisionError: division by zero", op.line, op.column)
}

fn make_overflow(line: u64, column: u64) -> (e: PyError)
    ensures
        e@ == overflow(line, column),
{
    PyError::at("OverflowError: integer result out of range", line, column)
}

fn checked(op: BiOp, r: Option<i128>) -> (a: Applied)
    ensures
        r matches Some(n) ==> a@ == AppliedView::Done(ValueView::Int(n as int)),
        r is None ==> a@ == AppliedView::Failed(overflow(op.line, op.column)),
{
    match r {
        Some(n) => Applied::Done(Value::Int(n)),
        None => Applied::Failed(make_overflow(op.line, op.column)),
    }
}

fn magnitude_of(n: i128) -> (m: u128)
    ensures
        m == magnitude(n as int),
{
    if n == i128::MIN {
        0x8000_0000_0000_0000_0000_0000_0000_0000u128
    } else if n < 0 {
        (-n) as u128
    } else {
        n as u128
    }
}

/// `a / b` for two Ints.
fn divide_ints(op: BiOp, a: i128, b: i128) -> (r: Applied)
    ensures
        r@ == arithmetic(
            BiOp { ty: BiOpType::Divided, ..op },
            NumberView::Int(a as int),
            NumberView::Int(b as int),
        ),
{
    if b == 0 {
        return Applied::Failed(make_zero_division(op));
    }
    let ma = magnitude_of(a);
    let mb = magnitude_of(b);
    if ma % mb != 0 {
        return Applied::PromoteLeft(a);
    }
    let q = ma / mb;
    assert(q <= ma) by {
        vstd::arithmetic::div_mod::lemma_div_is_ordered_by_denominator(ma as int, 1, mb as int);
        vstd::arithmetic::div_mod::lemma_div_basics(ma as int);
    }
    if (a < 0) == (b < 0) {
        if q > i128::MAX as u128 {
            Applied::Failed(make_overflow(op.line, op.column))
        } else {
            Applied::Done(Value::Int(q as i128))
        }
    } else if q == 0x8000_0000_0000_0000_0000_0000_0000_0000u128 {
        Applied::Done(Value::Int(i128::MIN))
    } else {
        Applied::Done(Value::Int(-(q as i128)))
    }
}

fn arithmetic_ints(op: BiOp, a: i128, b: i128) -> (r: Applied)
    ensures
        r@ == arithmetic(op, NumberView::Int(a as int), NumberView::Int(b as int)),
{
    match op.ty {
        BiOpType::Plus => checked(op, a.checked_add(b)),
        BiOpType::Minus => checked(op, a.checked_sub(b)),
        BiOpType::Times => checked(op, a.checked_mul(b)),
        BiOpType::Divided => divide_ints(op, a, b),
        BiOpType::Greater => Applied::Done(Value::Bool(a > b)),
        BiOpType::GreaterEqual => Applied::Done(Value::Bool(a >= b)),
        BiOpType::Less => Applied::Done(Value::Bool(a < b)),
        BiOpType::LessEqual => Applied::Done(Value::Bool(a <= b)),
        _ => Applied::Failed(make_type_error(op)),
    }
}

fn arithmetic_floats(op: BiOp, x: u64, y: u64) -> (r: Applied)
    ensures
        r@ == arithmetic(op, NumberView::Float(x), NumberView::Float(y)),
{
    match op.ty {
        BiOpType::Plus => Applied::Arith(op.ty, x, y),
        BiOpType::Minus => Applied::Arith(op.ty, x, y),
        BiOpType::Times => Applied::Arith(op.ty, x, y),
        BiOpType::Divided => Applied::Arith(op.ty, x, y),
        BiOpType::Greater => Applied::Done(Value::Bool(float_lt(y, x))),
        BiOpType::GreaterEqual => Applied::Done(Value::Bool(float_le(y, x))),
        BiOpType::Less => Applied::Done(Value::Bool(float_lt(x, y))),
        BiOpType::LessEqual => Applied::Done(Value::Bool(float_le(x, y))),
        _ => Applied::Failed(make_type_error(op)),
    }
}

enum Number {
    Int(i128),
    Float(u64),
}

impl View for Number {
    type V = NumberView;

    closed spec fn view(&self) -> NumberView {
        match self {
            Number::Int(n) => NumberView::Int(*n as int),
            Number::Float(bits) => NumberView::Float(*bits),
        }
    }
}

fn as_number(v: &Value, with_bool: bool) -> (r: Option<Number>)
    ensures
        r is Some <==> number_of(v@, with_bool) is Some,
        r matches Some(n) ==> n@ == number_of(v@, with_bool)->0,
{
    match v {
        Value::Int(n) => Some(Number::Int(*n)),
        Value::Float(bits) => Some(Number::Float(*bits)),
        Value::Bool(b) => if with_bool {
            Some(
                Number::Int(
                    if *b {
                        1
                    } else {
                        0
                    },
                ),
            )
        } else {
            None
        },
        _ => None,
    }
}

fn eval_numeric(op: BiOp, left: &Value, right: &Value, with_bool: bool) -> (r: Applied)
    ensures
        r@ == numeric(op, left@, right@, with_bool),
{
    let a = as_number(left, with_bool);
    let b = as_number(right, with_bool);
    match (a, b) {
        (Some(Number::Int(x)), Some(Number::Int(y))) => arithmetic_ints(op, x, y),
        (Some(Number::Int(x)), Some(Number::Float(_))) => Applied::PromoteLeft(x),
        (Some(Number::Float(_)), Some(Number::Int(y))) => Applied::PromoteRight(y),
        (Some(Number::Float(x)), Some(Number::Float(y))) => arithmetic_floats(op, x, y),
        _ => Applied::Failed(make_type_error(op)),
    }
}

fn zero_divisor(v: &Value) -> (b: bool)
    ensures
        b == is_zero_divisor(v@),
{
    match v {
        Value::Int(n) => *n == 0,
        Value::Float(bits) => float_zero(*bits),
        Value::Bool(b) => !*b,
        _ => false,
    }
}

/// Applies the binary operator `op` to the values of its operands.
pub fn eval_binary(op: BiOp, left: Value, right: Value) -> (r: Applied)
    ensures
        r@ == binary_result(op, left@, right@),
{
    match op.ty {
        BiOpType::DoubleEqual => Applied::Done(Value::Bool(left.equals(&right))),
        BiOpType::NotEqual => Applied::Done(Value::Bool(!left.equals(&right))),
        BiOpType::And => if left.to_bool() {
            Applied::Done(right)
        } else {
            Applied::Done(left)
        },
        BiOpType::Or => if left.to_bool() {
            Applied::Done(left)
        } else {
            Applied::Done(right)
        },
        BiOpType::Plus => match (left, right) {
            (Value::String(a), Value::String(b)) => {
                let mut s = a;
                s.append(b.as_str());
                Applied::Done(Value::String(s))
            },
            (Value::List(a), Value::List(b)) => {
                let mut items = a;
                let mut rest = b;
                let ghost first = items@;
                let ghost second = rest@;
                items.append(&mut rest);
                assert(values_view(items@) =~= values_view(first) + values_view(second));
                Applied::Done(Value::List(items))
            },
            (l, r) => eval_numeric(op, &l, &r, true),
        },
        BiOpType::Minus => eval_numeric(op, &left, &right, true),
        BiOpType::Times => eval_numeric(op, &left, &right, true),
        BiOpType::Divided => if zero_divisor(&right) {
            Applied::Failed(make_zero_division(op))
        } else {
            eval_numeric(op, &left, &right, true)
        },
        BiOpType::Greater => eval_numeric(op, &left, &right, false),
        BiOpType::GreaterEqual => eval_numeric(op, &left, &right, false),
        BiOpType::Less => eval_numeric(op, &left, &right, false),
        BiOpType::LessEqual => eval_numeric(op, &left, &right, false),
    }
}

/// Applies the unary operator `op` to the value of its operand.
pub fn eval_unary(op: UnOp, v: Value) -> (r: Result<Value, PyError>)
    ensures
        result_view(r) == unary_result(op, v@),
{
    match op.ty {
        UnOpType::Not => Ok(Value::Bool(!v.to_bool())),
        UnOpType::Minus => match v {
            Value::Int(n) => match (0i128).checked_sub(n) {
                Some(m) => Ok(Value::Int(m)),
                None => Err(make_overflow(op.line, op.column)),
            },
            Value::Float(bits) => Ok(Value::Float(float_negate(bits))),
            Value::Bool(b) => Ok(
                Value::Int(
                    if b {
                        -1
                    } else {
                        0
                    },
                ),
            ),
            Value::String(_) => Err(
                PyError::at("TypeError: Can't apply unary operator - to String", op.line, op.column),
            ),
            Value::List(_) => Err(
                PyError::at("TypeError: Can't apply unary operator - to List", op.line, op.column),
            ),
            Value::Nothing => Err(
                PyError::at("TypeError: Can't apply unary operator - to None", op.line, op.column),
            ),
        },
    }
}

} // verus!
