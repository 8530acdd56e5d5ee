//! Runtime values.
//!
//! A float is held as the 64 bits of its IEEE 754 binary64 encoding. What
//! follows from the bits alone is computed here: the sign, the test for
//! zero, equality and order. Arithmetic that rounds is not: the interpreter
//! asks its host for it.
use crate::common::text::{push_signed_decimal, signed_decimal};
use vstd::prelude::*;
use vstd::string::StringExecFns;

verus! {

/// A runtime value. Values are copied on assignment and when they are passed
/// to a function: no two variables share one.
#[derive(Debug, PartialEq, Eq)]
pub enum Value {
    Int(i128),
    /// The bits of a binary64 float.
    Float(u64),
    String(String),
    Bool(bool),
    List(Vec<Value>),
    Nothing,
}

/// A value as mathematics sees it: an Int is any integer in range, a text a
/// sequence of characters, a list a sequence of values.
pub ghost enum ValueView {
    Int(int),
    Float(u64),
    String(Seq<char>),
    Bool(bool),
    List(Seq<ValueView>),
    Nothing,
}

/// The view of a value.
pub open spec fn value_view(v: Value) -> ValueView
    decreases v,
{
    match v {
        Value::Int(n) => ValueView::Int(n as int),
        Value::Float(bits) => ValueView::Float(bits),
        Value::String(s) => ValueView::String(s@),
        Value::Bool(b) => ValueView::Bool(b),
        Value::List(items) => ValueView::List(values_view(items@)),
        Value::Nothing => ValueView::Nothing,
    }
}

/// The views of a sequence of values, in order.
pub open spec fn values_view(s: Seq<Value>) -> Seq<ValueView>
    decreases s,
{
    Seq::new(
        s.len(),
        |i: int|
            if 0 <= i < s.len() {
                value_view(s[i])
            } else {
                ValueView::Nothing
            },
    )
}

impl View for Value {
    type V = ValueView;

    open spec fn view(&self) -> ValueView {
        value_view(*self)
    }
}

/// The views of a sequence of values with one more value.
pub proof fn lemma_values_view_push(s: Seq<Value>, v: Value)
    ensures
        values_view(s.push(v)) == values_view(s).push(v@),
        values_view(Seq::empty()) == Seq::<ValueView>::empty(),
{
    assert(values_view(s.push(v)) =~= values_view(s).push(v@));
    assert(values_view(Seq::empty()) =~= Seq::<ValueView>::empty());
}

/// The sign bit of a float.
pub const FLOAT_SIGN: u64 = 0x8000_0000_0000_0000;

/// The bits of positive infinity. A greater magnitude is no number (NaN).
pub const FLOAT_INFINITY: u64 = 0x7ff0_0000_0000_0000;

/// The bits without the sign.
pub open spec fn float_magnitude(bits: u64) -> int {
    if bits >= FLOAT_SIGN {
        bits - FLOAT_SIGN
    } else {
        bits as int
    }
}

/// Whether the float is no number (NaN).
pub open spec fn float_is_nan(bits: u64) -> bool {
    float_magnitude(bits) > FLOAT_INFINITY
}

/// Whether the float is zero, positive or negative.
pub open spec fn float_is_zero(bits: u64) -> bool {
    float_magnitude(bits) == 0
}

/// The float with the opposite sign.
pub open spec fn float_negated(bits: u64) -> u64 {
    if bits >= FLOAT_SIGN {
        (bits - FLOAT_SIGN) as u64
    } else {
        (bits + FLOAT_SIGN) as u64
    }
}

/// The place of a float that is a number among all of them: floats are
/// ordered as the magnitudes of their bits are, with the sign, and the two
/// zeros have one place.
pub open spec fn float_rank(bits: u64) -> int {
    if bits >= FLOAT_SIGN {
        -float_magnitude(bits)
    } else {
        float_magnitude(bits)
    }
}

/// `a == b` for floats: no NaN is equal to anything.
pub open spec fn float_equal(a: u64, b: u64) -> bool {
    !float_is_nan(a) && !float_is_nan(b) && float_rank(a) == float_rank(b)
}

/// `a < b` for floats: no NaN is less or greater than anything.
pub open spec fn float_less(a: u64, b: u64) -> bool {
    !float_is_nan(a) && !float_is_nan(b) && float_rank(a) < float_rank(b)
}

/// `a <= b` for floats.
pub open spec fn float_less_equal(a: u64, b: u64) -> bool {
    !float_is_nan(a) && !float_is_nan(b) && float_rank(a) <= float_rank(b)
}

fn magnitude_of(bits: u64) -> (m: u64)
    ensures
        m == float_magnitude(bits),
{
    if bits >= FLOAT_SIGN {
        bits - FLOAT_SIGN
    } else {
        bits
    }
}

/// Whether the float is zero.
pub fn float_zero(bits: u64) -> (b: bool)
    ensures
        b == float_is_zero(bits),
{
    magnitude_of(bits) == 0
}

/// Whether the float is no number.
pub fn float_nan(bits: u64) -> (b: bool)
    ensures
        b == float_is_nan(bits),
{
    magnitude_of(bits) > FLOAT_INFINITY
}

/// The float with the opposite sign.
pub fn float_negate(bits: u64) -> (r: u64)
    ensures
        r == float_negated(bits),
{
    if bits >= FLOAT_SIGN {
        bits - FLOAT_SIGN
    } else {
        bits + FLOAT_SIGN
    }
}

/// `a == b` for floats.
pub fn float_eq(a: u64, b: u64) -> (r: bool)
    ensures
        r == float_equal(a, b),
{
    if float_nan(a) || float_nan(b) {
        false
    } else {
        a == b || (magnitude_of(a) == 0 && magnitude_of(b) == 0)
    }
}

/// `a < b` for floats.
pub fn float_lt(a: u64, b: u64) -> (r: bool)
    ensures
        r == float_less(a, b),
{
    if float_nan(a) || float_nan(b) {
        false
    } else if a >= FLOAT_SIGN {
        if b >= FLOAT_SIGN {
            magnitude_of(a) > magnitude_of(b)
        } else {
            magnitude_of(a) > 0 || magnitude_of(b) > 0
        }
    } else {
        b < FLOAT_SIGN && a < b
    }
}

/// `a <= b` for floats.
pub fn float_le(a: u64, b: u64) -> (r: bool)
    ensures
        r == float_less_equal(a, b),
{
    float_lt(a, b) || float_eq(a, b)
}

/// Whether a condition with this value holds: zero, the empty string, the
/// empty list and `None` do not; a Bool is itself; everything else does.
pub open spec fn truthy(v: ValueView) -> bool {
    match v {
        ValueView::Int(n) => n != 0,
        ValueView::Float(bits) => !float_is_zero(bits),
        ValueView::String(s) => s.len() != 0,
        ValueView::Bool(b) => b,
        ValueView::List(items) => items.len() != 0,
        ValueView::Nothing => false,
    }
}

/// Whether two values are equal: they are of one type and hold the same,
/// lists element by element. Values of two types are never equal.
pub open spec fn same_value(a: ValueView, b: ValueView) -> bool
    decreases a,
{
    match a {
        ValueView::Int(x) => b == ValueView::Int(x),
        ValueView::Float(x) => b is Float && float_equal(x, b->Float_0),
        ValueView::String(x) => b == ValueView::String(x),
        ValueView::Bool(x) => b == ValueView::Bool(x),
        ValueView::List(x) => b is List && x.len() == b->List_0.len() && forall|i: int|
            0 <= i < x.len() ==> same_value(#[trigger] x[i], b->List_0[i]),
        ValueView::Nothing => b is Nothing,
    }
}

/// A part of the text of a value: text that is ready, or a float that is
/// still to be written in decimal.
#[derive(Debug, PartialEq, Eq)]
pub enum Piece {
    Text(String),
    Float(u64),
}

/// The view of a piece of text.
pub ghost enum PieceView {
    Text(Seq<char>),
    Float(u64),
}

impl View for Piece {
    type V = PieceView;

    open spec fn view(&self) -> PieceView {
        match self {
            Piece::Text(s) => PieceView::Text(s@),
            Piece::Float(bits) => PieceView::Float(*bits),
        }
    }
}

/// The views of a sequence of pieces, in order.
pub open spec fn pieces_view(s: Seq<Piece>) -> Seq<PieceView> {
    s.map_values(|p: Piece| p@)
}

/// The text of a value as `print` shows it, in parts: an Int in decimal, a
/// String as it is, a Bool as `true` or `false`, `None`, and a list between
/// brackets with `, ` between its elements.
pub open spec fn rendered(v: ValueView) -> Seq<PieceView>
    decreases v, 0int,
{
    match v {
        ValueView::Int(n) => seq![PieceView::Text(signed_decimal(n))],
        ValueView::Float(bits) => seq![PieceView::Float(bits)],
        ValueView::String(s) => seq![PieceView::Text(s)],
        ValueView::Bool(b) => seq![
            PieceView::Text(
                if b {
                    "true"@
                } else {
                    "false"@
                },
            ),
        ],
        ValueView::List(items) => seq![PieceView::Text("["@)] + rendered_items(
            items,
            items.len() as int,
        ) + seq![PieceView::Text("]"@)],
        ValueView::Nothing => seq![PieceView::Text("None"@)],
    }
}

/// The text of the first `n` elements of a list, `, ` between them.
pub open spec fn rendered_items(items: Seq<ValueView>, n: int) -> Seq<PieceView>
    decreases items, n,
{
    if n <= 0 || n > items.len() {
        Seq::empty()
    } else if n == 1 {
        rendered(items[0])
    } else {
        rendered_items(items, n - 1) + seq![PieceView::Text(", "@)] + rendered(items[n - 1])
    }
}

impl Clone for Value {
    fn clone(&self) -> (r: Value)
        ensures
            r@ == self@,
        decreases self,
    {
        match self {
            Value::Int(n) => Value::Int(*n),
            Value::Float(bits) => Value::Float(*bits),
            Value::String(s) => Value::String(s.clone()),
            Value::Bool(b) => Value::Bool(*b),
            Value::List(items) => {
                let mut out: Vec<Value> = Vec::new();
                let mut i: usize = 0;
                while i < items.len()
                    invariant
                        i <= items.len(),
                        out@.len() == i,
                        self->List_0 == *items,
                        *self is List,
                        forall|j: int| 0 <= j < i ==> out@[j]@ == items@[j]@,
                    decreases items.len() - i,
                {
                    proof {
                        vstd::std_specs::vec::axiom_vec_index_decreases(*items, i as int);
                        assert(decreases_to!(*self => self->List_0));
                    }
                    out.push(items[i].clone());
                    i += 1;
                }
                assert(values_view(out@) =~= values_view(items@));
                Value::List(out)
            },
            Value::Nothing => Value::Nothing,
        }
    }
}

impl Value {
    /// Whether a condition with this value holds.
    pub fn to_bool(&self) -> (b: bool)
        ensures
            b == truthy(self@),
    {
        match self {
            Value::Int(n) => *n != 0,
            Value::Float(bits) => !float_zero(*bits),
            Value::String(s) => s.as_str().unicode_len() != 0,
            Value::Bool(b) => *b,
            Value::List(items) => items.len() != 0,
            Value::Nothing => false,
        }
    }

    /// Whether this value and `other` are equal.
    pub fn equals(&self, other: &Value) -> (b: bool)
        ensures
            b == same_value(self@, other@),
        decreases self,
    {
        match self {
            Value::Int(x) => match other {
                Value::Int(y) => *x == *y,
                _ => false,
            },
            Value::Float(x) => match other {
                Value::Float(y) => float_eq(*x, *y),
                _ => false,
            },
            Value::String(x) => match other {
                Value::String(y) => *x == *y,
                _ => false,
            },
            Value::Bool(x) => match other {
                Value::Bool(y) => *x == *y,
                _ => false,
            },
            Value::Nothing => match other {
                Value::Nothing => true,
                _ => false,
            },
            Value::List(x) => match other {
                Value::List(y) => {
                    if x.len() != y.len() {
                        return false;
                    }
                    let mut i: usize = 0;
                    while i < x.len()
                        invariant
                            i <= x.len(),
                            x.len() == y.len(),
                            *self is List,
                            self->List_0 == *x,
                            self@ == ValueView::List(values_view(x@)),
                            other@ == ValueView::List(values_view(y@)),
                            forall|j: int|
                                0 <= j < i ==> same_value(
                                    #[trigger] values_view(x@)[j],
                                    values_view(y@)[j],
                                ),
                        decreases x.len() - i,
                    {
                        proof {
                            vstd::std_specs::vec::axiom_vec_index_decreases(*x, i as int);
                            assert(decreases_to!(*self => self->List_0));
                        }
                        if !x[i].equals(&y[i]) {
                            assert(!same_value(values_view(x@)[i as int], values_view(y@)[i as int]));
                            return false;
                        }
                        i += 1;
                    }
                    true
                },
                _ => false,
            },
        }
    }

    /// Appends the text of this value, in parts, to `out`.
    pub fn render_into(&self, out: &mut Vec<Piece>)
        ensures
            pieces_view(final(out)@) == pieces_view(old(out)@) + rendered(self@),
        decreases self,
    {
        let ghost before = pieces_view(out@);
        match self {
            Value::Int(n) => {
                let mut s = String::new();
                push_signed_decimal(&mut s, *n);
                assert(s@ =~= signed_decimal(*n as int));
                out.push(Piece::Text(s));
            },
            Value::Float(bits) => {
                out.push(Piece::Float(*bits));
            },
            Value::String(s) => {
                out.push(Piece::Text(s.clone()));
            },
            Value::Bool(b) => {
                out.push(Piece::Text(String::from_str(if *b { "true" } else { "false" })));
            },
            Value::Nothing => {
                out.push(Piece::Text(String::from_str("None")));
            },
            Value::List(items) => {
                out.push(Piece::Text(String::from_str("[")));
                let ghost opened = pieces_view(out@);
                let ghost views = values_view(items@);
                assert(opened =~= before + seq![PieceView::Text("["@)]);
                assert(self@ == ValueView::List(views));
                let mut i: usize = 0;
                assert(pieces_view(out@) =~= opened + rendered_items(views, 0));
                while i < items.len()
                    invariant
                        i <= items.len(),
                        *self is List,
                        self->List_0 == *items,
                        views == values_view(items@),
                        pieces_view(out@) == opened + rendered_items(views, i as int),
                    decreases items.len() - i,
                {
                    proof {
                        vstd::std_specs::vec::axiom_vec_index_decreases(*items, i as int);
                        assert(decreases_to!(*self => self->List_0));
                    }
                    if i > 0 {
                        out.push(Piece::Text(String::from_str(", ")));
                    }
                    let ghost mid = pieces_view(out@);
                    items[i].render_into(out);
                    proof {
                        assert(views[i as int] == items@[i as int]@);
                        if i > 0 {
                            assert(mid =~= opened + rendered_items(views, i as int) + seq![
                                PieceView::Text(", "@),
                            ]);
                        }
                        assert(pieces_view(out@) =~= opened + rendered_items(views, i + 1));
                    }
                    i += 1;
                }
                let ghost listed = rendered_items(views, items.len() as int);
                out.push(Piece::Text(String::from_str("]")));
                assert(pieces_view(out@) =~= (opened + listed).push(PieceView::Text("]"@)));
                assert(rendered(self@) == seq![PieceView::Text("["@)] + listed + seq![
                    PieceView::Text("]"@),
                ]);
                assert(pieces_view(out@) =~= before + rendered(self@));
            },
        }
        assert(pieces_view(out@) =~= before + rendered(self@));
    }

    /// The text of this value as `print` shows it, in parts.
    pub fn render(&self) -> (out: Vec<Piece>)
        ensures
            pieces_view(out@) == rendered(self@),
    {
        let mut out: Vec<Piece> = Vec::new();
        assert(pieces_view(out@) =~= Seq::<PieceView>::empty());
        self.render_into(&mut out);
        assert(pieces_view(out@) =~= rendered(self@));
        out
    }
}

} // verus!
