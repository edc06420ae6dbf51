//! Runtime values.
use crate::double::double_text;
use vstd::prelude::*;

verus! {

/// A value produced by evaluation. A number is a binary64 bit pattern; a
/// callable is known by its name.
#[derive(Debug, PartialEq)]
pub enum Value {
    Number(u64),
    String(String),
    Boolean(bool),
    Nil,
    Callable(String),
}

/// The mathematical form of a value.
pub enum Val {
    Number(u64),
    Str(Seq<char>),
    Boolean(bool),
    Nil,
    Callable(Seq<char>),
}

impl View for Value {
    type V = Val;

    open spec fn view(&self) -> Val {
        match self {
            Value::Number(n) => Val::Number(*n),
            Value::String(s) => Val::Str(s@),
            Value::Boolean(b) => Val::Boolean(*b),
            Value::Nil => Val::Nil,
            Value::Callable(name) => Val::Callable(name@),
        }
    }
}

/// `nil` and `false` are falsy; every other value is truthy.
pub open spec fn truthy(v: Val) -> bool {
    match v {
        Val::Nil => false,
        Val::Boolean(b) => b,
        _ => true,
    }
}

/// Equality of values: same kind and same value. Numbers compare as binary64
/// values, so a NaN equals nothing and the two zeros are equal.
pub open spec fn values_equal(a: Val, b: Val) -> bool {
    match (a, b) {
        (Val::Number(x), Val::Number(y)) => crate::double::double_order(x, y) == Some(
            std::cmp::Ordering::Equal,
        ),
        (Val::Str(x), Val::Str(y)) => x == y,
        (Val::Boolean(x), Val::Boolean(y)) => x == y,
        (Val::Nil, Val::Nil) => true,
        (Val::Callable(x), Val::Callable(y)) => x == y,
        _ => false,
    }
}

/// Equality never holds across kinds, `nil` equals `nil`, and strings,
/// booleans and callables equal themselves; numbers are equal exactly when
/// their binary64 comparison says so.
pub proof fn lemma_equality_kinds(a: Val, b: Val)
    ensures
        values_equal(Val::Nil, Val::Nil),
        !(a is Number) ==> values_equal(a, a),
        kind_of(a) != kind_of(b) ==> !values_equal(a, b),
        forall|x: u64, y: u64|
            #![trigger values_equal(Val::Number(x), Val::Number(y))]
            values_equal(Val::Number(x), Val::Number(y)) == (crate::double::double_order(x, y)
                == Some(std::cmp::Ordering::Equal)),
{
}

/// The kind of a value, as a small number.
pub open spec fn kind_of(v: Val) -> int {
    match v {
        Val::Number(_) => 0,
        Val::Str(_) => 1,
        Val::Boolean(_) => 2,
        Val::Nil => 3,
        Val::Callable(_) => 4,
    }
}

/// How a value is printed.
pub open spec fn display(v: Val) -> Seq<char> {
    match v {
        Val::Number(n) => double_text(n),
        Val::Str(s) => s,
        Val::Boolean(b) => if b {
            "true"@
        } else {
            "false"@
        },
        Val::Nil => "nil"@,
        Val::Callable(name) => "<fn "@ + name + ">"@,
    }
}

/// Relies on `str::to_string`, which copies the text.
pub(crate) fn owned(s: &str) -> (r: String)
    ensures
        r@ == s@,
{
    broadcast use vstd::string::group_string_axioms;

    s.to_string()
}

impl Value {
    /// An identical copy.
    pub fn duplicate(&self) -> (r: Value)
        ensures
            r == *self,
    {
        match self {
            Value::Number(n) => Value::Number(*n),
            Value::String(s) => Value::String(s.clone()),
            Value::Boolean(b) => Value::Boolean(*b),
            Value::Nil => Value::Nil,
            Value::Callable(name) => Value::Callable(name.clone()),
        }
    }

    pub fn is_truthy(&self) -> (r: bool)
        ensures
            r == truthy(self@),
    {
        match self {
            Value::Nil => false,
            Value::Boolean(b) => *b,
            _ => true,
        }
    }
}

} // verus!
