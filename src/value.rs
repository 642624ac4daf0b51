use std::rc::Rc;
use vstd::prelude::*;

verus! {

/// Bit of an IEEE-754 double that holds its sign.
pub const SIGN_BIT: u64 = 0x8000_0000_0000_0000;

/// Bits of an IEEE-754 double that hold its exponent.
pub const EXPONENT_BITS: u64 = 0x7ff0_0000_0000_0000;

/// Bits of an IEEE-754 double that hold its fraction.
pub const FRACTION_BITS: u64 = 0x000f_ffff_ffff_ffff;

/// A runtime value. A number is held as the bit pattern of an IEEE-754
/// double; what needs the floating-point unit (the four arithmetic operations
/// and the decimal text of a number) is left to the host of the machine.
#[derive(Debug)]
pub enum Value {
    Nil,
    Boolean(bool),
    Number(u64),
    Object(Rc<Object>),
}

#[derive(Debug)]
pub enum Object {
    String(String),
}

/// What a value means, with the sharing of objects forgotten.
pub enum Datum {
    Nil,
    Boolean(bool),
    Number(u64),
    Text(Seq<char>),
}

impl View for Object {
    type V = Seq<char>;

    open spec fn view(&self) -> Seq<char> {
        match self {
            Object::String(s) => s@,
        }
    }
}

impl View for Value {
    type V = Datum;

    open spec fn view(&self) -> Datum {
        match self {
            Value::Nil => Datum::Nil,
            Value::Boolean(b) => Datum::Boolean(*b),
            Value::Number(n) => Datum::Number(*n),
            Value::Object(o) => Datum::Text(o.view()),
        }
    }
}

pub open spec fn is_nan(n: u64) -> bool {
    n & EXPONENT_BITS == EXPONENT_BITS && n & FRACTION_BITS != 0
}

/// Positive or negative zero.
pub open spec fn is_zero(n: u64) -> bool {
    n & !SIGN_BIT == 0
}

/// IEEE-754 equality: no NaN equals anything, the two zeros are equal, and
/// other numbers are equal when their bits are.
pub open spec fn number_eq(a: u64, b: u64) -> bool {
    !is_nan(a) && !is_nan(b) && (a == b || (is_zero(a) && is_zero(b)))
}

/// Maps the bits of a double to an integer that orders as the doubles do
/// (NaN aside, and with the negative zero below the positive one).
pub open spec fn order_key(n: u64) -> u64 {
    if n & SIGN_BIT != 0 {
        !n
    } else {
        n | SIGN_BIT
    }
}

/// IEEE-754 `<`: false whenever a NaN takes part, false between the zeros.
pub open spec fn number_lt(a: u64, b: u64) -> bool {
    !is_nan(a) && !is_nan(b) && !(is_zero(a) && is_zero(b)) && order_key(a) < order_key(b)
}

/// Nil and `false` are falsy; every other value is truthy.
pub open spec fn truthy(d: Datum) -> bool {
    match d {
        Datum::Nil => false,
        Datum::Boolean(b) => b,
        _ => true,
    }
}

/// Structural equality of values.
pub open spec fn datum_eq(a: Datum, b: Datum) -> bool {
    match (a, b) {
        (Datum::Nil, Datum::Nil) => true,
        (Datum::Boolean(x), Datum::Boolean(y)) => x == y,
        (Datum::Number(x), Datum::Number(y)) => number_eq(x, y),
        (Datum::Text(x), Datum::Text(y)) => x == y,
        _ => false,
    }
}

/// The display form of a value that is not a number.
pub open spec fn text_of(d: Datum) -> Seq<char> {
    match d {
        Datum::Nil => "nil"@,
        Datum::Boolean(b) => if b {
            "true"@
        } else {
            "false"@
        },
        Datum::Text(s) => s,
        Datum::Number(_) => Seq::empty(),
    }
}

/// Relies on Rc::clone: the new handle points at the same object.
#[verifier::external_body]
fn share(o: &Rc<Object>) -> (r: Rc<Object>)
    ensures
        r == *o,
{
    Rc::clone(o)
}

pub fn number_equal(a: u64, b: u64) -> (r: bool)
    ensures
        r == number_eq(a, b),
{
    let nan_a = a & EXPONENT_BITS == EXPONENT_BITS && a & FRACTION_BITS != 0;
    let nan_b = b & EXPONENT_BITS == EXPONENT_BITS && b & FRACTION_BITS != 0;
    !nan_a && !nan_b && (a == b || (a & !SIGN_BIT == 0 && b & !SIGN_BIT == 0))
}

fn ordered(n: u64) -> (r: u64)
    ensures
        r == order_key(n),
{
    if n & SIGN_BIT != 0 {
        !n
    } else {
        n | SIGN_BIT
    }
}

pub fn number_less(a: u64, b: u64) -> (r: bool)
    ensures
        r == number_lt(a, b),
{
    let nan_a = a & EXPONENT_BITS == EXPONENT_BITS && a & FRACTION_BITS != 0;
    let nan_b = b & EXPONENT_BITS == EXPONENT_BITS && b & FRACTION_BITS != 0;
    let zeros = a & !SIGN_BIT == 0 && b & !SIGN_BIT == 0;
    !nan_a && !nan_b && !zeros && ordered(a) < ordered(b)
}

/// IEEE-754 negation: the sign bit flips, the rest stays.
pub fn number_negate(n: u64) -> (r: u64)
    ensures
        r == n ^ SIGN_BIT,
{
    n ^ SIGN_BIT
}

impl Value {
    pub fn new_string(s: String) -> (r: Value)
        ensures
            r@ == Datum::Text(s@),
    {
        Value::Object(Rc::new(Object::String(s)))
    }

    /// Another handle on the same value; an object is shared, not copied.
    pub fn duplicate(&self) -> (r: Value)
        ensures
            r == *self,
            r@ == self@,
    {
        match self {
            Value::Nil => Value::Nil,
            Value::Boolean(b) => Value::Boolean(*b),
            Value::Number(n) => Value::Number(*n),
            Value::Object(o) => Value::Object(share(o)),
        }
    }

    pub fn as_number(&self) -> (r: Result<u64, ()>)
        ensures
            match self@ {
                Datum::Number(n) => r == Ok::<u64, ()>(n),
                _ => r is Err,
            },
    {
        match self {
            Value::Number(n) => Ok(*n),
            _ => Err(()),
        }
    }

    pub fn as_text(&self) -> (r: Option<&String>)
        ensures
            match self@ {
                Datum::Text(s) => r matches Some(t) && t@ == s,
                _ => r is None,
            },
    {
        match self {
            Value::Object(o) => match &**o {
                Object::String(s) => Some(s),
            },
            _ => None,
        }
    }

    pub fn is_truthy(&self) -> (r: bool)
        ensures
            r == truthy(self@),
    {
        match self {
            Value::Nil => false,
            Value::Boolean(b) => *b,
            _ => true,
        }
    }

    pub fn is_equal(&self, other: &Value) -> (r: bool)
        ensures
            r == datum_eq(self@, other@),
    {
        match (self, other) {
            (Value::Nil, Value::Nil) => true,
            (Value::Boolean(l), Value::Boolean(r)) => *l == *r,
            (Value::Number(l), Value::Number(r)) => number_equal(*l, *r),
            (Value::Object(l), Value::Object(r)) => l.is_equal(r),
            _ => false,
        }
    }

    /// The display form of a value that is not a number; `None` for a number,
    /// whose decimal text the host writes.
    pub fn display_text(&self) -> (r: Option<String>)
        ensures
            match self@ {
                Datum::Number(_) => r is None,
                d => r matches Some(t) && t@ == text_of(d),
            },
    {
        match self {
            Value::Number(_) => None,
            _ => Some(self.text()),
        }
    }

    pub(crate) fn text(&self) -> (r: String)
        requires
            !(self@ is Number),
        ensures
            r@ == text_of(self@),
    {
        match self {
            Value::Nil => String::from_str("nil"),
            Value::Boolean(b) => if *b {
                String::from_str("true")
            } else {
                String::from_str("false")
            },
            Value::Number(_) => String::new(),
            Value::Object(o) => match &**o {
                Object::String(s) => s.clone(),
            },
        }
    }
}

impl Object {
    pub fn is_equal(&self, other: &Object) -> (r: bool)
        ensures
            r == (self@ == other@),
    {
        match (self, other) {
            (Object::String(l), Object::String(r)) => *l == *r,
        }
    }
}

} // verus!
