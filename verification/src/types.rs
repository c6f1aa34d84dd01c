use vstd::prelude::*;
use vstd::arithmetic::div_mod::{lemma_div_nonincreasing, lemma_div_is_ordered, lemma_div_is_ordered_by_denominator, lemma_div_pos_is_pos};
use crate::errors::{ErrorKind, TypesCheck, WarningKind};
use crate::float::{
    float_add, float_sub, float_mul, float_div, float_lt, float_le, float_eq, float_gt, float_ge,
    float_of_i64, float_trunc_i64, float_parse, float_text, f_neg, F_ZERO, F_ONE,
    apf_add, apf_sub, apf_mul, apf_div, apf_lt, apf_le, apf_eq, apf_of_i64, apf_trunc_i64,
    apf_parse, apf_text, f64_neg, f64_sqrt, f64_sin, f64_cos, spec_sqrt, spec_sin, spec_cos,
};
use crate::numtext::{spec_int_text, spec_parse_i64, i64_to_string, parse_i64};
use crate::textops::{chars_of_str, str_eq};

verus! {

/// A runtime value: the tagged union the operand stack and the frames
/// hold. A float is carried as its IEEE-754 binary64 bit pattern.
#[derive(Debug, Clone, PartialEq)]
pub enum Types {
    String(String),
    Boolean(bool),
    Number(i64),
    Float(u64),
}

/// The mathematical shadow of a value.
pub enum ValV {
    Str(Seq<char>),
    Boolean(bool),
    Number(i64),
    Float(u64),
}

impl View for Types {
    type V = ValV;

    open spec fn view(&self) -> ValV {
        match self {
            Types::String(s) => ValV::Str(s@),
            Types::Boolean(b) => ValV::Boolean(*b),
            Types::Number(n) => ValV::Number(*n),
            Types::Float(f) => ValV::Float(*f),
        }
    }
}

/// The static type of a runtime value.
pub open spec fn ty_of(v: ValV) -> TypesCheck {
    match v {
        ValV::Str(_) => TypesCheck::String,
        ValV::Boolean(_) => TypesCheck::Boolean,
        ValV::Number(_) => TypesCheck::Number,
        ValV::Float(_) => TypesCheck::Float,
    }
}

impl Types {
    /// A copy with the same shadow (the derived clone says nothing).
    pub fn duplicate(&self) -> (r: Types)
        ensures
            r@ == self@,
    {
        match self {
            Types::String(s) => Types::String(s.clone()),
            Types::Boolean(b) => Types::Boolean(*b),
            Types::Number(n) => Types::Number(*n),
            Types::Float(f) => Types::Float(*f),
        }
    }

    pub fn type_of(&self) -> (r: TypesCheck)
        ensures
            r == ty_of(self@),
    {
        match self {
            Types::String(_) => TypesCheck::String,
            Types::Boolean(_) => TypesCheck::Boolean,
            Types::Number(_) => TypesCheck::Number,
            Types::Float(_) => TypesCheck::Float,
        }
    }
}

// ---------------------------------------------------------------------
// Arithmetic: a total function on (tag of left, tag of right, operator).

/// `left + right`: 64-bit wrapping addition on numbers, IEEE addition
/// on floats, concatenation (left first) on strings.
pub open spec fn spec_plus(a: ValV, b: ValV) -> Result<ValV, ErrorKind> {
    match (a, b) {
        (ValV::Number(x), ValV::Number(y)) => Ok(ValV::Number(x.wrapping_add(y))),
        (ValV::Float(x), ValV::Float(y)) => Ok(ValV::Float(float_add(x, y))),
        (ValV::Str(x), ValV::Str(y)) => Ok(ValV::Str(x + y)),
        _ => Err(ErrorKind::BadArithType),
    }
}

/// `left - right` on numbers (wrapping) or floats.
pub open spec fn spec_minus(a: ValV, b: ValV) -> Result<ValV, ErrorKind> {
    match (a, b) {
        (ValV::Number(x), ValV::Number(y)) => Ok(ValV::Number(x.wrapping_sub(y))),
        (ValV::Float(x), ValV::Float(y)) => Ok(ValV::Float(float_sub(x, y))),
        _ => Err(ErrorKind::BadArithType),
    }
}

/// A string repeated `n` times; empty when `n` is not positive.
pub open spec fn spec_str_repeat(s: Seq<char>, n: int) -> Seq<char>
    decreases n,
{
    if n <= 0 {
        Seq::empty()
    } else {
        spec_str_repeat(s, n - 1) + s
    }
}

/// `left * right`: wrapping product on numbers, IEEE product on
/// floats, repetition when one side is a string and the other a number.
pub open spec fn spec_multiply(a: ValV, b: ValV) -> Result<ValV, ErrorKind> {
    match (a, b) {
        (ValV::Number(x), ValV::Number(y)) => Ok(ValV::Number(x.wrapping_mul(y))),
        (ValV::Float(x), ValV::Float(y)) => Ok(ValV::Float(float_mul(x, y))),
        (ValV::Str(x), ValV::Number(y)) => Ok(ValV::Str(spec_str_repeat(x, y as int))),
        (ValV::Number(x), ValV::Str(y)) => Ok(ValV::Str(spec_str_repeat(y, x as int))),
        _ => Err(ErrorKind::BadArithType),
    }
}

/// `left / right`: truncated division on numbers, with division by
/// zero fatal and the one overflowing quotient wrapping; IEEE division
/// on floats, where dividing by zero follows IEEE-754.
pub open spec fn spec_divide(a: ValV, b: ValV) -> Result<ValV, ErrorKind> {
    match (a, b) {
        (ValV::Number(x), ValV::Number(y)) => {
            if y == 0 {
                Err(ErrorKind::DivisionByZero)
            } else if x == i64::MIN && y == -1 {
                Ok(ValV::Number(i64::MIN))
            } else {
                Ok(ValV::Number(x.checked_div(y).unwrap()))
            }
        },
        (ValV::Float(x), ValV::Float(y)) => Ok(ValV::Float(float_div(x, y))),
        _ => Err(ErrorKind::BadArithType),
    }
}

/// `left % right`: remainder of truncated division, on numbers only.
pub open spec fn spec_modulo(a: ValV, b: ValV) -> Result<ValV, ErrorKind> {
    match (a, b) {
        (ValV::Number(x), ValV::Number(y)) => {
            if y == 0 {
                Err(ErrorKind::DivisionByZero)
            } else if x == i64::MIN && y == -1 {
                Ok(ValV::Number(0))
            } else {
                Ok(ValV::Number(x.checked_rem(y).unwrap()))
            }
        },
        _ => Err(ErrorKind::BadArithType),
    }
}

/// Unary minus on a number (wrapping) or a float (sign flip).
pub open spec fn spec_negate(a: ValV) -> Result<ValV, ErrorKind> {
    match a {
        ValV::Number(x) => Ok(ValV::Number((0 as i64).wrapping_sub(x))),
        ValV::Float(x) => Ok(ValV::Float(f_neg(x))),
        _ => Err(ErrorKind::BadArithType),
    }
}

/// `not` on a boolean.
pub open spec fn spec_not(a: ValV) -> Result<ValV, ErrorKind> {
    match a {
        ValV::Boolean(x) => Ok(ValV::Boolean(!x)),
        _ => Err(ErrorKind::BadLogicType),
    }
}

/// `and` / `or` on two booleans, both already evaluated.
pub open spec fn spec_logic(a: ValV, b: ValV, is_and: bool) -> Result<ValV, ErrorKind> {
    match (a, b) {
        (ValV::Boolean(x), ValV::Boolean(y)) => Ok(
            ValV::Boolean(if is_and { x && y } else { x || y }),
        ),
        _ => Err(ErrorKind::BadLogicType),
    }
}

// ---------------------------------------------------------------------
// Comparisons.

/// Lexicographic order on character sequences, the order `<` gives
/// strings.
pub open spec fn spec_seq_lt(a: Seq<char>, b: Seq<char>) -> bool
    decreases a.len(),
{
    if b.len() == 0 {
        false
    } else if a.len() == 0 {
        true
    } else if a[0] != b[0] {
        (a[0] as u32) < (b[0] as u32)
    } else {
        spec_seq_lt(a.subrange(1, a.len() as int), b.subrange(1, b.len() as int))
    }
}

pub open spec fn spec_seq_le(a: Seq<char>, b: Seq<char>) -> bool {
    !spec_seq_lt(b, a)
}

/// Equality of two values: same-tag semantics, `false` across tags.
/// Floats compare by IEEE equality, not by bits.
pub open spec fn spec_eq_val(a: ValV, b: ValV) -> bool {
    match (a, b) {
        (ValV::Number(x), ValV::Number(y)) => x == y,
        (ValV::Float(x), ValV::Float(y)) => float_eq(x, y),
        (ValV::Str(x), ValV::Str(y)) => x == y,
        (ValV::Boolean(x), ValV::Boolean(y)) => x == y,
        _ => false,
    }
}

/// The four ordering operators, defined within one numeric kind and
/// for strings.
pub open spec fn spec_order(a: ValV, b: ValV, op: OrderOp) -> Result<ValV, ErrorKind> {
    match (a, b) {
        (ValV::Number(x), ValV::Number(y)) => Ok(ValV::Boolean(match op {
            OrderOp::Less => x < y,
            OrderOp::Greater => x > y,
            OrderOp::LessEqual => x <= y,
            OrderOp::GreaterEqual => x >= y,
        })),
        (ValV::Float(x), ValV::Float(y)) => Ok(ValV::Boolean(match op {
            OrderOp::Less => float_lt(x, y),
            OrderOp::Greater => float_gt(x, y),
            OrderOp::LessEqual => float_le(x, y),
            OrderOp::GreaterEqual => float_ge(x, y),
        })),
        (ValV::Str(x), ValV::Str(y)) => Ok(ValV::Boolean(match op {
            OrderOp::Less => spec_seq_lt(x, y),
            OrderOp::Greater => spec_seq_lt(y, x),
            OrderOp::LessEqual => spec_seq_le(x, y),
            OrderOp::GreaterEqual => spec_seq_le(y, x),
        })),
        _ => Err(ErrorKind::BadArithType),
    }
}

#[derive(Clone, Copy, PartialEq, Eq, Structural, Debug)]
pub enum OrderOp {
    Less,
    Greater,
    LessEqual,
    GreaterEqual,
}

// ---------------------------------------------------------------------
// Canonical text and casts.

/// The canonical text of a value: what `echo` prints and what
/// `as string` yields.
pub open spec fn spec_value_text(v: ValV) -> Seq<char> {
    match v {
        ValV::Str(s) => s,
        ValV::Boolean(b) => if b { "true"@ } else { "false"@ },
        ValV::Number(n) => spec_int_text(n as int),
        ValV::Float(f) => float_text(f),
    }
}

/// A cast result: the new value, or a warning where the value already
/// has the target type (the value is then kept unchanged).
pub open spec fn spec_cast_string(v: ValV) -> (ValV, Option<WarningKind>) {
    match v {
        ValV::Str(_) => (v, Some(WarningKind::RedundantConversion)),
        _ => (ValV::Str(spec_value_text(v)), None),
    }
}

pub open spec fn spec_cast_number(v: ValV) -> Result<(ValV, Option<WarningKind>), ErrorKind> {
    match v {
        ValV::Number(_) => Ok((v, Some(WarningKind::RedundantConversion))),
        ValV::Str(s) => match spec_parse_i64(s) {
            Some(n) => Ok((ValV::Number(n), None)),
            None => Err(ErrorKind::NumericParseFail),
        },
        ValV::Float(f) => Ok((ValV::Number(float_trunc_i64(f)), None)),
        ValV::Boolean(b) => Ok((ValV::Number(if b { 1 } else { 0 }), None)),
    }
}

pub open spec fn spec_cast_float(v: ValV) -> Result<(ValV, Option<WarningKind>), ErrorKind> {
    match v {
        ValV::Float(_) => Ok((v, Some(WarningKind::RedundantConversion))),
        ValV::Str(s) => match float_parse(s) {
            Some(f) => Ok((ValV::Float(f), None)),
            None => Err(ErrorKind::NumericParseFail),
        },
        ValV::Number(n) => Ok((ValV::Float(float_of_i64(n)), None)),
        ValV::Boolean(b) => Ok((ValV::Float(if b { F_ONE } else { F_ZERO }), None)),
    }
}

pub open spec fn spec_cast_boolean(v: ValV) -> Result<(ValV, Option<WarningKind>), ErrorKind> {
    match v {
        ValV::Boolean(_) => Ok((v, Some(WarningKind::RedundantConversion))),
        ValV::Str(s) => {
            if s == "true"@ {
                Ok((ValV::Boolean(true), None))
            } else if s == "false"@ {
                Ok((ValV::Boolean(false), None))
            } else {
                Err(ErrorKind::BadBooleanValue)
            }
        },
        ValV::Number(n) => Ok((ValV::Boolean(n == 1), None)),
        ValV::Float(f) => Ok((ValV::Boolean(float_eq(f, F_ONE)), None)),
    }
}

/// The three float functions reached through `as`; only a float is in
/// their domain.
pub open spec fn spec_float_fn(v: ValV, which: FloatFn) -> Result<ValV, ErrorKind> {
    match v {
        ValV::Float(f) => Ok(ValV::Float(match which {
            FloatFn::Sqrt => spec_sqrt(f),
            FloatFn::Sin => spec_sin(f),
            FloatFn::Cos => spec_cos(f),
        })),
        _ => Err(ErrorKind::BadTransCastDomain),
    }
}

#[derive(Clone, Copy, PartialEq, Eq, Structural, Debug)]
pub enum FloatFn {
    Sqrt,
    Sin,
    Cos,
}

// ---------------------------------------------------------------------
// Executable forms, each proved against its specification.

impl Types {
    pub fn add(&self, rhs: &Types) -> (r: Result<Types, ErrorKind>)
        ensures
            (match r {
                Ok(v) => spec_plus(self@, rhs@) == Ok::<ValV, ErrorKind>(v@),
                Err(e) => spec_plus(self@, rhs@) == Err::<ValV, ErrorKind>(e),
            }),
    {
        match (self, rhs) {
            (Types::Number(x), Types::Number(y)) => Ok(Types::Number(x.wrapping_add(*y))),
            (Types::Float(x), Types::Float(y)) => Ok(Types::Float(apf_add(*x, *y))),
            (Types::String(x), Types::String(y)) => {
                let joined = x.clone().concat(y.as_str());
                Ok(Types::String(joined))
            },
            _ => Err(ErrorKind::BadArithType),
        }
    }

    pub fn sub(&self, rhs: &Types) -> (r: Result<Types, ErrorKind>)
        ensures
            (match r {
                Ok(v) => spec_minus(self@, rhs@) == Ok::<ValV, ErrorKind>(v@),
                Err(e) => spec_minus(self@, rhs@) == Err::<ValV, ErrorKind>(e),
            }),
    {
        match (self, rhs) {
            (Types::Number(x), Types::Number(y)) => Ok(Types::Number(x.wrapping_sub(*y))),
            (Types::Float(x), Types::Float(y)) => Ok(Types::Float(apf_sub(*x, *y))),
            _ => Err(ErrorKind::BadArithType),
        }
    }

    pub fn mul(&self, rhs: &Types) -> (r: Result<Types, ErrorKind>)
        ensures
            (match r {
                Ok(v) => spec_multiply(self@, rhs@) == Ok::<ValV, ErrorKind>(v@),
                Err(e) => spec_multiply(self@, rhs@) == Err::<ValV, ErrorKind>(e),
            }),
    {
        match (self, rhs) {
            (Types::Number(x), Types::Number(y)) => Ok(Types::Number(x.wrapping_mul(*y))),
            (Types::Float(x), Types::Float(y)) => Ok(Types::Float(apf_mul(*x, *y))),
            (Types::String(x), Types::Number(y)) => Ok(Types::String(repeat_string(x, *y))),
            (Types::Number(x), Types::String(y)) => Ok(Types::String(repeat_string(y, *x))),
            _ => Err(ErrorKind::BadArithType),
        }
    }

    pub fn div(&self, rhs: &Types) -> (r: Result<Types, ErrorKind>)
        ensures
            (match r {
                Ok(v) => spec_divide(self@, rhs@) == Ok::<ValV, ErrorKind>(v@),
                Err(e) => spec_divide(self@, rhs@) == Err::<ValV, ErrorKind>(e),
            }),
    {
        match (self, rhs) {
            (Types::Number(x), Types::Number(y)) => {
                if *y == 0 {
                    Err(ErrorKind::DivisionByZero)
                } else if *x == i64::MIN && *y == -1 {
                    Ok(Types::Number(i64::MIN))
                } else {
                    proof {
                        lemma_checked_div_fits(*x, *y);
                    }
                    Ok(Types::Number(x.checked_div(*y).unwrap()))
                }
            },
            (Types::Float(x), Types::Float(y)) => Ok(Types::Float(apf_div(*x, *y))),
            _ => Err(ErrorKind::BadArithType),
        }
    }

    pub fn rem(&self, rhs: &Types) -> (r: Result<Types, ErrorKind>)
        ensures
            (match r {
                Ok(v) => spec_modulo(self@, rhs@) == Ok::<ValV, ErrorKind>(v@),
                Err(e) => spec_modulo(self@, rhs@) == Err::<ValV, ErrorKind>(e),
            }),
    {
        match (self, rhs) {
            (Types::Number(x), Types::Number(y)) => {
                if *y == 0 {
                    Err(ErrorKind::DivisionByZero)
                } else if *x == i64::MIN && *y == -1 {
                    Ok(Types::Number(0))
                } else {
                    Ok(Types::Number(x.checked_rem(*y).unwrap()))
                }
            },
            _ => Err(ErrorKind::BadArithType),
        }
    }

    pub fn negate(&self) -> (r: Result<Types, ErrorKind>)
        ensures
            (match r {
                Ok(v) => spec_negate(self@) == Ok::<ValV, ErrorKind>(v@),
                Err(e) => spec_negate(self@) == Err::<ValV, ErrorKind>(e),
            }),
    {
        match self {
            Types::Number(x) => {
                if *x == i64::MIN {
                    Ok(Types::Number(i64::MIN))
                } else {
                    Ok(Types::Number(-*x))
                }
            },
            Types::Float(x) => Ok(Types::Float(f64_neg(*x))),
            _ => Err(ErrorKind::BadArithType),
        }
    }

    pub fn logic_not(&self) -> (r: Result<Types, ErrorKind>)
        ensures
            (match r {
                Ok(v) => spec_not(self@) == Ok::<ValV, ErrorKind>(v@),
                Err(e) => spec_not(self@) == Err::<ValV, ErrorKind>(e),
            }),
    {
        match self {
            Types::Boolean(x) => Ok(Types::Boolean(!*x)),
            _ => Err(ErrorKind::BadLogicType),
        }
    }

    pub fn logic(&self, rhs: &Types, is_and: bool) -> (r: Result<Types, ErrorKind>)
        ensures
            (match r {
                Ok(v) => spec_logic(self@, rhs@, is_and) == Ok::<ValV, ErrorKind>(v@),
                Err(e) => spec_logic(self@, rhs@, is_and) == Err::<ValV, ErrorKind>(e),
            }),
    {
        match (self, rhs) {
            (Types::Boolean(x), Types::Boolean(y)) => Ok(
                Types::Boolean(if is_and { *x && *y } else { *x || *y }),
            ),
            _ => Err(ErrorKind::BadLogicType),
        }
    }

    pub fn value_eq(&self, rhs: &Types) -> (r: bool)
        ensures
            r == spec_eq_val(self@, rhs@),
    {
        match (self, rhs) {
            (Types::Number(x), Types::Number(y)) => *x == *y,
            (Types::Float(x), Types::Float(y)) => apf_eq(*x, *y),
            (Types::String(x), Types::String(y)) => str_eq(x.as_str(), y.as_str()),
            (Types::Boolean(x), Types::Boolean(y)) => *x == *y,
            _ => false,
        }
    }

    pub fn order(&self, rhs: &Types, op: OrderOp) -> (r: Result<Types, ErrorKind>)
        ensures
            (match r {
                Ok(v) => spec_order(self@, rhs@, op) == Ok::<ValV, ErrorKind>(v@),
                Err(e) => spec_order(self@, rhs@, op) == Err::<ValV, ErrorKind>(e),
            }),
    {
        match (self, rhs) {
            (Types::Number(x), Types::Number(y)) => Ok(Types::Boolean(match op {
                OrderOp::Less => *x < *y,
                OrderOp::Greater => *x > *y,
                OrderOp::LessEqual => *x <= *y,
                OrderOp::GreaterEqual => *x >= *y,
            })),
            (Types::Float(x), Types::Float(y)) => Ok(Types::Boolean(match op {
                OrderOp::Less => apf_lt(*x, *y),
                OrderOp::Greater => apf_lt(*y, *x),
                OrderOp::LessEqual => apf_le(*x, *y),
                OrderOp::GreaterEqual => apf_le(*y, *x),
            })),
            (Types::String(x), Types::String(y)) => Ok(Types::Boolean(match op {
                OrderOp::Less => str_lt(x, y),
                OrderOp::Greater => str_lt(y, x),
                OrderOp::LessEqual => !str_lt(y, x),
                OrderOp::GreaterEqual => !str_lt(x, y),
            })),
            _ => Err(ErrorKind::BadArithType),
        }
    }

    /// The canonical text of this value.
    pub fn to_text(&self) -> (r: String)
        ensures
            r@ == spec_value_text(self@),
    {
        match self {
            Types::String(s) => s.clone(),
            Types::Boolean(b) => if *b {
                "true".to_owned()
            } else {
                "false".to_owned()
            },
            Types::Number(n) => i64_to_string(*n),
            Types::Float(f) => apf_text(*f),
        }
    }

    pub fn cast_string(&self) -> (r: (Types, Option<WarningKind>))
        ensures
            (r.0@, r.1) == spec_cast_string(self@),
    {
        match self {
            Types::String(s) => (
                Types::String(s.clone()),
                Some(WarningKind::RedundantConversion),
            ),
            _ => (Types::String(self.to_text()), None),
        }
    }

    pub fn cast_number(&self) -> (r: Result<(Types, Option<WarningKind>), ErrorKind>)
        ensures
            (match r {
                Ok(v) => spec_cast_number(self@) == Ok::<(ValV, Option<WarningKind>), ErrorKind>(
                    (v.0@, v.1),
                ),
                Err(e) => spec_cast_number(self@) == Err::<(ValV, Option<WarningKind>), ErrorKind>(
                    e,
                ),
            }),
    {
        match self {
            Types::Number(n) => Ok((Types::Number(*n), Some(WarningKind::RedundantConversion))),
            Types::String(s) => {
                let cs = chars_of_str(s.as_str());
                match parse_i64(&cs) {
                    Some(n) => Ok((Types::Number(n), None)),
                    None => Err(ErrorKind::NumericParseFail),
                }
            },
            Types::Float(f) => Ok((Types::Number(apf_trunc_i64(*f)), None)),
            Types::Boolean(b) => Ok((Types::Number(if *b { 1 } else { 0 }), None)),
        }
    }

    pub fn cast_float(&self) -> (r: Result<(Types, Option<WarningKind>), ErrorKind>)
        ensures
            (match r {
                Ok(v) => spec_cast_float(self@) == Ok::<(ValV, Option<WarningKind>), ErrorKind>(
                    (v.0@, v.1),
                ),
                Err(e) => spec_cast_float(self@) == Err::<(ValV, Option<WarningKind>), ErrorKind>(
                    e,
                ),
            }),
    {
        match self {
            Types::Float(f) => Ok((Types::Float(*f), Some(WarningKind::RedundantConversion))),
            Types::String(s) => match apf_parse(s.as_str()) {
                Some(f) => Ok((Types::Float(f), None)),
                None => Err(ErrorKind::NumericParseFail),
            },
            Types::Number(n) => Ok((Types::Float(apf_of_i64(*n)), None)),
            Types::Boolean(b) => Ok((Types::Float(if *b { F_ONE } else { F_ZERO }), None)),
        }
    }

    pub fn cast_boolean(&self) -> (r: Result<(Types, Option<WarningKind>), ErrorKind>)
        ensures
            (match r {
                Ok(v) => spec_cast_boolean(self@) == Ok::<(ValV, Option<WarningKind>), ErrorKind>(
                    (v.0@, v.1),
                ),
                Err(e) => spec_cast_boolean(self@) == Err::<
                    (ValV, Option<WarningKind>),
                    ErrorKind,
                >(e),
            }),
    {
        match self {
            Types::Boolean(b) => Ok((Types::Boolean(*b), Some(WarningKind::RedundantConversion))),
            Types::String(s) => {
                if str_eq(s.as_str(), "true") {
                    Ok((Types::Boolean(true), None))
                } else if str_eq(s.as_str(), "false") {
                    Ok((Types::Boolean(false), None))
                } else {
                    Err(ErrorKind::BadBooleanValue)
                }
            },
            Types::Number(n) => Ok((Types::Boolean(*n == 1), None)),
            Types::Float(f) => Ok((Types::Boolean(apf_eq(*f, F_ONE)), None)),
        }
    }

    pub fn float_fn(&self, which: FloatFn) -> (r: Result<Types, ErrorKind>)
        ensures
            (match r {
                Ok(v) => spec_float_fn(self@, which) == Ok::<ValV, ErrorKind>(v@),
                Err(e) => spec_float_fn(self@, which) == Err::<ValV, ErrorKind>(e),
            }),
    {
        match self {
            Types::Float(f) => Ok(Types::Float(match which {
                FloatFn::Sqrt => f64_sqrt(*f),
                FloatFn::Sin => f64_sin(*f),
                FloatFn::Cos => f64_cos(*f),
            })),
            _ => Err(ErrorKind::BadTransCastDomain),
        }
    }
}

proof fn lemma_checked_div_fits(x: i64, y: i64)
    requires
        y != 0,
        !(x == i64::MIN && y == -1),
    ensures
        x.checked_div(y) is Some,
{
    let xi = x as int;
    let di = y as int;
    if xi == 0 {
    } else if xi > 0 && di > 0 {
        lemma_div_nonincreasing(xi, di);
        lemma_div_pos_is_pos(xi, di);
    } else if xi < 0 && di < 0 {
        lemma_div_nonincreasing(-xi, -di);
        lemma_div_pos_is_pos(-xi, -di);
        if di == -1 {
            assert(xi > i64::MIN);
        } else {
            lemma_div_is_ordered_by_denominator(-xi, 2, -di);
            lemma_div_is_ordered(-xi, 0x8000_0000_0000_0000, 2);
            assert(0x8000_0000_0000_0000int / 2 == 0x4000_0000_0000_0000int) by (nonlinear_arith);
        }
    } else if xi < 0 {
        lemma_div_nonincreasing(-xi, di);
        lemma_div_pos_is_pos(-xi, di);
    } else {
        lemma_div_nonincreasing(xi, -di);
        lemma_div_pos_is_pos(xi, -di);
    }
}

fn repeat_string(s: &String, n: i64) -> (r: String)
    ensures
        r@ == spec_str_repeat(s@, n as int),
{
    let mut acc = String::new();
    if n <= 0 {
        return acc;
    }
    let total: u64 = n as u64;
    let mut k: u64 = 0;
    while k < total
        invariant
            k <= total,
            acc@ == spec_str_repeat(s@, k as int),
        decreases total - k,
    {
        acc = acc.concat(s.as_str());
        k = k + 1;
    }
    acc
}

proof fn lemma_seq_lt_skip(a: Seq<char>, b: Seq<char>, i: int)
    requires
        0 <= i <= a.len(),
        0 <= i <= b.len(),
        forall|j: int| 0 <= j < i ==> a[j] == b[j],
    ensures
        spec_seq_lt(a, b) == spec_seq_lt(a.subrange(i, a.len() as int), b.subrange(i, b.len() as int)),
    decreases i,
{
    if i == 0 {
        assert(a.subrange(0, a.len() as int) =~= a);
        assert(b.subrange(0, b.len() as int) =~= b);
    } else {
        assert(a.len() > 0 && b.len() > 0);
        assert(a[0] == b[0]);
        let a1 = a.subrange(1, a.len() as int);
        let b1 = b.subrange(1, b.len() as int);
        lemma_seq_lt_skip(a1, b1, i - 1);
        assert(a1.subrange(i - 1, a1.len() as int) =~= a.subrange(i, a.len() as int));
        assert(b1.subrange(i - 1, b1.len() as int) =~= b.subrange(i, b.len() as int));
    }
}

/// Lexicographic `<` on two strings, by characters.
fn str_lt(a: &String, b: &String) -> (r: bool)
    ensures
        r == spec_seq_lt(a@, b@),
{
    let alen = a.as_str().unicode_len();
    let blen = b.as_str().unicode_len();
    let mut i: usize = 0;
    loop
        invariant
            alen == a@.len(),
            blen == b@.len(),
            i <= alen,
            i <= blen,
            forall|j: int| 0 <= j < i ==> a@[j] == b@[j],
        decreases alen - i,
    {
        proof {
            lemma_seq_lt_skip(a@, b@, i as int);
        }
        if i >= blen {
            // b is a prefix of a (or both ended): not less.
            return false;
        }
        if i >= alen {
            // a is a strict prefix of b.
            return true;
        }
        let ca = a.as_str().get_char(i);
        let cb = b.as_str().get_char(i);
        if ca != cb {
            return (ca as u32) < (cb as u32);
        }
        i = i + 1;
    }
}

} // verus!
