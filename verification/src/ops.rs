//! The operator model: the binary and unary operations over values, defined
//! exactly for the combinations the language admits and failing with
//! `InvalidOperands`/`InvalidUnaryOperand` on every other one. Numeric pairs
//! promote to float exactly when one operand is a float; the float results
//! themselves come from the embedder's [`FloatMath`] and are not constrained.

use vstd::prelude::*;

use crate::arena::{keys_bounded, Arena};
use crate::bytecode::{BinOp, UnaryOp};
use crate::error::ErrorKind;
use crate::sources::CodeArea;
use crate::value::{
    dup_keys, FloatMath, IterState, MacroCode, Pattern, StoredValue, Value, ValueKey,
    spec_get_type, spec_matches_pat,
};

verus! {

/// Whether both values are numbers.
pub open spec fn num_pair(a: Value, b: Value) -> bool {
    &&& (a is Int || a is Float)
    &&& (b is Int || b is Float)
}

/// Whether the pair is numeric with at least one float, so that the result
/// is promoted to float.
pub open spec fn promotes(a: Value, b: Value) -> bool {
    num_pair(a, b) && !(a is Int && b is Int)
}

/// The error raised when a binary operator meets operands it is not defined
/// for: both operand types with their areas, the operator, and the area of
/// the operation itself.
pub open spec fn invalid_operands(a: StoredValue, b: StoredValue, op: BinOp, area: CodeArea)
    -> ErrorKind {
    ErrorKind::InvalidOperands {
        a: (spec_get_type(a.value), a.area),
        b: (spec_get_type(b.value), b.area),
        op,
        area,
    }
}

/// The error raised when a unary operator meets an operand it is not defined
/// for.
pub open spec fn invalid_unary_operand(a: StoredValue, op: UnaryOp, area: CodeArea) -> ErrorKind {
    ErrorKind::InvalidUnaryOperand { v: (spec_get_type(a.value), a.area), op, area }
}

/// `s` repeated `n` times.
pub open spec fn repeat_seq(s: Seq<char>, n: nat) -> Seq<char>
    decreases n,
{
    if n == 0 {
        Seq::empty()
    } else {
        repeat_seq(s, (n - 1) as nat) + s
    }
}

/// `s` repeated `n` times.
fn repeat_str(s: &str, n: u64) -> (r: String)
    ensures
        r@ == repeat_seq(s@, n as nat),
{
    let mut out = String::new();
    let mut i: u64 = 0;
    proof {
        assert(out@ =~= repeat_seq(s@, 0));
    }
    while i < n
        invariant
            i <= n,
            out@ == repeat_seq(s@, i as nat),
        decreases n - i,
    {
        out.append(s);
        i = i + 1;
    }
    out
}

/// The `+` operator: integer addition (wrapping on overflow), float
/// addition, string concatenation, or array concatenation; every other
/// combination is invalid. A numeric result is a float exactly when one
/// operand is.
pub fn plus<F: FloatMath>(a: &StoredValue, b: &StoredValue, area: CodeArea, fm: &F) -> (r: Result<
    StoredValue,
    ErrorKind,
>)
    ensures
        a.value matches Value::Int(x) ==> b.value matches Value::Int(y) ==> (r matches Ok(sv)
            && sv.value == Value::Int(x.wrapping_add(y)) && sv.area == area),
        promotes(a.value, b.value) ==> (r matches Ok(sv) && sv.value is Float && sv.area == area),
        a.value matches Value::String(s1) ==> b.value matches Value::String(s2) ==> (r matches Ok(sv)
            && sv.value matches Value::String(s3) && s3@ == s1@ + s2@ && sv.area == area),
        a.value matches Value::Array(k1) ==> b.value matches Value::Array(k2) ==> (r matches Ok(sv)
            && sv.value matches Value::Array(k3) && k3@ == k1@ + k2@ && sv.area == area),
        !(num_pair(a.value, b.value) || (a.value is String && b.value is String) || (a.value
            is Array && b.value is Array)) ==> r == Result::<StoredValue, ErrorKind>::Err(
            invalid_operands(*a, *b, BinOp::Plus, area),
        ),
{
    let value = match (&a.value, &b.value) {
        (Value::Int(n1), Value::Int(n2)) => Value::Int(n1.wrapping_add(*n2)),
        (Value::Int(n1), Value::Float(f2)) => Value::Float(fm.add(fm.of_int(*n1), *f2)),
        (Value::Float(f1), Value::Int(n2)) => Value::Float(fm.add(*f1, fm.of_int(*n2))),
        (Value::Float(f1), Value::Float(f2)) => Value::Float(fm.add(*f1, *f2)),
        (Value::String(s1), Value::String(s2)) => Value::String(
            s1.clone().concat(s2.as_str()),
        ),
        (Value::Array(k1), Value::Array(k2)) => {
            let mut ks = dup_keys(k1);
            let mut tail = dup_keys(k2);
            ks.append(&mut tail);
            Value::Array(ks)
        },
        _ => {
            return Err(
                ErrorKind::InvalidOperands {
                    a: (a.value.get_type(), a.area.dup()),
                    b: (b.value.get_type(), b.area.dup()),
                    op: BinOp::Plus,
                    area,
                },
            );
        },
    };
    Ok(StoredValue { value, area })
}

/// The `-` operator: integer subtraction (wrapping on overflow) or float
/// subtraction; the result is a float exactly when one operand is.
pub fn minus<F: FloatMath>(a: &StoredValue, b: &StoredValue, area: CodeArea, fm: &F) -> (r: Result<
    StoredValue,
    ErrorKind,
>)
    ensures
        a.value matches Value::Int(x) ==> b.value matches Value::Int(y) ==> (r matches Ok(sv)
            && sv.value == Value::Int(x.wrapping_sub(y)) && sv.area == area),
        promotes(a.value, b.value) ==> (r matches Ok(sv) && sv.value is Float && sv.area == area),
        !num_pair(a.value, b.value) ==> r == Result::<StoredValue, ErrorKind>::Err(
            invalid_operands(*a, *b, BinOp::Minus, area),
        ),
{
    let value = match (&a.value, &b.value) {
        (Value::Int(n1), Value::Int(n2)) => Value::Int(n1.wrapping_sub(*n2)),
        (Value::Int(n1), Value::Float(f2)) => Value::Float(fm.sub(fm.of_int(*n1), *f2)),
        (Value::Float(f1), Value::Int(n2)) => Value::Float(fm.sub(*f1, fm.of_int(*n2))),
        (Value::Float(f1), Value::Float(f2)) => Value::Float(fm.sub(*f1, *f2)),
        _ => {
            return Err(
                ErrorKind::InvalidOperands {
                    a: (a.value.get_type(), a.area.dup()),
                    b: (b.value.get_type(), b.area.dup()),
                    op: BinOp::Minus,
                    area,
                },
            );
        },
    };
    Ok(StoredValue { value, area })
}

/// The `*` operator: integer multiplication (wrapping on overflow), float
/// multiplication, or a string repeated `max(n, 0)` times; the numeric
/// result is a float exactly when one operand is.
pub fn mult<F: FloatMath>(a: &StoredValue, b: &StoredValue, area: CodeArea, fm: &F) -> (r: Result<
    StoredValue,
    ErrorKind,
>)
    ensures
        a.value matches Value::Int(x) ==> b.value matches Value::Int(y) ==> (r matches Ok(sv)
            && sv.value == Value::Int(x.wrapping_mul(y)) && sv.area == area),
        promotes(a.value, b.value) ==> (r matches Ok(sv) && sv.value is Float && sv.area == area),
        a.value matches Value::Int(n) ==> b.value matches Value::String(s) ==> (r matches Ok(sv)
            && sv.value matches Value::String(s2) && s2@ == repeat_seq(
            s@,
            if n < 0 {
                0
            } else {
                n as nat
            },
        ) && sv.area == area),
        a.value matches Value::String(s) ==> b.value matches Value::Int(n) ==> (r matches Ok(sv)
            && sv.value matches Value::String(s2) && s2@ == repeat_seq(
            s@,
            if n < 0 {
                0
            } else {
                n as nat
            },
        ) && sv.area == area),
        !(num_pair(a.value, b.value) || (a.value is Int && b.value is String) || (a.value is String
            && b.value is Int)) ==> r == Result::<StoredValue, ErrorKind>::Err(
            invalid_operands(*a, *b, BinOp::Mult, area),
        ),
{
    let value = match (&a.value, &b.value) {
        (Value::Int(n1), Value::Int(n2)) => Value::Int(n1.wrapping_mul(*n2)),
        (Value::Int(n1), Value::Float(f2)) => Value::Float(fm.mul(fm.of_int(*n1), *f2)),
        (Value::Float(f1), Value::Int(n2)) => Value::Float(fm.mul(*f1, fm.of_int(*n2))),
        (Value::Float(f1), Value::Float(f2)) => Value::Float(fm.mul(*f1, *f2)),
        (Value::Int(n), Value::String(s)) => {
            let cnt: u64 = if *n < 0 {
                0
            } else {
                *n as u64
            };
            Value::String(repeat_str(s.as_str(), cnt))
        },
        (Value::String(s), Value::Int(n)) => {
            let cnt: u64 = if *n < 0 {
                0
            } else {
                *n as u64
            };
            Value::String(repeat_str(s.as_str(), cnt))
        },
        _ => {
            return Err(
                ErrorKind::InvalidOperands {
                    a: (a.value.get_type(), a.area.dup()),
                    b: (b.value.get_type(), b.area.dup()),
                    op: BinOp::Mult,
                    area,
                },
            );
        },
    };
    Ok(StoredValue { value, area })
}

/// The `/` operator over numbers; the result is a float exactly when one
/// operand is. Integer division by zero, and the one overflowing integer
/// division, are machine-integrity failures reported as thrown errors, since
/// the closed taxonomy has no kind for them.
pub fn div<F: FloatMath>(a: &StoredValue, b: &StoredValue, area: CodeArea, fm: &F) -> (r: Result<
    StoredValue,
    ErrorKind,
>)
    ensures
        a.value matches Value::Int(x) ==> b.value matches Value::Int(y) ==> (match x.checked_div(
            y,
        ) {
            Some(q) => r matches Ok(sv) && sv.value == Value::Int(q) && sv.area == area,
            None => r matches Err(e) && e matches ErrorKind::ThrownError { area: earea, .. }
                && earea == area,
        }),
        promotes(a.value, b.value) ==> (r matches Ok(sv) && sv.value is Float && sv.area == area),
        !num_pair(a.value, b.value) ==> r == Result::<StoredValue, ErrorKind>::Err(
            invalid_operands(*a, *b, BinOp::Div, area),
        ),
{
    let value = match (&a.value, &b.value) {
        (Value::Int(n1), Value::Int(n2)) => {
            match n1.checked_div(*n2) {
                Some(q) => Value::Int(q),
                None => {
                    return Err(
                        ErrorKind::ThrownError {
                            area,
                            message: if *n2 == 0 {
                                "division by zero".to_owned()
                            } else {
                                "integer overflow".to_owned()
                            },
                        },
                    );
                },
            }
        },
        (Value::Int(n1), Value::Float(f2)) => Value::Float(fm.div(fm.of_int(*n1), *f2)),
        (Value::Float(f1), Value::Int(n2)) => Value::Float(fm.div(*f1, fm.of_int(*n2))),
        (Value::Float(f1), Value::Float(f2)) => Value::Float(fm.div(*f1, *f2)),
        _ => {
            return Err(
                ErrorKind::InvalidOperands {
                    a: (a.value.get_type(), a.area.dup()),
                    b: (b.value.get_type(), b.area.dup()),
                    op: BinOp::Div,
                    area,
                },
            );
        },
    };
    Ok(StoredValue { value, area })
}

/// The `%` operator over numbers; the result is a float exactly when one
/// operand is. An integer remainder by zero, and the one overflowing case,
/// are reported like the corresponding divisions.
pub fn modulo<F: FloatMath>(a: &StoredValue, b: &StoredValue, area: CodeArea, fm: &F) -> (r:
    Result<StoredValue, ErrorKind>)
    ensures
        a.value matches Value::Int(x) ==> b.value matches Value::Int(y) ==> (if y != 0 && !(x
            == i64::MIN && y == -1) {
            r matches Ok(sv) && sv.value == Value::Int(x.checked_rem(y)->0) && sv.area == area
        } else {
            r matches Err(e) && e matches ErrorKind::ThrownError { area: earea, .. } && earea
                == area
        }),
        promotes(a.value, b.value) ==> (r matches Ok(sv) && sv.value is Float && sv.area == area),
        !num_pair(a.value, b.value) ==> r == Result::<StoredValue, ErrorKind>::Err(
            invalid_operands(*a, *b, BinOp::Mod, area),
        ),
{
    let value = match (&a.value, &b.value) {
        (Value::Int(n1), Value::Int(n2)) => {
            match n1.checked_rem(*n2) {
                Some(q) => Value::Int(q),
                None => {
                    return Err(
                        ErrorKind::ThrownError {
                            area,
                            message: if *n2 == 0 {
                                "remainder by zero".to_owned()
                            } else {
                                "integer overflow".to_owned()
                            },
                        },
                    );
                },
            }
        },
        (Value::Int(n1), Value::Float(f2)) => Value::Float(fm.rem(fm.of_int(*n1), *f2)),
        (Value::Float(f1), Value::Int(n2)) => Value::Float(fm.rem(*f1, fm.of_int(*n2))),
        (Value::Float(f1), Value::Float(f2)) => Value::Float(fm.rem(*f1, *f2)),
        _ => {
            return Err(
                ErrorKind::InvalidOperands {
                    a: (a.value.get_type(), a.area.dup()),
                    b: (b.value.get_type(), b.area.dup()),
                    op: BinOp::Mod,
                    area,
                },
            );
        },
    };
    Ok(StoredValue { value, area })
}

/// The `^` operator over numbers. On two integers it computes
/// `floor(pow(a, b))` truncated to an integer; with a float operand the
/// result is a float. Both come from the embedder's float unit.
pub fn pow<F: FloatMath>(a: &StoredValue, b: &StoredValue, area: CodeArea, fm: &F) -> (r: Result<
    StoredValue,
    ErrorKind,
>)
    ensures
        a.value is Int && b.value is Int ==> (r matches Ok(sv) && sv.value is Int && sv.area
            == area),
        promotes(a.value, b.value) ==> (r matches Ok(sv) && sv.value is Float && sv.area == area),
        !num_pair(a.value, b.value) ==> r == Result::<StoredValue, ErrorKind>::Err(
            invalid_operands(*a, *b, BinOp::Pow, area),
        ),
{
    let value = match (&a.value, &b.value) {
        (Value::Int(n1), Value::Int(n2)) => Value::Int(fm.ipow(*n1, *n2)),
        (Value::Int(n1), Value::Float(f2)) => Value::Float(fm.pow(fm.of_int(*n1), *f2)),
        (Value::Float(f1), Value::Int(n2)) => Value::Float(fm.pow(*f1, fm.of_int(*n2))),
        (Value::Float(f1), Value::Float(f2)) => Value::Float(fm.pow(*f1, *f2)),
        _ => {
            return Err(
                ErrorKind::InvalidOperands {
                    a: (a.value.get_type(), a.area.dup()),
                    b: (b.value.get_type(), b.area.dup()),
                    op: BinOp::Pow,
                    area,
                },
            );
        },
    };
    Ok(StoredValue { value, area })
}

/// The unary `-` operator: negates a number. Negating `i64::MIN` wraps.
pub fn unary_negate<F: FloatMath>(a: &StoredValue, area: CodeArea, fm: &F) -> (r: Result<
    StoredValue,
    ErrorKind,
>)
    ensures
        a.value matches Value::Int(x) ==> (r matches Ok(sv) && sv.value == Value::Int(
            (0i64).wrapping_sub(x),
        ) && sv.area == area),
        a.value is Float ==> (r matches Ok(sv) && sv.value is Float && sv.area == area),
        !(a.value is Int || a.value is Float) ==> r == Result::<StoredValue, ErrorKind>::Err(
            invalid_unary_operand(*a, UnaryOp::Minus, area),
        ),
{
    let value = match &a.value {
        Value::Int(n) => Value::Int((0i64).wrapping_sub(*n)),
        Value::Float(f) => Value::Float(fm.neg(*f)),
        _ => {
            return Err(
                ErrorKind::InvalidUnaryOperand {
                    v: (a.value.get_type(), a.area.dup()),
                    op: UnaryOp::Minus,
                    area,
                },
            );
        },
    };
    Ok(StoredValue { value, area })
}

/// The unary `!` operator: negates a boolean.
pub fn unary_not(a: &StoredValue, area: CodeArea) -> (r: Result<StoredValue, ErrorKind>)
    ensures
        a.value matches Value::Bool(v) ==> (r matches Ok(sv) && sv.value == Value::Bool(!v)
            && sv.area == area),
        !(a.value is Bool) ==> r == Result::<StoredValue, ErrorKind>::Err(
            invalid_unary_operand(*a, UnaryOp::ExclMark, area),
        ),
{
    match &a.value {
        Value::Bool(v) => Ok(StoredValue { value: Value::Bool(!*v), area }),
        _ => Err(
            ErrorKind::InvalidUnaryOperand {
                v: (a.value.get_type(), a.area.dup()),
                op: UnaryOp::ExclMark,
                area,
            },
        ),
    }
}

/// The `>` operator over numbers.
pub fn greater<F: FloatMath>(a: &StoredValue, b: &StoredValue, area: CodeArea, fm: &F) -> (r:
    Result<StoredValue, ErrorKind>)
    ensures
        a.value matches Value::Int(x) ==> b.value matches Value::Int(y) ==> (r matches Ok(sv)
            && sv.value == Value::Bool(x > y) && sv.area == area),
        promotes(a.value, b.value) ==> (r matches Ok(sv) && sv.value is Bool && sv.area == area),
        !num_pair(a.value, b.value) ==> r == Result::<StoredValue, ErrorKind>::Err(
            invalid_operands(*a, *b, BinOp::Gt, area),
        ),
{
    let value = match (&a.value, &b.value) {
        (Value::Int(n1), Value::Int(n2)) => Value::Bool(*n1 > *n2),
        (Value::Int(n1), Value::Float(f2)) => Value::Bool(fm.gt(fm.of_int(*n1), *f2)),
        (Value::Float(f1), Value::Int(n2)) => Value::Bool(fm.gt(*f1, fm.of_int(*n2))),
        (Value::Float(f1), Value::Float(f2)) => Value::Bool(fm.gt(*f1, *f2)),
        _ => {
            return Err(
                ErrorKind::InvalidOperands {
                    a: (a.value.get_type(), a.area.dup()),
                    b: (b.value.get_type(), b.area.dup()),
                    op: BinOp::Gt,
                    area,
                },
            );
        },
    };
    Ok(StoredValue { value, area })
}

/// The `>=` operator over numbers.
pub fn greater_eq<F: FloatMath>(a: &StoredValue, b: &StoredValue, area: CodeArea, fm: &F) -> (r:
    Result<StoredValue, ErrorKind>)
    ensures
        a.value matches Value::Int(x) ==> b.value matches Value::Int(y) ==> (r matches Ok(sv)
            && sv.value == Value::Bool(x >= y) && sv.area == area),
        promotes(a.value, b.value) ==> (r matches Ok(sv) && sv.value is Bool && sv.area == area),
        !num_pair(a.value, b.value) ==> r == Result::<StoredValue, ErrorKind>::Err(
            invalid_operands(*a, *b, BinOp::Gte, area),
        ),
{
    let value = match (&a.value, &b.value) {
        (Value::Int(n1), Value::Int(n2)) => Value::Bool(*n1 >= *n2),
        (Value::Int(n1), Value::Float(f2)) => Value::Bool(fm.ge(fm.of_int(*n1), *f2)),
        (Value::Float(f1), Value::Int(n2)) => Value::Bool(fm.ge(*f1, fm.of_int(*n2))),
        (Value::Float(f1), Value::Float(f2)) => Value::Bool(fm.ge(*f1, *f2)),
        _ => {
            return Err(
                ErrorKind::InvalidOperands {
                    a: (a.value.get_type(), a.area.dup()),
                    b: (b.value.get_type(), b.area.dup()),
                    op: BinOp::Gte,
                    area,
                },
            );
        },
    };
    Ok(StoredValue { value, area })
}

/// The `<` operator over numbers.
pub fn lesser<F: FloatMath>(a: &StoredValue, b: &StoredValue, area: CodeArea, fm: &F) -> (r:
    Result<StoredValue, ErrorKind>)
    ensures
        a.value matches Value::Int(x) ==> b.value matches Value::Int(y) ==> (r matches Ok(sv)
            && sv.value == Value::Bool(x < y) && sv.area == area),
        promotes(a.value, b.value) ==> (r matches Ok(sv) && sv.value is Bool && sv.area == area),
        !num_pair(a.value, b.value) ==> r == Result::<StoredValue, ErrorKind>::Err(
            invalid_operands(*a, *b, BinOp::Lt, area),
        ),
{
    let value = match (&a.value, &b.value) {
        (Value::Int(n1), Value::Int(n2)) => Value::Bool(*n1 < *n2),
        (Value::Int(n1), Value::Float(f2)) => Value::Bool(fm.lt(fm.of_int(*n1), *f2)),
        (Value::Float(f1), Value::Int(n2)) => Value::Bool(fm.lt(*f1, fm.of_int(*n2))),
        (Value::Float(f1), Value::Float(f2)) => Value::Bool(fm.lt(*f1, *f2)),
        _ => {
            return Err(
                ErrorKind::InvalidOperands {
                    a: (a.value.get_type(), a.area.dup()),
                    b: (b.value.get_type(), b.area.dup()),
                    op: BinOp::Lt,
                    area,
                },
            );
        },
    };
    Ok(StoredValue { value, area })
}

/// The `<=` operator over numbers.
pub fn lesser_eq<F: FloatMath>(a: &StoredValue, b: &StoredValue, area: CodeArea, fm: &F) -> (r:
    Result<StoredValue, ErrorKind>)
    ensures
        a.value matches Value::Int(x) ==> b.value matches Value::Int(y) ==> (r matches Ok(sv)
            && sv.value == Value::Bool(x <= y) && sv.area == area),
        promotes(a.value, b.value) ==> (r matches Ok(sv) && sv.value is Bool && sv.area == area),
        !num_pair(a.value, b.value) ==> r == Result::<StoredValue, ErrorKind>::Err(
            invalid_operands(*a, *b, BinOp::Lte, area),
        ),
{
    let value = match (&a.value, &b.value) {
        (Value::Int(n1), Value::Int(n2)) => Value::Bool(*n1 <= *n2),
        (Value::Int(n1), Value::Float(f2)) => Value::Bool(fm.le(fm.of_int(*n1), *f2)),
        (Value::Float(f1), Value::Int(n2)) => Value::Bool(fm.le(*f1, fm.of_int(*n2))),
        (Value::Float(f1), Value::Float(f2)) => Value::Bool(fm.le(*f1, *f2)),
        _ => {
            return Err(
                ErrorKind::InvalidOperands {
                    a: (a.value.get_type(), a.area.dup()),
                    b: (b.value.get_type(), b.area.dup()),
                    op: BinOp::Lte,
                    area,
                },
            );
        },
    };
    Ok(StoredValue { value, area })
}

/// Converts a value to a boolean: defined for booleans only.
pub fn to_bool(a: &StoredValue) -> (r: Result<bool, ErrorKind>)
    ensures
        a.value matches Value::Bool(v) ==> r == Result::<bool, ErrorKind>::Ok(v),
        !(a.value is Bool) ==> r == Result::<bool, ErrorKind>::Err(
            ErrorKind::CannotConvertType {
                v: (spec_get_type(a.value), a.area),
                to: crate::value::ValueType::Bool,
                area: a.area,
            },
        ),
{
    match &a.value {
        Value::Bool(v) => Ok(*v),
        _ => Err(
            ErrorKind::CannotConvertType {
                v: (a.value.get_type(), a.area.dup()),
                to: crate::value::ValueType::Bool,
                area: a.area.dup(),
            },
        ),
    }
}

/// Converts a value to a pattern: a type indicator becomes the pattern
/// matching exactly that type; a pattern stays itself.
pub fn to_pat(a: &StoredValue) -> (r: Result<Pattern, ErrorKind>)
    ensures
        a.value matches Value::TypeIndicator(t) ==> r == Result::<Pattern, ErrorKind>::Ok(
            Pattern::Type(t),
        ),
        a.value matches Value::Pattern(p) ==> r == Result::<Pattern, ErrorKind>::Ok(p),
        !(a.value is TypeIndicator || a.value is Pattern) ==> r == Result::<
            Pattern,
            ErrorKind,
        >::Err(
            ErrorKind::CannotConvertType {
                v: (spec_get_type(a.value), a.area),
                to: crate::value::ValueType::Pattern,
                area: a.area,
            },
        ),
{
    match &a.value {
        Value::TypeIndicator(t) => Ok(Pattern::Type(*t)),
        Value::Pattern(p) => Ok(*p),
        _ => Err(
            ErrorKind::CannotConvertType {
                v: (a.value.get_type(), a.area.dup()),
                to: crate::value::ValueType::Pattern,
                area: a.area.dup(),
            },
        ),
    }
}

/// Exact tag-and-payload equality for the value pairs that structural
/// equality does not treat specially. Keys compare by identity, so two
/// macros or iterators are equal only when they share their captured cells.
pub open spec fn shallow_eq(a: Value, b: Value) -> bool {
    match (a, b) {
        (Value::Group(x), Value::Group(y)) => x == y,
        (Value::Color(x), Value::Color(y)) => x == y,
        (Value::Block(x), Value::Block(y)) => x == y,
        (Value::Item(x), Value::Item(y)) => x == y,
        (Value::Builtins, Value::Builtins) => true,
        (Value::Range(a1, b1, s1), Value::Range(a2, b2, s2)) => a1 == a2 && b1 == b2 && s1 == s2,
        (Value::Empty, Value::Empty) => true,
        (Value::TriggerFunction(x), Value::TriggerFunction(y)) => x == y,
        (Value::TypeIndicator(x), Value::TypeIndicator(y)) => x == y,
        (Value::Pattern(x), Value::Pattern(y)) => x == y,
        (Value::Macro(m1), Value::Macro(m2)) => match (m1, m2) {
            (
                MacroCode::Normal { func: f1, args: a1, captured: c1 },
                MacroCode::Normal { func: f2, args: a2, captured: c2 },
            ) => {
                &&& f1 == f2
                &&& c1@ == c2@
                &&& a1@.len() == a2@.len()
                &&& forall|i: int| 0 <= i < a1@.len() ==> {
                    &&& (#[trigger] a2@[i]).name@ == a1@[i].name@
                    &&& a2@[i].default == a1@[i].default
                    &&& a2@[i].pattern == a1@[i].pattern
                }
            },
            (MacroCode::Builtin(b1), MacroCode::Builtin(b2)) => b1 == b2,
            _ => false,
        },
        (Value::Object(t1, ps1), Value::Object(t2, ps2)) => t1 == t2 && ps1@ == ps2@,
        (Value::Iterator(s1), Value::Iterator(s2)) => match (s1, s2) {
            (IterState::Arr(k1, p1), IterState::Arr(k2, p2)) => k1@ == k2@ && p1 == p2,
            (IterState::DictIt(e1, p1), IterState::DictIt(e2, p2)) => {
                &&& p1 == p2
                &&& e1@.len() == e2@.len()
                &&& forall|i: int| 0 <= i < e1@.len() ==> {
                    &&& (#[trigger] e2@[i]).0@ == e1@[i].0@
                    &&& e2@[i].1 == e1@[i].1
                }
            },
            (IterState::Rng(a1, b1, s1), IterState::Rng(a2, b2, s2)) => a1 == a2 && b1 == b2 && s1
                == s2,
            _ => false,
        },
        _ => false,
    }
}

/// The value behind the first entry of `es` named `name`, if any.
pub open spec fn spec_dict_get(es: Seq<(String, ValueKey)>, name: Seq<char>) -> Option<ValueKey>
    decreases es.len(),
{
    if es.len() == 0 {
        None
    } else if es[0].0@ == name {
        Some(es[0].1)
    } else {
        spec_dict_get(es.drop_first(), name)
    }
}

/// A found dict entry is one of the dict's values.
pub proof fn lemma_dict_get_found(es: Seq<(String, ValueKey)>, name: Seq<char>)
    requires
        spec_dict_get(es, name) is Some,
    ensures
        exists|j: int| 0 <= j < es.len() && (#[trigger] es[j]).1 == spec_dict_get(es, name)->0,
    decreases es.len(),
{
    if es.len() > 0 && es[0].0@ != name {
        lemma_dict_get_found(es.drop_first(), name);
        let j = choose|j: int|
            0 <= j < es.drop_first().len() && (#[trigger] es.drop_first()[j]).1 == spec_dict_get(
                es.drop_first(),
                name,
            )->0;
        assert(es[j + 1].1 == spec_dict_get(es, name)->0);
    }
}

/// Looks `name` up in a dict's entry list, first match.
pub fn dict_get(es: &Vec<(String, ValueKey)>, name: &String) -> (r: Option<ValueKey>)
    ensures
        r == spec_dict_get(es@, name@),
{
    let n = es.len();
    proof {
        assert(es@.skip(0) =~= es@);
    }
    for i in 0..n
        invariant
            n == es@.len(),
            spec_dict_get(es@, name@) == spec_dict_get(es@.skip(i as int), name@),
    {
        proof {
            assert(es@.skip(i as int)[0] == es@[i as int]);
        }
        if es[i].0 == *name {
            return Some(es[i].1);
        }
        proof {
            assert(es@.skip(i as int).drop_first() =~= es@.skip(i + 1));
        }
    }
    proof {
        assert(es@.skip(n as int).len() == 0);
    }
    None
}

/// Whether no float is reachable from slot `k`, so that structural equality
/// never consults the embedder's float unit. Only containers whose elements
/// are compared by dereferencing recurse; macro and iterator payloads
/// compare by key identity.
pub open spec fn float_free(m: Seq<StoredValue>, k: int) -> bool
    decreases k,
{
    if 0 <= k < m.len() && keys_bounded(m[k].value, k) {
        match m[k].value {
            Value::Float(..) => false,
            Value::Array(ks) => forall|i: int|
                0 <= i < ks@.len() ==> float_free(m, (#[trigger] ks@[i]).0 as int),
            Value::Dict(es) => forall|i: int|
                0 <= i < es@.len() ==> float_free(m, (#[trigger] es@[i]).1.0 as int),
            Value::Maybe(o) => (o matches Some(kk) ==> float_free(m, kk.0 as int)),
            _ => true,
        }
    } else {
        true
    }
}

/// Structural, cross-numeric equality of the values behind two keys, total
/// on float-free values: arrays compare pointwise through the arena, dicts
/// by key set and pointwise values, `Maybe` by content, and every other
/// pair by exact tag and payload. On pairs involving floats the definition
/// is arbitrary; [`equality`] consults the embedder there.
pub open spec fn spec_eq(m: Seq<StoredValue>, ka: int, kb: int) -> bool
    decreases ka + kb,
{
    if 0 <= ka < m.len() && 0 <= kb < m.len() && keys_bounded(m[ka].value, ka) && keys_bounded(
        m[kb].value,
        kb,
    ) {
        match (m[ka].value, m[kb].value) {
            (Value::Int(x), Value::Int(y)) => x == y,
            (Value::Float(..), _) => false,
            (_, Value::Float(..)) => false,
            (Value::Bool(x), Value::Bool(y)) => x == y,
            (Value::String(s1), Value::String(s2)) => s1@ == s2@,
            (Value::Array(ks1), Value::Array(ks2)) => {
                &&& ks1@.len() == ks2@.len()
                &&& forall|i: int|
                    0 <= i < ks1@.len() ==> spec_eq(
                        m,
                        (#[trigger] ks1@[i]).0 as int,
                        ks2@[i].0 as int,
                    )
            },
            (Value::Dict(es1), Value::Dict(es2)) => {
                &&& es1@.len() == es2@.len()
                &&& forall|i: int| 0 <= i < es1@.len() ==> {
                    let got = spec_dict_get(es2@, (#[trigger] es1@[i]).0@);
                    &&& got matches Some(gk) && gk.0 < kb && spec_eq(
                        m,
                        es1@[i].1.0 as int,
                        gk.0 as int,
                    )
                }
            },
            (Value::Maybe(o1), Value::Maybe(o2)) => match (o1, o2) {
                (None, None) => true,
                (Some(k1), Some(k2)) => spec_eq(m, k1.0 as int, k2.0 as int),
                _ => false,
            },
            (av, bv) => shallow_eq(av, bv),
        }
    } else {
        false
    }
}

/// Compares two optional keys.
fn opt_key_eq(a: &Option<ValueKey>, b: &Option<ValueKey>) -> (r: bool)
    ensures
        r == (a == b),
{
    match (a, b) {
        (None, None) => true,
        (Some(x), Some(y)) => x.0 == y.0,
        _ => false,
    }
}

/// Exact tag-and-payload equality for the fallback value pairs.
#[verifier::loop_isolation(false)]
fn shallow_value_eq(a: &Value, b: &Value) -> (r: bool)
    ensures
        r == shallow_eq(*a, *b),
{
    match (a, b) {
        (Value::Group(x), Value::Group(y)) => x == y,
        (Value::Color(x), Value::Color(y)) => x == y,
        (Value::Block(x), Value::Block(y)) => x == y,
        (Value::Item(x), Value::Item(y)) => x == y,
        (Value::Builtins, Value::Builtins) => true,
        (Value::Range(a1, b1, s1), Value::Range(a2, b2, s2)) => *a1 == *a2 && *b1 == *b2 && *s1
            == *s2,
        (Value::Empty, Value::Empty) => true,
        (Value::TriggerFunction(x), Value::TriggerFunction(y)) => *x == *y,
        (Value::TypeIndicator(x), Value::TypeIndicator(y)) => *x == *y,
        (Value::Pattern(x), Value::Pattern(y)) => *x == *y,
        (
            Value::Macro(MacroCode::Normal { func: f1, args: a1, captured: c1 }),
            Value::Macro(MacroCode::Normal { func: f2, args: a2, captured: c2 }),
        ) => {
            if f1.program != f2.program || f1.func != f2.func {
                return false;
            }
            if c1.len() != c2.len() || a1.len() != a2.len() {
                return false;
            }
            let nc = c1.len();
            for i in 0..nc
                invariant
                    nc == c1@.len(),
                    c2@.len() == nc,
                    forall|t: int| 0 <= t < i ==> (#[trigger] c1@[t]) == c2@[t],
            {
                if c1[i].0 != c2[i].0 {
                    return false;
                }
            }
            proof {
                assert(c1@ =~= c2@);
            }
            let na = a1.len();
            for i in 0..na
                invariant
                    na == a1@.len(),
                    a2@.len() == na,
                    forall|t: int| 0 <= t < i ==> {
                        &&& (#[trigger] a2@[t]).name@ == a1@[t].name@
                        &&& a2@[t].default == a1@[t].default
                        &&& a2@[t].pattern == a1@[t].pattern
                    },
            {
                if !(a1[i].name == a2[i].name) {
                    return false;
                }
                if !opt_key_eq(&a1[i].default, &a2[i].default) {
                    return false;
                }
                if !opt_key_eq(&a1[i].pattern, &a2[i].pattern) {
                    return false;
                }
            }
            true
        },
        (Value::Macro(MacroCode::Builtin(b1)), Value::Macro(MacroCode::Builtin(b2))) => *b1 == *b2,
        (Value::Object(t1, ps1), Value::Object(t2, ps2)) => {
            if *t1 != *t2 || ps1.len() != ps2.len() {
                return false;
            }
            let n = ps1.len();
            for i in 0..n
                invariant
                    n == ps1@.len(),
                    ps2@.len() == n,
                    forall|t: int| 0 <= t < i ==> (#[trigger] ps1@[t]) == ps2@[t],
            {
                if ps1[i].0 != ps2[i].0 || ps1[i].1.0 != ps2[i].1.0 {
                    return false;
                }
            }
            proof {
                assert(ps1@ =~= ps2@);
            }
            true
        },
        (Value::Iterator(IterState::Arr(k1, p1)), Value::Iterator(IterState::Arr(k2, p2))) => {
            if *p1 != *p2 || k1.len() != k2.len() {
                return false;
            }
            let n = k1.len();
            for i in 0..n
                invariant
                    n == k1@.len(),
                    k2@.len() == n,
                    forall|t: int| 0 <= t < i ==> (#[trigger] k1@[t]) == k2@[t],
            {
                if k1[i].0 != k2[i].0 {
                    return false;
                }
            }
            proof {
                assert(k1@ =~= k2@);
            }
            true
        },
        (
            Value::Iterator(IterState::DictIt(e1, p1)),
            Value::Iterator(IterState::DictIt(e2, p2)),
        ) => {
            if *p1 != *p2 || e1.len() != e2.len() {
                return false;
            }
            let n = e1.len();
            for i in 0..n
                invariant
                    n == e1@.len(),
                    e2@.len() == n,
                    forall|t: int| 0 <= t < i ==> {
                        &&& (#[trigger] e2@[t]).0@ == e1@[t].0@
                        &&& e2@[t].1 == e1@[t].1
                    },
            {
                if !(e1[i].0 == e2[i].0) || e1[i].1.0 != e2[i].1.0 {
                    return false;
                }
            }
            true
        },
        (
            Value::Iterator(IterState::Rng(a1, b1, s1)),
            Value::Iterator(IterState::Rng(a2, b2, s2)),
        ) => *a1 == *a2 && *b1 == *b2 && *s1 == *s2,
        _ => false,
    }
}

/// Structural, cross-numeric equality of the values behind two keys: the
/// language's `==`. Wherever an integer meets a float or two floats meet,
/// the embedder's comparator decides; on float-free values the result is
/// exactly [`spec_eq`].
#[verifier::loop_isolation(false)]
pub fn equality<F: FloatMath>(mem: &Arena, ka: ValueKey, kb: ValueKey, fm: &F) -> (r: bool)
    requires
        mem.wf(),
        mem.has_key(ka),
        mem.has_key(kb),
    ensures
        float_free(mem@, ka.0 as int) && float_free(mem@, kb.0 as int) ==> r == spec_eq(
            mem@,
            ka.0 as int,
            kb.0 as int,
        ),
    decreases ka.0 + kb.0,
{
    let ghost kai = ka.0 as int;
    let ghost kbi = kb.0 as int;
    proof {
        assert(keys_bounded(mem@[kai].value, kai));
        assert(keys_bounded(mem@[kbi].value, kbi));
    }
    let av = &mem.get(ka).value;
    let bv = &mem.get(kb).value;
    match (av, bv) {
        (Value::Int(x), Value::Int(y)) => *x == *y,
        (Value::Int(x), Value::Float(f)) => fm.eq_int(*x, *f),
        (Value::Float(f), Value::Int(y)) => fm.eq_int(*y, *f),
        (Value::Float(f1), Value::Float(f2)) => fm.eq(*f1, *f2),
        (Value::Bool(x), Value::Bool(y)) => *x == *y,
        (Value::String(s1), Value::String(s2)) => *s1 == *s2,
        (Value::Array(ks1), Value::Array(ks2)) => {
            if ks1.len() != ks2.len() {
                return false;
            }
            let n = ks1.len();
            for i in 0..n
                invariant
                    mem.wf(),
                    kai == ka.0 && kbi == kb.0,
                    ka.0 < mem@.len() && kb.0 < mem@.len(),
                    mem@[kai].value matches Value::Array(v1) && v1@ == ks1@,
                    mem@[kbi].value matches Value::Array(v2) && v2@ == ks2@,
                    n == ks1@.len(),
                    ks2@.len() == n,
                    float_free(mem@, kai) && float_free(mem@, kbi) ==> forall|t: int|
                        0 <= t < i ==> spec_eq(mem@, (#[trigger] ks1@[t]).0 as int, ks2@[t].0 as int),
            {
                let e = equality(mem, ks1[i], ks2[i], fm);
                if !e {
                    return false;
                }
            }
            true
        },
        (Value::Dict(es1), Value::Dict(es2)) => {
            if es1.len() != es2.len() {
                return false;
            }
            let n = es1.len();
            for i in 0..n
                invariant
                    mem.wf(),
                    kai == ka.0 && kbi == kb.0,
                    ka.0 < mem@.len() && kb.0 < mem@.len(),
                    mem@[kai].value matches Value::Dict(v1) && v1@ == es1@,
                    mem@[kbi].value matches Value::Dict(v2) && v2@ == es2@,
                    n == es1@.len(),
                    es2@.len() == n,
                    float_free(mem@, kai) && float_free(mem@, kbi) ==> forall|t: int|
                        0 <= t < i ==> {
                            let got = spec_dict_get(es2@, (#[trigger] es1@[t]).0@);
                            &&& got matches Some(gk) && gk.0 < kb.0 && spec_eq(
                                mem@,
                                es1@[t].1.0 as int,
                                gk.0 as int,
                            )
                        },
            {
                match dict_get(es2, &es1[i].0) {
                    None => {
                        return false;
                    },
                    Some(k2) => {
                        proof {
                            lemma_dict_get_found(es2@, es1@[i as int].0@);
                        }
                        let e = equality(mem, es1[i].1, k2, fm);
                        if !e {
                            return false;
                        }
                    },
                }
            }
            true
        },
        (Value::Maybe(o1), Value::Maybe(o2)) => match (o1, o2) {
            (None, None) => true,
            (Some(k1), Some(k2)) => equality(mem, *k1, *k2, fm),
            _ => false,
        },
        (av2, bv2) => shallow_value_eq(av2, bv2),
    }
}

/// The `==` operator: always defined, via structural equality.
pub fn eq<F: FloatMath>(mem: &Arena, ka: ValueKey, kb: ValueKey, area: CodeArea, fm: &F) -> (r:
    StoredValue)
    requires
        mem.wf(),
        mem.has_key(ka),
        mem.has_key(kb),
    ensures
        r.value is Bool,
        r.area == area,
        float_free(mem@, ka.0 as int) && float_free(mem@, kb.0 as int) ==> r.value == Value::Bool(
            spec_eq(mem@, ka.0 as int, kb.0 as int),
        ),
{
    StoredValue { value: Value::Bool(equality(mem, ka, kb, fm)), area }
}

/// The `!=` operator: always defined, via structural equality.
pub fn not_eq<F: FloatMath>(mem: &Arena, ka: ValueKey, kb: ValueKey, area: CodeArea, fm: &F) -> (r:
    StoredValue)
    requires
        mem.wf(),
        mem.has_key(ka),
        mem.has_key(kb),
    ensures
        r.value is Bool,
        r.area == area,
        float_free(mem@, ka.0 as int) && float_free(mem@, kb.0 as int) ==> r.value == Value::Bool(
            !spec_eq(mem@, ka.0 as int, kb.0 as int),
        ),
{
    StoredValue { value: Value::Bool(!equality(mem, ka, kb, fm)), area }
}

/// The `is` operator: tests a value against a type indicator or a pattern.
pub fn is_op(a: &StoredValue, b: &StoredValue, area: CodeArea) -> (r: Result<
    StoredValue,
    ErrorKind,
>)
    ensures
        b.value matches Value::TypeIndicator(t) ==> (r matches Ok(sv) && sv.value == Value::Bool(
            spec_get_type(a.value) == t,
        ) && sv.area == area),
        b.value matches Value::Pattern(p) ==> (r matches Ok(sv) && sv.value == Value::Bool(
            spec_matches_pat(a.value, p),
        ) && sv.area == area),
        !(b.value is TypeIndicator || b.value is Pattern) ==> r == Result::<
            StoredValue,
            ErrorKind,
        >::Err(
            ErrorKind::TypeMismatch {
                v: (spec_get_type(b.value), b.area),
                area,
                expected: crate::value::ValueType::Pattern,
            },
        ),
{
    let value = match (&a.value, &b.value) {
        (av, Value::TypeIndicator(t)) => Value::Bool(av.get_type() == *t),
        (av, Value::Pattern(p)) => Value::Bool(av.matches_pat(p)),
        _ => {
            return Err(
                ErrorKind::TypeMismatch {
                    v: (b.value.get_type(), b.area.dup()),
                    area,
                    expected: crate::value::ValueType::Pattern,
                },
            );
        },
    };
    Ok(StoredValue { value, area })
}

} // verus!
