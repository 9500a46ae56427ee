//! The expression-level evaluation rules: binary operators, member access,
//! indexing, and how a call's callee resolves to a registry name.
//!
//! A binary operator is defined only for two numbers, two strings, a string
//! and a number in either order, and two booleans; any other pairing is a
//! type mismatch. Numeric work follows IEEE-754 binary64 semantics:
//! division by zero yields an infinity or a NaN, never a failure. Member
//! access on a non-object and indexing outside an array yield `undefined`,
//! never a failure.
use vstd::prelude::*;

use crate::ast::{BinaryOp, Expression, SpecExpr};
use crate::errors::{SpecError, ZanoError};
use crate::num::{
    apf_add, apf_div, apf_eq, apf_le, apf_lt, apf_mul, apf_rem, apf_sub, apf_to_index,
    apf_to_string, num_add, num_div, num_eq, num_index, num_is_finite, num_is_negative,
    num_is_zero, num_le, num_lt, num_mul, num_rem, num_string, num_sub,
};
use crate::value::{obj_get, spec_obj_get, SpecValue, ZanoValue};

verus! {

/// What a binary operator yields on two values, or the message of the type
/// mismatch it raises. Comparisons of numbers follow the IEEE-754 order, so
/// every comparison with a NaN is false; `+` of a string and a number
/// concatenates the number's decimal rendering.
pub open spec fn spec_apply_binary(left: SpecValue, op: BinaryOp, right: SpecValue) -> Result<
    SpecValue,
    Seq<char>,
> {
    match (left, right) {
        (SpecValue::Number(a), SpecValue::Number(b)) => match op {
            BinaryOp::Add => Ok(SpecValue::Number(num_add(a, b))),
            BinaryOp::Sub => Ok(SpecValue::Number(num_sub(a, b))),
            BinaryOp::Mul => Ok(SpecValue::Number(num_mul(a, b))),
            BinaryOp::Div => Ok(SpecValue::Number(num_div(a, b))),
            BinaryOp::Mod => Ok(SpecValue::Number(num_rem(a, b))),
            BinaryOp::Equal => Ok(SpecValue::Boolean(num_eq(a, b))),
            BinaryOp::NotEqual => Ok(SpecValue::Boolean(!num_eq(a, b))),
            BinaryOp::Less => Ok(SpecValue::Boolean(num_lt(a, b))),
            BinaryOp::Greater => Ok(SpecValue::Boolean(num_lt(b, a))),
            BinaryOp::LessEqual => Ok(SpecValue::Boolean(num_le(a, b))),
            BinaryOp::GreaterEqual => Ok(SpecValue::Boolean(num_le(b, a))),
            _ => Err("Invalid operation for numbers"@),
        },
        (SpecValue::String(a), SpecValue::String(b)) => match op {
            BinaryOp::Add => Ok(SpecValue::String(a + b)),
            BinaryOp::Equal => Ok(SpecValue::Boolean(a == b)),
            BinaryOp::NotEqual => Ok(SpecValue::Boolean(a != b)),
            _ => Err("Invalid operation for strings"@),
        },
        (SpecValue::String(a), SpecValue::Number(b)) => match op {
            BinaryOp::Add => Ok(SpecValue::String(a + num_string(b))),
            _ => Err("Invalid operation for string and number"@),
        },
        (SpecValue::Number(a), SpecValue::String(b)) => match op {
            BinaryOp::Add => Ok(SpecValue::String(num_string(a) + b)),
            _ => Err("Invalid operation for number and string"@),
        },
        (SpecValue::Boolean(a), SpecValue::Boolean(b)) => match op {
            BinaryOp::And => Ok(SpecValue::Boolean(a && b)),
            BinaryOp::Or => Ok(SpecValue::Boolean(a || b)),
            BinaryOp::Equal => Ok(SpecValue::Boolean(a == b)),
            BinaryOp::NotEqual => Ok(SpecValue::Boolean(a != b)),
            _ => Err("Invalid operation for booleans"@),
        },
        _ => Err("Type mismatch in binary operation"@),
    }
}

/// Applies a binary operator to two evaluated operands.
pub fn apply_binary_operator(left: ZanoValue, op: BinaryOp, right: ZanoValue) -> (r: Result<
    ZanoValue,
    ZanoError,
>)
    ensures
        match spec_apply_binary(left@, op, right@) {
            Ok(v) => r matches Ok(x) && x@ == v,
            Err(m) => r matches Err(e) && e@ == (SpecError::Runtime { message: m }),
        },
{
    match (left, right) {
        (ZanoValue::Number(a), ZanoValue::Number(b)) => match op {
            BinaryOp::Add => Ok(ZanoValue::Number(apf_add(a, b))),
            BinaryOp::Sub => Ok(ZanoValue::Number(apf_sub(a, b))),
            BinaryOp::Mul => Ok(ZanoValue::Number(apf_mul(a, b))),
            BinaryOp::Div => Ok(ZanoValue::Number(apf_div(a, b))),
            BinaryOp::Mod => Ok(ZanoValue::Number(apf_rem(a, b))),
            BinaryOp::Equal => Ok(ZanoValue::Boolean(apf_eq(a, b))),
            BinaryOp::NotEqual => Ok(ZanoValue::Boolean(!apf_eq(a, b))),
            BinaryOp::Less => Ok(ZanoValue::Boolean(apf_lt(a, b))),
            BinaryOp::Greater => Ok(ZanoValue::Boolean(apf_lt(b, a))),
            BinaryOp::LessEqual => Ok(ZanoValue::Boolean(apf_le(a, b))),
            BinaryOp::GreaterEqual => Ok(ZanoValue::Boolean(apf_le(b, a))),
            _ => Err(
                ZanoError::RuntimeError { message: "Invalid operation for numbers".to_owned() },
            ),
        },
        (ZanoValue::String(a), ZanoValue::String(b)) => match op {
            BinaryOp::Add => Ok(ZanoValue::String(a.concat(b.as_str()))),
            BinaryOp::Equal => Ok(ZanoValue::Boolean(a == b)),
            BinaryOp::NotEqual => Ok(ZanoValue::Boolean(!(a == b))),
            _ => Err(
                ZanoError::RuntimeError { message: "Invalid operation for strings".to_owned() },
            ),
        },
        (ZanoValue::String(a), ZanoValue::Number(b)) => match op {
            BinaryOp::Add => {
                let n = apf_to_string(b);
                Ok(ZanoValue::String(a.concat(n.as_str())))
            },
            _ => Err(
                ZanoError::RuntimeError {
                    message: "Invalid operation for string and number".to_owned(),
                },
            ),
        },
        (ZanoValue::Number(a), ZanoValue::String(b)) => match op {
            BinaryOp::Add => {
                let n = apf_to_string(a);
                Ok(ZanoValue::String(n.concat(b.as_str())))
            },
            _ => Err(
                ZanoError::RuntimeError {
                    message: "Invalid operation for number and string".to_owned(),
                },
            ),
        },
        (ZanoValue::Boolean(a), ZanoValue::Boolean(b)) => match op {
            BinaryOp::And => Ok(ZanoValue::Boolean(a && b)),
            BinaryOp::Or => Ok(ZanoValue::Boolean(a || b)),
            BinaryOp::Equal => Ok(ZanoValue::Boolean(a == b)),
            BinaryOp::NotEqual => Ok(ZanoValue::Boolean(a != b)),
            _ => Err(
                ZanoError::RuntimeError { message: "Invalid operation for booleans".to_owned() },
            ),
        },
        _ => Err(
            ZanoError::RuntimeError { message: "Type mismatch in binary operation".to_owned() },
        ),
    }
}

/// The value a member access yields: the property's binding where the
/// receiver is an object holding it, and `undefined` anywhere else.
pub open spec fn spec_member_value(obj: SpecValue, property: Seq<char>) -> SpecValue {
    match obj {
        SpecValue::Object(ps) => match spec_obj_get(ps, property) {
            Some(v) => v,
            None => SpecValue::Undefined,
        },
        _ => SpecValue::Undefined,
    }
}

/// Reads a property of a value; `undefined` where the receiver is not an
/// object or the property is absent, never a failure.
pub fn member_value(object: &ZanoValue, property: &String) -> (r: ZanoValue)
    ensures
        r@ == spec_member_value(object@, property@),
{
    match object {
        ZanoValue::Object(ps) => match obj_get(ps, property) {
            Some(v) => v.clone_value(),
            None => ZanoValue::Undefined,
        },
        _ => ZanoValue::Undefined,
    }
}

/// The value an index access yields: for an array and a number, the element
/// at the number truncated toward zero, or `undefined` out of range — a
/// negative index (negative zero aside), an infinity and a NaN are out of
/// range; for an object and a string, the key's binding or `undefined`; and
/// `undefined` for every other pairing. Never a failure.
pub open spec fn spec_index_value(obj: SpecValue, index: SpecValue) -> SpecValue {
    match (obj, index) {
        (SpecValue::Array(els), SpecValue::Number(n)) => if !num_is_finite(n) || (num_is_negative(
            n,
        ) && !num_is_zero(n)) {
            SpecValue::Undefined
        } else if num_index(n) < els.len() {
            els[num_index(n) as int]
        } else {
            SpecValue::Undefined
        },
        (SpecValue::Object(ps), SpecValue::String(k)) => match spec_obj_get(ps, k) {
            Some(v) => v,
            None => SpecValue::Undefined,
        },
        _ => SpecValue::Undefined,
    }
}

/// Reads an element or a key of a value by an evaluated index.
pub fn index_value(object: &ZanoValue, index: &ZanoValue) -> (r: ZanoValue)
    ensures
        r@ == spec_index_value(object@, index@),
{
    broadcast use crate::value::group_view_lemmas;

    match (object, index) {
        (ZanoValue::Array(els), ZanoValue::Number(n)) => {
            let nonfinite = (*n >> 52) & 0x7ff == 0x7ff;
            let negative = *n >> 63 == 1 && *n != 0x8000_0000_0000_0000u64;
            proof {
                let b = *n;
                assert(b >> 63 == 1u64 && b != 0x8000_0000_0000_0000u64 ==> !num_is_zero(b))
                    by (bit_vector);
            }
            if nonfinite || negative {
                return ZanoValue::Undefined;
            }
            let i = apf_to_index(*n);
            if i < els.len() {
                els[i].clone_value()
            } else {
                ZanoValue::Undefined
            }
        },
        (ZanoValue::Object(ps), ZanoValue::String(k)) => match obj_get(ps, k) {
            Some(v) => v.clone_value(),
            None => ZanoValue::Undefined,
        },
        _ => ZanoValue::Undefined,
    }
}

/// The registry name a call's callee resolves to: an identifier names a
/// callable directly; a member access on a bare identifier synthesizes the
/// key `<object>_<property>`, which is how `console.log` dispatches to a
/// native registered as `console_log`; any other callee shape is
/// unsupported. Resolution is purely syntactic and evaluates nothing.
pub open spec fn spec_call_target(callee: SpecExpr) -> Result<Seq<char>, Seq<char>> {
    match callee {
        SpecExpr::Identifier(n) => Ok(n),
        SpecExpr::Member { object, property } => match *object {
            SpecExpr::Identifier(o) => Ok(o + "_"@ + property),
            _ => Err("Complex member calls not supported yet"@),
        },
        _ => Err("Invalid function call"@),
    }
}

/// Resolves a call's callee to the name looked up in the callable registry.
pub fn call_target_name(callee: &Expression) -> (r: Result<String, ZanoError>)
    ensures
        match spec_call_target(callee@) {
            Ok(n) => r matches Ok(x) && x@ == n,
            Err(m) => r matches Err(e) && e@ == (SpecError::Runtime { message: m }),
        },
{
    match callee {
        Expression::Identifier(n) => Ok(n.clone()),
        Expression::Member { object, property } => match &**object {
            Expression::Identifier(o) => {
                proof {
                    assert((**object)@ == SpecExpr::Identifier(o@));
                }
                let mut name = o.clone();
                name.append("_");
                name.append(property.as_str());
                Ok(name)
            },
            _ => {
                proof {
                    assert(!((**object)@ is Identifier));
                }
                Err(
                    ZanoError::RuntimeError {
                        message: "Complex member calls not supported yet".to_owned(),
                    },
                )
            },
        },
        _ => Err(ZanoError::RuntimeError { message: "Invalid function call".to_owned() }),
    }
}

} // verus!
