//! Conversions and comparisons of values.
//!
//! Where a conversion needs decimal arithmetic on doubles, the answer says what
//! the host has to compute.
use vstd::prelude::*;
use crate::number::{is_nan, is_zero, nan, negative, num_eq, number_eq, zero, SIGN};
use crate::store::{Store, StoreView};
use crate::value::Value;

verus! {

impl Value {
    /// Whether the value is an object, as opposed to a primitive.
    pub open spec fn objectlike(self) -> bool {
        match self {
            Value::Object(_) | Value::Array(_) | Value::Function(_) | Value::NativeFunction(_)
            | Value::Regex(_) | Value::MapRef(_) | Value::SetRef(_) | Value::WeakMap(_)
            | Value::WeakSet(_) | Value::Promise(_) => true,
            _ => false,
        }
    }

    /// Whether the value can be called.
    pub open spec fn callable(self) -> bool {
        self is Function || self is NativeFunction
    }

    /// Whether the value is `null` or `undefined`.
    pub open spec fn nullish(self) -> bool {
        self is Null || self is Undefined
    }

    /// What `typeof` says.
    pub open spec fn typeof_text(self) -> Seq<char> {
        match self {
            Value::Undefined => "undefined"@,
            Value::Null => "object"@,
            Value::Boolean(_) => "boolean"@,
            Value::Number(_) => "number"@,
            Value::BigInt(_) => "bigint"@,
            Value::String(_) => "string"@,
            Value::Symbol(_) => "symbol"@,
            Value::Function(_) | Value::NativeFunction(_) => "function"@,
            _ => "object"@,
        }
    }

    /// `SameValue`: not-a-numbers are the same, `0` and `-0` are not.
    pub open spec fn same(self, other: Value) -> bool {
        match (self, other) {
            (Value::Number(x), Value::Number(y)) => if nan(x) && nan(y) {
                true
            } else if zero(x) && zero(y) {
                negative(x) == negative(y)
            } else {
                num_eq(x, y)
            },
            _ => self == other,
        }
    }

    /// Strict equality.
    pub open spec fn equals(self, other: Value) -> bool {
        match (self, other) {
            (Value::Number(x), Value::Number(y)) => num_eq(x, y),
            _ => self == other,
        }
    }

    /// Whether the value is an object, as opposed to a primitive.
    #[verifier::allow_in_spec]
    pub fn is_object_value(self) -> (r: bool)
        returns
            self.objectlike(),
    {
        match self {
            Value::Object(_) | Value::Array(_) | Value::Function(_) | Value::NativeFunction(_)
            | Value::Regex(_) | Value::MapRef(_) | Value::SetRef(_) | Value::WeakMap(_)
            | Value::WeakSet(_) | Value::Promise(_) => true,
            _ => false,
        }
    }

    /// Whether the value can be called.
    #[verifier::allow_in_spec]
    pub fn is_callable_value(self) -> (r: bool)
        returns
            self.callable(),
    {
        matches!(self, Value::Function(_) | Value::NativeFunction(_))
    }

    /// Whether the value is `null` or `undefined`.
    #[verifier::allow_in_spec]
    pub fn is_nullish(self) -> (r: bool)
        returns
            self.nullish(),
    {
        matches!(self, Value::Null | Value::Undefined)
    }

    /// The `typeof` operator.
    pub fn type_of(self) -> (r: &'static str)
        ensures
            r@ == self.typeof_text(),
    {
        match self {
            Value::Undefined => "undefined",
            Value::Null => "object",
            Value::Boolean(_) => "boolean",
            Value::Number(_) => "number",
            Value::BigInt(_) => "bigint",
            Value::String(_) => "string",
            Value::Symbol(_) => "symbol",
            Value::Function(_) | Value::NativeFunction(_) => "function",
            _ => "object",
        }
    }

    /// Whether the value is a string.
    #[verifier::allow_in_spec]
    pub fn is_string(self) -> (r: bool)
        returns
            self is String,
    {
        matches!(self, Value::String(_))
    }

    /// Whether the value is a number.
    #[verifier::allow_in_spec]
    pub fn is_number(self) -> (r: bool)
        returns
            self is Number,
    {
        matches!(self, Value::Number(_))
    }

    /// Whether the value is a boolean.
    #[verifier::allow_in_spec]
    pub fn is_boolean(self) -> (r: bool)
        returns
            self is Boolean,
    {
        matches!(self, Value::Boolean(_))
    }

    /// Whether the value is `null`.
    #[verifier::allow_in_spec]
    pub fn is_null(self) -> (r: bool)
        returns
            self is Null,
    {
        matches!(self, Value::Null)
    }

    /// Whether the value is `undefined`.
    #[verifier::allow_in_spec]
    pub fn is_undefined(self) -> (r: bool)
        returns
            self is Undefined,
    {
        matches!(self, Value::Undefined)
    }

    /// Whether the value is an object, array or function.
    #[verifier::allow_in_spec]
    pub fn is_plain_object(self) -> (r: bool)
        returns
            self is Object || self is Array || self is Function || self is NativeFunction,
    {
        matches!(self, Value::Object(_) | Value::Array(_) | Value::Function(_) | Value::NativeFunction(_))
    }

    /// The number of the value's kind.
    #[verifier::allow_in_spec]
    pub fn kind(self) -> (r: u8)
        returns
            (match self {
                Value::Undefined => 0u8,
                Value::Null => 1u8,
                Value::Boolean(_) => 2u8,
                Value::Number(_) => 3u8,
                Value::String(_) => 4u8,
                Value::Object(_) => 5u8,
                Value::Array(_) => 6u8,
                Value::Function(_) => 7u8,
                Value::NativeFunction(_) => 8u8,
                Value::BigInt(_) => 9u8,
                Value::Regex(_) => 10u8,
                Value::Symbol(_) => 11u8,
                Value::MapRef(_) => 12u8,
                Value::SetRef(_) => 13u8,
                Value::WeakMap(_) => 14u8,
                Value::WeakSet(_) => 15u8,
                Value::Promise(_) => 16u8,
            }),
    {
        match self {
            Value::Undefined => 0u8,
            Value::Null => 1u8,
            Value::Boolean(_) => 2u8,
            Value::Number(_) => 3u8,
            Value::String(_) => 4u8,
            Value::Object(_) => 5u8,
            Value::Array(_) => 6u8,
            Value::Function(_) => 7u8,
            Value::NativeFunction(_) => 8u8,
            Value::BigInt(_) => 9u8,
            Value::Regex(_) => 10u8,
            Value::Symbol(_) => 11u8,
            Value::MapRef(_) => 12u8,
            Value::SetRef(_) => 13u8,
            Value::WeakMap(_) => 14u8,
            Value::WeakSet(_) => 15u8,
            Value::Promise(_) => 16u8,
        }
    }

    /// `SameValue`.
    #[verifier::allow_in_spec]
    pub fn same_value(a: Value, b: Value) -> (r: bool)
        returns
            a.same(b),
    {
        match (a, b) {
            (Value::Number(x), Value::Number(y)) => if is_nan(x) && is_nan(y) {
                true
            } else if is_zero(x) && is_zero(y) {
                (x >= SIGN) == (y >= SIGN)
            } else {
                number_eq(x, y)
            },
            _ => a == b,
        }
    }

    /// Strict equality (`===`).
    #[verifier::allow_in_spec]
    pub fn strict_eq(a: Value, b: Value) -> (r: bool)
        returns
            a.equals(b),
    {
        match (a, b) {
            (Value::Number(x), Value::Number(y)) => number_eq(x, y),
            _ => a == b,
        }
    }
}

/// Whether two values are of the same kind.
#[verifier::allow_in_spec]
pub fn same_kind(a: Value, b: Value) -> (r: bool)
    returns
        a.kind() == b.kind(),
{
    a.kind() == b.kind()
}

/// `SameValue` is an equivalence.
pub proof fn law_same_value(a: Value, b: Value, c: Value)
    ensures
        a.same(a),
        a.same(b) == b.same(a),
        a.same(b) && b.same(c) ==> a.same(c),
{
    match (a, b) {
        (Value::Number(x), Value::Number(y)) => {
            crate::number::lemma_magnitude_order(x, y);
            crate::number::lemma_magnitude_order(x, 0);
            crate::number::lemma_magnitude_order(y, 0);
            match c {
                Value::Number(z) => {
                    crate::number::lemma_magnitude_order(y, z);
                    crate::number::lemma_magnitude_order(z, 0);
                },
                _ => {},
            }
        },
        _ => {},
    }
}

/// Strict equality is symmetric, and it is reflexive on everything but the
/// not-a-numbers; where it differs from `SameValue`, zeros or not-a-numbers are
/// compared.
pub proof fn law_strict_equality(a: Value, b: Value)
    ensures
        a.equals(b) == b.equals(a),
        a.equals(a) <==> !(a is Number && nan(a->Number_0)),
        a.equals(b) != a.same(b) ==> a is Number && b is Number && ((nan(a->Number_0) && nan(b->Number_0)) || (zero(a->Number_0) && zero(b->Number_0))),
{
}

/// The wrapped primitive of a wrapper object.
pub open spec fn wrapped(s: StoreView, v: Value) -> Option<Value> {
    match v {
        Value::Object(o) => if s.heap.props(o).contains_key(s.n.boxed) {
            Some(s.heap.props(o)[s.n.boxed].value)
        } else {
            None
        },
        _ => None,
    }
}

/// What a value is as a condition.
pub open spec fn truthy(s: StoreView, v: Value) -> bool {
    match v {
        Value::Undefined | Value::Null => false,
        Value::Boolean(b) => b,
        Value::Number(n) => !nan(n) && !zero(n),
        Value::String(a) => s.text(a).len() > 0,
        Value::BigInt(a) => s.text(a) != "0"@,
        _ => true,
    }
}

impl<'a> Store<'a> {
    /// The wrapped primitive of a wrapper object.
    pub fn primitive_value(&self, v: Value) -> (r: Option<Value>)
        ensures
            r == wrapped(self@, v),
    {
        match v {
            Value::Object(o) => match self.heap.get_prop(o, self.n.boxed) {
                Some(p) => Some(p.value),
                None => None,
            },
            _ => None,
        }
    }

    /// The wrapped primitive of a wrapper object, or the value itself.
    pub fn this_primitive(&self, v: Value) -> (r: Value)
        ensures
            r == (match wrapped(self@, v) {
                Some(p) => p,
                None => v,
            }),
    {
        match self.primitive_value(v) {
            Some(p) => p,
            None => v,
        }
    }

    /// `ToBoolean`.
    pub fn to_boolean(&self, v: Value) -> (r: bool)
        ensures
            r == truthy(self@, v),
    {
        match v {
            Value::Undefined | Value::Null => false,
            Value::Boolean(b) => b,
            Value::Number(n) => !is_nan(n) && !is_zero(n),
            Value::String(a) => !self.heap.atoms.text(a).is_empty(),
            Value::BigInt(a) => !crate::atoms::same_text(self.heap.atoms.text(a), "0"),
            _ => true,
        }
    }
}

} // verus!
