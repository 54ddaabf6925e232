//! Operators on big integers.
use vstd::prelude::*;
use vstd::arithmetic::power::pow;
use crate::ast::{BinaryOp, Expr};
use crate::bigbits::{
    bigint_bitop, combined, compare_bigs, compare_number_bigint, number_against, number_equals_bigint, order_of, shifted_left, shifted_right, BitOp, Order,
};
use crate::bigint::{bits_of, int_of, int_text, quotient, remainder, Big};
use crate::conv::bit_not;
use crate::engine::{Engine, EngineView, Frame, PrimitiveHint, Request};
use crate::number::{negated, number_lt, num_lt, nan, is_nan, ONE};
use crate::value::Value;

verus! {

/// What an operator on two big integers gives.
pub enum BigOutcome {
    /// A big integer.
    Value(Big),
    /// A `RangeError` with a message.
    Range(&'static str),
    /// A `TypeError` with a message.
    Type(&'static str),
}

/// The contents of a [`BigOutcome`].
#[verifier::ext_equal]
pub enum BigOutcomeView {
    Value(int),
    Range(Seq<char>),
    Type(Seq<char>),
}

impl BigOutcome {
    /// The contents.
    pub open spec fn view(&self) -> BigOutcomeView {
        match *self {
            BigOutcome::Value(b) => BigOutcomeView::Value(b@),
            BigOutcome::Range(m) => BigOutcomeView::Range(m@),
            BigOutcome::Type(m) => BigOutcomeView::Type(m@),
        }
    }
}

/// By how much a shift shifts: not at all for a negative amount, and too much from
/// 33 bits on.
pub open spec fn shift_by(b: int) -> Option<nat> {
    if b < 0 {
        Some(0)
    } else if bits_of(b as nat) > 32 {
        None
    } else {
        Some(b as nat)
    }
}

/// What an operator on two big integers gives.
pub open spec fn big_outcome(op: BinaryOp, a: int, b: int) -> BigOutcomeView {
    match op {
        BinaryOp::Add => BigOutcomeView::Value(a + b),
        BinaryOp::Sub => BigOutcomeView::Value(a - b),
        BinaryOp::Mul => BigOutcomeView::Value(a * b),
        BinaryOp::Div => if b == 0 { BigOutcomeView::Range("BigInt division by zero"@) } else { BigOutcomeView::Value(quotient(a, b)) },
        BinaryOp::Rem => if b == 0 { BigOutcomeView::Range("BigInt division by zero"@) } else { BigOutcomeView::Value(remainder(a, b)) },
        BinaryOp::Exp => if b < 0 {
            BigOutcomeView::Range("Exponent must be non-negative"@)
        } else if bits_of(b as nat) > 30 {
            BigOutcomeView::Range("Maximum BigInt size exceeded"@)
        } else {
            BigOutcomeView::Value(pow(a, b as nat))
        },
        BinaryOp::Shl => match shift_by(b) {
            Some(k) => BigOutcomeView::Value(shifted_left(a, k)),
            None => BigOutcomeView::Range("Maximum BigInt size exceeded"@),
        },
        BinaryOp::Shr => match shift_by(b) {
            Some(k) => BigOutcomeView::Value(shifted_right(a, k)),
            None => BigOutcomeView::Range("Maximum BigInt size exceeded"@),
        },
        BinaryOp::BitAnd => BigOutcomeView::Value(combined(BitOp::And, a, b)),
        BinaryOp::BitOr => BigOutcomeView::Value(combined(BitOp::Or, a, b)),
        BinaryOp::BitXor => BigOutcomeView::Value(combined(BitOp::Xor, a, b)),
        _ => BigOutcomeView::Type("BigInts have no unsigned right shift, use >> instead"@),
    }
}

/// Whether few bits mean that 64 bits hold the number.
proof fn lemma_few_bits(n: nat, k: nat)
    requires
        bits_of(n) <= k,
        k <= 60,
    ensures
        n <= u64::MAX,
{
    crate::bigbits::lemma_bits_bound(n);
    vstd::arithmetic::power2::lemma2_to64();
    vstd::arithmetic::power2::lemma2_to64_rest();
    if bits_of(n) < 64 {
        vstd::arithmetic::power2::lemma_pow2_strictly_increases(bits_of(n), 64);
    }
}

fn shift_amount(b: &Big) -> (r: Option<u64>)
    ensures
        match r {
            Some(k) => shift_by(b@) == Some(k as nat),
            None => shift_by(b@) is None,
        },
{
    if b.is_negative() {
        return Some(0);
    }
    if b.bit_length() > 32 {
        return None;
    }
    proof {
        lemma_few_bits(b@ as nat, 32);
    }
    b.small()
}

/// Applies an operator to two big integers.
pub fn numeric_binary(op: BinaryOp, a: &Big, b: &Big) -> (r: BigOutcome)
    ensures
        r@ == big_outcome(op, a@, b@),
{
    match op {
        BinaryOp::Add => BigOutcome::Value(a.plus(b)),
        BinaryOp::Sub => BigOutcome::Value(a.minus(b)),
        BinaryOp::Mul => BigOutcome::Value(a.times(b)),
        BinaryOp::Div => if b.is_zero() {
            BigOutcome::Range("BigInt division by zero")
        } else {
            let (q, _m) = a.divmod(b);
            BigOutcome::Value(q)
        },
        BinaryOp::Rem => if b.is_zero() {
            BigOutcome::Range("BigInt division by zero")
        } else {
            let (_q, m) = a.divmod(b);
            BigOutcome::Value(m)
        },
        BinaryOp::Exp => if b.is_negative() {
            BigOutcome::Range("Exponent must be non-negative")
        } else if b.bit_length() > 30 {
            BigOutcome::Range("Maximum BigInt size exceeded")
        } else {
            proof {
                lemma_few_bits(b@ as nat, 30);
            }
            match b.small() {
                Some(e) => BigOutcome::Value(a.power(e)),
                None => BigOutcome::Range("Maximum BigInt size exceeded"),
            }
        },
        BinaryOp::Shl => match shift_amount(b) {
            Some(k) => BigOutcome::Value(a.shl(k)),
            None => BigOutcome::Range("Maximum BigInt size exceeded"),
        },
        BinaryOp::Shr => match shift_amount(b) {
            Some(k) => BigOutcome::Value(a.shr(k)),
            None => BigOutcome::Range("Maximum BigInt size exceeded"),
        },
        BinaryOp::BitAnd => BigOutcome::Value(bigint_bitop(a, b, BitOp::And)),
        BinaryOp::BitOr => BigOutcome::Value(bigint_bitop(a, b, BitOp::Or)),
        BinaryOp::BitXor => BigOutcome::Value(bigint_bitop(a, b, BitOp::Xor)),
        _ => BigOutcome::Type("BigInts have no unsigned right shift, use >> instead"),
    }
}

impl<'a> EngineView<'a> {
    /// The integer of a big integer value.
    pub open spec fn big_of(self, v: Value) -> Option<int> {
        match v {
            Value::BigInt(a) => int_of(self.store.text(a)),
            _ => None,
        }
    }

    /// Gives a big integer.
    pub open spec fn give_big(self, n: int) -> EngineView<'a> {
        self.with_store(self.store.with_text(int_text(n))).ret(Value::BigInt(self.store.atom(int_text(n))))
    }

    /// Gives what an operator on big integers gives.
    pub open spec fn give_outcome(self, o: BigOutcomeView) -> EngineView<'a> {
        match o {
            BigOutcomeView::Value(n) => self.give_big(n),
            BigOutcomeView::Range(m) => self.with_store(crate::make::with_error(self.store, self.store.b.range_error_proto, self.store.n.range_error, m)).throw(Value::Object(self.store.heap.cells.len() as usize)),
            BigOutcomeView::Type(m) => self.with_store(crate::make::with_error(self.store, self.store.b.type_error_proto, self.store.n.type_error, m)).throw(Value::Object(self.store.heap.cells.len() as usize)),
        }
    }
}

impl<'a> Engine<'a> {
    fn big_of(&self, v: Value) -> (r: Option<Big>)
        ensures
            match r {
                Some(b) => self@.big_of(v) == Some(b@),
                None => self@.big_of(v) is None,
            },
    {
        match v {
            Value::BigInt(a) => Big::from_decimal(self.store.heap.atoms.text(a)),
            _ => None,
        }
    }

    fn give_big(&mut self, b: &Big)
        ensures
            final(self)@ == old(self)@.give_big(b@),
    {
        let t = b.to_decimal_string();
        let a = self.intern(t.as_str());
        self.ret(Value::BigInt(a));
    }
}

/// The order seen from the other side.
pub open spec fn reversed(o: Option<Order>) -> Option<Order> {
    match o {
        Some(Order::Less) => Some(Order::Greater),
        Some(Order::Greater) => Some(Order::Less),
        _ => o,
    }
}

/// The comparison of two doubles.
pub open spec fn number_order(x: u64, y: u64) -> Option<Order> {
    if nan(x) || nan(y) {
        None
    } else if num_lt(x, y) {
        Some(Order::Less)
    } else if num_lt(y, x) {
        Some(Order::Greater)
    } else {
        Some(Order::Equal)
    }
}

/// Whether an order satisfies a comparison.
#[verifier::allow_in_spec]
pub fn satisfies(op: BinaryOp, o: Option<Order>) -> (r: bool)
    returns
        (match op {
            BinaryOp::Lt => o == Some(Order::Less),
            BinaryOp::Gt => o == Some(Order::Greater),
            BinaryOp::Le => o == Some(Order::Less) || o == Some(Order::Equal),
            BinaryOp::Ge => o == Some(Order::Greater) || o == Some(Order::Equal),
            _ => false,
        }),
{
    match op {
        BinaryOp::Lt => o == Some(Order::Less),
        BinaryOp::Gt => o == Some(Order::Greater),
        BinaryOp::Le => o == Some(Order::Less) || o == Some(Order::Equal),
        BinaryOp::Ge => o == Some(Order::Greater) || o == Some(Order::Equal),
        _ => false,
    }
}

/// Whether an operator compares.
#[verifier::allow_in_spec]
pub fn compares(op: BinaryOp) -> (r: bool)
    returns
        op is Lt || op is Gt || op is Le || op is Ge,
{
    matches!(op, BinaryOp::Lt | BinaryOp::Gt | BinaryOp::Le | BinaryOp::Ge)
}

/// Strict equality of big integers; other values never equal one.
#[verifier::allow_in_spec]
pub fn same_big(l: Value, r: Value) -> (b: bool)
    returns
        l is BigInt && l == r,
{
    matches!(l, Value::BigInt(_)) && l == r
}

/// Whether a value is a big integer.
#[verifier::allow_in_spec]
pub fn is_big(v: Value) -> (b: bool)
    returns
        v is BigInt,
{
    matches!(v, Value::BigInt(_))
}

/// Whether a value is the number that is none.
#[verifier::allow_in_spec]
pub fn is_nan_value(v: Value) -> (b: bool)
    returns
        (match v {
            Value::Number(x) => nan(x),
            _ => false,
        }),
{
    match v {
        Value::Number(x) => is_nan(x),
        _ => false,
    }
}

/// Whether a primitive is compared with a big integer by its number.
#[verifier::allow_in_spec]
pub fn big_comparable(v: Value) -> (b: bool)
    returns
        v is BigInt || v is Number || v is String || v is Boolean,
{
    matches!(v, Value::BigInt(_) | Value::Number(_) | Value::String(_) | Value::Boolean(_))
}

impl<'a> EngineView<'a> {
    /// Applies an operator to two big integer values.
    pub open spec fn big_operation(self, op: BinaryOp, l: Value, r: Value) -> EngineView<'a> {
        match (self.big_of(l), self.big_of(r)) {
            (Some(a), Some(b)) => self.give_outcome(big_outcome(op, a, b)),
            _ => self.throw_type("invalid BigInt internal representation"),
        }
    }

    /// Negates a big integer value.
    pub open spec fn big_negate(self, v: Value) -> EngineView<'a> {
        match self.big_of(v) {
            Some(a) => self.give_big(-a),
            None => self.throw_type("invalid BigInt internal representation"),
        }
    }

    /// Complements the bits of a big integer value.
    pub open spec fn big_complement(self, v: Value) -> EngineView<'a> {
        match self.big_of(v) {
            Some(a) => self.give_big(-a - 1),
            None => self.throw_type("invalid BigInt internal representation"),
        }
    }

    /// Adds or takes away one.
    pub open spec fn big_step(self, v: Value, up: bool) -> EngineView<'a> {
        match self.big_of(v) {
            Some(a) => self.give_big(if up { a + 1 } else { a - 1 }),
            None => self.throw_type("invalid BigInt internal representation"),
        }
    }

    /// The exact comparison of two numeric values.
    pub open spec fn numeric_order(self, l: Value, r: Value) -> Option<Order> {
        match (l, r) {
            (Value::Number(x), Value::Number(y)) => number_order(x, y),
            (Value::Number(x), Value::BigInt(_)) => match self.big_of(r) {
                Some(b) => number_against(x, b),
                None => None,
            },
            (Value::BigInt(_), Value::Number(y)) => match self.big_of(l) {
                Some(a) => reversed(number_against(y, a)),
                None => None,
            },
            (Value::BigInt(_), Value::BigInt(_)) => match (self.big_of(l), self.big_of(r)) {
                (Some(a), Some(b)) => Some(order_of(a, b)),
                _ => None,
            },
            _ => None,
        }
    }

    /// Whether a value is not a malformed big integer.
    pub open spec fn valid_numeric(self, v: Value) -> bool {
        !(v is BigInt) || self.big_of(v) is Some
    }

    /// Whether a big integer equals another primitive, which is read as a number.
    pub open spec fn big_equals(self, l: Value, r: Value) -> bool {
        match self.big_of(l) {
            Some(a) => match r {
                Value::BigInt(_) => self.big_of(r) == Some(a),
                Value::Number(y) => number_against(y, a) == Some(Order::Equal),
                Value::String(t) => int_of(self.store.text(t)) == Some(a),
                Value::Boolean(b) => a == (if b { 1int } else { 0int }),
                _ => false,
            },
            None => false,
        }
    }

    /// Applies a binary operator where an operand is a big integer.
    pub open spec fn binary_big(self, op: BinaryOp, l: Value, r: Value) -> EngineView<'a> {
        let s = self;
        match op {
            BinaryOp::Add => s.push(Frame::BigAddLeft(r)).push(Frame::ToPrim(PrimitiveHint::Default)).ret(l),
            BinaryOp::Eq => s.push(Frame::BigEqLeft(r, false)).push(Frame::ToPrim(PrimitiveHint::Default)).ret(l),
            BinaryOp::Ne => s.push(Frame::BigEqLeft(r, true)).push(Frame::ToPrim(PrimitiveHint::Default)).ret(l),
            BinaryOp::StrictEq => s.ret(Value::Boolean(same_big(l, r))),
            BinaryOp::StrictNe => s.ret(Value::Boolean(!same_big(l, r))),
            BinaryOp::In => s.in_key(l, r),
            _ => s.push(Frame::BigNumeric(op, r)).push(Frame::Numeric).push(Frame::ToPrim(PrimitiveHint::Number)).ret(l),
        }
    }

    /// Converts a primitive to a number, unless it is a big integer.
    pub open spec fn numeric(self) -> EngineView<'a> {
        let s = self;
        let v = s.value();
        match v {
            Value::BigInt(_) => s.ret(v),
            Value::Symbol(_) => s.throw_type("Cannot convert a Symbol value to a number"),
            _ => s.push(Frame::Num(v)),
        }
    }

    /// Converts the right operand of an addition to a primitive.
    pub open spec fn big_add_left(self, r: Value) -> EngineView<'a> {
        let s = self;
        let l = s.value();
        s.push(Frame::BigAddRight(l)).push(Frame::ToPrim(PrimitiveHint::Default)).ret(r)
    }

    /// Adds two primitives: strings are joined, others are added as numbers.
    pub open spec fn big_add_right(self, l: Value) -> EngineView<'a> {
        let s = self;
        let r = s.value();
        if l.is_string() || r.is_string() {
            s.push(Frame::BigConcat(r)).push(Frame::StringOf).ret(l)
        } else {
            s.push(Frame::BigNumeric(BinaryOp::Add, r)).push(Frame::Numeric).ret(l)
        }
    }

    /// Converts the right part of a concatenation, which may be refused.
    pub open spec fn big_concat(self, r: Value) -> EngineView<'a> {
        let s = self;
        let a = s.key();
        s.push(Frame::ConcatEnd(a)).push(Frame::StringOf).ret(r)
    }

    /// Converts the right operand to a numeric value.
    pub open spec fn big_numeric(self, op: BinaryOp, r: Value) -> EngineView<'a> {
        let s = self;
        let l = s.value();
        s.push(Frame::BigNumericEnd(op, l)).push(Frame::Numeric).push(Frame::ToPrim(PrimitiveHint::Number)).ret(r)
    }

    /// Applies an operator to two numeric values.
    pub open spec fn big_numeric_end(self, op: BinaryOp, l: Value) -> EngineView<'a> {
        let s = self;
        let r = s.value();
        if compares(op) {
            if is_nan_value(l) || is_nan_value(r) {
                s.ret(Value::Boolean(false))
            } else if !s.valid_numeric(l) || !s.valid_numeric(r) {
                s.throw_type("invalid BigInt internal representation")
            } else {
                let o = s.numeric_order(l, r);
                s.ret(Value::Boolean(satisfies(op, o)))
            }
        } else if is_big(l) && is_big(r) {
            s.big_operation(op, l, r)
        } else if is_big(l) || is_big(r) {
            s.throw_type("Cannot mix BigInt and other types, use explicit conversions")
        } else {
            s.binary_plain(op, l, r)
        }
    }

    /// Converts the right operand of an equality to a primitive.
    pub open spec fn big_eq_left(self, r: Value, negate: bool) -> EngineView<'a> {
        let s = self;
        let l = s.value();
        s.push(Frame::BigEqRight(l, negate)).push(Frame::ToPrim(PrimitiveHint::Default)).ret(r)
    }

    /// Compares two primitives, one of which may be a big integer.
    pub open spec fn big_eq_right(self, l: Value, negate: bool) -> EngineView<'a> {
        let s = self;
        let r = s.value();
        if (is_big(l) && big_comparable(r)) || (is_big(r) && big_comparable(l)) {
            if !s.valid_numeric(l) || !s.valid_numeric(r) {
                s.throw_type("invalid BigInt internal representation")
            } else if is_big(l) {
                let e = s.big_equals(l, r);
                s.ret(Value::Boolean(e != negate))
            } else {
                let e = s.big_equals(r, l);
                s.ret(Value::Boolean(e != negate))
            }
        } else {
            s.push(Frame::LooseEq(l, r, negate))
        }
    }

    /// Negates a numeric value.
    pub open spec fn negate_big(self) -> EngineView<'a> {
        let s = self;
        let v = s.value();
        match v {
            Value::BigInt(_) => s.big_negate(v),
            Value::Number(x) => s.ret(Value::Number(negated(x))),
            _ => s.ret(Value::Number(crate::number::NAN)),
        }
    }

    /// Complements the bits of a numeric value.
    pub open spec fn bit_not_big(self) -> EngineView<'a> {
        let s = self;
        let v = s.value();
        match v {
            Value::BigInt(_) => s.big_complement(v),
            Value::Number(x) => s.ret(Value::Number(bit_not(x))),
            _ => s.ret(Value::Number(crate::number::NAN)),
        }
    }

    /// Adds or takes away one, then stores the result.
    pub open spec fn inc_big(self, add: bool, post: bool, operand: &'a Expr, env: usize, before: Value) -> EngineView<'a> {
        let s = self;
        let v = s.value();
        match v {
            Value::BigInt(_) => s.push(Frame::IncStore { post: post, operand: operand, env: env, before: before }).big_step(v, add),
            Value::Number(x) => {
                s.push(Frame::IncStore { post: post, operand: operand, env: env, before: before }).ask(Request::Arith(if add { BinaryOp::Add } else { BinaryOp::Sub }, x, ONE))
            },
            _ => s.throw_type("invalid increment/decrement operand"),
        }
    }
}

impl<'a> Engine<'a> {
    /// Applies an operator to two big integer values.
    pub(crate) fn big_operation(&mut self, op: BinaryOp, l: Value, r: Value)
        ensures
            final(self)@ == old(self)@.big_operation(op, l, r),
    {
        match (self.big_of(l), self.big_of(r)) {
            (Some(a), Some(b)) => match numeric_binary(op, &a, &b) {
                BigOutcome::Value(n) => self.give_big(&n),
                BigOutcome::Range(m) => self.throw_range(m),
                BigOutcome::Type(m) => self.throw_type(m),
            },
            _ => self.throw_type("invalid BigInt internal representation"),
        }
    }

    /// Negates a big integer value.
    pub(crate) fn big_negate(&mut self, v: Value)
        ensures
            final(self)@ == old(self)@.big_negate(v),
    {
        match self.big_of(v) {
            Some(a) => {
                let n = a.negated();
                self.give_big(&n);
            },
            None => self.throw_type("invalid BigInt internal representation"),
        }
    }

    /// Complements the bits of a big integer value.
    pub(crate) fn big_complement(&mut self, v: Value)
        ensures
            final(self)@ == old(self)@.big_complement(v),
    {
        match self.big_of(v) {
            Some(a) => {
                let n = a.negated().minus(&Big::from_u64(1));
                self.give_big(&n);
            },
            None => self.throw_type("invalid BigInt internal representation"),
        }
    }

    /// Adds or takes away one.
    pub(crate) fn big_step(&mut self, v: Value, up: bool)
        ensures
            final(self)@ == old(self)@.big_step(v, up),
    {
        match self.big_of(v) {
            Some(a) => {
                let one = Big::from_u64(1);
                let n = if up { a.plus(&one) } else { a.minus(&one) };
                self.give_big(&n);
            },
            None => self.throw_type("invalid BigInt internal representation"),
        }
    }

    /// The exact comparison of two numeric values.
    pub(crate) fn numeric_order(&self, l: Value, r: Value) -> (res: Option<Order>)
        ensures
            res == self@.numeric_order(l, r),
    {
        match (l, r) {
            (Value::Number(x), Value::Number(y)) => if is_nan(x) || is_nan(y) {
                None
            } else if number_lt(x, y) {
                Some(Order::Less)
            } else if number_lt(y, x) {
                Some(Order::Greater)
            } else {
                Some(Order::Equal)
            },
            (Value::Number(x), Value::BigInt(_)) => match self.big_of(r) {
                Some(b) => compare_number_bigint(x, &b),
                None => None,
            },
            (Value::BigInt(_), Value::Number(y)) => match self.big_of(l) {
                Some(a) => match compare_number_bigint(y, &a) {
                    Some(Order::Less) => Some(Order::Greater),
                    Some(Order::Greater) => Some(Order::Less),
                    o => o,
                },
                None => None,
            },
            (Value::BigInt(_), Value::BigInt(_)) => match (self.big_of(l), self.big_of(r)) {
                (Some(a), Some(b)) => Some(compare_bigs(&a, &b)),
                _ => None,
            },
            _ => None,
        }
    }

    /// Whether a value is not a malformed big integer.
    pub(crate) fn valid_numeric(&self, v: Value) -> (res: bool)
        ensures
            res == self@.valid_numeric(v),
    {
        !matches!(v, Value::BigInt(_)) || self.big_of(v).is_some()
    }

    /// Whether a big integer equals another primitive, which is read as a number.
    pub(crate) fn big_equals(&self, l: Value, r: Value) -> (res: bool)
        ensures
            res == self@.big_equals(l, r),
    {
        match self.big_of(l) {
            Some(a) => match r {
                Value::BigInt(_) => match self.big_of(r) {
                    Some(b) => a.same(&b),
                    None => false,
                },
                Value::Number(y) => number_equals_bigint(y, &a),
                Value::String(t) => match Big::from_decimal(self.store.heap.atoms.text(t)) {
                    Some(b) => a.same(&b),
                    None => false,
                },
                Value::Boolean(b) => a.same(&Big::from_u64(if b { 1 } else { 0 })),
                _ => false,
            },
            None => false,
        }
    }

    /// Applies a binary operator where an operand is a big integer.
    pub(crate) fn binary_big(&mut self, op: BinaryOp, l: Value, r: Value)
        ensures
            final(self)@ == old(self)@.binary_big(op, l, r),
    {
        match op {
            BinaryOp::Add => { self.push(Frame::BigAddLeft(r)); self.push(Frame::ToPrim(PrimitiveHint::Default)); self.ret(l); },
            BinaryOp::Eq => { self.push(Frame::BigEqLeft(r, false)); self.push(Frame::ToPrim(PrimitiveHint::Default)); self.ret(l); },
            BinaryOp::Ne => { self.push(Frame::BigEqLeft(r, true)); self.push(Frame::ToPrim(PrimitiveHint::Default)); self.ret(l); },
            BinaryOp::StrictEq => { self.ret(Value::Boolean(same_big(l, r))); },
            BinaryOp::StrictNe => { self.ret(Value::Boolean(!same_big(l, r))); },
            BinaryOp::In => { self.in_key(l, r); },
            _ => { self.push(Frame::BigNumeric(op, r)); self.push(Frame::Numeric); self.push(Frame::ToPrim(PrimitiveHint::Number)); self.ret(l); },
        }
    }

    /// Converts a primitive to a number, unless it is a big integer.
    pub(crate) fn numeric(&mut self)
        ensures
            final(self)@ == old(self)@.numeric(),
    {
        let v = self.value();
        match v {
            Value::BigInt(_) => { self.ret(v); },
            Value::Symbol(_) => { self.throw_type("Cannot convert a Symbol value to a number"); },
            _ => { self.push(Frame::Num(v)); },
        }
    }

    /// Converts the right operand of an addition to a primitive.
    pub(crate) fn big_add_left(&mut self, r: Value)
        ensures
            final(self)@ == old(self)@.big_add_left(r),
    {
        let l = self.value();
        self.push(Frame::BigAddRight(l)); self.push(Frame::ToPrim(PrimitiveHint::Default)); self.ret(r);
    }

    /// Adds two primitives: strings are joined, others are added as numbers.
    pub(crate) fn big_add_right(&mut self, l: Value)
        ensures
            final(self)@ == old(self)@.big_add_right(l),
    {
        let r = self.value();
        if l.is_string() || r.is_string() {
            self.push(Frame::BigConcat(r)); self.push(Frame::StringOf); self.ret(l);
        } else {
            self.push(Frame::BigNumeric(BinaryOp::Add, r)); self.push(Frame::Numeric); self.ret(l);
        }
    }

    /// Converts the right part of a concatenation, which may be refused.
    pub(crate) fn big_concat(&mut self, r: Value)
        ensures
            final(self)@ == old(self)@.big_concat(r),
    {
        let a = self.key();
        self.push(Frame::ConcatEnd(a)); self.push(Frame::StringOf); self.ret(r);
    }

    /// Converts the right operand to a numeric value.
    pub(crate) fn big_numeric(&mut self, op: BinaryOp, r: Value)
        ensures
            final(self)@ == old(self)@.big_numeric(op, r),
    {
        let l = self.value();
        self.push(Frame::BigNumericEnd(op, l)); self.push(Frame::Numeric); self.push(Frame::ToPrim(PrimitiveHint::Number)); self.ret(r);
    }

    /// Applies an operator to two numeric values.
    pub(crate) fn big_numeric_end(&mut self, op: BinaryOp, l: Value)
        ensures
            final(self)@ == old(self)@.big_numeric_end(op, l),
    {
        let r = self.value();
        if compares(op) {
            if is_nan_value(l) || is_nan_value(r) {
                self.ret(Value::Boolean(false));
            } else if !self.valid_numeric(l) || !self.valid_numeric(r) {
                self.throw_type("invalid BigInt internal representation");
            } else {
                let o = self.numeric_order(l, r);
                self.ret(Value::Boolean(satisfies(op, o)));
            }
        } else if is_big(l) && is_big(r) {
            self.big_operation(op, l, r);
        } else if is_big(l) || is_big(r) {
            self.throw_type("Cannot mix BigInt and other types, use explicit conversions");
        } else {
            self.binary_plain(op, l, r);
        }
    }

    /// Converts the right operand of an equality to a primitive.
    pub(crate) fn big_eq_left(&mut self, r: Value, negate: bool)
        ensures
            final(self)@ == old(self)@.big_eq_left(r, negate),
    {
        let l = self.value();
        self.push(Frame::BigEqRight(l, negate)); self.push(Frame::ToPrim(PrimitiveHint::Default)); self.ret(r);
    }

    /// Compares two primitives, one of which may be a big integer.
    pub(crate) fn big_eq_right(&mut self, l: Value, negate: bool)
        ensures
            final(self)@ == old(self)@.big_eq_right(l, negate),
    {
        let r = self.value();
        if (is_big(l) && big_comparable(r)) || (is_big(r) && big_comparable(l)) {
            if !self.valid_numeric(l) || !self.valid_numeric(r) {
                self.throw_type("invalid BigInt internal representation");
            } else if is_big(l) {
                let e = self.big_equals(l, r);
                self.ret(Value::Boolean(e != negate));
            } else {
                let e = self.big_equals(r, l);
                self.ret(Value::Boolean(e != negate));
            }
        } else {
            self.push(Frame::LooseEq(l, r, negate));
        }
    }

    /// Negates a numeric value.
    pub(crate) fn negate_big(&mut self)
        ensures
            final(self)@ == old(self)@.negate_big(),
    {
        let v = self.value();
        match v {
            Value::BigInt(_) => { self.big_negate(v); },
            Value::Number(x) => { self.ret(Value::Number(negated(x))); },
            _ => { self.ret(Value::Number(crate::number::NAN)); },
        }
    }

    /// Complements the bits of a numeric value.
    pub(crate) fn bit_not_big(&mut self)
        ensures
            final(self)@ == old(self)@.bit_not_big(),
    {
        let v = self.value();
        match v {
            Value::BigInt(_) => { self.big_complement(v); },
            Value::Number(x) => { self.ret(Value::Number(bit_not(x))); },
            _ => { self.ret(Value::Number(crate::number::NAN)); },
        }
    }

    /// Adds or takes away one, then stores the result.
    pub(crate) fn inc_big(&mut self, add: bool, post: bool, operand: &'a Expr, env: usize, before: Value)
        ensures
            final(self)@ == old(self)@.inc_big(add, post, operand, env, before),
    {
        let v = self.value();
        match v {
            Value::BigInt(_) => { self.push(Frame::IncStore { post: post, operand: operand, env: env, before: before }); self.big_step(v, add); },
            Value::Number(x) => {
                self.push(Frame::IncStore { post: post, operand: operand, env: env, before: before }); self.ask(Request::Arith(if add { BinaryOp::Add } else { BinaryOp::Sub }, x, ONE));
            },
            _ => { self.throw_type("invalid increment/decrement operand"); },
        }
    }
}

} // verus!
