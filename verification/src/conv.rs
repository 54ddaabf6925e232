//! Conversions of values by the machine.
use vstd::prelude::*;
use vstd::utf8::encode_utf8;
use crate::ast::{BinaryOp, Expr, PropKey};
use crate::engine::{Engine, EngineView, Frame, PrimitiveHint, Request};
use crate::number::{
    double_of, from_i32, from_u64, int32, int_pattern, magnitude, negative, number_le, number_lt, to_int32,
    to_uint32, uint32, NAN, ONE, SIGN,
};
use crate::numtext::{
    decimal_numeral, exp_format, exponential, format_number, integer_key, integer_key_text, numeral, printed, read_decimal,
    sign_text, str_to_number_value, with_sign, Numeral, NumeralView, Printed, PrintedView,
};
use crate::convert::same_kind;
use crate::nth::next;
use crate::object::Read;
use crate::scan::slice;
use crate::text::chars_of;
use crate::value::Value;

verus! {

impl<'a> EngineView<'a> {
    /// Gives a number, or asks the host for it.
    pub open spec fn with_numeral(self, v: NumeralView) -> EngineView<'a> {
        match v {
            NumeralView::Known(b) => self.ret(Value::Number(b)),
            NumeralView::Decimal { text, negative } => self.with_store(self.store.with_text(text)).ask(Request::Decimal { text: self.store.atom(text), negative }),
            NumeralView::Radix { text, radix } => self.with_store(self.store.with_text(text)).ask(Request::Radix { text: self.store.atom(text), radix }),
        }
    }
}

impl<'a> Engine<'a> {
    fn take_numeral(&mut self, v: Numeral)
        ensures
            final(self)@ == old(self)@.with_numeral(v@),
    {
        match v {
            Numeral::Known(b) => self.ret(Value::Number(b)),
            Numeral::Decimal { text, negative } => {
                let a = self.intern(text.as_str());
                self.ask(Request::Decimal { text: a, negative });
            },
            Numeral::Radix { text, radix } => {
                let a = self.intern(text.as_str());
                self.ask(Request::Radix { text: a, radix });
            },
        }
    }
}

/// The number of a big integer's decimal text.
pub open spec fn big_numeral(t: Seq<char>) -> NumeralView {
    if t.len() > 0 && t[0] == '-' {
        decimal_numeral(t.subrange(1, t.len() as int), true)
    } else {
        decimal_numeral(t, false)
    }
}

/// Whether a conversion with a hint tries `valueOf` first.
#[verifier::allow_in_spec]
pub fn hint_number(hint: PrimitiveHint) -> (r: bool)
    returns
        !(hint is String),
{
    !matches!(hint, PrimitiveHint::String)
}

/// The atom of a hint's name.
#[verifier::allow_in_spec]
pub fn hint_name(n: crate::store::Names, hint: PrimitiveHint) -> (r: usize)
    returns
        (match hint {
            PrimitiveHint::Default => n.default_hint,
            PrimitiveHint::Number => n.number,
            PrimitiveHint::String => n.string,
        }),
{
    match hint {
        PrimitiveHint::Default => n.default_hint,
        PrimitiveHint::Number => n.number,
        PrimitiveHint::String => n.string,
    }
}

/// The bitwise and of two numbers as 32-bit integers.
#[verifier::allow_in_spec]
pub fn bit_and(x: u64, y: u64) -> (r: u64)
    returns
        int_pattern((int32(x) as i32 & int32(y) as i32) as int) as u64,
{
    from_i32(to_int32(x) & to_int32(y))
}

/// The bitwise or of two numbers as 32-bit integers.
#[verifier::allow_in_spec]
pub fn bit_or(x: u64, y: u64) -> (r: u64)
    returns
        int_pattern((int32(x) as i32 | int32(y) as i32) as int) as u64,
{
    from_i32(to_int32(x) | to_int32(y))
}

/// The bitwise exclusive or of two numbers as 32-bit integers.
#[verifier::allow_in_spec]
pub fn bit_xor(x: u64, y: u64) -> (r: u64)
    returns
        int_pattern((int32(x) as i32 ^ int32(y) as i32) as int) as u64,
{
    from_i32(to_int32(x) ^ to_int32(y))
}

/// The complement of a number as a 32-bit integer.
#[verifier::allow_in_spec]
pub fn bit_not(x: u64) -> (r: u64)
    returns
        int_pattern(-1 - int32(x)) as u64,
{
    let v: i32 = to_int32(x);
    from_i32(-1 - v)
}

/// The shift of a number as a 32-bit integer to the left, by the lowest five bits
/// of another; bits beyond the 32 are lost.
#[verifier::allow_in_spec]
pub fn shift_left(x: u64, y: u64) -> (r: u64)
    returns
        int_pattern((((uint32(x) as u32) << (uint32(y) as u32 & 0x1f)) as i32) as int) as u64,
{
    let k: u32 = to_uint32(y) & 0x1f;
    assert(k < 32) by {
        let u = uint32(y) as u32;
        assert(u & 0x1f < 32) by (bit_vector);
    }
    from_i32((to_uint32(x) << k) as i32)
}

/// The shift of a number as a 32-bit integer to the right, by the lowest five bits
/// of another; the sign stays.
#[verifier::allow_in_spec]
pub fn shift_right(x: u64, y: u64) -> (r: u64)
    returns
        int_pattern(((int32(x) as i32) >> (uint32(y) as u32 & 0x1f)) as int) as u64,
{
    let k: u32 = to_uint32(y) & 0x1f;
    assert(k < 32) by {
        let u = uint32(y) as u32;
        assert(u & 0x1f < 32) by (bit_vector);
    }
    from_i32(to_int32(x) >> k)
}

/// The shift of a number as an unsigned 32-bit integer to the right, by the lowest
/// five bits of another.
#[verifier::allow_in_spec]
pub fn shift_unsigned(x: u64, y: u64) -> (r: u64)
    returns
        double_of(((uint32(x) as u32) >> (uint32(y) as u32 & 0x1f)) as nat) as u64,
{
    let k: u32 = to_uint32(y) & 0x1f;
    assert(k < 32) by {
        let u = uint32(y) as u32;
        assert(u & 0x1f < 32) by (bit_vector);
    }
    from_u64((to_uint32(x) >> k) as u64)
}

impl<'a> EngineView<'a> {
    /// The number of a literal.
    pub open spec fn number_literal(self, t: &'a String) -> EngineView<'a> {
        self.with_numeral(numeral(t@))
    }

    /// The number of a string.
    pub open spec fn number_of_text(self, a: usize) -> EngineView<'a> {
        self.with_numeral(numeral(self.store.text(a)))
    }

    /// The number nearest to a big integer.
    pub open spec fn number_of_big(self, a: usize) -> EngineView<'a> {
        self.with_numeral(big_numeral(self.store.text(a)))
    }

    /// Gives the text of a number, or asks the host for it.
    pub open spec fn print_number(self, b: u64) -> EngineView<'a> {
        match printed(b) {
            PrintedView::Known(t) => self.with_store(self.store.with_text(t)).ret(Value::String(self.store.atom(t))),
            PrintedView::Fixed { negative } => self.push(Frame::TextSign(negative)).ask(Request::Fixed(magnitude(b))),
            PrintedView::Exponent { negative } => self.push(Frame::TextExponent(negative)).ask(Request::Exponent(magnitude(b))),
        }
    }

    /// The atom of a text with its sign.
    pub open spec fn signed_atom(self, a: usize, minus: bool) -> (EngineView<'a>, usize) {
        (self.with_store(self.store.with_text(with_sign(self.store.text(a), minus))), self.store.atom(with_sign(self.store.text(a), minus)))
    }

    /// The atom of a number in exponential notation, from the host's text.
    pub open spec fn exponent_atom(self, a: usize, minus: bool) -> (EngineView<'a>, usize) {
        let t = with_sign(exponential(self.store.text(a)), minus);
        (self.with_store(self.store.with_text(t)), self.store.atom(t))
    }

    /// The atom of a number as an integer key.
    pub open spec fn integer_key_atom(self, b: u64) -> (EngineView<'a>, usize) {
        (self.with_store(self.store.with_text(integer_key(b))), self.store.atom(integer_key(b)))
    }

    /// The atom of what `typeof` says.
    pub open spec fn typeof_atom(self, v: Value) -> (EngineView<'a>, usize) {
        (self.with_store(self.store.with_text(v.typeof_text())), self.store.atom(v.typeof_text()))
    }

    /// The length of a text in bytes, as a number.
    pub open spec fn byte_len(self, a: usize) -> u64 {
        double_of(encode_utf8(self.store.text(a)).len() as usize as nat) as u64
    }

    /// Whether a value is a big integer or wraps one.
    pub open spec fn bigint_direct(self, v: Value) -> bool {
        match v {
            Value::BigInt(_) => true,
            Value::Object(o) => match self.own_prop(o, self.store.n.boxed) {
                Some(p) => p.value is BigInt,
                None => false,
            },
            _ => false,
        }
    }

    /// Reads a property; a getter that fails gives `undefined`.
    pub open spec fn read_prop(self, base: Value, key: usize) -> EngineView<'a> {
        let s = self;
        match s.property(base, key) {
            Read::Value(v) => s.ret(v),
            Read::Getter(g) => {
                let (s, l) = s.new_list();
                s.push(Frame::Swallow).push(Frame::Call { func: g, this: base, list: l })
            },
            Read::Char(c) => {
                let (s, a) = s.char_atom(c);
                s.ret(Value::String(a))
            },
            Read::LengthOf(v) => s.push(Frame::ByteLen).push(Frame::Text(v)),
        }
    }

    /// The length of a string in bytes.
    pub open spec fn byte_len_end(self) -> EngineView<'a> {
        let s = self;
        let n = s.byte_len(s.key());
        s.ret(Value::Number(n))
    }

    /// Converts the value to a property key.
    pub open spec fn to_property_key(self) -> EngineView<'a> {
        let s = self;
        match s.value() {
            Value::Symbol(id) => s.ret(Value::String(id)),
            _ => s.push(Frame::KeyText).push(Frame::ToPrim(PrimitiveHint::String)),
        }
    }

    /// The property key of a primitive.
    pub open spec fn key_text(self) -> EngineView<'a> {
        let s = self;
        match s.value() {
            Value::Symbol(id) => s.ret(Value::String(id)),
            v => s.push(Frame::Text(v)),
        }
    }

    /// Evaluates a property key.
    pub open spec fn key_start(self, key: &'a PropKey, env: usize) -> EngineView<'a> {
        let s = self;
        match key {
            PropKey::Ident(t) => {
                let (s, a) = s.intern_name(t);
                s.ret(Value::String(a))
            },
            PropKey::Str(t) => {
                let (s, a) = s.intern_name(t);
                s.ret(Value::String(a))
            },
            PropKey::Computed(e) => s.push(Frame::ToKey).push(Frame::Expr(&**e, env)),
        }
    }

    /// Converts the value to a primitive.
    pub open spec fn to_primitive(self, hint: PrimitiveHint) -> EngineView<'a> {
        let s = self;
        let v = s.value();
        if v.is_object_value() {
            let k = s.n().to_primitive;
            s.push(Frame::PrimExotic(v, hint)).read_prop(v, k)
        } else {
            s.ret(v)
        }
    }

    /// Prefers the conversion method of the object itself.
    pub open spec fn prim_exotic(self, v: Value, hint: PrimitiveHint) -> EngineView<'a> {
        let s = self;
        let f = s.value();
        if f.is_nullish() {
            s.push(Frame::PrimTry { value: v, number_first: hint_number(hint), second: false })
        } else if f.is_callable_value() {
            let n = s.n();
            let (s, l) = s.list1(Value::String(hint_name(n, hint)));
            s.push(Frame::PrimEnd).push(Frame::Call { func: f, this: v, list: l })
        } else {
            s.throw_type("Symbol.toPrimitive is not callable")
        }
    }

    /// Checks the result of the object's own conversion method.
    pub open spec fn prim_end(self) -> EngineView<'a> {
        let s = self;
        let v = s.value();
        if v.is_object_value() {
            s.throw_type("Cannot convert object to primitive value")
        } else {
            s.ret(v)
        }
    }

    /// Looks up one of the two ordinary conversion methods.
    pub open spec fn prim_try(self, v: Value, number_first: bool, second: bool) -> EngineView<'a> {
        let s = self;
        let n = s.n();
        let k = if number_first != second { n.value_of } else { n.to_string };
        s.push(Frame::PrimCall { value: v, number_first: number_first, second: second }).read_prop(v, k)
    }

    /// Goes on to the second conversion method, or gives up.
    pub open spec fn prim_next(self, v: Value, number_first: bool, second: bool) -> EngineView<'a> {
        let s = self;
        if second {
            s.throw_type("Cannot convert object to primitive value")
        } else {
            s.push(Frame::PrimTry { value: v, number_first: number_first, second: true })
        }
    }

    /// Calls a conversion method.
    pub open spec fn prim_call(self, v: Value, number_first: bool, second: bool) -> EngineView<'a> {
        let s = self;
        let f = s.value();
        if f.is_callable_value() {
            let (s, l) = s.new_list();
            s.push(Frame::PrimGot { value: v, number_first: number_first, second: second }).push(Frame::Call { func: f, this: v, list: l })
        } else {
            s.prim_next(v, number_first, second)
        }
    }

    /// Takes a primitive result.
    pub open spec fn prim_got(self, v: Value, number_first: bool, second: bool) -> EngineView<'a> {
        let s = self;
        let r = s.value();
        if r.is_object_value() {
            s.prim_next(v, number_first, second)
        } else {
            s.ret(r)
        }
    }

    /// Converts a value to a number without running code of the program.
    pub open spec fn num(self, v: Value) -> EngineView<'a> {
        let s = self;
        match v {
            Value::Null => s.ret(Value::Number(0)),
            Value::Boolean(b) => s.ret(Value::Number(if b { ONE } else { 0 })),
            Value::Number(n) => s.ret(Value::Number(n)),
            Value::String(a) => s.number_of_text(a),
            Value::BigInt(a) => s.number_of_big(a),
            Value::Object(o) => {
                match s.own_prop(o, s.n().boxed) {
                    Some(p) => s.push(Frame::Num(p.value)),
                    None => s.ret(Value::Number(NAN)),
                }
            },
            _ => s.ret(Value::Number(NAN)),
        }
    }

    /// Converts a value to a string without running code of the program.
    pub open spec fn text(self, v: Value) -> EngineView<'a> {
        let s = self;
        let n = s.n();
        match v {
            Value::Undefined => s.ret(Value::String(n.undefined)),
            Value::Null => s.ret(Value::String(n.null)),
            Value::Boolean(b) => s.ret(Value::String(if b { n.true_text } else { n.false_text })),
            Value::Number(b) => s.print_number(b),
            Value::String(a) => s.ret(Value::String(a)),
            Value::BigInt(a) => s.ret(Value::String(a)),
            Value::Regex(r) => {
                let (s, a) = s.regex_atom(r);
                s.ret(Value::String(a))
            },
            Value::Symbol(id) => {
                let (s, a) = s.symbol_atom(id);
                s.ret(Value::String(a))
            },
            Value::MapRef(_) => {
                let (s, a) = s.intern("[object Map]");
                s.ret(Value::String(a))
            },
            Value::SetRef(_) => {
                let (s, a) = s.intern("[object Set]");
                s.ret(Value::String(a))
            },
            Value::WeakMap(_) => {
                let (s, a) = s.intern("[object WeakMap]");
                s.ret(Value::String(a))
            },
            Value::WeakSet(_) => {
                let (s, a) = s.intern("[object WeakSet]");
                s.ret(Value::String(a))
            },
            Value::Promise(_) => {
                let (s, a) = s.intern("[object Promise]");
                s.ret(Value::String(a))
            },
            Value::Object(o) => {
                match s.own_prop(o, n.boxed) {
                    Some(p) => s.push(Frame::Text(p.value)),
                    None => {
                        let (s, a) = s.intern("[object Object]");
                        s.ret(Value::String(a))
                    },
                }
            },
            Value::Array(a) => s.push(Frame::TextJoin(a, 0, n.empty)),
            Value::Function(_) | Value::NativeFunction(_) => s.ret(Value::String(n.function)),
        }
    }

    /// Joins the texts of an array's elements with commas.
    pub open spec fn text_join(self, a: usize, i: usize, done: usize) -> EngineView<'a> {
        let s = self;
        if i < s.list_len(a) {
            let v = s.list_at(a, i);
            s.push(Frame::TextItem(a, i, done)).push(Frame::Text(v))
        } else {
            s.ret(Value::String(done))
        }
    }

    /// Adds the text of an element.
    pub open spec fn text_item(self, a: usize, i: usize, done: usize) -> EngineView<'a> {
        let s = self;
        let t = s.key();
        if i == 0 {
            s.push(Frame::TextJoin(a, 1, t))
        } else {
            let (s, c) = s.affix("", done, ",");
            let (s, d) = s.concat(c, t);
            s.push(Frame::TextJoin(a, next(i), d))
        }
    }

    /// Adds the sign to the host's text of a magnitude.
    pub open spec fn text_sign(self, minus: bool) -> EngineView<'a> {
        let s = self;
        let t = s.key();
        let (s, a) = s.signed_atom(t, minus);
        s.ret(Value::String(a))
    }

    /// Lays out the host's exponential text of a magnitude.
    pub open spec fn text_exponent(self, minus: bool) -> EngineView<'a> {
        let s = self;
        let t = s.key();
        let (s, a) = s.exponent_atom(t, minus);
        s.ret(Value::String(a))
    }

    /// The string of a primitive; symbols have none.
    pub open spec fn string_of(self) -> EngineView<'a> {
        let s = self;
        match s.value() {
            Value::Symbol(_) => s.throw_type("Cannot convert a Symbol to a string"),
            v => s.push(Frame::Text(v)),
        }
    }

    /// The number of a primitive; symbols and big integers have none.
    pub open spec fn number_end(self) -> EngineView<'a> {
        let s = self;
        match s.value() {
            Value::Symbol(_) => s.throw_type("Cannot convert a Symbol or BigInt to a number"),
            Value::BigInt(_) => s.throw_type("Cannot convert a Symbol or BigInt to a number"),
            v => s.push(Frame::Num(v)),
        }
    }

    /// Applies a binary operator.
    pub open spec fn binary(self, op: BinaryOp, l: Value, r: Value) -> EngineView<'a> {
        let s = self;
        if s.bigint_direct(l) || s.bigint_direct(r) {
            s.binary_big(op, l, r)
        } else {
            s.binary_plain(op, l, r)
        }
    }

    /// Applies a binary operator to operands without big integers.
    pub open spec fn binary_plain(self, op: BinaryOp, l: Value, r: Value) -> EngineView<'a> {
        let s = self;
        match op {
            BinaryOp::Add => {
                if l.is_string() || r.is_string() {
                    s.push(Frame::ConcatRight(r)).push(Frame::Text(l))
                } else {
                    s.push(Frame::NumRight(op, r)).push(Frame::Num(l))
                }
            },
            BinaryOp::Eq => s.push(Frame::LooseEq(l, r, false)),
            BinaryOp::Ne => s.push(Frame::LooseEq(l, r, true)),
            BinaryOp::StrictEq => s.ret(Value::Boolean(Value::strict_eq(l, r))),
            BinaryOp::StrictNe => s.ret(Value::Boolean(!Value::strict_eq(l, r))),
            BinaryOp::In => s.in_key(l, r),
            _ => s.push(Frame::NumRight(op, r)).push(Frame::Num(l)),
        }
    }

    /// The key on the left of `in`: a number is truncated to an integer.
    pub open spec fn in_key(self, l: Value, r: Value) -> EngineView<'a> {
        let s = self;
        match l {
            Value::Number(b) => {
                let (s, a) = s.integer_key_atom(b);
                s.push(Frame::InKey(r)).ret(Value::String(a))
            },
            Value::Symbol(id) => s.push(Frame::InKey(r)).ret(Value::String(id)),
            _ => s.push(Frame::InKey(r)).push(Frame::Text(l)),
        }
    }

    /// Answers `in`.
    pub open spec fn in_end(self, r: Value) -> EngineView<'a> {
        let s = self;
        let found = s.found_in(s.key(), r);
        s.ret(Value::Boolean(found))
    }

    /// Converts the right part of a concatenation.
    pub open spec fn concat_right(self, r: Value) -> EngineView<'a> {
        let s = self;
        let a = s.key();
        s.push(Frame::ConcatEnd(a)).push(Frame::Text(r))
    }

    /// Joins two strings.
    pub open spec fn concat_end(self, a: usize) -> EngineView<'a> {
        let s = self;
        let b = s.key();
        let (s, c) = s.concat(a, b);
        s.ret(Value::String(c))
    }

    /// Converts the right operand of a numeric operator.
    pub open spec fn num_right(self, op: BinaryOp, r: Value) -> EngineView<'a> {
        let s = self;
        let x = s.bits();
        s.push(Frame::NumEnd(op, x)).push(Frame::Num(r))
    }

    /// Applies a numeric operator to two numbers.
    pub open spec fn num_end(self, op: BinaryOp, x: u64) -> EngineView<'a> {
        let s = self;
        let y = s.bits();
        s.apply_numbers(op, x, y)
    }

    /// Applies a numeric operator: arithmetic is the host's, comparisons and bit
    /// operations are exact.
    pub open spec fn apply_numbers(self, op: BinaryOp, x: u64, y: u64) -> EngineView<'a> {
        let s = self;
        match op {
            BinaryOp::Lt => s.ret(Value::Boolean(number_lt(x, y))),
            BinaryOp::Gt => s.ret(Value::Boolean(number_lt(y, x))),
            BinaryOp::Le => s.ret(Value::Boolean(number_le(x, y))),
            BinaryOp::Ge => s.ret(Value::Boolean(number_le(y, x))),
            BinaryOp::BitAnd => s.ret(Value::Number(bit_and(x, y))),
            BinaryOp::BitOr => s.ret(Value::Number(bit_or(x, y))),
            BinaryOp::BitXor => s.ret(Value::Number(bit_xor(x, y))),
            BinaryOp::Shl => s.ret(Value::Number(shift_left(x, y))),
            BinaryOp::Shr => s.ret(Value::Number(shift_right(x, y))),
            BinaryOp::Ushr => s.ret(Value::Number(shift_unsigned(x, y))),
            _ => s.ask(Request::Arith(op, x, y)),
        }
    }

    /// Abstract equality: same kinds compare strictly; else a boolean becomes a number, a
    /// string beside a number too, and an object beside a string or a number its text,
    /// and what came of it is compared with the other side.
    pub open spec fn loose_eq(self, a: Value, b: Value, negate: bool) -> EngineView<'a> {
        let s = self;
        if same_kind(a, b) {
            s.ret(Value::Boolean(Value::strict_eq(a, b) != negate))
        } else if (a.is_null() && b.is_undefined()) || (a.is_undefined() && b.is_null()) {
            s.ret(Value::Boolean(!negate))
        } else if a.is_number() && b.is_string() {
            s.push(Frame::LooseOther(a, negate)).push(Frame::Num(b))
        } else if a.is_string() && b.is_number() {
            s.push(Frame::LooseOther(b, negate)).push(Frame::Num(a))
        } else if a.is_boolean() {
            s.push(Frame::LooseOther(b, negate)).push(Frame::Num(a))
        } else if b.is_boolean() {
            s.push(Frame::LooseOther(a, negate)).push(Frame::Num(b))
        } else if (a.is_string() || a.is_number()) && b.is_plain_object() {
            s.push(Frame::LooseOther(a, negate)).push(Frame::Text(b))
        } else if a.is_plain_object() && (b.is_string() || b.is_number()) {
            s.push(Frame::LooseOther(b, negate)).push(Frame::Text(a))
        } else {
            s.ret(Value::Boolean(negate))
        }
    }

    /// Compares the converted side with the other one.
    pub open spec fn loose_other(self, other: Value, negate: bool) -> EngineView<'a> {
        let s = self;
        let v = s.value();
        s.push(Frame::LooseEq(v, other, negate))
    }
}

impl<'a> Engine<'a> {
    /// The number of a literal.
    pub(crate) fn number_literal(&mut self, t: &'a String)
        ensures
            final(self)@ == old(self)@.number_literal(t),
    {
        let v = str_to_number_value(t.as_str());
        self.take_numeral(v);
    }

    /// The number of a string.
    pub(crate) fn number_of_text(&mut self, a: usize)
        ensures
            final(self)@ == old(self)@.number_of_text(a),
    {
        let v = str_to_number_value(self.store.heap.atoms.text(a));
        self.take_numeral(v);
    }

    /// The number nearest to a big integer.
    pub(crate) fn number_of_big(&mut self, a: usize)
        ensures
            final(self)@ == old(self)@.number_of_big(a),
    {
        let t = chars_of(self.store.heap.atoms.text(a));
        let v = if t.len() > 0 && t[0] == '-' {
            let d = slice(&t, 1, t.len());
            read_decimal(&d, true)
        } else {
            read_decimal(&t, false)
        };
        self.take_numeral(v);
    }

    /// Gives the text of a number, or asks the host for it.
    pub(crate) fn print_number(&mut self, b: u64)
        ensures
            final(self)@ == old(self)@.print_number(b),
    {
        let m = if b >= SIGN { b - SIGN } else { b };
        match format_number(b) {
            Printed::Known(t) => {
                let a = self.intern(t.as_str());
                self.ret(Value::String(a));
            },
            Printed::Fixed { negative } => {
                self.push(Frame::TextSign(negative));
                self.ask(Request::Fixed(m));
            },
            Printed::Exponent { negative } => {
                self.push(Frame::TextExponent(negative));
                self.ask(Request::Exponent(m));
            },
        }
    }

    /// The atom of a text with its sign.
    pub(crate) fn signed_atom(&mut self, a: usize, minus: bool) -> (res: usize)
        ensures
            (final(self)@, res) == old(self)@.signed_atom(a, minus),
    {
        let t = sign_text(self.store.heap.atoms.text(a), minus);
        self.intern(t.as_str())
    }

    /// The atom of a number in exponential notation, from the host's text.
    pub(crate) fn exponent_atom(&mut self, a: usize, minus: bool) -> (res: usize)
        ensures
            (final(self)@, res) == old(self)@.exponent_atom(a, minus),
    {
        let e = exp_format(self.store.heap.atoms.text(a));
        let t = sign_text(e.as_str(), minus);
        self.intern(t.as_str())
    }

    /// The atom of a number as an integer key.
    pub(crate) fn integer_key_atom(&mut self, b: u64) -> (res: usize)
        ensures
            (final(self)@, res) == old(self)@.integer_key_atom(b),
    {
        let t = integer_key_text(b);
        self.intern(t.as_str())
    }

    /// The atom of what `typeof` says.
    pub(crate) fn typeof_atom(&mut self, v: Value) -> (res: usize)
        ensures
            (final(self)@, res) == old(self)@.typeof_atom(v),
    {
        self.intern(v.type_of())
    }

    /// The length of a text in bytes, as a number.
    pub(crate) fn byte_len(&self, a: usize) -> (res: u64)
        ensures
            res == self@.byte_len(a),
    {
        let n = self.store.heap.atoms.text(a).len();
        from_u64(n as u64)
    }

    /// Whether a value is a big integer or wraps one.
    pub(crate) fn bigint_direct(&self, v: Value) -> (res: bool)
        ensures
            res == self@.bigint_direct(v),
    {
        match v {
            Value::BigInt(_) => true,
            Value::Object(o) => match self.own_prop(o, self.store.n.boxed) {
                Some(p) => matches!(p.value, Value::BigInt(_)),
                None => false,
            },
            _ => false,
        }
    }

    /// Reads a property; a getter that fails gives `undefined`.
    pub(crate) fn read_prop(&mut self, base: Value, key: usize)
        ensures
            final(self)@ == old(self)@.read_prop(base, key),
    {
        match self.property(base, key) {
            Read::Value(v) => { self.ret(v); },
            Read::Getter(g) => {
                let l = self.new_list();
                self.push(Frame::Swallow); self.push(Frame::Call { func: g, this: base, list: l });
            },
            Read::Char(c) => {
                let a = self.char_atom(c);
                self.ret(Value::String(a));
            },
            Read::LengthOf(v) => { self.push(Frame::ByteLen); self.push(Frame::Text(v)); },
        }
    }

    /// The length of a string in bytes.
    pub(crate) fn byte_len_end(&mut self)
        ensures
            final(self)@ == old(self)@.byte_len_end(),
    {
        let n = self.byte_len(self.key());
        self.ret(Value::Number(n));
    }

    /// Converts the value to a property key.
    pub(crate) fn to_property_key(&mut self)
        ensures
            final(self)@ == old(self)@.to_property_key(),
    {
        match self.value() {
            Value::Symbol(id) => { self.ret(Value::String(id)); },
            _ => { self.push(Frame::KeyText); self.push(Frame::ToPrim(PrimitiveHint::String)); },
        }
    }

    /// The property key of a primitive.
    pub(crate) fn key_text(&mut self)
        ensures
            final(self)@ == old(self)@.key_text(),
    {
        match self.value() {
            Value::Symbol(id) => { self.ret(Value::String(id)); },
            v => { self.push(Frame::Text(v)); },
        }
    }

    /// Evaluates a property key.
    pub(crate) fn key_start(&mut self, key: &'a PropKey, env: usize)
        ensures
            final(self)@ == old(self)@.key_start(key, env),
    {
        match key {
            PropKey::Ident(t) => {
                let a = self.intern_name(t);
                self.ret(Value::String(a));
            },
            PropKey::Str(t) => {
                let a = self.intern_name(t);
                self.ret(Value::String(a));
            },
            PropKey::Computed(e) => { self.push(Frame::ToKey); self.push(Frame::Expr(&**e, env)); },
        }
    }

    /// Converts the value to a primitive.
    pub(crate) fn to_primitive(&mut self, hint: PrimitiveHint)
        ensures
            final(self)@ == old(self)@.to_primitive(hint),
    {
        let v = self.value();
        if v.is_object_value() {
            let k = self.n().to_primitive;
            self.push(Frame::PrimExotic(v, hint)); self.read_prop(v, k);
        } else {
            self.ret(v);
        }
    }

    /// Prefers the conversion method of the object itself.
    pub(crate) fn prim_exotic(&mut self, v: Value, hint: PrimitiveHint)
        ensures
            final(self)@ == old(self)@.prim_exotic(v, hint),
    {
        let f = self.value();
        if f.is_nullish() {
            self.push(Frame::PrimTry { value: v, number_first: hint_number(hint), second: false });
        } else if f.is_callable_value() {
            let n = self.n();
            let l = self.list1(Value::String(hint_name(n, hint)));
            self.push(Frame::PrimEnd); self.push(Frame::Call { func: f, this: v, list: l });
        } else {
            self.throw_type("Symbol.toPrimitive is not callable");
        }
    }

    /// Checks the result of the object's own conversion method.
    pub(crate) fn prim_end(&mut self)
        ensures
            final(self)@ == old(self)@.prim_end(),
    {
        let v = self.value();
        if v.is_object_value() {
            self.throw_type("Cannot convert object to primitive value");
        } else {
            self.ret(v);
        }
    }

    /// Looks up one of the two ordinary conversion methods.
    pub(crate) fn prim_try(&mut self, v: Value, number_first: bool, second: bool)
        ensures
            final(self)@ == old(self)@.prim_try(v, number_first, second),
    {
        let n = self.n();
        let k = if number_first != second { n.value_of } else { n.to_string };
        self.push(Frame::PrimCall { value: v, number_first: number_first, second: second }); self.read_prop(v, k);
    }

    /// Goes on to the second conversion method, or gives up.
    pub(crate) fn prim_next(&mut self, v: Value, number_first: bool, second: bool)
        ensures
            final(self)@ == old(self)@.prim_next(v, number_first, second),
    {
        if second {
            self.throw_type("Cannot convert object to primitive value");
        } else {
            self.push(Frame::PrimTry { value: v, number_first: number_first, second: true });
        }
    }

    /// Calls a conversion method.
    pub(crate) fn prim_call(&mut self, v: Value, number_first: bool, second: bool)
        ensures
            final(self)@ == old(self)@.prim_call(v, number_first, second),
    {
        let f = self.value();
        if f.is_callable_value() {
            let l = self.new_list();
            self.push(Frame::PrimGot { value: v, number_first: number_first, second: second }); self.push(Frame::Call { func: f, this: v, list: l });
        } else {
            self.prim_next(v, number_first, second);
        }
    }

    /// Takes a primitive result.
    pub(crate) fn prim_got(&mut self, v: Value, number_first: bool, second: bool)
        ensures
            final(self)@ == old(self)@.prim_got(v, number_first, second),
    {
        let r = self.value();
        if r.is_object_value() {
            self.prim_next(v, number_first, second);
        } else {
            self.ret(r);
        }
    }

    /// Converts a value to a number without running code of the program.
    pub(crate) fn num(&mut self, v: Value)
        ensures
            final(self)@ == old(self)@.num(v),
    {
        match v {
            Value::Null => { self.ret(Value::Number(0)); },
            Value::Boolean(b) => { self.ret(Value::Number(if b { ONE } else { 0 })); },
            Value::Number(n) => { self.ret(Value::Number(n)); },
            Value::String(a) => { self.number_of_text(a); },
            Value::BigInt(a) => { self.number_of_big(a); },
            Value::Object(o) => {
                match self.own_prop(o, self.n().boxed) {
                    Some(p) => { self.push(Frame::Num(p.value)); },
                    None => { self.ret(Value::Number(NAN)); },
                }
            },
            _ => { self.ret(Value::Number(NAN)); },
        }
    }

    /// Converts a value to a string without running code of the program.
    pub(crate) fn text(&mut self, v: Value)
        ensures
            final(self)@ == old(self)@.text(v),
    {
        let n = self.n();
        match v {
            Value::Undefined => { self.ret(Value::String(n.undefined)); },
            Value::Null => { self.ret(Value::String(n.null)); },
            Value::Boolean(b) => { self.ret(Value::String(if b { n.true_text } else { n.false_text })); },
            Value::Number(b) => { self.print_number(b); },
            Value::String(a) => { self.ret(Value::String(a)); },
            Value::BigInt(a) => { self.ret(Value::String(a)); },
            Value::Regex(r) => {
                let a = self.regex_atom(r);
                self.ret(Value::String(a));
            },
            Value::Symbol(id) => {
                let a = self.symbol_atom(id);
                self.ret(Value::String(a));
            },
            Value::MapRef(_) => {
                let a = self.intern("[object Map]");
                self.ret(Value::String(a));
            },
            Value::SetRef(_) => {
                let a = self.intern("[object Set]");
                self.ret(Value::String(a));
            },
            Value::WeakMap(_) => {
                let a = self.intern("[object WeakMap]");
                self.ret(Value::String(a));
            },
            Value::WeakSet(_) => {
                let a = self.intern("[object WeakSet]");
                self.ret(Value::String(a));
            },
            Value::Promise(_) => {
                let a = self.intern("[object Promise]");
                self.ret(Value::String(a));
            },
            Value::Object(o) => {
                match self.own_prop(o, n.boxed) {
                    Some(p) => { self.push(Frame::Text(p.value)); },
                    None => {
                        let a = self.intern("[object Object]");
                        self.ret(Value::String(a));
                    },
                }
            },
            Value::Array(a) => { self.push(Frame::TextJoin(a, 0, n.empty)); },
            Value::Function(_) | Value::NativeFunction(_) => { self.ret(Value::String(n.function)); },
        }
    }

    /// Joins the texts of an array's elements with commas.
    pub(crate) fn text_join(&mut self, a: usize, i: usize, done: usize)
        ensures
            final(self)@ == old(self)@.text_join(a, i, done),
    {
        if i < self.list_len(a) {
            let v = self.list_at(a, i);
            self.push(Frame::TextItem(a, i, done)); self.push(Frame::Text(v));
        } else {
            self.ret(Value::String(done));
        }
    }

    /// Adds the text of an element.
    pub(crate) fn text_item(&mut self, a: usize, i: usize, done: usize)
        ensures
            final(self)@ == old(self)@.text_item(a, i, done),
    {
        let t = self.key();
        if i == 0 {
            self.push(Frame::TextJoin(a, 1, t));
        } else {
            let c = self.affix("", done, ",");
            let d = self.concat(c, t);
            self.push(Frame::TextJoin(a, next(i), d));
        }
    }

    /// Adds the sign to the host's text of a magnitude.
    pub(crate) fn text_sign(&mut self, minus: bool)
        ensures
            final(self)@ == old(self)@.text_sign(minus),
    {
        let t = self.key();
        let a = self.signed_atom(t, minus);
        self.ret(Value::String(a));
    }

    /// Lays out the host's exponential text of a magnitude.
    pub(crate) fn text_exponent(&mut self, minus: bool)
        ensures
            final(self)@ == old(self)@.text_exponent(minus),
    {
        let t = self.key();
        let a = self.exponent_atom(t, minus);
        self.ret(Value::String(a));
    }

    /// The string of a primitive; symbols have none.
    pub(crate) fn string_of(&mut self)
        ensures
            final(self)@ == old(self)@.string_of(),
    {
        match self.value() {
            Value::Symbol(_) => { self.throw_type("Cannot convert a Symbol to a string"); },
            v => { self.push(Frame::Text(v)); },
        }
    }

    /// The number of a primitive; symbols and big integers have none.
    pub(crate) fn number_end(&mut self)
        ensures
            final(self)@ == old(self)@.number_end(),
    {
        match self.value() {
            Value::Symbol(_) => { self.throw_type("Cannot convert a Symbol or BigInt to a number"); },
            Value::BigInt(_) => { self.throw_type("Cannot convert a Symbol or BigInt to a number"); },
            v => { self.push(Frame::Num(v)); },
        }
    }

    /// Applies a binary operator.
    pub(crate) fn binary(&mut self, op: BinaryOp, l: Value, r: Value)
        ensures
            final(self)@ == old(self)@.binary(op, l, r),
    {
        if self.bigint_direct(l) || self.bigint_direct(r) {
            self.binary_big(op, l, r);
        } else {
            self.binary_plain(op, l, r);
        }
    }

    /// Applies a binary operator to operands without big integers.
    pub(crate) fn binary_plain(&mut self, op: BinaryOp, l: Value, r: Value)
        ensures
            final(self)@ == old(self)@.binary_plain(op, l, r),
    {
        match op {
            BinaryOp::Add => {
                if l.is_string() || r.is_string() {
                    self.push(Frame::ConcatRight(r)); self.push(Frame::Text(l));
                } else {
                    self.push(Frame::NumRight(op, r)); self.push(Frame::Num(l));
                }
            },
            BinaryOp::Eq => { self.push(Frame::LooseEq(l, r, false)); },
            BinaryOp::Ne => { self.push(Frame::LooseEq(l, r, true)); },
            BinaryOp::StrictEq => { self.ret(Value::Boolean(Value::strict_eq(l, r))); },
            BinaryOp::StrictNe => { self.ret(Value::Boolean(!Value::strict_eq(l, r))); },
            BinaryOp::In => { self.in_key(l, r); },
            _ => { self.push(Frame::NumRight(op, r)); self.push(Frame::Num(l)); },
        }
    }

    /// The key on the left of `in`: a number is truncated to an integer.
    pub(crate) fn in_key(&mut self, l: Value, r: Value)
        ensures
            final(self)@ == old(self)@.in_key(l, r),
    {
        match l {
            Value::Number(b) => {
                let a = self.integer_key_atom(b);
                self.push(Frame::InKey(r)); self.ret(Value::String(a));
            },
            Value::Symbol(id) => { self.push(Frame::InKey(r)); self.ret(Value::String(id)); },
            _ => { self.push(Frame::InKey(r)); self.push(Frame::Text(l)); },
        }
    }

    /// Answers `in`.
    pub(crate) fn in_end(&mut self, r: Value)
        ensures
            final(self)@ == old(self)@.in_end(r),
    {
        let found = self.found_in(self.key(), r);
        self.ret(Value::Boolean(found));
    }

    /// Converts the right part of a concatenation.
    pub(crate) fn concat_right(&mut self, r: Value)
        ensures
            final(self)@ == old(self)@.concat_right(r),
    {
        let a = self.key();
        self.push(Frame::ConcatEnd(a)); self.push(Frame::Text(r));
    }

    /// Joins two strings.
    pub(crate) fn concat_end(&mut self, a: usize)
        ensures
            final(self)@ == old(self)@.concat_end(a),
    {
        let b = self.key();
        let c = self.concat(a, b);
        self.ret(Value::String(c));
    }

    /// Converts the right operand of a numeric operator.
    pub(crate) fn num_right(&mut self, op: BinaryOp, r: Value)
        ensures
            final(self)@ == old(self)@.num_right(op, r),
    {
        let x = self.bits();
        self.push(Frame::NumEnd(op, x)); self.push(Frame::Num(r));
    }

    /// Applies a numeric operator to two numbers.
    pub(crate) fn num_end(&mut self, op: BinaryOp, x: u64)
        ensures
            final(self)@ == old(self)@.num_end(op, x),
    {
        let y = self.bits();
        self.apply_numbers(op, x, y);
    }

    /// Applies a numeric operator: arithmetic is the host's, comparisons and bit
    /// operations are exact.
    pub(crate) fn apply_numbers(&mut self, op: BinaryOp, x: u64, y: u64)
        ensures
            final(self)@ == old(self)@.apply_numbers(op, x, y),
    {
        match op {
            BinaryOp::Lt => { self.ret(Value::Boolean(number_lt(x, y))); },
            BinaryOp::Gt => { self.ret(Value::Boolean(number_lt(y, x))); },
            BinaryOp::Le => { self.ret(Value::Boolean(number_le(x, y))); },
            BinaryOp::Ge => { self.ret(Value::Boolean(number_le(y, x))); },
            BinaryOp::BitAnd => { self.ret(Value::Number(bit_and(x, y))); },
            BinaryOp::BitOr => { self.ret(Value::Number(bit_or(x, y))); },
            BinaryOp::BitXor => { self.ret(Value::Number(bit_xor(x, y))); },
            BinaryOp::Shl => { self.ret(Value::Number(shift_left(x, y))); },
            BinaryOp::Shr => { self.ret(Value::Number(shift_right(x, y))); },
            BinaryOp::Ushr => { self.ret(Value::Number(shift_unsigned(x, y))); },
            _ => { self.ask(Request::Arith(op, x, y)); },
        }
    }

    /// Abstract equality: same kinds compare strictly, others convert one side and
    /// compare again.
    pub(crate) fn loose_eq(&mut self, a: Value, b: Value, negate: bool)
        ensures
            final(self)@ == old(self)@.loose_eq(a, b, negate),
    {
        if same_kind(a, b) {
            self.ret(Value::Boolean(Value::strict_eq(a, b) != negate));
        } else if (a.is_null() && b.is_undefined()) || (a.is_undefined() && b.is_null()) {
            self.ret(Value::Boolean(!negate));
        } else if a.is_number() && b.is_string() {
            self.push(Frame::LooseOther(a, negate)); self.push(Frame::Num(b));
        } else if a.is_string() && b.is_number() {
            self.push(Frame::LooseOther(b, negate)); self.push(Frame::Num(a));
        } else if a.is_boolean() {
            self.push(Frame::LooseOther(b, negate)); self.push(Frame::Num(a));
        } else if b.is_boolean() {
            self.push(Frame::LooseOther(a, negate)); self.push(Frame::Num(b));
        } else if (a.is_string() || a.is_number()) && b.is_plain_object() {
            self.push(Frame::LooseOther(a, negate)); self.push(Frame::Text(b));
        } else if a.is_plain_object() && (b.is_string() || b.is_number()) {
            self.push(Frame::LooseOther(b, negate)); self.push(Frame::Text(a));
        } else {
            self.ret(Value::Boolean(negate));
        }
    }

    /// Compares the converted side with the other one.
    pub(crate) fn loose_other(&mut self, other: Value, negate: bool)
        ensures
            final(self)@ == old(self)@.loose_other(other, negate),
    {
        let v = self.value();
        self.push(Frame::LooseEq(v, other, negate));
    }
}

} // verus!
