//! Numbers, big integers, texts, properties, scopes and the collector.
use tengin::assoc::Assoc;
use tengin::ast::BinaryOp;
use tengin::atoms::Atoms;
use tengin::big::{numeric_binary, BigOutcome};
use tengin::bigbits::{bigint_bitop, compare_number_bigint, number_equals_bigint, BitOp, Order};
use tengin::bigint::Big;
use tengin::engine::{Completion, Engine, Request};
use tengin::host::{Progress, Task};
use tengin::number::{from_i32, from_u64, is_nan, negated, number_eq, number_le, number_lt, to_int32, to_u64, to_uint32, trunc};
use tengin::object::Read;
use tengin::object_write::Write;
use tengin::own::Deletion;
use tengin::numtext::{exp_format, format_number, integer_key_text, str_to_number_value, Numeral, Printed};
use tengin::regexp::compile_regex;
use tengin::text::{decimal_text, parse_index, text_before};
use tengin::value::{PromiseState, Property, Settlement, Value};

fn bits(x: f64) -> u64 {
    x.to_bits()
}

fn known(t: &str) -> f64 {
    match str_to_number_value(t) {
        Numeral::Known(b) => f64::from_bits(b),
        Numeral::Decimal { text, .. } => panic!("asks for {}", text),
        Numeral::Radix { text, .. } => panic!("asks for {}", text),
    }
}

#[test]
fn doubles_compare_as_numbers() {
    let nan = bits(f64::NAN);
    assert!(is_nan(nan) && !is_nan(bits(f64::INFINITY)));
    assert!(number_eq(bits(0.0), bits(-0.0)) && !number_eq(nan, nan));
    assert!(number_lt(bits(-1.5), bits(-1.0)) && number_lt(bits(-1.0), bits(2.0)) && !number_lt(bits(0.0), bits(-0.0)));
    assert!(number_le(bits(2.0), bits(2.0)) && !number_le(nan, bits(2.0)));
    assert_eq!(negated(bits(1.5)), bits(-1.5));
}

#[test]
fn integers_and_doubles() {
    for n in [0u64, 1, 7, 1 << 52, (1 << 53) - 1, 1 << 53, u64::MAX] {
        assert_eq!(from_u64(n), bits(n as f64), "{}", n);
    }
    assert_eq!(from_i32(-5), bits(-5.0));
    assert_eq!(to_u64(bits(2.9)), 2);
    assert_eq!(to_u64(bits(-3.0)), 0);
    assert_eq!(to_uint32(bits(4294967297.0)), 1);
    assert_eq!(to_uint32(bits(-1.0)), u32::MAX);
    assert_eq!(to_int32(bits(2147483648.0)), i32::MIN);
    assert_eq!(to_int32(bits(f64::NAN)), 0);
    assert_eq!(trunc(bits(-2.7)), bits(-2.0));
    assert_eq!(trunc(bits(1e300)), bits(1e300));
}

#[test]
fn texts_of_numbers() {
    assert_eq!(known(" 42 "), 42.0);
    assert_eq!(known(""), 0.0);
    assert_eq!(known("-Infinity"), f64::NEG_INFINITY);
    assert!(known("1px").is_nan() && known("0b2").is_nan());
    assert!(matches!(str_to_number_value("-1.5e3"), Numeral::Decimal { text, negative: true } if text == "1.5e3"));
    assert!(matches!(str_to_number_value("0xff"), Numeral::Radix { text, radix: 16 } if text == "ff"));
    assert!(matches!(format_number(bits(-7.0)), Printed::Known(t) if t == "-7"));
    assert!(matches!(format_number(bits(f64::NAN)), Printed::Known(t) if t == "NaN"));
    assert!(matches!(format_number(bits(0.5)), Printed::Fixed { negative: false }));
    assert!(matches!(format_number(bits(-1e300)), Printed::Exponent { negative: true }));
    assert_eq!(exp_format("1.5e21"), "1.5e+21");
    assert_eq!(exp_format("1e-7"), "1e-7");
    assert_eq!(integer_key_text(bits(-3.9)), "-3");
}

#[test]
fn printed_numbers_read_back() {
    for x in [0.0, 1.0, -1.0, 42.0, -999999999999999.0, 123456789012345.0, f64::INFINITY, f64::NEG_INFINITY] {
        match format_number(bits(x)) {
            Printed::Known(t) => assert_eq!(known(&t), x, "{}", t),
            _ => panic!("no text for {}", x),
        }
    }
    assert!(matches!(format_number(bits(f64::NAN)), Printed::Known(t) if known(&t).is_nan()));
    assert!(matches!(format_number(bits(-0.0)), Printed::Known(t) if t == "0"));
    for text in ["0.25", "1.5e+21", "1e-7", "12345678901234567890"] {
        assert!(matches!(str_to_number_value(text), Numeral::Decimal { text: t, negative: false } if t == text));
        assert!(matches!(str_to_number_value(&format!("-{}", text)), Numeral::Decimal { text: t, negative: true } if t == text));
    }
}

/// The text of a number, with the digits of the magnitude from the standard library.
fn text_of(x: f64) -> String {
    let sign = |negative: bool, t: String| if negative { format!("-{}", t) } else { t };
    match format_number(bits(x)) {
        Printed::Known(t) => t,
        Printed::Fixed { negative } => sign(negative, format!("{}", x.abs())),
        Printed::Exponent { negative } => sign(negative, exp_format(&format!("{:e}", x.abs()))),
    }
}

#[test]
fn every_text_of_a_number_reads_back() {
    for x in [0.1, -0.3, 1.5, 2.0 / 3.0, 1e21, -1.7976931348623157e308, 5e-324, 1e-6, 9.5e-7, 123456789.125, 1e15, 4503599627370497.5, 1e16, f64::INFINITY] {
        let t = text_of(x);
        let back = match str_to_number_value(&t) {
            Numeral::Known(b) => f64::from_bits(b),
            Numeral::Decimal { text, negative } => text.parse::<f64>().unwrap() * if negative { -1.0 } else { 1.0 },
            Numeral::Radix { .. } => panic!("no decimal: {}", t),
        };
        assert_eq!(back.to_bits(), bits(x), "{}", t);
    }
    assert_eq!(text_of(1e21), "1e+21");
    assert_eq!(text_of(-1e-7), "-1e-7");
    assert_eq!(text_of(1e20), "100000000000000000000");
    assert_eq!(text_of(0.1), "0.1");
}

#[test]
fn exponents_are_for_large_and_small_numbers() {
    for x in [1e21, -1e21, 5e300, 9e-7, -1e-320] {
        assert!(matches!(format_number(bits(x)), Printed::Exponent { .. }), "{}", x);
    }
    for x in [1e20, -1e16, 0.5, 1e-6, -0.00001] {
        assert!(matches!(format_number(bits(x)), Printed::Fixed { .. }), "{}", x);
    }
}

fn big(t: &str) -> Big {
    Big::from_decimal(t).unwrap()
}

#[test]
fn big_integers_in_decimal() {
    for t in ["0", "-1", "123456789012345678901234567890", "-340282366920938463463374607431768211456"] {
        assert_eq!(big(t).to_decimal_string(), t);
    }
    assert!(Big::from_decimal("1x").is_none());
    assert_eq!(Big::from_u64(u64::MAX).to_decimal_string(), "18446744073709551615");
}

#[test]
fn big_integer_arithmetic() {
    let a = big("100000000000000000000");
    let b = big("-33333333333");
    assert_eq!(a.plus(&b).to_decimal_string(), "99999999966666666667");
    assert_eq!(b.minus(&a).to_decimal_string(), "-100000000033333333333");
    assert_eq!(a.times(&b).to_decimal_string(), "-3333333333300000000000000000000");
    let (q, m) = a.divmod(&b);
    assert_eq!(q.to_decimal_string(), "-3000000000");
    assert_eq!(m.to_decimal_string(), "1000000000");
    assert_eq!(big("-3").power(5).to_decimal_string(), "-243");
    assert_eq!(big("-5").shr(1).to_decimal_string(), "-3");
    assert_eq!(big("5").shl(70).to_decimal_string(), "5902958103587056517120");
    assert!(b.less(&a) && b.is_negative() && !a.is_zero());
}

#[test]
fn big_integer_bits_are_in_twos_complement() {
    assert_eq!(bigint_bitop(&big("-1"), &big("255"), BitOp::And).to_decimal_string(), "255");
    assert_eq!(bigint_bitop(&big("-256"), &big("255"), BitOp::Or).to_decimal_string(), "-1");
    assert_eq!(bigint_bitop(&big("-1"), &big("4294967296"), BitOp::Xor).to_decimal_string(), "-4294967297");
}

#[test]
fn big_integers_and_doubles_compare_exactly() {
    let b = big("9007199254740993");
    assert!(matches!(compare_number_bigint(bits(9007199254740992.0), &b), Some(Order::Less)));
    assert!(matches!(compare_number_bigint(bits(0.5), &big("0")), Some(Order::Greater)));
    assert!(compare_number_bigint(bits(f64::NAN), &b).is_none());
    assert!(matches!(compare_number_bigint(bits(f64::NEG_INFINITY), &big("-5")), Some(Order::Less)));
    assert!(number_equals_bigint(bits(-2.0), &big("-2")) && !number_equals_bigint(bits(9007199254740992.0), &b));
}

#[test]
fn big_integer_errors() {
    assert!(matches!(numeric_binary(BinaryOp::Div, &big("1"), &big("0")), BigOutcome::Range(_)));
    assert!(matches!(numeric_binary(BinaryOp::Exp, &big("2"), &big("-1")), BigOutcome::Range(_)));
    assert!(matches!(numeric_binary(BinaryOp::Ushr, &big("1"), &big("1")), BigOutcome::Type(_)));
    assert!(matches!(numeric_binary(BinaryOp::Rem, &big("-7"), &big("2")), BigOutcome::Value(v) if v.to_decimal_string() == "-1"));
}

#[test]
fn atoms_are_equal_where_their_texts_are() {
    let mut atoms = Atoms::new();
    let a = atoms.intern("x");
    let b = atoms.intern("y");
    assert!(a != b && atoms.intern("x") == a);
    assert_eq!(atoms.text(b), "y");
    assert_eq!(atoms.find("z"), None);
}

#[test]
fn tables_hold_one_value_for_a_key() {
    let mut t: Assoc<bool> = Assoc::new();
    t.insert(3, true);
    t.insert(1, false);
    t.insert(3, false);
    assert_eq!(t.get(3), Some(false));
    t.remove(3);
    assert!(!t.contains_key(3) && t.contains_key(1));
}

#[test]
fn keys_that_are_indices() {
    assert_eq!(parse_index("12"), Some(12));
    assert_eq!(parse_index("-1"), None);
    assert_eq!(parse_index("99999999999999999999999"), None);
    assert_eq!(decimal_text(u64::MAX), "18446744073709551615");
    assert!(text_before("a", "ab") && text_before("Z", "a") && !text_before("b", "b"));
}

#[test]
fn patterns_are_compiled_with_their_flags() {
    assert!(compile_regex("a.c", "is").unwrap().is_match("A\nC"));
    assert!(!compile_regex("a.c", "").unwrap().is_match("A\nC"));
    assert!(compile_regex("^b$", "m").unwrap().is_match("a\nb"));
    assert!(compile_regex("(", "").is_err());
}

#[test]
fn a_frozen_property_is_not_written() {
    let mut e = Engine::new();
    let proto = e.store.b.object_prototype;
    let o = e.store.heap.make_object(proto);
    let key = e.store.intern("k");
    e.store.heap.insert_prop(o, key, Property::constant(Value::Boolean(true)));
    let _ = e.store.set_property(Value::Object(o), key, Value::Null);
    assert_eq!(e.store.heap.get_prop(o, key).unwrap().value, Value::Boolean(true));
    let free = e.store.intern("f");
    let _ = e.store.set_property(Value::Object(o), free, Value::Null);
    assert_eq!(e.store.heap.get_prop(o, free).unwrap().value, Value::Null);
}

#[test]
fn scopes_see_outward() {
    let mut e = Engine::new();
    let global = e.store.b.global_env;
    let name = e.store.intern("x");
    let inner = e.store.heap.new_scope(global, true);
    e.store.heap.bind(global, name, Value::Null);
    assert_eq!(e.store.heap.lookup(inner, name), Some(Value::Null));
    e.store.heap.assign(inner, name, Value::Boolean(true));
    assert_eq!(e.store.heap.lookup(global, name), Some(Value::Boolean(true)));
    let other = e.store.intern("y");
    e.store.heap.bind(inner, other, Value::Null);
    assert_eq!(e.store.heap.lookup(global, other), None);
}

#[test]
fn garbage_is_emptied_and_what_is_reached_stays() {
    let mut e = Engine::new();
    let proto = e.store.b.object_prototype;
    let global = e.store.b.global_env;
    let key = e.store.intern("k");
    let kept = e.store.heap.make_object(proto);
    let lost = e.store.heap.make_object(proto);
    e.store.heap.insert_prop(kept, key, Property::new(Value::Boolean(true)));
    e.store.heap.insert_prop(lost, key, Property::new(Value::Object(lost)));
    e.store.heap.bind(global, key, Value::Object(kept));
    e.collect_garbage();
    assert_eq!(e.store.heap.get_prop(kept, key).unwrap().value, Value::Boolean(true));
    assert!(e.store.heap.get_prop(lost, key).is_none());
}

#[test]
fn values_in_words() {
    let mut e = Engine::new();
    let twelve = Value::String(e.store.intern("12"));
    let word = Value::String(e.store.intern("x"));
    assert!(matches!(twelve.to_number(&e), Numeral::Known(b) if b == bits(12.0)));
    assert!(matches!(Value::Boolean(true).to_number(&e), Numeral::Known(b) if b == bits(1.0)));
    assert!(matches!(Value::Undefined.to_number(&e), Numeral::Known(b) if is_nan(b)));
    let proto = e.store.b.array_prototype;
    let list = Value::Array(e.store.heap.new_array(vec![Value::Number(bits(-3.0)), word, Value::Null], proto));
    assert_eq!(list.to_string(&e).as_deref(), Some("-3,x,null"));
    let half = Value::Array(e.store.heap.new_array(vec![Value::Number(bits(0.5))], proto));
    assert_eq!(half.to_string(&e), None);
    let err = e.store.make_type_error("bad");
    assert_eq!(err.error_message(&e).as_deref(), Some("TypeError: bad"));
    let plain = e.store.make_range_error("");
    assert_eq!(plain.error_message(&e).as_deref(), Some("RangeError"));
    let object_proto = e.store.b.object_prototype;
    let wrapper = e.store.heap.make_object(object_proto);
    let key = e.store.n.boxed;
    e.store.heap.insert_prop(wrapper, key, Property::new(twelve));
    assert!(matches!(Value::Object(wrapper).to_number(&e), Numeral::Known(b) if b == bits(12.0)));
    assert_eq!(Value::Object(wrapper).to_string(&e).as_deref(), Some("12"));
    assert_eq!(word.error_message(&e).as_deref(), Some("x"));
}

#[test]
fn the_first_settlement_counts() {
    let mut e = Engine::new();
    let p = e.new_promise();
    let pair = e.make_resolver_pair(p);
    let pair = e.items(pair);
    for (f, v) in [(pair[0], Value::Null), (pair[1], Value::Boolean(true)), (pair[0], Value::Undefined)] {
        let list = e.list_of(&vec![v]);
        e.start(Task::Call { func: f, this: Value::Undefined, list });
        assert_eq!(e.finish(), Progress::Done);
    }
    assert_eq!(e.promise_state(p), PromiseState::Fulfilled(Value::Null));
    e.start(Task::Settle { promise: p, how: Settlement::Rejected(Value::Undefined) });
    assert_eq!(e.finish(), Progress::Done);
    assert_eq!(e.promise_state(p), PromiseState::Fulfilled(Value::Null));
}

#[test]
fn a_machine_that_is_done_stays_so() {
    let mut e = Engine::new();
    assert_eq!(e.run(100), Progress::Done);
    e.start(Task::Binary { op: BinaryOp::Add, left: Value::Number(bits(0.5)), right: Value::Number(bits(0.25)) });
    let first = e.run(1000);
    assert_eq!(first, Progress::Ask(Request::Arith(BinaryOp::Add, bits(0.5), bits(0.25))));
    assert_eq!(e.run(1000), first);
    e.answer(Completion::Normal(Some(Value::Number(bits(0.75)))));
    assert_eq!(e.run(1000), Progress::Done);
    assert_eq!(e.acc, Completion::Normal(Some(Value::Number(bits(0.75)))));
}

#[test]
fn every_new_symbol_differs_from_the_others() {
    let mut e = Engine::new();
    let a = e.new_symbol(Some("s".to_string()));
    let b = e.new_symbol(Some("s".to_string()));
    assert!(a != b);
    assert!(e.new_symbol(None) != e.new_symbol(None));
    assert_eq!(a.to_string(&e).as_deref(), Some("Symbol(s)"));
}

#[test]
fn properties_read_back_what_was_written() {
    let mut e = Engine::new();
    let proto = e.store.b.object_prototype;
    let o = e.store.heap.make_object(proto);
    let base = Value::Object(o);
    let a = e.store.intern("a");
    assert_eq!(e.store.set_property(base, a, Value::Boolean(true)), Write::Done);
    assert_eq!(e.store.get_property(base, a), Read::Value(Value::Boolean(true)));
    // A read-only slot keeps its value.
    let r = e.store.intern("r");
    e.store.heap.insert_prop(o, r, Property::constant(Value::Null));
    assert_eq!(e.store.set_property(base, r, Value::Undefined), Write::Done);
    assert_eq!(e.store.get_property(base, r), Read::Value(Value::Null));
    e.store.strict = true;
    assert_eq!(e.store.set_property(base, r, Value::Undefined), Write::ReadOnly);
    assert_eq!(e.store.delete_property(base, r), Deletion::Refused);
    assert_eq!(e.store.delete_property(base, a), Deletion::Yes);
    assert_eq!(e.store.get_property(base, a), Read::Value(Value::Undefined));
    assert!(!e.store.has_own(base, a) && e.store.has_own(base, r));
    // What an object lacks its prototypes answer for.
    let child = e.store.heap.make_object(o);
    let grandchild = e.store.heap.make_object(child);
    assert_eq!(e.store.get_property(Value::Object(grandchild), r), Read::Value(Value::Null));
    // An element far out makes the array longer.
    let list_proto = e.store.b.array_prototype;
    let list = Value::Array(e.store.heap.new_array(vec![Value::Null], list_proto));
    let five = e.store.intern("5");
    let length = e.store.n.length;
    assert_eq!(e.store.set_property(list, five, Value::Boolean(false)), Write::Done);
    assert_eq!(e.store.get_property(list, five), Read::Value(Value::Boolean(false)));
    assert_eq!(e.store.get_property(list, length), Read::Value(Value::Number(bits(6.0))));
    assert_eq!(e.store.set_property(list, length, Value::Number(bits(1.0))), Write::NeedsNumber);
    e.store.set_number(list, bits(1.0));
    assert_eq!(e.store.get_property(list, five), Read::Value(Value::Undefined));
    assert_eq!(e.store.get_property(list, length), Read::Value(Value::Number(bits(1.0))));
}

#[test]
fn own_properties_are_described() {
    let mut e = Engine::new();
    let word = Value::String(e.store.intern("ab"));
    let proto = e.store.b.array_prototype;
    let list = Value::Array(e.store.heap.new_array(vec![Value::Null], proto));
    let (zero, two, length, value) = (e.store.intern("0"), e.store.intern("2"), e.store.n.length, e.store.n.value);
    for base in [word, list] {
        assert_eq!(e.store.prop_enumerable(base, zero), Some(true));
        assert_eq!(e.store.prop_enumerable(base, two), None);
        assert_eq!(e.store.prop_enumerable(base, length), Some(false));
        assert_eq!(e.store.get_own_descriptor(base, two), Value::Undefined);
    }
    let d = e.store.get_own_descriptor(word, zero);
    let a = e.store.intern("a");
    assert_eq!(e.store.get_property(d, value), Read::Value(Value::String(a)));
    let writable = e.store.n.writable;
    assert_eq!(e.store.get_property(d, writable), Read::Value(Value::Boolean(false)));
}
