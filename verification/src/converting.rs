//! The meaning of conversions: which of an object's methods a conversion asks, and what
//! primitives become.
use vstd::prelude::*;
use crate::engine::{Completion, EngineView, Frame, PrimitiveHint};
use crate::frames::{
    on_in_key, on_loose_eq, on_num, on_prim_call, on_prim_exotic, on_prim_got, on_prim_try, on_text, on_text_item, on_text_join, on_to_key, on_to_prim,
};
use crate::laws::lemma_atom_text;
use crate::meaning::{calm, has_value, leads, lemma_follow, on};
use crate::number::{nan, ONE};
use crate::ops::items_of;
use crate::show::{description_in, message_in, text_in};
use crate::store::names_ok;
use crate::value::Value;

verus! {

/// A primitive stays as it is when it is converted to one.
pub proof fn law_primitives_stay<'a>(s: EngineView<'a>, k: Seq<Frame<'a>>, v: Value, hint: PrimitiveHint)
    requires
        has_value(s, v),
        v is Undefined || v is Null || v is Boolean || v is Number || v is String || v is Symbol || v is BigInt,
    ensures
        leads(on(s, k).push(Frame::ToPrim(hint)), on(s, k)),
{
    on_to_prim(s, k, hint);
}

/// An object without a conversion method of its own is asked by one of the two ordinary
/// methods first: `toString` where a string is wanted, and `valueOf` else.
pub proof fn law_first_method<'a>(s: EngineView<'a>, k: Seq<Frame<'a>>, v: Value, hint: PrimitiveHint, own: Value) -> (w: EngineView<'a>)
    requires
        has_value(s, own),
        own is Undefined || own is Null,
    ensures
        leads(on(s, k).push(Frame::PrimExotic(v, hint)), w),
        ({
            let first = if hint is String { s.store.n.to_string } else { s.store.n.value_of };
            let f = Frame::PrimCall { value: v, number_first: !(hint is String), second: false };
            w == on(s, k).push(f).read_prop(v, first)
        }),
{
    let number_first = !(hint is String);
    on_prim_exotic(s, k, v, hint);
    on_prim_try(s, k, v, number_first, false);
    let f = Frame::PrimTry { value: v, number_first, second: false };
    let w = on(s, k).prim_try(v, number_first, false);
    lemma_follow(on(s, k).push(Frame::PrimExotic(v, hint)), on(s, k).push(f), w);
    w
}

/// Where the first method cannot be called, or gives an object, the other one is asked;
/// where that fails too, the conversion throws. A primitive that a method gives is the
/// result.
pub proof fn law_second_method<'a>(s: EngineView<'a>, k: Seq<Frame<'a>>, v: Value, number_first: bool, second: bool, r: Value) -> (w: EngineView<'a>)
    requires
        has_value(s, r),
        r is Object || r is Undefined || r is Null || r is Boolean || r is Number || r is String,
    ensures
        leads(on(s, k).push(Frame::PrimGot { value: v, number_first, second }), w),
        !(r is Object) ==> w == on(s, k),
        r is Object && second ==> w.acc is Throw && w.frames == k,
        r is Object && !second ==> w == on(s, k).push(Frame::PrimCall { value: v, number_first, second: true }).read_prop(v, if number_first { s.store.n.to_string } else { s.store.n.value_of }),
{
    let start = on(s, k).push(Frame::PrimGot { value: v, number_first, second });
    on_prim_got(s, k, v, number_first, second);
    if r is Object && !second {
        on_prim_try(s, k, v, number_first, true);
        let f = Frame::PrimTry { value: v, number_first, second: true };
        let w = on(s, k).prim_try(v, number_first, true);
        lemma_follow(start, on(s, k).push(f), w);
        w
    } else {
        on(s, k).prim_got(v, number_first, second)
    }
}

/// A conversion method is called on the object, without arguments.
pub proof fn law_methods_are_called<'a>(s: EngineView<'a>, k: Seq<Frame<'a>>, v: Value, number_first: bool, second: bool, f: Value) -> (w: EngineView<'a>)
    requires
        has_value(s, f),
        f is Function || f is NativeFunction,
    ensures
        leads(on(s, k).push(Frame::PrimCall { value: v, number_first, second }), w),
        w == on(s.new_list().0, k).push(Frame::PrimGot { value: v, number_first, second }).push(Frame::Call { func: f, this: v, list: s.store.heap.cells.len() as usize }),
        s.store.heap.cells.len() < usize::MAX ==> items_of(w.store.heap, s.store.heap.cells.len() as usize).len() == 0,
{
    on_prim_call(s, k, v, number_first, second);
    on(s, k).prim_call(v, number_first, second)
}

/// The numbers of the primitives that need no reading: `null` and `false` are zero,
/// `true` is one, and `undefined` is not a number.
pub proof fn law_numbers_of_primitives<'a>(s: EngineView<'a>, k: Seq<Frame<'a>>, v: Value) -> (w: EngineView<'a>)
    requires
        calm(s),
        v is Undefined || v is Null || v is Boolean || v is Number,
    ensures
        leads(on(s, k).push(Frame::Num(v)), w),
        w.frames == k,
        w.value() matches Value::Number(x) && match v {
            Value::Null => x == 0,
            Value::Boolean(b) => x == (if b { ONE } else { 0 }),
            Value::Number(y) => x == y,
            _ => nan(x),
        },
{
    on_num(s, k, v);
    on(s, k).num(v)
}

/// The texts of the primitives that need no printing.
pub proof fn law_texts_of_primitives<'a>(s: EngineView<'a>, k: Seq<Frame<'a>>, v: Value) -> (w: EngineView<'a>)
    requires
        calm(s),
        names_ok(s.store.n, s.store.heap.atoms),
        v is Undefined || v is Null || v is Boolean || v is String || v is BigInt,
    ensures
        leads(on(s, k).push(Frame::Text(v)), w),
        w.frames == k,
        w.value() matches Value::String(a) && w.store.text(a) == match v {
            Value::Undefined => "undefined"@,
            Value::Null => "null"@,
            Value::Boolean(b) => if b { "true"@ } else { "false"@ },
            Value::String(t) => s.store.text(t),
            Value::BigInt(t) => s.store.text(t),
            _ => Seq::empty(),
        },
{
    on_text(s, k, v);
    on(s, k).text(v)
}

/// The text of an array is that of its elements with commas between them: behind the
/// first element each one follows a comma.
pub proof fn law_array_texts<'a>(s: EngineView<'a>, k: Seq<Frame<'a>>, a: usize, i: usize, done: usize, t: usize) -> (w: EngineView<'a>)
    requires
        has_value(s, Value::String(t)),
        i < usize::MAX,
        s.store.heap.atoms.len() + 2 < usize::MAX,
        s.store.heap.atoms.no_duplicates(),
        t < s.store.heap.atoms.len(),
    ensures
        leads(on(s, k).push(Frame::TextItem(a, i, done)), w),
        w.frames.len() == k.len() + 1,
        w.frames.last() matches Frame::TextJoin(b, j, d) && b == a && j == i + 1 && w.store.text(d) == if i == 0 {
            s.store.text(t)
        } else {
            s.store.text(done) + seq![','] + s.store.text(t)
        },
{
    on_text_item(s, k, a, i, done);
    let w = on(s, k).text_item(a, i, done);
    if i > 0 {
        reveal_strlit("");
        reveal_strlit(",");
        assert(""@ =~= Seq::<char>::empty());
        assert(","@ =~= seq![',']);
        let first = ""@ + s.store.text(done) + ","@;
        assert(first =~= s.store.text(done) + seq![',']);
        lemma_atom_text(s.store, first);
        let m = s.store.with_text(first);
        assert(m.text(t) == s.store.text(t));
        lemma_atom_text(m, m.text(s.store.atom(first)) + m.text(t));
    }
    w
}

/// An array is read up to its end, from the first element on.
pub proof fn law_array_texts_end<'a>(s: EngineView<'a>, k: Seq<Frame<'a>>, a: usize, i: usize, done: usize) -> (w: EngineView<'a>)
    requires
        calm(s),
    ensures
        leads(on(s, k).push(Frame::TextJoin(a, i, done)), w),
        i < s.list_len(a) ==> w == on(s, k).push(Frame::TextItem(a, i, done)).push(Frame::Text(s.list_at(a, i))),
        i >= s.list_len(a) ==> w == on(s, k).ret(Value::String(done)),
{
    on_text_join(s, k, a, i, done);
    assert(on(s, k).list_len(a) == s.list_len(a));
    on(s, k).text_join(a, i, done)
}

/// `null` and `undefined` are loosely equal to each other and to nothing else that is
/// no boolean, and values of one kind are loosely equal where they are strictly.
pub proof fn law_loose_null<'a>(s: EngineView<'a>, k: Seq<Frame<'a>>, a: Value, b: Value, negate: bool) -> (w: EngineView<'a>)
    requires
        calm(s),
        a is Null || a is Undefined || (a is Number && b is Number) || (a is String && b is String) || (a is Object && b is Object),
        !(b is Boolean),
    ensures
        leads(on(s, k).push(Frame::LooseEq(a, b, negate)), w),
        w.frames == k,
        w.acc == Completion::Normal(Some(Value::Boolean((if a is Null || a is Undefined { b is Null || b is Undefined } else { a.equals(b) }) != negate))),
{
    on_loose_eq(s, k, a, b, negate);
    on(s, k).loose_eq(a, b, negate)
}

/// Between a number and a string the string is converted, and between a boolean and
/// anything of another kind the boolean.
pub proof fn law_loose_conversions<'a>(s: EngineView<'a>, k: Seq<Frame<'a>>, a: Value, b: Value, negate: bool) -> (w: EngineView<'a>)
    requires
        calm(s),
        (a is Number && b is String) || (a is String && b is Number) || (a is Boolean && !(b is Boolean)) || (b is Boolean && (a is Object || a is Null || a is Undefined)),
    ensures
        leads(on(s, k).push(Frame::LooseEq(a, b, negate)), w),
        ({
            let left = a is Boolean || (a is String && b is Number);
            w == on(s, k).push(Frame::LooseOther(if left { b } else { a }, negate)).push(Frame::Num(if left { a } else { b }))
        }),
{
    on_loose_eq(s, k, a, b, negate);
    on(s, k).loose_eq(a, b, negate)
}

/// A symbol is its own property key.
pub proof fn law_symbol_keys_stay<'a>(s: EngineView<'a>, k: Seq<Frame<'a>>, id: usize) -> (w: EngineView<'a>)
    requires
        has_value(s, Value::Symbol(id)),
    ensures
        leads(on(s, k).push(Frame::ToKey), w),
        w == on(s, k).ret(Value::String(id)),
{
    on_to_key(s, k);
    on(s, k).to_property_key()
}

/// `in` answers whether the value on its right has or inherits the key on its left.
pub proof fn law_in<'a>(s: EngineView<'a>, k: Seq<Frame<'a>>, key: usize, base: Value) -> (w: EngineView<'a>)
    requires
        has_value(s, Value::String(key)),
    ensures
        leads(on(s, k).push(Frame::InKey(base)), w),
        w == on(s, k).ret(Value::Boolean(s.found_in(key, base))),
{
    on_in_key(s, k, base);
    assert(on(s, k).found_in(key, base) == s.found_in(key, base));
    on(s, k).in_end(base)
}

/// What the host shows of a primitive or a built-in collection is the string that the
/// machine makes of it.
pub proof fn law_shown_texts<'a>(s: EngineView<'a>, k: Seq<Frame<'a>>, v: Value, n: nat) -> (w: EngineView<'a>)
    requires
        calm(s),
        n > 0,
        names_ok(s.store.n, s.store.heap.atoms),
        s.store.heap.atoms.len() < usize::MAX,
        v is Undefined || v is Null || v is Boolean || v is String || v is BigInt || v is Symbol || v is MapRef || v is SetRef || v is WeakMap || v is WeakSet || v is Promise || v is Regex || v is Function || v is NativeFunction,
    ensures
        leads(on(s, k).push(Frame::Text(v)), w),
        w.value() matches Value::String(a) && text_in(s, v, n) == Some(w.store.text(a)),
{
    on_text(s, k, v);
    let t = text_in(s, v, n)->0;
    lemma_atom_text(s.store, t);
    match v {
        Value::Symbol(id) => {
            reveal_strlit("");
            let d = if s.symbols.contains_key(id) { s.store.text(s.symbols[id]) } else { Seq::empty() };
            assert(d =~= description_in(s, id));
        },
        _ => {},
    }
    on(s, k).text(v)
}

/// A thrown object is shown by its name and its message, with a colon between them; an
/// empty message is left out, and a thrown primitive is shown by its text.
pub proof fn law_shown_errors<'a>(s: EngineView<'a>, id: usize, v: Value, name: usize, message: usize, n: nat)
    requires
        n > 0,
        v is Undefined || v is Null || v is Boolean || v is String || v is Number || v is BigInt,
    ensures
        s.own_prop(id, s.store.n.name) matches Some(p) ==> (s.own_prop(id, s.store.n.message) matches Some(q) ==> (p.value == Value::String(name) && q.value == Value::String(message) ==> message_in(s, Value::Object(id), n) == Some(
            if s.store.text(message).len() > 0 {
                s.store.text(name) + seq![':', ' '] + s.store.text(message)
            } else {
                s.store.text(name)
            },
        ))),
        message_in(s, v, n) == text_in(s, v, n),
{
    reveal_strlit(": ");
    assert(": "@ =~= seq![':', ' ']);
}

} // verus!
