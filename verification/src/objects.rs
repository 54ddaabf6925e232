//! The meaning of object literals, accessors and classes.
use vstd::prelude::*;
use crate::ast::{Class, ClassElem, Prop};
use crate::engine::{Completion, EngineView, Frame};
use crate::frames::{on_class_method_key, on_class_static_method_key, on_class_static_value, on_derived_end, on_field_store, on_prop_method, on_prop_store, on_super_call, on_super_done};
use crate::meaning::{calm, has_value, leads, on};
use crate::object::Read;
use crate::object_write::Write;
use crate::ops::{function_at, items_of};
use crate::value::Value;

verus! {

/// Whether a cell is an object with properties.
pub open spec fn is_object(s: EngineView, o: usize) -> bool {
    o < s.store.heap.cells.len() && s.store.heap.cells[o as int] is Object
}

/// A property of an object literal is stored under its key, and no other changes.
pub proof fn law_literal_properties<'a>(s: EngineView<'a>, k: Seq<Frame<'a>>, o: usize, v: Value, key: usize, other: usize) -> (w: EngineView<'a>)
    requires
        has_value(s, Value::String(key)),
        is_object(s, o),
        other != key,
    ensures
        leads(on(s, k).push(Frame::PropStore(o, v)), w),
        w.frames == k,
        w.own_prop(o, key) matches Some(p) && p.value == v && p.writable && p.enumerable && p.configurable && !p.has_accessor(),
        w.own_prop(o, other) == s.own_prop(o, other),
{
    on_prop_store(s, k, o, v);
    on(s, k).prop_store(o, v)
}

/// A getter and a setter under one key make one accessor, in whichever order they are
/// defined; a data property under the key is replaced.
pub proof fn law_accessor_pairs<'a>(s: EngineView<'a>, o: usize, key: usize, g: Value, t: Value, other: usize)
    requires
        is_object(s, o),
        s.own_prop(o, key) is None || !s.own_prop(o, key)->0.has_accessor(),
        other != key,
    ensures
        s.accessor(o, key, Some(g), None).accessor(o, key, None, Some(t)).own_prop(o, key) matches Some(p) && p.get == Some(g) && p.set == Some(t) && p.enumerable && p.configurable,
        s.accessor(o, key, None, Some(t)).accessor(o, key, Some(g), None).own_prop(o, key) matches Some(p) && p.get == Some(g) && p.set == Some(t),
        s.accessor(o, key, Some(g), None).own_prop(o, key) matches Some(p) && p.get == Some(g) && p.set is None,
        s.accessor(o, key, Some(g), None).own_prop(o, other) == s.own_prop(o, other),
{
    let a = s.accessor(o, key, Some(g), None);
    let b = s.accessor(o, key, None, Some(t));
    assert(a.own_prop(o, key)->0.has_accessor());
    assert(b.own_prop(o, key)->0.has_accessor());
}

/// A getter is called on the object that the property was read from, without
/// arguments.
pub proof fn law_getters<'a>(s: EngineView<'a>, base: Value, key: usize, g: Value)
    requires
        s.property(base, key) == Read::Getter(g),
        s.store.heap.cells.len() < usize::MAX,
    ensures
        ({
            let w = s.read_prop(base, key);
            let l = s.store.heap.cells.len() as usize;
            &&& w.frames == s.frames.push(Frame::Swallow).push(Frame::Call { func: g, this: base, list: l })
            &&& items_of(w.store.heap, l).len() == 0
        }),
{
}

/// A setter is called on the object that was assigned to, with the assigned value as
/// its argument; the assignment gives that value whatever the setter returns.
pub proof fn law_setters<'a>(s: EngineView<'a>, base: Value, key: usize, v: Value, f: Value)
    requires
        !(base is Null) && !(base is Undefined),
        s.write(base, key, v).1 == Write::Setter(f),
        s.write(base, key, v).0.store.heap.cells.len() < usize::MAX,
    ensures
        ({
            let w = s.put_member(base, key, v);
            let l = s.write(base, key, v).0.store.heap.cells.len() as usize;
            &&& w.frames == s.frames.push(Frame::Give(v)).push(Frame::Call { func: f, this: base, list: l })
            &&& items_of(w.store.heap, l) == seq![v]
        }),
{
}

/// A method in an object literal is a property of the object; an accessor's function is
/// its getter or its setter. Both close over the present scope.
pub proof fn law_literal_methods<'a>(s: EngineView<'a>, k: Seq<Frame<'a>>, p: &'a Prop, env: usize, o: usize, key: usize) -> (w: EngineView<'a>)
    requires
        has_value(s, Value::String(key)),
        is_object(s, o),
        s.own_prop(o, key) is None,
        s.store.heap.cells.len() + 2 < usize::MAX,
        p is Method || p is Accessor,
    ensures
        leads(on(s, k).push(Frame::PropMethod(p, env, o)), w),
        w.frames == k,
        ({
            let f = s.store.heap.cells.len() as usize;
            &&& w.function(f) matches Some(d) && d.closure == env && d.this_capture is None
            &&& w.own_prop(o, key) matches Some(q) && match p {
                Prop::Accessor { get, .. } => if *get { q.get == Some(Value::Function(f)) && q.set is None } else { q.set == Some(Value::Function(f)) && q.get is None },
                _ => q.value == Value::Function(f) && !q.has_accessor(),
            }
        }),
{
    on_prop_method(s, k, p, env, o);
    let w = on(s, k).prop_method(p, env, o);
    let f = s.store.heap.cells.len() as usize;
    match p {
        Prop::Method { params, body, .. } => {
            let (t, v) = on(s, k).make_function(key, Some(params), body, env, None);
            assert(t.store.heap.cells[o as int] == s.store.heap.cells[o as int]);
            assert(t.store.heap.cells[f as int] is Function);
        },
        Prop::Accessor { params, body, .. } => {
            let (t, v) = on(s, k).make_function(key, Some(params), body, env, None);
            assert(t.store.heap.cells[o as int] == s.store.heap.cells[o as int]);
            assert(t.store.heap.cells[f as int] is Function);
            assert(t.own_prop(o, key) is None);
        },
        _ => {},
    }
    w
}

/// The constructor of a class and its prototype object know each other, and the
/// constructor is a derived one exactly where the class has a parent.
pub proof fn law_class_constructors<'a>(s: EngineView<'a>, class: &'a Class, parent: Option<Value>, proto: usize, base: usize, env: usize, list: usize)
    requires
        is_object(s, proto),
        s.store.heap.cells.len() + 2 < usize::MAX,
        s.store.n.prototype != s.store.n.name,
    ensures
        ({
            let (t, c) = s.class_ctor(class, parent, proto, base, env, list);
            &&& c == s.store.heap.cells.len()
            &&& t.own_value(proto, s.store.n.constructor) == Value::Function(c)
            &&& t.own_value(c, s.store.n.prototype) == Value::Object(proto)
            &&& t.function(c) matches Some(d) && d.closure == env && d.is_derived == (parent is Some) && d.super_ctor == parent && d.super_proto == Some(base) && !d.generator && !d.is_async
        }),
{
    let (t, c) = s.class_ctor(class, parent, proto, base, env, list);
    assert(t.store.heap.cells[c as int] is Function);
}

/// A method of a class becomes a property of the prototype object, from which the
/// instances inherit it; a static one becomes a property of the constructor.
pub proof fn law_class_methods<'a>(s: EngineView<'a>, k: Seq<Frame<'a>>, class: &'a Class, env: usize, ctor: usize, proto: usize, base: usize, i: usize, key: usize, of_class: bool) -> (w: EngineView<'a>)
    requires
        has_value(s, Value::String(key)),
        is_object(s, proto),
        ctor < s.store.heap.cells.len() && s.store.heap.cells[ctor as int] is Function,
        i < class.elements@.len(),
        class.elements@[i as int] matches ClassElem::Method { get: false, .. },
        s.store.heap.cells.len() + 2 < usize::MAX,
    ensures
        !of_class ==> leads(on(s, k).push(Frame::ClassMethodKey { class, env, ctor, proto, base, i }), w),
        of_class ==> leads(on(s, k).push(Frame::ClassStaticMethodKey { class, env, ctor, i }), w),
        w.frames == k,
        ({
            let f = s.store.heap.cells.len() as usize;
            &&& w.own_value(if of_class { ctor } else { proto }, key) == Value::Function(f)
            &&& of_class ==> w.own_prop(proto, key) == s.own_prop(proto, key)
            &&& !of_class ==> w.own_prop(ctor, key) == s.own_prop(ctor, key)
            &&& w.function(f) matches Some(d) && d.closure == env && (!of_class ==> d.super_proto == Some(base))
        }),
{
    let f = s.store.heap.cells.len() as usize;
    match &class.elements@[i as int] {
        ClassElem::Method { params, body, .. } => {
            let (t, v) = on(s, k).make_function(key, Some(params), body, env, None);
            assert(t.store.heap.cells[proto as int] == s.store.heap.cells[proto as int]);
            assert(t.store.heap.cells[ctor as int] == s.store.heap.cells[ctor as int]);
            assert(t.store.heap.cells[f as int] is Function);
            assert(function_at(t.store.heap, f) is Some);
        },
        _ => {},
    }
    if of_class {
        on_class_static_method_key(s, k, class, env, ctor, i);
        on(s, k).class_static_method_key(class, env, ctor, i)
    } else {
        on_class_method_key(s, k, class, env, ctor, proto, base, i);
        on(s, k).class_method_key(class, env, proto, base, i)
    }
}

/// The value of a static field becomes a property of the constructor.
pub proof fn law_static_fields<'a>(s: EngineView<'a>, k: Seq<Frame<'a>>, ctor: usize, key: usize, v: Value) -> (w: EngineView<'a>)
    requires
        has_value(s, v),
        ctor < s.store.heap.cells.len() && s.store.heap.cells[ctor as int] is Function,
    ensures
        leads(on(s, k).push(Frame::ClassStaticValue { ctor, key }), w),
        w.frames == k,
        w.own_value(ctor, key) == v,
{
    on_class_static_value(s, k, ctor, key);
    on(s, k).class_static_value(ctor, key)
}

/// The value of an instance field is written to the object that is being made.
pub proof fn law_instance_fields<'a>(s: EngineView<'a>, k: Seq<Frame<'a>>, key: usize, env: usize, v: Value, this: Value) -> (w: EngineView<'a>)
    requires
        has_value(s, v),
        s.lookup(env, s.store.n.this) == Some(this),
    ensures
        leads(on(s, k).push(Frame::FieldStore(key, env)), w),
        w == on(s, k).put_member(this, key, v),
{
    on_field_store(s, k, key, env);
    assert(on(s, k).lookup(env, s.store.n.this) == s.lookup(env, s.store.n.this));
    on(s, k).field_store(key, env)
}

/// What the parent's constructor made becomes `this` in the derived one.
pub proof fn law_super_binds_this<'a>(s: EngineView<'a>, k: Seq<Frame<'a>>, env: usize, v: Value) -> (w: EngineView<'a>)
    requires
        has_value(s, v),
        crate::env::scope_at(s.store.heap, env) is Some,
        env < s.store.heap.cells.len(),
    ensures
        leads(on(s, k).push(Frame::SuperDone(env)), w),
        w.frames == k,
        w.lookup(env, s.store.n.this) == Some(v),
        w.this_of(env) == v,
{
    on_super_done(s, k, env);
    let w = on(s, k).super_done(env);
    assert(crate::env::binds(w.store.heap, env, s.store.n.this));
    w
}

/// A derived constructor gives what `this` means at its end, unless it returned an
/// object; what it throws passes. The new target from before it is active again.
pub proof fn law_derived_constructors<'a>(s: EngineView<'a>, k: Seq<Frame<'a>>, env: usize, placeholder: Value, target: Option<Value>, this: Value) -> (w: EngineView<'a>)
    requires
        s.ready(),
        s.lookup(env, s.store.n.this) == Some(this),
        s.acc is Normal || s.acc is Return || s.acc is Throw,
    ensures
        leads(on(s, k).push(Frame::DerivedEnd { env, placeholder, target }), w),
        w.frames == k,
        w.new_target == target,
        s.acc is Normal ==> w.acc == Completion::Normal(Some(this)),
        s.acc is Throw ==> w.acc == s.acc,
        s.acc matches Completion::Return(v) ==> w.acc == Completion::Normal(Some(if v.objectlike() { v } else { this })),
{
    on_derived_end(s, k, env, placeholder, target);
    assert(on(s, k).lookup(env, s.store.n.this) == s.lookup(env, s.store.n.this));
    on(s, k).derived_end(env, placeholder, target)
}

/// The parent's constructor is called for the same new target as the derived one, with
/// the arguments of the call of `super`.
pub proof fn law_super_calls<'a>(s: EngineView<'a>, k: Seq<Frame<'a>>, ctor: Value, list: usize, env: usize, target: Value) -> (w: EngineView<'a>)
    requires
        calm(s),
        s.new_target == Some(target),
    ensures
        leads(on(s, k).push(Frame::SuperCall { ctor, list, env }), w),
        w == on(s, k).push(Frame::SuperDone(env)).construct(ctor, list, target),
{
    on_super_call(s, k, ctor, list, env);
    on(s, k).super_call(ctor, list, env)
}

} // verus!
