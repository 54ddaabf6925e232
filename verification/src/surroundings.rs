//! What a function finds when it is called, what literals and spreads gather, and what
//! the host's tasks start.
use vstd::prelude::*;
use vstd::arithmetic::power2::{lemma_pow2_pos, pow2};
use crate::ast::{ArrayElem, Expr, Pattern, PropKey, Stmt};
use crate::engine::{CapRecord, Completion, EngineView, Frame, Mode, PrimitiveHint};
use crate::env::{binds, scope_at};
use crate::frames::{on_append, on_bind_keyed, on_bind_props, on_call, on_cap_end, on_each_next, on_elems, on_generator_end, on_iterate, on_make_array, on_prop_value, on_spread_arg, on_tag_cooked};
use crate::host::Task;
use crate::make::with_numbered;
use crate::number::{double_of, lemma_exact_integer, truncated};
use crate::meaning::{calm, evaluates, has_value, leads, lemma_follow, lemma_value, on};
use crate::object::{array_at, element, Read};
use crate::ops::{function_at, items_of, streamed};
use crate::promise::cap_place;
use crate::settling::pending;
use crate::value::{PromiseState, Settlement, Value};

verus! {

proof fn lemma_numbered_cells<'a>(s: EngineView<'a>, o: usize, items: Seq<Value>, n: nat)
    requires
        n <= items.len(),
    ensures
        ({
            let t = with_numbered(s, o, items, n);
            &&& t.store.heap.cells.len() == s.store.heap.cells.len()
            &&& t.store.n == s.store.n
            &&& t.store.b == s.store.b
            &&& forall|i: int| 0 <= i < s.store.heap.cells.len() && i != o ==> #[trigger] t.store.heap.cells[i] == s.store.heap.cells[i]
        }),
    decreases n,
{
    if n > 0 {
        lemma_numbered_cells(s, o, items, (n - 1) as nat);
    }
}

/// In the scope of a call, `this` is what the call was given, unless the function is an
/// arrow function, which keeps the one from where it was made; `arguments` is a new
/// object, and `super` is what the function was given as a method.
pub proof fn law_this<'a>(s: EngineView<'a>, f: usize, this: Value, list: usize, env: usize)
    requires
        function_at(s.store.heap, f) is Some,
        env < s.store.heap.cells.len() < usize::MAX,
        scope_at(s.store.heap, env) is Some,
        s.store.n.this != s.store.n.super_object,
        s.store.n.this != s.store.n.super_ctor,
        s.store.n.this != s.store.n.arguments,
        s.store.n.super_object != s.store.n.super_ctor,
        s.store.n.super_object != s.store.n.arguments,
        s.store.n.super_ctor != s.store.n.arguments,
    ensures
        ({
            let t = s.finish_env(f, this, list, env);
            let d = function_at(s.store.heap, f)->0;
            &&& t.lookup(env, s.store.n.this) == Some(match d.this_capture {
                Some(v) => v,
                None => this,
            })
            &&& t.lookup(env, s.store.n.arguments) == Some(Value::Object(s.store.heap.cells.len() as usize))
            &&& d.super_proto matches Some(p) ==> t.lookup(env, s.store.n.super_object) == Some(Value::Object(p))
            &&& d.super_ctor matches Some(c) ==> t.lookup(env, s.store.n.super_ctor) == Some(c)
        }),
{
    let n = s.store.n;
    let d = function_at(s.store.heap, f)->0;
    let given = match d.this_capture {
        Some(v) => v,
        None => this,
    };
    let a = s.bind(env, n.this, given);
    let b = match d.super_proto {
        Some(p) => a.bind(env, n.super_object, Value::Object(p)),
        None => a,
    };
    let u = match d.super_ctor {
        Some(c) => b.bind(env, n.super_ctor, c),
        None => b,
    };
    let items = items_of(u.store.heap, list);
    let o = u.new_object();
    lemma_numbered_cells(o.0, o.1, items, items.len());
    let (w, args) = u.arguments_object(list);
    assert(o.1 != env);
    assert(w.store.heap.cells[env as int] == u.store.heap.cells[env as int]);
    let t = s.finish_env(f, this, list, env);
    assert(t == w.bind(env, n.arguments, args));
    assert(binds(t.store.heap, env, n.this));
    assert(binds(t.store.heap, env, n.arguments));
    if d.super_proto is Some {
        assert(binds(t.store.heap, env, n.super_object));
    }
    if d.super_ctor is Some {
        assert(binds(t.store.heap, env, n.super_ctor));
    }
}

/// A bound function calls its target with the `this` it is bound to, its own arguments
/// first and those of the call behind them.
pub proof fn law_bound_functions<'a>(s: EngineView<'a>, k: Seq<Frame<'a>>, f: usize, this: Value, list: usize, a: usize, target: Value, bound_this: Value) -> (w: EngineView<'a>)
    requires
        calm(s),
        s.own_prop(f, s.store.n.promise_cap) is None,
        s.own_prop(f, s.store.n.cap_exec) is None,
        s.own_prop(f, s.store.n.bound_target) matches Some(p) && p.value == target,
        s.own_value(f, s.store.n.this) == bound_this,
        s.own_value(f, s.store.n.bound_args) == Value::Array(a),
        a < s.store.heap.cells.len(),
        list < s.store.heap.cells.len() < usize::MAX,
    ensures
        leads(on(s, k).push(Frame::Call { func: Value::NativeFunction(f), this, list }), w),
        ({
            let l = s.store.heap.cells.len() as usize;
            &&& w.frames == k.push(Frame::Call { func: target, this: bound_this, list: l })
            &&& items_of(w.store.heap, l) == items_of(s.store.heap, a) + items_of(s.store.heap, list)
        }),
{
    on_call(s, k, Value::NativeFunction(f), this, list);
    let w = on(s, k).call_function(Value::NativeFunction(f), this, list);
    let l = s.store.heap.cells.len() as usize;
    assert(on(s, k).own_prop(f, s.store.n.promise_cap) == s.own_prop(f, s.store.n.promise_cap));
    assert(on(s, k).own_prop(f, s.store.n.cap_exec) == s.own_prop(f, s.store.n.cap_exec));
    assert(on(s, k).own_prop(f, s.store.n.bound_target) == s.own_prop(f, s.store.n.bound_target));
    let e = on(s, k).new_list().0;
    assert(items_of(e.store.heap, l) =~= Seq::<Value>::empty());
    assert(e.store.heap.cells[a as int] == s.store.heap.cells[a as int]);
    let x = e.append_list(l, a);
    assert(items_of(x.store.heap, l) =~= items_of(s.store.heap, a));
    assert(x.store.heap.cells[list as int] == s.store.heap.cells[list as int]);
    let y = x.append_list(l, list);
    assert(items_of(y.store.heap, l) =~= items_of(s.store.heap, a) + items_of(s.store.heap, list));
    w
}

/// The functions that settle a promise come as a pair: first the one that resolves, then
/// the one that rejects. They share a flag, which is not set yet.
pub proof fn law_resolver_pairs<'a>(s: EngineView<'a>, cap: usize)
    requires
        s.store.heap.cells.len() + 4 < usize::MAX,
        s.store.n.promise_cap != s.store.n.promise_kind,
        s.store.n.promise_cap != s.store.n.promise_flag,
        s.store.n.promise_kind != s.store.n.promise_flag,
        s.store.n.promise_cap != s.store.n.name && s.store.n.promise_cap != s.store.n.length,
        s.store.n.promise_kind != s.store.n.name && s.store.n.promise_kind != s.store.n.length,
        s.store.n.promise_flag != s.store.n.name && s.store.n.promise_flag != s.store.n.length,
    ensures
        ({
            let (t, l) = s.make_resolver_pair(cap);
            let flag = s.store.heap.cells.len() as usize;
            let res = (flag + 1) as usize;
            let rej = (flag + 2) as usize;
            &&& items_of(t.store.heap, l) == seq![Value::NativeFunction(res), Value::NativeFunction(rej)]
            &&& t.resolver_parts(res) == Some((cap, s.store.n.resolve, Value::Object(flag)))
            &&& t.resolver_parts(rej) == Some((cap, s.store.n.reject, Value::Object(flag)))
            &&& !t.flag_is_set(Value::Object(flag))
        }),
{
    let flag = s.store.heap.cells.len() as usize;
    let res = (flag + 1) as usize;
    let rej = (flag + 2) as usize;
    let n = s.store.n;
    let (a, x) = s.bare_object();
    let b = a.set_field(flag, n.resolved, Value::Boolean(false));
    assert(b.store.heap.cells.len() == flag + 1);
    let (c, y) = b.resolver(cap, n.resolve, flag);
    assert(c.store.heap.cells.len() == flag + 2);
    assert(c.store.heap.cells[flag as int] == b.store.heap.cells[flag as int]);
    let (d, z) = c.resolver(cap, n.reject, flag);
    assert(d.store.heap.cells.len() == flag + 3);
    assert(d.store.heap.cells[flag as int] == b.store.heap.cells[flag as int]);
    assert(d.store.heap.cells[res as int] == c.store.heap.cells[res as int]);
    let (t, l) = s.make_resolver_pair(cap);
    assert(t.store.heap.cells[flag as int] == b.store.heap.cells[flag as int]);
    assert(t.store.heap.cells[res as int] == c.store.heap.cells[res as int]);
    assert(t.store.heap.cells[rej as int] == d.store.heap.cells[rej as int]);
}

/// A capability is the list of a promise and the functions that its executor was given;
/// an executor that was not called makes it fail.
pub proof fn law_capabilities<'a>(s: EngineView<'a>, k: Seq<Frame<'a>>, id: u64, v: Value) -> (w: EngineView<'a>)
    requires
        has_value(s, v),
        s.store.heap.cells.len() < usize::MAX,
    ensures
        leads(on(s, k).push(Frame::CapEnd(id)), w),
        w.frames == k,
        s.take_cap(id).1 matches Some(f) ==> (w.value() matches Value::Array(l) && items_of(w.store.heap, l) == seq![v, f.0, f.1]),
        s.take_cap(id).1 is None ==> w.acc is Throw,
        s.take_cap(id).1 is Some ==> w.caps.len() == s.caps.len() - 1,
{
    on_cap_end(s, k, id);
    let w = on(s, k).cap_end(id);
    assert(on(s, k).take_cap(id).1 == s.take_cap(id).1);
    lemma_cap_place(s.caps, id, s.caps.len());
    match s.take_cap(id).1 {
        Some(f) => {
            let l = s.store.heap.cells.len() as usize;
            assert(items_of(w.store.heap, l) =~= seq![v, f.0, f.1]);
        },
        None => {},
    }
    w
}

proof fn lemma_cap_place(caps: Seq<CapRecord>, id: u64, n: nat)
    ensures
        cap_place(caps, id, n) matches Some(i) ==> 0 <= i < caps.len() && caps[i].id == id,
    decreases n,
{
    if n > 0 && n <= caps.len() && caps[n - 1].id != id {
        lemma_cap_place(caps, id, (n - 1) as nat);
    }
}

/// The elements of an array literal are evaluated from left to right, each added behind
/// those before it; a hole is `undefined`.
pub proof fn law_array_literals<'a>(s: EngineView<'a>, k: Seq<Frame<'a>>, list: &'a Vec<ArrayElem>, i: usize, env: usize, l: usize, t: EngineView<'a>, v: Value) -> (w: EngineView<'a>)
    requires
        calm(s),
        i < list@.len(),
        i < usize::MAX,
        l < s.store.heap.cells.len(),
        array_at(s.store.heap, l) is Some,
        list@[i as int] is Elision || (&list@[i as int] matches ArrayElem::Expr(x) && evaluates(s, x, env, t) && has_value(t, v) && l < t.store.heap.cells.len() && array_at(t.store.heap, l) is Some),
    ensures
        leads(on(s, k).push(Frame::Elems(list, i, env, l)), w),
        w.frames == k.push(Frame::Elems(list, (i + 1) as usize, env, l)),
        list@[i as int] is Elision ==> items_of(w.store.heap, l) == items_of(s.store.heap, l).push(Value::Undefined),
        list@[i as int] is Expr ==> items_of(w.store.heap, l) == items_of(t.store.heap, l).push(v),
{
    let start = on(s, k).push(Frame::Elems(list, i, env, l));
    on_elems(s, k, list, i, env, l);
    let f = Frame::Elems(list, (i + 1) as usize, env, l);
    match &list@[i as int] {
        ArrayElem::Expr(x) => {
            lemma_value(s, x, env, t, k.push(f).push(Frame::Append(l)));
            lemma_follow(start, on(s, k.push(f).push(Frame::Append(l))).push(Frame::Expr(x, env)), on(t, k.push(f)).push(Frame::Append(l)));
            on_append(t, k.push(f), l);
            let w = on(t, k.push(f)).append_end(l);
            lemma_follow(start, on(t, k.push(f)).push(Frame::Append(l)), w);
            assert(items_of(w.store.heap, l) =~= items_of(t.store.heap, l).push(v));
            w
        },
        _ => {
            let w = on(s, k).eval_array_elems(list, i, env, l);
            assert(items_of(w.store.heap, l) =~= items_of(s.store.heap, l).push(Value::Undefined));
            w
        },
    }
}

/// The array of a literal holds what was gathered.
pub proof fn law_made_arrays<'a>(s: EngineView<'a>, k: Seq<Frame<'a>>, l: usize) -> (w: EngineView<'a>)
    requires
        calm(s),
        s.store.heap.cells.len() < usize::MAX,
    ensures
        leads(on(s, k).push(Frame::MakeArray(l)), w),
        w.frames == k,
        w.value() matches Value::Array(a) && a == s.store.heap.cells.len() && items_of(w.store.heap, a) == items_of(s.store.heap, l),
{
    on_make_array(s, k, l);
    let w = on(s, k).make_array(l);
    assert(items_of(s.store.heap, l).skip(0) =~= items_of(s.store.heap, l));
    w
}

/// The value of a property in an object literal is evaluated before its key.
pub proof fn law_property_order<'a>(s: EngineView<'a>, k: Seq<Frame<'a>>, key: &'a PropKey, env: usize, o: usize, v: Value) -> (w: EngineView<'a>)
    requires
        has_value(s, v),
    ensures
        leads(on(s, k).push(Frame::PropValue(key, env, o)), w),
        match key {
            PropKey::Ident(t) => w == on(s.with_store(s.store.with_text(t@)), k).push(Frame::PropStore(o, v)).ret(Value::String(s.store.atom(t@))),
            PropKey::Str(t) => w == on(s.with_store(s.store.with_text(t@)), k).push(Frame::PropStore(o, v)).ret(Value::String(s.store.atom(t@))),
            PropKey::Computed(x) => w == on(s, k).push(Frame::PropStore(o, v)).push(Frame::ToKey).push(Frame::Expr(&**x, env)),
        },
{
    on_prop_value(s, k, key, env, o);
    on(s, k).prop_value(key, env, o)
}

/// Spreading an array into arguments adds its elements in order, holes as `undefined`.
pub proof fn law_spread_arguments<'a>(s: EngineView<'a>, k: Seq<Frame<'a>>, list: usize, a: usize) -> (w: EngineView<'a>)
    requires
        has_value(s, Value::Array(a)),
        list < s.store.heap.cells.len(),
        array_at(s.store.heap, list) is Some,
        array_at(s.store.heap, a) is Some,
    ensures
        leads(on(s, k).push(Frame::SpreadArg(list)), w),
        w.frames == k,
        ({
            let d = array_at(s.store.heap, a)->0;
            let before = items_of(s.store.heap, list);
            let items = items_of(w.store.heap, list);
            &&& items.len() == before.len() + d.length
            &&& items.take(before.len() as int) == before
            &&& forall|i: int| 0 <= i < d.length ==> #[trigger] items[before.len() + i] == match element(d, i as usize) {
                Some(v) => v,
                None => Value::Undefined,
            }
        }),
{
    on_spread_arg(s, k, list);
    let w = on(s, k).spread_arg(list);
    let d = array_at(s.store.heap, a)->0;
    let before = items_of(s.store.heap, list);
    assert(items_of(w.store.heap, list) =~= before + streamed(d));
    assert((before + streamed(d)).take(before.len() as int) =~= before);
    w
}

/// When the body of a generator has ended, its object holds what was yielded, in order,
/// and is marked as run; how the body ended does not matter, and what gathered before
/// gathers again.
pub proof fn law_generator_results<'a>(s: EngineView<'a>, k: Seq<Frame<'a>>, o: usize, list: usize, sink: Option<usize>) -> (w: EngineView<'a>)
    requires
        s.ready(),
        o < s.store.heap.cells.len() < usize::MAX,
        s.store.heap.cells[o as int] is Object,
        s.store.n.gen_values != s.store.n.gen_started,
    ensures
        leads(on(s, k).push(Frame::GeneratorEnd { generator: Value::Object(o), list, sink }), w),
        w.frames == k,
        w.sink == sink,
        w.acc == Completion::Normal(Some(Value::Undefined)),
        w.own_value(o, s.store.n.gen_started) == Value::Boolean(true),
        w.own_value(o, s.store.n.gen_values) matches Value::Array(a) && items_of(w.store.heap, a) == items_of(s.store.heap, list),
{
    on_generator_end(s, k, Value::Object(o), list, sink);
    let w = on(s, k).generator_end(Value::Object(o), list, sink);
    assert(items_of(s.store.heap, list).skip(0) =~= items_of(s.store.heap, list));
    let a = s.store.heap.cells.len() as usize;
    assert(w.store.heap.cells[a as int] is Array);
    w
}

/// A tag is called with an array of the literal parts first; the substitutions follow
/// it as further arguments.
pub proof fn law_tagged_templates<'a>(s: EngineView<'a>, k: Seq<Frame<'a>>, func: Value, subs: &'a Vec<Expr>, env: usize, list: usize) -> (w: EngineView<'a>)
    requires
        calm(s),
        s.store.heap.cells.len() + 1 < usize::MAX,
    ensures
        leads(on(s, k).push(Frame::TagCooked { func, subs, env, list }), w),
        ({
            let a = s.store.heap.cells.len() as usize;
            let l = (a + 1) as usize;
            &&& w.frames == k.push(Frame::Call { func, this: Value::Undefined, list: l }).push(Frame::Exprs(subs, 0, env, l))
            &&& items_of(w.store.heap, l) == seq![Value::Array(a)]
            &&& items_of(w.store.heap, a) == items_of(s.store.heap, list)
        }),
{
    on_tag_cooked(s, k, func, subs, env, list);
    let w = on(s, k).tag_cooked(func, subs, env, list);
    assert(items_of(s.store.heap, list).skip(0) =~= items_of(s.store.heap, list));
    w
}

/// A property of an object pattern binds what the object has under its key.
pub proof fn law_object_patterns<'a>(s: EngineView<'a>, k: Seq<Frame<'a>>, pat: &'a Pattern, env: usize, mode: Mode, o: usize, key: usize, v: Value) -> (w: EngineView<'a>)
    requires
        has_value(s, Value::String(key)),
        s.property(Value::Object(o), key) == Read::Value(v),
    ensures
        leads(on(s, k).push(Frame::BindKeyed(pat, env, mode, o)), w),
        w == on(s, k).push(Frame::Bind(pat, env, mode)).ret(v),
{
    on_bind_keyed(s, k, pat, env, mode, o);
    assert(on(s, k.push(Frame::Bind(pat, env, mode))).property(Value::Object(o), key) == s.property(Value::Object(o), key));
    on(s, k).bind_keyed(pat, env, mode, o)
}

/// The properties of an object pattern are taken in turn; behind the last the rest, where
/// there is one, gets a new object.
pub proof fn law_object_pattern_order<'a>(s: EngineView<'a>, k: Seq<Frame<'a>>, pat: &'a Pattern, env: usize, mode: Mode, i: usize, o: usize) -> (w: EngineView<'a>)
    requires
        calm(s),
        i < usize::MAX,
        pat is Object,
    ensures
        leads(on(s, k).push(Frame::BindProps(pat, env, mode, i, o)), w),
        pat matches Pattern::Object { props, rest } && (if i < props@.len() {
            w == on(s, k).push(Frame::BindProps(pat, env, mode, (i + 1) as usize, o)).push(Frame::BindKeyed(&props@[i as int].value, env, mode, o)).key_start(&props@[i as int].key, env)
        } else {
            match rest {
                Some(r) => w.frames == k.push(Frame::Bind(&**r, env, mode)) && w.value() == Value::Object(s.store.heap.cells.len() as usize),
                None => w == on(s, k),
            }
        }),
{
    on_bind_props(s, k, pat, env, mode, i, o);
    on(s, k).bind_object_props(pat, env, mode, i, o)
}

/// A loop over items whose head declares with `var` binds each item in the scope of the
/// function, and runs its body in the present scope.
pub proof fn law_var_items<'a>(s: EngineView<'a>, k: Seq<Frame<'a>>, x: &'a Stmt, env: usize, label: Option<usize>, source: usize, i: usize, value: Option<Value>) -> (w: EngineView<'a>)
    requires
        calm(s),
        i < s.array_len(source),
        match x {
            Stmt::ForOf { kind, .. } => *kind is Var,
            Stmt::ForIn { kind, .. } => *kind is Var,
            _ => false,
        },
    ensures
        leads(on(s, k).push(Frame::EachNext { stmt: x, env, label, source, i, value }), w),
        w.store == s.store,
        w.value() == s.array_get(source, i),
        ({
            let pat = match x {
                Stmt::ForOf { name, .. } => name,
                Stmt::ForIn { name, .. } => name,
                _ => arbitrary(),
            };
            w.frames == k.push(Frame::EachBody { stmt: x, env, label, source, i, value, body_env: env }).push(Frame::HeadBind).push(Frame::Bind(pat, s.function_scope(env), Mode::Bind))
        }),
{
    on_each_next(s, k, x, env, label, source, i, value);
    assert(on(s, k).function_scope(env) == s.function_scope(env));
    on(s, k).each_next(x, env, label, source, i, value)
}

/// Iterating over a string gives its characters, and over a set its members.
pub proof fn law_iterated_collections<'a>(s: EngineView<'a>, k: Seq<Frame<'a>>, v: Value, list: usize) -> (w: EngineView<'a>)
    requires
        calm(s),
        v is String || v is Null || v is Undefined || v is Number || v is Boolean,
    ensures
        leads(on(s, k).push(Frame::Iterate(v, list)), w),
        v matches Value::String(a) ==> w == on(s, k).append_chars(list, a),
        !(v is String) ==> w == on(s, k).push(Frame::IterAgain(v, list)).read_prop(v, s.store.n.iterator),
{
    on_iterate(s, k, v, list);
    on(s, k).iterable_values(v, list)
}

/// What the host starts is put on top of what runs, and control comes back when it is
/// done. A call calls, a construction constructs for its new target, and settling
/// settles.
pub proof fn law_tasks<'a>(s: EngineView<'a>, task: Task<'a>)
    ensures
        ({
            let b = s.frames.push(Frame::Barrier);
            match task {
                Task::Call { func, this, list } => s.start(task).frames == b.push(Frame::Call { func, this, list }),
                Task::Primitive { value, hint } => s.start(task).frames == b.push(Frame::ToPrim(hint)) && s.start(task).value() == value,
                Task::Number(v) => s.start(task).frames == b.push(Frame::NumberEnd).push(Frame::ToPrim(PrimitiveHint::Number)) && s.start(task).value() == v,
                Task::Text(v) => s.start(task).frames == b.push(Frame::StringOf).push(Frame::ToPrim(PrimitiveHint::String)) && s.start(task).value() == v,
                Task::Key(v) => s.start(task).frames == b.push(Frame::ToKey) && s.start(task).value() == v,
                Task::Items { value, list } => s.start(task).frames == b.push(Frame::Iterate(value, list)),
                Task::Resolve { promise, value } => s.start(task).frames == b.push(Frame::Resolve(promise, value)),
                Task::Jobs => s.start(task).frames == b.push(Frame::Drain(0)),
                Task::Timers(limit) => s.start(task).frames == b.push(Frame::Timers(0, limit)),
                Task::Settle { promise, how } => pending(s, promise) ==> s.start(task).promise_state(promise) == match how {
                    Settlement::Fulfilled(v) => PromiseState::Fulfilled(v),
                    Settlement::Rejected(e) => PromiseState::Rejected(e),
                },
                _ => true,
            }
        }),
{
}

/// The `arguments` object of a call counts the arguments.
pub proof fn law_arguments_length<'a>(s: EngineView<'a>, list: usize)
    requires
        s.store.heap.cells.len() < usize::MAX,
        items_of(s.store.heap, list).len() < 0x10_0000_0000_0000,
        items_of(s.store.heap, list).len() <= usize::MAX,
    ensures
        ({
            let (t, v) = s.arguments_object(list);
            &&& v == Value::Object(s.store.heap.cells.len() as usize)
            &&& t.own_value(s.store.heap.cells.len() as usize, s.store.n.length) matches Value::Number(x) && truncated(x) == items_of(s.store.heap, list).len()
        }),
{
    let items = items_of(s.store.heap, list);
    let (u, o) = s.new_object();
    lemma_numbered_object(u, o, items, items.len());
    lemma_exact_integer(items.len());
    lemma_pow2_pos(1074);
    let m = items.len();
    let b = double_of(m) as u64;
    vstd::arithmetic::div_mod::lemma_div_by_multiple(m as int, pow2(1074) as int);
    assert(m * pow2(1074) == pow2(1074) * m) by (nonlinear_arith);
    assert(truncated(b) == m);
    assert(items.len() as usize as nat == m);
    let q = with_numbered(u, o, items, items.len());
    assert(q.store.heap.cells[o as int] is Object);
    let (t, v) = s.arguments_object(list);
    lemma_numbered_cells(u, o, items, items.len());
    assert(t == q.set_field(o, s.store.n.length, Value::Number(b)));
    assert(t.own_prop(o, s.store.n.length) is Some);
}

proof fn lemma_numbered_object<'a>(s: EngineView<'a>, o: usize, items: Seq<Value>, n: nat)
    requires
        o < s.store.heap.cells.len(),
        s.store.heap.cells[o as int] is Object,
        n <= items.len(),
    ensures
        ({
            let t = with_numbered(s, o, items, n);
            &&& o < t.store.heap.cells.len()
            &&& t.store.heap.cells[o as int] is Object
        }),
    decreases n,
{
    if n > 0 {
        lemma_numbered_object(s, o, items, (n - 1) as nat);
    }
}

} // verus!
