//! The meaning of functions and calls: what a call runs, in which scope, with which
//! `this` and which arguments, and what it gives.
use vstd::prelude::*;
use crate::ast::{Arg, Expr, Pattern, Stmt};
use crate::engine::{Completion, EngineView, Frame, Mode};
use crate::env::{binds, outer_of, scope_at};
use crate::frames::{
    on_append, on_apply, on_args, on_body, on_call, on_call_base, on_call_end, on_call_func, on_construct, on_construct_end, on_expr, on_fields, on_finish_env,
    on_params, on_yield_end,
};
use crate::expressions::knowing;
use crate::make::with_numbered;
use crate::meaning::{calm, evaluates, has_value, leads, lemma_follow, lemma_value, on};
use crate::object::Read;
use crate::ops::items_of;
use crate::settling::calls;
use crate::statements::{lemma_hoist_on, lemma_runs, runs};
use crate::value::{Body, Value};

verus! {

/// Whether a function is run by its calls: it is neither a generator nor `async`.
pub open spec fn runs_plainly(s: EngineView, f: usize) -> bool {
    s.function(f) matches Some(d) && !d.generator && !d.is_async
}

/// Whether binding the parameters of a call to its arguments takes the machine from
/// one state to another.
pub open spec fn binds_params<'a>(s: EngineView<'a>, params: &'a Vec<Pattern>, i: usize, env: usize, list: usize, t: EngineView<'a>) -> bool {
    forall|k: Seq<Frame<'a>>| leads(#[trigger] on(s, k).push(Frame::Params(params, i, env, list)), on(t, k))
}

/// Whether binding a pattern to a value takes the machine from one state to another.
pub open spec fn binds_to<'a>(s: EngineView<'a>, pat: &'a Pattern, env: usize, v: Value, t: EngineView<'a>) -> bool {
    forall|k: Seq<Frame<'a>>| leads(#[trigger] on(s.ret(v), k).push(Frame::Bind(pat, env, Mode::Bind)), on(t, k))
}

/// The parameters of a function are bound in turn, each to the argument at its place,
/// or to `undefined` where there is none.
pub proof fn law_parameters<'a>(s: EngineView<'a>, params: &'a Vec<Pattern>, i: usize, env: usize, list: usize, t: EngineView<'a>, u: EngineView<'a>)
    requires
        calm(s),
        i < usize::MAX,
        i < params@.len() ==> calm(t) && binds_to(s, &params@[i as int], env, if i < items_of(s.store.heap, list).len() { items_of(s.store.heap, list)[i as int] } else { Value::Undefined }, t) && binds_params(t, params, (i + 1) as usize, env, list, u),
        i >= params@.len() ==> u == s,
    ensures
        binds_params(s, params, i, env, list, u),
{
    assert forall|k: Seq<Frame<'a>>| leads(#[trigger] on(s, k).push(Frame::Params(params, i, env, list)), on(u, k)) by {
        let start = on(s, k).push(Frame::Params(params, i, env, list));
        on_params(s, k, params, i, env, list);
        if i < params@.len() {
            let v = if i < items_of(s.store.heap, list).len() { items_of(s.store.heap, list)[i as int] } else { Value::Undefined };
            let p = &params@[i as int];
            let f = Frame::Params(params, (i + 1) as usize, env, list);
            assert(leads(on(s.ret(v), k.push(f)).push(Frame::Bind(p, env, Mode::Bind)), on(t, k.push(f))));
            lemma_follow(start, on(s.ret(v), k.push(f)).push(Frame::Bind(p, env, Mode::Bind)), on(t, k.push(f)));
            assert(leads(on(t, k).push(f), on(u, k)));
            lemma_follow(start, on(t, k).push(f), on(u, k));
        }
    }
}

proof fn lemma_numbered_on<'a>(s: EngineView<'a>, k: Seq<Frame<'a>>, o: usize, items: Seq<Value>, n: nat)
    ensures
        with_numbered(on(s, k), o, items, n) == on(with_numbered(s, o, items, n), k),
    decreases n,
{
    if n > 0 && n <= items.len() {
        lemma_numbered_on(s, k, o, items, (n - 1) as nat);
    }
}

proof fn lemma_finish_on<'a>(s: EngineView<'a>, k: Seq<Frame<'a>>, f: usize, this: Value, list: usize, env: usize)
    ensures
        on(s, k).finish_env(f, this, list, env) == on(s.finish_env(f, this, list, env), k),
{
    match crate::ops::function_at(s.store.heap, f) {
        Some(d) => {
            let a = s.bind(env, s.store.n.this, match d.this_capture {
                Some(v) => v,
                None => this,
            });
            let b = match d.super_proto {
                Some(p) => a.bind(env, a.store.n.super_object, Value::Object(p)),
                None => a,
            };
            let u = match d.super_ctor {
                Some(c) => b.bind(env, b.store.n.super_ctor, c),
                None => b,
            };
            let items = items_of(u.store.heap, list);
            lemma_numbered_on(u.new_object().0, k, u.new_object().1, items, items.len());
            assert(on(u.new_object().0, k) == on(u, k).new_object().0);
        },
        None => {},
    }
}

/// A call of a function runs its body in a new scope inside the one in which the
/// function was made: the parameters are bound there first, then `this` and
/// `arguments`. What the body returns is what the call gives; what it throws, the call
/// throws.
pub proof fn law_calls<'a>(s: EngineView<'a>, f: usize, this: Value, list: usize, t: EngineView<'a>, w: EngineView<'a>)
    requires
        calm(s),
        calm(t),
        runs_plainly(s, f),
        runs_plainly(s.new_scope(s.function(f)->0.closure, true).0, f),
        s.new_scope(s.function(f)->0.closure, true).0.function(f) == s.function(f),
        s.function(f) matches Some(d) && d.params matches Some(p) && d.body matches Body::Stmts(b) && ({
            let env = s.store.heap.cells.len() as usize;
            &&& binds_params(s.new_scope(d.closure, true).0, p, 0, env, list, t)
            &&& t.finish_env(f, this, list, env).function(f) matches Some(e) && e.body == d.body
            &&& t.finish_env(f, this, list, env).hoist(b, env).field_count(f) == 0
            &&& runs(t.finish_env(f, this, list, env), b, env, w)
        }),
        w.ready(),
        w.acc is Normal || w.acc is Return || w.acc is Throw,
    ensures
        calls(s, Value::Function(f), this, list, match w.acc {
            Completion::Return(v) => w.ret(v),
            Completion::Normal(Some(v)) => w.ret(v),
            Completion::Normal(None) => w.ret(Value::Undefined),
            _ => w,
        }),
{
    let z = match w.acc {
        Completion::Return(v) => w.ret(v),
        Completion::Normal(Some(v)) => w.ret(v),
        Completion::Normal(None) => w.ret(Value::Undefined),
        _ => w,
    };
    let func = Value::Function(f);
    assert forall|k: Seq<Frame<'a>>| leads(#[trigger] on(s, k).push(Frame::Call { func, this, list }), on(z, k)) by {
        let start = on(s, k).push(Frame::Call { func, this, list });
        let d = s.function(f)->0;
        let p = d.params->0;
        let b = match d.body {
            Body::Stmts(b) => b,
            _ => arbitrary(),
        };
        let env = s.store.heap.cells.len() as usize;
        let n = s.new_scope(d.closure, true).0;
        let k1 = k.push(Frame::CallEnd);
        let k2 = k1.push(Frame::Body(f, env));
        let k3 = k2.push(Frame::FinishEnv { func: f, this, list, env });
        on_call(s, k, func, this, list);
        assert(on(s, k).function(f) == s.function(f));
        assert(on(n, k1).function(f) == n.function(f));
        assert(on(s, k).call_function(func, this, list) == on(n, k3).push(Frame::Params(p, 0, env, list)));
        assert(leads(on(n, k3).push(Frame::Params(p, 0, env, list)), on(t, k3)));
        lemma_follow(start, on(n, k3).push(Frame::Params(p, 0, env, list)), on(t, k3));
        on_finish_env(t, k2, f, this, list, env);
        let u = t.finish_env(f, this, list, env);
        lemma_finish_on(t, k2, f, this, list, env);
        lemma_follow(start, on(t, k3), on(u, k2));
        lemma_finish_keeps(t, f, this, list, env);
        on_body(u, k1, f, env);
        lemma_hoist_on(u, k1, b, env);
        let h = u.hoist(b, env).ret_empty();
        let g = Frame::Stmts(b, 0, env, None);
        assert(on(u, k1).function(f) == u.function(f));
        assert(on(u, k1).body(f, env) == on(h, k1.push(g)).push(Frame::Fields(f, 0, env)));
        lemma_follow(start, on(u, k2), on(h, k1.push(g)).push(Frame::Fields(f, 0, env)));
        lemma_hoist_keeps(u, b, env);
        on_fields(h, k1.push(g), f, 0, env);
        lemma_follow(start, on(h, k1.push(g)).push(Frame::Fields(f, 0, env)), on(h, k1).push(g));
        assert(on(u, k1).run_list(b, env) == on(h, k1).push(g));
        lemma_runs(u, b, env, w, k1);
        lemma_follow(start, on(h, k1).push(g), on(w, k1));
        on_call_end(w, k);
        lemma_follow(start, on(w, k1), on(z, k));
    }
}

proof fn lemma_finish_keeps<'a>(t: EngineView<'a>, f: usize, this: Value, list: usize, env: usize)
    ensures
        t.finish_env(f, this, list, env).acc == t.acc,
        t.finish_env(f, this, list, env).ready() == t.ready(),
{
    match crate::ops::function_at(t.store.heap, f) {
        Some(d) => {
            let a = t.bind(env, t.store.n.this, match d.this_capture {
                Some(v) => v,
                None => this,
            });
            let b = match d.super_proto {
                Some(p) => a.bind(env, a.store.n.super_object, Value::Object(p)),
                None => a,
            };
            let u = match d.super_ctor {
                Some(c) => b.bind(env, b.store.n.super_ctor, c),
                None => b,
            };
            let items = items_of(u.store.heap, list);
            lemma_numbered_keeps(u.new_object().0, u.new_object().1, items, items.len());
        },
        None => {},
    }
}

proof fn lemma_numbered_keeps<'a>(s: EngineView<'a>, o: usize, items: Seq<Value>, n: nat)
    ensures
        with_numbered(s, o, items, n).acc == s.acc,
        with_numbered(s, o, items, n).ready() == s.ready(),
    decreases n,
{
    if n > 0 && n <= items.len() {
        lemma_numbered_keeps(s, o, items, (n - 1) as nat);
    }
}

proof fn lemma_hoist_keeps<'a>(s: EngineView<'a>, list: &'a Vec<Stmt>, env: usize)
    ensures
        s.hoist(list, env).ready() == s.ready(),
{
    reveal(EngineView::hoist);
    lemma_declarations_keep(s, list, env, list@.len());
    let d = crate::make::with_declarations(s, list, env, list@.len());
    lemma_vars_keep(d, crate::names::var_names(*list), d.function_scope(env), crate::names::var_names(*list).len());
}

proof fn lemma_declarations_keep<'a>(s: EngineView<'a>, list: &'a Vec<Stmt>, env: usize, n: nat)
    ensures
        crate::make::with_declarations(s, list, env, n).ready() == s.ready(),
    decreases n,
{
    if n > 0 && n <= list@.len() {
        lemma_declarations_keep(s, list, env, (n - 1) as nat);
    }
}

proof fn lemma_vars_keep<'a>(s: EngineView<'a>, names: Seq<Seq<char>>, scope: usize, n: nat)
    ensures
        crate::make::with_vars(s, names, scope, n).ready() == s.ready(),
    decreases n,
{
    if n > 0 && n <= names.len() {
        lemma_vars_keep(s, names, scope, (n - 1) as nat);
    }
}

/// The scope of a call is new: it lies inside the scope in which the function was made
/// and binds nothing yet.
pub proof fn law_call_scope<'a>(s: EngineView<'a>, closure: usize)
    requires
        s.store.heap.cells.len() < usize::MAX,
    ensures
        ({
            let env = s.store.heap.cells.len() as usize;
            let t = s.new_scope(closure, true).0;
            &&& s.new_scope(closure, true).1 == env
            &&& outer_of(t.store.heap, env) == Some(closure)
            &&& scope_at(t.store.heap, env)->0.is_function
            &&& forall|a: usize| !binds(t.store.heap, env, a)
        }),
{
}

/// What a body returns is the value of the call, also where it returns early; what it
/// throws passes through.
pub proof fn law_call_results<'a>(s: EngineView<'a>, k: Seq<Frame<'a>>) -> (w: EngineView<'a>)
    requires
        s.ready(),
        s.acc is Return || s.acc is Throw || s.acc is TailCall,
    ensures
        leads(on(s, k).push(Frame::CallEnd), w),
        s.acc matches Completion::Return(v) ==> w == on(s, k).ret(v),
        s.acc is Throw ==> w == on(s, k),
        s.acc matches Completion::TailCall { func, this, args } ==> w == on(s, k).ret_empty().push(Frame::Call { func, this, list: args }),
{
    on_call_end(s, k);
    on(s, k).call_end()
}

/// A value that is no function cannot be called: the call throws.
pub proof fn law_only_functions_are_called<'a>(s: EngineView<'a>, k: Seq<Frame<'a>>, func: Value, this: Value, list: usize) -> (w: EngineView<'a>)
    requires
        calm(s),
        !(func is Function) && !(func is NativeFunction),
    ensures
        leads(on(s, k).push(Frame::Call { func, this, list }), w),
        w.acc is Throw,
        w.frames == k,
{
    on_call(s, k, func, this, list);
    on(s, k).call_function(func, this, list)
}

/// Whether evaluating arguments into a list takes the machine from one state to
/// another.
pub open spec fn gathers<'a>(s: EngineView<'a>, args: &'a Vec<Arg>, i: usize, env: usize, list: usize, t: EngineView<'a>) -> bool {
    forall|k: Seq<Frame<'a>>| leads(#[trigger] on(s, k).push(Frame::Args(args, i, env, list)), on(t, k))
}

/// Arguments are evaluated from left to right, and the value of each is added behind
/// those before it.
pub proof fn law_arguments<'a>(s: EngineView<'a>, args: &'a Vec<Arg>, i: usize, env: usize, list: usize, t: EngineView<'a>, v: Value, u: EngineView<'a>)
    requires
        calm(s),
        i < usize::MAX,
        i >= args@.len() ==> u == s,
        i < args@.len() ==> has_value(t, v) && (&args@[i as int] matches Arg::Expr(x) && evaluates(s, x, env, t)) && gathers(t.append(list, v), args, (i + 1) as usize, env, list, u),
    ensures
        gathers(s, args, i, env, list, u),
        crate::object::array_at(t.store.heap, list) is Some && list < t.store.heap.cells.len() ==> items_of(t.append(list, v).store.heap, list) == items_of(t.store.heap, list).push(v),
{
    assert forall|k: Seq<Frame<'a>>| leads(#[trigger] on(s, k).push(Frame::Args(args, i, env, list)), on(u, k)) by {
        let start = on(s, k).push(Frame::Args(args, i, env, list));
        on_args(s, k, args, i, env, list);
        if i < args@.len() {
            match &args@[i as int] {
                Arg::Expr(x) => {
                    let f = Frame::Args(args, (i + 1) as usize, env, list);
                    let g = Frame::Append(list);
                    lemma_value(s, x, env, t, k.push(f).push(g));
                    lemma_follow(start, on(s, k.push(f).push(g)).push(Frame::Expr(x, env)), on(t, k.push(f)).push(g));
                    on_append(t, k.push(f), list);
                    let m = t.append(list, v);
                    lemma_follow(start, on(t, k.push(f)).push(g), on(m, k).push(f));
                    assert(leads(on(m, k).push(f), on(u, k)));
                    lemma_follow(start, on(m, k).push(f), on(u, k));
                },
                _ => {},
            }
        }
    }
    if crate::object::array_at(t.store.heap, list) is Some {
        assert(items_of(t.append(list, v).store.heap, list) =~= items_of(t.store.heap, list).push(v));
    }
}

/// A call of a method evaluates the object, reads the method from it, evaluates the
/// arguments, and calls the method with the object as `this`.
pub proof fn law_method_calls<'a>(s: EngineView<'a>, e: &'a Expr, env: usize, t: EngineView<'a>, base: Value, func: Value, u: EngineView<'a>, w: EngineView<'a>)
    requires
        calm(s),
        has_value(t, base),
        !(base is Null) && !(base is Undefined),
        calm(u),
        e matches Expr::Call { callee, args, optional } && (&**callee matches Expr::Member { obj, prop, computed: None, .. } && evaluates(s, &**obj, env, t) && ({
            let n = knowing(t, prop@);
            &&& n.property(base, t.store.atom(prop@)) == Read::Value(func)
            &&& gathers(n.ret(func).new_list().0, args, 0, env, n.store.heap.cells.len() as usize, u)
            &&& calls(u, func, base, n.store.heap.cells.len() as usize, w)
        })),
    ensures
        evaluates(s, e, env, w),
{
    assert forall|k: Seq<Frame<'a>>| leads(#[trigger] on(s, k).push(Frame::Expr(e, env)), on(w, k)) by {
        match e {
            Expr::Call { callee, args, optional } => match &**callee {
                Expr::Member { obj, prop, .. } => {
                    let start = on(s, k).push(Frame::Expr(e, env));
                    let f = Frame::CallBase(e, env, false);
                    let g = Frame::CallFunc(e, env, base, false);
                    let n = knowing(t, prop@);
                    let l = n.store.heap.cells.len() as usize;
                    let h = Frame::Apply { func, this: base, list: l, tail: false };
                    let m = n.ret(func).new_list().0;
                    on_expr(s, k, e, env);
                    lemma_value(s, &**obj, env, t, k.push(f));
                    lemma_follow(start, on(s, k.push(f)).push(Frame::Expr(&**obj, env)), on(t, k).push(f));
                    on_call_base(t, k, e, env, false);
                    assert(on(n, k.push(g)).property(base, t.store.atom(prop@)) == n.property(base, t.store.atom(prop@)));
                    assert(on(t, k).call_base(e, env, false) == on(n.ret(func), k).push(g));
                    lemma_follow(start, on(t, k).push(f), on(n.ret(func), k).push(g));
                    on_call_func(n.ret(func), k, e, env, base, false);
                    assert(on(n.ret(func), k).call_func(e, env, base, false) == on(m, k.push(h)).push(Frame::Args(args, 0, env, l)));
                    lemma_follow(start, on(n.ret(func), k).push(g), on(m, k.push(h)).push(Frame::Args(args, 0, env, l)));
                    assert(leads(on(m, k.push(h)).push(Frame::Args(args, 0, env, l)), on(u, k.push(h))));
                    lemma_follow(start, on(m, k.push(h)).push(Frame::Args(args, 0, env, l)), on(u, k).push(h));
                    on_apply(u, k, func, base, l, false);
                    let c = Frame::Call { func, this: base, list: l };
                    lemma_follow(start, on(u, k).push(h), on(u, k).push(c));
                    assert(leads(on(u, k).push(c), on(w, k)));
                    lemma_follow(start, on(u, k).push(c), on(w, k));
                },
                _ => {},
            },
            _ => {},
        }
    }
}

/// A call of a function that is not read from an object evaluates the function, then
/// the arguments, and calls it with the global object as `this`. An optional call of
/// `null` or `undefined` gives `undefined` and evaluates no argument.
pub proof fn law_function_calls<'a>(s: EngineView<'a>, e: &'a Expr, env: usize, t: EngineView<'a>, func: Value, u: EngineView<'a>, w: EngineView<'a>)
    requires
        calm(s),
        has_value(t, func),
        calm(u),
        e matches Expr::Call { callee, args, optional } && !(**callee is Member) && !(**callee is Super) && evaluates(s, &**callee, env, t) && (if *optional && (func is Null || func is Undefined) {
            w == t.ret(Value::Undefined)
        } else {
            &&& gathers(t.new_list().0, args, 0, env, t.store.heap.cells.len() as usize, u)
            &&& calls(u, func, Value::Object(s.store.b.global_object), t.store.heap.cells.len() as usize, w)
        }),
    ensures
        evaluates(s, e, env, w),
{
    let global = Value::Object(s.store.b.global_object);
    assert forall|k: Seq<Frame<'a>>| leads(#[trigger] on(s, k).push(Frame::Expr(e, env)), on(w, k)) by {
        match e {
            Expr::Call { callee, args, optional } => {
                let start = on(s, k).push(Frame::Expr(e, env));
                let g = Frame::CallFunc(e, env, global, false);
                let l = t.store.heap.cells.len() as usize;
                let h = Frame::Apply { func, this: global, list: l, tail: false };
                let m = t.new_list().0;
                on_expr(s, k, e, env);
                assert(on(s, k).eval_expr(e, env) == on(s, k.push(g)).push(Frame::Expr(&**callee, env)));
                lemma_value(s, &**callee, env, t, k.push(g));
                lemma_follow(start, on(s, k.push(g)).push(Frame::Expr(&**callee, env)), on(t, k).push(g));
                on_call_func(t, k, e, env, global, false);
                if *optional && (func is Null || func is Undefined) {
                    lemma_follow(start, on(t, k).push(g), on(w, k));
                } else {
                    assert(on(t, k).call_func(e, env, global, false) == on(m, k.push(h)).push(Frame::Args(args, 0, env, l)));
                    lemma_follow(start, on(t, k).push(g), on(m, k.push(h)).push(Frame::Args(args, 0, env, l)));
                    assert(leads(on(m, k.push(h)).push(Frame::Args(args, 0, env, l)), on(u, k.push(h))));
                    lemma_follow(start, on(m, k.push(h)).push(Frame::Args(args, 0, env, l)), on(u, k).push(h));
                    on_apply(u, k, func, global, l, false);
                    let c = Frame::Call { func, this: global, list: l };
                    lemma_follow(start, on(u, k).push(h), on(u, k).push(c));
                    assert(leads(on(u, k).push(c), on(w, k)));
                    lemma_follow(start, on(u, k).push(c), on(w, k));
                }
            },
            _ => {},
        }
    }
}

/// `new` makes an object whose prototype is the constructor's `prototype`, and calls
/// the constructor with it as `this`. The object is what `new` gives, unless the
/// constructor returned another object.
pub proof fn law_new<'a>(s: EngineView<'a>, k: Seq<Frame<'a>>, f: usize, list: usize, proto: usize, t: EngineView<'a>) -> (w: EngineView<'a>)
    requires
        calm(s),
        s.function(f) matches Some(d) && !d.is_async && !d.is_derived,
        s.proto_of(Value::Function(f)) == Some(proto),
        calls(s.make_object(proto).0.set_target(Some(Value::Function(f))), Value::Function(f), Value::Object(s.store.heap.cells.len() as usize), list, t),
        t.ready(),
        t.acc is Normal || t.acc is Throw,
    ensures
        leads(on(s, k).push(Frame::Construct { func: Value::Function(f), list }), w),
        w.frames == k,
        w.new_target == s.new_target,
        t.acc is Throw ==> w.acc == t.acc,
        t.acc matches Completion::Normal(Some(v)) && (v is Object || v is Array || v is Function) ==> w.value() == t.value(),
        t.acc is Normal && (t.value() is Undefined || t.value() is Null || t.value() is Boolean || t.value() is Number || t.value() is String) ==> w.value() == Value::Object(s.store.heap.cells.len() as usize),
{
    let start = on(s, k).push(Frame::Construct { func: Value::Function(f), list });
    let func = Value::Function(f);
    let inst = s.store.heap.cells.len() as usize;
    on_construct(s, k, func, list);
    let m = s.make_object(proto).0.set_target(Some(func));
    let g = Frame::ConstructEnd { inst, target: s.new_target };
    let c = Frame::Call { func, this: Value::Object(inst), list };
    assert(on(s, k).function(f) == s.function(f));
    assert(on(s, k).proto_of(func) == s.proto_of(func));
    assert(on(s, k).construct(func, list, func) == on(m, k.push(g)).push(c));
    assert(leads(on(m, k.push(g)).push(c), on(t, k.push(g))));
    lemma_follow(start, on(m, k.push(g)).push(c), on(t, k).push(g));
    on_construct_end(t, k, inst, s.new_target);
    let w = on(t, k).construct_end(inst, s.new_target);
    lemma_follow(start, on(t, k).push(g), w);
    w
}

/// The object that `new` makes has no properties of its own and the constructor's
/// `prototype` as its prototype.
pub proof fn law_instances<'a>(s: EngineView<'a>, proto: usize)
    requires
        s.store.heap.cells.len() < usize::MAX,
    ensures
        ({
            let o = s.store.heap.cells.len() as usize;
            let t = s.make_object(proto).0;
            &&& s.make_object(proto).1 == o
            &&& t.store.heap.proto(o) == Some(proto)
            &&& forall|key: usize| t.own_prop(o, key) is None
        }),
{
}

/// A function expression gives a function that closes over the present scope, with its
/// parameters and its body; an arrow function keeps the present `this`, others do not.
pub proof fn law_closures<'a>(s: EngineView<'a>, e: &'a Expr, env: usize) -> (w: EngineView<'a>)
    requires
        calm(s),
        s.store.heap.cells.len() + 2 < usize::MAX,
        e is Arrow || (e matches Expr::Function { name: None, .. }),
    ensures
        evaluates(s, e, env, w),
        w.value() matches Value::Function(f) && (w.function(f) matches Some(d) && d.closure == env && match e {
            Expr::Arrow { params, body } => d.params == Some(params) && d.this_capture == Some(s.this_of(env)) && (body@.len() > 0 && !(body@[0] is AsyncBody) && !(body@[0] is GeneratorBody) ==> d.body == Body::Stmts(body) && !d.is_async && !d.generator),
            Expr::Function { params, body, .. } => d.params == Some(params) && d.this_capture is None && (body@.len() > 0 && !(body@[0] is AsyncBody) && !(body@[0] is GeneratorBody) ==> d.body == Body::Stmts(body) && !d.is_async && !d.generator)
                && (body@.len() > 0 ==> (body@[0] is AsyncBody ==> d.is_async) && (body@[0] is GeneratorBody ==> d.generator)),
            _ => true,
        }),
{
    let w = match e {
        Expr::Arrow { params, body } => {
            let (t, f) = s.make_function(s.store.n.empty, Some(params), body, env, Some(s.this_of(env)));
            t.ret(f)
        },
        Expr::Function { params, body, .. } => {
            let (t, f) = s.make_function(s.store.n.empty, Some(params), body, env, None);
            t.ret(f)
        },
        _ => s,
    };
    assert forall|k: Seq<Frame<'a>>| leads(#[trigger] on(s, k).push(Frame::Expr(e, env)), on(w, k)) by {
        on_expr(s, k, e, env);
        assert(on(s, k).this_of(env) == s.this_of(env));
        assert(on(s, k).eval_expr(e, env) == on(w, k));
    }
    w
}

/// An `async` function gives a promise at once: a new one, pending until its body has
/// ended.
pub proof fn law_async_calls<'a>(s: EngineView<'a>, k: Seq<Frame<'a>>, f: usize, this: Value, list: usize) -> (w: EngineView<'a>)
    requires
        calm(s),
        s.function(f) matches Some(d) && d.is_async && !d.generator && d.params is None,
    ensures
        leads(on(s, k).push(Frame::Call { func: Value::Function(f), this, list }), w),
        ({
            let p = s.store.heap.cells.len() as usize;
            w.frames.len() == k.len() + 3 && w.frames.take(k.len() as int) == k && w.frames[k.len() as int] == Frame::Give(Value::Promise(p)) && w.frames[k.len() as int + 1] == (Frame::AsyncEnd { cap: p, resumed: false })
        }),
{
    let func = Value::Function(f);
    on_call(s, k, func, this, list);
    assert(on(s, k).function(f) == s.function(f));
    let d = s.function(f)->0;
    let p = s.new_promise().0;
    let n = p.new_scope(d.closure, true).0;
    let env = p.store.heap.cells.len() as usize;
    lemma_finish_on(n, k, f, this, list, env);
    let w = on(s, k).call_function(func, this, list);
    assert(on(n, k) == on(s, k).new_promise().0.new_scope(d.closure, true).0);
    assert(w.frames.take(k.len() as int) =~= k);
    w
}

/// A generator's body is not run by the call: the call gives its object.
pub proof fn law_generator_calls<'a>(s: EngineView<'a>, k: Seq<Frame<'a>>, f: usize, this: Value, list: usize) -> (w: EngineView<'a>)
    requires
        calm(s),
        s.function(f) matches Some(d) && d.generator,
    ensures
        leads(on(s, k).push(Frame::Call { func: Value::Function(f), this, list }), w),
        w.frames == k,
        w.acc == Completion::Normal(Some(Value::Object(s.store.heap.cells.len() as usize))),
{
    on_call(s, k, Value::Function(f), this, list);
    assert(on(s, k).function(f) == s.function(f));
    on(s, k).call_function(Value::Function(f), this, list)
}

/// What a generator yields is added behind what it yielded before.
pub proof fn law_yields<'a>(s: EngineView<'a>, k: Seq<Frame<'a>>, v: Value, l: usize) -> (w: EngineView<'a>)
    requires
        has_value(s, v),
        s.sink == Some(l),
        l < s.store.heap.cells.len(),
        crate::object::array_at(s.store.heap, l) is Some,
    ensures
        leads(on(s, k).push(Frame::YieldEnd), w),
        w.frames == k,
        items_of(w.store.heap, l) == items_of(s.store.heap, l).push(v),
{
    on_yield_end(s, k);
    let w = on(s, k).yield_end();
    assert(items_of(w.store.heap, l) =~= items_of(s.store.heap, l).push(v));
    w
}

} // verus!
