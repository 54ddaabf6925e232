//! Computed members, `typeof`, waiting for plain values, and what passes between the
//! machine and the host.
use vstd::prelude::*;
use crate::ast::{Class, Expr};
use crate::engine::{Completion, EngineView, Frame, Job, Request};
use crate::expressions::knowing;
use crate::frames::{
    on_assign_base, on_assign_key, on_async_tail, on_call, on_construct, on_custom_end, on_delete_key, on_expr, on_fields, on_drain, on_member, on_member_key, on_native_ctor_end, on_native_end,
    on_new_func, on_number_end, on_proto_or, on_species_ctor, on_species_end, on_string_of, on_then_got, on_unary_end,
};
use crate::laws::lemma_atom_text;
use crate::meaning::{calm, evaluates, has_value, leads, lemma_follow, lemma_value, on};
use crate::nth::next;
use crate::ops::items_of;
use crate::promise::{promise_at, MAX_JOBS};
use crate::settling::{pending, without_job};
use crate::value::{PromiseReaction, PromiseReactionKind, PromiseState, Settlement, Value};

verus! {

/// A member under a computed key is read once the object and then the key have been
/// evaluated, and the key converted; an optional access of `null` or `undefined`
/// evaluates no key.
pub proof fn law_computed_members<'a>(s: EngineView<'a>, k: Seq<Frame<'a>>, e: &'a Expr, env: usize, base: Value) -> (w: EngineView<'a>)
    requires
        has_value(s, base),
        e matches Expr::Member { computed: Some(x), .. },
    ensures
        leads(on(s, k).push(Frame::Member(e, env)), w),
        e matches Expr::Member { computed: Some(x), optional, .. } && (if *optional && (base is Null || base is Undefined) {
            w == on(s, k).ret(Value::Undefined)
        } else {
            w == on(s, k).push(Frame::MemberKey(base)).push(Frame::ToKey).push(Frame::Expr(&**x, env))
        }),
        forall|u: EngineView<'a>, key: usize| #[trigger] has_value(u, Value::String(key)) && !(base is Null) && !(base is Undefined) ==> leads(on(u, k).push(Frame::MemberKey(base)), on(u, k).read_prop(base, key)),
{
    on_member(s, k, e, env);
    assert forall|u: EngineView<'a>, key: usize| #[trigger] has_value(u, Value::String(key)) && !(base is Null) && !(base is Undefined) implies leads(on(u, k).push(Frame::MemberKey(base)), on(u, k).read_prop(base, key)) by {
        on_member_key(u, k, base);
    }
    on(s, k).member(e, env)
}

/// An assignment to a member under a computed key, and its deletion, go by the same key.
pub proof fn law_computed_targets<'a>(s: EngineView<'a>, k: Seq<Frame<'a>>, e: &'a Expr, env: usize, base: Value, v: Value, u: EngineView<'a>, key: usize)
    requires
        has_value(s, base),
        e matches Expr::Member { computed: Some(x), .. },
        has_value(u, Value::String(key)),
    ensures
        e matches Expr::Member { computed: Some(x), .. } && leads(on(s, k).push(Frame::AssignBase(e, env, v)), on(s, k).push(Frame::AssignKey(base, v)).push(Frame::ToKey).push(Frame::Expr(&**x, env))),
        leads(on(u, k).push(Frame::AssignKey(base, v)), on(u, k).put_member(base, key, v)),
        leads(on(u, k).push(Frame::DeleteKey(base)), on(u, k).delete_from(base, key)),
{
    on_assign_base(s, k, e, env, v);
    on_assign_key(u, k, base, v);
    on_delete_key(u, k, base);
}

/// `typeof` gives the text for its operand's kind. A name that nothing declares is not
/// evaluated: its type is `undefined`.
pub proof fn law_typeof_operator<'a>(s: EngineView<'a>, e: &'a Expr, env: usize, t: EngineView<'a>, v: Value) -> (w: EngineView<'a>)
    requires
        calm(s),
        e matches Expr::Unary { op, operand } && *op is Typeof && match &**operand {
            Expr::Ident(n) => !knowing(s, n@).declared(s.store.atom(n@), env),
            _ => has_value(t, v) && evaluates(s, &**operand, env, t),
        },
        t.store.heap.atoms.len() < usize::MAX,
    ensures
        evaluates(s, e, env, w),
        e matches Expr::Unary { op, operand } && match &**operand {
            Expr::Ident(n) => w.value() == Value::String(s.store.n.undefined),
            _ => w.value() matches Value::String(a) && w.store.text(a) == v.typeof_text(),
        },
{
    let w = match e {
        Expr::Unary { op, operand } => match &**operand {
            Expr::Ident(n) => knowing(s, n@).ret(Value::String(s.store.n.undefined)),
            _ => knowing(t, v.typeof_text()).ret(Value::String(t.store.atom(v.typeof_text()))),
        },
        _ => s,
    };
    lemma_atom_text(t.store, v.typeof_text());
    assert forall|k: Seq<Frame<'a>>| leads(#[trigger] on(s, k).push(Frame::Expr(e, env)), on(w, k)) by {
        match e {
            Expr::Unary { op, operand } => {
                let start = on(s, k).push(Frame::Expr(e, env));
                on_expr(s, k, e, env);
                match &**operand {
                    Expr::Ident(n) => {
                        assert(on(knowing(s, n@), k).declared(s.store.atom(n@), env) == knowing(s, n@).declared(s.store.atom(n@), env));
                        assert(on(s, k).eval_expr(e, env) == on(w, k));
                    },
                    _ => {
                        let f = Frame::UnaryEnd(e, env);
                        lemma_value(s, &**operand, env, t, k.push(f));
                        lemma_follow(start, on(s, k.push(f)).push(Frame::Expr(&**operand, env)), on(t, k).push(f));
                        on_unary_end(t, k, e, env);
                        assert(on(t, k).eval_unary_value(e, env) == on(w, k));
                        lemma_follow(start, on(t, k).push(f), on(w, k));
                    },
                }
            },
            _ => {},
        }
    }
    w
}

/// A symbol has no string and no number, and a big integer no number: converting them
/// throws. Everything else is converted.
pub proof fn law_refused_conversions<'a>(s: EngineView<'a>, k: Seq<Frame<'a>>, v: Value) -> (w: EngineView<'a>)
    requires
        has_value(s, v),
    ensures
        leads(on(s, k).push(Frame::StringOf), w),
        v is Symbol ==> w.acc is Throw && w.frames == k,
        !(v is Symbol) ==> w == on(s, k).push(Frame::Text(v)),
        exists|x: EngineView<'a>| #[trigger] leads(on(s, k).push(Frame::NumberEnd), x) && if v is Symbol || v is BigInt {
            x.acc is Throw && x.frames == k
        } else {
            x == on(s, k).push(Frame::Num(v))
        },
{
    on_string_of(s, k);
    on_number_end(s, k);
    assert(leads(on(s, k).push(Frame::NumberEnd), on(s, k).number_end()));
    on(s, k).string_of()
}

/// To wait for a value that is no promise and has no `then` is to wait for a promise
/// that is fulfilled with it: the function is resumed by a job, with the value.
pub proof fn law_await_values<'a>(s: EngineView<'a>, v: Value, cont: usize, cap: usize)
    requires
        s.store.heap.cells.len() < usize::MAX,
        v is Undefined || v is Null || v is Boolean || v is Number || v is String || v is Symbol || v is BigInt,
    ensures
        s.await_suspend(v, cont, cap).frames == s.frames,
        s.await_suspend(v, cont, cap).jobs == s.jobs.push(Job::AsyncResume { cont, settlement: Settlement::Fulfilled(v), capability: cap }),
{
    let (t, p) = s.new_promise();
    let u = t.settle(p, Settlement::Fulfilled(v));
    assert(promise_at(t.store.heap, p) is Some);
    assert(u.frames =~= s.frames);
}

/// To wait for a promise that is pending is to be resumed when it settles, as the last
/// of those that wait for it.
pub proof fn law_await_pending<'a>(s: EngineView<'a>, p: usize, cont: usize, cap: usize)
    requires
        pending(s, p),
    ensures
        ({
            let t = s.await_suspend(Value::Promise(p), cont, cap);
            &&& t.frames == s.frames
            &&& t.jobs == s.jobs
            &&& pending(t, p)
            &&& promise_at(t.store.heap, p)->0.reactions.drop_last() == promise_at(s.store.heap, p)->0.reactions
            &&& promise_at(t.store.heap, p)->0.reactions.last().kind == (PromiseReactionKind::Async { cont })
            &&& promise_at(t.store.heap, p)->0.reactions.last().promise == cap
        }),
{
    let t = s.await_suspend(Value::Promise(p), cont, cap);
    assert(promise_at(t.store.heap, p)->0.reactions.drop_last() =~= promise_at(s.store.heap, p)->0.reactions);
}

/// A getter for `then` that throws rejects the promise that was to be resolved; where it
/// gives no function, the promise is fulfilled with the object itself.
pub proof fn law_then_getters<'a>(s: EngineView<'a>, k: Seq<Frame<'a>>, cap: usize, v: Value) -> (w: EngineView<'a>)
    requires
        s.ready(),
        pending(s, cap),
        s.acc is Throw || (s.acc matches Completion::Normal(Some(t)) && (t is Undefined || t is Null || t is Number || t is Function)),
    ensures
        leads(on(s, k).push(Frame::ThenGot(cap, v)), w),
        w.acc == Completion::Normal(None),
        s.acc matches Completion::Throw(e) ==> w.promise_state(cap) == PromiseState::Rejected(e),
        s.acc matches Completion::Normal(Some(t)) ==> if t is Function {
            pending(w, cap) && w.jobs == s.jobs.push(Job::Thenable { then_fn: t, thenable: v, capability: cap })
        } else {
            w.promise_state(cap) == PromiseState::Fulfilled(v)
        },
{
    on_then_got(s, k, cap, v);
    on(s, k).got_then(cap, v)
}

/// The last call of an `async` function settles its promise as the function's end does.
pub proof fn law_async_last_calls<'a>(s: EngineView<'a>, k: Seq<Frame<'a>>, cap: usize, resumed: bool) -> (w: EngineView<'a>)
    requires
        s.ready(),
        pending(s, cap),
        s.acc is Throw || s.acc is Normal,
    ensures
        leads(on(s, k).push(Frame::AsyncTail { cap, resumed }), w),
        s.acc matches Completion::Throw(e) ==> w.promise_state(cap) == PromiseState::Rejected(e),
        s.acc matches Completion::Normal(Some(v)) ==> w == on(s.ret_empty(), k).push(Frame::Resolve(cap, v)),
{
    on_async_tail(s, k, cap, resumed);
    on(s, k).async_tail(cap, resumed)
}

/// Where a promise settles through the functions of a capability, what its handler
/// returned goes to the function that resolves, and what it threw to the one that
/// rejects, as the one argument.
pub proof fn law_custom_handlers<'a>(s: EngineView<'a>, k: Seq<Frame<'a>>, resolve: Value, reject: Value, v: Value) -> (w: EngineView<'a>)
    requires
        s.ready(),
        s.acc == Completion::Normal(Some(v)) || s.acc == Completion::Throw(v),
        s.store.heap.cells.len() < usize::MAX,
    ensures
        leads(on(s, k).push(Frame::CustomEnd { resolve, reject }), w),
        ({
            let l = s.store.heap.cells.len() as usize;
            &&& w.frames == k.push(Frame::CustomCallEnd).push(Frame::Call { func: if s.acc is Throw { reject } else { resolve }, this: Value::Undefined, list: l })
            &&& items_of(w.store.heap, l) == seq![v]
        }),
{
    on_custom_end(s, k, resolve, reject);
    on(s, k).custom_end(resolve, reject)
}

/// Without a handler such a settlement is passed on by the function for it.
pub proof fn law_custom_passes_on<'a>(s: EngineView<'a>, k: Seq<Frame<'a>>, n: usize, r: PromiseReaction, how: Settlement, promise: Value, resolve: Value, reject: Value) -> (w: EngineView<'a>)
    requires
        calm(s),
        n < MAX_JOBS,
        s.jobs.len() > 0,
        s.jobs[0] == (Job::Reaction { reaction: r, settlement: how }),
        r.kind == (PromiseReactionKind::Custom { promise, resolve, reject }),
        how is Fulfilled ==> r.on_fulfilled is None,
        how is Rejected ==> r.on_rejected is None,
        s.store.heap.cells.len() < usize::MAX,
    ensures
        leads(on(s, k).push(Frame::Drain(n)), w),
        ({
            let l = s.store.heap.cells.len() as usize;
            &&& w.frames == k.push(Frame::Drain(next(n))).push(Frame::CustomCallEnd).push(Frame::Call { func: if how is Rejected { reject } else { resolve }, this: Value::Undefined, list: l })
            &&& items_of(w.store.heap, l) == seq![match how {
                Settlement::Fulfilled(v) => v,
                Settlement::Rejected(e) => e,
            }]
            &&& w.jobs == without_job(s).jobs
        }),
{
    on_drain(s, k, n);
    on(s, k).drain_jobs(n)
}

/// A call of a function of the host asks the host, with the function, its `this` and its
/// arguments; meanwhile the function is the active one, and afterwards the one from
/// before is.
pub proof fn law_host_calls<'a>(s: EngineView<'a>, k: Seq<Frame<'a>>, f: usize, this: Value, list: usize, c: Completion) -> (w: EngineView<'a>)
    requires
        calm(s),
        s.own_prop(f, s.store.n.promise_cap) is None,
        s.own_prop(f, s.store.n.cap_exec) is None,
        s.own_prop(f, s.store.n.bound_target) is None,
    ensures
        leads(on(s, k).push(Frame::Call { func: Value::NativeFunction(f), this, list }), w),
        w.pending == Some(Request::Native { func: Value::NativeFunction(f), this, args: list, construct: false }),
        w.native_ctor == Some(Value::NativeFunction(f)),
        w.store == s.store,
        leads(w.answer(c), on(s, k).done(c)),
{
    let func = Value::NativeFunction(f);
    on_call(s, k, func, this, list);
    assert(on(s, k).own_prop(f, s.store.n.promise_cap) == s.own_prop(f, s.store.n.promise_cap));
    assert(on(s, k).own_prop(f, s.store.n.cap_exec) == s.own_prop(f, s.store.n.cap_exec));
    assert(on(s, k).own_prop(f, s.store.n.bound_target) == s.own_prop(f, s.store.n.bound_target));
    let w = on(s, k).call_function(func, this, list);
    let a = s.set_native_ctor(Some(func)).done(c);
    on_native_end(a, k, s.native_ctor);
    assert(w.answer(c) == on(a, k).push(Frame::NativeEnd(s.native_ctor)));
    assert(on(a, k).set_native_ctor(s.native_ctor) == on(s, k).done(c));
    w
}

/// `new` evaluates the constructor before its arguments. What is no constructor throws:
/// an `async` function, and anything that is no function.
pub proof fn law_constructors<'a>(s: EngineView<'a>, k: Seq<Frame<'a>>, e: &'a Expr, env: usize, func: Value, list: usize)
    requires
        has_value(s, func),
        e is New,
        s.store.heap.cells.len() < usize::MAX,
    ensures
        e matches Expr::New { args, .. } && leads(on(s, k).push(Frame::NewFunc(e, env)), on(s.new_list().0, k).push(Frame::Construct { func, list: s.store.heap.cells.len() as usize }).push(Frame::Args(args, 0, env, s.store.heap.cells.len() as usize))),
        !(func is Function) && !(func is NativeFunction) ==> exists|w: EngineView<'a>| #[trigger] leads(on(s, k).push(Frame::Construct { func, list }), w) && w.acc is Throw && w.frames == k,
        func matches Value::Function(f) ==> (s.function(f) matches Some(d) ==> (d.is_async ==> exists|w: EngineView<'a>| #[trigger] leads(on(s, k).push(Frame::Construct { func, list }), w) && w.acc is Throw && w.frames == k)),
{
    on_new_func(s, k, e, env);
    on_construct(s, k, func, list);
    let w = on(s, k).construct(func, list, func);
    assert(leads(on(s, k).push(Frame::Construct { func, list }), w));
    match func {
        Value::Function(f) => {
            assert(on(s, k).function(f) == s.function(f));
        },
        _ => {},
    }
}

/// A constructor of the host is asked to construct on a new object of the constructor's
/// prototype; the object is the result unless the host gave another one.
pub proof fn law_host_constructors<'a>(s: EngineView<'a>, k: Seq<Frame<'a>>, f: usize, list: usize, proto: usize, v: Value) -> (w: EngineView<'a>)
    requires
        calm(s),
        s.proto_of(Value::NativeFunction(f)) == Some(proto),
        s.make_object(proto).0.native(f) matches Some(d) && d.constructable,
    ensures
        leads(on(s, k).push(Frame::Construct { func: Value::NativeFunction(f), list }), w),
        ({
            let o = s.store.heap.cells.len() as usize;
            &&& w.pending == Some(Request::Native { func: Value::NativeFunction(f), this: Value::Object(o), args: list, construct: true })
            &&& w.new_target == Some(Value::NativeFunction(f))
            &&& exists|x: EngineView<'a>| #[trigger] leads(w.answer(Completion::Normal(Some(v))), x) && x.frames == k && x.new_target == s.new_target && x.native_ctor == s.native_ctor && x.native_realm == s.native_realm
                && (v is Object || v is Array ==> x.value() == v) && (v is Undefined || v is Null || v is Number || v is Boolean || v is String ==> x.value() == Value::Object(o))
        }),
{
    let func = Value::NativeFunction(f);
    let o = s.store.heap.cells.len() as usize;
    on_construct(s, k, func, list);
    assert(on(s, k).proto_of(func) == s.proto_of(func));
    assert(on(s.make_object(proto).0, k).native(f) == s.make_object(proto).0.native(f));
    let w = on(s, k).construct(func, list, func);
    let c = Completion::Normal(Some(v));
    let a = on(w.answer(c), k);
    on_native_ctor_end(a, k, o, s.new_target, s.native_realm, s.native_ctor);
    let x = on(a, k).native_ctor_end(o, s.new_target, s.native_realm, s.native_ctor);
    assert(w.answer(c) == on(a, k).push(Frame::NativeCtorEnd { inst: o, target: s.new_target, realm: s.native_realm, ctor: s.native_ctor }));
    assert(leads(w.answer(c), x));
    w
}

/// The species of a constructor is taken where it has one and is a constructor; where it
/// has none, and where there is no constructor at all, the default is.
pub proof fn law_species<'a>(s: EngineView<'a>, k: Seq<Frame<'a>>, default: Value, c: Value) -> (w: EngineView<'a>)
    requires
        has_value(s, c),
    ensures
        leads(on(s, k).push(Frame::SpeciesEnd(default)), w),
        c is Null || c is Undefined ==> w == on(s, k).ret(default),
        !(c is Null) && !(c is Undefined) && s.is_constructor(c) ==> w == on(s, k).ret(c),
        !(c is Null) && !(c is Undefined) && !s.is_constructor(c) ==> w.acc is Throw,
        c is Undefined ==> leads(on(s, k).push(Frame::SpeciesCtor(default)), on(s, k).ret(default)),
        !(c is Undefined) ==> leads(on(s, k).push(Frame::SpeciesCtor(default)), on(s, k).push(Frame::SpeciesEnd(default)).read_raw(c, s.store.n.species)),
{
    on_species_end(s, k, default);
    on_species_ctor(s, k, default);
    assert(on(s, k).is_constructor(c) == s.is_constructor(c));
    on(s, k).species_end(default)
}

/// An object takes the prototype that it is to have where that is an object, and else
/// the default.
pub proof fn law_prototypes_or_default<'a>(s: EngineView<'a>, k: Seq<Frame<'a>>, default: usize, v: Value) -> (w: EngineView<'a>)
    requires
        has_value(s, v),
    ensures
        leads(on(s, k).push(Frame::ProtoOr(default)), w),
        w == on(s, k).ret(if v is Object { v } else { Value::Object(default) }),
{
    on_proto_or(s, k, default);
    on(s, k).proto_or(default)
}

/// The instance fields of a class are set up in their order, each once its initializer
/// has been evaluated, and before the constructor's own statements.
pub proof fn law_field_order<'a>(s: EngineView<'a>, k: Seq<Frame<'a>>, f: usize, i: usize, env: usize) -> (w: EngineView<'a>)
    requires
        calm(s),
        i < usize::MAX,
    ensures
        leads(on(s, k).push(Frame::Fields(f, i, env)), w),
        i >= s.field_count(f) ==> w == on(s, k),
        i < s.field_count(f) ==> match s.field_init(f, i).init {
            Some(x) => w == on(s, k).push(Frame::Fields(f, (i + 1) as usize, env)).push(Frame::FieldStore(s.field_init(f, i).key, env)).push(Frame::Expr(x, env)),
            None => w == on(s, k).push(Frame::Fields(f, (i + 1) as usize, env)).push(Frame::FieldStore(s.field_init(f, i).key, env)).ret(Value::Undefined),
        },
{
    on_fields(s, k, f, i, env);
    assert(on(s, k).field_count(f) == s.field_count(f));
    assert(on(s, k).field_init(f, i) == s.field_init(f, i));
    on(s, k).fields(f, i, env)
}

/// The prototype object of a class inherits from the parent's prototype object, and
/// without a parent from the prototype of all objects.
pub proof fn law_class_prototypes<'a>(s: EngineView<'a>, class: &'a Class, parent: Option<Value>, env: usize)
    requires
        s.store.heap.cells.len() + 1 < usize::MAX,
    ensures
        ({
            let t = s.class_start(class, parent, env);
            let proto = s.store.heap.cells.len() as usize;
            &&& parent is None ==> t.store.heap.proto(proto) == Some(s.store.b.object_prototype)
            &&& parent matches Some(p) ==> (s.proto_of(p) matches Some(o) ==> t.store.heap.proto(proto) == Some(o))
            &&& t.frames.len() == s.frames.len() + 1
            &&& t.frames.last() matches Frame::ClassKeys { class: c, env: e, parent: q, proto: r, i, .. } && c == class && e == env && q == parent && r == proto && i == 0
        }),
{
    let t = s.class_start(class, parent, env);
    let proto = s.store.heap.cells.len() as usize;
    assert(t.store.heap.cells[proto as int] is Object);
}

} // verus!
