//! How promises settle: from what a handler, a callback or an `async` function did to
//! the state of the promise that depends on it.
use vstd::prelude::*;
use crate::engine::{Completion, EngineView, Frame, Job};
use crate::frames::{on_async_end, on_drain, on_finally_done, on_finally_mid, on_react, on_resolve, on_then_end, on_thenable_end};
use crate::meaning::{calm, leads, lemma_follow, on};
use crate::nth::next;
use crate::ops::items_of;
use crate::promise::{promise_at, without, MAX_JOBS};
use crate::value::{PromiseReaction, PromiseReactionKind, PromiseState, Settlement, Value};

verus! {

/// Whether a call takes the machine from one state to another, whatever waits for it.
pub open spec fn calls<'a>(s: EngineView<'a>, func: Value, this: Value, list: usize, t: EngineView<'a>) -> bool {
    forall|k: Seq<Frame<'a>>| leads(#[trigger] on(s, k).push(Frame::Call { func, this, list }), on(t, k))
}

/// Whether a promise waits for its settlement.
pub open spec fn pending(s: EngineView, p: usize) -> bool {
    promise_at(s.store.heap, p) is Some && s.promise_state(p) is Pending
}

/// The machine once the first job has been taken from the queue.
pub open spec fn without_job<'a>(s: EngineView<'a>) -> EngineView<'a> {
    EngineView { jobs: s.jobs.skip(1), ..s }
}

/// Whether a reaction has a handler for a settlement, and what it is given.
pub open spec fn handles(r: PromiseReaction, how: Settlement, handler: Value, given: Value) -> bool {
    match how {
        Settlement::Fulfilled(v) => r.on_fulfilled == Some(handler) && given == v,
        Settlement::Rejected(e) => r.on_rejected == Some(handler) && given == e,
    }
}

proof fn lemma_call<'a>(s: EngineView<'a>, func: Value, this: Value, list: usize, t: EngineView<'a>, k: Seq<Frame<'a>>)
    requires
        calls(s, func, this, list, t),
    ensures
        leads(on(s, k).push(Frame::Call { func, this, list }), on(t, k)),
{
    assert(leads(on(s, k).push(Frame::Call { func, this, list }), on(t, k)));
}

/// The handler of a `then` is called with the value or the reason that the promise was
/// settled with. Where it throws, the promise that `then` gave is rejected with what
/// was thrown; only where it returns is that promise resolved, with what it returned.
pub proof fn law_then_handlers<'a>(s: EngineView<'a>, k: Seq<Frame<'a>>, n: usize, r: PromiseReaction, how: Settlement, handler: Value, given: Value, t: EngineView<'a>) -> (w: EngineView<'a>)
    requires
        calm(s),
        n < MAX_JOBS,
        s.jobs.len() > 0,
        s.jobs[0] == (Job::Reaction { reaction: r, settlement: how }),
        r.kind is Then,
        handles(r, how, handler, given),
        calls(without_job(s).list1(given).0, handler, Value::Undefined, s.store.heap.cells.len() as usize, t),
        t.ready(),
        t.acc is Normal || t.acc is Throw,
    ensures
        leads(on(s, k).push(Frame::Drain(n)), w),
        w.acc == Completion::Normal(None),
        t.acc matches Completion::Throw(e) ==> (pending(t, r.promise) ==> w.promise_state(r.promise) == PromiseState::Rejected(e)),
        t.acc matches Completion::Normal(Some(v)) ==> w == on(t.ret_empty(), k.push(Frame::Drain(next(n)))).push(Frame::Resolve(r.promise, v)),
        t.acc matches Completion::Normal(None) ==> w == on(t.ret_empty(), k.push(Frame::Drain(next(n)))).push(Frame::Resolve(r.promise, Value::Undefined)),
{
    let start = on(s, k).push(Frame::Drain(n));
    let kd = k.push(Frame::Drain(next(n)));
    let l = s.store.heap.cells.len() as usize;
    let end = Frame::ThenEnd(r.promise);
    let called = without_job(s).list1(given).0;
    on_drain(s, k, n);
    assert(on(s, k).drain_jobs(n) == on(called, kd.push(end)).push(Frame::Call { func: handler, this: Value::Undefined, list: l }));
    lemma_call(called, handler, Value::Undefined, l, t, kd.push(end));
    lemma_follow(start, on(called, kd.push(end)).push(Frame::Call { func: handler, this: Value::Undefined, list: l }), on(t, kd.push(end)));
    on_then_end(t, kd, r.promise);
    let w = on(t, kd).then_end(r.promise);
    lemma_follow(start, on(t, kd.push(end)), w);
    w
}

/// Without a handler a rejection passes to the promise that `then` gave, and a
/// fulfilment resolves it with the same value; nothing is called.
pub proof fn law_then_passes_on<'a>(s: EngineView<'a>, k: Seq<Frame<'a>>, n: usize, r: PromiseReaction, how: Settlement) -> (w: EngineView<'a>)
    requires
        calm(s),
        n < MAX_JOBS,
        s.jobs.len() > 0,
        s.jobs[0] == (Job::Reaction { reaction: r, settlement: how }),
        r.kind is Then,
        how is Fulfilled ==> r.on_fulfilled is None,
        how is Rejected ==> r.on_rejected is None,
        pending(s, r.promise),
    ensures
        leads(on(s, k).push(Frame::Drain(n)), w),
        how matches Settlement::Rejected(e) ==> w.promise_state(r.promise) == PromiseState::Rejected(e),
        how matches Settlement::Fulfilled(v) ==> w == on(without_job(s), k.push(Frame::Drain(next(n)))).push(Frame::Resolve(r.promise, v)),
{
    on_drain(s, k, n);
    on(s, k).drain_jobs(n)
}

/// What a handler is given is the one argument of its call.
pub proof fn law_handlers_get_one_argument<'a>(s: EngineView<'a>, given: Value)
    requires
        s.store.heap.cells.len() < usize::MAX,
    ensures
        items_of(without_job(s).list1(given).0.store.heap, s.store.heap.cells.len() as usize) == seq![given],
{
}

/// A promise that is resolved with a value that has no `then` is fulfilled with it.
/// One that is resolved with itself is rejected.
pub proof fn law_resolution<'a>(s: EngineView<'a>, k: Seq<Frame<'a>>, p: usize, v: Value) -> (w: EngineView<'a>)
    requires
        calm(s),
        pending(s, p),
        s.store.heap.cells.len() < usize::MAX,
        v == Value::Promise(p) || v is Undefined || v is Null || v is Boolean || v is Number || v is String || v is Symbol || v is BigInt || ((v is Object || v is Array || v is Function) && s.raw_property(v, s.store.n.then_method) is None),
    ensures
        leads(on(s, k).push(Frame::Resolve(p, v)), w),
        v != Value::Promise(p) ==> w.promise_state(p) == PromiseState::Fulfilled(v),
        v == Value::Promise(p) ==> w.promise_state(p) is Rejected,
{
    on_resolve(s, k, p, v);
    assert(on(s, k).raw_property(v, s.store.n.then_method) == s.raw_property(v, s.store.n.then_method));
    let w = on(s, k).resolve_value(p, v);
    w
}

/// A promise that is resolved with another that has settled settles in the same way.
pub proof fn law_adoption<'a>(s: EngineView<'a>, k: Seq<Frame<'a>>, p: usize, q: usize) -> (w: EngineView<'a>)
    requires
        calm(s),
        p != q,
        pending(s, p),
        promise_at(s.store.heap, q) is Some,
        !pending(s, q),
    ensures
        leads(on(s, k).push(Frame::Resolve(p, Value::Promise(q))), w),
        w.promise_state(p) == s.promise_state(q),
        w.promise_state(q) == s.promise_state(q),
{
    on_resolve(s, k, p, Value::Promise(q));
    on(s, k).resolve_value(p, Value::Promise(q))
}

/// A promise that is resolved with another that waits stays pending, and is rejected
/// when that is rejected, with the same reason; when that is fulfilled, it is resolved
/// with the same value.
pub proof fn law_adoption_waits<'a>(s: EngineView<'a>, k: Seq<Frame<'a>>, p: usize, q: usize, how: Settlement) -> (w: EngineView<'a>)
    requires
        calm(s),
        p != q,
        pending(s, p),
        pending(s, q),
        promise_at(s.store.heap, q)->0.reactions.len() == 0,
    ensures
        leads(on(s, k).push(Frame::Resolve(p, Value::Promise(q))), w),
        w.promise_state(p) is Pending,
        w.promise_state(q) is Pending,
        exists|x: EngineView<'a>| #[trigger] leads(w.settle(q, how), x) && match how {
            Settlement::Rejected(e) => x.promise_state(p) == PromiseState::Rejected(e),
            Settlement::Fulfilled(v) => x.frames.len() > 0 && x.frames.last() == Frame::Resolve(p, v),
        },
{
    on_resolve(s, k, p, Value::Promise(q));
    let w = on(s, k).resolve_value(p, Value::Promise(q));
    let r = PromiseReaction { kind: PromiseReactionKind::Forward, on_fulfilled: None, on_rejected: None, promise: p };
    let d = promise_at(s.store.heap, q)->0;
    assert(d.reactions.push(r).len() == 1);
    assert(promise_at(w.store.heap, q)->0.reactions =~= seq![r]);
    let x = w.settle(q, how);
    assert(x.frames =~= k.push(Frame::React(r, how)));
    on_react(x, k, r, how);
    assert(on(x, k).push(Frame::React(r, how)) == x);
    let y = on(x, k).enqueue_reaction_job(r, how);
    assert(leads(w.settle(q, how), y));
    w
}

/// A value with a `then` method settles the promise through that method, in a job of
/// its own: the method is called with the value as `this` and the two functions that
/// settle the promise.
pub proof fn law_thenables<'a>(s: EngineView<'a>, k: Seq<Frame<'a>>, p: usize, v: Value, f: Value) -> (w: EngineView<'a>)
    requires
        calm(s),
        pending(s, p),
        v is Object || v is Array || v is Function,
        s.raw_property(v, s.store.n.then_method) matches Some(d) && !d.is_accessor() && d.value == f,
        f.is_callable_value(),
    ensures
        leads(on(s, k).push(Frame::Resolve(p, v)), w),
        pending(w, p),
        w.frames == k,
        w.jobs == s.jobs.push(Job::Thenable { then_fn: f, thenable: v, capability: p }),
        forall|u: EngineView<'a>| #[trigger] u.run_job(Job::Thenable { then_fn: f, thenable: v, capability: p })
            == u.make_resolver_pair(p).0.push(Frame::ThenableEnd(p)).push(Frame::Call { func: f, this: v, list: u.make_resolver_pair(p).1 }),
{
    on_resolve(s, k, p, v);
    assert(on(s, k).raw_property(v, s.store.n.then_method) == s.raw_property(v, s.store.n.then_method));
    on(s, k).resolve_value(p, v)
}

/// A `then` method that throws rejects the promise that it was to settle, unless it
/// settled it before; one that returns changes nothing more.
pub proof fn law_failed_thenables<'a>(t: EngineView<'a>, k: Seq<Frame<'a>>, p: usize) -> (w: EngineView<'a>)
    requires
        t.ready(),
        promise_at(t.store.heap, p) is Some,
        t.acc is Normal || t.acc is Throw,
    ensures
        leads(on(t, k).push(Frame::ThenableEnd(p)), w),
        w.acc == Completion::Normal(None),
        t.acc matches Completion::Throw(e) ==> w.promise_state(p) == (if pending(t, p) { PromiseState::Rejected(e) } else { t.promise_state(p) }),
        t.acc is Normal ==> w == on(t, k).ret_empty(),
{
    on_thenable_end(t, k, p);
    on(t, k).thenable_end(p)
}

/// The promise of an `async` function is resolved with what the function returns,
/// and rejected with what it throws.
pub proof fn law_async_functions<'a>(t: EngineView<'a>, k: Seq<Frame<'a>>, cap: usize, resumed: bool) -> (w: EngineView<'a>)
    requires
        t.ready(),
        pending(t, cap),
        t.acc is Normal || t.acc is Return || t.acc is Throw,
    ensures
        leads(on(t, k).push(Frame::AsyncEnd { cap, resumed }), w),
        w.acc == Completion::Normal(None),
        t.acc matches Completion::Throw(e) ==> w.promise_state(cap) == PromiseState::Rejected(e),
        t.acc matches Completion::Return(v) ==> w == on(t.ret_empty(), k).push(Frame::Resolve(cap, v)),
        t.acc matches Completion::Normal(Some(v)) ==> w == on(t.ret_empty(), k).push(Frame::Resolve(cap, v)),
        t.acc matches Completion::Normal(None) ==> w == on(t.ret_empty(), k).push(Frame::Resolve(cap, Value::Undefined)),
{
    on_async_end(t, k, cap, resumed);
    on(t, k).async_end(cap, resumed)
}

/// The callback of `finally` is called without arguments. Where it throws, the promise
/// that `finally` gave is rejected with that; where it returns a plain value, the
/// promise is rejected as the original was, or resolved with the original's value.
pub proof fn law_finally_callbacks<'a>(s: EngineView<'a>, k: Seq<Frame<'a>>, n: usize, r: PromiseReaction, how: Settlement, cb: Value, t: EngineView<'a>) -> (w: EngineView<'a>)
    requires
        calm(s),
        n < MAX_JOBS,
        s.jobs.len() > 0,
        s.jobs[0] == (Job::Reaction { reaction: r, settlement: how }),
        r.kind == (PromiseReactionKind::FinallyCall { cb }),
        calls(without_job(s).new_list().0, cb, Value::Undefined, s.store.heap.cells.len() as usize, t),
        t.ready(),
        t.acc is Throw || t.acc == Completion::Normal(None) || (t.acc matches Completion::Normal(Some(v)) && (v is Undefined || v is Null || v is Boolean || v is Number || v is String)),
        pending(t, r.promise),
        t.store.heap.cells.len() < usize::MAX,
    ensures
        leads(on(s, k).push(Frame::Drain(n)), w),
        w.acc == Completion::Normal(None),
        t.acc matches Completion::Throw(e) ==> w.promise_state(r.promise) == PromiseState::Rejected(e),
        t.acc is Normal ==> w.frames.len() > 0 && (w.frames.last() matches Frame::React(q, mid) && mid is Fulfilled && q.promise == r.promise && q.kind == (PromiseReactionKind::FinallyPropagate { original: how })),
{
    let start = on(s, k).push(Frame::Drain(n));
    let kd = k.push(Frame::Drain(next(n)));
    let l = s.store.heap.cells.len() as usize;
    let end = Frame::FinallyDone { cap: r.promise, original: how };
    let called = without_job(s).new_list().0;
    on_drain(s, k, n);
    assert(on(s, k).drain_jobs(n) == on(called, kd.push(end)).push(Frame::Call { func: cb, this: Value::Undefined, list: l }));
    lemma_call(called, cb, Value::Undefined, l, t, kd.push(end));
    lemma_follow(start, on(called, kd.push(end)).push(Frame::Call { func: cb, this: Value::Undefined, list: l }), on(t, kd.push(end)));
    on_finally_done(t, kd, r.promise, how);
    let w = on(t, kd).finally_done(r.promise, how);
    lemma_follow(start, on(t, kd.push(end)), w);
    match t.acc {
        Completion::Normal(o) => {
            let v = match o {
                Some(x) => x,
                None => Value::Undefined,
            };
            let (u, mid) = t.new_promise();
            let u = u.ret_empty();
            let f = Frame::FinallyMid { mid, cap: r.promise, original: how };
            assert(w == on(u, kd.push(f)).push(Frame::Resolve(mid, v)));
            assert(pending(u, mid));
            on_resolve(u, kd.push(f), mid, v);
            let x = u.settle(mid, Settlement::Fulfilled(v));
            assert(on(u, kd.push(f)).resolve_value(mid, v) =~= on(x, kd.push(f)));
            lemma_follow(start, w, on(x, kd.push(f)));
            on_finally_mid(x, kd, mid, r.promise, how);
            let y = on(x, kd).finally_mid(mid, r.promise, how);
            lemma_follow(start, on(x, kd.push(f)), y);
            let q = PromiseReaction { kind: PromiseReactionKind::FinallyPropagate { original: how }, on_fulfilled: None, on_rejected: None, promise: r.promise };
            assert(y.frames.last() == Frame::React(q, Settlement::Fulfilled(v)));
            y
        },
        _ => w,
    }
}

/// After the callback of `finally`, the promise that it gave settles as the original
/// did, unless what the callback gave was rejected.
pub proof fn law_finally_settles<'a>(s: EngineView<'a>, k: Seq<Frame<'a>>, n: usize, r: PromiseReaction, how: Settlement, original: Settlement) -> (w: EngineView<'a>)
    requires
        calm(s),
        n < MAX_JOBS,
        s.jobs.len() > 0,
        s.jobs[0] == (Job::Reaction { reaction: r, settlement: how }),
        r.kind == (PromiseReactionKind::FinallyPropagate { original }),
        pending(s, r.promise),
    ensures
        leads(on(s, k).push(Frame::Drain(n)), w),
        how matches Settlement::Rejected(e) ==> w.promise_state(r.promise) == PromiseState::Rejected(e),
        how is Fulfilled ==> match original {
            Settlement::Rejected(e) => w.promise_state(r.promise) == PromiseState::Rejected(e),
            Settlement::Fulfilled(v) => w == on(without_job(s), k.push(Frame::Drain(next(n)))).push(Frame::Resolve(r.promise, v)),
        },
{
    on_drain(s, k, n);
    on(s, k).drain_jobs(n)
}

/// A handler never runs at once: a reaction of `then` or `finally` whose promise has
/// settled waits in the queue behind the jobs that are there.
pub proof fn law_reactions_wait<'a>(s: EngineView<'a>, k: Seq<Frame<'a>>, r: PromiseReaction, how: Settlement) -> (w: EngineView<'a>)
    requires
        calm(s),
        r.kind is Then || r.kind is FinallyCall || r.kind is FinallyPropagate || r.kind is Custom,
    ensures
        leads(on(s, k).push(Frame::React(r, how)), w),
        w.frames == k,
        w.jobs == s.jobs.push(Job::Reaction { reaction: r, settlement: how }),
        w.store == s.store,
{
    on_react(s, k, r, how);
    on(s, k).enqueue_reaction_job(r, how)
}

/// `then` gives a new pending promise. On a promise that waits, the handlers wait with
/// it; on one that has settled, they get the settlement.
pub proof fn law_then<'a>(s: EngineView<'a>, p: usize, on_fulfilled: Option<Value>, on_rejected: Option<Value>)
    requires
        promise_at(s.store.heap, p) is Some,
        s.store.heap.cells.len() < usize::MAX,
    ensures
        ({
            let t = s.perform_then(Value::Promise(p), on_fulfilled, on_rejected);
            let q = s.store.heap.cells.len() as usize;
            let r = PromiseReaction { kind: PromiseReactionKind::Then, on_fulfilled, on_rejected, promise: q };
            &&& pending(t, q)
            &&& t.promise_state(p) == s.promise_state(p)
            &&& !t.unhandled.contains(Value::Promise(p))
            &&& match s.promise_state(p) {
                PromiseState::Pending => t.frames == s.frames.push(Frame::Give(Value::Promise(q))) && promise_at(t.store.heap, p)->0.reactions == promise_at(s.store.heap, p)->0.reactions.push(r),
                PromiseState::Fulfilled(v) => t.frames == s.frames.push(Frame::Give(Value::Promise(q))).push(Frame::React(r, Settlement::Fulfilled(v))),
                PromiseState::Rejected(e) => t.frames == s.frames.push(Frame::Give(Value::Promise(q))).push(Frame::React(r, Settlement::Rejected(e))),
            }
        }),
{
    lemma_without(s.unhandled, Value::Promise(p));
}

/// A suspended function goes on where it was: what stood above its end stands there
/// again, with the value that it waited for, or with the reason thrown.
pub proof fn law_await_resumes<'a>(s: EngineView<'a>, below: Seq<Frame<'a>>, above: Seq<Frame<'a>>, cap: usize, resumed: bool, how: Settlement)
    requires
        calm(s),
        s.frames == below.push(Frame::AsyncEnd { cap, resumed }) + above,
        below.len() < usize::MAX,
        forall|i: int| 0 <= i < above.len() ==> !(#[trigger] above[i] is AsyncEnd) && !(above[i] is HeadBind),
        s.conts.len() < usize::MAX,
        s.value() matches Value::Promise(p) && promise_at(s.store.heap, p) is Some && s.promise_state(p) == match how {
            Settlement::Fulfilled(v) => PromiseState::Fulfilled(v),
            Settlement::Rejected(e) => PromiseState::Rejected(e),
        },
    ensures
        ({
            let t = s.await_end();
            let job = t.jobs.last();
            &&& t.frames == below
            &&& t.jobs.drop_last() == s.jobs
            &&& t.acc == Completion::Normal(None)
            &&& forall|u: EngineView<'a>| u.conts == t.conts ==> {
                let w = #[trigger] u.run_job(job);
                &&& w.frames == u.frames.push(Frame::AsyncEnd { cap, resumed: true }) + above
                &&& w.acc == match how {
                    Settlement::Fulfilled(v) => Completion::Normal(Some(v)),
                    Settlement::Rejected(e) => Completion::Throw(e),
                }
            }
        }),
{
    let i = below.len() as usize;
    lemma_boundary(s.frames, below, cap, resumed, above);
    assert(s.frames[i as int] == Frame::AsyncEnd { cap, resumed });
    assert forall|j: int| i < j < s.frames.len() implies !(#[trigger] s.frames[j] is HeadBind) by {
        assert(s.frames[j] == above[j - i - 1]);
    }
    assert(!s.head_above(i));
    assert(s.frames.take(i as int) =~= below);
    assert(s.frames.subrange(i + 1, s.frames.len() as int) =~= above);
    let t = s.await_end();
    assert(t.jobs.drop_last() =~= s.jobs);
    let job = t.jobs.last();
    assert forall|u: EngineView<'a>| u.conts == t.conts implies {
        let w = #[trigger] u.run_job(job);
        &&& w.frames == u.frames.push(Frame::AsyncEnd { cap, resumed: true }) + above
        &&& w.acc == match how {
            Settlement::Fulfilled(v) => Completion::Normal(Some(v)),
            Settlement::Rejected(e) => Completion::Throw(e),
        }
    } by {
        assert(u.conts[s.conts.len() as int] == above);
    }
}

proof fn lemma_boundary<'a>(frames: Seq<Frame<'a>>, below: Seq<Frame<'a>>, cap: usize, resumed: bool, above: Seq<Frame<'a>>)
    requires
        frames == below.push(Frame::AsyncEnd { cap, resumed }) + above,
        below.len() < usize::MAX,
        forall|i: int| 0 <= i < above.len() ==> !(#[trigger] above[i] is AsyncEnd),
    ensures
        crate::jobs::boundary_in(frames) == Some(below.len() as usize),
    decreases above.len(),
{
    if above.len() == 0 {
        assert(frames =~= below.push(Frame::AsyncEnd { cap, resumed }));
    } else {
        assert(frames.last() == above.last());
        assert(frames.drop_last() =~= below.push(Frame::AsyncEnd { cap, resumed }) + above.drop_last());
        lemma_boundary(frames.drop_last(), below, cap, resumed, above.drop_last());
    }
}

pub(crate) proof fn lemma_without(s: Seq<Value>, v: Value)
    ensures
        !without(s, v).contains(v),
    decreases s.len(),
{
    if s.len() > 0 {
        lemma_without(s.drop_last(), v);
        let rest = without(s.drop_last(), v);
        if s.last() != v {
            assert forall|i: int| 0 <= i < rest.push(s.last()).len() implies rest.push(s.last())[i] != v by {
                if i < rest.len() {
                    assert(rest[i] != v) by {
                        if rest[i] == v {
                            assert(rest.contains(v));
                        }
                    }
                }
            }
        }
    }
}

} // verus!
