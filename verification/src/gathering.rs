//! How the reactions of the combinators count, what the functions that settle a promise
//! do, and what a job of the program is.
use vstd::prelude::*;
use crate::engine::{Completion, EngineView, Frame, Job};
use crate::frames::{on_call, on_drain, on_microtask_end, on_react};
use crate::meaning::{calm, leads, on};
use crate::nth::next;
use crate::ops::items_of;
use crate::promise::{all_settled_at, promise_at, MAX_JOBS};
use crate::settling::{lemma_without, pending, without_job};
use crate::value::{PromiseReaction, PromiseReactionKind, PromiseState, Settlement, Value};

verus! {

/// The first fulfilment decides `Promise.any`, with its value.
pub proof fn law_any_fulfilled<'a>(s: EngineView<'a>, k: Seq<Frame<'a>>, r: PromiseReaction, v: Value) -> (w: EngineView<'a>)
    requires
        calm(s),
        r.kind is Any,
        pending(s, r.promise),
    ensures
        leads(on(s, k).push(Frame::React(r, Settlement::Fulfilled(v))), w),
        w.promise_state(r.promise) == PromiseState::Fulfilled(v),
{
    on_react(s, k, r, Settlement::Fulfilled(v));
    on(s, k).enqueue_reaction_job(r, Settlement::Fulfilled(v))
}

/// What is settled does not change again, however the elements of `Promise.any` settle.
pub proof fn law_any_once<'a>(s: EngineView<'a>, k: Seq<Frame<'a>>, r: PromiseReaction, how: Settlement)
    requires
        calm(s),
        r.kind is Any,
        promise_at(s.store.heap, r.promise) is Some,
        !pending(s, r.promise),
    ensures
        leads(on(s, k).push(Frame::React(r, how)), on(s, k)),
{
    on_react(s, k, r, how);
}

/// The last element of `Promise.allSettled` fulfils it with an array. Each settlement
/// is recorded at the place of its element, as an object that says how the element
/// settled and with what.
pub proof fn law_all_settled<'a>(s: EngineView<'a>, k: Seq<Frame<'a>>, r: PromiseReaction, index: usize, shared: usize, how: Settlement) -> (w: EngineView<'a>)
    requires
        calm(s),
        r.kind == (PromiseReactionKind::AllSettled { index, shared }),
        pending(s, r.promise),
        all_settled_at(s.store.heap, shared) matches Some(d) && d.remaining == 1 && index < d.results.len() <= usize::MAX,
        shared != r.promise,
        s.store.heap.cells.len() + 2 < usize::MAX,
        s.store.n.status != s.store.n.value,
        s.store.n.status != s.store.n.reason,
    ensures
        leads(on(s, k).push(Frame::React(r, how)), w),
        ({
            let o = s.store.heap.cells.len() as usize;
            let a = (o + 1) as usize;
            &&& w.promise_state(r.promise) == PromiseState::Fulfilled(Value::Array(a))
            &&& items_of(w.store.heap, a).len() == all_settled_at(s.store.heap, shared)->0.results.len()
            &&& items_of(w.store.heap, a)[index as int] == Value::Object(o)
            &&& forall|j: int| 0 <= j < items_of(w.store.heap, a).len() && j != index && all_settled_at(s.store.heap, shared)->0.results[j] is Some ==> #[trigger] items_of(w.store.heap, a)[j] == all_settled_at(s.store.heap, shared)->0.results[j]->0
            &&& match how {
                Settlement::Fulfilled(v) => w.own_value(o, s.store.n.status) == Value::String(s.store.n.fulfilled) && w.own_value(o, s.store.n.value) == v,
                Settlement::Rejected(e) => w.own_value(o, s.store.n.status) == Value::String(s.store.n.rejected) && w.own_value(o, s.store.n.reason) == e,
            }
        }),
{
    on_react(s, k, r, how);
    let w = on(s, k).enqueue_reaction_job(r, how);
    let o = s.store.heap.cells.len() as usize;
    let a = (o + 1) as usize;
    assert(w.store.heap.cells[o as int] is Object);
    assert(w.store.heap.cells[a as int] is Array);
    w
}

/// The functions that settle a promise count once: the first call of either resolves
/// the promise with its argument or rejects it, and every later call of both changes
/// nothing.
pub proof fn law_resolving_functions<'a>(s: EngineView<'a>, k: Seq<Frame<'a>>, f: usize, this: Value, list: usize, cap: usize, kind: usize, flag: usize) -> (w: EngineView<'a>)
    requires
        calm(s),
        s.own_prop(f, s.store.n.promise_cap) is Some,
        s.resolver_parts(f) == Some((cap, kind, Value::Object(flag))),
        flag < s.store.heap.cells.len(),
        s.store.heap.cells[flag as int] is Object,
        pending(s, cap),
    ensures
        leads(on(s, k).push(Frame::Call { func: Value::NativeFunction(f), this, list }), w),
        ({
            let arg = if items_of(s.store.heap, list).len() > 0 { items_of(s.store.heap, list)[0] } else { Value::Undefined };
            &&& s.flag_is_set(Value::Object(flag)) ==> w == on(s, k).ret(Value::Undefined)
            &&& !s.flag_is_set(Value::Object(flag)) ==> w.flag_is_set(Value::Object(flag))
            &&& !s.flag_is_set(Value::Object(flag)) && kind == s.store.n.resolve ==> w.frames == k.push(Frame::Give(Value::Undefined)).push(Frame::Resolve(cap, arg))
            &&& !s.flag_is_set(Value::Object(flag)) && kind != s.store.n.resolve ==> w.promise_state(cap) == PromiseState::Rejected(arg)
        }),
{
    on_call(s, k, Value::NativeFunction(f), this, list);
    assert(on(s, k).own_prop(f, s.store.n.promise_cap) == s.own_prop(f, s.store.n.promise_cap));
    assert(on(s, k).resolver_parts(f) == s.resolver_parts(f));
    assert(on(s, k).flag_is_set(Value::Object(flag)) == s.flag_is_set(Value::Object(flag)));
    on(s, k).call_function(Value::NativeFunction(f), this, list)
}

/// A job that the program queued is a call of its callback, without arguments.
pub proof fn law_microtasks<'a>(s: EngineView<'a>, k: Seq<Frame<'a>>, n: usize, callback: Value) -> (w: EngineView<'a>)
    requires
        calm(s),
        n < MAX_JOBS,
        s.jobs.len() > 0,
        s.jobs[0] == (Job::Microtask { callback }),
        s.store.heap.cells.len() < usize::MAX,
    ensures
        leads(on(s, k).push(Frame::Drain(n)), w),
        w == on(without_job(s).new_list().0, k.push(Frame::Drain(next(n)))).push(Frame::MicrotaskEnd).push(Frame::Call { func: callback, this: Value::Undefined, list: s.store.heap.cells.len() as usize }),
        items_of(w.store.heap, s.store.heap.cells.len() as usize).len() == 0,
        forall|c: Value| #[trigger] s.queue_microtask(c).jobs == s.jobs.push(Job::Microtask { callback: c }),
{
    on_drain(s, k, n);
    on(s, k).drain_jobs(n)
}

/// What such a job throws is reported, and the next job runs all the same.
pub proof fn law_failed_microtasks<'a>(s: EngineView<'a>, k: Seq<Frame<'a>>) -> (w: EngineView<'a>)
    requires
        s.ready(),
        s.acc is Normal || s.acc is Throw,
    ensures
        leads(on(s, k).push(Frame::MicrotaskEnd), w),
        w.frames == k,
        w.acc == Completion::Normal(None),
        s.acc matches Completion::Throw(e) ==> w.unhandled == s.unhandled.push(e),
        s.acc is Normal ==> w.unhandled == s.unhandled,
{
    on_microtask_end(s, k);
    on(s, k).task_end()
}

/// The queue is run until it is empty.
pub proof fn law_jobs_run_out<'a>(s: EngineView<'a>, k: Seq<Frame<'a>>, n: usize)
    requires
        calm(s),
        s.jobs.len() == 0,
    ensures
        leads(on(s, k).push(Frame::Drain(n)), on(s, k)),
{
    on_drain(s, k, n);
}

/// A suspended function is resumed by a job, and not at once, when what it waits for
/// settles.
pub proof fn law_resumption_waits<'a>(s: EngineView<'a>, k: Seq<Frame<'a>>, r: PromiseReaction, cont: usize, how: Settlement) -> (w: EngineView<'a>)
    requires
        calm(s),
        r.kind == (PromiseReactionKind::Async { cont }),
    ensures
        leads(on(s, k).push(Frame::React(r, how)), w),
        w.frames == k,
        w.jobs == s.jobs.push(Job::AsyncResume { cont, settlement: how, capability: r.promise }),
{
    on_react(s, k, r, how);
    on(s, k).enqueue_reaction_job(r, how)
}

/// What an element of a combinator or a `then` is told of a rejected promise marks the
/// promise as handled; a rejection that nothing reacts to is reported.
pub proof fn law_unhandled<'a>(s: EngineView<'a>, p: usize, e: Value)
    requires
        pending(s, p),
    ensures
        promise_at(s.store.heap, p)->0.reactions.len() == 0 ==> s.settle(p, Settlement::Rejected(e)).unhandled == s.unhandled.push(Value::Promise(p)),
        promise_at(s.store.heap, p)->0.reactions.len() > 0 ==> s.settle(p, Settlement::Rejected(e)).unhandled == s.unhandled,
        s.settle(p, Settlement::Fulfilled(e)).unhandled == s.unhandled,
        !s.mark_handled(p).unhandled.contains(Value::Promise(p)),
{
    lemma_without(s.unhandled, Value::Promise(p));
}

} // verus!
