//! Transitions of promises, `await`, the job queue and the timers.
use vstd::prelude::*;
use crate::engine::{Completion, Engine, EngineView, Frame, Job, TimerEntry};
use crate::nth::{next, or_else};
use crate::number::{double_of, from_u64, to_usize};
use crate::promise::{MAX_JOBS, MAX_TIMER_TASKS};
use crate::value::{PromiseReaction, PromiseReactionKind, PromiseState, Settlement, Value};

verus! {

/// Whether resolving a promise with a value looks for a `then` method.
#[verifier::allow_in_spec]
pub fn may_be_thenable(v: Value) -> (r: bool)
    returns
        v is Object || v is Array || v is Function || v is NativeFunction || v is Promise || v is MapRef || v is SetRef,
{
    matches!(v, Value::Object(_) | Value::Array(_) | Value::Function(_) | Value::NativeFunction(_) | Value::Promise(_) | Value::MapRef(_) | Value::SetRef(_))
}

/// A reaction without handlers.
#[verifier::allow_in_spec]
pub fn bare_reaction(kind: PromiseReactionKind, promise: usize) -> (r: PromiseReaction)
    returns
        (PromiseReaction { kind, on_fulfilled: None, on_rejected: None, promise }),
{
    PromiseReaction { kind, on_fulfilled: None, on_rejected: None, promise }
}

/// The handler that a reaction has for a settlement.
#[verifier::allow_in_spec]
pub fn handler_of(r: PromiseReaction, s: Settlement) -> (h: Option<Value>)
    returns
        (match s {
            Settlement::Fulfilled(_) => r.on_fulfilled,
            Settlement::Rejected(_) => r.on_rejected,
        }),
{
    match s {
        Settlement::Fulfilled(_) => r.on_fulfilled,
        Settlement::Rejected(_) => r.on_rejected,
    }
}

/// The value of a settlement.
#[verifier::allow_in_spec]
pub fn settled_value(s: Settlement) -> (v: Value)
    returns
        (match s {
            Settlement::Fulfilled(v) => v,
            Settlement::Rejected(v) => v,
        }),
{
    match s {
        Settlement::Fulfilled(v) => v,
        Settlement::Rejected(v) => v,
    }
}

/// One less than a count that a number holds, at least zero.
#[verifier::allow_in_spec]
pub fn one_less(x: u64) -> (r: usize)
    returns
        (if to_usize(x) == 0 { 0 } else { (to_usize(x) - 1) as usize }),
{
    let n = to_usize(x);
    if n == 0 { 0 } else { n - 1 }
}

/// The number of a count.
#[verifier::allow_in_spec]
pub fn count_number(n: usize) -> (r: u64)
    returns
        double_of(n as nat) as u64,
{
    from_u64(n as u64)
}

/// The place of the innermost suspendable function on a stack.
pub open spec fn boundary_in(frames: Seq<Frame>) -> Option<usize>
    decreases frames.len(),
{
    if frames.len() == 0 {
        None
    } else if frames.last() is AsyncEnd {
        Some((frames.len() - 1) as usize)
    } else {
        boundary_in(frames.drop_last())
    }
}

impl<'a> EngineView<'a> {
    /// The place of the innermost `async` function on the stack.
    pub open spec fn boundary(self) -> Option<usize> {
        boundary_in(self.frames)
    }

    /// The promise of the `async` function at a place of the stack.
    pub open spec fn cap_at(self, i: usize) -> usize {
        if i < self.frames.len() {
            match self.frames[i as int] {
                Frame::AsyncEnd { cap, .. } => cap,
                _ => 0,
            }
        } else {
            0
        }
    }

    /// Whether a loop head is being bound above a place of the stack.
    pub open spec fn head_above(self, i: usize) -> bool {
        exists|j: int| i < j < self.frames.len() && #[trigger] self.frames[j] is HeadBind
    }

    /// Puts the stack above a place aside, drops the frame at the place, and gives the
    /// number of what was put aside.
    pub open spec fn cut_above(self, i: usize) -> (EngineView<'a>, usize) {
        if i < self.frames.len() {
            (EngineView {
                frames: self.frames.take(i as int),
                conts: self.conts.push(self.frames.subrange(i + 1, self.frames.len() as int)),
                ..self
            }, self.conts.len() as usize)
        } else {
            (self, 0)
        }
    }

    /// Puts a part of the stack back that was put aside.
    pub open spec fn put_back(self, c: usize) -> EngineView<'a> {
        if c < self.conts.len() {
            EngineView { frames: self.frames + self.conts[c as int], conts: self.conts.update(c as int, Seq::empty()), ..self }
        } else {
            self
        }
    }

    /// Suspends the running `async` function until a value settles.
    pub open spec fn await_end(self) -> EngineView<'a> {
        let s = self;
        let v = s.value();
        match s.boundary() {
            Some(i) => {
                if s.head_above(i) {
                    s.unimplemented("await in for-head pattern is not implemented")
                } else {
                    let cap = s.cap_at(i);
                    let (s, c) = s.cut_above(i);
                    s.ret_empty().await_suspend(v, c, cap)
                }
            },
            None => s,
        }
    }

    /// Waits for a promise, or for a promise made of the value.
    pub open spec fn await_suspend(self, v: Value, cont: usize, cap: usize) -> EngineView<'a> {
        let s = self;
        match v {
            Value::Promise(p) => s.await_attach(p, cont, cap),
            _ => {
                let (s, t) = s.new_promise();
                if may_be_thenable(v) {
                    match s.raw_property(v, s.n().then_method) {
                        Some(p) => {
                            if p.is_accessor() {
                                match p.get {
                                    Some(g) => {
                                        let (s, l) = s.new_list();
                                        s.push(Frame::AwaitThen { awaited: v, target: t, cont: cont, cap: cap }).push(Frame::Call { func: g, this: v, list: l })
                                    },
                                    None => s.settle(t, Settlement::Fulfilled(v)).await_attach(t, cont, cap),
                                }
                            } else {
                                s.assimilate(t, v, p.value).await_attach(t, cont, cap)
                            }
                        },
                        None => s.settle(t, Settlement::Fulfilled(v)).await_attach(t, cont, cap),
                    }
                } else {
                    s.settle(t, Settlement::Fulfilled(v)).await_attach(t, cont, cap)
                }
            },
        }
    }

    /// Lets a thenable settle a promise in a job of its own; a value whose `then` is no
    /// function fulfils the promise.
    pub open spec fn assimilate(self, cap: usize, v: Value, then_value: Value) -> EngineView<'a> {
        let s = self;
        if then_value.is_callable_value() {
            s.enqueue(Job::Thenable { then_fn: then_value, thenable: v, capability: cap })
        } else {
            s.settle(cap, Settlement::Fulfilled(v))
        }
    }

    /// Goes on once the getter of `then` has ended.
    pub open spec fn got_then(self, cap: usize, v: Value) -> EngineView<'a> {
        let s = self;
        match s.completion() {
            Completion::Normal(t) => s.ret_empty().assimilate(cap, v, or_else(t, Value::Undefined)),
            Completion::Throw(e) => s.ret_empty().settle(cap, Settlement::Rejected(e)),
            _ => {
                let (s, e) = s.type_error("then getter failed");
                s.ret_empty().settle(cap, Settlement::Rejected(e))
            },
        }
    }

    /// Waits for the promise of a thenable once its `then` is known.
    pub open spec fn await_then(self, awaited: Value, target: usize, cont: usize, cap: usize) -> EngineView<'a> {
        let s = self;
        s.got_then(target, awaited).await_attach(target, cont, cap)
    }

    /// Resumes a suspended function when a promise settles.
    pub open spec fn await_attach(self, p: usize, cont: usize, cap: usize) -> EngineView<'a> {
        let s = self;
        match s.promise_state(p) {
            PromiseState::Pending => s.mark_handled(p).add_reaction(p, bare_reaction(PromiseReactionKind::Async { cont: cont }, cap)),
            PromiseState::Fulfilled(v) => s.enqueue(Job::AsyncResume { cont: cont, settlement: Settlement::Fulfilled(v), capability: cap }),
            PromiseState::Rejected(e) => s.enqueue(Job::AsyncResume { cont: cont, settlement: Settlement::Rejected(e), capability: cap }),
        }
    }

    /// Resolves a promise: with itself it is rejected, with another promise it settles
    /// as that does, with a thenable it settles as its `then` says, and with any other
    /// value it is fulfilled.
    pub open spec fn resolve_value(self, cap: usize, v: Value) -> EngineView<'a> {
        let s = self;
        match v {
            Value::Promise(p) => {
                if p == cap {
                    let (s, e) = s.type_error("Promise self-resolution");
                    s.settle(cap, Settlement::Rejected(e))
                } else {
                    match s.promise_state(p) {
                        PromiseState::Pending => s.mark_handled(p).add_reaction(p, bare_reaction(PromiseReactionKind::Forward, cap)),
                        PromiseState::Fulfilled(x) => s.settle(cap, Settlement::Fulfilled(x)),
                        PromiseState::Rejected(e) => s.settle(cap, Settlement::Rejected(e)),
                    }
                }
            },
            _ => {
                if may_be_thenable(v) {
                    match s.raw_property(v, s.n().then_method) {
                        Some(p) => {
                            if p.is_accessor() {
                                match p.get {
                                    Some(g) => {
                                        let (s, l) = s.new_list();
                                        s.push(Frame::ThenGot(cap, v)).push(Frame::Call { func: g, this: v, list: l })
                                    },
                                    None => s.settle(cap, Settlement::Fulfilled(v)),
                                }
                            } else {
                                s.assimilate(cap, v, p.value)
                            }
                        },
                        None => s.settle(cap, Settlement::Fulfilled(v)),
                    }
                } else {
                    s.settle(cap, Settlement::Fulfilled(v))
                }
            },
        }
    }

    /// Resolves a promise with a fulfilment, or rejects it.
    pub open spec fn settle_with(self, cap: usize, how: Settlement) -> EngineView<'a> {
        let s = self;
        match how {
            Settlement::Fulfilled(v) => s.push(Frame::Resolve(cap, v)),
            Settlement::Rejected(_) => s.settle(cap, how),
        }
    }

    /// Starts a reaction: handlers run in jobs, the reactions of the combinators count
    /// at once.
    pub open spec fn enqueue_reaction_job(self, r: PromiseReaction, how: Settlement) -> EngineView<'a> {
        let s = self;
        match r.kind {
            PromiseReactionKind::Then => s.enqueue(Job::Reaction { reaction: r, settlement: how }),
            PromiseReactionKind::FinallyCall { .. } => s.enqueue(Job::Reaction { reaction: r, settlement: how }),
            PromiseReactionKind::FinallyPropagate { .. } => s.enqueue(Job::Reaction { reaction: r, settlement: how }),
            PromiseReactionKind::Custom { .. } => s.enqueue(Job::Reaction { reaction: r, settlement: how }),
            PromiseReactionKind::Forward => s.settle_with(r.promise, how),
            PromiseReactionKind::Async { cont } => s.enqueue(Job::AsyncResume { cont: cont, settlement: how, capability: r.promise }),
            PromiseReactionKind::AllElement { index, shared } => {
                match how {
                    Settlement::Fulfilled(v) => {
                        let (s, all) = s.all_fulfilled(shared, index, v);
                        match all {
                            Some(a) => s.settle(r.promise, Settlement::Fulfilled(a)),
                            None => s,
                        }
                    },
                    Settlement::Rejected(_) => {
                        let (s, first) = s.all_rejected(shared);
                        if first {
                            s.settle(r.promise, how)
                        } else {
                            s
                        }
                    },
                }
            },
            PromiseReactionKind::Any { holder, index } => {
                match how {
                    Settlement::Fulfilled(_) => s.settle(r.promise, how),
                    Settlement::Rejected(e) => {
                        match s.promise_state(r.promise) {
                            PromiseState::Pending => s.any_rejected(holder, index, e, r.promise),
                            _ => s,
                        }
                    },
                }
            },
            PromiseReactionKind::AllSettled { index, shared } => {
                let (s, o) = s.new_object();
                let n = s.n();
                let tag = match how {
                    Settlement::Fulfilled(_) => n.fulfilled,
                    Settlement::Rejected(_) => n.rejected,
                };
                let part = match how {
                    Settlement::Fulfilled(_) => n.value,
                    Settlement::Rejected(_) => n.reason,
                };
                let s = s.set_field(o, n.status, Value::String(tag)).set_field(o, part, settled_value(how));
                let (s, all) = s.all_settled(shared, index, Value::Object(o));
                match all {
                    Some(a) => s.settle(r.promise, Settlement::Fulfilled(a)),
                    None => s,
                }
            },
        }
    }

    /// Counts a rejection; the last one rejects with all reasons.
    pub open spec fn any_rejected(self, holder: Value, index: usize, reason: Value, cap: usize) -> EngineView<'a> {
        let s = self;
        let n = s.n();
        match holder {
            Value::Object(h) => {
                let errors = s.own_value(h, n.errors);
                let s = s.store_reason(errors, index, reason);
                match s.own_value(h, n.remaining) {
                    Value::Number(x) => {
                        let left = one_less(x);
                        let s = s.set_field(h, n.remaining, Value::Number(count_number(left)));
                        if left == 0 {
                            s.all_failed(errors, cap)
                        } else {
                            s
                        }
                    },
                    _ => s,
                }
            },
            _ => s,
        }
    }

    /// Stores the reason of a rejection.
    pub open spec fn store_reason(self, errors: Value, index: usize, reason: Value) -> EngineView<'a> {
        let s = self;
        match errors {
            Value::Array(a) => s.set_dense(a, index, reason),
            _ => s,
        }
    }

    /// Rejects with an error that holds all reasons.
    pub open spec fn all_failed(self, errors: Value, cap: usize) -> EngineView<'a> {
        let s = self;
        let (s, l) = s.new_list();
        match errors {
            Value::Array(a) => {
                let s = s.append_list(l, a);
                let (s, e) = s.aggregate_error(l);
                s.settle(cap, Settlement::Rejected(e))
            },
            _ => {
                let (s, e) = s.aggregate_error(l);
                s.settle(cap, Settlement::Rejected(e))
            },
        }
    }

    /// Runs the jobs of the queue in order, up to a limit.
    pub open spec fn drain_jobs(self, steps: usize) -> EngineView<'a> {
        let s = self;
        let (s, job) = s.next_job();
        match job {
            Some(j) => {
                if steps < MAX_JOBS {
                    s.push(Frame::Drain(next(steps))).run_job(j)
                } else {
                    s
                }
            },
            None => s,
        }
    }

    /// Runs a job.
    pub open spec fn run_job(self, job: Job) -> EngineView<'a> {
        let s = self;
        match job {
            Job::Reaction { reaction, settlement } => s.run_reaction(reaction, settlement),
            Job::AsyncResume { cont, settlement, capability } => {
                let s = s.push(Frame::AsyncEnd { cap: capability, resumed: true }).put_back(cont);
                match settlement {
                    Settlement::Fulfilled(v) => s.ret(v),
                    Settlement::Rejected(e) => s.throw(e),
                }
            },
            Job::Thenable { then_fn, thenable, capability } => {
                let (s, l) = s.make_resolver_pair(capability);
                s.push(Frame::ThenableEnd(capability)).push(Frame::Call { func: then_fn, this: thenable, list: l })
            },
            Job::Microtask { callback } => {
                let (s, l) = s.new_list();
                s.push(Frame::MicrotaskEnd).push(Frame::Call { func: callback, this: Value::Undefined, list: l })
            },
        }
    }

    /// Runs the handler of a reaction; without one the settlement passes through.
    pub open spec fn run_reaction(self, r: PromiseReaction, how: Settlement) -> EngineView<'a> {
        let s = self;
        match r.kind {
            PromiseReactionKind::Then => {
                match handler_of(r, how) {
                    Some(f) => {
                        let (s, l) = s.list1(settled_value(how));
                        s.push(Frame::ThenEnd(r.promise)).push(Frame::Call { func: f, this: Value::Undefined, list: l })
                    },
                    None => s.settle_with(r.promise, how),
                }
            },
            PromiseReactionKind::FinallyCall { cb } => {
                let (s, l) = s.new_list();
                s.push(Frame::FinallyDone { cap: r.promise, original: how }).push(Frame::Call { func: cb, this: Value::Undefined, list: l })
            },
            PromiseReactionKind::FinallyPropagate { original } => {
                match how {
                    Settlement::Fulfilled(_) => s.settle_with(r.promise, original),
                    Settlement::Rejected(_) => s.settle(r.promise, how),
                }
            },
            PromiseReactionKind::Custom { resolve, reject, .. } => {
                let (s, l) = s.list1(settled_value(how));
                match handler_of(r, how) {
                    Some(f) => s.push(Frame::CustomEnd { resolve: resolve, reject: reject }).push(Frame::Call { func: f, this: Value::Undefined, list: l }),
                    None => {
                        match how {
                            Settlement::Fulfilled(_) => s.push(Frame::CustomCallEnd).push(Frame::Call { func: resolve, this: Value::Undefined, list: l }),
                            Settlement::Rejected(_) => s.push(Frame::CustomCallEnd).push(Frame::Call { func: reject, this: Value::Undefined, list: l }),
                        }
                    },
                }
            },
            _ => s,
        }
    }

    /// Rejects a promise with a `TypeError`.
    pub open spec fn reject_with(self, cap: usize, message: &'static str) -> EngineView<'a> {
        let s = self;
        let (s, e) = s.type_error(message);
        s.settle(cap, Settlement::Rejected(e))
    }

    /// Rejects a promise because the engine lacks a feature.
    pub open spec fn reject_missing(self, cap: usize, message: usize) -> EngineView<'a> {
        let s = self;
        let (s, e) = s.async_missing(message);
        s.settle(cap, Settlement::Rejected(e))
    }

    /// Settles the promise of an `async` function whose body has ended.
    pub open spec fn async_end(self, cap: usize, resumed: bool) -> EngineView<'a> {
        let s = self;
        match s.completion() {
            Completion::Normal(v) => s.ret_empty().push(Frame::Resolve(cap, or_else(v, Value::Undefined))),
            Completion::Return(v) => s.ret_empty().push(Frame::Resolve(cap, v)),
            Completion::Throw(e) => s.ret_empty().settle(cap, Settlement::Rejected(e)),
            Completion::TailCall { func, this, args } => {
                s.ret_empty().push(Frame::AsyncTail { cap: cap, resumed: resumed }).push(Frame::Call { func: func, this: this, list: args })
            },
            Completion::Unimplemented(m) => {
                if resumed {
                    s.ret_empty().reject_with(cap, "async function failed")
                } else {
                    s.ret_empty().reject_missing(cap, m)
                }
            },
            _ => s.ret_empty().reject_with(cap, "async function failed"),
        }
    }

    /// Settles the promise of an `async` function after its last call.
    pub open spec fn async_tail(self, cap: usize, resumed: bool) -> EngineView<'a> {
        let s = self;
        match s.completion() {
            Completion::Normal(v) => s.ret_empty().push(Frame::Resolve(cap, or_else(v, Value::Undefined))),
            Completion::Throw(e) => s.ret_empty().settle(cap, Settlement::Rejected(e)),
            Completion::Unimplemented(m) => {
                if resumed {
                    s.ret_empty().reject_with(cap, "async tail call failed")
                } else {
                    s.ret_empty().reject_missing(cap, m)
                }
            },
            _ => {
                if resumed {
                    s.ret_empty().reject_with(cap, "async tail call failed")
                } else {
                    s.ret_empty().reject_with(cap, "async function failed")
                }
            },
        }
    }

    /// Settles the promise of a `then` with what the handler did.
    pub open spec fn then_end(self, cap: usize) -> EngineView<'a> {
        let s = self;
        match s.completion() {
            Completion::Normal(v) => s.ret_empty().push(Frame::Resolve(cap, or_else(v, Value::Undefined))),
            Completion::Throw(e) => s.ret_empty().settle(cap, Settlement::Rejected(e)),
            Completion::Unimplemented(m) => s.ret_empty().reject_missing(cap, m),
            _ => s.ret_empty().reject_with(cap, "promise handler failed"),
        }
    }

    /// Waits for what a `finally` callback gave.
    pub open spec fn finally_done(self, cap: usize, original: Settlement) -> EngineView<'a> {
        let s = self;
        match s.completion() {
            Completion::Normal(v) => {
                let (s, mid) = s.new_promise();
                s.ret_empty().push(Frame::FinallyMid { mid: mid, cap: cap, original: original }).push(Frame::Resolve(mid, or_else(v, Value::Undefined)))
            },
            Completion::Throw(e) => s.ret_empty().settle(cap, Settlement::Rejected(e)),
            _ => s.ret_empty().reject_with(cap, "finally callback failed"),
        }
    }

    /// Settles as the original did once the callback's promise is fulfilled.
    pub open spec fn finally_mid(self, mid: usize, cap: usize, original: Settlement) -> EngineView<'a> {
        let s = self;
        let r = bare_reaction(PromiseReactionKind::FinallyPropagate { original: original }, cap);
        match s.promise_state(mid) {
            PromiseState::Pending => s.add_reaction(mid, r),
            PromiseState::Fulfilled(v) => s.push(Frame::React(r, Settlement::Fulfilled(v))),
            PromiseState::Rejected(e) => s.push(Frame::React(r, Settlement::Rejected(e))),
        }
    }

    /// Settles through the functions of a capability with what a handler did.
    pub open spec fn custom_end(self, resolve: Value, reject: Value) -> EngineView<'a> {
        let s = self;
        match s.completion() {
            Completion::Normal(v) => {
                let (s, l) = s.list1(or_else(v, Value::Undefined));
                s.ret_empty().push(Frame::CustomCallEnd).push(Frame::Call { func: resolve, this: Value::Undefined, list: l })
            },
            Completion::Throw(e) => {
                let (s, l) = s.list1(e);
                s.ret_empty().push(Frame::CustomCallEnd).push(Frame::Call { func: reject, this: Value::Undefined, list: l })
            },
            _ => s.job_error(),
        }
    }

    /// Reports what a job could not handle.
    pub open spec fn job_error(self) -> EngineView<'a> {
        let s = self;
        match s.completion() {
            Completion::Throw(e) => s.report(e).ret_empty(),
            Completion::Unimplemented(m) => s.report(Value::String(m)).ret_empty(),
            Completion::Normal(_) => s.ret_empty(),
            _ => {
                let (s, a) = s.intern("illegal jump out of a job");
                s.report(Value::String(a)).ret_empty()
            },
        }
    }

    /// Rejects a promise whose thenable failed.
    pub open spec fn thenable_end(self, cap: usize) -> EngineView<'a> {
        let s = self;
        match s.completion() {
            Completion::Normal(_) => s.ret_empty(),
            Completion::Throw(e) => s.ret_empty().settle(cap, Settlement::Rejected(e)),
            _ => s.ret_empty().reject_with(cap, "thenable failed"),
        }
    }

    /// Reports the exception of a callback.
    pub open spec fn task_end(self) -> EngineView<'a> {
        let s = self;
        match s.completion() {
            Completion::Throw(e) => s.report(e).ret_empty(),
            Completion::Unimplemented(m) => s.report(Value::String(m)).ret_empty(),
            _ => s.ret_empty(),
        }
    }

    /// Runs the timers in the order of their deadlines, up to a limit.
    pub open spec fn drain_timers(self, ran: usize, limit: usize) -> EngineView<'a> {
        let s = self;
        if ran < limit {
            let (s, timer) = s.pop_timer();
            match timer {
                Some(t) => {
                    let (s, hit) = s.uncancel(t.id);
                    if hit {
                        s.push(Frame::Timers(ran, limit))
                    } else {
                        s.advance_to(t.deadline).push(Frame::TimerEnd(t, next(ran), limit)).push(Frame::Call { func: t.callback, this: Value::Undefined, list: t.args })
                    }
                },
                None => s.clear_cancelled().set_ran(ran),
            }
        } else {
            s.set_ran(ran)
        }
    }

    /// Runs the jobs after a timer's callback.
    pub open spec fn timer_end(self, t: TimerEntry, ran: usize, limit: usize) -> EngineView<'a> {
        let s = self;
        s.task_end().push(Frame::TimerNext(t, ran, limit)).push(Frame::Drain(0))
    }

    /// Sets a repeating timer again unless it was cancelled meanwhile.
    pub open spec fn timer_next(self, t: TimerEntry, ran: usize, limit: usize) -> EngineView<'a> {
        let s = self;
        match t.repeat {
            Some(interval) => {
                let (s, hit) = s.uncancel(t.id);
                let s = s.forget_cancelled();
                if hit {
                    s.push(Frame::Timers(ran, limit))
                } else {
                    let deadline = s.due(interval);
                    s.add_timer(TimerEntry { id: t.id, deadline: deadline, callback: t.callback, args: t.args, repeat: Some(interval) }).push(Frame::Timers(ran, limit))
                }
            },
            None => s.push(Frame::Timers(ran, limit)),
        }
    }

    /// Forgets cancelled numbers where no timer waits.
    pub open spec fn forget_cancelled(self) -> EngineView<'a> {
        let s = self;
        if s.timer_count() == 0 {
            s.clear_cancelled()
        } else {
            s
        }
    }

    /// Runs the jobs and the timers that a program left behind; its own completion
    /// stays.
    pub open spec fn eval_end(self) -> EngineView<'a> {
        let s = self;
        match s.completion() {
            Completion::Normal(v) => {
                s.ret_empty().push(Frame::Restore(Completion::Normal(Some(or_else(v, Value::Undefined))))).push(Frame::Timers(0, MAX_TIMER_TASKS)).push(Frame::Drain(0))
            },
            c => s.ret_empty().push(Frame::Restore(c)).push(Frame::Timers(0, MAX_TIMER_TASKS)).push(Frame::Drain(0)),
        }
    }

    /// Registers a reaction on a promise, or starts it where the promise has settled.
    /// Another value counts as a fulfilled promise.
    pub open spec fn attach_reaction(self, promise: Value, r: PromiseReaction) -> EngineView<'a> {
        let s = self;
        match promise {
            Value::Promise(p) => s.attach_to(p, r),
            _ => {
                let (s, p) = s.new_promise();
                s.settle(p, Settlement::Fulfilled(promise)).attach_to(p, r)
            },
        }
    }

    /// Registers a reaction on a promise, or starts it where the promise has settled.
    pub open spec fn attach_to(self, p: usize, r: PromiseReaction) -> EngineView<'a> {
        let s = self;
        let s = s.mark_handled(p);
        match s.promise_state(p) {
            PromiseState::Pending => s.add_reaction(p, r),
            PromiseState::Fulfilled(v) => s.push(Frame::React(r, Settlement::Fulfilled(v))),
            PromiseState::Rejected(e) => s.push(Frame::React(r, Settlement::Rejected(e))),
        }
    }

    /// Registers handlers on a promise; the promise that depends on them is the result.
    pub open spec fn perform_then(self, promise: Value, on_fulfilled: Option<Value>, on_rejected: Option<Value>) -> EngineView<'a> {
        let s = self;
        let (s, p) = s.new_promise();
        let r = PromiseReaction { kind: PromiseReactionKind::Then, on_fulfilled: on_fulfilled, on_rejected: on_rejected, promise: p };
        s.push(Frame::Give(Value::Promise(p))).attach_reaction(promise, r)
    }

    /// Hands the settlement of a promise on to the functions of a capability.
    pub open spec fn forward_raw_to_custom(self, raw: usize, promise: Value, resolve: Value, reject: Value) -> EngineView<'a> {
        let s = self;
        let (s, dummy) = s.new_promise();
        s.attach_to(raw, bare_reaction(PromiseReactionKind::Custom { promise: promise, resolve: resolve, reject: reject }, dummy))
    }
}

impl<'a> Engine<'a> {
    /// The place of the innermost `async` function on the stack.
    pub(crate) fn boundary(&self) -> (res: Option<usize>)
        ensures
            res == self@.boundary(),
    {
        let mut i: usize = self.frames.len();
        assert(self.frames@.take(i as int) =~= self.frames@);
        while i > 0
            invariant
                i <= self.frames@.len(),
                boundary_in(self.frames@) == boundary_in(self.frames@.take(i as int)),
            decreases i,
        {
            assert(self.frames@.take(i as int).last() == self.frames@[i - 1]);
            assert(self.frames@.take(i as int).drop_last() =~= self.frames@.take(i - 1));
            if matches!(self.frames[i - 1], Frame::AsyncEnd { .. }) {
                return Some(i - 1);
            }
            i -= 1;
        }
        None
    }

    /// The promise of the `async` function at a place of the stack.
    pub(crate) fn cap_at(&self, i: usize) -> (res: usize)
        ensures
            res == self@.cap_at(i),
    {
        if i < self.frames.len() {
            match self.frames[i] {
                Frame::AsyncEnd { cap, .. } => cap,
                _ => 0,
            }
        } else {
            0
        }
    }

    /// Whether a loop head is being bound above a place of the stack.
    pub(crate) fn head_above(&self, i: usize) -> (res: bool)
        ensures
            res == self@.head_above(i),
    {
        let mut j: usize = i;
        while j < self.frames.len()
            invariant
                i <= j,
                forall|k: int| i < k < j && k < self.frames@.len() ==> !(#[trigger] self.frames@[k] is HeadBind),
            decreases self.frames@.len() - j,
        {
            if j > i && matches!(self.frames[j], Frame::HeadBind) {
                assert(self@.frames[j as int] is HeadBind);
                return true;
            }
            j += 1;
        }
        false
    }

    /// Puts the stack above a place aside, drops the frame at the place, and gives the
    /// number of what was put aside.
    pub(crate) fn cut_above(&mut self, i: usize) -> (res: usize)
        ensures
            (final(self)@, res) == old(self)@.cut_above(i),
    {
        if i < self.frames.len() {
            let ghost before = self@;
            let top = self.frames.split_off(i + 1);
            let _ = self.frames.pop();
            let n = self.conts.len();
            self.conts.push(top);
            assert(self@.frames =~= before.frames.take(i as int));
            assert(self@.conts =~= before.conts.push(before.frames.subrange(i + 1, before.frames.len() as int)));
            n
        } else {
            0
        }
    }

    /// Puts a part of the stack back that was put aside.
    pub(crate) fn put_back(&mut self, c: usize)
        ensures
            final(self)@ == old(self)@.put_back(c),
    {
        if c < self.conts.len() {
            let ghost before = self@;
            let mut top: Vec<Frame<'a>> = Vec::new();
            std::mem::swap(&mut top, &mut self.conts[c]);
            self.frames.append(&mut top);
            assert(self@.frames =~= before.frames + before.conts[c as int]);
            assert(self@.conts =~= before.conts.update(c as int, Seq::empty()));
        }
    }

    /// Suspends the running `async` function until a value settles.
    pub(crate) fn await_end(&mut self)
        ensures
            final(self)@ == old(self)@.await_end(),
    {
        let v = self.value();
        match self.boundary() {
            Some(i) => {
                if self.head_above(i) {
                    self.unimplemented("await in for-head pattern is not implemented");
                } else {
                    let cap = self.cap_at(i);
                    let c = self.cut_above(i);
                    self.ret_empty(); self.await_suspend(v, c, cap);
                }
            },
            None => {},
        }
    }

    /// Waits for a promise, or for a promise made of the value.
    pub(crate) fn await_suspend(&mut self, v: Value, cont: usize, cap: usize)
        ensures
            final(self)@ == old(self)@.await_suspend(v, cont, cap),
    {
        match v {
            Value::Promise(p) => { self.await_attach(p, cont, cap); },
            _ => {
                let t = self.new_promise();
                if may_be_thenable(v) {
                    match self.raw_property(v, self.n().then_method) {
                        Some(p) => {
                            if p.is_accessor() {
                                match p.get {
                                    Some(g) => {
                                        let l = self.new_list();
                                        self.push(Frame::AwaitThen { awaited: v, target: t, cont: cont, cap: cap }); self.push(Frame::Call { func: g, this: v, list: l });
                                    },
                                    None => { self.settle(t, Settlement::Fulfilled(v)); self.await_attach(t, cont, cap); },
                                }
                            } else {
                                self.assimilate(t, v, p.value); self.await_attach(t, cont, cap);
                            }
                        },
                        None => { self.settle(t, Settlement::Fulfilled(v)); self.await_attach(t, cont, cap); },
                    }
                } else {
                    self.settle(t, Settlement::Fulfilled(v)); self.await_attach(t, cont, cap);
                }
            },
        }
    }

    /// Lets a thenable settle a promise in a job of its own; a value whose `then` is no
    /// function fulfils the promise.
    pub(crate) fn assimilate(&mut self, cap: usize, v: Value, then_value: Value)
        ensures
            final(self)@ == old(self)@.assimilate(cap, v, then_value),
    {
        if then_value.is_callable_value() {
            self.enqueue(Job::Thenable { then_fn: then_value, thenable: v, capability: cap });
        } else {
            self.settle(cap, Settlement::Fulfilled(v));
        }
    }

    /// Goes on once the getter of `then` has ended.
    pub(crate) fn got_then(&mut self, cap: usize, v: Value)
        ensures
            final(self)@ == old(self)@.got_then(cap, v),
    {
        match self.completion() {
            Completion::Normal(t) => { self.ret_empty(); self.assimilate(cap, v, or_else(t, Value::Undefined)); },
            Completion::Throw(e) => { self.ret_empty(); self.settle(cap, Settlement::Rejected(e)); },
            _ => {
                let e = self.type_error("then getter failed");
                self.ret_empty(); self.settle(cap, Settlement::Rejected(e));
            },
        }
    }

    /// Waits for the promise of a thenable once its `then` is known.
    pub(crate) fn await_then(&mut self, awaited: Value, target: usize, cont: usize, cap: usize)
        ensures
            final(self)@ == old(self)@.await_then(awaited, target, cont, cap),
    {
        self.got_then(target, awaited); self.await_attach(target, cont, cap);
    }

    /// Resumes a suspended function when a promise settles.
    pub(crate) fn await_attach(&mut self, p: usize, cont: usize, cap: usize)
        ensures
            final(self)@ == old(self)@.await_attach(p, cont, cap),
    {
        match self.promise_state(p) {
            PromiseState::Pending => { self.mark_handled(p); self.add_reaction(p, bare_reaction(PromiseReactionKind::Async { cont: cont }, cap)); },
            PromiseState::Fulfilled(v) => { self.enqueue(Job::AsyncResume { cont: cont, settlement: Settlement::Fulfilled(v), capability: cap }); },
            PromiseState::Rejected(e) => { self.enqueue(Job::AsyncResume { cont: cont, settlement: Settlement::Rejected(e), capability: cap }); },
        }
    }

    /// Resolves a promise: with itself it is rejected, with another promise it settles
    /// as that does, with a thenable it settles as its `then` says, and with any other
    /// value it is fulfilled.
    pub(crate) fn resolve_value(&mut self, cap: usize, v: Value)
        ensures
            final(self)@ == old(self)@.resolve_value(cap, v),
    {
        match v {
            Value::Promise(p) => {
                if p == cap {
                    let e = self.type_error("Promise self-resolution");
                    self.settle(cap, Settlement::Rejected(e));
                } else {
                    match self.promise_state(p) {
                        PromiseState::Pending => { self.mark_handled(p); self.add_reaction(p, bare_reaction(PromiseReactionKind::Forward, cap)); },
                        PromiseState::Fulfilled(x) => { self.settle(cap, Settlement::Fulfilled(x)); },
                        PromiseState::Rejected(e) => { self.settle(cap, Settlement::Rejected(e)); },
                    }
                }
            },
            _ => {
                if may_be_thenable(v) {
                    match self.raw_property(v, self.n().then_method) {
                        Some(p) => {
                            if p.is_accessor() {
                                match p.get {
                                    Some(g) => {
                                        let l = self.new_list();
                                        self.push(Frame::ThenGot(cap, v)); self.push(Frame::Call { func: g, this: v, list: l });
                                    },
                                    None => { self.settle(cap, Settlement::Fulfilled(v)); },
                                }
                            } else {
                                self.assimilate(cap, v, p.value);
                            }
                        },
                        None => { self.settle(cap, Settlement::Fulfilled(v)); },
                    }
                } else {
                    self.settle(cap, Settlement::Fulfilled(v));
                }
            },
        }
    }

    /// Resolves a promise with a fulfilment, or rejects it.
    pub(crate) fn settle_with(&mut self, cap: usize, how: Settlement)
        ensures
            final(self)@ == old(self)@.settle_with(cap, how),
    {
        match how {
            Settlement::Fulfilled(v) => { self.push(Frame::Resolve(cap, v)); },
            Settlement::Rejected(_) => { self.settle(cap, how); },
        }
    }

    /// Starts a reaction: handlers run in jobs, the reactions of the combinators count
    /// at once.
    pub(crate) fn enqueue_reaction_job(&mut self, r: PromiseReaction, how: Settlement)
        ensures
            final(self)@ == old(self)@.enqueue_reaction_job(r, how),
    {
        match r.kind {
            PromiseReactionKind::Then => { self.enqueue(Job::Reaction { reaction: r, settlement: how }); },
            PromiseReactionKind::FinallyCall { .. } => { self.enqueue(Job::Reaction { reaction: r, settlement: how }); },
            PromiseReactionKind::FinallyPropagate { .. } => { self.enqueue(Job::Reaction { reaction: r, settlement: how }); },
            PromiseReactionKind::Custom { .. } => { self.enqueue(Job::Reaction { reaction: r, settlement: how }); },
            PromiseReactionKind::Forward => { self.settle_with(r.promise, how); },
            PromiseReactionKind::Async { cont } => { self.enqueue(Job::AsyncResume { cont: cont, settlement: how, capability: r.promise }); },
            PromiseReactionKind::AllElement { index, shared } => {
                match how {
                    Settlement::Fulfilled(v) => {
                        let all = self.all_fulfilled(shared, index, v);
                        match all {
                            Some(a) => { self.settle(r.promise, Settlement::Fulfilled(a)); },
                            None => {},
                        }
                    },
                    Settlement::Rejected(_) => {
                        let first = self.all_rejected(shared);
                        if first {
                            self.settle(r.promise, how);
                        } else {

                        }
                    },
                }
            },
            PromiseReactionKind::Any { holder, index } => {
                match how {
                    Settlement::Fulfilled(_) => { self.settle(r.promise, how); },
                    Settlement::Rejected(e) => {
                        match self.promise_state(r.promise) {
                            PromiseState::Pending => { self.any_rejected(holder, index, e, r.promise); },
                            _ => {},
                        }
                    },
                }
            },
            PromiseReactionKind::AllSettled { index, shared } => {
                let o = self.new_object();
                let n = self.n();
                let tag = match how {
                    Settlement::Fulfilled(_) => n.fulfilled,
                    Settlement::Rejected(_) => n.rejected,
                };
                let part = match how {
                    Settlement::Fulfilled(_) => n.value,
                    Settlement::Rejected(_) => n.reason,
                };
                self.set_field(o, n.status, Value::String(tag)); self.set_field(o, part, settled_value(how));
                let all = self.all_settled(shared, index, Value::Object(o));
                match all {
                    Some(a) => { self.settle(r.promise, Settlement::Fulfilled(a)); },
                    None => {},
                }
            },
        }
    }

    /// Counts a rejection; the last one rejects with all reasons.
    pub(crate) fn any_rejected(&mut self, holder: Value, index: usize, reason: Value, cap: usize)
        ensures
            final(self)@ == old(self)@.any_rejected(holder, index, reason, cap),
    {
        let n = self.n();
        match holder {
            Value::Object(h) => {
                let errors = self.own_value(h, n.errors);
                self.store_reason(errors, index, reason);
                match self.own_value(h, n.remaining) {
                    Value::Number(x) => {
                        let left = one_less(x);
                        self.set_field(h, n.remaining, Value::Number(count_number(left)));
                        if left == 0 {
                            self.all_failed(errors, cap);
                        } else {

                        }
                    },
                    _ => {},
                }
            },
            _ => {},
        }
    }

    /// Stores the reason of a rejection.
    pub(crate) fn store_reason(&mut self, errors: Value, index: usize, reason: Value)
        ensures
            final(self)@ == old(self)@.store_reason(errors, index, reason),
    {
        match errors {
            Value::Array(a) => { self.set_dense(a, index, reason); },
            _ => {},
        }
    }

    /// Rejects with an error that holds all reasons.
    pub(crate) fn all_failed(&mut self, errors: Value, cap: usize)
        ensures
            final(self)@ == old(self)@.all_failed(errors, cap),
    {
        let l = self.new_list();
        match errors {
            Value::Array(a) => {
                self.append_list(l, a);
                let e = self.aggregate_error(l);
                self.settle(cap, Settlement::Rejected(e));
            },
            _ => {
                let e = self.aggregate_error(l);
                self.settle(cap, Settlement::Rejected(e));
            },
        }
    }

    /// Runs the jobs of the queue in order, up to a limit.
    pub(crate) fn drain_jobs(&mut self, steps: usize)
        ensures
            final(self)@ == old(self)@.drain_jobs(steps),
    {
        let job = self.next_job();
        match job {
            Some(j) => {
                if steps < MAX_JOBS {
                    self.push(Frame::Drain(next(steps))); self.run_job(j);
                } else {

                }
            },
            None => {},
        }
    }

    /// Runs a job.
    pub(crate) fn run_job(&mut self, job: Job)
        ensures
            final(self)@ == old(self)@.run_job(job),
    {
        match job {
            Job::Reaction { reaction, settlement } => { self.run_reaction(reaction, settlement); },
            Job::AsyncResume { cont, settlement, capability } => {
                self.push(Frame::AsyncEnd { cap: capability, resumed: true }); self.put_back(cont);
                match settlement {
                    Settlement::Fulfilled(v) => { self.ret(v); },
                    Settlement::Rejected(e) => { self.throw(e); },
                }
            },
            Job::Thenable { then_fn, thenable, capability } => {
                let l = self.make_resolver_pair(capability);
                self.push(Frame::ThenableEnd(capability)); self.push(Frame::Call { func: then_fn, this: thenable, list: l });
            },
            Job::Microtask { callback } => {
                let l = self.new_list();
                self.push(Frame::MicrotaskEnd); self.push(Frame::Call { func: callback, this: Value::Undefined, list: l });
            },
        }
    }

    /// Runs the handler of a reaction; without one the settlement passes through.
    pub(crate) fn run_reaction(&mut self, r: PromiseReaction, how: Settlement)
        ensures
            final(self)@ == old(self)@.run_reaction(r, how),
    {
        match r.kind {
            PromiseReactionKind::Then => {
                match handler_of(r, how) {
                    Some(f) => {
                        let l = self.list1(settled_value(how));
                        self.push(Frame::ThenEnd(r.promise)); self.push(Frame::Call { func: f, this: Value::Undefined, list: l });
                    },
                    None => { self.settle_with(r.promise, how); },
                }
            },
            PromiseReactionKind::FinallyCall { cb } => {
                let l = self.new_list();
                self.push(Frame::FinallyDone { cap: r.promise, original: how }); self.push(Frame::Call { func: cb, this: Value::Undefined, list: l });
            },
            PromiseReactionKind::FinallyPropagate { original } => {
                match how {
                    Settlement::Fulfilled(_) => { self.settle_with(r.promise, original); },
                    Settlement::Rejected(_) => { self.settle(r.promise, how); },
                }
            },
            PromiseReactionKind::Custom { resolve, reject, .. } => {
                let l = self.list1(settled_value(how));
                match handler_of(r, how) {
                    Some(f) => { self.push(Frame::CustomEnd { resolve: resolve, reject: reject }); self.push(Frame::Call { func: f, this: Value::Undefined, list: l }); },
                    None => {
                        match how {
                            Settlement::Fulfilled(_) => { self.push(Frame::CustomCallEnd); self.push(Frame::Call { func: resolve, this: Value::Undefined, list: l }); },
                            Settlement::Rejected(_) => { self.push(Frame::CustomCallEnd); self.push(Frame::Call { func: reject, this: Value::Undefined, list: l }); },
                        }
                    },
                }
            },
            _ => {},
        }
    }

    /// Rejects a promise with a `TypeError`.
    pub(crate) fn reject_with(&mut self, cap: usize, message: &'static str)
        ensures
            final(self)@ == old(self)@.reject_with(cap, message),
    {
        let e = self.type_error(message);
        self.settle(cap, Settlement::Rejected(e));
    }

    /// Rejects a promise because the engine lacks a feature.
    pub(crate) fn reject_missing(&mut self, cap: usize, message: usize)
        ensures
            final(self)@ == old(self)@.reject_missing(cap, message),
    {
        let e = self.async_missing(message);
        self.settle(cap, Settlement::Rejected(e));
    }

    /// Settles the promise of an `async` function whose body has ended.
    pub(crate) fn async_end(&mut self, cap: usize, resumed: bool)
        ensures
            final(self)@ == old(self)@.async_end(cap, resumed),
    {
        match self.completion() {
            Completion::Normal(v) => { self.ret_empty(); self.push(Frame::Resolve(cap, or_else(v, Value::Undefined))); },
            Completion::Return(v) => { self.ret_empty(); self.push(Frame::Resolve(cap, v)); },
            Completion::Throw(e) => { self.ret_empty(); self.settle(cap, Settlement::Rejected(e)); },
            Completion::TailCall { func, this, args } => {
                self.ret_empty(); self.push(Frame::AsyncTail { cap: cap, resumed: resumed }); self.push(Frame::Call { func: func, this: this, list: args });
            },
            Completion::Unimplemented(m) => {
                if resumed {
                    self.ret_empty(); self.reject_with(cap, "async function failed");
                } else {
                    self.ret_empty(); self.reject_missing(cap, m);
                }
            },
            _ => { self.ret_empty(); self.reject_with(cap, "async function failed"); },
        }
    }

    /// Settles the promise of an `async` function after its last call.
    pub(crate) fn async_tail(&mut self, cap: usize, resumed: bool)
        ensures
            final(self)@ == old(self)@.async_tail(cap, resumed),
    {
        match self.completion() {
            Completion::Normal(v) => { self.ret_empty(); self.push(Frame::Resolve(cap, or_else(v, Value::Undefined))); },
            Completion::Throw(e) => { self.ret_empty(); self.settle(cap, Settlement::Rejected(e)); },
            Completion::Unimplemented(m) => {
                if resumed {
                    self.ret_empty(); self.reject_with(cap, "async tail call failed");
                } else {
                    self.ret_empty(); self.reject_missing(cap, m);
                }
            },
            _ => {
                if resumed {
                    self.ret_empty(); self.reject_with(cap, "async tail call failed");
                } else {
                    self.ret_empty(); self.reject_with(cap, "async function failed");
                }
            },
        }
    }

    /// Settles the promise of a `then` with what the handler did.
    pub(crate) fn then_end(&mut self, cap: usize)
        ensures
            final(self)@ == old(self)@.then_end(cap),
    {
        match self.completion() {
            Completion::Normal(v) => { self.ret_empty(); self.push(Frame::Resolve(cap, or_else(v, Value::Undefined))); },
            Completion::Throw(e) => { self.ret_empty(); self.settle(cap, Settlement::Rejected(e)); },
            Completion::Unimplemented(m) => { self.ret_empty(); self.reject_missing(cap, m); },
            _ => { self.ret_empty(); self.reject_with(cap, "promise handler failed"); },
        }
    }

    /// Waits for what a `finally` callback gave.
    pub(crate) fn finally_done(&mut self, cap: usize, original: Settlement)
        ensures
            final(self)@ == old(self)@.finally_done(cap, original),
    {
        match self.completion() {
            Completion::Normal(v) => {
                let mid = self.new_promise();
                self.ret_empty(); self.push(Frame::FinallyMid { mid: mid, cap: cap, original: original }); self.push(Frame::Resolve(mid, or_else(v, Value::Undefined)));
            },
            Completion::Throw(e) => { self.ret_empty(); self.settle(cap, Settlement::Rejected(e)); },
            _ => { self.ret_empty(); self.reject_with(cap, "finally callback failed"); },
        }
    }

    /// Settles as the original did once the callback's promise is fulfilled.
    pub(crate) fn finally_mid(&mut self, mid: usize, cap: usize, original: Settlement)
        ensures
            final(self)@ == old(self)@.finally_mid(mid, cap, original),
    {
        let r = bare_reaction(PromiseReactionKind::FinallyPropagate { original: original }, cap);
        match self.promise_state(mid) {
            PromiseState::Pending => { self.add_reaction(mid, r); },
            PromiseState::Fulfilled(v) => { self.push(Frame::React(r, Settlement::Fulfilled(v))); },
            PromiseState::Rejected(e) => { self.push(Frame::React(r, Settlement::Rejected(e))); },
        }
    }

    /// Settles through the functions of a capability with what a handler did.
    pub(crate) fn custom_end(&mut self, resolve: Value, reject: Value)
        ensures
            final(self)@ == old(self)@.custom_end(resolve, reject),
    {
        match self.completion() {
            Completion::Normal(v) => {
                let l = self.list1(or_else(v, Value::Undefined));
                self.ret_empty(); self.push(Frame::CustomCallEnd); self.push(Frame::Call { func: resolve, this: Value::Undefined, list: l });
            },
            Completion::Throw(e) => {
                let l = self.list1(e);
                self.ret_empty(); self.push(Frame::CustomCallEnd); self.push(Frame::Call { func: reject, this: Value::Undefined, list: l });
            },
            _ => { self.job_error(); },
        }
    }

    /// Reports what a job could not handle.
    pub(crate) fn job_error(&mut self)
        ensures
            final(self)@ == old(self)@.job_error(),
    {
        match self.completion() {
            Completion::Throw(e) => { self.report(e); self.ret_empty(); },
            Completion::Unimplemented(m) => { self.report(Value::String(m)); self.ret_empty(); },
            Completion::Normal(_) => { self.ret_empty(); },
            _ => {
                let a = self.intern("illegal jump out of a job");
                self.report(Value::String(a)); self.ret_empty();
            },
        }
    }

    /// Rejects a promise whose thenable failed.
    pub(crate) fn thenable_end(&mut self, cap: usize)
        ensures
            final(self)@ == old(self)@.thenable_end(cap),
    {
        match self.completion() {
            Completion::Normal(_) => { self.ret_empty(); },
            Completion::Throw(e) => { self.ret_empty(); self.settle(cap, Settlement::Rejected(e)); },
            _ => { self.ret_empty(); self.reject_with(cap, "thenable failed"); },
        }
    }

    /// Reports the exception of a callback.
    pub(crate) fn task_end(&mut self)
        ensures
            final(self)@ == old(self)@.task_end(),
    {
        match self.completion() {
            Completion::Throw(e) => { self.report(e); self.ret_empty(); },
            Completion::Unimplemented(m) => { self.report(Value::String(m)); self.ret_empty(); },
            _ => { self.ret_empty(); },
        }
    }

    /// Runs the timers in the order of their deadlines, up to a limit.
    pub(crate) fn drain_timers(&mut self, ran: usize, limit: usize)
        ensures
            final(self)@ == old(self)@.drain_timers(ran, limit),
    {
        if ran < limit {
            let timer = self.pop_timer();
            match timer {
                Some(t) => {
                    let hit = self.uncancel(t.id);
                    if hit {
                        self.push(Frame::Timers(ran, limit));
                    } else {
                        self.advance_to(t.deadline); self.push(Frame::TimerEnd(t, next(ran), limit)); self.push(Frame::Call { func: t.callback, this: Value::Undefined, list: t.args });
                    }
                },
                None => { self.clear_cancelled(); self.set_ran(ran); },
            }
        } else {
            self.set_ran(ran);
        }
    }

    /// Runs the jobs after a timer's callback.
    pub(crate) fn timer_end(&mut self, t: TimerEntry, ran: usize, limit: usize)
        ensures
            final(self)@ == old(self)@.timer_end(t, ran, limit),
    {
        self.task_end(); self.push(Frame::TimerNext(t, ran, limit)); self.push(Frame::Drain(0));
    }

    /// Sets a repeating timer again unless it was cancelled meanwhile.
    pub(crate) fn timer_next(&mut self, t: TimerEntry, ran: usize, limit: usize)
        ensures
            final(self)@ == old(self)@.timer_next(t, ran, limit),
    {
        match t.repeat {
            Some(interval) => {
                let hit = self.uncancel(t.id);
                self.forget_cancelled();
                if hit {
                    self.push(Frame::Timers(ran, limit));
                } else {
                    let deadline = self.due(interval);
                    self.add_timer(TimerEntry { id: t.id, deadline: deadline, callback: t.callback, args: t.args, repeat: Some(interval) }); self.push(Frame::Timers(ran, limit));
                }
            },
            None => { self.push(Frame::Timers(ran, limit)); },
        }
    }

    /// Forgets cancelled numbers where no timer waits.
    pub(crate) fn forget_cancelled(&mut self)
        ensures
            final(self)@ == old(self)@.forget_cancelled(),
    {
        if self.timer_count() == 0 {
            self.clear_cancelled();
        } else {

        }
    }

    /// Runs the jobs and the timers that a program left behind; its own completion
    /// stays.
    pub(crate) fn eval_end(&mut self)
        ensures
            final(self)@ == old(self)@.eval_end(),
    {
        match self.completion() {
            Completion::Normal(v) => {
                self.ret_empty(); self.push(Frame::Restore(Completion::Normal(Some(or_else(v, Value::Undefined))))); self.push(Frame::Timers(0, MAX_TIMER_TASKS)); self.push(Frame::Drain(0));
            },
            c => { self.ret_empty(); self.push(Frame::Restore(c)); self.push(Frame::Timers(0, MAX_TIMER_TASKS)); self.push(Frame::Drain(0)); },
        }
    }

    /// Registers a reaction on a promise, or starts it where the promise has settled.
    /// Another value counts as a fulfilled promise.
    pub(crate) fn attach_reaction(&mut self, promise: Value, r: PromiseReaction)
        ensures
            final(self)@ == old(self)@.attach_reaction(promise, r),
    {
        match promise {
            Value::Promise(p) => { self.attach_to(p, r); },
            _ => {
                let p = self.new_promise();
                self.settle(p, Settlement::Fulfilled(promise)); self.attach_to(p, r);
            },
        }
    }

    /// Registers a reaction on a promise, or starts it where the promise has settled.
    pub(crate) fn attach_to(&mut self, p: usize, r: PromiseReaction)
        ensures
            final(self)@ == old(self)@.attach_to(p, r),
    {
        self.mark_handled(p);
        match self.promise_state(p) {
            PromiseState::Pending => { self.add_reaction(p, r); },
            PromiseState::Fulfilled(v) => { self.push(Frame::React(r, Settlement::Fulfilled(v))); },
            PromiseState::Rejected(e) => { self.push(Frame::React(r, Settlement::Rejected(e))); },
        }
    }

    /// Registers handlers on a promise; the promise that depends on them is the result.
    pub(crate) fn perform_then(&mut self, promise: Value, on_fulfilled: Option<Value>, on_rejected: Option<Value>)
        ensures
            final(self)@ == old(self)@.perform_then(promise, on_fulfilled, on_rejected),
    {
        let p = self.new_promise();
        let r = PromiseReaction { kind: PromiseReactionKind::Then, on_fulfilled: on_fulfilled, on_rejected: on_rejected, promise: p };
        self.push(Frame::Give(Value::Promise(p))); self.attach_reaction(promise, r);
    }

    /// Hands the settlement of a promise on to the functions of a capability.
    pub(crate) fn forward_raw_to_custom(&mut self, raw: usize, promise: Value, resolve: Value, reject: Value)
        ensures
            final(self)@ == old(self)@.forward_raw_to_custom(raw, promise, resolve, reject),
    {
        let dummy = self.new_promise();
        self.attach_to(raw, bare_reaction(PromiseReactionKind::Custom { promise: promise, resolve: resolve, reject: reject }, dummy));
    }
}

} // verus!
