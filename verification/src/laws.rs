//! What holds of the engine as a whole.
use vstd::prelude::*;
use crate::ast::{Expr, LogicalOp, Stmt};
use crate::bigint::lemma_decimal_digits;
use crate::convert::law_strict_equality;
use crate::engine::{Completion, EngineView, Frame, Job, TimerEntry};
use crate::gc::{reaction_refers, settled_value, value_cell};
use crate::heap::HeapView;
use crate::host::{builtin_values, cells_of, job_countdown, job_values, jobs_countdowns, jobs_values, kind_values, optional, timers_values};
use crate::machine::{abrupt, catches};
use crate::numtext::{printed, PrintedView};
use crate::ops::items_of;
use crate::promise::{all_at, fires_before, next_timer_place, promise_at, MAX_TIMER_TASKS};
use crate::rounding::number_text;
use crate::stmt::{if_postprocess, labeled_postprocess, loop_body_step, switch_step, update_empty, LoopStep};
use crate::store::StoreView;
use crate::text::decimal;
use crate::value::{serial_id, well_known_id, PromiseReaction, PromiseState, Settlement, Value};

verus! {

/// A promise is settled once: what comes after the first settlement changes nothing.
pub proof fn law_settled_once(s: EngineView, p: usize, first: Settlement, second: Settlement)
    requires
        promise_at(s.store.heap, p) is Some,
    ensures
        s.settle(p, first).settle(p, second) == s.settle(p, first),
        promise_at(s.settle(p, first).store.heap, p)->0.state != PromiseState::Pending,
{
    let d = promise_at(s.store.heap, p)->0;
    if d.state is Pending {
        assert(promise_at(s.settle(p, first).store.heap, p) is Some);
    }
}

/// The reactions of a pending promise are kept in the order of their registration,
/// and a settlement starts the one that was registered first before the others: its
/// frame is on top.
pub proof fn law_reactions_in_order(s: EngineView, p: usize, r: PromiseReaction, how: Settlement)
    requires
        promise_at(s.store.heap, p) is Some,
        promise_at(s.store.heap, p)->0.state is Pending,
    ensures
        promise_at(s.add_reaction(p, r).store.heap, p)->0.reactions == promise_at(s.store.heap, p)->0.reactions.push(r),
        forall|i: int|
            0 <= i < promise_at(s.store.heap, p)->0.reactions.len() ==> s.settle(p, how).frames[s.settle(p, how).frames.len() - 1 - i]
                == #[trigger] reaction_frame(promise_at(s.store.heap, p)->0.reactions[i], how),
{
}

/// The frame that runs a reaction.
pub open spec fn reaction_frame<'a>(r: PromiseReaction, how: Settlement) -> Frame<'a> {
    Frame::React(r, how)
}

/// The first rejection decides `Promise.all`: it counts, and nothing that comes after
/// it does.
pub proof fn law_first_rejection_wins(s: EngineView, shared: usize, i: usize, v: Value)
    requires
        all_at(s.store.heap, shared) is Some,
        !all_at(s.store.heap, shared)->0.settled,
    ensures
        s.all_rejected(shared).1,
        s.all_rejected(shared).0.all_rejected(shared) == (s.all_rejected(shared).0, false),
        s.all_rejected(shared).0.all_fulfilled(shared, i, v) == (s.all_rejected(shared).0, None::<Value>),
{
}

/// `Promise.all` waits for its last element: before that, a fulfilled element only
/// lowers the count.
pub proof fn law_all_waits(s: EngineView, shared: usize, i: usize, v: Value)
    requires
        all_at(s.store.heap, shared) is Some,
        !all_at(s.store.heap, shared)->0.settled,
    ensures
        s.all_fulfilled(shared, i, v).1 is Some <==> all_at(s.store.heap, shared)->0.remaining <= 1,
        all_at(s.store.heap, shared)->0.remaining > 1 ==> all_at(s.all_fulfilled(shared, i, v).0.store.heap, shared)->0.remaining
            == all_at(s.store.heap, shared)->0.remaining - 1,
{
}

/// The job queue is first in, first out: a job that is added comes out after all
/// that wait, and those keep their order.
pub proof fn law_jobs_in_order(s: EngineView, job: Job)
    ensures
        s.jobs.len() == 0 ==> s.enqueue(job).next_job().1 == Some(job) && s.enqueue(job).next_job().0.jobs.len() == 0,
        s.jobs.len() > 0 ==> s.enqueue(job).next_job().1 == s.next_job().1 && s.enqueue(job).next_job().0.jobs == s.next_job().0.jobs.push(job),
{
    if s.jobs.len() > 0 {
        assert(s.jobs.push(job).skip(1) =~= s.jobs.skip(1).push(job));
    }
}

proof fn lemma_next_place(timers: Seq<TimerEntry>, n: nat)
    requires
        0 < n <= timers.len(),
    ensures
        next_timer_place(timers, n) is Some,
        0 <= next_timer_place(timers, n)->0 < n,
        forall|k: int| 0 <= k < n ==> !#[trigger] fires_before(timers[k], timers[next_timer_place(timers, n)->0]),
    decreases n,
{
    if n > 1 {
        lemma_next_place(timers, (n - 1) as nat);
        let j = next_timer_place(timers, (n - 1) as nat)->0;
        let i = next_timer_place(timers, n)->0;
        assert forall|k: int| 0 <= k < n implies !#[trigger] fires_before(timers[k], timers[i]) by {
            if k < n - 1 {
                assert(!fires_before(timers[k], timers[j]));
            }
        }
    } else {
        assert(next_timer_place(timers, 0) is None);
    }
}

/// The timer that fires next is the one with the earliest deadline, and among those
/// the one that was set first; the others stay.
pub proof fn law_earliest_timer(s: EngineView, k: int)
    requires
        0 <= k < s.timers.len(),
    ensures
        s.pop_timer().1 is Some,
        !fires_before(s.timers[k], s.pop_timer().1->0),
        s.pop_timer().0.timers.len() == s.timers.len() - 1,
        s.timers.contains(s.pop_timer().1->0),
{
    lemma_next_place(s.timers, s.timers.len());
    let i = next_timer_place(s.timers, s.timers.len())->0;
    assert(s.timers[i] == s.pop_timer().1->0);
}

/// A cancellation is remembered until it is taken, and is then gone; others stay.
pub proof fn law_cancellation(s: EngineView, id: u64, other: u64)
    requires
        id != other,
    ensures
        s.cancel(id).uncancel(id).1,
        !s.cancel(id).uncancel(id).0.uncancel(id).1,
        s.cancel(id).uncancel(id).0.uncancel(other).1 == s.uncancel(other).1,
{
}

/// A timer that was cancelled does not fire: it is taken away, and nothing is called.
pub proof fn law_cancelled_timers_are_skipped(s: EngineView, ran: usize, limit: usize)
    requires
        ran < limit,
        s.pop_timer().1 matches Some(t) && s.cancelled.contains(t.id),
    ensures
        s.drain_timers(ran, limit).frames == s.frames.push(Frame::Timers(ran, limit)),
        s.drain_timers(ran, limit).now == s.now,
        s.drain_timers(ran, limit).timers == s.pop_timer().0.timers,
{
}

/// A timer fires at its deadline or later, and the clock never goes back.
pub proof fn law_clock(s: EngineView, ran: usize, limit: usize)
    ensures
        s.now <= s.drain_timers(ran, limit).now,
        ran < limit && s.pop_timer().1 is Some && !s.cancelled.contains(s.pop_timer().1->0.id)
            ==> s.pop_timer().1->0.deadline <= s.drain_timers(ran, limit).now,
{
}

/// A repeating timer is set again for one interval later, unless it was cancelled.
pub proof fn law_intervals_repeat(s: EngineView, t: TimerEntry, ran: usize, limit: usize)
    requires
        t.repeat is Some,
    ensures
        s.cancelled.contains(t.id) ==> s.timer_next(t, ran, limit).timers == s.timers,
        !s.cancelled.contains(t.id) ==> s.timer_next(t, ran, limit).timers == s.timers.push(
            (TimerEntry { deadline: s.due(t.repeat->0), ..t }),
        ),
{
}

/// What a timer's callback throws is reported and ends nothing else; the jobs run
/// before the next timer.
pub proof fn law_timer_errors_are_reported(s: EngineView, t: TimerEntry, ran: usize, limit: usize, e: Value)
    requires
        s.acc == Completion::Throw(e),
    ensures
        s.timer_end(t, ran, limit).unhandled == s.unhandled.push(e),
        s.timer_end(t, ran, limit).acc == Completion::Normal(None),
        s.timer_end(t, ran, limit).frames == s.frames.push(Frame::TimerNext(t, ran, limit)).push(Frame::Drain(0)),
{
}

/// What a program leaves behind runs after it: first the jobs, then the timers, and
/// how the program itself ended stays.
pub proof fn law_jobs_before_timers(s: EngineView)
    ensures
        s.eval_end().frames == s.frames.push(
            Frame::Restore(
                match s.acc {
                    Completion::Normal(None) => Completion::Normal(Some(Value::Undefined)),
                    c => c,
                },
            ),
        ).push(Frame::Timers(0, MAX_TIMER_TASKS)).push(Frame::Drain(0)),
{
}

/// An abrupt completion leaves everything that does not handle it, and has no other
/// effect on the way.
pub proof fn law_unwinding(s: EngineView, n: nat)
    requires
        s.ready(),
        abrupt(s.acc),
        n <= s.frames.len(),
        forall|i: int| s.frames.len() - n <= i < s.frames.len() ==> !catches(&#[trigger] s.frames[i]),
    ensures
        s.steps(n) == (EngineView { frames: s.frames.take(s.frames.len() - n), ..s }),
    decreases n,
{
    if n == 0 {
        assert(s.frames.take(s.frames.len() as int) =~= s.frames);
    } else {
        law_unwinding(s, (n - 1) as nat);
        let before = s.steps((n - 1) as nat);
        assert(before.frames.last() == s.frames[s.frames.len() - n]);
        assert(before.frames.drop_last() =~= s.frames.take(s.frames.len() - n));
    }
}

/// How a `try` statement ended stays when its `finally` block ends normally, and gives
/// way to the block when that ends abruptly.
pub proof fn law_finally(s: EngineView, before: Completion)
    requires
        s.ready(),
        s.frames.len() > 0,
        s.frames.last() == Frame::FinallyEnd(before),
    ensures
        s.step().acc == (if abrupt(s.acc) { s.acc } else { before }),
        s.step().frames == s.frames.drop_last(),
{
    reveal(EngineView::dispatch);
    reveal(EngineView::dispatch_statement);
}

/// A call in the place of the function's own leaves a `try` as a `return` does: no
/// `catch` clause sees it, and the `finally` block runs before the call is made.
pub proof fn law_tail_calls_leave_try<'a>(s: EngineView<'a>, x: &'a Stmt, env: usize)
    requires
        s.completion() is TailCall,
    ensures
        s.try_postprocess(x, env) == s.run_finally(x, env),
        match x {
            Stmt::Try { finally: None, .. } => s.try_postprocess(x, env) == s.done(s.completion()),
            Stmt::Try { finally: Some(b), .. } => s.try_postprocess(x, env) == s.push(Frame::FinallyEnd(s.completion())).run_list(b, env),
            _ => true,
        },
{
}

/// An assignment to a constant throws, and changes nothing that was there.
pub proof fn law_constants<'a>(s: EngineView<'a>, target: &'a Expr, env: usize, v: Value, i: int)
    requires
        target matches Expr::Ident(t) && s.intern_name(t).0.is_const(env, s.intern_name(t).1),
        0 <= i < s.store.heap.cells.len() <= usize::MAX,
    ensures
        s.assign_to(target, v, env).acc is Throw,
        s.assign_to(target, v, env).store.heap.cells[i] == s.store.heap.cells[i],
{
}

/// A timer that was set, and whose number was not cancelled before, can be cancelled once.
pub proof fn law_timers_cancel_once(s: EngineView, callback: Value, list: usize, delay: u64, repeat: Option<u64>)
    requires
        !s.cancelled.contains(s.next_timer),
    ensures
        ({
            let (t, id) = s.set_timer(callback, list, delay, repeat);
            &&& t.clear_timer(id).1
            &&& !t.clear_timer(id).0.clear_timer(id).1
        }),
{
    let (t, id) = s.set_timer(callback, list, delay, repeat);
    assert(t.timers[s.timers.len() as int].id == id);
}

pub(crate) proof fn lemma_atom_text(s: StoreView, t: Seq<char>)
    requires
        s.heap.atoms.len() < usize::MAX,
    ensures
        s.with_text(t).text(s.atom(t)) == t,
{
    if s.heap.atoms.contains(t) {
        let i = s.heap.atoms.index_of(t);
        assert(s.heap.atoms[i] == t);
    }
}

/// The string that the machine gives for a number is its text, from the host's digits
/// where they were asked for: `key` is what the host answered.
pub proof fn law_printed_number<'a>(s: EngineView<'a>, b: u64)
    requires
        s.store.heap.atoms.len() < usize::MAX,
    ensures
        ({
            let d = s.store.text(s.key());
            let t = match printed(b) {
                PrintedView::Known(_) => s.print_number(b),
                PrintedView::Fixed { negative } => s.text_sign(negative),
                PrintedView::Exponent { negative } => s.text_exponent(negative),
            };
            t.acc matches Completion::Normal(Some(Value::String(a))) && t.store.text(a) == number_text(b, d)
        }),
{
    lemma_atom_text(s.store, number_text(b, s.store.text(s.key())));
}

/// Abstract equality does not depend on the order of its operands, and holds where
/// strict equality does.
pub proof fn law_loose_equality<'a>(s: EngineView<'a>, a: Value, b: Value, negate: bool)
    ensures
        s.loose_eq(a, b, negate) == s.loose_eq(b, a, negate),
        a.equals(b) ==> s.loose_eq(a, b, negate) == s.ret(Value::Boolean(!negate)),
{
    law_strict_equality(a, b);
}

/// A logical operator that its left operand decides gives that operand, and the right
/// one is not evaluated.
pub proof fn law_short_circuit<'a>(s: EngineView<'a>, op: LogicalOp, right: &'a Expr, env: usize, left: Value)
    requires
        s.ready(),
        s.frames.len() > 0,
        s.frames.last() == Frame::LogicalEnd(op, right, env),
        s.acc == Completion::Normal(Some(left)),
        match op {
            LogicalOp::And => !s.truthy(left),
            LogicalOp::Or => s.truthy(left),
            LogicalOp::Coalesce => !left.is_nullish(),
        },
    ensures
        s.step() == (EngineView { frames: s.frames.drop_last(), ..s }),
{
    reveal(EngineView::dispatch);
    reveal(EngineView::dispatch_operator);
}

/// Running in two stretches is running in one.
pub proof fn law_steps_add(s: EngineView, a: nat, b: nat)
    ensures
        s.steps(a + b) == s.steps(a).steps(b),
    decreases b,
{
    if b > 0 {
        law_steps_add(s, a, (b - 1) as nat);
    }
}

/// A machine that is done, or that has asked for something, stays as it is until it
/// is answered or gets a task.
pub proof fn law_idle(s: EngineView, n: nat)
    requires
        !s.ready(),
    ensures
        s.steps(n) == s,
    decreases n,
{
    if n > 0 {
        law_idle(s, (n - 1) as nat);
    }
}

/// An answer becomes the completion of what asked, and the machine goes on.
pub proof fn law_answer(s: EngineView, c: Completion)
    ensures
        s.answer(c).acc == c,
        s.answer(c).ready(),
        s.answer(c).frames == s.frames,
        s.answer(c).store == s.store,
{
}

/// A statement without a value leaves the value of the statements before it, and one
/// with a value replaces it.
pub proof fn law_list_value(v: Value, last: Option<Value>)
    ensures
        update_empty(Completion::Normal(None), last) == Completion::Normal(last),
        update_empty(Completion::Normal(Some(v)), last) == Completion::Normal(Some(v)),
        update_empty(Completion::Break(None, None), last) == Completion::Break(None, last),
        update_empty(Completion::Break(None, Some(v)), last) == Completion::Break(None, Some(v)),
{
}

/// Filling empty completions is idempotent, and an `if` never completes without a
/// value.
pub proof fn law_filled(c: Completion, v: Option<Value>)
    ensures
        update_empty(update_empty(c, v), v) == update_empty(c, v),
        if_postprocess(if_postprocess(c)) == if_postprocess(c),
        if_postprocess(c) != Completion::Normal(None),
{
}

/// A loop that is left by a `break` of its own has a value, `undefined` where nothing
/// produced one; a `switch` too.
pub proof fn law_break_has_a_value(v: Option<Value>, value: Option<Value>, label: Option<usize>)
    ensures
        loop_body_step(Completion::Break(None, v), value, label) matches LoopStep::Done(Completion::Normal(Some(_))),
        switch_step(Completion::Break(None, v), value) matches LoopStep::Done(Completion::Normal(Some(_))),
        loop_body_step(Completion::Break(None, None), None, label) == LoopStep::Done(Completion::Normal(Some(Value::Undefined))),
{
}

/// A jump to another label leaves loops and labelled statements with its value; an
/// exception or a `return` leaves them as it is.
pub proof fn law_jumps_pass(label: usize, other: usize, own: Option<usize>, v: Value, value: Option<Value>)
    requires
        label != other,
        own == Some(other) || own is None,
    ensures
        labeled_postprocess(Completion::Break(Some(label), Some(v)), other) == Completion::Break(Some(label), Some(v)),
        labeled_postprocess(Completion::Break(Some(label), Some(v)), label) == Completion::Normal(Some(v)),
        loop_body_step(Completion::Break(Some(label), Some(v)), value, own) == LoopStep::Done(Completion::Break(Some(label), Some(v))),
        loop_body_step(Completion::Throw(v), value, own) == LoopStep::Done(Completion::Throw(v)),
        loop_body_step(Completion::Return(v), value, own) == LoopStep::Done(Completion::Return(v)),
{
}

/// Serial numbers give symbols identities that differ from each other and from those of
/// the well-known symbols.
pub proof fn law_symbols_differ(a: nat, b: nat, name: Seq<char>)
    ensures
        a != b ==> serial_id(a) != serial_id(b),
        serial_id(a) != well_known_id(name),
{
    reveal_strlit("__symbol_");
    reveal_strlit("__wk_");
    reveal_strlit("__");
    lemma_decimal_digits(a);
    lemma_decimal_digits(b);
    let x = serial_id(a);
    let y = serial_id(b);
    if x == y {
        assert(x.subrange(9, x.len() - 2) =~= decimal(a));
        assert(y.subrange(9, y.len() - 2) =~= decimal(b));
    }
    assert(x[2] == 's');
    assert(well_known_id(name)[2] == 'w');
}

/// Two symbols that an engine makes differ: the second takes a later serial number, and
/// the atom of the first still spells its identity.
pub proof fn law_fresh_symbols(s: EngineView, d: Option<Seq<char>>, t: EngineView, e: Option<Seq<char>>)
    requires
        s.serials.next < t.serials.next,
        s.store.heap.atoms.len() <= usize::MAX,
        t.store.heap.atoms.len() <= usize::MAX,
        s.new_symbol(d).1 matches Value::Symbol(a) && t.store.text(a) == serial_id(s.serials.next as nat),
    ensures
        s.new_symbol(d).1 != t.new_symbol(e).1,
{
    let a = s.new_symbol(d).1->Symbol_0;
    let x = serial_id(s.serials.next as nat);
    let y = serial_id(t.serials.next as nat);
    law_symbols_differ(s.serials.next as nat, t.serials.next as nat, Seq::empty());
    reveal_strlit("__symbol_");
    assert(x.len() > 0);
    if t.store.heap.atoms.contains(y) {
        let i = t.store.heap.atoms.index_of(y);
        assert(t.store.heap.atoms[i] == y);
    }
}

/// Two symbols that are made one after the other differ, whatever their descriptions.
pub proof fn law_next_symbol(s: EngineView, d: Option<Seq<char>>, e: Option<Seq<char>>)
    requires
        s.serials.next < u64::MAX,
        s.store.heap.atoms.len() + 2 <= usize::MAX,
    ensures
        s.new_symbol(d).0.serials.next == s.serials.next + 1,
        s.new_symbol(d).1 != s.new_symbol(d).0.new_symbol(e).1,
{
    let x = serial_id(s.serials.next as nat);
    if s.store.heap.atoms.contains(x) {
        let i = s.store.heap.atoms.index_of(x);
        assert(s.store.heap.atoms[i] == x);
    }
    law_fresh_symbols(s, d, s.new_symbol(d).0, e);
}

proof fn lemma_job_cells(jobs: Seq<Job>, i: int, n: nat, id: usize)
    requires
        0 <= i < n <= jobs.len(),
        job_refers(jobs[i], id),
    ensures
        (exists|k: int| 0 <= k < jobs_values(jobs, n).len() && value_cell(#[trigger] jobs_values(jobs, n)[k]) == Some(id))
            || jobs_countdowns(jobs, n).contains(id),
    decreases n,
{
    let front = jobs_values(jobs, (n - 1) as nat);
    let states = jobs_countdowns(jobs, (n - 1) as nat);
    if i < n - 1 {
        lemma_job_cells(jobs, i, (n - 1) as nat, id);
        if states.contains(id) {
            let k = choose|k: int| 0 <= k < states.len() && states[k] == id;
            assert(jobs_countdowns(jobs, n)[k] == id);
        } else {
            let k = choose|k: int| 0 <= k < front.len() && value_cell(#[trigger] front[k]) == Some(id);
            assert(jobs_values(jobs, n)[k] == front[k]);
        }
    } else {
        let own = job_values(jobs[i]);
        let state = job_countdown(jobs[i]);
        if exists|k: int| 0 <= k < own.len() && value_cell(#[trigger] own[k]) == Some(id) {
            let k = choose|k: int| 0 <= k < own.len() && value_cell(#[trigger] own[k]) == Some(id);
            assert(jobs_values(jobs, n)[front.len() + k] == own[k]);
        } else {
            lemma_own_cells(jobs[i], id);
            assert(jobs_countdowns(jobs, n)[states.len() as int] == id);
        }
    }
}

proof fn lemma_own_cells(job: Job, id: usize)
    requires
        job_refers(job, id),
    ensures
        (exists|k: int| 0 <= k < job_values(job).len() && value_cell(#[trigger] job_values(job)[k]) == Some(id)) || job_countdown(job) == seq![id],
{
    let own = job_values(job);
    match job {
        Job::Reaction { reaction, settlement } => {
            let a = seq![Value::Promise(reaction.promise)];
            let b = optional(reaction.on_fulfilled);
            let c = optional(reaction.on_rejected);
            let d = seq![settled_value(settlement)];
            let k = kind_values(reaction.kind);
            assert(own == a + b + c + d + k);
            let n: int = (a.len() + b.len() + c.len()) as int;
            assert(own[0] == a[0]);
            assert(b.len() > 0 ==> own[1] == b[0]);
            assert(c.len() > 0 ==> own[1 + b.len() as int] == c[0]);
            assert(own[n] == d[0]);
            assert(k.len() > 0 ==> own[n + 1] == k[0]);
            assert(k.len() > 1 ==> own[n + 2] == k[1]);
            assert(k.len() > 2 ==> own[n + 3] == k[2]);
        },
        Job::AsyncResume { settlement, capability, .. } => {
            assert(own[0] == Value::Promise(capability));
            assert(own[1] == settled_value(settlement));
        },
        Job::Thenable { then_fn, thenable, capability } => {
            assert(own[0] == then_fn);
            assert(own[1] == thenable);
            assert(own[2] == Value::Promise(capability));
        },
        Job::Microtask { callback } => {
            assert(own[0] == callback);
        },
    }
}

proof fn lemma_cells_contain(values: Seq<Value>, k: int, n: nat, id: usize)
    requires
        0 <= k < n <= values.len(),
        value_cell(values[k]) == Some(id),
    ensures
        cells_of(values, n).contains(id),
    decreases n,
{
    let front = cells_of(values, (n - 1) as nat);
    if k < n - 1 {
        lemma_cells_contain(values, k, (n - 1) as nat, id);
        let i = choose|i: int| 0 <= i < front.len() && front[i] == id;
        assert(cells_of(values, n)[i] == id);
    } else {
        assert(cells_of(values, n).last() == id);
    }
}

/// Whether a job refers to a cell.
pub open spec fn job_refers(job: Job, id: usize) -> bool {
    match job {
        Job::Reaction { reaction, settlement } => reaction_refers(reaction, id) || value_cell(settled_value(settlement)) == Some(id),
        Job::AsyncResume { settlement, capability, .. } => capability == id || value_cell(settled_value(settlement)) == Some(id),
        Job::Thenable { then_fn, thenable, capability } => value_cell(then_fn) == Some(id) || value_cell(thenable) == Some(id) || capability == id,
        Job::Microtask { callback } => value_cell(callback) == Some(id),
    }
}

/// A job that waits keeps alive whatever it refers to.
pub proof fn law_jobs_keep_alive(s: EngineView, extra: Option<Value>, i: int, id: usize)
    requires
        0 <= i < s.jobs.len(),
        job_refers(s.jobs[i], id),
    ensures
        s.roots(extra).contains(id),
{
    let values = s.root_values(extra);
    let jobs = jobs_values(s.jobs, s.jobs.len());
    let states = jobs_countdowns(s.jobs, s.jobs.len());
    let cells = cells_of(values, values.len());
    lemma_job_cells(s.jobs, i, s.jobs.len(), id);
    if states.contains(id) {
        let k = choose|k: int| 0 <= k < states.len() && states[k] == id;
        assert(s.roots(extra)[cells.len() + k] == id);
    } else {
        let k = choose|k: int| 0 <= k < jobs.len() && value_cell(#[trigger] jobs[k]) == Some(id);
        let at = builtin_values(s.store.b).len() + optional(extra).len() + k;
        assert(values[at] == jobs[k]);
        lemma_cells_contain(values, at, values.len(), id);
        let m = choose|m: int| 0 <= m < cells.len() && cells[m] == id;
        assert(s.roots(extra)[m] == id);
    }
}

proof fn lemma_root_value(s: EngineView, extra: Option<Value>, at: int, id: usize)
    requires
        0 <= at < s.root_values(extra).len(),
        value_cell(s.root_values(extra)[at]) == Some(id),
    ensures
        s.roots(extra).contains(id),
{
    let values = s.root_values(extra);
    let cells = cells_of(values, values.len());
    lemma_cells_contain(values, at, values.len(), id);
    let m = choose|m: int| 0 <= m < cells.len() && cells[m] == id;
    assert(s.roots(extra)[m] == id);
}

proof fn lemma_timer_value(h: HeapView, timers: Seq<TimerEntry>, i: int, n: nat, id: usize)
    requires
        0 <= i < n <= timers.len(),
        timer_refers(h, timers[i], id),
    ensures
        exists|k: int| 0 <= k < timers_values(h, timers, n).len() && value_cell(#[trigger] timers_values(h, timers, n)[k]) == Some(id),
    decreases n,
{
    let front = timers_values(h, timers, (n - 1) as nat);
    let all = timers_values(h, timers, n);
    if i < n - 1 {
        lemma_timer_value(h, timers, i, (n - 1) as nat, id);
        let k = choose|k: int| 0 <= k < front.len() && value_cell(#[trigger] front[k]) == Some(id);
        assert(all[k] == front[k]);
    } else if value_cell(timers[i].callback) == Some(id) {
        assert(all[front.len() as int] == timers[i].callback);
    } else {
        let items = items_of(h, timers[i].args);
        let j = choose|j: int| 0 <= j < items.len() && value_cell(#[trigger] items[j]) == Some(id);
        assert(all[front.len() as int + 1 + j] == items[j]);
    }
}

/// Whether a timer refers to a cell: by its callback or by an argument for it.
pub open spec fn timer_refers(h: HeapView, t: TimerEntry, id: usize) -> bool {
    value_cell(t.callback) == Some(id) || exists|j: int| 0 <= j < items_of(h, t.args).len() && value_cell(#[trigger] items_of(h, t.args)[j]) == Some(id)
}

/// A timer that waits keeps its callback and the arguments for it alive.
pub proof fn law_timers_keep_alive(s: EngineView, extra: Option<Value>, i: int, id: usize)
    requires
        0 <= i < s.timers.len(),
        timer_refers(s.store.heap, s.timers[i], id),
    ensures
        s.roots(extra).contains(id),
{
    let values = s.root_values(extra);
    let timers = timers_values(s.store.heap, s.timers, s.timers.len());
    lemma_timer_value(s.store.heap, s.timers, i, s.timers.len(), id);
    let k = choose|k: int| 0 <= k < timers.len() && value_cell(#[trigger] timers[k]) == Some(id);
    let at = values.len() - timers.len() + k;
    assert(values[at] == timers[k]);
    lemma_root_value(s, extra, at, id);
}

/// What nothing has handled yet, the value that the host holds, the global object and
/// the global scope stay alive.
pub proof fn law_roots_keep_alive(s: EngineView, extra: Option<Value>, i: int, id: usize)
    requires
        (0 <= i < s.unhandled.len() && value_cell(s.unhandled[i]) == Some(id)) || (extra matches Some(v) && value_cell(v) == Some(id)) || id == s.store.b.global_env || id == s.store.b.global_object,
    ensures
        s.roots(extra).contains(id),
{
    let values = s.root_values(extra);
    let b = builtin_values(s.store.b);
    let o = optional(extra);
    let jobs = jobs_values(s.jobs, s.jobs.len());
    if id == s.store.b.global_env {
        assert(s.roots(extra).last() == id);
    } else if id == s.store.b.global_object {
        assert(values[0] == Value::Object(id));
        lemma_root_value(s, extra, 0, id);
    } else if extra is Some && value_cell(extra->0) == Some(id) {
        assert(values[b.len() as int] == extra->0);
        lemma_root_value(s, extra, b.len() as int, id);
    } else {
        let at = b.len() + o.len() + jobs.len() + i;
        assert(values[at] == s.unhandled[i]);
        lemma_root_value(s, extra, at, id);
    }
}

} // verus!
