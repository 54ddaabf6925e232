//! The law of `Promise.all`: its elements may settle in any order.
use vstd::prelude::*;
use crate::engine::EngineView;
use crate::jobs::bare_reaction;
use crate::object::array_at;
use crate::promise::{all_at, promise_at, with_result};
use crate::value::{AllStateView, PromiseReactionKind, PromiseState, Settlement, Value};

verus! {

/// The engine after the first elements of a `Promise.all` have settled, in the order of
/// the list: each comes with its place and with how it settled.
pub open spec fn delivered<'a>(s: EngineView<'a>, shared: usize, target: usize, events: Seq<(usize, Settlement)>, n: nat) -> EngineView<'a>
    decreases n,
{
    if n == 0 || n > events.len() {
        s
    } else {
        delivered(s, shared, target, events, (n - 1) as nat).enqueue_reaction_job(
            bare_reaction(PromiseReactionKind::AllElement { index: events[n - 1].0, shared }, target),
            events[n - 1].1,
        )
    }
}

/// Whether an engine is about to combine promises: the countdown is fresh, and the
/// promise of the whole is pending.
pub open spec fn combining(s: EngineView, shared: usize, target: usize, n: nat) -> bool {
    &&& 0 < n <= usize::MAX
    &&& s.store.heap.cells.len() < usize::MAX
    &&& all_at(s.store.heap, shared) == Some(AllStateView { remaining: n as usize, results: Seq::new(n, |i: int| None::<Value>), settled: false })
    &&& promise_at(s.store.heap, target) matches Some(d) && d.state is Pending
}

/// Whether each of the places settles once.
pub open spec fn each_once(events: Seq<(usize, Settlement)>, n: nat) -> bool {
    &&& events.len() == n
    &&& forall|i: int| 0 <= i < n ==> (#[trigger] events[i]).0 < n
    &&& forall|i: int, j: int| 0 <= i < j < n ==> (#[trigger] events[i]).0 != (#[trigger] events[j]).0
}

/// Whether the first elements are fulfilled.
pub open spec fn fulfilled_upto(events: Seq<(usize, Settlement)>, n: nat) -> bool {
    forall|i: int| 0 <= i < n ==> (#[trigger] events[i]).1 is Fulfilled
}

spec fn results_after(events: Seq<(usize, Settlement)>, k: nat) -> Seq<Option<Value>>
    decreases k,
{
    if k == 0 || k > events.len() {
        Seq::new(events.len(), |i: int| None::<Value>)
    } else {
        with_result(results_after(events, (k - 1) as nat), events[k - 1].0, events[k - 1].1->Fulfilled_0)
    }
}

proof fn lemma_results(events: Seq<(usize, Settlement)>, k: nat, j: int)
    requires
        each_once(events, events.len()),
        k <= events.len(),
    ensures
        results_after(events, k).len() == events.len(),
        0 <= j < k ==> results_after(events, k)[events[j].0 as int] == Some(events[j].1->Fulfilled_0),
    decreases k,
{
    if k > 0 {
        lemma_results(events, (k - 1) as nat, j);
        assert(events[k - 1].0 < events.len());
        if 0 <= j < k - 1 {
            assert(events[j].0 != events[k - 1].0);
            assert(events[j].0 < events.len());
        }
    }
}

proof fn lemma_waiting(s: EngineView, shared: usize, target: usize, events: Seq<(usize, Settlement)>, k: nat)
    requires
        combining(s, shared, target, events.len()),
        each_once(events, events.len()),
        k < events.len(),
        fulfilled_upto(events, k),
    ensures
        ({
            let t = delivered(s, shared, target, events, k);
            &&& all_at(t.store.heap, shared) == Some(
                AllStateView { remaining: (events.len() - k) as usize, results: results_after(events, k), settled: false },
            )
            &&& promise_at(t.store.heap, target) == promise_at(s.store.heap, target)
            &&& t.store.heap.cells.len() == s.store.heap.cells.len()
        }),
    decreases k,
{
    if k > 0 {
        lemma_waiting(s, shared, target, events, (k - 1) as nat);
        assert(events[k - 1].1 is Fulfilled);
    }
}

proof fn lemma_settled_stays(s: EngineView, shared: usize, target: usize, events: Seq<(usize, Settlement)>, r: nat, m: nat)
    requires
        r <= m <= events.len(),
        all_at(delivered(s, shared, target, events, r).store.heap, shared) matches Some(d) && d.settled,
    ensures
        delivered(s, shared, target, events, m) == delivered(s, shared, target, events, r),
    decreases m,
{
    if r < m {
        lemma_settled_stays(s, shared, target, events, r, (m - 1) as nat);
    }
}

/// When all elements are fulfilled, the promise of the whole stays pending until the
/// last of them, and is then fulfilled with the array that has each value at its place,
/// whatever the order in which they came.
pub proof fn law_all_in_any_order(s: EngineView, shared: usize, target: usize, events: Seq<(usize, Settlement)>, k: nat)
    requires
        combining(s, shared, target, events.len()),
        each_once(events, events.len()),
        fulfilled_upto(events, events.len()),
        k < events.len(),
    ensures
        promise_at(delivered(s, shared, target, events, k).store.heap, target)->0.state is Pending,
        ({
            let t = delivered(s, shared, target, events, events.len());
            &&& promise_at(t.store.heap, target) is Some
            &&& promise_at(t.store.heap, target)->0.state matches PromiseState::Fulfilled(Value::Array(a)) && array_at(t.store.heap, a) matches Some(d)
                && d.elems.len() == events.len() && (forall|j: int|
                0 <= j < events.len() ==> d.elems[(#[trigger] events[j]).0 as int] == events[j].1->Fulfilled_0)
        }),
{
    let n = events.len();
    lemma_waiting(s, shared, target, events, k);
    lemma_waiting(s, shared, target, events, (n - 1) as nat);
    assert(events[n - 1].1 is Fulfilled);
    let t = delivered(s, shared, target, events, n);
    let a = s.store.heap.cells.len() as usize;
    let results = results_after(events, n);
    lemma_results(events, n, 0);
    assert(promise_at(t.store.heap, target)->0.state == PromiseState::Fulfilled(Value::Array(a)));
    assert(array_at(t.store.heap, a) is Some);
    let d = array_at(t.store.heap, a)->0;
    assert(d.elems == crate::promise::filled(results));
    assert forall|j: int| 0 <= j < n implies d.elems[(#[trigger] events[j]).0 as int] == events[j].1->Fulfilled_0 by {
        lemma_results(events, n, j);
        assert(events[j].0 < n);
    }
}

/// The first rejection rejects the promise of the whole with its reason, and nothing
/// that settles after it changes anything.
pub proof fn law_first_rejection_decides(s: EngineView, shared: usize, target: usize, events: Seq<(usize, Settlement)>, r: nat, m: nat)
    requires
        combining(s, shared, target, events.len()),
        each_once(events, events.len()),
        r < m <= events.len(),
        fulfilled_upto(events, r),
        events[r as int].1 is Rejected,
    ensures
        promise_at(delivered(s, shared, target, events, m).store.heap, target) is Some,
        promise_at(delivered(s, shared, target, events, m).store.heap, target)->0.state == PromiseState::Rejected(events[r as int].1->Rejected_0),
        delivered(s, shared, target, events, m) == delivered(s, shared, target, events, r + 1),
{
    lemma_waiting(s, shared, target, events, r);
    lemma_settled_stays(s, shared, target, events, r + 1, m);
}

} // verus!
