//! Promises, the job queue, timers and class constructors: the operations on
//! their state.
use vstd::prelude::*;
use crate::assoc::Assoc;
use crate::ast::{Class, ClassElem, Expr, Pattern, Stmt};
use crate::engine::{CapRecord, Engine, EngineView, Frame, Job, TimerEntry};
use crate::heap::HeapView;
use crate::number::{double_of, from_u64, ONE};
use crate::object::array_at;
use crate::object_write::with_array;
use crate::ops::{function_at, items_of, with_new_array};
use crate::value::{
    AllSettledState, AllSettledStateView, AllState, AllStateView, ArrayDataView, Body, Cell, CellView,
    FieldInit, Function, FunctionView, NativeFunctionData, NativeFunctionDataView, Object, PromiseData,
    PromiseDataView, PromiseReaction, PromiseState, Property, RealmInfo, RealmProto, Settlement, Value,
};

verus! {

/// The number of the functions that settle a promise. Calls of them are the
/// machine's own; the host never sees them.
pub const RESOLVER: usize = 0;
/// The number of the executors that record a capability's functions, likewise.
pub const EXECUTOR: usize = 1;
/// The most jobs that one drain runs.
pub const MAX_JOBS: usize = 10_000_000;
/// The most timers that one pump of an evaluation runs.
pub const MAX_TIMER_TASKS: usize = 1000;

/// The promise in a cell.
pub open spec fn promise_at(h: HeapView, id: usize) -> Option<PromiseDataView> {
    if id < h.cells.len() {
        match h.cells[id as int] {
            CellView::Promise(d) => Some(d),
            _ => None,
        }
    } else {
        None
    }
}

/// The heap with another promise in a cell.
pub open spec fn with_promise<'a>(h: HeapView<'a>, id: usize, d: PromiseDataView) -> HeapView<'a> {
    HeapView { cells: h.cells.update(id as int, CellView::Promise(d)), ..h }
}

/// The state that a settlement leads to.
pub open spec fn settled_state(s: Settlement) -> PromiseState {
    match s {
        Settlement::Fulfilled(v) => PromiseState::Fulfilled(v),
        Settlement::Rejected(v) => PromiseState::Rejected(v),
    }
}

/// The frames of a promise's reactions: the first registered is on top.
pub open spec fn reaction_frames<'a>(reactions: Seq<PromiseReaction>, s: Settlement) -> Seq<Frame<'a>> {
    Seq::new(reactions.len(), |i: int| Frame::React(reactions[reactions.len() - 1 - i], s))
}

/// The values that are not the given one.
pub open spec fn without(s: Seq<Value>, v: Value) -> Seq<Value>
    decreases s.len(),
{
    if s.len() == 0 {
        s
    } else if s.last() == v {
        without(s.drop_last(), v)
    } else {
        without(s.drop_last(), v).push(s.last())
    }
}

/// The results of a countdown, missing ones as `undefined`.
pub open spec fn filled(results: Seq<Option<Value>>) -> Seq<Value> {
    results.map_values(|r: Option<Value>| match r {
        Some(v) => v,
        None => Value::Undefined,
    })
}

/// A countdown's results with one more.
pub open spec fn with_result(results: Seq<Option<Value>>, i: usize, v: Value) -> Seq<Option<Value>> {
    if i < results.len() { results.update(i as int, Some(v)) } else { results }
}

/// One less, but not less than zero.
pub open spec fn less_one(n: usize) -> usize {
    if n > 0 { (n - 1) as usize } else { 0 }
}

fn fill(results: &Vec<Option<Value>>) -> (r: Vec<Value>)
    ensures
        r@ == filled(results@),
{
    let mut out: Vec<Value> = Vec::new();
    let mut i: usize = 0;
    while i < results.len()
        invariant
            i <= results@.len(),
            out@.len() == i,
            forall|j: int| 0 <= j < i ==> #[trigger] out@[j] == filled(results@)[j],
        decreases results@.len() - i,
    {
        match results[i] {
            Some(v) => out.push(v),
            None => out.push(Value::Undefined),
        }
        i += 1;
    }
    assert(out@ =~= filled(results@));
    out
}

/// The countdown of `Promise.all` in a cell.
pub open spec fn all_at(h: HeapView, id: usize) -> Option<AllStateView> {
    if id < h.cells.len() {
        match h.cells[id as int] {
            CellView::All(d) => Some(d),
            _ => None,
        }
    } else {
        None
    }
}

/// The countdown of `Promise.allSettled` in a cell.
pub open spec fn all_settled_at(h: HeapView, id: usize) -> Option<AllSettledStateView> {
    if id < h.cells.len() {
        match h.cells[id as int] {
            CellView::AllSettled(d) => Some(d),
            _ => None,
        }
    } else {
        None
    }
}

/// The number after another, beginning again at zero.
pub open spec fn wrapped_next(n: u64) -> u64 {
    if n == u64::MAX { 0 } else { (n + 1) as u64 }
}

/// The place of a capability record.
pub open spec fn cap_place(caps: Seq<CapRecord>, id: u64, n: nat) -> Option<int>
    decreases n,
{
    if n == 0 || n > caps.len() {
        None
    } else if caps[n - 1].id == id {
        Some(n - 1)
    } else {
        cap_place(caps, id, (n - 1) as nat)
    }
}

fn find_cap(caps: &Vec<CapRecord>, id: u64) -> (r: Option<usize>)
    ensures
        match r {
            Some(i) => cap_place(caps@, id, caps@.len()) == Some(i as int) && i < caps@.len(),
            None => cap_place(caps@, id, caps@.len()) is None,
        },
{
    let mut i: usize = caps.len();
    while i > 0
        invariant
            i <= caps@.len(),
            cap_place(caps@, id, caps@.len()) == cap_place(caps@, id, i as nat),
        decreases i,
    {
        if caps[i - 1].id == id {
            return Some(i - 1);
        }
        i -= 1;
    }
    None
}

fn empty_slots(len: usize) -> (r: Vec<Option<Value>>)
    ensures
        r@ == Seq::new(len as nat, |i: int| None::<Value>),
{
    let mut r: Vec<Option<Value>> = Vec::new();
    let mut i: usize = 0;
    while i < len
        invariant
            i <= len,
            r@ == Seq::new(i as nat, |j: int| None::<Value>),
        decreases len - i,
    {
        r.push(None);
        i += 1;
        assert(r@ =~= Seq::new(i as nat, |j: int| None::<Value>));
    }
    r
}

/// The place of the timer that fires next among the first `n`: the earliest
/// deadline, and of equal ones the smallest number.
pub open spec fn next_timer_place(timers: Seq<TimerEntry>, n: nat) -> Option<int>
    decreases n,
{
    if n == 0 || n > timers.len() {
        None
    } else {
        match next_timer_place(timers, (n - 1) as nat) {
            None => Some(n - 1),
            Some(i) => if fires_before(timers[n - 1], timers[i]) { Some(n - 1) } else { Some(i) },
        }
    }
}

/// Whether one timer fires before another.
pub open spec fn fires_before(a: TimerEntry, b: TimerEntry) -> bool {
    a.deadline < b.deadline || (a.deadline == b.deadline && a.id < b.id)
}

/// The sum, or the largest number.
pub open spec fn saturated_sum(a: u64, b: u64) -> u64 {
    if a + b > u64::MAX { u64::MAX } else { (a + b) as u64 }
}

fn saturating_sum(a: u64, b: u64) -> (r: u64)
    ensures
        r == saturated_sum(a, b),
{
    if a > u64::MAX - b { u64::MAX } else { a + b }
}

/// The host function in a cell.
pub open spec fn native_at(h: HeapView, id: usize) -> Option<NativeFunctionDataView> {
    if id < h.cells.len() {
        match h.cells[id as int] {
            CellView::Native(d) => Some(d),
            _ => None,
        }
    } else {
        None
    }
}

/// What constructing with a host function depends on.
#[derive(Clone, Copy)]
pub struct NativeInfo {
    pub constructable: bool,
    pub realm: Option<usize>,
    pub intrinsic_proto: Option<RealmProto>,
}

/// The intrinsic prototype of a kind in a realm.
pub open spec fn realm_proto(r: RealmInfo, kind: RealmProto) -> usize {
    match kind {
        RealmProto::Object => r.object_prototype,
        RealmProto::Number => r.number_prototype,
        RealmProto::String => r.string_prototype,
        RealmProto::Boolean => r.boolean_prototype,
        RealmProto::Promise => r.promise_prototype,
        RealmProto::Error => match r.error_prototype("Error"@, 0) {
            Some(p) => p,
            None => r.object_prototype,
        },
        RealmProto::NativeError(name) => match r.error_prototype(name@, 0) {
            Some(p) => p,
            None => r.object_prototype,
        },
    }
}

fn intrinsic(r: &RealmInfo, kind: RealmProto) -> (p: usize)
    ensures
        p == realm_proto(*r, kind),
{
    match kind {
        RealmProto::Object => r.object_prototype,
        RealmProto::Number => r.number_prototype,
        RealmProto::String => r.string_prototype,
        RealmProto::Boolean => r.boolean_prototype,
        RealmProto::Promise => r.promise_prototype,
        RealmProto::Error => match r.error_prototype_for("Error") {
            Some(p) => p,
            None => r.object_prototype,
        },
        RealmProto::NativeError(name) => match r.error_prototype_for(name) {
            Some(p) => p,
            None => r.object_prototype,
        },
    }
}

/// The parameters of the constructor that a class declares: the last one.
pub open spec fn ctor_params<'a>(class: &'a Class, n: nat) -> Option<&'a Vec<Pattern>>
    decreases n,
{
    if n == 0 || n > class.elements@.len() {
        None
    } else {
        match &class.elements@[n - 1] {
            ClassElem::Constructor { params, body } => Some(params),
            _ => ctor_params(class, (n - 1) as nat),
        }
    }
}

/// The body of the constructor that a class declares: the last one.
pub open spec fn ctor_body<'a>(class: &'a Class, n: nat) -> Option<&'a Vec<Stmt>>
    decreases n,
{
    if n == 0 || n > class.elements@.len() {
        None
    } else {
        match &class.elements@[n - 1] {
            ClassElem::Constructor { params, body } => Some(body),
            _ => ctor_body(class, (n - 1) as nat),
        }
    }
}

/// The initialisers of the instance fields among the first `n` elements.
pub open spec fn field_inits<'a>(class: &'a Class, n: nat) -> Seq<Option<&'a Expr>>
    decreases n,
{
    if n == 0 || n > class.elements@.len() {
        Seq::empty()
    } else {
        let front = field_inits(class, (n - 1) as nat);
        match &class.elements@[n - 1] {
            ClassElem::Field { is_static, key, init } => if *is_static {
                front
            } else {
                front.push(match init {
                    Some(e) => Some(e),
                    None => None,
                })
            },
            ClassElem::AccessorProp { is_static, key } => if *is_static { front } else { front.push(None) },
            _ => front,
        }
    }
}

/// The instance fields of a class: the evaluated keys with their initialisers.
pub open spec fn class_fields<'a>(keys: Seq<Value>, inits: Seq<Option<&'a Expr>>, empty: usize) -> Seq<FieldInit<'a>> {
    Seq::new(inits.len(), |i: int| FieldInit {
        key: if i < keys.len() {
            match keys[i] {
                Value::String(a) => a,
                _ => empty,
            }
        } else {
            empty
        },
        init: inits[i],
    })
}

/// The cell of a class constructor, before its own properties.
pub open spec fn ctor_cell<'a>(s: EngineView<'a>, class: &'a Class, name: usize, parent: Option<Value>, base: usize, env: usize, keys: Seq<Value>) -> FunctionView<'a> {
    FunctionView {
        name,
        params: ctor_params(class, class.elements@.len()),
        fields: class_fields(keys, field_inits(class, class.elements@.len()), s.store.n.empty),
        body: match ctor_body(class, class.elements@.len()) {
            Some(b) => Body::Stmts(b),
            None => if parent is Some { Body::ForwardArguments } else { Body::Empty },
        },
        closure: env,
        props: Map::empty(),
        proto: Some(s.store.b.function_prototype),
        super_proto: Some(base),
        super_ctor: parent,
        this_capture: None,
        generator: false,
        is_async: false,
        is_derived: parent is Some,
        realm: None,
    }
}

impl<'a> EngineView<'a> {
    /// The state of a promise; anything else counts as settled.
    pub open spec fn promise_state(self, p: usize) -> PromiseState {
        match promise_at(self.store.heap, p) {
            Some(d) => d.state,
            None => PromiseState::Fulfilled(Value::Undefined),
        }
    }

    /// A new pending promise.
    pub open spec fn new_promise(self) -> (EngineView<'a>, usize) {
        (self.with_heap(self.store.heap.plus_cell(CellView::Promise(PromiseDataView {
            state: PromiseState::Pending,
            reactions: Seq::empty(),
            props: Map::empty(),
            proto: None,
        })).plus_registration(self.store.heap.cells.len() as usize)), self.store.heap.cells.len() as usize)
    }

    /// A new pending promise of a prototype.
    pub open spec fn new_promise_with_proto(self, proto: usize) -> (EngineView<'a>, usize) {
        (self.with_heap(self.store.heap.plus_cell(CellView::Promise(PromiseDataView {
            state: PromiseState::Pending,
            reactions: Seq::empty(),
            props: Map::empty(),
            proto: Some(proto),
        })).plus_registration(self.store.heap.cells.len() as usize)), self.store.heap.cells.len() as usize)
    }

    /// Settles a pending promise and starts its reactions, the first registered
    /// first. A rejection without reactions is unhandled. A settled promise stays as
    /// it is.
    pub open spec fn settle(self, p: usize, s: Settlement) -> EngineView<'a> {
        match promise_at(self.store.heap, p) {
            Some(d) => if d.state is Pending {
                let t = self.with_heap(with_promise(self.store.heap, p, PromiseDataView { state: settled_state(s), reactions: Seq::empty(), ..d }));
                EngineView {
                    unhandled: if s is Rejected && d.reactions.len() == 0 { t.unhandled.push(Value::Promise(p)) } else { t.unhandled },
                    frames: t.frames + reaction_frames(d.reactions, s),
                    ..t
                }
            } else {
                self
            },
            None => self,
        }
    }

    /// Registers a reaction on a pending promise.
    pub open spec fn add_reaction(self, p: usize, r: PromiseReaction) -> EngineView<'a> {
        match promise_at(self.store.heap, p) {
            Some(d) => if d.state is Pending {
                self.with_heap(with_promise(self.store.heap, p, PromiseDataView { reactions: d.reactions.push(r), ..d }))
            } else {
                self
            },
            None => self,
        }
    }

    /// Takes a promise off the list of unhandled rejections.
    pub open spec fn mark_handled(self, p: usize) -> EngineView<'a> {
        EngineView { unhandled: without(self.unhandled, Value::Promise(p)), ..self }
    }

    /// Adds a value to the list of what nothing has handled.
    pub open spec fn report(self, v: Value) -> EngineView<'a> {
        EngineView { unhandled: self.unhandled.push(v), ..self }
    }

    /// Adds a job to the queue.
    pub open spec fn enqueue(self, job: Job) -> EngineView<'a> {
        EngineView { jobs: self.jobs.push(job), ..self }
    }

    /// Takes the first job from the queue.
    pub open spec fn next_job(self) -> (EngineView<'a>, Option<Job>) {
        if self.jobs.len() > 0 {
            (EngineView { jobs: self.jobs.skip(1), ..self }, Some(self.jobs[0]))
        } else {
            (self, None)
        }
    }

    /// A new countdown of `Promise.all`.
    pub open spec fn new_all_state(self, len: usize) -> (EngineView<'a>, usize) {
        (self.with_heap(self.store.heap.plus_cell(CellView::All(AllStateView { remaining: len, results: Seq::new(len as nat, |i: int| None), settled: false }))), self.store.heap.cells.len() as usize)
    }

    /// A new countdown of `Promise.allSettled`.
    pub open spec fn new_all_settled_state(self, len: usize) -> (EngineView<'a>, usize) {
        (self.with_heap(self.store.heap.plus_cell(CellView::AllSettled(AllSettledStateView { remaining: len, results: Seq::new(len as nat, |i: int| None) }))), self.store.heap.cells.len() as usize)
    }

    /// Counts a fulfilled element of `Promise.all`; the last one gives the array of
    /// the results.
    pub open spec fn all_fulfilled(self, shared: usize, i: usize, v: Value) -> (EngineView<'a>, Option<Value>) {
        match all_at(self.store.heap, shared) {
            Some(d) => if d.settled {
                (self, None)
            } else {
                let results = with_result(d.results, i, v);
                let left = less_one(d.remaining);
                let s = self.with_heap(HeapView {
                    cells: self.store.heap.cells.update(shared as int, CellView::All(AllStateView { remaining: left, results, settled: left == 0 })),
                    ..self.store.heap
                });
                if left == 0 {
                    (s.with_store(with_new_array(s.store, filled(results))), Some(Value::Array(s.store.heap.cells.len() as usize)))
                } else {
                    (s, None)
                }
            },
            None => (self, None),
        }
    }

    /// Counts a rejected element of `Promise.all`; only the first before the end
    /// counts.
    pub open spec fn all_rejected(self, shared: usize) -> (EngineView<'a>, bool) {
        match all_at(self.store.heap, shared) {
            Some(d) => if d.settled {
                (self, false)
            } else {
                (self.with_heap(HeapView {
                    cells: self.store.heap.cells.update(shared as int, CellView::All(AllStateView { settled: true, ..d })),
                    ..self.store.heap
                }), true)
            },
            None => (self, false),
        }
    }

    /// Counts an element of `Promise.allSettled`; the last one gives the array of the
    /// results.
    pub open spec fn all_settled(self, shared: usize, i: usize, v: Value) -> (EngineView<'a>, Option<Value>) {
        match all_settled_at(self.store.heap, shared) {
            Some(d) => {
                let results = with_result(d.results, i, v);
                let left = less_one(d.remaining);
                let s = self.with_heap(HeapView {
                    cells: self.store.heap.cells.update(shared as int, CellView::AllSettled(AllSettledStateView { remaining: left, results })),
                    ..self.store.heap
                });
                if left == 0 {
                    (s.with_store(with_new_array(s.store, filled(results))), Some(Value::Array(s.store.heap.cells.len() as usize)))
                } else {
                    (s, None)
                }
            },
            None => (self, None),
        }
    }

    /// Replaces an item of an array's dense prefix.
    pub open spec fn set_dense(self, a: usize, i: usize, v: Value) -> EngineView<'a> {
        match array_at(self.store.heap, a) {
            Some(d) => if i < d.elems.len() {
                self.with_heap(with_array(self.store.heap, a, ArrayDataView { elems: d.elems.update(i as int, v), ..d }))
            } else {
                self
            },
            None => self,
        }
    }

    /// A new host function without properties that the collector does not manage.
    pub open spec fn native_cell(self, func: usize) -> (EngineView<'a>, usize) {
        (self.with_heap(self.store.heap.plus_cell(CellView::Native(NativeFunctionDataView {
            func,
            props: Map::empty(),
            proto: None,
            constructable: false,
            realm: None,
            intrinsic_proto: None,
            fn_value_proto: None,
        }))), self.store.heap.cells.len() as usize)
    }

    /// A function that settles a promise.
    pub open spec fn resolver(self, cap: usize, kind: usize, flag: usize) -> (EngineView<'a>, Value) {
        let n = self.store.n;
        let (s, f) = self.native_cell(RESOLVER);
        (s.set_field(f, n.promise_cap, Value::Promise(cap)).set_field(f, n.promise_kind, Value::String(kind)).set_field(f, n.promise_flag, Value::Object(flag)).put_prop(f, n.name, Property::slot(Value::String(kind), false, false, true)).put_prop(f, n.length, Property::slot(Value::Number(ONE), false, false, true)), Value::NativeFunction(f))
    }

    /// The list of the two functions that settle a promise. They share a flag, so that
    /// only the first call of either counts.
    pub open spec fn make_resolver_pair(self, cap: usize) -> (EngineView<'a>, usize) {
        let (s, flag) = self.bare_object();
        let t = s.set_field(flag, s.store.n.resolved, Value::Boolean(false));
        let (u, res) = t.resolver(cap, t.store.n.resolve, flag);
        let (w, rej) = u.resolver(cap, u.store.n.reject, flag);
        w.list2(res, rej)
    }

    /// A new capability record and its number.
    pub open spec fn new_cap(self) -> (EngineView<'a>, u64) {
        (EngineView { caps: self.caps.push(CapRecord { id: self.next_cap, functions: None }), next_cap: wrapped_next(self.next_cap), ..self }, self.next_cap)
    }

    /// Records the functions that a capability's executor received.
    pub open spec fn record_cap(self, id: u64, resolve: Value, reject: Value) -> EngineView<'a> {
        match cap_place(self.caps, id, self.caps.len()) {
            Some(i) => EngineView { caps: self.caps.update(i, CapRecord { id, functions: Some((resolve, reject)) }), ..self },
            None => self,
        }
    }

    /// Drops a capability record, and gives the functions that it has.
    pub open spec fn take_cap(self, id: u64) -> (EngineView<'a>, Option<(Value, Value)>) {
        match cap_place(self.caps, id, self.caps.len()) {
            Some(i) => (EngineView { caps: self.caps.remove(i), ..self }, self.caps[i].functions),
            None => (self, None),
        }
    }

    /// The function that records a capability's functions.
    pub open spec fn cap_executor(self, id: u64) -> (EngineView<'a>, Value) {
        let n = self.store.n;
        let (s, f) = self.native_cell(EXECUTOR);
        (s.set_field(f, n.cap_exec, Value::Number(double_of(id as nat) as u64)).put_prop(f, n.name, Property::slot(Value::String(n.empty), false, false, true)).put_prop(f, n.length, Property::slot(Value::Number(double_of(2) as u64), false, false, true)), Value::NativeFunction(f))
    }

    /// Adds a timer.
    pub open spec fn add_timer(self, t: TimerEntry) -> EngineView<'a> {
        EngineView { timers: self.timers.push(t), ..self }
    }

    /// Takes the timer that fires next.
    pub open spec fn pop_timer(self) -> (EngineView<'a>, Option<TimerEntry>) {
        match next_timer_place(self.timers, self.timers.len()) {
            Some(i) => (EngineView { timers: self.timers.remove(i), ..self }, Some(self.timers[i])),
            None => (self, None),
        }
    }

    /// Remembers the cancellation of a timer.
    pub open spec fn cancel(self, id: u64) -> EngineView<'a> {
        EngineView { cancelled: self.cancelled.insert(id), ..self }
    }

    /// Forgets the cancellation of a timer, and says whether there was one.
    pub open spec fn uncancel(self, id: u64) -> (EngineView<'a>, bool) {
        (EngineView { cancelled: self.cancelled.remove(id), ..self }, self.cancelled.contains(id))
    }

    /// Forgets all cancellations.
    pub open spec fn clear_cancelled(self) -> EngineView<'a> {
        EngineView { cancelled: Set::empty(), ..self }
    }

    /// Moves the clock forward to a time.
    pub open spec fn advance_to(self, t: u64) -> EngineView<'a> {
        EngineView { now: if t > self.now { t } else { self.now }, ..self }
    }

    /// Notes how many timers a pump ran.
    pub open spec fn set_ran(self, n: usize) -> EngineView<'a> {
        EngineView { ran: n, ..self }
    }

    /// How many timers wait.
    pub open spec fn timer_count(self) -> usize {
        self.timers.len() as usize
    }

    /// The time after an interval.
    pub open spec fn due(self, interval: u64) -> u64 {
        saturated_sum(self.now, interval)
    }

    /// Sets the active new target.
    pub open spec fn set_target(self, t: Option<Value>) -> EngineView<'a> {
        EngineView { new_target: t, ..self }
    }

    /// The active new target.
    pub open spec fn target(self) -> Option<Value> {
        self.new_target
    }

    /// Sets the active host function.
    pub open spec fn set_native_ctor(self, t: Option<Value>) -> EngineView<'a> {
        EngineView { native_ctor: t, ..self }
    }

    /// The active host function.
    pub open spec fn active_native(self) -> Option<Value> {
        self.native_ctor
    }

    /// Sets the realm of the active host constructor.
    pub open spec fn set_native_realm(self, t: Option<usize>) -> EngineView<'a> {
        EngineView { native_realm: t, ..self }
    }

    /// The realm of the active host constructor.
    pub open spec fn active_realm(self) -> Option<usize> {
        self.native_realm
    }

    /// Sets the list that gathers yielded values.
    pub open spec fn set_sink(self, t: Option<usize>) -> EngineView<'a> {
        EngineView { sink: t, ..self }
    }

    /// The list that gathers yielded values.
    pub open spec fn yield_sink(self) -> Option<usize> {
        self.sink
    }

    /// What constructing with a host function depends on.
    pub open spec fn native(self, id: usize) -> Option<NativeInfo> {
        match native_at(self.store.heap, id) {
            Some(d) => Some(NativeInfo { constructable: d.constructable, realm: d.realm, intrinsic_proto: d.intrinsic_proto }),
            None => None,
        }
    }

    /// Whether a value can be constructed with.
    pub open spec fn is_constructor(self, v: Value) -> bool {
        match v {
            Value::Function(f) => match self.function(f) {
                Some(d) => !d.is_async,
                None => false,
            },
            Value::NativeFunction(f) => match self.native(f) {
                Some(d) => d.constructable,
                None => false,
            },
            _ => false,
        }
    }

    /// The realm of a function; the current one where it has none.
    pub open spec fn realm_of(self, v: Value) -> usize {
        match v {
            Value::Function(f) => match self.function(f) {
                Some(d) => match d.realm {
                    Some(r) => r,
                    None => self.realm,
                },
                None => self.realm,
            },
            Value::NativeFunction(f) => match self.native(f) {
                Some(d) => match d.realm {
                    Some(r) => r,
                    None => self.realm,
                },
                None => self.realm,
            },
            _ => self.realm,
        }
    }

    /// The prototype of instances when the new target has none: the intrinsic that
    /// the constructor names, in the realm of the new target.
    pub open spec fn default_proto(self, new_target: Value, target: Value) -> usize {
        let kind = match target {
            Value::NativeFunction(f) => match self.native(f) {
                Some(d) => match d.intrinsic_proto {
                    Some(k) => k,
                    None => RealmProto::Object,
                },
                None => RealmProto::Object,
            },
            _ => RealmProto::Object,
        };
        let r = self.realm_of(new_target);
        if r < self.realms.len() { realm_proto(self.realms[r as int], kind) } else { self.store.b.object_prototype }
    }

    /// The constructor function of a class, linked with its prototype object.
    pub open spec fn class_ctor(self, class: &'a Class, parent: Option<Value>, proto: usize, base: usize, env: usize, list: usize) -> (EngineView<'a>, usize) {
        let (s, name) = match &class.name {
            Some(t) => self.intern_name(t),
            None => (self, self.store.n.empty),
        };
        let c = s.store.heap.cells.len() as usize;
        let t = s.with_heap(s.store.heap.plus_cell(CellView::Function(ctor_cell(s, class, name, parent, base, env, items_of(s.store.heap, list)))));
        let u = t.set_field(proto, t.store.n.constructor, Value::Function(c)).set_field(c, t.store.n.prototype, Value::Object(proto)).set_field(c, t.store.n.name, Value::String(name));
        (u.with_heap(u.store.heap.plus_registration(c)), c)
    }

    /// Sets the object that `super` reads from in a method.
    pub open spec fn set_super(self, f: Value, base: usize) -> EngineView<'a> {
        match f {
            Value::Function(id) => match function_at(self.store.heap, id) {
                Some(d) => self.with_heap(HeapView {
                    cells: self.store.heap.cells.update(id as int, CellView::Function(FunctionView { super_proto: Some(base), ..d })),
                    ..self.store.heap
                }),
                None => self,
            },
            _ => self,
        }
    }

    /// How many instance fields a class constructor sets.
    pub open spec fn field_count(self, f: usize) -> usize {
        match function_at(self.store.heap, f) {
            Some(d) => d.fields.len() as usize,
            None => 0,
        }
    }

    /// An instance field of a class constructor.
    pub open spec fn field_init(self, f: usize, i: usize) -> FieldInit<'a> {
        match function_at(self.store.heap, f) {
            Some(d) => if i < d.fields.len() { d.fields[i as int] } else { FieldInit { key: self.store.n.empty, init: None } },
            None => FieldInit { key: self.store.n.empty, init: None },
        }
    }
}

impl<'a> Engine<'a> {
    /// The state of a promise; anything else counts as settled.
    pub fn promise_state(&self, p: usize) -> (res: PromiseState)
        ensures
            res == self@.promise_state(p),
    {
        if p < self.store.heap.cells.len() {
            assert(self@.store.heap.cells[p as int] == self.store.heap.cells@[p as int]@);
            match &self.store.heap.cells[p] {
                Cell::Promise(d) => d.state,
                _ => PromiseState::Fulfilled(Value::Undefined),
            }
        } else {
            PromiseState::Fulfilled(Value::Undefined)
        }
    }

    /// A new pending promise.
    pub fn new_promise(&mut self) -> (res: usize)
        ensures
            (final(self)@, res) == old(self)@.new_promise(),
    {
        self.store.heap.add_managed(Cell::Promise(PromiseData::new_pending()))
    }

    /// A new pending promise of a prototype.
    pub fn new_promise_with_proto(&mut self, proto: usize) -> (res: usize)
        ensures
            (final(self)@, res) == old(self)@.new_promise_with_proto(proto),
    {
        let mut d = PromiseData::new_pending();
        d.proto = Some(proto);
        self.store.heap.add_managed(Cell::Promise(d))
    }

    /// Settles a pending promise and starts its reactions, the first registered
    /// first. A rejection without reactions is unhandled. A settled promise stays as
    /// it is.
    pub(crate) fn settle(&mut self, p: usize, s: Settlement)
        ensures
            final(self)@ == old(self)@.settle(p, s),
    {
        let ghost before = self@;
        let mut reactions: Vec<PromiseReaction> = Vec::new();
        let mut changed = false;
        if p < self.store.heap.cells.len() {
            assert(before.store.heap.cells[p as int] == self.store.heap.cells@[p as int]@);
            match &mut self.store.heap.cells[p] {
                Cell::Promise(d) => {
                    if d.is_pending() {
                        changed = true;
                        d.state = match s {
                            Settlement::Fulfilled(v) => PromiseState::Fulfilled(v),
                            Settlement::Rejected(v) => PromiseState::Rejected(v),
                        };
                        std::mem::swap(&mut reactions, &mut d.reactions);
                    }
                },
                _ => {},
            }
        }
        if changed {
            let ghost d = promise_at(before.store.heap, p)->0;
            assert(reactions@ == d.reactions);
            assert(self@.store.heap.cells =~= with_promise(before.store.heap, p, PromiseDataView { state: settled_state(s), reactions: Seq::empty(), ..d }).cells);
            if reactions.len() == 0 && matches!(s, Settlement::Rejected(_)) {
                self.unhandled.push(Value::Promise(p));
            }
            let ghost start = self.frames@;
            let ghost mid = self@;
            let n = reactions.len();
            let mut i: usize = 0;
            assert(start + reaction_frames(reactions@, s).take(0) =~= start);
            while i < n
                invariant
                    n == reactions@.len(),
                    i <= n,
                    self@ == (EngineView { frames: start + reaction_frames(reactions@, s).take(i as int), ..mid }),
                decreases n - i,
            {
                self.frames.push(Frame::React(reactions[n - 1 - i], s));
                i += 1;
                assert(start + reaction_frames(reactions@, s).take(i as int) =~= (start + reaction_frames(reactions@, s).take(i - 1)).push(reaction_frames(reactions@, s)[i - 1]));
            }
            assert(reaction_frames(reactions@, s).take(i as int) =~= reaction_frames(reactions@, s));
        } else {
            assert(self@.store.heap.cells =~= before.store.heap.cells);
            assert(self@ =~= before);
        }
    }

    /// Registers a reaction on a pending promise.
    pub(crate) fn add_reaction(&mut self, p: usize, r: PromiseReaction)
        ensures
            final(self)@ == old(self)@.add_reaction(p, r),
    {
        let ghost before = self@;
        if p < self.store.heap.cells.len() {
            assert(before.store.heap.cells[p as int] == self.store.heap.cells@[p as int]@);
            match &mut self.store.heap.cells[p] {
                Cell::Promise(d) => {
                    if d.is_pending() {
                        d.reactions.push(r);
                    }
                },
                _ => {},
            }
            proof {
                match promise_at(before.store.heap, p) {
                    Some(d) => {
                        if d.state is Pending {
                            assert(self@.store.heap.cells =~= with_promise(before.store.heap, p, PromiseDataView { reactions: d.reactions.push(r), ..d }).cells);
                        } else {
                            assert(self@.store.heap.cells =~= before.store.heap.cells);
                        }
                    },
                    None => {
                        assert(self@.store.heap.cells =~= before.store.heap.cells);
                    },
                }
            }
        }
    }

    /// Takes a promise off the list of unhandled rejections.
    pub fn mark_handled(&mut self, p: usize)
        ensures
            final(self)@ == old(self)@.mark_handled(p),
    {
        let ghost before = self@;
        let mut kept: Vec<Value> = Vec::new();
        let mut i: usize = 0;
        while i < self.unhandled.len()
            invariant
                i <= self.unhandled@.len(),
                self@ == before,
                kept@ == without(self.unhandled@.take(i as int), Value::Promise(p)),
            decreases self.unhandled@.len() - i,
        {
            let v = self.unhandled[i];
            if v != Value::Promise(p) {
                kept.push(v);
            }
            i += 1;
            assert(self.unhandled@.take(i as int).drop_last() =~= self.unhandled@.take(i - 1));
        }
        assert(self.unhandled@.take(i as int) =~= self.unhandled@);
        self.unhandled = kept;
    }

    /// Adds a value to the list of what nothing has handled.
    pub(crate) fn report(&mut self, v: Value)
        ensures
            final(self)@ == old(self)@.report(v),
    {
        self.unhandled.push(v);
    }

    /// Adds a job to the queue.
    pub(crate) fn enqueue(&mut self, job: Job)
        ensures
            final(self)@ == old(self)@.enqueue(job),
    {
        self.jobs.push(job);
    }

    /// Takes the first job from the queue.
    pub(crate) fn next_job(&mut self) -> (res: Option<Job>)
        ensures
            (final(self)@, res) == old(self)@.next_job(),
    {
        let ghost before = self@;
        if self.jobs.len() > 0 {
            let j = self.jobs.remove(0);
            assert(self.jobs@ =~= before.jobs.skip(1));
            Some(j)
        } else {
            None
        }
    }

    /// A new countdown of `Promise.all`.
    pub fn new_all_state(&mut self, len: usize) -> (res: usize)
        ensures
            (final(self)@, res) == old(self)@.new_all_state(len),
    {
        let results = empty_slots(len);
        self.store.heap.add_cell(Cell::All(AllState { remaining: len, results, settled: false }))
    }

    /// A new countdown of `Promise.allSettled`.
    pub fn new_all_settled_state(&mut self, len: usize) -> (res: usize)
        ensures
            (final(self)@, res) == old(self)@.new_all_settled_state(len),
    {
        let results = empty_slots(len);
        self.store.heap.add_cell(Cell::AllSettled(AllSettledState { remaining: len, results }))
    }

    /// Counts a fulfilled element of `Promise.all`; the last one gives the array of
    /// the results.
    pub(crate) fn all_fulfilled(&mut self, shared: usize, i: usize, v: Value) -> (res: Option<Value>)
        ensures
            (final(self)@, res) == old(self)@.all_fulfilled(shared, i, v),
    {
        let ghost before = self@;
        let mut last: Option<Vec<Value>> = None;
        if shared < self.store.heap.cells.len() {
            assert(before.store.heap.cells[shared as int] == self.store.heap.cells@[shared as int]@);
            match &mut self.store.heap.cells[shared] {
                Cell::All(d) => {
                    if !d.settled {
                        if i < d.results.len() {
                            d.results.set(i, Some(v));
                        }
                        if d.remaining > 0 {
                            d.remaining = d.remaining - 1;
                        }
                        if d.remaining == 0 {
                            d.settled = true;
                            last = Some(fill(&d.results));
                        }
                    }
                },
                _ => {},
            }
        }
        proof {
            match all_at(before.store.heap, shared) {
                Some(d) => {
                    if d.settled {
                        assert(self@.store.heap.cells =~= before.store.heap.cells);
                    } else {
                        assert(self@.store.heap.cells =~= before.store.heap.cells.update(shared as int, CellView::All(AllStateView { remaining: less_one(d.remaining), results: with_result(d.results, i, v), settled: less_one(d.remaining) == 0 })));
                    }
                },
                None => {
                    assert(self@.store.heap.cells =~= before.store.heap.cells);
                },
            }
        }
        match last {
            Some(items) => Some(Value::Array(self.store.heap.new_array(items, self.store.b.array_prototype))),
            None => None,
        }
    }

    /// Counts a rejected element of `Promise.all`; only the first before the end
    /// counts.
    pub(crate) fn all_rejected(&mut self, shared: usize) -> (res: bool)
        ensures
            (final(self)@, res) == old(self)@.all_rejected(shared),
    {
        let ghost before = self@;
        let mut r = false;
        if shared < self.store.heap.cells.len() {
            assert(before.store.heap.cells[shared as int] == self.store.heap.cells@[shared as int]@);
            match &mut self.store.heap.cells[shared] {
                Cell::All(d) => {
                    if !d.settled {
                        d.settled = true;
                        r = true;
                    }
                },
                _ => {},
            }
        }
        proof {
            match all_at(before.store.heap, shared) {
                Some(d) => {
                    if d.settled {
                        assert(self@.store.heap.cells =~= before.store.heap.cells);
                    } else {
                        assert(self@.store.heap.cells =~= before.store.heap.cells.update(shared as int, CellView::All(AllStateView { settled: true, ..d })));
                    }
                },
                None => {
                    assert(self@.store.heap.cells =~= before.store.heap.cells);
                },
            }
        }
        r
    }

    /// Counts an element of `Promise.allSettled`; the last one gives the array of the
    /// results.
    pub(crate) fn all_settled(&mut self, shared: usize, i: usize, v: Value) -> (res: Option<Value>)
        ensures
            (final(self)@, res) == old(self)@.all_settled(shared, i, v),
    {
        let ghost before = self@;
        let mut last: Option<Vec<Value>> = None;
        if shared < self.store.heap.cells.len() {
            assert(before.store.heap.cells[shared as int] == self.store.heap.cells@[shared as int]@);
            match &mut self.store.heap.cells[shared] {
                Cell::AllSettled(d) => {
                    if i < d.results.len() {
                        d.results.set(i, Some(v));
                    }
                    if d.remaining > 0 {
                        d.remaining = d.remaining - 1;
                    }
                    if d.remaining == 0 {
                        last = Some(fill(&d.results));
                    }
                },
                _ => {},
            }
        }
        proof {
            match all_settled_at(before.store.heap, shared) {
                Some(d) => {
                    assert(self@.store.heap.cells =~= before.store.heap.cells.update(shared as int, CellView::AllSettled(AllSettledStateView { remaining: less_one(d.remaining), results: with_result(d.results, i, v) })));
                },
                None => {
                    assert(self@.store.heap.cells =~= before.store.heap.cells);
                },
            }
        }
        match last {
            Some(items) => Some(Value::Array(self.store.heap.new_array(items, self.store.b.array_prototype))),
            None => None,
        }
    }

    /// Replaces an item of an array's dense prefix.
    pub(crate) fn set_dense(&mut self, a: usize, i: usize, v: Value)
        ensures
            final(self)@ == old(self)@.set_dense(a, i, v),
    {
        let ghost before = self@;
        if a < self.store.heap.cells.len() {
            assert(before.store.heap.cells[a as int] == self.store.heap.cells@[a as int]@);
            match &mut self.store.heap.cells[a] {
                Cell::Array(d) => {
                    if i < d.elems.len() {
                        d.elems.set(i, v);
                    }
                },
                _ => {},
            }
            proof {
                match array_at(before.store.heap, a) {
                    Some(d) => {
                        if i < d.elems.len() {
                            assert(self@.store.heap.cells =~= with_array(before.store.heap, a, ArrayDataView { elems: d.elems.update(i as int, v), ..d }).cells);
                        } else {
                            assert(self@.store.heap.cells =~= before.store.heap.cells);
                        }
                    },
                    None => {
                        assert(self@.store.heap.cells =~= before.store.heap.cells);
                    },
                }
            }
        }
    }

    /// A new host function without properties that the collector does not manage.
    pub(crate) fn native_cell(&mut self, func: usize) -> (res: usize)
        ensures
            (final(self)@, res) == old(self)@.native_cell(func),
    {
        self.store.heap.add_cell(Cell::Native(NativeFunctionData::new(func)))
    }

    /// A function that settles a promise.
    pub(crate) fn resolver(&mut self, cap: usize, kind: usize, flag: usize) -> (res: Value)
        ensures
            (final(self)@, res) == old(self)@.resolver(cap, kind, flag),
    {
        let n = self.store.n;
        let f = self.native_cell(RESOLVER);
        self.set_field(f, n.promise_cap, Value::Promise(cap));
        self.set_field(f, n.promise_kind, Value::String(kind));
        self.set_field(f, n.promise_flag, Value::Object(flag));
        self.put_prop(f, n.name, Property::config(Value::String(kind)));
        self.put_prop(f, n.length, Property::config(Value::Number(ONE)));
        Value::NativeFunction(f)
    }

    /// The list of the two functions that settle a promise. They share a flag, so that
    /// only the first call of either counts.
    pub fn make_resolver_pair(&mut self, cap: usize) -> (res: usize)
        ensures
            (final(self)@, res) == old(self)@.make_resolver_pair(cap),
    {
        let flag = self.bare_object();
        self.set_field(flag, self.store.n.resolved, Value::Boolean(false));
        let res = self.resolver(cap, self.store.n.resolve, flag);
        let rej = self.resolver(cap, self.store.n.reject, flag);
        self.list2(res, rej)
    }

    /// A new capability record and its number.
    pub(crate) fn new_cap(&mut self) -> (res: u64)
        ensures
            (final(self)@, res) == old(self)@.new_cap(),
    {
        let id = self.next_cap;
        self.next_cap = id.wrapping_add(1);
        self.caps.push(CapRecord { id, functions: None });
        id
    }

    /// Records the functions that a capability's executor received.
    pub(crate) fn record_cap(&mut self, id: u64, resolve: Value, reject: Value)
        ensures
            final(self)@ == old(self)@.record_cap(id, resolve, reject),
    {
        match find_cap(&self.caps, id) {
            Some(i) => {
                self.caps.set(i, CapRecord { id, functions: Some((resolve, reject)) });
            },
            None => {},
        }
    }

    /// Drops a capability record, and gives the functions that it has.
    pub(crate) fn take_cap(&mut self, id: u64) -> (res: Option<(Value, Value)>)
        ensures
            (final(self)@, res) == old(self)@.take_cap(id),
    {
        match find_cap(&self.caps, id) {
            Some(i) => {
                let r = self.caps.remove(i);
                r.functions
            },
            None => None,
        }
    }

    /// The function that records a capability's functions.
    pub(crate) fn cap_executor(&mut self, id: u64) -> (res: Value)
        ensures
            (final(self)@, res) == old(self)@.cap_executor(id),
    {
        let n = self.store.n;
        let f = self.native_cell(EXECUTOR);
        self.set_field(f, n.cap_exec, Value::Number(from_u64(id)));
        self.put_prop(f, n.name, Property::config(Value::String(n.empty)));
        self.put_prop(f, n.length, Property::config(Value::Number(from_u64(2))));
        Value::NativeFunction(f)
    }

    /// Adds a timer.
    pub(crate) fn add_timer(&mut self, t: TimerEntry)
        ensures
            final(self)@ == old(self)@.add_timer(t),
    {
        self.timers.push(t);
    }

    /// Takes the timer that fires next.
    pub(crate) fn pop_timer(&mut self) -> (res: Option<TimerEntry>)
        ensures
            (final(self)@, res) == old(self)@.pop_timer(),
    {
        if self.timers.len() == 0 {
            return None;
        }
        let mut best: usize = 0;
        let mut i: usize = 1;
        assert(next_timer_place(self.timers@, 0) is None);
        assert(next_timer_place(self.timers@, 1) == Some(0int));
        while i < self.timers.len()
            invariant
                1 <= i <= self.timers@.len(),
                best < i,
                self@ == old(self)@,
                next_timer_place(self.timers@, i as nat) == Some(best as int),
            decreases self.timers@.len() - i,
        {
            let t = self.timers[i];
            let b = self.timers[best];
            if t.deadline < b.deadline || (t.deadline == b.deadline && t.id < b.id) {
                best = i;
            }
            i += 1;
        }
        Some(self.timers.remove(best))
    }

    /// Remembers the cancellation of a timer.
    pub(crate) fn cancel(&mut self, id: u64)
        ensures
            final(self)@ == old(self)@.cancel(id),
    {
        let ghost before = self@;
        self.cancelled.push(id);
        proof {
            assert forall|x: u64| self.cancelled@.to_set().contains(x) == before.cancelled.insert(id).contains(x) by {
                crate::listing::lemma_push_contains(old(self).cancelled@, id, x);
            }
            assert(self@.cancelled =~= before.cancelled.insert(id));
        }
    }

    /// Forgets the cancellation of a timer, and says whether there was one.
    pub(crate) fn uncancel(&mut self, id: u64) -> (res: bool)
        ensures
            (final(self)@, res) == old(self)@.uncancel(id),
    {
        let ghost before = self@;
        let ghost was = self.cancelled@;
        let mut kept: Vec<u64> = Vec::new();
        let mut found = false;
        let mut i: usize = 0;
        while i < self.cancelled.len()
            invariant
                i <= self.cancelled@.len(),
                self@ == before,
                self.cancelled@ == was,
                found == was.take(i as int).contains(id),
                forall|x: u64| kept@.contains(x) <==> was.take(i as int).contains(x) && x != id,
            decreases self.cancelled@.len() - i,
        {
            let x = self.cancelled[i];
            let ghost seen = was.take(i as int);
            let ghost held = kept@;
            if x == id {
                found = true;
            } else {
                kept.push(x);
            }
            i += 1;
            proof {
                assert(was.take(i as int) =~= seen.push(x));
                crate::listing::lemma_push_contains(seen, x, id);
                assert forall|y: u64| kept@.contains(y) <==> was.take(i as int).contains(y) && y != id by {
                    crate::listing::lemma_push_contains(seen, x, y);
                    crate::listing::lemma_push_contains(held, x, y);
                }
            }
        }
        assert(was.take(i as int) =~= was);
        self.cancelled = kept;
        assert(self@.cancelled =~= before.cancelled.remove(id));
        found
    }

    /// Forgets all cancellations.
    pub(crate) fn clear_cancelled(&mut self)
        ensures
            final(self)@ == old(self)@.clear_cancelled(),
    {
        self.cancelled = Vec::new();
        assert(self@.cancelled =~= Set::<u64>::empty());
    }

    /// Moves the clock forward to a time.
    pub(crate) fn advance_to(&mut self, t: u64)
        ensures
            final(self)@ == old(self)@.advance_to(t),
    {
        if t > self.now {
            self.now = t;
        }
    }

    /// Notes how many timers a pump ran.
    pub(crate) fn set_ran(&mut self, n: usize)
        ensures
            final(self)@ == old(self)@.set_ran(n),
    {
        self.ran = n;
    }

    /// How many timers wait.
    pub(crate) fn timer_count(&self) -> (res: usize)
        ensures
            res == self@.timer_count(),
    {
        self.timers.len()
    }

    /// The time after an interval.
    pub(crate) fn due(&self, interval: u64) -> (res: u64)
        ensures
            res == self@.due(interval),
    {
        saturating_sum(self.now, interval)
    }

    /// Sets the active new target.
    pub(crate) fn set_target(&mut self, t: Option<Value>)
        ensures
            final(self)@ == old(self)@.set_target(t),
    {
        self.new_target = t;
    }

    /// The active new target.
    pub(crate) fn target(&self) -> (res: Option<Value>)
        ensures
            res == self@.target(),
    {
        self.new_target
    }

    /// Sets the active host function.
    pub(crate) fn set_native_ctor(&mut self, t: Option<Value>)
        ensures
            final(self)@ == old(self)@.set_native_ctor(t),
    {
        self.native_ctor = t;
    }

    /// The active host function.
    pub(crate) fn active_native(&self) -> (res: Option<Value>)
        ensures
            res == self@.active_native(),
    {
        self.native_ctor
    }

    /// Sets the realm of the active host constructor.
    pub(crate) fn set_native_realm(&mut self, t: Option<usize>)
        ensures
            final(self)@ == old(self)@.set_native_realm(t),
    {
        self.native_realm = t;
    }

    /// The realm of the active host constructor.
    pub(crate) fn active_realm(&self) -> (res: Option<usize>)
        ensures
            res == self@.active_realm(),
    {
        self.native_realm
    }

    /// Sets the list that gathers yielded values.
    pub(crate) fn set_sink(&mut self, t: Option<usize>)
        ensures
            final(self)@ == old(self)@.set_sink(t),
    {
        self.sink = t;
    }

    /// The list that gathers yielded values.
    pub(crate) fn yield_sink(&self) -> (res: Option<usize>)
        ensures
            res == self@.yield_sink(),
    {
        self.sink
    }

    /// What constructing with a host function depends on.
    pub(crate) fn native(&self, id: usize) -> (res: Option<NativeInfo>)
        ensures
            res == self@.native(id),
    {
        if id < self.store.heap.cells.len() {
            assert(self@.store.heap.cells[id as int] == self.store.heap.cells@[id as int]@);
            match &self.store.heap.cells[id] {
                Cell::Native(d) => Some(NativeInfo { constructable: d.constructable, realm: d.realm, intrinsic_proto: d.intrinsic_proto }),
                _ => None,
            }
        } else {
            None
        }
    }

    /// Whether a value can be constructed with.
    pub(crate) fn is_constructor(&self, v: Value) -> (res: bool)
        ensures
            res == self@.is_constructor(v),
    {
        match v {
            Value::Function(f) => match self.function(f) {
                Some(d) => !d.is_async,
                None => false,
            },
            Value::NativeFunction(f) => match self.native(f) {
                Some(d) => d.constructable,
                None => false,
            },
            _ => false,
        }
    }

    /// The realm of a function; the current one where it has none.
    pub(crate) fn realm_of(&self, v: Value) -> (res: usize)
        ensures
            res == self@.realm_of(v),
    {
        match v {
            Value::Function(f) => match self.function(f) {
                Some(d) => match d.realm {
                    Some(r) => r,
                    None => self.realm,
                },
                None => self.realm,
            },
            Value::NativeFunction(f) => match self.native(f) {
                Some(d) => match d.realm {
                    Some(r) => r,
                    None => self.realm,
                },
                None => self.realm,
            },
            _ => self.realm,
        }
    }

    /// The prototype of instances when the new target has none: the intrinsic that
    /// the constructor names, in the realm of the new target.
    pub(crate) fn default_proto(&self, new_target: Value, target: Value) -> (res: usize)
        ensures
            res == self@.default_proto(new_target, target),
    {
        let kind = match target {
            Value::NativeFunction(f) => match self.native(f) {
                Some(d) => match d.intrinsic_proto {
                    Some(k) => k,
                    None => RealmProto::Object,
                },
                None => RealmProto::Object,
            },
            _ => RealmProto::Object,
        };
        let r = self.realm_of(new_target);
        if r < self.realms.len() { intrinsic(&self.realms[r], kind) } else { self.store.b.object_prototype }
    }

    /// The constructor function of a class, linked with its prototype object.
    pub(crate) fn class_ctor(&mut self, class: &'a Class, parent: Option<Value>, proto: usize, base: usize, env: usize, list: usize) -> (res: usize)
        ensures
            (final(self)@, res) == old(self)@.class_ctor(class, parent, proto, base, env, list),
    {
        let name = match &class.name {
            Some(t) => self.intern_name(t),
            None => self.store.n.empty,
        };
        let ghost s = self@;
        let keys = self.store.heap.list_items(list, 0);
        assert(keys@ =~= items_of(s.store.heap, list));
        let empty = self.store.n.empty;
        let mut params: Option<&'a Vec<Pattern>> = None;
        let mut stmts: Option<&'a Vec<Stmt>> = None;
        let mut fields: Vec<FieldInit<'a>> = Vec::new();
        let mut i: usize = 0;
        assert(fields@ =~= class_fields(keys@, field_inits(class, 0), empty));
        while i < class.elements.len()
            invariant
                i <= class.elements@.len(),
                params == ctor_params(class, i as nat),
                stmts == ctor_body(class, i as nat),
                fields@ == class_fields(keys@, field_inits(class, i as nat), empty),
            decreases class.elements@.len() - i,
        {
            let mut init: Option<Option<&'a Expr>> = None;
            match &class.elements[i] {
                ClassElem::Constructor { params: p, body: b } => {
                    params = Some(p);
                    stmts = Some(b);
                },
                ClassElem::Field { is_static, key: _, init: e } => {
                    if !*is_static {
                        init = Some(match e {
                            Some(x) => Some(x),
                            None => None,
                        });
                    }
                },
                ClassElem::AccessorProp { is_static, key: _ } => {
                    if !*is_static {
                        init = Some(None);
                    }
                },
                _ => {},
            }
            let ghost front = field_inits(class, i as nat);
            i += 1;
            match init {
                Some(e) => {
                    assert(field_inits(class, i as nat) == front.push(e));
                    let n = fields.len();
                    let key = if n < keys.len() {
                        match keys[n] {
                            Value::String(a) => a,
                            _ => empty,
                        }
                    } else {
                        empty
                    };
                    fields.push(FieldInit { key, init: e });
                    assert(fields@ =~= class_fields(keys@, front.push(e), empty));
                },
                None => {
                    assert(field_inits(class, i as nat) == front);
                },
            }
        }
        let body = match stmts {
            Some(b) => Body::Stmts(b),
            None => if parent.is_some() { Body::ForwardArguments } else { Body::Empty },
        };
        let cell = Cell::Function(Function {
            name,
            params,
            fields,
            body,
            closure: env,
            props: Assoc::new(),
            proto: Some(self.store.b.function_prototype),
            super_proto: Some(base),
            super_ctor: parent,
            this_capture: None,
            generator: false,
            is_async: false,
            is_derived: parent.is_some(),
            realm: None,
        });
        assert(cell@ =~= CellView::Function(ctor_cell(s, class, name, parent, base, env, items_of(s.store.heap, list))));
        let c = self.store.heap.add_cell(cell);
        self.set_field(proto, self.store.n.constructor, Value::Function(c));
        self.set_field(c, self.store.n.prototype, Value::Object(proto));
        self.set_field(c, self.store.n.name, Value::String(name));
        self.store.heap.register(c);
        c
    }

    /// Sets the object that `super` reads from in a method.
    pub(crate) fn set_super(&mut self, f: Value, base: usize)
        ensures
            final(self)@ == old(self)@.set_super(f, base),
    {
        let ghost before = self@;
        match f {
            Value::Function(id) => {
                if id < self.store.heap.cells.len() {
                    assert(before.store.heap.cells[id as int] == self.store.heap.cells@[id as int]@);
                    match &mut self.store.heap.cells[id] {
                        Cell::Function(d) => {
                            d.super_proto = Some(base);
                        },
                        _ => {},
                    }
                    proof {
                        match function_at(before.store.heap, id) {
                            Some(d) => {
                                assert(self@.store.heap.cells =~= before.store.heap.cells.update(id as int, CellView::Function(FunctionView { super_proto: Some(base), ..d })));
                            },
                            None => {
                                assert(self@.store.heap.cells =~= before.store.heap.cells);
                            },
                        }
                    }
                }
            },
            _ => {},
        }
    }

    /// How many instance fields a class constructor sets.
    pub(crate) fn field_count(&self, f: usize) -> (res: usize)
        ensures
            res == self@.field_count(f),
    {
        if f < self.store.heap.cells.len() {
            assert(self@.store.heap.cells[f as int] == self.store.heap.cells@[f as int]@);
            match &self.store.heap.cells[f] {
                Cell::Function(d) => d.fields.len(),
                _ => 0,
            }
        } else {
            0
        }
    }

    /// An instance field of a class constructor.
    pub(crate) fn field_init(&self, f: usize, i: usize) -> (res: FieldInit<'a>)
        ensures
            res == self@.field_init(f, i),
    {
        if f < self.store.heap.cells.len() {
            assert(self@.store.heap.cells[f as int] == self.store.heap.cells@[f as int]@);
            match &self.store.heap.cells[f] {
                Cell::Function(d) => if i < d.fields.len() { d.fields[i] } else { FieldInit { key: self.store.n.empty, init: None } },
                _ => FieldInit { key: self.store.n.empty, init: None },
            }
        } else {
            FieldInit { key: self.store.n.empty, init: None }
        }
    }
}

} // verus!
