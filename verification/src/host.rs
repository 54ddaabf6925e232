//! What a host does with an engine: it starts tasks, runs the machine and answers
//! what the machine asks for.
use vstd::prelude::*;
use crate::assoc::Assoc;
use crate::ast::Program;
use crate::atoms::Atoms;
use crate::engine::{Completion, Engine, EngineView, Frame, Job, PrimitiveHint, Request, TimerEntry};
use crate::env::fresh_scope;
use crate::gc::{collected, value_cell};
use crate::heap::{Heap, HeapView};
use crate::ops::{items_of, list_data};
use crate::store::{names_ok, Builtins, Names, Store};
use crate::value::{ArrayData, Cell, CellView, Env, Object, ObjectView, PromiseReaction, PromiseReactionKind, RealmInfo, Serials, Settlement, SymbolData, Value, serial_id};

verus! {

/// What a host can start.
#[derive(Clone, Copy)]
pub enum Task<'a> {
    /// A program; the jobs and timers that it leaves behind run too.
    Eval(&'a Program),
    /// A call, with the list of the arguments.
    Call { func: Value, this: Value, list: usize },
    /// A construction for a new target.
    Construct { func: Value, list: usize, target: Value },
    /// The body of a generator.
    Generator(Value),
    /// A property read.
    Read { base: Value, key: usize },
    /// A property write.
    Write { base: Value, key: usize, value: Value },
    /// A conversion to a primitive.
    Primitive { value: Value, hint: PrimitiveHint },
    /// A conversion to a number.
    Number(Value),
    /// A conversion to an integer.
    Integer(Value),
    /// A conversion to a string.
    Text(Value),
    /// A conversion to a property key.
    Key(Value),
    /// The items of an iterable, which are added to a list.
    Items { value: Value, list: usize },
    /// A binary operator on two values.
    Binary { op: crate::ast::BinaryOp, left: Value, right: Value },
    /// The resolution of a promise with a value.
    Resolve { promise: usize, value: Value },
    /// The settlement of a promise.
    Settle { promise: usize, how: Settlement },
    /// The registration of handlers.
    Then { promise: Value, on_fulfilled: Option<Value>, on_rejected: Option<Value> },
    /// The registration of a reaction.
    Attach { promise: Value, reaction: PromiseReaction },
    /// The settlement of a promise handed on to the functions of a capability.
    Forward { raw: usize, promise: Value, resolve: Value, reject: Value },
    /// The prototype of an instance that a host constructor makes.
    InstanceProto { default: usize, construct: bool },
    /// The prototype of a promise made for a new target.
    PromiseProto(Value),
    /// The constructor for objects derived from another.
    Species { obj: Value, default: Value },
    /// A new promise capability.
    Capability(Value),
    /// The waiting jobs.
    Jobs,
    /// The waiting timers, up to a limit.
    Timers(usize),
}

/// How far the machine has come.
#[derive(Clone, Copy, PartialEq, Eq, Structural, Debug)]
pub enum Progress {
    /// The task is done; its completion is in the accumulator.
    Done,
    /// The host is asked for something.
    Ask(Request),
    /// There is more to do.
    More,
}

impl<'a> EngineView<'a> {
    /// The engine after some steps.
    pub open spec fn steps(self, n: nat) -> EngineView<'a>
        decreases n,
    {
        if n == 0 {
            self
        } else {
            self.steps((n - 1) as nat).step()
        }
    }

    /// How far the machine has come.
    pub open spec fn progress(self) -> Progress {
        match self.pending {
            Some(r) => Progress::Ask(r),
            None => if self.halted { Progress::Done } else { Progress::More },
        }
    }
}

proof fn lemma_idle<'a>(s: EngineView<'a>, n: nat, m: nat)
    requires
        !s.steps(n).ready(),
        n <= m,
    ensures
        s.steps(m) == s.steps(n),
    decreases m,
{
    if n < m {
        lemma_idle(s, n, (m - 1) as nat);
    }
}

impl<'a> Engine<'a> {
    /// Runs the machine until its task is done, it asks for something, or some steps
    /// have been made.
    pub fn run(&mut self, fuel: u64) -> (r: Progress)
        ensures
            final(self)@ == old(self)@.steps(fuel as nat),
            r == final(self)@.progress(),
    {
        let ghost start = self@;
        let mut n: u64 = 0;
        while n < fuel && self.ready()
            invariant
                n <= fuel,
                self@ == start.steps(n as nat),
            decreases fuel - n,
        {
            self.step();
            n += 1;
        }
        proof {
            if n < fuel {
                lemma_idle(start, n as nat, fuel as nat);
            }
        }
        match self.pending {
            Some(r) => Progress::Ask(r),
            None => if self.halted { Progress::Done } else { Progress::More },
        }
    }

    /// Runs the machine until its task is done or it asks for something. A task that
    /// does neither runs until the counter of steps is full.
    pub fn finish(&mut self) -> (r: Progress)
        ensures
            final(self)@ == old(self)@.steps(u64::MAX as nat),
            r == final(self)@.progress(),
    {
        self.run(u64::MAX)
    }
}

/// The number that follows a timer's; it is never zero.
pub open spec fn timer_after(id: u64) -> u64 {
    if id == u64::MAX { 1 } else { (id + 1) as u64 }
}

impl<'a> Engine<'a> {
    /// Takes the rejections and exceptions that nothing has handled.
    pub fn take_unhandled(&mut self) -> (r: Vec<Value>)
        ensures
            r@ == old(self)@.unhandled,
            final(self)@ == (EngineView { unhandled: Seq::empty(), ..old(self)@ }),
    {
        let ghost before = self@;
        let mut out: Vec<Value> = Vec::new();
        std::mem::swap(&mut out, &mut self.unhandled);
        assert(self@.unhandled =~= Seq::<Value>::empty());
        out
    }

    /// The values of a list.
    pub fn items(&self, list: usize) -> (r: Vec<Value>)
        ensures
            r@ == items_of(self@.store.heap, list),
    {
        self.store.heap.list_items(list, 0)
    }
}

/// The values that a job keeps alive.
pub open spec fn job_values(job: Job) -> Seq<Value> {
    match job {
        Job::Reaction { reaction, settlement } => seq![Value::Promise(reaction.promise)] + optional(reaction.on_fulfilled) + optional(reaction.on_rejected) + seq![
            crate::jobs::settled_value(settlement),
        ] + kind_values(reaction.kind),
        Job::AsyncResume { settlement, capability, .. } => seq![Value::Promise(capability), crate::jobs::settled_value(settlement)],
        Job::Thenable { then_fn, thenable, capability } => seq![then_fn, thenable, Value::Promise(capability)],
        Job::Microtask { callback } => seq![callback],
    }
}

/// The values that a reaction holds beside its handlers.
pub open spec fn kind_values(kind: PromiseReactionKind) -> Seq<Value> {
    match kind {
        PromiseReactionKind::Any { holder, .. } => seq![holder],
        PromiseReactionKind::Custom { promise, resolve, reject } => seq![promise, resolve, reject],
        PromiseReactionKind::FinallyCall { cb } => seq![cb],
        PromiseReactionKind::FinallyPropagate { original } => seq![crate::jobs::settled_value(original)],
        _ => Seq::empty(),
    }
}

/// The countdown that a job shares with others.
pub open spec fn job_countdown(job: Job) -> Seq<usize> {
    match job {
        Job::Reaction { reaction, .. } => match reaction.kind {
            PromiseReactionKind::AllElement { shared, .. } => seq![shared],
            PromiseReactionKind::AllSettled { shared, .. } => seq![shared],
            _ => Seq::empty(),
        },
        _ => Seq::empty(),
    }
}

/// The countdowns of the first jobs.
pub open spec fn jobs_countdowns(jobs: Seq<Job>, n: nat) -> Seq<usize>
    decreases n,
{
    if n == 0 || n > jobs.len() {
        Seq::empty()
    } else {
        jobs_countdowns(jobs, (n - 1) as nat) + job_countdown(jobs[n - 1])
    }
}

/// A value that may be missing, as a sequence.
pub open spec fn optional(v: Option<Value>) -> Seq<Value> {
    match v {
        Some(x) => seq![x],
        None => Seq::empty(),
    }
}

/// The values that the first jobs keep alive.
pub open spec fn jobs_values(jobs: Seq<Job>, n: nat) -> Seq<Value>
    decreases n,
{
    if n == 0 || n > jobs.len() {
        Seq::empty()
    } else {
        jobs_values(jobs, (n - 1) as nat) + job_values(jobs[n - 1])
    }
}

/// The values that the first timers keep alive: the callbacks and their arguments.
pub open spec fn timers_values(h: HeapView, timers: Seq<TimerEntry>, n: nat) -> Seq<Value>
    decreases n,
{
    if n == 0 || n > timers.len() {
        Seq::empty()
    } else {
        timers_values(h, timers, (n - 1) as nat) + seq![timers[n - 1].callback] + items_of(h, timers[n - 1].args)
    }
}

/// The built-in objects that are always alive.
pub open spec fn builtin_values(b: Builtins) -> Seq<Value> {
    seq![
        Value::Object(b.global_object), Value::Object(b.function_prototype), Value::Object(b.object_prototype), Value::Object(b.array_prototype),
        Value::Object(b.string_prototype), Value::Object(b.number_prototype), Value::Object(b.boolean_prototype), Value::Object(b.error_prototype),
        Value::Object(b.symbol_prototype), Value::Object(b.map_prototype), Value::Object(b.set_prototype), Value::Object(b.weakmap_prototype),
        Value::Object(b.weakset_prototype), Value::Object(b.regexp_prototype), Value::Object(b.promise_prototype), Value::Object(b.async_function_prototype),
    ]
}

/// The cells of the first values.
pub open spec fn cells_of(values: Seq<Value>, n: nat) -> Seq<usize>
    decreases n,
{
    if n == 0 || n > values.len() {
        Seq::empty()
    } else {
        match value_cell(values[n - 1]) {
            Some(id) => cells_of(values, (n - 1) as nat).push(id),
            None => cells_of(values, (n - 1) as nat),
        }
    }
}

impl<'a> EngineView<'a> {
    /// The values that a collection starts from.
    pub open spec fn root_values(self, extra: Option<Value>) -> Seq<Value> {
        builtin_values(self.store.b) + optional(extra) + jobs_values(self.jobs, self.jobs.len()) + self.unhandled + timers_values(
            self.store.heap,
            self.timers,
            self.timers.len(),
        )
    }

    /// The cells that a collection starts from.
    pub open spec fn roots(self, extra: Option<Value>) -> Seq<usize> {
        (cells_of(self.root_values(extra), self.root_values(extra).len()) + jobs_countdowns(self.jobs, self.jobs.len())).push(self.store.b.global_env)
    }
}

fn add_optional(v: Option<Value>, out: &mut Vec<Value>)
    ensures
        final(out)@ == old(out)@ + optional(v),
{
    let ghost before = out@;
    match v {
        Some(x) => {
            out.push(x);
        },
        None => {},
    }
    assert(out@ =~= before + optional(v));
}

fn add_kind(kind: PromiseReactionKind, out: &mut Vec<Value>)
    ensures
        final(out)@ == old(out)@ + kind_values(kind),
{
    let ghost before = out@;
    match kind {
        PromiseReactionKind::Any { holder, .. } => {
            out.push(holder);
        },
        PromiseReactionKind::Custom { promise, resolve, reject } => {
            out.push(promise);
            out.push(resolve);
            out.push(reject);
        },
        PromiseReactionKind::FinallyCall { cb } => {
            out.push(cb);
        },
        PromiseReactionKind::FinallyPropagate { original } => {
            out.push(crate::jobs::settled_value(original));
        },
        _ => {},
    }
    assert(out@ =~= before + kind_values(kind));
}

fn add_countdown(job: Job, out: &mut Vec<usize>)
    ensures
        final(out)@ == old(out)@ + job_countdown(job),
{
    let ghost before = out@;
    match job {
        Job::Reaction { reaction, .. } => match reaction.kind {
            PromiseReactionKind::AllElement { shared, .. } => {
                out.push(shared);
            },
            PromiseReactionKind::AllSettled { shared, .. } => {
                out.push(shared);
            },
            _ => {},
        },
        _ => {},
    }
    assert(out@ =~= before + job_countdown(job));
}

fn add_job(job: Job, out: &mut Vec<Value>)
    ensures
        final(out)@ == old(out)@ + job_values(job),
{
    let ghost before = out@;
    match job {
        Job::Reaction { reaction, settlement } => {
            out.push(Value::Promise(reaction.promise));
            add_optional(reaction.on_fulfilled, out);
            add_optional(reaction.on_rejected, out);
            out.push(crate::jobs::settled_value(settlement));
            add_kind(reaction.kind, out);
        },
        Job::AsyncResume { settlement, capability, .. } => {
            out.push(Value::Promise(capability));
            out.push(crate::jobs::settled_value(settlement));
        },
        Job::Thenable { then_fn, thenable, capability } => {
            out.push(then_fn);
            out.push(thenable);
            out.push(Value::Promise(capability));
        },
        Job::Microtask { callback } => {
            out.push(callback);
        },
    }
    assert(out@ =~= before + job_values(job));
}

fn add_all(items: &Vec<Value>, out: &mut Vec<Value>)
    ensures
        final(out)@ == old(out)@ + items@,
{
    let ghost before = out@;
    let mut i: usize = 0;
    while i < items.len()
        invariant
            i <= items@.len(),
            out@ =~= before + items@.take(i as int),
        decreases items@.len() - i,
    {
        out.push(items[i]);
        i += 1;
        assert(items@.take(i as int) =~= items@.take(i - 1).push(items@[i - 1]));
    }
    assert(items@.take(i as int) =~= items@);
}

fn cells_in(values: &Vec<Value>) -> (r: Vec<usize>)
    ensures
        r@ == cells_of(values@, values@.len()),
{
    let mut out: Vec<usize> = Vec::new();
    let mut i: usize = 0;
    while i < values.len()
        invariant
            i <= values@.len(),
            out@ == cells_of(values@, i as nat),
        decreases values@.len() - i,
    {
        match crate::gc::cell_of(values[i]) {
            Some(id) => {
                out.push(id);
            },
            None => {},
        }
        i += 1;
    }
    out
}

impl<'a> Engine<'a> {
    fn root_list(&self, extra: Option<Value>) -> (r: Vec<usize>)
        ensures
            r@ == self@.roots(extra),
    {
        let b = self.store.b;
        let mut out: Vec<Value> = vec![
            Value::Object(b.global_object), Value::Object(b.function_prototype), Value::Object(b.object_prototype), Value::Object(b.array_prototype),
            Value::Object(b.string_prototype), Value::Object(b.number_prototype), Value::Object(b.boolean_prototype), Value::Object(b.error_prototype),
            Value::Object(b.symbol_prototype), Value::Object(b.map_prototype), Value::Object(b.set_prototype), Value::Object(b.weakmap_prototype),
            Value::Object(b.weakset_prototype), Value::Object(b.regexp_prototype), Value::Object(b.promise_prototype), Value::Object(b.async_function_prototype),
        ];
        assert(out@ =~= builtin_values(b));
        add_optional(extra, &mut out);
        let ghost base = out@;
        let mut i: usize = 0;
        assert(base + jobs_values(self.jobs@, 0) =~= base);
        while i < self.jobs.len()
            invariant
                i <= self.jobs@.len(),
                out@ == base + jobs_values(self.jobs@, i as nat),
            decreases self.jobs@.len() - i,
        {
            add_job(self.jobs[i], &mut out);
            i += 1;
            assert(out@ =~= base + jobs_values(self.jobs@, i as nat));
        }
        add_all(&self.unhandled, &mut out);
        let ghost more = out@;
        let mut k: usize = 0;
        assert(more + timers_values(self@.store.heap, self.timers@, 0) =~= more);
        while k < self.timers.len()
            invariant
                k <= self.timers@.len(),
                out@ == more + timers_values(self@.store.heap, self.timers@, k as nat),
            decreases self.timers@.len() - k,
        {
            let t = self.timers[k];
            out.push(t.callback);
            let args = self.items(t.args);
            add_all(&args, &mut out);
            k += 1;
            assert(out@ =~= more + timers_values(self@.store.heap, self.timers@, k as nat));
        }
        assert(out@ =~= self@.root_values(extra));
        let mut cells = cells_in(&out);
        let ghost first = cells@;
        let mut c: usize = 0;
        assert(first + jobs_countdowns(self.jobs@, 0) =~= first);
        while c < self.jobs.len()
            invariant
                c <= self.jobs@.len(),
                cells@ == first + jobs_countdowns(self.jobs@, c as nat),
            decreases self.jobs@.len() - c,
        {
            add_countdown(self.jobs[c], &mut cells);
            c += 1;
            assert(cells@ =~= first + jobs_countdowns(self.jobs@, c as nat));
        }
        cells.push(b.global_env);
        cells
    }

    /// Collects garbage: what survives is what the built-in objects, the global
    /// scope, the jobs, the timers and the unhandled values reach. It is meant for
    /// when no task is running.
    pub fn collect_garbage(&mut self)
        ensures
            final(self)@ == old(self)@.with_heap(collected(old(self)@.store.heap, old(self)@.roots(None))),
    {
        self.collect_with(None);
    }

    /// Collects garbage, but keeps one more value alive.
    pub fn collect_with(&mut self, extra: Option<Value>)
        ensures
            final(self)@ == old(self)@.with_heap(collected(old(self)@.store.heap, old(self)@.roots(extra))),
    {
        let roots = self.root_list(extra);
        self.store.heap.collect(&roots);
    }
}

/// How many built-in objects there are.
pub const BUILTIN_OBJECTS: usize = 23;

/// The number of the error prototype among the built-in objects.
pub const ERROR_PROTOTYPE: usize = 6;

/// The parent of a built-in object: errors inherit from the error prototype,
/// `async` functions from the function prototype, and everything else from the
/// object prototype, which has none.
#[verifier::allow_in_spec]
pub fn builtin_parent(i: usize) -> (r: Option<usize>)
    returns
        (if i == 0 {
            None::<usize>
        } else if i == 15 {
            Some(1usize)
        } else if 17 <= i <= 21 {
            Some(ERROR_PROTOTYPE)
        } else {
            Some(0usize)
        }),
{
    if i == 0 {
        None
    } else if i == 15 {
        Some(1)
    } else if 17 <= i && i <= 21 {
        Some(ERROR_PROTOTYPE)
    } else {
        Some(0)
    }
}

/// The numbers of the built-in cells of a new engine.
#[verifier::allow_in_spec]
pub fn builtin_cells() -> (r: Builtins)
    returns
        (Builtins {
            global_object: 22,
            global_env: 23,
            function_prototype: 1,
            object_prototype: 0,
            array_prototype: 2,
            string_prototype: 3,
            number_prototype: 4,
            boolean_prototype: 5,
            error_prototype: 6,
            symbol_prototype: 7,
            bigint_prototype: 8,
            map_prototype: 9,
            set_prototype: 10,
            weakmap_prototype: 11,
            weakset_prototype: 12,
            regexp_prototype: 13,
            promise_prototype: 14,
            async_function_prototype: 15,
            generator_prototype: 16,
            type_error_proto: 17,
            range_error_proto: 18,
            uri_error_proto: 19,
            syntax_error_proto: 20,
            aggregate_error_proto: 21,
        }),
{
    Builtins {
        global_object: 22,
        global_env: 23,
        function_prototype: 1,
        object_prototype: 0,
        array_prototype: 2,
        string_prototype: 3,
        number_prototype: 4,
        boolean_prototype: 5,
        error_prototype: 6,
        symbol_prototype: 7,
        bigint_prototype: 8,
        map_prototype: 9,
        set_prototype: 10,
        weakmap_prototype: 11,
        weakset_prototype: 12,
        regexp_prototype: 13,
        promise_prototype: 14,
        async_function_prototype: 15,
        generator_prototype: 16,
        type_error_proto: 17,
        range_error_proto: 18,
        uri_error_proto: 19,
        syntax_error_proto: 20,
        aggregate_error_proto: 21,
    }
}

/// The built-in objects of a new engine: empty, with their prototype links.
pub open spec fn builtin_objects<'a>(n: nat) -> Seq<CellView<'a>> {
    Seq::new(n, |i: int| CellView::Object(ObjectView { props: Map::empty(), proto: builtin_parent(i as usize), ctor: None }))
}

/// The cells of a new engine: the built-in objects and the global scope.
pub open spec fn initial_cells<'a>() -> Seq<CellView<'a>> {
    builtin_objects(BUILTIN_OBJECTS as nat).push(CellView::Env(fresh_scope(None, true)))
}

/// The realm of a new engine has the built-in prototypes.
pub open spec fn initial_realm(r: RealmInfo) -> bool {
    &&& r.global_env == builtin_cells().global_env
    &&& r.object_prototype == builtin_cells().object_prototype
    &&& r.number_prototype == builtin_cells().number_prototype
    &&& r.string_prototype == builtin_cells().string_prototype
    &&& r.boolean_prototype == builtin_cells().boolean_prototype
    &&& r.promise_prototype == builtin_cells().promise_prototype
    &&& r.error_prototypes@.len() == 6
    &&& r.error_prototypes@[0].0@ == "Error"@ && r.error_prototypes@[0].1 == builtin_cells().error_prototype
    &&& r.error_prototypes@[1].0@ == "TypeError"@ && r.error_prototypes@[1].1 == builtin_cells().type_error_proto
    &&& r.error_prototypes@[2].0@ == "RangeError"@ && r.error_prototypes@[2].1 == builtin_cells().range_error_proto
    &&& r.error_prototypes@[3].0@ == "URIError"@ && r.error_prototypes@[3].1 == builtin_cells().uri_error_proto
    &&& r.error_prototypes@[4].0@ == "SyntaxError"@ && r.error_prototypes@[4].1 == builtin_cells().syntax_error_proto
    &&& r.error_prototypes@[5].0@ == "AggregateError"@ && r.error_prototypes@[5].1 == builtin_cells().aggregate_error_proto
}

impl<'a> Engine<'a> {
    /// A new engine: the built-in objects are there and empty, nothing runs, and no
    /// job or timer waits.
    pub fn new() -> (r: Self)
        ensures
            names_ok(r@.store.n, r@.store.heap.atoms),
            r@.store.heap.cells == initial_cells::<'a>(),
            r@.store.heap.registered == Seq::<usize>::empty(),
            r@.store.b == builtin_cells(),
            !r@.store.strict,
            r@.frames == Seq::<Frame<'a>>::empty(),
            r@.acc == Completion::Normal(None),
            r@.pending is None,
            r@.halted,
            r@.conts == Seq::<Seq<Frame<'a>>>::empty(),
            r@.jobs == Seq::<Job>::empty(),
            r@.unhandled == Seq::<Value>::empty(),
            r@.timers == Seq::<TimerEntry>::empty(),
            r@.cancelled == Set::<u64>::empty(),
            r@.now == 0,
            r@.next_timer == 1,
            r@.ran == 0,
            r@.caps.len() == 0,
            r@.next_cap == 0,
            r@.store.heap.gc_pressure == 0,
            r@.new_target is None && r@.native_ctor is None && r@.native_realm is None && r@.sink is None,
            r@.realms.len() == 1 && r@.realm == 0,
            initial_realm(r@.realms[0]),
            r@.symbols == Map::<usize, usize>::empty(),
            r@.serials.next == 0,
    {
        let mut atoms = Atoms::new();
        let n = Names::new(&mut atoms);
        let mut heap = Heap::new();
        heap.atoms = atoms;
        let mut i: usize = 0;
        while i < BUILTIN_OBJECTS
            invariant
                i <= BUILTIN_OBJECTS,
                heap@.cells == builtin_objects::<'a>(i as nat),
                heap@.registered == Seq::<usize>::empty(),
                heap@.gc_pressure == 0,
                names_ok(n, heap@.atoms),
            decreases BUILTIN_OBJECTS - i,
        {
            let o = match builtin_parent(i) {
                Some(p) => Object::with_proto(p),
                None => Object::new_root(),
            };
            let _ = heap.add_cell(Cell::Object(o));
            i += 1;
            assert(heap@.cells =~= builtin_objects::<'a>(i as nat));
        }
        let _ = heap.add_cell(Cell::Env(Env::new_global()));
        assert(heap@.cells =~= initial_cells::<'a>());
        let b = builtin_cells();
        let mut errors: Vec<(&'static str, usize)> = Vec::new();
        errors.push(("Error", b.error_prototype));
        errors.push(("TypeError", b.type_error_proto));
        errors.push(("RangeError", b.range_error_proto));
        errors.push(("URIError", b.uri_error_proto));
        errors.push(("SyntaxError", b.syntax_error_proto));
        errors.push(("AggregateError", b.aggregate_error_proto));
        let realm = RealmInfo {
            global_env: b.global_env,
            object_prototype: b.object_prototype,
            number_prototype: b.number_prototype,
            string_prototype: b.string_prototype,
            boolean_prototype: b.boolean_prototype,
            promise_prototype: b.promise_prototype,
            error_prototypes: errors,
        };
        let mut realms: Vec<RealmInfo> = Vec::new();
        realms.push(realm);
        let r = Engine {
            store: Store { heap, b, n, strict: false },
            frames: Vec::new(),
            acc: Completion::Normal(None),
            pending: None,
            halted: true,
            conts: Vec::new(),
            jobs: Vec::new(),
            unhandled: Vec::new(),
            timers: Vec::new(),
            cancelled: Vec::new(),
            now: 0,
            next_timer: 1,
            ran: 0,
            caps: Vec::new(),
            next_cap: 0,
            new_target: None,
            native_ctor: None,
            native_realm: None,
            realms,
            realm: 0,
            sink: None,
            symbols: Assoc::new(),
            serials: Serials { next: 0 },
        };
        assert(r@.conts =~= Seq::<Seq<Frame<'a>>>::empty());
        assert(r@.cancelled =~= Set::<u64>::empty()) by {
            assert forall|x: u64| !#[trigger] r.cancelled@.to_set().contains(x) by {
                if r.cancelled@.contains(x) {
                    assert(false);
                }
            }
        }
        r
    }
}

impl<'a> EngineView<'a> {
    /// Answers what the machine asked for, and lets it go on.
    pub open spec fn answer(self, c: Completion) -> EngineView<'a> {
        EngineView { acc: c, pending: None, halted: false, ..self }
    }

    /// Puts a task on top of what is running: control comes back when it is done.
    pub open spec fn begin(self) -> EngineView<'a> {
        EngineView { acc: Completion::Normal(None), pending: None, halted: false, frames: self.frames.push(Frame::Barrier), ..self }
    }

    /// Sets the strictness of the running code.
    pub open spec fn set_strict(self, strict: bool) -> EngineView<'a> {
        self.with_store(crate::store::StoreView { strict, ..self.store })
    }

    /// Starts a task.
    pub open spec fn start(self, task: Task<'a>) -> EngineView<'a> {
        let s = self;
        let s = s.begin();
        match task {
            Task::Eval(p) => {
                let env = s.b().global_env;
                s.set_strict(p.strict).push(Frame::EvalEnd).run_list(&p.stmts, env)
            },
            Task::Call { func, this, list } => s.push(Frame::Call { func: func, this: this, list: list }),
            Task::Construct { func, list, target } => s.construct(func, list, target),
            Task::Generator(g) => s.run_generator_body(g),
            Task::Read { base, key } => s.read_prop(base, key),
            Task::Write { base, key, value } => s.put_member(base, key, value),
            Task::Primitive { value, hint } => s.push(Frame::ToPrim(hint)).ret(value),
            Task::Number(v) => s.push(Frame::NumberEnd).push(Frame::ToPrim(PrimitiveHint::Number)).ret(v),
            Task::Integer(v) => s.push(Frame::IntegerEnd).push(Frame::NumberEnd).push(Frame::ToPrim(PrimitiveHint::Number)).ret(v),
            Task::Text(v) => s.push(Frame::StringOf).push(Frame::ToPrim(PrimitiveHint::String)).ret(v),
            Task::Key(v) => s.push(Frame::ToKey).ret(v),
            Task::Items { value, list } => s.push(Frame::Iterate(value, list)),
            Task::Binary { op, left, right } => s.binary(op, left, right),
            Task::Resolve { promise, value } => s.push(Frame::Resolve(promise, value)),
            Task::Settle { promise, how } => s.settle(promise, how),
            Task::Then { promise, on_fulfilled, on_rejected } => s.perform_then(promise, on_fulfilled, on_rejected),
            Task::Attach { promise, reaction } => s.attach_reaction(promise, reaction),
            Task::Forward { raw, promise, resolve, reject } => s.forward_raw_to_custom(raw, promise, resolve, reject),
            Task::InstanceProto { default, construct } => s.instance_proto(default, construct),
            Task::PromiseProto(t) => s.promise_proto_from_new_target(t),
            Task::Species { obj, default } => s.species_constructor(obj, default),
            Task::Capability(c) => s.promise_capability_new(c),
            Task::Jobs => s.push(Frame::Drain(0)),
            Task::Timers(limit) => s.push(Frame::Timers(0, limit)),
        }
    }

    /// A new list of values.
    pub open spec fn list_of(self, items: &Vec<Value>) -> (EngineView<'a>, usize) {
        (self.with_heap(self.store.heap.plus_cell(CellView::Array(list_data(items@)))), self.store.heap.cells.len() as usize)
    }

    /// Sets a timer, and gives its number.
    pub open spec fn set_timer(self, callback: Value, list: usize, delay: u64, repeat: Option<u64>) -> (EngineView<'a>, u64) {
        (EngineView {
            timers: self.timers.push(TimerEntry { id: self.next_timer, deadline: self.due(delay), callback, args: list, repeat }),
            next_timer: timer_after(self.next_timer),
            ..self
        }, self.next_timer)
    }

    /// Whether a timer is in the queue.
    pub open spec fn has_timer(self, id: u64) -> bool {
        exists|i: int| 0 <= i < self.timers.len() && (#[trigger] self.timers[i]).id == id
    }

    /// Cancels a timer, and says whether it still waited. The cancellation is remembered
    /// in any case: the timer may be running.
    pub open spec fn clear_timer(self, id: u64) -> (EngineView<'a>, bool) {
        (self.cancel(id), self.has_timer(id) && !self.cancelled.contains(id))
    }

    /// Adds a callback to the job queue.
    pub open spec fn queue_microtask(self, callback: Value) -> EngineView<'a> {
        EngineView { jobs: self.jobs.push(Job::Microtask { callback }), ..self }
    }

    /// The value of a symbol, whose description is remembered.
    pub open spec fn symbol(self, data: &SymbolData) -> (EngineView<'a>, Value) {
        let (s, id) = self.intern_name(&data.id);
        match data.description {
            Some(t) => {
                let (u, d) = s.intern_name(&t);
                (EngineView { symbols: u.symbols.insert(id, d), ..u }, Value::Symbol(id))
            },
            None => (s, Value::Symbol(id)),
        }
    }

    /// A fresh symbol, and the engine after it was made.
    pub open spec fn new_symbol(self, description: Option<Seq<char>>) -> (EngineView<'a>, Value) {
        let s = EngineView { serials: Serials { next: (self.serials.next + 1) as u64 }, ..self };
        let id = serial_id(self.serials.next as nat);
        let a = s.store.atom(id);
        let t = s.with_store(s.store.with_text(id));
        match description {
            Some(d) => {
                let u = t.with_store(t.store.with_text(d));
                (EngineView { symbols: u.symbols.insert(a, t.store.atom(d)), ..u }, Value::Symbol(a))
            },
            None => (t, Value::Symbol(a)),
        }
    }
}

impl<'a> Engine<'a> {
    /// Answers what the machine asked for, and lets it go on.
    pub fn answer(&mut self, c: Completion)
        ensures
            final(self)@ == old(self)@.answer(c),
    {
        self.acc = c;
        self.pending = None;
        self.halted = false;
    }

    /// Puts a task on top of what is running: control comes back when it is done.
    pub(crate) fn begin(&mut self)
        ensures
            final(self)@ == old(self)@.begin(),
    {
        self.acc = Completion::Normal(None);
        self.pending = None;
        self.halted = false;
        self.frames.push(Frame::Barrier);
    }

    /// Sets the strictness of the running code.
    pub(crate) fn set_strict(&mut self, strict: bool)
        ensures
            final(self)@ == old(self)@.set_strict(strict),
    {
        self.store.strict = strict;
    }

    /// Starts a task.
    pub fn start(&mut self, task: Task<'a>)
        ensures
            final(self)@ == old(self)@.start(task),
    {
        self.begin();
        match task {
            Task::Eval(p) => {
                let env = self.b().global_env;
                self.set_strict(p.strict); self.push(Frame::EvalEnd); self.run_list(&p.stmts, env);
            },
            Task::Call { func, this, list } => { self.push(Frame::Call { func: func, this: this, list: list }); },
            Task::Construct { func, list, target } => { self.construct(func, list, target); },
            Task::Generator(g) => { self.run_generator_body(g); },
            Task::Read { base, key } => { self.read_prop(base, key); },
            Task::Write { base, key, value } => { self.put_member(base, key, value); },
            Task::Primitive { value, hint } => { self.push(Frame::ToPrim(hint)); self.ret(value); },
            Task::Number(v) => { self.push(Frame::NumberEnd); self.push(Frame::ToPrim(PrimitiveHint::Number)); self.ret(v); },
            Task::Integer(v) => { self.push(Frame::IntegerEnd); self.push(Frame::NumberEnd); self.push(Frame::ToPrim(PrimitiveHint::Number)); self.ret(v); },
            Task::Text(v) => { self.push(Frame::StringOf); self.push(Frame::ToPrim(PrimitiveHint::String)); self.ret(v); },
            Task::Key(v) => { self.push(Frame::ToKey); self.ret(v); },
            Task::Items { value, list } => { self.push(Frame::Iterate(value, list)); },
            Task::Binary { op, left, right } => { self.binary(op, left, right); },
            Task::Resolve { promise, value } => { self.push(Frame::Resolve(promise, value)); },
            Task::Settle { promise, how } => { self.settle(promise, how); },
            Task::Then { promise, on_fulfilled, on_rejected } => { self.perform_then(promise, on_fulfilled, on_rejected); },
            Task::Attach { promise, reaction } => { self.attach_reaction(promise, reaction); },
            Task::Forward { raw, promise, resolve, reject } => { self.forward_raw_to_custom(raw, promise, resolve, reject); },
            Task::InstanceProto { default, construct } => { self.instance_proto(default, construct); },
            Task::PromiseProto(t) => { self.promise_proto_from_new_target(t); },
            Task::Species { obj, default } => { self.species_constructor(obj, default); },
            Task::Capability(c) => { self.promise_capability_new(c); },
            Task::Jobs => { self.push(Frame::Drain(0)); },
            Task::Timers(limit) => { self.push(Frame::Timers(0, limit)); },
        }
    }

    /// A new list of values.
    pub fn list_of(&mut self, items: &Vec<Value>) -> (res: usize)
        ensures
            (final(self)@, res) == old(self)@.list_of(items),
    {
        let mut v: Vec<Value> = Vec::new();
        let mut i: usize = 0;
        while i < items.len()
            invariant
                i <= items@.len(),
                v@ == items@.take(i as int),
            decreases items@.len() - i,
        {
            v.push(items[i]);
            i += 1;
            assert(items@.take(i as int) =~= items@.take(i - 1).push(items@[i - 1]));
        }
        assert(items@.take(i as int) =~= items@);
        self.store.heap.add_cell(Cell::Array(ArrayData::new(v, None)))
    }

    /// Sets a timer, and gives its number.
    pub fn set_timer(&mut self, callback: Value, list: usize, delay: u64, repeat: Option<u64>) -> (res: u64)
        ensures
            (final(self)@, res) == old(self)@.set_timer(callback, list, delay, repeat),
    {
        let id = self.next_timer;
        let deadline = self.due(delay);
        self.next_timer = if id == u64::MAX { 1 } else { id + 1 };
        self.timers.push(TimerEntry { id, deadline, callback, args: list, repeat });
        id
    }

    /// Whether a timer is in the queue.
    pub(crate) fn has_timer(&self, id: u64) -> (res: bool)
        ensures
            res == self@.has_timer(id),
    {
        let mut i: usize = 0;
        while i < self.timers.len()
            invariant
                i <= self.timers@.len(),
                forall|j: int| 0 <= j < i ==> (#[trigger] self.timers@[j]).id != id,
            decreases self.timers@.len() - i,
        {
            if self.timers[i].id == id {
                assert(self@.timers[i as int].id == id);
                return true;
            }
            i += 1;
        }
        false
    }

    /// Cancels a timer, and says whether it still waited. The cancellation is remembered
    /// in any case: the timer may be running.
    pub fn clear_timer(&mut self, id: u64) -> (res: bool)
        ensures
            (final(self)@, res) == old(self)@.clear_timer(id),
    {
        let ghost before = self@;
        let r = self.has_timer(id);
        let hit = self.uncancel(id);
        self.cancel(id);
        assert(self@.cancelled =~= before.cancelled.insert(id));
        r && !hit
    }

    /// Adds a callback to the job queue.
    pub fn queue_microtask(&mut self, callback: Value)
        ensures
            final(self)@ == old(self)@.queue_microtask(callback),
    {
        self.jobs.push(Job::Microtask { callback });
    }

    /// A fresh symbol. Its serial number is the engine's next one.
    pub fn new_symbol(&mut self, description: Option<String>) -> (res: Value)
        requires
            old(self)@.serials.next < u64::MAX,
        ensures
            (final(self)@, res) == old(self)@.new_symbol(match description {
                Some(t) => Some(t@),
                None => None,
            }),
    {
        let data = SymbolData::new(&mut self.serials, description);
        self.symbol(&data)
    }

    /// The value of a symbol, whose description is remembered.
    pub fn symbol(&mut self, data: &SymbolData) -> (res: Value)
        ensures
            (final(self)@, res) == old(self)@.symbol(data),
    {
        let id = self.intern_name(&data.id);
        match &data.description {
            Some(t) => {
                let d = self.intern_name(t);
                self.symbols.insert(id, d);
            },
            None => {},
        }
        Value::Symbol(id)
    }
}

} // verus!
