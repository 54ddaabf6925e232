//! The mark-and-sweep collector.
//!
//! What survives a collection is exactly what the roots reach. Every other
//! registered cell is severed: it loses its outgoing references, so that whole
//! cycles of garbage fall apart. A constructor link, the keys of a `WeakMap` and
//! the entries of a `WeakSet` keep nothing alive. A suspended `await` is opaque
//! to the collector, which therefore does not run while one is being resumed.
use vstd::prelude::*;
use crate::assoc::Assoc;
use crate::heap::{Heap, HeapView};
use crate::value::{
    AllSettledStateView, AllStateView, ArrayDataView, Cell, CellView, EnvView, FunctionView,
    MapDataView, NativeFunctionDataView, ObjectView, PromiseDataView, PromiseReaction,
    PromiseReactionKind, PromiseState, Property, SetDataView, Settlement, Value, WeakMapDataView,
    WeakSetDataView,
};

verus! {

/// The cell that a value refers to.
pub open spec fn value_cell(v: Value) -> Option<usize> {
    match v {
        Value::Object(i) | Value::Array(i) | Value::Function(i) | Value::NativeFunction(i)
        | Value::Regex(i) | Value::MapRef(i) | Value::SetRef(i) | Value::WeakMap(i)
        | Value::WeakSet(i) | Value::Promise(i) => Some(i),
        _ => None,
    }
}

/// The cell that an optional value refers to.
pub open spec fn option_cell(v: Option<Value>) -> Option<usize> {
    match v {
        Some(v) => value_cell(v),
        None => None,
    }
}

/// The value of a settlement.
pub open spec fn settled_value(s: Settlement) -> Value {
    match s {
        Settlement::Fulfilled(v) => v,
        Settlement::Rejected(v) => v,
    }
}

/// Whether a property slot refers to a cell.
pub open spec fn slot_refers(p: Property, id: usize) -> bool {
    value_cell(p.value) == Some(id) || option_cell(p.get) == Some(id) || option_cell(p.set) == Some(id)
}

/// Whether one of a table of properties refers to a cell.
pub open spec fn props_refer(m: Map<usize, Property>, id: usize) -> bool {
    exists|k: usize| #[trigger] m.contains_key(k) && slot_refers(m[k], id)
}

/// Whether one of a sequence of values refers to a cell.
pub open spec fn values_refer(s: Seq<Value>, id: usize) -> bool {
    exists|i: int| 0 <= i < s.len() && value_cell(#[trigger] s[i]) == Some(id)
}

/// Whether one of a sequence of optional values refers to a cell.
pub open spec fn slots_refer(s: Seq<Option<Value>>, id: usize) -> bool {
    exists|i: int| 0 <= i < s.len() && option_cell(#[trigger] s[i]) == Some(id)
}

/// Whether a key (unless keys are weak) or a value of an entry refers to a cell.
pub open spec fn entries_refer(s: Seq<(Value, Value)>, weak: bool, id: usize) -> bool {
    exists|i: int| 0 <= i < s.len() && ((!weak && value_cell((#[trigger] s[i]).0) == Some(id)) || value_cell(s[i].1) == Some(id))
}

/// Whether one of a table of bindings refers to a cell.
pub open spec fn bindings_refer(m: Map<usize, Value>, id: usize) -> bool {
    exists|k: usize| #[trigger] m.contains_key(k) && value_cell(m[k]) == Some(id)
}

/// Whether a reaction refers to a cell.
pub open spec fn reaction_refers(r: PromiseReaction, id: usize) -> bool {
    ||| r.promise == id
    ||| option_cell(r.on_fulfilled) == Some(id)
    ||| option_cell(r.on_rejected) == Some(id)
    ||| match r.kind {
        PromiseReactionKind::Then | PromiseReactionKind::Forward => false,
        PromiseReactionKind::Async { cont } => false,
        PromiseReactionKind::AllElement { index, shared } => shared == id,
        PromiseReactionKind::AllSettled { index, shared } => shared == id,
        PromiseReactionKind::Any { holder, index } => value_cell(holder) == Some(id),
        PromiseReactionKind::Custom { promise, resolve, reject } => value_cell(promise) == Some(id)
            || value_cell(resolve) == Some(id) || value_cell(reject) == Some(id),
        PromiseReactionKind::FinallyCall { cb } => value_cell(cb) == Some(id),
        PromiseReactionKind::FinallyPropagate { original } => value_cell(settled_value(original)) == Some(id),
    }
}

/// Whether one of a promise's reactions refers to a cell.
pub open spec fn reactions_refer(s: Seq<PromiseReaction>, id: usize) -> bool {
    exists|i: int| 0 <= i < s.len() && reaction_refers(#[trigger] s[i], id)
}

/// Whether a cell keeps another one alive.
pub open spec fn refers(c: CellView, id: usize) -> bool {
    match c {
        CellView::Object(d) => props_refer(d.props, id) || d.proto == Some(id),
        CellView::Array(d) => values_refer(d.elems, id) || bindings_refer(d.sparse, id)
            || props_refer(d.props, id) || d.proto == Some(id),
        CellView::Function(d) => props_refer(d.props, id) || d.proto == Some(id)
            || d.super_proto == Some(id) || option_cell(d.super_ctor) == Some(id)
            || option_cell(d.this_capture) == Some(id) || d.closure == id,
        CellView::Native(d) => props_refer(d.props, id) || d.proto == Some(id)
            || option_cell(d.fn_value_proto) == Some(id),
        CellView::MapCell(d) => entries_refer(d.entries, false, id),
        CellView::SetCell(d) => values_refer(d.entries, id),
        CellView::WeakMap(d) => entries_refer(d.entries, true, id),
        CellView::WeakSet(d) => false,
        CellView::Promise(d) => props_refer(d.props, id) || d.proto == Some(id) || match d.state {
            PromiseState::Pending => reactions_refer(d.reactions, id),
            PromiseState::Fulfilled(v) => value_cell(v) == Some(id),
            PromiseState::Rejected(v) => value_cell(v) == Some(id),
        },
        CellView::All(d) => slots_refer(d.results, id),
        CellView::AllSettled(d) => slots_refer(d.results, id),
        CellView::Env(d) => bindings_refer(d.vars, id) || d.outer == Some(id),
        CellView::Regex(d) => false,
    }
}

/// Whether `path` leads through the heap from one of the roots to a cell.
pub open spec fn leads_to(cells: Seq<CellView>, roots: Seq<usize>, path: Seq<usize>, id: usize) -> bool {
    &&& path.len() > 0
    &&& roots.contains(path[0])
    &&& path.last() == id
    &&& forall|i: int| 0 <= i < path.len() ==> (#[trigger] path[i]) < cells.len()
    &&& forall|i: int, j: int| 0 <= i && j == i + 1 && j < path.len() ==> refers(cells[#[trigger] path[i] as int], #[trigger] path[j])
}

/// Whether the roots reach a cell.
pub open spec fn reachable(cells: Seq<CellView>, roots: Seq<usize>, id: usize) -> bool {
    exists|path: Seq<usize>| leads_to(cells, roots, path, id)
}

/// What is left of a cell that was severed.
pub open spec fn severed<'a>(c: CellView<'a>) -> CellView<'a> {
    match c {
        CellView::Object(d) => CellView::Object(ObjectView { props: Map::empty(), proto: None, ctor: None }),
        CellView::Array(d) => CellView::Array(ArrayDataView {
            elems: Seq::empty(),
            sparse: Map::empty(),
            length: 0,
            proto: None,
            props: Map::empty(),
        }),
        CellView::Function(d) => CellView::Function(FunctionView {
            props: Map::empty(),
            proto: None,
            super_proto: None,
            super_ctor: None,
            this_capture: None,
            ..d
        }),
        CellView::Native(d) => CellView::Native(NativeFunctionDataView {
            props: Map::empty(),
            proto: None,
            fn_value_proto: None,
            ..d
        }),
        CellView::MapCell(d) => CellView::MapCell(MapDataView { entries: Seq::empty() }),
        CellView::SetCell(d) => CellView::SetCell(SetDataView { entries: Seq::empty() }),
        CellView::WeakMap(d) => CellView::WeakMap(WeakMapDataView { entries: Seq::empty() }),
        CellView::WeakSet(d) => CellView::WeakSet(WeakSetDataView { entries: Seq::empty() }),
        CellView::Promise(d) => CellView::Promise(PromiseDataView {
            reactions: Seq::empty(),
            props: Map::empty(),
            proto: None,
            ..d
        }),
        CellView::All(d) => CellView::All(AllStateView { results: Seq::empty(), ..d }),
        CellView::AllSettled(d) => CellView::AllSettled(AllSettledStateView { results: Seq::empty(), ..d }),
        CellView::Env(d) => CellView::Env(EnvView {
            vars: Map::empty(),
            constants: Map::empty(),
            outer: None,
            ..d
        }),
        CellView::Regex(d) => CellView::Regex(d),
    }
}

/// Whether a number is marked.
pub open spec fn is_marked(marked: Seq<bool>, id: usize) -> bool {
    id < marked.len() && marked[id as int]
}

/// The heap after a sweep.
pub open spec fn swept<'a>(h: HeapView<'a>, marked: Seq<bool>) -> HeapView<'a> {
    HeapView {
        cells: Seq::new(h.cells.len(), |i: int|
            if h.registered.contains(i as usize) && !is_marked(marked, i as usize) { severed(h.cells[i]) } else { h.cells[i] }),
        atoms: h.atoms,
        registered: h.registered.filter(|id: usize| is_marked(marked, id)),
        gc_pressure: 0,
    }
}

/// The marks that a collection from the roots sets.
pub open spec fn marks(cells: Seq<CellView>, roots: Seq<usize>) -> Seq<bool> {
    Seq::new(cells.len(), |i: int| reachable(cells, roots, i as usize))
}

/// The heap after a collection.
pub open spec fn collected<'a>(h: HeapView<'a>, roots: Seq<usize>) -> HeapView<'a> {
    swept(h, marks(h.cells, roots))
}

/// What a step of marking adds to the work list: exactly what `wanted` holds of.
spec fn adds(before: Seq<usize>, after: Seq<usize>, wanted: spec_fn(usize) -> bool) -> bool {
    &&& before.len() <= after.len()
    &&& forall|i: int| 0 <= i < before.len() ==> after[i] == before[i]
    &&& forall|i: int| before.len() <= i < after.len() ==> wanted(#[trigger] after[i])
    &&& forall|id: usize| #[trigger] wanted(id) ==> after.contains(id)
}

proof fn lemma_adds_compose(a: Seq<usize>, b: Seq<usize>, c: Seq<usize>, p: spec_fn(usize) -> bool, q: spec_fn(usize) -> bool)
    requires
        adds(a, b, p),
        adds(b, c, q),
    ensures
        adds(a, c, |id: usize| p(id) || q(id)),
{
    let r = |id: usize| p(id) || q(id);
    assert forall|i: int| a.len() <= i < c.len() implies r(#[trigger] c[i]) by {
        if i < b.len() {
            assert(p(b[i]));
        } else {
            assert(q(c[i]));
        }
    }
    assert forall|id: usize| #[trigger] r(id) implies c.contains(id) by {
        if p(id) {
            let j = choose|j: int| 0 <= j < b.len() && b[j] == id;
            assert(c[j] == id);
        }
    }
}

proof fn lemma_adds_same(a: Seq<usize>, b: Seq<usize>, p: spec_fn(usize) -> bool, q: spec_fn(usize) -> bool)
    requires
        adds(a, b, p),
        forall|id: usize| #[trigger] q(id) == p(id),
    ensures
        adds(a, b, q),
{
    assert forall|i: int| a.len() <= i < b.len() implies q(#[trigger] b[i]) by {
        assert(p(b[i]));
    }
    assert forall|id: usize| #[trigger] q(id) implies b.contains(id) by {
        assert(p(id));
    }
}

proof fn lemma_adds_none(a: Seq<usize>)
    ensures
        adds(a, a, |id: usize| false),
{
}

/// The cell that a value refers to.
pub(crate) fn cell_of(v: Value) -> (r: Option<usize>)
    ensures
        r == value_cell(v),
{
    match v {
        Value::Object(i) | Value::Array(i) | Value::Function(i) | Value::NativeFunction(i)
        | Value::Regex(i) | Value::MapRef(i) | Value::SetRef(i) | Value::WeakMap(i)
        | Value::WeakSet(i) | Value::Promise(i) => Some(i),
        _ => None,
    }
}

fn push_link(link: Option<usize>, work: &mut Vec<usize>)
    ensures
        adds(old(work)@, final(work)@, |id: usize| link == Some(id)),
{
    match link {
        Some(i) => {
            let ghost before = work@;
            work.push(i);
            assert(work@[before.len() as int] == i);
        },
        None => {},
    }
}

fn push_value(v: Value, work: &mut Vec<usize>)
    ensures
        adds(old(work)@, final(work)@, |id: usize| value_cell(v) == Some(id)),
{
    push_link(cell_of(v), work)
}

fn push_option(v: Option<Value>, work: &mut Vec<usize>)
    ensures
        adds(old(work)@, final(work)@, |id: usize| option_cell(v) == Some(id)),
{
    match v {
        Some(v) => push_value(v, work),
        None => {},
    }
}

fn push_slot(p: Property, work: &mut Vec<usize>)
    ensures
        adds(old(work)@, final(work)@, |id: usize| slot_refers(p, id)),
{
    let ghost w0 = work@;
    push_value(p.value, work);
    let ghost w1 = work@;
    push_option(p.get, work);
    let ghost w2 = work@;
    push_option(p.set, work);
    proof {
        let a = |id: usize| value_cell(p.value) == Some(id);
        let b = |id: usize| option_cell(p.get) == Some(id);
        let c = |id: usize| option_cell(p.set) == Some(id);
        lemma_adds_compose(w0, w1, w2, a, b);
        lemma_adds_compose(w0, w2, work@, |id: usize| a(id) || b(id), c);
        lemma_adds_same(w0, work@, |id: usize| (|id: usize| a(id) || b(id))(id) || c(id), |id: usize| slot_refers(p, id));
    }
}

fn push_props(props: &Assoc<Property>, work: &mut Vec<usize>)
    ensures
        adds(old(work)@, final(work)@, |id: usize| props_refer(props@, id)),
{
    let keys = props.keys();
    let ghost w0 = work@;
    let mut i: usize = 0;
    proof {
        lemma_adds_none(w0);
    }
    while i < keys.len()
        invariant
            i <= keys@.len(),
            forall|k: usize| keys@.contains(k) <==> props@.contains_key(k),
            adds(w0, work@, |id: usize| exists|j: int| 0 <= j < i && slot_refers(props@[#[trigger] keys@[j]], id)),
        decreases keys@.len() - i,
    {
        let ghost w1 = work@;
        let ghost done = |id: usize| exists|j: int| 0 <= j < i && slot_refers(props@[#[trigger] keys@[j]], id);
        let k = keys[i];
        assert(keys@.contains(k));
        match props.get(k) {
            Some(p) => {
                push_slot(p, work);
                proof {
                    let now = |id: usize| slot_refers(p, id);
                    lemma_adds_compose(w0, w1, work@, done, now);
                    let next = |id: usize| exists|j: int| 0 <= j < i + 1 && slot_refers(props@[#[trigger] keys@[j]], id);
                    assert forall|id: usize| #[trigger] next(id) == (done(id) || now(id)) by {
                        if now(id) {
                            assert(slot_refers(props@[keys@[i as int]], id));
                        }
                    }
                    lemma_adds_same(w0, work@, |id: usize| done(id) || now(id), next);
                }
            },
            None => {},
        }
        i += 1;
    }
    proof {
        let done = |id: usize| exists|j: int| 0 <= j < i && slot_refers(props@[#[trigger] keys@[j]], id);
        assert forall|id: usize| #[trigger] props_refer(props@, id) == done(id) by {
            if props_refer(props@, id) {
                let k = choose|k: usize| #[trigger] props@.contains_key(k) && slot_refers(props@[k], id);
                assert(keys@.contains(k));
                let j = choose|j: int| 0 <= j < keys@.len() && keys@[j] == k;
                assert(slot_refers(props@[keys@[j]], id));
            }
            if done(id) {
                let j = choose|j: int| 0 <= j < i && slot_refers(props@[#[trigger] keys@[j]], id);
                assert(keys@.contains(keys@[j]));
                assert(props@.contains_key(keys@[j]));
            }
        }
        lemma_adds_same(w0, work@, done, |id: usize| props_refer(props@, id));
    }
}

fn push_bindings(vars: &Assoc<Value>, work: &mut Vec<usize>)
    ensures
        adds(old(work)@, final(work)@, |id: usize| bindings_refer(vars@, id)),
{
    let keys = vars.keys();
    let ghost w0 = work@;
    let mut i: usize = 0;
    proof {
        lemma_adds_none(w0);
    }
    while i < keys.len()
        invariant
            i <= keys@.len(),
            forall|k: usize| keys@.contains(k) <==> vars@.contains_key(k),
            adds(w0, work@, |id: usize| exists|j: int| 0 <= j < i && value_cell(vars@[#[trigger] keys@[j]]) == Some(id)),
        decreases keys@.len() - i,
    {
        let ghost w1 = work@;
        let ghost done = |id: usize| exists|j: int| 0 <= j < i && value_cell(vars@[#[trigger] keys@[j]]) == Some(id);
        let k = keys[i];
        assert(keys@.contains(k));
        match vars.get(k) {
            Some(v) => {
                push_value(v, work);
                proof {
                    let now = |id: usize| value_cell(v) == Some(id);
                    lemma_adds_compose(w0, w1, work@, done, now);
                    let next = |id: usize| exists|j: int| 0 <= j < i + 1 && value_cell(vars@[#[trigger] keys@[j]]) == Some(id);
                    assert forall|id: usize| #[trigger] next(id) == (done(id) || now(id)) by {
                        if now(id) {
                            assert(value_cell(vars@[keys@[i as int]]) == Some(id));
                        }
                    }
                    lemma_adds_same(w0, work@, |id: usize| done(id) || now(id), next);
                }
            },
            None => {},
        }
        i += 1;
    }
    proof {
        let done = |id: usize| exists|j: int| 0 <= j < i && value_cell(vars@[#[trigger] keys@[j]]) == Some(id);
        assert forall|id: usize| #[trigger] bindings_refer(vars@, id) == done(id) by {
            if bindings_refer(vars@, id) {
                let k = choose|k: usize| #[trigger] vars@.contains_key(k) && value_cell(vars@[k]) == Some(id);
                assert(keys@.contains(k));
                let j = choose|j: int| 0 <= j < keys@.len() && keys@[j] == k;
                assert(value_cell(vars@[keys@[j]]) == Some(id));
            }
            if done(id) {
                let j = choose|j: int| 0 <= j < i && value_cell(vars@[#[trigger] keys@[j]]) == Some(id);
                assert(keys@.contains(keys@[j]));
                assert(vars@.contains_key(keys@[j]));
            }
        }
        lemma_adds_same(w0, work@, done, |id: usize| bindings_refer(vars@, id));
    }
}

fn push_values(items: &Vec<Value>, work: &mut Vec<usize>)
    ensures
        adds(old(work)@, final(work)@, |id: usize| values_refer(items@, id)),
{
    let ghost w0 = work@;
    let mut i: usize = 0;
    proof {
        lemma_adds_none(w0);
    }
    while i < items.len()
        invariant
            i <= items@.len(),
            adds(w0, work@, |id: usize| exists|j: int| 0 <= j < i && value_cell(#[trigger] items@[j]) == Some(id)),
        decreases items@.len() - i,
    {
        let ghost w1 = work@;
        let ghost done = |id: usize| exists|j: int| 0 <= j < i && value_cell(#[trigger] items@[j]) == Some(id);
        push_value(items[i], work);
        proof {
            let it = items@[i as int];
            let now = |id: usize| value_cell(it) == Some(id);
            lemma_adds_compose(w0, w1, work@, done, now);
            let next = |id: usize| exists|j: int| 0 <= j < i + 1 && value_cell(#[trigger] items@[j]) == Some(id);
            assert forall|id: usize| #[trigger] next(id) == (done(id) || now(id)) by {
                if now(id) {
                    assert(value_cell(items@[i as int]) == Some(id));
                }
            }
            lemma_adds_same(w0, work@, |id: usize| done(id) || now(id), next);
        }
        i += 1;
    }
    proof {
        let done = |id: usize| exists|j: int| 0 <= j < i && value_cell(#[trigger] items@[j]) == Some(id);
        lemma_adds_same(w0, work@, done, |id: usize| values_refer(items@, id));
    }
}

fn push_slots(items: &Vec<Option<Value>>, work: &mut Vec<usize>)
    ensures
        adds(old(work)@, final(work)@, |id: usize| slots_refer(items@, id)),
{
    let ghost w0 = work@;
    let mut i: usize = 0;
    proof {
        lemma_adds_none(w0);
    }
    while i < items.len()
        invariant
            i <= items@.len(),
            adds(w0, work@, |id: usize| exists|j: int| 0 <= j < i && option_cell(#[trigger] items@[j]) == Some(id)),
        decreases items@.len() - i,
    {
        let ghost w1 = work@;
        let ghost done = |id: usize| exists|j: int| 0 <= j < i && option_cell(#[trigger] items@[j]) == Some(id);
        push_option(items[i], work);
        proof {
            let it = items@[i as int];
            let now = |id: usize| option_cell(it) == Some(id);
            lemma_adds_compose(w0, w1, work@, done, now);
            let next = |id: usize| exists|j: int| 0 <= j < i + 1 && option_cell(#[trigger] items@[j]) == Some(id);
            assert forall|id: usize| #[trigger] next(id) == (done(id) || now(id)) by {
                if now(id) {
                    assert(option_cell(items@[i as int]) == Some(id));
                }
            }
            lemma_adds_same(w0, work@, |id: usize| done(id) || now(id), next);
        }
        i += 1;
    }
    proof {
        let done = |id: usize| exists|j: int| 0 <= j < i && option_cell(#[trigger] items@[j]) == Some(id);
        lemma_adds_same(w0, work@, done, |id: usize| slots_refer(items@, id));
    }
}

fn push_reaction(r: PromiseReaction, work: &mut Vec<usize>)
    ensures
        adds(old(work)@, final(work)@, |id: usize| reaction_refers(r, id)),
{
    let ghost w0 = work@;
    push_link(Some(r.promise), work);
    let ghost w1 = work@;
    push_option(r.on_fulfilled, work);
    let ghost w2 = work@;
    push_option(r.on_rejected, work);
    let ghost w3 = work@;
    let ghost a = |id: usize| Some(r.promise) == Some(id);
    let ghost b = |id: usize| option_cell(r.on_fulfilled) == Some(id);
    let ghost c = |id: usize| option_cell(r.on_rejected) == Some(id);
    let ghost abc = |id: usize| (|id: usize| a(id) || b(id))(id) || c(id);
    proof {
        lemma_adds_compose(w0, w1, w2, a, b);
        lemma_adds_compose(w0, w2, w3, |id: usize| a(id) || b(id), c);
    }
    let ghost goal = |id: usize| reaction_refers(r, id);
    match r.kind {
        PromiseReactionKind::Then | PromiseReactionKind::Forward => {
            proof {
                lemma_adds_same(w0, work@, abc, goal);
            }
        },
        PromiseReactionKind::Async { cont } => {
            proof {
                lemma_adds_same(w0, work@, abc, goal);
            }
        },
        PromiseReactionKind::AllElement { index, shared } => {
            push_link(Some(shared), work);
            proof {
                let d = |id: usize| Some(shared) == Some(id);
                lemma_adds_compose(w0, w3, work@, abc, d);
                lemma_adds_same(w0, work@, |id: usize| abc(id) || d(id), goal);
            }
        },
        PromiseReactionKind::AllSettled { index, shared } => {
            push_link(Some(shared), work);
            proof {
                let d = |id: usize| Some(shared) == Some(id);
                lemma_adds_compose(w0, w3, work@, abc, d);
                lemma_adds_same(w0, work@, |id: usize| abc(id) || d(id), goal);
            }
        },
        PromiseReactionKind::Any { holder, index } => {
            push_value(holder, work);
            proof {
                let d = |id: usize| value_cell(holder) == Some(id);
                lemma_adds_compose(w0, w3, work@, abc, d);
                lemma_adds_same(w0, work@, |id: usize| abc(id) || d(id), goal);
            }
        },
        PromiseReactionKind::Custom { promise, resolve, reject } => {
            push_value(promise, work);
            let ghost w4 = work@;
            push_value(resolve, work);
            let ghost w5 = work@;
            push_value(reject, work);
            proof {
                let d = |id: usize| value_cell(promise) == Some(id);
                let e = |id: usize| value_cell(resolve) == Some(id);
                let f = |id: usize| value_cell(reject) == Some(id);
                lemma_adds_compose(w0, w3, w4, abc, d);
                let x = |id: usize| abc(id) || d(id);
                lemma_adds_compose(w0, w4, w5, x, e);
                let y = |id: usize| x(id) || e(id);
                lemma_adds_compose(w0, w5, work@, y, f);
                lemma_adds_same(w0, work@, |id: usize| y(id) || f(id), goal);
            }
        },
        PromiseReactionKind::FinallyCall { cb } => {
            push_value(cb, work);
            proof {
                let d = |id: usize| value_cell(cb) == Some(id);
                lemma_adds_compose(w0, w3, work@, abc, d);
                lemma_adds_same(w0, work@, |id: usize| abc(id) || d(id), goal);
            }
        },
        PromiseReactionKind::FinallyPropagate { original } => {
            mark_settlement(original, work);
            proof {
                let d = |id: usize| value_cell(settled_value(original)) == Some(id);
                lemma_adds_compose(w0, w3, work@, abc, d);
                lemma_adds_same(w0, work@, |id: usize| abc(id) || d(id), goal);
            }
        },
    }
}

/// Puts the value of a settlement on the work list.
fn mark_settlement(s: Settlement, work: &mut Vec<usize>)
    ensures
        adds(old(work)@, final(work)@, |id: usize| value_cell(settled_value(s)) == Some(id)),
{
    match s {
        Settlement::Fulfilled(v) => push_value(v, work),
        Settlement::Rejected(v) => push_value(v, work),
    }
}

fn push_reactions(items: &Vec<PromiseReaction>, work: &mut Vec<usize>)
    ensures
        adds(old(work)@, final(work)@, |id: usize| reactions_refer(items@, id)),
{
    let ghost w0 = work@;
    let mut i: usize = 0;
    proof {
        lemma_adds_none(w0);
    }
    while i < items.len()
        invariant
            i <= items@.len(),
            adds(w0, work@, |id: usize| exists|j: int| 0 <= j < i && reaction_refers(#[trigger] items@[j], id)),
        decreases items@.len() - i,
    {
        let ghost w1 = work@;
        let ghost done = |id: usize| exists|j: int| 0 <= j < i && reaction_refers(#[trigger] items@[j], id);
        push_reaction(items[i], work);
        proof {
            let it = items@[i as int];
            let now = |id: usize| reaction_refers(it, id);
            lemma_adds_compose(w0, w1, work@, done, now);
            let next = |id: usize| exists|j: int| 0 <= j < i + 1 && reaction_refers(#[trigger] items@[j], id);
            assert forall|id: usize| #[trigger] next(id) == (done(id) || now(id)) by {
                if now(id) {
                    assert(reaction_refers(items@[i as int], id));
                }
            }
            lemma_adds_same(w0, work@, |id: usize| done(id) || now(id), next);
        }
        i += 1;
    }
    proof {
        let done = |id: usize| exists|j: int| 0 <= j < i && reaction_refers(#[trigger] items@[j], id);
        lemma_adds_same(w0, work@, done, |id: usize| reactions_refer(items@, id));
    }
}

fn push_entries(items: &Vec<(Value, Value)>, weak: bool, work: &mut Vec<usize>)
    ensures
        adds(old(work)@, final(work)@, |id: usize| entries_refer(items@, weak, id)),
{
    let ghost w0 = work@;
    let mut i: usize = 0;
    proof {
        lemma_adds_none(w0);
    }
    while i < items.len()
        invariant
            i <= items@.len(),
            adds(w0, work@, |id: usize| exists|j: int| 0 <= j < i && ((!weak && value_cell((#[trigger] items@[j]).0) == Some(id)) || value_cell(items@[j].1) == Some(id))),
        decreases items@.len() - i,
    {
        let ghost w1 = work@;
        let ghost done = |id: usize| exists|j: int| 0 <= j < i && ((!weak && value_cell((#[trigger] items@[j]).0) == Some(id)) || value_cell(items@[j].1) == Some(id));
        let it = items[i];
        let ghost key = |id: usize| !weak && value_cell(it.0) == Some(id);
        if !weak {
            push_value(it.0, work);
            proof {
                lemma_adds_same(w1, work@, |id: usize| value_cell(it.0) == Some(id), key);
            }
        } else {
            proof {
                lemma_adds_none(w1);
                lemma_adds_same(w1, work@, |id: usize| false, key);
            }
        }
        let ghost w2 = work@;
        push_value(it.1, work);
        proof {
            let val = |id: usize| value_cell(it.1) == Some(id);
            lemma_adds_compose(w0, w1, w2, done, key);
            let x = |id: usize| done(id) || key(id);
            lemma_adds_compose(w0, w2, work@, x, val);
            let next = |id: usize| exists|j: int| 0 <= j < i + 1 && ((!weak && value_cell((#[trigger] items@[j]).0) == Some(id)) || value_cell(items@[j].1) == Some(id));
            assert forall|id: usize| #[trigger] next(id) == (x(id) || val(id)) by {
                if key(id) || val(id) {
                    assert(items@[i as int] == it);
                }
            }
            lemma_adds_same(w0, work@, |id: usize| x(id) || val(id), next);
        }
        i += 1;
    }
    proof {
        let done = |id: usize| exists|j: int| 0 <= j < i && ((!weak && value_cell((#[trigger] items@[j]).0) == Some(id)) || value_cell(items@[j].1) == Some(id));
        lemma_adds_same(w0, work@, done, |id: usize| entries_refer(items@, weak, id));
    }
}

/// Puts every cell that `c` keeps alive on the work list.
fn mark_refs<'a>(c: &Cell<'a>, work: &mut Vec<usize>)
    ensures
        adds(old(work)@, final(work)@, |id: usize| refers(c@, id)),
{
    let ghost w0 = work@;
    let ghost goal = |id: usize| refers(c@, id);
    proof {
        lemma_adds_none(w0);
    }
    match c {
        Cell::Object(d) => {
            push_props(&d.props, work);
            let ghost w1 = work@;
            push_link(d.proto, work);
            let ghost w2 = work@;
            proof {
                let p1 = |id: usize| props_refer(c@->Object_0.props, id);
                let p2 = |id: usize| c@->Object_0.proto == Some(id);
                let p0 = |id: usize| false;
                lemma_adds_compose(w0, w0, w1, p0, p1);
                let q1 = |id: usize| p0(id) || p1(id);
                lemma_adds_compose(w0, w1, w2, q1, p2);
                let q2 = |id: usize| q1(id) || p2(id);
                lemma_adds_same(w0, work@, q2, goal);
            }
        },
        Cell::Array(d) => {
            push_values(&d.elems, work);
            let ghost w1 = work@;
            push_bindings(&d.sparse, work);
            let ghost w2 = work@;
            push_props(&d.props, work);
            let ghost w3 = work@;
            push_link(d.proto, work);
            let ghost w4 = work@;
            proof {
                let p1 = |id: usize| values_refer(c@->Array_0.elems, id);
                let p2 = |id: usize| bindings_refer(c@->Array_0.sparse, id);
                let p3 = |id: usize| props_refer(c@->Array_0.props, id);
                let p4 = |id: usize| c@->Array_0.proto == Some(id);
                let p0 = |id: usize| false;
                lemma_adds_compose(w0, w0, w1, p0, p1);
                let q1 = |id: usize| p0(id) || p1(id);
                lemma_adds_compose(w0, w1, w2, q1, p2);
                let q2 = |id: usize| q1(id) || p2(id);
                lemma_adds_compose(w0, w2, w3, q2, p3);
                let q3 = |id: usize| q2(id) || p3(id);
                lemma_adds_compose(w0, w3, w4, q3, p4);
                let q4 = |id: usize| q3(id) || p4(id);
                lemma_adds_same(w0, work@, q4, goal);
            }
        },
        Cell::Function(d) => {
            push_props(&d.props, work);
            let ghost w1 = work@;
            push_link(d.proto, work);
            let ghost w2 = work@;
            push_link(d.super_proto, work);
            let ghost w3 = work@;
            push_option(d.super_ctor, work);
            let ghost w4 = work@;
            push_option(d.this_capture, work);
            let ghost w5 = work@;
            push_link(Some(d.closure), work);
            let ghost w6 = work@;
            proof {
                let p1 = |id: usize| props_refer(c@->Function_0.props, id);
                let p2 = |id: usize| c@->Function_0.proto == Some(id);
                let p3 = |id: usize| c@->Function_0.super_proto == Some(id);
                let p4 = |id: usize| option_cell(c@->Function_0.super_ctor) == Some(id);
                let p5 = |id: usize| option_cell(c@->Function_0.this_capture) == Some(id);
                let p6 = |id: usize| Some(c@->Function_0.closure) == Some(id);
                let p0 = |id: usize| false;
                lemma_adds_compose(w0, w0, w1, p0, p1);
                let q1 = |id: usize| p0(id) || p1(id);
                lemma_adds_compose(w0, w1, w2, q1, p2);
                let q2 = |id: usize| q1(id) || p2(id);
                lemma_adds_compose(w0, w2, w3, q2, p3);
                let q3 = |id: usize| q2(id) || p3(id);
                lemma_adds_compose(w0, w3, w4, q3, p4);
                let q4 = |id: usize| q3(id) || p4(id);
                lemma_adds_compose(w0, w4, w5, q4, p5);
                let q5 = |id: usize| q4(id) || p5(id);
                lemma_adds_compose(w0, w5, w6, q5, p6);
                let q6 = |id: usize| q5(id) || p6(id);
                lemma_adds_same(w0, work@, q6, goal);
            }
        },
        Cell::Native(d) => {
            push_props(&d.props, work);
            let ghost w1 = work@;
            push_link(d.proto, work);
            let ghost w2 = work@;
            push_option(d.fn_value_proto, work);
            let ghost w3 = work@;
            proof {
                let p1 = |id: usize| props_refer(c@->Native_0.props, id);
                let p2 = |id: usize| c@->Native_0.proto == Some(id);
                let p3 = |id: usize| option_cell(c@->Native_0.fn_value_proto) == Some(id);
                let p0 = |id: usize| false;
                lemma_adds_compose(w0, w0, w1, p0, p1);
                let q1 = |id: usize| p0(id) || p1(id);
                lemma_adds_compose(w0, w1, w2, q1, p2);
                let q2 = |id: usize| q1(id) || p2(id);
                lemma_adds_compose(w0, w2, w3, q2, p3);
                let q3 = |id: usize| q2(id) || p3(id);
                lemma_adds_same(w0, work@, q3, goal);
            }
        },
        Cell::MapCell(d) => {
            push_entries(&d.entries, false, work);
            let ghost w1 = work@;
            proof {
                let p1 = |id: usize| entries_refer(c@->MapCell_0.entries, false, id);
                let p0 = |id: usize| false;
                lemma_adds_compose(w0, w0, w1, p0, p1);
                let q1 = |id: usize| p0(id) || p1(id);
                lemma_adds_same(w0, work@, q1, goal);
            }
        },
        Cell::SetCell(d) => {
            push_values(&d.entries, work);
            let ghost w1 = work@;
            proof {
                let p1 = |id: usize| values_refer(c@->SetCell_0.entries, id);
                let p0 = |id: usize| false;
                lemma_adds_compose(w0, w0, w1, p0, p1);
                let q1 = |id: usize| p0(id) || p1(id);
                lemma_adds_same(w0, work@, q1, goal);
            }
        },
        Cell::WeakMap(d) => {
            push_entries(&d.entries, true, work);
            let ghost w1 = work@;
            proof {
                let p1 = |id: usize| entries_refer(c@->WeakMap_0.entries, true, id);
                let p0 = |id: usize| false;
                lemma_adds_compose(w0, w0, w1, p0, p1);
                let q1 = |id: usize| p0(id) || p1(id);
                lemma_adds_same(w0, work@, q1, goal);
            }
        },
        Cell::WeakSet(_) => {
            proof {
                let p0 = |id: usize| false;
                lemma_adds_same(w0, work@, p0, goal);
            }
        },
        Cell::All(d) => {
            push_slots(&d.results, work);
            let ghost w1 = work@;
            proof {
                let p1 = |id: usize| slots_refer(c@->All_0.results, id);
                let p0 = |id: usize| false;
                lemma_adds_compose(w0, w0, w1, p0, p1);
                let q1 = |id: usize| p0(id) || p1(id);
                lemma_adds_same(w0, work@, q1, goal);
            }
        },
        Cell::AllSettled(d) => {
            push_slots(&d.results, work);
            let ghost w1 = work@;
            proof {
                let p1 = |id: usize| slots_refer(c@->AllSettled_0.results, id);
                let p0 = |id: usize| false;
                lemma_adds_compose(w0, w0, w1, p0, p1);
                let q1 = |id: usize| p0(id) || p1(id);
                lemma_adds_same(w0, work@, q1, goal);
            }
        },
        Cell::Env(d) => {
            push_bindings(&d.vars, work);
            let ghost w1 = work@;
            push_link(d.outer, work);
            let ghost w2 = work@;
            proof {
                let p1 = |id: usize| bindings_refer(c@->Env_0.vars, id);
                let p2 = |id: usize| c@->Env_0.outer == Some(id);
                let p0 = |id: usize| false;
                lemma_adds_compose(w0, w0, w1, p0, p1);
                let q1 = |id: usize| p0(id) || p1(id);
                lemma_adds_compose(w0, w1, w2, q1, p2);
                let q2 = |id: usize| q1(id) || p2(id);
                lemma_adds_same(w0, work@, q2, goal);
            }
        },
        Cell::Regex(_) => {
            proof {
                let p0 = |id: usize| false;
                lemma_adds_same(w0, work@, p0, goal);
            }
        },
        Cell::Promise(d) => {
            match d.state {
                PromiseState::Pending => {
                    push_props(&d.props, work);
                    let ghost w1 = work@;
                    push_link(d.proto, work);
                    let ghost w2 = work@;
                    push_reactions(&d.reactions, work);
                    let ghost w3 = work@;
                    proof {
                        let p1 = |id: usize| props_refer(c@->Promise_0.props, id);
                        let p2 = |id: usize| c@->Promise_0.proto == Some(id);
                        let p3 = |id: usize| reactions_refer(c@->Promise_0.reactions, id);
                        let p0 = |id: usize| false;
                        lemma_adds_compose(w0, w0, w1, p0, p1);
                        let q1 = |id: usize| p0(id) || p1(id);
                        lemma_adds_compose(w0, w1, w2, q1, p2);
                        let q2 = |id: usize| q1(id) || p2(id);
                        lemma_adds_compose(w0, w2, w3, q2, p3);
                        let q3 = |id: usize| q2(id) || p3(id);
                        lemma_adds_same(w0, work@, q3, goal);
                    }
                },
                PromiseState::Fulfilled(v) => {
                    push_props(&d.props, work);
                    let ghost w1 = work@;
                    push_link(d.proto, work);
                    let ghost w2 = work@;
                    push_value(v, work);
                    let ghost w3 = work@;
                    proof {
                        let p1 = |id: usize| props_refer(c@->Promise_0.props, id);
                        let p2 = |id: usize| c@->Promise_0.proto == Some(id);
                        let p3 = |id: usize| value_cell(v) == Some(id);
                        let p0 = |id: usize| false;
                        lemma_adds_compose(w0, w0, w1, p0, p1);
                        let q1 = |id: usize| p0(id) || p1(id);
                        lemma_adds_compose(w0, w1, w2, q1, p2);
                        let q2 = |id: usize| q1(id) || p2(id);
                        lemma_adds_compose(w0, w2, w3, q2, p3);
                        let q3 = |id: usize| q2(id) || p3(id);
                        lemma_adds_same(w0, work@, q3, goal);
                    }
                },
                PromiseState::Rejected(v) => {
                    push_props(&d.props, work);
                    let ghost w1 = work@;
                    push_link(d.proto, work);
                    let ghost w2 = work@;
                    push_value(v, work);
                    let ghost w3 = work@;
                    proof {
                        let p1 = |id: usize| props_refer(c@->Promise_0.props, id);
                        let p2 = |id: usize| c@->Promise_0.proto == Some(id);
                        let p3 = |id: usize| value_cell(v) == Some(id);
                        let p0 = |id: usize| false;
                        lemma_adds_compose(w0, w0, w1, p0, p1);
                        let q1 = |id: usize| p0(id) || p1(id);
                        lemma_adds_compose(w0, w1, w2, q1, p2);
                        let q2 = |id: usize| q1(id) || p2(id);
                        lemma_adds_compose(w0, w2, w3, q2, p3);
                        let q3 = |id: usize| q2(id) || p3(id);
                        lemma_adds_same(w0, work@, q3, goal);
                    }
                },
            }
        },
    }
}

/// How many marks are not set.
spec fn unset(marked: Seq<bool>) -> nat
    decreases marked.len(),
{
    if marked.len() == 0 {
        0
    } else {
        unset(marked.drop_last()) + (if marked.last() { 0nat } else { 1nat })
    }
}

proof fn lemma_set_one(marked: Seq<bool>, i: int)
    requires
        0 <= i < marked.len(),
        !marked[i],
    ensures
        unset(marked.update(i, true)) + 1 == unset(marked),
    decreases marked.len(),
{
    let after = marked.update(i, true);
    if i == marked.len() - 1 {
        assert(after.drop_last() =~= marked.drop_last());
    } else {
        assert(after.drop_last() =~= marked.drop_last().update(i, true));
        lemma_set_one(marked.drop_last(), i);
    }
}

proof fn lemma_step(cells: Seq<CellView>, roots: Seq<usize>, from: usize, to: usize)
    requires
        reachable(cells, roots, from),
        refers(cells[from as int], to),
        to < cells.len(),
    ensures
        reachable(cells, roots, to),
{
    let path = choose|path: Seq<usize>| leads_to(cells, roots, path, from);
    let longer = path.push(to);
    assert(leads_to(cells, roots, longer, to)) by {
        assert(longer[0] == path[0]);
        assert forall|i: int, j: int| 0 <= i && j == i + 1 && j < longer.len() implies refers(cells[#[trigger] longer[i] as int], #[trigger] longer[j]) by {
            if j < path.len() {
                assert(refers(cells[path[i] as int], path[j]));
            } else {
                assert(path[i] == from);
            }
        }
    }
}

/// Whether every root and every cell that a marked cell keeps alive is marked or
/// waits on the work list.
spec fn covers(cells: Seq<CellView>, roots: Seq<usize>, marked: Seq<bool>, work: Seq<usize>) -> bool {
    &&& forall|r: usize| roots.contains(r) && r < cells.len() ==> #[trigger] is_marked(marked, r) || work.contains(r)
    &&& forall|i: usize, j: usize| #[trigger] is_marked(marked, i) && #[trigger] refers(cells[i as int], j) && j < cells.len() ==> is_marked(marked, j) || work.contains(j)
}

proof fn lemma_covered(cells: Seq<CellView>, roots: Seq<usize>, marked: Seq<bool>, path: Seq<usize>, id: usize, n: int)
    requires
        marked.len() == cells.len(),
        covers(cells, roots, marked, Seq::empty()),
        leads_to(cells, roots, path, id),
        0 <= n < path.len(),
    ensures
        is_marked(marked, path[n]),
    decreases n,
{
    if n > 0 {
        lemma_covered(cells, roots, marked, path, id, n - 1);
        assert(refers(cells[path[n - 1] as int], path[n]));
    } else {
        assert(is_marked(marked, path[0]) || Seq::<usize>::empty().contains(path[0]));
    }
}

/// Marks what the roots reach.
pub fn mark<'a>(cells: &Vec<Cell<'a>>, roots: &Vec<usize>) -> (r: Vec<bool>)
    ensures
        r@ == marks(cells@.map_values(|c: Cell<'a>| c@), roots@),
{
    let ghost view = cells@.map_values(|c: Cell<'a>| c@);
    let mut marked: Vec<bool> = Vec::new();
    let mut n: usize = 0;
    while n < cells.len()
        invariant
            n <= cells@.len(),
            marked@.len() == n,
            forall|i: int| 0 <= i < n ==> !(#[trigger] marked@[i]),
        decreases cells@.len() - n,
    {
        marked.push(false);
        n += 1;
    }
    let mut work: Vec<usize> = Vec::new();
    let mut k: usize = 0;
    while k < roots.len()
        invariant
            k <= roots@.len(),
            work@ == roots@.take(k as int),
        decreases roots@.len() - k,
    {
        work.push(roots[k]);
        k += 1;
        assert(work@ =~= roots@.take(k as int));
    }
    assert(work@ =~= roots@);
    assert forall|i: int| 0 <= i < work@.len() && work@[i] < view.len() implies reachable(view, roots@, #[trigger] work@[i]) by {
        let path = seq![work@[i]];
        assert(leads_to(view, roots@, path, work@[i]));
    }
    while work.len() > 0
        invariant
            view == cells@.map_values(|c: Cell<'a>| c@),
            marked@.len() == cells@.len(),
            view.len() == cells@.len(),
            covers(view, roots@, marked@, work@),
            forall|i: usize| #[trigger] is_marked(marked@, i) ==> reachable(view, roots@, i),
            forall|i: int| 0 <= i < work@.len() && work@[i] < view.len() ==> reachable(view, roots@, #[trigger] work@[i]),
        decreases unset(marked@), work@.len(),
    {
        let ghost w0 = work@;
        let id = work.pop().unwrap();
        let ghost w1 = work@;
        assert(w0[w0.len() - 1] == id);
        if id < cells.len() && !marked[id] {
            let ghost m0 = marked@;
            proof {
                lemma_set_one(m0, id as int);
            }
            marked.set(id, true);
            mark_refs(&cells[id], &mut work);
            proof {
                let p = |j: usize| refers(cells@[id as int]@, j);
                assert(view[id as int] == cells@[id as int]@);
                assert forall|r: usize| roots@.contains(r) && r < view.len() implies #[trigger] is_marked(marked@, r) || work@.contains(r) by {
                    assert(is_marked(m0, r) || w0.contains(r));
                    if !is_marked(m0, r) && r != id {
                        let x = choose|x: int| 0 <= x < w0.len() && w0[x] == r;
                        assert(w1[x] == r);
                        assert(work@[x] == r);
                    }
                }
                assert forall|i: usize, j: usize| #[trigger] is_marked(marked@, i) && #[trigger] refers(view[i as int], j) && j < view.len() implies is_marked(marked@, j) || work@.contains(j) by {
                    if i == id {
                        assert(p(j));
                    } else {
                        assert(is_marked(m0, i));
                        assert(is_marked(m0, j) || w0.contains(j));
                        if !is_marked(m0, j) && j != id {
                            let x = choose|x: int| 0 <= x < w0.len() && w0[x] == j;
                            assert(w1[x] == j);
                            assert(work@[x] == j);
                        }
                    }
                }
                assert(reachable(view, roots@, id));
                assert forall|i: usize| #[trigger] is_marked(marked@, i) implies reachable(view, roots@, i) by {
                    if i != id {
                        assert(is_marked(m0, i));
                    }
                }
                assert forall|i: int| 0 <= i < work@.len() && work@[i] < view.len() implies reachable(view, roots@, #[trigger] work@[i]) by {
                    if i < w1.len() {
                        assert(work@[i] == w0[i]);
                    } else {
                        assert(p(work@[i]));
                        lemma_step(view, roots@, id, work@[i]);
                    }
                }
            }
        } else {
            proof {
                assert forall|r: usize| roots@.contains(r) && r < view.len() implies #[trigger] is_marked(marked@, r) || work@.contains(r) by {
                    if !is_marked(marked@, r) {
                        let x = choose|x: int| 0 <= x < w0.len() && w0[x] == r;
                        assert(w1[x] == r);
                    }
                }
                assert forall|i: usize, j: usize| #[trigger] is_marked(marked@, i) && #[trigger] refers(view[i as int], j) && j < view.len() implies is_marked(marked@, j) || work@.contains(j) by {
                    if !is_marked(marked@, j) {
                        let x = choose|x: int| 0 <= x < w0.len() && w0[x] == j;
                        assert(w1[x] == j);
                    }
                }
            }
        }
    }
    proof {
        assert(work@ =~= Seq::<usize>::empty());
        assert forall|i: int| 0 <= i < marked@.len() implies marked@[i] == reachable(view, roots@, i as usize) by {
            if reachable(view, roots@, i as usize) {
                let id = i as usize;
                let path = choose|path: Seq<usize>| leads_to(view, roots@, path, id);
                lemma_covered(view, roots@, marked@, path, id, path.len() - 1);
            }
            if marked@[i] {
                assert(is_marked(marked@, i as usize));
            }
        }
        assert(marked@ =~= marks(view, roots@));
    }
    marked
}

fn sever<'a>(c: &mut Cell<'a>)
    ensures
        final(c)@ == severed(old(c)@),
{
    let ghost before = c@;
    match c {
        Cell::Object(d) => {
            d.props.clear();
            d.proto = None;
            d.ctor = None;
        },
        Cell::Array(d) => {
            d.elems = Vec::new();
            d.sparse.clear();
            d.length = 0;
            d.proto = None;
            d.props.clear();
        },
        Cell::Function(d) => {
            d.props.clear();
            d.proto = None;
            d.super_proto = None;
            d.super_ctor = None;
            d.this_capture = None;
        },
        Cell::Native(d) => {
            d.props.clear();
            d.proto = None;
            d.fn_value_proto = None;
        },
        Cell::MapCell(d) => {
            d.entries = Vec::new();
        },
        Cell::SetCell(d) => {
            d.entries = Vec::new();
        },
        Cell::WeakMap(d) => {
            d.entries = Vec::new();
        },
        Cell::WeakSet(d) => {
            d.entries = Vec::new();
        },
        Cell::Promise(d) => {
            d.reactions = Vec::new();
            d.props.clear();
            d.proto = None;
        },
        Cell::All(d) => {
            d.results = Vec::new();
        },
        Cell::AllSettled(d) => {
            d.results = Vec::new();
        },
        Cell::Env(d) => {
            d.vars.clear();
            d.constants.clear();
            d.outer = None;
        },
        Cell::Regex(d) => {},
    }
    assert(c@ =~= severed(before));
}

/// Severing twice is severing once.
proof fn lemma_severed_twice(c: CellView)
    ensures
        severed(severed(c)) == severed(c),
{
    assert(severed(severed(c)) =~= severed(c));
}

impl<'a> Heap<'a> {
    /// Severs every registered cell without a mark and forgets it; marked cells
    /// stay as they are.
    pub fn sweep(&mut self, marked: &Vec<bool>)
        ensures
            final(self)@ == swept(old(self)@, marked@),
    {
        let ghost h = self@;
        let mut keep: Vec<usize> = Vec::new();
        let mut i: usize = 0;
        let ghost keeps = |id: usize| is_marked(marked@, id);
        assert(h.registered.take(0).filter(keeps) =~= Seq::<usize>::empty()) by {
            reveal(Seq::filter);
        }
        while i < self.registered.len()
            invariant
                self.registered@ == h.registered,
                self.atoms@ == h.atoms,
                i <= h.registered.len(),
                keeps == (|id: usize| is_marked(marked@, id)),
                keep@ == h.registered.take(i as int).filter(keeps),
                self@.cells.len() == h.cells.len(),
                forall|j: int| 0 <= j < h.cells.len() ==> #[trigger] self@.cells[j]
                    == (if h.registered.take(i as int).contains(j as usize) && !is_marked(marked@, j as usize) { severed(h.cells[j]) } else { h.cells[j] }),
            decreases h.registered.len() - i,
        {
            let id = self.registered[i];
            let ghost before = self@;
            let ghost seen = h.registered.take(i as int);
            let ghost next = h.registered.take(i + 1);
            proof {
                assert(next =~= seen.push(id));
                assert(next.drop_last() =~= seen);
                reveal(Seq::filter);
                assert forall|j: usize| next.contains(j) == (seen.contains(j) || j == id) by {
                    if seen.contains(j) {
                        let x = choose|x: int| 0 <= x < seen.len() && seen[x] == j;
                        assert(next[x] == j);
                    }
                    if j == id {
                        assert(next[i as int] == id);
                    }
                    if next.contains(j) {
                        let x = choose|x: int| 0 <= x < next.len() && next[x] == j;
                        if x < i {
                            assert(seen[x] == j);
                        }
                    }
                }
            }
            if id < marked.len() && marked[id] {
                keep.push(id);
            } else if id < self.cells.len() {
                assert(before.cells[id as int] == self.cells@[id as int]@);
                sever(&mut self.cells[id]);
                proof {
                    lemma_severed_twice(h.cells[id as int]);
                    assert(self@.cells =~= before.cells.update(id as int, severed(before.cells[id as int])));
                }
            }
            i += 1;
        }
        assert(h.registered.take(i as int) =~= h.registered);
        self.registered = keep;
        self.gc_pressure = 0;
        assert(self@ =~= swept(h, marked@));
    }

    /// Collects garbage: what survives is exactly what the roots reach.
    pub fn collect(&mut self, roots: &Vec<usize>)
        ensures
            final(self)@ == collected(old(self)@, roots@),
    {
        let marked = mark(&self.cells, roots);
        self.sweep(&marked);
    }
}

proof fn lemma_path_survives(h: HeapView, roots: Seq<usize>, path: Seq<usize>, id: usize, n: int)
    requires
        leads_to(h.cells, roots, path, id),
        0 <= n < path.len(),
    ensures
        reachable(h.cells, roots, path[n]),
    decreases n,
{
    let part = path.take(n + 1);
    assert(leads_to(h.cells, roots, part, path[n])) by {
        assert forall|i: int, j: int| 0 <= i && j == i + 1 && j < part.len() implies refers(h.cells[#[trigger] part[i] as int], #[trigger] part[j]) by {
            assert(refers(h.cells[path[i] as int], path[j]));
        }
    }
}

/// A collection keeps every cell that the roots reach exactly as it was, and
/// severs every registered cell that they do not reach; afterwards the
/// registered cells are those that are reached.
pub proof fn law_survivors(h: HeapView, roots: Seq<usize>, id: usize)
    requires
        id < h.cells.len(),
    ensures
        collected(h, roots).cells.len() == h.cells.len(),
        reachable(h.cells, roots, id) ==> collected(h, roots).cells[id as int] == h.cells[id as int],
        h.registered.contains(id) && !reachable(h.cells, roots, id) ==> collected(h, roots).cells[id as int] == severed(h.cells[id as int]),
        collected(h, roots).registered.contains(id) <==> h.registered.contains(id) && reachable(h.cells, roots, id),
        collected(h, roots).atoms == h.atoms,
{
    let keeps = |id: usize| is_marked(marks(h.cells, roots), id);
    assert(collected(h, roots).registered == h.registered.filter(keeps));
    if h.registered.filter(keeps).contains(id) {
        h.registered.lemma_filter_contains_rev(keeps, id);
    }
    if h.registered.contains(id) && keeps(id) {
        broadcast use vstd::seq_lib::group_filter_ensures;
        let k = choose|k: int| 0 <= k < h.registered.len() && h.registered[k] == id;
        assert(keeps(h.registered[k]));
        assert(h.registered.filter(keeps).contains(h.registered[k]));
    }
    if h.registered.filter(keeps).contains(id) {
        broadcast use vstd::seq_lib::group_filter_ensures;
        let k = choose|k: int| 0 <= k < h.registered.filter(keeps).len() && h.registered.filter(keeps)[k] == id;
        assert(keeps(h.registered.filter(keeps)[k]));
    }
}

/// The roots reach the same cells before and after a collection.
pub proof fn law_reachability_kept(h: HeapView, roots: Seq<usize>, id: usize)
    ensures
        reachable(collected(h, roots).cells, roots, id) <==> reachable(h.cells, roots, id),
{
    let after = collected(h, roots).cells;
    if reachable(h.cells, roots, id) {
        let path = choose|path: Seq<usize>| leads_to(h.cells, roots, path, id);
        assert forall|n: int| 0 <= n < path.len() implies after[#[trigger] path[n] as int] == h.cells[path[n] as int] by {
            lemma_path_survives(h, roots, path, id, n);
        }
        assert(leads_to(after, roots, path, id)) by {
            assert forall|i: int, j: int| 0 <= i && j == i + 1 && j < path.len() implies refers(after[#[trigger] path[i] as int], #[trigger] path[j]) by {
                assert(refers(h.cells[path[i] as int], path[j]));
            }
        }
    }
    if reachable(after, roots, id) {
        let path = choose|path: Seq<usize>| leads_to(after, roots, path, id);
        lemma_reached_before(h, roots, path, id, path.len() - 1);
    }
}

proof fn lemma_reached_before(h: HeapView, roots: Seq<usize>, path: Seq<usize>, id: usize, n: int)
    requires
        leads_to(collected(h, roots).cells, roots, path, id),
        0 <= n < path.len(),
    ensures
        reachable(h.cells, roots, path[n]),
    decreases n,
{
    let after = collected(h, roots).cells;
    if n == 0 {
        assert(leads_to(h.cells, roots, seq![path[0]], path[0]));
    } else {
        lemma_reached_before(h, roots, path, id, n - 1);
        assert(refers(after[path[n - 1] as int], path[n]));
        assert(after[path[n - 1] as int] == h.cells[path[n - 1] as int]);
        lemma_step(h.cells, roots, path[n - 1], path[n]);
    }
}

/// Collecting again from the same roots changes nothing more.
pub proof fn law_collect_twice(h: HeapView, roots: Seq<usize>)
    ensures
        collected(collected(h, roots), roots) == collected(h, roots),
{
    let once = collected(h, roots);
    let twice = collected(once, roots);
    assert forall|id: usize| reachable(once.cells, roots, id) == reachable(h.cells, roots, id) by {
        law_reachability_kept(h, roots, id);
    }
    assert(marks(once.cells, roots) =~= marks(h.cells, roots));
    let keeps = |id: usize| is_marked(marks(h.cells, roots), id);
    assert(once.registered == h.registered.filter(keeps));
    assert forall|i: int| 0 <= i < once.registered.len() implies keeps(#[trigger] once.registered[i]) by {
        broadcast use vstd::seq_lib::group_filter_ensures;
        assert(keeps(h.registered.filter(keeps)[i]));
    }
    lemma_filter_all(once.registered, keeps);
    assert(twice.registered =~= once.registered);
    assert forall|i: int| 0 <= i < once.cells.len() implies twice.cells[i] == once.cells[i] by {
        if once.registered.contains(i as usize) {
            let k = choose|k: int| 0 <= k < once.registered.len() && once.registered[k] == i as usize;
            assert(keeps(once.registered[k]));
        }
    }
    assert(twice.cells =~= once.cells);
    assert(twice =~= once);
}

proof fn lemma_filter_all(s: Seq<usize>, p: spec_fn(usize) -> bool)
    requires
        forall|i: int| 0 <= i < s.len() ==> p(#[trigger] s[i]),
    ensures
        s.filter(p) == s,
    decreases s.len(),
{
    reveal(Seq::filter);
    if s.len() > 0 {
        lemma_filter_all(s.drop_last(), p);
        assert(s =~= s.drop_last().push(s.last()));
    }
}

/// A severed cell keeps nothing alive, but for a function's environment and the
/// value of a settled promise.
pub proof fn law_severed_keeps_nothing(c: CellView, id: usize)
    ensures
        !(c is Function) && !(c is Promise) ==> !refers(severed(c), id),
        c is Function ==> (refers(severed(c), id) ==> c->Function_0.closure == id),
        c is Promise && c->Promise_0.state is Pending ==> !refers(severed(c), id),
{
}

} // verus!
