//! What stays alive, and what is inherited: laws stated from what a program can reach.
use vstd::prelude::*;
use crate::env::scope_at;
use crate::expressions::ancestor;
use crate::gc::{collected, law_survivors, leads_to, reachable, refers, value_cell};
use crate::heap::HeapView;
use crate::keys::{hides, inherited_keys, names_slot, own_enumerable, visited_keys, visits};
use crate::listing::{lemma_sorted_texts, lists_texts};
use crate::object::{array_at, find, property, Found, Read};
use crate::ops::function_at;
use crate::promise::promise_at;
use crate::store::StoreView;
use crate::text::ascending;
use crate::value::{symbol_key, CellView, PromiseState, Value};

verus! {

proof fn lemma_reached(h: HeapView, roots: Seq<usize>, a: usize, b: usize)
    requires
        reachable(h.cells, roots, a),
        a < h.cells.len(),
        b < h.cells.len(),
        refers(h.cells[a as int], b),
    ensures
        reachable(h.cells, roots, b),
        collected(h, roots).cells[b as int] == h.cells[b as int],
{
    let path = choose|path: Seq<usize>| leads_to(h.cells, roots, path, a);
    let longer = path.push(b);
    assert forall|i: int, j: int| 0 <= i && j == i + 1 && j < longer.len() implies refers(h.cells[#[trigger] longer[i] as int], #[trigger] longer[j]) by {
        if j < path.len() {
            assert(refers(h.cells[path[i] as int], path[j]));
        } else {
            assert(longer[i] == path.last());
        }
    }
    assert(leads_to(h.cells, roots, longer, b));
    law_survivors(h, roots, b);
}

/// A root stays as it is.
pub proof fn law_roots_stay(h: HeapView, roots: Seq<usize>, a: usize)
    requires
        a < h.cells.len(),
        roots.contains(a),
    ensures
        reachable(h.cells, roots, a),
        collected(h, roots).cells[a as int] == h.cells[a as int],
{
    let path = seq![a];
    assert(leads_to(h.cells, roots, path, a));
    law_survivors(h, roots, a);
}

/// What a live cell has as a property, a getter, a setter or its prototype, stays as it
/// is.
pub proof fn law_properties_stay(h: HeapView, roots: Seq<usize>, a: usize, key: usize, b: usize)
    requires
        a < h.cells.len(),
        b < h.cells.len(),
        reachable(h.cells, roots, a),
        h.cells[a as int] is Object || h.cells[a as int] is Array || h.cells[a as int] is Function || h.cells[a as int] is Native || h.cells[a as int] is Promise,
        h.proto(a) == Some(b) || (h.props(a).contains_key(key) && (value_cell(h.props(a)[key].value) == Some(b) || (h.props(a)[key].get matches Some(g) && value_cell(g) == Some(b)) || (h.props(a)[key].set matches Some(t)
            && value_cell(t) == Some(b)))),
    ensures
        reachable(h.cells, roots, b),
        collected(h, roots).cells[b as int] == h.cells[b as int],
{
    if h.proto(a) != Some(b) {
        let m = h.props(a);
        assert(m.contains_key(key) && crate::gc::slot_refers(m[key], b));
        assert(crate::gc::props_refer(m, b));
    }
    lemma_reached(h, roots, a, b);
}

/// What a live array holds, and what a live scope binds or lies in, stays as it is.
pub proof fn law_contents_stay(h: HeapView, roots: Seq<usize>, a: usize, i: int, key: usize, b: usize)
    requires
        a < h.cells.len(),
        b < h.cells.len(),
        reachable(h.cells, roots, a),
        (array_at(h, a) matches Some(d) && 0 <= i < d.elems.len() && value_cell(d.elems[i]) == Some(b)) || (array_at(h, a) matches Some(d) && d.sparse.contains_key(key) && value_cell(d.sparse[key]) == Some(b)) || (scope_at(h, a) matches Some(d)
            && d.vars.contains_key(key) && value_cell(d.vars[key]) == Some(b)) || (scope_at(h, a) matches Some(d) && d.outer == Some(b)),
    ensures
        reachable(h.cells, roots, b),
        collected(h, roots).cells[b as int] == h.cells[b as int],
{
    match h.cells[a as int] {
        CellView::Array(d) => {
            if 0 <= i < d.elems.len() && value_cell(d.elems[i]) == Some(b) {
                assert(crate::gc::values_refer(d.elems, b));
            } else {
                assert(crate::gc::bindings_refer(d.sparse, b));
            }
        },
        CellView::Env(d) => {
            if d.outer != Some(b) {
                assert(crate::gc::bindings_refer(d.vars, b));
            }
        },
        _ => {},
    }
    lemma_reached(h, roots, a, b);
}

/// What a live function closes over, its `this` and what it calls `super`, stay as they
/// are.
pub proof fn law_closures_stay(h: HeapView, roots: Seq<usize>, f: usize, b: usize)
    requires
        f < h.cells.len(),
        b < h.cells.len(),
        reachable(h.cells, roots, f),
        function_at(h, f) matches Some(d) && (d.closure == b || d.super_proto == Some(b) || (d.this_capture matches Some(v) && value_cell(v) == Some(b)) || (d.super_ctor matches Some(c) && value_cell(c) == Some(b))),
    ensures
        reachable(h.cells, roots, b),
        collected(h, roots).cells[b as int] == h.cells[b as int],
{
    lemma_reached(h, roots, f, b);
}

/// The value of a live promise stays as it is, and while it is pending so do the
/// promises that depend on it and their handlers.
pub proof fn law_promises_stay(h: HeapView, roots: Seq<usize>, p: usize, i: int, b: usize)
    requires
        p < h.cells.len(),
        b < h.cells.len(),
        reachable(h.cells, roots, p),
        promise_at(h, p) matches Some(d) && match d.state {
            PromiseState::Pending => 0 <= i < d.reactions.len() && (d.reactions[i].promise == b || (d.reactions[i].on_fulfilled matches Some(v) && value_cell(v) == Some(b)) || (d.reactions[i].on_rejected matches Some(v) && value_cell(v) == Some(b))),
            PromiseState::Fulfilled(v) => value_cell(v) == Some(b),
            PromiseState::Rejected(v) => value_cell(v) == Some(b),
        },
    ensures
        reachable(h.cells, roots, b),
        collected(h, roots).cells[b as int] == h.cells[b as int],
{
    let d = promise_at(h, p)->0;
    if d.state is Pending {
        assert(crate::gc::reaction_refers(d.reactions[i], b));
        assert(crate::gc::reactions_refer(d.reactions, b));
    }
    lemma_reached(h, roots, p, b);
}

/// The keys and values of a live map and the members of a live set stay as they are; a
/// weak map keeps its values alone, and a weak set nothing.
pub proof fn law_collections_stay(h: HeapView, roots: Seq<usize>, m: usize, i: int, b: usize)
    requires
        m < h.cells.len(),
        b < h.cells.len(),
    ensures
        reachable(h.cells, roots, m) ==> match h.cells[m as int] {
            CellView::MapCell(d) => 0 <= i < d.entries.len() && (value_cell(d.entries[i].0) == Some(b) || value_cell(d.entries[i].1) == Some(b)) ==> collected(h, roots).cells[b as int] == h.cells[b as int],
            CellView::SetCell(d) => 0 <= i < d.entries.len() && value_cell(d.entries[i]) == Some(b) ==> collected(h, roots).cells[b as int] == h.cells[b as int],
            CellView::WeakMap(d) => 0 <= i < d.entries.len() && value_cell(d.entries[i].1) == Some(b) ==> collected(h, roots).cells[b as int] == h.cells[b as int],
            _ => true,
        },
        h.cells[m as int] is WeakSet ==> !refers(h.cells[m as int], b),
        h.cells[m as int] matches CellView::WeakMap(d) ==> ((forall|j: int| 0 <= j < d.entries.len() ==> value_cell((#[trigger] d.entries[j]).1) != Some(b)) ==> !refers(h.cells[m as int], b)),
{
    if reachable(h.cells, roots, m) {
        match h.cells[m as int] {
            CellView::MapCell(d) => {
                if 0 <= i < d.entries.len() && (value_cell(d.entries[i].0) == Some(b) || value_cell(d.entries[i].1) == Some(b)) {
                    assert(crate::gc::entries_refer(d.entries, false, b));
                    lemma_reached(h, roots, m, b);
                }
            },
            CellView::SetCell(d) => {
                if 0 <= i < d.entries.len() && value_cell(d.entries[i]) == Some(b) {
                    assert(crate::gc::values_refer(d.entries, b));
                    lemma_reached(h, roots, m, b);
                }
            },
            CellView::WeakMap(d) => {
                if 0 <= i < d.entries.len() && value_cell(d.entries[i].1) == Some(b) {
                    assert(crate::gc::entries_refer(d.entries, true, b));
                    lemma_reached(h, roots, m, b);
                }
            },
            _ => {},
        }
    }
}

proof fn lemma_find(h: HeapView, o: usize, key: usize, ctor: Option<usize>, n: nat, c: usize, fuel: nat)
    requires
        ancestor(h, Some(o), n) == Some(c),
        h.props(c).contains_key(key),
        forall|i: nat| i < n ==> (#[trigger] ancestor(h, Some(o), i) matches Some(x) && !h.props(x).contains_key(key)),
        n < fuel,
        ctor != Some(key),
    ensures
        find(h, Some(o), key, ctor, fuel) == Found::Slot(h.props(c)[key]),
    decreases n,
{
    if n > 0 {
        assert(ancestor(h, Some(o), 0) == Some(o));
        match h.proto(o) {
            Some(p) => {
                assert(ancestor(h, Some(p), (n - 1) as nat) == Some(c));
                assert forall|i: nat| i < n - 1 implies (#[trigger] ancestor(h, Some(p), i) matches Some(x) && !h.props(x).contains_key(key)) by {
                    assert(ancestor(h, Some(o), i + 1) == ancestor(h, Some(p), i));
                }
                lemma_find(h, p, key, ctor, (n - 1) as nat, c, (fuel - 1) as nat);
            },
            None => {
                assert(ancestor(h, None, (n - 1) as nat) is None);
            },
        }
    }
}

/// Reading a property of an object gives what the nearest object of its chain of
/// prototypes has under the key: its value, or its getter. Nearer objects hide what
/// those further up have.
pub proof fn law_inheritance(s: StoreView, o: usize, key: usize, n: nat, c: usize)
    requires
        ancestor(s.heap, Some(o), n) == Some(c),
        s.heap.props(c).contains_key(key),
        forall|i: nat| i < n ==> (#[trigger] ancestor(s.heap, Some(o), i) matches Some(x) && !s.heap.props(x).contains_key(key)),
        n < s.heap.cells.len(),
        key != s.n.constructor,
        key != s.n.length,
    ensures
        ({
            let p = s.heap.props(c)[key];
            &&& p.get is None && p.set is None ==> property(s, Value::Object(o), key) == Read::Value(p.value)
            &&& p.get matches Some(g) ==> property(s, Value::Object(o), key) == Read::Getter(g)
            &&& p.get is None && p.set is Some ==> property(s, Value::Object(o), key) == Read::Value(Value::Undefined)
        }),
{
    lemma_find(s.heap, o, key, Some(s.n.constructor), n, c, s.heap.cells.len());
}

/// Whether a cell has an own property under a text that is no symbol.
pub open spec fn has_key(s: StoreView, c: usize, t: Seq<char>) -> bool {
    !symbol_key(t) && exists|k: usize| #[trigger] s.heap.props(c).contains_key(k) && s.text(k) == t
}

/// Whether such a property of a cell is enumerable. The slot of a wrapped primitive is
/// not.
pub open spec fn shows_key(s: StoreView, c: usize, t: Seq<char>) -> bool {
    !symbol_key(t) && exists|k: usize| #[trigger] s.heap.props(c).contains_key(k) && s.heap.props(c)[k].enumerable && k != s.n.boxed && s.text(k) == t
}

/// `for`-`in` over an object visits its own enumerable keys in ascending order, and
/// then those of its prototype that it does not have itself, enumerable or not. No
/// symbol is visited.
pub proof fn law_visited_keys(s: StoreView, o: usize, p: usize, own: Seq<Seq<char>>, inherited: Seq<Seq<char>>)
    requires
        s.heap.proto(o) == Some(p),
        s.heap.proto(p) is None,
        s.heap.cells.len() > 0,
        ascending(own),
        ascending(inherited),
        forall|t: Seq<char>| #[trigger] own.contains(t) <==> shows_key(s, o, t),
        forall|t: Seq<char>| #[trigger] inherited.contains(t) <==> shows_key(s, p, t) && !has_key(s, o, t),
    ensures
        visited_keys(s, Value::Object(o)) == own + inherited,
{
    let base = Value::Object(o);
    let a = Set::new(|t: Seq<char>| visits(s, base, t));
    let had = Set::new(|t: Seq<char>| hides(s, base, t));
    let b = Set::new(|t: Seq<char>| own_enumerable(s, p, t) && !had.contains(t));
    assert forall|t: Seq<char>| #[trigger] own.contains(t) <==> a.contains(t) by {
        assert(shows_key(s, o, t) == own_enumerable(s, o, t));
    }
    assert(lists_texts(own, a));
    lemma_sorted_texts(own, a);
    assert forall|t: Seq<char>| #[trigger] inherited.contains(t) <==> b.contains(t) by {
        assert(shows_key(s, p, t) == own_enumerable(s, p, t));
        assert(has_key(s, o, t) == names_slot(s, o, true, t));
        assert(own_enumerable(s, o, t) ==> has_key(s, o, t));
    }
    assert(lists_texts(inherited, b));
    lemma_sorted_texts(inherited, b);
    reveal_with_fuel(inherited_keys, 2);
    let more = had.union(Set::new(|t: Seq<char>| names_slot(s, p, true, t)));
    assert(inherited_keys(s, None, more, (s.heap.cells.len() - 1) as nat) =~= Seq::<Seq<char>>::empty());
    assert(inherited_keys(s, Some(p), had, s.heap.cells.len()) =~= inherited);
    assert(visited_keys(s, base) =~= own + inherited);
}

} // verus!
