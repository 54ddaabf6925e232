//! Laws of property access: what a read, a deletion or a description finds after a
//! write.
use vstd::prelude::*;
use crate::heap::HeapView;
use crate::object::{array_at, element, find, link_or, property, Read};
use crate::object_write::{written, Write};
use crate::own::{defined, deleted, described, found_in, own_slot, table_of, Definition, Deletion, Descriptor};
use crate::store::StoreView;
use crate::text::index_of_key;
use crate::value::{ArrayDataView, CellView, Property, Value};

verus! {

/// Whether the cell that a value refers to is there, and of the kind that the value
/// says.
pub open spec fn live(h: HeapView, base: Value) -> bool {
    match base {
        Value::Object(i) => i < h.cells.len() && h.cells[i as int] is Object,
        Value::Array(i) => i < h.cells.len() && h.cells[i as int] is Array,
        Value::Function(i) => i < h.cells.len() && h.cells[i as int] is Function,
        Value::NativeFunction(i) => i < h.cells.len() && h.cells[i as int] is Native,
        Value::Promise(i) => i < h.cells.len() && h.cells[i as int] is Promise,
        _ => false,
    }
}

/// Whether an own slot, if there is one, takes a value.
pub open spec fn slot_takes(s: StoreView, base: Value, key: usize) -> bool {
    match own_slot(s, base, key) {
        Some(p) => !p.has_accessor() && p.writable,
        None => true,
    }
}

/// Whether an assignment stores its value under the key. The lengths of arrays and of
/// wrapped primitives are computed, and elements of arrays have no attributes.
pub open spec fn assignable(s: StoreView, base: Value, key: usize) -> bool {
    &&& live(s.heap, base)
    &&& match base {
        Value::Object(o) => slot_takes(s, base, key) && !(key == s.n.length && (key == s.n.boxed || s.heap.props(o).contains_key(s.n.boxed))),
        Value::Array(_) => key != s.n.length && (index_of_key(s.text(key)) is Some || slot_takes(s, base, key)),
        Value::Promise(_) => true,
        _ => slot_takes(s, base, key),
    }
}

/// A property that was assigned to reads as the value that was assigned.
pub proof fn law_assignment_reads_back(s: StoreView, base: Value, key: usize, val: Value)
    requires
        assignable(s, base, key),
    ensures
        written(s, base, key, val).1 == Write::Done,
        property(written(s, base, key, val).0, base, key) == Read::Value(val),
{
}

/// An assignment changes no slot but the one that it names.
pub proof fn law_assignment_is_local(s: StoreView, base: Value, key: usize, val: Value, other: Value, k: usize)
    requires
        table_of(base) != table_of(other) || k != key,
    ensures
        own_slot(written(s, base, key, val).0, other, k) == own_slot(s, other, k),
{
}

/// A slot that is read-only keeps its value; strict code gets an error.
pub proof fn law_read_only(s: StoreView, base: Value, key: usize, val: Value)
    requires
        base is Object || base is Function || base is NativeFunction,
        own_slot(s, base, key) matches Some(p) && !p.has_accessor() && !p.writable,
    ensures
        written(s, base, key, val).0 == s,
        written(s, base, key, val).1 == (if s.strict { Write::ReadOnly } else { Write::Done }),
{
}

/// What was deleted is no own property any more, and an element that was deleted reads
/// as `undefined`.
pub proof fn law_deletion(s: StoreView, base: Value, key: usize)
    requires
        live(s.heap, base),
        !(base is Promise),
        deleted(s, base, key).1 == Deletion::Yes,
    ensures
        own_slot(deleted(s, base, key).0, base, key) is None,
        base is Array && key != s.n.length && index_of_key(s.text(key)) is Some && own_slot(s, base, key) is None
            ==> property(deleted(s, base, key).0, base, key) == Read::Value(Value::Undefined),
{
    match base {
        Value::Array(a) => {
            let d = array_at(s.heap, a)->0;
            assert(s.heap.cells[a as int] == CellView::Array(d));
        },
        _ => {},
    }
}

/// A deletion or a definition that is refused changes nothing.
pub proof fn law_refusals_change_nothing(s: StoreView, base: Value, key: usize, desc: Value)
    ensures
        deleted(s, base, key).1 != Deletion::Yes ==> deleted(s, base, key).0 == s,
        defined(s, base, key, desc).1 != Definition::Done ==> defined(s, base, key, desc).0 == s,
{
}

/// A definition makes the own slot what the descriptor says, and what it leaves out
/// stays as it was. A slot that is not configurable takes only what agrees with it.
pub proof fn law_definition(s: StoreView, base: Value, key: usize, desc: Value)
    requires
        live(s.heap, base),
        !(base is Array),
    ensures
        match own_slot(s, base, key) {
            Some(p) => if p.configurable || described(s, desc).agrees_with(p) {
                own_slot(defined(s, base, key, desc).0, base, key) == Some(described(s, desc).changed(p))
            } else {
                defined(s, base, key, desc) == (s, Definition::Refused)
            },
            None => own_slot(defined(s, base, key, desc).0, base, key) == Some(described(s, desc).new_slot()),
        },
{
}

/// A descriptor that says nothing changes nothing.
pub proof fn law_empty_descriptor(d: Descriptor, p: Property)
    requires
        !d.has_accessor(),
        !d.has_data(),
        d.enumerable is None,
        d.configurable is None,
    ensures
        d.changed(p) == p,
        d.agrees_with(p),
{
}

/// Whether an array has no element at or beyond its length.
pub open spec fn within_length(d: ArrayDataView) -> bool {
    forall|i: usize| #[trigger] element(d, i) is Some ==> i < d.length
}

/// What the `in` operator does not find reads as `undefined`. The link from a
/// prototype to its constructor and the length of a wrapped primitive are no slots.
pub proof fn law_absent_properties(s: StoreView, base: Value, key: usize)
    requires
        !found_in(s, base, key),
        key != s.n.constructor,
        !(base matches Value::Object(o) && key == s.n.length && s.heap.props(o).contains_key(s.n.boxed)),
        !(base is Number || base is Boolean || base is String || base is Symbol || base is BigInt),
        base matches Value::Array(a) && array_at(s.heap, a) matches Some(d) ==> within_length(d),
    ensures
        property(s, base, key) == Read::Value(Value::Undefined),
{
    lemma_find_plain(s.heap, Some(s.b.array_prototype), key, s.n.constructor, s.heap.cells.len());
    match base {
        Value::Object(i) => lemma_find_plain(s.heap, Some(i), key, s.n.constructor, s.heap.cells.len()),
        Value::Function(i) => lemma_find_plain(s.heap, s.heap.proto(i), key, s.n.constructor, s.heap.cells.len()),
        Value::NativeFunction(i) => lemma_find_plain(s.heap, link_or(s.heap.proto(i), s.b.function_prototype), key, s.n.constructor, s.heap.cells.len()),
        Value::Promise(i) => lemma_find_plain(s.heap, link_or(s.heap.proto(i), s.b.promise_prototype), key, s.n.constructor, s.heap.cells.len()),
        Value::Regex(_) => lemma_find_plain(s.heap, Some(s.b.regexp_prototype), key, s.n.constructor, s.heap.cells.len()),
        Value::MapRef(_) => lemma_find_plain(s.heap, Some(s.b.map_prototype), key, s.n.constructor, s.heap.cells.len()),
        Value::SetRef(_) => lemma_find_plain(s.heap, Some(s.b.set_prototype), key, s.n.constructor, s.heap.cells.len()),
        Value::WeakMap(_) => lemma_find_plain(s.heap, Some(s.b.weakmap_prototype), key, s.n.constructor, s.heap.cells.len()),
        Value::WeakSet(_) => lemma_find_plain(s.heap, Some(s.b.weakset_prototype), key, s.n.constructor, s.heap.cells.len()),
        _ => {},
    }
}

proof fn lemma_find_plain(h: HeapView, cur: Option<usize>, key: usize, ctor: usize, fuel: nat)
    requires
        key != ctor,
    ensures
        find(h, cur, key, Some(ctor), fuel) == find(h, cur, key, None, fuel),
        !(find(h, cur, key, None, fuel) is Ctor),
    decreases fuel,
{
    match cur {
        Some(c) => if fuel > 0 {
            lemma_find_plain(h, h.proto(c), key, ctor, (fuel - 1) as nat);
        },
        None => {},
    }
}

/// The cell that is so many links up a prototype chain.
pub open spec fn ancestor(h: HeapView, start: Option<usize>, n: nat) -> Option<usize>
    decreases n,
{
    if n == 0 {
        start
    } else {
        match ancestor(h, start, (n - 1) as nat) {
            Some(c) => h.proto(c),
            None => None,
        }
    }
}

proof fn lemma_ancestor_shift(h: HeapView, c: usize, n: nat)
    ensures
        ancestor(h, Some(c), n + 1) == ancestor(h, h.proto(c), n),
    decreases n,
{
    reveal_with_fuel(ancestor, 2);
    if n > 0 {
        lemma_ancestor_shift(h, c, (n - 1) as nat);
    }
}

proof fn lemma_ancestor_ends(h: HeapView, start: Option<usize>, n: nat, m: nat)
    requires
        ancestor(h, start, n) is None,
        n <= m,
    ensures
        ancestor(h, start, m) is None,
    decreases m,
{
    if n < m {
        lemma_ancestor_ends(h, start, n, (m - 1) as nat);
    }
}

proof fn lemma_ancestor_repeats(h: HeapView, start: Option<usize>, i: nat, j: nat, n: nat)
    requires
        ancestor(h, start, i) == ancestor(h, start, j),
    ensures
        ancestor(h, start, i + n) == ancestor(h, start, j + n),
    decreases n,
{
    if n > 0 {
        lemma_ancestor_repeats(h, start, i, j, (n - 1) as nat);
        assert(i + n - 1 == i + (n - 1) as nat);
        assert(j + n - 1 == j + (n - 1) as nat);
    }
}

proof fn lemma_find_within(h: HeapView, cur: Option<usize>, key: usize, ctor_key: Option<usize>, n: nat, fuel: nat)
    requires
        ancestor(h, cur, n) is None,
        n <= fuel,
    ensures
        find(h, cur, key, ctor_key, fuel) == find(h, cur, key, ctor_key, n),
    decreases n,
{
    match cur {
        Some(c) => {
            assert(n > 0);
            lemma_ancestor_shift(h, c, (n - 1) as nat);
            lemma_find_within(h, h.proto(c), key, ctor_key, (n - 1) as nat, (fuel - 1) as nat);
        },
        None => {},
    }
}

/// A last cell that is not there has nothing to find.
proof fn lemma_find_dangling(h: HeapView, cur: Option<usize>, key: usize, ctor_key: Option<usize>, n: nat)
    requires
        ancestor(h, cur, n) matches Some(c) && c >= h.cells.len(),
    ensures
        find(h, cur, key, ctor_key, n + 1) == find(h, cur, key, ctor_key, n),
    decreases n,
{
    reveal_with_fuel(find, 2);
    lemma_start(h, cur, n);
    let c = cur->0;
    if n > 0 {
        lemma_ancestor_shift(h, c, (n - 1) as nat);
        lemma_find_dangling(h, h.proto(c), key, ctor_key, (n - 1) as nat);
    }
}

proof fn lemma_start(h: HeapView, cur: Option<usize>, n: nat)
    requires
        ancestor(h, cur, n) is Some,
    ensures
        cur is Some,
    decreases n,
{
    if n > 0 {
        lemma_start(h, cur, (n - 1) as nat);
    }
}

/// The cells of a chain that ends are distinct, so the first of them that are there are
/// no more than there are cells.
proof fn lemma_no_more_than_cells(h: HeapView, start: Option<usize>, n: nat, k: nat)
    requires
        k <= n,
        ancestor(h, start, n) is None,
        forall|i: nat| i < n ==> ancestor(h, start, i) is Some,
        forall|i: nat| i < k ==> (#[trigger] ancestor(h, start, i))->0 < h.cells.len(),
    ensures
        k <= h.cells.len(),
{
    let visited = Seq::new(k, |i: int| ancestor(h, start, i as nat)->0 as int);
    assert(visited.no_duplicates()) by {
        assert forall|i: int, j: int| 0 <= i < j < k implies visited[i] != visited[j] by {
            if visited[i] == visited[j] {
                assert(ancestor(h, start, i as nat) is Some);
                assert(ancestor(h, start, j as nat) is Some);
                lemma_ancestor_repeats(h, start, i as nat, j as nat, (n - j) as nat);
                assert(ancestor(h, start, (i + (n - j)) as nat) is Some);
                assert(j as nat + (n - j) as nat == n);
                assert(i as nat + (n - j) as nat == (i + (n - j)) as nat);
            }
        }
    }
    visited.unique_seq_to_set();
    let all = vstd::set_lib::set_int_range(0, h.cells.len() as int);
    vstd::set_lib::lemma_int_range(0, h.cells.len() as int);
    assert(visited.to_set().subset_of(all)) by {
        assert forall|x: int| visited.to_set().contains(x) implies all.contains(x) by {
            let i = choose|i: int| 0 <= i < visited.len() && visited[i] == x;
            assert(ancestor(h, start, i as nat) is Some);
        }
    }
    vstd::set_lib::lemma_len_subset(visited.to_set(), all);
}

proof fn lemma_first_end(h: HeapView, start: Option<usize>, n: nat) -> (m: nat)
    requires
        ancestor(h, start, n) is None,
    ensures
        ancestor(h, start, m) is None,
        forall|i: nat| i < m ==> ancestor(h, start, i) is Some,
    decreases n,
{
    if n > 0 && ancestor(h, start, (n - 1) as nat) is None {
        lemma_first_end(h, start, (n - 1) as nat)
    } else {
        assert forall|i: nat| i < n implies ancestor(h, start, i) is Some by {
            if ancestor(h, start, i) is None {
                lemma_ancestor_ends(h, start, i, (n - 1) as nat);
            }
        }
        n
    }
}

/// A search along a prototype chain that ends needs no more links than there are
/// cells: one that may follow more finds the same.
pub proof fn law_search_is_complete(h: HeapView, start: Option<usize>, key: usize, ctor_key: Option<usize>, n: nat, fuel: nat)
    requires
        ancestor(h, start, n) is None,
        h.cells.len() <= fuel,
    ensures
        find(h, start, key, ctor_key, fuel) == find(h, start, key, ctor_key, h.cells.len()),
{
    let len = h.cells.len();
    let m = lemma_first_end(h, start, n);
    if m <= len {
        lemma_find_within(h, start, key, ctor_key, m, fuel);
        lemma_find_within(h, start, key, ctor_key, m, len);
    } else {
        assert forall|i: nat| i + 1 < m implies (#[trigger] ancestor(h, start, i))->0 < len by {
            assert(ancestor(h, start, i + 1) is Some);
        }
        let last = (m - 1) as nat;
        if ancestor(h, start, last)->0 < len {
            lemma_no_more_than_cells(h, start, m, m);
        } else {
            lemma_no_more_than_cells(h, start, m, last);
            lemma_find_dangling(h, start, key, ctor_key, last);
            if fuel > last {
                lemma_find_within(h, start, key, ctor_key, m, fuel);
            }
        }
    }
}

} // verus!
