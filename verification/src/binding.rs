//! Laws of scopes: what a name means in a scope, and what an inner scope hides.
use vstd::prelude::*;
use crate::env::{assigned, binder, binds, bound, lemma_binder, lookup, outer_of, scope_at, with_fresh_scope};
use crate::heap::HeapView;
use crate::value::Value;

verus! {

/// The scope that is so many steps further out.
pub open spec fn enclosing(h: HeapView, env: usize, n: nat) -> Option<usize>
    decreases n,
{
    if n == 0 {
        Some(env)
    } else {
        match enclosing(h, env, (n - 1) as nat) {
            Some(e) => outer_of(h, e),
            None => None,
        }
    }
}

proof fn lemma_enclosing_shift(h: HeapView, env: usize, outer: usize, n: nat)
    requires
        outer_of(h, env) == Some(outer),
    ensures
        enclosing(h, env, n + 1) == enclosing(h, outer, n),
    decreases n,
{
    reveal_with_fuel(enclosing, 2);
    if n > 0 {
        lemma_enclosing_shift(h, env, outer, (n - 1) as nat);
    }
}

proof fn lemma_enclosing_repeats(h: HeapView, env: usize, i: nat, j: nat, n: nat)
    requires
        enclosing(h, env, i) == enclosing(h, env, j),
    ensures
        enclosing(h, env, i + n) == enclosing(h, env, j + n),
    decreases n,
{
    if n > 0 {
        lemma_enclosing_repeats(h, env, i, j, (n - 1) as nat);
        assert(i + n - 1 == i + (n - 1) as nat);
        assert(j + n - 1 == j + (n - 1) as nat);
    }
}

/// Whether a name is bound first so many steps out.
spec fn first_at(h: HeapView, env: usize, name: usize, d: nat, e: usize) -> bool {
    &&& enclosing(h, env, d) == Some(e)
    &&& binds(h, e, name)
    &&& forall|i: nat| i < d ==> (#[trigger] enclosing(h, env, i) matches Some(x) && !binds(h, x, name))
}

proof fn lemma_binder_distance(h: HeapView, env: usize, name: usize, fuel: nat) -> (d: nat)
    requires
        binder(h, env, name, fuel) is Some,
    ensures
        d <= fuel,
        first_at(h, env, name, d, binder(h, env, name, fuel)->0),
    decreases fuel,
{
    if binds(h, env, name) {
        0
    } else {
        let outer = outer_of(h, env)->0;
        let d = lemma_binder_distance(h, outer, name, (fuel - 1) as nat);
        lemma_enclosing_shift(h, env, outer, d);
        assert forall|i: nat| i < d + 1 implies (#[trigger] enclosing(h, env, i) matches Some(x) && !binds(h, x, name)) by {
            if i > 0 {
                lemma_enclosing_shift(h, env, outer, (i - 1) as nat);
                assert(enclosing(h, outer, (i - 1) as nat) is Some);
            }
        }
        d + 1
    }
}

proof fn lemma_binder_at(h: HeapView, env: usize, name: usize, d: nat, e: usize, fuel: nat)
    requires
        first_at(h, env, name, d, e),
        d <= fuel,
    ensures
        binder(h, env, name, fuel) == Some(e),
    decreases d,
{
    if d > 0 {
        assert(enclosing(h, env, 0) == Some(env));
        lemma_enclosing_known(h, env, d);
        let outer = outer_of(h, env)->0;
        lemma_enclosing_shift(h, env, outer, (d - 1) as nat);
        assert forall|i: nat| i < d - 1 implies (#[trigger] enclosing(h, outer, i) matches Some(x) && !binds(h, x, name)) by {
            lemma_enclosing_shift(h, env, outer, i);
            assert(enclosing(h, env, i + 1) is Some);
        }
        lemma_binder_at(h, outer, name, (d - 1) as nat, e, (fuel - 1) as nat);
    }
}

proof fn lemma_enclosing_known(h: HeapView, env: usize, d: nat)
    requires
        d > 0,
        enclosing(h, env, d) is Some,
    ensures
        outer_of(h, env) is Some,
    decreases d,
{
    reveal_with_fuel(enclosing, 2);
    if d > 1 {
        lemma_enclosing_known(h, env, (d - 1) as nat);
    }
}

proof fn lemma_distance_bounded(h: HeapView, env: usize, name: usize, d: nat, e: usize)
    requires
        first_at(h, env, name, d, e),
    ensures
        d < h.cells.len(),
{
    let n = d + 1;
    let visited = Seq::new(n, |i: int| enclosing(h, env, i as nat)->0 as int);
    assert(visited.no_duplicates()) by {
        assert forall|i: int, j: int| 0 <= i < j < n implies visited[i] != visited[j] by {
            if visited[i] == visited[j] {
                assert(enclosing(h, env, i as nat) is Some);
                assert(enclosing(h, env, j as nat) is Some);
                lemma_enclosing_repeats(h, env, i as nat, j as nat, (d - j) as nat);
                assert(j as nat + (d - j) as nat == d);
                assert((i as nat + (d - j) as nat) < d);
                assert(enclosing(h, env, i as nat + (d - j) as nat) is Some);
            }
        }
    }
    visited.unique_seq_to_set();
    let all = vstd::set_lib::set_int_range(0, h.cells.len() as int);
    vstd::set_lib::lemma_int_range(0, h.cells.len() as int);
    assert(visited.to_set().subset_of(all)) by {
        assert forall|x: int| visited.to_set().contains(x) implies all.contains(x) by {
            let i = choose|i: int| 0 <= i < visited.len() && visited[i] == x;
            assert(enclosing(h, env, i as nat) is Some);
            if i < d {
                lemma_step_known(h, env, i as nat, d);
            }
        }
    }
    vstd::set_lib::lemma_len_subset(visited.to_set(), all);
}

proof fn lemma_step_known(h: HeapView, env: usize, i: nat, d: nat)
    requires
        i < d,
        enclosing(h, env, d) is Some,
    ensures
        enclosing(h, env, i) is Some,
        outer_of(h, enclosing(h, env, i)->0) is Some,
    decreases d,
{
    if i + 1 < d {
        lemma_step_known(h, env, i, (d - 1) as nat);
    }
}

/// The search for the binding of a name needs no more steps than there are cells: one
/// that may take more finds the same.
pub proof fn law_lookup_is_complete(h: HeapView, env: usize, name: usize, fuel: nat)
    requires
        h.cells.len() <= fuel,
    ensures
        binder(h, env, name, fuel) == binder(h, env, name, h.cells.len()),
{
    if binder(h, env, name, fuel) is Some {
        let d = lemma_binder_distance(h, env, name, fuel);
        lemma_distance_bounded(h, env, name, d, binder(h, env, name, fuel)->0);
        lemma_binder_at(h, env, name, d, binder(h, env, name, fuel)->0, h.cells.len());
    } else if binder(h, env, name, h.cells.len()) is Some {
        let d = lemma_binder_distance(h, env, name, h.cells.len());
        lemma_binder_at(h, env, name, d, binder(h, env, name, h.cells.len())->0, fuel);
    }
}

/// Whether the outer scope of every scope is a cell of the heap.
pub open spec fn scopes_closed(h: HeapView) -> bool {
    forall|e: usize| #[trigger] outer_of(h, e) matches Some(o) ==> o < h.cells.len()
}

pub(crate) proof fn lemma_binder_frame(h: HeapView, g: HeapView, env: usize, name: usize, fuel: nat)
    requires
        scopes_closed(h),
        env < h.cells.len() <= g.cells.len(),
        forall|i: int| 0 <= i < h.cells.len() ==> #[trigger] g.cells[i] == h.cells[i],
    ensures
        binder(g, env, name, fuel) == binder(h, env, name, fuel),
        binder(h, env, name, fuel) matches Some(e) ==> e < h.cells.len(),
    decreases fuel,
{
    assert(scope_at(g, env) == scope_at(h, env));
    if !binds(h, env, name) && fuel > 0 {
        match outer_of(h, env) {
            Some(o) => lemma_binder_frame(h, g, o, name, (fuel - 1) as nat),
            None => {},
        }
    }
}

/// A fresh scope sees what the scope around it sees. What is bound in it is seen from
/// it, and not from around it, whatever the name meant there.
pub proof fn law_inner_scopes(h: HeapView, outer: usize, is_function: bool, name: usize, other: usize, v: Value)
    requires
        scopes_closed(h),
        outer < h.cells.len() < usize::MAX,
    ensures
        ({
            let inner = h.cells.len() as usize;
            let g = with_fresh_scope(h, outer, is_function);
            let b = bound(g, inner, name, v);
            &&& lookup(g, inner, other) == lookup(h, outer, other)
            &&& lookup(b, inner, name) == Some(v)
            &&& other != name ==> lookup(b, inner, other) == lookup(h, outer, other)
            &&& lookup(b, outer, other) == lookup(h, outer, other)
        }),
{
    let len = h.cells.len();
    let inner = len as usize;
    let g = with_fresh_scope(h, outer, is_function);
    let b = bound(g, inner, name, v);
    assert(scope_at(g, inner) is Some);
    assert(outer_of(g, inner) == Some(outer));
    lemma_binder_frame(h, g, outer, other, len);
    lemma_binder_frame(h, b, outer, other, len);
    lemma_binder_frame(h, b, outer, other, len + 1);
    law_lookup_is_complete(h, outer, other, len + 1);
    assert(outer_of(b, inner) == Some(outer));
}

proof fn lemma_binder_kept(h: HeapView, e: usize, bound_name: usize, v: Value, env: usize, name: usize, fuel: nat)
    requires
        binds(h, e, bound_name),
    ensures
        binder(bound(h, e, bound_name, v), env, name, fuel) == binder(h, env, name, fuel),
    decreases fuel,
{
    let g = bound(h, e, bound_name, v);
    assert(binds(g, env, name) == binds(h, env, name));
    assert(outer_of(g, env) == outer_of(h, env));
    if !binds(h, env, name) && fuel > 0 {
        match outer_of(h, env) {
            Some(o) => lemma_binder_kept(h, e, bound_name, v, o, name, (fuel - 1) as nat),
            None => {},
        }
    }
}

/// A name that was assigned to has the value from then on, and every other name means
/// what it meant, in every scope.
pub proof fn law_assignment_is_seen(h: HeapView, env: usize, name: usize, v: Value, from: usize, other: usize)
    requires
        lookup(h, env, name) is Some,
        other != name,
    ensures
        lookup(assigned(h, env, name, v), env, name) == Some(v),
        lookup(assigned(h, env, name, v), from, other) == lookup(h, from, other),
{
    let len = h.cells.len();
    lemma_binder(h, env, name, len);
    lemma_binder(h, from, other, len);
    let e = binder(h, env, name, len)->0;
    lemma_binder_kept(h, e, name, v, env, name, len);
    lemma_binder_kept(h, e, name, v, from, other, len);
}

} // verus!
