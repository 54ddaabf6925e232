//! The scopes of iterations: each run of a loop's body sees bindings of its own.
use vstd::prelude::*;
use crate::ast::Stmt;
use crate::binding::{law_lookup_is_complete, lemma_binder_frame, scopes_closed};
use crate::engine::{EngineView, Frame, Mode};
use crate::env::{assigned, binder, binds, bound, lookup, outer_of, outermost, scope_at};
use crate::frames::{on_each_next, on_for_cond, on_for_test};
use crate::heap::HeapView;
use crate::make::{head_names, with_copies, with_declarations, with_vars};
use crate::meaning::{calm, leads, on};
use crate::names::var_names;
use crate::ops::with_function;
use crate::store::StoreView;
use crate::value::Value;

verus! {

/// Whether the numbers of cells and atoms stay within the machine's limits while so
/// many are added.
pub open spec fn has_room(s: StoreView, n: int) -> bool {
    &&& s.heap.cells.len() + 2 * n < usize::MAX
    &&& s.heap.atoms.len() + n < usize::MAX
}

pub(crate) proof fn lemma_text(s: StoreView, x: Seq<char>, y: Seq<char>)
    requires
        s.heap.atoms.no_duplicates(),
        s.heap.atoms.len() < usize::MAX,
    ensures
        s.with_text(x).heap.atoms.no_duplicates(),
        s.with_text(x).heap.atoms.contains(x),
        s.with_text(x).atom(x) == s.atom(x),
        s.with_text(x).heap.cells == s.heap.cells,
        s.heap.atoms.len() <= s.with_text(x).heap.atoms.len() <= s.heap.atoms.len() + 1,
        s.heap.atoms.contains(y) ==> s.with_text(x).heap.atoms.contains(y) && s.with_text(x).atom(y) == s.atom(y),
        s.heap.atoms.contains(y) && x != y ==> s.atom(x) != s.atom(y),
{
    let t = s.with_text(x);
    if s.heap.atoms.contains(y) {
        let i = s.heap.atoms.index_of(y);
        assert(t.heap.atoms[i] == y);
        assert(t.heap.atoms.contains(y));
        let j = t.heap.atoms.index_of(y);
        assert(t.heap.atoms[j] == y);
    }
    if s.heap.atoms.contains(x) {
        let i = s.heap.atoms.index_of(x);
        assert(s.heap.atoms[i] == x);
    } else {
        assert(t.heap.atoms[s.heap.atoms.len() as int] == x);
        assert(t.heap.atoms.contains(x));
        let j = t.heap.atoms.index_of(x);
        assert(t.heap.atoms[j] == x);
    }
}

/// Whether a scope holds a name's value, and the scopes before it hang together as
/// they did.
spec fn holds(h0: HeapView, s: StoreView, scope: usize, name: Seq<char>, a: usize, v: Value) -> bool {
    &&& s.atom(name) == a
    &&& s.heap.atoms.no_duplicates()
    &&& s.heap.atoms.contains(name)
    &&& scope < s.heap.cells.len()
    &&& scope_at(s.heap, scope) is Some
    &&& binds(s.heap, scope, a)
    &&& scope_at(s.heap, scope)->0.vars[a] == v
    &&& apart(h0, s.heap, scope)
}

/// Whether the scopes before a cell hang together as they did.
spec fn apart(h0: HeapView, h: HeapView, scope: usize) -> bool {
    &&& h0.cells.len() == scope
    &&& scope < h.cells.len()
    &&& scopes_closed(h0)
    &&& forall|i: usize| i < scope ==> #[trigger] outer_of(h, i) == outer_of(h0, i)
}

proof fn lemma_chain(h0: HeapView, h: HeapView, scope: usize, env: usize, name: usize, fuel: nat)
    requires
        apart(h0, h, scope),
        env < scope,
    ensures
        binder(h, env, name, fuel) matches Some(e) ==> e < scope,
        outermost(h, env, fuel) < scope,
    decreases fuel,
{
    if fuel > 0 {
        match outer_of(h, env) {
            Some(o) => {
                assert(outer_of(h0, env) == Some(o));
                lemma_chain(h0, h, scope, o, name, (fuel - 1) as nat);
            },
            None => {},
        }
    }
}

proof fn lemma_copies<'a>(s: EngineView<'a>, h0: HeapView<'a>, names: Seq<Seq<char>>, env: usize, scope: usize, n: nat, j: int)
    requires
        s.store.heap.atoms.no_duplicates(),
        h0.cells.len() == scope,
        s.store.heap.cells.len() == scope + 1,
        env < scope,
        scopes_closed(h0),
        forall|i: int| 0 <= i < scope ==> #[trigger] s.store.heap.cells[i] == h0.cells[i],
        scope_at(s.store.heap, scope) is Some,
        n <= names.len(),
        has_room(s.store, n as int + 1),
    ensures
        ({
            let t = with_copies(s, names, env, scope, n);
            &&& t.store.heap.atoms.no_duplicates()
            &&& s.store.heap.atoms.len() <= t.store.heap.atoms.len() <= s.store.heap.atoms.len() + n
            &&& t.store.heap.cells.len() == scope + 1
            &&& scope_at(t.store.heap, scope) is Some
            &&& forall|i: int| 0 <= i < scope ==> #[trigger] t.store.heap.cells[i] == h0.cells[i]
            &&& 0 <= j < n ==> holds(h0, t.store, scope, names[j], t.store.atom(names[j]), match lookup(h0, env, t.store.atom(names[j])) {
                Some(v) => v,
                None => Value::Undefined,
            })
        }),
    decreases n,
{
    if n > 0 {
        let t = with_copies(s, names, env, scope, (n - 1) as nat);
        lemma_copies(s, h0, names, env, scope, (n - 1) as nat, j);
        let x = names[n - 1];
        lemma_text(t.store, x, x);
        if 0 <= j < n - 1 {
            lemma_text(t.store, x, names[j]);
        }
        let u = t.with_store(t.store.with_text(x));
        let a = t.store.atom(x);
        assert(forall|i: int| 0 <= i < scope ==> #[trigger] u.store.heap.cells[i] == h0.cells[i]);
        lemma_binder_frame(h0, u.store.heap, env, a, u.store.heap.cells.len());
        law_lookup_is_complete(h0, env, a, u.store.heap.cells.len());
        assert(u.lookup(env, a) == lookup(h0, env, a));
        if 0 <= j < n - 1 && names[j] == x {
            assert(u.store.atom(names[j]) == a);
        }
        let w = with_copies(s, names, env, scope, n);
        assert(scope_at(w.store.heap, scope) is Some);
        if 0 <= j < n {
            assert(w.store.heap.atoms == u.store.heap.atoms);
            assert(w.store.atom(names[j]) == u.store.atom(names[j]));
            assert forall|i: usize| i < scope implies #[trigger] outer_of(w.store.heap, i) == outer_of(h0, i) by {
                assert(w.store.heap.cells[i as int] == h0.cells[i as int]);
            }
        }
    }
}

pub(crate) proof fn lemma_function_cells<'a>(s: EngineView<'a>, list: &'a Vec<Stmt>, name: usize, i: int, env: usize)
    requires
        0 <= i < list@.len(),
        list@[i] is FunctionDecl,
        s.store.heap.cells.len() + 2 < usize::MAX,
    ensures
        match &list@[i] {
            Stmt::FunctionDecl { name: _, params, body } => {
                let t = with_function(s.store, s.realm, name, Some(params), body, env, None);
                &&& t.heap.cells.len() == s.store.heap.cells.len() + 2
                &&& t.heap.atoms == s.store.heap.atoms
                &&& forall|c: int| 0 <= c < s.store.heap.cells.len() ==> #[trigger] t.heap.cells[c] == s.store.heap.cells[c]
            },
            _ => true,
        },
{
}

proof fn lemma_bound_elsewhere<'a>(h0: HeapView<'a>, s: StoreView<'a>, scope: usize, name: Seq<char>, own: usize, v: Value, at: usize, a: usize, w: Value)
    requires
        holds(h0, s, scope, name, own, v),
        at != scope || a != own,
    ensures
        holds(h0, s.with_heap(bound(s.heap, at, a, w)), scope, name, own, v),
{
    let t = s.with_heap(bound(s.heap, at, a, w));
    assert(t.heap.atoms == s.heap.atoms);
    assert(t.atom(name) == s.atom(name));
    assert forall|i: usize| i < scope implies #[trigger] outer_of(t.heap, i) == outer_of(h0, i) by {
        assert(outer_of(s.heap, i) == outer_of(h0, i));
    }
}

proof fn lemma_declarations<'a>(s: EngineView<'a>, h0: HeapView<'a>, list: &'a Vec<Stmt>, scope: usize, n: nat, name: Seq<char>, own: usize, v: Value)
    requires
        holds(h0, s.store, scope, name, own, v),
        n <= list@.len(),
        has_room(s.store, n as int + 1),
        forall|i: int| 0 <= i < list@.len() ==> (#[trigger] list@[i] matches Stmt::FunctionDecl { name: f, .. } ==> f@ != name),
    ensures
        holds(h0, with_declarations(s, list, scope, n).store, scope, name, own, v),
        with_declarations(s, list, scope, n).store.heap.cells.len() <= s.store.heap.cells.len() + 2 * n,
        with_declarations(s, list, scope, n).store.heap.atoms.len() <= s.store.heap.atoms.len() + n,
    decreases n,
{
    if n > 0 {
        let t = with_declarations(s, list, scope, (n - 1) as nat);
        lemma_declarations(s, h0, list, scope, (n - 1) as nat, name, own, v);
        match &list@[n - 1] {
            Stmt::FunctionDecl { name: f, params, body } => {
                lemma_text(t.store, f@, name);
                let (u, a) = t.intern_name(f);
                lemma_function_cells(u, list, a, n - 1, scope);
                let (w, g) = u.make_function(a, Some(params), body, scope, None);
                assert(w.store.atom(name) == u.store.atom(name));
                assert(w.store.heap.cells[scope as int] == t.store.heap.cells[scope as int]);
                assert forall|i: usize| i < scope implies #[trigger] outer_of(w.store.heap, i) == outer_of(h0, i) by {
                    assert(outer_of(t.store.heap, i) == outer_of(h0, i));
                    assert(w.store.heap.cells[i as int] == t.store.heap.cells[i as int]);
                }
                assert(holds(h0, w.store, scope, name, own, v));
                lemma_bound_elsewhere(h0, w.store, scope, name, own, v, scope, a, g);
            },
            _ => {},
        }
    }
}

proof fn lemma_vars<'a>(s: EngineView<'a>, h0: HeapView<'a>, names: Seq<Seq<char>>, at: usize, scope: usize, n: nat, name: Seq<char>, own: usize, v: Value)
    requires
        holds(h0, s.store, scope, name, own, v),
        n <= names.len(),
        has_room(s.store, n as int + 1),
    ensures
        holds(h0, with_vars(s, names, at, n).store, scope, name, own, v),
        with_vars(s, names, at, n).store.heap.cells.len() == s.store.heap.cells.len(),
        with_vars(s, names, at, n).store.heap.atoms.len() <= s.store.heap.atoms.len() + n,
    decreases n,
{
    if n > 0 {
        let t = with_vars(s, names, at, (n - 1) as nat);
        lemma_vars(s, h0, names, at, scope, (n - 1) as nat, name, own, v);
        let x = names[n - 1];
        lemma_text(t.store, x, name);
        let a = t.store.atom(x);
        let u = t.with_store(t.store.with_text(x));
        assert forall|i: usize| i < scope implies #[trigger] outer_of(u.store.heap, i) == outer_of(h0, i) by {
            assert(outer_of(t.store.heap, i) == outer_of(h0, i));
        }
        assert(holds(h0, u.store, scope, name, own, v));
        if !binds(u.store.heap, at, a) {
            lemma_bound_elsewhere(h0, u.store, scope, name, own, v, at, a, Value::Undefined);
        }
    }
}

/// Whether a machine is about to run a loop's body in a scope that is new and binds a
/// name to a value, whatever is assigned to the name in the scope around it later.
pub open spec fn runs_apart<'a>(before: EngineView<'a>, t: EngineView<'a>, body: &'a Vec<Stmt>, env: usize, name: Seq<char>, v: Value) -> bool {
    t.frames.len() > 0 && (t.frames.last() matches Frame::Stmts(list, i, scope, last) && {
        let a = t.store.atom(name);
        &&& list == body
        &&& i == 0
        &&& last is None
        &&& scope != env
        &&& before.store.heap.cells.len() <= scope < t.store.heap.cells.len()
        &&& t.lookup(scope, a) == Some(v)
        &&& forall|w: Value| lookup(#[trigger] assigned(t.store.heap, env, a, w), scope, a) == Some(v)
    })
}

proof fn lemma_iteration<'a>(s: EngineView<'a>, x: &'a Stmt, env: usize, label: Option<usize>, value: Option<Value>, j: int, total: int)
    requires
        x matches Stmt::For { init, body, .. } && 0 <= j < head_names(*init).len() && total == head_names(*init).len() + body@.len() + var_names(*body).len() && forall|i: int|
            0 <= i < body@.len() ==> (#[trigger] body@[i] matches Stmt::FunctionDecl { name: f, .. } ==> f@ != head_names(*init)[j]),
        env < s.store.heap.cells.len(),
        scopes_closed(s.store.heap),
        s.store.heap.atoms.no_duplicates(),
        has_room(s.store, total + 4),
    ensures
        x matches Stmt::For { init, body, .. } && ({
            let t = s.for_body(x, env, label, true, value);
            let name = head_names(*init)[j];
            runs_apart(s, t, body, env, name, match lookup(s.store.heap, env, t.store.atom(name)) {
                Some(v) => v,
                None => Value::Undefined,
            })
        }),
{
    match x {
        Stmt::For { init, body, .. } => {
            reveal(EngineView::hoist);
            let names = head_names(*init);
            let name = names[j];
            let h0 = s.store.heap;
            let (a, scope) = s.new_scope(env, false);
            assert(a.store.heap.cells[scope as int] is Env);
            let c = with_copies(a, names, env, scope, names.len());
            lemma_copies(a, h0, names, env, scope, names.len(), j);
            let own = c.store.atom(name);
            let v = match lookup(h0, env, own) {
                Some(v) => v,
                None => Value::Undefined,
            };
            let f = c.push(Frame::ForStep { stmt: x, env, label, fresh: true, value });
            lemma_declarations(f, h0, body, scope, body@.len(), name, own, v);
            let d = with_declarations(f, body, scope, body@.len());
            lemma_vars(d, h0, var_names(*body), d.function_scope(scope), scope, var_names(*body).len(), name, own, v);
            let t = s.for_body(x, env, label, true, value);
            assert(holds(h0, t.store, scope, name, own, v));
            let n = t.store.atom(name);
            assert forall|w: Value| lookup(#[trigger] assigned(t.store.heap, env, n, w), scope, n) == Some(v) by {
                lemma_chain(h0, t.store.heap, scope, env, n, t.store.heap.cells.len());
                assert(binds(assigned(t.store.heap, env, n, w), scope, n));
            }
        },
        _ => {},
    }
}

/// Where the head of a `for` declares names with `let` or `const`, an iteration runs
/// its body in a scope that did not exist before it. The scope binds each of the names
/// to the value that the loop's own scope has for it, and keeps it whatever the loop
/// assigns to the name for the iterations to come. (A function that the body declares
/// under the name hides it there.)
pub proof fn law_iterations_have_their_own_scope<'a>(s: EngineView<'a>, k: Seq<Frame<'a>>, x: &'a Stmt, env: usize, label: Option<usize>, value: Option<Value>, j: int, total: int) -> (t: EngineView<'a>)
    requires
        calm(s),
        x matches Stmt::For { init, cond, body, .. } && 0 <= j < head_names(*init).len() && total == head_names(*init).len() + body@.len() + var_names(*body).len() && (cond is Some ==> s.truthy(s.value())) && forall|i: int|
            0 <= i < body@.len() ==> (#[trigger] body@[i] matches Stmt::FunctionDecl { name: f, .. } ==> f@ != head_names(*init)[j]),
        env < s.store.heap.cells.len(),
        scopes_closed(s.store.heap),
        s.store.heap.atoms.no_duplicates(),
        has_room(s.store, total + 4),
    ensures
        x matches Stmt::For { init, cond, body, .. } && ({
            let name = head_names(*init)[j];
            &&& cond is Some ==> leads(on(s, k).push(Frame::ForCond { stmt: x, env, label, fresh: true, value }), t)
            &&& cond is None ==> leads(on(s, k).push(Frame::ForTest { stmt: x, env, label, fresh: true, value }), t)
            &&& runs_apart(s, t, body, env, name, match lookup(s.store.heap, env, t.store.atom(name)) {
                Some(v) => v,
                None => Value::Undefined,
            })
        }),
{
    let t = on(s, k).for_body(x, env, label, true, value);
    lemma_iteration(on(s, k), x, env, label, value, j, total);
    match x {
        Stmt::For { cond, .. } => {
            if cond is Some {
                on_for_cond(s, k, x, env, label, true, value);
            } else {
                on_for_test(s, k, x, env, label, true, value);
            }
        },
        _ => {},
    }
    t
}

/// A loop over items whose head declares names with `let` or `const` binds them, for
/// each item, in a scope that did not exist before.
pub proof fn law_items_have_their_own_scope<'a>(s: EngineView<'a>, k: Seq<Frame<'a>>, x: &'a Stmt, env: usize, label: Option<usize>, source: usize, i: usize, value: Option<Value>) -> (t: EngineView<'a>)
    requires
        calm(s),
        i < s.array_len(source),
        match x {
            Stmt::ForOf { kind, .. } => !(*kind is Var),
            Stmt::ForIn { kind, .. } => !(*kind is Var),
            _ => false,
        },
        s.store.heap.cells.len() < usize::MAX,
    ensures
        leads(on(s, k).push(Frame::EachNext { stmt: x, env, label, source, i, value }), t),
        ({
            let scope = s.store.heap.cells.len() as usize;
            let f = t.frames;
            let end = Frame::EachBody { stmt: x, env, label, source, i, value, body_env: scope };
            let (constant, pat) = match x {
                Stmt::ForOf { kind, name, .. } => (*kind is Const, name),
                Stmt::ForIn { kind, name, .. } => (*kind is Const, name),
                _ => arbitrary(),
            };
            &&& outer_of(t.store.heap, scope) == Some(env)
            &&& forall|a: usize| !binds(t.store.heap, scope, a)
            &&& t.value() == s.array_get(source, i)
            &&& f.len() > 0
            &&& f.last() == Frame::Bind(pat, scope, Mode::Bind)
            &&& f == (if constant {
                k.push(end).push(Frame::MarkConst(pat, scope)).push(Frame::HeadBind).push(f.last())
            } else {
                k.push(end).push(Frame::HeadBind).push(f.last())
            })
        }),
{
    on_each_next(s, k, x, env, label, source, i, value);
    on(s, k).each_next(x, env, label, source, i, value)
}

} // verus!
