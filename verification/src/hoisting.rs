//! What is declared before a list of statements is executed.
use vstd::prelude::*;
use crate::ast::{Pattern, Stmt, SwitchCase, SwitchCaseTree, VarKind};
use crate::engine::EngineView;
use crate::env::{binds, scope_at};
use crate::make::{with_declarations, with_vars};
use crate::names::{case_vars, head_vars, list_vars, stmt_vars, var_names};
use crate::ops::function_at;
use crate::scope::{binding_of, case_names, excludes, pair_excludes, redeclared, Binding};
use crate::scoping::{has_room, lemma_function_cells, lemma_text};
use crate::value::Value;

verus! {

/// Whether a scope binds a text's atom to a function that closes over the scope.
spec fn bound_function<'a>(s: EngineView<'a>, env: usize, name: Seq<char>, params: &'a Vec<Pattern>) -> bool {
    &&& s.store.heap.atoms.no_duplicates()
    &&& s.store.heap.atoms.contains(name)
    &&& env < s.store.heap.cells.len()
    &&& scope_at(s.store.heap, env) is Some
    &&& binds(s.store.heap, env, s.store.atom(name))
    &&& scope_at(s.store.heap, env)->0.vars[s.store.atom(name)] matches Value::Function(c) && c < s.store.heap.cells.len() && (function_at(s.store.heap, c) matches Some(d) && d.closure == env && d.params == Some(params) && d.this_capture is None)
}

proof fn lemma_declared<'a>(s: EngineView<'a>, list: &'a Vec<Stmt>, env: usize, n: nat, j: int)
    requires
        s.store.heap.atoms.no_duplicates(),
        env < s.store.heap.cells.len(),
        scope_at(s.store.heap, env) is Some,
        n <= list@.len(),
        has_room(s.store, n as int + 2),
        0 <= j < list@.len(),
        list@[j] is FunctionDecl,
        forall|m: int| j < m < list@.len() ==> (#[trigger] list@[m] matches Stmt::FunctionDecl { name: f, .. } ==> f@ != list@[j]->FunctionDecl_name@),
    ensures
        ({
            let t = with_declarations(s, list, env, n);
            &&& t.store.heap.atoms.no_duplicates()
            &&& env < t.store.heap.cells.len() <= s.store.heap.cells.len() + 2 * n
            &&& t.store.heap.atoms.len() <= s.store.heap.atoms.len() + n
            &&& scope_at(t.store.heap, env) is Some
            &&& j < n ==> bound_function(t, env, list@[j]->FunctionDecl_name@, &list@[j]->FunctionDecl_params)
        }),
    decreases n,
{
    if n > 0 {
        let t = with_declarations(s, list, env, (n - 1) as nat);
        lemma_declared(s, list, env, (n - 1) as nat, j);
        let name = list@[j]->FunctionDecl_name@;
        match &list@[n - 1] {
            Stmt::FunctionDecl { name: f, params, body } => {
                lemma_text(t.store, f@, name);
                lemma_text(t.store, f@, f@);
                let (u, a) = t.intern_name(f);
                lemma_function_cells(u, list, a, n - 1, env);
                let (w, g) = u.make_function(a, Some(params), body, env, None);
                let c = u.store.heap.cells.len() as usize;
                assert(w.store.heap.cells[env as int] == t.store.heap.cells[env as int]);
                assert(w.store.heap.cells[c as int] is Function);
                let z = w.bind(env, a, g);
                assert(z == with_declarations(s, list, env, n));
                assert(z.store.heap.atoms == u.store.heap.atoms);
                assert(forall|i: int| 0 <= i < z.store.heap.cells.len() && i != env ==> #[trigger] z.store.heap.cells[i] == w.store.heap.cells[i]);
                assert(z.store.atom(f@) == a);
                if j < n - 1 {
                    assert(f@ != name);
                    assert(z.store.atom(name) == t.store.atom(name));
                    let v = scope_at(t.store.heap, env)->0.vars[t.store.atom(name)];
                    assert(scope_at(z.store.heap, env)->0.vars[t.store.atom(name)] == v);
                    match v {
                        Value::Function(b) => {
                            assert(w.store.heap.cells[b as int] == t.store.heap.cells[b as int]);
                            assert(b != env);
                        },
                        _ => {},
                    }
                } else if j == n - 1 {
                    assert(c != env);
                    assert(function_at(w.store.heap, c) is Some);
                    assert(z.store.heap.cells[c as int] == w.store.heap.cells[c as int]);
                }
            },
            _ => {},
        }
    }
}

proof fn lemma_var_scope<'a>(s: EngineView<'a>, names: Seq<Seq<char>>, at: usize, n: nat, j: int, env: usize, f: Seq<char>, params: &'a Vec<Pattern>)
    requires
        s.store.heap.atoms.no_duplicates(),
        n <= names.len(),
        has_room(s.store, n as int + 2),
    ensures
        ({
            let t = with_vars(s, names, at, n);
            &&& t.store.heap.atoms.no_duplicates()
            &&& t.store.heap.atoms.len() <= s.store.heap.atoms.len() + n
            &&& t.store.heap.cells.len() == s.store.heap.cells.len()
            &&& bound_function(s, env, f, params) ==> bound_function(t, env, f, params) && t.store.atom(f) == s.store.atom(f)
            &&& scope_at(s.store.heap, at) is Some && at < s.store.heap.cells.len() ==> {
                &&& scope_at(t.store.heap, at) is Some
                &&& forall|a: usize| #[trigger] binds(s.store.heap, at, a) ==> binds(t.store.heap, at, a) && scope_at(t.store.heap, at)->0.vars[a] == scope_at(s.store.heap, at)->0.vars[a]
                &&& forall|a: usize| #[trigger] binds(t.store.heap, at, a) && !binds(s.store.heap, at, a) ==> scope_at(t.store.heap, at)->0.vars[a] is Undefined
                &&& 0 <= j < n ==> t.store.heap.atoms.contains(names[j]) && binds(t.store.heap, at, t.store.atom(names[j]))
            }
        }),
    decreases n,
{
    if n > 0 {
        let t = with_vars(s, names, at, (n - 1) as nat);
        lemma_var_scope(s, names, at, (n - 1) as nat, j, env, f, params);
        let x = names[n - 1];
        lemma_text(t.store, x, f);
        lemma_text(t.store, x, x);
        if 0 <= j < n {
            lemma_text(t.store, x, names[j]);
        }
        let a = t.store.atom(x);
        let u = t.with_store(t.store.with_text(x));
        let w = with_vars(s, names, at, n);
        assert(w.store.heap.atoms == u.store.heap.atoms);
        assert(forall|i: int| 0 <= i < u.store.heap.cells.len() && i != at ==> #[trigger] w.store.heap.cells[i] == t.store.heap.cells[i]);
        let h = t.store.heap;
        let g = w.store.heap;
        assert(scope_at(u.store.heap, at) == scope_at(h, at));
        if scope_at(s.store.heap, at) is Some && at < s.store.heap.cells.len() {
            assert(scope_at(g, at) is Some);
            assert(binds(g, at, a));
            assert forall|b: usize| #[trigger] binds(s.store.heap, at, b) implies binds(g, at, b) && scope_at(g, at)->0.vars[b] == scope_at(s.store.heap, at)->0.vars[b] by {
                assert(binds(h, at, b));
            }
            assert forall|b: usize| #[trigger] binds(g, at, b) && !binds(s.store.heap, at, b) implies scope_at(g, at)->0.vars[b] is Undefined by {
                if !binds(h, at, b) {
                    assert(b == a);
                }
            }
            if 0 <= j < n - 1 {
                assert(binds(h, at, t.store.atom(names[j])));
                assert(binds(g, at, w.store.atom(names[j])));
            }
        }
        if bound_function(s, env, f, params) {
            let own = t.store.atom(f);
            assert(binds(h, env, own));
            assert(w.store.atom(f) == own);
            match scope_at(h, env)->0.vars[own] {
                Value::Function(c) => {
                    if c == at {
                        assert(scope_at(h, at) is None);
                    }
                    assert(g.cells[c as int] == h.cells[c as int]);
                },
                _ => {},
            }
            if env != at {
                assert(g.cells[env as int] == h.cells[env as int]);
            }
        }
    }
}

/// A function that a list of statements declares is there before the list is executed:
/// its name means the last function declared under it, which closes over the scope of
/// the list.
pub proof fn law_functions_are_hoisted<'a>(s: EngineView<'a>, list: &'a Vec<Stmt>, env: usize, j: int)
    requires
        s.store.heap.atoms.no_duplicates(),
        env < s.store.heap.cells.len(),
        scope_at(s.store.heap, env) is Some,
        has_room(s.store, 3 * list@.len() as int + var_names(*list).len() as int + 4),
        0 <= j < list@.len(),
        list@[j] is FunctionDecl,
        forall|m: int| j < m < list@.len() ==> (#[trigger] list@[m] matches Stmt::FunctionDecl { name: f, .. } ==> f@ != list@[j]->FunctionDecl_name@),
    ensures
        ({
            let t = s.hoist(list, env);
            t.lookup(env, t.store.atom(list@[j]->FunctionDecl_name@)) matches Some(Value::Function(c)) && (t.function(c) matches Some(d) && d.closure == env && d.params == Some(&list@[j]->FunctionDecl_params) && d.this_capture is None)
        }),
{
    reveal(EngineView::hoist);
    lemma_declared(s, list, env, list@.len(), j);
    let d = with_declarations(s, list, env, list@.len());
    let names = var_names(*list);
    lemma_var_scope(d, names, d.function_scope(env), names.len(), 0, env, list@[j]->FunctionDecl_name@, &list@[j]->FunctionDecl_params);
}

/// A name that `var` declares is bound in the scope of the function before the list is
/// executed: to what it was bound to there before, and else to `undefined`.
pub proof fn law_vars_are_hoisted<'a>(s: EngineView<'a>, names: Seq<Seq<char>>, at: usize, j: int)
    requires
        s.store.heap.atoms.no_duplicates(),
        at < s.store.heap.cells.len(),
        scope_at(s.store.heap, at) is Some,
        has_room(s.store, names.len() as int + 2),
        0 <= j < names.len(),
    ensures
        ({
            let t = with_vars(s, names, at, names.len());
            let a = t.store.atom(names[j]);
            &&& binds(t.store.heap, at, a)
            &&& t.lookup(at, a) == Some(if binds(s.store.heap, at, a) { scope_at(s.store.heap, at)->0.vars[a] } else { Value::Undefined })
        }),
{
    let f: &'a Vec<Pattern> = arbitrary();
    lemma_var_scope(s, names, at, names.len(), j, at, Seq::empty(), f);
}

/// Whether a list of statements is part of a statement, in the same function.
pub open spec fn part_of(x: Stmt, l: Vec<Stmt>, i: int) -> bool {
    match x {
        Stmt::Block(b) => l == b,
        Stmt::If { yes, no, .. } => l == yes || l == no,
        Stmt::For { body, .. } => l == body,
        Stmt::ForIn { body, .. } => l == body,
        Stmt::ForOf { body, .. } => l == body,
        Stmt::While { body, .. } => l == body,
        Stmt::DoWhile { body, .. } => l == body,
        Stmt::Try { try_block, catch, finally } => l == try_block || (catch matches Some(c) && l == c.body) || (finally matches Some(f) && l == f),
        Stmt::Switch { cases, .. } => 0 <= i < cases@.len() && l == cases@[i].body,
        _ => false,
    }
}

proof fn lemma_joined(a: Seq<Seq<char>>, b: Seq<Seq<char>>, n: Seq<char>)
    ensures
        (a + b).contains(n) <==> a.contains(n) || b.contains(n),
{
    let c = a + b;
    if a.contains(n) {
        let i = choose|i: int| 0 <= i < a.len() && a[i] == n;
        assert(c[i] == n);
    }
    if b.contains(n) {
        let i = choose|i: int| 0 <= i < b.len() && b[i] == n;
        assert(c[a.len() + i] == n);
    }
    if c.contains(n) {
        let i = choose|i: int| 0 <= i < c.len() && c[i] == n;
        if i < a.len() {
            assert(a[i] == n);
        } else {
            assert(b[i - a.len()] == n);
        }
    }
}

proof fn lemma_case(cases: Vec<SwitchCase>, k: nat, i: int, n: Seq<char>)
    requires
        0 <= i < k <= cases@.len(),
        list_vars(cases@[i].body, cases@[i].body@.len()).contains(n),
    ensures
        case_vars(cases, k).contains(n),
    decreases k,
{
    lemma_joined(case_vars(cases, (k - 1) as nat), list_vars(cases@[k - 1].body, cases@[k - 1].body@.len()), n);
    if i < k - 1 {
        lemma_case(cases, (k - 1) as nat, i, n);
    }
}

/// A name that `var` declares anywhere in a list of statements, in blocks, branches,
/// loops, clauses or `try` statements, is declared by the whole statement that holds the
/// list. `let` and `const` declare nothing outside their own list, and the body of a
/// function declares nothing outside the function.
pub proof fn law_nested_vars(x: Stmt, l: Vec<Stmt>, i: int, n: Seq<char>)
    ensures
        part_of(x, l, i) && list_vars(l, l@.len()).contains(n) ==> stmt_vars(x).contains(n),
        x matches Stmt::Labeled { body, .. } ==> (stmt_vars(*body).contains(n) ==> stmt_vars(x).contains(n)),
        x matches Stmt::Var(list, kind) ==> (!(kind is Var) ==> !stmt_vars(x).contains(n)),
        x is FunctionDecl || x is Expr || x is Return || x is Throw ==> !stmt_vars(x).contains(n),
{
    if part_of(x, l, i) && list_vars(l, l@.len()).contains(n) {
        match x {
            Stmt::If { yes, no, .. } => {
                lemma_joined(list_vars(yes, yes@.len()), list_vars(no, no@.len()), n);
            },
            Stmt::For { init, body, .. } => {
                let a = match init {
                    Some(b) => stmt_vars(*b),
                    None => Seq::empty(),
                };
                lemma_joined(a, list_vars(body, body@.len()), n);
            },
            Stmt::ForIn { kind, name, body, .. } => {
                lemma_joined(head_vars(kind, name), list_vars(body, body@.len()), n);
            },
            Stmt::ForOf { kind, name, body, .. } => {
                lemma_joined(head_vars(kind, name), list_vars(body, body@.len()), n);
            },
            Stmt::Try { try_block, catch, finally } => {
                let a = list_vars(try_block, try_block@.len());
                let b = match catch {
                    Some(c) => list_vars(c.body, c.body@.len()),
                    None => Seq::empty(),
                };
                let c = match finally {
                    Some(f) => list_vars(f, f@.len()),
                    None => Seq::empty(),
                };
                lemma_joined(a, b, n);
                lemma_joined(a + b, c, n);
            },
            Stmt::Switch { cases, .. } => {
                lemma_case(cases, cases@.len(), i, n);
            },
            _ => {},
        }
    }
}

/// A name that a statement of a list declares with `var`, the list declares.
pub proof fn law_list_vars(l: Vec<Stmt>, k: nat, i: int, n: Seq<char>)
    requires
        0 <= i < k <= l@.len(),
        stmt_vars(l@[i]).contains(n),
    ensures
        list_vars(l, k).contains(n),
    decreases k,
{
    lemma_joined(list_vars(l, (k - 1) as nat), stmt_vars(l@[k - 1]), n);
    if i < k - 1 {
        law_list_vars(l, (k - 1) as nat, i, n);
    }
}

/// Two declarations of one name in the clauses of a `switch` exclude each other unless
/// both are `var`, or both are plain functions in code that is not strict.
pub proof fn law_redeclarations(a: Binding, b: Binding, strict: bool)
    ensures
        excludes(a, b, strict) == excludes(b, a, strict),
        a == Binding::Lexical ==> excludes(a, b, strict),
        !excludes(Binding::Var, Binding::Var, strict),
        excludes(Binding::Function, Binding::Function, strict) <==> strict,
        excludes(Binding::Var, Binding::Function, strict),
{
}

/// A name that is declared with `let` or `const` and once more makes a `switch` refused,
/// in whichever clauses it stands.
pub proof fn law_double_declarations(cases: Seq<SwitchCaseTree>, strict: bool, i: int, k: int)
    requires
        0 <= i < k < case_names(cases, 0, Seq::empty()).len(),
        case_names(cases, 0, Seq::empty())[i].name == case_names(cases, 0, Seq::empty())[k].name,
        case_names(cases, 0, Seq::empty())[i].binding == Binding::Lexical || case_names(cases, 0, Seq::empty())[k].binding == Binding::Lexical,
    ensures
        redeclared(cases, strict),
        binding_of(VarKind::Let) == Binding::Lexical,
        binding_of(VarKind::Const) == Binding::Lexical,
        binding_of(VarKind::Var) == Binding::Var,
{
    assert(pair_excludes(case_names(cases, 0, Seq::empty()), i, k, strict));
}

} // verus!
