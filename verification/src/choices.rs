//! The meaning of `switch`, of loops over items, of declarations and of patterns.
use vstd::prelude::*;
use crate::ast::{Declarator, Pattern, Stmt, VarKind};
use crate::engine::{Completion, EngineView, Frame, Mode};
use crate::expressions::knowing;
use crate::frames::{
    on_bind, on_bind_decl, on_bind_elems, on_each_body, on_each_next, on_each_step, on_for_of_on, on_head_bind, on_iter_done, on_iter_value, on_mark_const,
    on_stmt, on_switch_match, on_switch_on, on_switch_run, on_switch_test, on_var_list,
};
use crate::meaning::{calm, evaluates, has_value, leads, lemma_follow, lemma_value, on};
use crate::object::array_at;
use crate::ops::items_of;
use crate::calling::binds_to;
use crate::statements::{ends, executes, first_of, leaves_all, lemma_runs, repeats, runs};
use crate::value::Value;

verus! {

/// Whether what is left of a `switch`, from the test of a clause on, takes the machine
/// from one state to another.
pub open spec fn tests<'a>(s: EngineView<'a>, x: &'a Stmt, env: usize, given: Value, i: usize, default: Option<usize>, t: EngineView<'a>) -> bool {
    forall|k: Seq<Frame<'a>>| leads(#[trigger] on(s, k).push(Frame::SwitchTest { stmt: x, env, on: given, i, default }), on(t, k))
}

/// Whether the clauses of a `switch`, from one on, take the machine from one state to
/// another.
pub open spec fn enters<'a>(s: EngineView<'a>, x: &'a Stmt, env: usize, i: usize, value: Option<Value>, t: EngineView<'a>) -> bool {
    forall|k: Seq<Frame<'a>>| leads(#[trigger] on(s, k).switch_go(x, env, i, value), on(t, k))
}

/// A `switch` evaluates what it chooses by, and then tests its clauses from the first
/// on, in a scope that they share.
pub proof fn law_switch<'a>(s: EngineView<'a>, x: &'a Stmt, env: usize, label: Option<usize>, t: EngineView<'a>, v: Value, w: EngineView<'a>)
    requires
        calm(s),
        has_value(t, v),
        x matches Stmt::Switch { discriminant, .. } && evaluates(s, discriminant, env, t),
        tests(t.new_scope(env, false).0, x, t.store.heap.cells.len() as usize, v, 0, None, w),
    ensures
        executes(s, x, env, label, w),
{
    assert forall|k: Seq<Frame<'a>>| leads(#[trigger] on(s, k).push(Frame::Stmt(x, env, label)), on(w, k)) by {
        match x {
            Stmt::Switch { discriminant, .. } => {
                let start = on(s, k).push(Frame::Stmt(x, env, label));
                let f = Frame::SwitchOn(x, env);
                let scope = t.store.heap.cells.len() as usize;
                let n = t.new_scope(env, false).0;
                let g = Frame::SwitchTest { stmt: x, env: scope, on: v, i: 0, default: None };
                on_stmt(s, k, x, env, label);
                lemma_value(s, discriminant, env, t, k.push(f));
                lemma_follow(start, on(s, k.push(f)).push(Frame::Expr(discriminant, env)), on(t, k).push(f));
                on_switch_on(t, k, x, env);
                lemma_follow(start, on(t, k).push(f), on(n, k).push(g));
                assert(leads(on(n, k).push(g), on(w, k)));
                lemma_follow(start, on(n, k).push(g), on(w, k));
            },
            _ => {},
        }
    }
}

/// The first clause whose test gives an equal value is entered; a `default` clause is
/// passed over until all tests have failed, and is then entered. Where there is none,
/// the statement has the value `undefined`.
pub proof fn law_switch_tests<'a>(s: EngineView<'a>, x: &'a Stmt, env: usize, given: Value, i: usize, default: Option<usize>, t: EngineView<'a>, v: Value, w: EngineView<'a>)
    requires
        calm(s),
        i < usize::MAX,
        x matches Stmt::Switch { cases, .. } && (if i < cases@.len() {
            match &cases@[i as int].test {
                Some(e) => has_value(t, v) && evaluates(s, e, env, t) && (if given.equals(v) {
                    enters(t, x, env, i, Some(Value::Undefined), w)
                } else {
                    tests(t, x, env, given, (i + 1) as usize, default, w)
                }),
                None => tests(s, x, env, given, (i + 1) as usize, if default is Some { default } else { Some(i) }, w),
            }
        } else {
            match default {
                Some(d) => enters(s, x, env, d, Some(Value::Undefined), w),
                None => w == s.ret(Value::Undefined),
            }
        }),
    ensures
        tests(s, x, env, given, i, default, w),
{
    assert forall|k: Seq<Frame<'a>>| leads(#[trigger] on(s, k).push(Frame::SwitchTest { stmt: x, env, on: given, i, default }), on(w, k)) by {
        let start = on(s, k).push(Frame::SwitchTest { stmt: x, env, on: given, i, default });
        on_switch_test(s, k, x, env, given, i, default);
        match x {
            Stmt::Switch { cases, .. } => {
                if i < cases@.len() {
                    match &cases@[i as int].test {
                        Some(e) => {
                            let f = Frame::SwitchMatch { stmt: x, env, on: given, i, default };
                            lemma_value(s, e, env, t, k.push(f));
                            lemma_follow(start, on(s, k.push(f)).push(Frame::Expr(e, env)), on(t, k).push(f));
                            on_switch_match(t, k, x, env, given, i, default);
                            if given.equals(v) {
                                lemma_follow(start, on(t, k).push(f), on(t, k).switch_go(x, env, i, Some(Value::Undefined)));
                                assert(leads(on(t, k).switch_go(x, env, i, Some(Value::Undefined)), on(w, k)));
                                lemma_follow(start, on(t, k).switch_go(x, env, i, Some(Value::Undefined)), on(w, k));
                            } else {
                                let g = Frame::SwitchTest { stmt: x, env, on: given, i: (i + 1) as usize, default };
                                lemma_follow(start, on(t, k).push(f), on(t, k).push(g));
                                assert(leads(on(t, k).push(g), on(w, k)));
                                lemma_follow(start, on(t, k).push(g), on(w, k));
                            }
                        },
                        None => {
                            let g = Frame::SwitchTest { stmt: x, env, on: given, i: (i + 1) as usize, default: if default is Some { default } else { Some(i) } };
                            assert(leads(on(s, k).push(g), on(w, k)));
                            lemma_follow(start, on(s, k).push(g), on(w, k));
                        },
                    }
                } else {
                    match default {
                        Some(d) => {
                            assert(leads(on(s, k).switch_go(x, env, d, Some(Value::Undefined)), on(w, k)));
                            lemma_follow(start, on(s, k).switch_go(x, env, d, Some(Value::Undefined)), on(w, k));
                        },
                        None => {},
                    }
                }
            },
            _ => {},
        }
    }
}

/// A clause that is entered is executed, and then the clauses behind it, up to a
/// `break`; a `break` without a label ends the `switch` with its value, and everything
/// else that is abrupt leaves it.
pub proof fn law_switch_falls_through<'a>(s: EngineView<'a>, x: &'a Stmt, env: usize, i: usize, value: Option<Value>, t: EngineView<'a>, w: EngineView<'a>)
    requires
        calm(s),
        i < usize::MAX,
        t.ready(),
        x matches Stmt::Switch { cases, .. } && (if i < cases@.len() {
            runs(s, &cases@[i as int].body, env, t) && match t.acc {
                Completion::Normal(v) => enters(t, x, env, (i + 1) as usize, first_of(v, value), w),
                Completion::Break(None, v) => w == t.ret(match first_of(v, value) {
                    Some(r) => r,
                    None => Value::Undefined,
                }),
                Completion::Break(l, v) => w == t.done(Completion::Break(l, first_of(v, value))),
                Completion::Continue(l, v) => w == t.done(Completion::Continue(l, first_of(v, value))),
                _ => leaves_all(t.acc) && w == t,
            }
        } else {
            w == s.done(Completion::Normal(value))
        }),
    ensures
        enters(s, x, env, i, value, w),
{
    assert forall|k: Seq<Frame<'a>>| leads(#[trigger] on(s, k).switch_go(x, env, i, value), on(w, k)) by {
        let start = on(s, k).switch_go(x, env, i, value);
        match x {
            Stmt::Switch { cases, .. } => {
                if i < cases@.len() {
                    let f = Frame::SwitchRun { stmt: x, env, i: (i + 1) as usize, value };
                    assert(start == on(s, k.push(f)).run_list(&cases@[i as int].body, env));
                    lemma_runs(s, &cases@[i as int].body, env, t, k.push(f));
                    on_switch_run(t, k, x, env, (i + 1) as usize, value);
                    lemma_follow(start, on(t, k).push(f), on(t, k).exec_switch_from(x, env, (i + 1) as usize, value));
                    match t.acc {
                        Completion::Normal(v) => {
                            let go = on(t, k).switch_go(x, env, (i + 1) as usize, first_of(v, value));
                            assert(leads(go, on(w, k)));
                            lemma_follow(start, go, on(w, k));
                        },
                        _ => {},
                    }
                } else {
                    assert(start == on(w, k));
                    assert(start.steps(0) == start);
                }
            },
            _ => {},
        }
    }
}

/// Whether what is left of a loop over items, from one item on, takes the machine from
/// one state to another.
pub open spec fn visits<'a>(s: EngineView<'a>, x: &'a Stmt, env: usize, label: Option<usize>, source: usize, i: usize, value: Option<Value>, t: EngineView<'a>) -> bool {
    forall|k: Seq<Frame<'a>>| leads(#[trigger] on(s, k).push(Frame::EachNext { stmt: x, env, label, source, i, value }), on(t, k))
}

/// A `for`-`of` over an array visits its elements from the first on.
pub proof fn law_for_of<'a>(s: EngineView<'a>, x: &'a Stmt, env: usize, label: Option<usize>, t: EngineView<'a>, a: usize, w: EngineView<'a>)
    requires
        calm(s),
        has_value(t, Value::Array(a)),
        x matches Stmt::ForOf { expr, .. } && evaluates(s, expr, env, t),
        visits(t, x, env, label, a, 0, Some(Value::Undefined), w),
    ensures
        executes(s, x, env, label, w),
{
    assert forall|k: Seq<Frame<'a>>| leads(#[trigger] on(s, k).push(Frame::Stmt(x, env, label)), on(w, k)) by {
        match x {
            Stmt::ForOf { expr, .. } => {
                let start = on(s, k).push(Frame::Stmt(x, env, label));
                let f = Frame::ForOfOn(x, env, label);
                let g = Frame::EachNext { stmt: x, env, label, source: a, i: 0, value: Some(Value::Undefined) };
                on_stmt(s, k, x, env, label);
                lemma_value(s, expr, env, t, k.push(f));
                lemma_follow(start, on(s, k.push(f)).push(Frame::Expr(expr, env)), on(t, k).push(f));
                on_for_of_on(t, k, x, env, label);
                lemma_follow(start, on(t, k).push(f), on(t, k).push(g));
                assert(leads(on(t, k).push(g), on(w, k)));
                lemma_follow(start, on(t, k).push(g), on(w, k));
            },
            _ => {},
        }
    }
}

/// Behind the last item a loop over items ends with its value.
pub proof fn law_items_end<'a>(s: EngineView<'a>, x: &'a Stmt, env: usize, label: Option<usize>, source: usize, i: usize, value: Option<Value>)
    requires
        calm(s),
        i >= s.array_len(source),
    ensures
        visits(s, x, env, label, source, i, value, s.done(Completion::Normal(value))),
{
    let w = s.done(Completion::Normal(value));
    assert forall|k: Seq<Frame<'a>>| leads(#[trigger] on(s, k).push(Frame::EachNext { stmt: x, env, label, source, i, value }), on(w, k)) by {
        on_each_next(s, k, x, env, label, source, i, value);
        assert(on(s, k).array_len(source) == s.array_len(source));
        assert(on(s, k).each_next(x, env, label, source, i, value) == on(w, k));
    }
}

/// A loop over items whose head declares with `let` binds each item in a new scope and
/// executes the body there; then it goes on with the next item, or ends as the body
/// ended.
pub proof fn law_items<'a>(s: EngineView<'a>, x: &'a Stmt, env: usize, label: Option<usize>, source: usize, i: usize, value: Option<Value>, t: EngineView<'a>, u: EngineView<'a>, next: Option<Value>, end: Completion, w: EngineView<'a>)
    requires
        calm(s),
        i < usize::MAX,
        i < s.array_len(source),
        calm(t),
        u.ready(),
        match x {
            Stmt::ForOf { kind, name, body, .. } => *kind is Let && binds_to(s.new_scope(env, false).0, name, s.store.heap.cells.len() as usize, s.array_get(source, i), t) && runs(t, body, s.store.heap.cells.len() as usize, u),
            Stmt::ForIn { kind, name, body, .. } => *kind is Let && binds_to(s.new_scope(env, false).0, name, s.store.heap.cells.len() as usize, s.array_get(source, i), t) && runs(t, body, s.store.heap.cells.len() as usize, u),
            _ => false,
        },
        (repeats(u.acc, label, value, next) && visits(u.ret_empty(), x, env, label, source, (i + 1) as usize, next, w)) || (ends(u.acc, label, value, end) && w == u.done(end)),
    ensures
        visits(s, x, env, label, source, i, value, w),
{
    assert forall|k: Seq<Frame<'a>>| leads(#[trigger] on(s, k).push(Frame::EachNext { stmt: x, env, label, source, i, value }), on(w, k)) by {
        let start = on(s, k).push(Frame::EachNext { stmt: x, env, label, source, i, value });
        let scope = s.store.heap.cells.len() as usize;
        let v = s.array_get(source, i);
        let (name, body) = match x {
            Stmt::ForOf { name, body, .. } => (name, body),
            Stmt::ForIn { name, body, .. } => (name, body),
            _ => arbitrary(),
        };
        let n = s.new_scope(env, false).0;
        let f = Frame::EachBody { stmt: x, env, label, source, i, value, body_env: scope };
        let b = Frame::Bind(name, scope, Mode::Bind);
        let kh = k.push(f).push(Frame::HeadBind);
        on_each_next(s, k, x, env, label, source, i, value);
        assert(on(s, k).array_len(source) == s.array_len(source));
        assert(on(s, k).array_get(source, i) == v);
        assert(on(s, k).each_next(x, env, label, source, i, value) == on(n.ret(v), kh).push(b));
        assert(leads(on(n.ret(v), kh).push(b), on(t, kh)));
        lemma_follow(start, on(n.ret(v), kh).push(b), on(t, kh));
        on_head_bind(t, k.push(f));
        lemma_follow(start, on(t, kh), on(t, k).push(f));
        on_each_body(t, k, x, env, label, source, i, value, scope);
        let g = Frame::EachStep { stmt: x, env, label, source, i, value };
        lemma_follow(start, on(t, k).push(f), on(t, k.push(g)).run_list(body, scope));
        lemma_runs(t, body, scope, u, k.push(g));
        lemma_follow(start, on(t, k.push(g)).run_list(body, scope), on(u, k).push(g));
        on_each_step(u, k, x, env, label, source, i, value);
        lemma_follow(start, on(u, k).push(g), on(u, k).each_step(x, env, label, source, i, value));
        if repeats(u.acc, label, value, next) {
            let h = Frame::EachNext { stmt: x, env, label, source, i: (i + 1) as usize, value: next };
            assert(leads(on(u.ret_empty(), k).push(h), on(w, k)));
            lemma_follow(start, on(u.ret_empty(), k).push(h), on(w, k));
        }
    }
}

/// Whether what is left of a declaration takes the machine from one state to another.
pub open spec fn declares<'a>(s: EngineView<'a>, list: &'a Vec<Declarator>, i: usize, kind: VarKind, scope: usize, env: usize, t: EngineView<'a>) -> bool {
    forall|k: Seq<Frame<'a>>| leads(#[trigger] on(s, k).push(Frame::VarList(list, i, kind, scope, env)), on(t, k))
}

/// `var` declares in the scope of the function, `let` and `const` in the present one. A
/// declaration has no value.
pub proof fn law_declarations<'a>(s: EngineView<'a>, x: &'a Stmt, env: usize, label: Option<usize>, t: EngineView<'a>)
    requires
        calm(s),
        x matches Stmt::Var(list, kind) && declares(s, list, 0, *kind, if *kind is Var { s.function_scope(env) } else { env }, env, t),
    ensures
        executes(s, x, env, label, t),
{
    assert forall|k: Seq<Frame<'a>>| leads(#[trigger] on(s, k).push(Frame::Stmt(x, env, label)), on(t, k)) by {
        match x {
            Stmt::Var(list, kind) => {
                let scope = if *kind is Var { s.function_scope(env) } else { env };
                let f = Frame::VarList(list, 0, *kind, scope, env);
                on_stmt(s, k, x, env, label);
                assert(on(s, k).function_scope(env) == s.function_scope(env));
                assert(leads(on(s, k).push(f), on(t, k)));
                lemma_follow(on(s, k).push(Frame::Stmt(x, env, label)), on(s, k).push(f), on(t, k));
            },
            _ => {},
        }
    }
}

/// Declarators are evaluated in turn: the initializer in the present scope, or
/// `undefined` where there is none, and the pattern is bound to its value in the scope
/// of the declaration. The names of a constant are fixed once they are bound.
pub proof fn law_declarators<'a>(s: EngineView<'a>, list: &'a Vec<Declarator>, i: usize, kind: VarKind, scope: usize, env: usize, t: EngineView<'a>, v: Value, u: EngineView<'a>, w: EngineView<'a>)
    requires
        calm(s),
        i < usize::MAX,
        i >= list@.len() ==> w == s.ret_empty(),
        i < list@.len() ==> calm(u) && (match &list@[i as int].init {
            Some(e) => evaluates(s, e, env, t) && has_value(t, v),
            None => t == s && v is Undefined,
        }) && binds_to(t, &list@[i as int].pat, scope, v, u) && declares(if kind is Const { u.mark_const(&list@[i as int].pat, scope) } else { u }, list, (i + 1) as usize, kind, scope, env, w),
    ensures
        declares(s, list, i, kind, scope, env, w),
{
    assert forall|k: Seq<Frame<'a>>| leads(#[trigger] on(s, k).push(Frame::VarList(list, i, kind, scope, env)), on(w, k)) by {
        let start = on(s, k).push(Frame::VarList(list, i, kind, scope, env));
        on_var_list(s, k, list, i, kind, scope, env);
        if i < list@.len() {
            let pat = &list@[i as int].pat;
            let f = Frame::VarList(list, (i + 1) as usize, kind, scope, env);
            let g = Frame::BindDecl(pat, scope, kind is Const);
            let tv = t.ret(v);
            match &list@[i as int].init {
                Some(e) => {
                    assert(tv == t);
                    lemma_value(s, e, env, t, k.push(f).push(g));
                    lemma_follow(start, on(s, k.push(f).push(g)).push(Frame::Expr(e, env)), on(tv, k.push(f)).push(g));
                },
                None => {},
            }
            assert(leads(start, on(tv, k.push(f)).push(g)));
            on_bind_decl(tv, k.push(f), pat, scope, kind is Const);
            let b = Frame::Bind(pat, scope, Mode::Bind);
            if kind is Const {
                let m = Frame::MarkConst(pat, scope);
                lemma_follow(start, on(tv, k.push(f)).push(g), on(tv, k.push(f).push(m)).push(b));
                assert(leads(on(tv, k.push(f).push(m)).push(b), on(u, k.push(f).push(m))));
                lemma_follow(start, on(tv, k.push(f).push(m)).push(b), on(u, k.push(f)).push(m));
                on_mark_const(u, k.push(f), pat, scope);
                lemma_mark_on(u, k.push(f), pat, scope);
                let c = u.mark_const(pat, scope);
                lemma_follow(start, on(u, k.push(f)).push(m), on(c, k).push(f));
                assert(leads(on(c, k).push(f), on(w, k)));
                lemma_follow(start, on(c, k).push(f), on(w, k));
            } else {
                lemma_follow(start, on(tv, k.push(f)).push(g), on(tv, k.push(f)).push(b));
                assert(leads(on(tv, k.push(f)).push(b), on(u, k.push(f))));
                lemma_follow(start, on(tv, k.push(f)).push(b), on(u, k).push(f));
                assert(leads(on(u, k).push(f), on(w, k)));
                lemma_follow(start, on(u, k).push(f), on(w, k));
            }
        }
    }
}

proof fn lemma_mark_on<'a>(s: EngineView<'a>, k: Seq<Frame<'a>>, pat: &'a Pattern, env: usize)
    ensures
        on(s, k).mark_const(pat, env) == on(s.mark_const(pat, env), k),
{
    let names = crate::names::pattern_names(*pat);
    lemma_fixed_on(s, k, names, env, names.len());
}

proof fn lemma_fixed_on<'a>(s: EngineView<'a>, k: Seq<Frame<'a>>, names: Seq<Seq<char>>, env: usize, n: nat)
    ensures
        crate::make::with_fixed(on(s, k), names, env, n) == on(crate::make::with_fixed(s, names, env, n), k),
    decreases n,
{
    if n > 0 && n <= names.len() {
        lemma_fixed_on(s, k, names, env, (n - 1) as nat);
    }
}

/// A name in a pattern is bound to the value in the given scope.
pub proof fn law_name_patterns<'a>(s: EngineView<'a>, pat: &'a Pattern, env: usize, v: Value)
    requires
        s.ready(),
        pat is Ident,
    ensures
        pat matches Pattern::Ident(n) && binds_to(s, pat, env, v, knowing(s, n@).bind(env, s.store.atom(n@), v).ret(v)),
{
    match pat {
        Pattern::Ident(n) => {
            let w = knowing(s, n@).bind(env, s.store.atom(n@), v).ret(v);
            assert forall|k: Seq<Frame<'a>>| leads(#[trigger] on(s.ret(v), k).push(Frame::Bind(pat, env, Mode::Bind)), on(w, k)) by {
                on_bind(s.ret(v), k, pat, env, Mode::Bind);
                assert(on(s.ret(v), k).bind_pattern(pat, env, Mode::Bind) == on(w, k));
            }
        },
        _ => {},
    }
}

/// The default of a pattern is evaluated only where the value is `undefined`, and is
/// then bound in its place.
pub proof fn law_default_patterns<'a>(s: EngineView<'a>, pat: &'a Pattern, env: usize, v: Value, t: EngineView<'a>, d: Value, w: EngineView<'a>)
    requires
        s.ready(),
        pat matches Pattern::Default { inner, default } && (if v is Undefined {
            has_value(t, d) && evaluates(s.ret(v), &**default, env, t) && binds_to(t, &**inner, env, d, w)
        } else {
            binds_to(s, &**inner, env, v, w)
        }),
    ensures
        binds_to(s, pat, env, v, w),
{
    assert forall|k: Seq<Frame<'a>>| leads(#[trigger] on(s.ret(v), k).push(Frame::Bind(pat, env, Mode::Bind)), on(w, k)) by {
        let start = on(s.ret(v), k).push(Frame::Bind(pat, env, Mode::Bind));
        on_bind(s.ret(v), k, pat, env, Mode::Bind);
        match pat {
            Pattern::Default { inner, default } => {
                let f = Frame::Bind(&**inner, env, Mode::Bind);
                if v is Undefined {
                    lemma_value(s.ret(v), &**default, env, t, k.push(f));
                    lemma_follow(start, on(s.ret(v), k.push(f)).push(Frame::Expr(&**default, env)), on(t, k).push(f));
                    assert(t.ret(d) == t);
                    assert(leads(on(t.ret(d), k).push(f), on(w, k)));
                    lemma_follow(start, on(t, k).push(f), on(w, k));
                } else {
                    assert(leads(on(s.ret(v), k).push(f), on(w, k)));
                    lemma_follow(start, on(s.ret(v), k).push(f), on(w, k));
                }
            },
            _ => {},
        }
    }
}

/// Whether what is left of an array pattern, from an element on, takes the machine from
/// one state to another; the items are in a list.
pub open spec fn takes_apart<'a>(s: EngineView<'a>, pat: &'a Pattern, env: usize, i: usize, list: usize, t: EngineView<'a>) -> bool {
    forall|k: Seq<Frame<'a>>| leads(#[trigger] on(s, k).push(Frame::BindElems(pat, env, Mode::Bind, i, list)), on(t, k))
}

/// The elements of an array pattern are bound in turn to the items at their places, or
/// to `undefined` behind the last; holes skip theirs. The rest gets a new array of the
/// items that are left.
pub proof fn law_array_patterns<'a>(s: EngineView<'a>, pat: &'a Pattern, env: usize, i: usize, list: usize, t: EngineView<'a>, w: EngineView<'a>)
    requires
        calm(s),
        i < usize::MAX,
        pat matches Pattern::Array { elems, rest } && (if i < elems@.len() {
            match &elems@[i as int] {
                Some(p) => calm(t) && binds_to(s, p, env, if i < items_of(s.store.heap, list).len() { items_of(s.store.heap, list)[i as int] } else { Value::Undefined }, t) && takes_apart(t, pat, env, (i + 1) as usize, list, w),
                None => takes_apart(s, pat, env, (i + 1) as usize, list, w),
            }
        } else {
            match rest {
                Some(r) => i <= items_of(s.store.heap, list).len() && binds_to(s.with_store(crate::ops::with_new_array(s.store, items_of(s.store.heap, list).skip(i as int))), &**r, env, Value::Array(s.store.heap.cells.len() as usize), w),
                None => w == s,
            }
        }),
    ensures
        takes_apart(s, pat, env, i, list, w),
{
    assert forall|k: Seq<Frame<'a>>| leads(#[trigger] on(s, k).push(Frame::BindElems(pat, env, Mode::Bind, i, list)), on(w, k)) by {
        let start = on(s, k).push(Frame::BindElems(pat, env, Mode::Bind, i, list));
        on_bind_elems(s, k, pat, env, Mode::Bind, i, list);
        match pat {
            Pattern::Array { elems, rest } => {
                let f = Frame::BindElems(pat, env, Mode::Bind, (i + 1) as usize, list);
                if i < elems@.len() {
                    match &elems@[i as int] {
                        Some(p) => {
                            let v = if i < items_of(s.store.heap, list).len() { items_of(s.store.heap, list)[i as int] } else { Value::Undefined };
                            let b = Frame::Bind(p, env, Mode::Bind);
                            assert(leads(on(s.ret(v), k.push(f)).push(b), on(t, k.push(f))));
                            lemma_follow(start, on(s.ret(v), k.push(f)).push(b), on(t, k).push(f));
                            assert(leads(on(t, k).push(f), on(w, k)));
                            lemma_follow(start, on(t, k).push(f), on(w, k));
                        },
                        None => {
                            assert(leads(on(s, k).push(f), on(w, k)));
                            lemma_follow(start, on(s, k).push(f), on(w, k));
                        },
                    }
                } else {
                    match rest {
                        Some(r) => {
                            let n = s.with_store(crate::ops::with_new_array(s.store, items_of(s.store.heap, list).skip(i as int)));
                            let v = Value::Array(s.store.heap.cells.len() as usize);
                            let b = Frame::Bind(&**r, env, Mode::Bind);
                            assert(on(s, k).bind_elems(pat, env, Mode::Bind, i, list) == on(n.ret(v), k).push(b));
                            assert(leads(on(n.ret(v), k).push(b), on(w, k)));
                            lemma_follow(start, on(n.ret(v), k).push(b), on(w, k));
                        },
                        None => {},
                    }
                }
            },
            _ => {},
        }
    }
}

/// An iterator is drawn from until a result says that it is done. The value of every
/// result before that is added behind those that were drawn, and the iterator is
/// advanced again.
pub proof fn law_iterators<'a>(s: EngineView<'a>, k: Seq<Frame<'a>>, it: Value, list: usize, r: Value, done: Value) -> (w: EngineView<'a>)
    requires
        has_value(s, done),
        list < s.store.heap.cells.len(),
        array_at(s.store.heap, list) is Some,
    ensures
        leads(on(s, k).push(Frame::IterDone(it, list, r)), w),
        s.truthy(done) ==> w == on(s, k),
        !s.truthy(done) ==> w == on(s, k).push(Frame::IterValue(it, list)).read_prop(r, s.store.n.value),
        forall|u: EngineView<'a>, v: Value| #[trigger] has_value(u, v) && list < u.store.heap.cells.len() && array_at(u.store.heap, list) is Some ==> {
            let x = u.append(list, v);
            &&& leads(on(u, k).push(Frame::IterValue(it, list)), on(x, k).push(Frame::IterNext(it, list)))
            &&& items_of(x.store.heap, list) == items_of(u.store.heap, list).push(v)
        },
{
    on_iter_done(s, k, it, list, r);
    assert(on(s, k).truthy(done) == s.truthy(done));
    assert forall|u: EngineView<'a>, v: Value| #[trigger] has_value(u, v) && list < u.store.heap.cells.len() && array_at(u.store.heap, list) is Some implies {
        let x = u.append(list, v);
        &&& leads(on(u, k).push(Frame::IterValue(it, list)), on(x, k).push(Frame::IterNext(it, list)))
        &&& items_of(x.store.heap, list) == items_of(u.store.heap, list).push(v)
    } by {
        on_iter_value(u, k, it, list);
        assert(items_of(u.append(list, v).store.heap, list) =~= items_of(u.store.heap, list).push(v));
    }
    on(s, k).iter_done(it, list, r)
}

} // verus!
