//! The meaning of statements: how a statement ends, in terms of how its parts end, in
//! whatever surroundings it is executed.
use vstd::prelude::*;
use crate::ast::{CatchClause, Stmt};
use crate::engine::{Completion, EngineView, Frame};
use crate::frames::{
    on_catch_end, on_do_body, on_do_cond, on_do_step, on_finally_end, on_for_cond, on_for_head, on_for_step, on_for_test,
    on_if_end, on_if_test, on_label_end, on_return_end, on_stmt, on_stmts, on_throw_end, on_try_end,
    on_while_cond, on_while_step, on_while_test,
};
use crate::make::{with_declarations, with_vars};
use crate::meaning::{calm, evaluates, has_value, leads, lemma_follow, lemma_value, on};
use crate::names::var_names;
use crate::stmt::is_tail_call;
use crate::value::Value;

verus! {

/// Whether a statement takes the machine from one state to another, whatever comes
/// after it.
pub open spec fn executes<'a>(s: EngineView<'a>, x: &'a Stmt, env: usize, label: Option<usize>, t: EngineView<'a>) -> bool {
    forall|k: Seq<Frame<'a>>| leads(#[trigger] on(s, k).push(Frame::Stmt(x, env, label)), on(t, k))
}

/// Whether a list of statements, its declarations hoisted, takes the machine from one
/// state to another.
pub open spec fn runs<'a>(s: EngineView<'a>, list: &'a Vec<Stmt>, env: usize, t: EngineView<'a>) -> bool {
    forall|k: Seq<Frame<'a>>| leads(#[trigger] on(s, k).run_list(list, env), on(t, k))
}

/// Whether what is left of a list of statements, from a place on, takes the machine
/// from one state to another; `last` is the value of the list so far.
pub open spec fn goes_on<'a>(s: EngineView<'a>, list: &'a Vec<Stmt>, i: usize, env: usize, last: Option<Value>, t: EngineView<'a>) -> bool {
    forall|k: Seq<Frame<'a>>| leads(#[trigger] on(s, k).push(Frame::Stmts(list, i, env, last)), on(t, k))
}

/// A value, or else another.
pub open spec fn first_of(a: Option<Value>, b: Option<Value>) -> Option<Value> {
    if a is Some { a } else { b }
}

/// Whether a completion leaves every loop, `switch` and label: it is a thrown value or a
/// return.
pub open spec fn leaves_all(c: Completion) -> bool {
    c is Throw || c is Return
}

pub(crate) proof fn lemma_executes<'a>(s: EngineView<'a>, x: &'a Stmt, env: usize, label: Option<usize>, t: EngineView<'a>, k: Seq<Frame<'a>>)
    requires
        executes(s, x, env, label, t),
    ensures
        leads(on(s, k).push(Frame::Stmt(x, env, label)), on(t, k)),
{
    assert(leads(on(s, k).push(Frame::Stmt(x, env, label)), on(t, k)));
}

pub(crate) proof fn lemma_runs<'a>(s: EngineView<'a>, list: &'a Vec<Stmt>, env: usize, t: EngineView<'a>, k: Seq<Frame<'a>>)
    requires
        runs(s, list, env, t),
    ensures
        leads(on(s, k).run_list(list, env), on(t, k)),
{
    assert(leads(on(s, k).run_list(list, env), on(t, k)));
}

proof fn lemma_declarations_on<'a>(s: EngineView<'a>, k: Seq<Frame<'a>>, list: &'a Vec<Stmt>, env: usize, n: nat)
    ensures
        with_declarations(on(s, k), list, env, n) == on(with_declarations(s, list, env, n), k),
    decreases n,
{
    if n > 0 && n <= list@.len() {
        lemma_declarations_on(s, k, list, env, (n - 1) as nat);
    }
}

proof fn lemma_vars_on<'a>(s: EngineView<'a>, k: Seq<Frame<'a>>, names: Seq<Seq<char>>, scope: usize, n: nat)
    ensures
        with_vars(on(s, k), names, scope, n) == on(with_vars(s, names, scope, n), k),
    decreases n,
{
    if n > 0 && n <= names.len() {
        lemma_vars_on(s, k, names, scope, (n - 1) as nat);
    }
}

pub(crate) proof fn lemma_hoist_on<'a>(s: EngineView<'a>, k: Seq<Frame<'a>>, list: &'a Vec<Stmt>, env: usize)
    ensures
        on(s, k).hoist(list, env) == on(s.hoist(list, env), k),
{
    reveal(EngineView::hoist);
    lemma_declarations_on(s, k, list, env, list@.len());
    let d = with_declarations(s, list, env, list@.len());
    lemma_vars_on(d, k, var_names(*list), d.function_scope(env), var_names(*list).len());
}

/// A list of statements is executed from its first statement on, once its functions
/// and `var` names are declared.
pub proof fn law_lists_start<'a>(s: EngineView<'a>, list: &'a Vec<Stmt>, env: usize, t: EngineView<'a>)
    requires
        goes_on(s.hoist(list, env).ret_empty(), list, 0, env, None, t),
    ensures
        runs(s, list, env, t),
{
    assert forall|k: Seq<Frame<'a>>| leads(#[trigger] on(s, k).run_list(list, env), on(t, k)) by {
        lemma_hoist_on(s, k, list, env);
        let h = s.hoist(list, env).ret_empty();
        assert(on(s, k).run_list(list, env) == on(h, k).push(Frame::Stmts(list, 0, env, None)));
    }
}

/// The statements of a list are executed in turn. The value of a list is that of the
/// last of its statements that has one, and a statement that throws or returns ends it.
pub proof fn law_lists<'a>(s: EngineView<'a>, list: &'a Vec<Stmt>, i: usize, env: usize, last: Option<Value>, t: EngineView<'a>)
    requires
        s.ready(),
        s.acc matches Completion::Normal(v) ==> i < list@.len() && i < usize::MAX && (exists|u: EngineView<'a>| executes(s, &list@[i as int], env, None, u) && #[trigger] goes_on(u, list, (i + 1) as usize, env, first_of(v, last), t)),
        s.acc is Normal || leaves_all(s.acc),
        !(s.acc is Normal) ==> t == s,
    ensures
        goes_on(s, list, i, env, last, t),
{
    assert forall|k: Seq<Frame<'a>>| leads(#[trigger] on(s, k).push(Frame::Stmts(list, i, env, last)), on(t, k)) by {
        let start = on(s, k).push(Frame::Stmts(list, i, env, last));
        on_stmts(s, k, list, i, env, last);
        match s.acc {
            Completion::Normal(v) => {
                let u = choose|u: EngineView<'a>| executes(s, &list@[i as int], env, None, u) && #[trigger] goes_on(u, list, (i + 1) as usize, env, first_of(v, last), t);
                let f = Frame::Stmts(list, (i + 1) as usize, env, first_of(v, last));
                let g = Frame::Stmt(&list@[i as int], env, None);
                assert(on(s, k).exec_stmts(list, i, env, last) == on(s, k.push(f)).push(g));
                lemma_executes(s, &list@[i as int], env, None, u, k.push(f));
                lemma_follow(start, on(s, k.push(f)).push(g), on(u, k).push(f));
                assert(leads(on(u, k).push(f), on(t, k)));
                lemma_follow(start, on(u, k).push(f), on(t, k));
            },
            _ => {},
        }
    }
}

/// At its end a list has the value of the last statement that had one.
pub proof fn law_lists_end<'a>(s: EngineView<'a>, list: &'a Vec<Stmt>, env: usize, last: Option<Value>, v: Option<Value>)
    requires
        s.ready(),
        s.acc == Completion::Normal(v),
        list@.len() <= usize::MAX,
    ensures
        goes_on(s, list, list@.len() as usize, env, last, s.done(Completion::Normal(first_of(v, last)))),
{
    let n = list@.len() as usize;
    let t = s.done(Completion::Normal(first_of(v, last)));
    assert forall|k: Seq<Frame<'a>>| leads(#[trigger] on(s, k).push(Frame::Stmts(list, n, env, last)), on(t, k)) by {
        on_stmts(s, k, list, n, env, last);
        assert(on(s, k).exec_stmts(list, n, env, last) == on(t, k));
    }
}

/// A `break` or a `continue` ends a list, and takes the value of the list so far along.
pub proof fn law_lists_jump<'a>(s: EngineView<'a>, list: &'a Vec<Stmt>, i: usize, env: usize, last: Option<Value>)
    requires
        s.ready(),
        s.acc is Break || s.acc is Continue,
    ensures
        s.acc matches Completion::Break(l, v) ==> goes_on(s, list, i, env, last, s.done(Completion::Break(l, first_of(v, last)))),
        s.acc matches Completion::Continue(l, v) ==> goes_on(s, list, i, env, last, s.done(Completion::Continue(l, first_of(v, last)))),
{
    let c = match s.acc {
        Completion::Break(l, v) => Completion::Break(l, first_of(v, last)),
        Completion::Continue(l, v) => Completion::Continue(l, first_of(v, last)),
        c => c,
    };
    let t = s.done(c);
    assert forall|k: Seq<Frame<'a>>| leads(#[trigger] on(s, k).push(Frame::Stmts(list, i, env, last)), on(t, k)) by {
        on_stmts(s, k, list, i, env, last);
        assert(on(s, k).exec_stmts(list, i, env, last) == on(t, k));
    }
}

/// An expression statement has the value of its expression.
pub proof fn law_expression_statement<'a>(s: EngineView<'a>, x: &'a Stmt, env: usize, label: Option<usize>, t: EngineView<'a>)
    requires
        calm(s),
        x matches Stmt::Expr(e) && evaluates(s, e, env, t),
    ensures
        executes(s, x, env, label, t),
{
    assert forall|k: Seq<Frame<'a>>| leads(#[trigger] on(s, k).push(Frame::Stmt(x, env, label)), on(t, k)) by {
        match x {
            Stmt::Expr(e) => {
                on_stmt(s, k, x, env, label);
                lemma_value(s, e, env, t, k);
                lemma_follow(on(s, k).push(Frame::Stmt(x, env, label)), on(s, k).push(Frame::Expr(e, env)), on(t, k));
            },
            _ => {},
        }
    }
}

/// `throw` throws the value of its expression, and `return` returns it; an expression
/// that itself throws decides instead.
pub proof fn law_throw_and_return<'a>(s: EngineView<'a>, x: &'a Stmt, env: usize, label: Option<usize>, t: EngineView<'a>, v: Value)
    requires
        calm(s),
        match x {
            Stmt::Throw(e) => evaluates(s, e, env, t),
            Stmt::Return(Some(e)) => !is_tail_call(e) && evaluates(s, e, env, t),
            _ => false,
        },
        has_value(t, v),
    ensures
        x is Throw ==> executes(s, x, env, label, t.done(Completion::Throw(v))),
        x is Return ==> executes(s, x, env, label, t.done(Completion::Return(v))),
{
    let w = if x is Throw { t.done(Completion::Throw(v)) } else { t.done(Completion::Return(v)) };
    assert forall|k: Seq<Frame<'a>>| leads(#[trigger] on(s, k).push(Frame::Stmt(x, env, label)), on(w, k)) by {
        let start = on(s, k).push(Frame::Stmt(x, env, label));
        on_stmt(s, k, x, env, label);
        match x {
            Stmt::Throw(e) => {
                lemma_value(s, e, env, t, k.push(Frame::ThrowEnd));
                lemma_follow(start, on(s, k.push(Frame::ThrowEnd)).push(Frame::Expr(e, env)), on(t, k).push(Frame::ThrowEnd));
                on_throw_end(t, k);
                lemma_follow(start, on(t, k).push(Frame::ThrowEnd), on(w, k));
            },
            Stmt::Return(Some(e)) => {
                lemma_value(s, e, env, t, k.push(Frame::ReturnEnd));
                lemma_follow(start, on(s, k.push(Frame::ReturnEnd)).push(Frame::Expr(e, env)), on(t, k).push(Frame::ReturnEnd));
                on_return_end(t, k);
                lemma_follow(start, on(t, k).push(Frame::ReturnEnd), on(w, k));
            },
            _ => {},
        }
    }
}

/// `return` alone returns `undefined`; `break` and `continue` jump to their label.
pub proof fn law_jumps<'a>(s: EngineView<'a>, x: &'a Stmt, env: usize, label: Option<usize>)
    requires
        calm(s),
    ensures
        *x == Stmt::Return(None) ==> executes(s, x, env, label, s.done(Completion::Return(Value::Undefined))),
        *x == Stmt::Break(None) ==> executes(s, x, env, label, s.done(Completion::Break(None, None))),
        *x == Stmt::Continue(None) ==> executes(s, x, env, label, s.done(Completion::Continue(None, None))),
        x matches Stmt::Break(Some(l)) ==> executes(s, x, env, label, s.with_store(s.store.with_text(l@)).done(Completion::Break(Some(s.store.atom(l@)), None))),
        x matches Stmt::Continue(Some(l)) ==> executes(s, x, env, label, s.with_store(s.store.with_text(l@)).done(Completion::Continue(Some(s.store.atom(l@)), None))),
        *x == Stmt::Empty ==> executes(s, x, env, label, s.ret_empty()),
{
    let w = match x {
        Stmt::Return(_) => s.done(Completion::Return(Value::Undefined)),
        Stmt::Break(None) => s.done(Completion::Break(None, None)),
        Stmt::Continue(None) => s.done(Completion::Continue(None, None)),
        Stmt::Break(Some(l)) => s.with_store(s.store.with_text(l@)).done(Completion::Break(Some(s.store.atom(l@)), None)),
        Stmt::Continue(Some(l)) => s.with_store(s.store.with_text(l@)).done(Completion::Continue(Some(s.store.atom(l@)), None)),
        _ => s.ret_empty(),
    };
    if *x == Stmt::Return(None) || x is Break || x is Continue || *x == Stmt::Empty {
        assert forall|k: Seq<Frame<'a>>| leads(#[trigger] on(s, k).push(Frame::Stmt(x, env, label)), on(w, k)) by {
            on_stmt(s, k, x, env, label);
            assert(on(s, k).eval_stmt(x, env, label) == on(w, k));
        }
    }
}

/// An `if` executes one of its branches: the first where the condition counts as true,
/// else the second. Without a second one it has the value `undefined`.
pub proof fn law_if<'a>(s: EngineView<'a>, x: &'a Stmt, env: usize, label: Option<usize>, t: EngineView<'a>, v: Value, u: EngineView<'a>)
    requires
        calm(s),
        has_value(t, v),
        u.ready(),
        (u.acc matches Completion::Normal(r) && r is Some) || leaves_all(u.acc),
        x matches Stmt::If { cond, yes, no } && evaluates(s, cond, env, t) && (if t.truthy(v) {
            runs(t, yes, env, u)
        } else if no@.len() > 0 {
            runs(t, no, env, u)
        } else {
            u == t.ret(Value::Undefined)
        }),
    ensures
        executes(s, x, env, label, u),
{
    assert forall|k: Seq<Frame<'a>>| leads(#[trigger] on(s, k).push(Frame::Stmt(x, env, label)), on(u, k)) by {
        let start = on(s, k).push(Frame::Stmt(x, env, label));
        on_stmt(s, k, x, env, label);
        match x {
            Stmt::If { cond, yes, no } => {
                let f = Frame::IfTest(x, env);
                lemma_value(s, cond, env, t, k.push(f));
                lemma_follow(start, on(s, k.push(f)).push(Frame::Expr(cond, env)), on(t, k).push(f));
                on_if_test(t, k, x, env);
                lemma_follow(start, on(t, k).push(f), on(t, k).if_test(x, env));
                if t.truthy(v) || no@.len() > 0 {
                    let list = if t.truthy(v) { yes } else { no };
                    lemma_runs(t, list, env, u, k.push(Frame::IfEnd));
                    lemma_follow(start, on(t, k.push(Frame::IfEnd)).run_list(list, env), on(u, k).push(Frame::IfEnd));
                    on_if_end(u, k);
                    lemma_follow(start, on(u, k).push(Frame::IfEnd), on(u, k));
                }
            },
            _ => {},
        }
    }
}

/// A block is executed in a scope of its own, inside the present one.
pub proof fn law_block<'a>(s: EngineView<'a>, x: &'a Stmt, env: usize, label: Option<usize>, t: EngineView<'a>)
    requires
        calm(s),
        x matches Stmt::Block(b) && runs(s.new_scope(env, false).0, b, s.store.heap.cells.len() as usize, t),
    ensures
        executes(s, x, env, label, t),
{
    assert forall|k: Seq<Frame<'a>>| leads(#[trigger] on(s, k).push(Frame::Stmt(x, env, label)), on(t, k)) by {
        match x {
            Stmt::Block(b) => {
                on_stmt(s, k, x, env, label);
                let n = s.new_scope(env, false).0;
                lemma_runs(n, b, s.store.heap.cells.len() as usize, t, k);
                lemma_follow(on(s, k).push(Frame::Stmt(x, env, label)), on(n, k).run_list(b, s.store.heap.cells.len() as usize), on(t, k));
            },
            _ => {},
        }
    }
}

/// The machine at the start of a `catch` clause: a new scope binds its name to what
/// was thrown.
pub open spec fn caught<'a>(t: EngineView<'a>, clause: &'a CatchClause, env: usize, v: Value) -> EngineView<'a> {
    let a = t.new_scope(env, false).0;
    a.with_store(a.store.with_text(clause.name@)).bind(t.store.heap.cells.len() as usize, a.store.atom(clause.name@), v)
}

proof fn lemma_try<'a>(s: EngineView<'a>, x: &'a Stmt, env: usize, label: Option<usize>, t: EngineView<'a>, k: Seq<Frame<'a>>)
    requires
        calm(s),
        t.ready(),
        x matches Stmt::Try { try_block, .. } && runs(s, try_block, env, t),
    ensures
        leads(on(s, k).push(Frame::Stmt(x, env, label)), on(t, k).try_postprocess(x, env)),
{
    match x {
        Stmt::Try { try_block, .. } => {
            let start = on(s, k).push(Frame::Stmt(x, env, label));
            let f = Frame::TryEnd(x, env);
            on_stmt(s, k, x, env, label);
            lemma_runs(s, try_block, env, t, k.push(f));
            lemma_follow(start, on(s, k.push(f)).run_list(try_block, env), on(t, k).push(f));
            on_try_end(t, k, x, env);
            lemma_follow(start, on(t, k).push(f), on(t, k).try_postprocess(x, env));
        },
        _ => {},
    }
}

/// What a `try` block throws is handed to its `catch` clause, which decides how the
/// statement ends.
pub proof fn law_catch<'a>(s: EngineView<'a>, x: &'a Stmt, env: usize, label: Option<usize>, t: EngineView<'a>, v: Value, u: EngineView<'a>)
    requires
        calm(s),
        t.ready(),
        t.acc == Completion::Throw(v),
        u.ready(),
        x matches Stmt::Try { try_block, catch: Some(clause), finally: None } && runs(s, try_block, env, t) && runs(caught(t, clause, env, v), &clause.body, t.store.heap.cells.len() as usize, u),
    ensures
        executes(s, x, env, label, u),
{
    assert forall|k: Seq<Frame<'a>>| leads(#[trigger] on(s, k).push(Frame::Stmt(x, env, label)), on(u, k)) by {
        match x {
            Stmt::Try { try_block, catch: Some(clause), .. } => {
                let start = on(s, k).push(Frame::Stmt(x, env, label));
                let scope = t.store.heap.cells.len() as usize;
                let f = Frame::CatchEnd(x, env);
                lemma_try(s, x, env, label, t, k);
                let c = caught(t, clause, env, v);
                assert(on(t, k).try_postprocess(x, env) == on(c, k.push(f)).run_list(&clause.body, scope));
                lemma_runs(c, &clause.body, scope, u, k.push(f));
                lemma_follow(start, on(c, k.push(f)).run_list(&clause.body, scope), on(u, k).push(f));
                on_catch_end(u, k, x, env);
                lemma_follow(start, on(u, k).push(f), on(u, k));
            },
            _ => {},
        }
    }
}

/// Without a `finally` block, a `try` block that does not throw decides how the
/// statement ends: its `catch` clause is not executed.
pub proof fn law_try_without_exception<'a>(s: EngineView<'a>, x: &'a Stmt, env: usize, label: Option<usize>, t: EngineView<'a>)
    requires
        calm(s),
        t.ready(),
        !(t.acc is Throw),
        x matches Stmt::Try { try_block, finally: None, .. } && runs(s, try_block, env, t),
    ensures
        executes(s, x, env, label, t),
{
    assert forall|k: Seq<Frame<'a>>| leads(#[trigger] on(s, k).push(Frame::Stmt(x, env, label)), on(t, k)) by {
        lemma_try(s, x, env, label, t, k);
    }
}

/// A `finally` block is executed however the `try` block ended. Where it ends normally,
/// the statement ends as the `try` block did; else it ends as the `finally` block.
pub proof fn law_finally_block<'a>(s: EngineView<'a>, x: &'a Stmt, env: usize, label: Option<usize>, t: EngineView<'a>, u: EngineView<'a>)
    requires
        calm(s),
        t.ready(),
        u.ready(),
        u.acc is Normal || leaves_all(u.acc) || u.acc is Break || u.acc is Continue,
        x matches Stmt::Try { try_block, catch, finally: Some(b) } && runs(s, try_block, env, t) && (t.acc is Throw ==> catch is None) && runs(t, b, env, u),
    ensures
        executes(s, x, env, label, if u.acc is Normal { u.done(t.acc) } else { u }),
{
    let w = if u.acc is Normal { u.done(t.acc) } else { u };
    assert forall|k: Seq<Frame<'a>>| leads(#[trigger] on(s, k).push(Frame::Stmt(x, env, label)), on(w, k)) by {
        match x {
            Stmt::Try { finally: Some(b), .. } => {
                let start = on(s, k).push(Frame::Stmt(x, env, label));
                let f = Frame::FinallyEnd(t.acc);
                lemma_try(s, x, env, label, t, k);
                lemma_runs(t, b, env, u, k.push(f));
                lemma_follow(start, on(t, k.push(f)).run_list(b, env), on(u, k).push(f));
                if u.acc is Normal {
                    on_finally_end(u, k, t.acc);
                } else {
                    lemma_dropped(u, k, f);
                }
                lemma_follow(start, on(u, k).push(f), on(w, k));
            },
            _ => {},
        }
    }
}

/// A `finally` block is executed after the `catch` clause too.
pub proof fn law_finally_after_catch<'a>(s: EngineView<'a>, x: &'a Stmt, env: usize, label: Option<usize>, t: EngineView<'a>, v: Value, c: EngineView<'a>, u: EngineView<'a>)
    requires
        calm(s),
        t.ready(),
        t.acc == Completion::Throw(v),
        c.ready(),
        u.ready(),
        u.acc is Normal || leaves_all(u.acc) || u.acc is Break || u.acc is Continue,
        x matches Stmt::Try { try_block, catch: Some(clause), finally: Some(b) } && runs(s, try_block, env, t) && runs(caught(t, clause, env, v), &clause.body, t.store.heap.cells.len() as usize, c) && runs(c, b, env, u),
    ensures
        executes(s, x, env, label, if u.acc is Normal { u.done(c.acc) } else { u }),
{
    let w = if u.acc is Normal { u.done(c.acc) } else { u };
    assert forall|k: Seq<Frame<'a>>| leads(#[trigger] on(s, k).push(Frame::Stmt(x, env, label)), on(w, k)) by {
        match x {
            Stmt::Try { catch: Some(clause), finally: Some(b), .. } => {
                let start = on(s, k).push(Frame::Stmt(x, env, label));
                let scope = t.store.heap.cells.len() as usize;
                let g = Frame::CatchEnd(x, env);
                let f = Frame::FinallyEnd(c.acc);
                lemma_try(s, x, env, label, t, k);
                let h = caught(t, clause, env, v);
                assert(on(t, k).try_postprocess(x, env) == on(h, k.push(g)).run_list(&clause.body, scope));
                lemma_runs(h, &clause.body, scope, c, k.push(g));
                lemma_follow(start, on(h, k.push(g)).run_list(&clause.body, scope), on(c, k).push(g));
                on_catch_end(c, k, x, env);
                lemma_follow(start, on(c, k).push(g), on(c, k.push(f)).run_list(b, env));
                lemma_runs(c, b, env, u, k.push(f));
                lemma_follow(start, on(c, k.push(f)).run_list(b, env), on(u, k).push(f));
                if u.acc is Normal {
                    on_finally_end(u, k, c.acc);
                } else {
                    lemma_dropped(u, k, f);
                }
                lemma_follow(start, on(u, k).push(f), on(w, k));
            },
            _ => {},
        }
    }
}

pub(crate) proof fn lemma_dropped<'a>(s: EngineView<'a>, k: Seq<Frame<'a>>, f: Frame<'a>)
    requires
        s.ready(),
        !(s.acc is Normal),
        !crate::machine::catches(&f),
    ensures
        leads(on(s, k).push(f), on(s, k)),
{
    let a = on(s, k).push(f);
    assert(k.push(f).drop_last() =~= k);
    reveal_with_fuel(EngineView::steps, 2);
    assert(a.steps(1) == a.step());
}

/// Whether what is left of a `while`, from its condition on, takes the machine from one
/// state to another; `value` is the value of the loop so far.
pub open spec fn whiles<'a>(s: EngineView<'a>, x: &'a Stmt, env: usize, label: Option<usize>, value: Option<Value>, t: EngineView<'a>) -> bool {
    forall|k: Seq<Frame<'a>>| leads(#[trigger] on(s, k).push(Frame::WhileTest { stmt: x, env, label, value }), on(t, k))
}

/// Whether a loop goes on after a completion of its body: it is normal, or a `continue`
/// that means the loop. `next` is the value of the loop from then on.
pub open spec fn repeats(c: Completion, label: Option<usize>, value: Option<Value>, next: Option<Value>) -> bool {
    match c {
        Completion::Normal(v) => next == first_of(v, value),
        Completion::Continue(l, v) => (l is None || l == label) && next == first_of(v, value),
        _ => false,
    }
}

/// How a loop ends where its body ended for good: a `break` that means the loop ends it
/// normally, with a value; what is thrown or returned, and a jump to elsewhere, leave it.
pub open spec fn ends(c: Completion, label: Option<usize>, value: Option<Value>, end: Completion) -> bool {
    match c {
        Completion::Break(l, v) => if l is None || l == label {
            end == Completion::Normal(Some(match first_of(v, value) {
                Some(r) => r,
                None => Value::Undefined,
            }))
        } else {
            end == Completion::Break(l, first_of(v, value))
        },
        Completion::Continue(l, v) => l is Some && l != label && end == Completion::Continue(l, first_of(v, value)),
        Completion::Throw(_) => end == c,
        Completion::Return(_) => end == c,
        _ => false,
    }
}

/// A `while` starts with its condition.
pub proof fn law_while<'a>(s: EngineView<'a>, x: &'a Stmt, env: usize, label: Option<usize>, t: EngineView<'a>)
    requires
        calm(s),
        x is While,
        whiles(s, x, env, label, Some(Value::Undefined), t),
    ensures
        executes(s, x, env, label, t),
{
    assert forall|k: Seq<Frame<'a>>| leads(#[trigger] on(s, k).push(Frame::Stmt(x, env, label)), on(t, k)) by {
        let f = Frame::WhileTest { stmt: x, env, label, value: Some(Value::Undefined) };
        on_stmt(s, k, x, env, label);
        assert(leads(on(s, k).push(f), on(t, k)));
        lemma_follow(on(s, k).push(Frame::Stmt(x, env, label)), on(s, k).push(f), on(t, k));
    }
}

/// Where the condition of a `while` does not count as true, the loop ends with its
/// value so far, and the body is not executed.
pub proof fn law_while_ends<'a>(s: EngineView<'a>, x: &'a Stmt, env: usize, label: Option<usize>, value: Option<Value>, t: EngineView<'a>, v: Value)
    requires
        calm(s),
        x matches Stmt::While { cond, .. } && evaluates(s, cond, env, t),
        has_value(t, v),
        !t.truthy(v),
    ensures
        whiles(s, x, env, label, value, t.done(Completion::Normal(value))),
{
    let w = t.done(Completion::Normal(value));
    assert forall|k: Seq<Frame<'a>>| leads(#[trigger] on(s, k).push(Frame::WhileTest { stmt: x, env, label, value }), on(w, k)) by {
        match x {
            Stmt::While { cond, .. } => {
                let start = on(s, k).push(Frame::WhileTest { stmt: x, env, label, value });
                let f = Frame::WhileCond { stmt: x, env, label, value };
                on_while_test(s, k, x, env, label, value);
                lemma_value(s, cond, env, t, k.push(f));
                lemma_follow(start, on(s, k.push(f)).push(Frame::Expr(cond, env)), on(t, k).push(f));
                on_while_cond(t, k, x, env, label, value);
                lemma_follow(start, on(t, k).push(f), on(w, k));
            },
            _ => {},
        }
    }
}

/// Where the condition of a `while` counts as true, the body is executed, and then the
/// loop goes on from its condition, or ends, as the body ended.
pub proof fn law_while_repeats<'a>(s: EngineView<'a>, x: &'a Stmt, env: usize, label: Option<usize>, value: Option<Value>, t: EngineView<'a>, v: Value, u: EngineView<'a>, next: Option<Value>, end: Completion, w: EngineView<'a>)
    requires
        calm(s),
        x matches Stmt::While { cond, body } && evaluates(s, cond, env, t) && runs(t, body, env, u),
        has_value(t, v),
        t.truthy(v),
        u.ready(),
        (repeats(u.acc, label, value, next) && whiles(u.ret_empty(), x, env, label, next, w)) || (ends(u.acc, label, value, end) && w == u.done(end)),
    ensures
        whiles(s, x, env, label, value, w),
{
    assert forall|k: Seq<Frame<'a>>| leads(#[trigger] on(s, k).push(Frame::WhileTest { stmt: x, env, label, value }), on(w, k)) by {
        match x {
            Stmt::While { cond, body } => {
                let start = on(s, k).push(Frame::WhileTest { stmt: x, env, label, value });
                let f = Frame::WhileCond { stmt: x, env, label, value };
                let g = Frame::WhileStep { stmt: x, env, label, value };
                let h = Frame::WhileTest { stmt: x, env, label, value: next };
                on_while_test(s, k, x, env, label, value);
                lemma_value(s, cond, env, t, k.push(f));
                lemma_follow(start, on(s, k.push(f)).push(Frame::Expr(cond, env)), on(t, k).push(f));
                on_while_cond(t, k, x, env, label, value);
                lemma_runs(t, body, env, u, k.push(g));
                lemma_follow(start, on(t, k).push(f), on(t, k.push(g)).run_list(body, env));
                lemma_follow(start, on(t, k.push(g)).run_list(body, env), on(u, k).push(g));
                on_while_step(u, k, x, env, label, value);
                lemma_follow(start, on(u, k).push(g), on(u, k).while_step(x, env, label, value));
                if repeats(u.acc, label, value, next) {
                    assert(leads(on(u.ret_empty(), k).push(h), on(w, k)));
                    lemma_follow(start, on(u.ret_empty(), k).push(h), on(w, k));
                }
            },
            _ => {},
        }
    }
}

/// Whether what is left of a `do`-`while`, from its body on, takes the machine from one
/// state to another.
pub open spec fn does<'a>(s: EngineView<'a>, x: &'a Stmt, env: usize, label: Option<usize>, value: Option<Value>, t: EngineView<'a>) -> bool {
    forall|k: Seq<Frame<'a>>| leads(#[trigger] on(s, k).push(Frame::DoBody { stmt: x, env, label, value }), on(t, k))
}

/// A `do`-`while` starts with its body.
pub proof fn law_do<'a>(s: EngineView<'a>, x: &'a Stmt, env: usize, label: Option<usize>, t: EngineView<'a>)
    requires
        calm(s),
        x is DoWhile,
        does(s, x, env, label, Some(Value::Undefined), t),
    ensures
        executes(s, x, env, label, t),
{
    assert forall|k: Seq<Frame<'a>>| leads(#[trigger] on(s, k).push(Frame::Stmt(x, env, label)), on(t, k)) by {
        let f = Frame::DoBody { stmt: x, env, label, value: Some(Value::Undefined) };
        on_stmt(s, k, x, env, label);
        assert(leads(on(s, k).push(f), on(t, k)));
        lemma_follow(on(s, k).push(Frame::Stmt(x, env, label)), on(s, k).push(f), on(t, k));
    }
}

/// After the body of a `do`-`while` its condition decides: the loop goes on with the
/// body where it counts as true, and else ends with its value.
pub proof fn law_do_repeats<'a>(s: EngineView<'a>, x: &'a Stmt, env: usize, label: Option<usize>, value: Option<Value>, t: EngineView<'a>, next: Option<Value>, u: EngineView<'a>, v: Value, w: EngineView<'a>)
    requires
        calm(s),
        x matches Stmt::DoWhile { cond, body } && runs(s, body, env, t) && evaluates(t.ret_empty(), cond, env, u),
        t.ready(),
        repeats(t.acc, label, value, next),
        has_value(u, v),
        u.truthy(v) ==> does(u, x, env, label, next, w),
        !u.truthy(v) ==> w == u.done(Completion::Normal(next)),
    ensures
        does(s, x, env, label, value, w),
{
    assert forall|k: Seq<Frame<'a>>| leads(#[trigger] on(s, k).push(Frame::DoBody { stmt: x, env, label, value }), on(w, k)) by {
        match x {
            Stmt::DoWhile { cond, body } => {
                let start = on(s, k).push(Frame::DoBody { stmt: x, env, label, value });
                let f = Frame::DoStep { stmt: x, env, label, value };
                let g = Frame::DoCond { stmt: x, env, label, value: next };
                on_do_body(s, k, x, env, label, value);
                lemma_runs(s, body, env, t, k.push(f));
                lemma_follow(start, on(s, k.push(f)).run_list(body, env), on(t, k).push(f));
                on_do_step(t, k, x, env, label, value);
                let e = t.ret_empty();
                lemma_follow(start, on(t, k).push(f), on(e, k.push(g)).push(Frame::Expr(cond, env)));
                lemma_value(e, cond, env, u, k.push(g));
                lemma_follow(start, on(e, k.push(g)).push(Frame::Expr(cond, env)), on(u, k).push(g));
                on_do_cond(u, k, x, env, label, next);
                if u.truthy(v) {
                    let h = Frame::DoBody { stmt: x, env, label, value: next };
                    lemma_follow(start, on(u, k).push(g), on(u, k).push(h));
                    assert(leads(on(u, k).push(h), on(w, k)));
                    lemma_follow(start, on(u, k).push(h), on(w, k));
                } else {
                    lemma_follow(start, on(u, k).push(g), on(w, k));
                }
            },
            _ => {},
        }
    }
}

/// The body of a `do`-`while` can end the loop.
pub proof fn law_do_ends<'a>(s: EngineView<'a>, x: &'a Stmt, env: usize, label: Option<usize>, value: Option<Value>, t: EngineView<'a>, end: Completion)
    requires
        calm(s),
        x matches Stmt::DoWhile { cond, body } && runs(s, body, env, t),
        t.ready(),
        ends(t.acc, label, value, end),
    ensures
        does(s, x, env, label, value, t.done(end)),
{
    let w = t.done(end);
    assert forall|k: Seq<Frame<'a>>| leads(#[trigger] on(s, k).push(Frame::DoBody { stmt: x, env, label, value }), on(w, k)) by {
        match x {
            Stmt::DoWhile { cond, body } => {
                let start = on(s, k).push(Frame::DoBody { stmt: x, env, label, value });
                let f = Frame::DoStep { stmt: x, env, label, value };
                on_do_body(s, k, x, env, label, value);
                lemma_runs(s, body, env, t, k.push(f));
                lemma_follow(start, on(s, k.push(f)).run_list(body, env), on(t, k).push(f));
                on_do_step(t, k, x, env, label, value);
                lemma_follow(start, on(t, k).push(f), on(w, k));
            },
            _ => {},
        }
    }
}

/// Whether what is left of a `for`, from its condition on, takes the machine from one
/// state to another.
pub open spec fn fors<'a>(s: EngineView<'a>, x: &'a Stmt, env: usize, label: Option<usize>, fresh: bool, value: Option<Value>, t: EngineView<'a>) -> bool {
    forall|k: Seq<Frame<'a>>| leads(#[trigger] on(s, k).push(Frame::ForTest { stmt: x, env, label, fresh, value }), on(t, k))
}

/// A `for` whose head declares names with `let` or `const` runs in a scope of its own,
/// and its iterations get the names anew; one with another head runs in the present
/// scope.
pub proof fn law_for<'a>(s: EngineView<'a>, x: &'a Stmt, env: usize, label: Option<usize>, u: EngineView<'a>, t: EngineView<'a>)
    requires
        calm(s),
        calm(u),
        x matches Stmt::For { init, .. } && match init {
            Some(b) => match &**b {
                Stmt::Var(list, kind) => if *kind is Var {
                    executes(s, &**b, env, None, u) && fors(u, x, env, label, false, Some(Value::Undefined), t)
                } else {
                    executes(s.new_scope(env, false).0, &**b, s.store.heap.cells.len() as usize, None, u) && fors(u, x, s.store.heap.cells.len() as usize, label, true, Some(Value::Undefined), t)
                },
                _ => executes(s, &**b, env, None, u) && fors(u, x, env, label, false, Some(Value::Undefined), t),
            },
            None => u == s && fors(u, x, env, label, false, Some(Value::Undefined), t),
        },
    ensures
        executes(s, x, env, label, t),
{
    assert forall|k: Seq<Frame<'a>>| leads(#[trigger] on(s, k).push(Frame::Stmt(x, env, label)), on(t, k)) by {
        let start = on(s, k).push(Frame::Stmt(x, env, label));
        on_stmt(s, k, x, env, label);
        match x {
            Stmt::For { init, .. } => match init {
                Some(b) => {
                    let anew = match &**b {
                        Stmt::Var(_, kind) => !(*kind is Var),
                        _ => false,
                    };
                    let scope = if anew { s.store.heap.cells.len() as usize } else { env };
                    let n = if anew { s.new_scope(env, false).0 } else { s };
                    let f = Frame::ForHead { stmt: x, env: scope, label, fresh: anew };
                    let g = Frame::ForTest { stmt: x, env: scope, label, fresh: anew, value: Some(Value::Undefined) };
                    lemma_executes(n, &**b, scope, None, u, k.push(f));
                    lemma_follow(start, on(n, k.push(f)).push(Frame::Stmt(&**b, scope, None)), on(u, k).push(f));
                    on_for_head(u, k, x, scope, label, anew);
                    lemma_follow(start, on(u, k).push(f), on(u, k).push(g));
                    assert(leads(on(u, k).push(g), on(t, k)));
                    lemma_follow(start, on(u, k).push(g), on(t, k));
                },
                None => {
                    let g = Frame::ForTest { stmt: x, env, label, fresh: false, value: Some(Value::Undefined) };
                    assert(leads(on(u, k).push(g), on(t, k)));
                    lemma_follow(start, on(s, k).push(g), on(t, k));
                },
            },
            _ => {},
        }
    }
}

/// Where the condition of a `for` does not count as true, the loop ends with its value
/// so far.
pub proof fn law_for_ends<'a>(s: EngineView<'a>, x: &'a Stmt, env: usize, label: Option<usize>, fresh: bool, value: Option<Value>, t: EngineView<'a>, v: Value)
    requires
        calm(s),
        x matches Stmt::For { cond: Some(c), .. } && evaluates(s, c, env, t),
        has_value(t, v),
        !t.truthy(v),
    ensures
        fors(s, x, env, label, fresh, value, t.done(Completion::Normal(value))),
{
    let w = t.done(Completion::Normal(value));
    assert forall|k: Seq<Frame<'a>>| leads(#[trigger] on(s, k).push(Frame::ForTest { stmt: x, env, label, fresh, value }), on(w, k)) by {
        match x {
            Stmt::For { cond: Some(c), .. } => {
                let start = on(s, k).push(Frame::ForTest { stmt: x, env, label, fresh, value });
                let f = Frame::ForCond { stmt: x, env, label, fresh, value };
                on_for_test(s, k, x, env, label, fresh, value);
                lemma_value(s, c, env, t, k.push(f));
                lemma_follow(start, on(s, k.push(f)).push(Frame::Expr(c, env)), on(t, k).push(f));
                on_for_cond(t, k, x, env, label, fresh, value);
                lemma_follow(start, on(t, k).push(f), on(w, k));
            },
            _ => {},
        }
    }
}

/// While its condition counts as true, or without one, a `for` executes its body, then
/// its update, and goes on from its condition; or it ends as the body ended. The update
/// is not evaluated where the loop ends.
pub proof fn law_for_repeats<'a>(s: EngineView<'a>, x: &'a Stmt, env: usize, label: Option<usize>, value: Option<Value>, t: EngineView<'a>, u: EngineView<'a>, next: Option<Value>, end: Completion, p: EngineView<'a>, w: EngineView<'a>)
    requires
        calm(s),
        x matches Stmt::For { cond, update, body, .. } && (match cond {
            Some(c) => evaluates(s, c, env, t) && t.truthy(t.value()),
            None => t == s,
        }) && runs(t, body, env, u) && ((repeats(u.acc, label, value, next) && (match update {
            Some(e) => evaluates(u.ret_empty(), e, env, p),
            None => p == u.ret_empty(),
        }) && fors(p, x, env, label, false, next, w)) || (ends(u.acc, label, value, end) && w == u.done(end))),
        calm(t),
        u.ready(),
        calm(p),
    ensures
        fors(s, x, env, label, false, value, w),
{
    assert forall|k: Seq<Frame<'a>>| leads(#[trigger] on(s, k).push(Frame::ForTest { stmt: x, env, label, fresh: false, value }), on(w, k)) by {
        match x {
            Stmt::For { cond, update, body, .. } => {
                let start = on(s, k).push(Frame::ForTest { stmt: x, env, label, fresh: false, value });
                let f = Frame::ForCond { stmt: x, env, label, fresh: false, value };
                let g = Frame::ForStep { stmt: x, env, label, fresh: false, value };
                let h = Frame::ForTest { stmt: x, env, label, fresh: false, value: next };
                on_for_test(s, k, x, env, label, false, value);
                match cond {
                    Some(c) => {
                        lemma_value(s, c, env, t, k.push(f));
                        lemma_follow(start, on(s, k.push(f)).push(Frame::Expr(c, env)), on(t, k).push(f));
                        on_for_cond(t, k, x, env, label, false, value);
                        lemma_follow(start, on(t, k).push(f), on(t, k.push(g)).run_list(body, env));
                    },
                    None => {},
                }
                lemma_runs(t, body, env, u, k.push(g));
                lemma_follow(start, on(t, k.push(g)).run_list(body, env), on(u, k).push(g));
                on_for_step(u, k, x, env, label, false, value);
                lemma_follow(start, on(u, k).push(g), on(u, k).for_step(x, env, label, false, value));
                if repeats(u.acc, label, value, next) && fors(p, x, env, label, false, next, w) {
                    match update {
                        Some(e) => {
                            if evaluates(u.ret_empty(), e, env, p) {
                                lemma_value(u.ret_empty(), e, env, p, k.push(h));
                                lemma_follow(start, on(u.ret_empty(), k.push(h)).push(Frame::Expr(e, env)), on(p, k).push(h));
                            }
                        },
                        None => {},
                    }
                    if leads(start, on(p, k).push(h)) {
                        assert(leads(on(p, k).push(h), on(w, k)));
                        lemma_follow(start, on(p, k).push(h), on(w, k));
                    }
                }
            },
            _ => {},
        }
    }
}

/// A labelled statement ends normally where a jump meant its label; every other end
/// passes.
pub proof fn law_labels<'a>(s: EngineView<'a>, x: &'a Stmt, env: usize, label: Option<usize>, t: EngineView<'a>)
    requires
        calm(s),
        t.ready(),
        x matches Stmt::Labeled { label: l, body } && executes(s.with_store(s.store.with_text(l@)), &**body, env, Some(s.store.atom(l@)), t),
    ensures
        x matches Stmt::Labeled { label: l, body } && executes(s, x, env, label, match t.acc {
            Completion::Break(Some(a), v) => if a == s.store.atom(l@) { t.done(Completion::Normal(v)) } else { t },
            Completion::Continue(Some(a), v) => if a == s.store.atom(l@) { t.done(Completion::Normal(v)) } else { t },
            _ => t,
        }),
{
    match x {
        Stmt::Labeled { label: l, body } => {
            let own = s.store.atom(l@);
            let n = s.with_store(s.store.with_text(l@));
            let w = match t.acc {
                Completion::Break(Some(a), v) => if a == own { t.done(Completion::Normal(v)) } else { t },
                Completion::Continue(Some(a), v) => if a == own { t.done(Completion::Normal(v)) } else { t },
                _ => t,
            };
            assert forall|k: Seq<Frame<'a>>| leads(#[trigger] on(s, k).push(Frame::Stmt(x, env, label)), on(w, k)) by {
                let start = on(s, k).push(Frame::Stmt(x, env, label));
                let f = Frame::LabelEnd(own);
                on_stmt(s, k, x, env, label);
                lemma_executes(n, &**body, env, Some(own), t, k.push(f));
                lemma_follow(start, on(n, k.push(f)).push(Frame::Stmt(&**body, env, Some(own))), on(t, k).push(f));
                on_label_end(t, k, own);
                lemma_follow(start, on(t, k).push(f), on(w, k));
            }
        },
        _ => {},
    }
}

} // verus!
