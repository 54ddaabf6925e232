//! Transitions that execute statements.
use vstd::prelude::*;
use crate::ast::{Declarator, Expr, Pattern, Stmt, VarKind};
use crate::engine::{Completion, Engine, EngineView, Frame, Mode};
use crate::keys::visited_keys;
use crate::nth::{next, nth, or, or_else};
use crate::ops::with_items;
use crate::store::StoreView;
use crate::text::texts;
use crate::value::Value;

verus! {

/// What a loop does after its body.
#[derive(Clone, Copy, PartialEq, Eq, Structural, Debug)]
pub enum LoopStep {
    /// Goes on, with the value so far.
    Next(Option<Value>),
    /// Ends.
    Done(Completion),
}

/// What a loop does after its body: a `break` that means the loop ends it with a
/// value, a `continue` that means it goes on, and every other abrupt completion
/// leaves it; jumps without a value take the value so far along.
#[verifier::allow_in_spec]
pub fn loop_body_step(outcome: Completion, value: Option<Value>, label: Option<usize>) -> (r: LoopStep)
    returns
        (match outcome {
            Completion::Normal(v) => LoopStep::Next(or(v, value)),
            Completion::Break(l, v) => if l is None || l == label {
                LoopStep::Done(Completion::Normal(Some(or_else(or(v, value), Value::Undefined))))
            } else {
                LoopStep::Done(Completion::Break(l, or(v, value)))
            },
            Completion::Continue(l, v) => if l is None || l == label {
                LoopStep::Next(or(v, value))
            } else {
                LoopStep::Done(Completion::Continue(l, or(v, value)))
            },
            c => LoopStep::Done(c),
        }),
{
    match outcome {
        Completion::Normal(v) => LoopStep::Next(or(v, value)),
        Completion::Break(l, v) => if l.is_none() || l == label {
            LoopStep::Done(Completion::Normal(Some(or_else(or(v, value), Value::Undefined))))
        } else {
            LoopStep::Done(Completion::Break(l, or(v, value)))
        },
        Completion::Continue(l, v) => if l.is_none() || l == label {
            LoopStep::Next(or(v, value))
        } else {
            LoopStep::Done(Completion::Continue(l, or(v, value)))
        },
        c => LoopStep::Done(c),
    }
}

/// The completion of an `if`: one without a value gets `undefined`.
#[verifier::allow_in_spec]
pub fn if_postprocess(outcome: Completion) -> (r: Completion)
    returns
        (match outcome {
            Completion::Normal(None) => Completion::Normal(Some(Value::Undefined)),
            Completion::Break(l, None) => Completion::Break(l, Some(Value::Undefined)),
            Completion::Continue(l, None) => Completion::Continue(l, Some(Value::Undefined)),
            c => c,
        }),
{
    match outcome {
        Completion::Normal(None) => Completion::Normal(Some(Value::Undefined)),
        Completion::Break(l, None) => Completion::Break(l, Some(Value::Undefined)),
        Completion::Continue(l, None) => Completion::Continue(l, Some(Value::Undefined)),
        c => c,
    }
}

/// The completion of a labelled statement: a jump to its own label ends it
/// normally.
#[verifier::allow_in_spec]
pub fn labeled_postprocess(outcome: Completion, label: usize) -> (r: Completion)
    returns
        (match outcome {
            Completion::Break(Some(l), v) => if l == label { Completion::Normal(v) } else { outcome },
            Completion::Continue(Some(l), v) => if l == label { Completion::Normal(v) } else { outcome },
            c => c,
        }),
{
    match outcome {
        Completion::Break(Some(l), v) => if l == label { Completion::Normal(v) } else { outcome },
        Completion::Continue(Some(l), v) => if l == label { Completion::Normal(v) } else { outcome },
        c => c,
    }
}

/// The completion of a statement in a list: a jump without a value takes the value
/// of the list so far along.
#[verifier::allow_in_spec]
pub fn update_empty(outcome: Completion, last: Option<Value>) -> (r: Completion)
    returns
        (match outcome {
            Completion::Normal(v) => Completion::Normal(or(v, last)),
            Completion::Break(l, None) => Completion::Break(l, last),
            Completion::Continue(l, None) => Completion::Continue(l, last),
            c => c,
        }),
{
    match outcome {
        Completion::Normal(v) => Completion::Normal(or(v, last)),
        Completion::Break(l, None) => Completion::Break(l, last),
        Completion::Continue(l, None) => Completion::Continue(l, last),
        c => c,
    }
}

/// What a `switch` does after a clause: an unlabelled `break` ends it with a value.
#[verifier::allow_in_spec]
pub fn switch_step(outcome: Completion, value: Option<Value>) -> (r: LoopStep)
    returns
        (match outcome {
            Completion::Normal(v) => LoopStep::Next(or(v, value)),
            Completion::Break(None, v) => LoopStep::Done(Completion::Normal(Some(or_else(or(v, value), Value::Undefined)))),
            Completion::Break(l, v) => LoopStep::Done(Completion::Break(l, or(v, value))),
            Completion::Continue(l, v) => LoopStep::Done(Completion::Continue(l, or(v, value))),
            c => LoopStep::Done(c),
        }),
{
    match outcome {
        Completion::Normal(v) => LoopStep::Next(or(v, value)),
        Completion::Break(None, v) => LoopStep::Done(Completion::Normal(Some(or_else(or(v, value), Value::Undefined)))),
        Completion::Break(l, v) => LoopStep::Done(Completion::Break(l, or(v, value))),
        Completion::Continue(l, v) => LoopStep::Done(Completion::Continue(l, or(v, value))),
        c => LoopStep::Done(c),
    }
}

/// Whether a returned expression is a call that can be made in tail position.
#[verifier::allow_in_spec]
pub fn is_tail_call(e: &Expr) -> (r: bool)
    returns
        (match e {
            Expr::Call { callee, optional, .. } => !*optional && !(**callee is Super),
            _ => false,
        }),
{
    match e {
        Expr::Call { callee, optional, .. } => !*optional && !matches!(&**callee, Expr::Super),
        _ => false,
    }
}

/// Whether the head of a `for` declares names that each iteration gets anew.
#[verifier::allow_in_spec]
pub fn declares_fresh(init: &Stmt) -> (r: bool)
    returns
        (match init {
            Stmt::Var(_, kind) => !(*kind is Var),
            _ => false,
        }),
{
    match init {
        Stmt::Var(_, kind) => !matches!(*kind, VarKind::Var),
        _ => false,
    }
}

/// Whether a declaration is one of constants.
#[verifier::allow_in_spec]
pub fn is_const_kind(kind: VarKind) -> (r: bool)
    returns
        kind is Const,
{
    matches!(kind, VarKind::Const)
}

/// Whether a declaration binds in the scope of the function.
#[verifier::allow_in_spec]
pub fn is_var_kind(kind: VarKind) -> (r: bool)
    returns
        kind is Var,
{
    matches!(kind, VarKind::Var)
}

/// The store with strings for the first `n` of some texts added to a list.
pub open spec fn with_texts<'a>(s: StoreView<'a>, list: usize, names: Seq<Seq<char>>, n: nat) -> StoreView<'a>
    decreases n,
{
    if n == 0 || n > names.len() {
        s
    } else {
        let t = with_texts(s, list, names, (n - 1) as nat);
        let u = t.with_text(names[n - 1]);
        u.with_heap(with_items(u.heap, list, seq![Value::String(t.atom(names[n - 1]))]))
    }
}

/// The declaration at the head of a loop over items, with its kind.
#[verifier::allow_in_spec]
pub fn each_head<'a>(x: &'a Stmt) -> (r: Option<(VarKind, &'a Pattern)>)
    returns
        (match x {
            Stmt::ForIn { kind, name, .. } => Some((*kind, name)),
            Stmt::ForOf { kind, name, .. } => Some((*kind, name)),
            _ => None,
        }),
{
    match x {
        Stmt::ForIn { kind, name, .. } => Some((*kind, name)),
        Stmt::ForOf { kind, name, .. } => Some((*kind, name)),
        _ => None,
    }
}

/// The body of a loop.
#[verifier::allow_in_spec]
pub fn loop_body<'a>(x: &'a Stmt) -> (r: Option<&'a Vec<Stmt>>)
    returns
        (match x {
            Stmt::ForIn { body, .. } => Some(body),
            Stmt::ForOf { body, .. } => Some(body),
            Stmt::For { body, .. } => Some(body),
            Stmt::While { body, .. } => Some(body),
            Stmt::DoWhile { body, .. } => Some(body),
            _ => None,
        }),
{
    match x {
        Stmt::ForIn { body, .. } => Some(body),
        Stmt::ForOf { body, .. } => Some(body),
        Stmt::For { body, .. } => Some(body),
        Stmt::While { body, .. } => Some(body),
        Stmt::DoWhile { body, .. } => Some(body),
        _ => None,
    }
}

impl<'a> EngineView<'a> {
    /// Adds the keys that `for`-`in` visits to a list.
    pub open spec fn append_keys(self, list: usize, base: Value) -> EngineView<'a> {
        self.with_store(with_texts(self.store, list, visited_keys(self.store, base), visited_keys(self.store, base).len()))
    }

    /// Hoists the declarations of a statement list and starts to execute it.
    pub open spec fn run_list(self, list: &'a Vec<Stmt>, env: usize) -> EngineView<'a> {
        let s = self;
        s.hoist(list, env).push(Frame::Stmts(list, 0, env, None)).ret_empty()
    }

    /// Goes on with a statement list after a statement: the value of the list is that of
    /// its last statement that has one.
    pub open spec fn exec_stmts(self, list: &'a Vec<Stmt>, i: usize, env: usize, last: Option<Value>) -> EngineView<'a> {
        let s = self;
        let c = update_empty(s.completion(), last);
        match c {
            Completion::Normal(v) => {
                match nth(list, i) {
                    Some(x) => s.push(Frame::Stmts(list, next(i), env, v)).push(Frame::Stmt(x, env, None)),
                    None => s.done(c),
                }
            },
            _ => s.done(c),
        }
    }

    /// The completion of the last frame.
    pub open spec fn completion(self) -> Completion {
        self.acc
    }

    /// Starts to execute a statement, which may be a loop with a label.
    pub open spec fn eval_stmt(self, x: &'a Stmt, env: usize, label: Option<usize>) -> EngineView<'a> {
        let s = self;
        match x {
            Stmt::Var(list, kind) => {
                let scope = if is_var_kind(*kind) { s.function_scope(env) } else { env };
                s.push(Frame::VarList(list, 0, *kind, scope, env))
            },
            Stmt::Expr(e) => s.push(Frame::Expr(e, env)),
            Stmt::FunctionDecl { .. } => s.ret_empty(),
            Stmt::Return(e) => {
                match e {
                    Some(v) => {
                        if is_tail_call(v) {
                            s.push(Frame::ReturnEnd).call_start(v, env, true)
                        } else {
                            s.push(Frame::ReturnEnd).push(Frame::Expr(v, env))
                        }
                    },
                    None => s.done(Completion::Return(Value::Undefined)),
                }
            },
            Stmt::Block(b) => {
                let (s, scope) = s.new_scope(env, false);
                s.run_list(b, scope)
            },
            Stmt::Empty => s.ret_empty(),
            Stmt::Break(l) => {
                match l {
                    Some(t) => {
                        let (s, a) = s.intern_name(t);
                        s.done(Completion::Break(Some(a), None))
                    },
                    None => s.done(Completion::Break(None, None)),
                }
            },
            Stmt::Continue(l) => {
                match l {
                    Some(t) => {
                        let (s, a) = s.intern_name(t);
                        s.done(Completion::Continue(Some(a), None))
                    },
                    None => s.done(Completion::Continue(None, None)),
                }
            },
            Stmt::Throw(e) => s.push(Frame::ThrowEnd).push(Frame::Expr(e, env)),
            Stmt::If { cond, .. } => s.push(Frame::IfTest(x, env)).push(Frame::Expr(cond, env)),
            Stmt::Try { try_block, .. } => s.push(Frame::TryEnd(x, env)).run_list(try_block, env),
            Stmt::Switch { discriminant, .. } => s.push(Frame::SwitchOn(x, env)).push(Frame::Expr(discriminant, env)),
            Stmt::ForIn { expr, .. } => s.push(Frame::ForInOn(x, env, label)).push(Frame::Expr(expr, env)),
            Stmt::ForOf { expr, .. } => s.push(Frame::ForOfOn(x, env, label)).push(Frame::Expr(expr, env)),
            Stmt::For { init, .. } => {
                match init {
                    Some(b) => {
                        if declares_fresh(&**b) {
                            let (s, scope) = s.new_scope(env, false);
                            s.push(Frame::ForHead { stmt: x, env: scope, label: label, fresh: true }).push(Frame::Stmt(&**b, scope, None))
                        } else {
                            s.push(Frame::ForHead { stmt: x, env: env, label: label, fresh: false }).push(Frame::Stmt(&**b, env, None))
                        }
                    },
                    None => s.push(Frame::ForTest { stmt: x, env: env, label: label, fresh: false, value: Some(Value::Undefined) }),
                }
            },
            Stmt::While { .. } => s.push(Frame::WhileTest { stmt: x, env: env, label: label, value: Some(Value::Undefined) }),
            Stmt::DoWhile { .. } => s.push(Frame::DoBody { stmt: x, env: env, label: label, value: Some(Value::Undefined) }),
            Stmt::Labeled { label: t, body } => {
                let (s, a) = s.intern_name(t);
                s.push(Frame::LabelEnd(a)).push(Frame::Stmt(&**body, env, Some(a)))
            },
            Stmt::GeneratorBody(b) => s.run_list(b, env),
            Stmt::AsyncBody(b) => s.run_list(b, env),
        }
    }

    /// Evaluates declarators in turn; a declaration has no value.
    pub open spec fn eval_var_list(self, list: &'a Vec<Declarator>, i: usize, kind: VarKind, scope: usize, env: usize) -> EngineView<'a> {
        let s = self;
        match nth(list, i) {
            Some(d) => {
                match &d.init {
                    Some(e) => {
                        s.push(Frame::VarList(list, next(i), kind, scope, env)).push(Frame::BindDecl(&d.pat, scope, is_const_kind(kind))).push(Frame::Expr(e, env))
                    },
                    None => {
                        s.push(Frame::VarList(list, next(i), kind, scope, env)).push(Frame::BindDecl(&d.pat, scope, is_const_kind(kind))).ret(Value::Undefined)
                    },
                }
            },
            None => s.ret_empty(),
        }
    }

    /// Binds a declaration, and fixes its names where it is one of constants.
    pub open spec fn bind_decl(self, pat: &'a Pattern, scope: usize, constant: bool) -> EngineView<'a> {
        let s = self;
        let v = s.value();
        if constant {
            s.push(Frame::MarkConst(pat, scope)).push(Frame::Bind(pat, scope, Mode::Bind)).ret(v)
        } else {
            s.push(Frame::Bind(pat, scope, Mode::Bind)).ret(v)
        }
    }

    /// Returns the value.
    pub open spec fn return_end(self) -> EngineView<'a> {
        let s = self;
        let v = s.value();
        s.done(Completion::Return(v))
    }

    /// Throws the value.
    pub open spec fn throw_end(self) -> EngineView<'a> {
        let s = self;
        let v = s.value();
        s.throw(v)
    }

    /// Executes one of the two branches.
    pub open spec fn if_test(self, x: &'a Stmt, env: usize) -> EngineView<'a> {
        let s = self;
        let v = s.value();
        match x {
            Stmt::If { yes, no, .. } => {
                if s.truthy(v) {
                    s.push(Frame::IfEnd).run_list(yes, env)
                } else if no.len() > 0 {
                    s.push(Frame::IfEnd).run_list(no, env)
                } else {
                    s.ret(Value::Undefined)
                }
            },
            _ => s,
        }
    }

    /// Completes an `if`.
    pub open spec fn if_end(self) -> EngineView<'a> {
        let s = self;
        let c = if_postprocess(s.completion());
        s.done(c)
    }

    /// Hands a thrown value to the `catch` clause; everything else goes on to the
    /// `finally` block. A call in the place of the function's own is made when that has
    /// been left, and so not under the `try`.
    pub open spec fn try_postprocess(self, x: &'a Stmt, env: usize) -> EngineView<'a> {
        let s = self;
        let c = s.completion();
        match x {
            Stmt::Try { catch, .. } => {
                match c {
                    Completion::Throw(v) => {
                        match catch {
                            Some(clause) => {
                                let (s, scope) = s.new_scope(env, false);
                                let (s, a) = s.intern_name(&clause.name);
                                s.bind(scope, a, v).push(Frame::CatchEnd(x, env)).run_list(&clause.body, scope)
                            },
                            None => s.run_finally(x, env),
                        }
                    },
                    _ => s.run_finally(x, env),
                }
            },
            _ => s,
        }
    }

    /// Executes the `finally` block; the completion from before it stays unless the
    /// block ends abruptly.
    pub open spec fn run_finally(self, x: &'a Stmt, env: usize) -> EngineView<'a> {
        let s = self;
        let c = s.completion();
        match x {
            Stmt::Try { finally, .. } => {
                match finally {
                    Some(b) => {
                        s.push(Frame::FinallyEnd(c)).run_list(b, env)
                    },
                    None => s.done(c),
                }
            },
            _ => s,
        }
    }

    /// Makes the scope that the clauses of a `switch` share.
    pub open spec fn exec_switch(self, x: &'a Stmt, env: usize) -> EngineView<'a> {
        let s = self;
        let v = s.value();
        let (s, scope) = s.new_scope(env, false);
        s.push(Frame::SwitchTest { stmt: x, env: scope, on: v, i: 0, default: None })
    }

    /// Evaluates the next selector; without a match the first `default` clause runs.
    pub open spec fn switch_test(self, x: &'a Stmt, env: usize, on: Value, i: usize, default: Option<usize>) -> EngineView<'a> {
        let s = self;
        match x {
            Stmt::Switch { cases, .. } => {
                match nth(cases, i) {
                    Some(c) => {
                        match &c.test {
                            Some(t) => s.push(Frame::SwitchMatch { stmt: x, env: env, on: on, i: i, default: default }).push(Frame::Expr(t, env)),
                            None => s.push(Frame::SwitchTest { stmt: x, env: env, on: on, i: next(i), default: or(default, Some(i)) }),
                        }
                    },
                    None => {
                        match default {
                            Some(d) => s.switch_go(x, env, d, Some(Value::Undefined)),
                            None => s.ret(Value::Undefined),
                        }
                    },
                }
            },
            _ => s,
        }
    }

    /// Compares a selector.
    pub open spec fn switch_match(self, x: &'a Stmt, env: usize, on: Value, i: usize, default: Option<usize>) -> EngineView<'a> {
        let s = self;
        let v = s.value();
        if Value::strict_eq(on, v) {
            s.switch_go(x, env, i, Some(Value::Undefined))
        } else {
            s.push(Frame::SwitchTest { stmt: x, env: env, on: on, i: next(i), default: default })
        }
    }

    /// Executes a clause; the next follows it.
    pub open spec fn switch_go(self, x: &'a Stmt, env: usize, i: usize, value: Option<Value>) -> EngineView<'a> {
        let s = self;
        match x {
            Stmt::Switch { cases, .. } => {
                match nth(cases, i) {
                    Some(c) => s.push(Frame::SwitchRun { stmt: x, env: env, i: next(i), value: value }).run_list(&c.body, env),
                    None => s.done(Completion::Normal(value)),
                }
            },
            _ => s,
        }
    }

    /// Goes on after a clause.
    pub open spec fn exec_switch_from(self, x: &'a Stmt, env: usize, i: usize, value: Option<Value>) -> EngineView<'a> {
        let s = self;
        match switch_step(s.completion(), value) {
            LoopStep::Next(v) => s.switch_go(x, env, i, v),
            LoopStep::Done(c) => s.done(c),
        }
    }

    /// Gathers the keys that a `for`-`in` visits.
    pub open spec fn exec_for_in(self, x: &'a Stmt, env: usize, label: Option<usize>) -> EngineView<'a> {
        let s = self;
        let v = s.value();
        let (s, l) = s.new_list();
        s.append_keys(l, v).push(Frame::EachNext { stmt: x, env: env, label: label, source: l, i: 0, value: Some(Value::Undefined) })
    }

    /// Gathers the items that a `for`-`of` visits; an array is read as the loop goes.
    pub open spec fn exec_for_of(self, x: &'a Stmt, env: usize, label: Option<usize>) -> EngineView<'a> {
        let s = self;
        match s.value() {
            Value::Array(a) => s.push(Frame::EachNext { stmt: x, env: env, label: label, source: a, i: 0, value: Some(Value::Undefined) }),
            v => {
                let (s, l) = s.new_list();
                s.push(Frame::EachNext { stmt: x, env: env, label: label, source: l, i: 0, value: Some(Value::Undefined) }).push(Frame::Iterate(v, l))
            },
        }
    }

    /// Binds the next item; `let` and `const` bind anew in every iteration.
    pub open spec fn each_next(self, x: &'a Stmt, env: usize, label: Option<usize>, source: usize, i: usize, value: Option<Value>) -> EngineView<'a> {
        let s = self;
        if i < s.array_len(source) {
            let v = s.array_get(source, i);
            match each_head(x) {
                Some((kind, pat)) => {
                    if is_var_kind(kind) {
                        let scope = s.function_scope(env);
                        s.push(Frame::EachBody { stmt: x, env: env, label: label, source: source, i: i, value: value, body_env: env }).push(Frame::HeadBind).push(Frame::Bind(pat, scope, Mode::Bind)).ret(v)
                    } else {
                        let (s, scope) = s.new_scope(env, false);
                        if is_const_kind(kind) {
                            s.push(Frame::EachBody { stmt: x, env: env, label: label, source: source, i: i, value: value, body_env: scope }).push(Frame::MarkConst(pat, scope)).push(Frame::HeadBind).push(Frame::Bind(pat, scope, Mode::Bind)).ret(v)
                        } else {
                            s.push(Frame::EachBody { stmt: x, env: env, label: label, source: source, i: i, value: value, body_env: scope }).push(Frame::HeadBind).push(Frame::Bind(pat, scope, Mode::Bind)).ret(v)
                        }
                    }
                },
                None => s,
            }
        } else {
            s.done(Completion::Normal(value))
        }
    }

    /// Executes the body of a loop over items.
    pub open spec fn each_body(self, x: &'a Stmt, env: usize, label: Option<usize>, source: usize, i: usize, value: Option<Value>, body_env: usize) -> EngineView<'a> {
        let s = self;
        match loop_body(x) {
            Some(b) => s.push(Frame::EachStep { stmt: x, env: env, label: label, source: source, i: i, value: value }).run_list(b, body_env),
            None => s,
        }
    }

    /// Goes on after the body of a loop over items.
    pub open spec fn each_step(self, x: &'a Stmt, env: usize, label: Option<usize>, source: usize, i: usize, value: Option<Value>) -> EngineView<'a> {
        let s = self;
        match loop_body_step(s.completion(), value, label) {
            LoopStep::Next(v) => s.ret_empty().push(Frame::EachNext { stmt: x, env: env, label: label, source: source, i: next(i), value: v }),
            LoopStep::Done(c) => s.done(c),
        }
    }

    /// Evaluates the condition of a `for`.
    pub open spec fn exec_for_loop(self, x: &'a Stmt, env: usize, label: Option<usize>, fresh: bool, value: Option<Value>) -> EngineView<'a> {
        let s = self;
        match x {
            Stmt::For { cond, .. } => {
                match cond {
                    Some(c) => s.push(Frame::ForCond { stmt: x, env: env, label: label, fresh: fresh, value: value }).push(Frame::Expr(c, env)),
                    None => s.for_body(x, env, label, fresh, value),
                }
            },
            _ => s,
        }
    }

    /// Executes the body of a `for` while its condition holds.
    pub open spec fn for_cond(self, x: &'a Stmt, env: usize, label: Option<usize>, fresh: bool, value: Option<Value>) -> EngineView<'a> {
        let s = self;
        let v = s.value();
        if s.truthy(v) {
            s.for_body(x, env, label, fresh, value)
        } else {
            s.done(Completion::Normal(value))
        }
    }

    /// Executes the body of a `for`, in a scope with copies of the names that the head
    /// declares.
    pub open spec fn for_body(self, x: &'a Stmt, env: usize, label: Option<usize>, fresh: bool, value: Option<Value>) -> EngineView<'a> {
        let s = self;
        match x {
            Stmt::For { init, body, .. } => {
                if fresh {
                    let (s, scope) = s.snapshot(init, env);
                    s.push(Frame::ForStep { stmt: x, env: env, label: label, fresh: fresh, value: value }).run_list(body, scope)
                } else {
                    s.push(Frame::ForStep { stmt: x, env: env, label: label, fresh: fresh, value: value }).run_list(body, env)
                }
            },
            _ => s,
        }
    }

    /// Evaluates the update of a `for` after its body.
    pub open spec fn for_step(self, x: &'a Stmt, env: usize, label: Option<usize>, fresh: bool, value: Option<Value>) -> EngineView<'a> {
        let s = self;
        match x {
            Stmt::For { update, .. } => {
                match loop_body_step(s.completion(), value, label) {
                    LoopStep::Next(v) => {
                        match update {
                            Some(u) => s.ret_empty().push(Frame::ForTest { stmt: x, env: env, label: label, fresh: fresh, value: v }).push(Frame::Expr(u, env)),
                            None => s.ret_empty().push(Frame::ForTest { stmt: x, env: env, label: label, fresh: fresh, value: v }),
                        }
                    },
                    LoopStep::Done(c) => s.done(c),
                }
            },
            _ => s,
        }
    }

    /// Evaluates the condition of a `while`.
    pub open spec fn exec_while_loop(self, x: &'a Stmt, env: usize, label: Option<usize>, value: Option<Value>) -> EngineView<'a> {
        let s = self;
        match x {
            Stmt::While { cond, .. } => s.push(Frame::WhileCond { stmt: x, env: env, label: label, value: value }).push(Frame::Expr(cond, env)),
            _ => s,
        }
    }

    /// Executes the body of a `while` while its condition holds.
    pub open spec fn while_cond(self, x: &'a Stmt, env: usize, label: Option<usize>, value: Option<Value>) -> EngineView<'a> {
        let s = self;
        let v = s.value();
        if s.truthy(v) {
            match loop_body(x) {
                Some(b) => s.push(Frame::WhileStep { stmt: x, env: env, label: label, value: value }).run_list(b, env),
                None => s,
            }
        } else {
            s.done(Completion::Normal(value))
        }
    }

    /// Goes on after the body of a `while`.
    pub open spec fn while_step(self, x: &'a Stmt, env: usize, label: Option<usize>, value: Option<Value>) -> EngineView<'a> {
        let s = self;
        match loop_body_step(s.completion(), value, label) {
            LoopStep::Next(v) => s.ret_empty().push(Frame::WhileTest { stmt: x, env: env, label: label, value: v }),
            LoopStep::Done(c) => s.done(c),
        }
    }

    /// Executes the body of a `do`-`while`.
    pub open spec fn exec_do_while_loop(self, x: &'a Stmt, env: usize, label: Option<usize>, value: Option<Value>) -> EngineView<'a> {
        let s = self;
        match loop_body(x) {
            Some(b) => s.push(Frame::DoStep { stmt: x, env: env, label: label, value: value }).run_list(b, env),
            None => s,
        }
    }

    /// Evaluates the condition of a `do`-`while` after its body.
    pub open spec fn do_step(self, x: &'a Stmt, env: usize, label: Option<usize>, value: Option<Value>) -> EngineView<'a> {
        let s = self;
        match x {
            Stmt::DoWhile { cond, .. } => {
                match loop_body_step(s.completion(), value, label) {
                    LoopStep::Next(v) => s.ret_empty().push(Frame::DoCond { stmt: x, env: env, label: label, value: v }).push(Frame::Expr(cond, env)),
                    LoopStep::Done(c) => s.done(c),
                }
            },
            _ => s,
        }
    }

    /// Repeats a `do`-`while` while its condition holds.
    pub open spec fn do_cond(self, x: &'a Stmt, env: usize, label: Option<usize>, value: Option<Value>) -> EngineView<'a> {
        let s = self;
        let v = s.value();
        if s.truthy(v) {
            s.push(Frame::DoBody { stmt: x, env: env, label: label, value: value })
        } else {
            s.done(Completion::Normal(value))
        }
    }

    /// Completes a labelled statement.
    pub open spec fn label_end(self, label: usize) -> EngineView<'a> {
        let s = self;
        let c = labeled_postprocess(s.completion(), label);
        s.done(c)
    }
}

impl<'a> Engine<'a> {
    /// Adds the keys that `for`-`in` visits to a list.
    pub(crate) fn append_keys(&mut self, list: usize, base: Value)
        ensures
            final(self)@ == old(self)@.append_keys(list, base),
    {
        let ghost before = self@;
        let names = self.store.enumerable_keys(base);
        let ghost keys = texts(names@);
        assert(keys.len() == names@.len());
        let mut i: usize = 0;
        while i < names.len()
            invariant
                i <= names@.len(),
                keys == texts(names@),
                keys.len() == names@.len(),
                self@ == before.with_store(with_texts(before.store, list, keys, i as nat)),
            decreases names@.len() - i,
        {
            assert(keys[i as int] == names@[i as int]@);
            let a = self.intern_name(&names[i]);
            self.append(list, Value::String(a));
            i += 1;
        }
    }

    /// Hoists the declarations of a statement list and starts to execute it.
    pub(crate) fn run_list(&mut self, list: &'a Vec<Stmt>, env: usize)
        ensures
            final(self)@ == old(self)@.run_list(list, env),
    {
        self.hoist(list, env); self.push(Frame::Stmts(list, 0, env, None)); self.ret_empty();
    }

    /// Goes on with a statement list after a statement: the value of the list is that of
    /// its last statement that has one.
    pub(crate) fn exec_stmts(&mut self, list: &'a Vec<Stmt>, i: usize, env: usize, last: Option<Value>)
        ensures
            final(self)@ == old(self)@.exec_stmts(list, i, env, last),
    {
        let c = update_empty(self.completion(), last);
        match c {
            Completion::Normal(v) => {
                match nth(list, i) {
                    Some(x) => { self.push(Frame::Stmts(list, next(i), env, v)); self.push(Frame::Stmt(x, env, None)); },
                    None => { self.done(c); },
                }
            },
            _ => { self.done(c); },
        }
    }

    /// The completion of the last frame.
    pub(crate) fn completion(&self) -> (res: Completion)
        ensures
            res == self@.completion(),
    {
        self.acc
    }

    /// Starts to execute a statement, which may be a loop with a label.
    pub(crate) fn eval_stmt(&mut self, x: &'a Stmt, env: usize, label: Option<usize>)
        ensures
            final(self)@ == old(self)@.eval_stmt(x, env, label),
    {
        match x {
            Stmt::Var(list, kind) => {
                let scope = if is_var_kind(*kind) { self.function_scope(env) } else { env };
                self.push(Frame::VarList(list, 0, *kind, scope, env));
            },
            Stmt::Expr(e) => { self.push(Frame::Expr(e, env)); },
            Stmt::FunctionDecl { .. } => { self.ret_empty(); },
            Stmt::Return(e) => {
                match e {
                    Some(v) => {
                        if is_tail_call(v) {
                            self.push(Frame::ReturnEnd); self.call_start(v, env, true);
                        } else {
                            self.push(Frame::ReturnEnd); self.push(Frame::Expr(v, env));
                        }
                    },
                    None => { self.done(Completion::Return(Value::Undefined)); },
                }
            },
            Stmt::Block(b) => {
                let scope = self.new_scope(env, false);
                self.run_list(b, scope);
            },
            Stmt::Empty => { self.ret_empty(); },
            Stmt::Break(l) => {
                match l {
                    Some(t) => {
                        let a = self.intern_name(t);
                        self.done(Completion::Break(Some(a), None));
                    },
                    None => { self.done(Completion::Break(None, None)); },
                }
            },
            Stmt::Continue(l) => {
                match l {
                    Some(t) => {
                        let a = self.intern_name(t);
                        self.done(Completion::Continue(Some(a), None));
                    },
                    None => { self.done(Completion::Continue(None, None)); },
                }
            },
            Stmt::Throw(e) => { self.push(Frame::ThrowEnd); self.push(Frame::Expr(e, env)); },
            Stmt::If { cond, .. } => { self.push(Frame::IfTest(x, env)); self.push(Frame::Expr(cond, env)); },
            Stmt::Try { try_block, .. } => { self.push(Frame::TryEnd(x, env)); self.run_list(try_block, env); },
            Stmt::Switch { discriminant, .. } => { self.push(Frame::SwitchOn(x, env)); self.push(Frame::Expr(discriminant, env)); },
            Stmt::ForIn { expr, .. } => { self.push(Frame::ForInOn(x, env, label)); self.push(Frame::Expr(expr, env)); },
            Stmt::ForOf { expr, .. } => { self.push(Frame::ForOfOn(x, env, label)); self.push(Frame::Expr(expr, env)); },
            Stmt::For { init, .. } => {
                match init {
                    Some(b) => {
                        if declares_fresh(&**b) {
                            let scope = self.new_scope(env, false);
                            self.push(Frame::ForHead { stmt: x, env: scope, label: label, fresh: true }); self.push(Frame::Stmt(&**b, scope, None));
                        } else {
                            self.push(Frame::ForHead { stmt: x, env: env, label: label, fresh: false }); self.push(Frame::Stmt(&**b, env, None));
                        }
                    },
                    None => { self.push(Frame::ForTest { stmt: x, env: env, label: label, fresh: false, value: Some(Value::Undefined) }); },
                }
            },
            Stmt::While { .. } => { self.push(Frame::WhileTest { stmt: x, env: env, label: label, value: Some(Value::Undefined) }); },
            Stmt::DoWhile { .. } => { self.push(Frame::DoBody { stmt: x, env: env, label: label, value: Some(Value::Undefined) }); },
            Stmt::Labeled { label: t, body } => {
                let a = self.intern_name(t);
                self.push(Frame::LabelEnd(a)); self.push(Frame::Stmt(&**body, env, Some(a)));
            },
            Stmt::GeneratorBody(b) => { self.run_list(b, env); },
            Stmt::AsyncBody(b) => { self.run_list(b, env); },
        }
    }

    /// Evaluates declarators in turn; a declaration has no value.
    pub(crate) fn eval_var_list(&mut self, list: &'a Vec<Declarator>, i: usize, kind: VarKind, scope: usize, env: usize)
        ensures
            final(self)@ == old(self)@.eval_var_list(list, i, kind, scope, env),
    {
        match nth(list, i) {
            Some(d) => {
                match &d.init {
                    Some(e) => {
                        self.push(Frame::VarList(list, next(i), kind, scope, env)); self.push(Frame::BindDecl(&d.pat, scope, is_const_kind(kind))); self.push(Frame::Expr(e, env));
                    },
                    None => {
                        self.push(Frame::VarList(list, next(i), kind, scope, env)); self.push(Frame::BindDecl(&d.pat, scope, is_const_kind(kind))); self.ret(Value::Undefined);
                    },
                }
            },
            None => { self.ret_empty(); },
        }
    }

    /// Binds a declaration, and fixes its names where it is one of constants.
    pub(crate) fn bind_decl(&mut self, pat: &'a Pattern, scope: usize, constant: bool)
        ensures
            final(self)@ == old(self)@.bind_decl(pat, scope, constant),
    {
        let v = self.value();
        if constant {
            self.push(Frame::MarkConst(pat, scope)); self.push(Frame::Bind(pat, scope, Mode::Bind)); self.ret(v);
        } else {
            self.push(Frame::Bind(pat, scope, Mode::Bind)); self.ret(v);
        }
    }

    /// Returns the value.
    pub(crate) fn return_end(&mut self)
        ensures
            final(self)@ == old(self)@.return_end(),
    {
        let v = self.value();
        self.done(Completion::Return(v));
    }

    /// Throws the value.
    pub(crate) fn throw_end(&mut self)
        ensures
            final(self)@ == old(self)@.throw_end(),
    {
        let v = self.value();
        self.throw(v);
    }

    /// Executes one of the two branches.
    pub(crate) fn if_test(&mut self, x: &'a Stmt, env: usize)
        ensures
            final(self)@ == old(self)@.if_test(x, env),
    {
        let v = self.value();
        match x {
            Stmt::If { yes, no, .. } => {
                if self.truthy(v) {
                    self.push(Frame::IfEnd); self.run_list(yes, env);
                } else if no.len() > 0 {
                    self.push(Frame::IfEnd); self.run_list(no, env);
                } else {
                    self.ret(Value::Undefined);
                }
            },
            _ => {},
        }
    }

    /// Completes an `if`.
    pub(crate) fn if_end(&mut self)
        ensures
            final(self)@ == old(self)@.if_end(),
    {
        let c = if_postprocess(self.completion());
        self.done(c);
    }

    /// Hands a thrown value to the `catch` clause; everything else goes on to the
    /// `finally` block. A call in the place of the function's own is made when that has
    /// been left, and so not under the `try`.
    pub(crate) fn try_postprocess(&mut self, x: &'a Stmt, env: usize)
        ensures
            final(self)@ == old(self)@.try_postprocess(x, env),
    {
        let c = self.completion();
        match x {
            Stmt::Try { catch, .. } => {
                match c {
                    Completion::Throw(v) => {
                        match catch {
                            Some(clause) => {
                                let scope = self.new_scope(env, false);
                                let a = self.intern_name(&clause.name);
                                self.bind(scope, a, v); self.push(Frame::CatchEnd(x, env)); self.run_list(&clause.body, scope);
                            },
                            None => { self.run_finally(x, env); },
                        }
                    },
                    _ => { self.run_finally(x, env); },
                }
            },
            _ => {},
        }
    }

    /// Executes the `finally` block; the completion from before it stays unless the
    /// block ends abruptly.
    pub(crate) fn run_finally(&mut self, x: &'a Stmt, env: usize)
        ensures
            final(self)@ == old(self)@.run_finally(x, env),
    {
        let c = self.completion();
        match x {
            Stmt::Try { finally, .. } => {
                match finally {
                    Some(b) => {
                        self.push(Frame::FinallyEnd(c)); self.run_list(b, env);
                    },
                    None => { self.done(c); },
                }
            },
            _ => {},
        }
    }

    /// Makes the scope that the clauses of a `switch` share.
    pub(crate) fn exec_switch(&mut self, x: &'a Stmt, env: usize)
        ensures
            final(self)@ == old(self)@.exec_switch(x, env),
    {
        let v = self.value();
        let scope = self.new_scope(env, false);
        self.push(Frame::SwitchTest { stmt: x, env: scope, on: v, i: 0, default: None });
    }

    /// Evaluates the next selector; without a match the first `default` clause runs.
    pub(crate) fn switch_test(&mut self, x: &'a Stmt, env: usize, on: Value, i: usize, default: Option<usize>)
        ensures
            final(self)@ == old(self)@.switch_test(x, env, on, i, default),
    {
        match x {
            Stmt::Switch { cases, .. } => {
                match nth(cases, i) {
                    Some(c) => {
                        match &c.test {
                            Some(t) => { self.push(Frame::SwitchMatch { stmt: x, env: env, on: on, i: i, default: default }); self.push(Frame::Expr(t, env)); },
                            None => { self.push(Frame::SwitchTest { stmt: x, env: env, on: on, i: next(i), default: or(default, Some(i)) }); },
                        }
                    },
                    None => {
                        match default {
                            Some(d) => { self.switch_go(x, env, d, Some(Value::Undefined)); },
                            None => { self.ret(Value::Undefined); },
                        }
                    },
                }
            },
            _ => {},
        }
    }

    /// Compares a selector.
    pub(crate) fn switch_match(&mut self, x: &'a Stmt, env: usize, on: Value, i: usize, default: Option<usize>)
        ensures
            final(self)@ == old(self)@.switch_match(x, env, on, i, default),
    {
        let v = self.value();
        if Value::strict_eq(on, v) {
            self.switch_go(x, env, i, Some(Value::Undefined));
        } else {
            self.push(Frame::SwitchTest { stmt: x, env: env, on: on, i: next(i), default: default });
        }
    }

    /// Executes a clause; the next follows it.
    pub(crate) fn switch_go(&mut self, x: &'a Stmt, env: usize, i: usize, value: Option<Value>)
        ensures
            final(self)@ == old(self)@.switch_go(x, env, i, value),
    {
        match x {
            Stmt::Switch { cases, .. } => {
                match nth(cases, i) {
                    Some(c) => { self.push(Frame::SwitchRun { stmt: x, env: env, i: next(i), value: value }); self.run_list(&c.body, env); },
                    None => { self.done(Completion::Normal(value)); },
                }
            },
            _ => {},
        }
    }

    /// Goes on after a clause.
    pub(crate) fn exec_switch_from(&mut self, x: &'a Stmt, env: usize, i: usize, value: Option<Value>)
        ensures
            final(self)@ == old(self)@.exec_switch_from(x, env, i, value),
    {
        match switch_step(self.completion(), value) {
            LoopStep::Next(v) => { self.switch_go(x, env, i, v); },
            LoopStep::Done(c) => { self.done(c); },
        }
    }

    /// Gathers the keys that a `for`-`in` visits.
    pub(crate) fn exec_for_in(&mut self, x: &'a Stmt, env: usize, label: Option<usize>)
        ensures
            final(self)@ == old(self)@.exec_for_in(x, env, label),
    {
        let v = self.value();
        let l = self.new_list();
        self.append_keys(l, v); self.push(Frame::EachNext { stmt: x, env: env, label: label, source: l, i: 0, value: Some(Value::Undefined) });
    }

    /// Gathers the items that a `for`-`of` visits; an array is read as the loop goes.
    pub(crate) fn exec_for_of(&mut self, x: &'a Stmt, env: usize, label: Option<usize>)
        ensures
            final(self)@ == old(self)@.exec_for_of(x, env, label),
    {
        match self.value() {
            Value::Array(a) => { self.push(Frame::EachNext { stmt: x, env: env, label: label, source: a, i: 0, value: Some(Value::Undefined) }); },
            v => {
                let l = self.new_list();
                self.push(Frame::EachNext { stmt: x, env: env, label: label, source: l, i: 0, value: Some(Value::Undefined) }); self.push(Frame::Iterate(v, l));
            },
        }
    }

    /// Binds the next item; `let` and `const` bind anew in every iteration.
    pub(crate) fn each_next(&mut self, x: &'a Stmt, env: usize, label: Option<usize>, source: usize, i: usize, value: Option<Value>)
        ensures
            final(self)@ == old(self)@.each_next(x, env, label, source, i, value),
    {
        if i < self.array_len(source) {
            let v = self.array_get(source, i);
            match each_head(x) {
                Some((kind, pat)) => {
                    if is_var_kind(kind) {
                        let scope = self.function_scope(env);
                        self.push(Frame::EachBody { stmt: x, env: env, label: label, source: source, i: i, value: value, body_env: env }); self.push(Frame::HeadBind); self.push(Frame::Bind(pat, scope, Mode::Bind)); self.ret(v);
                    } else {
                        let scope = self.new_scope(env, false);
                        if is_const_kind(kind) {
                            self.push(Frame::EachBody { stmt: x, env: env, label: label, source: source, i: i, value: value, body_env: scope }); self.push(Frame::MarkConst(pat, scope)); self.push(Frame::HeadBind); self.push(Frame::Bind(pat, scope, Mode::Bind)); self.ret(v);
                        } else {
                            self.push(Frame::EachBody { stmt: x, env: env, label: label, source: source, i: i, value: value, body_env: scope }); self.push(Frame::HeadBind); self.push(Frame::Bind(pat, scope, Mode::Bind)); self.ret(v);
                        }
                    }
                },
                None => {},
            }
        } else {
            self.done(Completion::Normal(value));
        }
    }

    /// Executes the body of a loop over items.
    pub(crate) fn each_body(&mut self, x: &'a Stmt, env: usize, label: Option<usize>, source: usize, i: usize, value: Option<Value>, body_env: usize)
        ensures
            final(self)@ == old(self)@.each_body(x, env, label, source, i, value, body_env),
    {
        match loop_body(x) {
            Some(b) => { self.push(Frame::EachStep { stmt: x, env: env, label: label, source: source, i: i, value: value }); self.run_list(b, body_env); },
            None => {},
        }
    }

    /// Goes on after the body of a loop over items.
    pub(crate) fn each_step(&mut self, x: &'a Stmt, env: usize, label: Option<usize>, source: usize, i: usize, value: Option<Value>)
        ensures
            final(self)@ == old(self)@.each_step(x, env, label, source, i, value),
    {
        match loop_body_step(self.completion(), value, label) {
            LoopStep::Next(v) => { self.ret_empty(); self.push(Frame::EachNext { stmt: x, env: env, label: label, source: source, i: next(i), value: v }); },
            LoopStep::Done(c) => { self.done(c); },
        }
    }

    /// Evaluates the condition of a `for`.
    pub(crate) fn exec_for_loop(&mut self, x: &'a Stmt, env: usize, label: Option<usize>, fresh: bool, value: Option<Value>)
        ensures
            final(self)@ == old(self)@.exec_for_loop(x, env, label, fresh, value),
    {
        match x {
            Stmt::For { cond, .. } => {
                match cond {
                    Some(c) => { self.push(Frame::ForCond { stmt: x, env: env, label: label, fresh: fresh, value: value }); self.push(Frame::Expr(c, env)); },
                    None => { self.for_body(x, env, label, fresh, value); },
                }
            },
            _ => {},
        }
    }

    /// Executes the body of a `for` while its condition holds.
    pub(crate) fn for_cond(&mut self, x: &'a Stmt, env: usize, label: Option<usize>, fresh: bool, value: Option<Value>)
        ensures
            final(self)@ == old(self)@.for_cond(x, env, label, fresh, value),
    {
        let v = self.value();
        if self.truthy(v) {
            self.for_body(x, env, label, fresh, value);
        } else {
            self.done(Completion::Normal(value));
        }
    }

    /// Executes the body of a `for`, in a scope with copies of the names that the head
    /// declares.
    pub(crate) fn for_body(&mut self, x: &'a Stmt, env: usize, label: Option<usize>, fresh: bool, value: Option<Value>)
        ensures
            final(self)@ == old(self)@.for_body(x, env, label, fresh, value),
    {
        match x {
            Stmt::For { init, body, .. } => {
                if fresh {
                    let scope = self.snapshot(init, env);
                    self.push(Frame::ForStep { stmt: x, env: env, label: label, fresh: fresh, value: value }); self.run_list(body, scope);
                } else {
                    self.push(Frame::ForStep { stmt: x, env: env, label: label, fresh: fresh, value: value }); self.run_list(body, env);
                }
            },
            _ => {},
        }
    }

    /// Evaluates the update of a `for` after its body.
    pub(crate) fn for_step(&mut self, x: &'a Stmt, env: usize, label: Option<usize>, fresh: bool, value: Option<Value>)
        ensures
            final(self)@ == old(self)@.for_step(x, env, label, fresh, value),
    {
        match x {
            Stmt::For { update, .. } => {
                match loop_body_step(self.completion(), value, label) {
                    LoopStep::Next(v) => {
                        match update {
                            Some(u) => { self.ret_empty(); self.push(Frame::ForTest { stmt: x, env: env, label: label, fresh: fresh, value: v }); self.push(Frame::Expr(u, env)); },
                            None => { self.ret_empty(); self.push(Frame::ForTest { stmt: x, env: env, label: label, fresh: fresh, value: v }); },
                        }
                    },
                    LoopStep::Done(c) => { self.done(c); },
                }
            },
            _ => {},
        }
    }

    /// Evaluates the condition of a `while`.
    pub(crate) fn exec_while_loop(&mut self, x: &'a Stmt, env: usize, label: Option<usize>, value: Option<Value>)
        ensures
            final(self)@ == old(self)@.exec_while_loop(x, env, label, value),
    {
        match x {
            Stmt::While { cond, .. } => { self.push(Frame::WhileCond { stmt: x, env: env, label: label, value: value }); self.push(Frame::Expr(cond, env)); },
            _ => {},
        }
    }

    /// Executes the body of a `while` while its condition holds.
    pub(crate) fn while_cond(&mut self, x: &'a Stmt, env: usize, label: Option<usize>, value: Option<Value>)
        ensures
            final(self)@ == old(self)@.while_cond(x, env, label, value),
    {
        let v = self.value();
        if self.truthy(v) {
            match loop_body(x) {
                Some(b) => { self.push(Frame::WhileStep { stmt: x, env: env, label: label, value: value }); self.run_list(b, env); },
                None => {},
            }
        } else {
            self.done(Completion::Normal(value));
        }
    }

    /// Goes on after the body of a `while`.
    pub(crate) fn while_step(&mut self, x: &'a Stmt, env: usize, label: Option<usize>, value: Option<Value>)
        ensures
            final(self)@ == old(self)@.while_step(x, env, label, value),
    {
        match loop_body_step(self.completion(), value, label) {
            LoopStep::Next(v) => { self.ret_empty(); self.push(Frame::WhileTest { stmt: x, env: env, label: label, value: v }); },
            LoopStep::Done(c) => { self.done(c); },
        }
    }

    /// Executes the body of a `do`-`while`.
    pub(crate) fn exec_do_while_loop(&mut self, x: &'a Stmt, env: usize, label: Option<usize>, value: Option<Value>)
        ensures
            final(self)@ == old(self)@.exec_do_while_loop(x, env, label, value),
    {
        match loop_body(x) {
            Some(b) => { self.push(Frame::DoStep { stmt: x, env: env, label: label, value: value }); self.run_list(b, env); },
            None => {},
        }
    }

    /// Evaluates the condition of a `do`-`while` after its body.
    pub(crate) fn do_step(&mut self, x: &'a Stmt, env: usize, label: Option<usize>, value: Option<Value>)
        ensures
            final(self)@ == old(self)@.do_step(x, env, label, value),
    {
        match x {
            Stmt::DoWhile { cond, .. } => {
                match loop_body_step(self.completion(), value, label) {
                    LoopStep::Next(v) => { self.ret_empty(); self.push(Frame::DoCond { stmt: x, env: env, label: label, value: v }); self.push(Frame::Expr(cond, env)); },
                    LoopStep::Done(c) => { self.done(c); },
                }
            },
            _ => {},
        }
    }

    /// Repeats a `do`-`while` while its condition holds.
    pub(crate) fn do_cond(&mut self, x: &'a Stmt, env: usize, label: Option<usize>, value: Option<Value>)
        ensures
            final(self)@ == old(self)@.do_cond(x, env, label, value),
    {
        let v = self.value();
        if self.truthy(v) {
            self.push(Frame::DoBody { stmt: x, env: env, label: label, value: value });
        } else {
            self.done(Completion::Normal(value));
        }
    }

    /// Completes a labelled statement.
    pub(crate) fn label_end(&mut self, label: usize)
        ensures
            final(self)@ == old(self)@.label_end(label),
    {
        let c = labeled_postprocess(self.completion(), label);
        self.done(c);
    }
}

} // verus!
