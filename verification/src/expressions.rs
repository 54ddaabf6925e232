//! The meaning of expressions other than those on big integers: from what the parts of
//! an expression give to what it gives.
use vstd::prelude::*;
use crate::ast::{AssignTarget, BinaryOp, Expr, Lit, LogicalOp, UnaryOp};
use crate::engine::{EngineView, Frame, Request};
use crate::env::{assigned, lookup};
use crate::frames::{
    on_assign_base, on_assign_end, on_concat_end, on_concat_right, on_delete_base, on_expr, on_give, on_inc_end, on_inc_store, on_instance_end, on_instance_right,
    on_logical_end, on_member, on_negate, on_num, on_num_end, on_num_right, on_sequence, on_ternary_end, on_text,
};
use crate::expr::on_chain;
use crate::heap::HeapView;
use crate::laws::lemma_atom_text;
use crate::meaning::{calm, evaluates, has_value, leads, lemma_follow, lemma_value, on};
use crate::number::{nan, negated, number_le, number_lt, signed, ONE};
use crate::object::Read;
use crate::operators::{lemma_operands, lemma_unary};
use crate::value::Value;

verus! {

/// The machine once a text is interned.
pub open spec fn knowing<'a>(s: EngineView<'a>, t: Seq<char>) -> EngineView<'a> {
    s.with_store(s.store.with_text(t))
}

/// A name has the value that its innermost binding has; a name that nothing binds has
/// that of the global object's property, and one that is nowhere throws.
pub proof fn law_names<'a>(s: EngineView<'a>, e: &'a Expr, env: usize)
    requires
        calm(s),
        e is Ident,
    ensures
        e matches Expr::Ident(t) && ({
            let a = s.store.atom(t@);
            let u = knowing(s, t@);
            &&& lookup(u.store.heap, env, a) matches Some(v) ==> evaluates(s, e, env, u.ret(v))
            &&& lookup(u.store.heap, env, a) is None ==> match u.own_prop(u.store.b.global_object, a) {
                Some(p) => evaluates(s, e, env, u.ret(p.value)),
                None => exists|w: EngineView<'a>| #[trigger] evaluates(s, e, env, w) && w.acc is Throw,
            }
        }),
{
    match e {
        Expr::Ident(t) => {
            let a = s.store.atom(t@);
            let u = knowing(s, t@);
            let w = u.identifier(a, env);
            assert forall|k: Seq<Frame<'a>>| leads(#[trigger] on(s, k).push(Frame::Expr(e, env)), on(w, k)) by {
                on_expr(s, k, e, env);
                assert(on(s, k).eval_expr(e, env) == on(w, k));
            }
            assert(evaluates(s, e, env, w));
        },
        _ => {},
    }
}

/// The conditional operator evaluates its condition and one of its branches: the first
/// where the condition counts as true.
pub proof fn law_ternary<'a>(s: EngineView<'a>, e: &'a Expr, env: usize, t: EngineView<'a>, v: Value, u: EngineView<'a>)
    requires
        calm(s),
        has_value(t, v),
        e matches Expr::Ternary { cond, yes, no } && evaluates(s, &**cond, env, t) && (if t.truthy(v) { evaluates(t, &**yes, env, u) } else { evaluates(t, &**no, env, u) }),
    ensures
        evaluates(s, e, env, u),
{
    assert forall|k: Seq<Frame<'a>>| leads(#[trigger] on(s, k).push(Frame::Expr(e, env)), on(u, k)) by {
        match e {
            Expr::Ternary { cond, yes, no } => {
                let start = on(s, k).push(Frame::Expr(e, env));
                let f = Frame::TernaryEnd(e, env);
                on_expr(s, k, e, env);
                lemma_value(s, &**cond, env, t, k.push(f));
                lemma_follow(start, on(s, k.push(f)).push(Frame::Expr(&**cond, env)), on(t, k).push(f));
                on_ternary_end(t, k, e, env);
                let b = if t.truthy(v) { &**yes } else { &**no };
                lemma_follow(start, on(t, k).push(f), on(t, k).push(Frame::Expr(b, env)));
                lemma_value(t, b, env, u, k);
                lemma_follow(start, on(t, k).push(Frame::Expr(b, env)), on(u, k));
            },
            _ => {},
        }
    }
}

/// A short-circuiting operator gives its left operand where that decides, and else its
/// right one: `&&` is decided by what counts as false, `||` by what counts as true, and
/// `??` by what is neither `null` nor `undefined`.
pub proof fn law_logical<'a>(s: EngineView<'a>, e: &'a Expr, env: usize, t: EngineView<'a>, v: Value, u: EngineView<'a>)
    requires
        calm(s),
        has_value(t, v),
        e matches Expr::Logical { op, left, right } && evaluates(s, &**left, env, t) && (if match op {
            LogicalOp::And => !t.truthy(v),
            LogicalOp::Or => t.truthy(v),
            LogicalOp::Coalesce => !(v is Null) && !(v is Undefined),
        } {
            u == t
        } else {
            evaluates(t, &**right, env, u)
        }),
    ensures
        evaluates(s, e, env, u),
{
    assert forall|k: Seq<Frame<'a>>| leads(#[trigger] on(s, k).push(Frame::Expr(e, env)), on(u, k)) by {
        match e {
            Expr::Logical { op, left, right } => {
                let start = on(s, k).push(Frame::Expr(e, env));
                let f = Frame::LogicalEnd(*op, &**right, env);
                on_expr(s, k, e, env);
                lemma_value(s, &**left, env, t, k.push(f));
                lemma_follow(start, on(s, k.push(f)).push(Frame::Expr(&**left, env)), on(t, k).push(f));
                on_logical_end(t, k, *op, &**right, env);
                let decided = match op {
                    LogicalOp::And => !t.truthy(v),
                    LogicalOp::Or => t.truthy(v),
                    LogicalOp::Coalesce => !(v is Null) && !(v is Undefined),
                };
                if decided {
                    lemma_follow(start, on(t, k).push(f), on(t, k));
                } else {
                    lemma_follow(start, on(t, k).push(f), on(t, k).push(Frame::Expr(&**right, env)));
                    lemma_value(t, &**right, env, u, k);
                    lemma_follow(start, on(t, k).push(Frame::Expr(&**right, env)), on(u, k));
                }
            },
            _ => {},
        }
    }
}

/// Expressions in sequence are evaluated in turn, and the last one gives the value.
pub proof fn law_sequence<'a>(s: EngineView<'a>, e: &'a Expr, env: usize, t: EngineView<'a>, u: EngineView<'a>)
    requires
        calm(s),
        calm(t),
        calm(u),
        e matches Expr::Sequence(list) && list@.len() == 2 && evaluates(s.ret(Value::Undefined), &list@[0], env, t) && evaluates(t, &list@[1], env, u),
    ensures
        evaluates(s, e, env, u),
{
    assert forall|k: Seq<Frame<'a>>| leads(#[trigger] on(s, k).push(Frame::Expr(e, env)), on(u, k)) by {
        match e {
            Expr::Sequence(list) => {
                let start = on(s, k).push(Frame::Expr(e, env));
                let r = s.ret(Value::Undefined);
                let f = Frame::Sequence(list, 1, env);
                let g = Frame::Sequence(list, 2, env);
                on_expr(s, k, e, env);
                on_sequence(r, k, list, 0, env);
                lemma_follow(start, on(r, k).push(Frame::Sequence(list, 0, env)), on(r, k.push(f)).push(Frame::Expr(&list@[0], env)));
                lemma_value(r, &list@[0], env, t, k.push(f));
                lemma_follow(start, on(r, k.push(f)).push(Frame::Expr(&list@[0], env)), on(t, k).push(f));
                on_sequence(t, k, list, 1, env);
                lemma_follow(start, on(t, k).push(f), on(t, k.push(g)).push(Frame::Expr(&list@[1], env)));
                lemma_value(t, &list@[1], env, u, k.push(g));
                lemma_follow(start, on(t, k.push(g)).push(Frame::Expr(&list@[1], env)), on(u, k).push(g));
                on_sequence(u, k, list, 2, env);
                lemma_follow(start, on(u, k).push(g), on(u, k));
            },
            _ => {},
        }
    }
}

/// `!` answers whether its operand does not count as true, and `void` gives
/// `undefined`; a minus sign before a number changes its sign alone, and a plus sign
/// nothing.
pub proof fn law_unary<'a>(s: EngineView<'a>, e: &'a Expr, env: usize, t: EngineView<'a>, v: Value)
    requires
        calm(s),
        has_value(t, v),
        e matches Expr::Unary { op, operand } && evaluates(s, &**operand, env, t),
    ensures
        e matches Expr::Unary { op, operand } && match op {
            UnaryOp::Not => evaluates(s, e, env, t.ret(Value::Boolean(!t.truthy(v)))),
            UnaryOp::Void => evaluates(s, e, env, t.ret(Value::Undefined)),
            UnaryOp::Plus => v is Number ==> evaluates(s, e, env, t),
            UnaryOp::Neg => v matches Value::Number(x) ==> exists|z: u64| #[trigger] evaluates(s, e, env, t.ret(Value::Number(z))) && nan(z) == nan(x) && (!nan(x) ==> signed(z) == -signed(x)),
            _ => true,
        },
{
    match e {
        Expr::Unary { op, operand } => {
            if op is Not || op is Void {
                let w = if op is Not { t.ret(Value::Boolean(!t.truthy(v))) } else { t.ret(Value::Undefined) };
                assert forall|k: Seq<Frame<'a>>| leads(#[trigger] on(s, k).push(Frame::Expr(e, env)), on(w, k)) by {
                    lemma_unary(s, e, env, t, k);
                    assert(on(t, k).eval_unary_value(e, env) == on(w, k));
                }
            }
            match v {
                Value::Number(x) => {
                    if op is Plus {
                        assert forall|k: Seq<Frame<'a>>| leads(#[trigger] on(s, k).push(Frame::Expr(e, env)), on(t, k)) by {
                            lemma_unary(s, e, env, t, k);
                            on_num(t, k, v);
                            lemma_follow(on(s, k).push(Frame::Expr(e, env)), on(t, k).push(Frame::Num(v)), on(t, k));
                        }
                    }
                    if op is Neg {
                        let z = negated(x);
                        let w = t.ret(Value::Number(z));
                        assert(nan(z) == nan(x));
                        assert(signed(z) == -signed(x));
                        assert forall|k: Seq<Frame<'a>>| leads(#[trigger] on(s, k).push(Frame::Expr(e, env)), on(w, k)) by {
                            let start = on(s, k).push(Frame::Expr(e, env));
                            lemma_unary(s, e, env, t, k);
                            on_num(t, k.push(Frame::Negate), v);
                            lemma_follow(start, on(t, k.push(Frame::Negate)).push(Frame::Num(v)), on(t, k).push(Frame::Negate));
                            on_negate(t, k);
                            lemma_follow(start, on(t, k).push(Frame::Negate), on(w, k));
                        }
                        assert(evaluates(s, e, env, t.ret(Value::Number(z))));
                    }
                },
                _ => {},
            }
        },
        _ => {},
    }
}

proof fn lemma_numbers<'a>(s: EngineView<'a>, e: &'a Expr, env: usize, t: EngineView<'a>, u: EngineView<'a>, x: u64, y: u64, k: Seq<Frame<'a>>)
    requires
        calm(s),
        e matches Expr::Binary { op, left, right } && evaluates(s, &**left, env, t) && evaluates(t, &**right, env, u) && !(*op is Eq || *op is Ne || *op is StrictEq || *op is StrictNe || *op is In),
        has_value(t, Value::Number(x)),
        has_value(u, Value::Number(y)),
    ensures
        e matches Expr::Binary { op, left, right } && leads(on(s, k).push(Frame::Expr(e, env)), on(u, k).apply_numbers(*op, x, y)),
{
    match e {
        Expr::Binary { op, left, right } => {
            let start = on(s, k).push(Frame::Expr(e, env));
            let a = Value::Number(x);
            let b = Value::Number(y);
            lemma_operands(s, e, env, t, u, a, b, k);
            let f = Frame::NumRight(*op, b);
            let g = Frame::NumEnd(*op, x);
            let ua = u.ret(a);
            assert(u.ret(b) == u);
            assert(on(u, k).binary(*op, a, b) == on(u, k.push(f)).push(Frame::Num(a)));
            on_num(u, k.push(f), a);
            lemma_follow(start, on(u, k.push(f)).push(Frame::Num(a)), on(ua, k).push(f));
            on_num_right(ua, k, *op, b);
            lemma_follow(start, on(ua, k).push(f), on(ua, k.push(g)).push(Frame::Num(b)));
            on_num(ua, k.push(g), b);
            lemma_follow(start, on(ua, k.push(g)).push(Frame::Num(b)), on(u, k).push(g));
            on_num_end(u, k, *op, x);
            lemma_follow(start, on(u, k).push(g), on(u, k).apply_numbers(*op, x, y));
        },
        _ => {},
    }
}

/// Arithmetic on two numbers is asked of the host: the operator with the left operand
/// first and the right one second.
pub proof fn law_arithmetic<'a>(s: EngineView<'a>, e: &'a Expr, env: usize, t: EngineView<'a>, u: EngineView<'a>, x: u64, y: u64)
    requires
        calm(s),
        e matches Expr::Binary { op, left, right } && evaluates(s, &**left, env, t) && evaluates(t, &**right, env, u) && (*op is Add || *op is Sub || *op is Mul || *op is Div || *op is Rem || *op is Exp),
        has_value(t, Value::Number(x)),
        has_value(u, Value::Number(y)),
    ensures
        e matches Expr::Binary { op, .. } && evaluates(s, e, env, u.ask(Request::Arith(*op, x, y))),
{
    match e {
        Expr::Binary { op, .. } => {
            let w = u.ask(Request::Arith(*op, x, y));
            assert forall|k: Seq<Frame<'a>>| leads(#[trigger] on(s, k).push(Frame::Expr(e, env)), on(w, k)) by {
                lemma_numbers(s, e, env, t, u, x, y, k);
                assert(on(u, k).apply_numbers(*op, x, y) == on(w, k));
            }
        },
        _ => {},
    }
}

/// A comparison of two numbers answers as the left one compares with the right one.
pub proof fn law_comparison<'a>(s: EngineView<'a>, e: &'a Expr, env: usize, t: EngineView<'a>, u: EngineView<'a>, x: u64, y: u64)
    requires
        calm(s),
        e matches Expr::Binary { op, left, right } && evaluates(s, &**left, env, t) && evaluates(t, &**right, env, u) && (*op is Lt || *op is Gt || *op is Le || *op is Ge),
        has_value(t, Value::Number(x)),
        has_value(u, Value::Number(y)),
    ensures
        e matches Expr::Binary { op, .. } && evaluates(s, e, env, u.ret(Value::Boolean(match op {
            BinaryOp::Lt => number_lt(x, y),
            BinaryOp::Gt => number_lt(y, x),
            BinaryOp::Le => number_le(x, y),
            _ => number_le(y, x),
        }))),
{
    match e {
        Expr::Binary { op, .. } => {
            let w = u.ret(Value::Boolean(match op {
                BinaryOp::Lt => number_lt(x, y),
                BinaryOp::Gt => number_lt(y, x),
                BinaryOp::Le => number_le(x, y),
                _ => number_le(y, x),
            }));
            assert forall|k: Seq<Frame<'a>>| leads(#[trigger] on(s, k).push(Frame::Expr(e, env)), on(w, k)) by {
                lemma_numbers(s, e, env, t, u, x, y, k);
                assert(on(u, k).apply_numbers(*op, x, y) == on(w, k));
            }
        },
        _ => {},
    }
}

/// Two strings are added by joining them: the text of the left one comes first.
pub proof fn law_concatenation<'a>(s: EngineView<'a>, e: &'a Expr, env: usize, t: EngineView<'a>, u: EngineView<'a>, x: usize, y: usize) -> (w: EngineView<'a>)
    requires
        calm(s),
        e matches Expr::Binary { op, left, right } && evaluates(s, &**left, env, t) && evaluates(t, &**right, env, u) && *op is Add,
        has_value(t, Value::String(x)),
        has_value(u, Value::String(y)),
        u.store.heap.atoms.len() < usize::MAX,
    ensures
        evaluates(s, e, env, w),
        w.value() matches Value::String(z) && w.store.text(z) == u.store.text(x) + u.store.text(y),
{
    let a = Value::String(x);
    let b = Value::String(y);
    let joined = u.store.text(x) + u.store.text(y);
    let w = knowing(u, joined).ret(Value::String(u.store.atom(joined)));
    lemma_atom_text(u.store, joined);
    assert forall|k: Seq<Frame<'a>>| leads(#[trigger] on(s, k).push(Frame::Expr(e, env)), on(w, k)) by {
        let start = on(s, k).push(Frame::Expr(e, env));
        lemma_operands(s, e, env, t, u, a, b, k);
        let f = Frame::ConcatRight(b);
        let g = Frame::ConcatEnd(x);
        let ua = u.ret(a);
        assert(u.ret(b) == u);
        on_text(u, k.push(f), a);
        lemma_follow(start, on(u, k.push(f)).push(Frame::Text(a)), on(ua, k).push(f));
        on_concat_right(ua, k, b);
        lemma_follow(start, on(ua, k).push(f), on(ua, k.push(g)).push(Frame::Text(b)));
        on_text(ua, k.push(g), b);
        lemma_follow(start, on(ua, k.push(g)).push(Frame::Text(b)), on(u, k).push(g));
        on_concat_end(u, k, x);
        lemma_follow(start, on(u, k).push(g), on(w, k));
    }
    w
}

/// Strict equality answers whether two values are equal, and strict inequality the
/// opposite.
pub proof fn law_strict_operators<'a>(s: EngineView<'a>, e: &'a Expr, env: usize, t: EngineView<'a>, u: EngineView<'a>, a: Value, b: Value)
    requires
        calm(s),
        e matches Expr::Binary { op, left, right } && evaluates(s, &**left, env, t) && evaluates(t, &**right, env, u) && (*op is StrictEq || *op is StrictNe),
        has_value(t, a),
        has_value(u, b),
        !u.bigint_direct(a),
        !u.bigint_direct(b),
    ensures
        e matches Expr::Binary { op, .. } && evaluates(s, e, env, u.ret(Value::Boolean(if *op is StrictEq { a.equals(b) } else { !a.equals(b) }))),
{
    match e {
        Expr::Binary { op, .. } => {
            let w = u.ret(Value::Boolean(if *op is StrictEq { a.equals(b) } else { !a.equals(b) }));
            assert forall|k: Seq<Frame<'a>>| leads(#[trigger] on(s, k).push(Frame::Expr(e, env)), on(w, k)) by {
                lemma_operands(s, e, env, t, u, a, b, k);
                assert(on(u, k).bigint_direct(a) == u.bigint_direct(a));
                assert(on(u, k).bigint_direct(b) == u.bigint_direct(b));
                assert(on(u, k).binary(*op, a, b) == on(w, k));
            }
        },
        _ => {},
    }
}

/// An assignment to a name gives the value of its right side, and the name has it from
/// then on; a constant is not assigned to, and the assignment throws.
pub proof fn law_assignment_to_names<'a>(s: EngineView<'a>, e: &'a Expr, env: usize, t: EngineView<'a>, v: Value)
    requires
        calm(s),
        has_value(t, v),
        e matches Expr::Assignment { target: AssignTarget::Expr(x), value } && **x is Ident && evaluates(s, &**value, env, t),
    ensures
        e matches Expr::Assignment { target: AssignTarget::Expr(x), value } && ((&**x) matches Expr::Ident(n) && ({
            let a = t.store.atom(n@);
            let u = knowing(t, n@);
            &&& !u.is_const(env, a) && u.global_writable(a) ==> evaluates(s, e, env, u.with_heap(assigned(u.store.heap, env, a, v)))
            &&& u.is_const(env, a) ==> exists|w: EngineView<'a>| #[trigger] evaluates(s, e, env, w) && w.acc is Throw
        })),
{
    match e {
        Expr::Assignment { target: AssignTarget::Expr(x), value } => match &**x {
            Expr::Ident(n) => {
                let target = &e->Assignment_target;
                let a = t.store.atom(n@);
                let u = knowing(t, n@);
                let w = t.assign_to(&**x, v, env);
                assert forall|k: Seq<Frame<'a>>| leads(#[trigger] on(s, k).push(Frame::Expr(e, env)), on(w, k)) by {
                    let start = on(s, k).push(Frame::Expr(e, env));
                    let f = Frame::AssignEnd(target, env);
                    on_expr(s, k, e, env);
                    lemma_value(s, &**value, env, t, k.push(f));
                    lemma_follow(start, on(s, k.push(f)).push(Frame::Expr(&**value, env)), on(t, k).push(f));
                    on_assign_end(t, k, target, env);
                    assert(on(t, k).assign_end(target, env) == on(w, k));
                    lemma_follow(start, on(t, k).push(f), on(w, k));
                }
                assert(evaluates(s, e, env, w));
            },
            _ => {},
        },
        _ => {},
    }
}

/// Reading a member gives the value that the property has; `null` and `undefined` have
/// no members, and reading one of them throws unless the access is optional, which
/// then gives `undefined`.
pub proof fn law_members<'a>(s: EngineView<'a>, e: &'a Expr, env: usize, t: EngineView<'a>, base: Value)
    requires
        calm(s),
        has_value(t, base),
        e matches Expr::Member { obj, computed: None, .. } && evaluates(s, &**obj, env, t),
    ensures
        e matches Expr::Member { obj, prop, optional, .. } && ({
            let u = knowing(t, prop@);
            let missing = base is Null || base is Undefined;
            &&& *optional && missing ==> evaluates(s, e, env, t.ret(Value::Undefined))
            &&& !*optional && missing ==> exists|w: EngineView<'a>| #[trigger] evaluates(s, e, env, w) && w.acc is Throw
            &&& !missing ==> (u.property(base, t.store.atom(prop@)) matches Read::Value(v) ==> evaluates(s, e, env, u.ret(v)))
        }),
{
    match e {
        Expr::Member { obj, prop, optional, .. } => {
            let w = t.member(e, env);
            let u = knowing(t, prop@);
            let missing = base is Null || base is Undefined;
            if missing || u.property(base, t.store.atom(prop@)) is Value {
                assert forall|k: Seq<Frame<'a>>| leads(#[trigger] on(s, k).push(Frame::Expr(e, env)), on(w, k)) by {
                    let start = on(s, k).push(Frame::Expr(e, env));
                    let f = Frame::Member(e, env);
                    on_expr(s, k, e, env);
                    lemma_value(s, &**obj, env, t, k.push(f));
                    lemma_follow(start, on(s, k.push(f)).push(Frame::Expr(&**obj, env)), on(t, k).push(f));
                    on_member(t, k, e, env);
                    assert(on(u, k).property(base, t.store.atom(prop@)) == u.property(base, t.store.atom(prop@)));
                    assert(on(t, k).member(e, env) == on(w, k));
                    lemma_follow(start, on(t, k).push(f), on(w, k));
                }
                assert(evaluates(s, e, env, w));
            }
        },
        _ => {},
    }
}

/// An assignment to a member evaluates its right side first, then the object, and
/// gives the assigned value; where the write is plain, the object has the property from
/// then on.
pub proof fn law_assignment_to_members<'a>(s: EngineView<'a>, e: &'a Expr, env: usize, t: EngineView<'a>, v: Value, u: EngineView<'a>, base: Value)
    requires
        calm(s),
        has_value(t, v),
        has_value(u, base),
        !(base is Null) && !(base is Undefined),
        e matches Expr::Assignment { target: AssignTarget::Expr(x), value } && evaluates(s, &**value, env, t) && ((&**x) matches Expr::Member { obj, prop, computed: None, .. } && evaluates(t, &**obj, env, u)
            && knowing(u, prop@).write(base, u.store.atom(prop@), v).1 is Done),
    ensures
        e matches Expr::Assignment { target: AssignTarget::Expr(x), value } && ((&**x) matches Expr::Member { obj, prop, .. } && evaluates(s, e, env, knowing(u, prop@).write(base, u.store.atom(prop@), v).0.ret(v))),
{
    match e {
        Expr::Assignment { target: AssignTarget::Expr(x), value } => match &**x {
            Expr::Member { obj, prop, .. } => {
                let target = &e->Assignment_target;
                let a = u.store.atom(prop@);
                let n = knowing(u, prop@);
                let w = n.write(base, a, v).0.ret(v);
                assert forall|k: Seq<Frame<'a>>| leads(#[trigger] on(s, k).push(Frame::Expr(e, env)), on(w, k)) by {
                    let start = on(s, k).push(Frame::Expr(e, env));
                    let f = Frame::AssignEnd(target, env);
                    let g = Frame::AssignBase(&**x, env, v);
                    on_expr(s, k, e, env);
                    lemma_value(s, &**value, env, t, k.push(f));
                    lemma_follow(start, on(s, k.push(f)).push(Frame::Expr(&**value, env)), on(t, k).push(f));
                    on_assign_end(t, k, target, env);
                    lemma_follow(start, on(t, k).push(f), on(t, k.push(g)).push(Frame::Expr(&**obj, env)));
                    lemma_value(t, &**obj, env, u, k.push(g));
                    lemma_follow(start, on(t, k.push(g)).push(Frame::Expr(&**obj, env)), on(u, k).push(g));
                    on_assign_base(u, k, &**x, env, v);
                    assert(on(n, k).write(base, a, v).1 == n.write(base, a, v).1);
                    assert(on(u, k).assign_base(&**x, env, v) == on(w, k));
                    lemma_follow(start, on(u, k).push(g), on(w, k));
                }
            },
            _ => {},
        },
        _ => {},
    }
}

/// `instanceof` evaluates its left side before its right one, and answers whether the
/// prototype of the right one is on the chain of the left one.
pub proof fn law_instance_of<'a>(s: EngineView<'a>, e: &'a Expr, env: usize, t: EngineView<'a>, u: EngineView<'a>, a: Value, b: Value)
    requires
        calm(s),
        e matches Expr::InstanceOf { left, right } && evaluates(s, &**left, env, t) && evaluates(t, &**right, env, u),
        has_value(t, a),
        has_value(u, b),
    ensures
        evaluates(s, e, env, u.ret(Value::Boolean(u.instance_of(a, b)))),
{
    let w = u.ret(Value::Boolean(u.instance_of(a, b)));
    assert forall|k: Seq<Frame<'a>>| leads(#[trigger] on(s, k).push(Frame::Expr(e, env)), on(w, k)) by {
        match e {
            Expr::InstanceOf { left, right } => {
                let start = on(s, k).push(Frame::Expr(e, env));
                let f = Frame::InstanceRight(&**right, env);
                let g = Frame::InstanceEnd(a);
                on_expr(s, k, e, env);
                lemma_value(s, &**left, env, t, k.push(f));
                lemma_follow(start, on(s, k.push(f)).push(Frame::Expr(&**left, env)), on(t, k).push(f));
                on_instance_right(t, k, &**right, env);
                lemma_follow(start, on(t, k).push(f), on(t, k.push(g)).push(Frame::Expr(&**right, env)));
                lemma_value(t, &**right, env, u, k.push(g));
                lemma_follow(start, on(t, k.push(g)).push(Frame::Expr(&**right, env)), on(u, k).push(g));
                on_instance_end(u, k, a);
                assert(on(u, k).instance_of(a, b) == u.instance_of(a, b));
                lemma_follow(start, on(u, k).push(g), on(w, k));
            },
            _ => {},
        }
    }
}

/// `++` and `--` on a name ask for the number plus or minus one. The name then has the
/// answer; the operator gives the answer where it stands before the name, and the
/// number from before where it stands behind.
pub proof fn law_increments<'a>(s: EngineView<'a>, k: Seq<Frame<'a>>, e: &'a Expr, env: usize, t: EngineView<'a>, x: u64, answer: u64) -> (w: EngineView<'a>)
    requires
        calm(s),
        has_value(t, Value::Number(x)),
        e matches Expr::Unary { op, operand } && evaluates(s, &**operand, env, t) && (*op is PreInc || *op is PreDec || *op is PostInc || *op is PostDec) && ((&**operand) matches Expr::Ident(n) && ({
            let u = knowing(t, n@);
            !u.is_const(env, t.store.atom(n@)) && u.global_writable(t.store.atom(n@))
        })),
    ensures
        e matches Expr::Unary { op, operand } && ((&**operand) matches Expr::Ident(n) && ({
            let u = knowing(t, n@);
            let q = on(t, w.frames).ask(Request::Arith(if *op is PreInc || *op is PostInc { BinaryOp::Add } else { BinaryOp::Sub }, x, ONE));
            &&& w == q
            &&& leads(on(s, k).push(Frame::Expr(e, env)), w)
            &&& leads(
                on(t, w.frames).ret(Value::Number(answer)),
                on(u.with_heap(assigned(u.store.heap, env, t.store.atom(n@), Value::Number(answer))).ret(Value::Number(if *op is PreInc || *op is PreDec { answer } else { x })), k),
            )
        })),
{
    match e {
        Expr::Unary { op, operand } => match &**operand {
            Expr::Ident(n) => {
                let start = on(s, k).push(Frame::Expr(e, env));
                let v = Value::Number(x);
                let add = *op is PreInc || *op is PostInc;
                let post = *op is PostInc || *op is PostDec;
                lemma_unary(s, e, env, t, k);
                let f = Frame::IncEnd { add, post, operand: &**operand, env, before: v };
                assert(on(t, k).eval_unary_value(e, env) == on(t, k.push(f)).push(Frame::Num(v)));
                on_num(t, k.push(f), v);
                lemma_follow(start, on(t, k.push(f)).push(Frame::Num(v)), on(t, k).push(f));
                on_inc_end(t, k, add, post, &**operand, env, v);
                let g = Frame::IncStore { post, operand: &**operand, env, before: v };
                let w = on(t, k.push(g)).ask(Request::Arith(if add { BinaryOp::Add } else { BinaryOp::Sub }, x, ONE));
                lemma_follow(start, on(t, k).push(f), w);
                let r = t.ret(Value::Number(answer));
                on_inc_store(r, k, post, &**operand, env, v);
                let given = Value::Number(if post { x } else { answer });
                let u = knowing(t, n@);
                let z = u.with_heap(assigned(u.store.heap, env, t.store.atom(n@), Value::Number(answer))).ret(Value::Number(answer));
                assert(on(r, k).inc_store(post, &**operand, env, v) == on(z, k).push(Frame::Give(given)));
                on_give(z, k, given);
                lemma_follow(on(r, k).push(g), on(z, k).push(Frame::Give(given)), on(z.ret(given), k));
                w
            },
            _ => s,
        },
        _ => s,
    }
}

/// `delete` on a member answers whether the property is gone, and throws where it may
/// not be deleted.
pub proof fn law_delete<'a>(s: EngineView<'a>, k: Seq<Frame<'a>>, x: &'a Expr, env: usize, base: Value) -> (w: EngineView<'a>)
    requires
        has_value(s, base),
        x matches Expr::Member { computed: None, .. },
    ensures
        x matches Expr::Member { prop, .. } && ({
            let u = knowing(s, prop@);
            let (d, answer) = u.delete(base, s.store.atom(prop@));
            &&& leads(on(s, k).push(Frame::DeleteBase(x, env)), w)
            &&& answer is Yes ==> w == on(d, k).ret(Value::Boolean(true))
            &&& answer is No ==> w == on(d, k).ret(Value::Boolean(false))
            &&& answer is Refused ==> w.acc is Throw
        }),
{
    match x {
        Expr::Member { prop, .. } => {
            let u = knowing(s, prop@);
            on_delete_base(s, k, x, env);
            assert(on(u, k).delete(base, s.store.atom(prop@)).1 == u.delete(base, s.store.atom(prop@)).1);
            on(s, k).delete_base(x, env)
        },
        _ => s,
    }
}

/// The object so many prototypes up.
pub open spec fn ancestor(h: HeapView, from: Option<usize>, n: nat) -> Option<usize>
    decreases n,
{
    if n == 0 {
        from
    } else {
        match from {
            Some(o) => ancestor(h, h.proto(o), (n - 1) as nat),
            None => None,
        }
    }
}

/// An object is an instance of a constructor exactly where the constructor's prototype
/// is the object itself or one of the prototypes above it.
pub proof fn law_instances_inherit<'a>(s: EngineView<'a>, o: usize, ctor: Value, p: usize)
    requires
        s.proto_of(ctor) == Some(p),
    ensures
        s.instance_of(Value::Object(o), ctor) <==> exists|n: nat| n <= s.store.heap.cells.len() && #[trigger] ancestor(s.store.heap, Some(o), n) == Some(p),
        s.store.heap.proto(o) == Some(p) && s.store.heap.cells.len() > 0 ==> s.instance_of(Value::Object(o), ctor),
{
    let h = s.store.heap;
    lemma_on_chain(h, Some(o), p, h.cells.len());
    if h.proto(o) == Some(p) && h.cells.len() > 0 {
        reveal_with_fuel(ancestor, 3);
        assert(ancestor(h, Some(o), 1) == Some(p));
    }
}

proof fn lemma_on_chain(h: HeapView, from: Option<usize>, target: usize, fuel: nat)
    ensures
        on_chain(h, from, target, fuel) <==> exists|n: nat| n <= fuel && #[trigger] ancestor(h, from, n) == Some(target),
    decreases fuel,
{
    match from {
        Some(o) => {
            assert(ancestor(h, from, 0) == Some(o));
            if fuel > 0 {
                let up = h.proto(o);
                lemma_on_chain(h, up, target, (fuel - 1) as nat);
                if on_chain(h, up, target, (fuel - 1) as nat) {
                    let n = choose|n: nat| n <= fuel - 1 && #[trigger] ancestor(h, up, n) == Some(target);
                    assert(ancestor(h, from, n + 1) == Some(target));
                }
            }
            if exists|n: nat| n <= fuel && #[trigger] ancestor(h, from, n) == Some(target) {
                let n = choose|n: nat| n <= fuel && #[trigger] ancestor(h, from, n) == Some(target);
                if n > 0 {
                    assert(ancestor(h, h.proto(o), (n - 1) as nat) == Some(target));
                }
            }
        },
        None => {
            assert forall|n: nat| #[trigger] ancestor(h, from, n) is None by {
            }
        },
    }
}

/// `this` is what the innermost scope that has one has, and the global object where
/// none has.
pub proof fn law_this_expression<'a>(s: EngineView<'a>, e: &'a Expr, env: usize)
    requires
        calm(s),
        e is This,
    ensures
        lookup(s.store.heap, env, s.store.n.this) matches Some(v) ==> evaluates(s, e, env, s.ret(v)),
        lookup(s.store.heap, env, s.store.n.this) is None ==> evaluates(s, e, env, s.ret(Value::Object(s.store.b.global_object))),
{
    let w = s.ret(s.this_of(env));
    assert forall|k: Seq<Frame<'a>>| leads(#[trigger] on(s, k).push(Frame::Expr(e, env)), on(w, k)) by {
        on_expr(s, k, e, env);
        assert(on(s, k).this_of(env) == s.this_of(env));
    }
}

/// A name that the global object does not let be written keeps its value: the
/// assignment gives the new value and changes nothing.
pub proof fn law_fixed_globals<'a>(s: EngineView<'a>, target: &'a Expr, env: usize, v: Value)
    requires
        target is Ident,
    ensures
        target matches Expr::Ident(n) && ({
            let u = knowing(s, n@);
            let a = s.store.atom(n@);
            !u.is_const(env, a) && (u.own_prop(u.store.b.global_object, a) matches Some(p) && !p.writable) ==> s.assign_to(target, v, env) == u.ret(v)
        }),
{
}

/// A literal that is no number gives what it says.
pub proof fn law_literals<'a>(s: EngineView<'a>, e: &'a Expr, env: usize) -> (w: EngineView<'a>)
    requires
        calm(s),
        e matches Expr::Lit(l) && !(l is Number) && !(l is Regex),
        s.store.heap.atoms.len() < usize::MAX,
    ensures
        evaluates(s, e, env, w),
        e matches Expr::Lit(l) && match l {
            Lit::Str(t) => w.value() matches Value::String(a) && w.store.text(a) == t@,
            Lit::BigInt(t) => w.value() matches Value::BigInt(a) && w.store.text(a) == t@,
            Lit::Bool(b) => w.value() == Value::Boolean(*b),
            Lit::Null => w.value() is Null,
            _ => w.value() is Undefined,
        },
{
    match e {
        Expr::Lit(l) => {
            let w = match l {
                Lit::Str(t) => knowing(s, t@).ret(Value::String(s.store.atom(t@))),
                Lit::BigInt(t) => knowing(s, t@).ret(Value::BigInt(s.store.atom(t@))),
                Lit::Bool(b) => s.ret(Value::Boolean(*b)),
                Lit::Null => s.ret(Value::Null),
                _ => s.ret(Value::Undefined),
            };
            match l {
                Lit::Str(t) => lemma_atom_text(s.store, t@),
                Lit::BigInt(t) => lemma_atom_text(s.store, t@),
                _ => {},
            }
            assert forall|k: Seq<Frame<'a>>| leads(#[trigger] on(s, k).push(Frame::Expr(e, env)), on(w, k)) by {
                on_expr(s, k, e, env);
                assert(on(s, k).eval_expr(e, env) == on(w, k));
            }
            w
        },
        _ => s,
    }
}

} // verus!
