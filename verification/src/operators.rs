//! The meaning of operators: what an operator gives for what its operands give.
use vstd::prelude::*;
use crate::ast::Expr;
use crate::engine::{EngineView, Frame};
use crate::frames::{on_binary_end, on_binary_right, on_expr, on_unary_end};
use crate::meaning::{calm, evaluates, has_value, leads, lemma_follow, lemma_value, on};
use crate::value::Value;

verus! {

/// The left operand is evaluated before the right one, and the operator is applied to
/// the two values, in this order.
pub(crate) proof fn lemma_operands<'a>(s: EngineView<'a>, e: &'a Expr, env: usize, t: EngineView<'a>, u: EngineView<'a>, a: Value, b: Value, k: Seq<Frame<'a>>)
    requires
        calm(s),
        e matches Expr::Binary { op, left, right } && evaluates(s, &**left, env, t) && evaluates(t, &**right, env, u),
        has_value(t, a),
        has_value(u, b),
    ensures
        e matches Expr::Binary { op, left, right } && leads(on(s, k).push(Frame::Expr(e, env)), on(u, k).binary(*op, a, b)),
{
    match e {
        Expr::Binary { op, left, right } => {
            let start = on(s, k).push(Frame::Expr(e, env));
            let f = Frame::BinaryRight(*op, &**right, env);
            let g = Frame::BinaryEnd(*op, a);
            on_expr(s, k, e, env);
            lemma_value(s, &**left, env, t, k.push(f));
            lemma_follow(start, on(s, k.push(f)).push(Frame::Expr(&**left, env)), on(t, k.push(f)));
            on_binary_right(t, k, *op, &**right, env);
            lemma_follow(start, on(t, k.push(f)), on(t, k.push(g)).push(Frame::Expr(&**right, env)));
            lemma_value(t, &**right, env, u, k.push(g));
            lemma_follow(start, on(t, k.push(g)).push(Frame::Expr(&**right, env)), on(u, k.push(g)));
            on_binary_end(u, k, *op, a);
            lemma_follow(start, on(u, k.push(g)), on(u, k).binary(*op, a, b));
        },
        _ => {},
    }
}

pub(crate) proof fn lemma_unary<'a>(s: EngineView<'a>, e: &'a Expr, env: usize, t: EngineView<'a>, k: Seq<Frame<'a>>)
    requires
        calm(s),
        calm(t),
        e matches Expr::Unary { op, operand } && evaluates(s, &**operand, env, t) && !(*op is Typeof),
    ensures
        leads(on(s, k).push(Frame::Expr(e, env)), on(t, k).eval_unary_value(e, env)),
{
    match e {
        Expr::Unary { op, operand } => {
            let start = on(s, k).push(Frame::Expr(e, env));
            let f = Frame::UnaryEnd(e, env);
            on_expr(s, k, e, env);
            lemma_value(s, &**operand, env, t, k.push(f));
            lemma_follow(start, on(s, k.push(f)).push(Frame::Expr(&**operand, env)), on(t, k).push(f));
            on_unary_end(t, k, e, env);
            lemma_follow(start, on(t, k).push(f), on(t, k).eval_unary_value(e, env));
        },
        _ => {},
    }
}

} // verus!
