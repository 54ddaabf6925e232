//! The meaning of operators on big integers: from the operands of an expression to
//! the integer that it gives.
use vstd::prelude::*;
use vstd::arithmetic::power::pow;
use crate::ast::{BinaryOp, Expr, UnaryOp};
use crate::big::{big_outcome, BigOutcomeView};
use crate::bigint::{bits_of, int_of, int_text, law_decimal_round_trip, law_division, quotient, remainder};
use crate::engine::{EngineView, Frame, PrimitiveHint};
use crate::laws::lemma_atom_text;
use crate::frames::{on_big_add_left, on_big_add_right, on_big_numeric, on_big_numeric_end, on_bit_not_big, on_inc_big, on_negate_big, on_numeric, on_to_prim};
use crate::meaning::{calm, evaluates, has_value, leads, lemma_follow, on};
use crate::operators::{lemma_operands, lemma_unary};
use crate::value::Value;

verus! {

/// Whether a machine's value is a big integer, spelled in decimal.
pub open spec fn has_integer(s: EngineView, z: int) -> bool {
    &&& s.ready()
    &&& s.value() matches Value::BigInt(p) && s.store.text(p) == int_text(z) && int_of(s.store.text(p)) == Some(z)
}

/// Whether a machine's value is a big integer, however it is spelled.
pub open spec fn reads_as(s: EngineView, v: Value, z: int) -> bool {
    v matches Value::BigInt(p) && int_of(s.store.text(p)) == Some(z)
}

/// Whether a division gives a quotient and leaves a remainder over.
pub open spec fn leaves(x: int, y: int, q: int, r: int) -> bool {
    &&& x == q * y + r
    &&& -y < r < y || y < r < -y
    &&& r != 0 ==> (r < 0) == (x < 0)
}

proof fn lemma_given(s: EngineView, z: int)
    requires
        s.ready(),
        s.store.heap.atoms.len() < usize::MAX,
    ensures
        has_integer(s.give_big(z), z),
{
    lemma_atom_text(s.store, int_text(z));
    law_decimal_round_trip(z);
}

proof fn lemma_numeric<'a>(u: EngineView<'a>, op: BinaryOp, a: Value, b: Value, k: Seq<Frame<'a>>)
    requires
        has_value(u, b),
        a is BigInt,
        b is BigInt,
        !(op is Eq || op is Ne || op is StrictEq || op is StrictNe || op is In),
    ensures
        leads(on(u, k).binary(op, a, b), on(u, k).big_numeric_end(op, a)),
{
    let start = on(u, k).binary(op, a, b);
    let ua = u.ret(a);
    let ub = u.ret(b);
    assert(ub == u);
    let n = Frame::Numeric;
    let p = Frame::ToPrim(PrimitiveHint::Number);
    let d = Frame::ToPrim(PrimitiveHint::Default);
    let last = Frame::BigNumericEnd(op, a);
    let f = Frame::BigNumeric(op, b);
    if op is Add {
        let f1 = Frame::BigAddLeft(b);
        let f2 = Frame::BigAddRight(a);
        assert(start == on(ua, k.push(f1)).push(d));
        on_to_prim(ua, k.push(f1), PrimitiveHint::Default);
        on_big_add_left(ua, k, b);
        lemma_follow(start, on(ua, k).push(f1), on(ub, k.push(f2)).push(d));
        on_to_prim(ub, k.push(f2), PrimitiveHint::Default);
        lemma_follow(start, on(ub, k.push(f2)).push(d), on(ub, k).push(f2));
        on_big_add_right(ub, k, a);
        lemma_follow(start, on(ub, k).push(f2), on(ua, k.push(f)).push(n));
    } else {
        assert(start == on(ua, k.push(f).push(n)).push(p));
        on_to_prim(ua, k.push(f).push(n), PrimitiveHint::Number);
    }
    on_numeric(ua, k.push(f));
    lemma_follow(start, on(ua, k.push(f)).push(n), on(ua, k).push(f));
    on_big_numeric(ua, k, op, b);
    lemma_follow(start, on(ua, k).push(f), on(ub, k.push(last).push(n)).push(p));
    on_to_prim(ub, k.push(last).push(n), PrimitiveHint::Number);
    lemma_follow(start, on(ub, k.push(last).push(n)).push(p), on(ub, k.push(last)).push(n));
    on_numeric(ub, k.push(last));
    lemma_follow(start, on(ub, k.push(last)).push(n), on(ub, k).push(last));
    on_big_numeric_end(ub, k, op, a);
    lemma_follow(start, on(ub, k).push(last), on(u, k).big_numeric_end(op, a));
}

proof fn lemma_result<'a>(s: EngineView<'a>, e: &'a Expr, env: usize, t: EngineView<'a>, u: EngineView<'a>, a: Value, b: Value, x: int, y: int, z: int)
    requires
        calm(s),
        e matches Expr::Binary { op, left, right } && evaluates(s, &**left, env, t) && evaluates(t, &**right, env, u) && big_outcome(*op, x, y) == BigOutcomeView::Value(z)
            && !(*op is Eq || *op is Ne || *op is StrictEq || *op is StrictNe || *op is In || *op is Lt || *op is Gt || *op is Le || *op is Ge),
        has_value(t, a),
        has_value(u, b),
        reads_as(u, a, x),
        reads_as(u, b, y),
        u.store.heap.atoms.len() < usize::MAX,
    ensures
        evaluates(s, e, env, u.give_big(z)),
        has_integer(u.give_big(z), z),
{
    match e {
        Expr::Binary { op, left, right } => {
            lemma_given(u, z);
            assert forall|k: Seq<Frame<'a>>| leads(#[trigger] on(s, k).push(Frame::Expr(e, env)), on(u.give_big(z), k)) by {
                lemma_operands(s, e, env, t, u, a, b, k);
                lemma_numeric(u, *op, a, b, k);
                assert(on(u, k).big_numeric_end(*op, a) == on(u, k).give_big(z));
                lemma_follow(on(s, k).push(Frame::Expr(e, env)), on(u, k).binary(*op, a, b), on(u, k).give_big(z));
            }
        },
        _ => {},
    }
}

/// A sum, a difference or a product of big integers is that of the integers of the
/// left and the right operand: what a subtraction gives, plus its right operand, is
/// its left one.
pub proof fn law_big_arithmetic<'a>(s: EngineView<'a>, e: &'a Expr, env: usize, t: EngineView<'a>, u: EngineView<'a>, a: Value, b: Value, x: int, y: int) -> (w: EngineView<'a>)
    requires
        calm(s),
        e matches Expr::Binary { op, left, right } && evaluates(s, &**left, env, t) && evaluates(t, &**right, env, u) && (*op is Add || *op is Sub || *op is Mul),
        has_value(t, a),
        has_value(u, b),
        reads_as(u, a, x),
        reads_as(u, b, y),
        u.store.heap.atoms.len() < usize::MAX,
    ensures
        evaluates(s, e, env, w),
        exists|z: int| #[trigger] has_integer(w, z) && (e matches Expr::Binary { op, .. } && match *op {
            BinaryOp::Add => z - x == y,
            BinaryOp::Sub => z + y == x,
            _ => z == x * y,
        }),
{
    let op = match e {
        Expr::Binary { op, .. } => *op,
        _ => BinaryOp::Add,
    };
    let z: int = match op {
        BinaryOp::Add => x + y,
        BinaryOp::Sub => x - y,
        _ => x * y,
    };
    lemma_result(s, e, env, t, u, a, b, x, y, z);
    u.give_big(z)
}

/// A quotient of big integers leaves less than the divisor over, and what it leaves
/// over has the sign of the dividend: it is cut towards zero. A remainder is what the
/// quotient leaves over.
pub proof fn law_big_division<'a>(s: EngineView<'a>, e: &'a Expr, env: usize, t: EngineView<'a>, u: EngineView<'a>, a: Value, b: Value, x: int, y: int) -> (w: EngineView<'a>)
    requires
        calm(s),
        e matches Expr::Binary { op, left, right } && evaluates(s, &**left, env, t) && evaluates(t, &**right, env, u) && (*op is Div || *op is Rem),
        has_value(t, a),
        has_value(u, b),
        reads_as(u, a, x),
        reads_as(u, b, y),
        y != 0,
        u.store.heap.atoms.len() < usize::MAX,
    ensures
        evaluates(s, e, env, w),
        exists|q: int, r: int| #[trigger] leaves(x, y, q, r) && (e matches Expr::Binary { op, .. } && has_integer(w, if *op is Div { q } else { r })),
{
    law_division(x, y);
    let op = match e {
        Expr::Binary { op, .. } => *op,
        _ => BinaryOp::Add,
    };
    let q = quotient(x, y);
    let r = remainder(x, y);
    let z: int = if op is Div { q } else { r };
    lemma_result(s, e, env, t, u, a, b, x, y, z);
    assert(leaves(x, y, q, r));
    u.give_big(z)
}

/// Raising a big integer to a power multiplies it with itself that often; shifting it
/// multiplies it with a power of two, or divides by one, rounding down.
pub proof fn law_big_powers<'a>(s: EngineView<'a>, e: &'a Expr, env: usize, t: EngineView<'a>, u: EngineView<'a>, a: Value, b: Value, x: int, y: int) -> (w: EngineView<'a>)
    requires
        calm(s),
        e matches Expr::Binary { op, left, right } && evaluates(s, &**left, env, t) && evaluates(t, &**right, env, u) && (*op is Exp || *op is Shl || *op is Shr),
        has_value(t, a),
        has_value(u, b),
        reads_as(u, a, x),
        reads_as(u, b, y),
        0 <= y,
        bits_of(y as nat) <= 30,
        u.store.heap.atoms.len() < usize::MAX,
    ensures
        evaluates(s, e, env, w),
        exists|z: int| #[trigger] has_integer(w, z) && (e matches Expr::Binary { op, .. } && match *op {
            BinaryOp::Exp => z == pow(x, y as nat),
            BinaryOp::Shl => z == x * pow(2, y as nat),
            _ => z * pow(2, y as nat) <= x < (z + 1) * pow(2, y as nat),
        }),
{
    let op = match e {
        Expr::Binary { op, .. } => *op,
        _ => BinaryOp::Add,
    };
    let d = pow(2, y as nat);
    vstd::arithmetic::power::lemma_pow_positive(2, y as nat);
    vstd::arithmetic::div_mod::lemma_fundamental_div_mod(x, d);
    vstd::arithmetic::div_mod::lemma_mod_bound(x, d);
    let z: int = match op {
        BinaryOp::Exp => pow(x, y as nat),
        BinaryOp::Shl => x * d,
        _ => x / d,
    };
    lemma_result(s, e, env, t, u, a, b, x, y, z);
    assert((x / d) * d <= x < (x / d + 1) * d) by (nonlinear_arith)
        requires
            x == d * (x / d) + x % d,
            0 <= x % d < d,
    ;
    assert(has_integer(u.give_big(z), z));
    u.give_big(z)
}

/// A comparison of big integers answers as the integers compare, and equality as they
/// are equal.
pub proof fn law_big_comparison<'a>(s: EngineView<'a>, e: &'a Expr, env: usize, t: EngineView<'a>, u: EngineView<'a>, a: Value, b: Value, x: int, y: int)
    requires
        calm(s),
        e matches Expr::Binary { op, left, right } && evaluates(s, &**left, env, t) && evaluates(t, &**right, env, u) && (*op is Lt || *op is Gt || *op is Le || *op is Ge),
        has_value(t, a),
        has_value(u, b),
        reads_as(u, a, x),
        reads_as(u, b, y),
    ensures
        e matches Expr::Binary { op, .. } && evaluates(s, e, env, u.ret(Value::Boolean(match *op {
            BinaryOp::Lt => x < y,
            BinaryOp::Gt => x > y,
            BinaryOp::Le => x <= y,
            _ => x >= y,
        }))),
{
    match e {
        Expr::Binary { op, left, right } => {
            let v = Value::Boolean(match *op {
                BinaryOp::Lt => x < y,
                BinaryOp::Gt => x > y,
                BinaryOp::Le => x <= y,
                _ => x >= y,
            });
            assert forall|k: Seq<Frame<'a>>| leads(#[trigger] on(s, k).push(Frame::Expr(e, env)), on(u.ret(v), k)) by {
                lemma_operands(s, e, env, t, u, a, b, k);
                lemma_numeric(u, *op, a, b, k);
                assert(on(u, k).big_numeric_end(*op, a) == on(u.ret(v), k));
                lemma_follow(on(s, k).push(Frame::Expr(e, env)), on(u, k).binary(*op, a, b), on(u.ret(v), k));
            }
        },
        _ => {},
    }
}

/// A minus sign before a big integer gives the one that adds up to zero with it, and a
/// complement the one that adds up to minus one.
pub proof fn law_big_signs<'a>(s: EngineView<'a>, e: &'a Expr, env: usize, t: EngineView<'a>, a: Value, x: int) -> (w: EngineView<'a>)
    requires
        calm(s),
        e matches Expr::Unary { op, operand } && evaluates(s, &**operand, env, t) && (*op is Neg || *op is BitNot),
        has_value(t, a),
        reads_as(t, a, x),
        t.store.heap.atoms.len() < usize::MAX,
    ensures
        evaluates(s, e, env, w),
        exists|z: int| #[trigger] has_integer(w, z) && (e matches Expr::Unary { op, .. } && z + x == if *op is Neg { 0int } else { -1int }),
{
    let op = match e {
        Expr::Unary { op, .. } => *op,
        _ => UnaryOp::Neg,
    };
    let z: int = if op is Neg { -x } else { -x - 1 };
    let w = t.give_big(z);
    lemma_given(t, z);
    let n = Frame::Numeric;
    let p = Frame::ToPrim(PrimitiveHint::Number);
    let last = if op is Neg { Frame::NegateBig } else { Frame::BitNotBig };
    assert forall|k: Seq<Frame<'a>>| leads(#[trigger] on(s, k).push(Frame::Expr(e, env)), on(w, k)) by {
        let start = on(s, k).push(Frame::Expr(e, env));
        lemma_unary(s, e, env, t, k);
        assert(t.ret(a) == t);
        assert(on(t, k).eval_unary_value(e, env) == on(t, k.push(last).push(n)).push(p));
        on_to_prim(t, k.push(last).push(n), PrimitiveHint::Number);
        lemma_follow(start, on(t, k.push(last).push(n)).push(p), on(t, k.push(last)).push(n));
        on_numeric(t, k.push(last));
        lemma_follow(start, on(t, k.push(last)).push(n), on(t, k).push(last));
        if op is Neg {
            on_negate_big(t, k);
        } else {
            on_bit_not_big(t, k);
        }
        lemma_follow(start, on(t, k).push(last), on(w, k));
    }
    w
}

/// A big integer and a number are not mixed by an operator that computes: it throws.
pub proof fn law_big_mixing<'a>(s: EngineView<'a>, k: Seq<Frame<'a>>, op: BinaryOp, a: Value, b: Value) -> (w: EngineView<'a>)
    requires
        has_value(s, b),
        (a is BigInt && b is Number) || (a is Number && b is BigInt),
        !(op is Lt || op is Gt || op is Le || op is Ge),
    ensures
        leads(on(s, k).push(Frame::BigNumericEnd(op, a)), w),
        w.acc is Throw,
        w.frames == k,
{
    on_big_numeric_end(s, k, op, a);
    on(s, k).big_numeric_end(op, a)
}

/// `++` and `--` on a big integer store the one that is one more or one less.
pub proof fn law_big_increments<'a>(s: EngineView<'a>, k: Seq<Frame<'a>>, add: bool, post: bool, operand: &'a Expr, env: usize, before: Value, a: Value, x: int) -> (w: EngineView<'a>)
    requires
        has_value(s, a),
        reads_as(s, a, x),
        s.store.heap.atoms.len() < usize::MAX,
    ensures
        leads(on(s, k).push(Frame::IncBig { add, post, operand, env, before }), w),
        w.frames == k.push(Frame::IncStore { post, operand, env, before }),
        has_integer(w, if add { x + 1 } else { x - 1 }),
{
    on_inc_big(s, k, add, post, operand, env, before);
    let z: int = if add { x + 1 } else { x - 1 };
    lemma_given(on(s, k.push(Frame::IncStore { post, operand, env, before })), z);
    on(s, k).inc_big(add, post, operand, env, before)
}

} // verus!
