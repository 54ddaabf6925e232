//! The meaning of expressions: what an expression gives, in terms of what its parts
//! give, in whatever surroundings it is evaluated.
use vstd::prelude::*;
use crate::ast::Expr;
use crate::engine::{Completion, EngineView, Frame};
use crate::laws::law_steps_add;
use crate::machine::catches;
use crate::value::Value;

verus! {

/// The machine on another stack.
pub open spec fn on<'a>(s: EngineView<'a>, k: Seq<Frame<'a>>) -> EngineView<'a> {
    EngineView { frames: k, ..s }
}

/// Whether some steps take the machine from one state to another.
pub open spec fn leads<'a>(a: EngineView<'a>, b: EngineView<'a>) -> bool {
    exists|n: nat| #[trigger] a.steps(n) == b
}

/// Whether an expression takes the machine from one state to another, whatever waits
/// for its value.
pub open spec fn evaluates<'a>(s: EngineView<'a>, e: &'a Expr, env: usize, t: EngineView<'a>) -> bool {
    forall|k: Seq<Frame<'a>>| leads(#[trigger] on(s, k).push(Frame::Expr(e, env)), on(t, k))
}

/// Whether the machine can go on with a value.
pub open spec fn has_value(s: EngineView, v: Value) -> bool {
    s.ready() && s.acc == Completion::Normal(Some(v))
}

/// Whether the machine can go on, and nothing is being left.
pub open spec fn calm(s: EngineView) -> bool {
    s.ready() && s.acc is Normal
}

pub(crate) proof fn lemma_follow<'a>(a: EngineView<'a>, b: EngineView<'a>, c: EngineView<'a>)
    requires
        leads(a, b),
        leads(b, c),
    ensures
        leads(a, c),
{
    let n = choose|n: nat| #[trigger] a.steps(n) == b;
    let m = choose|m: nat| #[trigger] b.steps(m) == c;
    law_steps_add(a, n, m);
    assert(a.steps(n + m) == c);
}

pub(crate) proof fn lemma_step<'a>(s: EngineView<'a>, k: Seq<Frame<'a>>, f: Frame<'a>)
    requires
        s.ready(),
        s.acc is Normal || catches(&f),
    ensures
        leads(on(s, k).push(f), on(s, k).dispatch(f)),
{
    let a = on(s, k).push(f);
    assert(k.push(f).drop_last() =~= k);
    reveal_with_fuel(EngineView::steps, 2);
    assert(a.steps(1) == a.step());
    assert(a.step() == on(s, k).dispatch(f));
}

pub(crate) proof fn lemma_value<'a>(s: EngineView<'a>, e: &'a Expr, env: usize, t: EngineView<'a>, k: Seq<Frame<'a>>)
    requires
        evaluates(s, e, env, t),
    ensures
        leads(on(s, k).push(Frame::Expr(e, env)), on(t, k)),
{
    assert(leads(on(s, k).push(Frame::Expr(e, env)), on(t, k)));
}

} // verus!
