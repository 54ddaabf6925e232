//! How the parser of plain scripts reads expressions and statements: what binds more
//! tightly, which way operators of one level group, and what each statement keeps.
use vstd::prelude::*;
use crate::ast::{AssignTargetTree, BinaryOp, CatchClauseTree, ExprTree, LogicalOp, StmtTree, SwitchCaseTree, UnaryOp};
use crate::grammar::{
    additive_at, additive_op, assign_op, assignment_at, block_stmts_at, case_body_at, cases_at, catch_part_at, equality_at, equality_op, expr_at, finally_part_at, for_tail_at, index_at, kw_at, law_additive, law_additive_rest, law_assignment, law_cases, law_do, law_else_part, law_equality, law_equality_rest, law_for_cond, law_for_tail, law_for_update, law_if, law_index, law_logical, law_logical_rest, law_multiplicative, law_multiplicative_rest, law_relational, law_relational_rest, law_return_rest, law_stmt, law_switch, law_ternary, law_try, law_unary, law_while, logical_at, logical_op, multiplicative_at, multiplicative_op, prefix_op, punct_at, relational_at, relational_op, stmt_at, stmt_or_block_at, ternary_at, unary_at,
};
use crate::lexer::{Kw, TokenView};

verus! {

/// A sum or a difference has products for operands, the left one first, and operators of
/// its level group from the left.
pub proof fn law_additive_groups(ts: Seq<TokenView>, p: int, q: int, r: int, u: int, a: ExprTree, b: ExprTree, c: ExprTree, op: BinaryOp, then_op: BinaryOp)
    requires
        0 <= p < q < r < u,
        multiplicative_at(ts, p) == Ok::<_, Seq<char>>((a, q)),
        additive_op(ts, q) == Some(op),
        multiplicative_at(ts, q + 1) == Ok::<_, Seq<char>>((b, r)),
        q + 1 < r,
        additive_op(ts, r) == Some(then_op) ==> r + 1 < u && multiplicative_at(ts, r + 1) == Ok::<_, Seq<char>>((c, u)) && additive_op(ts, u) is None,
    ensures
        additive_op(ts, r) is None ==> additive_at(ts, p) == Ok::<_, Seq<char>>((ExprTree::Binary { op, left: Box::new(a), right: Box::new(b) }, r)),
        additive_op(ts, r) == Some(then_op) ==> additive_at(ts, p) == Ok::<_, Seq<char>>((ExprTree::Binary { op: then_op, left: Box::new(ExprTree::Binary { op, left: Box::new(a), right: Box::new(b) }), right: Box::new(c) }, u)),
{
    let ab = ExprTree::Binary { op, left: Box::new(a), right: Box::new(b) };
    let abc = ExprTree::Binary { op: then_op, left: Box::new(ab), right: Box::new(c) };
    law_additive(ts, p);
    law_additive_rest(ts, q, a);
    law_additive_rest(ts, r, ab);
    law_additive_rest(ts, u, abc);
}

/// Without an operator of its level behind it, an operand of that level stands alone.
pub proof fn law_additive_operand(ts: Seq<TokenView>, p: int, q: int, a: ExprTree)
    requires
        0 <= p < q,
        multiplicative_at(ts, p) == Ok::<_, Seq<char>>((a, q)),
        additive_op(ts, q) is None,
    ensures
        additive_at(ts, p) == Ok::<_, Seq<char>>((a, q)),
{
    law_additive(ts, p);
    law_additive_rest(ts, q, a);
}

/// A product, a quotient or a remainder has prefixed expressions for operands, the left one first, and operators of
/// its level group from the left.
pub proof fn law_multiplicative_groups(ts: Seq<TokenView>, p: int, q: int, r: int, u: int, a: ExprTree, b: ExprTree, c: ExprTree, op: BinaryOp, then_op: BinaryOp)
    requires
        0 <= p < q < r < u,
        unary_at(ts, p) == Ok::<_, Seq<char>>((a, q)),
        multiplicative_op(ts, q) == Some(op),
        unary_at(ts, q + 1) == Ok::<_, Seq<char>>((b, r)),
        q + 1 < r,
        multiplicative_op(ts, r) == Some(then_op) ==> r + 1 < u && unary_at(ts, r + 1) == Ok::<_, Seq<char>>((c, u)) && multiplicative_op(ts, u) is None,
    ensures
        multiplicative_op(ts, r) is None ==> multiplicative_at(ts, p) == Ok::<_, Seq<char>>((ExprTree::Binary { op, left: Box::new(a), right: Box::new(b) }, r)),
        multiplicative_op(ts, r) == Some(then_op) ==> multiplicative_at(ts, p) == Ok::<_, Seq<char>>((ExprTree::Binary { op: then_op, left: Box::new(ExprTree::Binary { op, left: Box::new(a), right: Box::new(b) }), right: Box::new(c) }, u)),
{
    let ab = ExprTree::Binary { op, left: Box::new(a), right: Box::new(b) };
    let abc = ExprTree::Binary { op: then_op, left: Box::new(ab), right: Box::new(c) };
    law_multiplicative(ts, p);
    law_multiplicative_rest(ts, q, a);
    law_multiplicative_rest(ts, r, ab);
    law_multiplicative_rest(ts, u, abc);
}

/// Without an operator of its level behind it, an operand of that level stands alone.
pub proof fn law_multiplicative_operand(ts: Seq<TokenView>, p: int, q: int, a: ExprTree)
    requires
        0 <= p < q,
        unary_at(ts, p) == Ok::<_, Seq<char>>((a, q)),
        multiplicative_op(ts, q) is None,
    ensures
        multiplicative_at(ts, p) == Ok::<_, Seq<char>>((a, q)),
{
    law_multiplicative(ts, p);
    law_multiplicative_rest(ts, q, a);
}

/// A comparison has sums for operands, the left one first, and operators of
/// its level group from the left.
pub proof fn law_relational_groups(ts: Seq<TokenView>, p: int, q: int, r: int, u: int, a: ExprTree, b: ExprTree, c: ExprTree, op: BinaryOp, then_op: BinaryOp)
    requires
        0 <= p < q < r < u,
        additive_at(ts, p) == Ok::<_, Seq<char>>((a, q)),
        relational_op(ts, q) == Some(op),
        additive_at(ts, q + 1) == Ok::<_, Seq<char>>((b, r)),
        q + 1 < r,
        relational_op(ts, r) == Some(then_op) ==> r + 1 < u && additive_at(ts, r + 1) == Ok::<_, Seq<char>>((c, u)) && relational_op(ts, u) is None,
        !kw_at(ts, q, Kw::Instanceof),
        !kw_at(ts, r, Kw::Instanceof),
        !kw_at(ts, u, Kw::Instanceof),
    ensures
        relational_op(ts, r) is None ==> relational_at(ts, p) == Ok::<_, Seq<char>>((ExprTree::Binary { op, left: Box::new(a), right: Box::new(b) }, r)),
        relational_op(ts, r) == Some(then_op) ==> relational_at(ts, p) == Ok::<_, Seq<char>>((ExprTree::Binary { op: then_op, left: Box::new(ExprTree::Binary { op, left: Box::new(a), right: Box::new(b) }), right: Box::new(c) }, u)),
{
    let ab = ExprTree::Binary { op, left: Box::new(a), right: Box::new(b) };
    let abc = ExprTree::Binary { op: then_op, left: Box::new(ab), right: Box::new(c) };
    law_relational(ts, p);
    law_relational_rest(ts, q, a);
    law_relational_rest(ts, r, ab);
    law_relational_rest(ts, u, abc);
}

/// Without an operator of its level behind it, an operand of that level stands alone.
pub proof fn law_relational_operand(ts: Seq<TokenView>, p: int, q: int, a: ExprTree)
    requires
        0 <= p < q,
        additive_at(ts, p) == Ok::<_, Seq<char>>((a, q)),
        relational_op(ts, q) is None,
        !kw_at(ts, q, Kw::Instanceof),
    ensures
        relational_at(ts, p) == Ok::<_, Seq<char>>((a, q)),
{
    law_relational(ts, p);
    law_relational_rest(ts, q, a);
}

/// A test of equality has comparisons for operands, the left one first, and operators of
/// its level group from the left.
pub proof fn law_equality_groups(ts: Seq<TokenView>, p: int, q: int, r: int, u: int, a: ExprTree, b: ExprTree, c: ExprTree, op: BinaryOp, then_op: BinaryOp)
    requires
        0 <= p < q < r < u,
        relational_at(ts, p) == Ok::<_, Seq<char>>((a, q)),
        equality_op(ts, q) == Some(op),
        relational_at(ts, q + 1) == Ok::<_, Seq<char>>((b, r)),
        q + 1 < r,
        equality_op(ts, r) == Some(then_op) ==> r + 1 < u && relational_at(ts, r + 1) == Ok::<_, Seq<char>>((c, u)) && equality_op(ts, u) is None,
    ensures
        equality_op(ts, r) is None ==> equality_at(ts, p) == Ok::<_, Seq<char>>((ExprTree::Binary { op, left: Box::new(a), right: Box::new(b) }, r)),
        equality_op(ts, r) == Some(then_op) ==> equality_at(ts, p) == Ok::<_, Seq<char>>((ExprTree::Binary { op: then_op, left: Box::new(ExprTree::Binary { op, left: Box::new(a), right: Box::new(b) }), right: Box::new(c) }, u)),
{
    let ab = ExprTree::Binary { op, left: Box::new(a), right: Box::new(b) };
    let abc = ExprTree::Binary { op: then_op, left: Box::new(ab), right: Box::new(c) };
    law_equality(ts, p);
    law_equality_rest(ts, q, a);
    law_equality_rest(ts, r, ab);
    law_equality_rest(ts, u, abc);
}

/// Without an operator of its level behind it, an operand of that level stands alone.
pub proof fn law_equality_operand(ts: Seq<TokenView>, p: int, q: int, a: ExprTree)
    requires
        0 <= p < q,
        relational_at(ts, p) == Ok::<_, Seq<char>>((a, q)),
        equality_op(ts, q) is None,
    ensures
        equality_at(ts, p) == Ok::<_, Seq<char>>((a, q)),
{
    law_equality(ts, p);
    law_equality_rest(ts, q, a);
}

/// A short-circuiting expression has tests of equality for operands, the left one first, and operators of
/// its level group from the left.
pub proof fn law_logical_groups(ts: Seq<TokenView>, p: int, q: int, r: int, u: int, a: ExprTree, b: ExprTree, c: ExprTree, op: LogicalOp, then_op: LogicalOp)
    requires
        0 <= p < q < r < u,
        equality_at(ts, p) == Ok::<_, Seq<char>>((a, q)),
        logical_op(ts, q) == Some(op),
        equality_at(ts, q + 1) == Ok::<_, Seq<char>>((b, r)),
        q + 1 < r,
        logical_op(ts, r) == Some(then_op) ==> r + 1 < u && equality_at(ts, r + 1) == Ok::<_, Seq<char>>((c, u)) && logical_op(ts, u) is None,
    ensures
        logical_op(ts, r) is None ==> logical_at(ts, p) == Ok::<_, Seq<char>>((ExprTree::Logical { op, left: Box::new(a), right: Box::new(b) }, r)),
        logical_op(ts, r) == Some(then_op) ==> logical_at(ts, p) == Ok::<_, Seq<char>>((ExprTree::Logical { op: then_op, left: Box::new(ExprTree::Logical { op, left: Box::new(a), right: Box::new(b) }), right: Box::new(c) }, u)),
{
    let ab = ExprTree::Logical { op, left: Box::new(a), right: Box::new(b) };
    let abc = ExprTree::Logical { op: then_op, left: Box::new(ab), right: Box::new(c) };
    law_logical(ts, p);
    law_logical_rest(ts, q, a);
    law_logical_rest(ts, r, ab);
    law_logical_rest(ts, u, abc);
}

/// Without an operator of its level behind it, an operand of that level stands alone.
pub proof fn law_logical_operand(ts: Seq<TokenView>, p: int, q: int, a: ExprTree)
    requires
        0 <= p < q,
        equality_at(ts, p) == Ok::<_, Seq<char>>((a, q)),
        logical_op(ts, q) is None,
    ensures
        logical_at(ts, p) == Ok::<_, Seq<char>>((a, q)),
{
    law_logical(ts, p);
    law_logical_rest(ts, q, a);
}

/// `instanceof` is a comparison: its sides are sums.
pub proof fn law_instanceof_groups(ts: Seq<TokenView>, p: int, q: int, r: int, a: ExprTree, b: ExprTree)
    requires
        0 <= p < q,
        q + 1 < r,
        additive_at(ts, p) == Ok::<_, Seq<char>>((a, q)),
        kw_at(ts, q, Kw::Instanceof),
        additive_at(ts, q + 1) == Ok::<_, Seq<char>>((b, r)),
        !kw_at(ts, r, Kw::Instanceof),
        relational_op(ts, r) is None,
    ensures
        relational_at(ts, p) == Ok::<_, Seq<char>>((ExprTree::InstanceOf { left: Box::new(a), right: Box::new(b) }, r)),
{
    law_relational(ts, p);
    law_relational_rest(ts, q, a);
    law_relational_rest(ts, r, ExprTree::InstanceOf { left: Box::new(a), right: Box::new(b) });
}

/// A prefix operator applies to the prefixed expression behind it.
pub proof fn law_prefix_groups(ts: Seq<TokenView>, p: int, q: int, a: ExprTree, op: UnaryOp)
    requires
        0 <= p,
        p + 1 < q,
        prefix_op(ts, p) == Some(op),
        unary_at(ts, p + 1) == Ok::<_, Seq<char>>((a, q)),
    ensures
        unary_at(ts, p) == Ok::<_, Seq<char>>((ExprTree::Unary { op, operand: Box::new(a) }, q)),
{
    law_unary(ts, p);
}

/// A conditional expression has its condition before the question mark, and its branches
/// before and behind the colon.
pub proof fn law_ternary_parts(ts: Seq<TokenView>, p: int, q: int, r: int, u: int, cond: ExprTree, yes: ExprTree, no: ExprTree)
    requires
        0 <= p < q,
        q + 1 < r,
        r + 1 < u,
        logical_at(ts, p) == Ok::<_, Seq<char>>((cond, q)),
        punct_at(ts, q, "?"@),
        assignment_at(ts, q + 1) == Ok::<_, Seq<char>>((yes, r)),
        punct_at(ts, r, ":"@),
        assignment_at(ts, r + 1) == Ok::<_, Seq<char>>((no, u)),
    ensures
        ternary_at(ts, p) == Ok::<_, Seq<char>>((ExprTree::Ternary { cond: Box::new(cond), yes: Box::new(yes), no: Box::new(no) }, u)),
{
    law_ternary(ts, p);
}

/// An assignment takes everything behind its sign as its value, so that assignments group
/// from the right; a compound one assigns what its operator gives for the target and that.
pub proof fn law_assignment_parts(ts: Seq<TokenView>, p: int, q: int, r: int, target: ExprTree, value: ExprTree)
    requires
        0 <= p < q,
        q + 1 < r,
        ternary_at(ts, p) == Ok::<_, Seq<char>>((target, q)),
        assignment_at(ts, q + 1) == Ok::<_, Seq<char>>((value, r)),
    ensures
        punct_at(ts, q, "="@) ==> assignment_at(ts, p) == Ok::<_, Seq<char>>((ExprTree::Assignment { target: AssignTargetTree::Expr(Box::new(target)), value: Box::new(value) }, r)),
        !punct_at(ts, q, "="@) ==> (assign_op(ts, q) matches Some(op) ==> assignment_at(ts, p) == Ok::<_, Seq<char>>((ExprTree::Assignment { target: AssignTargetTree::Expr(Box::new(target)), value: Box::new(ExprTree::Binary { op, left: Box::new(target), right: Box::new(value) }) }, r))),
        !punct_at(ts, q, "="@) && assign_op(ts, q) is None ==> assignment_at(ts, p) == Ok::<_, Seq<char>>((target, q)),
{
    law_assignment(ts, p);
}

/// An `if` has its condition in brackets, then its branch, then what follows `else`.
pub proof fn law_if_parts(ts: Seq<TokenView>, p: int, q: int, r: int, u: int, cond: ExprTree, yes: Seq<StmtTree>, no: Seq<StmtTree>)
    requires
        0 <= p,
        kw_at(ts, p, Kw::If),
        punct_at(ts, p + 1, "("@),
        p + 2 < q,
        expr_at(ts, p + 2) == Ok::<_, Seq<char>>((cond, q)),
        punct_at(ts, q, ")"@),
        q + 1 < r,
        stmt_or_block_at(ts, q + 1) == Ok::<_, Seq<char>>((yes, r)),
        kw_at(ts, r, Kw::Else) ==> r + 1 < u && stmt_or_block_at(ts, r + 1) == Ok::<_, Seq<char>>((no, u)),
    ensures
        kw_at(ts, r, Kw::Else) ==> stmt_at(ts, p) == Ok::<_, Seq<char>>((StmtTree::If { cond, yes, no }, u)),
        !kw_at(ts, r, Kw::Else) ==> stmt_at(ts, p) == Ok::<_, Seq<char>>((StmtTree::If { cond, yes, no: Seq::empty() }, r)),
{
    law_stmt(ts, p);
    law_if(ts, p + 1);
    law_else_part(ts, r);
}

/// A `while` is a `for` that has a condition and a body alone.
pub proof fn law_while_parts(ts: Seq<TokenView>, p: int, q: int, r: int, cond: ExprTree, body: Seq<StmtTree>)
    requires
        0 <= p,
        kw_at(ts, p, Kw::While),
        punct_at(ts, p + 1, "("@),
        p + 2 < q,
        expr_at(ts, p + 2) == Ok::<_, Seq<char>>((cond, q)),
        punct_at(ts, q, ")"@),
        q + 1 < r,
        stmt_or_block_at(ts, q + 1) == Ok::<_, Seq<char>>((body, r)),
    ensures
        stmt_at(ts, p) == Ok::<_, Seq<char>>((StmtTree::For { init: None, cond: Some(cond), update: None, body }, r)),
{
    law_stmt(ts, p);
    law_while(ts, p + 1);
}

/// A `do` has its body first, and its condition behind it.
pub proof fn law_do_parts(ts: Seq<TokenView>, p: int, q: int, r: int, cond: ExprTree, body: Seq<StmtTree>)
    requires
        0 <= p,
        kw_at(ts, p, Kw::Do),
        p + 1 < q,
        stmt_or_block_at(ts, p + 1) == Ok::<_, Seq<char>>((body, q)),
        kw_at(ts, q, Kw::While),
        punct_at(ts, q + 1, "("@),
        q + 2 < r,
        expr_at(ts, q + 2) == Ok::<_, Seq<char>>((cond, r)),
        punct_at(ts, r, ")"@),
        punct_at(ts, r + 1, ";"@),
    ensures
        stmt_at(ts, p) == Ok::<_, Seq<char>>((StmtTree::DoWhile { cond, body }, r + 2)),
{
    law_stmt(ts, p);
    law_do(ts, p + 1);
}

/// Behind its first head a `for` has its condition, its update and its body, in this order.
pub proof fn law_for_parts(ts: Seq<TokenView>, p: int, q: int, r: int, u: int, init: StmtTree, cond: ExprTree, update: ExprTree, body: Seq<StmtTree>)
    requires
        0 <= p < q,
        q + 1 < r,
        r + 1 < u,
        !punct_at(ts, p, ";"@),
        expr_at(ts, p) == Ok::<_, Seq<char>>((cond, q)),
        punct_at(ts, q, ";"@),
        !punct_at(ts, q + 1, ")"@),
        expr_at(ts, q + 1) == Ok::<_, Seq<char>>((update, r)),
        punct_at(ts, r, ")"@),
        stmt_or_block_at(ts, r + 1) == Ok::<_, Seq<char>>((body, u)),
    ensures
        for_tail_at(ts, p, init) == Ok::<_, Seq<char>>((StmtTree::For { init: Some(Box::new(init)), cond: Some(cond), update: Some(update), body }, u)),
{
    law_for_tail(ts, p, init);
    law_for_cond(ts, p);
    law_for_update(ts, q + 1);
}

/// A `switch` has what it chooses by in brackets, and its clauses in braces.
pub proof fn law_switch_parts(ts: Seq<TokenView>, p: int, q: int, r: int, discriminant: ExprTree, cases: Seq<SwitchCaseTree>)
    requires
        0 <= p,
        kw_at(ts, p, Kw::Switch),
        punct_at(ts, p + 1, "("@),
        p + 2 < q,
        expr_at(ts, p + 2) == Ok::<_, Seq<char>>((discriminant, q)),
        punct_at(ts, q, ")"@),
        punct_at(ts, q + 1, "{"@),
        q + 2 < r,
        cases_at(ts, q + 2, Seq::empty()) == Ok::<_, Seq<char>>((cases, r)),
        punct_at(ts, r, "}"@),
    ensures
        stmt_at(ts, p) == Ok::<_, Seq<char>>((StmtTree::Switch { discriminant, cases }, r + 1)),
{
    law_stmt(ts, p);
    law_switch(ts, p + 1);
}

/// A clause of a `switch` has its test before the colon and its statements behind it; a
/// `default` clause has no test.
pub proof fn law_clause_parts(ts: Seq<TokenView>, p: int, q: int, r: int, list: Seq<SwitchCaseTree>, test: ExprTree, body: Seq<StmtTree>)
    requires
        0 <= p < q < r,
        kw_at(ts, p, Kw::Case) || kw_at(ts, p, Kw::Default),
        kw_at(ts, p, Kw::Case) ==> p + 1 < q && expr_at(ts, p + 1) == Ok::<_, Seq<char>>((test, q)) && punct_at(ts, q, ":"@) && q + 1 < r && case_body_at(ts, q + 1, Seq::empty()) == Ok::<_, Seq<char>>((body, r)),
        kw_at(ts, p, Kw::Default) ==> q == p + 1 && punct_at(ts, q, ":"@) && q + 1 < r && case_body_at(ts, q + 1, Seq::empty()) == Ok::<_, Seq<char>>((body, r)),
    ensures
        kw_at(ts, p, Kw::Case) ==> cases_at(ts, p, list) == cases_at(ts, r, list.push(SwitchCaseTree { test: Some(test), body })),
        kw_at(ts, p, Kw::Default) ==> cases_at(ts, p, list) == cases_at(ts, r, list.push(SwitchCaseTree { test: None, body })),
{
    law_cases(ts, p, list);
}

/// A `try` has its block, then its `catch` clause and its `finally` block.
pub proof fn law_try_parts(ts: Seq<TokenView>, p: int, q: int, r: int, u: int, block: Seq<StmtTree>, clause: Option<CatchClauseTree>, last: Option<Seq<StmtTree>>)
    requires
        0 <= p,
        kw_at(ts, p, Kw::Try),
        p + 1 < q,
        block_stmts_at(ts, p + 1) == Ok::<_, Seq<char>>((block, q)),
        q <= r,
        catch_part_at(ts, q) == Ok::<_, Seq<char>>((clause, r)),
        r <= u,
        finally_part_at(ts, r) == Ok::<_, Seq<char>>((last, u)),
    ensures
        stmt_at(ts, p) == Ok::<_, Seq<char>>((StmtTree::Try { try_block: block, catch: clause, finally: last }, u)),
{
    law_stmt(ts, p);
    law_try(ts, p + 1);
}

/// `throw` throws the expression behind it, and `return` returns it.
pub proof fn law_exit_parts(ts: Seq<TokenView>, p: int, q: int, e: ExprTree)
    requires
        0 <= p,
        p + 1 < q,
        expr_at(ts, p + 1) == Ok::<_, Seq<char>>((e, q)),
        punct_at(ts, q, ";"@),
        kw_at(ts, p, Kw::Throw) || (kw_at(ts, p, Kw::Return) && !punct_at(ts, p + 1, ";"@) && !punct_at(ts, p + 1, "}"@)),
    ensures
        kw_at(ts, p, Kw::Throw) ==> stmt_at(ts, p) == Ok::<_, Seq<char>>((StmtTree::Throw(e), q + 1)),
        kw_at(ts, p, Kw::Return) ==> stmt_at(ts, p) == Ok::<_, Seq<char>>((StmtTree::Return(Some(e)), q + 1)),
{
    law_stmt(ts, p);
    law_return_rest(ts, p + 1);
}

/// `break` and `continue` are what they say.
pub proof fn law_jump_parts(ts: Seq<TokenView>, p: int)
    requires
        0 <= p,
        kw_at(ts, p, Kw::Break) || kw_at(ts, p, Kw::Continue),
        punct_at(ts, p + 1, ";"@),
    ensures
        kw_at(ts, p, Kw::Break) ==> stmt_at(ts, p) == Ok::<_, Seq<char>>((StmtTree::Break(None), p + 2)),
        kw_at(ts, p, Kw::Continue) ==> stmt_at(ts, p) == Ok::<_, Seq<char>>((StmtTree::Continue(None), p + 2)),
{
    law_stmt(ts, p);
}

/// A member under a computed key, and a call, keep what they belong to.
pub proof fn law_access_parts(ts: Seq<TokenView>, p: int, q: int, obj: ExprTree, index: ExprTree)
    requires
        0 <= p < q,
        expr_at(ts, p) == Ok::<_, Seq<char>>((index, q)),
        punct_at(ts, q, "]"@),
    ensures
        index_at(ts, p, obj) == Ok::<_, Seq<char>>((ExprTree::Member { obj: Box::new(obj), prop: ""@, computed: Some(Box::new(index)), optional: false }, q + 1)),
{
    law_index(ts, p, obj);
}

} // verus!
