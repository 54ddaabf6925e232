//! The grammar that the hand-written parser follows.
//!
//! For every construct a function says what parsing it at a token gives: its syntax
//! tree and the position behind it, or the message of the first fault. Each follows
//! its rule; a law says so.
use vstd::prelude::*;
use crate::ast::{
    ArgTree, ArrayElemTree, AssignTargetTree, BinaryOp, CatchClauseTree, DeclaratorTree, ExprTree, LitTree, LogicalOp, PatternTree, ProgramTree,
    PropKeyTree, PropTree, StmtTree, SwitchCaseTree, UnaryOp, VarKind,
};
use crate::error::{Error, ErrorView};
use crate::lexer::{lexed, Kw, TokenKind, TokenView};
use crate::text::decimal;

verus! {

/// How many tokens stand at a position and behind it.
pub open spec fn remaining(ts: Seq<TokenView>, p: int) -> nat {
    if p < ts.len() { (ts.len() - p) as nat } else { 0 }
}

/// Where a construct that starts at `p` ends, given that it takes a token at least.
pub open spec fn after(p: int, q: int) -> int {
    if q > p { q } else { p + 1 }
}

/// Where a construct that starts at `p` ends, given that it may take no token.
pub open spec fn from(p: int, q: int) -> int {
    if q > p { q } else { p }
}

/// Whether a punctuator stands at a position.
pub open spec fn punct_at(ts: Seq<TokenView>, p: int, s: Seq<char>) -> bool {
    p < ts.len() && ts[p].kind == TokenKind::Punct && ts[p].text == s
}

/// Whether the token at a position has a text, whatever its kind.
pub open spec fn text_at(ts: Seq<TokenView>, p: int, s: Seq<char>) -> bool {
    p < ts.len() && ts[p].text == s
}

/// Whether a keyword stands at a position.
pub open spec fn kw_at(ts: Seq<TokenView>, p: int, k: Kw) -> bool {
    p < ts.len() && ts[p].kind == TokenKind::Kw(k)
}

/// Whether any keyword stands at a position.
pub open spec fn anykw_at(ts: Seq<TokenView>, p: int) -> bool {
    p < ts.len() && ts[p].kind is Kw
}

/// Whether a token of a kind stands at a position.
pub open spec fn kind_at(ts: Seq<TokenView>, p: int, k: TokenKind) -> bool {
    p < ts.len() && ts[p].kind == k
}

/// Whether the source ends at a position.
pub open spec fn end_at(ts: Seq<TokenView>, p: int) -> bool {
    p >= ts.len() || ts[p].kind == TokenKind::Eof
}

/// The message where a punctuator is missing.
pub open spec fn expected(ts: Seq<TokenView>, p: int, s: Seq<char>) -> Seq<char> {
    "expected '"@ + s + "' (found '"@ + ts[p].text + "' at line "@ + decimal(ts[p].line as nat) + ")"@
}

/// The message where a property key is missing.
pub open spec fn no_key(ts: Seq<TokenView>, p: int) -> Seq<char> {
    "expected object property key (found '"@ + ts[p].text + "')"@
}

/// The texts of the token at a position and of the three before it.
pub open spec fn context(ts: Seq<TokenView>, p: int) -> Seq<Seq<char>> {
    let lo = if p >= 3 { p - 3 } else { 0 };
    Seq::new((p + 1 - lo) as nat, |i: int| ts[lo + i].text)
}

/// How the standard library prints a list of strings for debugging.
pub uninterp spec fn debug_list(list: Seq<Seq<char>>) -> Seq<char>;

/// The message where no expression starts.
pub open spec fn unexpected(ts: Seq<TokenView>, p: int) -> Seq<char> {
    "unexpected token '"@ + ts[p].text + "' at line "@ + decimal(ts[p].line as nat) + " (ctx: "@ + debug_list(context(ts, p)) + ")"@
}

/// The text of a number literal: one with a radix prefix is not a number.
pub open spec fn number_text(t: Seq<char>) -> Seq<char> {
    if crate::numtext::radix_of(t) is Some { "NaN"@ } else { t }
}

/// Whether parsing gave a tree and ended at a position.
pub open spec fn gives<T>(r: Result<(T, int), Seq<char>>, v: T, q: int) -> bool {
    r == Ok::<(T, int), Seq<char>>((v, q))
}

/// Whether two results are the same.
pub open spec fn same<T>(a: Result<(T, int), Seq<char>>, b: Result<(T, int), Seq<char>>) -> bool {
    a == b
}

/// Whether parsing failed with an error.
pub open spec fn failed<T>(r: Result<(T, int), Seq<char>>, e: Error) -> bool {
    r matches Err(m) && e@ == ErrorView::Parse(m)
}

/// The operator of a compound assignment.
pub open spec fn assign_op(ts: Seq<TokenView>, p: int) -> Option<BinaryOp> {
    if punct_at(ts, p, "+="@) {
        Some(BinaryOp::Add)
    } else if punct_at(ts, p, "-="@) {
        Some(BinaryOp::Sub)
    } else if punct_at(ts, p, "*="@) {
        Some(BinaryOp::Mul)
    } else if punct_at(ts, p, "/="@) {
        Some(BinaryOp::Div)
    } else if punct_at(ts, p, "%="@) {
        Some(BinaryOp::Rem)
    } else {
        None
    }
}

/// A short-circuiting operator.
pub open spec fn logical_op(ts: Seq<TokenView>, p: int) -> Option<LogicalOp> {
    if punct_at(ts, p, "&&"@) {
        Some(LogicalOp::And)
    } else if punct_at(ts, p, "||"@) {
        Some(LogicalOp::Or)
    } else {
        None
    }
}

/// An equality operator: the text alone counts.
pub open spec fn equality_op(ts: Seq<TokenView>, p: int) -> Option<BinaryOp> {
    if text_at(ts, p, "==="@) {
        Some(BinaryOp::StrictEq)
    } else if text_at(ts, p, "!=="@) {
        Some(BinaryOp::StrictNe)
    } else if text_at(ts, p, "=="@) {
        Some(BinaryOp::Eq)
    } else if text_at(ts, p, "!="@) {
        Some(BinaryOp::Ne)
    } else {
        None
    }
}

/// A comparison operator: the text alone counts.
pub open spec fn relational_op(ts: Seq<TokenView>, p: int) -> Option<BinaryOp> {
    if text_at(ts, p, "<"@) {
        Some(BinaryOp::Lt)
    } else if text_at(ts, p, ">"@) {
        Some(BinaryOp::Gt)
    } else if text_at(ts, p, "<="@) {
        Some(BinaryOp::Le)
    } else if text_at(ts, p, ">="@) {
        Some(BinaryOp::Ge)
    } else {
        None
    }
}

/// `+` or `-`.
pub open spec fn additive_op(ts: Seq<TokenView>, p: int) -> Option<BinaryOp> {
    if punct_at(ts, p, "+"@) {
        Some(BinaryOp::Add)
    } else if punct_at(ts, p, "-"@) {
        Some(BinaryOp::Sub)
    } else {
        None
    }
}

/// `*`, `/` or `%`.
pub open spec fn multiplicative_op(ts: Seq<TokenView>, p: int) -> Option<BinaryOp> {
    if punct_at(ts, p, "*"@) {
        Some(BinaryOp::Mul)
    } else if punct_at(ts, p, "/"@) {
        Some(BinaryOp::Div)
    } else if punct_at(ts, p, "%"@) {
        Some(BinaryOp::Rem)
    } else {
        None
    }
}

/// A prefix operator.
pub open spec fn prefix_op(ts: Seq<TokenView>, p: int) -> Option<UnaryOp> {
    if kw_at(ts, p, Kw::Typeof) {
        Some(UnaryOp::Typeof)
    } else if kw_at(ts, p, Kw::Void) {
        Some(UnaryOp::Void)
    } else if punct_at(ts, p, "!"@) {
        Some(UnaryOp::Not)
    } else if punct_at(ts, p, "-"@) {
        Some(UnaryOp::Neg)
    } else if punct_at(ts, p, "+"@) {
        Some(UnaryOp::Plus)
    } else if kw_at(ts, p, Kw::Delete) {
        Some(UnaryOp::Delete)
    } else {
        None
    }
}

/// `++` or `--` behind an operand.
pub open spec fn postfix_op(ts: Seq<TokenView>, p: int) -> Option<UnaryOp> {
    if punct_at(ts, p, "++"@) {
        Some(UnaryOp::PostInc)
    } else if punct_at(ts, p, "--"@) {
        Some(UnaryOp::PostDec)
    } else {
        None
    }
}

/// The statements of a script from a position on.
#[verifier::opaque]
pub closed spec fn program_at(ts: Seq<TokenView>, p: int, list: Seq<StmtTree>) -> Result<(Seq<StmtTree>, int), Seq<char>>
    decreases remaining(ts, p), 61int,
{
    program_body(ts, p, list)
}

#[verifier::opaque]
spec fn program_body(ts: Seq<TokenView>, p: int, list: Seq<StmtTree>) -> Result<(Seq<StmtTree>, int), Seq<char>>
    decreases remaining(ts, p), 60int,
{
    if end_at(ts, p) {
        Ok((list, p))
    } else {
        match stmt_at(ts, p) {
            Err(m) => Err(m),
            Ok((s, q1)) => {
                let p1 = after(p, q1);
                program_at(ts, p1, list.push(s))
            },
        }
    }
}

/// The statements from a position to the end of their block.
#[verifier::opaque]
pub closed spec fn block_body_at(ts: Seq<TokenView>, p: int, list: Seq<StmtTree>) -> Result<(Seq<StmtTree>, int), Seq<char>>
    decreases remaining(ts, p), 61int,
{
    block_body_body(ts, p, list)
}

#[verifier::opaque]
spec fn block_body_body(ts: Seq<TokenView>, p: int, list: Seq<StmtTree>) -> Result<(Seq<StmtTree>, int), Seq<char>>
    decreases remaining(ts, p), 60int,
{
    if punct_at(ts, p, "}"@) || end_at(ts, p) {
        Ok((list, p))
    } else {
        match stmt_at(ts, p) {
            Err(m) => Err(m),
            Ok((s, q1)) => {
                let p1 = after(p, q1);
                block_body_at(ts, p1, list.push(s))
            },
        }
    }
}

/// A block.
#[verifier::opaque]
pub closed spec fn block_stmts_at(ts: Seq<TokenView>, p: int) -> Result<(Seq<StmtTree>, int), Seq<char>>
    decreases remaining(ts, p), 17int,
{
    block_stmts_body(ts, p)
}

#[verifier::opaque]
spec fn block_stmts_body(ts: Seq<TokenView>, p: int) -> Result<(Seq<StmtTree>, int), Seq<char>>
    decreases remaining(ts, p), 16int,
{
    if !punct_at(ts, p, "{"@) {
        Err(expected(ts, p, "{"@))
    } else {
        match block_body_at(ts, p + 1, Seq::empty()) {
            Err(m) => Err(m),
            Ok((list, q1)) => {
                let p1 = from(p + 1, q1);
                if !punct_at(ts, p1, "}"@) {
                    Err(expected(ts, p1, "}"@))
                } else {
                    Ok((list, p1 + 1))
                }
            },
        }
    }
}

/// A block, or a single statement.
#[verifier::opaque]
pub closed spec fn stmt_or_block_at(ts: Seq<TokenView>, p: int) -> Result<(Seq<StmtTree>, int), Seq<char>>
    decreases remaining(ts, p), 55int,
{
    stmt_or_block_body(ts, p)
}

#[verifier::opaque]
spec fn stmt_or_block_body(ts: Seq<TokenView>, p: int) -> Result<(Seq<StmtTree>, int), Seq<char>>
    decreases remaining(ts, p), 54int,
{
    if punct_at(ts, p, "{"@) {
        match block_stmts_at(ts, p) {
            Err(m) => Err(m),
            Ok((list, q1)) => {
                let p1 = after(p, q1);
                Ok((list, p1))
            },
        }
    } else {
        match stmt_at(ts, p) {
            Err(m) => Err(m),
            Ok((s, q2)) => {
                let p2 = after(p, q2);
                Ok((seq![s], p2))
            },
        }
    }
}

/// The rest of a `return`. Before the end of a block it needs no semicolon.
#[verifier::opaque]
pub closed spec fn return_rest_at(ts: Seq<TokenView>, p: int) -> Result<(StmtTree, int), Seq<char>>
    decreases remaining(ts, p), 51int,
{
    return_rest_body(ts, p)
}

#[verifier::opaque]
spec fn return_rest_body(ts: Seq<TokenView>, p: int) -> Result<(StmtTree, int), Seq<char>>
    decreases remaining(ts, p), 50int,
{
    if punct_at(ts, p, "}"@) {
        Ok((StmtTree::Return(None), p))
    } else {
        if punct_at(ts, p, ";"@) {
            Ok((StmtTree::Return(None), p + 1))
        } else {
            match expr_at(ts, p) {
                Err(m) => Err(m),
                Ok((e, q1)) => {
                    let p1 = after(p, q1);
                    if !punct_at(ts, p1, ";"@) {
                        Err(expected(ts, p1, ";"@))
                    } else {
                        Ok((StmtTree::Return(Some(e)), p1 + 1))
                    }
                },
            }
        }
    }
}

/// The rest of a statement that starts with `delete`. It needs no semicolon.
#[verifier::opaque]
pub closed spec fn delete_stmt_at(ts: Seq<TokenView>, p: int) -> Result<(StmtTree, int), Seq<char>>
    decreases remaining(ts, p), 51int,
{
    delete_stmt_body(ts, p)
}

#[verifier::opaque]
spec fn delete_stmt_body(ts: Seq<TokenView>, p: int) -> Result<(StmtTree, int), Seq<char>>
    decreases remaining(ts, p), 50int,
{
    match unary_at(ts, p) {
        Err(m) => Err(m),
        Ok((operand, q1)) => {
            let p1 = after(p, q1);
            let e = ExprTree::Unary { op: UnaryOp::Delete, operand: Box::new(operand) };
            if punct_at(ts, p1, ";"@) {
                Ok((StmtTree::Expr(e), p1 + 1))
            } else {
                Ok((StmtTree::Expr(e), p1))
            }
        },
    }
}

/// A statement.
#[verifier::opaque]
pub closed spec fn stmt_at(ts: Seq<TokenView>, p: int) -> Result<(StmtTree, int), Seq<char>>
    decreases remaining(ts, p), 53int,
{
    stmt_body(ts, p)
}

#[verifier::opaque]
spec fn stmt_body(ts: Seq<TokenView>, p: int) -> Result<(StmtTree, int), Seq<char>>
    decreases remaining(ts, p), 52int,
{
    if kw_at(ts, p, Kw::Var) {
        match var_decl_at(ts, p + 1) {
            Err(m) => Err(m),
            Ok((v, q1)) => {
                let p1 = from(p + 1, q1);
                if !punct_at(ts, p1, ";"@) {
                    Err(expected(ts, p1, ";"@))
                } else {
                    Ok((v, p1 + 1))
                }
            },
        }
    } else if kw_at(ts, p, Kw::Function) {
        match function_decl_at(ts, p + 1) {
            Err(m) => Err(m),
            Ok((v, q2)) => {
                let p2 = after(p + 1, q2);
                Ok((v, p2))
            },
        }
    } else if kw_at(ts, p, Kw::Return) {
        match return_rest_at(ts, p + 1) {
            Err(m) => Err(m),
            Ok((s, q3)) => {
                let p3 = from(p + 1, q3);
                Ok((s, p3))
            },
        }
    } else if kw_at(ts, p, Kw::Break) {
        if !punct_at(ts, p + 1, ";"@) {
            Err(expected(ts, p + 1, ";"@))
        } else {
            Ok((StmtTree::Break(None), p + 2))
        }
    } else if kw_at(ts, p, Kw::Continue) {
        if !punct_at(ts, p + 1, ";"@) {
            Err(expected(ts, p + 1, ";"@))
        } else {
            Ok((StmtTree::Continue(None), p + 2))
        }
    } else if kw_at(ts, p, Kw::If) {
        match if_at(ts, p + 1) {
            Err(m) => Err(m),
            Ok((v, q4)) => {
                let p4 = after(p + 1, q4);
                Ok((v, p4))
            },
        }
    } else if kw_at(ts, p, Kw::For) {
        match for_at(ts, p + 1) {
            Err(m) => Err(m),
            Ok((v, q5)) => {
                let p5 = after(p + 1, q5);
                Ok((v, p5))
            },
        }
    } else if kw_at(ts, p, Kw::Switch) {
        match switch_at(ts, p + 1) {
            Err(m) => Err(m),
            Ok((v, q6)) => {
                let p6 = after(p + 1, q6);
                Ok((v, p6))
            },
        }
    } else if kw_at(ts, p, Kw::Try) {
        match try_at(ts, p + 1) {
            Err(m) => Err(m),
            Ok((v, q7)) => {
                let p7 = after(p + 1, q7);
                Ok((v, p7))
            },
        }
    } else if kw_at(ts, p, Kw::Throw) {
        match expr_at(ts, p + 1) {
            Err(m) => Err(m),
            Ok((e, q8)) => {
                let p8 = after(p + 1, q8);
                if !punct_at(ts, p8, ";"@) {
                    Err(expected(ts, p8, ";"@))
                } else {
                    Ok((StmtTree::Throw(e), p8 + 1))
                }
            },
        }
    } else if kw_at(ts, p, Kw::While) {
        match while_at(ts, p + 1) {
            Err(m) => Err(m),
            Ok((v, q9)) => {
                let p9 = after(p + 1, q9);
                Ok((v, p9))
            },
        }
    } else if kw_at(ts, p, Kw::Do) {
        match do_at(ts, p + 1) {
            Err(m) => Err(m),
            Ok((v, q10)) => {
                let p10 = after(p + 1, q10);
                Ok((v, p10))
            },
        }
    } else if kw_at(ts, p, Kw::Delete) {
        match delete_stmt_at(ts, p + 1) {
            Err(m) => Err(m),
            Ok((s, q11)) => {
                let p11 = after(p + 1, q11);
                Ok((s, p11))
            },
        }
    } else if punct_at(ts, p, "{"@) {
        match block_stmts_at(ts, p) {
            Err(m) => Err(m),
            Ok((list, q12)) => {
                let p12 = after(p, q12);
                Ok((StmtTree::Block(list), p12))
            },
        }
    } else {
        match expr_at(ts, p) {
            Err(m) => Err(m),
            Ok((e, q13)) => {
                let p13 = after(p, q13);
                if !punct_at(ts, p13, ";"@) {
                    Err(expected(ts, p13, ";"@))
                } else {
                    Ok((StmtTree::Expr(e), p13 + 1))
                }
            },
        }
    }
}

/// The value of a declarator.
#[verifier::opaque]
pub closed spec fn initializer_at(ts: Seq<TokenView>, p: int) -> Result<(Option<ExprTree>, int), Seq<char>>
    decreases remaining(ts, p), 51int,
{
    initializer_body(ts, p)
}

#[verifier::opaque]
spec fn initializer_body(ts: Seq<TokenView>, p: int) -> Result<(Option<ExprTree>, int), Seq<char>>
    decreases remaining(ts, p), 50int,
{
    if punct_at(ts, p, "="@) {
        match expr_at(ts, p + 1) {
            Err(m) => Err(m),
            Ok((e, q1)) => {
                let p1 = after(p + 1, q1);
                Ok((Some(e), p1))
            },
        }
    } else {
        Ok((None, p))
    }
}

/// The declarators from a position on.
#[verifier::opaque]
pub closed spec fn declarators_at(ts: Seq<TokenView>, p: int, list: Seq<DeclaratorTree>) -> Result<(Seq<DeclaratorTree>, int), Seq<char>>
    decreases remaining(ts, p), 57int,
{
    declarators_body(ts, p, list)
}

#[verifier::opaque]
spec fn declarators_body(ts: Seq<TokenView>, p: int, list: Seq<DeclaratorTree>) -> Result<(Seq<DeclaratorTree>, int), Seq<char>>
    decreases remaining(ts, p), 56int,
{
    if !kind_at(ts, p, TokenKind::Ident) {
        Err("expected identifier"@)
    } else {
        let name = ts[p].text;
        let pat = PatternTree::Ident(name);
        match initializer_at(ts, p + 1) {
            Err(m) => Err(m),
            Ok((init, q1)) => {
                let p1 = from(p + 1, q1);
                if punct_at(ts, p1, ","@) {
                    declarators_at(ts, p1 + 1, list.push(DeclaratorTree { pat, init }))
                } else {
                    Ok((list.push(DeclaratorTree { pat, init }), p1))
                }
            },
        }
    }
}

/// The rest of a `var` declaration.
#[verifier::opaque]
pub closed spec fn var_decl_at(ts: Seq<TokenView>, p: int) -> Result<(StmtTree, int), Seq<char>>
    decreases remaining(ts, p), 59int,
{
    var_decl_body(ts, p)
}

#[verifier::opaque]
spec fn var_decl_body(ts: Seq<TokenView>, p: int) -> Result<(StmtTree, int), Seq<char>>
    decreases remaining(ts, p), 58int,
{
    match declarators_at(ts, p, Seq::empty()) {
        Err(m) => Err(m),
        Ok((list, q1)) => {
            let p1 = from(p, q1);
            Ok((StmtTree::Var(list, VarKind::Var), p1))
        },
    }
}

/// Parameters from a position on.
#[verifier::opaque]
pub closed spec fn param_list_at(ts: Seq<TokenView>, p: int, list: Seq<PatternTree>) -> Result<(Seq<PatternTree>, int), Seq<char>>
    decreases remaining(ts, p), 13int,
{
    param_list_body(ts, p, list)
}

#[verifier::opaque]
spec fn param_list_body(ts: Seq<TokenView>, p: int, list: Seq<PatternTree>) -> Result<(Seq<PatternTree>, int), Seq<char>>
    decreases remaining(ts, p), 12int,
{
    if !kind_at(ts, p, TokenKind::Ident) {
        Err("expected identifier"@)
    } else {
        let name = ts[p].text;
        if punct_at(ts, p + 1, ","@) {
            param_list_at(ts, p + 2, list.push(PatternTree::Ident(name)))
        } else {
            Ok((list.push(PatternTree::Ident(name)), p + 1))
        }
    }
}

/// Parameters in their brackets.
#[verifier::opaque]
pub closed spec fn params_at(ts: Seq<TokenView>, p: int) -> Result<(Seq<PatternTree>, int), Seq<char>>
    decreases remaining(ts, p), 15int,
{
    params_body(ts, p)
}

#[verifier::opaque]
spec fn params_body(ts: Seq<TokenView>, p: int) -> Result<(Seq<PatternTree>, int), Seq<char>>
    decreases remaining(ts, p), 14int,
{
    if !punct_at(ts, p, "("@) {
        Err(expected(ts, p, "("@))
    } else if punct_at(ts, p + 1, ")"@) {
        Ok((Seq::empty(), p + 2))
    } else {
        match param_list_at(ts, p + 1, Seq::empty()) {
            Err(m) => Err(m),
            Ok((list, q1)) => {
                let p1 = from(p + 1, q1);
                if !punct_at(ts, p1, ")"@) {
                    Err(expected(ts, p1, ")"@))
                } else {
                    Ok((list, p1 + 1))
                }
            },
        }
    }
}

/// The rest of a function declaration.
#[verifier::opaque]
pub closed spec fn function_decl_at(ts: Seq<TokenView>, p: int) -> Result<(StmtTree, int), Seq<char>>
    decreases remaining(ts, p), 59int,
{
    function_decl_body(ts, p)
}

#[verifier::opaque]
spec fn function_decl_body(ts: Seq<TokenView>, p: int) -> Result<(StmtTree, int), Seq<char>>
    decreases remaining(ts, p), 58int,
{
    if !kind_at(ts, p, TokenKind::Ident) {
        Err("expected identifier"@)
    } else {
        let name = ts[p].text;
        match params_at(ts, p + 1) {
            Err(m) => Err(m),
            Ok((params, q1)) => {
                let p1 = after(p + 1, q1);
                match block_stmts_at(ts, p1) {
                    Err(m) => Err(m),
                    Ok((body, q2)) => {
                        let p2 = after(p1, q2);
                        Ok((StmtTree::FunctionDecl { name, params, body }, p2))
                    },
                }
            },
        }
    }
}

/// The `else` branch, which may be missing.
#[verifier::opaque]
pub closed spec fn else_part_at(ts: Seq<TokenView>, p: int) -> Result<(Seq<StmtTree>, int), Seq<char>>
    decreases remaining(ts, p), 57int,
{
    else_part_body(ts, p)
}

#[verifier::opaque]
spec fn else_part_body(ts: Seq<TokenView>, p: int) -> Result<(Seq<StmtTree>, int), Seq<char>>
    decreases remaining(ts, p), 56int,
{
    if kw_at(ts, p, Kw::Else) {
        match stmt_or_block_at(ts, p + 1) {
            Err(m) => Err(m),
            Ok((list, q1)) => {
                let p1 = after(p + 1, q1);
                Ok((list, p1))
            },
        }
    } else {
        Ok((Seq::empty(), p))
    }
}

/// The rest of an `if`.
#[verifier::opaque]
pub closed spec fn if_at(ts: Seq<TokenView>, p: int) -> Result<(StmtTree, int), Seq<char>>
    decreases remaining(ts, p), 59int,
{
    if_body(ts, p)
}

#[verifier::opaque]
spec fn if_body(ts: Seq<TokenView>, p: int) -> Result<(StmtTree, int), Seq<char>>
    decreases remaining(ts, p), 58int,
{
    if !punct_at(ts, p, "("@) {
        Err(expected(ts, p, "("@))
    } else {
        match expr_at(ts, p + 1) {
            Err(m) => Err(m),
            Ok((cond, q1)) => {
                let p1 = after(p + 1, q1);
                if !punct_at(ts, p1, ")"@) {
                    Err(expected(ts, p1, ")"@))
                } else {
                    match stmt_or_block_at(ts, p1 + 1) {
                        Err(m) => Err(m),
                        Ok((yes, q2)) => {
                            let p2 = after(p1 + 1, q2);
                            match else_part_at(ts, p2) {
                                Err(m) => Err(m),
                                Ok((no, q3)) => {
                                    let p3 = from(p2, q3);
                                    Ok((StmtTree::If { cond, yes, no }, p3))
                                },
                            }
                        },
                    }
                }
            },
        }
    }
}

/// The rest of a `while`.
#[verifier::opaque]
pub closed spec fn while_at(ts: Seq<TokenView>, p: int) -> Result<(StmtTree, int), Seq<char>>
    decreases remaining(ts, p), 59int,
{
    while_body(ts, p)
}

#[verifier::opaque]
spec fn while_body(ts: Seq<TokenView>, p: int) -> Result<(StmtTree, int), Seq<char>>
    decreases remaining(ts, p), 58int,
{
    if !punct_at(ts, p, "("@) {
        Err(expected(ts, p, "("@))
    } else {
        match expr_at(ts, p + 1) {
            Err(m) => Err(m),
            Ok((cond, q1)) => {
                let p1 = after(p + 1, q1);
                if !punct_at(ts, p1, ")"@) {
                    Err(expected(ts, p1, ")"@))
                } else {
                    match stmt_or_block_at(ts, p1 + 1) {
                        Err(m) => Err(m),
                        Ok((body, q2)) => {
                            let p2 = after(p1 + 1, q2);
                            Ok((StmtTree::For { init: None, cond: Some(cond), update: None, body }, p2))
                        },
                    }
                }
            },
        }
    }
}

/// The rest of a `do` loop.
#[verifier::opaque]
pub closed spec fn do_at(ts: Seq<TokenView>, p: int) -> Result<(StmtTree, int), Seq<char>>
    decreases remaining(ts, p), 59int,
{
    do_body(ts, p)
}

#[verifier::opaque]
spec fn do_body(ts: Seq<TokenView>, p: int) -> Result<(StmtTree, int), Seq<char>>
    decreases remaining(ts, p), 58int,
{
    match stmt_or_block_at(ts, p) {
        Err(m) => Err(m),
        Ok((body, q1)) => {
            let p1 = after(p, q1);
            if !kw_at(ts, p1, Kw::While) {
                Err(expected(ts, p1, "while"@))
            } else if !punct_at(ts, p1 + 1, "("@) {
                Err(expected(ts, p1 + 1, "("@))
            } else {
                match expr_at(ts, p1 + 2) {
                    Err(m) => Err(m),
                    Ok((cond, q2)) => {
                        let p2 = after(p1 + 2, q2);
                        if !punct_at(ts, p2, ")"@) {
                            Err(expected(ts, p2, ")"@))
                        } else {
                            if !punct_at(ts, p2 + 1, ";"@) {
                                Err(expected(ts, p2 + 1, ";"@))
                            } else {
                                Ok((StmtTree::DoWhile { cond, body }, p2 + 2))
                            }
                        }
                    },
                }
            }
        },
    }
}

/// The rest of a `for` loop.
#[verifier::opaque]
pub closed spec fn for_at(ts: Seq<TokenView>, p: int) -> Result<(StmtTree, int), Seq<char>>
    decreases remaining(ts, p), 65int,
{
    for_body(ts, p)
}

#[verifier::opaque]
spec fn for_body(ts: Seq<TokenView>, p: int) -> Result<(StmtTree, int), Seq<char>>
    decreases remaining(ts, p), 64int,
{
    if !punct_at(ts, p, "("@) {
        Err(expected(ts, p, "("@))
    } else if kw_at(ts, p + 1, Kw::Var) {
        match for_var_at(ts, p + 2) {
            Err(m) => Err(m),
            Ok((s, q1)) => {
                let p1 = after(p + 2, q1);
                Ok((s, p1))
            },
        }
    } else {
        if punct_at(ts, p + 1, ";"@) {
            match for_bare_at(ts, p + 2) {
                Err(m) => Err(m),
                Ok((s, q2)) => {
                    let p2 = after(p + 2, q2);
                    Ok((s, p2))
                },
            }
        } else {
            match for_expr_at(ts, p + 1) {
                Err(m) => Err(m),
                Ok((s, q3)) => {
                    let p3 = after(p + 1, q3);
                    Ok((s, p3))
                },
            }
        }
    }
}

/// The rest of a `for` loop that starts with a semicolon.
#[verifier::opaque]
pub closed spec fn for_bare_at(ts: Seq<TokenView>, p: int) -> Result<(StmtTree, int), Seq<char>>
    decreases remaining(ts, p), 63int,
{
    for_bare_body(ts, p)
}

#[verifier::opaque]
spec fn for_bare_body(ts: Seq<TokenView>, p: int) -> Result<(StmtTree, int), Seq<char>>
    decreases remaining(ts, p), 62int,
{
    match for_cond_at(ts, p) {
        Err(m) => Err(m),
        Ok((cond, q1)) => {
            let p1 = after(p, q1);
            match for_update_at(ts, p1) {
                Err(m) => Err(m),
                Ok((update, q2)) => {
                    let p2 = after(p1, q2);
                    match stmt_or_block_at(ts, p2) {
                        Err(m) => Err(m),
                        Ok((body, q3)) => {
                            let p3 = after(p2, q3);
                            Ok((StmtTree::For { init: None, cond, update, body }, p3))
                        },
                    }
                },
            }
        },
    }
}

/// The rest of a `for` loop behind `var`.
#[verifier::opaque]
pub closed spec fn for_var_at(ts: Seq<TokenView>, p: int) -> Result<(StmtTree, int), Seq<char>>
    decreases remaining(ts, p), 63int,
{
    for_var_body(ts, p)
}

#[verifier::opaque]
spec fn for_var_body(ts: Seq<TokenView>, p: int) -> Result<(StmtTree, int), Seq<char>>
    decreases remaining(ts, p), 62int,
{
    if !kind_at(ts, p, TokenKind::Ident) {
        Err("expected identifier"@)
    } else {
        let name = ts[p].text;
        if kw_at(ts, p + 1, Kw::In) {
            let pat = PatternTree::Ident(name);
            match for_in_at(ts, p + 2, pat) {
                Err(m) => Err(m),
                Ok((s, q1)) => {
                    let p1 = after(p + 2, q1);
                    Ok((s, p1))
                },
            }
        } else {
            let pat = PatternTree::Ident(name);
            match initializer_at(ts, p + 1) {
                Err(m) => Err(m),
                Ok((init, q2)) => {
                    let p2 = from(p + 1, q2);
                    match for_list_at(ts, p2, DeclaratorTree { pat, init }) {
                        Err(m) => Err(m),
                        Ok((s, q3)) => {
                            let p3 = after(p2, q3);
                            Ok((s, p3))
                        },
                    }
                },
            }
        }
    }
}

/// The rest of a `for` loop behind its first declarator.
#[verifier::opaque]
pub closed spec fn for_list_at(ts: Seq<TokenView>, p: int, d: DeclaratorTree) -> Result<(StmtTree, int), Seq<char>>
    decreases remaining(ts, p), 63int,
{
    for_list_body(ts, p, d)
}

#[verifier::opaque]
spec fn for_list_body(ts: Seq<TokenView>, p: int, d: DeclaratorTree) -> Result<(StmtTree, int), Seq<char>>
    decreases remaining(ts, p), 62int,
{
    match bare_declarator_at(ts, p, d) {
        Err(m) => Err(m),
        Ok((first, q1)) => {
            let p1 = from(p, q1);
            if punct_at(ts, p1, ","@) {
                match declarators_at(ts, p1 + 1, first) {
                    Err(m) => Err(m),
                    Ok((list, q2)) => {
                        let p2 = from(p1 + 1, q2);
                        if !punct_at(ts, p2, ";"@) {
                            Err(expected(ts, p2, ";"@))
                        } else {
                            match for_tail_at(ts, p2 + 1, StmtTree::Var(list, VarKind::Var)) {
                                Err(m) => Err(m),
                                Ok((s, q3)) => {
                                    let p3 = after(p2 + 1, q3);
                                    Ok((s, p3))
                                },
                            }
                        }
                    },
                }
            } else {
                if !punct_at(ts, p1, ";"@) {
                    Err(expected(ts, p1, ";"@))
                } else {
                    match for_tail_at(ts, p1 + 1, StmtTree::Var(first, VarKind::Var)) {
                        Err(m) => Err(m),
                        Ok((s, q4)) => {
                            let p4 = after(p1 + 1, q4);
                            Ok((s, p4))
                        },
                    }
                }
            }
        },
    }
}

/// The rest of a `for` loop behind `in`.
#[verifier::opaque]
pub closed spec fn for_in_at(ts: Seq<TokenView>, p: int, name: PatternTree) -> Result<(StmtTree, int), Seq<char>>
    decreases remaining(ts, p), 61int,
{
    for_in_body(ts, p, name)
}

#[verifier::opaque]
spec fn for_in_body(ts: Seq<TokenView>, p: int, name: PatternTree) -> Result<(StmtTree, int), Seq<char>>
    decreases remaining(ts, p), 60int,
{
    match expr_at(ts, p) {
        Err(m) => Err(m),
        Ok((expr, q1)) => {
            let p1 = after(p, q1);
            if !punct_at(ts, p1, ")"@) {
                Err(expected(ts, p1, ")"@))
            } else {
                match stmt_or_block_at(ts, p1 + 1) {
                    Err(m) => Err(m),
                    Ok((body, q2)) => {
                        let p2 = after(p1 + 1, q2);
                        Ok((StmtTree::ForIn { kind: VarKind::Var, name, expr, body }, p2))
                    },
                }
            }
        },
    }
}

/// The rest of a `for` loop that starts with an expression.
#[verifier::opaque]
pub closed spec fn for_expr_at(ts: Seq<TokenView>, p: int) -> Result<(StmtTree, int), Seq<char>>
    decreases remaining(ts, p), 63int,
{
    for_expr_body(ts, p)
}

#[verifier::opaque]
spec fn for_expr_body(ts: Seq<TokenView>, p: int) -> Result<(StmtTree, int), Seq<char>>
    decreases remaining(ts, p), 62int,
{
    match expr_at(ts, p) {
        Err(m) => Err(m),
        Ok((lhs, q1)) => {
            let p1 = after(p, q1);
            if kw_at(ts, p1, Kw::In) {
                match expr_at(ts, p1 + 1) {
                    Err(m) => Err(m),
                    Ok((expr, q2)) => {
                        let p2 = after(p1 + 1, q2);
                        if !punct_at(ts, p2, ")"@) {
                            Err(expected(ts, p2, ")"@))
                        } else {
                            match stmt_or_block_at(ts, p2 + 1) {
                                Err(m) => Err(m),
                                Ok((body, q3)) => {
                                    let p3 = after(p2 + 1, q3);
                                    match lhs {
                                        ExprTree::Ident(name) => {
                                            let pat = PatternTree::Ident(name);
                                            Ok((StmtTree::ForIn { kind: VarKind::Var, name: pat, expr, body }, p3))
                                        },
                                        _ => {
                                            Err("for-in target must be an identifier"@)
                                        },
                                    }
                                },
                            }
                        }
                    },
                }
            } else {
                if !punct_at(ts, p1, ";"@) {
                    Err(expected(ts, p1, ";"@))
                } else {
                    match for_tail_at(ts, p1 + 1, StmtTree::Expr(lhs)) {
                        Err(m) => Err(m),
                        Ok((s, q4)) => {
                            let p4 = after(p1 + 1, q4);
                            Ok((s, p4))
                        },
                    }
                }
            }
        },
    }
}

/// The rest of a `for` loop behind its first semicolon.
#[verifier::opaque]
pub closed spec fn for_tail_at(ts: Seq<TokenView>, p: int, init: StmtTree) -> Result<(StmtTree, int), Seq<char>>
    decreases remaining(ts, p), 61int,
{
    for_tail_body(ts, p, init)
}

#[verifier::opaque]
spec fn for_tail_body(ts: Seq<TokenView>, p: int, init: StmtTree) -> Result<(StmtTree, int), Seq<char>>
    decreases remaining(ts, p), 60int,
{
    match for_cond_at(ts, p) {
        Err(m) => Err(m),
        Ok((cond, q1)) => {
            let p1 = after(p, q1);
            match for_update_at(ts, p1) {
                Err(m) => Err(m),
                Ok((update, q2)) => {
                    let p2 = after(p1, q2);
                    match stmt_or_block_at(ts, p2) {
                        Err(m) => Err(m),
                        Ok((body, q3)) => {
                            let p3 = after(p2, q3);
                            Ok((StmtTree::For { init: Some(Box::new(init)), cond, update, body }, p3))
                        },
                    }
                },
            }
        },
    }
}

/// The condition of a `for` loop, with its semicolon.
#[verifier::opaque]
pub closed spec fn for_cond_at(ts: Seq<TokenView>, p: int) -> Result<(Option<ExprTree>, int), Seq<char>>
    decreases remaining(ts, p), 51int,
{
    for_cond_body(ts, p)
}

#[verifier::opaque]
spec fn for_cond_body(ts: Seq<TokenView>, p: int) -> Result<(Option<ExprTree>, int), Seq<char>>
    decreases remaining(ts, p), 50int,
{
    if punct_at(ts, p, ";"@) {
        Ok((None, p + 1))
    } else {
        match expr_at(ts, p) {
            Err(m) => Err(m),
            Ok((e, q1)) => {
                let p1 = after(p, q1);
                if !punct_at(ts, p1, ";"@) {
                    Err(expected(ts, p1, ";"@))
                } else {
                    Ok((Some(e), p1 + 1))
                }
            },
        }
    }
}

/// The update of a `for` loop, with the closing bracket.
#[verifier::opaque]
pub closed spec fn for_update_at(ts: Seq<TokenView>, p: int) -> Result<(Option<ExprTree>, int), Seq<char>>
    decreases remaining(ts, p), 51int,
{
    for_update_body(ts, p)
}

#[verifier::opaque]
spec fn for_update_body(ts: Seq<TokenView>, p: int) -> Result<(Option<ExprTree>, int), Seq<char>>
    decreases remaining(ts, p), 50int,
{
    if punct_at(ts, p, ")"@) {
        Ok((None, p + 1))
    } else {
        match expr_at(ts, p) {
            Err(m) => Err(m),
            Ok((e, q1)) => {
                let p1 = after(p, q1);
                if !punct_at(ts, p1, ")"@) {
                    Err(expected(ts, p1, ")"@))
                } else {
                    Ok((Some(e), p1 + 1))
                }
            },
        }
    }
}

/// The cases of a `switch` from a position on.
#[verifier::opaque]
pub closed spec fn cases_at(ts: Seq<TokenView>, p: int, list: Seq<SwitchCaseTree>) -> Result<(Seq<SwitchCaseTree>, int), Seq<char>>
    decreases remaining(ts, p), 63int,
{
    cases_body(ts, p, list)
}

#[verifier::opaque]
spec fn cases_body(ts: Seq<TokenView>, p: int, list: Seq<SwitchCaseTree>) -> Result<(Seq<SwitchCaseTree>, int), Seq<char>>
    decreases remaining(ts, p), 62int,
{
    if punct_at(ts, p, "}"@) || end_at(ts, p) {
        Ok((list, p))
    } else if kw_at(ts, p, Kw::Case) {
        match expr_at(ts, p + 1) {
            Err(m) => Err(m),
            Ok((e, q1)) => {
                let p1 = after(p + 1, q1);
                if !punct_at(ts, p1, ":"@) {
                    Err(expected(ts, p1, ":"@))
                } else {
                    match case_body_at(ts, p1 + 1, Seq::empty()) {
                        Err(m) => Err(m),
                        Ok((body, q2)) => {
                            let p2 = from(p1 + 1, q2);
                            cases_at(ts, p2, list.push(SwitchCaseTree { test: Some(e), body }))
                        },
                    }
                }
            },
        }
    } else if kw_at(ts, p, Kw::Default) {
        if !punct_at(ts, p + 1, ":"@) {
            Err(expected(ts, p + 1, ":"@))
        } else {
            match case_body_at(ts, p + 2, Seq::empty()) {
                Err(m) => Err(m),
                Ok((body, q3)) => {
                    let p3 = from(p + 2, q3);
                    cases_at(ts, p3, list.push(SwitchCaseTree { test: None, body }))
                },
            }
        }
    } else {
        Err("unexpected token in switch"@)
    }
}

/// The statements of a case from a position on.
#[verifier::opaque]
pub closed spec fn case_body_at(ts: Seq<TokenView>, p: int, list: Seq<StmtTree>) -> Result<(Seq<StmtTree>, int), Seq<char>>
    decreases remaining(ts, p), 61int,
{
    case_body_body(ts, p, list)
}

#[verifier::opaque]
spec fn case_body_body(ts: Seq<TokenView>, p: int, list: Seq<StmtTree>) -> Result<(Seq<StmtTree>, int), Seq<char>>
    decreases remaining(ts, p), 60int,
{
    if end_at(ts, p) || punct_at(ts, p, "}"@) || kw_at(ts, p, Kw::Case) || kw_at(ts, p, Kw::Default) {
        Ok((list, p))
    } else {
        match stmt_at(ts, p) {
            Err(m) => Err(m),
            Ok((s, q1)) => {
                let p1 = after(p, q1);
                case_body_at(ts, p1, list.push(s))
            },
        }
    }
}

/// The rest of a `switch`.
#[verifier::opaque]
pub closed spec fn switch_at(ts: Seq<TokenView>, p: int) -> Result<(StmtTree, int), Seq<char>>
    decreases remaining(ts, p), 59int,
{
    switch_body(ts, p)
}

#[verifier::opaque]
spec fn switch_body(ts: Seq<TokenView>, p: int) -> Result<(StmtTree, int), Seq<char>>
    decreases remaining(ts, p), 58int,
{
    if !punct_at(ts, p, "("@) {
        Err(expected(ts, p, "("@))
    } else {
        match expr_at(ts, p + 1) {
            Err(m) => Err(m),
            Ok((discriminant, q1)) => {
                let p1 = after(p + 1, q1);
                if !punct_at(ts, p1, ")"@) {
                    Err(expected(ts, p1, ")"@))
                } else if !punct_at(ts, p1 + 1, "{"@) {
                    Err(expected(ts, p1 + 1, "{"@))
                } else {
                    match cases_at(ts, p1 + 2, Seq::empty()) {
                        Err(m) => Err(m),
                        Ok((cases, q2)) => {
                            let p2 = from(p1 + 2, q2);
                            if !punct_at(ts, p2, "}"@) {
                                Err(expected(ts, p2, "}"@))
                            } else {
                                Ok((StmtTree::Switch { discriminant, cases }, p2 + 1))
                            }
                        },
                    }
                }
            },
        }
    }
}

/// The `catch` clause, which may be missing.
#[verifier::opaque]
pub closed spec fn catch_part_at(ts: Seq<TokenView>, p: int) -> Result<(Option<CatchClauseTree>, int), Seq<char>>
    decreases remaining(ts, p), 57int,
{
    catch_part_body(ts, p)
}

#[verifier::opaque]
spec fn catch_part_body(ts: Seq<TokenView>, p: int) -> Result<(Option<CatchClauseTree>, int), Seq<char>>
    decreases remaining(ts, p), 56int,
{
    if kw_at(ts, p, Kw::Catch) {
        if !punct_at(ts, p + 1, "("@) {
            Err(expected(ts, p + 1, "("@))
        } else if !kind_at(ts, p + 2, TokenKind::Ident) {
            Err("expected identifier"@)
        } else {
            let name = ts[p + 2].text;
            if !punct_at(ts, p + 2 + 1, ")"@) {
                Err(expected(ts, p + 2 + 1, ")"@))
            } else {
                match block_stmts_at(ts, p + 2 + 2) {
                    Err(m) => Err(m),
                    Ok((body, q1)) => {
                        let p1 = after(p + 2 + 2, q1);
                        Ok((Some(CatchClauseTree { name, body }), p1))
                    },
                }
            }
        }
    } else {
        Ok((None, p))
    }
}

/// The `finally` block, which may be missing.
#[verifier::opaque]
pub closed spec fn finally_part_at(ts: Seq<TokenView>, p: int) -> Result<(Option<Seq<StmtTree>>, int), Seq<char>>
    decreases remaining(ts, p), 57int,
{
    finally_part_body(ts, p)
}

#[verifier::opaque]
spec fn finally_part_body(ts: Seq<TokenView>, p: int) -> Result<(Option<Seq<StmtTree>>, int), Seq<char>>
    decreases remaining(ts, p), 56int,
{
    if kw_at(ts, p, Kw::Finally) {
        match block_stmts_at(ts, p + 1) {
            Err(m) => Err(m),
            Ok((list, q1)) => {
                let p1 = after(p + 1, q1);
                Ok((Some(list), p1))
            },
        }
    } else {
        Ok((None, p))
    }
}

/// The rest of a `try`.
#[verifier::opaque]
pub closed spec fn try_at(ts: Seq<TokenView>, p: int) -> Result<(StmtTree, int), Seq<char>>
    decreases remaining(ts, p), 59int,
{
    try_body(ts, p)
}

#[verifier::opaque]
spec fn try_body(ts: Seq<TokenView>, p: int) -> Result<(StmtTree, int), Seq<char>>
    decreases remaining(ts, p), 58int,
{
    match block_stmts_at(ts, p) {
        Err(m) => Err(m),
        Ok((try_block, q1)) => {
            let p1 = after(p, q1);
            match catch_part_at(ts, p1) {
                Err(m) => Err(m),
                Ok((catch, q2)) => {
                    let p2 = from(p1, q2);
                    match finally_part_at(ts, p2) {
                        Err(m) => Err(m),
                        Ok((finally, q3)) => {
                            let p3 = from(p2, q3);
                            Ok((StmtTree::Try { try_block, catch, finally }, p3))
                        },
                    }
                },
            }
        },
    }
}

/// An expression.
#[verifier::opaque]
pub closed spec fn expr_at(ts: Seq<TokenView>, p: int) -> Result<(ExprTree, int), Seq<char>>
    decreases remaining(ts, p), 49int,
{
    expr_body(ts, p)
}

#[verifier::opaque]
spec fn expr_body(ts: Seq<TokenView>, p: int) -> Result<(ExprTree, int), Seq<char>>
    decreases remaining(ts, p), 48int,
{
    match assignment_at(ts, p) {
        Err(m) => Err(m),
        Ok((e, q1)) => {
            let p1 = after(p, q1);
            Ok((e, p1))
        },
    }
}

/// An assignment, or what binds tighter. A compound assignment reads its target too.
#[verifier::opaque]
pub closed spec fn assignment_at(ts: Seq<TokenView>, p: int) -> Result<(ExprTree, int), Seq<char>>
    decreases remaining(ts, p), 47int,
{
    assignment_body(ts, p)
}

#[verifier::opaque]
spec fn assignment_body(ts: Seq<TokenView>, p: int) -> Result<(ExprTree, int), Seq<char>>
    decreases remaining(ts, p), 46int,
{
    match ternary_at(ts, p) {
        Err(m) => Err(m),
        Ok((lhs, q1)) => {
            let p1 = after(p, q1);
            if punct_at(ts, p1, "="@) {
                match assignment_at(ts, p1 + 1) {
                    Err(m) => Err(m),
                    Ok((v, q2)) => {
                        let p2 = after(p1 + 1, q2);
                        let target = AssignTargetTree::Expr(Box::new(lhs));
                        Ok((ExprTree::Assignment { target, value: Box::new(v) }, p2))
                    },
                }
            } else {
                match assign_op(ts, p1) {
                    Some(op) => {
                        match assignment_at(ts, p1 + 1) {
                            Err(m) => Err(m),
                            Ok((v, q3)) => {
                                let p3 = after(p1 + 1, q3);
                                let left = lhs;
                                let target = AssignTargetTree::Expr(Box::new(lhs));
                                let value = ExprTree::Binary { op, left: Box::new(left), right: Box::new(v) };
                                Ok((ExprTree::Assignment { target, value: Box::new(value) }, p3))
                            },
                        }
                    },
                    None => {
                        Ok((lhs, p1))
                    },
                }
            }
        },
    }
}

/// A conditional expression, or what binds tighter.
#[verifier::opaque]
pub closed spec fn ternary_at(ts: Seq<TokenView>, p: int) -> Result<(ExprTree, int), Seq<char>>
    decreases remaining(ts, p), 45int,
{
    ternary_body(ts, p)
}

#[verifier::opaque]
spec fn ternary_body(ts: Seq<TokenView>, p: int) -> Result<(ExprTree, int), Seq<char>>
    decreases remaining(ts, p), 44int,
{
    match logical_at(ts, p) {
        Err(m) => Err(m),
        Ok((cond, q1)) => {
            let p1 = after(p, q1);
            if punct_at(ts, p1, "?"@) {
                match assignment_at(ts, p1 + 1) {
                    Err(m) => Err(m),
                    Ok((yes, q2)) => {
                        let p2 = after(p1 + 1, q2);
                        if !punct_at(ts, p2, ":"@) {
                            Err(expected(ts, p2, ":"@))
                        } else {
                            match assignment_at(ts, p2 + 1) {
                                Err(m) => Err(m),
                                Ok((no, q3)) => {
                                    let p3 = after(p2 + 1, q3);
                                    Ok((ExprTree::Ternary { cond: Box::new(cond), yes: Box::new(yes), no: Box::new(no) }, p3))
                                },
                            }
                        }
                    },
                }
            } else {
                Ok((cond, p1))
            }
        },
    }
}

/// The operands of `&&` and `||` from a position on, to the right of `left`.
#[verifier::opaque]
pub closed spec fn logical_rest_at(ts: Seq<TokenView>, p: int, left: ExprTree) -> Result<(ExprTree, int), Seq<char>>
    decreases remaining(ts, p), 41int,
{
    logical_rest_body(ts, p, left)
}

#[verifier::opaque]
spec fn logical_rest_body(ts: Seq<TokenView>, p: int, left: ExprTree) -> Result<(ExprTree, int), Seq<char>>
    decreases remaining(ts, p), 40int,
{
    match logical_op(ts, p) {
        Some(op) => {
            match equality_at(ts, p + 1) {
                Err(m) => Err(m),
                Ok((right, q1)) => {
                    let p1 = after(p + 1, q1);
                    logical_rest_at(ts, p1, ExprTree::Logical { op, left: Box::new(left), right: Box::new(right) })
                },
            }
        },
        None => {
            Ok((left, p))
        },
    }
}

/// A logical expression, or what binds tighter: `&&` and `||` bind alike.
#[verifier::opaque]
pub closed spec fn logical_at(ts: Seq<TokenView>, p: int) -> Result<(ExprTree, int), Seq<char>>
    decreases remaining(ts, p), 43int,
{
    logical_body(ts, p)
}

#[verifier::opaque]
spec fn logical_body(ts: Seq<TokenView>, p: int) -> Result<(ExprTree, int), Seq<char>>
    decreases remaining(ts, p), 42int,
{
    match equality_at(ts, p) {
        Err(m) => Err(m),
        Ok((first, q1)) => {
            let p1 = after(p, q1);
            match logical_rest_at(ts, p1, first) {
                Err(m) => Err(m),
                Ok((e, q2)) => {
                    let p2 = from(p1, q2);
                    Ok((e, p2))
                },
            }
        },
    }
}

/// The operands of equality tests from a position on, to the right of `left`.
#[verifier::opaque]
pub closed spec fn equality_rest_at(ts: Seq<TokenView>, p: int, left: ExprTree) -> Result<(ExprTree, int), Seq<char>>
    decreases remaining(ts, p), 37int,
{
    equality_rest_body(ts, p, left)
}

#[verifier::opaque]
spec fn equality_rest_body(ts: Seq<TokenView>, p: int, left: ExprTree) -> Result<(ExprTree, int), Seq<char>>
    decreases remaining(ts, p), 36int,
{
    match equality_op(ts, p) {
        Some(op) => {
            match relational_at(ts, p + 1) {
                Err(m) => Err(m),
                Ok((right, q1)) => {
                    let p1 = after(p + 1, q1);
                    equality_rest_at(ts, p1, ExprTree::Binary { op, left: Box::new(left), right: Box::new(right) })
                },
            }
        },
        None => {
            Ok((left, p))
        },
    }
}

/// An equality test, or what binds tighter.
#[verifier::opaque]
pub closed spec fn equality_at(ts: Seq<TokenView>, p: int) -> Result<(ExprTree, int), Seq<char>>
    decreases remaining(ts, p), 39int,
{
    equality_body(ts, p)
}

#[verifier::opaque]
spec fn equality_body(ts: Seq<TokenView>, p: int) -> Result<(ExprTree, int), Seq<char>>
    decreases remaining(ts, p), 38int,
{
    match relational_at(ts, p) {
        Err(m) => Err(m),
        Ok((first, q1)) => {
            let p1 = after(p, q1);
            match equality_rest_at(ts, p1, first) {
                Err(m) => Err(m),
                Ok((e, q2)) => {
                    let p2 = from(p1, q2);
                    Ok((e, p2))
                },
            }
        },
    }
}

/// The operands of comparisons from a position on, to the right of `left`.
#[verifier::opaque]
pub closed spec fn relational_rest_at(ts: Seq<TokenView>, p: int, left: ExprTree) -> Result<(ExprTree, int), Seq<char>>
    decreases remaining(ts, p), 33int,
{
    relational_rest_body(ts, p, left)
}

#[verifier::opaque]
spec fn relational_rest_body(ts: Seq<TokenView>, p: int, left: ExprTree) -> Result<(ExprTree, int), Seq<char>>
    decreases remaining(ts, p), 32int,
{
    if kw_at(ts, p, Kw::Instanceof) {
        match additive_at(ts, p + 1) {
            Err(m) => Err(m),
            Ok((right, q1)) => {
                let p1 = after(p + 1, q1);
                relational_rest_at(ts, p1, ExprTree::InstanceOf { left: Box::new(left), right: Box::new(right) })
            },
        }
    } else {
        match relational_op(ts, p) {
            Some(op) => {
                match additive_at(ts, p + 1) {
                    Err(m) => Err(m),
                    Ok((right, q2)) => {
                        let p2 = after(p + 1, q2);
                        relational_rest_at(ts, p2, ExprTree::Binary { op, left: Box::new(left), right: Box::new(right) })
                    },
                }
            },
            None => {
                Ok((left, p))
            },
        }
    }
}

/// A comparison, or what binds tighter.
#[verifier::opaque]
pub closed spec fn relational_at(ts: Seq<TokenView>, p: int) -> Result<(ExprTree, int), Seq<char>>
    decreases remaining(ts, p), 35int,
{
    relational_body(ts, p)
}

#[verifier::opaque]
spec fn relational_body(ts: Seq<TokenView>, p: int) -> Result<(ExprTree, int), Seq<char>>
    decreases remaining(ts, p), 34int,
{
    match additive_at(ts, p) {
        Err(m) => Err(m),
        Ok((first, q1)) => {
            let p1 = after(p, q1);
            match relational_rest_at(ts, p1, first) {
                Err(m) => Err(m),
                Ok((e, q2)) => {
                    let p2 = from(p1, q2);
                    Ok((e, p2))
                },
            }
        },
    }
}

/// The operands of `+` and `-` from a position on, to the right of `left`.
#[verifier::opaque]
pub closed spec fn additive_rest_at(ts: Seq<TokenView>, p: int, left: ExprTree) -> Result<(ExprTree, int), Seq<char>>
    decreases remaining(ts, p), 29int,
{
    additive_rest_body(ts, p, left)
}

#[verifier::opaque]
spec fn additive_rest_body(ts: Seq<TokenView>, p: int, left: ExprTree) -> Result<(ExprTree, int), Seq<char>>
    decreases remaining(ts, p), 28int,
{
    match additive_op(ts, p) {
        Some(op) => {
            match multiplicative_at(ts, p + 1) {
                Err(m) => Err(m),
                Ok((right, q1)) => {
                    let p1 = after(p + 1, q1);
                    additive_rest_at(ts, p1, ExprTree::Binary { op, left: Box::new(left), right: Box::new(right) })
                },
            }
        },
        None => {
            Ok((left, p))
        },
    }
}

/// A sum, or what binds tighter.
#[verifier::opaque]
pub closed spec fn additive_at(ts: Seq<TokenView>, p: int) -> Result<(ExprTree, int), Seq<char>>
    decreases remaining(ts, p), 31int,
{
    additive_body(ts, p)
}

#[verifier::opaque]
spec fn additive_body(ts: Seq<TokenView>, p: int) -> Result<(ExprTree, int), Seq<char>>
    decreases remaining(ts, p), 30int,
{
    match multiplicative_at(ts, p) {
        Err(m) => Err(m),
        Ok((first, q1)) => {
            let p1 = after(p, q1);
            match additive_rest_at(ts, p1, first) {
                Err(m) => Err(m),
                Ok((e, q2)) => {
                    let p2 = from(p1, q2);
                    Ok((e, p2))
                },
            }
        },
    }
}

/// The operands of `*`, `/` and `%` from a position on, to the right of `left`.
#[verifier::opaque]
pub closed spec fn multiplicative_rest_at(ts: Seq<TokenView>, p: int, left: ExprTree) -> Result<(ExprTree, int), Seq<char>>
    decreases remaining(ts, p), 25int,
{
    multiplicative_rest_body(ts, p, left)
}

#[verifier::opaque]
spec fn multiplicative_rest_body(ts: Seq<TokenView>, p: int, left: ExprTree) -> Result<(ExprTree, int), Seq<char>>
    decreases remaining(ts, p), 24int,
{
    match multiplicative_op(ts, p) {
        Some(op) => {
            match unary_at(ts, p + 1) {
                Err(m) => Err(m),
                Ok((right, q1)) => {
                    let p1 = after(p + 1, q1);
                    multiplicative_rest_at(ts, p1, ExprTree::Binary { op, left: Box::new(left), right: Box::new(right) })
                },
            }
        },
        None => {
            Ok((left, p))
        },
    }
}

/// A product, or what binds tighter.
#[verifier::opaque]
pub closed spec fn multiplicative_at(ts: Seq<TokenView>, p: int) -> Result<(ExprTree, int), Seq<char>>
    decreases remaining(ts, p), 27int,
{
    multiplicative_body(ts, p)
}

#[verifier::opaque]
spec fn multiplicative_body(ts: Seq<TokenView>, p: int) -> Result<(ExprTree, int), Seq<char>>
    decreases remaining(ts, p), 26int,
{
    match unary_at(ts, p) {
        Err(m) => Err(m),
        Ok((first, q1)) => {
            let p1 = after(p, q1);
            match multiplicative_rest_at(ts, p1, first) {
                Err(m) => Err(m),
                Ok((e, q2)) => {
                    let p2 = from(p1, q2);
                    Ok((e, p2))
                },
            }
        },
    }
}

/// A prefix operator, or what binds tighter.
#[verifier::opaque]
pub closed spec fn unary_at(ts: Seq<TokenView>, p: int) -> Result<(ExprTree, int), Seq<char>>
    decreases remaining(ts, p), 23int,
{
    unary_body(ts, p)
}

#[verifier::opaque]
spec fn unary_body(ts: Seq<TokenView>, p: int) -> Result<(ExprTree, int), Seq<char>>
    decreases remaining(ts, p), 22int,
{
    match prefix_op(ts, p) {
        Some(op) => {
            match unary_at(ts, p + 1) {
                Err(m) => Err(m),
                Ok((operand, q1)) => {
                    let p1 = after(p + 1, q1);
                    Ok((ExprTree::Unary { op, operand: Box::new(operand) }, p1))
                },
            }
        },
        None => {
            match postfix_at(ts, p) {
                Err(m) => Err(m),
                Ok((e, q2)) => {
                    let p2 = after(p, q2);
                    Ok((e, p2))
                },
            }
        },
    }
}

/// What follows an operand from a position on: members, calls, `++` and `--`.
#[verifier::opaque]
pub closed spec fn postfix_rest_at(ts: Seq<TokenView>, p: int, node: ExprTree) -> Result<(ExprTree, int), Seq<char>>
    decreases remaining(ts, p), 19int,
{
    postfix_rest_body(ts, p, node)
}

#[verifier::opaque]
spec fn postfix_rest_body(ts: Seq<TokenView>, p: int, node: ExprTree) -> Result<(ExprTree, int), Seq<char>>
    decreases remaining(ts, p), 18int,
{
    if punct_at(ts, p, "."@) {
        if !kind_at(ts, p + 1, TokenKind::Ident) {
            Err("expected identifier"@)
        } else {
            let prop = ts[p + 1].text;
            postfix_rest_at(ts, p + 2, ExprTree::Member { obj: Box::new(node), prop, computed: None, optional: false })
        }
    } else if punct_at(ts, p, "["@) {
        match index_at(ts, p + 1, node) {
            Err(m) => Err(m),
            Ok((e, q1)) => {
                let p1 = after(p + 1, q1);
                postfix_rest_at(ts, p1, e)
            },
        }
    } else if punct_at(ts, p, "("@) {
        match call_at(ts, p + 1, node) {
            Err(m) => Err(m),
            Ok((e, q2)) => {
                let p2 = after(p + 1, q2);
                postfix_rest_at(ts, p2, e)
            },
        }
    } else {
        match postfix_op(ts, p) {
            Some(op) => {
                postfix_rest_at(ts, p + 1, ExprTree::Unary { op, operand: Box::new(node) })
            },
            None => {
                Ok((node, p))
            },
        }
    }
}

/// The rest of a computed member.
#[verifier::opaque]
pub closed spec fn index_at(ts: Seq<TokenView>, p: int, obj: ExprTree) -> Result<(ExprTree, int), Seq<char>>
    decreases remaining(ts, p), 59int,
{
    index_body(ts, p, obj)
}

#[verifier::opaque]
spec fn index_body(ts: Seq<TokenView>, p: int, obj: ExprTree) -> Result<(ExprTree, int), Seq<char>>
    decreases remaining(ts, p), 58int,
{
    match expr_at(ts, p) {
        Err(m) => Err(m),
        Ok((index, q1)) => {
            let p1 = after(p, q1);
            if !punct_at(ts, p1, "]"@) {
                Err(expected(ts, p1, "]"@))
            } else {
                Ok((ExprTree::Member { obj: Box::new(obj), prop: ""@, computed: Some(Box::new(index)), optional: false }, p1 + 1))
            }
        },
    }
}

/// The rest of a call.
#[verifier::opaque]
pub closed spec fn call_at(ts: Seq<TokenView>, p: int, callee: ExprTree) -> Result<(ExprTree, int), Seq<char>>
    decreases remaining(ts, p), 61int,
{
    call_body(ts, p, callee)
}

#[verifier::opaque]
spec fn call_body(ts: Seq<TokenView>, p: int, callee: ExprTree) -> Result<(ExprTree, int), Seq<char>>
    decreases remaining(ts, p), 60int,
{
    match args_at(ts, p) {
        Err(m) => Err(m),
        Ok((args, q1)) => {
            let p1 = after(p, q1);
            Ok((ExprTree::Call { callee: Box::new(callee), args, optional: false }, p1))
        },
    }
}

/// An operand with what follows it.
#[verifier::opaque]
pub closed spec fn postfix_at(ts: Seq<TokenView>, p: int) -> Result<(ExprTree, int), Seq<char>>
    decreases remaining(ts, p), 21int,
{
    postfix_body(ts, p)
}

#[verifier::opaque]
spec fn postfix_body(ts: Seq<TokenView>, p: int) -> Result<(ExprTree, int), Seq<char>>
    decreases remaining(ts, p), 20int,
{
    match primary_at(ts, p) {
        Err(m) => Err(m),
        Ok((first, q1)) => {
            let p1 = after(p, q1);
            match postfix_rest_at(ts, p1, first) {
                Err(m) => Err(m),
                Ok((e, q2)) => {
                    let p2 = from(p1, q2);
                    Ok((e, p2))
                },
            }
        },
    }
}

/// Arguments from a position on.
#[verifier::opaque]
pub closed spec fn arg_list_at(ts: Seq<TokenView>, p: int, list: Seq<ArgTree>) -> Result<(Seq<ArgTree>, int), Seq<char>>
    decreases remaining(ts, p), 57int,
{
    arg_list_body(ts, p, list)
}

#[verifier::opaque]
spec fn arg_list_body(ts: Seq<TokenView>, p: int, list: Seq<ArgTree>) -> Result<(Seq<ArgTree>, int), Seq<char>>
    decreases remaining(ts, p), 56int,
{
    match expr_at(ts, p) {
        Err(m) => Err(m),
        Ok((e, q1)) => {
            let p1 = after(p, q1);
            if punct_at(ts, p1, ","@) {
                arg_list_at(ts, p1 + 1, list.push(ArgTree::Expr(e)))
            } else {
                Ok((list.push(ArgTree::Expr(e)), p1))
            }
        },
    }
}

/// Arguments and the closing bracket.
#[verifier::opaque]
pub closed spec fn args_at(ts: Seq<TokenView>, p: int) -> Result<(Seq<ArgTree>, int), Seq<char>>
    decreases remaining(ts, p), 59int,
{
    args_body(ts, p)
}

#[verifier::opaque]
spec fn args_body(ts: Seq<TokenView>, p: int) -> Result<(Seq<ArgTree>, int), Seq<char>>
    decreases remaining(ts, p), 58int,
{
    if punct_at(ts, p, ")"@) {
        Ok((Seq::empty(), p + 1))
    } else {
        match arg_list_at(ts, p, Seq::empty()) {
            Err(m) => Err(m),
            Ok((list, q1)) => {
                let p1 = from(p, q1);
                if !punct_at(ts, p1, ")"@) {
                    Err(expected(ts, p1, ")"@))
                } else {
                    Ok((list, p1 + 1))
                }
            },
        }
    }
}

/// An operand.
#[verifier::opaque]
pub closed spec fn primary_at(ts: Seq<TokenView>, p: int) -> Result<(ExprTree, int), Seq<char>>
    decreases remaining(ts, p), 19int,
{
    primary_body(ts, p)
}

#[verifier::opaque]
spec fn primary_body(ts: Seq<TokenView>, p: int) -> Result<(ExprTree, int), Seq<char>>
    decreases remaining(ts, p), 18int,
{
    if kind_at(ts, p, TokenKind::Number) {
        let t = number_text(ts[p].text);
        Ok((ExprTree::Lit(LitTree::Number(t)), p + 1))
    } else if kind_at(ts, p, TokenKind::Str) {
        let t = ts[p].text;
        Ok((ExprTree::Lit(LitTree::Str(t)), p + 1))
    } else if kw_at(ts, p, Kw::True) {
        Ok((ExprTree::Lit(LitTree::Bool(true)), p + 1))
    } else if kw_at(ts, p, Kw::False) {
        Ok((ExprTree::Lit(LitTree::Bool(false)), p + 1))
    } else if kw_at(ts, p, Kw::Undefined) {
        Ok((ExprTree::Lit(LitTree::Undefined), p + 1))
    } else if kw_at(ts, p, Kw::Null) {
        Ok((ExprTree::Lit(LitTree::Null), p + 1))
    } else if kw_at(ts, p, Kw::This) {
        Ok((ExprTree::This, p + 1))
    } else if kw_at(ts, p, Kw::Function) {
        match function_expr_at(ts, p + 1) {
            Err(m) => Err(m),
            Ok((e, q1)) => {
                let p1 = after(p + 1, q1);
                Ok((e, p1))
            },
        }
    } else if kw_at(ts, p, Kw::New) {
        match new_rest_at(ts, p + 1) {
            Err(m) => Err(m),
            Ok((e, q2)) => {
                let p2 = after(p + 1, q2);
                Ok((e, p2))
            },
        }
    } else if kind_at(ts, p, TokenKind::Ident) {
        let t = ts[p].text;
        Ok((ExprTree::Ident(t), p + 1))
    } else if punct_at(ts, p, "("@) {
        match expr_at(ts, p + 1) {
            Err(m) => Err(m),
            Ok((e, q3)) => {
                let p3 = after(p + 1, q3);
                if !punct_at(ts, p3, ")"@) {
                    Err(expected(ts, p3, ")"@))
                } else {
                    Ok((e, p3 + 1))
                }
            },
        }
    } else if punct_at(ts, p, "["@) {
        match array_at(ts, p + 1) {
            Err(m) => Err(m),
            Ok((e, q4)) => {
                let p4 = after(p + 1, q4);
                Ok((e, p4))
            },
        }
    } else if punct_at(ts, p, "{"@) {
        match object_at(ts, p + 1) {
            Err(m) => Err(m),
            Ok((e, q5)) => {
                let p5 = after(p + 1, q5);
                Ok((e, p5))
            },
        }
    } else {
        Err(unexpected(ts, p))
    }
}

/// The rest of a function expression; its name is passed over.
#[verifier::opaque]
pub closed spec fn function_expr_at(ts: Seq<TokenView>, p: int) -> Result<(ExprTree, int), Seq<char>>
    decreases remaining(ts, p), 19int,
{
    function_expr_body(ts, p)
}

#[verifier::opaque]
spec fn function_expr_body(ts: Seq<TokenView>, p: int) -> Result<(ExprTree, int), Seq<char>>
    decreases remaining(ts, p), 18int,
{
    if kind_at(ts, p, TokenKind::Ident) {
        match params_at(ts, p + 1) {
            Err(m) => Err(m),
            Ok((params, q1)) => {
                let p1 = after(p + 1, q1);
                match block_stmts_at(ts, p1) {
                    Err(m) => Err(m),
                    Ok((body, q2)) => {
                        let p2 = after(p1, q2);
                        Ok((ExprTree::Function { name: None, params, body }, p2))
                    },
                }
            },
        }
    } else {
        match params_at(ts, p) {
            Err(m) => Err(m),
            Ok((params, q3)) => {
                let p3 = after(p, q3);
                match block_stmts_at(ts, p3) {
                    Err(m) => Err(m),
                    Ok((body, q4)) => {
                        let p4 = after(p3, q4);
                        Ok((ExprTree::Function { name: None, params, body }, p4))
                    },
                }
            },
        }
    }
}

/// The arguments of `new`, which may be missing.
#[verifier::opaque]
pub closed spec fn new_args_at(ts: Seq<TokenView>, p: int) -> Result<(Seq<ArgTree>, int), Seq<char>>
    decreases remaining(ts, p), 17int,
{
    new_args_body(ts, p)
}

#[verifier::opaque]
spec fn new_args_body(ts: Seq<TokenView>, p: int) -> Result<(Seq<ArgTree>, int), Seq<char>>
    decreases remaining(ts, p), 16int,
{
    if punct_at(ts, p, "("@) {
        match args_at(ts, p + 1) {
            Err(m) => Err(m),
            Ok((list, q1)) => {
                let p1 = after(p + 1, q1);
                Ok((list, p1))
            },
        }
    } else {
        Ok((Seq::empty(), p))
    }
}

/// The rest of a `new`.
#[verifier::opaque]
pub closed spec fn new_rest_at(ts: Seq<TokenView>, p: int) -> Result<(ExprTree, int), Seq<char>>
    decreases remaining(ts, p), 21int,
{
    new_rest_body(ts, p)
}

#[verifier::opaque]
spec fn new_rest_body(ts: Seq<TokenView>, p: int) -> Result<(ExprTree, int), Seq<char>>
    decreases remaining(ts, p), 20int,
{
    match primary_at(ts, p) {
        Err(m) => Err(m),
        Ok((callee, q1)) => {
            let p1 = after(p, q1);
            match new_args_at(ts, p1) {
                Err(m) => Err(m),
                Ok((args, q2)) => {
                    let p2 = from(p1, q2);
                    Ok((ExprTree::New { callee: Box::new(callee), args }, p2))
                },
            }
        },
    }
}

/// Array elements from a position on.
#[verifier::opaque]
pub closed spec fn elem_list_at(ts: Seq<TokenView>, p: int, list: Seq<ArrayElemTree>) -> Result<(Seq<ArrayElemTree>, int), Seq<char>>
    decreases remaining(ts, p), 57int,
{
    elem_list_body(ts, p, list)
}

#[verifier::opaque]
spec fn elem_list_body(ts: Seq<TokenView>, p: int, list: Seq<ArrayElemTree>) -> Result<(Seq<ArrayElemTree>, int), Seq<char>>
    decreases remaining(ts, p), 56int,
{
    match expr_at(ts, p) {
        Err(m) => Err(m),
        Ok((e, q1)) => {
            let p1 = after(p, q1);
            if punct_at(ts, p1, ","@) {
                elem_list_at(ts, p1 + 1, list.push(ArrayElemTree::Expr(e)))
            } else {
                Ok((list.push(ArrayElemTree::Expr(e)), p1))
            }
        },
    }
}

/// The rest of an array literal.
#[verifier::opaque]
pub closed spec fn array_at(ts: Seq<TokenView>, p: int) -> Result<(ExprTree, int), Seq<char>>
    decreases remaining(ts, p), 59int,
{
    array_body(ts, p)
}

#[verifier::opaque]
spec fn array_body(ts: Seq<TokenView>, p: int) -> Result<(ExprTree, int), Seq<char>>
    decreases remaining(ts, p), 58int,
{
    if punct_at(ts, p, "]"@) {
        match no_elems_at(ts, p + 1) {
            Err(m) => Err(m),
            Ok((list, q1)) => {
                let p1 = from(p + 1, q1);
                Ok((ExprTree::Array(list), p1))
            },
        }
    } else {
        match elem_list_at(ts, p, Seq::empty()) {
            Err(m) => Err(m),
            Ok((list, q2)) => {
                let p2 = from(p, q2);
                if !punct_at(ts, p2, "]"@) {
                    Err(expected(ts, p2, "]"@))
                } else {
                    Ok((ExprTree::Array(list), p2 + 1))
                }
            },
        }
    }
}

/// No elements.
#[verifier::opaque]
pub closed spec fn no_elems_at(ts: Seq<TokenView>, p: int) -> Result<(Seq<ArrayElemTree>, int), Seq<char>>
    decreases remaining(ts, p), 3int,
{
    no_elems_body(ts, p)
}

#[verifier::opaque]
spec fn no_elems_body(ts: Seq<TokenView>, p: int) -> Result<(Seq<ArrayElemTree>, int), Seq<char>>
    decreases remaining(ts, p), 2int,
{
    Ok((Seq::empty(), p))
}

/// The properties of an object literal from a position on, with commas between them and
/// perhaps one behind the last.
#[verifier::opaque]
pub closed spec fn prop_list_at(ts: Seq<TokenView>, p: int, list: Seq<PropTree>) -> Result<(Seq<PropTree>, int), Seq<char>>
    decreases remaining(ts, p), 57int,
{
    prop_list_body(ts, p, list)
}

#[verifier::opaque]
spec fn prop_list_body(ts: Seq<TokenView>, p: int, list: Seq<PropTree>) -> Result<(Seq<PropTree>, int), Seq<char>>
    decreases remaining(ts, p), 56int,
{
    if punct_at(ts, p, "}"@) || end_at(ts, p) {
        Ok((list, p))
    } else {
        match prop_at(ts, p) {
            Err(m) => Err(m),
            Ok((p0, q1)) => {
                let p1 = after(p, q1);
                if punct_at(ts, p1, ","@) {
                    prop_list_at(ts, p1 + 1, list.push(p0))
                } else {
                    Ok((list.push(p0), p1))
                }
            },
        }
    }
}

/// A property of an object literal. `get` and `set` are keys too.
#[verifier::opaque]
pub closed spec fn prop_at(ts: Seq<TokenView>, p: int) -> Result<(PropTree, int), Seq<char>>
    decreases remaining(ts, p), 55int,
{
    prop_body(ts, p)
}

#[verifier::opaque]
spec fn prop_body(ts: Seq<TokenView>, p: int) -> Result<(PropTree, int), Seq<char>>
    decreases remaining(ts, p), 54int,
{
    if kind_at(ts, p, TokenKind::Ident) && text_at(ts, p, "get"@) {
        let t = ts[p].text;
        if punct_at(ts, p + 1, ":"@) || punct_at(ts, p + 1, "("@) {
            let key = PropKeyTree::Ident(t);
            match prop_rest_at(ts, p + 1, key) {
                Err(m) => Err(m),
                Ok((p0, q1)) => {
                    let p1 = after(p + 1, q1);
                    Ok((p0, p1))
                },
            }
        } else {
            match getter_at(ts, p + 1) {
                Err(m) => Err(m),
                Ok((p0, q2)) => {
                    let p2 = after(p + 1, q2);
                    Ok((p0, p2))
                },
            }
        }
    } else if kind_at(ts, p, TokenKind::Ident) && text_at(ts, p, "set"@) {
        let t = ts[p].text;
        if punct_at(ts, p + 1, ":"@) || punct_at(ts, p + 1, "("@) {
            let key = PropKeyTree::Ident(t);
            match prop_rest_at(ts, p + 1, key) {
                Err(m) => Err(m),
                Ok((p0, q3)) => {
                    let p3 = after(p + 1, q3);
                    Ok((p0, p3))
                },
            }
        } else {
            match setter_at(ts, p + 1) {
                Err(m) => Err(m),
                Ok((p0, q4)) => {
                    let p4 = after(p + 1, q4);
                    Ok((p0, p4))
                },
            }
        }
    } else {
        match prop_key_at(ts, p) {
            Err(m) => Err(m),
            Ok((key, q5)) => {
                let p5 = after(p, q5);
                match prop_rest_at(ts, p5, key) {
                    Err(m) => Err(m),
                    Ok((p0, q6)) => {
                        let p6 = after(p5, q6);
                        Ok((p0, p6))
                    },
                }
            },
        }
    }
}

/// The rest of a property behind its key.
#[verifier::opaque]
pub closed spec fn prop_rest_at(ts: Seq<TokenView>, p: int, key: PropKeyTree) -> Result<(PropTree, int), Seq<char>>
    decreases remaining(ts, p), 51int,
{
    prop_rest_body(ts, p, key)
}

#[verifier::opaque]
spec fn prop_rest_body(ts: Seq<TokenView>, p: int, key: PropKeyTree) -> Result<(PropTree, int), Seq<char>>
    decreases remaining(ts, p), 50int,
{
    if punct_at(ts, p, "("@) {
        match params_at(ts, p) {
            Err(m) => Err(m),
            Ok((params, q1)) => {
                let p1 = after(p, q1);
                match block_stmts_at(ts, p1) {
                    Err(m) => Err(m),
                    Ok((body, q2)) => {
                        let p2 = after(p1, q2);
                        Ok((PropTree::Method { key, params, body }, p2))
                    },
                }
            },
        }
    } else if !punct_at(ts, p, ":"@) {
        Err(expected(ts, p, ":"@))
    } else {
        match expr_at(ts, p + 1) {
            Err(m) => Err(m),
            Ok((value, q3)) => {
                let p3 = after(p + 1, q3);
                Ok((PropTree::Init { key, value }, p3))
            },
        }
    }
}

/// The rest of a getter.
#[verifier::opaque]
pub closed spec fn getter_at(ts: Seq<TokenView>, p: int) -> Result<(PropTree, int), Seq<char>>
    decreases remaining(ts, p), 55int,
{
    getter_body(ts, p)
}

#[verifier::opaque]
spec fn getter_body(ts: Seq<TokenView>, p: int) -> Result<(PropTree, int), Seq<char>>
    decreases remaining(ts, p), 54int,
{
    match prop_key_at(ts, p) {
        Err(m) => Err(m),
        Ok((key, q1)) => {
            let p1 = after(p, q1);
            if !punct_at(ts, p1, "("@) {
                Err(expected(ts, p1, "("@))
            } else if !punct_at(ts, p1 + 1, ")"@) {
                Err(expected(ts, p1 + 1, ")"@))
            } else {
                match no_params_at(ts, p1 + 2) {
                    Err(m) => Err(m),
                    Ok((params, q2)) => {
                        let p2 = from(p1 + 2, q2);
                        match block_stmts_at(ts, p2) {
                            Err(m) => Err(m),
                            Ok((body, q3)) => {
                                let p3 = after(p2, q3);
                                Ok((PropTree::Accessor { get: true, key, params, body }, p3))
                            },
                        }
                    },
                }
            }
        },
    }
}

/// The rest of a setter.
#[verifier::opaque]
pub closed spec fn setter_at(ts: Seq<TokenView>, p: int) -> Result<(PropTree, int), Seq<char>>
    decreases remaining(ts, p), 55int,
{
    setter_body(ts, p)
}

#[verifier::opaque]
spec fn setter_body(ts: Seq<TokenView>, p: int) -> Result<(PropTree, int), Seq<char>>
    decreases remaining(ts, p), 54int,
{
    match prop_key_at(ts, p) {
        Err(m) => Err(m),
        Ok((key, q1)) => {
            let p1 = after(p, q1);
            if !punct_at(ts, p1, "("@) {
                Err(expected(ts, p1, "("@))
            } else if !kind_at(ts, p1 + 1, TokenKind::Ident) {
                Err("expected identifier"@)
            } else {
                let name = ts[p1 + 1].text;
                if !punct_at(ts, p1 + 2, ")"@) {
                    Err(expected(ts, p1 + 2, ")"@))
                } else {
                    let pat = PatternTree::Ident(name);
                    match one_param_at(ts, p1 + 2 + 1, pat) {
                        Err(m) => Err(m),
                        Ok((params, q2)) => {
                            let p2 = from(p1 + 2 + 1, q2);
                            match block_stmts_at(ts, p2) {
                                Err(m) => Err(m),
                                Ok((body, q3)) => {
                                    let p3 = after(p2, q3);
                                    Ok((PropTree::Accessor { get: false, key, params, body }, p3))
                                },
                            }
                        },
                    }
                }
            }
        },
    }
}

/// No parameters.
#[verifier::opaque]
pub closed spec fn no_params_at(ts: Seq<TokenView>, p: int) -> Result<(Seq<PatternTree>, int), Seq<char>>
    decreases remaining(ts, p), 3int,
{
    no_params_body(ts, p)
}

#[verifier::opaque]
spec fn no_params_body(ts: Seq<TokenView>, p: int) -> Result<(Seq<PatternTree>, int), Seq<char>>
    decreases remaining(ts, p), 2int,
{
    Ok((Seq::empty(), p))
}

/// A single parameter.
#[verifier::opaque]
pub closed spec fn one_param_at(ts: Seq<TokenView>, p: int, p0: PatternTree) -> Result<(Seq<PatternTree>, int), Seq<char>>
    decreases remaining(ts, p), 3int,
{
    one_param_body(ts, p, p0)
}

#[verifier::opaque]
spec fn one_param_body(ts: Seq<TokenView>, p: int, p0: PatternTree) -> Result<(Seq<PatternTree>, int), Seq<char>>
    decreases remaining(ts, p), 2int,
{
    Ok((seq![p0], p))
}

/// A single declarator.
#[verifier::opaque]
pub closed spec fn bare_declarator_at(ts: Seq<TokenView>, p: int, d: DeclaratorTree) -> Result<(Seq<DeclaratorTree>, int), Seq<char>>
    decreases remaining(ts, p), 3int,
{
    bare_declarator_body(ts, p, d)
}

#[verifier::opaque]
spec fn bare_declarator_body(ts: Seq<TokenView>, p: int, d: DeclaratorTree) -> Result<(Seq<DeclaratorTree>, int), Seq<char>>
    decreases remaining(ts, p), 2int,
{
    Ok((seq![d], p))
}

/// The rest of an object literal.
#[verifier::opaque]
pub closed spec fn object_at(ts: Seq<TokenView>, p: int) -> Result<(ExprTree, int), Seq<char>>
    decreases remaining(ts, p), 59int,
{
    object_body(ts, p)
}

#[verifier::opaque]
spec fn object_body(ts: Seq<TokenView>, p: int) -> Result<(ExprTree, int), Seq<char>>
    decreases remaining(ts, p), 58int,
{
    match prop_list_at(ts, p, Seq::empty()) {
        Err(m) => Err(m),
        Ok((list, q1)) => {
            let p1 = from(p, q1);
            if !punct_at(ts, p1, "}"@) {
                Err(expected(ts, p1, "}"@))
            } else {
                Ok((ExprTree::Object(list), p1 + 1))
            }
        },
    }
}

/// A property key.
#[verifier::opaque]
pub closed spec fn prop_key_at(ts: Seq<TokenView>, p: int) -> Result<(PropKeyTree, int), Seq<char>>
    decreases remaining(ts, p), 53int,
{
    prop_key_body(ts, p)
}

#[verifier::opaque]
spec fn prop_key_body(ts: Seq<TokenView>, p: int) -> Result<(PropKeyTree, int), Seq<char>>
    decreases remaining(ts, p), 52int,
{
    if kind_at(ts, p, TokenKind::Ident) {
        let t = ts[p].text;
        Ok((PropKeyTree::Ident(t), p + 1))
    } else if kind_at(ts, p, TokenKind::Str) || kind_at(ts, p, TokenKind::Number) {
        let t = ts[p].text;
        Ok((PropKeyTree::Str(t), p + 1))
    } else if anykw_at(ts, p) {
        let t = ts[p].text;
        Ok((PropKeyTree::Ident(t), p + 1))
    } else if punct_at(ts, p, "["@) {
        match expr_at(ts, p + 1) {
            Err(m) => Err(m),
            Ok((e, q1)) => {
                let p1 = after(p + 1, q1);
                if !punct_at(ts, p1, "]"@) {
                    Err(expected(ts, p1, "]"@))
                } else {
                    Ok((PropKeyTree::Computed(Box::new(e)), p1 + 1))
                }
            },
        }
    } else {
        Err(no_key(ts, p))
    }
}

/// The rule of [`program_at`].
pub open spec fn program_rule(ts: Seq<TokenView>, p: int, list: Seq<StmtTree>) -> Result<(Seq<StmtTree>, int), Seq<char>> {
    if end_at(ts, p) {
        Ok((list, p))
    } else {
        match stmt_at(ts, p) {
            Err(m) => Err(m),
            Ok((s, q1)) => {
                let p1 = after(p, q1);
                program_at(ts, p1, list.push(s))
            },
        }
    }
}

/// [`program_at`] follows its rule.
#[verifier::rlimit(60)]
pub proof fn law_program(ts: Seq<TokenView>, p: int, list: Seq<StmtTree>)
    ensures
        same(program_at(ts, p, list), program_rule(ts, p, list)),
{
    reveal(program_body);
    reveal(program_at);
    reveal(stmt_at);
    assert(same(program_at(ts, p, list), program_body(ts, p, list)));
}

/// The rule of [`block_body_at`].
pub open spec fn block_body_rule(ts: Seq<TokenView>, p: int, list: Seq<StmtTree>) -> Result<(Seq<StmtTree>, int), Seq<char>> {
    if punct_at(ts, p, "}"@) || end_at(ts, p) {
        Ok((list, p))
    } else {
        match stmt_at(ts, p) {
            Err(m) => Err(m),
            Ok((s, q1)) => {
                let p1 = after(p, q1);
                block_body_at(ts, p1, list.push(s))
            },
        }
    }
}

/// [`block_body_at`] follows its rule.
#[verifier::rlimit(60)]
pub proof fn law_block_body(ts: Seq<TokenView>, p: int, list: Seq<StmtTree>)
    ensures
        same(block_body_at(ts, p, list), block_body_rule(ts, p, list)),
{
    reveal(block_body_body);
    reveal(block_body_at);
    reveal(stmt_at);
    assert(same(block_body_at(ts, p, list), block_body_body(ts, p, list)));
}

/// The rule of [`block_stmts_at`].
pub open spec fn block_stmts_rule(ts: Seq<TokenView>, p: int) -> Result<(Seq<StmtTree>, int), Seq<char>> {
    if !punct_at(ts, p, "{"@) {
        Err(expected(ts, p, "{"@))
    } else {
        match block_body_at(ts, p + 1, Seq::empty()) {
            Err(m) => Err(m),
            Ok((list, q1)) => {
                let p1 = from(p + 1, q1);
                if !punct_at(ts, p1, "}"@) {
                    Err(expected(ts, p1, "}"@))
                } else {
                    Ok((list, p1 + 1))
                }
            },
        }
    }
}

/// [`block_stmts_at`] follows its rule.
#[verifier::rlimit(60)]
#[verifier::spinoff_prover]
pub proof fn law_block_stmts(ts: Seq<TokenView>, p: int)
    ensures
        same(block_stmts_at(ts, p), block_stmts_rule(ts, p)),
{
    reveal(block_stmts_body);
    reveal(block_stmts_at);
    reveal(block_body_at);
    assert(same(block_stmts_at(ts, p), block_stmts_body(ts, p)));
}

/// The rule of [`stmt_or_block_at`].
pub open spec fn stmt_or_block_rule(ts: Seq<TokenView>, p: int) -> Result<(Seq<StmtTree>, int), Seq<char>> {
    if punct_at(ts, p, "{"@) {
        match block_stmts_at(ts, p) {
            Err(m) => Err(m),
            Ok((list, q1)) => {
                let p1 = after(p, q1);
                Ok((list, p1))
            },
        }
    } else {
        match stmt_at(ts, p) {
            Err(m) => Err(m),
            Ok((s, q2)) => {
                let p2 = after(p, q2);
                Ok((seq![s], p2))
            },
        }
    }
}

/// [`stmt_or_block_at`] follows its rule.
#[verifier::rlimit(60)]
pub proof fn law_stmt_or_block(ts: Seq<TokenView>, p: int)
    ensures
        same(stmt_or_block_at(ts, p), stmt_or_block_rule(ts, p)),
{
    reveal(stmt_or_block_body);
    reveal(stmt_or_block_at);
    reveal(block_stmts_at);
    reveal(stmt_at);
    assert(same(stmt_or_block_at(ts, p), stmt_or_block_body(ts, p)));
}

/// The rule of [`return_rest_at`].
pub open spec fn return_rest_rule(ts: Seq<TokenView>, p: int) -> Result<(StmtTree, int), Seq<char>> {
    if punct_at(ts, p, "}"@) {
        Ok((StmtTree::Return(None), p))
    } else {
        if punct_at(ts, p, ";"@) {
            Ok((StmtTree::Return(None), p + 1))
        } else {
            match expr_at(ts, p) {
                Err(m) => Err(m),
                Ok((e, q1)) => {
                    let p1 = after(p, q1);
                    if !punct_at(ts, p1, ";"@) {
                        Err(expected(ts, p1, ";"@))
                    } else {
                        Ok((StmtTree::Return(Some(e)), p1 + 1))
                    }
                },
            }
        }
    }
}

/// [`return_rest_at`] follows its rule.
#[verifier::rlimit(60)]
#[verifier::spinoff_prover]
pub proof fn law_return_rest(ts: Seq<TokenView>, p: int)
    ensures
        same(return_rest_at(ts, p), return_rest_rule(ts, p)),
{
    reveal(return_rest_body);
    reveal(return_rest_at);
    reveal(expr_at);
    assert(same(return_rest_at(ts, p), return_rest_body(ts, p)));
}

/// The rule of [`delete_stmt_at`].
pub open spec fn delete_stmt_rule(ts: Seq<TokenView>, p: int) -> Result<(StmtTree, int), Seq<char>> {
    match unary_at(ts, p) {
        Err(m) => Err(m),
        Ok((operand, q1)) => {
            let p1 = after(p, q1);
            let e = ExprTree::Unary { op: UnaryOp::Delete, operand: Box::new(operand) };
            if punct_at(ts, p1, ";"@) {
                Ok((StmtTree::Expr(e), p1 + 1))
            } else {
                Ok((StmtTree::Expr(e), p1))
            }
        },
    }
}

/// [`delete_stmt_at`] follows its rule.
#[verifier::rlimit(60)]
pub proof fn law_delete_stmt(ts: Seq<TokenView>, p: int)
    ensures
        same(delete_stmt_at(ts, p), delete_stmt_rule(ts, p)),
{
    reveal(delete_stmt_body);
    reveal(delete_stmt_at);
    reveal(unary_at);
    assert(same(delete_stmt_at(ts, p), delete_stmt_body(ts, p)));
}

/// The rule of [`stmt_at`].
pub open spec fn stmt_rule(ts: Seq<TokenView>, p: int) -> Result<(StmtTree, int), Seq<char>> {
    if kw_at(ts, p, Kw::Var) {
        match var_decl_at(ts, p + 1) {
            Err(m) => Err(m),
            Ok((v, q1)) => {
                let p1 = from(p + 1, q1);
                if !punct_at(ts, p1, ";"@) {
                    Err(expected(ts, p1, ";"@))
                } else {
                    Ok((v, p1 + 1))
                }
            },
        }
    } else if kw_at(ts, p, Kw::Function) {
        match function_decl_at(ts, p + 1) {
            Err(m) => Err(m),
            Ok((v, q2)) => {
                let p2 = after(p + 1, q2);
                Ok((v, p2))
            },
        }
    } else if kw_at(ts, p, Kw::Return) {
        match return_rest_at(ts, p + 1) {
            Err(m) => Err(m),
            Ok((s, q3)) => {
                let p3 = from(p + 1, q3);
                Ok((s, p3))
            },
        }
    } else if kw_at(ts, p, Kw::Break) {
        if !punct_at(ts, p + 1, ";"@) {
            Err(expected(ts, p + 1, ";"@))
        } else {
            Ok((StmtTree::Break(None), p + 2))
        }
    } else if kw_at(ts, p, Kw::Continue) {
        if !punct_at(ts, p + 1, ";"@) {
            Err(expected(ts, p + 1, ";"@))
        } else {
            Ok((StmtTree::Continue(None), p + 2))
        }
    } else if kw_at(ts, p, Kw::If) {
        match if_at(ts, p + 1) {
            Err(m) => Err(m),
            Ok((v, q4)) => {
                let p4 = after(p + 1, q4);
                Ok((v, p4))
            },
        }
    } else if kw_at(ts, p, Kw::For) {
        match for_at(ts, p + 1) {
            Err(m) => Err(m),
            Ok((v, q5)) => {
                let p5 = after(p + 1, q5);
                Ok((v, p5))
            },
        }
    } else if kw_at(ts, p, Kw::Switch) {
        match switch_at(ts, p + 1) {
            Err(m) => Err(m),
            Ok((v, q6)) => {
                let p6 = after(p + 1, q6);
                Ok((v, p6))
            },
        }
    } else if kw_at(ts, p, Kw::Try) {
        match try_at(ts, p + 1) {
            Err(m) => Err(m),
            Ok((v, q7)) => {
                let p7 = after(p + 1, q7);
                Ok((v, p7))
            },
        }
    } else if kw_at(ts, p, Kw::Throw) {
        match expr_at(ts, p + 1) {
            Err(m) => Err(m),
            Ok((e, q8)) => {
                let p8 = after(p + 1, q8);
                if !punct_at(ts, p8, ";"@) {
                    Err(expected(ts, p8, ";"@))
                } else {
                    Ok((StmtTree::Throw(e), p8 + 1))
                }
            },
        }
    } else if kw_at(ts, p, Kw::While) {
        match while_at(ts, p + 1) {
            Err(m) => Err(m),
            Ok((v, q9)) => {
                let p9 = after(p + 1, q9);
                Ok((v, p9))
            },
        }
    } else if kw_at(ts, p, Kw::Do) {
        match do_at(ts, p + 1) {
            Err(m) => Err(m),
            Ok((v, q10)) => {
                let p10 = after(p + 1, q10);
                Ok((v, p10))
            },
        }
    } else if kw_at(ts, p, Kw::Delete) {
        match delete_stmt_at(ts, p + 1) {
            Err(m) => Err(m),
            Ok((s, q11)) => {
                let p11 = after(p + 1, q11);
                Ok((s, p11))
            },
        }
    } else if punct_at(ts, p, "{"@) {
        match block_stmts_at(ts, p) {
            Err(m) => Err(m),
            Ok((list, q12)) => {
                let p12 = after(p, q12);
                Ok((StmtTree::Block(list), p12))
            },
        }
    } else {
        match expr_at(ts, p) {
            Err(m) => Err(m),
            Ok((e, q13)) => {
                let p13 = after(p, q13);
                if !punct_at(ts, p13, ";"@) {
                    Err(expected(ts, p13, ";"@))
                } else {
                    Ok((StmtTree::Expr(e), p13 + 1))
                }
            },
        }
    }
}

/// [`stmt_at`] follows its rule.
#[verifier::rlimit(60)]
#[verifier::spinoff_prover]
pub proof fn law_stmt(ts: Seq<TokenView>, p: int)
    ensures
        same(stmt_at(ts, p), stmt_rule(ts, p)),
{
    reveal(stmt_body);
    reveal(stmt_at);
    reveal(var_decl_at);
    reveal(function_decl_at);
    reveal(return_rest_at);
    reveal(if_at);
    reveal(for_at);
    reveal(switch_at);
    reveal(try_at);
    reveal(expr_at);
    reveal(while_at);
    reveal(do_at);
    reveal(delete_stmt_at);
    reveal(block_stmts_at);
    assert(same(stmt_at(ts, p), stmt_body(ts, p)));
}

/// The rule of [`initializer_at`].
pub open spec fn initializer_rule(ts: Seq<TokenView>, p: int) -> Result<(Option<ExprTree>, int), Seq<char>> {
    if punct_at(ts, p, "="@) {
        match expr_at(ts, p + 1) {
            Err(m) => Err(m),
            Ok((e, q1)) => {
                let p1 = after(p + 1, q1);
                Ok((Some(e), p1))
            },
        }
    } else {
        Ok((None, p))
    }
}

/// [`initializer_at`] follows its rule.
#[verifier::rlimit(60)]
pub proof fn law_initializer(ts: Seq<TokenView>, p: int)
    ensures
        same(initializer_at(ts, p), initializer_rule(ts, p)),
{
    reveal(initializer_body);
    reveal(initializer_at);
    reveal(expr_at);
    assert(same(initializer_at(ts, p), initializer_body(ts, p)));
}

/// The rule of [`declarators_at`].
pub open spec fn declarators_rule(ts: Seq<TokenView>, p: int, list: Seq<DeclaratorTree>) -> Result<(Seq<DeclaratorTree>, int), Seq<char>> {
    if !kind_at(ts, p, TokenKind::Ident) {
        Err("expected identifier"@)
    } else {
        let name = ts[p].text;
        let pat = PatternTree::Ident(name);
        match initializer_at(ts, p + 1) {
            Err(m) => Err(m),
            Ok((init, q1)) => {
                let p1 = from(p + 1, q1);
                if punct_at(ts, p1, ","@) {
                    declarators_at(ts, p1 + 1, list.push(DeclaratorTree { pat, init }))
                } else {
                    Ok((list.push(DeclaratorTree { pat, init }), p1))
                }
            },
        }
    }
}

/// [`declarators_at`] follows its rule.
#[verifier::rlimit(60)]
pub proof fn law_declarators(ts: Seq<TokenView>, p: int, list: Seq<DeclaratorTree>)
    ensures
        same(declarators_at(ts, p, list), declarators_rule(ts, p, list)),
{
    reveal(declarators_body);
    reveal(declarators_at);
    reveal(initializer_at);
    assert(same(declarators_at(ts, p, list), declarators_body(ts, p, list)));
}

/// The rule of [`var_decl_at`].
pub open spec fn var_decl_rule(ts: Seq<TokenView>, p: int) -> Result<(StmtTree, int), Seq<char>> {
    match declarators_at(ts, p, Seq::empty()) {
        Err(m) => Err(m),
        Ok((list, q1)) => {
            let p1 = from(p, q1);
            Ok((StmtTree::Var(list, VarKind::Var), p1))
        },
    }
}

/// [`var_decl_at`] follows its rule.
#[verifier::rlimit(60)]
pub proof fn law_var_decl(ts: Seq<TokenView>, p: int)
    ensures
        same(var_decl_at(ts, p), var_decl_rule(ts, p)),
{
    reveal(var_decl_body);
    reveal(var_decl_at);
    reveal(declarators_at);
    assert(same(var_decl_at(ts, p), var_decl_body(ts, p)));
}

/// The rule of [`param_list_at`].
pub open spec fn param_list_rule(ts: Seq<TokenView>, p: int, list: Seq<PatternTree>) -> Result<(Seq<PatternTree>, int), Seq<char>> {
    if !kind_at(ts, p, TokenKind::Ident) {
        Err("expected identifier"@)
    } else {
        let name = ts[p].text;
        if punct_at(ts, p + 1, ","@) {
            param_list_at(ts, p + 2, list.push(PatternTree::Ident(name)))
        } else {
            Ok((list.push(PatternTree::Ident(name)), p + 1))
        }
    }
}

/// [`param_list_at`] follows its rule.
#[verifier::rlimit(60)]
pub proof fn law_param_list(ts: Seq<TokenView>, p: int, list: Seq<PatternTree>)
    ensures
        same(param_list_at(ts, p, list), param_list_rule(ts, p, list)),
{
    reveal(param_list_body);
    reveal(param_list_at);
    assert(same(param_list_at(ts, p, list), param_list_body(ts, p, list)));
}

/// The rule of [`params_at`].
pub open spec fn params_rule(ts: Seq<TokenView>, p: int) -> Result<(Seq<PatternTree>, int), Seq<char>> {
    if !punct_at(ts, p, "("@) {
        Err(expected(ts, p, "("@))
    } else if punct_at(ts, p + 1, ")"@) {
        Ok((Seq::empty(), p + 2))
    } else {
        match param_list_at(ts, p + 1, Seq::empty()) {
            Err(m) => Err(m),
            Ok((list, q1)) => {
                let p1 = from(p + 1, q1);
                if !punct_at(ts, p1, ")"@) {
                    Err(expected(ts, p1, ")"@))
                } else {
                    Ok((list, p1 + 1))
                }
            },
        }
    }
}

/// [`params_at`] follows its rule.
#[verifier::rlimit(60)]
pub proof fn law_params(ts: Seq<TokenView>, p: int)
    ensures
        same(params_at(ts, p), params_rule(ts, p)),
{
    reveal(params_body);
    reveal(params_at);
    reveal(param_list_at);
    assert(same(params_at(ts, p), params_body(ts, p)));
}

/// The rule of [`function_decl_at`].
pub open spec fn function_decl_rule(ts: Seq<TokenView>, p: int) -> Result<(StmtTree, int), Seq<char>> {
    if !kind_at(ts, p, TokenKind::Ident) {
        Err("expected identifier"@)
    } else {
        let name = ts[p].text;
        match params_at(ts, p + 1) {
            Err(m) => Err(m),
            Ok((params, q1)) => {
                let p1 = after(p + 1, q1);
                match block_stmts_at(ts, p1) {
                    Err(m) => Err(m),
                    Ok((body, q2)) => {
                        let p2 = after(p1, q2);
                        Ok((StmtTree::FunctionDecl { name, params, body }, p2))
                    },
                }
            },
        }
    }
}

/// [`function_decl_at`] follows its rule.
#[verifier::rlimit(60)]
pub proof fn law_function_decl(ts: Seq<TokenView>, p: int)
    ensures
        same(function_decl_at(ts, p), function_decl_rule(ts, p)),
{
    reveal(function_decl_body);
    reveal(function_decl_at);
    reveal(params_at);
    reveal(block_stmts_at);
    assert(same(function_decl_at(ts, p), function_decl_body(ts, p)));
}

/// The rule of [`else_part_at`].
pub open spec fn else_part_rule(ts: Seq<TokenView>, p: int) -> Result<(Seq<StmtTree>, int), Seq<char>> {
    if kw_at(ts, p, Kw::Else) {
        match stmt_or_block_at(ts, p + 1) {
            Err(m) => Err(m),
            Ok((list, q1)) => {
                let p1 = after(p + 1, q1);
                Ok((list, p1))
            },
        }
    } else {
        Ok((Seq::empty(), p))
    }
}

/// [`else_part_at`] follows its rule.
#[verifier::rlimit(60)]
pub proof fn law_else_part(ts: Seq<TokenView>, p: int)
    ensures
        same(else_part_at(ts, p), else_part_rule(ts, p)),
{
    reveal(else_part_body);
    reveal(else_part_at);
    reveal(stmt_or_block_at);
    assert(same(else_part_at(ts, p), else_part_body(ts, p)));
}

/// The rule of [`if_at`].
pub open spec fn if_rule(ts: Seq<TokenView>, p: int) -> Result<(StmtTree, int), Seq<char>> {
    if !punct_at(ts, p, "("@) {
        Err(expected(ts, p, "("@))
    } else {
        match expr_at(ts, p + 1) {
            Err(m) => Err(m),
            Ok((cond, q1)) => {
                let p1 = after(p + 1, q1);
                if !punct_at(ts, p1, ")"@) {
                    Err(expected(ts, p1, ")"@))
                } else {
                    match stmt_or_block_at(ts, p1 + 1) {
                        Err(m) => Err(m),
                        Ok((yes, q2)) => {
                            let p2 = after(p1 + 1, q2);
                            match else_part_at(ts, p2) {
                                Err(m) => Err(m),
                                Ok((no, q3)) => {
                                    let p3 = from(p2, q3);
                                    Ok((StmtTree::If { cond, yes, no }, p3))
                                },
                            }
                        },
                    }
                }
            },
        }
    }
}

/// [`if_at`] follows its rule.
#[verifier::rlimit(60)]
pub proof fn law_if(ts: Seq<TokenView>, p: int)
    ensures
        same(if_at(ts, p), if_rule(ts, p)),
{
    reveal(if_body);
    reveal(if_at);
    reveal(expr_at);
    reveal(stmt_or_block_at);
    reveal(else_part_at);
    assert(same(if_at(ts, p), if_body(ts, p)));
}

/// The rule of [`while_at`].
pub open spec fn while_rule(ts: Seq<TokenView>, p: int) -> Result<(StmtTree, int), Seq<char>> {
    if !punct_at(ts, p, "("@) {
        Err(expected(ts, p, "("@))
    } else {
        match expr_at(ts, p + 1) {
            Err(m) => Err(m),
            Ok((cond, q1)) => {
                let p1 = after(p + 1, q1);
                if !punct_at(ts, p1, ")"@) {
                    Err(expected(ts, p1, ")"@))
                } else {
                    match stmt_or_block_at(ts, p1 + 1) {
                        Err(m) => Err(m),
                        Ok((body, q2)) => {
                            let p2 = after(p1 + 1, q2);
                            Ok((StmtTree::For { init: None, cond: Some(cond), update: None, body }, p2))
                        },
                    }
                }
            },
        }
    }
}

/// [`while_at`] follows its rule.
#[verifier::rlimit(60)]
pub proof fn law_while(ts: Seq<TokenView>, p: int)
    ensures
        same(while_at(ts, p), while_rule(ts, p)),
{
    reveal(while_body);
    reveal(while_at);
    reveal(expr_at);
    reveal(stmt_or_block_at);
    assert(same(while_at(ts, p), while_body(ts, p)));
}

/// The rule of [`do_at`].
pub open spec fn do_rule(ts: Seq<TokenView>, p: int) -> Result<(StmtTree, int), Seq<char>> {
    match stmt_or_block_at(ts, p) {
        Err(m) => Err(m),
        Ok((body, q1)) => {
            let p1 = after(p, q1);
            if !kw_at(ts, p1, Kw::While) {
                Err(expected(ts, p1, "while"@))
            } else if !punct_at(ts, p1 + 1, "("@) {
                Err(expected(ts, p1 + 1, "("@))
            } else {
                match expr_at(ts, p1 + 2) {
                    Err(m) => Err(m),
                    Ok((cond, q2)) => {
                        let p2 = after(p1 + 2, q2);
                        if !punct_at(ts, p2, ")"@) {
                            Err(expected(ts, p2, ")"@))
                        } else {
                            if !punct_at(ts, p2 + 1, ";"@) {
                                Err(expected(ts, p2 + 1, ";"@))
                            } else {
                                Ok((StmtTree::DoWhile { cond, body }, p2 + 2))
                            }
                        }
                    },
                }
            }
        },
    }
}

/// [`do_at`] follows its rule.
#[verifier::rlimit(60)]
pub proof fn law_do(ts: Seq<TokenView>, p: int)
    ensures
        same(do_at(ts, p), do_rule(ts, p)),
{
    reveal(do_body);
    reveal(do_at);
    reveal(stmt_or_block_at);
    reveal(expr_at);
    assert(same(do_at(ts, p), do_body(ts, p)));
}

/// The rule of [`for_at`].
pub open spec fn for_rule(ts: Seq<TokenView>, p: int) -> Result<(StmtTree, int), Seq<char>> {
    if !punct_at(ts, p, "("@) {
        Err(expected(ts, p, "("@))
    } else if kw_at(ts, p + 1, Kw::Var) {
        match for_var_at(ts, p + 2) {
            Err(m) => Err(m),
            Ok((s, q1)) => {
                let p1 = after(p + 2, q1);
                Ok((s, p1))
            },
        }
    } else {
        if punct_at(ts, p + 1, ";"@) {
            match for_bare_at(ts, p + 2) {
                Err(m) => Err(m),
                Ok((s, q2)) => {
                    let p2 = after(p + 2, q2);
                    Ok((s, p2))
                },
            }
        } else {
            match for_expr_at(ts, p + 1) {
                Err(m) => Err(m),
                Ok((s, q3)) => {
                    let p3 = after(p + 1, q3);
                    Ok((s, p3))
                },
            }
        }
    }
}

/// [`for_at`] follows its rule.
#[verifier::rlimit(60)]
pub proof fn law_for(ts: Seq<TokenView>, p: int)
    ensures
        same(for_at(ts, p), for_rule(ts, p)),
{
    reveal(for_body);
    reveal(for_at);
    reveal(for_var_at);
    reveal(for_bare_at);
    reveal(for_expr_at);
    assert(same(for_at(ts, p), for_body(ts, p)));
}

/// The rule of [`for_bare_at`].
pub open spec fn for_bare_rule(ts: Seq<TokenView>, p: int) -> Result<(StmtTree, int), Seq<char>> {
    match for_cond_at(ts, p) {
        Err(m) => Err(m),
        Ok((cond, q1)) => {
            let p1 = after(p, q1);
            match for_update_at(ts, p1) {
                Err(m) => Err(m),
                Ok((update, q2)) => {
                    let p2 = after(p1, q2);
                    match stmt_or_block_at(ts, p2) {
                        Err(m) => Err(m),
                        Ok((body, q3)) => {
                            let p3 = after(p2, q3);
                            Ok((StmtTree::For { init: None, cond, update, body }, p3))
                        },
                    }
                },
            }
        },
    }
}

/// [`for_bare_at`] follows its rule.
#[verifier::rlimit(60)]
pub proof fn law_for_bare(ts: Seq<TokenView>, p: int)
    ensures
        same(for_bare_at(ts, p), for_bare_rule(ts, p)),
{
    reveal(for_bare_body);
    reveal(for_bare_at);
    reveal(for_cond_at);
    reveal(for_update_at);
    reveal(stmt_or_block_at);
    assert(same(for_bare_at(ts, p), for_bare_body(ts, p)));
}

/// The rule of [`for_var_at`].
pub open spec fn for_var_rule(ts: Seq<TokenView>, p: int) -> Result<(StmtTree, int), Seq<char>> {
    if !kind_at(ts, p, TokenKind::Ident) {
        Err("expected identifier"@)
    } else {
        let name = ts[p].text;
        if kw_at(ts, p + 1, Kw::In) {
            let pat = PatternTree::Ident(name);
            match for_in_at(ts, p + 2, pat) {
                Err(m) => Err(m),
                Ok((s, q1)) => {
                    let p1 = after(p + 2, q1);
                    Ok((s, p1))
                },
            }
        } else {
            let pat = PatternTree::Ident(name);
            match initializer_at(ts, p + 1) {
                Err(m) => Err(m),
                Ok((init, q2)) => {
                    let p2 = from(p + 1, q2);
                    match for_list_at(ts, p2, DeclaratorTree { pat, init }) {
                        Err(m) => Err(m),
                        Ok((s, q3)) => {
                            let p3 = after(p2, q3);
                            Ok((s, p3))
                        },
                    }
                },
            }
        }
    }
}

/// [`for_var_at`] follows its rule.
#[verifier::rlimit(60)]
pub proof fn law_for_var(ts: Seq<TokenView>, p: int)
    ensures
        same(for_var_at(ts, p), for_var_rule(ts, p)),
{
    reveal(for_var_body);
    reveal(for_var_at);
    reveal(for_in_at);
    reveal(initializer_at);
    reveal(for_list_at);
    assert(same(for_var_at(ts, p), for_var_body(ts, p)));
}

/// The rule of [`for_list_at`].
pub open spec fn for_list_rule(ts: Seq<TokenView>, p: int, d: DeclaratorTree) -> Result<(StmtTree, int), Seq<char>> {
    match bare_declarator_at(ts, p, d) {
        Err(m) => Err(m),
        Ok((first, q1)) => {
            let p1 = from(p, q1);
            if punct_at(ts, p1, ","@) {
                match declarators_at(ts, p1 + 1, first) {
                    Err(m) => Err(m),
                    Ok((list, q2)) => {
                        let p2 = from(p1 + 1, q2);
                        if !punct_at(ts, p2, ";"@) {
                            Err(expected(ts, p2, ";"@))
                        } else {
                            match for_tail_at(ts, p2 + 1, StmtTree::Var(list, VarKind::Var)) {
                                Err(m) => Err(m),
                                Ok((s, q3)) => {
                                    let p3 = after(p2 + 1, q3);
                                    Ok((s, p3))
                                },
                            }
                        }
                    },
                }
            } else {
                if !punct_at(ts, p1, ";"@) {
                    Err(expected(ts, p1, ";"@))
                } else {
                    match for_tail_at(ts, p1 + 1, StmtTree::Var(first, VarKind::Var)) {
                        Err(m) => Err(m),
                        Ok((s, q4)) => {
                            let p4 = after(p1 + 1, q4);
                            Ok((s, p4))
                        },
                    }
                }
            }
        },
    }
}

/// [`for_list_at`] follows its rule.
#[verifier::rlimit(60)]
pub proof fn law_for_list(ts: Seq<TokenView>, p: int, d: DeclaratorTree)
    ensures
        same(for_list_at(ts, p, d), for_list_rule(ts, p, d)),
{
    reveal(for_list_body);
    reveal(for_list_at);
    reveal(bare_declarator_at);
    reveal(declarators_at);
    reveal(for_tail_at);
    assert(same(for_list_at(ts, p, d), for_list_body(ts, p, d)));
}

/// The rule of [`for_in_at`].
pub open spec fn for_in_rule(ts: Seq<TokenView>, p: int, name: PatternTree) -> Result<(StmtTree, int), Seq<char>> {
    match expr_at(ts, p) {
        Err(m) => Err(m),
        Ok((expr, q1)) => {
            let p1 = after(p, q1);
            if !punct_at(ts, p1, ")"@) {
                Err(expected(ts, p1, ")"@))
            } else {
                match stmt_or_block_at(ts, p1 + 1) {
                    Err(m) => Err(m),
                    Ok((body, q2)) => {
                        let p2 = after(p1 + 1, q2);
                        Ok((StmtTree::ForIn { kind: VarKind::Var, name, expr, body }, p2))
                    },
                }
            }
        },
    }
}

/// [`for_in_at`] follows its rule.
#[verifier::rlimit(60)]
#[verifier::spinoff_prover]
pub proof fn law_for_in(ts: Seq<TokenView>, p: int, name: PatternTree)
    ensures
        same(for_in_at(ts, p, name), for_in_rule(ts, p, name)),
{
    reveal(for_in_body);
    reveal(for_in_at);
    reveal(expr_at);
    reveal(stmt_or_block_at);
    assert(same(for_in_at(ts, p, name), for_in_body(ts, p, name)));
}

/// The rule of [`for_expr_at`].
pub open spec fn for_expr_rule(ts: Seq<TokenView>, p: int) -> Result<(StmtTree, int), Seq<char>> {
    match expr_at(ts, p) {
        Err(m) => Err(m),
        Ok((lhs, q1)) => {
            let p1 = after(p, q1);
            if kw_at(ts, p1, Kw::In) {
                match expr_at(ts, p1 + 1) {
                    Err(m) => Err(m),
                    Ok((expr, q2)) => {
                        let p2 = after(p1 + 1, q2);
                        if !punct_at(ts, p2, ")"@) {
                            Err(expected(ts, p2, ")"@))
                        } else {
                            match stmt_or_block_at(ts, p2 + 1) {
                                Err(m) => Err(m),
                                Ok((body, q3)) => {
                                    let p3 = after(p2 + 1, q3);
                                    match lhs {
                                        ExprTree::Ident(name) => {
                                            let pat = PatternTree::Ident(name);
                                            Ok((StmtTree::ForIn { kind: VarKind::Var, name: pat, expr, body }, p3))
                                        },
                                        _ => {
                                            Err("for-in target must be an identifier"@)
                                        },
                                    }
                                },
                            }
                        }
                    },
                }
            } else {
                if !punct_at(ts, p1, ";"@) {
                    Err(expected(ts, p1, ";"@))
                } else {
                    match for_tail_at(ts, p1 + 1, StmtTree::Expr(lhs)) {
                        Err(m) => Err(m),
                        Ok((s, q4)) => {
                            let p4 = after(p1 + 1, q4);
                            Ok((s, p4))
                        },
                    }
                }
            }
        },
    }
}

/// [`for_expr_at`] follows its rule.
#[verifier::rlimit(60)]
pub proof fn law_for_expr(ts: Seq<TokenView>, p: int)
    ensures
        same(for_expr_at(ts, p), for_expr_rule(ts, p)),
{
    reveal(for_expr_body);
    reveal(for_expr_at);
    reveal(expr_at);
    reveal(stmt_or_block_at);
    reveal(for_tail_at);
    assert(same(for_expr_at(ts, p), for_expr_body(ts, p)));
}

/// The rule of [`for_tail_at`].
pub open spec fn for_tail_rule(ts: Seq<TokenView>, p: int, init: StmtTree) -> Result<(StmtTree, int), Seq<char>> {
    match for_cond_at(ts, p) {
        Err(m) => Err(m),
        Ok((cond, q1)) => {
            let p1 = after(p, q1);
            match for_update_at(ts, p1) {
                Err(m) => Err(m),
                Ok((update, q2)) => {
                    let p2 = after(p1, q2);
                    match stmt_or_block_at(ts, p2) {
                        Err(m) => Err(m),
                        Ok((body, q3)) => {
                            let p3 = after(p2, q3);
                            Ok((StmtTree::For { init: Some(Box::new(init)), cond, update, body }, p3))
                        },
                    }
                },
            }
        },
    }
}

/// [`for_tail_at`] follows its rule.
#[verifier::rlimit(60)]
#[verifier::spinoff_prover]
pub proof fn law_for_tail(ts: Seq<TokenView>, p: int, init: StmtTree)
    ensures
        same(for_tail_at(ts, p, init), for_tail_rule(ts, p, init)),
{
    reveal(for_tail_body);
    reveal(for_tail_at);
    reveal(for_cond_at);
    reveal(for_update_at);
    reveal(stmt_or_block_at);
    assert(same(for_tail_at(ts, p, init), for_tail_body(ts, p, init)));
}

/// The rule of [`for_cond_at`].
pub open spec fn for_cond_rule(ts: Seq<TokenView>, p: int) -> Result<(Option<ExprTree>, int), Seq<char>> {
    if punct_at(ts, p, ";"@) {
        Ok((None, p + 1))
    } else {
        match expr_at(ts, p) {
            Err(m) => Err(m),
            Ok((e, q1)) => {
                let p1 = after(p, q1);
                if !punct_at(ts, p1, ";"@) {
                    Err(expected(ts, p1, ";"@))
                } else {
                    Ok((Some(e), p1 + 1))
                }
            },
        }
    }
}

/// [`for_cond_at`] follows its rule.
#[verifier::rlimit(60)]
#[verifier::spinoff_prover]
pub proof fn law_for_cond(ts: Seq<TokenView>, p: int)
    ensures
        same(for_cond_at(ts, p), for_cond_rule(ts, p)),
{
    reveal(for_cond_body);
    reveal(for_cond_at);
    reveal(expr_at);
    assert(same(for_cond_at(ts, p), for_cond_body(ts, p)));
}

/// The rule of [`for_update_at`].
pub open spec fn for_update_rule(ts: Seq<TokenView>, p: int) -> Result<(Option<ExprTree>, int), Seq<char>> {
    if punct_at(ts, p, ")"@) {
        Ok((None, p + 1))
    } else {
        match expr_at(ts, p) {
            Err(m) => Err(m),
            Ok((e, q1)) => {
                let p1 = after(p, q1);
                if !punct_at(ts, p1, ")"@) {
                    Err(expected(ts, p1, ")"@))
                } else {
                    Ok((Some(e), p1 + 1))
                }
            },
        }
    }
}

/// [`for_update_at`] follows its rule.
#[verifier::rlimit(60)]
#[verifier::spinoff_prover]
pub proof fn law_for_update(ts: Seq<TokenView>, p: int)
    ensures
        same(for_update_at(ts, p), for_update_rule(ts, p)),
{
    reveal(for_update_body);
    reveal(for_update_at);
    reveal(expr_at);
    assert(same(for_update_at(ts, p), for_update_body(ts, p)));
}

/// The rule of [`cases_at`].
pub open spec fn cases_rule(ts: Seq<TokenView>, p: int, list: Seq<SwitchCaseTree>) -> Result<(Seq<SwitchCaseTree>, int), Seq<char>> {
    if punct_at(ts, p, "}"@) || end_at(ts, p) {
        Ok((list, p))
    } else if kw_at(ts, p, Kw::Case) {
        match expr_at(ts, p + 1) {
            Err(m) => Err(m),
            Ok((e, q1)) => {
                let p1 = after(p + 1, q1);
                if !punct_at(ts, p1, ":"@) {
                    Err(expected(ts, p1, ":"@))
                } else {
                    match case_body_at(ts, p1 + 1, Seq::empty()) {
                        Err(m) => Err(m),
                        Ok((body, q2)) => {
                            let p2 = from(p1 + 1, q2);
                            cases_at(ts, p2, list.push(SwitchCaseTree { test: Some(e), body }))
                        },
                    }
                }
            },
        }
    } else if kw_at(ts, p, Kw::Default) {
        if !punct_at(ts, p + 1, ":"@) {
            Err(expected(ts, p + 1, ":"@))
        } else {
            match case_body_at(ts, p + 2, Seq::empty()) {
                Err(m) => Err(m),
                Ok((body, q3)) => {
                    let p3 = from(p + 2, q3);
                    cases_at(ts, p3, list.push(SwitchCaseTree { test: None, body }))
                },
            }
        }
    } else {
        Err("unexpected token in switch"@)
    }
}

/// [`cases_at`] follows its rule.
#[verifier::rlimit(60)]
#[verifier::spinoff_prover]
pub proof fn law_cases(ts: Seq<TokenView>, p: int, list: Seq<SwitchCaseTree>)
    ensures
        same(cases_at(ts, p, list), cases_rule(ts, p, list)),
{
    reveal(cases_body);
    reveal(cases_at);
    reveal(expr_at);
    reveal(case_body_at);
    assert(same(cases_at(ts, p, list), cases_body(ts, p, list)));
}

/// The rule of [`case_body_at`].
pub open spec fn case_body_rule(ts: Seq<TokenView>, p: int, list: Seq<StmtTree>) -> Result<(Seq<StmtTree>, int), Seq<char>> {
    if end_at(ts, p) || punct_at(ts, p, "}"@) || kw_at(ts, p, Kw::Case) || kw_at(ts, p, Kw::Default) {
        Ok((list, p))
    } else {
        match stmt_at(ts, p) {
            Err(m) => Err(m),
            Ok((s, q1)) => {
                let p1 = after(p, q1);
                case_body_at(ts, p1, list.push(s))
            },
        }
    }
}

/// [`case_body_at`] follows its rule.
#[verifier::rlimit(60)]
#[verifier::spinoff_prover]
pub proof fn law_case_body(ts: Seq<TokenView>, p: int, list: Seq<StmtTree>)
    ensures
        same(case_body_at(ts, p, list), case_body_rule(ts, p, list)),
{
    reveal(case_body_body);
    reveal(case_body_at);
    reveal(stmt_at);
    assert(same(case_body_at(ts, p, list), case_body_body(ts, p, list)));
}

/// The rule of [`switch_at`].
pub open spec fn switch_rule(ts: Seq<TokenView>, p: int) -> Result<(StmtTree, int), Seq<char>> {
    if !punct_at(ts, p, "("@) {
        Err(expected(ts, p, "("@))
    } else {
        match expr_at(ts, p + 1) {
            Err(m) => Err(m),
            Ok((discriminant, q1)) => {
                let p1 = after(p + 1, q1);
                if !punct_at(ts, p1, ")"@) {
                    Err(expected(ts, p1, ")"@))
                } else if !punct_at(ts, p1 + 1, "{"@) {
                    Err(expected(ts, p1 + 1, "{"@))
                } else {
                    match cases_at(ts, p1 + 2, Seq::empty()) {
                        Err(m) => Err(m),
                        Ok((cases, q2)) => {
                            let p2 = from(p1 + 2, q2);
                            if !punct_at(ts, p2, "}"@) {
                                Err(expected(ts, p2, "}"@))
                            } else {
                                Ok((StmtTree::Switch { discriminant, cases }, p2 + 1))
                            }
                        },
                    }
                }
            },
        }
    }
}

/// [`switch_at`] follows its rule.
#[verifier::rlimit(60)]
#[verifier::spinoff_prover]
pub proof fn law_switch(ts: Seq<TokenView>, p: int)
    ensures
        same(switch_at(ts, p), switch_rule(ts, p)),
{
    reveal(switch_body);
    reveal(switch_at);
    reveal(expr_at);
    reveal(cases_at);
    assert(same(switch_at(ts, p), switch_body(ts, p)));
}

/// The rule of [`catch_part_at`].
pub open spec fn catch_part_rule(ts: Seq<TokenView>, p: int) -> Result<(Option<CatchClauseTree>, int), Seq<char>> {
    if kw_at(ts, p, Kw::Catch) {
        if !punct_at(ts, p + 1, "("@) {
            Err(expected(ts, p + 1, "("@))
        } else if !kind_at(ts, p + 2, TokenKind::Ident) {
            Err("expected identifier"@)
        } else {
            let name = ts[p + 2].text;
            if !punct_at(ts, p + 2 + 1, ")"@) {
                Err(expected(ts, p + 2 + 1, ")"@))
            } else {
                match block_stmts_at(ts, p + 2 + 2) {
                    Err(m) => Err(m),
                    Ok((body, q1)) => {
                        let p1 = after(p + 2 + 2, q1);
                        Ok((Some(CatchClauseTree { name, body }), p1))
                    },
                }
            }
        }
    } else {
        Ok((None, p))
    }
}

/// [`catch_part_at`] follows its rule.
#[verifier::rlimit(60)]
pub proof fn law_catch_part(ts: Seq<TokenView>, p: int)
    ensures
        same(catch_part_at(ts, p), catch_part_rule(ts, p)),
{
    reveal(catch_part_body);
    reveal(catch_part_at);
    reveal(block_stmts_at);
    assert(same(catch_part_at(ts, p), catch_part_body(ts, p)));
}

/// The rule of [`finally_part_at`].
pub open spec fn finally_part_rule(ts: Seq<TokenView>, p: int) -> Result<(Option<Seq<StmtTree>>, int), Seq<char>> {
    if kw_at(ts, p, Kw::Finally) {
        match block_stmts_at(ts, p + 1) {
            Err(m) => Err(m),
            Ok((list, q1)) => {
                let p1 = after(p + 1, q1);
                Ok((Some(list), p1))
            },
        }
    } else {
        Ok((None, p))
    }
}

/// [`finally_part_at`] follows its rule.
#[verifier::rlimit(60)]
pub proof fn law_finally_part(ts: Seq<TokenView>, p: int)
    ensures
        same(finally_part_at(ts, p), finally_part_rule(ts, p)),
{
    reveal(finally_part_body);
    reveal(finally_part_at);
    reveal(block_stmts_at);
    assert(same(finally_part_at(ts, p), finally_part_body(ts, p)));
}

/// The rule of [`try_at`].
pub open spec fn try_rule(ts: Seq<TokenView>, p: int) -> Result<(StmtTree, int), Seq<char>> {
    match block_stmts_at(ts, p) {
        Err(m) => Err(m),
        Ok((try_block, q1)) => {
            let p1 = after(p, q1);
            match catch_part_at(ts, p1) {
                Err(m) => Err(m),
                Ok((catch, q2)) => {
                    let p2 = from(p1, q2);
                    match finally_part_at(ts, p2) {
                        Err(m) => Err(m),
                        Ok((finally, q3)) => {
                            let p3 = from(p2, q3);
                            Ok((StmtTree::Try { try_block, catch, finally }, p3))
                        },
                    }
                },
            }
        },
    }
}

/// [`try_at`] follows its rule.
#[verifier::rlimit(60)]
pub proof fn law_try(ts: Seq<TokenView>, p: int)
    ensures
        same(try_at(ts, p), try_rule(ts, p)),
{
    reveal(try_body);
    reveal(try_at);
    reveal(block_stmts_at);
    reveal(catch_part_at);
    reveal(finally_part_at);
    assert(same(try_at(ts, p), try_body(ts, p)));
}

/// The rule of [`expr_at`].
pub open spec fn expr_rule(ts: Seq<TokenView>, p: int) -> Result<(ExprTree, int), Seq<char>> {
    match assignment_at(ts, p) {
        Err(m) => Err(m),
        Ok((e, q1)) => {
            let p1 = after(p, q1);
            Ok((e, p1))
        },
    }
}

/// [`expr_at`] follows its rule.
#[verifier::rlimit(60)]
pub proof fn law_expr(ts: Seq<TokenView>, p: int)
    ensures
        same(expr_at(ts, p), expr_rule(ts, p)),
{
    reveal(expr_body);
    reveal(expr_at);
    reveal(assignment_at);
    assert(same(expr_at(ts, p), expr_body(ts, p)));
}

/// The rule of [`assignment_at`].
pub open spec fn assignment_rule(ts: Seq<TokenView>, p: int) -> Result<(ExprTree, int), Seq<char>> {
    match ternary_at(ts, p) {
        Err(m) => Err(m),
        Ok((lhs, q1)) => {
            let p1 = after(p, q1);
            if punct_at(ts, p1, "="@) {
                match assignment_at(ts, p1 + 1) {
                    Err(m) => Err(m),
                    Ok((v, q2)) => {
                        let p2 = after(p1 + 1, q2);
                        let target = AssignTargetTree::Expr(Box::new(lhs));
                        Ok((ExprTree::Assignment { target, value: Box::new(v) }, p2))
                    },
                }
            } else {
                match assign_op(ts, p1) {
                    Some(op) => {
                        match assignment_at(ts, p1 + 1) {
                            Err(m) => Err(m),
                            Ok((v, q3)) => {
                                let p3 = after(p1 + 1, q3);
                                let left = lhs;
                                let target = AssignTargetTree::Expr(Box::new(lhs));
                                let value = ExprTree::Binary { op, left: Box::new(left), right: Box::new(v) };
                                Ok((ExprTree::Assignment { target, value: Box::new(value) }, p3))
                            },
                        }
                    },
                    None => {
                        Ok((lhs, p1))
                    },
                }
            }
        },
    }
}

/// [`assignment_at`] follows its rule.
#[verifier::rlimit(60)]
pub proof fn law_assignment(ts: Seq<TokenView>, p: int)
    ensures
        same(assignment_at(ts, p), assignment_rule(ts, p)),
{
    reveal(assignment_body);
    reveal(assignment_at);
    reveal(ternary_at);
    assert(same(assignment_at(ts, p), assignment_body(ts, p)));
}

/// The rule of [`ternary_at`].
pub open spec fn ternary_rule(ts: Seq<TokenView>, p: int) -> Result<(ExprTree, int), Seq<char>> {
    match logical_at(ts, p) {
        Err(m) => Err(m),
        Ok((cond, q1)) => {
            let p1 = after(p, q1);
            if punct_at(ts, p1, "?"@) {
                match assignment_at(ts, p1 + 1) {
                    Err(m) => Err(m),
                    Ok((yes, q2)) => {
                        let p2 = after(p1 + 1, q2);
                        if !punct_at(ts, p2, ":"@) {
                            Err(expected(ts, p2, ":"@))
                        } else {
                            match assignment_at(ts, p2 + 1) {
                                Err(m) => Err(m),
                                Ok((no, q3)) => {
                                    let p3 = after(p2 + 1, q3);
                                    Ok((ExprTree::Ternary { cond: Box::new(cond), yes: Box::new(yes), no: Box::new(no) }, p3))
                                },
                            }
                        }
                    },
                }
            } else {
                Ok((cond, p1))
            }
        },
    }
}

/// [`ternary_at`] follows its rule.
#[verifier::rlimit(60)]
pub proof fn law_ternary(ts: Seq<TokenView>, p: int)
    ensures
        same(ternary_at(ts, p), ternary_rule(ts, p)),
{
    reveal(ternary_body);
    reveal(ternary_at);
    reveal(logical_at);
    reveal(assignment_at);
    assert(same(ternary_at(ts, p), ternary_body(ts, p)));
}

/// The rule of [`logical_rest_at`].
pub open spec fn logical_rest_rule(ts: Seq<TokenView>, p: int, left: ExprTree) -> Result<(ExprTree, int), Seq<char>> {
    match logical_op(ts, p) {
        Some(op) => {
            match equality_at(ts, p + 1) {
                Err(m) => Err(m),
                Ok((right, q1)) => {
                    let p1 = after(p + 1, q1);
                    logical_rest_at(ts, p1, ExprTree::Logical { op, left: Box::new(left), right: Box::new(right) })
                },
            }
        },
        None => {
            Ok((left, p))
        },
    }
}

/// [`logical_rest_at`] follows its rule.
#[verifier::rlimit(60)]
pub proof fn law_logical_rest(ts: Seq<TokenView>, p: int, left: ExprTree)
    ensures
        same(logical_rest_at(ts, p, left), logical_rest_rule(ts, p, left)),
{
    reveal(logical_rest_body);
    reveal(logical_rest_at);
    reveal(equality_at);
    assert(same(logical_rest_at(ts, p, left), logical_rest_body(ts, p, left)));
}

/// The rule of [`logical_at`].
pub open spec fn logical_rule(ts: Seq<TokenView>, p: int) -> Result<(ExprTree, int), Seq<char>> {
    match equality_at(ts, p) {
        Err(m) => Err(m),
        Ok((first, q1)) => {
            let p1 = after(p, q1);
            match logical_rest_at(ts, p1, first) {
                Err(m) => Err(m),
                Ok((e, q2)) => {
                    let p2 = from(p1, q2);
                    Ok((e, p2))
                },
            }
        },
    }
}

/// [`logical_at`] follows its rule.
#[verifier::rlimit(60)]
pub proof fn law_logical(ts: Seq<TokenView>, p: int)
    ensures
        same(logical_at(ts, p), logical_rule(ts, p)),
{
    reveal(logical_body);
    reveal(logical_at);
    reveal(equality_at);
    reveal(logical_rest_at);
    assert(same(logical_at(ts, p), logical_body(ts, p)));
}

/// The rule of [`equality_rest_at`].
pub open spec fn equality_rest_rule(ts: Seq<TokenView>, p: int, left: ExprTree) -> Result<(ExprTree, int), Seq<char>> {
    match equality_op(ts, p) {
        Some(op) => {
            match relational_at(ts, p + 1) {
                Err(m) => Err(m),
                Ok((right, q1)) => {
                    let p1 = after(p + 1, q1);
                    equality_rest_at(ts, p1, ExprTree::Binary { op, left: Box::new(left), right: Box::new(right) })
                },
            }
        },
        None => {
            Ok((left, p))
        },
    }
}

/// [`equality_rest_at`] follows its rule.
#[verifier::rlimit(60)]
pub proof fn law_equality_rest(ts: Seq<TokenView>, p: int, left: ExprTree)
    ensures
        same(equality_rest_at(ts, p, left), equality_rest_rule(ts, p, left)),
{
    reveal(equality_rest_body);
    reveal(equality_rest_at);
    reveal(relational_at);
    assert(same(equality_rest_at(ts, p, left), equality_rest_body(ts, p, left)));
}

/// The rule of [`equality_at`].
pub open spec fn equality_rule(ts: Seq<TokenView>, p: int) -> Result<(ExprTree, int), Seq<char>> {
    match relational_at(ts, p) {
        Err(m) => Err(m),
        Ok((first, q1)) => {
            let p1 = after(p, q1);
            match equality_rest_at(ts, p1, first) {
                Err(m) => Err(m),
                Ok((e, q2)) => {
                    let p2 = from(p1, q2);
                    Ok((e, p2))
                },
            }
        },
    }
}

/// [`equality_at`] follows its rule.
#[verifier::rlimit(60)]
pub proof fn law_equality(ts: Seq<TokenView>, p: int)
    ensures
        same(equality_at(ts, p), equality_rule(ts, p)),
{
    reveal(equality_body);
    reveal(equality_at);
    reveal(relational_at);
    reveal(equality_rest_at);
    assert(same(equality_at(ts, p), equality_body(ts, p)));
}

/// The rule of [`relational_rest_at`].
pub open spec fn relational_rest_rule(ts: Seq<TokenView>, p: int, left: ExprTree) -> Result<(ExprTree, int), Seq<char>> {
    if kw_at(ts, p, Kw::Instanceof) {
        match additive_at(ts, p + 1) {
            Err(m) => Err(m),
            Ok((right, q1)) => {
                let p1 = after(p + 1, q1);
                relational_rest_at(ts, p1, ExprTree::InstanceOf { left: Box::new(left), right: Box::new(right) })
            },
        }
    } else {
        match relational_op(ts, p) {
            Some(op) => {
                match additive_at(ts, p + 1) {
                    Err(m) => Err(m),
                    Ok((right, q2)) => {
                        let p2 = after(p + 1, q2);
                        relational_rest_at(ts, p2, ExprTree::Binary { op, left: Box::new(left), right: Box::new(right) })
                    },
                }
            },
            None => {
                Ok((left, p))
            },
        }
    }
}

/// [`relational_rest_at`] follows its rule.
#[verifier::rlimit(60)]
pub proof fn law_relational_rest(ts: Seq<TokenView>, p: int, left: ExprTree)
    ensures
        same(relational_rest_at(ts, p, left), relational_rest_rule(ts, p, left)),
{
    reveal(relational_rest_body);
    reveal(relational_rest_at);
    reveal(additive_at);
    assert(same(relational_rest_at(ts, p, left), relational_rest_body(ts, p, left)));
}

/// The rule of [`relational_at`].
pub open spec fn relational_rule(ts: Seq<TokenView>, p: int) -> Result<(ExprTree, int), Seq<char>> {
    match additive_at(ts, p) {
        Err(m) => Err(m),
        Ok((first, q1)) => {
            let p1 = after(p, q1);
            match relational_rest_at(ts, p1, first) {
                Err(m) => Err(m),
                Ok((e, q2)) => {
                    let p2 = from(p1, q2);
                    Ok((e, p2))
                },
            }
        },
    }
}

/// [`relational_at`] follows its rule.
#[verifier::rlimit(60)]
pub proof fn law_relational(ts: Seq<TokenView>, p: int)
    ensures
        same(relational_at(ts, p), relational_rule(ts, p)),
{
    reveal(relational_body);
    reveal(relational_at);
    reveal(additive_at);
    reveal(relational_rest_at);
    assert(same(relational_at(ts, p), relational_body(ts, p)));
}

/// The rule of [`additive_rest_at`].
pub open spec fn additive_rest_rule(ts: Seq<TokenView>, p: int, left: ExprTree) -> Result<(ExprTree, int), Seq<char>> {
    match additive_op(ts, p) {
        Some(op) => {
            match multiplicative_at(ts, p + 1) {
                Err(m) => Err(m),
                Ok((right, q1)) => {
                    let p1 = after(p + 1, q1);
                    additive_rest_at(ts, p1, ExprTree::Binary { op, left: Box::new(left), right: Box::new(right) })
                },
            }
        },
        None => {
            Ok((left, p))
        },
    }
}

/// [`additive_rest_at`] follows its rule.
#[verifier::rlimit(60)]
pub proof fn law_additive_rest(ts: Seq<TokenView>, p: int, left: ExprTree)
    ensures
        same(additive_rest_at(ts, p, left), additive_rest_rule(ts, p, left)),
{
    reveal(additive_rest_body);
    reveal(additive_rest_at);
    reveal(multiplicative_at);
    assert(same(additive_rest_at(ts, p, left), additive_rest_body(ts, p, left)));
}

/// The rule of [`additive_at`].
pub open spec fn additive_rule(ts: Seq<TokenView>, p: int) -> Result<(ExprTree, int), Seq<char>> {
    match multiplicative_at(ts, p) {
        Err(m) => Err(m),
        Ok((first, q1)) => {
            let p1 = after(p, q1);
            match additive_rest_at(ts, p1, first) {
                Err(m) => Err(m),
                Ok((e, q2)) => {
                    let p2 = from(p1, q2);
                    Ok((e, p2))
                },
            }
        },
    }
}

/// [`additive_at`] follows its rule.
#[verifier::rlimit(60)]
pub proof fn law_additive(ts: Seq<TokenView>, p: int)
    ensures
        same(additive_at(ts, p), additive_rule(ts, p)),
{
    reveal(additive_body);
    reveal(additive_at);
    reveal(multiplicative_at);
    reveal(additive_rest_at);
    assert(same(additive_at(ts, p), additive_body(ts, p)));
}

/// The rule of [`multiplicative_rest_at`].
pub open spec fn multiplicative_rest_rule(ts: Seq<TokenView>, p: int, left: ExprTree) -> Result<(ExprTree, int), Seq<char>> {
    match multiplicative_op(ts, p) {
        Some(op) => {
            match unary_at(ts, p + 1) {
                Err(m) => Err(m),
                Ok((right, q1)) => {
                    let p1 = after(p + 1, q1);
                    multiplicative_rest_at(ts, p1, ExprTree::Binary { op, left: Box::new(left), right: Box::new(right) })
                },
            }
        },
        None => {
            Ok((left, p))
        },
    }
}

/// [`multiplicative_rest_at`] follows its rule.
#[verifier::rlimit(60)]
pub proof fn law_multiplicative_rest(ts: Seq<TokenView>, p: int, left: ExprTree)
    ensures
        same(multiplicative_rest_at(ts, p, left), multiplicative_rest_rule(ts, p, left)),
{
    reveal(multiplicative_rest_body);
    reveal(multiplicative_rest_at);
    reveal(unary_at);
    assert(same(multiplicative_rest_at(ts, p, left), multiplicative_rest_body(ts, p, left)));
}

/// The rule of [`multiplicative_at`].
pub open spec fn multiplicative_rule(ts: Seq<TokenView>, p: int) -> Result<(ExprTree, int), Seq<char>> {
    match unary_at(ts, p) {
        Err(m) => Err(m),
        Ok((first, q1)) => {
            let p1 = after(p, q1);
            match multiplicative_rest_at(ts, p1, first) {
                Err(m) => Err(m),
                Ok((e, q2)) => {
                    let p2 = from(p1, q2);
                    Ok((e, p2))
                },
            }
        },
    }
}

/// [`multiplicative_at`] follows its rule.
#[verifier::rlimit(60)]
pub proof fn law_multiplicative(ts: Seq<TokenView>, p: int)
    ensures
        same(multiplicative_at(ts, p), multiplicative_rule(ts, p)),
{
    reveal(multiplicative_body);
    reveal(multiplicative_at);
    reveal(unary_at);
    reveal(multiplicative_rest_at);
    assert(same(multiplicative_at(ts, p), multiplicative_body(ts, p)));
}

/// The rule of [`unary_at`].
pub open spec fn unary_rule(ts: Seq<TokenView>, p: int) -> Result<(ExprTree, int), Seq<char>> {
    match prefix_op(ts, p) {
        Some(op) => {
            match unary_at(ts, p + 1) {
                Err(m) => Err(m),
                Ok((operand, q1)) => {
                    let p1 = after(p + 1, q1);
                    Ok((ExprTree::Unary { op, operand: Box::new(operand) }, p1))
                },
            }
        },
        None => {
            match postfix_at(ts, p) {
                Err(m) => Err(m),
                Ok((e, q2)) => {
                    let p2 = after(p, q2);
                    Ok((e, p2))
                },
            }
        },
    }
}

/// [`unary_at`] follows its rule.
#[verifier::rlimit(60)]
pub proof fn law_unary(ts: Seq<TokenView>, p: int)
    ensures
        same(unary_at(ts, p), unary_rule(ts, p)),
{
    reveal(unary_body);
    reveal(unary_at);
    reveal(postfix_at);
    assert(same(unary_at(ts, p), unary_body(ts, p)));
}

/// The rule of [`postfix_rest_at`].
pub open spec fn postfix_rest_rule(ts: Seq<TokenView>, p: int, node: ExprTree) -> Result<(ExprTree, int), Seq<char>> {
    if punct_at(ts, p, "."@) {
        if !kind_at(ts, p + 1, TokenKind::Ident) {
            Err("expected identifier"@)
        } else {
            let prop = ts[p + 1].text;
            postfix_rest_at(ts, p + 2, ExprTree::Member { obj: Box::new(node), prop, computed: None, optional: false })
        }
    } else if punct_at(ts, p, "["@) {
        match index_at(ts, p + 1, node) {
            Err(m) => Err(m),
            Ok((e, q1)) => {
                let p1 = after(p + 1, q1);
                postfix_rest_at(ts, p1, e)
            },
        }
    } else if punct_at(ts, p, "("@) {
        match call_at(ts, p + 1, node) {
            Err(m) => Err(m),
            Ok((e, q2)) => {
                let p2 = after(p + 1, q2);
                postfix_rest_at(ts, p2, e)
            },
        }
    } else {
        match postfix_op(ts, p) {
            Some(op) => {
                postfix_rest_at(ts, p + 1, ExprTree::Unary { op, operand: Box::new(node) })
            },
            None => {
                Ok((node, p))
            },
        }
    }
}

/// [`postfix_rest_at`] follows its rule.
#[verifier::rlimit(60)]
pub proof fn law_postfix_rest(ts: Seq<TokenView>, p: int, node: ExprTree)
    ensures
        same(postfix_rest_at(ts, p, node), postfix_rest_rule(ts, p, node)),
{
    reveal(postfix_rest_body);
    reveal(postfix_rest_at);
    reveal(index_at);
    reveal(call_at);
    assert(same(postfix_rest_at(ts, p, node), postfix_rest_body(ts, p, node)));
}

/// The rule of [`index_at`].
pub open spec fn index_rule(ts: Seq<TokenView>, p: int, obj: ExprTree) -> Result<(ExprTree, int), Seq<char>> {
    match expr_at(ts, p) {
        Err(m) => Err(m),
        Ok((index, q1)) => {
            let p1 = after(p, q1);
            if !punct_at(ts, p1, "]"@) {
                Err(expected(ts, p1, "]"@))
            } else {
                Ok((ExprTree::Member { obj: Box::new(obj), prop: ""@, computed: Some(Box::new(index)), optional: false }, p1 + 1))
            }
        },
    }
}

/// [`index_at`] follows its rule.
#[verifier::rlimit(60)]
pub proof fn law_index(ts: Seq<TokenView>, p: int, obj: ExprTree)
    ensures
        same(index_at(ts, p, obj), index_rule(ts, p, obj)),
{
    reveal(index_body);
    reveal(index_at);
    reveal(expr_at);
    assert(same(index_at(ts, p, obj), index_body(ts, p, obj)));
}

/// The rule of [`call_at`].
pub open spec fn call_rule(ts: Seq<TokenView>, p: int, callee: ExprTree) -> Result<(ExprTree, int), Seq<char>> {
    match args_at(ts, p) {
        Err(m) => Err(m),
        Ok((args, q1)) => {
            let p1 = after(p, q1);
            Ok((ExprTree::Call { callee: Box::new(callee), args, optional: false }, p1))
        },
    }
}

/// [`call_at`] follows its rule.
#[verifier::rlimit(60)]
pub proof fn law_call(ts: Seq<TokenView>, p: int, callee: ExprTree)
    ensures
        same(call_at(ts, p, callee), call_rule(ts, p, callee)),
{
    reveal(call_body);
    reveal(call_at);
    reveal(args_at);
    assert(same(call_at(ts, p, callee), call_body(ts, p, callee)));
}

/// The rule of [`postfix_at`].
pub open spec fn postfix_rule(ts: Seq<TokenView>, p: int) -> Result<(ExprTree, int), Seq<char>> {
    match primary_at(ts, p) {
        Err(m) => Err(m),
        Ok((first, q1)) => {
            let p1 = after(p, q1);
            match postfix_rest_at(ts, p1, first) {
                Err(m) => Err(m),
                Ok((e, q2)) => {
                    let p2 = from(p1, q2);
                    Ok((e, p2))
                },
            }
        },
    }
}

/// [`postfix_at`] follows its rule.
#[verifier::rlimit(60)]
pub proof fn law_postfix(ts: Seq<TokenView>, p: int)
    ensures
        same(postfix_at(ts, p), postfix_rule(ts, p)),
{
    reveal(postfix_body);
    reveal(postfix_at);
    reveal(primary_at);
    reveal(postfix_rest_at);
    assert(same(postfix_at(ts, p), postfix_body(ts, p)));
}

/// The rule of [`arg_list_at`].
pub open spec fn arg_list_rule(ts: Seq<TokenView>, p: int, list: Seq<ArgTree>) -> Result<(Seq<ArgTree>, int), Seq<char>> {
    match expr_at(ts, p) {
        Err(m) => Err(m),
        Ok((e, q1)) => {
            let p1 = after(p, q1);
            if punct_at(ts, p1, ","@) {
                arg_list_at(ts, p1 + 1, list.push(ArgTree::Expr(e)))
            } else {
                Ok((list.push(ArgTree::Expr(e)), p1))
            }
        },
    }
}

/// [`arg_list_at`] follows its rule.
#[verifier::rlimit(60)]
pub proof fn law_arg_list(ts: Seq<TokenView>, p: int, list: Seq<ArgTree>)
    ensures
        same(arg_list_at(ts, p, list), arg_list_rule(ts, p, list)),
{
    reveal(arg_list_body);
    reveal(arg_list_at);
    reveal(expr_at);
    assert(same(arg_list_at(ts, p, list), arg_list_body(ts, p, list)));
}

/// The rule of [`args_at`].
pub open spec fn args_rule(ts: Seq<TokenView>, p: int) -> Result<(Seq<ArgTree>, int), Seq<char>> {
    if punct_at(ts, p, ")"@) {
        Ok((Seq::empty(), p + 1))
    } else {
        match arg_list_at(ts, p, Seq::empty()) {
            Err(m) => Err(m),
            Ok((list, q1)) => {
                let p1 = from(p, q1);
                if !punct_at(ts, p1, ")"@) {
                    Err(expected(ts, p1, ")"@))
                } else {
                    Ok((list, p1 + 1))
                }
            },
        }
    }
}

/// [`args_at`] follows its rule.
#[verifier::rlimit(60)]
pub proof fn law_args(ts: Seq<TokenView>, p: int)
    ensures
        same(args_at(ts, p), args_rule(ts, p)),
{
    reveal(args_body);
    reveal(args_at);
    reveal(arg_list_at);
    assert(same(args_at(ts, p), args_body(ts, p)));
}

/// The rule of [`primary_at`].
pub open spec fn primary_rule(ts: Seq<TokenView>, p: int) -> Result<(ExprTree, int), Seq<char>> {
    if kind_at(ts, p, TokenKind::Number) {
        let t = number_text(ts[p].text);
        Ok((ExprTree::Lit(LitTree::Number(t)), p + 1))
    } else if kind_at(ts, p, TokenKind::Str) {
        let t = ts[p].text;
        Ok((ExprTree::Lit(LitTree::Str(t)), p + 1))
    } else if kw_at(ts, p, Kw::True) {
        Ok((ExprTree::Lit(LitTree::Bool(true)), p + 1))
    } else if kw_at(ts, p, Kw::False) {
        Ok((ExprTree::Lit(LitTree::Bool(false)), p + 1))
    } else if kw_at(ts, p, Kw::Undefined) {
        Ok((ExprTree::Lit(LitTree::Undefined), p + 1))
    } else if kw_at(ts, p, Kw::Null) {
        Ok((ExprTree::Lit(LitTree::Null), p + 1))
    } else if kw_at(ts, p, Kw::This) {
        Ok((ExprTree::This, p + 1))
    } else if kw_at(ts, p, Kw::Function) {
        match function_expr_at(ts, p + 1) {
            Err(m) => Err(m),
            Ok((e, q1)) => {
                let p1 = after(p + 1, q1);
                Ok((e, p1))
            },
        }
    } else if kw_at(ts, p, Kw::New) {
        match new_rest_at(ts, p + 1) {
            Err(m) => Err(m),
            Ok((e, q2)) => {
                let p2 = after(p + 1, q2);
                Ok((e, p2))
            },
        }
    } else if kind_at(ts, p, TokenKind::Ident) {
        let t = ts[p].text;
        Ok((ExprTree::Ident(t), p + 1))
    } else if punct_at(ts, p, "("@) {
        match expr_at(ts, p + 1) {
            Err(m) => Err(m),
            Ok((e, q3)) => {
                let p3 = after(p + 1, q3);
                if !punct_at(ts, p3, ")"@) {
                    Err(expected(ts, p3, ")"@))
                } else {
                    Ok((e, p3 + 1))
                }
            },
        }
    } else if punct_at(ts, p, "["@) {
        match array_at(ts, p + 1) {
            Err(m) => Err(m),
            Ok((e, q4)) => {
                let p4 = after(p + 1, q4);
                Ok((e, p4))
            },
        }
    } else if punct_at(ts, p, "{"@) {
        match object_at(ts, p + 1) {
            Err(m) => Err(m),
            Ok((e, q5)) => {
                let p5 = after(p + 1, q5);
                Ok((e, p5))
            },
        }
    } else {
        Err(unexpected(ts, p))
    }
}

/// [`primary_at`] follows its rule.
#[verifier::rlimit(60)]
pub proof fn law_primary(ts: Seq<TokenView>, p: int)
    ensures
        same(primary_at(ts, p), primary_rule(ts, p)),
{
    reveal(primary_body);
    reveal(primary_at);
    reveal(function_expr_at);
    reveal(new_rest_at);
    reveal(expr_at);
    reveal(array_at);
    reveal(object_at);
    assert(same(primary_at(ts, p), primary_body(ts, p)));
}

/// The rule of [`function_expr_at`].
pub open spec fn function_expr_rule(ts: Seq<TokenView>, p: int) -> Result<(ExprTree, int), Seq<char>> {
    if kind_at(ts, p, TokenKind::Ident) {
        match params_at(ts, p + 1) {
            Err(m) => Err(m),
            Ok((params, q1)) => {
                let p1 = after(p + 1, q1);
                match block_stmts_at(ts, p1) {
                    Err(m) => Err(m),
                    Ok((body, q2)) => {
                        let p2 = after(p1, q2);
                        Ok((ExprTree::Function { name: None, params, body }, p2))
                    },
                }
            },
        }
    } else {
        match params_at(ts, p) {
            Err(m) => Err(m),
            Ok((params, q3)) => {
                let p3 = after(p, q3);
                match block_stmts_at(ts, p3) {
                    Err(m) => Err(m),
                    Ok((body, q4)) => {
                        let p4 = after(p3, q4);
                        Ok((ExprTree::Function { name: None, params, body }, p4))
                    },
                }
            },
        }
    }
}

/// [`function_expr_at`] follows its rule.
#[verifier::rlimit(60)]
pub proof fn law_function_expr(ts: Seq<TokenView>, p: int)
    ensures
        same(function_expr_at(ts, p), function_expr_rule(ts, p)),
{
    reveal(function_expr_body);
    reveal(function_expr_at);
    reveal(params_at);
    reveal(block_stmts_at);
    assert(same(function_expr_at(ts, p), function_expr_body(ts, p)));
}

/// The rule of [`new_args_at`].
pub open spec fn new_args_rule(ts: Seq<TokenView>, p: int) -> Result<(Seq<ArgTree>, int), Seq<char>> {
    if punct_at(ts, p, "("@) {
        match args_at(ts, p + 1) {
            Err(m) => Err(m),
            Ok((list, q1)) => {
                let p1 = after(p + 1, q1);
                Ok((list, p1))
            },
        }
    } else {
        Ok((Seq::empty(), p))
    }
}

/// [`new_args_at`] follows its rule.
#[verifier::rlimit(60)]
pub proof fn law_new_args(ts: Seq<TokenView>, p: int)
    ensures
        same(new_args_at(ts, p), new_args_rule(ts, p)),
{
    reveal(new_args_body);
    reveal(new_args_at);
    reveal(args_at);
    assert(same(new_args_at(ts, p), new_args_body(ts, p)));
}

/// The rule of [`new_rest_at`].
pub open spec fn new_rest_rule(ts: Seq<TokenView>, p: int) -> Result<(ExprTree, int), Seq<char>> {
    match primary_at(ts, p) {
        Err(m) => Err(m),
        Ok((callee, q1)) => {
            let p1 = after(p, q1);
            match new_args_at(ts, p1) {
                Err(m) => Err(m),
                Ok((args, q2)) => {
                    let p2 = from(p1, q2);
                    Ok((ExprTree::New { callee: Box::new(callee), args }, p2))
                },
            }
        },
    }
}

/// [`new_rest_at`] follows its rule.
#[verifier::rlimit(60)]
pub proof fn law_new_rest(ts: Seq<TokenView>, p: int)
    ensures
        same(new_rest_at(ts, p), new_rest_rule(ts, p)),
{
    reveal(new_rest_body);
    reveal(new_rest_at);
    reveal(primary_at);
    reveal(new_args_at);
    assert(same(new_rest_at(ts, p), new_rest_body(ts, p)));
}

/// The rule of [`elem_list_at`].
pub open spec fn elem_list_rule(ts: Seq<TokenView>, p: int, list: Seq<ArrayElemTree>) -> Result<(Seq<ArrayElemTree>, int), Seq<char>> {
    match expr_at(ts, p) {
        Err(m) => Err(m),
        Ok((e, q1)) => {
            let p1 = after(p, q1);
            if punct_at(ts, p1, ","@) {
                elem_list_at(ts, p1 + 1, list.push(ArrayElemTree::Expr(e)))
            } else {
                Ok((list.push(ArrayElemTree::Expr(e)), p1))
            }
        },
    }
}

/// [`elem_list_at`] follows its rule.
#[verifier::rlimit(60)]
pub proof fn law_elem_list(ts: Seq<TokenView>, p: int, list: Seq<ArrayElemTree>)
    ensures
        same(elem_list_at(ts, p, list), elem_list_rule(ts, p, list)),
{
    reveal(elem_list_body);
    reveal(elem_list_at);
    reveal(expr_at);
    assert(same(elem_list_at(ts, p, list), elem_list_body(ts, p, list)));
}

/// The rule of [`array_at`].
pub open spec fn array_rule(ts: Seq<TokenView>, p: int) -> Result<(ExprTree, int), Seq<char>> {
    if punct_at(ts, p, "]"@) {
        match no_elems_at(ts, p + 1) {
            Err(m) => Err(m),
            Ok((list, q1)) => {
                let p1 = from(p + 1, q1);
                Ok((ExprTree::Array(list), p1))
            },
        }
    } else {
        match elem_list_at(ts, p, Seq::empty()) {
            Err(m) => Err(m),
            Ok((list, q2)) => {
                let p2 = from(p, q2);
                if !punct_at(ts, p2, "]"@) {
                    Err(expected(ts, p2, "]"@))
                } else {
                    Ok((ExprTree::Array(list), p2 + 1))
                }
            },
        }
    }
}

/// [`array_at`] follows its rule.
#[verifier::rlimit(60)]
pub proof fn law_array(ts: Seq<TokenView>, p: int)
    ensures
        same(array_at(ts, p), array_rule(ts, p)),
{
    reveal(array_body);
    reveal(array_at);
    reveal(no_elems_at);
    reveal(elem_list_at);
    assert(same(array_at(ts, p), array_body(ts, p)));
}

/// The rule of [`no_elems_at`].
pub open spec fn no_elems_rule(ts: Seq<TokenView>, p: int) -> Result<(Seq<ArrayElemTree>, int), Seq<char>> {
    Ok((Seq::empty(), p))
}

/// [`no_elems_at`] follows its rule.
#[verifier::rlimit(60)]
pub proof fn law_no_elems(ts: Seq<TokenView>, p: int)
    ensures
        same(no_elems_at(ts, p), no_elems_rule(ts, p)),
{
    reveal(no_elems_body);
    reveal(no_elems_at);
    assert(same(no_elems_at(ts, p), no_elems_body(ts, p)));
}

/// The rule of [`prop_list_at`].
pub open spec fn prop_list_rule(ts: Seq<TokenView>, p: int, list: Seq<PropTree>) -> Result<(Seq<PropTree>, int), Seq<char>> {
    if punct_at(ts, p, "}"@) || end_at(ts, p) {
        Ok((list, p))
    } else {
        match prop_at(ts, p) {
            Err(m) => Err(m),
            Ok((p0, q1)) => {
                let p1 = after(p, q1);
                if punct_at(ts, p1, ","@) {
                    prop_list_at(ts, p1 + 1, list.push(p0))
                } else {
                    Ok((list.push(p0), p1))
                }
            },
        }
    }
}

/// [`prop_list_at`] follows its rule.
#[verifier::rlimit(60)]
pub proof fn law_prop_list(ts: Seq<TokenView>, p: int, list: Seq<PropTree>)
    ensures
        same(prop_list_at(ts, p, list), prop_list_rule(ts, p, list)),
{
    reveal(prop_list_body);
    reveal(prop_list_at);
    reveal(prop_at);
    assert(same(prop_list_at(ts, p, list), prop_list_body(ts, p, list)));
}

/// The rule of [`prop_at`].
pub open spec fn prop_rule(ts: Seq<TokenView>, p: int) -> Result<(PropTree, int), Seq<char>> {
    if kind_at(ts, p, TokenKind::Ident) && text_at(ts, p, "get"@) {
        let t = ts[p].text;
        if punct_at(ts, p + 1, ":"@) || punct_at(ts, p + 1, "("@) {
            let key = PropKeyTree::Ident(t);
            match prop_rest_at(ts, p + 1, key) {
                Err(m) => Err(m),
                Ok((p0, q1)) => {
                    let p1 = after(p + 1, q1);
                    Ok((p0, p1))
                },
            }
        } else {
            match getter_at(ts, p + 1) {
                Err(m) => Err(m),
                Ok((p0, q2)) => {
                    let p2 = after(p + 1, q2);
                    Ok((p0, p2))
                },
            }
        }
    } else if kind_at(ts, p, TokenKind::Ident) && text_at(ts, p, "set"@) {
        let t = ts[p].text;
        if punct_at(ts, p + 1, ":"@) || punct_at(ts, p + 1, "("@) {
            let key = PropKeyTree::Ident(t);
            match prop_rest_at(ts, p + 1, key) {
                Err(m) => Err(m),
                Ok((p0, q3)) => {
                    let p3 = after(p + 1, q3);
                    Ok((p0, p3))
                },
            }
        } else {
            match setter_at(ts, p + 1) {
                Err(m) => Err(m),
                Ok((p0, q4)) => {
                    let p4 = after(p + 1, q4);
                    Ok((p0, p4))
                },
            }
        }
    } else {
        match prop_key_at(ts, p) {
            Err(m) => Err(m),
            Ok((key, q5)) => {
                let p5 = after(p, q5);
                match prop_rest_at(ts, p5, key) {
                    Err(m) => Err(m),
                    Ok((p0, q6)) => {
                        let p6 = after(p5, q6);
                        Ok((p0, p6))
                    },
                }
            },
        }
    }
}

/// [`prop_at`] follows its rule.
#[verifier::rlimit(60)]
pub proof fn law_prop(ts: Seq<TokenView>, p: int)
    ensures
        same(prop_at(ts, p), prop_rule(ts, p)),
{
    reveal(prop_body);
    reveal(prop_at);
    reveal(prop_rest_at);
    reveal(getter_at);
    reveal(setter_at);
    reveal(prop_key_at);
    assert(same(prop_at(ts, p), prop_body(ts, p)));
}

/// The rule of [`prop_rest_at`].
pub open spec fn prop_rest_rule(ts: Seq<TokenView>, p: int, key: PropKeyTree) -> Result<(PropTree, int), Seq<char>> {
    if punct_at(ts, p, "("@) {
        match params_at(ts, p) {
            Err(m) => Err(m),
            Ok((params, q1)) => {
                let p1 = after(p, q1);
                match block_stmts_at(ts, p1) {
                    Err(m) => Err(m),
                    Ok((body, q2)) => {
                        let p2 = after(p1, q2);
                        Ok((PropTree::Method { key, params, body }, p2))
                    },
                }
            },
        }
    } else if !punct_at(ts, p, ":"@) {
        Err(expected(ts, p, ":"@))
    } else {
        match expr_at(ts, p + 1) {
            Err(m) => Err(m),
            Ok((value, q3)) => {
                let p3 = after(p + 1, q3);
                Ok((PropTree::Init { key, value }, p3))
            },
        }
    }
}

/// [`prop_rest_at`] follows its rule.
#[verifier::rlimit(60)]
pub proof fn law_prop_rest(ts: Seq<TokenView>, p: int, key: PropKeyTree)
    ensures
        same(prop_rest_at(ts, p, key), prop_rest_rule(ts, p, key)),
{
    reveal(prop_rest_body);
    reveal(prop_rest_at);
    reveal(params_at);
    reveal(block_stmts_at);
    reveal(expr_at);
    assert(same(prop_rest_at(ts, p, key), prop_rest_body(ts, p, key)));
}

/// The rule of [`getter_at`].
pub open spec fn getter_rule(ts: Seq<TokenView>, p: int) -> Result<(PropTree, int), Seq<char>> {
    match prop_key_at(ts, p) {
        Err(m) => Err(m),
        Ok((key, q1)) => {
            let p1 = after(p, q1);
            if !punct_at(ts, p1, "("@) {
                Err(expected(ts, p1, "("@))
            } else if !punct_at(ts, p1 + 1, ")"@) {
                Err(expected(ts, p1 + 1, ")"@))
            } else {
                match no_params_at(ts, p1 + 2) {
                    Err(m) => Err(m),
                    Ok((params, q2)) => {
                        let p2 = from(p1 + 2, q2);
                        match block_stmts_at(ts, p2) {
                            Err(m) => Err(m),
                            Ok((body, q3)) => {
                                let p3 = after(p2, q3);
                                Ok((PropTree::Accessor { get: true, key, params, body }, p3))
                            },
                        }
                    },
                }
            }
        },
    }
}

/// [`getter_at`] follows its rule.
#[verifier::rlimit(60)]
pub proof fn law_getter(ts: Seq<TokenView>, p: int)
    ensures
        same(getter_at(ts, p), getter_rule(ts, p)),
{
    reveal(getter_body);
    reveal(getter_at);
    reveal(prop_key_at);
    reveal(no_params_at);
    reveal(block_stmts_at);
    assert(same(getter_at(ts, p), getter_body(ts, p)));
}

/// The rule of [`setter_at`].
pub open spec fn setter_rule(ts: Seq<TokenView>, p: int) -> Result<(PropTree, int), Seq<char>> {
    match prop_key_at(ts, p) {
        Err(m) => Err(m),
        Ok((key, q1)) => {
            let p1 = after(p, q1);
            if !punct_at(ts, p1, "("@) {
                Err(expected(ts, p1, "("@))
            } else if !kind_at(ts, p1 + 1, TokenKind::Ident) {
                Err("expected identifier"@)
            } else {
                let name = ts[p1 + 1].text;
                if !punct_at(ts, p1 + 2, ")"@) {
                    Err(expected(ts, p1 + 2, ")"@))
                } else {
                    let pat = PatternTree::Ident(name);
                    match one_param_at(ts, p1 + 2 + 1, pat) {
                        Err(m) => Err(m),
                        Ok((params, q2)) => {
                            let p2 = from(p1 + 2 + 1, q2);
                            match block_stmts_at(ts, p2) {
                                Err(m) => Err(m),
                                Ok((body, q3)) => {
                                    let p3 = after(p2, q3);
                                    Ok((PropTree::Accessor { get: false, key, params, body }, p3))
                                },
                            }
                        },
                    }
                }
            }
        },
    }
}

/// [`setter_at`] follows its rule.
#[verifier::rlimit(60)]
pub proof fn law_setter(ts: Seq<TokenView>, p: int)
    ensures
        same(setter_at(ts, p), setter_rule(ts, p)),
{
    reveal(setter_body);
    reveal(setter_at);
    reveal(prop_key_at);
    reveal(one_param_at);
    reveal(block_stmts_at);
    assert(same(setter_at(ts, p), setter_body(ts, p)));
}

/// The rule of [`no_params_at`].
pub open spec fn no_params_rule(ts: Seq<TokenView>, p: int) -> Result<(Seq<PatternTree>, int), Seq<char>> {
    Ok((Seq::empty(), p))
}

/// [`no_params_at`] follows its rule.
#[verifier::rlimit(60)]
pub proof fn law_no_params(ts: Seq<TokenView>, p: int)
    ensures
        same(no_params_at(ts, p), no_params_rule(ts, p)),
{
    reveal(no_params_body);
    reveal(no_params_at);
    assert(same(no_params_at(ts, p), no_params_body(ts, p)));
}

/// The rule of [`one_param_at`].
pub open spec fn one_param_rule(ts: Seq<TokenView>, p: int, p0: PatternTree) -> Result<(Seq<PatternTree>, int), Seq<char>> {
    Ok((seq![p0], p))
}

/// [`one_param_at`] follows its rule.
#[verifier::rlimit(60)]
pub proof fn law_one_param(ts: Seq<TokenView>, p: int, p0: PatternTree)
    ensures
        same(one_param_at(ts, p, p0), one_param_rule(ts, p, p0)),
{
    reveal(one_param_body);
    reveal(one_param_at);
    assert(same(one_param_at(ts, p, p0), one_param_body(ts, p, p0)));
}

/// The rule of [`bare_declarator_at`].
pub open spec fn bare_declarator_rule(ts: Seq<TokenView>, p: int, d: DeclaratorTree) -> Result<(Seq<DeclaratorTree>, int), Seq<char>> {
    Ok((seq![d], p))
}

/// [`bare_declarator_at`] follows its rule.
#[verifier::rlimit(60)]
pub proof fn law_bare_declarator(ts: Seq<TokenView>, p: int, d: DeclaratorTree)
    ensures
        same(bare_declarator_at(ts, p, d), bare_declarator_rule(ts, p, d)),
{
    reveal(bare_declarator_body);
    reveal(bare_declarator_at);
    assert(same(bare_declarator_at(ts, p, d), bare_declarator_body(ts, p, d)));
}

/// The rule of [`object_at`].
pub open spec fn object_rule(ts: Seq<TokenView>, p: int) -> Result<(ExprTree, int), Seq<char>> {
    match prop_list_at(ts, p, Seq::empty()) {
        Err(m) => Err(m),
        Ok((list, q1)) => {
            let p1 = from(p, q1);
            if !punct_at(ts, p1, "}"@) {
                Err(expected(ts, p1, "}"@))
            } else {
                Ok((ExprTree::Object(list), p1 + 1))
            }
        },
    }
}

/// [`object_at`] follows its rule.
#[verifier::rlimit(60)]
pub proof fn law_object(ts: Seq<TokenView>, p: int)
    ensures
        same(object_at(ts, p), object_rule(ts, p)),
{
    reveal(object_body);
    reveal(object_at);
    reveal(prop_list_at);
    assert(same(object_at(ts, p), object_body(ts, p)));
}

/// The rule of [`prop_key_at`].
pub open spec fn prop_key_rule(ts: Seq<TokenView>, p: int) -> Result<(PropKeyTree, int), Seq<char>> {
    if kind_at(ts, p, TokenKind::Ident) {
        let t = ts[p].text;
        Ok((PropKeyTree::Ident(t), p + 1))
    } else if kind_at(ts, p, TokenKind::Str) || kind_at(ts, p, TokenKind::Number) {
        let t = ts[p].text;
        Ok((PropKeyTree::Str(t), p + 1))
    } else if anykw_at(ts, p) {
        let t = ts[p].text;
        Ok((PropKeyTree::Ident(t), p + 1))
    } else if punct_at(ts, p, "["@) {
        match expr_at(ts, p + 1) {
            Err(m) => Err(m),
            Ok((e, q1)) => {
                let p1 = after(p + 1, q1);
                if !punct_at(ts, p1, "]"@) {
                    Err(expected(ts, p1, "]"@))
                } else {
                    Ok((PropKeyTree::Computed(Box::new(e)), p1 + 1))
                }
            },
        }
    } else {
        Err(no_key(ts, p))
    }
}

/// [`prop_key_at`] follows its rule.
#[verifier::rlimit(60)]
pub proof fn law_prop_key(ts: Seq<TokenView>, p: int)
    ensures
        same(prop_key_at(ts, p), prop_key_rule(ts, p)),
{
    reveal(prop_key_body);
    reveal(prop_key_at);
    reveal(expr_at);
    assert(same(prop_key_at(ts, p), prop_key_body(ts, p)));
}

/// What a source text holds: its syntax tree, or the message of its first fault.
pub open spec fn parsed(s: Seq<char>) -> Result<ProgramTree, Seq<char>> {
    match lexed(s, 0, 1).2 {
        Err(m) => Err(m),
        Ok(ts) => match program_at(ts, 0, Seq::empty()) {
            Err(m) => Err(m),
            Ok((stmts, _)) => Ok(ProgramTree { stmts, strict: false }),
        },
    }
}

} // verus!
