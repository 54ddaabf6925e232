//! What the syntax tree of the outside parser stands for.
//!
//! The tree comes as JSON in the shape of ESTree. For every kind of node a function
//! says which node of this engine it becomes, or which error refuses it. Each
//! follows its rule; a law says so. `strict` says whether the script is strict code.
use vstd::prelude::*;
use crate::ast::{
    ArgTree, ArrayElemTree, AssignTargetTree, BinaryOp, CatchClauseTree, ClassElemTree, ClassTree, DeclaratorTree, ExprTree, LitTree, LogicalOp, PatternTree,
    ProgramTree, PropKeyTree, PropPatternTree, PropTree, StmtTree, SwitchCaseTree, UnaryOp, VarKind,
};
use crate::error::{Error, ErrorView};
use crate::json::{count, field, flag, height, is_kind, item, lemma_field_height, lemma_item_height, number_in, text_in, JsonTree};
use crate::scope::redeclared;
use crate::text::index_of_key;

verus! {

broadcast use {lemma_field_height, lemma_item_height};

/// Whether two results are the same.
pub open spec fn same<T>(a: Result<T, ErrorView>, b: Result<T, ErrorView>) -> bool {
    a == b
}

/// Whether a result is a node.
pub open spec fn lowered<T>(r: Result<T, ErrorView>, v: T) -> bool {
    r == Ok::<T, ErrorView>(v)
}

/// Whether a result is an error.
pub open spec fn refused<T>(r: Result<T, ErrorView>, e: Error) -> bool {
    r == Err::<T, ErrorView>(e@)
}

/// A result as one that is there.
pub open spec fn some_of<T>(r: Result<T, ErrorView>) -> Result<Option<T>, ErrorView> {
    match r {
        Ok(v) => Ok(Some(v)),
        Err(e) => Err(e),
    }
}

/// Whether a statement is a function declaration under one or more labels.
pub open spec fn labelled_function(j: JsonTree) -> bool
    decreases height(j),
{
    is_kind(j, "LabeledStatement"@) && (is_kind(field(j, "body"@), "FunctionDeclaration"@) || labelled_function(field(j, "body"@)))
}

/// The last item of a list.
pub open spec fn last_item(j: JsonTree) -> JsonTree {
    item(j, count(j) - 1)
}

/// The body of a function: that of a generator or of an async function is marked.
pub open spec fn wrapped(list: Seq<StmtTree>, generator: bool, asynchronous: bool) -> Seq<StmtTree> {
    if generator {
        seq![StmtTree::GeneratorBody(list)]
    } else if asynchronous {
        seq![StmtTree::AsyncBody(list)]
    } else {
        list
    }
}

/// A list of one statement.
pub open spec fn one_stmt(s: StmtTree) -> Seq<StmtTree> {
    seq![s]
}

/// A list of one declarator.
pub open spec fn one_decl(d: DeclaratorTree) -> Seq<DeclaratorTree> {
    seq![d]
}

/// A pattern that may be missing, boxed.
pub open spec fn boxed(p: Option<PatternTree>) -> Option<Box<PatternTree>> {
    match p {
        Some(v) => Some(Box::new(v)),
        None => None,
    }
}

/// The name of an identifier that may be missing.
pub open spec fn id_name(j: JsonTree) -> Option<Seq<char>> {
    if j is Null { None } else { Some(text_in(field(j, "name"@))) }
}

/// The name of a private member.
pub open spec fn hashed(j: JsonTree) -> Seq<char> {
    "#"@ + text_in(j)
}

/// How a declaration binds. What is neither `var` nor `const` binds as `let` does.
pub open spec fn kind_of(j: JsonTree) -> VarKind {
    if field(j, "kind"@) == JsonTree::Str("var"@) {
        VarKind::Var
    } else if field(j, "kind"@) == JsonTree::Str("const"@) {
        VarKind::Const
    } else {
        VarKind::Let
    }
}

/// How the left side of a `for` loop over a value binds.
pub open spec fn left_kind(j: JsonTree) -> VarKind {
    if is_kind(j, "VariableDeclaration"@) { kind_of(j) } else { VarKind::Var }
}

/// The literal part of a template at a place: the cooked text, or the raw one where
/// there is none.
pub open spec fn quasi(j: JsonTree, i: int) -> Seq<char> {
    let v = field(item(j, i), "value"@);
    if field(v, "cooked"@) is Str { text_in(field(v, "cooked"@)) } else { text_in(field(v, "raw"@)) }
}

/// Where the exponent of a number starts, from a place on.
pub open spec fn exponent_at(t: Seq<char>, i: int) -> int
    decreases t.len() - i,
{
    if i < 0 || i >= t.len() || t[i] == 'e' { i } else { exponent_at(t, i + 1) }
}

/// The digits of a number without its point.
pub open spec fn without_point(t: Seq<char>) -> Seq<char> {
    t.filter(|c: char| c != '.')
}

/// Zeros.
pub open spec fn zeros(n: int) -> Seq<char> {
    Seq::new(if n > 0 { n as nat } else { 0 }, |i: int| '0')
}

/// The text of a number without an exponent. A number that has one has a single
/// digit before its point; an exponent beyond that of every number stands for
/// infinity.
pub open spec fn positional(t: Seq<char>) -> Seq<char> {
    let e = exponent_at(t, 0);
    if e + 1 >= t.len() {
        t
    } else {
        let digits = without_point(t.subrange(0, e));
        match index_of_key(t.subrange(e + 2, t.len() as int)) {
            None => t,
            Some(n) => if n > 324 {
                "inf"@
            } else if t[e + 1] == '-' {
                "0."@ + zeros(n - 1) + digits
            } else {
                digits + zeros(n + 1 - digits.len())
            },
        }
    }
}

/// The operator of a text.
pub open spec fn binary_op(t: Seq<char>) -> Option<BinaryOp> {
    if t == "=="@ {
        Some(BinaryOp::Eq)
    } else if t == "!="@ {
        Some(BinaryOp::Ne)
    } else if t == "==="@ {
        Some(BinaryOp::StrictEq)
    } else if t == "!=="@ {
        Some(BinaryOp::StrictNe)
    } else if t == "<"@ {
        Some(BinaryOp::Lt)
    } else if t == ">"@ {
        Some(BinaryOp::Gt)
    } else if t == "<="@ {
        Some(BinaryOp::Le)
    } else if t == ">="@ {
        Some(BinaryOp::Ge)
    } else if t == "+"@ {
        Some(BinaryOp::Add)
    } else if t == "-"@ {
        Some(BinaryOp::Sub)
    } else if t == "*"@ {
        Some(BinaryOp::Mul)
    } else if t == "/"@ {
        Some(BinaryOp::Div)
    } else if t == "%"@ {
        Some(BinaryOp::Rem)
    } else if t == "in"@ {
        Some(BinaryOp::In)
    } else if t == "&"@ {
        Some(BinaryOp::BitAnd)
    } else if t == "|"@ {
        Some(BinaryOp::BitOr)
    } else if t == "^"@ {
        Some(BinaryOp::BitXor)
    } else if t == "<<"@ {
        Some(BinaryOp::Shl)
    } else if t == ">>"@ {
        Some(BinaryOp::Shr)
    } else if t == ">>>"@ {
        Some(BinaryOp::Ushr)
    } else if t == "**"@ {
        Some(BinaryOp::Exp)
    } else {
        None
    }
}

/// The operator of a compound assignment.
pub open spec fn compound_op(t: Seq<char>) -> Option<BinaryOp> {
    if t == "+="@ {
        Some(BinaryOp::Add)
    } else if t == "-="@ {
        Some(BinaryOp::Sub)
    } else if t == "*="@ {
        Some(BinaryOp::Mul)
    } else if t == "/="@ {
        Some(BinaryOp::Div)
    } else if t == "%="@ {
        Some(BinaryOp::Rem)
    } else if t == "**="@ {
        Some(BinaryOp::Exp)
    } else if t == "&="@ {
        Some(BinaryOp::BitAnd)
    } else if t == "|="@ {
        Some(BinaryOp::BitOr)
    } else if t == "^="@ {
        Some(BinaryOp::BitXor)
    } else if t == "<<="@ {
        Some(BinaryOp::Shl)
    } else if t == ">>="@ {
        Some(BinaryOp::Shr)
    } else if t == ">>>="@ {
        Some(BinaryOp::Ushr)
    } else {
        None
    }
}

/// The short-circuiting operator of a text.
pub open spec fn logical_op(t: Seq<char>) -> Option<LogicalOp> {
    if t == "&&"@ {
        Some(LogicalOp::And)
    } else if t == "||"@ {
        Some(LogicalOp::Or)
    } else if t == "??"@ {
        Some(LogicalOp::Coalesce)
    } else {
        None
    }
}

/// The operator of a short-circuiting assignment.
pub open spec fn logical_assign_op(t: Seq<char>) -> Option<LogicalOp> {
    if t == "||="@ {
        Some(LogicalOp::Or)
    } else if t == "&&="@ {
        Some(LogicalOp::And)
    } else if t == "??="@ {
        Some(LogicalOp::Coalesce)
    } else {
        None
    }
}

/// The prefix operator of a text.
pub open spec fn unary_op(t: Seq<char>) -> Option<UnaryOp> {
    if t == "-"@ {
        Some(UnaryOp::Neg)
    } else if t == "+"@ {
        Some(UnaryOp::Plus)
    } else if t == "!"@ {
        Some(UnaryOp::Not)
    } else if t == "typeof"@ {
        Some(UnaryOp::Typeof)
    } else if t == "void"@ {
        Some(UnaryOp::Void)
    } else if t == "delete"@ {
        Some(UnaryOp::Delete)
    } else if t == "~"@ {
        Some(UnaryOp::BitNot)
    } else {
        None
    }
}

/// Statements; directives are none.
#[verifier::opaque]
pub closed spec fn stmts_of(j: JsonTree, i: int, acc: Seq<StmtTree>, strict: bool) -> Result<Seq<StmtTree>, ErrorView>
    decreases height(j), (if i < count(j) { count(j) - i } else { 0 }), 41int,
{
    stmts_body(j, i, acc, strict)
}

#[verifier::opaque]
spec fn stmts_body(j: JsonTree, i: int, acc: Seq<StmtTree>, strict: bool) -> Result<Seq<StmtTree>, ErrorView>
    decreases height(j), (if i < count(j) { count(j) - i } else { 0 }), 40int,
{
    if i < 0 || i >= count(j) {
        Ok(acc)
    } else if (field(item(j, i), "directive"@) is Str) {
        stmts_of(j, i + 1, acc, strict)
    } else {
        match stmt_of(item(j, i), strict) {
            Err(e) => Err(e),
            Ok(s) => {
                stmts_of(j, i + 1, acc.push(s), strict)
            },
        }
    }
}

/// The statements of a block, or a single statement.
#[verifier::opaque]
pub closed spec fn stmt_vec_of(j: JsonTree, strict: bool) -> Result<Seq<StmtTree>, ErrorView>
    decreases height(j), 0int, 191int,
{
    stmt_vec_body(j, strict)
}

#[verifier::opaque]
spec fn stmt_vec_body(j: JsonTree, strict: bool) -> Result<Seq<StmtTree>, ErrorView>
    decreases height(j), 0int, 190int,
{
    if is_kind(j, "BlockStatement"@) {
        match stmts_of(field(j, "body"@), 0, Seq::empty(), strict) {
            Err(e) => Err(e),
            Ok(list) => {
                Ok(list)
            },
        }
    } else {
        match stmt_of(j, strict) {
            Err(e) => Err(e),
            Ok(s) => {
                Ok(seq![s])
            },
        }
    }
}

/// A branch of an `if`.
#[verifier::opaque]
pub closed spec fn branch_of(j: JsonTree, strict: bool) -> Result<Seq<StmtTree>, ErrorView>
    decreases height(j), 0int, 193int,
{
    branch_body(j, strict)
}

#[verifier::opaque]
spec fn branch_body(j: JsonTree, strict: bool) -> Result<Seq<StmtTree>, ErrorView>
    decreases height(j), 0int, 192int,
{
    if labelled_function(j) {
        Err(ErrorView::Parse("a labelled function declaration is not allowed here"@))
    } else if strict && is_kind(j, "FunctionDeclaration"@) {
        Err(ErrorView::Parse("a function declaration is not allowed here in strict code"@))
    } else {
        match stmt_vec_of(j, strict) {
            Err(e) => Err(e),
            Ok(list) => {
                Ok(list)
            },
        }
    }
}

/// A statement.
#[verifier::opaque]
pub closed spec fn stmt_of(j: JsonTree, strict: bool) -> Result<StmtTree, ErrorView>
    decreases height(j), 0int, 181int,
{
    stmt_body(j, strict)
}

#[verifier::opaque]
spec fn stmt_body(j: JsonTree, strict: bool) -> Result<StmtTree, ErrorView>
    decreases height(j), 0int, 180int,
{
    if is_kind(j, "BlockStatement"@) {
        match stmts_of(field(j, "body"@), 0, Seq::empty(), strict) {
            Err(e) => Err(e),
            Ok(list) => {
                Ok(StmtTree::Block(list))
            },
        }
    } else if is_kind(j, "ExpressionStatement"@) {
        match expr_of(field(j, "expression"@), strict) {
            Err(e) => Err(e),
            Ok(e) => {
                Ok(StmtTree::Expr(e))
            },
        }
    } else if is_kind(j, "VariableDeclaration"@) {
        match var_stmt_of(j, strict) {
            Err(e) => Err(e),
            Ok(s) => {
                Ok(s)
            },
        }
    } else if is_kind(j, "FunctionDeclaration"@) || is_kind(j, "TSDeclareFunction"@) {
        match function_stmt_of(j, strict) {
            Err(e) => Err(e),
            Ok(s) => {
                Ok(s)
            },
        }
    } else if is_kind(j, "ClassDeclaration"@) {
        match class_stmt_of(j, strict) {
            Err(e) => Err(e),
            Ok(s) => {
                Ok(s)
            },
        }
    } else if is_kind(j, "IfStatement"@) {
        match if_stmt_of(j, strict) {
            Err(e) => Err(e),
            Ok(s) => {
                Ok(s)
            },
        }
    } else if is_kind(j, "ForStatement"@) || is_kind(j, "ForInStatement"@) || is_kind(j, "ForOfStatement"@) || is_kind(j, "WhileStatement"@) || is_kind(j, "DoWhileStatement"@) {
        match loop_stmt_of(j, strict) {
            Err(e) => Err(e),
            Ok(s) => {
                Ok(s)
            },
        }
    } else if is_kind(j, "SwitchStatement"@) || is_kind(j, "TryStatement"@) || is_kind(j, "WithStatement"@) || is_kind(j, "LabeledStatement"@) {
        match block_stmt_of(j, strict) {
            Err(e) => Err(e),
            Ok(s) => {
                Ok(s)
            },
        }
    } else if is_kind(j, "ExportNamedDeclaration"@) || is_kind(j, "ExportDefaultDeclaration"@) {
        match export_stmt_of(j, strict) {
            Err(e) => Err(e),
            Ok(s) => {
                Ok(s)
            },
        }
    } else {
        match jump_stmt_of(j, strict) {
            Err(e) => Err(e),
            Ok(s) => {
                Ok(s)
            },
        }
    }
}

/// A jump. What has no effect at run time becomes an empty statement.
#[verifier::opaque]
pub closed spec fn jump_stmt_of(j: JsonTree, strict: bool) -> Result<StmtTree, ErrorView>
    decreases height(j), 0int, 161int,
{
    jump_stmt_body(j, strict)
}

#[verifier::opaque]
spec fn jump_stmt_body(j: JsonTree, strict: bool) -> Result<StmtTree, ErrorView>
    decreases height(j), 0int, 160int,
{
    if is_kind(j, "BreakStatement"@) {
        let name = id_name(field(j, "label"@));
        Ok(StmtTree::Break(name))
    } else if is_kind(j, "ContinueStatement"@) {
        let name = id_name(field(j, "label"@));
        Ok(StmtTree::Continue(name))
    } else if is_kind(j, "ReturnStatement"@) {
        match (if field(j, "argument"@) is Null {
            Ok(None)
        } else {
            some_of(expr_of(field(j, "argument"@), strict))
        }) {
            Err(e) => Err(e),
            Ok(e) => {
                Ok(StmtTree::Return(e))
            },
        }
    } else if is_kind(j, "ThrowStatement"@) {
        match expr_of(field(j, "argument"@), strict) {
            Err(e) => Err(e),
            Ok(e) => {
                Ok(StmtTree::Throw(e))
            },
        }
    } else {
        Ok(StmtTree::Empty)
    }
}

/// An `if` statement.
#[verifier::opaque]
pub closed spec fn if_stmt_of(j: JsonTree, strict: bool) -> Result<StmtTree, ErrorView>
    decreases height(j), 0int, 161int,
{
    if_stmt_body(j, strict)
}

#[verifier::opaque]
spec fn if_stmt_body(j: JsonTree, strict: bool) -> Result<StmtTree, ErrorView>
    decreases height(j), 0int, 160int,
{
    if is_kind(j, "IfStatement"@) {
        match expr_of(field(j, "test"@), strict) {
            Err(e) => Err(e),
            Ok(cond) => {
                match branch_of(field(j, "consequent"@), strict) {
                    Err(e) => Err(e),
                    Ok(yes) => {
                        if (field(j, "alternate"@) is Null) {
                            match no_stmts_of(j, strict) {
                                Err(e) => Err(e),
                                Ok(no) => {
                                    Ok(StmtTree::If { cond, yes, no })
                                },
                            }
                        } else {
                            match branch_of(field(j, "alternate"@), strict) {
                                Err(e) => Err(e),
                                Ok(no) => {
                                    Ok(StmtTree::If { cond, yes, no })
                                },
                            }
                        }
                    },
                }
            },
        }
    } else {
        Ok(StmtTree::Empty)
    }
}

/// No statements.
#[verifier::opaque]
pub closed spec fn no_stmts_of(j: JsonTree, strict: bool) -> Result<Seq<StmtTree>, ErrorView>
    decreases height(j), 0int, 21int,
{
    no_stmts_body(j, strict)
}

#[verifier::opaque]
spec fn no_stmts_body(j: JsonTree, strict: bool) -> Result<Seq<StmtTree>, ErrorView>
    decreases height(j), 0int, 20int,
{
    Ok(Seq::empty())
}

/// A loop.
#[verifier::opaque]
pub closed spec fn loop_stmt_of(j: JsonTree, strict: bool) -> Result<StmtTree, ErrorView>
    decreases height(j), 0int, 161int,
{
    loop_stmt_body(j, strict)
}

#[verifier::opaque]
spec fn loop_stmt_body(j: JsonTree, strict: bool) -> Result<StmtTree, ErrorView>
    decreases height(j), 0int, 160int,
{
    if is_kind(j, "ForStatement"@) {
        match for_stmt_of(j, strict) {
            Err(e) => Err(e),
            Ok(s) => {
                Ok(s)
            },
        }
    } else if is_kind(j, "ForInStatement"@) {
        match for_left_of(field(j, "left"@), strict) {
            Err(e) => Err(e),
            Ok(name) => {
                match expr_of(field(j, "right"@), strict) {
                    Err(e) => Err(e),
                    Ok(expr) => {
                        match stmt_vec_of(field(j, "body"@), strict) {
                            Err(e) => Err(e),
                            Ok(body) => {
                                let kind = left_kind(field(j, "left"@));
                                Ok(StmtTree::ForIn { kind, name, expr, body })
                            },
                        }
                    },
                }
            },
        }
    } else if is_kind(j, "ForOfStatement"@) {
        if flag(field(j, "await"@)) {
            Err(ErrorView::Unimplemented("for await is not implemented"@))
        } else {
            match for_left_of(field(j, "left"@), strict) {
                Err(e) => Err(e),
                Ok(name) => {
                    match expr_of(field(j, "right"@), strict) {
                        Err(e) => Err(e),
                        Ok(expr) => {
                            match stmt_vec_of(field(j, "body"@), strict) {
                                Err(e) => Err(e),
                                Ok(body) => {
                                    let kind = left_kind(field(j, "left"@));
                                    Ok(StmtTree::ForOf { kind, name, expr, body })
                                },
                            }
                        },
                    }
                },
            }
        }
    } else if is_kind(j, "WhileStatement"@) {
        match expr_of(field(j, "test"@), strict) {
            Err(e) => Err(e),
            Ok(cond) => {
                match stmt_vec_of(field(j, "body"@), strict) {
                    Err(e) => Err(e),
                    Ok(body) => {
                        Ok(StmtTree::While { cond, body })
                    },
                }
            },
        }
    } else if is_kind(j, "DoWhileStatement"@) {
        match expr_of(field(j, "test"@), strict) {
            Err(e) => Err(e),
            Ok(cond) => {
                match stmt_vec_of(field(j, "body"@), strict) {
                    Err(e) => Err(e),
                    Ok(body) => {
                        Ok(StmtTree::DoWhile { cond, body })
                    },
                }
            },
        }
    } else {
        Ok(StmtTree::Empty)
    }
}

/// A `for` loop with three heads.
#[verifier::opaque]
pub closed spec fn for_stmt_of(j: JsonTree, strict: bool) -> Result<StmtTree, ErrorView>
    decreases height(j), 0int, 151int,
{
    for_stmt_body(j, strict)
}

#[verifier::opaque]
spec fn for_stmt_body(j: JsonTree, strict: bool) -> Result<StmtTree, ErrorView>
    decreases height(j), 0int, 150int,
{
    if is_kind(j, "ForStatement"@) {
        if (field(j, "init"@) is Null) {
            match (if field(j, "test"@) is Null {
                Ok(None)
            } else {
                some_of(expr_of(field(j, "test"@), strict))
            }) {
                Err(e) => Err(e),
                Ok(cond) => {
                    match (if field(j, "update"@) is Null {
                        Ok(None)
                    } else {
                        some_of(expr_of(field(j, "update"@), strict))
                    }) {
                        Err(e) => Err(e),
                        Ok(update) => {
                            match stmt_vec_of(field(j, "body"@), strict) {
                                Err(e) => Err(e),
                                Ok(body) => {
                                    Ok(StmtTree::For { init: None, cond, update, body })
                                },
                            }
                        },
                    }
                },
            }
        } else {
            match for_init_of(field(j, "init"@), strict) {
                Err(e) => Err(e),
                Ok(init) => {
                    match (if field(j, "test"@) is Null {
                        Ok(None)
                    } else {
                        some_of(expr_of(field(j, "test"@), strict))
                    }) {
                        Err(e) => Err(e),
                        Ok(cond) => {
                            match (if field(j, "update"@) is Null {
                                Ok(None)
                            } else {
                                some_of(expr_of(field(j, "update"@), strict))
                            }) {
                                Err(e) => Err(e),
                                Ok(update) => {
                                    match stmt_vec_of(field(j, "body"@), strict) {
                                        Err(e) => Err(e),
                                        Ok(body) => {
                                            Ok(StmtTree::For { init: Some(Box::new(init)), cond, update, body })
                                        },
                                    }
                                },
                            }
                        },
                    }
                },
            }
        }
    } else {
        Ok(StmtTree::Empty)
    }
}

/// The first head of a `for` loop.
#[verifier::opaque]
pub closed spec fn for_init_of(j: JsonTree, strict: bool) -> Result<StmtTree, ErrorView>
    decreases height(j), 0int, 151int,
{
    for_init_body(j, strict)
}

#[verifier::opaque]
spec fn for_init_body(j: JsonTree, strict: bool) -> Result<StmtTree, ErrorView>
    decreases height(j), 0int, 150int,
{
    if is_kind(j, "VariableDeclaration"@) {
        match var_stmt_of(j, strict) {
            Err(e) => Err(e),
            Ok(s) => {
                Ok(s)
            },
        }
    } else {
        match expr_of(j, strict) {
            Err(e) => Err(e),
            Ok(e) => {
                Ok(StmtTree::Expr(e))
            },
        }
    }
}

/// The left side of a `for` loop over a value.
#[verifier::opaque]
pub closed spec fn for_left_of(j: JsonTree, strict: bool) -> Result<PatternTree, ErrorView>
    decreases height(j), 0int, 151int,
{
    for_left_body(j, strict)
}

#[verifier::opaque]
spec fn for_left_body(j: JsonTree, strict: bool) -> Result<PatternTree, ErrorView>
    decreases height(j), 0int, 150int,
{
    if is_kind(j, "VariableDeclaration"@) {
        if (item(field(j, "declarations"@), 0) is Null) {
            Err(ErrorView::Parse("empty for-in initializer"@))
        } else {
            match binding_of(field(item(field(j, "declarations"@), 0), "id"@), strict) {
                Err(e) => Err(e),
                Ok(p) => {
                    Ok(p)
                },
            }
        }
    } else if is_kind(j, "Identifier"@) || is_kind(j, "ArrayPattern"@) || is_kind(j, "ObjectPattern"@) || is_kind(j, "MemberExpression"@) {
        match target_pattern_of(j, strict) {
            Err(e) => Err(e),
            Ok(p) => {
                Ok(p)
            },
        }
    } else {
        Err(ErrorView::Parse("unsupported for-in/of left side"@))
    }
}

/// A `switch`, `try`, `with` or labelled statement. The body of `with` runs in the
/// current scope.
#[verifier::opaque]
pub closed spec fn block_stmt_of(j: JsonTree, strict: bool) -> Result<StmtTree, ErrorView>
    decreases height(j), 0int, 161int,
{
    block_stmt_body(j, strict)
}

#[verifier::opaque]
spec fn block_stmt_body(j: JsonTree, strict: bool) -> Result<StmtTree, ErrorView>
    decreases height(j), 0int, 160int,
{
    if is_kind(j, "SwitchStatement"@) {
        match expr_of(field(j, "discriminant"@), strict) {
            Err(e) => Err(e),
            Ok(discriminant) => {
                match cases_of(field(j, "cases"@), 0, Seq::empty(), strict) {
                    Err(e) => Err(e),
                    Ok(cases) => {
                        if redeclared(cases, strict) {
                            Err(ErrorView::Parse("a name is declared twice in a switch"@))
                        } else {
                            Ok(StmtTree::Switch { discriminant, cases })
                        }
                    },
                }
            },
        }
    } else if is_kind(j, "TryStatement"@) {
        match stmts_of(field(field(j, "block"@), "body"@), 0, Seq::empty(), strict) {
            Err(e) => Err(e),
            Ok(try_block) => {
                match (if field(j, "handler"@) is Null {
                    Ok(None)
                } else {
                    some_of(catch_clause_of(field(j, "handler"@), strict))
                }) {
                    Err(e) => Err(e),
                    Ok(catch) => {
                        if (field(j, "finalizer"@) is Null) {
                            Ok(StmtTree::Try { try_block, catch, finally: None })
                        } else {
                            match stmts_of(field(field(j, "finalizer"@), "body"@), 0, Seq::empty(), strict) {
                                Err(e) => Err(e),
                                Ok(list) => {
                                    Ok(StmtTree::Try { try_block, catch, finally: Some(list) })
                                },
                            }
                        }
                    },
                }
            },
        }
    } else if is_kind(j, "WithStatement"@) {
        match expr_of(field(j, "object"@), strict) {
            Err(e) => Err(e),
            Ok(o) => {
                match stmt_vec_of(field(j, "body"@), strict) {
                    Err(e) => Err(e),
                    Ok(body) => {
                        Ok(StmtTree::Block(body))
                    },
                }
            },
        }
    } else if is_kind(j, "LabeledStatement"@) {
        match stmt_of(field(j, "body"@), strict) {
            Err(e) => Err(e),
            Ok(body) => {
                let label = text_in(field(field(j, "label"@), "name"@));
                Ok(StmtTree::Labeled { label, body: Box::new(body) })
            },
        }
    } else {
        Ok(StmtTree::Empty)
    }
}

/// The clauses of a `switch`.
#[verifier::opaque]
pub closed spec fn cases_of(j: JsonTree, i: int, acc: Seq<SwitchCaseTree>, strict: bool) -> Result<Seq<SwitchCaseTree>, ErrorView>
    decreases height(j), (if i < count(j) { count(j) - i } else { 0 }), 41int,
{
    cases_body(j, i, acc, strict)
}

#[verifier::opaque]
spec fn cases_body(j: JsonTree, i: int, acc: Seq<SwitchCaseTree>, strict: bool) -> Result<Seq<SwitchCaseTree>, ErrorView>
    decreases height(j), (if i < count(j) { count(j) - i } else { 0 }), 40int,
{
    if i < 0 || i >= count(j) {
        Ok(acc)
    } else {
        match (if field(item(j, i), "test"@) is Null {
            Ok(None)
        } else {
            some_of(expr_of(field(item(j, i), "test"@), strict))
        }) {
            Err(e) => Err(e),
            Ok(test) => {
                match stmts_of(field(item(j, i), "consequent"@), 0, Seq::empty(), strict) {
                    Err(e) => Err(e),
                    Ok(body) => {
                        cases_of(j, i + 1, acc.push(SwitchCaseTree { test, body }), strict)
                    },
                }
            },
        }
    }
}

/// A `catch` clause; a parameter that is no identifier is not bound.
#[verifier::opaque]
pub closed spec fn catch_clause_of(j: JsonTree, strict: bool) -> Result<CatchClauseTree, ErrorView>
    decreases height(j), 0int, 51int,
{
    catch_clause_body(j, strict)
}

#[verifier::opaque]
spec fn catch_clause_body(j: JsonTree, strict: bool) -> Result<CatchClauseTree, ErrorView>
    decreases height(j), 0int, 50int,
{
    match stmts_of(field(field(j, "body"@), "body"@), 0, Seq::empty(), strict) {
        Err(e) => Err(e),
        Ok(body) => {
            if is_kind(field(j, "param"@), "Identifier"@) {
                let name = text_in(field(field(j, "param"@), "name"@));
                Ok(CatchClauseTree { name, body })
            } else {
                Ok(CatchClauseTree { name: ""@, body })
            }
        },
    }
}

/// A declaration of variables.
#[verifier::opaque]
pub closed spec fn var_stmt_of(j: JsonTree, strict: bool) -> Result<StmtTree, ErrorView>
    decreases height(j), 0int, 61int,
{
    var_stmt_body(j, strict)
}

#[verifier::opaque]
spec fn var_stmt_body(j: JsonTree, strict: bool) -> Result<StmtTree, ErrorView>
    decreases height(j), 0int, 60int,
{
    match declarators_of(field(j, "declarations"@), 0, Seq::empty(), strict) {
        Err(e) => Err(e),
        Ok(list) => {
            let kind = kind_of(j);
            Ok(StmtTree::Var(list, kind))
        },
    }
}

/// The declarators of a declaration.
#[verifier::opaque]
pub closed spec fn declarators_of(j: JsonTree, i: int, acc: Seq<DeclaratorTree>, strict: bool) -> Result<Seq<DeclaratorTree>, ErrorView>
    decreases height(j), (if i < count(j) { count(j) - i } else { 0 }), 41int,
{
    declarators_body(j, i, acc, strict)
}

#[verifier::opaque]
spec fn declarators_body(j: JsonTree, i: int, acc: Seq<DeclaratorTree>, strict: bool) -> Result<Seq<DeclaratorTree>, ErrorView>
    decreases height(j), (if i < count(j) { count(j) - i } else { 0 }), 40int,
{
    if i < 0 || i >= count(j) {
        Ok(acc)
    } else {
        match binding_of(field(item(j, i), "id"@), strict) {
            Err(e) => Err(e),
            Ok(pat) => {
                match (if field(item(j, i), "init"@) is Null {
                    Ok(None)
                } else {
                    some_of(expr_of(field(item(j, i), "init"@), strict))
                }) {
                    Err(e) => Err(e),
                    Ok(init) => {
                        declarators_of(j, i + 1, acc.push(DeclaratorTree { pat, init }), strict)
                    },
                }
            },
        }
    }
}

/// A function declaration.
#[verifier::opaque]
pub closed spec fn function_stmt_of(j: JsonTree, strict: bool) -> Result<StmtTree, ErrorView>
    decreases height(j), 0int, 91int,
{
    function_stmt_body(j, strict)
}

#[verifier::opaque]
spec fn function_stmt_body(j: JsonTree, strict: bool) -> Result<StmtTree, ErrorView>
    decreases height(j), 0int, 90int,
{
    if (field(j, "id"@) is Null) {
        Err(ErrorView::Parse("anonymous function declaration"@))
    } else {
        match params_of(j, strict) {
            Err(e) => Err(e),
            Ok(params) => {
                match function_body_of(j, strict) {
                    Err(e) => Err(e),
                    Ok(body) => {
                        let name = text_in(field(field(j, "id"@), "name"@));
                        Ok(StmtTree::FunctionDecl { name, params, body })
                    },
                }
            },
        }
    }
}

/// A class declaration.
#[verifier::opaque]
pub closed spec fn class_stmt_of(j: JsonTree, strict: bool) -> Result<StmtTree, ErrorView>
    decreases height(j), 0int, 91int,
{
    class_stmt_body(j, strict)
}

#[verifier::opaque]
spec fn class_stmt_body(j: JsonTree, strict: bool) -> Result<StmtTree, ErrorView>
    decreases height(j), 0int, 90int,
{
    if (field(j, "id"@) is Null) {
        Err(ErrorView::Parse("anonymous class declaration"@))
    } else {
        match class_of(j, strict) {
            Err(e) => Err(e),
            Ok(class) => {
                let init = ExprTree::Class(Box::new(class));
                let name = text_in(field(field(j, "id"@), "name"@));
                let pat = PatternTree::Ident(name);
                let d = DeclaratorTree { pat, init: Some(init) };
                let list = one_decl(d);
                Ok(StmtTree::Var(list, VarKind::Let))
            },
        }
    }
}

/// An export: what it declares stays.
#[verifier::opaque]
pub closed spec fn export_stmt_of(j: JsonTree, strict: bool) -> Result<StmtTree, ErrorView>
    decreases height(j), 0int, 161int,
{
    export_stmt_body(j, strict)
}

#[verifier::opaque]
spec fn export_stmt_body(j: JsonTree, strict: bool) -> Result<StmtTree, ErrorView>
    decreases height(j), 0int, 160int,
{
    if is_kind(j, "ExportNamedDeclaration"@) {
        match exported_of(field(j, "declaration"@), strict) {
            Err(e) => Err(e),
            Ok(s) => {
                Ok(s)
            },
        }
    } else if is_kind(j, "ExportDefaultDeclaration"@) {
        match default_export_of(field(j, "declaration"@), strict) {
            Err(e) => Err(e),
            Ok(s) => {
                Ok(s)
            },
        }
    } else {
        Ok(StmtTree::Empty)
    }
}

/// An exported declaration.
#[verifier::opaque]
pub closed spec fn exported_of(j: JsonTree, strict: bool) -> Result<StmtTree, ErrorView>
    decreases height(j), 0int, 101int,
{
    exported_body(j, strict)
}

#[verifier::opaque]
spec fn exported_body(j: JsonTree, strict: bool) -> Result<StmtTree, ErrorView>
    decreases height(j), 0int, 100int,
{
    if is_kind(j, "VariableDeclaration"@) {
        match var_stmt_of(j, strict) {
            Err(e) => Err(e),
            Ok(s) => {
                Ok(s)
            },
        }
    } else if is_kind(j, "FunctionDeclaration"@) || is_kind(j, "TSDeclareFunction"@) {
        match function_stmt_of(j, strict) {
            Err(e) => Err(e),
            Ok(s) => {
                Ok(s)
            },
        }
    } else if is_kind(j, "ClassDeclaration"@) {
        match class_stmt_of(j, strict) {
            Err(e) => Err(e),
            Ok(s) => {
                Ok(s)
            },
        }
    } else {
        Ok(StmtTree::Empty)
    }
}

/// What is exported by default.
#[verifier::opaque]
pub closed spec fn default_export_of(j: JsonTree, strict: bool) -> Result<StmtTree, ErrorView>
    decreases height(j), 0int, 157int,
{
    default_export_body(j, strict)
}

#[verifier::opaque]
spec fn default_export_body(j: JsonTree, strict: bool) -> Result<StmtTree, ErrorView>
    decreases height(j), 0int, 156int,
{
    if is_kind(j, "FunctionDeclaration"@) || is_kind(j, "TSDeclareFunction"@) {
        match params_of(j, strict) {
            Err(e) => Err(e),
            Ok(params) => {
                match function_body_of(j, strict) {
                    Err(e) => Err(e),
                    Ok(body) => {
                        if (field(j, "id"@) is Null) {
                            let e = ExprTree::Function { name: None, params, body };
                            Ok(StmtTree::Expr(e))
                        } else {
                            let name = text_in(field(field(j, "id"@), "name"@));
                            Ok(StmtTree::FunctionDecl { name, params, body })
                        }
                    },
                }
            },
        }
    } else if is_kind(j, "ClassDeclaration"@) {
        match class_of(j, strict) {
            Err(e) => Err(e),
            Ok(class) => {
                let e = ExprTree::Class(Box::new(class));
                Ok(StmtTree::Expr(e))
            },
        }
    } else if is_kind(j, "TSInterfaceDeclaration"@) {
        Ok(StmtTree::Empty)
    } else {
        match expr_of(j, strict) {
            Err(e) => Err(e),
            Ok(e) => {
                Ok(StmtTree::Expr(e))
            },
        }
    }
}

/// The parameters of a function; a rest parameter is passed over, and so is the default
/// of a parameter as a whole.
#[verifier::opaque]
pub closed spec fn param_list_of(j: JsonTree, i: int, acc: Seq<PatternTree>, strict: bool) -> Result<Seq<PatternTree>, ErrorView>
    decreases height(j), (if i < count(j) { count(j) - i } else { 0 }), 41int,
{
    param_list_body(j, i, acc, strict)
}

#[verifier::opaque]
spec fn param_list_body(j: JsonTree, i: int, acc: Seq<PatternTree>, strict: bool) -> Result<Seq<PatternTree>, ErrorView>
    decreases height(j), (if i < count(j) { count(j) - i } else { 0 }), 40int,
{
    if i < 0 || i >= count(j) {
        Ok(acc)
    } else if is_kind(item(j, i), "RestElement"@) {
        param_list_of(j, i + 1, acc, strict)
    } else if is_kind(item(j, i), "AssignmentPattern"@) {
        match binding_of(field(item(j, i), "left"@), strict) {
            Err(e) => Err(e),
            Ok(p) => {
                param_list_of(j, i + 1, acc.push(p), strict)
            },
        }
    } else {
        match binding_of(item(j, i), strict) {
            Err(e) => Err(e),
            Ok(p) => {
                param_list_of(j, i + 1, acc.push(p), strict)
            },
        }
    }
}

/// The parameters of a function.
#[verifier::opaque]
pub closed spec fn params_of(j: JsonTree, strict: bool) -> Result<Seq<PatternTree>, ErrorView>
    decreases height(j), 0int, 51int,
{
    params_body(j, strict)
}

#[verifier::opaque]
spec fn params_body(j: JsonTree, strict: bool) -> Result<Seq<PatternTree>, ErrorView>
    decreases height(j), 0int, 50int,
{
    match param_list_of(field(j, "params"@), 0, Seq::empty(), strict) {
        Err(e) => Err(e),
        Ok(list) => {
            Ok(list)
        },
    }
}

/// The body of a function. There are no async generators.
#[verifier::opaque]
pub closed spec fn function_body_of(j: JsonTree, strict: bool) -> Result<Seq<StmtTree>, ErrorView>
    decreases height(j), 0int, 51int,
{
    function_body_body(j, strict)
}

#[verifier::opaque]
spec fn function_body_body(j: JsonTree, strict: bool) -> Result<Seq<StmtTree>, ErrorView>
    decreases height(j), 0int, 50int,
{
    match stmts_of(field(field(j, "body"@), "body"@), 0, Seq::empty(), strict) {
        Err(e) => Err(e),
        Ok(list) => {
            if flag(field(j, "generator"@)) && flag(field(j, "async"@)) {
                Err(ErrorView::Unimplemented("async generators are not implemented"@))
            } else {
                let body = wrapped(list, flag(field(j, "generator"@)), flag(field(j, "async"@)));
                Ok(body)
            }
        },
    }
}

/// The body of an arrow function: an expression is what it returns.
#[verifier::opaque]
pub closed spec fn arrow_body_of(j: JsonTree, strict: bool) -> Result<Seq<StmtTree>, ErrorView>
    decreases height(j), 0int, 117int,
{
    arrow_body_body(j, strict)
}

#[verifier::opaque]
spec fn arrow_body_body(j: JsonTree, strict: bool) -> Result<Seq<StmtTree>, ErrorView>
    decreases height(j), 0int, 116int,
{
    if is_kind(j, "ArrowFunctionExpression"@) {
        if is_kind(field(j, "body"@), "BlockStatement"@) {
            match stmts_of(field(field(j, "body"@), "body"@), 0, Seq::empty(), strict) {
                Err(e) => Err(e),
                Ok(list) => {
                    let body = wrapped(list, false, flag(field(j, "async"@)));
                    Ok(body)
                },
            }
        } else {
            match expr_of(field(j, "body"@), strict) {
                Err(e) => Err(e),
                Ok(e) => {
                    let s = StmtTree::Return(Some(e));
                    let list = one_stmt(s);
                    let body = wrapped(list, false, flag(field(j, "async"@)));
                    Ok(body)
                },
            }
        }
    } else {
        Ok(Seq::empty())
    }
}

/// An expression.
#[verifier::opaque]
pub closed spec fn expr_of(j: JsonTree, strict: bool) -> Result<ExprTree, ErrorView>
    decreases height(j), 0int, 141int,
{
    expr_body(j, strict)
}

#[verifier::opaque]
spec fn expr_body(j: JsonTree, strict: bool) -> Result<ExprTree, ErrorView>
    decreases height(j), 0int, 140int,
{
    if is_kind(j, "Identifier"@) {
        let name = text_in(field(j, "name"@));
        Ok(ExprTree::Ident(name))
    } else if is_kind(j, "Literal"@) {
        match literal_of(j, strict) {
            Err(e) => Err(e),
            Ok(l) => {
                Ok(ExprTree::Lit(l))
            },
        }
    } else if is_kind(j, "ThisExpression"@) {
        Ok(ExprTree::This)
    } else if is_kind(j, "Super"@) {
        Ok(ExprTree::Super)
    } else if is_kind(j, "MemberExpression"@) {
        match member_expr_of(j, strict) {
            Err(e) => Err(e),
            Ok(e) => {
                Ok(e)
            },
        }
    } else if is_kind(j, "CallExpression"@) || is_kind(j, "NewExpression"@) {
        match call_of(j, strict) {
            Err(e) => Err(e),
            Ok(e) => {
                Ok(e)
            },
        }
    } else if is_kind(j, "AssignmentExpression"@) {
        match assignment_of(j, strict) {
            Err(e) => Err(e),
            Ok(e) => {
                Ok(e)
            },
        }
    } else if is_kind(j, "FunctionExpression"@) || is_kind(j, "ArrowFunctionExpression"@) || is_kind(j, "ClassExpression"@) {
        match closure_of(j, strict) {
            Err(e) => Err(e),
            Ok(e) => {
                Ok(e)
            },
        }
    } else if is_kind(j, "ArrayExpression"@) || is_kind(j, "ObjectExpression"@) || is_kind(j, "SequenceExpression"@) || is_kind(j, "TemplateLiteral"@) || is_kind(j, "TaggedTemplateExpression"@) {
        match collection_of(j, strict) {
            Err(e) => Err(e),
            Ok(e) => {
                Ok(e)
            },
        }
    } else if is_kind(j, "BinaryExpression"@) || is_kind(j, "LogicalExpression"@) || is_kind(j, "UnaryExpression"@) || is_kind(j, "UpdateExpression"@) || is_kind(j, "ConditionalExpression"@) {
        match operation_of(j, strict) {
            Err(e) => Err(e),
            Ok(e) => {
                Ok(e)
            },
        }
    } else {
        match other_expr_of(j, strict) {
            Err(e) => Err(e),
            Ok(e) => {
                Ok(e)
            },
        }
    }
}

/// A literal. A number keeps its text.
#[verifier::opaque]
pub closed spec fn literal_of(j: JsonTree, strict: bool) -> Result<LitTree, ErrorView>
    decreases height(j), 0int, 21int,
{
    literal_body(j, strict)
}

#[verifier::opaque]
spec fn literal_body(j: JsonTree, strict: bool) -> Result<LitTree, ErrorView>
    decreases height(j), 0int, 20int,
{
    if (field(j, "bigint"@) is Str) {
        let t = text_in(field(j, "bigint"@));
        Ok(LitTree::BigInt(t))
    } else if !(field(j, "regex"@) is Null) {
        let pattern = text_in(field(field(j, "regex"@), "pattern"@));
        let flags = text_in(field(field(j, "regex"@), "flags"@));
        Ok(LitTree::Regex { pattern, flags })
    } else if (field(j, "value"@) is Bool) {
        let b = flag(field(j, "value"@));
        Ok(LitTree::Bool(b))
    } else if (field(j, "value"@) is Number) {
        let t = number_in(field(j, "value"@));
        Ok(LitTree::Number(t))
    } else if (field(j, "value"@) is Str) {
        let t = text_in(field(j, "value"@));
        Ok(LitTree::Str(t))
    } else {
        Ok(LitTree::Null)
    }
}

/// A member expression.
#[verifier::opaque]
pub closed spec fn member_expr_of(j: JsonTree, strict: bool) -> Result<ExprTree, ErrorView>
    decreases height(j), 0int, 121int,
{
    member_expr_body(j, strict)
}

#[verifier::opaque]
spec fn member_expr_body(j: JsonTree, strict: bool) -> Result<ExprTree, ErrorView>
    decreases height(j), 0int, 120int,
{
    if is_kind(j, "MemberExpression"@) {
        match expr_of(field(j, "object"@), strict) {
            Err(e) => Err(e),
            Ok(obj) => {
                if is_kind(field(j, "property"@), "PrivateIdentifier"@) {
                    let prop = hashed(field(field(j, "property"@), "name"@));
                    Ok(ExprTree::Member { obj: Box::new(obj), prop, computed: None, optional: false })
                } else {
                    let optional = flag(field(j, "optional"@));
                    if flag(field(j, "computed"@)) {
                        match expr_of(field(j, "property"@), strict) {
                            Err(e) => Err(e),
                            Ok(e) => {
                                Ok(ExprTree::Member { obj: Box::new(obj), prop: ""@, computed: Some(Box::new(e)), optional })
                            },
                        }
                    } else {
                        let prop = text_in(field(field(j, "property"@), "name"@));
                        Ok(ExprTree::Member { obj: Box::new(obj), prop, computed: None, optional })
                    }
                }
            },
        }
    } else {
        Err(ErrorView::Parse("unsupported expression"@))
    }
}

/// Call arguments.
#[verifier::opaque]
pub closed spec fn args_of(j: JsonTree, i: int, acc: Seq<ArgTree>, strict: bool) -> Result<Seq<ArgTree>, ErrorView>
    decreases height(j), (if i < count(j) { count(j) - i } else { 0 }), 41int,
{
    args_body(j, i, acc, strict)
}

#[verifier::opaque]
spec fn args_body(j: JsonTree, i: int, acc: Seq<ArgTree>, strict: bool) -> Result<Seq<ArgTree>, ErrorView>
    decreases height(j), (if i < count(j) { count(j) - i } else { 0 }), 40int,
{
    if i < 0 || i >= count(j) {
        Ok(acc)
    } else if is_kind(item(j, i), "SpreadElement"@) {
        match expr_of(field(item(j, i), "argument"@), strict) {
            Err(e) => Err(e),
            Ok(e) => {
                args_of(j, i + 1, acc.push(ArgTree::Spread(e)), strict)
            },
        }
    } else {
        match expr_of(item(j, i), strict) {
            Err(e) => Err(e),
            Ok(e) => {
                args_of(j, i + 1, acc.push(ArgTree::Expr(e)), strict)
            },
        }
    }
}

/// A call or a `new`.
#[verifier::opaque]
pub closed spec fn call_of(j: JsonTree, strict: bool) -> Result<ExprTree, ErrorView>
    decreases height(j), 0int, 121int,
{
    call_body(j, strict)
}

#[verifier::opaque]
spec fn call_body(j: JsonTree, strict: bool) -> Result<ExprTree, ErrorView>
    decreases height(j), 0int, 120int,
{
    if is_kind(j, "CallExpression"@) {
        match expr_of(field(j, "callee"@), strict) {
            Err(e) => Err(e),
            Ok(callee) => {
                match args_of(field(j, "arguments"@), 0, Seq::empty(), strict) {
                    Err(e) => Err(e),
                    Ok(args) => {
                        let optional = flag(field(j, "optional"@));
                        Ok(ExprTree::Call { callee: Box::new(callee), args, optional })
                    },
                }
            },
        }
    } else if is_kind(j, "NewExpression"@) {
        match expr_of(field(j, "callee"@), strict) {
            Err(e) => Err(e),
            Ok(callee) => {
                match args_of(field(j, "arguments"@), 0, Seq::empty(), strict) {
                    Err(e) => Err(e),
                    Ok(args) => {
                        Ok(ExprTree::New { callee: Box::new(callee), args })
                    },
                }
            },
        }
    } else {
        Err(ErrorView::Parse("unsupported expression"@))
    }
}

/// An assignment. A compound one reads its target first.
#[verifier::opaque]
pub closed spec fn assignment_of(j: JsonTree, strict: bool) -> Result<ExprTree, ErrorView>
    decreases height(j), 0int, 121int,
{
    assignment_body(j, strict)
}

#[verifier::opaque]
spec fn assignment_body(j: JsonTree, strict: bool) -> Result<ExprTree, ErrorView>
    decreases height(j), 0int, 120int,
{
    if is_kind(j, "AssignmentExpression"@) {
        match target_of(field(j, "left"@), strict) {
            Err(e) => Err(e),
            Ok(target) => {
                match expr_of(field(j, "right"@), strict) {
                    Err(e) => Err(e),
                    Ok(right) => {
                        if (field(j, "operator"@) == JsonTree::Str("="@)) {
                            Ok(ExprTree::Assignment { target, value: Box::new(right) })
                        } else {
                            match compound_op(text_in(field(j, "operator"@))) {
                                Some(op) => {
                                    match target_expr_of(field(j, "left"@), strict) {
                                        Err(e) => Err(e),
                                        Ok(left) => {
                                            let value = ExprTree::Binary { op, left: Box::new(left), right: Box::new(right) };
                                            Ok(ExprTree::Assignment { target, value: Box::new(value) })
                                        },
                                    }
                                },
                                None => {
                                    match logical_assign_op(text_in(field(j, "operator"@))) {
                                        Some(op) => {
                                            match target_expr_of(field(j, "left"@), strict) {
                                                Err(e) => Err(e),
                                                Ok(left) => {
                                                    let value = ExprTree::Logical { op, left: Box::new(left), right: Box::new(right) };
                                                    Ok(ExprTree::Assignment { target, value: Box::new(value) })
                                                },
                                            }
                                        },
                                        None => {
                                            Err(ErrorView::Parse("compound assignment operator not supported"@))
                                        },
                                    }
                                },
                            }
                        }
                    },
                }
            },
        }
    } else {
        Err(ErrorView::Parse("unsupported expression"@))
    }
}

/// What a compound assignment reads.
#[verifier::opaque]
pub closed spec fn target_expr_of(j: JsonTree, strict: bool) -> Result<ExprTree, ErrorView>
    decreases height(j), 0int, 137int,
{
    target_expr_body(j, strict)
}

#[verifier::opaque]
spec fn target_expr_body(j: JsonTree, strict: bool) -> Result<ExprTree, ErrorView>
    decreases height(j), 0int, 136int,
{
    if is_kind(j, "ArrayPattern"@) || is_kind(j, "ObjectPattern"@) {
        Err(ErrorView::Parse("compound assignment to a pattern is not supported"@))
    } else {
        match target_value_of(j, strict) {
            Err(e) => Err(e),
            Ok(e) => {
                Ok(e)
            },
        }
    }
}

/// What an assignment writes to.
#[verifier::opaque]
pub closed spec fn target_of(j: JsonTree, strict: bool) -> Result<AssignTargetTree, ErrorView>
    decreases height(j), 0int, 137int,
{
    target_body(j, strict)
}

#[verifier::opaque]
spec fn target_body(j: JsonTree, strict: bool) -> Result<AssignTargetTree, ErrorView>
    decreases height(j), 0int, 136int,
{
    if is_kind(j, "ArrayPattern"@) || is_kind(j, "ObjectPattern"@) {
        match target_pattern_of(j, strict) {
            Err(e) => Err(e),
            Ok(p) => {
                Ok(AssignTargetTree::Pattern(p))
            },
        }
    } else {
        match target_value_of(j, strict) {
            Err(e) => Err(e),
            Ok(e) => {
                Ok(AssignTargetTree::Expr(Box::new(e)))
            },
        }
    }
}

/// A target that is no pattern.
#[verifier::opaque]
pub closed spec fn target_value_of(j: JsonTree, strict: bool) -> Result<ExprTree, ErrorView>
    decreases height(j), 0int, 133int,
{
    target_value_body(j, strict)
}

#[verifier::opaque]
spec fn target_value_body(j: JsonTree, strict: bool) -> Result<ExprTree, ErrorView>
    decreases height(j), 0int, 132int,
{
    if is_kind(j, "Identifier"@) {
        let name = text_in(field(j, "name"@));
        Ok(ExprTree::Ident(name))
    } else if is_kind(j, "MemberExpression"@) {
        match member_expr_of(j, strict) {
            Err(e) => Err(e),
            Ok(e) => {
                Ok(e)
            },
        }
    } else if is_kind(j, "TSAsExpression"@) || is_kind(j, "TSSatisfiesExpression"@) || is_kind(j, "TSNonNullExpression"@) || is_kind(j, "TSTypeAssertion"@) {
        match cast_target_of(field(j, "expression"@), strict) {
            Err(e) => Err(e),
            Ok(e) => {
                Ok(e)
            },
        }
    } else {
        Err(ErrorView::Parse("unsupported assignment target (elem)"@))
    }
}

/// A target under a type assertion.
#[verifier::opaque]
pub closed spec fn cast_target_of(j: JsonTree, strict: bool) -> Result<ExprTree, ErrorView>
    decreases height(j), 0int, 133int,
{
    cast_target_body(j, strict)
}

#[verifier::opaque]
spec fn cast_target_body(j: JsonTree, strict: bool) -> Result<ExprTree, ErrorView>
    decreases height(j), 0int, 132int,
{
    if is_kind(j, "Identifier"@) {
        let name = text_in(field(j, "name"@));
        Ok(ExprTree::Ident(name))
    } else if is_kind(j, "MemberExpression"@) && !is_kind(field(j, "property"@), "PrivateIdentifier"@) {
        match member_expr_of(j, strict) {
            Err(e) => Err(e),
            Ok(e) => {
                Ok(e)
            },
        }
    } else if is_kind(j, "TSAsExpression"@) || is_kind(j, "TSSatisfiesExpression"@) || is_kind(j, "TSNonNullExpression"@) || is_kind(j, "TSTypeAssertion"@) {
        match cast_target_of(field(j, "expression"@), strict) {
            Err(e) => Err(e),
            Ok(e) => {
                Ok(e)
            },
        }
    } else {
        Err(ErrorView::Parse("unsupported assignment target (elem)"@))
    }
}

/// A function, an arrow function or a class.
#[verifier::opaque]
pub closed spec fn closure_of(j: JsonTree, strict: bool) -> Result<ExprTree, ErrorView>
    decreases height(j), 0int, 121int,
{
    closure_body(j, strict)
}

#[verifier::opaque]
spec fn closure_body(j: JsonTree, strict: bool) -> Result<ExprTree, ErrorView>
    decreases height(j), 0int, 120int,
{
    if is_kind(j, "FunctionExpression"@) {
        match params_of(j, strict) {
            Err(e) => Err(e),
            Ok(params) => {
                match function_body_of(j, strict) {
                    Err(e) => Err(e),
                    Ok(body) => {
                        let name = id_name(field(j, "id"@));
                        Ok(ExprTree::Function { name, params, body })
                    },
                }
            },
        }
    } else if is_kind(j, "ArrowFunctionExpression"@) {
        match params_of(j, strict) {
            Err(e) => Err(e),
            Ok(params) => {
                match arrow_body_of(j, strict) {
                    Err(e) => Err(e),
                    Ok(body) => {
                        Ok(ExprTree::Arrow { params, body })
                    },
                }
            },
        }
    } else if is_kind(j, "ClassExpression"@) {
        match class_of(j, strict) {
            Err(e) => Err(e),
            Ok(class) => {
                Ok(ExprTree::Class(Box::new(class)))
            },
        }
    } else {
        Err(ErrorView::Parse("unsupported expression"@))
    }
}

/// An array, object, sequence or template.
#[verifier::opaque]
pub closed spec fn collection_of(j: JsonTree, strict: bool) -> Result<ExprTree, ErrorView>
    decreases height(j), 0int, 121int,
{
    collection_body(j, strict)
}

#[verifier::opaque]
spec fn collection_body(j: JsonTree, strict: bool) -> Result<ExprTree, ErrorView>
    decreases height(j), 0int, 120int,
{
    if is_kind(j, "ArrayExpression"@) {
        match elems_of(field(j, "elements"@), 0, Seq::empty(), strict) {
            Err(e) => Err(e),
            Ok(list) => {
                Ok(ExprTree::Array(list))
            },
        }
    } else if is_kind(j, "ObjectExpression"@) {
        match props_of(field(j, "properties"@), 0, Seq::empty(), strict) {
            Err(e) => Err(e),
            Ok(list) => {
                Ok(ExprTree::Object(list))
            },
        }
    } else if is_kind(j, "SequenceExpression"@) {
        match exprs_of(field(j, "expressions"@), 0, Seq::empty(), strict) {
            Err(e) => Err(e),
            Ok(list) => {
                Ok(ExprTree::Sequence(list))
            },
        }
    } else if is_kind(j, "TemplateLiteral"@) {
        let t = quasi(field(j, "quasis"@), 0);
        let first = ExprTree::Lit(LitTree::Str(t));
        match template_of(field(j, "expressions"@), field(j, "quasis"@), 0, first, strict) {
            Err(e) => Err(e),
            Ok(e) => {
                Ok(e)
            },
        }
    } else if is_kind(j, "TaggedTemplateExpression"@) {
        match expr_of(field(j, "tag"@), strict) {
            Err(e) => Err(e),
            Ok(tag) => {
                match exprs_of(field(field(j, "quasi"@), "expressions"@), 0, Seq::empty(), strict) {
                    Err(e) => Err(e),
                    Ok(subs) => {
                        match cooked_of(field(field(j, "quasi"@), "quasis"@), 0, Seq::empty(), strict) {
                            Err(e) => Err(e),
                            Ok(cooked) => {
                                match raws_of(field(field(j, "quasi"@), "quasis"@), 0, Seq::empty(), strict) {
                                    Err(e) => Err(e),
                                    Ok(raws) => {
                                        Ok(ExprTree::Tagged { tag: Box::new(tag), cooked, raws, subs })
                                    },
                                }
                            },
                        }
                    },
                }
            },
        }
    } else {
        Err(ErrorView::Parse("unsupported expression"@))
    }
}

/// Expressions.
#[verifier::opaque]
pub closed spec fn exprs_of(j: JsonTree, i: int, acc: Seq<ExprTree>, strict: bool) -> Result<Seq<ExprTree>, ErrorView>
    decreases height(j), (if i < count(j) { count(j) - i } else { 0 }), 41int,
{
    exprs_body(j, i, acc, strict)
}

#[verifier::opaque]
spec fn exprs_body(j: JsonTree, i: int, acc: Seq<ExprTree>, strict: bool) -> Result<Seq<ExprTree>, ErrorView>
    decreases height(j), (if i < count(j) { count(j) - i } else { 0 }), 40int,
{
    if i < 0 || i >= count(j) {
        Ok(acc)
    } else {
        match expr_of(item(j, i), strict) {
            Err(e) => Err(e),
            Ok(e) => {
                exprs_of(j, i + 1, acc.push(e), strict)
            },
        }
    }
}

/// The literal parts of a tagged template.
#[verifier::opaque]
pub closed spec fn cooked_of(j: JsonTree, i: int, acc: Seq<ExprTree>, strict: bool) -> Result<Seq<ExprTree>, ErrorView>
    decreases height(j), (if i < count(j) { count(j) - i } else { 0 }), 41int,
{
    cooked_body(j, i, acc, strict)
}

#[verifier::opaque]
spec fn cooked_body(j: JsonTree, i: int, acc: Seq<ExprTree>, strict: bool) -> Result<Seq<ExprTree>, ErrorView>
    decreases height(j), (if i < count(j) { count(j) - i } else { 0 }), 40int,
{
    if i < 0 || i >= count(j) {
        Ok(acc)
    } else {
        let t = quasi(j, i);
        let e = ExprTree::Lit(LitTree::Str(t));
        cooked_of(j, i + 1, acc.push(e), strict)
    }
}

/// The raw literal parts of a tagged template.
#[verifier::opaque]
pub closed spec fn raws_of(j: JsonTree, i: int, acc: Seq<Seq<char>>, strict: bool) -> Result<Seq<Seq<char>>, ErrorView>
    decreases height(j), (if i < count(j) { count(j) - i } else { 0 }), 41int,
{
    raws_body(j, i, acc, strict)
}

#[verifier::opaque]
spec fn raws_body(j: JsonTree, i: int, acc: Seq<Seq<char>>, strict: bool) -> Result<Seq<Seq<char>>, ErrorView>
    decreases height(j), (if i < count(j) { count(j) - i } else { 0 }), 40int,
{
    if i < 0 || i >= count(j) {
        Ok(acc)
    } else {
        let t = text_in(field(field(item(j, i), "value"@), "raw"@));
        raws_of(j, i + 1, acc.push(t), strict)
    }
}

/// The substitutions of a template, each converted to a string and joined with the
/// literal part behind it.
#[verifier::opaque]
pub closed spec fn template_of(j: JsonTree, quasis: JsonTree, i: int, acc: ExprTree, strict: bool) -> Result<ExprTree, ErrorView>
    decreases height(j), (if i < count(j) { count(j) - i } else { 0 }), 41int,
{
    template_body(j, quasis, i, acc, strict)
}

#[verifier::opaque]
spec fn template_body(j: JsonTree, quasis: JsonTree, i: int, acc: ExprTree, strict: bool) -> Result<ExprTree, ErrorView>
    decreases height(j), (if i < count(j) { count(j) - i } else { 0 }), 40int,
{
    if i < 0 || i >= count(j) {
        Ok(acc)
    } else {
        match expr_of(item(j, i), strict) {
            Err(e) => Err(e),
            Ok(e) => {
                let text = ExprTree::ToString(Box::new(e));
                let left = ExprTree::Binary { op: BinaryOp::Add, left: Box::new(acc), right: Box::new(text) };
                let t = quasi(quasis, i + 1);
                let part = ExprTree::Lit(LitTree::Str(t));
                template_of(j, quasis, i + 1, ExprTree::Binary { op: BinaryOp::Add, left: Box::new(left), right: Box::new(part) }, strict)
            },
        }
    }
}

/// The elements of an array.
#[verifier::opaque]
pub closed spec fn elems_of(j: JsonTree, i: int, acc: Seq<ArrayElemTree>, strict: bool) -> Result<Seq<ArrayElemTree>, ErrorView>
    decreases height(j), (if i < count(j) { count(j) - i } else { 0 }), 41int,
{
    elems_body(j, i, acc, strict)
}

#[verifier::opaque]
spec fn elems_body(j: JsonTree, i: int, acc: Seq<ArrayElemTree>, strict: bool) -> Result<Seq<ArrayElemTree>, ErrorView>
    decreases height(j), (if i < count(j) { count(j) - i } else { 0 }), 40int,
{
    if i < 0 || i >= count(j) {
        Ok(acc)
    } else if (item(j, i) is Null) {
        elems_of(j, i + 1, acc.push(ArrayElemTree::Elision), strict)
    } else if is_kind(item(j, i), "SpreadElement"@) {
        match expr_of(field(item(j, i), "argument"@), strict) {
            Err(e) => Err(e),
            Ok(e) => {
                elems_of(j, i + 1, acc.push(ArrayElemTree::Spread(e)), strict)
            },
        }
    } else {
        match expr_of(item(j, i), strict) {
            Err(e) => Err(e),
            Ok(e) => {
                elems_of(j, i + 1, acc.push(ArrayElemTree::Expr(e)), strict)
            },
        }
    }
}

/// The properties of an object.
#[verifier::opaque]
pub closed spec fn props_of(j: JsonTree, i: int, acc: Seq<PropTree>, strict: bool) -> Result<Seq<PropTree>, ErrorView>
    decreases height(j), (if i < count(j) { count(j) - i } else { 0 }), 41int,
{
    props_body(j, i, acc, strict)
}

#[verifier::opaque]
spec fn props_body(j: JsonTree, i: int, acc: Seq<PropTree>, strict: bool) -> Result<Seq<PropTree>, ErrorView>
    decreases height(j), (if i < count(j) { count(j) - i } else { 0 }), 40int,
{
    if i < 0 || i >= count(j) {
        Ok(acc)
    } else if is_kind(item(j, i), "SpreadElement"@) {
        match expr_of(field(item(j, i), "argument"@), strict) {
            Err(e) => Err(e),
            Ok(e) => {
                props_of(j, i + 1, acc.push(PropTree::Spread(e)), strict)
            },
        }
    } else {
        match prop_of(item(j, i), strict) {
            Err(e) => Err(e),
            Ok(p) => {
                props_of(j, i + 1, acc.push(p), strict)
            },
        }
    }
}

/// A property of an object.
#[verifier::opaque]
pub closed spec fn prop_of(j: JsonTree, strict: bool) -> Result<PropTree, ErrorView>
    decreases height(j), 0int, 157int,
{
    prop_body(j, strict)
}

#[verifier::opaque]
spec fn prop_body(j: JsonTree, strict: bool) -> Result<PropTree, ErrorView>
    decreases height(j), 0int, 156int,
{
    match key_of(j, strict) {
        Err(e) => Err(e),
        Ok(key) => {
            if flag(field(j, "method"@)) {
                if !is_kind(field(j, "value"@), "FunctionExpression"@) {
                    Err(ErrorView::Parse("expected function in method shorthand"@))
                } else {
                    match params_of(field(j, "value"@), strict) {
                        Err(e) => Err(e),
                        Ok(params) => {
                            match function_body_of(field(j, "value"@), strict) {
                                Err(e) => Err(e),
                                Ok(body) => {
                                    Ok(PropTree::Method { key, params, body })
                                },
                            }
                        },
                    }
                }
            } else if (field(j, "kind"@) == JsonTree::Str("get"@)) || (field(j, "kind"@) == JsonTree::Str("set"@)) {
                if !is_kind(field(j, "value"@), "FunctionExpression"@) {
                    Err(ErrorView::Parse("expected function in method shorthand"@))
                } else {
                    match params_of(field(j, "value"@), strict) {
                        Err(e) => Err(e),
                        Ok(params) => {
                            match function_body_of(field(j, "value"@), strict) {
                                Err(e) => Err(e),
                                Ok(body) => {
                                    if (field(j, "kind"@) == JsonTree::Str("get"@)) {
                                        Ok(PropTree::Accessor { get: true, key, params, body })
                                    } else {
                                        Ok(PropTree::Accessor { get: false, key, params, body })
                                    }
                                },
                            }
                        },
                    }
                }
            } else {
                match expr_of(field(j, "value"@), strict) {
                    Err(e) => Err(e),
                    Ok(value) => {
                        Ok(PropTree::Init { key, value })
                    },
                }
            }
        },
    }
}

/// The key of a property, a pattern or a class element.
#[verifier::opaque]
pub closed spec fn key_of(j: JsonTree, strict: bool) -> Result<PropKeyTree, ErrorView>
    decreases height(j), 0int, 153int,
{
    key_body(j, strict)
}

#[verifier::opaque]
spec fn key_body(j: JsonTree, strict: bool) -> Result<PropKeyTree, ErrorView>
    decreases height(j), 0int, 152int,
{
    if is_kind(field(j, "key"@), "Identifier"@) && !flag(field(j, "computed"@)) {
        let name = text_in(field(field(j, "key"@), "name"@));
        Ok(PropKeyTree::Ident(name))
    } else if is_kind(field(j, "key"@), "PrivateIdentifier"@) {
        let name = hashed(field(field(j, "key"@), "name"@));
        Ok(PropKeyTree::Ident(name))
    } else if is_kind(field(j, "key"@), "Literal"@) && (field(field(j, "key"@), "value"@) is Str) {
        let name = text_in(field(field(j, "key"@), "value"@));
        Ok(PropKeyTree::Str(name))
    } else if is_kind(field(j, "key"@), "Literal"@) && (field(field(j, "key"@), "value"@) is Number) {
        let name = positional(number_in(field(field(j, "key"@), "value"@)));
        Ok(PropKeyTree::Str(name))
    } else {
        match expr_of(field(j, "key"@), strict) {
            Err(e) => Err(e),
            Ok(e) => {
                Ok(PropKeyTree::Computed(Box::new(e)))
            },
        }
    }
}

/// A class.
#[verifier::opaque]
pub closed spec fn class_of(j: JsonTree, strict: bool) -> Result<ClassTree, ErrorView>
    decreases height(j), 0int, 81int,
{
    class_body(j, strict)
}

#[verifier::opaque]
spec fn class_body(j: JsonTree, strict: bool) -> Result<ClassTree, ErrorView>
    decreases height(j), 0int, 80int,
{
    if is_kind(j, "ClassDeclaration"@) || is_kind(j, "ClassExpression"@) {
        let name = id_name(field(j, "id"@));
        if (field(j, "superClass"@) is Null) {
            match class_elems_of(field(field(j, "body"@), "body"@), 0, Seq::empty(), strict) {
                Err(e) => Err(e),
                Ok(elements) => {
                    Ok(ClassTree { name, extends: None, elements })
                },
            }
        } else {
            match expr_of(field(j, "superClass"@), strict) {
                Err(e) => Err(e),
                Ok(e) => {
                    match class_elems_of(field(field(j, "body"@), "body"@), 0, Seq::empty(), strict) {
                        Err(e) => Err(e),
                        Ok(elements) => {
                            Ok(ClassTree { name, extends: Some(Box::new(e)), elements })
                        },
                    }
                },
            }
        }
    } else {
        Err(ErrorView::Parse("unsupported class"@))
    }
}

/// The elements of a class; static blocks and type signatures have no effect.
#[verifier::opaque]
pub closed spec fn class_elems_of(j: JsonTree, i: int, acc: Seq<ClassElemTree>, strict: bool) -> Result<Seq<ClassElemTree>, ErrorView>
    decreases height(j), (if i < count(j) { count(j) - i } else { 0 }), 41int,
{
    class_elems_body(j, i, acc, strict)
}

#[verifier::opaque]
spec fn class_elems_body(j: JsonTree, i: int, acc: Seq<ClassElemTree>, strict: bool) -> Result<Seq<ClassElemTree>, ErrorView>
    decreases height(j), (if i < count(j) { count(j) - i } else { 0 }), 40int,
{
    if i < 0 || i >= count(j) {
        Ok(acc)
    } else if is_kind(item(j, i), "StaticBlock"@) || is_kind(item(j, i), "TSIndexSignature"@) {
        class_elems_of(j, i + 1, acc, strict)
    } else {
        match class_elem_of(item(j, i), strict) {
            Err(e) => Err(e),
            Ok(e) => {
                class_elems_of(j, i + 1, acc.push(e), strict)
            },
        }
    }
}

/// An element of a class.
#[verifier::opaque]
pub closed spec fn class_elem_of(j: JsonTree, strict: bool) -> Result<ClassElemTree, ErrorView>
    decreases height(j), 0int, 157int,
{
    class_elem_body(j, strict)
}

#[verifier::opaque]
spec fn class_elem_body(j: JsonTree, strict: bool) -> Result<ClassElemTree, ErrorView>
    decreases height(j), 0int, 156int,
{
    match key_of(j, strict) {
        Err(e) => Err(e),
        Ok(key) => {
            let is_static = flag(field(j, "static"@));
            if is_kind(j, "MethodDefinition"@) || is_kind(j, "TSAbstractMethodDefinition"@) {
                match params_of(field(j, "value"@), strict) {
                    Err(e) => Err(e),
                    Ok(params) => {
                        match function_body_of(field(j, "value"@), strict) {
                            Err(e) => Err(e),
                            Ok(body) => {
                                if (field(j, "kind"@) == JsonTree::Str("constructor"@)) {
                                    Ok(ClassElemTree::Constructor { params, body })
                                } else if (field(j, "kind"@) == JsonTree::Str("get"@)) {
                                    Ok(ClassElemTree::Method { is_static, get: true, key, params, body })
                                } else {
                                    Ok(ClassElemTree::Method { is_static, get: false, key, params, body })
                                }
                            },
                        }
                    },
                }
            } else if is_kind(j, "PropertyDefinition"@) || is_kind(j, "TSAbstractPropertyDefinition"@) {
                match (if field(j, "value"@) is Null {
                    Ok(None)
                } else {
                    some_of(expr_of(field(j, "value"@), strict))
                }) {
                    Err(e) => Err(e),
                    Ok(init) => {
                        Ok(ClassElemTree::Field { is_static, key, init })
                    },
                }
            } else {
                Ok(ClassElemTree::AccessorProp { is_static, key })
            }
        },
    }
}

/// An operator with its operands.
#[verifier::opaque]
pub closed spec fn operation_of(j: JsonTree, strict: bool) -> Result<ExprTree, ErrorView>
    decreases height(j), 0int, 121int,
{
    operation_body(j, strict)
}

#[verifier::opaque]
spec fn operation_body(j: JsonTree, strict: bool) -> Result<ExprTree, ErrorView>
    decreases height(j), 0int, 120int,
{
    if is_kind(j, "BinaryExpression"@) {
        match binary_of(j, strict) {
            Err(e) => Err(e),
            Ok(e) => {
                Ok(e)
            },
        }
    } else if is_kind(j, "LogicalExpression"@) {
        match logical_op(text_in(field(j, "operator"@))) {
            Some(op) => {
                match expr_of(field(j, "left"@), strict) {
                    Err(e) => Err(e),
                    Ok(left) => {
                        match expr_of(field(j, "right"@), strict) {
                            Err(e) => Err(e),
                            Ok(right) => {
                                Ok(ExprTree::Logical { op, left: Box::new(left), right: Box::new(right) })
                            },
                        }
                    },
                }
            },
            None => {
                Err(ErrorView::Parse("logical operator not supported"@))
            },
        }
    } else if is_kind(j, "UnaryExpression"@) {
        match unary_op(text_in(field(j, "operator"@))) {
            Some(op) => {
                match expr_of(field(j, "argument"@), strict) {
                    Err(e) => Err(e),
                    Ok(operand) => {
                        Ok(ExprTree::Unary { op, operand: Box::new(operand) })
                    },
                }
            },
            None => {
                Err(ErrorView::Parse("unary operator not supported"@))
            },
        }
    } else if is_kind(j, "UpdateExpression"@) {
        match update_of(j, strict) {
            Err(e) => Err(e),
            Ok(e) => {
                Ok(e)
            },
        }
    } else if is_kind(j, "ConditionalExpression"@) {
        match expr_of(field(j, "test"@), strict) {
            Err(e) => Err(e),
            Ok(cond) => {
                match expr_of(field(j, "consequent"@), strict) {
                    Err(e) => Err(e),
                    Ok(yes) => {
                        match expr_of(field(j, "alternate"@), strict) {
                            Err(e) => Err(e),
                            Ok(no) => {
                                Ok(ExprTree::Ternary { cond: Box::new(cond), yes: Box::new(yes), no: Box::new(no) })
                            },
                        }
                    },
                }
            },
        }
    } else {
        Err(ErrorView::Parse("unsupported expression"@))
    }
}

/// A binary operator. A private name is asked for by its text.
#[verifier::opaque]
pub closed spec fn binary_of(j: JsonTree, strict: bool) -> Result<ExprTree, ErrorView>
    decreases height(j), 0int, 111int,
{
    binary_body(j, strict)
}

#[verifier::opaque]
spec fn binary_body(j: JsonTree, strict: bool) -> Result<ExprTree, ErrorView>
    decreases height(j), 0int, 110int,
{
    if is_kind(j, "BinaryExpression"@) {
        if is_kind(field(j, "left"@), "PrivateIdentifier"@) {
            match expr_of(field(j, "right"@), strict) {
                Err(e) => Err(e),
                Ok(right) => {
                    let t = hashed(field(field(j, "left"@), "name"@));
                    let left = ExprTree::Lit(LitTree::Str(t));
                    Ok(ExprTree::Binary { op: BinaryOp::In, left: Box::new(left), right: Box::new(right) })
                },
            }
        } else if (field(j, "operator"@) == JsonTree::Str("instanceof"@)) {
            match expr_of(field(j, "left"@), strict) {
                Err(e) => Err(e),
                Ok(left) => {
                    match expr_of(field(j, "right"@), strict) {
                        Err(e) => Err(e),
                        Ok(right) => {
                            Ok(ExprTree::InstanceOf { left: Box::new(left), right: Box::new(right) })
                        },
                    }
                },
            }
        } else {
            match binary_op(text_in(field(j, "operator"@))) {
                Some(op) => {
                    match expr_of(field(j, "left"@), strict) {
                        Err(e) => Err(e),
                        Ok(left) => {
                            match expr_of(field(j, "right"@), strict) {
                                Err(e) => Err(e),
                                Ok(right) => {
                                    Ok(ExprTree::Binary { op, left: Box::new(left), right: Box::new(right) })
                                },
                            }
                        },
                    }
                },
                None => {
                    Err(ErrorView::Parse("binary operator not supported"@))
                },
            }
        }
    } else {
        Err(ErrorView::Parse("unsupported expression"@))
    }
}

/// An increment or a decrement.
#[verifier::opaque]
pub closed spec fn update_of(j: JsonTree, strict: bool) -> Result<ExprTree, ErrorView>
    decreases height(j), 0int, 111int,
{
    update_body(j, strict)
}

#[verifier::opaque]
spec fn update_body(j: JsonTree, strict: bool) -> Result<ExprTree, ErrorView>
    decreases height(j), 0int, 110int,
{
    if is_kind(j, "UpdateExpression"@) {
        match expr_of(field(j, "argument"@), strict) {
            Err(e) => Err(e),
            Ok(operand) => {
                if (field(j, "operator"@) == JsonTree::Str("++"@)) {
                    if flag(field(j, "prefix"@)) {
                        Ok(ExprTree::Unary { op: UnaryOp::PreInc, operand: Box::new(operand) })
                    } else {
                        Ok(ExprTree::Unary { op: UnaryOp::PostInc, operand: Box::new(operand) })
                    }
                } else if flag(field(j, "prefix"@)) {
                    Ok(ExprTree::Unary { op: UnaryOp::PreDec, operand: Box::new(operand) })
                } else {
                    Ok(ExprTree::Unary { op: UnaryOp::PostDec, operand: Box::new(operand) })
                }
            },
        }
    } else {
        Err(ErrorView::Parse("unsupported expression"@))
    }
}

/// The other expressions. What only wraps an expression is that expression.
#[verifier::opaque]
pub closed spec fn other_expr_of(j: JsonTree, strict: bool) -> Result<ExprTree, ErrorView>
    decreases height(j), 0int, 121int,
{
    other_expr_body(j, strict)
}

#[verifier::opaque]
spec fn other_expr_body(j: JsonTree, strict: bool) -> Result<ExprTree, ErrorView>
    decreases height(j), 0int, 120int,
{
    if is_kind(j, "AwaitExpression"@) {
        match expr_of(field(j, "argument"@), strict) {
            Err(e) => Err(e),
            Ok(e) => {
                Ok(ExprTree::Await(Box::new(e)))
            },
        }
    } else if is_kind(j, "YieldExpression"@) {
        let delegated = flag(field(j, "delegate"@));
        if (field(j, "argument"@) is Null) {
            Ok(ExprTree::Yield { expr: None, delegated })
        } else {
            match expr_of(field(j, "argument"@), strict) {
                Err(e) => Err(e),
                Ok(e) => {
                    Ok(ExprTree::Yield { expr: Some(Box::new(e)), delegated })
                },
            }
        }
    } else if is_kind(j, "ParenthesizedExpression"@) || is_kind(j, "ChainExpression"@) || is_kind(j, "TSAsExpression"@) || is_kind(j, "TSSatisfiesExpression"@) || is_kind(j, "TSTypeAssertion"@) || is_kind(j, "TSNonNullExpression"@) || is_kind(j, "TSInstantiationExpression"@) {
        match expr_of(field(j, "expression"@), strict) {
            Err(e) => Err(e),
            Ok(e) => {
                Ok(e)
            },
        }
    } else if is_kind(j, "ImportExpression"@) || is_kind(j, "MetaProperty"@) {
        Ok(ExprTree::Lit(LitTree::Undefined))
    } else if is_kind(j, "JSXElement"@) || is_kind(j, "JSXFragment"@) {
        Err(ErrorView::Parse("JSX runtime is not supported"@))
    } else if is_kind(j, "V8IntrinsicExpression"@) {
        Err(ErrorView::Parse("V8 intrinsics are not supported"@))
    } else {
        Err(ErrorView::Parse("unsupported expression"@))
    }
}

/// A pattern that binds names.
#[verifier::opaque]
pub closed spec fn binding_of(j: JsonTree, strict: bool) -> Result<PatternTree, ErrorView>
    decreases height(j), 0int, 121int,
{
    binding_body(j, strict)
}

#[verifier::opaque]
spec fn binding_body(j: JsonTree, strict: bool) -> Result<PatternTree, ErrorView>
    decreases height(j), 0int, 120int,
{
    if is_kind(j, "Identifier"@) {
        let name = text_in(field(j, "name"@));
        Ok(PatternTree::Ident(name))
    } else if is_kind(j, "ObjectPattern"@) {
        match binding_props_of(field(j, "properties"@), 0, Seq::empty(), strict) {
            Err(e) => Err(e),
            Ok(props) => {
                match binding_rest_of(field(j, "properties"@), strict) {
                    Err(e) => Err(e),
                    Ok(p) => {
                        let rest = boxed(p);
                        Ok(PatternTree::Object { props, rest })
                    },
                }
            },
        }
    } else if is_kind(j, "ArrayPattern"@) {
        match binding_elems_of(field(j, "elements"@), 0, Seq::empty(), strict) {
            Err(e) => Err(e),
            Ok(elems) => {
                match binding_rest_of(field(j, "elements"@), strict) {
                    Err(e) => Err(e),
                    Ok(p) => {
                        let rest = boxed(p);
                        Ok(PatternTree::Array { elems, rest })
                    },
                }
            },
        }
    } else if is_kind(j, "AssignmentPattern"@) {
        match binding_of(field(j, "left"@), strict) {
            Err(e) => Err(e),
            Ok(inner) => {
                match expr_of(field(j, "right"@), strict) {
                    Err(e) => Err(e),
                    Ok(default) => {
                        Ok(PatternTree::Default { inner: Box::new(inner), default: Box::new(default) })
                    },
                }
            },
        }
    } else {
        Err(ErrorView::Parse("unsupported binding pattern"@))
    }
}

/// The properties of an object pattern that binds names.
#[verifier::opaque]
pub closed spec fn binding_props_of(j: JsonTree, i: int, acc: Seq<PropPatternTree>, strict: bool) -> Result<Seq<PropPatternTree>, ErrorView>
    decreases height(j), (if i < count(j) { count(j) - i } else { 0 }), 41int,
{
    binding_props_body(j, i, acc, strict)
}

#[verifier::opaque]
spec fn binding_props_body(j: JsonTree, i: int, acc: Seq<PropPatternTree>, strict: bool) -> Result<Seq<PropPatternTree>, ErrorView>
    decreases height(j), (if i < count(j) { count(j) - i } else { 0 }), 40int,
{
    if i < 0 || i >= count(j) {
        Ok(acc)
    } else if is_kind(item(j, i), "RestElement"@) {
        binding_props_of(j, i + 1, acc, strict)
    } else {
        match key_of(item(j, i), strict) {
            Err(e) => Err(e),
            Ok(key) => {
                match binding_of(field(item(j, i), "value"@), strict) {
                    Err(e) => Err(e),
                    Ok(value) => {
                        binding_props_of(j, i + 1, acc.push(PropPatternTree { key, value }), strict)
                    },
                }
            },
        }
    }
}

/// The elements of an array pattern that binds names.
#[verifier::opaque]
pub closed spec fn binding_elems_of(j: JsonTree, i: int, acc: Seq<Option<PatternTree>>, strict: bool) -> Result<Seq<Option<PatternTree>>, ErrorView>
    decreases height(j), (if i < count(j) { count(j) - i } else { 0 }), 41int,
{
    binding_elems_body(j, i, acc, strict)
}

#[verifier::opaque]
spec fn binding_elems_body(j: JsonTree, i: int, acc: Seq<Option<PatternTree>>, strict: bool) -> Result<Seq<Option<PatternTree>>, ErrorView>
    decreases height(j), (if i < count(j) { count(j) - i } else { 0 }), 40int,
{
    if i < 0 || i >= count(j) {
        Ok(acc)
    } else if (item(j, i) is Null) {
        binding_elems_of(j, i + 1, acc.push(None), strict)
    } else if is_kind(item(j, i), "RestElement"@) {
        binding_elems_of(j, i + 1, acc, strict)
    } else {
        match binding_of(item(j, i), strict) {
            Err(e) => Err(e),
            Ok(p) => {
                binding_elems_of(j, i + 1, acc.push(Some(p)), strict)
            },
        }
    }
}

/// The rest of a pattern that binds names.
#[verifier::opaque]
pub closed spec fn binding_rest_of(j: JsonTree, strict: bool) -> Result<Option<PatternTree>, ErrorView>
    decreases height(j), 0int, 131int,
{
    binding_rest_body(j, strict)
}

#[verifier::opaque]
spec fn binding_rest_body(j: JsonTree, strict: bool) -> Result<Option<PatternTree>, ErrorView>
    decreases height(j), 0int, 130int,
{
    if is_kind(last_item(j), "RestElement"@) {
        match binding_of(field(last_item(j), "argument"@), strict) {
            Err(e) => Err(e),
            Ok(p) => {
                Ok(Some(p))
            },
        }
    } else {
        Ok(None)
    }
}

/// A pattern that assigns.
#[verifier::opaque]
pub closed spec fn target_pattern_of(j: JsonTree, strict: bool) -> Result<PatternTree, ErrorView>
    decreases height(j), 0int, 125int,
{
    target_pattern_body(j, strict)
}

#[verifier::opaque]
spec fn target_pattern_body(j: JsonTree, strict: bool) -> Result<PatternTree, ErrorView>
    decreases height(j), 0int, 124int,
{
    if is_kind(j, "Identifier"@) {
        let name = text_in(field(j, "name"@));
        Ok(PatternTree::Ident(name))
    } else if is_kind(j, "ArrayPattern"@) {
        match target_elems_of(field(j, "elements"@), 0, Seq::empty(), strict) {
            Err(e) => Err(e),
            Ok(elems) => {
                match target_rest_of(field(j, "elements"@), strict) {
                    Err(e) => Err(e),
                    Ok(p) => {
                        let rest = boxed(p);
                        Ok(PatternTree::Array { elems, rest })
                    },
                }
            },
        }
    } else if is_kind(j, "ObjectPattern"@) {
        match target_props_of(field(j, "properties"@), 0, Seq::empty(), strict) {
            Err(e) => Err(e),
            Ok(props) => {
                match target_rest_of(field(j, "properties"@), strict) {
                    Err(e) => Err(e),
                    Ok(p) => {
                        let rest = boxed(p);
                        Ok(PatternTree::Object { props, rest })
                    },
                }
            },
        }
    } else if is_kind(j, "MemberExpression"@) {
        match member_expr_of(j, strict) {
            Err(e) => Err(e),
            Ok(e) => {
                Ok(PatternTree::Member(Box::new(e)))
            },
        }
    } else {
        Err(ErrorView::Parse("unsupported assignment target (elem)"@))
    }
}

/// An element of a pattern that assigns; its default is passed over.
#[verifier::opaque]
pub closed spec fn target_elem_of(j: JsonTree, strict: bool) -> Result<PatternTree, ErrorView>
    decreases height(j), 0int, 129int,
{
    target_elem_body(j, strict)
}

#[verifier::opaque]
spec fn target_elem_body(j: JsonTree, strict: bool) -> Result<PatternTree, ErrorView>
    decreases height(j), 0int, 128int,
{
    if is_kind(j, "AssignmentPattern"@) {
        match target_pattern_of(field(j, "left"@), strict) {
            Err(e) => Err(e),
            Ok(p) => {
                Ok(p)
            },
        }
    } else if is_kind(j, "TSAsExpression"@) || is_kind(j, "TSSatisfiesExpression"@) || is_kind(j, "TSNonNullExpression"@) || is_kind(j, "TSTypeAssertion"@) {
        match cast_pattern_of(field(j, "expression"@), strict) {
            Err(e) => Err(e),
            Ok(p) => {
                Ok(p)
            },
        }
    } else {
        match target_pattern_of(j, strict) {
            Err(e) => Err(e),
            Ok(p) => {
                Ok(p)
            },
        }
    }
}

/// An element of a pattern under a type assertion.
#[verifier::opaque]
pub closed spec fn cast_pattern_of(j: JsonTree, strict: bool) -> Result<PatternTree, ErrorView>
    decreases height(j), 0int, 129int,
{
    cast_pattern_body(j, strict)
}

#[verifier::opaque]
spec fn cast_pattern_body(j: JsonTree, strict: bool) -> Result<PatternTree, ErrorView>
    decreases height(j), 0int, 128int,
{
    if is_kind(j, "Identifier"@) {
        let name = text_in(field(j, "name"@));
        Ok(PatternTree::Ident(name))
    } else if is_kind(j, "MemberExpression"@) && !is_kind(field(j, "property"@), "PrivateIdentifier"@) {
        match member_expr_of(j, strict) {
            Err(e) => Err(e),
            Ok(e) => {
                Ok(PatternTree::Member(Box::new(e)))
            },
        }
    } else if is_kind(j, "TSAsExpression"@) || is_kind(j, "TSSatisfiesExpression"@) || is_kind(j, "TSNonNullExpression"@) || is_kind(j, "TSTypeAssertion"@) {
        match cast_pattern_of(field(j, "expression"@), strict) {
            Err(e) => Err(e),
            Ok(p) => {
                Ok(p)
            },
        }
    } else {
        Err(ErrorView::Parse("unsupported assignment target (elem)"@))
    }
}

/// The elements of an array pattern that assigns.
#[verifier::opaque]
pub closed spec fn target_elems_of(j: JsonTree, i: int, acc: Seq<Option<PatternTree>>, strict: bool) -> Result<Seq<Option<PatternTree>>, ErrorView>
    decreases height(j), (if i < count(j) { count(j) - i } else { 0 }), 41int,
{
    target_elems_body(j, i, acc, strict)
}

#[verifier::opaque]
spec fn target_elems_body(j: JsonTree, i: int, acc: Seq<Option<PatternTree>>, strict: bool) -> Result<Seq<Option<PatternTree>>, ErrorView>
    decreases height(j), (if i < count(j) { count(j) - i } else { 0 }), 40int,
{
    if i < 0 || i >= count(j) {
        Ok(acc)
    } else if (item(j, i) is Null) {
        target_elems_of(j, i + 1, acc.push(None), strict)
    } else if is_kind(item(j, i), "RestElement"@) {
        target_elems_of(j, i + 1, acc, strict)
    } else {
        match target_elem_of(item(j, i), strict) {
            Err(e) => Err(e),
            Ok(p) => {
                target_elems_of(j, i + 1, acc.push(Some(p)), strict)
            },
        }
    }
}

/// The properties of an object pattern that assigns. The default of a shorthand is
/// passed over.
#[verifier::opaque]
pub closed spec fn target_props_of(j: JsonTree, i: int, acc: Seq<PropPatternTree>, strict: bool) -> Result<Seq<PropPatternTree>, ErrorView>
    decreases height(j), (if i < count(j) { count(j) - i } else { 0 }), 41int,
{
    target_props_body(j, i, acc, strict)
}

#[verifier::opaque]
spec fn target_props_body(j: JsonTree, i: int, acc: Seq<PropPatternTree>, strict: bool) -> Result<Seq<PropPatternTree>, ErrorView>
    decreases height(j), (if i < count(j) { count(j) - i } else { 0 }), 40int,
{
    if i < 0 || i >= count(j) {
        Ok(acc)
    } else if is_kind(item(j, i), "RestElement"@) {
        target_props_of(j, i + 1, acc, strict)
    } else if flag(field(item(j, i), "shorthand"@)) {
        let name = text_in(field(field(item(j, i), "key"@), "name"@));
        let key = PropKeyTree::Ident(name);
        let again = text_in(field(field(item(j, i), "key"@), "name"@));
        let value = PatternTree::Ident(again);
        target_props_of(j, i + 1, acc.push(PropPatternTree { key, value }), strict)
    } else {
        match key_of(item(j, i), strict) {
            Err(e) => Err(e),
            Ok(key) => {
                match target_elem_of(field(item(j, i), "value"@), strict) {
                    Err(e) => Err(e),
                    Ok(value) => {
                        target_props_of(j, i + 1, acc.push(PropPatternTree { key, value }), strict)
                    },
                }
            },
        }
    }
}

/// The rest of a pattern that assigns.
#[verifier::opaque]
pub closed spec fn target_rest_of(j: JsonTree, strict: bool) -> Result<Option<PatternTree>, ErrorView>
    decreases height(j), 0int, 131int,
{
    target_rest_body(j, strict)
}

#[verifier::opaque]
spec fn target_rest_body(j: JsonTree, strict: bool) -> Result<Option<PatternTree>, ErrorView>
    decreases height(j), 0int, 130int,
{
    if is_kind(last_item(j), "RestElement"@) {
        match target_pattern_of(field(last_item(j), "argument"@), strict) {
            Err(e) => Err(e),
            Ok(p) => {
                Ok(Some(p))
            },
        }
    } else {
        Ok(None)
    }
}

/// The rule of [`stmts_of`].
pub open spec fn stmts_rule(j: JsonTree, i: int, acc: Seq<StmtTree>, strict: bool) -> Result<Seq<StmtTree>, ErrorView> {
    if i < 0 || i >= count(j) {
        Ok(acc)
    } else if (field(item(j, i), "directive"@) is Str) {
        stmts_of(j, i + 1, acc, strict)
    } else {
        match stmt_of(item(j, i), strict) {
            Err(e) => Err(e),
            Ok(s) => {
                stmts_of(j, i + 1, acc.push(s), strict)
            },
        }
    }
}

/// [`stmts_of`] follows its rule.
#[verifier::rlimit(60)]
pub proof fn law_stmts(j: JsonTree, i: int, acc: Seq<StmtTree>, strict: bool)
    ensures
        same(stmts_of(j, i, acc, strict), stmts_rule(j, i, acc, strict)),
{
    reveal(stmts_body);
    reveal(stmts_of);
    reveal(stmt_of);
    assert(same(stmts_of(j, i, acc, strict), stmts_body(j, i, acc, strict)));
}

/// The rule of [`stmt_vec_of`].
pub open spec fn stmt_vec_rule(j: JsonTree, strict: bool) -> Result<Seq<StmtTree>, ErrorView> {
    if is_kind(j, "BlockStatement"@) {
        match stmts_of(field(j, "body"@), 0, Seq::empty(), strict) {
            Err(e) => Err(e),
            Ok(list) => {
                Ok(list)
            },
        }
    } else {
        match stmt_of(j, strict) {
            Err(e) => Err(e),
            Ok(s) => {
                Ok(seq![s])
            },
        }
    }
}

/// [`stmt_vec_of`] follows its rule.
#[verifier::rlimit(60)]
pub proof fn law_stmt_vec(j: JsonTree, strict: bool)
    ensures
        same(stmt_vec_of(j, strict), stmt_vec_rule(j, strict)),
{
    reveal(stmt_vec_body);
    reveal(stmt_vec_of);
    reveal(stmts_of);
    reveal(stmt_of);
    assert(same(stmt_vec_of(j, strict), stmt_vec_body(j, strict)));
}

/// The rule of [`branch_of`].
pub open spec fn branch_rule(j: JsonTree, strict: bool) -> Result<Seq<StmtTree>, ErrorView> {
    if labelled_function(j) {
        Err(ErrorView::Parse("a labelled function declaration is not allowed here"@))
    } else if strict && is_kind(j, "FunctionDeclaration"@) {
        Err(ErrorView::Parse("a function declaration is not allowed here in strict code"@))
    } else {
        match stmt_vec_of(j, strict) {
            Err(e) => Err(e),
            Ok(list) => {
                Ok(list)
            },
        }
    }
}

/// [`branch_of`] follows its rule.
#[verifier::rlimit(60)]
pub proof fn law_branch(j: JsonTree, strict: bool)
    ensures
        same(branch_of(j, strict), branch_rule(j, strict)),
{
    reveal(branch_body);
    reveal(branch_of);
    reveal(stmt_vec_of);
    assert(same(branch_of(j, strict), branch_body(j, strict)));
}

/// The rule of [`stmt_of`].
pub open spec fn stmt_rule(j: JsonTree, strict: bool) -> Result<StmtTree, ErrorView> {
    if is_kind(j, "BlockStatement"@) {
        match stmts_of(field(j, "body"@), 0, Seq::empty(), strict) {
            Err(e) => Err(e),
            Ok(list) => {
                Ok(StmtTree::Block(list))
            },
        }
    } else if is_kind(j, "ExpressionStatement"@) {
        match expr_of(field(j, "expression"@), strict) {
            Err(e) => Err(e),
            Ok(e) => {
                Ok(StmtTree::Expr(e))
            },
        }
    } else if is_kind(j, "VariableDeclaration"@) {
        match var_stmt_of(j, strict) {
            Err(e) => Err(e),
            Ok(s) => {
                Ok(s)
            },
        }
    } else if is_kind(j, "FunctionDeclaration"@) || is_kind(j, "TSDeclareFunction"@) {
        match function_stmt_of(j, strict) {
            Err(e) => Err(e),
            Ok(s) => {
                Ok(s)
            },
        }
    } else if is_kind(j, "ClassDeclaration"@) {
        match class_stmt_of(j, strict) {
            Err(e) => Err(e),
            Ok(s) => {
                Ok(s)
            },
        }
    } else if is_kind(j, "IfStatement"@) {
        match if_stmt_of(j, strict) {
            Err(e) => Err(e),
            Ok(s) => {
                Ok(s)
            },
        }
    } else if is_kind(j, "ForStatement"@) || is_kind(j, "ForInStatement"@) || is_kind(j, "ForOfStatement"@) || is_kind(j, "WhileStatement"@) || is_kind(j, "DoWhileStatement"@) {
        match loop_stmt_of(j, strict) {
            Err(e) => Err(e),
            Ok(s) => {
                Ok(s)
            },
        }
    } else if is_kind(j, "SwitchStatement"@) || is_kind(j, "TryStatement"@) || is_kind(j, "WithStatement"@) || is_kind(j, "LabeledStatement"@) {
        match block_stmt_of(j, strict) {
            Err(e) => Err(e),
            Ok(s) => {
                Ok(s)
            },
        }
    } else if is_kind(j, "ExportNamedDeclaration"@) || is_kind(j, "ExportDefaultDeclaration"@) {
        match export_stmt_of(j, strict) {
            Err(e) => Err(e),
            Ok(s) => {
                Ok(s)
            },
        }
    } else {
        match jump_stmt_of(j, strict) {
            Err(e) => Err(e),
            Ok(s) => {
                Ok(s)
            },
        }
    }
}

/// [`stmt_of`] follows its rule.
#[verifier::rlimit(60)]
pub proof fn law_stmt(j: JsonTree, strict: bool)
    ensures
        same(stmt_of(j, strict), stmt_rule(j, strict)),
{
    reveal(stmt_body);
    reveal(stmt_of);
    reveal(stmts_of);
    reveal(expr_of);
    reveal(var_stmt_of);
    reveal(function_stmt_of);
    reveal(class_stmt_of);
    reveal(if_stmt_of);
    reveal(loop_stmt_of);
    reveal(block_stmt_of);
    reveal(export_stmt_of);
    reveal(jump_stmt_of);
    assert(same(stmt_of(j, strict), stmt_body(j, strict)));
}

/// The rule of [`jump_stmt_of`].
pub open spec fn jump_stmt_rule(j: JsonTree, strict: bool) -> Result<StmtTree, ErrorView> {
    if is_kind(j, "BreakStatement"@) {
        let name = id_name(field(j, "label"@));
        Ok(StmtTree::Break(name))
    } else if is_kind(j, "ContinueStatement"@) {
        let name = id_name(field(j, "label"@));
        Ok(StmtTree::Continue(name))
    } else if is_kind(j, "ReturnStatement"@) {
        match (if field(j, "argument"@) is Null {
            Ok(None)
        } else {
            some_of(expr_of(field(j, "argument"@), strict))
        }) {
            Err(e) => Err(e),
            Ok(e) => {
                Ok(StmtTree::Return(e))
            },
        }
    } else if is_kind(j, "ThrowStatement"@) {
        match expr_of(field(j, "argument"@), strict) {
            Err(e) => Err(e),
            Ok(e) => {
                Ok(StmtTree::Throw(e))
            },
        }
    } else {
        Ok(StmtTree::Empty)
    }
}

/// [`jump_stmt_of`] follows its rule.
#[verifier::rlimit(60)]
pub proof fn law_jump_stmt(j: JsonTree, strict: bool)
    ensures
        same(jump_stmt_of(j, strict), jump_stmt_rule(j, strict)),
{
    reveal(jump_stmt_body);
    reveal(jump_stmt_of);
    reveal(expr_of);
    assert(same(jump_stmt_of(j, strict), jump_stmt_body(j, strict)));
}

/// The rule of [`if_stmt_of`].
pub open spec fn if_stmt_rule(j: JsonTree, strict: bool) -> Result<StmtTree, ErrorView> {
    if is_kind(j, "IfStatement"@) {
        match expr_of(field(j, "test"@), strict) {
            Err(e) => Err(e),
            Ok(cond) => {
                match branch_of(field(j, "consequent"@), strict) {
                    Err(e) => Err(e),
                    Ok(yes) => {
                        if (field(j, "alternate"@) is Null) {
                            match no_stmts_of(j, strict) {
                                Err(e) => Err(e),
                                Ok(no) => {
                                    Ok(StmtTree::If { cond, yes, no })
                                },
                            }
                        } else {
                            match branch_of(field(j, "alternate"@), strict) {
                                Err(e) => Err(e),
                                Ok(no) => {
                                    Ok(StmtTree::If { cond, yes, no })
                                },
                            }
                        }
                    },
                }
            },
        }
    } else {
        Ok(StmtTree::Empty)
    }
}

/// [`if_stmt_of`] follows its rule.
#[verifier::rlimit(60)]
pub proof fn law_if_stmt(j: JsonTree, strict: bool)
    ensures
        same(if_stmt_of(j, strict), if_stmt_rule(j, strict)),
{
    reveal(if_stmt_body);
    reveal(if_stmt_of);
    reveal(expr_of);
    reveal(branch_of);
    reveal(no_stmts_of);
    assert(same(if_stmt_of(j, strict), if_stmt_body(j, strict)));
}

/// The rule of [`no_stmts_of`].
pub open spec fn no_stmts_rule(j: JsonTree, strict: bool) -> Result<Seq<StmtTree>, ErrorView> {
    Ok(Seq::empty())
}

/// [`no_stmts_of`] follows its rule.
#[verifier::rlimit(60)]
pub proof fn law_no_stmts(j: JsonTree, strict: bool)
    ensures
        same(no_stmts_of(j, strict), no_stmts_rule(j, strict)),
{
    reveal(no_stmts_body);
    reveal(no_stmts_of);
    assert(same(no_stmts_of(j, strict), no_stmts_body(j, strict)));
}

/// The rule of [`loop_stmt_of`].
pub open spec fn loop_stmt_rule(j: JsonTree, strict: bool) -> Result<StmtTree, ErrorView> {
    if is_kind(j, "ForStatement"@) {
        match for_stmt_of(j, strict) {
            Err(e) => Err(e),
            Ok(s) => {
                Ok(s)
            },
        }
    } else if is_kind(j, "ForInStatement"@) {
        match for_left_of(field(j, "left"@), strict) {
            Err(e) => Err(e),
            Ok(name) => {
                match expr_of(field(j, "right"@), strict) {
                    Err(e) => Err(e),
                    Ok(expr) => {
                        match stmt_vec_of(field(j, "body"@), strict) {
                            Err(e) => Err(e),
                            Ok(body) => {
                                let kind = left_kind(field(j, "left"@));
                                Ok(StmtTree::ForIn { kind, name, expr, body })
                            },
                        }
                    },
                }
            },
        }
    } else if is_kind(j, "ForOfStatement"@) {
        if flag(field(j, "await"@)) {
            Err(ErrorView::Unimplemented("for await is not implemented"@))
        } else {
            match for_left_of(field(j, "left"@), strict) {
                Err(e) => Err(e),
                Ok(name) => {
                    match expr_of(field(j, "right"@), strict) {
                        Err(e) => Err(e),
                        Ok(expr) => {
                            match stmt_vec_of(field(j, "body"@), strict) {
                                Err(e) => Err(e),
                                Ok(body) => {
                                    let kind = left_kind(field(j, "left"@));
                                    Ok(StmtTree::ForOf { kind, name, expr, body })
                                },
                            }
                        },
                    }
                },
            }
        }
    } else if is_kind(j, "WhileStatement"@) {
        match expr_of(field(j, "test"@), strict) {
            Err(e) => Err(e),
            Ok(cond) => {
                match stmt_vec_of(field(j, "body"@), strict) {
                    Err(e) => Err(e),
                    Ok(body) => {
                        Ok(StmtTree::While { cond, body })
                    },
                }
            },
        }
    } else if is_kind(j, "DoWhileStatement"@) {
        match expr_of(field(j, "test"@), strict) {
            Err(e) => Err(e),
            Ok(cond) => {
                match stmt_vec_of(field(j, "body"@), strict) {
                    Err(e) => Err(e),
                    Ok(body) => {
                        Ok(StmtTree::DoWhile { cond, body })
                    },
                }
            },
        }
    } else {
        Ok(StmtTree::Empty)
    }
}

/// [`loop_stmt_of`] follows its rule.
#[verifier::rlimit(60)]
pub proof fn law_loop_stmt(j: JsonTree, strict: bool)
    ensures
        same(loop_stmt_of(j, strict), loop_stmt_rule(j, strict)),
{
    reveal(loop_stmt_body);
    reveal(loop_stmt_of);
    reveal(for_stmt_of);
    reveal(for_left_of);
    reveal(expr_of);
    reveal(stmt_vec_of);
    assert(same(loop_stmt_of(j, strict), loop_stmt_body(j, strict)));
}

/// The rule of [`for_stmt_of`].
pub open spec fn for_stmt_rule(j: JsonTree, strict: bool) -> Result<StmtTree, ErrorView> {
    if is_kind(j, "ForStatement"@) {
        if (field(j, "init"@) is Null) {
            match (if field(j, "test"@) is Null {
                Ok(None)
            } else {
                some_of(expr_of(field(j, "test"@), strict))
            }) {
                Err(e) => Err(e),
                Ok(cond) => {
                    match (if field(j, "update"@) is Null {
                        Ok(None)
                    } else {
                        some_of(expr_of(field(j, "update"@), strict))
                    }) {
                        Err(e) => Err(e),
                        Ok(update) => {
                            match stmt_vec_of(field(j, "body"@), strict) {
                                Err(e) => Err(e),
                                Ok(body) => {
                                    Ok(StmtTree::For { init: None, cond, update, body })
                                },
                            }
                        },
                    }
                },
            }
        } else {
            match for_init_of(field(j, "init"@), strict) {
                Err(e) => Err(e),
                Ok(init) => {
                    match (if field(j, "test"@) is Null {
                        Ok(None)
                    } else {
                        some_of(expr_of(field(j, "test"@), strict))
                    }) {
                        Err(e) => Err(e),
                        Ok(cond) => {
                            match (if field(j, "update"@) is Null {
                                Ok(None)
                            } else {
                                some_of(expr_of(field(j, "update"@), strict))
                            }) {
                                Err(e) => Err(e),
                                Ok(update) => {
                                    match stmt_vec_of(field(j, "body"@), strict) {
                                        Err(e) => Err(e),
                                        Ok(body) => {
                                            Ok(StmtTree::For { init: Some(Box::new(init)), cond, update, body })
                                        },
                                    }
                                },
                            }
                        },
                    }
                },
            }
        }
    } else {
        Ok(StmtTree::Empty)
    }
}

/// [`for_stmt_of`] follows its rule.
#[verifier::rlimit(60)]
pub proof fn law_for_stmt(j: JsonTree, strict: bool)
    ensures
        same(for_stmt_of(j, strict), for_stmt_rule(j, strict)),
{
    reveal(for_stmt_body);
    reveal(for_stmt_of);
    reveal(expr_of);
    reveal(stmt_vec_of);
    reveal(for_init_of);
    assert(same(for_stmt_of(j, strict), for_stmt_body(j, strict)));
}

/// The rule of [`for_init_of`].
pub open spec fn for_init_rule(j: JsonTree, strict: bool) -> Result<StmtTree, ErrorView> {
    if is_kind(j, "VariableDeclaration"@) {
        match var_stmt_of(j, strict) {
            Err(e) => Err(e),
            Ok(s) => {
                Ok(s)
            },
        }
    } else {
        match expr_of(j, strict) {
            Err(e) => Err(e),
            Ok(e) => {
                Ok(StmtTree::Expr(e))
            },
        }
    }
}

/// [`for_init_of`] follows its rule.
#[verifier::rlimit(60)]
pub proof fn law_for_init(j: JsonTree, strict: bool)
    ensures
        same(for_init_of(j, strict), for_init_rule(j, strict)),
{
    reveal(for_init_body);
    reveal(for_init_of);
    reveal(var_stmt_of);
    reveal(expr_of);
    assert(same(for_init_of(j, strict), for_init_body(j, strict)));
}

/// The rule of [`for_left_of`].
pub open spec fn for_left_rule(j: JsonTree, strict: bool) -> Result<PatternTree, ErrorView> {
    if is_kind(j, "VariableDeclaration"@) {
        if (item(field(j, "declarations"@), 0) is Null) {
            Err(ErrorView::Parse("empty for-in initializer"@))
        } else {
            match binding_of(field(item(field(j, "declarations"@), 0), "id"@), strict) {
                Err(e) => Err(e),
                Ok(p) => {
                    Ok(p)
                },
            }
        }
    } else if is_kind(j, "Identifier"@) || is_kind(j, "ArrayPattern"@) || is_kind(j, "ObjectPattern"@) || is_kind(j, "MemberExpression"@) {
        match target_pattern_of(j, strict) {
            Err(e) => Err(e),
            Ok(p) => {
                Ok(p)
            },
        }
    } else {
        Err(ErrorView::Parse("unsupported for-in/of left side"@))
    }
}

/// [`for_left_of`] follows its rule.
#[verifier::rlimit(60)]
pub proof fn law_for_left(j: JsonTree, strict: bool)
    ensures
        same(for_left_of(j, strict), for_left_rule(j, strict)),
{
    reveal(for_left_body);
    reveal(for_left_of);
    reveal(binding_of);
    reveal(target_pattern_of);
    assert(same(for_left_of(j, strict), for_left_body(j, strict)));
}

/// The rule of [`block_stmt_of`].
pub open spec fn block_stmt_rule(j: JsonTree, strict: bool) -> Result<StmtTree, ErrorView> {
    if is_kind(j, "SwitchStatement"@) {
        match expr_of(field(j, "discriminant"@), strict) {
            Err(e) => Err(e),
            Ok(discriminant) => {
                match cases_of(field(j, "cases"@), 0, Seq::empty(), strict) {
                    Err(e) => Err(e),
                    Ok(cases) => {
                        if redeclared(cases, strict) {
                            Err(ErrorView::Parse("a name is declared twice in a switch"@))
                        } else {
                            Ok(StmtTree::Switch { discriminant, cases })
                        }
                    },
                }
            },
        }
    } else if is_kind(j, "TryStatement"@) {
        match stmts_of(field(field(j, "block"@), "body"@), 0, Seq::empty(), strict) {
            Err(e) => Err(e),
            Ok(try_block) => {
                match (if field(j, "handler"@) is Null {
                    Ok(None)
                } else {
                    some_of(catch_clause_of(field(j, "handler"@), strict))
                }) {
                    Err(e) => Err(e),
                    Ok(catch) => {
                        if (field(j, "finalizer"@) is Null) {
                            Ok(StmtTree::Try { try_block, catch, finally: None })
                        } else {
                            match stmts_of(field(field(j, "finalizer"@), "body"@), 0, Seq::empty(), strict) {
                                Err(e) => Err(e),
                                Ok(list) => {
                                    Ok(StmtTree::Try { try_block, catch, finally: Some(list) })
                                },
                            }
                        }
                    },
                }
            },
        }
    } else if is_kind(j, "WithStatement"@) {
        match expr_of(field(j, "object"@), strict) {
            Err(e) => Err(e),
            Ok(o) => {
                match stmt_vec_of(field(j, "body"@), strict) {
                    Err(e) => Err(e),
                    Ok(body) => {
                        Ok(StmtTree::Block(body))
                    },
                }
            },
        }
    } else if is_kind(j, "LabeledStatement"@) {
        match stmt_of(field(j, "body"@), strict) {
            Err(e) => Err(e),
            Ok(body) => {
                let label = text_in(field(field(j, "label"@), "name"@));
                Ok(StmtTree::Labeled { label, body: Box::new(body) })
            },
        }
    } else {
        Ok(StmtTree::Empty)
    }
}

/// [`block_stmt_of`] follows its rule.
#[verifier::rlimit(60)]
pub proof fn law_block_stmt(j: JsonTree, strict: bool)
    ensures
        same(block_stmt_of(j, strict), block_stmt_rule(j, strict)),
{
    reveal(block_stmt_body);
    reveal(block_stmt_of);
    reveal(expr_of);
    reveal(cases_of);
    reveal(stmts_of);
    reveal(catch_clause_of);
    reveal(stmt_vec_of);
    reveal(stmt_of);
    assert(same(block_stmt_of(j, strict), block_stmt_body(j, strict)));
}

/// The rule of [`cases_of`].
pub open spec fn cases_rule(j: JsonTree, i: int, acc: Seq<SwitchCaseTree>, strict: bool) -> Result<Seq<SwitchCaseTree>, ErrorView> {
    if i < 0 || i >= count(j) {
        Ok(acc)
    } else {
        match (if field(item(j, i), "test"@) is Null {
            Ok(None)
        } else {
            some_of(expr_of(field(item(j, i), "test"@), strict))
        }) {
            Err(e) => Err(e),
            Ok(test) => {
                match stmts_of(field(item(j, i), "consequent"@), 0, Seq::empty(), strict) {
                    Err(e) => Err(e),
                    Ok(body) => {
                        cases_of(j, i + 1, acc.push(SwitchCaseTree { test, body }), strict)
                    },
                }
            },
        }
    }
}

/// [`cases_of`] follows its rule.
#[verifier::rlimit(60)]
pub proof fn law_cases(j: JsonTree, i: int, acc: Seq<SwitchCaseTree>, strict: bool)
    ensures
        same(cases_of(j, i, acc, strict), cases_rule(j, i, acc, strict)),
{
    reveal(cases_body);
    reveal(cases_of);
    reveal(expr_of);
    reveal(stmts_of);
    assert(same(cases_of(j, i, acc, strict), cases_body(j, i, acc, strict)));
}

/// The rule of [`catch_clause_of`].
pub open spec fn catch_clause_rule(j: JsonTree, strict: bool) -> Result<CatchClauseTree, ErrorView> {
    match stmts_of(field(field(j, "body"@), "body"@), 0, Seq::empty(), strict) {
        Err(e) => Err(e),
        Ok(body) => {
            if is_kind(field(j, "param"@), "Identifier"@) {
                let name = text_in(field(field(j, "param"@), "name"@));
                Ok(CatchClauseTree { name, body })
            } else {
                Ok(CatchClauseTree { name: ""@, body })
            }
        },
    }
}

/// [`catch_clause_of`] follows its rule.
#[verifier::rlimit(60)]
pub proof fn law_catch_clause(j: JsonTree, strict: bool)
    ensures
        same(catch_clause_of(j, strict), catch_clause_rule(j, strict)),
{
    reveal(catch_clause_body);
    reveal(catch_clause_of);
    reveal(stmts_of);
    assert(same(catch_clause_of(j, strict), catch_clause_body(j, strict)));
}

/// The rule of [`var_stmt_of`].
pub open spec fn var_stmt_rule(j: JsonTree, strict: bool) -> Result<StmtTree, ErrorView> {
    match declarators_of(field(j, "declarations"@), 0, Seq::empty(), strict) {
        Err(e) => Err(e),
        Ok(list) => {
            let kind = kind_of(j);
            Ok(StmtTree::Var(list, kind))
        },
    }
}

/// [`var_stmt_of`] follows its rule.
#[verifier::rlimit(60)]
pub proof fn law_var_stmt(j: JsonTree, strict: bool)
    ensures
        same(var_stmt_of(j, strict), var_stmt_rule(j, strict)),
{
    reveal(var_stmt_body);
    reveal(var_stmt_of);
    reveal(declarators_of);
    assert(same(var_stmt_of(j, strict), var_stmt_body(j, strict)));
}

/// The rule of [`declarators_of`].
pub open spec fn declarators_rule(j: JsonTree, i: int, acc: Seq<DeclaratorTree>, strict: bool) -> Result<Seq<DeclaratorTree>, ErrorView> {
    if i < 0 || i >= count(j) {
        Ok(acc)
    } else {
        match binding_of(field(item(j, i), "id"@), strict) {
            Err(e) => Err(e),
            Ok(pat) => {
                match (if field(item(j, i), "init"@) is Null {
                    Ok(None)
                } else {
                    some_of(expr_of(field(item(j, i), "init"@), strict))
                }) {
                    Err(e) => Err(e),
                    Ok(init) => {
                        declarators_of(j, i + 1, acc.push(DeclaratorTree { pat, init }), strict)
                    },
                }
            },
        }
    }
}

/// [`declarators_of`] follows its rule.
#[verifier::rlimit(60)]
pub proof fn law_declarators(j: JsonTree, i: int, acc: Seq<DeclaratorTree>, strict: bool)
    ensures
        same(declarators_of(j, i, acc, strict), declarators_rule(j, i, acc, strict)),
{
    reveal(declarators_body);
    reveal(declarators_of);
    reveal(binding_of);
    reveal(expr_of);
    assert(same(declarators_of(j, i, acc, strict), declarators_body(j, i, acc, strict)));
}

/// The rule of [`function_stmt_of`].
pub open spec fn function_stmt_rule(j: JsonTree, strict: bool) -> Result<StmtTree, ErrorView> {
    if (field(j, "id"@) is Null) {
        Err(ErrorView::Parse("anonymous function declaration"@))
    } else {
        match params_of(j, strict) {
            Err(e) => Err(e),
            Ok(params) => {
                match function_body_of(j, strict) {
                    Err(e) => Err(e),
                    Ok(body) => {
                        let name = text_in(field(field(j, "id"@), "name"@));
                        Ok(StmtTree::FunctionDecl { name, params, body })
                    },
                }
            },
        }
    }
}

/// [`function_stmt_of`] follows its rule.
#[verifier::rlimit(60)]
pub proof fn law_function_stmt(j: JsonTree, strict: bool)
    ensures
        same(function_stmt_of(j, strict), function_stmt_rule(j, strict)),
{
    reveal(function_stmt_body);
    reveal(function_stmt_of);
    reveal(params_of);
    reveal(function_body_of);
    assert(same(function_stmt_of(j, strict), function_stmt_body(j, strict)));
}

/// The rule of [`class_stmt_of`].
pub open spec fn class_stmt_rule(j: JsonTree, strict: bool) -> Result<StmtTree, ErrorView> {
    if (field(j, "id"@) is Null) {
        Err(ErrorView::Parse("anonymous class declaration"@))
    } else {
        match class_of(j, strict) {
            Err(e) => Err(e),
            Ok(class) => {
                let init = ExprTree::Class(Box::new(class));
                let name = text_in(field(field(j, "id"@), "name"@));
                let pat = PatternTree::Ident(name);
                let d = DeclaratorTree { pat, init: Some(init) };
                let list = one_decl(d);
                Ok(StmtTree::Var(list, VarKind::Let))
            },
        }
    }
}

/// [`class_stmt_of`] follows its rule.
#[verifier::rlimit(60)]
pub proof fn law_class_stmt(j: JsonTree, strict: bool)
    ensures
        same(class_stmt_of(j, strict), class_stmt_rule(j, strict)),
{
    reveal(class_stmt_body);
    reveal(class_stmt_of);
    reveal(class_of);
    assert(same(class_stmt_of(j, strict), class_stmt_body(j, strict)));
}

/// The rule of [`export_stmt_of`].
pub open spec fn export_stmt_rule(j: JsonTree, strict: bool) -> Result<StmtTree, ErrorView> {
    if is_kind(j, "ExportNamedDeclaration"@) {
        match exported_of(field(j, "declaration"@), strict) {
            Err(e) => Err(e),
            Ok(s) => {
                Ok(s)
            },
        }
    } else if is_kind(j, "ExportDefaultDeclaration"@) {
        match default_export_of(field(j, "declaration"@), strict) {
            Err(e) => Err(e),
            Ok(s) => {
                Ok(s)
            },
        }
    } else {
        Ok(StmtTree::Empty)
    }
}

/// [`export_stmt_of`] follows its rule.
#[verifier::rlimit(60)]
pub proof fn law_export_stmt(j: JsonTree, strict: bool)
    ensures
        same(export_stmt_of(j, strict), export_stmt_rule(j, strict)),
{
    reveal(export_stmt_body);
    reveal(export_stmt_of);
    reveal(exported_of);
    reveal(default_export_of);
    assert(same(export_stmt_of(j, strict), export_stmt_body(j, strict)));
}

/// The rule of [`exported_of`].
pub open spec fn exported_rule(j: JsonTree, strict: bool) -> Result<StmtTree, ErrorView> {
    if is_kind(j, "VariableDeclaration"@) {
        match var_stmt_of(j, strict) {
            Err(e) => Err(e),
            Ok(s) => {
                Ok(s)
            },
        }
    } else if is_kind(j, "FunctionDeclaration"@) || is_kind(j, "TSDeclareFunction"@) {
        match function_stmt_of(j, strict) {
            Err(e) => Err(e),
            Ok(s) => {
                Ok(s)
            },
        }
    } else if is_kind(j, "ClassDeclaration"@) {
        match class_stmt_of(j, strict) {
            Err(e) => Err(e),
            Ok(s) => {
                Ok(s)
            },
        }
    } else {
        Ok(StmtTree::Empty)
    }
}

/// [`exported_of`] follows its rule.
#[verifier::rlimit(60)]
pub proof fn law_exported(j: JsonTree, strict: bool)
    ensures
        same(exported_of(j, strict), exported_rule(j, strict)),
{
    reveal(exported_body);
    reveal(exported_of);
    reveal(var_stmt_of);
    reveal(function_stmt_of);
    reveal(class_stmt_of);
    assert(same(exported_of(j, strict), exported_body(j, strict)));
}

/// The rule of [`default_export_of`].
pub open spec fn default_export_rule(j: JsonTree, strict: bool) -> Result<StmtTree, ErrorView> {
    if is_kind(j, "FunctionDeclaration"@) || is_kind(j, "TSDeclareFunction"@) {
        match params_of(j, strict) {
            Err(e) => Err(e),
            Ok(params) => {
                match function_body_of(j, strict) {
                    Err(e) => Err(e),
                    Ok(body) => {
                        if (field(j, "id"@) is Null) {
                            let e = ExprTree::Function { name: None, params, body };
                            Ok(StmtTree::Expr(e))
                        } else {
                            let name = text_in(field(field(j, "id"@), "name"@));
                            Ok(StmtTree::FunctionDecl { name, params, body })
                        }
                    },
                }
            },
        }
    } else if is_kind(j, "ClassDeclaration"@) {
        match class_of(j, strict) {
            Err(e) => Err(e),
            Ok(class) => {
                let e = ExprTree::Class(Box::new(class));
                Ok(StmtTree::Expr(e))
            },
        }
    } else if is_kind(j, "TSInterfaceDeclaration"@) {
        Ok(StmtTree::Empty)
    } else {
        match expr_of(j, strict) {
            Err(e) => Err(e),
            Ok(e) => {
                Ok(StmtTree::Expr(e))
            },
        }
    }
}

/// [`default_export_of`] follows its rule.
#[verifier::rlimit(60)]
pub proof fn law_default_export(j: JsonTree, strict: bool)
    ensures
        same(default_export_of(j, strict), default_export_rule(j, strict)),
{
    reveal(default_export_body);
    reveal(default_export_of);
    reveal(params_of);
    reveal(function_body_of);
    reveal(class_of);
    reveal(expr_of);
    assert(same(default_export_of(j, strict), default_export_body(j, strict)));
}

/// The rule of [`param_list_of`].
pub open spec fn param_list_rule(j: JsonTree, i: int, acc: Seq<PatternTree>, strict: bool) -> Result<Seq<PatternTree>, ErrorView> {
    if i < 0 || i >= count(j) {
        Ok(acc)
    } else if is_kind(item(j, i), "RestElement"@) {
        param_list_of(j, i + 1, acc, strict)
    } else if is_kind(item(j, i), "AssignmentPattern"@) {
        match binding_of(field(item(j, i), "left"@), strict) {
            Err(e) => Err(e),
            Ok(p) => {
                param_list_of(j, i + 1, acc.push(p), strict)
            },
        }
    } else {
        match binding_of(item(j, i), strict) {
            Err(e) => Err(e),
            Ok(p) => {
                param_list_of(j, i + 1, acc.push(p), strict)
            },
        }
    }
}

/// [`param_list_of`] follows its rule.
#[verifier::rlimit(60)]
pub proof fn law_param_list(j: JsonTree, i: int, acc: Seq<PatternTree>, strict: bool)
    ensures
        same(param_list_of(j, i, acc, strict), param_list_rule(j, i, acc, strict)),
{
    reveal(param_list_body);
    reveal(param_list_of);
    reveal(binding_of);
    assert(same(param_list_of(j, i, acc, strict), param_list_body(j, i, acc, strict)));
}

/// The rule of [`params_of`].
pub open spec fn params_rule(j: JsonTree, strict: bool) -> Result<Seq<PatternTree>, ErrorView> {
    match param_list_of(field(j, "params"@), 0, Seq::empty(), strict) {
        Err(e) => Err(e),
        Ok(list) => {
            Ok(list)
        },
    }
}

/// [`params_of`] follows its rule.
#[verifier::rlimit(60)]
pub proof fn law_params(j: JsonTree, strict: bool)
    ensures
        same(params_of(j, strict), params_rule(j, strict)),
{
    reveal(params_body);
    reveal(params_of);
    reveal(param_list_of);
    assert(same(params_of(j, strict), params_body(j, strict)));
}

/// The rule of [`function_body_of`].
pub open spec fn function_body_rule(j: JsonTree, strict: bool) -> Result<Seq<StmtTree>, ErrorView> {
    match stmts_of(field(field(j, "body"@), "body"@), 0, Seq::empty(), strict) {
        Err(e) => Err(e),
        Ok(list) => {
            if flag(field(j, "generator"@)) && flag(field(j, "async"@)) {
                Err(ErrorView::Unimplemented("async generators are not implemented"@))
            } else {
                let body = wrapped(list, flag(field(j, "generator"@)), flag(field(j, "async"@)));
                Ok(body)
            }
        },
    }
}

/// [`function_body_of`] follows its rule.
#[verifier::rlimit(60)]
pub proof fn law_function_body(j: JsonTree, strict: bool)
    ensures
        same(function_body_of(j, strict), function_body_rule(j, strict)),
{
    reveal(function_body_body);
    reveal(function_body_of);
    reveal(stmts_of);
    assert(same(function_body_of(j, strict), function_body_body(j, strict)));
}

/// The rule of [`arrow_body_of`].
pub open spec fn arrow_body_rule(j: JsonTree, strict: bool) -> Result<Seq<StmtTree>, ErrorView> {
    if is_kind(j, "ArrowFunctionExpression"@) {
        if is_kind(field(j, "body"@), "BlockStatement"@) {
            match stmts_of(field(field(j, "body"@), "body"@), 0, Seq::empty(), strict) {
                Err(e) => Err(e),
                Ok(list) => {
                    let body = wrapped(list, false, flag(field(j, "async"@)));
                    Ok(body)
                },
            }
        } else {
            match expr_of(field(j, "body"@), strict) {
                Err(e) => Err(e),
                Ok(e) => {
                    let s = StmtTree::Return(Some(e));
                    let list = one_stmt(s);
                    let body = wrapped(list, false, flag(field(j, "async"@)));
                    Ok(body)
                },
            }
        }
    } else {
        Ok(Seq::empty())
    }
}

/// [`arrow_body_of`] follows its rule.
#[verifier::rlimit(60)]
pub proof fn law_arrow_body(j: JsonTree, strict: bool)
    ensures
        same(arrow_body_of(j, strict), arrow_body_rule(j, strict)),
{
    reveal(arrow_body_body);
    reveal(arrow_body_of);
    reveal(stmts_of);
    reveal(expr_of);
    assert(same(arrow_body_of(j, strict), arrow_body_body(j, strict)));
}

/// The rule of [`expr_of`].
pub open spec fn expr_rule(j: JsonTree, strict: bool) -> Result<ExprTree, ErrorView> {
    if is_kind(j, "Identifier"@) {
        let name = text_in(field(j, "name"@));
        Ok(ExprTree::Ident(name))
    } else if is_kind(j, "Literal"@) {
        match literal_of(j, strict) {
            Err(e) => Err(e),
            Ok(l) => {
                Ok(ExprTree::Lit(l))
            },
        }
    } else if is_kind(j, "ThisExpression"@) {
        Ok(ExprTree::This)
    } else if is_kind(j, "Super"@) {
        Ok(ExprTree::Super)
    } else if is_kind(j, "MemberExpression"@) {
        match member_expr_of(j, strict) {
            Err(e) => Err(e),
            Ok(e) => {
                Ok(e)
            },
        }
    } else if is_kind(j, "CallExpression"@) || is_kind(j, "NewExpression"@) {
        match call_of(j, strict) {
            Err(e) => Err(e),
            Ok(e) => {
                Ok(e)
            },
        }
    } else if is_kind(j, "AssignmentExpression"@) {
        match assignment_of(j, strict) {
            Err(e) => Err(e),
            Ok(e) => {
                Ok(e)
            },
        }
    } else if is_kind(j, "FunctionExpression"@) || is_kind(j, "ArrowFunctionExpression"@) || is_kind(j, "ClassExpression"@) {
        match closure_of(j, strict) {
            Err(e) => Err(e),
            Ok(e) => {
                Ok(e)
            },
        }
    } else if is_kind(j, "ArrayExpression"@) || is_kind(j, "ObjectExpression"@) || is_kind(j, "SequenceExpression"@) || is_kind(j, "TemplateLiteral"@) || is_kind(j, "TaggedTemplateExpression"@) {
        match collection_of(j, strict) {
            Err(e) => Err(e),
            Ok(e) => {
                Ok(e)
            },
        }
    } else if is_kind(j, "BinaryExpression"@) || is_kind(j, "LogicalExpression"@) || is_kind(j, "UnaryExpression"@) || is_kind(j, "UpdateExpression"@) || is_kind(j, "ConditionalExpression"@) {
        match operation_of(j, strict) {
            Err(e) => Err(e),
            Ok(e) => {
                Ok(e)
            },
        }
    } else {
        match other_expr_of(j, strict) {
            Err(e) => Err(e),
            Ok(e) => {
                Ok(e)
            },
        }
    }
}

/// [`expr_of`] follows its rule.
#[verifier::rlimit(60)]
pub proof fn law_expr(j: JsonTree, strict: bool)
    ensures
        same(expr_of(j, strict), expr_rule(j, strict)),
{
    reveal(expr_body);
    reveal(expr_of);
    reveal(literal_of);
    reveal(member_expr_of);
    reveal(call_of);
    reveal(assignment_of);
    reveal(closure_of);
    reveal(collection_of);
    reveal(operation_of);
    reveal(other_expr_of);
    assert(same(expr_of(j, strict), expr_body(j, strict)));
}

/// The rule of [`literal_of`].
pub open spec fn literal_rule(j: JsonTree, strict: bool) -> Result<LitTree, ErrorView> {
    if (field(j, "bigint"@) is Str) {
        let t = text_in(field(j, "bigint"@));
        Ok(LitTree::BigInt(t))
    } else if !(field(j, "regex"@) is Null) {
        let pattern = text_in(field(field(j, "regex"@), "pattern"@));
        let flags = text_in(field(field(j, "regex"@), "flags"@));
        Ok(LitTree::Regex { pattern, flags })
    } else if (field(j, "value"@) is Bool) {
        let b = flag(field(j, "value"@));
        Ok(LitTree::Bool(b))
    } else if (field(j, "value"@) is Number) {
        let t = number_in(field(j, "value"@));
        Ok(LitTree::Number(t))
    } else if (field(j, "value"@) is Str) {
        let t = text_in(field(j, "value"@));
        Ok(LitTree::Str(t))
    } else {
        Ok(LitTree::Null)
    }
}

/// [`literal_of`] follows its rule.
#[verifier::rlimit(60)]
pub proof fn law_literal(j: JsonTree, strict: bool)
    ensures
        same(literal_of(j, strict), literal_rule(j, strict)),
{
    reveal(literal_body);
    reveal(literal_of);
    assert(same(literal_of(j, strict), literal_body(j, strict)));
}

/// The rule of [`member_expr_of`].
pub open spec fn member_expr_rule(j: JsonTree, strict: bool) -> Result<ExprTree, ErrorView> {
    if is_kind(j, "MemberExpression"@) {
        match expr_of(field(j, "object"@), strict) {
            Err(e) => Err(e),
            Ok(obj) => {
                if is_kind(field(j, "property"@), "PrivateIdentifier"@) {
                    let prop = hashed(field(field(j, "property"@), "name"@));
                    Ok(ExprTree::Member { obj: Box::new(obj), prop, computed: None, optional: false })
                } else {
                    let optional = flag(field(j, "optional"@));
                    if flag(field(j, "computed"@)) {
                        match expr_of(field(j, "property"@), strict) {
                            Err(e) => Err(e),
                            Ok(e) => {
                                Ok(ExprTree::Member { obj: Box::new(obj), prop: ""@, computed: Some(Box::new(e)), optional })
                            },
                        }
                    } else {
                        let prop = text_in(field(field(j, "property"@), "name"@));
                        Ok(ExprTree::Member { obj: Box::new(obj), prop, computed: None, optional })
                    }
                }
            },
        }
    } else {
        Err(ErrorView::Parse("unsupported expression"@))
    }
}

/// [`member_expr_of`] follows its rule.
#[verifier::rlimit(60)]
pub proof fn law_member_expr(j: JsonTree, strict: bool)
    ensures
        same(member_expr_of(j, strict), member_expr_rule(j, strict)),
{
    reveal(member_expr_body);
    reveal(member_expr_of);
    reveal(expr_of);
    assert(same(member_expr_of(j, strict), member_expr_body(j, strict)));
}

/// The rule of [`args_of`].
pub open spec fn args_rule(j: JsonTree, i: int, acc: Seq<ArgTree>, strict: bool) -> Result<Seq<ArgTree>, ErrorView> {
    if i < 0 || i >= count(j) {
        Ok(acc)
    } else if is_kind(item(j, i), "SpreadElement"@) {
        match expr_of(field(item(j, i), "argument"@), strict) {
            Err(e) => Err(e),
            Ok(e) => {
                args_of(j, i + 1, acc.push(ArgTree::Spread(e)), strict)
            },
        }
    } else {
        match expr_of(item(j, i), strict) {
            Err(e) => Err(e),
            Ok(e) => {
                args_of(j, i + 1, acc.push(ArgTree::Expr(e)), strict)
            },
        }
    }
}

/// [`args_of`] follows its rule.
#[verifier::rlimit(60)]
pub proof fn law_args(j: JsonTree, i: int, acc: Seq<ArgTree>, strict: bool)
    ensures
        same(args_of(j, i, acc, strict), args_rule(j, i, acc, strict)),
{
    reveal(args_body);
    reveal(args_of);
    reveal(expr_of);
    assert(same(args_of(j, i, acc, strict), args_body(j, i, acc, strict)));
}

/// The rule of [`call_of`].
pub open spec fn call_rule(j: JsonTree, strict: bool) -> Result<ExprTree, ErrorView> {
    if is_kind(j, "CallExpression"@) {
        match expr_of(field(j, "callee"@), strict) {
            Err(e) => Err(e),
            Ok(callee) => {
                match args_of(field(j, "arguments"@), 0, Seq::empty(), strict) {
                    Err(e) => Err(e),
                    Ok(args) => {
                        let optional = flag(field(j, "optional"@));
                        Ok(ExprTree::Call { callee: Box::new(callee), args, optional })
                    },
                }
            },
        }
    } else if is_kind(j, "NewExpression"@) {
        match expr_of(field(j, "callee"@), strict) {
            Err(e) => Err(e),
            Ok(callee) => {
                match args_of(field(j, "arguments"@), 0, Seq::empty(), strict) {
                    Err(e) => Err(e),
                    Ok(args) => {
                        Ok(ExprTree::New { callee: Box::new(callee), args })
                    },
                }
            },
        }
    } else {
        Err(ErrorView::Parse("unsupported expression"@))
    }
}

/// [`call_of`] follows its rule.
#[verifier::rlimit(60)]
pub proof fn law_call(j: JsonTree, strict: bool)
    ensures
        same(call_of(j, strict), call_rule(j, strict)),
{
    reveal(call_body);
    reveal(call_of);
    reveal(expr_of);
    reveal(args_of);
    assert(same(call_of(j, strict), call_body(j, strict)));
}

/// The rule of [`assignment_of`].
pub open spec fn assignment_rule(j: JsonTree, strict: bool) -> Result<ExprTree, ErrorView> {
    if is_kind(j, "AssignmentExpression"@) {
        match target_of(field(j, "left"@), strict) {
            Err(e) => Err(e),
            Ok(target) => {
                match expr_of(field(j, "right"@), strict) {
                    Err(e) => Err(e),
                    Ok(right) => {
                        if (field(j, "operator"@) == JsonTree::Str("="@)) {
                            Ok(ExprTree::Assignment { target, value: Box::new(right) })
                        } else {
                            match compound_op(text_in(field(j, "operator"@))) {
                                Some(op) => {
                                    match target_expr_of(field(j, "left"@), strict) {
                                        Err(e) => Err(e),
                                        Ok(left) => {
                                            let value = ExprTree::Binary { op, left: Box::new(left), right: Box::new(right) };
                                            Ok(ExprTree::Assignment { target, value: Box::new(value) })
                                        },
                                    }
                                },
                                None => {
                                    match logical_assign_op(text_in(field(j, "operator"@))) {
                                        Some(op) => {
                                            match target_expr_of(field(j, "left"@), strict) {
                                                Err(e) => Err(e),
                                                Ok(left) => {
                                                    let value = ExprTree::Logical { op, left: Box::new(left), right: Box::new(right) };
                                                    Ok(ExprTree::Assignment { target, value: Box::new(value) })
                                                },
                                            }
                                        },
                                        None => {
                                            Err(ErrorView::Parse("compound assignment operator not supported"@))
                                        },
                                    }
                                },
                            }
                        }
                    },
                }
            },
        }
    } else {
        Err(ErrorView::Parse("unsupported expression"@))
    }
}

/// [`assignment_of`] follows its rule.
#[verifier::rlimit(60)]
pub proof fn law_assignment(j: JsonTree, strict: bool)
    ensures
        same(assignment_of(j, strict), assignment_rule(j, strict)),
{
    reveal(assignment_body);
    reveal(assignment_of);
    reveal(target_of);
    reveal(expr_of);
    reveal(target_expr_of);
    assert(same(assignment_of(j, strict), assignment_body(j, strict)));
}

/// The rule of [`target_expr_of`].
pub open spec fn target_expr_rule(j: JsonTree, strict: bool) -> Result<ExprTree, ErrorView> {
    if is_kind(j, "ArrayPattern"@) || is_kind(j, "ObjectPattern"@) {
        Err(ErrorView::Parse("compound assignment to a pattern is not supported"@))
    } else {
        match target_value_of(j, strict) {
            Err(e) => Err(e),
            Ok(e) => {
                Ok(e)
            },
        }
    }
}

/// [`target_expr_of`] follows its rule.
#[verifier::rlimit(60)]
pub proof fn law_target_expr(j: JsonTree, strict: bool)
    ensures
        same(target_expr_of(j, strict), target_expr_rule(j, strict)),
{
    reveal(target_expr_body);
    reveal(target_expr_of);
    reveal(target_value_of);
    assert(same(target_expr_of(j, strict), target_expr_body(j, strict)));
}

/// The rule of [`target_of`].
pub open spec fn target_rule(j: JsonTree, strict: bool) -> Result<AssignTargetTree, ErrorView> {
    if is_kind(j, "ArrayPattern"@) || is_kind(j, "ObjectPattern"@) {
        match target_pattern_of(j, strict) {
            Err(e) => Err(e),
            Ok(p) => {
                Ok(AssignTargetTree::Pattern(p))
            },
        }
    } else {
        match target_value_of(j, strict) {
            Err(e) => Err(e),
            Ok(e) => {
                Ok(AssignTargetTree::Expr(Box::new(e)))
            },
        }
    }
}

/// [`target_of`] follows its rule.
#[verifier::rlimit(60)]
pub proof fn law_target(j: JsonTree, strict: bool)
    ensures
        same(target_of(j, strict), target_rule(j, strict)),
{
    reveal(target_body);
    reveal(target_of);
    reveal(target_pattern_of);
    reveal(target_value_of);
    assert(same(target_of(j, strict), target_body(j, strict)));
}

/// The rule of [`target_value_of`].
pub open spec fn target_value_rule(j: JsonTree, strict: bool) -> Result<ExprTree, ErrorView> {
    if is_kind(j, "Identifier"@) {
        let name = text_in(field(j, "name"@));
        Ok(ExprTree::Ident(name))
    } else if is_kind(j, "MemberExpression"@) {
        match member_expr_of(j, strict) {
            Err(e) => Err(e),
            Ok(e) => {
                Ok(e)
            },
        }
    } else if is_kind(j, "TSAsExpression"@) || is_kind(j, "TSSatisfiesExpression"@) || is_kind(j, "TSNonNullExpression"@) || is_kind(j, "TSTypeAssertion"@) {
        match cast_target_of(field(j, "expression"@), strict) {
            Err(e) => Err(e),
            Ok(e) => {
                Ok(e)
            },
        }
    } else {
        Err(ErrorView::Parse("unsupported assignment target (elem)"@))
    }
}

/// [`target_value_of`] follows its rule.
#[verifier::rlimit(60)]
pub proof fn law_target_value(j: JsonTree, strict: bool)
    ensures
        same(target_value_of(j, strict), target_value_rule(j, strict)),
{
    reveal(target_value_body);
    reveal(target_value_of);
    reveal(member_expr_of);
    reveal(cast_target_of);
    assert(same(target_value_of(j, strict), target_value_body(j, strict)));
}

/// The rule of [`cast_target_of`].
pub open spec fn cast_target_rule(j: JsonTree, strict: bool) -> Result<ExprTree, ErrorView> {
    if is_kind(j, "Identifier"@) {
        let name = text_in(field(j, "name"@));
        Ok(ExprTree::Ident(name))
    } else if is_kind(j, "MemberExpression"@) && !is_kind(field(j, "property"@), "PrivateIdentifier"@) {
        match member_expr_of(j, strict) {
            Err(e) => Err(e),
            Ok(e) => {
                Ok(e)
            },
        }
    } else if is_kind(j, "TSAsExpression"@) || is_kind(j, "TSSatisfiesExpression"@) || is_kind(j, "TSNonNullExpression"@) || is_kind(j, "TSTypeAssertion"@) {
        match cast_target_of(field(j, "expression"@), strict) {
            Err(e) => Err(e),
            Ok(e) => {
                Ok(e)
            },
        }
    } else {
        Err(ErrorView::Parse("unsupported assignment target (elem)"@))
    }
}

/// [`cast_target_of`] follows its rule.
#[verifier::rlimit(60)]
pub proof fn law_cast_target(j: JsonTree, strict: bool)
    ensures
        same(cast_target_of(j, strict), cast_target_rule(j, strict)),
{
    reveal(cast_target_body);
    reveal(cast_target_of);
    reveal(member_expr_of);
    assert(same(cast_target_of(j, strict), cast_target_body(j, strict)));
}

/// The rule of [`closure_of`].
pub open spec fn closure_rule(j: JsonTree, strict: bool) -> Result<ExprTree, ErrorView> {
    if is_kind(j, "FunctionExpression"@) {
        match params_of(j, strict) {
            Err(e) => Err(e),
            Ok(params) => {
                match function_body_of(j, strict) {
                    Err(e) => Err(e),
                    Ok(body) => {
                        let name = id_name(field(j, "id"@));
                        Ok(ExprTree::Function { name, params, body })
                    },
                }
            },
        }
    } else if is_kind(j, "ArrowFunctionExpression"@) {
        match params_of(j, strict) {
            Err(e) => Err(e),
            Ok(params) => {
                match arrow_body_of(j, strict) {
                    Err(e) => Err(e),
                    Ok(body) => {
                        Ok(ExprTree::Arrow { params, body })
                    },
                }
            },
        }
    } else if is_kind(j, "ClassExpression"@) {
        match class_of(j, strict) {
            Err(e) => Err(e),
            Ok(class) => {
                Ok(ExprTree::Class(Box::new(class)))
            },
        }
    } else {
        Err(ErrorView::Parse("unsupported expression"@))
    }
}

/// [`closure_of`] follows its rule.
#[verifier::rlimit(60)]
pub proof fn law_closure(j: JsonTree, strict: bool)
    ensures
        same(closure_of(j, strict), closure_rule(j, strict)),
{
    reveal(closure_body);
    reveal(closure_of);
    reveal(params_of);
    reveal(function_body_of);
    reveal(arrow_body_of);
    reveal(class_of);
    assert(same(closure_of(j, strict), closure_body(j, strict)));
}

/// The rule of [`collection_of`].
pub open spec fn collection_rule(j: JsonTree, strict: bool) -> Result<ExprTree, ErrorView> {
    if is_kind(j, "ArrayExpression"@) {
        match elems_of(field(j, "elements"@), 0, Seq::empty(), strict) {
            Err(e) => Err(e),
            Ok(list) => {
                Ok(ExprTree::Array(list))
            },
        }
    } else if is_kind(j, "ObjectExpression"@) {
        match props_of(field(j, "properties"@), 0, Seq::empty(), strict) {
            Err(e) => Err(e),
            Ok(list) => {
                Ok(ExprTree::Object(list))
            },
        }
    } else if is_kind(j, "SequenceExpression"@) {
        match exprs_of(field(j, "expressions"@), 0, Seq::empty(), strict) {
            Err(e) => Err(e),
            Ok(list) => {
                Ok(ExprTree::Sequence(list))
            },
        }
    } else if is_kind(j, "TemplateLiteral"@) {
        let t = quasi(field(j, "quasis"@), 0);
        let first = ExprTree::Lit(LitTree::Str(t));
        match template_of(field(j, "expressions"@), field(j, "quasis"@), 0, first, strict) {
            Err(e) => Err(e),
            Ok(e) => {
                Ok(e)
            },
        }
    } else if is_kind(j, "TaggedTemplateExpression"@) {
        match expr_of(field(j, "tag"@), strict) {
            Err(e) => Err(e),
            Ok(tag) => {
                match exprs_of(field(field(j, "quasi"@), "expressions"@), 0, Seq::empty(), strict) {
                    Err(e) => Err(e),
                    Ok(subs) => {
                        match cooked_of(field(field(j, "quasi"@), "quasis"@), 0, Seq::empty(), strict) {
                            Err(e) => Err(e),
                            Ok(cooked) => {
                                match raws_of(field(field(j, "quasi"@), "quasis"@), 0, Seq::empty(), strict) {
                                    Err(e) => Err(e),
                                    Ok(raws) => {
                                        Ok(ExprTree::Tagged { tag: Box::new(tag), cooked, raws, subs })
                                    },
                                }
                            },
                        }
                    },
                }
            },
        }
    } else {
        Err(ErrorView::Parse("unsupported expression"@))
    }
}

/// [`collection_of`] follows its rule.
#[verifier::rlimit(60)]
pub proof fn law_collection(j: JsonTree, strict: bool)
    ensures
        same(collection_of(j, strict), collection_rule(j, strict)),
{
    reveal(collection_body);
    reveal(collection_of);
    reveal(elems_of);
    reveal(props_of);
    reveal(exprs_of);
    reveal(template_of);
    reveal(expr_of);
    reveal(cooked_of);
    reveal(raws_of);
    assert(same(collection_of(j, strict), collection_body(j, strict)));
}

/// The rule of [`exprs_of`].
pub open spec fn exprs_rule(j: JsonTree, i: int, acc: Seq<ExprTree>, strict: bool) -> Result<Seq<ExprTree>, ErrorView> {
    if i < 0 || i >= count(j) {
        Ok(acc)
    } else {
        match expr_of(item(j, i), strict) {
            Err(e) => Err(e),
            Ok(e) => {
                exprs_of(j, i + 1, acc.push(e), strict)
            },
        }
    }
}

/// [`exprs_of`] follows its rule.
#[verifier::rlimit(60)]
pub proof fn law_exprs(j: JsonTree, i: int, acc: Seq<ExprTree>, strict: bool)
    ensures
        same(exprs_of(j, i, acc, strict), exprs_rule(j, i, acc, strict)),
{
    reveal(exprs_body);
    reveal(exprs_of);
    reveal(expr_of);
    assert(same(exprs_of(j, i, acc, strict), exprs_body(j, i, acc, strict)));
}

/// The rule of [`cooked_of`].
pub open spec fn cooked_rule(j: JsonTree, i: int, acc: Seq<ExprTree>, strict: bool) -> Result<Seq<ExprTree>, ErrorView> {
    if i < 0 || i >= count(j) {
        Ok(acc)
    } else {
        let t = quasi(j, i);
        let e = ExprTree::Lit(LitTree::Str(t));
        cooked_of(j, i + 1, acc.push(e), strict)
    }
}

/// [`cooked_of`] follows its rule.
#[verifier::rlimit(60)]
pub proof fn law_cooked(j: JsonTree, i: int, acc: Seq<ExprTree>, strict: bool)
    ensures
        same(cooked_of(j, i, acc, strict), cooked_rule(j, i, acc, strict)),
{
    reveal(cooked_body);
    reveal(cooked_of);
    assert(same(cooked_of(j, i, acc, strict), cooked_body(j, i, acc, strict)));
}

/// The rule of [`raws_of`].
pub open spec fn raws_rule(j: JsonTree, i: int, acc: Seq<Seq<char>>, strict: bool) -> Result<Seq<Seq<char>>, ErrorView> {
    if i < 0 || i >= count(j) {
        Ok(acc)
    } else {
        let t = text_in(field(field(item(j, i), "value"@), "raw"@));
        raws_of(j, i + 1, acc.push(t), strict)
    }
}

/// [`raws_of`] follows its rule.
#[verifier::rlimit(60)]
pub proof fn law_raws(j: JsonTree, i: int, acc: Seq<Seq<char>>, strict: bool)
    ensures
        same(raws_of(j, i, acc, strict), raws_rule(j, i, acc, strict)),
{
    reveal(raws_body);
    reveal(raws_of);
    assert(same(raws_of(j, i, acc, strict), raws_body(j, i, acc, strict)));
}

/// The rule of [`template_of`].
pub open spec fn template_rule(j: JsonTree, quasis: JsonTree, i: int, acc: ExprTree, strict: bool) -> Result<ExprTree, ErrorView> {
    if i < 0 || i >= count(j) {
        Ok(acc)
    } else {
        match expr_of(item(j, i), strict) {
            Err(e) => Err(e),
            Ok(e) => {
                let text = ExprTree::ToString(Box::new(e));
                let left = ExprTree::Binary { op: BinaryOp::Add, left: Box::new(acc), right: Box::new(text) };
                let t = quasi(quasis, i + 1);
                let part = ExprTree::Lit(LitTree::Str(t));
                template_of(j, quasis, i + 1, ExprTree::Binary { op: BinaryOp::Add, left: Box::new(left), right: Box::new(part) }, strict)
            },
        }
    }
}

/// [`template_of`] follows its rule.
#[verifier::rlimit(60)]
pub proof fn law_template(j: JsonTree, quasis: JsonTree, i: int, acc: ExprTree, strict: bool)
    ensures
        same(template_of(j, quasis, i, acc, strict), template_rule(j, quasis, i, acc, strict)),
{
    reveal(template_body);
    reveal(template_of);
    reveal(expr_of);
    assert(same(template_of(j, quasis, i, acc, strict), template_body(j, quasis, i, acc, strict)));
}

/// The rule of [`elems_of`].
pub open spec fn elems_rule(j: JsonTree, i: int, acc: Seq<ArrayElemTree>, strict: bool) -> Result<Seq<ArrayElemTree>, ErrorView> {
    if i < 0 || i >= count(j) {
        Ok(acc)
    } else if (item(j, i) is Null) {
        elems_of(j, i + 1, acc.push(ArrayElemTree::Elision), strict)
    } else if is_kind(item(j, i), "SpreadElement"@) {
        match expr_of(field(item(j, i), "argument"@), strict) {
            Err(e) => Err(e),
            Ok(e) => {
                elems_of(j, i + 1, acc.push(ArrayElemTree::Spread(e)), strict)
            },
        }
    } else {
        match expr_of(item(j, i), strict) {
            Err(e) => Err(e),
            Ok(e) => {
                elems_of(j, i + 1, acc.push(ArrayElemTree::Expr(e)), strict)
            },
        }
    }
}

/// [`elems_of`] follows its rule.
#[verifier::rlimit(60)]
pub proof fn law_elems(j: JsonTree, i: int, acc: Seq<ArrayElemTree>, strict: bool)
    ensures
        same(elems_of(j, i, acc, strict), elems_rule(j, i, acc, strict)),
{
    reveal(elems_body);
    reveal(elems_of);
    reveal(expr_of);
    assert(same(elems_of(j, i, acc, strict), elems_body(j, i, acc, strict)));
}

/// The rule of [`props_of`].
pub open spec fn props_rule(j: JsonTree, i: int, acc: Seq<PropTree>, strict: bool) -> Result<Seq<PropTree>, ErrorView> {
    if i < 0 || i >= count(j) {
        Ok(acc)
    } else if is_kind(item(j, i), "SpreadElement"@) {
        match expr_of(field(item(j, i), "argument"@), strict) {
            Err(e) => Err(e),
            Ok(e) => {
                props_of(j, i + 1, acc.push(PropTree::Spread(e)), strict)
            },
        }
    } else {
        match prop_of(item(j, i), strict) {
            Err(e) => Err(e),
            Ok(p) => {
                props_of(j, i + 1, acc.push(p), strict)
            },
        }
    }
}

/// [`props_of`] follows its rule.
#[verifier::rlimit(60)]
pub proof fn law_props(j: JsonTree, i: int, acc: Seq<PropTree>, strict: bool)
    ensures
        same(props_of(j, i, acc, strict), props_rule(j, i, acc, strict)),
{
    reveal(props_body);
    reveal(props_of);
    reveal(expr_of);
    reveal(prop_of);
    assert(same(props_of(j, i, acc, strict), props_body(j, i, acc, strict)));
}

/// The rule of [`prop_of`].
pub open spec fn prop_rule(j: JsonTree, strict: bool) -> Result<PropTree, ErrorView> {
    match key_of(j, strict) {
        Err(e) => Err(e),
        Ok(key) => {
            if flag(field(j, "method"@)) {
                if !is_kind(field(j, "value"@), "FunctionExpression"@) {
                    Err(ErrorView::Parse("expected function in method shorthand"@))
                } else {
                    match params_of(field(j, "value"@), strict) {
                        Err(e) => Err(e),
                        Ok(params) => {
                            match function_body_of(field(j, "value"@), strict) {
                                Err(e) => Err(e),
                                Ok(body) => {
                                    Ok(PropTree::Method { key, params, body })
                                },
                            }
                        },
                    }
                }
            } else if (field(j, "kind"@) == JsonTree::Str("get"@)) || (field(j, "kind"@) == JsonTree::Str("set"@)) {
                if !is_kind(field(j, "value"@), "FunctionExpression"@) {
                    Err(ErrorView::Parse("expected function in method shorthand"@))
                } else {
                    match params_of(field(j, "value"@), strict) {
                        Err(e) => Err(e),
                        Ok(params) => {
                            match function_body_of(field(j, "value"@), strict) {
                                Err(e) => Err(e),
                                Ok(body) => {
                                    if (field(j, "kind"@) == JsonTree::Str("get"@)) {
                                        Ok(PropTree::Accessor { get: true, key, params, body })
                                    } else {
                                        Ok(PropTree::Accessor { get: false, key, params, body })
                                    }
                                },
                            }
                        },
                    }
                }
            } else {
                match expr_of(field(j, "value"@), strict) {
                    Err(e) => Err(e),
                    Ok(value) => {
                        Ok(PropTree::Init { key, value })
                    },
                }
            }
        },
    }
}

/// [`prop_of`] follows its rule.
#[verifier::rlimit(60)]
pub proof fn law_prop(j: JsonTree, strict: bool)
    ensures
        same(prop_of(j, strict), prop_rule(j, strict)),
{
    reveal(prop_body);
    reveal(prop_of);
    reveal(key_of);
    reveal(params_of);
    reveal(function_body_of);
    reveal(expr_of);
    assert(same(prop_of(j, strict), prop_body(j, strict)));
}

/// The rule of [`key_of`].
pub open spec fn key_rule(j: JsonTree, strict: bool) -> Result<PropKeyTree, ErrorView> {
    if is_kind(field(j, "key"@), "Identifier"@) && !flag(field(j, "computed"@)) {
        let name = text_in(field(field(j, "key"@), "name"@));
        Ok(PropKeyTree::Ident(name))
    } else if is_kind(field(j, "key"@), "PrivateIdentifier"@) {
        let name = hashed(field(field(j, "key"@), "name"@));
        Ok(PropKeyTree::Ident(name))
    } else if is_kind(field(j, "key"@), "Literal"@) && (field(field(j, "key"@), "value"@) is Str) {
        let name = text_in(field(field(j, "key"@), "value"@));
        Ok(PropKeyTree::Str(name))
    } else if is_kind(field(j, "key"@), "Literal"@) && (field(field(j, "key"@), "value"@) is Number) {
        let name = positional(number_in(field(field(j, "key"@), "value"@)));
        Ok(PropKeyTree::Str(name))
    } else {
        match expr_of(field(j, "key"@), strict) {
            Err(e) => Err(e),
            Ok(e) => {
                Ok(PropKeyTree::Computed(Box::new(e)))
            },
        }
    }
}

/// [`key_of`] follows its rule.
#[verifier::rlimit(60)]
pub proof fn law_key(j: JsonTree, strict: bool)
    ensures
        same(key_of(j, strict), key_rule(j, strict)),
{
    reveal(key_body);
    reveal(key_of);
    reveal(expr_of);
    assert(same(key_of(j, strict), key_body(j, strict)));
}

/// The rule of [`class_of`].
pub open spec fn class_rule(j: JsonTree, strict: bool) -> Result<ClassTree, ErrorView> {
    if is_kind(j, "ClassDeclaration"@) || is_kind(j, "ClassExpression"@) {
        let name = id_name(field(j, "id"@));
        if (field(j, "superClass"@) is Null) {
            match class_elems_of(field(field(j, "body"@), "body"@), 0, Seq::empty(), strict) {
                Err(e) => Err(e),
                Ok(elements) => {
                    Ok(ClassTree { name, extends: None, elements })
                },
            }
        } else {
            match expr_of(field(j, "superClass"@), strict) {
                Err(e) => Err(e),
                Ok(e) => {
                    match class_elems_of(field(field(j, "body"@), "body"@), 0, Seq::empty(), strict) {
                        Err(e) => Err(e),
                        Ok(elements) => {
                            Ok(ClassTree { name, extends: Some(Box::new(e)), elements })
                        },
                    }
                },
            }
        }
    } else {
        Err(ErrorView::Parse("unsupported class"@))
    }
}

/// [`class_of`] follows its rule.
#[verifier::rlimit(60)]
pub proof fn law_class(j: JsonTree, strict: bool)
    ensures
        same(class_of(j, strict), class_rule(j, strict)),
{
    reveal(class_body);
    reveal(class_of);
    reveal(class_elems_of);
    reveal(expr_of);
    assert(same(class_of(j, strict), class_body(j, strict)));
}

/// The rule of [`class_elems_of`].
pub open spec fn class_elems_rule(j: JsonTree, i: int, acc: Seq<ClassElemTree>, strict: bool) -> Result<Seq<ClassElemTree>, ErrorView> {
    if i < 0 || i >= count(j) {
        Ok(acc)
    } else if is_kind(item(j, i), "StaticBlock"@) || is_kind(item(j, i), "TSIndexSignature"@) {
        class_elems_of(j, i + 1, acc, strict)
    } else {
        match class_elem_of(item(j, i), strict) {
            Err(e) => Err(e),
            Ok(e) => {
                class_elems_of(j, i + 1, acc.push(e), strict)
            },
        }
    }
}

/// [`class_elems_of`] follows its rule.
#[verifier::rlimit(60)]
pub proof fn law_class_elems(j: JsonTree, i: int, acc: Seq<ClassElemTree>, strict: bool)
    ensures
        same(class_elems_of(j, i, acc, strict), class_elems_rule(j, i, acc, strict)),
{
    reveal(class_elems_body);
    reveal(class_elems_of);
    reveal(class_elem_of);
    assert(same(class_elems_of(j, i, acc, strict), class_elems_body(j, i, acc, strict)));
}

/// The rule of [`class_elem_of`].
pub open spec fn class_elem_rule(j: JsonTree, strict: bool) -> Result<ClassElemTree, ErrorView> {
    match key_of(j, strict) {
        Err(e) => Err(e),
        Ok(key) => {
            let is_static = flag(field(j, "static"@));
            if is_kind(j, "MethodDefinition"@) || is_kind(j, "TSAbstractMethodDefinition"@) {
                match params_of(field(j, "value"@), strict) {
                    Err(e) => Err(e),
                    Ok(params) => {
                        match function_body_of(field(j, "value"@), strict) {
                            Err(e) => Err(e),
                            Ok(body) => {
                                if (field(j, "kind"@) == JsonTree::Str("constructor"@)) {
                                    Ok(ClassElemTree::Constructor { params, body })
                                } else if (field(j, "kind"@) == JsonTree::Str("get"@)) {
                                    Ok(ClassElemTree::Method { is_static, get: true, key, params, body })
                                } else {
                                    Ok(ClassElemTree::Method { is_static, get: false, key, params, body })
                                }
                            },
                        }
                    },
                }
            } else if is_kind(j, "PropertyDefinition"@) || is_kind(j, "TSAbstractPropertyDefinition"@) {
                match (if field(j, "value"@) is Null {
                    Ok(None)
                } else {
                    some_of(expr_of(field(j, "value"@), strict))
                }) {
                    Err(e) => Err(e),
                    Ok(init) => {
                        Ok(ClassElemTree::Field { is_static, key, init })
                    },
                }
            } else {
                Ok(ClassElemTree::AccessorProp { is_static, key })
            }
        },
    }
}

/// [`class_elem_of`] follows its rule.
#[verifier::rlimit(60)]
pub proof fn law_class_elem(j: JsonTree, strict: bool)
    ensures
        same(class_elem_of(j, strict), class_elem_rule(j, strict)),
{
    reveal(class_elem_body);
    reveal(class_elem_of);
    reveal(key_of);
    reveal(params_of);
    reveal(function_body_of);
    reveal(expr_of);
    assert(same(class_elem_of(j, strict), class_elem_body(j, strict)));
}

/// The rule of [`operation_of`].
pub open spec fn operation_rule(j: JsonTree, strict: bool) -> Result<ExprTree, ErrorView> {
    if is_kind(j, "BinaryExpression"@) {
        match binary_of(j, strict) {
            Err(e) => Err(e),
            Ok(e) => {
                Ok(e)
            },
        }
    } else if is_kind(j, "LogicalExpression"@) {
        match logical_op(text_in(field(j, "operator"@))) {
            Some(op) => {
                match expr_of(field(j, "left"@), strict) {
                    Err(e) => Err(e),
                    Ok(left) => {
                        match expr_of(field(j, "right"@), strict) {
                            Err(e) => Err(e),
                            Ok(right) => {
                                Ok(ExprTree::Logical { op, left: Box::new(left), right: Box::new(right) })
                            },
                        }
                    },
                }
            },
            None => {
                Err(ErrorView::Parse("logical operator not supported"@))
            },
        }
    } else if is_kind(j, "UnaryExpression"@) {
        match unary_op(text_in(field(j, "operator"@))) {
            Some(op) => {
                match expr_of(field(j, "argument"@), strict) {
                    Err(e) => Err(e),
                    Ok(operand) => {
                        Ok(ExprTree::Unary { op, operand: Box::new(operand) })
                    },
                }
            },
            None => {
                Err(ErrorView::Parse("unary operator not supported"@))
            },
        }
    } else if is_kind(j, "UpdateExpression"@) {
        match update_of(j, strict) {
            Err(e) => Err(e),
            Ok(e) => {
                Ok(e)
            },
        }
    } else if is_kind(j, "ConditionalExpression"@) {
        match expr_of(field(j, "test"@), strict) {
            Err(e) => Err(e),
            Ok(cond) => {
                match expr_of(field(j, "consequent"@), strict) {
                    Err(e) => Err(e),
                    Ok(yes) => {
                        match expr_of(field(j, "alternate"@), strict) {
                            Err(e) => Err(e),
                            Ok(no) => {
                                Ok(ExprTree::Ternary { cond: Box::new(cond), yes: Box::new(yes), no: Box::new(no) })
                            },
                        }
                    },
                }
            },
        }
    } else {
        Err(ErrorView::Parse("unsupported expression"@))
    }
}

/// [`operation_of`] follows its rule.
#[verifier::rlimit(60)]
pub proof fn law_operation(j: JsonTree, strict: bool)
    ensures
        same(operation_of(j, strict), operation_rule(j, strict)),
{
    reveal(operation_body);
    reveal(operation_of);
    reveal(binary_of);
    reveal(expr_of);
    reveal(update_of);
    assert(same(operation_of(j, strict), operation_body(j, strict)));
}

/// The rule of [`binary_of`].
pub open spec fn binary_rule(j: JsonTree, strict: bool) -> Result<ExprTree, ErrorView> {
    if is_kind(j, "BinaryExpression"@) {
        if is_kind(field(j, "left"@), "PrivateIdentifier"@) {
            match expr_of(field(j, "right"@), strict) {
                Err(e) => Err(e),
                Ok(right) => {
                    let t = hashed(field(field(j, "left"@), "name"@));
                    let left = ExprTree::Lit(LitTree::Str(t));
                    Ok(ExprTree::Binary { op: BinaryOp::In, left: Box::new(left), right: Box::new(right) })
                },
            }
        } else if (field(j, "operator"@) == JsonTree::Str("instanceof"@)) {
            match expr_of(field(j, "left"@), strict) {
                Err(e) => Err(e),
                Ok(left) => {
                    match expr_of(field(j, "right"@), strict) {
                        Err(e) => Err(e),
                        Ok(right) => {
                            Ok(ExprTree::InstanceOf { left: Box::new(left), right: Box::new(right) })
                        },
                    }
                },
            }
        } else {
            match binary_op(text_in(field(j, "operator"@))) {
                Some(op) => {
                    match expr_of(field(j, "left"@), strict) {
                        Err(e) => Err(e),
                        Ok(left) => {
                            match expr_of(field(j, "right"@), strict) {
                                Err(e) => Err(e),
                                Ok(right) => {
                                    Ok(ExprTree::Binary { op, left: Box::new(left), right: Box::new(right) })
                                },
                            }
                        },
                    }
                },
                None => {
                    Err(ErrorView::Parse("binary operator not supported"@))
                },
            }
        }
    } else {
        Err(ErrorView::Parse("unsupported expression"@))
    }
}

/// [`binary_of`] follows its rule.
#[verifier::rlimit(60)]
pub proof fn law_binary(j: JsonTree, strict: bool)
    ensures
        same(binary_of(j, strict), binary_rule(j, strict)),
{
    reveal(binary_body);
    reveal(binary_of);
    reveal(expr_of);
    assert(same(binary_of(j, strict), binary_body(j, strict)));
}

/// The rule of [`update_of`].
pub open spec fn update_rule(j: JsonTree, strict: bool) -> Result<ExprTree, ErrorView> {
    if is_kind(j, "UpdateExpression"@) {
        match expr_of(field(j, "argument"@), strict) {
            Err(e) => Err(e),
            Ok(operand) => {
                if (field(j, "operator"@) == JsonTree::Str("++"@)) {
                    if flag(field(j, "prefix"@)) {
                        Ok(ExprTree::Unary { op: UnaryOp::PreInc, operand: Box::new(operand) })
                    } else {
                        Ok(ExprTree::Unary { op: UnaryOp::PostInc, operand: Box::new(operand) })
                    }
                } else if flag(field(j, "prefix"@)) {
                    Ok(ExprTree::Unary { op: UnaryOp::PreDec, operand: Box::new(operand) })
                } else {
                    Ok(ExprTree::Unary { op: UnaryOp::PostDec, operand: Box::new(operand) })
                }
            },
        }
    } else {
        Err(ErrorView::Parse("unsupported expression"@))
    }
}

/// [`update_of`] follows its rule.
#[verifier::rlimit(60)]
pub proof fn law_update(j: JsonTree, strict: bool)
    ensures
        same(update_of(j, strict), update_rule(j, strict)),
{
    reveal(update_body);
    reveal(update_of);
    reveal(expr_of);
    assert(same(update_of(j, strict), update_body(j, strict)));
}

/// The rule of [`other_expr_of`].
pub open spec fn other_expr_rule(j: JsonTree, strict: bool) -> Result<ExprTree, ErrorView> {
    if is_kind(j, "AwaitExpression"@) {
        match expr_of(field(j, "argument"@), strict) {
            Err(e) => Err(e),
            Ok(e) => {
                Ok(ExprTree::Await(Box::new(e)))
            },
        }
    } else if is_kind(j, "YieldExpression"@) {
        let delegated = flag(field(j, "delegate"@));
        if (field(j, "argument"@) is Null) {
            Ok(ExprTree::Yield { expr: None, delegated })
        } else {
            match expr_of(field(j, "argument"@), strict) {
                Err(e) => Err(e),
                Ok(e) => {
                    Ok(ExprTree::Yield { expr: Some(Box::new(e)), delegated })
                },
            }
        }
    } else if is_kind(j, "ParenthesizedExpression"@) || is_kind(j, "ChainExpression"@) || is_kind(j, "TSAsExpression"@) || is_kind(j, "TSSatisfiesExpression"@) || is_kind(j, "TSTypeAssertion"@) || is_kind(j, "TSNonNullExpression"@) || is_kind(j, "TSInstantiationExpression"@) {
        match expr_of(field(j, "expression"@), strict) {
            Err(e) => Err(e),
            Ok(e) => {
                Ok(e)
            },
        }
    } else if is_kind(j, "ImportExpression"@) || is_kind(j, "MetaProperty"@) {
        Ok(ExprTree::Lit(LitTree::Undefined))
    } else if is_kind(j, "JSXElement"@) || is_kind(j, "JSXFragment"@) {
        Err(ErrorView::Parse("JSX runtime is not supported"@))
    } else if is_kind(j, "V8IntrinsicExpression"@) {
        Err(ErrorView::Parse("V8 intrinsics are not supported"@))
    } else {
        Err(ErrorView::Parse("unsupported expression"@))
    }
}

/// [`other_expr_of`] follows its rule.
#[verifier::rlimit(60)]
pub proof fn law_other_expr(j: JsonTree, strict: bool)
    ensures
        same(other_expr_of(j, strict), other_expr_rule(j, strict)),
{
    reveal(other_expr_body);
    reveal(other_expr_of);
    reveal(expr_of);
    assert(same(other_expr_of(j, strict), other_expr_body(j, strict)));
}

/// The rule of [`binding_of`].
pub open spec fn binding_rule(j: JsonTree, strict: bool) -> Result<PatternTree, ErrorView> {
    if is_kind(j, "Identifier"@) {
        let name = text_in(field(j, "name"@));
        Ok(PatternTree::Ident(name))
    } else if is_kind(j, "ObjectPattern"@) {
        match binding_props_of(field(j, "properties"@), 0, Seq::empty(), strict) {
            Err(e) => Err(e),
            Ok(props) => {
                match binding_rest_of(field(j, "properties"@), strict) {
                    Err(e) => Err(e),
                    Ok(p) => {
                        let rest = boxed(p);
                        Ok(PatternTree::Object { props, rest })
                    },
                }
            },
        }
    } else if is_kind(j, "ArrayPattern"@) {
        match binding_elems_of(field(j, "elements"@), 0, Seq::empty(), strict) {
            Err(e) => Err(e),
            Ok(elems) => {
                match binding_rest_of(field(j, "elements"@), strict) {
                    Err(e) => Err(e),
                    Ok(p) => {
                        let rest = boxed(p);
                        Ok(PatternTree::Array { elems, rest })
                    },
                }
            },
        }
    } else if is_kind(j, "AssignmentPattern"@) {
        match binding_of(field(j, "left"@), strict) {
            Err(e) => Err(e),
            Ok(inner) => {
                match expr_of(field(j, "right"@), strict) {
                    Err(e) => Err(e),
                    Ok(default) => {
                        Ok(PatternTree::Default { inner: Box::new(inner), default: Box::new(default) })
                    },
                }
            },
        }
    } else {
        Err(ErrorView::Parse("unsupported binding pattern"@))
    }
}

/// [`binding_of`] follows its rule.
#[verifier::rlimit(60)]
pub proof fn law_binding(j: JsonTree, strict: bool)
    ensures
        same(binding_of(j, strict), binding_rule(j, strict)),
{
    reveal(binding_body);
    reveal(binding_of);
    reveal(binding_props_of);
    reveal(binding_rest_of);
    reveal(binding_elems_of);
    reveal(expr_of);
    assert(same(binding_of(j, strict), binding_body(j, strict)));
}

/// The rule of [`binding_props_of`].
pub open spec fn binding_props_rule(j: JsonTree, i: int, acc: Seq<PropPatternTree>, strict: bool) -> Result<Seq<PropPatternTree>, ErrorView> {
    if i < 0 || i >= count(j) {
        Ok(acc)
    } else if is_kind(item(j, i), "RestElement"@) {
        binding_props_of(j, i + 1, acc, strict)
    } else {
        match key_of(item(j, i), strict) {
            Err(e) => Err(e),
            Ok(key) => {
                match binding_of(field(item(j, i), "value"@), strict) {
                    Err(e) => Err(e),
                    Ok(value) => {
                        binding_props_of(j, i + 1, acc.push(PropPatternTree { key, value }), strict)
                    },
                }
            },
        }
    }
}

/// [`binding_props_of`] follows its rule.
#[verifier::rlimit(60)]
pub proof fn law_binding_props(j: JsonTree, i: int, acc: Seq<PropPatternTree>, strict: bool)
    ensures
        same(binding_props_of(j, i, acc, strict), binding_props_rule(j, i, acc, strict)),
{
    reveal(binding_props_body);
    reveal(binding_props_of);
    reveal(key_of);
    reveal(binding_of);
    assert(same(binding_props_of(j, i, acc, strict), binding_props_body(j, i, acc, strict)));
}

/// The rule of [`binding_elems_of`].
pub open spec fn binding_elems_rule(j: JsonTree, i: int, acc: Seq<Option<PatternTree>>, strict: bool) -> Result<Seq<Option<PatternTree>>, ErrorView> {
    if i < 0 || i >= count(j) {
        Ok(acc)
    } else if (item(j, i) is Null) {
        binding_elems_of(j, i + 1, acc.push(None), strict)
    } else if is_kind(item(j, i), "RestElement"@) {
        binding_elems_of(j, i + 1, acc, strict)
    } else {
        match binding_of(item(j, i), strict) {
            Err(e) => Err(e),
            Ok(p) => {
                binding_elems_of(j, i + 1, acc.push(Some(p)), strict)
            },
        }
    }
}

/// [`binding_elems_of`] follows its rule.
#[verifier::rlimit(60)]
pub proof fn law_binding_elems(j: JsonTree, i: int, acc: Seq<Option<PatternTree>>, strict: bool)
    ensures
        same(binding_elems_of(j, i, acc, strict), binding_elems_rule(j, i, acc, strict)),
{
    reveal(binding_elems_body);
    reveal(binding_elems_of);
    reveal(binding_of);
    assert(same(binding_elems_of(j, i, acc, strict), binding_elems_body(j, i, acc, strict)));
}

/// The rule of [`binding_rest_of`].
pub open spec fn binding_rest_rule(j: JsonTree, strict: bool) -> Result<Option<PatternTree>, ErrorView> {
    if is_kind(last_item(j), "RestElement"@) {
        match binding_of(field(last_item(j), "argument"@), strict) {
            Err(e) => Err(e),
            Ok(p) => {
                Ok(Some(p))
            },
        }
    } else {
        Ok(None)
    }
}

/// [`binding_rest_of`] follows its rule.
#[verifier::rlimit(60)]
pub proof fn law_binding_rest(j: JsonTree, strict: bool)
    ensures
        same(binding_rest_of(j, strict), binding_rest_rule(j, strict)),
{
    reveal(binding_rest_body);
    reveal(binding_rest_of);
    reveal(binding_of);
    assert(same(binding_rest_of(j, strict), binding_rest_body(j, strict)));
}

/// The rule of [`target_pattern_of`].
pub open spec fn target_pattern_rule(j: JsonTree, strict: bool) -> Result<PatternTree, ErrorView> {
    if is_kind(j, "Identifier"@) {
        let name = text_in(field(j, "name"@));
        Ok(PatternTree::Ident(name))
    } else if is_kind(j, "ArrayPattern"@) {
        match target_elems_of(field(j, "elements"@), 0, Seq::empty(), strict) {
            Err(e) => Err(e),
            Ok(elems) => {
                match target_rest_of(field(j, "elements"@), strict) {
                    Err(e) => Err(e),
                    Ok(p) => {
                        let rest = boxed(p);
                        Ok(PatternTree::Array { elems, rest })
                    },
                }
            },
        }
    } else if is_kind(j, "ObjectPattern"@) {
        match target_props_of(field(j, "properties"@), 0, Seq::empty(), strict) {
            Err(e) => Err(e),
            Ok(props) => {
                match target_rest_of(field(j, "properties"@), strict) {
                    Err(e) => Err(e),
                    Ok(p) => {
                        let rest = boxed(p);
                        Ok(PatternTree::Object { props, rest })
                    },
                }
            },
        }
    } else if is_kind(j, "MemberExpression"@) {
        match member_expr_of(j, strict) {
            Err(e) => Err(e),
            Ok(e) => {
                Ok(PatternTree::Member(Box::new(e)))
            },
        }
    } else {
        Err(ErrorView::Parse("unsupported assignment target (elem)"@))
    }
}

/// [`target_pattern_of`] follows its rule.
#[verifier::rlimit(60)]
pub proof fn law_target_pattern(j: JsonTree, strict: bool)
    ensures
        same(target_pattern_of(j, strict), target_pattern_rule(j, strict)),
{
    reveal(target_pattern_body);
    reveal(target_pattern_of);
    reveal(target_elems_of);
    reveal(target_rest_of);
    reveal(target_props_of);
    reveal(member_expr_of);
    assert(same(target_pattern_of(j, strict), target_pattern_body(j, strict)));
}

/// The rule of [`target_elem_of`].
pub open spec fn target_elem_rule(j: JsonTree, strict: bool) -> Result<PatternTree, ErrorView> {
    if is_kind(j, "AssignmentPattern"@) {
        match target_pattern_of(field(j, "left"@), strict) {
            Err(e) => Err(e),
            Ok(p) => {
                Ok(p)
            },
        }
    } else if is_kind(j, "TSAsExpression"@) || is_kind(j, "TSSatisfiesExpression"@) || is_kind(j, "TSNonNullExpression"@) || is_kind(j, "TSTypeAssertion"@) {
        match cast_pattern_of(field(j, "expression"@), strict) {
            Err(e) => Err(e),
            Ok(p) => {
                Ok(p)
            },
        }
    } else {
        match target_pattern_of(j, strict) {
            Err(e) => Err(e),
            Ok(p) => {
                Ok(p)
            },
        }
    }
}

/// [`target_elem_of`] follows its rule.
#[verifier::rlimit(60)]
pub proof fn law_target_elem(j: JsonTree, strict: bool)
    ensures
        same(target_elem_of(j, strict), target_elem_rule(j, strict)),
{
    reveal(target_elem_body);
    reveal(target_elem_of);
    reveal(target_pattern_of);
    reveal(cast_pattern_of);
    assert(same(target_elem_of(j, strict), target_elem_body(j, strict)));
}

/// The rule of [`cast_pattern_of`].
pub open spec fn cast_pattern_rule(j: JsonTree, strict: bool) -> Result<PatternTree, ErrorView> {
    if is_kind(j, "Identifier"@) {
        let name = text_in(field(j, "name"@));
        Ok(PatternTree::Ident(name))
    } else if is_kind(j, "MemberExpression"@) && !is_kind(field(j, "property"@), "PrivateIdentifier"@) {
        match member_expr_of(j, strict) {
            Err(e) => Err(e),
            Ok(e) => {
                Ok(PatternTree::Member(Box::new(e)))
            },
        }
    } else if is_kind(j, "TSAsExpression"@) || is_kind(j, "TSSatisfiesExpression"@) || is_kind(j, "TSNonNullExpression"@) || is_kind(j, "TSTypeAssertion"@) {
        match cast_pattern_of(field(j, "expression"@), strict) {
            Err(e) => Err(e),
            Ok(p) => {
                Ok(p)
            },
        }
    } else {
        Err(ErrorView::Parse("unsupported assignment target (elem)"@))
    }
}

/// [`cast_pattern_of`] follows its rule.
#[verifier::rlimit(60)]
pub proof fn law_cast_pattern(j: JsonTree, strict: bool)
    ensures
        same(cast_pattern_of(j, strict), cast_pattern_rule(j, strict)),
{
    reveal(cast_pattern_body);
    reveal(cast_pattern_of);
    reveal(member_expr_of);
    assert(same(cast_pattern_of(j, strict), cast_pattern_body(j, strict)));
}

/// The rule of [`target_elems_of`].
pub open spec fn target_elems_rule(j: JsonTree, i: int, acc: Seq<Option<PatternTree>>, strict: bool) -> Result<Seq<Option<PatternTree>>, ErrorView> {
    if i < 0 || i >= count(j) {
        Ok(acc)
    } else if (item(j, i) is Null) {
        target_elems_of(j, i + 1, acc.push(None), strict)
    } else if is_kind(item(j, i), "RestElement"@) {
        target_elems_of(j, i + 1, acc, strict)
    } else {
        match target_elem_of(item(j, i), strict) {
            Err(e) => Err(e),
            Ok(p) => {
                target_elems_of(j, i + 1, acc.push(Some(p)), strict)
            },
        }
    }
}

/// [`target_elems_of`] follows its rule.
#[verifier::rlimit(60)]
pub proof fn law_target_elems(j: JsonTree, i: int, acc: Seq<Option<PatternTree>>, strict: bool)
    ensures
        same(target_elems_of(j, i, acc, strict), target_elems_rule(j, i, acc, strict)),
{
    reveal(target_elems_body);
    reveal(target_elems_of);
    reveal(target_elem_of);
    assert(same(target_elems_of(j, i, acc, strict), target_elems_body(j, i, acc, strict)));
}

/// The rule of [`target_props_of`].
pub open spec fn target_props_rule(j: JsonTree, i: int, acc: Seq<PropPatternTree>, strict: bool) -> Result<Seq<PropPatternTree>, ErrorView> {
    if i < 0 || i >= count(j) {
        Ok(acc)
    } else if is_kind(item(j, i), "RestElement"@) {
        target_props_of(j, i + 1, acc, strict)
    } else if flag(field(item(j, i), "shorthand"@)) {
        let name = text_in(field(field(item(j, i), "key"@), "name"@));
        let key = PropKeyTree::Ident(name);
        let again = text_in(field(field(item(j, i), "key"@), "name"@));
        let value = PatternTree::Ident(again);
        target_props_of(j, i + 1, acc.push(PropPatternTree { key, value }), strict)
    } else {
        match key_of(item(j, i), strict) {
            Err(e) => Err(e),
            Ok(key) => {
                match target_elem_of(field(item(j, i), "value"@), strict) {
                    Err(e) => Err(e),
                    Ok(value) => {
                        target_props_of(j, i + 1, acc.push(PropPatternTree { key, value }), strict)
                    },
                }
            },
        }
    }
}

/// [`target_props_of`] follows its rule.
#[verifier::rlimit(60)]
pub proof fn law_target_props(j: JsonTree, i: int, acc: Seq<PropPatternTree>, strict: bool)
    ensures
        same(target_props_of(j, i, acc, strict), target_props_rule(j, i, acc, strict)),
{
    reveal(target_props_body);
    reveal(target_props_of);
    reveal(key_of);
    reveal(target_elem_of);
    assert(same(target_props_of(j, i, acc, strict), target_props_body(j, i, acc, strict)));
}

/// The rule of [`target_rest_of`].
pub open spec fn target_rest_rule(j: JsonTree, strict: bool) -> Result<Option<PatternTree>, ErrorView> {
    if is_kind(last_item(j), "RestElement"@) {
        match target_pattern_of(field(last_item(j), "argument"@), strict) {
            Err(e) => Err(e),
            Ok(p) => {
                Ok(Some(p))
            },
        }
    } else {
        Ok(None)
    }
}

/// [`target_rest_of`] follows its rule.
#[verifier::rlimit(60)]
pub proof fn law_target_rest(j: JsonTree, strict: bool)
    ensures
        same(target_rest_of(j, strict), target_rest_rule(j, strict)),
{
    reveal(target_rest_body);
    reveal(target_rest_of);
    reveal(target_pattern_of);
    assert(same(target_rest_of(j, strict), target_rest_body(j, strict)));
}

/// A whole script.
pub open spec fn program_of(j: JsonTree) -> Result<ProgramTree, ErrorView> {
    let body = field(j, "body"@);
    let strict = use_strict(body, 0);
    match stmts_of(body, 0, Seq::empty(), strict) {
        Ok(stmts) => Ok(ProgramTree { stmts, strict }),
        Err(e) => Err(e),
    }
}

/// Whether a script starts with the directive that makes it strict, from a place on.
pub open spec fn use_strict(j: JsonTree, i: int) -> bool
    decreases count(j) - i,
{
    if i < 0 || i >= count(j) {
        false
    } else {
        let d = item(j, i);
        (field(d, "directive"@) is Str && field(field(d, "expression"@), "value"@) == JsonTree::Str("use strict"@)) || use_strict(j, i + 1)
    }
}

} // verus!
