//! The lowering of an outside syntax tree to the tree of this engine.
use vstd::prelude::*;
use crate::ast::{
    arg_trees, array_elem_trees, class_elem_trees, declarator_trees, expr_trees, opt_pattern_trees,
    pattern_trees, prop_pattern_trees, prop_trees, stmt_trees, switch_case_trees, Arg, ArrayElem,
    AssignTarget, BinaryOp, CatchClause, Class, ClassElem, Declarator, Expr, Lit, LogicalOp, Pattern,
    PatternTree, Program, Prop, PropKey, PropPattern, Stmt, SwitchCase, UnaryOp, VarKind,
};
use crate::atoms::same_text;
use crate::error::Error;
use crate::json::{count, field, flag, height, is_kind, item, lemma_field_height, lemma_item_height, Json};
use crate::lowering::{
    boxed, exponent_at, hashed, id_name, kind_of, labelled_function, last_item, left_kind, lowered, one_decl, one_stmt, positional, program_of, quasi, refused, same, use_strict,
    without_point, wrapped, zeros,
};
use crate::lowering::{args_of, arrow_body_of, assignment_of, binary_of, binary_op, binding_elems_of, binding_of, binding_props_of, binding_rest_of, block_stmt_of, branch_of, call_of, cases_of, cast_pattern_of, cast_target_of, catch_clause_of, class_elem_of, class_elems_of, class_of, class_stmt_of, closure_of, collection_of, compound_op, cooked_of, declarators_of, default_export_of, elems_of, export_stmt_of, exported_of, expr_of, exprs_of, for_init_of, for_left_of, for_stmt_of, function_body_of, function_stmt_of, if_stmt_of, jump_stmt_of, key_of, law_args, law_arrow_body, law_assignment, law_binary, law_binding, law_binding_elems, law_binding_props, law_binding_rest, law_block_stmt, law_branch, law_call, law_cases, law_cast_pattern, law_cast_target, law_catch_clause, law_class, law_class_elem, law_class_elems, law_class_stmt, law_closure, law_collection, law_cooked, law_declarators, law_default_export, law_elems, law_export_stmt, law_exported, law_expr, law_exprs, law_for_init, law_for_left, law_for_stmt, law_function_body, law_function_stmt, law_if_stmt, law_jump_stmt, law_key, law_literal, law_loop_stmt, law_member_expr, law_no_stmts, law_operation, law_other_expr, law_param_list, law_params, law_prop, law_props, law_raws, law_stmt, law_stmt_vec, law_stmts, law_target, law_target_elem, law_target_elems, law_target_expr, law_target_pattern, law_target_props, law_target_rest, law_target_value, law_template, law_update, law_var_stmt, literal_of, logical_assign_op, logical_op, loop_stmt_of, member_expr_of, no_stmts_of, operation_of, other_expr_of, param_list_of, params_of, prop_of, props_of, raws_of, stmt_of, stmt_vec_of, stmts_of, target_elem_of, target_elems_of, target_expr_of, target_of, target_pattern_of, target_props_of, target_rest_of, target_value_of, template_of, unary_op, update_of, var_stmt_of};
use crate::scope::redeclares;
use crate::text::{chars_of, joined, owned, parse_index, string_from, texts};

verus! {

broadcast use {lemma_field_height, lemma_item_height};

fn is_labelled_function(j: &Json) -> (r: bool)
    ensures
        r == labelled_function(j.tree()),
    decreases height(j.tree()),
{
    j.is_kind("LabeledStatement") && (j.field("body").is_kind("FunctionDeclaration") || is_labelled_function(j.field("body")))
}

fn last_of(j: &Json) -> (r: &Json)
    ensures
        r.tree() == last_item(j.tree()),
{
    let n = j.count();
    if n == 0 { &Json::Null } else { j.item(n - 1) }
}

fn single(s: Stmt) -> (r: Vec<Stmt>)
    ensures
        stmt_trees(r) == one_stmt(s.tree()),
{
    let ghost t = s.tree();
    let mut v: Vec<Stmt> = Vec::new();
    v.push(s);
    assert(stmt_trees(v) =~= seq![t]);
    v
}

fn single_declarator(d: Declarator) -> (r: Vec<Declarator>)
    ensures
        declarator_trees(r) == one_decl(d.tree()),
{
    let ghost t = d.tree();
    let mut v: Vec<Declarator> = Vec::new();
    v.push(d);
    assert(declarator_trees(v) =~= seq![t]);
    v
}

fn wrap(list: Vec<Stmt>, generator: bool, asynchronous: bool) -> (r: Vec<Stmt>)
    ensures
        stmt_trees(r) == wrapped(stmt_trees(list), generator, asynchronous),
{
    if generator {
        single(Stmt::GeneratorBody(list))
    } else if asynchronous {
        single(Stmt::AsyncBody(list))
    } else {
        list
    }
}

fn boxed_pattern(p: Option<Pattern>) -> (r: Option<Box<Pattern>>)
    ensures
        (match r { Some(v) => Some(Box::new((*v).tree())), None => None }) == boxed((match p { Some(v) => Some(v.tree()), None => None })),
{
    match p {
        Some(v) => Some(Box::new(v)),
        None => None,
    }
}

spec fn opt_tree(p: Option<Pattern>) -> Option<PatternTree> {
    match p {
        Some(v) => Some(v.tree()),
        None => None,
    }
}

fn name_of(j: &Json) -> (r: Option<String>)
    ensures
        (match r { Some(v) => Some(v@), None => None }) == id_name(j.tree()),
{
    if j.is_null() { None } else { Some(j.field("name").text()) }
}

fn hash_name(j: &Json) -> (r: String)
    ensures
        r@ == hashed(j.tree()),
{
    joined("#", j.text().as_str())
}

fn var_kind(j: &Json) -> (r: VarKind)
    ensures
        r == kind_of(j.tree()),
{
    if j.field("kind").is_text("var") {
        VarKind::Var
    } else if j.field("kind").is_text("const") {
        VarKind::Const
    } else {
        VarKind::Let
    }
}

fn left_var_kind(j: &Json) -> (r: VarKind)
    ensures
        r == left_kind(j.tree()),
{
    if j.is_kind("VariableDeclaration") { var_kind(j) } else { VarKind::Var }
}

fn quasi_text(j: &Json, i: usize) -> (r: String)
    ensures
        r@ == quasi(j.tree(), i as int),
{
    let v = j.item(i).field("value");
    if v.field("cooked").is_string() { v.field("cooked").text() } else { v.field("raw").text() }
}

fn add_zeros(out: &mut String, n: usize)
    ensures
        final(out)@ == old(out)@ + zeros(n as int),
{
    let mut i: usize = 0;
    assert(old(out)@ + zeros(0) =~= old(out)@);
    while i < n
        invariant
            i <= n,
            out@ == old(out)@ + zeros(i as int),
        decreases n - i,
    {
        out.push('0');
        assert(out@ =~= old(out)@ + zeros(i + 1));
        i += 1;
    }
}

/// The text of a number without an exponent.
pub fn positional_text(text: &str) -> (r: String)
    ensures
        r@ == positional(text@),
{
    let t = chars_of(text);
    let mut e: usize = 0;
    while e < t.len() && t[e] != 'e'
        invariant
            t@ == text@,
            e <= t@.len(),
            exponent_at(t@, 0) == exponent_at(t@, e as int),
        decreases t@.len() - e,
    {
        e += 1;
    }
    if t.len() - e < 2 {
        return owned(text);
    }
    let mut digits: Vec<char> = Vec::new();
    let mut i: usize = 0;
    assert(t@.subrange(0, 0) =~= Seq::empty());
    assert(without_point(t@.subrange(0, 0)) =~= Seq::empty()) by {
        reveal(Seq::filter);
    }
    while i < e
        invariant
            i <= e < t@.len(),
            digits@ == without_point(t@.subrange(0, i as int)),
            digits@.len() <= i,
        decreases e - i,
    {
        proof {
            let s = t@.subrange(0, i + 1);
            assert(s.drop_last() =~= t@.subrange(0, i as int));
            reveal(Seq::filter);
        }
        if t[i] != '.' {
            digits.push(t[i]);
        }
        i += 1;
    }
    let n = match parse_index(string_from(&t, e + 2, t.len()).as_str()) {
        Some(n) => n,
        None => {
            return owned(text);
        },
    };
    if n > 324 {
        return owned("inf");
    }
    let d = string_from(&digits, 0, digits.len());
    assert(d@ =~= digits@);
    if t[e + 1] == '-' {
        let mut out = owned("0.");
        if n > 0 {
            add_zeros(&mut out, n - 1);
        } else {
            assert(out@ + zeros(-1) =~= out@);
        }
        joined(out.as_str(), d.as_str())
    } else {
        let mut out = d;
        if n + 1 > digits.len() {
            add_zeros(&mut out, n + 1 - digits.len());
        } else {
            assert(out@ + zeros(n + 1 - digits@.len()) =~= out@);
        }
        out
    }
}

fn find_binary_op(t: &str) -> (r: Option<BinaryOp>)
    ensures
        r == binary_op(t@),
{
    if same_text(t, "==") {
        Some(BinaryOp::Eq)
    } else if same_text(t, "!=") {
        Some(BinaryOp::Ne)
    } else if same_text(t, "===") {
        Some(BinaryOp::StrictEq)
    } else if same_text(t, "!==") {
        Some(BinaryOp::StrictNe)
    } else if same_text(t, "<") {
        Some(BinaryOp::Lt)
    } else if same_text(t, ">") {
        Some(BinaryOp::Gt)
    } else if same_text(t, "<=") {
        Some(BinaryOp::Le)
    } else if same_text(t, ">=") {
        Some(BinaryOp::Ge)
    } else if same_text(t, "+") {
        Some(BinaryOp::Add)
    } else if same_text(t, "-") {
        Some(BinaryOp::Sub)
    } else if same_text(t, "*") {
        Some(BinaryOp::Mul)
    } else if same_text(t, "/") {
        Some(BinaryOp::Div)
    } else if same_text(t, "%") {
        Some(BinaryOp::Rem)
    } else if same_text(t, "in") {
        Some(BinaryOp::In)
    } else if same_text(t, "&") {
        Some(BinaryOp::BitAnd)
    } else if same_text(t, "|") {
        Some(BinaryOp::BitOr)
    } else if same_text(t, "^") {
        Some(BinaryOp::BitXor)
    } else if same_text(t, "<<") {
        Some(BinaryOp::Shl)
    } else if same_text(t, ">>") {
        Some(BinaryOp::Shr)
    } else if same_text(t, ">>>") {
        Some(BinaryOp::Ushr)
    } else if same_text(t, "**") {
        Some(BinaryOp::Exp)
    } else {
        None
    }
}

fn find_compound_op(t: &str) -> (r: Option<BinaryOp>)
    ensures
        r == compound_op(t@),
{
    if same_text(t, "+=") {
        Some(BinaryOp::Add)
    } else if same_text(t, "-=") {
        Some(BinaryOp::Sub)
    } else if same_text(t, "*=") {
        Some(BinaryOp::Mul)
    } else if same_text(t, "/=") {
        Some(BinaryOp::Div)
    } else if same_text(t, "%=") {
        Some(BinaryOp::Rem)
    } else if same_text(t, "**=") {
        Some(BinaryOp::Exp)
    } else if same_text(t, "&=") {
        Some(BinaryOp::BitAnd)
    } else if same_text(t, "|=") {
        Some(BinaryOp::BitOr)
    } else if same_text(t, "^=") {
        Some(BinaryOp::BitXor)
    } else if same_text(t, "<<=") {
        Some(BinaryOp::Shl)
    } else if same_text(t, ">>=") {
        Some(BinaryOp::Shr)
    } else if same_text(t, ">>>=") {
        Some(BinaryOp::Ushr)
    } else {
        None
    }
}

fn find_logical_op(t: &str) -> (r: Option<LogicalOp>)
    ensures
        r == logical_op(t@),
{
    if same_text(t, "&&") {
        Some(LogicalOp::And)
    } else if same_text(t, "||") {
        Some(LogicalOp::Or)
    } else if same_text(t, "??") {
        Some(LogicalOp::Coalesce)
    } else {
        None
    }
}

fn find_logical_assign_op(t: &str) -> (r: Option<LogicalOp>)
    ensures
        r == logical_assign_op(t@),
{
    if same_text(t, "||=") {
        Some(LogicalOp::Or)
    } else if same_text(t, "&&=") {
        Some(LogicalOp::And)
    } else if same_text(t, "??=") {
        Some(LogicalOp::Coalesce)
    } else {
        None
    }
}

fn find_unary_op(t: &str) -> (r: Option<UnaryOp>)
    ensures
        r == unary_op(t@),
{
    if same_text(t, "-") {
        Some(UnaryOp::Neg)
    } else if same_text(t, "+") {
        Some(UnaryOp::Plus)
    } else if same_text(t, "!") {
        Some(UnaryOp::Not)
    } else if same_text(t, "typeof") {
        Some(UnaryOp::Typeof)
    } else if same_text(t, "void") {
        Some(UnaryOp::Void)
    } else if same_text(t, "delete") {
        Some(UnaryOp::Delete)
    } else if same_text(t, "~") {
        Some(UnaryOp::BitNot)
    } else {
        None
    }
}

fn lower_stmts(j: &Json, strict: bool) -> (r: Result<Vec<Stmt>, Error>)
    ensures
        match r {
            Ok(v) => lowered(stmts_of(j.tree(), 0, Seq::empty(), strict), stmt_trees(v)),
            Err(e) => refused(stmts_of(j.tree(), 0, Seq::empty(), strict), e),
        },
    decreases height(j.tree()), 20int,
{
    let mut acc: Vec<Stmt> = Vec::new();
    assert(stmt_trees(acc) =~= Seq::empty());
    let mut i: usize = 0;
    let ghost want = stmts_of(j.tree(), 0, Seq::empty(), strict);
    let n = j.count();
    while i < n
        invariant
            i <= n,
            n == count(j.tree()),
            same(want, stmts_of(j.tree(), i as int, stmt_trees(acc), strict)),
            same(want, stmts_of(j.tree(), 0, Seq::empty(), strict)),
        decreases n - i,
    {
        proof {
            law_stmts(j.tree(), i as int, stmt_trees(acc), strict);
        }
        let it = j.item(i);
        if it.field("directive").is_string() {
            i += 1;
            continue;
        }
        let s = match lower_stmt(it, strict) {
            Ok(v) => v,
            Err(e) => {
                return Err(e);
            },
        };
        let node: Stmt = s;
        let ghost tree = node.tree();
        let ghost before = stmt_trees(acc);
        acc.push(node);
        assert(stmt_trees(acc) =~= before.push(tree));
        i += 1;
        continue;
    }
    proof {
        law_stmts(j.tree(), i as int, stmt_trees(acc), strict);
    }
    Ok(acc)
}

fn lower_stmt_vec(j: &Json, strict: bool) -> (r: Result<Vec<Stmt>, Error>)
    ensures
        match r {
            Ok(v) => lowered(stmt_vec_of(j.tree(), strict), stmt_trees(v)),
            Err(e) => refused(stmt_vec_of(j.tree(), strict), e),
        },
    decreases height(j.tree()), 95int,
{
    proof {
        law_stmt_vec(j.tree(), strict);
    }
    if j.is_kind("BlockStatement") {
        let list = match lower_stmts(j.field("body"), strict) {
            Ok(v) => v,
            Err(e) => {
                return Err(e);
            },
        };
        return Ok(list);
    }
    let s = match lower_stmt(j, strict) {
        Ok(v) => v,
        Err(e) => {
            return Err(e);
        },
    };
    let mut list: Vec<Stmt> = Vec::new();
    let node = s;
    let ghost tree = node.tree();
    list.push(node);
    assert(stmt_trees(list) =~= seq![tree]);
    return Ok(list);
}

fn lower_branch(j: &Json, strict: bool) -> (r: Result<Vec<Stmt>, Error>)
    ensures
        match r {
            Ok(v) => lowered(branch_of(j.tree(), strict), stmt_trees(v)),
            Err(e) => refused(branch_of(j.tree(), strict), e),
        },
    decreases height(j.tree()), 96int,
{
    proof {
        law_branch(j.tree(), strict);
    }
    if is_labelled_function(j) {
        return Err(Error::Parse(owned("a labelled function declaration is not allowed here")));
    }
    if strict && j.is_kind("FunctionDeclaration") {
        return Err(Error::Parse(owned("a function declaration is not allowed here in strict code")));
    }
    let list = match lower_stmt_vec(j, strict) {
        Ok(v) => v,
        Err(e) => {
            return Err(e);
        },
    };
    return Ok(list);
}

fn lower_stmt(j: &Json, strict: bool) -> (r: Result<Stmt, Error>)
    ensures
        match r {
            Ok(v) => lowered(stmt_of(j.tree(), strict), v.tree()),
            Err(e) => refused(stmt_of(j.tree(), strict), e),
        },
    decreases height(j.tree()), 90int,
{
    proof {
        law_stmt(j.tree(), strict);
    }
    if j.is_kind("BlockStatement") {
        let list = match lower_stmts(j.field("body"), strict) {
            Ok(v) => v,
            Err(e) => {
                return Err(e);
            },
        };
        return Ok(Stmt::Block(list));
    }
    if j.is_kind("ExpressionStatement") {
        let e = match lower_expr(j.field("expression"), strict) {
            Ok(v) => v,
            Err(e) => {
                return Err(e);
            },
        };
        return Ok(Stmt::Expr(e));
    }
    if j.is_kind("VariableDeclaration") {
        let s = match lower_var_stmt(j, strict) {
            Ok(v) => v,
            Err(e) => {
                return Err(e);
            },
        };
        return Ok(s);
    }
    if j.is_kind("FunctionDeclaration") || j.is_kind("TSDeclareFunction") {
        let s = match lower_function_stmt(j, strict) {
            Ok(v) => v,
            Err(e) => {
                return Err(e);
            },
        };
        return Ok(s);
    }
    if j.is_kind("ClassDeclaration") {
        let s = match lower_class_stmt(j, strict) {
            Ok(v) => v,
            Err(e) => {
                return Err(e);
            },
        };
        return Ok(s);
    }
    if j.is_kind("IfStatement") {
        let s = match lower_if_stmt(j, strict) {
            Ok(v) => v,
            Err(e) => {
                return Err(e);
            },
        };
        return Ok(s);
    }
    if j.is_kind("ForStatement") || j.is_kind("ForInStatement") || j.is_kind("ForOfStatement") || j.is_kind("WhileStatement") || j.is_kind("DoWhileStatement") {
        let s = match lower_loop_stmt(j, strict) {
            Ok(v) => v,
            Err(e) => {
                return Err(e);
            },
        };
        return Ok(s);
    }
    if j.is_kind("SwitchStatement") || j.is_kind("TryStatement") || j.is_kind("WithStatement") || j.is_kind("LabeledStatement") {
        let s = match lower_block_stmt(j, strict) {
            Ok(v) => v,
            Err(e) => {
                return Err(e);
            },
        };
        return Ok(s);
    }
    if j.is_kind("ExportNamedDeclaration") || j.is_kind("ExportDefaultDeclaration") {
        let s = match lower_export_stmt(j, strict) {
            Ok(v) => v,
            Err(e) => {
                return Err(e);
            },
        };
        return Ok(s);
    }
    let s = match lower_jump_stmt(j, strict) {
        Ok(v) => v,
        Err(e) => {
            return Err(e);
        },
    };
    return Ok(s);
}

fn lower_jump_stmt(j: &Json, strict: bool) -> (r: Result<Stmt, Error>)
    ensures
        match r {
            Ok(v) => lowered(jump_stmt_of(j.tree(), strict), v.tree()),
            Err(e) => refused(jump_stmt_of(j.tree(), strict), e),
        },
    decreases height(j.tree()), 80int,
{
    proof {
        law_jump_stmt(j.tree(), strict);
    }
    if j.is_kind("BreakStatement") {
        let name = name_of(j.field("label"));
        return Ok(Stmt::Break(name));
    }
    if j.is_kind("ContinueStatement") {
        let name = name_of(j.field("label"));
        return Ok(Stmt::Continue(name));
    }
    if j.is_kind("ReturnStatement") {
        let e = if j.field("argument").is_null() {
            None
        } else {
            match lower_expr(j.field("argument"), strict) {
                Ok(v) => Some(v),
                Err(e) => {
                    return Err(e);
                },
            }
        };
        return Ok(Stmt::Return(e));
    }
    if j.is_kind("ThrowStatement") {
        let e = match lower_expr(j.field("argument"), strict) {
            Ok(v) => v,
            Err(e) => {
                return Err(e);
            },
        };
        return Ok(Stmt::Throw(e));
    }
    return Ok(Stmt::Empty);
}

fn lower_if_stmt(j: &Json, strict: bool) -> (r: Result<Stmt, Error>)
    ensures
        match r {
            Ok(v) => lowered(if_stmt_of(j.tree(), strict), v.tree()),
            Err(e) => refused(if_stmt_of(j.tree(), strict), e),
        },
    decreases height(j.tree()), 80int,
{
    proof {
        law_if_stmt(j.tree(), strict);
    }
    if j.is_kind("IfStatement") {
        let cond = match lower_expr(j.field("test"), strict) {
            Ok(v) => v,
            Err(e) => {
                return Err(e);
            },
        };
        let yes = match lower_branch(j.field("consequent"), strict) {
            Ok(v) => v,
            Err(e) => {
                return Err(e);
            },
        };
        if j.field("alternate").is_null() {
            let no = match lower_no_stmts(j, strict) {
                Ok(v) => v,
                Err(e) => {
                    return Err(e);
                },
            };
            return Ok(Stmt::If { cond, yes, no });
        }
        let no = match lower_branch(j.field("alternate"), strict) {
            Ok(v) => v,
            Err(e) => {
                return Err(e);
            },
        };
        return Ok(Stmt::If { cond, yes, no });
    }
    return Ok(Stmt::Empty);
}

fn lower_no_stmts(j: &Json, strict: bool) -> (r: Result<Vec<Stmt>, Error>)
    ensures
        match r {
            Ok(v) => lowered(no_stmts_of(j.tree(), strict), stmt_trees(v)),
            Err(e) => refused(no_stmts_of(j.tree(), strict), e),
        },
    decreases height(j.tree()), 10int,
{
    proof {
        law_no_stmts(j.tree(), strict);
    }
    let none: Vec<Stmt> = Vec::new();
    assert(stmt_trees(none) =~= Seq::empty());
    return Ok(none);
}

fn lower_loop_stmt(j: &Json, strict: bool) -> (r: Result<Stmt, Error>)
    ensures
        match r {
            Ok(v) => lowered(loop_stmt_of(j.tree(), strict), v.tree()),
            Err(e) => refused(loop_stmt_of(j.tree(), strict), e),
        },
    decreases height(j.tree()), 80int,
{
    proof {
        law_loop_stmt(j.tree(), strict);
    }
    if j.is_kind("ForStatement") {
        let s = match lower_for_stmt(j, strict) {
            Ok(v) => v,
            Err(e) => {
                return Err(e);
            },
        };
        return Ok(s);
    }
    if j.is_kind("ForInStatement") {
        let name = match lower_for_left(j.field("left"), strict) {
            Ok(v) => v,
            Err(e) => {
                return Err(e);
            },
        };
        let expr = match lower_expr(j.field("right"), strict) {
            Ok(v) => v,
            Err(e) => {
                return Err(e);
            },
        };
        let body = match lower_stmt_vec(j.field("body"), strict) {
            Ok(v) => v,
            Err(e) => {
                return Err(e);
            },
        };
        let kind = left_var_kind(j.field("left"));
        return Ok(Stmt::ForIn { kind, name, expr, body });
    }
    if j.is_kind("ForOfStatement") {
        if j.field("await").flag() {
            return Err(Error::Unimplemented(owned("for await is not implemented")));
        }
        let name = match lower_for_left(j.field("left"), strict) {
            Ok(v) => v,
            Err(e) => {
                return Err(e);
            },
        };
        let expr = match lower_expr(j.field("right"), strict) {
            Ok(v) => v,
            Err(e) => {
                return Err(e);
            },
        };
        let body = match lower_stmt_vec(j.field("body"), strict) {
            Ok(v) => v,
            Err(e) => {
                return Err(e);
            },
        };
        let kind = left_var_kind(j.field("left"));
        return Ok(Stmt::ForOf { kind, name, expr, body });
    }
    if j.is_kind("WhileStatement") {
        let cond = match lower_expr(j.field("test"), strict) {
            Ok(v) => v,
            Err(e) => {
                return Err(e);
            },
        };
        let body = match lower_stmt_vec(j.field("body"), strict) {
            Ok(v) => v,
            Err(e) => {
                return Err(e);
            },
        };
        return Ok(Stmt::While { cond, body });
    }
    if j.is_kind("DoWhileStatement") {
        let cond = match lower_expr(j.field("test"), strict) {
            Ok(v) => v,
            Err(e) => {
                return Err(e);
            },
        };
        let body = match lower_stmt_vec(j.field("body"), strict) {
            Ok(v) => v,
            Err(e) => {
                return Err(e);
            },
        };
        return Ok(Stmt::DoWhile { cond, body });
    }
    return Ok(Stmt::Empty);
}

fn lower_for_stmt(j: &Json, strict: bool) -> (r: Result<Stmt, Error>)
    ensures
        match r {
            Ok(v) => lowered(for_stmt_of(j.tree(), strict), v.tree()),
            Err(e) => refused(for_stmt_of(j.tree(), strict), e),
        },
    decreases height(j.tree()), 75int,
{
    proof {
        law_for_stmt(j.tree(), strict);
    }
    if j.is_kind("ForStatement") {
        if j.field("init").is_null() {
            let cond = if j.field("test").is_null() {
                None
            } else {
                match lower_expr(j.field("test"), strict) {
                    Ok(v) => Some(v),
                    Err(e) => {
                        return Err(e);
                    },
                }
            };
            let update = if j.field("update").is_null() {
                None
            } else {
                match lower_expr(j.field("update"), strict) {
                    Ok(v) => Some(v),
                    Err(e) => {
                        return Err(e);
                    },
                }
            };
            let body = match lower_stmt_vec(j.field("body"), strict) {
                Ok(v) => v,
                Err(e) => {
                    return Err(e);
                },
            };
            return Ok(Stmt::For { init: None, cond, update, body });
        }
        let init = match lower_for_init(j.field("init"), strict) {
            Ok(v) => v,
            Err(e) => {
                return Err(e);
            },
        };
        let cond = if j.field("test").is_null() {
            None
        } else {
            match lower_expr(j.field("test"), strict) {
                Ok(v) => Some(v),
                Err(e) => {
                    return Err(e);
                },
            }
        };
        let update = if j.field("update").is_null() {
            None
        } else {
            match lower_expr(j.field("update"), strict) {
                Ok(v) => Some(v),
                Err(e) => {
                    return Err(e);
                },
            }
        };
        let body = match lower_stmt_vec(j.field("body"), strict) {
            Ok(v) => v,
            Err(e) => {
                return Err(e);
            },
        };
        return Ok(Stmt::For { init: Some(Box::new(init)), cond, update, body });
    }
    return Ok(Stmt::Empty);
}

fn lower_for_init(j: &Json, strict: bool) -> (r: Result<Stmt, Error>)
    ensures
        match r {
            Ok(v) => lowered(for_init_of(j.tree(), strict), v.tree()),
            Err(e) => refused(for_init_of(j.tree(), strict), e),
        },
    decreases height(j.tree()), 75int,
{
    proof {
        law_for_init(j.tree(), strict);
    }
    if j.is_kind("VariableDeclaration") {
        let s = match lower_var_stmt(j, strict) {
            Ok(v) => v,
            Err(e) => {
                return Err(e);
            },
        };
        return Ok(s);
    }
    let e = match lower_expr(j, strict) {
        Ok(v) => v,
        Err(e) => {
            return Err(e);
        },
    };
    return Ok(Stmt::Expr(e));
}

fn lower_for_left(j: &Json, strict: bool) -> (r: Result<Pattern, Error>)
    ensures
        match r {
            Ok(v) => lowered(for_left_of(j.tree(), strict), v.tree()),
            Err(e) => refused(for_left_of(j.tree(), strict), e),
        },
    decreases height(j.tree()), 75int,
{
    proof {
        law_for_left(j.tree(), strict);
    }
    if j.is_kind("VariableDeclaration") {
        if j.field("declarations").item(0).is_null() {
            return Err(Error::Parse(owned("empty for-in initializer")));
        }
        let p = match lower_binding(j.field("declarations").item(0).field("id"), strict) {
            Ok(v) => v,
            Err(e) => {
                return Err(e);
            },
        };
        return Ok(p);
    }
    if j.is_kind("Identifier") || j.is_kind("ArrayPattern") || j.is_kind("ObjectPattern") || j.is_kind("MemberExpression") {
        let p = match lower_target_pattern(j, strict) {
            Ok(v) => v,
            Err(e) => {
                return Err(e);
            },
        };
        return Ok(p);
    }
    return Err(Error::Parse(owned("unsupported for-in/of left side")));
}

fn lower_block_stmt(j: &Json, strict: bool) -> (r: Result<Stmt, Error>)
    ensures
        match r {
            Ok(v) => lowered(block_stmt_of(j.tree(), strict), v.tree()),
            Err(e) => refused(block_stmt_of(j.tree(), strict), e),
        },
    decreases height(j.tree()), 80int,
{
    proof {
        law_block_stmt(j.tree(), strict);
    }
    if j.is_kind("SwitchStatement") {
        let discriminant = match lower_expr(j.field("discriminant"), strict) {
            Ok(v) => v,
            Err(e) => {
                return Err(e);
            },
        };
        let cases = match lower_cases(j.field("cases"), strict) {
            Ok(v) => v,
            Err(e) => {
                return Err(e);
            },
        };
        if redeclares(&cases, strict) {
            return Err(Error::Parse(owned("a name is declared twice in a switch")));
        }
        return Ok(Stmt::Switch { discriminant, cases });
    }
    if j.is_kind("TryStatement") {
        let try_block = match lower_stmts(j.field("block").field("body"), strict) {
            Ok(v) => v,
            Err(e) => {
                return Err(e);
            },
        };
        let catch = if j.field("handler").is_null() {
            None
        } else {
            match lower_catch_clause(j.field("handler"), strict) {
                Ok(v) => Some(v),
                Err(e) => {
                    return Err(e);
                },
            }
        };
        if j.field("finalizer").is_null() {
            return Ok(Stmt::Try { try_block, catch, finally: None });
        }
        let list = match lower_stmts(j.field("finalizer").field("body"), strict) {
            Ok(v) => v,
            Err(e) => {
                return Err(e);
            },
        };
        return Ok(Stmt::Try { try_block, catch, finally: Some(list) });
    }
    if j.is_kind("WithStatement") {
        let o = match lower_expr(j.field("object"), strict) {
            Ok(v) => v,
            Err(e) => {
                return Err(e);
            },
        };
        let body = match lower_stmt_vec(j.field("body"), strict) {
            Ok(v) => v,
            Err(e) => {
                return Err(e);
            },
        };
        return Ok(Stmt::Block(body));
    }
    if j.is_kind("LabeledStatement") {
        let body = match lower_stmt(j.field("body"), strict) {
            Ok(v) => v,
            Err(e) => {
                return Err(e);
            },
        };
        let label = j.field("label").field("name").text();
        return Ok(Stmt::Labeled { label, body: Box::new(body) });
    }
    return Ok(Stmt::Empty);
}

fn lower_cases(j: &Json, strict: bool) -> (r: Result<Vec<SwitchCase>, Error>)
    ensures
        match r {
            Ok(v) => lowered(cases_of(j.tree(), 0, Seq::empty(), strict), switch_case_trees(v)),
            Err(e) => refused(cases_of(j.tree(), 0, Seq::empty(), strict), e),
        },
    decreases height(j.tree()), 20int,
{
    let mut acc: Vec<SwitchCase> = Vec::new();
    assert(switch_case_trees(acc) =~= Seq::empty());
    let mut i: usize = 0;
    let ghost want = cases_of(j.tree(), 0, Seq::empty(), strict);
    let n = j.count();
    while i < n
        invariant
            i <= n,
            n == count(j.tree()),
            same(want, cases_of(j.tree(), i as int, switch_case_trees(acc), strict)),
            same(want, cases_of(j.tree(), 0, Seq::empty(), strict)),
        decreases n - i,
    {
        proof {
            law_cases(j.tree(), i as int, switch_case_trees(acc), strict);
        }
        let it = j.item(i);
        let test = if it.field("test").is_null() {
            None
        } else {
            match lower_expr(it.field("test"), strict) {
                Ok(v) => Some(v),
                Err(e) => {
                    return Err(e);
                },
            }
        };
        let body = match lower_stmts(it.field("consequent"), strict) {
            Ok(v) => v,
            Err(e) => {
                return Err(e);
            },
        };
        let node: SwitchCase = SwitchCase { test, body };
        let ghost tree = node.tree();
        let ghost before = switch_case_trees(acc);
        acc.push(node);
        assert(switch_case_trees(acc) =~= before.push(tree));
        i += 1;
        continue;
    }
    proof {
        law_cases(j.tree(), i as int, switch_case_trees(acc), strict);
    }
    Ok(acc)
}

fn lower_catch_clause(j: &Json, strict: bool) -> (r: Result<CatchClause, Error>)
    ensures
        match r {
            Ok(v) => lowered(catch_clause_of(j.tree(), strict), v.tree()),
            Err(e) => refused(catch_clause_of(j.tree(), strict), e),
        },
    decreases height(j.tree()), 25int,
{
    proof {
        law_catch_clause(j.tree(), strict);
    }
    let body = match lower_stmts(j.field("body").field("body"), strict) {
        Ok(v) => v,
        Err(e) => {
            return Err(e);
        },
    };
    if j.field("param").is_kind("Identifier") {
        let name = j.field("param").field("name").text();
        return Ok(CatchClause { name, body });
    }
    return Ok(CatchClause { name: owned(""), body });
}

fn lower_var_stmt(j: &Json, strict: bool) -> (r: Result<Stmt, Error>)
    ensures
        match r {
            Ok(v) => lowered(var_stmt_of(j.tree(), strict), v.tree()),
            Err(e) => refused(var_stmt_of(j.tree(), strict), e),
        },
    decreases height(j.tree()), 30int,
{
    proof {
        law_var_stmt(j.tree(), strict);
    }
    let list = match lower_declarators(j.field("declarations"), strict) {
        Ok(v) => v,
        Err(e) => {
            return Err(e);
        },
    };
    let kind = var_kind(j);
    return Ok(Stmt::Var(list, kind));
}

fn lower_declarators(j: &Json, strict: bool) -> (r: Result<Vec<Declarator>, Error>)
    ensures
        match r {
            Ok(v) => lowered(declarators_of(j.tree(), 0, Seq::empty(), strict), declarator_trees(v)),
            Err(e) => refused(declarators_of(j.tree(), 0, Seq::empty(), strict), e),
        },
    decreases height(j.tree()), 20int,
{
    let mut acc: Vec<Declarator> = Vec::new();
    assert(declarator_trees(acc) =~= Seq::empty());
    let mut i: usize = 0;
    let ghost want = declarators_of(j.tree(), 0, Seq::empty(), strict);
    let n = j.count();
    while i < n
        invariant
            i <= n,
            n == count(j.tree()),
            same(want, declarators_of(j.tree(), i as int, declarator_trees(acc), strict)),
            same(want, declarators_of(j.tree(), 0, Seq::empty(), strict)),
        decreases n - i,
    {
        proof {
            law_declarators(j.tree(), i as int, declarator_trees(acc), strict);
        }
        let it = j.item(i);
        let pat = match lower_binding(it.field("id"), strict) {
            Ok(v) => v,
            Err(e) => {
                return Err(e);
            },
        };
        let init = if it.field("init").is_null() {
            None
        } else {
            match lower_expr(it.field("init"), strict) {
                Ok(v) => Some(v),
                Err(e) => {
                    return Err(e);
                },
            }
        };
        let node: Declarator = Declarator { pat, init };
        let ghost tree = node.tree();
        let ghost before = declarator_trees(acc);
        acc.push(node);
        assert(declarator_trees(acc) =~= before.push(tree));
        i += 1;
        continue;
    }
    proof {
        law_declarators(j.tree(), i as int, declarator_trees(acc), strict);
    }
    Ok(acc)
}

fn lower_function_stmt(j: &Json, strict: bool) -> (r: Result<Stmt, Error>)
    ensures
        match r {
            Ok(v) => lowered(function_stmt_of(j.tree(), strict), v.tree()),
            Err(e) => refused(function_stmt_of(j.tree(), strict), e),
        },
    decreases height(j.tree()), 45int,
{
    proof {
        law_function_stmt(j.tree(), strict);
    }
    if j.field("id").is_null() {
        return Err(Error::Parse(owned("anonymous function declaration")));
    }
    let params = match lower_params(j, strict) {
        Ok(v) => v,
        Err(e) => {
            return Err(e);
        },
    };
    let body = match lower_function_body(j, strict) {
        Ok(v) => v,
        Err(e) => {
            return Err(e);
        },
    };
    let name = j.field("id").field("name").text();
    return Ok(Stmt::FunctionDecl { name, params, body });
}

fn lower_class_stmt(j: &Json, strict: bool) -> (r: Result<Stmt, Error>)
    ensures
        match r {
            Ok(v) => lowered(class_stmt_of(j.tree(), strict), v.tree()),
            Err(e) => refused(class_stmt_of(j.tree(), strict), e),
        },
    decreases height(j.tree()), 45int,
{
    proof {
        law_class_stmt(j.tree(), strict);
    }
    if j.field("id").is_null() {
        return Err(Error::Parse(owned("anonymous class declaration")));
    }
    let class = match lower_class(j, strict) {
        Ok(v) => v,
        Err(e) => {
            return Err(e);
        },
    };
    let init = Expr::Class(Box::new(class));
    let ghost _twin = init.tree();
    let name = j.field("id").field("name").text();
    let pat = Pattern::Ident(name);
    let ghost _twin = pat.tree();
    let d = Declarator { pat, init: Some(init) };
    let ghost _twin = d.tree();
    let list = single_declarator(d);
    return Ok(Stmt::Var(list, VarKind::Let));
}

fn lower_export_stmt(j: &Json, strict: bool) -> (r: Result<Stmt, Error>)
    ensures
        match r {
            Ok(v) => lowered(export_stmt_of(j.tree(), strict), v.tree()),
            Err(e) => refused(export_stmt_of(j.tree(), strict), e),
        },
    decreases height(j.tree()), 80int,
{
    proof {
        law_export_stmt(j.tree(), strict);
    }
    if j.is_kind("ExportNamedDeclaration") {
        let s = match lower_exported(j.field("declaration"), strict) {
            Ok(v) => v,
            Err(e) => {
                return Err(e);
            },
        };
        return Ok(s);
    }
    if j.is_kind("ExportDefaultDeclaration") {
        let s = match lower_default_export(j.field("declaration"), strict) {
            Ok(v) => v,
            Err(e) => {
                return Err(e);
            },
        };
        return Ok(s);
    }
    return Ok(Stmt::Empty);
}

fn lower_exported(j: &Json, strict: bool) -> (r: Result<Stmt, Error>)
    ensures
        match r {
            Ok(v) => lowered(exported_of(j.tree(), strict), v.tree()),
            Err(e) => refused(exported_of(j.tree(), strict), e),
        },
    decreases height(j.tree()), 50int,
{
    proof {
        law_exported(j.tree(), strict);
    }
    if j.is_kind("VariableDeclaration") {
        let s = match lower_var_stmt(j, strict) {
            Ok(v) => v,
            Err(e) => {
                return Err(e);
            },
        };
        return Ok(s);
    }
    if j.is_kind("FunctionDeclaration") || j.is_kind("TSDeclareFunction") {
        let s = match lower_function_stmt(j, strict) {
            Ok(v) => v,
            Err(e) => {
                return Err(e);
            },
        };
        return Ok(s);
    }
    if j.is_kind("ClassDeclaration") {
        let s = match lower_class_stmt(j, strict) {
            Ok(v) => v,
            Err(e) => {
                return Err(e);
            },
        };
        return Ok(s);
    }
    return Ok(Stmt::Empty);
}

fn lower_default_export(j: &Json, strict: bool) -> (r: Result<Stmt, Error>)
    ensures
        match r {
            Ok(v) => lowered(default_export_of(j.tree(), strict), v.tree()),
            Err(e) => refused(default_export_of(j.tree(), strict), e),
        },
    decreases height(j.tree()), 78int,
{
    proof {
        law_default_export(j.tree(), strict);
    }
    if j.is_kind("FunctionDeclaration") || j.is_kind("TSDeclareFunction") {
        let params = match lower_params(j, strict) {
            Ok(v) => v,
            Err(e) => {
                return Err(e);
            },
        };
        let body = match lower_function_body(j, strict) {
            Ok(v) => v,
            Err(e) => {
                return Err(e);
            },
        };
        if j.field("id").is_null() {
            let e = Expr::Function { name: None, params, body };
            let ghost _twin = e.tree();
            return Ok(Stmt::Expr(e));
        }
        let name = j.field("id").field("name").text();
        return Ok(Stmt::FunctionDecl { name, params, body });
    }
    if j.is_kind("ClassDeclaration") {
        let class = match lower_class(j, strict) {
            Ok(v) => v,
            Err(e) => {
                return Err(e);
            },
        };
        let e = Expr::Class(Box::new(class));
        let ghost _twin = e.tree();
        return Ok(Stmt::Expr(e));
    }
    if j.is_kind("TSInterfaceDeclaration") {
        return Ok(Stmt::Empty);
    }
    let e = match lower_expr(j, strict) {
        Ok(v) => v,
        Err(e) => {
            return Err(e);
        },
    };
    return Ok(Stmt::Expr(e));
}

fn lower_param_list(j: &Json, strict: bool) -> (r: Result<Vec<Pattern>, Error>)
    ensures
        match r {
            Ok(v) => lowered(param_list_of(j.tree(), 0, Seq::empty(), strict), pattern_trees(v)),
            Err(e) => refused(param_list_of(j.tree(), 0, Seq::empty(), strict), e),
        },
    decreases height(j.tree()), 20int,
{
    let mut acc: Vec<Pattern> = Vec::new();
    assert(pattern_trees(acc) =~= Seq::empty());
    let mut i: usize = 0;
    let ghost want = param_list_of(j.tree(), 0, Seq::empty(), strict);
    let n = j.count();
    while i < n
        invariant
            i <= n,
            n == count(j.tree()),
            same(want, param_list_of(j.tree(), i as int, pattern_trees(acc), strict)),
            same(want, param_list_of(j.tree(), 0, Seq::empty(), strict)),
        decreases n - i,
    {
        proof {
            law_param_list(j.tree(), i as int, pattern_trees(acc), strict);
        }
        let it = j.item(i);
        if it.is_kind("RestElement") {
            i += 1;
            continue;
        }
        let bound = if it.is_kind("AssignmentPattern") { it.field("left") } else { it };
        let p = match lower_binding(bound, strict) {
            Ok(v) => v,
            Err(e) => {
                return Err(e);
            },
        };
        let node: Pattern = p;
        let ghost tree = node.tree();
        let ghost before = pattern_trees(acc);
        acc.push(node);
        assert(pattern_trees(acc) =~= before.push(tree));
        i += 1;
        continue;
    }
    proof {
        law_param_list(j.tree(), i as int, pattern_trees(acc), strict);
    }
    Ok(acc)
}

fn lower_params(j: &Json, strict: bool) -> (r: Result<Vec<Pattern>, Error>)
    ensures
        match r {
            Ok(v) => lowered(params_of(j.tree(), strict), pattern_trees(v)),
            Err(e) => refused(params_of(j.tree(), strict), e),
        },
    decreases height(j.tree()), 25int,
{
    proof {
        law_params(j.tree(), strict);
    }
    let list = match lower_param_list(j.field("params"), strict) {
        Ok(v) => v,
        Err(e) => {
            return Err(e);
        },
    };
    return Ok(list);
}

fn lower_function_body(j: &Json, strict: bool) -> (r: Result<Vec<Stmt>, Error>)
    ensures
        match r {
            Ok(v) => lowered(function_body_of(j.tree(), strict), stmt_trees(v)),
            Err(e) => refused(function_body_of(j.tree(), strict), e),
        },
    decreases height(j.tree()), 25int,
{
    proof {
        law_function_body(j.tree(), strict);
    }
    let list = match lower_stmts(j.field("body").field("body"), strict) {
        Ok(v) => v,
        Err(e) => {
            return Err(e);
        },
    };
    if j.field("generator").flag() && j.field("async").flag() {
        return Err(Error::Unimplemented(owned("async generators are not implemented")));
    }
    let body = wrap(list, j.field("generator").flag(), j.field("async").flag());
    return Ok(body);
}

fn lower_arrow_body(j: &Json, strict: bool) -> (r: Result<Vec<Stmt>, Error>)
    ensures
        match r {
            Ok(v) => lowered(arrow_body_of(j.tree(), strict), stmt_trees(v)),
            Err(e) => refused(arrow_body_of(j.tree(), strict), e),
        },
    decreases height(j.tree()), 58int,
{
    proof {
        law_arrow_body(j.tree(), strict);
    }
    if j.is_kind("ArrowFunctionExpression") {
        if j.field("body").is_kind("BlockStatement") {
            let list = match lower_stmts(j.field("body").field("body"), strict) {
                Ok(v) => v,
                Err(e) => {
                    return Err(e);
                },
            };
            let body = wrap(list, false, j.field("async").flag());
            return Ok(body);
        }
        let e = match lower_expr(j.field("body"), strict) {
            Ok(v) => v,
            Err(e) => {
                return Err(e);
            },
        };
        let s = Stmt::Return(Some(e));
        let ghost _twin = s.tree();
        let list = single(s);
        let body = wrap(list, false, j.field("async").flag());
        return Ok(body);
    }
    let none: Vec<Stmt> = Vec::new();
    assert(stmt_trees(none) =~= Seq::empty());
    return Ok(none);
}

fn lower_expr(j: &Json, strict: bool) -> (r: Result<Expr, Error>)
    ensures
        match r {
            Ok(v) => lowered(expr_of(j.tree(), strict), v.tree()),
            Err(e) => refused(expr_of(j.tree(), strict), e),
        },
    decreases height(j.tree()), 70int,
{
    proof {
        law_expr(j.tree(), strict);
    }
    if j.is_kind("Identifier") {
        let name = j.field("name").text();
        return Ok(Expr::Ident(name));
    }
    if j.is_kind("Literal") {
        let l = match lower_literal(j, strict) {
            Ok(v) => v,
            Err(e) => {
                return Err(e);
            },
        };
        return Ok(Expr::Lit(l));
    }
    if j.is_kind("ThisExpression") {
        return Ok(Expr::This);
    }
    if j.is_kind("Super") {
        return Ok(Expr::Super);
    }
    if j.is_kind("MemberExpression") {
        let e = match lower_member_expr(j, strict) {
            Ok(v) => v,
            Err(e) => {
                return Err(e);
            },
        };
        return Ok(e);
    }
    if j.is_kind("CallExpression") || j.is_kind("NewExpression") {
        let e = match lower_call(j, strict) {
            Ok(v) => v,
            Err(e) => {
                return Err(e);
            },
        };
        return Ok(e);
    }
    if j.is_kind("AssignmentExpression") {
        let e = match lower_assignment(j, strict) {
            Ok(v) => v,
            Err(e) => {
                return Err(e);
            },
        };
        return Ok(e);
    }
    if j.is_kind("FunctionExpression") || j.is_kind("ArrowFunctionExpression") || j.is_kind("ClassExpression") {
        let e = match lower_closure(j, strict) {
            Ok(v) => v,
            Err(e) => {
                return Err(e);
            },
        };
        return Ok(e);
    }
    if j.is_kind("ArrayExpression") || j.is_kind("ObjectExpression") || j.is_kind("SequenceExpression") || j.is_kind("TemplateLiteral") || j.is_kind("TaggedTemplateExpression") {
        let e = match lower_collection(j, strict) {
            Ok(v) => v,
            Err(e) => {
                return Err(e);
            },
        };
        return Ok(e);
    }
    if j.is_kind("BinaryExpression") || j.is_kind("LogicalExpression") || j.is_kind("UnaryExpression") || j.is_kind("UpdateExpression") || j.is_kind("ConditionalExpression") {
        let e = match lower_operation(j, strict) {
            Ok(v) => v,
            Err(e) => {
                return Err(e);
            },
        };
        return Ok(e);
    }
    let e = match lower_other_expr(j, strict) {
        Ok(v) => v,
        Err(e) => {
            return Err(e);
        },
    };
    return Ok(e);
}

fn lower_literal(j: &Json, strict: bool) -> (r: Result<Lit, Error>)
    ensures
        match r {
            Ok(v) => lowered(literal_of(j.tree(), strict), v.tree()),
            Err(e) => refused(literal_of(j.tree(), strict), e),
        },
    decreases height(j.tree()), 10int,
{
    proof {
        law_literal(j.tree(), strict);
    }
    if j.field("bigint").is_string() {
        let t = j.field("bigint").text();
        return Ok(Lit::BigInt(t));
    }
    if !j.field("regex").is_null() {
        let pattern = j.field("regex").field("pattern").text();
        let flags = j.field("regex").field("flags").text();
        return Ok(Lit::Regex { pattern, flags });
    }
    if j.field("value").is_bool() {
        let b = j.field("value").flag();
        return Ok(Lit::Bool(b));
    }
    if j.field("value").is_number() {
        let t = j.field("value").number();
        return Ok(Lit::Number(t));
    }
    if j.field("value").is_string() {
        let t = j.field("value").text();
        return Ok(Lit::Str(t));
    }
    return Ok(Lit::Null);
}

fn lower_member_expr(j: &Json, strict: bool) -> (r: Result<Expr, Error>)
    ensures
        match r {
            Ok(v) => lowered(member_expr_of(j.tree(), strict), v.tree()),
            Err(e) => refused(member_expr_of(j.tree(), strict), e),
        },
    decreases height(j.tree()), 60int,
{
    proof {
        law_member_expr(j.tree(), strict);
    }
    if j.is_kind("MemberExpression") {
        let obj = match lower_expr(j.field("object"), strict) {
            Ok(v) => v,
            Err(e) => {
                return Err(e);
            },
        };
        if j.field("property").is_kind("PrivateIdentifier") {
            let prop = hash_name(j.field("property").field("name"));
            return Ok(Expr::Member { obj: Box::new(obj), prop, computed: None, optional: false });
        }
        let optional = j.field("optional").flag();
        if j.field("computed").flag() {
            let e = match lower_expr(j.field("property"), strict) {
                Ok(v) => v,
                Err(e) => {
                    return Err(e);
                },
            };
            return Ok(Expr::Member { obj: Box::new(obj), prop: owned(""), computed: Some(Box::new(e)), optional });
        }
        let prop = j.field("property").field("name").text();
        return Ok(Expr::Member { obj: Box::new(obj), prop, computed: None, optional });
    }
    return Err(Error::Parse(owned("unsupported expression")));
}

fn lower_args(j: &Json, strict: bool) -> (r: Result<Vec<Arg>, Error>)
    ensures
        match r {
            Ok(v) => lowered(args_of(j.tree(), 0, Seq::empty(), strict), arg_trees(v)),
            Err(e) => refused(args_of(j.tree(), 0, Seq::empty(), strict), e),
        },
    decreases height(j.tree()), 20int,
{
    let mut acc: Vec<Arg> = Vec::new();
    assert(arg_trees(acc) =~= Seq::empty());
    let mut i: usize = 0;
    let ghost want = args_of(j.tree(), 0, Seq::empty(), strict);
    let n = j.count();
    while i < n
        invariant
            i <= n,
            n == count(j.tree()),
            same(want, args_of(j.tree(), i as int, arg_trees(acc), strict)),
            same(want, args_of(j.tree(), 0, Seq::empty(), strict)),
        decreases n - i,
    {
        proof {
            law_args(j.tree(), i as int, arg_trees(acc), strict);
        }
        let it = j.item(i);
        if it.is_kind("SpreadElement") {
            let e = match lower_expr(it.field("argument"), strict) {
                Ok(v) => v,
                Err(e) => {
                    return Err(e);
                },
            };
            let node: Arg = Arg::Spread(e);
            let ghost tree = node.tree();
            let ghost before = arg_trees(acc);
            acc.push(node);
            assert(arg_trees(acc) =~= before.push(tree));
            i += 1;
            continue;
        }
        let e = match lower_expr(it, strict) {
            Ok(v) => v,
            Err(e) => {
                return Err(e);
            },
        };
        let node: Arg = Arg::Expr(e);
        let ghost tree = node.tree();
        let ghost before = arg_trees(acc);
        acc.push(node);
        assert(arg_trees(acc) =~= before.push(tree));
        i += 1;
        continue;
    }
    proof {
        law_args(j.tree(), i as int, arg_trees(acc), strict);
    }
    Ok(acc)
}

fn lower_call(j: &Json, strict: bool) -> (r: Result<Expr, Error>)
    ensures
        match r {
            Ok(v) => lowered(call_of(j.tree(), strict), v.tree()),
            Err(e) => refused(call_of(j.tree(), strict), e),
        },
    decreases height(j.tree()), 60int,
{
    proof {
        law_call(j.tree(), strict);
    }
    if j.is_kind("CallExpression") {
        let callee = match lower_expr(j.field("callee"), strict) {
            Ok(v) => v,
            Err(e) => {
                return Err(e);
            },
        };
        let args = match lower_args(j.field("arguments"), strict) {
            Ok(v) => v,
            Err(e) => {
                return Err(e);
            },
        };
        let optional = j.field("optional").flag();
        return Ok(Expr::Call { callee: Box::new(callee), args, optional });
    }
    if j.is_kind("NewExpression") {
        let callee = match lower_expr(j.field("callee"), strict) {
            Ok(v) => v,
            Err(e) => {
                return Err(e);
            },
        };
        let args = match lower_args(j.field("arguments"), strict) {
            Ok(v) => v,
            Err(e) => {
                return Err(e);
            },
        };
        return Ok(Expr::New { callee: Box::new(callee), args });
    }
    return Err(Error::Parse(owned("unsupported expression")));
}

fn lower_assignment(j: &Json, strict: bool) -> (r: Result<Expr, Error>)
    ensures
        match r {
            Ok(v) => lowered(assignment_of(j.tree(), strict), v.tree()),
            Err(e) => refused(assignment_of(j.tree(), strict), e),
        },
    decreases height(j.tree()), 60int,
{
    proof {
        law_assignment(j.tree(), strict);
    }
    if j.is_kind("AssignmentExpression") {
        let target = match lower_target(j.field("left"), strict) {
            Ok(v) => v,
            Err(e) => {
                return Err(e);
            },
        };
        let right = match lower_expr(j.field("right"), strict) {
            Ok(v) => v,
            Err(e) => {
                return Err(e);
            },
        };
        if j.field("operator").is_text("=") {
            return Ok(Expr::Assignment { target, value: Box::new(right) });
        }
        match find_compound_op(j.field("operator").text().as_str()) {
            Some(op) => {
                let left = match lower_target_expr(j.field("left"), strict) {
                    Ok(v) => v,
                    Err(e) => {
                        return Err(e);
                    },
                };
                let value = Expr::Binary { op, left: Box::new(left), right: Box::new(right) };
                let ghost _twin = value.tree();
                return Ok(Expr::Assignment { target, value: Box::new(value) });
            },
            None => {},
        }
        match find_logical_assign_op(j.field("operator").text().as_str()) {
            Some(op) => {
                let left = match lower_target_expr(j.field("left"), strict) {
                    Ok(v) => v,
                    Err(e) => {
                        return Err(e);
                    },
                };
                let value = Expr::Logical { op, left: Box::new(left), right: Box::new(right) };
                let ghost _twin = value.tree();
                return Ok(Expr::Assignment { target, value: Box::new(value) });
            },
            None => {},
        }
        return Err(Error::Parse(owned("compound assignment operator not supported")));
    }
    return Err(Error::Parse(owned("unsupported expression")));
}

fn lower_target_expr(j: &Json, strict: bool) -> (r: Result<Expr, Error>)
    ensures
        match r {
            Ok(v) => lowered(target_expr_of(j.tree(), strict), v.tree()),
            Err(e) => refused(target_expr_of(j.tree(), strict), e),
        },
    decreases height(j.tree()), 68int,
{
    proof {
        law_target_expr(j.tree(), strict);
    }
    if j.is_kind("ArrayPattern") || j.is_kind("ObjectPattern") {
        return Err(Error::Parse(owned("compound assignment to a pattern is not supported")));
    }
    let e = match lower_target_value(j, strict) {
        Ok(v) => v,
        Err(e) => {
            return Err(e);
        },
    };
    return Ok(e);
}

fn lower_target(j: &Json, strict: bool) -> (r: Result<AssignTarget, Error>)
    ensures
        match r {
            Ok(v) => lowered(target_of(j.tree(), strict), v.tree()),
            Err(e) => refused(target_of(j.tree(), strict), e),
        },
    decreases height(j.tree()), 68int,
{
    proof {
        law_target(j.tree(), strict);
    }
    if j.is_kind("ArrayPattern") || j.is_kind("ObjectPattern") {
        let p = match lower_target_pattern(j, strict) {
            Ok(v) => v,
            Err(e) => {
                return Err(e);
            },
        };
        return Ok(AssignTarget::Pattern(p));
    }
    let e = match lower_target_value(j, strict) {
        Ok(v) => v,
        Err(e) => {
            return Err(e);
        },
    };
    return Ok(AssignTarget::Expr(Box::new(e)));
}

fn lower_target_value(j: &Json, strict: bool) -> (r: Result<Expr, Error>)
    ensures
        match r {
            Ok(v) => lowered(target_value_of(j.tree(), strict), v.tree()),
            Err(e) => refused(target_value_of(j.tree(), strict), e),
        },
    decreases height(j.tree()), 66int,
{
    proof {
        law_target_value(j.tree(), strict);
    }
    if j.is_kind("Identifier") {
        let name = j.field("name").text();
        return Ok(Expr::Ident(name));
    }
    if j.is_kind("MemberExpression") {
        let e = match lower_member_expr(j, strict) {
            Ok(v) => v,
            Err(e) => {
                return Err(e);
            },
        };
        return Ok(e);
    }
    if j.is_kind("TSAsExpression") || j.is_kind("TSSatisfiesExpression") || j.is_kind("TSNonNullExpression") || j.is_kind("TSTypeAssertion") {
        let e = match lower_cast_target(j.field("expression"), strict) {
            Ok(v) => v,
            Err(e) => {
                return Err(e);
            },
        };
        return Ok(e);
    }
    return Err(Error::Parse(owned("unsupported assignment target (elem)")));
}

fn lower_cast_target(j: &Json, strict: bool) -> (r: Result<Expr, Error>)
    ensures
        match r {
            Ok(v) => lowered(cast_target_of(j.tree(), strict), v.tree()),
            Err(e) => refused(cast_target_of(j.tree(), strict), e),
        },
    decreases height(j.tree()), 66int,
{
    proof {
        law_cast_target(j.tree(), strict);
    }
    if j.is_kind("Identifier") {
        let name = j.field("name").text();
        return Ok(Expr::Ident(name));
    }
    if j.is_kind("MemberExpression") && !j.field("property").is_kind("PrivateIdentifier") {
        let e = match lower_member_expr(j, strict) {
            Ok(v) => v,
            Err(e) => {
                return Err(e);
            },
        };
        return Ok(e);
    }
    if j.is_kind("TSAsExpression") || j.is_kind("TSSatisfiesExpression") || j.is_kind("TSNonNullExpression") || j.is_kind("TSTypeAssertion") {
        let e = match lower_cast_target(j.field("expression"), strict) {
            Ok(v) => v,
            Err(e) => {
                return Err(e);
            },
        };
        return Ok(e);
    }
    return Err(Error::Parse(owned("unsupported assignment target (elem)")));
}

fn lower_closure(j: &Json, strict: bool) -> (r: Result<Expr, Error>)
    ensures
        match r {
            Ok(v) => lowered(closure_of(j.tree(), strict), v.tree()),
            Err(e) => refused(closure_of(j.tree(), strict), e),
        },
    decreases height(j.tree()), 60int,
{
    proof {
        law_closure(j.tree(), strict);
    }
    if j.is_kind("FunctionExpression") {
        let params = match lower_params(j, strict) {
            Ok(v) => v,
            Err(e) => {
                return Err(e);
            },
        };
        let body = match lower_function_body(j, strict) {
            Ok(v) => v,
            Err(e) => {
                return Err(e);
            },
        };
        let name = name_of(j.field("id"));
        return Ok(Expr::Function { name, params, body });
    }
    if j.is_kind("ArrowFunctionExpression") {
        let params = match lower_params(j, strict) {
            Ok(v) => v,
            Err(e) => {
                return Err(e);
            },
        };
        let body = match lower_arrow_body(j, strict) {
            Ok(v) => v,
            Err(e) => {
                return Err(e);
            },
        };
        return Ok(Expr::Arrow { params, body });
    }
    if j.is_kind("ClassExpression") {
        let class = match lower_class(j, strict) {
            Ok(v) => v,
            Err(e) => {
                return Err(e);
            },
        };
        return Ok(Expr::Class(Box::new(class)));
    }
    return Err(Error::Parse(owned("unsupported expression")));
}

fn lower_collection(j: &Json, strict: bool) -> (r: Result<Expr, Error>)
    ensures
        match r {
            Ok(v) => lowered(collection_of(j.tree(), strict), v.tree()),
            Err(e) => refused(collection_of(j.tree(), strict), e),
        },
    decreases height(j.tree()), 60int,
{
    proof {
        law_collection(j.tree(), strict);
    }
    if j.is_kind("ArrayExpression") {
        let list = match lower_elems(j.field("elements"), strict) {
            Ok(v) => v,
            Err(e) => {
                return Err(e);
            },
        };
        return Ok(Expr::Array(list));
    }
    if j.is_kind("ObjectExpression") {
        let list = match lower_props(j.field("properties"), strict) {
            Ok(v) => v,
            Err(e) => {
                return Err(e);
            },
        };
        return Ok(Expr::Object(list));
    }
    if j.is_kind("SequenceExpression") {
        let list = match lower_exprs(j.field("expressions"), strict) {
            Ok(v) => v,
            Err(e) => {
                return Err(e);
            },
        };
        return Ok(Expr::Sequence(list));
    }
    if j.is_kind("TemplateLiteral") {
        let t = quasi_text(j.field("quasis"), 0);
        let first = Expr::Lit(Lit::Str(t));
        let ghost _twin = first.tree();
        let e = match lower_template(j.field("expressions"), j.field("quasis"), first, strict) {
            Ok(v) => v,
            Err(e) => {
                return Err(e);
            },
        };
        return Ok(e);
    }
    if j.is_kind("TaggedTemplateExpression") {
        let tag = match lower_expr(j.field("tag"), strict) {
            Ok(v) => v,
            Err(e) => {
                return Err(e);
            },
        };
        let subs = match lower_exprs(j.field("quasi").field("expressions"), strict) {
            Ok(v) => v,
            Err(e) => {
                return Err(e);
            },
        };
        let cooked = match lower_cooked(j.field("quasi").field("quasis"), strict) {
            Ok(v) => v,
            Err(e) => {
                return Err(e);
            },
        };
        let raws = match lower_raws(j.field("quasi").field("quasis"), strict) {
            Ok(v) => v,
            Err(e) => {
                return Err(e);
            },
        };
        return Ok(Expr::Tagged { tag: Box::new(tag), cooked, raws, subs });
    }
    return Err(Error::Parse(owned("unsupported expression")));
}

fn lower_exprs(j: &Json, strict: bool) -> (r: Result<Vec<Expr>, Error>)
    ensures
        match r {
            Ok(v) => lowered(exprs_of(j.tree(), 0, Seq::empty(), strict), expr_trees(v)),
            Err(e) => refused(exprs_of(j.tree(), 0, Seq::empty(), strict), e),
        },
    decreases height(j.tree()), 20int,
{
    let mut acc: Vec<Expr> = Vec::new();
    assert(expr_trees(acc) =~= Seq::empty());
    let mut i: usize = 0;
    let ghost want = exprs_of(j.tree(), 0, Seq::empty(), strict);
    let n = j.count();
    while i < n
        invariant
            i <= n,
            n == count(j.tree()),
            same(want, exprs_of(j.tree(), i as int, expr_trees(acc), strict)),
            same(want, exprs_of(j.tree(), 0, Seq::empty(), strict)),
        decreases n - i,
    {
        proof {
            law_exprs(j.tree(), i as int, expr_trees(acc), strict);
        }
        let it = j.item(i);
        let e = match lower_expr(it, strict) {
            Ok(v) => v,
            Err(e) => {
                return Err(e);
            },
        };
        let node: Expr = e;
        let ghost tree = node.tree();
        let ghost before = expr_trees(acc);
        acc.push(node);
        assert(expr_trees(acc) =~= before.push(tree));
        i += 1;
        continue;
    }
    proof {
        law_exprs(j.tree(), i as int, expr_trees(acc), strict);
    }
    Ok(acc)
}

fn lower_cooked(j: &Json, strict: bool) -> (r: Result<Vec<Expr>, Error>)
    ensures
        match r {
            Ok(v) => lowered(cooked_of(j.tree(), 0, Seq::empty(), strict), expr_trees(v)),
            Err(e) => refused(cooked_of(j.tree(), 0, Seq::empty(), strict), e),
        },
    decreases height(j.tree()), 20int,
{
    let mut acc: Vec<Expr> = Vec::new();
    assert(expr_trees(acc) =~= Seq::empty());
    let mut i: usize = 0;
    let ghost want = cooked_of(j.tree(), 0, Seq::empty(), strict);
    let n = j.count();
    while i < n
        invariant
            i <= n,
            n == count(j.tree()),
            same(want, cooked_of(j.tree(), i as int, expr_trees(acc), strict)),
            same(want, cooked_of(j.tree(), 0, Seq::empty(), strict)),
        decreases n - i,
    {
        proof {
            law_cooked(j.tree(), i as int, expr_trees(acc), strict);
        }
        let it = j.item(i);
        let t = quasi_text(j, i);
        let e = Expr::Lit(Lit::Str(t));
        let ghost _twin = e.tree();
        let node: Expr = e;
        let ghost tree = node.tree();
        let ghost before = expr_trees(acc);
        acc.push(node);
        assert(expr_trees(acc) =~= before.push(tree));
        i += 1;
        continue;
    }
    proof {
        law_cooked(j.tree(), i as int, expr_trees(acc), strict);
    }
    Ok(acc)
}

fn lower_raws(j: &Json, strict: bool) -> (r: Result<Vec<String>, Error>)
    ensures
        match r {
            Ok(v) => lowered(raws_of(j.tree(), 0, Seq::empty(), strict), texts(v@)),
            Err(e) => refused(raws_of(j.tree(), 0, Seq::empty(), strict), e),
        },
    decreases height(j.tree()), 20int,
{
    let mut acc: Vec<String> = Vec::new();
    assert(texts(acc@) =~= Seq::empty());
    let mut i: usize = 0;
    let ghost want = raws_of(j.tree(), 0, Seq::empty(), strict);
    let n = j.count();
    while i < n
        invariant
            i <= n,
            n == count(j.tree()),
            same(want, raws_of(j.tree(), i as int, texts(acc@), strict)),
            same(want, raws_of(j.tree(), 0, Seq::empty(), strict)),
        decreases n - i,
    {
        proof {
            law_raws(j.tree(), i as int, texts(acc@), strict);
        }
        let it = j.item(i);
        let t = it.field("value").field("raw").text();
        let node: String = t;
        let ghost tree = node@;
        let ghost before = texts(acc@);
        acc.push(node);
        assert(texts(acc@) =~= before.push(tree));
        i += 1;
        continue;
    }
    proof {
        law_raws(j.tree(), i as int, texts(acc@), strict);
    }
    Ok(acc)
}

fn lower_template(j: &Json, quasis: &Json, first: Expr, strict: bool) -> (r: Result<Expr, Error>)
    ensures
        match r {
            Ok(v) => lowered(template_of(j.tree(), quasis.tree(), 0, first.tree(), strict), v.tree()),
            Err(e) => refused(template_of(j.tree(), quasis.tree(), 0, first.tree(), strict), e),
        },
    decreases height(j.tree()), 20int,
{
    let mut acc = first;
    let mut i: usize = 0;
    let ghost want = template_of(j.tree(), quasis.tree(), 0, first.tree(), strict);
    let n = j.count();
    while i < n
        invariant
            i <= n,
            n == count(j.tree()),
            same(want, template_of(j.tree(), quasis.tree(), i as int, acc.tree(), strict)),
            same(want, template_of(j.tree(), quasis.tree(), 0, first.tree(), strict)),
        decreases n - i,
    {
        proof {
            law_template(j.tree(), quasis.tree(), i as int, acc.tree(), strict);
        }
        let it = j.item(i);
        let e = match lower_expr(it, strict) {
            Ok(v) => v,
            Err(e) => {
                return Err(e);
            },
        };
        let text = Expr::ToString(Box::new(e));
        let ghost _twin = text.tree();
        let left = Expr::Binary { op: BinaryOp::Add, left: Box::new(acc), right: Box::new(text) };
        let ghost _twin = left.tree();
        let t = quasi_text(quasis, i + 1);
        let part = Expr::Lit(Lit::Str(t));
        let ghost _twin = part.tree();
        acc = Expr::Binary { op: BinaryOp::Add, left: Box::new(left), right: Box::new(part) };
        i += 1;
        continue;
    }
    proof {
        law_template(j.tree(), quasis.tree(), i as int, acc.tree(), strict);
    }
    Ok(acc)
}

fn lower_elems(j: &Json, strict: bool) -> (r: Result<Vec<ArrayElem>, Error>)
    ensures
        match r {
            Ok(v) => lowered(elems_of(j.tree(), 0, Seq::empty(), strict), array_elem_trees(v)),
            Err(e) => refused(elems_of(j.tree(), 0, Seq::empty(), strict), e),
        },
    decreases height(j.tree()), 20int,
{
    let mut acc: Vec<ArrayElem> = Vec::new();
    assert(array_elem_trees(acc) =~= Seq::empty());
    let mut i: usize = 0;
    let ghost want = elems_of(j.tree(), 0, Seq::empty(), strict);
    let n = j.count();
    while i < n
        invariant
            i <= n,
            n == count(j.tree()),
            same(want, elems_of(j.tree(), i as int, array_elem_trees(acc), strict)),
            same(want, elems_of(j.tree(), 0, Seq::empty(), strict)),
        decreases n - i,
    {
        proof {
            law_elems(j.tree(), i as int, array_elem_trees(acc), strict);
        }
        let it = j.item(i);
        if it.is_null() {
            let node: ArrayElem = ArrayElem::Elision;
            let ghost tree = node.tree();
            let ghost before = array_elem_trees(acc);
            acc.push(node);
            assert(array_elem_trees(acc) =~= before.push(tree));
            i += 1;
            continue;
        }
        if it.is_kind("SpreadElement") {
            let e = match lower_expr(it.field("argument"), strict) {
                Ok(v) => v,
                Err(e) => {
                    return Err(e);
                },
            };
            let node: ArrayElem = ArrayElem::Spread(e);
            let ghost tree = node.tree();
            let ghost before = array_elem_trees(acc);
            acc.push(node);
            assert(array_elem_trees(acc) =~= before.push(tree));
            i += 1;
            continue;
        }
        let e = match lower_expr(it, strict) {
            Ok(v) => v,
            Err(e) => {
                return Err(e);
            },
        };
        let node: ArrayElem = ArrayElem::Expr(e);
        let ghost tree = node.tree();
        let ghost before = array_elem_trees(acc);
        acc.push(node);
        assert(array_elem_trees(acc) =~= before.push(tree));
        i += 1;
        continue;
    }
    proof {
        law_elems(j.tree(), i as int, array_elem_trees(acc), strict);
    }
    Ok(acc)
}

fn lower_props(j: &Json, strict: bool) -> (r: Result<Vec<Prop>, Error>)
    ensures
        match r {
            Ok(v) => lowered(props_of(j.tree(), 0, Seq::empty(), strict), prop_trees(v)),
            Err(e) => refused(props_of(j.tree(), 0, Seq::empty(), strict), e),
        },
    decreases height(j.tree()), 20int,
{
    let mut acc: Vec<Prop> = Vec::new();
    assert(prop_trees(acc) =~= Seq::empty());
    let mut i: usize = 0;
    let ghost want = props_of(j.tree(), 0, Seq::empty(), strict);
    let n = j.count();
    while i < n
        invariant
            i <= n,
            n == count(j.tree()),
            same(want, props_of(j.tree(), i as int, prop_trees(acc), strict)),
            same(want, props_of(j.tree(), 0, Seq::empty(), strict)),
        decreases n - i,
    {
        proof {
            law_props(j.tree(), i as int, prop_trees(acc), strict);
        }
        let it = j.item(i);
        if it.is_kind("SpreadElement") {
            let e = match lower_expr(it.field("argument"), strict) {
                Ok(v) => v,
                Err(e) => {
                    return Err(e);
                },
            };
            let node: Prop = Prop::Spread(e);
            let ghost tree = node.tree();
            let ghost before = prop_trees(acc);
            acc.push(node);
            assert(prop_trees(acc) =~= before.push(tree));
            i += 1;
            continue;
        }
        let p = match lower_prop(it, strict) {
            Ok(v) => v,
            Err(e) => {
                return Err(e);
            },
        };
        let node: Prop = p;
        let ghost tree = node.tree();
        let ghost before = prop_trees(acc);
        acc.push(node);
        assert(prop_trees(acc) =~= before.push(tree));
        i += 1;
        continue;
    }
    proof {
        law_props(j.tree(), i as int, prop_trees(acc), strict);
    }
    Ok(acc)
}

fn lower_prop(j: &Json, strict: bool) -> (r: Result<Prop, Error>)
    ensures
        match r {
            Ok(v) => lowered(prop_of(j.tree(), strict), v.tree()),
            Err(e) => refused(prop_of(j.tree(), strict), e),
        },
    decreases height(j.tree()), 78int,
{
    proof {
        law_prop(j.tree(), strict);
    }
    let key = match lower_key(j, strict) {
        Ok(v) => v,
        Err(e) => {
            return Err(e);
        },
    };
    if j.field("method").flag() {
        if !j.field("value").is_kind("FunctionExpression") {
            return Err(Error::Parse(owned("expected function in method shorthand")));
        }
        let params = match lower_params(j.field("value"), strict) {
            Ok(v) => v,
            Err(e) => {
                return Err(e);
            },
        };
        let body = match lower_function_body(j.field("value"), strict) {
            Ok(v) => v,
            Err(e) => {
                return Err(e);
            },
        };
        return Ok(Prop::Method { key, params, body });
    }
    if j.field("kind").is_text("get") || j.field("kind").is_text("set") {
        if !j.field("value").is_kind("FunctionExpression") {
            return Err(Error::Parse(owned("expected function in method shorthand")));
        }
        let params = match lower_params(j.field("value"), strict) {
            Ok(v) => v,
            Err(e) => {
                return Err(e);
            },
        };
        let body = match lower_function_body(j.field("value"), strict) {
            Ok(v) => v,
            Err(e) => {
                return Err(e);
            },
        };
        if j.field("kind").is_text("get") {
            return Ok(Prop::Accessor { get: true, key, params, body });
        }
        return Ok(Prop::Accessor { get: false, key, params, body });
    }
    let value = match lower_expr(j.field("value"), strict) {
        Ok(v) => v,
        Err(e) => {
            return Err(e);
        },
    };
    return Ok(Prop::Init { key, value });
}

fn lower_key(j: &Json, strict: bool) -> (r: Result<PropKey, Error>)
    ensures
        match r {
            Ok(v) => lowered(key_of(j.tree(), strict), v.tree()),
            Err(e) => refused(key_of(j.tree(), strict), e),
        },
    decreases height(j.tree()), 76int,
{
    proof {
        law_key(j.tree(), strict);
    }
    if j.field("key").is_kind("Identifier") && !j.field("computed").flag() {
        let name = j.field("key").field("name").text();
        return Ok(PropKey::Ident(name));
    }
    if j.field("key").is_kind("PrivateIdentifier") {
        let name = hash_name(j.field("key").field("name"));
        return Ok(PropKey::Ident(name));
    }
    if j.field("key").is_kind("Literal") && j.field("key").field("value").is_string() {
        let name = j.field("key").field("value").text();
        return Ok(PropKey::Str(name));
    }
    if j.field("key").is_kind("Literal") && j.field("key").field("value").is_number() {
        let name = positional_text(j.field("key").field("value").number().as_str());
        return Ok(PropKey::Str(name));
    }
    let e = match lower_expr(j.field("key"), strict) {
        Ok(v) => v,
        Err(e) => {
            return Err(e);
        },
    };
    return Ok(PropKey::Computed(Box::new(e)));
}

fn lower_class(j: &Json, strict: bool) -> (r: Result<Class, Error>)
    ensures
        match r {
            Ok(v) => lowered(class_of(j.tree(), strict), v.tree()),
            Err(e) => refused(class_of(j.tree(), strict), e),
        },
    decreases height(j.tree()), 40int,
{
    proof {
        law_class(j.tree(), strict);
    }
    if j.is_kind("ClassDeclaration") || j.is_kind("ClassExpression") {
        let name = name_of(j.field("id"));
        if j.field("superClass").is_null() {
            let elements = match lower_class_elems(j.field("body").field("body"), strict) {
                Ok(v) => v,
                Err(e) => {
                    return Err(e);
                },
            };
            return Ok(Class { name, extends: None, elements });
        }
        let e = match lower_expr(j.field("superClass"), strict) {
            Ok(v) => v,
            Err(e) => {
                return Err(e);
            },
        };
        let elements = match lower_class_elems(j.field("body").field("body"), strict) {
            Ok(v) => v,
            Err(e) => {
                return Err(e);
            },
        };
        return Ok(Class { name, extends: Some(Box::new(e)), elements });
    }
    return Err(Error::Parse(owned("unsupported class")));
}

fn lower_class_elems(j: &Json, strict: bool) -> (r: Result<Vec<ClassElem>, Error>)
    ensures
        match r {
            Ok(v) => lowered(class_elems_of(j.tree(), 0, Seq::empty(), strict), class_elem_trees(v)),
            Err(e) => refused(class_elems_of(j.tree(), 0, Seq::empty(), strict), e),
        },
    decreases height(j.tree()), 20int,
{
    let mut acc: Vec<ClassElem> = Vec::new();
    assert(class_elem_trees(acc) =~= Seq::empty());
    let mut i: usize = 0;
    let ghost want = class_elems_of(j.tree(), 0, Seq::empty(), strict);
    let n = j.count();
    while i < n
        invariant
            i <= n,
            n == count(j.tree()),
            same(want, class_elems_of(j.tree(), i as int, class_elem_trees(acc), strict)),
            same(want, class_elems_of(j.tree(), 0, Seq::empty(), strict)),
        decreases n - i,
    {
        proof {
            law_class_elems(j.tree(), i as int, class_elem_trees(acc), strict);
        }
        let it = j.item(i);
        if it.is_kind("StaticBlock") || it.is_kind("TSIndexSignature") {
            i += 1;
            continue;
        }
        let e = match lower_class_elem(it, strict) {
            Ok(v) => v,
            Err(e) => {
                return Err(e);
            },
        };
        let node: ClassElem = e;
        let ghost tree = node.tree();
        let ghost before = class_elem_trees(acc);
        acc.push(node);
        assert(class_elem_trees(acc) =~= before.push(tree));
        i += 1;
        continue;
    }
    proof {
        law_class_elems(j.tree(), i as int, class_elem_trees(acc), strict);
    }
    Ok(acc)
}

fn lower_class_elem(j: &Json, strict: bool) -> (r: Result<ClassElem, Error>)
    ensures
        match r {
            Ok(v) => lowered(class_elem_of(j.tree(), strict), v.tree()),
            Err(e) => refused(class_elem_of(j.tree(), strict), e),
        },
    decreases height(j.tree()), 78int,
{
    proof {
        law_class_elem(j.tree(), strict);
    }
    let key = match lower_key(j, strict) {
        Ok(v) => v,
        Err(e) => {
            return Err(e);
        },
    };
    let is_static = j.field("static").flag();
    if j.is_kind("MethodDefinition") || j.is_kind("TSAbstractMethodDefinition") {
        let params = match lower_params(j.field("value"), strict) {
            Ok(v) => v,
            Err(e) => {
                return Err(e);
            },
        };
        let body = match lower_function_body(j.field("value"), strict) {
            Ok(v) => v,
            Err(e) => {
                return Err(e);
            },
        };
        if j.field("kind").is_text("constructor") {
            return Ok(ClassElem::Constructor { params, body });
        }
        if j.field("kind").is_text("get") {
            return Ok(ClassElem::Method { is_static, get: true, key, params, body });
        }
        return Ok(ClassElem::Method { is_static, get: false, key, params, body });
    }
    if j.is_kind("PropertyDefinition") || j.is_kind("TSAbstractPropertyDefinition") {
        let init = if j.field("value").is_null() {
            None
        } else {
            match lower_expr(j.field("value"), strict) {
                Ok(v) => Some(v),
                Err(e) => {
                    return Err(e);
                },
            }
        };
        return Ok(ClassElem::Field { is_static, key, init });
    }
    return Ok(ClassElem::AccessorProp { is_static, key });
}

fn lower_operation(j: &Json, strict: bool) -> (r: Result<Expr, Error>)
    ensures
        match r {
            Ok(v) => lowered(operation_of(j.tree(), strict), v.tree()),
            Err(e) => refused(operation_of(j.tree(), strict), e),
        },
    decreases height(j.tree()), 60int,
{
    proof {
        law_operation(j.tree(), strict);
    }
    if j.is_kind("BinaryExpression") {
        let e = match lower_binary(j, strict) {
            Ok(v) => v,
            Err(e) => {
                return Err(e);
            },
        };
        return Ok(e);
    }
    if j.is_kind("LogicalExpression") {
        match find_logical_op(j.field("operator").text().as_str()) {
            Some(op) => {
                let left = match lower_expr(j.field("left"), strict) {
                    Ok(v) => v,
                    Err(e) => {
                        return Err(e);
                    },
                };
                let right = match lower_expr(j.field("right"), strict) {
                    Ok(v) => v,
                    Err(e) => {
                        return Err(e);
                    },
                };
                return Ok(Expr::Logical { op, left: Box::new(left), right: Box::new(right) });
            },
            None => {},
        }
        return Err(Error::Parse(owned("logical operator not supported")));
    }
    if j.is_kind("UnaryExpression") {
        match find_unary_op(j.field("operator").text().as_str()) {
            Some(op) => {
                let operand = match lower_expr(j.field("argument"), strict) {
                    Ok(v) => v,
                    Err(e) => {
                        return Err(e);
                    },
                };
                return Ok(Expr::Unary { op, operand: Box::new(operand) });
            },
            None => {},
        }
        return Err(Error::Parse(owned("unary operator not supported")));
    }
    if j.is_kind("UpdateExpression") {
        let e = match lower_update(j, strict) {
            Ok(v) => v,
            Err(e) => {
                return Err(e);
            },
        };
        return Ok(e);
    }
    if j.is_kind("ConditionalExpression") {
        let cond = match lower_expr(j.field("test"), strict) {
            Ok(v) => v,
            Err(e) => {
                return Err(e);
            },
        };
        let yes = match lower_expr(j.field("consequent"), strict) {
            Ok(v) => v,
            Err(e) => {
                return Err(e);
            },
        };
        let no = match lower_expr(j.field("alternate"), strict) {
            Ok(v) => v,
            Err(e) => {
                return Err(e);
            },
        };
        return Ok(Expr::Ternary { cond: Box::new(cond), yes: Box::new(yes), no: Box::new(no) });
    }
    return Err(Error::Parse(owned("unsupported expression")));
}

fn lower_binary(j: &Json, strict: bool) -> (r: Result<Expr, Error>)
    ensures
        match r {
            Ok(v) => lowered(binary_of(j.tree(), strict), v.tree()),
            Err(e) => refused(binary_of(j.tree(), strict), e),
        },
    decreases height(j.tree()), 55int,
{
    proof {
        law_binary(j.tree(), strict);
    }
    if j.is_kind("BinaryExpression") {
        if j.field("left").is_kind("PrivateIdentifier") {
            let right = match lower_expr(j.field("right"), strict) {
                Ok(v) => v,
                Err(e) => {
                    return Err(e);
                },
            };
            let t = hash_name(j.field("left").field("name"));
            let left = Expr::Lit(Lit::Str(t));
            let ghost _twin = left.tree();
            return Ok(Expr::Binary { op: BinaryOp::In, left: Box::new(left), right: Box::new(right) });
        }
        if j.field("operator").is_text("instanceof") {
            let left = match lower_expr(j.field("left"), strict) {
                Ok(v) => v,
                Err(e) => {
                    return Err(e);
                },
            };
            let right = match lower_expr(j.field("right"), strict) {
                Ok(v) => v,
                Err(e) => {
                    return Err(e);
                },
            };
            return Ok(Expr::InstanceOf { left: Box::new(left), right: Box::new(right) });
        }
        match find_binary_op(j.field("operator").text().as_str()) {
            Some(op) => {
                let left = match lower_expr(j.field("left"), strict) {
                    Ok(v) => v,
                    Err(e) => {
                        return Err(e);
                    },
                };
                let right = match lower_expr(j.field("right"), strict) {
                    Ok(v) => v,
                    Err(e) => {
                        return Err(e);
                    },
                };
                return Ok(Expr::Binary { op, left: Box::new(left), right: Box::new(right) });
            },
            None => {},
        }
        return Err(Error::Parse(owned("binary operator not supported")));
    }
    return Err(Error::Parse(owned("unsupported expression")));
}

fn lower_update(j: &Json, strict: bool) -> (r: Result<Expr, Error>)
    ensures
        match r {
            Ok(v) => lowered(update_of(j.tree(), strict), v.tree()),
            Err(e) => refused(update_of(j.tree(), strict), e),
        },
    decreases height(j.tree()), 55int,
{
    proof {
        law_update(j.tree(), strict);
    }
    if j.is_kind("UpdateExpression") {
        let operand = match lower_expr(j.field("argument"), strict) {
            Ok(v) => v,
            Err(e) => {
                return Err(e);
            },
        };
        if j.field("operator").is_text("++") {
            if j.field("prefix").flag() {
                return Ok(Expr::Unary { op: UnaryOp::PreInc, operand: Box::new(operand) });
            }
            return Ok(Expr::Unary { op: UnaryOp::PostInc, operand: Box::new(operand) });
        }
        if j.field("prefix").flag() {
            return Ok(Expr::Unary { op: UnaryOp::PreDec, operand: Box::new(operand) });
        }
        return Ok(Expr::Unary { op: UnaryOp::PostDec, operand: Box::new(operand) });
    }
    return Err(Error::Parse(owned("unsupported expression")));
}

fn lower_other_expr(j: &Json, strict: bool) -> (r: Result<Expr, Error>)
    ensures
        match r {
            Ok(v) => lowered(other_expr_of(j.tree(), strict), v.tree()),
            Err(e) => refused(other_expr_of(j.tree(), strict), e),
        },
    decreases height(j.tree()), 60int,
{
    proof {
        law_other_expr(j.tree(), strict);
    }
    if j.is_kind("AwaitExpression") {
        let e = match lower_expr(j.field("argument"), strict) {
            Ok(v) => v,
            Err(e) => {
                return Err(e);
            },
        };
        return Ok(Expr::Await(Box::new(e)));
    }
    if j.is_kind("YieldExpression") {
        let delegated = j.field("delegate").flag();
        if j.field("argument").is_null() {
            return Ok(Expr::Yield { expr: None, delegated });
        }
        let e = match lower_expr(j.field("argument"), strict) {
            Ok(v) => v,
            Err(e) => {
                return Err(e);
            },
        };
        return Ok(Expr::Yield { expr: Some(Box::new(e)), delegated });
    }
    if j.is_kind("ParenthesizedExpression") || j.is_kind("ChainExpression") || j.is_kind("TSAsExpression") || j.is_kind("TSSatisfiesExpression") || j.is_kind("TSTypeAssertion") || j.is_kind("TSNonNullExpression") || j.is_kind("TSInstantiationExpression") {
        let e = match lower_expr(j.field("expression"), strict) {
            Ok(v) => v,
            Err(e) => {
                return Err(e);
            },
        };
        return Ok(e);
    }
    if j.is_kind("ImportExpression") || j.is_kind("MetaProperty") {
        return Ok(Expr::Lit(Lit::Undefined));
    }
    if j.is_kind("JSXElement") || j.is_kind("JSXFragment") {
        return Err(Error::Parse(owned("JSX runtime is not supported")));
    }
    if j.is_kind("V8IntrinsicExpression") {
        return Err(Error::Parse(owned("V8 intrinsics are not supported")));
    }
    return Err(Error::Parse(owned("unsupported expression")));
}

fn lower_binding(j: &Json, strict: bool) -> (r: Result<Pattern, Error>)
    ensures
        match r {
            Ok(v) => lowered(binding_of(j.tree(), strict), v.tree()),
            Err(e) => refused(binding_of(j.tree(), strict), e),
        },
    decreases height(j.tree()), 60int,
{
    proof {
        law_binding(j.tree(), strict);
    }
    if j.is_kind("Identifier") {
        let name = j.field("name").text();
        return Ok(Pattern::Ident(name));
    }
    if j.is_kind("ObjectPattern") {
        let props = match lower_binding_props(j.field("properties"), strict) {
            Ok(v) => v,
            Err(e) => {
                return Err(e);
            },
        };
        let p = match lower_binding_rest(j.field("properties"), strict) {
            Ok(v) => v,
            Err(e) => {
                return Err(e);
            },
        };
        let rest = boxed_pattern(p);
        return Ok(Pattern::Object { props, rest });
    }
    if j.is_kind("ArrayPattern") {
        let elems = match lower_binding_elems(j.field("elements"), strict) {
            Ok(v) => v,
            Err(e) => {
                return Err(e);
            },
        };
        let p = match lower_binding_rest(j.field("elements"), strict) {
            Ok(v) => v,
            Err(e) => {
                return Err(e);
            },
        };
        let rest = boxed_pattern(p);
        return Ok(Pattern::Array { elems, rest });
    }
    if j.is_kind("AssignmentPattern") {
        let inner = match lower_binding(j.field("left"), strict) {
            Ok(v) => v,
            Err(e) => {
                return Err(e);
            },
        };
        let default = match lower_expr(j.field("right"), strict) {
            Ok(v) => v,
            Err(e) => {
                return Err(e);
            },
        };
        return Ok(Pattern::Default { inner: Box::new(inner), default: Box::new(default) });
    }
    return Err(Error::Parse(owned("unsupported binding pattern")));
}

fn lower_binding_props(j: &Json, strict: bool) -> (r: Result<Vec<PropPattern>, Error>)
    ensures
        match r {
            Ok(v) => lowered(binding_props_of(j.tree(), 0, Seq::empty(), strict), prop_pattern_trees(v)),
            Err(e) => refused(binding_props_of(j.tree(), 0, Seq::empty(), strict), e),
        },
    decreases height(j.tree()), 20int,
{
    let mut acc: Vec<PropPattern> = Vec::new();
    assert(prop_pattern_trees(acc) =~= Seq::empty());
    let mut i: usize = 0;
    let ghost want = binding_props_of(j.tree(), 0, Seq::empty(), strict);
    let n = j.count();
    while i < n
        invariant
            i <= n,
            n == count(j.tree()),
            same(want, binding_props_of(j.tree(), i as int, prop_pattern_trees(acc), strict)),
            same(want, binding_props_of(j.tree(), 0, Seq::empty(), strict)),
        decreases n - i,
    {
        proof {
            law_binding_props(j.tree(), i as int, prop_pattern_trees(acc), strict);
        }
        let it = j.item(i);
        if it.is_kind("RestElement") {
            i += 1;
            continue;
        }
        let key = match lower_key(it, strict) {
            Ok(v) => v,
            Err(e) => {
                return Err(e);
            },
        };
        let value = match lower_binding(it.field("value"), strict) {
            Ok(v) => v,
            Err(e) => {
                return Err(e);
            },
        };
        let node: PropPattern = PropPattern { key, value };
        let ghost tree = node.tree();
        let ghost before = prop_pattern_trees(acc);
        acc.push(node);
        assert(prop_pattern_trees(acc) =~= before.push(tree));
        i += 1;
        continue;
    }
    proof {
        law_binding_props(j.tree(), i as int, prop_pattern_trees(acc), strict);
    }
    Ok(acc)
}

fn lower_binding_elems(j: &Json, strict: bool) -> (r: Result<Vec<Option<Pattern>>, Error>)
    ensures
        match r {
            Ok(v) => lowered(binding_elems_of(j.tree(), 0, Seq::empty(), strict), opt_pattern_trees(v)),
            Err(e) => refused(binding_elems_of(j.tree(), 0, Seq::empty(), strict), e),
        },
    decreases height(j.tree()), 20int,
{
    let mut acc: Vec<Option<Pattern>> = Vec::new();
    assert(opt_pattern_trees(acc) =~= Seq::empty());
    let mut i: usize = 0;
    let ghost want = binding_elems_of(j.tree(), 0, Seq::empty(), strict);
    let n = j.count();
    while i < n
        invariant
            i <= n,
            n == count(j.tree()),
            same(want, binding_elems_of(j.tree(), i as int, opt_pattern_trees(acc), strict)),
            same(want, binding_elems_of(j.tree(), 0, Seq::empty(), strict)),
        decreases n - i,
    {
        proof {
            law_binding_elems(j.tree(), i as int, opt_pattern_trees(acc), strict);
        }
        let it = j.item(i);
        if it.is_null() {
            let node: Option<Pattern> = None;
            let ghost tree = opt_tree(node);
            let ghost before = opt_pattern_trees(acc);
            acc.push(node);
            assert(opt_pattern_trees(acc) =~= before.push(tree));
            i += 1;
            continue;
        }
        if it.is_kind("RestElement") {
            i += 1;
            continue;
        }
        let p = match lower_binding(it, strict) {
            Ok(v) => v,
            Err(e) => {
                return Err(e);
            },
        };
        let node: Option<Pattern> = Some(p);
        let ghost tree = opt_tree(node);
        let ghost before = opt_pattern_trees(acc);
        acc.push(node);
        assert(opt_pattern_trees(acc) =~= before.push(tree));
        i += 1;
        continue;
    }
    proof {
        law_binding_elems(j.tree(), i as int, opt_pattern_trees(acc), strict);
    }
    Ok(acc)
}

fn lower_binding_rest(j: &Json, strict: bool) -> (r: Result<Option<Pattern>, Error>)
    ensures
        match r {
            Ok(v) => lowered(binding_rest_of(j.tree(), strict), (match v { Some(v) => Some(v.tree()), None => None })),
            Err(e) => refused(binding_rest_of(j.tree(), strict), e),
        },
    decreases height(j.tree()), 65int,
{
    proof {
        law_binding_rest(j.tree(), strict);
    }
    if last_of(j).is_kind("RestElement") {
        let p = match lower_binding(last_of(j).field("argument"), strict) {
            Ok(v) => v,
            Err(e) => {
                return Err(e);
            },
        };
        return Ok(Some(p));
    }
    return Ok(None);
}

fn lower_target_pattern(j: &Json, strict: bool) -> (r: Result<Pattern, Error>)
    ensures
        match r {
            Ok(v) => lowered(target_pattern_of(j.tree(), strict), v.tree()),
            Err(e) => refused(target_pattern_of(j.tree(), strict), e),
        },
    decreases height(j.tree()), 62int,
{
    proof {
        law_target_pattern(j.tree(), strict);
    }
    if j.is_kind("Identifier") {
        let name = j.field("name").text();
        return Ok(Pattern::Ident(name));
    }
    if j.is_kind("ArrayPattern") {
        let elems = match lower_target_elems(j.field("elements"), strict) {
            Ok(v) => v,
            Err(e) => {
                return Err(e);
            },
        };
        let p = match lower_target_rest(j.field("elements"), strict) {
            Ok(v) => v,
            Err(e) => {
                return Err(e);
            },
        };
        let rest = boxed_pattern(p);
        return Ok(Pattern::Array { elems, rest });
    }
    if j.is_kind("ObjectPattern") {
        let props = match lower_target_props(j.field("properties"), strict) {
            Ok(v) => v,
            Err(e) => {
                return Err(e);
            },
        };
        let p = match lower_target_rest(j.field("properties"), strict) {
            Ok(v) => v,
            Err(e) => {
                return Err(e);
            },
        };
        let rest = boxed_pattern(p);
        return Ok(Pattern::Object { props, rest });
    }
    if j.is_kind("MemberExpression") {
        let e = match lower_member_expr(j, strict) {
            Ok(v) => v,
            Err(e) => {
                return Err(e);
            },
        };
        return Ok(Pattern::Member(Box::new(e)));
    }
    return Err(Error::Parse(owned("unsupported assignment target (elem)")));
}

fn lower_target_elem(j: &Json, strict: bool) -> (r: Result<Pattern, Error>)
    ensures
        match r {
            Ok(v) => lowered(target_elem_of(j.tree(), strict), v.tree()),
            Err(e) => refused(target_elem_of(j.tree(), strict), e),
        },
    decreases height(j.tree()), 64int,
{
    proof {
        law_target_elem(j.tree(), strict);
    }
    if j.is_kind("AssignmentPattern") {
        let p = match lower_target_pattern(j.field("left"), strict) {
            Ok(v) => v,
            Err(e) => {
                return Err(e);
            },
        };
        return Ok(p);
    }
    if j.is_kind("TSAsExpression") || j.is_kind("TSSatisfiesExpression") || j.is_kind("TSNonNullExpression") || j.is_kind("TSTypeAssertion") {
        let p = match lower_cast_pattern(j.field("expression"), strict) {
            Ok(v) => v,
            Err(e) => {
                return Err(e);
            },
        };
        return Ok(p);
    }
    let p = match lower_target_pattern(j, strict) {
        Ok(v) => v,
        Err(e) => {
            return Err(e);
        },
    };
    return Ok(p);
}

fn lower_cast_pattern(j: &Json, strict: bool) -> (r: Result<Pattern, Error>)
    ensures
        match r {
            Ok(v) => lowered(cast_pattern_of(j.tree(), strict), v.tree()),
            Err(e) => refused(cast_pattern_of(j.tree(), strict), e),
        },
    decreases height(j.tree()), 64int,
{
    proof {
        law_cast_pattern(j.tree(), strict);
    }
    if j.is_kind("Identifier") {
        let name = j.field("name").text();
        return Ok(Pattern::Ident(name));
    }
    if j.is_kind("MemberExpression") && !j.field("property").is_kind("PrivateIdentifier") {
        let e = match lower_member_expr(j, strict) {
            Ok(v) => v,
            Err(e) => {
                return Err(e);
            },
        };
        return Ok(Pattern::Member(Box::new(e)));
    }
    if j.is_kind("TSAsExpression") || j.is_kind("TSSatisfiesExpression") || j.is_kind("TSNonNullExpression") || j.is_kind("TSTypeAssertion") {
        let p = match lower_cast_pattern(j.field("expression"), strict) {
            Ok(v) => v,
            Err(e) => {
                return Err(e);
            },
        };
        return Ok(p);
    }
    return Err(Error::Parse(owned("unsupported assignment target (elem)")));
}

fn lower_target_elems(j: &Json, strict: bool) -> (r: Result<Vec<Option<Pattern>>, Error>)
    ensures
        match r {
            Ok(v) => lowered(target_elems_of(j.tree(), 0, Seq::empty(), strict), opt_pattern_trees(v)),
            Err(e) => refused(target_elems_of(j.tree(), 0, Seq::empty(), strict), e),
        },
    decreases height(j.tree()), 20int,
{
    let mut acc: Vec<Option<Pattern>> = Vec::new();
    assert(opt_pattern_trees(acc) =~= Seq::empty());
    let mut i: usize = 0;
    let ghost want = target_elems_of(j.tree(), 0, Seq::empty(), strict);
    let n = j.count();
    while i < n
        invariant
            i <= n,
            n == count(j.tree()),
            same(want, target_elems_of(j.tree(), i as int, opt_pattern_trees(acc), strict)),
            same(want, target_elems_of(j.tree(), 0, Seq::empty(), strict)),
        decreases n - i,
    {
        proof {
            law_target_elems(j.tree(), i as int, opt_pattern_trees(acc), strict);
        }
        let it = j.item(i);
        if it.is_null() {
            let node: Option<Pattern> = None;
            let ghost tree = opt_tree(node);
            let ghost before = opt_pattern_trees(acc);
            acc.push(node);
            assert(opt_pattern_trees(acc) =~= before.push(tree));
            i += 1;
            continue;
        }
        if it.is_kind("RestElement") {
            i += 1;
            continue;
        }
        let p = match lower_target_elem(it, strict) {
            Ok(v) => v,
            Err(e) => {
                return Err(e);
            },
        };
        let node: Option<Pattern> = Some(p);
        let ghost tree = opt_tree(node);
        let ghost before = opt_pattern_trees(acc);
        acc.push(node);
        assert(opt_pattern_trees(acc) =~= before.push(tree));
        i += 1;
        continue;
    }
    proof {
        law_target_elems(j.tree(), i as int, opt_pattern_trees(acc), strict);
    }
    Ok(acc)
}

fn lower_target_props(j: &Json, strict: bool) -> (r: Result<Vec<PropPattern>, Error>)
    ensures
        match r {
            Ok(v) => lowered(target_props_of(j.tree(), 0, Seq::empty(), strict), prop_pattern_trees(v)),
            Err(e) => refused(target_props_of(j.tree(), 0, Seq::empty(), strict), e),
        },
    decreases height(j.tree()), 20int,
{
    let mut acc: Vec<PropPattern> = Vec::new();
    assert(prop_pattern_trees(acc) =~= Seq::empty());
    let mut i: usize = 0;
    let ghost want = target_props_of(j.tree(), 0, Seq::empty(), strict);
    let n = j.count();
    while i < n
        invariant
            i <= n,
            n == count(j.tree()),
            same(want, target_props_of(j.tree(), i as int, prop_pattern_trees(acc), strict)),
            same(want, target_props_of(j.tree(), 0, Seq::empty(), strict)),
        decreases n - i,
    {
        proof {
            law_target_props(j.tree(), i as int, prop_pattern_trees(acc), strict);
        }
        let it = j.item(i);
        if it.is_kind("RestElement") {
            i += 1;
            continue;
        }
        if it.field("shorthand").flag() {
            let name = it.field("key").field("name").text();
            let key = PropKey::Ident(name);
            let ghost _twin = key.tree();
            let again = it.field("key").field("name").text();
            let value = Pattern::Ident(again);
            let ghost _twin = value.tree();
            let node: PropPattern = PropPattern { key, value };
            let ghost tree = node.tree();
            let ghost before = prop_pattern_trees(acc);
            acc.push(node);
            assert(prop_pattern_trees(acc) =~= before.push(tree));
            i += 1;
            continue;
        }
        let key = match lower_key(it, strict) {
            Ok(v) => v,
            Err(e) => {
                return Err(e);
            },
        };
        let value = match lower_target_elem(it.field("value"), strict) {
            Ok(v) => v,
            Err(e) => {
                return Err(e);
            },
        };
        let node: PropPattern = PropPattern { key, value };
        let ghost tree = node.tree();
        let ghost before = prop_pattern_trees(acc);
        acc.push(node);
        assert(prop_pattern_trees(acc) =~= before.push(tree));
        i += 1;
        continue;
    }
    proof {
        law_target_props(j.tree(), i as int, prop_pattern_trees(acc), strict);
    }
    Ok(acc)
}

fn lower_target_rest(j: &Json, strict: bool) -> (r: Result<Option<Pattern>, Error>)
    ensures
        match r {
            Ok(v) => lowered(target_rest_of(j.tree(), strict), (match v { Some(v) => Some(v.tree()), None => None })),
            Err(e) => refused(target_rest_of(j.tree(), strict), e),
        },
    decreases height(j.tree()), 65int,
{
    proof {
        law_target_rest(j.tree(), strict);
    }
    if last_of(j).is_kind("RestElement") {
        let p = match lower_target_pattern(last_of(j).field("argument"), strict) {
            Ok(v) => v,
            Err(e) => {
                return Err(e);
            },
        };
        return Ok(Some(p));
    }
    return Ok(None);
}

/// Lowers a whole script, given as the JSON of its syntax tree.
pub fn lower_program(j: &Json) -> (r: Result<Program, Error>)
    ensures
        match r {
            Ok(p) => lowered(program_of(j.tree()), p.tree()),
            Err(e) => refused(program_of(j.tree()), e),
        },
{
    let body = j.field("body");
    let strict = is_strict(body);
    match lower_stmts(body, strict) {
        Ok(stmts) => Ok(Program { stmts, strict }),
        Err(e) => Err(e),
    }
}

fn is_strict(j: &Json) -> (r: bool)
    ensures
        r == use_strict(j.tree(), 0),
{
    let n = j.count();
    let mut i: usize = 0;
    while i < n
        invariant
            i <= n,
            n == count(j.tree()),
            use_strict(j.tree(), 0) == use_strict(j.tree(), i as int),
        decreases n - i,
    {
        let d = j.item(i);
        if d.field("directive").is_string() && d.field("expression").field("value").is_text("use strict") {
            return true;
        }
        i += 1;
    }
    false
}

} // verus!
