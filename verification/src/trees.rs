//! How a parsed program becomes the tree that the machine runs: what each kind of node
//! keeps of its parts.
use vstd::prelude::*;
use crate::ast::{
    ArgTree, ArrayElemTree, AssignTargetTree, BinaryOp, CatchClauseTree, ClassElemTree, ClassTree, DeclaratorTree, ExprTree, LitTree, LogicalOp, PatternTree, PropKeyTree, PropPatternTree,
    PropTree, StmtTree, SwitchCaseTree, UnaryOp, VarKind,
};
use crate::error::ErrorView;
use crate::json::{count, field, flag, is_kind, item, text_in, JsonTree};
use crate::lowering::{args_of, binding_elems_of, binding_of, binding_props_of, binding_rest_of, branch_of, cases_of, catch_clause_of, class_elem_of, class_elems_of, declarators_of, elems_of, expr_of, exprs_of, for_init_of, for_left_of, function_body_of, key_of, law_args, law_arrow_body, law_assignment, law_binary, law_binding, law_binding_rest, law_block_stmt, law_call, law_cases, law_class, law_class_elem, law_closure, law_collection, law_declarators, law_elems, law_expr, law_exprs, law_for_stmt, law_function_body, law_function_stmt, law_if_stmt, law_jump_stmt, law_key, law_literal, law_loop_stmt, law_member_expr, law_no_stmts, law_operation, law_other_expr, law_prop, law_props, law_stmt, law_template, law_update, law_var_stmt, left_kind, params_of, prop_of, props_of, quasi, stmt_of, stmt_vec_of, stmts_of, target_expr_of, target_of};
use crate::scope::redeclared;
use crate::tables::{computes, law_binary_symbols, law_compound_symbols, law_logical_symbols, law_prefix_symbols, logical_symbol, prefix_symbol, symbol};

verus! {

/// Whether a tree is that of an argument.
pub open spec fn is_argument(j: JsonTree, strict: bool, a: ArgTree) -> bool {
    match a {
        ArgTree::Spread(e) => is_kind(j, "SpreadElement"@) && expr_of(field(j, "argument"@), strict) == Ok::<_, ErrorView>(e),
        ArgTree::Expr(e) => !is_kind(j, "SpreadElement"@) && expr_of(j, strict) == Ok::<_, ErrorView>(e),
    }
}

/// Whether a tree is that of an element of an array literal.
pub open spec fn is_element(j: JsonTree, strict: bool, a: ArrayElemTree) -> bool {
    match a {
        ArrayElemTree::Elision => j is Null,
        ArrayElemTree::Spread(e) => is_kind(j, "SpreadElement"@) && expr_of(field(j, "argument"@), strict) == Ok::<_, ErrorView>(e),
        ArrayElemTree::Expr(e) => !(j is Null) && !is_kind(j, "SpreadElement"@) && expr_of(j, strict) == Ok::<_, ErrorView>(e),
    }
}

/// Whether a tree is that of a property of an object literal.
pub open spec fn is_property(j: JsonTree, strict: bool, p: PropTree) -> bool {
    if is_kind(j, "SpreadElement"@) {
        p matches PropTree::Spread(e) && expr_of(field(j, "argument"@), strict) == Ok::<_, ErrorView>(e)
    } else {
        prop_of(j, strict) == Ok::<_, ErrorView>(p)
    }
}

/// Whether a tree is that of a clause of a `switch`.
pub open spec fn is_clause(j: JsonTree, strict: bool, c: SwitchCaseTree) -> bool {
    &&& stmts_of(field(j, "consequent"@), 0, Seq::empty(), strict) == Ok::<_, ErrorView>(c.body)
    &&& match c.test {
        Some(e) => !(field(j, "test"@) is Null) && expr_of(field(j, "test"@), strict) == Ok::<_, ErrorView>(e),
        None => field(j, "test"@) is Null,
    }
}

/// Whether a tree is that of a declarator.
pub open spec fn is_declarator(j: JsonTree, strict: bool, d: DeclaratorTree) -> bool {
    &&& binding_of(field(j, "id"@), strict) == Ok::<_, ErrorView>(d.pat)
    &&& match d.init {
        Some(e) => !(field(j, "init"@) is Null) && expr_of(field(j, "init"@), strict) == Ok::<_, ErrorView>(e),
        None => field(j, "init"@) is Null,
    }
}

proof fn lemma_not_instanceof(op: BinaryOp)
    ensures
        symbol(op) != "instanceof"@,
        symbol(op).len() <= 3,
        symbol(op).len() > 0,
{
    reveal_strlit("instanceof");
    assert("instanceof"@.len() == 10);
    reveal_strlit("==");
    reveal_strlit("!=");
    reveal_strlit("===");
    reveal_strlit("!==");
    reveal_strlit("<");
    reveal_strlit(">");
    reveal_strlit("<=");
    reveal_strlit(">=");
    reveal_strlit("+");
    reveal_strlit("-");
    reveal_strlit("*");
    reveal_strlit("/");
    reveal_strlit("%");
    reveal_strlit("in");
    reveal_strlit("&");
    reveal_strlit("|");
    reveal_strlit("^");
    reveal_strlit("<<");
    reveal_strlit(">>");
    reveal_strlit(">>>");
    reveal_strlit("**");
    assert("=="@.len() == 2);
    assert("!="@.len() == 2);
    assert("==="@.len() == 3);
    assert("!=="@.len() == 3);
    assert("<"@.len() == 1);
    assert(">"@.len() == 1);
    assert("<="@.len() == 2);
    assert(">="@.len() == 2);
    assert("+"@.len() == 1);
    assert("-"@.len() == 1);
    assert("*"@.len() == 1);
    assert("/"@.len() == 1);
    assert("%"@.len() == 1);
    assert("in"@.len() == 2);
    assert("&"@.len() == 1);
    assert("|"@.len() == 1);
    assert("^"@.len() == 1);
    assert("<<"@.len() == 2);
    assert(">>"@.len() == 2);
    assert(">>>"@.len() == 3);
    assert("**"@.len() == 2);
}

proof fn lemma_not_plain(op: BinaryOp)
    ensures
        symbol(op).push('=') != "="@,
{
    lemma_not_instanceof(op);
    reveal_strlit("=");
    assert("="@.len() == 1);
    assert(symbol(op).push('=').len() == symbol(op).len() + 1);
}

proof fn lemma_not_compound(op: LogicalOp)
    ensures
        logical_symbol(op).push('=') != "="@,
        crate::lowering::compound_op(logical_symbol(op).push('=')) is None,
{
    reveal_strlit("=");
    assert("="@.len() == 1);
    reveal_strlit("&&");
    reveal_strlit("||");
    reveal_strlit("??");
    assert("&&"@.len() == 2 && "&&"@[0] == '&' && "&&"@[1] == '&');
    assert("||"@.len() == 2 && "||"@[0] == '|' && "||"@[1] == '|');
    assert("??"@.len() == 2 && "??"@[0] == '?' && "??"@[1] == '?');
    reveal_strlit("==");
    reveal_strlit("!=");
    reveal_strlit("===");
    reveal_strlit("!==");
    reveal_strlit("<");
    reveal_strlit(">");
    reveal_strlit("<=");
    reveal_strlit(">=");
    reveal_strlit("+");
    reveal_strlit("-");
    reveal_strlit("*");
    reveal_strlit("/");
    reveal_strlit("%");
    reveal_strlit("in");
    reveal_strlit("&");
    reveal_strlit("|");
    reveal_strlit("^");
    reveal_strlit("<<");
    reveal_strlit(">>");
    reveal_strlit(">>>");
    reveal_strlit("**");
    assert("=="@.len() == 2);
    assert("!="@.len() == 2);
    assert("==="@.len() == 3);
    assert("!=="@.len() == 3);
    assert("<"@.len() == 1);
    assert(">"@.len() == 1);
    assert("<="@.len() == 2);
    assert(">="@.len() == 2);
    assert("+"@.len() == 1);
    assert("-"@.len() == 1);
    assert("*"@.len() == 1);
    assert("/"@.len() == 1);
    assert("%"@.len() == 1);
    assert("in"@.len() == 2);
    assert("&"@.len() == 1);
    assert("|"@.len() == 1);
    assert("^"@.len() == 1);
    assert("<<"@.len() == 2);
    assert(">>"@.len() == 2);
    assert(">>>"@.len() == 3);
    assert("**"@.len() == 2);
    assert("**"@[0] == '*' && "<<"@[0] == '<' && ">>"@[0] == '>' && "=="@[0] == '=' && "!="@[0] == '!' && "<="@[0] == '<' && ">="@[0] == '>' && "in"@[0] == 'i');
    law_compound_symbols(logical_symbol(op));
    assert(logical_symbol(op).push('=').len() == 3);
}

/// A binary expression is its operator on the left and the right operand, in this order.
pub proof fn law_binary_tree(j: JsonTree, strict: bool, op: BinaryOp, left: ExprTree, right: ExprTree)
    requires
        is_kind(j, "BinaryExpression"@),
        !is_kind(field(j, "left"@), "PrivateIdentifier"@),
        field(j, "operator"@) == JsonTree::Str(symbol(op)),
        expr_of(field(j, "left"@), strict) == Ok::<_, ErrorView>(left),
        expr_of(field(j, "right"@), strict) == Ok::<_, ErrorView>(right),
    ensures
        expr_of(j, strict) == Ok::<_, ErrorView>(ExprTree::Binary { op, left: Box::new(left), right: Box::new(right) }),
{
    reveal_strlit("BinaryExpression");
    reveal_strlit("Identifier");
    assert("BinaryExpression"@.len() != "Identifier"@.len());
    reveal_strlit("Literal");
    assert("BinaryExpression"@.len() != "Literal"@.len());
    reveal_strlit("ThisExpression");
    assert("BinaryExpression"@.len() != "ThisExpression"@.len());
    reveal_strlit("Super");
    assert("BinaryExpression"@.len() != "Super"@.len());
    reveal_strlit("MemberExpression");
    assert("BinaryExpression"@[0] != "MemberExpression"@[0]);
    reveal_strlit("CallExpression");
    assert("BinaryExpression"@.len() != "CallExpression"@.len());
    reveal_strlit("NewExpression");
    assert("BinaryExpression"@.len() != "NewExpression"@.len());
    reveal_strlit("AssignmentExpression");
    assert("BinaryExpression"@.len() != "AssignmentExpression"@.len());
    reveal_strlit("FunctionExpression");
    assert("BinaryExpression"@.len() != "FunctionExpression"@.len());
    reveal_strlit("ArrowFunctionExpression");
    assert("BinaryExpression"@.len() != "ArrowFunctionExpression"@.len());
    reveal_strlit("ClassExpression");
    assert("BinaryExpression"@.len() != "ClassExpression"@.len());
    reveal_strlit("ArrayExpression");
    assert("BinaryExpression"@.len() != "ArrayExpression"@.len());
    reveal_strlit("ObjectExpression");
    assert("BinaryExpression"@[0] != "ObjectExpression"@[0]);
    reveal_strlit("SequenceExpression");
    assert("BinaryExpression"@.len() != "SequenceExpression"@.len());
    reveal_strlit("TemplateLiteral");
    assert("BinaryExpression"@.len() != "TemplateLiteral"@.len());
    reveal_strlit("TaggedTemplateExpression");
    assert("BinaryExpression"@.len() != "TaggedTemplateExpression"@.len());
    reveal_strlit("LogicalExpression");
    assert("BinaryExpression"@.len() != "LogicalExpression"@.len());
    reveal_strlit("UnaryExpression");
    assert("BinaryExpression"@.len() != "UnaryExpression"@.len());
    reveal_strlit("UpdateExpression");
    assert("BinaryExpression"@[0] != "UpdateExpression"@[0]);
    reveal_strlit("ConditionalExpression");
    assert("BinaryExpression"@.len() != "ConditionalExpression"@.len());
    reveal_strlit("AwaitExpression");
    assert("BinaryExpression"@.len() != "AwaitExpression"@.len());
    reveal_strlit("YieldExpression");
    assert("BinaryExpression"@.len() != "YieldExpression"@.len());
    law_binary_symbols(symbol(op), op);
    lemma_not_instanceof(op);
    law_expr(j, strict);
    law_operation(j, strict);
    law_binary(j, strict);
}

/// `instanceof` keeps its sides.
pub proof fn law_instanceof_tree(j: JsonTree, strict: bool, left: ExprTree, right: ExprTree)
    requires
        is_kind(j, "BinaryExpression"@),
        !is_kind(field(j, "left"@), "PrivateIdentifier"@),
        field(j, "operator"@) == JsonTree::Str("instanceof"@),
        expr_of(field(j, "left"@), strict) == Ok::<_, ErrorView>(left),
        expr_of(field(j, "right"@), strict) == Ok::<_, ErrorView>(right),
    ensures
        expr_of(j, strict) == Ok::<_, ErrorView>(ExprTree::InstanceOf { left: Box::new(left), right: Box::new(right) }),
{
    reveal_strlit("BinaryExpression");
    reveal_strlit("Identifier");
    assert("BinaryExpression"@.len() != "Identifier"@.len());
    reveal_strlit("Literal");
    assert("BinaryExpression"@.len() != "Literal"@.len());
    reveal_strlit("ThisExpression");
    assert("BinaryExpression"@.len() != "ThisExpression"@.len());
    reveal_strlit("Super");
    assert("BinaryExpression"@.len() != "Super"@.len());
    reveal_strlit("MemberExpression");
    assert("BinaryExpression"@[0] != "MemberExpression"@[0]);
    reveal_strlit("CallExpression");
    assert("BinaryExpression"@.len() != "CallExpression"@.len());
    reveal_strlit("NewExpression");
    assert("BinaryExpression"@.len() != "NewExpression"@.len());
    reveal_strlit("AssignmentExpression");
    assert("BinaryExpression"@.len() != "AssignmentExpression"@.len());
    reveal_strlit("FunctionExpression");
    assert("BinaryExpression"@.len() != "FunctionExpression"@.len());
    reveal_strlit("ArrowFunctionExpression");
    assert("BinaryExpression"@.len() != "ArrowFunctionExpression"@.len());
    reveal_strlit("ClassExpression");
    assert("BinaryExpression"@.len() != "ClassExpression"@.len());
    reveal_strlit("ArrayExpression");
    assert("BinaryExpression"@.len() != "ArrayExpression"@.len());
    reveal_strlit("ObjectExpression");
    assert("BinaryExpression"@[0] != "ObjectExpression"@[0]);
    reveal_strlit("SequenceExpression");
    assert("BinaryExpression"@.len() != "SequenceExpression"@.len());
    reveal_strlit("TemplateLiteral");
    assert("BinaryExpression"@.len() != "TemplateLiteral"@.len());
    reveal_strlit("TaggedTemplateExpression");
    assert("BinaryExpression"@.len() != "TaggedTemplateExpression"@.len());
    reveal_strlit("LogicalExpression");
    assert("BinaryExpression"@.len() != "LogicalExpression"@.len());
    reveal_strlit("UnaryExpression");
    assert("BinaryExpression"@.len() != "UnaryExpression"@.len());
    reveal_strlit("UpdateExpression");
    assert("BinaryExpression"@[0] != "UpdateExpression"@[0]);
    reveal_strlit("ConditionalExpression");
    assert("BinaryExpression"@.len() != "ConditionalExpression"@.len());
    reveal_strlit("AwaitExpression");
    assert("BinaryExpression"@.len() != "AwaitExpression"@.len());
    reveal_strlit("YieldExpression");
    assert("BinaryExpression"@.len() != "YieldExpression"@.len());
    law_expr(j, strict);
    law_operation(j, strict);
    law_binary(j, strict);
}

/// A short-circuiting expression keeps its operator and its operands.
pub proof fn law_logical_tree(j: JsonTree, strict: bool, op: LogicalOp, left: ExprTree, right: ExprTree)
    requires
        is_kind(j, "LogicalExpression"@),
        field(j, "operator"@) == JsonTree::Str(logical_symbol(op)),
        expr_of(field(j, "left"@), strict) == Ok::<_, ErrorView>(left),
        expr_of(field(j, "right"@), strict) == Ok::<_, ErrorView>(right),
    ensures
        expr_of(j, strict) == Ok::<_, ErrorView>(ExprTree::Logical { op, left: Box::new(left), right: Box::new(right) }),
{
    reveal_strlit("LogicalExpression");
    reveal_strlit("Identifier");
    assert("LogicalExpression"@.len() != "Identifier"@.len());
    reveal_strlit("Literal");
    assert("LogicalExpression"@.len() != "Literal"@.len());
    reveal_strlit("ThisExpression");
    assert("LogicalExpression"@.len() != "ThisExpression"@.len());
    reveal_strlit("Super");
    assert("LogicalExpression"@.len() != "Super"@.len());
    reveal_strlit("MemberExpression");
    assert("LogicalExpression"@.len() != "MemberExpression"@.len());
    reveal_strlit("CallExpression");
    assert("LogicalExpression"@.len() != "CallExpression"@.len());
    reveal_strlit("NewExpression");
    assert("LogicalExpression"@.len() != "NewExpression"@.len());
    reveal_strlit("AssignmentExpression");
    assert("LogicalExpression"@.len() != "AssignmentExpression"@.len());
    reveal_strlit("FunctionExpression");
    assert("LogicalExpression"@.len() != "FunctionExpression"@.len());
    reveal_strlit("ArrowFunctionExpression");
    assert("LogicalExpression"@.len() != "ArrowFunctionExpression"@.len());
    reveal_strlit("ClassExpression");
    assert("LogicalExpression"@.len() != "ClassExpression"@.len());
    reveal_strlit("ArrayExpression");
    assert("LogicalExpression"@.len() != "ArrayExpression"@.len());
    reveal_strlit("ObjectExpression");
    assert("LogicalExpression"@.len() != "ObjectExpression"@.len());
    reveal_strlit("SequenceExpression");
    assert("LogicalExpression"@.len() != "SequenceExpression"@.len());
    reveal_strlit("TemplateLiteral");
    assert("LogicalExpression"@.len() != "TemplateLiteral"@.len());
    reveal_strlit("TaggedTemplateExpression");
    assert("LogicalExpression"@.len() != "TaggedTemplateExpression"@.len());
    reveal_strlit("BinaryExpression");
    assert("LogicalExpression"@.len() != "BinaryExpression"@.len());
    reveal_strlit("UnaryExpression");
    assert("LogicalExpression"@.len() != "UnaryExpression"@.len());
    reveal_strlit("UpdateExpression");
    assert("LogicalExpression"@.len() != "UpdateExpression"@.len());
    reveal_strlit("ConditionalExpression");
    assert("LogicalExpression"@.len() != "ConditionalExpression"@.len());
    reveal_strlit("AwaitExpression");
    assert("LogicalExpression"@.len() != "AwaitExpression"@.len());
    reveal_strlit("YieldExpression");
    assert("LogicalExpression"@.len() != "YieldExpression"@.len());
    law_logical_symbols(logical_symbol(op), op);
    law_expr(j, strict);
    law_operation(j, strict);
}

/// A prefix expression keeps its operator and its operand.
pub proof fn law_unary_tree(j: JsonTree, strict: bool, op: UnaryOp, operand: ExprTree)
    requires
        is_kind(j, "UnaryExpression"@),
        field(j, "operator"@) == JsonTree::Str(prefix_symbol(op)),
        !(op is PreInc || op is PreDec || op is PostInc || op is PostDec),
        expr_of(field(j, "argument"@), strict) == Ok::<_, ErrorView>(operand),
    ensures
        expr_of(j, strict) == Ok::<_, ErrorView>(ExprTree::Unary { op, operand: Box::new(operand) }),
{
    reveal_strlit("UnaryExpression");
    reveal_strlit("Identifier");
    assert("UnaryExpression"@.len() != "Identifier"@.len());
    reveal_strlit("Literal");
    assert("UnaryExpression"@.len() != "Literal"@.len());
    reveal_strlit("ThisExpression");
    assert("UnaryExpression"@.len() != "ThisExpression"@.len());
    reveal_strlit("Super");
    assert("UnaryExpression"@.len() != "Super"@.len());
    reveal_strlit("MemberExpression");
    assert("UnaryExpression"@.len() != "MemberExpression"@.len());
    reveal_strlit("CallExpression");
    assert("UnaryExpression"@.len() != "CallExpression"@.len());
    reveal_strlit("NewExpression");
    assert("UnaryExpression"@.len() != "NewExpression"@.len());
    reveal_strlit("AssignmentExpression");
    assert("UnaryExpression"@.len() != "AssignmentExpression"@.len());
    reveal_strlit("FunctionExpression");
    assert("UnaryExpression"@.len() != "FunctionExpression"@.len());
    reveal_strlit("ArrowFunctionExpression");
    assert("UnaryExpression"@.len() != "ArrowFunctionExpression"@.len());
    reveal_strlit("ClassExpression");
    assert("UnaryExpression"@[0] != "ClassExpression"@[0]);
    reveal_strlit("ArrayExpression");
    assert("UnaryExpression"@[0] != "ArrayExpression"@[0]);
    reveal_strlit("ObjectExpression");
    assert("UnaryExpression"@.len() != "ObjectExpression"@.len());
    reveal_strlit("SequenceExpression");
    assert("UnaryExpression"@.len() != "SequenceExpression"@.len());
    reveal_strlit("TemplateLiteral");
    assert("UnaryExpression"@[0] != "TemplateLiteral"@[0]);
    reveal_strlit("TaggedTemplateExpression");
    assert("UnaryExpression"@.len() != "TaggedTemplateExpression"@.len());
    reveal_strlit("BinaryExpression");
    assert("UnaryExpression"@.len() != "BinaryExpression"@.len());
    reveal_strlit("LogicalExpression");
    assert("UnaryExpression"@.len() != "LogicalExpression"@.len());
    reveal_strlit("UpdateExpression");
    assert("UnaryExpression"@.len() != "UpdateExpression"@.len());
    reveal_strlit("ConditionalExpression");
    assert("UnaryExpression"@.len() != "ConditionalExpression"@.len());
    reveal_strlit("AwaitExpression");
    assert("UnaryExpression"@[0] != "AwaitExpression"@[0]);
    reveal_strlit("YieldExpression");
    assert("UnaryExpression"@[0] != "YieldExpression"@[0]);
    law_prefix_symbols(prefix_symbol(op), op);
    law_expr(j, strict);
    law_operation(j, strict);
}

/// `++` adds and `--` takes away; before its operand the operator gives the new value,
/// behind it the old one.
pub proof fn law_update_tree(j: JsonTree, strict: bool, operand: ExprTree)
    requires
        is_kind(j, "UpdateExpression"@),
        field(j, "operator"@) == JsonTree::Str("++"@) || field(j, "operator"@) == JsonTree::Str("--"@),
        expr_of(field(j, "argument"@), strict) == Ok::<_, ErrorView>(operand),
    ensures
        expr_of(j, strict) == Ok::<_, ErrorView>(ExprTree::Unary { op: if field(j, "operator"@) == JsonTree::Str("++"@) { if flag(field(j, "prefix"@)) { UnaryOp::PreInc } else { UnaryOp::PostInc } } else { if flag(field(j, "prefix"@)) { UnaryOp::PreDec } else { UnaryOp::PostDec } }, operand: Box::new(operand) }),
{
    reveal_strlit("UpdateExpression");
    reveal_strlit("Identifier");
    assert("UpdateExpression"@.len() != "Identifier"@.len());
    reveal_strlit("Literal");
    assert("UpdateExpression"@.len() != "Literal"@.len());
    reveal_strlit("ThisExpression");
    assert("UpdateExpression"@.len() != "ThisExpression"@.len());
    reveal_strlit("Super");
    assert("UpdateExpression"@.len() != "Super"@.len());
    reveal_strlit("MemberExpression");
    assert("UpdateExpression"@[0] != "MemberExpression"@[0]);
    reveal_strlit("CallExpression");
    assert("UpdateExpression"@.len() != "CallExpression"@.len());
    reveal_strlit("NewExpression");
    assert("UpdateExpression"@.len() != "NewExpression"@.len());
    reveal_strlit("AssignmentExpression");
    assert("UpdateExpression"@.len() != "AssignmentExpression"@.len());
    reveal_strlit("FunctionExpression");
    assert("UpdateExpression"@.len() != "FunctionExpression"@.len());
    reveal_strlit("ArrowFunctionExpression");
    assert("UpdateExpression"@.len() != "ArrowFunctionExpression"@.len());
    reveal_strlit("ClassExpression");
    assert("UpdateExpression"@.len() != "ClassExpression"@.len());
    reveal_strlit("ArrayExpression");
    assert("UpdateExpression"@.len() != "ArrayExpression"@.len());
    reveal_strlit("ObjectExpression");
    assert("UpdateExpression"@[0] != "ObjectExpression"@[0]);
    reveal_strlit("SequenceExpression");
    assert("UpdateExpression"@.len() != "SequenceExpression"@.len());
    reveal_strlit("TemplateLiteral");
    assert("UpdateExpression"@.len() != "TemplateLiteral"@.len());
    reveal_strlit("TaggedTemplateExpression");
    assert("UpdateExpression"@.len() != "TaggedTemplateExpression"@.len());
    reveal_strlit("BinaryExpression");
    assert("UpdateExpression"@[0] != "BinaryExpression"@[0]);
    reveal_strlit("LogicalExpression");
    assert("UpdateExpression"@.len() != "LogicalExpression"@.len());
    reveal_strlit("UnaryExpression");
    assert("UpdateExpression"@.len() != "UnaryExpression"@.len());
    reveal_strlit("ConditionalExpression");
    assert("UpdateExpression"@.len() != "ConditionalExpression"@.len());
    reveal_strlit("AwaitExpression");
    assert("UpdateExpression"@.len() != "AwaitExpression"@.len());
    reveal_strlit("YieldExpression");
    assert("UpdateExpression"@.len() != "YieldExpression"@.len());
    law_expr(j, strict);
    law_operation(j, strict);
    law_update(j, strict);
}

/// A conditional expression keeps its condition and its two branches.
pub proof fn law_conditional_tree(j: JsonTree, strict: bool, cond: ExprTree, yes: ExprTree, no: ExprTree)
    requires
        is_kind(j, "ConditionalExpression"@),
        expr_of(field(j, "test"@), strict) == Ok::<_, ErrorView>(cond),
        expr_of(field(j, "consequent"@), strict) == Ok::<_, ErrorView>(yes),
        expr_of(field(j, "alternate"@), strict) == Ok::<_, ErrorView>(no),
    ensures
        expr_of(j, strict) == Ok::<_, ErrorView>(ExprTree::Ternary { cond: Box::new(cond), yes: Box::new(yes), no: Box::new(no) }),
{
    reveal_strlit("ConditionalExpression");
    reveal_strlit("Identifier");
    assert("ConditionalExpression"@.len() != "Identifier"@.len());
    reveal_strlit("Literal");
    assert("ConditionalExpression"@.len() != "Literal"@.len());
    reveal_strlit("ThisExpression");
    assert("ConditionalExpression"@.len() != "ThisExpression"@.len());
    reveal_strlit("Super");
    assert("ConditionalExpression"@.len() != "Super"@.len());
    reveal_strlit("MemberExpression");
    assert("ConditionalExpression"@.len() != "MemberExpression"@.len());
    reveal_strlit("CallExpression");
    assert("ConditionalExpression"@.len() != "CallExpression"@.len());
    reveal_strlit("NewExpression");
    assert("ConditionalExpression"@.len() != "NewExpression"@.len());
    reveal_strlit("AssignmentExpression");
    assert("ConditionalExpression"@.len() != "AssignmentExpression"@.len());
    reveal_strlit("FunctionExpression");
    assert("ConditionalExpression"@.len() != "FunctionExpression"@.len());
    reveal_strlit("ArrowFunctionExpression");
    assert("ConditionalExpression"@.len() != "ArrowFunctionExpression"@.len());
    reveal_strlit("ClassExpression");
    assert("ConditionalExpression"@.len() != "ClassExpression"@.len());
    reveal_strlit("ArrayExpression");
    assert("ConditionalExpression"@.len() != "ArrayExpression"@.len());
    reveal_strlit("ObjectExpression");
    assert("ConditionalExpression"@.len() != "ObjectExpression"@.len());
    reveal_strlit("SequenceExpression");
    assert("ConditionalExpression"@.len() != "SequenceExpression"@.len());
    reveal_strlit("TemplateLiteral");
    assert("ConditionalExpression"@.len() != "TemplateLiteral"@.len());
    reveal_strlit("TaggedTemplateExpression");
    assert("ConditionalExpression"@.len() != "TaggedTemplateExpression"@.len());
    reveal_strlit("BinaryExpression");
    assert("ConditionalExpression"@.len() != "BinaryExpression"@.len());
    reveal_strlit("LogicalExpression");
    assert("ConditionalExpression"@.len() != "LogicalExpression"@.len());
    reveal_strlit("UnaryExpression");
    assert("ConditionalExpression"@.len() != "UnaryExpression"@.len());
    reveal_strlit("UpdateExpression");
    assert("ConditionalExpression"@.len() != "UpdateExpression"@.len());
    reveal_strlit("AwaitExpression");
    assert("ConditionalExpression"@.len() != "AwaitExpression"@.len());
    reveal_strlit("YieldExpression");
    assert("ConditionalExpression"@.len() != "YieldExpression"@.len());
    law_expr(j, strict);
    law_operation(j, strict);
}

/// An assignment keeps its target and its value. A compound one assigns to the target
/// what its operator gives for the target's value and the right side.
pub proof fn law_assignment_tree(j: JsonTree, strict: bool, op: BinaryOp, target: AssignTargetTree, left: ExprTree, right: ExprTree)
    requires
        is_kind(j, "AssignmentExpression"@),
        target_of(field(j, "left"@), strict) == Ok::<_, ErrorView>(target),
        expr_of(field(j, "right"@), strict) == Ok::<_, ErrorView>(right),
        target_expr_of(field(j, "left"@), strict) == Ok::<_, ErrorView>(left),
        computes(op),
    ensures
        field(j, "operator"@) == JsonTree::Str("="@) ==> expr_of(j, strict) == Ok::<_, ErrorView>(ExprTree::Assignment { target, value: Box::new(right) }),
        field(j, "operator"@) == JsonTree::Str(symbol(op).push('=')) ==> expr_of(j, strict) == Ok::<_, ErrorView>(ExprTree::Assignment { target, value: Box::new(ExprTree::Binary { op, left: Box::new(left), right: Box::new(right) }) }),
{
    reveal_strlit("AssignmentExpression");
    reveal_strlit("Identifier");
    assert("AssignmentExpression"@.len() != "Identifier"@.len());
    reveal_strlit("Literal");
    assert("AssignmentExpression"@.len() != "Literal"@.len());
    reveal_strlit("ThisExpression");
    assert("AssignmentExpression"@.len() != "ThisExpression"@.len());
    reveal_strlit("Super");
    assert("AssignmentExpression"@.len() != "Super"@.len());
    reveal_strlit("MemberExpression");
    assert("AssignmentExpression"@.len() != "MemberExpression"@.len());
    reveal_strlit("CallExpression");
    assert("AssignmentExpression"@.len() != "CallExpression"@.len());
    reveal_strlit("NewExpression");
    assert("AssignmentExpression"@.len() != "NewExpression"@.len());
    reveal_strlit("FunctionExpression");
    assert("AssignmentExpression"@.len() != "FunctionExpression"@.len());
    reveal_strlit("ArrowFunctionExpression");
    assert("AssignmentExpression"@.len() != "ArrowFunctionExpression"@.len());
    reveal_strlit("ClassExpression");
    assert("AssignmentExpression"@.len() != "ClassExpression"@.len());
    reveal_strlit("ArrayExpression");
    assert("AssignmentExpression"@.len() != "ArrayExpression"@.len());
    reveal_strlit("ObjectExpression");
    assert("AssignmentExpression"@.len() != "ObjectExpression"@.len());
    reveal_strlit("SequenceExpression");
    assert("AssignmentExpression"@.len() != "SequenceExpression"@.len());
    reveal_strlit("TemplateLiteral");
    assert("AssignmentExpression"@.len() != "TemplateLiteral"@.len());
    reveal_strlit("TaggedTemplateExpression");
    assert("AssignmentExpression"@.len() != "TaggedTemplateExpression"@.len());
    reveal_strlit("BinaryExpression");
    assert("AssignmentExpression"@.len() != "BinaryExpression"@.len());
    reveal_strlit("LogicalExpression");
    assert("AssignmentExpression"@.len() != "LogicalExpression"@.len());
    reveal_strlit("UnaryExpression");
    assert("AssignmentExpression"@.len() != "UnaryExpression"@.len());
    reveal_strlit("UpdateExpression");
    assert("AssignmentExpression"@.len() != "UpdateExpression"@.len());
    reveal_strlit("ConditionalExpression");
    assert("AssignmentExpression"@.len() != "ConditionalExpression"@.len());
    reveal_strlit("AwaitExpression");
    assert("AssignmentExpression"@.len() != "AwaitExpression"@.len());
    reveal_strlit("YieldExpression");
    assert("AssignmentExpression"@.len() != "YieldExpression"@.len());
    law_binary_symbols(symbol(op), op);
    law_compound_symbols(symbol(op));
    lemma_not_plain(op);
    law_expr(j, strict);
    law_assignment(j, strict);
}

/// An assignment with a short-circuiting operator assigns what the operator gives.
pub proof fn law_logical_assignment_tree(j: JsonTree, strict: bool, op: LogicalOp, target: AssignTargetTree, left: ExprTree, right: ExprTree)
    requires
        is_kind(j, "AssignmentExpression"@),
        target_of(field(j, "left"@), strict) == Ok::<_, ErrorView>(target),
        expr_of(field(j, "right"@), strict) == Ok::<_, ErrorView>(right),
        target_expr_of(field(j, "left"@), strict) == Ok::<_, ErrorView>(left),
        field(j, "operator"@) == JsonTree::Str(logical_symbol(op).push('=')),
    ensures
        expr_of(j, strict) == Ok::<_, ErrorView>(ExprTree::Assignment { target, value: Box::new(ExprTree::Logical { op, left: Box::new(left), right: Box::new(right) }) }),
{
    reveal_strlit("AssignmentExpression");
    reveal_strlit("Identifier");
    assert("AssignmentExpression"@.len() != "Identifier"@.len());
    reveal_strlit("Literal");
    assert("AssignmentExpression"@.len() != "Literal"@.len());
    reveal_strlit("ThisExpression");
    assert("AssignmentExpression"@.len() != "ThisExpression"@.len());
    reveal_strlit("Super");
    assert("AssignmentExpression"@.len() != "Super"@.len());
    reveal_strlit("MemberExpression");
    assert("AssignmentExpression"@.len() != "MemberExpression"@.len());
    reveal_strlit("CallExpression");
    assert("AssignmentExpression"@.len() != "CallExpression"@.len());
    reveal_strlit("NewExpression");
    assert("AssignmentExpression"@.len() != "NewExpression"@.len());
    reveal_strlit("FunctionExpression");
    assert("AssignmentExpression"@.len() != "FunctionExpression"@.len());
    reveal_strlit("ArrowFunctionExpression");
    assert("AssignmentExpression"@.len() != "ArrowFunctionExpression"@.len());
    reveal_strlit("ClassExpression");
    assert("AssignmentExpression"@.len() != "ClassExpression"@.len());
    reveal_strlit("ArrayExpression");
    assert("AssignmentExpression"@.len() != "ArrayExpression"@.len());
    reveal_strlit("ObjectExpression");
    assert("AssignmentExpression"@.len() != "ObjectExpression"@.len());
    reveal_strlit("SequenceExpression");
    assert("AssignmentExpression"@.len() != "SequenceExpression"@.len());
    reveal_strlit("TemplateLiteral");
    assert("AssignmentExpression"@.len() != "TemplateLiteral"@.len());
    reveal_strlit("TaggedTemplateExpression");
    assert("AssignmentExpression"@.len() != "TaggedTemplateExpression"@.len());
    reveal_strlit("BinaryExpression");
    assert("AssignmentExpression"@.len() != "BinaryExpression"@.len());
    reveal_strlit("LogicalExpression");
    assert("AssignmentExpression"@.len() != "LogicalExpression"@.len());
    reveal_strlit("UnaryExpression");
    assert("AssignmentExpression"@.len() != "UnaryExpression"@.len());
    reveal_strlit("UpdateExpression");
    assert("AssignmentExpression"@.len() != "UpdateExpression"@.len());
    reveal_strlit("ConditionalExpression");
    assert("AssignmentExpression"@.len() != "ConditionalExpression"@.len());
    reveal_strlit("AwaitExpression");
    assert("AssignmentExpression"@.len() != "AwaitExpression"@.len());
    reveal_strlit("YieldExpression");
    assert("AssignmentExpression"@.len() != "YieldExpression"@.len());
    law_logical_symbols(logical_symbol(op), op);
    lemma_not_compound(op);
    law_expr(j, strict);
    law_assignment(j, strict);
}

/// A member access keeps its object, its name or computed key, and whether it is
/// optional.
pub proof fn law_member_tree(j: JsonTree, strict: bool, obj: ExprTree, key: ExprTree)
    requires
        is_kind(j, "MemberExpression"@),
        !is_kind(field(j, "property"@), "PrivateIdentifier"@),
        expr_of(field(j, "object"@), strict) == Ok::<_, ErrorView>(obj),
        flag(field(j, "computed"@)) ==> expr_of(field(j, "property"@), strict) == Ok::<_, ErrorView>(key),
    ensures
        flag(field(j, "computed"@)) ==> expr_of(j, strict) == Ok::<_, ErrorView>(ExprTree::Member { obj: Box::new(obj), prop: ""@, computed: Some(Box::new(key)), optional: flag(field(j, "optional"@)) }),
        !flag(field(j, "computed"@)) ==> expr_of(j, strict) == Ok::<_, ErrorView>(ExprTree::Member { obj: Box::new(obj), prop: text_in(field(field(j, "property"@), "name"@)), computed: None, optional: flag(field(j, "optional"@)) }),
{
    reveal_strlit("MemberExpression");
    reveal_strlit("Identifier");
    assert("MemberExpression"@.len() != "Identifier"@.len());
    reveal_strlit("Literal");
    assert("MemberExpression"@.len() != "Literal"@.len());
    reveal_strlit("ThisExpression");
    assert("MemberExpression"@.len() != "ThisExpression"@.len());
    reveal_strlit("Super");
    assert("MemberExpression"@.len() != "Super"@.len());
    reveal_strlit("CallExpression");
    assert("MemberExpression"@.len() != "CallExpression"@.len());
    reveal_strlit("NewExpression");
    assert("MemberExpression"@.len() != "NewExpression"@.len());
    reveal_strlit("AssignmentExpression");
    assert("MemberExpression"@.len() != "AssignmentExpression"@.len());
    reveal_strlit("FunctionExpression");
    assert("MemberExpression"@.len() != "FunctionExpression"@.len());
    reveal_strlit("ArrowFunctionExpression");
    assert("MemberExpression"@.len() != "ArrowFunctionExpression"@.len());
    reveal_strlit("ClassExpression");
    assert("MemberExpression"@.len() != "ClassExpression"@.len());
    reveal_strlit("ArrayExpression");
    assert("MemberExpression"@.len() != "ArrayExpression"@.len());
    reveal_strlit("ObjectExpression");
    assert("MemberExpression"@[0] != "ObjectExpression"@[0]);
    reveal_strlit("SequenceExpression");
    assert("MemberExpression"@.len() != "SequenceExpression"@.len());
    reveal_strlit("TemplateLiteral");
    assert("MemberExpression"@.len() != "TemplateLiteral"@.len());
    reveal_strlit("TaggedTemplateExpression");
    assert("MemberExpression"@.len() != "TaggedTemplateExpression"@.len());
    reveal_strlit("BinaryExpression");
    assert("MemberExpression"@[0] != "BinaryExpression"@[0]);
    reveal_strlit("LogicalExpression");
    assert("MemberExpression"@.len() != "LogicalExpression"@.len());
    reveal_strlit("UnaryExpression");
    assert("MemberExpression"@.len() != "UnaryExpression"@.len());
    reveal_strlit("UpdateExpression");
    assert("MemberExpression"@[0] != "UpdateExpression"@[0]);
    reveal_strlit("ConditionalExpression");
    assert("MemberExpression"@.len() != "ConditionalExpression"@.len());
    reveal_strlit("AwaitExpression");
    assert("MemberExpression"@.len() != "AwaitExpression"@.len());
    reveal_strlit("YieldExpression");
    assert("MemberExpression"@.len() != "YieldExpression"@.len());
    law_expr(j, strict);
    law_member_expr(j, strict);
}

/// A call keeps what it calls, its arguments, and whether it is optional.
pub proof fn law_call_tree(j: JsonTree, strict: bool, callee: ExprTree, args: Seq<ArgTree>)
    requires
        is_kind(j, "CallExpression"@),
        expr_of(field(j, "callee"@), strict) == Ok::<_, ErrorView>(callee),
        args_of(field(j, "arguments"@), 0, Seq::empty(), strict) == Ok::<_, ErrorView>(args),
    ensures
        expr_of(j, strict) == Ok::<_, ErrorView>(ExprTree::Call { callee: Box::new(callee), args, optional: flag(field(j, "optional"@)) }),
{
    reveal_strlit("CallExpression");
    reveal_strlit("Identifier");
    assert("CallExpression"@.len() != "Identifier"@.len());
    reveal_strlit("Literal");
    assert("CallExpression"@.len() != "Literal"@.len());
    reveal_strlit("ThisExpression");
    assert("CallExpression"@[0] != "ThisExpression"@[0]);
    reveal_strlit("Super");
    assert("CallExpression"@.len() != "Super"@.len());
    reveal_strlit("MemberExpression");
    assert("CallExpression"@.len() != "MemberExpression"@.len());
    reveal_strlit("NewExpression");
    assert("CallExpression"@.len() != "NewExpression"@.len());
    reveal_strlit("AssignmentExpression");
    assert("CallExpression"@.len() != "AssignmentExpression"@.len());
    reveal_strlit("FunctionExpression");
    assert("CallExpression"@.len() != "FunctionExpression"@.len());
    reveal_strlit("ArrowFunctionExpression");
    assert("CallExpression"@.len() != "ArrowFunctionExpression"@.len());
    reveal_strlit("ClassExpression");
    assert("CallExpression"@.len() != "ClassExpression"@.len());
    reveal_strlit("ArrayExpression");
    assert("CallExpression"@.len() != "ArrayExpression"@.len());
    reveal_strlit("ObjectExpression");
    assert("CallExpression"@.len() != "ObjectExpression"@.len());
    reveal_strlit("SequenceExpression");
    assert("CallExpression"@.len() != "SequenceExpression"@.len());
    reveal_strlit("TemplateLiteral");
    assert("CallExpression"@.len() != "TemplateLiteral"@.len());
    reveal_strlit("TaggedTemplateExpression");
    assert("CallExpression"@.len() != "TaggedTemplateExpression"@.len());
    reveal_strlit("BinaryExpression");
    assert("CallExpression"@.len() != "BinaryExpression"@.len());
    reveal_strlit("LogicalExpression");
    assert("CallExpression"@.len() != "LogicalExpression"@.len());
    reveal_strlit("UnaryExpression");
    assert("CallExpression"@.len() != "UnaryExpression"@.len());
    reveal_strlit("UpdateExpression");
    assert("CallExpression"@.len() != "UpdateExpression"@.len());
    reveal_strlit("ConditionalExpression");
    assert("CallExpression"@.len() != "ConditionalExpression"@.len());
    reveal_strlit("AwaitExpression");
    assert("CallExpression"@.len() != "AwaitExpression"@.len());
    reveal_strlit("YieldExpression");
    assert("CallExpression"@.len() != "YieldExpression"@.len());
    law_expr(j, strict);
    law_call(j, strict);
}

/// `new` keeps its constructor and its arguments.
pub proof fn law_new_tree(j: JsonTree, strict: bool, callee: ExprTree, args: Seq<ArgTree>)
    requires
        is_kind(j, "NewExpression"@),
        expr_of(field(j, "callee"@), strict) == Ok::<_, ErrorView>(callee),
        args_of(field(j, "arguments"@), 0, Seq::empty(), strict) == Ok::<_, ErrorView>(args),
    ensures
        expr_of(j, strict) == Ok::<_, ErrorView>(ExprTree::New { callee: Box::new(callee), args }),
{
    reveal_strlit("NewExpression");
    reveal_strlit("Identifier");
    assert("NewExpression"@.len() != "Identifier"@.len());
    reveal_strlit("Literal");
    assert("NewExpression"@.len() != "Literal"@.len());
    reveal_strlit("ThisExpression");
    assert("NewExpression"@.len() != "ThisExpression"@.len());
    reveal_strlit("Super");
    assert("NewExpression"@.len() != "Super"@.len());
    reveal_strlit("MemberExpression");
    assert("NewExpression"@.len() != "MemberExpression"@.len());
    reveal_strlit("CallExpression");
    assert("NewExpression"@.len() != "CallExpression"@.len());
    reveal_strlit("AssignmentExpression");
    assert("NewExpression"@.len() != "AssignmentExpression"@.len());
    reveal_strlit("FunctionExpression");
    assert("NewExpression"@.len() != "FunctionExpression"@.len());
    reveal_strlit("ArrowFunctionExpression");
    assert("NewExpression"@.len() != "ArrowFunctionExpression"@.len());
    reveal_strlit("ClassExpression");
    assert("NewExpression"@.len() != "ClassExpression"@.len());
    reveal_strlit("ArrayExpression");
    assert("NewExpression"@.len() != "ArrayExpression"@.len());
    reveal_strlit("ObjectExpression");
    assert("NewExpression"@.len() != "ObjectExpression"@.len());
    reveal_strlit("SequenceExpression");
    assert("NewExpression"@.len() != "SequenceExpression"@.len());
    reveal_strlit("TemplateLiteral");
    assert("NewExpression"@.len() != "TemplateLiteral"@.len());
    reveal_strlit("TaggedTemplateExpression");
    assert("NewExpression"@.len() != "TaggedTemplateExpression"@.len());
    reveal_strlit("BinaryExpression");
    assert("NewExpression"@.len() != "BinaryExpression"@.len());
    reveal_strlit("LogicalExpression");
    assert("NewExpression"@.len() != "LogicalExpression"@.len());
    reveal_strlit("UnaryExpression");
    assert("NewExpression"@.len() != "UnaryExpression"@.len());
    reveal_strlit("UpdateExpression");
    assert("NewExpression"@.len() != "UpdateExpression"@.len());
    reveal_strlit("ConditionalExpression");
    assert("NewExpression"@.len() != "ConditionalExpression"@.len());
    reveal_strlit("AwaitExpression");
    assert("NewExpression"@.len() != "AwaitExpression"@.len());
    reveal_strlit("YieldExpression");
    assert("NewExpression"@.len() != "YieldExpression"@.len());
    law_expr(j, strict);
    law_call(j, strict);
}

/// `await` and `yield` keep their operand.
pub proof fn law_suspension_tree(j: JsonTree, strict: bool, operand: ExprTree)
    requires
        is_kind(j, "AwaitExpression"@) || (is_kind(j, "YieldExpression"@) && !(field(j, "argument"@) is Null)),
        expr_of(field(j, "argument"@), strict) == Ok::<_, ErrorView>(operand),
    ensures
        is_kind(j, "AwaitExpression"@) ==> expr_of(j, strict) == Ok::<_, ErrorView>(ExprTree::Await(Box::new(operand))),
        is_kind(j, "YieldExpression"@) ==> expr_of(j, strict) == Ok::<_, ErrorView>(ExprTree::Yield { expr: Some(Box::new(operand)), delegated: flag(field(j, "delegate"@)) }),
{
    reveal_strlit("AwaitExpression");
    reveal_strlit("Identifier");
    assert("AwaitExpression"@.len() != "Identifier"@.len());
    reveal_strlit("Literal");
    assert("AwaitExpression"@.len() != "Literal"@.len());
    reveal_strlit("ThisExpression");
    assert("AwaitExpression"@.len() != "ThisExpression"@.len());
    reveal_strlit("Super");
    assert("AwaitExpression"@.len() != "Super"@.len());
    reveal_strlit("MemberExpression");
    assert("AwaitExpression"@.len() != "MemberExpression"@.len());
    reveal_strlit("CallExpression");
    assert("AwaitExpression"@.len() != "CallExpression"@.len());
    reveal_strlit("NewExpression");
    assert("AwaitExpression"@.len() != "NewExpression"@.len());
    reveal_strlit("AssignmentExpression");
    assert("AwaitExpression"@.len() != "AssignmentExpression"@.len());
    reveal_strlit("FunctionExpression");
    assert("AwaitExpression"@.len() != "FunctionExpression"@.len());
    reveal_strlit("ArrowFunctionExpression");
    assert("AwaitExpression"@.len() != "ArrowFunctionExpression"@.len());
    reveal_strlit("ClassExpression");
    assert("AwaitExpression"@[0] != "ClassExpression"@[0]);
    reveal_strlit("ArrayExpression");
    assert("AwaitExpression"@[1] != "ArrayExpression"@[1]);
    reveal_strlit("ObjectExpression");
    assert("AwaitExpression"@.len() != "ObjectExpression"@.len());
    reveal_strlit("SequenceExpression");
    assert("AwaitExpression"@.len() != "SequenceExpression"@.len());
    reveal_strlit("TemplateLiteral");
    assert("AwaitExpression"@[0] != "TemplateLiteral"@[0]);
    reveal_strlit("TaggedTemplateExpression");
    assert("AwaitExpression"@.len() != "TaggedTemplateExpression"@.len());
    reveal_strlit("BinaryExpression");
    assert("AwaitExpression"@.len() != "BinaryExpression"@.len());
    reveal_strlit("LogicalExpression");
    assert("AwaitExpression"@.len() != "LogicalExpression"@.len());
    reveal_strlit("UnaryExpression");
    assert("AwaitExpression"@[0] != "UnaryExpression"@[0]);
    reveal_strlit("UpdateExpression");
    assert("AwaitExpression"@.len() != "UpdateExpression"@.len());
    reveal_strlit("ConditionalExpression");
    assert("AwaitExpression"@.len() != "ConditionalExpression"@.len());
    reveal_strlit("YieldExpression");
    assert("AwaitExpression"@[0] != "YieldExpression"@[0]);
    reveal_strlit("YieldExpression");
    reveal_strlit("Identifier");
    assert("YieldExpression"@.len() != "Identifier"@.len());
    reveal_strlit("Literal");
    assert("YieldExpression"@.len() != "Literal"@.len());
    reveal_strlit("ThisExpression");
    assert("YieldExpression"@.len() != "ThisExpression"@.len());
    reveal_strlit("Super");
    assert("YieldExpression"@.len() != "Super"@.len());
    reveal_strlit("MemberExpression");
    assert("YieldExpression"@.len() != "MemberExpression"@.len());
    reveal_strlit("CallExpression");
    assert("YieldExpression"@.len() != "CallExpression"@.len());
    reveal_strlit("NewExpression");
    assert("YieldExpression"@.len() != "NewExpression"@.len());
    reveal_strlit("AssignmentExpression");
    assert("YieldExpression"@.len() != "AssignmentExpression"@.len());
    reveal_strlit("FunctionExpression");
    assert("YieldExpression"@.len() != "FunctionExpression"@.len());
    reveal_strlit("ArrowFunctionExpression");
    assert("YieldExpression"@.len() != "ArrowFunctionExpression"@.len());
    reveal_strlit("ClassExpression");
    assert("YieldExpression"@[0] != "ClassExpression"@[0]);
    reveal_strlit("ArrayExpression");
    assert("YieldExpression"@[0] != "ArrayExpression"@[0]);
    reveal_strlit("ObjectExpression");
    assert("YieldExpression"@.len() != "ObjectExpression"@.len());
    reveal_strlit("SequenceExpression");
    assert("YieldExpression"@.len() != "SequenceExpression"@.len());
    reveal_strlit("TemplateLiteral");
    assert("YieldExpression"@[0] != "TemplateLiteral"@[0]);
    reveal_strlit("TaggedTemplateExpression");
    assert("YieldExpression"@.len() != "TaggedTemplateExpression"@.len());
    reveal_strlit("BinaryExpression");
    assert("YieldExpression"@.len() != "BinaryExpression"@.len());
    reveal_strlit("LogicalExpression");
    assert("YieldExpression"@.len() != "LogicalExpression"@.len());
    reveal_strlit("UnaryExpression");
    assert("YieldExpression"@[0] != "UnaryExpression"@[0]);
    reveal_strlit("UpdateExpression");
    assert("YieldExpression"@.len() != "UpdateExpression"@.len());
    reveal_strlit("ConditionalExpression");
    assert("YieldExpression"@.len() != "ConditionalExpression"@.len());
    reveal_strlit("AwaitExpression");
    assert("YieldExpression"@[0] != "AwaitExpression"@[0]);
    law_expr(j, strict);
    law_other_expr(j, strict);
}

/// An `if` keeps its condition and its branches; a missing second branch is empty.
pub proof fn law_if_tree(j: JsonTree, strict: bool, cond: ExprTree, yes: Seq<StmtTree>, no: Seq<StmtTree>)
    requires
        is_kind(j, "IfStatement"@),
        expr_of(field(j, "test"@), strict) == Ok::<_, ErrorView>(cond),
        branch_of(field(j, "consequent"@), strict) == Ok::<_, ErrorView>(yes),
        !(field(j, "alternate"@) is Null) ==> branch_of(field(j, "alternate"@), strict) == Ok::<_, ErrorView>(no),
        field(j, "alternate"@) is Null ==> no == Seq::<StmtTree>::empty(),
    ensures
        stmt_of(j, strict) == Ok::<_, ErrorView>(StmtTree::If { cond, yes, no }),
{
    reveal_strlit("IfStatement");
    reveal_strlit("BlockStatement");
    assert("IfStatement"@.len() != "BlockStatement"@.len());
    reveal_strlit("ExpressionStatement");
    assert("IfStatement"@.len() != "ExpressionStatement"@.len());
    reveal_strlit("VariableDeclaration");
    assert("IfStatement"@.len() != "VariableDeclaration"@.len());
    reveal_strlit("FunctionDeclaration");
    assert("IfStatement"@.len() != "FunctionDeclaration"@.len());
    reveal_strlit("TSDeclareFunction");
    assert("IfStatement"@.len() != "TSDeclareFunction"@.len());
    reveal_strlit("ClassDeclaration");
    assert("IfStatement"@.len() != "ClassDeclaration"@.len());
    reveal_strlit("ForStatement");
    assert("IfStatement"@.len() != "ForStatement"@.len());
    reveal_strlit("ForInStatement");
    assert("IfStatement"@.len() != "ForInStatement"@.len());
    reveal_strlit("ForOfStatement");
    assert("IfStatement"@.len() != "ForOfStatement"@.len());
    reveal_strlit("WhileStatement");
    assert("IfStatement"@.len() != "WhileStatement"@.len());
    reveal_strlit("DoWhileStatement");
    assert("IfStatement"@.len() != "DoWhileStatement"@.len());
    reveal_strlit("SwitchStatement");
    assert("IfStatement"@.len() != "SwitchStatement"@.len());
    reveal_strlit("TryStatement");
    assert("IfStatement"@.len() != "TryStatement"@.len());
    reveal_strlit("WithStatement");
    assert("IfStatement"@.len() != "WithStatement"@.len());
    reveal_strlit("LabeledStatement");
    assert("IfStatement"@.len() != "LabeledStatement"@.len());
    reveal_strlit("ExportNamedDeclaration");
    assert("IfStatement"@.len() != "ExportNamedDeclaration"@.len());
    reveal_strlit("ExportDefaultDeclaration");
    assert("IfStatement"@.len() != "ExportDefaultDeclaration"@.len());
    reveal_strlit("BreakStatement");
    assert("IfStatement"@.len() != "BreakStatement"@.len());
    reveal_strlit("ContinueStatement");
    assert("IfStatement"@.len() != "ContinueStatement"@.len());
    reveal_strlit("ReturnStatement");
    assert("IfStatement"@.len() != "ReturnStatement"@.len());
    reveal_strlit("ThrowStatement");
    assert("IfStatement"@.len() != "ThrowStatement"@.len());
    law_stmt(j, strict);
    law_if_stmt(j, strict);
    law_no_stmts(j, strict);
}

/// A `while` and a `do`-`while` keep their condition and their body.
pub proof fn law_while_tree(j: JsonTree, strict: bool, cond: ExprTree, body: Seq<StmtTree>)
    requires
        is_kind(j, "WhileStatement"@) || is_kind(j, "DoWhileStatement"@),
        expr_of(field(j, "test"@), strict) == Ok::<_, ErrorView>(cond),
        stmt_vec_of(field(j, "body"@), strict) == Ok::<_, ErrorView>(body),
    ensures
        is_kind(j, "WhileStatement"@) ==> stmt_of(j, strict) == Ok::<_, ErrorView>(StmtTree::While { cond, body }),
        is_kind(j, "DoWhileStatement"@) ==> stmt_of(j, strict) == Ok::<_, ErrorView>(StmtTree::DoWhile { cond, body }),
{
    reveal_strlit("WhileStatement");
    reveal_strlit("BlockStatement");
    assert("WhileStatement"@[0] != "BlockStatement"@[0]);
    reveal_strlit("ExpressionStatement");
    assert("WhileStatement"@.len() != "ExpressionStatement"@.len());
    reveal_strlit("VariableDeclaration");
    assert("WhileStatement"@.len() != "VariableDeclaration"@.len());
    reveal_strlit("FunctionDeclaration");
    assert("WhileStatement"@.len() != "FunctionDeclaration"@.len());
    reveal_strlit("TSDeclareFunction");
    assert("WhileStatement"@.len() != "TSDeclareFunction"@.len());
    reveal_strlit("ClassDeclaration");
    assert("WhileStatement"@.len() != "ClassDeclaration"@.len());
    reveal_strlit("IfStatement");
    assert("WhileStatement"@.len() != "IfStatement"@.len());
    reveal_strlit("ForStatement");
    assert("WhileStatement"@.len() != "ForStatement"@.len());
    reveal_strlit("ForInStatement");
    assert("WhileStatement"@[0] != "ForInStatement"@[0]);
    reveal_strlit("ForOfStatement");
    assert("WhileStatement"@[0] != "ForOfStatement"@[0]);
    reveal_strlit("DoWhileStatement");
    assert("WhileStatement"@.len() != "DoWhileStatement"@.len());
    reveal_strlit("SwitchStatement");
    assert("WhileStatement"@.len() != "SwitchStatement"@.len());
    reveal_strlit("TryStatement");
    assert("WhileStatement"@.len() != "TryStatement"@.len());
    reveal_strlit("WithStatement");
    assert("WhileStatement"@.len() != "WithStatement"@.len());
    reveal_strlit("LabeledStatement");
    assert("WhileStatement"@.len() != "LabeledStatement"@.len());
    reveal_strlit("ExportNamedDeclaration");
    assert("WhileStatement"@.len() != "ExportNamedDeclaration"@.len());
    reveal_strlit("ExportDefaultDeclaration");
    assert("WhileStatement"@.len() != "ExportDefaultDeclaration"@.len());
    reveal_strlit("BreakStatement");
    assert("WhileStatement"@[0] != "BreakStatement"@[0]);
    reveal_strlit("ContinueStatement");
    assert("WhileStatement"@.len() != "ContinueStatement"@.len());
    reveal_strlit("ReturnStatement");
    assert("WhileStatement"@.len() != "ReturnStatement"@.len());
    reveal_strlit("ThrowStatement");
    assert("WhileStatement"@[0] != "ThrowStatement"@[0]);
    reveal_strlit("DoWhileStatement");
    reveal_strlit("BlockStatement");
    assert("DoWhileStatement"@.len() != "BlockStatement"@.len());
    reveal_strlit("ExpressionStatement");
    assert("DoWhileStatement"@.len() != "ExpressionStatement"@.len());
    reveal_strlit("VariableDeclaration");
    assert("DoWhileStatement"@.len() != "VariableDeclaration"@.len());
    reveal_strlit("FunctionDeclaration");
    assert("DoWhileStatement"@.len() != "FunctionDeclaration"@.len());
    reveal_strlit("TSDeclareFunction");
    assert("DoWhileStatement"@.len() != "TSDeclareFunction"@.len());
    reveal_strlit("ClassDeclaration");
    assert("DoWhileStatement"@[0] != "ClassDeclaration"@[0]);
    reveal_strlit("IfStatement");
    assert("DoWhileStatement"@.len() != "IfStatement"@.len());
    reveal_strlit("ForStatement");
    assert("DoWhileStatement"@.len() != "ForStatement"@.len());
    reveal_strlit("ForInStatement");
    assert("DoWhileStatement"@.len() != "ForInStatement"@.len());
    reveal_strlit("ForOfStatement");
    assert("DoWhileStatement"@.len() != "ForOfStatement"@.len());
    reveal_strlit("WhileStatement");
    assert("DoWhileStatement"@.len() != "WhileStatement"@.len());
    reveal_strlit("SwitchStatement");
    assert("DoWhileStatement"@.len() != "SwitchStatement"@.len());
    reveal_strlit("TryStatement");
    assert("DoWhileStatement"@.len() != "TryStatement"@.len());
    reveal_strlit("WithStatement");
    assert("DoWhileStatement"@.len() != "WithStatement"@.len());
    reveal_strlit("LabeledStatement");
    assert("DoWhileStatement"@[0] != "LabeledStatement"@[0]);
    reveal_strlit("ExportNamedDeclaration");
    assert("DoWhileStatement"@.len() != "ExportNamedDeclaration"@.len());
    reveal_strlit("ExportDefaultDeclaration");
    assert("DoWhileStatement"@.len() != "ExportDefaultDeclaration"@.len());
    reveal_strlit("BreakStatement");
    assert("DoWhileStatement"@.len() != "BreakStatement"@.len());
    reveal_strlit("ContinueStatement");
    assert("DoWhileStatement"@.len() != "ContinueStatement"@.len());
    reveal_strlit("ReturnStatement");
    assert("DoWhileStatement"@.len() != "ReturnStatement"@.len());
    reveal_strlit("ThrowStatement");
    assert("DoWhileStatement"@.len() != "ThrowStatement"@.len());
    law_stmt(j, strict);
    law_loop_stmt(j, strict);
}

/// A `for` keeps its three heads, where they are there, and its body.
pub proof fn law_for_tree(j: JsonTree, strict: bool, init: StmtTree, cond: ExprTree, update: ExprTree, body: Seq<StmtTree>)
    requires
        is_kind(j, "ForStatement"@),
        !(field(j, "init"@) is Null) ==> for_init_of(field(j, "init"@), strict) == Ok::<_, ErrorView>(init),
        !(field(j, "test"@) is Null) ==> expr_of(field(j, "test"@), strict) == Ok::<_, ErrorView>(cond),
        !(field(j, "update"@) is Null) ==> expr_of(field(j, "update"@), strict) == Ok::<_, ErrorView>(update),
        stmt_vec_of(field(j, "body"@), strict) == Ok::<_, ErrorView>(body),
    ensures
        stmt_of(j, strict) == Ok::<_, ErrorView>(StmtTree::For { init: if field(j, "init"@) is Null { None } else { Some(Box::new(init)) }, cond: if field(j, "test"@) is Null { None } else { Some(cond) }, update: if field(j, "update"@) is Null { None } else { Some(update) }, body }),
{
    reveal_strlit("ForStatement");
    reveal_strlit("BlockStatement");
    assert("ForStatement"@.len() != "BlockStatement"@.len());
    reveal_strlit("ExpressionStatement");
    assert("ForStatement"@.len() != "ExpressionStatement"@.len());
    reveal_strlit("VariableDeclaration");
    assert("ForStatement"@.len() != "VariableDeclaration"@.len());
    reveal_strlit("FunctionDeclaration");
    assert("ForStatement"@.len() != "FunctionDeclaration"@.len());
    reveal_strlit("TSDeclareFunction");
    assert("ForStatement"@.len() != "TSDeclareFunction"@.len());
    reveal_strlit("ClassDeclaration");
    assert("ForStatement"@.len() != "ClassDeclaration"@.len());
    reveal_strlit("IfStatement");
    assert("ForStatement"@.len() != "IfStatement"@.len());
    reveal_strlit("ForInStatement");
    assert("ForStatement"@.len() != "ForInStatement"@.len());
    reveal_strlit("ForOfStatement");
    assert("ForStatement"@.len() != "ForOfStatement"@.len());
    reveal_strlit("WhileStatement");
    assert("ForStatement"@.len() != "WhileStatement"@.len());
    reveal_strlit("DoWhileStatement");
    assert("ForStatement"@.len() != "DoWhileStatement"@.len());
    reveal_strlit("SwitchStatement");
    assert("ForStatement"@.len() != "SwitchStatement"@.len());
    reveal_strlit("TryStatement");
    assert("ForStatement"@[0] != "TryStatement"@[0]);
    reveal_strlit("WithStatement");
    assert("ForStatement"@.len() != "WithStatement"@.len());
    reveal_strlit("LabeledStatement");
    assert("ForStatement"@.len() != "LabeledStatement"@.len());
    reveal_strlit("ExportNamedDeclaration");
    assert("ForStatement"@.len() != "ExportNamedDeclaration"@.len());
    reveal_strlit("ExportDefaultDeclaration");
    assert("ForStatement"@.len() != "ExportDefaultDeclaration"@.len());
    reveal_strlit("BreakStatement");
    assert("ForStatement"@.len() != "BreakStatement"@.len());
    reveal_strlit("ContinueStatement");
    assert("ForStatement"@.len() != "ContinueStatement"@.len());
    reveal_strlit("ReturnStatement");
    assert("ForStatement"@.len() != "ReturnStatement"@.len());
    reveal_strlit("ThrowStatement");
    assert("ForStatement"@.len() != "ThrowStatement"@.len());
    law_stmt(j, strict);
    law_loop_stmt(j, strict);
    law_for_stmt(j, strict);
}

/// A loop over keys or items keeps what it binds, what it goes over and its body.
pub proof fn law_each_tree(j: JsonTree, strict: bool, name: PatternTree, expr: ExprTree, body: Seq<StmtTree>)
    requires
        is_kind(j, "ForInStatement"@) || (is_kind(j, "ForOfStatement"@) && !flag(field(j, "await"@))),
        for_left_of(field(j, "left"@), strict) == Ok::<_, ErrorView>(name),
        expr_of(field(j, "right"@), strict) == Ok::<_, ErrorView>(expr),
        stmt_vec_of(field(j, "body"@), strict) == Ok::<_, ErrorView>(body),
    ensures
        is_kind(j, "ForInStatement"@) ==> stmt_of(j, strict) == Ok::<_, ErrorView>(StmtTree::ForIn { kind: left_kind(field(j, "left"@)), name, expr, body }),
        is_kind(j, "ForOfStatement"@) ==> stmt_of(j, strict) == Ok::<_, ErrorView>(StmtTree::ForOf { kind: left_kind(field(j, "left"@)), name, expr, body }),
{
    reveal_strlit("ForInStatement");
    reveal_strlit("BlockStatement");
    assert("ForInStatement"@[0] != "BlockStatement"@[0]);
    reveal_strlit("ExpressionStatement");
    assert("ForInStatement"@.len() != "ExpressionStatement"@.len());
    reveal_strlit("VariableDeclaration");
    assert("ForInStatement"@.len() != "VariableDeclaration"@.len());
    reveal_strlit("FunctionDeclaration");
    assert("ForInStatement"@.len() != "FunctionDeclaration"@.len());
    reveal_strlit("TSDeclareFunction");
    assert("ForInStatement"@.len() != "TSDeclareFunction"@.len());
    reveal_strlit("ClassDeclaration");
    assert("ForInStatement"@.len() != "ClassDeclaration"@.len());
    reveal_strlit("IfStatement");
    assert("ForInStatement"@.len() != "IfStatement"@.len());
    reveal_strlit("ForStatement");
    assert("ForInStatement"@.len() != "ForStatement"@.len());
    reveal_strlit("ForOfStatement");
    assert("ForInStatement"@[3] != "ForOfStatement"@[3]);
    reveal_strlit("WhileStatement");
    assert("ForInStatement"@[0] != "WhileStatement"@[0]);
    reveal_strlit("DoWhileStatement");
    assert("ForInStatement"@.len() != "DoWhileStatement"@.len());
    reveal_strlit("SwitchStatement");
    assert("ForInStatement"@.len() != "SwitchStatement"@.len());
    reveal_strlit("TryStatement");
    assert("ForInStatement"@.len() != "TryStatement"@.len());
    reveal_strlit("WithStatement");
    assert("ForInStatement"@.len() != "WithStatement"@.len());
    reveal_strlit("LabeledStatement");
    assert("ForInStatement"@.len() != "LabeledStatement"@.len());
    reveal_strlit("ExportNamedDeclaration");
    assert("ForInStatement"@.len() != "ExportNamedDeclaration"@.len());
    reveal_strlit("ExportDefaultDeclaration");
    assert("ForInStatement"@.len() != "ExportDefaultDeclaration"@.len());
    reveal_strlit("BreakStatement");
    assert("ForInStatement"@[0] != "BreakStatement"@[0]);
    reveal_strlit("ContinueStatement");
    assert("ForInStatement"@.len() != "ContinueStatement"@.len());
    reveal_strlit("ReturnStatement");
    assert("ForInStatement"@.len() != "ReturnStatement"@.len());
    reveal_strlit("ThrowStatement");
    assert("ForInStatement"@[0] != "ThrowStatement"@[0]);
    reveal_strlit("ForOfStatement");
    reveal_strlit("BlockStatement");
    assert("ForOfStatement"@[0] != "BlockStatement"@[0]);
    reveal_strlit("ExpressionStatement");
    assert("ForOfStatement"@.len() != "ExpressionStatement"@.len());
    reveal_strlit("VariableDeclaration");
    assert("ForOfStatement"@.len() != "VariableDeclaration"@.len());
    reveal_strlit("FunctionDeclaration");
    assert("ForOfStatement"@.len() != "FunctionDeclaration"@.len());
    reveal_strlit("TSDeclareFunction");
    assert("ForOfStatement"@.len() != "TSDeclareFunction"@.len());
    reveal_strlit("ClassDeclaration");
    assert("ForOfStatement"@.len() != "ClassDeclaration"@.len());
    reveal_strlit("IfStatement");
    assert("ForOfStatement"@.len() != "IfStatement"@.len());
    reveal_strlit("ForStatement");
    assert("ForOfStatement"@.len() != "ForStatement"@.len());
    reveal_strlit("ForInStatement");
    assert("ForOfStatement"@[3] != "ForInStatement"@[3]);
    reveal_strlit("WhileStatement");
    assert("ForOfStatement"@[0] != "WhileStatement"@[0]);
    reveal_strlit("DoWhileStatement");
    assert("ForOfStatement"@.len() != "DoWhileStatement"@.len());
    reveal_strlit("SwitchStatement");
    assert("ForOfStatement"@.len() != "SwitchStatement"@.len());
    reveal_strlit("TryStatement");
    assert("ForOfStatement"@.len() != "TryStatement"@.len());
    reveal_strlit("WithStatement");
    assert("ForOfStatement"@.len() != "WithStatement"@.len());
    reveal_strlit("LabeledStatement");
    assert("ForOfStatement"@.len() != "LabeledStatement"@.len());
    reveal_strlit("ExportNamedDeclaration");
    assert("ForOfStatement"@.len() != "ExportNamedDeclaration"@.len());
    reveal_strlit("ExportDefaultDeclaration");
    assert("ForOfStatement"@.len() != "ExportDefaultDeclaration"@.len());
    reveal_strlit("BreakStatement");
    assert("ForOfStatement"@[0] != "BreakStatement"@[0]);
    reveal_strlit("ContinueStatement");
    assert("ForOfStatement"@.len() != "ContinueStatement"@.len());
    reveal_strlit("ReturnStatement");
    assert("ForOfStatement"@.len() != "ReturnStatement"@.len());
    reveal_strlit("ThrowStatement");
    assert("ForOfStatement"@[0] != "ThrowStatement"@[0]);
    law_stmt(j, strict);
    law_loop_stmt(j, strict);
}

/// `return` and `throw` keep their expression.
pub proof fn law_exit_tree(j: JsonTree, strict: bool, e: ExprTree)
    requires
        is_kind(j, "ReturnStatement"@) || is_kind(j, "ThrowStatement"@),
        !(field(j, "argument"@) is Null),
        expr_of(field(j, "argument"@), strict) == Ok::<_, ErrorView>(e),
    ensures
        is_kind(j, "ReturnStatement"@) ==> stmt_of(j, strict) == Ok::<_, ErrorView>(StmtTree::Return(Some(e))),
        is_kind(j, "ThrowStatement"@) ==> stmt_of(j, strict) == Ok::<_, ErrorView>(StmtTree::Throw(e)),
{
    reveal_strlit("ReturnStatement");
    reveal_strlit("BlockStatement");
    assert("ReturnStatement"@.len() != "BlockStatement"@.len());
    reveal_strlit("ExpressionStatement");
    assert("ReturnStatement"@.len() != "ExpressionStatement"@.len());
    reveal_strlit("VariableDeclaration");
    assert("ReturnStatement"@.len() != "VariableDeclaration"@.len());
    reveal_strlit("FunctionDeclaration");
    assert("ReturnStatement"@.len() != "FunctionDeclaration"@.len());
    reveal_strlit("TSDeclareFunction");
    assert("ReturnStatement"@.len() != "TSDeclareFunction"@.len());
    reveal_strlit("ClassDeclaration");
    assert("ReturnStatement"@.len() != "ClassDeclaration"@.len());
    reveal_strlit("IfStatement");
    assert("ReturnStatement"@.len() != "IfStatement"@.len());
    reveal_strlit("ForStatement");
    assert("ReturnStatement"@.len() != "ForStatement"@.len());
    reveal_strlit("ForInStatement");
    assert("ReturnStatement"@.len() != "ForInStatement"@.len());
    reveal_strlit("ForOfStatement");
    assert("ReturnStatement"@.len() != "ForOfStatement"@.len());
    reveal_strlit("WhileStatement");
    assert("ReturnStatement"@.len() != "WhileStatement"@.len());
    reveal_strlit("DoWhileStatement");
    assert("ReturnStatement"@.len() != "DoWhileStatement"@.len());
    reveal_strlit("SwitchStatement");
    assert("ReturnStatement"@[0] != "SwitchStatement"@[0]);
    reveal_strlit("TryStatement");
    assert("ReturnStatement"@.len() != "TryStatement"@.len());
    reveal_strlit("WithStatement");
    assert("ReturnStatement"@.len() != "WithStatement"@.len());
    reveal_strlit("LabeledStatement");
    assert("ReturnStatement"@.len() != "LabeledStatement"@.len());
    reveal_strlit("ExportNamedDeclaration");
    assert("ReturnStatement"@.len() != "ExportNamedDeclaration"@.len());
    reveal_strlit("ExportDefaultDeclaration");
    assert("ReturnStatement"@.len() != "ExportDefaultDeclaration"@.len());
    reveal_strlit("BreakStatement");
    assert("ReturnStatement"@.len() != "BreakStatement"@.len());
    reveal_strlit("ContinueStatement");
    assert("ReturnStatement"@.len() != "ContinueStatement"@.len());
    reveal_strlit("ThrowStatement");
    assert("ReturnStatement"@.len() != "ThrowStatement"@.len());
    reveal_strlit("ThrowStatement");
    reveal_strlit("BlockStatement");
    assert("ThrowStatement"@[0] != "BlockStatement"@[0]);
    reveal_strlit("ExpressionStatement");
    assert("ThrowStatement"@.len() != "ExpressionStatement"@.len());
    reveal_strlit("VariableDeclaration");
    assert("ThrowStatement"@.len() != "VariableDeclaration"@.len());
    reveal_strlit("FunctionDeclaration");
    assert("ThrowStatement"@.len() != "FunctionDeclaration"@.len());
    reveal_strlit("TSDeclareFunction");
    assert("ThrowStatement"@.len() != "TSDeclareFunction"@.len());
    reveal_strlit("ClassDeclaration");
    assert("ThrowStatement"@.len() != "ClassDeclaration"@.len());
    reveal_strlit("IfStatement");
    assert("ThrowStatement"@.len() != "IfStatement"@.len());
    reveal_strlit("ForStatement");
    assert("ThrowStatement"@.len() != "ForStatement"@.len());
    reveal_strlit("ForInStatement");
    assert("ThrowStatement"@[0] != "ForInStatement"@[0]);
    reveal_strlit("ForOfStatement");
    assert("ThrowStatement"@[0] != "ForOfStatement"@[0]);
    reveal_strlit("WhileStatement");
    assert("ThrowStatement"@[0] != "WhileStatement"@[0]);
    reveal_strlit("DoWhileStatement");
    assert("ThrowStatement"@.len() != "DoWhileStatement"@.len());
    reveal_strlit("SwitchStatement");
    assert("ThrowStatement"@.len() != "SwitchStatement"@.len());
    reveal_strlit("TryStatement");
    assert("ThrowStatement"@.len() != "TryStatement"@.len());
    reveal_strlit("WithStatement");
    assert("ThrowStatement"@.len() != "WithStatement"@.len());
    reveal_strlit("LabeledStatement");
    assert("ThrowStatement"@.len() != "LabeledStatement"@.len());
    reveal_strlit("ExportNamedDeclaration");
    assert("ThrowStatement"@.len() != "ExportNamedDeclaration"@.len());
    reveal_strlit("ExportDefaultDeclaration");
    assert("ThrowStatement"@.len() != "ExportDefaultDeclaration"@.len());
    reveal_strlit("BreakStatement");
    assert("ThrowStatement"@[0] != "BreakStatement"@[0]);
    reveal_strlit("ContinueStatement");
    assert("ThrowStatement"@.len() != "ContinueStatement"@.len());
    reveal_strlit("ReturnStatement");
    assert("ThrowStatement"@.len() != "ReturnStatement"@.len());
    law_stmt(j, strict);
    law_jump_stmt(j, strict);
}

/// `break` and `continue` keep their label.
pub proof fn law_jump_tree(j: JsonTree, strict: bool)
    requires
        is_kind(j, "BreakStatement"@) || is_kind(j, "ContinueStatement"@),
    ensures
        is_kind(j, "BreakStatement"@) ==> stmt_of(j, strict) == Ok::<_, ErrorView>(StmtTree::Break(if field(j, "label"@) is Null { None } else { Some(text_in(field(field(j, "label"@), "name"@))) })),
        is_kind(j, "ContinueStatement"@) ==> stmt_of(j, strict) == Ok::<_, ErrorView>(StmtTree::Continue(if field(j, "label"@) is Null { None } else { Some(text_in(field(field(j, "label"@), "name"@))) })),
{
    reveal_strlit("BreakStatement");
    reveal_strlit("BlockStatement");
    assert("BreakStatement"@[1] != "BlockStatement"@[1]);
    reveal_strlit("ExpressionStatement");
    assert("BreakStatement"@.len() != "ExpressionStatement"@.len());
    reveal_strlit("VariableDeclaration");
    assert("BreakStatement"@.len() != "VariableDeclaration"@.len());
    reveal_strlit("FunctionDeclaration");
    assert("BreakStatement"@.len() != "FunctionDeclaration"@.len());
    reveal_strlit("TSDeclareFunction");
    assert("BreakStatement"@.len() != "TSDeclareFunction"@.len());
    reveal_strlit("ClassDeclaration");
    assert("BreakStatement"@.len() != "ClassDeclaration"@.len());
    reveal_strlit("IfStatement");
    assert("BreakStatement"@.len() != "IfStatement"@.len());
    reveal_strlit("ForStatement");
    assert("BreakStatement"@.len() != "ForStatement"@.len());
    reveal_strlit("ForInStatement");
    assert("BreakStatement"@[0] != "ForInStatement"@[0]);
    reveal_strlit("ForOfStatement");
    assert("BreakStatement"@[0] != "ForOfStatement"@[0]);
    reveal_strlit("WhileStatement");
    assert("BreakStatement"@[0] != "WhileStatement"@[0]);
    reveal_strlit("DoWhileStatement");
    assert("BreakStatement"@.len() != "DoWhileStatement"@.len());
    reveal_strlit("SwitchStatement");
    assert("BreakStatement"@.len() != "SwitchStatement"@.len());
    reveal_strlit("TryStatement");
    assert("BreakStatement"@.len() != "TryStatement"@.len());
    reveal_strlit("WithStatement");
    assert("BreakStatement"@.len() != "WithStatement"@.len());
    reveal_strlit("LabeledStatement");
    assert("BreakStatement"@.len() != "LabeledStatement"@.len());
    reveal_strlit("ExportNamedDeclaration");
    assert("BreakStatement"@.len() != "ExportNamedDeclaration"@.len());
    reveal_strlit("ExportDefaultDeclaration");
    assert("BreakStatement"@.len() != "ExportDefaultDeclaration"@.len());
    reveal_strlit("ContinueStatement");
    assert("BreakStatement"@.len() != "ContinueStatement"@.len());
    reveal_strlit("ReturnStatement");
    assert("BreakStatement"@.len() != "ReturnStatement"@.len());
    reveal_strlit("ThrowStatement");
    assert("BreakStatement"@[0] != "ThrowStatement"@[0]);
    reveal_strlit("ContinueStatement");
    reveal_strlit("BlockStatement");
    assert("ContinueStatement"@.len() != "BlockStatement"@.len());
    reveal_strlit("ExpressionStatement");
    assert("ContinueStatement"@.len() != "ExpressionStatement"@.len());
    reveal_strlit("VariableDeclaration");
    assert("ContinueStatement"@.len() != "VariableDeclaration"@.len());
    reveal_strlit("FunctionDeclaration");
    assert("ContinueStatement"@.len() != "FunctionDeclaration"@.len());
    reveal_strlit("TSDeclareFunction");
    assert("ContinueStatement"@[0] != "TSDeclareFunction"@[0]);
    reveal_strlit("ClassDeclaration");
    assert("ContinueStatement"@.len() != "ClassDeclaration"@.len());
    reveal_strlit("IfStatement");
    assert("ContinueStatement"@.len() != "IfStatement"@.len());
    reveal_strlit("ForStatement");
    assert("ContinueStatement"@.len() != "ForStatement"@.len());
    reveal_strlit("ForInStatement");
    assert("ContinueStatement"@.len() != "ForInStatement"@.len());
    reveal_strlit("ForOfStatement");
    assert("ContinueStatement"@.len() != "ForOfStatement"@.len());
    reveal_strlit("WhileStatement");
    assert("ContinueStatement"@.len() != "WhileStatement"@.len());
    reveal_strlit("DoWhileStatement");
    assert("ContinueStatement"@.len() != "DoWhileStatement"@.len());
    reveal_strlit("SwitchStatement");
    assert("ContinueStatement"@.len() != "SwitchStatement"@.len());
    reveal_strlit("TryStatement");
    assert("ContinueStatement"@.len() != "TryStatement"@.len());
    reveal_strlit("WithStatement");
    assert("ContinueStatement"@.len() != "WithStatement"@.len());
    reveal_strlit("LabeledStatement");
    assert("ContinueStatement"@.len() != "LabeledStatement"@.len());
    reveal_strlit("ExportNamedDeclaration");
    assert("ContinueStatement"@.len() != "ExportNamedDeclaration"@.len());
    reveal_strlit("ExportDefaultDeclaration");
    assert("ContinueStatement"@.len() != "ExportDefaultDeclaration"@.len());
    reveal_strlit("BreakStatement");
    assert("ContinueStatement"@.len() != "BreakStatement"@.len());
    reveal_strlit("ReturnStatement");
    assert("ContinueStatement"@.len() != "ReturnStatement"@.len());
    reveal_strlit("ThrowStatement");
    assert("ContinueStatement"@.len() != "ThrowStatement"@.len());
    law_stmt(j, strict);
    law_jump_stmt(j, strict);
}

/// A `try` keeps its block, its `catch` clause and its `finally` block.
pub proof fn law_try_tree(j: JsonTree, strict: bool, block: Seq<StmtTree>, clause: CatchClauseTree, last: Seq<StmtTree>)
    requires
        is_kind(j, "TryStatement"@),
        stmts_of(field(field(j, "block"@), "body"@), 0, Seq::empty(), strict) == Ok::<_, ErrorView>(block),
        !(field(j, "handler"@) is Null) ==> catch_clause_of(field(j, "handler"@), strict) == Ok::<_, ErrorView>(clause),
        !(field(j, "finalizer"@) is Null) ==> stmts_of(field(field(j, "finalizer"@), "body"@), 0, Seq::empty(), strict) == Ok::<_, ErrorView>(last),
    ensures
        stmt_of(j, strict) == Ok::<_, ErrorView>(StmtTree::Try { try_block: block, catch: if field(j, "handler"@) is Null { None } else { Some(clause) }, finally: if field(j, "finalizer"@) is Null { None } else { Some(last) } }),
{
    reveal_strlit("TryStatement");
    reveal_strlit("BlockStatement");
    assert("TryStatement"@.len() != "BlockStatement"@.len());
    reveal_strlit("ExpressionStatement");
    assert("TryStatement"@.len() != "ExpressionStatement"@.len());
    reveal_strlit("VariableDeclaration");
    assert("TryStatement"@.len() != "VariableDeclaration"@.len());
    reveal_strlit("FunctionDeclaration");
    assert("TryStatement"@.len() != "FunctionDeclaration"@.len());
    reveal_strlit("TSDeclareFunction");
    assert("TryStatement"@.len() != "TSDeclareFunction"@.len());
    reveal_strlit("ClassDeclaration");
    assert("TryStatement"@.len() != "ClassDeclaration"@.len());
    reveal_strlit("IfStatement");
    assert("TryStatement"@.len() != "IfStatement"@.len());
    reveal_strlit("ForStatement");
    assert("TryStatement"@[0] != "ForStatement"@[0]);
    reveal_strlit("ForInStatement");
    assert("TryStatement"@.len() != "ForInStatement"@.len());
    reveal_strlit("ForOfStatement");
    assert("TryStatement"@.len() != "ForOfStatement"@.len());
    reveal_strlit("WhileStatement");
    assert("TryStatement"@.len() != "WhileStatement"@.len());
    reveal_strlit("DoWhileStatement");
    assert("TryStatement"@.len() != "DoWhileStatement"@.len());
    reveal_strlit("SwitchStatement");
    assert("TryStatement"@.len() != "SwitchStatement"@.len());
    reveal_strlit("WithStatement");
    assert("TryStatement"@.len() != "WithStatement"@.len());
    reveal_strlit("LabeledStatement");
    assert("TryStatement"@.len() != "LabeledStatement"@.len());
    reveal_strlit("ExportNamedDeclaration");
    assert("TryStatement"@.len() != "ExportNamedDeclaration"@.len());
    reveal_strlit("ExportDefaultDeclaration");
    assert("TryStatement"@.len() != "ExportDefaultDeclaration"@.len());
    reveal_strlit("BreakStatement");
    assert("TryStatement"@.len() != "BreakStatement"@.len());
    reveal_strlit("ContinueStatement");
    assert("TryStatement"@.len() != "ContinueStatement"@.len());
    reveal_strlit("ReturnStatement");
    assert("TryStatement"@.len() != "ReturnStatement"@.len());
    reveal_strlit("ThrowStatement");
    assert("TryStatement"@.len() != "ThrowStatement"@.len());
    law_stmt(j, strict);
    law_block_stmt(j, strict);
}

/// A `switch` keeps what it chooses by and its clauses.
pub proof fn law_switch_tree(j: JsonTree, strict: bool, discriminant: ExprTree, cases: Seq<SwitchCaseTree>)
    requires
        is_kind(j, "SwitchStatement"@),
        expr_of(field(j, "discriminant"@), strict) == Ok::<_, ErrorView>(discriminant),
        cases_of(field(j, "cases"@), 0, Seq::empty(), strict) == Ok::<_, ErrorView>(cases),
        !redeclared(cases, strict),
    ensures
        stmt_of(j, strict) == Ok::<_, ErrorView>(StmtTree::Switch { discriminant, cases }),
{
    reveal_strlit("SwitchStatement");
    reveal_strlit("BlockStatement");
    assert("SwitchStatement"@.len() != "BlockStatement"@.len());
    reveal_strlit("ExpressionStatement");
    assert("SwitchStatement"@.len() != "ExpressionStatement"@.len());
    reveal_strlit("VariableDeclaration");
    assert("SwitchStatement"@.len() != "VariableDeclaration"@.len());
    reveal_strlit("FunctionDeclaration");
    assert("SwitchStatement"@.len() != "FunctionDeclaration"@.len());
    reveal_strlit("TSDeclareFunction");
    assert("SwitchStatement"@.len() != "TSDeclareFunction"@.len());
    reveal_strlit("ClassDeclaration");
    assert("SwitchStatement"@.len() != "ClassDeclaration"@.len());
    reveal_strlit("IfStatement");
    assert("SwitchStatement"@.len() != "IfStatement"@.len());
    reveal_strlit("ForStatement");
    assert("SwitchStatement"@.len() != "ForStatement"@.len());
    reveal_strlit("ForInStatement");
    assert("SwitchStatement"@.len() != "ForInStatement"@.len());
    reveal_strlit("ForOfStatement");
    assert("SwitchStatement"@.len() != "ForOfStatement"@.len());
    reveal_strlit("WhileStatement");
    assert("SwitchStatement"@.len() != "WhileStatement"@.len());
    reveal_strlit("DoWhileStatement");
    assert("SwitchStatement"@.len() != "DoWhileStatement"@.len());
    reveal_strlit("TryStatement");
    assert("SwitchStatement"@.len() != "TryStatement"@.len());
    reveal_strlit("WithStatement");
    assert("SwitchStatement"@.len() != "WithStatement"@.len());
    reveal_strlit("LabeledStatement");
    assert("SwitchStatement"@.len() != "LabeledStatement"@.len());
    reveal_strlit("ExportNamedDeclaration");
    assert("SwitchStatement"@.len() != "ExportNamedDeclaration"@.len());
    reveal_strlit("ExportDefaultDeclaration");
    assert("SwitchStatement"@.len() != "ExportDefaultDeclaration"@.len());
    reveal_strlit("BreakStatement");
    assert("SwitchStatement"@.len() != "BreakStatement"@.len());
    reveal_strlit("ContinueStatement");
    assert("SwitchStatement"@.len() != "ContinueStatement"@.len());
    reveal_strlit("ReturnStatement");
    assert("SwitchStatement"@[0] != "ReturnStatement"@[0]);
    reveal_strlit("ThrowStatement");
    assert("SwitchStatement"@.len() != "ThrowStatement"@.len());
    law_stmt(j, strict);
    law_block_stmt(j, strict);
}

/// A labelled statement keeps its label and its body, and a block its statements; an
/// expression statement is its expression.
pub proof fn law_simple_trees(j: JsonTree, strict: bool, body: StmtTree, list: Seq<StmtTree>, e: ExprTree)
    requires
        is_kind(j, "LabeledStatement"@) && stmt_of(field(j, "body"@), strict) == Ok::<_, ErrorView>(body) || is_kind(j, "BlockStatement"@) && stmts_of(field(j, "body"@), 0, Seq::empty(), strict) == Ok::<_, ErrorView>(list) || is_kind(j, "ExpressionStatement"@) && expr_of(field(j, "expression"@), strict) == Ok::<_, ErrorView>(e),
    ensures
        is_kind(j, "LabeledStatement"@) ==> stmt_of(j, strict) == Ok::<_, ErrorView>(StmtTree::Labeled { label: text_in(field(field(j, "label"@), "name"@)), body: Box::new(body) }),
        is_kind(j, "BlockStatement"@) ==> stmt_of(j, strict) == Ok::<_, ErrorView>(StmtTree::Block(list)),
        is_kind(j, "ExpressionStatement"@) ==> stmt_of(j, strict) == Ok::<_, ErrorView>(StmtTree::Expr(e)),
{
    reveal_strlit("LabeledStatement");
    reveal_strlit("BlockStatement");
    assert("LabeledStatement"@.len() != "BlockStatement"@.len());
    reveal_strlit("ExpressionStatement");
    assert("LabeledStatement"@.len() != "ExpressionStatement"@.len());
    reveal_strlit("VariableDeclaration");
    assert("LabeledStatement"@.len() != "VariableDeclaration"@.len());
    reveal_strlit("FunctionDeclaration");
    assert("LabeledStatement"@.len() != "FunctionDeclaration"@.len());
    reveal_strlit("TSDeclareFunction");
    assert("LabeledStatement"@.len() != "TSDeclareFunction"@.len());
    reveal_strlit("ClassDeclaration");
    assert("LabeledStatement"@[0] != "ClassDeclaration"@[0]);
    reveal_strlit("IfStatement");
    assert("LabeledStatement"@.len() != "IfStatement"@.len());
    reveal_strlit("ForStatement");
    assert("LabeledStatement"@.len() != "ForStatement"@.len());
    reveal_strlit("ForInStatement");
    assert("LabeledStatement"@.len() != "ForInStatement"@.len());
    reveal_strlit("ForOfStatement");
    assert("LabeledStatement"@.len() != "ForOfStatement"@.len());
    reveal_strlit("WhileStatement");
    assert("LabeledStatement"@.len() != "WhileStatement"@.len());
    reveal_strlit("DoWhileStatement");
    assert("LabeledStatement"@[0] != "DoWhileStatement"@[0]);
    reveal_strlit("SwitchStatement");
    assert("LabeledStatement"@.len() != "SwitchStatement"@.len());
    reveal_strlit("TryStatement");
    assert("LabeledStatement"@.len() != "TryStatement"@.len());
    reveal_strlit("WithStatement");
    assert("LabeledStatement"@.len() != "WithStatement"@.len());
    reveal_strlit("ExportNamedDeclaration");
    assert("LabeledStatement"@.len() != "ExportNamedDeclaration"@.len());
    reveal_strlit("ExportDefaultDeclaration");
    assert("LabeledStatement"@.len() != "ExportDefaultDeclaration"@.len());
    reveal_strlit("BreakStatement");
    assert("LabeledStatement"@.len() != "BreakStatement"@.len());
    reveal_strlit("ContinueStatement");
    assert("LabeledStatement"@.len() != "ContinueStatement"@.len());
    reveal_strlit("ReturnStatement");
    assert("LabeledStatement"@.len() != "ReturnStatement"@.len());
    reveal_strlit("ThrowStatement");
    assert("LabeledStatement"@.len() != "ThrowStatement"@.len());
    reveal_strlit("BlockStatement");
    reveal_strlit("ExpressionStatement");
    assert("BlockStatement"@.len() != "ExpressionStatement"@.len());
    reveal_strlit("VariableDeclaration");
    assert("BlockStatement"@.len() != "VariableDeclaration"@.len());
    reveal_strlit("FunctionDeclaration");
    assert("BlockStatement"@.len() != "FunctionDeclaration"@.len());
    reveal_strlit("TSDeclareFunction");
    assert("BlockStatement"@.len() != "TSDeclareFunction"@.len());
    reveal_strlit("ClassDeclaration");
    assert("BlockStatement"@.len() != "ClassDeclaration"@.len());
    reveal_strlit("IfStatement");
    assert("BlockStatement"@.len() != "IfStatement"@.len());
    reveal_strlit("ForStatement");
    assert("BlockStatement"@.len() != "ForStatement"@.len());
    reveal_strlit("ForInStatement");
    assert("BlockStatement"@[0] != "ForInStatement"@[0]);
    reveal_strlit("ForOfStatement");
    assert("BlockStatement"@[0] != "ForOfStatement"@[0]);
    reveal_strlit("WhileStatement");
    assert("BlockStatement"@[0] != "WhileStatement"@[0]);
    reveal_strlit("DoWhileStatement");
    assert("BlockStatement"@.len() != "DoWhileStatement"@.len());
    reveal_strlit("SwitchStatement");
    assert("BlockStatement"@.len() != "SwitchStatement"@.len());
    reveal_strlit("TryStatement");
    assert("BlockStatement"@.len() != "TryStatement"@.len());
    reveal_strlit("WithStatement");
    assert("BlockStatement"@.len() != "WithStatement"@.len());
    reveal_strlit("LabeledStatement");
    assert("BlockStatement"@.len() != "LabeledStatement"@.len());
    reveal_strlit("ExportNamedDeclaration");
    assert("BlockStatement"@.len() != "ExportNamedDeclaration"@.len());
    reveal_strlit("ExportDefaultDeclaration");
    assert("BlockStatement"@.len() != "ExportDefaultDeclaration"@.len());
    reveal_strlit("BreakStatement");
    assert("BlockStatement"@[1] != "BreakStatement"@[1]);
    reveal_strlit("ContinueStatement");
    assert("BlockStatement"@.len() != "ContinueStatement"@.len());
    reveal_strlit("ReturnStatement");
    assert("BlockStatement"@.len() != "ReturnStatement"@.len());
    reveal_strlit("ThrowStatement");
    assert("BlockStatement"@[0] != "ThrowStatement"@[0]);
    reveal_strlit("ExpressionStatement");
    reveal_strlit("BlockStatement");
    assert("ExpressionStatement"@.len() != "BlockStatement"@.len());
    reveal_strlit("VariableDeclaration");
    assert("ExpressionStatement"@[0] != "VariableDeclaration"@[0]);
    reveal_strlit("FunctionDeclaration");
    assert("ExpressionStatement"@[0] != "FunctionDeclaration"@[0]);
    reveal_strlit("TSDeclareFunction");
    assert("ExpressionStatement"@.len() != "TSDeclareFunction"@.len());
    reveal_strlit("ClassDeclaration");
    assert("ExpressionStatement"@.len() != "ClassDeclaration"@.len());
    reveal_strlit("IfStatement");
    assert("ExpressionStatement"@.len() != "IfStatement"@.len());
    reveal_strlit("ForStatement");
    assert("ExpressionStatement"@.len() != "ForStatement"@.len());
    reveal_strlit("ForInStatement");
    assert("ExpressionStatement"@.len() != "ForInStatement"@.len());
    reveal_strlit("ForOfStatement");
    assert("ExpressionStatement"@.len() != "ForOfStatement"@.len());
    reveal_strlit("WhileStatement");
    assert("ExpressionStatement"@.len() != "WhileStatement"@.len());
    reveal_strlit("DoWhileStatement");
    assert("ExpressionStatement"@.len() != "DoWhileStatement"@.len());
    reveal_strlit("SwitchStatement");
    assert("ExpressionStatement"@.len() != "SwitchStatement"@.len());
    reveal_strlit("TryStatement");
    assert("ExpressionStatement"@.len() != "TryStatement"@.len());
    reveal_strlit("WithStatement");
    assert("ExpressionStatement"@.len() != "WithStatement"@.len());
    reveal_strlit("LabeledStatement");
    assert("ExpressionStatement"@.len() != "LabeledStatement"@.len());
    reveal_strlit("ExportNamedDeclaration");
    assert("ExpressionStatement"@.len() != "ExportNamedDeclaration"@.len());
    reveal_strlit("ExportDefaultDeclaration");
    assert("ExpressionStatement"@.len() != "ExportDefaultDeclaration"@.len());
    reveal_strlit("BreakStatement");
    assert("ExpressionStatement"@.len() != "BreakStatement"@.len());
    reveal_strlit("ContinueStatement");
    assert("ExpressionStatement"@.len() != "ContinueStatement"@.len());
    reveal_strlit("ReturnStatement");
    assert("ExpressionStatement"@.len() != "ReturnStatement"@.len());
    reveal_strlit("ThrowStatement");
    assert("ExpressionStatement"@.len() != "ThrowStatement"@.len());
    law_stmt(j, strict);
    law_block_stmt(j, strict);
}

/// A declaration keeps its declarators, and binds as its keyword says.
pub proof fn law_declaration_tree(j: JsonTree, strict: bool, list: Seq<DeclaratorTree>)
    requires
        is_kind(j, "VariableDeclaration"@),
        declarators_of(field(j, "declarations"@), 0, Seq::empty(), strict) == Ok::<_, ErrorView>(list),
    ensures
        field(j, "kind"@) == JsonTree::Str("var"@) ==> stmt_of(j, strict) == Ok::<_, ErrorView>(StmtTree::Var(list, VarKind::Var)),
        field(j, "kind"@) == JsonTree::Str("const"@) ==> stmt_of(j, strict) == Ok::<_, ErrorView>(StmtTree::Var(list, VarKind::Const)),
        field(j, "kind"@) == JsonTree::Str("let"@) ==> stmt_of(j, strict) == Ok::<_, ErrorView>(StmtTree::Var(list, VarKind::Let)),
{
    reveal_strlit("VariableDeclaration");
    reveal_strlit("BlockStatement");
    assert("VariableDeclaration"@.len() != "BlockStatement"@.len());
    reveal_strlit("ExpressionStatement");
    assert("VariableDeclaration"@[0] != "ExpressionStatement"@[0]);
    reveal_strlit("FunctionDeclaration");
    assert("VariableDeclaration"@[0] != "FunctionDeclaration"@[0]);
    reveal_strlit("TSDeclareFunction");
    assert("VariableDeclaration"@.len() != "TSDeclareFunction"@.len());
    reveal_strlit("ClassDeclaration");
    assert("VariableDeclaration"@.len() != "ClassDeclaration"@.len());
    reveal_strlit("IfStatement");
    assert("VariableDeclaration"@.len() != "IfStatement"@.len());
    reveal_strlit("ForStatement");
    assert("VariableDeclaration"@.len() != "ForStatement"@.len());
    reveal_strlit("ForInStatement");
    assert("VariableDeclaration"@.len() != "ForInStatement"@.len());
    reveal_strlit("ForOfStatement");
    assert("VariableDeclaration"@.len() != "ForOfStatement"@.len());
    reveal_strlit("WhileStatement");
    assert("VariableDeclaration"@.len() != "WhileStatement"@.len());
    reveal_strlit("DoWhileStatement");
    assert("VariableDeclaration"@.len() != "DoWhileStatement"@.len());
    reveal_strlit("SwitchStatement");
    assert("VariableDeclaration"@.len() != "SwitchStatement"@.len());
    reveal_strlit("TryStatement");
    assert("VariableDeclaration"@.len() != "TryStatement"@.len());
    reveal_strlit("WithStatement");
    assert("VariableDeclaration"@.len() != "WithStatement"@.len());
    reveal_strlit("LabeledStatement");
    assert("VariableDeclaration"@.len() != "LabeledStatement"@.len());
    reveal_strlit("ExportNamedDeclaration");
    assert("VariableDeclaration"@.len() != "ExportNamedDeclaration"@.len());
    reveal_strlit("ExportDefaultDeclaration");
    assert("VariableDeclaration"@.len() != "ExportDefaultDeclaration"@.len());
    reveal_strlit("BreakStatement");
    assert("VariableDeclaration"@.len() != "BreakStatement"@.len());
    reveal_strlit("ContinueStatement");
    assert("VariableDeclaration"@.len() != "ContinueStatement"@.len());
    reveal_strlit("ReturnStatement");
    assert("VariableDeclaration"@.len() != "ReturnStatement"@.len());
    reveal_strlit("ThrowStatement");
    assert("VariableDeclaration"@.len() != "ThrowStatement"@.len());
    reveal_strlit("var");
    reveal_strlit("const");
    reveal_strlit("let");
    assert("var"@.len() == 3 && "let"@.len() == 3 && "const"@.len() == 5);
    assert("var"@[0] == 'v' && "let"@[0] == 'l');
    law_stmt(j, strict);
    law_var_stmt(j, strict);
}

/// A declared function keeps its name, its parameters and its body.
pub proof fn law_function_tree(j: JsonTree, strict: bool, params: Seq<PatternTree>, body: Seq<StmtTree>)
    requires
        is_kind(j, "FunctionDeclaration"@),
        !(field(j, "id"@) is Null),
        params_of(j, strict) == Ok::<_, ErrorView>(params),
        function_body_of(j, strict) == Ok::<_, ErrorView>(body),
    ensures
        stmt_of(j, strict) == Ok::<_, ErrorView>(StmtTree::FunctionDecl { name: text_in(field(field(j, "id"@), "name"@)), params, body }),
{
    reveal_strlit("FunctionDeclaration");
    reveal_strlit("BlockStatement");
    assert("FunctionDeclaration"@.len() != "BlockStatement"@.len());
    reveal_strlit("ExpressionStatement");
    assert("FunctionDeclaration"@[0] != "ExpressionStatement"@[0]);
    reveal_strlit("VariableDeclaration");
    assert("FunctionDeclaration"@[0] != "VariableDeclaration"@[0]);
    reveal_strlit("TSDeclareFunction");
    assert("FunctionDeclaration"@.len() != "TSDeclareFunction"@.len());
    reveal_strlit("ClassDeclaration");
    assert("FunctionDeclaration"@.len() != "ClassDeclaration"@.len());
    reveal_strlit("IfStatement");
    assert("FunctionDeclaration"@.len() != "IfStatement"@.len());
    reveal_strlit("ForStatement");
    assert("FunctionDeclaration"@.len() != "ForStatement"@.len());
    reveal_strlit("ForInStatement");
    assert("FunctionDeclaration"@.len() != "ForInStatement"@.len());
    reveal_strlit("ForOfStatement");
    assert("FunctionDeclaration"@.len() != "ForOfStatement"@.len());
    reveal_strlit("WhileStatement");
    assert("FunctionDeclaration"@.len() != "WhileStatement"@.len());
    reveal_strlit("DoWhileStatement");
    assert("FunctionDeclaration"@.len() != "DoWhileStatement"@.len());
    reveal_strlit("SwitchStatement");
    assert("FunctionDeclaration"@.len() != "SwitchStatement"@.len());
    reveal_strlit("TryStatement");
    assert("FunctionDeclaration"@.len() != "TryStatement"@.len());
    reveal_strlit("WithStatement");
    assert("FunctionDeclaration"@.len() != "WithStatement"@.len());
    reveal_strlit("LabeledStatement");
    assert("FunctionDeclaration"@.len() != "LabeledStatement"@.len());
    reveal_strlit("ExportNamedDeclaration");
    assert("FunctionDeclaration"@.len() != "ExportNamedDeclaration"@.len());
    reveal_strlit("ExportDefaultDeclaration");
    assert("FunctionDeclaration"@.len() != "ExportDefaultDeclaration"@.len());
    reveal_strlit("BreakStatement");
    assert("FunctionDeclaration"@.len() != "BreakStatement"@.len());
    reveal_strlit("ContinueStatement");
    assert("FunctionDeclaration"@.len() != "ContinueStatement"@.len());
    reveal_strlit("ReturnStatement");
    assert("FunctionDeclaration"@.len() != "ReturnStatement"@.len());
    reveal_strlit("ThrowStatement");
    assert("FunctionDeclaration"@.len() != "ThrowStatement"@.len());
    law_stmt(j, strict);
    law_function_stmt(j, strict);
}

/// A name that is bound is its name; a default is kept with the pattern that it is for.
pub proof fn law_binding_trees(j: JsonTree, strict: bool, inner: PatternTree, default: ExprTree)
    requires
        is_kind(j, "Identifier"@) || (is_kind(j, "AssignmentPattern"@) && binding_of(field(j, "left"@), strict) == Ok::<_, ErrorView>(inner) && expr_of(field(j, "right"@), strict) == Ok::<_, ErrorView>(default)),
    ensures
        is_kind(j, "Identifier"@) ==> binding_of(j, strict) == Ok::<_, ErrorView>(PatternTree::Ident(text_in(field(j, "name"@)))),
        is_kind(j, "AssignmentPattern"@) ==> binding_of(j, strict) == Ok::<_, ErrorView>(PatternTree::Default { inner: Box::new(inner), default: Box::new(default) }),
{
    reveal_strlit("Identifier");
    reveal_strlit("ObjectPattern");
    assert("Identifier"@.len() != "ObjectPattern"@.len());
    reveal_strlit("ArrayPattern");
    assert("Identifier"@.len() != "ArrayPattern"@.len());
    reveal_strlit("AssignmentPattern");
    assert("Identifier"@.len() != "AssignmentPattern"@.len());
    reveal_strlit("AssignmentPattern");
    reveal_strlit("Identifier");
    assert("AssignmentPattern"@.len() != "Identifier"@.len());
    reveal_strlit("ObjectPattern");
    assert("AssignmentPattern"@.len() != "ObjectPattern"@.len());
    reveal_strlit("ArrayPattern");
    assert("AssignmentPattern"@.len() != "ArrayPattern"@.len());
    law_binding(j, strict);
}

/// An array pattern keeps its elements and its rest.
pub proof fn law_array_pattern_tree(j: JsonTree, strict: bool, elems: Seq<Option<PatternTree>>, rest: Option<PatternTree>)
    requires
        is_kind(j, "ArrayPattern"@),
        binding_elems_of(field(j, "elements"@), 0, Seq::empty(), strict) == Ok::<_, ErrorView>(elems),
        binding_rest_of(field(j, "elements"@), strict) == Ok::<_, ErrorView>(rest),
    ensures
        binding_of(j, strict) == Ok::<_, ErrorView>(PatternTree::Array { elems, rest: match rest { Some(p) => Some(Box::new(p)), None => None } }),
{
    reveal_strlit("ArrayPattern");
    reveal_strlit("Identifier");
    assert("ArrayPattern"@.len() != "Identifier"@.len());
    reveal_strlit("ObjectPattern");
    assert("ArrayPattern"@.len() != "ObjectPattern"@.len());
    reveal_strlit("AssignmentPattern");
    assert("ArrayPattern"@.len() != "AssignmentPattern"@.len());
    law_binding(j, strict);
}

/// An object pattern keeps its properties and its rest.
pub proof fn law_object_pattern_tree(j: JsonTree, strict: bool, props: Seq<PropPatternTree>, rest: Option<PatternTree>)
    requires
        is_kind(j, "ObjectPattern"@),
        binding_props_of(field(j, "properties"@), 0, Seq::empty(), strict) == Ok::<_, ErrorView>(props),
        binding_rest_of(field(j, "properties"@), strict) == Ok::<_, ErrorView>(rest),
    ensures
        binding_of(j, strict) == Ok::<_, ErrorView>(PatternTree::Object { props, rest: match rest { Some(p) => Some(Box::new(p)), None => None } }),
{
    reveal_strlit("ObjectPattern");
    reveal_strlit("Identifier");
    assert("ObjectPattern"@.len() != "Identifier"@.len());
    reveal_strlit("ArrayPattern");
    assert("ObjectPattern"@.len() != "ArrayPattern"@.len());
    reveal_strlit("AssignmentPattern");
    assert("ObjectPattern"@.len() != "AssignmentPattern"@.len());
    law_binding(j, strict);
}

/// The rest of a pattern is the target of its last element, where that is a rest.
pub proof fn law_rest_tree(j: JsonTree, strict: bool, p: PatternTree)
    requires
        count(j) > 0,
        is_kind(item(j, count(j) - 1), "RestElement"@) ==> binding_of(field(item(j, count(j) - 1), "argument"@), strict) == Ok::<_, ErrorView>(p),
    ensures
        is_kind(item(j, count(j) - 1), "RestElement"@) ==> binding_rest_of(j, strict) == Ok::<_, ErrorView>(Some(p)),
        !is_kind(item(j, count(j) - 1), "RestElement"@) ==> binding_rest_of(j, strict) == Ok::<_, ErrorView>(None::<PatternTree>),
{
    law_binding_rest(j, strict);
}

/// The body of a generator and that of an `async` function are marked as such; another
/// body is its statements.
pub proof fn law_function_body_tree(j: JsonTree, strict: bool, list: Seq<StmtTree>)
    requires
        stmts_of(field(field(j, "body"@), "body"@), 0, Seq::empty(), strict) == Ok::<_, ErrorView>(list),
        !(flag(field(j, "generator"@)) && flag(field(j, "async"@))),
    ensures
        flag(field(j, "generator"@)) ==> function_body_of(j, strict) == Ok::<_, ErrorView>(seq![StmtTree::GeneratorBody(list)]),
        flag(field(j, "async"@)) ==> function_body_of(j, strict) == Ok::<_, ErrorView>(seq![StmtTree::AsyncBody(list)]),
        !flag(field(j, "async"@)) && !flag(field(j, "generator"@)) ==> function_body_of(j, strict) == Ok::<_, ErrorView>(list),
{
    law_function_body(j, strict);
}

/// An arrow function whose body is an expression returns it.
pub proof fn law_arrow_tree(j: JsonTree, strict: bool, params: Seq<PatternTree>, e: ExprTree)
    requires
        is_kind(j, "ArrowFunctionExpression"@),
        !is_kind(field(j, "body"@), "BlockStatement"@),
        params_of(j, strict) == Ok::<_, ErrorView>(params),
        expr_of(field(j, "body"@), strict) == Ok::<_, ErrorView>(e),
    ensures
        !flag(field(j, "async"@)) ==> expr_of(j, strict) == Ok::<_, ErrorView>(ExprTree::Arrow { params, body: seq![StmtTree::Return(Some(e))] }),
        flag(field(j, "async"@)) ==> expr_of(j, strict) == Ok::<_, ErrorView>(ExprTree::Arrow { params, body: seq![StmtTree::AsyncBody(seq![StmtTree::Return(Some(e))])] }),
{
    reveal_strlit("ArrowFunctionExpression");
    reveal_strlit("Identifier");
    assert("ArrowFunctionExpression"@.len() != "Identifier"@.len());
    reveal_strlit("Literal");
    assert("ArrowFunctionExpression"@.len() != "Literal"@.len());
    reveal_strlit("ThisExpression");
    assert("ArrowFunctionExpression"@.len() != "ThisExpression"@.len());
    reveal_strlit("Super");
    assert("ArrowFunctionExpression"@.len() != "Super"@.len());
    reveal_strlit("MemberExpression");
    assert("ArrowFunctionExpression"@.len() != "MemberExpression"@.len());
    reveal_strlit("CallExpression");
    assert("ArrowFunctionExpression"@.len() != "CallExpression"@.len());
    reveal_strlit("NewExpression");
    assert("ArrowFunctionExpression"@.len() != "NewExpression"@.len());
    reveal_strlit("AssignmentExpression");
    assert("ArrowFunctionExpression"@.len() != "AssignmentExpression"@.len());
    reveal_strlit("FunctionExpression");
    assert("ArrowFunctionExpression"@.len() != "FunctionExpression"@.len());
    reveal_strlit("ClassExpression");
    assert("ArrowFunctionExpression"@.len() != "ClassExpression"@.len());
    reveal_strlit("ArrayExpression");
    assert("ArrowFunctionExpression"@.len() != "ArrayExpression"@.len());
    reveal_strlit("ObjectExpression");
    assert("ArrowFunctionExpression"@.len() != "ObjectExpression"@.len());
    reveal_strlit("SequenceExpression");
    assert("ArrowFunctionExpression"@.len() != "SequenceExpression"@.len());
    reveal_strlit("TemplateLiteral");
    assert("ArrowFunctionExpression"@.len() != "TemplateLiteral"@.len());
    reveal_strlit("TaggedTemplateExpression");
    assert("ArrowFunctionExpression"@.len() != "TaggedTemplateExpression"@.len());
    reveal_strlit("BinaryExpression");
    assert("ArrowFunctionExpression"@.len() != "BinaryExpression"@.len());
    reveal_strlit("LogicalExpression");
    assert("ArrowFunctionExpression"@.len() != "LogicalExpression"@.len());
    reveal_strlit("UnaryExpression");
    assert("ArrowFunctionExpression"@.len() != "UnaryExpression"@.len());
    reveal_strlit("UpdateExpression");
    assert("ArrowFunctionExpression"@.len() != "UpdateExpression"@.len());
    reveal_strlit("ConditionalExpression");
    assert("ArrowFunctionExpression"@.len() != "ConditionalExpression"@.len());
    reveal_strlit("AwaitExpression");
    assert("ArrowFunctionExpression"@.len() != "AwaitExpression"@.len());
    reveal_strlit("YieldExpression");
    assert("ArrowFunctionExpression"@.len() != "YieldExpression"@.len());
    law_expr(j, strict);
    law_closure(j, strict);
    law_arrow_body(j, strict);
}

/// A function expression keeps its name, where it has one, its parameters and its body.
pub proof fn law_function_expression_tree(j: JsonTree, strict: bool, params: Seq<PatternTree>, body: Seq<StmtTree>)
    requires
        is_kind(j, "FunctionExpression"@),
        params_of(j, strict) == Ok::<_, ErrorView>(params),
        function_body_of(j, strict) == Ok::<_, ErrorView>(body),
    ensures
        expr_of(j, strict) == Ok::<_, ErrorView>(ExprTree::Function { name: if field(j, "id"@) is Null { None } else { Some(text_in(field(field(j, "id"@), "name"@))) }, params, body }),
{
    reveal_strlit("FunctionExpression");
    reveal_strlit("Identifier");
    assert("FunctionExpression"@.len() != "Identifier"@.len());
    reveal_strlit("Literal");
    assert("FunctionExpression"@.len() != "Literal"@.len());
    reveal_strlit("ThisExpression");
    assert("FunctionExpression"@.len() != "ThisExpression"@.len());
    reveal_strlit("Super");
    assert("FunctionExpression"@.len() != "Super"@.len());
    reveal_strlit("MemberExpression");
    assert("FunctionExpression"@.len() != "MemberExpression"@.len());
    reveal_strlit("CallExpression");
    assert("FunctionExpression"@.len() != "CallExpression"@.len());
    reveal_strlit("NewExpression");
    assert("FunctionExpression"@.len() != "NewExpression"@.len());
    reveal_strlit("AssignmentExpression");
    assert("FunctionExpression"@.len() != "AssignmentExpression"@.len());
    reveal_strlit("ArrowFunctionExpression");
    assert("FunctionExpression"@.len() != "ArrowFunctionExpression"@.len());
    reveal_strlit("ClassExpression");
    assert("FunctionExpression"@.len() != "ClassExpression"@.len());
    reveal_strlit("ArrayExpression");
    assert("FunctionExpression"@.len() != "ArrayExpression"@.len());
    reveal_strlit("ObjectExpression");
    assert("FunctionExpression"@.len() != "ObjectExpression"@.len());
    reveal_strlit("SequenceExpression");
    assert("FunctionExpression"@[0] != "SequenceExpression"@[0]);
    reveal_strlit("TemplateLiteral");
    assert("FunctionExpression"@.len() != "TemplateLiteral"@.len());
    reveal_strlit("TaggedTemplateExpression");
    assert("FunctionExpression"@.len() != "TaggedTemplateExpression"@.len());
    reveal_strlit("BinaryExpression");
    assert("FunctionExpression"@.len() != "BinaryExpression"@.len());
    reveal_strlit("LogicalExpression");
    assert("FunctionExpression"@.len() != "LogicalExpression"@.len());
    reveal_strlit("UnaryExpression");
    assert("FunctionExpression"@.len() != "UnaryExpression"@.len());
    reveal_strlit("UpdateExpression");
    assert("FunctionExpression"@.len() != "UpdateExpression"@.len());
    reveal_strlit("ConditionalExpression");
    assert("FunctionExpression"@.len() != "ConditionalExpression"@.len());
    reveal_strlit("AwaitExpression");
    assert("FunctionExpression"@.len() != "AwaitExpression"@.len());
    reveal_strlit("YieldExpression");
    assert("FunctionExpression"@.len() != "YieldExpression"@.len());
    law_expr(j, strict);
    law_closure(j, strict);
}

/// A name, `this` and `super` are what they say.
pub proof fn law_leaf_trees(j: JsonTree, strict: bool)
    requires
        is_kind(j, "Identifier"@) || is_kind(j, "ThisExpression"@) || is_kind(j, "Super"@),
    ensures
        is_kind(j, "Identifier"@) ==> expr_of(j, strict) == Ok::<_, ErrorView>(ExprTree::Ident(text_in(field(j, "name"@)))),
        is_kind(j, "ThisExpression"@) ==> expr_of(j, strict) == Ok::<_, ErrorView>(ExprTree::This),
        is_kind(j, "Super"@) ==> expr_of(j, strict) == Ok::<_, ErrorView>(ExprTree::Super),
{
    reveal_strlit("Identifier");
    reveal_strlit("Literal");
    assert("Identifier"@.len() != "Literal"@.len());
    reveal_strlit("ThisExpression");
    assert("Identifier"@.len() != "ThisExpression"@.len());
    reveal_strlit("Super");
    assert("Identifier"@.len() != "Super"@.len());
    reveal_strlit("MemberExpression");
    assert("Identifier"@.len() != "MemberExpression"@.len());
    reveal_strlit("CallExpression");
    assert("Identifier"@.len() != "CallExpression"@.len());
    reveal_strlit("NewExpression");
    assert("Identifier"@.len() != "NewExpression"@.len());
    reveal_strlit("AssignmentExpression");
    assert("Identifier"@.len() != "AssignmentExpression"@.len());
    reveal_strlit("FunctionExpression");
    assert("Identifier"@.len() != "FunctionExpression"@.len());
    reveal_strlit("ArrowFunctionExpression");
    assert("Identifier"@.len() != "ArrowFunctionExpression"@.len());
    reveal_strlit("ClassExpression");
    assert("Identifier"@.len() != "ClassExpression"@.len());
    reveal_strlit("ArrayExpression");
    assert("Identifier"@.len() != "ArrayExpression"@.len());
    reveal_strlit("ObjectExpression");
    assert("Identifier"@.len() != "ObjectExpression"@.len());
    reveal_strlit("SequenceExpression");
    assert("Identifier"@.len() != "SequenceExpression"@.len());
    reveal_strlit("TemplateLiteral");
    assert("Identifier"@.len() != "TemplateLiteral"@.len());
    reveal_strlit("TaggedTemplateExpression");
    assert("Identifier"@.len() != "TaggedTemplateExpression"@.len());
    reveal_strlit("BinaryExpression");
    assert("Identifier"@.len() != "BinaryExpression"@.len());
    reveal_strlit("LogicalExpression");
    assert("Identifier"@.len() != "LogicalExpression"@.len());
    reveal_strlit("UnaryExpression");
    assert("Identifier"@.len() != "UnaryExpression"@.len());
    reveal_strlit("UpdateExpression");
    assert("Identifier"@.len() != "UpdateExpression"@.len());
    reveal_strlit("ConditionalExpression");
    assert("Identifier"@.len() != "ConditionalExpression"@.len());
    reveal_strlit("AwaitExpression");
    assert("Identifier"@.len() != "AwaitExpression"@.len());
    reveal_strlit("YieldExpression");
    assert("Identifier"@.len() != "YieldExpression"@.len());
    reveal_strlit("ThisExpression");
    reveal_strlit("Identifier");
    assert("ThisExpression"@.len() != "Identifier"@.len());
    reveal_strlit("Literal");
    assert("ThisExpression"@.len() != "Literal"@.len());
    reveal_strlit("Super");
    assert("ThisExpression"@.len() != "Super"@.len());
    reveal_strlit("MemberExpression");
    assert("ThisExpression"@.len() != "MemberExpression"@.len());
    reveal_strlit("CallExpression");
    assert("ThisExpression"@[0] != "CallExpression"@[0]);
    reveal_strlit("NewExpression");
    assert("ThisExpression"@.len() != "NewExpression"@.len());
    reveal_strlit("AssignmentExpression");
    assert("ThisExpression"@.len() != "AssignmentExpression"@.len());
    reveal_strlit("FunctionExpression");
    assert("ThisExpression"@.len() != "FunctionExpression"@.len());
    reveal_strlit("ArrowFunctionExpression");
    assert("ThisExpression"@.len() != "ArrowFunctionExpression"@.len());
    reveal_strlit("ClassExpression");
    assert("ThisExpression"@.len() != "ClassExpression"@.len());
    reveal_strlit("ArrayExpression");
    assert("ThisExpression"@.len() != "ArrayExpression"@.len());
    reveal_strlit("ObjectExpression");
    assert("ThisExpression"@.len() != "ObjectExpression"@.len());
    reveal_strlit("SequenceExpression");
    assert("ThisExpression"@.len() != "SequenceExpression"@.len());
    reveal_strlit("TemplateLiteral");
    assert("ThisExpression"@.len() != "TemplateLiteral"@.len());
    reveal_strlit("TaggedTemplateExpression");
    assert("ThisExpression"@.len() != "TaggedTemplateExpression"@.len());
    reveal_strlit("BinaryExpression");
    assert("ThisExpression"@.len() != "BinaryExpression"@.len());
    reveal_strlit("LogicalExpression");
    assert("ThisExpression"@.len() != "LogicalExpression"@.len());
    reveal_strlit("UnaryExpression");
    assert("ThisExpression"@.len() != "UnaryExpression"@.len());
    reveal_strlit("UpdateExpression");
    assert("ThisExpression"@.len() != "UpdateExpression"@.len());
    reveal_strlit("ConditionalExpression");
    assert("ThisExpression"@.len() != "ConditionalExpression"@.len());
    reveal_strlit("AwaitExpression");
    assert("ThisExpression"@.len() != "AwaitExpression"@.len());
    reveal_strlit("YieldExpression");
    assert("ThisExpression"@.len() != "YieldExpression"@.len());
    reveal_strlit("Super");
    reveal_strlit("Identifier");
    assert("Super"@.len() != "Identifier"@.len());
    reveal_strlit("Literal");
    assert("Super"@.len() != "Literal"@.len());
    reveal_strlit("ThisExpression");
    assert("Super"@.len() != "ThisExpression"@.len());
    reveal_strlit("MemberExpression");
    assert("Super"@.len() != "MemberExpression"@.len());
    reveal_strlit("CallExpression");
    assert("Super"@.len() != "CallExpression"@.len());
    reveal_strlit("NewExpression");
    assert("Super"@.len() != "NewExpression"@.len());
    reveal_strlit("AssignmentExpression");
    assert("Super"@.len() != "AssignmentExpression"@.len());
    reveal_strlit("FunctionExpression");
    assert("Super"@.len() != "FunctionExpression"@.len());
    reveal_strlit("ArrowFunctionExpression");
    assert("Super"@.len() != "ArrowFunctionExpression"@.len());
    reveal_strlit("ClassExpression");
    assert("Super"@.len() != "ClassExpression"@.len());
    reveal_strlit("ArrayExpression");
    assert("Super"@.len() != "ArrayExpression"@.len());
    reveal_strlit("ObjectExpression");
    assert("Super"@.len() != "ObjectExpression"@.len());
    reveal_strlit("SequenceExpression");
    assert("Super"@.len() != "SequenceExpression"@.len());
    reveal_strlit("TemplateLiteral");
    assert("Super"@.len() != "TemplateLiteral"@.len());
    reveal_strlit("TaggedTemplateExpression");
    assert("Super"@.len() != "TaggedTemplateExpression"@.len());
    reveal_strlit("BinaryExpression");
    assert("Super"@.len() != "BinaryExpression"@.len());
    reveal_strlit("LogicalExpression");
    assert("Super"@.len() != "LogicalExpression"@.len());
    reveal_strlit("UnaryExpression");
    assert("Super"@.len() != "UnaryExpression"@.len());
    reveal_strlit("UpdateExpression");
    assert("Super"@.len() != "UpdateExpression"@.len());
    reveal_strlit("ConditionalExpression");
    assert("Super"@.len() != "ConditionalExpression"@.len());
    reveal_strlit("AwaitExpression");
    assert("Super"@.len() != "AwaitExpression"@.len());
    reveal_strlit("YieldExpression");
    assert("Super"@.len() != "YieldExpression"@.len());
    law_expr(j, strict);
}

/// A literal is of the kind of its value; a big integer and a regular expression are
/// told by what describes them.
pub proof fn law_literal_trees(j: JsonTree, strict: bool)
    requires
        is_kind(j, "Literal"@),
    ensures
        field(j, "bigint"@) matches JsonTree::Str(t) ==> expr_of(j, strict) == Ok::<_, ErrorView>(ExprTree::Lit(LitTree::BigInt(t))),
        !(field(j, "bigint"@) is Str) && !(field(j, "regex"@) is Null) ==> expr_of(j, strict) == Ok::<_, ErrorView>(ExprTree::Lit(LitTree::Regex { pattern: text_in(field(field(j, "regex"@), "pattern"@)), flags: text_in(field(field(j, "regex"@), "flags"@)) })),
        !(field(j, "bigint"@) is Str) && field(j, "regex"@) is Null ==> (field(j, "value"@) matches JsonTree::Str(t) ==> expr_of(j, strict) == Ok::<_, ErrorView>(ExprTree::Lit(LitTree::Str(t)))),
        !(field(j, "bigint"@) is Str) && field(j, "regex"@) is Null ==> (field(j, "value"@) matches JsonTree::Bool(b) ==> expr_of(j, strict) == Ok::<_, ErrorView>(ExprTree::Lit(LitTree::Bool(b)))),
        !(field(j, "bigint"@) is Str) && field(j, "regex"@) is Null && field(j, "value"@) is Null ==> expr_of(j, strict) == Ok::<_, ErrorView>(ExprTree::Lit(LitTree::Null)),
{
    reveal_strlit("Literal");
    reveal_strlit("Identifier");
    assert("Literal"@.len() != "Identifier"@.len());
    reveal_strlit("ThisExpression");
    assert("Literal"@.len() != "ThisExpression"@.len());
    reveal_strlit("Super");
    assert("Literal"@.len() != "Super"@.len());
    reveal_strlit("MemberExpression");
    assert("Literal"@.len() != "MemberExpression"@.len());
    reveal_strlit("CallExpression");
    assert("Literal"@.len() != "CallExpression"@.len());
    reveal_strlit("NewExpression");
    assert("Literal"@.len() != "NewExpression"@.len());
    reveal_strlit("AssignmentExpression");
    assert("Literal"@.len() != "AssignmentExpression"@.len());
    reveal_strlit("FunctionExpression");
    assert("Literal"@.len() != "FunctionExpression"@.len());
    reveal_strlit("ArrowFunctionExpression");
    assert("Literal"@.len() != "ArrowFunctionExpression"@.len());
    reveal_strlit("ClassExpression");
    assert("Literal"@.len() != "ClassExpression"@.len());
    reveal_strlit("ArrayExpression");
    assert("Literal"@.len() != "ArrayExpression"@.len());
    reveal_strlit("ObjectExpression");
    assert("Literal"@.len() != "ObjectExpression"@.len());
    reveal_strlit("SequenceExpression");
    assert("Literal"@.len() != "SequenceExpression"@.len());
    reveal_strlit("TemplateLiteral");
    assert("Literal"@.len() != "TemplateLiteral"@.len());
    reveal_strlit("TaggedTemplateExpression");
    assert("Literal"@.len() != "TaggedTemplateExpression"@.len());
    reveal_strlit("BinaryExpression");
    assert("Literal"@.len() != "BinaryExpression"@.len());
    reveal_strlit("LogicalExpression");
    assert("Literal"@.len() != "LogicalExpression"@.len());
    reveal_strlit("UnaryExpression");
    assert("Literal"@.len() != "UnaryExpression"@.len());
    reveal_strlit("UpdateExpression");
    assert("Literal"@.len() != "UpdateExpression"@.len());
    reveal_strlit("ConditionalExpression");
    assert("Literal"@.len() != "ConditionalExpression"@.len());
    reveal_strlit("AwaitExpression");
    assert("Literal"@.len() != "AwaitExpression"@.len());
    reveal_strlit("YieldExpression");
    assert("Literal"@.len() != "YieldExpression"@.len());
    law_expr(j, strict);
    law_literal(j, strict);
}

/// An array, an object and a sequence keep their parts.
pub proof fn law_collection_trees(j: JsonTree, strict: bool, elems: Seq<ArrayElemTree>, props: Seq<PropTree>, list: Seq<ExprTree>)
    requires
        (is_kind(j, "ArrayExpression"@) && elems_of(field(j, "elements"@), 0, Seq::empty(), strict) == Ok::<_, ErrorView>(elems)) || (is_kind(j, "ObjectExpression"@) && props_of(field(j, "properties"@), 0, Seq::empty(), strict) == Ok::<_, ErrorView>(props)) || (is_kind(j, "SequenceExpression"@) && exprs_of(field(j, "expressions"@), 0, Seq::empty(), strict) == Ok::<_, ErrorView>(list)),
    ensures
        is_kind(j, "ArrayExpression"@) ==> expr_of(j, strict) == Ok::<_, ErrorView>(ExprTree::Array(elems)),
        is_kind(j, "ObjectExpression"@) ==> expr_of(j, strict) == Ok::<_, ErrorView>(ExprTree::Object(props)),
        is_kind(j, "SequenceExpression"@) ==> expr_of(j, strict) == Ok::<_, ErrorView>(ExprTree::Sequence(list)),
{
    reveal_strlit("ArrayExpression");
    reveal_strlit("Identifier");
    assert("ArrayExpression"@.len() != "Identifier"@.len());
    reveal_strlit("Literal");
    assert("ArrayExpression"@.len() != "Literal"@.len());
    reveal_strlit("ThisExpression");
    assert("ArrayExpression"@.len() != "ThisExpression"@.len());
    reveal_strlit("Super");
    assert("ArrayExpression"@.len() != "Super"@.len());
    reveal_strlit("MemberExpression");
    assert("ArrayExpression"@.len() != "MemberExpression"@.len());
    reveal_strlit("CallExpression");
    assert("ArrayExpression"@.len() != "CallExpression"@.len());
    reveal_strlit("NewExpression");
    assert("ArrayExpression"@.len() != "NewExpression"@.len());
    reveal_strlit("AssignmentExpression");
    assert("ArrayExpression"@.len() != "AssignmentExpression"@.len());
    reveal_strlit("FunctionExpression");
    assert("ArrayExpression"@.len() != "FunctionExpression"@.len());
    reveal_strlit("ArrowFunctionExpression");
    assert("ArrayExpression"@.len() != "ArrowFunctionExpression"@.len());
    reveal_strlit("ClassExpression");
    assert("ArrayExpression"@[0] != "ClassExpression"@[0]);
    reveal_strlit("ObjectExpression");
    assert("ArrayExpression"@.len() != "ObjectExpression"@.len());
    reveal_strlit("SequenceExpression");
    assert("ArrayExpression"@.len() != "SequenceExpression"@.len());
    reveal_strlit("TemplateLiteral");
    assert("ArrayExpression"@[0] != "TemplateLiteral"@[0]);
    reveal_strlit("TaggedTemplateExpression");
    assert("ArrayExpression"@.len() != "TaggedTemplateExpression"@.len());
    reveal_strlit("BinaryExpression");
    assert("ArrayExpression"@.len() != "BinaryExpression"@.len());
    reveal_strlit("LogicalExpression");
    assert("ArrayExpression"@.len() != "LogicalExpression"@.len());
    reveal_strlit("UnaryExpression");
    assert("ArrayExpression"@[0] != "UnaryExpression"@[0]);
    reveal_strlit("UpdateExpression");
    assert("ArrayExpression"@.len() != "UpdateExpression"@.len());
    reveal_strlit("ConditionalExpression");
    assert("ArrayExpression"@.len() != "ConditionalExpression"@.len());
    reveal_strlit("AwaitExpression");
    assert("ArrayExpression"@[1] != "AwaitExpression"@[1]);
    reveal_strlit("YieldExpression");
    assert("ArrayExpression"@[0] != "YieldExpression"@[0]);
    reveal_strlit("ObjectExpression");
    reveal_strlit("Identifier");
    assert("ObjectExpression"@.len() != "Identifier"@.len());
    reveal_strlit("Literal");
    assert("ObjectExpression"@.len() != "Literal"@.len());
    reveal_strlit("ThisExpression");
    assert("ObjectExpression"@.len() != "ThisExpression"@.len());
    reveal_strlit("Super");
    assert("ObjectExpression"@.len() != "Super"@.len());
    reveal_strlit("MemberExpression");
    assert("ObjectExpression"@[0] != "MemberExpression"@[0]);
    reveal_strlit("CallExpression");
    assert("ObjectExpression"@.len() != "CallExpression"@.len());
    reveal_strlit("NewExpression");
    assert("ObjectExpression"@.len() != "NewExpression"@.len());
    reveal_strlit("AssignmentExpression");
    assert("ObjectExpression"@.len() != "AssignmentExpression"@.len());
    reveal_strlit("FunctionExpression");
    assert("ObjectExpression"@.len() != "FunctionExpression"@.len());
    reveal_strlit("ArrowFunctionExpression");
    assert("ObjectExpression"@.len() != "ArrowFunctionExpression"@.len());
    reveal_strlit("ClassExpression");
    assert("ObjectExpression"@.len() != "ClassExpression"@.len());
    reveal_strlit("ArrayExpression");
    assert("ObjectExpression"@.len() != "ArrayExpression"@.len());
    reveal_strlit("SequenceExpression");
    assert("ObjectExpression"@.len() != "SequenceExpression"@.len());
    reveal_strlit("TemplateLiteral");
    assert("ObjectExpression"@.len() != "TemplateLiteral"@.len());
    reveal_strlit("TaggedTemplateExpression");
    assert("ObjectExpression"@.len() != "TaggedTemplateExpression"@.len());
    reveal_strlit("BinaryExpression");
    assert("ObjectExpression"@[0] != "BinaryExpression"@[0]);
    reveal_strlit("LogicalExpression");
    assert("ObjectExpression"@.len() != "LogicalExpression"@.len());
    reveal_strlit("UnaryExpression");
    assert("ObjectExpression"@.len() != "UnaryExpression"@.len());
    reveal_strlit("UpdateExpression");
    assert("ObjectExpression"@[0] != "UpdateExpression"@[0]);
    reveal_strlit("ConditionalExpression");
    assert("ObjectExpression"@.len() != "ConditionalExpression"@.len());
    reveal_strlit("AwaitExpression");
    assert("ObjectExpression"@.len() != "AwaitExpression"@.len());
    reveal_strlit("YieldExpression");
    assert("ObjectExpression"@.len() != "YieldExpression"@.len());
    reveal_strlit("SequenceExpression");
    reveal_strlit("Identifier");
    assert("SequenceExpression"@.len() != "Identifier"@.len());
    reveal_strlit("Literal");
    assert("SequenceExpression"@.len() != "Literal"@.len());
    reveal_strlit("ThisExpression");
    assert("SequenceExpression"@.len() != "ThisExpression"@.len());
    reveal_strlit("Super");
    assert("SequenceExpression"@.len() != "Super"@.len());
    reveal_strlit("MemberExpression");
    assert("SequenceExpression"@.len() != "MemberExpression"@.len());
    reveal_strlit("CallExpression");
    assert("SequenceExpression"@.len() != "CallExpression"@.len());
    reveal_strlit("NewExpression");
    assert("SequenceExpression"@.len() != "NewExpression"@.len());
    reveal_strlit("AssignmentExpression");
    assert("SequenceExpression"@.len() != "AssignmentExpression"@.len());
    reveal_strlit("FunctionExpression");
    assert("SequenceExpression"@[0] != "FunctionExpression"@[0]);
    reveal_strlit("ArrowFunctionExpression");
    assert("SequenceExpression"@.len() != "ArrowFunctionExpression"@.len());
    reveal_strlit("ClassExpression");
    assert("SequenceExpression"@.len() != "ClassExpression"@.len());
    reveal_strlit("ArrayExpression");
    assert("SequenceExpression"@.len() != "ArrayExpression"@.len());
    reveal_strlit("ObjectExpression");
    assert("SequenceExpression"@.len() != "ObjectExpression"@.len());
    reveal_strlit("TemplateLiteral");
    assert("SequenceExpression"@.len() != "TemplateLiteral"@.len());
    reveal_strlit("TaggedTemplateExpression");
    assert("SequenceExpression"@.len() != "TaggedTemplateExpression"@.len());
    reveal_strlit("BinaryExpression");
    assert("SequenceExpression"@.len() != "BinaryExpression"@.len());
    reveal_strlit("LogicalExpression");
    assert("SequenceExpression"@.len() != "LogicalExpression"@.len());
    reveal_strlit("UnaryExpression");
    assert("SequenceExpression"@.len() != "UnaryExpression"@.len());
    reveal_strlit("UpdateExpression");
    assert("SequenceExpression"@.len() != "UpdateExpression"@.len());
    reveal_strlit("ConditionalExpression");
    assert("SequenceExpression"@.len() != "ConditionalExpression"@.len());
    reveal_strlit("AwaitExpression");
    assert("SequenceExpression"@.len() != "AwaitExpression"@.len());
    reveal_strlit("YieldExpression");
    assert("SequenceExpression"@.len() != "YieldExpression"@.len());
    law_expr(j, strict);
    law_collection(j, strict);
}

/// A template with one substitution is its first text, then the text of the substitution,
/// then its last text.
pub proof fn law_template_tree(j: JsonTree, strict: bool, e: ExprTree)
    requires
        is_kind(j, "TemplateLiteral"@),
        count(field(j, "expressions"@)) == 1,
        expr_of(item(field(j, "expressions"@), 0), strict) == Ok::<_, ErrorView>(e),
    ensures
        expr_of(j, strict) == Ok::<_, ErrorView>(ExprTree::Binary { op: BinaryOp::Add, left: Box::new(ExprTree::Binary { op: BinaryOp::Add, left: Box::new(ExprTree::Lit(LitTree::Str(quasi(field(j, "quasis"@), 0)))), right: Box::new(ExprTree::ToString(Box::new(e))) }), right: Box::new(ExprTree::Lit(LitTree::Str(quasi(field(j, "quasis"@), 1)))) }),
{
    reveal_strlit("TemplateLiteral");
    reveal_strlit("Identifier");
    assert("TemplateLiteral"@.len() != "Identifier"@.len());
    reveal_strlit("Literal");
    assert("TemplateLiteral"@.len() != "Literal"@.len());
    reveal_strlit("ThisExpression");
    assert("TemplateLiteral"@.len() != "ThisExpression"@.len());
    reveal_strlit("Super");
    assert("TemplateLiteral"@.len() != "Super"@.len());
    reveal_strlit("MemberExpression");
    assert("TemplateLiteral"@.len() != "MemberExpression"@.len());
    reveal_strlit("CallExpression");
    assert("TemplateLiteral"@.len() != "CallExpression"@.len());
    reveal_strlit("NewExpression");
    assert("TemplateLiteral"@.len() != "NewExpression"@.len());
    reveal_strlit("AssignmentExpression");
    assert("TemplateLiteral"@.len() != "AssignmentExpression"@.len());
    reveal_strlit("FunctionExpression");
    assert("TemplateLiteral"@.len() != "FunctionExpression"@.len());
    reveal_strlit("ArrowFunctionExpression");
    assert("TemplateLiteral"@.len() != "ArrowFunctionExpression"@.len());
    reveal_strlit("ClassExpression");
    assert("TemplateLiteral"@[0] != "ClassExpression"@[0]);
    reveal_strlit("ArrayExpression");
    assert("TemplateLiteral"@[0] != "ArrayExpression"@[0]);
    reveal_strlit("ObjectExpression");
    assert("TemplateLiteral"@.len() != "ObjectExpression"@.len());
    reveal_strlit("SequenceExpression");
    assert("TemplateLiteral"@.len() != "SequenceExpression"@.len());
    reveal_strlit("TaggedTemplateExpression");
    assert("TemplateLiteral"@.len() != "TaggedTemplateExpression"@.len());
    reveal_strlit("BinaryExpression");
    assert("TemplateLiteral"@.len() != "BinaryExpression"@.len());
    reveal_strlit("LogicalExpression");
    assert("TemplateLiteral"@.len() != "LogicalExpression"@.len());
    reveal_strlit("UnaryExpression");
    assert("TemplateLiteral"@[0] != "UnaryExpression"@[0]);
    reveal_strlit("UpdateExpression");
    assert("TemplateLiteral"@.len() != "UpdateExpression"@.len());
    reveal_strlit("ConditionalExpression");
    assert("TemplateLiteral"@.len() != "ConditionalExpression"@.len());
    reveal_strlit("AwaitExpression");
    assert("TemplateLiteral"@[0] != "AwaitExpression"@[0]);
    reveal_strlit("YieldExpression");
    assert("TemplateLiteral"@[0] != "YieldExpression"@[0]);
    law_expr(j, strict);
    law_collection(j, strict);
    let first = ExprTree::Lit(LitTree::Str(quasi(field(j, "quasis"@), 0)));
    law_template(field(j, "expressions"@), field(j, "quasis"@), 0, first, strict);
    let joined = ExprTree::Binary { op: BinaryOp::Add, left: Box::new(ExprTree::Binary { op: BinaryOp::Add, left: Box::new(first), right: Box::new(ExprTree::ToString(Box::new(e))) }), right: Box::new(ExprTree::Lit(LitTree::Str(quasi(field(j, "quasis"@), 1)))) };
    law_template(field(j, "expressions"@), field(j, "quasis"@), 1, joined, strict);
}

/// A property of an object is a method, a getter, a setter, or a key with a value.
pub proof fn law_property_trees(j: JsonTree, strict: bool, key: PropKeyTree, params: Seq<PatternTree>, body: Seq<StmtTree>, value: ExprTree)
    requires
        key_of(j, strict) == Ok::<_, ErrorView>(key),
        is_kind(field(j, "value"@), "FunctionExpression"@) ==> params_of(field(j, "value"@), strict) == Ok::<_, ErrorView>(params) && function_body_of(field(j, "value"@), strict) == Ok::<_, ErrorView>(body),
        expr_of(field(j, "value"@), strict) == Ok::<_, ErrorView>(value),
    ensures
        flag(field(j, "method"@)) && is_kind(field(j, "value"@), "FunctionExpression"@) ==> prop_of(j, strict) == Ok::<_, ErrorView>(PropTree::Method { key, params, body }),
        !flag(field(j, "method"@)) && field(j, "kind"@) == JsonTree::Str("get"@) && is_kind(field(j, "value"@), "FunctionExpression"@) ==> prop_of(j, strict) == Ok::<_, ErrorView>(PropTree::Accessor { get: true, key, params, body }),
        !flag(field(j, "method"@)) && field(j, "kind"@) == JsonTree::Str("set"@) && is_kind(field(j, "value"@), "FunctionExpression"@) ==> prop_of(j, strict) == Ok::<_, ErrorView>(PropTree::Accessor { get: false, key, params, body }),
        !flag(field(j, "method"@)) && field(j, "kind"@) == JsonTree::Str("init"@) ==> prop_of(j, strict) == Ok::<_, ErrorView>(PropTree::Init { key, value }),
{
    reveal_strlit("get");
    reveal_strlit("set");
    reveal_strlit("init");
    assert("get"@.len() == 3 && "get"@[0] == 'g');
    assert("set"@.len() == 3 && "set"@[0] == 's');
    assert("init"@.len() == 4);
    law_prop(j, strict);
}

/// A key is a name, a string, or computed.
pub proof fn law_key_trees(j: JsonTree, strict: bool, e: ExprTree)
    requires
        expr_of(field(j, "key"@), strict) == Ok::<_, ErrorView>(e),
    ensures
        is_kind(field(j, "key"@), "Identifier"@) && !flag(field(j, "computed"@)) ==> key_of(j, strict) == Ok::<_, ErrorView>(PropKeyTree::Ident(text_in(field(field(j, "key"@), "name"@)))),
        is_kind(field(j, "key"@), "Identifier"@) && flag(field(j, "computed"@)) ==> key_of(j, strict) == Ok::<_, ErrorView>(PropKeyTree::Computed(Box::new(e))),
        is_kind(field(j, "key"@), "Literal"@) ==> (field(field(j, "key"@), "value"@) matches JsonTree::Str(t) ==> key_of(j, strict) == Ok::<_, ErrorView>(PropKeyTree::Str(t))),
{
    reveal_strlit("Identifier");
    reveal_strlit("Literal");
    assert("Identifier"@.len() != "Literal"@.len());
    reveal_strlit("PrivateIdentifier");
    assert("Identifier"@.len() != "PrivateIdentifier"@.len());
    reveal_strlit("Literal");
    reveal_strlit("PrivateIdentifier");
    assert("Literal"@.len() != "PrivateIdentifier"@.len());
    law_key(j, strict);
}

/// A method of a class is its constructor, a getter or a plain method, of the instances
/// or static; a field keeps its initializer.
pub proof fn law_class_element_trees(j: JsonTree, strict: bool, key: PropKeyTree, params: Seq<PatternTree>, body: Seq<StmtTree>, value: ExprTree)
    requires
        key_of(j, strict) == Ok::<_, ErrorView>(key),
        (is_kind(j, "MethodDefinition"@) && params_of(field(j, "value"@), strict) == Ok::<_, ErrorView>(params) && function_body_of(field(j, "value"@), strict) == Ok::<_, ErrorView>(body)) || (is_kind(j, "PropertyDefinition"@) && !(field(j, "value"@) is Null) && expr_of(field(j, "value"@), strict) == Ok::<_, ErrorView>(value)),
    ensures
        is_kind(j, "MethodDefinition"@) && field(j, "kind"@) == JsonTree::Str("constructor"@) ==> class_elem_of(j, strict) == Ok::<_, ErrorView>(ClassElemTree::Constructor { params, body }),
        is_kind(j, "MethodDefinition"@) && field(j, "kind"@) == JsonTree::Str("get"@) ==> class_elem_of(j, strict) == Ok::<_, ErrorView>(ClassElemTree::Method { is_static: flag(field(j, "static"@)), get: true, key, params, body }),
        is_kind(j, "MethodDefinition"@) && field(j, "kind"@) == JsonTree::Str("method"@) ==> class_elem_of(j, strict) == Ok::<_, ErrorView>(ClassElemTree::Method { is_static: flag(field(j, "static"@)), get: false, key, params, body }),
        is_kind(j, "PropertyDefinition"@) ==> class_elem_of(j, strict) == Ok::<_, ErrorView>(ClassElemTree::Field { is_static: flag(field(j, "static"@)), key, init: Some(value) }),
{
    reveal_strlit("PropertyDefinition");
    reveal_strlit("MethodDefinition");
    assert("PropertyDefinition"@.len() != "MethodDefinition"@.len());
    reveal_strlit("TSAbstractMethodDefinition");
    assert("PropertyDefinition"@.len() != "TSAbstractMethodDefinition"@.len());
    reveal_strlit("get");
    reveal_strlit("constructor");
    reveal_strlit("method");
    assert("get"@.len() == 3 && "constructor"@.len() == 11 && "method"@.len() == 6);
    law_class_elem(j, strict);
}

/// A class keeps its name, its parent and its elements.
pub proof fn law_class_tree(j: JsonTree, strict: bool, parent: ExprTree, elements: Seq<ClassElemTree>)
    requires
        is_kind(j, "ClassExpression"@),
        !(field(j, "superClass"@) is Null) ==> expr_of(field(j, "superClass"@), strict) == Ok::<_, ErrorView>(parent),
        class_elems_of(field(field(j, "body"@), "body"@), 0, Seq::empty(), strict) == Ok::<_, ErrorView>(elements),
    ensures
        expr_of(j, strict) == Ok::<_, ErrorView>(ExprTree::Class(Box::new(ClassTree { name: if field(j, "id"@) is Null { None } else { Some(text_in(field(field(j, "id"@), "name"@))) }, extends: if field(j, "superClass"@) is Null { None } else { Some(Box::new(parent)) }, elements }))),
{
    reveal_strlit("ClassExpression");
    reveal_strlit("Identifier");
    assert("ClassExpression"@.len() != "Identifier"@.len());
    reveal_strlit("Literal");
    assert("ClassExpression"@.len() != "Literal"@.len());
    reveal_strlit("ThisExpression");
    assert("ClassExpression"@.len() != "ThisExpression"@.len());
    reveal_strlit("Super");
    assert("ClassExpression"@.len() != "Super"@.len());
    reveal_strlit("MemberExpression");
    assert("ClassExpression"@.len() != "MemberExpression"@.len());
    reveal_strlit("CallExpression");
    assert("ClassExpression"@.len() != "CallExpression"@.len());
    reveal_strlit("NewExpression");
    assert("ClassExpression"@.len() != "NewExpression"@.len());
    reveal_strlit("AssignmentExpression");
    assert("ClassExpression"@.len() != "AssignmentExpression"@.len());
    reveal_strlit("FunctionExpression");
    assert("ClassExpression"@.len() != "FunctionExpression"@.len());
    reveal_strlit("ArrowFunctionExpression");
    assert("ClassExpression"@.len() != "ArrowFunctionExpression"@.len());
    reveal_strlit("ArrayExpression");
    assert("ClassExpression"@[0] != "ArrayExpression"@[0]);
    reveal_strlit("ObjectExpression");
    assert("ClassExpression"@.len() != "ObjectExpression"@.len());
    reveal_strlit("SequenceExpression");
    assert("ClassExpression"@.len() != "SequenceExpression"@.len());
    reveal_strlit("TemplateLiteral");
    assert("ClassExpression"@[0] != "TemplateLiteral"@[0]);
    reveal_strlit("TaggedTemplateExpression");
    assert("ClassExpression"@.len() != "TaggedTemplateExpression"@.len());
    reveal_strlit("BinaryExpression");
    assert("ClassExpression"@.len() != "BinaryExpression"@.len());
    reveal_strlit("LogicalExpression");
    assert("ClassExpression"@.len() != "LogicalExpression"@.len());
    reveal_strlit("UnaryExpression");
    assert("ClassExpression"@[0] != "UnaryExpression"@[0]);
    reveal_strlit("UpdateExpression");
    assert("ClassExpression"@.len() != "UpdateExpression"@.len());
    reveal_strlit("ConditionalExpression");
    assert("ClassExpression"@.len() != "ConditionalExpression"@.len());
    reveal_strlit("AwaitExpression");
    assert("ClassExpression"@[0] != "AwaitExpression"@[0]);
    reveal_strlit("YieldExpression");
    assert("ClassExpression"@[0] != "YieldExpression"@[0]);
    law_expr(j, strict);
    law_closure(j, strict);
    law_class(j, strict);
}

/// Expressions in a list keep their order.
pub proof fn law_expression_lists(j: JsonTree, strict: bool, i: int, acc: Seq<ExprTree>, list: Seq<ExprTree>)
    requires
        0 <= i <= count(j),
        exprs_of(j, i, acc, strict) == Ok::<_, ErrorView>(list),
    ensures
        list.len() == acc.len() + count(j) - i,
        list.take(acc.len() as int) == acc,
        forall|n: int| i <= n < count(j) ==> #[trigger] expr_of(item(j, n), strict) == Ok::<_, ErrorView>(list[acc.len() + n - i]),
    decreases count(j) - i,
{
    law_exprs(j, i, acc, strict);
    if i < count(j) {
        assert(exists|x: ExprTree| #[trigger] exprs_of(j, i + 1, acc.push(x), strict) == Ok::<_, ErrorView>(list) && expr_of(item(j, i), strict) == Ok::<_, ErrorView>(x));
        let x = choose|x: ExprTree| #[trigger] exprs_of(j, i + 1, acc.push(x), strict) == Ok::<_, ErrorView>(list) && expr_of(item(j, i), strict) == Ok::<_, ErrorView>(x);
        law_expression_lists(j, strict, i + 1, acc.push(x), list);
        assert(list.take(acc.len() as int) =~= list.take(acc.len() as int + 1).drop_last());
        assert(acc.push(x).drop_last() =~= acc);
        assert(list.take(acc.len() as int + 1).last() == x);
        assert(list[acc.len() as int] == x);
    } else {
        assert(list.take(acc.len() as int) =~= acc);
    }
}

/// Arguments keep their order; each is spread or not as it was written.
pub proof fn law_argument_lists(j: JsonTree, strict: bool, i: int, acc: Seq<ArgTree>, list: Seq<ArgTree>)
    requires
        0 <= i <= count(j),
        args_of(j, i, acc, strict) == Ok::<_, ErrorView>(list),
    ensures
        list.len() == acc.len() + count(j) - i,
        list.take(acc.len() as int) == acc,
        forall|n: int| i <= n < count(j) ==> is_argument(#[trigger] item(j, n), strict, list[acc.len() + n - i]),
    decreases count(j) - i,
{
    law_args(j, i, acc, strict);
    if i < count(j) {
        assert(exists|x: ArgTree| #[trigger] args_of(j, i + 1, acc.push(x), strict) == Ok::<_, ErrorView>(list) && is_argument(item(j, i), strict, x));
        let x = choose|x: ArgTree| #[trigger] args_of(j, i + 1, acc.push(x), strict) == Ok::<_, ErrorView>(list) && is_argument(item(j, i), strict, x);
        law_argument_lists(j, strict, i + 1, acc.push(x), list);
        assert(list.take(acc.len() as int) =~= list.take(acc.len() as int + 1).drop_last());
        assert(acc.push(x).drop_last() =~= acc);
        assert(list.take(acc.len() as int + 1).last() == x);
        assert(list[acc.len() as int] == x);
    } else {
        assert(list.take(acc.len() as int) =~= acc);
    }
}

/// The clauses of a `switch` keep their order, their tests and their statements.
pub proof fn law_case_lists(j: JsonTree, strict: bool, i: int, acc: Seq<SwitchCaseTree>, list: Seq<SwitchCaseTree>)
    requires
        0 <= i <= count(j),
        cases_of(j, i, acc, strict) == Ok::<_, ErrorView>(list),
    ensures
        list.len() == acc.len() + count(j) - i,
        list.take(acc.len() as int) == acc,
        forall|n: int| i <= n < count(j) ==> is_clause(#[trigger] item(j, n), strict, list[acc.len() + n - i]),
    decreases count(j) - i,
{
    law_cases(j, i, acc, strict);
    if i < count(j) {
        assert(exists|x: SwitchCaseTree| #[trigger] cases_of(j, i + 1, acc.push(x), strict) == Ok::<_, ErrorView>(list) && is_clause(item(j, i), strict, x));
        let x = choose|x: SwitchCaseTree| #[trigger] cases_of(j, i + 1, acc.push(x), strict) == Ok::<_, ErrorView>(list) && is_clause(item(j, i), strict, x);
        law_case_lists(j, strict, i + 1, acc.push(x), list);
        assert(list.take(acc.len() as int) =~= list.take(acc.len() as int + 1).drop_last());
        assert(acc.push(x).drop_last() =~= acc);
        assert(list.take(acc.len() as int + 1).last() == x);
        assert(list[acc.len() as int] == x);
    } else {
        assert(list.take(acc.len() as int) =~= acc);
    }
}

/// The elements of an array literal keep their order; holes stay holes.
pub proof fn law_element_lists(j: JsonTree, strict: bool, i: int, acc: Seq<ArrayElemTree>, list: Seq<ArrayElemTree>)
    requires
        0 <= i <= count(j),
        elems_of(j, i, acc, strict) == Ok::<_, ErrorView>(list),
    ensures
        list.len() == acc.len() + count(j) - i,
        list.take(acc.len() as int) == acc,
        forall|n: int| i <= n < count(j) ==> is_element(#[trigger] item(j, n), strict, list[acc.len() + n - i]),
    decreases count(j) - i,
{
    law_elems(j, i, acc, strict);
    if i < count(j) {
        assert(exists|x: ArrayElemTree| #[trigger] elems_of(j, i + 1, acc.push(x), strict) == Ok::<_, ErrorView>(list) && is_element(item(j, i), strict, x));
        let x = choose|x: ArrayElemTree| #[trigger] elems_of(j, i + 1, acc.push(x), strict) == Ok::<_, ErrorView>(list) && is_element(item(j, i), strict, x);
        law_element_lists(j, strict, i + 1, acc.push(x), list);
        assert(list.take(acc.len() as int) =~= list.take(acc.len() as int + 1).drop_last());
        assert(acc.push(x).drop_last() =~= acc);
        assert(list.take(acc.len() as int + 1).last() == x);
        assert(list[acc.len() as int] == x);
    } else {
        assert(list.take(acc.len() as int) =~= acc);
    }
}

/// The properties of an object literal keep their order.
pub proof fn law_property_lists(j: JsonTree, strict: bool, i: int, acc: Seq<PropTree>, list: Seq<PropTree>)
    requires
        0 <= i <= count(j),
        props_of(j, i, acc, strict) == Ok::<_, ErrorView>(list),
    ensures
        list.len() == acc.len() + count(j) - i,
        list.take(acc.len() as int) == acc,
        forall|n: int| i <= n < count(j) ==> is_property(#[trigger] item(j, n), strict, list[acc.len() + n - i]),
    decreases count(j) - i,
{
    law_props(j, i, acc, strict);
    if i < count(j) {
        assert(exists|x: PropTree| #[trigger] props_of(j, i + 1, acc.push(x), strict) == Ok::<_, ErrorView>(list) && is_property(item(j, i), strict, x));
        let x = choose|x: PropTree| #[trigger] props_of(j, i + 1, acc.push(x), strict) == Ok::<_, ErrorView>(list) && is_property(item(j, i), strict, x);
        law_property_lists(j, strict, i + 1, acc.push(x), list);
        assert(list.take(acc.len() as int) =~= list.take(acc.len() as int + 1).drop_last());
        assert(acc.push(x).drop_last() =~= acc);
        assert(list.take(acc.len() as int + 1).last() == x);
        assert(list[acc.len() as int] == x);
    } else {
        assert(list.take(acc.len() as int) =~= acc);
    }
}

/// Declarators keep their order, their patterns and their initializers.
pub proof fn law_declarator_lists(j: JsonTree, strict: bool, i: int, acc: Seq<DeclaratorTree>, list: Seq<DeclaratorTree>)
    requires
        0 <= i <= count(j),
        declarators_of(j, i, acc, strict) == Ok::<_, ErrorView>(list),
    ensures
        list.len() == acc.len() + count(j) - i,
        list.take(acc.len() as int) == acc,
        forall|n: int| i <= n < count(j) ==> is_declarator(#[trigger] item(j, n), strict, list[acc.len() + n - i]),
    decreases count(j) - i,
{
    law_declarators(j, i, acc, strict);
    if i < count(j) {
        assert(exists|x: DeclaratorTree| #[trigger] declarators_of(j, i + 1, acc.push(x), strict) == Ok::<_, ErrorView>(list) && is_declarator(item(j, i), strict, x));
        let x = choose|x: DeclaratorTree| #[trigger] declarators_of(j, i + 1, acc.push(x), strict) == Ok::<_, ErrorView>(list) && is_declarator(item(j, i), strict, x);
        law_declarator_lists(j, strict, i + 1, acc.push(x), list);
        assert(list.take(acc.len() as int) =~= list.take(acc.len() as int + 1).drop_last());
        assert(acc.push(x).drop_last() =~= acc);
        assert(list.take(acc.len() as int + 1).last() == x);
        assert(list[acc.len() as int] == x);
    } else {
        assert(list.take(acc.len() as int) =~= acc);
    }
}

} // verus!
