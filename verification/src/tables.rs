//! How operators are written, and that both front ends read them alike.
use vstd::prelude::*;
use crate::ast::{BinaryOp, LogicalOp, UnaryOp};
use crate::grammar::{additive_op, assign_op, equality_op, multiplicative_op, postfix_op, prefix_op, relational_op};
use crate::lexer::{keyword, Kw, TokenKind, TokenView};
use crate::lowering::{binary_op, compound_op, logical_assign_op, logical_op, unary_op};

verus! {

/// How an operator is written.
pub open spec fn symbol(op: BinaryOp) -> Seq<char> {
    match op {
        BinaryOp::Eq => "=="@,
        BinaryOp::Ne => "!="@,
        BinaryOp::StrictEq => "==="@,
        BinaryOp::StrictNe => "!=="@,
        BinaryOp::Lt => "<"@,
        BinaryOp::Gt => ">"@,
        BinaryOp::Le => "<="@,
        BinaryOp::Ge => ">="@,
        BinaryOp::Add => "+"@,
        BinaryOp::Sub => "-"@,
        BinaryOp::Mul => "*"@,
        BinaryOp::Div => "/"@,
        BinaryOp::Rem => "%"@,
        BinaryOp::In => "in"@,
        BinaryOp::BitAnd => "&"@,
        BinaryOp::BitOr => "|"@,
        BinaryOp::BitXor => "^"@,
        BinaryOp::Shl => "<<"@,
        BinaryOp::Shr => ">>"@,
        BinaryOp::Ushr => ">>>"@,
        BinaryOp::Exp => "**"@,
    }
}

/// Whether an operator computes, so that it can be joined with an assignment; the
/// others compare.
pub open spec fn computes(op: BinaryOp) -> bool {
    !(op is Eq || op is Ne || op is StrictEq || op is StrictNe || op is Lt || op is Gt || op is Le || op is Ge || op is In)
}

/// How a short-circuiting operator is written.
pub open spec fn logical_symbol(op: LogicalOp) -> Seq<char> {
    match op {
        LogicalOp::And => "&&"@,
        LogicalOp::Or => "||"@,
        LogicalOp::Coalesce => "??"@,
    }
}

/// An operator is read from its symbol and from no other text: two texts never mean
/// the same operator.
pub proof fn law_binary_symbols(t: Seq<char>, op: BinaryOp)
    ensures
        binary_op(t) == Some(op) <==> t == symbol(op),
{
    reveal_strlit("==");
    reveal_strlit("!=");
    reveal_strlit("===");
    reveal_strlit("!==");
    reveal_strlit("<");
    reveal_strlit(">");
    reveal_strlit("<=");
    reveal_strlit(">=");
    reveal_strlit("+");
    reveal_strlit("-");
    reveal_strlit("*");
    reveal_strlit("/");
    reveal_strlit("%");
    reveal_strlit("in");
    reveal_strlit("&");
    reveal_strlit("|");
    reveal_strlit("^");
    reveal_strlit("<<");
    reveal_strlit(">>");
    reveal_strlit(">>>");
    reveal_strlit("**");
    assert("=="@.len() == 2 && "=="@[0] == '=' && "=="@[1] == '=');
    assert("!="@.len() == 2 && "!="@[0] == '!' && "!="@[1] == '=');
    assert("==="@.len() == 3 && "==="@[0] == '=' && "==="@[1] == '=' && "==="@[2] == '=');
    assert("!=="@.len() == 3 && "!=="@[0] == '!' && "!=="@[1] == '=' && "!=="@[2] == '=');
    assert("<"@.len() == 1 && "<"@[0] == '<');
    assert(">"@.len() == 1 && ">"@[0] == '>');
    assert("<="@.len() == 2 && "<="@[0] == '<' && "<="@[1] == '=');
    assert(">="@.len() == 2 && ">="@[0] == '>' && ">="@[1] == '=');
    assert("+"@.len() == 1 && "+"@[0] == '+');
    assert("-"@.len() == 1 && "-"@[0] == '-');
    assert("*"@.len() == 1 && "*"@[0] == '*');
    assert("/"@.len() == 1 && "/"@[0] == '/');
    assert("%"@.len() == 1 && "%"@[0] == '%');
    assert("in"@.len() == 2 && "in"@[0] == 'i' && "in"@[1] == 'n');
    assert("&"@.len() == 1 && "&"@[0] == '&');
    assert("|"@.len() == 1 && "|"@[0] == '|');
    assert("^"@.len() == 1 && "^"@[0] == '^');
    assert("<<"@.len() == 2 && "<<"@[0] == '<' && "<<"@[1] == '<');
    assert(">>"@.len() == 2 && ">>"@[0] == '>' && ">>"@[1] == '>');
    assert(">>>"@.len() == 3 && ">>>"@[0] == '>' && ">>>"@[1] == '>' && ">>>"@[2] == '>');
    assert("**"@.len() == 2 && "**"@[0] == '*' && "**"@[1] == '*');
    assert(binary_op(symbol(op)) == Some(op)) by {
        match op {
            BinaryOp::Eq => {},
            BinaryOp::Ne => {},
            BinaryOp::StrictEq => {},
            BinaryOp::StrictNe => {},
            BinaryOp::Lt => {},
            BinaryOp::Gt => {},
            BinaryOp::Le => {},
            BinaryOp::Ge => {},
            BinaryOp::Add => {},
            BinaryOp::Sub => {},
            BinaryOp::Mul => {},
            BinaryOp::Div => {},
            BinaryOp::Rem => {},
            BinaryOp::In => {},
            BinaryOp::BitAnd => {},
            BinaryOp::BitOr => {},
            BinaryOp::BitXor => {},
            BinaryOp::Shl => {},
            BinaryOp::Shr => {},
            BinaryOp::Ushr => {},
            BinaryOp::Exp => {},
        }
    }
}

/// A compound assignment is written as an operator that computes and the sign of the
/// assignment behind it, and means that operator.
pub proof fn law_compound_symbols(t: Seq<char>)
    ensures
        compound_op(t.push('=')) == match binary_op(t) {
            Some(op) => if computes(op) { Some(op) } else { None },
            None => None,
        },
        compound_op(t) is Some ==> t.len() > 1 && t.last() == '=' && binary_op(t.drop_last()) == compound_op(t),
{
    reveal_strlit("==");
    reveal_strlit("!=");
    reveal_strlit("===");
    reveal_strlit("!==");
    reveal_strlit("<");
    reveal_strlit(">");
    reveal_strlit("<=");
    reveal_strlit(">=");
    reveal_strlit("+");
    reveal_strlit("-");
    reveal_strlit("*");
    reveal_strlit("/");
    reveal_strlit("%");
    reveal_strlit("in");
    reveal_strlit("&");
    reveal_strlit("|");
    reveal_strlit("^");
    reveal_strlit("<<");
    reveal_strlit(">>");
    reveal_strlit(">>>");
    reveal_strlit("**");
    reveal_strlit("+=");
    reveal_strlit("-=");
    reveal_strlit("*=");
    reveal_strlit("/=");
    reveal_strlit("%=");
    reveal_strlit("**=");
    reveal_strlit("&=");
    reveal_strlit("|=");
    reveal_strlit("^=");
    reveal_strlit("<<=");
    reveal_strlit(">>=");
    reveal_strlit(">>>=");
    assert("=="@.len() == 2 && "=="@[0] == '=' && "=="@[1] == '=');
    assert("!="@.len() == 2 && "!="@[0] == '!' && "!="@[1] == '=');
    assert("==="@.len() == 3 && "==="@[0] == '=' && "==="@[1] == '=' && "==="@[2] == '=');
    assert("!=="@.len() == 3 && "!=="@[0] == '!' && "!=="@[1] == '=' && "!=="@[2] == '=');
    assert("<"@.len() == 1 && "<"@[0] == '<');
    assert(">"@.len() == 1 && ">"@[0] == '>');
    assert("<="@.len() == 2 && "<="@[0] == '<' && "<="@[1] == '=');
    assert(">="@.len() == 2 && ">="@[0] == '>' && ">="@[1] == '=');
    assert("+"@.len() == 1 && "+"@[0] == '+');
    assert("-"@.len() == 1 && "-"@[0] == '-');
    assert("*"@.len() == 1 && "*"@[0] == '*');
    assert("/"@.len() == 1 && "/"@[0] == '/');
    assert("%"@.len() == 1 && "%"@[0] == '%');
    assert("in"@.len() == 2 && "in"@[0] == 'i' && "in"@[1] == 'n');
    assert("&"@.len() == 1 && "&"@[0] == '&');
    assert("|"@.len() == 1 && "|"@[0] == '|');
    assert("^"@.len() == 1 && "^"@[0] == '^');
    assert("<<"@.len() == 2 && "<<"@[0] == '<' && "<<"@[1] == '<');
    assert(">>"@.len() == 2 && ">>"@[0] == '>' && ">>"@[1] == '>');
    assert(">>>"@.len() == 3 && ">>>"@[0] == '>' && ">>>"@[1] == '>' && ">>>"@[2] == '>');
    assert("**"@.len() == 2 && "**"@[0] == '*' && "**"@[1] == '*');
    assert("+="@.len() == 2 && "+="@[0] == '+' && "+="@[1] == '=');
    assert("-="@.len() == 2 && "-="@[0] == '-' && "-="@[1] == '=');
    assert("*="@.len() == 2 && "*="@[0] == '*' && "*="@[1] == '=');
    assert("/="@.len() == 2 && "/="@[0] == '/' && "/="@[1] == '=');
    assert("%="@.len() == 2 && "%="@[0] == '%' && "%="@[1] == '=');
    assert("**="@.len() == 3 && "**="@[0] == '*' && "**="@[1] == '*' && "**="@[2] == '=');
    assert("&="@.len() == 2 && "&="@[0] == '&' && "&="@[1] == '=');
    assert("|="@.len() == 2 && "|="@[0] == '|' && "|="@[1] == '=');
    assert("^="@.len() == 2 && "^="@[0] == '^' && "^="@[1] == '=');
    assert("<<="@.len() == 3 && "<<="@[0] == '<' && "<<="@[1] == '<' && "<<="@[2] == '=');
    assert(">>="@.len() == 3 && ">>="@[0] == '>' && ">>="@[1] == '>' && ">>="@[2] == '=');
    assert(">>>="@.len() == 4 && ">>>="@[0] == '>' && ">>>="@[1] == '>' && ">>>="@[2] == '>' && ">>>="@[3] == '=');
    assert("+="@.drop_last() =~= "+"@);
    assert("+"@.push('=') =~= "+="@);
    assert("-="@.drop_last() =~= "-"@);
    assert("-"@.push('=') =~= "-="@);
    assert("*="@.drop_last() =~= "*"@);
    assert("*"@.push('=') =~= "*="@);
    assert("/="@.drop_last() =~= "/"@);
    assert("/"@.push('=') =~= "/="@);
    assert("%="@.drop_last() =~= "%"@);
    assert("%"@.push('=') =~= "%="@);
    assert("**="@.drop_last() =~= "**"@);
    assert("**"@.push('=') =~= "**="@);
    assert("&="@.drop_last() =~= "&"@);
    assert("&"@.push('=') =~= "&="@);
    assert("|="@.drop_last() =~= "|"@);
    assert("|"@.push('=') =~= "|="@);
    assert("^="@.drop_last() =~= "^"@);
    assert("^"@.push('=') =~= "^="@);
    assert("<<="@.drop_last() =~= "<<"@);
    assert("<<"@.push('=') =~= "<<="@);
    assert(">>="@.drop_last() =~= ">>"@);
    assert(">>"@.push('=') =~= ">>="@);
    assert(">>>="@.drop_last() =~= ">>>"@);
    assert(">>>"@.push('=') =~= ">>>="@);
    let w = t.push('=');
    assert(w.drop_last() =~= t);
    assert(w.last() == '=');
}

/// A short-circuiting operator is read from its symbol alone, and its assignment from
/// the symbol with the sign of the assignment behind it.
pub proof fn law_logical_symbols(t: Seq<char>, op: LogicalOp)
    ensures
        logical_op(t) == Some(op) <==> t == logical_symbol(op),
        logical_assign_op(t.push('=')) == logical_op(t),
{
    reveal_strlit("&&");
    reveal_strlit("||");
    reveal_strlit("??");
    reveal_strlit("&&=");
    reveal_strlit("||=");
    reveal_strlit("??=");
    assert("&&"@.len() == 2 && "&&"@[0] == '&' && "&&"@[1] == '&');
    assert("||"@.len() == 2 && "||"@[0] == '|' && "||"@[1] == '|');
    assert("??"@.len() == 2 && "??"@[0] == '?' && "??"@[1] == '?');
    assert("&&="@.len() == 3 && "&&="@[0] == '&' && "&&="@[1] == '&' && "&&="@[2] == '=');
    assert("||="@.len() == 3 && "||="@[0] == '|' && "||="@[1] == '|' && "||="@[2] == '=');
    assert("??="@.len() == 3 && "??="@[0] == '?' && "??="@[1] == '?' && "??="@[2] == '=');
    assert("&&="@.drop_last() =~= "&&"@);
    assert("&&"@.push('=') =~= "&&="@);
    assert("||="@.drop_last() =~= "||"@);
    assert("||"@.push('=') =~= "||="@);
    assert("??="@.drop_last() =~= "??"@);
    assert("??"@.push('=') =~= "??="@);
    let w = t.push('=');
    assert(w.drop_last() =~= t);
}

/// How a prefix operator is written.
pub open spec fn prefix_symbol(op: UnaryOp) -> Seq<char> {
    match op {
        UnaryOp::Neg => "-"@,
        UnaryOp::Plus => "+"@,
        UnaryOp::Not => "!"@,
        UnaryOp::Typeof => "typeof"@,
        UnaryOp::Void => "void"@,
        UnaryOp::Delete => "delete"@,
        UnaryOp::BitNot => "~"@,
        UnaryOp::PreInc => "++"@,
        UnaryOp::PreDec => "--"@,
        UnaryOp::PostInc => "++"@,
        UnaryOp::PostDec => "--"@,
    }
}

/// A prefix operator is read from its symbol alone; `++` and `--` are none.
pub proof fn law_prefix_symbols(t: Seq<char>, op: UnaryOp)
    ensures
        unary_op(t) == Some(op) <==> t == prefix_symbol(op) && !(op is PreInc || op is PreDec || op is PostInc || op is PostDec),
{
    reveal_strlit("-");
    reveal_strlit("+");
    reveal_strlit("!");
    reveal_strlit("typeof");
    reveal_strlit("void");
    reveal_strlit("delete");
    reveal_strlit("~");
    reveal_strlit("++");
    reveal_strlit("--");
    assert("-"@.len() == 1 && "-"@[0] == '-');
    assert("+"@.len() == 1 && "+"@[0] == '+');
    assert("!"@.len() == 1 && "!"@[0] == '!');
    assert("typeof"@.len() == 6 && "typeof"@[0] == 't' && "typeof"@[1] == 'y' && "typeof"@[2] == 'p' && "typeof"@[3] == 'e' && "typeof"@[4] == 'o' && "typeof"@[5] == 'f');
    assert("void"@.len() == 4 && "void"@[0] == 'v' && "void"@[1] == 'o' && "void"@[2] == 'i' && "void"@[3] == 'd');
    assert("delete"@.len() == 6 && "delete"@[0] == 'd' && "delete"@[1] == 'e' && "delete"@[2] == 'l' && "delete"@[3] == 'e' && "delete"@[4] == 't' && "delete"@[5] == 'e');
    assert("~"@.len() == 1 && "~"@[0] == '~');
    assert("++"@.len() == 2 && "++"@[0] == '+' && "++"@[1] == '+');
    assert("--"@.len() == 2 && "--"@[0] == '-' && "--"@[1] == '-');
}

/// The parser of plain scripts reads an operator from the text that means it to the
/// other front end too.
pub proof fn law_parsers_agree(ts: Seq<TokenView>, p: int)
    requires
        0 <= p < ts.len(),
    ensures
        assign_op(ts, p) matches Some(op) ==> compound_op(ts[p].text) == Some(op),
        crate::grammar::logical_op(ts, p) matches Some(op) ==> logical_op(ts[p].text) == Some(op),
        equality_op(ts, p) matches Some(op) ==> ts[p].text == symbol(op),
        relational_op(ts, p) matches Some(op) ==> ts[p].text == symbol(op),
        additive_op(ts, p) matches Some(op) ==> ts[p].text == symbol(op),
        multiplicative_op(ts, p) matches Some(op) ==> ts[p].text == symbol(op),
        postfix_op(ts, p) matches Some(op) ==> ts[p].text == prefix_symbol(op) && (op is PostInc || op is PostDec),
        prefix_op(ts, p) matches Some(op) ==> if ts[p].kind is Punct { ts[p].text == prefix_symbol(op) } else { ts[p].kind == TokenKind::Kw(match op {
            UnaryOp::Typeof => Kw::Typeof,
            UnaryOp::Void => Kw::Void,
            _ => Kw::Delete,
        }) && (op is Typeof || op is Void || op is Delete) },
{
    reveal_strlit("==");
    reveal_strlit("!=");
    reveal_strlit("===");
    reveal_strlit("!==");
    reveal_strlit("<");
    reveal_strlit(">");
    reveal_strlit("<=");
    reveal_strlit(">=");
    reveal_strlit("+");
    reveal_strlit("-");
    reveal_strlit("*");
    reveal_strlit("/");
    reveal_strlit("%");
    reveal_strlit("in");
    reveal_strlit("&");
    reveal_strlit("|");
    reveal_strlit("^");
    reveal_strlit("<<");
    reveal_strlit(">>");
    reveal_strlit(">>>");
    reveal_strlit("**");
    reveal_strlit("+=");
    reveal_strlit("-=");
    reveal_strlit("*=");
    reveal_strlit("/=");
    reveal_strlit("%=");
    reveal_strlit("**=");
    reveal_strlit("&=");
    reveal_strlit("|=");
    reveal_strlit("^=");
    reveal_strlit("<<=");
    reveal_strlit(">>=");
    reveal_strlit(">>>=");
    reveal_strlit("&&");
    reveal_strlit("||");
    reveal_strlit("??");
    assert("=="@.len() == 2 && "=="@[0] == '=' && "=="@[1] == '=');
    assert("!="@.len() == 2 && "!="@[0] == '!' && "!="@[1] == '=');
    assert("==="@.len() == 3 && "==="@[0] == '=' && "==="@[1] == '=' && "==="@[2] == '=');
    assert("!=="@.len() == 3 && "!=="@[0] == '!' && "!=="@[1] == '=' && "!=="@[2] == '=');
    assert("<"@.len() == 1 && "<"@[0] == '<');
    assert(">"@.len() == 1 && ">"@[0] == '>');
    assert("<="@.len() == 2 && "<="@[0] == '<' && "<="@[1] == '=');
    assert(">="@.len() == 2 && ">="@[0] == '>' && ">="@[1] == '=');
    assert("+"@.len() == 1 && "+"@[0] == '+');
    assert("-"@.len() == 1 && "-"@[0] == '-');
    assert("*"@.len() == 1 && "*"@[0] == '*');
    assert("/"@.len() == 1 && "/"@[0] == '/');
    assert("%"@.len() == 1 && "%"@[0] == '%');
    assert("in"@.len() == 2 && "in"@[0] == 'i' && "in"@[1] == 'n');
    assert("&"@.len() == 1 && "&"@[0] == '&');
    assert("|"@.len() == 1 && "|"@[0] == '|');
    assert("^"@.len() == 1 && "^"@[0] == '^');
    assert("<<"@.len() == 2 && "<<"@[0] == '<' && "<<"@[1] == '<');
    assert(">>"@.len() == 2 && ">>"@[0] == '>' && ">>"@[1] == '>');
    assert(">>>"@.len() == 3 && ">>>"@[0] == '>' && ">>>"@[1] == '>' && ">>>"@[2] == '>');
    assert("**"@.len() == 2 && "**"@[0] == '*' && "**"@[1] == '*');
    assert("+="@.len() == 2 && "+="@[0] == '+' && "+="@[1] == '=');
    assert("-="@.len() == 2 && "-="@[0] == '-' && "-="@[1] == '=');
    assert("*="@.len() == 2 && "*="@[0] == '*' && "*="@[1] == '=');
    assert("/="@.len() == 2 && "/="@[0] == '/' && "/="@[1] == '=');
    assert("%="@.len() == 2 && "%="@[0] == '%' && "%="@[1] == '=');
    assert("**="@.len() == 3 && "**="@[0] == '*' && "**="@[1] == '*' && "**="@[2] == '=');
    assert("&="@.len() == 2 && "&="@[0] == '&' && "&="@[1] == '=');
    assert("|="@.len() == 2 && "|="@[0] == '|' && "|="@[1] == '=');
    assert("^="@.len() == 2 && "^="@[0] == '^' && "^="@[1] == '=');
    assert("<<="@.len() == 3 && "<<="@[0] == '<' && "<<="@[1] == '<' && "<<="@[2] == '=');
    assert(">>="@.len() == 3 && ">>="@[0] == '>' && ">>="@[1] == '>' && ">>="@[2] == '=');
    assert(">>>="@.len() == 4 && ">>>="@[0] == '>' && ">>>="@[1] == '>' && ">>>="@[2] == '>' && ">>>="@[3] == '=');
    assert("&&"@.len() == 2 && "&&"@[0] == '&' && "&&"@[1] == '&');
    assert("||"@.len() == 2 && "||"@[0] == '|' && "||"@[1] == '|');
    assert("??"@.len() == 2 && "??"@[0] == '?' && "??"@[1] == '?');
}

/// Which operators the parser of plain scripts has at each level: all of the level's
/// kind are read, from their symbols.
pub proof fn law_parser_reads_operators(ts: Seq<TokenView>, p: int, op: BinaryOp)
    requires
        0 <= p < ts.len(),
        ts[p].kind is Punct,
        ts[p].text == symbol(op),
    ensures
        op is Eq || op is Ne || op is StrictEq || op is StrictNe <==> equality_op(ts, p) == Some(op),
        op is Lt || op is Gt || op is Le || op is Ge <==> relational_op(ts, p) == Some(op),
        op is Add || op is Sub <==> additive_op(ts, p) == Some(op),
        op is Mul || op is Div || op is Rem <==> multiplicative_op(ts, p) == Some(op),
{
    reveal_strlit("==");
    reveal_strlit("!=");
    reveal_strlit("===");
    reveal_strlit("!==");
    reveal_strlit("<");
    reveal_strlit(">");
    reveal_strlit("<=");
    reveal_strlit(">=");
    reveal_strlit("+");
    reveal_strlit("-");
    reveal_strlit("*");
    reveal_strlit("/");
    reveal_strlit("%");
    reveal_strlit("in");
    reveal_strlit("&");
    reveal_strlit("|");
    reveal_strlit("^");
    reveal_strlit("<<");
    reveal_strlit(">>");
    reveal_strlit(">>>");
    reveal_strlit("**");
    assert("=="@.len() == 2 && "=="@[0] == '=' && "=="@[1] == '=');
    assert("!="@.len() == 2 && "!="@[0] == '!' && "!="@[1] == '=');
    assert("==="@.len() == 3 && "==="@[0] == '=' && "==="@[1] == '=' && "==="@[2] == '=');
    assert("!=="@.len() == 3 && "!=="@[0] == '!' && "!=="@[1] == '=' && "!=="@[2] == '=');
    assert("<"@.len() == 1 && "<"@[0] == '<');
    assert(">"@.len() == 1 && ">"@[0] == '>');
    assert("<="@.len() == 2 && "<="@[0] == '<' && "<="@[1] == '=');
    assert(">="@.len() == 2 && ">="@[0] == '>' && ">="@[1] == '=');
    assert("+"@.len() == 1 && "+"@[0] == '+');
    assert("-"@.len() == 1 && "-"@[0] == '-');
    assert("*"@.len() == 1 && "*"@[0] == '*');
    assert("/"@.len() == 1 && "/"@[0] == '/');
    assert("%"@.len() == 1 && "%"@[0] == '%');
    assert("in"@.len() == 2 && "in"@[0] == 'i' && "in"@[1] == 'n');
    assert("&"@.len() == 1 && "&"@[0] == '&');
    assert("|"@.len() == 1 && "|"@[0] == '|');
    assert("^"@.len() == 1 && "^"@[0] == '^');
    assert("<<"@.len() == 2 && "<<"@[0] == '<' && "<<"@[1] == '<');
    assert(">>"@.len() == 2 && ">>"@[0] == '>' && ">>"@[1] == '>');
    assert(">>>"@.len() == 3 && ">>>"@[0] == '>' && ">>>"@[1] == '>' && ">>>"@[2] == '>');
    assert("**"@.len() == 2 && "**"@[0] == '*' && "**"@[1] == '*');
}

/// How a keyword is written.
pub open spec fn keyword_text(k: Kw) -> Seq<char> {
    match k {
        Kw::Var => "var"@,
        Kw::This => "this"@,
        Kw::True => "true"@,
        Kw::False => "false"@,
        Kw::Undefined => "undefined"@,
        Kw::Null => "null"@,
        Kw::If => "if"@,
        Kw::Else => "else"@,
        Kw::In => "in"@,
        Kw::Function => "function"@,
        Kw::Return => "return"@,
        Kw::For => "for"@,
        Kw::Break => "break"@,
        Kw::Continue => "continue"@,
        Kw::Switch => "switch"@,
        Kw::Case => "case"@,
        Kw::Default => "default"@,
        Kw::Try => "try"@,
        Kw::Catch => "catch"@,
        Kw::Finally => "finally"@,
        Kw::Throw => "throw"@,
        Kw::New => "new"@,
        Kw::Instanceof => "instanceof"@,
        Kw::Typeof => "typeof"@,
        Kw::Void => "void"@,
        Kw::While => "while"@,
        Kw::Do => "do"@,
        Kw::Class => "class"@,
        Kw::Super => "super"@,
        Kw::Delete => "delete"@,
    }
}

/// A keyword is read from its text and from no other.
pub proof fn law_keywords(t: Seq<char>, k: Kw)
    ensures
        keyword(t) == Some(k) <==> t == keyword_text(k),
{
    reveal_strlit("var");
    reveal_strlit("this");
    reveal_strlit("true");
    reveal_strlit("false");
    reveal_strlit("undefined");
    reveal_strlit("null");
    reveal_strlit("if");
    reveal_strlit("else");
    reveal_strlit("in");
    reveal_strlit("function");
    reveal_strlit("return");
    reveal_strlit("for");
    reveal_strlit("break");
    reveal_strlit("continue");
    reveal_strlit("switch");
    reveal_strlit("case");
    reveal_strlit("default");
    reveal_strlit("try");
    reveal_strlit("catch");
    reveal_strlit("finally");
    reveal_strlit("throw");
    reveal_strlit("new");
    reveal_strlit("instanceof");
    reveal_strlit("typeof");
    reveal_strlit("void");
    reveal_strlit("while");
    reveal_strlit("do");
    reveal_strlit("class");
    reveal_strlit("super");
    reveal_strlit("delete");
    assert("var"@.len() == 3 && "var"@[0] == 'v' && "var"@[1] == 'a' && "var"@[2] == 'r');
    assert("this"@.len() == 4 && "this"@[0] == 't' && "this"@[1] == 'h' && "this"@[2] == 'i' && "this"@[3] == 's');
    assert("true"@.len() == 4 && "true"@[0] == 't' && "true"@[1] == 'r' && "true"@[2] == 'u' && "true"@[3] == 'e');
    assert("false"@.len() == 5 && "false"@[0] == 'f' && "false"@[1] == 'a' && "false"@[2] == 'l' && "false"@[3] == 's' && "false"@[4] == 'e');
    assert("undefined"@.len() == 9 && "undefined"@[0] == 'u' && "undefined"@[1] == 'n' && "undefined"@[2] == 'd' && "undefined"@[3] == 'e' && "undefined"@[4] == 'f' && "undefined"@[5] == 'i' && "undefined"@[6] == 'n' && "undefined"@[7] == 'e' && "undefined"@[8] == 'd');
    assert("null"@.len() == 4 && "null"@[0] == 'n' && "null"@[1] == 'u' && "null"@[2] == 'l' && "null"@[3] == 'l');
    assert("if"@.len() == 2 && "if"@[0] == 'i' && "if"@[1] == 'f');
    assert("else"@.len() == 4 && "else"@[0] == 'e' && "else"@[1] == 'l' && "else"@[2] == 's' && "else"@[3] == 'e');
    assert("in"@.len() == 2 && "in"@[0] == 'i' && "in"@[1] == 'n');
    assert("function"@.len() == 8 && "function"@[0] == 'f' && "function"@[1] == 'u' && "function"@[2] == 'n' && "function"@[3] == 'c' && "function"@[4] == 't' && "function"@[5] == 'i' && "function"@[6] == 'o' && "function"@[7] == 'n');
    assert("return"@.len() == 6 && "return"@[0] == 'r' && "return"@[1] == 'e' && "return"@[2] == 't' && "return"@[3] == 'u' && "return"@[4] == 'r' && "return"@[5] == 'n');
    assert("for"@.len() == 3 && "for"@[0] == 'f' && "for"@[1] == 'o' && "for"@[2] == 'r');
    assert("break"@.len() == 5 && "break"@[0] == 'b' && "break"@[1] == 'r' && "break"@[2] == 'e' && "break"@[3] == 'a' && "break"@[4] == 'k');
    assert("continue"@.len() == 8 && "continue"@[0] == 'c' && "continue"@[1] == 'o' && "continue"@[2] == 'n' && "continue"@[3] == 't' && "continue"@[4] == 'i' && "continue"@[5] == 'n' && "continue"@[6] == 'u' && "continue"@[7] == 'e');
    assert("switch"@.len() == 6 && "switch"@[0] == 's' && "switch"@[1] == 'w' && "switch"@[2] == 'i' && "switch"@[3] == 't' && "switch"@[4] == 'c' && "switch"@[5] == 'h');
    assert("case"@.len() == 4 && "case"@[0] == 'c' && "case"@[1] == 'a' && "case"@[2] == 's' && "case"@[3] == 'e');
    assert("default"@.len() == 7 && "default"@[0] == 'd' && "default"@[1] == 'e' && "default"@[2] == 'f' && "default"@[3] == 'a' && "default"@[4] == 'u' && "default"@[5] == 'l' && "default"@[6] == 't');
    assert("try"@.len() == 3 && "try"@[0] == 't' && "try"@[1] == 'r' && "try"@[2] == 'y');
    assert("catch"@.len() == 5 && "catch"@[0] == 'c' && "catch"@[1] == 'a' && "catch"@[2] == 't' && "catch"@[3] == 'c' && "catch"@[4] == 'h');
    assert("finally"@.len() == 7 && "finally"@[0] == 'f' && "finally"@[1] == 'i' && "finally"@[2] == 'n' && "finally"@[3] == 'a' && "finally"@[4] == 'l' && "finally"@[5] == 'l' && "finally"@[6] == 'y');
    assert("throw"@.len() == 5 && "throw"@[0] == 't' && "throw"@[1] == 'h' && "throw"@[2] == 'r' && "throw"@[3] == 'o' && "throw"@[4] == 'w');
    assert("new"@.len() == 3 && "new"@[0] == 'n' && "new"@[1] == 'e' && "new"@[2] == 'w');
    assert("instanceof"@.len() == 10 && "instanceof"@[0] == 'i' && "instanceof"@[1] == 'n' && "instanceof"@[2] == 's' && "instanceof"@[3] == 't' && "instanceof"@[4] == 'a' && "instanceof"@[5] == 'n' && "instanceof"@[6] == 'c' && "instanceof"@[7] == 'e' && "instanceof"@[8] == 'o' && "instanceof"@[9] == 'f');
    assert("typeof"@.len() == 6 && "typeof"@[0] == 't' && "typeof"@[1] == 'y' && "typeof"@[2] == 'p' && "typeof"@[3] == 'e' && "typeof"@[4] == 'o' && "typeof"@[5] == 'f');
    assert("void"@.len() == 4 && "void"@[0] == 'v' && "void"@[1] == 'o' && "void"@[2] == 'i' && "void"@[3] == 'd');
    assert("while"@.len() == 5 && "while"@[0] == 'w' && "while"@[1] == 'h' && "while"@[2] == 'i' && "while"@[3] == 'l' && "while"@[4] == 'e');
    assert("do"@.len() == 2 && "do"@[0] == 'd' && "do"@[1] == 'o');
    assert("class"@.len() == 5 && "class"@[0] == 'c' && "class"@[1] == 'l' && "class"@[2] == 'a' && "class"@[3] == 's' && "class"@[4] == 's');
    assert("super"@.len() == 5 && "super"@[0] == 's' && "super"@[1] == 'u' && "super"@[2] == 'p' && "super"@[3] == 'e' && "super"@[4] == 'r');
    assert("delete"@.len() == 6 && "delete"@[0] == 'd' && "delete"@[1] == 'e' && "delete"@[2] == 'l' && "delete"@[3] == 'e' && "delete"@[4] == 't' && "delete"@[5] == 'e');
    assert(keyword(keyword_text(k)) == Some(k)) by {
        match k {
            Kw::Var => {},
            Kw::This => {},
            Kw::True => {},
            Kw::False => {},
            Kw::Undefined => {},
            Kw::Null => {},
            Kw::If => {},
            Kw::Else => {},
            Kw::In => {},
            Kw::Function => {},
            Kw::Return => {},
            Kw::For => {},
            Kw::Break => {},
            Kw::Continue => {},
            Kw::Switch => {},
            Kw::Case => {},
            Kw::Default => {},
            Kw::Try => {},
            Kw::Catch => {},
            Kw::Finally => {},
            Kw::Throw => {},
            Kw::New => {},
            Kw::Instanceof => {},
            Kw::Typeof => {},
            Kw::Void => {},
            Kw::While => {},
            Kw::Do => {},
            Kw::Class => {},
            Kw::Super => {},
            Kw::Delete => {},
        }
    }
}

} // verus!
