//! The hand-written parser.
//!
//! It reads a small part of the language: `var` declarations, functions, the usual
//! statements, and expressions without patterns, spreads, classes or templates.
//! A statement ends with its semicolon.
use vstd::prelude::*;
use crate::ast::{
    arg_trees, array_elem_trees, declarator_trees, pattern_trees, prop_trees, stmt_trees, switch_case_trees, Arg, ArrayElem, AssignTarget, BinaryOp,
    CatchClause, Declarator, Expr, Lit, LogicalOp, Pattern, Program, ProgramTree, Prop, PropKey, Stmt, SwitchCase, UnaryOp, VarKind,
};
use crate::atoms::same_text;
use crate::error::{Error, ErrorView};
use crate::grammar::{
    anykw_at, context, debug_list, end_at, expected, failed, gives, kind_at, kw_at, no_key, number_text,
    parsed, punct_at, remaining, same, text_at, unexpected,
};
use crate::grammar::{additive_at, additive_op, additive_rest_at, arg_list_at, args_at, array_at, assign_op, assignment_at, bare_declarator_at, block_body_at, block_stmts_at, call_at, case_body_at, cases_at, catch_part_at, declarators_at, delete_stmt_at, do_at, elem_list_at, else_part_at, equality_at, equality_op, equality_rest_at, expr_at, finally_part_at, for_at, for_bare_at, for_cond_at, for_expr_at, for_in_at, for_list_at, for_tail_at, for_update_at, for_var_at, function_decl_at, function_expr_at, getter_at, if_at, index_at, initializer_at, law_additive, law_additive_rest, law_arg_list, law_args, law_array, law_assignment, law_bare_declarator, law_block_body, law_block_stmts, law_call, law_case_body, law_cases, law_catch_part, law_declarators, law_delete_stmt, law_do, law_elem_list, law_else_part, law_equality, law_equality_rest, law_expr, law_finally_part, law_for, law_for_bare, law_for_cond, law_for_expr, law_for_in, law_for_list, law_for_tail, law_for_update, law_for_var, law_function_decl, law_function_expr, law_getter, law_if, law_index, law_initializer, law_logical, law_logical_rest, law_multiplicative, law_multiplicative_rest, law_new_args, law_new_rest, law_no_elems, law_no_params, law_object, law_one_param, law_param_list, law_params, law_postfix, law_postfix_rest, law_primary, law_program, law_prop, law_prop_key, law_prop_list, law_prop_rest, law_relational, law_relational_rest, law_return_rest, law_setter, law_stmt, law_stmt_or_block, law_switch, law_ternary, law_try, law_unary, law_var_decl, law_while, logical_at, logical_op, logical_rest_at, multiplicative_at, multiplicative_op, multiplicative_rest_at, new_args_at, new_rest_at, no_elems_at, no_params_at, object_at, one_param_at, param_list_at, params_at, postfix_at, postfix_op, postfix_rest_at, prefix_op, primary_at, program_at, prop_at, prop_key_at, prop_list_at, prop_rest_at, relational_at, relational_op, relational_rest_at, return_rest_at, setter_at, stmt_at, stmt_or_block_at, switch_at, ternary_at, try_at, unary_at, var_decl_at, while_at};
use crate::lexer::{law_tokens_end, token_views, Kw, Lexer, Token, TokenKind, TokenView};
use crate::text::{chars_of, decimal_text, joined, owned, texts};

verus! {

/// Calls `Debug` of `Vec<String>` through `format!`: the text depends on the
/// strings alone.
#[verifier::external_body]
fn debug_text(list: &Vec<String>) -> (r: String)
    ensures
        r@ == debug_list(texts(list@)),
{
    format!("{:?}", list)
}

struct Parser {
    tokens: Vec<Token>,
    pos: usize,
}

impl Parser {
    spec fn view(&self) -> Seq<TokenView> {
        token_views(self.tokens@)
    }

    spec fn inv(&self) -> bool {
        &&& self.pos < self.tokens@.len()
        &&& self@.last().kind is Eof
        &&& self@.last().text.len() == 0
        &&& forall|k: int| 0 <= k < self@.len() - 1 ==> !((#[trigger] self@[k]).kind is Eof)
    }

    fn peek(&self) -> (r: &Token)
        requires
            self.inv(),
        ensures
            r@ == self@[self.pos as int],
    {
        &self.tokens[self.pos]
    }

    fn peek_is(&self, k: TokenKind) -> (r: bool)
        requires
            self.inv(),
        ensures
            r == kind_at(self@, self.pos as int, k),
    {
        self.peek().kind == k
    }

    fn peek_is_punct(&self, s: &str) -> (r: bool)
        requires
            self.inv(),
        ensures
            r == punct_at(self@, self.pos as int, s@),
    {
        self.peek().kind == TokenKind::Punct && same_text(self.peek().text.as_str(), s)
    }

    fn peek_is_text(&self, s: &str) -> (r: bool)
        requires
            self.inv(),
        ensures
            r == text_at(self@, self.pos as int, s@),
            r && s@.len() > 0 ==> !end_at(self@, self.pos as int),
    {
        same_text(self.peek().text.as_str(), s)
    }

    fn peek_is_kw(&self, k: Kw) -> (r: bool)
        requires
            self.inv(),
        ensures
            r == kw_at(self@, self.pos as int, k),
    {
        self.peek().kind == TokenKind::Kw(k)
    }

    fn peek_any_kw(&self) -> (r: bool)
        requires
            self.inv(),
        ensures
            r == anykw_at(self@, self.pos as int),
    {
        match self.peek().kind {
            TokenKind::Kw(_) => true,
            _ => false,
        }
    }

    fn at_end(&self) -> (r: bool)
        requires
            self.inv(),
        ensures
            r == end_at(self@, self.pos as int),
    {
        self.peek().kind == TokenKind::Eof
    }

    fn bump(&mut self)
        requires
            old(self).inv(),
            !end_at(old(self)@, old(self).pos as int),
        ensures
            final(self).inv(),
            final(self)@ == old(self)@,
            final(self).pos == old(self).pos + 1,
    {
        assert(self.tokens@.len() == self.tokens.len());
        self.pos += 1;
    }

    fn text(&self) -> (r: String)
        requires
            self.inv(),
        ensures
            r@ == self@[self.pos as int].text,
    {
        owned(self.peek().text.as_str())
    }

    fn number(&self) -> (r: String)
        requires
            self.inv(),
        ensures
            r@ == number_text(self@[self.pos as int].text),
    {
        let v = chars_of(self.peek().text.as_str());
        let c = if v.len() >= 2 && v[0] == '0' { v[1] } else { ' ' };
        if c == 'x' || c == 'X' || c == 'o' || c == 'O' || c == 'b' || c == 'B' {
            owned("NaN")
        } else {
            self.text()
        }
    }

    fn expected(&self, s: &str) -> (r: Error)
        requires
            self.inv(),
        ensures
            r@ == ErrorView::Parse(expected(self@, self.pos as int, s@)),
    {
        let a = joined("expected '", s);
        let b = joined(a.as_str(), "' (found '");
        let c = joined(b.as_str(), self.peek().text.as_str());
        let d = joined(c.as_str(), "' at line ");
        let e = joined(d.as_str(), decimal_text(self.peek().line as u64).as_str());
        Error::Parse(joined(e.as_str(), ")"))
    }

    fn no_key(&self) -> (r: Error)
        requires
            self.inv(),
        ensures
            r@ == ErrorView::Parse(no_key(self@, self.pos as int)),
    {
        let a = joined("expected object property key (found '", self.peek().text.as_str());
        Error::Parse(joined(a.as_str(), "')"))
    }

    fn unexpected(&self) -> (r: Error)
        requires
            self.inv(),
        ensures
            r@ == ErrorView::Parse(unexpected(self@, self.pos as int)),
    {
        assert(self.tokens@.len() == self.tokens.len());
        let lo: usize = if self.pos >= 3 { self.pos - 3 } else { 0 };
        let mut list: Vec<String> = Vec::new();
        let mut i: usize = lo;
        while i <= self.pos
            invariant
                self.inv(),
                self.pos < usize::MAX,
                lo <= i <= self.pos + 1,
                list@.len() == i - lo,
                forall|k: int| 0 <= k < list@.len() ==> (#[trigger] list@[k])@ == self@[lo + k].text,
            decreases self.pos + 1 - i,
        {
            list.push(owned(self.tokens[i].text.as_str()));
            i += 1;
        }
        assert(texts(list@) =~= context(self@, self.pos as int));
        let a = joined("unexpected token '", self.peek().text.as_str());
        let b = joined(a.as_str(), "' at line ");
        let c = joined(b.as_str(), decimal_text(self.peek().line as u64).as_str());
        let d = joined(c.as_str(), " (ctx: ");
        let e = joined(d.as_str(), debug_text(&list).as_str());
        Error::Parse(joined(e.as_str(), ")"))
    }

    fn expect_ident(&mut self) -> (r: Result<String, Error>)
        requires
            old(self).inv(),
        ensures
            final(self)@ == old(self)@,
            match r {
                Ok(t) => kind_at(old(self)@, old(self).pos as int, TokenKind::Ident) && t@ == old(self)@[old(self).pos as int].text && final(self).inv()
                    && final(self).pos == old(self).pos + 1,
                Err(e) => !kind_at(old(self)@, old(self).pos as int, TokenKind::Ident) && e@ == ErrorView::Parse("expected identifier"@),
            },
    {
        if self.peek_is(TokenKind::Ident) {
            let t = self.text();
            self.bump();
            Ok(t)
        } else {
            Err(Error::Parse(owned("expected identifier")))
        }
    }

    fn assign_op(&self) -> (r: Option<BinaryOp>)
        requires
            self.inv(),
        ensures
            r == assign_op(self@, self.pos as int),
            r is Some ==> !end_at(self@, self.pos as int),
    {
        if self.peek_is_punct("+=") {
            Some(BinaryOp::Add)
        } else if self.peek_is_punct("-=") {
            Some(BinaryOp::Sub)
        } else if self.peek_is_punct("*=") {
            Some(BinaryOp::Mul)
        } else if self.peek_is_punct("/=") {
            Some(BinaryOp::Div)
        } else if self.peek_is_punct("%=") {
            Some(BinaryOp::Rem)
        } else {
            None
        }
    }

    fn logical_op(&self) -> (r: Option<LogicalOp>)
        requires
            self.inv(),
        ensures
            r == logical_op(self@, self.pos as int),
            r is Some ==> !end_at(self@, self.pos as int),
    {
        if self.peek_is_punct("&&") {
            Some(LogicalOp::And)
        } else if self.peek_is_punct("||") {
            Some(LogicalOp::Or)
        } else {
            None
        }
    }

    fn equality_op(&self) -> (r: Option<BinaryOp>)
        requires
            self.inv(),
        ensures
            r == equality_op(self@, self.pos as int),
            r is Some ==> !end_at(self@, self.pos as int),
    {
        proof {
            reveal_strlit("===");
            reveal_strlit("!==");
            reveal_strlit("==");
            reveal_strlit("!=");
        }
        if self.peek_is_text("===") {
            Some(BinaryOp::StrictEq)
        } else if self.peek_is_text("!==") {
            Some(BinaryOp::StrictNe)
        } else if self.peek_is_text("==") {
            Some(BinaryOp::Eq)
        } else if self.peek_is_text("!=") {
            Some(BinaryOp::Ne)
        } else {
            None
        }
    }

    fn relational_op(&self) -> (r: Option<BinaryOp>)
        requires
            self.inv(),
        ensures
            r == relational_op(self@, self.pos as int),
            r is Some ==> !end_at(self@, self.pos as int),
    {
        proof {
            reveal_strlit("<");
            reveal_strlit(">");
            reveal_strlit("<=");
            reveal_strlit(">=");
        }
        if self.peek_is_text("<") {
            Some(BinaryOp::Lt)
        } else if self.peek_is_text(">") {
            Some(BinaryOp::Gt)
        } else if self.peek_is_text("<=") {
            Some(BinaryOp::Le)
        } else if self.peek_is_text(">=") {
            Some(BinaryOp::Ge)
        } else {
            None
        }
    }

    fn additive_op(&self) -> (r: Option<BinaryOp>)
        requires
            self.inv(),
        ensures
            r == additive_op(self@, self.pos as int),
            r is Some ==> !end_at(self@, self.pos as int),
    {
        if self.peek_is_punct("+") {
            Some(BinaryOp::Add)
        } else if self.peek_is_punct("-") {
            Some(BinaryOp::Sub)
        } else {
            None
        }
    }

    fn multiplicative_op(&self) -> (r: Option<BinaryOp>)
        requires
            self.inv(),
        ensures
            r == multiplicative_op(self@, self.pos as int),
            r is Some ==> !end_at(self@, self.pos as int),
    {
        if self.peek_is_punct("*") {
            Some(BinaryOp::Mul)
        } else if self.peek_is_punct("/") {
            Some(BinaryOp::Div)
        } else if self.peek_is_punct("%") {
            Some(BinaryOp::Rem)
        } else {
            None
        }
    }

    fn prefix_op(&self) -> (r: Option<UnaryOp>)
        requires
            self.inv(),
        ensures
            r == prefix_op(self@, self.pos as int),
            r is Some ==> !end_at(self@, self.pos as int),
    {
        if self.peek_is_kw(Kw::Typeof) {
            Some(UnaryOp::Typeof)
        } else if self.peek_is_kw(Kw::Void) {
            Some(UnaryOp::Void)
        } else if self.peek_is_punct("!") {
            Some(UnaryOp::Not)
        } else if self.peek_is_punct("-") {
            Some(UnaryOp::Neg)
        } else if self.peek_is_punct("+") {
            Some(UnaryOp::Plus)
        } else if self.peek_is_kw(Kw::Delete) {
            Some(UnaryOp::Delete)
        } else {
            None
        }
    }

    fn postfix_op(&self) -> (r: Option<UnaryOp>)
        requires
            self.inv(),
        ensures
            r == postfix_op(self@, self.pos as int),
            r is Some ==> !end_at(self@, self.pos as int),
    {
        if self.peek_is_punct("++") {
            Some(UnaryOp::PostInc)
        } else if self.peek_is_punct("--") {
            Some(UnaryOp::PostDec)
        } else {
            None
        }
    }

    fn parse_program(&mut self, first: Vec<Stmt>) -> (r: Result<Vec<Stmt>, Error>)
        requires
            old(self).inv(),
        ensures
            final(self)@ == old(self)@,
            match r {
                Ok(v) => gives(program_at(old(self)@, old(self).pos as int, stmt_trees(first)), stmt_trees(v), final(self).pos as int) && final(self).inv() && old(self).pos <= final(self).pos,
                Err(e) => failed(program_at(old(self)@, old(self).pos as int, stmt_trees(first)), e),
            },
        decreases remaining(old(self)@, old(self).pos as int), 30int,
    {
        let mut list = first;
        let ghost ts = self@;
        let ghost want = program_at(ts, self.pos as int, stmt_trees(list));
        loop
            invariant
                self.inv(),
                self@ == ts,
                ts == old(self)@,
                old(self).pos <= self.pos,
                same(want, program_at(old(self)@, old(self).pos as int, stmt_trees(first))),
                same(want, program_at(ts, self.pos as int, stmt_trees(list))),
            decreases remaining(ts, self.pos as int),
        {
            proof {
                law_program(self@, self.pos as int, stmt_trees(list));
            }
            if self.at_end() {
                return Ok(list);
            }
            let s = match self.parse_stmt() {
                Ok(v) => v,
                Err(e) => {
                    return Err(e);
                },
            };
            let item = s;
            let ghost tree = item.tree();
            let ghost before = stmt_trees(list);
            list.push(item);
            assert(stmt_trees(list) =~= before.push(tree));
            continue;
        }
    }

    fn parse_block_body(&mut self, first: Vec<Stmt>) -> (r: Result<Vec<Stmt>, Error>)
        requires
            old(self).inv(),
        ensures
            final(self)@ == old(self)@,
            match r {
                Ok(v) => gives(block_body_at(old(self)@, old(self).pos as int, stmt_trees(first)), stmt_trees(v), final(self).pos as int) && final(self).inv() && old(self).pos <= final(self).pos,
                Err(e) => failed(block_body_at(old(self)@, old(self).pos as int, stmt_trees(first)), e),
            },
        decreases remaining(old(self)@, old(self).pos as int), 30int,
    {
        let mut list = first;
        let ghost ts = self@;
        let ghost want = block_body_at(ts, self.pos as int, stmt_trees(list));
        loop
            invariant
                self.inv(),
                self@ == ts,
                ts == old(self)@,
                old(self).pos <= self.pos,
                same(want, block_body_at(old(self)@, old(self).pos as int, stmt_trees(first))),
                same(want, block_body_at(ts, self.pos as int, stmt_trees(list))),
            decreases remaining(ts, self.pos as int),
        {
            proof {
                law_block_body(self@, self.pos as int, stmt_trees(list));
            }
            if self.peek_is_punct("}") || self.at_end() {
                return Ok(list);
            }
            let s = match self.parse_stmt() {
                Ok(v) => v,
                Err(e) => {
                    return Err(e);
                },
            };
            let item = s;
            let ghost tree = item.tree();
            let ghost before = stmt_trees(list);
            list.push(item);
            assert(stmt_trees(list) =~= before.push(tree));
            continue;
        }
    }

    fn parse_block_stmts(&mut self) -> (r: Result<Vec<Stmt>, Error>)
        requires
            old(self).inv(),
        ensures
            final(self)@ == old(self)@,
            match r {
                Ok(v) => gives(block_stmts_at(old(self)@, old(self).pos as int), stmt_trees(v), final(self).pos as int) && final(self).inv() && old(self).pos < final(self).pos,
                Err(e) => failed(block_stmts_at(old(self)@, old(self).pos as int), e),
            },
        decreases remaining(old(self)@, old(self).pos as int), 8int,
    {
        proof {
            law_block_stmts(self@, self.pos as int);
        }
        if !self.peek_is_punct("{") {
            return Err(self.expected("{"));
        }
        self.bump();
        let none: Vec<Stmt> = Vec::new();
        assert(stmt_trees(none) =~= Seq::empty());
        let list = match self.parse_block_body(none) {
            Ok(v) => v,
            Err(e) => {
                return Err(e);
            },
        };
        if !self.peek_is_punct("}") {
            return Err(self.expected("}"));
        }
        self.bump();
        return Ok(list);
    }

    fn parse_stmt_or_block(&mut self) -> (r: Result<Vec<Stmt>, Error>)
        requires
            old(self).inv(),
        ensures
            final(self)@ == old(self)@,
            match r {
                Ok(v) => gives(stmt_or_block_at(old(self)@, old(self).pos as int), stmt_trees(v), final(self).pos as int) && final(self).inv() && old(self).pos < final(self).pos,
                Err(e) => failed(stmt_or_block_at(old(self)@, old(self).pos as int), e),
            },
        decreases remaining(old(self)@, old(self).pos as int), 27int,
    {
        proof {
            law_stmt_or_block(self@, self.pos as int);
        }
        if self.peek_is_punct("{") {
            let list = match self.parse_block_stmts() {
                Ok(v) => v,
                Err(e) => {
                    return Err(e);
                },
            };
            return Ok(list);
        }
        let s = match self.parse_stmt() {
            Ok(v) => v,
            Err(e) => {
                return Err(e);
            },
        };
        let mut list: Vec<Stmt> = Vec::new();
        let item = s;
        let ghost tree = item.tree();
        list.push(item);
        assert(stmt_trees(list) =~= seq![tree]);
        return Ok(list);
    }

    fn parse_return_rest(&mut self) -> (r: Result<Stmt, Error>)
        requires
            old(self).inv(),
        ensures
            final(self)@ == old(self)@,
            match r {
                Ok(v) => gives(return_rest_at(old(self)@, old(self).pos as int), v.tree(), final(self).pos as int) && final(self).inv() && old(self).pos <= final(self).pos,
                Err(e) => failed(return_rest_at(old(self)@, old(self).pos as int), e),
            },
        decreases remaining(old(self)@, old(self).pos as int), 25int,
    {
        proof {
            law_return_rest(self@, self.pos as int);
        }
        if self.peek_is_punct("}") {
            return Ok(Stmt::Return(None));
        }
        if self.peek_is_punct(";") {
            self.bump();
            return Ok(Stmt::Return(None));
        }
        let e = match self.parse_expr() {
            Ok(v) => v,
            Err(e) => {
                return Err(e);
            },
        };
        if !self.peek_is_punct(";") {
            return Err(self.expected(";"));
        }
        self.bump();
        return Ok(Stmt::Return(Some(e)));
    }

    fn parse_delete_stmt(&mut self) -> (r: Result<Stmt, Error>)
        requires
            old(self).inv(),
        ensures
            final(self)@ == old(self)@,
            match r {
                Ok(v) => gives(delete_stmt_at(old(self)@, old(self).pos as int), v.tree(), final(self).pos as int) && final(self).inv() && old(self).pos < final(self).pos,
                Err(e) => failed(delete_stmt_at(old(self)@, old(self).pos as int), e),
            },
        decreases remaining(old(self)@, old(self).pos as int), 25int,
    {
        proof {
            law_delete_stmt(self@, self.pos as int);
        }
        let operand = match self.parse_unary() {
            Ok(v) => v,
            Err(e) => {
                return Err(e);
            },
        };
        let e = Expr::Unary { op: UnaryOp::Delete, operand: Box::new(operand) };
        let ghost _twin = e.tree();
        if self.peek_is_punct(";") {
            self.bump();
            return Ok(Stmt::Expr(e));
        }
        return Ok(Stmt::Expr(e));
    }

    #[verifier::rlimit(40)]
    fn parse_stmt(&mut self) -> (r: Result<Stmt, Error>)
        requires
            old(self).inv(),
        ensures
            final(self)@ == old(self)@,
            match r {
                Ok(v) => gives(stmt_at(old(self)@, old(self).pos as int), v.tree(), final(self).pos as int) && final(self).inv() && old(self).pos < final(self).pos,
                Err(e) => failed(stmt_at(old(self)@, old(self).pos as int), e),
            },
        decreases remaining(old(self)@, old(self).pos as int), 26int,
    {
        proof {
            law_stmt(self@, self.pos as int);
        }
        if self.peek_is_kw(Kw::Var) {
            self.bump();
            let v = match self.parse_var_decl() {
                Ok(v) => v,
                Err(e) => {
                    return Err(e);
                },
            };
            if !self.peek_is_punct(";") {
                return Err(self.expected(";"));
            }
            self.bump();
            return Ok(v);
        }
        if self.peek_is_kw(Kw::Function) {
            self.bump();
            let v = match self.parse_function_decl() {
                Ok(v) => v,
                Err(e) => {
                    return Err(e);
                },
            };
            return Ok(v);
        }
        if self.peek_is_kw(Kw::Return) {
            self.bump();
            let s = match self.parse_return_rest() {
                Ok(v) => v,
                Err(e) => {
                    return Err(e);
                },
            };
            return Ok(s);
        }
        if self.peek_is_kw(Kw::Break) {
            self.bump();
            if !self.peek_is_punct(";") {
                return Err(self.expected(";"));
            }
            self.bump();
            return Ok(Stmt::Break(None));
        }
        if self.peek_is_kw(Kw::Continue) {
            self.bump();
            if !self.peek_is_punct(";") {
                return Err(self.expected(";"));
            }
            self.bump();
            return Ok(Stmt::Continue(None));
        }
        if self.peek_is_kw(Kw::If) {
            self.bump();
            let v = match self.parse_if() {
                Ok(v) => v,
                Err(e) => {
                    return Err(e);
                },
            };
            return Ok(v);
        }
        if self.peek_is_kw(Kw::For) {
            self.bump();
            let v = match self.parse_for() {
                Ok(v) => v,
                Err(e) => {
                    return Err(e);
                },
            };
            return Ok(v);
        }
        if self.peek_is_kw(Kw::Switch) {
            self.bump();
            let v = match self.parse_switch() {
                Ok(v) => v,
                Err(e) => {
                    return Err(e);
                },
            };
            return Ok(v);
        }
        if self.peek_is_kw(Kw::Try) {
            self.bump();
            let v = match self.parse_try() {
                Ok(v) => v,
                Err(e) => {
                    return Err(e);
                },
            };
            return Ok(v);
        }
        if self.peek_is_kw(Kw::Throw) {
            self.bump();
            let e = match self.parse_expr() {
                Ok(v) => v,
                Err(e) => {
                    return Err(e);
                },
            };
            if !self.peek_is_punct(";") {
                return Err(self.expected(";"));
            }
            self.bump();
            return Ok(Stmt::Throw(e));
        }
        if self.peek_is_kw(Kw::While) {
            self.bump();
            let v = match self.parse_while() {
                Ok(v) => v,
                Err(e) => {
                    return Err(e);
                },
            };
            return Ok(v);
        }
        if self.peek_is_kw(Kw::Do) {
            self.bump();
            let v = match self.parse_do() {
                Ok(v) => v,
                Err(e) => {
                    return Err(e);
                },
            };
            return Ok(v);
        }
        if self.peek_is_kw(Kw::Delete) {
            self.bump();
            let s = match self.parse_delete_stmt() {
                Ok(v) => v,
                Err(e) => {
                    return Err(e);
                },
            };
            return Ok(s);
        }
        if self.peek_is_punct("{") {
            let list = match self.parse_block_stmts() {
                Ok(v) => v,
                Err(e) => {
                    return Err(e);
                },
            };
            return Ok(Stmt::Block(list));
        }
        let e = match self.parse_expr() {
            Ok(v) => v,
            Err(e) => {
                return Err(e);
            },
        };
        if !self.peek_is_punct(";") {
            return Err(self.expected(";"));
        }
        self.bump();
        return Ok(Stmt::Expr(e));
    }

    fn parse_initializer(&mut self) -> (r: Result<Option<Expr>, Error>)
        requires
            old(self).inv(),
        ensures
            final(self)@ == old(self)@,
            match r {
                Ok(v) => gives(initializer_at(old(self)@, old(self).pos as int), (match v { Some(v) => Some(v.tree()), None => None }), final(self).pos as int) && final(self).inv() && old(self).pos <= final(self).pos,
                Err(e) => failed(initializer_at(old(self)@, old(self).pos as int), e),
            },
        decreases remaining(old(self)@, old(self).pos as int), 25int,
    {
        proof {
            law_initializer(self@, self.pos as int);
        }
        if self.peek_is_punct("=") {
            self.bump();
            let e = match self.parse_expr() {
                Ok(v) => v,
                Err(e) => {
                    return Err(e);
                },
            };
            return Ok(Some(e));
        }
        return Ok(None);
    }

    fn parse_declarators(&mut self, first: Vec<Declarator>) -> (r: Result<Vec<Declarator>, Error>)
        requires
            old(self).inv(),
        ensures
            final(self)@ == old(self)@,
            match r {
                Ok(v) => gives(declarators_at(old(self)@, old(self).pos as int, declarator_trees(first)), declarator_trees(v), final(self).pos as int) && final(self).inv() && old(self).pos <= final(self).pos,
                Err(e) => failed(declarators_at(old(self)@, old(self).pos as int, declarator_trees(first)), e),
            },
        decreases remaining(old(self)@, old(self).pos as int), 28int,
    {
        let mut list = first;
        let ghost ts = self@;
        let ghost want = declarators_at(ts, self.pos as int, declarator_trees(list));
        loop
            invariant
                self.inv(),
                self@ == ts,
                ts == old(self)@,
                old(self).pos <= self.pos,
                same(want, declarators_at(old(self)@, old(self).pos as int, declarator_trees(first))),
                same(want, declarators_at(ts, self.pos as int, declarator_trees(list))),
            decreases remaining(ts, self.pos as int),
        {
            proof {
                law_declarators(self@, self.pos as int, declarator_trees(list));
            }
            let name = match self.expect_ident() {
                Ok(v) => v,
                Err(e) => {
                    return Err(e);
                },
            };
            let pat = Pattern::Ident(name);
            let ghost _twin = pat.tree();
            let init = match self.parse_initializer() {
                Ok(v) => v,
                Err(e) => {
                    return Err(e);
                },
            };
            if self.peek_is_punct(",") {
                self.bump();
                let item = Declarator { pat, init };
                let ghost tree = item.tree();
                let ghost before = declarator_trees(list);
                list.push(item);
                assert(declarator_trees(list) =~= before.push(tree));
                continue;
            }
            let item = Declarator { pat, init };
            let ghost tree = item.tree();
            let ghost before = declarator_trees(list);
            list.push(item);
            assert(declarator_trees(list) =~= before.push(tree));
            return Ok(list);
        }
    }

    fn parse_var_decl(&mut self) -> (r: Result<Stmt, Error>)
        requires
            old(self).inv(),
        ensures
            final(self)@ == old(self)@,
            match r {
                Ok(v) => gives(var_decl_at(old(self)@, old(self).pos as int), v.tree(), final(self).pos as int) && final(self).inv() && old(self).pos <= final(self).pos,
                Err(e) => failed(var_decl_at(old(self)@, old(self).pos as int), e),
            },
        decreases remaining(old(self)@, old(self).pos as int), 29int,
    {
        proof {
            law_var_decl(self@, self.pos as int);
        }
        let none: Vec<Declarator> = Vec::new();
        assert(declarator_trees(none) =~= Seq::empty());
        let list = match self.parse_declarators(none) {
            Ok(v) => v,
            Err(e) => {
                return Err(e);
            },
        };
        return Ok(Stmt::Var(list, VarKind::Var));
    }

    fn parse_param_list(&mut self, first: Vec<Pattern>) -> (r: Result<Vec<Pattern>, Error>)
        requires
            old(self).inv(),
        ensures
            final(self)@ == old(self)@,
            match r {
                Ok(v) => gives(param_list_at(old(self)@, old(self).pos as int, pattern_trees(first)), pattern_trees(v), final(self).pos as int) && final(self).inv() && old(self).pos <= final(self).pos,
                Err(e) => failed(param_list_at(old(self)@, old(self).pos as int, pattern_trees(first)), e),
            },
        decreases remaining(old(self)@, old(self).pos as int), 6int,
    {
        let mut list = first;
        let ghost ts = self@;
        let ghost want = param_list_at(ts, self.pos as int, pattern_trees(list));
        loop
            invariant
                self.inv(),
                self@ == ts,
                ts == old(self)@,
                old(self).pos <= self.pos,
                same(want, param_list_at(old(self)@, old(self).pos as int, pattern_trees(first))),
                same(want, param_list_at(ts, self.pos as int, pattern_trees(list))),
            decreases remaining(ts, self.pos as int),
        {
            proof {
                law_param_list(self@, self.pos as int, pattern_trees(list));
            }
            let name = match self.expect_ident() {
                Ok(v) => v,
                Err(e) => {
                    return Err(e);
                },
            };
            if self.peek_is_punct(",") {
                self.bump();
                let item = Pattern::Ident(name);
                let ghost tree = item.tree();
                let ghost before = pattern_trees(list);
                list.push(item);
                assert(pattern_trees(list) =~= before.push(tree));
                continue;
            }
            let item = Pattern::Ident(name);
            let ghost tree = item.tree();
            let ghost before = pattern_trees(list);
            list.push(item);
            assert(pattern_trees(list) =~= before.push(tree));
            return Ok(list);
        }
    }

    fn parse_params(&mut self) -> (r: Result<Vec<Pattern>, Error>)
        requires
            old(self).inv(),
        ensures
            final(self)@ == old(self)@,
            match r {
                Ok(v) => gives(params_at(old(self)@, old(self).pos as int), pattern_trees(v), final(self).pos as int) && final(self).inv() && old(self).pos < final(self).pos,
                Err(e) => failed(params_at(old(self)@, old(self).pos as int), e),
            },
        decreases remaining(old(self)@, old(self).pos as int), 7int,
    {
        proof {
            law_params(self@, self.pos as int);
        }
        if !self.peek_is_punct("(") {
            return Err(self.expected("("));
        }
        self.bump();
        if self.peek_is_punct(")") {
            self.bump();
            let none: Vec<Pattern> = Vec::new();
            assert(pattern_trees(none) =~= Seq::empty());
            return Ok(none);
        }
        let none: Vec<Pattern> = Vec::new();
        assert(pattern_trees(none) =~= Seq::empty());
        let list = match self.parse_param_list(none) {
            Ok(v) => v,
            Err(e) => {
                return Err(e);
            },
        };
        if !self.peek_is_punct(")") {
            return Err(self.expected(")"));
        }
        self.bump();
        return Ok(list);
    }

    fn parse_function_decl(&mut self) -> (r: Result<Stmt, Error>)
        requires
            old(self).inv(),
        ensures
            final(self)@ == old(self)@,
            match r {
                Ok(v) => gives(function_decl_at(old(self)@, old(self).pos as int), v.tree(), final(self).pos as int) && final(self).inv() && old(self).pos < final(self).pos,
                Err(e) => failed(function_decl_at(old(self)@, old(self).pos as int), e),
            },
        decreases remaining(old(self)@, old(self).pos as int), 29int,
    {
        proof {
            law_function_decl(self@, self.pos as int);
        }
        let name = match self.expect_ident() {
            Ok(v) => v,
            Err(e) => {
                return Err(e);
            },
        };
        let params = match self.parse_params() {
            Ok(v) => v,
            Err(e) => {
                return Err(e);
            },
        };
        let body = match self.parse_block_stmts() {
            Ok(v) => v,
            Err(e) => {
                return Err(e);
            },
        };
        return Ok(Stmt::FunctionDecl { name, params, body });
    }

    fn parse_else_part(&mut self) -> (r: Result<Vec<Stmt>, Error>)
        requires
            old(self).inv(),
        ensures
            final(self)@ == old(self)@,
            match r {
                Ok(v) => gives(else_part_at(old(self)@, old(self).pos as int), stmt_trees(v), final(self).pos as int) && final(self).inv() && old(self).pos <= final(self).pos,
                Err(e) => failed(else_part_at(old(self)@, old(self).pos as int), e),
            },
        decreases remaining(old(self)@, old(self).pos as int), 28int,
    {
        proof {
            law_else_part(self@, self.pos as int);
        }
        if self.peek_is_kw(Kw::Else) {
            self.bump();
            let list = match self.parse_stmt_or_block() {
                Ok(v) => v,
                Err(e) => {
                    return Err(e);
                },
            };
            return Ok(list);
        }
        let none: Vec<Stmt> = Vec::new();
        assert(stmt_trees(none) =~= Seq::empty());
        return Ok(none);
    }

    fn parse_if(&mut self) -> (r: Result<Stmt, Error>)
        requires
            old(self).inv(),
        ensures
            final(self)@ == old(self)@,
            match r {
                Ok(v) => gives(if_at(old(self)@, old(self).pos as int), v.tree(), final(self).pos as int) && final(self).inv() && old(self).pos < final(self).pos,
                Err(e) => failed(if_at(old(self)@, old(self).pos as int), e),
            },
        decreases remaining(old(self)@, old(self).pos as int), 29int,
    {
        proof {
            law_if(self@, self.pos as int);
        }
        if !self.peek_is_punct("(") {
            return Err(self.expected("("));
        }
        self.bump();
        let cond = match self.parse_expr() {
            Ok(v) => v,
            Err(e) => {
                return Err(e);
            },
        };
        if !self.peek_is_punct(")") {
            return Err(self.expected(")"));
        }
        self.bump();
        let yes = match self.parse_stmt_or_block() {
            Ok(v) => v,
            Err(e) => {
                return Err(e);
            },
        };
        let no = match self.parse_else_part() {
            Ok(v) => v,
            Err(e) => {
                return Err(e);
            },
        };
        return Ok(Stmt::If { cond, yes, no });
    }

    fn parse_while(&mut self) -> (r: Result<Stmt, Error>)
        requires
            old(self).inv(),
        ensures
            final(self)@ == old(self)@,
            match r {
                Ok(v) => gives(while_at(old(self)@, old(self).pos as int), v.tree(), final(self).pos as int) && final(self).inv() && old(self).pos < final(self).pos,
                Err(e) => failed(while_at(old(self)@, old(self).pos as int), e),
            },
        decreases remaining(old(self)@, old(self).pos as int), 29int,
    {
        proof {
            law_while(self@, self.pos as int);
        }
        if !self.peek_is_punct("(") {
            return Err(self.expected("("));
        }
        self.bump();
        let cond = match self.parse_expr() {
            Ok(v) => v,
            Err(e) => {
                return Err(e);
            },
        };
        if !self.peek_is_punct(")") {
            return Err(self.expected(")"));
        }
        self.bump();
        let body = match self.parse_stmt_or_block() {
            Ok(v) => v,
            Err(e) => {
                return Err(e);
            },
        };
        return Ok(Stmt::For { init: None, cond: Some(cond), update: None, body });
    }

    fn parse_do(&mut self) -> (r: Result<Stmt, Error>)
        requires
            old(self).inv(),
        ensures
            final(self)@ == old(self)@,
            match r {
                Ok(v) => gives(do_at(old(self)@, old(self).pos as int), v.tree(), final(self).pos as int) && final(self).inv() && old(self).pos < final(self).pos,
                Err(e) => failed(do_at(old(self)@, old(self).pos as int), e),
            },
        decreases remaining(old(self)@, old(self).pos as int), 29int,
    {
        proof {
            law_do(self@, self.pos as int);
        }
        let body = match self.parse_stmt_or_block() {
            Ok(v) => v,
            Err(e) => {
                return Err(e);
            },
        };
        if !self.peek_is_kw(Kw::While) {
            return Err(self.expected("while"));
        }
        self.bump();
        if !self.peek_is_punct("(") {
            return Err(self.expected("("));
        }
        self.bump();
        let cond = match self.parse_expr() {
            Ok(v) => v,
            Err(e) => {
                return Err(e);
            },
        };
        if !self.peek_is_punct(")") {
            return Err(self.expected(")"));
        }
        self.bump();
        if !self.peek_is_punct(";") {
            return Err(self.expected(";"));
        }
        self.bump();
        return Ok(Stmt::DoWhile { cond, body });
    }

    fn parse_for(&mut self) -> (r: Result<Stmt, Error>)
        requires
            old(self).inv(),
        ensures
            final(self)@ == old(self)@,
            match r {
                Ok(v) => gives(for_at(old(self)@, old(self).pos as int), v.tree(), final(self).pos as int) && final(self).inv() && old(self).pos < final(self).pos,
                Err(e) => failed(for_at(old(self)@, old(self).pos as int), e),
            },
        decreases remaining(old(self)@, old(self).pos as int), 32int,
    {
        proof {
            law_for(self@, self.pos as int);
        }
        if !self.peek_is_punct("(") {
            return Err(self.expected("("));
        }
        self.bump();
        if self.peek_is_kw(Kw::Var) {
            self.bump();
            let s = match self.parse_for_var() {
                Ok(v) => v,
                Err(e) => {
                    return Err(e);
                },
            };
            return Ok(s);
        }
        if self.peek_is_punct(";") {
            self.bump();
            let s = match self.parse_for_bare() {
                Ok(v) => v,
                Err(e) => {
                    return Err(e);
                },
            };
            return Ok(s);
        }
        let s = match self.parse_for_expr() {
            Ok(v) => v,
            Err(e) => {
                return Err(e);
            },
        };
        return Ok(s);
    }

    fn parse_for_bare(&mut self) -> (r: Result<Stmt, Error>)
        requires
            old(self).inv(),
        ensures
            final(self)@ == old(self)@,
            match r {
                Ok(v) => gives(for_bare_at(old(self)@, old(self).pos as int), v.tree(), final(self).pos as int) && final(self).inv() && old(self).pos < final(self).pos,
                Err(e) => failed(for_bare_at(old(self)@, old(self).pos as int), e),
            },
        decreases remaining(old(self)@, old(self).pos as int), 31int,
    {
        proof {
            law_for_bare(self@, self.pos as int);
        }
        let cond = match self.parse_for_cond() {
            Ok(v) => v,
            Err(e) => {
                return Err(e);
            },
        };
        let update = match self.parse_for_update() {
            Ok(v) => v,
            Err(e) => {
                return Err(e);
            },
        };
        let body = match self.parse_stmt_or_block() {
            Ok(v) => v,
            Err(e) => {
                return Err(e);
            },
        };
        return Ok(Stmt::For { init: None, cond, update, body });
    }

    fn parse_for_var(&mut self) -> (r: Result<Stmt, Error>)
        requires
            old(self).inv(),
        ensures
            final(self)@ == old(self)@,
            match r {
                Ok(v) => gives(for_var_at(old(self)@, old(self).pos as int), v.tree(), final(self).pos as int) && final(self).inv() && old(self).pos < final(self).pos,
                Err(e) => failed(for_var_at(old(self)@, old(self).pos as int), e),
            },
        decreases remaining(old(self)@, old(self).pos as int), 31int,
    {
        proof {
            law_for_var(self@, self.pos as int);
        }
        let name = match self.expect_ident() {
            Ok(v) => v,
            Err(e) => {
                return Err(e);
            },
        };
        if self.peek_is_kw(Kw::In) {
            self.bump();
            let pat = Pattern::Ident(name);
            let ghost _twin = pat.tree();
            let s = match self.parse_for_in(pat) {
                Ok(v) => v,
                Err(e) => {
                    return Err(e);
                },
            };
            return Ok(s);
        }
        let pat = Pattern::Ident(name);
        let ghost _twin = pat.tree();
        let init = match self.parse_initializer() {
            Ok(v) => v,
            Err(e) => {
                return Err(e);
            },
        };
        let s = match self.parse_for_list(Declarator { pat, init }) {
            Ok(v) => v,
            Err(e) => {
                return Err(e);
            },
        };
        return Ok(s);
    }

    fn parse_for_list(&mut self, d: Declarator) -> (r: Result<Stmt, Error>)
        requires
            old(self).inv(),
        ensures
            final(self)@ == old(self)@,
            match r {
                Ok(v) => gives(for_list_at(old(self)@, old(self).pos as int, d.tree()), v.tree(), final(self).pos as int) && final(self).inv() && old(self).pos < final(self).pos,
                Err(e) => failed(for_list_at(old(self)@, old(self).pos as int, d.tree()), e),
            },
        decreases remaining(old(self)@, old(self).pos as int), 31int,
    {
        proof {
            law_for_list(self@, self.pos as int, d.tree());
        }
        let first = match self.parse_bare_declarator(d) {
            Ok(v) => v,
            Err(e) => {
                return Err(e);
            },
        };
        if self.peek_is_punct(",") {
            self.bump();
            let list = match self.parse_declarators(first) {
                Ok(v) => v,
                Err(e) => {
                    return Err(e);
                },
            };
            if !self.peek_is_punct(";") {
                return Err(self.expected(";"));
            }
            self.bump();
            let s = match self.parse_for_tail(Stmt::Var(list, VarKind::Var)) {
                Ok(v) => v,
                Err(e) => {
                    return Err(e);
                },
            };
            return Ok(s);
        }
        if !self.peek_is_punct(";") {
            return Err(self.expected(";"));
        }
        self.bump();
        let s = match self.parse_for_tail(Stmt::Var(first, VarKind::Var)) {
            Ok(v) => v,
            Err(e) => {
                return Err(e);
            },
        };
        return Ok(s);
    }

    fn parse_for_in(&mut self, name: Pattern) -> (r: Result<Stmt, Error>)
        requires
            old(self).inv(),
        ensures
            final(self)@ == old(self)@,
            match r {
                Ok(v) => gives(for_in_at(old(self)@, old(self).pos as int, name.tree()), v.tree(), final(self).pos as int) && final(self).inv() && old(self).pos < final(self).pos,
                Err(e) => failed(for_in_at(old(self)@, old(self).pos as int, name.tree()), e),
            },
        decreases remaining(old(self)@, old(self).pos as int), 30int,
    {
        proof {
            law_for_in(self@, self.pos as int, name.tree());
        }
        let expr = match self.parse_expr() {
            Ok(v) => v,
            Err(e) => {
                return Err(e);
            },
        };
        if !self.peek_is_punct(")") {
            return Err(self.expected(")"));
        }
        self.bump();
        let body = match self.parse_stmt_or_block() {
            Ok(v) => v,
            Err(e) => {
                return Err(e);
            },
        };
        return Ok(Stmt::ForIn { kind: VarKind::Var, name, expr, body });
    }

    fn parse_for_expr(&mut self) -> (r: Result<Stmt, Error>)
        requires
            old(self).inv(),
        ensures
            final(self)@ == old(self)@,
            match r {
                Ok(v) => gives(for_expr_at(old(self)@, old(self).pos as int), v.tree(), final(self).pos as int) && final(self).inv() && old(self).pos < final(self).pos,
                Err(e) => failed(for_expr_at(old(self)@, old(self).pos as int), e),
            },
        decreases remaining(old(self)@, old(self).pos as int), 31int,
    {
        proof {
            law_for_expr(self@, self.pos as int);
        }
        let lhs = match self.parse_expr() {
            Ok(v) => v,
            Err(e) => {
                return Err(e);
            },
        };
        if self.peek_is_kw(Kw::In) {
            self.bump();
            let expr = match self.parse_expr() {
                Ok(v) => v,
                Err(e) => {
                    return Err(e);
                },
            };
            if !self.peek_is_punct(")") {
                return Err(self.expected(")"));
            }
            self.bump();
            let body = match self.parse_stmt_or_block() {
                Ok(v) => v,
                Err(e) => {
                    return Err(e);
                },
            };
            match lhs {
                Expr::Ident(name) => {
                    let pat = Pattern::Ident(name);
                    let ghost _twin = pat.tree();
                    return Ok(Stmt::ForIn { kind: VarKind::Var, name: pat, expr, body });
                },
                _ => {},
            }
            return Err(Error::Parse(owned("for-in target must be an identifier")));
        }
        if !self.peek_is_punct(";") {
            return Err(self.expected(";"));
        }
        self.bump();
        let s = match self.parse_for_tail(Stmt::Expr(lhs)) {
            Ok(v) => v,
            Err(e) => {
                return Err(e);
            },
        };
        return Ok(s);
    }

    fn parse_for_tail(&mut self, init: Stmt) -> (r: Result<Stmt, Error>)
        requires
            old(self).inv(),
        ensures
            final(self)@ == old(self)@,
            match r {
                Ok(v) => gives(for_tail_at(old(self)@, old(self).pos as int, init.tree()), v.tree(), final(self).pos as int) && final(self).inv() && old(self).pos < final(self).pos,
                Err(e) => failed(for_tail_at(old(self)@, old(self).pos as int, init.tree()), e),
            },
        decreases remaining(old(self)@, old(self).pos as int), 30int,
    {
        proof {
            law_for_tail(self@, self.pos as int, init.tree());
        }
        let cond = match self.parse_for_cond() {
            Ok(v) => v,
            Err(e) => {
                return Err(e);
            },
        };
        let update = match self.parse_for_update() {
            Ok(v) => v,
            Err(e) => {
                return Err(e);
            },
        };
        let body = match self.parse_stmt_or_block() {
            Ok(v) => v,
            Err(e) => {
                return Err(e);
            },
        };
        return Ok(Stmt::For { init: Some(Box::new(init)), cond, update, body });
    }

    fn parse_for_cond(&mut self) -> (r: Result<Option<Expr>, Error>)
        requires
            old(self).inv(),
        ensures
            final(self)@ == old(self)@,
            match r {
                Ok(v) => gives(for_cond_at(old(self)@, old(self).pos as int), (match v { Some(v) => Some(v.tree()), None => None }), final(self).pos as int) && final(self).inv() && old(self).pos < final(self).pos,
                Err(e) => failed(for_cond_at(old(self)@, old(self).pos as int), e),
            },
        decreases remaining(old(self)@, old(self).pos as int), 25int,
    {
        proof {
            law_for_cond(self@, self.pos as int);
        }
        if self.peek_is_punct(";") {
            self.bump();
            return Ok(None);
        }
        let e = match self.parse_expr() {
            Ok(v) => v,
            Err(e) => {
                return Err(e);
            },
        };
        if !self.peek_is_punct(";") {
            return Err(self.expected(";"));
        }
        self.bump();
        return Ok(Some(e));
    }

    fn parse_for_update(&mut self) -> (r: Result<Option<Expr>, Error>)
        requires
            old(self).inv(),
        ensures
            final(self)@ == old(self)@,
            match r {
                Ok(v) => gives(for_update_at(old(self)@, old(self).pos as int), (match v { Some(v) => Some(v.tree()), None => None }), final(self).pos as int) && final(self).inv() && old(self).pos < final(self).pos,
                Err(e) => failed(for_update_at(old(self)@, old(self).pos as int), e),
            },
        decreases remaining(old(self)@, old(self).pos as int), 25int,
    {
        proof {
            law_for_update(self@, self.pos as int);
        }
        if self.peek_is_punct(")") {
            self.bump();
            return Ok(None);
        }
        let e = match self.parse_expr() {
            Ok(v) => v,
            Err(e) => {
                return Err(e);
            },
        };
        if !self.peek_is_punct(")") {
            return Err(self.expected(")"));
        }
        self.bump();
        return Ok(Some(e));
    }

    fn parse_cases(&mut self, first: Vec<SwitchCase>) -> (r: Result<Vec<SwitchCase>, Error>)
        requires
            old(self).inv(),
        ensures
            final(self)@ == old(self)@,
            match r {
                Ok(v) => gives(cases_at(old(self)@, old(self).pos as int, switch_case_trees(first)), switch_case_trees(v), final(self).pos as int) && final(self).inv() && old(self).pos <= final(self).pos,
                Err(e) => failed(cases_at(old(self)@, old(self).pos as int, switch_case_trees(first)), e),
            },
        decreases remaining(old(self)@, old(self).pos as int), 31int,
    {
        let mut list = first;
        let ghost ts = self@;
        let ghost want = cases_at(ts, self.pos as int, switch_case_trees(list));
        loop
            invariant
                self.inv(),
                self@ == ts,
                ts == old(self)@,
                old(self).pos <= self.pos,
                same(want, cases_at(old(self)@, old(self).pos as int, switch_case_trees(first))),
                same(want, cases_at(ts, self.pos as int, switch_case_trees(list))),
            decreases remaining(ts, self.pos as int),
        {
            proof {
                law_cases(self@, self.pos as int, switch_case_trees(list));
            }
            if self.peek_is_punct("}") || self.at_end() {
                return Ok(list);
            }
            if self.peek_is_kw(Kw::Case) {
                self.bump();
                let e = match self.parse_expr() {
                    Ok(v) => v,
                    Err(e) => {
                        return Err(e);
                    },
                };
                if !self.peek_is_punct(":") {
                    return Err(self.expected(":"));
                }
                self.bump();
                let none: Vec<Stmt> = Vec::new();
                assert(stmt_trees(none) =~= Seq::empty());
                let body = match self.parse_case_body(none) {
                    Ok(v) => v,
                    Err(e) => {
                        return Err(e);
                    },
                };
                let item = SwitchCase { test: Some(e), body };
                let ghost tree = item.tree();
                let ghost before = switch_case_trees(list);
                list.push(item);
                assert(switch_case_trees(list) =~= before.push(tree));
                continue;
            }
            if self.peek_is_kw(Kw::Default) {
                self.bump();
                if !self.peek_is_punct(":") {
                    return Err(self.expected(":"));
                }
                self.bump();
                let none: Vec<Stmt> = Vec::new();
                assert(stmt_trees(none) =~= Seq::empty());
                let body = match self.parse_case_body(none) {
                    Ok(v) => v,
                    Err(e) => {
                        return Err(e);
                    },
                };
                let item = SwitchCase { test: None, body };
                let ghost tree = item.tree();
                let ghost before = switch_case_trees(list);
                list.push(item);
                assert(switch_case_trees(list) =~= before.push(tree));
                continue;
            }
            return Err(Error::Parse(owned("unexpected token in switch")));
        }
    }

    fn parse_case_body(&mut self, first: Vec<Stmt>) -> (r: Result<Vec<Stmt>, Error>)
        requires
            old(self).inv(),
        ensures
            final(self)@ == old(self)@,
            match r {
                Ok(v) => gives(case_body_at(old(self)@, old(self).pos as int, stmt_trees(first)), stmt_trees(v), final(self).pos as int) && final(self).inv() && old(self).pos <= final(self).pos,
                Err(e) => failed(case_body_at(old(self)@, old(self).pos as int, stmt_trees(first)), e),
            },
        decreases remaining(old(self)@, old(self).pos as int), 30int,
    {
        let mut list = first;
        let ghost ts = self@;
        let ghost want = case_body_at(ts, self.pos as int, stmt_trees(list));
        loop
            invariant
                self.inv(),
                self@ == ts,
                ts == old(self)@,
                old(self).pos <= self.pos,
                same(want, case_body_at(old(self)@, old(self).pos as int, stmt_trees(first))),
                same(want, case_body_at(ts, self.pos as int, stmt_trees(list))),
            decreases remaining(ts, self.pos as int),
        {
            proof {
                law_case_body(self@, self.pos as int, stmt_trees(list));
            }
            if self.at_end() || self.peek_is_punct("}") || self.peek_is_kw(Kw::Case) || self.peek_is_kw(Kw::Default) {
                return Ok(list);
            }
            let s = match self.parse_stmt() {
                Ok(v) => v,
                Err(e) => {
                    return Err(e);
                },
            };
            let item = s;
            let ghost tree = item.tree();
            let ghost before = stmt_trees(list);
            list.push(item);
            assert(stmt_trees(list) =~= before.push(tree));
            continue;
        }
    }

    fn parse_switch(&mut self) -> (r: Result<Stmt, Error>)
        requires
            old(self).inv(),
        ensures
            final(self)@ == old(self)@,
            match r {
                Ok(v) => gives(switch_at(old(self)@, old(self).pos as int), v.tree(), final(self).pos as int) && final(self).inv() && old(self).pos < final(self).pos,
                Err(e) => failed(switch_at(old(self)@, old(self).pos as int), e),
            },
        decreases remaining(old(self)@, old(self).pos as int), 29int,
    {
        proof {
            law_switch(self@, self.pos as int);
        }
        if !self.peek_is_punct("(") {
            return Err(self.expected("("));
        }
        self.bump();
        let discriminant = match self.parse_expr() {
            Ok(v) => v,
            Err(e) => {
                return Err(e);
            },
        };
        if !self.peek_is_punct(")") {
            return Err(self.expected(")"));
        }
        self.bump();
        if !self.peek_is_punct("{") {
            return Err(self.expected("{"));
        }
        self.bump();
        let none: Vec<SwitchCase> = Vec::new();
        assert(switch_case_trees(none) =~= Seq::empty());
        let cases = match self.parse_cases(none) {
            Ok(v) => v,
            Err(e) => {
                return Err(e);
            },
        };
        if !self.peek_is_punct("}") {
            return Err(self.expected("}"));
        }
        self.bump();
        return Ok(Stmt::Switch { discriminant, cases });
    }

    fn parse_catch_part(&mut self) -> (r: Result<Option<CatchClause>, Error>)
        requires
            old(self).inv(),
        ensures
            final(self)@ == old(self)@,
            match r {
                Ok(v) => gives(catch_part_at(old(self)@, old(self).pos as int), (match v { Some(v) => Some(v.tree()), None => None }), final(self).pos as int) && final(self).inv() && old(self).pos <= final(self).pos,
                Err(e) => failed(catch_part_at(old(self)@, old(self).pos as int), e),
            },
        decreases remaining(old(self)@, old(self).pos as int), 28int,
    {
        proof {
            law_catch_part(self@, self.pos as int);
        }
        if self.peek_is_kw(Kw::Catch) {
            self.bump();
            if !self.peek_is_punct("(") {
                return Err(self.expected("("));
            }
            self.bump();
            let name = match self.expect_ident() {
                Ok(v) => v,
                Err(e) => {
                    return Err(e);
                },
            };
            if !self.peek_is_punct(")") {
                return Err(self.expected(")"));
            }
            self.bump();
            let body = match self.parse_block_stmts() {
                Ok(v) => v,
                Err(e) => {
                    return Err(e);
                },
            };
            return Ok(Some(CatchClause { name, body }));
        }
        return Ok(None);
    }

    fn parse_finally_part(&mut self) -> (r: Result<Option<Vec<Stmt>>, Error>)
        requires
            old(self).inv(),
        ensures
            final(self)@ == old(self)@,
            match r {
                Ok(v) => gives(finally_part_at(old(self)@, old(self).pos as int), (match v { Some(v) => Some(stmt_trees(v)), None => None }), final(self).pos as int) && final(self).inv() && old(self).pos <= final(self).pos,
                Err(e) => failed(finally_part_at(old(self)@, old(self).pos as int), e),
            },
        decreases remaining(old(self)@, old(self).pos as int), 28int,
    {
        proof {
            law_finally_part(self@, self.pos as int);
        }
        if self.peek_is_kw(Kw::Finally) {
            self.bump();
            let list = match self.parse_block_stmts() {
                Ok(v) => v,
                Err(e) => {
                    return Err(e);
                },
            };
            return Ok(Some(list));
        }
        return Ok(None);
    }

    fn parse_try(&mut self) -> (r: Result<Stmt, Error>)
        requires
            old(self).inv(),
        ensures
            final(self)@ == old(self)@,
            match r {
                Ok(v) => gives(try_at(old(self)@, old(self).pos as int), v.tree(), final(self).pos as int) && final(self).inv() && old(self).pos < final(self).pos,
                Err(e) => failed(try_at(old(self)@, old(self).pos as int), e),
            },
        decreases remaining(old(self)@, old(self).pos as int), 29int,
    {
        proof {
            law_try(self@, self.pos as int);
        }
        let try_block = match self.parse_block_stmts() {
            Ok(v) => v,
            Err(e) => {
                return Err(e);
            },
        };
        let catch = match self.parse_catch_part() {
            Ok(v) => v,
            Err(e) => {
                return Err(e);
            },
        };
        let finally = match self.parse_finally_part() {
            Ok(v) => v,
            Err(e) => {
                return Err(e);
            },
        };
        return Ok(Stmt::Try { try_block, catch, finally });
    }

    fn parse_expr(&mut self) -> (r: Result<Expr, Error>)
        requires
            old(self).inv(),
        ensures
            final(self)@ == old(self)@,
            match r {
                Ok(v) => gives(expr_at(old(self)@, old(self).pos as int), v.tree(), final(self).pos as int) && final(self).inv() && old(self).pos < final(self).pos,
                Err(e) => failed(expr_at(old(self)@, old(self).pos as int), e),
            },
        decreases remaining(old(self)@, old(self).pos as int), 24int,
    {
        proof {
            law_expr(self@, self.pos as int);
        }
        let e = match self.parse_assignment() {
            Ok(v) => v,
            Err(e) => {
                return Err(e);
            },
        };
        return Ok(e);
    }

    fn parse_assignment(&mut self) -> (r: Result<Expr, Error>)
        requires
            old(self).inv(),
        ensures
            final(self)@ == old(self)@,
            match r {
                Ok(v) => gives(assignment_at(old(self)@, old(self).pos as int), v.tree(), final(self).pos as int) && final(self).inv() && old(self).pos < final(self).pos,
                Err(e) => failed(assignment_at(old(self)@, old(self).pos as int), e),
            },
        decreases remaining(old(self)@, old(self).pos as int), 23int,
    {
        proof {
            law_assignment(self@, self.pos as int);
        }
        let at = self.pos;
        let lhs = match self.parse_ternary() {
            Ok(v) => v,
            Err(e) => {
                return Err(e);
            },
        };
        if self.peek_is_punct("=") {
            self.bump();
            let v = match self.parse_assignment() {
                Ok(v) => v,
                Err(e) => {
                    return Err(e);
                },
            };
            let target = AssignTarget::Expr(Box::new(lhs));
            let ghost _twin = target.tree();
            return Ok(Expr::Assignment { target, value: Box::new(v) });
        }
        match self.assign_op() {
            Some(op) => {
                self.bump();
                let v = match self.parse_assignment() {
                    Ok(v) => v,
                    Err(e) => {
                        return Err(e);
                    },
                };
                let here = self.pos;
                self.pos = at;
                let left = match self.parse_ternary() {
                    Ok(v) => v,
                    Err(e) => {
                        return Err(e);
                    },
                };
                self.pos = here;
                let target = AssignTarget::Expr(Box::new(lhs));
                let ghost _twin = target.tree();
                let value = Expr::Binary { op, left: Box::new(left), right: Box::new(v) };
                let ghost _twin = value.tree();
                return Ok(Expr::Assignment { target, value: Box::new(value) });
            },
            None => {},
        }
        return Ok(lhs);
    }

    fn parse_ternary(&mut self) -> (r: Result<Expr, Error>)
        requires
            old(self).inv(),
        ensures
            final(self)@ == old(self)@,
            match r {
                Ok(v) => gives(ternary_at(old(self)@, old(self).pos as int), v.tree(), final(self).pos as int) && final(self).inv() && old(self).pos < final(self).pos,
                Err(e) => failed(ternary_at(old(self)@, old(self).pos as int), e),
            },
        decreases remaining(old(self)@, old(self).pos as int), 22int,
    {
        proof {
            law_ternary(self@, self.pos as int);
        }
        let cond = match self.parse_logical() {
            Ok(v) => v,
            Err(e) => {
                return Err(e);
            },
        };
        if self.peek_is_punct("?") {
            self.bump();
            let yes = match self.parse_assignment() {
                Ok(v) => v,
                Err(e) => {
                    return Err(e);
                },
            };
            if !self.peek_is_punct(":") {
                return Err(self.expected(":"));
            }
            self.bump();
            let no = match self.parse_assignment() {
                Ok(v) => v,
                Err(e) => {
                    return Err(e);
                },
            };
            return Ok(Expr::Ternary { cond: Box::new(cond), yes: Box::new(yes), no: Box::new(no) });
        }
        return Ok(cond);
    }

    fn parse_logical_rest(&mut self, first: Expr) -> (r: Result<Expr, Error>)
        requires
            old(self).inv(),
        ensures
            final(self)@ == old(self)@,
            match r {
                Ok(v) => gives(logical_rest_at(old(self)@, old(self).pos as int, first.tree()), v.tree(), final(self).pos as int) && final(self).inv() && old(self).pos <= final(self).pos,
                Err(e) => failed(logical_rest_at(old(self)@, old(self).pos as int, first.tree()), e),
            },
        decreases remaining(old(self)@, old(self).pos as int), 20int,
    {
        let mut left = first;
        let ghost ts = self@;
        let ghost want = logical_rest_at(ts, self.pos as int, left.tree());
        loop
            invariant
                self.inv(),
                self@ == ts,
                ts == old(self)@,
                old(self).pos <= self.pos,
                same(want, logical_rest_at(old(self)@, old(self).pos as int, first.tree())),
                same(want, logical_rest_at(ts, self.pos as int, left.tree())),
            decreases remaining(ts, self.pos as int),
        {
            proof {
                law_logical_rest(self@, self.pos as int, left.tree());
            }
            match self.logical_op() {
                Some(op) => {
                    self.bump();
                    let right = match self.parse_equality() {
                        Ok(v) => v,
                        Err(e) => {
                            return Err(e);
                        },
                    };
                    left = Expr::Logical { op, left: Box::new(left), right: Box::new(right) };
                    continue;
                },
                None => {},
            }
            return Ok(left);
        }
    }

    fn parse_logical(&mut self) -> (r: Result<Expr, Error>)
        requires
            old(self).inv(),
        ensures
            final(self)@ == old(self)@,
            match r {
                Ok(v) => gives(logical_at(old(self)@, old(self).pos as int), v.tree(), final(self).pos as int) && final(self).inv() && old(self).pos < final(self).pos,
                Err(e) => failed(logical_at(old(self)@, old(self).pos as int), e),
            },
        decreases remaining(old(self)@, old(self).pos as int), 21int,
    {
        proof {
            law_logical(self@, self.pos as int);
        }
        let first = match self.parse_equality() {
            Ok(v) => v,
            Err(e) => {
                return Err(e);
            },
        };
        let e = match self.parse_logical_rest(first) {
            Ok(v) => v,
            Err(e) => {
                return Err(e);
            },
        };
        return Ok(e);
    }

    fn parse_equality_rest(&mut self, first: Expr) -> (r: Result<Expr, Error>)
        requires
            old(self).inv(),
        ensures
            final(self)@ == old(self)@,
            match r {
                Ok(v) => gives(equality_rest_at(old(self)@, old(self).pos as int, first.tree()), v.tree(), final(self).pos as int) && final(self).inv() && old(self).pos <= final(self).pos,
                Err(e) => failed(equality_rest_at(old(self)@, old(self).pos as int, first.tree()), e),
            },
        decreases remaining(old(self)@, old(self).pos as int), 18int,
    {
        let mut left = first;
        let ghost ts = self@;
        let ghost want = equality_rest_at(ts, self.pos as int, left.tree());
        loop
            invariant
                self.inv(),
                self@ == ts,
                ts == old(self)@,
                old(self).pos <= self.pos,
                same(want, equality_rest_at(old(self)@, old(self).pos as int, first.tree())),
                same(want, equality_rest_at(ts, self.pos as int, left.tree())),
            decreases remaining(ts, self.pos as int),
        {
            proof {
                law_equality_rest(self@, self.pos as int, left.tree());
            }
            match self.equality_op() {
                Some(op) => {
                    self.bump();
                    let right = match self.parse_relational() {
                        Ok(v) => v,
                        Err(e) => {
                            return Err(e);
                        },
                    };
                    left = Expr::Binary { op, left: Box::new(left), right: Box::new(right) };
                    continue;
                },
                None => {},
            }
            return Ok(left);
        }
    }

    fn parse_equality(&mut self) -> (r: Result<Expr, Error>)
        requires
            old(self).inv(),
        ensures
            final(self)@ == old(self)@,
            match r {
                Ok(v) => gives(equality_at(old(self)@, old(self).pos as int), v.tree(), final(self).pos as int) && final(self).inv() && old(self).pos < final(self).pos,
                Err(e) => failed(equality_at(old(self)@, old(self).pos as int), e),
            },
        decreases remaining(old(self)@, old(self).pos as int), 19int,
    {
        proof {
            law_equality(self@, self.pos as int);
        }
        let first = match self.parse_relational() {
            Ok(v) => v,
            Err(e) => {
                return Err(e);
            },
        };
        let e = match self.parse_equality_rest(first) {
            Ok(v) => v,
            Err(e) => {
                return Err(e);
            },
        };
        return Ok(e);
    }

    fn parse_relational_rest(&mut self, first: Expr) -> (r: Result<Expr, Error>)
        requires
            old(self).inv(),
        ensures
            final(self)@ == old(self)@,
            match r {
                Ok(v) => gives(relational_rest_at(old(self)@, old(self).pos as int, first.tree()), v.tree(), final(self).pos as int) && final(self).inv() && old(self).pos <= final(self).pos,
                Err(e) => failed(relational_rest_at(old(self)@, old(self).pos as int, first.tree()), e),
            },
        decreases remaining(old(self)@, old(self).pos as int), 16int,
    {
        let mut left = first;
        let ghost ts = self@;
        let ghost want = relational_rest_at(ts, self.pos as int, left.tree());
        loop
            invariant
                self.inv(),
                self@ == ts,
                ts == old(self)@,
                old(self).pos <= self.pos,
                same(want, relational_rest_at(old(self)@, old(self).pos as int, first.tree())),
                same(want, relational_rest_at(ts, self.pos as int, left.tree())),
            decreases remaining(ts, self.pos as int),
        {
            proof {
                law_relational_rest(self@, self.pos as int, left.tree());
            }
            if self.peek_is_kw(Kw::Instanceof) {
                self.bump();
                let right = match self.parse_additive() {
                    Ok(v) => v,
                    Err(e) => {
                        return Err(e);
                    },
                };
                left = Expr::InstanceOf { left: Box::new(left), right: Box::new(right) };
                continue;
            }
            match self.relational_op() {
                Some(op) => {
                    self.bump();
                    let right = match self.parse_additive() {
                        Ok(v) => v,
                        Err(e) => {
                            return Err(e);
                        },
                    };
                    left = Expr::Binary { op, left: Box::new(left), right: Box::new(right) };
                    continue;
                },
                None => {},
            }
            return Ok(left);
        }
    }

    fn parse_relational(&mut self) -> (r: Result<Expr, Error>)
        requires
            old(self).inv(),
        ensures
            final(self)@ == old(self)@,
            match r {
                Ok(v) => gives(relational_at(old(self)@, old(self).pos as int), v.tree(), final(self).pos as int) && final(self).inv() && old(self).pos < final(self).pos,
                Err(e) => failed(relational_at(old(self)@, old(self).pos as int), e),
            },
        decreases remaining(old(self)@, old(self).pos as int), 17int,
    {
        proof {
            law_relational(self@, self.pos as int);
        }
        let first = match self.parse_additive() {
            Ok(v) => v,
            Err(e) => {
                return Err(e);
            },
        };
        let e = match self.parse_relational_rest(first) {
            Ok(v) => v,
            Err(e) => {
                return Err(e);
            },
        };
        return Ok(e);
    }

    fn parse_additive_rest(&mut self, first: Expr) -> (r: Result<Expr, Error>)
        requires
            old(self).inv(),
        ensures
            final(self)@ == old(self)@,
            match r {
                Ok(v) => gives(additive_rest_at(old(self)@, old(self).pos as int, first.tree()), v.tree(), final(self).pos as int) && final(self).inv() && old(self).pos <= final(self).pos,
                Err(e) => failed(additive_rest_at(old(self)@, old(self).pos as int, first.tree()), e),
            },
        decreases remaining(old(self)@, old(self).pos as int), 14int,
    {
        let mut left = first;
        let ghost ts = self@;
        let ghost want = additive_rest_at(ts, self.pos as int, left.tree());
        loop
            invariant
                self.inv(),
                self@ == ts,
                ts == old(self)@,
                old(self).pos <= self.pos,
                same(want, additive_rest_at(old(self)@, old(self).pos as int, first.tree())),
                same(want, additive_rest_at(ts, self.pos as int, left.tree())),
            decreases remaining(ts, self.pos as int),
        {
            proof {
                law_additive_rest(self@, self.pos as int, left.tree());
            }
            match self.additive_op() {
                Some(op) => {
                    self.bump();
                    let right = match self.parse_multiplicative() {
                        Ok(v) => v,
                        Err(e) => {
                            return Err(e);
                        },
                    };
                    left = Expr::Binary { op, left: Box::new(left), right: Box::new(right) };
                    continue;
                },
                None => {},
            }
            return Ok(left);
        }
    }

    fn parse_additive(&mut self) -> (r: Result<Expr, Error>)
        requires
            old(self).inv(),
        ensures
            final(self)@ == old(self)@,
            match r {
                Ok(v) => gives(additive_at(old(self)@, old(self).pos as int), v.tree(), final(self).pos as int) && final(self).inv() && old(self).pos < final(self).pos,
                Err(e) => failed(additive_at(old(self)@, old(self).pos as int), e),
            },
        decreases remaining(old(self)@, old(self).pos as int), 15int,
    {
        proof {
            law_additive(self@, self.pos as int);
        }
        let first = match self.parse_multiplicative() {
            Ok(v) => v,
            Err(e) => {
                return Err(e);
            },
        };
        let e = match self.parse_additive_rest(first) {
            Ok(v) => v,
            Err(e) => {
                return Err(e);
            },
        };
        return Ok(e);
    }

    fn parse_multiplicative_rest(&mut self, first: Expr) -> (r: Result<Expr, Error>)
        requires
            old(self).inv(),
        ensures
            final(self)@ == old(self)@,
            match r {
                Ok(v) => gives(multiplicative_rest_at(old(self)@, old(self).pos as int, first.tree()), v.tree(), final(self).pos as int) && final(self).inv() && old(self).pos <= final(self).pos,
                Err(e) => failed(multiplicative_rest_at(old(self)@, old(self).pos as int, first.tree()), e),
            },
        decreases remaining(old(self)@, old(self).pos as int), 12int,
    {
        let mut left = first;
        let ghost ts = self@;
        let ghost want = multiplicative_rest_at(ts, self.pos as int, left.tree());
        loop
            invariant
                self.inv(),
                self@ == ts,
                ts == old(self)@,
                old(self).pos <= self.pos,
                same(want, multiplicative_rest_at(old(self)@, old(self).pos as int, first.tree())),
                same(want, multiplicative_rest_at(ts, self.pos as int, left.tree())),
            decreases remaining(ts, self.pos as int),
        {
            proof {
                law_multiplicative_rest(self@, self.pos as int, left.tree());
            }
            match self.multiplicative_op() {
                Some(op) => {
                    self.bump();
                    let right = match self.parse_unary() {
                        Ok(v) => v,
                        Err(e) => {
                            return Err(e);
                        },
                    };
                    left = Expr::Binary { op, left: Box::new(left), right: Box::new(right) };
                    continue;
                },
                None => {},
            }
            return Ok(left);
        }
    }

    fn parse_multiplicative(&mut self) -> (r: Result<Expr, Error>)
        requires
            old(self).inv(),
        ensures
            final(self)@ == old(self)@,
            match r {
                Ok(v) => gives(multiplicative_at(old(self)@, old(self).pos as int), v.tree(), final(self).pos as int) && final(self).inv() && old(self).pos < final(self).pos,
                Err(e) => failed(multiplicative_at(old(self)@, old(self).pos as int), e),
            },
        decreases remaining(old(self)@, old(self).pos as int), 13int,
    {
        proof {
            law_multiplicative(self@, self.pos as int);
        }
        let first = match self.parse_unary() {
            Ok(v) => v,
            Err(e) => {
                return Err(e);
            },
        };
        let e = match self.parse_multiplicative_rest(first) {
            Ok(v) => v,
            Err(e) => {
                return Err(e);
            },
        };
        return Ok(e);
    }

    fn parse_unary(&mut self) -> (r: Result<Expr, Error>)
        requires
            old(self).inv(),
        ensures
            final(self)@ == old(self)@,
            match r {
                Ok(v) => gives(unary_at(old(self)@, old(self).pos as int), v.tree(), final(self).pos as int) && final(self).inv() && old(self).pos < final(self).pos,
                Err(e) => failed(unary_at(old(self)@, old(self).pos as int), e),
            },
        decreases remaining(old(self)@, old(self).pos as int), 11int,
    {
        proof {
            law_unary(self@, self.pos as int);
        }
        match self.prefix_op() {
            Some(op) => {
                self.bump();
                let operand = match self.parse_unary() {
                    Ok(v) => v,
                    Err(e) => {
                        return Err(e);
                    },
                };
                return Ok(Expr::Unary { op, operand: Box::new(operand) });
            },
            None => {},
        }
        let e = match self.parse_postfix() {
            Ok(v) => v,
            Err(e) => {
                return Err(e);
            },
        };
        return Ok(e);
    }

    fn parse_postfix_rest(&mut self, first: Expr) -> (r: Result<Expr, Error>)
        requires
            old(self).inv(),
        ensures
            final(self)@ == old(self)@,
            match r {
                Ok(v) => gives(postfix_rest_at(old(self)@, old(self).pos as int, first.tree()), v.tree(), final(self).pos as int) && final(self).inv() && old(self).pos <= final(self).pos,
                Err(e) => failed(postfix_rest_at(old(self)@, old(self).pos as int, first.tree()), e),
            },
        decreases remaining(old(self)@, old(self).pos as int), 9int,
    {
        let mut node = first;
        let ghost ts = self@;
        let ghost want = postfix_rest_at(ts, self.pos as int, node.tree());
        loop
            invariant
                self.inv(),
                self@ == ts,
                ts == old(self)@,
                old(self).pos <= self.pos,
                same(want, postfix_rest_at(old(self)@, old(self).pos as int, first.tree())),
                same(want, postfix_rest_at(ts, self.pos as int, node.tree())),
            decreases remaining(ts, self.pos as int),
        {
            proof {
                law_postfix_rest(self@, self.pos as int, node.tree());
            }
            if self.peek_is_punct(".") {
                self.bump();
                let prop = match self.expect_ident() {
                    Ok(v) => v,
                    Err(e) => {
                        return Err(e);
                    },
                };
                node = Expr::Member { obj: Box::new(node), prop, computed: None, optional: false };
                continue;
            }
            if self.peek_is_punct("[") {
                self.bump();
                let e = match self.parse_index(node) {
                    Ok(v) => v,
                    Err(e) => {
                        return Err(e);
                    },
                };
                node = e;
                continue;
            }
            if self.peek_is_punct("(") {
                self.bump();
                let e = match self.parse_call(node) {
                    Ok(v) => v,
                    Err(e) => {
                        return Err(e);
                    },
                };
                node = e;
                continue;
            }
            match self.postfix_op() {
                Some(op) => {
                    self.bump();
                    node = Expr::Unary { op, operand: Box::new(node) };
                    continue;
                },
                None => {},
            }
            return Ok(node);
        }
    }

    fn parse_index(&mut self, obj: Expr) -> (r: Result<Expr, Error>)
        requires
            old(self).inv(),
        ensures
            final(self)@ == old(self)@,
            match r {
                Ok(v) => gives(index_at(old(self)@, old(self).pos as int, obj.tree()), v.tree(), final(self).pos as int) && final(self).inv() && old(self).pos < final(self).pos,
                Err(e) => failed(index_at(old(self)@, old(self).pos as int, obj.tree()), e),
            },
        decreases remaining(old(self)@, old(self).pos as int), 29int,
    {
        proof {
            law_index(self@, self.pos as int, obj.tree());
        }
        let index = match self.parse_expr() {
            Ok(v) => v,
            Err(e) => {
                return Err(e);
            },
        };
        if !self.peek_is_punct("]") {
            return Err(self.expected("]"));
        }
        self.bump();
        return Ok(Expr::Member { obj: Box::new(obj), prop: owned(""), computed: Some(Box::new(index)), optional: false });
    }

    fn parse_call(&mut self, callee: Expr) -> (r: Result<Expr, Error>)
        requires
            old(self).inv(),
        ensures
            final(self)@ == old(self)@,
            match r {
                Ok(v) => gives(call_at(old(self)@, old(self).pos as int, callee.tree()), v.tree(), final(self).pos as int) && final(self).inv() && old(self).pos < final(self).pos,
                Err(e) => failed(call_at(old(self)@, old(self).pos as int, callee.tree()), e),
            },
        decreases remaining(old(self)@, old(self).pos as int), 30int,
    {
        proof {
            law_call(self@, self.pos as int, callee.tree());
        }
        let args = match self.parse_args() {
            Ok(v) => v,
            Err(e) => {
                return Err(e);
            },
        };
        return Ok(Expr::Call { callee: Box::new(callee), args, optional: false });
    }

    fn parse_postfix(&mut self) -> (r: Result<Expr, Error>)
        requires
            old(self).inv(),
        ensures
            final(self)@ == old(self)@,
            match r {
                Ok(v) => gives(postfix_at(old(self)@, old(self).pos as int), v.tree(), final(self).pos as int) && final(self).inv() && old(self).pos < final(self).pos,
                Err(e) => failed(postfix_at(old(self)@, old(self).pos as int), e),
            },
        decreases remaining(old(self)@, old(self).pos as int), 10int,
    {
        proof {
            law_postfix(self@, self.pos as int);
        }
        let first = match self.parse_primary() {
            Ok(v) => v,
            Err(e) => {
                return Err(e);
            },
        };
        let e = match self.parse_postfix_rest(first) {
            Ok(v) => v,
            Err(e) => {
                return Err(e);
            },
        };
        return Ok(e);
    }

    fn parse_arg_list(&mut self, first: Vec<Arg>) -> (r: Result<Vec<Arg>, Error>)
        requires
            old(self).inv(),
        ensures
            final(self)@ == old(self)@,
            match r {
                Ok(v) => gives(arg_list_at(old(self)@, old(self).pos as int, arg_trees(first)), arg_trees(v), final(self).pos as int) && final(self).inv() && old(self).pos <= final(self).pos,
                Err(e) => failed(arg_list_at(old(self)@, old(self).pos as int, arg_trees(first)), e),
            },
        decreases remaining(old(self)@, old(self).pos as int), 28int,
    {
        let mut list = first;
        let ghost ts = self@;
        let ghost want = arg_list_at(ts, self.pos as int, arg_trees(list));
        loop
            invariant
                self.inv(),
                self@ == ts,
                ts == old(self)@,
                old(self).pos <= self.pos,
                same(want, arg_list_at(old(self)@, old(self).pos as int, arg_trees(first))),
                same(want, arg_list_at(ts, self.pos as int, arg_trees(list))),
            decreases remaining(ts, self.pos as int),
        {
            proof {
                law_arg_list(self@, self.pos as int, arg_trees(list));
            }
            let e = match self.parse_expr() {
                Ok(v) => v,
                Err(e) => {
                    return Err(e);
                },
            };
            if self.peek_is_punct(",") {
                self.bump();
                let item = Arg::Expr(e);
                let ghost tree = item.tree();
                let ghost before = arg_trees(list);
                list.push(item);
                assert(arg_trees(list) =~= before.push(tree));
                continue;
            }
            let item = Arg::Expr(e);
            let ghost tree = item.tree();
            let ghost before = arg_trees(list);
            list.push(item);
            assert(arg_trees(list) =~= before.push(tree));
            return Ok(list);
        }
    }

    fn parse_args(&mut self) -> (r: Result<Vec<Arg>, Error>)
        requires
            old(self).inv(),
        ensures
            final(self)@ == old(self)@,
            match r {
                Ok(v) => gives(args_at(old(self)@, old(self).pos as int), arg_trees(v), final(self).pos as int) && final(self).inv() && old(self).pos < final(self).pos,
                Err(e) => failed(args_at(old(self)@, old(self).pos as int), e),
            },
        decreases remaining(old(self)@, old(self).pos as int), 29int,
    {
        proof {
            law_args(self@, self.pos as int);
        }
        if self.peek_is_punct(")") {
            self.bump();
            let none: Vec<Arg> = Vec::new();
            assert(arg_trees(none) =~= Seq::empty());
            return Ok(none);
        }
        let none: Vec<Arg> = Vec::new();
        assert(arg_trees(none) =~= Seq::empty());
        let list = match self.parse_arg_list(none) {
            Ok(v) => v,
            Err(e) => {
                return Err(e);
            },
        };
        if !self.peek_is_punct(")") {
            return Err(self.expected(")"));
        }
        self.bump();
        return Ok(list);
    }

    #[verifier::rlimit(40)]
    fn parse_primary(&mut self) -> (r: Result<Expr, Error>)
        requires
            old(self).inv(),
        ensures
            final(self)@ == old(self)@,
            match r {
                Ok(v) => gives(primary_at(old(self)@, old(self).pos as int), v.tree(), final(self).pos as int) && final(self).inv() && old(self).pos < final(self).pos,
                Err(e) => failed(primary_at(old(self)@, old(self).pos as int), e),
            },
        decreases remaining(old(self)@, old(self).pos as int), 9int,
    {
        proof {
            law_primary(self@, self.pos as int);
        }
        if self.peek_is(TokenKind::Number) {
            let t = self.number();
            self.bump();
            return Ok(Expr::Lit(Lit::Number(t)));
        }
        if self.peek_is(TokenKind::Str) {
            let t = self.text();
            self.bump();
            return Ok(Expr::Lit(Lit::Str(t)));
        }
        if self.peek_is_kw(Kw::True) {
            self.bump();
            return Ok(Expr::Lit(Lit::Bool(true)));
        }
        if self.peek_is_kw(Kw::False) {
            self.bump();
            return Ok(Expr::Lit(Lit::Bool(false)));
        }
        if self.peek_is_kw(Kw::Undefined) {
            self.bump();
            return Ok(Expr::Lit(Lit::Undefined));
        }
        if self.peek_is_kw(Kw::Null) {
            self.bump();
            return Ok(Expr::Lit(Lit::Null));
        }
        if self.peek_is_kw(Kw::This) {
            self.bump();
            return Ok(Expr::This);
        }
        if self.peek_is_kw(Kw::Function) {
            self.bump();
            let e = match self.parse_function_expr() {
                Ok(v) => v,
                Err(e) => {
                    return Err(e);
                },
            };
            return Ok(e);
        }
        if self.peek_is_kw(Kw::New) {
            self.bump();
            let e = match self.parse_new_rest() {
                Ok(v) => v,
                Err(e) => {
                    return Err(e);
                },
            };
            return Ok(e);
        }
        if self.peek_is(TokenKind::Ident) {
            let t = self.text();
            self.bump();
            return Ok(Expr::Ident(t));
        }
        if self.peek_is_punct("(") {
            self.bump();
            let e = match self.parse_expr() {
                Ok(v) => v,
                Err(e) => {
                    return Err(e);
                },
            };
            if !self.peek_is_punct(")") {
                return Err(self.expected(")"));
            }
            self.bump();
            return Ok(e);
        }
        if self.peek_is_punct("[") {
            self.bump();
            let e = match self.parse_array() {
                Ok(v) => v,
                Err(e) => {
                    return Err(e);
                },
            };
            return Ok(e);
        }
        if self.peek_is_punct("{") {
            self.bump();
            let e = match self.parse_object() {
                Ok(v) => v,
                Err(e) => {
                    return Err(e);
                },
            };
            return Ok(e);
        }
        return Err(self.unexpected());
    }

    fn parse_function_expr(&mut self) -> (r: Result<Expr, Error>)
        requires
            old(self).inv(),
        ensures
            final(self)@ == old(self)@,
            match r {
                Ok(v) => gives(function_expr_at(old(self)@, old(self).pos as int), v.tree(), final(self).pos as int) && final(self).inv() && old(self).pos < final(self).pos,
                Err(e) => failed(function_expr_at(old(self)@, old(self).pos as int), e),
            },
        decreases remaining(old(self)@, old(self).pos as int), 9int,
    {
        proof {
            law_function_expr(self@, self.pos as int);
        }
        if self.peek_is(TokenKind::Ident) {
            self.bump();
            let params = match self.parse_params() {
                Ok(v) => v,
                Err(e) => {
                    return Err(e);
                },
            };
            let body = match self.parse_block_stmts() {
                Ok(v) => v,
                Err(e) => {
                    return Err(e);
                },
            };
            return Ok(Expr::Function { name: None, params, body });
        }
        let params = match self.parse_params() {
            Ok(v) => v,
            Err(e) => {
                return Err(e);
            },
        };
        let body = match self.parse_block_stmts() {
            Ok(v) => v,
            Err(e) => {
                return Err(e);
            },
        };
        return Ok(Expr::Function { name: None, params, body });
    }

    fn parse_new_args(&mut self) -> (r: Result<Vec<Arg>, Error>)
        requires
            old(self).inv(),
        ensures
            final(self)@ == old(self)@,
            match r {
                Ok(v) => gives(new_args_at(old(self)@, old(self).pos as int), arg_trees(v), final(self).pos as int) && final(self).inv() && old(self).pos <= final(self).pos,
                Err(e) => failed(new_args_at(old(self)@, old(self).pos as int), e),
            },
        decreases remaining(old(self)@, old(self).pos as int), 8int,
    {
        proof {
            law_new_args(self@, self.pos as int);
        }
        if self.peek_is_punct("(") {
            self.bump();
            let list = match self.parse_args() {
                Ok(v) => v,
                Err(e) => {
                    return Err(e);
                },
            };
            return Ok(list);
        }
        let none: Vec<Arg> = Vec::new();
        assert(arg_trees(none) =~= Seq::empty());
        return Ok(none);
    }

    fn parse_new_rest(&mut self) -> (r: Result<Expr, Error>)
        requires
            old(self).inv(),
        ensures
            final(self)@ == old(self)@,
            match r {
                Ok(v) => gives(new_rest_at(old(self)@, old(self).pos as int), v.tree(), final(self).pos as int) && final(self).inv() && old(self).pos < final(self).pos,
                Err(e) => failed(new_rest_at(old(self)@, old(self).pos as int), e),
            },
        decreases remaining(old(self)@, old(self).pos as int), 10int,
    {
        proof {
            law_new_rest(self@, self.pos as int);
        }
        let callee = match self.parse_primary() {
            Ok(v) => v,
            Err(e) => {
                return Err(e);
            },
        };
        let args = match self.parse_new_args() {
            Ok(v) => v,
            Err(e) => {
                return Err(e);
            },
        };
        return Ok(Expr::New { callee: Box::new(callee), args });
    }

    fn parse_elem_list(&mut self, first: Vec<ArrayElem>) -> (r: Result<Vec<ArrayElem>, Error>)
        requires
            old(self).inv(),
        ensures
            final(self)@ == old(self)@,
            match r {
                Ok(v) => gives(elem_list_at(old(self)@, old(self).pos as int, array_elem_trees(first)), array_elem_trees(v), final(self).pos as int) && final(self).inv() && old(self).pos <= final(self).pos,
                Err(e) => failed(elem_list_at(old(self)@, old(self).pos as int, array_elem_trees(first)), e),
            },
        decreases remaining(old(self)@, old(self).pos as int), 28int,
    {
        let mut list = first;
        let ghost ts = self@;
        let ghost want = elem_list_at(ts, self.pos as int, array_elem_trees(list));
        loop
            invariant
                self.inv(),
                self@ == ts,
                ts == old(self)@,
                old(self).pos <= self.pos,
                same(want, elem_list_at(old(self)@, old(self).pos as int, array_elem_trees(first))),
                same(want, elem_list_at(ts, self.pos as int, array_elem_trees(list))),
            decreases remaining(ts, self.pos as int),
        {
            proof {
                law_elem_list(self@, self.pos as int, array_elem_trees(list));
            }
            let e = match self.parse_expr() {
                Ok(v) => v,
                Err(e) => {
                    return Err(e);
                },
            };
            if self.peek_is_punct(",") {
                self.bump();
                let item = ArrayElem::Expr(e);
                let ghost tree = item.tree();
                let ghost before = array_elem_trees(list);
                list.push(item);
                assert(array_elem_trees(list) =~= before.push(tree));
                continue;
            }
            let item = ArrayElem::Expr(e);
            let ghost tree = item.tree();
            let ghost before = array_elem_trees(list);
            list.push(item);
            assert(array_elem_trees(list) =~= before.push(tree));
            return Ok(list);
        }
    }

    fn parse_array(&mut self) -> (r: Result<Expr, Error>)
        requires
            old(self).inv(),
        ensures
            final(self)@ == old(self)@,
            match r {
                Ok(v) => gives(array_at(old(self)@, old(self).pos as int), v.tree(), final(self).pos as int) && final(self).inv() && old(self).pos < final(self).pos,
                Err(e) => failed(array_at(old(self)@, old(self).pos as int), e),
            },
        decreases remaining(old(self)@, old(self).pos as int), 29int,
    {
        proof {
            law_array(self@, self.pos as int);
        }
        if self.peek_is_punct("]") {
            self.bump();
            let list = match self.parse_no_elems() {
                Ok(v) => v,
                Err(e) => {
                    return Err(e);
                },
            };
            return Ok(Expr::Array(list));
        }
        let none: Vec<ArrayElem> = Vec::new();
        assert(array_elem_trees(none) =~= Seq::empty());
        let list = match self.parse_elem_list(none) {
            Ok(v) => v,
            Err(e) => {
                return Err(e);
            },
        };
        if !self.peek_is_punct("]") {
            return Err(self.expected("]"));
        }
        self.bump();
        return Ok(Expr::Array(list));
    }

    fn parse_no_elems(&mut self) -> (r: Result<Vec<ArrayElem>, Error>)
        requires
            old(self).inv(),
        ensures
            final(self)@ == old(self)@,
            match r {
                Ok(v) => gives(no_elems_at(old(self)@, old(self).pos as int), array_elem_trees(v), final(self).pos as int) && final(self).inv() && old(self).pos <= final(self).pos,
                Err(e) => failed(no_elems_at(old(self)@, old(self).pos as int), e),
            },
        decreases remaining(old(self)@, old(self).pos as int), 1int,
    {
        proof {
            law_no_elems(self@, self.pos as int);
        }
        let none: Vec<ArrayElem> = Vec::new();
        assert(array_elem_trees(none) =~= Seq::empty());
        return Ok(none);
    }

    fn parse_prop_list(&mut self, first: Vec<Prop>) -> (r: Result<Vec<Prop>, Error>)
        requires
            old(self).inv(),
        ensures
            final(self)@ == old(self)@,
            match r {
                Ok(v) => gives(prop_list_at(old(self)@, old(self).pos as int, prop_trees(first)), prop_trees(v), final(self).pos as int) && final(self).inv() && old(self).pos <= final(self).pos,
                Err(e) => failed(prop_list_at(old(self)@, old(self).pos as int, prop_trees(first)), e),
            },
        decreases remaining(old(self)@, old(self).pos as int), 28int,
    {
        let mut list = first;
        let ghost ts = self@;
        let ghost want = prop_list_at(ts, self.pos as int, prop_trees(list));
        loop
            invariant
                self.inv(),
                self@ == ts,
                ts == old(self)@,
                old(self).pos <= self.pos,
                same(want, prop_list_at(old(self)@, old(self).pos as int, prop_trees(first))),
                same(want, prop_list_at(ts, self.pos as int, prop_trees(list))),
            decreases remaining(ts, self.pos as int),
        {
            proof {
                law_prop_list(self@, self.pos as int, prop_trees(list));
            }
            if self.peek_is_punct("}") || self.at_end() {
                return Ok(list);
            }
            let p0 = match self.parse_prop() {
                Ok(v) => v,
                Err(e) => {
                    return Err(e);
                },
            };
            if self.peek_is_punct(",") {
                self.bump();
                let item = p0;
                let ghost tree = item.tree();
                let ghost before = prop_trees(list);
                list.push(item);
                assert(prop_trees(list) =~= before.push(tree));
                continue;
            }
            let item = p0;
            let ghost tree = item.tree();
            let ghost before = prop_trees(list);
            list.push(item);
            assert(prop_trees(list) =~= before.push(tree));
            return Ok(list);
        }
    }

    #[verifier::rlimit(40)]
    fn parse_prop(&mut self) -> (r: Result<Prop, Error>)
        requires
            old(self).inv(),
        ensures
            final(self)@ == old(self)@,
            match r {
                Ok(v) => gives(prop_at(old(self)@, old(self).pos as int), v.tree(), final(self).pos as int) && final(self).inv() && old(self).pos < final(self).pos,
                Err(e) => failed(prop_at(old(self)@, old(self).pos as int), e),
            },
        decreases remaining(old(self)@, old(self).pos as int), 27int,
    {
        proof {
            reveal_strlit("get");
            reveal_strlit("set");
            law_prop(self@, self.pos as int);
        }
        if self.peek_is(TokenKind::Ident) && self.peek_is_text("get") {
            let t = self.text();
            self.bump();
            if self.peek_is_punct(":") || self.peek_is_punct("(") {
                let key = PropKey::Ident(t);
                let ghost _twin = key.tree();
                let p0 = match self.parse_prop_rest(key) {
                    Ok(v) => v,
                    Err(e) => {
                        return Err(e);
                    },
                };
                return Ok(p0);
            }
            let p0 = match self.parse_getter() {
                Ok(v) => v,
                Err(e) => {
                    return Err(e);
                },
            };
            return Ok(p0);
        }
        if self.peek_is(TokenKind::Ident) && self.peek_is_text("set") {
            let t = self.text();
            self.bump();
            if self.peek_is_punct(":") || self.peek_is_punct("(") {
                let key = PropKey::Ident(t);
                let ghost _twin = key.tree();
                let p0 = match self.parse_prop_rest(key) {
                    Ok(v) => v,
                    Err(e) => {
                        return Err(e);
                    },
                };
                return Ok(p0);
            }
            let p0 = match self.parse_setter() {
                Ok(v) => v,
                Err(e) => {
                    return Err(e);
                },
            };
            return Ok(p0);
        }
        let key = match self.parse_prop_key() {
            Ok(v) => v,
            Err(e) => {
                return Err(e);
            },
        };
        let p0 = match self.parse_prop_rest(key) {
            Ok(v) => v,
            Err(e) => {
                return Err(e);
            },
        };
        return Ok(p0);
    }

    fn parse_prop_rest(&mut self, key: PropKey) -> (r: Result<Prop, Error>)
        requires
            old(self).inv(),
        ensures
            final(self)@ == old(self)@,
            match r {
                Ok(v) => gives(prop_rest_at(old(self)@, old(self).pos as int, key.tree()), v.tree(), final(self).pos as int) && final(self).inv() && old(self).pos < final(self).pos,
                Err(e) => failed(prop_rest_at(old(self)@, old(self).pos as int, key.tree()), e),
            },
        decreases remaining(old(self)@, old(self).pos as int), 25int,
    {
        proof {
            law_prop_rest(self@, self.pos as int, key.tree());
        }
        if self.peek_is_punct("(") {
            let params = match self.parse_params() {
                Ok(v) => v,
                Err(e) => {
                    return Err(e);
                },
            };
            let body = match self.parse_block_stmts() {
                Ok(v) => v,
                Err(e) => {
                    return Err(e);
                },
            };
            return Ok(Prop::Method { key, params, body });
        }
        if !self.peek_is_punct(":") {
            return Err(self.expected(":"));
        }
        self.bump();
        let value = match self.parse_expr() {
            Ok(v) => v,
            Err(e) => {
                return Err(e);
            },
        };
        return Ok(Prop::Init { key, value });
    }

    #[verifier::rlimit(40)]
    fn parse_getter(&mut self) -> (r: Result<Prop, Error>)
        requires
            old(self).inv(),
        ensures
            final(self)@ == old(self)@,
            match r {
                Ok(v) => gives(getter_at(old(self)@, old(self).pos as int), v.tree(), final(self).pos as int) && final(self).inv() && old(self).pos < final(self).pos,
                Err(e) => failed(getter_at(old(self)@, old(self).pos as int), e),
            },
        decreases remaining(old(self)@, old(self).pos as int), 27int,
    {
        proof {
            law_getter(self@, self.pos as int);
        }
        let key = match self.parse_prop_key() {
            Ok(v) => v,
            Err(e) => {
                return Err(e);
            },
        };
        if !self.peek_is_punct("(") {
            return Err(self.expected("("));
        }
        self.bump();
        if !self.peek_is_punct(")") {
            return Err(self.expected(")"));
        }
        self.bump();
        let params = match self.parse_no_params() {
            Ok(v) => v,
            Err(e) => {
                return Err(e);
            },
        };
        let body = match self.parse_block_stmts() {
            Ok(v) => v,
            Err(e) => {
                return Err(e);
            },
        };
        return Ok(Prop::Accessor { get: true, key, params, body });
    }

    #[verifier::rlimit(40)]
    fn parse_setter(&mut self) -> (r: Result<Prop, Error>)
        requires
            old(self).inv(),
        ensures
            final(self)@ == old(self)@,
            match r {
                Ok(v) => gives(setter_at(old(self)@, old(self).pos as int), v.tree(), final(self).pos as int) && final(self).inv() && old(self).pos < final(self).pos,
                Err(e) => failed(setter_at(old(self)@, old(self).pos as int), e),
            },
        decreases remaining(old(self)@, old(self).pos as int), 27int,
    {
        proof {
            law_setter(self@, self.pos as int);
        }
        let key = match self.parse_prop_key() {
            Ok(v) => v,
            Err(e) => {
                return Err(e);
            },
        };
        if !self.peek_is_punct("(") {
            return Err(self.expected("("));
        }
        self.bump();
        let name = match self.expect_ident() {
            Ok(v) => v,
            Err(e) => {
                return Err(e);
            },
        };
        if !self.peek_is_punct(")") {
            return Err(self.expected(")"));
        }
        self.bump();
        let pat = Pattern::Ident(name);
        let ghost _twin = pat.tree();
        let params = match self.parse_one_param(pat) {
            Ok(v) => v,
            Err(e) => {
                return Err(e);
            },
        };
        let body = match self.parse_block_stmts() {
            Ok(v) => v,
            Err(e) => {
                return Err(e);
            },
        };
        return Ok(Prop::Accessor { get: false, key, params, body });
    }

    fn parse_no_params(&mut self) -> (r: Result<Vec<Pattern>, Error>)
        requires
            old(self).inv(),
        ensures
            final(self)@ == old(self)@,
            match r {
                Ok(v) => gives(no_params_at(old(self)@, old(self).pos as int), pattern_trees(v), final(self).pos as int) && final(self).inv() && old(self).pos <= final(self).pos,
                Err(e) => failed(no_params_at(old(self)@, old(self).pos as int), e),
            },
        decreases remaining(old(self)@, old(self).pos as int), 1int,
    {
        proof {
            law_no_params(self@, self.pos as int);
        }
        let none: Vec<Pattern> = Vec::new();
        assert(pattern_trees(none) =~= Seq::empty());
        return Ok(none);
    }

    fn parse_one_param(&mut self, p0: Pattern) -> (r: Result<Vec<Pattern>, Error>)
        requires
            old(self).inv(),
        ensures
            final(self)@ == old(self)@,
            match r {
                Ok(v) => gives(one_param_at(old(self)@, old(self).pos as int, p0.tree()), pattern_trees(v), final(self).pos as int) && final(self).inv() && old(self).pos <= final(self).pos,
                Err(e) => failed(one_param_at(old(self)@, old(self).pos as int, p0.tree()), e),
            },
        decreases remaining(old(self)@, old(self).pos as int), 1int,
    {
        proof {
            law_one_param(self@, self.pos as int, p0.tree());
        }
        let mut list: Vec<Pattern> = Vec::new();
        let item = p0;
        let ghost tree = item.tree();
        list.push(item);
        assert(pattern_trees(list) =~= seq![tree]);
        return Ok(list);
    }

    fn parse_bare_declarator(&mut self, d: Declarator) -> (r: Result<Vec<Declarator>, Error>)
        requires
            old(self).inv(),
        ensures
            final(self)@ == old(self)@,
            match r {
                Ok(v) => gives(bare_declarator_at(old(self)@, old(self).pos as int, d.tree()), declarator_trees(v), final(self).pos as int) && final(self).inv() && old(self).pos <= final(self).pos,
                Err(e) => failed(bare_declarator_at(old(self)@, old(self).pos as int, d.tree()), e),
            },
        decreases remaining(old(self)@, old(self).pos as int), 1int,
    {
        proof {
            law_bare_declarator(self@, self.pos as int, d.tree());
        }
        let mut list: Vec<Declarator> = Vec::new();
        let item = d;
        let ghost tree = item.tree();
        list.push(item);
        assert(declarator_trees(list) =~= seq![tree]);
        return Ok(list);
    }

    fn parse_object(&mut self) -> (r: Result<Expr, Error>)
        requires
            old(self).inv(),
        ensures
            final(self)@ == old(self)@,
            match r {
                Ok(v) => gives(object_at(old(self)@, old(self).pos as int), v.tree(), final(self).pos as int) && final(self).inv() && old(self).pos < final(self).pos,
                Err(e) => failed(object_at(old(self)@, old(self).pos as int), e),
            },
        decreases remaining(old(self)@, old(self).pos as int), 29int,
    {
        proof {
            law_object(self@, self.pos as int);
        }
        let none: Vec<Prop> = Vec::new();
        assert(prop_trees(none) =~= Seq::empty());
        let list = match self.parse_prop_list(none) {
            Ok(v) => v,
            Err(e) => {
                return Err(e);
            },
        };
        if !self.peek_is_punct("}") {
            return Err(self.expected("}"));
        }
        self.bump();
        return Ok(Expr::Object(list));
    }

    fn parse_prop_key(&mut self) -> (r: Result<PropKey, Error>)
        requires
            old(self).inv(),
        ensures
            final(self)@ == old(self)@,
            match r {
                Ok(v) => gives(prop_key_at(old(self)@, old(self).pos as int), v.tree(), final(self).pos as int) && final(self).inv() && old(self).pos < final(self).pos,
                Err(e) => failed(prop_key_at(old(self)@, old(self).pos as int), e),
            },
        decreases remaining(old(self)@, old(self).pos as int), 26int,
    {
        proof {
            law_prop_key(self@, self.pos as int);
        }
        if self.peek_is(TokenKind::Ident) {
            let t = self.text();
            self.bump();
            return Ok(PropKey::Ident(t));
        }
        if self.peek_is(TokenKind::Str) || self.peek_is(TokenKind::Number) {
            let t = self.text();
            self.bump();
            return Ok(PropKey::Str(t));
        }
        if self.peek_any_kw() {
            let t = self.text();
            self.bump();
            return Ok(PropKey::Ident(t));
        }
        if self.peek_is_punct("[") {
            self.bump();
            let e = match self.parse_expr() {
                Ok(v) => v,
                Err(e) => {
                    return Err(e);
                },
            };
            if !self.peek_is_punct("]") {
                return Err(self.expected("]"));
            }
            self.bump();
            return Ok(PropKey::Computed(Box::new(e)));
        }
        return Err(self.no_key());
    }

}

/// Parses a source text with the hand-written parser.
pub fn parse(src: &str) -> (r: Result<Program, Error>)
    requires
        src@.len() < usize::MAX,
    ensures
        match r {
            Ok(p) => parsed(src@) == Ok::<_, Seq<char>>(p.tree()),
            Err(e) => exists|m: Seq<char>| parsed(src@) == Err::<ProgramTree, _>(m) && e@ == ErrorView::Parse(m),
        },
{
    let mut lexer = Lexer::new(src);
    let tokens = match lexer.tokenize() {
        Ok(v) => v,
        Err(e) => {
            return Err(e);
        },
    };
    proof {
        law_tokens_end(src@, 0, 1);
    }
    let mut p = Parser { tokens, pos: 0 };
    let none: Vec<Stmt> = Vec::new();
    assert(stmt_trees(none) =~= Seq::empty());
    match p.parse_program(none) {
        Ok(stmts) => Ok(Program { stmts, strict: false }),
        Err(e) => Err(e),
    }
}

} // verus!
