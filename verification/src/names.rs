//! The names that patterns and statements bind.
use vstd::prelude::*;
use crate::ast::{Declarator, Pattern, PropPattern, Stmt, SwitchCase, VarKind};
use crate::text::{owned, texts};

verus! {

/// The names that a pattern binds, in order.
pub open spec fn pattern_names(p: Pattern) -> Seq<Seq<char>>
    decreases p, 0int,
{
    match p {
        Pattern::Ident(name) => seq![name@],
        Pattern::Array { elems, rest } => elem_names(elems, elems@.len()) + (match rest {
            Some(r) => pattern_names(*r),
            None => Seq::empty(),
        }),
        Pattern::Object { props, rest } => prop_names(props, props@.len()) + (match rest {
            Some(r) => pattern_names(*r),
            None => Seq::empty(),
        }),
        Pattern::Member(_) => Seq::empty(),
        Pattern::Default { inner, .. } => pattern_names(*inner),
    }
}

/// The names that the first `n` elements of an array pattern bind.
pub open spec fn elem_names(elems: Vec<Option<Pattern>>, n: nat) -> Seq<Seq<char>>
    decreases elems, n,
{
    if n == 0 || n > elems@.len() {
        Seq::empty()
    } else {
        elem_names(elems, (n - 1) as nat) + (match elems@[n - 1] {
            Some(p) => pattern_names(p),
            None => Seq::empty(),
        })
    }
}

/// The names that the first `n` properties of an object pattern bind.
pub open spec fn prop_names(props: Vec<PropPattern>, n: nat) -> Seq<Seq<char>>
    decreases props, n,
{
    if n == 0 || n > props@.len() {
        Seq::empty()
    } else {
        prop_names(props, (n - 1) as nat) + pattern_names(props@[n - 1].value)
    }
}

/// The names that the first `n` declarators bind.
pub open spec fn declared_names(list: Vec<Declarator>, n: nat) -> Seq<Seq<char>>
    decreases n,
{
    if n == 0 || n > list@.len() {
        Seq::empty()
    } else {
        declared_names(list, (n - 1) as nat) + pattern_names(list@[n - 1].pat)
    }
}

/// The names that the head of a `for`-`in` or `for`-`of` binds with `var`.
pub open spec fn head_vars(kind: VarKind, name: Pattern) -> Seq<Seq<char>> {
    if kind == VarKind::Var { pattern_names(name) } else { Seq::empty() }
}

/// The names that `var` declarations in a statement bind, nested blocks and
/// control flow included, function bodies not.
pub open spec fn stmt_vars(s: Stmt) -> Seq<Seq<char>>
    decreases s, 0int,
{
    match s {
        Stmt::Var(list, kind) => if kind == VarKind::Var { declared_names(list, list@.len()) } else { Seq::empty() },
        Stmt::Block(b) => list_vars(b, b@.len()),
        Stmt::If { yes, no, .. } => list_vars(yes, yes@.len()) + list_vars(no, no@.len()),
        Stmt::For { init, body, .. } => (match init {
            Some(i) => stmt_vars(*i),
            None => Seq::empty(),
        }) + list_vars(body, body@.len()),
        Stmt::ForIn { kind, name, body, .. } => head_vars(kind, name) + list_vars(body, body@.len()),
        Stmt::ForOf { kind, name, body, .. } => head_vars(kind, name) + list_vars(body, body@.len()),
        Stmt::While { body, .. } => list_vars(body, body@.len()),
        Stmt::DoWhile { body, .. } => list_vars(body, body@.len()),
        Stmt::Try { try_block, catch, finally } => list_vars(try_block, try_block@.len()) + (match catch {
            Some(c) => list_vars(c.body, c.body@.len()),
            None => Seq::empty(),
        }) + (match finally {
            Some(f) => list_vars(f, f@.len()),
            None => Seq::empty(),
        }),
        Stmt::Switch { cases, .. } => case_vars(cases, cases@.len()),
        Stmt::Labeled { body, .. } => stmt_vars(*body),
        _ => Seq::empty(),
    }
}

/// The names that `var` declarations in the first `n` statements bind.
pub open spec fn list_vars(list: Vec<Stmt>, n: nat) -> Seq<Seq<char>>
    decreases list, n,
{
    if n == 0 || n > list@.len() {
        Seq::empty()
    } else {
        list_vars(list, (n - 1) as nat) + stmt_vars(list@[n - 1])
    }
}

/// The names that `var` declarations in the first `n` clauses bind.
pub open spec fn case_vars(cases: Vec<SwitchCase>, n: nat) -> Seq<Seq<char>>
    decreases cases, n,
{
    if n == 0 || n > cases@.len() {
        Seq::empty()
    } else {
        case_vars(cases, (n - 1) as nat) + list_vars(cases@[n - 1].body, cases@[n - 1].body@.len())
    }
}

/// The names that `var` declarations in a statement list bind.
pub open spec fn var_names(list: Vec<Stmt>) -> Seq<Seq<char>> {
    list_vars(list, list@.len())
}

/// Collects the names that a pattern binds.
pub fn pattern_idents(p: &Pattern, out: &mut Vec<String>)
    ensures
        texts(final(out)@) == texts(old(out)@) + pattern_names(*p),
    decreases p, 0int,
{
    let ghost start = texts(out@);
    match p {
        Pattern::Ident(name) => {
            let ghost held = out@;
            let t = owned(name.as_str());
            out.push(t);
            assert(texts(out@) =~= texts(held).push(t@));
            assert(texts(out@) =~= start + pattern_names(*p));
        },
        Pattern::Array { elems, rest } => {
            elem_idents(elems, elems.len(), out);
            match rest {
                Some(r) => {
                    pattern_idents(&**r, out);
                },
                None => {},
            }
            assert(texts(out@) =~= start + pattern_names(*p));
        },
        Pattern::Object { props, rest } => {
            prop_idents(props, props.len(), out);
            match rest {
                Some(r) => {
                    pattern_idents(&**r, out);
                },
                None => {},
            }
            assert(texts(out@) =~= start + pattern_names(*p));
        },
        Pattern::Member(_) => {
            assert(texts(out@) =~= start + pattern_names(*p));
        },
        Pattern::Default { inner, .. } => {
            pattern_idents(&**inner, out);
        },
    }
}

fn elem_idents(elems: &Vec<Option<Pattern>>, n: usize, out: &mut Vec<String>)
    requires
        n <= elems@.len(),
    ensures
        texts(final(out)@) == texts(old(out)@) + elem_names(*elems, n as nat),
    decreases elems, n,
{
    let ghost start = texts(out@);
    if n > 0 {
        elem_idents(elems, n - 1, out);
        match &elems[n - 1] {
            Some(p) => {
                pattern_idents(p, out);
            },
            None => {},
        }
    }
    assert(texts(out@) =~= start + elem_names(*elems, n as nat));
}

fn prop_idents(props: &Vec<PropPattern>, n: usize, out: &mut Vec<String>)
    requires
        n <= props@.len(),
    ensures
        texts(final(out)@) == texts(old(out)@) + prop_names(*props, n as nat),
    decreases props, n,
{
    let ghost start = texts(out@);
    if n > 0 {
        prop_idents(props, n - 1, out);
        pattern_idents(&props[n - 1].value, out);
    }
    assert(texts(out@) =~= start + prop_names(*props, n as nat));
}

/// Collects the names that declarators bind.
pub fn declared_idents(list: &Vec<Declarator>, out: &mut Vec<String>)
    ensures
        texts(final(out)@) == texts(old(out)@) + declared_names(*list, list@.len()),
{
    let ghost start = texts(out@);
    let mut i: usize = 0;
    assert(texts(out@) =~= start + declared_names(*list, 0));
    while i < list.len()
        invariant
            i <= list@.len(),
            texts(out@) == start + declared_names(*list, i as nat),
        decreases list@.len() - i,
    {
        pattern_idents(&list[i].pat, out);
        i += 1;
        assert(texts(out@) =~= start + declared_names(*list, i as nat));
    }
}

fn stmt_var_names(s: &Stmt, out: &mut Vec<String>)
    ensures
        texts(final(out)@) == texts(old(out)@) + stmt_vars(*s),
    decreases s, 0int,
{
    let ghost start = texts(out@);
    match s {
        Stmt::Var(list, kind) => {
            if *kind == VarKind::Var {
                declared_idents(list, out);
            }
        },
        Stmt::Block(b) => {
            list_var_names(b, b.len(), out);
        },
        Stmt::If { yes, no, .. } => {
            list_var_names(yes, yes.len(), out);
            list_var_names(no, no.len(), out);
        },
        Stmt::For { init, body, .. } => {
            match init {
                Some(i) => {
                    stmt_var_names(&**i, out);
                },
                None => {},
            }
            list_var_names(body, body.len(), out);
        },
        Stmt::ForIn { kind, name, body, .. } => {
            if *kind == VarKind::Var {
                pattern_idents(name, out);
            }
            list_var_names(body, body.len(), out);
        },
        Stmt::ForOf { kind, name, body, .. } => {
            if *kind == VarKind::Var {
                pattern_idents(name, out);
            }
            list_var_names(body, body.len(), out);
        },
        Stmt::While { body, .. } => {
            list_var_names(body, body.len(), out);
        },
        Stmt::DoWhile { body, .. } => {
            list_var_names(body, body.len(), out);
        },
        Stmt::Try { try_block, catch, finally } => {
            list_var_names(try_block, try_block.len(), out);
            match catch {
                Some(c) => {
                    list_var_names(&c.body, c.body.len(), out);
                },
                None => {},
            }
            match finally {
                Some(f) => {
                    list_var_names(f, f.len(), out);
                },
                None => {},
            }
        },
        Stmt::Switch { cases, .. } => {
            case_var_names(cases, cases.len(), out);
        },
        Stmt::Labeled { body, .. } => {
            stmt_var_names(&**body, out);
        },
        _ => {},
    }
    assert(texts(out@) =~= start + stmt_vars(*s));
}

fn list_var_names(list: &Vec<Stmt>, n: usize, out: &mut Vec<String>)
    requires
        n <= list@.len(),
    ensures
        texts(final(out)@) == texts(old(out)@) + list_vars(*list, n as nat),
    decreases list, n,
{
    let ghost start = texts(out@);
    if n > 0 {
        list_var_names(list, n - 1, out);
        stmt_var_names(&list[n - 1], out);
    }
    assert(texts(out@) =~= start + list_vars(*list, n as nat));
}

fn case_var_names(cases: &Vec<SwitchCase>, n: usize, out: &mut Vec<String>)
    requires
        n <= cases@.len(),
    ensures
        texts(final(out)@) == texts(old(out)@) + case_vars(*cases, n as nat),
    decreases cases, n,
{
    let ghost start = texts(out@);
    if n > 0 {
        case_var_names(cases, n - 1, out);
        let b = &cases[n - 1].body;
        list_var_names(b, b.len(), out);
    }
    assert(texts(out@) =~= start + case_vars(*cases, n as nat));
}

/// Collects the names that `var` declarations in a statement list bind.
pub fn collect_var_names(list: &Vec<Stmt>) -> (r: Vec<String>)
    ensures
        texts(r@) == var_names(*list),
{
    let mut out: Vec<String> = Vec::new();
    assert(texts(out@) =~= Seq::<Seq<char>>::empty());
    list_var_names(list, list.len(), &mut out);
    assert(texts(out@) =~= var_names(*list));
    out
}

} // verus!
