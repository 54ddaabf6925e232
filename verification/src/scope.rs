//! The names that the clauses of a `switch` declare.
use vstd::prelude::*;
use crate::ast::{
    declarator_trees, opt_pattern_trees, prop_pattern_trees, stmt_trees, switch_case_trees, Declarator, DeclaratorTree, Pattern, PatternTree, PropPattern,
    PropPatternTree, Stmt, StmtTree, SwitchCase, SwitchCaseTree, VarKind,
};
use crate::atoms::same_text;
use crate::text::owned;

verus! {

/// How a name is declared.
#[derive(Clone, Copy, PartialEq, Eq, Structural, Debug)]
pub enum Binding {
    Var,
    Lexical,
    /// By a function that is neither a generator nor async.
    Function,
}

/// A declared name.
pub struct Declared {
    pub name: String,
    pub binding: Binding,
}

/// The contents of a [`Declared`].
pub struct DeclaredView {
    pub name: Seq<char>,
    pub binding: Binding,
}

impl Declared {
    /// The contents.
    pub open spec fn view(&self) -> DeclaredView {
        DeclaredView { name: self.name@, binding: self.binding }
    }
}

/// The contents of declared names.
pub open spec fn declared_views(v: Seq<Declared>) -> Seq<DeclaredView> {
    v.map_values(|d: Declared| d@)
}

/// The names of a pattern, behind those that were found.
pub open spec fn pattern_names(p: PatternTree, b: Binding, acc: Seq<DeclaredView>) -> Seq<DeclaredView>
    decreases p, 0int,
{
    match p {
        PatternTree::Ident(name) => acc.push(DeclaredView { name, binding: b }),
        PatternTree::Array { elems, rest } => {
            let list = elem_names(elems, 0, b, acc);
            match rest {
                Some(r) => pattern_names(*r, b, list),
                None => list,
            }
        },
        PatternTree::Object { props, rest } => {
            let list = prop_names(props, 0, b, acc);
            match rest {
                Some(r) => pattern_names(*r, b, list),
                None => list,
            }
        },
        PatternTree::Member(_) => acc,
        PatternTree::Default { inner, .. } => pattern_names(*inner, b, acc),
    }
}

/// The names of array elements from a place on.
pub open spec fn elem_names(elems: Seq<Option<PatternTree>>, i: int, b: Binding, acc: Seq<DeclaredView>) -> Seq<DeclaredView>
    decreases elems, elems.len() - i,
{
    if i < 0 || i >= elems.len() {
        acc
    } else {
        match elems[i] {
            Some(p) => elem_names(elems, i + 1, b, pattern_names(p, b, acc)),
            None => elem_names(elems, i + 1, b, acc),
        }
    }
}

/// The names of object properties from a place on.
pub open spec fn prop_names(props: Seq<PropPatternTree>, i: int, b: Binding, acc: Seq<DeclaredView>) -> Seq<DeclaredView>
    decreases props, props.len() - i,
{
    if i < 0 || i >= props.len() {
        acc
    } else {
        prop_names(props, i + 1, b, pattern_names(props[i].value, b, acc))
    }
}

/// How a declaration of a kind binds.
pub open spec fn binding_of(kind: VarKind) -> Binding {
    if kind == VarKind::Var { Binding::Var } else { Binding::Lexical }
}

/// The names of declarators from a place on.
pub open spec fn declarator_names(list: Seq<DeclaratorTree>, i: int, b: Binding, acc: Seq<DeclaredView>) -> Seq<DeclaredView>
    decreases list.len() - i,
{
    if i < 0 || i >= list.len() {
        acc
    } else {
        declarator_names(list, i + 1, b, pattern_names(list[i].pat, b, acc))
    }
}

/// How a function with a body binds its name.
pub open spec fn function_binding(body: Seq<StmtTree>) -> Binding {
    if body.len() == 1 && (body[0] is GeneratorBody || body[0] is AsyncBody) { Binding::Lexical } else { Binding::Function }
}

/// The names that a statement declares.
pub open spec fn stmt_names(s: StmtTree, acc: Seq<DeclaredView>) -> Seq<DeclaredView> {
    match s {
        StmtTree::Var(list, kind) => declarator_names(list, 0, binding_of(kind), acc),
        StmtTree::FunctionDecl { name, body, .. } => acc.push(DeclaredView { name, binding: function_binding(body) }),
        _ => acc,
    }
}

/// The names that statements from a place on declare.
pub open spec fn list_names(list: Seq<StmtTree>, i: int, acc: Seq<DeclaredView>) -> Seq<DeclaredView>
    decreases list.len() - i,
{
    if i < 0 || i >= list.len() {
        acc
    } else {
        list_names(list, i + 1, stmt_names(list[i], acc))
    }
}

/// The names that clauses from a place on declare.
pub open spec fn case_names(cases: Seq<SwitchCaseTree>, i: int, acc: Seq<DeclaredView>) -> Seq<DeclaredView>
    decreases cases.len() - i,
{
    if i < 0 || i >= cases.len() {
        acc
    } else {
        case_names(cases, i + 1, list_names(cases[i].body, 0, acc))
    }
}

/// Whether two declarations of one name exclude each other: two `var` declarations
/// do not, and two plain functions do so in strict code only.
pub open spec fn excludes(a: Binding, b: Binding, strict: bool) -> bool {
    !(a == Binding::Var && b == Binding::Var) && (strict || !(a == Binding::Function && b == Binding::Function))
}

/// Whether two entries of a list exclude each other.
pub open spec fn pair_excludes(list: Seq<DeclaredView>, i: int, k: int, strict: bool) -> bool {
    list[i].name == list[k].name && excludes(list[i].binding, list[k].binding, strict)
}

/// Whether the clauses of a `switch` declare a name twice in a way that is not
/// allowed.
pub open spec fn redeclared(cases: Seq<SwitchCaseTree>, strict: bool) -> bool {
    let list = case_names(cases, 0, Seq::empty());
    exists|i: int, k: int| 0 <= i < k < list.len() && #[trigger] pair_excludes(list, i, k, strict)
}

fn add_name(name: &str, binding: Binding, out: &mut Vec<Declared>)
    ensures
        declared_views(final(out)@) == declared_views(old(out)@).push(DeclaredView { name: name@, binding }),
{
    out.push(Declared { name: owned(name), binding });
    assert(declared_views(out@) =~= declared_views(old(out)@).push(DeclaredView { name: name@, binding }));
}

fn add_pattern(p: &Pattern, b: Binding, out: &mut Vec<Declared>)
    ensures
        declared_views(final(out)@) == pattern_names(p.tree(), b, declared_views(old(out)@)),
    decreases p, 0int,
{
    match p {
        Pattern::Ident(name) => {
            add_name(name.as_str(), b, out);
        },
        Pattern::Array { elems, rest } => {
            add_elems(elems, b, out);
            match rest {
                Some(r) => {
                    add_pattern(r, b, out);
                },
                None => {},
            }
        },
        Pattern::Object { props, rest } => {
            add_props(props, b, out);
            match rest {
                Some(r) => {
                    add_pattern(r, b, out);
                },
                None => {},
            }
        },
        Pattern::Member(_) => {},
        Pattern::Default { inner, .. } => {
            add_pattern(inner, b, out);
        },
    }
}

fn add_elems(elems: &Vec<Option<Pattern>>, b: Binding, out: &mut Vec<Declared>)
    ensures
        declared_views(final(out)@) == elem_names(opt_pattern_trees(*elems), 0, b, declared_views(old(out)@)),
    decreases elems, 1int,
{
    let mut i: usize = 0;
    let ghost t = opt_pattern_trees(*elems);
    let ghost want = elem_names(t, 0, b, declared_views(out@));
    while i < elems.len()
        invariant
            i <= elems@.len(),
            t == opt_pattern_trees(*elems),
            want == elem_names(t, i as int, b, declared_views(out@)),
        decreases elems@.len() - i,
    {
        match &elems[i] {
            Some(p) => {
                assert(t[i as int] == Some(p.tree()));
                assert(decreases_to!(elems => p));
                add_pattern(p, b, out);
            },
            None => {
                assert(t[i as int] is None);
            },
        }
        i += 1;
    }
}

fn add_props(props: &Vec<PropPattern>, b: Binding, out: &mut Vec<Declared>)
    ensures
        declared_views(final(out)@) == prop_names(prop_pattern_trees(*props), 0, b, declared_views(old(out)@)),
    decreases props, 1int,
{
    let mut i: usize = 0;
    let ghost t = prop_pattern_trees(*props);
    let ghost want = prop_names(t, 0, b, declared_views(out@));
    while i < props.len()
        invariant
            i <= props@.len(),
            t == prop_pattern_trees(*props),
            want == prop_names(t, i as int, b, declared_views(out@)),
        decreases props@.len() - i,
    {
        let p = &props[i];
        assert(t[i as int] == p.tree());
        assert(t[i as int].value == p.value.tree());
        assert(decreases_to!(props => p.value));
        add_pattern(&p.value, b, out);
        i += 1;
    }
}

fn add_declarators(list: &Vec<Declarator>, b: Binding, out: &mut Vec<Declared>)
    ensures
        declared_views(final(out)@) == declarator_names(declarator_trees(*list), 0, b, declared_views(old(out)@)),
{
    let mut i: usize = 0;
    let ghost t = declarator_trees(*list);
    let ghost want = declarator_names(t, 0, b, declared_views(out@));
    while i < list.len()
        invariant
            i <= list@.len(),
            t == declarator_trees(*list),
            want == declarator_names(t, i as int, b, declared_views(out@)),
        decreases list@.len() - i,
    {
        let d = &list[i];
        assert(t[i as int] == d.tree());
        assert(t[i as int].pat == d.pat.tree());
        add_pattern(&d.pat, b, out);
        i += 1;
    }
}

fn add_stmt(s: &Stmt, out: &mut Vec<Declared>)
    ensures
        declared_views(final(out)@) == stmt_names(s.tree(), declared_views(old(out)@)),
{
    match s {
        Stmt::Var(list, kind) => {
            let b = if *kind == VarKind::Var { Binding::Var } else { Binding::Lexical };
            add_declarators(list, b, out);
        },
        Stmt::FunctionDecl { name, body, .. } => {
            let special = body.len() == 1 && match &body[0] {
                Stmt::GeneratorBody(_) => true,
                Stmt::AsyncBody(_) => true,
                _ => false,
            };
            proof {
                if body@.len() == 1 {
                    assert(stmt_trees(*body)[0] == body@[0].tree());
                }
            }
            let b = if special { Binding::Lexical } else { Binding::Function };
            add_name(name.as_str(), b, out);
        },
        _ => {},
    }
}

fn add_stmts(list: &Vec<Stmt>, out: &mut Vec<Declared>)
    ensures
        declared_views(final(out)@) == list_names(stmt_trees(*list), 0, declared_views(old(out)@)),
{
    let mut i: usize = 0;
    let ghost t = stmt_trees(*list);
    let ghost want = list_names(t, 0, declared_views(out@));
    while i < list.len()
        invariant
            i <= list@.len(),
            t == stmt_trees(*list),
            want == list_names(t, i as int, declared_views(out@)),
        decreases list@.len() - i,
    {
        assert(t[i as int] == list@[i as int].tree());
        add_stmt(&list[i], out);
        i += 1;
    }
}

/// Whether the clauses of a `switch` declare a name twice in a way that is not
/// allowed.
pub fn redeclares(cases: &Vec<SwitchCase>, strict: bool) -> (r: bool)
    ensures
        r == redeclared(switch_case_trees(*cases), strict),
{
    let mut list: Vec<Declared> = Vec::new();
    assert(declared_views(list@) =~= Seq::empty());
    let ghost t = switch_case_trees(*cases);
    let ghost all = case_names(t, 0, Seq::empty());
    let mut i: usize = 0;
    while i < cases.len()
        invariant
            i <= cases@.len(),
            t == switch_case_trees(*cases),
            all == case_names(t, i as int, declared_views(list@)),
        decreases cases@.len() - i,
    {
        assert(t[i as int] == cases@[i as int].tree());
        assert(t[i as int].body == stmt_trees(cases@[i as int].body));
        add_stmts(&cases[i].body, &mut list);
        i += 1;
    }
    assert(all == declared_views(list@));
    let mut k: usize = 0;
    while k < list.len()
        invariant
            k <= list@.len(),
            all == declared_views(list@),
            all == case_names(switch_case_trees(*cases), 0, Seq::empty()),
            forall|a: int, b: int| 0 <= a < b < k ==> !#[trigger] pair_excludes(all, a, b, strict),
        decreases list@.len() - k,
    {
        let mut h: usize = 0;
        while h < k
            invariant
                h <= k,
                k < list@.len(),
                all == declared_views(list@),
                all == case_names(switch_case_trees(*cases), 0, Seq::empty()),
                forall|a: int, b: int| 0 <= a < b < k ==> !#[trigger] pair_excludes(all, a, b, strict),
                forall|a: int| 0 <= a < h ==> !#[trigger] pair_excludes(all, a, k as int, strict),
            decreases k - h,
        {
            let a = list[h].binding;
            let b = list[k].binding;
            let vars = a == Binding::Var && b == Binding::Var;
            let functions = a == Binding::Function && b == Binding::Function;
            if same_text(list[h].name.as_str(), list[k].name.as_str()) && !vars && (strict || !functions) {
                assert(pair_excludes(all, h as int, k as int, strict));
                return true;
            }
            assert(!pair_excludes(all, h as int, k as int, strict));
            h += 1;
        }
        k += 1;
    }
    false
}

} // verus!
