//! Lexical environments.
//!
//! Scopes form chains through their outer links. A chain is followed for at most
//! as many links as there are cells, which is enough for every chain that ends.
use vstd::prelude::*;
use crate::assoc::Assoc;
use crate::heap::{Heap, HeapView};
use crate::value::{Cell, CellView, Env, EnvView, Value};

verus! {

/// The scope in a cell.
pub open spec fn scope_at(h: HeapView, id: usize) -> Option<EnvView> {
    if id < h.cells.len() {
        match h.cells[id as int] {
            CellView::Env(d) => Some(d),
            _ => None,
        }
    } else {
        None
    }
}

/// The enclosing scope.
pub open spec fn outer_of(h: HeapView, id: usize) -> Option<usize> {
    match scope_at(h, id) {
        Some(d) => d.outer,
        None => None,
    }
}

/// Whether a scope itself binds a name.
pub open spec fn binds(h: HeapView, id: usize, name: usize) -> bool {
    match scope_at(h, id) {
        Some(d) => d.vars.contains_key(name),
        None => false,
    }
}

/// The innermost scope of a chain that binds a name.
pub open spec fn binder(h: HeapView, env: usize, name: usize, fuel: nat) -> Option<usize>
    decreases fuel,
{
    if binds(h, env, name) {
        Some(env)
    } else if fuel == 0 {
        None
    } else {
        match outer_of(h, env) {
            Some(o) => binder(h, o, name, (fuel - 1) as nat),
            None => None,
        }
    }
}

/// The end of a chain.
pub open spec fn outermost(h: HeapView, env: usize, fuel: nat) -> usize
    decreases fuel,
{
    if fuel == 0 {
        env
    } else {
        match outer_of(h, env) {
            Some(o) => outermost(h, o, (fuel - 1) as nat),
            None => env,
        }
    }
}

/// The value of a name in a scope.
pub open spec fn lookup(h: HeapView, env: usize, name: usize) -> Option<Value> {
    match binder(h, env, name, h.cells.len()) {
        Some(e) => Some(scope_at(h, e)->0.vars[name]),
        None => None,
    }
}

/// Whether the binding of a name that a scope sees is constant.
pub open spec fn constant(h: HeapView, env: usize, name: usize) -> bool {
    match binder(h, env, name, h.cells.len()) {
        Some(e) => scope_at(h, e)->0.constants.contains_key(name),
        None => false,
    }
}

/// The scope in which `var` declarations of a scope bind.
pub open spec fn var_scope(h: HeapView, env: usize, fuel: nat) -> usize
    decreases fuel,
{
    match scope_at(h, env) {
        Some(d) => if d.is_function || fuel == 0 {
            env
        } else {
            match d.outer {
                Some(o) => var_scope(h, o, (fuel - 1) as nat),
                None => env,
            }
        },
        None => env,
    }
}

/// The heap with another scope in a cell.
pub open spec fn with_scope<'a>(h: HeapView<'a>, id: usize, d: EnvView) -> HeapView<'a> {
    HeapView { cells: h.cells.update(id as int, CellView::Env(d)), ..h }
}

/// The heap with a name bound in a scope.
pub open spec fn bound<'a>(h: HeapView<'a>, env: usize, name: usize, v: Value) -> HeapView<'a> {
    match scope_at(h, env) {
        Some(d) => with_scope(h, env, EnvView { vars: d.vars.insert(name, v), ..d }),
        None => h,
    }
}

/// The heap with a name of a scope made constant.
pub open spec fn fixed<'a>(h: HeapView<'a>, env: usize, name: usize) -> HeapView<'a> {
    match scope_at(h, env) {
        Some(d) => with_scope(h, env, EnvView { constants: d.constants.insert(name, true), ..d }),
        None => h,
    }
}

/// The heap after an assignment to a name: the innermost binding changes, and a
/// name without one is bound at the end of the chain.
pub open spec fn assigned<'a>(h: HeapView<'a>, env: usize, name: usize, v: Value) -> HeapView<'a> {
    match binder(h, env, name, h.cells.len()) {
        Some(e) => bound(h, e, name, v),
        None => bound(h, outermost(h, env, h.cells.len()), name, v),
    }
}

/// The contents of a fresh scope.
pub open spec fn fresh_scope(outer: Option<usize>, is_function: bool) -> EnvView {
    EnvView { vars: Map::empty(), constants: Map::empty(), outer, is_function }
}

/// The heap with a fresh scope, whose number is the number of cells before.
pub open spec fn with_fresh_scope<'a>(h: HeapView<'a>, outer: usize, is_function: bool) -> HeapView<'a> {
    h.plus_cell(CellView::Env(fresh_scope(Some(outer), is_function))).plus_registration(h.cells.len() as usize)
}

impl Env {
    /// The scope without an outer one.
    pub fn new_global() -> (r: Self)
        ensures
            r@ == fresh_scope(None, true),
    {
        Env { vars: Assoc::new(), constants: Assoc::new(), outer: None, is_function: true }
    }

    /// The scope of a block.
    pub fn new_block(outer: usize) -> (r: Self)
        ensures
            r@ == fresh_scope(Some(outer), false),
    {
        Env { vars: Assoc::new(), constants: Assoc::new(), outer: Some(outer), is_function: false }
    }

    /// The scope of a function call.
    pub fn new_child(outer: usize) -> (r: Self)
        ensures
            r@ == fresh_scope(Some(outer), true),
    {
        Env { vars: Assoc::new(), constants: Assoc::new(), outer: Some(outer), is_function: true }
    }
}

impl<'a> Heap<'a> {
    pub(crate) fn binds(&self, id: usize, name: usize) -> (r: bool)
        ensures
            r == binds(self@, id, name),
    {
        if id < self.cells.len() {
            assert(self@.cells[id as int] == self.cells@[id as int]@);
            match &self.cells[id] {
                Cell::Env(d) => d.vars.contains_key(name),
                _ => false,
            }
        } else {
            false
        }
    }

    fn outer_of(&self, id: usize) -> (r: Option<usize>)
        ensures
            r == outer_of(self@, id),
    {
        if id < self.cells.len() {
            assert(self@.cells[id as int] == self.cells@[id as int]@);
            match &self.cells[id] {
                Cell::Env(d) => d.outer,
                _ => None,
            }
        } else {
            None
        }
    }

    fn binder(&self, env: usize, name: usize) -> (r: Option<usize>)
        ensures
            r == binder(self@, env, name, self@.cells.len()),
    {
        let mut cur = env;
        let mut fuel: usize = self.cells.len();
        loop
            invariant
                binder(self@, env, name, self@.cells.len()) == binder(self@, cur, name, fuel as nat),
            decreases fuel,
        {
            if self.binds(cur, name) {
                return Some(cur);
            }
            if fuel == 0 {
                return None;
            }
            match self.outer_of(cur) {
                Some(o) => {
                    cur = o;
                    fuel = fuel - 1;
                },
                None => {
                    return None;
                },
            }
        }
    }

    fn outermost(&self, env: usize) -> (r: usize)
        ensures
            r == outermost(self@, env, self@.cells.len()),
    {
        let mut cur = env;
        let mut fuel: usize = self.cells.len();
        loop
            invariant
                outermost(self@, env, self@.cells.len()) == outermost(self@, cur, fuel as nat),
            decreases fuel,
        {
            if fuel == 0 {
                return cur;
            }
            match self.outer_of(cur) {
                Some(o) => {
                    cur = o;
                    fuel = fuel - 1;
                },
                None => {
                    return cur;
                },
            }
        }
    }

    /// The value of a name in a scope.
    pub fn lookup(&self, env: usize, name: usize) -> (r: Option<Value>)
        ensures
            r == lookup(self@, env, name),
    {
        match self.binder(env, name) {
            Some(e) => {
                proof {
                    lemma_binder(self@, env, name, self@.cells.len());
                }
                assert(self@.cells[e as int] == self.cells@[e as int]@);
                match &self.cells[e] {
                    Cell::Env(d) => d.vars.get(name),
                    _ => None,
                }
            },
            None => None,
        }
    }

    /// Whether the binding of a name that a scope sees is constant.
    pub fn binding_is_const(&self, env: usize, name: usize) -> (r: bool)
        ensures
            r == constant(self@, env, name),
    {
        match self.binder(env, name) {
            Some(e) => {
                proof {
                    lemma_binder(self@, env, name, self@.cells.len());
                }
                assert(self@.cells[e as int] == self.cells@[e as int]@);
                match &self.cells[e] {
                    Cell::Env(d) => d.constants.contains_key(name),
                    _ => false,
                }
            },
            None => false,
        }
    }

    /// The scope in which `var` declarations bind.
    pub fn function_scope(&self, env: usize) -> (r: usize)
        ensures
            r == var_scope(self@, env, self@.cells.len()),
    {
        let mut cur = env;
        let mut fuel: usize = self.cells.len();
        loop
            invariant
                var_scope(self@, env, self@.cells.len()) == var_scope(self@, cur, fuel as nat),
            decreases fuel,
        {
            if cur >= self.cells.len() {
                return cur;
            }
            assert(self@.cells[cur as int] == self.cells@[cur as int]@);
            match &self.cells[cur] {
                Cell::Env(d) => {
                    if d.is_function || fuel == 0 {
                        return cur;
                    }
                    match d.outer {
                        Some(o) => {
                            cur = o;
                            fuel = fuel - 1;
                        },
                        None => {
                            return cur;
                        },
                    }
                },
                _ => {
                    return cur;
                },
            }
        }
    }

    /// Binds a name in a scope.
    pub fn bind(&mut self, env: usize, name: usize, v: Value)
        ensures
            final(self)@ == bound(old(self)@, env, name, v),
    {
        let ghost before = self@;
        if env < self.cells.len() {
            assert(before.cells[env as int] == self.cells@[env as int]@);
            match &mut self.cells[env] {
                Cell::Env(d) => {
                    d.vars.insert(name, v);
                },
                _ => {},
            }
            assert(self@.cells =~= bound(before, env, name, v).cells);
        }
        assert(self@ =~= bound(before, env, name, v));
    }

    /// Makes a name of a scope constant.
    pub fn fix(&mut self, env: usize, name: usize)
        ensures
            final(self)@ == fixed(old(self)@, env, name),
    {
        let ghost before = self@;
        if env < self.cells.len() {
            assert(before.cells[env as int] == self.cells@[env as int]@);
            match &mut self.cells[env] {
                Cell::Env(d) => {
                    d.constants.insert(name, true);
                },
                _ => {},
            }
            assert(self@.cells =~= fixed(before, env, name).cells);
        }
        assert(self@ =~= fixed(before, env, name));
    }

    /// Assigns to a name.
    pub fn assign(&mut self, env: usize, name: usize, v: Value)
        ensures
            final(self)@ == assigned(old(self)@, env, name, v),
    {
        match self.binder(env, name) {
            Some(e) => self.bind(e, name, v),
            None => {
                let e = self.outermost(env);
                self.bind(e, name, v)
            },
        }
    }

    /// Allocates a scope.
    pub fn new_scope(&mut self, outer: usize, is_function: bool) -> (r: usize)
        ensures
            r == old(self)@.cells.len(),
            final(self)@ == with_fresh_scope(old(self)@, outer, is_function),
    {
        let scope = if is_function { Env::new_child(outer) } else { Env::new_block(outer) };
        self.add_managed(Cell::Env(scope))
    }
}

/// The scope that binds a name is a scope and binds it.
pub proof fn lemma_binder(h: HeapView, env: usize, name: usize, fuel: nat)
    ensures
        binder(h, env, name, fuel) matches Some(e) ==> binds(h, e, name),
    decreases fuel,
{
    if !binds(h, env, name) && fuel > 0 && outer_of(h, env) is Some {
        lemma_binder(h, outer_of(h, env)->0, name, (fuel - 1) as nat);
    }
}

} // verus!
