//! Making the values that the machine needs: errors, functions and their scopes,
//! classes, promises.
use vstd::prelude::*;
use crate::ast::{Pattern, PropKey, PropPattern, Stmt};
use crate::atoms::same_text;
use crate::engine::{Completion, Engine, EngineView};
use crate::heap::{cell_props, with_props, HeapView};
use crate::listing::{lemma_push_contains, sort_ids, sorted_ids};
use crate::names::{collect_var_names, declared_names, pattern_idents, pattern_names, var_names};
use crate::number::{double_of, from_u64};
use crate::object::array_at;
use crate::ops::{function_at, items_of};
use crate::regexp::{canonical_flags, compiled, shown_source};
use crate::store::{Store, StoreView};
use crate::text::{joined, owned, texts};
use crate::value::{Cell, CellView, Function, Object, ObjectView, Property, RegexData, RegexDataView, Value};

verus! {

/// The store with a new error object, whose number is the number of cells before.
pub open spec fn with_error<'a>(s: StoreView<'a>, proto: usize, name: usize, message: Seq<char>) -> StoreView<'a> {
    let m = s.atom(message);
    let t = s.with_text(message);
    let e = t.heap.cells.len() as usize;
    let a = t.heap.plus_cell(CellView::Object(ObjectView { props: Map::empty(), proto: Some(proto), ctor: None })).plus_registration(e);
    let b = a.plus_prop(e, s.n.error_data, Property::slot(Value::Boolean(true), true, true, true));
    let c = b.plus_prop(e, s.n.name, Property::slot(Value::String(name), true, false, true));
    t.with_heap(c.plus_prop(e, s.n.message, Property::slot(Value::String(m), true, false, true)))
}

impl<'a> Store<'a> {
    /// Makes an error object.
    pub fn make_error(&mut self, proto: usize, name: usize, message: &str) -> (r: Value)
        ensures
            r == Value::Object(old(self)@.heap.cells.len() as usize),
            final(self)@ == with_error(old(self)@, proto, name, message@),
    {
        let m = self.intern(message);
        let e = self.heap.make_object(proto);
        self.heap.insert_prop(e, self.n.error_data, Property::new(Value::Boolean(true)));
        self.heap.insert_prop(e, self.n.name, Property::method(Value::String(name)));
        self.heap.insert_prop(e, self.n.message, Property::method(Value::String(m)));
        Value::Object(e)
    }

    /// Makes a `TypeError`.
    pub fn make_type_error(&mut self, message: &str) -> (r: Value)
        ensures
            r == Value::Object(old(self)@.heap.cells.len() as usize),
            final(self)@ == with_error(old(self)@, old(self)@.b.type_error_proto, old(self)@.n.type_error, message@),
    {
        self.make_error(self.b.type_error_proto, self.n.type_error, message)
    }

    /// Makes a `RangeError`.
    pub fn make_range_error(&mut self, message: &str) -> (r: Value)
        ensures
            r == Value::Object(old(self)@.heap.cells.len() as usize),
            final(self)@ == with_error(old(self)@, old(self)@.b.range_error_proto, old(self)@.n.range_error, message@),
    {
        self.make_error(self.b.range_error_proto, self.n.range_error, message)
    }

    /// Makes a `URIError`.
    pub fn make_uri_error(&mut self, message: &str) -> (r: Value)
        ensures
            r == Value::Object(old(self)@.heap.cells.len() as usize),
            final(self)@ == with_error(old(self)@, old(self)@.b.uri_error_proto, old(self)@.n.uri_error, message@),
    {
        self.make_error(self.b.uri_error_proto, self.n.uri_error, message)
    }

    /// Makes a `SyntaxError`.
    pub fn make_syntax_error(&mut self, message: &str) -> (r: Value)
        ensures
            r == Value::Object(old(self)@.heap.cells.len() as usize),
            final(self)@ == with_error(old(self)@, old(self)@.b.syntax_error_proto, old(self)@.n.syntax_error, message@),
    {
        self.make_error(self.b.syntax_error_proto, self.n.syntax_error, message)
    }
}

/// The message about a property of `null` or `undefined`.
pub open spec fn nullish_message(verb: Seq<char>, gerund: Seq<char>, null: bool, key: Seq<char>) -> Seq<char> {
    "Cannot "@ + verb + " properties of "@ + (if null { "null"@ } else { "undefined"@ }) + " ("@ + gerund + " '"@ + key + "')"@
}

/// The engine after the function declarations among the first `n` statements are
/// bound.
pub open spec fn with_declarations<'a>(s: EngineView<'a>, list: &'a Vec<Stmt>, env: usize, n: nat) -> EngineView<'a>
    decreases n,
{
    if n == 0 || n > list@.len() {
        s
    } else {
        let t = with_declarations(s, list, env, (n - 1) as nat);
        match &list@[n - 1] {
            Stmt::FunctionDecl { name, params, body } => {
                let (u, a) = t.intern_name(name);
                let (w, f) = u.make_function(a, Some(params), body, env, None);
                w.bind(env, a, f)
            },
            _ => t,
        }
    }
}

/// The engine after the first `n` names are bound to `undefined` in a scope,
/// unless the scope binds them already.
pub open spec fn with_vars<'a>(s: EngineView<'a>, names: Seq<Seq<char>>, scope: usize, n: nat) -> EngineView<'a>
    decreases n,
{
    if n == 0 || n > names.len() {
        s
    } else {
        let t = with_vars(s, names, scope, (n - 1) as nat);
        let a = t.store.atom(names[n - 1]);
        let u = t.with_store(t.store.with_text(names[n - 1]));
        if crate::env::binds(u.store.heap, scope, a) { u } else { u.bind(scope, a, Value::Undefined) }
    }
}

/// The engine after the first `n` names are made constant in a scope.
pub open spec fn with_fixed<'a>(s: EngineView<'a>, names: Seq<Seq<char>>, env: usize, n: nat) -> EngineView<'a>
    decreases n,
{
    if n == 0 || n > names.len() {
        s
    } else {
        let t = with_fixed(s, names, env, (n - 1) as nat);
        let a = t.store.atom(names[n - 1]);
        t.with_store(t.store.with_text(names[n - 1])).fix(env, a)
    }
}

/// The engine after the first `n` names are bound in one scope to what they are in
/// another.
pub open spec fn with_copies<'a>(s: EngineView<'a>, names: Seq<Seq<char>>, from: usize, to: usize, n: nat) -> EngineView<'a>
    decreases n,
{
    if n == 0 || n > names.len() {
        s
    } else {
        let t = with_copies(s, names, from, to, (n - 1) as nat);
        let a = t.store.atom(names[n - 1]);
        let u = t.with_store(t.store.with_text(names[n - 1]));
        u.bind(to, a, match u.lookup(from, a) {
            Some(v) => v,
            None => Value::Undefined,
        })
    }
}

/// The names that a loop's `let` or `const` head declares.
pub open spec fn head_names(init: Option<Box<Stmt>>) -> Seq<Seq<char>> {
    match init {
        Some(s) => match *s {
            Stmt::Var(list, _) => declared_names(list, list@.len()),
            _ => Seq::empty(),
        },
        None => Seq::empty(),
    }
}

/// The engine after the first `n` items of a list became the numbered properties
/// of an object.
pub open spec fn with_numbered<'a>(s: EngineView<'a>, id: usize, items: Seq<Value>, n: nat) -> EngineView<'a>
    decreases n,
{
    if n == 0 || n > items.len() {
        s
    } else {
        let t = with_numbered(s, id, items, (n - 1) as nat);
        let (u, a) = t.decimal_atom((n - 1) as usize);
        u.set_field(id, a, items[n - 1])
    }
}

/// The engine after entries of an array beyond its dense prefix became numbered
/// properties of an object.
pub open spec fn with_sparse<'a>(s: EngineView<'a>, id: usize, keys: Seq<usize>, sparse: Map<usize, Value>, n: nat) -> EngineView<'a>
    decreases n,
{
    if n == 0 || n > keys.len() {
        s
    } else {
        let t = with_sparse(s, id, keys, sparse, (n - 1) as nat);
        let (u, a) = t.decimal_atom(keys[n - 1]);
        u.set_field(id, a, if sparse.contains_key(keys[n - 1]) { sparse[keys[n - 1]] } else { Value::Undefined })
    }
}

/// What copying the enumerable properties of one table into another gives.
pub open spec fn copied(from: Map<usize, Property>, to: Map<usize, Property>, skip: spec_fn(usize) -> bool) -> Map<usize, Property> {
    Map::new(
        |k: usize| to.contains_key(k) || (from.contains_key(k) && from[k].enumerable && !skip(k)),
        |k: usize| if from.contains_key(k) && from[k].enumerable && !skip(k) {
            Property::slot(from[k].value, true, true, true)
        } else {
            to[k]
        },
    )
}

/// What copying the properties with the given keys gives.
pub open spec fn copied_upto(from: Map<usize, Property>, to: Map<usize, Property>, skip: spec_fn(usize) -> bool, keys: Seq<usize>) -> Map<usize, Property> {
    Map::new(
        |k: usize| to.contains_key(k) || (keys.contains(k) && from[k].enumerable && !skip(k)),
        |k: usize| if keys.contains(k) && from[k].enumerable && !skip(k) {
            Property::slot(from[k].value, true, true, true)
        } else {
            to[k]
        },
    )
}

/// The heap with another property table in a cell.
pub open spec fn with_table<'a>(h: HeapView<'a>, id: usize, props: Map<usize, Property>) -> HeapView<'a> {
    if id < h.cells.len() { HeapView { cells: h.cells.update(id as int, with_props(h.cells[id as int], props)), ..h } } else { h }
}

/// Whether a key is among the fixed keys of the first `n` properties of a pattern.
pub open spec fn keyed(props: Vec<PropPattern>, t: Seq<char>, n: nat) -> bool
    decreases n,
{
    n > 0 && n <= props@.len() && ((match props@[n - 1].key {
        PropKey::Ident(s) => s@ == t,
        PropKey::Str(s) => s@ == t,
        PropKey::Computed(_) => false,
    }) || keyed(props, t, (n - 1) as nat))
}

fn key_matches(key: &PropKey, k: &str) -> (r: bool)
    ensures
        r == (match *key {
            PropKey::Ident(s) => s@ == k@,
            PropKey::Str(s) => s@ == k@,
            PropKey::Computed(_) => false,
        }),
{
    match key {
        PropKey::Ident(s) => same_text(s.as_str(), k),
        PropKey::Str(s) => same_text(s.as_str(), k),
        PropKey::Computed(_) => false,
    }
}

fn is_keyed(props: &Vec<PropPattern>, t: &str) -> (r: bool)
    ensures
        r == keyed(*props, t@, props@.len()),
{
    let mut i: usize = props.len();
    while i > 0
        invariant
            i <= props@.len(),
            keyed(*props, t@, props@.len()) == keyed(*props, t@, i as nat),
        decreases i,
    {
        if key_matches(&props[i - 1].key, t) {
            return true;
        }
        i -= 1;
    }
    false
}

/// The text of a regular expression.
pub open spec fn regex_text(s: StoreView, id: usize) -> Seq<char> {
    if id < s.heap.cells.len() {
        match s.heap.cells[id as int] {
            CellView::Regex(d) => "/"@ + shown_source(s.text(d.pattern)) + "/"@ + canonical_flags(s.text(d.flags)),
            _ => Seq::empty(),
        }
    } else {
        Seq::empty()
    }
}

impl<'a> EngineView<'a> {
    /// A new `TypeError`.
    pub open spec fn type_error(self, message: &str) -> (EngineView<'a>, Value) {
        (self.with_store(with_error(self.store, self.store.b.type_error_proto, self.store.n.type_error, message@)), Value::Object(self.store.heap.cells.len() as usize))
    }

    /// Throws a `TypeError`.
    pub open spec fn throw_type(self, message: &str) -> EngineView<'a> {
        let (s, e) = self.type_error(message);
        s.throw(e)
    }

    /// Throws a `RangeError`.
    pub open spec fn throw_range(self, message: &str) -> EngineView<'a> {
        self.with_store(with_error(self.store, self.store.b.range_error_proto, self.store.n.range_error, message@)).throw(Value::Object(self.store.heap.cells.len() as usize))
    }

    /// Throws a string.
    pub open spec fn throw_text(self, message: &str) -> EngineView<'a> {
        let (s, a) = self.intern(message);
        s.throw(Value::String(a))
    }

    /// Throws the string of a `ReferenceError`.
    pub open spec fn throw_reference(self, name: usize) -> EngineView<'a> {
        let (s, a) = self.affix("ReferenceError: ", name, " is not defined");
        s.throw(Value::String(a))
    }

    /// Throws the `TypeError` about a property of `null` or `undefined`.
    pub open spec fn throw_nullish(self, verb: &str, gerund: &str, base: Value, key: usize) -> EngineView<'a> {
        self.with_store(with_error(self.store, self.store.b.type_error_proto, self.store.n.type_error, nullish_message(verb@, gerund@, base is Null, self.store.text(key)))).throw(Value::Object(self.store.heap.cells.len() as usize))
    }

    /// Completes with a feature that the engine lacks.
    pub open spec fn unimplemented(self, message: &str) -> EngineView<'a> {
        let (s, a) = self.intern(message);
        s.done(Completion::Unimplemented(a))
    }

    /// The `TypeError` of a feature that an async function needs and the engine lacks.
    pub open spec fn async_missing(self, message: usize) -> (EngineView<'a>, Value) {
        (self.with_store(with_error(self.store, self.store.b.type_error_proto, self.store.n.type_error, "async is not implemented: "@ + self.store.text(message))), Value::Object(self.store.heap.cells.len() as usize))
    }

    /// The `AggregateError` of the items of a list.
    pub open spec fn aggregate_error(self, list: usize) -> (EngineView<'a>, Value) {
        let (s, errors) = self.array_from(list, 0);
        let e = s.store.heap.cells.len() as usize;
        let t = s.with_store(with_error(s.store, s.store.b.aggregate_error_proto, s.store.n.aggregate_error, "All promises were rejected"@));
        (t.put_prop(e, t.store.n.errors, Property::slot(Value::Array(errors), true, false, true)), Value::Object(e))
    }

    /// Binds the function declarations of a statement list in a scope, and its `var`
    /// names in the function's scope.
    #[verifier::opaque]
    pub open spec fn hoist(self, list: &'a Vec<Stmt>, env: usize) -> EngineView<'a> {
        let s = with_declarations(self, list, env, list@.len());
        with_vars(s, var_names(*list), s.function_scope(env), var_names(*list).len())
    }

    /// Makes the names of a pattern constant.
    pub open spec fn mark_const(self, pat: &'a Pattern, env: usize) -> EngineView<'a> {
        with_fixed(self, pattern_names(*pat), env, pattern_names(*pat).len())
    }

    /// A fresh scope with copies of a loop's own bindings, or the loop's scope where
    /// it has none.
    pub open spec fn snapshot(self, init: &'a Option<Box<Stmt>>, env: usize) -> (EngineView<'a>, usize) {
        let names = head_names(*init);
        if names.len() == 0 {
            (self, env)
        } else {
            let (s, e) = self.new_scope(env, false);
            (with_copies(s, names, env, e, names.len()), e)
        }
    }

    /// The `arguments` object of a call.
    pub open spec fn arguments_object(self, list: usize) -> (EngineView<'a>, Value) {
        let items = items_of(self.store.heap, list);
        let (s, o) = self.new_object();
        (with_numbered(s, o, items, items.len()).set_field(o, self.store.n.length, Value::Number(double_of(items.len() as usize as nat) as u64)), Value::Object(o))
    }

    /// Binds `this`, the parent object and constructor, and `arguments` in the scope
    /// of a call.
    pub open spec fn finish_env(self, func: usize, this: Value, list: usize, env: usize) -> EngineView<'a> {
        match function_at(self.store.heap, func) {
            Some(d) => {
                let s = self.bind(env, self.store.n.this, match d.this_capture {
                    Some(v) => v,
                    None => this,
                });
                let t = match d.super_proto {
                    Some(p) => s.bind(env, s.store.n.super_object, Value::Object(p)),
                    None => s,
                };
                let u = match d.super_ctor {
                    Some(c) => t.bind(env, t.store.n.super_ctor, c),
                    None => t,
                };
                let (w, args) = u.arguments_object(list);
                w.bind(env, w.store.n.arguments, args)
            },
            None => self,
        }
    }

    /// The generator object of a call.
    pub open spec fn make_generator_object(self, func: usize, this: Value, list: usize) -> (EngineView<'a>, Value) {
        let (s, o) = self.make_object(self.store.b.generator_prototype);
        let n = self.store.n;
        let t = s.set_field(o, n.gen_fn, Value::Function(func)).set_field(o, n.gen_this, this);
        let (u, a) = t.array_from(list, 0);
        (u.set_field(o, n.gen_args, Value::Array(a)).set_field(o, n.gen_started, Value::Boolean(false)).set_field(o, n.gen_values, Value::Undefined).set_field(o, n.gen_index, Value::Number(0)), Value::Object(o))
    }

    /// The object that destructuring reads from: an object itself, an array as a copy
    /// with numbered properties, nothing for other values.
    pub open spec fn object_of(self, v: Value) -> (EngineView<'a>, Option<usize>) {
        match v {
            Value::Object(o) => (self, Some(o)),
            Value::Array(a) => {
                let d = match array_at(self.store.heap, a) {
                    Some(d) => d,
                    None => crate::ops::list_data(Seq::empty()),
                };
                let (s, o) = self.loose_object();
                let t = with_numbered(s, o, d.elems, d.elems.len());
                let keys = sorted_ids(d.sparse.dom());
                (with_sparse(t, o, keys, d.sparse, keys.len()).set_field(o, self.store.n.length, Value::Number(double_of(d.length as nat) as u64)), Some(o))
            },
            _ => (self, None),
        }
    }

    /// Copies the enumerable own properties of a cell into another, but for the slot
    /// of a wrapped primitive.
    pub open spec fn spread_into(self, from: usize, to: usize) -> EngineView<'a> {
        let n = self.store.n;
        self.with_heap(with_table(self.store.heap, to, copied(self.store.heap.props(from), self.store.heap.props(to), |k: usize| k == n.boxed)))
    }

    /// A new object of the enumerable own properties that a pattern's fixed keys do
    /// not name.
    pub open spec fn rest_object(self, from: usize, props: &'a Vec<PropPattern>) -> (EngineView<'a>, usize) {
        let (s, o) = self.loose_object();
        let st = self.store;
        (s.with_heap(with_table(s.store.heap, o, copied(self.store.heap.props(from), Map::empty(), |k: usize| keyed(*props, st.text(k), props@.len())))), o)
    }

    /// Defines a getter or setter, keeping what an accessor there already has.
    pub open spec fn accessor(self, id: usize, key: usize, get: Option<Value>, set: Option<Value>) -> EngineView<'a> {
        let (g, t) = match self.own_prop(id, key) {
            Some(p) => if p.has_accessor() {
                (if p.get is Some { p.get } else { get }, if p.set is Some { p.set } else { set })
            } else {
                (get, set)
            },
            None => (get, set),
        };
        self.put_prop(id, key, Property { value: Value::Undefined, writable: false, enumerable: true, configurable: true, get: g, set: t })
    }

    /// A new regular expression.
    pub open spec fn new_regex(self, pattern: &'a String, flags: &'a String) -> (EngineView<'a>, Value) {
        let (s, p) = self.intern_name(pattern);
        let (t, f) = s.intern_name(flags);
        (t.with_heap(t.store.heap.plus_cell(CellView::Regex(RegexDataView {
            pattern: p,
            flags: f,
            re: match compiled(t.store.text(p), t.store.text(f)) {
                Ok(re) => Some(re),
                Err(_) => None,
            },
            last_index: 0,
        }))), Value::Regex(t.store.heap.cells.len() as usize))
    }

    /// The atom of the text of a regular expression.
    pub open spec fn regex_atom(self, id: usize) -> (EngineView<'a>, usize) {
        (self.with_store(self.store.with_text(regex_text(self.store, id))), self.store.atom(regex_text(self.store, id)))
    }

    /// The atom of the text of a symbol.
    pub open spec fn symbol_atom(self, id: usize) -> (EngineView<'a>, usize) {
        let d = if self.symbols.contains_key(id) { self.store.text(self.symbols[id]) } else { Seq::empty() };
        (self.with_store(self.store.with_text("Symbol("@ + d + ")"@)), self.store.atom("Symbol("@ + d + ")"@))
    }
}

impl<'a> Engine<'a> {
    /// A new `TypeError`.
    pub(crate) fn type_error(&mut self, message: &str) -> (res: Value)
        ensures
            (final(self)@, res) == old(self)@.type_error(message),
    {
        self.store.make_type_error(message)
    }

    /// Throws a `TypeError`.
    pub(crate) fn throw_type(&mut self, message: &str)
        ensures
            final(self)@ == old(self)@.throw_type(message),
    {
        let e = self.type_error(message);
        self.throw(e);
    }

    /// Throws a `RangeError`.
    pub(crate) fn throw_range(&mut self, message: &str)
        ensures
            final(self)@ == old(self)@.throw_range(message),
    {
        let e = self.store.make_range_error(message);
        self.throw(e);
    }

    /// Throws a string.
    pub(crate) fn throw_text(&mut self, message: &str)
        ensures
            final(self)@ == old(self)@.throw_text(message),
    {
        let a = self.intern(message);
        self.throw(Value::String(a));
    }

    /// Throws the string of a `ReferenceError`.
    pub(crate) fn throw_reference(&mut self, name: usize)
        ensures
            final(self)@ == old(self)@.throw_reference(name),
    {
        let a = self.affix("ReferenceError: ", name, " is not defined");
        self.throw(Value::String(a));
    }

    /// Throws the `TypeError` about a property of `null` or `undefined`.
    pub(crate) fn throw_nullish(&mut self, verb: &str, gerund: &str, base: Value, key: usize)
        ensures
            final(self)@ == old(self)@.throw_nullish(verb, gerund, base, key),
    {
        let a = joined("Cannot ", verb);
        let b = joined(a.as_str(), " properties of ");
        let c = joined(b.as_str(), if matches!(base, Value::Null) { "null" } else { "undefined" });
        let d = joined(c.as_str(), " (");
        let e = joined(d.as_str(), gerund);
        let f = joined(e.as_str(), " '");
        let g = joined(f.as_str(), self.store.heap.atoms.text(key));
        let h = joined(g.as_str(), "')");
        let err = self.type_error(h.as_str());
        self.throw(err);
    }

    /// Completes with a feature that the engine lacks.
    pub(crate) fn unimplemented(&mut self, message: &str)
        ensures
            final(self)@ == old(self)@.unimplemented(message),
    {
        let a = self.intern(message);
        self.done(Completion::Unimplemented(a));
    }

    /// The `TypeError` of a feature that an async function needs and the engine lacks.
    pub(crate) fn async_missing(&mut self, message: usize) -> (res: Value)
        ensures
            (final(self)@, res) == old(self)@.async_missing(message),
    {
        let t = joined("async is not implemented: ", self.store.heap.atoms.text(message));
        self.type_error(t.as_str())
    }

    /// The `AggregateError` of the items of a list.
    pub(crate) fn aggregate_error(&mut self, list: usize) -> (res: Value)
        ensures
            (final(self)@, res) == old(self)@.aggregate_error(list),
    {
        let errors = self.array_from(list, 0);
        let r = self.store.make_error(self.store.b.aggregate_error_proto, self.store.n.aggregate_error, "All promises were rejected");
        match r {
            Value::Object(e) => {
                self.put_prop(e, self.store.n.errors, Property::method(Value::Array(errors)));
            },
            _ => {},
        }
        r
    }

    /// Binds the function declarations of a statement list in a scope, and its `var`
    /// names in the function's scope.
    pub(crate) fn hoist(&mut self, list: &'a Vec<Stmt>, env: usize)
        ensures
            final(self)@ == old(self)@.hoist(list, env),
    {
        reveal(EngineView::hoist);
        let ghost before = self@;
        let mut i: usize = 0;
        while i < list.len()
            invariant
                i <= list@.len(),
                self@ == with_declarations(before, list, env, i as nat),
            decreases list@.len() - i,
        {
            match &list[i] {
                Stmt::FunctionDecl { name, params, body } => {
                    let a = self.intern_name(name);
                    let f = self.make_function(a, Some(params), body, env, None);
                    self.bind(env, a, f);
                },
                _ => {},
            }
            i += 1;
        }
        let ghost mid = self@;
        let scope = self.function_scope(env);
        let names = collect_var_names(list);
        assert(names@.len() == texts(names@).len());
        let mut i: usize = 0;
        while i < names.len()
            invariant
                i <= names@.len(),
                self@ == with_vars(mid, texts(names@), scope, i as nat),
            decreases names@.len() - i,
        {
            assert(texts(names@)[i as int] == names@[i as int]@);
            let a = self.store.intern(names[i].as_str());
            if !self.store.heap.binds(scope, a) {
                self.bind(scope, a, Value::Undefined);
            }
            i += 1;
        }
    }

    /// Makes the names of a pattern constant.
    pub(crate) fn mark_const(&mut self, pat: &'a Pattern, env: usize)
        ensures
            final(self)@ == old(self)@.mark_const(pat, env),
    {
        let ghost before = self@;
        let mut names: Vec<String> = Vec::new();
        assert(texts(names@) =~= Seq::<Seq<char>>::empty());
        pattern_idents(pat, &mut names);
        assert(texts(names@) =~= pattern_names(*pat));
        assert(names@.len() == texts(names@).len());
        let mut i: usize = 0;
        while i < names.len()
            invariant
                i <= names@.len(),
                self@ == with_fixed(before, texts(names@), env, i as nat),
            decreases names@.len() - i,
        {
            assert(texts(names@)[i as int] == names@[i as int]@);
            let a = self.store.intern(names[i].as_str());
            self.fix(env, a);
            i += 1;
        }
    }

    /// A fresh scope with copies of a loop's own bindings, or the loop's scope where
    /// it has none.
    pub(crate) fn snapshot(&mut self, init: &'a Option<Box<Stmt>>, env: usize) -> (res: usize)
        ensures
            (final(self)@, res) == old(self)@.snapshot(init, env),
    {
        let mut names: Vec<String> = Vec::new();
        assert(texts(names@) =~= Seq::<Seq<char>>::empty());
        match init {
            Some(s) => match &**s {
                Stmt::Var(list, _) => {
                    crate::names::declared_idents(list, &mut names);
                },
                _ => {},
            },
            None => {},
        }
        assert(texts(names@) =~= head_names(*init));
        assert(names@.len() == texts(names@).len());
        if names.len() == 0 {
            return env;
        }
        let e = self.new_scope(env, false);
        let ghost mid = self@;
        let mut i: usize = 0;
        while i < names.len()
            invariant
                i <= names@.len(),
                self@ == with_copies(mid, texts(names@), env, e, i as nat),
            decreases names@.len() - i,
        {
            assert(texts(names@)[i as int] == names@[i as int]@);
            let a = self.store.intern(names[i].as_str());
            let v = match self.lookup(env, a) {
                Some(v) => v,
                None => Value::Undefined,
            };
            self.bind(e, a, v);
            i += 1;
        }
        e
    }

    /// The `arguments` object of a call.
    pub(crate) fn arguments_object(&mut self, list: usize) -> (res: Value)
        ensures
            (final(self)@, res) == old(self)@.arguments_object(list),
    {
        let items = self.store.heap.list_items(list, 0);
        assert(items@ =~= items_of(self@.store.heap, list));
        let o = self.new_object();
        let ghost mid = self@;
        let mut i: usize = 0;
        while i < items.len()
            invariant
                i <= items@.len(),
                self@ == with_numbered(mid, o, items@, i as nat),
                self@.store.n == mid.store.n,
            decreases items@.len() - i,
        {
            let a = self.decimal_atom(i);
            self.set_field(o, a, items[i]);
            i += 1;
        }
        let n = items.len();
        self.set_field(o, self.store.n.length, Value::Number(from_u64(n as u64)));
        Value::Object(o)
    }

    /// Binds `this`, the parent object and constructor, and `arguments` in the scope
    /// of a call.
    pub(crate) fn finish_env(&mut self, func: usize, this: Value, list: usize, env: usize)
        ensures
            final(self)@ == old(self)@.finish_env(func, this, list, env),
    {
        match self.function(func) {
            Some(d) => {
                self.bind(env, self.store.n.this, match d.this_capture {
                    Some(v) => v,
                    None => this,
                });
                match d.super_proto {
                    Some(p) => {
                        self.bind(env, self.store.n.super_object, Value::Object(p));
                    },
                    None => {},
                }
                match d.super_ctor {
                    Some(c) => {
                        self.bind(env, self.store.n.super_ctor, c);
                    },
                    None => {},
                }
                let args = self.arguments_object(list);
                self.bind(env, self.store.n.arguments, args);
            },
            None => {},
        }
    }

    /// The generator object of a call.
    pub(crate) fn make_generator_object(&mut self, func: usize, this: Value, list: usize) -> (res: Value)
        ensures
            (final(self)@, res) == old(self)@.make_generator_object(func, this, list),
    {
        let n = self.store.n;
        let o = self.make_object(self.store.b.generator_prototype);
        self.set_field(o, n.gen_fn, Value::Function(func));
        self.set_field(o, n.gen_this, this);
        let a = self.array_from(list, 0);
        self.set_field(o, n.gen_args, Value::Array(a));
        self.set_field(o, n.gen_started, Value::Boolean(false));
        self.set_field(o, n.gen_values, Value::Undefined);
        self.set_field(o, n.gen_index, Value::Number(0));
        Value::Object(o)
    }

    /// The object that destructuring reads from: an object itself, an array as a copy
    /// with numbered properties, nothing for other values.
    pub(crate) fn object_of(&mut self, v: Value) -> (res: Option<usize>)
        ensures
            (final(self)@, res) == old(self)@.object_of(v),
    {
        match v {
            Value::Object(o) => Some(o),
            Value::Array(a) => {
                let ghost d = match array_at(self@.store.heap, a) {
                    Some(d) => d,
                    None => crate::ops::list_data(Seq::empty()),
                };
                let items = self.store.heap.list_items(a, 0);
                assert(items@ =~= d.elems);
                let length = self.store.heap.array_length(a);
                let keys = self.store.heap.sparse_keys(a);
                assert(keys@ == sorted_ids(d.sparse.dom()));
                let values = self.store.heap.sparse_values(a, &keys);
                let o = self.loose_object();
                let ghost start = self@;
                let mut i: usize = 0;
                while i < items.len()
                    invariant
                        i <= items@.len(),
                        self@ == with_numbered(start, o, items@, i as nat),
                        self@.store.n == start.store.n,
                    decreases items@.len() - i,
                {
                    let k = self.decimal_atom(i);
                    self.set_field(o, k, items[i]);
                    i += 1;
                }
                let ghost mid = self@;
                let mut i: usize = 0;
                while i < keys.len()
                    invariant
                        i <= keys@.len(),
                        values@.len() == keys@.len(),
                        forall|j: int| 0 <= j < keys@.len() ==> #[trigger] values@[j] == (if d.sparse.contains_key(keys@[j]) { d.sparse[keys@[j]] } else { Value::Undefined }),
                        self@ == with_sparse(mid, o, keys@, d.sparse, i as nat),
                        self@.store.n == start.store.n,
                    decreases keys@.len() - i,
                {
                    let k = self.decimal_atom(keys[i]);
                    self.set_field(o, k, values[i]);
                    i += 1;
                }
                self.set_field(o, self.store.n.length, Value::Number(from_u64(length as u64)));
                Some(o)
            },
            _ => None,
        }
    }

    /// Copies the enumerable own properties of a cell into another, but for the slot
    /// of a wrapped primitive.
    pub(crate) fn spread_into(&mut self, from: usize, to: usize)
        ensures
            final(self)@ == old(self)@.spread_into(from, to),
    {
        let keys = self.store.heap.prop_keys(from);
        let ghost skip = |k: usize| k == old(self)@.store.n.boxed;
        let mut taken: Vec<bool> = Vec::new();
        let mut i: usize = 0;
        while i < keys.len()
            invariant
                i <= keys@.len(),
                taken@.len() == i,
                self@ == old(self)@,
                skip == (|k: usize| k == old(self)@.store.n.boxed),
                forall|j: int| 0 <= j < i ==> #[trigger] taken@[j] == !skip(keys@[j]),
            decreases keys@.len() - i,
        {
            taken.push(keys[i] != self.store.n.boxed);
            i += 1;
        }
        self.store.heap.copy_props(from, to, &keys, &taken, Ghost(skip));
    }

    /// A new object of the enumerable own properties that a pattern's fixed keys do
    /// not name.
    pub(crate) fn rest_object(&mut self, from: usize, props: &'a Vec<PropPattern>) -> (res: usize)
        ensures
            (final(self)@, res) == old(self)@.rest_object(from, props),
    {
        let ghost before = self@;
        let keys = self.store.heap.prop_keys(from);
        let ghost skip = |k: usize| keyed(*props, before.store.text(k), props@.len());
        let mut taken: Vec<bool> = Vec::new();
        let mut i: usize = 0;
        while i < keys.len()
            invariant
                i <= keys@.len(),
                taken@.len() == i,
                self@ == before,
                skip == (|k: usize| keyed(*props, before.store.text(k), props@.len())),
                forall|j: int| 0 <= j < i ==> #[trigger] taken@[j] == !skip(keys@[j]),
            decreases keys@.len() - i,
        {
            taken.push(!is_keyed(props, self.store.heap.atoms.text(keys[i])));
            i += 1;
        }
        let count = self.store.heap.cells.len();
        let o = self.loose_object();
        proof {
            assert(o == count);
            assert(self@.store.heap.props(from) =~= before.store.heap.props(from));
            assert(self@.store.heap.props(o) =~= Map::<usize, Property>::empty());
        }
        self.store.heap.copy_props(from, o, &keys, &taken, Ghost(skip));
        o
    }

    /// Defines a getter or setter, keeping what an accessor there already has.
    pub(crate) fn accessor(&mut self, id: usize, key: usize, get: Option<Value>, set: Option<Value>)
        ensures
            final(self)@ == old(self)@.accessor(id, key, get, set),
    {
        let mut g = get;
        let mut t = set;
        match self.own_prop(id, key) {
            Some(p) => if p.is_accessor() {
                if p.get.is_some() {
                    g = p.get;
                }
                if p.set.is_some() {
                    t = p.set;
                }
            },
            None => {},
        }
        self.put_prop(id, key, Property::accessor(g, t));
    }

    /// A new regular expression.
    pub(crate) fn new_regex(&mut self, pattern: &'a String, flags: &'a String) -> (res: Value)
        ensures
            (final(self)@, res) == old(self)@.new_regex(pattern, flags),
    {
        let p = self.intern_name(pattern);
        let f = self.intern_name(flags);
        let d = RegexData::new(&self.store.heap.atoms, p, f);
        Value::Regex(self.store.heap.add_cell(Cell::Regex(d)))
    }

    /// The atom of the text of a regular expression.
    pub(crate) fn regex_atom(&mut self, id: usize) -> (res: usize)
        ensures
            (final(self)@, res) == old(self)@.regex_atom(id),
    {
        let t: String = if id < self.store.heap.cells.len() {
            assert(self@.store.heap.cells[id as int] == self.store.heap.cells@[id as int]@);
            match &self.store.heap.cells[id] {
                Cell::Regex(d) => {
                    let src = d.source(&self.store.heap.atoms);
                    let flags = d.flag_string(&self.store.heap.atoms);
                    let a = joined("/", src.as_str());
                    let b = joined(a.as_str(), "/");
                    joined(b.as_str(), flags.as_str())
                },
                _ => String::new(),
            }
        } else {
            String::new()
        };
        assert(t@ =~= regex_text(self@.store, id));
        self.store.intern(t.as_str())
    }

    /// The atom of the text of a symbol.
    pub(crate) fn symbol_atom(&mut self, id: usize) -> (res: usize)
        ensures
            (final(self)@, res) == old(self)@.symbol_atom(id),
    {
        let d: String = match self.symbols.get(id) {
            Some(a) => owned(self.store.heap.atoms.text(a)),
            None => String::new(),
        };
        assert(d@ =~= (if self@.symbols.contains_key(id) { self@.store.text(self@.symbols[id]) } else { Seq::empty() }));
        let a = joined("Symbol(", d.as_str());
        let t = joined(a.as_str(), ")");
        self.store.intern(t.as_str())
    }
}

impl<'a> crate::heap::Heap<'a> {
    /// The indices of an array's entries beyond its dense prefix, ascending.
    pub(crate) fn sparse_keys(&self, a: usize) -> (r: Vec<usize>)
        ensures
            r@ == sorted_ids((match array_at(self@, a) {
                Some(d) => d.sparse,
                None => Map::empty(),
            }).dom()),
    {
        let keys: Vec<usize> = if a < self.cells.len() {
            assert(self@.cells[a as int] == self.cells@[a as int]@);
            match &self.cells[a] {
                Cell::Array(d) => {
                    let keys = d.sparse.keys();
                    assert(keys@.to_set() =~= d@.sparse.dom());
                    keys
                },
                _ => {
                    let keys: Vec<usize> = Vec::new();
                    assert(keys@.to_set() =~= Map::<usize, Value>::empty().dom());
                    keys
                },
            }
        } else {
            let keys: Vec<usize> = Vec::new();
            assert(keys@.to_set() =~= Map::<usize, Value>::empty().dom());
            keys
        };
        sort_ids(&keys)
    }

    /// The values of an array's entries beyond its dense prefix.
    pub(crate) fn sparse_values(&self, a: usize, keys: &Vec<usize>) -> (r: Vec<Value>)
        ensures
            r@.len() == keys@.len(),
            forall|j: int| 0 <= j < keys@.len() ==> #[trigger] r@[j] == ({
                let sparse = (match array_at(self@, a) {
                    Some(d) => d.sparse,
                    None => Map::empty(),
                });
                if sparse.contains_key(keys@[j]) { sparse[keys@[j]] } else { Value::Undefined }
            }),
    {
        let ghost sparse = match array_at(self@, a) {
            Some(d) => d.sparse,
            None => Map::empty(),
        };
        let mut out: Vec<Value> = Vec::new();
        let mut i: usize = 0;
        while i < keys.len()
            invariant
                i <= keys@.len(),
                out@.len() == i,
                sparse == (match array_at(self@, a) {
                    Some(d) => d.sparse,
                    None => Map::empty(),
                }),
                forall|j: int| 0 <= j < i ==> #[trigger] out@[j] == (if sparse.contains_key(keys@[j]) { sparse[keys@[j]] } else { Value::Undefined }),
            decreases keys@.len() - i,
        {
            let mut v = Value::Undefined;
            if a < self.cells.len() {
                assert(self@.cells[a as int] == self.cells@[a as int]@);
                match &self.cells[a] {
                    Cell::Array(d) => match d.sparse.get(keys[i]) {
                        Some(x) => {
                            v = x;
                        },
                        None => {},
                    },
                    _ => {},
                }
            }
            out.push(v);
            i += 1;
        }
        out
    }

    /// Copies the enumerable own properties with the given keys from one cell to
    /// another.
    pub(crate) fn copy_props(&mut self, from: usize, to: usize, keys: &Vec<usize>, taken: &Vec<bool>, skip: Ghost<spec_fn(usize) -> bool>)
        requires
            keys@.len() == taken@.len(),
            forall|k: usize| keys@.contains(k) <==> old(self)@.props(from).contains_key(k),
            forall|j: int| 0 <= j < keys@.len() ==> #[trigger] taken@[j] == !skip@(keys@[j]),
        ensures
            final(self)@ == with_table(old(self)@, to, copied(old(self)@.props(from), old(self)@.props(to), skip@)),
    {
        let ghost h = self@;
        let ghost source = h.props(from);
        let mut slots: Vec<Option<Value>> = Vec::new();
        let mut i: usize = 0;
        while i < keys.len()
            invariant
                i <= keys@.len(),
                keys@.len() == taken@.len(),
                slots@.len() == i,
                self@ == h,
                source == h.props(from),
                forall|k: usize| keys@.contains(k) <==> source.contains_key(k),
                forall|j: int| 0 <= j < keys@.len() ==> #[trigger] taken@[j] == !skip@(keys@[j]),
                forall|j: int| 0 <= j < i ==> #[trigger] slots@[j] == (if source[keys@[j]].enumerable && !skip@(keys@[j]) { Some(source[keys@[j]].value) } else { None }),
            decreases keys@.len() - i,
        {
            assert(keys@.contains(keys@[i as int]));
            let mut v: Option<Value> = None;
            match self.get_prop(from, keys[i]) {
                Some(p) => if p.enumerable && taken[i] {
                    v = Some(p.value);
                },
                None => {},
            }
            slots.push(v);
            i += 1;
        }
        let ghost target = h.props(to);
        let mut i: usize = 0;
        proof {
            assert(keys@.take(0) =~= Seq::<usize>::empty());
            assert(copied_upto(source, target, skip@, keys@.take(0)) =~= target);
            lemma_own_table(h, to);
        }
        while i < keys.len()
            invariant
                i <= keys@.len(),
                slots@.len() == keys@.len(),
                source == h.props(from),
                target == h.props(to),
                forall|j: int| 0 <= j < keys@.len() ==> #[trigger] slots@[j] == (if source[keys@[j]].enumerable && !skip@(keys@[j]) { Some(source[keys@[j]].value) } else { None }),
                self@ == with_table(h, to, copied_upto(source, target, skip@, keys@.take(i as int))),
            decreases keys@.len() - i,
        {
            let ghost seen = keys@.take(i as int);
            let k = keys[i];
            match slots[i] {
                Some(v) => {
                    self.insert_prop(to, k, Property::new(v));
                },
                None => {},
            }
            i += 1;
            proof {
                assert(keys@.take(i as int) =~= seen.push(k));
                lemma_copied_upto(source, target, skip@, seen, k);
                let was = copied_upto(source, target, skip@, seen);
                let now = copied_upto(source, target, skip@, keys@.take(i as int));
                if slots@[i - 1] is Some {
                    let p = Property::slot(slots@[i - 1]->0, true, true, true);
                    assert(now =~= was.insert(k, Property::slot(slots@[i - 1]->0, true, true, true)));
                } else {
                    assert(now =~= was);
                }
                lemma_table_insert(h, to, was, k, slots@[i - 1]);
            }
        }
        proof {
            assert(keys@.take(i as int) =~= keys@);
            assert forall|k: usize| #[trigger] source.contains_key(k) == keys@.contains(k) by {}
            assert(copied_upto(source, target, skip@, keys@.take(i as int)) =~= copied(source, target, skip@));
        }
    }
}

/// Copying the property with one more key.
proof fn lemma_copied_upto(from: Map<usize, Property>, to: Map<usize, Property>, skip: spec_fn(usize) -> bool, seen: Seq<usize>, k: usize)
    ensures
        copied_upto(from, to, skip, seen.push(k)) == (if from[k].enumerable && !skip(k) {
            copied_upto(from, to, skip, seen).insert(k, Property::slot(from[k].value, true, true, true))
        } else {
            copied_upto(from, to, skip, seen)
        }),
{
    let a = copied_upto(from, to, skip, seen.push(k));
    let b = if from[k].enumerable && !skip(k) {
        copied_upto(from, to, skip, seen).insert(k, Property::slot(from[k].value, true, true, true))
    } else {
        copied_upto(from, to, skip, seen)
    };
    assert forall|x: usize| #[trigger] a.dom().contains(x) == b.dom().contains(x) by {
        lemma_push_contains(seen, k, x);
    }
    assert forall|x: usize| a.dom().contains(x) implies #[trigger] a[x] == b[x] by {
        lemma_push_contains(seen, k, x);
    }
    assert(a.dom() =~= b.dom());
    assert(a =~= b);
}

/// A cell with its own table is itself.
proof fn lemma_own_table<'a>(h: HeapView<'a>, id: usize)
    ensures
        with_table(h, id, h.props(id)) == h,
{
    if id < h.cells.len() {
        let c = h.cells[id as int];
        assert(with_props(c, cell_props(c)) == c);
        assert(with_table(h, id, h.props(id)).cells =~= h.cells);
    }
}

/// Binding one more slot in a replaced table.
proof fn lemma_table_insert<'a>(h: HeapView<'a>, id: usize, props: Map<usize, Property>, k: usize, v: Option<Value>)
    ensures
        v matches Some(x) ==> with_table(h, id, props).plus_prop(id, k, Property::slot(x, true, true, true)) == with_table(h, id, props.insert(k, Property::slot(x, true, true, true))),
{
    if id < h.cells.len() && v is Some {
        let p = Property::slot(v->0, true, true, true);
        let a = with_table(h, id, props).plus_prop(id, k, p);
        let b = with_table(h, id, props.insert(k, p));
        assert(a.cells =~= b.cells);
        assert(a =~= b);
    }
}

} // verus!
