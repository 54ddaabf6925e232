//! The operations that the machine's transitions are made of.
use vstd::prelude::*;
use crate::assoc::Assoc;
use crate::ast::{Pattern, Stmt};
use crate::convert::truthy;
use crate::engine::{Completion, Engine, EngineView, Frame, Request};
use crate::env::{assigned, bound, constant, fixed, lookup, var_scope, with_fresh_scope};
use crate::heap::HeapView;
use crate::number::{double_of, from_u64, NAN};
use crate::object::{array_at, element, instance_prototype, property, raw_property, Read};
use crate::object_write::{with_array, with_number, written, Write};
use crate::own::{deleted, found_in, with_field, with_new_object, Deletion};
use crate::store::{Builtins, Names, StoreView};
use crate::text::{chars_of, decimal, decimal_text, joined};
use crate::value::{
    ArrayData, ArrayDataView, Body, Cell, CellView, CtorRef, Function, FunctionView, Object, ObjectView, Property, Value,
};

verus! {

/// The contents of a list cell: an array that only the machine knows.
pub open spec fn list_data(items: Seq<Value>) -> ArrayDataView {
    ArrayDataView { elems: items, sparse: Map::empty(), length: items.len() as usize, proto: None, props: Map::empty() }
}

/// An array with values added behind its dense prefix.
pub open spec fn extended(d: ArrayDataView, items: Seq<Value>) -> ArrayDataView {
    ArrayDataView { elems: d.elems + items, length: (d.elems + items).len() as usize, ..d }
}

/// The heap with values added to a list.
pub open spec fn with_items<'a>(h: HeapView<'a>, list: usize, items: Seq<Value>) -> HeapView<'a> {
    match array_at(h, list) {
        Some(d) => with_array(h, list, extended(d, items)),
        None => h,
    }
}

/// The elements of an array up to its length, holes as `undefined`.
pub open spec fn streamed(d: ArrayDataView) -> Seq<Value> {
    Seq::new(d.length as nat, |i: int| match element(d, i as usize) {
        Some(v) => v,
        None => Value::Undefined,
    })
}

/// The values that iterating over an array's own storage gives: the dense prefix
/// alone where nothing lies beyond it.
pub open spec fn stored_items(d: ArrayDataView) -> Seq<Value> {
    if d.sparse == Map::<usize, Value>::empty() { d.elems } else { streamed(d) }
}

/// The elements of a cell's dense prefix.
pub open spec fn items_of(h: HeapView, list: usize) -> Seq<Value> {
    match array_at(h, list) {
        Some(d) => d.elems,
        None => Seq::empty(),
    }
}

/// The store with a string for each of the first `n` characters of a text added to
/// a list.
pub open spec fn with_chars<'a>(s: StoreView<'a>, list: usize, text: Seq<char>, n: nat) -> StoreView<'a>
    decreases n,
{
    if n == 0 || n > text.len() {
        s
    } else {
        let t = with_chars(s, list, text, (n - 1) as nat);
        let c = seq![text[n - 1]];
        let u = t.with_text(c);
        u.with_heap(with_items(u.heap, list, seq![Value::String(t.atom(c))]))
    }
}

/// The heap with a registered array.
pub open spec fn with_new_array<'a>(s: StoreView<'a>, items: Seq<Value>) -> StoreView<'a> {
    s.with_heap(s.heap.plus_cell(CellView::Array(ArrayDataView {
        elems: items,
        sparse: Map::empty(),
        length: items.len() as usize,
        proto: Some(s.b.array_prototype),
        props: Map::empty(),
    })).plus_registration(s.heap.cells.len() as usize))
}

/// The store with an array `[key, value]` for each of the first `n` entries added
/// to a list.
pub open spec fn with_entries<'a>(s: StoreView<'a>, list: usize, entries: Seq<(Value, Value)>, n: nat) -> StoreView<'a>
    decreases n,
{
    if n == 0 || n > entries.len() {
        s
    } else {
        let t = with_entries(s, list, entries, (n - 1) as nat);
        let u = with_new_array(t, seq![entries[n - 1].0, entries[n - 1].1]);
        u.with_heap(with_items(u.heap, list, seq![Value::Array(t.heap.cells.len() as usize)]))
    }
}

/// The entries of a map cell.
pub open spec fn map_entries(h: HeapView, m: usize) -> Seq<(Value, Value)> {
    if m < h.cells.len() {
        match h.cells[m as int] {
            CellView::MapCell(d) => d.entries,
            _ => Seq::empty(),
        }
    } else {
        Seq::empty()
    }
}

/// The entries of a set cell.
pub open spec fn set_entries(h: HeapView, m: usize) -> Seq<Value> {
    if m < h.cells.len() {
        match h.cells[m as int] {
            CellView::SetCell(d) => d.entries,
            _ => Seq::empty(),
        }
    } else {
        Seq::empty()
    }
}

/// The function in a cell.
pub open spec fn function_at<'a>(h: HeapView<'a>, id: usize) -> Option<FunctionView<'a>> {
    if id < h.cells.len() {
        match h.cells[id as int] {
            CellView::Function(d) => Some(d),
            _ => None,
        }
    } else {
        None
    }
}

/// What calls of a function value depend on.
#[derive(Clone, Copy)]
pub struct FunctionInfo<'a> {
    pub params: Option<&'a Vec<Pattern>>,
    pub body: Body<'a>,
    pub closure: usize,
    pub super_proto: Option<usize>,
    pub super_ctor: Option<Value>,
    pub this_capture: Option<Value>,
    pub generator: bool,
    pub is_async: bool,
    pub is_derived: bool,
    pub realm: Option<usize>,
}

/// What calls of the function in a cell depend on.
pub open spec fn function_info<'a>(h: HeapView<'a>, id: usize) -> Option<FunctionInfo<'a>> {
    match function_at(h, id) {
        Some(d) => Some(FunctionInfo {
            params: d.params,
            body: d.body,
            closure: d.closure,
            super_proto: d.super_proto,
            super_ctor: d.super_ctor,
            this_capture: d.this_capture,
            generator: d.generator,
            is_async: d.is_async,
            is_derived: d.is_derived,
            realm: d.realm,
        }),
        None => None,
    }
}

/// Whether a function body is marked as a generator's.
pub open spec fn marked_generator(body: Vec<Stmt>) -> bool {
    body@.len() > 0 && body@[0] is GeneratorBody
}

/// Whether a function body is marked as an async function's.
pub open spec fn marked_async(body: Vec<Stmt>) -> bool {
    body@.len() > 0 && body@[0] is AsyncBody
}

/// The statements of a function body without its mark.
pub open spec fn unmarked<'a>(body: &'a Vec<Stmt>) -> &'a Vec<Stmt> {
    if body@.len() > 0 {
        match &body@[0] {
            Stmt::GeneratorBody(b) => b,
            Stmt::AsyncBody(b) => b,
            _ => body,
        }
    } else {
        body
    }
}

/// How many parameters there are.
pub open spec fn param_count(params: Option<&Vec<Pattern>>) -> nat {
    match params {
        Some(p) => p@.len(),
        None => 0,
    }
}

/// The cell of a new function value, before its own properties.
pub open spec fn function_cell<'a>(s: StoreView<'a>, realm: usize, name: usize, params: Option<&'a Vec<Pattern>>, body: &'a Vec<Stmt>, closure: usize, this_capture: Option<Value>) -> FunctionView<'a> {
    FunctionView {
        name,
        params,
        fields: Seq::empty(),
        body: Body::Stmts(unmarked(body)),
        closure,
        props: Map::empty(),
        proto: Some(if marked_async(*body) { s.b.async_function_prototype } else { s.b.function_prototype }),
        super_proto: None,
        super_ctor: None,
        this_capture,
        generator: marked_generator(*body),
        is_async: marked_async(*body),
        is_derived: false,
        realm: Some(realm),
    }
}

/// The store with a new function value, whose number is the number of cells
/// before; the next cell is its prototype object. Async functions have no
/// `prototype` property.
pub open spec fn with_function<'a>(s: StoreView<'a>, realm: usize, name: usize, params: Option<&'a Vec<Pattern>>, body: &'a Vec<Stmt>, closure: usize, this_capture: Option<Value>) -> StoreView<'a> {
    let f = s.heap.cells.len() as usize;
    let a = s.heap.plus_cell(CellView::Function(function_cell(s, realm, name, params, body, closure, this_capture)));
    let p = a.cells.len() as usize;
    let b = a.plus_cell(CellView::Object(ObjectView {
        props: Map::empty(),
        proto: Some(s.b.object_prototype),
        ctor: Some(CtorRef::Func(f)),
    })).plus_registration(p);
    let c = if marked_async(*body) { b } else { b.plus_prop(f, s.n.prototype, Property::slot(Value::Object(p), true, true, true)) };
    let d = c.plus_prop(f, s.n.name, Property::slot(Value::String(name), false, false, true));
    let e = d.plus_prop(f, s.n.length, Property::slot(Value::Number(double_of(param_count(params)) as u64), false, false, true));
    s.with_heap(e.plus_registration(f))
}

impl<'a> EngineView<'a> {
    /// The engine with another store.
    pub open spec fn with_store(self, store: StoreView<'a>) -> EngineView<'a> {
        EngineView { store, ..self }
    }

    /// The engine with another heap.
    pub open spec fn with_heap(self, heap: HeapView<'a>) -> EngineView<'a> {
        EngineView { store: self.store.with_heap(heap), ..self }
    }
}

impl<'a> EngineView<'a> {
    /// Pushes a frame.
    pub open spec fn push(self, f: Frame<'a>) -> EngineView<'a> {
        EngineView { frames: self.frames.push(f), ..self }
    }

    /// Sets the completion.
    pub open spec fn done(self, c: Completion) -> EngineView<'a> {
        EngineView { acc: c, ..self }
    }

    /// Completes normally with a value.
    pub open spec fn ret(self, v: Value) -> EngineView<'a> {
        self.done(Completion::Normal(Some(v)))
    }

    /// Completes normally without a value.
    pub open spec fn ret_empty(self) -> EngineView<'a> {
        self.done(Completion::Normal(None))
    }

    /// Completes by throwing.
    pub open spec fn throw(self, v: Value) -> EngineView<'a> {
        self.done(Completion::Throw(v))
    }

    /// Asks the host.
    pub open spec fn ask(self, r: Request) -> EngineView<'a> {
        EngineView { pending: Some(r), ..self }
    }

    /// Hands control to the host.
    pub open spec fn halt(self) -> EngineView<'a> {
        EngineView { halted: true, ..self }
    }

    /// The value of the completion.
    pub open spec fn value(self) -> Value {
        match self.acc {
            Completion::Normal(Some(v)) => v,
            _ => Value::Undefined,
        }
    }

    /// The atom of the completion's string.
    pub open spec fn key(self) -> usize {
        match self.value() {
            Value::String(a) => a,
            _ => self.store.n.empty,
        }
    }

    /// The completion's number.
    pub open spec fn bits(self) -> u64 {
        match self.value() {
            Value::Number(b) => b,
            _ => NAN,
        }
    }

    /// The names.
    pub open spec fn n(self) -> Names {
        self.store.n
    }

    /// The built-in cells.
    pub open spec fn b(self) -> Builtins {
        self.store.b
    }

    /// The atom of a text.
    pub open spec fn intern(self, t: &str) -> (EngineView<'a>, usize) {
        (self.with_store(self.store.with_text(t@)), self.store.atom(t@))
    }

    /// The atom of a text of the program.
    pub open spec fn intern_name(self, t: &String) -> (EngineView<'a>, usize) {
        (self.with_store(self.store.with_text(t@)), self.store.atom(t@))
    }

    /// The atom of a text of one character.
    pub open spec fn char_atom(self, c: char) -> (EngineView<'a>, usize) {
        (self.with_store(self.store.with_text(seq![c])), self.store.atom(seq![c]))
    }

    /// The atom of a number's decimal text.
    pub open spec fn decimal_atom(self, i: usize) -> (EngineView<'a>, usize) {
        (self.with_store(self.store.with_text(decimal(i as nat))), self.store.atom(decimal(i as nat)))
    }

    /// The atom of two texts joined.
    pub open spec fn concat(self, a: usize, b: usize) -> (EngineView<'a>, usize) {
        (self.with_store(self.store.with_text(self.store.text(a) + self.store.text(b))), self.store.atom(self.store.text(a) + self.store.text(b)))
    }

    /// The atom of a text between two others.
    pub open spec fn affix(self, before: &str, a: usize, after: &str) -> (EngineView<'a>, usize) {
        (self.with_store(self.store.with_text(before@ + self.store.text(a) + after@)), self.store.atom(before@ + self.store.text(a) + after@))
    }

    /// A new empty list.
    pub open spec fn new_list(self) -> (EngineView<'a>, usize) {
        (self.with_heap(self.store.heap.plus_cell(CellView::Array(list_data(Seq::empty())))), self.store.heap.cells.len() as usize)
    }

    /// A new list of one value.
    pub open spec fn list1(self, a: Value) -> (EngineView<'a>, usize) {
        (self.with_heap(self.store.heap.plus_cell(CellView::Array(list_data(seq![a])))), self.store.heap.cells.len() as usize)
    }

    /// A new list of two values.
    pub open spec fn list2(self, a: Value, b: Value) -> (EngineView<'a>, usize) {
        (self.with_heap(self.store.heap.plus_cell(CellView::Array(list_data(seq![a, b])))), self.store.heap.cells.len() as usize)
    }

    /// Adds a value to a list.
    pub open spec fn append(self, list: usize, v: Value) -> EngineView<'a> {
        self.with_heap(with_items(self.store.heap, list, seq![v]))
    }

    /// The length of a list.
    pub open spec fn list_len(self, list: usize) -> usize {
        items_of(self.store.heap, list).len() as usize
    }

    /// An item of a list, or `undefined` beyond its end.
    pub open spec fn list_at(self, list: usize, i: usize) -> Value {
        if i < items_of(self.store.heap, list).len() { items_of(self.store.heap, list)[i as int] } else { Value::Undefined }
    }

    /// The length of an array.
    pub open spec fn array_len(self, a: usize) -> usize {
        crate::object::array_length(self.store.heap, a)
    }

    /// An element of an array, holes as `undefined`.
    pub open spec fn array_get(self, a: usize, i: usize) -> Value {
        match array_at(self.store.heap, a) {
            Some(d) => match element(d, i) {
                Some(v) => v,
                None => Value::Undefined,
            },
            None => Value::Undefined,
        }
    }

    /// Adds an array's stored items to a list.
    pub open spec fn append_stored(self, list: usize, a: usize) -> EngineView<'a> {
        self.with_heap(with_items(self.store.heap, list, match array_at(self.store.heap, a) {
            Some(d) => stored_items(d),
            None => Seq::empty(),
        }))
    }

    /// Adds all elements of an array to a list.
    pub open spec fn append_streamed(self, list: usize, a: usize) -> EngineView<'a> {
        self.with_heap(with_items(self.store.heap, list, match array_at(self.store.heap, a) {
            Some(d) => streamed(d),
            None => Seq::empty(),
        }))
    }

    /// Adds the items of one list to another.
    pub open spec fn append_list(self, list: usize, other: usize) -> EngineView<'a> {
        self.with_heap(with_items(self.store.heap, list, items_of(self.store.heap, other)))
    }

    /// Adds the entries of a set to a list.
    pub open spec fn append_set(self, list: usize, m: usize) -> EngineView<'a> {
        self.with_heap(with_items(self.store.heap, list, set_entries(self.store.heap, m)))
    }

    /// Adds a string for each character of a text to a list.
    pub open spec fn append_chars(self, list: usize, a: usize) -> EngineView<'a> {
        self.with_store(with_chars(self.store, list, self.store.text(a), self.store.text(a).len()))
    }

    /// Adds an array for each entry of a map to a list.
    pub open spec fn append_entries(self, list: usize, m: usize) -> EngineView<'a> {
        self.with_store(with_entries(self.store, list, map_entries(self.store.heap, m), map_entries(self.store.heap, m).len()))
    }

    /// A new array of the items of a list from an index on.
    pub open spec fn array_from(self, list: usize, from: usize) -> (EngineView<'a>, usize) {
        (self.with_store(with_new_array(self.store, if from <= items_of(self.store.heap, list).len() {
            items_of(self.store.heap, list).skip(from as int)
        } else {
            Seq::empty()
        })), self.store.heap.cells.len() as usize)
    }

    /// A new object of the ordinary prototype.
    pub open spec fn new_object(self) -> (EngineView<'a>, usize) {
        (self.with_store(with_new_object(self.store)), self.store.heap.cells.len() as usize)
    }

    /// A new object of a prototype.
    pub open spec fn make_object(self, proto: usize) -> (EngineView<'a>, usize) {
        (self.with_heap(self.store.heap.plus_cell(CellView::Object(ObjectView { props: Map::empty(), proto: Some(proto), ctor: None })).plus_registration(self.store.heap.cells.len() as usize)), self.store.heap.cells.len() as usize)
    }

    /// A new object of the ordinary prototype that the collector does not manage.
    pub open spec fn loose_object(self) -> (EngineView<'a>, usize) {
        (self.with_heap(self.store.heap.plus_cell(CellView::Object(ObjectView { props: Map::empty(), proto: Some(self.store.b.object_prototype), ctor: None }))), self.store.heap.cells.len() as usize)
    }

    /// A new object without a prototype that the collector does not manage.
    pub open spec fn bare_object(self) -> (EngineView<'a>, usize) {
        (self.with_heap(self.store.heap.plus_cell(CellView::Object(ObjectView { props: Map::empty(), proto: None, ctor: None }))), self.store.heap.cells.len() as usize)
    }

    /// Binds an ordinary property.
    pub open spec fn set_field(self, id: usize, key: usize, v: Value) -> EngineView<'a> {
        self.with_store(with_field(self.store, id, key, v))
    }

    /// Binds a property slot.
    pub open spec fn put_prop(self, id: usize, key: usize, p: Property) -> EngineView<'a> {
        self.with_heap(self.store.heap.plus_prop(id, key, p))
    }

    /// An own slot of a cell.
    pub open spec fn own_prop(self, id: usize, key: usize) -> Option<Property> {
        if self.store.heap.props(id).contains_key(key) { Some(self.store.heap.props(id)[key]) } else { None }
    }

    /// The value of an own slot of a cell, or `undefined`.
    pub open spec fn own_value(self, id: usize, key: usize) -> Value {
        match self.own_prop(id, key) {
            Some(p) => p.value,
            None => Value::Undefined,
        }
    }

    /// A new scope.
    pub open spec fn new_scope(self, outer: usize, is_function: bool) -> (EngineView<'a>, usize) {
        (self.with_heap(with_fresh_scope(self.store.heap, outer, is_function)), self.store.heap.cells.len() as usize)
    }

    /// Binds a name in a scope.
    pub open spec fn bind(self, env: usize, name: usize, v: Value) -> EngineView<'a> {
        self.with_heap(bound(self.store.heap, env, name, v))
    }

    /// Makes a name of a scope constant.
    pub open spec fn fix(self, env: usize, name: usize) -> EngineView<'a> {
        self.with_heap(fixed(self.store.heap, env, name))
    }

    /// Assigns to a name.
    pub open spec fn assign(self, env: usize, name: usize, v: Value) -> EngineView<'a> {
        self.with_heap(assigned(self.store.heap, env, name, v))
    }

    /// The value of a name in a scope.
    pub open spec fn lookup(self, env: usize, name: usize) -> Option<Value> {
        lookup(self.store.heap, env, name)
    }

    /// Whether the binding of a name is constant.
    pub open spec fn is_const(self, env: usize, name: usize) -> bool {
        constant(self.store.heap, env, name)
    }

    /// The scope in which `var` declarations bind.
    pub open spec fn function_scope(self, env: usize) -> usize {
        var_scope(self.store.heap, env, self.store.heap.cells.len())
    }

    /// The `this` of a scope; the global object where there is none.
    pub open spec fn this_of(self, env: usize) -> Value {
        match self.lookup(env, self.store.n.this) {
            Some(v) => v,
            None => Value::Object(self.store.b.global_object),
        }
    }

    /// Whether a value counts as true.
    pub open spec fn truthy(self, v: Value) -> bool {
        truthy(self.store, v)
    }

    /// The answer to a property read.
    pub open spec fn property(self, base: Value, key: usize) -> Read {
        property(self.store, base, key)
    }

    /// The slot that a value has or inherits.
    pub open spec fn raw_property(self, base: Value, key: usize) -> Option<Property> {
        raw_property(self.store, base, key, self.store.heap.cells.len())
    }

    /// Writes a property.
    pub open spec fn write(self, base: Value, key: usize, val: Value) -> (EngineView<'a>, Write) {
        (self.with_store(written(self.store, base, key, val).0), written(self.store, base, key, val).1)
    }

    /// Finishes a write that needed a number.
    pub open spec fn set_number(self, base: Value, bits: u64) -> EngineView<'a> {
        self.with_store(with_number(self.store, base, bits))
    }

    /// Deletes a property.
    pub open spec fn delete(self, base: Value, key: usize) -> (EngineView<'a>, Deletion) {
        (self.with_store(deleted(self.store, base, key).0), deleted(self.store, base, key).1)
    }

    /// Whether the `in` operator finds a key.
    pub open spec fn found_in(self, key: usize, base: Value) -> bool {
        found_in(self.store, base, key)
    }

    /// The object that a constructor's instances inherit from.
    pub open spec fn proto_of(self, ctor: Value) -> Option<usize> {
        instance_prototype(self.store, ctor)
    }

    /// The prototype link of a cell.
    pub open spec fn cell_proto(self, id: usize) -> Option<usize> {
        self.store.heap.proto(id)
    }

    /// What calls of a function depend on.
    pub open spec fn function(self, id: usize) -> Option<FunctionInfo<'a>> {
        function_info(self.store.heap, id)
    }

    /// A new function value.
    pub open spec fn make_function(self, name: usize, params: Option<&'a Vec<Pattern>>, body: &'a Vec<Stmt>, closure: usize, this_capture: Option<Value>) -> (EngineView<'a>, Value) {
        (self.with_store(with_function(self.store, self.realm, name, params, body, closure, this_capture)), Value::Function(self.store.heap.cells.len() as usize))
    }
}

impl<'a> Engine<'a> {
    /// Pushes a frame.
    pub(crate) fn push(&mut self, f: Frame<'a>)
        ensures
            final(self)@ == old(self)@.push(f),
    {
        self.frames.push(f);
    }

    /// Sets the completion.
    pub(crate) fn done(&mut self, c: Completion)
        ensures
            final(self)@ == old(self)@.done(c),
    {
        self.acc = c;
    }

    /// Completes normally with a value.
    pub(crate) fn ret(&mut self, v: Value)
        ensures
            final(self)@ == old(self)@.ret(v),
    {
        self.acc = Completion::Normal(Some(v));
    }

    /// Completes normally without a value.
    pub(crate) fn ret_empty(&mut self)
        ensures
            final(self)@ == old(self)@.ret_empty(),
    {
        self.acc = Completion::Normal(None);
    }

    /// Completes by throwing.
    pub(crate) fn throw(&mut self, v: Value)
        ensures
            final(self)@ == old(self)@.throw(v),
    {
        self.acc = Completion::Throw(v);
    }

    /// Asks the host.
    pub(crate) fn ask(&mut self, r: Request)
        ensures
            final(self)@ == old(self)@.ask(r),
    {
        self.pending = Some(r);
    }

    /// Hands control to the host.
    pub(crate) fn halt(&mut self)
        ensures
            final(self)@ == old(self)@.halt(),
    {
        self.halted = true;
    }

    /// The value of the completion.
    pub(crate) fn value(&self) -> (res: Value)
        ensures
            res == self@.value(),
    {
        match self.acc {
            Completion::Normal(Some(v)) => v,
            _ => Value::Undefined,
        }
    }

    /// The atom of the completion's string.
    pub(crate) fn key(&self) -> (res: usize)
        ensures
            res == self@.key(),
    {
        match self.value() {
            Value::String(a) => a,
            _ => self.store.n.empty,
        }
    }

    /// The completion's number.
    pub(crate) fn bits(&self) -> (res: u64)
        ensures
            res == self@.bits(),
    {
        match self.value() {
            Value::Number(b) => b,
            _ => NAN,
        }
    }

    /// The names.
    pub(crate) fn n(&self) -> (res: Names)
        ensures
            res == self@.n(),
    {
        self.store.n
    }

    /// The built-in cells.
    pub(crate) fn b(&self) -> (res: Builtins)
        ensures
            res == self@.b(),
    {
        self.store.b
    }

    /// The atom of a text.
    pub(crate) fn intern(&mut self, t: &str) -> (res: usize)
        ensures
            (final(self)@, res) == old(self)@.intern(t),
    {
        self.store.intern(t)
    }

    /// The atom of a text of the program.
    pub(crate) fn intern_name(&mut self, t: &String) -> (res: usize)
        ensures
            (final(self)@, res) == old(self)@.intern_name(t),
    {
        self.store.intern(t.as_str())
    }

    /// The atom of a text of one character.
    pub(crate) fn char_atom(&mut self, c: char) -> (res: usize)
        ensures
            (final(self)@, res) == old(self)@.char_atom(c),
    {
        let mut t = String::new();
        t.push(c);
        assert(t@ =~= seq![c]);
        self.store.intern(t.as_str())
    }

    /// The atom of a number's decimal text.
    pub(crate) fn decimal_atom(&mut self, i: usize) -> (res: usize)
        ensures
            (final(self)@, res) == old(self)@.decimal_atom(i),
    {
        let t = decimal_text(i as u64);
        self.store.intern(t.as_str())
    }

    /// The atom of two texts joined.
    pub(crate) fn concat(&mut self, a: usize, b: usize) -> (res: usize)
        ensures
            (final(self)@, res) == old(self)@.concat(a, b),
    {
        let t = joined(self.store.heap.atoms.text(a), self.store.heap.atoms.text(b));
        self.store.intern(t.as_str())
    }

    /// The atom of a text between two others.
    pub(crate) fn affix(&mut self, before: &str, a: usize, after: &str) -> (res: usize)
        ensures
            (final(self)@, res) == old(self)@.affix(before, a, after),
    {
        let t = joined(before, self.store.heap.atoms.text(a));
        let u = joined(t.as_str(), after);
        self.store.intern(u.as_str())
    }

    /// A new empty list.
    pub(crate) fn new_list(&mut self) -> (res: usize)
        ensures
            (final(self)@, res) == old(self)@.new_list(),
    {
        let v: Vec<Value> = Vec::new();
        assert(v@ =~= Seq::<Value>::empty());
        self.store.heap.add_cell(Cell::Array(ArrayData::new(v, None)))
    }

    /// A new list of one value.
    pub(crate) fn list1(&mut self, a: Value) -> (res: usize)
        ensures
            (final(self)@, res) == old(self)@.list1(a),
    {
        let v: Vec<Value> = vec![a];
        assert(v@ =~= seq![a]);
        self.store.heap.add_cell(Cell::Array(ArrayData::new(v, None)))
    }

    /// A new list of two values.
    pub(crate) fn list2(&mut self, a: Value, b: Value) -> (res: usize)
        ensures
            (final(self)@, res) == old(self)@.list2(a, b),
    {
        let v: Vec<Value> = vec![a, b];
        assert(v@ =~= seq![a, b]);
        self.store.heap.add_cell(Cell::Array(ArrayData::new(v, None)))
    }

    /// Adds a value to a list.
    pub(crate) fn append(&mut self, list: usize, v: Value)
        ensures
            final(self)@ == old(self)@.append(list, v),
    {
        let mut items: Vec<Value> = Vec::new();
        items.push(v);
        assert(items@ =~= seq![v]);
        self.store.heap.extend_list(list, items);
    }

    /// The length of a list.
    pub(crate) fn list_len(&self, list: usize) -> (res: usize)
        ensures
            res == self@.list_len(list),
    {
        self.store.heap.dense_len(list)
    }

    /// An item of a list, or `undefined` beyond its end.
    pub(crate) fn list_at(&self, list: usize, i: usize) -> (res: Value)
        ensures
            res == self@.list_at(list, i),
    {
        if i < self.store.heap.dense_len(list) {
            match self.store.heap.array_element(list, i) {
                Some(v) => v,
                None => Value::Undefined,
            }
        } else {
            Value::Undefined
        }
    }

    /// The length of an array.
    pub(crate) fn array_len(&self, a: usize) -> (res: usize)
        ensures
            res == self@.array_len(a),
    {
        self.store.heap.array_length(a)
    }

    /// An element of an array, holes as `undefined`.
    pub(crate) fn array_get(&self, a: usize, i: usize) -> (res: Value)
        ensures
            res == self@.array_get(a, i),
    {
        match self.store.heap.array_element(a, i) {
            Some(v) => v,
            None => Value::Undefined,
        }
    }

    /// Adds an array's stored items to a list.
    pub(crate) fn append_stored(&mut self, list: usize, a: usize)
        ensures
            final(self)@ == old(self)@.append_stored(list, a),
    {
        let items = self.store.heap.stored_items(a);
        self.store.heap.extend_list(list, items);
    }

    /// Adds all elements of an array to a list.
    pub(crate) fn append_streamed(&mut self, list: usize, a: usize)
        ensures
            final(self)@ == old(self)@.append_streamed(list, a),
    {
        let items = self.store.heap.streamed_items(a);
        self.store.heap.extend_list(list, items);
    }

    /// Adds the items of one list to another.
    pub(crate) fn append_list(&mut self, list: usize, other: usize)
        ensures
            final(self)@ == old(self)@.append_list(list, other),
    {
        let items = self.store.heap.list_items(other, 0);
        assert(items@ =~= items_of(self@.store.heap, other));
        self.store.heap.extend_list(list, items);
    }

    /// Adds the entries of a set to a list.
    pub(crate) fn append_set(&mut self, list: usize, m: usize)
        ensures
            final(self)@ == old(self)@.append_set(list, m),
    {
        let items = self.store.heap.set_items(m);
        self.store.heap.extend_list(list, items);
    }

    /// Adds a string for each character of a text to a list.
    pub(crate) fn append_chars(&mut self, list: usize, a: usize)
        ensures
            final(self)@ == old(self)@.append_chars(list, a),
    {
        let ghost before = self@;
        let text = chars_of(self.store.heap.atoms.text(a));
        let mut i: usize = 0;
        while i < text.len()
            invariant
                i <= text@.len(),
                self@ == before.with_store(with_chars(before.store, list, text@, i as nat)),
            decreases text@.len() - i,
        {
            let c = self.char_atom(text[i]);
            self.append(list, Value::String(c));
            i += 1;
        }
    }

    /// Adds an array for each entry of a map to a list.
    pub(crate) fn append_entries(&mut self, list: usize, m: usize)
        ensures
            final(self)@ == old(self)@.append_entries(list, m),
    {
        let ghost before = self@;
        let entries = self.store.heap.map_items(m);
        let mut i: usize = 0;
        while i < entries.len()
            invariant
                i <= entries@.len(),
                self@ == before.with_store(with_entries(before.store, list, entries@, i as nat)),
            decreases entries@.len() - i,
        {
            let (k, v) = entries[i];
            let pair: Vec<Value> = vec![k, v];
            assert(pair@ =~= seq![k, v]);
            let a = self.store.heap.new_array(pair, self.store.b.array_prototype);
            self.append(list, Value::Array(a));
            i += 1;
        }
    }

    /// A new array of the items of a list from an index on.
    pub(crate) fn array_from(&mut self, list: usize, from: usize) -> (res: usize)
        ensures
            (final(self)@, res) == old(self)@.array_from(list, from),
    {
        let items = self.store.heap.list_items(list, from);
        self.store.heap.new_array(items, self.store.b.array_prototype)
    }

    /// A new object of the ordinary prototype.
    pub(crate) fn new_object(&mut self) -> (res: usize)
        ensures
            (final(self)@, res) == old(self)@.new_object(),
    {
        self.store.new_object()
    }

    /// A new object of a prototype.
    pub(crate) fn make_object(&mut self, proto: usize) -> (res: usize)
        ensures
            (final(self)@, res) == old(self)@.make_object(proto),
    {
        self.store.heap.make_object(proto)
    }

    /// A new object of the ordinary prototype that the collector does not manage.
    pub(crate) fn loose_object(&mut self) -> (res: usize)
        ensures
            (final(self)@, res) == old(self)@.loose_object(),
    {
        self.store.heap.add_cell(Cell::Object(Object::with_proto(self.store.b.object_prototype)))
    }

    /// A new object without a prototype that the collector does not manage.
    pub(crate) fn bare_object(&mut self) -> (res: usize)
        ensures
            (final(self)@, res) == old(self)@.bare_object(),
    {
        self.store.heap.add_cell(Cell::Object(Object::new()))
    }

    /// Binds an ordinary property.
    pub(crate) fn set_field(&mut self, id: usize, key: usize, v: Value)
        ensures
            final(self)@ == old(self)@.set_field(id, key, v),
    {
        self.store.set_field(id, key, v);
    }

    /// Binds a property slot.
    pub(crate) fn put_prop(&mut self, id: usize, key: usize, p: Property)
        ensures
            final(self)@ == old(self)@.put_prop(id, key, p),
    {
        self.store.heap.insert_prop(id, key, p);
    }

    /// An own slot of a cell.
    pub(crate) fn own_prop(&self, id: usize, key: usize) -> (res: Option<Property>)
        ensures
            res == self@.own_prop(id, key),
    {
        self.store.heap.get_prop(id, key)
    }

    /// The value of an own slot of a cell, or `undefined`.
    pub(crate) fn own_value(&self, id: usize, key: usize) -> (res: Value)
        ensures
            res == self@.own_value(id, key),
    {
        match self.own_prop(id, key) {
            Some(p) => p.value,
            None => Value::Undefined,
        }
    }

    /// A new scope.
    pub(crate) fn new_scope(&mut self, outer: usize, is_function: bool) -> (res: usize)
        ensures
            (final(self)@, res) == old(self)@.new_scope(outer, is_function),
    {
        self.store.heap.new_scope(outer, is_function)
    }

    /// Binds a name in a scope.
    pub(crate) fn bind(&mut self, env: usize, name: usize, v: Value)
        ensures
            final(self)@ == old(self)@.bind(env, name, v),
    {
        self.store.heap.bind(env, name, v);
    }

    /// Makes a name of a scope constant.
    pub(crate) fn fix(&mut self, env: usize, name: usize)
        ensures
            final(self)@ == old(self)@.fix(env, name),
    {
        self.store.heap.fix(env, name);
    }

    /// Assigns to a name.
    pub(crate) fn assign(&mut self, env: usize, name: usize, v: Value)
        ensures
            final(self)@ == old(self)@.assign(env, name, v),
    {
        self.store.heap.assign(env, name, v);
    }

    /// The value of a name in a scope.
    pub(crate) fn lookup(&self, env: usize, name: usize) -> (res: Option<Value>)
        ensures
            res == self@.lookup(env, name),
    {
        self.store.heap.lookup(env, name)
    }

    /// Whether the binding of a name is constant.
    pub(crate) fn is_const(&self, env: usize, name: usize) -> (res: bool)
        ensures
            res == self@.is_const(env, name),
    {
        self.store.heap.binding_is_const(env, name)
    }

    /// The scope in which `var` declarations bind.
    pub(crate) fn function_scope(&self, env: usize) -> (res: usize)
        ensures
            res == self@.function_scope(env),
    {
        self.store.heap.function_scope(env)
    }

    /// The `this` of a scope; the global object where there is none.
    pub(crate) fn this_of(&self, env: usize) -> (res: Value)
        ensures
            res == self@.this_of(env),
    {
        match self.lookup(env, self.store.n.this) {
            Some(v) => v,
            None => Value::Object(self.store.b.global_object),
        }
    }

    /// Whether a value counts as true.
    pub(crate) fn truthy(&self, v: Value) -> (res: bool)
        ensures
            res == self@.truthy(v),
    {
        self.store.to_boolean(v)
    }

    /// The answer to a property read.
    pub(crate) fn property(&self, base: Value, key: usize) -> (res: Read)
        ensures
            res == self@.property(base, key),
    {
        self.store.get_property(base, key)
    }

    /// The slot that a value has or inherits.
    pub(crate) fn raw_property(&self, base: Value, key: usize) -> (res: Option<Property>)
        ensures
            res == self@.raw_property(base, key),
    {
        self.store.get_raw_property(base, key)
    }

    /// Writes a property.
    pub(crate) fn write(&mut self, base: Value, key: usize, val: Value) -> (res: Write)
        ensures
            (final(self)@, res) == old(self)@.write(base, key, val),
    {
        self.store.set_property(base, key, val)
    }

    /// Finishes a write that needed a number.
    pub(crate) fn set_number(&mut self, base: Value, bits: u64)
        ensures
            final(self)@ == old(self)@.set_number(base, bits),
    {
        self.store.set_number(base, bits);
    }

    /// Deletes a property.
    pub(crate) fn delete(&mut self, base: Value, key: usize) -> (res: Deletion)
        ensures
            (final(self)@, res) == old(self)@.delete(base, key),
    {
        self.store.delete_property(base, key)
    }

    /// Whether the `in` operator finds a key.
    pub(crate) fn found_in(&self, key: usize, base: Value) -> (res: bool)
        ensures
            res == self@.found_in(key, base),
    {
        self.store.has_property(key, base)
    }

    /// The object that a constructor's instances inherit from.
    pub(crate) fn proto_of(&self, ctor: Value) -> (res: Option<usize>)
        ensures
            res == self@.proto_of(ctor),
    {
        self.store.proto_of(ctor)
    }

    /// The prototype link of a cell.
    pub(crate) fn cell_proto(&self, id: usize) -> (res: Option<usize>)
        ensures
            res == self@.cell_proto(id),
    {
        self.store.heap.proto(id)
    }

    /// What calls of a function depend on.
    pub(crate) fn function(&self, id: usize) -> (res: Option<FunctionInfo<'a>>)
        ensures
            res == self@.function(id),
    {
        if id < self.store.heap.cells.len() {
            assert(self@.store.heap.cells[id as int] == self.store.heap.cells@[id as int]@);
            match &self.store.heap.cells[id] {
                Cell::Function(d) => Some(FunctionInfo {
                    params: d.params,
                    body: d.body,
                    closure: d.closure,
                    super_proto: d.super_proto,
                    super_ctor: d.super_ctor,
                    this_capture: d.this_capture,
                    generator: d.generator,
                    is_async: d.is_async,
                    is_derived: d.is_derived,
                    realm: d.realm,
                }),
                _ => None,
            }
        } else {
            None
        }
    }

    /// A new function value.
    pub(crate) fn make_function(&mut self, name: usize, params: Option<&'a Vec<Pattern>>, body: &'a Vec<Stmt>, closure: usize, this_capture: Option<Value>) -> (res: Value)
        ensures
            (final(self)@, res) == old(self)@.make_function(name, params, body, closure, this_capture),
    {
        let ghost before = self@;
        let mut generator = false;
        let mut is_async = false;
        let mut stmts: &'a Vec<Stmt> = body;
        if body.len() > 0 {
            match &body[0] {
                Stmt::GeneratorBody(b) => {
                    generator = true;
                    stmts = b;
                },
                Stmt::AsyncBody(b) => {
                    is_async = true;
                    stmts = b;
                },
                _ => {},
            }
        }
        assert(stmts == unmarked(body));
        let count: usize = match params {
            Some(p) => p.len(),
            None => 0,
        };
        let b = self.store.b;
        let fields: Vec<crate::value::FieldInit<'a>> = Vec::new();
        assert(fields@ =~= Seq::empty());
        let cell = Cell::Function(Function {
            name,
            params,
            fields,
            body: Body::Stmts(stmts),
            closure,
            props: Assoc::new(),
            proto: Some(if is_async { b.async_function_prototype } else { b.function_prototype }),
            super_proto: None,
            super_ctor: None,
            this_capture,
            generator,
            is_async,
            is_derived: false,
            realm: Some(self.realm),
        });
        assert(cell@ =~= CellView::Function(function_cell(before.store, before.realm, name, params, body, closure, this_capture)));
        let f = self.store.heap.add_cell(cell);
        let object = Object { props: Assoc::new(), proto: Some(b.object_prototype), ctor: Some(CtorRef::Func(f)) };
        let p = self.store.heap.add_managed(Cell::Object(object));
        if !is_async {
            self.store.heap.insert_prop(f, self.store.n.prototype, Property::new(Value::Object(p)));
        }
        self.store.heap.insert_prop(f, self.store.n.name, Property::config(Value::String(name)));
        self.store.heap.insert_prop(f, self.store.n.length, Property::config(Value::Number(from_u64(count as u64))));
        self.store.heap.register(f);
        Value::Function(f)
    }
}

impl<'a> crate::heap::Heap<'a> {
    /// Adds values to a list.
    pub(crate) fn extend_list(&mut self, list: usize, items: Vec<Value>)
        ensures
            final(self)@ == with_items(old(self)@, list, items@),
    {
        let ghost before = self@;
        if list < self.cells.len() {
            assert(before.cells[list as int] == self.cells@[list as int]@);
            let mut more = items;
            match &mut self.cells[list] {
                Cell::Array(d) => {
                    let ghost was = d@;
                    d.elems.append(&mut more);
                    d.length = d.elems.len();
                    assert(d@ =~= extended(was, items@));
                },
                _ => {},
            }
            assert(self@.cells =~= with_items(before, list, items@).cells);
        }
        assert(self@ =~= with_items(before, list, items@));
    }

    /// The items of a list from an index on.
    pub(crate) fn list_items(&self, list: usize, from: usize) -> (r: Vec<Value>)
        ensures
            r@ == (if from <= items_of(self@, list).len() { items_of(self@, list).skip(from as int) } else { Seq::empty() }),
    {
        let mut out: Vec<Value> = Vec::new();
        if list < self.cells.len() {
            assert(self@.cells[list as int] == self.cells@[list as int]@);
            match &self.cells[list] {
                Cell::Array(d) => {
                    let mut i: usize = from;
                    while i < d.elems.len()
                        invariant
                            from <= i,
                            i <= d.elems@.len() || i == from,
                            out@ == (if from <= d.elems@.len() { d.elems@.subrange(from as int, i as int) } else { Seq::empty() }),
                        decreases d.elems@.len() - i,
                    {
                        out.push(d.elems[i]);
                        i += 1;
                        assert(d.elems@.subrange(from as int, i as int) =~= d.elems@.subrange(from as int, i - 1).push(d.elems@[i - 1]));
                    }
                },
                _ => {},
            }
        }
        assert(out@ =~= (if from <= items_of(self@, list).len() { items_of(self@, list).skip(from as int) } else { Seq::empty() }));
        out
    }

    /// All elements of an array, holes as `undefined`.
    pub(crate) fn streamed_items(&self, a: usize) -> (r: Vec<Value>)
        ensures
            r@ == (match array_at(self@, a) {
                Some(d) => streamed(d),
                None => Seq::empty(),
            }),
    {
        let mut out: Vec<Value> = Vec::new();
        if a < self.cells.len() {
            assert(self@.cells[a as int] == self.cells@[a as int]@);
            match &self.cells[a] {
                Cell::Array(d) => {
                    let n = d.logical_len();
                    let mut i: usize = 0;
                    while i < n
                        invariant
                            n == d@.length,
                            i <= n,
                            out@ == streamed(d@).take(i as int),
                        decreases n - i,
                    {
                        match d.get_index(i) {
                            Some(v) => out.push(v),
                            None => out.push(Value::Undefined),
                        }
                        i += 1;
                        assert(out@ =~= streamed(d@).take(i as int));
                    }
                    assert(out@ =~= streamed(d@));
                },
                _ => {},
            }
        }
        assert(array_at(self@, a) is None ==> out@ =~= Seq::<Value>::empty());
        out
    }

    /// What iterating over an array's own storage gives.
    pub(crate) fn stored_items(&self, a: usize) -> (r: Vec<Value>)
        ensures
            r@ == (match array_at(self@, a) {
                Some(d) => stored_items(d),
                None => Seq::empty(),
            }),
    {
        if a < self.cells.len() {
            assert(self@.cells[a as int] == self.cells@[a as int]@);
            match &self.cells[a] {
                Cell::Array(d) => {
                    let keys = d.sparse.keys();
                    if keys.len() == 0 {
                        proof {
                            assert forall|k: usize| !d@.sparse.contains_key(k) by {
                                assert(!keys@.contains(k));
                            }
                            assert(d@.sparse =~= Map::<usize, Value>::empty());
                        }
                        let r = self.list_items(a, 0);
                        assert(r@ =~= d@.elems);
                        return r;
                    }
                    assert(keys@.contains(keys@[0]));
                    assert(d@.sparse.contains_key(keys@[0]));
                    return self.streamed_items(a);
                },
                _ => {},
            }
        }
        Vec::new()
    }

    /// The entries of a set cell.
    pub(crate) fn set_items(&self, m: usize) -> (r: Vec<Value>)
        ensures
            r@ == set_entries(self@, m),
    {
        let mut out: Vec<Value> = Vec::new();
        if m < self.cells.len() {
            assert(self@.cells[m as int] == self.cells@[m as int]@);
            match &self.cells[m] {
                Cell::SetCell(d) => {
                    let mut i: usize = 0;
                    while i < d.entries.len()
                        invariant
                            i <= d.entries@.len(),
                            out@ == d.entries@.take(i as int),
                        decreases d.entries@.len() - i,
                    {
                        out.push(d.entries[i]);
                        i += 1;
                        assert(out@ =~= d.entries@.take(i as int));
                    }
                },
                _ => {},
            }
        }
        assert(out@ =~= set_entries(self@, m));
        out
    }

    /// The entries of a map cell.
    pub(crate) fn map_items(&self, m: usize) -> (r: Vec<(Value, Value)>)
        ensures
            r@ == map_entries(self@, m),
    {
        let mut out: Vec<(Value, Value)> = Vec::new();
        if m < self.cells.len() {
            assert(self@.cells[m as int] == self.cells@[m as int]@);
            match &self.cells[m] {
                Cell::MapCell(d) => {
                    let mut i: usize = 0;
                    while i < d.entries.len()
                        invariant
                            i <= d.entries@.len(),
                            out@ == d.entries@.take(i as int),
                        decreases d.entries@.len() - i,
                    {
                        out.push(d.entries[i]);
                        i += 1;
                        assert(out@ =~= d.entries@.take(i as int));
                    }
                },
                _ => {},
            }
        }
        assert(out@ =~= map_entries(self@, m));
        out
    }
}

} // verus!
