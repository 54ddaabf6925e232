//! Reading properties.
//!
//! A read either has its answer at once or names the getter that has to run; the
//! evaluator runs it. Prototype chains are followed for at most as many links as
//! there are cells, which is enough for every chain that ends.
use vstd::prelude::*;
use vstd::utf8::encode_utf8;
use crate::heap::{Heap, HeapView};
use crate::number::{double_of, from_u64};
use crate::store::{Store, StoreView};
use crate::text::{chars_of, index_of_key, parse_index};
use crate::value::{ArrayData, ArrayDataView, Cell, CellView, CtorRef, Property, Value};

verus! {

/// What a search along a prototype chain comes upon.
#[derive(Clone, Copy)]
pub enum Found {
    Missing,
    /// A property slot.
    Slot(Property),
    /// The constructor link of a prototype object.
    Ctor(Value),
}

/// The answer to a property read.
#[derive(Clone, Copy, PartialEq, Eq, Structural, Debug)]
pub enum Read {
    /// The value.
    Value(Value),
    /// The getter to call on the base value; if it throws, the value is `undefined`.
    Getter(Value),
    /// The string of one character.
    Char(char),
    /// The length in bytes of the string conversion of a wrapped primitive.
    LengthOf(Value),
}

/// The array in a cell.
pub open spec fn array_at<'a>(h: HeapView<'a>, id: usize) -> Option<ArrayDataView> {
    if id < h.cells.len() {
        match h.cells[id as int] {
            CellView::Array(d) => Some(d),
            _ => None,
        }
    } else {
        None
    }
}

/// The element at an index of an array.
pub open spec fn element(d: ArrayDataView, i: usize) -> Option<Value> {
    if i < d.elems.len() {
        Some(d.elems[i as int])
    } else if d.sparse.contains_key(i) {
        Some(d.sparse[i])
    } else {
        None
    }
}

/// The constructor that a prototype object is linked to.
pub open spec fn ctor_value(h: HeapView, id: usize) -> Option<Value> {
    if id < h.cells.len() {
        match h.cells[id as int] {
            CellView::Object(d) => match d.ctor {
                Some(CtorRef::Func(i)) => Some(Value::Function(i)),
                Some(CtorRef::Native(i)) => Some(Value::NativeFunction(i)),
                None => None,
            },
            _ => None,
        }
    } else {
        None
    }
}

/// The first thing that a chain has under a key. The constructor link counts
/// where `ctor_key` is the key.
pub open spec fn find(h: HeapView, cur: Option<usize>, key: usize, ctor_key: Option<usize>, fuel: nat) -> Found
    decreases fuel,
{
    match cur {
        None => Found::Missing,
        Some(c) => if fuel == 0 {
            Found::Missing
        } else if h.props(c).contains_key(key) {
            Found::Slot(h.props(c)[key])
        } else if ctor_key == Some(key) && ctor_value(h, c) is Some {
            Found::Ctor(ctor_value(h, c)->0)
        } else {
            find(h, h.proto(c), key, ctor_key, (fuel - 1) as nat)
        },
    }
}

/// What a slot answers to a read.
pub open spec fn read_slot(p: Property) -> Read {
    if p.has_accessor() {
        match p.get {
            Some(g) => Read::Getter(g),
            None => Read::Value(Value::Undefined),
        }
    } else {
        Read::Value(p.value)
    }
}

/// The read of a key along a chain, getters included.
pub open spec fn read_chain(h: HeapView, cur: Option<usize>, key: usize, ctor_key: Option<usize>) -> Read {
    match find(h, cur, key, ctor_key, h.cells.len()) {
        Found::Missing => Read::Value(Value::Undefined),
        Found::Slot(p) => read_slot(p),
        Found::Ctor(v) => Read::Value(v),
    }
}

/// The read of a key along a chain that takes the stored value of an accessor,
/// which is `undefined`.
pub open spec fn plain_chain(h: HeapView, cur: Option<usize>, key: usize, ctor_key: Option<usize>) -> Read {
    match find(h, cur, key, ctor_key, h.cells.len()) {
        Found::Missing => Read::Value(Value::Undefined),
        Found::Slot(p) => Read::Value(p.value),
        Found::Ctor(v) => Read::Value(v),
    }
}

/// The slot that a chain has under a key.
pub open spec fn slot_on_chain(h: HeapView, cur: Option<usize>, key: usize) -> Option<Property> {
    match find(h, cur, key, None, h.cells.len()) {
        Found::Slot(p) => Some(p),
        _ => None,
    }
}

/// The parent constructor of a function cell.
pub open spec fn super_of(h: HeapView, id: usize) -> Option<Value> {
    if id < h.cells.len() {
        match h.cells[id as int] {
            CellView::Function(d) => d.super_ctor,
            _ => None,
        }
    } else {
        None
    }
}

/// One link, or the given one where there is none.
pub open spec fn link_or(link: Option<usize>, other: usize) -> Option<usize> {
    match link {
        Some(i) => Some(i),
        None => Some(other),
    }
}

/// The slot that a value has or inherits under a key, getters not run. A derived
/// class constructor inherits from its parent constructor too.
pub open spec fn raw_property(s: StoreView, base: Value, key: usize, fuel: nat) -> Option<Property>
    decreases fuel,
{
    let h = s.heap;
    match base {
        Value::Object(o) => slot_on_chain(h, Some(o), key),
        Value::Array(a) => if h.props(a).contains_key(key) {
            Some(h.props(a)[key])
        } else {
            slot_on_chain(h, Some(s.b.array_prototype), key)
        },
        Value::Function(f) => if h.props(f).contains_key(key) {
            Some(h.props(f)[key])
        } else {
            match slot_on_chain(h, link_or(h.proto(f), s.b.function_prototype), key) {
                Some(p) => Some(p),
                None => match super_of(h, f) {
                    Some(sup) => if fuel == 0 { None } else { raw_property(s, sup, key, (fuel - 1) as nat) },
                    None => None,
                },
            }
        },
        Value::NativeFunction(f) => if h.props(f).contains_key(key) {
            Some(h.props(f)[key])
        } else {
            slot_on_chain(h, link_or(h.proto(f), s.b.function_prototype), key)
        },
        Value::Promise(p) => if h.props(p).contains_key(key) {
            Some(h.props(p)[key])
        } else {
            slot_on_chain(h, link_or(h.proto(p), s.b.promise_prototype), key)
        },
        Value::String(_) => slot_on_chain(h, Some(s.b.string_prototype), key),
        Value::Number(_) => slot_on_chain(h, Some(s.b.number_prototype), key),
        Value::Boolean(_) => slot_on_chain(h, Some(s.b.boolean_prototype), key),
        Value::Symbol(_) => slot_on_chain(h, Some(s.b.symbol_prototype), key),
        Value::BigInt(_) => slot_on_chain(h, Some(s.b.bigint_prototype), key),
        Value::Regex(_) => slot_on_chain(h, Some(s.b.regexp_prototype), key),
        Value::MapRef(_) => slot_on_chain(h, Some(s.b.map_prototype), key),
        Value::SetRef(_) => slot_on_chain(h, Some(s.b.set_prototype), key),
        Value::WeakMap(_) => slot_on_chain(h, Some(s.b.weakmap_prototype), key),
        Value::WeakSet(_) => slot_on_chain(h, Some(s.b.weakset_prototype), key),
        Value::Undefined | Value::Null => None,
    }
}

/// The read of an index of an array.
pub open spec fn read_element(h: HeapView, a: usize, i: usize) -> Read {
    match array_at(h, a) {
        Some(d) => match element(d, i) {
            Some(v) => Read::Value(v),
            None => Read::Value(Value::Undefined),
        },
        None => Read::Value(Value::Undefined),
    }
}

/// The length of an array.
pub open spec fn array_length(h: HeapView, a: usize) -> usize {
    match array_at(h, a) {
        Some(d) => d.length,
        None => 0,
    }
}

/// The `lastIndex` of a regular expression.
pub open spec fn last_index_of(h: HeapView, r: usize) -> usize {
    if r < h.cells.len() {
        match h.cells[r as int] {
            CellView::Regex(d) => d.last_index,
            _ => 0,
        }
    } else {
        0
    }
}

/// The answer to the read of property `key` of `base`.
pub open spec fn property(s: StoreView, base: Value, key: usize) -> Read {
    let h = s.heap;
    let ctor = Some(s.n.constructor);
    match base {
        Value::Object(o) => if key == s.n.length && h.props(o).contains_key(s.n.boxed) {
            Read::LengthOf(h.props(o)[s.n.boxed].value)
        } else {
            read_chain(h, Some(o), key, ctor)
        },
        Value::Array(a) => if key == s.n.length {
            Read::Value(Value::Number(double_of(array_length(h, a) as nat) as u64))
        } else {
            match index_of_key(s.text(key)) {
                Some(i) => read_element(h, a, i),
                None => if h.props(a).contains_key(key) {
                    read_slot(h.props(a)[key])
                } else {
                    plain_chain(h, Some(s.b.array_prototype), key, ctor)
                },
            }
        },
        Value::Function(f) => if h.props(f).contains_key(key) {
            read_slot(h.props(f)[key])
        } else {
            match find(h, h.proto(f), key, ctor, h.cells.len()) {
                Found::Slot(p) => read_slot(p),
                Found::Ctor(v) => Read::Value(v),
                Found::Missing => match super_of(h, f) {
                    Some(sup) => match raw_property(s, sup, key, h.cells.len()) {
                        Some(p) => read_slot(p),
                        None => Read::Value(Value::Undefined),
                    },
                    None => Read::Value(Value::Undefined),
                },
            }
        },
        Value::String(t) => if key == s.n.length {
            Read::Value(Value::Number(double_of(encode_utf8(s.text(t)).len() as usize as nat) as u64))
        } else {
            match index_of_key(s.text(key)) {
                Some(i) => if i < s.text(t).len() {
                    Read::Char(s.text(t)[i as int])
                } else {
                    Read::Value(Value::Undefined)
                },
                None => plain_chain(h, Some(s.b.string_prototype), key, ctor),
            }
        },
        Value::Number(_) => plain_chain(h, Some(s.b.number_prototype), key, ctor),
        Value::Boolean(_) => plain_chain(h, Some(s.b.boolean_prototype), key, ctor),
        Value::Symbol(_) => read_chain(h, Some(s.b.symbol_prototype), key, None),
        Value::BigInt(_) => read_chain(h, Some(s.b.bigint_prototype), key, None),
        Value::Regex(r) => if key == s.n.last_index {
            Read::Value(Value::Number(double_of(last_index_of(h, r) as nat) as u64))
        } else {
            read_chain(h, Some(s.b.regexp_prototype), key, ctor)
        },
        Value::MapRef(_) => read_chain(h, Some(s.b.map_prototype), key, ctor),
        Value::SetRef(_) => read_chain(h, Some(s.b.set_prototype), key, ctor),
        Value::WeakMap(_) => read_chain(h, Some(s.b.weakmap_prototype), key, ctor),
        Value::WeakSet(_) => read_chain(h, Some(s.b.weakset_prototype), key, ctor),
        Value::Promise(p) => if h.props(p).contains_key(key) {
            Read::Value(h.props(p)[key].value)
        } else {
            read_chain(h, link_or(h.proto(p), s.b.promise_prototype), key, ctor)
        },
        Value::NativeFunction(f) => if h.props(f).contains_key(key) {
            read_slot(h.props(f)[key])
        } else {
            plain_chain(h, link_or(h.proto(f), s.b.function_prototype), key, ctor)
        },
        Value::Undefined | Value::Null => Read::Value(Value::Undefined),
    }
}

/// The object that a constructor's instances inherit from.
pub open spec fn instance_prototype(s: StoreView, ctor: Value) -> Option<usize> {
    let h = s.heap;
    match ctor {
        Value::Function(f) => own_object(h, f, s.n.prototype),
        Value::NativeFunction(f) => match own_object(h, f, s.n.prototype) {
            Some(o) => Some(o),
            None => h.proto(f),
        },
        _ => None,
    }
}

/// The object that a cell has under a key, if the value is an ordinary object.
pub open spec fn own_object(h: HeapView, id: usize, key: usize) -> Option<usize> {
    if h.props(id).contains_key(key) {
        match h.props(id)[key].value {
            Value::Object(o) => Some(o),
            _ => None,
        }
    } else {
        None
    }
}

impl ArrayData {
    /// The `length` of the array.
    pub fn logical_len(&self) -> (r: usize)
        ensures
            r == self@.length,
    {
        self.length
    }

    /// The element at an index.
    pub fn get_index(&self, i: usize) -> (r: Option<Value>)
        ensures
            r == element(self@, i),
    {
        if i < self.elems.len() {
            Some(self.elems[i])
        } else {
            self.sparse.get(i)
        }
    }
}

impl<'a> Heap<'a> {
    fn resolve_ctor(&self, id: usize) -> (r: Option<Value>)
        ensures
            r == ctor_value(self@, id),
    {
        if id < self.cells.len() {
            assert(self@.cells[id as int] == self.cells@[id as int]@);
            match &self.cells[id] {
                Cell::Object(d) => match d.ctor {
                    Some(CtorRef::Func(i)) => Some(Value::Function(i)),
                    Some(CtorRef::Native(i)) => Some(Value::NativeFunction(i)),
                    None => None,
                },
                _ => None,
            }
        } else {
            None
        }
    }

    /// Searches a prototype chain.
    pub fn find_on_chain(&self, start: Option<usize>, key: usize, ctor_key: Option<usize>) -> (r: Found)
        ensures
            r == find(self@, start, key, ctor_key, self@.cells.len()),
    {
        let mut cur = start;
        let mut fuel: usize = self.cells.len();
        loop
            invariant
                find(self@, start, key, ctor_key, self@.cells.len()) == find(self@, cur, key, ctor_key, fuel as nat),
            decreases fuel,
        {
            match cur {
                None => {
                    return Found::Missing;
                },
                Some(c) => {
                    if fuel == 0 {
                        return Found::Missing;
                    }
                    match self.get_prop(c, key) {
                        Some(p) => {
                            return Found::Slot(p);
                        },
                        None => {},
                    }
                    if ctor_key == Some(key) {
                        match self.resolve_ctor(c) {
                            Some(v) => {
                                return Found::Ctor(v);
                            },
                            None => {},
                        }
                    }
                    cur = self.proto(c);
                    fuel = fuel - 1;
                },
            }
        }
    }

    fn slot_on_chain(&self, start: Option<usize>, key: usize) -> (r: Option<Property>)
        ensures
            r == slot_on_chain(self@, start, key),
    {
        match self.find_on_chain(start, key, None) {
            Found::Slot(p) => Some(p),
            _ => None,
        }
    }

    pub(crate) fn super_of(&self, id: usize) -> (r: Option<Value>)
        ensures
            r == super_of(self@, id),
    {
        if id < self.cells.len() {
            assert(self@.cells[id as int] == self.cells@[id as int]@);
            match &self.cells[id] {
                Cell::Function(d) => d.super_ctor,
                _ => None,
            }
        } else {
            None
        }
    }

    /// The length of an array.
    pub fn array_length(&self, id: usize) -> (r: usize)
        ensures
            r == array_length(self@, id),
    {
        if id < self.cells.len() {
            assert(self@.cells[id as int] == self.cells@[id as int]@);
            match &self.cells[id] {
                Cell::Array(d) => d.logical_len(),
                _ => 0,
            }
        } else {
            0
        }
    }

    /// The element at an index of an array.
    pub fn array_element(&self, id: usize, i: usize) -> (r: Option<Value>)
        ensures
            r == (match array_at(self@, id) {
                Some(d) => element(d, i),
                None => None,
            }),
    {
        if id < self.cells.len() {
            assert(self@.cells[id as int] == self.cells@[id as int]@);
            match &self.cells[id] {
                Cell::Array(d) => d.get_index(i),
                _ => None,
            }
        } else {
            None
        }
    }

    fn last_index(&self, id: usize) -> (r: usize)
        ensures
            r == last_index_of(self@, id),
    {
        if id < self.cells.len() {
            assert(self@.cells[id as int] == self.cells@[id as int]@);
            match &self.cells[id] {
                Cell::Regex(d) => d.last_index,
                _ => 0,
            }
        } else {
            0
        }
    }
}

fn or_link(link: Option<usize>, other: usize) -> (r: Option<usize>)
    ensures
        r == link_or(link, other),
{
    match link {
        Some(i) => Some(i),
        None => Some(other),
    }
}

/// What a slot answers to a read.
pub fn answer_of(p: Property) -> (r: Read)
    ensures
        r == read_slot(p),
{
    if p.is_accessor() {
        match p.get {
            Some(g) => Read::Getter(g),
            None => Read::Value(Value::Undefined),
        }
    } else {
        Read::Value(p.value)
    }
}

impl<'a> Store<'a> {
    /// Looks a key up along a chain, taking stored values as they are.
    fn lookup_proto(&self, start: Option<usize>, key: usize) -> (r: Read)
        ensures
            r == plain_chain(self@.heap, start, key, Some(self@.n.constructor)),
    {
        match self.heap.find_on_chain(start, key, Some(self.n.constructor)) {
            Found::Missing => Read::Value(Value::Undefined),
            Found::Slot(p) => Read::Value(p.value),
            Found::Ctor(v) => Read::Value(v),
        }
    }

    /// Looks a key up along a chain, getters included.
    fn get_via_proto(&self, start: Option<usize>, key: usize, ctor_key: Option<usize>) -> (r: Read)
        ensures
            r == read_chain(self@.heap, start, key, ctor_key),
    {
        match self.heap.find_on_chain(start, key, ctor_key) {
            Found::Missing => Read::Value(Value::Undefined),
            Found::Slot(p) => answer_of(p),
            Found::Ctor(v) => Read::Value(v),
        }
    }

    /// The slot that a value has or inherits, getters not run.
    pub fn get_raw_property(&self, base: Value, key: usize) -> (r: Option<Property>)
        ensures
            r == raw_property(self@, base, key, self@.heap.cells.len()),
    {
        let n = self.heap.cells.len();
        self.raw_within(base, key, n)
    }

    fn raw_within(&self, base: Value, key: usize, fuel: usize) -> (r: Option<Property>)
        ensures
            r == raw_property(self@, base, key, fuel as nat),
        decreases fuel,
    {
        let h = &self.heap;
        match base {
            Value::Object(o) => h.slot_on_chain(Some(o), key),
            Value::Array(a) => match h.get_prop(a, key) {
                Some(p) => Some(p),
                None => h.slot_on_chain(Some(self.b.array_prototype), key),
            },
            Value::Function(f) => match h.get_prop(f, key) {
                Some(p) => Some(p),
                None => match h.slot_on_chain(or_link(h.proto(f), self.b.function_prototype), key) {
                    Some(p) => Some(p),
                    None => match h.super_of(f) {
                        Some(sup) => if fuel == 0 { None } else { self.raw_within(sup, key, fuel - 1) },
                        None => None,
                    },
                },
            },
            Value::NativeFunction(f) => match h.get_prop(f, key) {
                Some(p) => Some(p),
                None => h.slot_on_chain(or_link(h.proto(f), self.b.function_prototype), key),
            },
            Value::Promise(p) => match h.get_prop(p, key) {
                Some(p) => Some(p),
                None => h.slot_on_chain(or_link(h.proto(p), self.b.promise_prototype), key),
            },
            Value::String(_) => h.slot_on_chain(Some(self.b.string_prototype), key),
            Value::Number(_) => h.slot_on_chain(Some(self.b.number_prototype), key),
            Value::Boolean(_) => h.slot_on_chain(Some(self.b.boolean_prototype), key),
            Value::Symbol(_) => h.slot_on_chain(Some(self.b.symbol_prototype), key),
            Value::BigInt(_) => h.slot_on_chain(Some(self.b.bigint_prototype), key),
            Value::Regex(_) => h.slot_on_chain(Some(self.b.regexp_prototype), key),
            Value::MapRef(_) => h.slot_on_chain(Some(self.b.map_prototype), key),
            Value::SetRef(_) => h.slot_on_chain(Some(self.b.set_prototype), key),
            Value::WeakMap(_) => h.slot_on_chain(Some(self.b.weakmap_prototype), key),
            Value::WeakSet(_) => h.slot_on_chain(Some(self.b.weakset_prototype), key),
            Value::Undefined | Value::Null => None,
        }
    }

    /// Reads a property of a value, following the prototype chain. Primitives are
    /// looked up on their prototype objects.
    pub fn get_property(&self, base: Value, key: usize) -> (r: Read)
        ensures
            r == property(self@, base, key),
    {
        let h = &self.heap;
        let ctor = Some(self.n.constructor);
        match base {
            Value::Object(o) => {
                if key == self.n.length {
                    match h.get_prop(o, self.n.boxed) {
                        Some(p) => {
                            return Read::LengthOf(p.value);
                        },
                        None => {},
                    }
                }
                self.get_via_proto(Some(o), key, ctor)
            },
            Value::Array(a) => if key == self.n.length {
                Read::Value(Value::Number(from_u64(h.array_length(a) as u64)))
            } else {
                match parse_index(h.atoms.text(key)) {
                    Some(i) => match h.array_element(a, i) {
                        Some(v) => Read::Value(v),
                        None => Read::Value(Value::Undefined),
                    },
                    None => match h.get_prop(a, key) {
                        Some(p) => answer_of(p),
                        None => self.lookup_proto(Some(self.b.array_prototype), key),
                    },
                }
            },
            Value::Function(f) => match h.get_prop(f, key) {
                Some(p) => answer_of(p),
                None => match h.find_on_chain(h.proto(f), key, ctor) {
                    Found::Slot(p) => answer_of(p),
                    Found::Ctor(v) => Read::Value(v),
                    Found::Missing => match h.super_of(f) {
                        Some(sup) => match self.get_raw_property(sup, key) {
                            Some(p) => answer_of(p),
                            None => Read::Value(Value::Undefined),
                        },
                        None => Read::Value(Value::Undefined),
                    },
                },
            },
            Value::String(t) => {
                let text = h.atoms.text(t);
                if key == self.n.length {
                    Read::Value(Value::Number(from_u64(text.len() as u64)))
                } else {
                    match parse_index(h.atoms.text(key)) {
                        Some(i) => {
                            let chars = chars_of(text);
                            if i < chars.len() {
                                Read::Char(chars[i])
                            } else {
                                Read::Value(Value::Undefined)
                            }
                        },
                        None => self.lookup_proto(Some(self.b.string_prototype), key),
                    }
                }
            },
            Value::Number(_) => self.lookup_proto(Some(self.b.number_prototype), key),
            Value::Boolean(_) => self.lookup_proto(Some(self.b.boolean_prototype), key),
            Value::Symbol(_) => self.get_via_proto(Some(self.b.symbol_prototype), key, None),
            Value::BigInt(_) => self.get_via_proto(Some(self.b.bigint_prototype), key, None),
            Value::Regex(r) => if key == self.n.last_index {
                Read::Value(Value::Number(from_u64(h.last_index(r) as u64)))
            } else {
                self.get_via_proto(Some(self.b.regexp_prototype), key, ctor)
            },
            Value::MapRef(_) => self.get_via_proto(Some(self.b.map_prototype), key, ctor),
            Value::SetRef(_) => self.get_via_proto(Some(self.b.set_prototype), key, ctor),
            Value::WeakMap(_) => self.get_via_proto(Some(self.b.weakmap_prototype), key, ctor),
            Value::WeakSet(_) => self.get_via_proto(Some(self.b.weakset_prototype), key, ctor),
            Value::Promise(p) => match h.get_prop(p, key) {
                Some(slot) => Read::Value(slot.value),
                None => self.get_via_proto(or_link(h.proto(p), self.b.promise_prototype), key, ctor),
            },
            Value::NativeFunction(f) => match h.get_prop(f, key) {
                Some(p) => answer_of(p),
                None => self.lookup_proto(or_link(h.proto(f), self.b.function_prototype), key),
            },
            Value::Undefined | Value::Null => Read::Value(Value::Undefined),
        }
    }

    /// The object that a constructor's instances inherit from (for `instanceof`
    /// and class heritage).
    pub fn proto_of(&self, ctor: Value) -> (r: Option<usize>)
        ensures
            r == instance_prototype(self@, ctor),
    {
        match ctor {
            Value::Function(f) => match self.heap.get_prop(f, self.n.prototype) {
                Some(p) => match p.value {
                    Value::Object(o) => Some(o),
                    _ => None,
                },
                None => None,
            },
            Value::NativeFunction(f) => match self.heap.get_prop(f, self.n.prototype) {
                Some(p) => match p.value {
                    Value::Object(o) => Some(o),
                    _ => self.heap.proto(f),
                },
                None => self.heap.proto(f),
            },
            _ => None,
        }
    }
}

} // verus!
