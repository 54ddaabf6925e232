//! Own properties: queries, definition, deletion and listing.
use vstd::prelude::*;
use crate::convert::truthy;
use crate::heap::Heap;
use crate::number::{double_of, from_u64};
use crate::object::{array_at, array_length, element, link_or, raw_property, slot_on_chain, super_of, Found};
use crate::object_write::{with_array, with_element};
use crate::store::{Store, StoreView};
use crate::text::{chars_of, index_of_key, parse_index};
use crate::value::{ArrayData, ArrayDataView, Cell, CellView, ObjectView, Property, Value};

verus! {

/// The number of the cell that holds a value's property table.
pub open spec fn table_of(base: Value) -> Option<usize> {
    match base {
        Value::Object(i) | Value::Array(i) | Value::Function(i) | Value::NativeFunction(i) | Value::Promise(i) => Some(i),
        _ => None,
    }
}

/// The own slot of a value under a key; array elements have none.
pub open spec fn own_slot(s: StoreView, base: Value, key: usize) -> Option<Property> {
    match table_of(base) {
        Some(i) => if s.heap.props(i).contains_key(key) { Some(s.heap.props(i)[key]) } else { None },
        None => None,
    }
}

/// Whether an array has an element under a key.
pub open spec fn has_element(s: StoreView, a: usize, key: usize) -> bool {
    match (array_at(s.heap, a), index_of_key(s.text(key))) {
        (Some(d), Some(i)) => i < d.length && element(d, i) is Some,
        _ => false,
    }
}

/// Whether a value has an own property.
pub open spec fn owns(s: StoreView, base: Value, key: usize) -> bool {
    match base {
        Value::Array(a) => key == s.n.length || has_element(s, a, key) || own_slot(s, base, key) is Some,
        Value::String(t) => key == s.n.length || (match index_of_key(s.text(key)) {
            Some(i) => i < s.text(t).len(),
            None => false,
        }),
        _ => own_slot(s, base, key) is Some,
    }
}

/// Whether an own property is enumerable, where there is one. The elements of an array
/// and the characters of a string are; their lengths are not.
pub open spec fn enumerable_flag(s: StoreView, base: Value, key: usize) -> Option<bool> {
    match own_slot(s, base, key) {
        Some(p) => Some(p.enumerable),
        None => if owns(s, base, key) { Some(key != s.n.length) } else { None },
    }
}

/// Whether a value has or inherits a slot under a key. A derived class constructor
/// inherits from its parent constructor too.
pub open spec fn has_slot(s: StoreView, base: Value, key: usize) -> bool {
    match base {
        Value::Function(f) => own_slot(s, base, key) is Some
            || slot_on_chain(s.heap, link_or(s.heap.proto(f), s.b.function_prototype), key) is Some
            || (super_of(s.heap, f) matches Some(sup) && raw_property(s, sup, key, s.heap.cells.len()) is Some),
        _ => raw_property(s, base, key, s.heap.cells.len()) is Some,
    }
}

/// Whether the `in` operator finds a key: whether it is an own or an inherited property.
/// A string has its length and its indices; the other primitives have nothing.
pub open spec fn found_in(s: StoreView, base: Value, key: usize) -> bool {
    match base {
        Value::Object(_) | Value::Array(_) | Value::Function(_) | Value::NativeFunction(_) | Value::Promise(_) => owns(s, base, key)
            || has_slot(s, base, key),
        Value::Regex(_) => key == s.n.last_index || has_slot(s, base, key),
        Value::MapRef(_) | Value::SetRef(_) | Value::WeakMap(_) | Value::WeakSet(_) => has_slot(s, base, key),
        Value::String(_) => owns(s, base, key),
        _ => false,
    }
}

/// The outcome of a deletion.
#[derive(Clone, Copy, PartialEq, Eq, Structural, Debug)]
pub enum Deletion {
    /// The operator answers `true`.
    Yes,
    /// The operator answers `false`.
    No,
    /// A `TypeError`: the property is not configurable, and the code is strict.
    Refused,
}

/// An array without the element at an index.
pub open spec fn without_element(d: ArrayDataView, i: usize) -> ArrayDataView {
    ArrayDataView {
        elems: if i < d.elems.len() { d.elems.update(i as int, Value::Undefined) } else { d.elems },
        sparse: d.sparse.remove(i),
        ..d
    }
}

/// The effect of `delete` on a property, and its answer.
pub open spec fn deleted<'a>(s: StoreView<'a>, base: Value, key: usize) -> (StoreView<'a>, Deletion) {
    match base {
        Value::Object(i) | Value::Function(i) | Value::NativeFunction(i) | Value::Array(i) => match own_slot(s, base, key) {
            Some(p) => if p.configurable {
                (s.with_heap(s.heap.minus_prop(i, key)), Deletion::Yes)
            } else {
                (s, if s.strict { Deletion::Refused } else { Deletion::No })
            },
            None => match (base, index_of_key(s.text(key)), array_at(s.heap, i)) {
                (Value::Array(a), Some(k), Some(d)) => (s.with_heap(with_array(s.heap, a, without_element(d, k))), Deletion::Yes),
                _ => (s, Deletion::Yes),
            },
        },
        _ => (s, Deletion::Yes),
    }
}

/// A property descriptor: what a descriptor object says. What it leaves out is `None`.
#[derive(Clone, Copy, PartialEq, Eq, Structural, Debug)]
pub struct Descriptor {
    pub value: Option<Value>,
    pub writable: Option<bool>,
    pub enumerable: Option<bool>,
    pub configurable: Option<bool>,
    pub get: Option<Value>,
    pub set: Option<Value>,
}

/// The own value of an object under a key.
pub open spec fn field(s: StoreView, o: usize, key: usize) -> Option<Value> {
    if s.heap.props(o).contains_key(key) { Some(s.heap.props(o)[key].value) } else { None }
}

/// Whether the own value of an object under a key is truthy, where there is one.
pub open spec fn flag(s: StoreView, o: usize, key: usize) -> Option<bool> {
    match field(s, o, key) {
        Some(v) => Some(truthy(s, v)),
        None => None,
    }
}

/// What a descriptor value says; anything but an ordinary object says nothing.
pub open spec fn described(s: StoreView, desc: Value) -> Descriptor {
    match desc {
        Value::Object(o) => Descriptor {
            value: field(s, o, s.n.value),
            writable: flag(s, o, s.n.writable),
            enumerable: flag(s, o, s.n.enumerable),
            configurable: flag(s, o, s.n.configurable),
            get: field(s, o, s.n.get),
            set: field(s, o, s.n.set),
        },
        _ => Descriptor { value: None, writable: None, enumerable: None, configurable: None, get: None, set: None },
    }
}

/// What is said, or else what was.
pub open spec fn said<T>(new: Option<T>, before: T) -> T {
    match new {
        Some(v) => v,
        None => before,
    }
}

/// What is said, or else what was, if anything.
pub open spec fn kept(new: Option<Value>, before: Option<Value>) -> Option<Value> {
    match new {
        Some(v) => Some(v),
        None => before,
    }
}

impl Descriptor {
    /// Whether a getter or setter is described.
    pub open spec fn has_accessor(self) -> bool {
        self.get is Some || self.set is Some
    }

    /// Whether a value or its being writable is described.
    pub open spec fn has_data(self) -> bool {
        self.value is Some || self.writable is Some
    }

    /// The slot that the descriptor makes where there is none: what it leaves out is
    /// `undefined` or false.
    pub open spec fn new_slot(self) -> Property {
        Property {
            value: if self.has_accessor() { Value::Undefined } else { said(self.value, Value::Undefined) },
            writable: !self.has_accessor() && said(self.writable, false),
            enumerable: said(self.enumerable, false),
            configurable: said(self.configurable, false),
            get: self.get,
            set: self.set,
        }
    }

    /// The slot that the descriptor makes of another: what it leaves out stays. A data
    /// slot that becomes an accessor loses its value, and the other way round.
    pub open spec fn changed(self, p: Property) -> Property {
        if self.has_accessor() {
            Property {
                value: Value::Undefined,
                writable: false,
                enumerable: said(self.enumerable, p.enumerable),
                configurable: said(self.configurable, p.configurable),
                get: kept(self.get, p.get),
                set: kept(self.set, p.set),
            }
        } else if self.has_data() && p.has_accessor() {
            Property::slot(
                said(self.value, Value::Undefined),
                said(self.writable, false),
                said(self.enumerable, p.enumerable),
                said(self.configurable, p.configurable),
            )
        } else {
            Property {
                value: said(self.value, p.value),
                writable: said(self.writable, p.writable),
                enumerable: said(self.enumerable, p.enumerable),
                configurable: said(self.configurable, p.configurable),
                get: p.get,
                set: p.set,
            }
        }
    }

    /// Whether the descriptor may redefine a slot that is not configurable: it may not
    /// make it configurable, change whether it is enumerable, turn it into the other
    /// kind or change its accessors; a read-only one stays read-only and keeps its
    /// value.
    pub open spec fn agrees_with(self, p: Property) -> bool {
        &&& self.configurable != Some(true)
        &&& said(self.enumerable, p.enumerable) == p.enumerable
        &&& if p.has_accessor() {
            &&& !self.has_data()
            &&& self.get is Some ==> or_undefined(p.get).same(self.get->0)
            &&& self.set is Some ==> or_undefined(p.set).same(self.set->0)
        } else {
            &&& !self.has_accessor()
            &&& p.writable || (self.writable != Some(true) && (self.value is Some ==> p.value.same(self.value->0)))
        }
    }
}

/// The value, or `undefined`.
pub open spec fn or_undefined(v: Option<Value>) -> Value {
    match v {
        Some(x) => x,
        None => Value::Undefined,
    }
}

/// The outcome of a definition.
#[derive(Clone, Copy, PartialEq, Eq, Structural, Debug)]
pub enum Definition {
    Done,
    /// A `TypeError`: the property cannot be redefined.
    Refused,
    /// The value is to be converted to a number, which then becomes the length of
    /// the array.
    NeedsNumber(Value),
}

/// The effect of storing a slot as it is. Elements of arrays have no attributes, and
/// the length is stored only where `sized` holds.
pub open spec fn stored<'a>(s: StoreView<'a>, base: Value, key: usize, p: Property, sized: bool) -> (StoreView<'a>, Definition) {
    match base {
        Value::Array(a) => if key == s.n.length {
            (s, if sized { Definition::NeedsNumber(p.value) } else { Definition::Done })
        } else {
            match index_of_key(s.text(key)) {
                Some(i) => match array_at(s.heap, a) {
                    Some(d) => (s.with_heap(with_array(s.heap, a, with_element(d, i, p.value))), Definition::Done),
                    None => (s, Definition::Done),
                },
                None => (s.with_heap(s.heap.plus_prop(a, key, p)), Definition::Done),
            }
        },
        _ => match table_of(base) {
            Some(i) => (s.with_heap(s.heap.plus_prop(i, key, p)), Definition::Done),
            None => (s, Definition::Done),
        },
    }
}

/// The slot that a definition changes; a primitive has none.
pub open spec fn present(s: StoreView, base: Value, key: usize) -> Option<Property> {
    if table_of(base) is Some { reported(s, base, key) } else { None }
}

/// The effect of `Object.defineProperty`: an own property is changed as far as the
/// descriptor speaks of it, or a new one is made.
pub open spec fn defined<'a>(s: StoreView<'a>, base: Value, key: usize, desc: Value) -> (StoreView<'a>, Definition) {
    let d = described(s, desc);
    match present(s, base, key) {
        Some(p) => if p.configurable || d.agrees_with(p) {
            stored(s, base, key, d.changed(p), d.value is Some)
        } else {
            (s, Definition::Refused)
        },
        None => stored(s, base, key, d.new_slot(), d.value is Some),
    }
}

/// The store with a new object of the ordinary prototype, whose number is the
/// number of cells before.
pub open spec fn with_new_object<'a>(s: StoreView<'a>) -> StoreView<'a> {
    s.with_heap(s.heap.plus_cell(CellView::Object(ObjectView {
        props: Map::empty(),
        proto: Some(s.b.object_prototype),
        ctor: None,
    })).plus_registration(s.heap.cells.len() as usize))
}

/// The store with an ordinary property of a cell bound.
pub open spec fn with_field<'a>(s: StoreView<'a>, id: usize, key: usize, v: Value) -> StoreView<'a> {
    s.with_heap(s.heap.plus_prop(id, key, Property::slot(v, true, true, true)))
}

/// The store with a descriptor object for a slot, whose number is the number of
/// cells before.
pub open spec fn with_descriptor<'a>(s: StoreView<'a>, p: Property) -> StoreView<'a> {
    let d = s.heap.cells.len() as usize;
    let a = with_new_object(s);
    let b = if p.has_accessor() {
        with_field(with_field(a, d, s.n.get, or_undefined(p.get)), d, s.n.set, or_undefined(p.set))
    } else {
        with_field(with_field(a, d, s.n.value, p.value), d, s.n.writable, Value::Boolean(p.writable))
    };
    with_field(with_field(b, d, s.n.enumerable, Value::Boolean(p.enumerable)), d, s.n.configurable, Value::Boolean(p.configurable))
}

/// The character of a string under a key.
pub open spec fn char_under(s: StoreView, base: Value, key: usize) -> Option<char> {
    match (base, index_of_key(s.text(key))) {
        (Value::String(t), Some(i)) => if key != s.n.length && i < s.text(t).len() { Some(s.text(t)[i as int]) } else { None },
        _ => None,
    }
}

/// The store with a descriptor object for a character of a string, whose number is the
/// number of cells before.
pub open spec fn with_char_descriptor<'a>(s: StoreView<'a>, c: char) -> StoreView<'a> {
    with_descriptor(s.with_text(seq![c]), Property::slot(Value::String(s.atom(seq![c])), false, true, false))
}

/// The slot that stands for an own property in a descriptor. The characters of a string
/// have none.
pub open spec fn reported(s: StoreView, base: Value, key: usize) -> Option<Property> {
    match own_slot(s, base, key) {
        Some(p) => Some(p),
        None => match base {
            Value::Array(a) => if key == s.n.length {
                Some(Property::slot(Value::Number(double_of(array_length(s.heap, a) as nat) as u64), true, false, false))
            } else if has_element(s, a, key) {
                Some(Property::slot(element(array_at(s.heap, a)->0, index_of_key(s.text(key))->0)->0, true, true, true))
            } else {
                None
            },
            Value::String(t) => if key == s.n.length {
                Some(Property::slot(Value::Number(double_of(s.text(t).len() as usize as nat) as u64), false, false, false))
            } else {
                None
            },
            _ => None,
        },
    }
}

impl<'a> Store<'a> {
    /// The own slot of a value.
    pub fn own_property(&self, base: Value, key: usize) -> (r: Option<Property>)
        ensures
            r == own_slot(self@, base, key),
    {
        match base {
            Value::Object(i) | Value::Array(i) | Value::Function(i) | Value::NativeFunction(i) | Value::Promise(i) => self.heap.get_prop(i, key),
            _ => None,
        }
    }

    fn element_at(&self, a: usize, key: usize) -> (r: Option<Value>)
        ensures
            r is Some == has_element(self@, a, key),
            r is Some ==> r == element(array_at(self@.heap, a)->0, index_of_key(self@.text(key))->0),
    {
        match parse_index(self.heap.atoms.text(key)) {
            Some(i) => if i < self.heap.array_length(a) { self.heap.array_element(a, i) } else { None },
            None => None,
        }
    }

    /// Whether a value has an own property.
    pub fn has_own(&self, base: Value, key: usize) -> (r: bool)
        ensures
            r == owns(self@, base, key),
    {
        match base {
            Value::Array(a) => key == self.n.length || self.element_at(a, key).is_some() || self.own_property(base, key).is_some(),
            Value::String(t) => key == self.n.length || (match parse_index(self.heap.atoms.text(key)) {
                Some(i) => i < chars_of(self.heap.atoms.text(t)).len(),
                None => false,
            }),
            _ => self.own_property(base, key).is_some(),
        }
    }

    /// Whether an own property is enumerable, where there is one.
    pub fn prop_enumerable(&self, base: Value, key: usize) -> (r: Option<bool>)
        ensures
            r == enumerable_flag(self@, base, key),
    {
        match self.own_property(base, key) {
            Some(p) => Some(p.enumerable),
            None => if self.has_own(base, key) { Some(key != self.n.length) } else { None },
        }
    }

    fn has_slot(&self, base: Value, key: usize) -> (r: bool)
        ensures
            r == has_slot(self@, base, key),
    {
        match base {
            Value::Function(f) => {
                if self.own_property(base, key).is_some() {
                    return true;
                }
                let start = match self.heap.proto(f) {
                    Some(p) => p,
                    None => self.b.function_prototype,
                };
                match self.heap.find_on_chain(Some(start), key, None) {
                    Found::Slot(_) => {
                        return true;
                    },
                    _ => {},
                }
                match self.heap.super_of(f) {
                    Some(sup) => self.get_raw_property(sup, key).is_some(),
                    None => false,
                }
            },
            _ => self.get_raw_property(base, key).is_some(),
        }
    }

    /// The `in` operator.
    pub fn has_property(&self, key: usize, base: Value) -> (r: bool)
        ensures
            r == found_in(self@, base, key),
    {
        match base {
            Value::Object(_) | Value::Array(_) | Value::Function(_) | Value::NativeFunction(_) | Value::Promise(_) => self.has_own(base, key)
                || self.has_slot(base, key),
            Value::Regex(_) => key == self.n.last_index || self.has_slot(base, key),
            Value::MapRef(_) | Value::SetRef(_) | Value::WeakMap(_) | Value::WeakSet(_) => self.has_slot(base, key),
            Value::String(_) => self.has_own(base, key),
            _ => false,
        }
    }

    /// Deletes a property.
    pub fn delete_property(&mut self, base: Value, key: usize) -> (r: Deletion)
        ensures
            (final(self)@, r) == deleted(old(self)@, base, key),
    {
        match base {
            Value::Object(i) | Value::Function(i) | Value::NativeFunction(i) | Value::Array(i) => match self.heap.get_prop(i, key) {
                Some(p) => if p.configurable {
                    self.heap.remove_prop(i, key);
                    Deletion::Yes
                } else if self.strict {
                    Deletion::Refused
                } else {
                    Deletion::No
                },
                None => {
                    if matches!(base, Value::Array(_)) {
                        match parse_index(self.heap.atoms.text(key)) {
                            Some(k) => {
                                self.heap.remove_element(i, k);
                            },
                            None => {},
                        }
                    }
                    Deletion::Yes
                },
            },
            _ => Deletion::Yes,
        }
    }

    fn field(&self, o: usize, key: usize) -> (r: Option<Value>)
        ensures
            r == field(self@, o, key),
    {
        match self.heap.get_prop(o, key) {
            Some(p) => Some(p.value),
            None => None,
        }
    }

    fn flag(&self, o: usize, key: usize) -> (r: Option<bool>)
        ensures
            r == flag(self@, o, key),
    {
        match self.field(o, key) {
            Some(v) => Some(self.to_boolean(v)),
            None => None,
        }
    }

    /// What a descriptor value says.
    pub fn describe(&self, desc: Value) -> (r: Descriptor)
        ensures
            r == described(self@, desc),
    {
        match desc {
            Value::Object(o) => Descriptor {
                value: self.field(o, self.n.value),
                writable: self.flag(o, self.n.writable),
                enumerable: self.flag(o, self.n.enumerable),
                configurable: self.flag(o, self.n.configurable),
                get: self.field(o, self.n.get),
                set: self.field(o, self.n.set),
            },
            _ => Descriptor { value: None, writable: None, enumerable: None, configurable: None, get: None, set: None },
        }
    }

    /// Defines or modifies an own property, as `Object.defineProperty` does.
    pub fn define_property(&mut self, base: Value, key: usize, desc: Value) -> (r: Definition)
        ensures
            (final(self)@, r) == defined(old(self)@, base, key, desc),
    {
        let d = self.describe(desc);
        let present = match base {
            Value::String(_) => None,
            _ => self.report(base, key),
        };
        let slot = match present {
            Some(p) => {
                if !p.configurable && !d.agrees(p) {
                    return Definition::Refused;
                }
                d.change(p)
            },
            None => d.make(),
        };
        self.define_raw(base, key, slot, d.value.is_some())
    }

    fn define_raw(&mut self, base: Value, key: usize, p: Property, sized: bool) -> (r: Definition)
        ensures
            (final(self)@, r) == stored(old(self)@, base, key, p, sized),
    {
        match base {
            Value::Array(a) => if key == self.n.length {
                if sized { Definition::NeedsNumber(p.value) } else { Definition::Done }
            } else {
                match parse_index(self.heap.atoms.text(key)) {
                    Some(i) => {
                        self.write_element(a, i, p.value);
                    },
                    None => {
                        self.heap.insert_prop(a, key, p);
                    },
                }
                Definition::Done
            },
            Value::Object(i) | Value::Function(i) | Value::NativeFunction(i) | Value::Promise(i) => {
                self.heap.insert_prop(i, key, p);
                Definition::Done
            },
            _ => Definition::Done,
        }
    }

    /// Allocates an object of the ordinary prototype.
    pub fn new_object(&mut self) -> (r: usize)
        ensures
            r == old(self)@.heap.cells.len(),
            final(self)@ == with_new_object(old(self)@),
    {
        self.heap.make_object(self.b.object_prototype)
    }

    /// Binds an ordinary property of a cell.
    pub fn set_field(&mut self, id: usize, key: usize, v: Value)
        ensures
            final(self)@ == with_field(old(self)@, id, key, v),
    {
        self.heap.insert_prop(id, key, Property::new(v));
    }

    fn descriptor_object(&mut self, p: Property) -> (r: Value)
        ensures
            r == Value::Object(old(self)@.heap.cells.len() as usize),
            final(self)@ == with_descriptor(old(self)@, p),
    {
        let d = self.new_object();
        if p.is_accessor() {
            self.set_field(d, self.n.get, value_or_undefined(p.get));
            self.set_field(d, self.n.set, value_or_undefined(p.set));
        } else {
            self.set_field(d, self.n.value, p.value);
            self.set_field(d, self.n.writable, Value::Boolean(p.writable));
        }
        self.set_field(d, self.n.enumerable, Value::Boolean(p.enumerable));
        self.set_field(d, self.n.configurable, Value::Boolean(p.configurable));
        Value::Object(d)
    }

    fn report(&self, base: Value, key: usize) -> (r: Option<Property>)
        ensures
            r == reported(self@, base, key),
    {
        match self.own_property(base, key) {
            Some(p) => Some(p),
            None => match base {
                Value::Array(a) => if key == self.n.length {
                    Some(Property::data(Value::Number(from_u64(self.heap.array_length(a) as u64)), true, false, false))
                } else {
                    match self.element_at(a, key) {
                        Some(v) => Some(Property::new(v)),
                        None => None,
                    }
                },
                Value::String(t) => if key == self.n.length {
                    let n = chars_of(self.heap.atoms.text(t)).len();
                    Some(Property::data(Value::Number(from_u64(n as u64)), false, false, false))
                } else {
                    None
                },
                _ => None,
            },
        }
    }

    /// A descriptor object for an own property, or `undefined`.
    pub fn get_own_descriptor(&mut self, base: Value, key: usize) -> (r: Value)
        ensures
            r == if owns(old(self)@, base, key) { Value::Object(old(self)@.heap.cells.len() as usize) } else { Value::Undefined },
            final(self)@ == match (reported(old(self)@, base, key), char_under(old(self)@, base, key)) {
                (Some(p), _) => with_descriptor(old(self)@, p),
                (None, Some(c)) => with_char_descriptor(old(self)@, c),
                (None, None) => old(self)@,
            },
    {
        match self.report(base, key) {
            Some(p) => self.descriptor_object(p),
            None => match self.char_under(base, key) {
                Some(c) => {
                    let mut t = String::new();
                    t.push(c);
                    assert(t@ =~= seq![c]);
                    let a = self.intern(t.as_str());
                    self.descriptor_object(Property::data(Value::String(a), false, true, false))
                },
                None => Value::Undefined,
            },
        }
    }

    fn char_under(&self, base: Value, key: usize) -> (r: Option<char>)
        ensures
            r == char_under(self@, base, key),
    {
        match base {
            Value::String(t) => match parse_index(self.heap.atoms.text(key)) {
                Some(i) => {
                    let v = chars_of(self.heap.atoms.text(t));
                    if key != self.n.length && i < v.len() { Some(v[i]) } else { None }
                },
                None => None,
            },
            _ => None,
        }
    }
}

fn flag_or(new: Option<bool>, before: bool) -> (r: bool)
    ensures
        r == said(new, before),
{
    match new {
        Some(v) => v,
        None => before,
    }
}

fn value_or(new: Option<Value>, before: Value) -> (r: Value)
    ensures
        r == said(new, before),
{
    match new {
        Some(v) => v,
        None => before,
    }
}

fn either(new: Option<Value>, before: Option<Value>) -> (r: Option<Value>)
    ensures
        r == kept(new, before),
{
    match new {
        Some(v) => Some(v),
        None => before,
    }
}

impl Descriptor {
    /// The slot that the descriptor makes where there is none.
    pub fn make(self) -> (r: Property)
        ensures
            r == self.new_slot(),
    {
        let accessor = self.get.is_some() || self.set.is_some();
        Property {
            value: if accessor { Value::Undefined } else { value_or_undefined(self.value) },
            writable: !accessor && flag_or(self.writable, false),
            enumerable: flag_or(self.enumerable, false),
            configurable: flag_or(self.configurable, false),
            get: self.get,
            set: self.set,
        }
    }

    /// The slot that the descriptor makes of another.
    pub fn change(self, p: Property) -> (r: Property)
        ensures
            r == self.changed(p),
    {
        let enumerable = flag_or(self.enumerable, p.enumerable);
        let configurable = flag_or(self.configurable, p.configurable);
        if self.get.is_some() || self.set.is_some() {
            Property { value: Value::Undefined, writable: false, enumerable, configurable, get: either(self.get, p.get), set: either(self.set, p.set) }
        } else if (self.value.is_some() || self.writable.is_some()) && p.is_accessor() {
            Property::data(value_or_undefined(self.value), flag_or(self.writable, false), enumerable, configurable)
        } else {
            Property { value: value_or(self.value, p.value), writable: flag_or(self.writable, p.writable), enumerable, configurable, get: p.get, set: p.set }
        }
    }

    /// Whether the descriptor may redefine a slot that is not configurable.
    pub fn agrees(self, p: Property) -> (r: bool)
        ensures
            r == self.agrees_with(p),
    {
        if flag_or(self.configurable, false) || flag_or(self.enumerable, p.enumerable) != p.enumerable {
            return false;
        }
        if p.is_accessor() {
            self.value.is_none() && self.writable.is_none() && !differs(p.get, self.get) && !differs(p.set, self.set)
        } else {
            self.get.is_none() && self.set.is_none() && (p.writable || (!flag_or(self.writable, false) && !differs(Some(p.value), self.value)))
        }
    }
}

/// The value, or `undefined`.
pub fn value_or_undefined(v: Option<Value>) -> (r: Value)
    ensures
        r == or_undefined(v),
{
    match v {
        Some(x) => x,
        None => Value::Undefined,
    }
}

/// Whether a described value is there and differs from the present one.
fn differs(present: Option<Value>, described: Option<Value>) -> (r: bool)
    ensures
        r == !(described is Some ==> or_undefined(present).same(described->0)),
{
    match described {
        Some(v) => !Value::same_value(value_or_undefined(present), v),
        None => false,
    }
}

impl ArrayData {
    /// Turns an element into a hole; in the dense prefix it becomes `undefined`.
    pub fn remove_index(&mut self, i: usize)
        ensures
            final(self)@ == without_element(old(self)@, i),
    {
        let ghost before = self@;
        self.sparse.remove(i);
        if i < self.elems.len() {
            self.elems.set(i, Value::Undefined);
        }
        assert(self@ =~= without_element(before, i));
    }
}

impl<'a> Heap<'a> {
    /// The length of an array's dense prefix.
    pub fn dense_len(&self, a: usize) -> (r: usize)
        ensures
            r == (match array_at(self@, a) {
                Some(d) => d.elems.len(),
                None => 0,
            }),
    {
        if a < self.cells.len() {
            assert(self@.cells[a as int] == self.cells@[a as int]@);
            match &self.cells[a] {
                Cell::Array(d) => d.elems.len(),
                _ => 0,
            }
        } else {
            0
        }
    }

    fn remove_element(&mut self, a: usize, i: usize)
        ensures
            final(self)@ == (match array_at(old(self)@, a) {
                Some(d) => with_array(old(self)@, a, without_element(d, i)),
                None => old(self)@,
            }),
    {
        let ghost before = self@;
        if a < self.cells.len() {
            assert(before.cells[a as int] == self.cells@[a as int]@);
            match &mut self.cells[a] {
                Cell::Array(d) => {
                    d.remove_index(i);
                },
                _ => {},
            }
            proof {
                match array_at(before, a) {
                    Some(d) => {
                        assert(self@.cells =~= with_array(before, a, without_element(d, i)).cells);
                    },
                    None => {
                        assert(self@.cells =~= before.cells);
                    },
                }
            }
        }
    }
}

} // verus!
