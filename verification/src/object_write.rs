//! Writing properties.
use vstd::prelude::*;
use crate::heap::HeapView;
use crate::listing::lemma_push_contains;
use crate::number::{saturated, to_usize};
use crate::object::array_at;
use crate::store::{Store, StoreView};
use crate::text::{index_of_key, parse_index};
use crate::value::{ArrayData, ArrayDataView, Cell, CellView, Object, Property, RegexDataView, Value};

verus! {

/// What is left to do after a write.
#[derive(Clone, Copy, PartialEq, Eq, Structural, Debug)]
pub enum Write {
    /// Nothing: the property was written, or the write was ignored.
    Done,
    /// The setter is to be called on the base value.
    Setter(Value),
    /// A `TypeError`: the accessor has no setter.
    NoSetter,
    /// A `TypeError`: the property is read-only.
    ReadOnly,
    /// The value is to be converted to a number, which then becomes the length of
    /// the array or the `lastIndex` of the regular expression.
    NeedsNumber,
}

/// An array with an element written.
pub open spec fn with_element(d: ArrayDataView, i: usize, v: Value) -> ArrayDataView {
    let length = if i < d.length { d.length } else if i < usize::MAX { (i + 1) as usize } else { i };
    if i < d.elems.len() {
        ArrayDataView { elems: d.elems.update(i as int, v), length, ..d }
    } else if i == d.elems.len() {
        ArrayDataView { elems: d.elems.push(v), sparse: d.sparse.remove(i), length, ..d }
    } else {
        ArrayDataView { sparse: d.sparse.insert(i, v), length, ..d }
    }
}

/// An array with its length set: elements at and beyond it are gone.
pub open spec fn with_length(d: ArrayDataView, n: usize) -> ArrayDataView {
    ArrayDataView {
        elems: if n < d.elems.len() { d.elems.take(n as int) } else { d.elems },
        sparse: d.sparse.remove_keys(Set::new(|k: usize| k >= n)),
        length: n,
        ..d
    }
}

/// The heap with another array in a cell.
pub open spec fn with_array<'a>(h: HeapView<'a>, id: usize, d: ArrayDataView) -> HeapView<'a> {
    HeapView { cells: h.cells.update(id as int, CellView::Array(d)), ..h }
}

/// A write to an own slot of a cell.
pub open spec fn slot_write<'a>(s: StoreView<'a>, id: usize, key: usize, val: Value) -> (StoreView<'a>, Write) {
    let props = s.heap.props(id);
    if props.contains_key(key) {
        let p = props[key];
        if p.has_accessor() {
            match p.set {
                Some(f) => (s, Write::Setter(f)),
                None => (s, if s.strict { Write::NoSetter } else { Write::Done }),
            }
        } else if !p.writable {
            (s, if s.strict { Write::ReadOnly } else { Write::Done })
        } else {
            (s.with_heap(s.heap.plus_prop(id, key, Property { value: val, ..p })), Write::Done)
        }
    } else {
        (s.with_heap(s.heap.plus_prop(id, key, Property::slot(val, true, true, true))), Write::Done)
    }
}

/// The effect of writing a property of a value, and what is left to do. Only own
/// slots are looked at; attributes of an existing slot are kept.
pub open spec fn written<'a>(s: StoreView<'a>, base: Value, key: usize, val: Value) -> (StoreView<'a>, Write) {
    match base {
        Value::Object(i) | Value::Function(i) | Value::NativeFunction(i) => slot_write(s, i, key, val),
        Value::Array(a) => if key == s.n.length {
            (s, Write::NeedsNumber)
        } else {
            match index_of_key(s.text(key)) {
                Some(i) => match array_at(s.heap, a) {
                    Some(d) => (s.with_heap(with_array(s.heap, a, with_element(d, i, val))), Write::Done),
                    None => (s, Write::Done),
                },
                None => slot_write(s, a, key, val),
            }
        },
        Value::Regex(_) => (s, if key == s.n.last_index { Write::NeedsNumber } else { Write::Done }),
        Value::Promise(p) => (s.with_heap(s.heap.plus_prop(p, key, Property::slot(val, true, true, true))), Write::Done),
        _ => (s, Write::Done),
    }
}

/// The effect of the number that a write needed.
pub open spec fn with_number<'a>(s: StoreView<'a>, base: Value, bits: u64) -> StoreView<'a> {
    let n = saturated(bits, usize::MAX as nat) as usize;
    match base {
        Value::Array(a) => match array_at(s.heap, a) {
            Some(d) => s.with_heap(with_array(s.heap, a, with_length(d, n))),
            None => s,
        },
        Value::Regex(r) => if r < s.heap.cells.len() && s.heap.cells[r as int] is Regex {
            s.with_heap(HeapView {
                cells: s.heap.cells.update(r as int, CellView::Regex(RegexDataView { last_index: n, ..s.heap.cells[r as int]->Regex_0 })),
                ..s.heap
            })
        } else {
            s
        },
        _ => s,
    }
}

impl ArrayData {
    /// Writes an element.
    pub fn set_index(&mut self, i: usize, v: Value)
        ensures
            final(self)@ == with_element(old(self)@, i, v),
    {
        let ghost before = self@;
        if i >= self.length {
            self.length = if i < usize::MAX { i + 1 } else { i };
        }
        if i < self.elems.len() {
            self.elems.set(i, v);
        } else if i == self.elems.len() {
            self.elems.push(v);
            self.sparse.remove(i);
        } else {
            self.sparse.insert(i, v);
        }
        assert(self@ =~= with_element(before, i, v));
    }

    /// Sets the length.
    pub fn set_length(&mut self, n: usize)
        ensures
            final(self)@ == with_length(old(self)@, n),
    {
        let ghost before = self@;
        if n < self.elems.len() {
            self.elems.truncate(n);
        }
        let keys = self.sparse.keys();
        let mut i: usize = 0;
        while i < keys.len()
            invariant
                i <= keys@.len(),
                forall|k: usize| keys@.contains(k) <==> before.sparse.contains_key(k),
                self.elems@ == (if n < before.elems.len() { before.elems.take(n as int) } else { before.elems }),
                self.props@ == before.props,
                self.proto == before.proto,
                forall|k: usize| #[trigger] self.sparse@.contains_key(k) <==> before.sparse.contains_key(k) && !(k >= n && keys@.take(i as int).contains(k)),
                forall|k: usize| #[trigger] self.sparse@.contains_key(k) ==> self.sparse@[k] == before.sparse[k],
            decreases keys@.len() - i,
        {
            let k = keys[i];
            let ghost seen = keys@.take(i as int);
            let ghost held = self.sparse@;
            if k >= n {
                self.sparse.remove(k);
            }
            i += 1;
            proof {
                assert forall|x: usize| #[trigger] self.sparse@.contains_key(x) <==> before.sparse.contains_key(x) && !(x >= n && keys@.take(i as int).contains(x)) by {
                    assert(held.contains_key(x) <==> before.sparse.contains_key(x) && !(x >= n && seen.contains(x)));
                    assert(keys@.take(i as int) =~= seen.push(k));
                    lemma_push_contains(seen, k, x);
                }
            }
        }
        assert(keys@.take(i as int) =~= keys@);
        self.length = n;
        assert(self@.sparse =~= with_length(before, n).sparse);
        assert(self@ =~= with_length(before, n));
    }
}

impl<'a> Store<'a> {
    fn write_slot(&mut self, id: usize, key: usize, val: Value) -> (r: Write)
        ensures
            (final(self)@, r) == slot_write(old(self)@, id, key, val),
    {
        match self.heap.get_prop(id, key) {
            Some(p) => {
                if p.is_accessor() {
                    match p.set {
                        Some(f) => Write::Setter(f),
                        None => if self.strict { Write::NoSetter } else { Write::Done },
                    }
                } else if !p.writable {
                    if self.strict { Write::ReadOnly } else { Write::Done }
                } else {
                    self.heap.insert_prop(id, key, p.with_value(val));
                    Write::Done
                }
            },
            None => {
                self.heap.insert_prop(id, key, Property::new(val));
                Write::Done
            },
        }
    }

    pub(crate) fn write_element(&mut self, a: usize, i: usize, val: Value)
        ensures
            final(self)@ == (match array_at(old(self)@.heap, a) {
                Some(d) => old(self)@.with_heap(with_array(old(self)@.heap, a, with_element(d, i, val))),
                None => old(self)@,
            }),
    {
        let ghost before = self@;
        if a < self.heap.cells.len() {
            assert(before.heap.cells[a as int] == self.heap.cells@[a as int]@);
            match &mut self.heap.cells[a] {
                Cell::Array(d) => {
                    d.set_index(i, val);
                },
                _ => {},
            }
            proof {
                match array_at(before.heap, a) {
                    Some(d) => {
                        assert(self@.heap.cells =~= before.heap.cells.update(a as int, CellView::Array(with_element(d, i, val))));
                    },
                    None => {
                        assert(self@.heap.cells =~= before.heap.cells);
                    },
                }
            }
        }
    }

    /// Writes a property of a value.
    pub fn set_property(&mut self, base: Value, key: usize, val: Value) -> (r: Write)
        ensures
            (final(self)@, r) == written(old(self)@, base, key, val),
    {
        match base {
            Value::Object(i) | Value::Function(i) | Value::NativeFunction(i) => self.write_slot(i, key, val),
            Value::Array(a) => if key == self.n.length {
                Write::NeedsNumber
            } else {
                match parse_index(self.heap.atoms.text(key)) {
                    Some(i) => {
                        self.write_element(a, i, val);
                        Write::Done
                    },
                    None => self.write_slot(a, key, val),
                }
            },
            Value::Regex(_) => if key == self.n.last_index { Write::NeedsNumber } else { Write::Done },
            Value::Promise(p) => {
                self.heap.insert_prop(p, key, Property::new(val));
                Write::Done
            },
            _ => Write::Done,
        }
    }

    /// Finishes a write that needed a number.
    pub fn set_number(&mut self, base: Value, bits: u64)
        ensures
            final(self)@ == with_number(old(self)@, base, bits),
    {
        let ghost before = self@;
        let n = to_usize(bits);
        match base {
            Value::Array(a) => {
                if a < self.heap.cells.len() {
                    assert(before.heap.cells[a as int] == self.heap.cells@[a as int]@);
                    match &mut self.heap.cells[a] {
                        Cell::Array(d) => {
                            d.set_length(n);
                        },
                        _ => {},
                    }
                    proof {
                        match array_at(before.heap, a) {
                            Some(d) => {
                                assert(self@.heap.cells =~= before.heap.cells.update(a as int, CellView::Array(with_length(d, n))));
                            },
                            None => {
                                assert(self@.heap.cells =~= before.heap.cells);
                            },
                        }
                    }
                }
            },
            Value::Regex(r) => {
                if r < self.heap.cells.len() {
                    assert(before.heap.cells[r as int] == self.heap.cells@[r as int]@);
                    match &mut self.heap.cells[r] {
                        Cell::Regex(d) => {
                            d.last_index = n;
                        },
                        _ => {},
                    }
                    assert(self@.heap.cells =~= with_number(before, base, bits).heap.cells);
                }
            },
            _ => {},
        }
        assert(self@ =~= with_number(before, base, bits));
    }
}

} // verus!
