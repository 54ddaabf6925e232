//! The heap: a growing table of cells, the strings that values refer to, and the
//! mark-and-sweep collector.
//!
//! Cells refer to one another by number. A number without a cell stands for a
//! cell with no properties and no references, so no operation here can fail.
use vstd::prelude::*;
use crate::assoc::Assoc;
use crate::atoms::Atoms;
use crate::value::{ArrayData, Cell, CellView, Function, NativeFunctionData, Object, PromiseData, PromiseState, Property, Value};

verus! {

/// How many registrations make a collection worth while.
pub const GC_THRESHOLD: usize = 4096;

/// The cells, the interned strings, and the collector's book-keeping.
pub struct Heap<'a> {
    pub cells: Vec<Cell<'a>>,
    pub atoms: Atoms,
    /// The cells that the collector may sever, in order of registration.
    pub registered: Vec<usize>,
    /// Registrations since the last collection.
    pub gc_pressure: usize,
}

/// The contents of a [`Heap`].
#[verifier::ext_equal]
pub struct HeapView<'a> {
    pub cells: Seq<CellView<'a>>,
    pub atoms: Seq<Seq<char>>,
    pub registered: Seq<usize>,
    pub gc_pressure: usize,
}

/// The own properties of a cell.
pub open spec fn cell_props(c: CellView) -> Map<usize, Property> {
    match c {
        CellView::Object(d) => d.props,
        CellView::Array(d) => d.props,
        CellView::Function(d) => d.props,
        CellView::Native(d) => d.props,
        CellView::Promise(d) => d.props,
        _ => Map::empty(),
    }
}

/// The same cell with other own properties; cells of kinds that hold none stay
/// as they are.
pub open spec fn with_props<'a>(c: CellView<'a>, props: Map<usize, Property>) -> CellView<'a> {
    match c {
        CellView::Object(d) => CellView::Object(crate::value::ObjectView { props, ..d }),
        CellView::Array(d) => CellView::Array(crate::value::ArrayDataView { props, ..d }),
        CellView::Function(d) => CellView::Function(crate::value::FunctionView { props, ..d }),
        CellView::Native(d) => CellView::Native(crate::value::NativeFunctionDataView { props, ..d }),
        CellView::Promise(d) => CellView::Promise(crate::value::PromiseDataView { props, ..d }),
        _ => c,
    }
}

/// The prototype link of a cell.
pub open spec fn cell_proto(c: CellView) -> Option<usize> {
    match c {
        CellView::Object(d) => d.proto,
        CellView::Array(d) => d.proto,
        CellView::Function(d) => d.proto,
        CellView::Native(d) => d.proto,
        CellView::Promise(d) => d.proto,
        _ => None,
    }
}

impl<'a> HeapView<'a> {
    /// The own properties of the cell with a number.
    pub open spec fn props(self, id: usize) -> Map<usize, Property> {
        if id < self.cells.len() { cell_props(self.cells[id as int]) } else { Map::empty() }
    }

    /// The prototype link of the cell with a number.
    pub open spec fn proto(self, id: usize) -> Option<usize> {
        if id < self.cells.len() { cell_proto(self.cells[id as int]) } else { None }
    }

    /// The heap with one more cell, not yet known to the collector.
    pub open spec fn plus_cell(self, c: CellView<'a>) -> HeapView<'a> {
        HeapView { cells: self.cells.push(c), ..self }
    }

    /// The heap with a cell registered for collection.
    pub open spec fn plus_registration(self, id: usize) -> HeapView<'a> {
        HeapView {
            registered: self.registered.push(id),
            gc_pressure: if self.gc_pressure < usize::MAX { (self.gc_pressure + 1) as usize } else { self.gc_pressure },
            ..self
        }
    }

    /// The heap with a property of a cell bound.
    pub open spec fn plus_prop(self, id: usize, key: usize, prop: Property) -> HeapView<'a> {
        if id < self.cells.len() {
            let c = self.cells[id as int];
            HeapView { cells: self.cells.update(id as int, with_props(c, cell_props(c).insert(key, prop))), ..self }
        } else {
            self
        }
    }

    /// The heap with a property of a cell removed.
    pub open spec fn minus_prop(self, id: usize, key: usize) -> HeapView<'a> {
        if id < self.cells.len() {
            let c = self.cells[id as int];
            HeapView { cells: self.cells.update(id as int, with_props(c, cell_props(c).remove(key))), ..self }
        } else {
            self
        }
    }
}

impl<'a> Heap<'a> {
    /// The contents.
    pub open spec fn view(&self) -> HeapView<'a> {
        HeapView {
            cells: self.cells@.map_values(|c: Cell<'a>| c@),
            atoms: self.atoms@,
            registered: self.registered@,
            gc_pressure: self.gc_pressure,
        }
    }

    /// An empty heap.
    pub fn new() -> (r: Self)
        ensures
            r@.cells.len() == 0,
            r@.atoms.len() == 0,
            r@.registered.len() == 0,
            r@.gc_pressure == 0,
    {
        Heap { cells: Vec::new(), atoms: Atoms::new(), registered: Vec::new(), gc_pressure: 0 }
    }

    /// Adds a cell and gives its number.
    pub fn add_cell(&mut self, c: Cell<'a>) -> (r: usize)
        ensures
            r == old(self)@.cells.len(),
            final(self)@ == old(self)@.plus_cell(c@),
    {
        let id = self.cells.len();
        let ghost before = self@;
        self.cells.push(c);
        assert(self@ =~= before.plus_cell(c@));
        id
    }

    /// Makes a cell known to the collector.
    pub fn register(&mut self, id: usize)
        ensures
            final(self)@ == old(self)@.plus_registration(id),
    {
        self.registered.push(id);
        if self.gc_pressure < usize::MAX {
            self.gc_pressure = self.gc_pressure + 1;
        }
    }

    /// Adds a cell that the collector manages.
    pub fn add_managed(&mut self, c: Cell<'a>) -> (r: usize)
        ensures
            r == old(self)@.cells.len(),
            final(self)@ == old(self)@.plus_cell(c@).plus_registration(r),
    {
        let id = self.add_cell(c);
        self.register(id);
        id
    }

    /// Allocates an object with a prototype.
    pub fn make_object(&mut self, proto: usize) -> (r: usize)
        ensures
            r == old(self)@.cells.len(),
            final(self)@ == old(self)@.plus_cell(CellView::Object(crate::value::ObjectView {
                props: Map::empty(),
                proto: Some(proto),
                ctor: None,
            })).plus_registration(r),
    {
        self.add_managed(Cell::Object(Object::with_proto(proto)))
    }

    /// Allocates an array of the given elements.
    pub fn new_array(&mut self, elems: Vec<Value>, proto: usize) -> (r: usize)
        ensures
            r == old(self)@.cells.len(),
            final(self)@ == old(self)@.plus_cell(CellView::Array(crate::value::ArrayDataView {
                elems: elems@,
                sparse: Map::empty(),
                length: elems@.len() as usize,
                proto: Some(proto),
                props: Map::empty(),
            })).plus_registration(r),
    {
        self.add_managed(Cell::Array(ArrayData::new(elems, Some(proto))))
    }

    /// An own property of a cell.
    pub fn get_prop(&self, id: usize, key: usize) -> (r: Option<Property>)
        ensures
            r == (if self@.props(id).contains_key(key) { Some(self@.props(id)[key]) } else { None }),
    {
        if id < self.cells.len() {
            assert(self@.cells[id as int] == self.cells@[id as int]@);
            match &self.cells[id] {
                Cell::Object(d) => d.props.get(key),
                Cell::Array(d) => d.props.get(key),
                Cell::Function(d) => d.props.get(key),
                Cell::Native(d) => d.props.get(key),
                Cell::Promise(d) => d.props.get(key),
                _ => None,
            }
        } else {
            None
        }
    }

    /// The keys of a cell's own properties, in no particular order.
    pub fn prop_keys(&self, id: usize) -> (r: Vec<usize>)
        ensures
            r@.no_duplicates(),
            forall|k: usize| r@.contains(k) <==> self@.props(id).contains_key(k),
    {
        if id < self.cells.len() {
            assert(self@.cells[id as int] == self.cells@[id as int]@);
            match &self.cells[id] {
                Cell::Object(d) => d.props.keys(),
                Cell::Array(d) => d.props.keys(),
                Cell::Function(d) => d.props.keys(),
                Cell::Native(d) => d.props.keys(),
                Cell::Promise(d) => d.props.keys(),
                _ => Vec::new(),
            }
        } else {
            Vec::new()
        }
    }

    /// The prototype link of a cell.
    pub fn proto(&self, id: usize) -> (r: Option<usize>)
        ensures
            r == self@.proto(id),
    {
        if id < self.cells.len() {
            assert(self@.cells[id as int] == self.cells@[id as int]@);
            match &self.cells[id] {
                Cell::Object(d) => d.proto,
                Cell::Array(d) => d.proto,
                Cell::Function(d) => d.proto,
                Cell::Native(d) => d.proto,
                Cell::Promise(d) => d.proto,
                _ => None,
            }
        } else {
            None
        }
    }

    /// Binds an own property of a cell.
    pub fn insert_prop(&mut self, id: usize, key: usize, prop: Property)
        ensures
            final(self)@ == old(self)@.plus_prop(id, key, prop),
    {
        let ghost before = self@;
        if id < self.cells.len() {
            assert(before.cells[id as int] == self.cells@[id as int]@);
            match &mut self.cells[id] {
                Cell::Object(d) => d.props.insert(key, prop),
                Cell::Array(d) => d.props.insert(key, prop),
                Cell::Function(d) => d.props.insert(key, prop),
                Cell::Native(d) => d.props.insert(key, prop),
                Cell::Promise(d) => d.props.insert(key, prop),
                _ => {},
            }
            assert(self@.cells =~= before.plus_prop(id, key, prop).cells);
        }
        assert(self@ =~= before.plus_prop(id, key, prop));
    }

    /// Removes an own property of a cell.
    pub fn remove_prop(&mut self, id: usize, key: usize)
        ensures
            final(self)@ == old(self)@.minus_prop(id, key),
    {
        let ghost before = self@;
        if id < self.cells.len() {
            assert(before.cells[id as int] == self.cells@[id as int]@);
            match &mut self.cells[id] {
                Cell::Object(d) => d.props.remove(key),
                Cell::Array(d) => d.props.remove(key),
                Cell::Function(d) => d.props.remove(key),
                Cell::Native(d) => d.props.remove(key),
                Cell::Promise(d) => d.props.remove(key),
                _ => {},
            }
            assert(self@.cells =~= before.minus_prop(id, key).cells);
        }
        assert(self@ =~= before.minus_prop(id, key));
    }
}

impl Object {
    /// An object without properties or prototype.
    pub fn new() -> (r: Self)
        ensures
            r@ == (crate::value::ObjectView { props: Map::empty(), proto: None, ctor: None }),
    {
        Object { props: Assoc::new(), proto: None, ctor: None }
    }

    /// The root of the prototype chains.
    pub fn new_root() -> (r: Self)
        ensures
            r@ == (crate::value::ObjectView { props: Map::empty(), proto: None, ctor: None }),
    {
        Object::new()
    }

    /// An object without properties.
    pub fn with_proto(proto: usize) -> (r: Self)
        ensures
            r@ == (crate::value::ObjectView { props: Map::empty(), proto: Some(proto), ctor: None }),
    {
        Object { props: Assoc::new(), proto: Some(proto), ctor: None }
    }
}

impl ArrayData {
    /// An array of the given elements.
    pub fn new(elems: Vec<Value>, proto: Option<usize>) -> (r: Self)
        ensures
            r@ == (crate::value::ArrayDataView {
                elems: elems@,
                sparse: Map::empty(),
                length: elems@.len() as usize,
                proto,
                props: Map::empty(),
            }),
    {
        let length = elems.len();
        ArrayData { elems, sparse: Assoc::new(), length, proto, props: Assoc::new() }
    }
}

impl NativeFunctionData {
    /// A host function without properties, not constructable.
    pub fn new(func: usize) -> (r: Self)
        ensures
            r@ == (crate::value::NativeFunctionDataView {
                func,
                props: Map::empty(),
                proto: None,
                constructable: false,
                realm: None,
                intrinsic_proto: None,
                fn_value_proto: None,
            }),
    {
        NativeFunctionData {
            func,
            props: Assoc::new(),
            proto: None,
            constructable: false,
            realm: None,
            intrinsic_proto: None,
            fn_value_proto: None,
        }
    }
}

impl PromiseData {
    /// A pending promise without reactions.
    pub fn new_pending() -> (r: Self)
        ensures
            r@ == (crate::value::PromiseDataView {
                state: PromiseState::Pending,
                reactions: Seq::empty(),
                props: Map::empty(),
                proto: None,
            }),
    {
        PromiseData { state: PromiseState::Pending, reactions: Vec::new(), props: Assoc::new(), proto: None }
    }

    /// Whether the promise has not settled.
    pub fn is_pending(&self) -> (r: bool)
        ensures
            r == (self.state is Pending),
    {
        matches!(self.state, PromiseState::Pending)
    }
}

} // verus!
