//! JavaScript values, property slots and the cells of the heap.
//!
//! A value is a plain tag with a number: strings are atoms, and everything with
//! an identity is the number of a heap cell. Values are copied freely.
use vstd::prelude::*;
use regex::Regex;
use crate::assoc::Assoc;
use crate::ast::{Expr, Pattern, Stmt};
use crate::atoms::same_text;
use crate::scan::{begins, stands_at};
use crate::text::{chars_of, decimal, decimal_text, joined, owned};

verus! {

/// A compiled regular expression of the `regex` crate.
#[verifier::external_type_specification]
#[verifier::external_body]
pub struct ExRegex(Regex);

/// A JavaScript value.
#[derive(Clone, Copy, PartialEq, Eq, Structural, Debug)]
pub enum Value {
    Undefined,
    Null,
    Boolean(bool),
    /// A number, as the bit pattern of a double.
    Number(u64),
    /// A string, as an atom.
    String(usize),
    Object(usize),
    Array(usize),
    /// A user-defined function.
    Function(usize),
    /// A function that the host implements.
    NativeFunction(usize),
    /// A big integer, as the atom of its decimal text.
    BigInt(usize),
    Regex(usize),
    /// A symbol, as the atom of its identity.
    Symbol(usize),
    MapRef(usize),
    SetRef(usize),
    WeakMap(usize),
    WeakSet(usize),
    Promise(usize),
}

/// Which default prototype a constructor gives its instances when the new
/// target has none.
#[derive(Clone, Copy, Debug)]
pub enum RealmProto {
    Object,
    Number,
    String,
    Boolean,
    Promise,
    Error,
    /// The prototype of the named native error.
    NativeError(&'static str),
}

/// The intrinsic objects of one realm.
pub struct RealmInfo {
    pub global_env: usize,
    pub object_prototype: usize,
    pub number_prototype: usize,
    pub string_prototype: usize,
    pub boolean_prototype: usize,
    pub promise_prototype: usize,
    /// The error prototypes by constructor name.
    pub error_prototypes: Vec<(&'static str, usize)>,
}

impl RealmInfo {
    /// The prototype that the realm has under an error constructor's name: the
    /// first entry of that name.
    pub open spec fn error_prototype(&self, name: Seq<char>, from: int) -> Option<usize>
        decreases self.error_prototypes@.len() - from,
    {
        if 0 <= from < self.error_prototypes@.len() {
            if self.error_prototypes@[from].0@ == name {
                Some(self.error_prototypes@[from].1)
            } else {
                self.error_prototype(name, from + 1)
            }
        } else {
            None
        }
    }

    /// Looks up an error prototype by constructor name.
    pub fn error_prototype_for(&self, name: &str) -> (r: Option<usize>)
        ensures
            r == self.error_prototype(name@, 0),
    {
        let mut i: usize = 0;
        while i < self.error_prototypes.len()
            invariant
                i <= self.error_prototypes@.len(),
                self.error_prototype(name@, 0) == self.error_prototype(name@, i as int),
            decreases self.error_prototypes@.len() - i,
        {
            if same_text(self.error_prototypes[i].0, name) {
                return Some(self.error_prototypes[i].1);
            }
            i += 1;
        }
        None
    }
}

/// How a promise settled.
#[derive(Clone, Copy, PartialEq, Eq, Structural, Debug)]
pub enum Settlement {
    Fulfilled(Value),
    Rejected(Value),
}

/// The state of a promise.
#[derive(Clone, Copy, PartialEq, Eq, Structural, Debug)]
pub enum PromiseState {
    /// Not settled; reactions wait for the settlement.
    Pending,
    Fulfilled(Value),
    Rejected(Value),
}

/// The flavours of promise reactions.
#[derive(Clone, Copy, PartialEq, Eq, Structural, Debug)]
pub enum PromiseReactionKind {
    /// The ordinary `then`; the handlers live on the reaction.
    Then,
    /// Adopts another promise's settlement.
    Forward,
    /// A suspended `await`, by the number of its continuation.
    Async { cont: usize },
    /// One element of `Promise.all`, with the cell of the shared countdown.
    AllElement { index: usize, shared: usize },
    /// One element of `Promise.any`; rejections gather in the holder object.
    Any { holder: Value, index: usize },
    /// One element of `Promise.allSettled`.
    AllSettled { index: usize, shared: usize },
    /// Settles through the functions of a capability.
    Custom { promise: Value, resolve: Value, reject: Value },
    /// First stage of `finally`: call `cb`.
    FinallyCall { cb: Value },
    /// Second stage of `finally`: settle as the original did.
    FinallyPropagate { original: Settlement },
}

/// A reaction registered on a promise, with the dependent promise.
#[derive(Clone, Copy, PartialEq, Eq, Structural, Debug)]
pub struct PromiseReaction {
    pub kind: PromiseReactionKind,
    pub on_fulfilled: Option<Value>,
    pub on_rejected: Option<Value>,
    pub promise: usize,
}

/// A property slot.
#[derive(Clone, Copy, PartialEq, Eq, Structural, Debug)]
pub struct Property {
    pub value: Value,
    pub writable: bool,
    pub enumerable: bool,
    pub configurable: bool,
    /// The getter of an accessor.
    pub get: Option<Value>,
    /// The setter of an accessor.
    pub set: Option<Value>,
}

impl Property {
    /// A data property with the given attributes.
    pub open spec fn slot(value: Value, writable: bool, enumerable: bool, configurable: bool) -> Property {
        Property { value, writable, enumerable, configurable, get: None, set: None }
    }

    /// Whether a getter or a setter is there.
    pub open spec fn has_accessor(self) -> bool {
        self.get is Some || self.set is Some
    }

    /// An ordinary property: writable, enumerable and configurable.
    pub fn new(value: Value) -> (r: Self)
        ensures
            r == Property::slot(value, true, true, true),
    {
        Property::data(value, true, true, true)
    }

    /// An accessor property: enumerable and configurable.
    pub fn accessor(get: Option<Value>, set: Option<Value>) -> (r: Self)
        ensures
            r == (Property { value: Value::Undefined, writable: false, enumerable: true, configurable: true, get, set }),
    {
        Property { value: Value::Undefined, writable: false, enumerable: true, configurable: true, get, set }
    }

    /// A built-in method: writable and configurable.
    pub fn method(value: Value) -> (r: Self)
        ensures
            r == Property::slot(value, true, false, true),
    {
        Property::data(value, true, false, true)
    }

    /// A built-in configuration value: configurable only.
    pub fn config(value: Value) -> (r: Self)
        ensures
            r == Property::slot(value, false, false, true),
    {
        Property::data(value, false, false, true)
    }

    /// A data property with explicit attributes.
    pub fn data(value: Value, writable: bool, enumerable: bool, configurable: bool) -> (r: Self)
        ensures
            r == Property::slot(value, writable, enumerable, configurable),
    {
        Property { value, writable, enumerable, configurable, get: None, set: None }
    }

    /// A constant: not writable, not enumerable, not configurable.
    pub fn constant(value: Value) -> (r: Self)
        ensures
            r == Property::slot(value, false, false, false),
    {
        Property::data(value, false, false, false)
    }

    /// Whether this is an accessor.
    #[verifier::allow_in_spec]
    pub fn is_accessor(&self) -> (r: bool)
        returns
            self.has_accessor(),
    {
        self.get.is_some() || self.set.is_some()
    }

    /// The same slot with another value.
    pub fn with_value(self, value: Value) -> (r: Self)
        ensures
            r == (Property { value, ..self }),
    {
        Property { value, ..self }
    }
}

/// An empty property table.
pub fn new_props() -> (r: Assoc<Property>)
    ensures
        r@ == Map::<usize, Property>::empty(),
{
    Assoc::new()
}

/// The constructor that a prototype object belongs to.
#[derive(Clone, Copy, PartialEq, Eq, Structural, Debug)]
pub enum CtorRef {
    Func(usize),
    Native(usize),
}

/// What runs when a function is called.
#[derive(Clone, Copy)]
pub enum Body<'a> {
    /// Statements of the program.
    Stmts(&'a Vec<Stmt>),
    /// The constructor of a derived class that declares none: it passes its
    /// arguments to the parent constructor.
    ForwardArguments,
    /// Nothing.
    Empty,
}

/// An instance field: its key and its initialiser.
#[derive(Clone, Copy)]
pub struct FieldInit<'a> {
    pub key: usize,
    pub init: Option<&'a Expr>,
}

/// An ordinary object: named properties plus a prototype link.
pub struct Object {
    /// The own properties.
    pub props: Assoc<Property>,
    /// The prototype object.
    pub proto: Option<usize>,
    /// The constructor whose `prototype` this object is. It does not keep the
    /// constructor alive and is consulted only for the `constructor` property.
    pub ctor: Option<CtorRef>,
}

/// An array: a dense prefix, entries beyond it, and named properties.
pub struct ArrayData {
    /// The dense prefix.
    pub elems: Vec<Value>,
    /// Entries at indices beyond the dense prefix.
    pub sparse: Assoc<Value>,
    /// The `length` of the array.
    pub length: usize,
    /// The prototype object.
    pub proto: Option<usize>,
    /// Properties that are not indices.
    pub props: Assoc<Property>,
}

/// A user-defined function.
pub struct Function<'a> {
    /// The name, as an atom.
    pub name: usize,
    /// The parameters.
    pub params: Option<&'a Vec<Pattern>>,
    /// Instance fields that a class constructor sets before its body runs.
    pub fields: Vec<FieldInit<'a>>,
    /// What runs when the function is called.
    pub body: Body<'a>,
    /// The captured environment.
    pub closure: usize,
    /// The own properties.
    pub props: Assoc<Property>,
    /// The prototype object.
    pub proto: Option<usize>,
    /// The object that `super` reads from.
    pub super_proto: Option<usize>,
    /// The parent constructor that `super(..)` calls.
    pub super_ctor: Option<Value>,
    /// The `this` that an arrow function captured.
    pub this_capture: Option<Value>,
    /// Whether calls give a generator object.
    pub generator: bool,
    /// Whether calls give a promise.
    pub is_async: bool,
    /// Whether this is the constructor of a derived class.
    pub is_derived: bool,
    /// The realm that the function was made in.
    pub realm: Option<usize>,
}

/// A function that the host implements.
pub struct NativeFunctionData {
    /// The number by which the host knows the function.
    pub func: usize,
    /// The own properties.
    pub props: Assoc<Property>,
    /// The prototype object.
    pub proto: Option<usize>,
    /// Whether `new` is allowed.
    pub constructable: bool,
    /// The realm of the function, for an intrinsic.
    pub realm: Option<usize>,
    /// The default prototype of what the constructor makes.
    pub intrinsic_proto: Option<RealmProto>,
    /// The prototype when it is a function value.
    pub fn_value_proto: Option<Value>,
}

/// The storage of a `Map`.
pub struct MapData {
    /// The entries in insertion order.
    pub entries: Vec<(Value, Value)>,
}

/// The storage of a `Set`.
pub struct SetData {
    /// The entries in insertion order.
    pub entries: Vec<Value>,
}

/// The storage of a `WeakMap`.
pub struct WeakMapData {
    /// The entries; the keys are not kept alive.
    pub entries: Vec<(Value, Value)>,
}

/// The storage of a `WeakSet`.
pub struct WeakSetData {
    /// The entries; they are not kept alive.
    pub entries: Vec<Value>,
}

/// A promise.
pub struct PromiseData {
    /// Pending or settled.
    pub state: PromiseState,
    /// The reactions of a pending promise, in registration order.
    pub reactions: Vec<PromiseReaction>,
    /// The own properties.
    pub props: Assoc<Property>,
    /// A prototype other than the usual one.
    pub proto: Option<usize>,
}

/// The shared countdown of `Promise.all`.
pub struct AllState {
    /// How many elements are outstanding.
    pub remaining: usize,
    /// The results so far, by index.
    pub results: Vec<Option<Value>>,
    /// Set once the aggregate settles, so that late settlements are ignored.
    pub settled: bool,
}

/// The shared countdown of `Promise.allSettled`.
pub struct AllSettledState {
    /// How many elements are outstanding.
    pub remaining: usize,
    /// The results so far, by index.
    pub results: Vec<Option<Value>>,
}

/// A lexical environment.
pub struct Env {
    /// The bindings.
    pub vars: Assoc<Value>,
    /// The names bound by `const`.
    pub constants: Assoc<bool>,
    /// The enclosing environment.
    pub outer: Option<usize>,
    /// Whether `var` declarations bind here.
    pub is_function: bool,
}

/// A regular expression.
pub struct RegexData {
    /// The pattern text.
    pub pattern: usize,
    /// The flags text.
    pub flags: usize,
    /// The compiled pattern, unless it was refused; such a value never matches.
    pub re: Option<Regex>,
    /// The `lastIndex` state, in characters.
    pub last_index: usize,
}

/// A heap cell.
pub enum Cell<'a> {
    Object(Object),
    Array(ArrayData),
    Function(Function<'a>),
    Native(NativeFunctionData),
    MapCell(MapData),
    SetCell(SetData),
    WeakMap(WeakMapData),
    WeakSet(WeakSetData),
    Promise(PromiseData),
    All(AllState),
    AllSettled(AllSettledState),
    Env(Env),
    Regex(RegexData),
}

/// The contents of a [`Object`].
#[verifier::ext_equal]
pub struct ObjectView {
    pub props: Map<usize, Property>,
    pub proto: Option<usize>,
    pub ctor: Option<CtorRef>,
}

impl Object {
    /// The contents.
    pub open spec fn view(&self) -> ObjectView {
        ObjectView {
            props: self.props@,
            proto: self.proto,
            ctor: self.ctor,
        }
    }
}

/// The contents of a [`ArrayData`].
#[verifier::ext_equal]
pub struct ArrayDataView {
    pub elems: Seq<Value>,
    pub sparse: Map<usize, Value>,
    pub length: usize,
    pub proto: Option<usize>,
    pub props: Map<usize, Property>,
}

impl ArrayData {
    /// The contents.
    pub open spec fn view(&self) -> ArrayDataView {
        ArrayDataView {
            elems: self.elems@,
            sparse: self.sparse@,
            length: self.length,
            proto: self.proto,
            props: self.props@,
        }
    }
}

/// The contents of a [`Function`].
#[verifier::ext_equal]
pub struct FunctionView<'a> {
    pub name: usize,
    pub params: Option<&'a Vec<Pattern>>,
    pub fields: Seq<FieldInit<'a>>,
    pub body: Body<'a>,
    pub closure: usize,
    pub props: Map<usize, Property>,
    pub proto: Option<usize>,
    pub super_proto: Option<usize>,
    pub super_ctor: Option<Value>,
    pub this_capture: Option<Value>,
    pub generator: bool,
    pub is_async: bool,
    pub is_derived: bool,
    pub realm: Option<usize>,
}

impl<'a> Function<'a> {
    /// The contents.
    pub open spec fn view(&self) -> FunctionView<'a> {
        FunctionView {
            name: self.name,
            params: self.params,
            fields: self.fields@,
            body: self.body,
            closure: self.closure,
            props: self.props@,
            proto: self.proto,
            super_proto: self.super_proto,
            super_ctor: self.super_ctor,
            this_capture: self.this_capture,
            generator: self.generator,
            is_async: self.is_async,
            is_derived: self.is_derived,
            realm: self.realm,
        }
    }
}

/// The contents of a [`NativeFunctionData`].
#[verifier::ext_equal]
pub struct NativeFunctionDataView {
    pub func: usize,
    pub props: Map<usize, Property>,
    pub proto: Option<usize>,
    pub constructable: bool,
    pub realm: Option<usize>,
    pub intrinsic_proto: Option<RealmProto>,
    pub fn_value_proto: Option<Value>,
}

impl NativeFunctionData {
    /// The contents.
    pub open spec fn view(&self) -> NativeFunctionDataView {
        NativeFunctionDataView {
            func: self.func,
            props: self.props@,
            proto: self.proto,
            constructable: self.constructable,
            realm: self.realm,
            intrinsic_proto: self.intrinsic_proto,
            fn_value_proto: self.fn_value_proto,
        }
    }
}

/// The contents of a [`MapData`].
#[verifier::ext_equal]
pub struct MapDataView {
    pub entries: Seq<(Value, Value)>,
}

impl MapData {
    /// The contents.
    pub open spec fn view(&self) -> MapDataView {
        MapDataView {
            entries: self.entries@,
        }
    }
}

/// The contents of a [`SetData`].
#[verifier::ext_equal]
pub struct SetDataView {
    pub entries: Seq<Value>,
}

impl SetData {
    /// The contents.
    pub open spec fn view(&self) -> SetDataView {
        SetDataView {
            entries: self.entries@,
        }
    }
}

/// The contents of a [`WeakMapData`].
#[verifier::ext_equal]
pub struct WeakMapDataView {
    pub entries: Seq<(Value, Value)>,
}

impl WeakMapData {
    /// The contents.
    pub open spec fn view(&self) -> WeakMapDataView {
        WeakMapDataView {
            entries: self.entries@,
        }
    }
}

/// The contents of a [`WeakSetData`].
#[verifier::ext_equal]
pub struct WeakSetDataView {
    pub entries: Seq<Value>,
}

impl WeakSetData {
    /// The contents.
    pub open spec fn view(&self) -> WeakSetDataView {
        WeakSetDataView {
            entries: self.entries@,
        }
    }
}

/// The contents of a [`PromiseData`].
#[verifier::ext_equal]
pub struct PromiseDataView {
    pub state: PromiseState,
    pub reactions: Seq<PromiseReaction>,
    pub props: Map<usize, Property>,
    pub proto: Option<usize>,
}

impl PromiseData {
    /// The contents.
    pub open spec fn view(&self) -> PromiseDataView {
        PromiseDataView {
            state: self.state,
            reactions: self.reactions@,
            props: self.props@,
            proto: self.proto,
        }
    }
}

/// The contents of a [`AllState`].
#[verifier::ext_equal]
pub struct AllStateView {
    pub remaining: usize,
    pub results: Seq<Option<Value>>,
    pub settled: bool,
}

impl AllState {
    /// The contents.
    pub open spec fn view(&self) -> AllStateView {
        AllStateView {
            remaining: self.remaining,
            results: self.results@,
            settled: self.settled,
        }
    }
}

/// The contents of a [`AllSettledState`].
#[verifier::ext_equal]
pub struct AllSettledStateView {
    pub remaining: usize,
    pub results: Seq<Option<Value>>,
}

impl AllSettledState {
    /// The contents.
    pub open spec fn view(&self) -> AllSettledStateView {
        AllSettledStateView {
            remaining: self.remaining,
            results: self.results@,
        }
    }
}

/// The contents of a [`Env`].
#[verifier::ext_equal]
pub struct EnvView {
    pub vars: Map<usize, Value>,
    pub constants: Map<usize, bool>,
    pub outer: Option<usize>,
    pub is_function: bool,
}

impl Env {
    /// The contents.
    pub open spec fn view(&self) -> EnvView {
        EnvView {
            vars: self.vars@,
            constants: self.constants@,
            outer: self.outer,
            is_function: self.is_function,
        }
    }
}

/// The contents of a [`RegexData`].
#[verifier::ext_equal]
pub struct RegexDataView {
    pub pattern: usize,
    pub flags: usize,
    pub re: Option<Regex>,
    pub last_index: usize,
}

impl RegexData {
    /// The contents.
    pub open spec fn view(&self) -> RegexDataView {
        RegexDataView {
            pattern: self.pattern,
            flags: self.flags,
            re: self.re,
            last_index: self.last_index,
        }
    }
}

/// The contents of a [`Cell`].
#[verifier::ext_equal]
pub enum CellView<'a> {
    Object(ObjectView),
    Array(ArrayDataView),
    Function(FunctionView<'a>),
    Native(NativeFunctionDataView),
    MapCell(MapDataView),
    SetCell(SetDataView),
    WeakMap(WeakMapDataView),
    WeakSet(WeakSetDataView),
    Promise(PromiseDataView),
    All(AllStateView),
    AllSettled(AllSettledStateView),
    Env(EnvView),
    Regex(RegexDataView),
}

impl<'a> Cell<'a> {
    /// The contents.
    pub open spec fn view(&self) -> CellView<'a> {
        match *self {
            Cell::Object(d) => CellView::Object(d@),
            Cell::Array(d) => CellView::Array(d@),
            Cell::Function(d) => CellView::Function(d@),
            Cell::Native(d) => CellView::Native(d@),
            Cell::MapCell(d) => CellView::MapCell(d@),
            Cell::SetCell(d) => CellView::SetCell(d@),
            Cell::WeakMap(d) => CellView::WeakMap(d@),
            Cell::WeakSet(d) => CellView::WeakSet(d@),
            Cell::Promise(d) => CellView::Promise(d@),
            Cell::All(d) => CellView::All(d@),
            Cell::AllSettled(d) => CellView::AllSettled(d@),
            Cell::Env(d) => CellView::Env(d@),
            Cell::Regex(d) => CellView::Regex(d@),
        }
    }
}

/// The data of a symbol.
pub struct SymbolData {
    /// The identity, which doubles as the property key.
    pub id: String,
    pub description: Option<String>,
    pub well_known: bool,
}

/// The identity of the well-known symbol of a name.
pub open spec fn well_known_id(name: Seq<char>) -> Seq<char> {
    "__wk_"@ + name + "__"@
}

/// The identity of the symbol with a serial number.
pub open spec fn serial_id(n: nat) -> Seq<char> {
    "__symbol_"@ + decimal(n) + "__"@
}

/// Whether a property key is the identity of a symbol, by how it begins.
pub open spec fn symbol_key(t: Seq<char>) -> bool {
    stands_at(t, "__symbol_"@, 0) || stands_at(t, "__wk_"@, 0)
}

/// Whether a property key is the identity of a symbol.
pub fn is_symbol_key(t: &str) -> (r: bool)
    ensures
        r == symbol_key(t@),
{
    let v = chars_of(t);
    begins(&v, "__symbol_") || begins(&v, "__wk_")
}

/// The identity of every symbol tells it from the keys that are strings.
pub proof fn law_symbol_keys(n: nat, name: Seq<char>)
    ensures
        symbol_key(serial_id(n)),
        symbol_key(well_known_id(name)),
{
    assert(serial_id(n).subrange(0, "__symbol_"@.len() as int) =~= "__symbol_"@);
    assert(well_known_id(name).subrange(0, "__wk_"@.len() as int) =~= "__wk_"@);
}

/// The serial numbers of symbols: those from `next` on are still to be given out.
/// A value means something in its own engine only, so an engine has a counter; a host
/// that wants one counter for several engines can keep it and hand its state on.
#[derive(Clone, Copy, PartialEq, Eq, Structural, Debug)]
pub struct Serials {
    pub next: u64,
}

impl SymbolData {
    /// The property key of the well-known symbol of a name.
    pub fn well_known_key(name: &str) -> (r: String)
        ensures
            r@ == well_known_id(name@),
    {
        let a = joined("__wk_", name);
        joined(a.as_str(), "__")
    }

    /// A fresh symbol: it takes the next serial number, which no other symbol has, until
    /// the numbers are used up.
    pub fn new(serials: &mut Serials, description: Option<String>) -> (r: Self)
        requires
            old(serials).next < u64::MAX,
        ensures
            r.id@ == serial_id(old(serials).next as nat),
            final(serials).next == old(serials).next + 1,
            r.description == description,
            !r.well_known,
    {
        let n = decimal_text(serials.next);
        serials.next = serials.next + 1;
        let a = joined("__symbol_", n.as_str());
        SymbolData { id: joined(a.as_str(), "__"), description, well_known: false }
    }

    /// The well-known symbol of a name.
    pub fn well_known(name: &str) -> (r: Self)
        ensures
            r.id@ == well_known_id(name@),
            r.description is Some,
            r.description->0@ == name@,
            r.well_known,
    {
        SymbolData { id: SymbolData::well_known_key(name), description: Some(owned(name)), well_known: true }
    }
}

} // verus!
