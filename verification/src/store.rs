//! The part of the engine that the object model works on: the heap, the
//! built-in objects, the names that the engine uses, and the strictness of the
//! running code.
use vstd::prelude::*;
use crate::atoms::Atoms;
use crate::heap::{Heap, HeapView};

verus! {

/// The numbers of the built-in cells.
#[derive(Clone, Copy, PartialEq, Eq, Structural, Debug)]
pub struct Builtins {
    pub global_object: usize,
    pub global_env: usize,
    pub function_prototype: usize,
    pub object_prototype: usize,
    pub array_prototype: usize,
    pub string_prototype: usize,
    pub number_prototype: usize,
    pub boolean_prototype: usize,
    pub error_prototype: usize,
    pub symbol_prototype: usize,
    pub bigint_prototype: usize,
    pub map_prototype: usize,
    pub set_prototype: usize,
    pub weakmap_prototype: usize,
    pub weakset_prototype: usize,
    pub regexp_prototype: usize,
    pub promise_prototype: usize,
    pub async_function_prototype: usize,
    pub generator_prototype: usize,
    pub type_error_proto: usize,
    pub range_error_proto: usize,
    pub uri_error_proto: usize,
    pub syntax_error_proto: usize,
    pub aggregate_error_proto: usize,
}

/// The atoms of the names that the engine itself uses.
#[derive(Clone, Copy, PartialEq, Eq, Structural, Debug)]
pub struct Names {
    /// The empty string.
    pub empty: usize,
    /// `length`
    pub length: usize,
    /// `__value__`
    pub boxed: usize,
    /// `constructor`
    pub constructor: usize,
    /// `prototype`
    pub prototype: usize,
    /// `name`
    pub name: usize,
    /// `message`
    pub message: usize,
    /// `__error_data__`
    pub error_data: usize,
    /// `value`
    pub value: usize,
    /// `writable`
    pub writable: usize,
    /// `enumerable`
    pub enumerable: usize,
    /// `configurable`
    pub configurable: usize,
    /// `get`
    pub get: usize,
    /// `set`
    pub set: usize,
    /// `__wk_iterator__`
    pub iterator: usize,
    /// `__wk_toPrimitive__`
    pub to_primitive: usize,
    /// `__wk_species__`
    pub species: usize,
    /// `next`
    pub next: usize,
    /// `done`
    pub done: usize,
    /// `then`
    pub then_method: usize,
    /// `valueOf`
    pub value_of: usize,
    /// `toString`
    pub to_string: usize,
    /// `lastIndex`
    pub last_index: usize,
    /// `__promise_cap__`
    pub promise_cap: usize,
    /// `__promise_kind__`
    pub promise_kind: usize,
    /// `__promise_flag__`
    pub promise_flag: usize,
    /// `__cap_exec__`
    pub cap_exec: usize,
    /// `resolved`
    pub resolved: usize,
    /// `resolve`
    pub resolve: usize,
    /// `reject`
    pub reject: usize,
    /// `__target__`
    pub bound_target: usize,
    /// `__this__`
    pub this: usize,
    /// `__args__`
    pub bound_args: usize,
    /// `__super__`
    pub super_object: usize,
    /// `__super_ctor__`
    pub super_ctor: usize,
    /// `arguments`
    pub arguments: usize,
    /// `__gen_fn__`
    pub gen_fn: usize,
    /// `__gen_this__`
    pub gen_this: usize,
    /// `__gen_args__`
    pub gen_args: usize,
    /// `__gen_started__`
    pub gen_started: usize,
    /// `__gen_values__`
    pub gen_values: usize,
    /// `__gen_index__`
    pub gen_index: usize,
    /// `errors`
    pub errors: usize,
    /// `remaining`
    pub remaining: usize,
    /// `status`
    pub status: usize,
    /// `fulfilled`
    pub fulfilled: usize,
    /// `rejected`
    pub rejected: usize,
    /// `reason`
    pub reason: usize,
    /// `undefined`
    pub undefined: usize,
    /// `null`
    pub null: usize,
    /// `true`
    pub true_text: usize,
    /// `false`
    pub false_text: usize,
    /// `default`
    pub default_hint: usize,
    /// `number`
    pub number: usize,
    /// `string`
    pub string: usize,
    /// `boolean`
    pub boolean: usize,
    /// `bigint`
    pub bigint: usize,
    /// `symbol`
    pub symbol: usize,
    /// `object`
    pub object: usize,
    /// `function`
    pub function: usize,
    /// `0`
    pub zero: usize,
    /// `TypeError`
    pub type_error: usize,
    /// `RangeError`
    pub range_error: usize,
    /// `URIError`
    pub uri_error: usize,
    /// `SyntaxError`
    pub syntax_error: usize,
    /// `AggregateError`
    pub aggregate_error: usize,
}

/// Whether an atom stands for a text.
pub open spec fn spells(atoms: Seq<Seq<char>>, atom: usize, text: Seq<char>) -> bool {
    atom < atoms.len() && atoms[atom as int] == text
}

/// Whether the names are the atoms of their texts.
pub open spec fn names_ok(n: Names, atoms: Seq<Seq<char>>) -> bool {
    &&& spells(atoms, n.empty, ""@)
    &&& spells(atoms, n.length, "length"@)
    &&& spells(atoms, n.boxed, "__value__"@)
    &&& spells(atoms, n.constructor, "constructor"@)
    &&& spells(atoms, n.prototype, "prototype"@)
    &&& spells(atoms, n.name, "name"@)
    &&& spells(atoms, n.message, "message"@)
    &&& spells(atoms, n.error_data, "__error_data__"@)
    &&& spells(atoms, n.value, "value"@)
    &&& spells(atoms, n.writable, "writable"@)
    &&& spells(atoms, n.enumerable, "enumerable"@)
    &&& spells(atoms, n.configurable, "configurable"@)
    &&& spells(atoms, n.get, "get"@)
    &&& spells(atoms, n.set, "set"@)
    &&& spells(atoms, n.iterator, "__wk_iterator__"@)
    &&& spells(atoms, n.to_primitive, "__wk_toPrimitive__"@)
    &&& spells(atoms, n.species, "__wk_species__"@)
    &&& spells(atoms, n.next, "next"@)
    &&& spells(atoms, n.done, "done"@)
    &&& spells(atoms, n.then_method, "then"@)
    &&& spells(atoms, n.value_of, "valueOf"@)
    &&& spells(atoms, n.to_string, "toString"@)
    &&& spells(atoms, n.last_index, "lastIndex"@)
    &&& spells(atoms, n.promise_cap, "__promise_cap__"@)
    &&& spells(atoms, n.promise_kind, "__promise_kind__"@)
    &&& spells(atoms, n.promise_flag, "__promise_flag__"@)
    &&& spells(atoms, n.cap_exec, "__cap_exec__"@)
    &&& spells(atoms, n.resolved, "resolved"@)
    &&& spells(atoms, n.resolve, "resolve"@)
    &&& spells(atoms, n.reject, "reject"@)
    &&& spells(atoms, n.bound_target, "__target__"@)
    &&& spells(atoms, n.this, "__this__"@)
    &&& spells(atoms, n.bound_args, "__args__"@)
    &&& spells(atoms, n.super_object, "__super__"@)
    &&& spells(atoms, n.super_ctor, "__super_ctor__"@)
    &&& spells(atoms, n.arguments, "arguments"@)
    &&& spells(atoms, n.gen_fn, "__gen_fn__"@)
    &&& spells(atoms, n.gen_this, "__gen_this__"@)
    &&& spells(atoms, n.gen_args, "__gen_args__"@)
    &&& spells(atoms, n.gen_started, "__gen_started__"@)
    &&& spells(atoms, n.gen_values, "__gen_values__"@)
    &&& spells(atoms, n.gen_index, "__gen_index__"@)
    &&& spells(atoms, n.errors, "errors"@)
    &&& spells(atoms, n.remaining, "remaining"@)
    &&& spells(atoms, n.status, "status"@)
    &&& spells(atoms, n.fulfilled, "fulfilled"@)
    &&& spells(atoms, n.rejected, "rejected"@)
    &&& spells(atoms, n.reason, "reason"@)
    &&& spells(atoms, n.undefined, "undefined"@)
    &&& spells(atoms, n.null, "null"@)
    &&& spells(atoms, n.true_text, "true"@)
    &&& spells(atoms, n.false_text, "false"@)
    &&& spells(atoms, n.default_hint, "default"@)
    &&& spells(atoms, n.number, "number"@)
    &&& spells(atoms, n.string, "string"@)
    &&& spells(atoms, n.boolean, "boolean"@)
    &&& spells(atoms, n.bigint, "bigint"@)
    &&& spells(atoms, n.symbol, "symbol"@)
    &&& spells(atoms, n.object, "object"@)
    &&& spells(atoms, n.function, "function"@)
    &&& spells(atoms, n.zero, "0"@)
    &&& spells(atoms, n.type_error, "TypeError"@)
    &&& spells(atoms, n.range_error, "RangeError"@)
    &&& spells(atoms, n.uri_error, "URIError"@)
    &&& spells(atoms, n.syntax_error, "SyntaxError"@)
    &&& spells(atoms, n.aggregate_error, "AggregateError"@)
}

fn enter(atoms: &mut Atoms, text: &str) -> (r: usize)
    ensures
        spells(final(atoms)@, r, text@),
        old(atoms)@.len() <= final(atoms)@.len(),
        forall|i: usize, t: Seq<char>| #[trigger] spells(old(atoms)@, i, t) ==> spells(final(atoms)@, i, t),
{
    atoms.intern(text)
}

impl Names {
    /// Interns the names.
    #[verifier::rlimit(60)]
    pub fn new(atoms: &mut Atoms) -> (r: Self)
        ensures
            names_ok(r, final(atoms)@),
            old(atoms)@.len() <= final(atoms)@.len(),
            forall|i: usize, t: Seq<char>| #[trigger] spells(old(atoms)@, i, t) ==> spells(final(atoms)@, i, t),
    {
        let empty = enter(atoms, "");
        let length = enter(atoms, "length");
        let boxed = enter(atoms, "__value__");
        let constructor = enter(atoms, "constructor");
        let prototype = enter(atoms, "prototype");
        let name = enter(atoms, "name");
        let message = enter(atoms, "message");
        let error_data = enter(atoms, "__error_data__");
        let value = enter(atoms, "value");
        let writable = enter(atoms, "writable");
        let enumerable = enter(atoms, "enumerable");
        let configurable = enter(atoms, "configurable");
        let get = enter(atoms, "get");
        let set = enter(atoms, "set");
        let iterator = enter(atoms, "__wk_iterator__");
        let to_primitive = enter(atoms, "__wk_toPrimitive__");
        let species = enter(atoms, "__wk_species__");
        let next = enter(atoms, "next");
        let done = enter(atoms, "done");
        let then_method = enter(atoms, "then");
        let value_of = enter(atoms, "valueOf");
        let to_string = enter(atoms, "toString");
        let last_index = enter(atoms, "lastIndex");
        let promise_cap = enter(atoms, "__promise_cap__");
        let promise_kind = enter(atoms, "__promise_kind__");
        let promise_flag = enter(atoms, "__promise_flag__");
        let cap_exec = enter(atoms, "__cap_exec__");
        let resolved = enter(atoms, "resolved");
        let resolve = enter(atoms, "resolve");
        let reject = enter(atoms, "reject");
        let bound_target = enter(atoms, "__target__");
        let this = enter(atoms, "__this__");
        let bound_args = enter(atoms, "__args__");
        let super_object = enter(atoms, "__super__");
        let super_ctor = enter(atoms, "__super_ctor__");
        let arguments = enter(atoms, "arguments");
        let gen_fn = enter(atoms, "__gen_fn__");
        let gen_this = enter(atoms, "__gen_this__");
        let gen_args = enter(atoms, "__gen_args__");
        let gen_started = enter(atoms, "__gen_started__");
        let gen_values = enter(atoms, "__gen_values__");
        let gen_index = enter(atoms, "__gen_index__");
        let errors = enter(atoms, "errors");
        let remaining = enter(atoms, "remaining");
        let status = enter(atoms, "status");
        let fulfilled = enter(atoms, "fulfilled");
        let rejected = enter(atoms, "rejected");
        let reason = enter(atoms, "reason");
        let undefined = enter(atoms, "undefined");
        let null = enter(atoms, "null");
        let true_text = enter(atoms, "true");
        let false_text = enter(atoms, "false");
        let default_hint = enter(atoms, "default");
        let number = enter(atoms, "number");
        let string = enter(atoms, "string");
        let boolean = enter(atoms, "boolean");
        let bigint = enter(atoms, "bigint");
        let symbol = enter(atoms, "symbol");
        let object = enter(atoms, "object");
        let function = enter(atoms, "function");
        let zero = enter(atoms, "0");
        let type_error = enter(atoms, "TypeError");
        let range_error = enter(atoms, "RangeError");
        let uri_error = enter(atoms, "URIError");
        let syntax_error = enter(atoms, "SyntaxError");
        let aggregate_error = enter(atoms, "AggregateError");
        Names {
            empty, length, boxed, constructor, prototype, name,
            message, error_data, value, writable, enumerable, configurable,
            get, set, iterator, to_primitive, species, next,
            done, then_method, value_of, to_string, last_index, promise_cap,
            promise_kind, promise_flag, cap_exec, resolved, resolve, reject,
            bound_target, this, bound_args, super_object, super_ctor, arguments,
            gen_fn, gen_this, gen_args, gen_started, gen_values, gen_index,
            errors, remaining, status, fulfilled, rejected, reason,
            undefined, null, true_text, false_text, default_hint, number,
            string, boolean, bigint, symbol, object, function,
            zero, type_error, range_error, uri_error, syntax_error, aggregate_error,
        }
    }
}

/// The heap with what the object model reads beside it.
pub struct Store<'a> {
    pub heap: Heap<'a>,
    pub b: Builtins,
    pub n: Names,
    /// Whether failed writes throw.
    pub strict: bool,
}

/// The contents of a [`Store`].
#[verifier::ext_equal]
pub struct StoreView<'a> {
    pub heap: HeapView<'a>,
    pub b: Builtins,
    pub n: Names,
    pub strict: bool,
}

impl<'a> Store<'a> {
    /// The contents.
    pub open spec fn view(&self) -> StoreView<'a> {
        StoreView { heap: self.heap@, b: self.b, n: self.n, strict: self.strict }
    }

    /// The atom of a text.
    pub fn intern(&mut self, text: &str) -> (r: usize)
        ensures
            final(self)@ == old(self)@.with_text(text@),
            r == old(self)@.atom(text@),
            r < final(self)@.heap.atoms.len(),
            final(self)@.text(r) == text@,
    {
        let ghost before = self@;
        let r = self.heap.atoms.intern(text);
        proof {
            let after = self.heap.atoms@;
            if before.heap.atoms.contains(text@) {
                let i = before.heap.atoms.index_of(text@);
                assert(before.heap.atoms[i] == text@);
                assert(after[i] == after[r as int]);
            } else {
                assert(after =~= before.heap.atoms.push(text@));
            }
            assert(self@ =~= before.with_text(text@));
        }
        r
    }
}

impl<'a> StoreView<'a> {
    /// The store with another heap.
    pub open spec fn with_heap(self, heap: HeapView<'a>) -> StoreView<'a> {
        StoreView { heap, ..self }
    }

    /// The store after a text was interned.
    pub open spec fn with_text(self, text: Seq<char>) -> StoreView<'a> {
        if self.heap.atoms.contains(text) {
            self
        } else {
            self.with_heap(HeapView { atoms: self.heap.atoms.push(text), ..self.heap })
        }
    }

    /// The atom that a text has or gets.
    pub open spec fn atom(self, text: Seq<char>) -> usize {
        if self.heap.atoms.contains(text) {
            self.heap.atoms.index_of(text) as usize
        } else {
            self.heap.atoms.len() as usize
        }
    }

    /// The text of an atom; the empty text for a number without one.
    pub open spec fn text(self, atom: usize) -> Seq<char> {
        if atom < self.heap.atoms.len() { self.heap.atoms[atom as int] } else { Seq::empty() }
    }
}

} // verus!
