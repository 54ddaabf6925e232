//! Transitions that call functions and construct objects.
use vstd::prelude::*;
use crate::ast::Pattern;
use crate::engine::{Completion, Engine, EngineView, Frame, Mode, Request};
use crate::nth::{next, nth, or_else};
use crate::number::{saturated, to_u64};
use crate::value::{Body, Settlement, Value};

verus! {

/// Whether what a constructor returned replaces the instance.
#[verifier::allow_in_spec]
pub fn replaces_instance(v: Value) -> (r: bool)
    returns
        v.objectlike() || v is Symbol,
{
    v.is_object_value() || matches!(v, Value::Symbol(_))
}

impl<'a> EngineView<'a> {
    /// The promise, the kind and the flag of a resolving function.
    pub open spec fn resolver_parts(self, f: usize) -> Option<(usize, usize, Value)> {
        match (self.own_prop(f, self.store.n.promise_cap), self.own_prop(f, self.store.n.promise_kind), self.own_prop(f, self.store.n.promise_flag)) {
            (Some(c), Some(k), Some(flag)) => match (c.value, k.value) {
                (Value::Promise(cap), Value::String(kind)) => Some((cap, kind, flag.value)),
                _ => None,
            },
            _ => None,
        }
    }

    /// Whether a pair of resolving functions has been used.
    pub open spec fn flag_is_set(self, holder: Value) -> bool {
        match holder {
            Value::Object(o) => match self.own_prop(o, self.store.n.resolved) {
                Some(p) => self.truthy(p.value),
                None => false,
            },
            _ => false,
        }
    }

    /// Marks a pair of resolving functions as used.
    pub open spec fn flag_set(self, holder: Value) -> EngineView<'a> {
        let s = self;
        let k = s.n().resolved;
        match holder {
            Value::Object(o) => s.set_field(o, k, Value::Boolean(true)),
            _ => s,
        }
    }

    /// The capability that an executor records for.
    pub open spec fn cap_number(self, f: usize) -> Option<u64> {
        match self.own_prop(f, self.store.n.cap_exec) {
            Some(p) => match p.value {
                Value::Number(x) => Some(saturated(x, u64::MAX as nat) as u64),
                _ => None,
            },
            None => None,
        }
    }

    /// Calls a value with the arguments in a list.
    pub open spec fn call_function(self, func: Value, this: Value, list: usize) -> EngineView<'a> {
        let s = self;
        match func {
            Value::NativeFunction(f) => s.native_call(f, this, list),
            Value::Function(f) => s.function_call(f, this, list),
            _ => s.throw_type("called value is not a function"),
        }
    }

    /// Calls a function of the host. Resolving functions, the executors of
    /// capabilities and bound functions are the engine's own.
    pub open spec fn native_call(self, f: usize, this: Value, list: usize) -> EngineView<'a> {
        let s = self;
        let n = s.n();
        if s.own_prop(f, n.promise_cap).is_some() {
            s.resolver_call(f, list)
        } else {
            match s.cap_number(f) {
                Some(id) => {
                    let resolve = s.list_at(list, 0);
                    let reject = s.list_at(list, 1);
                    s.record_cap(id, resolve, reject).ret(Value::Undefined)
                },
                None => {
                    match s.own_prop(f, n.bound_target) {
                        Some(target) => {
                            let bound_this = s.own_value(f, n.this);
                            let bound_args = s.own_value(f, n.bound_args);
                            let (s, l) = s.new_list();
                            match bound_args {
                                Value::Array(a) => s.append_list(l, a).append_list(l, list).push(Frame::Call { func: target.value, this: bound_this, list: l }),
                                _ => s.append_list(l, list).push(Frame::Call { func: target.value, this: bound_this, list: l }),
                            }
                        },
                        None => {
                            let before = s.active_native();
                            s.set_native_ctor(Some(Value::NativeFunction(f))).push(Frame::NativeEnd(before)).ask(Request::Native { func: Value::NativeFunction(f), this: this, args: list, construct: false })
                        },
                    }
                },
            }
        }
    }

    /// Resolves or rejects the promise of a resolving function; only the first call of
    /// a pair counts.
    pub open spec fn resolver_call(self, f: usize, list: usize) -> EngineView<'a> {
        let s = self;
        match s.resolver_parts(f) {
            Some((cap, kind, flag)) => {
                if s.flag_is_set(flag) {
                    s.ret(Value::Undefined)
                } else {
                    let arg = s.list_at(list, 0);
                    let resolve = s.n().resolve;
                    if kind == resolve {
                        s.flag_set(flag).push(Frame::Give(Value::Undefined)).push(Frame::Resolve(cap, arg))
                    } else {
                        s.flag_set(flag).push(Frame::Give(Value::Undefined)).settle(cap, Settlement::Rejected(arg))
                    }
                }
            },
            None => s.throw_type("promise resolver invoked incorrectly"),
        }
    }

    /// Calls a function of the program: a generator gives its object, an `async`
    /// function runs and gives its promise, another function runs.
    pub open spec fn function_call(self, f: usize, this: Value, list: usize) -> EngineView<'a> {
        let s = self;
        match s.function(f) {
            Some(d) => {
                if d.generator {
                    let (s, g) = s.make_generator_object(f, this, list);
                    s.ret(g)
                } else if d.is_async {
                    s.call_async_function(f, this, list)
                } else {
                    s.call_function_normal(f, this, list)
                }
            },
            None => s.throw_type("called value is not a function"),
        }
    }

    /// Runs a function: its parameters are bound, then `this` and `arguments`, then the
    /// body runs.
    pub open spec fn call_function_normal(self, f: usize, this: Value, list: usize) -> EngineView<'a> {
        let s = self;
        match s.function(f) {
            Some(d) => {
                let (s, env) = s.new_scope(d.closure, true);
                s.push(Frame::CallEnd).enter(f, this, list, env)
            },
            None => s.throw_type("called value is not a function"),
        }
    }

    /// Pushes the parts of a function's run.
    pub open spec fn enter(self, f: usize, this: Value, list: usize, env: usize) -> EngineView<'a> {
        let s = self;
        match s.function(f) {
            Some(d) => {
                match d.params {
                    Some(params) => {
                        s.push(Frame::Body(f, env)).push(Frame::FinishEnv { func: f, this: this, list: list, env: env }).push(Frame::Params(params, 0, env, list))
                    },
                    None => s.push(Frame::Body(f, env)).push(Frame::FinishEnv { func: f, this: this, list: list, env: env }),
                }
            },
            None => s,
        }
    }

    /// Runs an `async` function up to its first `await`; its promise is the result.
    pub open spec fn call_async_function(self, f: usize, this: Value, list: usize) -> EngineView<'a> {
        let s = self;
        match s.function(f) {
            Some(d) => {
                let (s, p) = s.new_promise();
                let (s, env) = s.new_scope(d.closure, true);
                let s = s.finish_env(f, this, list, env).push(Frame::Give(Value::Promise(p))).push(Frame::AsyncEnd { cap: p, resumed: false }).push(Frame::Body(f, env));
                match d.params {
                    Some(params) => s.push(Frame::Params(params, 0, env, list)),
                    None => s,
                }
            },
            None => s.throw_type("called value is not a function"),
        }
    }

    /// Binds parameters in turn; missing arguments are `undefined`.
    pub open spec fn bind_params(self, list: &'a Vec<Pattern>, i: usize, env: usize, args: usize) -> EngineView<'a> {
        let s = self;
        match nth(list, i) {
            Some(p) => {
                let v = s.list_at(args, i);
                s.push(Frame::Params(list, next(i), env, args)).push(Frame::Bind(p, env, Mode::Bind)).ret(v)
            },
            None => s,
        }
    }

    /// Runs the body of a function, after the instance fields that a class constructor
    /// sets up.
    pub open spec fn body(self, f: usize, env: usize) -> EngineView<'a> {
        let s = self;
        match s.function(f) {
            Some(d) => {
                match d.body {
                    Body::Stmts(list) => s.hoist(list, env).push(Frame::Stmts(list, 0, env, None)).push(Frame::Fields(f, 0, env)).ret_empty(),
                    Body::ForwardArguments => s.push(Frame::Forward(env)).push(Frame::Fields(f, 0, env)).ret_empty(),
                    Body::Empty => s.push(Frame::Fields(f, 0, env)).ret_empty(),
                }
            },
            None => s.ret_empty(),
        }
    }

    /// Sets up instance fields in turn.
    pub open spec fn fields(self, f: usize, i: usize, env: usize) -> EngineView<'a> {
        let s = self;
        if i < s.field_count(f) {
            let field = s.field_init(f, i);
            match field.init {
                Some(x) => s.push(Frame::Fields(f, next(i), env)).push(Frame::FieldStore(field.key, env)).push(Frame::Expr(x, env)),
                None => s.push(Frame::Fields(f, next(i), env)).push(Frame::FieldStore(field.key, env)).ret(Value::Undefined),
            }
        } else {
            s
        }
    }

    /// Writes an instance field.
    pub open spec fn field_store(self, key: usize, env: usize) -> EngineView<'a> {
        let s = self;
        let v = s.value();
        let this = s.this_of(env);
        s.put_member(this, key, v)
    }

    /// Passes the arguments on to the parent constructor.
    pub open spec fn forward(self, env: usize) -> EngineView<'a> {
        let s = self;
        let n = s.n();
        match s.lookup(env, n.super_ctor) {
            Some(c) => {
                let (s, l) = s.new_list();
                s.push(Frame::SuperCall { ctor: c, list: l, env: env }).push(Frame::SpreadArg(l)).identifier(n.arguments, env)
            },
            None => s.throw_text("SyntaxError: 'super' constructor call outside subclass"),
        }
    }

    /// Completes a call: a call in tail position is made now.
    pub open spec fn call_end(self) -> EngineView<'a> {
        let s = self;
        match s.completion() {
            Completion::Normal(v) => s.ret(or_else(v, Value::Undefined)),
            Completion::Return(v) => s.ret(v),
            Completion::TailCall { func, this, args } => s.ret_empty().push(Frame::Call { func: func, this: this, list: args }),
            _ => s,
        }
    }

    /// Constructs with a function: the instance gets its prototype from the new target.
    pub open spec fn construct(self, func: Value, list: usize, target: Value) -> EngineView<'a> {
        let s = self;
        match func {
            Value::Function(f) => {
                match s.function(f) {
                    Some(d) => {
                        if d.is_async {
                            s.throw_type("async function is not a constructor")
                        } else {
                            let proto = or_else(s.proto_of(target), s.default_proto(target, func));
                            let (s, inst) = s.make_object(proto);
                            let before = s.target();
                            if d.is_derived {
                                let (s, env) = s.new_scope(d.closure, true);
                                s.set_target(Some(target)).push(Frame::DerivedEnd { env: env, placeholder: Value::Object(inst), target: before }).enter(f, Value::Object(inst), list, env)
                            } else {
                                s.set_target(Some(target)).push(Frame::ConstructEnd { inst: inst, target: before }).push(Frame::Call { func: func, this: Value::Object(inst), list: list })
                            }
                        }
                    },
                    None => s.throw_type("called value is not a function"),
                }
            },
            Value::NativeFunction(f) => {
                let proto = or_else(s.proto_of(target), s.default_proto(target, func));
                let (s, inst) = s.make_object(proto);
                match s.native(f) {
                    Some(d) => {
                        if d.constructable {
                            let before = s.target();
                            let realm = s.active_realm();
                            let ctor = s.active_native();
                            s.set_target(Some(target)).set_native_realm(d.realm).set_native_ctor(Some(func)).push(Frame::NativeCtorEnd { inst: inst, target: before, realm: realm, ctor: ctor }).ask(Request::Native { func: func, this: Value::Object(inst), args: list, construct: true })
                        } else {
                            s.throw_type("not a constructor")
                        }
                    },
                    None => s.throw_type("not a constructor"),
                }
            },
            _ => s.throw_type("called value is not a function"),
        }
    }

    /// Calls the parent constructor: inside a construction it constructs for the same
    /// new target, and the result becomes `this`.
    pub open spec fn super_call(self, ctor: Value, list: usize, env: usize) -> EngineView<'a> {
        let s = self;
        match s.target() {
            Some(t) => s.push(Frame::SuperDone(env)).construct(ctor, list, t),
            None => {
                let this = s.this_of(env);
                s.push(Frame::Call { func: ctor, this: this, list: list })
            },
        }
    }

    /// Completes a construction: an object that the constructor returned replaces the
    /// instance.
    pub open spec fn construct_end(self, inst: usize, target: Option<Value>) -> EngineView<'a> {
        let s = self;
        match s.completion() {
            Completion::Normal(v) => {
                let r = or_else(v, Value::Undefined);
                s.set_target(target).ret(if replaces_instance(r) { r } else { Value::Object(inst) })
            },
            _ => s.set_target(target),
        }
    }

    /// Completes a construction by the host.
    pub open spec fn native_ctor_end(self, inst: usize, target: Option<Value>, realm: Option<usize>, ctor: Option<Value>) -> EngineView<'a> {
        let s = self;
        s.set_native_ctor(ctor).set_native_realm(realm).construct_end(inst, target)
    }

    /// Completes the constructor of a derived class: the instance is what `this` means
    /// now, unless the constructor returned an object.
    pub open spec fn derived_end(self, env: usize, placeholder: Value, target: Option<Value>) -> EngineView<'a> {
        let s = self;
        match s.completion() {
            Completion::Return(v) => {
                if v.is_object_value() {
                    s.set_target(target).ret(v)
                } else {
                    let this = or_else(s.lookup(env, s.n().this), placeholder);
                    s.set_target(target).ret(this)
                }
            },
            Completion::Normal(_) => {
                let this = or_else(s.lookup(env, s.n().this), placeholder);
                s.set_target(target).ret(this)
            },
            Completion::TailCall { func, this, args } => {
                s.ret_empty().push(Frame::DerivedEnd { env: env, placeholder: placeholder, target: target }).push(Frame::ReturnEnd).push(Frame::Call { func: func, this: this, list: args })
            },
            _ => s.set_target(target),
        }
    }

    /// Runs the body of a generator and gathers what it yields.
    pub open spec fn run_generator_body(self, generator: Value) -> EngineView<'a> {
        let s = self;
        let k = s.n().gen_fn;
        s.push(Frame::GenFn(generator)).read_prop(generator, k)
    }

    /// Reads the receiver of a generator.
    pub open spec fn gen_fn(self, generator: Value) -> EngineView<'a> {
        let s = self;
        let f = s.value();
        let k = s.n().gen_this;
        s.push(Frame::GenThis(generator, f)).read_prop(generator, k)
    }

    /// Reads the arguments of a generator.
    pub open spec fn gen_this(self, generator: Value, func: Value) -> EngineView<'a> {
        let s = self;
        let this = s.value();
        let k = s.n().gen_args;
        s.push(Frame::GenArgs(generator, func, this)).read_prop(generator, k)
    }

    /// Starts the body of a generator.
    pub open spec fn gen_args(self, generator: Value, func: Value, this: Value) -> EngineView<'a> {
        let s = self;
        let args = s.value();
        match func {
            Value::Function(f) => {
                let (s, l) = s.new_list();
                let (s, out) = s.new_list();
                let before = s.yield_sink();
                let s = s.set_sink(Some(out)).push(Frame::GeneratorEnd { generator: generator, list: out, sink: before });
                match args {
                    Value::Array(a) => s.append_list(l, a).generator_call(f, this, l),
                    _ => s.generator_call(f, this, l),
                }
            },
            _ => s.throw_type("generator function is not callable"),
        }
    }

    /// Runs the function of a generator.
    pub open spec fn generator_call(self, f: usize, this: Value, list: usize) -> EngineView<'a> {
        let s = self;
        match s.function(f) {
            Some(d) => {
                if d.is_async {
                    s.function_call(f, this, list)
                } else {
                    s.call_function_normal(f, this, list)
                }
            },
            None => s.throw_type("called value is not a function"),
        }
    }

    /// Stores what a generator yielded; how its body ended does not matter.
    pub open spec fn generator_end(self, generator: Value, list: usize, sink: Option<usize>) -> EngineView<'a> {
        let s = self;
        let n = s.n();
        let s = s.set_sink(sink);
        match generator {
            Value::Object(o) => {
                let (s, a) = s.array_from(list, 0);
                s.set_field(o, n.gen_values, Value::Array(a)).set_field(o, n.gen_started, Value::Boolean(true)).ret(Value::Undefined)
            },
            _ => s.ret(Value::Undefined),
        }
    }

    /// Reads a property whose getter may fail; a property that is not there or has no
    /// getter gives `undefined`.
    pub open spec fn read_raw(self, base: Value, key: usize) -> EngineView<'a> {
        let s = self;
        match s.raw_property(base, key) {
            Some(p) => {
                if p.is_accessor() {
                    match p.get {
                        Some(g) => {
                            let (s, l) = s.new_list();
                            s.push(Frame::Call { func: g, this: base, list: l })
                        },
                        None => s.ret(Value::Undefined),
                    }
                } else {
                    s.ret(p.value)
                }
            },
            None => s.ret(Value::Undefined),
        }
    }

    /// The prototype of an instance that a host constructor makes: the new target's,
    /// where it has one.
    pub open spec fn instance_proto(self, default: usize, construct: bool) -> EngineView<'a> {
        let s = self;
        if construct {
            match s.target() {
                Some(t) => {
                    let k = s.n().prototype;
                    s.push(Frame::ProtoOr(default)).read_raw(t, k)
                },
                None => s.ret(Value::Object(default)),
            }
        } else {
            s.ret(Value::Object(default))
        }
    }

    /// The prototype of a promise made for a new target.
    pub open spec fn promise_proto_from_new_target(self, target: Value) -> EngineView<'a> {
        let s = self;
        let k = s.n().prototype;
        let d = s.b().promise_prototype;
        s.push(Frame::ProtoOr(d)).read_raw(target, k)
    }

    /// Takes an object as the prototype, or a default.
    pub open spec fn proto_or(self, default: usize) -> EngineView<'a> {
        let s = self;
        match s.value() {
            Value::Object(o) => s.ret(Value::Object(o)),
            _ => s.ret(Value::Object(default)),
        }
    }

    /// The constructor for objects derived from another.
    pub open spec fn species_constructor(self, obj: Value, default: Value) -> EngineView<'a> {
        let s = self;
        let k = s.n().constructor;
        s.push(Frame::SpeciesCtor(default)).read_raw(obj, k)
    }

    /// Reads the species of a constructor.
    pub open spec fn species_ctor(self, default: Value) -> EngineView<'a> {
        let s = self;
        let c = s.value();
        if c.is_undefined() {
            s.ret(default)
        } else {
            let k = s.n().species;
            s.push(Frame::SpeciesEnd(default)).read_raw(c, k)
        }
    }

    /// Checks a species.
    pub open spec fn species_end(self, default: Value) -> EngineView<'a> {
        let s = self;
        let c = s.value();
        if c.is_nullish() {
            s.ret(default)
        } else if s.is_constructor(c) {
            s.ret(c)
        } else {
            s.throw_type("species is not a constructor")
        }
    }

    /// Constructs a promise with a constructor, and records the functions that its
    /// executor receives.
    pub open spec fn promise_capability_new(self, ctor: Value) -> EngineView<'a> {
        let s = self;
        if s.is_constructor(ctor) {
            let (s, id) = s.new_cap();
            let (s, executor) = s.cap_executor(id);
            let (s, l) = s.list1(executor);
            s.push(Frame::CapEnd(id)).construct(ctor, l, ctor)
        } else {
            s.throw_type("promise capability constructor is not a constructor")
        }
    }

    /// Completes a capability: a list of the promise and the two functions.
    pub open spec fn cap_end(self, id: u64) -> EngineView<'a> {
        let s = self;
        let c = s.completion();
        let (s, functions) = s.take_cap(id);
        match c {
            Completion::Normal(v) => {
                match functions {
                    Some((resolve, reject)) => {
                        let (s, l) = s.list1(or_else(v, Value::Undefined));
                        s.append(l, resolve).append(l, reject).ret(Value::Array(l))
                    },
                    None => s.throw_type("constructor did not call its executor"),
                }
            },
            _ => s,
        }
    }
}

impl<'a> Engine<'a> {
    /// The promise, the kind and the flag of a resolving function.
    pub(crate) fn resolver_parts(&self, f: usize) -> (res: Option<(usize, usize, Value)>)
        ensures
            res == self@.resolver_parts(f),
    {
        match (self.own_prop(f, self.store.n.promise_cap), self.own_prop(f, self.store.n.promise_kind), self.own_prop(f, self.store.n.promise_flag)) {
            (Some(c), Some(k), Some(flag)) => match (c.value, k.value) {
                (Value::Promise(cap), Value::String(kind)) => Some((cap, kind, flag.value)),
                _ => None,
            },
            _ => None,
        }
    }

    /// Whether a pair of resolving functions has been used.
    pub(crate) fn flag_is_set(&self, holder: Value) -> (res: bool)
        ensures
            res == self@.flag_is_set(holder),
    {
        match holder {
            Value::Object(o) => match self.own_prop(o, self.store.n.resolved) {
                Some(p) => self.truthy(p.value),
                None => false,
            },
            _ => false,
        }
    }

    /// Marks a pair of resolving functions as used.
    pub(crate) fn flag_set(&mut self, holder: Value)
        ensures
            final(self)@ == old(self)@.flag_set(holder),
    {
        let k = self.n().resolved;
        match holder {
            Value::Object(o) => { self.set_field(o, k, Value::Boolean(true)); },
            _ => {},
        }
    }

    /// The capability that an executor records for.
    pub(crate) fn cap_number(&self, f: usize) -> (res: Option<u64>)
        ensures
            res == self@.cap_number(f),
    {
        match self.own_prop(f, self.store.n.cap_exec) {
            Some(p) => match p.value {
                Value::Number(x) => Some(to_u64(x)),
                _ => None,
            },
            None => None,
        }
    }

    /// Calls a value with the arguments in a list.
    pub(crate) fn call_function(&mut self, func: Value, this: Value, list: usize)
        ensures
            final(self)@ == old(self)@.call_function(func, this, list),
    {
        match func {
            Value::NativeFunction(f) => { self.native_call(f, this, list); },
            Value::Function(f) => { self.function_call(f, this, list); },
            _ => { self.throw_type("called value is not a function"); },
        }
    }

    /// Calls a function of the host. Resolving functions, the executors of
    /// capabilities and bound functions are the engine's own.
    pub(crate) fn native_call(&mut self, f: usize, this: Value, list: usize)
        ensures
            final(self)@ == old(self)@.native_call(f, this, list),
    {
        let n = self.n();
        if self.own_prop(f, n.promise_cap).is_some() {
            self.resolver_call(f, list);
        } else {
            match self.cap_number(f) {
                Some(id) => {
                    let resolve = self.list_at(list, 0);
                    let reject = self.list_at(list, 1);
                    self.record_cap(id, resolve, reject); self.ret(Value::Undefined);
                },
                None => {
                    match self.own_prop(f, n.bound_target) {
                        Some(target) => {
                            let bound_this = self.own_value(f, n.this);
                            let bound_args = self.own_value(f, n.bound_args);
                            let l = self.new_list();
                            match bound_args {
                                Value::Array(a) => { self.append_list(l, a); self.append_list(l, list); self.push(Frame::Call { func: target.value, this: bound_this, list: l }); },
                                _ => { self.append_list(l, list); self.push(Frame::Call { func: target.value, this: bound_this, list: l }); },
                            }
                        },
                        None => {
                            let before = self.active_native();
                            self.set_native_ctor(Some(Value::NativeFunction(f))); self.push(Frame::NativeEnd(before)); self.ask(Request::Native { func: Value::NativeFunction(f), this: this, args: list, construct: false });
                        },
                    }
                },
            }
        }
    }

    /// Resolves or rejects the promise of a resolving function; only the first call of
    /// a pair counts.
    pub(crate) fn resolver_call(&mut self, f: usize, list: usize)
        ensures
            final(self)@ == old(self)@.resolver_call(f, list),
    {
        match self.resolver_parts(f) {
            Some((cap, kind, flag)) => {
                if self.flag_is_set(flag) {
                    self.ret(Value::Undefined);
                } else {
                    let arg = self.list_at(list, 0);
                    let resolve = self.n().resolve;
                    if kind == resolve {
                        self.flag_set(flag); self.push(Frame::Give(Value::Undefined)); self.push(Frame::Resolve(cap, arg));
                    } else {
                        self.flag_set(flag); self.push(Frame::Give(Value::Undefined)); self.settle(cap, Settlement::Rejected(arg));
                    }
                }
            },
            None => { self.throw_type("promise resolver invoked incorrectly"); },
        }
    }

    /// Calls a function of the program: a generator gives its object, an `async`
    /// function runs and gives its promise, another function runs.
    pub(crate) fn function_call(&mut self, f: usize, this: Value, list: usize)
        ensures
            final(self)@ == old(self)@.function_call(f, this, list),
    {
        match self.function(f) {
            Some(d) => {
                if d.generator {
                    let g = self.make_generator_object(f, this, list);
                    self.ret(g);
                } else if d.is_async {
                    self.call_async_function(f, this, list);
                } else {
                    self.call_function_normal(f, this, list);
                }
            },
            None => { self.throw_type("called value is not a function"); },
        }
    }

    /// Runs a function: its parameters are bound, then `this` and `arguments`, then the
    /// body runs.
    pub(crate) fn call_function_normal(&mut self, f: usize, this: Value, list: usize)
        ensures
            final(self)@ == old(self)@.call_function_normal(f, this, list),
    {
        match self.function(f) {
            Some(d) => {
                let env = self.new_scope(d.closure, true);
                self.push(Frame::CallEnd); self.enter(f, this, list, env);
            },
            None => { self.throw_type("called value is not a function"); },
        }
    }

    /// Pushes the parts of a function's run.
    pub(crate) fn enter(&mut self, f: usize, this: Value, list: usize, env: usize)
        ensures
            final(self)@ == old(self)@.enter(f, this, list, env),
    {
        match self.function(f) {
            Some(d) => {
                match d.params {
                    Some(params) => {
                        self.push(Frame::Body(f, env)); self.push(Frame::FinishEnv { func: f, this: this, list: list, env: env }); self.push(Frame::Params(params, 0, env, list));
                    },
                    None => { self.push(Frame::Body(f, env)); self.push(Frame::FinishEnv { func: f, this: this, list: list, env: env }); },
                }
            },
            None => {},
        }
    }

    /// Runs an `async` function up to its first `await`; its promise is the result.
    pub(crate) fn call_async_function(&mut self, f: usize, this: Value, list: usize)
        ensures
            final(self)@ == old(self)@.call_async_function(f, this, list),
    {
        match self.function(f) {
            Some(d) => {
                let p = self.new_promise();
                let env = self.new_scope(d.closure, true);
                self.finish_env(f, this, list, env); self.push(Frame::Give(Value::Promise(p))); self.push(Frame::AsyncEnd { cap: p, resumed: false }); self.push(Frame::Body(f, env));
                match d.params {
                    Some(params) => { self.push(Frame::Params(params, 0, env, list)); },
                    None => {},
                }
            },
            None => { self.throw_type("called value is not a function"); },
        }
    }

    /// Binds parameters in turn; missing arguments are `undefined`.
    pub(crate) fn bind_params(&mut self, list: &'a Vec<Pattern>, i: usize, env: usize, args: usize)
        ensures
            final(self)@ == old(self)@.bind_params(list, i, env, args),
    {
        match nth(list, i) {
            Some(p) => {
                let v = self.list_at(args, i);
                self.push(Frame::Params(list, next(i), env, args)); self.push(Frame::Bind(p, env, Mode::Bind)); self.ret(v);
            },
            None => {},
        }
    }

    /// Runs the body of a function, after the instance fields that a class constructor
    /// sets up.
    pub(crate) fn body(&mut self, f: usize, env: usize)
        ensures
            final(self)@ == old(self)@.body(f, env),
    {
        match self.function(f) {
            Some(d) => {
                match d.body {
                    Body::Stmts(list) => { self.hoist(list, env); self.push(Frame::Stmts(list, 0, env, None)); self.push(Frame::Fields(f, 0, env)); self.ret_empty(); },
                    Body::ForwardArguments => { self.push(Frame::Forward(env)); self.push(Frame::Fields(f, 0, env)); self.ret_empty(); },
                    Body::Empty => { self.push(Frame::Fields(f, 0, env)); self.ret_empty(); },
                }
            },
            None => { self.ret_empty(); },
        }
    }

    /// Sets up instance fields in turn.
    pub(crate) fn fields(&mut self, f: usize, i: usize, env: usize)
        ensures
            final(self)@ == old(self)@.fields(f, i, env),
    {
        if i < self.field_count(f) {
            let field = self.field_init(f, i);
            match field.init {
                Some(x) => { self.push(Frame::Fields(f, next(i), env)); self.push(Frame::FieldStore(field.key, env)); self.push(Frame::Expr(x, env)); },
                None => { self.push(Frame::Fields(f, next(i), env)); self.push(Frame::FieldStore(field.key, env)); self.ret(Value::Undefined); },
            }
        } else {

        }
    }

    /// Writes an instance field.
    pub(crate) fn field_store(&mut self, key: usize, env: usize)
        ensures
            final(self)@ == old(self)@.field_store(key, env),
    {
        let v = self.value();
        let this = self.this_of(env);
        self.put_member(this, key, v);
    }

    /// Passes the arguments on to the parent constructor.
    pub(crate) fn forward(&mut self, env: usize)
        ensures
            final(self)@ == old(self)@.forward(env),
    {
        let n = self.n();
        match self.lookup(env, n.super_ctor) {
            Some(c) => {
                let l = self.new_list();
                self.push(Frame::SuperCall { ctor: c, list: l, env: env }); self.push(Frame::SpreadArg(l)); self.identifier(n.arguments, env);
            },
            None => { self.throw_text("SyntaxError: 'super' constructor call outside subclass"); },
        }
    }

    /// Completes a call: a call in tail position is made now.
    pub(crate) fn call_end(&mut self)
        ensures
            final(self)@ == old(self)@.call_end(),
    {
        match self.completion() {
            Completion::Normal(v) => { self.ret(or_else(v, Value::Undefined)); },
            Completion::Return(v) => { self.ret(v); },
            Completion::TailCall { func, this, args } => { self.ret_empty(); self.push(Frame::Call { func: func, this: this, list: args }); },
            _ => {},
        }
    }

    /// Constructs with a function: the instance gets its prototype from the new target.
    pub(crate) fn construct(&mut self, func: Value, list: usize, target: Value)
        ensures
            final(self)@ == old(self)@.construct(func, list, target),
    {
        match func {
            Value::Function(f) => {
                match self.function(f) {
                    Some(d) => {
                        if d.is_async {
                            self.throw_type("async function is not a constructor");
                        } else {
                            let proto = or_else(self.proto_of(target), self.default_proto(target, func));
                            let inst = self.make_object(proto);
                            let before = self.target();
                            if d.is_derived {
                                let env = self.new_scope(d.closure, true);
                                self.set_target(Some(target)); self.push(Frame::DerivedEnd { env: env, placeholder: Value::Object(inst), target: before }); self.enter(f, Value::Object(inst), list, env);
                            } else {
                                self.set_target(Some(target)); self.push(Frame::ConstructEnd { inst: inst, target: before }); self.push(Frame::Call { func: func, this: Value::Object(inst), list: list });
                            }
                        }
                    },
                    None => { self.throw_type("called value is not a function"); },
                }
            },
            Value::NativeFunction(f) => {
                let proto = or_else(self.proto_of(target), self.default_proto(target, func));
                let inst = self.make_object(proto);
                match self.native(f) {
                    Some(d) => {
                        if d.constructable {
                            let before = self.target();
                            let realm = self.active_realm();
                            let ctor = self.active_native();
                            self.set_target(Some(target)); self.set_native_realm(d.realm); self.set_native_ctor(Some(func)); self.push(Frame::NativeCtorEnd { inst: inst, target: before, realm: realm, ctor: ctor }); self.ask(Request::Native { func: func, this: Value::Object(inst), args: list, construct: true });
                        } else {
                            self.throw_type("not a constructor");
                        }
                    },
                    None => { self.throw_type("not a constructor"); },
                }
            },
            _ => { self.throw_type("called value is not a function"); },
        }
    }

    /// Calls the parent constructor: inside a construction it constructs for the same
    /// new target, and the result becomes `this`.
    pub(crate) fn super_call(&mut self, ctor: Value, list: usize, env: usize)
        ensures
            final(self)@ == old(self)@.super_call(ctor, list, env),
    {
        match self.target() {
            Some(t) => { self.push(Frame::SuperDone(env)); self.construct(ctor, list, t); },
            None => {
                let this = self.this_of(env);
                self.push(Frame::Call { func: ctor, this: this, list: list });
            },
        }
    }

    /// Completes a construction: an object that the constructor returned replaces the
    /// instance.
    pub(crate) fn construct_end(&mut self, inst: usize, target: Option<Value>)
        ensures
            final(self)@ == old(self)@.construct_end(inst, target),
    {
        match self.completion() {
            Completion::Normal(v) => {
                let r = or_else(v, Value::Undefined);
                self.set_target(target); self.ret(if replaces_instance(r) { r } else { Value::Object(inst) });
            },
            _ => { self.set_target(target); },
        }
    }

    /// Completes a construction by the host.
    pub(crate) fn native_ctor_end(&mut self, inst: usize, target: Option<Value>, realm: Option<usize>, ctor: Option<Value>)
        ensures
            final(self)@ == old(self)@.native_ctor_end(inst, target, realm, ctor),
    {
        self.set_native_ctor(ctor); self.set_native_realm(realm); self.construct_end(inst, target);
    }

    /// Completes the constructor of a derived class: the instance is what `this` means
    /// now, unless the constructor returned an object.
    pub(crate) fn derived_end(&mut self, env: usize, placeholder: Value, target: Option<Value>)
        ensures
            final(self)@ == old(self)@.derived_end(env, placeholder, target),
    {
        match self.completion() {
            Completion::Return(v) => {
                if v.is_object_value() {
                    self.set_target(target); self.ret(v);
                } else {
                    let this = or_else(self.lookup(env, self.n().this), placeholder);
                    self.set_target(target); self.ret(this);
                }
            },
            Completion::Normal(_) => {
                let this = or_else(self.lookup(env, self.n().this), placeholder);
                self.set_target(target); self.ret(this);
            },
            Completion::TailCall { func, this, args } => {
                self.ret_empty(); self.push(Frame::DerivedEnd { env: env, placeholder: placeholder, target: target }); self.push(Frame::ReturnEnd); self.push(Frame::Call { func: func, this: this, list: args });
            },
            _ => { self.set_target(target); },
        }
    }

    /// Runs the body of a generator and gathers what it yields.
    pub(crate) fn run_generator_body(&mut self, generator: Value)
        ensures
            final(self)@ == old(self)@.run_generator_body(generator),
    {
        let k = self.n().gen_fn;
        self.push(Frame::GenFn(generator)); self.read_prop(generator, k);
    }

    /// Reads the receiver of a generator.
    pub(crate) fn gen_fn(&mut self, generator: Value)
        ensures
            final(self)@ == old(self)@.gen_fn(generator),
    {
        let f = self.value();
        let k = self.n().gen_this;
        self.push(Frame::GenThis(generator, f)); self.read_prop(generator, k);
    }

    /// Reads the arguments of a generator.
    pub(crate) fn gen_this(&mut self, generator: Value, func: Value)
        ensures
            final(self)@ == old(self)@.gen_this(generator, func),
    {
        let this = self.value();
        let k = self.n().gen_args;
        self.push(Frame::GenArgs(generator, func, this)); self.read_prop(generator, k);
    }

    /// Starts the body of a generator.
    pub(crate) fn gen_args(&mut self, generator: Value, func: Value, this: Value)
        ensures
            final(self)@ == old(self)@.gen_args(generator, func, this),
    {
        let args = self.value();
        match func {
            Value::Function(f) => {
                let l = self.new_list();
                let out = self.new_list();
                let before = self.yield_sink();
                self.set_sink(Some(out)); self.push(Frame::GeneratorEnd { generator: generator, list: out, sink: before });
                match args {
                    Value::Array(a) => { self.append_list(l, a); self.generator_call(f, this, l); },
                    _ => { self.generator_call(f, this, l); },
                }
            },
            _ => { self.throw_type("generator function is not callable"); },
        }
    }

    /// Runs the function of a generator.
    pub(crate) fn generator_call(&mut self, f: usize, this: Value, list: usize)
        ensures
            final(self)@ == old(self)@.generator_call(f, this, list),
    {
        match self.function(f) {
            Some(d) => {
                if d.is_async {
                    self.function_call(f, this, list);
                } else {
                    self.call_function_normal(f, this, list);
                }
            },
            None => { self.throw_type("called value is not a function"); },
        }
    }

    /// Stores what a generator yielded; how its body ended does not matter.
    pub(crate) fn generator_end(&mut self, generator: Value, list: usize, sink: Option<usize>)
        ensures
            final(self)@ == old(self)@.generator_end(generator, list, sink),
    {
        let n = self.n();
        self.set_sink(sink);
        match generator {
            Value::Object(o) => {
                let a = self.array_from(list, 0);
                self.set_field(o, n.gen_values, Value::Array(a)); self.set_field(o, n.gen_started, Value::Boolean(true)); self.ret(Value::Undefined);
            },
            _ => { self.ret(Value::Undefined); },
        }
    }

    /// Reads a property whose getter may fail; a property that is not there or has no
    /// getter gives `undefined`.
    pub(crate) fn read_raw(&mut self, base: Value, key: usize)
        ensures
            final(self)@ == old(self)@.read_raw(base, key),
    {
        match self.raw_property(base, key) {
            Some(p) => {
                if p.is_accessor() {
                    match p.get {
                        Some(g) => {
                            let l = self.new_list();
                            self.push(Frame::Call { func: g, this: base, list: l });
                        },
                        None => { self.ret(Value::Undefined); },
                    }
                } else {
                    self.ret(p.value);
                }
            },
            None => { self.ret(Value::Undefined); },
        }
    }

    /// The prototype of an instance that a host constructor makes: the new target's,
    /// where it has one.
    pub(crate) fn instance_proto(&mut self, default: usize, construct: bool)
        ensures
            final(self)@ == old(self)@.instance_proto(default, construct),
    {
        if construct {
            match self.target() {
                Some(t) => {
                    let k = self.n().prototype;
                    self.push(Frame::ProtoOr(default)); self.read_raw(t, k);
                },
                None => { self.ret(Value::Object(default)); },
            }
        } else {
            self.ret(Value::Object(default));
        }
    }

    /// The prototype of a promise made for a new target.
    pub(crate) fn promise_proto_from_new_target(&mut self, target: Value)
        ensures
            final(self)@ == old(self)@.promise_proto_from_new_target(target),
    {
        let k = self.n().prototype;
        let d = self.b().promise_prototype;
        self.push(Frame::ProtoOr(d)); self.read_raw(target, k);
    }

    /// Takes an object as the prototype, or a default.
    pub(crate) fn proto_or(&mut self, default: usize)
        ensures
            final(self)@ == old(self)@.proto_or(default),
    {
        match self.value() {
            Value::Object(o) => { self.ret(Value::Object(o)); },
            _ => { self.ret(Value::Object(default)); },
        }
    }

    /// The constructor for objects derived from another.
    pub(crate) fn species_constructor(&mut self, obj: Value, default: Value)
        ensures
            final(self)@ == old(self)@.species_constructor(obj, default),
    {
        let k = self.n().constructor;
        self.push(Frame::SpeciesCtor(default)); self.read_raw(obj, k);
    }

    /// Reads the species of a constructor.
    pub(crate) fn species_ctor(&mut self, default: Value)
        ensures
            final(self)@ == old(self)@.species_ctor(default),
    {
        let c = self.value();
        if c.is_undefined() {
            self.ret(default);
        } else {
            let k = self.n().species;
            self.push(Frame::SpeciesEnd(default)); self.read_raw(c, k);
        }
    }

    /// Checks a species.
    pub(crate) fn species_end(&mut self, default: Value)
        ensures
            final(self)@ == old(self)@.species_end(default),
    {
        let c = self.value();
        if c.is_nullish() {
            self.ret(default);
        } else if self.is_constructor(c) {
            self.ret(c);
        } else {
            self.throw_type("species is not a constructor");
        }
    }

    /// Constructs a promise with a constructor, and records the functions that its
    /// executor receives.
    pub(crate) fn promise_capability_new(&mut self, ctor: Value)
        ensures
            final(self)@ == old(self)@.promise_capability_new(ctor),
    {
        if self.is_constructor(ctor) {
            let id = self.new_cap();
            let executor = self.cap_executor(id);
            let l = self.list1(executor);
            self.push(Frame::CapEnd(id)); self.construct(ctor, l, ctor);
        } else {
            self.throw_type("promise capability constructor is not a constructor");
        }
    }

    /// Completes a capability: a list of the promise and the two functions.
    pub(crate) fn cap_end(&mut self, id: u64)
        ensures
            final(self)@ == old(self)@.cap_end(id),
    {
        let c = self.completion();
        let functions = self.take_cap(id);
        match c {
            Completion::Normal(v) => {
                match functions {
                    Some((resolve, reject)) => {
                        let l = self.list1(or_else(v, Value::Undefined));
                        self.append(l, resolve); self.append(l, reject); self.ret(Value::Array(l));
                    },
                    None => { self.throw_type("constructor did not call its executor"); },
                }
            },
            _ => {},
        }
    }
}

} // verus!
