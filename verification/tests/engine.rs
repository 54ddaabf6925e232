//! Scripts, run by the engine with a small host.
use tengin::ast::{BinaryOp, Program};
use tengin::engine::{Completion, Engine, Job, Request};
use tengin::error::Error;
use tengin::host::{Progress, Task};
use tengin::names::collect_var_names;
use tengin::source::parse;
use tengin::value::{Cell, NativeFunctionData, Property, PromiseReaction, PromiseReactionKind, RealmProto, Settlement, SymbolData, Value};

/// What a script ends with when it does not end normally.
#[derive(Debug)]
enum Failure {
    Parse(String),
    Unimplemented(String),
    Thrown(String),
}

impl Failure {
    fn text(&self) -> String {
        match self {
            Failure::Parse(m) => format!("SyntaxError: {}", m),
            Failure::Unimplemented(m) => m.clone(),
            Failure::Thrown(m) => m.clone(),
        }
    }
}

/// An engine with a host: the arithmetic on doubles, and a small library of
/// functions, some of them written as scripts.
struct Js {
    e: Engine<'static>,
}

type Answer = Result<Value, Completion>;

const NATIVES: [&str; 36] = [
    "resolver", "Array", "Array.isArray", "Object", "Object.defineProperty", "Object.getPrototypeOf", "Object.prototype.hasOwnProperty",
    "Object.prototype.toString", "Function.prototype.call", "Promise", "Promise.resolve", "Promise.reject", "Promise.all", "Promise.race",
    "Promise.allSettled", "Promise.any", "Promise.withResolvers", "Promise.prototype.then", "Promise.prototype.catch",
    "Promise.prototype.finally", "queueMicrotask", "setTimeout", "setInterval", "clearTimeout", "clearInterval", "eval", "Symbol", "Function",
    "AsyncFunction", "intrinsic", "String", "Number", "Math.floor", "Math.max", "Function.prototype.bind", "Boolean",
];

const PRELUDE: &str = "
var assert = { sameValue: function (a, b, m) {
    if (a === b ? (a !== 0 || 1 / a === 1 / b) : (a !== a && b !== b)) return;
    throw new Error(m);
} };
function isNaN(x) { x = +x; return x !== x; }
Array.prototype.push = function (v) { for (var i = 0; i < arguments.length; i++) { this[this.length] = arguments[i]; } return this.length; };
Array.prototype.join = function (sep) {
    var s = '';
    if (sep === undefined) { sep = ','; }
    for (var i = 0; i < this.length; i++) {
        if (i > 0) { s += sep; }
        if (this[i] !== undefined && this[i] !== null) { s += this[i]; }
    }
    return s;
};
Array.prototype.toString = function () { return this.join(','); };
Array.prototype.map = function (f) { var r = []; for (var i = 0; i < this.length; i++) { r[i] = f(this[i], i, this); } return r; };
Array.prototype.filter = function (f) { var r = []; for (var i = 0; i < this.length; i++) { if (f(this[i])) { r[r.length] = this[i]; } } return r; };
Array.prototype.reduce = function (f, a) { for (var i = 0; i < this.length; i++) { a = f(a, this[i]); } return a; };
var JSON = { stringify: function (v) { return Array.isArray(v) ? '[' + v.map(JSON.stringify).join(',') + ']' : '' + v; } };
function makeError(name) {
    var E = function (m) {
        var o = this instanceof E ? this : new E();
        if (m !== undefined) { o.message = '' + m; }
        return o;
    };
    E.prototype = intrinsic(name);
    E.prototype.constructor = E;
    E.prototype.name = name;
    E.prototype.message = '';
    return E;
}
var Error = makeError('Error');
var TypeError = makeError('TypeError');
var RangeError = makeError('RangeError');
var SyntaxError = makeError('SyntaxError');
var AggregateError = makeError('AggregateError');
Error.prototype.toString = function () { return this.message === '' ? this.name : this.name + ': ' + this.message; };
['push', 'join', 'toString', 'map', 'filter', 'reduce'].map(function (k) { Object.defineProperty(Array.prototype, k, { enumerable: false }); });
";

impl Js {
    fn new() -> Js {
        let mut js = Js { e: Engine::new() };
        js.install();
        js.eval(PRELUDE).unwrap();
        js
    }

    fn atom(&mut self, t: &str) -> usize {
        self.e.store.intern(t)
    }

    fn string(&mut self, t: &str) -> Value {
        Value::String(self.atom(t))
    }

    fn text_of(&self, v: Value) -> String {
        match v {
            Value::String(a) | Value::BigInt(a) => self.e.store.heap.atoms.text(a).to_string(),
            _ => panic!("no string: {:?}", v),
        }
    }

    fn native(&mut self, name: &str, constructable: bool) -> Value {
        let func = NATIVES.iter().position(|n| *n == name).unwrap();
        let mut data = NativeFunctionData::new(func);
        data.constructable = constructable;
        data.proto = Some(self.e.store.b.function_prototype);
        let id = self.e.store.heap.add_cell(Cell::Native(data));
        let short = name.rsplit('.').next().unwrap();
        let v = self.string(short);
        let key = self.e.store.n.name;
        self.e.store.heap.insert_prop(id, key, Property::config(v));
        Value::NativeFunction(id)
    }

    fn put(&mut self, id: usize, name: &str, v: Value) {
        let key = self.atom(name);
        self.e.store.heap.insert_prop(id, key, Property::method(v));
    }

    fn global(&mut self, name: &str, v: Value) {
        let key = self.atom(name);
        let env = self.e.store.b.global_env;
        self.e.store.heap.bind(env, key, v);
    }

    fn constructor(&mut self, name: &str, proto: usize, kind: Option<RealmProto>) -> usize {
        let f = self.native(name, true);
        let id = match f {
            Value::NativeFunction(id) => id,
            _ => unreachable!(),
        };
        if let Cell::Native(d) = &mut self.e.store.heap.cells[id] {
            d.realm = Some(0);
            d.intrinsic_proto = kind;
        }
        self.put(id, "prototype", Value::Object(proto));
        self.put(proto, "constructor", f);
        self.global(name, f);
        id
    }

    fn statics(&mut self, id: usize, prefix: &str) {
        for name in NATIVES {
            if let Some(rest) = name.strip_prefix(prefix) {
                if !rest.contains('.') {
                    let f = self.native(name, false);
                    self.put(id, rest, f);
                }
            }
        }
    }

    fn install(&mut self) {
        let b = self.e.store.b;
        let array = self.constructor("Array", b.array_prototype, None);
        let object = self.constructor("Object", b.object_prototype, Some(RealmProto::Object));
        let promise = self.constructor("Promise", b.promise_prototype, Some(RealmProto::Promise));
        self.constructor("Function", b.function_prototype, None);
        let async_function = self.constructor("AsyncFunction", b.async_function_prototype, None);
        self.constructor("String", b.string_prototype, Some(RealmProto::String));
        self.constructor("Number", b.number_prototype, Some(RealmProto::Number));
        self.constructor("Boolean", b.boolean_prototype, Some(RealmProto::Boolean));
        self.statics(array, "Array.");
        self.statics(object, "Object.");
        self.statics(promise, "Promise.");
        self.statics(b.object_prototype, "Object.prototype.");
        self.statics(b.function_prototype, "Function.prototype.");
        self.statics(b.promise_prototype, "Promise.prototype.");
        let tag = self.string("AsyncFunction");
        self.put(b.async_function_prototype, "__wk_toStringTag__", tag);
        let _ = async_function;
        for name in ["queueMicrotask", "setTimeout", "setInterval", "clearTimeout", "clearInterval", "eval", "intrinsic"] {
            let f = self.native(name, false);
            self.global(name, f);
        }
        let symbol = self.native("Symbol", false);
        self.global("Symbol", symbol);
        if let Value::NativeFunction(id) = symbol {
            for name in ["species", "iterator", "toStringTag"] {
                let v = self.e.symbol(&SymbolData::well_known(name));
                self.put(id, name, v);
            }
        }
        let math = self.e.store.heap.make_object(b.object_prototype);
        self.statics(math, "Math.");
        self.global("Math", Value::Object(math));
        self.global("NaN", Value::Number(f64::NAN.to_bits()));
        self.global("undefined", Value::Undefined);
        self.global("Infinity", Value::Number(f64::INFINITY.to_bits()));
        let species = self.e.store.n.species;
        let this_getter = self.native("resolver", false);
        if let Value::NativeFunction(id) = this_getter {
            self.put(id, "self", Value::Boolean(true));
        }
        self.e.store.heap.insert_prop(promise, species, Property::accessor(Some(this_getter), None));
    }

    /// Runs what was started to its end.
    fn drive(&mut self) -> Completion {
        loop {
            match self.e.finish() {
                Progress::Done => return self.e.acc,
                Progress::More => panic!("out of steps"),
                Progress::Ask(request) => {
                    let c = self.handle(request);
                    self.e.answer(c);
                }
            }
        }
    }

    fn task(&mut self, task: Task<'static>) -> Answer {
        self.e.start(task);
        match self.drive() {
            Completion::Normal(v) => Ok(v.unwrap_or(Value::Undefined)),
            Completion::Return(v) => Ok(v),
            other => Err(other),
        }
    }

    fn call(&mut self, func: Value, this: Value, args: &[Value]) -> Answer {
        let list = self.e.list_of(&args.to_vec());
        self.task(Task::Call { func, this, list })
    }

    fn get(&mut self, base: Value, name: &str) -> Answer {
        let key = self.atom(name);
        self.task(Task::Read { base, key })
    }

    fn text(&mut self, v: Value) -> Result<String, Completion> {
        let t = self.task(Task::Text(v))?;
        Ok(self.text_of(t))
    }

    fn number(&mut self, v: Value) -> Result<f64, Completion> {
        match self.task(Task::Number(v))? {
            Value::Number(b) => Ok(f64::from_bits(b)),
            other => panic!("no number: {:?}", other),
        }
    }

    fn type_error(&mut self, m: &str) -> Completion {
        Completion::Throw(self.e.store.make_type_error(m))
    }

    fn eval(&mut self, src: &str) -> Result<Value, Failure> {
        let program: &'static Program = Box::leak(Box::new(match parse(src) {
            Ok(p) => p,
            Err(Error::Parse(m)) => return Err(Failure::Parse(m)),
            Err(Error::Unimplemented(m)) => return Err(Failure::Unimplemented(m)),
        }));
        let r = self.task(Task::Eval(program));
        self.outcome(r)
    }

    fn outcome(&mut self, r: Answer) -> Result<Value, Failure> {
        match r {
            Ok(v) => Ok(v),
            Err(Completion::Throw(v)) => {
                let t = match self.text(v) {
                    Ok(t) => t,
                    Err(_) => "exception".to_string(),
                };
                Err(Failure::Thrown(t))
            }
            Err(Completion::Unimplemented(a)) => Err(Failure::Unimplemented(self.e.store.heap.atoms.text(a).to_string())),
            Err(other) => Err(Failure::Thrown(format!("{:?}", other))),
        }
    }

    fn handle(&mut self, request: Request) -> Completion {
        let done = |v: Value| Completion::Normal(Some(v));
        match request {
            Request::Arith(op, a, b) => {
                let (x, y) = (f64::from_bits(a), f64::from_bits(b));
                let z = match op {
                    BinaryOp::Add => x + y,
                    BinaryOp::Sub => x - y,
                    BinaryOp::Mul => x * y,
                    BinaryOp::Div => x / y,
                    BinaryOp::Rem => x % y,
                    BinaryOp::Exp => x.powf(y),
                    other => panic!("no arithmetic: {:?}", other),
                };
                done(Value::Number(z.to_bits()))
            }
            Request::Decimal { text, negative } => {
                let x: f64 = self.e.store.heap.atoms.text(text).parse().unwrap();
                done(Value::Number((if negative { -x } else { x }).to_bits()))
            }
            Request::Radix { text, radix } => {
                let mut x = 0.0;
                for c in self.e.store.heap.atoms.text(text).chars() {
                    x = x * radix as f64 + c.to_digit(radix).unwrap() as f64;
                }
                done(Value::Number(x.to_bits()))
            }
            Request::Fixed(b) => {
                let t = format!("{}", f64::from_bits(b));
                done(self.string(&t))
            }
            Request::Exponent(b) => {
                let t = format!("{:e}", f64::from_bits(b));
                done(self.string(&t))
            }
            Request::Native { func, this, args, construct } => {
                let id = match func {
                    Value::NativeFunction(id) => id,
                    other => panic!("no host function: {:?}", other),
                };
                let name = match &self.e.store.heap.cells[id] {
                    Cell::Native(d) => NATIVES[d.func],
                    _ => unreachable!(),
                };
                let args = self.e.items(args);
                match self.run_native(name, this, &args, construct) {
                    Ok(v) => Completion::Normal(Some(v)),
                    Err(c) => c,
                }
            }
        }
    }

    fn callable(&self, v: Value) -> bool {
        v.is_callable_value()
    }

    fn proto_for(&mut self, default: usize, construct: bool) -> Result<usize, Completion> {
        match self.task(Task::InstanceProto { default, construct })? {
            Value::Object(id) => Ok(id),
            other => panic!("no prototype: {:?}", other),
        }
    }

    fn new_promise(&mut self) -> usize {
        self.e.new_promise()
    }

    /// The promise of a value, as `Promise.resolve` gives it for a constructor.
    fn promise_of(&mut self, ctor: Value, v: Value) -> Answer {
        if let Value::Promise(_) = v {
            if self.get(v, "constructor")? == ctor {
                return Ok(v);
            }
        }
        let cap = self.capability(ctor)?;
        self.call(cap.1, Value::Undefined, &[v])?;
        Ok(cap.0)
    }

    fn capability(&mut self, ctor: Value) -> Result<(Value, Value, Value), Completion> {
        let list = match self.task(Task::Capability(ctor))? {
            Value::Array(a) => self.e.items(a),
            other => panic!("no capability: {:?}", other),
        };
        Ok((list[0], list[1], list[2]))
    }

    fn plain_promise(&mut self) -> Value {
        let key = self.atom("Promise");
        let env = self.e.store.b.global_env;
        self.e.store.heap.lookup(env, key).unwrap()
    }

    /// The combinators share their start: the items, each made a promise.
    fn combine(&mut self, ctor: Value, arg: Value, how: &str) -> Answer {
        if ctor != self.plain_promise() {
            let cap = self.capability(ctor)?;
            let raw = match self.combine_raw(ctor, arg, how)? {
                Value::Promise(p) => p,
                _ => unreachable!(),
            };
            self.task(Task::Forward { raw, promise: cap.0, resolve: cap.1, reject: cap.2 })?;
            return Ok(cap.0);
        }
        self.combine_raw(ctor, arg, how)
    }

    fn combine_raw(&mut self, ctor: Value, arg: Value, how: &str) -> Answer {
        let result = self.new_promise();
        let list = self.e.list_of(&Vec::new());
        let items = match self.task(Task::Items { value: arg, list }) {
            Ok(_) => self.e.items(list),
            Err(Completion::Throw(v)) => {
                self.task(Task::Settle { promise: result, how: Settlement::Rejected(v) })?;
                return Ok(Value::Promise(result));
            }
            Err(c) => return Err(c),
        };
        let n = items.len();
        let shared = match how {
            "all" => self.e.new_all_state(n),
            "allSettled" => self.e.new_all_settled_state(n),
            _ => 0,
        };
        let proto = self.e.store.b.object_prototype;
        let holder = self.e.store.heap.make_object(proto);
        if how == "any" {
            let array_proto = self.e.store.b.array_prototype;
            let errors = self.e.store.heap.new_array(vec![Value::Undefined; n], array_proto);
            self.put(holder, "errors", Value::Array(errors));
            self.put(holder, "remaining", Value::Number((n as f64).to_bits()));
        }
        if n == 0 {
            let array_proto = self.e.store.b.array_prototype;
            let empty = Value::Array(self.e.store.heap.new_array(Vec::new(), array_proto));
            match how {
                "all" | "allSettled" => {
                    self.task(Task::Resolve { promise: result, value: empty })?;
                }
                _ => {}
            }
        }
        for (index, item) in items.into_iter().enumerate() {
            let p = self.promise_of(ctor, item)?;
            let kind = match how {
                "all" => PromiseReactionKind::AllElement { index, shared },
                "allSettled" => PromiseReactionKind::AllSettled { index, shared },
                "any" => PromiseReactionKind::Any { holder: Value::Object(holder), index },
                _ => PromiseReactionKind::Forward,
            };
            let reaction = PromiseReaction { kind, on_fulfilled: None, on_rejected: None, promise: result };
            self.task(Task::Attach { promise: p, reaction })?;
        }
        Ok(Value::Promise(result))
    }

    fn timer(&mut self, args: &[Value], repeat: bool) -> Answer {
        let callback = args.first().copied().unwrap_or(Value::Undefined);
        if !self.callable(callback) {
            return Err(self.type_error("the callback is no function"));
        }
        let delay = match args.get(1) {
            Some(v) => self.number(*v)?,
            None => 0.0,
        };
        let delay = if delay > 0.0 { delay as u64 } else { 0 };
        let rest: Vec<Value> = args.iter().skip(2).copied().collect();
        let list = self.e.list_of(&rest);
        let id = self.e.set_timer(callback, list, delay, if repeat { Some(delay) } else { None });
        Ok(Value::Number((id as f64).to_bits()))
    }

    fn run_native(&mut self, name: &str, this: Value, args: &[Value], construct: bool) -> Answer {
        let arg = |i: usize| args.get(i).copied().unwrap_or(Value::Undefined);
        match name {
            "resolver" => Ok(this),
            "Array" => {
                let default = self.e.store.b.array_prototype;
                let proto = self.proto_for(default, construct)?;
                Ok(Value::Array(self.e.store.heap.new_array(args.to_vec(), proto)))
            }
            "Array.isArray" => Ok(Value::Boolean(matches!(arg(0), Value::Array(_)))),
            "Object" => {
                let default = self.e.store.b.object_prototype;
                let proto = self.proto_for(default, construct)?;
                Ok(Value::Object(self.e.store.heap.make_object(proto)))
            }
            "Object.defineProperty" => {
                let key = match self.task(Task::Key(arg(1)))? {
                    Value::String(a) | Value::Symbol(a) => a,
                    other => panic!("no key: {:?}", other),
                };
                let _ = self.e.store.define_property(arg(0), key, arg(2));
                Ok(arg(0))
            }
            "Object.getPrototypeOf" => self.prototype(arg(0)),
            "Object.prototype.hasOwnProperty" => {
                let key = match self.task(Task::Key(arg(0)))? {
                    Value::String(a) | Value::Symbol(a) => a,
                    other => panic!("no key: {:?}", other),
                };
                Ok(Value::Boolean(self.e.store.has_own(this, key)))
            }
            "Object.prototype.toString" => {
                let tag = match this {
                    Value::Promise(_) => "Promise".to_string(),
                    Value::Array(_) => "Array".to_string(),
                    Value::Function(_) => match self.get(this, "__wk_toStringTag__")? {
                        Value::Undefined => "Function".to_string(),
                        v => self.text_of(v),
                    },
                    _ => "Object".to_string(),
                };
                let t = format!("[object {}]", tag);
                Ok(self.string(&t))
            }
            "Function.prototype.call" => {
                let rest: Vec<Value> = args.iter().skip(1).copied().collect();
                self.call(this, arg(0), &rest)
            }
            "Promise" => {
                if !construct {
                    return Err(self.type_error("Promise is called without new"));
                }
                if !self.callable(arg(0)) {
                    return Err(self.type_error("the executor is no function"));
                }
                let target = self.e.new_target.unwrap_or(Value::Undefined);
                let proto = match self.task(Task::PromiseProto(target))? {
                    Value::Object(id) => id,
                    other => panic!("no prototype: {:?}", other),
                };
                let p = self.e.new_promise_with_proto(proto);
                let pair = self.e.make_resolver_pair(p);
                let pair = self.e.items(pair);
                match self.call(arg(0), Value::Undefined, &pair) {
                    Ok(_) => {}
                    Err(Completion::Throw(v)) => {
                        self.call(pair[1], Value::Undefined, &[v])?;
                    }
                    Err(c) => return Err(c),
                }
                Ok(Value::Promise(p))
            }
            "Promise.resolve" => self.promise_of(this, arg(0)),
            "Promise.reject" => {
                let cap = self.capability(this)?;
                self.call(cap.2, Value::Undefined, &[arg(0)])?;
                Ok(cap.0)
            }
            "Promise.all" | "Promise.race" | "Promise.allSettled" | "Promise.any" => {
                let how = name.strip_prefix("Promise.").unwrap();
                self.combine(this, arg(0), how)
            }
            "Promise.withResolvers" => {
                let cap = self.capability(this)?;
                let proto = self.e.store.b.object_prototype;
                let o = self.e.store.heap.make_object(proto);
                for (name, v) in [("promise", cap.0), ("resolve", cap.1), ("reject", cap.2)] {
                    let key = self.atom(name);
                    self.e.store.heap.insert_prop(o, key, Property::new(v));
                }
                Ok(Value::Object(o))
            }
            "Promise.prototype.then" => {
                let handler = |js: &Js, v: Value| if js.callable(v) { Some(v) } else { None };
                let on_fulfilled = handler(self, arg(0));
                let on_rejected = handler(self, arg(1));
                if !matches!(this, Value::Promise(_)) {
                    return Err(self.type_error("then is called on no promise"));
                }
                let default = self.plain_promise();
                let ctor = self.task(Task::Species { obj: this, default })?;
                if ctor == default {
                    return self.task(Task::Then { promise: this, on_fulfilled, on_rejected });
                }
                let cap = self.capability(ctor)?;
                let spare = self.new_promise();
                let kind = PromiseReactionKind::Custom { promise: cap.0, resolve: cap.1, reject: cap.2 };
                self.task(Task::Attach { promise: this, reaction: PromiseReaction { kind, on_fulfilled, on_rejected, promise: spare } })?;
                Ok(cap.0)
            }
            "Promise.prototype.catch" => {
                let then = self.get(this, "then")?;
                self.call(then, this, &[Value::Undefined, arg(0)])
            }
            "Promise.prototype.finally" => {
                let result = self.new_promise();
                let reaction =
                    PromiseReaction { kind: PromiseReactionKind::FinallyCall { cb: arg(0) }, on_fulfilled: None, on_rejected: None, promise: result };
                let default = self.plain_promise();
                let ctor = self.task(Task::Species { obj: this, default })?;
                self.task(Task::Attach { promise: this, reaction })?;
                if ctor == default {
                    return Ok(Value::Promise(result));
                }
                let cap = self.capability(ctor)?;
                self.task(Task::Forward { raw: result, promise: cap.0, resolve: cap.1, reject: cap.2 })?;
                Ok(cap.0)
            }
            "queueMicrotask" => {
                self.e.queue_microtask(arg(0));
                Ok(Value::Undefined)
            }
            "setTimeout" => self.timer(args, false),
            "setInterval" => self.timer(args, true),
            "clearTimeout" | "clearInterval" => {
                let id = self.number(arg(0))?;
                self.e.clear_timer(id as u64);
                Ok(Value::Undefined)
            }
            "eval" => {
                let src = self.text(arg(0))?;
                match self.eval_nested(&src) {
                    Ok(v) => Ok(v),
                    Err(c) => Err(c),
                }
            }
            "Symbol" => {
                let description = match arg(0) {
                    Value::Undefined => None,
                    v => Some(self.text(v)?),
                };
                Ok(self.e.new_symbol(description))
            }
            "AsyncFunction" | "Function" => {
                let mut texts = Vec::new();
                for v in args {
                    texts.push(self.text(*v)?);
                }
                let body = texts.pop().unwrap_or_default();
                let head = if name == "Function" { "function" } else { "async function" };
                let src = format!("({} anonymous({}) {{ {} }})", head, texts.join(","), body);
                self.eval_nested(&src)
            }
            "intrinsic" => {
                let t = self.text_of(arg(0));
                let b = self.e.store.b;
                Ok(Value::Object(match t.as_str() {
                    "Error" => b.error_prototype,
                    "TypeError" => b.type_error_proto,
                    "RangeError" => b.range_error_proto,
                    "SyntaxError" => b.syntax_error_proto,
                    _ => b.aggregate_error_proto,
                }))
            }
            "String" => {
                let t = self.text(arg(0))?;
                Ok(self.string(&t))
            }
            "Number" => {
                let x = self.number(arg(0))?;
                Ok(Value::Number(x.to_bits()))
            }
            "Boolean" => Ok(Value::Boolean(self.e.store.to_boolean(arg(0)))),
            "Math.floor" => {
                let x = self.number(arg(0))?;
                Ok(Value::Number(x.floor().to_bits()))
            }
            "Math.max" => {
                let mut m = f64::NEG_INFINITY;
                for v in args {
                    m = m.max(self.number(*v)?);
                }
                Ok(Value::Number(m.to_bits()))
            }
            "Function.prototype.bind" => {
                let f = self.native("resolver", false);
                let id = match f {
                    Value::NativeFunction(id) => id,
                    _ => unreachable!(),
                };
                let rest: Vec<Value> = args.iter().skip(1).copied().collect();
                let n = self.e.store.n;
                let list = self.e.list_of(&rest);
                self.e.store.heap.insert_prop(id, n.bound_target, Property::new(this));
                self.e.store.heap.insert_prop(id, n.this, Property::new(arg(0)));
                self.e.store.heap.insert_prop(id, n.bound_args, Property::new(Value::Array(list)));
                Ok(f)
            }
            other => panic!("no host function: {}", other),
        }
    }

    fn eval_nested(&mut self, src: &str) -> Answer {
        let program: &'static Program = match parse(src) {
            Ok(p) => Box::leak(Box::new(p)),
            Err(e) => return Err(Completion::Throw(self.e.store.make_syntax_error(e.message()))),
        };
        self.task(Task::Eval(program))
    }

    fn prototype(&mut self, v: Value) -> Answer {
        let id = match v {
            Value::Object(id) | Value::Array(id) | Value::Function(id) | Value::NativeFunction(id) | Value::Promise(id) => id,
            _ => return Ok(Value::Null),
        };
        Ok(match self.e.store.heap.proto(id) {
            Some(p) => Value::Object(p),
            None if matches!(v, Value::Promise(_)) => Value::Object(self.e.store.b.promise_prototype),
            None => Value::Null,
        })
    }
}

#[test]
fn arithmetic_binds_by_level() {
    assert_eq!(num("1 + 2 * 3"), 7.0);
    assert_eq!(num("0.1 + 0.2"), 0.1 + 0.2);
    assert_eq!(num("0x10 + 1e3"), 1016.0);
    assert_eq!(string_of("'' + 1e21 + ' ' + 0.5 + ' ' + -1e-7"), "1e+21 0.5 -1e-7");
}

#[test]
fn defaults_inside_patterns_are_evaluated() {
    assert_eq!(string_of("(function ({ a, b = a + 'y' }) { return a + b; })({ a: 'x' })"), "xxy");
    // The default of a parameter as a whole is passed over.
    assert_eq!(string_of("(function (a, b = a + 'y') { return a + b; })('x')"), "xundefined");
}

#[test]
fn generators_gather_what_they_yield() {
    let mut js = Js::new();
    let g = js.eval("function* g(x) { yield 'a'; yield x; return 'z'; } g('b')").unwrap();
    assert_eq!(js.get(g, "__gen_started__").unwrap(), Value::Boolean(false));
    js.task(Task::Generator(g)).unwrap();
    assert_eq!(js.get(g, "__gen_started__").unwrap(), Value::Boolean(true));
    let values = js.get(g, "__gen_values__").unwrap();
    assert_eq!(js.text(values).unwrap(), "a,b");
}

#[test]
fn a_finally_block_keeps_or_replaces_the_outcome() {
    assert_eq!(string_of("(function () { try { return 'a'; } finally { 'b'; } })()"), "a");
    assert_eq!(string_of("(function () { try { return 'a'; } finally { return 'b'; } })()"), "b");
    assert_eq!(string_of("(function () { try { throw 'a'; } catch (e) { return e + 'c'; } finally { 'b'; } })()"), "ac");
    assert_eq!(string_of("var r = ''; try { (function () { try { throw 'a'; } finally { r += 'f'; } })(); } catch (e) { r += e; } r"), "fa");
}

#[test]
fn logical_operators_stop_early() {
    assert_eq!(string_of("var n = ''; function f() { n += 'f'; return 'r'; } false && f(); true || f(); 0 ?? f(); n += '|'; null ?? f(); true && f(); n"), "|ff");
}

#[test]
fn exceptions_leave_what_does_not_handle_them() {
    assert_eq!(string_of("var r = 'x'; function g() { r = 'y' + [1, (function () { throw 'e'; })(), 2]; } try { g(); } catch (e) { r += e; } r"), "xe");
}

#[test]
fn inner_scopes_hide_names() {
    assert_eq!(string_of("let x = 'a'; { let x = 'b'; x += 'c'; } x"), "a");
    assert_eq!(string_of("let x = 'a'; { x = 'b'; } x"), "b");
    assert_eq!(string_of("const k = 'a'; var r = ''; try { k = 'b'; } catch (e) { r = e.name + ': ' + e.message; } r + '|' + k"), "TypeError: Assignment to constant variable|a");
}

#[test]
fn patterns_take_values_apart() {
    assert_eq!(string_of("var { a, b: [c, ...d], ...e } = { a: 'A', b: ['B', 'C', 'D'], f: 'F' }; a + c + d.join('') + e.f"), "ABCDF");
    assert_eq!(string_of("var x = 'p', y = 'q'; [x, y] = [y, x]; x + y"), "qp");
}

#[test]
fn templates_convert_to_strings() {
    assert_eq!(string_of("`a${1 + 1}b${[1, 2]}`"), "a2b1,2");
}

fn number(x: f64) -> Value {
    Value::Number(x.to_bits())
}

fn str_val(e: &mut Js, src: &str) -> String {
    let v = e.eval(src).unwrap();
    e.text(v).unwrap()
}

fn num(src: &str) -> f64 {
    match Js::new().eval(src) {
        Ok(Value::Number(b)) => f64::from_bits(b),
        other => panic!("expected a number from {src:?}, got {other:?}"),
    }
}

fn string_of(src: &str) -> String {
    let mut e = Js::new();
    match e.eval(src) {
        Ok(v @ Value::String(_)) => e.text_of(v),
        other => panic!("expected a string from {src:?}, got {other:?}"),
    }
}

fn big(src: &str) -> String {
    let mut e = Js::new();
    match e.eval(src) {
        Ok(v @ Value::BigInt(_)) => e.text_of(v),
        other => panic!("expected a big integer from {src:?}, got {other:?}"),
    }
}

fn truth_of(src: &str) -> bool {
    match Js::new().eval(src) {
        Ok(Value::Boolean(b)) => b,
        other => panic!("expected a truth value from {src:?}, got {other:?}"),
    }
}

#[test]
fn names_are_found_in_every_kind_of_object() {
    assert_eq!(string_of("var f = function () { }; f.own = 1; '' + ('own' in f) + ('prototype' in f) + ('call' in f) + ('none' in f)"), "truetruetruefalse");
    assert_eq!(string_of("var a = ['x']; a[9] = 'y'; a.own = 1; '' + (0 in a) + (1 in a) + (9 in a) + ('own' in a) + ('length' in a) + ('push' in a)"), "truefalsetruetruetruetrue");
    assert_eq!(string_of("var p = Promise.resolve(1); '' + ('then' in p) + ('none' in p)"), "truefalse");
    let mut js = Js::new();
    let word = js.string("abc");
    let (two, three) = (js.atom("2"), js.atom("3"));
    assert!(js.e.store.has_property(two, word) && !js.e.store.has_property(three, word));
}

#[test]
fn own_names_are_visited_before_inherited_ones() {
    assert_eq!(string_of("function C() { this.b = 1; this.z = 2; } C.prototype.a = 3; C.prototype.z = 4; var r = ''; for (var k in new C()) { r += k; } r"), "bza");
    assert_eq!(string_of("var r = ''; for (var k in ['x', 'y']) { r += k; } r"), "01");
}

#[test]
fn a_definition_keeps_what_it_does_not_mention() {
    assert_eq!(
        string_of("var o = { x: 1 }; Object.defineProperty(o, 'x', { enumerable: false }); o.x += 1; var r = ''; for (var k in o) { r += k; } r + o.x"),
        "2"
    );
    assert_eq!(string_of("var o = { x: 1 }; Object.defineProperty(o, 'x', { value: 7 }); var r = ''; for (var k in o) { r += k; } r + o.x"), "x7");
    assert_eq!(string_of("var o = { }; Object.defineProperty(o, 'x', { value: 7 }); o.x = 8; var r = ''; for (var k in o) { r += k; } r + o.x"), "7");
    assert_eq!(string_of("var o = { get x() { return 'g'; } }; Object.defineProperty(o, 'x', { enumerable: false }); o.x"), "g");
}

#[test]
fn loop_heads_declare_their_names() {
    let names = |src: &str| collect_var_names(&parse(src).unwrap().stmts);
    assert_eq!(names("for (var k in o) { var a; } for (var v of o) ;"), vec!["k", "a", "v"]);
    assert!(names("for (let k in o) ; for (const v of o) ;").is_empty());
    assert_eq!(string_of("(function () { for (var k in { q: 1 }) { } return k; })()"), "q");
}

#[test]
fn symbols_are_fresh() {
    assert_eq!(string_of("'' + (Symbol() === Symbol()) + (Symbol('a') === Symbol('a')) + (Symbol('iterator') === Symbol.iterator)"), "falsefalsefalse");
    assert_eq!(string_of("var a = Symbol('k'), b = Symbol('k'), o = { }; o[a] = 'x'; o[b] = 'y'; o[a] + o[b]"), "xy");
}

#[test]
fn loose_equality_goes_both_ways() {
    for (a, b, same) in [("1", "[1]", true), ("'1,2'", "[1, 2]", true), ("true", "'1'", true), ("null", "undefined", true), ("null", "0", false), ("2n", "2", true), ("'x'", "[1]", false)] {
        assert_eq!(truth_of(&format!("{a} == {b}")), same, "{a} == {b}");
        assert_eq!(truth_of(&format!("{b} == {a}")), same, "{b} == {a}");
    }
}

#[test]
fn a_returned_call_is_made_when_its_function_was_left() {
    assert_eq!(string_of("var r = ''; function f() { throw 'x'; } function g() { try { return f(); } catch (e) { r += 'inner'; } } try { g(); } catch (e) { r += e; } r"), "x");
    assert_eq!(string_of("var r = ''; function f() { r += 'f'; return 'v'; } (function () { try { return f(); } finally { r += 'F'; } })() + r"), "vFf");
    assert_eq!(string_of("function f() { throw 'x'; } (function () { try { throw 'a'; } catch (e) { return f(); } finally { return 'z'; } })()"), "z");
    // A call that is no regular function's, and one that is not returned alone, run under the `try`.
    assert_eq!(string_of("function f() { throw 'x'; } (function () { try { return '' + f(); } catch (e) { return 'c' + e; } })()"), "cx");
}

#[test]
fn an_object_from_a_returned_call_replaces_the_instance() {
    assert_eq!(
        num("class B { } function g() { return { z: 9 }; } class D extends B { constructor() { super(); return g(); } } new D().z"),
        9.0
    );
}

#[test]
fn generators_construct_what_a_call_of_them_gives() {
    let mut js = Js::new();
    let g = js.eval("function* g() { yield 'a'; } new g()").unwrap();
    js.task(Task::Generator(g)).unwrap();
    let values = js.get(g, "__gen_values__").unwrap();
    assert_eq!(js.text(values).unwrap(), "a");
    // It never calls an executor.
    assert!(Js::new().eval("function* g() { } Promise.all.call(g, []);").is_err());
}

#[test]
fn queued_jobs_keep_their_callbacks() {
    let mut js = Js::new();
    let cb = js.eval("var log = ''; (function () { return function () { log += 'finally'; }; })()").unwrap();
    let promise = js.e.new_promise();
    let reaction = PromiseReaction { kind: PromiseReactionKind::FinallyCall { cb }, on_fulfilled: None, on_rejected: None, promise };
    js.e.jobs.push(Job::Reaction { reaction, settlement: Settlement::Fulfilled(Value::Null) });
    js.e.collect_garbage();
    assert_eq!(str_val(&mut js, "0; log"), "");
    assert_eq!(str_val(&mut js, "log"), "finally");
}

#[test]
fn combined_promises_settle_in_any_order() {
    let mut js = Js::new();
    js.eval(
        "var go = [], out = ''; function later(i) { return new Promise(function (res, rej) { go[i] = { res: res, rej: rej }; }); } \
         Promise.all([later(0), later(1), 'c']).then(function (v) { out += v.join('-'); });",
    )
    .unwrap();
    js.eval("go[1].res('b')").unwrap();
    assert_eq!(str_val(&mut js, "out"), "");
    js.eval("go[0].res('a')").unwrap();
    assert_eq!(str_val(&mut js, "out"), "a-b-c");
    js.eval("Promise.all([later(0), later(1), later(2)]).then(null, function (e) { out += '!' + e; });").unwrap();
    js.eval("go[2].rej('z')").unwrap();
    js.eval("go[0].rej('y'); go[1].res('x')").unwrap();
    assert_eq!(str_val(&mut js, "out"), "a-b-c!z");
}

#[test]
fn symbols_are_not_among_the_names() {
    assert_eq!(string_of("var k = Symbol('k'), o = { a: 1 }; o[k] = 2; o[Symbol.iterator] = 3; var r = ''; for (var n in o) { r += n; } r"), "a");
    let mut js = Js::new();
    let o = js.eval("var k = Symbol('k'), o = { a: 1 }; o[k] = 2; o").unwrap();
    let k = js.eval("k").unwrap();
    assert_eq!(js.e.store.own_property_names(o), vec!["a"]);
    let list: Vec<Value> = js.e.store.own_symbol_props(o).into_iter().map(Value::Symbol).collect();
    assert_eq!(list, vec![k]);
}

#[test]
fn the_name_of_a_function_expression_is_bound_around_it() {
    assert_eq!(string_of("var g = function f(n) { return n ? f(n - 1) : 'end'; }; g(2) + typeof f"), "endundefined");
    assert_eq!(string_of("(function f() { f = 'x'; return typeof f; })()"), "string");
    assert_eq!(string_of("(function f() { var f = 'x'; f += 'y'; return f; })()"), "xy");
}

#[test]
fn timers_are_cancelled_once() {
    let mut js = Js::new();
    js.eval("var r = ''; clearTimeout(1); setTimeout(function () { r += 'a'; }, 1); setTimeout(function () { r += 'b'; }, 1);").unwrap();
    assert_eq!(str_val(&mut js, "r"), "b");
    let list = js.e.list_of(&vec![]);
    let id = js.e.set_timer(Value::Undefined, list, 5, None);
    assert!(js.e.clear_timer(id));
    assert!(!js.e.clear_timer(id));
    assert!(!js.e.clear_timer(id + 1));
}

#[test]
fn var_and_assert() {
    let mut engine = Js::new();
    let result = engine.eval(
        "var x = 0; \
         assert.sameValue(x, 0, 'x is 0'); \
         assert.sameValue(isNaN(undefined), true); \
         var y; this.y++; assert.sameValue(isNaN(y), true);",
    );
    assert!(result.is_ok(), "expected test to pass, got {result:?}");
}

#[test]
fn thrown_exception_is_reported() {
    let mut engine = Js::new();
    let result = engine.eval("assert.sameValue(1, 2);");
    assert!(result.is_err(), "expected a thrown assertion to be an error");
}

#[test]
fn typescript_syntax_is_accepted() {
    let mut engine = Js::new();
    // Type annotations and `interface`s must be ignored at runtime.
    let ok = engine.eval(
        "interface Point { x: number; y: number } \
         function f(a: number, b: string): number { return a + 1; } \
         const x: number = 1; \
         const y = (x as number) + 2; \
         assert.sameValue(y, 3);",
    );
    assert!(ok.is_ok(), "expected TS to be accepted, got {ok:?}");
}

#[test]
fn modules_are_accepted_without_parse_error() {
    // Imports/exports are not linked, but they must not produce a parse error.
    let ok = parse(
        "import def, { a, b as c } from 'mod'; \
         import * as ns from 'mod'; \
         export const x = 1; \
         export function f() { return 2; } \
         export class C {} \
         export default 42; \
         export { x };",
    );
    assert!(ok.is_ok(), "expected modules to parse");
}

#[test]
fn exported_declarations_still_execute() {
    let mut engine = Js::new();
    // The binding introduced by an `export` declaration is still created.
    let result = engine.eval("export const x = 3; export function f() { return x + 1; } f();");
    assert!(matches!(result, Ok(v) if v == number(4.0)), "got {result:?}");
}

#[test]
fn jsx_is_parsed() {
    // Parsing JSX is accepted (runtime support is not required for this test).
    let err = parse("<div className='x'>{1}</div>;");
    // Either it parses (Ok) or errors gracefully with a parse error, never panics.
    assert!(err.is_ok() || matches!(err, Err(Error::Parse(_))));
}

#[test]
fn bigint_and_symbol() {
    assert_eq!(big("2n + 3n"), "5");
    assert_eq!(truth_of("1n < 2n"), true);
    assert!(Js::new().eval("1n + 1").is_err(), "BigInt + Number must throw");
    assert_eq!(str_val(&mut Js::new(), "typeof Symbol('s')"), "symbol");
}

#[test]
fn type_conversions() {
    assert_eq!(string_of("typeof undefined"), "undefined");
    assert_eq!(string_of("typeof null"), "object");
    assert_eq!(string_of("typeof 1"), "number");
    assert_eq!(string_of("typeof 'x'"), "string");
    assert_eq!(string_of("typeof {}"), "object");
    assert_eq!(truth_of("!!'x'"), true);
    assert_eq!(truth_of("!!''"), false);
    assert_eq!(truth_of("1 == '1'"), true);
    assert_eq!(truth_of("1 === '1'"), false);
    assert_eq!(truth_of("isNaN(NaN)"), true);
    assert_eq!(truth_of("[1] instanceof Array"), true);
    assert_eq!(num("1 + true"), 2.0);
}

#[test]
fn control_flow_and_functions() {
    let mut e = Js::new();
    assert_eq!(str_val(&mut e, "(function(){ switch (2) { case 2: return 'two'; } })()"), "two");
    assert_eq!(str_val(&mut e, "var s = ''; for (var k in { a: 1, b: 2 }) s += k; s"), "ab");
    assert_eq!(
        e.eval("var n = 0; outer: for (var i = 0; i < 3; i++) { for (var j = 0; j < 3; j++) { if (j == 1) continue outer; n++; } } n").unwrap(),
        number(3.0)
    );
    assert_eq!(
        e.eval("function f(a, b) { return arguments.length; } f(1, 2, 3)").unwrap(),
        number(3.0)
    );
}

#[test]
fn try_catch_and_throw() {
    let mut e = Js::new();
    assert_eq!(str_val(&mut e, "var r = null; try { throw new TypeError('boom'); } catch (err) { r = typeof err; } r"), "object");
    assert_eq!(
        e.eval("var caught = false; try { throw new RangeError('boom'); } catch (e) { caught = true; } caught")
            .unwrap(),
        Value::Boolean(true)
    );
    assert_eq!(str_val(&mut e, "var r = []; try { throw 1; } catch (err) { r.push('caught'); } finally { r.push('fin'); } r.join(',')"), "caught,fin");
    assert_eq!(str_val(&mut e, "function f(){ try { return 'try'; } finally { } } f()"), "try");
}

#[test]
fn switch_completion_value() {
    assert_eq!(string_of("switch (2) { case 2: 'two'; }"), "two");
    assert_eq!(string_of("switch (2) { case 2: 'two'; break; }"), "two");
    assert_eq!(
        Js::new().eval("switch (9) { case 2: 'two'; }").unwrap(),
        Value::Undefined,
        "no match and no default leaves the switch empty"
    );
    assert_eq!(
        string_of("1; switch (2) { case 2: 'two'; }"),
        "two",
        "switch's own completion value wins over earlier statements"
    );
    assert_eq!(string_of("switch (2) { default: 'def'; }"), "def");
    assert_eq!(string_of("switch (3) { case 1: 'a'; default: 'd'; case 2: 'b'; }"), "b");
}

#[test]
fn nullish_member_access_throws() {
    let mut e = Js::new();
    let err = e.eval("null.x").unwrap_err();
    let msg = err.text();
    assert!(msg.contains("TypeError"), "got {msg}");
    assert!(msg.contains("null"), "got {msg}");

    assert!(e.eval("undefined.x").is_err());
    assert!(e.eval("null[0]").is_err());
    assert!(e.eval("null.x = 1").is_err());
    assert!(e.eval("undefined.x = 1").is_err());
    // Optional chaining stays null-safe.
    assert_eq!(e.eval("null?.x").unwrap(), Value::Undefined);
    assert_eq!(e.eval("undefined?.x").unwrap(), Value::Undefined);
}

#[test]
fn error_instanceof() {
    let mut e = Js::new();
    assert_eq!(
        e.eval("(function(){ try { throw new TypeError('x'); } catch (err) { return err instanceof TypeError; } })()")
            .unwrap(),
        Value::Boolean(true)
    );
    assert_eq!(
        e.eval("(function(){ try { throw new TypeError('x'); } catch (err) { return err instanceof Error; } })()")
            .unwrap(),
        Value::Boolean(true)
    );
    assert_eq!(
        e.eval("(function(){ try { throw new RangeError('x'); } catch (err) { return err instanceof TypeError; } })()")
            .unwrap(),
        Value::Boolean(false)
    );
}

#[test]
fn eval_builtins() {
    let mut e = Js::new();
    assert_eq!(e.eval("eval('1 + 2')").unwrap(), number(3.0));
    assert_eq!(
        e.eval("var x = 5; eval('x + 1')").unwrap(),
        number(6.0)
    );
}

#[test]
fn if_and_switch_completion_values() {
    // Statement lists keep the last value-producing statement's value.
    assert_eq!(num("1; {}"), 1.0);
    assert_eq!(num("1; var a;"), 1.0);
    // An if statement fills its empty completion with `undefined`.
    assert_eq!(Js::new().eval("1; if (true) { }").unwrap(), Value::Undefined);
    assert_eq!(num("2; if (true) { 3; }"), 3.0);
    assert_eq!(Js::new().eval("1; if (false) { }").unwrap(), Value::Undefined);
    // Loops accumulate their body's completion value.
    assert_eq!(Js::new().eval("1; while (false) { }").unwrap(), Value::Undefined);
    assert_eq!(num("1; do { 2; } while (false)"), 2.0);
    // Abrupt completions filled from the accumulated value.
    assert_eq!(num("1; do { 2; if (true) { 3; break; } 4; } while (false)"), 3.0);
    assert_eq!(
        Js::new().eval("5; do { 6; if (true) { break; } 7; } while (false)").unwrap(),
        Value::Undefined,
        "if fills an empty break with undefined, which wins over 6"
    );
    assert_eq!(num("8; do { 9; if (true) { 10; continue; } 11; } while (false)"), 10.0);
    // Switch case blocks: fall-through and abrupt completion values.
    assert_eq!(num("1; switch ('a') { case 'a': 2; case 'b': 3; break; default: }"), 3.0);
    assert_eq!(Js::new().eval("1; switch ('a') { case 'a': break; default: }").unwrap(), Value::Undefined);
    assert_eq!(num("4; do { switch ('a') { case 'a': 5; case 'b': 6; continue; default: } } while (false)"), 6.0);
}

#[test]
fn labelled_statement_completion() {
    assert_eq!(num("1; lbl: 2;"), 2.0);
    assert_eq!(num("1; lbl: { 2; break lbl; }"), 2.0);
    assert_eq!(num("1; lbl: { break lbl; }"), 1.0);
    // A loop's completion value starts as (non-empty) `undefined` even when the
    // loop exits via `break` without producing a value.
    assert_eq!(
        Js::new()
            .eval("1; outer: for (var i = 0; i < 3; i++) { for (var j = 0; j < 3; j++) { if (j === 1) break outer; } }")
            .unwrap(),
        Value::Undefined
    );
    assert_eq!(num("1; outer: for (var i = 0; i < 3; i++) { 2; break outer; }"), 2.0);
}

#[test]
fn switch_case_block_single_lexical_scope() {
    // All case clauses share one lexical environment.
    let mut engine = Js::new();
    engine
        .eval(
            "let x = 'outside'; var p1, p2; \
             switch (null) { \
               case null: let x = 'inside'; p1 = function () { return x; }; \
               case null: p2 = function () { return x; }; \
             }",
        )
        .unwrap();
    assert_eq!(str_val(&mut engine, "p1()"), "inside");
    assert_eq!(str_val(&mut engine, "p2()"), "inside");
    assert_eq!(str_val(&mut engine, "x"), "outside");
    // Lexical declarations inside a case block do not leak.
    assert!(engine
        .eval("switch (0) { default: const y = 1; } y;")
        .is_err());
    assert!(engine
        .eval("switch (0) { default: function* z() {} } z;")
        .is_err());
}

#[test]
fn switch_case_selector_uses_case_block_env() {
    let mut engine = Js::new();
    engine
        .eval(
            "let x = 'outside'; var probeExpr, probeSelector, probeStmt; \
             switch (probeExpr = function () { return x; }, null) { \
               case probeSelector = function () { return x; }, null: \
                 probeStmt = function () { return x; }; \
                 let x = 'inside'; \
             }",
        )
        .unwrap();
    assert_eq!(str_val(&mut engine, "probeExpr()"), "outside");
    assert_eq!(str_val(&mut engine, "probeSelector()"), "inside");
    assert_eq!(str_val(&mut engine, "probeStmt()"), "inside");
}

#[test]
fn switch_redeclaration_errors() {
    let bad = [
        "switch (0) { case 1: let f; default: let f }",
        "switch (0) { case 1: let f; default: var f }",
        "switch (0) { case 1: function f() {} default: var f }",
        "switch (0) { case 1: var f; default: function f() {} }",
        "switch (0) { case 1: let f; default: function f() {} }",
        "switch (0) { case 1: function f() {} default: function* f() {} }",
        "switch (0) { case 1: var f; default: let f }",
    ];
    for src in bad {
        assert!(parse(src).is_err(), "expected parse error: {src}");
    }
    // Sloppy mode allows duplicate plain function declarations.
    assert!(parse("switch (0) { case 1: function f() {} default: function f() {} }")
        .is_ok());
    // Strict mode does not.
    assert!(parse("\"use strict\"; switch (0) { case 1: function f() {} default: function f() {} }")
        .is_err());
}

#[test]
fn if_statement_function_declaration_rules() {
    // Sloppy mode allows a function declaration as an if body.
    assert!(parse("if (true) function f() {}").is_ok());
    let mut engine = Js::new();
    engine.eval("if (true) function f() { return 7; }").unwrap();
    assert_eq!(engine.eval("f()").unwrap(), number(7.0));
    // Strict mode rejects it.
    assert!(parse("\"use strict\"; if (true) function f() {}")
        .is_err());
    assert!(parse("\"use strict\"; if (false) ; else function f() {}")
        .is_err());
    // Labelled function declarations are never allowed as an if body.
    assert!(parse("if (false) label1: label2: function test262() {}")
        .is_err());
    assert!(parse("if (true) ; else label: function f() {}")
        .is_err());
}

#[test]
fn named_function_expression_binds_its_name() {
    assert_eq!(string_of("(function f(n) { if (n === 0) { return 'done'; } return f(n - 1); })(2)"), "done");
    // The name is only visible inside the function.
    assert_eq!(
        string_of("var g = function inner() { return typeof inner; }; g() + ':' + typeof inner"),
        "function:undefined"
    );
}

#[test]
fn tail_calls_do_not_grow_the_stack() {
    // 100k recursive tail calls must complete without stack overflow.
    assert_eq!(string_of("(function f(n) { if (n === 0) { return 'ok'; } return f(n - 1); })(100000)"), "ok");
    assert_eq!(string_of("(function f(n) { if (n === 0) { return 'ok'; } if (true) { return f(n - 1); } })(100000)"), "ok");
}

#[test]
fn promise_then_runs_as_microtask_in_order() {
    let mut e = Js::new();
    e.eval(
        "var log = []; var outcome = 'unset'; \
         Promise.resolve(1).then(function(v){ log.push(v); return v + 1; }) \
             .then(function(v){ log.push(v); outcome = log.join(','); }); \
         log.push(0);",
    )
    .unwrap();
    assert_eq!(str_val(&mut e, "outcome"), "0,1,2");
}

#[test]
fn promise_basic_fulfill_and_reject() {
    let mut e = Js::new();
    e.eval(
        "var out = []; \
         new Promise(function(res){ res(10); }).then(function(v){ out.push(v); }); \
         new Promise(function(_, rej){ rej('bad'); }).then(null, function(r){ out.push(r); }); \
         Promise.resolve(7).then(function(v){ out.push(v); }); \
         Promise.reject('x').catch(function(r){ out.push(r); });",
    )
    .unwrap();
    assert_eq!(str_val(&mut e, "out.join(',')"), "10,bad,7,x");
}

#[test]
fn promise_executor_throw_rejects() {
    let mut e = Js::new();
    e.eval("var got = ''; new Promise(function(){ throw 'oops'; }).then(null, function(r){ got = r; });")
        .unwrap();
    assert_eq!(str_val(&mut e, "got"), "oops");
}

#[test]
fn promise_ctor_requires_new_and_function() {
    let mut e = Js::new();
    assert!(e.eval("Promise(function(){});").is_err());
    assert!(e.eval("new Promise(1);").is_err());
}

#[test]
fn promise_then_returns_new_promise() {
    let mut e = Js::new();
    let chained = e
        .eval("var p = Promise.resolve(1); var q = p.then(function(v){ return v + 1; }); [p instanceof Promise, q instanceof Promise, p === q]")
        .unwrap();
    assert_eq!(str_val(&mut e, "JSON.stringify([p instanceof Promise, q instanceof Promise, p === q])"), "[true,true,false]");
    let _ = chained;
    e.eval("var seen = -1; q.then(function(v){ seen = v; });").unwrap();
    assert_eq!(e.eval("seen").unwrap(), number(2.0));
}

#[test]
fn promise_resolve_identity() {
    let mut e = Js::new();
    e.eval("var p = Promise.resolve(1); var same = Promise.resolve(p) === p;")
        .unwrap();
    assert_eq!(e.eval("same").unwrap(), Value::Boolean(true));
}

#[test]
fn promise_self_resolution_rejects() {
    let mut e = Js::new();
    e.eval(
        "var got = 'none'; var p2 = Promise.resolve().then(function(){ return p2; }); \
         p2.then(null, function(e){ got = e instanceof TypeError ? 'type-error' : 'other'; });",
    )
    .unwrap();
    assert_eq!(str_val(&mut e, "got"), "type-error");
}

#[test]
fn promise_thenable_assimilation() {
    let mut e = Js::new();
    e.eval(
        "var got = -1; \
         Promise.resolve({ then: function(res){ res(42); } }).then(function(v){ got = v; });",
    )
    .unwrap();
    assert_eq!(e.eval("got").unwrap(), number(42.0));
}

#[test]
fn promise_then_getter_throw_rejects() {
    let mut e = Js::new();
    e.eval(
        "var got = 'none'; \
         var evil = {}; Object.defineProperty(evil, 'then', { get: function(){ throw 'getter-boom'; } }); \
         Promise.resolve(evil).then(null, function(r){ got = r; });",
    )
    .unwrap();
    assert_eq!(str_val(&mut e, "got"), "getter-boom");
}

#[test]
fn promise_finally_passthrough() {
    let mut e = Js::new();
    e.eval(
        "var log = []; var fin1, fin2; \
         Promise.resolve(5).finally(function(){ log.push('fin'); }).then(function(v){ fin1 = v; }); \
         Promise.reject('e').finally(function(){ log.push('fin2'); }).then(null, function(r){ fin2 = r; });",
    )
    .unwrap();
    assert_eq!(e.eval("fin1").unwrap(), number(5.0));
    assert_eq!(str_val(&mut e, "fin2"), "e");
    assert_eq!(str_val(&mut e, "log.join(',')"), "fin,fin2");
}

#[test]
fn promise_finally_throw_overrides() {
    let mut e = Js::new();
    e.eval(
        "var got = 'none'; \
         Promise.resolve(1).finally(function(){ throw 'fin-throw'; }).then(null, function(r){ got = r; });",
    )
    .unwrap();
    assert_eq!(str_val(&mut e, "got"), "fin-throw");
}

#[test]
fn promise_all_basic() {
    let mut e = Js::new();
    e.eval(
        "var got = ''; \
         Promise.all([1, Promise.resolve(2), Promise.resolve(3).then(function(x){ return x * 10; })]) \
             .then(function(a){ got = a.join(','); });",
    )
    .unwrap();
    assert_eq!(str_val(&mut e, "got"), "1,2,30");
}

#[test]
fn promise_all_empty_and_reject() {
    let mut e = Js::new();
    e.eval(
        "var empty = -1; Promise.all([]).then(function(a){ empty = a.length; }); \
         var rej = 'none'; \
         Promise.all([Promise.resolve(1), Promise.reject('bad'), Promise.resolve(3)]) \
             .then(null, function(r){ rej = r; });",
    )
    .unwrap();
    assert_eq!(e.eval("empty").unwrap(), number(0.0));
    assert_eq!(str_val(&mut e, "rej"), "bad");
}

#[test]
fn promise_all_non_iterable_rejects() {
    let mut e = Js::new();
    e.eval("var ok = false; Promise.all(123).then(null, function(){ ok = true; });")
        .unwrap();
    assert_eq!(e.eval("ok").unwrap(), Value::Boolean(true));
}

#[test]
fn promise_race_first_wins() {
    let mut e = Js::new();
    e.eval(
        "var v1 = ''; Promise.race([new Promise(function(){}), Promise.resolve('fast')]) \
             .then(function(v){ v1 = v; }); \
         var v2 = ''; Promise.race([Promise.reject('e1'), Promise.resolve('late')]) \
             .then(null, function(r){ v2 = r; });",
    )
    .unwrap();
    assert_eq!(str_val(&mut e, "v1"), "fast");
    assert_eq!(str_val(&mut e, "v2"), "e1");
}

#[test]
fn promise_all_settled() {
    let mut e = Js::new();
    e.eval(
        "var s0, v0, s1, r1; \
         Promise.allSettled([1, Promise.reject('e')]).then(function(a){ \
             s0 = a[0].status; v0 = a[0].value; s1 = a[1].status; r1 = a[1].reason; });",
    )
    .unwrap();
    assert_eq!(str_val(&mut e, "s0"), "fulfilled");
    assert_eq!(e.eval("v0").unwrap(), number(1.0));
    assert_eq!(str_val(&mut e, "s1"), "rejected");
    assert_eq!(str_val(&mut e, "r1"), "e");
}

#[test]
fn promise_any_first_fulfillment() {
    let mut e = Js::new();
    e.eval(
        "var v = -1; Promise.any([Promise.reject(1), 2, Promise.resolve(3)]) \
             .then(function(x){ v = x; });",
    )
    .unwrap();
    assert_eq!(e.eval("v").unwrap(), number(2.0));
}

#[test]
fn promise_any_all_reject_gives_aggregate_error() {
    let mut e = Js::new();
    e.eval(
        "var isAgg = false; var errs = ''; \
         Promise.any([Promise.reject('a'), Promise.reject('b')]).then(null, function(e){ \
             isAgg = e instanceof AggregateError; errs = e.errors.join(','); });",
    )
    .unwrap();
    assert_eq!(e.eval("isAgg").unwrap(), Value::Boolean(true));
    assert_eq!(str_val(&mut e, "errs"), "a,b");
}

#[test]
fn promise_with_resolvers() {
    let mut e = Js::new();
    e.eval(
        "var wr = Promise.withResolvers(); var v = -1; \
         wr.promise.then(function(x){ v = x; }); wr.resolve('w');",
    )
    .unwrap();
    assert_eq!(str_val(&mut e, "v"), "w");
}

#[test]
fn promise_prototype_shape() {
    let mut e = Js::new();
    e.eval("var tag = Object.prototype.toString.call(Promise.resolve());")
        .unwrap();
    assert_eq!(str_val(&mut e, "tag"), "[object Promise]");
    assert_eq!(str_val(&mut e, "typeof Promise"), "function");
}

#[test]
fn queue_microtask_runs_after_sync() {
    let mut e = Js::new();
    e.eval("var log = []; queueMicrotask(function(){ log.push('micro'); }); log.push('sync');")
        .unwrap();
    assert_eq!(str_val(&mut e, "log.join(',')"), "sync,micro");
}

#[test]
fn async_function_returns_promise_and_awaits() {
    let mut e = Js::new();
    e.eval(
        "var log = []; \
         async function f(a) { log.push('f' + a); var b = await a * 2; log.push('g' + b); return b + 1; } \
         var p = f(21); \
         var isP = p instanceof Promise; \
         log.push('sync'); \
         var fin = ''; p.then(function(v){ fin = v; });",
    )
    .unwrap();
    assert_eq!(e.eval("isP").unwrap(), Value::Boolean(true));
    assert_eq!(str_val(&mut e, "log.join(',')"), "f21,sync,g42");
    assert_eq!(e.eval("fin").unwrap(), number(43.0));
}

#[test]
fn await_pending_gate_resumes_later() {
    let mut e = Js::new();
    e.eval(
        "var resolveX; var gate = new Promise(function(r){ resolveX = r; }); \
         var order = []; \
         async function f(){ order.push('a'); await gate; order.push('b'); return 7; } \
         var p = f(); order.push('c'); resolveX(1); order.push('d'); \
         var tail = -1; p.then(function(v){ tail = v; order.push('e'); });",
    )
    .unwrap();
    assert_eq!(str_val(&mut e, "order.join(',')"), "a,c,d,b,e");
    assert_eq!(e.eval("tail").unwrap(), number(7.0));
}

#[test]
fn await_rejection_throws_into_async() {
    let mut e = Js::new();
    e.eval(
        "var out = ''; \
         async function g(){ try { await Promise.reject(new Error('boom')); return 'no'; } \
             catch(e) { return 'caught:' + e.message; } } \
         g().then(function(v){ out = v; }); \
         async function h(){ await Promise.reject('unhandled-x'); } \
         var hr = ''; h().then(null, function(r){ hr = r; });",
    )
    .unwrap();
    assert_eq!(str_val(&mut e, "out"), "caught:boom");
    assert_eq!(str_val(&mut e, "hr"), "unhandled-x");
}

#[test]
fn await_in_loops_and_conditionals() {
    let mut e = Js::new();
    e.eval(
        "async function s(){ var t = 0; for (var i = 1; i <= 3; i++){ t += await i; } return t; } \
         var r1 = -1; s().then(function(v){ r1 = v; }); \
         async function o(){ var a = []; for (var x of [1, 2, 3]){ a.push(await x * 10); } return a.join(','); } \
         var r2 = ''; o().then(function(v){ r2 = v; }); \
         async function w(){ var n = 3, acc = ''; while (n > 0){ acc += await n; n--; } return acc; } \
         var r3 = ''; w().then(function(v){ r3 = v; }); \
         async function c(x){ if (await x) { return await 'yes'; } return 'no'; } \
         var r4 = ''; c(1).then(function(v){ r4 = v; });",
    )
    .unwrap();
    assert_eq!(e.eval("r1").unwrap(), number(6.0));
    assert_eq!(str_val(&mut e, "r2"), "10,20,30");
    assert_eq!(str_val(&mut e, "r3"), "321");
    assert_eq!(str_val(&mut e, "r4"), "yes");
}

#[test]
fn await_in_try_finally() {
    let mut e = Js::new();
    e.eval(
        "var log = []; \
         async function f(){ try { await 1; log.push('try'); return 'ret'; } \
             finally { await 2; log.push('fin'); } } \
         var r = ''; f().then(function(v){ r = v; });",
    )
    .unwrap();
    assert_eq!(str_val(&mut e, "r"), "ret");
    assert_eq!(str_val(&mut e, "log.join(',')"), "try,fin");
}

#[test]
fn async_arrow_and_method() {
    let mut e = Js::new();
    e.eval(
        "var f = async (x) => await x * 2; var r1 = -1; f(21).then(function(v){ r1 = v; }); \
         var o = { async m(x) { return await x + 1; } }; var r2 = -1; o.m(41).then(function(v){ r2 = v; });",
    )
    .unwrap();
    assert_eq!(e.eval("r1").unwrap(), number(42.0));
    assert_eq!(e.eval("r2").unwrap(), number(42.0));
}

#[test]
fn async_throw_rejects() {
    let mut e = Js::new();
    e.eval(
        "async function f(){ throw new Error('nope'); } \
         var r = ''; f().then(null, function(e){ r = e.message; });",
    )
    .unwrap();
    assert_eq!(str_val(&mut e, "r"), "nope");
}

#[test]
fn async_not_constructable() {
    let mut e = Js::new();
    assert!(e.eval("new (async function(){})();").is_err());
    // Async functions have no `prototype` property.
    assert_eq!(
        e.eval("(async function(){}).hasOwnProperty('prototype')").unwrap(),
        Value::Boolean(false)
    );
}

#[test]
fn top_level_await_is_an_error() {
    let mut e = Js::new();
    assert!(e.eval("await 1;").is_err());
}

#[test]
fn await_in_sync_function_is_an_error() {
    let mut e = Js::new();
    assert!(e.eval("function f(){ return await 1; } f();").is_err());
}

#[test]
fn async_generators_are_unimplemented() {
    let mut e = Js::new();
    let err = e.eval("async function* g(){}").unwrap_err();
    assert!(matches!(err, Failure::Unimplemented(_)));
}

#[test]
fn for_await_is_unimplemented() {
    let mut e = Js::new();
    let err = e
        .eval("async function f(){ for await (const x of []); }")
        .unwrap_err();
    assert!(matches!(err, Failure::Unimplemented(_)));
}

#[test]
fn unhandled_rejections_are_reported() {
    let mut e = Js::new();
    e.eval("Promise.reject('lost');").unwrap();
    let unhandled = e.e.take_unhandled();
    assert_eq!(unhandled.len(), 1);
    let mut e2 = Js::new();
    e2.eval("Promise.reject('x').catch(function(){});").unwrap();
    assert!(e2.e.take_unhandled().is_empty());
}

#[test]
fn async_function_intrinsics() {
    let mut e = Js::new();
    e.eval("var f = async function(){};").unwrap();
    assert_eq!(
        str_val(&mut e, "Object.prototype.toString.call(f)"),
        "[object AsyncFunction]"
    );
    assert_eq!(
        e.eval("Object.getPrototypeOf(f) === Function.prototype").unwrap(),
        Value::Boolean(false)
    );
    assert_eq!(
        e.eval("f instanceof Function").unwrap(),
        Value::Boolean(true)
    );
    assert_eq!(
        e.eval("f.constructor === AsyncFunction").unwrap(),
        Value::Boolean(true)
    );
    assert_eq!(
        e.eval("AsyncFunction.prototype.constructor === AsyncFunction").unwrap(),
        Value::Boolean(true)
    );
    assert_eq!(str_val(&mut e, "AsyncFunction.name"), "AsyncFunction");
    assert_eq!(str_val(&mut e, "typeof AsyncFunction.prototype"), "object");
}

#[test]
fn async_function_constructor() {
    let mut e = Js::new();
    e.eval(
        "var f = new AsyncFunction('x', 'return await x + 1;'); \
         var r = -1; f(41).then(function(v){ r = v; });",
    )
    .unwrap();
    assert_eq!(e.eval("r").unwrap(), number(42.0));
    assert_eq!(str_val(&mut e, "f.name"), "anonymous");
    assert_eq!(
        e.eval("f instanceof AsyncFunction").unwrap(),
        Value::Boolean(true)
    );
}

#[test]
fn await_in_class_heritage() {
    let mut e = Js::new();
    e.eval(
        "async function f(){ return class C extends (await Promise.resolve(Object)) {}; } \
         var r = false; f().then(function(C){ r = new C() instanceof C; });",
    )
    .unwrap();
    assert_eq!(e.eval("r").unwrap(), Value::Boolean(true));
}

#[test]
fn await_in_class_computed_keys() {
    let mut e = Js::new();
    e.eval(
        "async function f(){ \
             var k = await Promise.resolve('dyn'); \
             return class { static [k] = 42; }; \
         } \
         var r = -1; f().then(function(C){ r = C.dyn; }); \
         async function g(){ \
             var m = await Promise.resolve('m'); \
             return class { [m]() { return 7; } }; \
         } \
         var r2 = -1; g().then(function(C){ r2 = new C().m(); });",
    )
    .unwrap();
    assert_eq!(e.eval("r").unwrap(), number(42.0));
    assert_eq!(e.eval("r2").unwrap(), number(7.0));
}

#[test]
fn await_in_static_field_init_is_syntax_error() {
    // Class field initializers are not async contexts, even lexically inside
    // an async function: the parser rejects `await` there.
    let mut e = Js::new();
    assert!(
        e.eval("async function f(){ return class { static v = await Promise.resolve(9); }; }")
            .is_err()
    );
}

#[test]
fn subclass_construction() {
    let mut e = Js::new();
    e.eval(
        "class P extends Promise { constructor(e){ super(e); } } \
         var p = new P(function(res){ res(1); }); \
         var isP = p instanceof P; var isQ = p instanceof Promise; \
         var seen = -1; p.then(function(v){ seen = v; });",
    )
    .unwrap();
    assert_eq!(e.eval("isP").unwrap(), Value::Boolean(true));
    assert_eq!(e.eval("isQ").unwrap(), Value::Boolean(true));
    assert_eq!(e.eval("seen").unwrap(), number(1.0));
    // Prototype linkage: instance proto is P.prototype.
    assert_eq!(
        e.eval("Object.getPrototypeOf(p) === P.prototype").unwrap(),
        Value::Boolean(true)
    );
    assert_eq!(e.eval("p.constructor === P").unwrap(), Value::Boolean(true));
}

#[test]
fn subclass_default_ctor() {
    let mut e = Js::new();
    e.eval(
        "class Q extends Promise {} \
         var q = new Q(function(res){ res(2); }); \
         var seen = -1; q.then(function(v){ seen = v; });",
    )
    .unwrap();
    assert_eq!(e.eval("q instanceof Q").unwrap(), Value::Boolean(true));
    assert_eq!(e.eval("seen").unwrap(), number(2.0));
}

#[test]
fn subclass_executor_throw_rejects() {
    let mut e = Js::new();
    e.eval(
        "class P extends Promise {} \
         var r = ''; \
         new P(function(){ throw 'boom'; }).then(null, function(e){ r = e; });",
    )
    .unwrap();
    assert_eq!(str_val(&mut e, "r"), "boom");
}

#[test]
fn then_returns_subclass_instance() {
    let mut e = Js::new();
    e.eval(
        "class P extends Promise {} \
         var p = new P(function(res){ res(1); }); \
         var q = p.then(function(v){ return v + 1; }); \
         var fin = -1; q.then(function(v){ fin = v; });",
    )
    .unwrap();
    assert_eq!(e.eval("q instanceof P").unwrap(), Value::Boolean(true));
    assert_eq!(
        e.eval("Object.getPrototypeOf(q) === P.prototype").unwrap(),
        Value::Boolean(true)
    );
    assert_eq!(e.eval("fin").unwrap(), number(2.0));
}

#[test]
fn catch_and_finally_use_species() {
    let mut e = Js::new();
    e.eval(
        "class P extends Promise {} \
         var p = Promise.reject.call(P, 'e'); \
         var c = p.catch(function(x){ return x; }); \
         var f = p.finally(function(){}); \
         var cv = '', fv = ''; \
         c.then(function(v){ cv = v; }); f.then(null, function(v){ fv = v; });",
    )
    .unwrap();
    assert_eq!(e.eval("c instanceof P").unwrap(), Value::Boolean(true));
    assert_eq!(e.eval("f instanceof P").unwrap(), Value::Boolean(true));
    assert_eq!(str_val(&mut e, "cv"), "e");
    assert_eq!(str_val(&mut e, "fv"), "e");
}

#[test]
fn custom_species_returns_base() {
    let mut e = Js::new();
    e.eval(
        "class P extends Promise { static get [Symbol.species]() { return Promise; } } \
         var p = new P(function(res){ res(1); }); \
         var q = p.then(function(v){ return v; });",
    )
    .unwrap();
    assert_eq!(e.eval("q instanceof P").unwrap(), Value::Boolean(false));
    assert_eq!(
        e.eval("q instanceof Promise").unwrap(),
        Value::Boolean(true)
    );
    assert_eq!(
        e.eval("Object.getPrototypeOf(q) === Promise.prototype").unwrap(),
        Value::Boolean(true)
    );
}

#[test]
fn species_getter_throw_propagates() {
    let mut e = Js::new();
    let r = e.eval(
        "class P extends Promise { static get [Symbol.species]() { throw 'sp-boom'; } } \
         var p = new P(function(res){ res(1); }); p.then(function(v){ return v; });",
    );
    assert!(matches!(r, Err(Failure::Thrown(_))));
    // The engine still works afterwards.
    assert_eq!(e.eval("40 + 2").unwrap(), number(42.0));
}

#[test]
fn species_non_constructor_throws() {
    let mut e = Js::new();
    let r = e.eval(
        "class P extends Promise { static get [Symbol.species]() { return {}; } } \
         var p = new P(function(res){ res(1); }); p.then(function(v){ return v; });",
    );
    assert!(matches!(r, Err(Failure::Thrown(_))));
}

#[test]
fn species_inherited_default() {
    let mut e = Js::new();
    e.eval("class P extends Promise {}")
        .unwrap();
    assert_eq!(
        e.eval("P[Symbol.species] === P").unwrap(),
        Value::Boolean(true)
    );
}

#[test]
fn resolve_identity_and_subclass() {
    let mut e = Js::new();
    e.eval(
        "var p = Promise.resolve(1); \
         var same = Promise.resolve(p) === p; \
         class P extends Promise {} \
         var q = new P(function(res){ res(2); }); \
         var adopted = Promise.resolve(q) === q; \
         var r = Promise.resolve.call(P, 7); \
         var rv = -1; r.then(function(v){ rv = v; });",
    )
    .unwrap();
    assert_eq!(e.eval("same").unwrap(), Value::Boolean(true));
    // Different constructor: adopts rather than returning identical.
    assert_eq!(e.eval("adopted").unwrap(), Value::Boolean(false));
    assert_eq!(e.eval("r instanceof P").unwrap(), Value::Boolean(true));
    assert_eq!(e.eval("rv").unwrap(), number(7.0));
}

#[test]
fn statics_use_this_constructor() {
    let mut e = Js::new();
    e.eval(
        "class P extends Promise {} \
         var a = Promise.all.call(P, [1, 2]); \
         var vals = ''; a.then(function(v){ vals = v.join(','); }); \
         var r = Promise.race.call(P, [3]); \
         var s = Promise.allSettled.call(P, [1]); \
         var w = Promise.withResolvers.call(P); w.resolve(9); \
         var wv = -1; w.promise.then(function(v){ wv = v; });",
    )
    .unwrap();
    assert_eq!(e.eval("a instanceof P").unwrap(), Value::Boolean(true));
    assert_eq!(str_val(&mut e, "vals"), "1,2");
    assert_eq!(e.eval("r instanceof P").unwrap(), Value::Boolean(true));
    assert_eq!(e.eval("s instanceof P").unwrap(), Value::Boolean(true));
    assert_eq!(e.eval("w.promise instanceof P").unwrap(), Value::Boolean(true));
    assert_eq!(e.eval("wv").unwrap(), number(9.0));
}

#[test]
fn statics_reject_non_constructor_this() {
    let mut e = Js::new();
    assert!(e.eval("Promise.all.call({}, []);").is_err());
    assert!(e.eval("Promise.resolve.call(1, 2);").is_err());
    // A plain function that ignores its executor cannot provide resolve/reject.
    assert!(e.eval("Promise.all.call(function(){}, []);").is_err());
}

#[test]
fn custom_constructor_executors_run() {
    let mut e = Js::new();
    // Plain-function constructor used as species: executor runs synchronously.
    e.eval(
        "var calls = 0; \
         function C(exec){ calls++; exec(function(){}, function(){}); } \
         var r = Promise.all.call(C, []);",
    )
    .unwrap();
    assert_eq!(e.eval("calls").unwrap(), number(1.0));
    // Throwing executor propagates synchronously.
    assert!(e.eval("Promise.all.call(function(){ throw 'ct'; }, []);").is_err());
}

#[test]
fn explicit_super_forwards() {
    let mut e = Js::new();
    e.eval(
        "class B extends Array { constructor(){ super(); this.push(9); } } \
         var b = new B();",
    )
    .unwrap();
    assert_eq!(e.eval("b instanceof B").unwrap(), Value::Boolean(true));
    assert_eq!(e.eval("b.length").unwrap(), number(1.0));
    assert_eq!(e.eval("b[0]").unwrap(), number(9.0));
}

#[test]
fn default_derived_ctor_forwards_args() {
    let mut e = Js::new();
    e.eval(
        "class P extends Array {} \
         var a = new P(); \
         class Q extends Object {} \
         var q = new Q();",
    )
    .unwrap();
    assert_eq!(e.eval("a instanceof P").unwrap(), Value::Boolean(true));
    assert_eq!(e.eval("q instanceof Q").unwrap(), Value::Boolean(true));
}

#[test]
fn super_binds_this_for_later_use() {
    let mut e = Js::new();
    e.eval(
        "class B { constructor(x){ this.x = x; } } \
         class D extends B { constructor(a){ super(a); this.y = this.x + 1; } } \
         var d = new D(41);",
    )
    .unwrap();
    assert_eq!(e.eval("d.x").unwrap(), number(41.0));
    assert_eq!(e.eval("d.y").unwrap(), number(42.0));
    assert_eq!(e.eval("d instanceof D").unwrap(), Value::Boolean(true));
    assert_eq!(e.eval("d instanceof B").unwrap(), Value::Boolean(true));
}

#[test]
fn explicit_object_return_overrides() {
    let mut e = Js::new();
    e.eval(
        "class B { constructor(){ this.a = 1; } } \
         class D extends B { constructor(){ super(); return { z: 9 }; } } \
         var d = new D();",
    )
    .unwrap();
    assert_eq!(e.eval("d.z").unwrap(), number(9.0));
}

#[test]
fn super_call_value_is_instance() {
    let mut e = Js::new();
    e.eval(
        "class B { constructor(x){ this.v = x * 2; } } \
         class D extends B { constructor(x){ var s = super(x); this.ok = s instanceof D; } } \
         var d = new D(21);",
    )
    .unwrap();
    assert_eq!(e.eval("d.v").unwrap(), number(42.0));
    assert_eq!(e.eval("d.ok").unwrap(), Value::Boolean(true));
}

#[test]
fn multi_level_derivation() {
    let mut e = Js::new();
    e.eval(
        "class A { constructor(x){ this.a = x; } } \
         class B extends A { constructor(x){ super(x + 1); this.b = this.a + 1; } } \
         class C extends B { constructor(x){ super(x + 1); this.c = this.b + 1; } } \
         var c = new C(1);",
    )
    .unwrap();
    assert_eq!(str_val(&mut e, "[c.a, c.b, c.c].join(',')"), "3,4,5");
    assert_eq!(e.eval("c instanceof C").unwrap(), Value::Boolean(true));
    assert_eq!(e.eval("c instanceof A").unwrap(), Value::Boolean(true));
}

#[test]
fn base_class_unchanged() {
    let mut e = Js::new();
    e.eval("class A { constructor(x){ this.x = x || 0; } } var a = new A(5);")
        .unwrap();
    assert_eq!(e.eval("a.x").unwrap(), number(5.0));
    assert_eq!(e.eval("a instanceof A").unwrap(), Value::Boolean(true));
}

#[test]
fn timeout_runs_after_microtasks_in_delay_order() {
    let mut e = Js::new();
    e.eval(
        "var log = []; \
         setTimeout(function(){ log.push('t100'); }, 100); \
         setTimeout(function(){ log.push('t10'); }, 10); \
         Promise.resolve().then(function(){ log.push('micro'); }); \
         log.push('sync');",
    )
    .unwrap();
    assert_eq!(str_val(&mut e, "log.join(',')"), "sync,micro,t10,t100");
}

#[test]
fn timeout_ids_and_clear() {
    let mut e = Js::new();
    e.eval(
        "var log = []; \
         var id = setTimeout(function(){ log.push('never'); }, 10); \
         var isNum = typeof id === 'number'; \
         clearTimeout(id); \
         setTimeout(function(){ log.push('yes'); }, 5);",
    )
    .unwrap();
    assert_eq!(e.eval("isNum").unwrap(), Value::Boolean(true));
    assert_eq!(str_val(&mut e, "log.join(',')"), "yes");
}

#[test]
fn timeout_extra_args() {
    let mut e = Js::new();
    e.eval("var got = ''; setTimeout(function(a, b){ got = a + b; }, 0, 'x', 'y');")
        .unwrap();
    assert_eq!(str_val(&mut e, "got"), "xy");
}

#[test]
fn timeout_non_function_throws() {
    let mut e = Js::new();
    assert!(e.eval("setTimeout(123, 0);").is_err());
    assert!(e.eval("setInterval(null);").is_err());
}

#[test]
fn interval_repeats_until_cleared() {
    let mut e = Js::new();
    e.eval(
        "var n = 0; \
         var id = setInterval(function(){ n++; if (n >= 3) { clearInterval(id); } }, 5);",
    )
    .unwrap();
    assert_eq!(e.eval("n").unwrap(), number(3.0));
}

#[test]
fn interval_cleared_from_outside() {
    let mut e = Js::new();
    e.eval(
        "var n = 0; \
         var id = setInterval(function(){ n++; }, 5); \
         setTimeout(function(){ clearInterval(id); }, 12);",
    )
    .unwrap();
    // Fires at 5, 10; cleared at 12 before the 15ms firing.
    assert_eq!(e.eval("n").unwrap(), number(2.0));
}

#[test]
fn timers_interop_with_promises() {
    let mut e = Js::new();
    e.eval(
        "var order = []; \
         function delay(ms){ return new Promise(function(res){ setTimeout(res, ms); }); } \
         order.push('a'); \
         delay(10).then(function(){ order.push('b'); }); \
         order.push('c');",
    )
    .unwrap();
    assert_eq!(str_val(&mut e, "order.join(',')"), "a,c,b");
}

#[test]
fn async_with_timer_gate() {
    let mut e = Js::new();
    e.eval(
        "var out = ''; \
         async function f(){ await new Promise(function(res){ setTimeout(res, 20); }); return 'done'; } \
         f().then(function(v){ out = v; });",
    )
    .unwrap();
    assert_eq!(str_val(&mut e, "out"), "done");
}

#[test]
fn timer_throw_is_unhandled_not_fatal() {
    let mut e = Js::new();
    e.eval("var after = false; setTimeout(function(){ throw 't-err'; }, 1); setTimeout(function(){ after = true; }, 2);")
        .unwrap();
    assert_eq!(e.eval("after").unwrap(), Value::Boolean(true));
    assert_eq!(e.e.take_unhandled().len(), 1);
}
