//! Transitions that evaluate expressions.
use vstd::prelude::*;
use crate::ast::{Arg, ArrayElem, AssignTarget, BinaryOp, Class, ClassElem, Expr, Lit, LogicalOp, Prop, PropKey, UnaryOp};
use crate::engine::{Completion, Engine, EngineView, Frame, Mode, PrimitiveHint, Request};
use crate::heap::{Heap, HeapView};
use crate::conv::bit_not;
use crate::nth::{next, nth, or_else};
use crate::number::{negated, ONE};
use crate::object_write::Write;
use crate::own::Deletion;
use crate::value::Value;

verus! {

/// Whether an object is on the prototype chain that starts at another.
pub open spec fn on_chain(h: HeapView, from: Option<usize>, target: usize, fuel: nat) -> bool
    decreases fuel,
{
    match from {
        Some(o) => o == target || (fuel > 0 && on_chain(h, h.proto(o), target, (fuel - 1) as nat)),
        None => false,
    }
}

impl<'a> Heap<'a> {
    /// Whether an object is on the prototype chain that starts at another.
    pub(crate) fn inherits(&self, from: Option<usize>, target: usize) -> (r: bool)
        ensures
            r == on_chain(self@, from, target, self@.cells.len()),
    {
        let mut cur = from;
        let mut fuel: usize = self.cells.len();
        loop
            invariant
                on_chain(self@, from, target, self@.cells.len()) == on_chain(self@, cur, target, fuel as nat),
            decreases fuel,
        {
            match cur {
                Some(o) => {
                    if o == target {
                        return true;
                    }
                    if fuel == 0 {
                        return false;
                    }
                    cur = self.proto(o);
                    fuel -= 1;
                },
                None => {
                    return false;
                },
            }
        }
    }
}

/// Where `await` stands.
#[derive(Clone, Copy, PartialEq, Eq, Structural, Debug)]
pub enum AwaitSite {
    /// Outside of every function.
    Top,
    /// In a function that is not `async`.
    Sync,
    /// In an `async` function.
    Async,
}

/// What the innermost function on a stack says of `await`.
pub open spec fn await_site(frames: Seq<Frame>) -> AwaitSite
    decreases frames.len(),
{
    if frames.len() == 0 {
        AwaitSite::Top
    } else {
        match frames.last() {
            Frame::CallEnd => AwaitSite::Sync,
            Frame::DerivedEnd { .. } => AwaitSite::Sync,
            Frame::AsyncEnd { .. } => AwaitSite::Async,
            Frame::Barrier => AwaitSite::Top,
            _ => await_site(frames.drop_last()),
        }
    }
}

/// Whether an expression reads a member.
#[verifier::allow_in_spec]
pub fn is_member(e: &Expr) -> (r: bool)
    returns
        *e is Member,
{
    matches!(e, Expr::Member { .. })
}

/// The name whose type is asked for, where the operand of `typeof` is a plain name.
#[verifier::allow_in_spec]
pub fn typeof_name<'a>(op: UnaryOp, operand: &'a Expr) -> (r: Option<&'a String>)
    returns
        (match (op, operand) {
            (UnaryOp::Typeof, Expr::Ident(t)) => Some(t),
            _ => None,
        }),
{
    match (op, operand) {
        (UnaryOp::Typeof, Expr::Ident(t)) => Some(t),
        _ => None,
    }
}

/// Whether `++` and `--` operators add.
#[verifier::allow_in_spec]
pub fn adds(op: UnaryOp) -> (r: bool)
    returns
        op is PreInc || op is PostInc,
{
    matches!(op, UnaryOp::PreInc | UnaryOp::PostInc)
}

/// Whether `++` and `--` operators give the value from before.
#[verifier::allow_in_spec]
pub fn gives_old(op: UnaryOp) -> (r: bool)
    returns
        op is PostInc || op is PostDec,
{
    matches!(op, UnaryOp::PostInc | UnaryOp::PostDec)
}

/// The key of an instance field.
#[verifier::allow_in_spec]
pub fn instance_key<'a>(el: &'a ClassElem) -> (r: Option<&'a PropKey>)
    returns
        (match el {
            ClassElem::Field { is_static, key, .. } => if *is_static { None } else { Some(key) },
            ClassElem::AccessorProp { is_static, key } => if *is_static { None } else { Some(key) },
            _ => None,
        }),
{
    match el {
        ClassElem::Field { is_static, key, .. } => if *is_static { None } else { Some(key) },
        ClassElem::AccessorProp { is_static, key } => if *is_static { None } else { Some(key) },
        _ => None,
    }
}

/// The key of a static field.
#[verifier::allow_in_spec]
pub fn static_key<'a>(el: &'a ClassElem) -> (r: Option<&'a PropKey>)
    returns
        (match el {
            ClassElem::Field { is_static, key, .. } => if *is_static { Some(key) } else { None },
            ClassElem::AccessorProp { is_static, key } => if *is_static { Some(key) } else { None },
            _ => None,
        }),
{
    match el {
        ClassElem::Field { is_static, key, .. } => if *is_static { Some(key) } else { None },
        ClassElem::AccessorProp { is_static, key } => if *is_static { Some(key) } else { None },
        _ => None,
    }
}

/// The initializer of a field.
#[verifier::allow_in_spec]
pub fn field_value<'a>(el: &'a ClassElem) -> (r: Option<&'a Expr>)
    returns
        (match el {
            ClassElem::Field { init, .. } => match init {
                Some(e) => Some(e),
                None => None,
            },
            _ => None,
        }),
{
    match el {
        ClassElem::Field { init, .. } => match init {
            Some(e) => Some(e),
            None => None,
        },
        _ => None,
    }
}

/// The key of a method on the side of the instances or of the class itself.
#[verifier::allow_in_spec]
pub fn method_key<'a>(el: &'a ClassElem, of_class: bool) -> (r: Option<&'a PropKey>)
    returns
        (match el {
            ClassElem::Method { is_static, key, .. } => if *is_static == of_class { Some(key) } else { None },
            _ => None,
        }),
{
    match el {
        ClassElem::Method { is_static, key, .. } => if *is_static == of_class { Some(key) } else { None },
        _ => None,
    }
}

impl<'a> EngineView<'a> {
    /// What the innermost running function says of `await`.
    pub open spec fn await_context(self) -> AwaitSite {
        await_site(self.frames)
    }

    /// The answer of `instanceof`.
    pub open spec fn instance_of(self, v: Value, ctor: Value) -> bool {
        match self.proto_of(ctor) {
            Some(p) => on_chain(self.store.heap, self.chain_start(v), p, self.store.heap.cells.len()),
            None => false,
        }
    }

    /// The object at which `instanceof` starts to look for a prototype: an object
    /// itself, otherwise the prototype of the value.
    pub open spec fn chain_start(self, v: Value) -> Option<usize> {
        match v {
            Value::Object(o) => Some(o),
            Value::Array(a) => self.cell_proto(a),
            Value::Function(f) => self.cell_proto(f),
            Value::NativeFunction(f) => self.cell_proto(f),
            Value::MapRef(_) => Some(self.store.b.map_prototype),
            Value::SetRef(_) => Some(self.store.b.set_prototype),
            Value::WeakMap(_) => Some(self.store.b.weakmap_prototype),
            Value::WeakSet(_) => Some(self.store.b.weakset_prototype),
            Value::Promise(p) => Some(match self.cell_proto(p) {
                Some(x) => x,
                None => self.store.b.promise_prototype,
            }),
            Value::Regex(_) => Some(self.store.b.regexp_prototype),
            _ => None,
        }
    }

    /// Whether a name is bound in a scope or on the global object.
    pub open spec fn declared(self, name: usize, env: usize) -> bool {
        self.lookup(env, name) is Some || self.own_prop(self.store.b.global_object, name) is Some
    }

    /// Whether the global object lets a name be written.
    pub open spec fn global_writable(self, name: usize) -> bool {
        match self.own_prop(self.store.b.global_object, name) {
            Some(p) => p.writable,
            None => true,
        }
    }

    /// Whether a value is a function of the program that is neither a generator nor
    /// `async`.
    pub open spec fn plain_function(self, v: Value) -> bool {
        match v {
            Value::Function(f) => match self.function(f) {
                Some(d) => !d.generator && !d.is_async,
                None => false,
            },
            _ => false,
        }
    }

    /// Starts to evaluate an expression.
    pub open spec fn eval_expr(self, e: &'a Expr, env: usize) -> EngineView<'a> {
        let s = self;
        match e {
            Expr::Lit(l) => s.literal(l),
            Expr::Ident(t) => {
                let (s, a) = s.intern_name(t);
                s.identifier(a, env)
            },
            Expr::This => {
                let v = s.this_of(env);
                s.ret(v)
            },
            Expr::Super => {
                let v = s.lookup(env, s.n().super_object);
                s.ret(or_else(v, Value::Undefined))
            },
            Expr::Member { obj, .. } => s.push(Frame::Member(e, env)).push(Frame::Expr(&**obj, env)),
            Expr::Call { .. } => s.call_start(e, env, false),
            Expr::New { callee, .. } => s.push(Frame::NewFunc(e, env)).push(Frame::Expr(&**callee, env)),
            Expr::Sequence(list) => s.push(Frame::Sequence(list, 0, env)).ret(Value::Undefined),
            Expr::InstanceOf { left, right } => s.push(Frame::InstanceRight(&**right, env)).push(Frame::Expr(&**left, env)),
            Expr::Binary { op, left, right } => s.push(Frame::BinaryRight(*op, &**right, env)).push(Frame::Expr(&**left, env)),
            Expr::Logical { op, left, right } => s.push(Frame::LogicalEnd(*op, &**right, env)).push(Frame::Expr(&**left, env)),
            Expr::Unary { op, operand } => s.unary_start(e, *op, &**operand, env),
            Expr::Ternary { cond, .. } => s.push(Frame::TernaryEnd(e, env)).push(Frame::Expr(&**cond, env)),
            Expr::Assignment { target, value } => s.push(Frame::AssignEnd(target, env)).push(Frame::Expr(&**value, env)),
            Expr::Array(list) => {
                let (s, l) = s.new_list();
                s.push(Frame::MakeArray(l)).push(Frame::Elems(list, 0, env, l))
            },
            Expr::Object(list) => {
                let (s, o) = s.new_object();
                s.push(Frame::Give(Value::Object(o))).push(Frame::Props(list, 0, env, o))
            },
            Expr::Function { name, params, body } => {
                match name {
                    Some(t) => {
                        let (s, scope) = s.new_scope(env, false);
                        let (s, a) = s.intern_name(t);
                        let (s, f) = s.make_function(a, Some(params), body, scope, None);
                        s.bind(scope, a, f).ret(f)
                    },
                    None => {
                        let a = s.n().empty;
                        let (s, f) = s.make_function(a, Some(params), body, env, None);
                        s.ret(f)
                    },
                }
            },
            Expr::Arrow { params, body } => {
                let this = s.this_of(env);
                let a = s.n().empty;
                let (s, f) = s.make_function(a, Some(params), body, env, Some(this));
                s.ret(f)
            },
            Expr::Class(c) => s.eval_class(&**c, env),
            Expr::Tagged { tag, .. } => s.push(Frame::TagFunc(e, env)).push(Frame::Expr(&**tag, env)),
            Expr::ToString(x) => s.push(Frame::StringOf).push(Frame::ToPrim(PrimitiveHint::String)).push(Frame::Expr(&**x, env)),
            Expr::Await(x) => {
                match s.await_context() {
                    AwaitSite::Top => s.unimplemented("top-level await is not implemented"),
                    AwaitSite::Sync => s.unimplemented("await is only valid in async functions"),
                    AwaitSite::Async => s.push(Frame::AwaitEnd).push(Frame::Expr(&**x, env)),
                }
            },
            Expr::Yield { expr, .. } => {
                match expr {
                    Some(x) => s.push(Frame::YieldEnd).push(Frame::Expr(&**x, env)),
                    None => s.yielded(Value::Undefined),
                }
            },
        }
    }

    /// The value of a literal.
    pub open spec fn literal(self, l: &'a Lit) -> EngineView<'a> {
        let s = self;
        match l {
            Lit::Number(t) => s.number_literal(t),
            Lit::Str(t) => {
                let (s, a) = s.intern_name(t);
                s.ret(Value::String(a))
            },
            Lit::Bool(b) => s.ret(Value::Boolean(*b)),
            Lit::Undefined => s.ret(Value::Undefined),
            Lit::Null => s.ret(Value::Null),
            Lit::BigInt(t) => {
                let (s, a) = s.intern_name(t);
                s.ret(Value::BigInt(a))
            },
            Lit::Regex { pattern, flags } => {
                let (s, v) = s.new_regex(pattern, flags);
                s.ret(v)
            },
        }
    }

    /// The value of a name: a binding, or else a property of the global object.
    pub open spec fn identifier(self, name: usize, env: usize) -> EngineView<'a> {
        let s = self;
        match s.lookup(env, name) {
            Some(v) => s.ret(v),
            None => {
                match s.own_prop(s.b().global_object, name) {
                    Some(p) => s.ret(p.value),
                    None => s.throw_reference(name),
                }
            },
        }
    }

    /// Goes on with a member access once the object is there.
    pub open spec fn member(self, e: &'a Expr, env: usize) -> EngineView<'a> {
        let s = self;
        let base = s.value();
        match e {
            Expr::Member { prop, computed, optional, .. } => {
                if *optional && base.is_nullish() {
                    s.ret(Value::Undefined)
                } else {
                    match computed {
                        Some(x) => s.push(Frame::MemberKey(base)).push(Frame::ToKey).push(Frame::Expr(&**x, env)),
                        None => {
                            let (s, k) = s.intern_name(prop);
                            s.get_member(base, k)
                        },
                    }
                }
            },
            _ => s,
        }
    }

    /// Reads a member under a computed key.
    pub open spec fn member_key(self, base: Value) -> EngineView<'a> {
        let s = self;
        let k = s.key();
        s.get_member(base, k)
    }

    /// Reads a member; `null` and `undefined` have none.
    pub open spec fn get_member(self, base: Value, key: usize) -> EngineView<'a> {
        let s = self;
        if base.is_nullish() {
            s.throw_nullish("read", "reading", base, key)
        } else {
            s.read_prop(base, key)
        }
    }

    /// Starts to evaluate a call.
    pub open spec fn call_start(self, e: &'a Expr, env: usize, tail: bool) -> EngineView<'a> {
        let s = self;
        match e {
            Expr::Call { callee, args, .. } => {
                match &**callee {
                    Expr::Super => {
                        match s.lookup(env, s.n().super_ctor) {
                            Some(c) => {
                                let (s, l) = s.new_list();
                                s.push(Frame::SuperCall { ctor: c, list: l, env: env }).push(Frame::Args(args, 0, env, l))
                            },
                            None => s.throw_text("SyntaxError: 'super' constructor call outside subclass"),
                        }
                    },
                    Expr::Member { obj, .. } => s.push(Frame::CallBase(e, env, tail)).push(Frame::Expr(&**obj, env)),
                    _ => {
                        let this = Value::Object(s.b().global_object);
                        s.push(Frame::CallFunc(e, env, this, tail)).push(Frame::Expr(&**callee, env))
                    },
                }
            },
            _ => s,
        }
    }

    /// Goes on with a method call once the object is there.
    pub open spec fn call_base(self, e: &'a Expr, env: usize, tail: bool) -> EngineView<'a> {
        let s = self;
        let base = s.value();
        match e {
            Expr::Call { callee, optional, .. } => {
                match &**callee {
                    Expr::Member { prop, computed, optional: member_optional, .. } => {
                        if (*optional || *member_optional) && base.is_nullish() {
                            s.ret(Value::Undefined)
                        } else {
                            match computed {
                                Some(x) => s.push(Frame::CallKey(e, env, base, tail)).push(Frame::ToKey).push(Frame::Expr(&**x, env)),
                                None => {
                                    let (s, k) = s.intern_name(prop);
                                    s.push(Frame::CallFunc(e, env, base, tail)).get_member(base, k)
                                },
                            }
                        }
                    },
                    _ => s,
                }
            },
            _ => s,
        }
    }

    /// Reads the method under a computed key.
    pub open spec fn call_key(self, e: &'a Expr, env: usize, base: Value, tail: bool) -> EngineView<'a> {
        let s = self;
        let k = s.key();
        s.push(Frame::CallFunc(e, env, base, tail)).get_member(base, k)
    }

    /// Evaluates the arguments once the function is there.
    pub open spec fn call_func(self, e: &'a Expr, env: usize, this: Value, tail: bool) -> EngineView<'a> {
        let s = self;
        let f = s.value();
        match e {
            Expr::Call { callee, args, optional } => {
                if *optional && !is_member(&**callee) && f.is_nullish() {
                    s.ret(Value::Undefined)
                } else {
                    let (s, l) = s.new_list();
                    s.push(Frame::Apply { func: f, this: this, list: l, tail: tail }).push(Frame::Args(args, 0, env, l))
                }
            },
            _ => s,
        }
    }

    /// Evaluates arguments into a list.
    pub open spec fn eval_args(self, args: &'a Vec<Arg>, i: usize, env: usize, list: usize) -> EngineView<'a> {
        let s = self;
        match nth(args, i) {
            Some(arg) => {
                match arg {
                    Arg::Expr(x) => s.push(Frame::Args(args, next(i), env, list)).push(Frame::Append(list)).push(Frame::Expr(x, env)),
                    Arg::Spread(x) => s.push(Frame::Args(args, next(i), env, list)).push(Frame::SpreadArg(list)).push(Frame::Expr(x, env)),
                }
            },
            None => s,
        }
    }

    /// Adds the value to a list.
    pub open spec fn append_end(self, list: usize) -> EngineView<'a> {
        let s = self;
        let v = s.value();
        s.append(list, v)
    }

    /// Adds what a spread argument gives.
    pub open spec fn spread_arg(self, list: usize) -> EngineView<'a> {
        let s = self;
        match s.value() {
            Value::Array(a) => s.append_streamed(list, a),
            v => s.push(Frame::Iterate(v, list)),
        }
    }

    /// Adds what a spread element gives.
    pub open spec fn spread(self, list: usize) -> EngineView<'a> {
        let s = self;
        let v = s.value();
        s.push(Frame::Iterate(v, list))
    }

    /// Makes a call, or leaves the running function first where the call is its last
    /// act.
    pub open spec fn apply(self, func: Value, this: Value, list: usize, tail: bool) -> EngineView<'a> {
        let s = self;
        if tail && s.plain_function(func) {
            s.done(Completion::TailCall { func: func, this: this, args: list })
        } else {
            s.push(Frame::Call { func: func, this: this, list: list })
        }
    }

    /// Evaluates the arguments of `new` once the constructor is there.
    pub open spec fn new_func(self, e: &'a Expr, env: usize) -> EngineView<'a> {
        let s = self;
        let f = s.value();
        match e {
            Expr::New { args, .. } => {
                let (s, l) = s.new_list();
                s.push(Frame::Construct { func: f, list: l }).push(Frame::Args(args, 0, env, l))
            },
            _ => s,
        }
    }

    /// Makes the constructed parent instance `this`.
    pub open spec fn super_done(self, env: usize) -> EngineView<'a> {
        let s = self;
        let v = s.value();
        let k = s.n().this;
        s.bind(env, k, v)
    }

    /// Evaluates expressions in turn; the last value stays.
    pub open spec fn sequence(self, list: &'a Vec<Expr>, i: usize, env: usize) -> EngineView<'a> {
        let s = self;
        match nth(list, i) {
            Some(x) => s.push(Frame::Sequence(list, next(i), env)).push(Frame::Expr(x, env)),
            None => s,
        }
    }

    /// Evaluates the right side of `instanceof`.
    pub open spec fn instance_right(self, right: &'a Expr, env: usize) -> EngineView<'a> {
        let s = self;
        let l = s.value();
        s.push(Frame::InstanceEnd(l)).push(Frame::Expr(right, env))
    }

    /// Answers `instanceof`.
    pub open spec fn eval_instance_of(self, l: Value) -> EngineView<'a> {
        let s = self;
        let r = s.value();
        let b = s.instance_of(l, r);
        s.ret(Value::Boolean(b))
    }

    /// Evaluates the right operand.
    pub open spec fn binary_right(self, op: BinaryOp, right: &'a Expr, env: usize) -> EngineView<'a> {
        let s = self;
        let l = s.value();
        s.push(Frame::BinaryEnd(op, l)).push(Frame::Expr(right, env))
    }

    /// Applies a binary operator.
    pub open spec fn binary_end(self, op: BinaryOp, l: Value) -> EngineView<'a> {
        let s = self;
        let r = s.value();
        s.binary(op, l, r)
    }

    /// Evaluates the right operand only where the left does not decide.
    pub open spec fn logical_end(self, op: LogicalOp, right: &'a Expr, env: usize) -> EngineView<'a> {
        let s = self;
        let l = s.value();
        let go = match op {
            LogicalOp::And => s.truthy(l),
            LogicalOp::Or => !s.truthy(l),
            LogicalOp::Coalesce => l.is_nullish(),
        };
        if go {
            s.push(Frame::Expr(right, env))
        } else {
            s.ret(l)
        }
    }

    /// Starts to evaluate a unary operator; the type of a name that nothing declares is
    /// known without evaluating it.
    pub open spec fn unary_start(self, e: &'a Expr, op: UnaryOp, operand: &'a Expr, env: usize) -> EngineView<'a> {
        let s = self;
        match typeof_name(op, operand) {
            Some(t) => {
                let (s, a) = s.intern_name(t);
                if s.declared(a, env) {
                    s.push(Frame::UnaryEnd(e, env)).push(Frame::Expr(operand, env))
                } else {
                    let u = s.n().undefined;
                    s.ret(Value::String(u))
                }
            },
            None => s.push(Frame::UnaryEnd(e, env)).push(Frame::Expr(operand, env)),
        }
    }

    /// Applies a unary operator.
    pub open spec fn eval_unary_value(self, e: &'a Expr, env: usize) -> EngineView<'a> {
        let s = self;
        let v = s.value();
        match e {
            Expr::Unary { op, operand } => {
                match op {
                    UnaryOp::Neg => {
                        if s.bigint_direct(v) {
                            s.push(Frame::NegateBig).push(Frame::Numeric).push(Frame::ToPrim(PrimitiveHint::Number)).ret(v)
                        } else {
                            s.push(Frame::Negate).push(Frame::Num(v))
                        }
                    },
                    UnaryOp::Plus => {
                        if s.bigint_direct(v) {
                            s.throw_type("Cannot convert a BigInt to a number")
                        } else {
                            s.push(Frame::Num(v))
                        }
                    },
                    UnaryOp::Not => {
                        let b = s.truthy(v);
                        s.ret(Value::Boolean(!b))
                    },
                    UnaryOp::Void => s.ret(Value::Undefined),
                    UnaryOp::Typeof => {
                        let (s, a) = s.typeof_atom(v);
                        s.ret(Value::String(a))
                    },
                    UnaryOp::BitNot => {
                        if s.bigint_direct(v) {
                            s.push(Frame::BitNotBig).push(Frame::Numeric).push(Frame::ToPrim(PrimitiveHint::Number)).ret(v)
                        } else {
                            s.push(Frame::BitNot).push(Frame::Num(v))
                        }
                    },
                    UnaryOp::Delete => {
                        match &**operand {
                            Expr::Member { obj, .. } => s.push(Frame::DeleteBase(&**operand, env)).push(Frame::Expr(&**obj, env)),
                            Expr::Ident(_) => s.ret(Value::Boolean(false)),
                            _ => s.ret(Value::Boolean(true)),
                        }
                    },
                    _ => s.increment(adds(*op), gives_old(*op), &**operand, env, v),
                }
            },
            _ => s,
        }
    }

    /// Changes the sign of a number.
    pub open spec fn negate_end(self) -> EngineView<'a> {
        let s = self;
        let x = s.bits();
        s.ret(Value::Number(negated(x)))
    }

    /// Complements the bits of a number.
    pub open spec fn bit_not_end(self) -> EngineView<'a> {
        let s = self;
        let x = s.bits();
        s.ret(Value::Number(bit_not(x)))
    }

    /// Adds or takes away one.
    pub open spec fn increment(self, add: bool, post: bool, operand: &'a Expr, env: usize, v: Value) -> EngineView<'a> {
        let s = self;
        if s.bigint_direct(v) {
            s.push(Frame::IncBig { add: add, post: post, operand: operand, env: env, before: v }).push(Frame::Numeric).push(Frame::ToPrim(PrimitiveHint::Number)).ret(v)
        } else {
            s.push(Frame::IncEnd { add: add, post: post, operand: operand, env: env, before: v }).push(Frame::Num(v))
        }
    }

    /// Adds one to a number or takes it away.
    pub open spec fn inc_end(self, add: bool, post: bool, operand: &'a Expr, env: usize, before: Value) -> EngineView<'a> {
        let s = self;
        let x = s.bits();
        s.push(Frame::IncStore { post: post, operand: operand, env: env, before: before }).ask(Request::Arith(if add { BinaryOp::Add } else { BinaryOp::Sub }, x, ONE))
    }

    /// Writes the changed number back.
    pub open spec fn inc_store(self, post: bool, operand: &'a Expr, env: usize, before: Value) -> EngineView<'a> {
        let s = self;
        let v = s.value();
        s.push(Frame::Give(if post { before } else { v })).assign_to(operand, v, env)
    }

    /// Goes on with `delete` once the object is there.
    pub open spec fn delete_base(self, e: &'a Expr, env: usize) -> EngineView<'a> {
        let s = self;
        let base = s.value();
        match e {
            Expr::Member { prop, computed, .. } => {
                match computed {
                    Some(x) => s.push(Frame::DeleteKey(base)).push(Frame::ToKey).push(Frame::Expr(&**x, env)),
                    None => {
                        let (s, k) = s.intern_name(prop);
                        s.delete_from(base, k)
                    },
                }
            },
            _ => s,
        }
    }

    /// Deletes the property under a computed key.
    pub open spec fn delete_key(self, base: Value) -> EngineView<'a> {
        let s = self;
        let k = s.key();
        s.delete_from(base, k)
    }

    /// Deletes a property.
    pub open spec fn delete_from(self, base: Value, key: usize) -> EngineView<'a> {
        let s = self;
        let (s, d) = s.delete(base, key);
        match d {
            Deletion::Yes => s.ret(Value::Boolean(true)),
            Deletion::No => s.ret(Value::Boolean(false)),
            Deletion::Refused => s.throw_type("Cannot delete property"),
        }
    }

    /// Evaluates one of the two branches.
    pub open spec fn ternary_end(self, e: &'a Expr, env: usize) -> EngineView<'a> {
        let s = self;
        let v = s.value();
        match e {
            Expr::Ternary { yes, no, .. } => {
                if s.truthy(v) {
                    s.push(Frame::Expr(&**yes, env))
                } else {
                    s.push(Frame::Expr(&**no, env))
                }
            },
            _ => s,
        }
    }

    /// Assigns the value to a target; the value is the result.
    pub open spec fn assign_end(self, target: &'a AssignTarget, env: usize) -> EngineView<'a> {
        let s = self;
        let v = s.value();
        match target {
            AssignTarget::Expr(e) => s.assign_to(&**e, v, env),
            AssignTarget::Pattern(p) => s.push(Frame::Give(v)).push(Frame::Bind(p, env, Mode::Assign)).ret(v),
        }
    }

    /// Assigns a value to a name or a member.
    pub open spec fn assign_to(self, target: &'a Expr, v: Value, env: usize) -> EngineView<'a> {
        let s = self;
        match target {
            Expr::Ident(t) => {
                let (s, a) = s.intern_name(t);
                if s.is_const(env, a) {
                    s.throw_type("Assignment to constant variable")
                } else if s.global_writable(a) {
                    s.assign(env, a, v).ret(v)
                } else {
                    s.ret(v)
                }
            },
            Expr::Member { obj, .. } => s.push(Frame::AssignBase(target, env, v)).push(Frame::Expr(&**obj, env)),
            _ => s.throw_text("invalid assignment target"),
        }
    }

    /// Goes on with a member assignment once the object is there.
    pub open spec fn assign_base(self, e: &'a Expr, env: usize, v: Value) -> EngineView<'a> {
        let s = self;
        let base = s.value();
        match e {
            Expr::Member { prop, computed, .. } => {
                match computed {
                    Some(x) => s.push(Frame::AssignKey(base, v)).push(Frame::ToKey).push(Frame::Expr(&**x, env)),
                    None => {
                        let (s, k) = s.intern_name(prop);
                        s.put_member(base, k, v)
                    },
                }
            },
            _ => s,
        }
    }

    /// Writes a member under a computed key.
    pub open spec fn assign_key(self, base: Value, v: Value) -> EngineView<'a> {
        let s = self;
        let k = s.key();
        s.put_member(base, k, v)
    }

    /// Writes a member; `null` and `undefined` have none.
    pub open spec fn put_member(self, base: Value, key: usize, v: Value) -> EngineView<'a> {
        let s = self;
        if base.is_nullish() {
            s.throw_nullish("set", "setting", base, key)
        } else {
            let (s, w) = s.write(base, key, v);
            match w {
                Write::Done => s.ret(v),
                Write::Setter(f) => {
                    let (s, l) = s.list1(v);
                    s.push(Frame::Give(v)).push(Frame::Call { func: f, this: base, list: l })
                },
                Write::NoSetter => s.throw_type("Assignment to a property with no setter"),
                Write::ReadOnly => s.throw_type("Assignment to a read-only property"),
                Write::NeedsNumber => s.push(Frame::Give(v)).push(Frame::SetNumber(base)).push(Frame::Num(v)),
            }
        }
    }

    /// Stores the number that a length or `lastIndex` was converted to.
    pub open spec fn number_set(self, base: Value) -> EngineView<'a> {
        let s = self;
        let x = s.bits();
        s.set_number(base, x)
    }

    /// Evaluates the elements of an array literal into a list.
    pub open spec fn eval_array_elems(self, list: &'a Vec<ArrayElem>, i: usize, env: usize, l: usize) -> EngineView<'a> {
        let s = self;
        match nth(list, i) {
            Some(el) => {
                match el {
                    ArrayElem::Expr(x) => s.push(Frame::Elems(list, next(i), env, l)).push(Frame::Append(l)).push(Frame::Expr(x, env)),
                    ArrayElem::Spread(x) => s.push(Frame::Elems(list, next(i), env, l)).push(Frame::Spread(l)).push(Frame::Expr(x, env)),
                    ArrayElem::Elision => s.append(l, Value::Undefined).push(Frame::Elems(list, next(i), env, l)),
                }
            },
            None => s,
        }
    }

    /// Makes an array of a list.
    pub open spec fn make_array(self, list: usize) -> EngineView<'a> {
        let s = self;
        let (s, a) = s.array_from(list, 0);
        s.ret(Value::Array(a))
    }

    /// Evaluates the properties of an object literal.
    pub open spec fn eval_object_props(self, list: &'a Vec<Prop>, i: usize, env: usize, o: usize) -> EngineView<'a> {
        let s = self;
        match nth(list, i) {
            Some(p) => {
                match p {
                    Prop::Init { key, value } => s.push(Frame::Props(list, next(i), env, o)).push(Frame::PropValue(key, env, o)).push(Frame::Expr(value, env)),
                    Prop::Method { key, .. } => s.push(Frame::Props(list, next(i), env, o)).push(Frame::PropMethod(p, env, o)).key_start(key, env),
                    Prop::Accessor { key, .. } => s.push(Frame::Props(list, next(i), env, o)).push(Frame::PropMethod(p, env, o)).key_start(key, env),
                    Prop::Spread(x) => s.push(Frame::Props(list, next(i), env, o)).push(Frame::PropSpread(o)).push(Frame::Expr(x, env)),
                }
            },
            None => s,
        }
    }

    /// Evaluates the key once the value is there.
    pub open spec fn prop_value(self, key: &'a PropKey, env: usize, o: usize) -> EngineView<'a> {
        let s = self;
        let v = s.value();
        s.push(Frame::PropStore(o, v)).key_start(key, env)
    }

    /// Stores a property of an object literal.
    pub open spec fn prop_store(self, o: usize, v: Value) -> EngineView<'a> {
        let s = self;
        let k = s.key();
        s.set_field(o, k, v)
    }

    /// Defines a method or an accessor once the key is there.
    pub open spec fn prop_method(self, p: &'a Prop, env: usize, o: usize) -> EngineView<'a> {
        let s = self;
        let k = s.key();
        match p {
            Prop::Method { params, body, .. } => {
                let (s, f) = s.make_function(k, Some(params), body, env, None);
                s.set_field(o, k, f)
            },
            Prop::Accessor { get, params, body, .. } => {
                let (s, f) = s.make_function(k, Some(params), body, env, None);
                if *get {
                    s.accessor(o, k, Some(f), None)
                } else {
                    s.accessor(o, k, None, Some(f))
                }
            },
            _ => s,
        }
    }

    /// Copies the enumerable properties of a spread value.
    pub open spec fn prop_spread(self, o: usize) -> EngineView<'a> {
        let s = self;
        let v = s.value();
        let (s, source) = s.object_of(v);
        match source {
            Some(x) => s.spread_into(x, o),
            None => s.throw_text("TypeError: cannot destructure non-object"),
        }
    }

    /// Evaluates the literal parts of a tagged template once the tag is there.
    pub open spec fn tag_func(self, e: &'a Expr, env: usize) -> EngineView<'a> {
        let s = self;
        let f = s.value();
        match e {
            Expr::Tagged { cooked, subs, .. } => {
                let (s, l) = s.new_list();
                s.push(Frame::TagCooked { func: f, subs: subs, env: env, list: l }).push(Frame::Exprs(cooked, 0, env, l))
            },
            _ => s,
        }
    }

    /// Evaluates expressions into a list.
    pub open spec fn eval_expr_list(self, list: &'a Vec<Expr>, i: usize, env: usize, l: usize) -> EngineView<'a> {
        let s = self;
        match nth(list, i) {
            Some(x) => s.push(Frame::Exprs(list, next(i), env, l)).push(Frame::Append(l)).push(Frame::Expr(x, env)),
            None => s,
        }
    }

    /// Calls the tag with the literal parts and the substitutions.
    pub open spec fn tag_cooked(self, func: Value, subs: &'a Vec<Expr>, env: usize, list: usize) -> EngineView<'a> {
        let s = self;
        let (s, a) = s.array_from(list, 0);
        let (s, l) = s.list1(Value::Array(a));
        s.push(Frame::Call { func: func, this: Value::Undefined, list: l }).push(Frame::Exprs(subs, 0, env, l))
    }

    /// Gathers a yielded value, or gives it where nothing gathers.
    pub open spec fn yielded(self, v: Value) -> EngineView<'a> {
        let s = self;
        match s.yield_sink() {
            Some(l) => s.append(l, v).ret(Value::Undefined),
            None => s.ret(v),
        }
    }

    /// Yields the value.
    pub open spec fn yield_end(self) -> EngineView<'a> {
        let s = self;
        let v = s.value();
        s.yielded(v)
    }

    /// Starts to evaluate a class.
    pub open spec fn eval_class(self, c: &'a Class, env: usize) -> EngineView<'a> {
        let s = self;
        match &c.extends {
            Some(x) => s.push(Frame::ClassParent(c, env)).push(Frame::Expr(&**x, env)),
            None => s.class_start(c, None, env),
        }
    }

    /// Goes on with a class once its parent is there.
    pub open spec fn eval_class_with_parent(self, c: &'a Class, env: usize) -> EngineView<'a> {
        let s = self;
        let p = s.value();
        s.class_start(c, Some(p), env)
    }

    /// Makes the prototype object of a class, then evaluates the keys of its instance
    /// fields.
    pub open spec fn class_start(self, c: &'a Class, parent: Option<Value>, env: usize) -> EngineView<'a> {
        let s = self;
        let top = s.b().object_prototype;
        let base = match parent {
            Some(p) => or_else(s.proto_of(p), top),
            None => top,
        };
        let (s, proto) = s.make_object(base);
        let (s, l) = s.new_list();
        s.push(Frame::ClassKeys { class: c, env: env, parent: parent, proto: proto, base: base, i: 0, list: l })
    }

    /// Evaluates the keys of the instance fields, then makes the constructor.
    pub open spec fn eval_class_field_keys(self, class: &'a Class, env: usize, parent: Option<Value>, proto: usize, base: usize, i: usize, list: usize) -> EngineView<'a> {
        let s = self;
        match nth(&class.elements, i) {
            Some(el) => {
                match instance_key(el) {
                    Some(key) => {
                        s.push(Frame::ClassKeys { class: class, env: env, parent: parent, proto: proto, base: base, i: next(i), list: list }).push(Frame::Append(list)).key_start(key, env)
                    },
                    None => s.push(Frame::ClassKeys { class: class, env: env, parent: parent, proto: proto, base: base, i: next(i), list: list }),
                }
            },
            None => {
                let (s, ctor) = s.class_ctor(class, parent, proto, base, env, list);
                s.push(Frame::Give(Value::Function(ctor))).push(Frame::ClassStaticMethods { class: class, env: env, ctor: ctor, i: 0 }).push(Frame::ClassStatics { class: class, env: env, ctor: ctor, i: 0 }).push(Frame::ClassMethods { class: class, env: env, ctor: ctor, proto: proto, base: base, i: 0 })
            },
        }
    }

    /// Defines the instance methods.
    pub open spec fn eval_class_inst_methods(self, class: &'a Class, env: usize, ctor: usize, proto: usize, base: usize, i: usize) -> EngineView<'a> {
        let s = self;
        match nth(&class.elements, i) {
            Some(el) => {
                match method_key(el, false) {
                    Some(key) => {
                        s.push(Frame::ClassMethods { class: class, env: env, ctor: ctor, proto: proto, base: base, i: next(i) }).push(Frame::ClassMethodKey { class: class, env: env, ctor: ctor, proto: proto, base: base, i: i }).key_start(key, env)
                    },
                    None => s.push(Frame::ClassMethods { class: class, env: env, ctor: ctor, proto: proto, base: base, i: next(i) }),
                }
            },
            None => s,
        }
    }

    /// Defines an instance method once its key is there.
    pub open spec fn class_method_key(self, class: &'a Class, env: usize, proto: usize, base: usize, i: usize) -> EngineView<'a> {
        let s = self;
        let k = s.key();
        match nth(&class.elements, i) {
            Some(el) => {
                match el {
                    ClassElem::Method { get, params, body, .. } => {
                        let (s, f) = s.make_function(k, Some(params), body, env, None);
                        let s = s.set_super(f, base);
                        if *get {
                            s.accessor(proto, k, Some(f), None)
                        } else {
                            s.set_field(proto, k, f)
                        }
                    },
                    _ => s,
                }
            },
            None => s,
        }
    }

    /// Defines the static fields.
    pub open spec fn eval_class_static_fields(self, class: &'a Class, env: usize, ctor: usize, i: usize) -> EngineView<'a> {
        let s = self;
        match nth(&class.elements, i) {
            Some(el) => {
                match static_key(el) {
                    Some(key) => {
                        s.push(Frame::ClassStatics { class: class, env: env, ctor: ctor, i: next(i) }).push(Frame::ClassStaticKey { class: class, env: env, ctor: ctor, i: i }).key_start(key, env)
                    },
                    None => s.push(Frame::ClassStatics { class: class, env: env, ctor: ctor, i: next(i) }),
                }
            },
            None => s,
        }
    }

    /// Evaluates a static field once its key is there.
    pub open spec fn class_static_key(self, class: &'a Class, env: usize, ctor: usize, i: usize) -> EngineView<'a> {
        let s = self;
        let k = s.key();
        match nth(&class.elements, i) {
            Some(el) => {
                match field_value(el) {
                    Some(x) => s.push(Frame::ClassStaticValue { ctor: ctor, key: k }).push(Frame::Expr(x, env)),
                    None => s.set_field(ctor, k, Value::Undefined),
                }
            },
            None => s,
        }
    }

    /// Stores a static field.
    pub open spec fn class_static_value(self, ctor: usize, key: usize) -> EngineView<'a> {
        let s = self;
        let v = s.value();
        s.set_field(ctor, key, v)
    }

    /// Defines the static methods.
    pub open spec fn eval_class_static_methods(self, class: &'a Class, env: usize, ctor: usize, i: usize) -> EngineView<'a> {
        let s = self;
        match nth(&class.elements, i) {
            Some(el) => {
                match method_key(el, true) {
                    Some(key) => {
                        s.push(Frame::ClassStaticMethods { class: class, env: env, ctor: ctor, i: next(i) }).push(Frame::ClassStaticMethodKey { class: class, env: env, ctor: ctor, i: i }).key_start(key, env)
                    },
                    None => s.push(Frame::ClassStaticMethods { class: class, env: env, ctor: ctor, i: next(i) }),
                }
            },
            None => s,
        }
    }

    /// Defines a static method once its key is there.
    pub open spec fn class_static_method_key(self, class: &'a Class, env: usize, ctor: usize, i: usize) -> EngineView<'a> {
        let s = self;
        let k = s.key();
        match nth(&class.elements, i) {
            Some(el) => {
                match el {
                    ClassElem::Method { get, params, body, .. } => {
                        let (s, f) = s.make_function(k, Some(params), body, env, None);
                        if *get {
                            s.accessor(ctor, k, Some(f), None)
                        } else {
                            s.set_field(ctor, k, f)
                        }
                    },
                    _ => s,
                }
            },
            None => s,
        }
    }
}

impl<'a> Engine<'a> {
    /// What the innermost running function says of `await`.
    pub(crate) fn await_context(&self) -> (res: AwaitSite)
        ensures
            res == self@.await_context(),
    {
        let mut i: usize = self.frames.len();
        assert(self.frames@.take(i as int) =~= self.frames@);
        while i > 0
            invariant
                i <= self.frames@.len(),
                await_site(self.frames@) == await_site(self.frames@.take(i as int)),
            decreases i,
        {
            assert(self.frames@.take(i as int).last() == self.frames@[i - 1]);
            assert(self.frames@.take(i as int).drop_last() =~= self.frames@.take(i - 1));
            match self.frames[i - 1] {
                Frame::CallEnd => {
                    return AwaitSite::Sync;
                },
                Frame::DerivedEnd { .. } => {
                    return AwaitSite::Sync;
                },
                Frame::AsyncEnd { .. } => {
                    return AwaitSite::Async;
                },
                Frame::Barrier => {
                    return AwaitSite::Top;
                },
                _ => {},
            }
            i -= 1;
        }
        AwaitSite::Top
    }

    /// The answer of `instanceof`.
    pub(crate) fn instance_of(&self, v: Value, ctor: Value) -> (res: bool)
        ensures
            res == self@.instance_of(v, ctor),
    {
        match self.proto_of(ctor) {
            Some(p) => {
                let from = self.chain_start(v);
                self.store.heap.inherits(from, p)
            },
            None => false,
        }
    }

    /// The object at which `instanceof` starts to look for a prototype: an object
    /// itself, otherwise the prototype of the value.
    pub(crate) fn chain_start(&self, v: Value) -> (res: Option<usize>)
        ensures
            res == self@.chain_start(v),
    {
        match v {
            Value::Object(o) => Some(o),
            Value::Array(a) => self.cell_proto(a),
            Value::Function(f) => self.cell_proto(f),
            Value::NativeFunction(f) => self.cell_proto(f),
            Value::MapRef(_) => Some(self.store.b.map_prototype),
            Value::SetRef(_) => Some(self.store.b.set_prototype),
            Value::WeakMap(_) => Some(self.store.b.weakmap_prototype),
            Value::WeakSet(_) => Some(self.store.b.weakset_prototype),
            Value::Promise(p) => Some(match self.cell_proto(p) {
                Some(x) => x,
                None => self.store.b.promise_prototype,
            }),
            Value::Regex(_) => Some(self.store.b.regexp_prototype),
            _ => None,
        }
    }

    /// Whether a name is bound in a scope or on the global object.
    pub(crate) fn declared(&self, name: usize, env: usize) -> (res: bool)
        ensures
            res == self@.declared(name, env),
    {
        self.lookup(env, name).is_some() || self.own_prop(self.store.b.global_object, name).is_some()
    }

    /// Whether the global object lets a name be written.
    pub(crate) fn global_writable(&self, name: usize) -> (res: bool)
        ensures
            res == self@.global_writable(name),
    {
        match self.own_prop(self.store.b.global_object, name) {
            Some(p) => p.writable,
            None => true,
        }
    }

    /// Whether a value is a function of the program that is neither a generator nor
    /// `async`.
    pub(crate) fn plain_function(&self, v: Value) -> (res: bool)
        ensures
            res == self@.plain_function(v),
    {
        match v {
            Value::Function(f) => match self.function(f) {
                Some(d) => !d.generator && !d.is_async,
                None => false,
            },
            _ => false,
        }
    }

    /// Starts to evaluate an expression.
    pub(crate) fn eval_expr(&mut self, e: &'a Expr, env: usize)
        ensures
            final(self)@ == old(self)@.eval_expr(e, env),
    {
        match e {
            Expr::Lit(l) => { self.literal(l); },
            Expr::Ident(t) => {
                let a = self.intern_name(t);
                self.identifier(a, env);
            },
            Expr::This => {
                let v = self.this_of(env);
                self.ret(v);
            },
            Expr::Super => {
                let v = self.lookup(env, self.n().super_object);
                self.ret(or_else(v, Value::Undefined));
            },
            Expr::Member { obj, .. } => { self.push(Frame::Member(e, env)); self.push(Frame::Expr(&**obj, env)); },
            Expr::Call { .. } => { self.call_start(e, env, false); },
            Expr::New { callee, .. } => { self.push(Frame::NewFunc(e, env)); self.push(Frame::Expr(&**callee, env)); },
            Expr::Sequence(list) => { self.push(Frame::Sequence(list, 0, env)); self.ret(Value::Undefined); },
            Expr::InstanceOf { left, right } => { self.push(Frame::InstanceRight(&**right, env)); self.push(Frame::Expr(&**left, env)); },
            Expr::Binary { op, left, right } => { self.push(Frame::BinaryRight(*op, &**right, env)); self.push(Frame::Expr(&**left, env)); },
            Expr::Logical { op, left, right } => { self.push(Frame::LogicalEnd(*op, &**right, env)); self.push(Frame::Expr(&**left, env)); },
            Expr::Unary { op, operand } => { self.unary_start(e, *op, &**operand, env); },
            Expr::Ternary { cond, .. } => { self.push(Frame::TernaryEnd(e, env)); self.push(Frame::Expr(&**cond, env)); },
            Expr::Assignment { target, value } => { self.push(Frame::AssignEnd(target, env)); self.push(Frame::Expr(&**value, env)); },
            Expr::Array(list) => {
                let l = self.new_list();
                self.push(Frame::MakeArray(l)); self.push(Frame::Elems(list, 0, env, l));
            },
            Expr::Object(list) => {
                let o = self.new_object();
                self.push(Frame::Give(Value::Object(o))); self.push(Frame::Props(list, 0, env, o));
            },
            Expr::Function { name, params, body } => {
                match name {
                    Some(t) => {
                        let scope = self.new_scope(env, false);
                        let a = self.intern_name(t);
                        let f = self.make_function(a, Some(params), body, scope, None);
                        self.bind(scope, a, f); self.ret(f);
                    },
                    None => {
                        let a = self.n().empty;
                        let f = self.make_function(a, Some(params), body, env, None);
                        self.ret(f);
                    },
                }
            },
            Expr::Arrow { params, body } => {
                let this = self.this_of(env);
                let a = self.n().empty;
                let f = self.make_function(a, Some(params), body, env, Some(this));
                self.ret(f);
            },
            Expr::Class(c) => { self.eval_class(&**c, env); },
            Expr::Tagged { tag, .. } => { self.push(Frame::TagFunc(e, env)); self.push(Frame::Expr(&**tag, env)); },
            Expr::ToString(x) => { self.push(Frame::StringOf); self.push(Frame::ToPrim(PrimitiveHint::String)); self.push(Frame::Expr(&**x, env)); },
            Expr::Await(x) => {
                match self.await_context() {
                    AwaitSite::Top => { self.unimplemented("top-level await is not implemented"); },
                    AwaitSite::Sync => { self.unimplemented("await is only valid in async functions"); },
                    AwaitSite::Async => { self.push(Frame::AwaitEnd); self.push(Frame::Expr(&**x, env)); },
                }
            },
            Expr::Yield { expr, .. } => {
                match expr {
                    Some(x) => { self.push(Frame::YieldEnd); self.push(Frame::Expr(&**x, env)); },
                    None => { self.yielded(Value::Undefined); },
                }
            },
        }
    }

    /// The value of a literal.
    pub(crate) fn literal(&mut self, l: &'a Lit)
        ensures
            final(self)@ == old(self)@.literal(l),
    {
        match l {
            Lit::Number(t) => { self.number_literal(t); },
            Lit::Str(t) => {
                let a = self.intern_name(t);
                self.ret(Value::String(a));
            },
            Lit::Bool(b) => { self.ret(Value::Boolean(*b)); },
            Lit::Undefined => { self.ret(Value::Undefined); },
            Lit::Null => { self.ret(Value::Null); },
            Lit::BigInt(t) => {
                let a = self.intern_name(t);
                self.ret(Value::BigInt(a));
            },
            Lit::Regex { pattern, flags } => {
                let v = self.new_regex(pattern, flags);
                self.ret(v);
            },
        }
    }

    /// The value of a name: a binding, or else a property of the global object.
    pub(crate) fn identifier(&mut self, name: usize, env: usize)
        ensures
            final(self)@ == old(self)@.identifier(name, env),
    {
        match self.lookup(env, name) {
            Some(v) => { self.ret(v); },
            None => {
                match self.own_prop(self.b().global_object, name) {
                    Some(p) => { self.ret(p.value); },
                    None => { self.throw_reference(name); },
                }
            },
        }
    }

    /// Goes on with a member access once the object is there.
    pub(crate) fn member(&mut self, e: &'a Expr, env: usize)
        ensures
            final(self)@ == old(self)@.member(e, env),
    {
        let base = self.value();
        match e {
            Expr::Member { prop, computed, optional, .. } => {
                if *optional && base.is_nullish() {
                    self.ret(Value::Undefined);
                } else {
                    match computed {
                        Some(x) => { self.push(Frame::MemberKey(base)); self.push(Frame::ToKey); self.push(Frame::Expr(&**x, env)); },
                        None => {
                            let k = self.intern_name(prop);
                            self.get_member(base, k);
                        },
                    }
                }
            },
            _ => {},
        }
    }

    /// Reads a member under a computed key.
    pub(crate) fn member_key(&mut self, base: Value)
        ensures
            final(self)@ == old(self)@.member_key(base),
    {
        let k = self.key();
        self.get_member(base, k);
    }

    /// Reads a member; `null` and `undefined` have none.
    pub(crate) fn get_member(&mut self, base: Value, key: usize)
        ensures
            final(self)@ == old(self)@.get_member(base, key),
    {
        if base.is_nullish() {
            self.throw_nullish("read", "reading", base, key);
        } else {
            self.read_prop(base, key);
        }
    }

    /// Starts to evaluate a call.
    pub(crate) fn call_start(&mut self, e: &'a Expr, env: usize, tail: bool)
        ensures
            final(self)@ == old(self)@.call_start(e, env, tail),
    {
        match e {
            Expr::Call { callee, args, .. } => {
                match &**callee {
                    Expr::Super => {
                        match self.lookup(env, self.n().super_ctor) {
                            Some(c) => {
                                let l = self.new_list();
                                self.push(Frame::SuperCall { ctor: c, list: l, env: env }); self.push(Frame::Args(args, 0, env, l));
                            },
                            None => { self.throw_text("SyntaxError: 'super' constructor call outside subclass"); },
                        }
                    },
                    Expr::Member { obj, .. } => { self.push(Frame::CallBase(e, env, tail)); self.push(Frame::Expr(&**obj, env)); },
                    _ => {
                        let this = Value::Object(self.b().global_object);
                        self.push(Frame::CallFunc(e, env, this, tail)); self.push(Frame::Expr(&**callee, env));
                    },
                }
            },
            _ => {},
        }
    }

    /// Goes on with a method call once the object is there.
    pub(crate) fn call_base(&mut self, e: &'a Expr, env: usize, tail: bool)
        ensures
            final(self)@ == old(self)@.call_base(e, env, tail),
    {
        let base = self.value();
        match e {
            Expr::Call { callee, optional, .. } => {
                match &**callee {
                    Expr::Member { prop, computed, optional: member_optional, .. } => {
                        if (*optional || *member_optional) && base.is_nullish() {
                            self.ret(Value::Undefined);
                        } else {
                            match computed {
                                Some(x) => { self.push(Frame::CallKey(e, env, base, tail)); self.push(Frame::ToKey); self.push(Frame::Expr(&**x, env)); },
                                None => {
                                    let k = self.intern_name(prop);
                                    self.push(Frame::CallFunc(e, env, base, tail)); self.get_member(base, k);
                                },
                            }
                        }
                    },
                    _ => {},
                }
            },
            _ => {},
        }
    }

    /// Reads the method under a computed key.
    pub(crate) fn call_key(&mut self, e: &'a Expr, env: usize, base: Value, tail: bool)
        ensures
            final(self)@ == old(self)@.call_key(e, env, base, tail),
    {
        let k = self.key();
        self.push(Frame::CallFunc(e, env, base, tail)); self.get_member(base, k);
    }

    /// Evaluates the arguments once the function is there.
    pub(crate) fn call_func(&mut self, e: &'a Expr, env: usize, this: Value, tail: bool)
        ensures
            final(self)@ == old(self)@.call_func(e, env, this, tail),
    {
        let f = self.value();
        match e {
            Expr::Call { callee, args, optional } => {
                if *optional && !is_member(&**callee) && f.is_nullish() {
                    self.ret(Value::Undefined);
                } else {
                    let l = self.new_list();
                    self.push(Frame::Apply { func: f, this: this, list: l, tail: tail }); self.push(Frame::Args(args, 0, env, l));
                }
            },
            _ => {},
        }
    }

    /// Evaluates arguments into a list.
    pub(crate) fn eval_args(&mut self, args: &'a Vec<Arg>, i: usize, env: usize, list: usize)
        ensures
            final(self)@ == old(self)@.eval_args(args, i, env, list),
    {
        match nth(args, i) {
            Some(arg) => {
                match arg {
                    Arg::Expr(x) => { self.push(Frame::Args(args, next(i), env, list)); self.push(Frame::Append(list)); self.push(Frame::Expr(x, env)); },
                    Arg::Spread(x) => { self.push(Frame::Args(args, next(i), env, list)); self.push(Frame::SpreadArg(list)); self.push(Frame::Expr(x, env)); },
                }
            },
            None => {},
        }
    }

    /// Adds the value to a list.
    pub(crate) fn append_end(&mut self, list: usize)
        ensures
            final(self)@ == old(self)@.append_end(list),
    {
        let v = self.value();
        self.append(list, v);
    }

    /// Adds what a spread argument gives.
    pub(crate) fn spread_arg(&mut self, list: usize)
        ensures
            final(self)@ == old(self)@.spread_arg(list),
    {
        match self.value() {
            Value::Array(a) => { self.append_streamed(list, a); },
            v => { self.push(Frame::Iterate(v, list)); },
        }
    }

    /// Adds what a spread element gives.
    pub(crate) fn spread(&mut self, list: usize)
        ensures
            final(self)@ == old(self)@.spread(list),
    {
        let v = self.value();
        self.push(Frame::Iterate(v, list));
    }

    /// Makes a call, or leaves the running function first where the call is its last
    /// act.
    pub(crate) fn apply(&mut self, func: Value, this: Value, list: usize, tail: bool)
        ensures
            final(self)@ == old(self)@.apply(func, this, list, tail),
    {
        if tail && self.plain_function(func) {
            self.done(Completion::TailCall { func: func, this: this, args: list });
        } else {
            self.push(Frame::Call { func: func, this: this, list: list });
        }
    }

    /// Evaluates the arguments of `new` once the constructor is there.
    pub(crate) fn new_func(&mut self, e: &'a Expr, env: usize)
        ensures
            final(self)@ == old(self)@.new_func(e, env),
    {
        let f = self.value();
        match e {
            Expr::New { args, .. } => {
                let l = self.new_list();
                self.push(Frame::Construct { func: f, list: l }); self.push(Frame::Args(args, 0, env, l));
            },
            _ => {},
        }
    }

    /// Makes the constructed parent instance `this`.
    pub(crate) fn super_done(&mut self, env: usize)
        ensures
            final(self)@ == old(self)@.super_done(env),
    {
        let v = self.value();
        let k = self.n().this;
        self.bind(env, k, v);
    }

    /// Evaluates expressions in turn; the last value stays.
    pub(crate) fn sequence(&mut self, list: &'a Vec<Expr>, i: usize, env: usize)
        ensures
            final(self)@ == old(self)@.sequence(list, i, env),
    {
        match nth(list, i) {
            Some(x) => { self.push(Frame::Sequence(list, next(i), env)); self.push(Frame::Expr(x, env)); },
            None => {},
        }
    }

    /// Evaluates the right side of `instanceof`.
    pub(crate) fn instance_right(&mut self, right: &'a Expr, env: usize)
        ensures
            final(self)@ == old(self)@.instance_right(right, env),
    {
        let l = self.value();
        self.push(Frame::InstanceEnd(l)); self.push(Frame::Expr(right, env));
    }

    /// Answers `instanceof`.
    pub(crate) fn eval_instance_of(&mut self, l: Value)
        ensures
            final(self)@ == old(self)@.eval_instance_of(l),
    {
        let r = self.value();
        let b = self.instance_of(l, r);
        self.ret(Value::Boolean(b));
    }

    /// Evaluates the right operand.
    pub(crate) fn binary_right(&mut self, op: BinaryOp, right: &'a Expr, env: usize)
        ensures
            final(self)@ == old(self)@.binary_right(op, right, env),
    {
        let l = self.value();
        self.push(Frame::BinaryEnd(op, l)); self.push(Frame::Expr(right, env));
    }

    /// Applies a binary operator.
    pub(crate) fn binary_end(&mut self, op: BinaryOp, l: Value)
        ensures
            final(self)@ == old(self)@.binary_end(op, l),
    {
        let r = self.value();
        self.binary(op, l, r);
    }

    /// Evaluates the right operand only where the left does not decide.
    pub(crate) fn logical_end(&mut self, op: LogicalOp, right: &'a Expr, env: usize)
        ensures
            final(self)@ == old(self)@.logical_end(op, right, env),
    {
        let l = self.value();
        let go = match op {
            LogicalOp::And => self.truthy(l),
            LogicalOp::Or => !self.truthy(l),
            LogicalOp::Coalesce => l.is_nullish(),
        };
        if go {
            self.push(Frame::Expr(right, env));
        } else {
            self.ret(l);
        }
    }

    /// Starts to evaluate a unary operator; the type of a name that nothing declares is
    /// known without evaluating it.
    pub(crate) fn unary_start(&mut self, e: &'a Expr, op: UnaryOp, operand: &'a Expr, env: usize)
        ensures
            final(self)@ == old(self)@.unary_start(e, op, operand, env),
    {
        match typeof_name(op, operand) {
            Some(t) => {
                let a = self.intern_name(t);
                if self.declared(a, env) {
                    self.push(Frame::UnaryEnd(e, env)); self.push(Frame::Expr(operand, env));
                } else {
                    let u = self.n().undefined;
                    self.ret(Value::String(u));
                }
            },
            None => { self.push(Frame::UnaryEnd(e, env)); self.push(Frame::Expr(operand, env)); },
        }
    }

    /// Applies a unary operator.
    pub(crate) fn eval_unary_value(&mut self, e: &'a Expr, env: usize)
        ensures
            final(self)@ == old(self)@.eval_unary_value(e, env),
    {
        let v = self.value();
        match e {
            Expr::Unary { op, operand } => {
                match op {
                    UnaryOp::Neg => {
                        if self.bigint_direct(v) {
                            self.push(Frame::NegateBig); self.push(Frame::Numeric); self.push(Frame::ToPrim(PrimitiveHint::Number)); self.ret(v);
                        } else {
                            self.push(Frame::Negate); self.push(Frame::Num(v));
                        }
                    },
                    UnaryOp::Plus => {
                        if self.bigint_direct(v) {
                            self.throw_type("Cannot convert a BigInt to a number");
                        } else {
                            self.push(Frame::Num(v));
                        }
                    },
                    UnaryOp::Not => {
                        let b = self.truthy(v);
                        self.ret(Value::Boolean(!b));
                    },
                    UnaryOp::Void => { self.ret(Value::Undefined); },
                    UnaryOp::Typeof => {
                        let a = self.typeof_atom(v);
                        self.ret(Value::String(a));
                    },
                    UnaryOp::BitNot => {
                        if self.bigint_direct(v) {
                            self.push(Frame::BitNotBig); self.push(Frame::Numeric); self.push(Frame::ToPrim(PrimitiveHint::Number)); self.ret(v);
                        } else {
                            self.push(Frame::BitNot); self.push(Frame::Num(v));
                        }
                    },
                    UnaryOp::Delete => {
                        match &**operand {
                            Expr::Member { obj, .. } => { self.push(Frame::DeleteBase(&**operand, env)); self.push(Frame::Expr(&**obj, env)); },
                            Expr::Ident(_) => { self.ret(Value::Boolean(false)); },
                            _ => { self.ret(Value::Boolean(true)); },
                        }
                    },
                    _ => { self.increment(adds(*op), gives_old(*op), &**operand, env, v); },
                }
            },
            _ => {},
        }
    }

    /// Changes the sign of a number.
    pub(crate) fn negate_end(&mut self)
        ensures
            final(self)@ == old(self)@.negate_end(),
    {
        let x = self.bits();
        self.ret(Value::Number(negated(x)));
    }

    /// Complements the bits of a number.
    pub(crate) fn bit_not_end(&mut self)
        ensures
            final(self)@ == old(self)@.bit_not_end(),
    {
        let x = self.bits();
        self.ret(Value::Number(bit_not(x)));
    }

    /// Adds or takes away one.
    pub(crate) fn increment(&mut self, add: bool, post: bool, operand: &'a Expr, env: usize, v: Value)
        ensures
            final(self)@ == old(self)@.increment(add, post, operand, env, v),
    {
        if self.bigint_direct(v) {
            self.push(Frame::IncBig { add: add, post: post, operand: operand, env: env, before: v }); self.push(Frame::Numeric); self.push(Frame::ToPrim(PrimitiveHint::Number)); self.ret(v);
        } else {
            self.push(Frame::IncEnd { add: add, post: post, operand: operand, env: env, before: v }); self.push(Frame::Num(v));
        }
    }

    /// Adds one to a number or takes it away.
    pub(crate) fn inc_end(&mut self, add: bool, post: bool, operand: &'a Expr, env: usize, before: Value)
        ensures
            final(self)@ == old(self)@.inc_end(add, post, operand, env, before),
    {
        let x = self.bits();
        self.push(Frame::IncStore { post: post, operand: operand, env: env, before: before }); self.ask(Request::Arith(if add { BinaryOp::Add } else { BinaryOp::Sub }, x, ONE));
    }

    /// Writes the changed number back.
    pub(crate) fn inc_store(&mut self, post: bool, operand: &'a Expr, env: usize, before: Value)
        ensures
            final(self)@ == old(self)@.inc_store(post, operand, env, before),
    {
        let v = self.value();
        self.push(Frame::Give(if post { before } else { v })); self.assign_to(operand, v, env);
    }

    /// Goes on with `delete` once the object is there.
    pub(crate) fn delete_base(&mut self, e: &'a Expr, env: usize)
        ensures
            final(self)@ == old(self)@.delete_base(e, env),
    {
        let base = self.value();
        match e {
            Expr::Member { prop, computed, .. } => {
                match computed {
                    Some(x) => { self.push(Frame::DeleteKey(base)); self.push(Frame::ToKey); self.push(Frame::Expr(&**x, env)); },
                    None => {
                        let k = self.intern_name(prop);
                        self.delete_from(base, k);
                    },
                }
            },
            _ => {},
        }
    }

    /// Deletes the property under a computed key.
    pub(crate) fn delete_key(&mut self, base: Value)
        ensures
            final(self)@ == old(self)@.delete_key(base),
    {
        let k = self.key();
        self.delete_from(base, k);
    }

    /// Deletes a property.
    pub(crate) fn delete_from(&mut self, base: Value, key: usize)
        ensures
            final(self)@ == old(self)@.delete_from(base, key),
    {
        let d = self.delete(base, key);
        match d {
            Deletion::Yes => { self.ret(Value::Boolean(true)); },
            Deletion::No => { self.ret(Value::Boolean(false)); },
            Deletion::Refused => { self.throw_type("Cannot delete property"); },
        }
    }

    /// Evaluates one of the two branches.
    pub(crate) fn ternary_end(&mut self, e: &'a Expr, env: usize)
        ensures
            final(self)@ == old(self)@.ternary_end(e, env),
    {
        let v = self.value();
        match e {
            Expr::Ternary { yes, no, .. } => {
                if self.truthy(v) {
                    self.push(Frame::Expr(&**yes, env));
                } else {
                    self.push(Frame::Expr(&**no, env));
                }
            },
            _ => {},
        }
    }

    /// Assigns the value to a target; the value is the result.
    pub(crate) fn assign_end(&mut self, target: &'a AssignTarget, env: usize)
        ensures
            final(self)@ == old(self)@.assign_end(target, env),
    {
        let v = self.value();
        match target {
            AssignTarget::Expr(e) => { self.assign_to(&**e, v, env); },
            AssignTarget::Pattern(p) => { self.push(Frame::Give(v)); self.push(Frame::Bind(p, env, Mode::Assign)); self.ret(v); },
        }
    }

    /// Assigns a value to a name or a member.
    pub(crate) fn assign_to(&mut self, target: &'a Expr, v: Value, env: usize)
        ensures
            final(self)@ == old(self)@.assign_to(target, v, env),
    {
        match target {
            Expr::Ident(t) => {
                let a = self.intern_name(t);
                if self.is_const(env, a) {
                    self.throw_type("Assignment to constant variable");
                } else if self.global_writable(a) {
                    self.assign(env, a, v); self.ret(v);
                } else {
                    self.ret(v);
                }
            },
            Expr::Member { obj, .. } => { self.push(Frame::AssignBase(target, env, v)); self.push(Frame::Expr(&**obj, env)); },
            _ => { self.throw_text("invalid assignment target"); },
        }
    }

    /// Goes on with a member assignment once the object is there.
    pub(crate) fn assign_base(&mut self, e: &'a Expr, env: usize, v: Value)
        ensures
            final(self)@ == old(self)@.assign_base(e, env, v),
    {
        let base = self.value();
        match e {
            Expr::Member { prop, computed, .. } => {
                match computed {
                    Some(x) => { self.push(Frame::AssignKey(base, v)); self.push(Frame::ToKey); self.push(Frame::Expr(&**x, env)); },
                    None => {
                        let k = self.intern_name(prop);
                        self.put_member(base, k, v);
                    },
                }
            },
            _ => {},
        }
    }

    /// Writes a member under a computed key.
    pub(crate) fn assign_key(&mut self, base: Value, v: Value)
        ensures
            final(self)@ == old(self)@.assign_key(base, v),
    {
        let k = self.key();
        self.put_member(base, k, v);
    }

    /// Writes a member; `null` and `undefined` have none.
    pub(crate) fn put_member(&mut self, base: Value, key: usize, v: Value)
        ensures
            final(self)@ == old(self)@.put_member(base, key, v),
    {
        if base.is_nullish() {
            self.throw_nullish("set", "setting", base, key);
        } else {
            let w = self.write(base, key, v);
            match w {
                Write::Done => { self.ret(v); },
                Write::Setter(f) => {
                    let l = self.list1(v);
                    self.push(Frame::Give(v)); self.push(Frame::Call { func: f, this: base, list: l });
                },
                Write::NoSetter => { self.throw_type("Assignment to a property with no setter"); },
                Write::ReadOnly => { self.throw_type("Assignment to a read-only property"); },
                Write::NeedsNumber => { self.push(Frame::Give(v)); self.push(Frame::SetNumber(base)); self.push(Frame::Num(v)); },
            }
        }
    }

    /// Stores the number that a length or `lastIndex` was converted to.
    pub(crate) fn number_set(&mut self, base: Value)
        ensures
            final(self)@ == old(self)@.number_set(base),
    {
        let x = self.bits();
        self.set_number(base, x);
    }

    /// Evaluates the elements of an array literal into a list.
    pub(crate) fn eval_array_elems(&mut self, list: &'a Vec<ArrayElem>, i: usize, env: usize, l: usize)
        ensures
            final(self)@ == old(self)@.eval_array_elems(list, i, env, l),
    {
        match nth(list, i) {
            Some(el) => {
                match el {
                    ArrayElem::Expr(x) => { self.push(Frame::Elems(list, next(i), env, l)); self.push(Frame::Append(l)); self.push(Frame::Expr(x, env)); },
                    ArrayElem::Spread(x) => { self.push(Frame::Elems(list, next(i), env, l)); self.push(Frame::Spread(l)); self.push(Frame::Expr(x, env)); },
                    ArrayElem::Elision => { self.append(l, Value::Undefined); self.push(Frame::Elems(list, next(i), env, l)); },
                }
            },
            None => {},
        }
    }

    /// Makes an array of a list.
    pub(crate) fn make_array(&mut self, list: usize)
        ensures
            final(self)@ == old(self)@.make_array(list),
    {
        let a = self.array_from(list, 0);
        self.ret(Value::Array(a));
    }

    /// Evaluates the properties of an object literal.
    pub(crate) fn eval_object_props(&mut self, list: &'a Vec<Prop>, i: usize, env: usize, o: usize)
        ensures
            final(self)@ == old(self)@.eval_object_props(list, i, env, o),
    {
        match nth(list, i) {
            Some(p) => {
                match p {
                    Prop::Init { key, value } => { self.push(Frame::Props(list, next(i), env, o)); self.push(Frame::PropValue(key, env, o)); self.push(Frame::Expr(value, env)); },
                    Prop::Method { key, .. } => { self.push(Frame::Props(list, next(i), env, o)); self.push(Frame::PropMethod(p, env, o)); self.key_start(key, env); },
                    Prop::Accessor { key, .. } => { self.push(Frame::Props(list, next(i), env, o)); self.push(Frame::PropMethod(p, env, o)); self.key_start(key, env); },
                    Prop::Spread(x) => { self.push(Frame::Props(list, next(i), env, o)); self.push(Frame::PropSpread(o)); self.push(Frame::Expr(x, env)); },
                }
            },
            None => {},
        }
    }

    /// Evaluates the key once the value is there.
    pub(crate) fn prop_value(&mut self, key: &'a PropKey, env: usize, o: usize)
        ensures
            final(self)@ == old(self)@.prop_value(key, env, o),
    {
        let v = self.value();
        self.push(Frame::PropStore(o, v)); self.key_start(key, env);
    }

    /// Stores a property of an object literal.
    pub(crate) fn prop_store(&mut self, o: usize, v: Value)
        ensures
            final(self)@ == old(self)@.prop_store(o, v),
    {
        let k = self.key();
        self.set_field(o, k, v);
    }

    /// Defines a method or an accessor once the key is there.
    pub(crate) fn prop_method(&mut self, p: &'a Prop, env: usize, o: usize)
        ensures
            final(self)@ == old(self)@.prop_method(p, env, o),
    {
        let k = self.key();
        match p {
            Prop::Method { params, body, .. } => {
                let f = self.make_function(k, Some(params), body, env, None);
                self.set_field(o, k, f);
            },
            Prop::Accessor { get, params, body, .. } => {
                let f = self.make_function(k, Some(params), body, env, None);
                if *get {
                    self.accessor(o, k, Some(f), None);
                } else {
                    self.accessor(o, k, None, Some(f));
                }
            },
            _ => {},
        }
    }

    /// Copies the enumerable properties of a spread value.
    pub(crate) fn prop_spread(&mut self, o: usize)
        ensures
            final(self)@ == old(self)@.prop_spread(o),
    {
        let v = self.value();
        let source = self.object_of(v);
        match source {
            Some(x) => { self.spread_into(x, o); },
            None => { self.throw_text("TypeError: cannot destructure non-object"); },
        }
    }

    /// Evaluates the literal parts of a tagged template once the tag is there.
    pub(crate) fn tag_func(&mut self, e: &'a Expr, env: usize)
        ensures
            final(self)@ == old(self)@.tag_func(e, env),
    {
        let f = self.value();
        match e {
            Expr::Tagged { cooked, subs, .. } => {
                let l = self.new_list();
                self.push(Frame::TagCooked { func: f, subs: subs, env: env, list: l }); self.push(Frame::Exprs(cooked, 0, env, l));
            },
            _ => {},
        }
    }

    /// Evaluates expressions into a list.
    pub(crate) fn eval_expr_list(&mut self, list: &'a Vec<Expr>, i: usize, env: usize, l: usize)
        ensures
            final(self)@ == old(self)@.eval_expr_list(list, i, env, l),
    {
        match nth(list, i) {
            Some(x) => { self.push(Frame::Exprs(list, next(i), env, l)); self.push(Frame::Append(l)); self.push(Frame::Expr(x, env)); },
            None => {},
        }
    }

    /// Calls the tag with the literal parts and the substitutions.
    pub(crate) fn tag_cooked(&mut self, func: Value, subs: &'a Vec<Expr>, env: usize, list: usize)
        ensures
            final(self)@ == old(self)@.tag_cooked(func, subs, env, list),
    {
        let a = self.array_from(list, 0);
        let l = self.list1(Value::Array(a));
        self.push(Frame::Call { func: func, this: Value::Undefined, list: l }); self.push(Frame::Exprs(subs, 0, env, l));
    }

    /// Gathers a yielded value, or gives it where nothing gathers.
    pub(crate) fn yielded(&mut self, v: Value)
        ensures
            final(self)@ == old(self)@.yielded(v),
    {
        match self.yield_sink() {
            Some(l) => { self.append(l, v); self.ret(Value::Undefined); },
            None => { self.ret(v); },
        }
    }

    /// Yields the value.
    pub(crate) fn yield_end(&mut self)
        ensures
            final(self)@ == old(self)@.yield_end(),
    {
        let v = self.value();
        self.yielded(v);
    }

    /// Starts to evaluate a class.
    pub(crate) fn eval_class(&mut self, c: &'a Class, env: usize)
        ensures
            final(self)@ == old(self)@.eval_class(c, env),
    {
        match &c.extends {
            Some(x) => { self.push(Frame::ClassParent(c, env)); self.push(Frame::Expr(&**x, env)); },
            None => { self.class_start(c, None, env); },
        }
    }

    /// Goes on with a class once its parent is there.
    pub(crate) fn eval_class_with_parent(&mut self, c: &'a Class, env: usize)
        ensures
            final(self)@ == old(self)@.eval_class_with_parent(c, env),
    {
        let p = self.value();
        self.class_start(c, Some(p), env);
    }

    /// Makes the prototype object of a class, then evaluates the keys of its instance
    /// fields.
    pub(crate) fn class_start(&mut self, c: &'a Class, parent: Option<Value>, env: usize)
        ensures
            final(self)@ == old(self)@.class_start(c, parent, env),
    {
        let top = self.b().object_prototype;
        let base = match parent {
            Some(p) => or_else(self.proto_of(p), top),
            None => top,
        };
        let proto = self.make_object(base);
        let l = self.new_list();
        self.push(Frame::ClassKeys { class: c, env: env, parent: parent, proto: proto, base: base, i: 0, list: l });
    }

    /// Evaluates the keys of the instance fields, then makes the constructor.
    pub(crate) fn eval_class_field_keys(&mut self, class: &'a Class, env: usize, parent: Option<Value>, proto: usize, base: usize, i: usize, list: usize)
        ensures
            final(self)@ == old(self)@.eval_class_field_keys(class, env, parent, proto, base, i, list),
    {
        match nth(&class.elements, i) {
            Some(el) => {
                match instance_key(el) {
                    Some(key) => {
                        self.push(Frame::ClassKeys { class: class, env: env, parent: parent, proto: proto, base: base, i: next(i), list: list }); self.push(Frame::Append(list)); self.key_start(key, env);
                    },
                    None => { self.push(Frame::ClassKeys { class: class, env: env, parent: parent, proto: proto, base: base, i: next(i), list: list }); },
                }
            },
            None => {
                let ctor = self.class_ctor(class, parent, proto, base, env, list);
                self.push(Frame::Give(Value::Function(ctor))); self.push(Frame::ClassStaticMethods { class: class, env: env, ctor: ctor, i: 0 }); self.push(Frame::ClassStatics { class: class, env: env, ctor: ctor, i: 0 }); self.push(Frame::ClassMethods { class: class, env: env, ctor: ctor, proto: proto, base: base, i: 0 });
            },
        }
    }

    /// Defines the instance methods.
    pub(crate) fn eval_class_inst_methods(&mut self, class: &'a Class, env: usize, ctor: usize, proto: usize, base: usize, i: usize)
        ensures
            final(self)@ == old(self)@.eval_class_inst_methods(class, env, ctor, proto, base, i),
    {
        match nth(&class.elements, i) {
            Some(el) => {
                match method_key(el, false) {
                    Some(key) => {
                        self.push(Frame::ClassMethods { class: class, env: env, ctor: ctor, proto: proto, base: base, i: next(i) }); self.push(Frame::ClassMethodKey { class: class, env: env, ctor: ctor, proto: proto, base: base, i: i }); self.key_start(key, env);
                    },
                    None => { self.push(Frame::ClassMethods { class: class, env: env, ctor: ctor, proto: proto, base: base, i: next(i) }); },
                }
            },
            None => {},
        }
    }

    /// Defines an instance method once its key is there.
    pub(crate) fn class_method_key(&mut self, class: &'a Class, env: usize, proto: usize, base: usize, i: usize)
        ensures
            final(self)@ == old(self)@.class_method_key(class, env, proto, base, i),
    {
        let k = self.key();
        match nth(&class.elements, i) {
            Some(el) => {
                match el {
                    ClassElem::Method { get, params, body, .. } => {
                        let f = self.make_function(k, Some(params), body, env, None);
                        self.set_super(f, base);
                        if *get {
                            self.accessor(proto, k, Some(f), None);
                        } else {
                            self.set_field(proto, k, f);
                        }
                    },
                    _ => {},
                }
            },
            None => {},
        }
    }

    /// Defines the static fields.
    pub(crate) fn eval_class_static_fields(&mut self, class: &'a Class, env: usize, ctor: usize, i: usize)
        ensures
            final(self)@ == old(self)@.eval_class_static_fields(class, env, ctor, i),
    {
        match nth(&class.elements, i) {
            Some(el) => {
                match static_key(el) {
                    Some(key) => {
                        self.push(Frame::ClassStatics { class: class, env: env, ctor: ctor, i: next(i) }); self.push(Frame::ClassStaticKey { class: class, env: env, ctor: ctor, i: i }); self.key_start(key, env);
                    },
                    None => { self.push(Frame::ClassStatics { class: class, env: env, ctor: ctor, i: next(i) }); },
                }
            },
            None => {},
        }
    }

    /// Evaluates a static field once its key is there.
    pub(crate) fn class_static_key(&mut self, class: &'a Class, env: usize, ctor: usize, i: usize)
        ensures
            final(self)@ == old(self)@.class_static_key(class, env, ctor, i),
    {
        let k = self.key();
        match nth(&class.elements, i) {
            Some(el) => {
                match field_value(el) {
                    Some(x) => { self.push(Frame::ClassStaticValue { ctor: ctor, key: k }); self.push(Frame::Expr(x, env)); },
                    None => { self.set_field(ctor, k, Value::Undefined); },
                }
            },
            None => {},
        }
    }

    /// Stores a static field.
    pub(crate) fn class_static_value(&mut self, ctor: usize, key: usize)
        ensures
            final(self)@ == old(self)@.class_static_value(ctor, key),
    {
        let v = self.value();
        self.set_field(ctor, key, v);
    }

    /// Defines the static methods.
    pub(crate) fn eval_class_static_methods(&mut self, class: &'a Class, env: usize, ctor: usize, i: usize)
        ensures
            final(self)@ == old(self)@.eval_class_static_methods(class, env, ctor, i),
    {
        match nth(&class.elements, i) {
            Some(el) => {
                match method_key(el, true) {
                    Some(key) => {
                        self.push(Frame::ClassStaticMethods { class: class, env: env, ctor: ctor, i: next(i) }); self.push(Frame::ClassStaticMethodKey { class: class, env: env, ctor: ctor, i: i }); self.key_start(key, env);
                    },
                    None => { self.push(Frame::ClassStaticMethods { class: class, env: env, ctor: ctor, i: next(i) }); },
                }
            },
            None => {},
        }
    }

    /// Defines a static method once its key is there.
    pub(crate) fn class_static_method_key(&mut self, class: &'a Class, env: usize, ctor: usize, i: usize)
        ensures
            final(self)@ == old(self)@.class_static_method_key(class, env, ctor, i),
    {
        let k = self.key();
        match nth(&class.elements, i) {
            Some(el) => {
                match el {
                    ClassElem::Method { get, params, body, .. } => {
                        let f = self.make_function(k, Some(params), body, env, None);
                        if *get {
                            self.accessor(ctor, k, Some(f), None);
                        } else {
                            self.set_field(ctor, k, f);
                        }
                    },
                    _ => {},
                }
            },
            None => {},
        }
    }
}

} // verus!
