//! Transitions that destructure and iterate.
use vstd::prelude::*;
use crate::ast::Pattern;
use crate::engine::{Engine, EngineView, Frame, Mode};
use crate::nth::{next, nth};
use crate::number::to_usize;
use crate::value::Value;

verus! {

impl<'a> EngineView<'a> {
    /// Binds the names of a pattern to the parts of the value, or assigns to them.
    pub open spec fn bind_pattern(self, pat: &'a Pattern, env: usize, mode: Mode) -> EngineView<'a> {
        let s = self;
        let v = s.value();
        match pat {
            Pattern::Ident(t) => {
                let (s, a) = s.intern_name(t);
                match mode {
                    Mode::Bind => s.bind(env, a, v),
                    Mode::Assign => s.assign(env, a, v),
                }
            },
            Pattern::Array { .. } => {
                let (s, l) = s.new_list();
                s.push(Frame::BindElems(pat, env, mode, 0, l)).push(Frame::Iterate(v, l))
            },
            Pattern::Object { .. } => {
                let (s, source) = s.object_of(v);
                match source {
                    Some(o) => s.push(Frame::BindProps(pat, env, mode, 0, o)),
                    None => s.throw_text("TypeError: cannot destructure non-object"),
                }
            },
            Pattern::Member(e) => s.assign_to(&**e, v, env),
            Pattern::Default { inner, default } => {
                if v.is_undefined() {
                    s.push(Frame::Bind(&**inner, env, mode)).push(Frame::Expr(&**default, env))
                } else {
                    s.push(Frame::Bind(&**inner, env, mode)).ret(v)
                }
            },
        }
    }

    /// Binds the elements of an array pattern, then what is left over.
    pub open spec fn bind_elems(self, pat: &'a Pattern, env: usize, mode: Mode, i: usize, list: usize) -> EngineView<'a> {
        let s = self;
        match pat {
            Pattern::Array { elems, rest } => {
                match nth(elems, i) {
                    Some(el) => {
                        match el {
                            Some(p) => {
                                let v = s.list_at(list, i);
                                s.push(Frame::BindElems(pat, env, mode, next(i), list)).push(Frame::Bind(p, env, mode)).ret(v)
                            },
                            None => s.push(Frame::BindElems(pat, env, mode, next(i), list)),
                        }
                    },
                    None => {
                        match rest {
                            Some(r) => {
                                let (s, a) = s.array_from(list, i);
                                s.push(Frame::Bind(&**r, env, mode)).ret(Value::Array(a))
                            },
                            None => s,
                        }
                    },
                }
            },
            _ => s,
        }
    }

    /// Binds the properties of an object pattern, then what is left over.
    pub open spec fn bind_object_props(self, pat: &'a Pattern, env: usize, mode: Mode, i: usize, o: usize) -> EngineView<'a> {
        let s = self;
        match pat {
            Pattern::Object { props, rest } => {
                match nth(props, i) {
                    Some(p) => {
                        s.push(Frame::BindProps(pat, env, mode, next(i), o)).push(Frame::BindKeyed(&p.value, env, mode, o)).key_start(&p.key, env)
                    },
                    None => {
                        match rest {
                            Some(r) => {
                                let (s, x) = s.rest_object(o, props);
                                s.push(Frame::Bind(&**r, env, mode)).ret(Value::Object(x))
                            },
                            None => s,
                        }
                    },
                }
            },
            _ => s,
        }
    }

    /// Binds the property under the key.
    pub open spec fn bind_keyed(self, pat: &'a Pattern, env: usize, mode: Mode, o: usize) -> EngineView<'a> {
        let s = self;
        let k = s.key();
        s.push(Frame::Bind(pat, env, mode)).read_prop(Value::Object(o), k)
    }

    /// Adds what iterating over a value gives to a list. An object's own iterator goes
    /// before the ways of the built-in collections.
    pub open spec fn iterable_values(self, v: Value, list: usize) -> EngineView<'a> {
        let s = self;
        if v.is_object_value() {
            let k = s.n().iterator;
            s.push(Frame::IterCheck(v, list)).read_prop(v, k)
        } else {
            s.iter_stored(v, list)
        }
    }

    /// Iterates by the protocol where the value has an iterator.
    pub open spec fn iter_check(self, v: Value, list: usize) -> EngineView<'a> {
        let s = self;
        let f = s.value();
        if f.is_callable_value() {
            s.iter_protocol(v, list)
        } else {
            s.iter_stored(v, list)
        }
    }

    /// Iterates over a built-in collection.
    pub open spec fn iter_stored(self, v: Value, list: usize) -> EngineView<'a> {
        let s = self;
        match v {
            Value::Array(a) => s.append_stored(list, a),
            Value::String(a) => s.append_chars(list, a),
            Value::MapRef(m) => s.append_entries(list, m),
            Value::SetRef(m) => s.append_set(list, m),
            _ => {
                let k = s.n().iterator;
                s.push(Frame::IterAgain(v, list)).read_prop(v, k)
            },
        }
    }

    /// Iterates by the protocol, or over the numbered properties of an object that has
    /// a length.
    pub open spec fn iter_again(self, v: Value, list: usize) -> EngineView<'a> {
        let s = self;
        let f = s.value();
        if f.is_callable_value() {
            s.iter_protocol(v, list)
        } else {
            match v {
                Value::Object(o) => {
                    match s.own_prop(o, s.n().length) {
                        Some(p) => s.push(Frame::IterLen(v, list)).push(Frame::Num(p.value)),
                        None => s.throw_type("value is not iterable"),
                    }
                },
                _ => s.throw_type("value is not iterable"),
            }
        }
    }

    /// Asks a value for its iterator.
    pub open spec fn iter_protocol(self, v: Value, list: usize) -> EngineView<'a> {
        let s = self;
        let k = s.n().iterator;
        s.push(Frame::IterCall(v, list)).read_prop(v, k)
    }

    /// Makes the iterator.
    pub open spec fn iter_call(self, v: Value, list: usize) -> EngineView<'a> {
        let s = self;
        let f = s.value();
        let (s, l) = s.new_list();
        s.push(Frame::IterObj(list)).push(Frame::Call { func: f, this: v, list: l })
    }

    /// Starts to draw from the iterator.
    pub open spec fn iter_obj(self, list: usize) -> EngineView<'a> {
        let s = self;
        let it = s.value();
        s.iter_next(it, list)
    }

    /// Looks up the method that advances the iterator.
    pub open spec fn iter_next(self, it: Value, list: usize) -> EngineView<'a> {
        let s = self;
        let k = s.n().next;
        s.push(Frame::IterCallNext(it, list)).read_prop(it, k)
    }

    /// Advances the iterator.
    pub open spec fn iter_call_next(self, it: Value, list: usize) -> EngineView<'a> {
        let s = self;
        let f = s.value();
        let (s, l) = s.new_list();
        s.push(Frame::IterRes(it, list)).push(Frame::Call { func: f, this: it, list: l })
    }

    /// Asks a result whether it ends the iteration.
    pub open spec fn iter_res(self, it: Value, list: usize) -> EngineView<'a> {
        let s = self;
        let r = s.value();
        let k = s.n().done;
        s.push(Frame::IterDone(it, list, r)).read_prop(r, k)
    }

    /// Takes the value of a result that does not end the iteration.
    pub open spec fn iter_done(self, it: Value, list: usize, r: Value) -> EngineView<'a> {
        let s = self;
        let d = s.value();
        if s.truthy(d) {
            s
        } else {
            let k = s.n().value;
            s.push(Frame::IterValue(it, list)).read_prop(r, k)
        }
    }

    /// Adds a value and goes on.
    pub open spec fn iter_value(self, it: Value, list: usize) -> EngineView<'a> {
        let s = self;
        let v = s.value();
        s.append(list, v).push(Frame::IterNext(it, list))
    }

    /// Reads the numbered properties below a length.
    pub open spec fn iter_len(self, v: Value, list: usize) -> EngineView<'a> {
        let s = self;
        let n = s.bits();
        s.push(Frame::IterIndex(v, list, 0, to_usize(n)))
    }

    /// Adds the numbered properties of an object.
    pub open spec fn iter_index(self, v: Value, list: usize, i: usize, n: usize) -> EngineView<'a> {
        let s = self;
        if i < n {
            let (s, k) = s.decimal_atom(i);
            s.push(Frame::IterIndex(v, list, next(i), n)).push(Frame::Append(list)).read_prop(v, k)
        } else {
            s
        }
    }
}

impl<'a> Engine<'a> {
    /// Binds the names of a pattern to the parts of the value, or assigns to them.
    pub(crate) fn bind_pattern(&mut self, pat: &'a Pattern, env: usize, mode: Mode)
        ensures
            final(self)@ == old(self)@.bind_pattern(pat, env, mode),
    {
        let v = self.value();
        match pat {
            Pattern::Ident(t) => {
                let a = self.intern_name(t);
                match mode {
                    Mode::Bind => { self.bind(env, a, v); },
                    Mode::Assign => { self.assign(env, a, v); },
                }
            },
            Pattern::Array { .. } => {
                let l = self.new_list();
                self.push(Frame::BindElems(pat, env, mode, 0, l)); self.push(Frame::Iterate(v, l));
            },
            Pattern::Object { .. } => {
                let source = self.object_of(v);
                match source {
                    Some(o) => { self.push(Frame::BindProps(pat, env, mode, 0, o)); },
                    None => { self.throw_text("TypeError: cannot destructure non-object"); },
                }
            },
            Pattern::Member(e) => { self.assign_to(&**e, v, env); },
            Pattern::Default { inner, default } => {
                if v.is_undefined() {
                    self.push(Frame::Bind(&**inner, env, mode)); self.push(Frame::Expr(&**default, env));
                } else {
                    self.push(Frame::Bind(&**inner, env, mode)); self.ret(v);
                }
            },
        }
    }

    /// Binds the elements of an array pattern, then what is left over.
    pub(crate) fn bind_elems(&mut self, pat: &'a Pattern, env: usize, mode: Mode, i: usize, list: usize)
        ensures
            final(self)@ == old(self)@.bind_elems(pat, env, mode, i, list),
    {
        match pat {
            Pattern::Array { elems, rest } => {
                match nth(elems, i) {
                    Some(el) => {
                        match el {
                            Some(p) => {
                                let v = self.list_at(list, i);
                                self.push(Frame::BindElems(pat, env, mode, next(i), list)); self.push(Frame::Bind(p, env, mode)); self.ret(v);
                            },
                            None => { self.push(Frame::BindElems(pat, env, mode, next(i), list)); },
                        }
                    },
                    None => {
                        match rest {
                            Some(r) => {
                                let a = self.array_from(list, i);
                                self.push(Frame::Bind(&**r, env, mode)); self.ret(Value::Array(a));
                            },
                            None => {},
                        }
                    },
                }
            },
            _ => {},
        }
    }

    /// Binds the properties of an object pattern, then what is left over.
    pub(crate) fn bind_object_props(&mut self, pat: &'a Pattern, env: usize, mode: Mode, i: usize, o: usize)
        ensures
            final(self)@ == old(self)@.bind_object_props(pat, env, mode, i, o),
    {
        match pat {
            Pattern::Object { props, rest } => {
                match nth(props, i) {
                    Some(p) => {
                        self.push(Frame::BindProps(pat, env, mode, next(i), o)); self.push(Frame::BindKeyed(&p.value, env, mode, o)); self.key_start(&p.key, env);
                    },
                    None => {
                        match rest {
                            Some(r) => {
                                let x = self.rest_object(o, props);
                                self.push(Frame::Bind(&**r, env, mode)); self.ret(Value::Object(x));
                            },
                            None => {},
                        }
                    },
                }
            },
            _ => {},
        }
    }

    /// Binds the property under the key.
    pub(crate) fn bind_keyed(&mut self, pat: &'a Pattern, env: usize, mode: Mode, o: usize)
        ensures
            final(self)@ == old(self)@.bind_keyed(pat, env, mode, o),
    {
        let k = self.key();
        self.push(Frame::Bind(pat, env, mode)); self.read_prop(Value::Object(o), k);
    }

    /// Adds what iterating over a value gives to a list. An object's own iterator goes
    /// before the ways of the built-in collections.
    pub(crate) fn iterable_values(&mut self, v: Value, list: usize)
        ensures
            final(self)@ == old(self)@.iterable_values(v, list),
    {
        if v.is_object_value() {
            let k = self.n().iterator;
            self.push(Frame::IterCheck(v, list)); self.read_prop(v, k);
        } else {
            self.iter_stored(v, list);
        }
    }

    /// Iterates by the protocol where the value has an iterator.
    pub(crate) fn iter_check(&mut self, v: Value, list: usize)
        ensures
            final(self)@ == old(self)@.iter_check(v, list),
    {
        let f = self.value();
        if f.is_callable_value() {
            self.iter_protocol(v, list);
        } else {
            self.iter_stored(v, list);
        }
    }

    /// Iterates over a built-in collection.
    pub(crate) fn iter_stored(&mut self, v: Value, list: usize)
        ensures
            final(self)@ == old(self)@.iter_stored(v, list),
    {
        match v {
            Value::Array(a) => { self.append_stored(list, a); },
            Value::String(a) => { self.append_chars(list, a); },
            Value::MapRef(m) => { self.append_entries(list, m); },
            Value::SetRef(m) => { self.append_set(list, m); },
            _ => {
                let k = self.n().iterator;
                self.push(Frame::IterAgain(v, list)); self.read_prop(v, k);
            },
        }
    }

    /// Iterates by the protocol, or over the numbered properties of an object that has
    /// a length.
    pub(crate) fn iter_again(&mut self, v: Value, list: usize)
        ensures
            final(self)@ == old(self)@.iter_again(v, list),
    {
        let f = self.value();
        if f.is_callable_value() {
            self.iter_protocol(v, list);
        } else {
            match v {
                Value::Object(o) => {
                    match self.own_prop(o, self.n().length) {
                        Some(p) => { self.push(Frame::IterLen(v, list)); self.push(Frame::Num(p.value)); },
                        None => { self.throw_type("value is not iterable"); },
                    }
                },
                _ => { self.throw_type("value is not iterable"); },
            }
        }
    }

    /// Asks a value for its iterator.
    pub(crate) fn iter_protocol(&mut self, v: Value, list: usize)
        ensures
            final(self)@ == old(self)@.iter_protocol(v, list),
    {
        let k = self.n().iterator;
        self.push(Frame::IterCall(v, list)); self.read_prop(v, k);
    }

    /// Makes the iterator.
    pub(crate) fn iter_call(&mut self, v: Value, list: usize)
        ensures
            final(self)@ == old(self)@.iter_call(v, list),
    {
        let f = self.value();
        let l = self.new_list();
        self.push(Frame::IterObj(list)); self.push(Frame::Call { func: f, this: v, list: l });
    }

    /// Starts to draw from the iterator.
    pub(crate) fn iter_obj(&mut self, list: usize)
        ensures
            final(self)@ == old(self)@.iter_obj(list),
    {
        let it = self.value();
        self.iter_next(it, list);
    }

    /// Looks up the method that advances the iterator.
    pub(crate) fn iter_next(&mut self, it: Value, list: usize)
        ensures
            final(self)@ == old(self)@.iter_next(it, list),
    {
        let k = self.n().next;
        self.push(Frame::IterCallNext(it, list)); self.read_prop(it, k);
    }

    /// Advances the iterator.
    pub(crate) fn iter_call_next(&mut self, it: Value, list: usize)
        ensures
            final(self)@ == old(self)@.iter_call_next(it, list),
    {
        let f = self.value();
        let l = self.new_list();
        self.push(Frame::IterRes(it, list)); self.push(Frame::Call { func: f, this: it, list: l });
    }

    /// Asks a result whether it ends the iteration.
    pub(crate) fn iter_res(&mut self, it: Value, list: usize)
        ensures
            final(self)@ == old(self)@.iter_res(it, list),
    {
        let r = self.value();
        let k = self.n().done;
        self.push(Frame::IterDone(it, list, r)); self.read_prop(r, k);
    }

    /// Takes the value of a result that does not end the iteration.
    pub(crate) fn iter_done(&mut self, it: Value, list: usize, r: Value)
        ensures
            final(self)@ == old(self)@.iter_done(it, list, r),
    {
        let d = self.value();
        if self.truthy(d) {

        } else {
            let k = self.n().value;
            self.push(Frame::IterValue(it, list)); self.read_prop(r, k);
        }
    }

    /// Adds a value and goes on.
    pub(crate) fn iter_value(&mut self, it: Value, list: usize)
        ensures
            final(self)@ == old(self)@.iter_value(it, list),
    {
        let v = self.value();
        self.append(list, v); self.push(Frame::IterNext(it, list));
    }

    /// Reads the numbered properties below a length.
    pub(crate) fn iter_len(&mut self, v: Value, list: usize)
        ensures
            final(self)@ == old(self)@.iter_len(v, list),
    {
        let n = self.bits();
        self.push(Frame::IterIndex(v, list, 0, to_usize(n)));
    }

    /// Adds the numbered properties of an object.
    pub(crate) fn iter_index(&mut self, v: Value, list: usize, i: usize, n: usize)
        ensures
            final(self)@ == old(self)@.iter_index(v, list, i, n),
    {
        if i < n {
            let k = self.decimal_atom(i);
            self.push(Frame::IterIndex(v, list, next(i), n)); self.push(Frame::Append(list)); self.read_prop(v, k);
        } else {

        }
    }
}

} // verus!
