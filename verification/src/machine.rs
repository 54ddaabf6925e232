//! The machine: one step, and many.
use vstd::prelude::*;
use crate::engine::{Completion, Engine, EngineView, Frame};
use crate::number::{is_nan, trunc};
use crate::value::Value;

verus! {

/// Whether a frame looks at an abrupt completion; others are skipped by it.
#[verifier::allow_in_spec]
pub fn catches(f: &Frame) -> (r: bool)
    returns
        (match f {
            Frame::Barrier => true,
            Frame::Restore(..) => true,
            Frame::Swallow => true,
            Frame::Stmts(..) => true,
            Frame::IfEnd => true,
            Frame::TryEnd(..) => true,
            Frame::CatchEnd(..) => true,
            Frame::SwitchRun { .. } => true,
            Frame::EachStep { .. } => true,
            Frame::ForStep { .. } => true,
            Frame::WhileStep { .. } => true,
            Frame::DoStep { .. } => true,
            Frame::LabelEnd(..) => true,
            Frame::CallEnd => true,
            Frame::NativeEnd(..) => true,
            Frame::ConstructEnd { .. } => true,
            Frame::NativeCtorEnd { .. } => true,
            Frame::DerivedEnd { .. } => true,
            Frame::GeneratorEnd { .. } => true,
            Frame::AsyncEnd { .. } => true,
            Frame::AsyncTail { .. } => true,
            Frame::ThenGot(..) => true,
            Frame::AwaitThen { .. } => true,
            Frame::ThenEnd(..) => true,
            Frame::FinallyDone { .. } => true,
            Frame::CustomEnd { .. } => true,
            Frame::CustomCallEnd => true,
            Frame::ThenableEnd(..) => true,
            Frame::MicrotaskEnd => true,
            Frame::TimerEnd(..) => true,
            Frame::EvalEnd => true,
            Frame::CapEnd(..) => true,
            _ => false,
        }),
{
    match f {
        Frame::Barrier => true,
        Frame::Restore(..) => true,
        Frame::Swallow => true,
        Frame::Stmts(..) => true,
        Frame::IfEnd => true,
        Frame::TryEnd(..) => true,
        Frame::CatchEnd(..) => true,
        Frame::SwitchRun { .. } => true,
        Frame::EachStep { .. } => true,
        Frame::ForStep { .. } => true,
        Frame::WhileStep { .. } => true,
        Frame::DoStep { .. } => true,
        Frame::LabelEnd(..) => true,
        Frame::CallEnd => true,
        Frame::NativeEnd(..) => true,
        Frame::ConstructEnd { .. } => true,
        Frame::NativeCtorEnd { .. } => true,
        Frame::DerivedEnd { .. } => true,
        Frame::GeneratorEnd { .. } => true,
        Frame::AsyncEnd { .. } => true,
        Frame::AsyncTail { .. } => true,
        Frame::ThenGot(..) => true,
        Frame::AwaitThen { .. } => true,
        Frame::ThenEnd(..) => true,
        Frame::FinallyDone { .. } => true,
        Frame::CustomEnd { .. } => true,
        Frame::CustomCallEnd => true,
        Frame::ThenableEnd(..) => true,
        Frame::MicrotaskEnd => true,
        Frame::TimerEnd(..) => true,
        Frame::EvalEnd => true,
        Frame::CapEnd(..) => true,
        _ => false,
    }
}

/// Whether a completion is abrupt.
#[verifier::allow_in_spec]
pub fn abrupt(c: Completion) -> (r: bool)
    returns
        !(c is Normal),
{
    !matches!(c, Completion::Normal(_))
}

impl<'a> EngineView<'a> {
    /// Takes the top frame off the stack.
    pub open spec fn pop(self) -> (EngineView<'a>, Option<Frame<'a>>) {
        if self.frames.len() == 0 {
            (self, None)
        } else {
            (EngineView { frames: self.frames.drop_last(), ..self }, Some(self.frames.last()))
        }
    }

    /// Whether the machine can go on: it waits for no answer and has not handed control
    /// back.
    pub open spec fn ready(self) -> bool {
        self.pending is None && !self.halted
    }

    /// Turns a failure into `undefined`.
    pub open spec fn swallow(self) -> EngineView<'a> {
        let s = self;
        match s.completion() {
            Completion::Normal(_) => s,
            _ => s.ret(Value::Undefined),
        }
    }

    /// Rounds a number toward zero; what is none becomes zero.
    pub open spec fn integer_end(self) -> EngineView<'a> {
        let s = self;
        let x = s.bits();
        if is_nan(x) {
            s.ret(Value::Number(0))
        } else {
            s.ret(Value::Number(trunc(x)))
        }
    }

    /// Does what a frame of access to members and calls stands for.
    #[verifier::opaque]
    pub open spec fn dispatch_member(self, f: Frame<'a>) -> EngineView<'a> {
        let s = self;
        match f {
            Frame::Barrier => s.halt(),
            Frame::Give(v) => s.ret(v),
            Frame::Restore(c) => s.done(c),
            Frame::Swallow => s.swallow(),
            Frame::Expr(e, env) => s.eval_expr(e, env),
            Frame::Member(e, env) => s.member(e, env),
            Frame::MemberKey(base) => s.member_key(base),
            Frame::ToKey => s.to_property_key(),
            Frame::KeyText => s.key_text(),
            Frame::CallBase(e, env, tail) => s.call_base(e, env, tail),
            Frame::CallKey(e, env, base, tail) => s.call_key(e, env, base, tail),
            Frame::CallFunc(e, env, this, tail) => s.call_func(e, env, this, tail),
            Frame::Args(args, i, env, list) => s.eval_args(args, i, env, list),
            Frame::Append(list) => s.append_end(list),
            Frame::SpreadArg(list) => s.spread_arg(list),
            Frame::Spread(list) => s.spread(list),
            Frame::Apply { func, this, list, tail } => s.apply(func, this, list, tail),
            Frame::NewFunc(e, env) => s.new_func(e, env),
            Frame::Construct { func, list } => s.construct(func, list, func),
            Frame::SuperCall { ctor, list, env } => s.super_call(ctor, list, env),
            Frame::SuperDone(env) => s.super_done(env),
            _ => s,
        }
    }

    /// Does what a frame of operators and assignments stands for.
    #[verifier::opaque]
    pub open spec fn dispatch_operator(self, f: Frame<'a>) -> EngineView<'a> {
        let s = self;
        match f {
            Frame::Sequence(list, i, env) => s.sequence(list, i, env),
            Frame::InstanceRight(e, env) => s.instance_right(e, env),
            Frame::InstanceEnd(l) => s.eval_instance_of(l),
            Frame::BinaryRight(op, e, env) => s.binary_right(op, e, env),
            Frame::BinaryEnd(op, l) => s.binary_end(op, l),
            Frame::LogicalEnd(op, e, env) => s.logical_end(op, e, env),
            Frame::UnaryEnd(e, env) => s.eval_unary_value(e, env),
            Frame::Negate => s.negate_end(),
            Frame::BitNot => s.bit_not_end(),
            Frame::IncEnd { add, post, operand, env, before } => s.inc_end(add, post, operand, env, before),
            Frame::IncStore { post, operand, env, before } => s.inc_store(post, operand, env, before),
            Frame::DeleteBase(e, env) => s.delete_base(e, env),
            Frame::DeleteKey(base) => s.delete_key(base),
            Frame::TernaryEnd(e, env) => s.ternary_end(e, env),
            Frame::AssignEnd(target, env) => s.assign_end(target, env),
            Frame::AssignBase(e, env, v) => s.assign_base(e, env, v),
            Frame::AssignKey(base, v) => s.assign_key(base, v),
            Frame::SetNumber(base) => s.number_set(base),
            _ => s,
        }
    }

    /// Does what a frame of literals stands for.
    #[verifier::opaque]
    pub open spec fn dispatch_literal(self, f: Frame<'a>) -> EngineView<'a> {
        let s = self;
        match f {
            Frame::Elems(list, i, env, l) => s.eval_array_elems(list, i, env, l),
            Frame::MakeArray(l) => s.make_array(l),
            Frame::Props(list, i, env, o) => s.eval_object_props(list, i, env, o),
            Frame::PropValue(key, env, o) => s.prop_value(key, env, o),
            Frame::PropStore(o, v) => s.prop_store(o, v),
            Frame::PropMethod(p, env, o) => s.prop_method(p, env, o),
            Frame::PropSpread(o) => s.prop_spread(o),
            Frame::StringOf => s.string_of(),
            Frame::TagFunc(e, env) => s.tag_func(e, env),
            Frame::TagCooked { func, subs, env, list } => s.tag_cooked(func, subs, env, list),
            Frame::Exprs(list, i, env, l) => s.eval_expr_list(list, i, env, l),
            Frame::AwaitEnd => s.await_end(),
            Frame::YieldEnd => s.yield_end(),
            _ => s,
        }
    }

    /// Does what a frame of classes and patterns stands for.
    #[verifier::opaque]
    pub open spec fn dispatch_class(self, f: Frame<'a>) -> EngineView<'a> {
        let s = self;
        match f {
            Frame::ClassParent(c, env) => s.eval_class_with_parent(c, env),
            Frame::ClassKeys { class, env, parent, proto, base, i, list } => s.eval_class_field_keys(class, env, parent, proto, base, i, list),
            Frame::ClassMethods { class, env, ctor, proto, base, i } => s.eval_class_inst_methods(class, env, ctor, proto, base, i),
            Frame::ClassMethodKey { class, env, ctor: _, proto, base, i } => s.class_method_key(class, env, proto, base, i),
            Frame::ClassStatics { class, env, ctor, i } => s.eval_class_static_fields(class, env, ctor, i),
            Frame::ClassStaticKey { class, env, ctor, i } => s.class_static_key(class, env, ctor, i),
            Frame::ClassStaticValue { ctor, key } => s.class_static_value(ctor, key),
            Frame::ClassStaticMethods { class, env, ctor, i } => s.eval_class_static_methods(class, env, ctor, i),
            Frame::ClassStaticMethodKey { class, env, ctor, i } => s.class_static_method_key(class, env, ctor, i),
            Frame::Bind(pat, env, mode) => s.bind_pattern(pat, env, mode),
            Frame::BindElems(pat, env, mode, i, list) => s.bind_elems(pat, env, mode, i, list),
            Frame::BindProps(pat, env, mode, i, o) => s.bind_object_props(pat, env, mode, i, o),
            Frame::BindKeyed(pat, env, mode, o) => s.bind_keyed(pat, env, mode, o),
            Frame::MarkConst(pat, env) => s.mark_const(pat, env),
            Frame::HeadBind => s,
            _ => s,
        }
    }

    /// Does what a frame of conversions stands for.
    #[verifier::opaque]
    pub open spec fn dispatch_conversion(self, f: Frame<'a>) -> EngineView<'a> {
        let s = self;
        match f {
            Frame::ToPrim(hint) => s.to_primitive(hint),
            Frame::PrimExotic(v, hint) => s.prim_exotic(v, hint),
            Frame::PrimEnd => s.prim_end(),
            Frame::PrimTry { value, number_first, second } => s.prim_try(value, number_first, second),
            Frame::PrimCall { value, number_first, second } => s.prim_call(value, number_first, second),
            Frame::PrimGot { value, number_first, second } => s.prim_got(value, number_first, second),
            Frame::Num(v) => s.num(v),
            Frame::Text(v) => s.text(v),
            Frame::TextJoin(a, i, t) => s.text_join(a, i, t),
            Frame::TextItem(a, i, t) => s.text_item(a, i, t),
            Frame::TextSign(minus) => s.text_sign(minus),
            Frame::TextExponent(minus) => s.text_exponent(minus),
            Frame::ConcatRight(v) => s.concat_right(v),
            Frame::ConcatEnd(a) => s.concat_end(a),
            Frame::NumRight(op, v) => s.num_right(op, v),
            Frame::NumEnd(op, x) => s.num_end(op, x),
            Frame::LooseEq(a, b, negate) => s.loose_eq(a, b, negate),
            Frame::LooseOther(b, negate) => s.loose_other(b, negate),
            Frame::InKey(v) => s.in_end(v),
            Frame::ByteLen => s.byte_len_end(),
            _ => s,
        }
    }

    /// Does what a frame of big integers and iteration stands for.
    #[verifier::opaque]
    pub open spec fn dispatch_big(self, f: Frame<'a>) -> EngineView<'a> {
        let s = self;
        match f {
            Frame::BigConcat(v) => s.big_concat(v),
            Frame::BigNumeric(op, v) => s.big_numeric(op, v),
            Frame::BigNumericEnd(op, v) => s.big_numeric_end(op, v),
            Frame::Numeric => s.numeric(),
            Frame::BigAddLeft(v) => s.big_add_left(v),
            Frame::BigAddRight(v) => s.big_add_right(v),
            Frame::BigEqLeft(v, negate) => s.big_eq_left(v, negate),
            Frame::BigEqRight(v, negate) => s.big_eq_right(v, negate),
            Frame::NegateBig => s.negate_big(),
            Frame::BitNotBig => s.bit_not_big(),
            Frame::IncBig { add, post, operand, env, before } => s.inc_big(add, post, operand, env, before),
            Frame::Iterate(v, list) => s.iterable_values(v, list),
            Frame::IterCheck(v, list) => s.iter_check(v, list),
            Frame::IterAgain(v, list) => s.iter_again(v, list),
            Frame::IterCall(v, list) => s.iter_call(v, list),
            Frame::IterObj(list) => s.iter_obj(list),
            Frame::IterNext(it, list) => s.iter_next(it, list),
            Frame::IterCallNext(it, list) => s.iter_call_next(it, list),
            Frame::IterRes(it, list) => s.iter_res(it, list),
            Frame::IterDone(it, list, r) => s.iter_done(it, list, r),
            Frame::IterValue(it, list) => s.iter_value(it, list),
            Frame::IterLen(v, list) => s.iter_len(v, list),
            Frame::IterIndex(v, list, i, n) => s.iter_index(v, list, i, n),
            _ => s,
        }
    }

    /// Does what a frame of statements stands for.
    #[verifier::opaque]
    pub open spec fn dispatch_statement(self, f: Frame<'a>) -> EngineView<'a> {
        let s = self;
        match f {
            Frame::Stmt(x, env, label) => s.eval_stmt(x, env, label),
            Frame::Stmts(list, i, env, last) => s.exec_stmts(list, i, env, last),
            Frame::VarList(list, i, kind, scope, env) => s.eval_var_list(list, i, kind, scope, env),
            Frame::BindDecl(pat, scope, constant) => s.bind_decl(pat, scope, constant),
            Frame::ReturnEnd => s.return_end(),
            Frame::ThrowEnd => s.throw_end(),
            Frame::IfTest(x, env) => s.if_test(x, env),
            Frame::IfEnd => s.if_end(),
            Frame::TryEnd(x, env) => s.try_postprocess(x, env),
            Frame::CatchEnd(x, env) => s.run_finally(x, env),
            Frame::FinallyEnd(c) => s.done(c),
            Frame::SwitchOn(x, env) => s.exec_switch(x, env),
            Frame::SwitchTest { stmt, env, on, i, default } => s.switch_test(stmt, env, on, i, default),
            Frame::SwitchMatch { stmt, env, on, i, default } => s.switch_match(stmt, env, on, i, default),
            Frame::SwitchRun { stmt, env, i, value } => s.exec_switch_from(stmt, env, i, value),
            _ => s,
        }
    }

    /// Does what a frame of loops stands for.
    #[verifier::opaque]
    pub open spec fn dispatch_loop(self, f: Frame<'a>) -> EngineView<'a> {
        let s = self;
        match f {
            Frame::ForInOn(x, env, label) => s.exec_for_in(x, env, label),
            Frame::ForOfOn(x, env, label) => s.exec_for_of(x, env, label),
            Frame::EachNext { stmt, env, label, source, i, value } => s.each_next(stmt, env, label, source, i, value),
            Frame::EachBody { stmt, env, label, source, i, value, body_env } => s.each_body(stmt, env, label, source, i, value, body_env),
            Frame::EachStep { stmt, env, label, source, i, value } => s.each_step(stmt, env, label, source, i, value),
            Frame::ForHead { stmt, env, label, fresh } => s.push(Frame::ForTest { stmt: stmt, env: env, label: label, fresh: fresh, value: Some(Value::Undefined) }),
            Frame::ForTest { stmt, env, label, fresh, value } => s.exec_for_loop(stmt, env, label, fresh, value),
            Frame::ForCond { stmt, env, label, fresh, value } => s.for_cond(stmt, env, label, fresh, value),
            Frame::ForStep { stmt, env, label, fresh, value } => s.for_step(stmt, env, label, fresh, value),
            Frame::WhileTest { stmt, env, label, value } => s.exec_while_loop(stmt, env, label, value),
            Frame::WhileCond { stmt, env, label, value } => s.while_cond(stmt, env, label, value),
            Frame::WhileStep { stmt, env, label, value } => s.while_step(stmt, env, label, value),
            Frame::DoBody { stmt, env, label, value } => s.exec_do_while_loop(stmt, env, label, value),
            Frame::DoStep { stmt, env, label, value } => s.do_step(stmt, env, label, value),
            Frame::DoCond { stmt, env, label, value } => s.do_cond(stmt, env, label, value),
            Frame::LabelEnd(label) => s.label_end(label),
            _ => s,
        }
    }

    /// Does what a frame of calls stands for.
    #[verifier::opaque]
    pub open spec fn dispatch_call(self, f: Frame<'a>) -> EngineView<'a> {
        let s = self;
        match f {
            Frame::Call { func, this, list } => s.call_function(func, this, list),
            Frame::CallEnd => s.call_end(),
            Frame::Params(list, i, env, args) => s.bind_params(list, i, env, args),
            Frame::FinishEnv { func, this, list, env } => s.finish_env(func, this, list, env),
            Frame::Body(f, env) => s.body(f, env),
            Frame::Fields(f, i, env) => s.fields(f, i, env),
            Frame::FieldStore(key, env) => s.field_store(key, env),
            Frame::Forward(env) => s.forward(env),
            Frame::NativeEnd(before) => s.set_native_ctor(before),
            Frame::ConstructEnd { inst, target } => s.construct_end(inst, target),
            Frame::NativeCtorEnd { inst, target, realm, ctor } => s.native_ctor_end(inst, target, realm, ctor),
            Frame::DerivedEnd { env, placeholder, target } => s.derived_end(env, placeholder, target),
            Frame::GenFn(g) => s.gen_fn(g),
            Frame::GenThis(g, f) => s.gen_this(g, f),
            Frame::GenArgs(g, f, this) => s.gen_args(g, f, this),
            Frame::GeneratorEnd { generator, list, sink } => s.generator_end(generator, list, sink),
            _ => s,
        }
    }

    /// Does what a frame of promises and jobs stands for.
    #[verifier::opaque]
    pub open spec fn dispatch_promise(self, f: Frame<'a>) -> EngineView<'a> {
        let s = self;
        match f {
            Frame::AsyncEnd { cap, resumed } => s.async_end(cap, resumed),
            Frame::AsyncTail { cap, resumed } => s.async_tail(cap, resumed),
            Frame::Resolve(cap, v) => s.resolve_value(cap, v),
            Frame::ThenGot(cap, v) => s.got_then(cap, v),
            Frame::React(r, how) => s.enqueue_reaction_job(r, how),
            Frame::AwaitThen { awaited, target, cont, cap } => s.await_then(awaited, target, cont, cap),
            Frame::Drain(steps) => s.drain_jobs(steps),
            Frame::ThenEnd(cap) => s.then_end(cap),
            Frame::FinallyDone { cap, original } => s.finally_done(cap, original),
            Frame::FinallyMid { mid, cap, original } => s.finally_mid(mid, cap, original),
            Frame::CustomEnd { resolve, reject } => s.custom_end(resolve, reject),
            Frame::CustomCallEnd => s.job_error(),
            Frame::ThenableEnd(cap) => s.thenable_end(cap),
            Frame::MicrotaskEnd => s.task_end(),
            _ => s,
        }
    }

    /// Does what a frame of timers and what the host starts stands for.
    #[verifier::opaque]
    pub open spec fn dispatch_task(self, f: Frame<'a>) -> EngineView<'a> {
        let s = self;
        match f {
            Frame::Timers(ran, limit) => s.drain_timers(ran, limit),
            Frame::TimerEnd(t, ran, limit) => s.timer_end(t, ran, limit),
            Frame::TimerNext(t, ran, limit) => s.timer_next(t, ran, limit),
            Frame::EvalEnd => s.eval_end(),
            Frame::ProtoOr(d) => s.proto_or(d),
            Frame::SpeciesCtor(d) => s.species_ctor(d),
            Frame::SpeciesEnd(d) => s.species_end(d),
            Frame::CapEnd(id) => s.cap_end(id),
            Frame::NumberEnd => s.number_end(),
            Frame::IntegerEnd => s.integer_end(),
            _ => s,
        }
    }

    /// Does what a frame stands for.
    #[verifier::opaque]
    pub open spec fn dispatch(self, f: Frame<'a>) -> EngineView<'a> {
        let s = self;
        match f {
            Frame::Barrier
            | Frame::Give(..)
            | Frame::Restore(..)
            | Frame::Swallow
            | Frame::Expr(..)
            | Frame::Member(..)
            | Frame::MemberKey(..)
            | Frame::ToKey
            | Frame::KeyText
            | Frame::CallBase(..)
            | Frame::CallKey(..)
            | Frame::CallFunc(..)
            | Frame::Args(..)
            | Frame::Append(..)
            | Frame::SpreadArg(..)
            | Frame::Spread(..)
            | Frame::Apply { .. }
            | Frame::NewFunc(..)
            | Frame::Construct { .. }
            | Frame::SuperCall { .. }
            | Frame::SuperDone(..) => s.dispatch_member(f),
            Frame::Sequence(..)
            | Frame::InstanceRight(..)
            | Frame::InstanceEnd(..)
            | Frame::BinaryRight(..)
            | Frame::BinaryEnd(..)
            | Frame::LogicalEnd(..)
            | Frame::UnaryEnd(..)
            | Frame::Negate
            | Frame::BitNot
            | Frame::IncEnd { .. }
            | Frame::IncStore { .. }
            | Frame::DeleteBase(..)
            | Frame::DeleteKey(..)
            | Frame::TernaryEnd(..)
            | Frame::AssignEnd(..)
            | Frame::AssignBase(..)
            | Frame::AssignKey(..)
            | Frame::SetNumber(..) => s.dispatch_operator(f),
            Frame::Elems(..)
            | Frame::MakeArray(..)
            | Frame::Props(..)
            | Frame::PropValue(..)
            | Frame::PropStore(..)
            | Frame::PropMethod(..)
            | Frame::PropSpread(..)
            | Frame::StringOf
            | Frame::TagFunc(..)
            | Frame::TagCooked { .. }
            | Frame::Exprs(..)
            | Frame::AwaitEnd
            | Frame::YieldEnd => s.dispatch_literal(f),
            Frame::ClassParent(..)
            | Frame::ClassKeys { .. }
            | Frame::ClassMethods { .. }
            | Frame::ClassMethodKey { .. }
            | Frame::ClassStatics { .. }
            | Frame::ClassStaticKey { .. }
            | Frame::ClassStaticValue { .. }
            | Frame::ClassStaticMethods { .. }
            | Frame::ClassStaticMethodKey { .. }
            | Frame::Bind(..)
            | Frame::BindElems(..)
            | Frame::BindProps(..)
            | Frame::BindKeyed(..)
            | Frame::MarkConst(..)
            | Frame::HeadBind => s.dispatch_class(f),
            Frame::ToPrim(..)
            | Frame::PrimExotic(..)
            | Frame::PrimEnd
            | Frame::PrimTry { .. }
            | Frame::PrimCall { .. }
            | Frame::PrimGot { .. }
            | Frame::Num(..)
            | Frame::Text(..)
            | Frame::TextJoin(..)
            | Frame::TextItem(..)
            | Frame::TextSign(..)
            | Frame::TextExponent(..)
            | Frame::ConcatRight(..)
            | Frame::ConcatEnd(..)
            | Frame::NumRight(..)
            | Frame::NumEnd(..)
            | Frame::LooseEq(..)
            | Frame::LooseOther(..)
            | Frame::InKey(..)
            | Frame::ByteLen => s.dispatch_conversion(f),
            Frame::BigConcat(..)
            | Frame::BigNumeric(..)
            | Frame::BigNumericEnd(..)
            | Frame::Numeric
            | Frame::BigAddLeft(..)
            | Frame::BigAddRight(..)
            | Frame::BigEqLeft(..)
            | Frame::BigEqRight(..)
            | Frame::NegateBig
            | Frame::BitNotBig
            | Frame::IncBig { .. }
            | Frame::Iterate(..)
            | Frame::IterCheck(..)
            | Frame::IterAgain(..)
            | Frame::IterCall(..)
            | Frame::IterObj(..)
            | Frame::IterNext(..)
            | Frame::IterCallNext(..)
            | Frame::IterRes(..)
            | Frame::IterDone(..)
            | Frame::IterValue(..)
            | Frame::IterLen(..)
            | Frame::IterIndex(..) => s.dispatch_big(f),
            Frame::Stmt(..)
            | Frame::Stmts(..)
            | Frame::VarList(..)
            | Frame::BindDecl(..)
            | Frame::ReturnEnd
            | Frame::ThrowEnd
            | Frame::IfTest(..)
            | Frame::IfEnd
            | Frame::TryEnd(..)
            | Frame::CatchEnd(..)
            | Frame::FinallyEnd(..)
            | Frame::SwitchOn(..)
            | Frame::SwitchTest { .. }
            | Frame::SwitchMatch { .. }
            | Frame::SwitchRun { .. } => s.dispatch_statement(f),
            Frame::ForInOn(..)
            | Frame::ForOfOn(..)
            | Frame::EachNext { .. }
            | Frame::EachBody { .. }
            | Frame::EachStep { .. }
            | Frame::ForHead { .. }
            | Frame::ForTest { .. }
            | Frame::ForCond { .. }
            | Frame::ForStep { .. }
            | Frame::WhileTest { .. }
            | Frame::WhileCond { .. }
            | Frame::WhileStep { .. }
            | Frame::DoBody { .. }
            | Frame::DoStep { .. }
            | Frame::DoCond { .. }
            | Frame::LabelEnd(..) => s.dispatch_loop(f),
            Frame::Call { .. }
            | Frame::CallEnd
            | Frame::Params(..)
            | Frame::FinishEnv { .. }
            | Frame::Body(..)
            | Frame::Fields(..)
            | Frame::FieldStore(..)
            | Frame::Forward(..)
            | Frame::NativeEnd(..)
            | Frame::ConstructEnd { .. }
            | Frame::NativeCtorEnd { .. }
            | Frame::DerivedEnd { .. }
            | Frame::GenFn(..)
            | Frame::GenThis(..)
            | Frame::GenArgs(..)
            | Frame::GeneratorEnd { .. } => s.dispatch_call(f),
            Frame::AsyncEnd { .. }
            | Frame::AsyncTail { .. }
            | Frame::Resolve(..)
            | Frame::ThenGot(..)
            | Frame::React(..)
            | Frame::AwaitThen { .. }
            | Frame::Drain(..)
            | Frame::ThenEnd(..)
            | Frame::FinallyDone { .. }
            | Frame::FinallyMid { .. }
            | Frame::CustomEnd { .. }
            | Frame::CustomCallEnd
            | Frame::ThenableEnd(..)
            | Frame::MicrotaskEnd => s.dispatch_promise(f),
            Frame::Timers(..)
            | Frame::TimerEnd(..)
            | Frame::TimerNext(..)
            | Frame::EvalEnd
            | Frame::ProtoOr(..)
            | Frame::SpeciesCtor(..)
            | Frame::SpeciesEnd(..)
            | Frame::CapEnd(..)
            | Frame::NumberEnd
            | Frame::IntegerEnd => s.dispatch_task(f),
        }
    }

    /// Performs one step: the top frame is done, or dropped where the completion is
    /// abrupt and the frame does not look at it. An empty stack hands control back.
    pub open spec fn step(self) -> EngineView<'a> {
        let s = self;
        if s.ready() {
            let (s, top) = s.pop();
            match top {
                Some(f) => {
                    if !abrupt(s.completion()) || catches(&f) {
                        s.dispatch(f)
                    } else {
                        s
                    }
                },
                None => s.halt(),
            }
        } else {
            s
        }
    }
}

impl<'a> Engine<'a> {
    /// Takes the top frame off the stack.
    pub(crate) fn pop(&mut self) -> (res: Option<Frame<'a>>)
        ensures
            (final(self)@, res) == old(self)@.pop(),
    {
        self.frames.pop()
    }

    /// Whether the machine can go on: it waits for no answer and has not handed control
    /// back.
    pub(crate) fn ready(&self) -> (res: bool)
        ensures
            res == self@.ready(),
    {
        self.pending.is_none() && !self.halted
    }

    /// Turns a failure into `undefined`.
    pub(crate) fn swallow(&mut self)
        ensures
            final(self)@ == old(self)@.swallow(),
    {
        match self.completion() {
            Completion::Normal(_) => {},
            _ => { self.ret(Value::Undefined); },
        }
    }

    /// Rounds a number toward zero; what is none becomes zero.
    pub(crate) fn integer_end(&mut self)
        ensures
            final(self)@ == old(self)@.integer_end(),
    {
        let x = self.bits();
        if is_nan(x) {
            self.ret(Value::Number(0));
        } else {
            self.ret(Value::Number(trunc(x)));
        }
    }

    /// Does what a frame of access to members and calls stands for.
    pub(crate) fn dispatch_member(&mut self, f: Frame<'a>)
        ensures
            final(self)@ == old(self)@.dispatch_member(f),
    {
        reveal(EngineView::dispatch_member);
        match f {
            Frame::Barrier => { self.halt(); },
            Frame::Give(v) => { self.ret(v); },
            Frame::Restore(c) => { self.done(c); },
            Frame::Swallow => { self.swallow(); },
            Frame::Expr(e, env) => { self.eval_expr(e, env); },
            Frame::Member(e, env) => { self.member(e, env); },
            Frame::MemberKey(base) => { self.member_key(base); },
            Frame::ToKey => { self.to_property_key(); },
            Frame::KeyText => { self.key_text(); },
            Frame::CallBase(e, env, tail) => { self.call_base(e, env, tail); },
            Frame::CallKey(e, env, base, tail) => { self.call_key(e, env, base, tail); },
            Frame::CallFunc(e, env, this, tail) => { self.call_func(e, env, this, tail); },
            Frame::Args(args, i, env, list) => { self.eval_args(args, i, env, list); },
            Frame::Append(list) => { self.append_end(list); },
            Frame::SpreadArg(list) => { self.spread_arg(list); },
            Frame::Spread(list) => { self.spread(list); },
            Frame::Apply { func, this, list, tail } => { self.apply(func, this, list, tail); },
            Frame::NewFunc(e, env) => { self.new_func(e, env); },
            Frame::Construct { func, list } => { self.construct(func, list, func); },
            Frame::SuperCall { ctor, list, env } => { self.super_call(ctor, list, env); },
            Frame::SuperDone(env) => { self.super_done(env); },
            _ => {},
        }
    }

    /// Does what a frame of operators and assignments stands for.
    pub(crate) fn dispatch_operator(&mut self, f: Frame<'a>)
        ensures
            final(self)@ == old(self)@.dispatch_operator(f),
    {
        reveal(EngineView::dispatch_operator);
        match f {
            Frame::Sequence(list, i, env) => { self.sequence(list, i, env); },
            Frame::InstanceRight(e, env) => { self.instance_right(e, env); },
            Frame::InstanceEnd(l) => { self.eval_instance_of(l); },
            Frame::BinaryRight(op, e, env) => { self.binary_right(op, e, env); },
            Frame::BinaryEnd(op, l) => { self.binary_end(op, l); },
            Frame::LogicalEnd(op, e, env) => { self.logical_end(op, e, env); },
            Frame::UnaryEnd(e, env) => { self.eval_unary_value(e, env); },
            Frame::Negate => { self.negate_end(); },
            Frame::BitNot => { self.bit_not_end(); },
            Frame::IncEnd { add, post, operand, env, before } => { self.inc_end(add, post, operand, env, before); },
            Frame::IncStore { post, operand, env, before } => { self.inc_store(post, operand, env, before); },
            Frame::DeleteBase(e, env) => { self.delete_base(e, env); },
            Frame::DeleteKey(base) => { self.delete_key(base); },
            Frame::TernaryEnd(e, env) => { self.ternary_end(e, env); },
            Frame::AssignEnd(target, env) => { self.assign_end(target, env); },
            Frame::AssignBase(e, env, v) => { self.assign_base(e, env, v); },
            Frame::AssignKey(base, v) => { self.assign_key(base, v); },
            Frame::SetNumber(base) => { self.number_set(base); },
            _ => {},
        }
    }

    /// Does what a frame of literals stands for.
    pub(crate) fn dispatch_literal(&mut self, f: Frame<'a>)
        ensures
            final(self)@ == old(self)@.dispatch_literal(f),
    {
        reveal(EngineView::dispatch_literal);
        match f {
            Frame::Elems(list, i, env, l) => { self.eval_array_elems(list, i, env, l); },
            Frame::MakeArray(l) => { self.make_array(l); },
            Frame::Props(list, i, env, o) => { self.eval_object_props(list, i, env, o); },
            Frame::PropValue(key, env, o) => { self.prop_value(key, env, o); },
            Frame::PropStore(o, v) => { self.prop_store(o, v); },
            Frame::PropMethod(p, env, o) => { self.prop_method(p, env, o); },
            Frame::PropSpread(o) => { self.prop_spread(o); },
            Frame::StringOf => { self.string_of(); },
            Frame::TagFunc(e, env) => { self.tag_func(e, env); },
            Frame::TagCooked { func, subs, env, list } => { self.tag_cooked(func, subs, env, list); },
            Frame::Exprs(list, i, env, l) => { self.eval_expr_list(list, i, env, l); },
            Frame::AwaitEnd => { self.await_end(); },
            Frame::YieldEnd => { self.yield_end(); },
            _ => {},
        }
    }

    /// Does what a frame of classes and patterns stands for.
    pub(crate) fn dispatch_class(&mut self, f: Frame<'a>)
        ensures
            final(self)@ == old(self)@.dispatch_class(f),
    {
        reveal(EngineView::dispatch_class);
        match f {
            Frame::ClassParent(c, env) => { self.eval_class_with_parent(c, env); },
            Frame::ClassKeys { class, env, parent, proto, base, i, list } => { self.eval_class_field_keys(class, env, parent, proto, base, i, list); },
            Frame::ClassMethods { class, env, ctor, proto, base, i } => { self.eval_class_inst_methods(class, env, ctor, proto, base, i); },
            Frame::ClassMethodKey { class, env, ctor: _, proto, base, i } => { self.class_method_key(class, env, proto, base, i); },
            Frame::ClassStatics { class, env, ctor, i } => { self.eval_class_static_fields(class, env, ctor, i); },
            Frame::ClassStaticKey { class, env, ctor, i } => { self.class_static_key(class, env, ctor, i); },
            Frame::ClassStaticValue { ctor, key } => { self.class_static_value(ctor, key); },
            Frame::ClassStaticMethods { class, env, ctor, i } => { self.eval_class_static_methods(class, env, ctor, i); },
            Frame::ClassStaticMethodKey { class, env, ctor, i } => { self.class_static_method_key(class, env, ctor, i); },
            Frame::Bind(pat, env, mode) => { self.bind_pattern(pat, env, mode); },
            Frame::BindElems(pat, env, mode, i, list) => { self.bind_elems(pat, env, mode, i, list); },
            Frame::BindProps(pat, env, mode, i, o) => { self.bind_object_props(pat, env, mode, i, o); },
            Frame::BindKeyed(pat, env, mode, o) => { self.bind_keyed(pat, env, mode, o); },
            Frame::MarkConst(pat, env) => { self.mark_const(pat, env); },
            Frame::HeadBind => {},
            _ => {},
        }
    }

    /// Does what a frame of conversions stands for.
    pub(crate) fn dispatch_conversion(&mut self, f: Frame<'a>)
        ensures
            final(self)@ == old(self)@.dispatch_conversion(f),
    {
        reveal(EngineView::dispatch_conversion);
        match f {
            Frame::ToPrim(hint) => { self.to_primitive(hint); },
            Frame::PrimExotic(v, hint) => { self.prim_exotic(v, hint); },
            Frame::PrimEnd => { self.prim_end(); },
            Frame::PrimTry { value, number_first, second } => { self.prim_try(value, number_first, second); },
            Frame::PrimCall { value, number_first, second } => { self.prim_call(value, number_first, second); },
            Frame::PrimGot { value, number_first, second } => { self.prim_got(value, number_first, second); },
            Frame::Num(v) => { self.num(v); },
            Frame::Text(v) => { self.text(v); },
            Frame::TextJoin(a, i, t) => { self.text_join(a, i, t); },
            Frame::TextItem(a, i, t) => { self.text_item(a, i, t); },
            Frame::TextSign(minus) => { self.text_sign(minus); },
            Frame::TextExponent(minus) => { self.text_exponent(minus); },
            Frame::ConcatRight(v) => { self.concat_right(v); },
            Frame::ConcatEnd(a) => { self.concat_end(a); },
            Frame::NumRight(op, v) => { self.num_right(op, v); },
            Frame::NumEnd(op, x) => { self.num_end(op, x); },
            Frame::LooseEq(a, b, negate) => { self.loose_eq(a, b, negate); },
            Frame::LooseOther(b, negate) => { self.loose_other(b, negate); },
            Frame::InKey(v) => { self.in_end(v); },
            Frame::ByteLen => { self.byte_len_end(); },
            _ => {},
        }
    }

    /// Does what a frame of big integers and iteration stands for.
    pub(crate) fn dispatch_big(&mut self, f: Frame<'a>)
        ensures
            final(self)@ == old(self)@.dispatch_big(f),
    {
        reveal(EngineView::dispatch_big);
        match f {
            Frame::BigConcat(v) => { self.big_concat(v); },
            Frame::BigNumeric(op, v) => { self.big_numeric(op, v); },
            Frame::BigNumericEnd(op, v) => { self.big_numeric_end(op, v); },
            Frame::Numeric => { self.numeric(); },
            Frame::BigAddLeft(v) => { self.big_add_left(v); },
            Frame::BigAddRight(v) => { self.big_add_right(v); },
            Frame::BigEqLeft(v, negate) => { self.big_eq_left(v, negate); },
            Frame::BigEqRight(v, negate) => { self.big_eq_right(v, negate); },
            Frame::NegateBig => { self.negate_big(); },
            Frame::BitNotBig => { self.bit_not_big(); },
            Frame::IncBig { add, post, operand, env, before } => { self.inc_big(add, post, operand, env, before); },
            Frame::Iterate(v, list) => { self.iterable_values(v, list); },
            Frame::IterCheck(v, list) => { self.iter_check(v, list); },
            Frame::IterAgain(v, list) => { self.iter_again(v, list); },
            Frame::IterCall(v, list) => { self.iter_call(v, list); },
            Frame::IterObj(list) => { self.iter_obj(list); },
            Frame::IterNext(it, list) => { self.iter_next(it, list); },
            Frame::IterCallNext(it, list) => { self.iter_call_next(it, list); },
            Frame::IterRes(it, list) => { self.iter_res(it, list); },
            Frame::IterDone(it, list, r) => { self.iter_done(it, list, r); },
            Frame::IterValue(it, list) => { self.iter_value(it, list); },
            Frame::IterLen(v, list) => { self.iter_len(v, list); },
            Frame::IterIndex(v, list, i, n) => { self.iter_index(v, list, i, n); },
            _ => {},
        }
    }

    /// Does what a frame of statements stands for.
    pub(crate) fn dispatch_statement(&mut self, f: Frame<'a>)
        ensures
            final(self)@ == old(self)@.dispatch_statement(f),
    {
        reveal(EngineView::dispatch_statement);
        match f {
            Frame::Stmt(x, env, label) => { self.eval_stmt(x, env, label); },
            Frame::Stmts(list, i, env, last) => { self.exec_stmts(list, i, env, last); },
            Frame::VarList(list, i, kind, scope, env) => { self.eval_var_list(list, i, kind, scope, env); },
            Frame::BindDecl(pat, scope, constant) => { self.bind_decl(pat, scope, constant); },
            Frame::ReturnEnd => { self.return_end(); },
            Frame::ThrowEnd => { self.throw_end(); },
            Frame::IfTest(x, env) => { self.if_test(x, env); },
            Frame::IfEnd => { self.if_end(); },
            Frame::TryEnd(x, env) => { self.try_postprocess(x, env); },
            Frame::CatchEnd(x, env) => { self.run_finally(x, env); },
            Frame::FinallyEnd(c) => { self.done(c); },
            Frame::SwitchOn(x, env) => { self.exec_switch(x, env); },
            Frame::SwitchTest { stmt, env, on, i, default } => { self.switch_test(stmt, env, on, i, default); },
            Frame::SwitchMatch { stmt, env, on, i, default } => { self.switch_match(stmt, env, on, i, default); },
            Frame::SwitchRun { stmt, env, i, value } => { self.exec_switch_from(stmt, env, i, value); },
            _ => {},
        }
    }

    /// Does what a frame of loops stands for.
    pub(crate) fn dispatch_loop(&mut self, f: Frame<'a>)
        ensures
            final(self)@ == old(self)@.dispatch_loop(f),
    {
        reveal(EngineView::dispatch_loop);
        match f {
            Frame::ForInOn(x, env, label) => { self.exec_for_in(x, env, label); },
            Frame::ForOfOn(x, env, label) => { self.exec_for_of(x, env, label); },
            Frame::EachNext { stmt, env, label, source, i, value } => { self.each_next(stmt, env, label, source, i, value); },
            Frame::EachBody { stmt, env, label, source, i, value, body_env } => { self.each_body(stmt, env, label, source, i, value, body_env); },
            Frame::EachStep { stmt, env, label, source, i, value } => { self.each_step(stmt, env, label, source, i, value); },
            Frame::ForHead { stmt, env, label, fresh } => { self.push(Frame::ForTest { stmt: stmt, env: env, label: label, fresh: fresh, value: Some(Value::Undefined) }); },
            Frame::ForTest { stmt, env, label, fresh, value } => { self.exec_for_loop(stmt, env, label, fresh, value); },
            Frame::ForCond { stmt, env, label, fresh, value } => { self.for_cond(stmt, env, label, fresh, value); },
            Frame::ForStep { stmt, env, label, fresh, value } => { self.for_step(stmt, env, label, fresh, value); },
            Frame::WhileTest { stmt, env, label, value } => { self.exec_while_loop(stmt, env, label, value); },
            Frame::WhileCond { stmt, env, label, value } => { self.while_cond(stmt, env, label, value); },
            Frame::WhileStep { stmt, env, label, value } => { self.while_step(stmt, env, label, value); },
            Frame::DoBody { stmt, env, label, value } => { self.exec_do_while_loop(stmt, env, label, value); },
            Frame::DoStep { stmt, env, label, value } => { self.do_step(stmt, env, label, value); },
            Frame::DoCond { stmt, env, label, value } => { self.do_cond(stmt, env, label, value); },
            Frame::LabelEnd(label) => { self.label_end(label); },
            _ => {},
        }
    }

    /// Does what a frame of calls stands for.
    pub(crate) fn dispatch_call(&mut self, f: Frame<'a>)
        ensures
            final(self)@ == old(self)@.dispatch_call(f),
    {
        reveal(EngineView::dispatch_call);
        match f {
            Frame::Call { func, this, list } => { self.call_function(func, this, list); },
            Frame::CallEnd => { self.call_end(); },
            Frame::Params(list, i, env, args) => { self.bind_params(list, i, env, args); },
            Frame::FinishEnv { func, this, list, env } => { self.finish_env(func, this, list, env); },
            Frame::Body(f, env) => { self.body(f, env); },
            Frame::Fields(f, i, env) => { self.fields(f, i, env); },
            Frame::FieldStore(key, env) => { self.field_store(key, env); },
            Frame::Forward(env) => { self.forward(env); },
            Frame::NativeEnd(before) => { self.set_native_ctor(before); },
            Frame::ConstructEnd { inst, target } => { self.construct_end(inst, target); },
            Frame::NativeCtorEnd { inst, target, realm, ctor } => { self.native_ctor_end(inst, target, realm, ctor); },
            Frame::DerivedEnd { env, placeholder, target } => { self.derived_end(env, placeholder, target); },
            Frame::GenFn(g) => { self.gen_fn(g); },
            Frame::GenThis(g, f) => { self.gen_this(g, f); },
            Frame::GenArgs(g, f, this) => { self.gen_args(g, f, this); },
            Frame::GeneratorEnd { generator, list, sink } => { self.generator_end(generator, list, sink); },
            _ => {},
        }
    }

    /// Does what a frame of promises and jobs stands for.
    pub(crate) fn dispatch_promise(&mut self, f: Frame<'a>)
        ensures
            final(self)@ == old(self)@.dispatch_promise(f),
    {
        reveal(EngineView::dispatch_promise);
        match f {
            Frame::AsyncEnd { cap, resumed } => { self.async_end(cap, resumed); },
            Frame::AsyncTail { cap, resumed } => { self.async_tail(cap, resumed); },
            Frame::Resolve(cap, v) => { self.resolve_value(cap, v); },
            Frame::ThenGot(cap, v) => { self.got_then(cap, v); },
            Frame::React(r, how) => { self.enqueue_reaction_job(r, how); },
            Frame::AwaitThen { awaited, target, cont, cap } => { self.await_then(awaited, target, cont, cap); },
            Frame::Drain(steps) => { self.drain_jobs(steps); },
            Frame::ThenEnd(cap) => { self.then_end(cap); },
            Frame::FinallyDone { cap, original } => { self.finally_done(cap, original); },
            Frame::FinallyMid { mid, cap, original } => { self.finally_mid(mid, cap, original); },
            Frame::CustomEnd { resolve, reject } => { self.custom_end(resolve, reject); },
            Frame::CustomCallEnd => { self.job_error(); },
            Frame::ThenableEnd(cap) => { self.thenable_end(cap); },
            Frame::MicrotaskEnd => { self.task_end(); },
            _ => {},
        }
    }

    /// Does what a frame of timers and what the host starts stands for.
    pub(crate) fn dispatch_task(&mut self, f: Frame<'a>)
        ensures
            final(self)@ == old(self)@.dispatch_task(f),
    {
        reveal(EngineView::dispatch_task);
        match f {
            Frame::Timers(ran, limit) => { self.drain_timers(ran, limit); },
            Frame::TimerEnd(t, ran, limit) => { self.timer_end(t, ran, limit); },
            Frame::TimerNext(t, ran, limit) => { self.timer_next(t, ran, limit); },
            Frame::EvalEnd => { self.eval_end(); },
            Frame::ProtoOr(d) => { self.proto_or(d); },
            Frame::SpeciesCtor(d) => { self.species_ctor(d); },
            Frame::SpeciesEnd(d) => { self.species_end(d); },
            Frame::CapEnd(id) => { self.cap_end(id); },
            Frame::NumberEnd => { self.number_end(); },
            Frame::IntegerEnd => { self.integer_end(); },
            _ => {},
        }
    }

    /// Does what a frame stands for.
    pub(crate) fn dispatch(&mut self, f: Frame<'a>)
        ensures
            final(self)@ == old(self)@.dispatch(f),
    {
        reveal(EngineView::dispatch);
        match f {
            Frame::Barrier
            | Frame::Give(..)
            | Frame::Restore(..)
            | Frame::Swallow
            | Frame::Expr(..)
            | Frame::Member(..)
            | Frame::MemberKey(..)
            | Frame::ToKey
            | Frame::KeyText
            | Frame::CallBase(..)
            | Frame::CallKey(..)
            | Frame::CallFunc(..)
            | Frame::Args(..)
            | Frame::Append(..)
            | Frame::SpreadArg(..)
            | Frame::Spread(..)
            | Frame::Apply { .. }
            | Frame::NewFunc(..)
            | Frame::Construct { .. }
            | Frame::SuperCall { .. }
            | Frame::SuperDone(..) => { self.dispatch_member(f); },
            Frame::Sequence(..)
            | Frame::InstanceRight(..)
            | Frame::InstanceEnd(..)
            | Frame::BinaryRight(..)
            | Frame::BinaryEnd(..)
            | Frame::LogicalEnd(..)
            | Frame::UnaryEnd(..)
            | Frame::Negate
            | Frame::BitNot
            | Frame::IncEnd { .. }
            | Frame::IncStore { .. }
            | Frame::DeleteBase(..)
            | Frame::DeleteKey(..)
            | Frame::TernaryEnd(..)
            | Frame::AssignEnd(..)
            | Frame::AssignBase(..)
            | Frame::AssignKey(..)
            | Frame::SetNumber(..) => { self.dispatch_operator(f); },
            Frame::Elems(..)
            | Frame::MakeArray(..)
            | Frame::Props(..)
            | Frame::PropValue(..)
            | Frame::PropStore(..)
            | Frame::PropMethod(..)
            | Frame::PropSpread(..)
            | Frame::StringOf
            | Frame::TagFunc(..)
            | Frame::TagCooked { .. }
            | Frame::Exprs(..)
            | Frame::AwaitEnd
            | Frame::YieldEnd => { self.dispatch_literal(f); },
            Frame::ClassParent(..)
            | Frame::ClassKeys { .. }
            | Frame::ClassMethods { .. }
            | Frame::ClassMethodKey { .. }
            | Frame::ClassStatics { .. }
            | Frame::ClassStaticKey { .. }
            | Frame::ClassStaticValue { .. }
            | Frame::ClassStaticMethods { .. }
            | Frame::ClassStaticMethodKey { .. }
            | Frame::Bind(..)
            | Frame::BindElems(..)
            | Frame::BindProps(..)
            | Frame::BindKeyed(..)
            | Frame::MarkConst(..)
            | Frame::HeadBind => { self.dispatch_class(f); },
            Frame::ToPrim(..)
            | Frame::PrimExotic(..)
            | Frame::PrimEnd
            | Frame::PrimTry { .. }
            | Frame::PrimCall { .. }
            | Frame::PrimGot { .. }
            | Frame::Num(..)
            | Frame::Text(..)
            | Frame::TextJoin(..)
            | Frame::TextItem(..)
            | Frame::TextSign(..)
            | Frame::TextExponent(..)
            | Frame::ConcatRight(..)
            | Frame::ConcatEnd(..)
            | Frame::NumRight(..)
            | Frame::NumEnd(..)
            | Frame::LooseEq(..)
            | Frame::LooseOther(..)
            | Frame::InKey(..)
            | Frame::ByteLen => { self.dispatch_conversion(f); },
            Frame::BigConcat(..)
            | Frame::BigNumeric(..)
            | Frame::BigNumericEnd(..)
            | Frame::Numeric
            | Frame::BigAddLeft(..)
            | Frame::BigAddRight(..)
            | Frame::BigEqLeft(..)
            | Frame::BigEqRight(..)
            | Frame::NegateBig
            | Frame::BitNotBig
            | Frame::IncBig { .. }
            | Frame::Iterate(..)
            | Frame::IterCheck(..)
            | Frame::IterAgain(..)
            | Frame::IterCall(..)
            | Frame::IterObj(..)
            | Frame::IterNext(..)
            | Frame::IterCallNext(..)
            | Frame::IterRes(..)
            | Frame::IterDone(..)
            | Frame::IterValue(..)
            | Frame::IterLen(..)
            | Frame::IterIndex(..) => { self.dispatch_big(f); },
            Frame::Stmt(..)
            | Frame::Stmts(..)
            | Frame::VarList(..)
            | Frame::BindDecl(..)
            | Frame::ReturnEnd
            | Frame::ThrowEnd
            | Frame::IfTest(..)
            | Frame::IfEnd
            | Frame::TryEnd(..)
            | Frame::CatchEnd(..)
            | Frame::FinallyEnd(..)
            | Frame::SwitchOn(..)
            | Frame::SwitchTest { .. }
            | Frame::SwitchMatch { .. }
            | Frame::SwitchRun { .. } => { self.dispatch_statement(f); },
            Frame::ForInOn(..)
            | Frame::ForOfOn(..)
            | Frame::EachNext { .. }
            | Frame::EachBody { .. }
            | Frame::EachStep { .. }
            | Frame::ForHead { .. }
            | Frame::ForTest { .. }
            | Frame::ForCond { .. }
            | Frame::ForStep { .. }
            | Frame::WhileTest { .. }
            | Frame::WhileCond { .. }
            | Frame::WhileStep { .. }
            | Frame::DoBody { .. }
            | Frame::DoStep { .. }
            | Frame::DoCond { .. }
            | Frame::LabelEnd(..) => { self.dispatch_loop(f); },
            Frame::Call { .. }
            | Frame::CallEnd
            | Frame::Params(..)
            | Frame::FinishEnv { .. }
            | Frame::Body(..)
            | Frame::Fields(..)
            | Frame::FieldStore(..)
            | Frame::Forward(..)
            | Frame::NativeEnd(..)
            | Frame::ConstructEnd { .. }
            | Frame::NativeCtorEnd { .. }
            | Frame::DerivedEnd { .. }
            | Frame::GenFn(..)
            | Frame::GenThis(..)
            | Frame::GenArgs(..)
            | Frame::GeneratorEnd { .. } => { self.dispatch_call(f); },
            Frame::AsyncEnd { .. }
            | Frame::AsyncTail { .. }
            | Frame::Resolve(..)
            | Frame::ThenGot(..)
            | Frame::React(..)
            | Frame::AwaitThen { .. }
            | Frame::Drain(..)
            | Frame::ThenEnd(..)
            | Frame::FinallyDone { .. }
            | Frame::FinallyMid { .. }
            | Frame::CustomEnd { .. }
            | Frame::CustomCallEnd
            | Frame::ThenableEnd(..)
            | Frame::MicrotaskEnd => { self.dispatch_promise(f); },
            Frame::Timers(..)
            | Frame::TimerEnd(..)
            | Frame::TimerNext(..)
            | Frame::EvalEnd
            | Frame::ProtoOr(..)
            | Frame::SpeciesCtor(..)
            | Frame::SpeciesEnd(..)
            | Frame::CapEnd(..)
            | Frame::NumberEnd
            | Frame::IntegerEnd => { self.dispatch_task(f); },
        }
    }

    /// Performs one step: the top frame is done, or dropped where the completion is
    /// abrupt and the frame does not look at it. An empty stack hands control back.
    pub(crate) fn step(&mut self)
        ensures
            final(self)@ == old(self)@.step(),
    {
        if self.ready() {
            let top = self.pop();
            match top {
                Some(f) => {
                    if !abrupt(self.completion()) || catches(&f) {
                        self.dispatch(f);
                    } else {

                    }
                },
                None => { self.halt(); },
            }
        } else {

        }
    }
}

} // verus!
