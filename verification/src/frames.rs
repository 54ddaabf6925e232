//! One step of the machine for each kind of frame.
use vstd::prelude::*;
use crate::ast::{Arg, ArrayElem, AssignTarget, BinaryOp, Class, Declarator, Expr, LogicalOp, Pattern, Prop, PropKey, Stmt, VarKind};
use crate::engine::{Completion, EngineView, Frame, Mode, PrimitiveHint, TimerEntry};
use crate::meaning::{calm, leads, lemma_step, on};
use crate::value::{PromiseReaction, Settlement, Value};

verus! {

pub(crate) proof fn on_give<'a>(s: EngineView<'a>, k: Seq<Frame<'a>>, v: Value)
    requires
        calm(s),
    ensures
        leads(on(s, k).push(Frame::Give(v)), on(s, k).ret(v)),
{
    reveal(EngineView::dispatch);
    reveal(EngineView::dispatch_member);
    lemma_step(s, k, Frame::Give(v));
}

pub(crate) proof fn on_expr<'a>(s: EngineView<'a>, k: Seq<Frame<'a>>, e: &'a Expr, env: usize)
    requires
        calm(s),
    ensures
        leads(on(s, k).push(Frame::Expr(e, env)), on(s, k).eval_expr(e, env)),
{
    reveal(EngineView::dispatch);
    reveal(EngineView::dispatch_member);
    lemma_step(s, k, Frame::Expr(e, env));
}

pub(crate) proof fn on_member<'a>(s: EngineView<'a>, k: Seq<Frame<'a>>, e: &'a Expr, env: usize)
    requires
        calm(s),
    ensures
        leads(on(s, k).push(Frame::Member(e, env)), on(s, k).member(e, env)),
{
    reveal(EngineView::dispatch);
    reveal(EngineView::dispatch_member);
    lemma_step(s, k, Frame::Member(e, env));
}

pub(crate) proof fn on_member_key<'a>(s: EngineView<'a>, k: Seq<Frame<'a>>, base: Value)
    requires
        calm(s),
    ensures
        leads(on(s, k).push(Frame::MemberKey(base)), on(s, k).member_key(base)),
{
    reveal(EngineView::dispatch);
    reveal(EngineView::dispatch_member);
    lemma_step(s, k, Frame::MemberKey(base));
}

pub(crate) proof fn on_to_key<'a>(s: EngineView<'a>, k: Seq<Frame<'a>>)
    requires
        calm(s),
    ensures
        leads(on(s, k).push(Frame::ToKey), on(s, k).to_property_key()),
{
    reveal(EngineView::dispatch);
    reveal(EngineView::dispatch_member);
    lemma_step(s, k, Frame::ToKey);
}

pub(crate) proof fn on_call_base<'a>(s: EngineView<'a>, k: Seq<Frame<'a>>, e: &'a Expr, env: usize, tail: bool)
    requires
        calm(s),
    ensures
        leads(on(s, k).push(Frame::CallBase(e, env, tail)), on(s, k).call_base(e, env, tail)),
{
    reveal(EngineView::dispatch);
    reveal(EngineView::dispatch_member);
    lemma_step(s, k, Frame::CallBase(e, env, tail));
}

pub(crate) proof fn on_call_func<'a>(s: EngineView<'a>, k: Seq<Frame<'a>>, e: &'a Expr, env: usize, this: Value, tail: bool)
    requires
        calm(s),
    ensures
        leads(on(s, k).push(Frame::CallFunc(e, env, this, tail)), on(s, k).call_func(e, env, this, tail)),
{
    reveal(EngineView::dispatch);
    reveal(EngineView::dispatch_member);
    lemma_step(s, k, Frame::CallFunc(e, env, this, tail));
}

pub(crate) proof fn on_args<'a>(s: EngineView<'a>, k: Seq<Frame<'a>>, args: &'a Vec<Arg>, i: usize, env: usize, list: usize)
    requires
        calm(s),
    ensures
        leads(on(s, k).push(Frame::Args(args, i, env, list)), on(s, k).eval_args(args, i, env, list)),
{
    reveal(EngineView::dispatch);
    reveal(EngineView::dispatch_member);
    lemma_step(s, k, Frame::Args(args, i, env, list));
}

pub(crate) proof fn on_append<'a>(s: EngineView<'a>, k: Seq<Frame<'a>>, list: usize)
    requires
        calm(s),
    ensures
        leads(on(s, k).push(Frame::Append(list)), on(s, k).append_end(list)),
{
    reveal(EngineView::dispatch);
    reveal(EngineView::dispatch_member);
    lemma_step(s, k, Frame::Append(list));
}

pub(crate) proof fn on_spread_arg<'a>(s: EngineView<'a>, k: Seq<Frame<'a>>, list: usize)
    requires
        calm(s),
    ensures
        leads(on(s, k).push(Frame::SpreadArg(list)), on(s, k).spread_arg(list)),
{
    reveal(EngineView::dispatch);
    reveal(EngineView::dispatch_member);
    lemma_step(s, k, Frame::SpreadArg(list));
}

pub(crate) proof fn on_apply<'a>(s: EngineView<'a>, k: Seq<Frame<'a>>, func: Value, this: Value, list: usize, tail: bool)
    requires
        calm(s),
    ensures
        leads(on(s, k).push(Frame::Apply { func, this, list, tail }), on(s, k).apply(func, this, list, tail)),
{
    reveal(EngineView::dispatch);
    reveal(EngineView::dispatch_member);
    lemma_step(s, k, Frame::Apply { func, this, list, tail });
}

pub(crate) proof fn on_new_func<'a>(s: EngineView<'a>, k: Seq<Frame<'a>>, e: &'a Expr, env: usize)
    requires
        calm(s),
    ensures
        leads(on(s, k).push(Frame::NewFunc(e, env)), on(s, k).new_func(e, env)),
{
    reveal(EngineView::dispatch);
    reveal(EngineView::dispatch_member);
    lemma_step(s, k, Frame::NewFunc(e, env));
}

pub(crate) proof fn on_construct<'a>(s: EngineView<'a>, k: Seq<Frame<'a>>, func: Value, list: usize)
    requires
        calm(s),
    ensures
        leads(on(s, k).push(Frame::Construct { func, list }), on(s, k).construct(func, list, func)),
{
    reveal(EngineView::dispatch);
    reveal(EngineView::dispatch_member);
    lemma_step(s, k, Frame::Construct { func, list });
}

pub(crate) proof fn on_super_call<'a>(s: EngineView<'a>, k: Seq<Frame<'a>>, ctor: Value, list: usize, env: usize)
    requires
        calm(s),
    ensures
        leads(on(s, k).push(Frame::SuperCall { ctor, list, env }), on(s, k).super_call(ctor, list, env)),
{
    reveal(EngineView::dispatch);
    reveal(EngineView::dispatch_member);
    lemma_step(s, k, Frame::SuperCall { ctor, list, env });
}

pub(crate) proof fn on_super_done<'a>(s: EngineView<'a>, k: Seq<Frame<'a>>, env: usize)
    requires
        calm(s),
    ensures
        leads(on(s, k).push(Frame::SuperDone(env)), on(s, k).super_done(env)),
{
    reveal(EngineView::dispatch);
    reveal(EngineView::dispatch_member);
    lemma_step(s, k, Frame::SuperDone(env));
}

pub(crate) proof fn on_sequence<'a>(s: EngineView<'a>, k: Seq<Frame<'a>>, list: &'a Vec<Expr>, i: usize, env: usize)
    requires
        calm(s),
    ensures
        leads(on(s, k).push(Frame::Sequence(list, i, env)), on(s, k).sequence(list, i, env)),
{
    reveal(EngineView::dispatch);
    reveal(EngineView::dispatch_operator);
    lemma_step(s, k, Frame::Sequence(list, i, env));
}

pub(crate) proof fn on_instance_right<'a>(s: EngineView<'a>, k: Seq<Frame<'a>>, e: &'a Expr, env: usize)
    requires
        calm(s),
    ensures
        leads(on(s, k).push(Frame::InstanceRight(e, env)), on(s, k).instance_right(e, env)),
{
    reveal(EngineView::dispatch);
    reveal(EngineView::dispatch_operator);
    lemma_step(s, k, Frame::InstanceRight(e, env));
}

pub(crate) proof fn on_instance_end<'a>(s: EngineView<'a>, k: Seq<Frame<'a>>, l: Value)
    requires
        calm(s),
    ensures
        leads(on(s, k).push(Frame::InstanceEnd(l)), on(s, k).eval_instance_of(l)),
{
    reveal(EngineView::dispatch);
    reveal(EngineView::dispatch_operator);
    lemma_step(s, k, Frame::InstanceEnd(l));
}

pub(crate) proof fn on_binary_right<'a>(s: EngineView<'a>, k: Seq<Frame<'a>>, op: BinaryOp, e: &'a Expr, env: usize)
    requires
        calm(s),
    ensures
        leads(on(s, k).push(Frame::BinaryRight(op, e, env)), on(s, k).binary_right(op, e, env)),
{
    reveal(EngineView::dispatch);
    reveal(EngineView::dispatch_operator);
    lemma_step(s, k, Frame::BinaryRight(op, e, env));
}

pub(crate) proof fn on_binary_end<'a>(s: EngineView<'a>, k: Seq<Frame<'a>>, op: BinaryOp, l: Value)
    requires
        calm(s),
    ensures
        leads(on(s, k).push(Frame::BinaryEnd(op, l)), on(s, k).binary_end(op, l)),
{
    reveal(EngineView::dispatch);
    reveal(EngineView::dispatch_operator);
    lemma_step(s, k, Frame::BinaryEnd(op, l));
}

pub(crate) proof fn on_logical_end<'a>(s: EngineView<'a>, k: Seq<Frame<'a>>, op: LogicalOp, e: &'a Expr, env: usize)
    requires
        calm(s),
    ensures
        leads(on(s, k).push(Frame::LogicalEnd(op, e, env)), on(s, k).logical_end(op, e, env)),
{
    reveal(EngineView::dispatch);
    reveal(EngineView::dispatch_operator);
    lemma_step(s, k, Frame::LogicalEnd(op, e, env));
}

pub(crate) proof fn on_unary_end<'a>(s: EngineView<'a>, k: Seq<Frame<'a>>, e: &'a Expr, env: usize)
    requires
        calm(s),
    ensures
        leads(on(s, k).push(Frame::UnaryEnd(e, env)), on(s, k).eval_unary_value(e, env)),
{
    reveal(EngineView::dispatch);
    reveal(EngineView::dispatch_operator);
    lemma_step(s, k, Frame::UnaryEnd(e, env));
}

pub(crate) proof fn on_negate<'a>(s: EngineView<'a>, k: Seq<Frame<'a>>)
    requires
        calm(s),
    ensures
        leads(on(s, k).push(Frame::Negate), on(s, k).negate_end()),
{
    reveal(EngineView::dispatch);
    reveal(EngineView::dispatch_operator);
    lemma_step(s, k, Frame::Negate);
}

pub(crate) proof fn on_inc_end<'a>(s: EngineView<'a>, k: Seq<Frame<'a>>, add: bool, post: bool, operand: &'a Expr, env: usize, before: Value)
    requires
        calm(s),
    ensures
        leads(on(s, k).push(Frame::IncEnd { add, post, operand, env, before }), on(s, k).inc_end(add, post, operand, env, before)),
{
    reveal(EngineView::dispatch);
    reveal(EngineView::dispatch_operator);
    lemma_step(s, k, Frame::IncEnd { add, post, operand, env, before });
}

pub(crate) proof fn on_inc_store<'a>(s: EngineView<'a>, k: Seq<Frame<'a>>, post: bool, operand: &'a Expr, env: usize, before: Value)
    requires
        calm(s),
    ensures
        leads(on(s, k).push(Frame::IncStore { post, operand, env, before }), on(s, k).inc_store(post, operand, env, before)),
{
    reveal(EngineView::dispatch);
    reveal(EngineView::dispatch_operator);
    lemma_step(s, k, Frame::IncStore { post, operand, env, before });
}

pub(crate) proof fn on_delete_base<'a>(s: EngineView<'a>, k: Seq<Frame<'a>>, e: &'a Expr, env: usize)
    requires
        calm(s),
    ensures
        leads(on(s, k).push(Frame::DeleteBase(e, env)), on(s, k).delete_base(e, env)),
{
    reveal(EngineView::dispatch);
    reveal(EngineView::dispatch_operator);
    lemma_step(s, k, Frame::DeleteBase(e, env));
}

pub(crate) proof fn on_delete_key<'a>(s: EngineView<'a>, k: Seq<Frame<'a>>, base: Value)
    requires
        calm(s),
    ensures
        leads(on(s, k).push(Frame::DeleteKey(base)), on(s, k).delete_key(base)),
{
    reveal(EngineView::dispatch);
    reveal(EngineView::dispatch_operator);
    lemma_step(s, k, Frame::DeleteKey(base));
}

pub(crate) proof fn on_ternary_end<'a>(s: EngineView<'a>, k: Seq<Frame<'a>>, e: &'a Expr, env: usize)
    requires
        calm(s),
    ensures
        leads(on(s, k).push(Frame::TernaryEnd(e, env)), on(s, k).ternary_end(e, env)),
{
    reveal(EngineView::dispatch);
    reveal(EngineView::dispatch_operator);
    lemma_step(s, k, Frame::TernaryEnd(e, env));
}

pub(crate) proof fn on_assign_end<'a>(s: EngineView<'a>, k: Seq<Frame<'a>>, target: &'a AssignTarget, env: usize)
    requires
        calm(s),
    ensures
        leads(on(s, k).push(Frame::AssignEnd(target, env)), on(s, k).assign_end(target, env)),
{
    reveal(EngineView::dispatch);
    reveal(EngineView::dispatch_operator);
    lemma_step(s, k, Frame::AssignEnd(target, env));
}

pub(crate) proof fn on_assign_base<'a>(s: EngineView<'a>, k: Seq<Frame<'a>>, e: &'a Expr, env: usize, v: Value)
    requires
        calm(s),
    ensures
        leads(on(s, k).push(Frame::AssignBase(e, env, v)), on(s, k).assign_base(e, env, v)),
{
    reveal(EngineView::dispatch);
    reveal(EngineView::dispatch_operator);
    lemma_step(s, k, Frame::AssignBase(e, env, v));
}

pub(crate) proof fn on_assign_key<'a>(s: EngineView<'a>, k: Seq<Frame<'a>>, base: Value, v: Value)
    requires
        calm(s),
    ensures
        leads(on(s, k).push(Frame::AssignKey(base, v)), on(s, k).assign_key(base, v)),
{
    reveal(EngineView::dispatch);
    reveal(EngineView::dispatch_operator);
    lemma_step(s, k, Frame::AssignKey(base, v));
}

pub(crate) proof fn on_elems<'a>(s: EngineView<'a>, k: Seq<Frame<'a>>, list: &'a Vec<ArrayElem>, i: usize, env: usize, l: usize)
    requires
        calm(s),
    ensures
        leads(on(s, k).push(Frame::Elems(list, i, env, l)), on(s, k).eval_array_elems(list, i, env, l)),
{
    reveal(EngineView::dispatch);
    reveal(EngineView::dispatch_literal);
    lemma_step(s, k, Frame::Elems(list, i, env, l));
}

pub(crate) proof fn on_make_array<'a>(s: EngineView<'a>, k: Seq<Frame<'a>>, l: usize)
    requires
        calm(s),
    ensures
        leads(on(s, k).push(Frame::MakeArray(l)), on(s, k).make_array(l)),
{
    reveal(EngineView::dispatch);
    reveal(EngineView::dispatch_literal);
    lemma_step(s, k, Frame::MakeArray(l));
}

pub(crate) proof fn on_prop_value<'a>(s: EngineView<'a>, k: Seq<Frame<'a>>, key: &'a PropKey, env: usize, o: usize)
    requires
        calm(s),
    ensures
        leads(on(s, k).push(Frame::PropValue(key, env, o)), on(s, k).prop_value(key, env, o)),
{
    reveal(EngineView::dispatch);
    reveal(EngineView::dispatch_literal);
    lemma_step(s, k, Frame::PropValue(key, env, o));
}

pub(crate) proof fn on_prop_store<'a>(s: EngineView<'a>, k: Seq<Frame<'a>>, o: usize, v: Value)
    requires
        calm(s),
    ensures
        leads(on(s, k).push(Frame::PropStore(o, v)), on(s, k).prop_store(o, v)),
{
    reveal(EngineView::dispatch);
    reveal(EngineView::dispatch_literal);
    lemma_step(s, k, Frame::PropStore(o, v));
}

pub(crate) proof fn on_prop_method<'a>(s: EngineView<'a>, k: Seq<Frame<'a>>, p: &'a Prop, env: usize, o: usize)
    requires
        calm(s),
    ensures
        leads(on(s, k).push(Frame::PropMethod(p, env, o)), on(s, k).prop_method(p, env, o)),
{
    reveal(EngineView::dispatch);
    reveal(EngineView::dispatch_literal);
    lemma_step(s, k, Frame::PropMethod(p, env, o));
}

pub(crate) proof fn on_string_of<'a>(s: EngineView<'a>, k: Seq<Frame<'a>>)
    requires
        calm(s),
    ensures
        leads(on(s, k).push(Frame::StringOf), on(s, k).string_of()),
{
    reveal(EngineView::dispatch);
    reveal(EngineView::dispatch_literal);
    lemma_step(s, k, Frame::StringOf);
}

pub(crate) proof fn on_tag_cooked<'a>(s: EngineView<'a>, k: Seq<Frame<'a>>, func: Value, subs: &'a Vec<Expr>, env: usize, list: usize)
    requires
        calm(s),
    ensures
        leads(on(s, k).push(Frame::TagCooked { func, subs, env, list }), on(s, k).tag_cooked(func, subs, env, list)),
{
    reveal(EngineView::dispatch);
    reveal(EngineView::dispatch_literal);
    lemma_step(s, k, Frame::TagCooked { func, subs, env, list });
}

pub(crate) proof fn on_yield_end<'a>(s: EngineView<'a>, k: Seq<Frame<'a>>)
    requires
        calm(s),
    ensures
        leads(on(s, k).push(Frame::YieldEnd), on(s, k).yield_end()),
{
    reveal(EngineView::dispatch);
    reveal(EngineView::dispatch_literal);
    lemma_step(s, k, Frame::YieldEnd);
}

pub(crate) proof fn on_class_method_key<'a>(s: EngineView<'a>, k: Seq<Frame<'a>>, class: &'a Class, env: usize, ctor: usize, proto: usize, base: usize, i: usize)
    requires
        calm(s),
    ensures
        leads(on(s, k).push(Frame::ClassMethodKey { class, env, ctor, proto, base, i }), on(s, k).class_method_key(class, env, proto, base, i)),
{
    reveal(EngineView::dispatch);
    reveal(EngineView::dispatch_class);
    lemma_step(s, k, Frame::ClassMethodKey { class, env, ctor, proto, base, i });
}

pub(crate) proof fn on_class_static_value<'a>(s: EngineView<'a>, k: Seq<Frame<'a>>, ctor: usize, key: usize)
    requires
        calm(s),
    ensures
        leads(on(s, k).push(Frame::ClassStaticValue { ctor, key }), on(s, k).class_static_value(ctor, key)),
{
    reveal(EngineView::dispatch);
    reveal(EngineView::dispatch_class);
    lemma_step(s, k, Frame::ClassStaticValue { ctor, key });
}

pub(crate) proof fn on_class_static_method_key<'a>(s: EngineView<'a>, k: Seq<Frame<'a>>, class: &'a Class, env: usize, ctor: usize, i: usize)
    requires
        calm(s),
    ensures
        leads(on(s, k).push(Frame::ClassStaticMethodKey { class, env, ctor, i }), on(s, k).class_static_method_key(class, env, ctor, i)),
{
    reveal(EngineView::dispatch);
    reveal(EngineView::dispatch_class);
    lemma_step(s, k, Frame::ClassStaticMethodKey { class, env, ctor, i });
}

pub(crate) proof fn on_bind<'a>(s: EngineView<'a>, k: Seq<Frame<'a>>, pat: &'a Pattern, env: usize, mode: Mode)
    requires
        calm(s),
    ensures
        leads(on(s, k).push(Frame::Bind(pat, env, mode)), on(s, k).bind_pattern(pat, env, mode)),
{
    reveal(EngineView::dispatch);
    reveal(EngineView::dispatch_class);
    lemma_step(s, k, Frame::Bind(pat, env, mode));
}

pub(crate) proof fn on_bind_elems<'a>(s: EngineView<'a>, k: Seq<Frame<'a>>, pat: &'a Pattern, env: usize, mode: Mode, i: usize, list: usize)
    requires
        calm(s),
    ensures
        leads(on(s, k).push(Frame::BindElems(pat, env, mode, i, list)), on(s, k).bind_elems(pat, env, mode, i, list)),
{
    reveal(EngineView::dispatch);
    reveal(EngineView::dispatch_class);
    lemma_step(s, k, Frame::BindElems(pat, env, mode, i, list));
}

pub(crate) proof fn on_bind_props<'a>(s: EngineView<'a>, k: Seq<Frame<'a>>, pat: &'a Pattern, env: usize, mode: Mode, i: usize, o: usize)
    requires
        calm(s),
    ensures
        leads(on(s, k).push(Frame::BindProps(pat, env, mode, i, o)), on(s, k).bind_object_props(pat, env, mode, i, o)),
{
    reveal(EngineView::dispatch);
    reveal(EngineView::dispatch_class);
    lemma_step(s, k, Frame::BindProps(pat, env, mode, i, o));
}

pub(crate) proof fn on_bind_keyed<'a>(s: EngineView<'a>, k: Seq<Frame<'a>>, pat: &'a Pattern, env: usize, mode: Mode, o: usize)
    requires
        calm(s),
    ensures
        leads(on(s, k).push(Frame::BindKeyed(pat, env, mode, o)), on(s, k).bind_keyed(pat, env, mode, o)),
{
    reveal(EngineView::dispatch);
    reveal(EngineView::dispatch_class);
    lemma_step(s, k, Frame::BindKeyed(pat, env, mode, o));
}

pub(crate) proof fn on_mark_const<'a>(s: EngineView<'a>, k: Seq<Frame<'a>>, pat: &'a Pattern, env: usize)
    requires
        calm(s),
    ensures
        leads(on(s, k).push(Frame::MarkConst(pat, env)), on(s, k).mark_const(pat, env)),
{
    reveal(EngineView::dispatch);
    reveal(EngineView::dispatch_class);
    lemma_step(s, k, Frame::MarkConst(pat, env));
}

pub(crate) proof fn on_head_bind<'a>(s: EngineView<'a>, k: Seq<Frame<'a>>)
    requires
        calm(s),
    ensures
        leads(on(s, k).push(Frame::HeadBind), on(s, k)),
{
    reveal(EngineView::dispatch);
    reveal(EngineView::dispatch_class);
    lemma_step(s, k, Frame::HeadBind);
}

pub(crate) proof fn on_to_prim<'a>(s: EngineView<'a>, k: Seq<Frame<'a>>, hint: PrimitiveHint)
    requires
        calm(s),
    ensures
        leads(on(s, k).push(Frame::ToPrim(hint)), on(s, k).to_primitive(hint)),
{
    reveal(EngineView::dispatch);
    reveal(EngineView::dispatch_conversion);
    lemma_step(s, k, Frame::ToPrim(hint));
}

pub(crate) proof fn on_prim_exotic<'a>(s: EngineView<'a>, k: Seq<Frame<'a>>, v: Value, hint: PrimitiveHint)
    requires
        calm(s),
    ensures
        leads(on(s, k).push(Frame::PrimExotic(v, hint)), on(s, k).prim_exotic(v, hint)),
{
    reveal(EngineView::dispatch);
    reveal(EngineView::dispatch_conversion);
    lemma_step(s, k, Frame::PrimExotic(v, hint));
}

pub(crate) proof fn on_prim_try<'a>(s: EngineView<'a>, k: Seq<Frame<'a>>, value: Value, number_first: bool, second: bool)
    requires
        calm(s),
    ensures
        leads(on(s, k).push(Frame::PrimTry { value, number_first, second }), on(s, k).prim_try(value, number_first, second)),
{
    reveal(EngineView::dispatch);
    reveal(EngineView::dispatch_conversion);
    lemma_step(s, k, Frame::PrimTry { value, number_first, second });
}

pub(crate) proof fn on_prim_call<'a>(s: EngineView<'a>, k: Seq<Frame<'a>>, value: Value, number_first: bool, second: bool)
    requires
        calm(s),
    ensures
        leads(on(s, k).push(Frame::PrimCall { value, number_first, second }), on(s, k).prim_call(value, number_first, second)),
{
    reveal(EngineView::dispatch);
    reveal(EngineView::dispatch_conversion);
    lemma_step(s, k, Frame::PrimCall { value, number_first, second });
}

pub(crate) proof fn on_prim_got<'a>(s: EngineView<'a>, k: Seq<Frame<'a>>, value: Value, number_first: bool, second: bool)
    requires
        calm(s),
    ensures
        leads(on(s, k).push(Frame::PrimGot { value, number_first, second }), on(s, k).prim_got(value, number_first, second)),
{
    reveal(EngineView::dispatch);
    reveal(EngineView::dispatch_conversion);
    lemma_step(s, k, Frame::PrimGot { value, number_first, second });
}

pub(crate) proof fn on_num<'a>(s: EngineView<'a>, k: Seq<Frame<'a>>, v: Value)
    requires
        calm(s),
    ensures
        leads(on(s, k).push(Frame::Num(v)), on(s, k).num(v)),
{
    reveal(EngineView::dispatch);
    reveal(EngineView::dispatch_conversion);
    lemma_step(s, k, Frame::Num(v));
}

pub(crate) proof fn on_text<'a>(s: EngineView<'a>, k: Seq<Frame<'a>>, v: Value)
    requires
        calm(s),
    ensures
        leads(on(s, k).push(Frame::Text(v)), on(s, k).text(v)),
{
    reveal(EngineView::dispatch);
    reveal(EngineView::dispatch_conversion);
    lemma_step(s, k, Frame::Text(v));
}

pub(crate) proof fn on_text_join<'a>(s: EngineView<'a>, k: Seq<Frame<'a>>, a: usize, i: usize, t: usize)
    requires
        calm(s),
    ensures
        leads(on(s, k).push(Frame::TextJoin(a, i, t)), on(s, k).text_join(a, i, t)),
{
    reveal(EngineView::dispatch);
    reveal(EngineView::dispatch_conversion);
    lemma_step(s, k, Frame::TextJoin(a, i, t));
}

pub(crate) proof fn on_text_item<'a>(s: EngineView<'a>, k: Seq<Frame<'a>>, a: usize, i: usize, t: usize)
    requires
        calm(s),
    ensures
        leads(on(s, k).push(Frame::TextItem(a, i, t)), on(s, k).text_item(a, i, t)),
{
    reveal(EngineView::dispatch);
    reveal(EngineView::dispatch_conversion);
    lemma_step(s, k, Frame::TextItem(a, i, t));
}

pub(crate) proof fn on_concat_right<'a>(s: EngineView<'a>, k: Seq<Frame<'a>>, v: Value)
    requires
        calm(s),
    ensures
        leads(on(s, k).push(Frame::ConcatRight(v)), on(s, k).concat_right(v)),
{
    reveal(EngineView::dispatch);
    reveal(EngineView::dispatch_conversion);
    lemma_step(s, k, Frame::ConcatRight(v));
}

pub(crate) proof fn on_concat_end<'a>(s: EngineView<'a>, k: Seq<Frame<'a>>, a: usize)
    requires
        calm(s),
    ensures
        leads(on(s, k).push(Frame::ConcatEnd(a)), on(s, k).concat_end(a)),
{
    reveal(EngineView::dispatch);
    reveal(EngineView::dispatch_conversion);
    lemma_step(s, k, Frame::ConcatEnd(a));
}

pub(crate) proof fn on_num_right<'a>(s: EngineView<'a>, k: Seq<Frame<'a>>, op: BinaryOp, v: Value)
    requires
        calm(s),
    ensures
        leads(on(s, k).push(Frame::NumRight(op, v)), on(s, k).num_right(op, v)),
{
    reveal(EngineView::dispatch);
    reveal(EngineView::dispatch_conversion);
    lemma_step(s, k, Frame::NumRight(op, v));
}

pub(crate) proof fn on_num_end<'a>(s: EngineView<'a>, k: Seq<Frame<'a>>, op: BinaryOp, x: u64)
    requires
        calm(s),
    ensures
        leads(on(s, k).push(Frame::NumEnd(op, x)), on(s, k).num_end(op, x)),
{
    reveal(EngineView::dispatch);
    reveal(EngineView::dispatch_conversion);
    lemma_step(s, k, Frame::NumEnd(op, x));
}

pub(crate) proof fn on_loose_eq<'a>(s: EngineView<'a>, k: Seq<Frame<'a>>, a: Value, b: Value, negate: bool)
    requires
        calm(s),
    ensures
        leads(on(s, k).push(Frame::LooseEq(a, b, negate)), on(s, k).loose_eq(a, b, negate)),
{
    reveal(EngineView::dispatch);
    reveal(EngineView::dispatch_conversion);
    lemma_step(s, k, Frame::LooseEq(a, b, negate));
}

pub(crate) proof fn on_in_key<'a>(s: EngineView<'a>, k: Seq<Frame<'a>>, v: Value)
    requires
        calm(s),
    ensures
        leads(on(s, k).push(Frame::InKey(v)), on(s, k).in_end(v)),
{
    reveal(EngineView::dispatch);
    reveal(EngineView::dispatch_conversion);
    lemma_step(s, k, Frame::InKey(v));
}

pub(crate) proof fn on_big_numeric<'a>(s: EngineView<'a>, k: Seq<Frame<'a>>, op: BinaryOp, v: Value)
    requires
        calm(s),
    ensures
        leads(on(s, k).push(Frame::BigNumeric(op, v)), on(s, k).big_numeric(op, v)),
{
    reveal(EngineView::dispatch);
    reveal(EngineView::dispatch_big);
    lemma_step(s, k, Frame::BigNumeric(op, v));
}

pub(crate) proof fn on_big_numeric_end<'a>(s: EngineView<'a>, k: Seq<Frame<'a>>, op: BinaryOp, v: Value)
    requires
        calm(s),
    ensures
        leads(on(s, k).push(Frame::BigNumericEnd(op, v)), on(s, k).big_numeric_end(op, v)),
{
    reveal(EngineView::dispatch);
    reveal(EngineView::dispatch_big);
    lemma_step(s, k, Frame::BigNumericEnd(op, v));
}

pub(crate) proof fn on_numeric<'a>(s: EngineView<'a>, k: Seq<Frame<'a>>)
    requires
        calm(s),
    ensures
        leads(on(s, k).push(Frame::Numeric), on(s, k).numeric()),
{
    reveal(EngineView::dispatch);
    reveal(EngineView::dispatch_big);
    lemma_step(s, k, Frame::Numeric);
}

pub(crate) proof fn on_big_add_left<'a>(s: EngineView<'a>, k: Seq<Frame<'a>>, v: Value)
    requires
        calm(s),
    ensures
        leads(on(s, k).push(Frame::BigAddLeft(v)), on(s, k).big_add_left(v)),
{
    reveal(EngineView::dispatch);
    reveal(EngineView::dispatch_big);
    lemma_step(s, k, Frame::BigAddLeft(v));
}

pub(crate) proof fn on_big_add_right<'a>(s: EngineView<'a>, k: Seq<Frame<'a>>, v: Value)
    requires
        calm(s),
    ensures
        leads(on(s, k).push(Frame::BigAddRight(v)), on(s, k).big_add_right(v)),
{
    reveal(EngineView::dispatch);
    reveal(EngineView::dispatch_big);
    lemma_step(s, k, Frame::BigAddRight(v));
}

pub(crate) proof fn on_negate_big<'a>(s: EngineView<'a>, k: Seq<Frame<'a>>)
    requires
        calm(s),
    ensures
        leads(on(s, k).push(Frame::NegateBig), on(s, k).negate_big()),
{
    reveal(EngineView::dispatch);
    reveal(EngineView::dispatch_big);
    lemma_step(s, k, Frame::NegateBig);
}

pub(crate) proof fn on_bit_not_big<'a>(s: EngineView<'a>, k: Seq<Frame<'a>>)
    requires
        calm(s),
    ensures
        leads(on(s, k).push(Frame::BitNotBig), on(s, k).bit_not_big()),
{
    reveal(EngineView::dispatch);
    reveal(EngineView::dispatch_big);
    lemma_step(s, k, Frame::BitNotBig);
}

pub(crate) proof fn on_inc_big<'a>(s: EngineView<'a>, k: Seq<Frame<'a>>, add: bool, post: bool, operand: &'a Expr, env: usize, before: Value)
    requires
        calm(s),
    ensures
        leads(on(s, k).push(Frame::IncBig { add, post, operand, env, before }), on(s, k).inc_big(add, post, operand, env, before)),
{
    reveal(EngineView::dispatch);
    reveal(EngineView::dispatch_big);
    lemma_step(s, k, Frame::IncBig { add, post, operand, env, before });
}

pub(crate) proof fn on_iterate<'a>(s: EngineView<'a>, k: Seq<Frame<'a>>, v: Value, list: usize)
    requires
        calm(s),
    ensures
        leads(on(s, k).push(Frame::Iterate(v, list)), on(s, k).iterable_values(v, list)),
{
    reveal(EngineView::dispatch);
    reveal(EngineView::dispatch_big);
    lemma_step(s, k, Frame::Iterate(v, list));
}

pub(crate) proof fn on_iter_done<'a>(s: EngineView<'a>, k: Seq<Frame<'a>>, it: Value, list: usize, r: Value)
    requires
        calm(s),
    ensures
        leads(on(s, k).push(Frame::IterDone(it, list, r)), on(s, k).iter_done(it, list, r)),
{
    reveal(EngineView::dispatch);
    reveal(EngineView::dispatch_big);
    lemma_step(s, k, Frame::IterDone(it, list, r));
}

pub(crate) proof fn on_iter_value<'a>(s: EngineView<'a>, k: Seq<Frame<'a>>, it: Value, list: usize)
    requires
        calm(s),
    ensures
        leads(on(s, k).push(Frame::IterValue(it, list)), on(s, k).iter_value(it, list)),
{
    reveal(EngineView::dispatch);
    reveal(EngineView::dispatch_big);
    lemma_step(s, k, Frame::IterValue(it, list));
}

pub(crate) proof fn on_stmt<'a>(s: EngineView<'a>, k: Seq<Frame<'a>>, x: &'a Stmt, env: usize, label: Option<usize>)
    requires
        calm(s),
    ensures
        leads(on(s, k).push(Frame::Stmt(x, env, label)), on(s, k).eval_stmt(x, env, label)),
{
    reveal(EngineView::dispatch);
    reveal(EngineView::dispatch_statement);
    lemma_step(s, k, Frame::Stmt(x, env, label));
}

pub(crate) proof fn on_stmts<'a>(s: EngineView<'a>, k: Seq<Frame<'a>>, list: &'a Vec<Stmt>, i: usize, env: usize, last: Option<Value>)
    requires
        s.ready(),
    ensures
        leads(on(s, k).push(Frame::Stmts(list, i, env, last)), on(s, k).exec_stmts(list, i, env, last)),
{
    reveal(EngineView::dispatch);
    reveal(EngineView::dispatch_statement);
    lemma_step(s, k, Frame::Stmts(list, i, env, last));
}

pub(crate) proof fn on_var_list<'a>(s: EngineView<'a>, k: Seq<Frame<'a>>, list: &'a Vec<Declarator>, i: usize, kind: VarKind, scope: usize, env: usize)
    requires
        calm(s),
    ensures
        leads(on(s, k).push(Frame::VarList(list, i, kind, scope, env)), on(s, k).eval_var_list(list, i, kind, scope, env)),
{
    reveal(EngineView::dispatch);
    reveal(EngineView::dispatch_statement);
    lemma_step(s, k, Frame::VarList(list, i, kind, scope, env));
}

pub(crate) proof fn on_bind_decl<'a>(s: EngineView<'a>, k: Seq<Frame<'a>>, pat: &'a Pattern, scope: usize, constant: bool)
    requires
        calm(s),
    ensures
        leads(on(s, k).push(Frame::BindDecl(pat, scope, constant)), on(s, k).bind_decl(pat, scope, constant)),
{
    reveal(EngineView::dispatch);
    reveal(EngineView::dispatch_statement);
    lemma_step(s, k, Frame::BindDecl(pat, scope, constant));
}

pub(crate) proof fn on_return_end<'a>(s: EngineView<'a>, k: Seq<Frame<'a>>)
    requires
        calm(s),
    ensures
        leads(on(s, k).push(Frame::ReturnEnd), on(s, k).return_end()),
{
    reveal(EngineView::dispatch);
    reveal(EngineView::dispatch_statement);
    lemma_step(s, k, Frame::ReturnEnd);
}

pub(crate) proof fn on_throw_end<'a>(s: EngineView<'a>, k: Seq<Frame<'a>>)
    requires
        calm(s),
    ensures
        leads(on(s, k).push(Frame::ThrowEnd), on(s, k).throw_end()),
{
    reveal(EngineView::dispatch);
    reveal(EngineView::dispatch_statement);
    lemma_step(s, k, Frame::ThrowEnd);
}

pub(crate) proof fn on_if_test<'a>(s: EngineView<'a>, k: Seq<Frame<'a>>, x: &'a Stmt, env: usize)
    requires
        calm(s),
    ensures
        leads(on(s, k).push(Frame::IfTest(x, env)), on(s, k).if_test(x, env)),
{
    reveal(EngineView::dispatch);
    reveal(EngineView::dispatch_statement);
    lemma_step(s, k, Frame::IfTest(x, env));
}

pub(crate) proof fn on_if_end<'a>(s: EngineView<'a>, k: Seq<Frame<'a>>)
    requires
        s.ready(),
    ensures
        leads(on(s, k).push(Frame::IfEnd), on(s, k).if_end()),
{
    reveal(EngineView::dispatch);
    reveal(EngineView::dispatch_statement);
    lemma_step(s, k, Frame::IfEnd);
}

pub(crate) proof fn on_try_end<'a>(s: EngineView<'a>, k: Seq<Frame<'a>>, x: &'a Stmt, env: usize)
    requires
        s.ready(),
    ensures
        leads(on(s, k).push(Frame::TryEnd(x, env)), on(s, k).try_postprocess(x, env)),
{
    reveal(EngineView::dispatch);
    reveal(EngineView::dispatch_statement);
    lemma_step(s, k, Frame::TryEnd(x, env));
}

pub(crate) proof fn on_catch_end<'a>(s: EngineView<'a>, k: Seq<Frame<'a>>, x: &'a Stmt, env: usize)
    requires
        s.ready(),
    ensures
        leads(on(s, k).push(Frame::CatchEnd(x, env)), on(s, k).run_finally(x, env)),
{
    reveal(EngineView::dispatch);
    reveal(EngineView::dispatch_statement);
    lemma_step(s, k, Frame::CatchEnd(x, env));
}

pub(crate) proof fn on_finally_end<'a>(s: EngineView<'a>, k: Seq<Frame<'a>>, c: Completion)
    requires
        calm(s),
    ensures
        leads(on(s, k).push(Frame::FinallyEnd(c)), on(s, k).done(c)),
{
    reveal(EngineView::dispatch);
    reveal(EngineView::dispatch_statement);
    lemma_step(s, k, Frame::FinallyEnd(c));
}

pub(crate) proof fn on_switch_on<'a>(s: EngineView<'a>, k: Seq<Frame<'a>>, x: &'a Stmt, env: usize)
    requires
        calm(s),
    ensures
        leads(on(s, k).push(Frame::SwitchOn(x, env)), on(s, k).exec_switch(x, env)),
{
    reveal(EngineView::dispatch);
    reveal(EngineView::dispatch_statement);
    lemma_step(s, k, Frame::SwitchOn(x, env));
}

pub(crate) proof fn on_switch_test<'a>(s: EngineView<'a>, k: Seq<Frame<'a>>, stmt: &'a Stmt, env: usize, given: Value, i: usize, default: Option<usize>)
    requires
        calm(s),
    ensures
        leads(on(s, k).push(Frame::SwitchTest { stmt, env, on: given, i, default }), on(s, k).switch_test(stmt, env, given, i, default)),
{
    reveal(EngineView::dispatch);
    reveal(EngineView::dispatch_statement);
    lemma_step(s, k, Frame::SwitchTest { stmt, env, on: given, i, default });
}

pub(crate) proof fn on_switch_match<'a>(s: EngineView<'a>, k: Seq<Frame<'a>>, stmt: &'a Stmt, env: usize, given: Value, i: usize, default: Option<usize>)
    requires
        calm(s),
    ensures
        leads(on(s, k).push(Frame::SwitchMatch { stmt, env, on: given, i, default }), on(s, k).switch_match(stmt, env, given, i, default)),
{
    reveal(EngineView::dispatch);
    reveal(EngineView::dispatch_statement);
    lemma_step(s, k, Frame::SwitchMatch { stmt, env, on: given, i, default });
}

pub(crate) proof fn on_switch_run<'a>(s: EngineView<'a>, k: Seq<Frame<'a>>, stmt: &'a Stmt, env: usize, i: usize, value: Option<Value>)
    requires
        s.ready(),
    ensures
        leads(on(s, k).push(Frame::SwitchRun { stmt, env, i, value }), on(s, k).exec_switch_from(stmt, env, i, value)),
{
    reveal(EngineView::dispatch);
    reveal(EngineView::dispatch_statement);
    lemma_step(s, k, Frame::SwitchRun { stmt, env, i, value });
}

pub(crate) proof fn on_for_of_on<'a>(s: EngineView<'a>, k: Seq<Frame<'a>>, x: &'a Stmt, env: usize, label: Option<usize>)
    requires
        calm(s),
    ensures
        leads(on(s, k).push(Frame::ForOfOn(x, env, label)), on(s, k).exec_for_of(x, env, label)),
{
    reveal(EngineView::dispatch);
    reveal(EngineView::dispatch_loop);
    lemma_step(s, k, Frame::ForOfOn(x, env, label));
}

pub(crate) proof fn on_each_next<'a>(s: EngineView<'a>, k: Seq<Frame<'a>>, stmt: &'a Stmt, env: usize, label: Option<usize>, source: usize, i: usize, value: Option<Value>)
    requires
        calm(s),
    ensures
        leads(on(s, k).push(Frame::EachNext { stmt, env, label, source, i, value }), on(s, k).each_next(stmt, env, label, source, i, value)),
{
    reveal(EngineView::dispatch);
    reveal(EngineView::dispatch_loop);
    lemma_step(s, k, Frame::EachNext { stmt, env, label, source, i, value });
}

pub(crate) proof fn on_each_body<'a>(s: EngineView<'a>, k: Seq<Frame<'a>>, stmt: &'a Stmt, env: usize, label: Option<usize>, source: usize, i: usize, value: Option<Value>, body_env: usize)
    requires
        calm(s),
    ensures
        leads(on(s, k).push(Frame::EachBody { stmt, env, label, source, i, value, body_env }), on(s, k).each_body(stmt, env, label, source, i, value, body_env)),
{
    reveal(EngineView::dispatch);
    reveal(EngineView::dispatch_loop);
    lemma_step(s, k, Frame::EachBody { stmt, env, label, source, i, value, body_env });
}

pub(crate) proof fn on_each_step<'a>(s: EngineView<'a>, k: Seq<Frame<'a>>, stmt: &'a Stmt, env: usize, label: Option<usize>, source: usize, i: usize, value: Option<Value>)
    requires
        s.ready(),
    ensures
        leads(on(s, k).push(Frame::EachStep { stmt, env, label, source, i, value }), on(s, k).each_step(stmt, env, label, source, i, value)),
{
    reveal(EngineView::dispatch);
    reveal(EngineView::dispatch_loop);
    lemma_step(s, k, Frame::EachStep { stmt, env, label, source, i, value });
}

pub(crate) proof fn on_for_head<'a>(s: EngineView<'a>, k: Seq<Frame<'a>>, stmt: &'a Stmt, env: usize, label: Option<usize>, fresh: bool)
    requires
        calm(s),
    ensures
        leads(on(s, k).push(Frame::ForHead { stmt, env, label, fresh }), on(s, k).push(Frame::ForTest { stmt: stmt, env: env, label: label, fresh: fresh, value: Some(Value::Undefined) })),
{
    reveal(EngineView::dispatch);
    reveal(EngineView::dispatch_loop);
    lemma_step(s, k, Frame::ForHead { stmt, env, label, fresh });
}

pub(crate) proof fn on_for_test<'a>(s: EngineView<'a>, k: Seq<Frame<'a>>, stmt: &'a Stmt, env: usize, label: Option<usize>, fresh: bool, value: Option<Value>)
    requires
        calm(s),
    ensures
        leads(on(s, k).push(Frame::ForTest { stmt, env, label, fresh, value }), on(s, k).exec_for_loop(stmt, env, label, fresh, value)),
{
    reveal(EngineView::dispatch);
    reveal(EngineView::dispatch_loop);
    lemma_step(s, k, Frame::ForTest { stmt, env, label, fresh, value });
}

pub(crate) proof fn on_for_cond<'a>(s: EngineView<'a>, k: Seq<Frame<'a>>, stmt: &'a Stmt, env: usize, label: Option<usize>, fresh: bool, value: Option<Value>)
    requires
        calm(s),
    ensures
        leads(on(s, k).push(Frame::ForCond { stmt, env, label, fresh, value }), on(s, k).for_cond(stmt, env, label, fresh, value)),
{
    reveal(EngineView::dispatch);
    reveal(EngineView::dispatch_loop);
    lemma_step(s, k, Frame::ForCond { stmt, env, label, fresh, value });
}

pub(crate) proof fn on_for_step<'a>(s: EngineView<'a>, k: Seq<Frame<'a>>, stmt: &'a Stmt, env: usize, label: Option<usize>, fresh: bool, value: Option<Value>)
    requires
        s.ready(),
    ensures
        leads(on(s, k).push(Frame::ForStep { stmt, env, label, fresh, value }), on(s, k).for_step(stmt, env, label, fresh, value)),
{
    reveal(EngineView::dispatch);
    reveal(EngineView::dispatch_loop);
    lemma_step(s, k, Frame::ForStep { stmt, env, label, fresh, value });
}

pub(crate) proof fn on_while_test<'a>(s: EngineView<'a>, k: Seq<Frame<'a>>, stmt: &'a Stmt, env: usize, label: Option<usize>, value: Option<Value>)
    requires
        calm(s),
    ensures
        leads(on(s, k).push(Frame::WhileTest { stmt, env, label, value }), on(s, k).exec_while_loop(stmt, env, label, value)),
{
    reveal(EngineView::dispatch);
    reveal(EngineView::dispatch_loop);
    lemma_step(s, k, Frame::WhileTest { stmt, env, label, value });
}

pub(crate) proof fn on_while_cond<'a>(s: EngineView<'a>, k: Seq<Frame<'a>>, stmt: &'a Stmt, env: usize, label: Option<usize>, value: Option<Value>)
    requires
        calm(s),
    ensures
        leads(on(s, k).push(Frame::WhileCond { stmt, env, label, value }), on(s, k).while_cond(stmt, env, label, value)),
{
    reveal(EngineView::dispatch);
    reveal(EngineView::dispatch_loop);
    lemma_step(s, k, Frame::WhileCond { stmt, env, label, value });
}

pub(crate) proof fn on_while_step<'a>(s: EngineView<'a>, k: Seq<Frame<'a>>, stmt: &'a Stmt, env: usize, label: Option<usize>, value: Option<Value>)
    requires
        s.ready(),
    ensures
        leads(on(s, k).push(Frame::WhileStep { stmt, env, label, value }), on(s, k).while_step(stmt, env, label, value)),
{
    reveal(EngineView::dispatch);
    reveal(EngineView::dispatch_loop);
    lemma_step(s, k, Frame::WhileStep { stmt, env, label, value });
}

pub(crate) proof fn on_do_body<'a>(s: EngineView<'a>, k: Seq<Frame<'a>>, stmt: &'a Stmt, env: usize, label: Option<usize>, value: Option<Value>)
    requires
        calm(s),
    ensures
        leads(on(s, k).push(Frame::DoBody { stmt, env, label, value }), on(s, k).exec_do_while_loop(stmt, env, label, value)),
{
    reveal(EngineView::dispatch);
    reveal(EngineView::dispatch_loop);
    lemma_step(s, k, Frame::DoBody { stmt, env, label, value });
}

pub(crate) proof fn on_do_step<'a>(s: EngineView<'a>, k: Seq<Frame<'a>>, stmt: &'a Stmt, env: usize, label: Option<usize>, value: Option<Value>)
    requires
        s.ready(),
    ensures
        leads(on(s, k).push(Frame::DoStep { stmt, env, label, value }), on(s, k).do_step(stmt, env, label, value)),
{
    reveal(EngineView::dispatch);
    reveal(EngineView::dispatch_loop);
    lemma_step(s, k, Frame::DoStep { stmt, env, label, value });
}

pub(crate) proof fn on_do_cond<'a>(s: EngineView<'a>, k: Seq<Frame<'a>>, stmt: &'a Stmt, env: usize, label: Option<usize>, value: Option<Value>)
    requires
        calm(s),
    ensures
        leads(on(s, k).push(Frame::DoCond { stmt, env, label, value }), on(s, k).do_cond(stmt, env, label, value)),
{
    reveal(EngineView::dispatch);
    reveal(EngineView::dispatch_loop);
    lemma_step(s, k, Frame::DoCond { stmt, env, label, value });
}

pub(crate) proof fn on_label_end<'a>(s: EngineView<'a>, k: Seq<Frame<'a>>, label: usize)
    requires
        s.ready(),
    ensures
        leads(on(s, k).push(Frame::LabelEnd(label)), on(s, k).label_end(label)),
{
    reveal(EngineView::dispatch);
    reveal(EngineView::dispatch_loop);
    lemma_step(s, k, Frame::LabelEnd(label));
}

pub(crate) proof fn on_call<'a>(s: EngineView<'a>, k: Seq<Frame<'a>>, func: Value, this: Value, list: usize)
    requires
        calm(s),
    ensures
        leads(on(s, k).push(Frame::Call { func, this, list }), on(s, k).call_function(func, this, list)),
{
    reveal(EngineView::dispatch);
    reveal(EngineView::dispatch_call);
    lemma_step(s, k, Frame::Call { func, this, list });
}

pub(crate) proof fn on_call_end<'a>(s: EngineView<'a>, k: Seq<Frame<'a>>)
    requires
        s.ready(),
    ensures
        leads(on(s, k).push(Frame::CallEnd), on(s, k).call_end()),
{
    reveal(EngineView::dispatch);
    reveal(EngineView::dispatch_call);
    lemma_step(s, k, Frame::CallEnd);
}

pub(crate) proof fn on_params<'a>(s: EngineView<'a>, k: Seq<Frame<'a>>, list: &'a Vec<Pattern>, i: usize, env: usize, args: usize)
    requires
        calm(s),
    ensures
        leads(on(s, k).push(Frame::Params(list, i, env, args)), on(s, k).bind_params(list, i, env, args)),
{
    reveal(EngineView::dispatch);
    reveal(EngineView::dispatch_call);
    lemma_step(s, k, Frame::Params(list, i, env, args));
}

pub(crate) proof fn on_finish_env<'a>(s: EngineView<'a>, k: Seq<Frame<'a>>, func: usize, this: Value, list: usize, env: usize)
    requires
        calm(s),
    ensures
        leads(on(s, k).push(Frame::FinishEnv { func, this, list, env }), on(s, k).finish_env(func, this, list, env)),
{
    reveal(EngineView::dispatch);
    reveal(EngineView::dispatch_call);
    lemma_step(s, k, Frame::FinishEnv { func, this, list, env });
}

pub(crate) proof fn on_body<'a>(s: EngineView<'a>, k: Seq<Frame<'a>>, func: usize, env: usize)
    requires
        calm(s),
    ensures
        leads(on(s, k).push(Frame::Body(func, env)), on(s, k).body(func, env)),
{
    reveal(EngineView::dispatch);
    reveal(EngineView::dispatch_call);
    lemma_step(s, k, Frame::Body(func, env));
}

pub(crate) proof fn on_fields<'a>(s: EngineView<'a>, k: Seq<Frame<'a>>, func: usize, i: usize, env: usize)
    requires
        calm(s),
    ensures
        leads(on(s, k).push(Frame::Fields(func, i, env)), on(s, k).fields(func, i, env)),
{
    reveal(EngineView::dispatch);
    reveal(EngineView::dispatch_call);
    lemma_step(s, k, Frame::Fields(func, i, env));
}

pub(crate) proof fn on_field_store<'a>(s: EngineView<'a>, k: Seq<Frame<'a>>, key: usize, env: usize)
    requires
        calm(s),
    ensures
        leads(on(s, k).push(Frame::FieldStore(key, env)), on(s, k).field_store(key, env)),
{
    reveal(EngineView::dispatch);
    reveal(EngineView::dispatch_call);
    lemma_step(s, k, Frame::FieldStore(key, env));
}

pub(crate) proof fn on_native_end<'a>(s: EngineView<'a>, k: Seq<Frame<'a>>, before: Option<Value>)
    requires
        s.ready(),
    ensures
        leads(on(s, k).push(Frame::NativeEnd(before)), on(s, k).set_native_ctor(before)),
{
    reveal(EngineView::dispatch);
    reveal(EngineView::dispatch_call);
    lemma_step(s, k, Frame::NativeEnd(before));
}

pub(crate) proof fn on_construct_end<'a>(s: EngineView<'a>, k: Seq<Frame<'a>>, inst: usize, target: Option<Value>)
    requires
        s.ready(),
    ensures
        leads(on(s, k).push(Frame::ConstructEnd { inst, target }), on(s, k).construct_end(inst, target)),
{
    reveal(EngineView::dispatch);
    reveal(EngineView::dispatch_call);
    lemma_step(s, k, Frame::ConstructEnd { inst, target });
}

pub(crate) proof fn on_native_ctor_end<'a>(s: EngineView<'a>, k: Seq<Frame<'a>>, inst: usize, target: Option<Value>, realm: Option<usize>, ctor: Option<Value>)
    requires
        s.ready(),
    ensures
        leads(on(s, k).push(Frame::NativeCtorEnd { inst, target, realm, ctor }), on(s, k).native_ctor_end(inst, target, realm, ctor)),
{
    reveal(EngineView::dispatch);
    reveal(EngineView::dispatch_call);
    lemma_step(s, k, Frame::NativeCtorEnd { inst, target, realm, ctor });
}

pub(crate) proof fn on_derived_end<'a>(s: EngineView<'a>, k: Seq<Frame<'a>>, env: usize, placeholder: Value, target: Option<Value>)
    requires
        s.ready(),
    ensures
        leads(on(s, k).push(Frame::DerivedEnd { env, placeholder, target }), on(s, k).derived_end(env, placeholder, target)),
{
    reveal(EngineView::dispatch);
    reveal(EngineView::dispatch_call);
    lemma_step(s, k, Frame::DerivedEnd { env, placeholder, target });
}

pub(crate) proof fn on_generator_end<'a>(s: EngineView<'a>, k: Seq<Frame<'a>>, generator: Value, list: usize, sink: Option<usize>)
    requires
        s.ready(),
    ensures
        leads(on(s, k).push(Frame::GeneratorEnd { generator, list, sink }), on(s, k).generator_end(generator, list, sink)),
{
    reveal(EngineView::dispatch);
    reveal(EngineView::dispatch_call);
    lemma_step(s, k, Frame::GeneratorEnd { generator, list, sink });
}

pub(crate) proof fn on_async_end<'a>(s: EngineView<'a>, k: Seq<Frame<'a>>, cap: usize, resumed: bool)
    requires
        s.ready(),
    ensures
        leads(on(s, k).push(Frame::AsyncEnd { cap, resumed }), on(s, k).async_end(cap, resumed)),
{
    reveal(EngineView::dispatch);
    reveal(EngineView::dispatch_promise);
    lemma_step(s, k, Frame::AsyncEnd { cap, resumed });
}

pub(crate) proof fn on_async_tail<'a>(s: EngineView<'a>, k: Seq<Frame<'a>>, cap: usize, resumed: bool)
    requires
        s.ready(),
    ensures
        leads(on(s, k).push(Frame::AsyncTail { cap, resumed }), on(s, k).async_tail(cap, resumed)),
{
    reveal(EngineView::dispatch);
    reveal(EngineView::dispatch_promise);
    lemma_step(s, k, Frame::AsyncTail { cap, resumed });
}

pub(crate) proof fn on_resolve<'a>(s: EngineView<'a>, k: Seq<Frame<'a>>, cap: usize, v: Value)
    requires
        calm(s),
    ensures
        leads(on(s, k).push(Frame::Resolve(cap, v)), on(s, k).resolve_value(cap, v)),
{
    reveal(EngineView::dispatch);
    reveal(EngineView::dispatch_promise);
    lemma_step(s, k, Frame::Resolve(cap, v));
}

pub(crate) proof fn on_then_got<'a>(s: EngineView<'a>, k: Seq<Frame<'a>>, cap: usize, v: Value)
    requires
        s.ready(),
    ensures
        leads(on(s, k).push(Frame::ThenGot(cap, v)), on(s, k).got_then(cap, v)),
{
    reveal(EngineView::dispatch);
    reveal(EngineView::dispatch_promise);
    lemma_step(s, k, Frame::ThenGot(cap, v));
}

pub(crate) proof fn on_react<'a>(s: EngineView<'a>, k: Seq<Frame<'a>>, r: PromiseReaction, how: Settlement)
    requires
        calm(s),
    ensures
        leads(on(s, k).push(Frame::React(r, how)), on(s, k).enqueue_reaction_job(r, how)),
{
    reveal(EngineView::dispatch);
    reveal(EngineView::dispatch_promise);
    lemma_step(s, k, Frame::React(r, how));
}

pub(crate) proof fn on_drain<'a>(s: EngineView<'a>, k: Seq<Frame<'a>>, steps: usize)
    requires
        calm(s),
    ensures
        leads(on(s, k).push(Frame::Drain(steps)), on(s, k).drain_jobs(steps)),
{
    reveal(EngineView::dispatch);
    reveal(EngineView::dispatch_promise);
    lemma_step(s, k, Frame::Drain(steps));
}

pub(crate) proof fn on_then_end<'a>(s: EngineView<'a>, k: Seq<Frame<'a>>, cap: usize)
    requires
        s.ready(),
    ensures
        leads(on(s, k).push(Frame::ThenEnd(cap)), on(s, k).then_end(cap)),
{
    reveal(EngineView::dispatch);
    reveal(EngineView::dispatch_promise);
    lemma_step(s, k, Frame::ThenEnd(cap));
}

pub(crate) proof fn on_finally_done<'a>(s: EngineView<'a>, k: Seq<Frame<'a>>, cap: usize, original: Settlement)
    requires
        s.ready(),
    ensures
        leads(on(s, k).push(Frame::FinallyDone { cap, original }), on(s, k).finally_done(cap, original)),
{
    reveal(EngineView::dispatch);
    reveal(EngineView::dispatch_promise);
    lemma_step(s, k, Frame::FinallyDone { cap, original });
}

pub(crate) proof fn on_finally_mid<'a>(s: EngineView<'a>, k: Seq<Frame<'a>>, mid: usize, cap: usize, original: Settlement)
    requires
        calm(s),
    ensures
        leads(on(s, k).push(Frame::FinallyMid { mid, cap, original }), on(s, k).finally_mid(mid, cap, original)),
{
    reveal(EngineView::dispatch);
    reveal(EngineView::dispatch_promise);
    lemma_step(s, k, Frame::FinallyMid { mid, cap, original });
}

pub(crate) proof fn on_custom_end<'a>(s: EngineView<'a>, k: Seq<Frame<'a>>, resolve: Value, reject: Value)
    requires
        s.ready(),
    ensures
        leads(on(s, k).push(Frame::CustomEnd { resolve, reject }), on(s, k).custom_end(resolve, reject)),
{
    reveal(EngineView::dispatch);
    reveal(EngineView::dispatch_promise);
    lemma_step(s, k, Frame::CustomEnd { resolve, reject });
}

pub(crate) proof fn on_thenable_end<'a>(s: EngineView<'a>, k: Seq<Frame<'a>>, cap: usize)
    requires
        s.ready(),
    ensures
        leads(on(s, k).push(Frame::ThenableEnd(cap)), on(s, k).thenable_end(cap)),
{
    reveal(EngineView::dispatch);
    reveal(EngineView::dispatch_promise);
    lemma_step(s, k, Frame::ThenableEnd(cap));
}

pub(crate) proof fn on_microtask_end<'a>(s: EngineView<'a>, k: Seq<Frame<'a>>)
    requires
        s.ready(),
    ensures
        leads(on(s, k).push(Frame::MicrotaskEnd), on(s, k).task_end()),
{
    reveal(EngineView::dispatch);
    reveal(EngineView::dispatch_promise);
    lemma_step(s, k, Frame::MicrotaskEnd);
}

pub(crate) proof fn on_timers<'a>(s: EngineView<'a>, k: Seq<Frame<'a>>, ran: usize, limit: usize)
    requires
        calm(s),
    ensures
        leads(on(s, k).push(Frame::Timers(ran, limit)), on(s, k).drain_timers(ran, limit)),
{
    reveal(EngineView::dispatch);
    reveal(EngineView::dispatch_task);
    lemma_step(s, k, Frame::Timers(ran, limit));
}

pub(crate) proof fn on_timer_end<'a>(s: EngineView<'a>, k: Seq<Frame<'a>>, t: TimerEntry, ran: usize, limit: usize)
    requires
        s.ready(),
    ensures
        leads(on(s, k).push(Frame::TimerEnd(t, ran, limit)), on(s, k).timer_end(t, ran, limit)),
{
    reveal(EngineView::dispatch);
    reveal(EngineView::dispatch_task);
    lemma_step(s, k, Frame::TimerEnd(t, ran, limit));
}

pub(crate) proof fn on_timer_next<'a>(s: EngineView<'a>, k: Seq<Frame<'a>>, t: TimerEntry, ran: usize, limit: usize)
    requires
        calm(s),
    ensures
        leads(on(s, k).push(Frame::TimerNext(t, ran, limit)), on(s, k).timer_next(t, ran, limit)),
{
    reveal(EngineView::dispatch);
    reveal(EngineView::dispatch_task);
    lemma_step(s, k, Frame::TimerNext(t, ran, limit));
}

pub(crate) proof fn on_proto_or<'a>(s: EngineView<'a>, k: Seq<Frame<'a>>, d: usize)
    requires
        calm(s),
    ensures
        leads(on(s, k).push(Frame::ProtoOr(d)), on(s, k).proto_or(d)),
{
    reveal(EngineView::dispatch);
    reveal(EngineView::dispatch_task);
    lemma_step(s, k, Frame::ProtoOr(d));
}

pub(crate) proof fn on_species_ctor<'a>(s: EngineView<'a>, k: Seq<Frame<'a>>, d: Value)
    requires
        calm(s),
    ensures
        leads(on(s, k).push(Frame::SpeciesCtor(d)), on(s, k).species_ctor(d)),
{
    reveal(EngineView::dispatch);
    reveal(EngineView::dispatch_task);
    lemma_step(s, k, Frame::SpeciesCtor(d));
}

pub(crate) proof fn on_species_end<'a>(s: EngineView<'a>, k: Seq<Frame<'a>>, d: Value)
    requires
        calm(s),
    ensures
        leads(on(s, k).push(Frame::SpeciesEnd(d)), on(s, k).species_end(d)),
{
    reveal(EngineView::dispatch);
    reveal(EngineView::dispatch_task);
    lemma_step(s, k, Frame::SpeciesEnd(d));
}

pub(crate) proof fn on_cap_end<'a>(s: EngineView<'a>, k: Seq<Frame<'a>>, id: u64)
    requires
        s.ready(),
    ensures
        leads(on(s, k).push(Frame::CapEnd(id)), on(s, k).cap_end(id)),
{
    reveal(EngineView::dispatch);
    reveal(EngineView::dispatch_task);
    lemma_step(s, k, Frame::CapEnd(id));
}

pub(crate) proof fn on_number_end<'a>(s: EngineView<'a>, k: Seq<Frame<'a>>)
    requires
        calm(s),
    ensures
        leads(on(s, k).push(Frame::NumberEnd), on(s, k).number_end()),
{
    reveal(EngineView::dispatch);
    reveal(EngineView::dispatch_task);
    lemma_step(s, k, Frame::NumberEnd);
}

} // verus!
