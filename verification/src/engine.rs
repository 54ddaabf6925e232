//! The state of the evaluator.
//!
//! Evaluation is an abstract machine. Its stack holds frames, each of which is
//! either work to start or what waits for the completion of the work above it;
//! the accumulator holds the completion that the last frame gave. What only the
//! host can do (arithmetic on doubles, its own functions) is asked for and
//! answered between steps. Suspending an `async` function is putting the top of
//! the stack aside.
use vstd::prelude::*;
use crate::assoc::Assoc;
use crate::ast::{Arg, ArrayElem, AssignTarget, BinaryOp, Class, Declarator, Expr, LogicalOp, Pattern, Prop, PropKey, Stmt, VarKind};
use crate::store::{Store, StoreView};
use crate::value::{PromiseReaction, RealmInfo, Serials, Settlement, Value};

verus! {

/// How evaluation of a piece of code ended.
#[derive(Clone, Copy, PartialEq, Eq, Structural, Debug)]
pub enum Completion {
    /// Normally, with the value that it produced, if any.
    Normal(Option<Value>),
    Throw(Value),
    Return(Value),
    /// A `break`, with its label and the value so far.
    Break(Option<usize>, Option<Value>),
    /// A `continue`, with its label and the value so far.
    Continue(Option<usize>, Option<Value>),
    /// A call in tail position, made once the running function is left.
    TailCall { func: Value, this: Value, args: usize },
    /// A feature that the engine lacks, with a message; `catch` does not see it.
    Unimplemented(usize),
}

/// The preferred type of a conversion to a primitive.
#[derive(Clone, Copy, PartialEq, Eq, Structural, Debug)]
pub enum PrimitiveHint {
    Default,
    Number,
    String,
}

/// Whether a pattern declares its names or assigns to them.
#[derive(Clone, Copy, PartialEq, Eq, Structural, Debug)]
pub enum Mode {
    Bind,
    Assign,
}

/// What the machine asks of the host.
#[derive(Clone, Copy, PartialEq, Eq, Structural, Debug)]
pub enum Request {
    /// Arithmetic on two doubles.
    Arith(BinaryOp, u64, u64),
    /// The double of a decimal text, its sign changed where `negative` holds: the
    /// nearest one, as `rounding::nearest` has it.
    Decimal { text: usize, negative: bool },
    /// The double of the digits of a radix, read one by one.
    Radix { text: usize, radix: u32 },
    /// The shortest positional text of a positive double: digits that read as it, as
    /// `rounding::host_digits` has it, and no more of them than are needed.
    Fixed(u64),
    /// The shortest text of a positive double with an exponent, in the same sense.
    Exponent(u64),
    /// A call of a host function.
    Native { func: Value, this: Value, args: usize, construct: bool },
}

/// A job of the queue.
#[derive(Clone, Copy, PartialEq, Eq, Structural, Debug)]
pub enum Job {
    /// A reaction to a settled promise.
    Reaction { reaction: PromiseReaction, settlement: Settlement },
    /// Resume a suspended `await`, and settle `capability` with its outcome.
    AsyncResume { cont: usize, settlement: Settlement, capability: usize },
    /// Call the `then` of a thenable to assimilate it.
    Thenable { then_fn: Value, thenable: Value, capability: usize },
    /// A plain callback.
    Microtask { callback: Value },
}

/// A timer on the virtual clock.
#[derive(Clone, Copy, PartialEq, Eq, Structural, Debug)]
pub struct TimerEntry {
    pub id: u64,
    pub deadline: u64,
    pub callback: Value,
    /// The list of the arguments.
    pub args: usize,
    /// The interval of a repeating timer.
    pub repeat: Option<u64>,
}

/// The functions that a capability's executor received, by the capability's
/// number.
#[derive(Clone, Copy, Debug)]
pub struct CapRecord {
    pub id: u64,
    pub functions: Option<(Value, Value)>,
}

/// A frame of the stack.
#[derive(Clone, Copy)]
pub enum Frame<'a> {
    /// Hands control back to the host.
    Barrier,
    /// Replaces the value.
    Give(Value),
    /// Replaces the completion.
    Restore(Completion),
    /// Turns a failed getter into `undefined`.
    Swallow,
    Expr(&'a Expr, usize),
    Member(&'a Expr, usize),
    MemberKey(Value),
    ToKey,
    KeyText,
    CallBase(&'a Expr, usize, bool),
    CallKey(&'a Expr, usize, Value, bool),
    CallFunc(&'a Expr, usize, Value, bool),
    Args(&'a Vec<Arg>, usize, usize, usize),
    Append(usize),
    SpreadArg(usize),
    Spread(usize),
    Apply { func: Value, this: Value, list: usize, tail: bool },
    NewFunc(&'a Expr, usize),
    Construct { func: Value, list: usize },
    SuperCall { ctor: Value, list: usize, env: usize },
    SuperDone(usize),
    Sequence(&'a Vec<Expr>, usize, usize),
    InstanceRight(&'a Expr, usize),
    InstanceEnd(Value),
    BinaryRight(BinaryOp, &'a Expr, usize),
    BinaryEnd(BinaryOp, Value),
    LogicalEnd(LogicalOp, &'a Expr, usize),
    UnaryEnd(&'a Expr, usize),
    Negate,
    BitNot,
    IncEnd { add: bool, post: bool, operand: &'a Expr, env: usize, before: Value },
    IncStore { post: bool, operand: &'a Expr, env: usize, before: Value },
    DeleteBase(&'a Expr, usize),
    DeleteKey(Value),
    TernaryEnd(&'a Expr, usize),
    AssignEnd(&'a AssignTarget, usize),
    AssignBase(&'a Expr, usize, Value),
    AssignKey(Value, Value),
    SetNumber(Value),
    Elems(&'a Vec<ArrayElem>, usize, usize, usize),
    MakeArray(usize),
    Props(&'a Vec<Prop>, usize, usize, usize),
    PropValue(&'a PropKey, usize, usize),
    PropStore(usize, Value),
    PropMethod(&'a Prop, usize, usize),
    PropSpread(usize),
    StringOf,
    TagFunc(&'a Expr, usize),
    TagCooked { func: Value, subs: &'a Vec<Expr>, env: usize, list: usize },
    Exprs(&'a Vec<Expr>, usize, usize, usize),
    AwaitEnd,
    YieldEnd,
    ClassParent(&'a Class, usize),
    ClassKeys { class: &'a Class, env: usize, parent: Option<Value>, proto: usize, base: usize, i: usize, list: usize },
    ClassMethods { class: &'a Class, env: usize, ctor: usize, proto: usize, base: usize, i: usize },
    ClassMethodKey { class: &'a Class, env: usize, ctor: usize, proto: usize, base: usize, i: usize },
    ClassStatics { class: &'a Class, env: usize, ctor: usize, i: usize },
    ClassStaticKey { class: &'a Class, env: usize, ctor: usize, i: usize },
    ClassStaticValue { ctor: usize, key: usize },
    ClassStaticMethods { class: &'a Class, env: usize, ctor: usize, i: usize },
    ClassStaticMethodKey { class: &'a Class, env: usize, ctor: usize, i: usize },
    Bind(&'a Pattern, usize, Mode),
    BindElems(&'a Pattern, usize, Mode, usize, usize),
    BindProps(&'a Pattern, usize, Mode, usize, usize),
    BindKeyed(&'a Pattern, usize, Mode, usize),
    MarkConst(&'a Pattern, usize),
    HeadBind,
    ToPrim(PrimitiveHint),
    PrimExotic(Value, PrimitiveHint),
    PrimEnd,
    PrimTry { value: Value, number_first: bool, second: bool },
    PrimCall { value: Value, number_first: bool, second: bool },
    PrimGot { value: Value, number_first: bool, second: bool },
    Num(Value),
    Text(Value),
    TextJoin(usize, usize, usize),
    TextItem(usize, usize, usize),
    TextSign(bool),
    TextExponent(bool),
    ConcatRight(Value),
    ConcatEnd(usize),
    NumRight(BinaryOp, Value),
    NumEnd(BinaryOp, u64),
    LooseEq(Value, Value, bool),
    LooseOther(Value, bool),
    InKey(Value),
    ByteLen,
    BigConcat(Value),
    BigNumeric(BinaryOp, Value),
    BigNumericEnd(BinaryOp, Value),
    Numeric,
    BigAddLeft(Value),
    BigAddRight(Value),
    BigEqLeft(Value, bool),
    BigEqRight(Value, bool),
    NegateBig,
    BitNotBig,
    IncBig { add: bool, post: bool, operand: &'a Expr, env: usize, before: Value },
    Iterate(Value, usize),
    IterCheck(Value, usize),
    IterAgain(Value, usize),
    IterCall(Value, usize),
    IterObj(usize),
    IterNext(Value, usize),
    IterCallNext(Value, usize),
    IterRes(Value, usize),
    IterDone(Value, usize, Value),
    IterValue(Value, usize),
    IterLen(Value, usize),
    IterIndex(Value, usize, usize, usize),
    Stmt(&'a Stmt, usize, Option<usize>),
    Stmts(&'a Vec<Stmt>, usize, usize, Option<Value>),
    VarList(&'a Vec<Declarator>, usize, VarKind, usize, usize),
    BindDecl(&'a Pattern, usize, bool),
    ReturnEnd,
    ThrowEnd,
    IfTest(&'a Stmt, usize),
    IfEnd,
    TryEnd(&'a Stmt, usize),
    CatchEnd(&'a Stmt, usize),
    FinallyEnd(Completion),
    SwitchOn(&'a Stmt, usize),
    SwitchTest { stmt: &'a Stmt, env: usize, on: Value, i: usize, default: Option<usize> },
    SwitchMatch { stmt: &'a Stmt, env: usize, on: Value, i: usize, default: Option<usize> },
    SwitchRun { stmt: &'a Stmt, env: usize, i: usize, value: Option<Value> },
    ForInOn(&'a Stmt, usize, Option<usize>),
    ForOfOn(&'a Stmt, usize, Option<usize>),
    EachNext { stmt: &'a Stmt, env: usize, label: Option<usize>, source: usize, i: usize, value: Option<Value> },
    EachBody { stmt: &'a Stmt, env: usize, label: Option<usize>, source: usize, i: usize, value: Option<Value>, body_env: usize },
    EachStep { stmt: &'a Stmt, env: usize, label: Option<usize>, source: usize, i: usize, value: Option<Value> },
    ForHead { stmt: &'a Stmt, env: usize, label: Option<usize>, fresh: bool },
    ForTest { stmt: &'a Stmt, env: usize, label: Option<usize>, fresh: bool, value: Option<Value> },
    ForCond { stmt: &'a Stmt, env: usize, label: Option<usize>, fresh: bool, value: Option<Value> },
    ForStep { stmt: &'a Stmt, env: usize, label: Option<usize>, fresh: bool, value: Option<Value> },
    WhileTest { stmt: &'a Stmt, env: usize, label: Option<usize>, value: Option<Value> },
    WhileCond { stmt: &'a Stmt, env: usize, label: Option<usize>, value: Option<Value> },
    WhileStep { stmt: &'a Stmt, env: usize, label: Option<usize>, value: Option<Value> },
    DoBody { stmt: &'a Stmt, env: usize, label: Option<usize>, value: Option<Value> },
    DoStep { stmt: &'a Stmt, env: usize, label: Option<usize>, value: Option<Value> },
    DoCond { stmt: &'a Stmt, env: usize, label: Option<usize>, value: Option<Value> },
    LabelEnd(usize),
    Call { func: Value, this: Value, list: usize },
    CallEnd,
    Params(&'a Vec<Pattern>, usize, usize, usize),
    FinishEnv { func: usize, this: Value, list: usize, env: usize },
    Body(usize, usize),
    Fields(usize, usize, usize),
    FieldStore(usize, usize),
    Forward(usize),
    NativeEnd(Option<Value>),
    ConstructEnd { inst: usize, target: Option<Value> },
    NativeCtorEnd { inst: usize, target: Option<Value>, realm: Option<usize>, ctor: Option<Value> },
    DerivedEnd { env: usize, placeholder: Value, target: Option<Value> },
    GenFn(Value),
    GenThis(Value, Value),
    GenArgs(Value, Value, Value),
    GeneratorEnd { generator: Value, list: usize, sink: Option<usize> },
    AsyncEnd { cap: usize, resumed: bool },
    AsyncTail { cap: usize, resumed: bool },
    Resolve(usize, Value),
    ThenGot(usize, Value),
    React(PromiseReaction, Settlement),
    AwaitThen { awaited: Value, target: usize, cont: usize, cap: usize },
    Drain(usize),
    ThenEnd(usize),
    FinallyDone { cap: usize, original: Settlement },
    FinallyMid { mid: usize, cap: usize, original: Settlement },
    CustomEnd { resolve: Value, reject: Value },
    CustomCallEnd,
    ThenableEnd(usize),
    MicrotaskEnd,
    Timers(usize, usize),
    TimerEnd(TimerEntry, usize, usize),
    TimerNext(TimerEntry, usize, usize),
    EvalEnd,
    ProtoOr(usize),
    SpeciesCtor(Value),
    SpeciesEnd(Value),
    CapEnd(u64),
    NumberEnd,
    IntegerEnd,
}

/// The engine: the store, the machine's stack and accumulator, and the queues.
pub struct Engine<'a> {
    pub store: Store<'a>,
    pub frames: Vec<Frame<'a>>,
    pub acc: Completion,
    /// What the host has been asked for.
    pub pending: Option<Request>,
    /// Whether control is with the host.
    pub halted: bool,
    /// The stacks of suspended functions.
    pub conts: Vec<Vec<Frame<'a>>>,
    /// The job queue, first in first out.
    pub jobs: Vec<Job>,
    /// Rejections and exceptions that nothing has handled.
    pub unhandled: Vec<Value>,
    pub timers: Vec<TimerEntry>,
    pub cancelled: Vec<u64>,
    /// The virtual clock, in milliseconds.
    pub now: u64,
    pub next_timer: u64,
    /// How many timers the last pump ran.
    pub ran: usize,
    pub caps: Vec<CapRecord>,
    pub next_cap: u64,
    pub new_target: Option<Value>,
    pub native_ctor: Option<Value>,
    pub native_realm: Option<usize>,
    pub realms: Vec<RealmInfo>,
    pub realm: usize,
    /// The list that gathers what a generator yields.
    pub sink: Option<usize>,
    /// The descriptions of symbols.
    pub symbols: Assoc<usize>,
    /// The serial numbers of symbols.
    pub serials: Serials,
}

/// The contents of an [`Engine`].
#[verifier::ext_equal]
pub struct EngineView<'a> {
    pub store: StoreView<'a>,
    pub frames: Seq<Frame<'a>>,
    pub acc: Completion,
    pub pending: Option<Request>,
    pub halted: bool,
    pub conts: Seq<Seq<Frame<'a>>>,
    pub jobs: Seq<Job>,
    pub unhandled: Seq<Value>,
    pub timers: Seq<TimerEntry>,
    pub cancelled: Set<u64>,
    pub now: u64,
    pub next_timer: u64,
    pub ran: usize,
    pub caps: Seq<CapRecord>,
    pub next_cap: u64,
    pub new_target: Option<Value>,
    pub native_ctor: Option<Value>,
    pub native_realm: Option<usize>,
    pub realms: Seq<RealmInfo>,
    pub realm: usize,
    pub sink: Option<usize>,
    pub symbols: Map<usize, usize>,
    pub serials: Serials,
}

impl<'a> Engine<'a> {
    /// The contents.
    pub open spec fn view(&self) -> EngineView<'a> {
        EngineView {
            store: self.store@,
            frames: self.frames@,
            acc: self.acc,
            pending: self.pending,
            halted: self.halted,
            conts: self.conts@.map_values(|v: Vec<Frame<'a>>| v@),
            jobs: self.jobs@,
            unhandled: self.unhandled@,
            timers: self.timers@,
            cancelled: self.cancelled@.to_set(),
            now: self.now,
            next_timer: self.next_timer,
            ran: self.ran,
            caps: self.caps@,
            next_cap: self.next_cap,
            new_target: self.new_target,
            native_ctor: self.native_ctor,
            native_realm: self.native_realm,
            realms: self.realms@,
            realm: self.realm,
            sink: self.sink,
            symbols: self.symbols@,
            serials: self.serials,
        }
    }
}

} // verus!
