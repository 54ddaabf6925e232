//! The syntax tree that the parsers build and the evaluator walks.
//!
//! Every node type has a mathematical twin, named with the suffix `Tree`, in
//! which vectors and strings are sequences. `tree()` gives the twin of a node;
//! the parsers' contracts speak of twins.
use vstd::prelude::*;
use crate::text::texts;

verus! {

/// A binary operator.
#[derive(Clone, Copy, PartialEq, Eq, Structural, Debug)]
pub enum BinaryOp {
    Add,
    Sub,
    Mul,
    Div,
    Rem,
    Exp,
    Eq,
    Ne,
    StrictEq,
    StrictNe,
    Lt,
    Gt,
    Le,
    Ge,
    In,
    BitAnd,
    BitOr,
    BitXor,
    Shl,
    Shr,
    Ushr,
}

/// A unary operator.
#[derive(Clone, Copy, PartialEq, Eq, Structural, Debug)]
pub enum UnaryOp {
    Neg,
    Plus,
    Not,
    Void,
    Typeof,
    BitNot,
    Delete,
    PreInc,
    PreDec,
    PostInc,
    PostDec,
}

/// A short-circuiting operator.
#[derive(Clone, Copy, PartialEq, Eq, Structural, Debug)]
pub enum LogicalOp {
    And,
    Or,
    Coalesce,
}

/// How a declaration binds its names.
#[derive(Clone, Copy, PartialEq, Eq, Structural, Debug)]
pub enum VarKind {
    Var,
    Let,
    Const,
}

/// A literal. Numbers and big integers are kept as their text.
#[allow(inconsistent_fields)]
pub enum Lit {
    /// A number, in decimal notation.
    Number(String),
    Str(String),
    Bool(bool),
    Undefined,
    Null,
    /// A big integer, in decimal notation.
    BigInt(String),
    Regex { pattern: String, flags: String },
}

/// An expression.
#[allow(inconsistent_fields)]
pub enum Expr {
    Lit(Lit),
    Ident(String),
    This,
    Super,
    /// `obj.prop`, or `obj[computed]` where `computed` is there.
    Member { obj: Box<Expr>, prop: String, computed: Option<Box<Expr>>, optional: bool },
    Call { callee: Box<Expr>, args: Vec<Arg>, optional: bool },
    New { callee: Box<Expr>, args: Vec<Arg> },
    Sequence(Vec<Expr>),
    InstanceOf { left: Box<Expr>, right: Box<Expr> },
    Binary { op: BinaryOp, left: Box<Expr>, right: Box<Expr> },
    Logical { op: LogicalOp, left: Box<Expr>, right: Box<Expr> },
    Unary { op: UnaryOp, operand: Box<Expr> },
    Ternary { cond: Box<Expr>, yes: Box<Expr>, no: Box<Expr> },
    Assignment { target: AssignTarget, value: Box<Expr> },
    Array(Vec<ArrayElem>),
    Object(Vec<Prop>),
    Function { name: Option<String>, params: Vec<Pattern>, body: Vec<Stmt> },
    Arrow { params: Vec<Pattern>, body: Vec<Stmt> },
    Class(Box<Class>),
    /// A tagged template: the tag, the literal parts, and the substitutions.
    Tagged { tag: Box<Expr>, cooked: Vec<Expr>, raws: Vec<String>, subs: Vec<Expr> },
    /// The string conversion of a template substitution.
    ToString(Box<Expr>),
    Await(Box<Expr>),
    Yield { expr: Option<Box<Expr>>, delegated: bool },
}

/// What an assignment writes to.
#[allow(inconsistent_fields)]
pub enum AssignTarget {
    Expr(Box<Expr>),
    Pattern(Pattern),
}

/// A call argument.
#[allow(inconsistent_fields)]
pub enum Arg {
    Expr(Expr),
    Spread(Expr),
}

/// An element of an array literal.
#[allow(inconsistent_fields)]
pub enum ArrayElem {
    Expr(Expr),
    Spread(Expr),
    Elision,
}

/// A property key.
#[allow(inconsistent_fields)]
pub enum PropKey {
    Ident(String),
    Str(String),
    Computed(Box<Expr>),
}

/// A property of an object literal.
#[allow(inconsistent_fields)]
pub enum Prop {
    Init { key: PropKey, value: Expr },
    Method { key: PropKey, params: Vec<Pattern>, body: Vec<Stmt> },
    /// A getter (`get`) or a setter.
    Accessor { get: bool, key: PropKey, params: Vec<Pattern>, body: Vec<Stmt> },
    Spread(Expr),
}

/// A binding or assignment pattern.
#[allow(inconsistent_fields)]
pub enum Pattern {
    Ident(String),
    Array { elems: Vec<Option<Pattern>>, rest: Option<Box<Pattern>> },
    Object { props: Vec<PropPattern>, rest: Option<Box<Pattern>> },
    /// An assignment to a member expression.
    Member(Box<Expr>),
    Default { inner: Box<Pattern>, default: Box<Expr> },
}

/// One `key: pattern` of an object pattern.
pub struct PropPattern {
    pub key: PropKey,
    pub value: Pattern,
}

/// A class.
pub struct Class {
    pub name: Option<String>,
    pub extends: Option<Box<Expr>>,
    pub elements: Vec<ClassElem>,
}

/// A class element.
#[allow(inconsistent_fields)]
pub enum ClassElem {
    Constructor { params: Vec<Pattern>, body: Vec<Stmt> },
    /// A method, or a getter where `get` holds.
    Method { is_static: bool, get: bool, key: PropKey, params: Vec<Pattern>, body: Vec<Stmt> },
    Field { is_static: bool, key: PropKey, init: Option<Expr> },
    AccessorProp { is_static: bool, key: PropKey },
}

/// One `pattern = init` of a declaration.
pub struct Declarator {
    pub pat: Pattern,
    pub init: Option<Expr>,
}

/// A `catch` clause with its (possibly unused) name.
pub struct CatchClause {
    pub name: String,
    pub body: Vec<Stmt>,
}

/// A `case`, or the `default` where `test` is missing.
pub struct SwitchCase {
    pub test: Option<Expr>,
    pub body: Vec<Stmt>,
}

/// A statement.
#[allow(inconsistent_fields)]
pub enum Stmt {
    Var(Vec<Declarator>, VarKind),
    Expr(Expr),
    FunctionDecl { name: String, params: Vec<Pattern>, body: Vec<Stmt> },
    Return(Option<Expr>),
    Block(Vec<Stmt>),
    Empty,
    Break(Option<String>),
    Continue(Option<String>),
    Throw(Expr),
    If { cond: Expr, yes: Vec<Stmt>, no: Vec<Stmt> },
    Try { try_block: Vec<Stmt>, catch: Option<CatchClause>, finally: Option<Vec<Stmt>> },
    Switch { discriminant: Expr, cases: Vec<SwitchCase> },
    ForIn { kind: VarKind, name: Pattern, expr: Expr, body: Vec<Stmt> },
    ForOf { kind: VarKind, name: Pattern, expr: Expr, body: Vec<Stmt> },
    For { init: Option<Box<Stmt>>, cond: Option<Expr>, update: Option<Expr>, body: Vec<Stmt> },
    While { cond: Expr, body: Vec<Stmt> },
    DoWhile { cond: Expr, body: Vec<Stmt> },
    Labeled { label: String, body: Box<Stmt> },
    /// The whole body of a generator function.
    GeneratorBody(Vec<Stmt>),
    /// The whole body of an async function.
    AsyncBody(Vec<Stmt>),
}

/// A whole script.
pub struct Program {
    pub stmts: Vec<Stmt>,
    pub strict: bool,
}

/// The twin of [`Lit`].
#[allow(inconsistent_fields)]
pub enum LitTree {
    Number(Seq<char>),
    Str(Seq<char>),
    Bool(bool),
    Undefined,
    Null,
    BigInt(Seq<char>),
    Regex { pattern: Seq<char>, flags: Seq<char> },
}

/// The twin of [`Expr`].
#[allow(inconsistent_fields)]
pub enum ExprTree {
    Lit(LitTree),
    Ident(Seq<char>),
    This,
    Super,
    Member { obj: Box<ExprTree>, prop: Seq<char>, computed: Option<Box<ExprTree>>, optional: bool },
    Call { callee: Box<ExprTree>, args: Seq<ArgTree>, optional: bool },
    New { callee: Box<ExprTree>, args: Seq<ArgTree> },
    Sequence(Seq<ExprTree>),
    InstanceOf { left: Box<ExprTree>, right: Box<ExprTree> },
    Binary { op: BinaryOp, left: Box<ExprTree>, right: Box<ExprTree> },
    Logical { op: LogicalOp, left: Box<ExprTree>, right: Box<ExprTree> },
    Unary { op: UnaryOp, operand: Box<ExprTree> },
    Ternary { cond: Box<ExprTree>, yes: Box<ExprTree>, no: Box<ExprTree> },
    Assignment { target: AssignTargetTree, value: Box<ExprTree> },
    Array(Seq<ArrayElemTree>),
    Object(Seq<PropTree>),
    Function { name: Option<Seq<char>>, params: Seq<PatternTree>, body: Seq<StmtTree> },
    Arrow { params: Seq<PatternTree>, body: Seq<StmtTree> },
    Class(Box<ClassTree>),
    Tagged { tag: Box<ExprTree>, cooked: Seq<ExprTree>, raws: Seq<Seq<char>>, subs: Seq<ExprTree> },
    ToString(Box<ExprTree>),
    Await(Box<ExprTree>),
    Yield { expr: Option<Box<ExprTree>>, delegated: bool },
}

/// The twin of [`AssignTarget`].
#[allow(inconsistent_fields)]
pub enum AssignTargetTree {
    Expr(Box<ExprTree>),
    Pattern(PatternTree),
}

/// The twin of [`Arg`].
#[allow(inconsistent_fields)]
pub enum ArgTree {
    Expr(ExprTree),
    Spread(ExprTree),
}

/// The twin of [`ArrayElem`].
#[allow(inconsistent_fields)]
pub enum ArrayElemTree {
    Expr(ExprTree),
    Spread(ExprTree),
    Elision,
}

/// The twin of [`PropKey`].
#[allow(inconsistent_fields)]
pub enum PropKeyTree {
    Ident(Seq<char>),
    Str(Seq<char>),
    Computed(Box<ExprTree>),
}

/// The twin of [`Prop`].
#[allow(inconsistent_fields)]
pub enum PropTree {
    Init { key: PropKeyTree, value: ExprTree },
    Method { key: PropKeyTree, params: Seq<PatternTree>, body: Seq<StmtTree> },
    Accessor { get: bool, key: PropKeyTree, params: Seq<PatternTree>, body: Seq<StmtTree> },
    Spread(ExprTree),
}

/// The twin of [`Pattern`].
#[allow(inconsistent_fields)]
pub enum PatternTree {
    Ident(Seq<char>),
    Array { elems: Seq<Option<PatternTree>>, rest: Option<Box<PatternTree>> },
    Object { props: Seq<PropPatternTree>, rest: Option<Box<PatternTree>> },
    Member(Box<ExprTree>),
    Default { inner: Box<PatternTree>, default: Box<ExprTree> },
}

/// The twin of [`PropPattern`].
pub struct PropPatternTree {
    pub key: PropKeyTree,
    pub value: PatternTree,
}

/// The twin of [`Class`].
pub struct ClassTree {
    pub name: Option<Seq<char>>,
    pub extends: Option<Box<ExprTree>>,
    pub elements: Seq<ClassElemTree>,
}

/// The twin of [`ClassElem`].
#[allow(inconsistent_fields)]
pub enum ClassElemTree {
    Constructor { params: Seq<PatternTree>, body: Seq<StmtTree> },
    Method { is_static: bool, get: bool, key: PropKeyTree, params: Seq<PatternTree>, body: Seq<StmtTree> },
    Field { is_static: bool, key: PropKeyTree, init: Option<ExprTree> },
    AccessorProp { is_static: bool, key: PropKeyTree },
}

/// The twin of [`Declarator`].
pub struct DeclaratorTree {
    pub pat: PatternTree,
    pub init: Option<ExprTree>,
}

/// The twin of [`CatchClause`].
pub struct CatchClauseTree {
    pub name: Seq<char>,
    pub body: Seq<StmtTree>,
}

/// The twin of [`SwitchCase`].
pub struct SwitchCaseTree {
    pub test: Option<ExprTree>,
    pub body: Seq<StmtTree>,
}

/// The twin of [`Stmt`].
#[allow(inconsistent_fields)]
pub enum StmtTree {
    Var(Seq<DeclaratorTree>, VarKind),
    Expr(ExprTree),
    FunctionDecl { name: Seq<char>, params: Seq<PatternTree>, body: Seq<StmtTree> },
    Return(Option<ExprTree>),
    Block(Seq<StmtTree>),
    Empty,
    Break(Option<Seq<char>>),
    Continue(Option<Seq<char>>),
    Throw(ExprTree),
    If { cond: ExprTree, yes: Seq<StmtTree>, no: Seq<StmtTree> },
    Try { try_block: Seq<StmtTree>, catch: Option<CatchClauseTree>, finally: Option<Seq<StmtTree>> },
    Switch { discriminant: ExprTree, cases: Seq<SwitchCaseTree> },
    ForIn { kind: VarKind, name: PatternTree, expr: ExprTree, body: Seq<StmtTree> },
    ForOf { kind: VarKind, name: PatternTree, expr: ExprTree, body: Seq<StmtTree> },
    For { init: Option<Box<StmtTree>>, cond: Option<ExprTree>, update: Option<ExprTree>, body: Seq<StmtTree> },
    While { cond: ExprTree, body: Seq<StmtTree> },
    DoWhile { cond: ExprTree, body: Seq<StmtTree> },
    Labeled { label: Seq<char>, body: Box<StmtTree> },
    GeneratorBody(Seq<StmtTree>),
    AsyncBody(Seq<StmtTree>),
}

/// The twin of [`Program`].
pub struct ProgramTree {
    pub stmts: Seq<StmtTree>,
    pub strict: bool,
}

impl Lit {
    /// The twin of this node.
    pub open spec fn tree(self) -> LitTree
        decreases self,
    {
        match self {
            Lit::Number(a) => LitTree::Number(a@),
            Lit::Str(a) => LitTree::Str(a@),
            Lit::Bool(a) => LitTree::Bool(a),
            Lit::Undefined => LitTree::Undefined,
            Lit::Null => LitTree::Null,
            Lit::BigInt(a) => LitTree::BigInt(a@),
            Lit::Regex { pattern, flags } => LitTree::Regex {
                pattern: pattern@,
                flags: flags@,
            },
        }
    }
}

impl Expr {
    /// The twin of this node.
    pub open spec fn tree(self) -> ExprTree
        decreases self,
    {
        match self {
            Expr::Lit(a) => ExprTree::Lit(a.tree()),
            Expr::Ident(a) => ExprTree::Ident(a@),
            Expr::This => ExprTree::This,
            Expr::Super => ExprTree::Super,
            Expr::Member { obj, prop, computed, optional } => ExprTree::Member {
                obj: Box::new((*obj).tree()),
                prop: prop@,
                computed: match computed { Some(v) => Some(Box::new((*v).tree())), None => None },
                optional: optional,
            },
            Expr::Call { callee, args, optional } => ExprTree::Call {
                callee: Box::new((*callee).tree()),
                args: arg_trees(args),
                optional: optional,
            },
            Expr::New { callee, args } => ExprTree::New {
                callee: Box::new((*callee).tree()),
                args: arg_trees(args),
            },
            Expr::Sequence(a) => ExprTree::Sequence(expr_trees(a)),
            Expr::InstanceOf { left, right } => ExprTree::InstanceOf {
                left: Box::new((*left).tree()),
                right: Box::new((*right).tree()),
            },
            Expr::Binary { op, left, right } => ExprTree::Binary {
                op: op,
                left: Box::new((*left).tree()),
                right: Box::new((*right).tree()),
            },
            Expr::Logical { op, left, right } => ExprTree::Logical {
                op: op,
                left: Box::new((*left).tree()),
                right: Box::new((*right).tree()),
            },
            Expr::Unary { op, operand } => ExprTree::Unary {
                op: op,
                operand: Box::new((*operand).tree()),
            },
            Expr::Ternary { cond, yes, no } => ExprTree::Ternary {
                cond: Box::new((*cond).tree()),
                yes: Box::new((*yes).tree()),
                no: Box::new((*no).tree()),
            },
            Expr::Assignment { target, value } => ExprTree::Assignment {
                target: target.tree(),
                value: Box::new((*value).tree()),
            },
            Expr::Array(a) => ExprTree::Array(array_elem_trees(a)),
            Expr::Object(a) => ExprTree::Object(prop_trees(a)),
            Expr::Function { name, params, body } => ExprTree::Function {
                name: match name { Some(v) => Some(v@), None => None },
                params: pattern_trees(params),
                body: stmt_trees(body),
            },
            Expr::Arrow { params, body } => ExprTree::Arrow {
                params: pattern_trees(params),
                body: stmt_trees(body),
            },
            Expr::Class(a) => ExprTree::Class(Box::new((*a).tree())),
            Expr::Tagged { tag, cooked, raws, subs } => ExprTree::Tagged {
                tag: Box::new((*tag).tree()),
                cooked: expr_trees(cooked),
                raws: texts(raws@),
                subs: expr_trees(subs),
            },
            Expr::ToString(a) => ExprTree::ToString(Box::new((*a).tree())),
            Expr::Await(a) => ExprTree::Await(Box::new((*a).tree())),
            Expr::Yield { expr, delegated } => ExprTree::Yield {
                expr: match expr { Some(v) => Some(Box::new((*v).tree())), None => None },
                delegated: delegated,
            },
        }
    }
}

impl AssignTarget {
    /// The twin of this node.
    pub open spec fn tree(self) -> AssignTargetTree
        decreases self,
    {
        match self {
            AssignTarget::Expr(a) => AssignTargetTree::Expr(Box::new((*a).tree())),
            AssignTarget::Pattern(a) => AssignTargetTree::Pattern(a.tree()),
        }
    }
}

impl Arg {
    /// The twin of this node.
    pub open spec fn tree(self) -> ArgTree
        decreases self,
    {
        match self {
            Arg::Expr(a) => ArgTree::Expr(a.tree()),
            Arg::Spread(a) => ArgTree::Spread(a.tree()),
        }
    }
}

impl ArrayElem {
    /// The twin of this node.
    pub open spec fn tree(self) -> ArrayElemTree
        decreases self,
    {
        match self {
            ArrayElem::Expr(a) => ArrayElemTree::Expr(a.tree()),
            ArrayElem::Spread(a) => ArrayElemTree::Spread(a.tree()),
            ArrayElem::Elision => ArrayElemTree::Elision,
        }
    }
}

impl PropKey {
    /// The twin of this node.
    pub open spec fn tree(self) -> PropKeyTree
        decreases self,
    {
        match self {
            PropKey::Ident(a) => PropKeyTree::Ident(a@),
            PropKey::Str(a) => PropKeyTree::Str(a@),
            PropKey::Computed(a) => PropKeyTree::Computed(Box::new((*a).tree())),
        }
    }
}

impl Prop {
    /// The twin of this node.
    pub open spec fn tree(self) -> PropTree
        decreases self,
    {
        match self {
            Prop::Init { key, value } => PropTree::Init {
                key: key.tree(),
                value: value.tree(),
            },
            Prop::Method { key, params, body } => PropTree::Method {
                key: key.tree(),
                params: pattern_trees(params),
                body: stmt_trees(body),
            },
            Prop::Accessor { get, key, params, body } => PropTree::Accessor {
                get: get,
                key: key.tree(),
                params: pattern_trees(params),
                body: stmt_trees(body),
            },
            Prop::Spread(a) => PropTree::Spread(a.tree()),
        }
    }
}

impl Pattern {
    /// The twin of this node.
    pub open spec fn tree(self) -> PatternTree
        decreases self,
    {
        match self {
            Pattern::Ident(a) => PatternTree::Ident(a@),
            Pattern::Array { elems, rest } => PatternTree::Array {
                elems: opt_pattern_trees(elems),
                rest: match rest { Some(v) => Some(Box::new((*v).tree())), None => None },
            },
            Pattern::Object { props, rest } => PatternTree::Object {
                props: prop_pattern_trees(props),
                rest: match rest { Some(v) => Some(Box::new((*v).tree())), None => None },
            },
            Pattern::Member(a) => PatternTree::Member(Box::new((*a).tree())),
            Pattern::Default { inner, default } => PatternTree::Default {
                inner: Box::new((*inner).tree()),
                default: Box::new((*default).tree()),
            },
        }
    }
}

impl PropPattern {
    /// The twin of this node.
    pub open spec fn tree(self) -> PropPatternTree
        decreases self,
    {
        PropPatternTree {
            key: self.key.tree(),
            value: self.value.tree(),
        }
    }
}

impl Class {
    /// The twin of this node.
    pub open spec fn tree(self) -> ClassTree
        decreases self,
    {
        ClassTree {
            name: match self.name { Some(v) => Some(v@), None => None },
            extends: match self.extends { Some(v) => Some(Box::new((*v).tree())), None => None },
            elements: class_elem_trees(self.elements),
        }
    }
}

impl ClassElem {
    /// The twin of this node.
    pub open spec fn tree(self) -> ClassElemTree
        decreases self,
    {
        match self {
            ClassElem::Constructor { params, body } => ClassElemTree::Constructor {
                params: pattern_trees(params),
                body: stmt_trees(body),
            },
            ClassElem::Method { is_static, get, key, params, body } => ClassElemTree::Method {
                is_static: is_static,
                get: get,
                key: key.tree(),
                params: pattern_trees(params),
                body: stmt_trees(body),
            },
            ClassElem::Field { is_static, key, init } => ClassElemTree::Field {
                is_static: is_static,
                key: key.tree(),
                init: match init { Some(v) => Some(v.tree()), None => None },
            },
            ClassElem::AccessorProp { is_static, key } => ClassElemTree::AccessorProp {
                is_static: is_static,
                key: key.tree(),
            },
        }
    }
}

impl Declarator {
    /// The twin of this node.
    pub open spec fn tree(self) -> DeclaratorTree
        decreases self,
    {
        DeclaratorTree {
            pat: self.pat.tree(),
            init: match self.init { Some(v) => Some(v.tree()), None => None },
        }
    }
}

impl CatchClause {
    /// The twin of this node.
    pub open spec fn tree(self) -> CatchClauseTree
        decreases self,
    {
        CatchClauseTree {
            name: self.name@,
            body: stmt_trees(self.body),
        }
    }
}

impl SwitchCase {
    /// The twin of this node.
    pub open spec fn tree(self) -> SwitchCaseTree
        decreases self,
    {
        SwitchCaseTree {
            test: match self.test { Some(v) => Some(v.tree()), None => None },
            body: stmt_trees(self.body),
        }
    }
}

impl Stmt {
    /// The twin of this node.
    pub open spec fn tree(self) -> StmtTree
        decreases self,
    {
        match self {
            Stmt::Var(a, b) => StmtTree::Var(declarator_trees(a), b),
            Stmt::Expr(a) => StmtTree::Expr(a.tree()),
            Stmt::FunctionDecl { name, params, body } => StmtTree::FunctionDecl {
                name: name@,
                params: pattern_trees(params),
                body: stmt_trees(body),
            },
            Stmt::Return(a) => StmtTree::Return(match a { Some(v) => Some(v.tree()), None => None }),
            Stmt::Block(a) => StmtTree::Block(stmt_trees(a)),
            Stmt::Empty => StmtTree::Empty,
            Stmt::Break(a) => StmtTree::Break(match a { Some(v) => Some(v@), None => None }),
            Stmt::Continue(a) => StmtTree::Continue(match a { Some(v) => Some(v@), None => None }),
            Stmt::Throw(a) => StmtTree::Throw(a.tree()),
            Stmt::If { cond, yes, no } => StmtTree::If {
                cond: cond.tree(),
                yes: stmt_trees(yes),
                no: stmt_trees(no),
            },
            Stmt::Try { try_block, catch, finally } => StmtTree::Try {
                try_block: stmt_trees(try_block),
                catch: match catch { Some(v) => Some(v.tree()), None => None },
                finally: match finally { Some(v) => Some(stmt_trees(v)), None => None },
            },
            Stmt::Switch { discriminant, cases } => StmtTree::Switch {
                discriminant: discriminant.tree(),
                cases: switch_case_trees(cases),
            },
            Stmt::ForIn { kind, name, expr, body } => StmtTree::ForIn {
                kind: kind,
                name: name.tree(),
                expr: expr.tree(),
                body: stmt_trees(body),
            },
            Stmt::ForOf { kind, name, expr, body } => StmtTree::ForOf {
                kind: kind,
                name: name.tree(),
                expr: expr.tree(),
                body: stmt_trees(body),
            },
            Stmt::For { init, cond, update, body } => StmtTree::For {
                init: match init { Some(v) => Some(Box::new((*v).tree())), None => None },
                cond: match cond { Some(v) => Some(v.tree()), None => None },
                update: match update { Some(v) => Some(v.tree()), None => None },
                body: stmt_trees(body),
            },
            Stmt::While { cond, body } => StmtTree::While {
                cond: cond.tree(),
                body: stmt_trees(body),
            },
            Stmt::DoWhile { cond, body } => StmtTree::DoWhile {
                cond: cond.tree(),
                body: stmt_trees(body),
            },
            Stmt::Labeled { label, body } => StmtTree::Labeled {
                label: label@,
                body: Box::new((*body).tree()),
            },
            Stmt::GeneratorBody(a) => StmtTree::GeneratorBody(stmt_trees(a)),
            Stmt::AsyncBody(a) => StmtTree::AsyncBody(stmt_trees(a)),
        }
    }
}

impl Program {
    /// The twin of this node.
    pub open spec fn tree(self) -> ProgramTree
        decreases self,
    {
        ProgramTree {
            stmts: stmt_trees(self.stmts),
            strict: self.strict,
        }
    }
}

/// The twins of a list of nodes.
pub open spec fn arg_trees(v: Vec<Arg>) -> Seq<ArgTree>
    decreases v,
{
    Seq::new(v@.len(), |i: int| if 0 <= i < v@.len() { v@[i].tree() } else { arbitrary() })
}

/// The twins of a list of nodes.
pub open spec fn expr_trees(v: Vec<Expr>) -> Seq<ExprTree>
    decreases v,
{
    Seq::new(v@.len(), |i: int| if 0 <= i < v@.len() { v@[i].tree() } else { arbitrary() })
}

/// The twins of a list of nodes.
pub open spec fn array_elem_trees(v: Vec<ArrayElem>) -> Seq<ArrayElemTree>
    decreases v,
{
    Seq::new(v@.len(), |i: int| if 0 <= i < v@.len() { v@[i].tree() } else { arbitrary() })
}

/// The twins of a list of nodes.
pub open spec fn prop_trees(v: Vec<Prop>) -> Seq<PropTree>
    decreases v,
{
    Seq::new(v@.len(), |i: int| if 0 <= i < v@.len() { v@[i].tree() } else { arbitrary() })
}

/// The twins of a list of nodes.
pub open spec fn pattern_trees(v: Vec<Pattern>) -> Seq<PatternTree>
    decreases v,
{
    Seq::new(v@.len(), |i: int| if 0 <= i < v@.len() { v@[i].tree() } else { arbitrary() })
}

/// The twins of a list of nodes.
pub open spec fn stmt_trees(v: Vec<Stmt>) -> Seq<StmtTree>
    decreases v,
{
    Seq::new(v@.len(), |i: int| if 0 <= i < v@.len() { v@[i].tree() } else { arbitrary() })
}

/// The twins of a list of nodes.
pub open spec fn opt_pattern_trees(v: Vec<Option<Pattern>>) -> Seq<Option<PatternTree>>
    decreases v,
{
    Seq::new(v@.len(), |i: int| if 0 <= i < v@.len() { match v@[i] { Some(v) => Some(v.tree()), None => None } } else { arbitrary() })
}

/// The twins of a list of nodes.
pub open spec fn prop_pattern_trees(v: Vec<PropPattern>) -> Seq<PropPatternTree>
    decreases v,
{
    Seq::new(v@.len(), |i: int| if 0 <= i < v@.len() { v@[i].tree() } else { arbitrary() })
}

/// The twins of a list of nodes.
pub open spec fn class_elem_trees(v: Vec<ClassElem>) -> Seq<ClassElemTree>
    decreases v,
{
    Seq::new(v@.len(), |i: int| if 0 <= i < v@.len() { v@[i].tree() } else { arbitrary() })
}

/// The twins of a list of nodes.
pub open spec fn declarator_trees(v: Vec<Declarator>) -> Seq<DeclaratorTree>
    decreases v,
{
    Seq::new(v@.len(), |i: int| if 0 <= i < v@.len() { v@[i].tree() } else { arbitrary() })
}

/// The twins of a list of nodes.
pub open spec fn switch_case_trees(v: Vec<SwitchCase>) -> Seq<SwitchCaseTree>
    decreases v,
{
    Seq::new(v@.len(), |i: int| if 0 <= i < v@.len() { v@[i].tree() } else { arbitrary() })
}

} // verus!
