//! The high-level tree of a compiled function body, as far as the lints look
//! at it: expressions, patterns, statements, blocks, paths and attributes.
use vstd::prelude::*;

verus! {

/// A binary operator.
#[derive(Copy, Clone, Debug, PartialEq, Eq, Structural)]
pub enum BinOpKind {
    BiAdd,
    BiSub,
    BiMul,
    BiDiv,
    BiRem,
    BiAnd,
    BiOr,
    BiBitXor,
    BiBitAnd,
    BiBitOr,
    BiShl,
    BiShr,
    BiEq,
    BiLt,
    BiLe,
    BiNe,
    BiGe,
    BiGt,
}

/// A unary operator.
#[derive(Copy, Clone, Debug, PartialEq, Eq, Structural)]
pub enum UnOpKind {
    UnDeref,
    UnNot,
    UnNeg,
}

/// Whether a borrow or a reference pattern is mutable.
#[derive(Copy, Clone, Debug, PartialEq, Eq, Structural)]
pub enum Mutability {
    MutMutable,
    MutImmutable,
}

/// Whether a range pattern includes its end.
#[derive(Copy, Clone, Debug, PartialEq, Eq, Structural)]
pub enum RangeEnd {
    Included,
    Excluded,
}

/// How a binding pattern binds.
#[derive(Copy, Clone, Debug, PartialEq, Eq, Structural)]
pub enum BindingAnnotation {
    Unannotated,
    Mutable,
    Ref,
    RefMut,
}

/// What a `match` was written as.
#[derive(Copy, Clone, Debug, PartialEq, Eq, Structural)]
pub enum MatchSource {
    Normal,
    IfLetDesugar { contains_else_clause: bool },
    WhileLetDesugar,
    ForLoopDesugar,
    TryDesugar,
}

/// What a `loop` was written as.
#[derive(Copy, Clone, Debug, PartialEq, Eq, Structural)]
pub enum LoopSource {
    Loop,
    WhileLet,
    ForLoop,
}

/// A literal.
#[derive(Debug)]
pub enum Lit {
    Str(String),
    ByteStr(Vec<u8>),
    Byte(u8),
    Char(char),
    Int(u128),
    Float,
    FloatUnsuffixed,
    Bool(bool),
}

/// What a path resolves to: a local variable or a variable captured by a
/// closure (with the id of its definition), a static, a constant, or
/// something else.
#[derive(Copy, Clone, Debug, PartialEq, Eq, Structural)]
pub enum Def {
    Local(u32),
    Upvar(u32),
    Static,
    Const,
    Other,
}

/// A path: the names of its segments and what it resolves to.
#[derive(Debug)]
pub struct Path {
    pub segments: Vec<String>,
    pub def: Def,
}

/// A path, maybe qualified by a type (`<T as Trait>::name`), or a type and
/// a name relative to it.
#[derive(Debug)]
pub enum QPath {
    Resolved(Option<Box<Ty>>, Path),
    TypeRelative(Box<Ty>, String),
}

/// A type: a path, or another type given by its debug text.
#[derive(Debug)]
pub enum Ty {
    Path(QPath),
    Other(String),
}

/// An item of an attribute's list.
#[derive(Debug)]
pub enum NestedMeta {
    MetaItem(String),
    Literal,
}

/// An attribute: its name and, for `#[name(..)]`, its list.
#[derive(Debug)]
pub struct Attribute {
    pub name: String,
    pub list: Option<Vec<NestedMeta>>,
}

/// An expression with its node id and attributes.
#[derive(Debug)]
pub struct Expr {
    pub id: u32,
    pub node: ExprKind,
    pub attrs: Vec<Attribute>,
}

/// The kinds of expression. A `break` holds its label, if it has one; a
/// `continue`, the id of the loop it continues, where that is known.
#[derive(Debug)]
pub enum ExprKind {
    Box(Box<Expr>),
    Array(Vec<Expr>),
    Call(Box<Expr>, Vec<Expr>),
    MethodCall(String, Vec<Expr>),
    Tup(Vec<Expr>),
    Binary(BinOpKind, Box<Expr>, Box<Expr>),
    Unary(UnOpKind, Box<Expr>),
    Lit(Lit),
    Cast(Box<Expr>, Ty),
    Type(Box<Expr>, Ty),
    If(Box<Expr>, Box<Expr>, Option<Box<Expr>>),
    While(Box<Expr>, Block),
    Loop(Block, LoopSource),
    Match(Box<Expr>, Vec<Arm>, MatchSource),
    Closure,
    Yield(Box<Expr>),
    Block(Block),
    Assign(Box<Expr>, Box<Expr>),
    AssignOp(BinOpKind, Box<Expr>, Box<Expr>),
    Field(Box<Expr>, String),
    Index(Box<Expr>, Box<Expr>),
    Path(QPath),
    AddrOf(Mutability, Box<Expr>),
    Break(Option<String>, Option<Box<Expr>>),
    Again(Option<u32>),
    Ret(Option<Box<Expr>>),
    InlineAsm,
    Struct(QPath, Vec<Expr>, Option<Box<Expr>>),
    Repeat(Box<Expr>),
}

/// An arm of a `match`.
#[derive(Debug)]
pub struct Arm {
    pub attrs: Vec<Attribute>,
    pub pats: Vec<Pat>,
    pub guard: Option<Box<Expr>>,
    pub body: Box<Expr>,
}

/// A pattern.
#[derive(Debug)]
pub enum Pat {
    Wild,
    Binding(BindingAnnotation, String, Option<Box<Pat>>),
    Struct(QPath, Vec<Pat>, bool),
    TupleStruct(QPath, Vec<Pat>, Option<usize>),
    Path(QPath),
    Tuple(Vec<Pat>, Option<usize>),
    Box(Box<Pat>),
    Ref(Box<Pat>, Mutability),
    Lit(Box<Expr>),
    Range(Box<Expr>, Box<Expr>, RangeEnd),
    Slice(Vec<Pat>, Option<Box<Pat>>, Vec<Pat>),
}

/// A `let` binding, with the id of its pattern (for a binding pattern, the
/// id of the variable it defines).
#[derive(Debug)]
pub struct Local {
    pub pat_id: u32,
    pub pat: Pat,
    pub init: Option<Box<Expr>>,
    pub attrs: Vec<Attribute>,
}

/// A declaration: a `let` binding or an item.
#[derive(Debug)]
pub enum Decl {
    Local(Local),
    Item(Vec<Attribute>),
}

/// A statement.
#[derive(Debug)]
pub enum Stmt {
    Decl(Decl),
    Expr(Box<Expr>),
    Semi(Box<Expr>),
}

/// A block: its statements and its final expression.
#[derive(Debug)]
pub struct Block {
    pub stmts: Vec<Stmt>,
    pub expr: Option<Box<Expr>>,
}

/// The attributes of a statement: those of its binding, item or expression.
pub open spec fn stmt_attrs(s: Stmt) -> Seq<Attribute> {
    match s {
        Stmt::Decl(Decl::Local(l)) => l.attrs@,
        Stmt::Decl(Decl::Item(a)) => a@,
        Stmt::Expr(e) => e.attrs@,
        Stmt::Semi(e) => e.attrs@,
    }
}

/// The attributes of a statement.
pub fn stmt_attributes(s: &Stmt) -> (r: &Vec<Attribute>)
    ensures
        r@ == stmt_attrs(*s),
{
    match s {
        Stmt::Decl(Decl::Local(l)) => &l.attrs,
        Stmt::Decl(Decl::Item(a)) => a,
        Stmt::Expr(e) => &e.attrs,
        Stmt::Semi(e) => &e.attrs,
    }
}

/// The number of nodes of an optional expression.
pub open spec fn opt_expr_size(o: Option<Box<Expr>>) -> nat
    decreases o, 2nat,
{
    match o {
        Some(x) => expr_size(*x),
        None => 0,
    }
}

/// The number of nodes of an expression: itself, its expressions, patterns,
/// statements, blocks and arms.
pub open spec fn expr_size(e: Expr) -> nat
    decreases e, 1nat,
{
    1 + match e.node {
        ExprKind::Box(x) => expr_size(*x),
        ExprKind::Array(es) => exprs_size(es@, 0),
        ExprKind::Call(f, args) => expr_size(*f) + exprs_size(args@, 0),
        ExprKind::MethodCall(_, args) => exprs_size(args@, 0),
        ExprKind::Tup(es) => exprs_size(es@, 0),
        ExprKind::Binary(_, l, r) => expr_size(*l) + expr_size(*r),
        ExprKind::Unary(_, x) => expr_size(*x),
        ExprKind::Lit(_) => 0,
        ExprKind::Cast(x, _) => expr_size(*x),
        ExprKind::Type(x, _) => expr_size(*x),
        ExprKind::If(c, t, o) => expr_size(*c) + expr_size(*t) + opt_expr_size(o),
        ExprKind::While(c, b) => expr_size(*c) + block_size(b),
        ExprKind::Loop(b, _) => block_size(b),
        ExprKind::Match(x, arms, _) => expr_size(*x) + arms_size(arms@, 0),
        ExprKind::Closure => 0,
        ExprKind::Yield(x) => expr_size(*x),
        ExprKind::Block(b) => block_size(b),
        ExprKind::Assign(l, r) => expr_size(*l) + expr_size(*r),
        ExprKind::AssignOp(_, l, r) => expr_size(*l) + expr_size(*r),
        ExprKind::Field(x, _) => expr_size(*x),
        ExprKind::Index(l, r) => expr_size(*l) + expr_size(*r),
        ExprKind::Path(_) => 0,
        ExprKind::AddrOf(_, x) => expr_size(*x),
        ExprKind::Break(_, o) => opt_expr_size(o),
        ExprKind::Again(_) => 0,
        ExprKind::Ret(o) => opt_expr_size(o),
        ExprKind::InlineAsm => 0,
        ExprKind::Struct(_, fields, o) => exprs_size(fields@, 0) + opt_expr_size(o),
        ExprKind::Repeat(x) => expr_size(*x),
    }
}

/// The number of nodes of the expressions of `es` from `i` on.
pub open spec fn exprs_size(es: Seq<Expr>, i: nat) -> nat
    decreases es, es.len() - i,
{
    if i >= es.len() {
        0
    } else {
        expr_size(es[i as int]) + exprs_size(es, i + 1)
    }
}

/// The number of nodes of an arm.
pub open spec fn arm_size(a: Arm) -> nat
    decreases a, 1nat,
{
    1 + pats_size(a.pats@, 0) + opt_expr_size(a.guard) + expr_size(*a.body)
}

/// The number of nodes of the arms of `arms` from `i` on.
pub open spec fn arms_size(arms: Seq<Arm>, i: nat) -> nat
    decreases arms, arms.len() - i,
{
    if i >= arms.len() {
        0
    } else {
        arm_size(arms[i as int]) + arms_size(arms, i + 1)
    }
}

/// The number of nodes of an optional pattern.
pub open spec fn opt_pat_size(o: Option<Box<Pat>>) -> nat
    decreases o, 2nat,
{
    match o {
        Some(x) => pat_size(*x),
        None => 0,
    }
}

/// The number of nodes of a pattern.
pub open spec fn pat_size(p: Pat) -> nat
    decreases p, 1nat,
{
    1 + match p {
        Pat::Wild => 0,
        Pat::Binding(_, _, o) => opt_pat_size(o),
        Pat::Struct(_, ps, _) => pats_size(ps@, 0),
        Pat::TupleStruct(_, ps, _) => pats_size(ps@, 0),
        Pat::Path(_) => 0,
        Pat::Tuple(ps, _) => pats_size(ps@, 0),
        Pat::Box(x) => pat_size(*x),
        Pat::Ref(x, _) => pat_size(*x),
        Pat::Lit(x) => expr_size(*x),
        Pat::Range(l, r, _) => expr_size(*l) + expr_size(*r),
        Pat::Slice(a, m, b) => pats_size(a@, 0) + opt_pat_size(m) + pats_size(b@, 0),
    }
}

/// The number of nodes of the patterns of `ps` from `i` on.
pub open spec fn pats_size(ps: Seq<Pat>, i: nat) -> nat
    decreases ps, ps.len() - i,
{
    if i >= ps.len() {
        0
    } else {
        pat_size(ps[i as int]) + pats_size(ps, i + 1)
    }
}

/// The number of nodes of a statement.
pub open spec fn stmt_size(s: Stmt) -> nat
    decreases s, 1nat,
{
    1 + match s {
        Stmt::Decl(Decl::Local(l)) => pat_size(l.pat) + opt_expr_size(l.init),
        Stmt::Decl(Decl::Item(_)) => 0,
        Stmt::Expr(x) => expr_size(*x),
        Stmt::Semi(x) => expr_size(*x),
    }
}

/// The number of nodes of the statements of `ss` from `i` on.
pub open spec fn stmts_size(ss: Seq<Stmt>, i: nat) -> nat
    decreases ss, ss.len() - i,
{
    if i >= ss.len() {
        0
    } else {
        stmt_size(ss[i as int]) + stmts_size(ss, i + 1)
    }
}

/// The number of nodes of a block.
pub open spec fn block_size(b: Block) -> nat
    decreases b, 1nat,
{
    1 + stmts_size(b.stmts@, 0) + opt_expr_size(b.expr)
}

} // verus!
