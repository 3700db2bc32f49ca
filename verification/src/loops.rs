//! Lints on loops: a loop whose body always leaves it on the first pass, an
//! empty `loop {}`, and a `loop` around a `match` that could be `while let`.
use vstd::prelude::*;
use crate::consts::{IntTy, UintTy};
use crate::hir::{Arm, Block, Decl, Def, Expr, ExprKind, Lit, LoopSource, MatchSource, Mutability, Pat, QPath, Stmt};
use vstd::string::*;
use crate::cargo_clippy::same_text;

verus! {

broadcast use vstd::string::group_string_axioms;

/// Whether `e` holds a `continue` of the loop `dest`, outside nested loops
/// and closures.
pub open spec fn continues_expr(e: Expr, dest: u32) -> bool
    decreases e, 1nat,
{
    match e.node {
        ExprKind::Ret(Some(x)) => continues_expr(*x, dest),
        ExprKind::Box(x) => continues_expr(*x, dest),
        ExprKind::Unary(_, x) => continues_expr(*x, dest),
        ExprKind::Cast(x, _) => continues_expr(*x, dest),
        ExprKind::Type(x, _) => continues_expr(*x, dest),
        ExprKind::Field(x, _) => continues_expr(*x, dest),
        ExprKind::AddrOf(_, x) => continues_expr(*x, dest),
        ExprKind::Repeat(x) => continues_expr(*x, dest),
        ExprKind::Array(es) => any_continues(es@, 0, dest),
        ExprKind::MethodCall(_, es) => any_continues(es@, 0, dest),
        ExprKind::Tup(es) => any_continues(es@, 0, dest),
        ExprKind::Call(f, es) => continues_expr(*f, dest) || any_continues(es@, 0, dest),
        ExprKind::Binary(_, a, b) => continues_expr(*a, dest) || continues_expr(*b, dest),
        ExprKind::Assign(a, b) => continues_expr(*a, dest) || continues_expr(*b, dest),
        ExprKind::AssignOp(_, a, b) => continues_expr(*a, dest) || continues_expr(*b, dest),
        ExprKind::Index(a, b) => continues_expr(*a, dest) || continues_expr(*b, dest),
        ExprKind::If(c, t, o) => continues_expr(*c, dest) || continues_expr(*t, dest) || match o {
            Some(x) => continues_expr(*x, dest),
            None => false,
        },
        ExprKind::While(c, b) => continues_expr(*c, dest) || continues_block(b, dest),
        ExprKind::Match(x, arms, _) => continues_expr(*x, dest) || any_arm_continues(arms@, 0, dest),
        ExprKind::Block(b) => continues_block(b, dest),
        ExprKind::Struct(_, _, base) => match base {
            Some(x) => continues_expr(*x, dest),
            None => false,
        },
        ExprKind::Again(d) => d == Some(dest),
        _ => false,
    }
}

/// Whether one of the expressions of `es` from `i` on holds a `continue`
/// of `dest`.
pub open spec fn any_continues(es: Seq<Expr>, i: nat, dest: u32) -> bool
    decreases es, es.len() - i,
{
    if i >= es.len() {
        false
    } else {
        continues_expr(es[i as int], dest) || any_continues(es, i + 1, dest)
    }
}

/// Whether the body of one of the arms of `arms` from `i` on holds a
/// `continue` of `dest`.
pub open spec fn any_arm_continues(arms: Seq<Arm>, i: nat, dest: u32) -> bool
    decreases arms, arms.len() - i,
{
    if i >= arms.len() {
        false
    } else {
        continues_expr(*arms[i as int].body, dest) || any_arm_continues(arms, i + 1, dest)
    }
}

/// Whether a statement holds a `continue` of `dest`: its expression, or the
/// initializer of its binding.
pub open spec fn continues_stmt(s: Stmt, dest: u32) -> bool
    decreases s, 1nat,
{
    match s {
        Stmt::Semi(e) => continues_expr(*e, dest),
        Stmt::Expr(e) => continues_expr(*e, dest),
        Stmt::Decl(Decl::Local(l)) => match l.init {
            Some(e) => continues_expr(*e, dest),
            None => false,
        },
        Stmt::Decl(Decl::Item(_)) => false,
    }
}

/// Whether one of the statements of `ss` from `i` on holds a `continue` of
/// `dest`.
pub open spec fn any_stmt_continues(ss: Seq<Stmt>, i: nat, dest: u32) -> bool
    decreases ss, ss.len() - i,
{
    if i >= ss.len() {
        false
    } else {
        continues_stmt(ss[i as int], dest) || any_stmt_continues(ss, i + 1, dest)
    }
}

/// Whether a block holds a `continue` of `dest`.
pub open spec fn continues_block(b: Block, dest: u32) -> bool
    decreases b, 1nat,
{
    any_stmt_continues(b.stmts@, 0, dest) || match b.expr {
        Some(e) => continues_expr(*e, dest),
        None => false,
    }
}

/// Whether evaluating `e` surely leaves the loop around it: by `break`,
/// `continue` or `return`, in each way it can go.
pub open spec fn exits_expr(e: Expr) -> bool
    decreases e, 1nat,
{
    match e.node {
        ExprKind::Box(x) => exits_expr(*x),
        ExprKind::Unary(_, x) => exits_expr(*x),
        ExprKind::Cast(x, _) => exits_expr(*x),
        ExprKind::Type(x, _) => exits_expr(*x),
        ExprKind::Field(x, _) => exits_expr(*x),
        ExprKind::AddrOf(_, x) => exits_expr(*x),
        ExprKind::Repeat(x) => exits_expr(*x),
        ExprKind::Array(es) => any_exits(es@, 0),
        ExprKind::MethodCall(_, es) => any_exits(es@, 0),
        ExprKind::Tup(es) => any_exits(es@, 0),
        ExprKind::Call(f, es) => exits_expr(*f) || any_exits(es@, 0),
        ExprKind::Binary(_, a, b) => exits_expr(*a) || exits_expr(*b),
        ExprKind::Assign(a, b) => exits_expr(*a) || exits_expr(*b),
        ExprKind::AssignOp(_, a, b) => exits_expr(*a) || exits_expr(*b),
        ExprKind::Index(a, b) => exits_expr(*a) || exits_expr(*b),
        ExprKind::If(c, t, o) => exits_expr(*c) || (match o {
            Some(x) => exits_expr(*x),
            None => false,
        } && exits_expr(*t)),
        ExprKind::While(c, b) => exits_expr(*c) || exits_block(b),
        ExprKind::Match(x, arms, _) => exits_expr(*x) || all_arms_exit(arms@, 0),
        ExprKind::Block(b) => exits_block(b),
        ExprKind::Break(_, _) => true,
        ExprKind::Again(_) => true,
        ExprKind::Ret(_) => true,
        _ => false,
    }
}

/// Whether one of the expressions of `es` from `i` on surely leaves the
/// loop.
pub open spec fn any_exits(es: Seq<Expr>, i: nat) -> bool
    decreases es, es.len() - i,
{
    if i >= es.len() {
        false
    } else {
        exits_expr(es[i as int]) || any_exits(es, i + 1)
    }
}

/// Whether the body of every arm of `arms` from `i` on surely leaves the
/// loop.
pub open spec fn all_arms_exit(arms: Seq<Arm>, i: nat) -> bool
    decreases arms, arms.len() - i,
{
    if i >= arms.len() {
        true
    } else {
        exits_expr(*arms[i as int].body) && all_arms_exit(arms, i + 1)
    }
}

/// Whether a statement surely leaves the loop.
pub open spec fn exits_stmt(s: Stmt) -> bool
    decreases s, 1nat,
{
    match s {
        Stmt::Semi(e) => exits_expr(*e),
        Stmt::Expr(e) => exits_expr(*e),
        Stmt::Decl(Decl::Local(l)) => match l.init {
            Some(e) => exits_expr(*e),
            None => false,
        },
        Stmt::Decl(Decl::Item(_)) => false,
    }
}

/// Whether one of the statements of `ss` from `i` on surely leaves the
/// loop.
pub open spec fn any_stmt_exits(ss: Seq<Stmt>, i: nat) -> bool
    decreases ss, ss.len() - i,
{
    if i >= ss.len() {
        false
    } else {
        exits_stmt(ss[i as int]) || any_stmt_exits(ss, i + 1)
    }
}

/// Whether a block surely leaves the loop.
pub open spec fn exits_block(b: Block) -> bool
    decreases b, 1nat,
{
    any_stmt_exits(b.stmts@, 0) || match b.expr {
        Some(e) => exits_expr(*e),
        None => false,
    }
}

/// Whether the loop `id` with body `b` never loops: the body surely leaves
/// it and never continues it.
pub open spec fn never_loops(b: Block, id: u32) -> bool {
    !continues_block(b, id) && exits_block(b)
}

/// Whether `e` holds a `continue` of the loop `dest`.
pub fn contains_continue_expr(e: &Expr, dest: u32) -> (r: bool)
    ensures
        r == continues_expr(*e, dest),
    decreases e, 1nat,
{
    match &e.node {
        ExprKind::Ret(Some(x)) => contains_continue_expr(x, dest),
        ExprKind::Box(x) => contains_continue_expr(x, dest),
        ExprKind::Unary(_, x) => contains_continue_expr(x, dest),
        ExprKind::Cast(x, _) => contains_continue_expr(x, dest),
        ExprKind::Type(x, _) => contains_continue_expr(x, dest),
        ExprKind::Field(x, _) => contains_continue_expr(x, dest),
        ExprKind::AddrOf(_, x) => contains_continue_expr(x, dest),
        ExprKind::Repeat(x) => contains_continue_expr(x, dest),
        ExprKind::Array(es) => any_continue_from(es, 0, dest),
        ExprKind::MethodCall(_, es) => any_continue_from(es, 0, dest),
        ExprKind::Tup(es) => any_continue_from(es, 0, dest),
        ExprKind::Call(f, es) => contains_continue_expr(f, dest) || any_continue_from(es, 0, dest),
        ExprKind::Binary(_, a, b) => contains_continue_expr(a, dest) || contains_continue_expr(b, dest),
        ExprKind::Assign(a, b) => contains_continue_expr(a, dest) || contains_continue_expr(b, dest),
        ExprKind::AssignOp(_, a, b) => contains_continue_expr(a, dest) || contains_continue_expr(b, dest),
        ExprKind::Index(a, b) => contains_continue_expr(a, dest) || contains_continue_expr(b, dest),
        ExprKind::If(c, t, o) => contains_continue_expr(c, dest) || contains_continue_expr(t, dest) || match o {
            Some(x) => contains_continue_expr(x, dest),
            None => false,
        },
        ExprKind::While(c, b) => contains_continue_expr(c, dest) || contains_continue_block(b, dest),
        ExprKind::Match(x, arms, _) => contains_continue_expr(x, dest) || any_arm_continue_from(arms, 0, dest),
        ExprKind::Block(b) => contains_continue_block(b, dest),
        ExprKind::Struct(_, _, base) => match base {
            Some(x) => contains_continue_expr(x, dest),
            None => false,
        },
        ExprKind::Again(d) => match d {
            Some(id) => *id == dest,
            None => false,
        },
        _ => false,
    }
}

/// Whether one of the expressions of `es` from `i` on holds a `continue`
/// of `dest`.
fn any_continue_from(es: &Vec<Expr>, i: usize, dest: u32) -> (r: bool)
    requires
        i <= es@.len(),
    ensures
        r == any_continues(es@, i as nat, dest),
    decreases es@, es@.len() - i,
{
    if i >= es.len() {
        false
    } else {
        contains_continue_expr(&es[i], dest) || any_continue_from(es, i + 1, dest)
    }
}

/// Whether the body of one of the arms of `arms` from `i` on holds a
/// `continue` of `dest`.
fn any_arm_continue_from(arms: &Vec<Arm>, i: usize, dest: u32) -> (r: bool)
    requires
        i <= arms@.len(),
    ensures
        r == any_arm_continues(arms@, i as nat, dest),
    decreases arms@, arms@.len() - i,
{
    if i >= arms.len() {
        false
    } else {
        contains_continue_expr(&arms[i].body, dest) || any_arm_continue_from(arms, i + 1, dest)
    }
}

/// Whether a statement holds a `continue` of `dest`.
pub fn contains_continue_stmt(s: &Stmt, dest: u32) -> (r: bool)
    ensures
        r == continues_stmt(*s, dest),
    decreases s, 1nat,
{
    match s {
        Stmt::Semi(e) => contains_continue_expr(e, dest),
        Stmt::Expr(e) => contains_continue_expr(e, dest),
        Stmt::Decl(d) => contains_continue_decl(d, dest),
    }
}

/// Whether a declaration holds a `continue` of `dest`: the initializer of a
/// binding may.
pub fn contains_continue_decl(d: &Decl, dest: u32) -> (r: bool)
    ensures
        r == continues_stmt(Stmt::Decl(*d), dest),
    decreases d, 1nat,
{
    match d {
        Decl::Local(l) => match &l.init {
            Some(e) => contains_continue_expr(e, dest),
            None => false,
        },
        Decl::Item(_) => false,
    }
}

/// Whether one of the statements of `ss` from `i` on holds a `continue` of
/// `dest`.
fn any_stmt_continue_from(ss: &Vec<Stmt>, i: usize, dest: u32) -> (r: bool)
    requires
        i <= ss@.len(),
    ensures
        r == any_stmt_continues(ss@, i as nat, dest),
    decreases ss@, ss@.len() - i,
{
    if i >= ss.len() {
        false
    } else {
        contains_continue_stmt(&ss[i], dest) || any_stmt_continue_from(ss, i + 1, dest)
    }
}

/// Whether a block holds a `continue` of `dest`.
pub fn contains_continue_block(b: &Block, dest: u32) -> (r: bool)
    ensures
        r == continues_block(*b, dest),
    decreases b, 1nat,
{
    any_stmt_continue_from(&b.stmts, 0, dest) || match &b.expr {
        Some(e) => contains_continue_expr(e, dest),
        None => false,
    }
}

/// Whether evaluating `e` surely leaves the loop around it.
pub fn loop_exit_expr(e: &Expr) -> (r: bool)
    ensures
        r == exits_expr(*e),
    decreases e, 1nat,
{
    match &e.node {
        ExprKind::Box(x) => loop_exit_expr(x),
        ExprKind::Unary(_, x) => loop_exit_expr(x),
        ExprKind::Cast(x, _) => loop_exit_expr(x),
        ExprKind::Type(x, _) => loop_exit_expr(x),
        ExprKind::Field(x, _) => loop_exit_expr(x),
        ExprKind::AddrOf(_, x) => loop_exit_expr(x),
        ExprKind::Repeat(x) => loop_exit_expr(x),
        ExprKind::Array(es) => any_exit_from(es, 0),
        ExprKind::MethodCall(_, es) => any_exit_from(es, 0),
        ExprKind::Tup(es) => any_exit_from(es, 0),
        ExprKind::Call(f, es) => loop_exit_expr(f) || any_exit_from(es, 0),
        ExprKind::Binary(_, a, b) => loop_exit_expr(a) || loop_exit_expr(b),
        ExprKind::Assign(a, b) => loop_exit_expr(a) || loop_exit_expr(b),
        ExprKind::AssignOp(_, a, b) => loop_exit_expr(a) || loop_exit_expr(b),
        ExprKind::Index(a, b) => loop_exit_expr(a) || loop_exit_expr(b),
        ExprKind::If(c, t, o) => loop_exit_expr(c) || (match o {
            Some(x) => loop_exit_expr(x),
            None => false,
        } && loop_exit_expr(t)),
        ExprKind::While(c, b) => loop_exit_expr(c) || loop_exit_block(b),
        ExprKind::Match(x, arms, _) => loop_exit_expr(x) || all_arms_exit_from(arms, 0),
        ExprKind::Block(b) => loop_exit_block(b),
        ExprKind::Break(_, _) => true,
        ExprKind::Again(_) => true,
        ExprKind::Ret(_) => true,
        _ => false,
    }
}

/// Whether one of the expressions of `es` from `i` on surely leaves the
/// loop.
fn any_exit_from(es: &Vec<Expr>, i: usize) -> (r: bool)
    requires
        i <= es@.len(),
    ensures
        r == any_exits(es@, i as nat),
    decreases es@, es@.len() - i,
{
    if i >= es.len() {
        false
    } else {
        loop_exit_expr(&es[i]) || any_exit_from(es, i + 1)
    }
}

/// Whether the body of every arm of `arms` from `i` on surely leaves the
/// loop.
fn all_arms_exit_from(arms: &Vec<Arm>, i: usize) -> (r: bool)
    requires
        i <= arms@.len(),
    ensures
        r == all_arms_exit(arms@, i as nat),
    decreases arms@, arms@.len() - i,
{
    if i >= arms.len() {
        true
    } else {
        loop_exit_expr(&arms[i].body) && all_arms_exit_from(arms, i + 1)
    }
}

/// Whether a statement surely leaves the loop.
pub fn loop_exit_stmt(s: &Stmt) -> (r: bool)
    ensures
        r == exits_stmt(*s),
    decreases s, 1nat,
{
    match s {
        Stmt::Semi(e) => loop_exit_expr(e),
        Stmt::Expr(e) => loop_exit_expr(e),
        Stmt::Decl(d) => loop_exit_decl(d),
    }
}

/// Whether a declaration surely leaves the loop: the initializer of a
/// binding may.
pub fn loop_exit_decl(d: &Decl) -> (r: bool)
    ensures
        r == exits_stmt(Stmt::Decl(*d)),
    decreases d, 1nat,
{
    match d {
        Decl::Local(l) => match &l.init {
            Some(e) => loop_exit_expr(e),
            None => false,
        },
        Decl::Item(_) => false,
    }
}

/// Whether one of the statements of `ss` from `i` on surely leaves the
/// loop.
fn any_stmt_exit_from(ss: &Vec<Stmt>, i: usize) -> (r: bool)
    requires
        i <= ss@.len(),
    ensures
        r == any_stmt_exits(ss@, i as nat),
    decreases ss@, ss@.len() - i,
{
    if i >= ss.len() {
        false
    } else {
        loop_exit_stmt(&ss[i]) || any_stmt_exit_from(ss, i + 1)
    }
}

/// Whether a block surely leaves the loop.
pub fn loop_exit_block(b: &Block) -> (r: bool)
    ensures
        r == exits_block(*b),
    decreases b, 1nat,
{
    any_stmt_exit_from(&b.stmts, 0) || match &b.expr {
        Some(e) => loop_exit_expr(e),
        None => false,
    }
}

/// Whether the loop `id` with body `b` never loops.
pub fn never_loop(b: &Block, id: u32) -> (r: bool)
    ensures
        r == never_loops(*b, id),
{
    !contains_continue_block(b, id) && loop_exit_block(b)
}

/// The initializer of the binding that a block begins with, if it begins
/// with one that has an initializer.
pub open spec fn first_stmt_init(b: Block) -> Option<Expr> {
    if b.stmts@.len() == 0 {
        None
    } else {
        match b.stmts@[0] {
            Stmt::Decl(Decl::Local(l)) => match l.init {
                Some(e) => Some(*e),
                None => None,
            },
            _ => None,
        }
    }
}

/// The expression a block begins with: its only expression when it has no
/// statement, or the expression of its first statement when it has no
/// final expression.
pub open spec fn first_expr(b: Block) -> Option<Expr> {
    if b.stmts@.len() == 0 {
        match b.expr {
            Some(e) => Some(*e),
            None => None,
        }
    } else if b.expr is None {
        match b.stmts@[0] {
            Stmt::Expr(e) => Some(*e),
            Stmt::Semi(e) => Some(*e),
            Stmt::Decl(_) => None,
        }
    } else {
        None
    }
}

/// Whether `e` is an unlabelled `break`, maybe first in a block.
pub open spec fn is_break(e: Expr) -> bool
    decreases e,
{
    match e.node {
        ExprKind::Break(label, _) => label is None,
        ExprKind::Block(b) => if b.stmts@.len() == 0 {
            match b.expr {
                Some(x) => is_break(*x),
                None => false,
            }
        } else if b.expr is None {
            match b.stmts@[0] {
                Stmt::Expr(x) => is_break(*x),
                Stmt::Semi(x) => is_break(*x),
                Stmt::Decl(_) => false,
            }
        } else {
            false
        },
        _ => false,
    }
}

/// If a block begins with a binding that has an initializer, that
/// initializer.
pub fn extract_expr_from_first_stmt(block: &Block) -> (r: Option<&Expr>)
    ensures
        match r {
            Some(x) => first_stmt_init(*block) == Some(*x),
            None => first_stmt_init(*block) is None,
        },
{
    if block.stmts.len() == 0 {
        return None;
    }
    match &block.stmts[0] {
        Stmt::Decl(Decl::Local(local)) => match &local.init {
            Some(e) => Some(&**e),
            None => None,
        },
        _ => None,
    }
}

/// If a block begins with an expression, with or without a semicolon, that
/// expression.
pub fn extract_first_expr(block: &Block) -> (r: Option<&Expr>)
    ensures
        match r {
            Some(x) => first_expr(*block) == Some(*x),
            None => first_expr(*block) is None,
        },
{
    match &block.expr {
        Some(e) => if block.stmts.len() == 0 {
            Some(&**e)
        } else {
            None
        },
        None => if block.stmts.len() > 0 {
            match &block.stmts[0] {
                Stmt::Expr(e) => Some(&**e),
                Stmt::Semi(e) => Some(&**e),
                Stmt::Decl(_) => None,
            }
        } else {
            None
        },
    }
}

/// Whether `e` is an unlabelled `break`, maybe first in a block.
pub fn is_break_expr(e: &Expr) -> (r: bool)
    ensures
        r == is_break(*e),
    decreases e,
{
    match &e.node {
        ExprKind::Break(label, _) => label.is_none(),
        ExprKind::Block(b) => match extract_first_expr(b) {
            Some(sub) => {
                proof {
                    if b.stmts@.len() > 0 {
                        assert(decreases_to!(b.stmts => b.stmts@));
                        assert(decreases_to!(b.stmts@ => b.stmts@[0]));
                    }
                }
                is_break_expr(sub)
            },
            None => false,
        },
        _ => false,
    }
}

/// Whether `e` is a loop.
pub fn is_loop(e: &Expr) -> (r: bool)
    ensures
        r == (e.node is Loop || e.node is While),
{
    match &e.node {
        ExprKind::Loop(_, _) | ExprKind::While(_, _) => true,
        _ => false,
    }
}

/// Whether `e` branches: an `if` or a `match`.
pub fn is_conditional(e: &Expr) -> (r: bool)
    ensures
        r == (e.node is If || e.node is Match),
{
    match &e.node {
        ExprKind::If(_, _, _) | ExprKind::Match(_, _, _) => true,
        _ => false,
    }
}

/// The name `e` is, when it is a path of one segment.
pub open spec fn single_name(e: Expr) -> Option<Seq<char>> {
    match e.node {
        ExprKind::Path(QPath::Resolved(_, p)) => if p.segments@.len() == 1 {
            Some(p.segments@[0]@)
        } else {
            None
        },
        _ => None,
    }
}

/// The name `e` is, when it is a path of one segment.
pub fn path_name(e: &Expr) -> (r: Option<String>)
    ensures
        match r {
            Some(n) => single_name(*e) == Some(n@),
            None => single_name(*e) is None,
        },
{
    match &e.node {
        ExprKind::Path(QPath::Resolved(_, p)) => if p.segments.len() == 1 {
            Some(p.segments[0].clone())
        } else {
            None
        },
        _ => None,
    }
}

/// What the loop lints report on an expression.
#[derive(Copy, Clone, Debug, PartialEq, Eq, Structural)]
pub enum LoopLint {
    /// The loop never loops.
    NeverLoop,
    /// `loop {}`.
    EmptyLoop,
    /// A `loop` around a `match` that could be `while let`.
    WhileLetLoop,
    /// A `while let Some(x) = it.next()` that could be a `for` loop over the
    /// iterator, the expression with the given id.
    WhileLetOnIterator(u32),
}

/// What the compiler knows about a `while let` loop over `next()`: whether
/// the call is `Iterator::next`, whether the pattern inside `Some` is
/// refutable, whether the iterator is used after the loop, and whether the
/// loop is nested in another that uses it.
#[derive(Copy, Clone, Debug)]
pub struct IterFacts {
    pub iterator_next: bool,
    pub refutable: bool,
    pub used_after: bool,
    pub nested: bool,
}

/// The name of the last segment of a path.
pub open spec fn last_segment(p: QPath) -> Seq<char> {
    match p {
        QPath::Resolved(_, p) => p.segments@.last()@,
        QPath::TypeRelative(_, seg) => seg@,
    }
}

/// Whether the check of a `while let` over `next()` can look at what it
/// looks at in `e`: the first pattern of the first arm, the receiver of the
/// call, the last segment of the pattern's path and the pattern inside it.
pub open spec fn while_let_checkable(e: Expr, f: IterFacts) -> bool {
    match e.node {
        ExprKind::Match(m, arms, MatchSource::WhileLetDesugar) => {
            &&& arms@.len() > 0
            &&& arms@[0].pats@.len() > 0
            &&& (arms@[0].pats@[0] matches Pat::TupleStruct(qpath, pat_args, _) ==> (m.node matches ExprKind::MethodCall(
                name,
                margs,
            ) ==> {
                &&& margs@.len() > 0
                &&& (name@ == "next"@ && f.iterator_next ==> (qpath matches QPath::Resolved(_, p) ==> p.segments@.len() > 0))
                &&& (name@ == "next"@ && f.iterator_next && last_segment(qpath) == "Some"@ ==> pat_args@.len() > 0)
            }))
        },
        _ => true,
    }
}

/// The `while_let_on_iterator` report on `e`, if any: a `while let
/// Some(x) = it.next()` over an iterator, with an irrefutable pattern inside
/// `Some`, an iterator not used after the loop and a loop not nested in one
/// that uses it.
pub open spec fn while_let_on_iterator(e: Expr, f: IterFacts) -> Option<LoopLint> {
    match e.node {
        ExprKind::Match(m, arms, MatchSource::WhileLetDesugar) => match arms@[0].pats@[0] {
            Pat::TupleStruct(qpath, pat_args, _) => match m.node {
                ExprKind::MethodCall(name, margs) => if name@ == "next"@ && f.iterator_next && last_segment(qpath)
                    == "Some"@ && !f.refutable && !f.used_after && !f.nested {
                    Some(LoopLint::WhileLetOnIterator(margs@[0].id))
                } else {
                    None
                },
                _ => None,
            },
            _ => None,
        },
        _ => None,
    }
}

/// Whether `m` is a `match` of two arms of one pattern each and no guard,
/// written as `match` or `if let`, whose second arm only breaks.
pub open spec fn while_let_shape(m: Expr) -> bool {
    &&& m.node matches ExprKind::Match(_, arms, src)
    &&& (src is Normal || src is IfLetDesugar)
    &&& arms@.len() == 2
    &&& arms@[0].pats@.len() == 1
    &&& arms@[0].guard is None
    &&& arms@[1].pats@.len() == 1
    &&& arms@[1].guard is None
    &&& is_break(*arms@[1].body)
}

/// The loop lints that `e` gets, in the order they are reported; `f` is
/// what the compiler knows about a `while let` over `next()`.
pub open spec fn loop_lints(e: Expr, f: IterFacts) -> Seq<LoopLint> {
    let s = loop_shape_lints(e);
    match while_let_on_iterator(e, f) {
        Some(l) => s.push(l),
        None => s,
    }
}

/// The lints on a loop's shape: never looping, empty, or a `match` that
/// could be `while let`.
pub open spec fn loop_shape_lints(e: Expr) -> Seq<LoopLint> {
    let never = match e.node {
        ExprKind::While(_, b) => never_loops(b, e.id),
        ExprKind::Loop(b, _) => never_loops(b, e.id),
        _ => false,
    };
    let s1 = if never {
        seq![LoopLint::NeverLoop]
    } else {
        Seq::empty()
    };
    match e.node {
        ExprKind::Loop(b, LoopSource::Loop) => {
            let s2 = if b.stmts@.len() == 0 && b.expr is None {
                s1.push(LoopLint::EmptyLoop)
            } else {
                s1
            };
            let inner = match first_stmt_init(b) {
                Some(x) => Some(x),
                None => first_expr(b),
            };
            if inner matches Some(m) && while_let_shape(m) {
                s2.push(LoopLint::WhileLetLoop)
            } else {
                s2
            }
        },
        _ => s1,
    }
}

/// The last segment of a path; a resolved path has one.
pub fn last_path_segment(p: &QPath) -> (r: &String)
    requires
        p matches QPath::Resolved(_, path) ==> path.segments@.len() > 0,
    ensures
        r@ == last_segment(*p),
{
    match p {
        QPath::Resolved(_, path) => &path.segments[path.segments.len() - 1],
        QPath::TypeRelative(_, seg) => seg,
    }
}

/// Whether `m` is a `match` that a `loop` around it could write as
/// `while let`.
fn has_while_let_shape(m: &Expr) -> (r: bool)
    ensures
        r == while_let_shape(*m),
{
    match &m.node {
        ExprKind::Match(_, arms, src) => {
            let source_ok = match src {
                MatchSource::Normal => true,
                MatchSource::IfLetDesugar { .. } => true,
                _ => false,
            };
            source_ok && arms.len() == 2 && arms[0].pats.len() == 1 && arms[0].guard.is_none()
                && arms[1].pats.len() == 1 && arms[1].guard.is_none() && is_break_expr(&arms[1].body)
        },
        _ => false,
    }
}

/// The loop lints.
#[derive(Copy, Clone, Debug)]
pub struct Pass;

/// Whether statement `s` is `x.collect();`, one argument and the result
/// thrown away; `iterator_method` says whether the compiler resolves the
/// call to the method of `Iterator`.
pub open spec fn unused_collect(s: Stmt, iterator_method: bool) -> bool {
    &&& s matches Stmt::Semi(e)
    &&& e.node matches ExprKind::MethodCall(m, args)
    &&& args@.len() == 1
    &&& m@ == "collect"@
    &&& iterator_method
}

impl Pass {
    /// Whether statement `s` throws away what `collect()` gathers;
    /// `iterator_method` says whether the compiler resolves the call to the
    /// method of `Iterator`.
    pub fn check_stmt(&self, s: &Stmt, iterator_method: bool) -> (r: bool)
        ensures
            r == unused_collect(*s, iterator_method),
    {
        match s {
            Stmt::Semi(e) => match &e.node {
                ExprKind::MethodCall(m, args) => args.len() == 1 && same_text(m.as_str(), "collect") && iterator_method,
                _ => false,
            },
            _ => false,
        }
    }

    /// The loop lints that `e` gets, in the order they are reported; `facts`
    /// is what the compiler knows about a `while let` over `next()`.
    pub fn check_expr(&self, e: &Expr, facts: IterFacts) -> (r: Vec<LoopLint>)
        requires
            while_let_checkable(*e, facts),
        ensures
            r@ == loop_lints(*e, facts),
    {
        let mut out: Vec<LoopLint> = Vec::new();
        let never = match &e.node {
            ExprKind::While(_, b) => never_loop(b, e.id),
            ExprKind::Loop(b, _) => never_loop(b, e.id),
            _ => false,
        };
        if never {
            out.push(LoopLint::NeverLoop);
        }
        proof {
            assert(out@ =~= (if never { seq![LoopLint::NeverLoop] } else { Seq::empty() }));
        }
        match &e.node {
            ExprKind::Loop(b, LoopSource::Loop) => {
                if b.stmts.len() == 0 && b.expr.is_none() {
                    out.push(LoopLint::EmptyLoop);
                }
                let inner = match extract_expr_from_first_stmt(b) {
                    Some(x) => Some(x),
                    None => extract_first_expr(b),
                };
                match inner {
                    Some(m) => {
                        if has_while_let_shape(m) {
                            out.push(LoopLint::WhileLetLoop);
                        }
                    },
                    None => {},
                }
            },
            _ => {},
        }
        let ghost shape = out@;
        assert(shape == loop_shape_lints(*e));
        if let ExprKind::Match(m, arms, MatchSource::WhileLetDesugar) = &e.node {
            if let Pat::TupleStruct(qpath, pat_args, _) = &arms[0].pats[0] {
                if let ExprKind::MethodCall(name, margs) = &m.node {
                    let iter_id = margs[0].id;
                    if same_text(name.as_str(), "next") && facts.iterator_next && same_text(
                        last_path_segment(qpath).as_str(),
                        "Some",
                    ) && !facts.refutable && !facts.used_after && !facts.nested {
                        out.push(LoopLint::WhileLetOnIterator(iter_id));
                    }
                }
            }
        }
        out
    }
}

/// An integer that a range bound evaluates to at compile time, with its
/// type.
#[derive(Copy, Clone, Debug, PartialEq, Eq, Structural)]
pub enum Integral {
    Int(IntTy, i128),
    Uint(UintTy, u128),
}

/// A bound of a `for` loop's range: the integer it evaluates to, if it is a
/// constant integer, and its source text.
#[derive(Debug)]
pub struct Bound {
    pub value: Option<Integral>,
    pub snippet: String,
}

/// The range a `for` loop iterates over: its bounds and whether it is
/// closed (`a...b`).
#[derive(Debug)]
pub struct ForRange {
    pub start: Option<Bound>,
    pub end: Option<Bound>,
    pub closed: bool,
}

/// What `reverse_range_loop` reports: a range whose start is above its
/// end, with the reversed range to suggest; or a half-open range whose
/// bounds are equal.
#[derive(Debug)]
pub enum ReverseRange {
    Reversed(String),
    Empty,
}

/// Whether `a` is above `b`, and whether they are equal; integers of
/// different types compare neither way.
pub open spec fn integral_compare(a: Integral, b: Integral) -> (bool, bool) {
    match a {
        Integral::Int(ta, x) => match b {
            Integral::Int(tb, y) => if ta == tb {
                (x > y, x == y)
            } else {
                (false, false)
            },
            _ => (false, false),
        },
        Integral::Uint(ta, x) => match b {
            Integral::Uint(tb, y) => if ta == tb {
                (x > y, x == y)
            } else {
                (false, false)
            },
            _ => (false, false),
        },
    }
}

/// The reversed range to suggest: `(end..start).rev()`, with `...` for a
/// closed range.
pub open spec fn reversed_range_text(start: Seq<char>, end: Seq<char>, closed: bool) -> Seq<char> {
    "("@ + end + (if closed {
        "..."@
    } else {
        ".."@
    }) + start + ").rev()"@
}

/// What `reverse_range_loop` reports on a loop over `r`, as a text: the
/// suggestion for a reversed range, the empty text for an empty one.
pub open spec fn reverse_range_report(r: ForRange) -> Option<Option<Seq<char>>> {
    match r.start {
        Some(s) => match r.end {
            Some(e) => match s.value {
                Some(sv) => match e.value {
                    Some(ev) => {
                        let (sup, eq) = integral_compare(sv, ev);
                        if sup {
                            Some(Some(reversed_range_text(s.snippet@, e.snippet@, r.closed)))
                        } else if eq && !r.closed {
                            Some(None)
                        } else {
                            None
                        }
                    },
                    None => None,
                },
                None => None,
            },
            None => None,
        },
        None => None,
    }
}

/// The report of a `reverse_range_loop` lint as a text.
pub open spec fn reverse_range_view(o: Option<ReverseRange>) -> Option<Option<Seq<char>>> {
    match o {
        Some(ReverseRange::Reversed(s)) => Some(Some(s@)),
        Some(ReverseRange::Empty) => Some(None),
        None => None,
    }
}

/// Whether `a` is above `b`, and whether they are equal.
fn compare_integral(a: Integral, b: Integral) -> (r: (bool, bool))
    ensures
        r == integral_compare(a, b),
{
    match a {
        Integral::Int(ta, x) => match b {
            Integral::Int(tb, y) => if ta == tb {
                (x > y, x == y)
            } else {
                (false, false)
            },
            _ => (false, false),
        },
        Integral::Uint(ta, x) => match b {
            Integral::Uint(tb, y) => if ta == tb {
                (x > y, x == y)
            } else {
                (false, false)
            },
            _ => (false, false),
        },
    }
}

/// What `reverse_range_loop` reports on a `for` loop over `range`: a range
/// that is empty because its constant start is above its constant end,
/// with the reversed range to suggest; or a half-open range whose constant
/// bounds are equal.
pub fn check_for_loop_reverse_range(range: &ForRange) -> (r: Option<ReverseRange>)
    ensures
        reverse_range_view(r) == reverse_range_report(*range),
{
    if let (Some(start), Some(end)) = (&range.start, &range.end) {
        if let (Some(sv), Some(ev)) = (start.value, end.value) {
            let (sup, eq) = compare_integral(sv, ev);
            if sup {
                let mut t = String::from_str("(");
                t.append(end.snippet.as_str());
                t.append(if range.closed {
                    "..."
                } else {
                    ".."
                });
                t.append(start.snippet.as_str());
                t.append(").rev()");
                proof {
                    assert(t@ =~= reversed_range_text(start.snippet@, end.snippet@, range.closed));
                }
                return Some(ReverseRange::Reversed(t));
            } else if eq && !range.closed {
                return Some(ReverseRange::Empty);
            }
        }
    }
    None
}

/// Whether `e` is the unqualified path of one segment `var`.
pub open spec fn is_var(e: Expr, var: Seq<char>) -> bool {
    e.node matches ExprKind::Path(QPath::Resolved(None, p)) && p.segments@.len() == 1 && p.segments@[0]@ == var
}

/// Whether `e` is the unqualified path of one segment `var`.
pub fn match_var(e: &Expr, var: &str) -> (r: bool)
    ensures
        r == is_var(*e, var@),
{
    match &e.node {
        ExprKind::Path(QPath::Resolved(None, p)) => p.segments.len() == 1 && same_text(p.segments[0].as_str(), var),
        _ => false,
    }
}

/// Whether `e` is a path, maybe qualified, of one segment `var`.
pub open spec fn is_named(e: Expr, var: Seq<char>) -> bool {
    e.node matches ExprKind::Path(QPath::Resolved(_, p)) && p.segments@.len() == 1 && p.segments@[0]@ == var
}

/// Whether `e` is a path, maybe qualified, of one segment `var`.
fn path_is_named(e: &Expr, var: &str) -> (r: bool)
    ensures
        r == is_named(*e, var@),
{
    match &e.node {
        ExprKind::Path(QPath::Resolved(_, p)) => p.segments.len() == 1 && same_text(p.segments[0].as_str(), var),
        _ => false,
    }
}

/// Whether `e` is `var.len()`.
pub open spec fn is_len_of(e: Expr, var: Seq<char>) -> bool {
    e.node matches ExprKind::MethodCall(method, args) && args@.len() == 1 && method@ == "len"@ && is_named(
        args@[0],
        var,
    )
}

/// Whether `e` is `var.len()`.
pub fn is_len_call(e: &Expr, var: &str) -> (r: bool)
    ensures
        r == is_len_of(*e, var@),
{
    match &e.node {
        ExprKind::MethodCall(method, args) => args.len() == 1 && same_text(method.as_str(), "len") && path_is_named(
            &args[0],
            var,
        ),
        _ => false,
    }
}

/// Whether an optional expression uses `var`.
pub open spec fn opt_uses(o: Option<Box<Expr>>, var: Seq<char>) -> bool
    decreases o, 2nat,
{
    match o {
        Some(x) => expr_uses(*x, var),
        None => false,
    }
}

/// Whether `e` or an expression in it, or in its patterns, blocks and
/// arms, is the path `var`; the bodies of closures are not entered.
pub open spec fn expr_uses(e: Expr, var: Seq<char>) -> bool
    decreases e, 1nat,
{
    is_var(e, var) || match e.node {
        ExprKind::Box(x) => expr_uses(*x, var),
        ExprKind::Array(es) => exprs_use(es@, 0, var),
        ExprKind::Call(f, es) => expr_uses(*f, var) || exprs_use(es@, 0, var),
        ExprKind::MethodCall(_, es) => exprs_use(es@, 0, var),
        ExprKind::Tup(es) => exprs_use(es@, 0, var),
        ExprKind::Binary(_, a, b) => expr_uses(*a, var) || expr_uses(*b, var),
        ExprKind::Unary(_, x) => expr_uses(*x, var),
        ExprKind::Cast(x, _) => expr_uses(*x, var),
        ExprKind::Type(x, _) => expr_uses(*x, var),
        ExprKind::If(c, t, o) => expr_uses(*c, var) || expr_uses(*t, var) || opt_uses(o, var),
        ExprKind::While(c, b) => expr_uses(*c, var) || block_uses(b, var),
        ExprKind::Loop(b, _) => block_uses(b, var),
        ExprKind::Match(x, arms, _) => expr_uses(*x, var) || arms_use(arms@, 0, var),
        ExprKind::Yield(x) => expr_uses(*x, var),
        ExprKind::Block(b) => block_uses(b, var),
        ExprKind::Assign(a, b) => expr_uses(*a, var) || expr_uses(*b, var),
        ExprKind::AssignOp(_, a, b) => expr_uses(*a, var) || expr_uses(*b, var),
        ExprKind::Field(x, _) => expr_uses(*x, var),
        ExprKind::Index(a, b) => expr_uses(*a, var) || expr_uses(*b, var),
        ExprKind::AddrOf(_, x) => expr_uses(*x, var),
        ExprKind::Break(_, o) => opt_uses(o, var),
        ExprKind::Ret(o) => opt_uses(o, var),
        ExprKind::Struct(_, fields, o) => exprs_use(fields@, 0, var) || opt_uses(o, var),
        ExprKind::Repeat(x) => expr_uses(*x, var),
        _ => false,
    }
}

/// Whether one of the expressions of `es` from `i` on uses `var`.
pub open spec fn exprs_use(es: Seq<Expr>, i: nat, var: Seq<char>) -> bool
    decreases es, es.len() - i,
{
    if i >= es.len() {
        false
    } else {
        expr_uses(es[i as int], var) || exprs_use(es, i + 1, var)
    }
}

/// Whether an optional pattern uses `var`.
pub open spec fn opt_pat_uses(o: Option<Box<Pat>>, var: Seq<char>) -> bool
    decreases o, 2nat,
{
    match o {
        Some(p) => pat_uses(*p, var),
        None => false,
    }
}

/// Whether an expression in pattern `p` (a literal or a range bound) uses
/// `var`.
pub open spec fn pat_uses(p: Pat, var: Seq<char>) -> bool
    decreases p, 1nat,
{
    match p {
        Pat::Binding(_, _, sub) => opt_pat_uses(sub, var),
        Pat::Struct(_, ps, _) => pats_use(ps@, 0, var),
        Pat::TupleStruct(_, ps, _) => pats_use(ps@, 0, var),
        Pat::Tuple(ps, _) => pats_use(ps@, 0, var),
        Pat::Box(x) => pat_uses(*x, var),
        Pat::Ref(x, _) => pat_uses(*x, var),
        Pat::Lit(e) => expr_uses(*e, var),
        Pat::Range(a, b, _) => expr_uses(*a, var) || expr_uses(*b, var),
        Pat::Slice(a, m, b) => pats_use(a@, 0, var) || opt_pat_uses(m, var) || pats_use(b@, 0, var),
        _ => false,
    }
}

/// Whether one of the patterns of `ps` from `i` on uses `var`.
pub open spec fn pats_use(ps: Seq<Pat>, i: nat, var: Seq<char>) -> bool
    decreases ps, ps.len() - i,
{
    if i >= ps.len() {
        false
    } else {
        pat_uses(ps[i as int], var) || pats_use(ps, i + 1, var)
    }
}

/// Whether one of the arms of `arms` from `i` on uses `var`: in its
/// patterns, its guard or its body.
pub open spec fn arms_use(arms: Seq<Arm>, i: nat, var: Seq<char>) -> bool
    decreases arms, arms.len() - i,
{
    if i >= arms.len() {
        false
    } else {
        pats_use(arms[i as int].pats@, 0, var) || opt_uses(arms[i as int].guard, var) || expr_uses(
            *arms[i as int].body,
            var,
        ) || arms_use(arms, i + 1, var)
    }
}

/// Whether a statement uses `var`.
pub open spec fn stmt_uses(s: Stmt, var: Seq<char>) -> bool
    decreases s, 1nat,
{
    match s {
        Stmt::Decl(Decl::Local(l)) => opt_uses(l.init, var) || pat_uses(l.pat, var),
        Stmt::Decl(Decl::Item(_)) => false,
        Stmt::Expr(e) => expr_uses(*e, var),
        Stmt::Semi(e) => expr_uses(*e, var),
    }
}

/// Whether one of the statements of `ss` from `i` on uses `var`.
pub open spec fn stmts_use(ss: Seq<Stmt>, i: nat, var: Seq<char>) -> bool
    decreases ss, ss.len() - i,
{
    if i >= ss.len() {
        false
    } else {
        stmt_uses(ss[i as int], var) || stmts_use(ss, i + 1, var)
    }
}

/// Whether a block uses `var`.
pub open spec fn block_uses(b: Block, var: Seq<char>) -> bool
    decreases b, 1nat,
{
    stmts_use(b.stmts@, 0, var) || opt_uses(b.expr, var)
}

/// Whether `e` uses `var`.
pub fn uses_var(e: &Expr, var: &str) -> (r: bool)
    ensures
        r == expr_uses(*e, var@),
    decreases e, 1nat,
{
    if match_var(e, var) {
        return true;
    }
    match &e.node {
        ExprKind::Box(x) => uses_var(x, var),
        ExprKind::Array(es) => exprs_use_var(es, 0, var),
        ExprKind::Call(f, es) => uses_var(f, var) || exprs_use_var(es, 0, var),
        ExprKind::MethodCall(_, es) => exprs_use_var(es, 0, var),
        ExprKind::Tup(es) => exprs_use_var(es, 0, var),
        ExprKind::Binary(_, a, b) => uses_var(a, var) || uses_var(b, var),
        ExprKind::Unary(_, x) => uses_var(x, var),
        ExprKind::Cast(x, _) => uses_var(x, var),
        ExprKind::Type(x, _) => uses_var(x, var),
        ExprKind::If(c, t, o) => uses_var(c, var) || uses_var(t, var) || opt_uses_var(o, var),
        ExprKind::While(c, b) => uses_var(c, var) || block_uses_var(b, var),
        ExprKind::Loop(b, _) => block_uses_var(b, var),
        ExprKind::Match(x, arms, _) => uses_var(x, var) || arms_use_var(arms, 0, var),
        ExprKind::Yield(x) => uses_var(x, var),
        ExprKind::Block(b) => block_uses_var(b, var),
        ExprKind::Assign(a, b) => uses_var(a, var) || uses_var(b, var),
        ExprKind::AssignOp(_, a, b) => uses_var(a, var) || uses_var(b, var),
        ExprKind::Field(x, _) => uses_var(x, var),
        ExprKind::Index(a, b) => uses_var(a, var) || uses_var(b, var),
        ExprKind::AddrOf(_, x) => uses_var(x, var),
        ExprKind::Break(_, o) => opt_uses_var(o, var),
        ExprKind::Ret(o) => opt_uses_var(o, var),
        ExprKind::Struct(_, fields, o) => exprs_use_var(fields, 0, var) || opt_uses_var(o, var),
        ExprKind::Repeat(x) => uses_var(x, var),
        _ => false,
    }
}

/// Whether one of the expressions of `es` from `i` on uses `var`.
fn exprs_use_var(es: &Vec<Expr>, i: usize, var: &str) -> (r: bool)
    requires
        i <= es@.len(),
    ensures
        r == exprs_use(es@, i as nat, var@),
    decreases es@, es@.len() - i,
{
    if i >= es.len() {
        false
    } else {
        uses_var(&es[i], var) || exprs_use_var(es, i + 1, var)
    }
}

/// Whether an expression in pattern `p` uses `var`.
pub fn pat_uses_var(p: &Pat, var: &str) -> (r: bool)
    ensures
        r == pat_uses(*p, var@),
    decreases p, 1nat,
{
    match p {
        Pat::Binding(_, _, sub) => opt_pat_uses_var(sub, var),
        Pat::Struct(_, ps, _) => pats_use_var(ps, 0, var),
        Pat::TupleStruct(_, ps, _) => pats_use_var(ps, 0, var),
        Pat::Tuple(ps, _) => pats_use_var(ps, 0, var),
        Pat::Box(x) => pat_uses_var(x, var),
        Pat::Ref(x, _) => pat_uses_var(x, var),
        Pat::Lit(e) => uses_var(e, var),
        Pat::Range(a, b, _) => uses_var(a, var) || uses_var(b, var),
        Pat::Slice(a, m, b) => pats_use_var(a, 0, var) || opt_pat_uses_var(m, var) || pats_use_var(b, 0, var),
        _ => false,
    }
}

/// Whether one of the patterns of `ps` from `i` on uses `var`.
fn pats_use_var(ps: &Vec<Pat>, i: usize, var: &str) -> (r: bool)
    requires
        i <= ps@.len(),
    ensures
        r == pats_use(ps@, i as nat, var@),
    decreases ps@, ps@.len() - i,
{
    if i >= ps.len() {
        false
    } else {
        pat_uses_var(&ps[i], var) || pats_use_var(ps, i + 1, var)
    }
}

/// Whether one of the arms of `arms` from `i` on uses `var`.
fn arms_use_var(arms: &Vec<Arm>, i: usize, var: &str) -> (r: bool)
    requires
        i <= arms@.len(),
    ensures
        r == arms_use(arms@, i as nat, var@),
    decreases arms@, arms@.len() - i,
{
    if i >= arms.len() {
        false
    } else {
        pats_use_var(&arms[i].pats, 0, var) || opt_uses_var(&arms[i].guard, var) || uses_var(&arms[i].body, var)
            || arms_use_var(arms, i + 1, var)
    }
}

/// Whether a statement uses `var`.
pub fn stmt_uses_var(s: &Stmt, var: &str) -> (r: bool)
    ensures
        r == stmt_uses(*s, var@),
    decreases s, 1nat,
{
    match s {
        Stmt::Decl(Decl::Local(l)) => opt_uses_var(&l.init, var) || pat_uses_var(&l.pat, var),
        Stmt::Decl(Decl::Item(_)) => false,
        Stmt::Expr(e) => uses_var(e, var),
        Stmt::Semi(e) => uses_var(e, var),
    }
}

/// Whether one of the statements of `ss` from `i` on uses `var`.
fn stmts_use_var(ss: &Vec<Stmt>, i: usize, var: &str) -> (r: bool)
    requires
        i <= ss@.len(),
    ensures
        r == stmts_use(ss@, i as nat, var@),
    decreases ss@, ss@.len() - i,
{
    if i >= ss.len() {
        false
    } else {
        stmt_uses_var(&ss[i], var) || stmts_use_var(ss, i + 1, var)
    }
}

/// Whether a block uses `var`.
pub fn block_uses_var(b: &Block, var: &str) -> (r: bool)
    ensures
        r == block_uses(*b, var@),
    decreases b, 1nat,
{
    stmts_use_var(&b.stmts, 0, var) || opt_uses_var(&b.expr, var)
}

/// Whether an optional expression uses `var`.
fn opt_uses_var(o: &Option<Box<Expr>>, var: &str) -> (r: bool)
    ensures
        r == opt_uses(*o, var@),
    decreases o, 2nat,
{
    match o {
        Some(x) => uses_var(x, var),
        None => false,
    }
}

/// Whether an optional pattern uses `var`.
fn opt_pat_uses_var(o: &Option<Box<Pat>>, var: &str) -> (r: bool)
    ensures
        r == opt_pat_uses(*o, var@),
    decreases o, 2nat,
{
    match o {
        Some(x) => pat_uses_var(x, var),
        None => false,
    }
}

/// Whether pattern `p` binds nothing that `body` uses: `_`, or a name
/// beginning with `_` that the body does not use.
pub open spec fn wild_in(p: Pat, body: Expr) -> bool {
    match p {
        Pat::Wild => true,
        Pat::Binding(_, name, sub) => sub is None && name@.len() > 0 && name@[0] == '_' && !expr_uses(
            body,
            name@,
        ),
        _ => false,
    }
}

/// Whether pattern `p` binds nothing that `body` uses.
pub fn pat_is_wild(p: &Pat, body: &Expr) -> (r: bool)
    ensures
        r == wild_in(*p, *body),
{
    match p {
        Pat::Wild => true,
        Pat::Binding(_, name, None) => {
            let cs = crate::text::chars_of(name.as_str());
            if cs.len() > 0 && cs[0] == '_' {
                !uses_var(body, name.as_str())
            } else {
                false
            }
        },
        _ => false,
    }
}

/// What the compiler knows of the type a `for` loop iterates over, when it
/// is a reference: whether it is mutable and whether it refers to a
/// `HashMap` or a `BTreeMap`.
#[derive(Copy, Clone, Debug)]
pub struct RefTarget {
    pub mutbl: Mutability,
    pub is_map: bool,
}

/// Which half of a map's entries a loop wants.
#[derive(Copy, Clone, Debug, PartialEq, Eq, Structural)]
pub enum KvKind {
    Key,
    Value,
}

/// What `for_kv_map` reports: the half wanted, which element of the
/// `(key, value)` pattern to keep, the method to call instead, and the id of
/// the map expression to call it on.
#[derive(Debug)]
pub struct KvMapLint {
    pub kind: KvKind,
    pub kept: usize,
    pub method: String,
    pub receiver: u32,
}

/// The name of the map method that gives the `kind` half, `_mut` for a
/// mutable one.
pub open spec fn kv_method(kind: KvKind, mutbl: Mutability) -> Seq<char> {
    let base = match kind {
        KvKind::Key => "keys"@,
        KvKind::Value => "values"@,
    };
    match mutbl {
        Mutability::MutMutable => base + "_mut"@,
        Mutability::MutImmutable => base,
    }
}

/// The id of the expression a loop iterates over, without its `&`.
pub open spec fn receiver_id(arg: Expr) -> u32 {
    match arg.node {
        ExprKind::AddrOf(_, inner) => inner.id,
        _ => arg.id,
    }
}

/// What `for_kv_map` reports on `for pat in arg { body }`, as plain values:
/// for a pattern `(k, v)` over a reference to a map, where `k` binds nothing
/// the body uses, the values (mutable as the reference is); else where `v`
/// binds nothing the body uses, the keys.
pub open spec fn kv_report(pat: Pat, arg: Expr, body: Expr, ty: Option<RefTarget>) -> Option<(KvKind, nat, Seq<char>, u32)> {
    match pat {
        Pat::Tuple(ps, _) => if ps@.len() == 2 {
            match ty {
                Some(t) => {
                    let choice = if wild_in(ps@[0], body) {
                        Some((KvKind::Value, 1nat, t.mutbl))
                    } else if wild_in(ps@[1], body) {
                        Some((KvKind::Key, 0nat, Mutability::MutImmutable))
                    } else {
                        None
                    };
                    match choice {
                        Some((kind, kept, m)) => if t.is_map {
                            Some((kind, kept, kv_method(kind, m), receiver_id(arg)))
                        } else {
                            None
                        },
                        None => None,
                    }
                },
                None => None,
            }
        } else {
            None
        },
        _ => None,
    }
}

/// A report as plain values.
pub open spec fn kv_view(r: Option<KvMapLint>) -> Option<(KvKind, nat, Seq<char>, u32)> {
    match r {
        Some(l) => Some((l.kind, l.kept as nat, l.method@, l.receiver)),
        None => None,
    }
}

/// What `for_kv_map` reports on `for pat in arg { body }`; `ty` is what the
/// compiler knows of the type of `arg` when it is a reference.
pub fn check_for_loop_over_map_kv(pat: &Pat, arg: &Expr, body: &Expr, ty: Option<RefTarget>) -> (r: Option<KvMapLint>)
    ensures
        kv_view(r) == kv_report(*pat, *arg, *body, ty),
{
    if let Pat::Tuple(ps, _) = pat {
        if ps.len() == 2 {
            if let Some(t) = ty {
                let (kind, kept, m) = if pat_is_wild(&ps[0], body) {
                    (KvKind::Value, 1usize, t.mutbl)
                } else if pat_is_wild(&ps[1], body) {
                    (KvKind::Key, 0usize, Mutability::MutImmutable)
                } else {
                    return None;
                };
                if !t.is_map {
                    return None;
                }
                let mut method = String::from_str(match kind {
                    KvKind::Key => "keys",
                    KvKind::Value => "values",
                });
                if m == Mutability::MutMutable {
                    method.append("_mut");
                }
                let receiver = match &arg.node {
                    ExprKind::AddrOf(_, inner) => inner.id,
                    _ => arg.id,
                };
                return Some(KvMapLint { kind, kept, method, receiver });
            }
        }
    }
    None
}

/// What the compiler knows of a type, as far as the `for` loop lints ask:
/// arrays with their length, the standard collections, `Option`, `Result`.
#[derive(Copy, Clone, Debug, PartialEq, Eq, Structural)]
pub enum TyKind {
    Array(u64),
    Vec,
    LinkedList,
    HashMap,
    HashSet,
    VecDeque,
    BinaryHeap,
    BTreeMap,
    BTreeSet,
    Option,
    Result,
    Other,
}

/// What the compiler knows about a `for` loop's iterated expression: the
/// type of the receiver of a method call on it, its own type, whether an
/// `into_iter` call is `IntoIterator`'s and takes a reference, and whether a
/// `next` call is `Iterator`'s.
#[derive(Copy, Clone, Debug)]
pub struct ForArgFacts {
    pub receiver_ty: TyKind,
    pub arg_ty: TyKind,
    pub into_iter_trait: bool,
    pub into_iter_by_ref: bool,
    pub next_is_iterator: bool,
}

/// What the lints on a `for` loop's iterated expression report.
#[derive(Copy, Clone, Debug, PartialEq, Eq, Structural)]
pub enum ForArgLint {
    /// `for x in y.iter()` could be `for x in &y` (`&mut y` for `iter_mut`);
    /// `object` is the id of `y`.
    ExplicitIterLoop { mutable: bool, object: u32 },
    /// `for x in y.into_iter()` could be `for x in y`.
    ExplicitIntoIterLoop { object: u32 },
    /// `for x in y.next()` iterates over an `Option`.
    IterNextLoop,
    /// The loop goes over an `Option`.
    OverOption,
    /// The loop goes over a `Result`.
    OverResult,
}

/// Whether a `for` loop may go over a reference to a value of type `t`
/// instead of calling `iter()`: arrays of up to 32 elements and the
/// standard collections.
pub open spec fn ref_iterable(t: TyKind) -> bool {
    match t {
        TyKind::Array(n) => n <= 32,
        TyKind::Vec | TyKind::LinkedList | TyKind::HashMap | TyKind::HashSet | TyKind::VecDeque
        | TyKind::BinaryHeap | TyKind::BTreeMap | TyKind::BTreeSet => true,
        _ => false,
    }
}

/// Whether a type is an array that a `for` loop can go over directly: of up
/// to 32 elements.
pub fn is_iterable_array(t: TyKind) -> (r: bool)
    ensures
        r == (t matches TyKind::Array(n) && n <= 32),
{
    match t {
        TyKind::Array(n) => n <= 32,
        _ => false,
    }
}

/// Whether a `for` loop may go over a reference to a value of type `t`.
pub fn is_ref_iterable_type(t: TyKind) -> (r: bool)
    ensures
        r == ref_iterable(t),
{
    is_iterable_array(t) || match t {
        TyKind::Vec | TyKind::LinkedList | TyKind::HashMap | TyKind::HashSet | TyKind::VecDeque
        | TyKind::BinaryHeap | TyKind::BTreeMap | TyKind::BTreeSet => true,
        _ => false,
    }
}

/// The report on looping over a value of type `t`: over an `Option` or a
/// `Result`.
pub open spec fn arg_type_lints(t: TyKind) -> Seq<ForArgLint> {
    match t {
        TyKind::Option => seq![ForArgLint::OverOption],
        TyKind::Result => seq![ForArgLint::OverResult],
        _ => Seq::empty(),
    }
}

/// The report on looping over a value of type `t`.
pub fn check_arg_type(t: TyKind) -> (r: Option<ForArgLint>)
    ensures
        match r {
            Some(l) => arg_type_lints(t) == seq![l],
            None => arg_type_lints(t) == Seq::<ForArgLint>::empty(),
        },
{
    match t {
        TyKind::Option => Some(ForArgLint::OverOption),
        TyKind::Result => Some(ForArgLint::OverResult),
        _ => None,
    }
}

/// The reports on a method call as a `for` loop's iterated expression, and
/// whether the call was `Iterator::next`.
pub open spec fn method_arg_lints(arg: Expr, f: ForArgFacts) -> (Seq<ForArgLint>, bool) {
    match arg.node {
        ExprKind::MethodCall(m, args) => if args@.len() == 1 {
            if m@ == "iter"@ || m@ == "iter_mut"@ {
                if ref_iterable(f.receiver_ty) {
                    (seq![ForArgLint::ExplicitIterLoop { mutable: m@ == "iter_mut"@, object: args@[0].id }], false)
                } else {
                    (Seq::empty(), false)
                }
            } else if m@ == "into_iter"@ && f.into_iter_trait {
                if f.into_iter_by_ref {
                    (seq![ForArgLint::ExplicitIterLoop { mutable: false, object: args@[0].id }], false)
                } else {
                    (seq![ForArgLint::ExplicitIntoIterLoop { object: args@[0].id }], false)
                }
            } else if m@ == "next"@ && f.next_is_iterator {
                (seq![ForArgLint::IterNextLoop], true)
            } else {
                (Seq::empty(), false)
            }
        } else {
            (Seq::empty(), false)
        },
        _ => (Seq::empty(), false),
    }
}

/// The reports on a `for` loop's iterated expression: explicit `iter()`,
/// `iter_mut()` or `into_iter()` calls, a `next()` call, and otherwise
/// loops over an `Option` or a `Result`.
pub open spec fn for_arg_lints(arg: Expr, f: ForArgFacts) -> Seq<ForArgLint> {
    let (s, next_linted) = method_arg_lints(arg, f);
    if next_linted {
        s
    } else {
        s + arg_type_lints(f.arg_ty)
    }
}

/// The reports on a `for` loop's iterated expression `arg`; `facts` is what
/// the compiler knows about it.
pub fn check_for_loop_arg(arg: &Expr, facts: ForArgFacts) -> (r: Vec<ForArgLint>)
    ensures
        r@ == for_arg_lints(*arg, facts),
{
    proof {
        reveal_strlit("iter");
        reveal_strlit("iter_mut");
        reveal_strlit("into_iter");
        reveal_strlit("next");
    }
    let mut out: Vec<ForArgLint> = Vec::new();
    let mut next_loop_linted = false;
    if let ExprKind::MethodCall(method, args) = &arg.node {
        if args.len() == 1 {
            let name = method.as_str();
            let is_iter = same_text(name, "iter");
            let is_iter_mut = same_text(name, "iter_mut");
            if is_iter || is_iter_mut {
                if is_ref_iterable_type(facts.receiver_ty) {
                    out.push(ForArgLint::ExplicitIterLoop { mutable: is_iter_mut, object: args[0].id });
                }
            } else if same_text(name, "into_iter") && facts.into_iter_trait {
                if facts.into_iter_by_ref {
                    out.push(ForArgLint::ExplicitIterLoop { mutable: false, object: args[0].id });
                } else {
                    out.push(ForArgLint::ExplicitIntoIterLoop { object: args[0].id });
                }
            } else if same_text(name, "next") && facts.next_is_iterator {
                out.push(ForArgLint::IterNextLoop);
                next_loop_linted = true;
            }
        }
    }
    proof {
        assert(out@ == method_arg_lints(*arg, facts).0);
        assert(next_loop_linted == method_arg_lints(*arg, facts).1);
    }
    if !next_loop_linted {
        match check_arg_type(facts.arg_ty) {
            Some(l) => out.push(l),
            None => {},
        }
    }
    proof {
        assert(out@ =~= for_arg_lints(*arg, facts));
    }
    out
}

/// The texts of some strings.
pub open spec fn texts_of(v: Seq<String>) -> Seq<Seq<char>> {
    Seq::new(v.len(), |i: int| v[i]@)
}

/// What scanning a loop body for indexing by the loop variable found so
/// far: the variables indexed by it, each with the definition of the local
/// it is (none for a static or a constant), the variables used otherwise,
/// and whether the loop variable was used otherwise.
pub struct IndexScan {
    pub names: Seq<Seq<char>>,
    pub defs: Seq<Option<u32>>,
    pub referenced: Seq<Seq<char>>,
    pub nonindex: bool,
}

/// The last position of `k` in `names`, or -1.
pub open spec fn last_index(names: Seq<Seq<char>>, k: Seq<char>) -> int
    decreases names.len(),
{
    if names.len() == 0 {
        -1
    } else if names.last() == k {
        names.len() - 1
    } else {
        last_index(names.drop_last(), k)
    }
}

impl IndexScan {
    /// Records that `name` is indexed, as the local `def` or as a static or
    /// constant; a name seen before keeps its place and takes the new
    /// definition.
    pub open spec fn put_indexed(self, name: Seq<char>, def: Option<u32>) -> IndexScan {
        let j = last_index(self.names, name);
        if j >= 0 {
            IndexScan { defs: self.defs.update(j, def), ..self }
        } else {
            IndexScan { names: self.names.push(name), defs: self.defs.push(def), ..self }
        }
    }

    /// Records that `name` is used otherwise than indexed by the loop
    /// variable.
    pub open spec fn add_referenced(self, name: Seq<char>) -> IndexScan {
        if self.referenced.contains(name) {
            self
        } else {
            IndexScan { referenced: self.referenced.push(name), ..self }
        }
    }
}

/// Whether a path that resolves to `d` names the variable defined by
/// `var`.
pub open spec fn resolves_to(d: Def, var: u32) -> bool {
    match d {
        Def::Local(id) => id == var,
        Def::Upvar(id) => id == var,
        _ => false,
    }
}

/// What scanning `e` for indexing by the variable `var` records first: for
/// `x[i]` where `i` is the variable and `x` a local, static or constant,
/// that `x` is indexed (and `x[i]` is not looked into further); else, for a
/// path of one segment, that the variable or another name is used.
pub open spec fn scan_node(e: Expr, var: u32, s: IndexScan) -> (IndexScan, bool) {
    let found = match e.node {
        ExprKind::Index(seq, idx) => match idx.node {
            ExprKind::Path(QPath::Resolved(None, ip)) => if ip.segments@.len() == 1 && resolves_to(ip.def, var) {
                match seq.node {
                    ExprKind::Path(QPath::Resolved(None, sp)) => if sp.segments@.len() == 1 {
                        match sp.def {
                            Def::Local(d) => Some(s.put_indexed(sp.segments@[0]@, Some(d))),
                            Def::Upvar(d) => Some(s.put_indexed(sp.segments@[0]@, Some(d))),
                            Def::Static => Some(s.put_indexed(sp.segments@[0]@, None)),
                            Def::Const => Some(s.put_indexed(sp.segments@[0]@, None)),
                            Def::Other => None,
                        }
                    } else {
                        None
                    },
                    _ => None,
                }
            } else {
                None
            },
            _ => None,
        },
        _ => None,
    };
    match found {
        Some(s1) => (s1, true),
        None => match e.node {
            ExprKind::Path(QPath::Resolved(None, p)) => if p.segments@.len() == 1 {
                if resolves_to(p.def, var) {
                    (IndexScan { nonindex: true, ..s }, false)
                } else {
                    (s.add_referenced(p.segments@[0]@), false)
                }
            } else {
                (s, false)
            },
            _ => (s, false),
        },
    }
}

/// Scans an optional expression.
pub open spec fn scan_opt(o: Option<Box<Expr>>, var: u32, s: IndexScan) -> IndexScan
    decreases o, 2nat,
{
    match o {
        Some(x) => scan_expr(*x, var, s),
        None => s,
    }
}

/// Scans expression `e`: what it records itself, then, unless it was an
/// indexing by the variable, what it holds, in the order the compiler's
/// walk visits it.
pub open spec fn scan_expr(e: Expr, var: u32, s: IndexScan) -> IndexScan
    decreases e, 1nat,
{
    let (s1, stop) = scan_node(e, var, s);
    if stop {
        s1
    } else {
        scan_children(e, var, s1)
    }
}

/// Scans what expression `e` holds.
pub open spec fn scan_children(e: Expr, var: u32, s: IndexScan) -> IndexScan
    decreases e, 0nat,
{
    match e.node {
        ExprKind::Box(x) => scan_expr(*x, var, s),
        ExprKind::Array(es) => scan_exprs(es@, 0, var, s),
        ExprKind::Call(f, es) => scan_exprs(es@, 0, var, scan_expr(*f, var, s)),
        ExprKind::MethodCall(_, es) => scan_exprs(es@, 0, var, s),
        ExprKind::Tup(es) => scan_exprs(es@, 0, var, s),
        ExprKind::Binary(_, l, r) => scan_expr(*r, var, scan_expr(*l, var, s)),
        ExprKind::Unary(_, x) => scan_expr(*x, var, s),
        ExprKind::Cast(x, _) => scan_expr(*x, var, s),
        ExprKind::Type(x, _) => scan_expr(*x, var, s),
        ExprKind::If(c, t, o) => scan_opt(o, var, scan_expr(*t, var, scan_expr(*c, var, s))),
        ExprKind::While(c, b) => scan_block(b, var, scan_expr(*c, var, s)),
        ExprKind::Loop(b, _) => scan_block(b, var, s),
        ExprKind::Match(x, arms, _) => scan_arms(arms@, 0, var, scan_expr(*x, var, s)),
        ExprKind::Yield(x) => scan_expr(*x, var, s),
        ExprKind::Block(b) => scan_block(b, var, s),
        ExprKind::Assign(l, r) => scan_expr(*l, var, scan_expr(*r, var, s)),
        ExprKind::AssignOp(_, l, r) => scan_expr(*l, var, scan_expr(*r, var, s)),
        ExprKind::Field(x, _) => scan_expr(*x, var, s),
        ExprKind::Index(a, b) => scan_expr(*b, var, scan_expr(*a, var, s)),
        ExprKind::AddrOf(_, x) => scan_expr(*x, var, s),
        ExprKind::Break(_, o) => scan_opt(o, var, s),
        ExprKind::Ret(o) => scan_opt(o, var, s),
        ExprKind::Struct(_, fields, o) => scan_opt(o, var, scan_exprs(fields@, 0, var, s)),
        ExprKind::Repeat(x) => scan_expr(*x, var, s),
        _ => s,
    }
}

/// Scans the expressions of `es` from `i` on.
pub open spec fn scan_exprs(es: Seq<Expr>, i: nat, var: u32, s: IndexScan) -> IndexScan
    decreases es, es.len() - i,
{
    if i >= es.len() {
        s
    } else {
        scan_exprs(es, i + 1, var, scan_expr(es[i as int], var, s))
    }
}

/// Scans an optional pattern.
pub open spec fn scan_opt_pat(o: Option<Box<Pat>>, var: u32, s: IndexScan) -> IndexScan
    decreases o, 2nat,
{
    match o {
        Some(p) => scan_pat(*p, var, s),
        None => s,
    }
}

/// Scans the expressions in pattern `p`.
pub open spec fn scan_pat(p: Pat, var: u32, s: IndexScan) -> IndexScan
    decreases p, 1nat,
{
    match p {
        Pat::Binding(_, _, sub) => scan_opt_pat(sub, var, s),
        Pat::Struct(_, ps, _) => scan_pats(ps@, 0, var, s),
        Pat::TupleStruct(_, ps, _) => scan_pats(ps@, 0, var, s),
        Pat::Tuple(ps, _) => scan_pats(ps@, 0, var, s),
        Pat::Box(x) => scan_pat(*x, var, s),
        Pat::Ref(x, _) => scan_pat(*x, var, s),
        Pat::Lit(e) => scan_expr(*e, var, s),
        Pat::Range(a, b, _) => scan_expr(*b, var, scan_expr(*a, var, s)),
        Pat::Slice(a, m, b) => scan_pats(b@, 0, var, scan_opt_pat(m, var, scan_pats(a@, 0, var, s))),
        _ => s,
    }
}

/// Scans the patterns of `ps` from `i` on.
pub open spec fn scan_pats(ps: Seq<Pat>, i: nat, var: u32, s: IndexScan) -> IndexScan
    decreases ps, ps.len() - i,
{
    if i >= ps.len() {
        s
    } else {
        scan_pats(ps, i + 1, var, scan_pat(ps[i as int], var, s))
    }
}

/// Scans the arms of `arms` from `i` on: patterns, guard, body.
pub open spec fn scan_arms(arms: Seq<Arm>, i: nat, var: u32, s: IndexScan) -> IndexScan
    decreases arms, arms.len() - i,
{
    if i >= arms.len() {
        s
    } else {
        let s1 = scan_pats(arms[i as int].pats@, 0, var, s);
        let s2 = scan_opt(arms[i as int].guard, var, s1);
        scan_arms(arms, i + 1, var, scan_expr(*arms[i as int].body, var, s2))
    }
}

/// Scans a statement: a binding's initializer before its pattern.
pub open spec fn scan_stmt(st: Stmt, var: u32, s: IndexScan) -> IndexScan
    decreases st, 1nat,
{
    match st {
        Stmt::Decl(Decl::Local(l)) => scan_pat(l.pat, var, scan_opt(l.init, var, s)),
        Stmt::Decl(Decl::Item(_)) => s,
        Stmt::Expr(e) => scan_expr(*e, var, s),
        Stmt::Semi(e) => scan_expr(*e, var, s),
    }
}

/// Scans the statements of `ss` from `i` on.
pub open spec fn scan_stmts(ss: Seq<Stmt>, i: nat, var: u32, s: IndexScan) -> IndexScan
    decreases ss, ss.len() - i,
{
    if i >= ss.len() {
        s
    } else {
        scan_stmts(ss, i + 1, var, scan_stmt(ss[i as int], var, s))
    }
}

/// Scans a block: its statements, then its final expression.
pub open spec fn scan_block(b: Block, var: u32, s: IndexScan) -> IndexScan
    decreases b, 1nat,
{
    scan_opt(b.expr, var, scan_stmts(b.stmts@, 0, var, s))
}

/// Whether a path that resolves to `d` names the variable defined by
/// `var`.
fn resolves(d: Def, var: u32) -> (r: bool)
    ensures
        r == resolves_to(d, var),
{
    match d {
        Def::Local(id) => id == var,
        Def::Upvar(id) => id == var,
        _ => false,
    }
}

/// The last position of `k` in `v`, if it is there.
fn last_position(v: &Vec<String>, k: &str) -> (r: Option<usize>)
    ensures
        match r {
            Some(j) => j < v@.len() && j as int == last_index(texts_of(v@), k@),
            None => last_index(texts_of(v@), k@) == -1,
        },
{
    let mut j = v.len();
    proof {
        assert(texts_of(v@).take(j as int) =~= texts_of(v@));
    }
    while j > 0 && !same_text(v[j - 1].as_str(), k)
        invariant
            j <= v@.len(),
            last_index(texts_of(v@), k@) == last_index(texts_of(v@).take(j as int), k@),
        decreases j,
    {
        proof {
            assert(texts_of(v@).take(j as int).drop_last() =~= texts_of(v@).take(j - 1));
        }
        j = j - 1;
    }
    if j == 0 {
        proof {
            assert(texts_of(v@).take(0) =~= Seq::<Seq<char>>::empty());
        }
        None
    } else {
        Some(j - 1)
    }
}

/// Whether `k` is one of the texts of `v`.
fn contains_text(v: &Vec<String>, k: &str) -> (r: bool)
    ensures
        r == texts_of(v@).contains(k@),
{
    let mut i: usize = 0;
    while i < v.len()
        invariant
            i <= v@.len(),
            forall|t: int| 0 <= t < i ==> v@[t]@ != k@,
        decreases v@.len() - i,
    {
        if same_text(v[i].as_str(), k) {
            proof {
                assert(texts_of(v@)[i as int] == k@);
            }
            return true;
        }
        i = i + 1;
    }
    proof {
        assert forall|t: int| 0 <= t < texts_of(v@).len() implies texts_of(v@)[t] != k@ by {
            assert(v@[t]@ != k@);
        }
    }
    false
}

/// A scan of a loop body for indexing by the loop variable.
pub struct IndexScanner {
    pub names: Vec<String>,
    pub defs: Vec<Option<u32>>,
    pub referenced: Vec<String>,
    pub nonindex: bool,
}

impl IndexScanner {
    /// What the scan found so far.
    pub open spec fn found(&self) -> IndexScan {
        IndexScan {
            names: texts_of(self.names@),
            defs: self.defs@,
            referenced: texts_of(self.referenced@),
            nonindex: self.nonindex,
        }
    }

    /// Each indexed name has its definition.
    pub open spec fn wf(&self) -> bool {
        self.names@.len() == self.defs@.len()
    }

    /// A scan that found nothing yet.
    pub fn new() -> (r: Self)
        ensures
            r.wf(),
            r.found() == (IndexScan {
                names: Seq::empty(),
                defs: Seq::empty(),
                referenced: Seq::empty(),
                nonindex: false,
            }),
    {
        let r = IndexScanner { names: Vec::new(), defs: Vec::new(), referenced: Vec::new(), nonindex: false };
        proof {
            assert(texts_of(r.names@) =~= Seq::<Seq<char>>::empty());
            assert(texts_of(r.referenced@) =~= Seq::<Seq<char>>::empty());
        }
        r
    }

    /// Records that `name` is indexed, as the local `def` or as a static or
    /// constant.
    fn put_indexed(&mut self, name: &String, def: Option<u32>)
        requires
            old(self).wf(),
        ensures
            final(self).wf(),
            final(self).found() == old(self).found().put_indexed(name@, def),
    {
        match last_position(&self.names, name.as_str()) {
            Some(j) => {
                self.defs.set(j, def);
            },
            None => {
                self.names.push(name.clone());
                self.defs.push(def);
                proof {
                    assert(texts_of(self.names@) =~= texts_of(old(self).names@).push(name@));
                }
            },
        }
    }

    /// Records that `name` is used otherwise.
    fn add_referenced(&mut self, name: &String)
        requires
            old(self).wf(),
        ensures
            final(self).wf(),
            final(self).found() == old(self).found().add_referenced(name@),
    {
        if !contains_text(&self.referenced, name.as_str()) {
            self.referenced.push(name.clone());
            proof {
                assert(texts_of(self.referenced@) =~= texts_of(old(self).referenced@).push(name@));
            }
        }
    }

    /// Records what `e` shows itself; says whether it was an indexing by
    /// the variable.
    fn scan_node(&mut self, e: &Expr, var: u32) -> (stop: bool)
        requires
            old(self).wf(),
        ensures
            final(self).wf(),
            (final(self).found(), stop) == scan_node(*e, var, old(self).found()),
    {
        if let ExprKind::Index(seq, idx) = &e.node {
            if let ExprKind::Path(QPath::Resolved(None, ip)) = &idx.node {
                if ip.segments.len() == 1 && resolves(ip.def, var) {
                    if let ExprKind::Path(QPath::Resolved(None, sp)) = &seq.node {
                        if sp.segments.len() == 1 {
                            match sp.def {
                                Def::Local(d) | Def::Upvar(d) => {
                                    self.put_indexed(&sp.segments[0], Some(d));
                                    return true;
                                },
                                Def::Static | Def::Const => {
                                    self.put_indexed(&sp.segments[0], None);
                                    return true;
                                },
                                Def::Other => {},
                            }
                        }
                    }
                }
            }
        }
        if let ExprKind::Path(QPath::Resolved(None, p)) = &e.node {
            if p.segments.len() == 1 {
                if resolves(p.def, var) {
                    self.nonindex = true;
                } else {
                    self.add_referenced(&p.segments[0]);
                }
            }
        }
        false
    }

    /// Scans expression `e`.
    pub fn scan_expr(&mut self, e: &Expr, var: u32)
        requires
            old(self).wf(),
        ensures
            final(self).wf(),
            final(self).found() == scan_expr(*e, var, old(self).found()),
        decreases e, 1nat,
    {
        let stop = self.scan_node(e, var);
        if !stop {
            self.scan_children(e, var);
        }
    }

    /// Scans an optional expression.
    fn scan_opt(&mut self, o: &Option<Box<Expr>>, var: u32)
        requires
            old(self).wf(),
        ensures
            final(self).wf(),
            final(self).found() == scan_opt(*o, var, old(self).found()),
        decreases o, 2nat,
    {
        match o {
            Some(x) => self.scan_expr(x, var),
            None => {},
        }
    }

    /// Scans what `e` holds.
    fn scan_children(&mut self, e: &Expr, var: u32)
        requires
            old(self).wf(),
        ensures
            final(self).wf(),
            final(self).found() == scan_children(*e, var, old(self).found()),
        decreases e, 0nat,
    {
        match &e.node {
            ExprKind::Box(x) => self.scan_expr(x, var),
            ExprKind::Array(es) => self.scan_exprs(es, 0, var),
            ExprKind::Call(f, es) => {
                self.scan_expr(f, var);
                self.scan_exprs(es, 0, var);
            },
            ExprKind::MethodCall(_, es) => self.scan_exprs(es, 0, var),
            ExprKind::Tup(es) => self.scan_exprs(es, 0, var),
            ExprKind::Binary(_, l, r) => {
                self.scan_expr(l, var);
                self.scan_expr(r, var);
            },
            ExprKind::Unary(_, x) => self.scan_expr(x, var),
            ExprKind::Cast(x, _) => self.scan_expr(x, var),
            ExprKind::Type(x, _) => self.scan_expr(x, var),
            ExprKind::If(c, t, o) => {
                self.scan_expr(c, var);
                self.scan_expr(t, var);
                self.scan_opt(o, var);
            },
            ExprKind::While(c, b) => {
                self.scan_expr(c, var);
                self.scan_block(b, var);
            },
            ExprKind::Loop(b, _) => self.scan_block(b, var),
            ExprKind::Match(x, arms, _) => {
                self.scan_expr(x, var);
                self.scan_arms(arms, 0, var);
            },
            ExprKind::Yield(x) => self.scan_expr(x, var),
            ExprKind::Block(b) => self.scan_block(b, var),
            ExprKind::Assign(l, r) => {
                self.scan_expr(r, var);
                self.scan_expr(l, var);
            },
            ExprKind::AssignOp(_, l, r) => {
                self.scan_expr(r, var);
                self.scan_expr(l, var);
            },
            ExprKind::Field(x, _) => self.scan_expr(x, var),
            ExprKind::Index(a, b) => {
                self.scan_expr(a, var);
                self.scan_expr(b, var);
            },
            ExprKind::AddrOf(_, x) => self.scan_expr(x, var),
            ExprKind::Break(_, o) => self.scan_opt(o, var),
            ExprKind::Ret(o) => self.scan_opt(o, var),
            ExprKind::Struct(_, fields, o) => {
                self.scan_exprs(fields, 0, var);
                self.scan_opt(o, var);
            },
            ExprKind::Repeat(x) => self.scan_expr(x, var),
            _ => {},
        }
    }

    /// Scans the expressions of `es` from `i` on.
    fn scan_exprs(&mut self, es: &Vec<Expr>, i: usize, var: u32)
        requires
            old(self).wf(),
            i <= es@.len(),
        ensures
            final(self).wf(),
            final(self).found() == scan_exprs(es@, i as nat, var, old(self).found()),
        decreases es@, es@.len() - i,
    {
        if i < es.len() {
            self.scan_expr(&es[i], var);
            self.scan_exprs(es, i + 1, var);
        }
    }

    /// Scans an optional pattern.
    fn scan_opt_pat(&mut self, o: &Option<Box<Pat>>, var: u32)
        requires
            old(self).wf(),
        ensures
            final(self).wf(),
            final(self).found() == scan_opt_pat(*o, var, old(self).found()),
        decreases o, 2nat,
    {
        match o {
            Some(p) => self.scan_pat(p, var),
            None => {},
        }
    }

    /// Scans the expressions in pattern `p`.
    fn scan_pat(&mut self, p: &Pat, var: u32)
        requires
            old(self).wf(),
        ensures
            final(self).wf(),
            final(self).found() == scan_pat(*p, var, old(self).found()),
        decreases p, 1nat,
    {
        match p {
            Pat::Binding(_, _, sub) => self.scan_opt_pat(sub, var),
            Pat::Struct(_, ps, _) => self.scan_pats(ps, 0, var),
            Pat::TupleStruct(_, ps, _) => self.scan_pats(ps, 0, var),
            Pat::Tuple(ps, _) => self.scan_pats(ps, 0, var),
            Pat::Box(x) => self.scan_pat(x, var),
            Pat::Ref(x, _) => self.scan_pat(x, var),
            Pat::Lit(e) => self.scan_expr(e, var),
            Pat::Range(a, b, _) => {
                self.scan_expr(a, var);
                self.scan_expr(b, var);
            },
            Pat::Slice(a, m, b) => {
                self.scan_pats(a, 0, var);
                self.scan_opt_pat(m, var);
                self.scan_pats(b, 0, var);
            },
            _ => {},
        }
    }

    /// Scans the patterns of `ps` from `i` on.
    fn scan_pats(&mut self, ps: &Vec<Pat>, i: usize, var: u32)
        requires
            old(self).wf(),
            i <= ps@.len(),
        ensures
            final(self).wf(),
            final(self).found() == scan_pats(ps@, i as nat, var, old(self).found()),
        decreases ps@, ps@.len() - i,
    {
        if i < ps.len() {
            self.scan_pat(&ps[i], var);
            self.scan_pats(ps, i + 1, var);
        }
    }

    /// Scans the arms of `arms` from `i` on.
    fn scan_arms(&mut self, arms: &Vec<Arm>, i: usize, var: u32)
        requires
            old(self).wf(),
            i <= arms@.len(),
        ensures
            final(self).wf(),
            final(self).found() == scan_arms(arms@, i as nat, var, old(self).found()),
        decreases arms@, arms@.len() - i,
    {
        if i < arms.len() {
            self.scan_pats(&arms[i].pats, 0, var);
            self.scan_opt(&arms[i].guard, var);
            self.scan_expr(&arms[i].body, var);
            self.scan_arms(arms, i + 1, var);
        }
    }

    /// Scans a statement.
    fn scan_stmt(&mut self, st: &Stmt, var: u32)
        requires
            old(self).wf(),
        ensures
            final(self).wf(),
            final(self).found() == scan_stmt(*st, var, old(self).found()),
        decreases st, 1nat,
    {
        match st {
            Stmt::Decl(Decl::Local(l)) => {
                self.scan_opt(&l.init, var);
                self.scan_pat(&l.pat, var);
            },
            Stmt::Decl(Decl::Item(_)) => {},
            Stmt::Expr(e) => self.scan_expr(e, var),
            Stmt::Semi(e) => self.scan_expr(e, var),
        }
    }

    /// Scans the statements of `ss` from `i` on.
    fn scan_stmts(&mut self, ss: &Vec<Stmt>, i: usize, var: u32)
        requires
            old(self).wf(),
            i <= ss@.len(),
        ensures
            final(self).wf(),
            final(self).found() == scan_stmts(ss@, i as nat, var, old(self).found()),
        decreases ss@, ss@.len() - i,
    {
        if i < ss.len() {
            self.scan_stmt(&ss[i], var);
            self.scan_stmts(ss, i + 1, var);
        }
    }

    /// Scans a block.
    fn scan_block(&mut self, b: &Block, var: u32)
        requires
            old(self).wf(),
        ensures
            final(self).wf(),
            final(self).found() == scan_block(*b, var, old(self).found()),
        decreases b, 1nat,
    {
        self.scan_stmts(&b.stmts, 0, var);
        self.scan_opt(&b.expr, var);
    }
}

/// The source texts the `needless_range_loop` suggestion takes: the
/// range's start, its end, and its end plus one, as the compiler's
/// suggestion builder writes them.
pub struct RangeTexts {
    pub start: Seq<char>,
    pub end: Seq<char>,
    pub end_plus_one: Seq<char>,
}

/// The source texts of a range loop, as strings.
#[derive(Debug)]
pub struct RangeStrings {
    pub start: String,
    pub end: String,
    pub end_plus_one: String,
}

impl RangeStrings {
    /// The texts.
    pub open spec fn texts(&self) -> RangeTexts {
        RangeTexts { start: self.start@, end: self.end@, end_plus_one: self.end_plus_one@ }
    }
}

/// What `needless_range_loop` reports: its message, what to put in place of
/// the loop pattern and what in place of the range.
#[derive(Debug)]
pub struct RangeLoopLint {
    pub message: String,
    pub pat_sugg: String,
    pub arg_sugg: String,
}

/// Whether `e` is the integer literal `value`.
pub open spec fn is_int_literal(e: Expr, value: u128) -> bool {
    e.node matches ExprKind::Lit(Lit::Int(v)) && v == value
}

/// The scan of a loop body that found nothing yet.
pub open spec fn empty_scan() -> IndexScan {
    IndexScan { names: Seq::empty(), defs: Seq::empty(), referenced: Seq::empty(), nonindex: false }
}

/// What `needless_range_loop` reports on `for pat in start..end { body }`
/// (`start...end` when `closed`), where the pattern binds the variable
/// defined by `var` and `inner` lists the locals declared within the loop:
/// when the body indexes exactly one variable by the loop variable, one
/// declared before the loop and not used otherwise, the message and the
/// suggested pattern and iterator, as texts.
pub open spec fn range_loop_report(
    pat: Pat,
    var: u32,
    start: Expr,
    end: Option<&Expr>,
    closed: bool,
    body: Expr,
    texts: RangeTexts,
    inner: Seq<u32>,
) -> Option<(Seq<char>, Seq<char>, Seq<char>)> {
    match pat {
        Pat::Binding(_, ident, _) => {
            let sc = scan_expr(body, var, empty_scan());
            if sc.names.len() != 1 {
                None
            } else {
                let indexed = sc.names[0];
                if (sc.defs[0] matches Some(d) && inner.contains(d)) || sc.referenced.contains(indexed) {
                    None
                } else {
                    let starts_at_zero = is_int_literal(start, 0);
                    let skip = if starts_at_zero {
                        Seq::empty()
                    } else {
                        ".skip("@ + texts.start + ")"@
                    };
                    let take = match end {
                        Some(e) => if is_len_of(*e, indexed) {
                            Seq::empty()
                        } else if closed {
                            ".take("@ + texts.end_plus_one + ")"@
                        } else {
                            ".take("@ + texts.end + ")"@
                        },
                        None => Seq::empty(),
                    };
                    if sc.nonindex {
                        Some(
                            (
                                "the loop variable `"@ + ident@ + "` is used to index `"@ + indexed + "`"@,
                                "("@ + ident@ + ", <item>)"@,
                                indexed + ".iter().enumerate()"@ + take + skip,
                            ),
                        )
                    } else {
                        let repl = if starts_at_zero && take.len() == 0 {
                            "&"@ + indexed
                        } else {
                            indexed + ".iter()"@ + take + skip
                        };
                        Some(
                            (
                                "the loop variable `"@ + ident@ + "` is only used to index `"@ + indexed + "`."@,
                                "<item>"@,
                                repl,
                            ),
                        )
                    }
                }
            }
        },
        _ => None,
    }
}

/// A report as texts.
pub open spec fn range_loop_view(r: Option<RangeLoopLint>) -> Option<(Seq<char>, Seq<char>, Seq<char>)> {
    match r {
        Some(l) => Some((l.message@, l.pat_sugg@, l.arg_sugg@)),
        None => None,
    }
}

/// Whether `d` is one of `v`.
fn contains_id(v: &Vec<u32>, d: u32) -> (r: bool)
    ensures
        r == v@.contains(d),
{
    let mut i: usize = 0;
    while i < v.len()
        invariant
            i <= v@.len(),
            forall|t: int| 0 <= t < i ==> v@[t] != d,
        decreases v@.len() - i,
    {
        if v[i] == d {
            proof {
                assert(v@[i as int] == d);
            }
            return true;
        }
        i = i + 1;
    }
    false
}

/// Whether `e` is the integer literal `value`.
pub fn is_integer_literal(e: &Expr, value: u128) -> (r: bool)
    ensures
        r == is_int_literal(*e, value),
{
    match &e.node {
        ExprKind::Lit(Lit::Int(v)) => *v == value,
        _ => false,
    }
}

/// What `needless_range_loop` reports on `for pat in start..end { body }`
/// (`start...end` when `closed`); `var` is the definition the pattern
/// binds, `inner` the locals declared within the loop, and `texts` the
/// source texts of the range's bounds.
pub fn check_for_loop_range(
    pat: &Pat,
    var: u32,
    start: &Expr,
    end: Option<&Expr>,
    closed: bool,
    body: &Expr,
    texts: &RangeStrings,
    inner: &Vec<u32>,
) -> (r: Option<RangeLoopLint>)
    ensures
        range_loop_view(r) == range_loop_report(*pat, var, *start, end, closed, *body, texts.texts(), inner@),
{
    let ident = match pat {
        Pat::Binding(_, ident, _) => ident,
        _ => {
            return None;
        },
    };
    let mut scanner = IndexScanner::new();
    scanner.scan_expr(body, var);
    if scanner.names.len() != 1 {
        return None;
    }
    let indexed = &scanner.names[0];
    proof {
        assert(texts_of(scanner.names@)[0] == indexed@);
    }
    if let Some(d) = scanner.defs[0] {
        if contains_id(inner, d) {
            return None;
        }
    }
    if contains_text(&scanner.referenced, indexed.as_str()) {
        return None;
    }
    let starts_at_zero = is_integer_literal(start, 0);
    let mut skip = String::new();
    if !starts_at_zero {
        skip.append(".skip(");
        skip.append(texts.start.as_str());
        skip.append(")");
    }
    let mut take = String::new();
    let mut take_empty = true;
    match end {
        Some(e) => {
            if !is_len_call(e, indexed.as_str()) {
                take.append(".take(");
                if closed {
                    take.append(texts.end_plus_one.as_str());
                } else {
                    take.append(texts.end.as_str());
                }
                take.append(")");
                take_empty = false;
            }
        },
        None => {},
    }
    proof {
        reveal_strlit(".take(");
        assert(take_empty == (take@.len() == 0));
    }
    if scanner.nonindex {
        let mut message = String::from_str("the loop variable `");
        message.append(ident.as_str());
        message.append("` is used to index `");
        message.append(indexed.as_str());
        message.append("`");
        let mut pat_sugg = String::from_str("(");
        pat_sugg.append(ident.as_str());
        pat_sugg.append(", <item>)");
        let mut arg_sugg = indexed.clone();
        arg_sugg.append(".iter().enumerate()");
        arg_sugg.append(take.as_str());
        arg_sugg.append(skip.as_str());
        Some(RangeLoopLint { message, pat_sugg, arg_sugg })
    } else {
        let mut message = String::from_str("the loop variable `");
        message.append(ident.as_str());
        message.append("` is only used to index `");
        message.append(indexed.as_str());
        message.append("`.");
        let repl = if starts_at_zero && take_empty {
            let mut r = String::from_str("&");
            r.append(indexed.as_str());
            r
        } else {
            let mut r = indexed.clone();
            r.append(".iter()");
            r.append(take.as_str());
            r.append(skip.as_str());
            r
        };
        Some(RangeLoopLint { message, pat_sugg: String::from_str("<item>"), arg_sugg: repl })
    }
}

/// A loop over a range of two constant unsigned integers of one type is
/// reported reversed exactly when its start is above its end, empty exactly
/// when it is half-open with equal bounds, and not at all otherwise.
pub proof fn law_reverse_range_unsigned(r: ForRange, t: UintTy, x: u128, y: u128)
    requires
        r.start matches Some(s) && s.value == Some(Integral::Uint(t, x)),
        r.end matches Some(e) && e.value == Some(Integral::Uint(t, y)),
    ensures
        (reverse_range_report(r) matches Some(Some(_))) <==> x > y,
        (reverse_range_report(r) == Some(None::<Seq<char>>)) <==> (x == y && !r.closed),
        (reverse_range_report(r) == None::<Option<Seq<char>>>) <==> (x < y || (x == y && r.closed)),
{
}

/// A loop over a range of two constant signed integers of one type is
/// reported as for unsigned ones.
pub proof fn law_reverse_range_signed(r: ForRange, t: IntTy, x: i128, y: i128)
    requires
        r.start matches Some(s) && s.value == Some(Integral::Int(t, x)),
        r.end matches Some(e) && e.value == Some(Integral::Int(t, y)),
    ensures
        (reverse_range_report(r) matches Some(Some(_))) <==> x > y,
        (reverse_range_report(r) == Some(None::<Seq<char>>)) <==> (x == y && !r.closed),
        (reverse_range_report(r) == None::<Option<Seq<char>>>) <==> (x < y || (x == y && r.closed)),
{
}

/// Constant bounds of different integer types are never compared, so such a
/// range is not reported.
pub proof fn law_reverse_range_mixed_types(r: ForRange, sv: Integral, ev: Integral)
    requires
        r.start matches Some(s) && s.value == Some(sv),
        r.end matches Some(e) && e.value == Some(ev),
        !(sv matches Integral::Uint(t, _) && ev matches Integral::Uint(u, _) && t == u),
        !(sv matches Integral::Int(t, _) && ev matches Integral::Int(u, _) && t == u),
    ensures
        reverse_range_report(r) == None::<Option<Seq<char>>>,
{
}

} // verus!
