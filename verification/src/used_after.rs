//! Whether the iterator of a `while let Some(..) = it.next()` loop is used
//! after the loop, in the block that declares it: then the loop cannot be
//! a `for` loop, which would take the iterator by value.
use vstd::prelude::*;
use crate::counter_loop::{local_def, var_def_id};
use crate::hir::{Arm, Block, Decl, Expr, ExprKind, Pat, Stmt};

verus! {

/// What scanning the block for uses after the loop found so far: whether
/// the scan is past the iterator expression of the loop, and whether it
/// met the variable since.
pub struct AfterState {
    pub past: bool,
    pub used: bool,
}

/// Scans `e` for the variable `def` after the expression `target`: `e`
/// itself first, then what it holds.
pub open spec fn after_expr(e: Expr, def: u32, target: u32, s: AfterState) -> AfterState
    decreases e, 1nat,
{
    let s1 = if s.past {
        if local_def(e) == Some(def) {
            AfterState { used: true, ..s }
        } else {
            s
        }
    } else if e.id == target {
        AfterState { past: true, ..s }
    } else {
        s
    };
    after_children(e, def, target, s1)
}

/// Scans an optional expression.
pub open spec fn after_opt(o: Option<Box<Expr>>, def: u32, target: u32, s: AfterState) -> AfterState
    decreases o, 2nat,
{
    match o {
        Some(x) => after_expr(*x, def, target, s),
        None => s,
    }
}

/// Scans what `e` holds, in the order the compiler's walk visits it.
pub open spec fn after_children(e: Expr, def: u32, target: u32, s: AfterState) -> AfterState
    decreases e, 0nat,
{
    match e.node {
        ExprKind::Box(x) => after_expr(*x, def, target, s),
        ExprKind::Array(es) => after_exprs(es@, 0, def, target, s),
        ExprKind::Call(f, es) => after_exprs(es@, 0, def, target, after_expr(*f, def, target, s)),
        ExprKind::MethodCall(_, es) => after_exprs(es@, 0, def, target, s),
        ExprKind::Tup(es) => after_exprs(es@, 0, def, target, s),
        ExprKind::Binary(_, l, r) => after_expr(*r, def, target, after_expr(*l, def, target, s)),
        ExprKind::Unary(_, x) => after_expr(*x, def, target, s),
        ExprKind::Cast(x, _) => after_expr(*x, def, target, s),
        ExprKind::Type(x, _) => after_expr(*x, def, target, s),
        ExprKind::If(c, t, o) => after_opt(o, def, target, after_expr(*t, def, target, after_expr(*c, def, target, s))),
        ExprKind::While(c, b) => after_block(b, def, target, after_expr(*c, def, target, s)),
        ExprKind::Loop(b, _) => after_block(b, def, target, s),
        ExprKind::Match(x, arms, _) => after_arms(arms@, 0, def, target, after_expr(*x, def, target, s)),
        ExprKind::Yield(x) => after_expr(*x, def, target, s),
        ExprKind::Block(b) => after_block(b, def, target, s),
        ExprKind::Assign(l, r) => after_expr(*l, def, target, after_expr(*r, def, target, s)),
        ExprKind::AssignOp(_, l, r) => after_expr(*l, def, target, after_expr(*r, def, target, s)),
        ExprKind::Field(x, _) => after_expr(*x, def, target, s),
        ExprKind::Index(a, b) => after_expr(*b, def, target, after_expr(*a, def, target, s)),
        ExprKind::AddrOf(_, x) => after_expr(*x, def, target, s),
        ExprKind::Break(_, o) => after_opt(o, def, target, s),
        ExprKind::Ret(o) => after_opt(o, def, target, s),
        ExprKind::Struct(_, fields, o) => after_opt(o, def, target, after_exprs(fields@, 0, def, target, s)),
        ExprKind::Repeat(x) => after_expr(*x, def, target, s),
        _ => s,
    }
}

/// Scans the expressions of `es` from `i` on.
pub open spec fn after_exprs(es: Seq<Expr>, i: nat, def: u32, target: u32, s: AfterState) -> AfterState
    decreases es, es.len() - i,
{
    if i >= es.len() {
        s
    } else {
        after_exprs(es, i + 1, def, target, after_expr(es[i as int], def, target, s))
    }
}

/// Scans an optional pattern.
pub open spec fn after_opt_pat(o: Option<Box<Pat>>, def: u32, target: u32, s: AfterState) -> AfterState
    decreases o, 2nat,
{
    match o {
        Some(p) => after_pat(*p, def, target, s),
        None => s,
    }
}

/// Scans the expressions in pattern `p`.
pub open spec fn after_pat(p: Pat, def: u32, target: u32, s: AfterState) -> AfterState
    decreases p, 1nat,
{
    match p {
        Pat::Binding(_, _, sub) => after_opt_pat(sub, def, target, s),
        Pat::Struct(_, ps, _) => after_pats(ps@, 0, def, target, s),
        Pat::TupleStruct(_, ps, _) => after_pats(ps@, 0, def, target, s),
        Pat::Tuple(ps, _) => after_pats(ps@, 0, def, target, s),
        Pat::Box(x) => after_pat(*x, def, target, s),
        Pat::Ref(x, _) => after_pat(*x, def, target, s),
        Pat::Lit(e) => after_expr(*e, def, target, s),
        Pat::Range(a, b, _) => after_expr(*b, def, target, after_expr(*a, def, target, s)),
        Pat::Slice(a, m, b) => after_pats(
            b@,
            0,
            def,
            target,
            after_opt_pat(m, def, target, after_pats(a@, 0, def, target, s)),
        ),
        _ => s,
    }
}

/// Scans the patterns of `ps` from `i` on.
pub open spec fn after_pats(ps: Seq<Pat>, i: nat, def: u32, target: u32, s: AfterState) -> AfterState
    decreases ps, ps.len() - i,
{
    if i >= ps.len() {
        s
    } else {
        after_pats(ps, i + 1, def, target, after_pat(ps[i as int], def, target, s))
    }
}

/// Scans the arms of `arms` from `i` on: patterns, guard, body.
pub open spec fn after_arms(arms: Seq<Arm>, i: nat, def: u32, target: u32, s: AfterState) -> AfterState
    decreases arms, arms.len() - i,
{
    if i >= arms.len() {
        s
    } else {
        let s1 = after_pats(arms[i as int].pats@, 0, def, target, s);
        let s2 = after_opt(arms[i as int].guard, def, target, s1);
        after_arms(arms, i + 1, def, target, after_expr(*arms[i as int].body, def, target, s2))
    }
}

/// Scans a statement; a binding's initializer comes before its pattern.
pub open spec fn after_stmt(st: Stmt, def: u32, target: u32, s: AfterState) -> AfterState
    decreases st, 1nat,
{
    match st {
        Stmt::Decl(Decl::Local(l)) => after_pat(l.pat, def, target, after_opt(l.init, def, target, s)),
        Stmt::Decl(Decl::Item(_)) => s,
        Stmt::Expr(e) => after_expr(*e, def, target, s),
        Stmt::Semi(e) => after_expr(*e, def, target, s),
    }
}

/// Scans the statements of `ss` from `i` on.
pub open spec fn after_stmts(ss: Seq<Stmt>, i: nat, def: u32, target: u32, s: AfterState) -> AfterState
    decreases ss, ss.len() - i,
{
    if i >= ss.len() {
        s
    } else {
        after_stmts(ss, i + 1, def, target, after_stmt(ss[i as int], def, target, s))
    }
}

/// Scans a block: its statements, then its final expression.
pub open spec fn after_block(b: Block, def: u32, target: u32, s: AfterState) -> AfterState
    decreases b, 1nat,
{
    after_opt(b.expr, def, target, after_stmts(b.stmts@, 0, def, target, s))
}

/// A scan of a block for the variable `def_id` after the expression
/// `iter_expr_id`.
pub struct VarUsedAfterLoopVisitor {
    pub def_id: u32,
    pub iter_expr_id: u32,
    pub past_while_let: bool,
    pub var_used_after_while_let: bool,
}

impl VarUsedAfterLoopVisitor {
    /// What the scan found so far.
    pub open spec fn found(&self) -> AfterState {
        AfterState { past: self.past_while_let, used: self.var_used_after_while_let }
    }

    /// Scans `e`.
    pub fn visit_expr(&mut self, e: &Expr)
        ensures
            final(self).def_id == old(self).def_id,
            final(self).iter_expr_id == old(self).iter_expr_id,
            final(self).found() == after_expr(*e, old(self).def_id, old(self).iter_expr_id, old(self).found()),
        decreases e, 1nat,
    {
        if self.past_while_let {
            if var_def_id(e) == Some(self.def_id) {
                self.var_used_after_while_let = true;
            }
        } else if self.iter_expr_id == e.id {
            self.past_while_let = true;
        }
        match &e.node {
            ExprKind::Box(_) | ExprKind::Array(_) | ExprKind::Call(_, _) | ExprKind::MethodCall(_, _)
            | ExprKind::Tup(_) | ExprKind::Binary(_, _, _) | ExprKind::Unary(_, _) | ExprKind::Cast(_, _)
            | ExprKind::Type(_, _) | ExprKind::If(_, _, _) | ExprKind::While(_, _) | ExprKind::Loop(_, _)
            | ExprKind::Match(_, _, _) => self.visit_children(e),
            _ => self.visit_other_children(e),
        }
    }

    /// Scans an optional expression.
    fn visit_opt(&mut self, o: &Option<Box<Expr>>)
        ensures
            final(self).def_id == old(self).def_id,
            final(self).iter_expr_id == old(self).iter_expr_id,
            final(self).found() == after_opt(*o, old(self).def_id, old(self).iter_expr_id, old(self).found()),
        decreases o, 2nat,
    {
        match o {
            Some(x) => self.visit_expr(x),
            None => {},
        }
    }

    /// Scans what `e` holds: an expression that holds expressions and
    /// blocks in their own right.
    fn visit_children(&mut self, e: &Expr)
        requires
            e.node is Box || e.node is Array || e.node is Call || e.node is MethodCall || e.node is Tup
                || e.node is Binary || e.node is Unary || e.node is Cast || e.node is Type || e.node is If
                || e.node is While || e.node is Loop || e.node is Match,
        ensures
            final(self).def_id == old(self).def_id,
            final(self).iter_expr_id == old(self).iter_expr_id,
            final(self).found() == after_children(*e, old(self).def_id, old(self).iter_expr_id, old(self).found()),
        decreases e, 0nat,
    {
        match &e.node {
            ExprKind::Box(x) => self.visit_expr(x),
            ExprKind::Array(es) => self.visit_exprs(es, 0),
            ExprKind::Call(f, es) => {
                self.visit_expr(f);
                self.visit_exprs(es, 0);
            },
            ExprKind::MethodCall(_, es) => self.visit_exprs(es, 0),
            ExprKind::Tup(es) => self.visit_exprs(es, 0),
            ExprKind::Binary(_, l, r) => {
                self.visit_expr(l);
                self.visit_expr(r);
            },
            ExprKind::Unary(_, x) => self.visit_expr(x),
            ExprKind::Cast(x, _) => self.visit_expr(x),
            ExprKind::Type(x, _) => self.visit_expr(x),
            ExprKind::If(c, t, o) => {
                self.visit_expr(c);
                self.visit_expr(t);
                self.visit_opt(o);
            },
            ExprKind::While(c, b) => {
                self.visit_expr(c);
                self.visit_block(b);
            },
            ExprKind::Loop(b, _) => self.visit_block(b),
            ExprKind::Match(x, arms, _) => {
                self.visit_expr(x);
                self.visit_arms(arms, 0);
            },
            _ => {},
        }
    }

    /// Scans what `e` holds: the other kinds of expression.
    fn visit_other_children(&mut self, e: &Expr)
        requires
            !(e.node is Box || e.node is Array || e.node is Call || e.node is MethodCall || e.node is Tup
                || e.node is Binary || e.node is Unary || e.node is Cast || e.node is Type || e.node is If
                || e.node is While || e.node is Loop || e.node is Match),
        ensures
            final(self).def_id == old(self).def_id,
            final(self).iter_expr_id == old(self).iter_expr_id,
            final(self).found() == after_children(*e, old(self).def_id, old(self).iter_expr_id, old(self).found()),
        decreases e, 0nat,
    {
        match &e.node {
            ExprKind::Yield(x) => self.visit_expr(x),
            ExprKind::Block(b) => self.visit_block(b),
            ExprKind::Assign(l, r) => {
                self.visit_expr(r);
                self.visit_expr(l);
            },
            ExprKind::AssignOp(_, l, r) => {
                self.visit_expr(r);
                self.visit_expr(l);
            },
            ExprKind::Field(x, _) => self.visit_expr(x),
            ExprKind::Index(a, b) => {
                self.visit_expr(a);
                self.visit_expr(b);
            },
            ExprKind::AddrOf(_, x) => self.visit_expr(x),
            ExprKind::Break(_, o) => self.visit_opt(o),
            ExprKind::Ret(o) => self.visit_opt(o),
            ExprKind::Struct(_, fields, o) => {
                self.visit_exprs(fields, 0);
                self.visit_opt(o);
            },
            ExprKind::Repeat(x) => self.visit_expr(x),
            _ => {},
        }
    }

    /// Scans the expressions of `es` from `i` on.
    fn visit_exprs(&mut self, es: &Vec<Expr>, i: usize)
        requires
            i <= es@.len(),
        ensures
            final(self).def_id == old(self).def_id,
            final(self).iter_expr_id == old(self).iter_expr_id,
            final(self).found() == after_exprs(es@, i as nat, old(self).def_id, old(self).iter_expr_id, old(self).found()),
        decreases es@, es@.len() - i,
    {
        if i < es.len() {
            self.visit_expr(&es[i]);
            self.visit_exprs(es, i + 1);
        }
    }

    /// Scans an optional pattern.
    fn visit_opt_pat(&mut self, o: &Option<Box<Pat>>)
        ensures
            final(self).def_id == old(self).def_id,
            final(self).iter_expr_id == old(self).iter_expr_id,
            final(self).found() == after_opt_pat(*o, old(self).def_id, old(self).iter_expr_id, old(self).found()),
        decreases o, 2nat,
    {
        match o {
            Some(p) => self.visit_pat(p),
            None => {},
        }
    }

    /// Scans the expressions in pattern `p`.
    fn visit_pat(&mut self, p: &Pat)
        ensures
            final(self).def_id == old(self).def_id,
            final(self).iter_expr_id == old(self).iter_expr_id,
            final(self).found() == after_pat(*p, old(self).def_id, old(self).iter_expr_id, old(self).found()),
        decreases p, 1nat,
    {
        match p {
            Pat::Binding(_, _, sub) => self.visit_opt_pat(sub),
            Pat::Struct(_, ps, _) => self.visit_pats(ps, 0),
            Pat::TupleStruct(_, ps, _) => self.visit_pats(ps, 0),
            Pat::Tuple(ps, _) => self.visit_pats(ps, 0),
            Pat::Box(x) => self.visit_pat(x),
            Pat::Ref(x, _) => self.visit_pat(x),
            Pat::Lit(e) => self.visit_expr(e),
            Pat::Range(a, b, _) => {
                self.visit_expr(a);
                self.visit_expr(b);
            },
            Pat::Slice(a, m, b) => {
                self.visit_pats(a, 0);
                self.visit_opt_pat(m);
                self.visit_pats(b, 0);
            },
            _ => {},
        }
    }

    /// Scans the patterns of `ps` from `i` on.
    fn visit_pats(&mut self, ps: &Vec<Pat>, i: usize)
        requires
            i <= ps@.len(),
        ensures
            final(self).def_id == old(self).def_id,
            final(self).iter_expr_id == old(self).iter_expr_id,
            final(self).found() == after_pats(ps@, i as nat, old(self).def_id, old(self).iter_expr_id, old(self).found()),
        decreases ps@, ps@.len() - i,
    {
        if i < ps.len() {
            self.visit_pat(&ps[i]);
            self.visit_pats(ps, i + 1);
        }
    }

    /// Scans the arms of `arms` from `i` on.
    fn visit_arms(&mut self, arms: &Vec<Arm>, i: usize)
        requires
            i <= arms@.len(),
        ensures
            final(self).def_id == old(self).def_id,
            final(self).iter_expr_id == old(self).iter_expr_id,
            final(self).found() == after_arms(arms@, i as nat, old(self).def_id, old(self).iter_expr_id, old(self).found()),
        decreases arms@, arms@.len() - i,
    {
        if i < arms.len() {
            self.visit_pats(&arms[i].pats, 0);
            self.visit_opt(&arms[i].guard);
            self.visit_expr(&arms[i].body);
            self.visit_arms(arms, i + 1);
        }
    }

    /// Scans a statement.
    fn visit_stmt(&mut self, st: &Stmt)
        ensures
            final(self).def_id == old(self).def_id,
            final(self).iter_expr_id == old(self).iter_expr_id,
            final(self).found() == after_stmt(*st, old(self).def_id, old(self).iter_expr_id, old(self).found()),
        decreases st, 1nat,
    {
        match st {
            Stmt::Decl(Decl::Local(l)) => {
                self.visit_opt(&l.init);
                self.visit_pat(&l.pat);
            },
            Stmt::Decl(Decl::Item(_)) => {},
            Stmt::Expr(e) => self.visit_expr(e),
            Stmt::Semi(e) => self.visit_expr(e),
        }
    }

    /// Scans the statements of `ss` from `i` on.
    fn visit_stmts(&mut self, ss: &Vec<Stmt>, i: usize)
        requires
            i <= ss@.len(),
        ensures
            final(self).def_id == old(self).def_id,
            final(self).iter_expr_id == old(self).iter_expr_id,
            final(self).found() == after_stmts(ss@, i as nat, old(self).def_id, old(self).iter_expr_id, old(self).found()),
        decreases ss@, ss@.len() - i,
    {
        if i < ss.len() {
            self.visit_stmt(&ss[i]);
            self.visit_stmts(ss, i + 1);
        }
    }

    /// Scans a block.
    pub fn visit_block(&mut self, b: &Block)
        ensures
            final(self).def_id == old(self).def_id,
            final(self).iter_expr_id == old(self).iter_expr_id,
            final(self).found() == after_block(*b, old(self).def_id, old(self).iter_expr_id, old(self).found()),
        decreases b, 1nat,
    {
        self.visit_stmts(&b.stmts, 0);
        self.visit_opt(&b.expr);
    }
}

/// Whether the local variable that `iter_expr` names is used after
/// `iter_expr` in `enclosing`, the block that declares the variable.
pub open spec fn used_after_while_let(iter_expr: Expr, enclosing: Option<Block>) -> bool {
    match local_def(iter_expr) {
        Some(d) => match enclosing {
            Some(b) => after_block(b, d, iter_expr.id, AfterState { past: false, used: false }).used,
            None => false,
        },
        None => false,
    }
}

/// Whether the iterator `iter_expr` of a `while let` loop, a local
/// variable, is used after the loop in `enclosing`, the block that declares
/// it, where the compiler's scopes give one.
pub fn is_iterator_used_after_while_let(iter_expr: &Expr, enclosing: Option<&Block>) -> (r: bool)
    ensures
        r == used_after_while_let(*iter_expr, match enclosing {
            Some(b) => Some(*b),
            None => None,
        }),
{
    let def_id = match var_def_id(iter_expr) {
        Some(d) => d,
        None => {
            return false;
        },
    };
    let mut visitor = VarUsedAfterLoopVisitor {
        def_id,
        iter_expr_id: iter_expr.id,
        past_while_let: false,
        var_used_after_while_let: false,
    };
    match enclosing {
        Some(b) => visitor.visit_block(b),
        None => {},
    }
    visitor.var_used_after_while_let
}

} // verus!
