//! Whether a `while let` loop over an iterator sits inside another loop
//! that the iterator outlives: then it cannot become a `for` loop.
use vstd::prelude::*;
use crate::hir::{Arm, Block, Decl, Expr, ExprKind, Pat, Stmt};
use crate::loops::{is_var, match_var, path_name, single_name};
use vstd::string::*;
use crate::cargo_clippy::same_text;

verus! {

broadcast use vstd::string::group_string_axioms;

/// What a scan of a block around the loop knows of the iterator.
#[derive(Copy, Clone, Debug, PartialEq, Eq, Structural)]
pub enum Nesting {
    /// Nothing yet.
    Unknown,
    /// The iterator is bound or assigned in the block, before the loop.
    RuledOut,
    /// The scan reached the loop; the blocks further out decide.
    LookFurther,
}

/// Scans `e` for the iterator `it` until the expression `target`: an
/// assignment to the iterator rules nesting out.
pub open spec fn nest_expr(e: Expr, it: Seq<char>, target: Option<u32>, s: Nesting) -> Nesting
    decreases e, 1nat,
{
    if s != Nesting::Unknown {
        s
    } else if target == Some(e.id) {
        Nesting::LookFurther
    } else {
        match e.node {
            ExprKind::Assign(l, _) => if is_var(*l, it) {
                Nesting::RuledOut
            } else {
                s
            },
            ExprKind::AssignOp(_, l, _) => if is_var(*l, it) {
                Nesting::RuledOut
            } else {
                s
            },
            _ => nest_children(e, it, target, s),
        }
    }
}

/// Scans an optional expression.
pub open spec fn nest_opt(o: Option<Box<Expr>>, it: Seq<char>, target: Option<u32>, s: Nesting) -> Nesting
    decreases o, 2nat,
{
    match o {
        Some(x) => nest_expr(*x, it, target, s),
        None => s,
    }
}

/// Scans what `e` holds, in the order the compiler's walk visits it.
pub open spec fn nest_children(e: Expr, it: Seq<char>, target: Option<u32>, s: Nesting) -> Nesting
    decreases e, 0nat,
{
    match e.node {
        ExprKind::Box(x) => nest_expr(*x, it, target, s),
        ExprKind::Array(es) => nest_exprs(es@, 0, it, target, s),
        ExprKind::Call(f, es) => nest_exprs(es@, 0, it, target, nest_expr(*f, it, target, s)),
        ExprKind::MethodCall(_, es) => nest_exprs(es@, 0, it, target, s),
        ExprKind::Tup(es) => nest_exprs(es@, 0, it, target, s),
        ExprKind::Binary(_, l, r) => nest_expr(*r, it, target, nest_expr(*l, it, target, s)),
        ExprKind::Unary(_, x) => nest_expr(*x, it, target, s),
        ExprKind::Cast(x, _) => nest_expr(*x, it, target, s),
        ExprKind::Type(x, _) => nest_expr(*x, it, target, s),
        ExprKind::If(c, t, o) => nest_opt(o, it, target, nest_expr(*t, it, target, nest_expr(*c, it, target, s))),
        ExprKind::While(c, b) => nest_block(b, it, target, None, nest_expr(*c, it, target, s)),
        ExprKind::Loop(b, _) => nest_block(b, it, target, None, s),
        ExprKind::Match(x, arms, _) => nest_arms(arms@, 0, it, target, nest_expr(*x, it, target, s)),
        ExprKind::Yield(x) => nest_expr(*x, it, target, s),
        ExprKind::Block(b) => nest_block(b, it, target, None, s),
        ExprKind::Field(x, _) => nest_expr(*x, it, target, s),
        ExprKind::Index(a, b) => nest_expr(*b, it, target, nest_expr(*a, it, target, s)),
        ExprKind::AddrOf(_, x) => nest_expr(*x, it, target, s),
        ExprKind::Break(_, o) => nest_opt(o, it, target, s),
        ExprKind::Ret(o) => nest_opt(o, it, target, s),
        ExprKind::Struct(_, fields, o) => nest_opt(o, it, target, nest_exprs(fields@, 0, it, target, s)),
        ExprKind::Repeat(x) => nest_expr(*x, it, target, s),
        _ => s,
    }
}

/// Scans the expressions of `es` from `i` on.
pub open spec fn nest_exprs(es: Seq<Expr>, i: nat, it: Seq<char>, target: Option<u32>, s: Nesting) -> Nesting
    decreases es, es.len() - i,
{
    if i >= es.len() {
        s
    } else {
        nest_exprs(es, i + 1, it, target, nest_expr(es[i as int], it, target, s))
    }
}

/// Scans an optional pattern.
pub open spec fn nest_opt_pat(o: Option<Box<Pat>>, it: Seq<char>, target: Option<u32>, s: Nesting) -> Nesting
    decreases o, 2nat,
{
    match o {
        Some(p) => nest_pat(*p, it, target, s),
        None => s,
    }
}

/// Scans pattern `p`: a binding of the iterator's name rules nesting out.
pub open spec fn nest_pat(p: Pat, it: Seq<char>, target: Option<u32>, s: Nesting) -> Nesting
    decreases p, 1nat,
{
    if s != Nesting::Unknown {
        s
    } else if p matches Pat::Binding(_, name, _) && name@ == it {
        Nesting::RuledOut
    } else {
        nest_pat_children(p, it, target, s)
    }
}

/// Scans what pattern `p` holds.
pub open spec fn nest_pat_children(p: Pat, it: Seq<char>, target: Option<u32>, s: Nesting) -> Nesting
    decreases p, 0nat,
{
    match p {
        Pat::Binding(_, _, sub) => nest_opt_pat(sub, it, target, s),
        Pat::Struct(_, ps, _) => nest_pats(ps@, 0, it, target, s),
        Pat::TupleStruct(_, ps, _) => nest_pats(ps@, 0, it, target, s),
        Pat::Tuple(ps, _) => nest_pats(ps@, 0, it, target, s),
        Pat::Box(x) => nest_pat(*x, it, target, s),
        Pat::Ref(x, _) => nest_pat(*x, it, target, s),
        Pat::Lit(e) => nest_expr(*e, it, target, s),
        Pat::Range(a, b, _) => nest_expr(*b, it, target, nest_expr(*a, it, target, s)),
        Pat::Slice(a, m, b) => nest_pats(b@, 0, it, target, nest_opt_pat(m, it, target, nest_pats(a@, 0, it, target, s))),
        _ => s,
    }
}

/// Scans the patterns of `ps` from `i` on.
pub open spec fn nest_pats(ps: Seq<Pat>, i: nat, it: Seq<char>, target: Option<u32>, s: Nesting) -> Nesting
    decreases ps, ps.len() - i,
{
    if i >= ps.len() {
        s
    } else {
        nest_pats(ps, i + 1, it, target, nest_pat(ps[i as int], it, target, s))
    }
}

/// Scans the arms of `arms` from `i` on: patterns, guard, body.
pub open spec fn nest_arms(arms: Seq<Arm>, i: nat, it: Seq<char>, target: Option<u32>, s: Nesting) -> Nesting
    decreases arms, arms.len() - i,
{
    if i >= arms.len() {
        s
    } else {
        let s1 = nest_pats(arms[i as int].pats@, 0, it, target, s);
        let s2 = nest_opt(arms[i as int].guard, it, target, s1);
        nest_arms(arms, i + 1, it, target, nest_expr(*arms[i as int].body, it, target, s2))
    }
}

/// Scans a statement below the top of the block: only while nothing is
/// known yet; a binding's initializer comes before its pattern.
pub open spec fn nest_stmt(st: Stmt, it: Seq<char>, target: Option<u32>, s: Nesting) -> Nesting
    decreases st, 1nat,
{
    if s != Nesting::Unknown {
        s
    } else {
        match st {
            Stmt::Decl(Decl::Local(l)) => nest_pat(l.pat, it, target, nest_opt(l.init, it, target, s)),
            Stmt::Decl(Decl::Item(_)) => s,
            Stmt::Expr(e) => nest_expr(*e, it, target, s),
            Stmt::Semi(e) => nest_expr(*e, it, target, s),
        }
    }
}

/// Scans the statements of `ss` from `i` on; the statement at position
/// `pos`, where there is one, holds the node the scan looks for.
pub open spec fn nest_stmts(ss: Seq<Stmt>, i: nat, it: Seq<char>, target: Option<u32>, pos: Option<usize>, s: Nesting) -> Nesting
    decreases ss, ss.len() - i,
{
    if i >= ss.len() {
        s
    } else {
        let s1 = if pos matches Some(k) && k == i {
            Nesting::LookFurther
        } else {
            nest_stmt(ss[i as int], it, target, s)
        };
        nest_stmts(ss, i + 1, it, target, pos, s1)
    }
}

/// Scans a block: its statements, then its final expression.
pub open spec fn nest_block(b: Block, it: Seq<char>, target: Option<u32>, pos: Option<usize>, s: Nesting) -> Nesting
    decreases b, 1nat,
{
    nest_opt(b.expr, it, target, nest_stmts(b.stmts@, 0, it, target, pos, s))
}

/// A scan of a block around a loop for the iterator `iterator`, until the
/// expression `target` (where the block's statement that holds the loop is
/// not given by its position).
pub struct LoopNestVisitor {
    pub target: Option<u32>,
    pub iterator: String,
    pub nesting: Nesting,
}

impl LoopNestVisitor {
    /// Scans `e`.
    pub fn visit_expr(&mut self, e: &Expr)
        ensures
            final(self).target == old(self).target,
            final(self).iterator@ == old(self).iterator@,
            final(self).nesting == nest_expr(*e, old(self).iterator@, old(self).target, old(self).nesting),
        decreases e, 1nat,
    {
        if self.nesting != Nesting::Unknown {
            return;
        }
        if self.target == Some(e.id) {
            self.nesting = Nesting::LookFurther;
            return;
        }
        match &e.node {
            ExprKind::Assign(l, _) => {
                if match_var(l, self.iterator.as_str()) {
                    self.nesting = Nesting::RuledOut;
                }
            },
            ExprKind::AssignOp(_, l, _) => {
                if match_var(l, self.iterator.as_str()) {
                    self.nesting = Nesting::RuledOut;
                }
            },
            ExprKind::Box(_) | ExprKind::Array(_) | ExprKind::Call(_, _) | ExprKind::MethodCall(_, _)
            | ExprKind::Tup(_) | ExprKind::Binary(_, _, _) | ExprKind::Unary(_, _) | ExprKind::Cast(_, _)
            | ExprKind::Type(_, _) | ExprKind::If(_, _, _) | ExprKind::While(_, _) | ExprKind::Loop(_, _)
            | ExprKind::Match(_, _, _) => self.visit_children(e),
            _ => self.visit_other_children(e),
        }
    }

    /// Scans an optional expression.
    fn visit_opt(&mut self, o: &Option<Box<Expr>>)
        ensures
            final(self).target == old(self).target,
            final(self).iterator@ == old(self).iterator@,
            final(self).nesting == nest_opt(*o, old(self).iterator@, old(self).target, old(self).nesting),
        decreases o, 2nat,
    {
        match o {
            Some(x) => self.visit_expr(x),
            None => {},
        }
    }

    /// Scans what `e` holds: an expression that holds expressions and
    /// blocks in their own right.
    fn visit_children(&mut self, e: &Expr)
        requires
            e.node is Box || e.node is Array || e.node is Call || e.node is MethodCall || e.node is Tup
                || e.node is Binary || e.node is Unary || e.node is Cast || e.node is Type || e.node is If
                || e.node is While || e.node is Loop || e.node is Match,
        ensures
            final(self).target == old(self).target,
            final(self).iterator@ == old(self).iterator@,
            final(self).nesting == nest_children(*e, old(self).iterator@, old(self).target, old(self).nesting),
        decreases e, 0nat,
    {
        match &e.node {
            ExprKind::Box(x) => self.visit_expr(x),
            ExprKind::Array(es) => self.visit_exprs(es, 0),
            ExprKind::Call(f, es) => {
                self.visit_expr(f);
                self.visit_exprs(es, 0);
            },
            ExprKind::MethodCall(_, es) => self.visit_exprs(es, 0),
            ExprKind::Tup(es) => self.visit_exprs(es, 0),
            ExprKind::Binary(_, l, r) => {
                self.visit_expr(l);
                self.visit_expr(r);
            },
            ExprKind::Unary(_, x) => self.visit_expr(x),
            ExprKind::Cast(x, _) => self.visit_expr(x),
            ExprKind::Type(x, _) => self.visit_expr(x),
            ExprKind::If(c, t, o) => {
                self.visit_expr(c);
                self.visit_expr(t);
                self.visit_opt(o);
            },
            ExprKind::While(c, b) => {
                self.visit_expr(c);
                self.visit_stmts_and_tail(b, None);
            },
            ExprKind::Loop(b, _) => self.visit_stmts_and_tail(b, None),
            ExprKind::Match(x, arms, _) => {
                self.visit_expr(x);
                self.visit_arms(arms, 0);
            },
            _ => {},
        }
    }

    /// Scans what `e` holds: the other kinds of expression.
    fn visit_other_children(&mut self, e: &Expr)
        requires
            !(e.node is Box || e.node is Array || e.node is Call || e.node is MethodCall || e.node is Tup
                || e.node is Binary || e.node is Unary || e.node is Cast || e.node is Type || e.node is If
                || e.node is While || e.node is Loop || e.node is Match || e.node is Assign || e.node is AssignOp),
        ensures
            final(self).target == old(self).target,
            final(self).iterator@ == old(self).iterator@,
            final(self).nesting == nest_children(*e, old(self).iterator@, old(self).target, old(self).nesting),
        decreases e, 0nat,
    {
        match &e.node {
            ExprKind::Yield(x) => self.visit_expr(x),
            ExprKind::Block(b) => self.visit_stmts_and_tail(b, None),
            ExprKind::Field(x, _) => self.visit_expr(x),
            ExprKind::Index(a, b) => {
                self.visit_expr(a);
                self.visit_expr(b);
            },
            ExprKind::AddrOf(_, x) => self.visit_expr(x),
            ExprKind::Break(_, o) => self.visit_opt(o),
            ExprKind::Ret(o) => self.visit_opt(o),
            ExprKind::Struct(_, fields, o) => {
                self.visit_exprs(fields, 0);
                self.visit_opt(o);
            },
            ExprKind::Repeat(x) => self.visit_expr(x),
            _ => {},
        }
    }

    /// Scans the expressions of `es` from `i` on.
    fn visit_exprs(&mut self, es: &Vec<Expr>, i: usize)
        requires
            i <= es@.len(),
        ensures
            final(self).target == old(self).target,
            final(self).iterator@ == old(self).iterator@,
            final(self).nesting == nest_exprs(es@, i as nat, old(self).iterator@, old(self).target, old(self).nesting),
        decreases es@, es@.len() - i,
    {
        if i < es.len() {
            self.visit_expr(&es[i]);
            self.visit_exprs(es, i + 1);
        }
    }

    /// Scans an optional pattern.
    fn visit_opt_pat(&mut self, o: &Option<Box<Pat>>)
        ensures
            final(self).target == old(self).target,
            final(self).iterator@ == old(self).iterator@,
            final(self).nesting == nest_opt_pat(*o, old(self).iterator@, old(self).target, old(self).nesting),
        decreases o, 2nat,
    {
        match o {
            Some(p) => self.visit_pat(p),
            None => {},
        }
    }

    /// Scans pattern `p`: a binding of the iterator's name rules nesting out.
    fn visit_pat(&mut self, p: &Pat)
        ensures
            final(self).target == old(self).target,
            final(self).iterator@ == old(self).iterator@,
            final(self).nesting == nest_pat(*p, old(self).iterator@, old(self).target, old(self).nesting),
        decreases p, 1nat,
    {
        if self.nesting != Nesting::Unknown {
            return;
        }
        if let Pat::Binding(_, name, _) = p {
            if same_text(name.as_str(), self.iterator.as_str()) {
                self.nesting = Nesting::RuledOut;
                return;
            }
        }
        self.visit_pat_children(p);
    }

    /// Scans what pattern `p` holds.
    fn visit_pat_children(&mut self, p: &Pat)
        ensures
            final(self).target == old(self).target,
            final(self).iterator@ == old(self).iterator@,
            final(self).nesting == nest_pat_children(*p, old(self).iterator@, old(self).target, old(self).nesting),
        decreases p, 0nat,
    {
        match p {
            Pat::Binding(_, _, sub) => self.visit_opt_pat(sub),
            Pat::Struct(_, ps, _) => self.visit_pats(ps, 0),
            Pat::TupleStruct(_, ps, _) => self.visit_pats(ps, 0),
            Pat::Tuple(ps, _) => self.visit_pats(ps, 0),
            Pat::Box(x) => self.visit_pat(x),
            Pat::Ref(x, _) => self.visit_pat(x),
            Pat::Lit(e) => self.visit_expr(e),
            Pat::Range(a, b, _) => {
                self.visit_expr(a);
                self.visit_expr(b);
            },
            Pat::Slice(a, m, b) => {
                self.visit_pats(a, 0);
                self.visit_opt_pat(m);
                self.visit_pats(b, 0);
            },
            _ => {},
        }
    }

    /// Scans the patterns of `ps` from `i` on.
    fn visit_pats(&mut self, ps: &Vec<Pat>, i: usize)
        requires
            i <= ps@.len(),
        ensures
            final(self).target == old(self).target,
            final(self).iterator@ == old(self).iterator@,
            final(self).nesting == nest_pats(ps@, i as nat, old(self).iterator@, old(self).target, old(self).nesting),
        decreases ps@, ps@.len() - i,
    {
        if i < ps.len() {
            self.visit_pat(&ps[i]);
            self.visit_pats(ps, i + 1);
        }
    }

    /// Scans the arms of `arms` from `i` on.
    fn visit_arms(&mut self, arms: &Vec<Arm>, i: usize)
        requires
            i <= arms@.len(),
        ensures
            final(self).target == old(self).target,
            final(self).iterator@ == old(self).iterator@,
            final(self).nesting == nest_arms(arms@, i as nat, old(self).iterator@, old(self).target, old(self).nesting),
        decreases arms@, arms@.len() - i,
    {
        if i < arms.len() {
            self.visit_pats(&arms[i].pats, 0);
            self.visit_opt(&arms[i].guard);
            self.visit_expr(&arms[i].body);
            self.visit_arms(arms, i + 1);
        }
    }

    /// Scans a statement below the top of the block, while nothing is known.
    fn visit_stmt(&mut self, st: &Stmt)
        ensures
            final(self).target == old(self).target,
            final(self).iterator@ == old(self).iterator@,
            final(self).nesting == nest_stmt(*st, old(self).iterator@, old(self).target, old(self).nesting),
        decreases st, 1nat,
    {
        if self.nesting != Nesting::Unknown {
            return;
        }
        match st {
            Stmt::Decl(Decl::Local(l)) => {
                self.visit_opt(&l.init);
                self.visit_pat(&l.pat);
            },
            Stmt::Decl(Decl::Item(_)) => {},
            Stmt::Expr(e) => self.visit_expr(e),
            Stmt::Semi(e) => self.visit_expr(e),
        }
    }

    /// Scans the statements of `ss` from `i` on; the one at `pos` holds the
    /// node the scan looks for.
    fn visit_stmts(&mut self, ss: &Vec<Stmt>, i: usize, pos: Option<usize>)
        requires
            i <= ss@.len(),
        ensures
            final(self).target == old(self).target,
            final(self).iterator@ == old(self).iterator@,
            final(self).nesting == nest_stmts(ss@, i as nat, old(self).iterator@, old(self).target, pos, old(self).nesting),
        decreases ss@, ss@.len() - i,
    {
        if i < ss.len() {
            if pos == Some(i) {
                self.nesting = Nesting::LookFurther;
            } else {
                self.visit_stmt(&ss[i]);
            }
            self.visit_stmts(ss, i + 1, pos);
        }
    }

    /// Scans a block: its statements, the one at `pos` holding the node
    /// the scan looks for, then its final expression.
    pub fn visit_stmts_and_tail(&mut self, b: &Block, pos: Option<usize>)
        ensures
            final(self).target == old(self).target,
            final(self).iterator@ == old(self).iterator@,
            final(self).nesting == nest_block(*b, old(self).iterator@, old(self).target, pos, old(self).nesting),
        decreases b, 1nat,
    {
        self.visit_stmts(&b.stmts, 0, pos);
        self.visit_opt(&b.expr);
    }
}

/// A node above the loop, as the compiler's map of parents gives it.
#[derive(Debug)]
pub enum Parent {
    /// An expression; whether it is a `loop` or a `while`.
    Expr(bool),
    /// A block, with the position of its statement that holds the node
    /// below, or none where that node is an expression of the block.
    Block(Block, Option<usize>),
    /// A statement.
    Stmt,
    /// Anything else: an item, a closure's body, the crate.
    Other,
}

/// A node above the loop with its id.
#[derive(Debug)]
pub struct Ancestor {
    pub id: u32,
    pub node: Parent,
}

/// Whether the loop is nested in a way the iterator `it` outlives, going up
/// from `ps[k]`, whose child is the node `id`: an enclosing loop says yes;
/// a block that binds or assigns the iterator before the child, or a node
/// of another kind, or the top, says no.
pub open spec fn nested_from(ps: Seq<Ancestor>, k: nat, id: u32, it: Seq<char>) -> bool
    decreases ps.len() - k,
{
    if k >= ps.len() {
        false
    } else {
        match ps[k as int].node {
            Parent::Expr(is_loop) => is_loop || nested_from(ps, k + 1, ps[k as int].id, it),
            Parent::Block(b, pos) => {
                let target = if pos is None {
                    Some(id)
                } else {
                    None
                };
                nest_block(b, it, target, pos, Nesting::Unknown) != Nesting::RuledOut && nested_from(
                    ps,
                    k + 1,
                    ps[k as int].id,
                    it,
                )
            },
            Parent::Stmt => nested_from(ps, k + 1, ps[k as int].id, it),
            Parent::Other => false,
        }
    }
}

/// Whether the loop `loop_id`, with the nodes `ps` above it from the
/// nearest up, is nested in a way the iterator `iter_expr` outlives; an
/// iterator that is not a plain name counts as nested.
pub open spec fn loop_nested(loop_id: u32, iter_expr: Expr, ps: Seq<Ancestor>) -> bool {
    match single_name(iter_expr) {
        Some(it) => nested_from(ps, 0, loop_id, it),
        None => true,
    }
}

/// Whether the loop `loop_id`, with the nodes `parents` above it from the
/// nearest up, is nested in a way the iterator `iter_expr` outlives.
pub fn is_loop_nested(loop_id: u32, iter_expr: &Expr, parents: &Vec<Ancestor>) -> (r: bool)
    ensures
        r == loop_nested(loop_id, *iter_expr, parents@),
{
    let iter_name = match path_name(iter_expr) {
        Some(n) => n,
        None => {
            return true;
        },
    };
    let ghost it = iter_name@;
    let mut id = loop_id;
    let mut k: usize = 0;
    while k < parents.len()
        invariant
            k <= parents@.len(),
            iter_name@ == it,
            single_name(*iter_expr) == Some(it),
            nested_from(parents@, 0, loop_id, it) == nested_from(parents@, k as nat, id, it),
        decreases parents@.len() - k,
    {
        match &parents[k].node {
            Parent::Expr(is_loop) => {
                if *is_loop {
                    return true;
                }
            },
            Parent::Block(b, pos) => {
                let target = if pos.is_none() {
                    Some(id)
                } else {
                    None
                };
                let mut visitor = LoopNestVisitor { target, iterator: iter_name.clone(), nesting: Nesting::Unknown };
                visitor.visit_stmts_and_tail(b, *pos);
                if visitor.nesting == Nesting::RuledOut {
                    return false;
                }
            },
            Parent::Stmt => {},
            Parent::Other => {
                return false;
            },
        }
        id = parents[k].id;
        k = k + 1;
    }
    false
}

/// Whether the `while let` loop whose `match` sits in the block of the loop
/// `loop_id`, where the compiler gives one, is nested in a way the iterator
/// `iter_expr` outlives.
pub fn is_nested(loop_id: Option<u32>, iter_expr: &Expr, parents: &Vec<Ancestor>) -> (r: bool)
    ensures
        r == match loop_id {
            Some(l) => loop_nested(l, *iter_expr, parents@),
            None => false,
        },
{
    match loop_id {
        Some(l) => is_loop_nested(l, iter_expr, parents),
        None => false,
    }
}

} // verus!
