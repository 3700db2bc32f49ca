//! The `explicit_counter_loop` lint: a variable set to zero before a `for`
//! loop and incremented by one exactly once per pass is the loop's index,
//! better had from `enumerate()`.
use vstd::prelude::*;
use crate::hir::{
    arm_size, arms_size, block_size, expr_size, exprs_size, opt_expr_size, opt_pat_size, pat_size, pats_size,
    stmt_size, stmts_size, Arm, BinOpKind, Block, Decl, Def, Expr, ExprKind, Local, Mutability, Pat, QPath, Stmt,
};
use crate::loops::{is_int_literal, is_integer_literal};

verus! {

/// How far a variable is from being a loop counter.
#[derive(Copy, Clone, Debug, PartialEq, Eq, Structural)]
pub enum VarState {
    /// Not looked at yet.
    Initial,
    /// Incremented exactly once; may be a loop counter.
    IncrOnce,
    /// Declared, not (yet) set to zero.
    Declared,
    /// Set to zero before the loop and left alone until it.
    Warn,
    /// Not a loop counter.
    DontWarn,
}

/// What an expression is to the expression that holds it, as far as
/// counting goes: the target of `+=` (of `+= 1`, when the flag is set), the
/// target of `=` (of `= 0`, when the flag is set), borrowed mutably, or
/// anything else.
#[derive(Copy, Clone, Debug, PartialEq, Eq, Structural)]
pub enum Role {
    Plain,
    Incremented(bool),
    Assigned(bool),
    MutBorrowed,
}

/// The local variable `e` names, if it is a path to one.
pub open spec fn local_def(e: Expr) -> Option<u32> {
    match e.node {
        ExprKind::Path(QPath::Resolved(_, p)) => match p.def {
            Def::Local(d) => Some(d),
            _ => None,
        },
        _ => None,
    }
}

/// The local variable `e` names, if it is a path to one.
pub fn var_def_id(e: &Expr) -> (r: Option<u32>)
    ensures
        r == local_def(*e),
{
    match &e.node {
        ExprKind::Path(QPath::Resolved(_, p)) => match p.def {
            Def::Local(d) => Some(d),
            _ => None,
        },
        _ => None,
    }
}

/// The role of the target of `op=` with right side `r`.
pub open spec fn incremented_role(op: BinOpKind, r: Expr) -> Role {
    Role::Incremented(op == BinOpKind::BiAdd && is_int_literal(r, 1))
}

/// The role of the target of `=` with right side `r`.
pub open spec fn assigned_role(r: Expr) -> Role {
    Role::Assigned(is_int_literal(r, 0))
}

/// The role of what `&` or `&mut` borrows.
pub open spec fn borrowed_role(m: Mutability) -> Role {
    if m == Mutability::MutMutable {
        Role::MutBorrowed
    } else {
        Role::Plain
    }
}

/// The last position of `d` in `ids`, or -1.
pub open spec fn position_of(ids: Seq<u32>, d: u32) -> int
    decreases ids.len(),
{
    if ids.len() == 0 {
        -1
    } else if ids.last() == d {
        ids.len() - 1
    } else {
        position_of(ids.drop_last(), d)
    }
}

/// What scanning a loop body for counters found so far: the state of each
/// variable seen, how deep in `if` and `match` the scan is, and whether it
/// met a nested loop, which ends it with nothing found.
pub struct IncrState {
    pub ids: Seq<u32>,
    pub states: Seq<VarState>,
    pub depth: nat,
    pub done: bool,
}

impl IncrState {
    /// The state of variable `d`.
    pub open spec fn get(self, d: u32) -> VarState {
        let j = position_of(self.ids, d);
        if j >= 0 {
            self.states[j]
        } else {
            VarState::Initial
        }
    }

    /// Sets the state of variable `d`.
    pub open spec fn set(self, d: u32, v: VarState) -> IncrState {
        let j = position_of(self.ids, d);
        if j >= 0 {
            IncrState { states: self.states.update(j, v), ..self }
        } else {
            IncrState { ids: self.ids.push(d), states: self.states.push(v), ..self }
        }
    }

    /// One level deeper in `if` and `match`.
    pub open spec fn deeper(self) -> IncrState {
        IncrState { depth: self.depth + 1, ..self }
    }

    /// Back to the depth `depth`.
    pub open spec fn at_depth(self, depth: nat) -> IncrState {
        IncrState { depth, ..self }
    }
}

/// Scans `e`, which plays `role` in the expression holding it: a local
/// variable incremented by one at the top level, for the first time, may
/// be a counter; one changed in any other way is not; a nested loop ends
/// the scan with nothing found.
pub open spec fn incr_expr(e: Expr, role: Role, s: IncrState) -> IncrState
    decreases e, 1nat,
{
    if s.done {
        s
    } else {
        match local_def(e) {
            Some(d) => match role {
                Role::Incremented(one) => s.set(
                    d,
                    if one && s.get(d) == VarState::Initial && s.depth == 0 {
                        VarState::IncrOnce
                    } else {
                        VarState::DontWarn
                    },
                ),
                Role::Assigned(_) => s.set(d, VarState::DontWarn),
                Role::MutBorrowed => s.set(d, VarState::DontWarn),
                Role::Plain => s,
            },
            None => if e.node is Loop || e.node is While {
                IncrState { ids: Seq::empty(), states: Seq::empty(), depth: s.depth, done: true }
            } else if e.node is If || e.node is Match {
                incr_children(e, s.deeper()).at_depth(s.depth)
            } else {
                incr_children(e, s)
            },
        }
    }
}

/// Scans an optional expression.
pub open spec fn incr_opt(o: Option<Box<Expr>>, s: IncrState) -> IncrState
    decreases o, 2nat,
{
    match o {
        Some(x) => incr_expr(*x, Role::Plain, s),
        None => s,
    }
}

/// Scans what `e` holds, in the order the compiler's walk visits it; an
/// assignment's right side comes before its target.
pub open spec fn incr_children(e: Expr, s: IncrState) -> IncrState
    decreases e, 0nat,
{
    match e.node {
        ExprKind::Box(x) => incr_expr(*x, Role::Plain, s),
        ExprKind::Array(es) => incr_exprs(es@, 0, s),
        ExprKind::Call(f, es) => incr_exprs(es@, 0, incr_expr(*f, Role::Plain, s)),
        ExprKind::MethodCall(_, es) => incr_exprs(es@, 0, s),
        ExprKind::Tup(es) => incr_exprs(es@, 0, s),
        ExprKind::Binary(_, l, r) => incr_expr(*r, Role::Plain, incr_expr(*l, Role::Plain, s)),
        ExprKind::Unary(_, x) => incr_expr(*x, Role::Plain, s),
        ExprKind::Cast(x, _) => incr_expr(*x, Role::Plain, s),
        ExprKind::Type(x, _) => incr_expr(*x, Role::Plain, s),
        ExprKind::If(c, t, o) => incr_opt(o, incr_expr(*t, Role::Plain, incr_expr(*c, Role::Plain, s))),
        ExprKind::While(c, b) => incr_block(b, incr_expr(*c, Role::Plain, s)),
        ExprKind::Loop(b, _) => incr_block(b, s),
        ExprKind::Match(x, arms, _) => incr_arms(arms@, 0, incr_expr(*x, Role::Plain, s)),
        ExprKind::Yield(x) => incr_expr(*x, Role::Plain, s),
        ExprKind::Block(b) => incr_block(b, s),
        ExprKind::Assign(l, r) => incr_expr(*l, assigned_role(*r), incr_expr(*r, Role::Plain, s)),
        ExprKind::AssignOp(op, l, r) => incr_expr(*l, incremented_role(op, *r), incr_expr(*r, Role::Plain, s)),
        ExprKind::Field(x, _) => incr_expr(*x, Role::Plain, s),
        ExprKind::Index(a, b) => incr_expr(*b, Role::Plain, incr_expr(*a, Role::Plain, s)),
        ExprKind::AddrOf(m, x) => incr_expr(*x, borrowed_role(m), s),
        ExprKind::Break(_, o) => incr_opt(o, s),
        ExprKind::Ret(o) => incr_opt(o, s),
        ExprKind::Struct(_, fields, o) => incr_opt(o, incr_exprs(fields@, 0, s)),
        ExprKind::Repeat(x) => incr_expr(*x, Role::Plain, s),
        _ => s,
    }
}

/// Scans the expressions of `es` from `i` on.
pub open spec fn incr_exprs(es: Seq<Expr>, i: nat, s: IncrState) -> IncrState
    decreases es, es.len() - i,
{
    if i >= es.len() {
        s
    } else {
        incr_exprs(es, i + 1, incr_expr(es[i as int], Role::Plain, s))
    }
}

/// Scans an optional pattern.
pub open spec fn incr_opt_pat(o: Option<Box<Pat>>, s: IncrState) -> IncrState
    decreases o, 2nat,
{
    match o {
        Some(p) => incr_pat(*p, s),
        None => s,
    }
}

/// Scans the expressions in pattern `p`.
pub open spec fn incr_pat(p: Pat, s: IncrState) -> IncrState
    decreases p, 1nat,
{
    match p {
        Pat::Binding(_, _, sub) => incr_opt_pat(sub, s),
        Pat::Struct(_, ps, _) => incr_pats(ps@, 0, s),
        Pat::TupleStruct(_, ps, _) => incr_pats(ps@, 0, s),
        Pat::Tuple(ps, _) => incr_pats(ps@, 0, s),
        Pat::Box(x) => incr_pat(*x, s),
        Pat::Ref(x, _) => incr_pat(*x, s),
        Pat::Lit(e) => incr_expr(*e, Role::Plain, s),
        Pat::Range(a, b, _) => incr_expr(*b, Role::Plain, incr_expr(*a, Role::Plain, s)),
        Pat::Slice(a, m, b) => incr_pats(b@, 0, incr_opt_pat(m, incr_pats(a@, 0, s))),
        _ => s,
    }
}

/// Scans the patterns of `ps` from `i` on.
pub open spec fn incr_pats(ps: Seq<Pat>, i: nat, s: IncrState) -> IncrState
    decreases ps, ps.len() - i,
{
    if i >= ps.len() {
        s
    } else {
        incr_pats(ps, i + 1, incr_pat(ps[i as int], s))
    }
}

/// Scans the arms of `arms` from `i` on: patterns, guard, body.
pub open spec fn incr_arms(arms: Seq<Arm>, i: nat, s: IncrState) -> IncrState
    decreases arms, arms.len() - i,
{
    if i >= arms.len() {
        s
    } else {
        let s1 = incr_pats(arms[i as int].pats@, 0, s);
        let s2 = incr_opt(arms[i as int].guard, s1);
        incr_arms(arms, i + 1, incr_expr(*arms[i as int].body, Role::Plain, s2))
    }
}

/// Scans a statement: a binding's initializer before its pattern.
pub open spec fn incr_stmt(st: Stmt, s: IncrState) -> IncrState
    decreases st, 1nat,
{
    match st {
        Stmt::Decl(Decl::Local(l)) => incr_pat(l.pat, incr_opt(l.init, s)),
        Stmt::Decl(Decl::Item(_)) => s,
        Stmt::Expr(e) => incr_expr(*e, Role::Plain, s),
        Stmt::Semi(e) => incr_expr(*e, Role::Plain, s),
    }
}

/// Scans the statements of `ss` from `i` on.
pub open spec fn incr_stmts(ss: Seq<Stmt>, i: nat, s: IncrState) -> IncrState
    decreases ss, ss.len() - i,
{
    if i >= ss.len() {
        s
    } else {
        incr_stmts(ss, i + 1, incr_stmt(ss[i as int], s))
    }
}

/// Scans a block: its statements, then its final expression.
pub open spec fn incr_block(b: Block, s: IncrState) -> IncrState
    decreases b, 1nat,
{
    incr_opt(b.expr, incr_stmts(b.stmts@, 0, s))
}

/// The last position of `d` in `ids`, if it is there.
fn position(ids: &Vec<u32>, d: u32) -> (r: Option<usize>)
    ensures
        match r {
            Some(j) => j < ids@.len() && j as int == position_of(ids@, d),
            None => position_of(ids@, d) == -1,
        },
{
    let mut j = ids.len();
    proof {
        assert(ids@.take(j as int) =~= ids@);
    }
    while j > 0 && ids[j - 1] != d
        invariant
            j <= ids@.len(),
            position_of(ids@, d) == position_of(ids@.take(j as int), d),
        decreases j,
    {
        proof {
            assert(ids@.take(j as int).drop_last() =~= ids@.take(j - 1));
        }
        j = j - 1;
    }
    if j == 0 {
        None
    } else {
        Some(j - 1)
    }
}

/// The role of the target of `op=` with right side `r`.
fn incremented(op: BinOpKind, r: &Expr) -> (role: Role)
    ensures
        role == incremented_role(op, *r),
{
    Role::Incremented(op == BinOpKind::BiAdd && is_integer_literal(r, 1))
}

/// The role of the target of `=` with right side `r`.
fn assigned(r: &Expr) -> (role: Role)
    ensures
        role == assigned_role(*r),
{
    Role::Assigned(is_integer_literal(r, 0))
}

/// The role of what `&` or `&mut` borrows.
fn borrowed(m: Mutability) -> (role: Role)
    ensures
        role == borrowed_role(m),
{
    if m == Mutability::MutMutable {
        Role::MutBorrowed
    } else {
        Role::Plain
    }
}

/// A scan of a loop body for counters.
pub struct IncrementVisitor {
    pub ids: Vec<u32>,
    pub states: Vec<VarState>,
    pub depth: usize,
    pub done: bool,
}

impl IncrementVisitor {
    /// What the scan found so far.
    pub open spec fn found(&self) -> IncrState {
        IncrState { ids: self.ids@, states: self.states@, depth: self.depth as nat, done: self.done }
    }

    /// Each variable seen has its state.
    pub open spec fn wf(&self) -> bool {
        self.ids@.len() == self.states@.len()
    }

    /// A scan that found nothing yet.
    pub fn new() -> (r: Self)
        ensures
            r.wf(),
            r.found() == (IncrState { ids: Seq::empty(), states: Seq::empty(), depth: 0, done: false }),
    {
        IncrementVisitor { ids: Vec::new(), states: Vec::new(), depth: 0, done: false }
    }

    /// The state of variable `d`.
    fn get(&self, d: u32) -> (r: VarState)
        requires
            self.wf(),
        ensures
            r == self.found().get(d),
    {
        match position(&self.ids, d) {
            Some(j) => self.states[j],
            None => VarState::Initial,
        }
    }

    /// Sets the state of variable `d`.
    fn set(&mut self, d: u32, v: VarState)
        requires
            old(self).wf(),
        ensures
            final(self).wf(),
            final(self).found() == old(self).found().set(d, v),
    {
        match position(&self.ids, d) {
            Some(j) => {
                self.states.set(j, v);
            },
            None => {
                self.ids.push(d);
                self.states.push(v);
            },
        }
    }

    /// Scans `e`, which plays `role` in the expression holding it.
    pub fn visit_expr(&mut self, e: &Expr, role: Role)
        requires
            old(self).wf(),
            old(self).depth + expr_size(*e) <= usize::MAX,
        ensures
            final(self).wf(),
            final(self).depth == old(self).depth,
            final(self).found() == incr_expr(*e, role, old(self).found()),
        decreases e, 1nat,
    {
        if self.done {
            return;
        }
        match var_def_id(e) {
            Some(d) => match role {
                Role::Incremented(one) => {
                    let v = if one && self.get(d) == VarState::Initial && self.depth == 0 {
                        VarState::IncrOnce
                    } else {
                        VarState::DontWarn
                    };
                    self.set(d, v);
                },
                Role::Assigned(_) => self.set(d, VarState::DontWarn),
                Role::MutBorrowed => self.set(d, VarState::DontWarn),
                Role::Plain => {},
            },
            None => {
                match &e.node {
                    ExprKind::Loop(_, _) | ExprKind::While(_, _) => {
                        self.ids = Vec::new();
                        self.states = Vec::new();
                        self.done = true;
                    },
                    ExprKind::If(_, _, _) | ExprKind::Match(_, _, _) => {
                        self.depth = self.depth + 1;
                        self.visit_children(e);
                        self.depth = self.depth - 1;
                    },
                    ExprKind::Box(_) | ExprKind::Array(_) | ExprKind::Call(_, _) | ExprKind::MethodCall(_, _)
                    | ExprKind::Tup(_) | ExprKind::Binary(_, _, _) | ExprKind::Unary(_, _) | ExprKind::Cast(_, _)
                    | ExprKind::Type(_, _) => self.visit_children(e),
                    _ => self.visit_other_children(e),
                }
            },
        }
    }

    /// Scans an optional expression.
    fn visit_opt(&mut self, o: &Option<Box<Expr>>)
        requires
            old(self).wf(),
            old(self).depth + opt_expr_size(*o) <= usize::MAX,
        ensures
            final(self).wf(),
            final(self).depth == old(self).depth,
            final(self).found() == incr_opt(*o, old(self).found()),
        decreases o, 2nat,
    {
        match o {
            Some(x) => self.visit_expr(x, Role::Plain),
            None => {},
        }
    }

    /// Scans what `e` holds: an expression that holds expressions and
    /// blocks in their own right.
    fn visit_children(&mut self, e: &Expr)
        requires
            old(self).wf(),
            old(self).depth + expr_size(*e) - 1 <= usize::MAX,
            e.node is Box || e.node is Array || e.node is Call || e.node is MethodCall || e.node is Tup
                || e.node is Binary || e.node is Unary || e.node is Cast || e.node is Type || e.node is If
                || e.node is While || e.node is Loop || e.node is Match,
        ensures
            final(self).wf(),
            final(self).depth == old(self).depth,
            final(self).found() == incr_children(*e, old(self).found()),
        decreases e, 0nat,
    {
        match &e.node {
            ExprKind::Box(x) => self.visit_expr(x, Role::Plain),
            ExprKind::Array(es) => self.visit_exprs(es, 0),
            ExprKind::Call(f, es) => {
                self.visit_expr(f, Role::Plain);
                self.visit_exprs(es, 0);
            },
            ExprKind::MethodCall(_, es) => self.visit_exprs(es, 0),
            ExprKind::Tup(es) => self.visit_exprs(es, 0),
            ExprKind::Binary(_, l, r) => {
                self.visit_expr(l, Role::Plain);
                self.visit_expr(r, Role::Plain);
            },
            ExprKind::Unary(_, x) => self.visit_expr(x, Role::Plain),
            ExprKind::Cast(x, _) => self.visit_expr(x, Role::Plain),
            ExprKind::Type(x, _) => self.visit_expr(x, Role::Plain),
            ExprKind::If(c, t, o) => {
                self.visit_expr(c, Role::Plain);
                self.visit_expr(t, Role::Plain);
                self.visit_opt(o);
            },
            ExprKind::While(c, b) => {
                self.visit_expr(c, Role::Plain);
                self.visit_block(b);
            },
            ExprKind::Loop(b, _) => self.visit_block(b),
            ExprKind::Match(x, arms, _) => {
                self.visit_expr(x, Role::Plain);
                self.visit_arms(arms, 0);
            },
            _ => {},
        }
    }

    /// Scans what `e` holds: the other kinds of expression.
    fn visit_other_children(&mut self, e: &Expr)
        requires
            old(self).wf(),
            old(self).depth + expr_size(*e) - 1 <= usize::MAX,
            !(e.node is Box || e.node is Array || e.node is Call || e.node is MethodCall || e.node is Tup
                || e.node is Binary || e.node is Unary || e.node is Cast || e.node is Type || e.node is If
                || e.node is While || e.node is Loop || e.node is Match),
        ensures
            final(self).wf(),
            final(self).depth == old(self).depth,
            final(self).found() == incr_children(*e, old(self).found()),
        decreases e, 0nat,
    {
        match &e.node {
            ExprKind::Yield(x) => self.visit_expr(x, Role::Plain),
            ExprKind::Block(b) => self.visit_block(b),
            ExprKind::Assign(l, r) => {
                self.visit_expr(r, Role::Plain);
                let role = assigned(r);
                self.visit_expr(l, role);
            },
            ExprKind::AssignOp(op, l, r) => {
                self.visit_expr(r, Role::Plain);
                let role = incremented(*op, r);
                self.visit_expr(l, role);
            },
            ExprKind::Field(x, _) => self.visit_expr(x, Role::Plain),
            ExprKind::Index(a, b) => {
                self.visit_expr(a, Role::Plain);
                self.visit_expr(b, Role::Plain);
            },
            ExprKind::AddrOf(m, x) => {
                let role = borrowed(*m);
                self.visit_expr(x, role);
            },
            ExprKind::Break(_, o) => self.visit_opt(o),
            ExprKind::Ret(o) => self.visit_opt(o),
            ExprKind::Struct(_, fields, o) => {
                self.visit_exprs(fields, 0);
                self.visit_opt(o);
            },
            ExprKind::Repeat(x) => self.visit_expr(x, Role::Plain),
            _ => {},
        }
    }

    /// Scans what `e` holds, whatever kind of expression it is.
    pub fn visit_inner(&mut self, e: &Expr)
        requires
            old(self).wf(),
            old(self).depth + expr_size(*e) - 1 <= usize::MAX,
        ensures
            final(self).wf(),
            final(self).depth == old(self).depth,
            final(self).found() == incr_children(*e, old(self).found()),
    {
        match &e.node {
            ExprKind::Box(_) | ExprKind::Array(_) | ExprKind::Call(_, _) | ExprKind::MethodCall(_, _)
            | ExprKind::Tup(_) | ExprKind::Binary(_, _, _) | ExprKind::Unary(_, _) | ExprKind::Cast(_, _)
            | ExprKind::Type(_, _) | ExprKind::If(_, _, _) | ExprKind::While(_, _) | ExprKind::Loop(_, _)
            | ExprKind::Match(_, _, _) => self.visit_children(e),
            _ => self.visit_other_children(e),
        }
    }

    /// Scans the expressions of `es` from `i` on.
    fn visit_exprs(&mut self, es: &Vec<Expr>, i: usize)
        requires
            old(self).wf(),
            i <= es@.len(),
            old(self).depth + exprs_size(es@, i as nat) <= usize::MAX,
        ensures
            final(self).wf(),
            final(self).depth == old(self).depth,
            final(self).found() == incr_exprs(es@, i as nat, old(self).found()),
        decreases es@, es@.len() - i,
    {
        if i < es.len() {
            self.visit_expr(&es[i], Role::Plain);
            self.visit_exprs(es, i + 1);
        }
    }

    /// Scans an optional pattern.
    fn visit_opt_pat(&mut self, o: &Option<Box<Pat>>)
        requires
            old(self).wf(),
            old(self).depth + opt_pat_size(*o) <= usize::MAX,
        ensures
            final(self).wf(),
            final(self).depth == old(self).depth,
            final(self).found() == incr_opt_pat(*o, old(self).found()),
        decreases o, 2nat,
    {
        match o {
            Some(p) => self.visit_pat(p),
            None => {},
        }
    }

    /// Scans the expressions in pattern `p`.
    fn visit_pat(&mut self, p: &Pat)
        requires
            old(self).wf(),
            old(self).depth + pat_size(*p) <= usize::MAX,
        ensures
            final(self).wf(),
            final(self).depth == old(self).depth,
            final(self).found() == incr_pat(*p, old(self).found()),
        decreases p, 1nat,
    {
        match p {
            Pat::Binding(_, _, sub) => self.visit_opt_pat(sub),
            Pat::Struct(_, ps, _) => self.visit_pats(ps, 0),
            Pat::TupleStruct(_, ps, _) => self.visit_pats(ps, 0),
            Pat::Tuple(ps, _) => self.visit_pats(ps, 0),
            Pat::Box(x) => self.visit_pat(x),
            Pat::Ref(x, _) => self.visit_pat(x),
            Pat::Lit(e) => self.visit_expr(e, Role::Plain),
            Pat::Range(a, b, _) => {
                self.visit_expr(a, Role::Plain);
                self.visit_expr(b, Role::Plain);
            },
            Pat::Slice(a, m, b) => {
                self.visit_pats(a, 0);
                self.visit_opt_pat(m);
                self.visit_pats(b, 0);
            },
            _ => {},
        }
    }

    /// Scans the patterns of `ps` from `i` on.
    fn visit_pats(&mut self, ps: &Vec<Pat>, i: usize)
        requires
            old(self).wf(),
            i <= ps@.len(),
            old(self).depth + pats_size(ps@, i as nat) <= usize::MAX,
        ensures
            final(self).wf(),
            final(self).depth == old(self).depth,
            final(self).found() == incr_pats(ps@, i as nat, old(self).found()),
        decreases ps@, ps@.len() - i,
    {
        if i < ps.len() {
            self.visit_pat(&ps[i]);
            self.visit_pats(ps, i + 1);
        }
    }

    /// Scans the arms of `arms` from `i` on.
    fn visit_arms(&mut self, arms: &Vec<Arm>, i: usize)
        requires
            old(self).wf(),
            i <= arms@.len(),
            old(self).depth + arms_size(arms@, i as nat) <= usize::MAX,
        ensures
            final(self).wf(),
            final(self).depth == old(self).depth,
            final(self).found() == incr_arms(arms@, i as nat, old(self).found()),
        decreases arms@, arms@.len() - i,
    {
        if i < arms.len() {
            proof {
                assert(arms_size(arms@, i as nat) == arm_size(arms@[i as int]) + arms_size(arms@, (i + 1) as nat));
                assert(arm_size(arms@[i as int]) == 1 + pats_size(arms@[i as int].pats@, 0) + opt_expr_size(
                    arms@[i as int].guard,
                ) + expr_size(*arms@[i as int].body));
            }
            self.visit_pats(&arms[i].pats, 0);
            self.visit_opt(&arms[i].guard);
            self.visit_expr(&arms[i].body, Role::Plain);
            self.visit_arms(arms, i + 1);
        }
    }

    /// Scans a statement.
    fn visit_stmt(&mut self, st: &Stmt)
        requires
            old(self).wf(),
            old(self).depth + stmt_size(*st) <= usize::MAX,
        ensures
            final(self).wf(),
            final(self).depth == old(self).depth,
            final(self).found() == incr_stmt(*st, old(self).found()),
        decreases st, 1nat,
    {
        match st {
            Stmt::Decl(Decl::Local(l)) => {
                self.visit_opt(&l.init);
                self.visit_pat(&l.pat);
            },
            Stmt::Decl(Decl::Item(_)) => {},
            Stmt::Expr(e) => self.visit_expr(e, Role::Plain),
            Stmt::Semi(e) => self.visit_expr(e, Role::Plain),
        }
    }

    /// Scans the statements of `ss` from `i` on.
    fn visit_stmts(&mut self, ss: &Vec<Stmt>, i: usize)
        requires
            old(self).wf(),
            i <= ss@.len(),
            old(self).depth + stmts_size(ss@, i as nat) <= usize::MAX,
        ensures
            final(self).wf(),
            final(self).depth == old(self).depth,
            final(self).found() == incr_stmts(ss@, i as nat, old(self).found()),
        decreases ss@, ss@.len() - i,
    {
        if i < ss.len() {
            self.visit_stmt(&ss[i]);
            self.visit_stmts(ss, i + 1);
        }
    }

    /// Scans a block.
    fn visit_block(&mut self, b: &Block)
        requires
            old(self).wf(),
            old(self).depth + block_size(*b) <= usize::MAX,
        ensures
            final(self).wf(),
            final(self).depth == old(self).depth,
            final(self).found() == incr_block(*b, old(self).found()),
        decreases b, 1nat,
    {
        self.visit_stmts(&b.stmts, 0);
        self.visit_opt(&b.expr);
    }
}

/// What scanning the block around a loop for a counter's start found so
/// far: its state, its name once its `let` was seen, how deep in `if` and
/// `match` the scan is, and whether it is past the loop.
pub struct InitState {
    pub state: VarState,
    pub name: Option<Seq<char>>,
    pub depth: nat,
    pub past_loop: bool,
}

impl InitState {
    /// With state `v`.
    pub open spec fn with(self, v: VarState) -> InitState {
        InitState { state: v, ..self }
    }

    /// One level deeper in `if` and `match`.
    pub open spec fn deeper(self) -> InitState {
        InitState { depth: self.depth + 1, ..self }
    }

    /// Back to the depth `depth`.
    pub open spec fn at_depth(self, depth: nat) -> InitState {
        InitState { depth, ..self }
    }
}

/// Scans `e`, which plays `role` in the expression holding it, for how the
/// counter `var` starts before the loop `end`: nothing matters before its
/// `let`; set to zero at the top level it may be a counter, changed in any
/// other way, used after the loop, or with a loop between its start and
/// `end`, it is not.
pub open spec fn init_expr(e: Expr, role: Role, var: u32, end: u32, s: InitState) -> InitState
    decreases e, 1nat,
{
    if s.state == VarState::DontWarn {
        s
    } else if e.id == end {
        InitState { past_loop: true, ..s }
    } else if s.state == VarState::IncrOnce {
        s
    } else if local_def(e) == Some(var) {
        let s1 = match role {
            Role::Incremented(_) => s.with(VarState::DontWarn),
            Role::Assigned(zero) => s.with(
                if zero && s.depth == 0 {
                    VarState::Warn
                } else {
                    VarState::DontWarn
                },
            ),
            Role::MutBorrowed => s.with(VarState::DontWarn),
            Role::Plain => s,
        };
        if s1.past_loop {
            s1.with(VarState::DontWarn)
        } else {
            s1
        }
    } else if !s.past_loop && (e.node is Loop || e.node is While) {
        s.with(VarState::DontWarn)
    } else if e.node is If || e.node is Match {
        init_children(e, var, end, s.deeper()).at_depth(s.depth)
    } else {
        init_children(e, var, end, s)
    }
}

/// Scans an optional expression.
pub open spec fn init_opt(o: Option<Box<Expr>>, var: u32, end: u32, s: InitState) -> InitState
    decreases o, 2nat,
{
    match o {
        Some(x) => init_expr(*x, Role::Plain, var, end, s),
        None => s,
    }
}

/// Scans what `e` holds, in the order the compiler's walk visits it.
pub open spec fn init_children(e: Expr, var: u32, end: u32, s: InitState) -> InitState
    decreases e, 0nat,
{
    match e.node {
        ExprKind::Box(x) => init_expr(*x, Role::Plain, var, end, s),
        ExprKind::Array(es) => init_exprs(es@, 0, var, end, s),
        ExprKind::Call(f, es) => init_exprs(es@, 0, var, end, init_expr(*f, Role::Plain, var, end, s)),
        ExprKind::MethodCall(_, es) => init_exprs(es@, 0, var, end, s),
        ExprKind::Tup(es) => init_exprs(es@, 0, var, end, s),
        ExprKind::Binary(_, l, r) => init_expr(*r, Role::Plain, var, end, init_expr(*l, Role::Plain, var, end, s)),
        ExprKind::Unary(_, x) => init_expr(*x, Role::Plain, var, end, s),
        ExprKind::Cast(x, _) => init_expr(*x, Role::Plain, var, end, s),
        ExprKind::Type(x, _) => init_expr(*x, Role::Plain, var, end, s),
        ExprKind::If(c, t, o) => init_opt(
            o,
            var,
            end,
            init_expr(*t, Role::Plain, var, end, init_expr(*c, Role::Plain, var, end, s)),
        ),
        ExprKind::While(c, b) => init_block(b, var, end, init_expr(*c, Role::Plain, var, end, s)),
        ExprKind::Loop(b, _) => init_block(b, var, end, s),
        ExprKind::Match(x, arms, _) => init_arms(arms@, 0, var, end, init_expr(*x, Role::Plain, var, end, s)),
        ExprKind::Yield(x) => init_expr(*x, Role::Plain, var, end, s),
        ExprKind::Block(b) => init_block(b, var, end, s),
        ExprKind::Assign(l, r) => init_expr(*l, assigned_role(*r), var, end, init_expr(*r, Role::Plain, var, end, s)),
        ExprKind::AssignOp(op, l, r) => init_expr(
            *l,
            incremented_role(op, *r),
            var,
            end,
            init_expr(*r, Role::Plain, var, end, s),
        ),
        ExprKind::Field(x, _) => init_expr(*x, Role::Plain, var, end, s),
        ExprKind::Index(a, b) => init_expr(*b, Role::Plain, var, end, init_expr(*a, Role::Plain, var, end, s)),
        ExprKind::AddrOf(m, x) => init_expr(*x, borrowed_role(m), var, end, s),
        ExprKind::Break(_, o) => init_opt(o, var, end, s),
        ExprKind::Ret(o) => init_opt(o, var, end, s),
        ExprKind::Struct(_, fields, o) => init_opt(o, var, end, init_exprs(fields@, 0, var, end, s)),
        ExprKind::Repeat(x) => init_expr(*x, Role::Plain, var, end, s),
        _ => s,
    }
}

/// Scans the expressions of `es` from `i` on.
pub open spec fn init_exprs(es: Seq<Expr>, i: nat, var: u32, end: u32, s: InitState) -> InitState
    decreases es, es.len() - i,
{
    if i >= es.len() {
        s
    } else {
        init_exprs(es, i + 1, var, end, init_expr(es[i as int], Role::Plain, var, end, s))
    }
}

/// Scans an optional pattern.
pub open spec fn init_opt_pat(o: Option<Box<Pat>>, var: u32, end: u32, s: InitState) -> InitState
    decreases o, 2nat,
{
    match o {
        Some(p) => init_pat(*p, var, end, s),
        None => s,
    }
}

/// Scans the expressions in pattern `p`.
pub open spec fn init_pat(p: Pat, var: u32, end: u32, s: InitState) -> InitState
    decreases p, 1nat,
{
    match p {
        Pat::Binding(_, _, sub) => init_opt_pat(sub, var, end, s),
        Pat::Struct(_, ps, _) => init_pats(ps@, 0, var, end, s),
        Pat::TupleStruct(_, ps, _) => init_pats(ps@, 0, var, end, s),
        Pat::Tuple(ps, _) => init_pats(ps@, 0, var, end, s),
        Pat::Box(x) => init_pat(*x, var, end, s),
        Pat::Ref(x, _) => init_pat(*x, var, end, s),
        Pat::Lit(e) => init_expr(*e, Role::Plain, var, end, s),
        Pat::Range(a, b, _) => init_expr(*b, Role::Plain, var, end, init_expr(*a, Role::Plain, var, end, s)),
        Pat::Slice(a, m, b) => init_pats(b@, 0, var, end, init_opt_pat(m, var, end, init_pats(a@, 0, var, end, s))),
        _ => s,
    }
}

/// Scans the patterns of `ps` from `i` on.
pub open spec fn init_pats(ps: Seq<Pat>, i: nat, var: u32, end: u32, s: InitState) -> InitState
    decreases ps, ps.len() - i,
{
    if i >= ps.len() {
        s
    } else {
        init_pats(ps, i + 1, var, end, init_pat(ps[i as int], var, end, s))
    }
}

/// Scans the arms of `arms` from `i` on: patterns, guard, body.
pub open spec fn init_arms(arms: Seq<Arm>, i: nat, var: u32, end: u32, s: InitState) -> InitState
    decreases arms, arms.len() - i,
{
    if i >= arms.len() {
        s
    } else {
        let s1 = init_pats(arms[i as int].pats@, 0, var, end, s);
        let s2 = init_opt(arms[i as int].guard, var, end, s1);
        init_arms(arms, i + 1, var, end, init_expr(*arms[i as int].body, Role::Plain, var, end, s2))
    }
}

/// What the `let` statement `l` tells of the counter `var` before its
/// initializer is scanned: the `let` of the counter, bound to a name, names
/// it and starts it, as a counter if its initializer is the literal zero.
pub open spec fn init_let(l: Local, var: u32, s: InitState) -> InitState {
    if l.pat_id == var {
        match l.pat {
            Pat::Binding(_, ident, _) => InitState {
                name: Some(ident@),
                state: if l.init matches Some(x) && is_int_literal(*x, 0) {
                    VarState::Warn
                } else {
                    VarState::Declared
                },
                ..s
            },
            _ => s,
        }
    } else {
        s
    }
}

/// Scans a statement: the `let` of the counter names it and says whether
/// it starts at zero; a binding's initializer comes before its pattern.
pub open spec fn init_stmt(st: Stmt, var: u32, end: u32, s: InitState) -> InitState
    decreases st, 1nat,
{
    match st {
        Stmt::Decl(Decl::Local(l)) => init_pat(l.pat, var, end, init_opt(l.init, var, end, init_let(l, var, s))),
        Stmt::Decl(Decl::Item(_)) => s,
        Stmt::Expr(e) => init_expr(*e, Role::Plain, var, end, s),
        Stmt::Semi(e) => init_expr(*e, Role::Plain, var, end, s),
    }
}

/// Scans the statements of `ss` from `i` on.
pub open spec fn init_stmts(ss: Seq<Stmt>, i: nat, var: u32, end: u32, s: InitState) -> InitState
    decreases ss, ss.len() - i,
{
    if i >= ss.len() {
        s
    } else {
        init_stmts(ss, i + 1, var, end, init_stmt(ss[i as int], var, end, s))
    }
}

/// Scans a block: its statements, then its final expression.
pub open spec fn init_block(b: Block, var: u32, end: u32, s: InitState) -> InitState
    decreases b, 1nat,
{
    init_opt(b.expr, var, end, init_stmts(b.stmts@, 0, var, end, s))
}

/// The text of an optional name.
pub open spec fn opt_text(o: Option<String>) -> Option<Seq<char>> {
    match o {
        Some(n) => Some(n@),
        None => None,
    }
}

/// A scan of the block around a loop for how the counter `var_id` starts
/// before the loop `end_id`.
pub struct InitializeVisitor {
    pub var_id: u32,
    pub end_id: u32,
    pub state: VarState,
    pub name: Option<String>,
    pub depth: usize,
    pub past_loop: bool,
}

impl InitializeVisitor {
    /// What the scan found so far.
    pub open spec fn found(&self) -> InitState {
        InitState { state: self.state, name: opt_text(self.name), depth: self.depth as nat, past_loop: self.past_loop }
    }

    /// A scan for the counter `var_id` of the loop `end_id`, which has not
    /// seen the counter's `let` yet.
    pub fn new(var_id: u32, end_id: u32) -> (r: Self)
        ensures
            r.var_id == var_id,
            r.end_id == end_id,
            r.found() == (InitState { state: VarState::IncrOnce, name: None, depth: 0, past_loop: false }),
    {
        InitializeVisitor { var_id, end_id, state: VarState::IncrOnce, name: None, depth: 0, past_loop: false }
    }

    /// Scans `e`, which plays `role` in the expression holding it.
    pub fn visit_expr(&mut self, e: &Expr, role: Role)
        requires
            old(self).depth + expr_size(*e) <= usize::MAX,
        ensures
            final(self).var_id == old(self).var_id,
            final(self).end_id == old(self).end_id,
            final(self).depth == old(self).depth,
            final(self).found() == init_expr(*e, role, old(self).var_id, old(self).end_id, old(self).found()),
        decreases e, 1nat,
    {
        if self.state == VarState::DontWarn {
            return;
        }
        if e.id == self.end_id {
            self.past_loop = true;
            return;
        }
        if self.state == VarState::IncrOnce {
            return;
        }
        if var_def_id(e) == Some(self.var_id) {
            match role {
                Role::Incremented(_) => self.state = VarState::DontWarn,
                Role::Assigned(zero) => {
                    self.state = if zero && self.depth == 0 {
                        VarState::Warn
                    } else {
                        VarState::DontWarn
                    };
                },
                Role::MutBorrowed => self.state = VarState::DontWarn,
                Role::Plain => {},
            }
            if self.past_loop {
                self.state = VarState::DontWarn;
            }
            return;
        }
        match &e.node {
            ExprKind::Loop(_, _) | ExprKind::While(_, _) => {
                if !self.past_loop {
                    self.state = VarState::DontWarn;
                } else {
                    self.visit_children(e);
                }
            },
            ExprKind::If(_, _, _) | ExprKind::Match(_, _, _) => {
                self.depth = self.depth + 1;
                self.visit_children(e);
                self.depth = self.depth - 1;
            },
            ExprKind::Box(_) | ExprKind::Array(_) | ExprKind::Call(_, _) | ExprKind::MethodCall(_, _)
            | ExprKind::Tup(_) | ExprKind::Binary(_, _, _) | ExprKind::Unary(_, _) | ExprKind::Cast(_, _)
            | ExprKind::Type(_, _) => self.visit_children(e),
            _ => self.visit_other_children(e),
        }
    }

    /// Scans an optional expression.
    fn visit_opt(&mut self, o: &Option<Box<Expr>>)
        requires
            old(self).depth + opt_expr_size(*o) <= usize::MAX,
        ensures
            final(self).var_id == old(self).var_id,
            final(self).end_id == old(self).end_id,
            final(self).depth == old(self).depth,
            final(self).found() == init_opt(*o, old(self).var_id, old(self).end_id, old(self).found()),
        decreases o, 2nat,
    {
        match o {
            Some(x) => self.visit_expr(x, Role::Plain),
            None => {},
        }
    }

    /// Scans what `e` holds: an expression that holds expressions and
    /// blocks in their own right.
    fn visit_children(&mut self, e: &Expr)
        requires
            old(self).depth + expr_size(*e) - 1 <= usize::MAX,
            e.node is Box || e.node is Array || e.node is Call || e.node is MethodCall || e.node is Tup
                || e.node is Binary || e.node is Unary || e.node is Cast || e.node is Type || e.node is If
                || e.node is While || e.node is Loop || e.node is Match,
        ensures
            final(self).var_id == old(self).var_id,
            final(self).end_id == old(self).end_id,
            final(self).depth == old(self).depth,
            final(self).found() == init_children(*e, old(self).var_id, old(self).end_id, old(self).found()),
        decreases e, 0nat,
    {
        match &e.node {
            ExprKind::Box(x) => self.visit_expr(x, Role::Plain),
            ExprKind::Array(es) => self.visit_exprs(es, 0),
            ExprKind::Call(f, es) => {
                self.visit_expr(f, Role::Plain);
                self.visit_exprs(es, 0);
            },
            ExprKind::MethodCall(_, es) => self.visit_exprs(es, 0),
            ExprKind::Tup(es) => self.visit_exprs(es, 0),
            ExprKind::Binary(_, l, r) => {
                self.visit_expr(l, Role::Plain);
                self.visit_expr(r, Role::Plain);
            },
            ExprKind::Unary(_, x) => self.visit_expr(x, Role::Plain),
            ExprKind::Cast(x, _) => self.visit_expr(x, Role::Plain),
            ExprKind::Type(x, _) => self.visit_expr(x, Role::Plain),
            ExprKind::If(c, t, o) => {
                self.visit_expr(c, Role::Plain);
                self.visit_expr(t, Role::Plain);
                self.visit_opt(o);
            },
            ExprKind::While(c, b) => {
                self.visit_expr(c, Role::Plain);
                self.visit_block(b);
            },
            ExprKind::Loop(b, _) => self.visit_block(b),
            ExprKind::Match(x, arms, _) => {
                self.visit_expr(x, Role::Plain);
                self.visit_arms(arms, 0);
            },
            _ => {},
        }
    }

    /// Scans what `e` holds: the other kinds of expression.
    fn visit_other_children(&mut self, e: &Expr)
        requires
            old(self).depth + expr_size(*e) - 1 <= usize::MAX,
            !(e.node is Box || e.node is Array || e.node is Call || e.node is MethodCall || e.node is Tup
                || e.node is Binary || e.node is Unary || e.node is Cast || e.node is Type || e.node is If
                || e.node is While || e.node is Loop || e.node is Match),
        ensures
            final(self).var_id == old(self).var_id,
            final(self).end_id == old(self).end_id,
            final(self).depth == old(self).depth,
            final(self).found() == init_children(*e, old(self).var_id, old(self).end_id, old(self).found()),
        decreases e, 0nat,
    {
        match &e.node {
            ExprKind::Yield(x) => self.visit_expr(x, Role::Plain),
            ExprKind::Block(b) => self.visit_block(b),
            ExprKind::Assign(l, r) => {
                self.visit_expr(r, Role::Plain);
                let role = assigned(r);
                self.visit_expr(l, role);
            },
            ExprKind::AssignOp(op, l, r) => {
                self.visit_expr(r, Role::Plain);
                let role = incremented(*op, r);
                self.visit_expr(l, role);
            },
            ExprKind::Field(x, _) => self.visit_expr(x, Role::Plain),
            ExprKind::Index(a, b) => {
                self.visit_expr(a, Role::Plain);
                self.visit_expr(b, Role::Plain);
            },
            ExprKind::AddrOf(m, x) => {
                let role = borrowed(*m);
                self.visit_expr(x, role);
            },
            ExprKind::Break(_, o) => self.visit_opt(o),
            ExprKind::Ret(o) => self.visit_opt(o),
            ExprKind::Struct(_, fields, o) => {
                self.visit_exprs(fields, 0);
                self.visit_opt(o);
            },
            ExprKind::Repeat(x) => self.visit_expr(x, Role::Plain),
            _ => {},
        }
    }

    /// Scans the expressions of `es` from `i` on.
    fn visit_exprs(&mut self, es: &Vec<Expr>, i: usize)
        requires
            i <= es@.len(),
            old(self).depth + exprs_size(es@, i as nat) <= usize::MAX,
        ensures
            final(self).var_id == old(self).var_id,
            final(self).end_id == old(self).end_id,
            final(self).depth == old(self).depth,
            final(self).found() == init_exprs(es@, i as nat, old(self).var_id, old(self).end_id, old(self).found()),
        decreases es@, es@.len() - i,
    {
        if i < es.len() {
            self.visit_expr(&es[i], Role::Plain);
            self.visit_exprs(es, i + 1);
        }
    }

    /// Scans an optional pattern.
    fn visit_opt_pat(&mut self, o: &Option<Box<Pat>>)
        requires
            old(self).depth + opt_pat_size(*o) <= usize::MAX,
        ensures
            final(self).var_id == old(self).var_id,
            final(self).end_id == old(self).end_id,
            final(self).depth == old(self).depth,
            final(self).found() == init_opt_pat(*o, old(self).var_id, old(self).end_id, old(self).found()),
        decreases o, 2nat,
    {
        match o {
            Some(p) => self.visit_pat(p),
            None => {},
        }
    }

    /// Scans the expressions in pattern `p`.
    fn visit_pat(&mut self, p: &Pat)
        requires
            old(self).depth + pat_size(*p) <= usize::MAX,
        ensures
            final(self).var_id == old(self).var_id,
            final(self).end_id == old(self).end_id,
            final(self).depth == old(self).depth,
            final(self).found() == init_pat(*p, old(self).var_id, old(self).end_id, old(self).found()),
        decreases p, 1nat,
    {
        match p {
            Pat::Binding(_, _, sub) => self.visit_opt_pat(sub),
            Pat::Struct(_, ps, _) => self.visit_pats(ps, 0),
            Pat::TupleStruct(_, ps, _) => self.visit_pats(ps, 0),
            Pat::Tuple(ps, _) => self.visit_pats(ps, 0),
            Pat::Box(x) => self.visit_pat(x),
            Pat::Ref(x, _) => self.visit_pat(x),
            Pat::Lit(e) => self.visit_expr(e, Role::Plain),
            Pat::Range(a, b, _) => {
                self.visit_expr(a, Role::Plain);
                self.visit_expr(b, Role::Plain);
            },
            Pat::Slice(a, m, b) => {
                self.visit_pats(a, 0);
                self.visit_opt_pat(m);
                self.visit_pats(b, 0);
            },
            _ => {},
        }
    }

    /// Scans the patterns of `ps` from `i` on.
    fn visit_pats(&mut self, ps: &Vec<Pat>, i: usize)
        requires
            i <= ps@.len(),
            old(self).depth + pats_size(ps@, i as nat) <= usize::MAX,
        ensures
            final(self).var_id == old(self).var_id,
            final(self).end_id == old(self).end_id,
            final(self).depth == old(self).depth,
            final(self).found() == init_pats(ps@, i as nat, old(self).var_id, old(self).end_id, old(self).found()),
        decreases ps@, ps@.len() - i,
    {
        if i < ps.len() {
            self.visit_pat(&ps[i]);
            self.visit_pats(ps, i + 1);
        }
    }

    /// Scans the arms of `arms` from `i` on.
    fn visit_arms(&mut self, arms: &Vec<Arm>, i: usize)
        requires
            i <= arms@.len(),
            old(self).depth + arms_size(arms@, i as nat) <= usize::MAX,
        ensures
            final(self).var_id == old(self).var_id,
            final(self).end_id == old(self).end_id,
            final(self).depth == old(self).depth,
            final(self).found() == init_arms(arms@, i as nat, old(self).var_id, old(self).end_id, old(self).found()),
        decreases arms@, arms@.len() - i,
    {
        if i < arms.len() {
            proof {
                assert(arms_size(arms@, i as nat) == arm_size(arms@[i as int]) + arms_size(arms@, (i + 1) as nat));
                assert(arm_size(arms@[i as int]) == 1 + pats_size(arms@[i as int].pats@, 0) + opt_expr_size(
                    arms@[i as int].guard,
                ) + expr_size(*arms@[i as int].body));
            }
            self.visit_pats(&arms[i].pats, 0);
            self.visit_opt(&arms[i].guard);
            self.visit_expr(&arms[i].body, Role::Plain);
            self.visit_arms(arms, i + 1);
        }
    }

    /// Notes what the `let` statement `l` tells of the counter.
    fn note_let(&mut self, l: &Local)
        ensures
            final(self).var_id == old(self).var_id,
            final(self).end_id == old(self).end_id,
            final(self).depth == old(self).depth,
            final(self).found() == init_let(*l, old(self).var_id, old(self).found()),
    {
        if l.pat_id == self.var_id {
            if let Pat::Binding(_, ident, _) = &l.pat {
                self.name = Some(ident.clone());
                self.state = match &l.init {
                    Some(x) => if is_integer_literal(x, 0) {
                        VarState::Warn
                    } else {
                        VarState::Declared
                    },
                    None => VarState::Declared,
                };
            }
        }
    }

    /// Scans a statement; the `let` of the counter names it.
    #[verifier::rlimit(60)]
    fn visit_stmt(&mut self, st: &Stmt)
        requires
            old(self).depth + stmt_size(*st) <= usize::MAX,
        ensures
            final(self).var_id == old(self).var_id,
            final(self).end_id == old(self).end_id,
            final(self).depth == old(self).depth,
            final(self).found() == init_stmt(*st, old(self).var_id, old(self).end_id, old(self).found()),
        decreases st, 1nat,
    {
        match st {
            Stmt::Decl(Decl::Local(l)) => {
                self.note_let(l);
                self.visit_opt(&l.init);
                self.visit_pat(&l.pat);
            },
            Stmt::Decl(Decl::Item(_)) => {},
            Stmt::Expr(e) => self.visit_expr(e, Role::Plain),
            Stmt::Semi(e) => self.visit_expr(e, Role::Plain),
        }
    }

    /// Scans the statements of `ss` from `i` on.
    #[verifier::rlimit(60)]
    fn visit_stmts(&mut self, ss: &Vec<Stmt>, i: usize)
        requires
            i <= ss@.len(),
            old(self).depth + stmts_size(ss@, i as nat) <= usize::MAX,
        ensures
            final(self).var_id == old(self).var_id,
            final(self).end_id == old(self).end_id,
            final(self).depth == old(self).depth,
            final(self).found() == init_stmts(ss@, i as nat, old(self).var_id, old(self).end_id, old(self).found()),
        decreases ss@, ss@.len() - i,
    {
        if i < ss.len() {
            self.visit_stmt(&ss[i]);
            self.visit_stmts(ss, i + 1);
        }
    }

    /// Scans a block.
    pub fn visit_block(&mut self, b: &Block)
        requires
            old(self).depth + block_size(*b) <= usize::MAX,
        ensures
            final(self).var_id == old(self).var_id,
            final(self).end_id == old(self).end_id,
            final(self).depth == old(self).depth,
            final(self).found() == init_block(*b, old(self).var_id, old(self).end_id, old(self).found()),
        decreases b, 1nat,
    {
        self.visit_stmts(&b.stmts, 0);
        self.visit_opt(&b.expr);
    }
}

/// The scan of the block around a loop before it met the counter's `let`.
pub open spec fn init_start() -> InitState {
    InitState { state: VarState::IncrOnce, name: None, depth: 0, past_loop: false }
}

/// What the body `body` of a loop tells of its counters: the variables
/// that each pass increments by one exactly once, at the top level, in the
/// order the scan first met them.
pub open spec fn body_counters(body: Expr) -> IncrState {
    incr_children(body, IncrState { ids: Seq::empty(), states: Seq::empty(), depth: 0, done: false })
}

/// The names of the counters among the first `n` variables of `s` that the
/// block `b` around the loop `end` names and sets to zero before the loop,
/// and leaves alone until it and after it.
pub open spec fn counters_upto(s: IncrState, n: nat, b: Block, end: u32) -> Seq<Seq<char>>
    decreases n,
{
    if n == 0 {
        Seq::empty()
    } else {
        let r = counters_upto(s, (n - 1) as nat, b, end);
        let f = init_block(b, s.ids[n - 1], end, init_start());
        if s.states[n - 1] == VarState::IncrOnce && f.state == VarState::Warn && f.name is Some {
            r.push(f.name->0)
        } else {
            r
        }
    }
}

/// The names of the explicit counters of the loop `end` with body `body`,
/// whose enclosing block is `enclosing`.
pub open spec fn explicit_counters(body: Expr, end: u32, enclosing: Option<Block>) -> Seq<Seq<char>> {
    match enclosing {
        Some(b) => counters_upto(body_counters(body), body_counters(body).ids.len(), b, end),
        None => Seq::empty(),
    }
}

/// The `explicit_counter_loop` lint on the `for` loop `loop_id` with body
/// `body`: the names of the variables that serve as its counter.
/// `enclosing` is the block that holds the loop's statement, where the
/// compiler's scopes give one.
pub fn check_for_loop_explicit_counter(body: &Expr, loop_id: u32, enclosing: Option<&Block>) -> (r: Vec<String>)
    requires
        expr_size(*body) <= usize::MAX,
        enclosing matches Some(b) ==> block_size(*b) <= usize::MAX,
    ensures
        r@.map_values(|n: String| n@) == explicit_counters(*body, loop_id, match enclosing {
            Some(b) => Some(*b),
            None => None,
        }),
{
    let mut visitor = IncrementVisitor::new();
    visitor.visit_inner(body);
    let mut out: Vec<String> = Vec::new();
    let b = match enclosing {
        Some(b) => b,
        None => return out,
    };
    let ghost s = visitor.found();
    let mut k: usize = 0;
    while k < visitor.ids.len()
        invariant
            visitor.wf(),
            s == visitor.found(),
            s == body_counters(*body),
            block_size(*b) <= usize::MAX,
            k <= visitor.ids@.len(),
            out@.map_values(|n: String| n@) == counters_upto(s, k as nat, *b, loop_id),
        decreases visitor.ids@.len() - k,
    {
        let mut scan = InitializeVisitor::new(visitor.ids[k], loop_id);
        scan.visit_block(b);
        proof {
            assert(scan.found() == init_block(*b, s.ids[k as int], loop_id, init_start()));
        }
        let ghost before = out@;
        if visitor.states[k] == VarState::IncrOnce && scan.state == VarState::Warn {
            match scan.name {
                Some(n) => {
                    out.push(n);
                    proof {
                        assert(out@.map_values(|n: String| n@) =~= before.map_values(|n: String| n@).push(n@));
                    }
                },
                None => {},
            }
        }
        k = k + 1;
    }
    out
}

} // verus!
