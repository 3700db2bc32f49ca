//! The `unit_expr` lint: a value of the unit type `()` assigned, bound or
//! passed as an argument, most often because a block ends in a stray
//! semicolon. Works on the syntax tree before expansion; places in the
//! source are given as span ids.
use vstd::prelude::*;

verus! {

/// An expression of the syntax tree, with the id of its span.
#[derive(Debug)]
pub struct Expr {
    pub span: u32,
    pub node: ExprKind,
}

/// The kinds of expression the lint tells apart.
#[derive(Debug)]
pub enum ExprKind {
    Block(Block),
    If(Box<Expr>, Block, Option<Box<Expr>>),
    Match(Box<Expr>, Vec<Arm>),
    Assign(Box<Expr>, Box<Expr>),
    MethodCall(String, Vec<Expr>),
    Call(Box<Expr>, Vec<Expr>),
    Break,
    Continue,
    Ret(Option<Box<Expr>>),
    Other,
}

/// An arm of a `match`.
#[derive(Debug)]
pub struct Arm {
    pub body: Expr,
}

/// A block: its statements, the last of which gives its value.
#[derive(Debug)]
pub struct Block {
    pub stmts: Vec<Stmt>,
}

/// A statement, with the id of its span.
#[derive(Debug)]
pub struct Stmt {
    pub span: u32,
    pub node: StmtKind,
}

/// A `let` binding: whether its pattern is `_`, and its initializer.
#[derive(Debug)]
pub struct Local {
    pub pat_is_wild: bool,
    pub init: Option<Box<Expr>>,
}

/// The kinds of statement.
#[derive(Debug)]
pub enum StmtKind {
    Local(Local),
    Item,
    Expr(Box<Expr>),
    Semi(Box<Expr>),
    Mac,
}

/// A report: the expression at `span` evaluates to `()`, as the code at
/// `note` shows.
#[derive(Copy, Clone, Debug, PartialEq, Eq, Structural)]
pub struct UnitNote {
    pub span: u32,
    pub note: u32,
}

/// Whether the last statement of a non-empty block makes the block `()`:
/// anything but an expression without semicolon, or a `break`, `continue`
/// or `return` with one.
pub open spec fn last_stmt_unit(b: Block) -> bool
    recommends
        b.stmts@.len() > 0,
{
    match b.stmts@.last().node {
        StmtKind::Expr(_) => false,
        StmtKind::Semi(e) => !(e.node is Break || e.node is Continue || e.node is Ret),
        _ => true,
    }
}

/// Where `e` shows that it evaluates to `()`: the last statement of a block
/// that ends in a semicolon; for an `if`, what its `else` shows, else the
/// `if` itself when its `then` block ends so; for a `match`, what the first
/// arm that shows it shows.
pub open spec fn unit_span(e: Expr) -> Option<u32>
    decreases e, 1nat,
{
    match e.node {
        ExprKind::Block(b) => if last_stmt_unit(b) {
            Some(b.stmts@.last().span)
        } else {
            None
        },
        ExprKind::If(_, then, else_) => {
            let from_else = match else_ {
                Some(x) => unit_span(*x),
                None => None,
            };
            if from_else is Some {
                from_else
            } else if last_stmt_unit(then) {
                Some(e.span)
            } else {
                None
            }
        },
        ExprKind::Match(_, arms) => first_arm_unit(arms@, 0),
        _ => None,
    }
}

/// What the first arm of `arms` from `i` on that shows `()` shows.
pub open spec fn first_arm_unit(arms: Seq<Arm>, i: nat) -> Option<u32>
    decreases arms, arms.len() - i,
{
    if i >= arms.len() {
        None
    } else {
        match unit_span(arms[i as int].body) {
            Some(s) => Some(s),
            None => first_arm_unit(arms, i + 1),
        }
    }
}

/// Whether looking at `e` for `()` never meets an empty block where it
/// takes the last statement.
pub open spec fn unit_checkable(e: Expr) -> bool
    decreases e, 1nat,
{
    match e.node {
        ExprKind::Block(b) => b.stmts@.len() > 0,
        ExprKind::If(_, then, else_) => then.stmts@.len() > 0 && match else_ {
            Some(x) => unit_checkable(*x),
            None => true,
        },
        ExprKind::Match(_, arms) => arms_checkable(arms@, 0),
        _ => true,
    }
}

/// Whether the arms of `arms` from `i` on can be looked at, as far as they
/// are looked at: up to the first that shows `()`.
pub open spec fn arms_checkable(arms: Seq<Arm>, i: nat) -> bool
    decreases arms, arms.len() - i,
{
    if i >= arms.len() {
        true
    } else {
        unit_checkable(arms[i as int].body) && (unit_span(arms[i as int].body) is None ==> arms_checkable(
            arms,
            i + 1,
        ))
    }
}

/// Whether the last statement of a non-empty block makes it `()`.
pub fn check_last_stmt_in_block(block: &Block) -> (r: bool)
    requires
        block.stmts@.len() > 0,
    ensures
        r == last_stmt_unit(*block),
{
    let final_stmt = &block.stmts[block.stmts.len() - 1];
    match &final_stmt.node {
        StmtKind::Expr(_) => false,
        StmtKind::Semi(e) => match &e.node {
            ExprKind::Break | ExprKind::Continue | ExprKind::Ret(_) => false,
            _ => true,
        },
        _ => true,
    }
}

/// Where `e` shows that it evaluates to `()`, if it does.
pub fn is_unit_expr(e: &Expr) -> (r: Option<u32>)
    requires
        unit_checkable(*e),
    ensures
        r == unit_span(*e),
    decreases e, 1nat,
{
    match &e.node {
        ExprKind::Block(b) => if check_last_stmt_in_block(b) {
            Some(b.stmts[b.stmts.len() - 1].span)
        } else {
            None
        },
        ExprKind::If(_, then, else_) => {
            let check_then = check_last_stmt_in_block(then);
            match else_ {
                Some(x) => {
                    let check_else = is_unit_expr(x);
                    if check_else.is_some() {
                        return check_else;
                    }
                },
                None => {},
            }
            if check_then {
                Some(e.span)
            } else {
                None
            }
        },
        ExprKind::Match(_, arms) => first_unit_arm(arms, 0),
        _ => None,
    }
}

/// What the first arm of `arms` from `i` on that shows `()` shows.
fn first_unit_arm(arms: &Vec<Arm>, i: usize) -> (r: Option<u32>)
    requires
        i <= arms@.len(),
        arms_checkable(arms@, i as nat),
    ensures
        r == first_arm_unit(arms@, i as nat),
    decreases arms@, arms@.len() - i,
{
    if i >= arms.len() {
        return None;
    }
    match is_unit_expr(&arms[i].body) {
        Some(s) => Some(s),
        None => first_unit_arm(arms, i + 1),
    }
}

/// The reports on the arguments of `es` from `i` on, each at `span`.
pub open spec fn arg_notes(es: Seq<Expr>, i: nat, span: u32) -> Seq<UnitNote>
    decreases es.len() - i,
{
    if i >= es.len() {
        Seq::empty()
    } else {
        match unit_span(es[i as int]) {
            Some(n) => seq![UnitNote { span, note: n }] + arg_notes(es, i + 1, span),
            None => arg_notes(es, i + 1, span),
        }
    }
}

/// Whether every argument of `es` can be looked at.
pub open spec fn args_checkable(es: Seq<Expr>) -> bool {
    forall|i: int| 0 <= i < es.len() ==> unit_checkable(#[trigger] es[i])
}

/// What the lint reports on an expression: the right side of an assignment,
/// or each argument of a call or a method call, that shows `()`.
pub open spec fn expr_notes(e: Expr) -> Seq<UnitNote> {
    match e.node {
        ExprKind::Assign(_, right) => match unit_span(*right) {
            Some(n) => seq![UnitNote { span: e.span, note: n }],
            None => Seq::empty(),
        },
        ExprKind::MethodCall(_, args) => arg_notes(args@, 0, e.span),
        ExprKind::Call(_, args) => arg_notes(args@, 0, e.span),
        _ => Seq::empty(),
    }
}

/// Whether the lint can look at what it looks at in `e`.
pub open spec fn expr_checkable(e: Expr) -> bool {
    match e.node {
        ExprKind::Assign(_, right) => unit_checkable(*right),
        ExprKind::MethodCall(_, args) => args_checkable(args@),
        ExprKind::Call(_, args) => args_checkable(args@),
        _ => true,
    }
}

/// What the lint reports on a statement: the initializer of a binding
/// whose pattern is not `_`, when it shows `()`.
pub open spec fn stmt_notes(s: Stmt) -> Seq<UnitNote> {
    match s.node {
        StmtKind::Local(l) => if l.pat_is_wild {
            Seq::empty()
        } else {
            match l.init {
                Some(x) => match unit_span(*x) {
                    Some(n) => seq![UnitNote { span: x.span, note: n }],
                    None => Seq::empty(),
                },
                None => Seq::empty(),
            }
        },
        _ => Seq::empty(),
    }
}

/// Whether the lint can look at what it looks at in `s`.
pub open spec fn stmt_checkable(s: Stmt) -> bool {
    match s.node {
        StmtKind::Local(l) => !l.pat_is_wild ==> match l.init {
            Some(x) => unit_checkable(*x),
            None => true,
        },
        _ => true,
    }
}

/// The lint.
#[derive(Copy, Clone, Debug)]
pub struct UnitExpr;

/// The reports on the arguments of `args`, each at `span`.
fn check_args(args: &Vec<Expr>, span: u32) -> (r: Vec<UnitNote>)
    requires
        args_checkable(args@),
    ensures
        r@ == arg_notes(args@, 0, span),
{
    let mut out: Vec<UnitNote> = Vec::new();
    let mut k: usize = 0;
    proof {
        assert(out@ + arg_notes(args@, 0, span) == arg_notes(args@, 0, span));
    }
    while k < args.len()
        invariant
            k <= args@.len(),
            args_checkable(args@),
            out@ + arg_notes(args@, k as nat, span) == arg_notes(args@, 0, span),
        decreases args@.len() - k,
    {
        match is_unit_expr(&args[k]) {
            Some(n) => {
                out.push(UnitNote { span, note: n });
                proof {
                    assert(out@ + arg_notes(args@, (k + 1) as nat, span) =~= arg_notes(args@, 0, span));
                }
            },
            None => {},
        }
        k = k + 1;
    }
    proof {
        assert(out@ =~= out@ + arg_notes(args@, k as nat, span));
    }
    out
}

impl UnitExpr {
    /// The reports on an expression.
    pub fn check_expr(&self, e: &Expr) -> (r: Vec<UnitNote>)
        requires
            expr_checkable(*e),
        ensures
            r@ == expr_notes(*e),
    {
        match &e.node {
            ExprKind::Assign(_, right) => match is_unit_expr(right) {
                Some(n) => vec![UnitNote { span: e.span, note: n }],
                None => Vec::new(),
            },
            ExprKind::MethodCall(_, args) => check_args(args, e.span),
            ExprKind::Call(_, args) => check_args(args, e.span),
            _ => Vec::new(),
        }
    }

    /// The reports on a statement.
    pub fn check_stmt(&self, s: &Stmt) -> (r: Vec<UnitNote>)
        requires
            stmt_checkable(*s),
        ensures
            r@ == stmt_notes(*s),
    {
        match &s.node {
            StmtKind::Local(l) => {
                if l.pat_is_wild {
                    return Vec::new();
                }
                match &l.init {
                    Some(x) => match is_unit_expr(x) {
                        Some(n) => vec![UnitNote { span: x.span, note: n }],
                        None => Vec::new(),
                    },
                    None => Vec::new(),
                }
            },
            _ => Vec::new(),
        }
    }
}

} // verus!
