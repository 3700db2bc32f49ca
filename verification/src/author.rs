//! The `author` lint: for an expression, statement or arm marked
//! `#[clippy(author)]`, writes the `if_chain!` that a lint would use to
//! match that very code.
use vstd::prelude::*;
use vstd::string::*;
use crate::cargo_clippy::same_text;
use crate::hir::{
    arm_size, arms_size, block_size, expr_size, exprs_size, opt_expr_size, opt_pat_size, pat_size,
    pats_size, stmt_attributes, stmt_attrs, stmt_size, stmts_size, Arm, Attribute, BinOpKind,
    BindingAnnotation, Block, Decl, Expr, ExprKind, Lit, LoopSource, MatchSource, Mutability,
    NestedMeta, Pat, QPath, RangeEnd, Stmt, Ty, UnOpKind
};
use crate::text::{decimal, to_decimal};

verus! {

broadcast use vstd::string::group_string_axioms;

/// What `{:?}` writes for a string: quoted, with escapes.
pub uninterp spec fn str_debug(s: Seq<char>) -> Seq<char>;

/// What `{:?}` writes for a character: quoted, with escapes.
pub uninterp spec fn char_debug(c: char) -> Seq<char>;

/// The debug text of a string, as `format!("{:?}")` writes it.
#[verifier::external_body]
fn debug_str(s: &str) -> (r: String)
    ensures
        r@ == str_debug(s@),
{
    format!("{:?}", s)
}

/// The debug text of a character, as `format!("{:?}")` writes it.
#[verifier::external_body]
fn debug_char(c: char) -> (r: String)
    ensures
        r@ == char_debug(c),
{
    format!("{:?}", c)
}

/// The names the generated code binds; each is numbered once it has been
/// used.
#[derive(Copy, Clone, Debug, PartialEq, Eq, Structural)]
pub enum Slot {
    Inner,
    Elements,
    Op,
    Left,
    Right,
    LitName,
    VecName,
    StrName,
    ExprName,
    CastTy,
    Qp,
    Cond,
    Then,
    ElseName,
    Body,
    Label,
    Arms,
    Guard,
    Sub,
    BlockName,
    Target,
    Value,
    Object,
    FieldName,
    IndexName,
    PathName,
    Fields,
    Base,
    Destination,
    Name,
    Start,
    End,
    Middle,
    PatName,
    LitExpr,
    DeclName,
    LocalName,
    Init,
    E,
}

/// How many slots there are.
pub const SLOT_COUNT: usize = 39;

/// The position of a slot among the counters.
pub open spec fn slot_index(k: Slot) -> int {
    match k {
        Slot::Inner => 0,
        Slot::Elements => 1,
        Slot::Op => 2,
        Slot::Left => 3,
        Slot::Right => 4,
        Slot::LitName => 5,
        Slot::VecName => 6,
        Slot::StrName => 7,
        Slot::ExprName => 8,
        Slot::CastTy => 9,
        Slot::Qp => 10,
        Slot::Cond => 11,
        Slot::Then => 12,
        Slot::ElseName => 13,
        Slot::Body => 14,
        Slot::Label => 15,
        Slot::Arms => 16,
        Slot::Guard => 17,
        Slot::Sub => 18,
        Slot::BlockName => 19,
        Slot::Target => 20,
        Slot::Value => 21,
        Slot::Object => 22,
        Slot::FieldName => 23,
        Slot::IndexName => 24,
        Slot::PathName => 25,
        Slot::Fields => 26,
        Slot::Base => 27,
        Slot::Destination => 28,
        Slot::Name => 29,
        Slot::Start => 30,
        Slot::End => 31,
        Slot::Middle => 32,
        Slot::PatName => 33,
        Slot::LitExpr => 34,
        Slot::DeclName => 35,
        Slot::LocalName => 36,
        Slot::Init => 37,
        Slot::E => 38,
    }
}

/// The name a slot binds before it is numbered.
pub open spec fn slot_text(k: Slot) -> Seq<char> {
    match k {
        Slot::Inner => "inner"@,
        Slot::Elements => "elements"@,
        Slot::Op => "op"@,
        Slot::Left => "left"@,
        Slot::Right => "right"@,
        Slot::LitName => "lit"@,
        Slot::VecName => "vec"@,
        Slot::StrName => "s"@,
        Slot::ExprName => "expr"@,
        Slot::CastTy => "cast_ty"@,
        Slot::Qp => "qp"@,
        Slot::Cond => "cond"@,
        Slot::Then => "then"@,
        Slot::ElseName => "else_"@,
        Slot::Body => "body"@,
        Slot::Label => "label"@,
        Slot::Arms => "arms"@,
        Slot::Guard => "guard"@,
        Slot::Sub => "sub"@,
        Slot::BlockName => "block"@,
        Slot::Target => "target"@,
        Slot::Value => "value"@,
        Slot::Object => "object"@,
        Slot::FieldName => "field_name"@,
        Slot::IndexName => "index"@,
        Slot::PathName => "path"@,
        Slot::Fields => "fields"@,
        Slot::Base => "base"@,
        Slot::Destination => "destination"@,
        Slot::Name => "name"@,
        Slot::Start => "start"@,
        Slot::End => "end"@,
        Slot::Middle => "middle"@,
        Slot::PatName => "pat"@,
        Slot::LitExpr => "lit_expr"@,
        Slot::DeclName => "decl"@,
        Slot::LocalName => "local"@,
        Slot::Init => "init"@,
        Slot::E => "e"@,
    }
}

/// The name a slot binds after it has been used `n` times: the plain name
/// the first time, then numbered from `1`.
pub open spec fn numbered(k: Slot, n: usize) -> Seq<char> {
    if n == 0 {
        slot_text(k)
    } else {
        slot_text(k) + decimal(n as nat)
    }
}

/// What the printer has done so far: how often each slot was used, the
/// name of the value being destructured, and the text written.
pub struct PrintState {
    pub ids: Seq<usize>,
    pub current: Seq<char>,
    pub out: Seq<char>,
}

impl PrintState {
    /// The state of a fresh printer that destructures `root`.
    pub open spec fn start(root: Seq<char>) -> PrintState {
        PrintState { ids: Seq::new(SLOT_COUNT as nat, |i: int| 0usize), current: root, out: Seq::empty() }
    }

    /// Writes `t`.
    pub open spec fn put(self, t: Seq<char>) -> PrintState {
        PrintState { out: self.out + t, ..self }
    }

    /// Destructures `c` next.
    pub open spec fn at(self, c: Seq<char>) -> PrintState {
        PrintState { current: c, ..self }
    }

    /// The name slot `k` gives now.
    pub open spec fn fresh(self, k: Slot) -> Seq<char> {
        numbered(k, self.ids[slot_index(k)])
    }

    /// Counts one more use of slot `k`.
    pub open spec fn bump(self, k: Slot) -> PrintState {
        PrintState { ids: self.ids.update(slot_index(k), (self.ids[slot_index(k)] + 1) as usize), ..self }
    }

    /// The value being destructured, as a place: `current.node`.
    pub open spec fn node(self) -> Seq<char> {
        self.current + ".node"@
    }
}

/// The debug text of a boolean.
pub open spec fn bool_text(b: bool) -> Seq<char> {
    if b {
        "true"@
    } else {
        "false"@
    }
}

/// The debug text of an optional position.
pub open spec fn opt_usize_text(o: Option<usize>) -> Seq<char> {
    match o {
        Some(n) => "Some("@ + decimal(n as nat) + ")"@,
        None => "None"@,
    }
}

/// The bytes of `v`, in decimal, separated by `, `.
pub open spec fn joined_bytes(v: Seq<u8>) -> Seq<char>
    decreases v.len(),
{
    if v.len() == 0 {
        Seq::empty()
    } else if v.len() == 1 {
        decimal(v[0] as nat)
    } else {
        joined_bytes(v.drop_last()) + ", "@ + decimal(v.last() as nat)
    }
}

/// The debug text of a list of bytes: `[1, 2, 3]`.
pub open spec fn bytes_text(v: Seq<u8>) -> Seq<char> {
    "["@ + joined_bytes(v) + "]"@
}

/// The name of a binary operator as a variant of `BinOp`.
pub open spec fn binop_text(op: BinOpKind) -> Seq<char> {
    match op {
        BinOpKind::BiAdd => "Add"@,
        BinOpKind::BiSub => "Sub"@,
        BinOpKind::BiMul => "Mul"@,
        BinOpKind::BiDiv => "Div"@,
        BinOpKind::BiRem => "Rem"@,
        BinOpKind::BiAnd => "And"@,
        BinOpKind::BiOr => "Or"@,
        BinOpKind::BiBitXor => "BitXor"@,
        BinOpKind::BiBitAnd => "BitAnd"@,
        BinOpKind::BiBitOr => "BitOr"@,
        BinOpKind::BiShl => "Shl"@,
        BinOpKind::BiShr => "Shr"@,
        BinOpKind::BiEq => "Eq"@,
        BinOpKind::BiLt => "Lt"@,
        BinOpKind::BiLe => "Le"@,
        BinOpKind::BiNe => "Ne"@,
        BinOpKind::BiGe => "Ge"@,
        BinOpKind::BiGt => "Gt"@,
    }
}

/// The debug text of a unary operator.
pub open spec fn unop_text(op: UnOpKind) -> Seq<char> {
    match op {
        UnOpKind::UnDeref => "UnDeref"@,
        UnOpKind::UnNot => "UnNot"@,
        UnOpKind::UnNeg => "UnNeg"@,
    }
}

/// The debug text of a mutability.
pub open spec fn mutability_text(m: Mutability) -> Seq<char> {
    match m {
        Mutability::MutMutable => "MutMutable"@,
        Mutability::MutImmutable => "MutImmutable"@,
    }
}

/// The debug text of a range end.
pub open spec fn range_end_text(r: RangeEnd) -> Seq<char> {
    match r {
        RangeEnd::Included => "Included"@,
        RangeEnd::Excluded => "Excluded"@,
    }
}

/// The pattern text of a binding annotation.
pub open spec fn annotation_text(a: BindingAnnotation) -> Seq<char> {
    match a {
        BindingAnnotation::Unannotated => "BindingAnnotation::Unannotated"@,
        BindingAnnotation::Mutable => "BindingAnnotation::Mutable"@,
        BindingAnnotation::Ref => "BindingAnnotation::Ref"@,
        BindingAnnotation::RefMut => "BindingAnnotation::RefMut"@,
    }
}

/// The pattern text of a `match` source.
pub open spec fn match_source_text(m: MatchSource) -> Seq<char> {
    match m {
        MatchSource::ForLoopDesugar => "MatchSource::ForLoopDesugar"@,
        MatchSource::TryDesugar => "MatchSource::TryDesugar"@,
        MatchSource::WhileLetDesugar => "MatchSource::WhileLetDesugar"@,
        MatchSource::Normal => "MatchSource::Normal"@,
        MatchSource::IfLetDesugar { contains_else_clause } => "MatchSource::IfLetDesugar { contains_else_clause: "@
            + bool_text(contains_else_clause) + " }"@,
    }
}

/// The pattern text of a `loop` source.
pub open spec fn loop_source_text(l: LoopSource) -> Seq<char> {
    match l {
        LoopSource::ForLoop => "LoopSource::ForLoop"@,
        LoopSource::Loop => "LoopSource::Loop"@,
        LoopSource::WhileLet => "LoopSource::WhileLet"@,
    }
}

/// The names of `segs`, each in debug text, separated by `, `; `first`
/// says that nothing was written before them. Also says whether still
/// nothing was written.
pub open spec fn segments_text(segs: Seq<String>, first: bool) -> (Seq<char>, bool)
    decreases segs.len(),
{
    if segs.len() == 0 {
        (Seq::empty(), first)
    } else {
        let (t, f) = segments_text(segs.drop_last(), first);
        if f {
            (t + str_debug(segs.last()@), false)
        } else {
            (t + ", "@ + str_debug(segs.last()@), false)
        }
    }
}

/// The names of a path, each in debug text, separated by `, `; a type
/// other than a path is written as a comment.
pub open spec fn path_text(p: QPath, first: bool) -> (Seq<char>, bool)
    decreases p,
{
    match p {
        QPath::Resolved(_, path) => segments_text(path.segments@, first),
        QPath::TypeRelative(ty, seg) => match *ty {
            Ty::Path(inner) => {
                let (t, f) = path_text(inner, first);
                if f {
                    (t + str_debug(seg@), false)
                } else {
                    (t + ", "@ + str_debug(seg@), false)
                }
            },
            Ty::Other(d) => ("/* unimplemented: "@ + d@ + "*/"@, first),
        },
    }
}

/// Writes the check that the current value is the path `p`.
pub open spec fn print_qpath(p: QPath, s: PrintState) -> PrintState {
    s.put("    if match_qpath("@).put(s.current).put(", &["@).put(path_text(p, true).0).put("]),\n"@)
}


/// The two operands an expression destructures in turn: the sides of an
/// operator or an assignment, the object and index, a condition and its
/// branch.
pub open spec fn operands(e: Expr) -> (Expr, Expr) {
    match e.node {
        ExprKind::Binary(_, l, r) => (*l, *r),
        ExprKind::Assign(t, v) => (*t, *v),
        ExprKind::AssignOp(_, t, v) => (*t, *v),
        ExprKind::Index(o, i) => (*o, *i),
        ExprKind::If(c, t, _) => (*c, *t),
        _ => (e, e),
    }
}

/// `[i]`.
pub open spec fn index_text(i: nat) -> Seq<char> {
    "["@ + decimal(i) + "]"@
}

/// Prints an expression: the check of its kind on the current value, then,
/// under fresh names, the checks of what it holds.
pub open spec fn print_expr(e: Expr, s: PrintState) -> PrintState
    decreases e, 1nat,
{
    print_expr_node(e, s.put("    if let Expr_::Expr"@), s.node())
}

/// The checks of expression `e`, once its prefix is written; `cur` is the
/// place of the value.
pub open spec fn print_expr_node(e: Expr, s: PrintState, cur: Seq<char>) -> PrintState
    decreases e, 0nat,
{
    match e.node {
        ExprKind::Box(inner) => {
            let p = s.fresh(Slot::Inner);
            let s1 = s.bump(Slot::Inner).put("Box(ref "@).put(p).put(") = "@).put(cur).put(",\n"@);
            print_expr(*inner, s1.at(p))
        },
        ExprKind::Array(es) => {
            let p = s.fresh(Slot::Elements);
            let s1 = s.bump(Slot::Elements).put("Array(ref "@).put(p).put(") = "@).put(cur).put(",\n"@);
            let s2 = s1.put("    if "@).put(p).put(".len() == "@).put(decimal(es@.len())).put(",\n"@);
            print_expr_list(p, es@, 0, s2)
        },
        ExprKind::Call(_, _) => s.put("Call(ref func, ref args) = "@).put(cur).put(",\n"@).put(
            "    // unimplemented: `ExprCall` is not further destructured at the moment\n"@,
        ),
        ExprKind::MethodCall(_, _) => s.put("MethodCall(ref method_name, ref generics, ref args) = "@).put(
            cur,
        ).put(",\n"@).put("    // unimplemented: `ExprMethodCall` is not further destructured at the moment\n"@),
        ExprKind::Tup(es) => {
            let p = s.fresh(Slot::Elements);
            let s1 = s.bump(Slot::Elements).put("Tup(ref "@).put(p).put(") = "@).put(cur).put(",\n"@);
            let s2 = s1.put("    if "@).put(p).put(".len() == "@).put(decimal(es@.len())).put(",\n"@);
            print_expr_list(p, es@, 0, s2)
        },
        ExprKind::Binary(op, l, r) => {
            let pl = s.fresh(Slot::Left);
            let s1 = s.bump(Slot::Left);
            let pr = s1.fresh(Slot::Right);
            let s2 = s1.bump(Slot::Right).put("Binary(BinOp::"@).put(binop_text(op)).put(", ref "@).put(pl).put(
                ", ref "@,
            ).put(pr).put(") = "@).put(cur).put(",\n"@);
            let s3 = print_expr(*l, s2.at(pl));
            print_expr(*r, s3.at(pr))
        },
        ExprKind::Unary(op, inner) => {
            let p = s.fresh(Slot::Inner);
            let s1 = s.bump(Slot::Inner).put("Unary(UnOp::"@).put(unop_text(op)).put(", ref "@).put(p).put(
                ") = "@,
            ).put(cur).put(",\n"@);
            print_expr(*inner, s1.at(p))
        },
        ExprKind::Lit(lit) => {
            let p = s.fresh(Slot::LitName);
            let s1 = s.bump(Slot::LitName).put("Lit(ref "@).put(p).put(") = "@).put(cur).put(",\n"@);
            print_lit(lit, p, s1)
        },
        ExprKind::Cast(inner, ty) => {
            let pc = s.fresh(Slot::ExprName);
            let s1 = s.bump(Slot::ExprName);
            let pt = s1.fresh(Slot::CastTy);
            let s2 = s1.bump(Slot::CastTy);
            let pq = s2.fresh(Slot::Qp);
            let s3 = s2.bump(Slot::Qp).put("Cast(ref "@).put(pc).put(", ref "@).put(pt).put(") = "@).put(cur).put(
                ",\n"@,
            );
            let s4 = match ty {
                Ty::Path(q) => print_qpath(
                    q,
                    s3.put("    if let Ty_::TyPath(ref "@).put(pq).put(") = "@).put(pt).put(".node,\n"@).at(pq),
                ),
                Ty::Other(_) => s3,
            };
            print_expr(*inner, s4.at(pc))
        },
        ExprKind::Type(inner, _) => {
            let p = s.fresh(Slot::ExprName);
            let s1 = s.bump(Slot::ExprName).put("Type(ref "@).put(p).put(", _) = "@).put(cur).put(",\n"@);
            print_expr(*inner, s1.at(p))
        },
        ExprKind::If(cond, then, opt_else) => {
            let pc = s.fresh(Slot::Cond);
            let s1 = s.bump(Slot::Cond);
            let pt = s1.fresh(Slot::Then);
            let s2 = s1.bump(Slot::Then);
            let s3 = match opt_else {
                Some(el) => {
                    let pe = s2.fresh(Slot::ElseName);
                    let s4 = s2.bump(Slot::ElseName).put("If(ref "@).put(pc).put(", ref "@).put(pt).put(
                        ", Some(ref "@,
                    ).put(pe).put(")) = "@).put(cur).put(",\n"@);
                    print_expr(*el, s4.at(pe))
                },
                None => s2.put("If(ref "@).put(pc).put(", ref "@).put(pt).put(", None) = "@).put(cur).put(
                    ",\n"@,
                ),
            };
            let s5 = print_expr(*cond, s3.at(pc));
            print_expr(*then, s5.at(pt))
        },
        ExprKind::While(cond, body) => {
            let pc = s.fresh(Slot::Cond);
            let s1 = s.bump(Slot::Cond);
            let pb = s1.fresh(Slot::Body);
            let s2 = s1.bump(Slot::Body);
            let pl = s2.fresh(Slot::Label);
            let s3 = s2.bump(Slot::Label).put("While(ref "@).put(pc).put(", ref "@).put(pb).put(", ref "@).put(
                pl,
            ).put(") = "@).put(cur).put(",\n"@);
            let s4 = print_expr(*cond, s3.at(pc));
            print_block(body, s4.at(pb))
        },
        ExprKind::Loop(body, src) => {
            let pb = s.fresh(Slot::Body);
            let s1 = s.bump(Slot::Body);
            let pl = s1.fresh(Slot::Label);
            let s2 = s1.bump(Slot::Label).put("Loop(ref "@).put(pb).put(", ref "@).put(pl).put(", "@).put(
                loop_source_text(src),
            ).put(") = "@).put(cur).put(",\n"@);
            print_block(body, s2.at(pb))
        },
        ExprKind::Match(scrutinee, arms, src) => {
            let pe = s.fresh(Slot::ExprName);
            let s1 = s.bump(Slot::ExprName);
            let pa = s1.fresh(Slot::Arms);
            let s2 = s1.bump(Slot::Arms).put("Match(ref "@).put(pe).put(", ref "@).put(pa).put(", "@).put(
                match_source_text(src),
            ).put(") = "@).put(cur).put(",\n"@);
            let s3 = print_expr(*scrutinee, s2.at(pe));
            let s4 = s3.put("    if "@).put(pa).put(".len() == "@).put(decimal(arms@.len())).put(",\n"@);
            print_arms(pa, arms@, 0, s4)
        },
        ExprKind::Closure => s.put("Closure(ref capture_clause, ref func, _, _, _) = "@).put(cur).put(",\n"@).put(
            "    // unimplemented: `ExprClosure` is not further destructured at the moment\n"@,
        ),
        ExprKind::Yield(sub) => {
            let p = s.fresh(Slot::Sub);
            let s1 = s.bump(Slot::Sub).put("Yield(ref sub) = "@).put(cur).put(",\n"@);
            print_expr(*sub, s1.at(p))
        },
        ExprKind::Block(block) => {
            let p = s.fresh(Slot::BlockName);
            let s1 = s.bump(Slot::BlockName).put("Block(ref "@).put(p).put(") = "@).put(cur).put(",\n"@);
            print_block(block, s1.at(p))
        },
        ExprKind::Assign(target, value) => {
            let pt = s.fresh(Slot::Target);
            let s1 = s.bump(Slot::Target);
            let pv = s1.fresh(Slot::Value);
            let s2 = s1.bump(Slot::Value).put("Assign(ref "@).put(pt).put(", ref "@).put(pv).put(") = "@).put(
                cur,
            ).put(",\n"@);
            let s3 = print_expr(*target, s2.at(pt));
            print_expr(*value, s3.at(pv))
        },
        ExprKind::AssignOp(op, target, value) => {
            let pt = s.fresh(Slot::Target);
            let s1 = s.bump(Slot::Target);
            let pv = s1.fresh(Slot::Value);
            let s2 = s1.bump(Slot::Value).put("AssignOp(BinOp::"@).put(binop_text(op)).put(", ref "@).put(pt).put(
                ", ref "@,
            ).put(pv).put(") = "@).put(cur).put(",\n"@);
            let s3 = print_expr(*target, s2.at(pt));
            print_expr(*value, s3.at(pv))
        },
        ExprKind::Field(object, name) => {
            let po = s.fresh(Slot::Object);
            let s1 = s.bump(Slot::Object);
            let pf = s1.fresh(Slot::FieldName);
            let s2 = s1.bump(Slot::FieldName).put("Field(ref "@).put(po).put(", ref "@).put(pf).put(") = "@).put(
                cur,
            ).put(",\n"@);
            let s3 = s2.put("    if "@).put(pf).put(".node.as_str() == "@).put(str_debug(name@)).put("\n"@);
            print_expr(*object, s3.at(po))
        },
        ExprKind::Index(object, index) => {
            let po = s.fresh(Slot::Object);
            let s1 = s.bump(Slot::Object);
            let pi = s1.fresh(Slot::IndexName);
            let s2 = s1.bump(Slot::IndexName).put("Index(ref "@).put(po).put(", ref "@).put(pi).put(") = "@).put(
                cur,
            ).put(",\n"@);
            let s3 = print_expr(*object, s2.at(po));
            print_expr(*index, s3.at(pi))
        },
        ExprKind::Path(_) => {
            let p = s.fresh(Slot::PathName);
            s.bump(Slot::PathName).put("Path(ref "@).put(p).put(") = "@).put(cur).put(",\n"@).at(p)
        },
        ExprKind::AddrOf(m, inner) => {
            let p = s.fresh(Slot::Inner);
            let s1 = s.bump(Slot::Inner).put("AddrOf("@).put(mutability_text(m)).put(", ref "@).put(p).put(
                ") = "@,
            ).put(cur).put(",\n"@);
            print_expr(*inner, s1.at(p))
        },
        ExprKind::Break(_, opt_value) => {
            let pd = s.fresh(Slot::Destination);
            let s1 = s.bump(Slot::Destination);
            match opt_value {
                Some(value) => {
                    let pv = s1.fresh(Slot::Value);
                    let s2 = s1.bump(Slot::Value).put("Break(ref "@).put(pd).put(", Some(ref "@).put(pv).put(
                        ")) = "@,
                    ).put(cur).put(",\n"@);
                    print_expr(*value, s2.at(pv))
                },
                None => s1.put("Break(ref "@).put(pd).put(", None) = "@).put(cur).put(",\n"@),
            }
        },
        ExprKind::Again(_) => {
            let pd = s.fresh(Slot::Destination);
            s.bump(Slot::Destination).put("Again(ref "@).put(pd).put(") = "@).put(cur).put(",\n"@)
        },
        ExprKind::Ret(opt_value) => match opt_value {
            Some(value) => {
                let pv = s.fresh(Slot::Value);
                let s1 = s.bump(Slot::Value).put("Ret(Some(ref "@).put(pv).put(")) = "@).put(cur).put(",\n"@);
                print_expr(*value, s1.at(pv))
            },
            None => s.put("Ret(None) = "@).put(cur).put(",\n"@),
        },
        ExprKind::InlineAsm => s.put("InlineAsm(_, ref input, ref output) = "@).put(cur).put(",\n"@).put(
            "    // unimplemented: `ExprInlineAsm` is not further destructured at the moment\n"@,
        ),
        ExprKind::Struct(path, fields, opt_base) => {
            let pp = s.fresh(Slot::PathName);
            let s1 = s.bump(Slot::PathName);
            let pf = s1.fresh(Slot::Fields);
            let s2 = s1.bump(Slot::Fields);
            let s3 = match opt_base {
                Some(base) => {
                    let pb = s2.fresh(Slot::Base);
                    let s4 = s2.bump(Slot::Base).put("Struct(ref "@).put(pp).put(", ref "@).put(pf).put(
                        ", Some(ref "@,
                    ).put(pb).put(")) = "@).put(cur).put(",\n"@);
                    print_expr(*base, s4.at(pb))
                },
                None => s2.put("Struct(ref "@).put(pp).put(", ref "@).put(pf).put(", None) = "@).put(cur).put(
                    ",\n"@,
                ),
            };
            let s5 = print_qpath(path, s3.at(pp));
            s5.put("    if "@).put(pf).put(".len() == "@).put(decimal(fields@.len())).put(",\n"@).put(
                "    // unimplemented: field checks\n"@,
            )
        },
        ExprKind::Repeat(value) => {
            let pv = s.fresh(Slot::Value);
            let s1 = s.bump(Slot::Value).put("Repeat(ref "@).put(pv).put(", _) = "@).put(cur).put(",\n"@).put(
                "// unimplemented: repeat count check\n"@,
            );
            print_expr(*value, s1.at(pv))
        },
    }
}

/// The checks of literal `lit`, bound to the name `p`.
pub open spec fn print_lit(lit: Lit, p: Seq<char>, s: PrintState) -> PrintState {
    match lit {
        Lit::Bool(v) => s.put("    if let LitKind::Bool("@).put(bool_text(v)).put(") = "@).put(p).put(".node,\n"@),
        Lit::Char(c) => s.put("    if let LitKind::Char("@).put(char_debug(c)).put(") = "@).put(p).put(
            ".node,\n"@,
        ),
        Lit::Byte(b) => s.put("    if let LitKind::Byte("@).put(decimal(b as nat)).put(") = "@).put(p).put(
            ".node,\n"@,
        ),
        Lit::Int(i) => s.put("    if let LitKind::Int("@).put(decimal(i as nat)).put(", _) = "@).put(p).put(
            ".node,\n"@,
        ),
        Lit::Float => s.put("    if let LitKind::Float(..) = "@).put(p).put(".node,\n"@),
        Lit::FloatUnsuffixed => s.put("    if let LitKind::FloatUnsuffixed(_) = "@).put(p).put(".node,\n"@),
        Lit::ByteStr(v) => {
            let pv = s.fresh(Slot::VecName);
            s.bump(Slot::VecName).put("    if let LitKind::ByteStr(ref "@).put(pv).put(") = "@).put(p).put(
                ".node,\n"@,
            ).put("    if let ["@).put(bytes_text(v@)).put("] = **"@).put(pv).put(",\n"@)
        },
        Lit::Str(t) => {
            let ps = s.fresh(Slot::StrName);
            s.bump(Slot::StrName).put("    if let LitKind::Str(ref "@).put(ps).put(") = "@).put(p).put(
                ".node,\n"@,
            ).put("    if "@).put(ps).put(".as_str() == "@).put(str_debug(t@)).put("\n"@)
        },
    }
}

/// Prints the expressions of `es` from `i` on, each destructured as
/// `base[i]`.
pub open spec fn print_expr_list(base: Seq<char>, es: Seq<Expr>, i: nat, s: PrintState) -> PrintState
    decreases es, es.len() - i,
{
    if i >= es.len() {
        s
    } else {
        let s1 = print_expr(es[i as int], s.at(base + index_text(i)));
        print_expr_list(base, es, i + 1, s1)
    }
}

/// Prints the arms of `arms` from `i` on: each body, guard and the
/// patterns.
pub open spec fn print_arms(pa: Seq<char>, arms: Seq<Arm>, i: nat, s: PrintState) -> PrintState
    decreases arms, arms.len() - i,
{
    if i >= arms.len() {
        s
    } else {
        let arm = arms[i as int];
        let s1 = print_expr(*arm.body, s.at(pa + index_text(i) + ".body"@));
        let s2 = match arm.guard {
            Some(g) => {
                let pg = s1.fresh(Slot::Guard);
                let s3 = s1.bump(Slot::Guard).put("    if let Some(ref "@).put(pg).put(") = "@).put(pa).put(
                    index_text(i),
                ).put(".guard\n"@);
                print_expr(*g, s3.at(pg))
            },
            None => s1,
        };
        let s4 = s2.put("    if "@).put(pa).put(index_text(i)).put(".pats.len() == "@).put(
            decimal(arm.pats@.len()),
        ).put(",\n"@);
        let s5 = print_arm_pats(pa, i, arm.pats@, 0, s4);
        print_arms(pa, arms, i + 1, s5)
    }
}

/// Prints the patterns of arm `i` from `j` on.
pub open spec fn print_arm_pats(pa: Seq<char>, i: nat, ps: Seq<Pat>, j: nat, s: PrintState) -> PrintState
    decreases ps, ps.len() - j,
{
    if j >= ps.len() {
        s
    } else {
        let s1 = print_pat(ps[j as int], s.at(pa + index_text(i) + ".pats"@ + index_text(j)));
        print_arm_pats(pa, i, ps, j + 1, s1)
    }
}

/// Prints the patterns of `ps` from `i` on, each destructured as `base[i]`.
pub open spec fn print_pat_list(base: Seq<char>, ps: Seq<Pat>, i: nat, s: PrintState) -> PrintState
    decreases ps, ps.len() - i,
{
    if i >= ps.len() {
        s
    } else {
        let s1 = print_pat(ps[i as int], s.at(base + index_text(i)));
        print_pat_list(base, ps, i + 1, s1)
    }
}

/// Prints a pattern: the check of its kind on the current value, then what
/// it holds.
pub open spec fn print_pat(p: Pat, s: PrintState) -> PrintState
    decreases p, 1nat,
{
    let cur = s.node();
    let s0 = s.put("    if let PatKind::"@);
    match p {
        Pat::Wild => s0.put("Wild = "@).put(cur).put(",\n"@),
        Pat::Binding(anno, name, sub) => {
            let pn = s0.fresh(Slot::Name);
            let s1 = s0.bump(Slot::Name);
            let s2 = match sub {
                Some(sp) => {
                    let ps = s1.fresh(Slot::Sub);
                    let s3 = s1.bump(Slot::Sub).put("Binding("@).put(annotation_text(anno)).put(", _, "@).put(
                        pn,
                    ).put(", Some(ref "@).put(ps).put(")) = "@).put(cur).put(",\n"@);
                    print_pat(*sp, s3.at(ps))
                },
                None => s1.put("Binding("@).put(annotation_text(anno)).put(", _, "@).put(pn).put(", None) = "@).put(
                    cur,
                ).put(",\n"@),
            };
            s2.put("    if "@).put(pn).put(".node.as_str() == \""@).put(name@).put("\",\n"@)
        },
        Pat::Struct(path, fields, ignore) => {
            let pp = s0.fresh(Slot::PathName);
            let s1 = s0.bump(Slot::PathName);
            let pf = s1.fresh(Slot::Fields);
            let s2 = s1.bump(Slot::Fields).put("Struct(ref "@).put(pp).put(", ref "@).put(pf).put(", "@).put(
                bool_text(ignore),
            ).put(") = "@).put(cur).put(",\n"@);
            let s3 = print_qpath(path, s2.at(pp));
            s3.put("    if "@).put(pf).put(".len() == "@).put(decimal(fields@.len())).put(",\n"@).put(
                "    // unimplemented: field checks\n"@,
            )
        },
        Pat::TupleStruct(path, fields, skip) => {
            let pp = s0.fresh(Slot::PathName);
            let s1 = s0.bump(Slot::PathName);
            let pf = s1.fresh(Slot::Fields);
            let s2 = s1.bump(Slot::Fields).put("TupleStruct(ref "@).put(pp).put(", ref "@).put(pf).put(", "@).put(
                opt_usize_text(skip),
            ).put(") = "@).put(cur).put(",\n"@);
            let s3 = print_qpath(path, s2.at(pp));
            s3.put("    if "@).put(pf).put(".len() == "@).put(decimal(fields@.len())).put(",\n"@).put(
                "    // unimplemented: field checks\n"@,
            )
        },
        Pat::Path(path) => {
            let pp = s0.fresh(Slot::PathName);
            let s1 = s0.bump(Slot::PathName).put("Path(ref "@).put(pp).put(") = "@).put(cur).put(",\n"@);
            print_qpath(path, s1.at(pp))
        },
        Pat::Tuple(fields, skip) => {
            let pf = s0.fresh(Slot::Fields);
            s0.bump(Slot::Fields).put("Tuple(ref "@).put(pf).put(", "@).put(opt_usize_text(skip)).put(
                ") = "@,
            ).put(cur).put(",\n"@).put("    if "@).put(pf).put(".len() == "@).put(decimal(fields@.len())).put(
                ",\n"@,
            ).put("    // unimplemented: field checks\n"@)
        },
        Pat::Box(inner) => {
            let pp = s0.fresh(Slot::PatName);
            let s1 = s0.bump(Slot::PatName).put("Box(ref "@).put(pp).put(") = "@).put(cur).put(",\n"@);
            print_pat(*inner, s1.at(pp))
        },
        Pat::Ref(inner, m) => {
            let pp = s0.fresh(Slot::PatName);
            let s1 = s0.bump(Slot::PatName).put("Ref(ref "@).put(pp).put(", Mutability::"@).put(
                mutability_text(m),
            ).put(") = "@).put(cur).put(",\n"@);
            print_pat(*inner, s1.at(pp))
        },
        Pat::Lit(e) => {
            let pl = s0.fresh(Slot::LitExpr);
            let s1 = s0.bump(Slot::LitExpr).put("Lit(ref "@).put(pl).put(") = "@).put(cur).put("\n"@);
            print_expr(*e, s1.at(pl))
        },
        Pat::Range(start, end, end_kind) => {
            let ps = s0.fresh(Slot::Start);
            let s1 = s0.bump(Slot::Start);
            let pe = s1.fresh(Slot::End);
            let s2 = s1.bump(Slot::End).put("Range(ref "@).put(ps).put(", ref "@).put(pe).put(", RangeEnd::"@).put(
                range_end_text(end_kind),
            ).put(") = "@).put(cur).put(",\n"@);
            let s3 = print_expr(*start, s2.at(ps));
            print_expr(*end, s3.at(pe))
        },
        Pat::Slice(start, middle, end) => {
            let ps = s0.fresh(Slot::Start);
            let s1 = s0.bump(Slot::Start);
            let pe = s1.fresh(Slot::End);
            let s2 = s1.bump(Slot::End);
            let s3 = match middle {
                Some(m) => {
                    let pm = s2.fresh(Slot::Middle);
                    let s4 = s2.bump(Slot::Middle).put("Slice(ref "@).put(ps).put(", Some(ref "@).put(pm).put(
                        "), ref "@,
                    ).put(pe).put(") = "@).put(cur).put(",\n"@);
                    print_pat(*m, s4.at(pm))
                },
                None => s2.put("Slice(ref "@).put(ps).put(", None, ref "@).put(pe).put(") = "@).put(cur).put(
                    ",\n"@,
                ),
            };
            let s5 = s3.put("    if "@).put(ps).put(".len() == "@).put(decimal(start@.len())).put(",\n"@);
            let s6 = print_pat_list(ps, start@, 0, s5);
            let s7 = s6.put("    if "@).put(pe).put(".len() == "@).put(decimal(end@.len())).put(",\n"@);
            print_pat_list(pe, end@, 0, s7)
        },
    }
}

/// Prints a statement.
pub open spec fn print_stmt(st: Stmt, s: PrintState) -> PrintState
    decreases st, 1nat,
{
    let cur = s.node();
    let s0 = s.put("    if let Stmt_::"@);
    match st {
        Stmt::Decl(decl) => {
            let pd = s0.fresh(Slot::DeclName);
            let s1 = s0.bump(Slot::DeclName).put("StmtDecl(ref "@).put(pd).put(", _) = "@).put(cur).put("\n"@).put(
                "    if let Decl_::"@,
            );
            let cur2 = pd + ".node"@;
            match decl {
                Decl::Local(local) => {
                    let pl = s1.fresh(Slot::LocalName);
                    let s2 = s1.bump(Slot::LocalName).put("DeclLocal(ref "@).put(pl).put(") = "@).put(cur2).put(
                        ",\n"@,
                    );
                    let s3 = match local.init {
                        Some(init) => {
                            let pi = s2.fresh(Slot::Init);
                            let s4 = s2.bump(Slot::Init).put("    if let Some(ref "@).put(pi).put(") = "@).put(
                                pl,
                            ).put(".init\n"@);
                            print_expr(*init, s4.at(pi))
                        },
                        None => s2,
                    };
                    print_pat(local.pat, s3.at(pl + ".pat"@))
                },
                Decl::Item(_) => s1.put("DeclItem(item_id) = "@).put(cur2).put(",\n"@),
            }
        },
        Stmt::Expr(e) => {
            let pe = s0.fresh(Slot::E);
            let s1 = s0.bump(Slot::E).put("StmtExpr(ref "@).put(pe).put(", _) = "@).put(cur).put("\n"@);
            print_expr(*e, s1.at(pe))
        },
        Stmt::Semi(e) => {
            let pe = s0.fresh(Slot::E);
            let s1 = s0.bump(Slot::E).put("StmtSemi(ref "@).put(pe).put(", _) = "@).put(cur).put("\n"@);
            print_expr(*e, s1.at(pe))
        },
    }
}

/// Prints the statements of `ss` from `i` on.
pub open spec fn print_stmt_list(ss: Seq<Stmt>, i: nat, s: PrintState) -> PrintState
    decreases ss, ss.len() - i,
{
    if i >= ss.len() {
        s
    } else {
        print_stmt_list(ss, i + 1, print_stmt(ss[i as int], s))
    }
}

/// Prints a block: its statements, then its final expression.
pub open spec fn print_block(b: Block, s: PrintState) -> PrintState
    decreases b, 1nat,
{
    let s1 = print_stmt_list(b.stmts@, 0, s);
    match b.expr {
        Some(e) => print_expr(*e, s1),
        None => s1,
    }
}

impl Slot {
    /// The position of the slot among the counters.
    pub fn index(self) -> (r: usize)
        ensures
            r as int == slot_index(self),
    {
        match self {
            Slot::Inner => 0,
            Slot::Elements => 1,
            Slot::Op => 2,
            Slot::Left => 3,
            Slot::Right => 4,
            Slot::LitName => 5,
            Slot::VecName => 6,
            Slot::StrName => 7,
            Slot::ExprName => 8,
            Slot::CastTy => 9,
            Slot::Qp => 10,
            Slot::Cond => 11,
            Slot::Then => 12,
            Slot::ElseName => 13,
            Slot::Body => 14,
            Slot::Label => 15,
            Slot::Arms => 16,
            Slot::Guard => 17,
            Slot::Sub => 18,
            Slot::BlockName => 19,
            Slot::Target => 20,
            Slot::Value => 21,
            Slot::Object => 22,
            Slot::FieldName => 23,
            Slot::IndexName => 24,
            Slot::PathName => 25,
            Slot::Fields => 26,
            Slot::Base => 27,
            Slot::Destination => 28,
            Slot::Name => 29,
            Slot::Start => 30,
            Slot::End => 31,
            Slot::Middle => 32,
            Slot::PatName => 33,
            Slot::LitExpr => 34,
            Slot::DeclName => 35,
            Slot::LocalName => 36,
            Slot::Init => 37,
            Slot::E => 38,
        }
    }

    /// The name the slot binds before it is numbered.
    pub fn text(self) -> (r: &'static str)
        ensures
            r@ == slot_text(self),
    {
        match self {
            Slot::Inner => "inner",
            Slot::Elements => "elements",
            Slot::Op => "op",
            Slot::Left => "left",
            Slot::Right => "right",
            Slot::LitName => "lit",
            Slot::VecName => "vec",
            Slot::StrName => "s",
            Slot::ExprName => "expr",
            Slot::CastTy => "cast_ty",
            Slot::Qp => "qp",
            Slot::Cond => "cond",
            Slot::Then => "then",
            Slot::ElseName => "else_",
            Slot::Body => "body",
            Slot::Label => "label",
            Slot::Arms => "arms",
            Slot::Guard => "guard",
            Slot::Sub => "sub",
            Slot::BlockName => "block",
            Slot::Target => "target",
            Slot::Value => "value",
            Slot::Object => "object",
            Slot::FieldName => "field_name",
            Slot::IndexName => "index",
            Slot::PathName => "path",
            Slot::Fields => "fields",
            Slot::Base => "base",
            Slot::Destination => "destination",
            Slot::Name => "name",
            Slot::Start => "start",
            Slot::End => "end",
            Slot::Middle => "middle",
            Slot::PatName => "pat",
            Slot::LitExpr => "lit_expr",
            Slot::DeclName => "decl",
            Slot::LocalName => "local",
            Slot::Init => "init",
            Slot::E => "e",
        }
    }
}

/// Every counter in `ids` can still grow by `n`.
pub open spec fn room(ids: Seq<usize>, n: nat) -> bool {
    &&& ids.len() == SLOT_COUNT
    &&& forall|k: int| 0 <= k < SLOT_COUNT ==> #[trigger] ids[k] + n <= usize::MAX
}

/// No counter of `new` grew by more than `n` from `old`.
pub open spec fn within(new: Seq<usize>, old: Seq<usize>, n: nat) -> bool {
    &&& new.len() == SLOT_COUNT
    &&& forall|k: int| 0 <= k < SLOT_COUNT ==> #[trigger] new[k] <= old[k] + n
}

/// Growth adds up.
pub proof fn lemma_within_trans(a: Seq<usize>, b: Seq<usize>, c: Seq<usize>, n: nat, m: nat)
    requires
        within(b, a, n),
        within(c, b, m),
    ensures
        within(c, a, n + m),
{
    assert forall|k: int| 0 <= k < SLOT_COUNT implies #[trigger] c[k] <= a[k] + n + m by {
        assert(b[k] <= a[k] + n);
    }
}

/// What is left of the room after some growth.
pub proof fn lemma_room_left(a: Seq<usize>, b: Seq<usize>, n: nat, m: nat)
    requires
        room(a, n + m),
        within(b, a, n),
    ensures
        room(b, m),
{
    assert forall|k: int| 0 <= k < SLOT_COUNT implies #[trigger] b[k] + m <= usize::MAX by {
        assert(a[k] + n + m <= usize::MAX);
    }
}

/// Room shrinks with the amount asked.
pub proof fn lemma_room_less(a: Seq<usize>, n: nat, m: nat)
    requires
        room(a, n),
        m <= n,
    ensures
        room(a, m),
{
    assert forall|k: int| 0 <= k < SLOT_COUNT implies #[trigger] a[k] + m <= usize::MAX by {
        assert(a[k] + n <= usize::MAX);
    }
}

/// Growth within a bound is within a larger bound.
pub proof fn lemma_within_more(new: Seq<usize>, old: Seq<usize>, n: nat, m: nat)
    requires
        within(new, old, n),
        n <= m,
    ensures
        within(new, old, m),
{
    assert forall|k: int| 0 <= k < SLOT_COUNT implies #[trigger] new[k] <= old[k] + m by {
        assert(new[k] <= old[k] + n);
    }
}

/// A string that is `base[i]`.
fn indexed(base: &String, i: usize) -> (r: String)
    ensures
        r@ == base@ + index_text(i as nat),
{
    let mut r = base.clone();
    r.append("[");
    let d = to_decimal(i as u128);
    r.append(d.as_str());
    r.append("]");
    proof {
        assert(r@ =~= base@ + index_text(i as nat));
    }
    r
}

/// `base` followed by `t`.
fn joined(base: &String, t: &str) -> (r: String)
    ensures
        r@ == base@ + t@,
{
    let mut r = base.clone();
    r.append(t);
    r
}

/// Writes the debug text of a boolean.
fn bool_str(b: bool) -> (r: &'static str)
    ensures
        r@ == bool_text(b),
{
    if b {
        "true"
    } else {
        "false"
    }
}

/// The name of a binary operator as a variant of `BinOp`.
pub fn binop_str(op: BinOpKind) -> (r: &'static str)
    ensures
        r@ == binop_text(op),
{
    match op {
        BinOpKind::BiAdd => "Add",
        BinOpKind::BiSub => "Sub",
        BinOpKind::BiMul => "Mul",
        BinOpKind::BiDiv => "Div",
        BinOpKind::BiRem => "Rem",
        BinOpKind::BiAnd => "And",
        BinOpKind::BiOr => "Or",
        BinOpKind::BiBitXor => "BitXor",
        BinOpKind::BiBitAnd => "BitAnd",
        BinOpKind::BiBitOr => "BitOr",
        BinOpKind::BiShl => "Shl",
        BinOpKind::BiShr => "Shr",
        BinOpKind::BiEq => "Eq",
        BinOpKind::BiLt => "Lt",
        BinOpKind::BiLe => "Le",
        BinOpKind::BiNe => "Ne",
        BinOpKind::BiGe => "Ge",
        BinOpKind::BiGt => "Gt",
    }
}

/// The debug text of a unary operator.
fn unop_str(op: UnOpKind) -> (r: &'static str)
    ensures
        r@ == unop_text(op),
{
    match op {
        UnOpKind::UnDeref => "UnDeref",
        UnOpKind::UnNot => "UnNot",
        UnOpKind::UnNeg => "UnNeg",
    }
}

/// The debug text of a mutability.
fn mutability_str(m: Mutability) -> (r: &'static str)
    ensures
        r@ == mutability_text(m),
{
    match m {
        Mutability::MutMutable => "MutMutable",
        Mutability::MutImmutable => "MutImmutable",
    }
}

/// The debug text of a range end.
fn range_end_str(r: RangeEnd) -> (t: &'static str)
    ensures
        t@ == range_end_text(r),
{
    match r {
        RangeEnd::Included => "Included",
        RangeEnd::Excluded => "Excluded",
    }
}

/// The pattern text of a binding annotation.
fn annotation_str(a: BindingAnnotation) -> (r: &'static str)
    ensures
        r@ == annotation_text(a),
{
    match a {
        BindingAnnotation::Unannotated => "BindingAnnotation::Unannotated",
        BindingAnnotation::Mutable => "BindingAnnotation::Mutable",
        BindingAnnotation::Ref => "BindingAnnotation::Ref",
        BindingAnnotation::RefMut => "BindingAnnotation::RefMut",
    }
}

/// The pattern text of a `match` source.
pub fn desugaring_name(des: MatchSource) -> (r: String)
    ensures
        r@ == match_source_text(des),
{
    match des {
        MatchSource::ForLoopDesugar => String::from_str("MatchSource::ForLoopDesugar"),
        MatchSource::TryDesugar => String::from_str("MatchSource::TryDesugar"),
        MatchSource::WhileLetDesugar => String::from_str("MatchSource::WhileLetDesugar"),
        MatchSource::Normal => String::from_str("MatchSource::Normal"),
        MatchSource::IfLetDesugar { contains_else_clause } => {
            let mut r = String::from_str("MatchSource::IfLetDesugar { contains_else_clause: ");
            r.append(bool_str(contains_else_clause));
            r.append(" }");
            r
        },
    }
}

/// The pattern text of a `loop` source.
pub fn loop_desugaring_name(des: LoopSource) -> (r: &'static str)
    ensures
        r@ == loop_source_text(des),
{
    match des {
        LoopSource::ForLoop => "LoopSource::ForLoop",
        LoopSource::Loop => "LoopSource::Loop",
        LoopSource::WhileLet => "LoopSource::WhileLet",
    }
}

/// The debug text of an optional position.
fn opt_usize_str(o: Option<usize>) -> (r: String)
    ensures
        r@ == opt_usize_text(o),
{
    match o {
        Some(n) => {
            let mut r = String::from_str("Some(");
            let d = to_decimal(n as u128);
            r.append(d.as_str());
            r.append(")");
            proof {
                assert(r@ =~= opt_usize_text(o));
            }
            r
        },
        None => String::from_str("None"),
    }
}

/// The debug text of a list of bytes.
fn bytes_str(v: &Vec<u8>) -> (r: String)
    ensures
        r@ == bytes_text(v@),
{
    let mut r = String::from_str("[");
    let mut i: usize = 0;
    while i < v.len()
        invariant
            i <= v@.len(),
            r@ == "["@ + joined_bytes(v@.take(i as int)),
        decreases v@.len() - i,
    {
        let d = to_decimal(v[i] as u128);
        if i > 0 {
            r.append(", ");
        }
        r.append(d.as_str());
        proof {
            assert(v@.take(i + 1).drop_last() =~= v@.take(i as int));
            if i == 0 {
                assert(joined_bytes(v@.take(0)) =~= Seq::<char>::empty());
            }
        }
        i = i + 1;
    }
    r.append("]");
    proof {
        assert(v@.take(v@.len() as int) =~= v@);
    }
    r
}

/// Writes the names of a path, each in debug text, separated by `, `;
/// `first` says that nothing was written before them and is cleared once
/// something is.
pub fn print_path(path: &QPath, first: &mut bool, out: &mut String)
    ensures
        final(out)@ == old(out)@ + path_text(*path, *old(first)).0,
        *final(first) == path_text(*path, *old(first)).1,
    decreases path,
{
    match path {
        QPath::Resolved(_, resolved) => {
            let segs = &resolved.segments;
            let ghost first0 = *first;
            let ghost out0 = out@;
            let mut i: usize = 0;
            proof {
                assert(segs@.take(0) =~= Seq::<String>::empty());
                assert(out@ =~= out0 + segments_text(segs@.take(0), first0).0);
            }
            while i < segs.len()
                invariant
                    i <= segs@.len(),
                    out@ == out0 + segments_text(segs@.take(i as int), first0).0,
                    *first == segments_text(segs@.take(i as int), first0).1,
                decreases segs@.len() - i,
            {
                proof {
                    assert(segs@.take(i + 1).drop_last() =~= segs@.take(i as int));
                }
                if *first {
                    *first = false;
                } else {
                    out.append(", ");
                }
                let d = debug_str(segs[i].as_str());
                out.append(d.as_str());
                proof {
                    let t = segments_text(segs@.take(i as int), first0).0;
                    assert(out@ =~= out0 + segments_text(segs@.take(i + 1), first0).0);
                }
                i = i + 1;
            }
            proof {
                assert(segs@.take(segs@.len() as int) =~= segs@);
            }
        },
        QPath::TypeRelative(ty, seg) => match &**ty {
            Ty::Path(inner) => {
                let ghost out0 = out@;
                print_path(inner, first, out);
                if *first {
                    *first = false;
                } else {
                    out.append(", ");
                }
                let d = debug_str(seg.as_str());
                out.append(d.as_str());
                proof {
                    assert(out@ =~= out0 + path_text(*path, *old(first)).0);
                }
            },
            Ty::Other(d) => {
                let ghost out0 = out@;
                out.append("/* unimplemented: ");
                out.append(d.as_str());
                out.append("*/");
                proof {
                    assert(out@ =~= out0 + path_text(*path, *old(first)).0);
                }
            },
        },
    }
}

/// A printer of the checks that match a tree: it counts the names it
/// gave, knows the value being destructured and keeps what it wrote.
pub struct PrintVisitor {
    pub ids: Vec<usize>,
    pub current: String,
    pub out: String,
}

impl PrintVisitor {
    /// The printer as a state.
    pub open spec fn state(&self) -> PrintState {
        PrintState { ids: self.ids@, current: self.current@, out: self.out@ }
    }

    /// A printer that destructures `s` and has written nothing.
    pub fn new(s: &str) -> (r: Self)
        ensures
            r.state() == PrintState::start(s@),
    {
        let mut ids: Vec<usize> = Vec::new();
        let mut i: usize = 0;
        while i < SLOT_COUNT
            invariant
                i <= SLOT_COUNT,
                ids@ == Seq::new(i as nat, |j: int| 0usize),
            decreases SLOT_COUNT - i,
        {
            ids.push(0);
            proof {
                assert(ids@ =~= Seq::new((i + 1) as nat, |j: int| 0usize));
            }
            i = i + 1;
        }
        PrintVisitor { ids, current: String::from_str(s), out: String::new() }
    }

    /// Writes `t`.
    pub fn put(&mut self, t: &str)
        ensures
            final(self).state() == old(self).state().put(t@),
    {
        self.out.append(t);
    }

    /// The name slot `k` gives now; counts the use.
    pub fn next(&mut self, k: Slot) -> (r: String)
        requires
            old(self).ids@.len() == SLOT_COUNT,
            old(self).ids@[slot_index(k)] < usize::MAX,
        ensures
            r@ == old(self).state().fresh(k),
            final(self).state() == old(self).state().bump(k),
    {
        let i = k.index();
        let n = self.ids[i];
        self.ids.set(i, n + 1);
        let mut r = String::from_str(k.text());
        if n > 0 {
            let d = to_decimal(n as u128);
            r.append(d.as_str());
        }
        r
    }

    /// The place of the value being destructured: `current.node`.
    fn node(&self) -> (r: String)
        ensures
            r@ == self.state().node(),
    {
        joined(&self.current, ".node")
    }

    /// Writes the check that the current value is the path `path`.
    fn print_qpath(&mut self, path: &QPath)
        ensures
            final(self).state() == print_qpath(*path, old(self).state()),
    {
        self.put("    if match_qpath(");
        let c = self.current.clone();
        self.put(c.as_str());
        self.put(", &[");
        let mut first = true;
        print_path(path, &mut first, &mut self.out);
        self.put("]),\n");
    }

    /// Writes the checks of literal `lit`, bound to `p`.
    fn visit_lit(&mut self, lit: &Lit, p: &String)
        requires
            old(self).ids@.len() == SLOT_COUNT,
            old(self).ids@[slot_index(Slot::VecName)] < usize::MAX,
            old(self).ids@[slot_index(Slot::StrName)] < usize::MAX,
        ensures
            final(self).state() == print_lit(*lit, p@, old(self).state()),
    {
        match lit {
            Lit::Bool(v) => {
                self.put("    if let LitKind::Bool(");
                self.put(bool_str(*v));
                self.put(") = ");
                self.put(p.as_str());
                self.put(".node,\n");
            },
            Lit::Char(c) => {
                self.put("    if let LitKind::Char(");
                let d = debug_char(*c);
                self.put(d.as_str());
                self.put(") = ");
                self.put(p.as_str());
                self.put(".node,\n");
            },
            Lit::Byte(b) => {
                self.put("    if let LitKind::Byte(");
                let d = to_decimal(*b as u128);
                self.put(d.as_str());
                self.put(") = ");
                self.put(p.as_str());
                self.put(".node,\n");
            },
            Lit::Int(i) => {
                self.put("    if let LitKind::Int(");
                let d = to_decimal(*i);
                self.put(d.as_str());
                self.put(", _) = ");
                self.put(p.as_str());
                self.put(".node,\n");
            },
            Lit::Float => {
                self.put("    if let LitKind::Float(..) = ");
                self.put(p.as_str());
                self.put(".node,\n");
            },
            Lit::FloatUnsuffixed => {
                self.put("    if let LitKind::FloatUnsuffixed(_) = ");
                self.put(p.as_str());
                self.put(".node,\n");
            },
            Lit::ByteStr(v) => {
                let pv = self.next(Slot::VecName);
                self.put("    if let LitKind::ByteStr(ref ");
                self.put(pv.as_str());
                self.put(") = ");
                self.put(p.as_str());
                self.put(".node,\n");
                self.put("    if let [");
                let b = bytes_str(v);
                self.put(b.as_str());
                self.put("] = **");
                self.put(pv.as_str());
                self.put(",\n");
            },
            Lit::Str(t) => {
                let ps = self.next(Slot::StrName);
                self.put("    if let LitKind::Str(ref ");
                self.put(ps.as_str());
                self.put(") = ");
                self.put(p.as_str());
                self.put(".node,\n");
                self.put("    if ");
                self.put(ps.as_str());
                self.put(".as_str() == ");
                let d = debug_str(t.as_str());
                self.put(d.as_str());
                self.put("\n");
            },
        }
    }

    /// Writes the checks of the expressions that hold no other expression.
    fn visit_leaf(&mut self, e: &Expr, cur: &String)
        requires
            room(old(self).ids@, expr_size(*e)),
            e.node is Call || e.node is MethodCall || e.node is Closure || e.node is InlineAsm
                || e.node is Again || e.node is Lit || e.node is Path,
        ensures
            final(self).state() == print_expr_node(*e, old(self).state(), cur@),
            within(final(self).ids@, old(self).ids@, expr_size(*e)),
    {
        match &e.node {
            ExprKind::Call(_, _) => {
                self.put("Call(ref func, ref args) = ");
                self.put(cur.as_str());
                self.put(",\n");
                self.put("    // unimplemented: `ExprCall` is not further destructured at the moment\n");
            },
            ExprKind::MethodCall(_, _) => {
                self.put("MethodCall(ref method_name, ref generics, ref args) = ");
                self.put(cur.as_str());
                self.put(",\n");
                self.put("    // unimplemented: `ExprMethodCall` is not further destructured at the moment\n");
            },
            ExprKind::Closure => {
                self.put("Closure(ref capture_clause, ref func, _, _, _) = ");
                self.put(cur.as_str());
                self.put(",\n");
                self.put("    // unimplemented: `ExprClosure` is not further destructured at the moment\n");
            },
            ExprKind::InlineAsm => {
                self.put("InlineAsm(_, ref input, ref output) = ");
                self.put(cur.as_str());
                self.put(",\n");
                self.put("    // unimplemented: `ExprInlineAsm` is not further destructured at the moment\n");
            },
            ExprKind::Again(_) => {
                let pd = self.next(Slot::Destination);
                self.put("Again(ref ");
                self.put(pd.as_str());
                self.put(") = ");
                self.put(cur.as_str());
                self.put(",\n");
            },
            ExprKind::Lit(lit) => {
                let p = self.next(Slot::LitName);
                self.put("Lit(ref ");
                self.put(p.as_str());
                self.put(") = ");
                self.put(cur.as_str());
                self.put(",\n");
                self.visit_lit(lit, &p);
            },
            ExprKind::Path(_) => {
                let p = self.next(Slot::PathName);
                self.put("Path(ref ");
                self.put(p.as_str());
                self.put(") = ");
                self.put(cur.as_str());
                self.put(",\n");
                self.current = p;
            },
            _ => {},
        }
    }
}

impl PrintVisitor {
    /// Writes the checks that match expression `e` as the current value.
    pub fn visit_expr(&mut self, e: &Expr)
        requires
            room(old(self).ids@, expr_size(*e)),
        ensures
            final(self).state() == print_expr(*e, old(self).state()),
            within(final(self).ids@, old(self).ids@, expr_size(*e)),
        decreases e, 2nat,
    {
        let cur = self.node();
        self.put("    if let Expr_::Expr");
        match &e.node {
            ExprKind::Call(_, _) | ExprKind::MethodCall(_, _) | ExprKind::Closure | ExprKind::InlineAsm
            | ExprKind::Again(_) | ExprKind::Lit(_) | ExprKind::Path(_) => self.visit_leaf(e, &cur),
            ExprKind::Box(_) | ExprKind::Unary(_, _) | ExprKind::Type(_, _) | ExprKind::Yield(_)
            | ExprKind::AddrOf(_, _) | ExprKind::Repeat(_) | ExprKind::Ret(_) | ExprKind::Break(_, _)
            | ExprKind::Field(_, _) | ExprKind::Block(_) | ExprKind::Loop(_, _) => self.visit_one(e, &cur),
            ExprKind::Binary(_, _, _) | ExprKind::Assign(_, _) | ExprKind::AssignOp(_, _, _)
            | ExprKind::Index(_, _) => self.visit_two(e, &cur),
            ExprKind::If(_, _, _) | ExprKind::While(_, _) | ExprKind::Cast(_, _) => self.visit_branching(e, &cur),
            ExprKind::Array(_) | ExprKind::Tup(_) | ExprKind::Match(_, _, _) | ExprKind::Struct(_, _, _) => {
                self.visit_many(e, &cur)
            },
        }
    }

    /// Writes the checks of the expressions that hold one expression or
    /// block.
    fn visit_one(&mut self, e: &Expr, cur: &String)
        requires
            room(old(self).ids@, expr_size(*e)),
            e.node is Box || e.node is Unary || e.node is Type || e.node is Yield || e.node is AddrOf
                || e.node is Repeat || e.node is Ret || e.node is Break || e.node is Field
                || e.node is Block || e.node is Loop,
        ensures
            final(self).state() == print_expr_node(*e, old(self).state(), cur@),
            within(final(self).ids@, old(self).ids@, expr_size(*e)),
        decreases e, 1nat,
    {
        let ghost ids0 = self.ids@;
        match &e.node {
            ExprKind::Box(inner) => {
                let p = self.next(Slot::Inner);
                self.put("Box(ref ");
                self.put(p.as_str());
                self.put(") = ");
                self.put(cur.as_str());
                self.put(",\n");
                self.current = p;
                proof {
                    lemma_room_left(ids0, self.ids@, 1, expr_size(**inner));
                }
                let ghost ids1 = self.ids@;
                self.visit_expr(inner);
                proof {
                    lemma_within_trans(ids0, ids1, self.ids@, 1, expr_size(**inner));
                }
            },
            ExprKind::Unary(op, inner) => {
                let p = self.next(Slot::Inner);
                self.put("Unary(UnOp::");
                self.put(unop_str(*op));
                self.put(", ref ");
                self.put(p.as_str());
                self.put(") = ");
                self.put(cur.as_str());
                self.put(",\n");
                self.current = p;
                proof {
                    lemma_room_left(ids0, self.ids@, 1, expr_size(**inner));
                }
                let ghost ids1 = self.ids@;
                self.visit_expr(inner);
                proof {
                    lemma_within_trans(ids0, ids1, self.ids@, 1, expr_size(**inner));
                }
            },
            ExprKind::Type(inner, _) => {
                let p = self.next(Slot::ExprName);
                self.put("Type(ref ");
                self.put(p.as_str());
                self.put(", _) = ");
                self.put(cur.as_str());
                self.put(",\n");
                self.current = p;
                proof {
                    lemma_room_left(ids0, self.ids@, 1, expr_size(**inner));
                }
                let ghost ids1 = self.ids@;
                self.visit_expr(inner);
                proof {
                    lemma_within_trans(ids0, ids1, self.ids@, 1, expr_size(**inner));
                }
            },
            ExprKind::Yield(sub) => {
                let p = self.next(Slot::Sub);
                self.put("Yield(ref sub) = ");
                self.put(cur.as_str());
                self.put(",\n");
                self.current = p;
                proof {
                    lemma_room_left(ids0, self.ids@, 1, expr_size(**sub));
                }
                let ghost ids1 = self.ids@;
                self.visit_expr(sub);
                proof {
                    lemma_within_trans(ids0, ids1, self.ids@, 1, expr_size(**sub));
                }
            },
            ExprKind::AddrOf(m, inner) => {
                let p = self.next(Slot::Inner);
                self.put("AddrOf(");
                self.put(mutability_str(*m));
                self.put(", ref ");
                self.put(p.as_str());
                self.put(") = ");
                self.put(cur.as_str());
                self.put(",\n");
                self.current = p;
                proof {
                    lemma_room_left(ids0, self.ids@, 1, expr_size(**inner));
                }
                let ghost ids1 = self.ids@;
                self.visit_expr(inner);
                proof {
                    lemma_within_trans(ids0, ids1, self.ids@, 1, expr_size(**inner));
                }
            },
            ExprKind::Repeat(value) => {
                let p = self.next(Slot::Value);
                self.put("Repeat(ref ");
                self.put(p.as_str());
                self.put(", _) = ");
                self.put(cur.as_str());
                self.put(",\n");
                self.put("// unimplemented: repeat count check\n");
                self.current = p;
                proof {
                    lemma_room_left(ids0, self.ids@, 1, expr_size(**value));
                }
                let ghost ids1 = self.ids@;
                self.visit_expr(value);
                proof {
                    lemma_within_trans(ids0, ids1, self.ids@, 1, expr_size(**value));
                }
            },
            ExprKind::Ret(opt_value) => match opt_value {
                Some(value) => {
                    assert(opt_expr_size(*opt_value) == expr_size(**value));
                    let p = self.next(Slot::Value);
                    self.put("Ret(Some(ref ");
                    self.put(p.as_str());
                    self.put(")) = ");
                    self.put(cur.as_str());
                    self.put(",\n");
                    self.current = p;
                    proof {
                        lemma_room_left(ids0, self.ids@, 1, expr_size(**value));
                    }
                    let ghost ids1 = self.ids@;
                    self.visit_expr(value);
                    proof {
                        lemma_within_trans(ids0, ids1, self.ids@, 1, expr_size(**value));
                    }
                },
                None => {
                    self.put("Ret(None) = ");
                    self.put(cur.as_str());
                    self.put(",\n");
                },
            },
            ExprKind::Break(_, opt_value) => {
                let pd = self.next(Slot::Destination);
                match opt_value {
                    Some(value) => {
                        assert(opt_expr_size(*opt_value) == expr_size(**value));
                        let pv = self.next(Slot::Value);
                        self.put("Break(ref ");
                        self.put(pd.as_str());
                        self.put(", Some(ref ");
                        self.put(pv.as_str());
                        self.put(")) = ");
                        self.put(cur.as_str());
                        self.put(",\n");
                        self.current = pv;
                        proof {
                            lemma_room_left(ids0, self.ids@, 1, expr_size(**value));
                        }
                        let ghost ids1 = self.ids@;
                        self.visit_expr(value);
                        proof {
                            lemma_within_trans(ids0, ids1, self.ids@, 1, expr_size(**value));
                        }
                    },
                    None => {
                        self.put("Break(ref ");
                        self.put(pd.as_str());
                        self.put(", None) = ");
                        self.put(cur.as_str());
                        self.put(",\n");
                    },
                }
            },
            ExprKind::Field(object, name) => {
                let po = self.next(Slot::Object);
                let pf = self.next(Slot::FieldName);
                self.put("Field(ref ");
                self.put(po.as_str());
                self.put(", ref ");
                self.put(pf.as_str());
                self.put(") = ");
                self.put(cur.as_str());
                self.put(",\n");
                self.put("    if ");
                self.put(pf.as_str());
                self.put(".node.as_str() == ");
                let d = debug_str(name.as_str());
                self.put(d.as_str());
                self.put("\n");
                self.current = po;
                proof {
                    lemma_room_left(ids0, self.ids@, 1, expr_size(**object));
                }
                let ghost ids1 = self.ids@;
                self.visit_expr(object);
                proof {
                    lemma_within_trans(ids0, ids1, self.ids@, 1, expr_size(**object));
                }
            },
            ExprKind::Block(block) => {
                let p = self.next(Slot::BlockName);
                self.put("Block(ref ");
                self.put(p.as_str());
                self.put(") = ");
                self.put(cur.as_str());
                self.put(",\n");
                self.current = p;
                proof {
                    lemma_room_left(ids0, self.ids@, 1, block_size(*block));
                }
                let ghost ids1 = self.ids@;
                self.visit_block(block);
                proof {
                    lemma_within_trans(ids0, ids1, self.ids@, 1, block_size(*block));
                }
            },
            ExprKind::Loop(body, src) => {
                let pb = self.next(Slot::Body);
                let pl = self.next(Slot::Label);
                self.put("Loop(ref ");
                self.put(pb.as_str());
                self.put(", ref ");
                self.put(pl.as_str());
                self.put(", ");
                self.put(loop_desugaring_name(*src));
                self.put(") = ");
                self.put(cur.as_str());
                self.put(",\n");
                self.current = pb;
                proof {
                    lemma_room_left(ids0, self.ids@, 1, block_size(*body));
                }
                let ghost ids1 = self.ids@;
                self.visit_block(body);
                proof {
                    lemma_within_trans(ids0, ids1, self.ids@, 1, block_size(*body));
                }
            },
            _ => {},
        }
    }
}

impl PrintVisitor {
    /// Writes the checks of the expressions that hold two or three parts.
    fn visit_two(&mut self, e: &Expr, cur: &String)
        requires
            room(old(self).ids@, expr_size(*e)),
            e.node is Binary || e.node is Assign || e.node is AssignOp || e.node is Index,
        ensures
            final(self).state() == print_expr_node(*e, old(self).state(), cur@),
            within(final(self).ids@, old(self).ids@, expr_size(*e)),
        decreases e, 1nat,
    {
        let ghost ids0 = self.ids@;
        match &e.node {
            ExprKind::Binary(op, l, r) => {
                let pl = self.next(Slot::Left);
                let pr = self.next(Slot::Right);
                self.put("Binary(BinOp::");
                self.put(binop_str(*op));
                self.put(", ref ");
                self.put(pl.as_str());
                self.put(", ref ");
                self.put(pr.as_str());
                self.put(") = ");
                self.put(cur.as_str());
                self.put(",\n");
                proof {
                    lemma_room_left(ids0, self.ids@, 1, expr_size(**l) + expr_size(**r));
                }
                let ghost ids1 = self.ids@;
                self.visit_operands(e, pl, pr);
                proof {
                    lemma_within_trans(ids0, ids1, self.ids@, 1, expr_size(**l) + expr_size(**r));
                }
            },
            ExprKind::Assign(target, value) => {
                let pt = self.next(Slot::Target);
                let pv = self.next(Slot::Value);
                self.put("Assign(ref ");
                self.put(pt.as_str());
                self.put(", ref ");
                self.put(pv.as_str());
                self.put(") = ");
                self.put(cur.as_str());
                self.put(",\n");
                proof {
                    lemma_room_left(ids0, self.ids@, 1, expr_size(**target) + expr_size(**value));
                }
                let ghost ids1 = self.ids@;
                self.visit_operands(e, pt, pv);
                proof {
                    lemma_within_trans(ids0, ids1, self.ids@, 1, expr_size(**target) + expr_size(**value));
                }
            },
            ExprKind::AssignOp(op, target, value) => {
                let pt = self.next(Slot::Target);
                let pv = self.next(Slot::Value);
                self.put("AssignOp(BinOp::");
                self.put(binop_str(*op));
                self.put(", ref ");
                self.put(pt.as_str());
                self.put(", ref ");
                self.put(pv.as_str());
                self.put(") = ");
                self.put(cur.as_str());
                self.put(",\n");
                proof {
                    lemma_room_left(ids0, self.ids@, 1, expr_size(**target) + expr_size(**value));
                }
                let ghost ids1 = self.ids@;
                self.visit_operands(e, pt, pv);
                proof {
                    lemma_within_trans(ids0, ids1, self.ids@, 1, expr_size(**target) + expr_size(**value));
                }
            },
            ExprKind::Index(object, index) => {
                let po = self.next(Slot::Object);
                let pi = self.next(Slot::IndexName);
                self.put("Index(ref ");
                self.put(po.as_str());
                self.put(", ref ");
                self.put(pi.as_str());
                self.put(") = ");
                self.put(cur.as_str());
                self.put(",\n");
                proof {
                    lemma_room_left(ids0, self.ids@, 1, expr_size(**object) + expr_size(**index));
                }
                let ghost ids1 = self.ids@;
                self.visit_operands(e, po, pi);
                proof {
                    lemma_within_trans(ids0, ids1, self.ids@, 1, expr_size(**object) + expr_size(**index));
                }
            },
            _ => {},
        }
    }

    /// Writes the checks of `if`, `while` and casts.
    fn visit_branching(&mut self, e: &Expr, cur: &String)
        requires
            room(old(self).ids@, expr_size(*e)),
            e.node is If || e.node is While || e.node is Cast,
        ensures
            final(self).state() == print_expr_node(*e, old(self).state(), cur@),
            within(final(self).ids@, old(self).ids@, expr_size(*e)),
        decreases e, 1nat,
    {
        let ghost ids0 = self.ids@;
        match &e.node {
            ExprKind::If(cond, then, opt_else) => {
                let pc = self.next(Slot::Cond);
                let pt = self.next(Slot::Then);
                match opt_else {
                    Some(el) => {
                        assert(opt_expr_size(*opt_else) == expr_size(**el));
                        let pe = self.next(Slot::ElseName);
                        self.put("If(ref ");
                        self.put(pc.as_str());
                        self.put(", ref ");
                        self.put(pt.as_str());
                        self.put(", Some(ref ");
                        self.put(pe.as_str());
                        self.put(")) = ");
                        self.put(cur.as_str());
                        self.put(",\n");
                        self.current = pe;
                        proof {
                            lemma_room_left(ids0, self.ids@, 1, expr_size(**el) + expr_size(**cond) + expr_size(**then));
                            lemma_room_less(self.ids@, expr_size(**el) + expr_size(**cond) + expr_size(**then), expr_size(**el));
                        }
                        let ghost ids1 = self.ids@;
                        self.visit_expr(el);
                        proof {
                            lemma_within_trans(ids0, ids1, self.ids@, 1, expr_size(**el));
                        }
                    },
                    None => {
                        self.put("If(ref ");
                        self.put(pc.as_str());
                        self.put(", ref ");
                        self.put(pt.as_str());
                        self.put(", None) = ");
                        self.put(cur.as_str());
                        self.put(",\n");
                        proof {
                            lemma_within_more(self.ids@, ids0, 1, 1 + opt_expr_size(*opt_else));
                        }
                    },
                }
                let ghost ids1 = self.ids@;
                proof {
                    lemma_room_left(ids0, ids1, 1 + opt_expr_size(*opt_else), expr_size(**cond) + expr_size(**then));
                }
                self.visit_operands(e, pc, pt);
                proof {
                    lemma_within_trans(ids0, ids1, self.ids@, 1 + opt_expr_size(*opt_else), expr_size(**cond) + expr_size(**then));
                }
            },
            ExprKind::While(cond, body) => {
                let pc = self.next(Slot::Cond);
                let pb = self.next(Slot::Body);
                let pl = self.next(Slot::Label);
                self.put("While(ref ");
                self.put(pc.as_str());
                self.put(", ref ");
                self.put(pb.as_str());
                self.put(", ref ");
                self.put(pl.as_str());
                self.put(") = ");
                self.put(cur.as_str());
                self.put(",\n");
                self.current = pc;
                proof {
                    lemma_room_left(ids0, self.ids@, 1, expr_size(**cond) + block_size(*body));
                    lemma_room_less(self.ids@, expr_size(**cond) + block_size(*body), expr_size(**cond));
                }
                let ghost ids1 = self.ids@;
                self.visit_expr(cond);
                proof {
                    lemma_within_trans(ids0, ids1, self.ids@, 1, expr_size(**cond));
                    lemma_room_left(ids0, self.ids@, 1 + expr_size(**cond), block_size(*body));
                }
                let ghost ids2 = self.ids@;
                self.current = pb;
                self.visit_block(body);
                proof {
                    lemma_within_trans(ids0, ids2, self.ids@, 1 + expr_size(**cond), block_size(*body));
                }
            },
            ExprKind::Cast(inner, ty) => {
                let pc = self.next(Slot::ExprName);
                let pt = self.next(Slot::CastTy);
                let pq = self.next(Slot::Qp);
                self.put("Cast(ref ");
                self.put(pc.as_str());
                self.put(", ref ");
                self.put(pt.as_str());
                self.put(") = ");
                self.put(cur.as_str());
                self.put(",\n");
                match ty {
                    Ty::Path(q) => {
                        self.put("    if let Ty_::TyPath(ref ");
                        self.put(pq.as_str());
                        self.put(") = ");
                        self.put(pt.as_str());
                        self.put(".node,\n");
                        self.current = pq;
                        self.print_qpath(q);
                    },
                    Ty::Other(_) => {},
                }
                self.current = pc;
                proof {
                    lemma_room_left(ids0, self.ids@, 1, expr_size(**inner));
                }
                let ghost ids1 = self.ids@;
                self.visit_expr(inner);
                proof {
                    lemma_within_trans(ids0, ids1, self.ids@, 1, expr_size(**inner));
                }
            },
            _ => {},
        }
    }

    /// Destructures the two operands of `e` in turn: the first as `pa`,
    /// the second as `pb`.
    fn visit_operands(&mut self, e: &Expr, pa: String, pb: String)
        requires
            e.node is Binary || e.node is Assign || e.node is AssignOp || e.node is Index || e.node is If,
            room(old(self).ids@, expr_size(operands(*e).0) + expr_size(operands(*e).1)),
        ensures
            final(self).state() == print_expr(operands(*e).1, print_expr(operands(*e).0, old(self).state().at(pa@)).at(pb@)),
            within(final(self).ids@, old(self).ids@, expr_size(operands(*e).0) + expr_size(operands(*e).1)),
        decreases e, 0nat,
    {
        let (a, b): (&Expr, &Expr) = match &e.node {
            ExprKind::Binary(_, l, r) => (l, r),
            ExprKind::Assign(t, v) => (t, v),
            ExprKind::AssignOp(_, t, v) => (t, v),
            ExprKind::Index(o, i) => (o, i),
            ExprKind::If(c, t, _) => (c, t),
            _ => {
                proof {
                    assert(false);
                }
                return;
            },
        };
        let ghost ids0 = self.ids@;
        self.current = pa;
        proof {
            lemma_room_less(ids0, expr_size(*a) + expr_size(*b), expr_size(*a));
        }
        self.visit_expr(a);
        let ghost ids1 = self.ids@;
        proof {
            lemma_room_left(ids0, ids1, expr_size(*a), expr_size(*b));
        }
        self.current = pb;
        self.visit_expr(b);
        proof {
            lemma_within_trans(ids0, ids1, self.ids@, expr_size(*a), expr_size(*b));
        }
    }
}

impl PrintVisitor {
    /// Writes the checks of the expressions that hold lists.
    fn visit_many(&mut self, e: &Expr, cur: &String)
        requires
            room(old(self).ids@, expr_size(*e)),
            e.node is Array || e.node is Tup || e.node is Match || e.node is Struct,
        ensures
            final(self).state() == print_expr_node(*e, old(self).state(), cur@),
            within(final(self).ids@, old(self).ids@, expr_size(*e)),
        decreases e, 1nat,
    {
        let ghost ids0 = self.ids@;
        match &e.node {
            ExprKind::Array(es) => {
                let p = self.next(Slot::Elements);
                self.put("Array(ref ");
                self.put(p.as_str());
                self.put(") = ");
                self.put(cur.as_str());
                self.put(",\n");
                self.put("    if ");
                self.put(p.as_str());
                self.put(".len() == ");
                let d = to_decimal(es.len() as u128);
                self.put(d.as_str());
                self.put(",\n");
                proof {
                    lemma_room_left(ids0, self.ids@, 1, exprs_size(es@, 0));
                }
                let ghost ids1 = self.ids@;
                self.visit_expr_list(&p, es, 0);
                proof {
                    lemma_within_trans(ids0, ids1, self.ids@, 1, exprs_size(es@, 0));
                }
            },
            ExprKind::Tup(es) => {
                let p = self.next(Slot::Elements);
                self.put("Tup(ref ");
                self.put(p.as_str());
                self.put(") = ");
                self.put(cur.as_str());
                self.put(",\n");
                self.put("    if ");
                self.put(p.as_str());
                self.put(".len() == ");
                let d = to_decimal(es.len() as u128);
                self.put(d.as_str());
                self.put(",\n");
                proof {
                    lemma_room_left(ids0, self.ids@, 1, exprs_size(es@, 0));
                }
                let ghost ids1 = self.ids@;
                self.visit_expr_list(&p, es, 0);
                proof {
                    lemma_within_trans(ids0, ids1, self.ids@, 1, exprs_size(es@, 0));
                }
            },
            ExprKind::Match(scrutinee, arms, src) => {
                let des = desugaring_name(*src);
                let pe = self.next(Slot::ExprName);
                let pa = self.next(Slot::Arms);
                self.put("Match(ref ");
                self.put(pe.as_str());
                self.put(", ref ");
                self.put(pa.as_str());
                self.put(", ");
                self.put(des.as_str());
                self.put(") = ");
                self.put(cur.as_str());
                self.put(",\n");
                self.current = pe;
                proof {
                    lemma_room_left(ids0, self.ids@, 1, expr_size(**scrutinee) + arms_size(arms@, 0));
                    lemma_room_less(self.ids@, expr_size(**scrutinee) + arms_size(arms@, 0), expr_size(**scrutinee));
                }
                let ghost ids1 = self.ids@;
                self.visit_expr(scrutinee);
                proof {
                    lemma_within_trans(ids0, ids1, self.ids@, 1, expr_size(**scrutinee));
                    lemma_room_left(ids0, self.ids@, 1 + expr_size(**scrutinee), arms_size(arms@, 0));
                }
                let ghost ids2 = self.ids@;
                self.put("    if ");
                self.put(pa.as_str());
                self.put(".len() == ");
                let d = to_decimal(arms.len() as u128);
                self.put(d.as_str());
                self.put(",\n");
                self.visit_arms(&pa, arms, 0);
                proof {
                    lemma_within_trans(ids0, ids2, self.ids@, 1 + expr_size(**scrutinee), arms_size(arms@, 0));
                }
            },
            ExprKind::Struct(path, fields, opt_base) => {
                let pp = self.next(Slot::PathName);
                let pf = self.next(Slot::Fields);
                match opt_base {
                    Some(base) => {
                        assert(opt_expr_size(*opt_base) == expr_size(**base));
                        let pb = self.next(Slot::Base);
                        self.put("Struct(ref ");
                        self.put(pp.as_str());
                        self.put(", ref ");
                        self.put(pf.as_str());
                        self.put(", Some(ref ");
                        self.put(pb.as_str());
                        self.put(")) = ");
                        self.put(cur.as_str());
                        self.put(",\n");
                        self.current = pb;
                        proof {
                            lemma_room_left(ids0, self.ids@, 1, exprs_size(fields@, 0) + expr_size(**base));
                            lemma_room_less(self.ids@, exprs_size(fields@, 0) + expr_size(**base), expr_size(**base));
                        }
                        let ghost ids1 = self.ids@;
                        self.visit_expr(base);
                        proof {
                            lemma_within_trans(ids0, ids1, self.ids@, 1, expr_size(**base));
                            lemma_within_more(self.ids@, ids0, 1 + expr_size(**base), expr_size(*e));
                        }
                    },
                    None => {
                        self.put("Struct(ref ");
                        self.put(pp.as_str());
                        self.put(", ref ");
                        self.put(pf.as_str());
                        self.put(", None) = ");
                        self.put(cur.as_str());
                        self.put(",\n");
                        proof {
                            lemma_within_more(self.ids@, ids0, 1, expr_size(*e));
                        }
                    },
                }
                self.current = pp;
                self.print_qpath(path);
                self.put("    if ");
                self.put(pf.as_str());
                self.put(".len() == ");
                let d = to_decimal(fields.len() as u128);
                self.put(d.as_str());
                self.put(",\n");
                self.put("    // unimplemented: field checks\n");
            },
            _ => {},
        }
    }

    /// Destructures the expressions of `es` from `i` on, each as `base[i]`.
    fn visit_expr_list(&mut self, base: &String, es: &Vec<Expr>, i: usize)
        requires
            i <= es@.len(),
            room(old(self).ids@, exprs_size(es@, i as nat)),
        ensures
            final(self).state() == print_expr_list(base@, es@, i as nat, old(self).state()),
            within(final(self).ids@, old(self).ids@, exprs_size(es@, i as nat)),
        decreases es@, es@.len() - i,
    {
        if i >= es.len() {
            return;
        }
        let ghost ids0 = self.ids@;
        self.current = indexed(base, i);
        proof {
            lemma_room_less(ids0, exprs_size(es@, i as nat), expr_size(es@[i as int]));
        }
        self.visit_expr(&es[i]);
        let ghost ids1 = self.ids@;
        proof {
            lemma_room_left(ids0, ids1, expr_size(es@[i as int]), exprs_size(es@, (i + 1) as nat));
        }
        self.visit_expr_list(base, es, i + 1);
        proof {
            lemma_within_trans(ids0, ids1, self.ids@, expr_size(es@[i as int]), exprs_size(es@, (i + 1) as nat));
        }
    }

    /// Destructures the arms of `arms` from `i` on: the body, the guard and
    /// the patterns of each.
    fn visit_arms(&mut self, pa: &String, arms: &Vec<Arm>, i: usize)
        requires
            i <= arms@.len(),
            room(old(self).ids@, arms_size(arms@, i as nat)),
        ensures
            final(self).state() == print_arms(pa@, arms@, i as nat, old(self).state()),
            within(final(self).ids@, old(self).ids@, arms_size(arms@, i as nat)),
        decreases arms@, arms@.len() - i,
    {
        if i >= arms.len() {
            return;
        }
        let arm = &arms[i];
        let ghost ids0 = self.ids@;
        let ghost asz = arm_size(*arm);
        let ghost bsz = expr_size(*arm.body);
        let ghost gsz = opt_expr_size(arm.guard);
        let ghost psz = pats_size(arm.pats@, 0);
        let ghost rest = arms_size(arms@, (i + 1) as nat);
        self.current = joined(&indexed(pa, i), ".body");
        proof {
            assert(self.current@ =~= pa@ + index_text(i as nat) + ".body"@);
            lemma_room_less(ids0, asz + rest, bsz);
        }
        self.visit_expr(&arm.body);
        let ghost ids1 = self.ids@;
        match &arm.guard {
            Some(g) => {
                assert(gsz == expr_size(**g));
                proof {
                    lemma_room_left(ids0, ids1, bsz, 1 + gsz + psz + rest);
                }
                let pg = self.next(Slot::Guard);
                self.put("    if let Some(ref ");
                self.put(pg.as_str());
                self.put(") = ");
                self.put(pa.as_str());
                let ix = indexed(&String::new(), i);
                proof {
                    assert(ix@ =~= index_text(i as nat));
                }
                self.put(ix.as_str());
                self.put(".guard\n");
                self.current = pg;
                let ghost ids2 = self.ids@;
                proof {
                    lemma_within_trans(ids0, ids1, ids2, bsz, 1);
                    lemma_room_left(ids0, ids2, bsz + 1, gsz + psz + rest);
                    lemma_room_less(ids2, gsz + psz + rest, expr_size(**g));
                }
                self.visit_expr(g);
                proof {
                    lemma_within_trans(ids0, ids2, self.ids@, bsz + 1, gsz);
                }
            },
            None => {
                proof {
                    lemma_within_more(ids1, ids0, bsz, bsz + 1 + gsz);
                }
            },
        }
        let ghost ids3 = self.ids@;
        self.put("    if ");
        self.put(pa.as_str());
        let ix = indexed(&String::new(), i);
        proof {
            assert(ix@ =~= index_text(i as nat));
        }
        self.put(ix.as_str());
        self.put(".pats.len() == ");
        let d = to_decimal(arm.pats.len() as u128);
        self.put(d.as_str());
        self.put(",\n");
        proof {
            lemma_room_left(ids0, ids3, bsz + 1 + gsz, psz + rest);
            lemma_room_less(ids3, psz + rest, psz);
        }
        self.visit_arm_pats(pa, i, &arm.pats, 0);
        let ghost ids4 = self.ids@;
        proof {
            lemma_within_trans(ids0, ids3, ids4, bsz + 1 + gsz, psz);
            lemma_room_left(ids0, ids4, bsz + 1 + gsz + psz, rest);
        }
        self.visit_arms(pa, arms, i + 1);
        proof {
            lemma_within_trans(ids0, ids4, self.ids@, bsz + 1 + gsz + psz, rest);
        }
    }

    /// Destructures the patterns of arm `i` from `j` on.
    fn visit_arm_pats(&mut self, pa: &String, i: usize, ps: &Vec<Pat>, j: usize)
        requires
            j <= ps@.len(),
            room(old(self).ids@, pats_size(ps@, j as nat)),
        ensures
            final(self).state() == print_arm_pats(pa@, i as nat, ps@, j as nat, old(self).state()),
            within(final(self).ids@, old(self).ids@, pats_size(ps@, j as nat)),
        decreases ps@, ps@.len() - j,
    {
        if j >= ps.len() {
            return;
        }
        let ghost ids0 = self.ids@;
        let c = joined(&indexed(pa, i), ".pats");
        self.current = indexed(&c, j);
        proof {
            assert(self.current@ =~= pa@ + index_text(i as nat) + ".pats"@ + index_text(j as nat));
            lemma_room_less(ids0, pats_size(ps@, j as nat), pat_size(ps@[j as int]));
        }
        self.visit_pat(&ps[j]);
        let ghost ids1 = self.ids@;
        proof {
            lemma_room_left(ids0, ids1, pat_size(ps@[j as int]), pats_size(ps@, (j + 1) as nat));
        }
        self.visit_arm_pats(pa, i, ps, j + 1);
        proof {
            lemma_within_trans(ids0, ids1, self.ids@, pat_size(ps@[j as int]), pats_size(ps@, (j + 1) as nat));
        }
    }

    /// Destructures the patterns of `ps` from `i` on, each as `base[i]`.
    fn visit_pat_list(&mut self, base: &String, ps: &Vec<Pat>, i: usize)
        requires
            i <= ps@.len(),
            room(old(self).ids@, pats_size(ps@, i as nat)),
        ensures
            final(self).state() == print_pat_list(base@, ps@, i as nat, old(self).state()),
            within(final(self).ids@, old(self).ids@, pats_size(ps@, i as nat)),
        decreases ps@, ps@.len() - i,
    {
        if i >= ps.len() {
            return;
        }
        let ghost ids0 = self.ids@;
        self.current = indexed(base, i);
        proof {
            lemma_room_less(ids0, pats_size(ps@, i as nat), pat_size(ps@[i as int]));
        }
        self.visit_pat(&ps[i]);
        let ghost ids1 = self.ids@;
        proof {
            lemma_room_left(ids0, ids1, pat_size(ps@[i as int]), pats_size(ps@, (i + 1) as nat));
        }
        self.visit_pat_list(base, ps, i + 1);
        proof {
            lemma_within_trans(ids0, ids1, self.ids@, pat_size(ps@[i as int]), pats_size(ps@, (i + 1) as nat));
        }
    }
}

impl PrintVisitor {
    /// Writes the checks that match pattern `p` as the current value.
    pub fn visit_pat(&mut self, p: &Pat)
        requires
            room(old(self).ids@, pat_size(*p)),
        ensures
            final(self).state() == print_pat(*p, old(self).state()),
            within(final(self).ids@, old(self).ids@, pat_size(*p)),
        decreases p, 2nat,
    {
        match p {
            Pat::Struct(_, _, _) | Pat::TupleStruct(_, _, _) | Pat::Tuple(_, _) | Pat::Slice(_, _, _) => {
                self.visit_pat_lists(p)
            },
            _ => self.visit_pat_simple(p),
        }
    }

    /// Writes the checks of the patterns that hold no list.
    fn visit_pat_simple(&mut self, p: &Pat)
        requires
            room(old(self).ids@, pat_size(*p)),
            !(p is Struct || p is TupleStruct || p is Tuple || p is Slice),
        ensures
            final(self).state() == print_pat(*p, old(self).state()),
            within(final(self).ids@, old(self).ids@, pat_size(*p)),
        decreases p, 1nat,
    {
        let ghost ids0 = self.ids@;
        let cur = self.node();
        self.put("    if let PatKind::");
        match p {
            Pat::Wild => {
                self.put("Wild = ");
                self.put(cur.as_str());
                self.put(",\n");
            },
            Pat::Binding(anno, name, sub) => {
                let pn = self.next(Slot::Name);
                match sub {
                    Some(sp) => {
                        assert(opt_pat_size(*sub) == pat_size(**sp));
                        let ps = self.next(Slot::Sub);
                        self.put("Binding(");
                        self.put(annotation_str(*anno));
                        self.put(", _, ");
                        self.put(pn.as_str());
                        self.put(", Some(ref ");
                        self.put(ps.as_str());
                        self.put(")) = ");
                        self.put(cur.as_str());
                        self.put(",\n");
                        self.current = ps;
                        proof {
                            lemma_room_left(ids0, self.ids@, 1, pat_size(**sp));
                        }
                        let ghost ids1 = self.ids@;
                        self.visit_pat(sp);
                        proof {
                            lemma_within_trans(ids0, ids1, self.ids@, 1, pat_size(**sp));
                        }
                    },
                    None => {
                        self.put("Binding(");
                        self.put(annotation_str(*anno));
                        self.put(", _, ");
                        self.put(pn.as_str());
                        self.put(", None) = ");
                        self.put(cur.as_str());
                        self.put(",\n");
                    },
                }
                self.put("    if ");
                self.put(pn.as_str());
                self.put(".node.as_str() == \"");
                self.put(name.as_str());
                self.put("\",\n");
            },
            Pat::Path(path) => {
                let pp = self.next(Slot::PathName);
                self.put("Path(ref ");
                self.put(pp.as_str());
                self.put(") = ");
                self.put(cur.as_str());
                self.put(",\n");
                self.current = pp;
                self.print_qpath(path);
            },
            Pat::Box(inner) => {
                let pp = self.next(Slot::PatName);
                self.put("Box(ref ");
                self.put(pp.as_str());
                self.put(") = ");
                self.put(cur.as_str());
                self.put(",\n");
                self.current = pp;
                proof {
                    lemma_room_left(ids0, self.ids@, 1, pat_size(**inner));
                }
                let ghost ids1 = self.ids@;
                self.visit_pat(inner);
                proof {
                    lemma_within_trans(ids0, ids1, self.ids@, 1, pat_size(**inner));
                }
            },
            Pat::Ref(inner, m) => {
                let pp = self.next(Slot::PatName);
                self.put("Ref(ref ");
                self.put(pp.as_str());
                self.put(", Mutability::");
                self.put(mutability_str(*m));
                self.put(") = ");
                self.put(cur.as_str());
                self.put(",\n");
                self.current = pp;
                proof {
                    lemma_room_left(ids0, self.ids@, 1, pat_size(**inner));
                }
                let ghost ids1 = self.ids@;
                self.visit_pat(inner);
                proof {
                    lemma_within_trans(ids0, ids1, self.ids@, 1, pat_size(**inner));
                }
            },
            Pat::Lit(e) => {
                let pl = self.next(Slot::LitExpr);
                self.put("Lit(ref ");
                self.put(pl.as_str());
                self.put(") = ");
                self.put(cur.as_str());
                self.put("\n");
                self.current = pl;
                proof {
                    lemma_room_left(ids0, self.ids@, 1, expr_size(**e));
                }
                let ghost ids1 = self.ids@;
                self.visit_expr(e);
                proof {
                    lemma_within_trans(ids0, ids1, self.ids@, 1, expr_size(**e));
                }
            },
            Pat::Range(start, end, end_kind) => {
                let ps = self.next(Slot::Start);
                let pe = self.next(Slot::End);
                self.put("Range(ref ");
                self.put(ps.as_str());
                self.put(", ref ");
                self.put(pe.as_str());
                self.put(", RangeEnd::");
                self.put(range_end_str(*end_kind));
                self.put(") = ");
                self.put(cur.as_str());
                self.put(",\n");
                self.current = ps;
                proof {
                    lemma_room_left(ids0, self.ids@, 1, expr_size(**start) + expr_size(**end));
                    lemma_room_less(self.ids@, expr_size(**start) + expr_size(**end), expr_size(**start));
                }
                let ghost ids1 = self.ids@;
                self.visit_expr(start);
                proof {
                    lemma_within_trans(ids0, ids1, self.ids@, 1, expr_size(**start));
                    lemma_room_left(ids0, self.ids@, 1 + expr_size(**start), expr_size(**end));
                }
                let ghost ids2 = self.ids@;
                self.current = pe;
                self.visit_expr(end);
                proof {
                    lemma_within_trans(ids0, ids2, self.ids@, 1 + expr_size(**start), expr_size(**end));
                }
            },
            _ => {},
        }
    }

    /// Writes the checks of the patterns that hold lists.
    fn visit_pat_lists(&mut self, p: &Pat)
        requires
            room(old(self).ids@, pat_size(*p)),
            p is Struct || p is TupleStruct || p is Tuple || p is Slice,
        ensures
            final(self).state() == print_pat(*p, old(self).state()),
            within(final(self).ids@, old(self).ids@, pat_size(*p)),
        decreases p, 1nat,
    {
        let ghost ids0 = self.ids@;
        let cur = self.node();
        self.put("    if let PatKind::");
        match p {
            Pat::Struct(path, fields, ignore) => {
                let pp = self.next(Slot::PathName);
                let pf = self.next(Slot::Fields);
                self.put("Struct(ref ");
                self.put(pp.as_str());
                self.put(", ref ");
                self.put(pf.as_str());
                self.put(", ");
                self.put(bool_str(*ignore));
                self.put(") = ");
                self.put(cur.as_str());
                self.put(",\n");
                self.current = pp;
                self.print_qpath(path);
                self.put("    if ");
                self.put(pf.as_str());
                self.put(".len() == ");
                let d = to_decimal(fields.len() as u128);
                self.put(d.as_str());
                self.put(",\n");
                self.put("    // unimplemented: field checks\n");
            },
            Pat::TupleStruct(path, fields, skip) => {
                let pp = self.next(Slot::PathName);
                let pf = self.next(Slot::Fields);
                self.put("TupleStruct(ref ");
                self.put(pp.as_str());
                self.put(", ref ");
                self.put(pf.as_str());
                self.put(", ");
                let k = opt_usize_str(*skip);
                self.put(k.as_str());
                self.put(") = ");
                self.put(cur.as_str());
                self.put(",\n");
                self.current = pp;
                self.print_qpath(path);
                self.put("    if ");
                self.put(pf.as_str());
                self.put(".len() == ");
                let d = to_decimal(fields.len() as u128);
                self.put(d.as_str());
                self.put(",\n");
                self.put("    // unimplemented: field checks\n");
            },
            Pat::Tuple(fields, skip) => {
                let pf = self.next(Slot::Fields);
                self.put("Tuple(ref ");
                self.put(pf.as_str());
                self.put(", ");
                let k = opt_usize_str(*skip);
                self.put(k.as_str());
                self.put(") = ");
                self.put(cur.as_str());
                self.put(",\n");
                self.put("    if ");
                self.put(pf.as_str());
                self.put(".len() == ");
                let d = to_decimal(fields.len() as u128);
                self.put(d.as_str());
                self.put(",\n");
                self.put("    // unimplemented: field checks\n");
            },
            Pat::Slice(start, middle, end) => {
                let ps = self.next(Slot::Start);
                let pe = self.next(Slot::End);
                let ghost msz = opt_pat_size(*middle);
                let ghost ssz = pats_size(start@, 0);
                let ghost esz = pats_size(end@, 0);
                match middle {
                    Some(m) => {
                        assert(msz == pat_size(**m));
                        let pm = self.next(Slot::Middle);
                        self.put("Slice(ref ");
                        self.put(ps.as_str());
                        self.put(", Some(ref ");
                        self.put(pm.as_str());
                        self.put("), ref ");
                        self.put(pe.as_str());
                        self.put(") = ");
                        self.put(cur.as_str());
                        self.put(",\n");
                        self.current = pm;
                        proof {
                            lemma_room_left(ids0, self.ids@, 1, msz + ssz + esz);
                            lemma_room_less(self.ids@, msz + ssz + esz, pat_size(**m));
                        }
                        let ghost ids1 = self.ids@;
                        self.visit_pat(m);
                        proof {
                            lemma_within_trans(ids0, ids1, self.ids@, 1, msz);
                        }
                    },
                    None => {
                        self.put("Slice(ref ");
                        self.put(ps.as_str());
                        self.put(", None, ref ");
                        self.put(pe.as_str());
                        self.put(") = ");
                        self.put(cur.as_str());
                        self.put(",\n");
                    },
                }
                let ghost ids2 = self.ids@;
                self.put("    if ");
                self.put(ps.as_str());
                self.put(".len() == ");
                let d = to_decimal(start.len() as u128);
                self.put(d.as_str());
                self.put(",\n");
                proof {
                    lemma_room_left(ids0, ids2, 1 + msz, ssz + esz);
                    lemma_room_less(ids2, ssz + esz, ssz);
                }
                self.visit_pat_list(&ps, start, 0);
                let ghost ids3 = self.ids@;
                proof {
                    lemma_within_trans(ids0, ids2, ids3, 1 + msz, ssz);
                    lemma_room_left(ids0, ids3, 1 + msz + ssz, esz);
                }
                self.put("    if ");
                self.put(pe.as_str());
                self.put(".len() == ");
                let d = to_decimal(end.len() as u128);
                self.put(d.as_str());
                self.put(",\n");
                self.visit_pat_list(&pe, end, 0);
                proof {
                    lemma_within_trans(ids0, ids3, self.ids@, 1 + msz + ssz, esz);
                }
            },
            _ => {},
        }
    }

    /// Writes the checks that match statement `st` as the current value.
    pub fn visit_stmt(&mut self, st: &Stmt)
        requires
            room(old(self).ids@, stmt_size(*st)),
        ensures
            final(self).state() == print_stmt(*st, old(self).state()),
            within(final(self).ids@, old(self).ids@, stmt_size(*st)),
        decreases st, 2nat,
    {
        let ghost ids0 = self.ids@;
        let cur = self.node();
        self.put("    if let Stmt_::");
        match st {
            Stmt::Decl(decl) => {
                let pd = self.next(Slot::DeclName);
                self.put("StmtDecl(ref ");
                self.put(pd.as_str());
                self.put(", _) = ");
                self.put(cur.as_str());
                self.put("\n");
                self.put("    if let Decl_::");
                let cur2 = joined(&pd, ".node");
                match decl {
                    Decl::Local(local) => {
                        let pl = self.next(Slot::LocalName);
                        self.put("DeclLocal(ref ");
                        self.put(pl.as_str());
                        self.put(") = ");
                        self.put(cur2.as_str());
                        self.put(",\n");
                        let ghost isz = opt_expr_size(local.init);
                        let ghost psz = pat_size(local.pat);
                        match &local.init {
                            Some(init) => {
                                assert(isz == expr_size(**init));
                                let pi = self.next(Slot::Init);
                                self.put("    if let Some(ref ");
                                self.put(pi.as_str());
                                self.put(") = ");
                                self.put(pl.as_str());
                                self.put(".init\n");
                                self.current = pi;
                                proof {
                                    lemma_room_left(ids0, self.ids@, 1, isz + psz);
                                    lemma_room_less(self.ids@, isz + psz, expr_size(**init));
                                }
                                let ghost ids1 = self.ids@;
                                self.visit_expr(init);
                                proof {
                                    lemma_within_trans(ids0, ids1, self.ids@, 1, isz);
                                }
                            },
                            None => {},
                        }
                        let ghost ids2 = self.ids@;
                        self.current = joined(&pl, ".pat");
                        proof {
                            lemma_room_left(ids0, ids2, 1 + isz, psz);
                        }
                        self.visit_pat(&local.pat);
                        proof {
                            lemma_within_trans(ids0, ids2, self.ids@, 1 + isz, psz);
                        }
                    },
                    Decl::Item(_) => {
                        self.put("DeclItem(item_id) = ");
                        self.put(cur2.as_str());
                        self.put(",\n");
                    },
                }
            },
            Stmt::Expr(e) => {
                let pe = self.next(Slot::E);
                self.put("StmtExpr(ref ");
                self.put(pe.as_str());
                self.put(", _) = ");
                self.put(cur.as_str());
                self.put("\n");
                self.current = pe;
                proof {
                    lemma_room_left(ids0, self.ids@, 1, expr_size(**e));
                }
                let ghost ids1 = self.ids@;
                self.visit_expr(e);
                proof {
                    lemma_within_trans(ids0, ids1, self.ids@, 1, expr_size(**e));
                }
            },
            Stmt::Semi(e) => {
                let pe = self.next(Slot::E);
                self.put("StmtSemi(ref ");
                self.put(pe.as_str());
                self.put(", _) = ");
                self.put(cur.as_str());
                self.put("\n");
                self.current = pe;
                proof {
                    lemma_room_left(ids0, self.ids@, 1, expr_size(**e));
                }
                let ghost ids1 = self.ids@;
                self.visit_expr(e);
                proof {
                    lemma_within_trans(ids0, ids1, self.ids@, 1, expr_size(**e));
                }
            },
        }
    }

    /// Destructures the statements of `ss` from `i` on.
    fn visit_stmt_list(&mut self, ss: &Vec<Stmt>, i: usize)
        requires
            i <= ss@.len(),
            room(old(self).ids@, stmts_size(ss@, i as nat)),
        ensures
            final(self).state() == print_stmt_list(ss@, i as nat, old(self).state()),
            within(final(self).ids@, old(self).ids@, stmts_size(ss@, i as nat)),
        decreases ss@, ss@.len() - i,
    {
        if i >= ss.len() {
            return;
        }
        let ghost ids0 = self.ids@;
        proof {
            lemma_room_less(ids0, stmts_size(ss@, i as nat), stmt_size(ss@[i as int]));
        }
        self.visit_stmt(&ss[i]);
        let ghost ids1 = self.ids@;
        proof {
            lemma_room_left(ids0, ids1, stmt_size(ss@[i as int]), stmts_size(ss@, (i + 1) as nat));
        }
        self.visit_stmt_list(ss, i + 1);
        proof {
            lemma_within_trans(ids0, ids1, self.ids@, stmt_size(ss@[i as int]), stmts_size(ss@, (i + 1) as nat));
        }
    }

    /// Writes the checks of a block: its statements, then its final
    /// expression, each destructured from where the last left off.
    pub fn visit_block(&mut self, b: &Block)
        requires
            room(old(self).ids@, block_size(*b)),
        ensures
            final(self).state() == print_block(*b, old(self).state()),
            within(final(self).ids@, old(self).ids@, block_size(*b)),
        decreases b, 2nat,
    {
        let ghost ids0 = self.ids@;
        proof {
            lemma_room_less(ids0, block_size(*b), stmts_size(b.stmts@, 0));
        }
        self.visit_stmt_list(&b.stmts, 0);
        let ghost ids1 = self.ids@;
        match &b.expr {
            Some(e) => {
                assert(opt_expr_size(b.expr) == expr_size(**e));
                proof {
                    lemma_room_left(ids0, ids1, stmts_size(b.stmts@, 0), expr_size(**e));
                }
                self.visit_expr(e);
                proof {
                    lemma_within_trans(ids0, ids1, self.ids@, stmts_size(b.stmts@, 0), expr_size(**e));
                    lemma_within_more(self.ids@, ids0, stmts_size(b.stmts@, 0) + expr_size(**e), block_size(*b));
                }
            },
            None => {
                proof {
                    lemma_within_more(ids1, ids0, stmts_size(b.stmts@, 0), block_size(*b));
                }
            },
        }
    }
}

/// Whether `a` is `#[clippy(author)]`.
pub open spec fn is_author_attr(a: Attribute) -> bool {
    &&& a.name@ == "clippy"@
    &&& a.list matches Some(l)
    &&& l@.len() == 1
    &&& l@[0] matches NestedMeta::MetaItem(n)
    &&& n@ == "author"@
}

/// Whether one of `attrs` is `#[clippy(author)]`.
pub open spec fn marked_author(attrs: Seq<Attribute>) -> bool {
    exists|i: int| 0 <= i < attrs.len() && is_author_attr(#[trigger] attrs[i])
}

/// Whether one of `attrs` is `#[clippy(author)]`.
pub fn has_attr(attrs: &Vec<Attribute>) -> (r: bool)
    ensures
        r == marked_author(attrs@),
{
    let mut i: usize = 0;
    while i < attrs.len()
        invariant
            i <= attrs@.len(),
            forall|j: int| 0 <= j < i ==> !is_author_attr(#[trigger] attrs@[j]),
        decreases attrs@.len() - i,
    {
        let a = &attrs[i];
        if same_text(a.name.as_str(), "clippy") {
            match &a.list {
                Some(l) => {
                    if l.len() == 1 {
                        match &l[0] {
                            NestedMeta::MetaItem(n) => {
                                if same_text(n.as_str(), "author") {
                                    return true;
                                }
                            },
                            NestedMeta::Literal => {},
                        }
                    }
                },
                None => {},
            }
        }
        i = i + 1;
    }
    false
}

/// What opens the generated code.
pub open spec fn prelude_text() -> Seq<char> {
    "if_chain! {\n"@
}

/// What closes the generated code.
pub open spec fn done_text() -> Seq<char> {
    "    then {\n"@ + "        // report your lint here\n"@ + "    }\n"@ + "}\n"@
}

/// The report for a node with attributes `attrs`, whose checks print as
/// `printed`: nothing unless the node is marked.
pub open spec fn report(attrs: Seq<Attribute>, printed: Seq<char>) -> Seq<char> {
    if marked_author(attrs) {
        prelude_text() + printed + done_text()
    } else {
        Seq::empty()
    }
}

/// Prints the patterns of `ps` from `i` on, one after the other, each from
/// where the last left off.
pub open spec fn print_pats_in_turn(ps: Seq<Pat>, i: nat, s: PrintState) -> PrintState
    decreases ps.len() - i,
{
    if i >= ps.len() {
        s
    } else {
        print_pats_in_turn(ps, i + 1, print_pat(ps[i as int], s))
    }
}

/// Prints an arm: its patterns, its guard, then its body.
pub open spec fn print_arm(a: Arm, s: PrintState) -> PrintState {
    let s1 = print_pats_in_turn(a.pats@, 0, s);
    let s2 = match a.guard {
        Some(g) => print_expr(*g, s1),
        None => s1,
    };
    print_expr(*a.body, s2)
}

impl PrintVisitor {
    /// Writes the checks of an arm: its patterns, its guard and its body,
    /// each destructured from where the last left off.
    pub fn visit_arm(&mut self, arm: &Arm)
        requires
            room(old(self).ids@, arm_size(*arm)),
        ensures
            final(self).state() == print_arm(*arm, old(self).state()),
            within(final(self).ids@, old(self).ids@, arm_size(*arm)),
    {
        let ghost ids0 = self.ids@;
        let ghost s0 = self.state();
        let ghost total = pats_size(arm.pats@, 0);
        let mut i: usize = 0;
        while i < arm.pats.len()
            invariant
                i <= arm.pats@.len(),
                room(ids0, arm_size(*arm)),
                total == pats_size(arm.pats@, 0),
                print_pats_in_turn(arm.pats@, i as nat, self.state()) == print_pats_in_turn(arm.pats@, 0, s0),
                within(self.ids@, ids0, (total - pats_size(arm.pats@, i as nat)) as nat),
                pats_size(arm.pats@, i as nat) <= total,
            decreases arm.pats@.len() - i,
        {
            let ghost ids1 = self.ids@;
            let ghost used = (total - pats_size(arm.pats@, i as nat)) as nat;
            proof {
                lemma_room_left(ids0, ids1, used, (arm_size(*arm) - used) as nat);
                lemma_room_less(ids1, (arm_size(*arm) - used) as nat, pat_size(arm.pats@[i as int]));
            }
            self.visit_pat(&arm.pats[i]);
            proof {
                lemma_within_trans(ids0, ids1, self.ids@, used, pat_size(arm.pats@[i as int]));
            }
            i = i + 1;
        }
        let ghost ids2 = self.ids@;
        let ghost gsz = opt_expr_size(arm.guard);
        match &arm.guard {
            Some(g) => {
                assert(gsz == expr_size(**g));
                proof {
                    lemma_room_left(ids0, ids2, total, (arm_size(*arm) - total) as nat);
                    lemma_room_less(ids2, (arm_size(*arm) - total) as nat, gsz);
                }
                self.visit_expr(g);
                proof {
                    lemma_within_trans(ids0, ids2, self.ids@, total, gsz);
                }
            },
            None => {},
        }
        let ghost ids3 = self.ids@;
        proof {
            lemma_room_left(ids0, ids3, total + gsz, (arm_size(*arm) - total - gsz) as nat);
            lemma_room_less(ids3, (arm_size(*arm) - total - gsz) as nat, expr_size(*arm.body));
        }
        self.visit_expr(&arm.body);
        proof {
            lemma_within_trans(ids0, ids3, self.ids@, total + gsz, expr_size(*arm.body));
            lemma_within_more(self.ids@, ids0, total + gsz + expr_size(*arm.body), arm_size(*arm));
        }
    }
}

/// Room for a fresh printer.
proof fn lemma_start_room(root: Seq<char>, n: nat)
    requires
        n <= usize::MAX,
    ensures
        room(PrintState::start(root).ids, n),
{
}

/// The lint.
#[derive(Copy, Clone, Debug)]
pub struct Pass;

impl Pass {
    /// For a marked expression, the code that matches it.
    pub fn check_expr(&self, expr: &Expr) -> (r: String)
        requires
            expr_size(*expr) <= usize::MAX,
        ensures
            r@ == report(expr.attrs@, print_expr(*expr, PrintState::start("expr"@)).out),
    {
        if !has_attr(&expr.attrs) {
            return String::new();
        }
        let mut v = PrintVisitor::new("expr");
        proof {
            lemma_start_room("expr"@, expr_size(*expr));
        }
        v.visit_expr(expr);
        let mut r = String::from_str("if_chain! {\n");
        r.append(v.out.as_str());
        finish(&mut r);
        proof {
            assert(r@ =~= report(expr.attrs@, print_expr(*expr, PrintState::start("expr"@)).out));
        }
        r
    }

    /// For a marked statement, the code that matches it.
    pub fn check_stmt(&self, stmt: &Stmt) -> (r: String)
        requires
            stmt_size(*stmt) <= usize::MAX,
        ensures
            r@ == report(stmt_attrs(*stmt), print_stmt(*stmt, PrintState::start("stmt"@)).out),
    {
        if !has_attr(stmt_attributes(stmt)) {
            return String::new();
        }
        let mut v = PrintVisitor::new("stmt");
        proof {
            lemma_start_room("stmt"@, stmt_size(*stmt));
        }
        v.visit_stmt(stmt);
        let mut r = String::from_str("if_chain! {\n");
        r.append(v.out.as_str());
        finish(&mut r);
        proof {
            assert(r@ =~= report(stmt_attrs(*stmt), print_stmt(*stmt, PrintState::start("stmt"@)).out));
        }
        r
    }

    /// For a marked arm, the code that matches it.
    pub fn check_arm(&self, arm: &Arm) -> (r: String)
        requires
            arm_size(*arm) <= usize::MAX,
        ensures
            r@ == report(arm.attrs@, print_arm(*arm, PrintState::start("arm"@)).out),
    {
        if !has_attr(&arm.attrs) {
            return String::new();
        }
        let mut v = PrintVisitor::new("arm");
        proof {
            lemma_start_room("arm"@, arm_size(*arm));
        }
        v.visit_arm(arm);
        let mut r = String::from_str("if_chain! {\n");
        r.append(v.out.as_str());
        finish(&mut r);
        proof {
            assert(r@ =~= report(arm.attrs@, print_arm(*arm, PrintState::start("arm"@)).out));
        }
        r
    }

    /// For a marked item, field, variant or foreign item: the printer does
    /// not enter item bodies, so the code is the frame alone.
    pub fn check_item(&self, attrs: &Vec<Attribute>) -> (r: String)
        ensures
            r@ == report(attrs@, Seq::empty()),
    {
        if !has_attr(attrs) {
            return String::new();
        }
        let mut r = String::from_str("if_chain! {\n");
        finish(&mut r);
        proof {
            assert(r@ =~= report(attrs@, Seq::empty()));
        }
        r
    }
}

/// Writes what closes the generated code.
fn finish(r: &mut String)
    ensures
        final(r)@ == old(r)@ + done_text(),
{
    r.append("    then {\n");
    r.append("        // report your lint here\n");
    r.append("    }\n");
    r.append("}\n");
    proof {
        assert(final(r)@ =~= old(r)@ + done_text());
    }
}

/// Different binary operators are printed under different names, so the
/// printed pattern matches only the operator of the marked expression.
pub proof fn law_binop_text_injective(a: BinOpKind, b: BinOpKind)
    ensures
        binop_text(a) == binop_text(b) ==> a == b,
{
    reveal_strlit("Add");
    reveal_strlit("Sub");
    reveal_strlit("Mul");
    reveal_strlit("Div");
    reveal_strlit("Rem");
    reveal_strlit("And");
    reveal_strlit("Or");
    reveal_strlit("BitXor");
    reveal_strlit("BitAnd");
    reveal_strlit("BitOr");
    reveal_strlit("Shl");
    reveal_strlit("Shr");
    reveal_strlit("Eq");
    reveal_strlit("Lt");
    reveal_strlit("Le");
    reveal_strlit("Ne");
    reveal_strlit("Ge");
    reveal_strlit("Gt");
    if binop_text(a) == binop_text(b) && a != b {
        assert(binop_text(a)[0] == binop_text(b)[0]);
        assert(binop_text(a).len() == binop_text(b).len());
        assert(binop_text(a)[1] == binop_text(b)[1]);
        if binop_text(a).len() > 2 {
            assert(binop_text(a)[2] == binop_text(b)[2]);
        }
        if binop_text(a).len() > 3 {
            assert(binop_text(a)[3] == binop_text(b)[3]);
        }
        assert(false);
    }
}

/// Different unary operators are printed under different names.
pub proof fn law_unop_text_injective(a: UnOpKind, b: UnOpKind)
    ensures
        unop_text(a) == unop_text(b) ==> a == b,
{
    reveal_strlit("UnDeref");
    reveal_strlit("UnNot");
    reveal_strlit("UnNeg");
    if unop_text(a) == unop_text(b) && a != b {
        assert(unop_text(a).len() == unop_text(b).len());
        assert(unop_text(a)[3] == unop_text(b)[3]);
        assert(false);
    }
}

} // verus!
