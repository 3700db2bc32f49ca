//! The `int_plus_one` lint: `x >= y + 1` is better written `x > y`, and
//! `x + 1 <= y` is better written `x < y`.
use vstd::prelude::*;
use crate::consts::BinOp;

verus! {

/// Literals, as far as the lint looks at them.
#[derive(Copy, Clone, Debug, PartialEq, Eq, Structural)]
pub enum AstLit {
    Int(u128),
    Other,
}

/// The shapes of expression the lint looks at.
#[derive(Debug)]
pub enum AstExprKind {
    Binary(BinOp, Box<AstExpr>, Box<AstExpr>),
    Lit(AstLit),
    Other,
}

/// An expression and its source text, where that is known.
#[derive(Debug)]
pub struct AstExpr {
    pub kind: AstExprKind,
    pub snippet: Option<String>,
}

/// Which side of the comparison the simplified operand stands on.
#[derive(Copy, Clone, Debug, PartialEq, Eq, Structural)]
pub enum Side {
    LHS,
    RHS,
}

/// The lint.
#[derive(Copy, Clone, Debug)]
pub struct IntPlusOne;

/// Whether `e` is the integer literal `value`.
pub open spec fn is_int_lit(e: AstExpr, value: u128) -> bool {
    e.kind matches AstExprKind::Lit(AstLit::Int(n)) && n == value
}

/// The operand to keep, the other side, and the side the operand stands
/// on, when `lhs binop rhs` adds or subtracts one needlessly: `x - 1 >= y`,
/// `x >= y + 1`, `x + 1 <= y`, `x <= y - 1`, with the literal on either
/// side of `+` (a `-1` only as a literal of that bit pattern).
pub open spec fn plus_one_case(binop: BinOp, lhs: AstExpr, rhs: AstExpr) -> Option<(AstExpr, AstExpr, Side)> {
    match binop {
        BinOp::Ge => match lhs.kind {
            AstExprKind::Binary(k, ll, lr) => if k == BinOp::Add && is_int_lit(*ll, u128::MAX) {
                Some((*lr, rhs, Side::LHS))
            } else if k == BinOp::Sub && is_int_lit(*lr, 1) {
                Some((*ll, rhs, Side::LHS))
            } else {
                None
            },
            _ => match rhs.kind {
                AstExprKind::Binary(k, rl, rr) => if k == BinOp::Add {
                    if is_int_lit(*rl, 1) {
                        Some((*rr, lhs, Side::RHS))
                    } else if is_int_lit(*rr, 1) {
                        Some((*rl, lhs, Side::RHS))
                    } else {
                        None
                    }
                } else {
                    None
                },
                _ => None,
            },
        },
        BinOp::Le => match lhs.kind {
            AstExprKind::Binary(k, ll, lr) if k == BinOp::Add => if is_int_lit(*ll, 1) {
                Some((*lr, rhs, Side::LHS))
            } else if is_int_lit(*lr, 1) {
                Some((*ll, rhs, Side::LHS))
            } else {
                None
            },
            _ => match rhs.kind {
                AstExprKind::Binary(k, rl, rr) => if k == BinOp::Add && is_int_lit(*rl, u128::MAX) {
                    Some((*rr, lhs, Side::RHS))
                } else if k == BinOp::Sub && is_int_lit(*rr, 1) {
                    Some((*rl, lhs, Side::RHS))
                } else {
                    None
                },
                _ => None,
            },
        },
        _ => None,
    }
}

/// `a op b`, with a space on each side of the operator.
pub open spec fn joined(a: Seq<char>, op: char, b: Seq<char>) -> Seq<char> {
    a + seq![' ', op, ' '] + b
}

/// The recommended comparison: `>` for `>=` and `<` for `<=`, between the
/// source texts of the kept operand and the other side, in their order.
pub open spec fn spec_recommendation(binop: BinOp, node: AstExpr, other: AstExpr, side: Side) -> Option<Seq<char>> {
    let op = if binop == BinOp::Ge {
        '>'
    } else {
        '<'
    };
    if binop != BinOp::Ge && binop != BinOp::Le {
        None
    } else {
        match (node.snippet, other.snippet) {
            (Some(a), Some(b)) => Some(
                match side {
                    Side::LHS => joined(a@, op, b@),
                    Side::RHS => joined(b@, op, a@),
                },
            ),
            _ => None,
        }
    }
}

/// The view of an optional string.
pub open spec fn opt_string_view(s: Option<String>) -> Option<Seq<char>> {
    match s {
        Some(t) => Some(t@),
        None => None,
    }
}

impl IntPlusOne {
    /// Whether `lit` is the integer `target_value`, read as 128 bits.
    pub fn check_lit(&self, lit: &AstLit, target_value: i128) -> (r: bool)
        ensures
            r == (*lit matches AstLit::Int(n) && n == target_value as u128),
    {
        if let AstLit::Int(value) = lit {
            return *value == (target_value as u128);
        }
        false
    }

    /// Whether `e` is a literal that is the integer `target_value`.
    fn lit_is(&self, e: &AstExpr, target_value: i128) -> (r: bool)
        ensures
            r == (e.kind matches AstExprKind::Lit(AstLit::Int(n)) && n == target_value as u128),
    {
        match &e.kind {
            AstExprKind::Lit(lit) => self.check_lit(lit, target_value),
            _ => false,
        }
    }

    /// The recommended comparison for `node` against `other_side`.
    pub fn generate_recommendation(&self, binop: BinOp, node: &AstExpr, other_side: &AstExpr, side: Side) -> (r:
        Option<String>)
        ensures
            opt_string_view(r) == spec_recommendation(binop, *node, *other_side, side),
    {
        let binop_string = match binop {
            BinOp::Ge => " > ",
            BinOp::Le => " < ",
            _ => {
                return None;
            },
        };
        proof {
            reveal_strlit(" > ");
            reveal_strlit(" < ");
        }
        if let Some(snippet) = &node.snippet {
            if let Some(other_side_snippet) = &other_side.snippet {
                let (first, second) = match side {
                    Side::LHS => (snippet, other_side_snippet),
                    Side::RHS => (other_side_snippet, snippet),
                };
                let mut rec = first.clone();
                rec.append(binop_string);
                rec.append(second.as_str());
                proof {
                    let op = if binop == BinOp::Ge {
                        '>'
                    } else {
                        '<'
                    };
                    assert(binop_string@ =~= seq![' ', op, ' ']);
                    assert(rec@ =~= joined(first@, op, second@));
                }
                return Some(rec);
            }
        }
        None
    }

    /// The recommendation for `lhs binop rhs`, if it adds or subtracts one needlessly.
    pub fn check_binop(&self, binop: BinOp, lhs: &AstExpr, rhs: &AstExpr) -> (r: Option<String>)
        ensures
            opt_string_view(r) == match plus_one_case(binop, *lhs, *rhs) {
                Some((node, other, side)) => spec_recommendation(binop, node, other, side),
                None => None,
            },
    {
        proof {
            assert(-1i128 as u128 == u128::MAX) by (bit_vector);
            assert(1i128 as u128 == 1u128) by (bit_vector);
        }
        match binop {
            BinOp::Ge => {
                if let AstExprKind::Binary(lhskind, lhslhs, lhsrhs) = &lhs.kind {
                    if *lhskind == BinOp::Add && self.lit_is(&**lhslhs, -1) {
                        return self.generate_recommendation(binop, &**lhsrhs, rhs, Side::LHS);
                    }
                    if *lhskind == BinOp::Sub && self.lit_is(&**lhsrhs, 1) {
                        return self.generate_recommendation(binop, &**lhslhs, rhs, Side::LHS);
                    }
                    return None;
                }
                if let AstExprKind::Binary(rhskind, rhslhs, rhsrhs) = &rhs.kind {
                    if *rhskind == BinOp::Add {
                        if self.lit_is(&**rhslhs, 1) {
                            return self.generate_recommendation(binop, &**rhsrhs, lhs, Side::RHS);
                        }
                        if self.lit_is(&**rhsrhs, 1) {
                            return self.generate_recommendation(binop, &**rhslhs, lhs, Side::RHS);
                        }
                    }
                }
                None
            },
            BinOp::Le => {
                if let AstExprKind::Binary(lhskind, lhslhs, lhsrhs) = &lhs.kind {
                    if *lhskind == BinOp::Add {
                        if self.lit_is(&**lhslhs, 1) {
                            return self.generate_recommendation(binop, &**lhsrhs, rhs, Side::LHS);
                        }
                        if self.lit_is(&**lhsrhs, 1) {
                            return self.generate_recommendation(binop, &**lhslhs, rhs, Side::LHS);
                        }
                        return None;
                    }
                }
                if let AstExprKind::Binary(rhskind, rhslhs, rhsrhs) = &rhs.kind {
                    if *rhskind == BinOp::Add && self.lit_is(&**rhslhs, -1) {
                        return self.generate_recommendation(binop, &**rhsrhs, lhs, Side::RHS);
                    }
                    if *rhskind == BinOp::Sub && self.lit_is(&**rhsrhs, 1) {
                        return self.generate_recommendation(binop, &**rhslhs, lhs, Side::RHS);
                    }
                }
                None
            },
            _ => None,
        }
    }

    /// The recommendation for an expression, if it is a comparison that adds
    /// or subtracts one needlessly.
    pub fn check_expr(&self, item: &AstExpr) -> (r: Option<String>)
        ensures
            opt_string_view(r) == match item.kind {
                AstExprKind::Binary(kind, lhs, rhs) => match plus_one_case(kind, *lhs, *rhs) {
                    Some((node, other, side)) => spec_recommendation(kind, node, other, side),
                    None => None,
                },
                _ => None,
            },
    {
        match &item.kind {
            AstExprKind::Binary(kind, lhs, rhs) => self.check_binop(*kind, &**lhs, &**rhs),
            _ => None,
        }
    }
}

/// For `a + b <= y`, and for `y >= a + b`, where one operand of `+` is the
/// literal 1, the recommendation compares the other operand with `y` by `<`
/// (or `>`), whichever side of `+` the literal is on.
pub proof fn law_plus_one_either_operand(
    a: AstExpr,
    b: AstExpr,
    sum: AstExpr,
    y: AstExpr,
    other: Seq<char>,
    side: Seq<char>,
)
    requires
        sum.kind == AstExprKind::Binary(BinOp::Add, Box::new(a), Box::new(b)),
        is_int_lit(a, 1) || is_int_lit(b, 1),
        opt_string_view(if is_int_lit(a, 1) { b.snippet } else { a.snippet }) == Some(other),
        opt_string_view(y.snippet) == Some(side),
    ensures
        match plus_one_case(BinOp::Le, sum, y) {
            Some((node, o, s)) => spec_recommendation(BinOp::Le, node, o, s),
            None => None,
        } == Some(joined(other, '<', side)),
        !(y.kind is Binary) ==> match plus_one_case(BinOp::Ge, y, sum) {
            Some((node, o, s)) => spec_recommendation(BinOp::Ge, node, o, s),
            None => None,
        } == Some(joined(side, '>', other)),
{
}

/// For `a - 1 >= y` and `-1 + a >= y`, and for `y <= a - 1` and
/// `y <= -1 + a`, the recommendation compares `a` with `y` by `>` (or `<`).
pub proof fn law_minus_one(a: AstExpr, one: AstExpr, diff: AstExpr, y: AstExpr, sa: Seq<char>, sy: Seq<char>)
    requires
        (is_int_lit(one, 1) && diff.kind == AstExprKind::Binary(BinOp::Sub, Box::new(a), Box::new(one)))
            || (is_int_lit(one, u128::MAX) && diff.kind == AstExprKind::Binary(
            BinOp::Add,
            Box::new(one),
            Box::new(a),
        )),
        opt_string_view(a.snippet) == Some(sa),
        opt_string_view(y.snippet) == Some(sy),
    ensures
        match plus_one_case(BinOp::Ge, diff, y) {
            Some((node, o, s)) => spec_recommendation(BinOp::Ge, node, o, s),
            None => None,
        } == Some(joined(sa, '>', sy)),
        !(y.kind is Binary) ==> match plus_one_case(BinOp::Le, y, diff) {
            Some((node, o, s)) => spec_recommendation(BinOp::Le, node, o, s),
            None => None,
        } == Some(joined(sy, '<', sa)),
{
}

} // verus!
