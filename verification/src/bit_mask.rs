//! The bit mask lints: comparisons of `x & m` or `x | m` with a constant
//! that are always or never true, masks a comparison makes useless, and
//! masks clearer as a `trailing_zeros` call.
use vstd::prelude::*;
use crate::consts::{BinOp, ConstantView, Expr, LitKind, constant, eval, pointer_bits_wf};

verus! {

/// How a masked value always compares.
#[derive(Copy, Clone, Debug, PartialEq, Eq, Structural)]
pub enum Relation {
    NeverEqual,
    AlwaysLower,
    NeverLower,
    NeverHigher,
    AlwaysHigher,
}

/// What a bit mask lint reports.
#[derive(Copy, Clone, Debug, PartialEq, Eq, Structural)]
pub enum BitMaskLint {
    /// `_ <bit_op> mask` compared with `value` has a fixed outcome.
    Incompatible { bit_op: BinOp, mask: u128, value: u128, relation: Relation },
    /// `_ & 0` is compared.
    AndWithZero,
    /// `x <bit_op> mask` compares with `value` as `x` itself does.
    Ineffective { bit_op: BinOp, mask: u128, value: u128 },
    /// `x & mask == 0` is `x.trailing_zeros() >= ones`.
    Verbose { ones: u32 },
}

/// Whether `c` is a power of two.
pub open spec fn is_pow2(c: u128) -> bool {
    exists|k: u32| k < 128 && c == (1u128 << k)
}

/// Whether `c` is a power of two.
pub fn is_power_of_two(c: u128) -> (r: bool)
    ensures
        r == is_pow2(c),
{
    let mut k: u32 = 0;
    while k < 128
        invariant
            k <= 128,
            forall|j: u32| j < k ==> c != (1u128 << j),
        decreases 128 - k,
    {
        if c == (1u128 << k) {
            return true;
        }
        k = k + 1;
    }
    proof {
        if is_pow2(c) {
            let j = choose|j: u32| j < 128 && c == (1u128 << j);
            assert(c != (1u128 << j));
        }
    }
    false
}

/// The comparison that holds with its operands swapped.
pub open spec fn spec_invert_cmp(value: BinOp) -> BinOp {
    match value {
        BinOp::Eq => BinOp::Eq,
        BinOp::Ne => BinOp::Ne,
        BinOp::Lt => BinOp::Gt,
        BinOp::Gt => BinOp::Lt,
        BinOp::Le => BinOp::Ge,
        BinOp::Ge => BinOp::Le,
        _ => BinOp::Or,
    }
}

/// The comparison that holds with its operands swapped; `Or` for an
/// operator that is not a comparison.
pub fn invert_cmp(value: BinOp) -> (r: BinOp)
    ensures
        r == spec_invert_cmp(value),
{
    match value {
        BinOp::Eq => BinOp::Eq,
        BinOp::Ne => BinOp::Ne,
        BinOp::Lt => BinOp::Gt,
        BinOp::Gt => BinOp::Lt,
        BinOp::Le => BinOp::Ge,
        BinOp::Ge => BinOp::Le,
        _ => BinOp::Or,
    }
}

/// `x op m < c` (or `>=`) is `x < c` (or `>=`) when `c` is a power of two above `m`.
pub open spec fn spec_ineffective_lt(m: u128, c: u128, op: BinOp) -> Option<BitMaskLint> {
    if is_pow2(c) && m < c {
        Some(BitMaskLint::Ineffective { bit_op: op, mask: m, value: c })
    } else {
        None
    }
}

/// `x op m > c` (or `<=`) is `x > c` (or `<=`) when `c + 1` is a power of two and `m <= c`.
pub open spec fn spec_ineffective_gt(m: u128, c: u128, op: BinOp) -> Option<BitMaskLint> {
    if is_pow2((c + 1) as u128) && m <= c {
        Some(BitMaskLint::Ineffective { bit_op: op, mask: m, value: c })
    } else {
        None
    }
}

/// The lint for `x op m < c` or `>=`, if any.
pub fn check_ineffective_lt(m: u128, c: u128, op: BinOp) -> (r: Option<BitMaskLint>)
    ensures
        r == spec_ineffective_lt(m, c, op),
{
    if is_power_of_two(c) && m < c {
        Some(BitMaskLint::Ineffective { bit_op: op, mask: m, value: c })
    } else {
        None
    }
}

/// The lint for `x op m > c` or `<=`, if any.
pub fn check_ineffective_gt(m: u128, c: u128, op: BinOp) -> (r: Option<BitMaskLint>)
    requires
        c < u128::MAX,
    ensures
        r == spec_ineffective_gt(m, c, op),
{
    if is_power_of_two(c + 1) && m <= c {
        Some(BitMaskLint::Ineffective { bit_op: op, mask: m, value: c })
    } else {
        None
    }
}

/// Whether checking `_ bit_op mask comparison value` computes `value + 1` where it overflows.
pub open spec fn bit_mask_overflows(bit_op: BinOp, comparison: BinOp, mask: u128, value: u128) -> bool {
    &&& (comparison == BinOp::Le || comparison == BinOp::Gt)
    &&& value == u128::MAX
    &&& (bit_op == BinOp::BitXor || (bit_op == BinOp::BitOr && mask <= value))
}

/// The lint for `_ bit_op mask comparison value`, if any.
pub open spec fn spec_check_bit_mask(bit_op: BinOp, comparison: BinOp, mask: u128, value: u128) -> Option<BitMaskLint> {
    let incompatible = |relation: Relation|
        Some(BitMaskLint::Incompatible { bit_op, mask, value, relation });
    match comparison {
        BinOp::Eq | BinOp::Ne => match bit_op {
            BinOp::BitAnd => if mask & value != value {
                if value != 0 {
                    incompatible(Relation::NeverEqual)
                } else {
                    None
                }
            } else if mask == 0 {
                Some(BitMaskLint::AndWithZero)
            } else {
                None
            },
            BinOp::BitOr => if mask | value != value {
                incompatible(Relation::NeverEqual)
            } else {
                None
            },
            _ => None,
        },
        BinOp::Lt | BinOp::Ge => match bit_op {
            BinOp::BitAnd => if mask < value {
                incompatible(Relation::AlwaysLower)
            } else if mask == 0 {
                Some(BitMaskLint::AndWithZero)
            } else {
                None
            },
            BinOp::BitOr => if mask >= value {
                incompatible(Relation::NeverLower)
            } else {
                spec_ineffective_lt(mask, value, BinOp::BitOr)
            },
            BinOp::BitXor => spec_ineffective_lt(mask, value, BinOp::BitXor),
            _ => None,
        },
        BinOp::Le | BinOp::Gt => match bit_op {
            BinOp::BitAnd => if mask <= value {
                incompatible(Relation::NeverHigher)
            } else if mask == 0 {
                Some(BitMaskLint::AndWithZero)
            } else {
                None
            },
            BinOp::BitOr => if mask > value {
                incompatible(Relation::AlwaysHigher)
            } else {
                spec_ineffective_gt(mask, value, BinOp::BitOr)
            },
            BinOp::BitXor => spec_ineffective_gt(mask, value, BinOp::BitXor),
            _ => None,
        },
        _ => None,
    }
}

/// The lint for comparing `_ bit_op mask` with `value` by `comparison`, if any.
pub fn check_bit_mask(bit_op: BinOp, comparison: BinOp, mask: u128, value: u128) -> (r: Option<BitMaskLint>)
    requires
        !bit_mask_overflows(bit_op, comparison, mask, value),
    ensures
        r == spec_check_bit_mask(bit_op, comparison, mask, value),
{
    match comparison {
        BinOp::Eq | BinOp::Ne => match bit_op {
            BinOp::BitAnd => if mask & value != value {
                if value != 0 {
                    Some(
                        BitMaskLint::Incompatible {
                            bit_op,
                            mask,
                            value,
                            relation: Relation::NeverEqual,
                        },
                    )
                } else {
                    None
                }
            } else if mask == 0 {
                Some(BitMaskLint::AndWithZero)
            } else {
                None
            },
            BinOp::BitOr => if mask | value != value {
                Some(
                    BitMaskLint::Incompatible {
                        bit_op,
                        mask,
                        value,
                        relation: Relation::NeverEqual,
                    },
                )
            } else {
                None
            },
            _ => None,
        },
        BinOp::Lt | BinOp::Ge => match bit_op {
            BinOp::BitAnd => if mask < value {
                Some(
                    BitMaskLint::Incompatible {
                        bit_op,
                        mask,
                        value,
                        relation: Relation::AlwaysLower,
                    },
                )
            } else if mask == 0 {
                Some(BitMaskLint::AndWithZero)
            } else {
                None
            },
            BinOp::BitOr => if mask >= value {
                Some(
                    BitMaskLint::Incompatible {
                        bit_op,
                        mask,
                        value,
                        relation: Relation::NeverLower,
                    },
                )
            } else {
                check_ineffective_lt(mask, value, BinOp::BitOr)
            },
            BinOp::BitXor => check_ineffective_lt(mask, value, BinOp::BitXor),
            _ => None,
        },
        BinOp::Le | BinOp::Gt => match bit_op {
            BinOp::BitAnd => if mask <= value {
                Some(
                    BitMaskLint::Incompatible {
                        bit_op,
                        mask,
                        value,
                        relation: Relation::NeverHigher,
                    },
                )
            } else if mask == 0 {
                Some(BitMaskLint::AndWithZero)
            } else {
                None
            },
            BinOp::BitOr => if mask > value {
                Some(
                    BitMaskLint::Incompatible {
                        bit_op,
                        mask,
                        value,
                        relation: Relation::AlwaysHigher,
                    },
                )
            } else {
                check_ineffective_gt(mask, value, BinOp::BitOr)
            },
            BinOp::BitXor => check_ineffective_gt(mask, value, BinOp::BitXor),
            _ => None,
        },
        _ => None,
    }
}

/// The integer an expression folds to, if it folds to one.
pub open spec fn spec_int_literal(e: Expr, pointer_bits: u32) -> Option<u128> {
    match eval(e, pointer_bits).0 {
        Some(ConstantView::Int(n)) => Some(n),
        _ => None,
    }
}

/// The integer an expression folds to, if it folds to one.
pub fn fetch_int_literal(pointer_bits: u32, e: &Expr) -> (r: Option<u128>)
    requires
        pointer_bits_wf(pointer_bits),
    ensures
        r == spec_int_literal(*e, pointer_bits),
{
    match constant(pointer_bits, e) {
        Some((c, _)) => match c {
            crate::consts::Constant::Int(n) => Some(n),
            _ => None,
        },
        None => None,
    }
}

/// The mask of `_ & m` or `_ | m`: the right operand if it folds to an
/// integer, else the left one.
pub open spec fn spec_mask(e: Expr, pointer_bits: u32) -> Option<(BinOp, u128)> {
    match e {
        Expr::Binary(op, l, r, _) => if op == BinOp::BitAnd || op == BinOp::BitOr {
            match spec_int_literal(*r, pointer_bits) {
                Some(m) => Some((op, m)),
                None => match spec_int_literal(*l, pointer_bits) {
                    Some(m) => Some((op, m)),
                    None => None,
                },
            }
        } else {
            None
        },
        _ => None,
    }
}

/// Whether checking `bit_op_expr comparison value` computes `value + 1` where it overflows.
pub open spec fn compare_overflows(bit_op_expr: Expr, comparison: BinOp, value: u128, pointer_bits: u32) -> bool {
    match spec_mask(bit_op_expr, pointer_bits) {
        Some((op, m)) => bit_mask_overflows(op, comparison, m, value),
        None => false,
    }
}

/// The lint for comparing `bit_op_expr` with `value`, if it is `_ & m` or `_ | m`.
pub open spec fn spec_check_compare(bit_op_expr: Expr, comparison: BinOp, value: u128, pointer_bits: u32) -> Option<
    BitMaskLint,
> {
    match spec_mask(bit_op_expr, pointer_bits) {
        Some((op, m)) => spec_check_bit_mask(op, comparison, m, value),
        None => None,
    }
}

/// The lint for comparing `bit_op_expr` with `value` by `comparison`, if any.
pub fn check_compare(pointer_bits: u32, bit_op_expr: &Expr, comparison: BinOp, value: u128) -> (r:
    Option<BitMaskLint>)
    requires
        pointer_bits_wf(pointer_bits),
        !compare_overflows(*bit_op_expr, comparison, value, pointer_bits),
    ensures
        r == spec_check_compare(*bit_op_expr, comparison, value, pointer_bits),
{
    if let Expr::Binary(op, left, right, _) = bit_op_expr {
        if *op != BinOp::BitAnd && *op != BinOp::BitOr {
            return None;
        }
        let mask = match fetch_int_literal(pointer_bits, &**right) {
            Some(m) => Some(m),
            None => fetch_int_literal(pointer_bits, &**left),
        };
        match mask {
            Some(m) => check_bit_mask(*op, comparison, m, value),
            None => None,
        }
    } else {
        None
    }
}

/// Whether an operator compares.
pub open spec fn is_comparison(op: BinOp) -> bool {
    op == BinOp::Eq || op == BinOp::Lt || op == BinOp::Le || op == BinOp::Ne || op == BinOp::Ge
        || op == BinOp::Gt
}

/// The number that is `j` one bits, for `j <= 128`.
pub open spec fn low_ones(j: u32) -> u128 {
    if j >= 128 {
        u128::MAX
    } else {
        ((1u128 << j) - 1) as u128
    }
}

/// Whether `n`'s one bits are exactly its `j` lowest, for some `j`; that `j`.
fn low_ones_count(n: u128) -> (r: Option<u32>)
    ensures
        match r {
            Some(j) => j <= 128 && n == low_ones(j),
            None => forall|j: u32| j <= 128 ==> n != low_ones(j),
        },
{
    let mut j: u32 = 0;
    while j <= 128
        invariant
            j <= 129,
            forall|k: u32| k < j ==> n != low_ones(k),
        decreases 129 - j,
    {
        let ones = if j == 128 {
            u128::MAX
        } else {
            proof {
                assert(1u128 << j >= 1) by (bit_vector)
                    requires
                        j < 128,
                ;
            }
            (1u128 << j) - 1
        };
        if n == ones {
            return Some(j);
        }
        j = j + 1;
    }
    None
}

/// The bit mask lints, with the width below which masks stay unreported
/// as verbose.
#[derive(Copy, Clone, Debug)]
pub struct BitMask {
    pub verbose_bit_mask_threshold: u64,
}

/// The comparison lint an expression gets, if any.
pub open spec fn spec_compare_lint(e: Expr, pointer_bits: u32) -> Option<BitMaskLint> {
    match e {
        Expr::Binary(op, left, right, _) => if is_comparison(op) {
            match spec_int_literal(*right, pointer_bits) {
                Some(c) => spec_check_compare(*left, op, c, pointer_bits),
                None => match spec_int_literal(*left, pointer_bits) {
                    Some(v) => spec_check_compare(*right, spec_invert_cmp(op), v, pointer_bits),
                    None => None,
                },
            }
        } else {
            None
        },
        _ => None,
    }
}

/// Whether checking an expression computes a comparison value plus one where it overflows.
pub open spec fn expr_overflows(e: Expr, pointer_bits: u32) -> bool {
    match e {
        Expr::Binary(op, left, right, _) => is_comparison(op) && match spec_int_literal(
            *right,
            pointer_bits,
        ) {
            Some(c) => compare_overflows(*left, op, c, pointer_bits),
            None => match spec_int_literal(*left, pointer_bits) {
                Some(v) => compare_overflows(*right, spec_invert_cmp(op), v, pointer_bits),
                None => false,
            },
        },
        _ => false,
    }
}

/// The mask of `x & mask == 0`, written with literals, if the expression has that shape.
pub open spec fn verbose_mask(e: Expr) -> Option<u128> {
    match e {
        Expr::Binary(BinOp::Eq, left, right, _) => match (*left, *right) {
            (Expr::Binary(BinOp::BitAnd, _, mask, _), Expr::Lit(LitKind::Int(0))) => match *mask {
                Expr::Lit(LitKind::Int(n)) => Some(n),
                _ => None,
            },
            _ => None,
        },
        _ => None,
    }
}

impl BitMask {
    pub fn new(verbose_bit_mask_threshold: u64) -> (r: BitMask)
        ensures
            r.verbose_bit_mask_threshold == verbose_bit_mask_threshold,
    {
        BitMask { verbose_bit_mask_threshold }
    }

    /// The verbose mask lint an expression gets, if any.
    pub open spec fn spec_verbose_lint(&self, e: Expr) -> Option<BitMaskLint> {
        match verbose_mask(e) {
            Some(n) => if n > self.verbose_bit_mask_threshold && exists|j: u32|
                j <= 128 && n == #[trigger] low_ones(j) {
                Some(
                    BitMaskLint::Verbose {
                        ones: choose|j: u32| j <= 128 && n == #[trigger] low_ones(j),
                    },
                )
            } else {
                None
            },
            None => None,
        }
    }

    /// The lints an expression gets: first that of a comparison of a masked
    /// value with a constant, then that of a mask clearer as `trailing_zeros`.
    pub fn check_expr(&self, pointer_bits: u32, e: &Expr) -> (r: Vec<BitMaskLint>)
        requires
            pointer_bits_wf(pointer_bits),
            !expr_overflows(*e, pointer_bits),
        ensures
            r@ == match spec_compare_lint(*e, pointer_bits) {
                Some(l) => seq![l],
                None => Seq::empty(),
            } + match self.spec_verbose_lint(*e) {
                Some(l) => seq![l],
                None => Seq::empty(),
            },
    {
        let mut out: Vec<BitMaskLint> = Vec::new();
        if let Expr::Binary(op, left, right, _) = e {
            let compares = match op {
                BinOp::Eq | BinOp::Lt | BinOp::Le | BinOp::Ne | BinOp::Ge | BinOp::Gt => true,
                _ => false,
            };
            if compares {
                match fetch_int_literal(pointer_bits, &**right) {
                    Some(c) => {
                        if let Some(l) = check_compare(pointer_bits, &**left, *op, c) {
                            out.push(l);
                        }
                    },
                    None => match fetch_int_literal(pointer_bits, &**left) {
                        Some(v) => {
                            if let Some(l) = check_compare(pointer_bits, &**right, invert_cmp(*op), v) {
                                out.push(l);
                            }
                        },
                        None => {},
                    },
                }
            }
        }
        let ghost first = out@;
        if let Expr::Binary(BinOp::Eq, left, right, _) = e {
            if let Expr::Binary(BinOp::BitAnd, _, mask, _) = &**left {
                if let Expr::Lit(LitKind::Int(n)) = &**mask {
                    if let Expr::Lit(LitKind::Int(zero)) = &**right {
                        if *zero == 0 {
                            if let Some(ones) = low_ones_count(*n) {
                                if above_threshold(*n, self.verbose_bit_mask_threshold) {
                                    proof {
                                        assert(*n == low_ones(ones));
                                        let k = choose|k: u32| k <= 128 && *n == #[trigger] low_ones(k);
                                        lemma_low_ones_injective(ones, k);
                                    }
                                    out.push(BitMaskLint::Verbose { ones });
                                }
                            }
                        }
                    }
                }
            }
        }
        out
    }
}

/// Whether `n` exceeds `threshold`.
fn above_threshold(n: u128, threshold: u64) -> (r: bool)
    ensures
        r == (n > threshold),
{
    n > threshold as u128
}

/// Different counts of low one bits give different numbers.
proof fn lemma_low_ones_injective(a: u32, b: u32)
    requires
        a <= 128,
        b <= 128,
        low_ones(a) == low_ones(b),
    ensures
        a == b,
{
    if a < 128 && b < 128 {
        assert(a < 128 && b < 128 && ((1u128 << a) - 1) as u128 == ((1u128 << b) - 1) as u128 ==> a == b)
            by (bit_vector);
    } else if a < 128 {
        assert(a < 128 ==> ((1u128 << a) - 1) as u128 != u128::MAX) by (bit_vector);
    } else if b < 128 {
        assert(b < 128 ==> ((1u128 << b) - 1) as u128 != u128::MAX) by (bit_vector);
    }
}

/// `x & m` or `x | m`, or `x ^ m`.
pub open spec fn masked(bit_op: BinOp, x: u128, m: u128) -> u128 {
    if bit_op == BinOp::BitAnd {
        x & m
    } else if bit_op == BinOp::BitOr {
        x | m
    } else {
        x ^ m
    }
}

/// What the bit mask lints report holds: a comparison reported as having a
/// fixed outcome has it for every `x`, and a mask reported as ineffective
/// leaves the comparison's outcome that of `x` itself.
pub proof fn law_bit_mask_reports_hold(bit_op: BinOp, comparison: BinOp, mask: u128, value: u128, x: u128)
    requires
        spec_check_bit_mask(bit_op, comparison, mask, value) is Some,
    ensures
        match spec_check_bit_mask(bit_op, comparison, mask, value) {
            Some(BitMaskLint::Incompatible { relation, .. }) => match relation {
                Relation::NeverEqual => masked(bit_op, x, mask) != value,
                Relation::AlwaysLower => masked(bit_op, x, mask) < value,
                Relation::NeverLower => masked(bit_op, x, mask) >= value,
                Relation::NeverHigher => masked(bit_op, x, mask) <= value,
                Relation::AlwaysHigher => masked(bit_op, x, mask) > value,
            },
            Some(BitMaskLint::AndWithZero) => masked(bit_op, x, mask) == 0,
            Some(BitMaskLint::Ineffective { .. }) => if comparison == BinOp::Lt || comparison
                == BinOp::Ge {
                (masked(bit_op, x, mask) < value) == (x < value)
            } else {
                (masked(bit_op, x, mask) > value) == (x > value)
            },
            _ => true,
        },
{
    let m = mask;
    let c = value;
    assert((x & m) <= m && (x | m) >= m) by (bit_vector);
    assert(m & c != c ==> (x & m) != c) by (bit_vector);
    assert(m | c != c ==> (x | m) != c) by (bit_vector);
    assert(x & 0 == 0) by (bit_vector);
    match spec_check_bit_mask(bit_op, comparison, mask, value) {
        Some(BitMaskLint::Ineffective { .. }) => {
            if comparison == BinOp::Lt || comparison == BinOp::Ge {
                let k = choose|k: u32| k < 128 && c == (1u128 << k);
                assert(k < 128 && c == (1u128 << k) && m < c ==> ((x | m) < c) == (x < c) && ((x
                    ^ m) < c) == (x < c)) by (bit_vector);
            } else {
                let d = (c + 1) as u128;
                let k = choose|k: u32| k < 128 && d == (1u128 << k);
                assert(k < 128 && d == (1u128 << k) && d == c + 1 && m <= c ==> ((x | m) > c) == (x
                    > c) && ((x ^ m) > c) == (x > c)) by (bit_vector);
            }
        },
        _ => {},
    }
}

/// Whenever a mask cannot change how `x op mask` compares with `value`, the
/// lint reports it as ineffective: for `>` and `<=` when `value + 1` is a
/// power of two and the mask is at most `value`; for `<` and `>=` when
/// `value` is a power of two above the mask; for `^` as for `|`.
pub proof fn law_ineffective_masks_reported(bit_op: BinOp, comparison: BinOp, mask: u128, value: u128)
    requires
        bit_op == BinOp::BitXor || bit_op == BinOp::BitOr,
    ensures
        (comparison == BinOp::Gt || comparison == BinOp::Le) && value < u128::MAX && is_pow2(
            (value + 1) as u128,
        ) && mask <= value ==> spec_check_bit_mask(bit_op, comparison, mask, value) == Some(
            BitMaskLint::Ineffective { bit_op, mask, value },
        ),
        (comparison == BinOp::Lt || comparison == BinOp::Ge) && is_pow2(value) && mask < value
            ==> spec_check_bit_mask(bit_op, comparison, mask, value) == Some(
            BitMaskLint::Ineffective { bit_op, mask, value },
        ),
{
}

} // verus!
