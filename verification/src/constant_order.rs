//! Equality and order of folded constants: equal when their values are;
//! ordered within a kind, strings and sequences lexicographically, and
//! unordered across kinds and between byte strings.
use vstd::prelude::*;
use std::cmp::Ordering;
use crate::consts::{cview, cviews, Constant, ConstantView};
use crate::text::chars_of;

verus! {

/// The values of a sequence of constants, element by element.
pub proof fn lemma_cviews(s: Seq<Constant>)
    ensures
        cviews(s).len() == s.len(),
        forall|i: int| 0 <= i < s.len() ==> #[trigger] cviews(s)[i] == cview(s[i]),
    decreases s.len(),
{
    if s.len() > 0 {
        lemma_cviews(s.drop_last());
    }
}

/// The order of two numbers.
pub open spec fn order_u128(a: u128, b: u128) -> Ordering {
    if a < b {
        Ordering::Less
    } else if a == b {
        Ordering::Equal
    } else {
        Ordering::Greater
    }
}

/// The order of two numbers.
pub open spec fn order_u64(a: u64, b: u64) -> Ordering {
    if a < b {
        Ordering::Less
    } else if a == b {
        Ordering::Equal
    } else {
        Ordering::Greater
    }
}

/// The order of two lengths.
pub open spec fn order_nat(a: nat, b: nat) -> Ordering {
    if a < b {
        Ordering::Less
    } else if a == b {
        Ordering::Equal
    } else {
        Ordering::Greater
    }
}

/// The lexicographic order of two character sequences, by code point.
pub open spec fn chars_order(a: Seq<char>, b: Seq<char>) -> Ordering
    decreases a.len(),
{
    if a.len() == 0 {
        if b.len() == 0 {
            Ordering::Equal
        } else {
            Ordering::Less
        }
    } else if b.len() == 0 {
        Ordering::Greater
    } else if a[0] < b[0] {
        Ordering::Less
    } else if a[0] > b[0] {
        Ordering::Greater
    } else {
        chars_order(a.skip(1), b.skip(1))
    }
}

/// The order of two constant values: within a kind; strings, arrays and
/// tuples lexicographically, a repetition by its value then its count;
/// none across kinds and none between byte strings.
pub open spec fn constant_order(a: ConstantView, b: ConstantView) -> Option<Ordering>
    decreases a, 1nat,
{
    match a {
        ConstantView::Str(l) => match b {
            ConstantView::Str(r) => Some(chars_order(l, r)),
            _ => None,
        },
        ConstantView::Char(l) => match b {
            ConstantView::Char(r) => Some(if l < r {
                Ordering::Less
            } else if l == r {
                Ordering::Equal
            } else {
                Ordering::Greater
            }),
            _ => None,
        },
        ConstantView::Int(l) => match b {
            ConstantView::Int(r) => Some(order_u128(l, r)),
            _ => None,
        },
        ConstantView::Bool(l) => match b {
            ConstantView::Bool(r) => Some(if l == r {
                Ordering::Equal
            } else if !l {
                Ordering::Less
            } else {
                Ordering::Greater
            }),
            _ => None,
        },
        ConstantView::Tuple(l) => match b {
            ConstantView::Tuple(r) => seq_order(l, r, 0),
            _ => None,
        },
        ConstantView::Vec(l) => match b {
            ConstantView::Vec(r) => seq_order(l, r, 0),
            _ => None,
        },
        ConstantView::Repeat(lv, ls) => match b {
            ConstantView::Repeat(rv, rs) => match constant_order(*lv, *rv) {
                Some(Ordering::Equal) => Some(order_u64(ls, rs)),
                x => x,
            },
            _ => None,
        },
        ConstantView::Binary(_) => None,
    }
}

/// The lexicographic order of two sequences of constant values from `i` on:
/// the first pair that is not equal decides, and where one sequence ends
/// first, the shorter is less.
pub open spec fn seq_order(l: Seq<ConstantView>, r: Seq<ConstantView>, i: int) -> Option<Ordering>
    decreases l, l.len() - i,
{
    if 0 <= i < l.len() && i < r.len() {
        match constant_order(l[i], r[i]) {
            Some(Ordering::Equal) => seq_order(l, r, i + 1),
            x => x,
        }
    } else {
        Some(order_nat(l.len(), r.len()))
    }
}

/// The order of two numbers.
fn cmp_u128(a: u128, b: u128) -> (r: Ordering)
    ensures
        r == order_u128(a, b),
{
    if a < b {
        Ordering::Less
    } else if a == b {
        Ordering::Equal
    } else {
        Ordering::Greater
    }
}

/// The order of two numbers.
fn cmp_u64(a: u64, b: u64) -> (r: Ordering)
    ensures
        r == order_u64(a, b),
{
    if a < b {
        Ordering::Less
    } else if a == b {
        Ordering::Equal
    } else {
        Ordering::Greater
    }
}

/// The order of two lengths.
fn cmp_len(a: usize, b: usize) -> (r: Ordering)
    ensures
        a < b ==> r == Ordering::Less,
        a == b ==> r == Ordering::Equal,
        a > b ==> r == Ordering::Greater,
{
    if a < b {
        Ordering::Less
    } else if a == b {
        Ordering::Equal
    } else {
        Ordering::Greater
    }
}

/// The lexicographic order of two strings, by code point.
fn str_order(a: &str, b: &str) -> (r: Ordering)
    ensures
        r == chars_order(a@, b@),
{
    let x = chars_of(a);
    let y = chars_of(b);
    let mut i: usize = 0;
    let ghost mut gi: int = 0;
    proof {
        assert(a@.skip(0) =~= a@);
        assert(b@.skip(0) =~= b@);
    }
    while i < x.len() && i < y.len() && x[i] == y[i]
        invariant
            x@ == a@,
            y@ == b@,
            gi == i,
            i <= x@.len(),
            i <= y@.len(),
            chars_order(a@, b@) == chars_order(a@.skip(gi), b@.skip(gi)),
        decreases x@.len() - i,
    {
        proof {
            assert(a@.skip(gi).skip(1) =~= a@.skip(gi + 1));
            assert(b@.skip(gi).skip(1) =~= b@.skip(gi + 1));
            gi = gi + 1;
        }
        i = i + 1;
    }
    if i == x.len() {
        if i == y.len() {
            Ordering::Equal
        } else {
            Ordering::Less
        }
    } else if i == y.len() {
        Ordering::Greater
    } else if x[i] < y[i] {
        Ordering::Less
    } else {
        Ordering::Greater
    }
}

impl Constant {
    /// Whether two constants have the same value.
    pub fn eq(&self, other: &Constant) -> (r: bool)
        ensures
            r == (self@ == other@),
        decreases self,
    {
        match self {
            Constant::Str(l) => match other {
                Constant::Str(r) => *l == *r,
                _ => false,
            },
            Constant::Binary(l) => match other {
                Constant::Binary(r) => {
                    if l.len() != r.len() {
                        return false;
                    }
                    let mut i: usize = 0;
                    while i < l.len()
                        invariant
                            *self == Constant::Binary(*l),
                            *other == Constant::Binary(*r),
                            i <= l@.len(),
                            l@.len() == r@.len(),
                            forall|j: int| 0 <= j < i ==> l@[j] == r@[j],
                        decreases l@.len() - i,
                    {
                        if l[i] != r[i] {
                            proof {
                                assert(l@[i as int] != r@[i as int]);
                                assert(l@ != r@);
                            }
                            return false;
                        }
                        i = i + 1;
                    }
                    proof {
                        assert(l@ =~= r@);
                    }
                    true
                },
                _ => false,
            },
            Constant::Char(l) => match other {
                Constant::Char(r) => *l == *r,
                _ => false,
            },
            Constant::Int(l) => match other {
                Constant::Int(r) => *l == *r,
                _ => false,
            },
            Constant::Bool(l) => match other {
                Constant::Bool(r) => *l == *r,
                _ => false,
            },
            Constant::Vec(l) => match other {
                Constant::Vec(r) => seq_eq(l, r),
                _ => false,
            },
            Constant::Tuple(l) => match other {
                Constant::Tuple(r) => seq_eq(l, r),
                _ => false,
            },
            Constant::Repeat(lv, ls) => match other {
                Constant::Repeat(rv, rs) => *ls == *rs && lv.eq(rv),
                _ => false,
            },
        }
    }

    /// The order of two constants: within a kind, none across kinds.
    pub fn partial_cmp(&self, other: &Constant) -> (r: Option<Ordering>)
        ensures
            r == constant_order(self@, other@),
        decreases self, 1nat,
    {
        match self {
            Constant::Str(l) => match other {
                Constant::Str(r) => Some(str_order(l.as_str(), r.as_str())),
                _ => None,
            },
            Constant::Char(l) => match other {
                Constant::Char(r) => Some(if *l < *r {
                    Ordering::Less
                } else if *l == *r {
                    Ordering::Equal
                } else {
                    Ordering::Greater
                }),
                _ => None,
            },
            Constant::Int(l) => match other {
                Constant::Int(r) => Some(cmp_u128(*l, *r)),
                _ => None,
            },
            Constant::Bool(l) => match other {
                Constant::Bool(r) => Some(if *l == *r {
                    Ordering::Equal
                } else if !*l {
                    Ordering::Less
                } else {
                    Ordering::Greater
                }),
                _ => None,
            },
            Constant::Tuple(l) => match other {
                Constant::Tuple(r) => seq_partial_cmp(l, r),
                _ => None,
            },
            Constant::Vec(l) => match other {
                Constant::Vec(r) => seq_partial_cmp(l, r),
                _ => None,
            },
            Constant::Repeat(lv, ls) => match other {
                Constant::Repeat(rv, rs) => match lv.partial_cmp(rv) {
                    Some(Ordering::Equal) => Some(cmp_u64(*ls, *rs)),
                    x => x,
                },
                _ => None,
            },
            Constant::Binary(_) => None,
        }
    }
}

/// Whether two sequences of constants have the same values.
fn seq_eq(l: &Vec<Constant>, r: &Vec<Constant>) -> (b: bool)
    ensures
        b == (cviews(l@) == cviews(r@)),
    decreases l@, 0nat,
{
    proof {
        lemma_cviews(l@);
        lemma_cviews(r@);
    }
    if l.len() != r.len() {
        return false;
    }
    let mut i: usize = 0;
    while i < l.len()
        invariant
            i <= l@.len(),
            l@.len() == r@.len(),
            cviews(l@).len() == l@.len(),
            cviews(r@).len() == r@.len(),
            forall|k: int| 0 <= k < l@.len() ==> #[trigger] cviews(l@)[k] == cview(l@[k]),
            forall|k: int| 0 <= k < r@.len() ==> #[trigger] cviews(r@)[k] == cview(r@[k]),
            forall|j: int| 0 <= j < i ==> cview(#[trigger] l@[j]) == cview(r@[j]),
        decreases l@.len() - i,
    {
        proof {
            assert(decreases_to!(l@ => l@[i as int]));
        }
        if !l[i].eq(&r[i]) {
            proof {
                assert(cviews(l@)[i as int] != cviews(r@)[i as int]);
            }
            return false;
        }
        i = i + 1;
    }
    proof {
        assert(cviews(l@) =~= cviews(r@));
    }
    true
}

/// The lexicographic order of two sequences of constants.
fn seq_partial_cmp(l: &Vec<Constant>, r: &Vec<Constant>) -> (o: Option<Ordering>)
    ensures
        o == seq_order(cviews(l@), cviews(r@), 0),
    decreases l@, 0nat,
{
    proof {
        lemma_cviews(l@);
        lemma_cviews(r@);
    }
    let mut i: usize = 0;
    let ghost mut gi: int = 0;
    while i < l.len() && i < r.len()
        invariant
            gi == i,
            i <= l@.len(),
            i <= r@.len(),
            cviews(l@).len() == l@.len(),
            cviews(r@).len() == r@.len(),
            forall|k: int| 0 <= k < l@.len() ==> #[trigger] cviews(l@)[k] == cview(l@[k]),
            forall|k: int| 0 <= k < r@.len() ==> #[trigger] cviews(r@)[k] == cview(r@[k]),
            seq_order(cviews(l@), cviews(r@), 0) == seq_order(cviews(l@), cviews(r@), gi),
        decreases l@.len() - i,
    {
        proof {
            assert(decreases_to!(l@ => l@[gi]));
            assert(cviews(l@)[gi] == cview(l@[gi]));
            assert(cviews(r@)[gi] == cview(r@[gi]));
        }
        match l[i].partial_cmp(&r[i]) {
            Some(Ordering::Equal) => {},
            x => {
                return x;
            },
        }
        i = i + 1;
        proof {
            gi = gi + 1;
        }
    }
    Some(cmp_len(l.len(), r.len()))
}

/// The opposite order.
pub open spec fn reversed(o: Option<Ordering>) -> Option<Ordering> {
    match o {
        Some(Ordering::Less) => Some(Ordering::Greater),
        Some(Ordering::Greater) => Some(Ordering::Less),
        x => x,
    }
}

/// Character sequences in equal order are equal.
pub proof fn lemma_chars_order_equal(a: Seq<char>, b: Seq<char>)
    requires
        chars_order(a, b) == Ordering::Equal,
    ensures
        a == b,
    decreases a.len(),
{
    if a.len() > 0 && b.len() > 0 {
        lemma_chars_order_equal(a.skip(1), b.skip(1));
        assert(a =~= seq![a[0]] + a.skip(1));
        assert(b =~= seq![b[0]] + b.skip(1));
    }
}

/// Swapping two character sequences reverses their order.
pub proof fn lemma_chars_order_swap(a: Seq<char>, b: Seq<char>)
    ensures
        Some(chars_order(b, a)) == reversed(Some(chars_order(a, b))),
    decreases a.len(),
{
    if a.len() > 0 && b.len() > 0 {
        lemma_chars_order_swap(a.skip(1), b.skip(1));
    }
}

/// Two constants whose order is `Equal` have the same value: the order
/// never calls two different constants equal.
pub proof fn law_equal_order_means_equal(a: ConstantView, b: ConstantView)
    requires
        constant_order(a, b) == Some(Ordering::Equal),
    ensures
        a == b,
    decreases a, 1nat,
{
    match a {
        ConstantView::Str(l) => match b {
            ConstantView::Str(r) => lemma_chars_order_equal(l, r),
            _ => {},
        },
        ConstantView::Tuple(l) => match b {
            ConstantView::Tuple(r) => {
                lemma_seq_order_equal(l, r, 0);
                assert(l =~= r);
            },
            _ => {},
        },
        ConstantView::Vec(l) => match b {
            ConstantView::Vec(r) => {
                lemma_seq_order_equal(l, r, 0);
                assert(l =~= r);
            },
            _ => {},
        },
        ConstantView::Repeat(lv, ls) => match b {
            ConstantView::Repeat(rv, rs) => {
                law_equal_order_means_equal(*lv, *rv);
            },
            _ => {},
        },
        _ => {},
    }
}

/// Sequences in equal order from `i` on have the same length and agree
/// from `i` on.
pub proof fn lemma_seq_order_equal(l: Seq<ConstantView>, r: Seq<ConstantView>, i: int)
    requires
        0 <= i,
        seq_order(l, r, i) == Some(Ordering::Equal),
    ensures
        l.len() == r.len(),
        forall|k: int| i <= k < l.len() ==> l[k] == r[k],
    decreases l, l.len() - i,
{
    if i < l.len() && i < r.len() {
        law_equal_order_means_equal(l[i], r[i]);
        lemma_seq_order_equal(l, r, i + 1);
    }
}

/// Swapping two constants reverses their order; where they have none,
/// they have none either way.
pub proof fn law_order_swaps(a: ConstantView, b: ConstantView)
    ensures
        constant_order(b, a) == reversed(constant_order(a, b)),
    decreases a, 1nat,
{
    match a {
        ConstantView::Str(l) => match b {
            ConstantView::Str(r) => lemma_chars_order_swap(l, r),
            _ => {},
        },
        ConstantView::Tuple(l) => match b {
            ConstantView::Tuple(r) => lemma_seq_order_swap(l, r, 0),
            _ => {},
        },
        ConstantView::Vec(l) => match b {
            ConstantView::Vec(r) => lemma_seq_order_swap(l, r, 0),
            _ => {},
        },
        ConstantView::Repeat(lv, ls) => match b {
            ConstantView::Repeat(rv, rs) => law_order_swaps(*lv, *rv),
            _ => {},
        },
        _ => {},
    }
}

/// Swapping two sequences reverses their order from `i` on.
pub proof fn lemma_seq_order_swap(l: Seq<ConstantView>, r: Seq<ConstantView>, i: int)
    requires
        0 <= i,
    ensures
        seq_order(r, l, i) == reversed(seq_order(l, r, i)),
    decreases l, l.len() - i,
{
    if i < l.len() && i < r.len() {
        law_order_swaps(l[i], r[i]);
        lemma_seq_order_swap(l, r, i + 1);
    }
}

} // verus!
