//! The `panic_params` lint: `panic!` with a single argument takes it as a
//! plain message, so `panic!("{}")` most likely misses a parameter.
use vstd::prelude::*;
use crate::hir::{Expr, ExprKind, Lit};
use crate::text::chars_of;

verus! {

/// What the compiler knows about a call that the lint looks at: whether
/// the function called is `begin_panic`, whether the expression comes
/// straight from the `panic!` macro, whether the literal argument comes from
/// another macro, and whether its span is empty.
#[derive(Copy, Clone, Debug)]
pub struct PanicFacts {
    pub calls_begin_panic: bool,
    pub from_panic_macro: bool,
    pub literal_from_callee: bool,
    pub literal_span_empty: bool,
}

/// Whether `s` has a `{` with a `}` at or after it.
pub open spec fn has_brace_pair(s: Seq<char>) -> bool {
    exists|i: int, j: int| 0 <= i <= j < s.len() && s[i] == '{' && s[j] == '}'
}

/// The id of the argument to report on: the literal first argument of a
/// two-argument `begin_panic` call that ends a block expanded from `panic!`,
/// when that literal holds a `{` followed by a `}`.
pub open spec fn panic_report(e: Expr, f: PanicFacts) -> Option<u32> {
    match e.node {
        ExprKind::Block(b) => match b.expr {
            Some(ex) => match ex.node {
                ExprKind::Call(fun, params) => if params@.len() == 2 && fun.node is Path && f.calls_begin_panic {
                    match params@[0].node {
                        ExprKind::Lit(Lit::Str(s)) => if f.from_panic_macro && has_brace_pair(s@)
                            && !f.literal_from_callee && !f.literal_span_empty {
                            Some(params@[0].id)
                        } else {
                            None
                        },
                        _ => None,
                    }
                } else {
                    None
                },
                _ => None,
            },
            None => None,
        },
        _ => None,
    }
}

/// Whether `s` has a `{` with a `}` at or after it.
pub fn brace_pair(s: &str) -> (r: bool)
    ensures
        r == has_brace_pair(s@),
{
    let v = chars_of(s);
    let n = v.len();
    let mut i: usize = 0;
    while i < n && v[i] != '{'
        invariant
            v@ == s@,
            n == v@.len(),
            i <= n,
            forall|k: int| 0 <= k < i ==> v@[k] != '{',
        decreases n - i,
    {
        i = i + 1;
    }
    if i == n {
        proof {
            assert(!has_brace_pair(s@));
        }
        return false;
    }
    let mut j: usize = i;
    while j < n && v[j] != '}'
        invariant
            v@ == s@,
            n == v@.len(),
            i <= j <= n,
            i < n,
            v@[i as int] == '{',
            forall|k: int| 0 <= k < i ==> v@[k] != '{',
            forall|k: int| i <= k < j ==> v@[k] != '}',
        decreases n - j,
    {
        j = j + 1;
    }
    if j < n {
        proof {
            assert(s@[i as int] == '{' && s@[j as int] == '}');
        }
        true
    } else {
        proof {
            assert forall|a: int, b: int| 0 <= a <= b < s@.len() && s@[a] == '{' implies s@[b] != '}' by {
                assert(a >= i);
            }
        }
        false
    }
}

/// The lint.
#[derive(Copy, Clone, Debug)]
pub struct Pass;

impl Pass {
    /// The id of the argument to report on in `e`, if any.
    pub fn check_expr(&self, e: &Expr, facts: PanicFacts) -> (r: Option<u32>)
        ensures
            r == panic_report(*e, facts),
    {
        if let ExprKind::Block(b) = &e.node {
            if let Some(ex) = &b.expr {
                if let ExprKind::Call(fun, params) = &ex.node {
                    if params.len() == 2 && matches!(fun.node, ExprKind::Path(_)) && facts.calls_begin_panic {
                        if let ExprKind::Lit(Lit::Str(s)) = &params[0].node {
                            if facts.from_panic_macro && brace_pair(s.as_str()) && !facts.literal_from_callee
                                && !facts.literal_span_empty {
                                return Some(params[0].id);
                            }
                        }
                    }
                }
            }
        }
        None
    }
}

} // verus!
