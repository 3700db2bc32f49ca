//! The `serde_api_misuse` lint: an implementation of serde's `Visitor` that
//! has `visit_string` should have `visit_str` too.
use vstd::prelude::*;
use vstd::string::*;
use crate::cargo_clippy::same_text;

verus! {

broadcast use vstd::string::group_string_axioms;

/// An item of an `impl` block: its name and the id of its span.
#[derive(Debug)]
pub struct ImplItemRef {
    pub name: String,
    pub span: u32,
}

/// The span of the last item of `items`, before `n`, named `name`.
pub open spec fn last_named(items: Seq<ImplItemRef>, n: nat, name: Seq<char>) -> Option<u32>
    decreases n,
{
    if n == 0 {
        None
    } else if items[n - 1].name@ == name {
        Some(items[n - 1].span)
    } else {
        last_named(items, (n - 1) as nat, name)
    }
}

/// Where the lint reports on an `impl` of a trait with the items `items`;
/// `is_visitor` says whether the trait is serde's `de::Visitor`.
pub open spec fn serde_report(is_visitor: bool, items: Seq<ImplItemRef>) -> Option<u32> {
    let seen_str = last_named(items, items.len(), "visit_str"@);
    let seen_string = last_named(items, items.len(), "visit_string"@);
    if is_visitor && seen_string is Some && seen_str is None {
        seen_string
    } else {
        None
    }
}

/// The lint.
#[derive(Copy, Clone, Debug)]
pub struct Serde;

impl Serde {
    /// Where to report on an `impl` of a trait with the items `items`;
    /// `is_visitor` says whether the trait is serde's `de::Visitor`.
    pub fn check_item(&self, is_visitor: bool, items: &Vec<ImplItemRef>) -> (r: Option<u32>)
        ensures
            r == serde_report(is_visitor, items@),
    {
        if !is_visitor {
            return None;
        }
        let mut seen_str: Option<u32> = None;
        let mut seen_string: Option<u32> = None;
        let mut i: usize = 0;
        while i < items.len()
            invariant
                i <= items@.len(),
                seen_str == last_named(items@, i as nat, "visit_str"@),
                seen_string == last_named(items@, i as nat, "visit_string"@),
            decreases items@.len() - i,
        {
            if same_text(items[i].name.as_str(), "visit_str") {
                seen_str = Some(items[i].span);
            } else if same_text(items[i].name.as_str(), "visit_string") {
                seen_string = Some(items[i].span);
            }
            proof {
                reveal_strlit("visit_str");
                reveal_strlit("visit_string");
                assert("visit_str"@.len() != "visit_string"@.len());
            }
            i = i + 1;
        }
        match seen_string {
            Some(span) => if seen_str.is_none() {
                Some(span)
            } else {
                None
            },
            None => None,
        }
    }
}

} // verus!
