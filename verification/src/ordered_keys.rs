//! Facts about the ordering of `u64` keys that ordered maps rely on.
use vstd::prelude::*;

verus! {

/// `u64` keys meet the ordering model that ordered maps and their iterators assume.
pub proof fn lemma_u64_keys_ordered()
    ensures
        vstd::std_specs::btree::key_obeys_cmp_spec::<u64>(),
        vstd::laws_cmp::obeys_cmp::<u64>(),
{
    broadcast use vstd::laws_cmp::group_laws_cmp, vstd::std_specs::btree::group_btree_axioms;
    assert(vstd::laws_cmp::obeys_cmp::<u64>());
}

} // verus!
